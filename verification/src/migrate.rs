//! Taking over the configuration of whisrs.

use vstd::prelude::*;
use vstd::string::*;

use crate::contract::settings::{
    AudioSettings, GeneralSettings, OutputMode, OutputSettings, OverlaySettings, OverlaySize,
    PostProcessingSettings, Settings, TranscriptionSettings,
};
use crate::paths::{file_stem, path_file_stem};
use crate::split::{starts_with, strip_prefix};
use crate::text::{chars_of, copy_texts};

verus! {

broadcast use vstd::string::group_string_axioms;

#[derive(PartialEq, Eq, Debug)]
pub struct WhisrsGeneral {
    pub language: Option<String>,
    pub silence_timeout_ms: Option<u64>,
    pub remove_filler_words: Option<bool>,
    pub filler_words: Option<Vec<String>>,
    pub vocabulary: Option<Vec<String>>,
    pub overlay: Option<bool>,
    pub llm_post_process: Option<bool>,
    pub llm_instruction: Option<String>,
}

#[derive(PartialEq, Eq, Debug)]
pub struct WhisrsAudio {
    pub device: Option<String>,
}

#[derive(PartialEq, Eq, Debug)]
pub struct WhisrsInput {
    pub key_delay_ms: Option<u64>,
    pub clipboard_only: Option<bool>,
}

#[derive(PartialEq, Eq, Debug)]
pub struct WhisrsLocalWhisper {
    pub model_path: Option<String>,
    pub phrase_silence_ms: Option<u64>,
}

#[derive(PartialEq, Eq, Debug)]
pub struct WhisrsLlm {
    pub api_key: Option<String>,
    pub model: Option<String>,
    pub api_url: Option<String>,
}

#[derive(PartialEq, Eq, Debug)]
pub struct WhisrsOverlay {
    pub width: Option<u64>,
}

#[derive(PartialEq, Eq, Debug)]
pub struct WhisrsConfig {
    pub general: WhisrsGeneral,
    pub audio: WhisrsAudio,
    pub input: WhisrsInput,
    pub local_whisper: WhisrsLocalWhisper,
    pub llm: WhisrsLlm,
    pub overlay: WhisrsOverlay,
}

/// A text without any repetition of a prefix at its front.
pub open spec fn without_prefix(s: Seq<char>, prefix: Seq<char>) -> Seq<char>
    decreases s.len(),
{
    if prefix.len() > 0 && prefix.is_prefix_of(s) {
        without_prefix(s.skip(prefix.len() as int), prefix)
    } else {
        s
    }
}

fn strip_all(s: String, prefix: &str) -> (result: String)
    requires
        prefix@.len() > 0,
    ensures
        result@ == without_prefix(s@, prefix@),
{
    let mut rest = s;
    while starts_with(rest.as_str(), prefix)
        invariant
            prefix@.len() > 0,
            without_prefix(rest@, prefix@) == without_prefix(s@, prefix@),
        decreases rest@.len(),
    {
        match strip_prefix(rest.as_str(), prefix) {
            Some(next) => {
                rest = next;
            },
            None => {},
        }
    }
    rest
}

/// A new value where there is one, otherwise the old one.
pub open spec fn or_text(new: Option<String>, old_value: String) -> String {
    match new {
        Some(value) => value,
        None => old_value,
    }
}

/// A new number where there is one, otherwise the old one.
pub open spec fn or_number(new: Option<u64>, old_value: u64) -> u64 {
    match new {
        Some(value) => value,
        None => old_value,
    }
}

/// A new answer where there is one, otherwise the old one.
pub open spec fn or_flag(new: Option<bool>, old_value: bool) -> bool {
    match new {
        Some(value) => value,
        None => old_value,
    }
}

/// A new list where there is one, otherwise the old one.
pub open spec fn or_list(new: Option<Vec<String>>, old_value: Vec<String>) -> Seq<String> {
    match new {
        Some(value) => value@,
        None => old_value@,
    }
}

/// The model's name: that of its file, without the extension and without `ggml-` in front.
pub open spec fn model_name(path: Option<String>, old_value: Seq<char>) -> Seq<char> {
    match path {
        Some(path) => match path_file_stem(path@) {
            Some(stem) => without_prefix(stem, "ggml-"@),
            None => old_value,
        },
        None => old_value,
    }
}

/// The size of overlay that a width amounts to.
pub open spec fn size_for(width: Option<u64>) -> OverlaySize {
    match width {
        None => OverlaySize::Medium,
        Some(width) => if width <= 120 {
            OverlaySize::Small
        } else if width <= 180 {
            OverlaySize::Medium
        } else {
            OverlaySize::Large
        },
    }
}

/// The language and silence settings after a configuration was taken over.
pub open spec fn takes_over_general(
    before: GeneralSettings,
    config: WhisrsConfig,
    after: GeneralSettings,
) -> bool {
    &&& after.language == or_text(config.general.language, before.language)
    &&& after.auto_stop_ms == or_number(config.general.silence_timeout_ms, before.auto_stop_ms)
    &&& after.history_enabled == before.history_enabled
}

/// The capture settings after a configuration was taken over.
pub open spec fn takes_over_audio(
    before: AudioSettings,
    config: WhisrsConfig,
    after: AudioSettings,
) -> bool {
    &&& after.input_device_id == or_text(config.audio.device, before.input_device_id)
    &&& after.phrase_silence_ms == or_number(
        config.local_whisper.phrase_silence_ms,
        before.phrase_silence_ms,
    )
    &&& after.noise_gate_threshold == before.noise_gate_threshold
    &&& after.speech_confirmation_ms == before.speech_confirmation_ms
}

/// The transcription settings after a configuration was taken over.
pub open spec fn takes_over_transcription(
    before: TranscriptionSettings,
    config: WhisrsConfig,
    after: TranscriptionSettings,
) -> bool {
    &&& after.backend_id == before.backend_id
    &&& after.model_id@ == model_name(config.local_whisper.model_path, before.model_id@)
    &&& after.model_path == match config.local_whisper.model_path {
        Some(path) => Some(path),
        None => before.model_path,
    }
    &&& after.prompt == before.prompt
    &&& after.vocabulary@ == or_list(config.general.vocabulary, before.vocabulary)
    &&& after.remove_filler_words == or_flag(
        config.general.remove_filler_words,
        before.remove_filler_words,
    )
    &&& after.filler_words@ == or_list(config.general.filler_words, before.filler_words)
}

/// The text-processing settings after a configuration was taken over.
pub open spec fn takes_over_post_processing(
    before: PostProcessingSettings,
    config: WhisrsConfig,
    after: PostProcessingSettings,
) -> bool {
    &&& after.enabled == or_flag(config.general.llm_post_process, before.enabled)
    &&& after.prompt_rewrite_enabled == before.prompt_rewrite_enabled
    &&& after.backend_id == before.backend_id
    &&& after.model_id == or_text(config.llm.model, before.model_id)
    &&& after.endpoint == or_text(config.llm.api_url, before.endpoint)
    &&& after.credential_id == before.credential_id
    &&& after.instruction == or_text(config.general.llm_instruction, before.instruction)
    &&& after.prompt_rewrite_instruction == before.prompt_rewrite_instruction
}

/// The output settings after a configuration was taken over.
pub open spec fn takes_over_output(
    before: OutputSettings,
    config: WhisrsConfig,
    after: OutputSettings,
) -> bool {
    &&& after.mode == if config.input.clipboard_only == Some(true) {
        OutputMode::Clipboard
    } else {
        before.mode
    }
    &&& after.key_delay_ms == or_number(config.input.key_delay_ms, before.key_delay_ms)
}

/// The overlay settings after a configuration was taken over.
pub open spec fn takes_over_overlay(
    before: OverlaySettings,
    config: WhisrsConfig,
    after: OverlaySettings,
) -> bool {
    &&& after.enabled == or_flag(config.general.overlay, before.enabled)
    &&& after.show_partial_transcript == before.show_partial_transcript
    &&& after.size == size_for(config.overlay.width)
    &&& after.screen_anchor == before.screen_anchor
}

/// Settings after a configuration was taken over: what it names is new, and all else is as
/// it was.
pub open spec fn takes_over(before: Settings, config: WhisrsConfig, after: Settings) -> bool {
    &&& after.schema_version == before.schema_version
    &&& takes_over_general(before.general, config, after.general)
    &&& takes_over_audio(before.audio, config, after.audio)
    &&& takes_over_transcription(before.transcription, config, after.transcription)
    &&& takes_over_post_processing(before.post_processing, config, after.post_processing)
    &&& takes_over_output(before.output, config, after.output)
    &&& after.shortcut == before.shortcut
    &&& takes_over_overlay(before.overlay, config, after.overlay)
}

fn apply_general(general: &mut GeneralSettings, config: &WhisrsConfig)
    ensures
        takes_over_general(*old(general), *config, *final(general)),
{
    if let Some(value) = &config.general.language {
        general.language = value.clone();
    }
    if let Some(value) = config.general.silence_timeout_ms {
        general.auto_stop_ms = value;
    }
}

fn apply_audio(audio: &mut AudioSettings, config: &WhisrsConfig)
    ensures
        takes_over_audio(*old(audio), *config, *final(audio)),
{
    if let Some(value) = &config.audio.device {
        audio.input_device_id = value.clone();
    }
    if let Some(value) = config.local_whisper.phrase_silence_ms {
        audio.phrase_silence_ms = value;
    }
}

fn apply_transcription(transcription: &mut TranscriptionSettings, config: &WhisrsConfig)
    ensures
        takes_over_transcription(*old(transcription), *config, *final(transcription)),
{
    proof {
        reveal_strlit("ggml-");
    }
    if let Some(value) = &config.local_whisper.model_path {
        transcription.model_path = Some(value.clone());
        if let Some(stem) = file_stem(value.as_str()) {
            transcription.model_id = strip_all(stem, "ggml-");
        }
    }
    if let Some(value) = &config.general.vocabulary {
        transcription.vocabulary = copy_texts(value);
    }
    if let Some(value) = config.general.remove_filler_words {
        transcription.remove_filler_words = value;
    }
    if let Some(value) = &config.general.filler_words {
        transcription.filler_words = copy_texts(value);
    }
}

fn apply_post_processing(post: &mut PostProcessingSettings, config: &WhisrsConfig)
    ensures
        takes_over_post_processing(*old(post), *config, *final(post)),
{
    if let Some(value) = config.general.llm_post_process {
        post.enabled = value;
    }
    if let Some(value) = &config.llm.model {
        post.model_id = value.clone();
    }
    if let Some(value) = &config.llm.api_url {
        post.endpoint = value.clone();
    }
    if let Some(value) = &config.general.llm_instruction {
        post.instruction = value.clone();
    }
}

fn apply_output(output: &mut OutputSettings, config: &WhisrsConfig)
    ensures
        takes_over_output(*old(output), *config, *final(output)),
{
    if let Some(value) = config.input.key_delay_ms {
        output.key_delay_ms = value;
    }
    if let Some(true) = config.input.clipboard_only {
        output.mode = OutputMode::Clipboard;
    }
}

fn apply_overlay(overlay: &mut OverlaySettings, config: &WhisrsConfig)
    ensures
        takes_over_overlay(*old(overlay), *config, *final(overlay)),
{
    if let Some(value) = config.general.overlay {
        overlay.enabled = value;
    }
    overlay.size = match config.overlay.width {
        None => OverlaySize::Medium,
        Some(width) => {
            if width <= 120 {
                OverlaySize::Small
            } else if width <= 180 {
                OverlaySize::Medium
            } else {
                OverlaySize::Large
            }
        },
    };
}

/// Takes a configuration over into the settings.
pub fn apply_config(settings: &mut Settings, config: &WhisrsConfig)
    ensures
        takes_over(*old(settings), *config, *final(settings)),
{
    apply_general(&mut settings.general, config);
    apply_audio(&mut settings.audio, config);
    apply_transcription(&mut settings.transcription, config);
    apply_post_processing(&mut settings.post_processing, config);
    apply_output(&mut settings.output, config);
    apply_overlay(&mut settings.overlay, config);
}

/// A secret stays out of the settings: whatever it is, the settings are the same.
pub proof fn a_secret_is_not_taken_over(
    before: Settings,
    config: WhisrsConfig,
    other: WhisrsConfig,
    after: Settings,
)
    requires
        takes_over(before, config, after),
        other == (WhisrsConfig {
            llm: WhisrsLlm { api_key: other.llm.api_key, ..config.llm },
            ..config
        }),
    ensures
        takes_over(before, other, after),
{
}

/// The secret to move into the credential store, if the configuration holds one.
pub fn secret_to_store(config: &WhisrsConfig) -> (result: Option<&str>)
    ensures
        match result {
            Some(secret) => config.llm.api_key is Some && secret@ == config.llm.api_key->0@
                && secret@.len() > 0,
            None => config.llm.api_key is None || config.llm.api_key->0@.len() == 0,
        },
{
    match &config.llm.api_key {
        Some(secret) => {
            let size: usize = chars_of(secret.as_str()).len();
            if size == 0 {
                None
            } else {
                Some(secret.as_str())
            }
        },
        None => None,
    }
}

/// The name that a secret taken over is stored under.
pub const WHISRS_CREDENTIAL: &'static str = "whisrs-llm";

/// Takes note of whether the secret was stored: the settings name it only then.
pub fn name_credential(settings: &mut Settings, stored: bool)
    ensures
        !stored ==> *final(settings) == *old(settings),
        stored ==> {
            &&& final(settings).post_processing.credential_id matches Some(id) && id@
                == WHISRS_CREDENTIAL@
            &&& *final(settings) == (Settings {
                post_processing: PostProcessingSettings {
                    credential_id: final(settings).post_processing.credential_id,
                    ..old(settings).post_processing
                },
                ..*old(settings)
            })
        },
{
    if stored {
        settings.post_processing.credential_id = Some(String::from_str(WHISRS_CREDENTIAL));
    }
}

/// What stands at the front is taken off as often as it stands there, and nothing else.
pub proof fn prefixes_are_taken_off(s: Seq<char>, prefix: Seq<char>)
    requires
        prefix.len() > 0,
    ensures
        without_prefix(prefix + s, prefix) == without_prefix(s, prefix),
        !prefix.is_prefix_of(s) ==> without_prefix(s, prefix) == s,
        !prefix.is_prefix_of(without_prefix(s, prefix)),
    decreases s.len(),
{
    assert(prefix.is_prefix_of(prefix + s));
    assert((prefix + s).skip(prefix.len() as int) =~= s);
    if prefix.is_prefix_of(s) {
        prefixes_are_taken_off(s.skip(prefix.len() as int), prefix);
    }
}

/// What a configuration names is taken over.
pub proof fn what_is_named_is_taken_over(before: Settings, config: WhisrsConfig, after: Settings)
    requires
        takes_over(before, config, after),
    ensures
        config.general.language matches Some(v) ==> after.general.language == v,
        config.general.silence_timeout_ms matches Some(v) ==> after.general.auto_stop_ms == v,
        config.general.remove_filler_words matches Some(v)
            ==> after.transcription.remove_filler_words == v,
        config.general.filler_words matches Some(v) ==> after.transcription.filler_words@ == v@,
        config.general.vocabulary matches Some(v) ==> after.transcription.vocabulary@ == v@,
        config.general.overlay matches Some(v) ==> after.overlay.enabled == v,
        config.general.llm_post_process matches Some(v) ==> after.post_processing.enabled == v,
        config.general.llm_instruction matches Some(v) ==> after.post_processing.instruction == v,
        config.audio.device matches Some(v) ==> after.audio.input_device_id == v,
        config.input.key_delay_ms matches Some(v) ==> after.output.key_delay_ms == v,
        config.input.clipboard_only == Some(true) ==> after.output.mode is Clipboard,
        config.input.clipboard_only != Some(true) ==> after.output.mode == before.output.mode,
        config.local_whisper.model_path matches Some(v) ==> after.transcription.model_path == Some(v),
        config.local_whisper.phrase_silence_ms matches Some(v) ==> after.audio.phrase_silence_ms
            == v,
        config.llm.model matches Some(v) ==> after.post_processing.model_id == v,
        config.llm.api_url matches Some(v) ==> after.post_processing.endpoint == v,
        config.overlay.width matches Some(v) ==> {
            &&& after.overlay.size is Small <==> v <= 120
            &&& after.overlay.size is Large <==> v > 180
        },
        config.overlay.width is None ==> after.overlay.size is Medium,
{
}

/// What a configuration does not name stays as it was.
pub proof fn what_is_not_named_stays(before: Settings, config: WhisrsConfig, after: Settings)
    requires
        takes_over(before, config, after),
    ensures
        config.general.language is None ==> after.general.language == before.general.language,
        config.general.silence_timeout_ms is None ==> after.general.auto_stop_ms
            == before.general.auto_stop_ms,
        config.general.remove_filler_words is None ==> after.transcription.remove_filler_words
            == before.transcription.remove_filler_words,
        config.general.filler_words is None ==> after.transcription.filler_words@
            == before.transcription.filler_words@,
        config.general.vocabulary is None ==> after.transcription.vocabulary@
            == before.transcription.vocabulary@,
        config.general.overlay is None ==> after.overlay.enabled == before.overlay.enabled,
        config.general.llm_post_process is None ==> after.post_processing.enabled
            == before.post_processing.enabled,
        config.general.llm_instruction is None ==> after.post_processing.instruction
            == before.post_processing.instruction,
        config.audio.device is None ==> after.audio.input_device_id
            == before.audio.input_device_id,
        config.input.key_delay_ms is None ==> after.output.key_delay_ms
            == before.output.key_delay_ms,
        config.local_whisper.model_path is None ==> after.transcription.model_path
            == before.transcription.model_path && after.transcription.model_id@
            == before.transcription.model_id@,
        config.local_whisper.phrase_silence_ms is None ==> after.audio.phrase_silence_ms
            == before.audio.phrase_silence_ms,
        config.llm.model is None ==> after.post_processing.model_id
            == before.post_processing.model_id,
        config.llm.api_url is None ==> after.post_processing.endpoint
            == before.post_processing.endpoint,
        after.schema_version == before.schema_version,
        after.shortcut == before.shortcut,
        after.general.history_enabled == before.general.history_enabled,
        after.audio.noise_gate_threshold == before.audio.noise_gate_threshold,
        after.audio.speech_confirmation_ms == before.audio.speech_confirmation_ms,
        after.transcription.backend_id == before.transcription.backend_id,
        after.transcription.prompt == before.transcription.prompt,
        after.post_processing.backend_id == before.post_processing.backend_id,
        after.post_processing.credential_id == before.post_processing.credential_id,
        after.post_processing.prompt_rewrite_enabled
            == before.post_processing.prompt_rewrite_enabled,
        after.post_processing.prompt_rewrite_instruction
            == before.post_processing.prompt_rewrite_instruction,
        after.overlay.show_partial_transcript == before.overlay.show_partial_transcript,
        after.overlay.screen_anchor == before.overlay.screen_anchor,
{
}

/// The model is named after its file: wherever the file lies, its name is what stands
/// between `ggml-` and the extension.
pub proof fn models_are_named_after_their_files(
    path: String,
    dir: Seq<char>,
    name: Seq<char>,
    extension: Seq<char>,
    old_value: Seq<char>,
)
    requires
        path@ == dir + seq!['/'] + "ggml-"@ + name + seq!['.'] + extension,
        !"ggml-"@.is_prefix_of(name),
        forall|i: int| 0 <= i < name.len() ==> #[trigger] name[i] != '/',
        forall|i: int|
            0 <= i < extension.len() ==> #[trigger] extension[i] != '/' && extension[i] != '.',
    ensures
        model_name(Some(path), old_value) == name,
{
    reveal_strlit("ggml-");
    reveal_strlit(".");
    reveal_strlit("..");
    let stem = "ggml-"@ + name;
    let file = stem + seq!['.'] + extension;
    assert(path@ =~= dir + seq!['/'] + file);
    assert forall|i: int| 0 <= i < file.len() implies #[trigger] file[i] != '/' by {
        if i < 5 {
            assert(file[i] == "ggml-"@[i]);
        } else if i < stem.len() {
            assert(file[i] == name[i - 5]);
        } else if i > stem.len() {
            assert(file[i] == extension[i - stem.len() - 1]);
        }
    }
    assert(file.len() > 2);
    crate::paths::names_are_found_below_any_directory(dir, file);
    crate::paths::the_last_dot_is_last(file);
    assert(file[stem.len() as int] == '.');
    assert forall|i: int| stem.len() < i < file.len() implies #[trigger] file[i] != '.' by {
        assert(file[i] == extension[i - stem.len() - 1]);
    }
    assert(crate::paths::last_dot(file) == Some(stem.len() as int));
    assert(file.take(stem.len() as int) =~= stem);
    prefixes_are_taken_off(name, "ggml-"@);
}

} // verus!
