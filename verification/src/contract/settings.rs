//! The user's settings and their validity.

use vstd::prelude::*;
use vstd::string::*;

use crate::split::{non_empty, pieces, pieces_extend, split, Delimiter};
use crate::text::{
    all_white_space, ascii_lowered, blank, blank_means_white_space, chars_of, is_blank, not_blank,
    same_text, to_ascii_lowercase, trim, trimmed, untouched_by_trimming, views,
};

verus! {

broadcast use vstd::string::group_string_axioms;

#[derive(Clone, PartialEq, Eq, Debug)]
pub struct GeneralSettings {
    pub language: String,
    pub auto_stop_ms: u64,
    pub history_enabled: bool,
}

/// Capture settings. The noise gate is given in thousandths of full scale.
#[derive(Clone, PartialEq, Eq, Debug)]
pub struct AudioSettings {
    pub input_device_id: String,
    pub phrase_silence_ms: u64,
    pub noise_gate_threshold: u64,
    pub speech_confirmation_ms: u64,
}

#[derive(Clone, PartialEq, Eq, Debug)]
pub struct TranscriptionSettings {
    pub backend_id: String,
    pub model_id: String,
    pub model_path: Option<String>,
    pub prompt: Option<String>,
    pub vocabulary: Vec<String>,
    pub remove_filler_words: bool,
    pub filler_words: Vec<String>,
}

#[derive(Clone, PartialEq, Eq, Debug)]
pub struct PostProcessingSettings {
    pub enabled: bool,
    pub prompt_rewrite_enabled: bool,
    pub backend_id: String,
    pub model_id: String,
    pub endpoint: String,
    pub credential_id: Option<String>,
    pub instruction: String,
    pub prompt_rewrite_instruction: String,
}

#[derive(Clone, Copy, PartialEq, Eq, Structural, Debug)]
pub enum OutputMode {
    Keyboard,
    Clipboard,
    /// The text is shown but written nowhere.
    Nothing,
}

#[derive(Clone, Copy, PartialEq, Eq, Structural, Debug)]
pub struct OutputSettings {
    pub mode: OutputMode,
    pub key_delay_ms: u64,
}

#[derive(Clone, PartialEq, Eq, Debug)]
pub struct ShortcutSettings {
    pub record: String,
}

#[derive(Clone, Copy, PartialEq, Eq, Structural, Debug)]
pub enum OverlaySize {
    Small,
    Medium,
    Large,
}

#[derive(Clone, Copy, PartialEq, Eq, Structural, Debug)]
pub enum ScreenAnchor {
    TopLeft,
    TopCenter,
    TopRight,
    CenterLeft,
    Center,
    CenterRight,
    BottomLeft,
    BottomCenter,
    BottomRight,
}

#[derive(Clone, Copy, PartialEq, Eq, Structural, Debug)]
pub struct OverlaySettings {
    pub enabled: bool,
    pub show_partial_transcript: bool,
    pub size: OverlaySize,
    pub screen_anchor: ScreenAnchor,
}

#[derive(Clone, PartialEq, Eq, Debug)]
pub struct Settings {
    pub schema_version: u32,
    pub general: GeneralSettings,
    pub audio: AudioSettings,
    pub transcription: TranscriptionSettings,
    pub post_processing: PostProcessingSettings,
    pub output: OutputSettings,
    pub shortcut: ShortcutSettings,
    pub overlay: OverlaySettings,
}

/// The first setting that is not valid, and what is asked of it.
#[derive(Clone, Copy, PartialEq, Eq, Debug)]
pub struct SettingsValidationError {
    pub field: &'static str,
    pub message: &'static str,
}

// ---------------------------------------------------------------------------
// Shortcuts
// ---------------------------------------------------------------------------

/// The names of the modifier keys.
pub open spec fn is_modifier(part: Seq<char>) -> bool {
    let name = ascii_lowered(part);
    ||| name == "super"@
    ||| name == "meta"@
    ||| name == "win"@
    ||| name == "shift"@
    ||| name == "ctrl"@
    ||| name == "control"@
    ||| name == "alt"@
}

/// Whether a part of a shortcut names a modifier key.
pub fn modifier(part: &str) -> (result: bool)
    ensures
        result == is_modifier(part@),
{
    let name = to_ascii_lowercase(part);
    let name = name.as_str();
    same_text(name, "super") || same_text(name, "meta") || same_text(name, "win") || same_text(
        name,
        "shift",
    ) || same_text(name, "ctrl") || same_text(name, "control") || same_text(name, "alt")
}

/// Every part trimmed.
pub open spec fn trimmed_parts(parts: Seq<Seq<char>>) -> Seq<Seq<char>> {
    Seq::new(parts.len(), |i: int| trimmed(parts[i]))
}

/// The parts of a shortcut: what stands between its plus signs, trimmed, where anything
/// is left.
pub open spec fn shortcut_parts(shortcut: Seq<char>) -> Seq<Seq<char>> {
    non_empty(trimmed_parts(pieces(shortcut, Delimiter::Char('+'))))
}

/// Trims the pieces between the occurrences of a character and keeps those with anything
/// left.
pub fn split_trimmed(s: &str, d: char) -> (result: Vec<String>)
    ensures
        views(result@) == non_empty(trimmed_parts(pieces(s@, Delimiter::Char(d)))),
{
    let parts = split(s, Delimiter::Char(d));
    let mut result: Vec<String> = Vec::new();
    let ghost all = trimmed_parts(views(parts@));
    let mut i: usize = 0;
    assert(views(result@) =~= non_empty(all.take(0)));
    while i < parts.len()
        invariant
            i <= parts.len(),
            all == trimmed_parts(views(parts@)),
            views(result@) == non_empty(all.take(i as int)),
        decreases parts.len() - i,
    {
        let part = trim(parts[i].as_str());
        let ghost before = views(result@);
        assert(all.take(i + 1).drop_last() =~= all.take(i as int));
        assert(all.take(i + 1).last() == part@);
        let size = chars_of(part.as_str()).len();
        if size > 0 {
            result.push(part);
            assert(views(result@) =~= before.push(part@));
        }
        i += 1;
    }
    assert(all.take(i as int) =~= all);
    result
}

/// The parts that name no modifier.
pub open spec fn key_parts(parts: Seq<Seq<char>>) -> Seq<Seq<char>>
    decreases parts.len(),
{
    if parts.len() == 0 {
        parts
    } else {
        let before = key_parts(parts.drop_last());
        if is_modifier(parts.last()) {
            before
        } else {
            before.push(parts.last())
        }
    }
}

/// A shortcut holds a modifier and exactly one other key.
pub open spec fn is_valid_shortcut(shortcut: Seq<char>) -> bool {
    let parts = shortcut_parts(shortcut);
    &&& exists|i: int| 0 <= i < parts.len() && is_modifier(#[trigger] parts[i])
    &&& key_parts(parts).len() == 1
}

/// Whether a shortcut holds a modifier and exactly one other key.
pub fn valid_shortcut(shortcut: &str) -> (result: bool)
    ensures
        result == is_valid_shortcut(shortcut@),
{
    let parts = split_trimmed(shortcut, '+');
    let ghost all = shortcut_parts(shortcut@);
    let mut has_modifier = false;
    let mut keys: usize = 0;
    let mut i: usize = 0;
    assert(key_parts(all.take(0)).len() == 0);
    while i < parts.len()
        invariant
            i <= parts.len(),
            views(parts@) == all,
            all == shortcut_parts(shortcut@),
            keys <= i,
            has_modifier == exists|k: int| 0 <= k < i && is_modifier(#[trigger] all[k]),
            keys == key_parts(all.take(i as int)).len(),
        decreases parts.len() - i,
    {
        assert(all.take(i + 1).drop_last() =~= all.take(i as int));
        assert(all[i as int] == parts@[i as int]@);
        if modifier(parts[i].as_str()) {
            has_modifier = true;
        } else {
            keys += 1;
        }
        i += 1;
    }
    assert(all.take(i as int) =~= all);
    has_modifier && keys == 1
}

// ---------------------------------------------------------------------------
// Validity
// ---------------------------------------------------------------------------

/// Some stage after transcription rewrites the text.
pub open spec fn wants_text_processing(p: PostProcessingSettings) -> bool {
    p.enabled || p.prompt_rewrite_enabled
}

/// The first setting that is not valid, with what is asked of it.
pub open spec fn settings_problem(s: Settings) -> Option<(Seq<char>, Seq<char>)> {
    if s.schema_version != 1 {
        Some(("schema_version"@, "must be 1"@))
    } else if is_blank(s.general.language@) {
        Some(("general.language"@, "must not be empty"@))
    } else if !(250 <= s.general.auto_stop_ms <= 10_000) {
        Some(("general.auto_stop_ms"@, "must be between 250 and 10000"@))
    } else if !(100 <= s.audio.phrase_silence_ms <= 5_000) {
        Some(("audio.phrase_silence_ms"@, "must be between 100 and 5000"@))
    } else if s.audio.noise_gate_threshold == 0 {
        Some(("audio.noise_gate_threshold"@, "must be at least 1"@))
    } else if s.audio.speech_confirmation_ms > 1_000 {
        Some(("audio.speech_confirmation_ms"@, "must not exceed 1000"@))
    } else if is_blank(s.audio.input_device_id@) {
        Some(("audio.input_device_id"@, "must not be empty"@))
    } else if is_blank(s.transcription.backend_id@) || is_blank(s.transcription.model_id@) {
        Some(("transcription"@, "backend and model must not be empty"@))
    } else if wants_text_processing(s.post_processing) && (is_blank(s.post_processing.backend_id@)
        || is_blank(s.post_processing.model_id@) || is_blank(s.post_processing.endpoint@)
        || is_blank(s.post_processing.instruction@)) {
        Some(
            (
                "post_processing"@,
                "enabled text processing requires backend, model and instruction"@,
            ),
        )
    } else if s.post_processing.prompt_rewrite_enabled && is_blank(
        s.post_processing.prompt_rewrite_instruction@,
    ) {
        Some(
            (
                "post_processing.prompt_rewrite_instruction"@,
                "must not be empty while prompt rewriting is enabled"@,
            ),
        )
    } else if s.output.key_delay_ms > 1_000 {
        Some(("output.key_delay_ms"@, "must not exceed 1000"@))
    } else if !is_valid_shortcut(s.shortcut.record@) {
        Some(("shortcut.record"@, "must contain a modifier and exactly one key"@))
    } else {
        None
    }
}

/// The settings are valid.
pub open spec fn settings_valid(s: Settings) -> bool {
    settings_problem(s) is None
}

impl Settings {
    /// Checks every setting and reports the first that is not valid.
    pub fn validate(&self) -> (result: Result<(), SettingsValidationError>)
        ensures
            match result {
                Ok(()) => settings_valid(*self),
                Err(error) => settings_problem(*self) == Some((error.field@, error.message@)),
            },
    {
        if self.schema_version != 1 {
            return Err(SettingsValidationError { field: "schema_version", message: "must be 1" });
        }
        if blank(self.general.language.as_str()) {
            return Err(
                SettingsValidationError { field: "general.language", message: "must not be empty" },
            );
        }
        if self.general.auto_stop_ms < 250 || self.general.auto_stop_ms > 10_000 {
            return Err(
                SettingsValidationError {
                    field: "general.auto_stop_ms",
                    message: "must be between 250 and 10000",
                },
            );
        }
        if self.audio.phrase_silence_ms < 100 || self.audio.phrase_silence_ms > 5_000 {
            return Err(
                SettingsValidationError {
                    field: "audio.phrase_silence_ms",
                    message: "must be between 100 and 5000",
                },
            );
        }
        if self.audio.noise_gate_threshold == 0 {
            return Err(
                SettingsValidationError {
                    field: "audio.noise_gate_threshold",
                    message: "must be at least 1",
                },
            );
        }
        if self.audio.speech_confirmation_ms > 1_000 {
            return Err(
                SettingsValidationError {
                    field: "audio.speech_confirmation_ms",
                    message: "must not exceed 1000",
                },
            );
        }
        if blank(self.audio.input_device_id.as_str()) {
            return Err(
                SettingsValidationError {
                    field: "audio.input_device_id",
                    message: "must not be empty",
                },
            );
        }
        if blank(self.transcription.backend_id.as_str()) || blank(
            self.transcription.model_id.as_str(),
        ) {
            return Err(
                SettingsValidationError {
                    field: "transcription",
                    message: "backend and model must not be empty",
                },
            );
        }
        let post = &self.post_processing;
        if (post.enabled || post.prompt_rewrite_enabled) && (blank(post.backend_id.as_str())
            || blank(post.model_id.as_str()) || blank(post.endpoint.as_str()) || blank(
            post.instruction.as_str(),
        )) {
            return Err(
                SettingsValidationError {
                    field: "post_processing",
                    message: "enabled text processing requires backend, model and instruction",
                },
            );
        }
        if post.prompt_rewrite_enabled && blank(post.prompt_rewrite_instruction.as_str()) {
            return Err(
                SettingsValidationError {
                    field: "post_processing.prompt_rewrite_instruction",
                    message: "must not be empty while prompt rewriting is enabled",
                },
            );
        }
        if self.output.key_delay_ms > 1_000 {
            return Err(
                SettingsValidationError {
                    field: "output.key_delay_ms",
                    message: "must not exceed 1000",
                },
            );
        }
        if !valid_shortcut(self.shortcut.record.as_str()) {
            return Err(
                SettingsValidationError {
                    field: "shortcut.record",
                    message: "must contain a modifier and exactly one key",
                },
            );
        }
        Ok(())
    }
}

// ---------------------------------------------------------------------------
// Defaults
// ---------------------------------------------------------------------------

/// The language, silence and history defaults.
pub open spec fn default_general(s: GeneralSettings) -> bool {
    &&& s.language@ == "pt"@
    &&& s.auto_stop_ms == 1000
    &&& s.history_enabled
}

impl Default for GeneralSettings {
    fn default() -> (result: Self)
        ensures
            default_general(result),
    {
        Self { language: String::from_str("pt"), auto_stop_ms: 1000, history_enabled: true }
    }
}

/// The capture defaults.
pub open spec fn default_audio(s: AudioSettings) -> bool {
    &&& s.input_device_id@ == "default"@
    &&& s.phrase_silence_ms == 700
    &&& s.noise_gate_threshold == 3
    &&& s.speech_confirmation_ms == 180
}

impl Default for AudioSettings {
    fn default() -> (result: Self)
        ensures
            default_audio(result),
    {
        Self {
            input_device_id: String::from_str("default"),
            phrase_silence_ms: 700,
            noise_gate_threshold: 3,
            speech_confirmation_ms: 180,
        }
    }
}

/// The transcription defaults.
pub open spec fn default_transcription(s: TranscriptionSettings) -> bool {
    &&& s.backend_id@ == "local-whisper"@
    &&& s.model_id@ == "large-v3-turbo-q5_0"@
    &&& s.model_path is None
    &&& s.prompt is None
    &&& s.vocabulary@.len() == 0
    &&& !s.remove_filler_words
    &&& s.filler_words@.len() == 0
}

impl Default for TranscriptionSettings {
    fn default() -> (result: Self)
        ensures
            default_transcription(result),
    {
        Self {
            backend_id: String::from_str("local-whisper"),
            model_id: String::from_str("large-v3-turbo-q5_0"),
            model_path: None,
            prompt: None,
            vocabulary: Vec::new(),
            remove_filler_words: false,
            filler_words: Vec::new(),
        }
    }
}

/// The text-processing defaults.
pub open spec fn default_post_processing(s: PostProcessingSettings) -> bool {
    &&& s.enabled
    &&& !s.prompt_rewrite_enabled
    &&& s.backend_id@ == "openai-compatible"@
    &&& s.model_id@ == "gemma-4-26b-no-reasoning"@
    &&& s.endpoint@ == "http://127.0.0.1:1234/v1/chat/completions"@
    &&& s.credential_id is None
    &&& s.instruction@ == "Correct punctuation without adding content."@
    &&& s.prompt_rewrite_instruction@ == "Rewrite the text as a clear prompt."@
}

impl Default for PostProcessingSettings {
    fn default() -> (result: Self)
        ensures
            default_post_processing(result),
    {
        Self {
            enabled: true,
            prompt_rewrite_enabled: false,
            backend_id: String::from_str("openai-compatible"),
            model_id: String::from_str("gemma-4-26b-no-reasoning"),
            endpoint: String::from_str("http://127.0.0.1:1234/v1/chat/completions"),
            credential_id: None,
            instruction: String::from_str("Correct punctuation without adding content."),
            prompt_rewrite_instruction: String::from_str("Rewrite the text as a clear prompt."),
        }
    }
}

impl Default for OutputSettings {
    fn default() -> (result: Self)
        ensures
            result == (OutputSettings { mode: OutputMode::Keyboard, key_delay_ms: 2 }),
    {
        Self { mode: OutputMode::Keyboard, key_delay_ms: 2 }
    }
}

impl Default for ShortcutSettings {
    fn default() -> (result: Self)
        ensures
            result.record@ == "Super+Shift+Space"@,
    {
        Self { record: String::from_str("Super+Shift+Space") }
    }
}

impl Default for OverlaySettings {
    fn default() -> (result: Self)
        ensures
            result == (OverlaySettings {
                enabled: true,
                show_partial_transcript: true,
                size: OverlaySize::Medium,
                screen_anchor: ScreenAnchor::BottomCenter,
            }),
    {
        Self {
            enabled: true,
            show_partial_transcript: true,
            size: OverlaySize::Medium,
            screen_anchor: ScreenAnchor::BottomCenter,
        }
    }
}

/// The default settings.
pub open spec fn default_settings(s: Settings) -> bool {
    &&& s.schema_version == 1
    &&& default_general(s.general)
    &&& default_audio(s.audio)
    &&& default_transcription(s.transcription)
    &&& default_post_processing(s.post_processing)
    &&& s.output == (OutputSettings { mode: OutputMode::Keyboard, key_delay_ms: 2 })
    &&& s.shortcut.record@ == "Super+Shift+Space"@
    &&& s.overlay == (OverlaySettings {
        enabled: true,
        show_partial_transcript: true,
        size: OverlaySize::Medium,
        screen_anchor: ScreenAnchor::BottomCenter,
    })
}

impl Default for Settings {
    fn default() -> (result: Self)
        ensures
            default_settings(result),
            settings_valid(result),
    {
        let result = Self {
            schema_version: 1,
            general: GeneralSettings::default(),
            audio: AudioSettings::default(),
            transcription: TranscriptionSettings::default(),
            post_processing: PostProcessingSettings::default(),
            output: OutputSettings::default(),
            shortcut: ShortcutSettings::default(),
            overlay: OverlaySettings::default(),
        };
        proof {
            default_settings_are_valid(result);
        }
        result
    }
}

/// The default settings are valid.
pub proof fn default_settings_are_valid(s: Settings)
    requires
        default_settings(s),
    ensures
        settings_valid(s),
{
    reveal_strlit("pt");
    reveal_strlit("default");
    reveal_strlit("local-whisper");
    reveal_strlit("large-v3-turbo-q5_0");
    reveal_strlit("openai-compatible");
    reveal_strlit("gemma-4-26b-no-reasoning");
    reveal_strlit("http://127.0.0.1:1234/v1/chat/completions");
    reveal_strlit("Correct punctuation without adding content.");
    not_blank(s.general.language@, 0);
    not_blank(s.audio.input_device_id@, 0);
    not_blank(s.transcription.backend_id@, 0);
    not_blank(s.transcription.model_id@, 0);
    not_blank(s.post_processing.backend_id@, 0);
    not_blank(s.post_processing.model_id@, 0);
    not_blank(s.post_processing.endpoint@, 0);
    not_blank(s.post_processing.instruction@, 0);
    default_shortcut_is_valid();
}

proof fn default_shortcut_is_valid()
    ensures
        is_valid_shortcut("Super+Shift+Space"@),
{
    reveal_strlit("Super+Shift+Space");
    reveal_strlit("super");
    reveal_strlit("shift");
    reveal_strlit("space");
    reveal_strlit("meta");
    reveal_strlit("win");
    reveal_strlit("ctrl");
    reveal_strlit("control");
    reveal_strlit("alt");
    let d = Delimiter::Char('+');
    let first = seq!['S', 'u', 'p', 'e', 'r'];
    let second = seq!['S', 'h', 'i', 'f', 't'];
    let third = seq!['S', 'p', 'a', 'c', 'e'];
    let none = Seq::<char>::empty();
    let whole = "Super+Shift+Space"@;
    assert(pieces(none, d) =~= seq![none]);
    pieces_extend(none, first, d);
    assert(none + first =~= first);
    assert(pieces(first, d) =~= seq![first]);
    let one = first.push('+');
    assert(one.drop_last() =~= first);
    assert(pieces(one, d) =~= seq![first, none]);
    pieces_extend(one, second, d);
    let two = (one + second).push('+');
    assert(pieces(one + second, d) =~= seq![first, second]);
    assert(two.drop_last() =~= one + second);
    assert(pieces(two, d) =~= seq![first, second, none]);
    pieces_extend(two, third, d);
    assert(two + third =~= whole);
    assert(pieces(whole, d) =~= seq![first, second, third]);
    untouched_by_trimming(first);
    untouched_by_trimming(second);
    untouched_by_trimming(third);
    let parts = seq![first, second, third];
    assert(trimmed_parts(parts) =~= parts);
    assert(parts.drop_last() =~= seq![first, second]);
    assert(seq![first, second].drop_last() =~= seq![first]);
    assert(seq![first].drop_last() =~= Seq::<Seq<char>>::empty());
    reveal_with_fuel(non_empty, 4);
    assert(non_empty(parts) =~= parts);
    assert(ascii_lowered(first) =~= "super"@);
    assert(is_modifier(parts[0]));
    assert(ascii_lowered(second) =~= "shift"@);
    assert(ascii_lowered(third) =~= "space"@);
    assert("space"@.len() == 5);
    assert("space"@[1] == 'p');
    assert("super"@[1] == 'u');
    assert("shift"@[1] == 'h');
    assert(!is_modifier(third));
    reveal_with_fuel(key_parts, 4);
    assert(key_parts(parts).len() == 1);
}

/// Settings are valid exactly when every one of them keeps its range and none that is needed
/// is blank; the settings of the model are needed where it is used.
pub proof fn settings_are_valid_within_their_ranges(s: Settings)
    ensures
        settings_valid(s) <==> {
            let p = s.post_processing;
            let uses_model = p.enabled || p.prompt_rewrite_enabled;
            &&& s.schema_version == 1
            &&& !all_white_space(s.general.language@)
            &&& 250 <= s.general.auto_stop_ms && s.general.auto_stop_ms <= 10_000
            &&& 100 <= s.audio.phrase_silence_ms && s.audio.phrase_silence_ms <= 5_000
            &&& s.audio.noise_gate_threshold >= 1
            &&& s.audio.speech_confirmation_ms <= 1_000
            &&& !all_white_space(s.audio.input_device_id@)
            &&& !all_white_space(s.transcription.backend_id@)
            &&& !all_white_space(s.transcription.model_id@)
            &&& uses_model ==> !all_white_space(p.backend_id@) && !all_white_space(p.model_id@)
                && !all_white_space(p.endpoint@) && !all_white_space(p.instruction@)
            &&& p.prompt_rewrite_enabled ==> !all_white_space(p.prompt_rewrite_instruction@)
            &&& s.output.key_delay_ms <= 1_000
            &&& is_valid_shortcut(s.shortcut.record@)
        },
{
    blank_means_white_space(s.general.language@);
    blank_means_white_space(s.audio.input_device_id@);
    blank_means_white_space(s.transcription.backend_id@);
    blank_means_white_space(s.transcription.model_id@);
    blank_means_white_space(s.post_processing.backend_id@);
    blank_means_white_space(s.post_processing.model_id@);
    blank_means_white_space(s.post_processing.endpoint@);
    blank_means_white_space(s.post_processing.instruction@);
    blank_means_white_space(s.post_processing.prompt_rewrite_instruction@);
}

/// A shortcut is valid exactly when at least one of its parts is a modifier and exactly one
/// is not.
pub proof fn a_shortcut_has_one_key(shortcut: Seq<char>)
    ensures
        is_valid_shortcut(shortcut) <==> {
            let parts = shortcut_parts(shortcut);
            &&& parts.filter(|part: Seq<char>| !is_modifier(part)).len() == 1
            &&& parts.len() >= 2
        },
        key_parts(shortcut_parts(shortcut)) == shortcut_parts(shortcut).filter(
            |part: Seq<char>| !is_modifier(part),
        ),
{
    let parts = shortcut_parts(shortcut);
    keys_are_what_is_no_modifier(parts);
    keys_and_modifiers(parts);
}

proof fn keys_are_what_is_no_modifier(parts: Seq<Seq<char>>)
    ensures
        key_parts(parts) == parts.filter(|part: Seq<char>| !is_modifier(part)),
    decreases parts.len(),
{
    reveal(Seq::filter);
    if parts.len() > 0 {
        keys_are_what_is_no_modifier(parts.drop_last());
    } else {
        assert(key_parts(parts) =~= parts.filter(|part: Seq<char>| !is_modifier(part)));
    }
}

proof fn keys_and_modifiers(parts: Seq<Seq<char>>)
    ensures
        key_parts(parts).len() <= parts.len(),
        key_parts(parts).len() == parts.len() <==> forall|i: int|
            0 <= i < parts.len() ==> !is_modifier(#[trigger] parts[i]),
    decreases parts.len(),
{
    if parts.len() > 0 {
        let rest = parts.drop_last();
        keys_and_modifiers(rest);
        assert forall|i: int| 0 <= i < rest.len() implies rest[i] == #[trigger] parts[i] by {}
        assert(parts[parts.len() - 1] == parts.last());
        if key_parts(parts).len() == parts.len() {
            assert forall|i: int| 0 <= i < parts.len() implies !is_modifier(
                #[trigger] parts[i],
            ) by {
                if i < rest.len() {
                    assert(!is_modifier(rest[i]));
                }
            }
        }
        if forall|i: int| 0 <= i < parts.len() ==> !is_modifier(#[trigger] parts[i]) {
            assert forall|i: int| 0 <= i < rest.len() implies !is_modifier(#[trigger] rest[i]) by {
                assert(!is_modifier(parts[i]));
            }
        }
    }
}

/// Modifiers are known by their names in any case.
pub proof fn modifiers_are_known_in_any_case(part: Seq<char>, other: Seq<char>)
    requires
        crate::text::eq_ignore_ascii_case(part, other),
    ensures
        is_modifier(part) == is_modifier(other),
        is_modifier("super"@) && is_modifier("meta"@) && is_modifier("win"@) && is_modifier(
            "shift"@,
        ) && is_modifier("ctrl"@) && is_modifier("control"@) && is_modifier("alt"@),
{
    reveal_strlit("super");
    reveal_strlit("meta");
    reveal_strlit("win");
    reveal_strlit("shift");
    reveal_strlit("ctrl");
    reveal_strlit("control");
    reveal_strlit("alt");
    assert(ascii_lowered("super"@) =~= "super"@);
    assert(ascii_lowered("meta"@) =~= "meta"@);
    assert(ascii_lowered("win"@) =~= "win"@);
    assert(ascii_lowered("shift"@) =~= "shift"@);
    assert(ascii_lowered("ctrl"@) =~= "ctrl"@);
    assert(ascii_lowered("control"@) =~= "control"@);
    assert(ascii_lowered("alt"@) =~= "alt"@);
}

/// The parts of a shortcut stand between its plus signs, without the white space around
/// them; empty ones do not count.
pub proof fn shortcuts_are_parted_at_plus_signs(shortcut: Seq<char>)
    ensures
        shortcut_parts(shortcut) == pieces(shortcut, Delimiter::Char('+')).map_values(
            |part: Seq<char>| trimmed(part),
        ).filter(|part: Seq<char>| part.len() > 0),
{
    let parts = pieces(shortcut, Delimiter::Char('+'));
    assert(trimmed_parts(parts) =~= parts.map_values(|part: Seq<char>| trimmed(part)));
    crate::split::only_empty_parts_are_left_out(trimmed_parts(parts));
}

} // verus!
