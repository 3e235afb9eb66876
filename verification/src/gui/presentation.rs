//! What the window, the overlay and the tray show, and what the user entered.

use vstd::prelude::*;
use vstd::string::*;

use crate::contract::dto::{AudioDevice, BackendChoice, DiagnosticCheck, DictationState, HistoryEntry};
use crate::contract::settings::{
    split_trimmed, trimmed_parts, OutputMode, OverlaySize, ScreenAnchor, Settings,
};
use crate::gui::view_model::GuiViewModel;
use crate::split::{found_at, join, join_with, non_empty, pieces, Delimiter};
use crate::text::{
    blank, chars_of, is_blank, is_white_space, listed, lists, opt_view, same_text, text_of, trimmed,
    untouched_by_trimming, views,
};

verus! {

broadcast use vstd::string::group_string_axioms;

/// The state as the window shows it.
#[derive(Clone, Copy, PartialEq, Eq, Structural, Debug)]
pub enum UiState {
    Starting,
    Idle,
    Recording,
    Transcribing,
    PostProcessing,
    Injecting,
    Error,
}

/// The properties of the settings window.
#[derive(PartialEq, Eq, Debug)]
pub struct SettingsWindow {
    pub backend_state: UiState,
    pub status_text: String,
    pub save_error_field: String,
    pub save_error: String,
    pub settings_stale: bool,
    pub input_device_options: Vec<String>,
    pub transcription_backend_options: Vec<String>,
    pub post_processing_backend_options: Vec<String>,
    pub shortcut_supported: bool,
    pub keyboard_insertion_supported: bool,
    pub credential_store_supported: bool,
    pub overlay_supported: bool,
    pub history_items: Vec<String>,
    pub diagnostic_items: Vec<String>,
    pub diagnostic_log_path: String,
    pub form: SettingsForm,
}

/// The entries of the settings window.
#[derive(PartialEq, Eq, Debug)]
pub struct SettingsForm {
    pub language: String,
    pub auto_stop_ms: i32,
    pub history_enabled: bool,
    pub input_device: String,
    pub phrase_silence_ms: i32,
    pub transcription_backend: String,
    pub transcription_model: String,
    pub transcription_model_path: String,
    pub transcription_prompt: String,
    pub transcription_vocabulary: String,
    pub remove_filler_words: bool,
    pub filler_words: String,
    pub post_processing_enabled: bool,
    pub post_processing_backend: String,
    pub post_processing_model: String,
    pub post_processing_endpoint: String,
    pub post_processing_credential_id: String,
    pub post_processing_credential_secret: String,
    pub post_processing_instruction: String,
    pub overlay_enabled: bool,
    pub partial_transcript_enabled: bool,
    pub overlay_size: String,
    pub overlay_position: String,
    pub shortcut: String,
    pub output_mode: String,
    pub key_delay_ms: i32,
}

/// The properties of the overlay.
#[derive(PartialEq, Eq, Debug)]
pub struct RecordingOverlay {
    pub backend_state: UiState,
    pub audio_level_bits: u32,
    pub size_preset: String,
    pub presented: bool,
}

/// The properties of the tray.
#[derive(PartialEq, Eq, Debug)]
pub struct AppTray {
    pub status_text: String,
    pub recording: bool,
}

/// What is to be done with the overlay.
#[derive(Clone, Copy, PartialEq, Eq, Structural, Debug)]
pub enum OverlayAction {
    Show { anchor: ScreenAnchor },
    Hide,
    Keep,
}

// ---------------------------------------------------------------------------
// Labels
// ---------------------------------------------------------------------------

/// The state as the window shows it.
pub open spec fn shown_state(state: DictationState) -> UiState {
    match state {
        DictationState::Starting => UiState::Starting,
        DictationState::Idle => UiState::Idle,
        DictationState::ShuttingDown => UiState::Idle,
        DictationState::Recording => UiState::Recording,
        DictationState::Transcribing => UiState::Transcribing,
        DictationState::PostProcessing => UiState::PostProcessing,
        DictationState::Injecting => UiState::Injecting,
        DictationState::Error => UiState::Error,
    }
}

/// The state as the window shows it.
#[must_use]
pub fn ui_state(state: DictationState) -> (result: UiState)
    ensures
        result == shown_state(state),
{
    match state {
        DictationState::Starting => UiState::Starting,
        DictationState::Idle => UiState::Idle,
        DictationState::ShuttingDown => UiState::Idle,
        DictationState::Recording => UiState::Recording,
        DictationState::Transcribing => UiState::Transcribing,
        DictationState::PostProcessing => UiState::PostProcessing,
        DictationState::Injecting => UiState::Injecting,
        DictationState::Error => UiState::Error,
    }
}

/// The status line: an error where there is one, otherwise the state in words.
pub open spec fn status_line(model: GuiViewModel) -> Seq<char> {
    match model.error {
        Some(error) => error@,
        None => match model.state {
            DictationState::Starting => "Connecting…"@,
            DictationState::Idle => "Ready"@,
            DictationState::Recording => "Listening…"@,
            DictationState::Transcribing => "Transcribing…"@,
            DictationState::PostProcessing => "Cleaning text…"@,
            DictationState::Injecting => "Inserting text…"@,
            DictationState::Error => "Backend error"@,
            DictationState::ShuttingDown => "Backend shutting down…"@,
        },
    }
}

/// The status line.
#[must_use]
pub fn status_text(model: &GuiViewModel) -> (result: String)
    ensures
        result@ == status_line(*model),
{
    match &model.error {
        Some(error) => error.clone(),
        None => {
            let text = match model.state {
                DictationState::Starting => "Connecting…",
                DictationState::Idle => "Ready",
                DictationState::Recording => "Listening…",
                DictationState::Transcribing => "Transcribing…",
                DictationState::PostProcessing => "Cleaning text…",
                DictationState::Injecting => "Inserting text…",
                DictationState::Error => "Backend error",
                DictationState::ShuttingDown => "Backend shutting down…",
            };
            String::from_str(text)
        },
    }
}

/// The label of an overlay size.
pub open spec fn size_name(value: OverlaySize) -> Seq<char> {
    match value {
        OverlaySize::Small => "Small"@,
        OverlaySize::Medium => "Medium"@,
        OverlaySize::Large => "Large"@,
    }
}

/// The label of an overlay size.
pub fn size_label(value: OverlaySize) -> (result: &'static str)
    ensures
        result@ == size_name(value),
{
    match value {
        OverlaySize::Small => "Small",
        OverlaySize::Medium => "Medium",
        OverlaySize::Large => "Large",
    }
}

/// The overlay size of a label; medium where the label is none.
pub open spec fn size_of_label(label: Seq<char>) -> OverlaySize {
    if label == "Small"@ {
        OverlaySize::Small
    } else if label == "Large"@ {
        OverlaySize::Large
    } else {
        OverlaySize::Medium
    }
}

/// The overlay size of a label.
pub fn parse_size(value: &str) -> (result: OverlaySize)
    ensures
        result == size_of_label(value@),
{
    if same_text(value, "Small") {
        OverlaySize::Small
    } else if same_text(value, "Large") {
        OverlaySize::Large
    } else {
        OverlaySize::Medium
    }
}

/// The label of a place on the screen.
pub open spec fn anchor_name(value: ScreenAnchor) -> Seq<char> {
    match value {
        ScreenAnchor::TopLeft => "Top left"@,
        ScreenAnchor::TopCenter => "Top center"@,
        ScreenAnchor::TopRight => "Top right"@,
        ScreenAnchor::CenterLeft => "Center left"@,
        ScreenAnchor::Center => "Center"@,
        ScreenAnchor::CenterRight => "Center right"@,
        ScreenAnchor::BottomLeft => "Bottom left"@,
        ScreenAnchor::BottomCenter => "Bottom center"@,
        ScreenAnchor::BottomRight => "Bottom right"@,
    }
}

/// The label of a place on the screen.
pub fn anchor_label(value: ScreenAnchor) -> (result: &'static str)
    ensures
        result@ == anchor_name(value),
{
    match value {
        ScreenAnchor::TopLeft => "Top left",
        ScreenAnchor::TopCenter => "Top center",
        ScreenAnchor::TopRight => "Top right",
        ScreenAnchor::CenterLeft => "Center left",
        ScreenAnchor::Center => "Center",
        ScreenAnchor::CenterRight => "Center right",
        ScreenAnchor::BottomLeft => "Bottom left",
        ScreenAnchor::BottomCenter => "Bottom center",
        ScreenAnchor::BottomRight => "Bottom right",
    }
}

/// The place on the screen of a label; bottom center where the label is none.
pub open spec fn anchor_of_label(label: Seq<char>) -> ScreenAnchor {
    if label == "Top left"@ {
        ScreenAnchor::TopLeft
    } else if label == "Top center"@ {
        ScreenAnchor::TopCenter
    } else if label == "Top right"@ {
        ScreenAnchor::TopRight
    } else if label == "Center left"@ {
        ScreenAnchor::CenterLeft
    } else if label == "Center"@ {
        ScreenAnchor::Center
    } else if label == "Center right"@ {
        ScreenAnchor::CenterRight
    } else if label == "Bottom left"@ {
        ScreenAnchor::BottomLeft
    } else if label == "Bottom right"@ {
        ScreenAnchor::BottomRight
    } else {
        ScreenAnchor::BottomCenter
    }
}

/// The place on the screen of a label.
pub fn parse_anchor(value: &str) -> (result: ScreenAnchor)
    ensures
        result == anchor_of_label(value@),
{
    if same_text(value, "Top left") {
        ScreenAnchor::TopLeft
    } else if same_text(value, "Top center") {
        ScreenAnchor::TopCenter
    } else if same_text(value, "Top right") {
        ScreenAnchor::TopRight
    } else if same_text(value, "Center left") {
        ScreenAnchor::CenterLeft
    } else if same_text(value, "Center") {
        ScreenAnchor::Center
    } else if same_text(value, "Center right") {
        ScreenAnchor::CenterRight
    } else if same_text(value, "Bottom left") {
        ScreenAnchor::BottomLeft
    } else if same_text(value, "Bottom right") {
        ScreenAnchor::BottomRight
    } else {
        ScreenAnchor::BottomCenter
    }
}

/// The label of an output mode.
pub open spec fn output_name(value: OutputMode) -> Seq<char> {
    match value {
        OutputMode::Keyboard => "Keyboard"@,
        OutputMode::Clipboard => "Clipboard"@,
        OutputMode::Nothing => "None"@,
    }
}

/// The label of an output mode.
pub fn output_label(value: OutputMode) -> (result: &'static str)
    ensures
        result@ == output_name(value),
{
    match value {
        OutputMode::Keyboard => "Keyboard",
        OutputMode::Clipboard => "Clipboard",
        OutputMode::Nothing => "None",
    }
}

/// The output mode of a label; the keyboard where the label is none.
pub open spec fn output_of_label(label: Seq<char>) -> OutputMode {
    if label == "Clipboard"@ {
        OutputMode::Clipboard
    } else if label == "None"@ {
        OutputMode::Nothing
    } else {
        OutputMode::Keyboard
    }
}

/// The output mode of a label.
pub fn parse_output(value: &str) -> (result: OutputMode)
    ensures
        result == output_of_label(value@),
{
    if same_text(value, "Clipboard") {
        OutputMode::Clipboard
    } else if same_text(value, "None") {
        OutputMode::Nothing
    } else {
        OutputMode::Keyboard
    }
}

/// Reading a label gives back what it stands for.
pub proof fn labels_read_back(size: OverlaySize, anchor: ScreenAnchor, mode: OutputMode)
    ensures
        size_of_label(size_name(size)) == size,
        anchor_of_label(anchor_name(anchor)) == anchor,
        output_of_label(output_name(mode)) == mode,
{
    reveal_strlit("Small");
    reveal_strlit("Medium");
    reveal_strlit("Large");
    assert("Small"@.len() == 5 && "Medium"@.len() == 6);
    assert("Small"@[0] == 'S' && "Large"@[0] == 'L');
    reveal_strlit("Top left");
    reveal_strlit("Top center");
    reveal_strlit("Top right");
    reveal_strlit("Center left");
    reveal_strlit("Center");
    reveal_strlit("Center right");
    reveal_strlit("Bottom left");
    reveal_strlit("Bottom center");
    reveal_strlit("Bottom right");
    assert("Top left"@.len() == 8);
    assert("Top center"@.len() == 10);
    assert("Top right"@.len() == 9);
    assert("Center left"@.len() == 11 && "Center left"@[0] == 'C');
    assert("Center"@.len() == 6);
    assert("Center right"@.len() == 12 && "Center right"@[0] == 'C');
    assert("Bottom left"@.len() == 11 && "Bottom left"@[0] == 'B');
    assert("Bottom center"@.len() == 13);
    assert("Bottom right"@.len() == 12 && "Bottom right"@[0] == 'B');
    reveal_strlit("Keyboard");
    reveal_strlit("Clipboard");
    reveal_strlit("None");
    assert("Keyboard"@.len() == 8);
    assert("Clipboard"@.len() == 9);
    assert("None"@.len() == 4);
}

/// A device as it is offered for choice.
pub open spec fn device_line(device: AudioDevice) -> Seq<char> {
    if device.is_default {
        device.id@ + " — "@ + device.name@ + " (default)"@
    } else {
        device.id@ + " — "@ + device.name@
    }
}

/// A device as it is offered for choice.
pub fn device_label(device: &AudioDevice) -> (result: String)
    ensures
        result@ == device_line(*device),
{
    let mut text = device.id.clone();
    text.append(" — ");
    text.append(device.name.as_str());
    if device.is_default {
        text.append(" (default)");
    }
    text
}

/// What stands before the first occurrence of a separator; the whole where it does not
/// occur.
pub open spec fn before_first(s: Seq<char>, separator: Seq<char>) -> Seq<char>
    decreases s.len(),
{
    if s.len() == 0 || separator.is_prefix_of(s) {
        Seq::empty()
    } else {
        seq![s[0]] + before_first(s.drop_first(), separator)
    }
}

proof fn before_first_skips(s: Seq<char>, separator: Seq<char>, n: int)
    requires
        0 <= n <= s.len(),
        forall|k: int| 0 <= k < n ==> !separator.is_prefix_of(#[trigger] s.skip(k)),
    ensures
        before_first(s, separator) == s.take(n) + before_first(s.skip(n), separator),
    decreases n,
{
    if n == 0 {
        assert(s.skip(0) =~= s);
        assert(s.take(0) + before_first(s, separator) =~= before_first(s, separator));
    } else {
        assert(s.skip(0) =~= s);
        assert(!separator.is_prefix_of(s.skip(0)));
        let rest = s.drop_first();
        assert forall|k: int| 0 <= k < n - 1 implies !separator.is_prefix_of(
            #[trigger] rest.skip(k),
        ) by {
            assert(rest.skip(k) =~= s.skip(k + 1));
            assert(!separator.is_prefix_of(s.skip(k + 1)));
        }
        before_first_skips(rest, separator, n - 1);
        assert(rest.skip(n - 1) =~= s.skip(n));
        assert(seq![s[0]] + (rest.take(n - 1) + before_first(s.skip(n), separator)) =~= s.take(n)
            + before_first(s.skip(n), separator));
    }
}

/// The identifier of the device that was chosen.
pub fn selected_id(value: &str) -> (result: String)
    ensures
        result@ == before_first(value@, " — "@),
{
    proof {
        reveal_strlit(" — ");
    }
    let chars = chars_of(value);
    let separator = chars_of(" — ");
    let mut i: usize = 0;
    while i < chars.len()
        invariant
            i <= chars@.len(),
            chars@ == value@,
            separator@ == " — "@,
            separator@.len() > 0,
            forall|k: int| 0 <= k < i ==> !separator@.is_prefix_of(#[trigger] value@.skip(k)),
        decreases chars@.len() - i,
    {
        let found = found_at(&chars, &separator, i);
        assert(found == separator@.is_prefix_of(value@.skip(i as int))) by {
            let rest = value@.skip(i as int);
            if i + separator@.len() <= value@.len() {
                assert(value@.subrange(i as int, i + separator@.len()) =~= rest.take(
                    separator@.len() as int,
                ));
            }
        }
        if found {
            proof {
                before_first_skips(value@, separator@, i as int);
                assert(value@.take(i as int) + Seq::<char>::empty() =~= value@.take(i as int));
                assert(value@.take(i as int) =~= value@.subrange(0, i as int));
            }
            return text_of(&chars, 0, i);
        }
        i += 1;
    }
    proof {
        before_first_skips(value@, separator@, i as int);
        assert(value@.skip(i as int).len() == 0);
        assert(value@.take(i as int) + Seq::<char>::empty() =~= value@);
    }
    String::from_str(value)
}

/// The identifier of a device is read back from its label, as long as it does not hold the
/// separator itself.
pub proof fn device_ids_read_back(device: AudioDevice)
    requires
        forall|k: int|
            0 <= k < device.id@.len() ==> !" — "@.is_prefix_of(#[trigger] device_line(device).skip(k)),
    ensures
        before_first(device_line(device), " — "@) == device.id@,
{
    reveal_strlit(" — ");
    let line = device_line(device);
    let n = device.id@.len() as int;
    before_first_skips(line, " — "@, n);
    assert(line.take(n) =~= device.id@);
    assert(" — "@.is_prefix_of(line.skip(n))) by {
        assert(line.skip(n).take(3) =~= " — "@);
    }
    assert(device.id@ + Seq::<char>::empty() =~= device.id@);
}

// ---------------------------------------------------------------------------
// Numbers and optional texts of the form
// ---------------------------------------------------------------------------

/// A number of the form; nought where it is negative.
pub fn nonnegative(value: i32) -> (result: u64)
    ensures
        result == if value < 0 {
            0
        } else {
            value as int
        },
{
    if value < 0 {
        0
    } else {
        value as u64
    }
}

/// A number as the form can hold it.
pub open spec fn as_i32(value: u64) -> i32 {
    if value > 0x7fff_ffff {
        0x7fff_ffff
    } else {
        value as i32
    }
}

/// A number as the form can hold it.
pub fn to_i32(value: u64) -> (result: i32)
    ensures
        result == as_i32(value),
{
    if value > 0x7fff_ffff {
        0x7fff_ffff
    } else {
        value as i32
    }
}

/// A text that holds anything.
pub open spec fn filled(value: String) -> Option<String> {
    if is_blank(value@) {
        None
    } else {
        Some(value)
    }
}

/// A text of the form, if it holds anything.
pub fn nonempty(value: String) -> (result: Option<String>)
    ensures
        result == filled(value),
{
    if blank(value.as_str()) {
        None
    } else {
        Some(value)
    }
}

/// An optional text as the form shows it.
pub open spec fn shown(value: Option<String>) -> Seq<char> {
    match value {
        Some(s) => s@,
        None => Seq::empty(),
    }
}

fn show(value: &Option<String>) -> (result: String)
    ensures
        result@ == shown(*value),
{
    match value {
        Some(s) => s.clone(),
        None => {
            let none = String::new();
            assert(none@ =~= Seq::empty());
            none
        },
    }
}

// ---------------------------------------------------------------------------
// The form
// ---------------------------------------------------------------------------

/// The entry for the input device: the label of the device with the identifier, or the
/// identifier where no device has it.
pub open spec fn device_entry(devices: Seq<AudioDevice>, id: Seq<char>) -> Seq<char>
    decreases devices.len(),
{
    if devices.len() == 0 {
        id
    } else if devices[0].id@ == id {
        device_line(devices[0])
    } else {
        device_entry(devices.drop_first(), id)
    }
}

fn show_device(devices: &Vec<AudioDevice>, id: &str) -> (result: String)
    ensures
        result@ == device_entry(devices@, id@),
{
    let mut i: usize = 0;
    assert(devices@.skip(0) =~= devices@);
    while i < devices.len()
        invariant
            i <= devices@.len(),
            device_entry(devices@, id@) == device_entry(devices@.skip(i as int), id@),
        decreases devices@.len() - i,
    {
        if same_text(devices[i].id.as_str(), id) {
            assert(devices@.skip(i as int)[0] == devices@[i as int]);
            return device_label(&devices[i]);
        }
        assert(devices@.skip(i as int).drop_first() =~= devices@.skip(i + 1));
        i += 1;
    }
    String::from_str(id)
}

/// The form shows the settings.
pub open spec fn form_shows(form: SettingsForm, model: GuiViewModel) -> bool {
    let s = model.settings;
    &&& form.language == s.general.language
    &&& form.auto_stop_ms == as_i32(s.general.auto_stop_ms)
    &&& form.history_enabled == s.general.history_enabled
    &&& form.input_device@ == device_entry(model.audio_devices@, s.audio.input_device_id@)
    &&& form.phrase_silence_ms == as_i32(s.audio.phrase_silence_ms)
    &&& form.transcription_backend == s.transcription.backend_id
    &&& form.transcription_model == s.transcription.model_id
    &&& form.transcription_model_path@ == shown(s.transcription.model_path)
    &&& form.transcription_prompt@ == shown(s.transcription.prompt)
    &&& form.transcription_vocabulary@ == join(views(s.transcription.vocabulary@), ", "@)
    &&& form.remove_filler_words == s.transcription.remove_filler_words
    &&& form.filler_words@ == join(views(s.transcription.filler_words@), ", "@)
    &&& form.post_processing_enabled == s.post_processing.enabled
    &&& form.post_processing_backend == s.post_processing.backend_id
    &&& form.post_processing_model == s.post_processing.model_id
    &&& form.post_processing_endpoint == s.post_processing.endpoint
    &&& form.post_processing_credential_id@ == shown(s.post_processing.credential_id)
    &&& form.post_processing_credential_secret@.len() == 0
    &&& form.post_processing_instruction == s.post_processing.instruction
    &&& form.overlay_enabled == s.overlay.enabled
    &&& form.partial_transcript_enabled == s.overlay.show_partial_transcript
    &&& form.overlay_size@ == size_name(s.overlay.size)
    &&& form.overlay_position@ == anchor_name(s.overlay.screen_anchor)
    &&& form.shortcut == s.shortcut.record
    &&& form.output_mode@ == output_name(s.output.mode)
    &&& form.key_delay_ms == as_i32(s.output.key_delay_ms)
}

/// Shows the settings in the form. A stored secret is never shown.
pub fn apply_settings_model(model: &GuiViewModel) -> (form: SettingsForm)
    ensures
        form_shows(form, *model),
{
    let s = &model.settings;
    SettingsForm {
        language: s.general.language.clone(),
        auto_stop_ms: to_i32(s.general.auto_stop_ms),
        history_enabled: s.general.history_enabled,
        input_device: show_device(&model.audio_devices, s.audio.input_device_id.as_str()),
        phrase_silence_ms: to_i32(s.audio.phrase_silence_ms),
        transcription_backend: s.transcription.backend_id.clone(),
        transcription_model: s.transcription.model_id.clone(),
        transcription_model_path: show(&s.transcription.model_path),
        transcription_prompt: show(&s.transcription.prompt),
        transcription_vocabulary: join_with(&s.transcription.vocabulary, ", "),
        remove_filler_words: s.transcription.remove_filler_words,
        filler_words: join_with(&s.transcription.filler_words, ", "),
        post_processing_enabled: s.post_processing.enabled,
        post_processing_backend: s.post_processing.backend_id.clone(),
        post_processing_model: s.post_processing.model_id.clone(),
        post_processing_endpoint: s.post_processing.endpoint.clone(),
        post_processing_credential_id: show(&s.post_processing.credential_id),
        post_processing_credential_secret: String::new(),
        post_processing_instruction: s.post_processing.instruction.clone(),
        overlay_enabled: s.overlay.enabled,
        partial_transcript_enabled: s.overlay.show_partial_transcript,
        overlay_size: String::from_str(size_label(s.overlay.size)),
        overlay_position: String::from_str(anchor_label(s.overlay.screen_anchor)),
        shortcut: s.shortcut.record.clone(),
        output_mode: String::from_str(output_label(s.output.mode)),
        key_delay_ms: to_i32(s.output.key_delay_ms),
    }
}

/// A list as the user entered it: the parts between commas, trimmed, where anything is left.
pub open spec fn entered_list(text: Seq<char>) -> Seq<Seq<char>> {
    non_empty(trimmed_parts(pieces(text, Delimiter::Char(','))))
}

/// A number as the user entered it.
pub open spec fn entered_number(value: i32) -> int {
    if value < 0 {
        0
    } else {
        value as int
    }
}

/// The settings that the user entered; what the form has no entry for is the default.
pub open spec fn entered(s: Settings, form: SettingsForm) -> bool {
    &&& s.schema_version == 1
    &&& s.general.language == form.language
    &&& s.general.auto_stop_ms == entered_number(form.auto_stop_ms)
    &&& s.general.history_enabled == form.history_enabled
    &&& s.audio.input_device_id@ == before_first(form.input_device@, " — "@)
    &&& s.audio.phrase_silence_ms == entered_number(form.phrase_silence_ms)
    &&& s.audio.noise_gate_threshold == 3
    &&& s.audio.speech_confirmation_ms == 180
    &&& s.transcription.backend_id == form.transcription_backend
    &&& s.transcription.model_id == form.transcription_model
    &&& s.transcription.model_path == filled(form.transcription_model_path)
    &&& s.transcription.prompt == filled(form.transcription_prompt)
    &&& views(s.transcription.vocabulary@) == entered_list(form.transcription_vocabulary@)
    &&& s.transcription.remove_filler_words == form.remove_filler_words
    &&& views(s.transcription.filler_words@) == entered_list(form.filler_words@)
    &&& s.post_processing.enabled == form.post_processing_enabled
    &&& !s.post_processing.prompt_rewrite_enabled
    &&& s.post_processing.backend_id == form.post_processing_backend
    &&& s.post_processing.model_id == form.post_processing_model
    &&& s.post_processing.endpoint == form.post_processing_endpoint
    &&& s.post_processing.credential_id == filled(form.post_processing_credential_id)
    &&& s.post_processing.instruction == form.post_processing_instruction
    &&& s.post_processing.prompt_rewrite_instruction@ == "Rewrite the text as a clear prompt."@
    &&& s.overlay.enabled == form.overlay_enabled
    &&& s.overlay.show_partial_transcript == form.partial_transcript_enabled
    &&& s.overlay.size == size_of_label(form.overlay_size@)
    &&& s.overlay.screen_anchor == anchor_of_label(form.overlay_position@)
    &&& s.shortcut.record == form.shortcut
    &&& s.output.mode == output_of_label(form.output_mode@)
    &&& s.output.key_delay_ms == entered_number(form.key_delay_ms)
}

/// The settings that the user entered in the window.
#[must_use]
pub fn settings_from_window(window: &SettingsWindow) -> (result: Settings)
    ensures
        entered(result, window.form),
{
    let form = &window.form;
    let mut settings = Settings::default();
    settings.general.language = form.language.clone();
    settings.general.auto_stop_ms = nonnegative(form.auto_stop_ms);
    settings.general.history_enabled = form.history_enabled;
    settings.audio.input_device_id = selected_id(form.input_device.as_str());
    settings.audio.phrase_silence_ms = nonnegative(form.phrase_silence_ms);
    settings.transcription.backend_id = form.transcription_backend.clone();
    settings.transcription.model_id = form.transcription_model.clone();
    settings.transcription.model_path = nonempty(form.transcription_model_path.clone());
    settings.transcription.prompt = nonempty(form.transcription_prompt.clone());
    settings.transcription.vocabulary = split_trimmed(form.transcription_vocabulary.as_str(), ',');
    settings.transcription.remove_filler_words = form.remove_filler_words;
    settings.transcription.filler_words = split_trimmed(form.filler_words.as_str(), ',');
    settings.post_processing.enabled = form.post_processing_enabled;
    settings.post_processing.backend_id = form.post_processing_backend.clone();
    settings.post_processing.model_id = form.post_processing_model.clone();
    settings.post_processing.endpoint = form.post_processing_endpoint.clone();
    settings.post_processing.credential_id = nonempty(form.post_processing_credential_id.clone());
    settings.post_processing.instruction = form.post_processing_instruction.clone();
    settings.overlay.enabled = form.overlay_enabled;
    settings.overlay.show_partial_transcript = form.partial_transcript_enabled;
    settings.overlay.size = parse_size(form.overlay_size.as_str());
    settings.overlay.screen_anchor = parse_anchor(form.overlay_position.as_str());
    settings.shortcut.record = form.shortcut.clone();
    settings.output.mode = parse_output(form.output_mode.as_str());
    settings.output.key_delay_ms = nonnegative(form.key_delay_ms);
    settings
}

/// The secret that the user entered, if any.
#[must_use]
pub fn credential_secret_from_window(window: &SettingsWindow) -> (result: Option<String>)
    ensures
        result == filled(window.form.post_processing_credential_secret),
{
    nonempty(window.form.post_processing_credential_secret.clone())
}

// ---------------------------------------------------------------------------
// Lists
// ---------------------------------------------------------------------------

/// The devices as they are offered for choice.
pub open spec fn device_lines(devices: Seq<AudioDevice>) -> Seq<Seq<char>> {
    Seq::new(devices.len(), |i: int| device_line(devices[i]))
}

fn show_devices(devices: &Vec<AudioDevice>) -> (result: Vec<String>)
    ensures
        views(result@) == device_lines(devices@),
{
    let mut result: Vec<String> = Vec::new();
    let mut i: usize = 0;
    while i < devices.len()
        invariant
            i <= devices@.len(),
            result@.len() == i,
            forall|k: int| 0 <= k < i ==> (#[trigger] result@[k])@ == device_line(devices@[k]),
        decreases devices@.len() - i,
    {
        result.push(device_label(&devices[i]));
        i += 1;
    }
    assert(views(result@) =~= device_lines(devices@));
    result
}

/// The identifiers of the backends that can be used.
pub open spec fn available_ids(choices: Seq<BackendChoice>) -> Seq<Seq<char>>
    decreases choices.len(),
{
    if choices.len() == 0 {
        Seq::empty()
    } else {
        let before = available_ids(choices.drop_last());
        if choices.last().available {
            before.push(choices.last().id@)
        } else {
            before
        }
    }
}

fn show_backends(choices: &Vec<BackendChoice>) -> (result: Vec<String>)
    ensures
        views(result@) == available_ids(choices@),
{
    let mut result: Vec<String> = Vec::new();
    let mut i: usize = 0;
    assert(views(result@) =~= available_ids(choices@.take(0)));
    while i < choices.len()
        invariant
            i <= choices@.len(),
            views(result@) == available_ids(choices@.take(i as int)),
        decreases choices@.len() - i,
    {
        let ghost before = views(result@);
        assert(choices@.take(i + 1).drop_last() =~= choices@.take(i as int));
        assert(choices@.take(i + 1).last() == choices@[i as int]);
        if choices[i].available {
            let id = choices[i].id.clone();
            result.push(id);
            assert(views(result@) =~= before.push(id@));
        }
        i += 1;
    }
    assert(choices@.take(i as int) =~= choices@);
    result
}

/// A history entry as it is shown.
pub open spec fn history_line(entry: HistoryEntry) -> Seq<char> {
    entry.created_at@ + "  "@ + entry.output_text@
}

/// The history as it is shown.
pub open spec fn history_lines(entries: Seq<HistoryEntry>) -> Seq<Seq<char>> {
    Seq::new(entries.len(), |i: int| history_line(entries[i]))
}

fn show_history(entries: &Vec<HistoryEntry>) -> (result: Vec<String>)
    ensures
        views(result@) == history_lines(entries@),
{
    let mut result: Vec<String> = Vec::new();
    let mut i: usize = 0;
    while i < entries.len()
        invariant
            i <= entries@.len(),
            result@.len() == i,
            forall|k: int| 0 <= k < i ==> (#[trigger] result@[k])@ == history_line(entries@[k]),
        decreases entries@.len() - i,
    {
        let mut text = entries[i].created_at.clone();
        text.append("  ");
        text.append(entries[i].output_text.as_str());
        result.push(text);
        i += 1;
    }
    assert(views(result@) =~= history_lines(entries@));
    result
}

/// A check as it is shown.
pub open spec fn check_line(check: DiagnosticCheck) -> Seq<char> {
    check.status@ + " · "@ + check.id@ + " — "@ + check.message@
}

/// The checks as they are shown.
pub open spec fn check_lines(checks: Seq<DiagnosticCheck>) -> Seq<Seq<char>> {
    Seq::new(checks.len(), |i: int| check_line(checks[i]))
}

fn show_checks(checks: &Vec<DiagnosticCheck>) -> (result: Vec<String>)
    ensures
        views(result@) == check_lines(checks@),
{
    let mut result: Vec<String> = Vec::new();
    let mut i: usize = 0;
    while i < checks.len()
        invariant
            i <= checks@.len(),
            result@.len() == i,
            forall|k: int| 0 <= k < i ==> (#[trigger] result@[k])@ == check_line(checks@[k]),
        decreases checks@.len() - i,
    {
        let mut text = checks[i].status.clone();
        text.append(" · ");
        text.append(checks[i].id.as_str());
        text.append(" — ");
        text.append(checks[i].message.as_str());
        result.push(text);
        i += 1;
    }
    assert(views(result@) =~= check_lines(checks@));
    result
}

// ---------------------------------------------------------------------------
// Everything shown
// ---------------------------------------------------------------------------

/// The error about the settings: the one reported, or that they are stale.
pub open spec fn save_error(model: GuiViewModel) -> Seq<char> {
    match model.settings_error_message {
        Some(message) => message@,
        None => if model.settings_stale {
            "Settings changed in another process; saving will require a reload."@
        } else {
            Seq::empty()
        },
    }
}

/// The window shows the model.
pub open spec fn window_shows(window: SettingsWindow, model: GuiViewModel) -> bool {
    &&& window.backend_state == shown_state(model.state)
    &&& window.status_text@ == status_line(model)
    &&& window.save_error_field@ == shown(model.settings_error_field)
    &&& window.save_error@ == save_error(model)
    &&& window.settings_stale == model.settings_stale
    &&& views(window.input_device_options@) == device_lines(model.audio_devices@)
    &&& views(window.transcription_backend_options@) == available_ids(
        model.transcription_backends@,
    )
    &&& views(window.post_processing_backend_options@) == available_ids(
        model.post_processing_backends@,
    )
    &&& window.shortcut_supported == lists(model.capabilities@, "global_shortcut"@)
    &&& window.keyboard_insertion_supported == lists(model.capabilities@, "keyboard_insertion"@)
    &&& window.credential_store_supported == lists(model.capabilities@, "credential_store"@)
    &&& window.overlay_supported == lists(model.capabilities@, "focus_safe_overlay"@)
    &&& views(window.history_items@) == history_lines(model.history@)
    &&& views(window.diagnostic_items@) == check_lines(model.diagnostics@)
    &&& window.diagnostic_log_path@ == shown(model.diagnostics_log_path)
}

/// The overlay is to be seen: it is supported and enabled, and a session is under way.
pub open spec fn overlay_active(model: GuiViewModel) -> bool {
    &&& lists(model.capabilities@, "focus_safe_overlay"@)
    &&& model.settings.overlay.enabled
    &&& model.active_session_id is Some
    &&& crate::state::in_session(model.state)
}

/// What is to be done with an overlay that is seen or not.
pub open spec fn overlay_step(model: GuiViewModel, presented: bool) -> OverlayAction {
    if overlay_active(model) {
        OverlayAction::Show { anchor: model.settings.overlay.screen_anchor }
    } else if presented {
        OverlayAction::Hide
    } else {
        OverlayAction::Keep
    }
}

/// Shows a model in the window, the overlay and the tray, and says what is to be done with
/// the overlay; once that is done, `overlay_done` takes note of it. The user's entries are
/// overwritten only where that is asked for.
pub fn apply_model(
    window: &mut SettingsWindow,
    overlay: &mut RecordingOverlay,
    tray: &mut AppTray,
    model: &GuiViewModel,
    apply_settings: bool,
) -> (result: OverlayAction)
    ensures
        window_shows(*final(window), *model),
        apply_settings ==> form_shows(final(window).form, *model),
        !apply_settings ==> final(window).form == old(window).form,
        final(overlay).backend_state == shown_state(model.state),
        final(overlay).audio_level_bits == model.audio_level_bits,
        final(overlay).size_preset@ == size_name(model.settings.overlay.size),
        final(overlay).presented == old(overlay).presented,
        final(tray).status_text@ == "speakiput — "@ + status_line(*model),
        final(tray).recording == (model.state is Recording),
        result == overlay_step(*model, old(overlay).presented),
{
    let state = ui_state(model.state);
    let status = status_text(model);
    let mut tray_status = String::from_str("speakiput — ");
    tray_status.append(status.as_str());
    tray.status_text = tray_status;
    tray.recording = model.state == DictationState::Recording;
    window.backend_state = state;
    window.status_text = status;
    window.save_error_field = show(&model.settings_error_field);
    window.save_error = match &model.settings_error_message {
        Some(message) => message.clone(),
        None => {
            if model.settings_stale {
                String::from_str(
                    "Settings changed in another process; saving will require a reload.",
                )
            } else {
                show(&None)
            }
        },
    };
    window.settings_stale = model.settings_stale;
    if apply_settings {
        window.form = apply_settings_model(model);
    }
    window.input_device_options = show_devices(&model.audio_devices);
    window.transcription_backend_options = show_backends(&model.transcription_backends);
    window.post_processing_backend_options = show_backends(&model.post_processing_backends);
    window.shortcut_supported = listed(&model.capabilities, "global_shortcut");
    window.keyboard_insertion_supported = listed(&model.capabilities, "keyboard_insertion");
    window.credential_store_supported = listed(&model.capabilities, "credential_store");
    let overlay_supported = listed(&model.capabilities, "focus_safe_overlay");
    window.overlay_supported = overlay_supported;
    window.history_items = show_history(&model.history);
    window.diagnostic_items = show_checks(&model.diagnostics);
    window.diagnostic_log_path = show(&model.diagnostics_log_path);
    overlay.backend_state = state;
    overlay.audio_level_bits = model.audio_level_bits;
    overlay.size_preset = String::from_str(size_label(model.settings.overlay.size));
    let active = overlay_supported && model.settings.overlay.enabled
        && model.active_session_id.is_some() && matches!(
        model.state,
        DictationState::Recording | DictationState::Transcribing | DictationState::PostProcessing
            | DictationState::Injecting | DictationState::Error
    );
    if active {
        OverlayAction::Show { anchor: model.settings.overlay.screen_anchor }
    } else if overlay.presented {
        OverlayAction::Hide
    } else {
        OverlayAction::Keep
    }
}

/// Whether the overlay is seen once what was to be done with it is done.
pub open spec fn seen_after(presented: bool, done: OverlayAction) -> bool {
    match done {
        OverlayAction::Show { .. } => true,
        OverlayAction::Hide => false,
        OverlayAction::Keep => presented,
    }
}

/// Takes note that what was to be done with the overlay is done. Where showing or hiding it
/// failed, nothing is noted, so that it is tried again.
pub fn overlay_done(overlay: &mut RecordingOverlay, done: OverlayAction)
    ensures
        *final(overlay) == (RecordingOverlay {
            presented: seen_after(old(overlay).presented, done),
            ..*old(overlay)
        }),
{
    match done {
        OverlayAction::Show { .. } => {
            overlay.presented = true;
        },
        OverlayAction::Hide => {
            overlay.presented = false;
        },
        OverlayAction::Keep => {},
    }
}

/// An overlay that was shown is hidden as soon as a model has nothing to show in it, and is
/// then left alone until there is something to show again.
pub proof fn a_shown_overlay_is_hidden_once(
    presented: bool,
    active: GuiViewModel,
    idle: GuiViewModel,
    later: GuiViewModel,
)
    requires
        overlay_active(active),
        !overlay_active(idle),
        !overlay_active(later),
    ensures
        ({
            let shown_then = seen_after(presented, overlay_step(active, presented));
            let hidden_then = seen_after(shown_then, overlay_step(idle, shown_then));
            &&& overlay_step(active, presented) is Show
            &&& overlay_step(idle, shown_then) is Hide
            &&& overlay_step(later, hidden_then) is Keep
            &&& overlay_step(active, hidden_then) is Show
        }),
{
}

/// Without a session there is nothing to show in the overlay.
pub proof fn no_session_no_overlay(model: GuiViewModel)
    requires
        model.active_session_id is None,
    ensures
        !overlay_active(model),
{
}

// ---------------------------------------------------------------------------
// What is shown is what is read back
// ---------------------------------------------------------------------------

/// A list entry that survives the form: it holds something, has no white space at its ends
/// and no comma.
pub open spec fn plain_item(item: Seq<char>) -> bool {
    &&& item.len() > 0
    &&& !is_white_space(item[0]) && !is_white_space(item.last())
    &&& forall|i: int| 0 <= i < item.len() ==> #[trigger] item[i] != ','
}

/// Reading a list that the form shows gives the list back.
pub proof fn lists_read_back(items: Seq<Seq<char>>)
    requires
        forall|i: int| 0 <= i < items.len() ==> plain_item(#[trigger] items[i]),
    ensures
        entered_list(join(items, ", "@)) == items,
    decreases items.len(),
{
    reveal_strlit(", ");
    let d = Delimiter::Char(',');
    let none = Seq::<char>::empty();
    let text = join(items, ", "@);
    reveal_with_fuel(non_empty, 2);
    if items.len() == 0 {
        assert(pieces(text, d) =~= seq![none]);
        assert(trimmed_parts(seq![none]) =~= seq![none]);
        assert(seq![none].drop_last() =~= Seq::<Seq<char>>::empty());
        assert(entered_list(text) =~= items);
    } else {
        let item = items.last();
        assert(plain_item(items[items.len() - 1]));
        assert forall|i: int| 0 <= i < item.len() implies !crate::split::delimits(
            d,
            #[trigger] item[i],
        ) by {
            assert(item[i] != ',');
        }
        untouched_by_trimming(item);
        if items.len() == 1 {
            crate::split::pieces_extend(none, item, d);
            assert(none + item =~= item);
            assert(pieces(none, d) =~= seq![none]);
            assert(pieces(item, d) =~= seq![item]);
            assert(trimmed_parts(seq![item]) =~= seq![item]);
            assert(seq![item].drop_last() =~= Seq::<Seq<char>>::empty());
            assert(entered_list(text) =~= items);
        } else {
            lists_read_back(items.drop_last());
            let front = join(items.drop_last(), ", "@);
            let cut = front.push(',');
            let tail = seq![' '] + item;
            assert(text =~= cut + tail);
            assert(cut.drop_last() =~= front);
            assert forall|i: int| 0 <= i < tail.len() implies !crate::split::delimits(
                d,
                #[trigger] tail[i],
            ) by {
                if i > 0 {
                    assert(tail[i] == item[i - 1]);
                }
            }
            crate::split::pieces_extend(cut, tail, d);
            crate::split::pieces_non_empty(front, d);
            let before = pieces(front, d);
            assert(pieces(cut, d) == before.push(none));
            assert(none + tail =~= tail);
            assert(pieces(text, d) =~= before.push(tail));
            assert(tail.drop_first() =~= item);
            assert(trimmed(tail) == trimmed(item));
            assert(trimmed_parts(before.push(tail)) =~= trimmed_parts(before).push(item));
            crate::split::non_empty_push(trimmed_parts(before), item);
            assert(entered_list(text) =~= items.drop_last().push(item));
            assert(items.drop_last().push(item) =~= items);
        }
    }
}

/// An identifier that can be told from its label: the separator does not occur in it, nor
/// does it end in the separator's beginning.
pub open spec fn plain_id(id: Seq<char>) -> bool {
    forall|k: int|
        0 <= k && k + 1 < id.len() && #[trigger] id[k] == ' ' && id[k + 1] == '—' ==> k + 2
            < id.len() && id[k + 2] != ' '
}

/// A plain identifier is read back from the entry that the form shows for it, whatever the
/// devices are.
pub proof fn plain_ids_read_back(devices: Seq<AudioDevice>, id: Seq<char>)
    requires
        plain_id(id),
    ensures
        before_first(device_entry(devices, id), " — "@) == id,
    decreases devices.len(),
{
    reveal_strlit(" — ");
    let separator = " — "@;
    assert(separator.len() == 3 && separator[0] == ' ' && separator[1] == '—' && separator[2]
        == ' ');
    if devices.len() == 0 {
        assert forall|k: int| 0 <= k < id.len() implies !separator.is_prefix_of(
            #[trigger] id.skip(k),
        ) by {
            if separator.is_prefix_of(id.skip(k)) {
                let rest = id.skip(k);
                assert(rest[0] == separator[0] && rest[1] == separator[1] && rest[2]
                    == separator[2]);
                assert(id[k] == ' ' && id[k + 1] == '—' && id[k + 2] == ' ');
            }
        }
        let n = id.len() as int;
        before_first_skips(id, separator, n);
        assert(id.skip(n).len() == 0);
        assert(id.take(n) + Seq::<char>::empty() =~= id);
    } else if devices[0].id@ == id {
        let line = device_line(devices[0]);
        assert forall|k: int| 0 <= k < id.len() implies !separator.is_prefix_of(
            #[trigger] line.skip(k),
        ) by {
            if separator.is_prefix_of(line.skip(k)) {
                let rest = line.skip(k);
                assert(rest[0] == separator[0] && rest[1] == separator[1] && rest[2]
                    == separator[2]);
                assert(line[k] == ' ' && line[k + 1] == '—' && line[k + 2] == ' ');
                assert(line[k] == id[k]);
                if k + 1 < id.len() {
                    assert(line[k + 1] == id[k + 1]);
                    if k + 2 < id.len() {
                        assert(line[k + 2] == id[k + 2]);
                    }
                } else {
                    assert(line[k + 1] == separator[0]);
                }
            }
        }
        device_ids_read_back(devices[0]);
    } else {
        plain_ids_read_back(devices.drop_first(), id);
    }
}

/// The settings survive the form: the numbers fit, optional texts are not blank, list
/// entries are plain, and the device's identifier can be told from its label.
pub open spec fn fits_the_form(model: GuiViewModel) -> bool {
    let s = model.settings;
    &&& s.general.auto_stop_ms <= i32::MAX
    &&& s.audio.phrase_silence_ms <= i32::MAX
    &&& s.output.key_delay_ms <= i32::MAX
    &&& s.transcription.model_path matches Some(path) ==> !is_blank(path@)
    &&& s.transcription.prompt matches Some(prompt) ==> !is_blank(prompt@)
    &&& s.post_processing.credential_id matches Some(id) ==> !is_blank(id@)
    &&& forall|i: int|
        0 <= i < s.transcription.vocabulary@.len() ==> plain_item(
            (#[trigger] s.transcription.vocabulary@[i])@,
        )
    &&& forall|i: int|
        0 <= i < s.transcription.filler_words@.len() ==> plain_item(
            (#[trigger] s.transcription.filler_words@[i])@,
        )
    &&& before_first(device_entry(model.audio_devices@, s.audio.input_device_id@), " — "@)
        == s.audio.input_device_id@
}

/// Two settings agree on everything that the form has an entry for.
pub open spec fn same_entries(a: Settings, b: Settings) -> bool {
    &&& a.general.language@ == b.general.language@
    &&& a.general.auto_stop_ms == b.general.auto_stop_ms
    &&& a.general.history_enabled == b.general.history_enabled
    &&& a.audio.input_device_id@ == b.audio.input_device_id@
    &&& a.audio.phrase_silence_ms == b.audio.phrase_silence_ms
    &&& a.transcription.backend_id@ == b.transcription.backend_id@
    &&& a.transcription.model_id@ == b.transcription.model_id@
    &&& opt_view(a.transcription.model_path) == opt_view(b.transcription.model_path)
    &&& opt_view(a.transcription.prompt) == opt_view(b.transcription.prompt)
    &&& views(a.transcription.vocabulary@) == views(b.transcription.vocabulary@)
    &&& a.transcription.remove_filler_words == b.transcription.remove_filler_words
    &&& views(a.transcription.filler_words@) == views(b.transcription.filler_words@)
    &&& a.post_processing.enabled == b.post_processing.enabled
    &&& a.post_processing.backend_id@ == b.post_processing.backend_id@
    &&& a.post_processing.model_id@ == b.post_processing.model_id@
    &&& a.post_processing.endpoint@ == b.post_processing.endpoint@
    &&& opt_view(a.post_processing.credential_id) == opt_view(b.post_processing.credential_id)
    &&& a.post_processing.instruction@ == b.post_processing.instruction@
    &&& a.overlay == b.overlay
    &&& a.shortcut.record@ == b.shortcut.record@
    &&& a.output == b.output
}

/// Saving what the form shows, with nothing changed, saves the settings that were shown.
pub proof fn saving_what_is_shown_keeps_it(model: GuiViewModel, form: SettingsForm, s: Settings)
    requires
        fits_the_form(model),
        form_shows(form, model),
        entered(s, form),
    ensures
        same_entries(s, model.settings),
{
    let m = model.settings;
    labels_read_back(m.overlay.size, m.overlay.screen_anchor, m.output.mode);
    assert forall|i: int| 0 <= i < views(m.transcription.vocabulary@).len() implies plain_item(
        #[trigger] views(m.transcription.vocabulary@)[i],
    ) by {
        assert(plain_item(m.transcription.vocabulary@[i]@));
    }
    lists_read_back(views(m.transcription.vocabulary@));
    assert forall|i: int| 0 <= i < views(m.transcription.filler_words@).len() implies plain_item(
        #[trigger] views(m.transcription.filler_words@)[i],
    ) by {
        assert(plain_item(m.transcription.filler_words@[i]@));
    }
    lists_read_back(views(m.transcription.filler_words@));
    assert(is_blank(Seq::<char>::empty()));
}

/// A secret that is entered stays out of the settings: whatever it is, they are the same.
pub proof fn secrets_stay_out_of_the_settings(s: Settings, form: SettingsForm, other: SettingsForm)
    requires
        entered(s, form),
        other == (SettingsForm {
            post_processing_credential_secret: other.post_processing_credential_secret,
            ..form
        }),
    ensures
        entered(s, other),
{
}

// ---------------------------------------------------------------------------
// Where the overlay stands
// ---------------------------------------------------------------------------

/// One coordinate of a window on a screen: at the near edge, the middle or the far edge,
/// with a margin, and never before the screen's own edge.
pub open spec fn placed(
    screen: int,
    screen_size: int,
    window_size: int,
    margin: int,
    at: Alignment,
) -> int {
    let size = if window_size < screen_size {
        window_size
    } else {
        screen_size
    };
    let m = if margin < 0 {
        0
    } else {
        margin
    };
    let wanted = match at {
        Alignment::Near => screen + m,
        Alignment::Middle => screen + (screen_size - size) / 2,
        Alignment::Far => screen + screen_size - size - m,
    };
    if wanted < screen || wanted > i32::MAX {
        screen
    } else {
        wanted
    }
}

/// Where a window stands along one side of the screen.
#[derive(Clone, Copy, PartialEq, Eq, Structural, Debug)]
pub enum Alignment {
    Near,
    Middle,
    Far,
}

/// Where an anchor stands from left to right.
pub open spec fn across(anchor: ScreenAnchor) -> Alignment {
    match anchor {
        ScreenAnchor::TopLeft => Alignment::Near,
        ScreenAnchor::CenterLeft => Alignment::Near,
        ScreenAnchor::BottomLeft => Alignment::Near,
        ScreenAnchor::TopCenter => Alignment::Middle,
        ScreenAnchor::Center => Alignment::Middle,
        ScreenAnchor::BottomCenter => Alignment::Middle,
        ScreenAnchor::TopRight => Alignment::Far,
        ScreenAnchor::CenterRight => Alignment::Far,
        ScreenAnchor::BottomRight => Alignment::Far,
    }
}

/// Where an anchor stands from top to bottom.
pub open spec fn down(anchor: ScreenAnchor) -> Alignment {
    match anchor {
        ScreenAnchor::TopLeft => Alignment::Near,
        ScreenAnchor::TopCenter => Alignment::Near,
        ScreenAnchor::TopRight => Alignment::Near,
        ScreenAnchor::CenterLeft => Alignment::Middle,
        ScreenAnchor::Center => Alignment::Middle,
        ScreenAnchor::CenterRight => Alignment::Middle,
        ScreenAnchor::BottomLeft => Alignment::Far,
        ScreenAnchor::BottomCenter => Alignment::Far,
        ScreenAnchor::BottomRight => Alignment::Far,
    }
}

fn alignments(anchor: ScreenAnchor) -> (result: (Alignment, Alignment))
    ensures
        result == (across(anchor), down(anchor)),
{
    match anchor {
        ScreenAnchor::TopLeft => (Alignment::Near, Alignment::Near),
        ScreenAnchor::TopCenter => (Alignment::Middle, Alignment::Near),
        ScreenAnchor::TopRight => (Alignment::Far, Alignment::Near),
        ScreenAnchor::CenterLeft => (Alignment::Near, Alignment::Middle),
        ScreenAnchor::Center => (Alignment::Middle, Alignment::Middle),
        ScreenAnchor::CenterRight => (Alignment::Far, Alignment::Middle),
        ScreenAnchor::BottomLeft => (Alignment::Near, Alignment::Far),
        ScreenAnchor::BottomCenter => (Alignment::Middle, Alignment::Far),
        ScreenAnchor::BottomRight => (Alignment::Far, Alignment::Far),
    }
}

fn place(screen: i32, screen_size: u32, window_size: u32, margin: i32, at: Alignment) -> (result: i32)
    ensures
        result == placed(
            screen as int,
            screen_size as int,
            window_size as int,
            margin as int,
            at,
        ),
{
    let origin: i64 = screen as i64;
    let whole: i64 = screen_size as i64;
    let size: i64 = if window_size < screen_size {
        window_size as i64
    } else {
        screen_size as i64
    };
    let m: i64 = if margin < 0 {
        0
    } else {
        margin as i64
    };
    let wanted: i64 = match at {
        Alignment::Near => origin + m,
        Alignment::Middle => origin + (whole - size) / 2,
        Alignment::Far => origin + whole - size - m,
    };
    if wanted < origin || wanted > i32::MAX as i64 {
        screen
    } else {
        wanted as i32
    }
}

/// Where a window stands on a screen.
#[must_use]
pub fn anchored_coordinates(
    screen_x: i32,
    screen_y: i32,
    screen_width: u32,
    screen_height: u32,
    window_width: u32,
    window_height: u32,
    anchor: ScreenAnchor,
    margin: i32,
) -> (result: (i32, i32))
    ensures
        result.0 == placed(
            screen_x as int,
            screen_width as int,
            window_width as int,
            margin as int,
            across(anchor),
        ),
        result.1 == placed(
            screen_y as int,
            screen_height as int,
            window_height as int,
            margin as int,
            down(anchor),
        ),
{
    let (horizontal, vertical) = alignments(anchor);
    (
        place(screen_x, screen_width, window_width, margin, horizontal),
        place(screen_y, screen_height, window_height, margin, vertical),
    )
}

/// A screen: where it starts and how large it is.
#[derive(Clone, Copy, PartialEq, Eq, Structural, Debug)]
pub struct Screen {
    pub x: i32,
    pub y: i32,
    pub width: u32,
    pub height: u32,
}

/// How far the overlay stays from the edges of the screen.
pub const OVERLAY_MARGIN: i32 = 24;

/// Where the overlay is put: on the screen of the settings window, or else on its own, and
/// nowhere where no screen is known.
pub fn position_overlay(
    settings_screen: Option<Screen>,
    overlay_screen: Option<Screen>,
    width: u32,
    height: u32,
    anchor: ScreenAnchor,
) -> (result: Option<(i32, i32)>)
    ensures
        match (settings_screen, overlay_screen) {
            (None, None) => result is None,
            (settings, own) => {
                let screen = if settings is Some {
                    settings->0
                } else {
                    own->0
                };
                result matches Some((x, y)) && x == placed(
                    screen.x as int,
                    screen.width as int,
                    width as int,
                    24,
                    across(anchor),
                ) && y == placed(
                    screen.y as int,
                    screen.height as int,
                    height as int,
                    24,
                    down(anchor),
                )
            },
        },
{
    let screen = match (settings_screen, overlay_screen) {
        (Some(screen), _) => screen,
        (None, Some(screen)) => screen,
        (None, None) => {
            return None;
        },
    };
    Some(
        anchored_coordinates(
            screen.x,
            screen.y,
            screen.width,
            screen.height,
            width,
            height,
            anchor,
            OVERLAY_MARGIN,
        ),
    )
}

/// A window that leaves room for its margin stays inside the screen, wherever it is
/// anchored.
pub proof fn windows_stay_inside_the_screen(
    screen: int,
    screen_size: int,
    window_size: int,
    margin: int,
    at: Alignment,
)
    requires
        i32::MIN <= screen,
        0 <= window_size,
        0 <= margin,
        window_size + margin <= screen_size,
    ensures
        screen <= placed(screen, screen_size, window_size, margin, at),
        placed(screen, screen_size, window_size, margin, at) + window_size <= screen
            + screen_size,
{
}

/// A window larger than the screen stands at the screen's own corner, unless it is anchored
/// at the near edge, where the margin is kept.
pub proof fn oversized_windows_stand_at_the_origin(
    screen: int,
    screen_size: int,
    window_size: int,
    margin: int,
    at: Alignment,
)
    requires
        i32::MIN <= screen <= i32::MAX,
        0 <= screen_size <= window_size,
        0 <= margin,
        !(at is Near),
    ensures
        placed(screen, screen_size, window_size, margin, at) == screen,
{
}

/// The backends on offer are those that are available, in their order.
pub proof fn available_choices_are_offered(choices: Seq<BackendChoice>)
    ensures
        available_ids(choices) == choices.filter(|c: BackendChoice| c.available).map_values(
            |c: BackendChoice| c.id@,
        ),
    decreases choices.len(),
{
    reveal(Seq::filter);
    let kept = |c: BackendChoice| c.available;
    let named = |c: BackendChoice| c.id@;
    if choices.len() > 0 {
        available_choices_are_offered(choices.drop_last());
        let before = choices.drop_last().filter(kept);
        if choices.last().available {
            assert(before.push(choices.last()).map_values(named) =~= before.map_values(named).push(
                choices.last().id@,
            ));
        }
    }
    assert(available_ids(choices) =~= choices.filter(kept).map_values(named));
}

/// A window that fits stands the margin away from the edge that it is drawn to; in the
/// middle, it has as much room on its one side as on its other, up to one. A margin below
/// nought counts as none.
pub proof fn windows_stand_where_they_are_anchored(
    screen: int,
    screen_size: int,
    window_size: int,
    margin: int,
    negative: int,
)
    requires
        i32::MIN <= screen,
        screen + screen_size <= i32::MAX,
        0 <= window_size,
        0 <= margin,
        window_size + margin <= screen_size,
        negative < 0,
    ensures
        placed(screen, screen_size, window_size, margin, Alignment::Near) - screen == margin,
        screen + screen_size - (placed(screen, screen_size, window_size, margin, Alignment::Far)
            + window_size) == margin,
        ({
            let at = placed(screen, screen_size, window_size, margin, Alignment::Middle);
            let before = at - screen;
            let behind = screen + screen_size - (at + window_size);
            before <= behind <= before + 1
        }),
        placed(screen, screen_size, window_size, negative, Alignment::Near) == screen,
        placed(screen, screen_size, window_size, negative, Alignment::Far) + window_size == screen
            + screen_size,
{
}

/// The anchors of one column stand alike across the screen, those of one row alike down it.
pub proof fn anchors_form_rows_and_columns(anchor: ScreenAnchor)
    ensures
        across(anchor) is Near <==> anchor is TopLeft || anchor is CenterLeft
            || anchor is BottomLeft,
        across(anchor) is Middle <==> anchor is TopCenter || anchor is Center
            || anchor is BottomCenter,
        across(anchor) is Far <==> anchor is TopRight || anchor is CenterRight
            || anchor is BottomRight,
        down(anchor) is Near <==> anchor is TopLeft || anchor is TopCenter || anchor is TopRight,
        down(anchor) is Middle <==> anchor is CenterLeft || anchor is Center
            || anchor is CenterRight,
        down(anchor) is Far <==> anchor is BottomLeft || anchor is BottomCenter
            || anchor is BottomRight,
{
}

/// The window shows each state as itself, and a backend that shuts down as idle.
pub proof fn states_are_shown_as_themselves(state: DictationState)
    ensures
        shown_state(state) is Starting <==> state is Starting,
        shown_state(state) is Idle <==> state is Idle || state is ShuttingDown,
        shown_state(state) is Recording <==> state is Recording,
        shown_state(state) is Transcribing <==> state is Transcribing,
        shown_state(state) is PostProcessing <==> state is PostProcessing,
        shown_state(state) is Injecting <==> state is Injecting,
        shown_state(state) is Error <==> state is Error,
{
}

/// The overlay is there exactly while a session is under way, where the backend can show it
/// and the settings have it on; it stands where the settings say.
pub proof fn the_overlay_follows_the_session(model: GuiViewModel, presented: bool)
    ensures
        overlay_step(model, presented) is Show <==> {
            &&& exists|i: int|
                0 <= i < model.capabilities@.len() && (#[trigger] model.capabilities@[i])@
                    == "focus_safe_overlay"@
            &&& model.settings.overlay.enabled
            &&& model.active_session_id is Some
            &&& !(model.state is Starting || model.state is Idle || model.state is ShuttingDown)
        },
        overlay_step(model, presented) matches OverlayAction::Show { anchor } ==> anchor
            == model.settings.overlay.screen_anchor,
        overlay_step(model, false) !is Hide,
        overlay_step(model, true) !is Keep,
{
}

/// An error takes the place of the status line; what saving failed at is shown before the
/// warning that the settings are out of date, and without either there is nothing to show.
pub proof fn errors_are_shown_first(model: GuiViewModel)
    ensures
        model.error matches Some(error) ==> status_line(model) == error@,
        model.settings_error_message matches Some(message) ==> save_error(model) == message@,
        model.settings_error_message is None && !model.settings_stale ==> save_error(model).len()
            == 0,
        model.settings_error_message is None && model.settings_stale ==> save_error(model).len()
            > 0,
{
    reveal_strlit("Settings changed in another process; saving will require a reload.");
}

/// Numbers are taken as entered but for those below nought; texts that are all white space
/// count as not entered; each entry of a list stands between two commas, without the white
/// space around it.
pub proof fn entries_are_taken_as_entered(number: i32, text: String, list: Seq<char>)
    ensures
        number >= 0 ==> entered_number(number) == number,
        number <= 0 ==> entered_number(number) == 0,
        filled(text) is None <==> crate::text::all_white_space(text@),
        filled(text) matches Some(kept) ==> kept == text,
        entered_list(list) == pieces(list, Delimiter::Char(',')).map_values(
            |part: Seq<char>| trimmed(part),
        ).filter(|part: Seq<char>| part.len() > 0),
{
    crate::text::blank_means_white_space(text@);
    let parts = pieces(list, Delimiter::Char(','));
    assert(trimmed_parts(parts) =~= parts.map_values(|part: Seq<char>| trimmed(part)));
    crate::split::only_empty_parts_are_left_out(trimmed_parts(parts));
}

/// A number that fits the form is shown as it is, and a larger one as the largest that fits.
pub proof fn numbers_are_shown_as_far_as_they_fit(value: u64)
    ensures
        value <= i32::MAX ==> as_i32(value) == value,
        value >= i32::MAX ==> as_i32(value) == i32::MAX,
{
}

/// What stands before a separator ends where the separator first occurs, or at the end.
pub proof fn texts_end_before_the_separator(s: Seq<char>, separator: Seq<char>)
    requires
        separator.len() > 0,
    ensures
        ({
            let n = before_first(s, separator).len() as int;
            &&& n <= s.len()
            &&& before_first(s, separator) == s.take(n)
            &&& forall|k: int| 0 <= k < n ==> !separator.is_prefix_of(#[trigger] s.skip(k))
            &&& n == s.len() || separator.is_prefix_of(s.skip(n))
        }),
    decreases s.len(),
{
    assert(s.skip(0) =~= s);
    if s.len() > 0 && !separator.is_prefix_of(s) {
        let rest = s.drop_first();
        texts_end_before_the_separator(rest, separator);
        let n = before_first(s, separator).len() as int;
        assert(seq![s[0]] + rest.take(n - 1) =~= s.take(n));
        assert forall|k: int| 0 <= k < n implies !separator.is_prefix_of(#[trigger] s.skip(k)) by {
            if k > 0 {
                assert(rest.skip(k - 1) =~= s.skip(k));
            }
        }
        assert(rest.skip(n - 1) =~= s.skip(n));
    } else {
        assert(s.take(0) =~= Seq::<char>::empty());
    }
}

/// The window offers what the backend reports: every device and every entry in its order,
/// and a feature exactly if the backend has it.
pub proof fn the_window_offers_what_is_there(window: SettingsWindow, model: GuiViewModel)
    requires
        window_shows(window, model),
    ensures
        window.input_device_options@.len() == model.audio_devices@.len(),
        window.history_items@.len() == model.history@.len(),
        window.diagnostic_items@.len() == model.diagnostics@.len(),
        window.shortcut_supported <==> exists|i: int|
            0 <= i < model.capabilities@.len() && (#[trigger] model.capabilities@[i])@
                == "global_shortcut"@,
        window.keyboard_insertion_supported <==> exists|i: int|
            0 <= i < model.capabilities@.len() && (#[trigger] model.capabilities@[i])@
                == "keyboard_insertion"@,
        window.credential_store_supported <==> exists|i: int|
            0 <= i < model.capabilities@.len() && (#[trigger] model.capabilities@[i])@
                == "credential_store"@,
        window.overlay_supported <==> exists|i: int|
            0 <= i < model.capabilities@.len() && (#[trigger] model.capabilities@[i])@
                == "focus_safe_overlay"@,
        window.settings_stale == model.settings_stale,
        model.settings_error_field matches Some(field) ==> window.save_error_field@ == field@,
        model.settings_error_field is None ==> window.save_error_field@.len() == 0,
{
    assert(views(window.input_device_options@).len() == window.input_device_options@.len());
    assert(views(window.history_items@).len() == window.history_items@.len());
    assert(views(window.diagnostic_items@).len() == window.diagnostic_items@.len());
}

} // verus!
