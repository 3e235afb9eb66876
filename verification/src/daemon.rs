//! What the daemon offers, and what its command line and its configuration amount to.

use vstd::prelude::*;
use vstd::string::*;

use crate::contract::dto::{state_name, DictationState};
use crate::contract::ids::Uuid;
use crate::contract::settings::Settings;
use crate::llm::ProviderConfig;
use crate::platform::PlatformCapabilities;
use crate::text::{same_text, views};

verus! {

broadcast use vstd::string::group_string_axioms;

/// What the daemon was built with.
#[derive(Clone, Copy, PartialEq, Eq, Structural, Debug)]
pub struct BuildFeatures {
    pub native: bool,
    pub vulkan: bool,
    pub metal: bool,
}

/// A name where it applies.
pub open spec fn when(condition: bool, name: Seq<char>) -> Seq<Seq<char>> {
    if condition {
        seq![name]
    } else {
        Seq::empty()
    }
}

/// The capabilities that the daemon reports, in order.
pub open spec fn capability_names(platform: PlatformCapabilities, built: BuildFeatures) -> Seq<
    Seq<char>,
> {
    seq!["history"@, "credential_store"@, "focus_safe_overlay"@] + when(
        platform.focused_target,
        "focused_target"@,
    ) + when(platform.keyboard_injection, "keyboard_insertion"@) + when(
        platform.clipboard,
        "clipboard"@,
    ) + when(platform.global_shortcut, "global_shortcut"@) + when(platform.tray, "tray"@) + when(
        platform.autostart,
        "autostart"@,
    ) + when(built.native, "local_whisper"@) + when(built.native, "post_processing"@) + when(
        built.native,
        "prompt_rewrite"@,
    ) + when(built.vulkan, "vulkan_acceleration"@) + when(built.metal, "metal_acceleration"@)
}

fn add_when(list: Vec<String>, condition: bool, name: &str) -> (result: Vec<String>)
    ensures
        views(result@) == views(list@) + when(condition, name@),
{
    let mut result = list;
    let ghost before = views(result@);
    if condition {
        result.push(String::from_str(name));
    }
    assert(views(result@) =~= before + when(condition, name@));
    result
}

/// The capabilities that the daemon reports.
pub fn daemon_capabilities(platform: PlatformCapabilities, built: BuildFeatures) -> (result: Vec<
    String,
>)
    ensures
        views(result@) == capability_names(platform, built),
{
    let mut list: Vec<String> = Vec::new();
    list.push(String::from_str("history"));
    list.push(String::from_str("credential_store"));
    list.push(String::from_str("focus_safe_overlay"));
    assert(views(list@) =~= seq!["history"@, "credential_store"@, "focus_safe_overlay"@]);
    let list = add_when(list, platform.focused_target, "focused_target");
    let list = add_when(list, platform.keyboard_injection, "keyboard_insertion");
    let list = add_when(list, platform.clipboard, "clipboard");
    let list = add_when(list, platform.global_shortcut, "global_shortcut");
    let list = add_when(list, platform.tray, "tray");
    let list = add_when(list, platform.autostart, "autostart");
    let list = add_when(list, built.native, "local_whisper");
    let list = add_when(list, built.native, "post_processing");
    let list = add_when(list, built.native, "prompt_rewrite");
    let list = add_when(list, built.vulkan, "vulkan_acceleration");
    add_when(list, built.metal, "metal_acceleration")
}

/// What toggling does.
#[derive(Clone, Copy, PartialEq, Eq, Structural, Debug)]
pub enum ToggleCommand {
    /// Start, in the language of the settings.
    Start,
    Stop { session_id: Uuid },
}

/// Decides what toggling does in a state: start when idle, stop a recording, and nothing
/// else.
pub fn toggle_command(state: DictationState, active_session_id: Option<Uuid>) -> (result: Result<
    ToggleCommand,
    String,
>)
    ensures
        match result {
            Ok(ToggleCommand::Start) => state is Idle,
            Ok(ToggleCommand::Stop { session_id }) => state is Recording && active_session_id
                == Some(session_id),
            Err(message) => {
                &&& !(state is Idle)
                &&& !(state is Recording && active_session_id is Some)
                &&& message@ == "dictation cannot toggle while state is "@ + state_name(state)
            },
        },
        state is Idle ==> result == Ok::<ToggleCommand, String>(ToggleCommand::Start),
        state is Recording && active_session_id is Some ==> result == Ok::<ToggleCommand, String>(
            ToggleCommand::Stop { session_id: active_session_id->0 },
        ),
        result is Ok ==> state is Idle || state is Recording,
{
    if state == DictationState::Idle {
        return Ok(ToggleCommand::Start);
    }
    if state == DictationState::Recording {
        if let Some(session_id) = active_session_id {
            return Ok(ToggleCommand::Stop { session_id });
        }
    }
    let mut message = String::from_str("dictation cannot toggle while state is ");
    message.append(state.label());
    Err(message)
}

/// Whether an event makes the daemon register its shortcut anew.
pub fn changes_shortcut(event_name: &str) -> (result: bool)
    ensures
        result == (event_name@ == "settings.changed"@),
{
    same_text(event_name, "settings.changed")
}

/// What happens to the daemon's global shortcut.
#[derive(PartialEq, Eq, Debug)]
pub enum ShortcutEvent {
    /// The settings cannot be read.
    SettingsFailed,
    /// The settings name this shortcut.
    SettingsRead { shortcut: String },
    RegistrationFailed,
    Registered,
    /// The shortcut was pressed.
    Activated,
    /// What the shortcut does was done, or failed.
    ActivationDone,
    /// The desktop reports no more presses.
    ShortcutLost,
    /// The backend announced an event.
    Announced { name: String },
    /// Events of the backend were missed.
    EventsMissed,
    /// The backend announces nothing any more.
    EventsEnded,
    /// The shortcut was given up.
    Released,
}

/// What the daemon does about its global shortcut next.
#[derive(PartialEq, Eq, Debug)]
pub enum ShortcutStep {
    ReadSettings { after_ms: u64 },
    Register { shortcut: String },
    /// Wait for a press or an event.
    Wait,
    Activate,
    /// Give the shortcut up.
    Release,
    Stop,
}

/// How the daemon goes on about its global shortcut: what fails is tried again after five
/// seconds, and a shortcut is given up and registered anew once the settings changed, events
/// were missed or the desktop lost it.
pub open spec fn shortcut_goes(event: ShortcutEvent) -> ShortcutStep {
    match event {
        ShortcutEvent::SettingsFailed => ShortcutStep::ReadSettings { after_ms: 5000 },
        ShortcutEvent::SettingsRead { shortcut } => ShortcutStep::Register { shortcut },
        ShortcutEvent::RegistrationFailed => ShortcutStep::ReadSettings { after_ms: 5000 },
        ShortcutEvent::Registered => ShortcutStep::Wait,
        ShortcutEvent::Activated => ShortcutStep::Activate,
        ShortcutEvent::ActivationDone => ShortcutStep::Wait,
        ShortcutEvent::ShortcutLost => ShortcutStep::Release,
        ShortcutEvent::Announced { name } => if name@ == "settings.changed"@ {
            ShortcutStep::Release
        } else {
            ShortcutStep::Wait
        },
        ShortcutEvent::EventsMissed => ShortcutStep::Release,
        ShortcutEvent::EventsEnded => ShortcutStep::Stop,
        ShortcutEvent::Released => ShortcutStep::ReadSettings { after_ms: 0 },
    }
}

/// Decides what the daemon does about its global shortcut after an event.
pub fn shortcut_step(event: ShortcutEvent) -> (step: ShortcutStep)
    ensures
        step == shortcut_goes(event),
{
    match event {
        ShortcutEvent::SettingsFailed => ShortcutStep::ReadSettings { after_ms: 5000 },
        ShortcutEvent::SettingsRead { shortcut } => ShortcutStep::Register { shortcut },
        ShortcutEvent::RegistrationFailed => ShortcutStep::ReadSettings { after_ms: 5000 },
        ShortcutEvent::Registered => ShortcutStep::Wait,
        ShortcutEvent::Activated => ShortcutStep::Activate,
        ShortcutEvent::ActivationDone => ShortcutStep::Wait,
        ShortcutEvent::ShortcutLost => ShortcutStep::Release,
        ShortcutEvent::Announced { name } => {
            if changes_shortcut(name.as_str()) {
                ShortcutStep::Release
            } else {
                ShortcutStep::Wait
            }
        },
        ShortcutEvent::EventsMissed => ShortcutStep::Release,
        ShortcutEvent::EventsEnded => ShortcutStep::Stop,
        ShortcutEvent::Released => ShortcutStep::ReadSettings { after_ms: 0 },
    }
}

/// The model file that the settings name, or none.
pub open spec fn model_path(settings: Settings) -> Seq<char> {
    match settings.transcription.model_path {
        Some(path) => path@,
        None => Seq::empty(),
    }
}

/// The model that was loaded last.
#[derive(PartialEq, Eq, Debug)]
pub struct LoadedModel {
    pub path: String,
    pub phrase_silence_ms: u64,
}

/// The model that the settings name.
pub fn wanted_model(settings: &Settings) -> (result: LoadedModel)
    ensures
        result.path@ == model_path(*settings),
        result.phrase_silence_ms == settings.audio.phrase_silence_ms,
{
    let path = match &settings.transcription.model_path {
        Some(path) => path.clone(),
        None => String::new(),
    };
    LoadedModel { path, phrase_silence_ms: settings.audio.phrase_silence_ms }
}

/// Whether the model loaded last still serves.
pub fn still_serves(loaded: &Option<LoadedModel>, wanted: &LoadedModel) -> (result: bool)
    ensures
        result == (loaded matches Some(model) && model.path@ == wanted.path@
            && model.phrase_silence_ms == wanted.phrase_silence_ms),
{
    match loaded {
        Some(model) => {
            same_text(model.path.as_str(), wanted.path.as_str()) && model.phrase_silence_ms
                == wanted.phrase_silence_ms
        },
        None => false,
    }
}

/// The provider that the settings name, with its credential.
pub fn provider_config(settings: &Settings, api_key: Option<String>) -> (result: ProviderConfig)
    ensures
        result == (ProviderConfig {
            endpoint: settings.post_processing.endpoint,
            model_id: settings.post_processing.model_id,
            api_key,
        }),
{
    ProviderConfig {
        endpoint: settings.post_processing.endpoint.clone(),
        model_id: settings.post_processing.model_id.clone(),
        api_key,
    }
}

#[verifier::opaque]
spec fn has(names: Seq<Seq<char>>, name: Seq<char>) -> bool {
    names.contains(name)
}

proof fn in_either(a: Seq<Seq<char>>, b: Seq<Seq<char>>, name: Seq<char>)
    ensures
        (a + b).contains(name) <==> a.contains(name) || b.contains(name),
{
    if a.contains(name) {
        let i = choose|i: int| 0 <= i < a.len() && a[i] == name;
        assert((a + b)[i] == name);
    }
    if b.contains(name) {
        let i = choose|i: int| 0 <= i < b.len() && b[i] == name;
        assert((a + b)[a.len() + i] == name);
    }
    if (a + b).contains(name) {
        let i = choose|i: int| 0 <= i < (a + b).len() && (a + b)[i] == name;
        if i < a.len() {
            assert(a[i] == name);
        } else {
            assert(b[i - a.len()] == name);
        }
    }
}

proof fn added_when(before: Seq<Seq<char>>, condition: bool, added: Seq<char>, name: Seq<char>)
    ensures
        has(before + when(condition, added), name) <==> has(before, name) || (condition && name
            == added),
{
    reveal(has);
    in_either(before, when(condition, added), name);
    if condition {
        assert(when(condition, added)[0] == added);
    }
}

proof fn four_added(
    before: Seq<Seq<char>>,
    a: (bool, Seq<char>),
    b: (bool, Seq<char>),
    c: (bool, Seq<char>),
    d: (bool, Seq<char>),
    name: Seq<char>,
)
    ensures
        has(before + when(a.0, a.1) + when(b.0, b.1) + when(c.0, c.1) + when(d.0, d.1), name)
            <==> has(before, name) || (a.0 && name == a.1) || (b.0 && name == b.1) || (c.0
            && name == c.1) || (d.0 && name == d.1),
{
    added_when(before, a.0, a.1, name);
    added_when(before + when(a.0, a.1), b.0, b.1, name);
    added_when(before + when(a.0, a.1) + when(b.0, b.1), c.0, c.1, name);
    added_when(before + when(a.0, a.1) + when(b.0, b.1) + when(c.0, c.1), d.0, d.1, name);
}

/// The daemon reports what it always has, what the desktop offers and what it was built
/// with, and nothing else.
pub proof fn capabilities_are_what_is_there(
    platform: PlatformCapabilities,
    built: BuildFeatures,
    name: Seq<char>,
)
    ensures
        capability_names(platform, built).contains(name) <==> {
            ||| name == "history"@
            ||| name == "credential_store"@
            ||| name == "focus_safe_overlay"@
            ||| name == "focused_target"@ && platform.focused_target
            ||| name == "keyboard_insertion"@ && platform.keyboard_injection
            ||| name == "clipboard"@ && platform.clipboard
            ||| name == "global_shortcut"@ && platform.global_shortcut
            ||| name == "tray"@ && platform.tray
            ||| name == "autostart"@ && platform.autostart
            ||| name == "local_whisper"@ && built.native
            ||| name == "post_processing"@ && built.native
            ||| name == "prompt_rewrite"@ && built.native
            ||| name == "vulkan_acceleration"@ && built.vulkan
            ||| name == "metal_acceleration"@ && built.metal
        },
{
    let always = seq!["history"@, "credential_store"@, "focus_safe_overlay"@];
    assert(has(always, name) <==> name == "history"@ || name == "credential_store"@ || name
        == "focus_safe_overlay"@) by {
        reveal(has);
        assert(always[0] == "history"@);
        assert(always[1] == "credential_store"@);
        assert(always[2] == "focus_safe_overlay"@);
    }
    four_added(
        always,
        (platform.focused_target, "focused_target"@),
        (platform.keyboard_injection, "keyboard_insertion"@),
        (platform.clipboard, "clipboard"@),
        (platform.global_shortcut, "global_shortcut"@),
        name,
    );
    let offered = always + when(platform.focused_target, "focused_target"@) + when(
        platform.keyboard_injection,
        "keyboard_insertion"@,
    ) + when(platform.clipboard, "clipboard"@) + when(platform.global_shortcut, "global_shortcut"@);
    four_added(
        offered,
        (platform.tray, "tray"@),
        (platform.autostart, "autostart"@),
        (built.native, "local_whisper"@),
        (built.native, "post_processing"@),
        name,
    );
    let rest = offered + when(platform.tray, "tray"@) + when(platform.autostart, "autostart"@)
        + when(built.native, "local_whisper"@) + when(built.native, "post_processing"@);
    let more = rest + when(built.native, "prompt_rewrite"@);
    added_when(rest, built.native, "prompt_rewrite"@, name);
    added_when(more, built.vulkan, "vulkan_acceleration"@, name);
    let whole = more + when(built.vulkan, "vulkan_acceleration"@);
    added_when(whole, built.metal, "metal_acceleration"@, name);
    assert(has(capability_names(platform, built), name) == capability_names(platform, built).contains(
        name,
    )) by {
        reveal(has);
    }
}

/// A shortcut is given up exactly when it was lost, events were missed or the settings
/// changed; what failed is tried again after a while, and what was released at once; the
/// shortcut ends with the events.
pub proof fn shortcuts_follow_the_settings(event: ShortcutEvent)
    ensures
        shortcut_goes(event) is Release <==> {
            ||| event is ShortcutLost
            ||| event is EventsMissed
            ||| event matches ShortcutEvent::Announced { name } && name@ == "settings.changed"@
        },
        shortcut_goes(event) is ReadSettings <==> event is SettingsFailed
            || event is RegistrationFailed || event is Released,
        shortcut_goes(event) matches ShortcutStep::ReadSettings { after_ms } ==> (after_ms == 0
            <==> event is Released) && (after_ms != 0 ==> after_ms == 5000),
        shortcut_goes(event) is Register <==> event is SettingsRead,
        event matches ShortcutEvent::SettingsRead { shortcut } ==> shortcut_goes(event)
            == (ShortcutStep::Register { shortcut }),
        shortcut_goes(event) is Activate <==> event is Activated,
        shortcut_goes(event) is Stop <==> event is EventsEnded,
{
}

} // verus!
