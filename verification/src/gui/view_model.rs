//! What the window knows of the backend.

use vstd::prelude::*;
use vstd::string::*;

use crate::arith::{capped_u64, saturating_sum_u64};
use crate::contract::dto::{
    AudioDevice, AudioDevicesResponse, BackendChoice, BackendsResponse, DiagnosticCheck,
    DiagnosticsResponse, DictationState, HistoryEntry, HistoryListResponse, RecordingLevelEvent,
    SessionFailedEvent, SettingsResponse, StateChangedEvent, StateSnapshot, TranscriptFinalEvent,
    TranscriptPartialEvent,
};
use crate::contract::envelope::{Envelope, MessageKind};
use crate::contract::ids::{uuid_string, uuid_text, Uuid};
use crate::contract::settings::{default_settings, settings_valid, Settings};
use crate::decimal::{decimal, digits};
use crate::json::{json_text, read_json_text, unsigned_at};
use crate::service::recording::{clamp_level, clamped_level};
use crate::text::same_text;

verus! {

broadcast use vstd::string::group_string_axioms;

/// What the window knows. The microphone's level is held by its IEEE 754 bits.
#[derive(Clone, PartialEq, Eq, Debug)]
pub struct GuiViewModel {
    pub instance_id: Option<Uuid>,
    pub last_sequence: Option<u64>,
    pub state: DictationState,
    pub active_session_id: Option<Uuid>,
    pub settings_revision: u64,
    pub settings: Settings,
    pub capabilities: Vec<String>,
    pub audio_devices: Vec<AudioDevice>,
    pub transcription_backends: Vec<BackendChoice>,
    pub post_processing_backends: Vec<BackendChoice>,
    pub history: Vec<HistoryEntry>,
    pub history_next_cursor: Option<String>,
    pub diagnostics: Vec<DiagnosticCheck>,
    pub diagnostics_log_path: Option<String>,
    pub audio_level_bits: u32,
    pub partial_text: String,
    pub error: Option<String>,
    pub settings_error_field: Option<String>,
    pub settings_error_message: Option<String>,
    pub settings_stale: bool,
}

/// A model that knows nothing of the backend.
pub open spec fn blank_model(model: GuiViewModel) -> bool {
    &&& unconnected(model)
    &&& model.error is None
}

/// Everything but the error is as it is before the backend was heard of.
pub open spec fn unconnected(model: GuiViewModel) -> bool {
    &&& model.instance_id is None
    &&& model.last_sequence is None
    &&& model.state is Starting
    &&& model.active_session_id is None
    &&& model.settings_revision == 0
    &&& default_settings(model.settings)
    &&& model.capabilities@.len() == 0
    &&& model.audio_devices@.len() == 0
    &&& model.transcription_backends@.len() == 0
    &&& model.post_processing_backends@.len() == 0
    &&& model.history@.len() == 0
    &&& model.history_next_cursor is None
    &&& model.diagnostics@.len() == 0
    &&& model.diagnostics_log_path is None
    &&& model.audio_level_bits == 0
    &&& model.partial_text@.len() == 0
    &&& model.settings_error_field is None
    &&& model.settings_error_message is None
    &&& !model.settings_stale
}

impl Default for GuiViewModel {
    fn default() -> (result: Self)
        ensures
            blank_model(result),
            settings_valid(result.settings),
    {
        Self {
            instance_id: None,
            last_sequence: None,
            state: DictationState::Starting,
            active_session_id: None,
            settings_revision: 0,
            settings: Settings::default(),
            capabilities: Vec::new(),
            audio_devices: Vec::new(),
            transcription_backends: Vec::new(),
            post_processing_backends: Vec::new(),
            history: Vec::new(),
            history_next_cursor: None,
            diagnostics: Vec::new(),
            diagnostics_log_path: None,
            audio_level_bits: 0,
            partial_text: String::new(),
            error: None,
            settings_error_field: None,
            settings_error_message: None,
            settings_stale: false,
        }
    }
}

#[derive(Clone, PartialEq, Eq, Debug)]
pub enum ViewModelError {
    UnexpectedMessage(String),
    BackendRestarted { expected: Uuid, received: Uuid },
    SequenceGap { expected: u64, received: u64 },
    Payload(String),
}

/// What a view model's error says to a reader.
pub open spec fn view_error_text(error: ViewModelError) -> Seq<char> {
    match error {
        ViewModelError::UnexpectedMessage(name) => "unexpected message kind or name: "@ + name@,
        ViewModelError::BackendRestarted { expected, received } => "event belongs to backend "@
            + uuid_text(received) + ", expected "@ + uuid_text(expected),
        ViewModelError::SequenceGap { expected, received } => "event sequence gap: expected "@
            + digits(expected as nat) + ", received "@ + digits(received as nat),
        ViewModelError::Payload(reason) => "invalid event payload: "@ + reason@,
    }
}

impl ViewModelError {
    /// What the error says to a reader.
    pub fn message(&self) -> (result: String)
        ensures
            result@ == view_error_text(*self),
    {
        match self {
            ViewModelError::UnexpectedMessage(name) => {
                let mut text = String::from_str("unexpected message kind or name: ");
                text.append(name.as_str());
                text
            },
            ViewModelError::BackendRestarted { expected, received } => {
                let mut text = String::from_str("event belongs to backend ");
                text.append(uuid_string(*received).as_str());
                text.append(", expected ");
                text.append(uuid_string(*expected).as_str());
                text
            },
            ViewModelError::SequenceGap { expected, received } => {
                let mut text = String::from_str("event sequence gap: expected ");
                text.append(decimal(*expected).as_str());
                text.append(", received ");
                text.append(decimal(*received).as_str());
                text
            },
            ViewModelError::Payload(reason) => {
                let mut text = String::from_str("invalid event payload: ");
                text.append(reason.as_str());
                text
            },
        }
    }
}

/// The payload of an event that came in.
#[derive(PartialEq, Eq, Debug)]
pub enum ReceivedEvent {
    StateChanged(StateChangedEvent),
    RecordingLevel(RecordingLevelEvent),
    TranscriptPartial(TranscriptPartialEvent),
    TranscriptFinal(TranscriptFinalEvent),
    SessionFailed(SessionFailedEvent),
    /// The payload is looked at for a revision.
    SettingsChanged,
    /// The payload of an event of another name, which is not looked at.
    Other,
}

/// What the payload of an event is read as.
#[derive(Clone, Copy, PartialEq, Eq, Structural, Debug)]
pub enum EventKind {
    StateChanged,
    RecordingLevel,
    TranscriptPartial,
    TranscriptFinal,
    SessionFailed,
    SettingsChanged,
    Other,
}

/// What the payload of an event of a name is read as.
pub open spec fn kind_of(name: Seq<char>) -> EventKind {
    if name == "state.changed"@ {
        EventKind::StateChanged
    } else if name == "recording.level"@ {
        EventKind::RecordingLevel
    } else if name == "transcript.partial"@ {
        EventKind::TranscriptPartial
    } else if name == "transcript.final"@ {
        EventKind::TranscriptFinal
    } else if name == "session.failed"@ {
        EventKind::SessionFailed
    } else if name == "settings.changed"@ {
        EventKind::SettingsChanged
    } else {
        EventKind::Other
    }
}

/// What the payload of an event of a name is read as.
pub fn event_kind(name: &str) -> (result: EventKind)
    ensures
        result == kind_of(name@),
{
    if same_text(name, "state.changed") {
        EventKind::StateChanged
    } else if same_text(name, "recording.level") {
        EventKind::RecordingLevel
    } else if same_text(name, "transcript.partial") {
        EventKind::TranscriptPartial
    } else if same_text(name, "transcript.final") {
        EventKind::TranscriptFinal
    } else if same_text(name, "session.failed") {
        EventKind::SessionFailed
    } else if same_text(name, "settings.changed") {
        EventKind::SettingsChanged
    } else {
        EventKind::Other
    }
}

/// The events that need no more than their name.
pub open spec fn is_notice(name: Seq<char>) -> bool {
    ||| name == "history.added"@
    ||| name == "history.cleared"@
    ||| name == "backend.health_changed"@
}

/// The payload was read as that of an event of a kind; only one that has to be read can
/// fail to be.
pub open spec fn fits(kind: EventKind, payload: Result<ReceivedEvent, String>) -> bool {
    match payload {
        Ok(ReceivedEvent::StateChanged(_)) => kind is StateChanged,
        Ok(ReceivedEvent::RecordingLevel(_)) => kind is RecordingLevel,
        Ok(ReceivedEvent::TranscriptPartial(_)) => kind is TranscriptPartial,
        Ok(ReceivedEvent::TranscriptFinal(_)) => kind is TranscriptFinal,
        Ok(ReceivedEvent::SessionFailed(_)) => kind is SessionFailed,
        Ok(ReceivedEvent::SettingsChanged) => kind is SettingsChanged,
        Ok(ReceivedEvent::Other) => kind is Other,
        Err(_) => !(kind is SettingsChanged) && !(kind is Other),
    }
}

/// The revision that a payload names, where it is an object with such a number.
pub open spec fn revision_in(payload: Seq<char>) -> Option<u64> {
    match json_text(payload) {
        Ok(json) => unsigned_at(json, "revision"@),
        Err(_) => None,
    }
}

fn read_revision(payload: &str) -> (result: Option<u64>)
    ensures
        result == revision_in(payload@),
{
    match read_json_text(payload) {
        Ok(json) => json.unsigned_at("revision"),
        Err(_) => None,
    }
}

/// Why an event is not taken, judged by its envelope alone.
pub open spec fn event_refused(model: GuiViewModel, e: Envelope) -> Option<ViewModelError> {
    if !(e.kind is Event) || e.instance_id is None {
        Some(ViewModelError::UnexpectedMessage(e.name))
    } else if model.instance_id is Some && model.instance_id != e.instance_id {
        Some(
            ViewModelError::BackendRestarted {
                expected: model.instance_id->0,
                received: e.instance_id->0,
            },
        )
    } else if e.sequence is None {
        Some(ViewModelError::UnexpectedMessage(e.name))
    } else if model.last_sequence is Some && e.sequence->0 != capped_u64(
        model.last_sequence->0 + 1,
    ) {
        Some(
            ViewModelError::SequenceGap {
                expected: capped_u64(model.last_sequence->0 + 1) as u64,
                received: e.sequence->0,
            },
        )
    } else {
        None
    }
}

/// The model once it was told of the settings' revision: they are stale where that is not
/// the one shown, and not where no revision was named.
pub open spec fn with_revision_told(before: GuiViewModel, revision: Option<u64>) -> GuiViewModel {
    GuiViewModel {
        settings_stale: revision is Some && revision->0 != before.settings_revision,
        ..before
    }
}

/// What an event that is taken changes, apart from its number.
pub open spec fn shows_event(
    before: GuiViewModel,
    after: GuiViewModel,
    envelope: Envelope,
    payload: ReceivedEvent,
) -> bool {
    match payload {
        ReceivedEvent::StateChanged(event) => {
            &&& after == (GuiViewModel {
                state: event.current,
                active_session_id: if event.current is Idle {
                    None
                } else {
                    event.session_id
                },
                audio_level_bits: if event.current is Recording {
                    before.audio_level_bits
                } else {
                    0
                },
                partial_text: after.partial_text,
                ..before
            })
            &&& if event.current is Recording {
                after.partial_text@.len() == 0
            } else {
                after.partial_text == before.partial_text
            }
        },
        ReceivedEvent::RecordingLevel(event) => after == (GuiViewModel {
            audio_level_bits: if before.active_session_id == Some(event.session_id) {
                clamped_level(event.level_bits)
            } else {
                before.audio_level_bits
            },
            ..before
        }),
        ReceivedEvent::TranscriptPartial(event) => after == (GuiViewModel {
            partial_text: if before.active_session_id == Some(event.session_id) {
                event.text
            } else {
                before.partial_text
            },
            ..before
        }),
        ReceivedEvent::TranscriptFinal(_) => {
            &&& after == (GuiViewModel {
                partial_text: after.partial_text,
                audio_level_bits: 0,
                ..before
            })
            &&& after.partial_text@.len() == 0
        },
        ReceivedEvent::SessionFailed(event) => after == (GuiViewModel {
            error: if event.code@ != "cancelled"@ {
                Some(event.message)
            } else {
                None
            },
            audio_level_bits: 0,
            ..before
        }),
        ReceivedEvent::SettingsChanged => after == with_revision_told(
            before,
            revision_in(envelope.payload@),
        ),
        ReceivedEvent::Other => after == before,
    }
}

/// The model after an event was counted.
pub open spec fn counted(before: GuiViewModel, e: Envelope) -> GuiViewModel {
    GuiViewModel { instance_id: e.instance_id, last_sequence: e.sequence, ..before }
}

/// An answer of the right kind and name, or the error that it is not.
pub open spec fn is_answer(e: Envelope, name: Seq<char>) -> bool {
    e.kind is Response && e.name@ == name
}

fn expect_response(envelope: &Envelope, name: &str) -> (result: Result<(), ViewModelError>)
    ensures
        match result {
            Ok(()) => is_answer(*envelope, name@),
            Err(error) => !is_answer(*envelope, name@) && error
                == ViewModelError::UnexpectedMessage(envelope.name),
        },
{
    if envelope.kind != MessageKind::Response || !same_text(envelope.name.as_str(), name) {
        return Err(ViewModelError::UnexpectedMessage(envelope.name.clone()));
    }
    Ok(())
}

/// How a snapshot of the state is taken up.
pub open spec fn takes_snapshot(
    before: GuiViewModel,
    after: GuiViewModel,
    envelope: Envelope,
    payload: Result<StateSnapshot, String>,
    result: Result<(), ViewModelError>,
) -> bool {
    if !is_answer(envelope, "state.get"@) {
        &&& result == Err::<(), ViewModelError>(
            ViewModelError::UnexpectedMessage(envelope.name),
        )
        &&& after == before
    } else {
        match payload {
            Err(reason) => {
                &&& result == Err::<(), ViewModelError>(ViewModelError::Payload(reason))
                &&& after == before
            },
            Ok(snapshot) => {
                &&& result is Ok
                &&& after == (GuiViewModel {
                    instance_id: envelope.instance_id,
                    last_sequence: if before.instance_id != envelope.instance_id {
                        None
                    } else {
                        before.last_sequence
                    },
                    state: snapshot.state,
                    active_session_id: snapshot.active_session_id,
                    settings_revision: snapshot.settings_revision,
                    capabilities: snapshot.capabilities,
                    audio_level_bits: 0,
                    error: None,
                    ..before
                })
            },
        }
    }
}

/// How the settings are taken up.
pub open spec fn takes_settings(
    before: GuiViewModel,
    after: GuiViewModel,
    envelope: Envelope,
    payload: Result<SettingsResponse, String>,
    result: Result<(), ViewModelError>,
) -> bool {
    if !is_answer(envelope, "settings.get"@) && !is_answer(
        envelope,
        "settings.replace"@,
    ) {
        &&& result == Err::<(), ViewModelError>(
            ViewModelError::UnexpectedMessage(envelope.name),
        )
        &&& after == before
    } else {
        match payload {
            Err(reason) => {
                &&& result == Err::<(), ViewModelError>(ViewModelError::Payload(reason))
                &&& after == before
            },
            Ok(response) => {
                &&& result is Ok
                &&& after == (GuiViewModel {
                    settings_revision: response.revision,
                    settings: response.settings,
                    settings_stale: false,
                    error: None,
                    ..before
                })
            },
        }
    }
}

/// How the input devices are taken up.
pub open spec fn takes_devices(
    before: GuiViewModel,
    after: GuiViewModel,
    envelope: Envelope,
    payload: Result<AudioDevicesResponse, String>,
    result: Result<(), ViewModelError>,
) -> bool {
    if !is_answer(envelope, "audio_devices.list"@) {
        &&& result == Err::<(), ViewModelError>(
            ViewModelError::UnexpectedMessage(envelope.name),
        )
        &&& after == before
    } else {
        match payload {
            Err(reason) => {
                &&& result == Err::<(), ViewModelError>(ViewModelError::Payload(reason))
                &&& after == before
            },
            Ok(response) => {
                &&& result is Ok
                &&& after == (GuiViewModel {
                    audio_devices: response.devices,
                    settings: after.settings,
                    ..before
                })
                &&& after.settings == (Settings {
                    audio: after.settings.audio,
                    ..before.settings
                })
                &&& after.settings.audio == (crate::contract::settings::AudioSettings {
                    input_device_id: response.selected_id,
                    ..before.settings.audio
                })
            },
        }
    }
}

/// How the backends are taken up.
pub open spec fn takes_backends(
    before: GuiViewModel,
    after: GuiViewModel,
    envelope: Envelope,
    payload: Result<BackendsResponse, String>,
    result: Result<(), ViewModelError>,
) -> bool {
    if !is_answer(envelope, "backends.list"@) {
        &&& result == Err::<(), ViewModelError>(
            ViewModelError::UnexpectedMessage(envelope.name),
        )
        &&& after == before
    } else {
        match payload {
            Err(reason) => {
                &&& result == Err::<(), ViewModelError>(ViewModelError::Payload(reason))
                &&& after == before
            },
            Ok(response) => {
                &&& result is Ok
                &&& after == (GuiViewModel {
                    transcription_backends: response.transcription,
                    post_processing_backends: response.post_processing,
                    ..before
                })
            },
        }
    }
}

/// How a page of the history is taken up.
pub open spec fn takes_history(
    before: GuiViewModel,
    after: GuiViewModel,
    envelope: Envelope,
    payload: Result<HistoryListResponse, String>,
    result: Result<(), ViewModelError>,
) -> bool {
    if !is_answer(envelope, "history.list"@) {
        &&& result == Err::<(), ViewModelError>(
            ViewModelError::UnexpectedMessage(envelope.name),
        )
        &&& after == before
    } else {
        match payload {
            Err(reason) => {
                &&& result == Err::<(), ViewModelError>(ViewModelError::Payload(reason))
                &&& after == before
            },
            Ok(response) => {
                &&& result is Ok
                &&& after == (GuiViewModel {
                    history: response.entries,
                    history_next_cursor: response.next_cursor,
                    ..before
                })
            },
        }
    }
}

/// How the checks are taken up.
pub open spec fn takes_diagnostics(
    before: GuiViewModel,
    after: GuiViewModel,
    envelope: Envelope,
    payload: Result<DiagnosticsResponse, String>,
    result: Result<(), ViewModelError>,
) -> bool {
    if !is_answer(envelope, "diagnostics.get"@) {
        &&& result == Err::<(), ViewModelError>(
            ViewModelError::UnexpectedMessage(envelope.name),
        )
        &&& after == before
    } else {
        match payload {
            Err(reason) => {
                &&& result == Err::<(), ViewModelError>(ViewModelError::Payload(reason))
                &&& after == before
            },
            Ok(response) => {
                &&& result is Ok
                &&& after == (GuiViewModel {
                    diagnostics: response.checks,
                    diagnostics_log_path: response.log_path,
                    ..before
                })
            },
        }
    }
}

/// How an event is taken up.
pub open spec fn takes_event(
    before: GuiViewModel,
    after: GuiViewModel,
    envelope: Envelope,
    payload: Result<ReceivedEvent, String>,
    result: Result<(), ViewModelError>,
) -> bool {
    match event_refused(before, envelope) {
        Some(error) => {
            &&& result == Err::<(), ViewModelError>(error)
            &&& after == (GuiViewModel {
                instance_id: after.instance_id,
                ..before
            })
            &&& after.instance_id == learned_instance(before, envelope)
        },
        None => match payload {
            Err(reason) => {
                &&& result == Err::<(), ViewModelError>(ViewModelError::Payload(reason))
                &&& after == counted(before, envelope)
            },
            Ok(event) => {
                &&& shows_event(counted(before, envelope), after, envelope, event)
                &&& if event is Other && !is_notice(envelope.name@) {
                    result matches Err(ViewModelError::UnexpectedMessage(name)) && name@
                        == envelope.name@
                } else {
                    result is Ok
                }
            },
        },
    }
}

impl GuiViewModel {
    /// Takes up a snapshot of the backend's state. One of another instance makes the
    /// numbers of earlier events meaningless.
    pub fn apply_snapshot(
        &mut self,
        envelope: &Envelope,
        payload: Result<StateSnapshot, String>,
    ) -> (result: Result<(), ViewModelError>)
        ensures
            takes_snapshot(*old(self), *final(self), *envelope, payload, result),
    {
        expect_response(envelope, "state.get")?;
        let snapshot = match payload {
            Ok(snapshot) => snapshot,
            Err(reason) => {
                return Err(ViewModelError::Payload(reason));
            },
        };
        let same_instance = match (self.instance_id, envelope.instance_id) {
            (Some(known), Some(received)) => known == received,
            (None, None) => true,
            _ => false,
        };
        if !same_instance {
            self.last_sequence = None;
        }
        self.instance_id = envelope.instance_id;
        self.state = snapshot.state;
        self.active_session_id = snapshot.active_session_id;
        self.settings_revision = snapshot.settings_revision;
        self.capabilities = snapshot.capabilities;
        self.audio_level_bits = 0;
        self.error = None;
        Ok(())
    }

    /// Takes up the settings.
    pub fn apply_settings(
        &mut self,
        envelope: &Envelope,
        payload: Result<SettingsResponse, String>,
    ) -> (result: Result<(), ViewModelError>)
        ensures
            takes_settings(*old(self), *final(self), *envelope, payload, result),
    {
        if envelope.kind != MessageKind::Response || !(same_text(
            envelope.name.as_str(),
            "settings.get",
        ) || same_text(envelope.name.as_str(), "settings.replace")) {
            return Err(ViewModelError::UnexpectedMessage(envelope.name.clone()));
        }
        let response = match payload {
            Ok(response) => response,
            Err(reason) => {
                return Err(ViewModelError::Payload(reason));
            },
        };
        self.settings_revision = response.revision;
        self.settings = response.settings;
        self.settings_stale = false;
        self.error = None;
        Ok(())
    }

    /// Takes up the input devices.
    pub fn apply_audio_devices(
        &mut self,
        envelope: &Envelope,
        payload: Result<AudioDevicesResponse, String>,
    ) -> (result: Result<(), ViewModelError>)
        ensures
            takes_devices(*old(self), *final(self), *envelope, payload, result),
    {
        expect_response(envelope, "audio_devices.list")?;
        let response = match payload {
            Ok(response) => response,
            Err(reason) => {
                return Err(ViewModelError::Payload(reason));
            },
        };
        self.audio_devices = response.devices;
        self.settings.audio.input_device_id = response.selected_id;
        Ok(())
    }

    /// Takes up the backends.
    pub fn apply_backends(
        &mut self,
        envelope: &Envelope,
        payload: Result<BackendsResponse, String>,
    ) -> (result: Result<(), ViewModelError>)
        ensures
            takes_backends(*old(self), *final(self), *envelope, payload, result),
    {
        expect_response(envelope, "backends.list")?;
        let response = match payload {
            Ok(response) => response,
            Err(reason) => {
                return Err(ViewModelError::Payload(reason));
            },
        };
        self.transcription_backends = response.transcription;
        self.post_processing_backends = response.post_processing;
        Ok(())
    }

    /// Takes up a page of the history.
    pub fn apply_history(
        &mut self,
        envelope: &Envelope,
        payload: Result<HistoryListResponse, String>,
    ) -> (result: Result<(), ViewModelError>)
        ensures
            takes_history(*old(self), *final(self), *envelope, payload, result),
    {
        expect_response(envelope, "history.list")?;
        let response = match payload {
            Ok(response) => response,
            Err(reason) => {
                return Err(ViewModelError::Payload(reason));
            },
        };
        self.history = response.entries;
        self.history_next_cursor = response.next_cursor;
        Ok(())
    }

    /// Takes up what works and what does not.
    pub fn apply_diagnostics(
        &mut self,
        envelope: &Envelope,
        payload: Result<DiagnosticsResponse, String>,
    ) -> (result: Result<(), ViewModelError>)
        ensures
            takes_diagnostics(*old(self), *final(self), *envelope, payload, result),
    {
        expect_response(envelope, "diagnostics.get")?;
        let response = match payload {
            Ok(response) => response,
            Err(reason) => {
                return Err(ViewModelError::Payload(reason));
            },
        };
        self.diagnostics = response.checks;
        self.diagnostics_log_path = response.log_path;
        Ok(())
    }

    /// Checks where an event comes from and its number, and counts it.
    fn count_event(&mut self, envelope: &Envelope) -> (result: Result<(), ViewModelError>)
        ensures
            match event_refused(*old(self), *envelope) {
                None => result is Ok && *final(self) == counted(*old(self), *envelope),
                Some(error) => {
                    &&& result == Err::<(), ViewModelError>(error)
                    &&& *final(self) == (GuiViewModel {
                        instance_id: final(self).instance_id,
                        ..*old(self)
                    })
                    &&& final(self).instance_id == learned_instance(*old(self), *envelope)
                },
            },
    {
        if envelope.kind != MessageKind::Event {
            return Err(ViewModelError::UnexpectedMessage(envelope.name.clone()));
        }
        let received_instance = match envelope.instance_id {
            Some(instance) => instance,
            None => {
                return Err(ViewModelError::UnexpectedMessage(envelope.name.clone()));
            },
        };
        match self.instance_id {
            Some(expected) => {
                if expected != received_instance {
                    return Err(
                        ViewModelError::BackendRestarted { expected, received: received_instance },
                    );
                }
            },
            None => {
                self.instance_id = Some(received_instance);
            },
        }
        let received: u64 = match envelope.sequence {
            Some(sequence) => sequence,
            None => {
                return Err(ViewModelError::UnexpectedMessage(envelope.name.clone()));
            },
        };
        if let Some(previous) = self.last_sequence {
            let expected: u64 = saturating_sum_u64(previous, 1);
            if received != expected {
                return Err(ViewModelError::SequenceGap { expected, received });
            }
        }
        self.last_sequence = Some(received);
        Ok(())
    }

    /// Takes up that the settings have a revision, where one was named.
    pub fn tell_revision(&mut self, revision: Option<u64>)
        ensures
            *final(self) == with_revision_told(*old(self), revision),
    {
        self.settings_stale = match revision {
            Some(revision) => revision != self.settings_revision,
            None => false,
        };
    }

    /// Takes up an event: only one of the instance known, and only the one that follows the
    /// last. What it says of a session other than the active one is left aside.
    pub fn apply_event(
        &mut self,
        envelope: &Envelope,
        payload: Result<ReceivedEvent, String>,
    ) -> (result: Result<(), ViewModelError>)
        requires
            fits(kind_of(envelope.name@), payload),
        ensures
            takes_event(*old(self), *final(self), *envelope, payload, result),
    {
        self.count_event(envelope)?;
        let event = match payload {
            Ok(event) => event,
            Err(reason) => {
                return Err(ViewModelError::Payload(reason));
            },
        };
        match event {
            ReceivedEvent::StateChanged(event) => {
                self.state = event.current;
                self.active_session_id = if event.current == DictationState::Idle {
                    None
                } else {
                    event.session_id
                };
                if event.current != DictationState::Recording {
                    self.audio_level_bits = 0;
                }
                if event.current == DictationState::Recording {
                    self.partial_text = String::new();
                }
            },
            ReceivedEvent::RecordingLevel(event) => {
                let active = match self.active_session_id {
                    Some(session_id) => session_id == event.session_id,
                    None => false,
                };
                if active {
                    self.audio_level_bits = clamp_level(event.level_bits);
                }
            },
            ReceivedEvent::TranscriptPartial(event) => {
                let active = match self.active_session_id {
                    Some(session_id) => session_id == event.session_id,
                    None => false,
                };
                if active {
                    self.partial_text = event.text;
                }
            },
            ReceivedEvent::TranscriptFinal(_) => {
                self.partial_text = String::new();
                self.audio_level_bits = 0;
            },
            ReceivedEvent::SessionFailed(event) => {
                self.error = if same_text(event.code.as_str(), "cancelled") {
                    None
                } else {
                    Some(event.message)
                };
                self.audio_level_bits = 0;
            },
            ReceivedEvent::SettingsChanged => {
                self.tell_revision(read_revision(envelope.payload.as_str()));
            },
            ReceivedEvent::Other => {
                let name = envelope.name.as_str();
                if !(same_text(name, "history.added") || same_text(name, "history.cleared")
                    || same_text(name, "backend.health_changed")) {
                    return Err(ViewModelError::UnexpectedMessage(envelope.name.clone()));
                }
            },
        }
        Ok(())
    }
}

/// The instance that the model knows after looking at an event: its own, or where it knew
/// none, the event's.
pub open spec fn learned_instance(before: GuiViewModel, e: Envelope) -> Option<Uuid> {
    if e.kind is Event && before.instance_id is None {
        e.instance_id
    } else {
        before.instance_id
    }
}

// ---------------------------------------------------------------------------
// What holds of every stream of events
// ---------------------------------------------------------------------------

/// Two events taken one after the other come from the same instance and have numbers that
/// follow each other.
pub proof fn events_taken_follow_each_other(
    before: GuiViewModel,
    middle: GuiViewModel,
    after: GuiViewModel,
    first: Envelope,
    second: Envelope,
    first_payload: Result<ReceivedEvent, String>,
    second_payload: Result<ReceivedEvent, String>,
)
    requires
        takes_event(before, middle, first, first_payload, Ok(())),
        takes_event(middle, after, second, second_payload, Ok(())),
    ensures
        second.instance_id == first.instance_id,
        second.sequence->0 == capped_u64(first.sequence->0 + 1),
{
}

/// After a snapshot of an instance other than the one known, that instance's first event is
/// not refused, whatever its number: what was known of the old numbers is forgotten.
pub proof fn a_new_instance_starts_afresh(
    before: GuiViewModel,
    after: GuiViewModel,
    answer: Envelope,
    snapshot: StateSnapshot,
    first: Envelope,
)
    requires
        takes_snapshot(before, after, answer, Ok(snapshot), Ok(())),
        answer.instance_id is Some,
        before.instance_id != answer.instance_id,
        first.kind is Event,
        first.instance_id == answer.instance_id,
        first.sequence is Some,
    ensures
        event_refused(after, first) is None,
{
}

/// What is said of another session than the active one changes nothing that is shown.
pub proof fn other_sessions_are_not_shown(
    before: GuiViewModel,
    after: GuiViewModel,
    envelope: Envelope,
    payload: ReceivedEvent,
    session_id: Uuid,
)
    requires
        shows_event(before, after, envelope, payload),
        before.active_session_id != Some(session_id),
        payload matches ReceivedEvent::RecordingLevel(event) ==> event.session_id == session_id,
        payload matches ReceivedEvent::TranscriptPartial(event) ==> event.session_id
            == session_id,
        payload is RecordingLevel || payload is TranscriptPartial,
    ensures
        after == before,
{
}

/// The state and the session are those that the last change of state told; the session is
/// gone once the backend is idle.
pub proof fn only_state_changes_change_the_state(
    before: GuiViewModel,
    after: GuiViewModel,
    envelope: Envelope,
    payload: ReceivedEvent,
)
    requires
        shows_event(before, after, envelope, payload),
    ensures
        match payload {
            ReceivedEvent::StateChanged(event) => {
                &&& after.state == event.current
                &&& after.active_session_id is None || !(event.current is Idle)
                &&& event.current is Idle || after.active_session_id == event.session_id
            },
            _ => after.state == before.state && after.active_session_id
                == before.active_session_id,
        },
        after.instance_id == before.instance_id,
        after.last_sequence == before.last_sequence,
        after.settings == before.settings,
        after.settings_revision == before.settings_revision,
        after.history == before.history,
        after.capabilities == before.capabilities,
{
}

/// The partial transcript is that of the session under way: it starts empty, is replaced as
/// it grows, and is gone once the final one is there.
pub proof fn partial_transcripts_last_until_the_final_one(
    before: GuiViewModel,
    after: GuiViewModel,
    envelope: Envelope,
    payload: ReceivedEvent,
)
    requires
        shows_event(before, after, envelope, payload),
    ensures
        match payload {
            ReceivedEvent::TranscriptPartial(event) => before.active_session_id == Some(
                event.session_id,
            ) ==> after.partial_text == event.text,
            ReceivedEvent::TranscriptFinal(_) => after.partial_text@.len() == 0,
            ReceivedEvent::StateChanged(event) => (event.current is Recording
                ==> after.partial_text@.len() == 0) && (!(event.current is Recording)
                ==> after.partial_text == before.partial_text),
            _ => after.partial_text == before.partial_text,
        },
{
}

/// A level is shown only while recording: whatever ends the recording takes it back to
/// nought.
pub proof fn levels_are_shown_while_recording(
    before: GuiViewModel,
    after: GuiViewModel,
    envelope: Envelope,
    payload: ReceivedEvent,
)
    requires
        shows_event(before, after, envelope, payload),
    ensures
        match payload {
            ReceivedEvent::RecordingLevel(event) => before.active_session_id == Some(
                event.session_id,
            ) ==> after.audio_level_bits == clamped_level(event.level_bits),
            ReceivedEvent::StateChanged(event) => !(event.current is Recording)
                ==> after.audio_level_bits == 0,
            ReceivedEvent::TranscriptFinal(_) => after.audio_level_bits == 0,
            ReceivedEvent::SessionFailed(_) => after.audio_level_bits == 0,
            _ => after.audio_level_bits == before.audio_level_bits,
        },
{
}

/// A failure is shown with its message unless the user cancelled; no other event touches the
/// error.
pub proof fn failures_are_shown_unless_cancelled(
    before: GuiViewModel,
    after: GuiViewModel,
    envelope: Envelope,
    payload: ReceivedEvent,
)
    requires
        shows_event(before, after, envelope, payload),
    ensures
        match payload {
            ReceivedEvent::SessionFailed(event) => {
                &&& event.code@ == "cancelled"@ ==> after.error is None
                &&& event.code@ != "cancelled"@ ==> after.error == Some(event.message)
            },
            _ => after.error == before.error,
        },
{
}

/// Settings are out of date exactly if a revision other than the known one was announced
/// last; having read the settings, they are not.
pub proof fn announced_revisions_make_settings_stale(
    before: GuiViewModel,
    after: GuiViewModel,
    envelope: Envelope,
    revision: u64,
    read: GuiViewModel,
    answer: Envelope,
    response: SettingsResponse,
)
    requires
        revision_in(envelope.payload@) == Some(revision),
        shows_event(before, after, envelope, ReceivedEvent::SettingsChanged),
        takes_settings(after, read, answer, Ok(response), Ok(())),
    ensures
        after.settings_stale <==> revision != before.settings_revision,
        !read.settings_stale,
        read.settings == response.settings,
        read.settings_revision == response.revision,
        read.error is None,
        read.state == before.state,
        read.active_session_id == before.active_session_id,
{
}

/// An event is taken exactly if it is one, if it is of the backend that was heard before,
/// and if it follows the one before it.
pub proof fn events_are_taken_in_sequence(model: GuiViewModel, e: Envelope)
    requires
        model.last_sequence matches Some(last) ==> last < u64::MAX,
    ensures
        event_refused(model, e) is None <==> {
            &&& e.kind is Event
            &&& e.instance_id is Some
            &&& e.sequence is Some
            &&& model.instance_id is None || model.instance_id == e.instance_id
            &&& model.last_sequence is None || e.sequence->0 == model.last_sequence->0 + 1
        },
        event_refused(model, e) is Some && e.kind is Event && e.instance_id is Some && (
        model.instance_id is Some && model.instance_id != e.instance_id)
            ==> event_refused(model, e)->0 is BackendRestarted,
{
}

/// An event that is refused shows nothing; one whose payload cannot be read still counts.
pub proof fn refused_events_show_nothing(
    before: GuiViewModel,
    after: GuiViewModel,
    envelope: Envelope,
    payload: Result<ReceivedEvent, String>,
    result: Result<(), ViewModelError>,
)
    requires
        takes_event(before, after, envelope, payload, result),
        event_refused(before, envelope) is Some || payload is Err,
    ensures
        result is Err,
        after.state == before.state,
        after.active_session_id == before.active_session_id,
        after.partial_text == before.partial_text,
        after.audio_level_bits == before.audio_level_bits,
        after.error == before.error,
        after.settings_stale == before.settings_stale,
        event_refused(before, envelope) is Some ==> after.last_sequence == before.last_sequence,
        event_refused(before, envelope) is None ==> after.last_sequence == envelope.sequence,
{
}

/// Each event is known by its name.
pub proof fn events_are_known_by_name(name: Seq<char>)
    ensures
        kind_of(name) is StateChanged <==> name == "state.changed"@,
        kind_of(name) is RecordingLevel <==> name == "recording.level"@,
        kind_of(name) is TranscriptPartial <==> name == "transcript.partial"@,
        kind_of(name) is TranscriptFinal <==> name == "transcript.final"@,
        kind_of(name) is SessionFailed <==> name == "session.failed"@,
        kind_of(name) is SettingsChanged <==> name == "settings.changed"@,
{
    reveal_strlit("state.changed");
    reveal_strlit("recording.level");
    reveal_strlit("transcript.partial");
    reveal_strlit("transcript.final");
    reveal_strlit("session.failed");
    reveal_strlit("settings.changed");
    assert("state.changed"@.len() == 13);
    assert("recording.level"@.len() == 15);
    assert("transcript.partial"@.len() == 18);
    assert("transcript.final"@.len() == 16);
    assert("session.failed"@.len() == 14);
    assert("settings.changed"@.len() == 16);
    assert("transcript.final"@[0] == 't');
    assert("settings.changed"@[0] == 's');
}

/// An answer is taken exactly if it answers its own request and can be read; one that is not
/// taken changes nothing.
pub proof fn answers_are_taken_by_their_name(
    before: GuiViewModel,
    after: GuiViewModel,
    e: Envelope,
    result: Result<(), ViewModelError>,
    snapshot: Result<StateSnapshot, String>,
    settings: Result<SettingsResponse, String>,
    devices: Result<AudioDevicesResponse, String>,
    backends: Result<BackendsResponse, String>,
    history: Result<HistoryListResponse, String>,
    checks: Result<DiagnosticsResponse, String>,
)
    ensures
        takes_snapshot(before, after, e, snapshot, result) ==> (result is Ok <==> e.kind is Response
            && e.name@ == "state.get"@ && snapshot is Ok) && (result is Err ==> after == before),
        takes_settings(before, after, e, settings, result) ==> (result is Ok <==> e.kind is Response
            && (e.name@ == "settings.get"@ || e.name@ == "settings.replace"@) && settings is Ok)
            && (result is Err ==> after == before),
        takes_devices(before, after, e, devices, result) ==> (result is Ok <==> e.kind is Response
            && e.name@ == "audio_devices.list"@ && devices is Ok) && (result is Err ==> after
            == before),
        takes_backends(before, after, e, backends, result) ==> (result is Ok <==> e.kind is Response
            && e.name@ == "backends.list"@ && backends is Ok) && (result is Err ==> after
            == before),
        takes_history(before, after, e, history, result) ==> (result is Ok <==> e.kind is Response
            && e.name@ == "history.list"@ && history is Ok) && (result is Err ==> after == before),
        takes_diagnostics(before, after, e, checks, result) ==> (result is Ok
            <==> e.kind is Response && e.name@ == "diagnostics.get"@ && checks is Ok) && (result is Err
            ==> after == before),
{
}

/// What an answer tells is shown, and an answer touches nothing but what it tells: only a
/// state or the settings take an error away, and only settings that were read are up to
/// date.
pub proof fn answers_are_shown(
    before: GuiViewModel,
    after: GuiViewModel,
    e: Envelope,
    snapshot: StateSnapshot,
    devices: AudioDevicesResponse,
    backends: BackendsResponse,
    history: HistoryListResponse,
    checks: DiagnosticsResponse,
)
    ensures
        takes_snapshot(before, after, e, Ok(snapshot), Ok(())) ==> {
            &&& after.state == snapshot.state
            &&& after.active_session_id == snapshot.active_session_id
            &&& after.settings_revision == snapshot.settings_revision
            &&& after.capabilities == snapshot.capabilities
            &&& after.instance_id == e.instance_id
            &&& after.error is None
            &&& after.audio_level_bits == 0
            &&& after.settings == before.settings
            &&& after.settings_stale == before.settings_stale
            &&& before.instance_id == e.instance_id ==> after.last_sequence
                == before.last_sequence
        },
        takes_devices(before, after, e, Ok(devices), Ok(())) ==> {
            &&& after.audio_devices == devices.devices
            &&& after.settings.audio.input_device_id == devices.selected_id
            &&& after.settings.general == before.settings.general
            &&& after.settings.output == before.settings.output
            &&& after.settings_revision == before.settings_revision
            &&& after.error == before.error
        },
        takes_backends(before, after, e, Ok(backends), Ok(())) ==> {
            &&& after.transcription_backends == backends.transcription
            &&& after.post_processing_backends == backends.post_processing
            &&& after.settings == before.settings
            &&& after.error == before.error
        },
        takes_history(before, after, e, Ok(history), Ok(())) ==> {
            &&& after.history == history.entries
            &&& after.history_next_cursor == history.next_cursor
            &&& after.settings == before.settings
            &&& after.error == before.error
        },
        takes_diagnostics(before, after, e, Ok(checks), Ok(())) ==> {
            &&& after.diagnostics == checks.checks
            &&& after.diagnostics_log_path == checks.log_path
            &&& after.settings == before.settings
            &&& after.error == before.error
        },
{
}

} // verus!
