//! Starting, stopping and cancelling a recording.

use vstd::prelude::*;
use vstd::string::*;

use crate::arith::capped_u64;
use crate::asr::whisper::TranscriptionConfig;
use crate::audio::silence::{nothing_heard, AutoStopDetector, SILENCE_RMS_THRESHOLD};
use crate::audio::wav::SAMPLE_RATE;
use crate::contract::dto::{
    AcceptedResponse, DictationState, OperationCancelRequest, RecordingLevelEvent,
    RecordingStartResponse, RecordingStopRequest, RecordingStopResponse, SessionFailedEvent,
    TranscriptPartialEvent,
};
use crate::contract::envelope::{ProtocolError, StableErrorCode};
use crate::contract::ids::{fresh_uuid, is_random_uuid, Uuid};
use crate::contract::settings::Settings;
use crate::platform::FocusedTarget;
use crate::service::backend::{Recording, SpeakiputService};
use crate::service::events::{
    announce, change_of, is_terminal, numbered, plain_error, protocol_error, Event, EventBody,
};
use crate::state::{
    transition_error_text, transition_outcome, Action, Transition, TransitionError,
};
use crate::storage::{storage_error_text, RevisionedSettings, StorageError};
use crate::split::join;
use crate::text::{chars_of, copy_opt, is_blank, opt_view, trim, trimmed};

verus! {

broadcast use vstd::string::group_string_axioms;

/// What is to be captured and how.
#[derive(PartialEq, Eq, Debug)]
pub struct CaptureOrder {
    pub session_id: Uuid,
    pub device_id: String,
    pub language: String,
    pub transcription: TranscriptionConfig,
    pub auto_stop_ms: u64,
}

/// The order that settings and the language asked for amount to.
pub open spec fn is_order(
    order: CaptureOrder,
    session_id: Uuid,
    settings: Settings,
    language: Option<String>,
) -> bool {
    &&& order.session_id == session_id
    &&& order.device_id == settings.audio.input_device_id
    &&& order.language == match language {
        Some(asked) => asked,
        None => settings.general.language,
    }
    &&& order.transcription.language == order.language
    &&& order.transcription.model_id == settings.transcription.model_id
    &&& order.transcription.prompt == settings.transcription.prompt
    &&& order.auto_stop_ms == settings.general.auto_stop_ms
}

/// The order for a recording of a given session.
pub fn capture_order(session_id: Uuid, settings: &Settings, language: Option<String>) -> (result:
    CaptureOrder)
    ensures
        is_order(result, session_id, *settings, language),
{
    let language = match language {
        Some(asked) => asked,
        None => settings.general.language.clone(),
    };
    CaptureOrder {
        session_id,
        device_id: settings.audio.input_device_id.clone(),
        transcription: TranscriptionConfig {
            language: language.clone(),
            model_id: settings.transcription.model_id.clone(),
            prompt: copy_opt(&settings.transcription.prompt),
        },
        language,
        auto_stop_ms: settings.general.auto_stop_ms,
    }
}

/// The order for a recording of a new session.
pub fn new_capture_order(settings: &Settings, language: Option<String>) -> (result: CaptureOrder)
    ensures
        is_random_uuid(result.session_id),
        is_order(result, result.session_id, *settings, language),
{
    capture_order(fresh_uuid(), settings, language)
}

impl CaptureOrder {
    /// The detector that ends the recording after silence.
    pub fn auto_stop_detector(&self) -> (result: AutoStopDetector)
        ensures
            result@ == nothing_heard(SILENCE_RMS_THRESHOLD, self.auto_stop_ms, 0, SAMPLE_RATE),
    {
        AutoStopDetector::new(SILENCE_RMS_THRESHOLD, self.auto_stop_ms, SAMPLE_RATE)
    }
}

/// The bits of the number one.
pub const ONE_BITS: u32 = 0x3f80_0000;

/// The bits of a level, brought between nought and one: negative numbers become nought,
/// numbers above one become one, and what is not a number stays as it is.
pub open spec fn clamped_level(bits: u32) -> u32 {
    if bits > 0x8000_0000 && bits <= 0xff80_0000 {
        0
    } else if bits > ONE_BITS && bits <= 0x7f80_0000 {
        ONE_BITS
    } else {
        bits
    }
}

/// Brings a level between nought and one.
pub fn clamp_level(bits: u32) -> (result: u32)
    ensures
        result == clamped_level(bits),
{
    if bits > 0x8000_0000 && bits <= 0xff80_0000 {
        0
    } else if bits > ONE_BITS && bits <= 0x7f80_0000 {
        ONE_BITS
    } else {
        bits
    }
}

/// The text heard so far with one more piece behind a space; a blank piece adds nothing.
pub open spec fn accumulated(so_far: Seq<char>, piece: Seq<char>) -> Seq<char> {
    if is_blank(piece) {
        so_far
    } else if so_far.len() == 0 {
        trimmed(piece)
    } else {
        so_far.push(' ') + trimmed(piece)
    }
}

/// What came of a request to start.
#[derive(PartialEq, Eq, Debug)]
pub struct StartOutcome {
    pub reply: Result<RecordingStartResponse, ProtocolError>,
    pub events: Vec<Event>,
    /// The window to give the focus back to once the overlay is shown.
    pub restore_focus: Option<FocusedTarget>,
    /// The capture that was prepared is not used and is to be stopped.
    pub discard: bool,
}

/// What came of a request to stop.
#[derive(PartialEq, Eq, Debug)]
pub struct StopOutcome {
    pub reply: Result<Result<RecordingStopResponse, ProtocolError>, String>,
    pub events: Vec<Event>,
    /// The recording to transcribe, and the settings to do it with.
    pub pipeline: Option<(Recording, Settings)>,
    /// The capture is to be stopped and what was recorded is lost.
    pub abandon: bool,
}

/// What came of a request to cancel.
#[derive(PartialEq, Eq, Debug)]
pub struct CancelOutcome {
    pub reply: Result<AcceptedResponse, ProtocolError>,
    pub events: Vec<Event>,
    /// The session whose capture is to be stopped.
    pub stop_capture: Option<Uuid>,
}

/// What the record shortcut does.
#[derive(Clone, Copy, PartialEq, Eq, Structural, Debug)]
pub enum ShortcutCommand {
    Start,
    Stop { session_id: Uuid },
    Ignore,
}

/// The event tells that a session failed.
pub open spec fn tells_failure(
    body: EventBody,
    session_id: Uuid,
    code: Seq<char>,
    message: Seq<char>,
    retryable: bool,
) -> bool {
    body matches EventBody::SessionFailed(failed) && failed.session_id == session_id && failed.code@
        == code && failed.message@ == message && failed.retryable == retryable
}

/// The transition to the error state that failing a session makes, if it makes one.
pub open spec fn failing(state: DictationState, active: Option<Uuid>, session_id: Uuid) -> Option<
    Transition,
> {
    match transition_outcome(state, active, Action::Fail { session_id }) {
        Ok((_, t)) => Some(t),
        Err(_) => None,
    }
}

/// The transition out of the error state.
pub open spec fn recovering() -> Transition {
    Transition {
        previous: DictationState::Error,
        current: DictationState::Idle,
        session_id: None,
        terminal: false,
    }
}

/// What failing a session announces, from a place in the list of events on: the error, the
/// failure, and the recovery.
pub open spec fn announces_failure(
    events: Seq<Event>,
    from: int,
    state: DictationState,
    active: Option<Uuid>,
    session_id: Uuid,
    message: Seq<char>,
) -> bool {
    match failing(state, active, session_id) {
        Some(t) => {
            &&& events.len() == from + 3
            &&& events[from].body == change_of(t)
            &&& tells_failure(
                events[from + 1].body,
                session_id,
                "pipeline_failed"@,
                message,
                true,
            )
            &&& events[from + 2].body == change_of(recovering())
        },
        None => {
            &&& events.len() == from + if state is Error {
                2int
            } else {
                1int
            }
            &&& tells_failure(events[from].body, session_id, "pipeline_failed"@, message, true)
            &&& state is Error ==> events[from + 1].body == change_of(recovering())
        },
    }
}

/// Where failing a session leaves the machine: idle, unless it did not concern the machine.
pub open spec fn after_failure(
    state: DictationState,
    active: Option<Uuid>,
    session_id: Uuid,
) -> (DictationState, Option<Uuid>) {
    if failing(state, active, session_id) is Some || state is Error {
        (DictationState::Idle, None)
    } else {
        (state, active)
    }
}

/// Everything but the machine, the event number and the recording is as before.
pub open spec fn same_setup(before: SpeakiputService, after: SpeakiputService) -> bool {
    &&& after.instance_id == before.instance_id
    &&& after.has_runtime == before.has_runtime
    &&& after.has_credentials == before.has_credentials
    &&& after.capabilities == before.capabilities
    &&& after.audio_devices == before.audio_devices
}

/// What comes of a request to start, once its capture is prepared or is not.
pub open spec fn start_answer(
    before: SpeakiputService,
    after: SpeakiputService,
    session_id: Uuid,
    language: String,
    prepared: Result<Option<FocusedTarget>, String>,
    result: StartOutcome,
) -> bool {
    &&& numbered(before.sequence, result.events@, after.sequence)
    &&& same_setup(before, after)
    &&& match prepared {
        Err(reason) => {
            &&& result.reply is Err
            &&& plain_error(
                result.reply->Err_0,
                StableErrorCode::Unavailable,
                reason@,
                true,
            )
            &&& result.events@.len() == 0
            &&& result.restore_focus is None
            &&& !result.discard
            &&& after == before
        },
        Ok(target) => match transition_outcome(
            before.machine.spec_state(),
            before.machine.session(),
            Action::Start { session_id },
        ) {
            Ok((active, t)) => {
                &&& result.reply == Ok::<RecordingStartResponse, ProtocolError>(
                    RecordingStartResponse { session_id, state: DictationState::Recording },
                )
                &&& result.events@.len() == 1
                &&& result.events@[0].body == change_of(t)
                &&& result.restore_focus == target
                &&& !result.discard
                &&& after.machine.spec_state() is Recording
                &&& after.machine.session() == Some(session_id)
                &&& after.recording == Some(
                    Recording { session_id, language, focused_target: target },
                )
            },
            Err(error) => {
                &&& result.reply is Err
                &&& plain_error(
                    result.reply->Err_0,
                    StableErrorCode::InvalidState,
                    transition_error_text(error),
                    false,
                )
                &&& result.events@.len() == 0
                &&& result.restore_focus is None
                &&& result.discard
                &&& after == before
            },
        },
    }
}

/// What comes of a request to stop.
pub open spec fn stop_answer(
    before: SpeakiputService,
    after: SpeakiputService,
    stop: RecordingStopRequest,
    stored: Result<RevisionedSettings, StorageError>,
    result: StopOutcome,
) -> bool {
    &&& numbered(before.sequence, result.events@, after.sequence)
    &&& same_setup(before, after)
    &&& match transition_outcome(
        before.machine.spec_state(),
        before.machine.session(),
        Action::Stop { session_id: stop.session_id },
    ) {
        Err(error) => {
            &&& result.reply matches Ok(Err(reported)) && plain_error(
                reported,
                StableErrorCode::InvalidState,
                transition_error_text(error),
                false,
            )
            &&& result.events@.len() == 0
            &&& result.pipeline is None
            &&& !result.abandon
            &&& after == before
        },
        Ok((active, t)) => {
            &&& result.events@.len() >= 1
            &&& result.events@[0].body == change_of(t)
            &&& after.recording is None
            &&& match stored {
                Err(error) => if before.has_runtime {
                    &&& result.reply matches Err(message) && message@ == storage_error_text(
                        error,
                    )
                    &&& announces_failure(
                        result.events@,
                        1,
                        DictationState::Transcribing,
                        Some(stop.session_id),
                        stop.session_id,
                        storage_error_text(error),
                    )
                    &&& result.pipeline is None
                    &&& result.abandon
                    &&& after.machine.spec_state() is Idle
                } else {
                    &&& result.reply matches Ok(Ok(response)) && response == (
                    RecordingStopResponse { session_id: stop.session_id, accepted: true })
                    &&& result.events@.len() == 1
                    &&& result.pipeline is None
                    &&& !result.abandon
                    &&& after.machine.spec_state() is Transcribing
                    &&& after.machine.session() == Some(stop.session_id)
                },
                Ok(settings) => {
                    &&& result.reply matches Ok(Ok(response)) && response == (
                    RecordingStopResponse { session_id: stop.session_id, accepted: true })
                    &&& result.events@.len() == 1
                    &&& result.pipeline == if before.has_runtime {
                        Some((before.recording->0, settings.settings))
                    } else {
                        None
                    }
                    &&& !result.abandon
                    &&& after.machine.spec_state() is Transcribing
                    &&& after.machine.session() == Some(stop.session_id)
                },
            }
        },
    }
}

/// What comes of a request to cancel.
pub open spec fn cancel_answer(
    before: SpeakiputService,
    after: SpeakiputService,
    cancel: OperationCancelRequest,
    result: CancelOutcome,
) -> bool {
    &&& numbered(before.sequence, result.events@, after.sequence)
    &&& same_setup(before, after)
    &&& ({
        let named = match cancel.session_id {
            Some(session_id) => Some(session_id),
            None => before.machine.session(),
        };
        match named {
            None => {
                &&& result.reply is Err
                &&& plain_error(
                    result.reply->Err_0,
                    StableErrorCode::InvalidState,
                    "there is no active operation"@,
                    false,
                )
                &&& result.events@.len() == 0
                &&& result.stop_capture is None
                &&& after == before
            },
            Some(session_id) => match transition_outcome(
                before.machine.spec_state(),
                before.machine.session(),
                Action::Cancel { session_id },
            ) {
                Err(error) => {
                    &&& result.reply is Err
                    &&& plain_error(
                        result.reply->Err_0,
                        StableErrorCode::InvalidState,
                        transition_error_text(error),
                        false,
                    )
                    &&& result.events@.len() == 0
                    &&& result.stop_capture is None
                    &&& after == before
                },
                Ok((active, t)) => {
                    &&& result.reply == Ok::<AcceptedResponse, ProtocolError>(
                        AcceptedResponse { accepted: true },
                    )
                    &&& result.events@.len() == 2
                    &&& result.events@[0].body == change_of(t)
                    &&& tells_failure(
                        result.events@[1].body,
                        session_id,
                        "cancelled"@,
                        "Recording was cancelled"@,
                        false,
                    )
                    &&& result.stop_capture == Some(session_id)
                    &&& after.recording is None
                    &&& after.machine.spec_state() is Idle
                    &&& after.machine.session() is None
                },
            },
        }
    })
}

impl SpeakiputService {
    /// What the record shortcut does: it starts when idle, stops when recording, and does
    /// nothing in between.
    pub fn activate_record_shortcut(&self) -> (result: Result<ShortcutCommand, String>)
        ensures
            match self.machine.spec_state() {
                DictationState::Idle => result == Ok::<ShortcutCommand, String>(
                    ShortcutCommand::Start,
                ),
                DictationState::Recording => match self.machine.session() {
                    Some(session_id) => result == Ok::<ShortcutCommand, String>(
                        ShortcutCommand::Stop { session_id },
                    ),
                    None => result matches Err(message) && message@
                        == "recording has no active session"@,
                },
                _ => result == Ok::<ShortcutCommand, String>(ShortcutCommand::Ignore),
            },
            result == Ok::<ShortcutCommand, String>(ShortcutCommand::Start)
                <==> self.machine.spec_state() is Idle,
            result matches Ok(ShortcutCommand::Stop { session_id })
                ==> self.machine.spec_state() is Recording && self.machine.session() == Some(
                session_id,
            ),
    {
        match self.machine.state() {
            DictationState::Idle => Ok(ShortcutCommand::Start),
            DictationState::Recording => match self.machine.active_session_id() {
                Some(session_id) => Ok(ShortcutCommand::Stop { session_id }),
                None => Err(String::from_str("recording has no active session")),
            },
            _ => Ok(ShortcutCommand::Ignore),
        }
    }

    /// Makes a transition and announces it; a refused one changes nothing.
    pub fn transition(&mut self, action: Action) -> (result: Result<Event, TransitionError>)
        ensures
            match transition_outcome(old(self).machine.spec_state(), old(self).machine.session(), action) {
                Ok((active, t)) => {
                    &&& result matches Ok(event) && event.body == change_of(t) && event.sequence
                        == final(self).sequence
                    &&& final(self).sequence == capped_u64(old(self).sequence + 1)
                    &&& final(self).machine.spec_state() == t.current
                    &&& final(self).machine.session() == active
                    &&& final(self).recording == old(self).recording
                    &&& same_setup(*old(self), *final(self))
                },
                Err(error) => {
                    &&& result == Err::<Event, TransitionError>(error)
                    &&& *final(self) == *old(self)
                },
            },
            old(self).machine.wf() ==> final(self).machine.wf(),
    {
        match self.machine.transition(action) {
            Ok(t) => Ok(self.emit(announce(t))),
            Err(error) => Err(error),
        }
    }

    /// Starts a recording once its capture is prepared. A start that comes second is
    /// refused and its capture discarded.
    pub fn recording_start(
        &mut self,
        session_id: Uuid,
        language: String,
        prepared: Result<Option<FocusedTarget>, String>,
    ) -> (result: StartOutcome)
        ensures
            start_answer(*old(self), *final(self), session_id, language, prepared, result),
            old(self).wf() ==> final(self).wf(),
    {
        let mut events: Vec<Event> = Vec::new();
        match prepared {
            Err(reason) => StartOutcome {
                reply: Err(protocol_error(StableErrorCode::Unavailable, reason, true)),
                events,
                restore_focus: None,
                discard: false,
            },
            Ok(target) => {
                match self.transition(Action::Start { session_id }) {
                    Ok(event) => {
                        events.push(event);
                        let restore_focus = match &target {
                            Some(target) => Some(target.clone()),
                            None => None,
                        };
                        self.recording = Some(
                            Recording { session_id, language, focused_target: target },
                        );
                        StartOutcome {
                            reply: Ok(
                                RecordingStartResponse {
                                    session_id,
                                    state: DictationState::Recording,
                                },
                            ),
                            events,
                            restore_focus,
                            discard: false,
                        }
                    },
                    Err(error) => StartOutcome {
                        reply: Err(
                            protocol_error(StableErrorCode::InvalidState, error.message(), false),
                        ),
                        events,
                        restore_focus: None,
                        discard: true,
                    },
                }
            },
        }
    }

    /// Fails a session: announces the error and the failure, and recovers to idle. A
    /// session that is no longer the machine's is only reported.
    pub fn fail_session(&mut self, session_id: Uuid, message: &str) -> (events: Vec<Event>)
        ensures
            numbered(old(self).sequence, events@, final(self).sequence),
            same_setup(*old(self), *final(self)),
            final(self).recording == old(self).recording,
            announces_failure(
                events@,
                0,
                old(self).machine.spec_state(),
                old(self).machine.session(),
                session_id,
                message@,
            ),
            (final(self).machine.spec_state(), final(self).machine.session()) == after_failure(
                old(self).machine.spec_state(),
                old(self).machine.session(),
                session_id,
            ),
            old(self).wf() && old(self).records_other_than(session_id) ==> final(self).wf(),
    {
        let mut events: Vec<Event> = Vec::new();
        match self.transition(Action::Fail { session_id }) {
            Ok(event) => {
                events.push(event);
            },
            Err(_) => {},
        }
        events.push(
            self.emit(
                EventBody::SessionFailed(
                    SessionFailedEvent {
                        session_id,
                        code: String::from_str("pipeline_failed"),
                        message: String::from_str(message),
                        retryable: true,
                    },
                ),
            ),
        );
        match self.transition(Action::Recover) {
            Ok(event) => {
                events.push(event);
            },
            Err(_) => {},
        }
        events
    }

    /// Stops a recording and hands it over for transcription. Where the settings for that
    /// cannot be read, the session fails.
    pub fn recording_stop(
        &mut self,
        stop: RecordingStopRequest,
        stored: Result<RevisionedSettings, StorageError>,
    ) -> (result: StopOutcome)
        requires
            old(self).wf(),
        ensures
            final(self).wf(),
            stop_answer(*old(self), *final(self), stop, stored, result),
    {
        let mut events: Vec<Event> = Vec::new();
        let session_id = stop.session_id;
        match self.transition(Action::Stop { session_id }) {
            Err(error) => StopOutcome {
                reply: Ok(
                    Err(protocol_error(StableErrorCode::InvalidState, error.message(), false)),
                ),
                events,
                pipeline: None,
                abandon: false,
            },
            Ok(event) => {
                events.push(event);
                let taken = self.recording.take();
                let accepted = RecordingStopResponse { session_id, accepted: true };
                match taken {
                    Some(active) => {
                        if self.has_runtime {
                            match stored {
                                Ok(settings) => StopOutcome {
                                    reply: Ok(Ok(accepted)),
                                    events,
                                    pipeline: Some((active, settings.settings)),
                                    abandon: false,
                                },
                                Err(error) => {
                                    let message = error.message();
                                    let mut failure = self.fail_session(
                                        session_id,
                                        message.as_str(),
                                    );
                                    events.append(&mut failure);
                                    StopOutcome {
                                        reply: Err(message),
                                        events,
                                        pipeline: None,
                                        abandon: true,
                                    }
                                },
                            }
                        } else {
                            StopOutcome {
                                reply: Ok(Ok(accepted)),
                                events,
                                pipeline: None,
                                abandon: false,
                            }
                        }
                    },
                    None => StopOutcome {
                        reply: Ok(Ok(accepted)),
                        events,
                        pipeline: None,
                        abandon: false,
                    },
                }
            },
        }
    }

    /// Stops a recording on its own after silence, if it is still the one under way, and
    /// hands it over for transcription.
    pub fn auto_stop(&mut self, session_id: Uuid) -> (result: Option<(Recording, Vec<Event>)>)
        requires
            old(self).wf(),
        ensures
            final(self).wf(),
            same_setup(*old(self), *final(self)),
            match result {
                Some((recording, events)) => {
                    &&& old(self).machine.spec_state() is Recording
                    &&& old(self).machine.session() == Some(session_id)
                    &&& old(self).recording == Some(recording)
                    &&& numbered(old(self).sequence, events@, final(self).sequence)
                    &&& events@.len() == 1
                    &&& events@[0].body == change_of(
                        Transition {
                            previous: DictationState::Recording,
                            current: DictationState::Transcribing,
                            session_id: Some(session_id),
                            terminal: false,
                        },
                    )
                    &&& final(self).machine.spec_state() is Transcribing
                    &&& final(self).machine.session() == Some(session_id)
                    &&& final(self).recording is None
                },
                None => {
                    &&& !(old(self).machine.spec_state() is Recording && old(
                        self,
                    ).machine.session() == Some(session_id))
                    &&& *final(self) == *old(self)
                },
            },
    {
        if self.machine.state() != DictationState::Recording {
            return None;
        }
        match self.machine.active_session_id() {
            Some(active) => {
                if active != session_id {
                    return None;
                }
            },
            None => {
                return None;
            },
        }
        match self.transition(Action::Stop { session_id }) {
            Ok(event) => {
                let taken = self.recording.take();
                let mut events: Vec<Event> = Vec::new();
                events.push(event);
                match taken {
                    Some(recording) => Some((recording, events)),
                    None => None,
                }
            },
            Err(_) => None,
        }
    }

    /// Cancels a recording: the one named, or else the one under way.
    pub fn operation_cancel(&mut self, cancel: OperationCancelRequest) -> (result: CancelOutcome)
        requires
            old(self).wf(),
        ensures
            final(self).wf(),
            cancel_answer(*old(self), *final(self), cancel, result),
    {
        let mut events: Vec<Event> = Vec::new();
        let named = match cancel.session_id {
            Some(session_id) => Some(session_id),
            None => self.machine.active_session_id(),
        };
        let session_id = match named {
            Some(session_id) => session_id,
            None => {
                return CancelOutcome {
                    reply: Err(
                        protocol_error(
                            StableErrorCode::InvalidState,
                            String::from_str("there is no active operation"),
                            false,
                        ),
                    ),
                    events,
                    stop_capture: None,
                };
            },
        };
        match self.transition(Action::Cancel { session_id }) {
            Ok(event) => {
                self.recording = None;
                events.push(event);
                events.push(
                    self.emit(
                        EventBody::SessionFailed(
                            SessionFailedEvent {
                                session_id,
                                code: String::from_str("cancelled"),
                                message: String::from_str("Recording was cancelled"),
                                retryable: false,
                            },
                        ),
                    ),
                );
                CancelOutcome {
                    reply: Ok(AcceptedResponse { accepted: true }),
                    events,
                    stop_capture: Some(session_id),
                }
            },
            Err(error) => CancelOutcome {
                reply: Err(protocol_error(StableErrorCode::InvalidState, error.message(), false)),
                events,
                stop_capture: None,
            },
        }
    }

    /// Adds a piece of text to what was heard of a session and announces the whole; a blank
    /// piece is not announced.
    pub fn partial_text(&mut self, session_id: Uuid, so_far: String, piece: &str) -> (result: (
        String,
        Option<Event>,
    ))
        ensures
            result.0@ == accumulated(so_far@, piece@),
            match result.1 {
                Some(event) => {
                    &&& !is_blank(piece@)
                    &&& event.sequence == capped_u64(old(self).sequence + 1)
                    &&& event.body matches EventBody::TranscriptPartial(partial)
                        && partial.session_id == session_id && partial.text@ == result.0@
                    &&& *final(self) == (SpeakiputService {
                        sequence: event.sequence,
                        ..*old(self)
                    })
                },
                None => is_blank(piece@) && *final(self) == *old(self),
            },
    {
        let piece = trim(piece);
        let size: usize = chars_of(piece.as_str()).len();
        if size == 0 {
            return (so_far, None);
        }
        let held: usize = chars_of(so_far.as_str()).len();
        let mut text = so_far;
        if held > 0 {
            text.push(' ');
        }
        text.append(piece.as_str());
        assert(held == 0 ==> text@ =~= piece@);
        let announced = text.clone();
        let event = self.emit(
            EventBody::TranscriptPartial(TranscriptPartialEvent { session_id, text: announced }),
        );
        (text, Some(event))
    }

    /// Announces the microphone's level.
    pub fn level(&mut self, session_id: Uuid, level_bits: u32) -> (event: Event)
        ensures
            event.body == EventBody::RecordingLevel(
                RecordingLevelEvent { session_id, level_bits: clamped_level(level_bits) },
            ),
            event.sequence == capped_u64(old(self).sequence + 1),
            *final(self) == (SpeakiputService { sequence: event.sequence, ..*old(self) }),
    {
        self.emit(
            EventBody::RecordingLevel(
                RecordingLevelEvent { session_id, level_bits: clamp_level(level_bits) },
            ),
        )
    }
}

// ---------------------------------------------------------------------------
// What holds of every session
// ---------------------------------------------------------------------------

/// How many of the events tell of a session's end.
pub open spec fn terminal_count(events: Seq<Event>) -> int
    decreases events.len(),
{
    if events.len() == 0 {
        0
    } else {
        terminal_count(events.drop_last()) + if is_terminal(events.last().body) {
            1int
        } else {
            0
        }
    }
}

/// A failed session is told of exactly once, and the machine is idle again afterwards if
/// the session was its own.
pub proof fn a_failure_is_told_once(
    events: Seq<Event>,
    state: DictationState,
    active: Option<Uuid>,
    session_id: Uuid,
    message: Seq<char>,
)
    requires
        announces_failure(events, 0, state, active, session_id, message),
    ensures
        terminal_count(events) == 1,
        active == Some(session_id) && crate::state::in_session(state) ==> after_failure(
            state,
            active,
            session_id,
        ) == (DictationState::Idle, None::<Uuid>),
{
    reveal_with_fuel(terminal_count, 4);
    if events.len() == 3 {
        assert(events.drop_last().drop_last().drop_last().len() == 0);
        assert(events.drop_last().last() == events[1]);
        assert(events.drop_last().drop_last().last() == events[0]);
    } else if events.len() == 2 {
        assert(events.drop_last().drop_last().len() == 0);
        assert(events.drop_last().last() == events[0]);
    } else {
        assert(events.drop_last().len() == 0);
    }
}

/// A level stays between nought and one, and clamping twice is clamping once.
pub proof fn clamped_levels_stay(bits: u32)
    requires
        bits <= 0x7f80_0000 || 0x8000_0000 <= bits <= 0xff80_0000,
    ensures
        clamped_level(bits) <= ONE_BITS || clamped_level(bits) == 0x8000_0000,
        clamped_level(clamped_level(bits)) == clamped_level(bits),
{
}

/// A recording is made as the settings say, in the language asked for or else in theirs, and
/// stops after the silence that they name.
pub proof fn recordings_are_made_as_the_settings_say(
    order: CaptureOrder,
    session_id: Uuid,
    settings: Settings,
    language: Option<String>,
)
    requires
        is_order(order, session_id, settings, language),
    ensures
        order.session_id == session_id,
        order.device_id@ == settings.audio.input_device_id@,
        language matches Some(asked) ==> order.language@ == asked@,
        language is None ==> order.language@ == settings.general.language@,
        order.transcription.language@ == order.language@,
        order.transcription.model_id@ == settings.transcription.model_id@,
        opt_view(order.transcription.prompt) == opt_view(settings.transcription.prompt),
        order.auto_stop_ms == settings.general.auto_stop_ms,
{
}

/// The text heard of a session once all these pieces have come.
pub open spec fn heard_so_far(pieces: Seq<Seq<char>>) -> Seq<char>
    decreases pieces.len(),
{
    if pieces.len() == 0 {
        Seq::empty()
    } else {
        accumulated(heard_so_far(pieces.drop_last()), pieces.last())
    }
}

/// The text heard of a session is its pieces that say something, without the white space
/// around them, in their order and with one space between them.
pub proof fn pieces_make_up_the_text(pieces: Seq<Seq<char>>)
    ensures
        heard_so_far(pieces) == join(
            pieces.filter(|piece: Seq<char>| !is_blank(piece)).map_values(
                |piece: Seq<char>| trimmed(piece),
            ),
            " "@,
        ),
        heard_so_far(pieces).len() == 0 <==> pieces.filter(
            |piece: Seq<char>| !is_blank(piece),
        ).len() == 0,
    decreases pieces.len(),
{
    reveal(Seq::filter);
    reveal_strlit(" ");
    let says = |piece: Seq<char>| !is_blank(piece);
    let bare = |piece: Seq<char>| trimmed(piece);
    if pieces.len() == 0 {
        assert(pieces.filter(says).map_values(bare).len() == 0);
    } else {
        let rest = pieces.drop_last();
        let last = pieces.last();
        pieces_make_up_the_text(rest);
        let before = rest.filter(says).map_values(bare);
        if is_blank(last) {
            assert(pieces.filter(says) == rest.filter(says));
        } else {
            assert(pieces.filter(says) == rest.filter(says).push(last));
            let all = pieces.filter(says).map_values(bare);
            assert(all =~= before.push(trimmed(last)));
            assert(all.drop_last() =~= before);
            if before.len() == 0 {
                assert(all[0] == trimmed(last));
            } else {
                assert(join(all, " "@) =~= join(before, " "@).push(' ') + trimmed(last));
            }
        }
    }
}

/// Levels from nought to one are kept, what is above one is one, and what is below nought is
/// nought.
pub proof fn levels_are_brought_between_nought_and_one(bits: u32)
    ensures
        bits <= 0x3f80_0000 ==> clamped_level(bits) == bits,
        0x3f80_0000 < bits <= 0x7f80_0000 ==> clamped_level(bits) == 0x3f80_0000,
        0x8000_0000 < bits <= 0xff80_0000 ==> clamped_level(bits) == 0,
{
}

/// A recording that is started and then stopped is handed over as it was started: its
/// session, its language and the window that had the focus, with the settings in force at the
/// stop; and the backend says so at both steps.
pub proof fn a_started_recording_is_handed_over_when_stopped(
    before: SpeakiputService,
    middle: SpeakiputService,
    after: SpeakiputService,
    session_id: Uuid,
    language: String,
    target: Option<FocusedTarget>,
    started: StartOutcome,
    settings: RevisionedSettings,
    stopped: StopOutcome,
)
    requires
        before.machine.spec_state() is Idle,
        before.has_runtime,
        start_answer(before, middle, session_id, language, Ok(target), started),
        stop_answer(middle, after, RecordingStopRequest { session_id }, Ok(settings), stopped),
    ensures
        started.reply matches Ok(reply) && reply.session_id == session_id && reply.state
            is Recording,
        started.restore_focus == target && !started.discard,
        started.events@.len() == 1,
        started.events@[0].body matches EventBody::StateChanged(change) && change.previous is Idle
            && change.current is Recording && change.session_id == Some(session_id),
        stopped.reply matches Ok(Ok(reply)) && reply.session_id == session_id && reply.accepted,
        stopped.pipeline matches Some((recording, used)) && recording.session_id == session_id
            && recording.language == language && recording.focused_target == target && used
            == settings.settings,
        stopped.events@.len() == 1,
        stopped.events@[0].body matches EventBody::StateChanged(change) && change.previous
            is Recording && change.current is Transcribing && change.session_id == Some(
            session_id,
        ),
        after.machine.spec_state() is Transcribing && after.machine.session() == Some(session_id),
        after.recording is None,
{
}

/// A recording that is started and then cancelled, by its name or without one, is gone: its
/// capture is stopped, nothing is handed over, and its end is told as a cancellation.
pub proof fn a_started_recording_is_gone_when_cancelled(
    before: SpeakiputService,
    middle: SpeakiputService,
    after: SpeakiputService,
    session_id: Uuid,
    language: String,
    target: Option<FocusedTarget>,
    started: StartOutcome,
    cancel: OperationCancelRequest,
    cancelled: CancelOutcome,
)
    requires
        before.machine.spec_state() is Idle,
        start_answer(before, middle, session_id, language, Ok(target), started),
        cancel.session_id is None || cancel.session_id == Some(session_id),
        cancel_answer(middle, after, cancel, cancelled),
    ensures
        cancelled.reply matches Ok(reply) && reply.accepted,
        cancelled.stop_capture == Some(session_id),
        cancelled.events@.len() == 2,
        cancelled.events@[0].body matches EventBody::StateChanged(change) && change.previous
            is Recording && change.current is Idle && change.session_id == Some(session_id),
        cancelled.events@[1].body matches EventBody::SessionFailed(told) && told.session_id
            == session_id && told.code@ == "cancelled"@ && !told.retryable,
        after.machine.spec_state() is Idle && after.machine.session() is None,
        after.recording is None,
{
}

/// A request for a session that is not under way, or for none where none is, changes nothing
/// and is refused as one that does not fit the state.
pub proof fn requests_for_other_sessions_change_nothing(
    before: SpeakiputService,
    after: SpeakiputService,
    other: Uuid,
    stored: Result<RevisionedSettings, StorageError>,
    stopped: StopOutcome,
    cancelled: CancelOutcome,
    cancelled_after: SpeakiputService,
)
    requires
        before.machine.session() != Some(other),
        stop_answer(before, after, RecordingStopRequest { session_id: other }, stored, stopped),
        cancel_answer(
            before,
            cancelled_after,
            OperationCancelRequest { session_id: Some(other) },
            cancelled,
        ),
    ensures
        after == before && cancelled_after == before,
        stopped.reply matches Ok(Err(error)) && error.code is InvalidState && !error.retryable,
        cancelled.reply matches Err(error) && error.code is InvalidState && !error.retryable,
        stopped.events@.len() == 0 && cancelled.events@.len() == 0,
        stopped.pipeline is None && !stopped.abandon && cancelled.stop_capture is None,
{
}

/// A capture that cannot be prepared refuses the start, for a reason that may pass, and leaves
/// everything as it was; one that is prepared while another session runs is thrown away.
pub proof fn only_an_idle_backend_starts_a_recording(
    before: SpeakiputService,
    after: SpeakiputService,
    session_id: Uuid,
    language: String,
    prepared: Result<Option<FocusedTarget>, String>,
    started: StartOutcome,
)
    requires
        start_answer(before, after, session_id, language, prepared, started),
    ensures
        started.reply is Ok <==> prepared is Ok && before.machine.spec_state() is Idle,
        prepared matches Err(reason) ==> (started.reply matches Err(error) && error.code
            is Unavailable && error.retryable && error.message@ == reason@) && !started.discard,
        prepared is Ok && !(before.machine.spec_state() is Idle) ==> (started.reply
            matches Err(error) && error.code is InvalidState) && started.discard,
        started.reply is Err ==> after == before && started.events@.len() == 0
            && started.restore_focus is None,
{
}

/// A session that fails while it is under way is told to have failed, with the reason and as
/// one that may be tried again, between the step to the error state and the one back to idle.
pub proof fn a_failure_is_told_between_error_and_idle(
    events: Seq<Event>,
    state: DictationState,
    session_id: Uuid,
    message: Seq<char>,
)
    requires
        state is Recording || state is Transcribing || state is PostProcessing || state is Injecting,
        announces_failure(events, 0, state, Some(session_id), session_id, message),
    ensures
        events.len() == 3,
        events[0].body matches EventBody::StateChanged(change) && change.previous == state
            && change.current is Error && change.session_id == Some(session_id),
        events[1].body matches EventBody::SessionFailed(told) && told.session_id == session_id
            && told.code@ == "pipeline_failed"@ && told.message@ == message && told.retryable,
        events[2].body matches EventBody::StateChanged(change) && change.previous is Error
            && change.current is Idle,
        after_failure(state, Some(session_id), session_id) == (DictationState::Idle, None::<Uuid>),
{
}

} // verus!
