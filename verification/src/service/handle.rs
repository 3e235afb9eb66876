//! A request from its arrival to its answer.
//!
//! What has to be done outside — reading files, asking devices, starting capture — is
//! handed out as work, and its outcome is handed back in.

use vstd::prelude::*;
use vstd::string::*;

use crate::contract::dto::{
    AudioDevice, ClientHelloRequest, CredentialIdRequest, CredentialPutRequest, DictationState,
    HistoryEntry, HistoryListRequest, OperationCancelRequest, RecordingStartRequest,
    RecordingStopRequest, SettingsReplaceRequest,
};
use crate::contract::envelope::{Envelope, MessageKind, ProtocolError};
use crate::contract::ids::{is_random_uuid, Uuid};
use crate::contract::settings::Settings;
use crate::platform::FocusedTarget;
use crate::service::backend::{
    all_checks, backends_answer, cleared_answer, credential_answer, credential_status,
    devices_answer, hello_answer, history_answer, history_limit, no_credential_store,
    replaced_answer, settings_answer, state_answer, Recording, RuntimeProbe, SpeakiputService,
};
use crate::service::events::{numbered, Event, ResponseBody};
use crate::service::recording::{
    cancel_answer, is_order, new_capture_order, start_answer, stop_answer, CancelOutcome,
    CaptureOrder, ShortcutCommand, StartOutcome, StopOutcome,
};
use crate::state::{transition_outcome, Action};
use crate::storage::{storage_error_text, RevisionedSettings, StorageError};

verus! {

broadcast use vstd::string::group_string_axioms;

/// A request whose payload was read.
#[derive(PartialEq, Eq, Debug)]
pub enum Request {
    ClientHello(ClientHelloRequest),
    StateGet,
    SettingsGet,
    SettingsReplace(SettingsReplaceRequest),
    CredentialsPut(CredentialPutRequest),
    CredentialsStatus(CredentialIdRequest),
    CredentialsDelete(CredentialIdRequest),
    AudioDevicesList,
    BackendsList,
    HistoryList(HistoryListRequest),
    HistoryClear,
    DiagnosticsGet,
    RecordingStart(RecordingStartRequest),
    RecordingStop(RecordingStopRequest),
    OperationCancel(OperationCancelRequest),
}

/// Work to be done outside.
#[derive(PartialEq, Eq, Debug)]
pub enum Work {
    LoadSettings,
    ReplaceSettings { expected_revision: u64, settings: Settings },
    StoreCredential { credential_id: String, secret: String },
    FindCredential { credential_id: String },
    RemoveCredential { credential_id: String },
    ListDevices,
    ProbeModel,
    ProbeRuntime,
    ListHistory { limit: usize, cursor: Option<String> },
    ClearHistory,
    StartCapture(CaptureOrder),
}

/// What the credential store is asked for.
#[derive(Clone, Copy, PartialEq, Eq, Structural, Debug)]
pub enum CredentialWork {
    Store,
    Find,
    Remove,
}

/// What the credential store did.
#[derive(Clone, Copy, PartialEq, Eq, Structural, Debug)]
pub enum CredentialDone {
    Stored,
    Found { present: bool },
    Removed,
}

/// Whether a credential is stored once something was done about it.
pub open spec fn stored_after(done: CredentialDone) -> bool {
    match done {
        CredentialDone::Stored => true,
        CredentialDone::Found { present } => present,
        CredentialDone::Removed => false,
    }
}

/// Whether a credential is stored now, or why that is not known.
pub open spec fn presence_of(
    outcome: Result<Result<CredentialDone, StorageError>, String>,
) -> Result<Result<bool, StorageError>, String> {
    match outcome {
        Ok(Ok(done)) => Ok(Ok(stored_after(done))),
        Ok(Err(error)) => Ok(Err(error)),
        Err(reason) => Err(reason),
    }
}

fn presence(outcome: Result<Result<CredentialDone, StorageError>, String>) -> (result: Result<
    Result<bool, StorageError>,
    String,
>)
    ensures
        result == presence_of(outcome),
{
    match outcome {
        Ok(Ok(CredentialDone::Stored)) => Ok(Ok(true)),
        Ok(Ok(CredentialDone::Found { present })) => Ok(Ok(present)),
        Ok(Ok(CredentialDone::Removed)) => Ok(Ok(false)),
        Ok(Err(error)) => Ok(Err(error)),
        Err(reason) => Err(reason),
    }
}

/// What was done is what was asked for.
pub open spec fn done_as_asked(asked: CredentialWork, done: CredentialDone) -> bool {
    match asked {
        CredentialWork::Store => done is Stored,
        CredentialWork::Find => done is Found,
        CredentialWork::Remove => done is Removed,
    }
}

/// What is remembered of a request while work is done for it.
#[derive(PartialEq, Eq, Debug)]
pub enum Pending {
    State,
    Settings,
    Replacement,
    Credential { credential_id: String, asked: CredentialWork },
    DeviceSettings,
    Devices { stored: RevisionedSettings },
    Backends,
    History,
    HistoryClear,
    Diagnostics,
    StartSettings { language: Option<String> },
    Capture { session_id: Uuid, language: String },
    Stop { request: RecordingStopRequest },
}

/// What came of the work.
#[derive(PartialEq, Eq, Debug)]
pub enum Outcome {
    Settings(Result<RevisionedSettings, StorageError>),
    /// What was done about a credential, or why nothing was.
    Credential(Result<Result<CredentialDone, StorageError>, String>),
    /// The devices, where they could be listed.
    Devices(Option<Vec<AudioDevice>>),
    ModelLoaded(bool),
    Runtime(RuntimeProbe),
    History(Result<(Vec<HistoryEntry>, Option<String>), StorageError>),
    Cleared(Result<(), StorageError>),
    /// The window that had the focus, where capture was prepared.
    Captured(Result<Option<FocusedTarget>, String>),
}

/// What is left to do once a request is answered.
#[derive(PartialEq, Eq, Debug)]
pub enum FollowUp {
    Nothing,
    /// Capture runs: watch for silence, and give the focus back once the overlay is shown.
    WatchRecording { session_id: Uuid, restore_focus: Option<FocusedTarget> },
    /// Stop a session's capture, which was prepared or runs, and drop what it recorded.
    StopCapture { session_id: Uuid },
    /// Stop the capture and transcribe what it recorded.
    Transcribe { recording: Recording, settings: Settings },
}

/// A request that is answered: with a payload or an error, or, where the backend itself
/// failed, with a reason.
#[derive(PartialEq, Eq, Debug)]
pub struct Answered {
    pub reply: Result<Result<ResponseBody, ProtocolError>, String>,
    pub events: Vec<Event>,
    pub follow_up: FollowUp,
}

/// How a request goes on.
#[derive(PartialEq, Eq, Debug)]
pub enum Step {
    Done(Answered),
    Perform { work: Work, pending: Pending },
}

/// Nothing is announced and nothing follows.
pub open spec fn quiet(answered: Answered) -> bool {
    answered.events@.len() == 0 && answered.follow_up is Nothing
}

/// The request is answered quietly with a payload.
pub open spec fn replies(step: Step, body: ResponseBody) -> bool {
    step matches Step::Done(answered) && quiet(answered) && answered.reply == Ok::<
        Result<ResponseBody, ProtocolError>,
        String,
    >(Ok(body))
}

/// The request is refused quietly with an error of the storage.
pub open spec fn breaks(step: Step, error: StorageError) -> bool {
    step matches Step::Done(answered) && quiet(answered) && answered.reply is Err
        && answered.reply->Err_0@ == storage_error_text(error)
}

/// The request goes on with work.
pub open spec fn performs(step: Step, work: Work, pending: Pending) -> bool {
    step == (Step::Perform { work, pending })
}

/// How a request starts.
pub open spec fn begins(
    service: SpeakiputService,
    request: Request,
    version: Seq<char>,
    step: Step,
) -> bool {
    match request {
        Request::ClientHello(hello) => {
            &&& step is Done
            &&& quiet(step->Done_0)
            &&& match step->Done_0.reply {
                Ok(Ok(ResponseBody::Hello(response))) => hello_answer(
                    service,
                    hello,
                    version,
                    Ok(response),
                ),
                Ok(Err(error)) => hello_answer(service, hello, version, Err(error)),
                _ => false,
            }
        },
        Request::StateGet => performs(step, Work::LoadSettings, Pending::State),
        Request::SettingsGet => performs(step, Work::LoadSettings, Pending::Settings),
        Request::SettingsReplace(replace) => performs(
            step,
            Work::ReplaceSettings {
                expected_revision: replace.expected_revision,
                settings: replace.settings,
            },
            Pending::Replacement,
        ),
        Request::CredentialsPut(put) => if service.has_credentials {
            performs(
                step,
                Work::StoreCredential { credential_id: put.credential_id, secret: put.secret },
                Pending::Credential {
                    credential_id: put.credential_id,
                    asked: CredentialWork::Store,
                },
            )
        } else {
            refuses_credentials(step)
        },
        Request::CredentialsStatus(lookup) => if service.has_credentials {
            performs(
                step,
                Work::FindCredential { credential_id: lookup.credential_id },
                Pending::Credential {
                    credential_id: lookup.credential_id,
                    asked: CredentialWork::Find,
                },
            )
        } else {
            refuses_credentials(step)
        },
        Request::CredentialsDelete(lookup) => if service.has_credentials {
            performs(
                step,
                Work::RemoveCredential { credential_id: lookup.credential_id },
                Pending::Credential {
                    credential_id: lookup.credential_id,
                    asked: CredentialWork::Remove,
                },
            )
        } else {
            refuses_credentials(step)
        },
        Request::AudioDevicesList => performs(step, Work::LoadSettings, Pending::DeviceSettings),
        Request::BackendsList => if service.has_runtime {
            performs(step, Work::ProbeModel, Pending::Backends)
        } else {
            lists_backends(service, false, step)
        },
        Request::HistoryList(list) => performs(
            step,
            Work::ListHistory {
                limit: if list.limit < 1 {
                    1usize
                } else if list.limit > 500 {
                    500usize
                } else {
                    list.limit as usize
                },
                cursor: list.cursor,
            },
            Pending::History,
        ),
        Request::HistoryClear => performs(step, Work::ClearHistory, Pending::HistoryClear),
        Request::DiagnosticsGet => if service.has_runtime {
            performs(step, Work::ProbeRuntime, Pending::Diagnostics)
        } else {
            diagnoses(service, None, step)
        },
        Request::RecordingStart(start) => performs(
            step,
            Work::LoadSettings,
            Pending::StartSettings { language: start.language },
        ),
        Request::RecordingStop(stop) => performs(
            step,
            Work::LoadSettings,
            Pending::Stop { request: stop },
        ),
        Request::OperationCancel(_) => step is Done,
    }
}

/// The request is refused because credentials cannot be stored.
pub open spec fn refuses_credentials(step: Step) -> bool {
    &&& step is Done
    &&& quiet(step->Done_0)
    &&& step->Done_0.reply is Ok
    &&& step->Done_0.reply->Ok_0 is Err
    &&& no_credential_store(step->Done_0.reply->Ok_0->Err_0)
}

/// The request for the backends is answered.
pub open spec fn lists_backends(service: SpeakiputService, model_loaded: bool, step: Step) -> bool {
    step matches Step::Done(answered) && quiet(answered) && match answered.reply {
        Ok(Ok(ResponseBody::Backends(response))) => backends_answer(
            service,
            model_loaded,
            response,
        ),
        _ => false,
    }
}

/// The request for the checks is answered.
pub open spec fn diagnoses(
    service: SpeakiputService,
    probe: Option<RuntimeProbe>,
    step: Step,
) -> bool {
    step matches Step::Done(answered) && quiet(answered) && match answered.reply {
        Ok(Ok(ResponseBody::Diagnostics(response))) => all_checks(
            response.checks@,
            probe,
            service.capabilities@,
        ) && response.log_path is None,
        _ => false,
    }
}

/// The request to cancel is answered.
pub open spec fn cancels(
    before: SpeakiputService,
    after: SpeakiputService,
    cancel: OperationCancelRequest,
    answered: Answered,
) -> bool {
    exists|outcome: CancelOutcome| #[trigger]
        cancel_answer(before, after, cancel, outcome) && answered.events@ == outcome.events@ && (
        answered.follow_up == match outcome.stop_capture {
            Some(session_id) => FollowUp::StopCapture { session_id },
            None => FollowUp::Nothing,
        }) && answered.reply == Ok::<Result<ResponseBody, ProtocolError>, String>(
            match outcome.reply {
                Ok(response) => Ok(ResponseBody::Accepted(response)),
                Err(error) => Err(error),
            },
        )
}

/// The request to start is answered, once its capture is prepared or is not.
pub open spec fn starts(
    before: SpeakiputService,
    after: SpeakiputService,
    session_id: Uuid,
    language: String,
    prepared: Result<Option<FocusedTarget>, String>,
    answered: Answered,
) -> bool {
    exists|outcome: StartOutcome| #[trigger]
        start_answer(before, after, session_id, language, prepared, outcome) && answered.events@
            == outcome.events@ && answered.follow_up == (if outcome.reply is Ok {
            FollowUp::WatchRecording { session_id, restore_focus: outcome.restore_focus }
        } else if outcome.discard {
            FollowUp::StopCapture { session_id }
        } else {
            FollowUp::Nothing
        }) && answered.reply == Ok::<Result<ResponseBody, ProtocolError>, String>(
            match outcome.reply {
                Ok(response) => Ok(ResponseBody::RecordingStarted(response)),
                Err(error) => Err(error),
            },
        )
}

/// The request to stop is answered.
pub open spec fn stops(
    before: SpeakiputService,
    after: SpeakiputService,
    stop: RecordingStopRequest,
    stored: Result<RevisionedSettings, StorageError>,
    answered: Answered,
) -> bool {
    exists|outcome: StopOutcome| #[trigger]
        stop_answer(before, after, stop, stored, outcome) && answered.events@ == outcome.events@
            && answered.follow_up == (match outcome.pipeline {
            Some((recording, settings)) => FollowUp::Transcribe { recording, settings },
            None => if outcome.abandon {
                FollowUp::StopCapture { session_id: stop.session_id }
            } else {
                FollowUp::Nothing
            },
        }) && match outcome.reply {
            Ok(Ok(response)) => answered.reply == Ok::<Result<ResponseBody, ProtocolError>, String>(
                Ok(ResponseBody::RecordingStopped(response)),
            ),
            Ok(Err(error)) => answered.reply == Ok::<Result<ResponseBody, ProtocolError>, String>(
                Err(error),
            ),
            Err(reason) => answered.reply == Err::<Result<ResponseBody, ProtocolError>, String>(
                reason,
            ),
        }
}

/// The outcome is that of the work that was handed out for what is pending.
pub open spec fn fits(pending: Pending, outcome: Outcome) -> bool {
    match pending {
        Pending::State => outcome is Settings,
        Pending::Settings => outcome is Settings,
        Pending::Replacement => outcome is Settings,
        Pending::Credential { asked, .. } => outcome matches Outcome::Credential(result) && (
        result matches Ok(Ok(done)) ==> done_as_asked(asked, done)),
        Pending::DeviceSettings => outcome is Settings,
        Pending::Devices { .. } => outcome is Devices,
        Pending::Backends => outcome is ModelLoaded,
        Pending::History => outcome is History,
        Pending::HistoryClear => outcome is Cleared,
        Pending::Diagnostics => outcome is Runtime,
        Pending::StartSettings { .. } => outcome is Settings,
        Pending::Capture { .. } => outcome is Captured,
        Pending::Stop { .. } => outcome is Settings,
    }
}

/// How a request goes on once work for it is done.
pub open spec fn resumes(
    before: SpeakiputService,
    after: SpeakiputService,
    pending: Pending,
    outcome: Outcome,
    step: Step,
) -> bool {
    match (pending, outcome) {
        (Pending::State, Outcome::Settings(stored)) => {
            &&& after == before
            &&& step is Done
            &&& quiet(step->Done_0)
            &&& match step->Done_0.reply {
                Ok(Ok(ResponseBody::State(snapshot))) => state_answer(
                    before,
                    stored,
                    Ok(snapshot),
                ),
                Err(reason) => state_answer(before, stored, Err(reason)),
                _ => false,
            }
        },
        (Pending::Settings, Outcome::Settings(stored)) => {
            &&& after == before
            &&& step is Done
            &&& quiet(step->Done_0)
            &&& match step->Done_0.reply {
                Ok(Ok(ResponseBody::Settings(response))) => settings_answer(stored, Ok(response)),
                Err(reason) => settings_answer(stored, Err(reason)),
                _ => false,
            }
        },
        (Pending::Replacement, Outcome::Settings(outcome)) => {
            &&& step is Done
            &&& step->Done_0.follow_up is Nothing
            &&& match step->Done_0.reply {
                Ok(Ok(ResponseBody::Settings(response))) => replaced_answer(
                    before,
                    after,
                    outcome,
                    Ok(response),
                    step->Done_0.events@,
                ),
                Ok(Err(error)) => replaced_answer(
                    before,
                    after,
                    outcome,
                    Err(error),
                    step->Done_0.events@,
                ),
                _ => false,
            }
        },
        (Pending::Credential { credential_id, .. }, Outcome::Credential(outcome)) => {
            &&& after == before
            &&& step is Done
            &&& quiet(step->Done_0)
            &&& match step->Done_0.reply {
                Ok(Ok(ResponseBody::Credential(response))) => credential_answer(
                    Ok(response),
                    credential_id,
                    presence_of(outcome),
                ),
                Ok(Err(error)) => credential_answer(
                    Err(error),
                    credential_id,
                    presence_of(outcome),
                ),
                _ => false,
            }
        },
        (Pending::DeviceSettings, Outcome::Settings(stored)) => {
            &&& after == before
            &&& match stored {
                Ok(settings) => if before.has_runtime {
                    performs(step, Work::ListDevices, Pending::Devices { stored: settings })
                } else {
                    lists_devices(before, settings, None, step)
                },
                Err(error) => breaks(step, error),
            }
        },
        (Pending::Devices { stored }, Outcome::Devices(found)) => {
            &&& after == before
            &&& lists_devices(before, stored, found, step)
        },
        (Pending::Backends, Outcome::ModelLoaded(loaded)) => {
            &&& after == before
            &&& lists_backends(before, loaded, step)
        },
        (Pending::History, Outcome::History(page)) => {
            &&& after == before
            &&& step is Done
            &&& quiet(step->Done_0)
            &&& match step->Done_0.reply {
                Ok(Ok(ResponseBody::History(response))) => history_answer(page, Ok(response)),
                Err(reason) => history_answer(page, Err(reason)),
                _ => false,
            }
        },
        (Pending::HistoryClear, Outcome::Cleared(outcome)) => {
            &&& step is Done
            &&& step->Done_0.follow_up is Nothing
            &&& match step->Done_0.reply {
                Ok(Ok(ResponseBody::HistoryCleared)) => cleared_answer(
                    before,
                    after,
                    outcome,
                    Ok(step->Done_0.events),
                ),
                Err(reason) => step->Done_0.events@.len() == 0 && cleared_answer(
                    before,
                    after,
                    outcome,
                    Err(reason),
                ),
                _ => false,
            }
        },
        (Pending::Diagnostics, Outcome::Runtime(probe)) => {
            &&& after == before
            &&& diagnoses(before, Some(probe), step)
        },
        (Pending::StartSettings { language }, Outcome::Settings(stored)) => {
            &&& after == before
            &&& match stored {
                Ok(settings) => {
                    &&& step is Perform
                    &&& step->work is StartCapture
                    &&& is_random_uuid(step->work->StartCapture_0.session_id)
                    &&& is_order(
                        step->work->StartCapture_0,
                        step->work->StartCapture_0.session_id,
                        settings.settings,
                        language,
                    )
                    &&& step->pending == (Pending::Capture {
                        session_id: step->work->StartCapture_0.session_id,
                        language: step->work->StartCapture_0.language,
                    })
                },
                Err(error) => breaks(step, error),
            }
        },
        (Pending::Capture { session_id, language }, Outcome::Captured(prepared)) => {
            &&& step is Done
            &&& starts(before, after, session_id, language, prepared, step->Done_0)
        },
        (Pending::Stop { request }, Outcome::Settings(stored)) => {
            &&& step is Done
            &&& stops(before, after, request, stored, step->Done_0)
        },
        _ => false,
    }
}

/// The request for the devices is answered.
pub open spec fn lists_devices(
    service: SpeakiputService,
    stored: RevisionedSettings,
    found: Option<Vec<AudioDevice>>,
    step: Step,
) -> bool {
    step matches Step::Done(answered) && quiet(answered) && match answered.reply {
        Ok(Ok(ResponseBody::AudioDevices(response))) => devices_answer(
            service,
            Ok(stored),
            found,
            Ok(response),
        ),
        _ => false,
    }
}

fn done(reply: Result<Result<ResponseBody, ProtocolError>, String>) -> (step: Step)
    ensures
        step is Done,
        quiet(step->Done_0),
        step->Done_0.reply == reply,
{
    Step::Done(Answered { reply, events: Vec::new(), follow_up: FollowUp::Nothing })
}

/// The request that the record shortcut stands for, and its name; none where it does
/// nothing.
pub fn shortcut_request(command: ShortcutCommand) -> (result: Option<(&'static str, Request)>)
    ensures
        match command {
            ShortcutCommand::Start => result matches Some((name, request)) && name@
                == "recording.start"@ && request == Request::RecordingStart(
                RecordingStartRequest { language: None },
            ),
            ShortcutCommand::Stop { session_id } => result matches Some((name, request)) && name@
                == "recording.stop"@ && request == Request::RecordingStop(
                RecordingStopRequest { session_id },
            ),
            ShortcutCommand::Ignore => result is None,
        },
{
    match command {
        ShortcutCommand::Start => Some(
            (
                "recording.start",
                Request::RecordingStart(RecordingStartRequest { language: None }),
            ),
        ),
        ShortcutCommand::Stop { session_id } => Some(
            ("recording.stop", Request::RecordingStop(RecordingStopRequest { session_id })),
        ),
        ShortcutCommand::Ignore => None,
    }
}

/// What came of the record shortcut: nothing to report, or the message of the error, or
/// why the backend itself failed.
pub fn shortcut_outcome(reply: Result<Result<ResponseBody, ProtocolError>, String>) -> (result:
    Result<(), String>)
    ensures
        match reply {
            Ok(Ok(_)) => result is Ok,
            Ok(Err(error)) => result == Err::<(), String>(error.message),
            Err(reason) => result == Err::<(), String>(reason),
        },
{
    match reply {
        Ok(Ok(_)) => Ok(()),
        Ok(Err(error)) => Err(error.message),
        Err(reason) => Err(reason),
    }
}

/// How long the overlay is given to appear before the focus is given back.
pub const FOCUS_RESTORE_DELAY_MS: u64 = 150;

/// The envelope that answers a request: a response with the payload's text, or one with the
/// error and no payload. Where the backend itself failed there is none, only the reason.
pub fn answer_envelope(
    request: &Envelope,
    instance_id: Uuid,
    reply: Result<Result<String, ProtocolError>, String>,
) -> (result: Result<Envelope, String>)
    ensures
        match reply {
            Err(reason) => result == Err::<Envelope, String>(reason),
            Ok(outcome) => {
                &&& result is Ok
                &&& is_random_uuid(result->Ok_0.message_id)
                &&& result->Ok_0 == (Envelope {
                    protocol_version: request.protocol_version,
                    message_id: result->Ok_0.message_id,
                    kind: MessageKind::Response,
                    name: request.name,
                    sent_at: result->Ok_0.sent_at,
                    correlation_id: Some(request.message_id),
                    instance_id: Some(instance_id),
                    sequence: None,
                    payload: result->Ok_0.payload,
                    error: match outcome {
                        Ok(_) => None,
                        Err(error) => Some(error),
                    },
                })
                &&& result->Ok_0.payload@ == match outcome {
                    Ok(payload) => payload@,
                    Err(_) => "{}"@,
                }
            },
        },
        result matches Ok(response) ==> crate::client::answers(*request, response)
            && response.instance_id == Some(instance_id),
        result is Err <==> reply is Err,
        result matches Ok(response) ==> (response.error is None <==> reply->Ok_0 is Ok),
{
    match reply {
        Ok(Ok(payload)) => Ok(Envelope::response(request, instance_id, payload)),
        Ok(Err(error)) => Ok(Envelope::error_response(request, instance_id, error)),
        Err(reason) => Err(reason),
    }
}

impl SpeakiputService {
    /// Starts on a request.
    pub fn begin(&mut self, request: Request, version: &str) -> (step: Step)
        requires
            old(self).wf(),
        ensures
            final(self).wf(),
            begins(*old(self), request, version@, step),
            match request {
                Request::OperationCancel(cancel) => cancels(
                    *old(self),
                    *final(self),
                    cancel,
                    step->Done_0,
                ),
                _ => *final(self) == *old(self),
            },
    {
        match request {
            Request::ClientHello(hello) => match self.client_hello(&hello, version) {
                Ok(response) => done(Ok(Ok(ResponseBody::Hello(response)))),
                Err(error) => done(Ok(Err(error))),
            },
            Request::StateGet => Step::Perform {
                work: Work::LoadSettings,
                pending: Pending::State,
            },
            Request::SettingsGet => Step::Perform {
                work: Work::LoadSettings,
                pending: Pending::Settings,
            },
            Request::SettingsReplace(replace) => Step::Perform {
                work: Work::ReplaceSettings {
                    expected_revision: replace.expected_revision,
                    settings: replace.settings,
                },
                pending: Pending::Replacement,
            },
            Request::CredentialsPut(put) => match self.check_credential_store() {
                Ok(()) => {
                    let credential_id = put.credential_id.clone();
                    Step::Perform {
                        work: Work::StoreCredential {
                            credential_id: put.credential_id,
                            secret: put.secret,
                        },
                        pending: Pending::Credential {
                            credential_id,
                            asked: CredentialWork::Store,
                        },
                    }
                },
                Err(error) => done(Ok(Err(error))),
            },
            Request::CredentialsStatus(lookup) => match self.check_credential_store() {
                Ok(()) => {
                    let credential_id = lookup.credential_id.clone();
                    Step::Perform {
                        work: Work::FindCredential { credential_id: lookup.credential_id },
                        pending: Pending::Credential {
                            credential_id,
                            asked: CredentialWork::Find,
                        },
                    }
                },
                Err(error) => done(Ok(Err(error))),
            },
            Request::CredentialsDelete(lookup) => match self.check_credential_store() {
                Ok(()) => {
                    let credential_id = lookup.credential_id.clone();
                    Step::Perform {
                        work: Work::RemoveCredential { credential_id: lookup.credential_id },
                        pending: Pending::Credential {
                            credential_id,
                            asked: CredentialWork::Remove,
                        },
                    }
                },
                Err(error) => done(Ok(Err(error))),
            },
            Request::AudioDevicesList => Step::Perform {
                work: Work::LoadSettings,
                pending: Pending::DeviceSettings,
            },
            Request::BackendsList => {
                if self.has_runtime {
                    Step::Perform { work: Work::ProbeModel, pending: Pending::Backends }
                } else {
                    done(Ok(Ok(ResponseBody::Backends(self.backends_list(false)))))
                }
            },
            Request::HistoryList(list) => Step::Perform {
                work: Work::ListHistory { limit: history_limit(list.limit), cursor: list.cursor },
                pending: Pending::History,
            },
            Request::HistoryClear => Step::Perform {
                work: Work::ClearHistory,
                pending: Pending::HistoryClear,
            },
            Request::DiagnosticsGet => {
                if self.has_runtime {
                    Step::Perform { work: Work::ProbeRuntime, pending: Pending::Diagnostics }
                } else {
                    done(Ok(Ok(ResponseBody::Diagnostics(self.diagnostics_get(None)))))
                }
            },
            Request::RecordingStart(start) => Step::Perform {
                work: Work::LoadSettings,
                pending: Pending::StartSettings { language: start.language },
            },
            Request::RecordingStop(stop) => Step::Perform {
                work: Work::LoadSettings,
                pending: Pending::Stop { request: stop },
            },
            Request::OperationCancel(cancel) => {
                let outcome = self.operation_cancel(cancel);
                let ghost seen = outcome;
                let CancelOutcome { reply, events, stop_capture } = outcome;
                let reply = match reply {
                    Ok(response) => Ok(ResponseBody::Accepted(response)),
                    Err(error) => Err(error),
                };
                let follow_up = match stop_capture {
                    Some(session_id) => FollowUp::StopCapture { session_id },
                    None => FollowUp::Nothing,
                };
                let answered = Answered { reply: Ok(reply), events, follow_up };
                assert(cancel_answer(*old(self), *self, cancel, seen));
                Step::Done(answered)
            },
        }
    }

    /// Goes on with a request once work for it is done.
    pub fn resume(&mut self, pending: Pending, outcome: Outcome) -> (step: Step)
        requires
            old(self).wf(),
            fits(pending, outcome),
        ensures
            final(self).wf(),
            resumes(*old(self), *final(self), pending, outcome, step),
    {
        match (pending, outcome) {
            (Pending::State, Outcome::Settings(stored)) => match self.state_get(stored) {
                Ok(snapshot) => done(Ok(Ok(ResponseBody::State(snapshot)))),
                Err(reason) => done(Err(reason)),
            },
            (Pending::Settings, Outcome::Settings(stored)) => match self.settings_get(stored) {
                Ok(response) => done(Ok(Ok(ResponseBody::Settings(response)))),
                Err(reason) => done(Err(reason)),
            },
            (Pending::Replacement, Outcome::Settings(outcome)) => {
                let (reply, events) = self.settings_replaced(outcome);
                let reply = match reply {
                    Ok(response) => Ok(ResponseBody::Settings(response)),
                    Err(error) => Err(error),
                };
                Step::Done(Answered { reply: Ok(reply), events, follow_up: FollowUp::Nothing })
            },
            (Pending::Credential { credential_id, .. }, Outcome::Credential(outcome)) => {
                match credential_status(credential_id, presence(outcome)) {
                    Ok(response) => done(Ok(Ok(ResponseBody::Credential(response)))),
                    Err(error) => done(Ok(Err(error))),
                }
            },
            (Pending::DeviceSettings, Outcome::Settings(stored)) => match stored {
                Ok(settings) => {
                    if self.has_runtime {
                        Step::Perform {
                            work: Work::ListDevices,
                            pending: Pending::Devices { stored: settings },
                        }
                    } else {
                        match self.audio_devices_list(Ok(settings), None) {
                            Ok(response) => done(Ok(Ok(ResponseBody::AudioDevices(response)))),
                            Err(reason) => done(Err(reason)),
                        }
                    }
                },
                Err(error) => done(Err(error.message())),
            },
            (Pending::Devices { stored }, Outcome::Devices(found)) => {
                match self.audio_devices_list(Ok(stored), found) {
                    Ok(response) => done(Ok(Ok(ResponseBody::AudioDevices(response)))),
                    Err(reason) => done(Err(reason)),
                }
            },
            (Pending::Backends, Outcome::ModelLoaded(loaded)) => {
                done(Ok(Ok(ResponseBody::Backends(self.backends_list(loaded)))))
            },
            (Pending::History, Outcome::History(page)) => match self.history_list(page) {
                Ok(response) => done(Ok(Ok(ResponseBody::History(response)))),
                Err(reason) => done(Err(reason)),
            },
            (Pending::HistoryClear, Outcome::Cleared(outcome)) => {
                match self.history_clear(outcome) {
                    Ok(events) => Step::Done(
                        Answered {
                            reply: Ok(Ok(ResponseBody::HistoryCleared)),
                            events,
                            follow_up: FollowUp::Nothing,
                        },
                    ),
                    Err(reason) => done(Err(reason)),
                }
            },
            (Pending::Diagnostics, Outcome::Runtime(probe)) => {
                done(Ok(Ok(ResponseBody::Diagnostics(self.diagnostics_get(Some(probe))))))
            },
            (Pending::StartSettings { language }, Outcome::Settings(stored)) => match stored {
                Ok(settings) => {
                    let order = new_capture_order(&settings.settings, language);
                    let session_id = order.session_id;
                    let language = order.language.clone();
                    Step::Perform {
                        work: Work::StartCapture(order),
                        pending: Pending::Capture { session_id, language },
                    }
                },
                Err(error) => done(Err(error.message())),
            },
            (Pending::Capture { session_id, language }, Outcome::Captured(prepared)) => {
                let ghost asked = language;
                let ghost given = prepared;
                let outcome = self.recording_start(session_id, language, prepared);
                let ghost seen = outcome;
                let StartOutcome { reply, events, restore_focus, discard } = outcome;
                let (reply, follow_up) = match reply {
                    Ok(response) => (
                        Ok(ResponseBody::RecordingStarted(response)),
                        FollowUp::WatchRecording { session_id, restore_focus },
                    ),
                    Err(error) => (
                        Err(error),
                        if discard {
                            FollowUp::StopCapture { session_id }
                        } else {
                            FollowUp::Nothing
                        },
                    ),
                };
                assert(start_answer(*old(self), *self, session_id, asked, given, seen));
                Step::Done(Answered { reply: Ok(reply), events, follow_up })
            },
            (Pending::Stop { request }, Outcome::Settings(stored)) => {
                let ghost given = stored;
                let session_id = request.session_id;
                let outcome = self.recording_stop(request, stored);
                let ghost seen = outcome;
                let StopOutcome { reply, events, pipeline, abandon } = outcome;
                let reply = match reply {
                    Ok(Ok(response)) => Ok(Ok(ResponseBody::RecordingStopped(response))),
                    Ok(Err(error)) => Ok(Err(error)),
                    Err(reason) => Err(reason),
                };
                let follow_up = match pipeline {
                    Some((recording, settings)) => FollowUp::Transcribe { recording, settings },
                    None => {
                        if abandon {
                            FollowUp::StopCapture { session_id }
                        } else {
                            FollowUp::Nothing
                        }
                    },
                };
                assert(stop_answer(*old(self), *self, request, given, seen));
                Step::Done(Answered { reply, events, follow_up })
            },
            _ => {
                assert(false);
                done(Err(String::from_str("work and request do not match")))
            },
        }
    }
}

// ---------------------------------------------------------------------------
// What holds of every request
// ---------------------------------------------------------------------------

/// How much work may still be handed out for what is pending.
pub open spec fn work_left(pending: Pending) -> nat {
    match pending {
        Pending::DeviceSettings => 2,
        Pending::StartSettings { .. } => 2,
        _ => 1,
    }
}

/// Every request comes to its answer: work is handed out for it twice at most.
pub proof fn requests_come_to_an_answer(
    before: SpeakiputService,
    after: SpeakiputService,
    pending: Pending,
    outcome: Outcome,
    step: Step,
)
    requires
        fits(pending, outcome),
        resumes(before, after, pending, outcome, step),
    ensures
        step matches Step::Perform { work, pending: next } ==> work_left(next) < work_left(pending),
        work_left(pending) == 1 ==> step is Done,
{
}

/// Whatever a request announces is numbered behind what was announced before.
pub proof fn announcements_are_numbered(
    before: SpeakiputService,
    after: SpeakiputService,
    pending: Pending,
    outcome: Outcome,
    answered: Answered,
)
    requires
        fits(pending, outcome),
        resumes(before, after, pending, outcome, Step::Done(answered)),
    ensures
        numbered(before.sequence, answered.events@, after.sequence),
{
}

/// The states of a dictation that is being transcribed, rewritten or written out.
pub open spec fn under_way(state: DictationState) -> bool {
    state is Transcribing || state is PostProcessing || state is Injecting
}

/// No request disturbs a dictation that is being transcribed, rewritten or written out:
/// whatever the request, nothing of the backend changes but the numbering of events.
pub proof fn requests_do_not_disturb_a_dictation(
    before: SpeakiputService,
    after: SpeakiputService,
    pending: Pending,
    outcome: Outcome,
    step: Step,
)
    requires
        under_way(before.machine.spec_state()),
        fits(pending, outcome),
        resumes(before, after, pending, outcome, step),
    ensures
        after == (SpeakiputService { sequence: after.sequence, ..before }),
{
}

/// Nor does a request to cancel: it is refused, and nothing changes.
pub proof fn a_dictation_under_way_cannot_be_cancelled(
    before: SpeakiputService,
    after: SpeakiputService,
    cancel: OperationCancelRequest,
    answered: Answered,
)
    requires
        under_way(before.machine.spec_state()),
        cancels(before, after, cancel, answered),
    ensures
        after == before,
        answered.reply is Ok,
        answered.reply->Ok_0 is Err,
        quiet(answered),
{
}

/// The backend does for a request what the request asks for, and nothing else: settings are
/// replaced, a secret is kept, looked for or removed, and the history is cleared only where
/// that was asked for.
pub proof fn requests_are_served_as_asked(
    service: SpeakiputService,
    request: Request,
    version: Seq<char>,
    step: Step,
)
    requires
        begins(service, request, version, step),
    ensures
        step matches Step::Perform { work, .. } ==> match work {
            Work::ReplaceSettings { expected_revision, settings } => {
                request matches Request::SettingsReplace(asked) && asked.expected_revision
                    == expected_revision && asked.settings == settings
            },
            Work::StoreCredential { credential_id, secret } => {
                request matches Request::CredentialsPut(asked) && asked.credential_id
                    == credential_id && asked.secret == secret && service.has_credentials
            },
            Work::FindCredential { credential_id } => {
                request matches Request::CredentialsStatus(asked) && asked.credential_id
                    == credential_id && service.has_credentials
            },
            Work::RemoveCredential { credential_id } => {
                request matches Request::CredentialsDelete(asked) && asked.credential_id
                    == credential_id && service.has_credentials
            },
            Work::ClearHistory => request is HistoryClear,
            Work::ProbeModel => request is BackendsList && service.has_runtime,
            Work::ProbeRuntime => request is DiagnosticsGet && service.has_runtime,
            Work::ListHistory { limit, cursor } => {
                request matches Request::HistoryList(asked) && asked.cursor == cursor && 1 <= limit
                    <= 500 && (1 <= asked.limit <= 500 ==> limit == asked.limit)
            },
            Work::LoadSettings => {
                request is StateGet || request is SettingsGet || request is AudioDevicesList
                    || request is RecordingStart || request is RecordingStop
            },
            _ => false,
        },
        request is SettingsReplace || request is HistoryClear || request is HistoryList
            || request is StateGet || request is SettingsGet || request is AudioDevicesList
            || request is RecordingStart || request is RecordingStop ==> step is Perform,
        request is CredentialsPut || request is CredentialsStatus || request is CredentialsDelete
            ==> (step is Perform <==> service.has_credentials),
        request is ClientHello || request is OperationCancel ==> step is Done,
        request matches Request::RecordingStart(asked) ==> step->pending == (
        Pending::StartSettings { language: asked.language }),
        request matches Request::RecordingStop(asked) ==> step->pending == (Pending::Stop {
            request: asked,
        }),
{
}

/// A page of the history holds at least one entry and at most five hundred, however many
/// were asked for.
pub proof fn pages_asked_for_are_kept_in_bounds(
    service: SpeakiputService,
    asked: HistoryListRequest,
    version: Seq<char>,
    step: Step,
)
    requires
        begins(service, Request::HistoryList(asked), version, step),
    ensures
        step->work->limit == if asked.limit > 500 {
            500
        } else if asked.limit == 0 {
            1
        } else {
            asked.limit as int
        },
        step->work->cursor == asked.cursor,
{
}

/// What is told of a credential is whether it is there afterwards: once stored it is, once
/// removed it is not, and looked for it is where it was found.
pub proof fn credentials_are_told_as_they_are(
    before: SpeakiputService,
    after: SpeakiputService,
    credential_id: String,
    asked: CredentialWork,
    done: CredentialDone,
    step: Step,
)
    requires
        done_as_asked(asked, done),
        resumes(
            before,
            after,
            Pending::Credential { credential_id, asked },
            Outcome::Credential(Ok(Ok(done))),
            step,
        ),
    ensures
        after == before,
        step->Done_0.reply->Ok_0->Ok_0->Credential_0.credential_id == credential_id,
        asked is Store ==> step->Done_0.reply->Ok_0->Ok_0->Credential_0.stored,
        asked is Remove ==> !step->Done_0.reply->Ok_0->Ok_0->Credential_0.stored,
        done matches CredentialDone::Found { present }
            ==> step->Done_0.reply->Ok_0->Ok_0->Credential_0.stored == present,
{
}

/// What is stored is answered as it is: the state with the revision of the settings, the
/// settings themselves, and the entries of the history with where to go on. What cannot be
/// read is answered by the reason alone.
pub proof fn stored_things_are_answered_as_they_are(
    before: SpeakiputService,
    after: SpeakiputService,
    stored: Result<RevisionedSettings, StorageError>,
    page: Result<(Vec<HistoryEntry>, Option<String>), StorageError>,
    step: Step,
)
    ensures
        resumes(before, after, Pending::State, Outcome::Settings(stored), step) ==> match stored {
            Ok(settings) => {
                let told = step->Done_0.reply->Ok_0->Ok_0->State_0;
                &&& step->Done_0.reply is Ok && step->Done_0.reply->Ok_0 is Ok
                &&& told.settings_revision == settings.revision
                &&& told.state == before.machine.spec_state()
                &&& told.active_session_id == before.machine.session()
                &&& told.capabilities@ == before.capabilities@
            },
            Err(error) => step->Done_0.reply matches Err(reason) && reason@ == storage_error_text(
                error,
            ),
        },
        resumes(before, after, Pending::Settings, Outcome::Settings(stored), step) ==> match stored {
            Ok(settings) => {
                let told = step->Done_0.reply->Ok_0->Ok_0->Settings_0;
                &&& step->Done_0.reply is Ok && step->Done_0.reply->Ok_0 is Ok
                &&& told.revision == settings.revision && told.settings == settings.settings
            },
            Err(error) => step->Done_0.reply matches Err(reason) && reason@ == storage_error_text(
                error,
            ),
        },
        resumes(before, after, Pending::History, Outcome::History(page), step) ==> match page {
            Ok(found) => {
                let told = step->Done_0.reply->Ok_0->Ok_0->History_0;
                &&& step->Done_0.reply is Ok && step->Done_0.reply->Ok_0 is Ok
                &&& told.entries == found.0 && told.next_cursor == found.1
            },
            Err(error) => step->Done_0.reply matches Err(reason) && reason@ == storage_error_text(
                error,
            ),
        },
{
}

/// Clearing the history is announced exactly if it was cleared.
pub proof fn clearing_is_announced(
    before: SpeakiputService,
    after: SpeakiputService,
    outcome: Result<(), StorageError>,
    step: Step,
)
    requires
        resumes(before, after, Pending::HistoryClear, Outcome::Cleared(outcome), step),
    ensures
        outcome is Ok <==> step->Done_0.reply is Ok,
        outcome is Ok ==> step->Done_0.events@.len() == 1
            && step->Done_0.events@[0].body is HistoryCleared,
        outcome is Err ==> step->Done_0.events@.len() == 0 && after == before,
{
}

/// A recording that was started is watched; one that could not be taken on is stopped again
/// if it runs.
pub proof fn started_recordings_are_watched(
    before: SpeakiputService,
    after: SpeakiputService,
    session_id: Uuid,
    language: String,
    prepared: Result<Option<FocusedTarget>, String>,
    answered: Answered,
)
    requires
        starts(before, after, session_id, language, prepared, answered),
    ensures
        answered.reply is Ok,
        answered.reply->Ok_0 is Ok <==> answered.follow_up is WatchRecording,
        answered.follow_up matches FollowUp::WatchRecording { session_id: watched, .. } ==> watched
            == session_id,
        answered.follow_up matches FollowUp::StopCapture { session_id: stopped } ==> stopped
            == session_id,
        !(answered.follow_up is Transcribe),
        prepared is Err ==> answered.follow_up is Nothing && answered.reply->Ok_0 is Err,
        prepared is Ok && answered.reply->Ok_0 is Err ==> answered.follow_up is StopCapture,
        answered.follow_up matches FollowUp::WatchRecording { restore_focus, .. } ==> prepared
            == Ok::<Option<FocusedTarget>, String>(restore_focus),
        answered.reply->Ok_0 is Ok <==> prepared is Ok && before.machine.spec_state() is Idle,
{
}

/// A recording that was stopped is transcribed with the settings in force, and only such a
/// one is.
pub proof fn stopped_recordings_are_transcribed(
    before: SpeakiputService,
    after: SpeakiputService,
    stop: RecordingStopRequest,
    stored: Result<RevisionedSettings, StorageError>,
    answered: Answered,
)
    requires
        before.wf(),
        stops(before, after, stop, stored, answered),
    ensures
        answered.follow_up matches FollowUp::Transcribe { recording, settings } ==> {
            &&& before.recording == Some(recording)
            &&& stored matches Ok(in_force) && in_force.settings == settings
        },
        answered.follow_up is Transcribe ==> before.machine.session() == Some(stop.session_id),
        before.machine.spec_state() is Recording && before.machine.session() == Some(
            stop.session_id,
        ) && before.has_runtime ==> (answered.follow_up is Transcribe <==> stored is Ok),
        answered.follow_up matches FollowUp::StopCapture { session_id } ==> session_id
            == stop.session_id && stored is Err,
        !(answered.follow_up is WatchRecording),
{
}

/// Devices are looked for where there is something to look for them with; without it those
/// known beforehand are told at once.
pub proof fn devices_are_looked_for(
    before: SpeakiputService,
    after: SpeakiputService,
    stored: RevisionedSettings,
    step: Step,
)
    requires
        resumes(before, after, Pending::DeviceSettings, Outcome::Settings(Ok(stored)), step),
    ensures
        after == before,
        step is Perform <==> before.has_runtime,
        step matches Step::Perform { work, pending } ==> work is ListDevices && pending == (
        Pending::Devices { stored }),
        step matches Step::Done(answered) ==> {
            let told = answered.reply->Ok_0->Ok_0->AudioDevices_0;
            &&& answered.reply is Ok && answered.reply->Ok_0 is Ok
            &&& told.devices@ == before.audio_devices@
            &&& told.selected_id == stored.settings.audio.input_device_id
        },
{
}

} // verus!
