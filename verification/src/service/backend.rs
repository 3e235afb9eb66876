//! The backend's state and the requests that do not concern a recording.

use vstd::prelude::*;
use vstd::string::*;

use crate::arith::{capped_u64, saturating_sum_u64};
use crate::contract::codec::MAX_FRAME_BYTES;
use crate::contract::dto::{
    copy_devices, AudioDevice, AudioDevicesResponse, BackendChoice, BackendHealth,
    BackendsResponse, ClientHelloRequest, ClientHelloResponse, ClientIdentity,
    CredentialStatusResponse, DiagnosticCheck, DiagnosticsResponse, HistoryEntry,
    HistoryListResponse, ServerLimits, SettingsResponse, StateSnapshot,
};
use crate::contract::envelope::{Detail, ProtocolError, StableErrorCode, PROTOCOL_VERSION};
use crate::contract::ids::{fresh_uuid, is_random_uuid, Uuid};
use crate::decimal::{decimal, digits};
use crate::platform::FocusedTarget;
use crate::service::events::{
    numbered, plain_error, protocol_error, reports_storage_error, revision_details,
    storage_protocol_error, two_details, Event, EventBody,
};
use crate::state::StateMachine;
use crate::storage::{storage_error_text, RevisionedSettings, StorageError};
use crate::text::{copy_texts, listed, lists, same_text};

verus! {

broadcast use vstd::string::group_string_axioms;

/// What is known of the recording under way.
#[derive(PartialEq, Eq, Debug)]
pub struct Recording {
    pub session_id: Uuid,
    pub language: String,
    pub focused_target: Option<FocusedTarget>,
}

/// The backend's state.
#[derive(Debug)]
pub struct SpeakiputService {
    pub instance_id: Uuid,
    pub machine: StateMachine,
    /// The number of the last event.
    pub sequence: u64,
    pub recording: Option<Recording>,
    /// Capture and transcription are there.
    pub has_runtime: bool,
    /// Secure storage for credentials is there.
    pub has_credentials: bool,
    pub capabilities: Vec<String>,
    /// The devices to report where the runtime reports none.
    pub audio_devices: Vec<AudioDevice>,
}

/// The requests that the backend knows.
#[derive(Clone, Copy, PartialEq, Eq, Structural, Debug)]
pub enum Route {
    ClientHello,
    StateGet,
    SettingsGet,
    SettingsReplace,
    CredentialsPut,
    CredentialsStatus,
    CredentialsDelete,
    AudioDevicesList,
    BackendsList,
    HistoryList,
    HistoryClear,
    DiagnosticsGet,
    RecordingStart,
    RecordingStop,
    OperationCancel,
}

/// The request of a name.
pub open spec fn route_of(name: Seq<char>) -> Option<Route> {
    if name == "client.hello"@ {
        Some(Route::ClientHello)
    } else if name == "state.get"@ {
        Some(Route::StateGet)
    } else if name == "settings.get"@ {
        Some(Route::SettingsGet)
    } else if name == "settings.replace"@ {
        Some(Route::SettingsReplace)
    } else if name == "credentials.put"@ {
        Some(Route::CredentialsPut)
    } else if name == "credentials.status"@ {
        Some(Route::CredentialsStatus)
    } else if name == "credentials.delete"@ {
        Some(Route::CredentialsDelete)
    } else if name == "audio_devices.list"@ {
        Some(Route::AudioDevicesList)
    } else if name == "backends.list"@ {
        Some(Route::BackendsList)
    } else if name == "history.list"@ {
        Some(Route::HistoryList)
    } else if name == "history.clear"@ {
        Some(Route::HistoryClear)
    } else if name == "diagnostics.get"@ {
        Some(Route::DiagnosticsGet)
    } else if name == "recording.start"@ {
        Some(Route::RecordingStart)
    } else if name == "recording.stop"@ {
        Some(Route::RecordingStop)
    } else if name == "operation.cancel"@ {
        Some(Route::OperationCancel)
    } else {
        None
    }
}

/// The request of a name.
pub fn route(name: &str) -> (result: Option<Route>)
    ensures
        result == route_of(name@),
{
    if same_text(name, "client.hello") {
        Some(Route::ClientHello)
    } else if same_text(name, "state.get") {
        Some(Route::StateGet)
    } else if same_text(name, "settings.get") {
        Some(Route::SettingsGet)
    } else if same_text(name, "settings.replace") {
        Some(Route::SettingsReplace)
    } else if same_text(name, "credentials.put") {
        Some(Route::CredentialsPut)
    } else if same_text(name, "credentials.status") {
        Some(Route::CredentialsStatus)
    } else if same_text(name, "credentials.delete") {
        Some(Route::CredentialsDelete)
    } else if same_text(name, "audio_devices.list") {
        Some(Route::AudioDevicesList)
    } else if same_text(name, "backends.list") {
        Some(Route::BackendsList)
    } else if same_text(name, "history.list") {
        Some(Route::HistoryList)
    } else if same_text(name, "history.clear") {
        Some(Route::HistoryClear)
    } else if same_text(name, "diagnostics.get") {
        Some(Route::DiagnosticsGet)
    } else if same_text(name, "recording.start") {
        Some(Route::RecordingStart)
    } else if same_text(name, "recording.stop") {
        Some(Route::RecordingStop)
    } else if same_text(name, "operation.cancel") {
        Some(Route::OperationCancel)
    } else {
        None
    }
}

/// What the error of a payload that cannot be read says.
pub fn invalid_payload(name: &str, reason: &str) -> (result: ProtocolError)
    ensures
        plain_error(
            result,
            StableErrorCode::InvalidArgument,
            "invalid "@ + name@ + " payload: "@ + reason@,
            false,
        ),
{
    let mut text = String::from_str("invalid ");
    text.append(name);
    text.append(" payload: ");
    text.append(reason);
    protocol_error(StableErrorCode::InvalidArgument, text, false)
}

/// The answer where credentials cannot be stored.
pub open spec fn no_credential_store(error: ProtocolError) -> bool {
    plain_error(
        error,
        StableErrorCode::Unsupported,
        "secure credential storage is unavailable"@,
        false,
    )
}

/// How the answer to a request on a credential follows from the work done for it.
pub open spec fn credential_answer(
    result: Result<CredentialStatusResponse, ProtocolError>,
    credential_id: String,
    outcome: Result<Result<bool, StorageError>, String>,
) -> bool {
    match outcome {
        Ok(Ok(stored)) => result matches Ok(response) && response.credential_id == credential_id
            && response.stored == stored,
        Ok(Err(error)) => result matches Err(reported) && reports_storage_error(reported, error),
        Err(reason) => result matches Err(reported) && plain_error(
            reported,
            StableErrorCode::Internal,
            reason@,
            true,
        ),
    }
}

/// Answers a request on a credential: only whether one is stored, never the secret.
pub fn credential_status(
    credential_id: String,
    outcome: Result<Result<bool, StorageError>, String>,
) -> (result: Result<CredentialStatusResponse, ProtocolError>)
    ensures
        credential_answer(result, credential_id, outcome),
{
    match outcome {
        Ok(Ok(stored)) => Ok(CredentialStatusResponse { credential_id, stored }),
        Ok(Err(error)) => Err(storage_protocol_error(&error)),
        Err(reason) => Err(protocol_error(StableErrorCode::Internal, reason, true)),
    }
}

/// How many history entries one request may ask for.
pub fn history_limit(limit: u32) -> (result: usize)
    ensures
        result == if limit < 1 {
            1int
        } else if limit > 500 {
            500int
        } else {
            limit as int
        },
{
    if limit < 1 {
        1
    } else if limit > 500 {
        500
    } else {
        limit as usize
    }
}

/// What a look at the runtime found: the number of input devices or why they could not be
/// listed, and whether the transcription model is loaded.
#[derive(PartialEq, Eq, Debug)]
pub struct RuntimeProbe {
    pub devices: Result<usize, String>,
    pub model_loaded: bool,
}

/// A check and what it found.
pub open spec fn is_check(
    check: DiagnosticCheck,
    id: Seq<char>,
    status: Seq<char>,
    message: Seq<char>,
) -> bool {
    check.id@ == id && check.status@ == status && check.message@ == message
}

fn diagnostic(id: &str, status: &str, message: String) -> (result: DiagnosticCheck)
    ensures
        is_check(result, id@, status@, message@),
{
    DiagnosticCheck { id: String::from_str(id), status: String::from_str(status), message }
}

/// The check on the microphone.
pub open spec fn microphone_check(check: DiagnosticCheck, devices: Result<usize, String>) -> bool {
    match devices {
        Ok(n) => if n > 0 {
            is_check(
                check,
                "microphone"@,
                "ok"@,
                digits(n as nat) + " input device(s) available"@,
            )
        } else {
            is_check(check, "microphone"@, "error"@, "No input device is available"@)
        },
        Err(reason) => is_check(check, "microphone"@, "error"@, reason@),
    }
}

/// The check on the transcription model.
pub open spec fn model_check(check: DiagnosticCheck, loaded: bool) -> bool {
    if loaded {
        is_check(check, "transcription_model"@, "ok"@, "Local Whisper model is loaded"@)
    } else {
        is_check(
            check,
            "transcription_model"@,
            "error"@,
            "Local Whisper model is unavailable; select a valid model file"@,
        )
    }
}

/// The check on a capability of the session.
pub open spec fn capability_check(
    check: DiagnosticCheck,
    capability: Seq<char>,
    capabilities: Seq<String>,
) -> bool {
    if lists(capabilities, capability) {
        is_check(check, capability, "ok"@, "Available"@)
    } else {
        is_check(
            check,
            capability,
            "unavailable"@,
            "Unavailable in the current desktop session"@,
        )
    }
}

/// The checks on the capabilities of the session, from a place in the list on.
pub open spec fn capability_checks(
    checks: Seq<DiagnosticCheck>,
    from: int,
    capabilities: Seq<String>,
) -> bool {
    &&& checks.len() == from + 6
    &&& capability_check(checks[from], "keyboard_insertion"@, capabilities)
    &&& capability_check(checks[from + 1], "clipboard"@, capabilities)
    &&& capability_check(checks[from + 2], "global_shortcut"@, capabilities)
    &&& capability_check(checks[from + 3], "focus_safe_overlay"@, capabilities)
    &&& capability_check(checks[from + 4], "vulkan_acceleration"@, capabilities)
    &&& capability_check(checks[from + 5], "credential_store"@, capabilities)
}

/// Every check: on the backend, on the runtime where there is one, and on the session.
pub open spec fn all_checks(
    checks: Seq<DiagnosticCheck>,
    probe: Option<RuntimeProbe>,
    capabilities: Seq<String>,
) -> bool {
    &&& checks.len() >= 1
    &&& is_check(checks[0], "backend"@, "ok"@, "Backend is ready"@)
    &&& match probe {
        Some(found) => {
            &&& capability_checks(checks, 3, capabilities)
            &&& microphone_check(checks[1], found.devices)
            &&& model_check(checks[2], found.model_loaded)
        },
        None => {
            &&& capability_checks(checks, 2, capabilities)
            &&& is_check(
                checks[1],
                "native_runtime"@,
                "unavailable"@,
                "Daemon was built without native capture/Whisper support"@,
            )
        },
    }
}

/// The answer to a greeting.
pub open spec fn hello_answer(
    service: SpeakiputService,
    hello: ClientHelloRequest,
    version: Seq<char>,
    result: Result<ClientHelloResponse, ProtocolError>,
) -> bool {
    match result {
        Ok(response) => {
            &&& lists(hello.supported_versions@, PROTOCOL_VERSION@)
            &&& response.selected_version@ == PROTOCOL_VERSION@
            &&& response.server.name@ == "speakiputd"@
            &&& response.server.version@ == version
            &&& response.capabilities@ == service.capabilities@
            &&& response.limits.max_frame_bytes == MAX_FRAME_BYTES
        },
        Err(error) => {
            &&& !lists(hello.supported_versions@, PROTOCOL_VERSION@)
            &&& plain_error(
                error,
                StableErrorCode::ProtocolMismatch,
                "client does not support protocol 1.0"@,
                false,
            )
        },
    }
}

/// The answer to a request for the state.
pub open spec fn state_answer(
    service: SpeakiputService,
    stored: Result<RevisionedSettings, StorageError>,
    result: Result<StateSnapshot, String>,
) -> bool {
    match (stored, result) {
        (Ok(settings), Ok(snapshot)) => {
            &&& snapshot.state == service.machine.spec_state()
            &&& snapshot.active_session_id == service.machine.session()
            &&& snapshot.settings_revision == settings.revision
            &&& snapshot.capabilities@ == service.capabilities@
            &&& snapshot.health is Ready
        },
        (Err(error), Err(message)) => message@ == storage_error_text(error),
        _ => false,
    }
}

/// The answer to a request for the settings.
pub open spec fn settings_answer(
    stored: Result<RevisionedSettings, StorageError>,
    result: Result<SettingsResponse, String>,
) -> bool {
    match (stored, result) {
        (Ok(settings), Ok(response)) => response == (SettingsResponse {
            revision: settings.revision,
            settings: settings.settings,
        }),
        (Err(error), Err(message)) => message@ == storage_error_text(error),
        _ => false,
    }
}

/// The answer to a replacement of the settings, and its announcement.
pub open spec fn replaced_answer(
    before: SpeakiputService,
    after: SpeakiputService,
    outcome: Result<RevisionedSettings, StorageError>,
    reply: Result<SettingsResponse, ProtocolError>,
    events: Seq<Event>,
) -> bool {
    &&& numbered(before.sequence, events, after.sequence)
    &&& after == (SpeakiputService { sequence: after.sequence, ..before })
    &&& match outcome {
        Ok(stored) => {
            &&& reply == Ok::<SettingsResponse, ProtocolError>(
                SettingsResponse { revision: stored.revision, settings: stored.settings },
            )
            &&& events.len() == 1
            &&& events[0].body == (EventBody::SettingsChanged {
                revision: stored.revision,
            })
        },
        Err(StorageError::Conflict { expected, current }) => {
            &&& events.len() == 0
            &&& reply is Err
            &&& reply->Err_0.code is Conflict
            &&& reply->Err_0.message@ == "settings revision is stale"@
            &&& reply->Err_0.retryable
            &&& two_details(
                reply->Err_0,
                "expected"@,
                Detail::Number(expected),
                "current"@,
                Detail::Number(current),
            )
        },
        Err(error) => {
            &&& events.len() == 0
            &&& reply is Err
            &&& reports_storage_error(reply->Err_0, error)
        },
    }
}

/// The answer to a request for the input devices.
pub open spec fn devices_answer(
    service: SpeakiputService,
    stored: Result<RevisionedSettings, StorageError>,
    found: Option<Vec<AudioDevice>>,
    result: Result<AudioDevicesResponse, String>,
) -> bool {
    match (stored, result) {
        (Ok(settings), Ok(response)) => {
            &&& response.selected_id == settings.settings.audio.input_device_id
            &&& response.devices@ == match found {
                Some(devices) => if service.has_runtime {
                    devices@
                } else {
                    service.audio_devices@
                },
                None => service.audio_devices@,
            }
        },
        (Err(error), Err(message)) => message@ == storage_error_text(error),
        _ => false,
    }
}

/// The answer to a request for the backends.
pub open spec fn backends_answer(
    service: SpeakiputService,
    model_loaded: bool,
    result: BackendsResponse,
) -> bool {
    &&& result.transcription@.len() == 1
    &&& result.transcription@[0].id@ == "local-whisper"@
    &&& result.transcription@[0].name@ == "Local Whisper"@
    &&& result.transcription@[0].available == (service.has_runtime && model_loaded)
    &&& match result.transcription@[0].unavailable_reason {
        Some(reason) => !(service.has_runtime && model_loaded) && reason@
            == "local Whisper feature is not enabled"@,
        None => service.has_runtime && model_loaded,
    }
    &&& result.post_processing@.len() == 1
    &&& result.post_processing@[0].id@ == "openai-compatible"@
    &&& result.post_processing@[0].name@ == "OpenAI compatible"@
    &&& result.post_processing@[0].available
    &&& result.post_processing@[0].unavailable_reason is None
}

/// The answer to a request for the history.
pub open spec fn history_answer(
    page: Result<(Vec<HistoryEntry>, Option<String>), StorageError>,
    result: Result<HistoryListResponse, String>,
) -> bool {
    match (page, result) {
        (Ok(found), Ok(response)) => response == (HistoryListResponse {
            entries: found.0,
            next_cursor: found.1,
        }),
        (Err(error), Err(message)) => message@ == storage_error_text(error),
        _ => false,
    }
}

/// The answer to clearing the history, and its announcement.
pub open spec fn cleared_answer(
    before: SpeakiputService,
    after: SpeakiputService,
    outcome: Result<(), StorageError>,
    result: Result<Vec<Event>, String>,
) -> bool {
    &&& after == (SpeakiputService { sequence: after.sequence, ..before })
    &&& match (outcome, result) {
        (Ok(()), Ok(events)) => {
            &&& numbered(before.sequence, events@, after.sequence)
            &&& events@.len() == 1
            &&& events@[0].body is HistoryCleared
        },
        (Err(error), Err(message)) => {
            &&& message@ == storage_error_text(error)
            &&& after.sequence == before.sequence
        },
        _ => false,
    }
}

impl SpeakiputService {
    /// A recording is held exactly while recording, and it is the active session's; the
    /// machine is in order.
    pub open spec fn wf(&self) -> bool {
        &&& self.machine.wf()
        &&& self.recording is Some <==> self.machine.spec_state() is Recording
        &&& self.recording matches Some(r) ==> self.machine.session() == Some(r.session_id)
    }

    /// A session is not the one being recorded.
    pub open spec fn records_other_than(&self, session_id: Uuid) -> bool {
        self.recording matches Some(r) ==> r.session_id != session_id
    }

    /// An idle backend with a given identity.
    pub fn with_instance(
        instance_id: Uuid,
        capabilities: Vec<String>,
        audio_devices: Vec<AudioDevice>,
    ) -> (result: Self)
        ensures
            result.wf(),
            result.instance_id == instance_id,
            result.machine.spec_state() is Idle,
            result.machine.session() is None,
            result.sequence == 0,
            result.recording is None,
            !result.has_runtime,
            !result.has_credentials,
            result.capabilities == capabilities,
            result.audio_devices == audio_devices,
    {
        Self {
            instance_id,
            machine: StateMachine::new(),
            sequence: 0,
            recording: None,
            has_runtime: false,
            has_credentials: false,
            capabilities,
            audio_devices,
        }
    }

    /// An idle backend with an identity of its own, without runtime and credential store.
    #[must_use]
    pub fn new(capabilities: Vec<String>, audio_devices: Vec<AudioDevice>) -> (result: Self)
        ensures
            result.wf(),
            is_random_uuid(result.instance_id),
            result.machine.spec_state() is Idle,
            result.machine.session() is None,
            result.sequence == 0,
            result.recording is None,
            !result.has_runtime,
            !result.has_credentials,
            result.capabilities == capabilities,
            result.audio_devices == audio_devices,
    {
        Self::with_instance(fresh_uuid(), capabilities, audio_devices)
    }

    /// With capture and transcription.
    #[must_use]
    pub fn with_runtime(self) -> (result: Self)
        ensures
            result == (SpeakiputService { has_runtime: true, ..self }),
    {
        let mut result = self;
        result.has_runtime = true;
        result
    }

    /// With secure storage for credentials.
    #[must_use]
    pub fn with_credentials(self) -> (result: Self)
        ensures
            result == (SpeakiputService { has_credentials: true, ..self }),
    {
        let mut result = self;
        result.has_credentials = true;
        result
    }

    #[must_use]
    pub fn instance_id(&self) -> (result: Uuid)
        ensures
            result == self.instance_id,
    {
        self.instance_id
    }

    /// Gives an event its number.
    pub fn emit(&mut self, body: EventBody) -> (event: Event)
        ensures
            event.body == body,
            event.sequence == capped_u64(old(self).sequence + 1),
            *final(self) == (SpeakiputService { sequence: event.sequence, ..*old(self) }),
    {
        self.sequence = saturating_sum_u64(self.sequence, 1);
        Event { sequence: self.sequence, body }
    }

    /// Lets a request in by its name: one that is not known is refused, and so is a
    /// recording without a runtime.
    pub fn accept_request(&self, name: &str) -> (result: Result<Route, ProtocolError>)
        ensures
            match route_of(name@) {
                None => result matches Err(error) && plain_error(
                    error,
                    StableErrorCode::Unsupported,
                    "unsupported request "@ + name@,
                    false,
                ),
                Some(found) => if found is RecordingStart && !self.has_runtime {
                    result matches Err(error) && plain_error(
                        error,
                        StableErrorCode::Unavailable,
                        "native recording runtime is unavailable"@,
                        false,
                    )
                } else {
                    result == Ok::<Route, ProtocolError>(found)
                },
            },
            result matches Ok(found) ==> route_name(found) == name@,
            result == Ok::<Route, ProtocolError>(Route::RecordingStart) ==> self.has_runtime,
            result is Err && route_of(name@) is Some ==> !self.has_runtime,
            self.has_runtime ==> (result is Ok <==> route_of(name@) is Some),
    {
        match route(name) {
            None => {
                let mut text = String::from_str("unsupported request ");
                text.append(name);
                Err(protocol_error(StableErrorCode::Unsupported, text, false))
            },
            Some(found) => {
                if found == Route::RecordingStart && !self.has_runtime {
                    Err(
                        protocol_error(
                            StableErrorCode::Unavailable,
                            String::from_str("native recording runtime is unavailable"),
                            false,
                        ),
                    )
                } else {
                    Ok(found)
                }
            },
        }
    }

    /// Greets a client that speaks the protocol.
    pub fn client_hello(&self, hello: &ClientHelloRequest, version: &str) -> (result: Result<
        ClientHelloResponse,
        ProtocolError,
    >)
        ensures
            hello_answer(*self, *hello, version@, result),
    {
        if listed(&hello.supported_versions, PROTOCOL_VERSION) {
            Ok(
                ClientHelloResponse {
                    selected_version: String::from_str(PROTOCOL_VERSION),
                    server: ClientIdentity {
                        name: String::from_str("speakiputd"),
                        version: String::from_str(version),
                    },
                    capabilities: copy_texts(&self.capabilities),
                    limits: ServerLimits { max_frame_bytes: MAX_FRAME_BYTES },
                },
            )
        } else {
            Err(
                protocol_error(
                    StableErrorCode::ProtocolMismatch,
                    String::from_str("client does not support protocol 1.0"),
                    false,
                ),
            )
        }
    }

    /// The state, the active session and the revision of the settings.
    pub fn state_get(&self, stored: Result<RevisionedSettings, StorageError>) -> (result: Result<
        StateSnapshot,
        String,
    >)
        ensures
            state_answer(*self, stored, result),
    {
        match stored {
            Ok(settings) => Ok(
                StateSnapshot {
                    state: self.machine.state(),
                    active_session_id: self.machine.active_session_id(),
                    settings_revision: settings.revision,
                    capabilities: copy_texts(&self.capabilities),
                    health: BackendHealth::Ready,
                },
            ),
            Err(error) => Err(error.message()),
        }
    }

    /// The settings and their revision.
    pub fn settings_get(&self, stored: Result<RevisionedSettings, StorageError>) -> (result: Result<
        SettingsResponse,
        String,
    >)
        ensures
            settings_answer(stored, result),
    {
        match stored {
            Ok(settings) => Ok(
                SettingsResponse { revision: settings.revision, settings: settings.settings },
            ),
            Err(error) => Err(error.message()),
        }
    }

    /// Answers a replacement of the settings and announces one that was made.
    pub fn settings_replaced(&mut self, outcome: Result<RevisionedSettings, StorageError>) -> (
        result: (Result<SettingsResponse, ProtocolError>, Vec<Event>))
        ensures
            replaced_answer(*old(self), *final(self), outcome, result.0, result.1@),
    {
        let mut events: Vec<Event> = Vec::new();
        match outcome {
            Ok(stored) => {
                events.push(self.emit(EventBody::SettingsChanged { revision: stored.revision }));
                (
                    Ok(SettingsResponse { revision: stored.revision, settings: stored.settings }),
                    events,
                )
            },
            Err(StorageError::Conflict { expected, current }) => {
                let error = ProtocolError {
                    code: StableErrorCode::Conflict,
                    message: String::from_str("settings revision is stale"),
                    retryable: true,
                    details: revision_details(expected, current),
                };
                (Err(error), events)
            },
            Err(error) => (Err(storage_protocol_error(&error)), events),
        }
    }

    /// Lets a request on a credential through where credentials can be stored.
    pub fn check_credential_store(&self) -> (result: Result<(), ProtocolError>)
        ensures
            match result {
                Ok(()) => self.has_credentials,
                Err(error) => !self.has_credentials && no_credential_store(error),
            },
    {
        if self.has_credentials {
            Ok(())
        } else {
            Err(
                protocol_error(
                    StableErrorCode::Unsupported,
                    String::from_str("secure credential storage is unavailable"),
                    false,
                ),
            )
        }
    }

    /// The input devices, as the runtime lists them or else as they were given, and the
    /// one that is selected.
    pub fn audio_devices_list(
        &self,
        stored: Result<RevisionedSettings, StorageError>,
        found: Option<Vec<AudioDevice>>,
    ) -> (result: Result<AudioDevicesResponse, String>)
        ensures
            devices_answer(*self, stored, found, result),
    {
        match stored {
            Ok(settings) => {
                let devices = match found {
                    Some(devices) => if self.has_runtime {
                        devices
                    } else {
                        copy_devices(&self.audio_devices)
                    },
                    None => copy_devices(&self.audio_devices),
                };
                Ok(
                    AudioDevicesResponse {
                        devices,
                        selected_id: settings.settings.audio.input_device_id,
                    },
                )
            },
            Err(error) => Err(error.message()),
        }
    }

    /// The backends for transcription and for rewriting.
    pub fn backends_list(&self, model_loaded: bool) -> (result: BackendsResponse)
        ensures
            backends_answer(*self, model_loaded, result),
    {
        let available = self.has_runtime && model_loaded;
        let mut transcription: Vec<BackendChoice> = Vec::new();
        transcription.push(
            BackendChoice {
                id: String::from_str("local-whisper"),
                name: String::from_str("Local Whisper"),
                available,
                unavailable_reason: if available {
                    None
                } else {
                    Some(String::from_str("local Whisper feature is not enabled"))
                },
            },
        );
        let mut post_processing: Vec<BackendChoice> = Vec::new();
        post_processing.push(
            BackendChoice {
                id: String::from_str("openai-compatible"),
                name: String::from_str("OpenAI compatible"),
                available: true,
                unavailable_reason: None,
            },
        );
        BackendsResponse { transcription, post_processing }
    }

    /// One page of the history.
    pub fn history_list(
        &self,
        page: Result<(Vec<HistoryEntry>, Option<String>), StorageError>,
    ) -> (result: Result<HistoryListResponse, String>)
        ensures
            history_answer(page, result),
    {
        match page {
            Ok((entries, next_cursor)) => Ok(HistoryListResponse { entries, next_cursor }),
            Err(error) => Err(error.message()),
        }
    }

    /// Announces that the history is empty, once it is.
    pub fn history_clear(&mut self, outcome: Result<(), StorageError>) -> (result: Result<
        Vec<Event>,
        String,
    >)
        ensures
            cleared_answer(*old(self), *final(self), outcome, result),
    {
        match outcome {
            Ok(()) => {
                let mut events: Vec<Event> = Vec::new();
                events.push(self.emit(EventBody::HistoryCleared));
                Ok(events)
            },
            Err(error) => Err(error.message()),
        }
    }

    fn capability_diagnostic(&self, capability: &str) -> (result: DiagnosticCheck)
        ensures
            capability_check(result, capability@, self.capabilities@),
    {
        if listed(&self.capabilities, capability) {
            diagnostic(capability, "ok", String::from_str("Available"))
        } else {
            diagnostic(
                capability,
                "unavailable",
                String::from_str("Unavailable in the current desktop session"),
            )
        }
    }

    /// What works and what does not. The probe is what a look at the runtime found, where
    /// there is a runtime.
    pub fn diagnostics_get(&self, probe: Option<RuntimeProbe>) -> (result: DiagnosticsResponse)
        ensures
            all_checks(result.checks@, probe, self.capabilities@),
            result.log_path is None,
    {
        let mut checks: Vec<DiagnosticCheck> = Vec::new();
        checks.push(diagnostic("backend", "ok", String::from_str("Backend is ready")));
        match &probe {
            Some(found) => {
                let microphone = match &found.devices {
                    Ok(n) => {
                        if *n > 0 {
                            let mut text = decimal(*n as u64);
                            text.append(" input device(s) available");
                            diagnostic("microphone", "ok", text)
                        } else {
                            diagnostic(
                                "microphone",
                                "error",
                                String::from_str("No input device is available"),
                            )
                        }
                    },
                    Err(reason) => diagnostic("microphone", "error", reason.clone()),
                };
                checks.push(microphone);
                let model = if found.model_loaded {
                    diagnostic(
                        "transcription_model",
                        "ok",
                        String::from_str("Local Whisper model is loaded"),
                    )
                } else {
                    diagnostic(
                        "transcription_model",
                        "error",
                        String::from_str(
                            "Local Whisper model is unavailable; select a valid model file",
                        ),
                    )
                };
                checks.push(model);
            },
            None => {
                checks.push(
                    diagnostic(
                        "native_runtime",
                        "unavailable",
                        String::from_str("Daemon was built without native capture/Whisper support"),
                    ),
                );
            },
        }
        checks.push(self.capability_diagnostic("keyboard_insertion"));
        checks.push(self.capability_diagnostic("clipboard"));
        checks.push(self.capability_diagnostic("global_shortcut"));
        checks.push(self.capability_diagnostic("focus_safe_overlay"));
        checks.push(self.capability_diagnostic("vulkan_acceleration"));
        checks.push(self.capability_diagnostic("credential_store"));
        DiagnosticsResponse { checks, log_path: None }
    }
}

/// A greeting is accepted exactly when the client speaks the one protocol that the backend
/// does, and is then answered with it, with what the backend can do and with its limit.
pub proof fn greetings_agree_on_the_protocol(
    service: SpeakiputService,
    hello: ClientHelloRequest,
    version: Seq<char>,
    result: Result<ClientHelloResponse, ProtocolError>,
)
    requires
        hello_answer(service, hello, version, result),
    ensures
        result is Ok <==> exists|i: int|
            0 <= i < hello.supported_versions@.len() && (#[trigger] hello.supported_versions@[i])@
                == "1.0"@,
        result matches Ok(response) ==> response.selected_version@ == "1.0"@
            && response.capabilities@ == service.capabilities@ && response.limits.max_frame_bytes
            == 1_048_576 && response.server.version@ == version,
        result matches Err(error) ==> error.code is ProtocolMismatch && !error.retryable,
{
    if result is Ok {
        let i = choose|i: int|
            0 <= i < hello.supported_versions@.len() && (#[trigger] hello.supported_versions@[i])@
                == PROTOCOL_VERSION@;
        assert(hello.supported_versions@[i]@ == "1.0"@);
    }
}

/// The devices found are reported where there is a runtime to find them, and otherwise the
/// ones given; the one selected is always that of the settings.
pub proof fn devices_found_are_reported(
    service: SpeakiputService,
    stored: RevisionedSettings,
    found: Vec<AudioDevice>,
    with_found: AudioDevicesResponse,
    without: AudioDevicesResponse,
)
    requires
        devices_answer(service, Ok(stored), Some(found), Ok(with_found)),
        devices_answer(service, Ok(stored), None, Ok(without)),
    ensures
        with_found.devices@ == if service.has_runtime {
            found@
        } else {
            service.audio_devices@
        },
        without.devices@ == service.audio_devices@,
        with_found.selected_id@ == stored.settings.audio.input_device_id@,
        without.selected_id@ == stored.settings.audio.input_device_id@,
{
}

/// Settings that were replaced are announced once, under their revision, and returned; a
/// replacement that failed is not announced, and a stale one is told both revisions.
pub proof fn replacements_are_announced(
    before: SpeakiputService,
    after: SpeakiputService,
    outcome: Result<RevisionedSettings, StorageError>,
    reply: Result<SettingsResponse, ProtocolError>,
    events: Seq<Event>,
)
    requires
        replaced_answer(before, after, outcome, reply, events),
    ensures
        reply is Ok <==> outcome is Ok,
        outcome matches Ok(stored) ==> reply->Ok_0.revision == stored.revision
            && reply->Ok_0.settings == stored.settings && events.len() == 1 && (events[0].body
            matches EventBody::SettingsChanged { revision } && revision == stored.revision),
        outcome is Err ==> events.len() == 0 && after == before,
        outcome matches Err(StorageError::Conflict { expected, current }) ==> reply->Err_0.code
            is Conflict && reply->Err_0.retryable && reply->Err_0.details@.len() == 2
            && reply->Err_0.details@[0].1 == Detail::Number(expected)
            && reply->Err_0.details@[1].1 == Detail::Number(current),
        after.machine == before.machine && after.recording == before.recording,
{
}

/// What the checks say: the microphone is well exactly when a device was found, the model when
/// it is loaded, and a capability when the session has it.
pub proof fn checks_say_what_is_there(
    microphone: DiagnosticCheck,
    devices: Result<usize, String>,
    model: DiagnosticCheck,
    loaded: bool,
    capability: DiagnosticCheck,
    name: Seq<char>,
    capabilities: Seq<String>,
)
    requires
        microphone_check(microphone, devices),
        model_check(model, loaded),
        capability_check(capability, name, capabilities),
    ensures
        microphone.status@ == "ok"@ <==> (devices matches Ok(n) && n >= 1),
        devices matches Err(reason) ==> microphone.message@ == reason@,
        model.status@ == "ok"@ <==> loaded,
        capability.status@ == "ok"@ <==> exists|i: int|
            0 <= i < capabilities.len() && (#[trigger] capabilities[i])@ == name,
        capability.id@ == name,
{
    reveal_strlit("ok");
    reveal_strlit("error");
    reveal_strlit("unavailable");
    assert("ok"@.len() == 2);
    assert("error"@.len() == 5);
    assert("unavailable"@.len() == 11);
}

/// The name of a request.
pub open spec fn route_name(route: Route) -> Seq<char> {
    match route {
        Route::ClientHello => "client.hello"@,
        Route::StateGet => "state.get"@,
        Route::SettingsGet => "settings.get"@,
        Route::SettingsReplace => "settings.replace"@,
        Route::CredentialsPut => "credentials.put"@,
        Route::CredentialsStatus => "credentials.status"@,
        Route::CredentialsDelete => "credentials.delete"@,
        Route::AudioDevicesList => "audio_devices.list"@,
        Route::BackendsList => "backends.list"@,
        Route::HistoryList => "history.list"@,
        Route::HistoryClear => "history.clear"@,
        Route::DiagnosticsGet => "diagnostics.get"@,
        Route::RecordingStart => "recording.start"@,
        Route::RecordingStop => "recording.stop"@,
        Route::OperationCancel => "operation.cancel"@,
    }
}

/// A request is known by its name and by no other; every request has a name by which it is
/// known.
pub proof fn requests_are_known_by_name(name: Seq<char>, route: Route)
    ensures
        route_of(name) matches Some(found) ==> route_name(found) == name,
        route_of(name) is None ==> route_name(route) != name,
{
}

/// Transcription is on offer exactly where there is a model, and says why where there is
/// none; processing the text is always on offer.
pub proof fn transcription_is_offered_with_its_model(
    service: SpeakiputService,
    model_loaded: bool,
    result: BackendsResponse,
)
    requires
        backends_answer(service, model_loaded, result),
    ensures
        forall|i: int|
            0 <= i < result.transcription@.len() ==> (#[trigger] result.transcription@[i]).available
                == (service.has_runtime && model_loaded),
        forall|i: int|
            0 <= i < result.transcription@.len() ==> ((
            #[trigger] result.transcription@[i]).unavailable_reason is None
                <==> result.transcription@[i].available),
        forall|i: int|
            0 <= i < result.post_processing@.len() ==> (
            #[trigger] result.post_processing@[i]).available
                && result.post_processing@[i].unavailable_reason is None,
        result.transcription@.len() > 0,
        result.post_processing@.len() > 0,
{
}

/// Every part that a dictation needs is checked: the backend, the microphone and the model
/// where they can be asked, and each thing that the desktop may lack.
pub proof fn every_part_is_checked(
    checks: Seq<DiagnosticCheck>,
    probe: Option<RuntimeProbe>,
    capabilities: Seq<String>,
    name: Seq<char>,
)
    requires
        all_checks(checks, probe, capabilities),
    ensures
        name == "keyboard_insertion"@ || name == "clipboard"@ || name == "global_shortcut"@ || name
            == "focus_safe_overlay"@ || name == "vulkan_acceleration"@ || name
            == "credential_store"@ ==> exists|i: int|
            0 <= i < checks.len() && capability_check(#[trigger] checks[i], name, capabilities),
        probe matches Some(found) ==> exists|i: int|
            0 <= i < checks.len() && microphone_check(#[trigger] checks[i], found.devices),
        probe matches Some(found) ==> exists|i: int|
            0 <= i < checks.len() && model_check(#[trigger] checks[i], found.model_loaded),
        checks[0].id@ == "backend"@ && checks[0].status@ == "ok"@,
        checks.len() == 1 + 6 + if probe is Some {
            2int
        } else {
            1
        },
{
    let from = if probe is Some {
        3int
    } else {
        2
    };
    if name == "keyboard_insertion"@ {
        assert(capability_check(checks[from], name, capabilities));
    } else if name == "clipboard"@ {
        assert(capability_check(checks[from + 1], name, capabilities));
    } else if name == "global_shortcut"@ {
        assert(capability_check(checks[from + 2], name, capabilities));
    } else if name == "focus_safe_overlay"@ {
        assert(capability_check(checks[from + 3], name, capabilities));
    } else if name == "vulkan_acceleration"@ {
        assert(capability_check(checks[from + 4], name, capabilities));
    } else if name == "credential_store"@ {
        assert(capability_check(checks[from + 5], name, capabilities));
    }
    if let Some(found) = probe {
        assert(microphone_check(checks[1], found.devices));
        assert(model_check(checks[2], found.model_loaded));
    }
}

} // verus!
