//! What the window asks of the backend, and what it makes of the answers.

use vstd::prelude::*;
use vstd::string::*;

use crate::client::ClientError;
use crate::contract::dto::{
    AudioDevicesResponse, BackendsResponse, ClientHelloRequest, ClientHelloResponse,
    ClientIdentity, CredentialPutRequest, DiagnosticsResponse, DictationState, HistoryListRequest,
    HistoryListResponse, RecordingStartRequest, RecordingStartResponse, RecordingStopRequest,
    SettingsReplaceRequest, SettingsResponse, StateSnapshot,
};
use crate::contract::envelope::{Envelope, StableErrorCode, PROTOCOL_VERSION};
use crate::contract::ids::Uuid;
use crate::contract::settings::{settings_problem, Settings};
use crate::gui::view_model::{
    blank_model, event_refused, fits, kind_of, takes_backends, takes_devices, takes_diagnostics, takes_event,
    takes_history, takes_settings, takes_snapshot, unconnected, GuiViewModel, ReceivedEvent,
    ViewModelError,
};
use crate::text::{blank, is_blank};

verus! {

broadcast use vstd::string::group_string_axioms;

#[derive(Clone, PartialEq, Eq, Debug)]
pub enum ControllerError {
    Client(ClientError),
    ViewModel(ViewModelError),
    Encode(String),
    StateChanged,
    InvalidSettings { field: &'static str, message: &'static str },
}

/// The window's model and what it does with it.
#[derive(Debug)]
pub struct GuiController {
    pub model: GuiViewModel,
}

/// What the record button asks for.
#[derive(PartialEq, Eq, Debug)]
pub enum RecordCommand {
    Start(RecordingStartRequest),
    Stop(RecordingStopRequest),
}

/// What saving settings asks for first: to store a secret, with the settings kept until it
/// is stored, or to replace the settings.
#[derive(PartialEq, Eq, Debug)]
pub enum SaveStep {
    StoreCredential { request: CredentialPutRequest, settings: Settings },
    Replace(SettingsReplaceRequest),
}

/// What happens to the window's connection.
#[derive(PartialEq, Eq, Debug)]
pub enum SessionEvent {
    ConnectFailed { reason: String },
    Connected,
    BootstrapFailed { reason: String },
    Bootstrapped,
    CommandDone { result: Result<(), String> },
    EventTaken,
    EventFailed { reason: String },
    /// No event came in time.
    Quiet,
    /// Nobody is left who gives commands.
    Closed,
}

/// What the window's connection does next.
#[derive(Clone, Copy, PartialEq, Eq, Structural, Debug)]
pub enum SessionStep {
    Connect { after_ms: u64 },
    Bootstrap,
    /// Carry out the commands that wait, and then wait for an event.
    Poll { for_ms: u64 },
    Stop,
}

/// The settings that were shown last: of which backend and which revision.
#[derive(Clone, Copy, PartialEq, Eq, Debug)]
pub struct ProjectedSettings {
    pub key: Option<(Option<Uuid>, u64)>,
}

/// The greeting that the window sends.
pub fn hello_request(version: &str) -> (result: ClientHelloRequest)
    ensures
        result.supported_versions@.len() == 1,
        result.supported_versions@[0]@ == PROTOCOL_VERSION@,
        result.client.name@ == "speakiput-gui"@,
        result.client.version@ == version@,
        result.subscriptions@.len() == 1,
        result.subscriptions@[0]@ == "*"@,
{
    let mut supported_versions: Vec<String> = Vec::new();
    supported_versions.push(String::from_str(PROTOCOL_VERSION));
    let mut subscriptions: Vec<String> = Vec::new();
    subscriptions.push(String::from_str("*"));
    ClientHelloRequest {
        supported_versions,
        client: ClientIdentity {
            name: String::from_str("speakiput-gui"),
            version: String::from_str(version),
        },
        subscriptions,
    }
}

/// The history that the window asks for.
pub fn history_request() -> (result: HistoryListRequest)
    ensures
        result.limit == 100,
        result.cursor is None,
{
    HistoryListRequest { limit: 100, cursor: None }
}

/// One request of the window's, and its answer.
#[derive(Clone, Copy, PartialEq, Eq, Structural, Debug)]
pub enum Exchange {
    Hello,
    State,
    Settings,
    AudioDevices,
    Backends,
    History,
    Diagnostics,
}

/// The payload of an answer.
#[derive(PartialEq, Eq, Debug)]
pub enum Answer {
    Hello(ClientHelloResponse),
    State(StateSnapshot),
    Settings(SettingsResponse),
    AudioDevices(AudioDevicesResponse),
    Backends(BackendsResponse),
    History(HistoryListResponse),
    Diagnostics(DiagnosticsResponse),
}

/// The name of the request.
pub open spec fn request_name(exchange: Exchange) -> Seq<char> {
    match exchange {
        Exchange::Hello => "client.hello"@,
        Exchange::State => "state.get"@,
        Exchange::Settings => "settings.get"@,
        Exchange::AudioDevices => "audio_devices.list"@,
        Exchange::Backends => "backends.list"@,
        Exchange::History => "history.list"@,
        Exchange::Diagnostics => "diagnostics.get"@,
    }
}

impl Exchange {
    /// The name of the request.
    pub fn name(self) -> (result: &'static str)
        ensures
            result@ == request_name(self),
    {
        match self {
            Exchange::Hello => "client.hello",
            Exchange::State => "state.get",
            Exchange::Settings => "settings.get",
            Exchange::AudioDevices => "audio_devices.list",
            Exchange::Backends => "backends.list",
            Exchange::History => "history.list",
            Exchange::Diagnostics => "diagnostics.get",
        }
    }
}

/// The payload that was read is that of the exchange's answer.
pub open spec fn answers(exchange: Exchange, payload: Result<Answer, String>) -> bool {
    match payload {
        Ok(Answer::Hello(_)) => exchange is Hello,
        Ok(Answer::State(_)) => exchange is State,
        Ok(Answer::Settings(_)) => exchange is Settings,
        Ok(Answer::AudioDevices(_)) => exchange is AudioDevices,
        Ok(Answer::Backends(_)) => exchange is Backends,
        Ok(Answer::History(_)) => exchange is History,
        Ok(Answer::Diagnostics(_)) => exchange is Diagnostics,
        Err(_) => true,
    }
}

/// The snapshot in an answer.
pub open spec fn snapshot_in(payload: Result<Answer, String>) -> Result<StateSnapshot, String> {
    match payload {
        Ok(answer) => Ok(answer->State_0),
        Err(reason) => Err(reason),
    }
}

/// The settings in an answer.
pub open spec fn settings_in(payload: Result<Answer, String>) -> Result<SettingsResponse, String> {
    match payload {
        Ok(answer) => Ok(answer->Settings_0),
        Err(reason) => Err(reason),
    }
}

/// The devices in an answer.
pub open spec fn devices_in(payload: Result<Answer, String>) -> Result<AudioDevicesResponse, String> {
    match payload {
        Ok(answer) => Ok(answer->AudioDevices_0),
        Err(reason) => Err(reason),
    }
}

/// The backends in an answer.
pub open spec fn backends_in(payload: Result<Answer, String>) -> Result<BackendsResponse, String> {
    match payload {
        Ok(answer) => Ok(answer->Backends_0),
        Err(reason) => Err(reason),
    }
}

/// The page of the history in an answer.
pub open spec fn history_in(payload: Result<Answer, String>) -> Result<HistoryListResponse, String> {
    match payload {
        Ok(answer) => Ok(answer->History_0),
        Err(reason) => Err(reason),
    }
}

/// The checks in an answer.
pub open spec fn diagnostics_in(payload: Result<Answer, String>) -> Result<DiagnosticsResponse, String> {
    match payload {
        Ok(answer) => Ok(answer->Diagnostics_0),
        Err(reason) => Err(reason),
    }
}

/// The result of taking something up, as the controller reports it.
pub open spec fn reported(outcome: Result<(), ViewModelError>) -> Result<(), ControllerError> {
    match outcome {
        Ok(()) => Ok(()),
        Err(error) => Err(ControllerError::ViewModel(error)),
    }
}

/// How an answer is taken up: a greeting's capabilities are kept, and every other answer
/// goes to the model.
pub open spec fn takes_answer(
    before: GuiViewModel,
    after: GuiViewModel,
    exchange: Exchange,
    envelope: Envelope,
    payload: Result<Answer, String>,
    result: Result<(), ControllerError>,
) -> bool {
    match (exchange, payload) {
        (Exchange::Hello, Ok(Answer::Hello(hello))) => result is Ok && after == (GuiViewModel {
            capabilities: hello.capabilities,
            ..before
        }),
        (Exchange::Hello, Err(reason)) => after == before && result == Err::<(), ControllerError>(
            ControllerError::Encode(reason),
        ),
        (Exchange::State, _) => exists|outcome: Result<(), ViewModelError>| #[trigger]
            takes_snapshot(before, after, envelope, snapshot_in(payload), outcome) && result
                == reported(outcome),
        (Exchange::Settings, _) => exists|outcome: Result<(), ViewModelError>| #[trigger]
            takes_settings(before, after, envelope, settings_in(payload), outcome) && result
                == reported(outcome),
        (Exchange::AudioDevices, _) => exists|outcome: Result<(), ViewModelError>| #[trigger]
            takes_devices(before, after, envelope, devices_in(payload), outcome) && result
                == reported(outcome),
        (Exchange::Backends, _) => exists|outcome: Result<(), ViewModelError>| #[trigger]
            takes_backends(before, after, envelope, backends_in(payload), outcome) && result
                == reported(outcome),
        (Exchange::History, _) => exists|outcome: Result<(), ViewModelError>| #[trigger]
            takes_history(before, after, envelope, history_in(payload), outcome) && result
                == reported(outcome),
        (Exchange::Diagnostics, _) => exists|outcome: Result<(), ViewModelError>| #[trigger]
            takes_diagnostics(before, after, envelope, diagnostics_in(payload), outcome) && result
                == reported(outcome),
        _ => false,
    }
}

/// The requests for what surrounds the settings.
pub open spec fn supporting_exchanges() -> Seq<Exchange> {
    seq![Exchange::AudioDevices, Exchange::Backends, Exchange::History, Exchange::Diagnostics]
}

/// The requests that bring the model up to date with the backend.
pub open spec fn snapshot_exchanges() -> Seq<Exchange> {
    seq![Exchange::State, Exchange::Settings]
}

/// The error tells that the backend restarted or that events were missed.
pub open spec fn lost_track(error: ViewModelError) -> bool {
    error is BackendRestarted || error is SequenceGap
}

fn needs_snapshot(error: &ViewModelError) -> (result: bool)
    ensures
        result == lost_track(*error),
{
    matches!(error, ViewModelError::BackendRestarted { .. } | ViewModelError::SequenceGap { .. })
}

/// The backend refused because of a conflict.
pub open spec fn is_conflict(error: ClientError) -> bool {
    error matches ClientError::Protocol(reported) && reported.code is Conflict
}

/// The model with the error about the settings removed.
pub open spec fn without_settings_error(model: GuiViewModel) -> GuiViewModel {
    GuiViewModel { settings_error_field: None, settings_error_message: None, ..model }
}

/// The model with an error about the settings.
pub open spec fn with_settings_error(
    before: GuiViewModel,
    after: GuiViewModel,
    field: Seq<char>,
    message: Seq<char>,
) -> bool {
    &&& after == (GuiViewModel {
        settings_error_field: after.settings_error_field,
        settings_error_message: after.settings_error_message,
        ..before
    })
    &&& after.settings_error_field matches Some(f) && f@ == field
    &&& after.settings_error_message matches Some(m) && m@ == message
}

/// How settings are saved: they are sent, under the revision known, where they are valid;
/// otherwise what is wrong with them is shown, and nothing is sent.
pub open spec fn saves(
    before: GuiViewModel,
    after: GuiViewModel,
    settings: Settings,
    result: Result<SettingsReplaceRequest, ControllerError>,
) -> bool {
    match settings_problem(settings) {
        None => {
            &&& result == Ok::<SettingsReplaceRequest, ControllerError>(
                SettingsReplaceRequest { expected_revision: before.settings_revision, settings },
            )
            &&& after == before
        },
        Some((field, message)) => {
            &&& with_settings_error(before, after, field, message)
            &&& result matches Err(ControllerError::InvalidSettings { field: f, message: m }) && f@
                == field && m@ == message
        },
    }
}

/// The settings name a credential.
pub open spec fn names_credential(settings: Settings) -> bool {
    settings.post_processing.credential_id is Some && !is_blank(
        settings.post_processing.credential_id->0@,
    )
}

/// How saving settings starts: with the secret that was entered along with them, or, without
/// one, with the settings. A secret without a name to store it under is refused.
pub open spec fn starts_saving(
    before: GuiViewModel,
    after: GuiViewModel,
    settings: Settings,
    secret: Option<String>,
    result: Result<SaveStep, ControllerError>,
) -> bool {
    match secret {
        None => match result {
            Ok(SaveStep::Replace(request)) => saves(before, after, settings, Ok(request)),
            Ok(SaveStep::StoreCredential { .. }) => false,
            Err(error) => saves(before, after, settings, Err(error)),
        },
        Some(secret) => if names_credential(settings) {
            &&& result == Ok::<SaveStep, ControllerError>(
                SaveStep::StoreCredential {
                    request: CredentialPutRequest {
                        credential_id: settings.post_processing.credential_id->0,
                        secret,
                    },
                    settings,
                },
            )
            &&& after == before
        } else {
            &&& with_settings_error(
                before,
                after,
                "post_processing.credential_id"@,
                "A credential ID is required when an API key is entered."@,
            )
            &&& result matches Err(ControllerError::InvalidSettings { field, message }) && field@
                == "post_processing.credential_id"@ && message@
                == "is required when an API key is entered"@
        },
    }
}

/// How saving settings goes on once the backend has stored the secret, or has not: only a
/// secret that was stored is followed by the settings.
pub open spec fn goes_on_saving(
    before: GuiViewModel,
    after: GuiViewModel,
    settings: Settings,
    outcome: Result<(), ClientError>,
    result: Result<SettingsReplaceRequest, ControllerError>,
) -> bool {
    match outcome {
        Ok(()) => saves(before, after, settings, result),
        Err(error) => after == before && result == Err::<SettingsReplaceRequest, ControllerError>(
            ControllerError::Client(error),
        ),
    }
}

fn report(outcome: Result<(), ViewModelError>) -> (result: Result<(), ControllerError>)
    ensures
        result == reported(outcome),
{
    match outcome {
        Ok(()) => Ok(()),
        Err(error) => Err(ControllerError::ViewModel(error)),
    }
}

impl GuiController {
    /// A controller that knows nothing of the backend.
    #[must_use]
    pub fn new() -> (result: Self)
        ensures
            blank_model(result.model),
    {
        Self { model: GuiViewModel::default() }
    }

    /// What is shown while the backend cannot be reached.
    pub fn unavailable(reason: &str) -> (result: GuiViewModel)
        ensures
            result.error matches Some(error) && error@ == "Backend unavailable: "@ + reason@,
            unconnected(result),
    {
        let mut text = String::from_str("Backend unavailable: ");
        text.append(reason);
        let mut model = GuiViewModel::default();
        model.error = Some(text);
        model
    }

    /// What the window asks for when it connects: it greets, learns the state and the
    /// settings, and then what surrounds them.
    pub fn bootstrap() -> (result: Vec<Exchange>)
        ensures
            result@ == seq![Exchange::Hello] + snapshot_exchanges() + supporting_exchanges(),
    {
        let mut exchanges: Vec<Exchange> = Vec::new();
        exchanges.push(Exchange::Hello);
        exchanges.push(Exchange::State);
        exchanges.push(Exchange::Settings);
        let mut rest = Self::refresh_supporting_data();
        exchanges.append(&mut rest);
        assert(exchanges@ =~= seq![Exchange::Hello] + snapshot_exchanges()
            + supporting_exchanges());
        exchanges
    }

    /// What the window asks for to renew what surrounds the settings.
    pub fn refresh_supporting_data() -> (result: Vec<Exchange>)
        ensures
            result@ == supporting_exchanges(),
    {
        let mut exchanges: Vec<Exchange> = Vec::new();
        exchanges.push(Exchange::AudioDevices);
        exchanges.push(Exchange::Backends);
        exchanges.push(Exchange::History);
        exchanges.push(Exchange::Diagnostics);
        assert(exchanges@ =~= supporting_exchanges());
        exchanges
    }

    /// Takes up an answer.
    pub fn take_answer(
        &mut self,
        exchange: Exchange,
        envelope: &Envelope,
        payload: Result<Answer, String>,
    ) -> (result: Result<(), ControllerError>)
        requires
            answers(exchange, payload),
        ensures
            takes_answer(old(self).model, final(self).model, exchange, *envelope, payload, result),
    {
        let answer = match payload {
            Ok(answer) => answer,
            Err(reason) => {
                return self.take_unreadable(exchange, envelope, reason);
            },
        };
        let ghost before = self.model;
        match answer {
            Answer::Hello(hello) => {
                self.model.capabilities = hello.capabilities;
                Ok(())
            },
            Answer::State(snapshot) => {
                let outcome = self.model.apply_snapshot(envelope, Ok(snapshot));
                assert(takes_snapshot(before, self.model, *envelope, Ok(snapshot), outcome));
                report(outcome)
            },
            Answer::Settings(settings) => {
                let outcome = self.model.apply_settings(envelope, Ok(settings));
                assert(takes_settings(before, self.model, *envelope, Ok(settings), outcome));
                report(outcome)
            },
            Answer::AudioDevices(devices) => {
                let outcome = self.model.apply_audio_devices(envelope, Ok(devices));
                assert(takes_devices(before, self.model, *envelope, Ok(devices), outcome));
                report(outcome)
            },
            Answer::Backends(backends) => {
                let outcome = self.model.apply_backends(envelope, Ok(backends));
                assert(takes_backends(before, self.model, *envelope, Ok(backends), outcome));
                report(outcome)
            },
            Answer::History(history) => {
                let outcome = self.model.apply_history(envelope, Ok(history));
                assert(takes_history(before, self.model, *envelope, Ok(history), outcome));
                report(outcome)
            },
            Answer::Diagnostics(diagnostics) => {
                let outcome = self.model.apply_diagnostics(envelope, Ok(diagnostics));
                assert(takes_diagnostics(before, self.model, *envelope, Ok(diagnostics), outcome));
                report(outcome)
            },
        }
    }

    /// Takes up an answer whose payload cannot be read.
    fn take_unreadable(
        &mut self,
        exchange: Exchange,
        envelope: &Envelope,
        reason: String,
    ) -> (result: Result<(), ControllerError>)
        ensures
            takes_answer(
                old(self).model,
                final(self).model,
                exchange,
                *envelope,
                Err(reason),
                result,
            ),
    {
        let ghost before = self.model;
        match exchange {
            Exchange::Hello => Err(ControllerError::Encode(reason)),
            Exchange::State => {
                let outcome = self.model.apply_snapshot(envelope, Err(reason));
                assert(takes_snapshot(before, self.model, *envelope, Err(reason), outcome));
                report(outcome)
            },
            Exchange::Settings => {
                let outcome = self.model.apply_settings(envelope, Err(reason));
                assert(takes_settings(before, self.model, *envelope, Err(reason), outcome));
                report(outcome)
            },
            Exchange::AudioDevices => {
                let outcome = self.model.apply_audio_devices(envelope, Err(reason));
                assert(takes_devices(before, self.model, *envelope, Err(reason), outcome));
                report(outcome)
            },
            Exchange::Backends => {
                let outcome = self.model.apply_backends(envelope, Err(reason));
                assert(takes_backends(before, self.model, *envelope, Err(reason), outcome));
                report(outcome)
            },
            Exchange::History => {
                let outcome = self.model.apply_history(envelope, Err(reason));
                assert(takes_history(before, self.model, *envelope, Err(reason), outcome));
                report(outcome)
            },
            Exchange::Diagnostics => {
                let outcome = self.model.apply_diagnostics(envelope, Err(reason));
                assert(takes_diagnostics(before, self.model, *envelope, Err(reason), outcome));
                report(outcome)
            },
        }
    }

    /// Takes up an event, and says what is to be asked for then: the state and the settings
    /// where the backend restarted or events were missed, and otherwise nothing.
    pub fn next_event(
        &mut self,
        envelope: &Envelope,
        payload: Result<ReceivedEvent, String>,
    ) -> (result: Result<Vec<Exchange>, ControllerError>)
        requires
            fits(kind_of(envelope.name@), payload),
        ensures
            exists|outcome: Result<(), ViewModelError>| #[trigger]
                takes_event(old(self).model, final(self).model, *envelope, payload, outcome)
                    && match outcome {
                    Ok(()) => result matches Ok(exchanges) && exchanges@.len() == 0,
                    Err(error) => if lost_track(error) {
                        result matches Ok(exchanges) && exchanges@ == snapshot_exchanges()
                    } else {
                        result == Err::<Vec<Exchange>, ControllerError>(
                            ControllerError::ViewModel(error),
                        )
                    },
                },
    {
        let ghost given = payload;
        let outcome = self.model.apply_event(envelope, payload);
        assert(takes_event(old(self).model, self.model, *envelope, given, outcome));
        match outcome {
            Ok(()) => Ok(Vec::new()),
            Err(error) => {
                if needs_snapshot(&error) {
                    let mut exchanges: Vec<Exchange> = Vec::new();
                    exchanges.push(Exchange::State);
                    exchanges.push(Exchange::Settings);
                    assert(exchanges@ =~= snapshot_exchanges());
                    Ok(exchanges)
                } else {
                    Err(ControllerError::ViewModel(error))
                }
            },
        }
    }

    /// What the record button asks for: to start in the language of the settings when idle,
    /// to stop the active session when recording, and otherwise nothing.
    pub fn start_or_stop(&self) -> (result: Result<RecordCommand, ControllerError>)
        ensures
            match result {
                Ok(RecordCommand::Start(request)) => self.model.state is Idle && request.language
                    == Some(self.model.settings.general.language),
                Ok(RecordCommand::Stop(request)) => self.model.state is Recording
                    && self.model.active_session_id == Some(request.session_id),
                Err(error) => {
                    &&& error is StateChanged
                    &&& !(self.model.state is Idle)
                    &&& !(self.model.state is Recording && self.model.active_session_id is Some)
                },
            },
            self.model.state is Idle ==> result matches Ok(RecordCommand::Start(_)),
            self.model.state is Recording && self.model.active_session_id is Some
                ==> result matches Ok(RecordCommand::Stop(_)),
            result is Ok ==> self.model.state is Idle || self.model.state is Recording,
    {
        if self.model.state == DictationState::Idle {
            return Ok(
                RecordCommand::Start(
                    RecordingStartRequest {
                        language: Some(self.model.settings.general.language.clone()),
                    },
                ),
            );
        }
        if self.model.state == DictationState::Recording {
            if let Some(session_id) = self.model.active_session_id {
                return Ok(RecordCommand::Stop(RecordingStopRequest { session_id }));
            }
        }
        Err(ControllerError::StateChanged)
    }

    /// Takes up that a recording was started.
    pub fn started(&mut self, response: RecordingStartResponse)
        ensures
            final(self).model == (GuiViewModel {
                active_session_id: Some(response.session_id),
                state: response.state,
                ..old(self).model
            }),
    {
        self.model.active_session_id = Some(response.session_id);
        self.model.state = response.state;
    }

    /// The request that saves settings, if they are valid; otherwise what is wrong with them
    /// is shown and nothing is sent.
    pub fn save_settings(&mut self, settings: Settings) -> (result: Result<
        SettingsReplaceRequest,
        ControllerError,
    >)
        ensures
            saves(old(self).model, final(self).model, settings, result),
    {
        match settings.validate() {
            Ok(()) => Ok(
                SettingsReplaceRequest {
                    expected_revision: self.model.settings_revision,
                    settings,
                },
            ),
            Err(error) => {
                self.model.settings_error_field = Some(String::from_str(error.field));
                self.model.settings_error_message = Some(String::from_str(error.message));
                Err(
                    ControllerError::InvalidSettings {
                        field: error.field,
                        message: error.message,
                    },
                )
            },
        }
    }

    /// Takes up that the backend did not save the settings: after a conflict the user is
    /// told to reload.
    pub fn save_failed(&mut self, error: &ClientError)
        ensures
            is_conflict(*error) ==> with_settings_error(
                old(self).model,
                final(self).model,
                "settings"@,
                "Settings changed in another process. Reopen Settings to reload before saving."@,
            ),
            !is_conflict(*error) ==> *final(self) == *old(self),
    {
        let conflict = match error {
            ClientError::Protocol(reported) => reported.code == StableErrorCode::Conflict,
            _ => false,
        };
        if conflict {
            self.model.settings_error_field = Some(String::from_str("settings"));
            self.model.settings_error_message = Some(
                String::from_str(
                    "Settings changed in another process. Reopen Settings to reload before saving.",
                ),
            );
        }
    }

    /// Takes up settings that were saved or loaded again, and removes the error about them.
    pub fn reload_settings(
        &mut self,
        envelope: &Envelope,
        payload: Result<SettingsResponse, String>,
    ) -> (result: Result<(), ControllerError>)
        ensures
            exists|outcome: Result<(), ViewModelError>, loaded: GuiViewModel| #[trigger]
                takes_settings(old(self).model, loaded, *envelope, payload, outcome)
                    && match outcome {
                    Ok(()) => result is Ok && final(self).model == without_settings_error(loaded),
                    Err(error) => result == Err::<(), ControllerError>(
                        ControllerError::ViewModel(error),
                    ) && final(self).model == loaded,
                },
    {
        let ghost given = payload;
        let outcome = self.model.apply_settings(envelope, payload);
        assert(takes_settings(old(self).model, self.model, *envelope, given, outcome));
        match outcome {
            Ok(()) => {
                self.model.settings_error_field = None;
                self.model.settings_error_message = None;
                Ok(())
            },
            Err(error) => Err(ControllerError::ViewModel(error)),
        }
    }

    /// Starts saving settings along with a secret that was entered: the secret is stored
    /// first, under the name that the settings give it.
    pub fn save_settings_with_credential(
        &mut self,
        settings: Settings,
        secret: Option<String>,
    ) -> (result: Result<SaveStep, ControllerError>)
        ensures
            starts_saving(old(self).model, final(self).model, settings, secret, result),
    {
        let secret = match secret {
            Some(secret) => secret,
            None => {
                return match self.save_settings(settings) {
                    Ok(request) => Ok(SaveStep::Replace(request)),
                    Err(error) => Err(error),
                };
            },
        };
        if let Some(credential_id) = &settings.post_processing.credential_id {
            if !blank(credential_id.as_str()) {
                let request = CredentialPutRequest {
                    credential_id: credential_id.clone(),
                    secret,
                };
                return Ok(SaveStep::StoreCredential { request, settings });
            }
        }
        self.model.settings_error_field = Some(String::from_str("post_processing.credential_id"));
        self.model.settings_error_message = Some(
            String::from_str("A credential ID is required when an API key is entered."),
        );
        Err(
            ControllerError::InvalidSettings {
                field: "post_processing.credential_id",
                message: "is required when an API key is entered",
            },
        )
    }

    /// Goes on saving settings once the backend has stored the secret, or has not.
    pub fn credential_stored(&mut self, settings: Settings, outcome: Result<(), ClientError>) -> (
        result: Result<SettingsReplaceRequest, ControllerError>)
        ensures
            goes_on_saving(old(self).model, final(self).model, settings, outcome, result),
    {
        match outcome {
            Ok(()) => self.save_settings(settings),
            Err(error) => Err(ControllerError::Client(error)),
        }
    }

    /// Empties the history that is shown, once the backend has cleared its own.
    pub fn clear_history(&mut self)
        ensures
            final(self).model == (GuiViewModel {
                history: final(self).model.history,
                history_next_cursor: None,
                ..old(self).model
            }),
            final(self).model.history@.len() == 0,
    {
        self.model.history = Vec::new();
        self.model.history_next_cursor = None;
    }
}

impl ProjectedSettings {
    /// Nothing shown yet.
    pub fn new() -> (result: Self)
        ensures
            result.key is None,
    {
        Self { key: None }
    }

    /// Whether the settings of a model are to be shown: those of another backend or another
    /// revision than shown last. The user's entries are not overwritten otherwise.
    pub fn shows_anew(&mut self, model: &GuiViewModel) -> (result: bool)
        ensures
            result == (old(self).key != Some((model.instance_id, model.settings_revision))),
            final(self).key == Some((model.instance_id, model.settings_revision)),
    {
        let same = match self.key {
            Some((instance, revision)) => {
                let same_instance = match (instance, model.instance_id) {
                    (Some(a), Some(b)) => a == b,
                    (None, None) => true,
                    _ => false,
                };
                same_instance && revision == model.settings_revision
            },
            None => false,
        };
        self.key = Some((model.instance_id, model.settings_revision));
        !same
    }
}

impl ControllerError {
    /// What the error says to a reader, where it does not lie with the connection.
    pub fn message(&self) -> (result: Option<String>)
        ensures
            match *self {
                ControllerError::Client(_) => result is None,
                ControllerError::ViewModel(error) => result is Some && result->0@
                    == crate::gui::view_model::view_error_text(error),
                ControllerError::Encode(reason) => result is Some && result->0@
                    == "failed to encode request payload: "@ + reason@,
                ControllerError::StateChanged => result is Some && result->0@
                    == "recording state changed before the command could be sent"@,
                ControllerError::InvalidSettings { field, message } => result is Some && result->0@
                    == "settings are invalid at "@ + field@ + ": "@ + message@,
            },
    {
        match self {
            ControllerError::Client(_) => None,
            ControllerError::ViewModel(error) => Some(error.message()),
            ControllerError::Encode(reason) => {
                let mut text = String::from_str("failed to encode request payload: ");
                text.append(reason.as_str());
                Some(text)
            },
            ControllerError::StateChanged => Some(
                String::from_str("recording state changed before the command could be sent"),
            ),
            ControllerError::InvalidSettings { field, message } => {
                let mut text = String::from_str("settings are invalid at ");
                text.append(field);
                text.append(": ");
                text.append(message);
                Some(text)
            },
        }
    }
}

// ---------------------------------------------------------------------------
// The connection
// ---------------------------------------------------------------------------

/// How the connection goes on. A backend that cannot be reached, or whose state cannot be
/// learnt, is tried again after a second, and one whose events break off sooner; a command
/// that fails keeps the connection. What went wrong is shown. A new connection starts with
/// nothing known.
pub open spec fn session_goes(
    before: GuiViewModel,
    after: GuiViewModel,
    event: SessionEvent,
    step: SessionStep,
) -> bool {
    match event {
        SessionEvent::ConnectFailed { reason } => {
            &&& step == (SessionStep::Connect { after_ms: 1000 })
            &&& unconnected(after)
            &&& after.error matches Some(error) && error@ == "Backend unavailable: "@ + reason@
        },
        SessionEvent::Connected => step == SessionStep::Bootstrap && blank_model(after),
        SessionEvent::BootstrapFailed { reason } => step == (SessionStep::Connect {
            after_ms: 1000,
        }) && after == (GuiViewModel { error: Some(reason), ..before }),
        SessionEvent::EventFailed { reason } => step == (SessionStep::Connect { after_ms: 400 })
            && after == (GuiViewModel { error: Some(reason), ..before }),
        SessionEvent::CommandDone { result: Err(reason) } => step == (SessionStep::Poll {
            for_ms: 100,
        }) && after == (GuiViewModel { error: Some(reason), ..before }),
        SessionEvent::Closed => step == SessionStep::Stop && after == before,
        _ => step == (SessionStep::Poll { for_ms: 100 }) && after == before,
    }
}

/// Decides how the connection goes on after an event, and shows what went wrong.
pub fn session_step(model: &mut GuiViewModel, event: SessionEvent) -> (step: SessionStep)
    ensures
        session_goes(*old(model), *final(model), event, step),
{
    match event {
        SessionEvent::ConnectFailed { reason } => {
            *model = GuiController::unavailable(reason.as_str());
            SessionStep::Connect { after_ms: 1000 }
        },
        SessionEvent::Connected => {
            *model = GuiViewModel::default();
            SessionStep::Bootstrap
        },
        SessionEvent::BootstrapFailed { reason } => {
            model.error = Some(reason);
            SessionStep::Connect { after_ms: 1000 }
        },
        SessionEvent::EventFailed { reason } => {
            model.error = Some(reason);
            SessionStep::Connect { after_ms: 400 }
        },
        SessionEvent::CommandDone { result: Err(reason) } => {
            model.error = Some(reason);
            SessionStep::Poll { for_ms: 100 }
        },
        SessionEvent::Closed => SessionStep::Stop,
        SessionEvent::Bootstrapped
        | SessionEvent::CommandDone { result: Ok(()) }
        | SessionEvent::EventTaken
        | SessionEvent::Quiet => SessionStep::Poll { for_ms: 100 },
    }
}

/// The window goes on until it is closed: whatever fails, it reconnects or keeps polling.
pub proof fn only_closing_ends_the_session(
    before: GuiViewModel,
    after: GuiViewModel,
    event: SessionEvent,
    step: SessionStep,
)
    requires
        session_goes(before, after, event, step),
    ensures
        step is Stop <==> event is Closed,
        step is Connect <==> (event is ConnectFailed || event is BootstrapFailed
            || event is EventFailed),
{
}

/// A window that lost its connection forgets the old instance's numbers once it has
/// reconnected, so that the first event of whatever instance it finds is not refused.
pub proof fn reconnecting_starts_afresh(
    before: GuiViewModel,
    after: GuiViewModel,
    step: SessionStep,
    first: Envelope,
)
    requires
        session_goes(before, after, SessionEvent::Connected, step),
        first.kind is Event,
        first.instance_id is Some,
        first.sequence is Some,
    ensures
        event_refused(after, first) is None,
{
}

/// Settings are sent along with a secret only once the secret was stored: saving starts
/// with the secret, and goes on with the settings as they were given and the revision known
/// exactly where the backend stored it and they are valid.
pub proof fn settings_follow_the_stored_secret(
    before: GuiViewModel,
    middle: GuiViewModel,
    after: GuiViewModel,
    settings: Settings,
    secret: String,
    first: Result<SaveStep, ControllerError>,
    outcome: Result<(), ClientError>,
    second: Result<SettingsReplaceRequest, ControllerError>,
)
    requires
        names_credential(settings),
        starts_saving(before, middle, settings, Some(secret), first),
        goes_on_saving(middle, after, settings, outcome, second),
    ensures
        first == Ok::<SaveStep, ControllerError>(
            SaveStep::StoreCredential {
                request: CredentialPutRequest {
                    credential_id: settings.post_processing.credential_id->0,
                    secret,
                },
                settings,
            },
        ),
        second is Ok <==> outcome is Ok && settings_problem(settings) is None,
        second matches Ok(request) ==> request == (SettingsReplaceRequest {
            expected_revision: before.settings_revision,
            settings,
        }),
{
}

/// An answer under the name of its request is taken wherever it can be read.
pub proof fn answers_to_requests_are_taken(
    before: GuiViewModel,
    after: GuiViewModel,
    exchange: Exchange,
    envelope: Envelope,
    payload: Result<Answer, String>,
    result: Result<(), ControllerError>,
)
    requires
        answers(exchange, payload),
        envelope.kind is Response,
        envelope.name@ == request_name(exchange),
        takes_answer(before, after, exchange, envelope, payload, result),
    ensures
        result is Ok <==> payload is Ok,
        result is Err ==> after == before,
{
}

/// Whatever fails is shown, and the connection is tried again after a while, sooner after
/// events were lost than where there was no backend; a command that fails ends nothing.
pub proof fn failures_are_shown_and_tried_again(
    before: GuiViewModel,
    after: GuiViewModel,
    event: SessionEvent,
    step: SessionStep,
)
    requires
        session_goes(before, after, event, step),
    ensures
        event is ConnectFailed || event is BootstrapFailed ==> step == (SessionStep::Connect {
            after_ms: 1000,
        }),
        event is EventFailed ==> step == (SessionStep::Connect { after_ms: 400 }),
        event is ConnectFailed || event is BootstrapFailed || event is EventFailed
            ==> after.error is Some,
        event matches SessionEvent::BootstrapFailed { reason } ==> after.error == Some(reason)
            && after.state == before.state && after.settings == before.settings,
        event matches SessionEvent::EventFailed { reason } ==> after.error == Some(reason)
            && after.state == before.state && after.settings == before.settings,
        event matches SessionEvent::CommandDone { result: Err(reason) } ==> after.error == Some(
            reason,
        ) && step is Poll && after.state == before.state && after.settings == before.settings,
        event matches SessionEvent::CommandDone { result: Ok(_) } ==> after == before
            && step is Poll,
        event is Connected ==> step is Bootstrap && after.error is None && after.state is Starting,
{
}

/// Settings are sent exactly if they are valid, with the revision that is known; those that
/// are not sent leave the field that is wrong, and why.
pub proof fn only_valid_settings_are_sent(
    before: GuiViewModel,
    after: GuiViewModel,
    settings: Settings,
    result: Result<SettingsReplaceRequest, ControllerError>,
)
    requires
        saves(before, after, settings, result),
    ensures
        result is Ok <==> crate::contract::settings::settings_valid(settings),
        result matches Ok(request) ==> request.settings == settings && request.expected_revision
            == before.settings_revision,
        result is Err ==> after.settings_error_field is Some && after.settings_error_message is Some,
        after.settings == before.settings,
        after.settings_revision == before.settings_revision,
        after.error == before.error,
        after.state == before.state,
{
}

/// A secret is stored before anything else, under the name that the settings give it; without
/// a name it goes nowhere, and without a secret the settings are sent at once.
pub proof fn secrets_are_stored_first(
    before: GuiViewModel,
    after: GuiViewModel,
    settings: Settings,
    secret: Option<String>,
    result: Result<SaveStep, ControllerError>,
)
    requires
        starts_saving(before, after, settings, secret, result),
    ensures
        secret is None ==> !(result matches Ok(SaveStep::StoreCredential { .. })),
        secret is Some ==> !(result matches Ok(SaveStep::Replace(_))),
        secret is Some ==> (result is Ok <==> settings.post_processing.credential_id is Some
            && !crate::text::all_white_space(settings.post_processing.credential_id->0@)),
        result matches Ok(SaveStep::StoreCredential { request, settings: kept }) ==> {
            &&& Some(request.credential_id) == settings.post_processing.credential_id
            &&& Some(request.secret) == secret
            &&& kept == settings
        },
        secret is None && result is Err ==> !crate::contract::settings::settings_valid(settings),
{
    if let Some(id) = settings.post_processing.credential_id {
        crate::text::blank_means_white_space(id@);
    }
}

/// Everything that the window shows is asked for, each thing once.
pub proof fn everything_is_asked_for_once(exchange: Exchange)
    ensures
        exchange is Hello || snapshot_exchanges().contains(exchange)
            || supporting_exchanges().contains(exchange),
        !(snapshot_exchanges().contains(exchange) && supporting_exchanges().contains(exchange)),
        snapshot_exchanges().no_duplicates() && supporting_exchanges().no_duplicates(),
        !snapshot_exchanges().contains(Exchange::Hello) && !supporting_exchanges().contains(
            Exchange::Hello,
        ),
{
    let first = snapshot_exchanges();
    let rest = supporting_exchanges();
    assert(first[0] is State && first[1] is Settings);
    assert(rest[0] is AudioDevices && rest[1] is Backends && rest[2] is History
        && rest[3] is Diagnostics);
}

/// The state is read anew exactly where an event was missed or the backend was another one,
/// not where an event could not be read.
pub proof fn missed_events_ask_for_the_state(model: GuiViewModel, e: Envelope, reason: String)
    requires
        e.kind is Event,
        e.instance_id is Some,
        e.sequence is Some,
    ensures
        event_refused(model, e) matches Some(error) ==> lost_track(error),
        !lost_track(ViewModelError::Payload(reason)),
        !lost_track(ViewModelError::UnexpectedMessage(reason)),
{
}

/// A save failed for a conflict exactly if the backend told of one: that the settings were
/// replaced meanwhile is told so, and no other failure of the storage is.
pub proof fn stale_settings_are_told_as_conflicts(
    reported: crate::contract::envelope::ProtocolError,
    error: crate::storage::StorageError,
    other: ClientError,
)
    requires
        crate::service::events::reports_storage_error(reported, error),
    ensures
        is_conflict(ClientError::Protocol(reported)) <==> error is Conflict,
        !(other is Protocol) ==> !is_conflict(other),
{
}

} // verus!
