//! The messages' payloads.

use vstd::prelude::*;

use crate::contract::ids::Uuid;
use crate::contract::settings::Settings;

verus! {

#[derive(Clone, PartialEq, Eq, Debug)]
pub struct ClientIdentity {
    pub name: String,
    pub version: String,
}

#[derive(Clone, PartialEq, Eq, Debug)]
pub struct ClientHelloRequest {
    pub supported_versions: Vec<String>,
    pub client: ClientIdentity,
    pub subscriptions: Vec<String>,
}

#[derive(Clone, PartialEq, Eq, Debug)]
pub struct ServerLimits {
    pub max_frame_bytes: usize,
}

#[derive(Clone, PartialEq, Eq, Debug)]
pub struct ClientHelloResponse {
    pub selected_version: String,
    pub server: ClientIdentity,
    pub capabilities: Vec<String>,
    pub limits: ServerLimits,
}

/// Where the backend is in a dictation.
#[derive(Clone, Copy, PartialEq, Eq, Structural, Debug)]
pub enum DictationState {
    Starting,
    Idle,
    Recording,
    Transcribing,
    PostProcessing,
    Injecting,
    Error,
    ShuttingDown,
}

/// The states that may follow a state.
pub open spec fn may_follow(current: DictationState, next: DictationState) -> bool {
    match current {
        DictationState::Starting => next is Idle || next is Error,
        DictationState::Idle => next is Recording || next is ShuttingDown,
        DictationState::Recording => next is Transcribing || next is Idle || next is Error,
        DictationState::Transcribing => next is PostProcessing || next is Injecting || next is Idle
            || next is Error,
        DictationState::PostProcessing => next is Injecting || next is Idle || next is Error,
        DictationState::Injecting => next is Idle || next is Error,
        DictationState::Error => next is Idle || next is ShuttingDown,
        DictationState::ShuttingDown => false,
    }
}

/// The name of a state.
pub open spec fn state_name(state: DictationState) -> Seq<char> {
    match state {
        DictationState::Starting => "Starting"@,
        DictationState::Idle => "Idle"@,
        DictationState::Recording => "Recording"@,
        DictationState::Transcribing => "Transcribing"@,
        DictationState::PostProcessing => "PostProcessing"@,
        DictationState::Injecting => "Injecting"@,
        DictationState::Error => "Error"@,
        DictationState::ShuttingDown => "ShuttingDown"@,
    }
}

impl DictationState {
    /// The name of the state.
    pub fn label(self) -> (result: &'static str)
        ensures
            result@ == state_name(self),
    {
        match self {
            DictationState::Starting => "Starting",
            DictationState::Idle => "Idle",
            DictationState::Recording => "Recording",
            DictationState::Transcribing => "Transcribing",
            DictationState::PostProcessing => "PostProcessing",
            DictationState::Injecting => "Injecting",
            DictationState::Error => "Error",
            DictationState::ShuttingDown => "ShuttingDown",
        }
    }

    /// Whether the backend may go from this state to another.
    #[must_use]
    pub fn can_transition_to(self, next: Self) -> (result: bool)
        ensures
            result == may_follow(self, next),
    {
        match self {
            DictationState::Starting => matches!(next, DictationState::Idle | DictationState::Error),
            DictationState::Idle => {
                matches!(next, DictationState::Recording | DictationState::ShuttingDown)
            },
            DictationState::Recording => {
                matches!(
                    next,
                    DictationState::Transcribing | DictationState::Idle | DictationState::Error
                )
            },
            DictationState::Transcribing => {
                matches!(
                    next,
                    DictationState::PostProcessing | DictationState::Injecting
                        | DictationState::Idle | DictationState::Error
                )
            },
            DictationState::PostProcessing => {
                matches!(
                    next,
                    DictationState::Injecting | DictationState::Idle | DictationState::Error
                )
            },
            DictationState::Injecting => {
                matches!(next, DictationState::Idle | DictationState::Error)
            },
            DictationState::Error => {
                matches!(next, DictationState::Idle | DictationState::ShuttingDown)
            },
            DictationState::ShuttingDown => false,
        }
    }
}

#[derive(Clone, Copy, PartialEq, Eq, Structural, Debug)]
pub enum BackendHealth {
    Starting,
    Ready,
    Degraded,
    Unavailable,
}

#[derive(Clone, PartialEq, Eq, Debug)]
pub struct StateSnapshot {
    pub state: DictationState,
    pub active_session_id: Option<Uuid>,
    pub settings_revision: u64,
    pub capabilities: Vec<String>,
    pub health: BackendHealth,
}

#[derive(Clone, PartialEq, Eq, Debug)]
pub struct StateGetRequest {}

#[derive(Clone, PartialEq, Eq, Debug)]
pub struct RecordingStartRequest {
    pub language: Option<String>,
}

#[derive(Clone, Copy, PartialEq, Eq, Structural, Debug)]
pub struct RecordingStartResponse {
    pub session_id: Uuid,
    pub state: DictationState,
}

#[derive(Clone, Copy, PartialEq, Eq, Structural, Debug)]
pub struct RecordingStopRequest {
    pub session_id: Uuid,
}

#[derive(Clone, Copy, PartialEq, Eq, Structural, Debug)]
pub struct RecordingStopResponse {
    pub session_id: Uuid,
    pub accepted: bool,
}

#[derive(Clone, Copy, PartialEq, Eq, Debug)]
pub struct OperationCancelRequest {
    pub session_id: Option<Uuid>,
}

#[derive(Clone, Copy, PartialEq, Eq, Structural, Debug)]
pub struct AcceptedResponse {
    pub accepted: bool,
}

#[derive(Clone, Copy, PartialEq, Eq, Debug)]
pub struct StateChangedEvent {
    pub previous: DictationState,
    pub current: DictationState,
    pub session_id: Option<Uuid>,
}

/// A microphone level. The level is a single-precision number, held by its IEEE 754 bits.
#[derive(Clone, Copy, PartialEq, Eq, Structural, Debug)]
pub struct RecordingLevelEvent {
    pub session_id: Uuid,
    pub level_bits: u32,
}

#[derive(Clone, PartialEq, Eq, Debug)]
pub struct TranscriptPartialEvent {
    pub session_id: Uuid,
    pub text: String,
}

#[derive(Clone, PartialEq, Eq, Debug)]
pub struct SessionFailedEvent {
    pub session_id: Uuid,
    pub code: String,
    pub message: String,
    pub retryable: bool,
}

#[derive(Clone, Copy, PartialEq, Eq, Structural, Debug)]
pub enum InsertionStatus {
    Inserted,
    Clipboard,
    Skipped,
    Failed,
}

#[derive(Clone, PartialEq, Eq, Debug)]
pub struct InsertionOutcome {
    pub status: InsertionStatus,
    pub method: String,
}

#[derive(Clone, PartialEq, Eq, Debug)]
pub struct TranscriptFinalEvent {
    pub session_id: Uuid,
    pub raw_text: String,
    pub processed_text: String,
    pub rewritten_text: Option<String>,
    pub output_text: String,
    pub post_processed: bool,
    pub prompt_rewritten: bool,
    pub insertion: InsertionOutcome,
    pub transcription_backend: String,
    pub language: String,
    pub duration_ms: u64,
}

#[derive(Clone, PartialEq, Eq, Debug)]
pub struct SettingsGetRequest {}

#[derive(Clone, PartialEq, Eq, Debug)]
pub struct SettingsResponse {
    pub revision: u64,
    pub settings: Settings,
}

#[derive(Clone, PartialEq, Eq, Debug)]
pub struct SettingsReplaceRequest {
    pub expected_revision: u64,
    pub settings: Settings,
}

#[derive(Clone, PartialEq, Eq, Debug)]
pub struct CredentialPutRequest {
    pub credential_id: String,
    pub secret: String,
}

#[derive(Clone, PartialEq, Eq, Debug)]
pub struct CredentialIdRequest {
    pub credential_id: String,
}

#[derive(Clone, PartialEq, Eq, Debug)]
pub struct CredentialStatusResponse {
    pub credential_id: String,
    pub stored: bool,
}

#[derive(PartialEq, Eq, Debug)]
pub struct AudioDevice {
    pub id: String,
    pub name: String,
    pub is_default: bool,
}

impl Clone for AudioDevice {
    fn clone(&self) -> (result: Self)
        ensures
            result == *self,
    {
        Self { id: self.id.clone(), name: self.name.clone(), is_default: self.is_default }
    }
}

/// Copies a list of devices.
pub fn copy_devices(devices: &Vec<AudioDevice>) -> (result: Vec<AudioDevice>)
    ensures
        result@ == devices@,
{
    let mut result: Vec<AudioDevice> = Vec::new();
    let mut i: usize = 0;
    while i < devices.len()
        invariant
            i <= devices@.len(),
            result@ == devices@.take(i as int),
        decreases devices@.len() - i,
    {
        result.push(devices[i].clone());
        i += 1;
        assert(result@ =~= devices@.take(i as int));
    }
    assert(result@ =~= devices@);
    result
}

#[derive(Clone, PartialEq, Eq, Debug)]
pub struct AudioDevicesResponse {
    pub devices: Vec<AudioDevice>,
    pub selected_id: String,
}

#[derive(Clone, PartialEq, Eq, Debug)]
pub struct BackendChoice {
    pub id: String,
    pub name: String,
    pub available: bool,
    pub unavailable_reason: Option<String>,
}

#[derive(Clone, PartialEq, Eq, Debug)]
pub struct BackendsResponse {
    pub transcription: Vec<BackendChoice>,
    pub post_processing: Vec<BackendChoice>,
}

#[derive(Clone, PartialEq, Eq, Debug)]
pub struct HistoryListRequest {
    pub limit: u32,
    pub cursor: Option<String>,
}

#[derive(Clone, PartialEq, Eq, Debug)]
pub struct HistoryEntry {
    pub session_id: Uuid,
    pub raw_text: String,
    pub processed_text: String,
    pub rewritten_text: Option<String>,
    pub output_text: String,
    pub created_at: String,
}

#[derive(Clone, PartialEq, Eq, Debug)]
pub struct HistoryListResponse {
    pub entries: Vec<HistoryEntry>,
    pub next_cursor: Option<String>,
}

#[derive(Clone, PartialEq, Eq, Debug)]
pub struct DiagnosticCheck {
    pub id: String,
    pub status: String,
    pub message: String,
}

#[derive(Clone, PartialEq, Eq, Debug)]
pub struct DiagnosticsResponse {
    pub checks: Vec<DiagnosticCheck>,
    pub log_path: Option<String>,
}

/// Which states may come before which: a recording starts from idle alone and is transcribed
/// alone; text is injected behind either of the two stages before it; every state but idle
/// itself and shutting down can come to rest in idle; whatever is under way may fail; shutting
/// down comes from rest or failure and is final; and nothing starts twice.
pub proof fn states_follow_each_other(current: DictationState, next: DictationState)
    ensures
        next is Starting ==> !may_follow(current, next),
        next is Idle ==> (may_follow(current, next) <==> !(current is Idle)
            && !(current is ShuttingDown)),
        next is Recording ==> (may_follow(current, next) <==> current is Idle),
        next is Transcribing ==> (may_follow(current, next) <==> current is Recording),
        next is PostProcessing ==> (may_follow(current, next) <==> current is Transcribing),
        next is Injecting ==> (may_follow(current, next) <==> current is Transcribing || current
            is PostProcessing),
        next is Error ==> (may_follow(current, next) <==> current is Starting || current
            is Recording || current is Transcribing || current is PostProcessing || current
            is Injecting),
        next is ShuttingDown ==> (may_follow(current, next) <==> current is Idle || current
            is Error),
{
}

} // verus!
