//! What the backend answers and announces.

use vstd::prelude::*;
use vstd::string::*;

use crate::arith::capped_u64;
use crate::contract::dto::{
    AcceptedResponse, AudioDevicesResponse, BackendsResponse, ClientHelloResponse,
    CredentialStatusResponse, DiagnosticsResponse, HistoryListResponse, RecordingLevelEvent,
    RecordingStartResponse, RecordingStopResponse, SessionFailedEvent, SettingsResponse,
    StateChangedEvent, StateSnapshot, TranscriptFinalEvent, TranscriptPartialEvent,
};
use crate::contract::envelope::{Detail, ProtocolError, StableErrorCode};
use crate::contract::ids::Uuid;
use crate::state::Transition;
use crate::storage::{storage_error_text, StorageError};

verus! {

broadcast use vstd::string::group_string_axioms;

/// The payload of a successful answer.
#[derive(Clone, PartialEq, Eq, Debug)]
pub enum ResponseBody {
    Hello(ClientHelloResponse),
    State(StateSnapshot),
    Settings(SettingsResponse),
    Credential(CredentialStatusResponse),
    AudioDevices(AudioDevicesResponse),
    Backends(BackendsResponse),
    History(HistoryListResponse),
    HistoryCleared,
    Diagnostics(DiagnosticsResponse),
    RecordingStarted(RecordingStartResponse),
    RecordingStopped(RecordingStopResponse),
    Accepted(AcceptedResponse),
}

/// The payload of an event.
#[derive(Clone, PartialEq, Eq, Debug)]
pub enum EventBody {
    StateChanged(StateChangedEvent),
    RecordingLevel(RecordingLevelEvent),
    TranscriptPartial(TranscriptPartialEvent),
    TranscriptFinal(TranscriptFinalEvent),
    SessionFailed(SessionFailedEvent),
    SettingsChanged { revision: u64 },
    HistoryAdded { session_id: Uuid },
    HistoryCleared,
}

/// An event and its number.
#[derive(Clone, PartialEq, Eq, Debug)]
pub struct Event {
    pub sequence: u64,
    pub body: EventBody,
}

/// The name under which an event is sent.
pub open spec fn event_name(body: EventBody) -> Seq<char> {
    match body {
        EventBody::StateChanged(_) => "state.changed"@,
        EventBody::RecordingLevel(_) => "recording.level"@,
        EventBody::TranscriptPartial(_) => "transcript.partial"@,
        EventBody::TranscriptFinal(_) => "transcript.final"@,
        EventBody::SessionFailed(_) => "session.failed"@,
        EventBody::SettingsChanged { .. } => "settings.changed"@,
        EventBody::HistoryAdded { .. } => "history.added"@,
        EventBody::HistoryCleared => "history.cleared"@,
    }
}

impl EventBody {
    /// The name under which the event is sent.
    pub fn name(&self) -> (result: &'static str)
        ensures
            result@ == event_name(*self),
    {
        match self {
            EventBody::StateChanged(_) => "state.changed",
            EventBody::RecordingLevel(_) => "recording.level",
            EventBody::TranscriptPartial(_) => "transcript.partial",
            EventBody::TranscriptFinal(_) => "transcript.final",
            EventBody::SessionFailed(_) => "session.failed",
            EventBody::SettingsChanged { .. } => "settings.changed",
            EventBody::HistoryAdded { .. } => "history.added",
            EventBody::HistoryCleared => "history.cleared",
        }
    }
}

/// The event that announces a transition.
pub open spec fn change_of(t: Transition) -> EventBody {
    EventBody::StateChanged(
        StateChangedEvent { previous: t.previous, current: t.current, session_id: t.session_id },
    )
}

/// Builds the event that announces a transition.
pub fn announce(t: Transition) -> (result: EventBody)
    ensures
        result == change_of(t),
{
    EventBody::StateChanged(
        StateChangedEvent { previous: t.previous, current: t.current, session_id: t.session_id },
    )
}

/// Events are numbered one after another behind the last number given.
pub open spec fn numbered(before: u64, events: Seq<Event>, after: u64) -> bool {
    &&& forall|i: int|
        0 <= i < events.len() ==> (#[trigger] events[i]).sequence == capped_u64(before + 1 + i)
    &&& after == capped_u64(before + events.len())
}

/// Events announced one after another are numbered as if announced at once.
pub proof fn numbering_continues(
    before: u64,
    all: Seq<Event>,
    n: int,
    middle: u64,
    after: u64,
)
    requires
        0 <= n <= all.len(),
        numbered(before, all.take(n), middle),
        numbered(middle, all.skip(n), after),
    ensures
        numbered(before, all, after),
{
    assert forall|i: int| 0 <= i < all.len() implies (#[trigger] all[i]).sequence == capped_u64(
        before + 1 + i,
    ) by {
        if i < n {
            assert(all.take(n)[i].sequence == capped_u64(before + 1 + i));
        } else {
            assert(all.skip(n)[i - n].sequence == capped_u64(middle + 1 + (i - n)));
        }
    }
}

/// The event tells of a session's end.
pub open spec fn is_terminal(body: EventBody) -> bool {
    body is TranscriptFinal || body is SessionFailed
}

/// A plain error: no details.
pub open spec fn plain_error(
    error: ProtocolError,
    code: StableErrorCode,
    message: Seq<char>,
    retryable: bool,
) -> bool {
    &&& error.code == code
    &&& error.message@ == message
    &&& error.retryable == retryable
    &&& error.details@.len() == 0
}

/// Builds a plain error.
pub fn protocol_error(code: StableErrorCode, message: String, retryable: bool) -> (result:
    ProtocolError)
    ensures
        plain_error(result, code, message@, retryable),
{
    ProtocolError { code, message, retryable, details: Vec::new() }
}

/// The error has exactly two details.
pub open spec fn two_details(
    error: ProtocolError,
    first: Seq<char>,
    first_value: Detail,
    second: Seq<char>,
    second_value: Detail,
) -> bool {
    &&& error.details@.len() == 2
    &&& error.details@[0].0@ == first
    &&& same_detail(error.details@[0].1, first_value)
    &&& error.details@[1].0@ == second
    &&& same_detail(error.details@[1].1, second_value)
}

/// Two details say the same.
pub open spec fn same_detail(a: Detail, b: Detail) -> bool {
    match (a, b) {
        (Detail::Number(m), Detail::Number(n)) => m == n,
        (Detail::Text(s), Detail::Text(t)) => s@ == t@,
        (Detail::Json(s), Detail::Json(t)) => s@ == t@,
        _ => false,
    }
}

/// How a storage error is reported: what the caller got wrong as an invalid argument, a
/// stale revision as a conflict, the rest as trouble that may pass.
pub open spec fn reports_storage_error(result: ProtocolError, error: StorageError) -> bool {
    &&& result.message@ == storage_error_text(error)
    &&& match error {
        StorageError::Validation { field, message } => {
            &&& result.code is InvalidArgument && !result.retryable
            &&& result.details@.len() == 2
            &&& result.details@[0].0@ == "field"@
            &&& result.details@[0].1 matches Detail::Text(s) && s@ == field@
            &&& result.details@[1].0@ == "message"@
            &&& result.details@[1].1 matches Detail::Text(s) && s@ == message@
        },
        StorageError::CredentialValidation { field, message } => {
            &&& result.code is InvalidArgument && !result.retryable
            &&& result.details@.len() == 2
            &&& result.details@[0].0@ == "field"@
            &&& result.details@[0].1 matches Detail::Text(s) && s@ == field@
            &&& result.details@[1].0@ == "message"@
            &&& result.details@[1].1 matches Detail::Text(s) && s@ == message@
        },
        StorageError::Conflict { expected, current } => {
            &&& result.code is Conflict && result.retryable
            &&& two_details(
                result,
                "expected"@,
                Detail::Number(expected),
                "current"@,
                Detail::Number(current),
            )
        },
        StorageError::Credential(_) => {
            &&& result.code is Unavailable && result.retryable
            &&& result.details@.len() == 0
        },
        _ => {
            &&& result.code is Internal && result.retryable
            &&& result.details@.len() == 0
        },
    }
}

fn field_details(field: &str, message: &str) -> (result: Vec<(String, Detail)>)
    ensures
        result@.len() == 2,
        result@[0].0@ == "field"@,
        result@[0].1 matches Detail::Text(s) && s@ == field@,
        result@[1].0@ == "message"@,
        result@[1].1 matches Detail::Text(s) && s@ == message@,
{
    let mut details: Vec<(String, Detail)> = Vec::new();
    details.push((String::from_str("field"), Detail::Text(String::from_str(field))));
    details.push((String::from_str("message"), Detail::Text(String::from_str(message))));
    details
}

/// The details of a conflict between revisions.
pub fn revision_details(expected: u64, current: u64) -> (result: Vec<(String, Detail)>)
    ensures
        result@.len() == 2,
        result@[0].0@ == "expected"@,
        result@[0].1 == Detail::Number(expected),
        result@[1].0@ == "current"@,
        result@[1].1 == Detail::Number(current),
{
    let mut details: Vec<(String, Detail)> = Vec::new();
    details.push((String::from_str("expected"), Detail::Number(expected)));
    details.push((String::from_str("current"), Detail::Number(current)));
    details
}

/// Reports a storage error.
pub fn storage_protocol_error(error: &StorageError) -> (result: ProtocolError)
    ensures
        reports_storage_error(result, *error),
{
    let message = error.message();
    match error {
        StorageError::Validation { field, message: reason } => ProtocolError {
            code: StableErrorCode::InvalidArgument,
            message,
            retryable: false,
            details: field_details(field, reason),
        },
        StorageError::CredentialValidation { field, message: reason } => ProtocolError {
            code: StableErrorCode::InvalidArgument,
            message,
            retryable: false,
            details: field_details(field, reason),
        },
        StorageError::Conflict { expected, current } => ProtocolError {
            code: StableErrorCode::Conflict,
            message,
            retryable: true,
            details: revision_details(*expected, *current),
        },
        StorageError::Credential(_) => {
            protocol_error(StableErrorCode::Unavailable, message, true)
        },
        StorageError::Io(_) => protocol_error(StableErrorCode::Internal, message, true),
        StorageError::Json(_) => protocol_error(StableErrorCode::Internal, message, true),
        StorageError::Poisoned => protocol_error(StableErrorCode::Internal, message, true),
    }
}

/// What the caller got wrong is an invalid argument and not worth trying again; everything
/// else is, and is told apart: a stale revision, a locked credential store, and the rest. The
/// words are those of the storage error.
pub proof fn storage_errors_are_told_apart(result: ProtocolError, error: StorageError)
    requires
        reports_storage_error(result, error),
    ensures
        result.retryable <==> !(error is Validation) && !(error is CredentialValidation),
        result.code is InvalidArgument <==> error is Validation || error is CredentialValidation,
        result.code is Conflict <==> error is Conflict,
        result.code is Unavailable <==> error is Credential,
        result.code is Internal <==> error is Io || error is Json || error is Poisoned,
        result.message@ == storage_error_text(error),
        error matches StorageError::Conflict { expected, current } ==> result.details@.len() == 2
            && result.details@[0].0@ == "expected"@ && result.details@[0].1 == Detail::Number(
            expected,
        ) && result.details@[1].0@ == "current"@ && result.details@[1].1 == Detail::Number(current),
{
}

/// Events of one kind go under one name, and events of different kinds under different ones;
/// the window knows each of them.
pub proof fn event_names_are_known(body: EventBody)
    ensures
        ({
            let kind = crate::gui::view_model::kind_of(event_name(body));
            &&& kind is StateChanged <==> body is StateChanged
            &&& kind is RecordingLevel <==> body is RecordingLevel
            &&& kind is TranscriptPartial <==> body is TranscriptPartial
            &&& kind is TranscriptFinal <==> body is TranscriptFinal
            &&& kind is SessionFailed <==> body is SessionFailed
            &&& kind is SettingsChanged <==> body is SettingsChanged
            &&& kind is Other <==> crate::gui::view_model::is_notice(event_name(body))
        }),
        body is HistoryAdded ==> event_name(body) == "history.added"@,
        body is HistoryCleared ==> event_name(body) == "history.cleared"@,
{
    reveal_strlit("state.changed");
    reveal_strlit("recording.level");
    reveal_strlit("transcript.partial");
    reveal_strlit("transcript.final");
    reveal_strlit("session.failed");
    reveal_strlit("settings.changed");
    reveal_strlit("history.added");
    reveal_strlit("history.cleared");
    reveal_strlit("backend.health_changed");
    crate::gui::view_model::events_are_known_by_name(event_name(body));
    let name = event_name(body);
    assert(name.len() > 0);
    assert("state.changed"@[0] == 's' && "recording.level"@[0] == 'r');
    assert("transcript.partial"@[0] == 't' && "transcript.final"@[0] == 't');
    assert("session.failed"@[0] == 's' && "settings.changed"@[0] == 's');
    assert("history.added"@[0] == 'h' && "history.cleared"@[0] == 'h');
    assert("backend.health_changed"@[0] == 'b');
}

/// The first event has the number behind the last one before it, each further one the next,
/// and what is announced later goes on from there.
pub proof fn numbers_follow_each_other(
    before: u64,
    first: Seq<Event>,
    between: u64,
    second: Seq<Event>,
    after: u64,
)
    requires
        before + first.len() + second.len() < u64::MAX,
        numbered(before, first, between),
        numbered(between, second, after),
    ensures
        first.len() > 0 ==> first[0].sequence == before + 1,
        forall|i: int|
            0 < i < first.len() ==> (#[trigger] first[i]).sequence == first[i - 1].sequence + 1,
        first.len() > 0 ==> between == first.last().sequence,
        first.len() == 0 ==> between == before,
        second.len() > 0 ==> second[0].sequence == between + 1,
        numbered(before, first + second, after),
{
    assert forall|i: int| 0 <= i < (first + second).len() implies (#[trigger] (first
        + second)[i]).sequence == capped_u64(before + 1 + i) by {
        if i >= first.len() {
            assert((first + second)[i] == second[i - first.len()]);
        }
    }
}

} // verus!
