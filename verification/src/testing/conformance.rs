//! One dictation from greeting to text, and what must hold of it.

use vstd::prelude::*;
use vstd::string::*;

use crate::client::ClientError;
use crate::contract::dto::{
    may_follow, DictationState, InsertionOutcome, InsertionStatus, RecordingStartResponse,
    RecordingStopResponse, StateChangedEvent, StateSnapshot, TranscriptFinalEvent,
};
use crate::contract::envelope::{Detail, Envelope, ProtocolError, StableErrorCode};
use crate::contract::ids::Uuid;
use crate::text::same_text;

verus! {

broadcast use vstd::string::group_string_axioms;

/// What has been seen of the dictation.
#[derive(Debug)]
pub struct Conformance {
    pub session_id: Uuid,
    /// The numbers of the events seen, in order.
    pub seen: Vec<u64>,
    /// The state that the last transition led to.
    pub previous: DictationState,
}

/// The numbers are 1, 2, 3 and so on.
pub open spec fn counts_up(seen: Seq<u64>) -> bool {
    forall|i: int| 0 <= i < seen.len() ==> #[trigger] seen[i] == i + 1
}

fn counting_up(seen: &Vec<u64>) -> (result: bool)
    ensures
        result == counts_up(seen@),
{
    let mut i: usize = 0;
    while i < seen.len()
        invariant
            i <= seen@.len(),
            forall|k: int| 0 <= k < i ==> #[trigger] seen@[k] == k + 1,
        decreases seen@.len() - i,
    {
        if seen[i] != i as u64 + 1 {
            assert(seen@[i as int] != i + 1);
            return false;
        }
        i += 1;
    }
    true
}

/// Fails with a reason unless a condition holds.
pub open spec fn demands(result: Result<(), String>, condition: bool, reason: Seq<char>) -> bool {
    match result {
        Ok(()) => condition,
        Err(given) => !condition && given@ == reason,
    }
}

fn demand(condition: bool, reason: &str) -> (result: Result<(), String>)
    ensures
        demands(result, condition, reason@),
{
    if condition {
        Ok(())
    } else {
        Err(String::from_str(reason))
    }
}

impl Conformance {
    /// Nothing seen yet of a session.
    pub fn new(session_id: Uuid) -> (result: Self)
        ensures
            result.session_id == session_id,
            result.seen@.len() == 0,
            result.previous is Recording,
    {
        Self { session_id, seen: Vec::new(), previous: DictationState::Recording }
    }

    /// The backend must start idle.
    pub fn check_snapshot(&self, snapshot: &StateSnapshot) -> (result: Result<(), String>)
        ensures
            demands(result, snapshot.state is Idle, "snapshot did not start idle"@),
    {
        demand(snapshot.state == DictationState::Idle, "snapshot did not start idle")
    }

    /// A start must lead to the session recording.
    pub fn check_start(&self, start: RecordingStartResponse) -> (result: Result<(), String>)
        ensures
            demands(
                result,
                start.session_id == self.session_id && start.state is Recording,
                "recording.start returned inconsistent session/state"@,
            ),
    {
        demand(
            start.session_id == self.session_id && start.state == DictationState::Recording,
            "recording.start returned inconsistent session/state",
        )
    }

    /// Takes note of an event's number, which must follow the last.
    pub fn observe(&mut self, sequence: Option<u64>) -> (result: Result<(), String>)
        ensures
            final(self).session_id == old(self).session_id,
            final(self).previous == old(self).previous,
            match sequence {
                None => {
                    &&& result matches Err(reason) && reason@ == "event has no sequence"@
                    &&& final(self).seen@ == old(self).seen@
                },
                Some(number) => if old(self).seen@.len() > 0 && number != old(self).seen@.last()
                    + 1 {
                    &&& result matches Err(reason) && reason@ == "event sequence has a gap"@
                    &&& final(self).seen@ == old(self).seen@
                } else {
                    &&& result is Ok
                    &&& final(self).seen@ == old(self).seen@.push(number)
                },
            },
    {
        let number: u64 = match sequence {
            Some(number) => number,
            None => {
                return Err(String::from_str("event has no sequence"));
            },
        };
        if self.seen.len() > 0 {
            let last: u64 = self.seen[self.seen.len() - 1];
            if last == u64::MAX || number != last + 1 {
                return Err(String::from_str("event sequence has a gap"));
            }
        }
        self.seen.push(number);
        Ok(())
    }

    /// The first transition must lead from idle to a state that may follow, for the session.
    pub fn check_first_transition(&self, event: &StateChangedEvent) -> (result: Result<(), String>)
        ensures
            demands(
                result,
                event.previous is Idle && may_follow(event.previous, event.current)
                    && event.session_id == Some(self.session_id),
                "invalid initial state transition"@,
            ),
    {
        let own = match event.session_id {
            Some(session_id) => session_id == self.session_id,
            None => false,
        };
        demand(
            event.previous == DictationState::Idle && event.previous.can_transition_to(
                event.current,
            ) && own,
            "invalid initial state transition",
        )
    }

    /// A level must follow.
    pub fn check_level(&self, name: &str) -> (result: Result<(), String>)
        ensures
            demands(
                result,
                name@ == "recording.level"@,
                "recording level event is missing"@,
            ),
    {
        demand(same_text(name, "recording.level"), "recording level event is missing")
    }

    /// A stop must be accepted for the session.
    pub fn check_stop(&self, stop: RecordingStopResponse) -> (result: Result<(), String>)
        ensures
            demands(
                result,
                stop.accepted && stop.session_id == self.session_id,
                "recording.stop was not accepted for the active session"@,
            ),
    {
        demand(
            stop.accepted && stop.session_id == self.session_id,
            "recording.stop was not accepted for the active session",
        )
    }

    /// Every further transition must start where the last ended and lead to a state that may
    /// follow.
    pub fn check_transition(&mut self, event: &StateChangedEvent) -> (result: Result<(), String>)
        ensures
            final(self).session_id == old(self).session_id,
            final(self).seen == old(self).seen,
            demands(
                result,
                event.previous == old(self).previous && may_follow(
                    old(self).previous,
                    event.current,
                ),
                "invalid state transition in terminal flow"@,
            ),
            final(self).previous == if result is Ok {
                event.current
            } else {
                old(self).previous
            },
    {
        let result = demand(
            event.previous == self.previous && self.previous.can_transition_to(event.current),
            "invalid state transition in terminal flow",
        );
        if result.is_ok() {
            self.previous = event.current;
        }
        result
    }

    /// The transitions must end idle.
    pub fn check_end(&self) -> (result: Result<(), String>)
        ensures
            demands(
                result,
                self.previous is Idle,
                "terminal flow did not return to idle"@,
            ),
    {
        demand(self.previous == DictationState::Idle, "terminal flow did not return to idle")
    }

    /// The text must be the session's.
    pub fn check_terminal(&self, session_id: Uuid) -> (result: Result<(), String>)
        ensures
            demands(
                result,
                session_id == self.session_id,
                "terminal event belongs to a different session"@,
            ),
    {
        demand(
            session_id == self.session_id,
            "terminal event belongs to a different session",
        )
    }

    /// A stale replacement of the settings must be refused as a conflict that may be tried
    /// again.
    pub fn check_conflict(&self, outcome: &Result<Envelope, ClientError>) -> (result: Result<
        (),
        String,
    >)
        ensures
            demands(
                result,
                *outcome is Err && (*outcome)->Err_0 is Protocol && (
                *outcome)->Err_0->Protocol_0.code is Conflict && (
                *outcome)->Err_0->Protocol_0.retryable,
                "stable conflict error was not propagated"@,
            ),
    {
        let conflict = match outcome {
            Err(ClientError::Protocol(error)) => {
                error.code == StableErrorCode::Conflict && error.retryable
            },
            _ => false,
        };
        demand(conflict, "stable conflict error was not propagated")
    }

    /// All seven events must have been seen in order, and the script used up.
    pub fn finish(&self, remaining_steps: usize) -> (result: Result<(), String>)
        ensures
            demands(
                result,
                self.seen@.len() == 7 && counts_up(self.seen@) && remaining_steps == 0,
                "event ordering or script consumption failed"@,
            ),
    {
        demand(
            self.seen.len() == 7 && counting_up(&self.seen) && remaining_steps == 0,
            "event ordering or script consumption failed",
        )
    }
}

/// The transitions of one dictation after its start.
pub open spec fn is_flow(flow: Seq<StateChangedEvent>, session_id: Uuid) -> bool {
    &&& flow.len() == 4
    &&& flow[0] == (StateChangedEvent {
        previous: DictationState::Recording,
        current: DictationState::Transcribing,
        session_id: Some(session_id),
    })
    &&& flow[1] == (StateChangedEvent {
        previous: DictationState::Transcribing,
        current: DictationState::PostProcessing,
        session_id: Some(session_id),
    })
    &&& flow[2] == (StateChangedEvent {
        previous: DictationState::PostProcessing,
        current: DictationState::Injecting,
        session_id: Some(session_id),
    })
    &&& flow[3] == (StateChangedEvent {
        previous: DictationState::Injecting,
        current: DictationState::Idle,
        session_id: Some(session_id),
    })
}

fn change(previous: DictationState, current: DictationState, session_id: Uuid) -> (result:
    StateChangedEvent)
    ensures
        result == (StateChangedEvent { previous, current, session_id: Some(session_id) }),
{
    StateChangedEvent { previous, current, session_id: Some(session_id) }
}

/// The transitions of one dictation after its start.
pub fn dictation_flow(session_id: Uuid) -> (flow: Vec<StateChangedEvent>)
    ensures
        is_flow(flow@, session_id),
{
    let mut flow: Vec<StateChangedEvent> = Vec::new();
    flow.push(change(DictationState::Recording, DictationState::Transcribing, session_id));
    flow.push(change(DictationState::Transcribing, DictationState::PostProcessing, session_id));
    flow.push(change(DictationState::PostProcessing, DictationState::Injecting, session_id));
    flow.push(change(DictationState::Injecting, DictationState::Idle, session_id));
    flow
}

/// The text of the scripted dictation.
pub fn scripted_transcript(session_id: Uuid) -> (result: TranscriptFinalEvent)
    ensures
        result.session_id == session_id,
        result.raw_text@ == "teste"@,
        result.processed_text@ == "Teste."@,
        result.rewritten_text is None,
        result.output_text@ == "Teste."@,
        result.post_processed,
        !result.prompt_rewritten,
        result.insertion.status is Inserted,
        result.insertion.method@ == "keyboard"@,
        result.transcription_backend@ == "local-whisper"@,
        result.language@ == "pt"@,
        result.duration_ms == 400,
{
    TranscriptFinalEvent {
        session_id,
        raw_text: String::from_str("teste"),
        processed_text: String::from_str("Teste."),
        rewritten_text: None,
        output_text: String::from_str("Teste."),
        post_processed: true,
        prompt_rewritten: false,
        insertion: InsertionOutcome {
            status: InsertionStatus::Inserted,
            method: String::from_str("keyboard"),
        },
        transcription_backend: String::from_str("local-whisper"),
        language: String::from_str("pt"),
        duration_ms: 400,
    }
}

/// The conflict of the scripted dictation.
pub fn scripted_conflict() -> (result: ProtocolError)
    ensures
        result.code is Conflict,
        result.message@ == "Settings changed since revision 1"@,
        result.retryable,
        result.details@.len() == 2,
        result.details@[0].0@ == "expected_revision"@,
        result.details@[0].1 == Detail::Number(1),
        result.details@[1].0@ == "current_revision"@,
        result.details@[1].1 == Detail::Number(2),
{
    let mut details: Vec<(String, Detail)> = Vec::new();
    details.push((String::from_str("expected_revision"), Detail::Number(1)));
    details.push((String::from_str("current_revision"), Detail::Number(2)));
    ProtocolError {
        code: StableErrorCode::Conflict,
        message: String::from_str("Settings changed since revision 1"),
        retryable: true,
        details,
    }
}

// ---------------------------------------------------------------------------
// A whole dictation
// ---------------------------------------------------------------------------

/// A transition as it came in: its number, and what could be read of it.
#[derive(Debug)]
pub struct SeenChange {
    pub sequence: Option<u64>,
    pub change: Result<StateChangedEvent, String>,
}

/// The event in the place of a level: its number and its name.
#[derive(Debug)]
pub struct SeenLevel {
    pub sequence: Option<u64>,
    pub name: String,
}

/// The text as it came in: its number, and its session where it could be read.
#[derive(Debug)]
pub struct SeenTranscript {
    pub sequence: Option<u64>,
    pub session_id: Result<Uuid, String>,
}

/// What a client saw of one dictation, from the greeting on. What did not come, or could not
/// be read, is held by the reason.
#[derive(Debug)]
pub struct Observed {
    pub hello: Result<(), String>,
    pub snapshot: Result<StateSnapshot, String>,
    pub start: Result<RecordingStartResponse, String>,
    pub first_change: Result<SeenChange, String>,
    pub level: Result<SeenLevel, String>,
    pub stop: Result<RecordingStopResponse, String>,
    /// The transitions after the stop.
    pub changes: Vec<Result<SeenChange, String>>,
    pub transcript: Result<SeenTranscript, String>,
    /// The answer to a stale replacement of the settings.
    pub replacement: Result<Envelope, ClientError>,
    /// The steps of the script that were not used.
    pub remaining_steps: usize,
}

/// The first of two faults, if there is any.
pub open spec fn first_of(a: Option<Seq<char>>, b: Option<Seq<char>>) -> Option<Seq<char>> {
    if a is Some {
        a
    } else {
        b
    }
}

/// The fault of a condition that does not hold.
pub open spec fn unless(condition: bool, reason: Seq<char>) -> Option<Seq<char>> {
    if condition {
        None
    } else {
        Some(reason)
    }
}

/// The fault of what did not come or could not be read.
pub open spec fn missing<T>(value: Result<T, String>) -> Option<Seq<char>> {
    match value {
        Ok(_) => None,
        Err(reason) => Some(reason@),
    }
}

/// The fault of an event's number, after that of the event before it.
pub open spec fn number_fault(before: Option<u64>, number: Option<u64>) -> Option<Seq<char>> {
    match number {
        None => Some("event has no sequence"@),
        Some(n) => unless(before is Some ==> n == before->0 + 1, "event sequence has a gap"@),
    }
}

/// The fault of the snapshot.
pub open spec fn snapshot_fault(o: Observed) -> Option<Seq<char>> {
    first_of(
        missing(o.snapshot),
        unless(o.snapshot->Ok_0.state is Idle, "snapshot did not start idle"@),
    )
}

/// The fault of the answer to the start.
pub open spec fn start_fault(o: Observed, session_id: Uuid) -> Option<Seq<char>> {
    first_of(
        missing(o.start),
        unless(
            o.start->Ok_0.session_id == session_id && o.start->Ok_0.state is Recording,
            "recording.start returned inconsistent session/state"@,
        ),
    )
}

/// The fault of the first transition.
pub open spec fn first_change_fault(o: Observed, session_id: Uuid) -> Option<Seq<char>> {
    let seen = o.first_change->Ok_0;
    let change = seen.change->Ok_0;
    first_of(
        missing(o.first_change),
        first_of(
            number_fault(None, seen.sequence),
            first_of(
                missing(seen.change),
                unless(
                    change.previous is Idle && may_follow(change.previous, change.current)
                        && change.session_id == Some(session_id),
                    "invalid initial state transition"@,
                ),
            ),
        ),
    )
}

/// The fault of the level.
pub open spec fn level_fault(o: Observed) -> Option<Seq<char>> {
    let seen = o.level->Ok_0;
    first_of(
        missing(o.level),
        first_of(
            number_fault(o.first_change->Ok_0.sequence, seen.sequence),
            unless(seen.name@ == "recording.level"@, "recording level event is missing"@),
        ),
    )
}

/// The fault of the answer to the stop.
pub open spec fn stop_fault(o: Observed, session_id: Uuid) -> Option<Seq<char>> {
    first_of(
        missing(o.stop),
        unless(
            o.stop->Ok_0.accepted && o.stop->Ok_0.session_id == session_id,
            "recording.stop was not accepted for the active session"@,
        ),
    )
}

/// The number of the event before a transition after the stop.
pub open spec fn number_before(o: Observed, i: int) -> Option<u64> {
    if i == 0 {
        o.level->Ok_0.sequence
    } else {
        o.changes@[i - 1]->Ok_0.sequence
    }
}

/// The state before a transition after the stop.
pub open spec fn state_before(o: Observed, i: int) -> DictationState {
    if i == 0 {
        DictationState::Recording
    } else {
        o.changes@[i - 1]->Ok_0.change->Ok_0.current
    }
}

/// The fault of a transition after the stop: it does not come, or it does not start where
/// the last ended, or it leads to a state that may not follow.
pub open spec fn change_fault(o: Observed, i: int) -> Option<Seq<char>> {
    let seen = o.changes@[i]->Ok_0;
    let change = seen.change->Ok_0;
    first_of(
        unless(i < o.changes@.len(), "timed out waiting for event"@),
        first_of(
            missing(o.changes@[i]),
            first_of(
                number_fault(number_before(o, i), seen.sequence),
                first_of(
                    missing(seen.change),
                    unless(
                        change.previous == state_before(o, i) && may_follow(
                            state_before(o, i),
                            change.current,
                        ),
                        "invalid state transition in terminal flow"@,
                    ),
                ),
            ),
        ),
    )
}

/// The fault of the transitions after the stop: four come, and the last leads to idle.
pub open spec fn flow_fault(o: Observed) -> Option<Seq<char>> {
    first_of(
        change_fault(o, 0),
        first_of(
            change_fault(o, 1),
            first_of(
                change_fault(o, 2),
                first_of(
                    change_fault(o, 3),
                    unless(state_before(o, 4) is Idle, "terminal flow did not return to idle"@),
                ),
            ),
        ),
    )
}

/// The fault of the text.
pub open spec fn transcript_fault(o: Observed, session_id: Uuid) -> Option<Seq<char>> {
    let seen = o.transcript->Ok_0;
    first_of(
        missing(o.transcript),
        first_of(
            number_fault(number_before(o, 4), seen.sequence),
            first_of(
                missing(seen.session_id),
                unless(
                    seen.session_id->Ok_0 == session_id,
                    "terminal event belongs to a different session"@,
                ),
            ),
        ),
    )
}

/// The replacement was refused as a conflict that may be tried again.
pub open spec fn is_retryable_conflict(outcome: Result<Envelope, ClientError>) -> bool {
    outcome matches Err(ClientError::Protocol(error)) && error.code is Conflict && error.retryable
}

/// The events have the numbers from one to seven.
pub open spec fn numbered_from_one(o: Observed) -> bool {
    &&& o.first_change->Ok_0.sequence == Some(1u64)
    &&& o.level->Ok_0.sequence == Some(2u64)
    &&& o.changes@[0]->Ok_0.sequence == Some(3u64)
    &&& o.changes@[1]->Ok_0.sequence == Some(4u64)
    &&& o.changes@[2]->Ok_0.sequence == Some(5u64)
    &&& o.changes@[3]->Ok_0.sequence == Some(6u64)
    &&& o.transcript->Ok_0.sequence == Some(7u64)
}

/// The fault of what is left at the end.
pub open spec fn closing_fault(o: Observed) -> Option<Seq<char>> {
    first_of(
        unless(
            is_retryable_conflict(o.replacement),
            "stable conflict error was not propagated"@,
        ),
        unless(
            numbered_from_one(o) && o.remaining_steps == 0,
            "event ordering or script consumption failed"@,
        ),
    )
}

/// The first fault of a dictation of a session, in the order in which a client sees it.
pub open spec fn dictation_fault(o: Observed, session_id: Uuid) -> Option<Seq<char>> {
    first_of(
        missing(o.hello),
        first_of(
            snapshot_fault(o),
            first_of(
                start_fault(o, session_id),
                first_of(
                    first_change_fault(o, session_id),
                    first_of(
                        level_fault(o),
                        first_of(
                            stop_fault(o, session_id),
                            first_of(
                                flow_fault(o),
                                first_of(transcript_fault(o, session_id), closing_fault(o)),
                            ),
                        ),
                    ),
                ),
            ),
        ),
    )
}

fn received<T>(value: &Result<T, String>) -> (result: Result<&T, String>)
    ensures
        match *value {
            Ok(inner) => result == Ok::<&T, String>(&inner),
            Err(reason) => result matches Err(given) && given@ == reason@,
        },
{
    match value {
        Ok(inner) => Ok(inner),
        Err(reason) => Err(reason.clone()),
    }
}

/// Checks what a client saw of the dictation of a session. It conforms if nothing is at
/// fault; otherwise the first fault is reported.
pub fn run(session_id: Uuid, observed: &Observed) -> (result: Result<(), String>)
    ensures
        match result {
            Ok(()) => dictation_fault(*observed, session_id) is None,
            Err(reason) => dictation_fault(*observed, session_id) == Some(reason@),
        },
{
    let mut checks = Conformance::new(session_id);
    received(&observed.hello)?;
    checks.check_snapshot(received(&observed.snapshot)?)?;
    checks.check_start(*received(&observed.start)?)?;

    let seen = received(&observed.first_change)?;
    checks.observe(seen.sequence)?;
    checks.check_first_transition(received(&seen.change)?)?;
    let seen = received(&observed.level)?;
    checks.observe(seen.sequence)?;
    checks.check_level(seen.name.as_str())?;

    checks.check_stop(*received(&observed.stop)?)?;
    let mut i: usize = 0;
    while i < 4
        invariant
            i <= 4,
            checks.session_id == session_id,
            checks.seen@.len() == i + 2,
            observed.first_change->Ok_0.sequence == Some(checks.seen@[0]),
            observed.level->Ok_0.sequence == Some(checks.seen@[1]),
            i > 0 ==> observed.changes@[0]->Ok_0.sequence == Some(checks.seen@[2]),
            i > 1 ==> observed.changes@[1]->Ok_0.sequence == Some(checks.seen@[3]),
            i > 2 ==> observed.changes@[2]->Ok_0.sequence == Some(checks.seen@[4]),
            i > 3 ==> observed.changes@[3]->Ok_0.sequence == Some(checks.seen@[5]),
            checks.previous == state_before(*observed, i as int),
            missing(observed.hello) is None,
            snapshot_fault(*observed) is None,
            start_fault(*observed, session_id) is None,
            first_change_fault(*observed, session_id) is None,
            level_fault(*observed) is None,
            stop_fault(*observed, session_id) is None,
            i > 0 ==> change_fault(*observed, 0) is None,
            i > 1 ==> change_fault(*observed, 1) is None,
            i > 2 ==> change_fault(*observed, 2) is None,
            i > 3 ==> change_fault(*observed, 3) is None,
        decreases 4 - i,
    {
        assert(number_before(*observed, i as int) == Some(checks.seen@.last()));
        if i >= observed.changes.len() {
            return Err(String::from_str("timed out waiting for event"));
        }
        let seen = received(&observed.changes[i])?;
        checks.observe(seen.sequence)?;
        checks.check_transition(received(&seen.change)?)?;
        i += 1;
    }
    checks.check_end()?;
    let seen = received(&observed.transcript)?;
    checks.observe(seen.sequence)?;
    checks.check_terminal(*received(&seen.session_id)?)?;
    checks.check_conflict(&observed.replacement)?;
    assert(numbered_from_one(*observed) == counts_up(checks.seen@)) by {
        let seen = checks.seen@;
        assert(seen.len() == 7);
        if counts_up(seen) {
            assert(seen[0] == 1 && seen[1] == 2 && seen[2] == 3 && seen[3] == 4);
            assert(seen[4] == 5 && seen[5] == 6 && seen[6] == 7);
        }
    }
    checks.finish(observed.remaining_steps)
}

/// A client saw what the script of a dictation has it see.
pub open spec fn follows_script(o: Observed, session_id: Uuid) -> bool {
    &&& o.hello is Ok
    &&& o.snapshot is Ok && o.snapshot->Ok_0.state is Idle
    &&& o.start == Ok::<RecordingStartResponse, String>(
        RecordingStartResponse { session_id, state: DictationState::Recording },
    )
    &&& o.first_change is Ok && o.first_change->Ok_0.change == Ok::<StateChangedEvent, String>(
        StateChangedEvent {
            previous: DictationState::Idle,
            current: DictationState::Recording,
            session_id: Some(session_id),
        },
    )
    &&& o.level is Ok && o.level->Ok_0.name@ == "recording.level"@
    &&& o.stop == Ok::<RecordingStopResponse, String>(
        RecordingStopResponse { session_id, accepted: true },
    )
    &&& o.changes@.len() == 4
    &&& forall|i: int|
        0 <= i < 4 ==> (#[trigger] o.changes@[i]) is Ok && o.changes@[i]->Ok_0.change is Ok
    &&& is_flow(Seq::new(4, |i: int| o.changes@[i]->Ok_0.change->Ok_0), session_id)
    &&& o.transcript is Ok && o.transcript->Ok_0.session_id == Ok::<Uuid, String>(session_id)
    &&& numbered_from_one(o)
    &&& is_retryable_conflict(o.replacement)
    &&& o.remaining_steps == 0
}

/// A dictation that goes as the script says conforms.
pub proof fn a_scripted_dictation_conforms(o: Observed, session_id: Uuid)
    requires
        follows_script(o, session_id),
    ensures
        dictation_fault(o, session_id) is None,
{
    let flow = Seq::new(4, |i: int| o.changes@[i]->Ok_0.change->Ok_0);
    assert(is_flow(flow, session_id));
    assert(o.changes@[0]->Ok_0.change->Ok_0 == flow[0]);
    assert(o.changes@[1]->Ok_0.change->Ok_0 == flow[1]);
    assert(o.changes@[2]->Ok_0.change->Ok_0 == flow[2]);
    assert(o.changes@[3]->Ok_0.change->Ok_0 == flow[3]);
}

/// A dictation that conforms went in order: it started idle, was recorded and stopped under
/// one session, passed from state to state as states may follow each other and back to idle,
/// ended in a transcript of that session, and its events were counted from one without a
/// gap; a stale replacement was refused as a conflict that can be tried again, and the script
/// was used up.
pub proof fn what_conforms_went_in_order(o: Observed, session_id: Uuid)
    requires
        dictation_fault(o, session_id) is None,
    ensures
        o.hello is Ok,
        o.snapshot is Ok && o.snapshot->Ok_0.state is Idle,
        o.start is Ok && o.start->Ok_0.session_id == session_id && o.start->Ok_0.state is Recording,
        o.first_change is Ok && o.first_change->Ok_0.change is Ok,
        o.first_change->Ok_0.change->Ok_0.previous is Idle,
        o.first_change->Ok_0.change->Ok_0.session_id == Some(session_id),
        may_follow(DictationState::Idle, o.first_change->Ok_0.change->Ok_0.current),
        o.level is Ok && o.level->Ok_0.name@ == "recording.level"@,
        o.stop is Ok && o.stop->Ok_0.accepted && o.stop->Ok_0.session_id == session_id,
        o.changes@.len() >= 4,
        forall|i: int|
            0 <= i < 4 ==> (#[trigger] o.changes@[i]) is Ok && o.changes@[i]->Ok_0.change is Ok
                && may_follow(
                o.changes@[i]->Ok_0.change->Ok_0.previous,
                o.changes@[i]->Ok_0.change->Ok_0.current,
            ),
        o.changes@[0]->Ok_0.change->Ok_0.previous is Recording,
        o.changes@[1]->Ok_0.change->Ok_0.previous == o.changes@[0]->Ok_0.change->Ok_0.current,
        o.changes@[2]->Ok_0.change->Ok_0.previous == o.changes@[1]->Ok_0.change->Ok_0.current,
        o.changes@[3]->Ok_0.change->Ok_0.previous == o.changes@[2]->Ok_0.change->Ok_0.current,
        o.changes@[3]->Ok_0.change->Ok_0.current is Idle,
        o.transcript is Ok && o.transcript->Ok_0.session_id == Ok::<Uuid, String>(session_id),
        o.first_change->Ok_0.sequence == Some(1u64),
        o.level->Ok_0.sequence == Some(2u64),
        forall|i: int| 0 <= i < 4 ==> (#[trigger] o.changes@[i])->Ok_0.sequence == Some((i + 3) as u64),
        o.transcript->Ok_0.sequence == Some(7u64),
        o.replacement matches Err(ClientError::Protocol(error)) && error.code is Conflict
            && error.retryable,
        o.remaining_steps == 0,
{
    assert forall|i: int| 0 <= i < 4 implies (#[trigger] o.changes@[i]) is Ok
        && o.changes@[i]->Ok_0.change is Ok && may_follow(
        o.changes@[i]->Ok_0.change->Ok_0.previous,
        o.changes@[i]->Ok_0.change->Ok_0.current,
    ) by {
        assert(change_fault(o, i) is None);
    }
    assert(change_fault(o, 0) is None);
    assert(change_fault(o, 1) is None);
    assert(change_fault(o, 2) is None);
    assert(change_fault(o, 3) is None);
}

} // verus!
