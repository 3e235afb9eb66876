//! The life of one dictation session after another.

use vstd::prelude::*;
use vstd::string::*;

use crate::contract::dto::{may_follow, state_name, DictationState};
use crate::contract::ids::{uuid_string, uuid_text, Uuid};

verus! {

broadcast use vstd::string::group_string_axioms;

#[derive(Clone, Copy, PartialEq, Eq, Structural, Debug)]
pub enum Action {
    Start { session_id: Uuid },
    Stop { session_id: Uuid },
    TranscriptionComplete { session_id: Uuid, post_process: bool, inject: bool },
    PostProcessingComplete { session_id: Uuid, inject: bool },
    InjectionComplete { session_id: Uuid },
    Cancel { session_id: Uuid },
    Fail { session_id: Uuid },
    Recover,
    Shutdown,
}

#[derive(Clone, Copy, PartialEq, Eq, Debug)]
pub struct Transition {
    pub previous: DictationState,
    pub current: DictationState,
    pub session_id: Option<Uuid>,
    pub terminal: bool,
}

#[derive(Clone, Copy, PartialEq, Eq, Structural, Debug)]
pub enum TransitionError {
    InvalidState { state: DictationState, action: Action },
    StaleSession { active: Uuid, received: Uuid },
}

#[derive(Debug)]
pub struct StateMachine {
    state: DictationState,
    active_session_id: Option<Uuid>,
}

/// The states in which a session is under way or has just failed.
pub open spec fn in_session(state: DictationState) -> bool {
    state is Recording || state is Transcribing || state is PostProcessing || state is Injecting
        || state is Error
}

/// The session that an action speaks of.
pub open spec fn action_session(action: Action) -> Option<Uuid> {
    match action {
        Action::Start { session_id } => Some(session_id),
        Action::Stop { session_id } => Some(session_id),
        Action::TranscriptionComplete { session_id, .. } => Some(session_id),
        Action::PostProcessingComplete { session_id, .. } => Some(session_id),
        Action::InjectionComplete { session_id } => Some(session_id),
        Action::Cancel { session_id } => Some(session_id),
        Action::Fail { session_id } => Some(session_id),
        Action::Recover => None,
        Action::Shutdown => None,
    }
}

/// The state that an action leads to from a state, where it applies there at all.
pub open spec fn next_state(state: DictationState, action: Action) -> Option<DictationState> {
    match action {
        Action::Start { .. } => if state is Idle {
            Some(DictationState::Recording)
        } else {
            None
        },
        Action::Stop { .. } => if state is Recording {
            Some(DictationState::Transcribing)
        } else {
            None
        },
        Action::TranscriptionComplete { post_process, inject, .. } => if state is Transcribing {
            Some(
                if post_process {
                    DictationState::PostProcessing
                } else if inject {
                    DictationState::Injecting
                } else {
                    DictationState::Idle
                },
            )
        } else {
            None
        },
        Action::PostProcessingComplete { inject, .. } => if state is PostProcessing {
            Some(
                if inject {
                    DictationState::Injecting
                } else {
                    DictationState::Idle
                },
            )
        } else {
            None
        },
        Action::InjectionComplete { .. } => if state is Injecting {
            Some(DictationState::Idle)
        } else {
            None
        },
        Action::Cancel { .. } => if state is Recording {
            Some(DictationState::Idle)
        } else {
            None
        },
        Action::Fail { .. } => if in_session(state) && !(state is Error) {
            Some(DictationState::Error)
        } else {
            None
        },
        Action::Recover => if state is Error {
            Some(DictationState::Idle)
        } else {
            None
        },
        Action::Shutdown => if state is Idle || state is Error {
            Some(DictationState::ShuttingDown)
        } else {
            None
        },
    }
}

/// What an action does to a machine in a state with an active session: the session that
/// is active afterwards and the transition made, or why nothing happens.
pub open spec fn transition_outcome(
    state: DictationState,
    active: Option<Uuid>,
    action: Action,
) -> Result<(Option<Uuid>, Transition), TransitionError> {
    match next_state(state, action) {
        None => Err(TransitionError::InvalidState { state, action }),
        Some(current) => {
            let session = action_session(action);
            if !(action is Start) && session is Some && active != session {
                match active {
                    Some(other) => Err(
                        TransitionError::StaleSession { active: other, received: session->0 },
                    ),
                    None => Err(
                        TransitionError::InvalidState {
                            state,
                            action: Action::Cancel { session_id: session->0 },
                        },
                    ),
                }
            } else {
                Ok(
                    (
                        if in_session(current) {
                            session
                        } else {
                            None
                        },
                        Transition {
                            previous: state,
                            current,
                            session_id: session,
                            terminal: session is Some && (current is Idle || current is Error),
                        },
                    ),
                )
            }
        },
    }
}

/// A truth value as text.
pub open spec fn bool_text(b: bool) -> Seq<char> {
    if b {
        "true"@
    } else {
        "false"@
    }
}

/// An action as text: its name and, in braces, its fields.
pub open spec fn action_text(action: Action) -> Seq<char> {
    match action {
        Action::Start { session_id } => "Start { session_id: "@ + uuid_text(session_id) + " }"@,
        Action::Stop { session_id } => "Stop { session_id: "@ + uuid_text(session_id) + " }"@,
        Action::TranscriptionComplete { session_id, post_process, inject } =>
            "TranscriptionComplete { session_id: "@ + uuid_text(session_id) + ", post_process: "@
            + bool_text(post_process) + ", inject: "@ + bool_text(inject) + " }"@,
        Action::PostProcessingComplete { session_id, inject } =>
            "PostProcessingComplete { session_id: "@ + uuid_text(session_id) + ", inject: "@
            + bool_text(inject) + " }"@,
        Action::InjectionComplete { session_id } => "InjectionComplete { session_id: "@ + uuid_text(
            session_id,
        ) + " }"@,
        Action::Cancel { session_id } => "Cancel { session_id: "@ + uuid_text(session_id) + " }"@,
        Action::Fail { session_id } => "Fail { session_id: "@ + uuid_text(session_id) + " }"@,
        Action::Recover => "Recover"@,
        Action::Shutdown => "Shutdown"@,
    }
}

/// What a refused action says to a reader.
pub open spec fn transition_error_text(error: TransitionError) -> Seq<char> {
    match error {
        TransitionError::InvalidState { state, action } => "action "@ + action_text(action)
            + " is invalid while backend is "@ + state_name(state),
        TransitionError::StaleSession { active, received } => "action is for session "@ + uuid_text(
            received,
        ) + ", but active session is "@ + uuid_text(active),
    }
}

fn bool_str(b: bool) -> (result: &'static str)
    ensures
        result@ == bool_text(b),
{
    if b {
        "true"
    } else {
        "false"
    }
}

fn session_action(start: &str, session_id: Uuid) -> (result: String)
    ensures
        result@ == start@ + uuid_text(session_id) + " }"@,
{
    let mut text = String::from_str(start);
    text.append(uuid_string(session_id).as_str());
    text.append(" }");
    text
}

impl Action {
    /// The action as text.
    pub fn describe(&self) -> (result: String)
        ensures
            result@ == action_text(*self),
    {
        match self {
            Action::Start { session_id } => session_action("Start { session_id: ", *session_id),
            Action::Stop { session_id } => session_action("Stop { session_id: ", *session_id),
            Action::TranscriptionComplete { session_id, post_process, inject } => {
                let mut text = String::from_str("TranscriptionComplete { session_id: ");
                text.append(uuid_string(*session_id).as_str());
                text.append(", post_process: ");
                text.append(bool_str(*post_process));
                text.append(", inject: ");
                text.append(bool_str(*inject));
                text.append(" }");
                text
            },
            Action::PostProcessingComplete { session_id, inject } => {
                let mut text = String::from_str("PostProcessingComplete { session_id: ");
                text.append(uuid_string(*session_id).as_str());
                text.append(", inject: ");
                text.append(bool_str(*inject));
                text.append(" }");
                text
            },
            Action::InjectionComplete { session_id } => {
                session_action("InjectionComplete { session_id: ", *session_id)
            },
            Action::Cancel { session_id } => session_action("Cancel { session_id: ", *session_id),
            Action::Fail { session_id } => session_action("Fail { session_id: ", *session_id),
            Action::Recover => String::from_str("Recover"),
            Action::Shutdown => String::from_str("Shutdown"),
        }
    }
}

impl TransitionError {
    /// What the error says to a reader.
    pub fn message(&self) -> (result: String)
        ensures
            result@ == transition_error_text(*self),
    {
        match self {
            TransitionError::InvalidState { state, action } => {
                let mut text = String::from_str("action ");
                text.append(action.describe().as_str());
                text.append(" is invalid while backend is ");
                text.append(state.label());
                text
            },
            TransitionError::StaleSession { active, received } => {
                let mut text = String::from_str("action is for session ");
                text.append(uuid_string(*received).as_str());
                text.append(", but active session is ");
                text.append(uuid_string(*active).as_str());
                text
            },
        }
    }
}

impl Default for StateMachine {
    fn default() -> (result: Self)
        ensures
            result.wf(),
            result.spec_state() is Idle,
            result.session() is None,
    {
        Self::new()
    }
}

impl StateMachine {
    /// The state.
    pub closed spec fn spec_state(&self) -> DictationState {
        self.state
    }

    /// The session under way.
    pub closed spec fn session(&self) -> Option<Uuid> {
        self.active_session_id
    }

    /// A session is active exactly in the states of a session.
    pub open spec fn wf(&self) -> bool {
        self.session() is Some <==> in_session(self.spec_state())
    }

    /// An idle machine.
    #[must_use]
    pub fn new() -> (result: Self)
        ensures
            result.wf(),
            result.spec_state() is Idle,
            result.session() is None,
    {
        Self { state: DictationState::Idle, active_session_id: None }
    }

    #[must_use]
    pub fn state(&self) -> (result: DictationState)
        ensures
            result == self.spec_state(),
    {
        self.state
    }

    #[must_use]
    pub fn active_session_id(&self) -> (result: Option<Uuid>)
        ensures
            result == self.session(),
    {
        self.active_session_id
    }

    /// Applies an action. One that does not apply changes nothing.
    pub fn transition(&mut self, action: Action) -> (result: Result<Transition, TransitionError>)
        ensures
            match transition_outcome(old(self).spec_state(), old(self).session(), action) {
                Ok((active, transition)) => {
                    &&& result == Ok::<Transition, TransitionError>(transition)
                    &&& final(self).spec_state() == transition.current
                    &&& final(self).session() == active
                },
                Err(error) => {
                    &&& result == Err::<Transition, TransitionError>(error)
                    &&& *final(self) == *old(self)
                },
            },
            old(self).wf() ==> final(self).wf(),
    {
        let previous = self.state;
        let invalid = TransitionError::InvalidState { state: previous, action };
        let (current, session_id, terminal) = match action {
            Action::Start { session_id } => {
                if previous != DictationState::Idle {
                    return Err(invalid);
                }
                self.active_session_id = Some(session_id);
                (DictationState::Recording, Some(session_id), false)
            },
            Action::Stop { session_id } => {
                if previous != DictationState::Recording {
                    return Err(invalid);
                }
                self.require_active(session_id)?;
                (DictationState::Transcribing, Some(session_id), false)
            },
            Action::TranscriptionComplete { session_id, post_process, inject } => {
                if previous != DictationState::Transcribing {
                    return Err(invalid);
                }
                self.require_active(session_id)?;
                if post_process {
                    (DictationState::PostProcessing, Some(session_id), false)
                } else if inject {
                    (DictationState::Injecting, Some(session_id), false)
                } else {
                    self.active_session_id = None;
                    (DictationState::Idle, Some(session_id), true)
                }
            },
            Action::PostProcessingComplete { session_id, inject } => {
                if previous != DictationState::PostProcessing {
                    return Err(invalid);
                }
                self.require_active(session_id)?;
                if inject {
                    (DictationState::Injecting, Some(session_id), false)
                } else {
                    self.active_session_id = None;
                    (DictationState::Idle, Some(session_id), true)
                }
            },
            Action::InjectionComplete { session_id } => {
                if previous != DictationState::Injecting {
                    return Err(invalid);
                }
                self.require_active(session_id)?;
                self.active_session_id = None;
                (DictationState::Idle, Some(session_id), true)
            },
            Action::Cancel { session_id } => {
                if previous != DictationState::Recording {
                    return Err(invalid);
                }
                self.require_active(session_id)?;
                self.active_session_id = None;
                (DictationState::Idle, Some(session_id), true)
            },
            Action::Fail { session_id } => {
                if !matches!(
                    previous,
                    DictationState::Recording | DictationState::Transcribing
                        | DictationState::PostProcessing | DictationState::Injecting
                ) {
                    return Err(invalid);
                }
                self.require_active(session_id)?;
                (DictationState::Error, Some(session_id), true)
            },
            Action::Recover => {
                if previous != DictationState::Error {
                    return Err(invalid);
                }
                self.active_session_id = None;
                (DictationState::Idle, None, false)
            },
            Action::Shutdown => {
                if !matches!(previous, DictationState::Idle | DictationState::Error) {
                    return Err(invalid);
                }
                self.active_session_id = None;
                (DictationState::ShuttingDown, None, false)
            },
        };
        self.state = current;
        Ok(Transition { previous, current, session_id, terminal })
    }

    fn require_active(&self, received: Uuid) -> (result: Result<(), TransitionError>)
        ensures
            result == match self.session() {
                Some(active) => if active == received {
                    Ok::<(), TransitionError>(())
                } else {
                    Err(TransitionError::StaleSession { active, received })
                },
                None => Err(
                    TransitionError::InvalidState {
                        state: self.spec_state(),
                        action: Action::Cancel { session_id: received },
                    },
                ),
            },
    {
        match self.active_session_id {
            Some(active) => {
                if active == received {
                    Ok(())
                } else {
                    Err(TransitionError::StaleSession { active, received })
                }
            },
            None => Err(
                TransitionError::InvalidState {
                    state: self.state,
                    action: Action::Cancel { session_id: received },
                },
            ),
        }
    }
}

// ---------------------------------------------------------------------------
// What holds of every session
// ---------------------------------------------------------------------------

/// Every transition made is one of the table of states.
pub proof fn transitions_follow_the_table(
    state: DictationState,
    active: Option<Uuid>,
    action: Action,
)
    ensures
        transition_outcome(state, active, action) matches Ok((_, t)) ==> may_follow(state, t.current)
            && t.previous == state,
{
}

/// While a session is active, only its own actions, and none of another session, move the
/// machine: a late completion or a stop for a session that is gone is refused.
pub proof fn other_sessions_cannot_move_the_machine(
    state: DictationState,
    active: Uuid,
    action: Action,
)
    requires
        in_session(state),
        action_session(action) is Some,
        action_session(action) != Some(active),
    ensures
        transition_outcome(state, Some(active), action) is Err,
{
}

/// Starting while a session is under way is refused.
pub proof fn a_second_start_is_refused(state: DictationState, active: Option<Uuid>, session_id: Uuid)
    requires
        !(state is Idle),
    ensures
        transition_outcome(state, active, Action::Start { session_id }) == Err::<
            (Option<Uuid>, Transition),
            TransitionError,
        >(TransitionError::InvalidState { state, action: Action::Start { session_id } }),
{
}

/// A session ends exactly at the transitions marked terminal: before one it is active, and
/// after one it is over, or it has failed and can only be recovered from or shut down.
pub proof fn terminal_transitions_end_the_session(
    state: DictationState,
    active: Option<Uuid>,
    action: Action,
)
    requires
        active is Some <==> in_session(state),
    ensures
        transition_outcome(state, active, action) matches Ok((after, t)) ==> {
            &&& t.terminal ==> active is Some && active == t.session_id && !(state is Error)
            &&& t.terminal ==> t.current is Idle || t.current is Error
            &&& !t.terminal && active is Some && !(state is Error) ==> after == active
            &&& !t.terminal && active is None ==> t.current is Recording || t.current
                is ShuttingDown
        },
{
}

/// A failed session is left by recovery or shutdown alone, and recovery leads to idle with
/// no session.
pub proof fn failure_recovers_to_idle(active: Option<Uuid>, action: Action)
    ensures
        transition_outcome(DictationState::Error, active, action) is Ok <==> action is Recover
            || action is Shutdown,
        transition_outcome(DictationState::Error, active, Action::Recover) matches Ok((after, t))
            && after is None && t.current is Idle && !t.terminal,
{
}

/// A session that is stopped, transcribed, rewritten where asked and written out where
/// asked ends idle, whatever was asked.
pub proof fn a_full_cycle_ends_idle(session_id: Uuid, post_process: bool, inject: bool)
    ensures
        ({
            let recording = next_state(DictationState::Idle, Action::Start { session_id });
            let transcribing = next_state(recording->0, Action::Stop { session_id });
            let transcribed = next_state(
                transcribing->0,
                Action::TranscriptionComplete { session_id, post_process, inject },
            );
            let processed = if post_process {
                next_state(transcribed->0, Action::PostProcessingComplete { session_id, inject })
            } else {
                transcribed
            };
            let written = if inject {
                next_state(processed->0, Action::InjectionComplete { session_id })
            } else {
                processed
            };
            &&& recording is Some && transcribing is Some && transcribed is Some
            &&& written == Some(DictationState::Idle)
        }),
{
}

/// Every action of the active session applies in the states that it is for, and in no other.
pub proof fn actions_apply_in_their_states(
    state: DictationState,
    session_id: Uuid,
    post_process: bool,
    inject: bool,
)
    ensures
        transition_outcome(state, Some(session_id), Action::Start { session_id }) is Ok <==> state
            is Idle,
        transition_outcome(state, Some(session_id), Action::Stop { session_id }) is Ok <==> state
            is Recording,
        transition_outcome(state, Some(session_id), Action::Cancel { session_id }) is Ok <==> state
            is Recording,
        transition_outcome(
            state,
            Some(session_id),
            Action::TranscriptionComplete { session_id, post_process, inject },
        ) is Ok <==> state is Transcribing,
        transition_outcome(
            state,
            Some(session_id),
            Action::PostProcessingComplete { session_id, inject },
        ) is Ok <==> state is PostProcessing,
        transition_outcome(state, Some(session_id), Action::InjectionComplete { session_id }) is Ok
            <==> state is Injecting,
        transition_outcome(state, Some(session_id), Action::Fail { session_id }) is Ok <==> state
            is Recording || state is Transcribing || state is PostProcessing || state is Injecting,
        transition_outcome(state, Some(session_id), Action::Recover) is Ok <==> state is Error,
        transition_outcome(state, Some(session_id), Action::Shutdown) is Ok <==> state is Idle
            || state is Error,
        transition_outcome(state, None, Action::Start { session_id }) is Ok <==> state is Idle,
        transition_outcome(state, None, Action::Shutdown) is Ok <==> state is Idle || state
            is Error,
{
}

/// Where an action that applies leads to, and whose session is active then.
pub proof fn actions_lead_to_their_states(
    state: DictationState,
    active: Option<Uuid>,
    action: Action,
)
    ensures
        transition_outcome(state, active, action) matches Ok((after, t)) ==> {
            &&& action is Start ==> t.current is Recording && after == action_session(action)
            &&& action is Stop ==> t.current is Transcribing && after == active
            &&& action matches Action::TranscriptionComplete { post_process, inject, .. } ==> {
                &&& post_process ==> t.current is PostProcessing && after == active
                &&& !post_process && inject ==> t.current is Injecting && after == active
                &&& !post_process && !inject ==> t.current is Idle && after is None && t.terminal
            }
            &&& action matches Action::PostProcessingComplete { inject, .. } ==> {
                &&& inject ==> t.current is Injecting && after == active
                &&& !inject ==> t.current is Idle && after is None && t.terminal
            }
            &&& action is InjectionComplete ==> t.current is Idle && after is None && t.terminal
            &&& action is Cancel ==> t.current is Idle && after is None && t.terminal
            &&& action is Fail ==> t.current is Error && after == active && t.terminal
            &&& action is Recover ==> t.current is Idle && after is None && t.session_id is None
            &&& action is Shutdown ==> t.current is ShuttingDown && after is None && t.session_id
                is None
            &&& !(action is Recover) && !(action is Shutdown) ==> t.session_id == action_session(
                action,
            )
        },
{
}

} // verus!
