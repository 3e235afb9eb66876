use speakiput::contract::dto::DictationState;
use speakiput::contract::ids::Uuid;
use speakiput::state::{Action, StateMachine, TransitionError};

fn fresh() -> Uuid {
    Uuid { bits: uuid::Uuid::new_v4().as_u128() }
}

#[test]
fn full_cycle_with_post_processing_and_injection() {
    let session_id = fresh();
    let mut state = StateMachine::new();
    assert_eq!(
        state.transition(Action::Start { session_id }).unwrap().current,
        DictationState::Recording
    );
    assert_eq!(
        state.transition(Action::Stop { session_id }).unwrap().current,
        DictationState::Transcribing
    );
    assert_eq!(
        state
            .transition(Action::TranscriptionComplete {
                session_id,
                post_process: true,
                inject: true,
            })
            .unwrap()
            .current,
        DictationState::PostProcessing
    );
    state
        .transition(Action::PostProcessingComplete { session_id, inject: true })
        .unwrap();
    let final_transition = state
        .transition(Action::InjectionComplete { session_id })
        .unwrap();
    assert_eq!(final_transition.current, DictationState::Idle);
    assert!(final_transition.terminal);
    assert_eq!(state.active_session_id(), None);
}

#[test]
fn explicit_start_rejects_duplicate_start() {
    let mut state = StateMachine::new();
    state.transition(Action::Start { session_id: fresh() }).unwrap();
    let error = state
        .transition(Action::Start { session_id: fresh() })
        .unwrap_err();
    assert!(matches!(error, TransitionError::InvalidState { .. }));
    assert_eq!(state.state(), DictationState::Recording);
}

#[test]
fn late_completion_after_cancel_cannot_move_new_session() {
    let old_session = fresh();
    let new_session = fresh();
    let mut state = StateMachine::new();
    state.transition(Action::Start { session_id: old_session }).unwrap();
    state.transition(Action::Cancel { session_id: old_session }).unwrap();
    state.transition(Action::Start { session_id: new_session }).unwrap();
    let error = state
        .transition(Action::TranscriptionComplete {
            session_id: old_session,
            post_process: false,
            inject: false,
        })
        .unwrap_err();
    assert!(matches!(error, TransitionError::InvalidState { .. }));
    assert_eq!(state.active_session_id(), Some(new_session));
    assert_eq!(state.state(), DictationState::Recording);
}

#[test]
fn stale_stop_is_rejected_without_mutation() {
    let active = fresh();
    let mut state = StateMachine::new();
    state.transition(Action::Start { session_id: active }).unwrap();
    let error = state
        .transition(Action::Stop { session_id: fresh() })
        .unwrap_err();
    assert!(matches!(error, TransitionError::StaleSession { .. }));
    assert_eq!(state.state(), DictationState::Recording);
}

#[test]
fn failure_is_terminal_then_recovers_to_idle() {
    let session_id = fresh();
    let mut state = StateMachine::new();
    state.transition(Action::Start { session_id }).unwrap();
    assert!(state.transition(Action::Fail { session_id }).unwrap().terminal);
    assert_eq!(state.state(), DictationState::Error);
    state.transition(Action::Recover).unwrap();
    assert_eq!(state.state(), DictationState::Idle);
    assert_eq!(state.active_session_id(), None);
}

#[test]
fn shutdown_comes_from_idle_or_error_alone() {
    let session_id = fresh();
    let mut state = StateMachine::default();
    state.transition(Action::Start { session_id }).unwrap();
    assert!(state.transition(Action::Shutdown).is_err());
    state.transition(Action::Fail { session_id }).unwrap();
    assert_eq!(
        state.transition(Action::Shutdown).unwrap().current,
        DictationState::ShuttingDown
    );
    assert!(state.transition(Action::Recover).is_err());
}

#[test]
fn refused_actions_say_why() {
    let session_id = Uuid { bits: 0x67e5_5044_10b1_426f_9247_bb68_0e5f_e0c8 };
    let error = StateMachine::new()
        .transition(Action::TranscriptionComplete {
            session_id,
            post_process: true,
            inject: false,
        })
        .unwrap_err();
    assert_eq!(
        error.message(),
        "action TranscriptionComplete { session_id: 67e55044-10b1-426f-9247-bb680e5fe0c8, \
         post_process: true, inject: false } is invalid while backend is Idle"
    );
    let mut state = StateMachine::new();
    state.transition(Action::Start { session_id }).unwrap();
    let error = state
        .transition(Action::Stop { session_id: Uuid { bits: 0 } })
        .unwrap_err();
    assert_eq!(
        error.message(),
        "action is for session 00000000-0000-0000-0000-000000000000, \
         but active session is 67e55044-10b1-426f-9247-bb680e5fe0c8"
    );
}
