use flowshare_core::lifecycle::{Lifecycle, TransferState};

#[test]
fn accepts_normal_pause_resume_completion_path() {
    let mut value = Lifecycle::new(1);
    for state in [
        TransferState::Preparing,
        TransferState::Connecting,
        TransferState::Transferring,
        TransferState::Pausing,
        TransferState::Paused,
        TransferState::Resuming,
        TransferState::Connecting,
        TransferState::Transferring,
        TransferState::Validating,
        TransferState::Synchronizing,
        TransferState::Finalizing,
        TransferState::Completed,
    ] {
        value.transition(state, value.generation + 2).unwrap();
    }
    assert_eq!(value.state, TransferState::Completed);
}

#[test]
fn rejects_terminal_and_impossible_transitions() {
    let mut completed = Lifecycle {
        state: TransferState::Completed,
        generation: 9,
        last_state_change_unix_ms: 0,
    };
    assert!(completed
        .transition(TransferState::Transferring, 1)
        .is_err());
    let mut cancelled = Lifecycle {
        state: TransferState::Cancelled,
        generation: 2,
        last_state_change_unix_ms: 0,
    };
    assert!(cancelled.transition(TransferState::Completed, 1).is_err());
    let mut failed = Lifecycle {
        state: TransferState::Failed,
        generation: 2,
        last_state_change_unix_ms: 0,
    };
    assert!(failed.transition(TransferState::Finalizing, 1).is_err());
}

#[test]
fn a_refused_transition_leaves_the_lifecycle_alone() {
    let mut value = Lifecycle::new(5);
    let refused = value.transition(TransferState::Completed, 9).unwrap_err();
    assert!(refused.contains("Created") && refused.contains("Completed"));
    assert_eq!(value.state, TransferState::Created);
    assert_eq!(value.last_state_change_unix_ms, 5);
}

#[test]
fn ended_states_go_nowhere() {
    for ended in [
        TransferState::Completed,
        TransferState::Cancelled,
        TransferState::Failed,
    ] {
        assert!(ended.is_terminal());
        assert!(!ended.can_transition_to(TransferState::Connecting));
    }
    assert!(!TransferState::Paused.is_terminal());
}
