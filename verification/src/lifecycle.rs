//! The states of one transfer and the transitions between them.

use crate::text::append_text;
use vstd::prelude::*;

verus! {

#[derive(Debug, Clone, Copy, PartialEq, Eq, Structural)]
pub enum TransferState {
    Created,
    Preparing,
    Connecting,
    Transferring,
    Pausing,
    Paused,
    PausedByDisconnect,
    Resuming,
    Cancelling,
    Cancelled,
    Validating,
    Synchronizing,
    Finalizing,
    Completed,
    RecoverableFailure,
    Failed,
}

impl TransferState {
    /// The name of the state in messages.
    pub open spec fn label(self) -> Seq<char> {
        match self {
            TransferState::Created => "Created"@,
            TransferState::Preparing => "Preparing"@,
            TransferState::Connecting => "Connecting"@,
            TransferState::Transferring => "Transferring"@,
            TransferState::Pausing => "Pausing"@,
            TransferState::Paused => "Paused"@,
            TransferState::PausedByDisconnect => "PausedByDisconnect"@,
            TransferState::Resuming => "Resuming"@,
            TransferState::Cancelling => "Cancelling"@,
            TransferState::Cancelled => "Cancelled"@,
            TransferState::Validating => "Validating"@,
            TransferState::Synchronizing => "Synchronizing"@,
            TransferState::Finalizing => "Finalizing"@,
            TransferState::Completed => "Completed"@,
            TransferState::RecoverableFailure => "RecoverableFailure"@,
            TransferState::Failed => "Failed"@,
        }
    }

    fn name(self) -> (name: &'static str)
        ensures
            name@ == self.label(),
    {
        match self {
            TransferState::Created => "Created",
            TransferState::Preparing => "Preparing",
            TransferState::Connecting => "Connecting",
            TransferState::Transferring => "Transferring",
            TransferState::Pausing => "Pausing",
            TransferState::Paused => "Paused",
            TransferState::PausedByDisconnect => "PausedByDisconnect",
            TransferState::Resuming => "Resuming",
            TransferState::Cancelling => "Cancelling",
            TransferState::Cancelled => "Cancelled",
            TransferState::Validating => "Validating",
            TransferState::Synchronizing => "Synchronizing",
            TransferState::Finalizing => "Finalizing",
            TransferState::Completed => "Completed",
            TransferState::RecoverableFailure => "RecoverableFailure",
            TransferState::Failed => "Failed",
        }
    }

    /// Whether the transfer has ended.
    pub open spec fn ended(self) -> bool {
        self is Cancelled || self is Completed || self is Failed
    }

    /// Whether the transfer has ended.
    pub fn is_terminal(self) -> (terminal: bool)
        ensures
            terminal == self.ended(),
    {
        matches!(
            self,
            TransferState::Cancelled | TransferState::Completed | TransferState::Failed
        )
    }

    /// Whether `next` is a state that this one leads to, other than itself.
    pub open spec fn leads_to(self, next: Self) -> bool {
        match self {
            TransferState::Created => next is Preparing || next is Cancelling || next is Failed,
            TransferState::Preparing => next is Connecting || next is Cancelling || next is Failed,
            TransferState::Connecting => next is Transferring || next is Cancelling
                || next is RecoverableFailure || next is Failed,
            TransferState::Transferring => next is Pausing || next is PausedByDisconnect
                || next is Cancelling || next is Validating || next is RecoverableFailure
                || next is Failed,
            TransferState::Pausing => next is Paused || next is Cancelling
                || next is RecoverableFailure || next is Failed,
            TransferState::Paused
            | TransferState::PausedByDisconnect
            | TransferState::RecoverableFailure => next is Resuming || next is Cancelling
                || next is Cancelled || next is Failed,
            TransferState::Cancelled => next is Resuming,
            TransferState::Resuming => next is Connecting || next is Cancelling
                || next is RecoverableFailure || next is Failed,
            TransferState::Cancelling => next is Cancelled || next is Failed,
            TransferState::Validating => next is Synchronizing || next is Cancelling
                || next is RecoverableFailure || next is Failed,
            TransferState::Synchronizing => next is Finalizing || next is Cancelling
                || next is RecoverableFailure || next is Failed,
            TransferState::Finalizing => next is Completed || next is RecoverableFailure
                || next is Failed,
            TransferState::Completed | TransferState::Failed => false,
        }
    }

    /// Whether `next` may follow this state.
    pub open spec fn may_become(self, next: Self) -> bool {
        self.leads_to(next) || self == next
    }

    /// Whether `next` may follow this state.
    pub fn can_transition_to(self, next: Self) -> (allowed: bool)
        ensures
            allowed == self.may_become(next),
    {
        if self == next {
            return true;
        }
        match self {
            TransferState::Created => matches!(
                next,
                TransferState::Preparing | TransferState::Cancelling | TransferState::Failed
            ),
            TransferState::Preparing => matches!(
                next,
                TransferState::Connecting | TransferState::Cancelling | TransferState::Failed
            ),
            TransferState::Connecting => matches!(
                next,
                TransferState::Transferring
                    | TransferState::Cancelling
                    | TransferState::RecoverableFailure
                    | TransferState::Failed
            ),
            TransferState::Transferring => matches!(
                next,
                TransferState::Pausing
                    | TransferState::PausedByDisconnect
                    | TransferState::Cancelling
                    | TransferState::Validating
                    | TransferState::RecoverableFailure
                    | TransferState::Failed
            ),
            TransferState::Pausing => matches!(
                next,
                TransferState::Paused
                    | TransferState::Cancelling
                    | TransferState::RecoverableFailure
                    | TransferState::Failed
            ),
            TransferState::Paused
            | TransferState::PausedByDisconnect
            | TransferState::RecoverableFailure => matches!(
                next,
                TransferState::Resuming
                    | TransferState::Cancelling
                    | TransferState::Cancelled
                    | TransferState::Failed
            ),
            TransferState::Cancelled => matches!(next, TransferState::Resuming),
            TransferState::Resuming => matches!(
                next,
                TransferState::Connecting
                    | TransferState::Cancelling
                    | TransferState::RecoverableFailure
                    | TransferState::Failed
            ),
            TransferState::Cancelling => matches!(
                next,
                TransferState::Cancelled | TransferState::Failed
            ),
            TransferState::Validating => matches!(
                next,
                TransferState::Synchronizing
                    | TransferState::Cancelling
                    | TransferState::RecoverableFailure
                    | TransferState::Failed
            ),
            TransferState::Synchronizing => matches!(
                next,
                TransferState::Finalizing
                    | TransferState::Cancelling
                    | TransferState::RecoverableFailure
                    | TransferState::Failed
            ),
            TransferState::Finalizing => matches!(
                next,
                TransferState::Completed
                    | TransferState::RecoverableFailure
                    | TransferState::Failed
            ),
            TransferState::Completed | TransferState::Failed => false,
        }
    }
}

/// The state of a transfer, how often it changed, and when it changed last.
#[derive(Debug, Clone)]
pub struct Lifecycle {
    pub state: TransferState,
    pub generation: u64,
    pub last_state_change_unix_ms: u64,
}

/// The message for a transition that is not allowed.
pub open spec fn invalid_transition_text(from: TransferState, to: TransferState) -> Seq<char> {
    "invalid native transfer transition: "@ + from.label() + " -> "@ + to.label()
}

/// Where a transition to `next` leads, and what it reports.
pub open spec fn after_transition(lifecycle: Lifecycle, next: TransferState, now: u64) -> (
    Lifecycle,
    Option<Seq<char>>,
) {
    if !lifecycle.state.may_become(next) {
        (lifecycle, Some(invalid_transition_text(lifecycle.state, next)))
    } else if lifecycle.state == next {
        (lifecycle, None)
    } else if lifecycle.generation == u64::MAX {
        (Lifecycle { state: next, ..lifecycle }, Some("lifecycle generation overflow"@))
    } else {
        (
            Lifecycle {
                state: next,
                generation: (lifecycle.generation + 1) as u64,
                last_state_change_unix_ms: now,
            },
            None,
        )
    }
}

impl Lifecycle {
    /// A transfer that was just created.
    pub fn new(now: u64) -> (lifecycle: Self)
        ensures
            lifecycle.state is Created,
            lifecycle.generation == 0,
            lifecycle.last_state_change_unix_ms == now,
    {
        Lifecycle { state: TransferState::Created, generation: 0, last_state_change_unix_ms: now }
    }

    /// Moves to `next`. Every change of state raises the generation by one; a transition to the
    /// present state changes nothing.
    ///
    /// Where the generation has reached its largest value the state still changes, and the
    /// error says so.
    pub fn transition(&mut self, next: TransferState, now: u64) -> (result: Result<(), String>)
        ensures
            *final(self) == after_transition(*old(self), next, now).0,
            match result {
                Ok(()) => after_transition(*old(self), next, now).1 is None,
                Err(message) => after_transition(*old(self), next, now).1 == Some(message@),
            },
    {
        if !self.state.can_transition_to(next) {
            let mut message: String = "invalid native transfer transition: ".to_owned();
            append_text(&mut message, self.state.name());
            append_text(&mut message, " -> ");
            append_text(&mut message, next.name());
            return Err(message);
        }
        if self.state != next {
            self.state = next;
            match self.generation.checked_add(1) {
                Some(generation) => {
                    self.generation = generation;
                },
                None => {
                    return Err("lifecycle generation overflow".to_owned());
                },
            }
            self.last_state_change_unix_ms = now;
        }
        Ok(())
    }
}

/// A completed or failed transfer stays as it is, and a cancelled one can only be resumed.
pub proof fn law_ended_transfers_stay_ended(state: TransferState, next: TransferState)
    requires
        state.ended(),
        state.may_become(next),
    ensures
        next == state || (state is Cancelled && next is Resuming),
{
}

/// Payload validation, synchronization and finalization come before completion: only a transfer
/// that is being finalized, or that is already complete, can become complete.
pub proof fn law_only_finalizing_completes(state: TransferState)
    ensures
        state.may_become(TransferState::Completed) ==> state is Finalizing || state is Completed,
        state.may_become(TransferState::Finalizing) ==> state is Synchronizing
            || state is Finalizing,
        state.may_become(TransferState::Synchronizing) ==> state is Validating
            || state is Synchronizing,
        state.may_become(TransferState::Validating) ==> state is Transferring
            || state is Validating,
{
}

/// A transfer can fail from every state that has not ended.
pub proof fn law_every_open_state_can_fail(state: TransferState)
    requires
        !state.ended(),
    ensures
        state.may_become(TransferState::Failed),
{
}

} // verus!
