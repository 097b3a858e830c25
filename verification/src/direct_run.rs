//! One run of a transfer up to its direct connection, as a sequence of phases: what each end does
//! next, what a failure in each phase is called, and when another attempt is made.

use crate::connectivity::ConnectivityCheckResultPayload;
use crate::connectivity_diagnostics::ConnectivityOutcome;
use crate::failures::{
    attempt_failure, candidate_setup_class, checks_failure, classify_candidate_setup_error,
    classify_connectivity_checks_error, classify_failure, classify_receiver_wait_error,
    classify_signaling_exchange_error, exchange_failure, failure_text, is_recoverable,
    receiver_wait_failure, results_agree, AttemptVerdict, ConnectAttempts,
    MAX_DIRECT_CONNECT_ATTEMPTS,
};
use crate::signaling::NativeDeviceRole;
use vstd::prelude::*;

verus! {

/// What an end is doing.
#[derive(Debug, Clone, Copy, PartialEq, Eq, Structural)]
pub enum RunPhase {
    /// Reaching the signaling server.
    Connecting,
    /// Waiting for the receiver to be known there.
    WaitingForPeer,
    /// Gathering the own candidates, for an offer or for the answer to one.
    SettingUp,
    /// Sending the own offer or answer.
    SendingOwn,
    /// Waiting for the offer or answer of the peer.
    ReceivingPeer,
    /// Taking the answer of the peer.
    AddingPeer,
    /// Checking the pairs.
    Checking,
    /// Sending how the own checks went.
    SendingResult,
    /// Waiting for how the checks of the peer went.
    ReceivingResult,
    /// Taking how the checks of the peer went.
    AddingResult,
    /// Both ends have reported; the attempt is judged next.
    Judging,
    /// Giving up the session of a failed attempt.
    Closing,
    /// Sending the own nomination.
    SendingNomination,
    /// Waiting for the nomination of the peer.
    ReceivingNomination,
    /// Taking the nomination of the peer.
    AddingNomination,
    /// Finding the nominated path.
    FindingPath,
    /// Opening the connection on the nominated path.
    OpeningEndpoint,
    /// Moving the file.
    Running,
}

/// The phase that follows when a phase succeeds. An attempt is judged in between, and a run that
/// moves its file has no next phase.
pub open spec fn phase_after(role: NativeDeviceRole, phase: RunPhase) -> RunPhase {
    match phase {
        RunPhase::Connecting => RunPhase::WaitingForPeer,
        RunPhase::WaitingForPeer => if role is Sender {
            RunPhase::SettingUp
        } else {
            RunPhase::ReceivingPeer
        },
        RunPhase::SettingUp => RunPhase::SendingOwn,
        RunPhase::SendingOwn => if role is Sender {
            RunPhase::ReceivingPeer
        } else {
            RunPhase::Checking
        },
        RunPhase::ReceivingPeer => if role is Sender {
            RunPhase::AddingPeer
        } else {
            RunPhase::SettingUp
        },
        RunPhase::AddingPeer => RunPhase::Checking,
        RunPhase::Checking => RunPhase::SendingResult,
        RunPhase::SendingResult => RunPhase::ReceivingResult,
        RunPhase::ReceivingResult => RunPhase::AddingResult,
        RunPhase::AddingResult => RunPhase::Judging,
        RunPhase::Judging => RunPhase::Judging,
        RunPhase::Closing => if role is Sender {
            RunPhase::SettingUp
        } else {
            RunPhase::ReceivingPeer
        },
        RunPhase::SendingNomination => RunPhase::ReceivingNomination,
        RunPhase::ReceivingNomination => RunPhase::AddingNomination,
        RunPhase::AddingNomination => RunPhase::FindingPath,
        RunPhase::FindingPath => if role is Sender {
            RunPhase::OpeningEndpoint
        } else {
            RunPhase::Running
        },
        RunPhase::OpeningEndpoint => if role is Sender {
            RunPhase::Running
        } else {
            RunPhase::SendingNomination
        },
        RunPhase::Running => RunPhase::Running,
    }
}

/// The phase that follows once both ends agree on a pair: the receiver opens its end before it
/// nominates, the sender after both have nominated.
pub open spec fn phase_after_agreement(role: NativeDeviceRole) -> RunPhase {
    if role is Sender {
        RunPhase::SendingNomination
    } else {
        RunPhase::OpeningEndpoint
    }
}

/// What an error in a phase is called.
pub open spec fn failure_in(role: NativeDeviceRole, phase: RunPhase, error: Seq<char>) -> Seq<
    char,
> {
    match phase {
        RunPhase::WaitingForPeer => if role is Sender {
            receiver_wait_failure(error)
        } else {
            exchange_failure(error)
        },
        RunPhase::SettingUp => failure_text(candidate_setup_class(error), error),
        RunPhase::SendingOwn
        | RunPhase::SendingResult
        | RunPhase::SendingNomination
        | RunPhase::ReceivingPeer
        | RunPhase::ReceivingResult
        | RunPhase::ReceivingNomination => exchange_failure(error),
        RunPhase::AddingPeer
        | RunPhase::AddingResult
        | RunPhase::AddingNomination => failure_text("candidate-exchange-failed"@, error),
        RunPhase::Checking => checks_failure(error),
        RunPhase::Closing => failure_text("direct-connect-recovery-failed"@, error),
        RunPhase::FindingPath => failure_text("no-direct-path"@, error),
        RunPhase::OpeningEndpoint => failure_text("quic-connect-failed"@, error),
        RunPhase::Connecting | RunPhase::Judging | RunPhase::Running => error,
    }
}

/// One run of a transfer.
#[derive(Debug)]
pub struct DirectRun {
    role: NativeDeviceRole,
    phase: RunPhase,
    attempts: ConnectAttempts,
}

impl DirectRun {
    /// Whether this is the sender or the receiver.
    pub closed spec fn end(self) -> NativeDeviceRole {
        self.role
    }

    /// What this end is doing.
    pub closed spec fn now(self) -> RunPhase {
        self.phase
    }

    /// The number of the present attempt, counted from one.
    pub closed spec fn attempt(self) -> u32 {
        self.attempts.number()
    }

    /// The number of the attempt is that of one that may be made, and another attempt only
    /// begins where there is one.
    pub open spec fn wf(self) -> bool {
        &&& 1 <= self.attempt() <= MAX_DIRECT_CONNECT_ATTEMPTS
        &&& self.now() is Closing ==> self.attempt() > 1
    }

    /// Starts a run.
    pub fn begin(role: NativeDeviceRole) -> (run: Self)
        ensures
            run.wf(),
            run.end() == role,
            run.now() is Connecting,
            run.attempt() == 1,
    {
        DirectRun { role, phase: RunPhase::Connecting, attempts: ConnectAttempts::first() }
    }

    /// What this end is doing.
    pub fn phase(&self) -> (phase: RunPhase)
        ensures
            phase == self.now(),
    {
        self.phase
    }

    /// The generation of the candidates of the present attempt.
    pub fn candidate_generation(&self) -> (generation: u32)
        ensures
            generation == self.attempt(),
    {
        self.attempts.generation()
    }

    /// Goes on after a phase that succeeded.
    pub fn advance(&mut self)
        requires
            old(self).wf(),
        ensures
            final(self).wf(),
            final(self).end() == old(self).end(),
            final(self).attempt() == old(self).attempt(),
            final(self).now() == phase_after(old(self).end(), old(self).now()),
    {
        let sends: bool = match self.role {
            NativeDeviceRole::Sender => true,
            NativeDeviceRole::Receiver => false,
        };
        self.phase = match self.phase {
            RunPhase::Connecting => RunPhase::WaitingForPeer,
            RunPhase::WaitingForPeer | RunPhase::Closing => if sends {
                RunPhase::SettingUp
            } else {
                RunPhase::ReceivingPeer
            },
            RunPhase::SettingUp => RunPhase::SendingOwn,
            RunPhase::SendingOwn => if sends {
                RunPhase::ReceivingPeer
            } else {
                RunPhase::Checking
            },
            RunPhase::ReceivingPeer => if sends {
                RunPhase::AddingPeer
            } else {
                RunPhase::SettingUp
            },
            RunPhase::AddingPeer => RunPhase::Checking,
            RunPhase::Checking => RunPhase::SendingResult,
            RunPhase::SendingResult => RunPhase::ReceivingResult,
            RunPhase::ReceivingResult => RunPhase::AddingResult,
            RunPhase::AddingResult | RunPhase::Judging => RunPhase::Judging,
            RunPhase::SendingNomination => RunPhase::ReceivingNomination,
            RunPhase::ReceivingNomination => RunPhase::AddingNomination,
            RunPhase::AddingNomination => RunPhase::FindingPath,
            RunPhase::FindingPath => if sends {
                RunPhase::OpeningEndpoint
            } else {
                RunPhase::Running
            },
            RunPhase::OpeningEndpoint => if sends {
                RunPhase::Running
            } else {
                RunPhase::SendingNomination
            },
            RunPhase::Running => RunPhase::Running,
        };
    }

    /// What an error in the present phase is called.
    pub fn failed(&self, error: &str) -> (text: String)
        ensures
            text@ == failure_in(self.end(), self.now(), error@),
    {
        match self.phase {
            RunPhase::WaitingForPeer => match self.role {
                NativeDeviceRole::Sender => classify_receiver_wait_error(error),
                NativeDeviceRole::Receiver => classify_signaling_exchange_error(error),
            },
            RunPhase::SettingUp => classify_candidate_setup_error(error),
            RunPhase::SendingOwn
            | RunPhase::SendingResult
            | RunPhase::SendingNomination
            | RunPhase::ReceivingPeer
            | RunPhase::ReceivingResult
            | RunPhase::ReceivingNomination => classify_signaling_exchange_error(error),
            RunPhase::AddingPeer
            | RunPhase::AddingResult
            | RunPhase::AddingNomination => classify_failure("candidate-exchange-failed", error),
            RunPhase::Checking => classify_connectivity_checks_error(error),
            RunPhase::Closing => classify_failure("direct-connect-recovery-failed", error),
            RunPhase::FindingPath => classify_failure("no-direct-path", error),
            RunPhase::OpeningEndpoint => classify_failure("quic-connect-failed", error),
            RunPhase::Connecting | RunPhase::Judging | RunPhase::Running => error.to_owned(),
        }
    }

    /// Judges an attempt once both ends have reported: with agreement the pair is nominated, a
    /// failure that may pass leads to another attempt as long as there is one, and anything else
    /// ends the run.
    pub fn judge(
        &mut self,
        local_pair_id: Option<&str>,
        outcome: Option<ConnectivityOutcome>,
        last_error: &Option<String>,
        peer: &ConnectivityCheckResultPayload,
    ) -> (result: Result<(), String>)
        requires
            old(self).wf(),
            old(self).now() is Judging,
        ensures
            final(self).wf(),
            final(self).end() == old(self).end(),
            ({
                let pair = match local_pair_id {
                    Some(pair) => Some(pair@),
                    None => None,
                };
                let error = match *last_error {
                    Some(error) => Some(error@),
                    None => None,
                };
                if results_agree(pair, *peer) {
                    &&& result is Ok
                    &&& final(self).now() == phase_after_agreement(old(self).end())
                    &&& final(self).attempt() == old(self).attempt()
                } else if old(self).attempt() < MAX_DIRECT_CONNECT_ATTEMPTS && is_recoverable(
                    peer.failure,
                ) {
                    &&& result is Ok
                    &&& final(self).now() is Closing
                    &&& final(self).attempt() == old(self).attempt() + 1
                } else {
                    &&& result matches Err(text) && text@ == attempt_failure(
                        pair is Some,
                        outcome,
                        error,
                        peer.failure,
                    )
                    &&& final(self).now() == old(self).now()
                    &&& final(self).attempt() == old(self).attempt()
                }
            }),
    {
        match self.attempts.judge(local_pair_id, outcome, last_error, peer) {
            AttemptVerdict::Agreed => {
                self.phase = match self.role {
                    NativeDeviceRole::Sender => RunPhase::SendingNomination,
                    NativeDeviceRole::Receiver => RunPhase::OpeningEndpoint,
                };
                Ok(())
            },
            AttemptVerdict::Retry => {
                self.phase = RunPhase::Closing;
                Ok(())
            },
            AttemptVerdict::Fail(text) => Err(text),
        }
    }
}

/// What became of a message that was sent.
#[derive(Debug)]
pub enum Delivery {
    /// The peer has it.
    Accepted,
    /// The server refused it.
    Rejected,
    /// It is no message that could be sent.
    Undecodable(String),
    /// It was not delivered.
    Failed(String),
}

/// What a message that was not delivered is called.
pub open spec fn delivery_failure(delivery: Delivery) -> Option<Seq<char>> {
    match delivery {
        Delivery::Accepted => None,
        Delivery::Rejected => Some("candidate-exchange-failed: delivery-rejected"@),
        Delivery::Undecodable(error) => Some(failure_text("candidate-exchange-failed"@, error@)),
        Delivery::Failed(error) => Some(exchange_failure(error@)),
    }
}

/// Checks that a message was delivered.
pub fn check_delivery(delivery: Delivery) -> (result: Result<(), String>)
    ensures
        match result {
            Ok(()) => delivery_failure(delivery) is None,
            Err(error) => delivery_failure(delivery) == Some(error@),
        },
{
    match delivery {
        Delivery::Accepted => Ok(()),
        Delivery::Rejected => Err("candidate-exchange-failed: delivery-rejected".to_owned()),
        Delivery::Undecodable(error) => Err(
            classify_failure("candidate-exchange-failed", error.as_str()),
        ),
        Delivery::Failed(error) => Err(classify_signaling_exchange_error(error.as_str())),
    }
}

/// What the peer reports of its checks. Any other message at that point ends the run.
pub fn require_check_result(reported: Option<ConnectivityCheckResultPayload>) -> (result: Result<
    ConnectivityCheckResultPayload,
    String,
>)
    ensures
        match reported {
            Some(payload) => result == Ok::<ConnectivityCheckResultPayload, String>(payload),
            None => result matches Err(error) && error@
                == "candidate-exchange-failed: native-connectivity-check-result-required"@,
        },
{
    match reported {
        Some(payload) => Ok(payload),
        None => Err(
            "candidate-exchange-failed: native-connectivity-check-result-required".to_owned(),
        ),
    }
}

/// How many phases an attempt has at most from a phase on.
pub open spec fn phases_left(role: NativeDeviceRole, phase: RunPhase) -> int {
    match phase {
        RunPhase::Connecting => 21,
        RunPhase::WaitingForPeer => 20,
        RunPhase::Closing => 20,
        RunPhase::SettingUp => if role is Sender {
            19
        } else {
            18
        },
        RunPhase::SendingOwn => if role is Sender {
            18
        } else {
            17
        },
        RunPhase::ReceivingPeer => if role is Sender {
            17
        } else {
            19
        },
        RunPhase::AddingPeer => 16,
        RunPhase::Checking => 15,
        RunPhase::SendingResult => 14,
        RunPhase::ReceivingResult => 13,
        RunPhase::AddingResult => 12,
        RunPhase::Judging => 11,
        RunPhase::OpeningEndpoint => if role is Sender {
            1
        } else {
            10
        },
        RunPhase::SendingNomination => 9,
        RunPhase::ReceivingNomination => 8,
        RunPhase::AddingNomination => 7,
        RunPhase::FindingPath => 6,
        RunPhase::Running => 0,
    }
}

/// How many phases a run has at most from a phase of an attempt on.
pub open spec fn steps_left(role: NativeDeviceRole, phase: RunPhase, attempt: u32) -> int {
    (MAX_DIRECT_CONNECT_ATTEMPTS - attempt) * 22 + phases_left(role, phase)
}

/// A run does not go round in circles: each phase that succeeds leads closer to the file being
/// moved, and so does judging an attempt, which leads back at most once for each attempt that is
/// left.
pub proof fn law_runs_come_to_an_end(before: DirectRun, after: DirectRun)
    requires
        before.wf(),
        after.wf(),
        after.end() == before.end(),
        !(before.now() is Running),
        ({
            ||| !(before.now() is Judging) && after.now() == phase_after(before.end(), before.now())
                && after.attempt() == before.attempt()
            ||| before.now() is Judging && after.now() == phase_after_agreement(before.end())
                && after.attempt() == before.attempt()
            ||| before.now() is Judging && after.now() is Closing && after.attempt()
                == before.attempt() + 1
        }),
    ensures
        0 <= steps_left(after.end(), after.now(), after.attempt()) < steps_left(
            before.end(),
            before.now(),
            before.attempt(),
        ),
{
}

/// No file is moved without agreement. Going back from the file being moved there is only one
/// way: both ends have nominated, and the nomination of each end follows the agreement on a pair
/// and nothing else.
pub proof fn law_files_move_only_after_nomination(role: NativeDeviceRole, before: RunPhase)
    requires
        !(before is Running),
    ensures
        phase_after(role, before) is Running ==> before == if role is Sender {
            RunPhase::OpeningEndpoint
        } else {
            RunPhase::FindingPath
        },
        role is Sender && phase_after(role, before) is OpeningEndpoint ==> before is FindingPath,
        phase_after(role, before) is FindingPath ==> before is AddingNomination,
        phase_after(role, before) is AddingNomination ==> before is ReceivingNomination,
        phase_after(role, before) is ReceivingNomination ==> before is SendingNomination,
        phase_after(role, before) is SendingNomination ==> role is Receiver
            && before is OpeningEndpoint,
        phase_after(role, before) != phase_after_agreement(role),
{
}

} // verus!
