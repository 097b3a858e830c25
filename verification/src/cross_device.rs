//! Transfers between two devices: what each end knows of one, who may do what in which state,
//! and how invitations, resumptions and stored records are taken up.

use crate::authorization::saturating_sum;
use crate::authorization_delivery::EphemeralIdentity;
use crate::arith::{clamp_u64, clamped};
use crate::candidates::CandidatePrivacyPolicy;
use crate::connectivity::{usual_options, ConnectivityGatherOptions};
use crate::encoding::{
    decode_hex_32, hex, hex_text, hex_value_32, parsed_uuid, uuid_parse, uuid_string, uuid_text,
};
use crate::failures::{classify_failure, classify_runtime_error, failure_text, runtime_failure};
use crate::ordering::{in_order, sort, views, Ranked};
use crate::paths::{join_path, joined_path, PathStyle};
use crate::received_files::{filename_defect, sanitize_received_filename, without_tail};
use crate::registry::Registry;
use crate::text::same_text;
use vstd::prelude::*;

verus! {

/// The size of a block of a file.
pub const NATIVE_BLOCK_BYTES: usize = 2_097_152;

/// How many transfers, or prepared receivers, are kept at most.
pub const MAX_SPLIT_ROLE_RECORDS: usize = 64;

/// How long a prepared receiver waits when nothing else is asked for: ten minutes.
pub const DEFAULT_MANUAL_PACKAGE_LIFETIME_MS: u64 = 600_000;

/// The version of the stored state of an outgoing transfer.
pub const OUTGOING_STATE_VERSION: u16 = 1;

/// How far the clocks of two devices may be apart, in milliseconds.
pub const BOOTSTRAP_SLACK_MS: u64 = 30_000;

#[derive(Debug, Clone, Copy, PartialEq, Eq, Structural)]
pub enum NativeAuthorizationDeliveryMode {
    ManualPackage,
}

#[derive(Debug, Clone, Copy, PartialEq, Eq, Structural)]
pub enum OutgoingNativeState {
    Created,
    AwaitingReceiver,
    AuthorizationDelivering,
    GatheringCandidates,
    Connecting,
    Transferring,
    Finalizing,
    Paused,
    Completed,
    Cancelled,
    Failed,
}

#[derive(Debug, Clone, Copy, PartialEq, Eq, Structural)]
pub enum IncomingNativeState {
    InvitationImported,
    AwaitingAcceptance,
    Accepted,
    GatheringCandidates,
    Connecting,
    Receiving,
    Finalizing,
    Paused,
    Completed,
    Cancelled,
    Declined,
    Failed,
}

/// How the user of this end asked a transfer to stop.
#[derive(Debug, Clone, Copy, PartialEq, Eq, Structural)]
pub enum LocalStopIntent {
    Cancel { retain_partial: bool },
    Pause,
}

/// What a run that moved a whole file reports.
#[derive(Debug, Clone, PartialEq, Eq)]
pub struct SplitTransferResult {
    pub payload_bytes: u64,
    pub bytes_skipped: u64,
    pub integrity_result: String,
    pub signaling_file_payload_bytes: u64,
    /// The average rate over the whole run.
    pub bytes_per_second: u64,
}

/// What changes while an outgoing transfer goes on.
#[derive(Debug)]
pub struct OutgoingMutable {
    pub state: OutgoingNativeState,
    /// The peer is to be told of a stop.
    pub control_requested: bool,
    /// The run is to end at once.
    pub cancelled: bool,
    pub local_stop: Option<LocalStopIntent>,
    pub pause_request_id: Option<[u8; 16]>,
    pub runtime_active: bool,
    pub connectivity_session_id: Option<String>,
    pub quic_session_id: Option<String>,
    pub selected_path: Option<String>,
    pub bytes_sent: u64,
    pub bytes_skipped: u64,
    pub peer_checkpoint_generation: Option<u64>,
    pub peer_state_digest: Option<[u8; 32]>,
    pub peer_completed_bytes: u64,
    pub integrity_result: Option<String>,
    pub performance: Option<SplitTransferResult>,
    pub signaling_file_payload_bytes: u64,
    pub terminal_error: Option<String>,
}

/// What changes while an incoming transfer goes on.
#[derive(Debug)]
pub struct IncomingMutable {
    pub state: IncomingNativeState,
    /// The peer is to be told of a stop.
    pub control_requested: bool,
    /// The run is to end at once.
    pub cancelled: bool,
    pub local_stop: Option<LocalStopIntent>,
    pub peer_cancel_retain_partial: Option<bool>,
    pub pause_request_id: Option<[u8; 16]>,
    pub runtime_active: bool,
    pub connectivity_session_id: Option<String>,
    pub quic_session_id: Option<String>,
    pub selected_path: Option<String>,
    pub accepted_filename: Option<String>,
    pub expected_file_size: Option<u64>,
    pub expected_sha256: Option<[u8; 32]>,
    pub final_path: Option<String>,
    pub part_path: Option<String>,
    pub bytes_received: u64,
    pub bytes_written: u64,
    pub bytes_skipped: u64,
    pub checkpoint_generation: u64,
    pub secure_state_digest: Option<[u8; 32]>,
    pub completed_checkpoint_bytes: u64,
    pub integrity_result: Option<String>,
    pub performance: Option<SplitTransferResult>,
    pub signaling_file_payload_bytes: u64,
    pub terminal_error: Option<String>,
}

impl OutgoingMutable {
    /// Whether a stop comes too late or has no effect.
    pub open spec fn is_settled(self) -> bool {
        self.state is Finalizing || self.state is Completed || self.state is Cancelled
    }

    /// Why the transfer cannot be started, if it cannot.
    pub open spec fn start_refusal(self) -> Option<Seq<char>> {
        if self.runtime_active {
            Some("native-outgoing-runtime-already-active"@)
        } else if !(self.state is AwaitingReceiver) {
            Some("native-outgoing-start-state-invalid"@)
        } else {
            None
        }
    }

    /// The transfer once it is started: what was left from an earlier run is forgotten, and the
    /// new run counts as active.
    pub open spec fn started(self) -> Self {
        OutgoingMutable {
            runtime_active: true,
            state: OutgoingNativeState::GatheringCandidates,
            control_requested: false,
            cancelled: false,
            local_stop: None,
            pause_request_id: None,
            integrity_result: None,
            terminal_error: None,
            ..self
        }
    }

    /// Starts the transfer.
    pub fn start(&mut self) -> (result: Result<(), String>)
        ensures
            match result {
                Ok(()) => old(self).start_refusal() is None && *final(self) == old(self).started(),
                Err(error) => old(self).start_refusal() == Some(error@) && *final(self) == *old(self),
            },
    {
        if self.runtime_active {
            return Err("native-outgoing-runtime-already-active".to_owned());
        }
        if self.state != OutgoingNativeState::AwaitingReceiver {
            return Err("native-outgoing-start-state-invalid".to_owned());
        }
        self.cancelled = false;
        self.control_requested = false;
        self.local_stop = None;
        self.pause_request_id = None;
        self.state = OutgoingNativeState::GatheringCandidates;
        self.terminal_error = None;
        self.integrity_result = None;
        self.runtime_active = true;
        Ok(())
    }

    /// Notes the task that runs the transfer, unless it has ended already.
    pub fn register_task(&mut self, finished: bool)
        ensures
            *final(self) == (OutgoingMutable {
                runtime_active: old(self).runtime_active || !finished,
                ..*old(self)
            }),
    {
        if !finished {
            self.runtime_active = true;
        }
    }

    /// Notes the session that looks for a direct path, and the connection that it is to lead to.
    pub fn session_opened(&mut self, connectivity_session_id: String, quic_session_id: String)
        ensures
            *final(self) == (OutgoingMutable {
                connectivity_session_id: Some(connectivity_session_id),
                quic_session_id: Some(quic_session_id),
                ..*old(self)
            }),
    {
        self.connectivity_session_id = Some(connectivity_session_id);
        self.quic_session_id = Some(quic_session_id);
    }

    /// Notes that the pairs are being checked.
    pub fn checks_started(&mut self)
        ensures
            *final(self) == (OutgoingMutable { state: OutgoingNativeState::Connecting, ..*old(self) }),
    {
        self.state = OutgoingNativeState::Connecting;
    }

    /// Notes the path that was found, and how much of the file went over the signaling server on
    /// the way to it.
    pub fn path_selected(&mut self, selected_path: String, signaling_file_payload_bytes: u64)
        ensures
            *final(self) == (OutgoingMutable {
                selected_path: Some(selected_path),
                signaling_file_payload_bytes,
                ..*old(self)
            }),
    {
        self.selected_path = Some(selected_path);
        self.signaling_file_payload_bytes = signaling_file_payload_bytes;
    }

    /// The transfer after it was asked to cancel: while data moves the peer is told, before that
    /// the run is ended at once.
    pub open spec fn stopped(self, retain_partial: bool) -> Self {
        OutgoingMutable {
            local_stop: Some(LocalStopIntent::Cancel { retain_partial }),
            control_requested: self.control_requested || self.state is Transferring,
            cancelled: self.cancelled || !(self.state is Transferring),
            state: OutgoingNativeState::Cancelled,
            ..self
        }
    }

    /// Cancels the transfer, unless it is settled. Says whether it was cancelled.
    pub fn cancel(&mut self, retain_partial: bool) -> (stopped: bool)
        ensures
            stopped == !old(self).is_settled(),
            *final(self) == if old(self).is_settled() {
                *old(self)
            } else {
                old(self).stopped(retain_partial)
            },
    {
        if matches!(self.state, OutgoingNativeState::Finalizing | OutgoingNativeState::Completed | OutgoingNativeState::Cancelled) {
            return false;
        }
        self.local_stop = Some(LocalStopIntent::Cancel { retain_partial });
        if self.state == OutgoingNativeState::Transferring {
            self.control_requested = true;
        } else {
            self.cancelled = true;
        }
        self.state = OutgoingNativeState::Cancelled;
        true
    }

    /// The transfer after it was asked to pause.
    pub open spec fn paused(self, request_id: [u8; 16]) -> Self {
        OutgoingMutable {
            local_stop: Some(LocalStopIntent::Pause),
            pause_request_id: Some(request_id),
            control_requested: true,
            state: OutgoingNativeState::Paused,
            ..self
        }
    }

    /// Why the transfer cannot be paused, if it cannot.
    pub open spec fn pause_refusal(self) -> Option<Seq<char>> {
        if self.state is Paused || self.state is Transferring {
            None
        } else {
            Some("native-outgoing-pause-state-invalid"@)
        }
    }

    /// Pauses the transfer while data moves. One that is paused stays so.
    pub fn pause(&mut self, request_id: [u8; 16]) -> (result: Result<(), String>)
        ensures
            match result {
                Ok(()) => old(self).pause_refusal() is None && *final(self) == if old(self).state is Paused {
                    *old(self)
                } else {
                    old(self).paused(request_id)
                },
                Err(error) => old(self).pause_refusal() == Some(error@) && *final(self) == *old(self),
            },
    {
        if self.state == OutgoingNativeState::Paused {
            return Ok(());
        }
        if self.state != OutgoingNativeState::Transferring {
            return Err("native-outgoing-pause-state-invalid".to_owned());
        }
        self.local_stop = Some(LocalStopIntent::Pause);
        self.pause_request_id = Some(request_id);
        self.control_requested = true;
        self.state = OutgoingNativeState::Paused;
        Ok(())
    }

    /// Why the transfer cannot be finalized, if it cannot.
    pub open spec fn finalization_refusal(self) -> Option<Seq<char>> {
        if self.local_stop == Some(LocalStopIntent::Pause) || self.state is Paused {
            Some("native-transfer-paused"@)
        } else if self.local_stop is Some || self.state is Cancelled {
            Some("native-transfer-cancelled"@)
        } else if !(self.state is Transferring) {
            Some("native-outgoing-finalization-state-invalid"@)
        } else {
            None
        }
    }

    /// Takes the transfer into its last phase. From then on it can no longer be stopped.
    pub fn claim_finalization(&mut self) -> (result: Result<(), String>)
        ensures
            match result {
                Ok(()) => old(self).finalization_refusal() is None && *final(self) == (OutgoingMutable {
                    state: OutgoingNativeState::Finalizing,
                    ..*old(self)
                }),
                Err(error) => old(self).finalization_refusal() == Some(error@) && *final(self)
                    == *old(self),
            },
    {
        let paused: bool = match self.local_stop {
            Some(LocalStopIntent::Pause) => true,
            _ => false,
        };
        if paused || self.state == OutgoingNativeState::Paused {
            return Err("native-transfer-paused".to_owned());
        }
        if self.local_stop.is_some() || self.state == OutgoingNativeState::Cancelled {
            return Err("native-transfer-cancelled".to_owned());
        }
        if self.state != OutgoingNativeState::Transferring {
            return Err("native-outgoing-finalization-state-invalid".to_owned());
        }
        self.state = OutgoingNativeState::Finalizing;
        Ok(())
    }

    /// What is shown of an error at the end of a run: nothing once the transfer is complete, the
    /// own stop where there was one, and otherwise the error with its class.
    pub open spec fn shown_error(self, error: Seq<char>) -> Option<Seq<char>> {
        if ended_outgoing(self.state, error) is Completed {
            None
        } else {
            Some(
                match self.local_stop {
                    Some(LocalStopIntent::Cancel { .. }) => "native-transfer-cancelled"@,
                    Some(LocalStopIntent::Pause) => "native-transfer-paused"@,
                    None => runtime_failure(error),
                },
            )
        }
    }

    /// Ends a run with its result.
    pub fn finish(&mut self, result: Result<SplitTransferResult, String>)
        ensures
            match result {
                Ok(done) => *final(self) == (OutgoingMutable {
                    runtime_active: false,
                    bytes_sent: done.payload_bytes,
                    bytes_skipped: done.bytes_skipped,
                    integrity_result: final(self).integrity_result,
                    signaling_file_payload_bytes: done.signaling_file_payload_bytes,
                    performance: Some(done),
                    state: OutgoingNativeState::Completed,
                    terminal_error: None,
                    ..*old(self)
                }) && (final(self).integrity_result matches Some(text) && text@
                    == done.integrity_result@),
                Err(error) => *final(self) == (OutgoingMutable {
                    runtime_active: false,
                    state: ended_outgoing(old(self).state, error@),
                    terminal_error: final(self).terminal_error,
                    ..*old(self)
                }) && match final(self).terminal_error {
                    Some(text) => old(self).shown_error(error@) == Some(text@),
                    None => old(self).shown_error(error@) is None,
                },
            },
    {
        self.runtime_active = false;
        match result {
            Ok(done) => {
                self.bytes_sent = done.payload_bytes;
                self.bytes_skipped = done.bytes_skipped;
                self.integrity_result = Some(done.integrity_result.clone());
                self.signaling_file_payload_bytes = done.signaling_file_payload_bytes;
                self.performance = Some(done);
                self.state = OutgoingNativeState::Completed;
                self.terminal_error = None;
            },
            Err(error) => {
                self.state = terminal_outgoing_state(self.state, error.as_str());
                self.terminal_error = if self.state == OutgoingNativeState::Completed {
                    None
                } else {
                    Some(
                        match self.local_stop {
                            Some(LocalStopIntent::Cancel { .. }) =>
                                "native-transfer-cancelled".to_owned(),
                            Some(LocalStopIntent::Pause) => "native-transfer-paused".to_owned(),
                            None => classify_runtime_error(error.as_str()),
                        },
                    )
                };
            },
        }
    }
}

/// The state in which a run ends that reports an error.
pub open spec fn ended_outgoing(current: OutgoingNativeState, error: Seq<char>) -> OutgoingNativeState {
    if current is Completed {
        OutgoingNativeState::Completed
    } else if current is Cancelled || error == "native-transfer-cancelled"@ || error
        == "peer-cancelled"@ {
        OutgoingNativeState::Cancelled
    } else if current is Paused || error == "native-transfer-paused"@ || error
        == "peer-paused"@ {
        OutgoingNativeState::Paused
    } else {
        OutgoingNativeState::Failed
    }
}

/// The state in which a run ends that reports an error.
pub fn terminal_outgoing_state(current: OutgoingNativeState, error: &str) -> (state:
    OutgoingNativeState)
    ensures
        state == ended_outgoing(current, error@),
{
    if current == OutgoingNativeState::Completed {
        OutgoingNativeState::Completed
    } else if current == OutgoingNativeState::Cancelled || same_text(
        error,
        "native-transfer-cancelled",
    ) || same_text(error, "peer-cancelled") {
        OutgoingNativeState::Cancelled
    } else if current == OutgoingNativeState::Paused || same_text(error, "native-transfer-paused")
        || same_text(error, "peer-paused") {
        OutgoingNativeState::Paused
    } else {
        OutgoingNativeState::Failed
    }
}

/// Once a run has claimed the last phase it decides alone how the transfer ends: cancelling it
/// changes nothing.
pub proof fn law_finalizing_outgoing_cannot_be_cancelled(before: OutgoingMutable, after: OutgoingMutable)
    requires
        before.finalization_refusal() is None,
        after == (OutgoingMutable { state: OutgoingNativeState::Finalizing, ..before }),
    ensures
        after.is_settled(),
        !(after.state is Paused) && !(after.state is Transferring),
{
}

/// A transfer that is complete stays complete, whatever its run reports.
pub proof fn law_completed_outgoing_stays_completed(error: Seq<char>)
    ensures
        ended_outgoing(OutgoingNativeState::Completed, error) is Completed,
{
}

/// A transfer that was asked to stop is not finalized.
pub proof fn law_stopped_outgoing_is_not_finalized(
    transfer: OutgoingMutable,
    retain_partial: bool,
    request_id: [u8; 16],
)
    ensures
        transfer.stopped(retain_partial).finalization_refusal() == Some(
            "native-transfer-cancelled"@,
        ),
        transfer.paused(request_id).finalization_refusal() == Some("native-transfer-paused"@),
{
}

impl IncomingMutable {
    /// Whether a stop comes too late or has no effect.
    pub open spec fn is_settled(self) -> bool {
        self.state is Finalizing || self.state is Completed || self.state is Cancelled || self.state is Declined
    }

    /// Why the transfer cannot be started, if it cannot.
    pub open spec fn start_refusal(self) -> Option<Seq<char>> {
        if self.runtime_active {
            Some("native-incoming-runtime-already-active"@)
        } else if !(self.state is Accepted) {
            Some("native-incoming-start-state-invalid"@)
        } else {
            None
        }
    }

    /// The transfer once it is started: what was left from an earlier run is forgotten, and the
    /// new run counts as active.
    pub open spec fn started(self) -> Self {
        IncomingMutable {
            runtime_active: true,
            state: IncomingNativeState::GatheringCandidates,
            control_requested: false,
            cancelled: false,
            local_stop: None,
            peer_cancel_retain_partial: None,
            pause_request_id: None,
            integrity_result: None,
            terminal_error: None,
            ..self
        }
    }

    /// Starts the transfer.
    pub fn start(&mut self) -> (result: Result<(), String>)
        ensures
            match result {
                Ok(()) => old(self).start_refusal() is None && *final(self) == old(self).started(),
                Err(error) => old(self).start_refusal() == Some(error@) && *final(self) == *old(self),
            },
    {
        if self.runtime_active {
            return Err("native-incoming-runtime-already-active".to_owned());
        }
        if self.state != IncomingNativeState::Accepted {
            return Err("native-incoming-start-state-invalid".to_owned());
        }
        self.cancelled = false;
        self.control_requested = false;
        self.local_stop = None;
        self.peer_cancel_retain_partial = None;
        self.pause_request_id = None;
        self.state = IncomingNativeState::GatheringCandidates;
        self.terminal_error = None;
        self.integrity_result = None;
        self.runtime_active = true;
        Ok(())
    }

    /// Notes the task that runs the transfer, unless it has ended already.
    pub fn register_task(&mut self, finished: bool)
        ensures
            *final(self) == (IncomingMutable {
                runtime_active: old(self).runtime_active || !finished,
                ..*old(self)
            }),
    {
        if !finished {
            self.runtime_active = true;
        }
    }

    /// Notes the session that looks for a direct path, and the connection that it is to lead to.
    pub fn session_opened(&mut self, connectivity_session_id: String, quic_session_id: String)
        ensures
            *final(self) == (IncomingMutable {
                connectivity_session_id: Some(connectivity_session_id),
                quic_session_id: Some(quic_session_id),
                ..*old(self)
            }),
    {
        self.connectivity_session_id = Some(connectivity_session_id);
        self.quic_session_id = Some(quic_session_id);
    }

    /// Notes that the pairs are being checked.
    pub fn checks_started(&mut self)
        ensures
            *final(self) == (IncomingMutable { state: IncomingNativeState::Connecting, ..*old(self) }),
    {
        self.state = IncomingNativeState::Connecting;
    }

    /// Notes the path that was found, and how much of the file went over the signaling server on
    /// the way to it.
    pub fn path_selected(&mut self, selected_path: String, signaling_file_payload_bytes: u64)
        ensures
            *final(self) == (IncomingMutable {
                selected_path: Some(selected_path),
                signaling_file_payload_bytes,
                ..*old(self)
            }),
    {
        self.selected_path = Some(selected_path);
        self.signaling_file_payload_bytes = signaling_file_payload_bytes;
    }

    /// The transfer after it was asked to cancel: while data moves the peer is told, before that
    /// the run is ended at once.
    pub open spec fn stopped(self, retain_partial: bool) -> Self {
        IncomingMutable {
            local_stop: Some(LocalStopIntent::Cancel { retain_partial }),
            control_requested: self.control_requested || self.state is Receiving,
            cancelled: self.cancelled || !(self.state is Receiving),
            state: IncomingNativeState::Cancelled,
            ..self
        }
    }

    /// Cancels the transfer, unless it is settled. Says whether it was cancelled.
    pub fn cancel(&mut self, retain_partial: bool) -> (stopped: bool)
        ensures
            stopped == !old(self).is_settled(),
            *final(self) == if old(self).is_settled() {
                *old(self)
            } else {
                old(self).stopped(retain_partial)
            },
    {
        if matches!(self.state, IncomingNativeState::Finalizing | IncomingNativeState::Completed | IncomingNativeState::Cancelled | IncomingNativeState::Declined) {
            return false;
        }
        self.local_stop = Some(LocalStopIntent::Cancel { retain_partial });
        if self.state == IncomingNativeState::Receiving {
            self.control_requested = true;
        } else {
            self.cancelled = true;
        }
        self.state = IncomingNativeState::Cancelled;
        true
    }

    /// The transfer after it was asked to pause.
    pub open spec fn paused(self, request_id: [u8; 16]) -> Self {
        IncomingMutable {
            local_stop: Some(LocalStopIntent::Pause),
            pause_request_id: Some(request_id),
            control_requested: true,
            state: IncomingNativeState::Paused,
            ..self
        }
    }

    /// Why the transfer cannot be paused, if it cannot.
    pub open spec fn pause_refusal(self) -> Option<Seq<char>> {
        if self.state is Paused || self.state is Receiving {
            None
        } else {
            Some("native-incoming-pause-state-invalid"@)
        }
    }

    /// Pauses the transfer while data moves. One that is paused stays so.
    pub fn pause(&mut self, request_id: [u8; 16]) -> (result: Result<(), String>)
        ensures
            match result {
                Ok(()) => old(self).pause_refusal() is None && *final(self) == if old(self).state is Paused {
                    *old(self)
                } else {
                    old(self).paused(request_id)
                },
                Err(error) => old(self).pause_refusal() == Some(error@) && *final(self) == *old(self),
            },
    {
        if self.state == IncomingNativeState::Paused {
            return Ok(());
        }
        if self.state != IncomingNativeState::Receiving {
            return Err("native-incoming-pause-state-invalid".to_owned());
        }
        self.local_stop = Some(LocalStopIntent::Pause);
        self.pause_request_id = Some(request_id);
        self.control_requested = true;
        self.state = IncomingNativeState::Paused;
        Ok(())
    }

    /// Why the transfer cannot be finalized, if it cannot.
    pub open spec fn finalization_refusal(self) -> Option<Seq<char>> {
        if self.local_stop == Some(LocalStopIntent::Pause) || self.state is Paused {
            Some("native-transfer-paused"@)
        } else if self.local_stop is Some || self.state is Cancelled {
            Some("native-transfer-cancelled"@)
        } else if !(self.state is Receiving) {
            Some("native-incoming-finalization-state-invalid"@)
        } else {
            None
        }
    }

    /// Takes the transfer into its last phase. From then on it can no longer be stopped.
    pub fn claim_finalization(&mut self) -> (result: Result<(), String>)
        ensures
            match result {
                Ok(()) => old(self).finalization_refusal() is None && *final(self) == (IncomingMutable {
                    state: IncomingNativeState::Finalizing,
                    ..*old(self)
                }),
                Err(error) => old(self).finalization_refusal() == Some(error@) && *final(self)
                    == *old(self),
            },
    {
        let paused: bool = match self.local_stop {
            Some(LocalStopIntent::Pause) => true,
            _ => false,
        };
        if paused || self.state == IncomingNativeState::Paused {
            return Err("native-transfer-paused".to_owned());
        }
        if self.local_stop.is_some() || self.state == IncomingNativeState::Cancelled {
            return Err("native-transfer-cancelled".to_owned());
        }
        if self.state != IncomingNativeState::Receiving {
            return Err("native-incoming-finalization-state-invalid".to_owned());
        }
        self.state = IncomingNativeState::Finalizing;
        Ok(())
    }

    /// What is shown of an error at the end of a run: nothing once the transfer is complete, the
    /// own stop where there was one, and otherwise the error with its class.
    pub open spec fn shown_error(self, error: Seq<char>) -> Option<Seq<char>> {
        if ended_incoming(self.state, error) is Completed {
            None
        } else {
            Some(
                match self.local_stop {
                    Some(LocalStopIntent::Cancel { .. }) => "native-transfer-cancelled"@,
                    Some(LocalStopIntent::Pause) => "native-transfer-paused"@,
                    None => runtime_failure(error),
                },
            )
        }
    }

    /// Ends a run with its result.
    pub fn finish(&mut self, result: Result<SplitTransferResult, String>)
        ensures
            match result {
                Ok(done) => *final(self) == (IncomingMutable {
                    runtime_active: false,
                    bytes_received: done.payload_bytes,
                    bytes_written: done.payload_bytes,
                    bytes_skipped: done.bytes_skipped,
                    integrity_result: final(self).integrity_result,
                    signaling_file_payload_bytes: done.signaling_file_payload_bytes,
                    performance: Some(done),
                    state: IncomingNativeState::Completed,
                    terminal_error: None,
                    ..*old(self)
                }) && (final(self).integrity_result matches Some(text) && text@
                    == done.integrity_result@),
                Err(error) => *final(self) == (IncomingMutable {
                    runtime_active: false,
                    state: ended_incoming(old(self).state, error@),
                    terminal_error: final(self).terminal_error,
                    ..*old(self)
                }) && match final(self).terminal_error {
                    Some(text) => old(self).shown_error(error@) == Some(text@),
                    None => old(self).shown_error(error@) is None,
                },
            },
    {
        self.runtime_active = false;
        match result {
            Ok(done) => {
                self.bytes_received = done.payload_bytes;
                self.bytes_written = done.payload_bytes;
                self.bytes_skipped = done.bytes_skipped;
                self.integrity_result = Some(done.integrity_result.clone());
                self.signaling_file_payload_bytes = done.signaling_file_payload_bytes;
                self.performance = Some(done);
                self.state = IncomingNativeState::Completed;
                self.terminal_error = None;
            },
            Err(error) => {
                self.state = terminal_incoming_state(self.state, error.as_str());
                self.terminal_error = if self.state == IncomingNativeState::Completed {
                    None
                } else {
                    Some(
                        match self.local_stop {
                            Some(LocalStopIntent::Cancel { .. }) =>
                                "native-transfer-cancelled".to_owned(),
                            Some(LocalStopIntent::Pause) => "native-transfer-paused".to_owned(),
                            None => classify_runtime_error(error.as_str()),
                        },
                    )
                };
            },
        }
    }
}

/// The state in which a run ends that reports an error.
pub open spec fn ended_incoming(current: IncomingNativeState, error: Seq<char>) -> IncomingNativeState {
    if current is Completed {
        IncomingNativeState::Completed
    } else if current is Cancelled || error == "native-transfer-cancelled"@ || error
        == "peer-cancelled"@ {
        IncomingNativeState::Cancelled
    } else if current is Paused || error == "native-transfer-paused"@ || error
        == "peer-paused"@ {
        IncomingNativeState::Paused
    } else {
        IncomingNativeState::Failed
    }
}

/// The state in which a run ends that reports an error.
pub fn terminal_incoming_state(current: IncomingNativeState, error: &str) -> (state:
    IncomingNativeState)
    ensures
        state == ended_incoming(current, error@),
{
    if current == IncomingNativeState::Completed {
        IncomingNativeState::Completed
    } else if current == IncomingNativeState::Cancelled || same_text(
        error,
        "native-transfer-cancelled",
    ) || same_text(error, "peer-cancelled") {
        IncomingNativeState::Cancelled
    } else if current == IncomingNativeState::Paused || same_text(error, "native-transfer-paused")
        || same_text(error, "peer-paused") {
        IncomingNativeState::Paused
    } else {
        IncomingNativeState::Failed
    }
}

/// Once a run has claimed the last phase it decides alone how the transfer ends: cancelling it
/// changes nothing.
pub proof fn law_finalizing_incoming_cannot_be_cancelled(before: IncomingMutable, after: IncomingMutable)
    requires
        before.finalization_refusal() is None,
        after == (IncomingMutable { state: IncomingNativeState::Finalizing, ..before }),
    ensures
        after.is_settled(),
        !(after.state is Paused) && !(after.state is Receiving),
{
}

/// A transfer that is complete stays complete, whatever its run reports.
pub proof fn law_completed_incoming_stays_completed(error: Seq<char>)
    ensures
        ended_incoming(IncomingNativeState::Completed, error) is Completed,
{
}

/// A transfer that was asked to stop is not finalized.
pub proof fn law_stopped_incoming_is_not_finalized(
    transfer: IncomingMutable,
    retain_partial: bool,
    request_id: [u8; 16],
)
    ensures
        transfer.stopped(retain_partial).finalization_refusal() == Some(
            "native-transfer-cancelled"@,
        ),
        transfer.paused(request_id).finalization_refusal() == Some("native-transfer-paused"@),
{
}

/// How a source file is known again.
#[derive(Debug, Clone, PartialEq, Eq)]
pub struct SourceIdentity {
    pub size: u64,
    pub modified_unix_ms: Option<u64>,
    pub platform_file_id: Option<String>,
    pub canonical_path: Option<String>,
}

/// The text in an option, if there is one.
pub open spec fn shown(text: Option<String>) -> Option<Seq<char>> {
    match text {
        Some(inner) => Some(inner@),
        None => None,
    }
}

fn copied(text: &Option<String>) -> (copy: Option<String>)
    ensures
        shown(copy) == shown(*text),
{
    match text {
        Some(inner) => Some(inner.clone()),
        None => None,
    }
}

fn same_optional(left: &Option<String>, right: &Option<String>) -> (same: bool)
    ensures
        same == (shown(*left) == shown(*right)),
{
    match (left, right) {
        (Some(one), Some(other)) => same_text(one.as_str(), other.as_str()),
        (None, None) => true,
        _ => false,
    }
}

impl SourceIdentity {
    /// Whether two identities are the same.
    pub open spec fn same(self, other: Self) -> bool {
        &&& self.size == other.size
        &&& self.modified_unix_ms == other.modified_unix_ms
        &&& shown(self.platform_file_id) == shown(other.platform_file_id)
        &&& shown(self.canonical_path) == shown(other.canonical_path)
    }

    /// Whether two identities are the same.
    pub fn matches(&self, other: &Self) -> (same: bool)
        ensures
            same == self.same(*other),
    {
        let same_time: bool = match (self.modified_unix_ms, other.modified_unix_ms) {
            (Some(one), Some(another)) => one == another,
            (None, None) => true,
            _ => false,
        };
        self.size == other.size && same_time && same_optional(
            &self.platform_file_id,
            &other.platform_file_id,
        ) && same_optional(&self.canonical_path, &other.canonical_path)
    }
}

/// A file that this device sends.
#[derive(Debug)]
pub struct OutgoingNativeTransfer {
    pub transfer_id: String,
    pub invitation_id: String,
    pub source_path: String,
    pub source_identity: SourceIdentity,
    pub display_filename: String,
    pub file_size: u64,
    pub expected_sha256: [u8; 32],
    pub receiver_certificate: Vec<u8>,
    pub receiver_certificate_fingerprint_sha256: [u8; 32],
    pub candidate_privacy_policy: CandidatePrivacyPolicy,
    pub authorization_resume_path: String,
    pub outgoing_state_path: String,
    pub previous_quic_session_id: Option<String>,
    pub expires_unix_ms: u64,
    pub created_unix_ms: u64,
    pub mutable: OutgoingMutable,
}

/// A file that this device receives.
pub struct IncomingNativeTransfer {
    pub transfer_id: String,
    pub invitation_id: String,
    pub destination_directory: String,
    pub artifact_directory: String,
    pub authorization_resume_path: String,
    pub receiver_identity: Option<EphemeralIdentity>,
    pub receiver_certificate_fingerprint_sha256: [u8; 32],
    pub expires_unix_ms: u64,
    pub retention_expires_unix_ms: u64,
    pub created_unix_ms: u64,
    pub mutable: IncomingMutable,
}

/// What an end tells the signaling server of its transfer when it connects.
#[derive(Debug, Clone, PartialEq, Eq)]
pub struct SignalingAnnouncement {
    pub share_id: String,
    pub display_filename: Option<String>,
    pub file_size: Option<u64>,
    pub file_sha256: Option<String>,
}

impl OutgoingNativeTransfer {
    /// What the sender announces: the name, size and digest of the file. An empty file counts as
    /// one byte.
    pub fn announcement(&self) -> (announcement: SignalingAnnouncement)
        ensures
            announcement.share_id@ == self.transfer_id@,
            shown(announcement.display_filename) == Some(self.display_filename@),
            announcement.file_size == Some(
                if self.file_size == 0 {
                    1
                } else {
                    self.file_size
                },
            ),
            shown(announcement.file_sha256) == Some(hex_text(self.expected_sha256@)),
    {
        SignalingAnnouncement {
            share_id: self.transfer_id.clone(),
            display_filename: Some(self.display_filename.clone()),
            file_size: Some(
                if self.file_size == 0 {
                    1
                } else {
                    self.file_size
                },
            ),
            file_sha256: Some(hex(&self.expected_sha256)),
        }
    }
}

impl IncomingNativeTransfer {
    /// What the receiver announces: which transfer it waits for, and nothing of the file.
    pub fn announcement(&self) -> (announcement: SignalingAnnouncement)
        ensures
            announcement.share_id@ == self.transfer_id@,
            announcement.display_filename is None,
            announcement.file_size is None,
            announcement.file_sha256 is None,
    {
        SignalingAnnouncement {
            share_id: self.transfer_id.clone(),
            display_filename: None,
            file_size: None,
            file_sha256: None,
        }
    }
}

/// What is shown of an outgoing transfer.
#[derive(Debug, Clone)]
pub struct OutgoingNativeTransferSnapshot {
    pub transfer_id: String,
    pub invitation_id: String,
    pub state: OutgoingNativeState,
    pub source_path: String,
    pub display_filename: String,
    pub file_size: u64,
    pub expected_sha256: String,
    pub receiver_certificate_fingerprint_sha256: String,
    pub candidate_privacy_policy: CandidatePrivacyPolicy,
    pub expires_unix_ms: u64,
    pub created_unix_ms: u64,
    pub bytes_sent: u64,
    pub bytes_skipped: u64,
    pub peer_checkpoint_generation: Option<u64>,
    pub peer_state_digest: Option<String>,
    pub peer_completed_bytes: u64,
    pub connectivity_session_id: Option<String>,
    pub quic_session_id: Option<String>,
    pub selected_path: Option<String>,
    pub integrity_result: Option<String>,
    pub performance: Option<SplitTransferResult>,
    pub signaling_file_payload_bytes: u64,
    pub terminal_error: Option<String>,
    pub runtime_active: bool,
    pub production_native_enabled: bool,
}

/// What is shown of an incoming transfer.
#[derive(Debug, Clone)]
pub struct IncomingNativeTransferSnapshot {
    pub transfer_id: String,
    pub invitation_id: String,
    pub state: IncomingNativeState,
    pub destination_directory: String,
    pub accepted_filename: Option<String>,
    pub expected_file_size: Option<u64>,
    pub expected_sha256: Option<String>,
    pub final_path: Option<String>,
    pub part_path: Option<String>,
    pub receiver_certificate_fingerprint_sha256: String,
    pub expires_unix_ms: u64,
    pub retention_expires_unix_ms: u64,
    pub created_unix_ms: u64,
    pub bytes_received: u64,
    pub bytes_written: u64,
    pub bytes_skipped: u64,
    pub checkpoint_generation: u64,
    pub secure_state_digest: Option<String>,
    pub completed_checkpoint_bytes: u64,
    pub connectivity_session_id: Option<String>,
    pub quic_session_id: Option<String>,
    pub selected_path: Option<String>,
    pub integrity_result: Option<String>,
    pub performance: Option<SplitTransferResult>,
    pub signaling_file_payload_bytes: u64,
    pub terminal_error: Option<String>,
    pub runtime_active: bool,
    pub source_path_exposed: bool,
    pub authorization_secret: &'static str,
    pub production_native_enabled: bool,
}

/// The text of a digest in an option, if there is one.
pub open spec fn digest_text(digest: Option<[u8; 32]>) -> Option<Seq<char>> {
    match digest {
        Some(bytes) => Some(hex_text(bytes@)),
        None => None,
    }
}

fn optional_hex(digest: &Option<[u8; 32]>) -> (text: Option<String>)
    ensures
        shown(text) == digest_text(*digest),
{
    match digest {
        Some(bytes) => Some(hex(bytes)),
        None => None,
    }
}

/// Whether two reports of a run are the same.
pub open spec fn same_performance(
    left: Option<SplitTransferResult>,
    right: Option<SplitTransferResult>,
) -> bool {
    match (left, right) {
        (Some(one), Some(other)) => {
            &&& one.payload_bytes == other.payload_bytes
            &&& one.bytes_skipped == other.bytes_skipped
            &&& one.integrity_result@ == other.integrity_result@
            &&& one.signaling_file_payload_bytes == other.signaling_file_payload_bytes
            &&& one.bytes_per_second == other.bytes_per_second
        },
        (None, None) => true,
        _ => false,
    }
}

fn copied_performance(performance: &Option<SplitTransferResult>) -> (copy: Option<
    SplitTransferResult,
>)
    ensures
        same_performance(copy, *performance),
{
    match performance {
        Some(done) => Some(
            SplitTransferResult {
                payload_bytes: done.payload_bytes,
                bytes_skipped: done.bytes_skipped,
                integrity_result: done.integrity_result.clone(),
                signaling_file_payload_bytes: done.signaling_file_payload_bytes,
                bytes_per_second: done.bytes_per_second,
            },
        ),
        None => None,
    }
}

impl OutgoingNativeTransferSnapshot {
    /// Whether the snapshot shows a transfer as it is.
    pub open spec fn shows(self, record: OutgoingNativeTransfer) -> bool {
        &&& self.transfer_id@ == record.transfer_id@
        &&& self.invitation_id@ == record.invitation_id@
        &&& self.state == record.mutable.state
        &&& self.source_path@ == record.source_path@
        &&& self.display_filename@ == record.display_filename@
        &&& self.file_size == record.file_size
        &&& self.expected_sha256@ == hex_text(record.expected_sha256@)
        &&& self.receiver_certificate_fingerprint_sha256@ == hex_text(
            record.receiver_certificate_fingerprint_sha256@,
        )
        &&& self.candidate_privacy_policy == record.candidate_privacy_policy
        &&& self.expires_unix_ms == record.expires_unix_ms
        &&& self.created_unix_ms == record.created_unix_ms
        &&& self.bytes_sent == record.mutable.bytes_sent
        &&& self.bytes_skipped == record.mutable.bytes_skipped
        &&& self.peer_checkpoint_generation == record.mutable.peer_checkpoint_generation
        &&& shown(self.peer_state_digest) == digest_text(record.mutable.peer_state_digest)
        &&& self.peer_completed_bytes == record.mutable.peer_completed_bytes
        &&& shown(self.connectivity_session_id) == shown(record.mutable.connectivity_session_id)
        &&& shown(self.quic_session_id) == shown(record.mutable.quic_session_id)
        &&& shown(self.selected_path) == shown(record.mutable.selected_path)
        &&& shown(self.integrity_result) == shown(record.mutable.integrity_result)
        &&& same_performance(self.performance, record.mutable.performance)
        &&& self.signaling_file_payload_bytes == record.mutable.signaling_file_payload_bytes
        &&& shown(self.terminal_error) == shown(record.mutable.terminal_error)
        &&& self.runtime_active == record.mutable.runtime_active
        &&& self.production_native_enabled
    }
}

impl IncomingNativeTransferSnapshot {
    /// Whether the snapshot shows a transfer as it is. The secret of its authorization and the
    /// source are never shown.
    pub open spec fn shows(self, record: IncomingNativeTransfer) -> bool {
        &&& self.transfer_id@ == record.transfer_id@
        &&& self.invitation_id@ == record.invitation_id@
        &&& self.state == record.mutable.state
        &&& self.destination_directory@ == record.destination_directory@
        &&& shown(self.accepted_filename) == shown(record.mutable.accepted_filename)
        &&& self.expected_file_size == record.mutable.expected_file_size
        &&& shown(self.expected_sha256) == digest_text(record.mutable.expected_sha256)
        &&& shown(self.final_path) == shown(record.mutable.final_path)
        &&& shown(self.part_path) == shown(record.mutable.part_path)
        &&& self.receiver_certificate_fingerprint_sha256@ == hex_text(
            record.receiver_certificate_fingerprint_sha256@,
        )
        &&& self.expires_unix_ms == record.expires_unix_ms
        &&& self.retention_expires_unix_ms == record.retention_expires_unix_ms
        &&& self.created_unix_ms == record.created_unix_ms
        &&& self.bytes_received == record.mutable.bytes_received
        &&& self.bytes_written == record.mutable.bytes_written
        &&& self.bytes_skipped == record.mutable.bytes_skipped
        &&& self.checkpoint_generation == record.mutable.checkpoint_generation
        &&& shown(self.secure_state_digest) == digest_text(record.mutable.secure_state_digest)
        &&& self.completed_checkpoint_bytes == record.mutable.completed_checkpoint_bytes
        &&& shown(self.connectivity_session_id) == shown(record.mutable.connectivity_session_id)
        &&& shown(self.quic_session_id) == shown(record.mutable.quic_session_id)
        &&& shown(self.selected_path) == shown(record.mutable.selected_path)
        &&& shown(self.integrity_result) == shown(record.mutable.integrity_result)
        &&& same_performance(self.performance, record.mutable.performance)
        &&& self.signaling_file_payload_bytes == record.mutable.signaling_file_payload_bytes
        &&& shown(self.terminal_error) == shown(record.mutable.terminal_error)
        &&& self.runtime_active == record.mutable.runtime_active
        &&& !self.source_path_exposed
        &&& self.authorization_secret@ == "[REDACTED]"@
        &&& self.production_native_enabled
    }
}

/// What is shown of an outgoing transfer.
pub fn outgoing_snapshot(record: &OutgoingNativeTransfer) -> (snapshot:
    OutgoingNativeTransferSnapshot)
    ensures
        snapshot.shows(*record),
{
    OutgoingNativeTransferSnapshot {
        transfer_id: record.transfer_id.clone(),
        invitation_id: record.invitation_id.clone(),
        state: record.mutable.state,
        source_path: record.source_path.clone(),
        display_filename: record.display_filename.clone(),
        file_size: record.file_size,
        expected_sha256: hex(&record.expected_sha256),
        receiver_certificate_fingerprint_sha256: hex(
            &record.receiver_certificate_fingerprint_sha256,
        ),
        candidate_privacy_policy: record.candidate_privacy_policy,
        expires_unix_ms: record.expires_unix_ms,
        created_unix_ms: record.created_unix_ms,
        bytes_sent: record.mutable.bytes_sent,
        bytes_skipped: record.mutable.bytes_skipped,
        peer_checkpoint_generation: record.mutable.peer_checkpoint_generation,
        peer_state_digest: optional_hex(&record.mutable.peer_state_digest),
        peer_completed_bytes: record.mutable.peer_completed_bytes,
        connectivity_session_id: copied(&record.mutable.connectivity_session_id),
        quic_session_id: copied(&record.mutable.quic_session_id),
        selected_path: copied(&record.mutable.selected_path),
        integrity_result: copied(&record.mutable.integrity_result),
        performance: copied_performance(&record.mutable.performance),
        signaling_file_payload_bytes: record.mutable.signaling_file_payload_bytes,
        terminal_error: copied(&record.mutable.terminal_error),
        runtime_active: record.mutable.runtime_active,
        production_native_enabled: true,
    }
}

/// What is shown of an incoming transfer.
pub fn incoming_snapshot(record: &IncomingNativeTransfer) -> (snapshot:
    IncomingNativeTransferSnapshot)
    ensures
        snapshot.shows(*record),
{
    IncomingNativeTransferSnapshot {
        transfer_id: record.transfer_id.clone(),
        invitation_id: record.invitation_id.clone(),
        state: record.mutable.state,
        destination_directory: record.destination_directory.clone(),
        accepted_filename: copied(&record.mutable.accepted_filename),
        expected_file_size: record.mutable.expected_file_size,
        expected_sha256: optional_hex(&record.mutable.expected_sha256),
        final_path: copied(&record.mutable.final_path),
        part_path: copied(&record.mutable.part_path),
        receiver_certificate_fingerprint_sha256: hex(
            &record.receiver_certificate_fingerprint_sha256,
        ),
        expires_unix_ms: record.expires_unix_ms,
        retention_expires_unix_ms: record.retention_expires_unix_ms,
        created_unix_ms: record.created_unix_ms,
        bytes_received: record.mutable.bytes_received,
        bytes_written: record.mutable.bytes_written,
        bytes_skipped: record.mutable.bytes_skipped,
        checkpoint_generation: record.mutable.checkpoint_generation,
        secure_state_digest: optional_hex(&record.mutable.secure_state_digest),
        completed_checkpoint_bytes: record.mutable.completed_checkpoint_bytes,
        connectivity_session_id: copied(&record.mutable.connectivity_session_id),
        quic_session_id: copied(&record.mutable.quic_session_id),
        selected_path: copied(&record.mutable.selected_path),
        integrity_result: copied(&record.mutable.integrity_result),
        performance: copied_performance(&record.mutable.performance),
        signaling_file_payload_bytes: record.mutable.signaling_file_payload_bytes,
        terminal_error: copied(&record.mutable.terminal_error),
        runtime_active: record.mutable.runtime_active,
        source_path_exposed: false,
        authorization_secret: "[REDACTED]",
        production_native_enabled: true,
    }
}

/// The identifier of a transfer as it is kept: in its usual form.
pub open spec fn usual_form(text: Seq<char>) -> Option<Seq<char>> {
    match parsed_uuid(text) {
        Some(id) => Some(uuid_text(id@)),
        None => None,
    }
}

fn to_usual_form(text: &str) -> (form: Option<String>)
    ensures
        match form {
            Some(id) => usual_form(text@) == Some(id@),
            None => usual_form(text@) is None,
        },
{
    match uuid_parse(text) {
        Some(id) => Some(uuid_string(&id)),
        None => None,
    }
}

/// The identifier of a transfer.
pub fn parse_transfer_id(value: &str) -> (result: Result<[u8; 16], String>)
    ensures
        match result {
            Ok(id) => parsed_uuid(value@) == Some(id),
            Err(error) => parsed_uuid(value@) is None && error@ == "native-transfer-id-invalid"@,
        },
{
    match uuid_parse(value) {
        Some(id) => Ok(id),
        None => Err("native-transfer-id-invalid".to_owned()),
    }
}

/// What is to be cleaned up for a transfer whose run does not do it.
#[derive(Debug, Clone, Copy, PartialEq, Eq, Structural)]
pub struct StopFollowUp {
    pub revoke_authorization: bool,
    pub delete_secret: bool,
    pub remove_state: bool,
    pub remove_workspace: bool,
}

/// What is left to clean up when an outgoing transfer is cancelled: everything, unless it was
/// settled before or a run is left that does it.
pub open spec fn outgoing_stop_follow_up(before: OutgoingMutable) -> StopFollowUp {
    let here = !before.is_settled() && !before.runtime_active;
    StopFollowUp {
        revoke_authorization: here,
        delete_secret: here,
        remove_state: here,
        remove_workspace: false,
    }
}

/// What is left to clean up when an incoming transfer is cancelled: its authorization, and its
/// data unless that is to be kept.
pub open spec fn incoming_stop_follow_up(
    before: IncomingMutable,
    retain_partial: bool,
) -> StopFollowUp {
    let here = !before.is_settled() && !before.runtime_active;
    StopFollowUp {
        revoke_authorization: here,
        delete_secret: false,
        remove_state: false,
        remove_workspace: here && !retain_partial,
    }
}

/// What is left to clean up when an incoming transfer is declined: nothing where it was before.
pub open spec fn decline_follow_up(before: IncomingMutable) -> StopFollowUp {
    let anew = !(before.state is Declined);
    StopFollowUp {
        revoke_authorization: anew,
        delete_secret: false,
        remove_state: false,
        remove_workspace: anew,
    }
}

impl IncomingMutable {
    /// The transfer once its user has declined it.
    pub open spec fn declined(self) -> Self {
        IncomingMutable {
            local_stop: Some(LocalStopIntent::Cancel { retain_partial: false }),
            cancelled: true,
            state: IncomingNativeState::Declined,
            ..self
        }
    }
}

/// The place of a record, ordered by its age.
#[derive(Debug, Clone, Copy, PartialEq, Eq)]
pub struct Slot {
    pub created: u64,
    pub index: usize,
}

impl View for Slot {
    type V = Slot;

    open spec fn view(&self) -> Slot {
        *self
    }
}

impl Ranked for Slot {
    open spec fn precedes(left: Slot, right: Slot) -> bool {
        left.created < right.created
    }

    proof fn lemma_order(a: Slot, b: Slot, c: Slot) {
    }

    fn stands_before(&self, other: &Self) -> (result: bool) {
        self.created < other.created
    }
}

proof fn lemma_slots(unsorted: Seq<Slot>, sorted: Seq<Slot>, n: nat)
    requires
        views(sorted) == in_order::<Slot>(views(unsorted)),
        unsorted.len() == n,
        forall|i: int| 0 <= i < n ==> (#[trigger] unsorted[i]).index == i,
    ensures
        sorted.len() == n,
        forall|x: Slot| #[trigger] sorted.contains(x) <==> unsorted.contains(x),
        forall|i: int, j: int|
            0 <= i < j < n ==> (#[trigger] sorted[i]).created <= (#[trigger] sorted[j]).created,
        forall|i: int|
            0 <= i < n ==> (#[trigger] sorted[i]).index < n && sorted[i]
                == unsorted[sorted[i].index as int],
{
    assert(views(sorted) =~= sorted);
    assert(views(unsorted) =~= unsorted);
    crate::ordering::lemma_in_order::<Slot>(unsorted);
    assert forall|i: int, j: int| 0 <= i < j < n implies (#[trigger] sorted[i]).created <= (
    #[trigger] sorted[j]).created by {
        assert(!Slot::precedes(sorted[j], sorted[i]));
    }
    assert forall|i: int| 0 <= i < n implies (#[trigger] sorted[i]).index < n && sorted[i]
        == unsorted[sorted[i].index as int] by {
        assert(sorted.contains(sorted[i]));
        let k = choose|k: int| 0 <= k < unsorted.len() && unsorted[k] == sorted[i];
        assert(unsorted[k].index == k);
    }
}

/// Why there is no outgoing transfer under an identifier, if there is none.
pub open spec fn outgoing_missing(records: Map<Seq<char>, OutgoingNativeTransfer>, transfer_id: Seq<char>) -> Option<Seq<char>> {
    match usual_form(transfer_id) {
        None => Some("native-outgoing-transfer-id-invalid"@),
        Some(id) => if records.contains_key(id) {
            None
        } else {
            Some("native-outgoing-transfer-not-found"@)
        },
    }
}

fn outgoing_key(records: &Registry<String, OutgoingNativeTransfer>, transfer_id: &str) -> (result: Result<String, String>)
    requires
        records.wf(),
    ensures
        match result {
            Ok(key) => outgoing_missing(records@, transfer_id@) is None && usual_form(transfer_id@)
                == Some(key@) && records@.contains_key(key@),
            Err(error) => outgoing_missing(records@, transfer_id@) == Some(error@),
        },
{
    let key: String = match to_usual_form(transfer_id) {
        Some(key) => key,
        None => {
            return Err("native-outgoing-transfer-id-invalid".to_owned());
        },
    };
    if !records.contains(&key) {
        return Err("native-outgoing-transfer-not-found".to_owned());
    }
    Ok(key)
}

/// The outgoing transfer with the given identifier.
pub fn lookup_outgoing<'a>(records: &'a Registry<String, OutgoingNativeTransfer>, transfer_id: &str) -> (result: Result<
    &'a OutgoingNativeTransfer,
    String,
>)
    requires
        records.wf(),
    ensures
        match result {
            Ok(record) => outgoing_missing(records@, transfer_id@) is None && *record
                == records@[usual_form(transfer_id@)->Some_0],
            Err(error) => outgoing_missing(records@, transfer_id@) == Some(error@),
        },
{
    let key: String = match outgoing_key(records, transfer_id) {
        Ok(key) => key,
        Err(error) => {
            return Err(error);
        },
    };
    match records.get(&key) {
        Some(record) => Ok(record),
        None => Err("native-outgoing-transfer-not-found".to_owned()),
    }
}

/// Why an outgoing transfer cannot be added, if it cannot.
pub open spec fn outgoing_insert_refusal(records: Map<Seq<char>, OutgoingNativeTransfer>, transfer_id: Seq<char>) -> Option<Seq<char>> {
    if records.dom().len() >= MAX_SPLIT_ROLE_RECORDS {
        Some("native-outgoing-registry-capacity-reached"@)
    } else if records.contains_key(transfer_id) {
        Some("native-outgoing-transfer-exists"@)
    } else {
        None
    }
}

/// Adds an outgoing transfer. One that is there already is kept.
pub fn insert_outgoing(records: &mut Registry<String, OutgoingNativeTransfer>, record: OutgoingNativeTransfer) -> (result: Result<(), String>)
    requires
        old(records).wf(),
    ensures
        final(records).wf(),
        match result {
            Ok(()) => outgoing_insert_refusal(old(records)@, record.transfer_id@) is None && final(records)@ == old(records)@.insert(record.transfer_id@, record),
            Err(error) => outgoing_insert_refusal(old(records)@, record.transfer_id@) == Some(error@)
                && *final(records) == *old(records),
        },
{
    if records.len() >= MAX_SPLIT_ROLE_RECORDS {
        return Err("native-outgoing-registry-capacity-reached".to_owned());
    }
    if records.contains(&record.transfer_id) {
        return Err("native-outgoing-transfer-exists".to_owned());
    }
    let key: String = record.transfer_id.clone();
    records.insert(key, record);
    Ok(())
}

/// What is shown of an outgoing transfer.
pub fn flowshare_native_get_outgoing_transfer(records: &Registry<String, OutgoingNativeTransfer>, request: &SplitTransferIdRequest) -> (result: Result<
    OutgoingNativeTransferSnapshot,
    String,
>)
    requires
        records.wf(),
    ensures
        match result {
            Ok(snapshot) => outgoing_missing(records@, request.transfer_id@) is None && snapshot.shows(
                records@[usual_form(request.transfer_id@)->Some_0],
            ),
            Err(error) => outgoing_missing(records@, request.transfer_id@) == Some(error@),
        },
{
    match lookup_outgoing(records, request.transfer_id.as_str()) {
        Ok(record) => Ok(outgoing_snapshot(record)),
        Err(error) => Err(error),
    }
}

/// Starts an outgoing transfer. What is handed out shows it with its run under way.
pub fn flowshare_native_start_outgoing_transfer(records: &mut Registry<String, OutgoingNativeTransfer>, request: &StartSplitTransferRequest) -> (result:
    Result<OutgoingNativeTransferSnapshot, String>)
    requires
        old(records).wf(),
    ensures
        final(records).wf(),
        match outgoing_missing(old(records)@, request.transfer_id@) {
            Some(reason) => {
                &&& result matches Err(error) && error@ == reason
                &&& final(records)@ == old(records)@
            },
            None => {
                let key = usual_form(request.transfer_id@)->Some_0;
                let before = old(records)@[key];
                match before.mutable.start_refusal() {
                    Some(reason) => {
                        &&& result matches Err(error) && error@ == reason
                        &&& final(records)@ == old(records)@
                    },
                    None => {
                        let after = OutgoingNativeTransfer { mutable: before.mutable.started(), ..before };
                        &&& result matches Ok(snapshot) && snapshot.shows(after)
                        &&& final(records)@ == old(records)@.insert(key, after)
                    },
                }
            },
        },
{
    let key: String = match outgoing_key(records, request.transfer_id.as_str()) {
        Ok(key) => key,
        Err(error) => {
            return Err(error);
        },
    };
    let ghost before = records@;
    match records.get_mut(&key) {
        Some(record) => match record.mutable.start() {
            Ok(()) => Ok(outgoing_snapshot(record)),
            Err(error) => {
                assert(before.insert(key@, before[key@]) =~= before);
                Err(error)
            },
        },
        None => Err("native-outgoing-transfer-not-found".to_owned()),
    }
}

/// Pauses an outgoing transfer. The peer knows the request by its identifier.
pub fn flowshare_native_pause_outgoing_transfer(
    records: &mut Registry<String, OutgoingNativeTransfer>,
    request: &SplitTransferIdRequest,
    request_id: [u8; 16],
) -> (result: Result<OutgoingNativeTransferSnapshot, String>)
    requires
        old(records).wf(),
    ensures
        final(records).wf(),
        match outgoing_missing(old(records)@, request.transfer_id@) {
            Some(reason) => {
                &&& result matches Err(error) && error@ == reason
                &&& final(records)@ == old(records)@
            },
            None => {
                let key = usual_form(request.transfer_id@)->Some_0;
                let before = old(records)@[key];
                match before.mutable.pause_refusal() {
                    Some(reason) => {
                        &&& result matches Err(error) && error@ == reason
                        &&& final(records)@ == old(records)@
                    },
                    None => {
                        let after = OutgoingNativeTransfer {
                            mutable: if before.mutable.state is Paused {
                                before.mutable
                            } else {
                                before.mutable.paused(request_id)
                            },
                            ..before
                        };
                        &&& result matches Ok(snapshot) && snapshot.shows(after)
                        &&& final(records)@ == old(records)@.insert(key, after)
                    },
                }
            },
        },
{
    let key: String = match outgoing_key(records, request.transfer_id.as_str()) {
        Ok(key) => key,
        Err(error) => {
            return Err(error);
        },
    };
    let ghost before = records@;
    match records.get_mut(&key) {
        Some(record) => match record.mutable.pause(request_id) {
            Ok(()) => Ok(outgoing_snapshot(record)),
            Err(error) => {
                assert(before.insert(key@, before[key@]) =~= before);
                Err(error)
            },
        },
        None => Err("native-outgoing-transfer-not-found".to_owned()),
    }
}

/// Cancels an outgoing transfer, unless it is settled. Where no run is active that would clean up
/// by itself, it is said what is to be removed.
pub fn flowshare_native_cancel_outgoing_transfer(
    records: &mut Registry<String, OutgoingNativeTransfer>,
    request: &CancelSplitTransferRequest,
) -> (result: Result<(OutgoingNativeTransferSnapshot, StopFollowUp), String>)
    requires
        old(records).wf(),
    ensures
        final(records).wf(),
        match outgoing_missing(old(records)@, request.transfer_id@) {
            Some(reason) => {
                &&& result matches Err(error) && error@ == reason
                &&& final(records)@ == old(records)@
            },
            None => {
                let key = usual_form(request.transfer_id@)->Some_0;
                let before = old(records)@[key];
                let retain_partial = request.retain_partial != Some(false);
                let stopped = !before.mutable.is_settled();
                let after = OutgoingNativeTransfer {
                    mutable: if stopped {
                        before.mutable.stopped(retain_partial)
                    } else {
                        before.mutable
                    },
                    ..before
                };
                &&& final(records)@ == old(records)@.insert(key, after)
                &&& match result {
                    Ok(done) => {
                        &&& done.0.shows(after)
                        &&& done.1 == outgoing_stop_follow_up(before.mutable)
                    },
                    Err(_) => false,
                }
            },
        },
{
    let key: String = match outgoing_key(records, request.transfer_id.as_str()) {
        Ok(key) => key,
        Err(error) => {
            return Err(error);
        },
    };
    let retain_partial: bool = match request.retain_partial {
        Some(retain) => retain,
        None => true,
    };
    match records.get_mut(&key) {
        Some(record) => {
            let stopped: bool = record.mutable.cancel(retain_partial);
            let idle: bool = stopped && !record.mutable.runtime_active;
            let snapshot = outgoing_snapshot(record);
            Ok((
                snapshot,
                StopFollowUp {
                    revoke_authorization: idle,
                    delete_secret: idle,
                    remove_state: idle,
                    remove_workspace: false,
                },
            ))
        },
        None => Err("native-outgoing-transfer-not-found".to_owned()),
    }
}

/// What is shown of all outgoing transfers, the oldest first.
pub fn list_outgoing_transfers(records: &Registry<String, OutgoingNativeTransfer>) -> (snapshots: Vec<OutgoingNativeTransferSnapshot>)
    requires
        records.wf(),
    ensures
        snapshots@.len() == records@.dom().len(),
        forall|i: int|
            0 <= i < snapshots@.len() ==> exists|id: Seq<char>| #[trigger]
                records@.contains_key(id) && (#[trigger] snapshots@[i]).shows(records@[id]),
        forall|id: Seq<char>| #[trigger]
            records@.contains_key(id) ==> exists|i: int|
                0 <= i < snapshots@.len() && (#[trigger] snapshots@[i]).shows(records@[id]),
        forall|i: int, j: int|
            0 <= i < j < snapshots@.len() ==> (#[trigger] snapshots@[i]).created_unix_ms <= (
            #[trigger] snapshots@[j]).created_unix_ms,
{
    let mut slots: Vec<Slot> = Vec::new();
    let count: usize = records.len();
    while slots.len() < count
        invariant
            records.wf(),
            count == records.listing().len(),
            slots@.len() <= count,
            forall|i: int|
                0 <= i < slots@.len() ==> (#[trigger] slots@[i]) == (Slot {
                    created: records.listing()[i].1.created_unix_ms,
                    index: i as usize,
                }),
        decreases count - slots.len(),
    {
        let index: usize = slots.len();
        let entry = records.at(index);
        slots.push(Slot { created: entry.1.created_unix_ms, index });
    }
    let ghost unsorted = slots@;
    sort(&mut slots);
    proof {
        records.lemma_listing();
        lemma_slots(unsorted, slots@, records.listing().len());
    }
    let mut snapshots: Vec<OutgoingNativeTransferSnapshot> = Vec::new();
    while snapshots.len() < slots.len()
        invariant
            records.wf(),
            slots@.len() == records.listing().len(),
            snapshots@.len() <= slots@.len(),
            forall|i: int|
                0 <= i < slots@.len() ==> (#[trigger] slots@[i]).index < records.listing().len()
                    && slots@[i].created
                    == records.listing()[slots@[i].index as int].1.created_unix_ms,
            forall|i: int|
                0 <= i < snapshots@.len() ==> (#[trigger] snapshots@[i]).shows(
                    records.listing()[slots@[i].index as int].1,
                ),
        decreases slots.len() - snapshots.len(),
    {
        let slot: Slot = slots[snapshots.len()];
        let entry = records.at(slot.index);
        snapshots.push(outgoing_snapshot(&entry.1));
    }
    proof {
        assert forall|i: int| 0 <= i < snapshots@.len() implies exists|id: Seq<char>| #[trigger]
            records@.contains_key(id) && (#[trigger] snapshots@[i]).shows(records@[id]) by {
            let entry = records.listing()[slots@[i].index as int];
            assert(records@.contains_key(entry.0@) && records@[entry.0@] == entry.1);
        }
        assert forall|id: Seq<char>| #[trigger] records@.contains_key(id) implies exists|i: int|
            0 <= i < snapshots@.len() && (#[trigger] snapshots@[i]).shows(records@[id]) by {
            let k = choose|k: int|
                0 <= k < records.listing().len() && (#[trigger] records.listing()[k]).0@ == id;
            assert(unsorted.contains(unsorted[k]));
            assert(slots@.contains(unsorted[k]));
            let i = choose|i: int| 0 <= i < slots@.len() && slots@[i] == unsorted[k];
            assert(snapshots@[i].shows(records.listing()[k].1));
        }
        assert forall|i: int, j: int| 0 <= i < j < snapshots@.len() implies (
        #[trigger] snapshots@[i]).created_unix_ms <= (
        #[trigger] snapshots@[j]).created_unix_ms by {
            assert(slots@[i].created <= slots@[j].created);
        }
    }
    snapshots
}

/// Why there is no incoming transfer under an identifier, if there is none.
pub open spec fn incoming_missing(records: Map<Seq<char>, IncomingNativeTransfer>, transfer_id: Seq<char>) -> Option<Seq<char>> {
    match usual_form(transfer_id) {
        None => Some("native-incoming-transfer-id-invalid"@),
        Some(id) => if records.contains_key(id) {
            None
        } else {
            Some("native-incoming-transfer-not-found"@)
        },
    }
}

fn incoming_key(records: &Registry<String, IncomingNativeTransfer>, transfer_id: &str) -> (result: Result<String, String>)
    requires
        records.wf(),
    ensures
        match result {
            Ok(key) => incoming_missing(records@, transfer_id@) is None && usual_form(transfer_id@)
                == Some(key@) && records@.contains_key(key@),
            Err(error) => incoming_missing(records@, transfer_id@) == Some(error@),
        },
{
    let key: String = match to_usual_form(transfer_id) {
        Some(key) => key,
        None => {
            return Err("native-incoming-transfer-id-invalid".to_owned());
        },
    };
    if !records.contains(&key) {
        return Err("native-incoming-transfer-not-found".to_owned());
    }
    Ok(key)
}

/// The incoming transfer with the given identifier.
pub fn lookup_incoming<'a>(records: &'a Registry<String, IncomingNativeTransfer>, transfer_id: &str) -> (result: Result<
    &'a IncomingNativeTransfer,
    String,
>)
    requires
        records.wf(),
    ensures
        match result {
            Ok(record) => incoming_missing(records@, transfer_id@) is None && *record
                == records@[usual_form(transfer_id@)->Some_0],
            Err(error) => incoming_missing(records@, transfer_id@) == Some(error@),
        },
{
    let key: String = match incoming_key(records, transfer_id) {
        Ok(key) => key,
        Err(error) => {
            return Err(error);
        },
    };
    match records.get(&key) {
        Some(record) => Ok(record),
        None => Err("native-incoming-transfer-not-found".to_owned()),
    }
}

/// Why an incoming transfer cannot be added, if it cannot.
pub open spec fn incoming_insert_refusal(records: Map<Seq<char>, IncomingNativeTransfer>, transfer_id: Seq<char>) -> Option<Seq<char>> {
    if records.dom().len() >= MAX_SPLIT_ROLE_RECORDS {
        Some("native-incoming-registry-capacity-reached"@)
    } else if records.contains_key(transfer_id) {
        Some("native-incoming-transfer-exists"@)
    } else {
        None
    }
}

/// Adds an incoming transfer. One that is there already is kept.
pub fn insert_incoming(records: &mut Registry<String, IncomingNativeTransfer>, record: IncomingNativeTransfer) -> (result: Result<(), String>)
    requires
        old(records).wf(),
    ensures
        final(records).wf(),
        match result {
            Ok(()) => incoming_insert_refusal(old(records)@, record.transfer_id@) is None && final(records)@ == old(records)@.insert(record.transfer_id@, record),
            Err(error) => incoming_insert_refusal(old(records)@, record.transfer_id@) == Some(error@)
                && *final(records) == *old(records),
        },
{
    if records.len() >= MAX_SPLIT_ROLE_RECORDS {
        return Err("native-incoming-registry-capacity-reached".to_owned());
    }
    if records.contains(&record.transfer_id) {
        return Err("native-incoming-transfer-exists".to_owned());
    }
    let key: String = record.transfer_id.clone();
    records.insert(key, record);
    Ok(())
}

/// What is shown of an incoming transfer.
pub fn flowshare_native_get_incoming_transfer(records: &Registry<String, IncomingNativeTransfer>, request: &SplitTransferIdRequest) -> (result: Result<
    IncomingNativeTransferSnapshot,
    String,
>)
    requires
        records.wf(),
    ensures
        match result {
            Ok(snapshot) => incoming_missing(records@, request.transfer_id@) is None && snapshot.shows(
                records@[usual_form(request.transfer_id@)->Some_0],
            ),
            Err(error) => incoming_missing(records@, request.transfer_id@) == Some(error@),
        },
{
    match lookup_incoming(records, request.transfer_id.as_str()) {
        Ok(record) => Ok(incoming_snapshot(record)),
        Err(error) => Err(error),
    }
}

/// Starts an incoming transfer. What is handed out shows it with its run under way.
pub fn flowshare_native_start_incoming_transfer(records: &mut Registry<String, IncomingNativeTransfer>, request: &StartSplitTransferRequest) -> (result:
    Result<IncomingNativeTransferSnapshot, String>)
    requires
        old(records).wf(),
    ensures
        final(records).wf(),
        match incoming_missing(old(records)@, request.transfer_id@) {
            Some(reason) => {
                &&& result matches Err(error) && error@ == reason
                &&& final(records)@ == old(records)@
            },
            None => {
                let key = usual_form(request.transfer_id@)->Some_0;
                let before = old(records)@[key];
                match before.mutable.start_refusal() {
                    Some(reason) => {
                        &&& result matches Err(error) && error@ == reason
                        &&& final(records)@ == old(records)@
                    },
                    None => {
                        let after = IncomingNativeTransfer { mutable: before.mutable.started(), ..before };
                        &&& result matches Ok(snapshot) && snapshot.shows(after)
                        &&& final(records)@ == old(records)@.insert(key, after)
                    },
                }
            },
        },
{
    let key: String = match incoming_key(records, request.transfer_id.as_str()) {
        Ok(key) => key,
        Err(error) => {
            return Err(error);
        },
    };
    let ghost before = records@;
    match records.get_mut(&key) {
        Some(record) => match record.mutable.start() {
            Ok(()) => Ok(incoming_snapshot(record)),
            Err(error) => {
                assert(before.insert(key@, before[key@]) =~= before);
                Err(error)
            },
        },
        None => Err("native-incoming-transfer-not-found".to_owned()),
    }
}

/// Pauses an incoming transfer. The peer knows the request by its identifier.
pub fn flowshare_native_pause_incoming_transfer(
    records: &mut Registry<String, IncomingNativeTransfer>,
    request: &SplitTransferIdRequest,
    request_id: [u8; 16],
) -> (result: Result<IncomingNativeTransferSnapshot, String>)
    requires
        old(records).wf(),
    ensures
        final(records).wf(),
        match incoming_missing(old(records)@, request.transfer_id@) {
            Some(reason) => {
                &&& result matches Err(error) && error@ == reason
                &&& final(records)@ == old(records)@
            },
            None => {
                let key = usual_form(request.transfer_id@)->Some_0;
                let before = old(records)@[key];
                match before.mutable.pause_refusal() {
                    Some(reason) => {
                        &&& result matches Err(error) && error@ == reason
                        &&& final(records)@ == old(records)@
                    },
                    None => {
                        let after = IncomingNativeTransfer {
                            mutable: if before.mutable.state is Paused {
                                before.mutable
                            } else {
                                before.mutable.paused(request_id)
                            },
                            ..before
                        };
                        &&& result matches Ok(snapshot) && snapshot.shows(after)
                        &&& final(records)@ == old(records)@.insert(key, after)
                    },
                }
            },
        },
{
    let key: String = match incoming_key(records, request.transfer_id.as_str()) {
        Ok(key) => key,
        Err(error) => {
            return Err(error);
        },
    };
    let ghost before = records@;
    match records.get_mut(&key) {
        Some(record) => match record.mutable.pause(request_id) {
            Ok(()) => Ok(incoming_snapshot(record)),
            Err(error) => {
                assert(before.insert(key@, before[key@]) =~= before);
                Err(error)
            },
        },
        None => Err("native-incoming-transfer-not-found".to_owned()),
    }
}

/// Cancels an incoming transfer, unless it is settled. Where no run is active that would clean up
/// by itself, it is said what is to be removed.
pub fn flowshare_native_cancel_incoming_transfer(
    records: &mut Registry<String, IncomingNativeTransfer>,
    request: &CancelSplitTransferRequest,
) -> (result: Result<(IncomingNativeTransferSnapshot, StopFollowUp), String>)
    requires
        old(records).wf(),
    ensures
        final(records).wf(),
        match incoming_missing(old(records)@, request.transfer_id@) {
            Some(reason) => {
                &&& result matches Err(error) && error@ == reason
                &&& final(records)@ == old(records)@
            },
            None => {
                let key = usual_form(request.transfer_id@)->Some_0;
                let before = old(records)@[key];
                let retain_partial = request.retain_partial != Some(false);
                let stopped = !before.mutable.is_settled();
                let after = IncomingNativeTransfer {
                    mutable: if stopped {
                        before.mutable.stopped(retain_partial)
                    } else {
                        before.mutable
                    },
                    ..before
                };
                &&& final(records)@ == old(records)@.insert(key, after)
                &&& match result {
                    Ok(done) => {
                        &&& done.0.shows(after)
                        &&& done.1 == incoming_stop_follow_up(before.mutable, retain_partial)
                    },
                    Err(_) => false,
                }
            },
        },
{
    let key: String = match incoming_key(records, request.transfer_id.as_str()) {
        Ok(key) => key,
        Err(error) => {
            return Err(error);
        },
    };
    let retain_partial: bool = match request.retain_partial {
        Some(retain) => retain,
        None => true,
    };
    match records.get_mut(&key) {
        Some(record) => {
            let stopped: bool = record.mutable.cancel(retain_partial);
            let idle: bool = stopped && !record.mutable.runtime_active;
            let snapshot = incoming_snapshot(record);
            Ok((
                snapshot,
                StopFollowUp {
                    revoke_authorization: idle,
                    delete_secret: false,
                    remove_state: false,
                    remove_workspace: idle && !retain_partial,
                },
            ))
        },
        None => Err("native-incoming-transfer-not-found".to_owned()),
    }
}

/// What is shown of all incoming transfers, the oldest first.
pub fn list_incoming_transfers(records: &Registry<String, IncomingNativeTransfer>) -> (snapshots: Vec<IncomingNativeTransferSnapshot>)
    requires
        records.wf(),
    ensures
        snapshots@.len() == records@.dom().len(),
        forall|i: int|
            0 <= i < snapshots@.len() ==> exists|id: Seq<char>| #[trigger]
                records@.contains_key(id) && (#[trigger] snapshots@[i]).shows(records@[id]),
        forall|id: Seq<char>| #[trigger]
            records@.contains_key(id) ==> exists|i: int|
                0 <= i < snapshots@.len() && (#[trigger] snapshots@[i]).shows(records@[id]),
        forall|i: int, j: int|
            0 <= i < j < snapshots@.len() ==> (#[trigger] snapshots@[i]).created_unix_ms <= (
            #[trigger] snapshots@[j]).created_unix_ms,
{
    let mut slots: Vec<Slot> = Vec::new();
    let count: usize = records.len();
    while slots.len() < count
        invariant
            records.wf(),
            count == records.listing().len(),
            slots@.len() <= count,
            forall|i: int|
                0 <= i < slots@.len() ==> (#[trigger] slots@[i]) == (Slot {
                    created: records.listing()[i].1.created_unix_ms,
                    index: i as usize,
                }),
        decreases count - slots.len(),
    {
        let index: usize = slots.len();
        let entry = records.at(index);
        slots.push(Slot { created: entry.1.created_unix_ms, index });
    }
    let ghost unsorted = slots@;
    sort(&mut slots);
    proof {
        records.lemma_listing();
        lemma_slots(unsorted, slots@, records.listing().len());
    }
    let mut snapshots: Vec<IncomingNativeTransferSnapshot> = Vec::new();
    while snapshots.len() < slots.len()
        invariant
            records.wf(),
            slots@.len() == records.listing().len(),
            snapshots@.len() <= slots@.len(),
            forall|i: int|
                0 <= i < slots@.len() ==> (#[trigger] slots@[i]).index < records.listing().len()
                    && slots@[i].created
                    == records.listing()[slots@[i].index as int].1.created_unix_ms,
            forall|i: int|
                0 <= i < snapshots@.len() ==> (#[trigger] snapshots@[i]).shows(
                    records.listing()[slots@[i].index as int].1,
                ),
        decreases slots.len() - snapshots.len(),
    {
        let slot: Slot = slots[snapshots.len()];
        let entry = records.at(slot.index);
        snapshots.push(incoming_snapshot(&entry.1));
    }
    proof {
        assert forall|i: int| 0 <= i < snapshots@.len() implies exists|id: Seq<char>| #[trigger]
            records@.contains_key(id) && (#[trigger] snapshots@[i]).shows(records@[id]) by {
            let entry = records.listing()[slots@[i].index as int];
            assert(records@.contains_key(entry.0@) && records@[entry.0@] == entry.1);
        }
        assert forall|id: Seq<char>| #[trigger] records@.contains_key(id) implies exists|i: int|
            0 <= i < snapshots@.len() && (#[trigger] snapshots@[i]).shows(records@[id]) by {
            let k = choose|k: int|
                0 <= k < records.listing().len() && (#[trigger] records.listing()[k]).0@ == id;
            assert(unsorted.contains(unsorted[k]));
            assert(slots@.contains(unsorted[k]));
            let i = choose|i: int| 0 <= i < slots@.len() && slots@[i] == unsorted[k];
            assert(snapshots@[i].shows(records.listing()[k].1));
        }
        assert forall|i: int, j: int| 0 <= i < j < snapshots@.len() implies (
        #[trigger] snapshots@[i]).created_unix_ms <= (
        #[trigger] snapshots@[j]).created_unix_ms by {
            assert(slots@[i].created <= slots@[j].created);
        }
    }
    snapshots
}

#[derive(Debug)]
pub struct AcceptIncomingTransferRequest {
    pub transfer_id: String,
    pub display_filename: String,
    pub file_size: u64,
    pub expected_sha256: String,
    pub overwrite: Option<bool>,
}

#[derive(Debug)]
pub struct SetIncomingDestinationRequest {
    pub transfer_id: String,
    pub destination_directory: String,
}

#[derive(Debug)]
pub struct SplitTransferIdRequest {
    pub transfer_id: String,
}

#[derive(Debug)]
pub struct CancelSplitTransferRequest {
    pub transfer_id: String,
    pub retain_partial: Option<bool>,
}

#[derive(Debug)]
pub struct StartSplitTransferRequest {
    pub transfer_id: String,
    pub signaling_endpoint: String,
    pub gathering: Option<ConnectivityGatherOptions>,
    pub signaling_timeout_ms: Option<u64>,
    pub connectivity_timeout_ms: Option<u64>,
}

/// Rejects an incoming transfer before anything of it was received. One that was declined stays
/// declined. What was stored for it is removed and its authorization revoked, unless that was
/// done before.
pub fn flowshare_native_reject_incoming_transfer(
    records: &mut Registry<String, IncomingNativeTransfer>,
    request: &SplitTransferIdRequest,
) -> (result: Result<(IncomingNativeTransferSnapshot, StopFollowUp), String>)
    requires
        old(records).wf(),
    ensures
        final(records).wf(),
        match incoming_missing(old(records)@, request.transfer_id@) {
            Some(reason) => {
                &&& result matches Err(error) && error@ == reason
                &&& final(records)@ == old(records)@
            },
            None => {
                let key = usual_form(request.transfer_id@)->Some_0;
                let before = old(records)@[key];
                match before.mutable.state {
                    IncomingNativeState::Declined => {
                        &&& final(records)@ == old(records)@
                        &&& result matches Ok(done) && done.0.shows(before) && done.1
                            == decline_follow_up(before.mutable)
                    },
                    IncomingNativeState::InvitationImported
                    | IncomingNativeState::AwaitingAcceptance => {
                        let after = IncomingNativeTransfer {
                            mutable: before.mutable.declined(),
                            ..before
                        };
                        &&& final(records)@ == old(records)@.insert(key, after)
                        &&& result matches Ok(done) && done.0.shows(after) && done.1
                            == decline_follow_up(before.mutable)
                    },
                    _ => {
                        &&& final(records)@ == old(records)@
                        &&& result matches Err(error) && error@
                            == "native-incoming-reject-state-invalid"@
                    },
                }
            },
        },
{
    let key: String = match incoming_key(records, request.transfer_id.as_str()) {
        Ok(key) => key,
        Err(error) => {
            return Err(error);
        },
    };
    let ghost before = records@;
    match records.get_mut(&key) {
        Some(record) => {
            if record.mutable.state == IncomingNativeState::Declined {
                assert(before.insert(key@, before[key@]) =~= before);
                return Ok(
                    (
                        incoming_snapshot(record),
                        StopFollowUp {
                            revoke_authorization: false,
                            delete_secret: false,
                            remove_state: false,
                            remove_workspace: false,
                        },
                    ),
                );
            }
            if record.mutable.state != IncomingNativeState::InvitationImported
                && record.mutable.state != IncomingNativeState::AwaitingAcceptance {
                assert(before.insert(key@, before[key@]) =~= before);
                return Err("native-incoming-reject-state-invalid".to_owned());
            }
            record.mutable.local_stop = Some(LocalStopIntent::Cancel { retain_partial: false });
            record.mutable.cancelled = true;
            record.mutable.state = IncomingNativeState::Declined;
            let snapshot = incoming_snapshot(record);
            Ok(
                (
                    snapshot,
                    StopFollowUp {
                        revoke_authorization: true,
                        delete_secret: false,
                        remove_state: false,
                        remove_workspace: true,
                    },
                ),
            )
        },
        None => Err("native-incoming-transfer-not-found".to_owned()),
    }
}

/// What an incoming transfer will be accepted with.
#[derive(Debug)]
pub struct AcceptancePlan {
    pub filename: String,
    pub expected_sha256: [u8; 32],
    pub destination: String,
    pub part_path: String,
}

/// Why an incoming transfer cannot be accepted as asked for, if it cannot.
pub open spec fn acceptance_defect(
    records: Map<Seq<char>, IncomingNativeTransfer>,
    request: AcceptIncomingTransferRequest,
) -> Option<Seq<char>> {
    if incoming_missing(records, request.transfer_id@) is Some {
        incoming_missing(records, request.transfer_id@)
    } else if filename_defect(request.display_filename@) is Some {
        filename_defect(request.display_filename@)
    } else if !(exists|bytes: Seq<u8>| #[trigger] hex_value_32(request.expected_sha256@, bytes)) {
        Some("native-sha256-invalid"@)
    } else {
        None
    }
}

/// What an incoming transfer will be accepted with: the safe name of its file, the digest that
/// it must have, and where it stands while it is received.
pub fn plan_acceptance(
    style: PathStyle,
    records: &Registry<String, IncomingNativeTransfer>,
    request: &AcceptIncomingTransferRequest,
) -> (result: Result<AcceptancePlan, String>)
    requires
        records.wf(),
    ensures
        match result {
            Ok(plan) => {
                let record = records@[usual_form(request.transfer_id@)->Some_0];
                &&& acceptance_defect(records@, *request) is None
                &&& plan.filename@ == without_tail(request.display_filename@)
                &&& hex_value_32(request.expected_sha256@, plan.expected_sha256@)
                &&& plan.destination@ == record.destination_directory@
                &&& plan.part_path@ == joined_path(
                    style,
                    record.artifact_directory@,
                    "payload.part"@,
                )
            },
            Err(error) => acceptance_defect(records@, *request) == Some(error@),
        },
{
    let record = match lookup_incoming(records, request.transfer_id.as_str()) {
        Ok(record) => record,
        Err(error) => {
            return Err(error);
        },
    };
    let filename = match sanitize_received_filename(request.display_filename.as_str()) {
        Ok(filename) => filename,
        Err(error) => {
            return Err(error);
        },
    };
    let expected_sha256: [u8; 32] = match decode_hex_32(request.expected_sha256.as_str()) {
        Some(digest) => digest,
        None => {
            return Err("native-sha256-invalid".to_owned());
        },
    };
    assert(hex_value_32(request.expected_sha256@, expected_sha256@));
    Ok(
        AcceptancePlan {
            filename,
            expected_sha256,
            destination: record.destination_directory.clone(),
            part_path: join_path(style, record.artifact_directory.as_str(), "payload.part"),
        },
    )
}

impl IncomingMutable {
    /// The transfer once it is accepted.
    pub open spec fn accepted(
        self,
        filename: String,
        file_size: u64,
        expected_sha256: [u8; 32],
        final_path: String,
        part_path: String,
    ) -> Self {
        IncomingMutable {
            accepted_filename: Some(filename),
            expected_file_size: Some(file_size),
            expected_sha256: Some(expected_sha256),
            final_path: Some(final_path),
            part_path: Some(part_path),
            state: IncomingNativeState::Accepted,
            ..self
        }
    }
}

/// Accepts an incoming transfer: its file goes to `final_path`.
pub fn flowshare_native_accept_incoming_transfer(
    records: &mut Registry<String, IncomingNativeTransfer>,
    request: &AcceptIncomingTransferRequest,
    plan: AcceptancePlan,
    final_path: String,
) -> (result: Result<IncomingNativeTransferSnapshot, String>)
    requires
        old(records).wf(),
    ensures
        final(records).wf(),
        match incoming_missing(old(records)@, request.transfer_id@) {
            Some(reason) => {
                &&& result matches Err(error) && error@ == reason
                &&& final(records)@ == old(records)@
            },
            None => {
                let key = usual_form(request.transfer_id@)->Some_0;
                let before = old(records)@[key];
                if before.mutable.state is AwaitingAcceptance {
                    let after = IncomingNativeTransfer {
                        mutable: before.mutable.accepted(
                            plan.filename,
                            request.file_size,
                            plan.expected_sha256,
                            final_path,
                            plan.part_path,
                        ),
                        ..before
                    };
                    &&& final(records)@ == old(records)@.insert(key, after)
                    &&& result matches Ok(snapshot) && snapshot.shows(after)
                } else {
                    &&& final(records)@ == old(records)@
                    &&& result matches Err(error) && error@
                        == "native-incoming-acceptance-state-invalid"@
                }
            },
        },
{
    let key: String = match incoming_key(records, request.transfer_id.as_str()) {
        Ok(key) => key,
        Err(error) => {
            return Err(error);
        },
    };
    let ghost before = records@;
    match records.get_mut(&key) {
        Some(record) => {
            if record.mutable.state != IncomingNativeState::AwaitingAcceptance {
                assert(before.insert(key@, before[key@]) =~= before);
                return Err("native-incoming-acceptance-state-invalid".to_owned());
            }
            record.mutable.accepted_filename = Some(plan.filename);
            record.mutable.expected_file_size = Some(request.file_size);
            record.mutable.expected_sha256 = Some(plan.expected_sha256);
            record.mutable.final_path = Some(final_path);
            record.mutable.part_path = Some(plan.part_path);
            record.mutable.state = IncomingNativeState::Accepted;
            Ok(incoming_snapshot(record))
        },
        None => Err("native-incoming-transfer-not-found".to_owned()),
    }
}

/// Why the destination of an incoming transfer cannot be changed, if it cannot.
pub open spec fn destination_refusal(
    records: Map<Seq<char>, IncomingNativeTransfer>,
    transfer_id: Seq<char>,
) -> Option<Seq<char>> {
    if incoming_missing(records, transfer_id) is Some {
        incoming_missing(records, transfer_id)
    } else if !(records[usual_form(transfer_id)->Some_0].mutable.state is AwaitingAcceptance) {
        Some("native-incoming-destination-locked"@)
    } else {
        None
    }
}

/// Checks that the destination of an incoming transfer can still be changed.
pub fn check_destination_change(
    records: &Registry<String, IncomingNativeTransfer>,
    request: &SetIncomingDestinationRequest,
) -> (result: Result<(), String>)
    requires
        records.wf(),
    ensures
        match result {
            Ok(()) => destination_refusal(records@, request.transfer_id@) is None,
            Err(error) => destination_refusal(records@, request.transfer_id@) == Some(error@),
        },
{
    match lookup_incoming(records, request.transfer_id.as_str()) {
        Ok(record) => if record.mutable.state != IncomingNativeState::AwaitingAcceptance {
            Err("native-incoming-destination-locked".to_owned())
        } else {
            Ok(())
        },
        Err(error) => Err(error),
    }
}

/// Moves an incoming transfer to another destination, once the directories there are made and
/// the change is stored. Says which destination was left, if it was another one.
pub fn flowshare_native_set_incoming_destination(
    records: &mut Registry<String, IncomingNativeTransfer>,
    request: &SetIncomingDestinationRequest,
    destination: String,
    artifact: String,
) -> (result: Result<(IncomingNativeTransferSnapshot, Option<String>), String>)
    requires
        old(records).wf(),
    ensures
        final(records).wf(),
        match incoming_missing(old(records)@, request.transfer_id@) {
            Some(reason) => {
                &&& result matches Err(error) && error@ == reason
                &&& final(records)@ == old(records)@
            },
            None => {
                let key = usual_form(request.transfer_id@)->Some_0;
                let before = old(records)@[key];
                let after = IncomingNativeTransfer {
                    destination_directory: destination,
                    artifact_directory: artifact,
                    ..before
                };
                &&& final(records)@ == old(records)@.insert(key, after)
                &&& result matches Ok(done) && done.0.shows(after) && shown(done.1)
                    == if before.destination_directory@ == destination@ {
                    None
                } else {
                    Some(before.destination_directory@)
                }
            },
        },
{
    let key: String = match incoming_key(records, request.transfer_id.as_str()) {
        Ok(key) => key,
        Err(error) => {
            return Err(error);
        },
    };
    match records.get_mut(&key) {
        Some(record) => {
            let left: Option<String> = if same_text(
                record.destination_directory.as_str(),
                destination.as_str(),
            ) {
                None
            } else {
                Some(record.destination_directory.clone())
            };
            record.destination_directory = destination;
            record.artifact_directory = artifact;
            let snapshot = incoming_snapshot(record);
            Ok((snapshot, left))
        },
        None => Err("native-incoming-transfer-not-found".to_owned()),
    }
}

/// What is to be done once a run has ended.
#[derive(Debug, Clone, Copy, PartialEq, Eq, Structural)]
pub struct RunFollowUp {
    /// The state is stored, so that the transfer can be resumed.
    pub persist_state: bool,
    pub remove_state: bool,
    pub revoke_authorization: bool,
    pub consume_authorization: bool,
    pub delete_secret: bool,
    pub delete_part: bool,
    pub remove_workspace: bool,
}

/// What is to be done once a run of an outgoing transfer has ended in a state.
pub open spec fn outgoing_follow_up(state: OutgoingNativeState) -> RunFollowUp {
    RunFollowUp {
        persist_state: state is Paused,
        remove_state: state is Completed || state is Cancelled,
        revoke_authorization: state is Cancelled,
        consume_authorization: false,
        delete_secret: state is Cancelled,
        delete_part: false,
        remove_workspace: false,
    }
}

/// Ends a run of an outgoing transfer.
pub fn finish_outgoing_runtime(
    mutable: &mut OutgoingMutable,
    result: Result<SplitTransferResult, String>,
) -> (follow_up: RunFollowUp)
    ensures
        follow_up == outgoing_follow_up(final(mutable).state),
        match result {
            Ok(done) => *final(mutable) == (OutgoingMutable {
                runtime_active: false,
                bytes_sent: done.payload_bytes,
                bytes_skipped: done.bytes_skipped,
                integrity_result: final(mutable).integrity_result,
                signaling_file_payload_bytes: done.signaling_file_payload_bytes,
                performance: Some(done),
                state: OutgoingNativeState::Completed,
                terminal_error: None,
                ..*old(mutable)
            }) && shown(final(mutable).integrity_result) == Some(done.integrity_result@),
            Err(error) => *final(mutable) == (OutgoingMutable {
                runtime_active: false,
                state: ended_outgoing(old(mutable).state, error@),
                terminal_error: final(mutable).terminal_error,
                ..*old(mutable)
            }) && shown(final(mutable).terminal_error) == old(mutable).shown_error(error@),
        },
{
    mutable.finish(result);
    let state: OutgoingNativeState = mutable.state;
    let cancelled: bool = state == OutgoingNativeState::Cancelled;
    RunFollowUp {
        persist_state: state == OutgoingNativeState::Paused,
        remove_state: state == OutgoingNativeState::Completed || cancelled,
        revoke_authorization: cancelled,
        consume_authorization: false,
        delete_secret: cancelled,
        delete_part: false,
        remove_workspace: false,
    }
}

/// A paused transfer whose state could not be stored cannot be resumed: it has failed.
pub fn outgoing_state_not_stored(mutable: &mut OutgoingMutable, error: &str)
    ensures
        *final(mutable) == (OutgoingMutable {
            state: OutgoingNativeState::Failed,
            terminal_error: final(mutable).terminal_error,
            ..*old(mutable)
        }),
        shown(final(mutable).terminal_error) == Some(failure_text("resume-state-mismatch"@, error@)),
{
    mutable.state = OutgoingNativeState::Failed;
    mutable.terminal_error = Some(classify_failure("resume-state-mismatch", error));
}

/// Whether what was received of a transfer is to be removed: one of the two ends asked for it.
pub open spec fn deletes_partial(mutable: IncomingMutable) -> bool {
    mutable.local_stop == Some(LocalStopIntent::Cancel { retain_partial: false })
        || mutable.peer_cancel_retain_partial == Some(false)
}

/// What is to be done once a run of an incoming transfer has ended.
pub open spec fn incoming_follow_up(
    mutable: IncomingMutable,
    retention_expires_unix_ms: u64,
    now: u64,
) -> RunFollowUp {
    let cancelled = mutable.state is Cancelled;
    let completed = mutable.state is Completed;
    RunFollowUp {
        persist_state: false,
        remove_state: false,
        revoke_authorization: cancelled,
        consume_authorization: completed,
        delete_secret: cancelled || completed,
        delete_part: cancelled && deletes_partial(mutable) && mutable.part_path is Some,
        remove_workspace: completed || deletes_partial(mutable) || now
            >= retention_expires_unix_ms,
    }
}

/// Ends a run of an incoming transfer.
pub fn finish_incoming_runtime(
    mutable: &mut IncomingMutable,
    result: Result<SplitTransferResult, String>,
    retention_expires_unix_ms: u64,
    now: u64,
) -> (follow_up: RunFollowUp)
    ensures
        follow_up == incoming_follow_up(*final(mutable), retention_expires_unix_ms, now),
        match result {
            Ok(done) => *final(mutable) == (IncomingMutable {
                runtime_active: false,
                bytes_received: done.payload_bytes,
                bytes_written: done.payload_bytes,
                bytes_skipped: done.bytes_skipped,
                integrity_result: final(mutable).integrity_result,
                signaling_file_payload_bytes: done.signaling_file_payload_bytes,
                performance: Some(done),
                state: IncomingNativeState::Completed,
                terminal_error: None,
                ..*old(mutable)
            }) && shown(final(mutable).integrity_result) == Some(done.integrity_result@),
            Err(error) => *final(mutable) == (IncomingMutable {
                runtime_active: false,
                state: ended_incoming(old(mutable).state, error@),
                terminal_error: final(mutable).terminal_error,
                ..*old(mutable)
            }) && shown(final(mutable).terminal_error) == old(mutable).shown_error(error@),
        },
{
    mutable.finish(result);
    let cancelled: bool = mutable.state == IncomingNativeState::Cancelled;
    let completed: bool = mutable.state == IncomingNativeState::Completed;
    let own_wish: bool = match mutable.local_stop {
        Some(LocalStopIntent::Cancel { retain_partial }) => !retain_partial,
        _ => false,
    };
    let peer_wish: bool = match mutable.peer_cancel_retain_partial {
        Some(retain_partial) => !retain_partial,
        None => false,
    };
    let delete_partial: bool = own_wish || peer_wish;
    RunFollowUp {
        persist_state: false,
        remove_state: false,
        revoke_authorization: cancelled,
        consume_authorization: completed,
        delete_secret: cancelled || completed,
        delete_part: cancelled && delete_partial && mutable.part_path.is_some(),
        remove_workspace: completed || delete_partial || now >= retention_expires_unix_ms,
    }
}

/// The time that is granted for something, in milliseconds: what is asked for, but neither too
/// short nor too long.
pub fn bounded_timeout(value: Option<u64>, default_ms: u64) -> (timeout_ms: u64)
    ensures
        timeout_ms == clamped(
            match value {
                Some(asked) => asked,
                None => default_ms,
            },
            5_000,
            120_000,
        ),
{
    let asked: u64 = match value {
        Some(asked) => asked,
        None => default_ms,
    };
    clamp_u64(asked, 5_000, 120_000)
}

/// How long a run waits for the signaling server when nothing else is asked for: half a minute.
pub const DEFAULT_SIGNALING_TIMEOUT_MS: u64 = 30_000;

/// How long a run checks pairs when nothing else is asked for: a quarter of a minute.
pub const DEFAULT_CONNECTIVITY_TIMEOUT_MS: u64 = 15_000;

/// How long a run waits, in milliseconds.
#[derive(Debug, Clone, Copy, PartialEq, Eq, Structural)]
pub struct RunTimeouts {
    pub signaling_ms: u64,
    pub connectivity_ms: u64,
}

impl StartSplitTransferRequest {
    /// How long the run waits for the signaling server and for the checks.
    pub fn timeouts(&self) -> (timeouts: RunTimeouts)
        ensures
            timeouts.signaling_ms == clamped(
                match self.signaling_timeout_ms {
                    Some(asked) => asked,
                    None => DEFAULT_SIGNALING_TIMEOUT_MS,
                },
                5_000,
                120_000,
            ),
            timeouts.connectivity_ms == clamped(
                match self.connectivity_timeout_ms {
                    Some(asked) => asked,
                    None => DEFAULT_CONNECTIVITY_TIMEOUT_MS,
                },
                5_000,
                120_000,
            ),
    {
        RunTimeouts {
            signaling_ms: bounded_timeout(self.signaling_timeout_ms, DEFAULT_SIGNALING_TIMEOUT_MS),
            connectivity_ms: bounded_timeout(
                self.connectivity_timeout_ms,
                DEFAULT_CONNECTIVITY_TIMEOUT_MS,
            ),
        }
    }
}

/// How the sender gathers candidates: as it was asked to, but always under the privacy policy of
/// the transfer.
pub fn sender_gathering(
    gathering: Option<ConnectivityGatherOptions>,
    policy: CandidatePrivacyPolicy,
    signaling_lifetime_ms: u64,
) -> (options: ConnectivityGatherOptions)
    ensures
        options == (ConnectivityGatherOptions {
            privacy_policy: Some(policy),
            ..match gathering {
                Some(asked) => asked,
                None => usual_options(signaling_lifetime_ms),
            }
        }),
{
    let mut options: ConnectivityGatherOptions = match gathering {
        Some(asked) => asked,
        None => ConnectivityGatherOptions::usual(signaling_lifetime_ms),
    };
    options.privacy_policy = Some(policy);
    options
}

/// How long an invitation or a prepared receiver is good for, in milliseconds.
pub fn bounded_lifetime(value: Option<u64>, default_ms: u64) -> (lifetime_ms: u64)
    ensures
        lifetime_ms == clamped(
            match value {
                Some(asked) => asked,
                None => default_ms,
            },
            30_000,
            900_000,
        ),
{
    let asked: u64 = match value {
        Some(asked) => asked,
        None => default_ms,
    };
    clamp_u64(asked, 30_000, 900_000)
}

/// Refuses to start a first run on an invitation that has run out. A resumption goes on.
pub fn check_run_in_time(resume: bool, expires_unix_ms: u64, now: u64) -> (result: Result<
    (),
    String,
>)
    ensures
        match result {
            Ok(()) => resume || now <= saturating_sum(expires_unix_ms, BOOTSTRAP_SLACK_MS),
            Err(error) => !resume && now > saturating_sum(expires_unix_ms, BOOTSTRAP_SLACK_MS)
                && error@ == "authorization-delivery-failed: invitation-expired"@,
        },
{
    if !resume && now > expires_unix_ms.saturating_add(BOOTSTRAP_SLACK_MS) {
        return Err("authorization-delivery-failed: invitation-expired".to_owned());
    }
    Ok(())
}

} // verus!
