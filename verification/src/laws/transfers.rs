//! How a transfer starts, stops and ends, and what is cleaned up after it.

use crate::address::{IpAddress, SocketAddress};
use crate::connectivity::ConnectivityCheckResultPayload;
use crate::connectivity_diagnostics::{
    applies_report, fallback_of, outcome_of_failure, outcome_of_route, ConnectivityOutcome,
    NativeConnectivityDiagnostics, NativeFallbackDecision, ObservedNatMappingBehavior,
};
use crate::cross_device::{
    acceptance_defect, decline_follow_up, deletes_partial, destination_refusal, ended_incoming,
    ended_outgoing, incoming_follow_up, incoming_insert_refusal, incoming_missing,
    incoming_stop_follow_up, outgoing_follow_up, outgoing_insert_refusal, outgoing_missing,
    outgoing_stop_follow_up, shown, usual_form, AcceptIncomingTransferRequest, IncomingMutable,
    IncomingNativeState, IncomingNativeTransfer, IncomingNativeTransferSnapshot, LocalStopIntent,
    OutgoingMutable, OutgoingNativeState, OutgoingNativeTransfer, OutgoingNativeTransferSnapshot,
    Slot, SourceIdentity,
};
use crate::encoding::{hex_text, hex_value_32, parsed_uuid};
use crate::failures::{
    attempt_failure, candidate_setup_class, checks_failure, connect_failure, exchange_failure,
    failure_text, is_recoverable, is_retryable, names_code, receiver_wait_failure, results_agree,
    runtime_class, runtime_failure, server_code, speaks_for_itself, unnominated_failure,
};
use crate::hole_punch::HolePunchReport;
use crate::lifecycle::{after_transition, Lifecycle, TransferState};
use crate::ordering::{in_order, lemma_in_order};
use crate::path_selection::{EstimatedNativeRoute, PairFacts};
use crate::port_mapping::{
    lease_of, mapped_facts, mapping_refusal, protocols_of, renewal_seconds,
    NativePortMappingProtocol, PortMappingDevelopmentOptions,
};
use crate::received_files::filename_defect;
use crate::signaling::NativeConnectivityFailure;
use crate::text::{contains_text, ends_with_text};
use vstd::prelude::*;

verus! {

/// From where each state is reached: data moves only over a connection, a pause is asked for
/// first, only a finalized transfer completes, and only what stopped can be resumed.
pub proof fn law_states_are_reached_in_order(from: TransferState, to: TransferState)
    requires
        from.leads_to(to),
    ensures
        to is Preparing ==> from is Created,
        to is Connecting ==> from is Preparing || from is Resuming,
        to is Transferring ==> from is Connecting,
        to is Pausing ==> from is Transferring,
        to is Paused ==> from is Pausing,
        to is PausedByDisconnect ==> from is Transferring,
        to is Resuming ==> from is Paused || from is PausedByDisconnect
            || from is RecoverableFailure || from is Cancelled,
        to is Validating ==> from is Transferring,
        to is Synchronizing ==> from is Validating,
        to is Finalizing ==> from is Synchronizing,
        to is Completed ==> from is Finalizing,
        to is Cancelled ==> from is Cancelling || from is Paused || from is PausedByDisconnect
            || from is RecoverableFailure,
        to is Cancelling ==> !(from is Finalizing) && !(from is Cancelled) && !(from is Cancelling),
        to is RecoverableFailure ==> from is Connecting || from is Transferring || from is Pausing
            || from is Resuming || from is Validating || from is Synchronizing
            || from is Finalizing,
        !(to is Created),
        !(from is Completed) && !(from is Failed),
{
}

/// Every state leads on: the way from a new transfer to a complete one is open, every transfer
/// that is not over can fail, and one that is not being finalized can be cancelled.
pub proof fn law_the_way_to_completion_is_open(state: TransferState)
    ensures
        state is Created ==> state.leads_to(TransferState::Preparing),
        state is Preparing ==> state.leads_to(TransferState::Connecting),
        state is Connecting ==> state.leads_to(TransferState::Transferring),
        state is Transferring ==> state.leads_to(TransferState::Validating) && state.leads_to(
            TransferState::Pausing,
        ) && state.leads_to(TransferState::PausedByDisconnect),
        state is Pausing ==> state.leads_to(TransferState::Paused),
        state is Paused || state is PausedByDisconnect || state is RecoverableFailure
            || state is Cancelled ==> state.leads_to(TransferState::Resuming),
        state is Resuming ==> state.leads_to(TransferState::Connecting),
        state is Validating ==> state.leads_to(TransferState::Synchronizing),
        state is Synchronizing ==> state.leads_to(TransferState::Finalizing),
        state is Finalizing ==> state.leads_to(TransferState::Completed),
        state is Cancelling ==> state.leads_to(TransferState::Cancelled),
        !state.ended() ==> state.leads_to(TransferState::Failed),
        !state.ended() && !(state is Finalizing) && !(state is Cancelling) ==> state.leads_to(
            TransferState::Cancelling,
        ),
        state is Paused || state is PausedByDisconnect || state is RecoverableFailure
            ==> state.leads_to(TransferState::Cancelled),
        state is Connecting || state is Transferring || state is Pausing || state is Resuming
            || state is Validating || state is Synchronizing || state is Finalizing
            ==> state.leads_to(TransferState::RecoverableFailure),
        state.ended() <==> state is Cancelled || state is Completed || state is Failed,
        state.may_become(state),
{
}

/// A change of state is counted and dated; to stay is allowed and is neither; a change that is
/// not allowed leaves everything as it was.
pub proof fn law_changes_are_counted(lifecycle: Lifecycle, next: TransferState, now: u64)
    requires
        lifecycle.generation < u64::MAX,
    ensures
        ({
            let (after, refusal) = after_transition(lifecycle, next, now);
            let moves = lifecycle.state.leads_to(next) && lifecycle.state != next;
            &&& moves ==> refusal is None && after.state == next && after.generation
                == lifecycle.generation + 1 && after.last_state_change_unix_ms == now
            &&& !moves ==> after == lifecycle
            &&& lifecycle.state == next ==> refusal is None
            &&& lifecycle.state != next && !lifecycle.state.leads_to(next) ==> refusal is Some
        }),
{
}

/// An outgoing transfer starts exactly once its receiver is awaited and no run is active; then a
/// run looks for a path and nothing of an earlier stop is left.
pub proof fn law_sends_start_while_awaited(transfer: OutgoingMutable)
    ensures
        transfer.start_refusal() is None <==> transfer.state is AwaitingReceiver
            && !transfer.runtime_active,
        transfer.started().runtime_active,
        transfer.started().state is GatheringCandidates,
        !transfer.started().cancelled,
        !transfer.started().control_requested,
        transfer.started().local_stop is None,
        transfer.started().pause_request_id is None,
        transfer.started().terminal_error is None,
        transfer.started().integrity_result is None,
        transfer.started().bytes_sent == transfer.bytes_sent,
        transfer.started().bytes_skipped == transfer.bytes_skipped,
        transfer.started().start_refusal() is Some,
{
}

/// An incoming transfer starts exactly once it was accepted and no run is active; then a run looks
/// for a path and nothing of an earlier stop is left.
pub proof fn law_receives_start_once_accepted(transfer: IncomingMutable)
    ensures
        transfer.start_refusal() is None <==> transfer.state is Accepted
            && !transfer.runtime_active,
        transfer.started().runtime_active,
        transfer.started().state is GatheringCandidates,
        !transfer.started().cancelled,
        !transfer.started().control_requested,
        transfer.started().local_stop is None,
        transfer.started().peer_cancel_retain_partial is None,
        transfer.started().pause_request_id is None,
        transfer.started().terminal_error is None,
        transfer.started().integrity_result is None,
        transfer.started().bytes_written == transfer.bytes_written,
        transfer.started().bytes_skipped == transfer.bytes_skipped,
        transfer.started().start_refusal() is Some,
{
}

/// A cancelled transfer is cancelled for good: while data moves the peer is asked to stop, at any
/// other time the run is told to. What was sent stays counted.
pub proof fn law_cancelled_sends_are_cancelled(transfer: OutgoingMutable, retain_partial: bool)
    ensures
        ({
            let after = transfer.stopped(retain_partial);
            &&& after.state is Cancelled
            &&& after.local_stop == Some(LocalStopIntent::Cancel { retain_partial })
            &&& transfer.state is Transferring ==> after.control_requested && after.cancelled
                == transfer.cancelled
            &&& !(transfer.state is Transferring) ==> after.cancelled && after.control_requested
                == transfer.control_requested
            &&& after.runtime_active == transfer.runtime_active
            &&& after.bytes_sent == transfer.bytes_sent
            &&& after.is_settled()
            &&& after.finalization_refusal() == Some("native-transfer-cancelled"@)
        }),
        transfer.is_settled() <==> transfer.state is Finalizing || transfer.state is Completed
            || transfer.state is Cancelled,
{
}

/// A cancelled incoming transfer is cancelled for good, in the same way.
pub proof fn law_cancelled_receives_are_cancelled(transfer: IncomingMutable, retain_partial: bool)
    ensures
        ({
            let after = transfer.stopped(retain_partial);
            &&& after.state is Cancelled
            &&& after.local_stop == Some(LocalStopIntent::Cancel { retain_partial })
            &&& transfer.state is Receiving ==> after.control_requested && after.cancelled
                == transfer.cancelled
            &&& !(transfer.state is Receiving) ==> after.cancelled && after.control_requested
                == transfer.control_requested
            &&& after.runtime_active == transfer.runtime_active
            &&& after.bytes_written == transfer.bytes_written
            &&& after.is_settled()
            &&& after.finalization_refusal() == Some("native-transfer-cancelled"@)
            &&& !retain_partial ==> deletes_partial(after)
            &&& retain_partial && transfer.peer_cancel_retain_partial != Some(false)
                ==> !deletes_partial(after)
        }),
        transfer.is_settled() <==> transfer.state is Finalizing || transfer.state is Completed
            || transfer.state is Cancelled || transfer.state is Declined,
{
}

/// A transfer is paused exactly while its data moves, or again when it is paused already; then it
/// cannot be finalized until it goes on.
pub proof fn law_moving_transfers_can_be_paused(
    sent: OutgoingMutable,
    received: IncomingMutable,
    request_id: [u8; 16],
)
    ensures
        sent.pause_refusal() is None <==> sent.state is Transferring || sent.state is Paused,
        received.pause_refusal() is None <==> received.state is Receiving
            || received.state is Paused,
        sent.paused(request_id).state is Paused,
        received.paused(request_id).state is Paused,
        sent.paused(request_id).local_stop == Some(LocalStopIntent::Pause),
        received.paused(request_id).local_stop == Some(LocalStopIntent::Pause),
        sent.paused(request_id).pause_request_id == Some(request_id),
        received.paused(request_id).pause_request_id == Some(request_id),
        sent.paused(request_id).control_requested,
        received.paused(request_id).control_requested,
        sent.paused(request_id).cancelled == sent.cancelled,
        received.paused(request_id).cancelled == received.cancelled,
        sent.paused(request_id).finalization_refusal() == Some("native-transfer-paused"@),
        received.paused(request_id).finalization_refusal() == Some("native-transfer-paused"@),
        sent.paused(request_id).runtime_active == sent.runtime_active,
        received.paused(request_id).runtime_active == received.runtime_active,
{
}

/// A transfer is finalized exactly while its data moves and nobody asked it to stop; one that was
/// asked to is told which stop it was.
pub proof fn law_only_moving_transfers_are_finalized(sent: OutgoingMutable, received: IncomingMutable)
    ensures
        sent.finalization_refusal() is None <==> sent.state is Transferring && sent.local_stop
            is None,
        received.finalization_refusal() is None <==> received.state is Receiving
            && received.local_stop is None,
        sent.local_stop == Some(LocalStopIntent::Pause) ==> sent.finalization_refusal() == Some(
            "native-transfer-paused"@,
        ),
        received.local_stop == Some(LocalStopIntent::Pause) ==> received.finalization_refusal()
            == Some("native-transfer-paused"@),
        sent.state is Cancelled && sent.local_stop is None ==> sent.finalization_refusal() == Some(
            "native-transfer-cancelled"@,
        ),
        received.state is Cancelled && received.local_stop is None
            ==> received.finalization_refusal() == Some("native-transfer-cancelled"@),
{
}

/// How a run that broke off ends: what is complete stays complete, what was cancelled here or by
/// the peer is cancelled, what was paused here or by the peer is paused, anything else failed.
pub proof fn law_broken_runs_end_as_they_were_stopped(
    sent: OutgoingNativeState,
    received: IncomingNativeState,
    error: Seq<char>,
)
    ensures
        ({
            let cancelled = error == "native-transfer-cancelled"@ || error == "peer-cancelled"@;
            let paused = error == "native-transfer-paused"@ || error == "peer-paused"@;
            let one = ended_outgoing(sent, error);
            let two = ended_incoming(received, error);
            &&& one is Completed <==> sent is Completed
            &&& two is Completed <==> received is Completed
            &&& one is Cancelled <==> !(sent is Completed) && (sent is Cancelled || cancelled)
            &&& two is Cancelled <==> !(received is Completed) && (received is Cancelled
                || cancelled)
            &&& one is Paused <==> !(sent is Completed) && !(sent is Cancelled || cancelled) && (
            sent is Paused || paused)
            &&& two is Paused <==> !(received is Completed) && !(received is Cancelled
                || cancelled) && (received is Paused || paused)
            &&& one is Completed || one is Cancelled || one is Paused || one is Failed
            &&& two is Completed || two is Cancelled || two is Paused || two is Failed
        }),
{
}

/// What is shown of a run that broke off: nothing of a complete one, a stop by name, and an error
/// otherwise.
pub proof fn law_broken_runs_show_their_stop(
    sent: OutgoingMutable,
    received: IncomingMutable,
    error: Seq<char>,
)
    ensures
        sent.shown_error(error) is None <==> sent.state is Completed,
        received.shown_error(error) is None <==> received.state is Completed,
        !(sent.state is Completed) && sent.local_stop is Some && sent.local_stop->Some_0 is Cancel
            ==> sent.shown_error(error) == Some("native-transfer-cancelled"@),
        !(received.state is Completed) && received.local_stop is Some
            && received.local_stop->Some_0 is Cancel ==> received.shown_error(error) == Some(
            "native-transfer-cancelled"@,
        ),
        !(sent.state is Completed) && sent.local_stop == Some(LocalStopIntent::Pause)
            ==> sent.shown_error(error) == Some("native-transfer-paused"@),
        !(received.state is Completed) && received.local_stop == Some(LocalStopIntent::Pause)
            ==> received.shown_error(error) == Some("native-transfer-paused"@),
        !(sent.state is Completed) && sent.local_stop is None && contains_text(error, ":"@)
            ==> sent.shown_error(error) == Some(error),
        !(received.state is Completed) && received.local_stop is None && contains_text(error, ":"@)
            ==> received.shown_error(error) == Some(error),
{
}

/// What remains to be done after a run: a paused send is kept, an ended one is not; a cancelled
/// transfer loses its authorization, a received one uses it up; a part file goes only where it
/// was not to be kept, and a workspace also once its time is over.
pub proof fn law_ended_runs_are_cleaned_up(
    state: OutgoingNativeState,
    received: IncomingMutable,
    retention_expires_unix_ms: u64,
    now: u64,
)
    ensures
        ({
            let sent = outgoing_follow_up(state);
            &&& sent.persist_state <==> state is Paused
            &&& sent.remove_state <==> state is Completed || state is Cancelled
            &&& sent.revoke_authorization <==> state is Cancelled
            &&& sent.delete_secret <==> state is Cancelled
            &&& !sent.consume_authorization && !sent.delete_part && !sent.remove_workspace
        }),
        ({
            let done = incoming_follow_up(received, retention_expires_unix_ms, now);
            let unwanted = received.local_stop == Some(
                LocalStopIntent::Cancel { retain_partial: false },
            ) || received.peer_cancel_retain_partial == Some(false);
            &&& !done.persist_state && !done.remove_state
            &&& done.revoke_authorization <==> received.state is Cancelled
            &&& done.consume_authorization <==> received.state is Completed
            &&& done.delete_secret <==> received.state is Cancelled || received.state is Completed
            &&& done.delete_part <==> received.state is Cancelled && unwanted
                && received.part_path is Some
            &&& done.remove_workspace <==> received.state is Completed || unwanted
                || retention_expires_unix_ms <= now
        }),
{
}

/// A cancelled transfer without a run is cleaned up at once; with one the run does it. A send
/// leaves nothing; a receive keeps its data where that was asked for.
pub proof fn law_cancelled_transfers_are_cleaned_up_once(
    sent: OutgoingMutable,
    received: IncomingMutable,
    retain_partial: bool,
)
    ensures
        ({
            let one = outgoing_stop_follow_up(sent);
            let two = incoming_stop_follow_up(received, retain_partial);
            let open = !(sent.state is Finalizing || sent.state is Completed
                || sent.state is Cancelled);
            let waiting = !(received.state is Finalizing || received.state is Completed
                || received.state is Cancelled || received.state is Declined);
            &&& one.revoke_authorization <==> open && !sent.runtime_active
            &&& one.delete_secret <==> open && !sent.runtime_active
            &&& one.remove_state <==> open && !sent.runtime_active
            &&& !one.remove_workspace
            &&& two.revoke_authorization <==> waiting && !received.runtime_active
            &&& two.remove_workspace <==> waiting && !received.runtime_active && !retain_partial
            &&& !two.delete_secret && !two.remove_state
        }),
{
}

/// A declined transfer is over, leaves nothing behind, and is cleaned up once.
pub proof fn law_declined_transfers_leave_nothing(received: IncomingMutable)
    ensures
        received.declined().state is Declined,
        received.declined().cancelled,
        received.declined().is_settled(),
        deletes_partial(received.declined()),
        received.declined().runtime_active == received.runtime_active,
        decline_follow_up(received).revoke_authorization <==> !(received.state is Declined),
        decline_follow_up(received).remove_workspace <==> !(received.state is Declined),
        !decline_follow_up(received).delete_secret,
        !decline_follow_up(received).remove_state,
        !decline_follow_up(received.declined()).revoke_authorization,
{
}

/// A transfer is found exactly under its identifier, however that is written.
pub proof fn law_transfers_are_found_under_their_identifier(
    sent: Map<Seq<char>, OutgoingNativeTransfer>,
    received: Map<Seq<char>, IncomingNativeTransfer>,
    id: Seq<char>,
    other: Seq<char>,
)
    ensures
        outgoing_missing(sent, id) is None <==> usual_form(id) is Some && sent.contains_key(
            usual_form(id)->Some_0,
        ),
        incoming_missing(received, id) is None <==> usual_form(id) is Some
            && received.contains_key(usual_form(id)->Some_0),
        usual_form(id) == usual_form(other) ==> outgoing_missing(sent, id) == outgoing_missing(
            sent,
            other,
        ) && incoming_missing(received, id) == incoming_missing(received, other),
        usual_form(id) is Some <==> parsed_uuid(id) is Some,
{
}

/// A transfer is added exactly when it is not there yet and there is room.
pub proof fn law_transfers_are_added_while_there_is_room(
    sent: Map<Seq<char>, OutgoingNativeTransfer>,
    received: Map<Seq<char>, IncomingNativeTransfer>,
    id: Seq<char>,
)
    ensures
        outgoing_insert_refusal(sent, id) is None <==> !sent.contains_key(id) && sent.dom().len()
            < 64,
        incoming_insert_refusal(received, id) is None <==> !received.contains_key(id)
            && received.dom().len() < 64,
{
}

/// A transfer is accepted exactly where it is known, under a safe name and with a digest; where it
/// goes may be chosen only while it waits for that.
pub proof fn law_acceptance_needs_a_safe_name(
    records: Map<Seq<char>, IncomingNativeTransfer>,
    request: AcceptIncomingTransferRequest,
    id: Seq<char>,
)
    ensures
        acceptance_defect(records, request) is None <==> {
            &&& incoming_missing(records, request.transfer_id@) is None
            &&& filename_defect(request.display_filename@) is None
            &&& exists|bytes: Seq<u8>| #[trigger] hex_value_32(request.expected_sha256@, bytes)
        },
        destination_refusal(records, id) is None <==> incoming_missing(records, id) is None
            && records[usual_form(id)->Some_0].mutable.state is AwaitingAcceptance,
        incoming_missing(records, id) is None && !(
        records[usual_form(id)->Some_0].mutable.state is AwaitingAcceptance)
            ==> destination_refusal(records, id) == Some("native-incoming-destination-locked"@),
{
}

/// An accepted transfer keeps what was agreed and is ready to start.
pub proof fn law_accepted_transfers_can_start(
    transfer: IncomingMutable,
    filename: String,
    file_size: u64,
    expected_sha256: [u8; 32],
    final_path: String,
    part_path: String,
)
    requires
        !transfer.runtime_active,
    ensures
        ({
            let after = transfer.accepted(
                filename,
                file_size,
                expected_sha256,
                final_path,
                part_path,
            );
            &&& after.state is Accepted
            &&& after.start_refusal() is None
            &&& after.accepted_filename == Some(filename)
            &&& after.expected_file_size == Some(file_size)
            &&& after.expected_sha256 == Some(expected_sha256)
            &&& after.final_path == Some(final_path)
            &&& after.part_path == Some(part_path)
            &&& after.bytes_written == transfer.bytes_written
        }),
{
}

/// Two looks at a file are of one file exactly when its size, its time, its identity on the disk
/// and its place agree.
pub proof fn law_files_are_known_again(left: SourceIdentity, right: SourceIdentity, third: SourceIdentity)
    ensures
        left.same(right) <==> left.size == right.size && left.modified_unix_ms
            == right.modified_unix_ms && shown(left.platform_file_id) == shown(
            right.platform_file_id,
        ) && shown(left.canonical_path) == shown(right.canonical_path),
        left.same(left),
        left.same(right) ==> right.same(left),
        left.same(right) && right.same(third) ==> left.same(third),
{
}

/// What is shown of a record is what it holds, and never a secret.
pub proof fn law_snapshots_show_the_record(
    sent: OutgoingNativeTransferSnapshot,
    outgoing: OutgoingNativeTransfer,
    received: IncomingNativeTransferSnapshot,
    incoming: IncomingNativeTransfer,
)
    requires
        sent.shows(outgoing),
        received.shows(incoming),
    ensures
        sent.state == outgoing.mutable.state,
        received.state == incoming.mutable.state,
        sent.bytes_sent == outgoing.mutable.bytes_sent,
        received.bytes_written == incoming.mutable.bytes_written,
        received.bytes_received == incoming.mutable.bytes_received,
        sent.bytes_skipped == outgoing.mutable.bytes_skipped,
        received.bytes_skipped == incoming.mutable.bytes_skipped,
        sent.file_size == outgoing.file_size,
        sent.runtime_active == outgoing.mutable.runtime_active,
        received.runtime_active == incoming.mutable.runtime_active,
        shown(sent.terminal_error) == shown(outgoing.mutable.terminal_error),
        shown(received.terminal_error) == shown(incoming.mutable.terminal_error),
        received.authorization_secret@ == "[REDACTED]"@,
        !received.source_path_exposed,
        sent.expires_unix_ms == outgoing.expires_unix_ms,
        received.retention_expires_unix_ms == incoming.retention_expires_unix_ms,
{
}

/// A message names a server's code by being it or by ending with it after a colon, and what is
/// named is one of the server's codes.
pub proof fn law_server_codes_are_found_in_messages(error: Seq<char>)
    ensures
        server_code(error) matches Some(code) ==> error == code || ends_with_text(
            error,
            ": "@ + code,
        ),
        server_code(error) is None ==> !names_code(error, "native-signaling-disabled"@)
            && !names_code(error, "native-peer-offline"@) && !names_code(
            error,
            "native-route-unauthorized"@,
        ) && !names_code(error, "invalid-native-envelope"@) && !names_code(
            error,
            "share-offline-or-expired"@,
        ) && !names_code(error, "receiver-announcement-failed"@) && !names_code(
            error,
            "invalid-native-capability"@,
        ) && !names_code(error, "invalid-native-control"@),
{
}

/// Signaling is tried again after any error but those that another try cannot mend.
pub proof fn law_lasting_errors_are_not_retried(error: Seq<char>)
    ensures
        !is_retryable(error) <==> {
            ||| error == "native-signaling-endpoint-invalid"@
            ||| error == "native-signaling-route-invalid"@
            ||| error == "native-signaling-file-summary-required"@
            ||| error == "native-signaling-file-summary-invalid"@
            ||| error == "native-signaling-state-unavailable"@
            ||| error == "native-signaling-disabled"@
            ||| error == "native-route-unauthorized"@
            ||| error == "invalid-native-envelope"@
            ||| error == "invalid-native-capability"@
            ||| error == "invalid-native-control"@
        },
{
}

/// A failed step keeps what was reported behind its class; a cancellation is only that.
pub proof fn law_failed_steps_are_classed(error: Seq<char>)
    ensures
        error == "native-signaling-cancelled"@ ==> exchange_failure(error)
            == "native-transfer-cancelled"@ && receiver_wait_failure(error)
            == "native-transfer-cancelled"@,
        error == "native-connectivity-cancelled"@ ==> checks_failure(error)
            == "native-transfer-cancelled"@,
        server_code(error) is Some ==> connect_failure(error) == failure_text(
            server_code(error)->Some_0,
            error,
        ),
        server_code(error) is None ==> connect_failure(error) == failure_text(
            "signaling-unavailable"@,
            error,
        ),
        error != "native-signaling-cancelled"@ && server_code(error) is Some ==> exchange_failure(
            error,
        ) == connect_failure(error) && receiver_wait_failure(error) == connect_failure(error),
        error != "native-signaling-cancelled"@ && server_code(error) is None && error
            == "native-signaling-receiver-timeout"@ ==> receiver_wait_failure(error)
            == failure_text("receiver-not-ready"@, error),
        error != "native-signaling-cancelled"@ && server_code(error) is None && (contains_text(
            error,
            "reconnect-exhausted"@,
        ) || contains_text(error, "state-unavailable"@) || contains_text(
            error,
            "transport-unavailable"@,
        ) || contains_text(error, "connect-failed"@) || contains_text(error, "connect-timeout"@))
            ==> exchange_failure(error) == connect_failure(error),
        error != "native-connectivity-cancelled"@ && contains_text(
            error,
            "remote-candidates-required"@,
        ) ==> checks_failure(error) == failure_text("remote-candidates-missing"@, error),
        contains_text(error, "authorization"@) || contains_text(error, "invitation"@)
            ==> candidate_setup_class(error) == "authorization-delivery-failed"@ && runtime_class(
            error,
        ) == "authorization-delivery-failed"@,
        speaks_for_itself(error) ==> runtime_failure(error) == error,
        !speaks_for_itself(error) ==> runtime_failure(error) == failure_text(
            runtime_class(error),
            error,
        ),
        contains_text(error, ":"@) ==> speaks_for_itself(error),
{
}

/// The class of a failure goes by the first thing that its message speaks of: who is allowed
/// before what was reached, and that before what was exchanged over it.
pub proof fn law_classes_go_by_the_message(error: Seq<char>)
    ensures
        ({
            let says = |word: Seq<char>| contains_text(error, word);
            let denied = says("authorization"@) || says("invitation"@);
            let unbound = says("native-udp-bind"@) || says("native-udp-address-family-unavailable"@);
            let empty = says("native-connectivity-no-local-candidates"@);
            let class = candidate_setup_class(error);
            &&& denied ==> class == "authorization-delivery-failed"@
            &&& !denied && unbound ==> class == "udp-bind-failed"@
            &&& !denied && !unbound && empty ==> class == "no-local-candidates"@
            &&& !denied && !unbound && !empty && says("native-stun"@) ==> class
                == "stun-discovery-failed"@
            &&& !denied && !unbound && !empty && !says("native-stun"@) ==> class == (if says(
                "authentication"@,
            ) || says("signature"@) {
                "candidate-authentication-failed"@
            } else {
                "candidate-gathering-failed"@
            })
        }),
        ({
            let says = |word: Seq<char>| contains_text(error, word);
            let denied = says("authorization"@) || says("invitation"@);
            let pathless = says("direct"@) || says("nomination"@);
            let unconnected = says("quic"@) || says("connect"@);
            let class = runtime_class(error);
            &&& denied ==> class == "authorization-delivery-failed"@
            &&& !denied && says("signaling"@) ==> class == "signaling-unavailable"@
            &&& !denied && !says("signaling"@) && says("candidate"@) ==> class
                == "candidate-exchange-failed"@
            &&& !denied && !says("signaling"@) && !says("candidate"@) && pathless ==> class
                == "no-direct-path"@
            &&& !denied && !says("signaling"@) && !says("candidate"@) && !pathless && unconnected
                ==> class == "quic-connect-failed"@
            &&& !denied && !says("signaling"@) && !says("candidate"@) && !pathless && !unconnected
                ==> class == (if says("handshake"@) || says("authentication"@) {
                "secure-handshake-failed"@
            } else {
                "transfer-interrupted"@
            })
        }),
        ({
            let says = |word: Seq<char>| contains_text(error, word);
            let alone = says("remote-candidates-required"@);
            let failure = checks_failure(error);
            error != "native-connectivity-cancelled"@ ==> {
                &&& alone ==> failure == failure_text("remote-candidates-missing"@, error)
                &&& !alone && says("no-candidate-pairs"@) ==> failure == failure_text(
                    "no-compatible-candidate-pair"@,
                    error,
                )
                &&& !alone && !says("no-candidate-pairs"@) ==> failure == failure_text(
                    if says("socket"@) || says("udp-address-family"@) {
                        "udp-runtime-failed"@
                    } else {
                        "no-direct-path"@
                    },
                    error,
                )
            }
        }),
        failure_text("signaling-unavailable"@, error).len() == "signaling-unavailable"@.len() + 2
            + error.len(),
        ends_with_text(failure_text("signaling-unavailable"@, error), error),
{
    reveal_strlit(": ");
    let whole = failure_text("signaling-unavailable"@, error);
    assert(whole.skip(whole.len() - error.len()) =~= error);
}

/// Two ends agree exactly when this end found a pair, the peer did not fail, and the pair is among
/// those that the peer found.
pub proof fn law_ends_agree_on_a_pair(
    local_pair: Option<Seq<char>>,
    peer: ConnectivityCheckResultPayload,
)
    ensures
        results_agree(local_pair, peer) <==> local_pair is Some && peer.failure is None
            && exists|i: int|
            0 <= i < peer.viable_pair_ids@.len() && (#[trigger] peer.viable_pair_ids@[i])@
                == local_pair->Some_0,
{
}

/// Another attempt is made after a timeout or a path that did not work, not after a refusal or a
/// cancellation.
pub proof fn law_attempts_are_repeated_for_paths_only(failure: Option<NativeConnectivityFailure>)
    ensures
        is_recoverable(failure) <==> {
            ||| failure is None
            ||| failure == Some(NativeConnectivityFailure::UdpBlocked)
            ||| failure == Some(NativeConnectivityFailure::DirectConnectTimeout)
            ||| failure == Some(NativeConnectivityFailure::NoViablePair)
            ||| failure == Some(NativeConnectivityFailure::SymmetricNatLikely)
        },
        failure == Some(NativeConnectivityFailure::Cancelled) ==> !is_recoverable(failure),
{
}

/// A failed attempt is told by this end's outcome where it nominated nothing, and by the peer's
/// where it did.
pub proof fn law_failed_attempts_tell_whose_fault(
    nominated: bool,
    outcome: Option<ConnectivityOutcome>,
    last_error: Option<Seq<char>>,
    peer: Option<NativeConnectivityFailure>,
)
    ensures
        ({
            let told = attempt_failure(nominated, outcome, last_error, peer);
            &&& !nominated ==> told == unnominated_failure(outcome, last_error)
            &&& nominated && peer == Some(NativeConnectivityFailure::Cancelled) ==> told
                == "peer-cancelled"@
            &&& !nominated && outcome == Some(ConnectivityOutcome::Cancelled) ==> told
                == "native-transfer-cancelled"@
            &&& !nominated && outcome is None && last_error is Some ==> told == failure_text(
                "no-direct-path"@,
                last_error->Some_0,
            )
        }),
{
}

/// A path that works is a success of its kind, and no other transport is needed.
pub proof fn law_found_paths_are_successes(route: EstimatedNativeRoute)
    ensures
        ({
            let outcome = outcome_of_route(route);
            &&& outcome is LanDirectSuccess <==> route is SameLan
            &&& outcome is Ipv6DirectSuccess <==> route is Ipv6Direct
            &&& outcome is MappedDirectSuccess <==> route is MappedDirect
            &&& outcome is ManualDirectSuccess <==> route is ManualDirect
            &&& outcome is StunHolePunchSuccess <==> route is StunHolePunch || route is MixedDirect
        }),
{
}

/// Without a path the outcome says what is known: blocked only where no server was reached either,
/// a translation that depends on the destination only where one was seen.
pub proof fn law_missing_paths_are_explained(
    failure: Option<NativeConnectivityFailure>,
    reached: bool,
    mapping: ObservedNatMappingBehavior,
)
    ensures
        ({
            let outcome = outcome_of_failure(failure, reached, mapping);
            let blocked = failure == Some(NativeConnectivityFailure::UdpBlocked);
            let unusable = failure == Some(NativeConnectivityFailure::NoViablePair);
            &&& outcome is UdpBlocked <==> blocked && !reached
            &&& outcome is SymmetricNatLikely <==> unusable && mapping
                is LikelyAddressAndPortDependent
            &&& outcome is NoViablePair <==> unusable && !(mapping
                is LikelyAddressAndPortDependent)
            &&& outcome is Cancelled <==> failure == Some(NativeConnectivityFailure::Cancelled)
            &&& outcome is Unknown <==> failure is None
            &&& blocked && reached ==> outcome is DirectConnectTimeout
            &&& fallback_of(outcome) is RelayRequired <==> outcome is SymmetricNatLikely
            &&& fallback_of(outcome) is UnsupportedNetwork <==> blocked && !reached
            &&& !(fallback_of(outcome) is NativeDirectSuccess)
        }),
{
}

/// What a report makes of the diagnostics: a nominated path and no other transport where a pair
/// was chosen, a failure or a cancellation otherwise.
pub proof fn law_diagnostics_tell_the_outcome(
    before: NativeConnectivityDiagnostics,
    after: NativeConnectivityDiagnostics,
    report: HolePunchReport,
    selected_pair: Option<PairFacts>,
)
    requires
        applies_report(before, after, report, selected_pair),
    ensures
        after.state is Nominated <==> selected_pair is Some,
        after.fallback_decision == Some(NativeFallbackDecision::NativeDirectSuccess)
            <==> selected_pair is Some,
        selected_pair matches Some(pair) ==> (after.selected_pair matches Some(path)
            && path.pair_id@ == pair.pair_id && path.estimated_route == pair.estimated_route
            && path.remote_endpoint == pair.remote_socket()),
        selected_pair is None ==> (after.state is Cancelled <==> report.failure == Some(
            NativeConnectivityFailure::Cancelled,
        )),
        selected_pair is None && report.failure != Some(NativeConnectivityFailure::Cancelled)
            ==> after.state is Failed,
        selected_pair is None ==> !after.firewall.firewall_blocked_likely,
        selected_pair is Some ==> after.firewall.firewall_blocked_likely
            == before.firewall.firewall_blocked_likely,
        after.candidate_generation == before.candidate_generation,
        after.transfer_id == before.transfer_id,
        after.connectivity_session_id == before.connectivity_session_id,
        after.host_candidates == before.host_candidates,
        after.mapped_candidates == before.mapped_candidates,
        after.interfaces_examined == before.interfaces_examined,
        after.observed_nat_mapping == before.observed_nat_mapping,
        after.port_mapping_attempts == before.port_mapping_attempts,
        after.candidate_pairs_attempted == before.candidate_pairs_attempted,
        after.firewall.udp_bind_succeeded == before.firewall.udp_bind_succeeded,
        after.firewall.outbound_stun_succeeded == before.firewall.outbound_stun_succeeded,
        after.firewall.quic_handshake_reached == before.firewall.quic_handshake_reached,
        after.same_udp_port_preserved_for_stun_probe_and_quic
            == before.same_udp_port_preserved_for_stun_probe_and_quic,
        after.quinn_udp_send_buffer_bytes == before.quinn_udp_send_buffer_bytes,
        after.quinn_udp_receive_buffer_bytes == before.quinn_udp_receive_buffer_bytes,
        after.last_error == before.last_error,
        after.unauthenticated_probe_packets_dropped == report.unauthenticated_packets_dropped,
        after.replayed_probe_packets_dropped == report.replayed_packets_dropped,
        after.probe_packets_sent == report.total_packets_sent,
        after.probe_packets_received == report.total_packets_received,
        after.authenticated_probe_packets_received == report.authenticated_packets_received,
        after.file_payload_bytes_sent_through_signaling
            == before.file_payload_bytes_sent_through_signaling,
{
}

/// A port is mapped exactly in development builds, for a port, over at most three protocols; the
/// lease is kept between one and ten minutes and renewed halfway, but not within half a minute.
pub proof fn law_mappings_are_bounded(
    internal_port: u16,
    options: PortMappingDevelopmentOptions,
    development: bool,
    lease: u32,
)
    ensures
        mapping_refusal(internal_port, options, development) is None <==> development
            && internal_port > 0 && protocols_of(options).len() <= 3,
        60 <= lease_of(options) <= 600,
        options.lease_duration_seconds matches Some(wanted) ==> (60 <= wanted <= 600 ==> lease_of(
            options,
        ) == wanted),
        options.protocols is None ==> protocols_of(options).len() == 3
            && protocols_of(options)[0] is UpnpIgd && protocols_of(options)[1] is Pcp
            && protocols_of(options)[2] is NatPmp,
        options.protocols is Some ==> protocols_of(options) == options.protocols->Some_0@,
        renewal_seconds(lease) >= 30,
        lease >= 60 ==> renewal_seconds(lease) <= lease < 2 * renewal_seconds(lease) + 2 && 2
            * renewal_seconds(lease) <= lease,
{
}

/// A mapped candidate stands for the mapped endpoint and names the socket behind it.
pub proof fn law_mapped_candidates_name_their_socket(
    protocol: NativePortMappingProtocol,
    external_ip: IpAddress,
    external_port: u16,
    internal_endpoint: SocketAddress,
    generation: u32,
    expires_unix_ms: u64,
)
    ensures
        ({
            let candidate = mapped_facts(
                protocol,
                external_ip,
                external_port,
                internal_endpoint,
                generation,
                expires_unix_ms,
            );
            &&& candidate.candidate_type is Mapped
            &&& candidate.address == external_ip
            &&& candidate.port == external_port
            &&& candidate.related_address == Some(internal_endpoint)
            &&& candidate.generation == generation
            &&& candidate.expires_unix_ms == expires_unix_ms
            &&& candidate.priority == crate::candidates::priority_of(
                candidate.candidate_type,
                false,
                true,
            )
            &&& candidate.candidate_id == candidate.proper_id()
        }),
{
}

/// Without a nomination this end's outcome is told by its own class; what is not known better is
/// that there is no direct path, with the last error.
pub proof fn law_outcomes_have_their_class(
    outcome: Option<ConnectivityOutcome>,
    last_error: Option<Seq<char>>,
)
    ensures
        ({
            let told = unnominated_failure(outcome, last_error);
            let starts = |class: Seq<char>| crate::text::starts_with_text(told, class);
            &&& outcome == Some(ConnectivityOutcome::UdpBlocked) ==> starts("udp-unavailable"@)
            &&& outcome == Some(ConnectivityOutcome::FirewallBlockedLikely) ==> starts(
                "authenticated-probe-timeout"@,
            )
            &&& outcome == Some(ConnectivityOutcome::SymmetricNatLikely) ==> starts(
                "endpoint-dependent-nat-likely"@,
            )
            &&& outcome == Some(ConnectivityOutcome::NoViablePair) ==> starts(
                "authenticated-udp-no-viable-pair"@,
            )
            &&& outcome == Some(ConnectivityOutcome::DirectConnectTimeout) ==> starts(
                "direct-connect-timeout"@,
            )
            &&& outcome == Some(ConnectivityOutcome::CandidateAuthenticationFailed) ==> starts(
                "candidate-authentication-failed"@,
            )
            &&& outcome == Some(ConnectivityOutcome::CandidateExchangeFailed) ==> starts(
                "candidate-exchange-failed"@,
            )
            &&& outcome == Some(ConnectivityOutcome::Cancelled) ==> told
                == "native-transfer-cancelled"@
            &&& outcome is None || outcome == Some(ConnectivityOutcome::Unknown) ==> starts(
                "no-direct-path"@,
            ) && (last_error is Some ==> ends_with_text(told, last_error->Some_0))
        }),
{
    assert forall|class: Seq<char>, detail: Seq<char>|
        crate::text::starts_with_text(#[trigger] failure_text(class, detail), class)
            && ends_with_text(failure_text(class, detail), detail) by {
        let whole = failure_text(class, detail);
        assert(whole.subrange(0, class.len() as int) =~= class);
        assert(whole.subrange(whole.len() - detail.len(), whole.len() as int) =~= detail);
    }
}

/// After a nomination the peer's failure is told by its own class.
pub proof fn law_peers_failures_have_their_class(
    outcome: Option<ConnectivityOutcome>,
    last_error: Option<Seq<char>>,
    peer: Option<NativeConnectivityFailure>,
)
    ensures
        ({
            let told = attempt_failure(true, outcome, last_error, peer);
            let starts = |class: Seq<char>| crate::text::starts_with_text(told, class);
            &&& peer == Some(NativeConnectivityFailure::UdpBlocked) || peer == Some(
                NativeConnectivityFailure::DirectConnectTimeout,
            ) ==> starts("direct-connect-timeout"@)
            &&& peer == Some(NativeConnectivityFailure::SymmetricNatLikely) ==> starts(
                "endpoint-dependent-nat-likely"@,
            )
            &&& peer == Some(NativeConnectivityFailure::NoViablePair) ==> starts(
                "authenticated-udp-no-viable-pair"@,
            )
            &&& peer == Some(NativeConnectivityFailure::Cancelled) ==> told == "peer-cancelled"@
            &&& peer is None ==> starts("no-direct-path"@)
        }),
{
    assert forall|class: Seq<char>, detail: Seq<char>|
        crate::text::starts_with_text(#[trigger] failure_text(class, detail), class) by {
        let whole = failure_text(class, detail);
        assert(whole.subrange(0, class.len() as int) =~= class);
    }
}

/// What is shown of a send is what is recorded of it.
pub proof fn law_shown_sends_are_as_recorded(
    snapshot: OutgoingNativeTransferSnapshot,
    record: OutgoingNativeTransfer,
)
    requires
        snapshot.shows(record),
    ensures
        snapshot.transfer_id@ == record.transfer_id@,
        snapshot.invitation_id@ == record.invitation_id@,
        snapshot.state == record.mutable.state,
        snapshot.source_path@ == record.source_path@,
        snapshot.display_filename@ == record.display_filename@,
        snapshot.file_size == record.file_size,
        snapshot.expected_sha256@ == hex_text(record.expected_sha256@),
        snapshot.receiver_certificate_fingerprint_sha256@ == hex_text(
            record.receiver_certificate_fingerprint_sha256@,
        ),
        snapshot.candidate_privacy_policy == record.candidate_privacy_policy,
        snapshot.expires_unix_ms == record.expires_unix_ms,
        snapshot.created_unix_ms == record.created_unix_ms,
        snapshot.bytes_sent == record.mutable.bytes_sent,
        snapshot.bytes_skipped == record.mutable.bytes_skipped,
        snapshot.peer_checkpoint_generation == record.mutable.peer_checkpoint_generation,
        snapshot.peer_completed_bytes == record.mutable.peer_completed_bytes,
        snapshot.peer_state_digest is Some <==> record.mutable.peer_state_digest is Some,
        record.mutable.peer_state_digest matches Some(digest)
            ==> snapshot.peer_state_digest->Some_0@ == hex_text(digest@),
        shown(snapshot.connectivity_session_id) == shown(record.mutable.connectivity_session_id),
        shown(snapshot.quic_session_id) == shown(record.mutable.quic_session_id),
        shown(snapshot.selected_path) == shown(record.mutable.selected_path),
        shown(snapshot.integrity_result) == shown(record.mutable.integrity_result),
        shown(snapshot.terminal_error) == shown(record.mutable.terminal_error),
        snapshot.runtime_active == record.mutable.runtime_active,
        snapshot.performance is Some <==> record.mutable.performance is Some,
        record.mutable.performance matches Some(done) ==> {
            &&& snapshot.performance->Some_0.payload_bytes == done.payload_bytes
            &&& snapshot.performance->Some_0.bytes_skipped == done.bytes_skipped
            &&& snapshot.performance->Some_0.integrity_result@ == done.integrity_result@
            &&& snapshot.performance->Some_0.bytes_per_second == done.bytes_per_second
        },
{
}

/// What is shown of a receive is what is recorded of it, but for its secret and the path of the
/// source.
pub proof fn law_shown_receives_are_as_recorded(
    snapshot: IncomingNativeTransferSnapshot,
    record: IncomingNativeTransfer,
)
    requires
        snapshot.shows(record),
    ensures
        snapshot.authorization_secret@ == "[REDACTED]"@,
        !snapshot.source_path_exposed,
        snapshot.transfer_id@ == record.transfer_id@,
        snapshot.invitation_id@ == record.invitation_id@,
        snapshot.state == record.mutable.state,
        snapshot.destination_directory@ == record.destination_directory@,
        shown(snapshot.accepted_filename) == shown(record.mutable.accepted_filename),
        snapshot.expected_file_size == record.mutable.expected_file_size,
        snapshot.expected_sha256 is Some <==> record.mutable.expected_sha256 is Some,
        record.mutable.expected_sha256 matches Some(digest) ==> snapshot.expected_sha256->Some_0@
            == hex_text(digest@),
        shown(snapshot.final_path) == shown(record.mutable.final_path),
        shown(snapshot.part_path) == shown(record.mutable.part_path),
        snapshot.receiver_certificate_fingerprint_sha256@ == hex_text(
            record.receiver_certificate_fingerprint_sha256@,
        ),
        snapshot.expires_unix_ms == record.expires_unix_ms,
        snapshot.retention_expires_unix_ms == record.retention_expires_unix_ms,
        snapshot.created_unix_ms == record.created_unix_ms,
        snapshot.bytes_received == record.mutable.bytes_received,
        snapshot.bytes_written == record.mutable.bytes_written,
        snapshot.bytes_skipped == record.mutable.bytes_skipped,
        snapshot.checkpoint_generation == record.mutable.checkpoint_generation,
        snapshot.completed_checkpoint_bytes == record.mutable.completed_checkpoint_bytes,
        shown(snapshot.connectivity_session_id) == shown(record.mutable.connectivity_session_id),
        shown(snapshot.quic_session_id) == shown(record.mutable.quic_session_id),
        shown(snapshot.selected_path) == shown(record.mutable.selected_path),
        shown(snapshot.integrity_result) == shown(record.mutable.integrity_result),
        shown(snapshot.terminal_error) == shown(record.mutable.terminal_error),
        snapshot.runtime_active == record.mutable.runtime_active,
        snapshot.performance is Some <==> record.mutable.performance is Some,
{
}

/// Transfers are listed by age, the oldest first.
pub proof fn law_transfers_are_listed_by_age(slots: Seq<Slot>, i: int, j: int)
    requires
        0 <= i < j < slots.len(),
    ensures
        in_order::<Slot>(slots).len() == slots.len(),
        in_order::<Slot>(slots)[i].created <= in_order::<Slot>(slots)[j].created,
        slots.contains(in_order::<Slot>(slots)[i]),
{
    let sorted = in_order::<Slot>(slots);
    lemma_in_order::<Slot>(slots);
    assert(sorted.contains(sorted[i]));
}

/// An error names a code when it is the code, or ends with it behind a colon and a space.
pub proof fn law_codes_are_named_at_the_end(error: Seq<char>, code: Seq<char>)
    ensures
        names_code(code, code),
        names_code(error + ": "@ + code, code),
        names_code(error, code) && error != code ==> error.len() >= code.len() + 2 && error.subrange(
            error.len() - code.len(),
            error.len() as int,
        ) == code && error[error.len() - code.len() - 2] == ':' && error[error.len() - code.len()
            - 1] == ' ',
{
    reveal_strlit(": ");
    let mark = ": "@ + code;
    let longer = error + ": "@ + code;
    assert(longer.subrange(longer.len() - mark.len(), longer.len() as int) =~= mark);
    if names_code(error, code) && error != code {
        let tail = error.subrange(error.len() - mark.len(), error.len() as int);
        assert(tail == mark);
        assert(tail.skip(2) =~= code);
        assert(error.subrange(error.len() - code.len(), error.len() as int) =~= tail.skip(2));
        assert(tail[0] == mark[0] && tail[1] == mark[1]);
    }
}

} // verus!
