//! What an application is told of a transfer.

use crate::cross_device::{
    IncomingNativeTransfer, IncomingNativeTransferSnapshot, OutgoingNativeTransfer,
    OutgoingNativeTransferSnapshot,
};
use crate::cross_platform::{
    code_of, error_in, failure_of, kind_of, negotiated, owned_receiving, owned_sending, owning,
    receiving, recovers_receiving, recovers_sending, reports, sending, snapshot_receiving,
    snapshot_sending, EngineFacts, FlowShareApiError, FlowShareCapabilities, FlowShareDirection,
    FlowShareErrorCode, FlowShareEvent, FlowShareTransferState, RecoverableTransfer, Seen,
    StatusFacts,
};
use crate::lifecycle::TransferState;
use crate::text::{contains_text, lower_text};
use crate::transfer_setup::{IncomingResumableDiscovery, OutgoingResumableDiscovery};
use vstd::prelude::*;

verus! {

/// An outgoing transfer is reported paused, completed, cancelled or failed exactly when it is, so
/// what is reported is an end exactly when the transfer has ended. Waiting, connecting, sending
/// and verifying are told apart.
pub proof fn law_reported_sends_are_in_their_state(snapshot: OutgoingNativeTransferSnapshot)
    ensures
        ({
            let told = snapshot_sending(snapshot).state;
            let actual = snapshot.state;
            &&& told is Paused <==> actual is Paused
            &&& told is Completed <==> actual is Completed
            &&& told is Cancelled <==> actual is Cancelled
            &&& told is Failed <==> actual is Failed
            &&& told is Verifying <==> actual is Finalizing
            &&& told is Transferring <==> actual is Transferring
            &&& told is Prepared <==> actual is Created
            &&& told is Connecting <==> actual is GatheringCandidates || actual is Connecting
            &&& told is WaitingForPeer <==> actual is AwaitingReceiver
                || actual is AuthorizationDelivering
            &&& told.is_end() <==> actual is Completed || actual is Cancelled || actual is Failed
        }),
{
}

/// An incoming transfer is reported paused, completed, cancelled, declined or failed exactly when
/// it is, so what is reported is an end exactly when the transfer has ended. An invitation,
/// waiting for the user, connecting, receiving and verifying are told apart.
pub proof fn law_reported_receives_are_in_their_state(snapshot: IncomingNativeTransferSnapshot)
    ensures
        ({
            let told = snapshot_receiving(snapshot).state;
            let actual = snapshot.state;
            &&& told is Paused <==> actual is Paused
            &&& told is Completed <==> actual is Completed
            &&& told is Cancelled <==> actual is Cancelled
            &&& told is Rejected <==> actual is Declined
            &&& told is Failed <==> actual is Failed
            &&& told is Verifying <==> actual is Finalizing
            &&& told is Transferring <==> actual is Receiving
            &&& told is Prepared <==> actual is Accepted
            &&& told is Incoming <==> actual is InvitationImported
            &&& told is AwaitingAcceptance <==> actual is AwaitingAcceptance
            &&& told is Connecting <==> actual is GatheringCandidates || actual is Connecting
            &&& told.is_end() <==> actual is Completed || actual is Cancelled || actual is Declined
                || actual is Failed
        }),
{
}

/// What a record is reported as does not depend on whether it is read directly or through its
/// snapshot: the state, what has moved, how much there is, and whether something failed.
pub proof fn law_statuses_show_the_records(
    sent: OutgoingNativeTransfer,
    received: IncomingNativeTransfer,
)
    ensures
        ({
            let status = sending(sent);
            let actual = sent.mutable.state;
            &&& status.direction is Send
            &&& status.transfer_id == sent.transfer_id@
            &&& status.bytes_transferred == sent.mutable.bytes_sent
            &&& status.total_bytes == sent.file_size
            &&& status.runtime_active == sent.mutable.runtime_active
            &&& status.failure is Some <==> sent.mutable.terminal_error is Some
            &&& status.transport is None <==> sent.mutable.selected_path is None
                && sent.mutable.quic_session_id is None
            &&& sent.mutable.selected_path is Some ==> status.transport == Some(
                sent.mutable.selected_path->Some_0@,
            )
            &&& status.checkpoint_generation > 0 ==> sent.mutable.peer_checkpoint_generation
                == Some(status.checkpoint_generation)
            &&& status.bytes_per_second > 0 ==> sent.mutable.performance is Some
                && sent.mutable.performance->Some_0.bytes_per_second == status.bytes_per_second
            &&& status.state is Paused <==> actual is Paused
            &&& status.state is Completed <==> actual is Completed
            &&& status.state is Cancelled <==> actual is Cancelled
            &&& status.state is Failed <==> actual is Failed
            &&& status.state is Transferring <==> actual is Transferring
            &&& status.state is Verifying <==> actual is Finalizing
        }),
        ({
            let status = receiving(received);
            let actual = received.mutable.state;
            &&& status.direction is Receive
            &&& status.transfer_id == received.transfer_id@
            &&& status.bytes_transferred == received.mutable.bytes_written
            &&& received.mutable.expected_file_size is Some ==> status.total_bytes
                == received.mutable.expected_file_size->Some_0
            &&& status.checkpoint_generation == received.mutable.checkpoint_generation
            &&& status.runtime_active == received.mutable.runtime_active
            &&& status.failure is Some <==> received.mutable.terminal_error is Some
            &&& status.transport is None <==> received.mutable.selected_path is None
                && received.mutable.quic_session_id is None
            &&& status.state is Paused <==> actual is Paused
            &&& status.state is Completed <==> actual is Completed
            &&& status.state is Cancelled <==> actual is Cancelled
            &&& status.state is Rejected <==> actual is Declined
            &&& status.state is Failed <==> actual is Failed
            &&& status.state is Transferring <==> actual is Receiving
            &&& status.state is Verifying <==> actual is Finalizing
        }),
{
}

/// A snapshot is reported with its own numbers, and with a failure exactly when an error ended it.
pub proof fn law_snapshots_show_their_numbers(
    sent: OutgoingNativeTransferSnapshot,
    received: IncomingNativeTransferSnapshot,
)
    ensures
        ({
            let status = snapshot_sending(sent);
            &&& status.direction is Send
            &&& status.transfer_id == sent.transfer_id@
            &&& status.bytes_transferred == sent.bytes_sent
            &&& status.total_bytes == sent.file_size
            &&& status.runtime_active == sent.runtime_active
            &&& status.failure is Some <==> sent.terminal_error is Some
            &&& status.transport is None <==> sent.selected_path is None
                && sent.quic_session_id is None
            &&& status.checkpoint_generation > 0 ==> sent.peer_checkpoint_generation == Some(
                status.checkpoint_generation,
            )
        }),
        ({
            let status = snapshot_receiving(received);
            &&& status.direction is Receive
            &&& status.transfer_id == received.transfer_id@
            &&& status.bytes_transferred == received.bytes_written
            &&& received.expected_file_size is Some ==> status.total_bytes
                == received.expected_file_size->Some_0
            &&& received.expected_file_size is None ==> status.total_bytes == 0
            &&& status.checkpoint_generation == received.checkpoint_generation
            &&& status.runtime_active == received.runtime_active
            &&& status.failure is Some <==> received.terminal_error is Some
            &&& status.transport is None <==> received.selected_path is None
                && received.quic_session_id is None
        }),
{
}

/// An event says what happened: each end, a pause and each step has an event of its own, and
/// moving data is a start before the first byte and progress after it.
pub proof fn law_events_name_the_change(state: FlowShareTransferState, bytes: u64)
    ensures
        ({
            let kind = kind_of(state, bytes);
            &&& kind is Completed <==> state is Completed
            &&& kind is Cancelled <==> state is Cancelled
            &&& kind is Rejected <==> state is Rejected
            &&& kind is Failed <==> state is Failed
            &&& kind is Paused <==> state is Paused
            &&& kind is Resuming <==> state is Resuming
            &&& kind is Verifying <==> state is Verifying
            &&& kind is TransferStarted <==> state is Transferring && bytes == 0
            &&& kind is Progress <==> state is Transferring && bytes > 0
            &&& kind is Connecting <==> state is Connecting
            &&& kind is Connected <==> state is Connected
            &&& kind is WaitingForPeer <==> state is WaitingForPeer
            &&& kind is TransferPrepared <==> state is Prepared
            &&& kind is IncomingTransfer <==> state is Incoming || state is AwaitingAcceptance
        }),
{
}

/// A watcher tells of every change and of nothing twice: what it sees again unchanged is not told,
/// anything else is told last, and before it at most one step that passed unseen.
pub proof fn law_watchers_tell_every_change_once(
    last: Seen,
    state: FlowShareTransferState,
    bytes: u64,
)
    ensures
        ({
            let told = reports(last, state, bytes);
            &&& told.len() == 0 <==> (last matches Some(seen) && seen.0 == state && seen.1 == bytes)
            &&& told.len() > 0 ==> told.last() == state
            &&& told.len() <= 2
            &&& told.len() == 2 && state is Transferring ==> told[0] is Connected
            &&& told.len() == 2 && state is Completed ==> told[0] is Verifying
            &&& told.len() == 2 ==> state is Transferring || state is Completed
            &&& state is Transferring ==> (told.len() == 2 <==> (last matches Some(seen)
                && seen.0 is Connecting))
            &&& state is Completed && told.len() > 0 ==> (told.len() == 1 <==> (
            last matches Some(seen) && seen.0 is Verifying))
        }),
{
}

/// A failure may be tried again unless the two ends do not fit, nobody is allowed, or a user said
/// no; another transport may help exactly where a direct connection failed.
pub proof fn law_failures_say_what_may_help(code: FlowShareErrorCode)
    ensures
        ({
            let failure = failure_of(code);
            &&& failure.code == code
            &&& !failure.retryable <==> {
                ||| code is ProtocolMismatch
                ||| code is UnsupportedPlatform
                ||| code is InvalidRequest
                ||| code is AuthorizationFailed
                ||| code is InvitationExpired
                ||| code is Cancelled
            }
            &&& failure.fallback_eligible <==> {
                ||| code is NativeConnectFailed
                ||| code is QuicConnectFailed
                ||| code is StunFailed
                ||| code is DirectConnectUnavailable
            }
            &&& failure.category is User <==> code is Cancelled
            &&& failure.category is Internal <==> code is Internal
            &&& failure.category is Storage <==> code is DiskFull || code is SourceUnavailable
                || code is DestinationUnavailable
            &&& failure.category is Compatibility <==> code is ProtocolMismatch
                || code is UnsupportedPlatform || code is InvalidRequest
            &&& failure.category is Security <==> {
                ||| code is AuthorizationFailed
                ||| code is InvitationExpired
                ||| code is HashMismatch
                ||| code is SourceChanged
                ||| code is CheckpointInvalid
            }
            &&& failure.fallback_eligible ==> failure.category is Connectivity
            &&& code is SignalingUnavailable || code is PeerOffline
                ==> failure.category is Connectivity
        }),
{
}

/// An error keeps its name as a code; only what the engine itself refuses is an internal one.
pub proof fn law_errors_keep_their_names(error: FlowShareApiError)
    ensures
        ({
            let code = code_of(error);
            &&& code is SignalingUnavailable <==> error is SignalingUnavailable
            &&& code is PeerOffline <==> error is PeerOffline
            &&& code is AuthorizationFailed <==> error is AuthorizationFailed
            &&& code is InvitationExpired <==> error is InvitationExpired
            &&& code is ProtocolMismatch <==> error is ProtocolMismatch
            &&& code is StunFailed <==> error is StunFailed
            &&& code is DirectConnectUnavailable <==> error is DirectConnectUnavailable
            &&& code is QuicConnectFailed <==> error is QuicConnectFailed
            &&& code is SourceUnavailable <==> error is SourceUnavailable
            &&& code is DestinationUnavailable <==> error is DestinationUnavailable
            &&& code is DiskFull <==> error is DiskFull
            &&& code is SourceChanged <==> error is SourceChanged
            &&& code is CheckpointInvalid <==> error is CheckpointInvalid
            &&& code is HashMismatch <==> error is HashMismatch
            &&& code is Cancelled <==> error is Cancelled
            &&& code is InvalidRequest <==> error is InvalidRequest
            &&& code is Internal <==> error is EngineNotInitialized || error is EngineShutdown
                || error is Internal
        }),
{
}

/// An error is named only after a word of its message, whatever the case of its letters, and a
/// message without any such word is an internal error.
pub proof fn law_errors_are_named_after_their_words(message: Seq<char>, other: Seq<char>)
    ensures
        ({
            let error = error_in(message);
            let says = |word: Seq<char>| contains_text(lower_text(message), word);
            &&& lower_text(message) == lower_text(other) ==> error == error_in(other)
            &&& error is SignalingUnavailable <==> says("signaling"@) || says("websocket"@)
            &&& error is PeerOffline ==> says("peer-offline"@) || says("peer offline"@)
            &&& error is AuthorizationFailed ==> says("authorization"@) || says(
                "invitation-signature"@,
            )
            &&& error is InvitationExpired ==> says("expired"@)
            &&& error is ProtocolMismatch ==> says("protocol"@) || says("version"@)
            &&& error is StunFailed ==> says("stun"@)
            &&& error is DirectConnectUnavailable ==> says("direct-connect"@) || says("candidate"@)
            &&& error is QuicConnectFailed ==> says("quic"@) || says("connect-failed"@)
            &&& error is SourceChanged ==> says("source-changed"@) || says("source-identity"@)
            &&& error is SourceUnavailable ==> says("source"@)
            &&& error is DiskFull ==> says("disk"@) || says("space"@)
            &&& error is DestinationUnavailable ==> says("destination"@) || says("output"@)
            &&& error is CheckpointInvalid ==> says("checkpoint"@) || says("resume"@)
            &&& error is HashMismatch ==> says("hash"@) || says("integrity"@)
            &&& error is Cancelled ==> says("cancel"@) || says("declined"@)
            &&& error is InvalidRequest ==> says("invalid"@) || says("not-found"@)
            &&& error is Internal ==> !(says("authorization"@) || says("expired"@) || says(
                "protocol"@,
            ) || says("stun"@) || says("candidate"@) || says("quic"@) || says("source"@) || says(
                "disk"@,
            ) || says("space"@) || says("destination"@) || says("output"@) || says("checkpoint"@)
                || says("resume"@) || says("hash"@) || says("integrity"@) || says("cancel"@) || says(
                "declined"@,
            ) || says("invalid"@) || says("not-found"@) || says("version"@) || says("direct-connect"@)
                || says("connect-failed"@) || says("peer-offline"@) || says("peer offline"@) || says(
                "invitation-signature"@,
            ))
            &&& !(error is EngineNotInitialized) && !(error is EngineShutdown)
        }),
{
}

/// Of several words in a message the one that says most decides: who may not connect before what
/// did not connect, that before what happened to the files, and that before a refused request.
pub proof fn law_the_most_telling_word_decides(message: Seq<char>)
    ensures
        ({
            let error = error_in(message);
            let says = |word: Seq<char>| contains_text(lower_text(message), word);
            let reached = error is SignalingUnavailable || error is PeerOffline;
            let allowed = reached || error is AuthorizationFailed;
            let fitting = allowed || error is InvitationExpired || error is ProtocolMismatch;
            let connected = fitting || error is StunFailed || error is DirectConnectUnavailable
                || error is QuicConnectFailed;
            let stored = connected || error is SourceChanged || error is SourceUnavailable
                || error is DiskFull || error is DestinationUnavailable;
            let resumed = stored || error is CheckpointInvalid;
            let whole = resumed || error is HashMismatch;
            &&& says("peer-offline"@) || says("peer offline"@) ==> reached
            &&& says("authorization"@) || says("invitation-signature"@) ==> allowed
            &&& says("expired"@) ==> allowed || error is InvitationExpired
            &&& says("protocol"@) || says("version"@) ==> fitting
            &&& says("stun"@) ==> fitting || error is StunFailed
            &&& says("direct-connect"@) || says("candidate"@) ==> fitting || error is StunFailed
                || error is DirectConnectUnavailable
            &&& says("quic"@) || says("connect-failed"@) ==> connected
            &&& says("source-changed"@) || says("source-identity"@) ==> connected
                || error is SourceChanged
            &&& says("source"@) ==> connected || error is SourceChanged
                || error is SourceUnavailable
            &&& says("disk"@) || says("space"@) ==> stored && !(error is DestinationUnavailable)
            &&& says("destination"@) || says("output"@) ==> stored
            &&& says("checkpoint"@) || says("resume"@) ==> resumed
            &&& says("hash"@) || says("integrity"@) ==> whole
            &&& says("cancel"@) || says("declined"@) ==> whole || error is Cancelled
            &&& says("invalid"@) || says("not-found"@) ==> !(error is Internal)
        }),
{
}

/// Two devices work together exactly when both speak the current versions on known systems. They
/// use what both can do, and no file is larger than either takes.
pub proof fn law_devices_use_what_both_can_do(
    local: FlowShareCapabilities,
    peer: FlowShareCapabilities,
)
    ensures
        ({
            let result = negotiated(local, peer);
            &&& result.compatible <==> {
                &&& local.schema_version == 1
                &&& peer.schema_version == 1
                &&& local.protocol_version == 3
                &&& peer.protocol_version == 3
                &&& !(local.platform is Unknown)
                &&& !(peer.platform is Unknown)
            }
            &&& result.failure is None <==> result.compatible
            &&& result.native_quic <==> result.compatible && local.native_quic && peer.native_quic
            &&& result.webrtc_direct <==> result.compatible && local.webrtc_direct
                && peer.webrtc_direct
            &&& result.resume <==> result.compatible && local.resume && peer.resume
            &&& result.completion_ack <==> result.compatible && local.completion_ack
                && peer.completion_ack
            &&& result.sha256 <==> result.compatible && local.sha256 && peer.sha256
            &&& result.max_file_size <= local.max_file_size
            &&& result.max_file_size <= peer.max_file_size
            &&& result.max_file_size == local.max_file_size || result.max_file_size
                == peer.max_file_size
            &&& result.failure matches Some(failure) ==> (failure.code is ProtocolMismatch
                || failure.code is UnsupportedPlatform)
            &&& local.schema_version != 1 || local.protocol_version != 3 ==> (result.failure matches
                Some(failure) && failure.code is ProtocolMismatch)
        }),
{
}

/// What can be recovered is listed as it was found: whose it is, how much is there, and whether
/// its file and its record hold.
pub proof fn law_recovered_transfers_are_what_was_found(
    sent: RecoverableTransfer,
    found_sent: OutgoingResumableDiscovery,
    received: RecoverableTransfer,
    found_received: IncomingResumableDiscovery,
)
    requires
        recovers_sending(sent, found_sent),
        recovers_receiving(received, found_received),
    ensures
        sent.direction is Send,
        received.direction is Receive,
        sent.transfer_id@ == found_sent.transfer_id@,
        received.transfer_id@ == found_received.transfer_id@,
        sent.completed_bytes == found_sent.peer_completed_bytes,
        received.completed_bytes == found_received.completed_bytes,
        sent.total_bytes == found_sent.file_size,
        received.total_bytes == found_received.file_size,
        sent.checkpoint_generation == found_sent.checkpoint_generation,
        received.checkpoint_generation == found_received.checkpoint_generation,
        sent.source_or_destination_handle@ == found_sent.source_path@,
        received.source_or_destination_handle@ == found_received.destination_directory@,
        sent.source_available <==> found_sent.source_identity_matches,
        received.source_available <==> found_received.part_file_present,
        sent.checkpoint_authenticated <==> found_sent.protected_state_authenticated,
        received.checkpoint_authenticated <==> found_received.checkpoint_authenticated
            && found_received.block_hashes_authenticated,
{
}

/// An engine works exactly while it is initialized and not stopped. Only a listener is told of
/// events; they are counted one by one.
pub proof fn law_engines_report_to_listeners(
    engine: EngineFacts,
    event: Option<FlowShareEvent>,
    status: StatusFacts,
)
    requires
        engine.reports(event, status),
        engine.sequence < u64::MAX,
    ensures
        engine.idle() is None <==> engine.initialized && !engine.stopped,
        engine.idle() is Some && !engine.stopped ==> engine.idle() == Some(
            FlowShareApiError::EngineNotInitialized,
        ),
        event is Some <==> engine.listening,
        event matches Some(told) ==> told.sequence == engine.sequence + 1 && told.sequence
            == engine.reported().sequence && told.status@ == status,
        event is None ==> engine.reported() == engine,
        event matches Some(told) ==> (told.kind is Failed <==> status.state is Failed) && (
        told.kind is Completed <==> status.state is Completed) && (told.kind is Cancelled
            <==> status.state is Cancelled) && (told.kind is Paused <==> status.state is Paused),
        engine.reported().owned_sends == engine.owned_sends,
        engine.reported().owned_receives == engine.owned_receives,
        engine.reported().stopped == engine.stopped,
        engine.reported().initialized == engine.initialized,
{
}

/// A transfer that an engine takes on is its own from then on, in the direction in which it moves,
/// and no other transfer is.
pub proof fn law_engines_own_what_they_take_on(
    engine: EngineFacts,
    transfer_id: Seq<char>,
    direction: FlowShareDirection,
    other: Seq<char>,
)
    ensures
        ({
            let after = owning(engine, transfer_id, direction);
            &&& direction is Send ==> after.owned_sends.contains_key(transfer_id)
                && after.owned_receives == engine.owned_receives
            &&& direction is Receive ==> after.owned_receives.contains_key(transfer_id)
                && after.owned_sends == engine.owned_sends
            &&& other != transfer_id ==> after.owned_sends.contains_key(other)
                == engine.owned_sends.contains_key(other)
            &&& other != transfer_id ==> after.owned_receives.contains_key(other)
                == engine.owned_receives.contains_key(other)
            &&& after.sequence == engine.sequence
            &&& after.listening == engine.listening
        }),
{
}

/// An engine lists exactly its own transfers, in the order in which they were found: each entry is
/// one of its own, and each of its own is among them.
pub proof fn law_engines_list_exactly_their_sends(
    engine: EngineFacts,
    snapshots: Seq<OutgoingNativeTransferSnapshot>,
    n: int,
)
    requires
        0 <= n <= snapshots.len(),
    ensures
        owned_sending(engine, snapshots, n).len() <= n,
        forall|i: int|
            0 <= i < owned_sending(engine, snapshots, n).len() ==> engine.owned_sends.contains_key(
                (#[trigger] owned_sending(engine, snapshots, n)[i]).transfer_id,
            ) && owned_sending(engine, snapshots, n)[i].direction is Send,
        forall|k: int|
            0 <= k < n && engine.owned_sends.contains_key((#[trigger] snapshots[k]).transfer_id@)
                ==> owned_sending(engine, snapshots, n).contains(snapshot_sending(snapshots[k])),
    decreases n,
{
    if n > 0 {
        law_engines_list_exactly_their_sends(engine, snapshots, n - 1);
        let before = owned_sending(engine, snapshots, n - 1);
        let now = owned_sending(engine, snapshots, n);
        assert forall|k: int|
            0 <= k < n && engine.owned_sends.contains_key(
                (#[trigger] snapshots[k]).transfer_id@,
            ) implies now.contains(snapshot_sending(snapshots[k])) by {
            if k < n - 1 {
                assert(before.contains(snapshot_sending(snapshots[k])));
                let m = choose|m: int|
                    0 <= m < before.len() && before[m] == snapshot_sending(snapshots[k]);
                assert(now[m] == snapshot_sending(snapshots[k]));
            } else {
                assert(now[now.len() - 1] == snapshot_sending(snapshots[k]));
            }
        }
        assert forall|i: int| 0 <= i < now.len() implies engine.owned_sends.contains_key(
            (#[trigger] now[i]).transfer_id,
        ) && now[i].direction is Send by {
            if i < before.len() {
                assert(now[i] == before[i]);
            }
        }
    }
}

/// An engine lists exactly its own incoming transfers: each entry is one of its own, and each of
/// its own is among them.
pub proof fn law_engines_list_exactly_their_receives(
    engine: EngineFacts,
    snapshots: Seq<IncomingNativeTransferSnapshot>,
    n: int,
)
    requires
        0 <= n <= snapshots.len(),
    ensures
        owned_receiving(engine, snapshots, n).len() <= n,
        forall|i: int|
            0 <= i < owned_receiving(engine, snapshots, n).len()
                ==> engine.owned_receives.contains_key(
                (#[trigger] owned_receiving(engine, snapshots, n)[i]).transfer_id,
            ) && owned_receiving(engine, snapshots, n)[i].direction is Receive,
        forall|k: int|
            0 <= k < n && engine.owned_receives.contains_key((#[trigger] snapshots[k]).transfer_id@)
                ==> owned_receiving(engine, snapshots, n).contains(
                snapshot_receiving(snapshots[k]),
            ),
    decreases n,
{
    if n > 0 {
        law_engines_list_exactly_their_receives(engine, snapshots, n - 1);
        let before = owned_receiving(engine, snapshots, n - 1);
        let now = owned_receiving(engine, snapshots, n);
        assert forall|k: int|
            0 <= k < n && engine.owned_receives.contains_key(
                (#[trigger] snapshots[k]).transfer_id@,
            ) implies now.contains(snapshot_receiving(snapshots[k])) by {
            if k < n - 1 {
                assert(before.contains(snapshot_receiving(snapshots[k])));
                let m = choose|m: int|
                    0 <= m < before.len() && before[m] == snapshot_receiving(snapshots[k]);
                assert(now[m] == snapshot_receiving(snapshots[k]));
            } else {
                assert(now[now.len() - 1] == snapshot_receiving(snapshots[k]));
            }
        }
        assert forall|i: int| 0 <= i < now.len() implies engine.owned_receives.contains_key(
            (#[trigger] now[i]).transfer_id,
        ) && now[i].direction is Receive by {
            if i < before.len() {
                assert(now[i] == before[i]);
            }
        }
    }
}

/// An error is printed by its own name.
pub proof fn law_errors_are_printed_by_name(error: FlowShareApiError)
    ensures
        error is SignalingUnavailable ==> error.label() == "SignalingUnavailable"@,
        error is PeerOffline ==> error.label() == "PeerOffline"@,
        error is AuthorizationFailed ==> error.label() == "AuthorizationFailed"@,
        error is InvitationExpired ==> error.label() == "InvitationExpired"@,
        error is ProtocolMismatch ==> error.label() == "ProtocolMismatch"@,
        error is StunFailed ==> error.label() == "StunFailed"@,
        error is DirectConnectUnavailable ==> error.label() == "DirectConnectUnavailable"@,
        error is QuicConnectFailed ==> error.label() == "QuicConnectFailed"@,
        error is SourceUnavailable ==> error.label() == "SourceUnavailable"@,
        error is DestinationUnavailable ==> error.label() == "DestinationUnavailable"@,
        error is DiskFull ==> error.label() == "DiskFull"@,
        error is SourceChanged ==> error.label() == "SourceChanged"@,
        error is CheckpointInvalid ==> error.label() == "CheckpointInvalid"@,
        error is HashMismatch ==> error.label() == "HashMismatch"@,
        error is Cancelled ==> error.label() == "Cancelled"@,
        error is InvalidRequest ==> error.label() == "InvalidRequest"@,
        error is EngineNotInitialized ==> error.label() == "EngineNotInitialized"@,
        error is EngineShutdown ==> error.label() == "EngineShutdown"@,
        error is Internal ==> error.label() == "Internal"@,
{
}

/// A state is printed by its own name.
pub proof fn law_states_are_printed_by_name(state: TransferState)
    ensures
        state is Created ==> state.label() == "Created"@,
        state is Preparing ==> state.label() == "Preparing"@,
        state is Connecting ==> state.label() == "Connecting"@,
        state is Transferring ==> state.label() == "Transferring"@,
        state is Pausing ==> state.label() == "Pausing"@,
        state is Paused ==> state.label() == "Paused"@,
        state is PausedByDisconnect ==> state.label() == "PausedByDisconnect"@,
        state is Resuming ==> state.label() == "Resuming"@,
        state is Cancelling ==> state.label() == "Cancelling"@,
        state is Cancelled ==> state.label() == "Cancelled"@,
        state is Validating ==> state.label() == "Validating"@,
        state is Synchronizing ==> state.label() == "Synchronizing"@,
        state is Finalizing ==> state.label() == "Finalizing"@,
        state is Completed ==> state.label() == "Completed"@,
        state is RecoverableFailure ==> state.label() == "RecoverableFailure"@,
        state is Failed ==> state.label() == "Failed"@,
{
}

} // verus!
