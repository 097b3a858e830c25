//! What is set up, kept and taken up again.

use crate::authorization::{
    install_outcome, AuthorizationMaterial, AuthorizationRegistry, SecurityPolicy,
};
use crate::authorization_delivery::{bootstrap_text_defect, DecodedManualInvitationPackage};
use crate::cross_device::{
    incoming_insert_refusal, shown, IncomingNativeTransfer, OutgoingNativeTransfer,
};
use crate::encoding::{parsed_uuid, uuid_text};
use crate::paths::{is_plain, keeps_start, PathStyle};
use crate::received_files::{
    filename_defect, law_received_files_stay_in_their_directory, without_tail,
};
use crate::transfer_setup::{
    bootstrap_refusal, can_resume, checkpoint_expiry, checkpoint_refusal, discovers, discovery_of,
    given_back, goes_on, goes_on_sending, import_refusal, incoming_resume_refusal, is_alive,
    is_created, is_imported, is_resumable, is_state_of, lease_refusal, living, needs_content,
    receiver_lifetime, refused_bootstrap, running_incoming, source_change, source_defect,
    CheckpointFacts, ImportPlace, IncomingFinding, IncomingResume, IncomingResumeLease,
    OutgoingFacts, OutgoingResumableDiscovery, OutgoingSource, PersistedOutgoingState,
    PrepareIncomingReceiverRequest, ReceiverBootstrapRecord, ReopenedSource,
    ResumeIncomingTransferRequest, ResumePlace,
};
use vstd::prelude::*;

verus! {

/// A checkpoint is resumed as long as it is kept: before its time is over, with its own part file,
/// in the generation that is expected if one is, and under a safe name, in directories that keep
/// their start. It is never resumed once its time is over.
pub proof fn law_checkpoints_resume_while_they_are_kept(
    style: PathStyle,
    checkpoint: CheckpointFacts,
    place: ResumePlace,
    expected_generation: Option<u64>,
    destination: Seq<char>,
    artifact: Seq<char>,
    now: u64,
)
    ensures
        ({
            let refusal = checkpoint_refusal(
                style,
                checkpoint,
                place,
                expected_generation,
                destination,
                artifact,
                now,
            );
            let kept = match place {
                ResumePlace::Central(expires) => now < expires,
                ResumePlace::Beside => now < checkpoint.created_unix_ms + 7 * 24 * 60 * 60 * 1000,
            };
            let own_part = checkpoint.part_filename@ == "payload.part"@;
            let current = expected_generation is None || expected_generation == Some(
                checkpoint.checkpoint_generation,
            );
            &&& !(place is Beside && now == u64::MAX) && kept && own_part && current
                && filename_defect(checkpoint.final_filename@) is None && keeps_start(
                style,
                destination,
            ) && keeps_start(style, artifact) ==> refusal is None
            &&& refusal is None ==> kept && own_part && current && filename_defect(
                checkpoint.final_filename@,
            ) is None && checkpoint_expiry(checkpoint, place) > now
            &&& !kept ==> refusal == Some("share-offline-or-expired"@)
            &&& kept && now < u64::MAX && !(own_part && current) ==> refusal == Some(
                "resume-state-mismatch"@,
            )
        }),
{
    reveal_strlit("payload.part");
    let name = "payload.part"@;
    assert(is_plain(name)) by {
        assert(name.len() == 12);
        assert(name[0] == 'p');
    }
    crate::paths::law_joined_names_are_children(style, artifact, name);
    if filename_defect(checkpoint.final_filename@) is None {
        law_received_files_stay_in_their_directory(style, destination, checkpoint.final_filename@);
    }
}

/// A prepared receiver lives until half a minute after its time, and what is left of the
/// prepared receivers are exactly those that live.
pub proof fn law_prepared_receivers_live_for_their_time(
    records: Map<Seq<char>, ReceiverBootstrapRecord>,
    id: Seq<char>,
    now: u64,
)
    ensures
        is_alive(records[id], now) <==> now <= records[id].expires_unix_ms + 30_000,
        living(records, now).contains_key(id) <==> records.contains_key(id) && now
            <= records[id].expires_unix_ms + 30_000,
        living(records, now).contains_key(id) ==> living(records, now)[id] == records[id],
{
}

/// A receiver is prepared exactly when its package is sound and fewer than the allowed number of
/// prepared receivers live; those that ran out do not count.
pub proof fn law_receivers_are_prepared_while_there_is_room(
    records: Map<Seq<char>, ReceiverBootstrapRecord>,
    package: Seq<char>,
    policy: SecurityPolicy,
    now: u64,
)
    ensures
        bootstrap_refusal(records, package, policy, now) is None <==> bootstrap_text_defect(
            package,
            policy,
            now,
        ) is None && living(records, now).dom().len() < 64,
        bootstrap_text_defect(package, policy, now) is None && living(records, now).dom().len()
            >= 64 ==> bootstrap_refusal(records, package, policy, now) == Some(
            "native-receiver-bootstrap-capacity-reached"@,
        ),
{
}

/// Giving a prepared receiver back loses no other one that lives, and puts back none that ran
/// out.
pub proof fn law_returned_receivers_displace_nobody(
    records: Map<Seq<char>, ReceiverBootstrapRecord>,
    id: Seq<char>,
    record: ReceiverBootstrapRecord,
    now: u64,
    other: Seq<char>,
)
    ensures
        ({
            let after = given_back(records, id, record, now);
            &&& records.contains_key(other) && now <= records[other].expires_unix_ms + 30_000
                ==> after.contains_key(other) && after[other] == records[other]
            &&& now > record.expires_unix_ms + 30_000 ==> after == records
            &&& other != id && after.contains_key(other) ==> records.contains_key(other)
                && after[other] == records[other]
        }),
{
}

/// A prepared receiver is taken out exactly when its identifier is one, it is there, and it still
/// lives.
pub proof fn law_receivers_are_leased_while_they_live(
    records: Map<Seq<char>, ReceiverBootstrapRecord>,
    id: Seq<char>,
    now: u64,
)
    ensures
        ({
            let refusal = lease_refusal(records, id, now);
            let key = uuid_text(parsed_uuid(id)->Some_0@);
            &&& refusal is None <==> parsed_uuid(id) is Some && records.contains_key(key) && now
                <= records[key].expires_unix_ms + 30_000
            &&& parsed_uuid(id) is None ==> refusal == Some("native-receiver-bootstrap-id-invalid"@)
            &&& parsed_uuid(id) is Some && !records.contains_key(key) ==> refusal == Some(
                "native-receiver-bootstrap-unavailable"@,
            )
            &&& parsed_uuid(id) is Some && records.contains_key(key) && now
                > records[key].expires_unix_ms + 30_000 ==> refusal == Some(
                "native-receiver-bootstrap-expired"@,
            )
        }),
{
}

/// A prepared receiver lives as long as was asked for, but at least half a minute and at most a
/// quarter of an hour; ten minutes where nothing was asked for.
pub proof fn law_receiver_lifetimes_are_bounded(request: Option<PrepareIncomingReceiverRequest>)
    ensures
        ({
            let lifetime = receiver_lifetime(request);
            &&& 30 * 1000 <= lifetime <= 15 * 60 * 1000
            &&& request is None || request->Some_0.lifetime_ms is None ==> lifetime == 10 * 60
                * 1000
            &&& request is Some && request->Some_0.lifetime_ms is Some ==> {
                let asked = request->Some_0.lifetime_ms->Some_0;
                &&& 30 * 1000 <= asked <= 15 * 60 * 1000 ==> lifetime == asked
                &&& asked < 30 * 1000 ==> lifetime == 30 * 1000
                &&& asked > 15 * 60 * 1000 ==> lifetime == 15 * 60 * 1000
            }
        }),
{
}

/// A package is imported exactly when it was not imported before, its transfer can be added, its
/// invitation is genuine and its authorization can be added. A replay is told first.
pub proof fn law_packages_are_imported_once_and_only_genuine(
    incoming: Map<Seq<char>, IncomingNativeTransfer>,
    imported: Map<Seq<u8>, ()>,
    authorization: AuthorizationRegistry,
    package: DecodedManualInvitationPackage,
    verified: Result<(), String>,
)
    ensures
        ({
            let refusal = import_refusal(incoming, imported, authorization, package, verified);
            let transfer_id = uuid_text(package.material.invitation.body.transfer_id@);
            &&& refusal is None <==> {
                &&& !imported.contains_key(package.package_digest_sha256@)
                &&& incoming_insert_refusal(incoming, transfer_id) is None
                &&& verified is Ok
                &&& install_outcome(
                    authorization.records(),
                    package.material.invitation,
                    package.material.master,
                ) is Ok
            }
            &&& imported.contains_key(package.package_digest_sha256@) ==> refusal == Some(
                "native-manual-package-replayed"@,
            )
        }),
{
}

/// A source is offered exactly when it is a file whose name is safe; a registered name counts
/// before that of the path.
pub proof fn law_sources_are_files_with_safe_names(style: PathStyle, source: OutgoingSource)
    ensures
        ({
            let defect = source_defect(style, source);
            let own_name = crate::paths::file_name_of(style, source.path@);
            &&& !source.is_file ==> defect == Some("native-outgoing-source-not-file"@)
            &&& source.is_file && source.registered_name is Some ==> defect == filename_defect(
                source.registered_name->Some_0@,
            )
            &&& source.is_file && source.registered_name is None && own_name is Some ==> defect
                == filename_defect(own_name->Some_0)
            &&& source.is_file && source.registered_name is None && own_name is None ==> defect
                == Some("native-outgoing-filename-invalid"@)
        }),
{
}

/// An incoming transfer is resumed exactly when it is not running already and a prepared receiver
/// that lives is there for it.
pub proof fn law_resumption_needs_a_living_receiver(
    incoming: Map<Seq<char>, IncomingNativeTransfer>,
    bootstraps: Map<Seq<char>, ReceiverBootstrapRecord>,
    request: ResumeIncomingTransferRequest,
    now: u64,
)
    ensures
        ({
            let refusal = incoming_resume_refusal(incoming, bootstraps, request, now);
            let id = parsed_uuid(request.transfer_id@);
            let bootstrap = parsed_uuid(request.receiver_bootstrap_id@);
            let key = uuid_text(bootstrap->Some_0@);
            &&& refusal is None <==> id is Some && !incoming.contains_key(uuid_text(id->Some_0@))
                && bootstrap is Some && bootstraps.contains_key(key) && now
                <= bootstraps[key].expires_unix_ms + 30_000
            &&& id is Some && incoming.contains_key(uuid_text(id->Some_0@)) ==> refusal == Some(
                "resume-already-active"@,
            )
            &&& id is None ==> refusal == Some("native-transfer-id-invalid"@)
        }),
{
}

/// An outgoing transfer goes on only from a state that the receiver confirmed: with a checkpoint,
/// the one that is expected if one is, with its digest, with no more bytes than the file has, and
/// after a session.
pub proof fn law_sends_resume_from_confirmed_states(
    state: PersistedOutgoingState,
    expected_generation: Option<u64>,
)
    ensures
        is_resumable(state, expected_generation) <==> {
            &&& state.peer_checkpoint_generation is Some
            &&& state.peer_state_digest is Some
            &&& state.previous_quic_session_id is Some
            &&& state.peer_completed_bytes <= state.file_size
            &&& expected_generation matches Some(expected) ==> state.peer_checkpoint_generation
                == Some(expected)
        },
{
}

/// A transfer whose receiver confirmed a checkpoint can go on from what is stored of it.
pub proof fn law_stored_sends_can_go_on(
    state: PersistedOutgoingState,
    record: OutgoingNativeTransfer,
)
    requires
        is_state_of(state, record),
    ensures
        is_resumable(state, record.mutable.peer_checkpoint_generation) <==> {
            &&& record.mutable.peer_checkpoint_generation is Some
            &&& record.mutable.peer_state_digest is Some
            &&& record.mutable.quic_session_id is Some
            &&& record.mutable.peer_completed_bytes <= record.file_size
        },
        state.file_size == record.file_size,
        state.expected_sha256 == record.expected_sha256,
        state.source_path@ == record.source_path@,
        state.transfer_id@ == record.transfer_id@,
        state.display_filename@ == record.display_filename@,
        state.invitation_id@ == record.invitation_id@,
        state.source_identity.same(record.source_identity),
        state.candidate_privacy_policy == record.candidate_privacy_policy,
        state.expires_unix_ms == record.expires_unix_ms,
        state.created_unix_ms == record.created_unix_ms,
        state.peer_checkpoint_generation == record.mutable.peer_checkpoint_generation,
        state.peer_state_digest == record.mutable.peer_state_digest,
        state.peer_completed_bytes == record.mutable.peer_completed_bytes,
        shown(state.previous_quic_session_id) == shown(record.mutable.quic_session_id),
        state.version == 1,
{
}

/// A source may be sent on exactly when its size and its name are those that were sent before and
/// it is the same file, or was bound anew and holds the same content.
pub proof fn law_changed_sources_are_not_sent_on(
    state: PersistedOutgoingState,
    source: ReopenedSource,
    content_matches: bool,
)
    ensures
        ({
            let change = source_change(state, source, content_matches);
            let same_file = source.identity.same(state.source_identity);
            let same_size = source.identity.size == state.file_size;
            let same_name = source.registered_name is None || source.registered_name->Some_0@
                == state.display_filename@;
            let name = state.display_filename@;
            &&& change is None <==> same_size && same_name && (same_file || source.rebound
                && content_matches) && filename_defect(name) is None && without_tail(name) == name
            &&& !(same_size && same_name && (same_file || source.rebound && content_matches))
                ==> change == Some("resume-source-changed"@)
            &&& needs_content(state, source) <==> source.rebound && same_size && !same_file
        }),
{
}

/// A kept download is offered for resumption exactly when it is of that transfer, its seven days
/// are not over, its hashes are genuine, and its names are safe and its own.
pub proof fn law_downloads_are_offered_while_they_are_kept(
    finding: IncomingFinding,
    transfer_id: [u8; 16],
    now: u64,
)
    requires
        now < u64::MAX,
    ensures
        can_resume(finding, transfer_id, now) <==> {
            &&& finding.secret_transfer_id == transfer_id
            &&& now < finding.checkpoint.created_unix_ms + 7 * 24 * 60 * 60 * 1000
            &&& finding.block_hashes_authenticated
            &&& filename_defect(finding.checkpoint.final_filename@) is None
            &&& finding.checkpoint.part_filename@ == "payload.part"@
        },
{
}

/// What is there and what is missing of a kept transfer make up its file.
pub proof fn law_found_and_missing_bytes_make_the_file(
    finding: IncomingFinding,
    transfer_id: Seq<u8>,
    destination: Seq<char>,
    resume_path: Seq<char>,
    sent: OutgoingResumableDiscovery,
    state: PersistedOutgoingState,
    identity: Option<crate::cross_device::SourceIdentity>,
)
    requires
        discovers(sent, state, identity),
    ensures
        ({
            let found = discovery_of(finding, transfer_id, destination, resume_path);
            &&& finding.checkpoint.completed_bytes <= finding.checkpoint.file_size
                ==> found.completed_bytes + found.missing_bytes == found.file_size
            &&& finding.checkpoint.completed_bytes > finding.checkpoint.file_size
                ==> found.missing_bytes == 0
            &&& found.completed_bytes == finding.checkpoint.completed_bytes
            &&& found.file_size == finding.checkpoint.file_size
            &&& found.checkpoint_generation == finding.checkpoint.checkpoint_generation
            &&& found.part_file_present == finding.part_file_present
            &&& found.transfer_id == uuid_text(transfer_id)
            &&& found.invitation_id == uuid_text(finding.invitation_id@)
            &&& found.destination_directory == destination
            &&& found.resume_metadata_path == resume_path
            &&& found.final_filename == finding.checkpoint.final_filename@
            &&& found.checkpoint_authenticated
            &&& found.block_hashes_authenticated
            &&& found.authorization_secret == "[REDACTED]"@
        }),
        state.peer_completed_bytes <= state.file_size ==> sent.peer_completed_bytes
            + sent.missing_bytes == sent.file_size,
        sent.file_size == state.file_size,
        sent.transfer_id@ == state.transfer_id@,
        sent.invitation_id@ == state.invitation_id@,
        sent.source_path@ == state.source_path@,
        sent.display_filename@ == state.display_filename@,
        Some(sent.checkpoint_generation) == state.peer_checkpoint_generation,
        sent.protected_state_authenticated,
        identity matches Some(found) ==> (sent.source_identity_matches <==> found.same(
            state.source_identity,
        )),
        sent.peer_completed_bytes == state.peer_completed_bytes,
        identity is None ==> !sent.source_identity_matches,
        sent.authorization_secret@ == "[REDACTED]"@,
{
}

/// A new transfer waits for the other side: nothing has moved, nothing runs, nobody stopped it and
/// nothing went wrong.
pub proof fn law_new_transfers_wait(
    sent: OutgoingNativeTransfer,
    facts: OutgoingFacts,
    received: IncomingNativeTransfer,
    package: DecodedManualInvitationPackage,
    bootstrap: ReceiverBootstrapRecord,
    place: ImportPlace,
)
    requires
        is_created(sent, facts),
        is_imported(received, package, bootstrap, place),
    ensures
        sent.mutable.state is AwaitingReceiver,
        received.mutable.state is AwaitingAcceptance,
        !sent.mutable.runtime_active,
        !received.mutable.runtime_active,
        sent.mutable.bytes_sent == 0,
        received.mutable.bytes_written == 0,
        sent.mutable.terminal_error is None,
        received.mutable.terminal_error is None,
        !sent.mutable.cancelled,
        !received.mutable.cancelled,
        sent.mutable.local_stop is None,
        received.mutable.local_stop is None,
        sent.file_size == facts.source.size,
        sent.source_path == facts.source.path,
        sent.transfer_id@ == uuid_text(facts.transfer_id@),
        received.transfer_id@ == uuid_text(package.material.invitation.body.transfer_id@),
        sent.expires_unix_ms == facts.expires_unix_ms,
        received.expires_unix_ms == package.expires_unix_ms,
        received.retention_expires_unix_ms == place.retention_expires_unix_ms,
        received.destination_directory == place.destination_directory,
        received.artifact_directory == place.artifact_directory,
        received.receiver_identity == Some(bootstrap.identity),
        received.invitation_id@ == uuid_text(package.material.invitation.body.invitation_id@),
        sent.invitation_id@ == uuid_text(facts.invitation_id@),
        sent.expected_sha256 == facts.expected_sha256,
        sent.display_filename == facts.display_filename,
        sent.source_identity == facts.source_identity,
        sent.receiver_certificate == facts.receiver.certificate,
        sent.candidate_privacy_policy == facts.candidate_privacy_policy,
        sent.created_unix_ms == facts.created_unix_ms,
        received.created_unix_ms == place.created_unix_ms,
        sent.previous_quic_session_id is None,
        sent.mutable.bytes_skipped == 0,
        received.mutable.bytes_skipped == 0,
        sent.mutable.signaling_file_payload_bytes == 0,
        received.mutable.signaling_file_payload_bytes == 0,
        !sent.mutable.control_requested && !received.mutable.control_requested,
        !sent.mutable.cancelled && !received.mutable.cancelled,
        !sent.mutable.runtime_active && !received.mutable.runtime_active,
        sent.mutable.local_stop is None && received.mutable.local_stop is None,
        sent.mutable.pause_request_id is None && received.mutable.pause_request_id is None,
        received.mutable.peer_cancel_retain_partial is None,
        sent.mutable.terminal_error is None && received.mutable.terminal_error is None,
        sent.mutable.selected_path is None && received.mutable.selected_path is None,
        sent.mutable.integrity_result is None && received.mutable.integrity_result is None,
        sent.mutable.performance is None && received.mutable.performance is None,
        sent.mutable.peer_checkpoint_generation is None,
        received.mutable.checkpoint_generation == 0,
        received.mutable.accepted_filename is None,
        received.mutable.final_path is None,
{
}

/// A resumed transfer looks for a path again, skips exactly what was confirmed, and goes on in the
/// generation that was reached.
pub proof fn law_resumed_transfers_skip_what_was_confirmed(
    received: IncomingNativeTransfer,
    lease: IncomingResumeLease,
    material: AuthorizationMaterial,
    checkpoint: CheckpointFacts,
    resume: IncomingResume,
    sent: OutgoingNativeTransfer,
    transfer_id: Seq<u8>,
    state: PersistedOutgoingState,
)
    requires
        goes_on(received, lease, material, checkpoint, resume),
        goes_on_sending(sent, transfer_id, state),
    ensures
        received.mutable.state is GatheringCandidates,
        sent.mutable.state is GatheringCandidates,
        received.mutable.bytes_skipped == checkpoint.completed_bytes,
        sent.mutable.bytes_skipped == state.peer_completed_bytes,
        received.mutable.checkpoint_generation == checkpoint.checkpoint_generation,
        sent.mutable.peer_checkpoint_generation == state.peer_checkpoint_generation,
        received.mutable.expected_file_size == Some(checkpoint.file_size),
        sent.file_size == state.file_size,
        received.mutable.expected_sha256 == Some(checkpoint.expected_sha256),
        received.mutable.secure_state_digest == Some(checkpoint.secure_state_digest),
        received.mutable.completed_checkpoint_bytes == checkpoint.completed_bytes,
        received.mutable.accepted_filename == Some(resume.filename),
        received.transfer_id@ == uuid_text(lease.transfer_id@),
        sent.transfer_id@ == uuid_text(transfer_id),
        received.invitation_id@ == uuid_text(material.invitation.body.invitation_id@),
        sent.invitation_id == state.invitation_id,
        received.receiver_identity == Some(lease.bootstrap.identity),
        received.expires_unix_ms == material.invitation.body.expires_unix_ms,
        sent.expires_unix_ms == state.expires_unix_ms,
        received.created_unix_ms == checkpoint.created_unix_ms,
        sent.created_unix_ms == state.created_unix_ms,
        sent.previous_quic_session_id == state.previous_quic_session_id,
        sent.mutable.peer_state_digest == state.peer_state_digest,
        sent.mutable.peer_completed_bytes == state.peer_completed_bytes,
        sent.display_filename == state.display_filename,
        sent.candidate_privacy_policy == state.candidate_privacy_policy,
        received.mutable.bytes_written == 0,
        sent.mutable.bytes_sent == 0,
        sent.expected_sha256 == state.expected_sha256,
        received.mutable.final_path == Some(resume.final_path),
        received.mutable.part_path == Some(resume.part_path),
        received.retention_expires_unix_ms == resume.retention_expires_unix_ms,
        sent.mutable.runtime_active,
        !received.mutable.runtime_active,
        received.mutable.terminal_error is None,
        sent.mutable.terminal_error is None,
        running_incoming(received).mutable.runtime_active,
        running_incoming(received).mutable.state == received.mutable.state,
{
}

/// A receiver that is refused is not kept, and none that still lives is lost for it: where the text
/// itself is unsound nothing changes, and otherwise those go whose time is over.
pub proof fn law_refused_receivers_are_not_kept(
    before: Map<Seq<char>, ReceiverBootstrapRecord>,
    after: Map<Seq<char>, ReceiverBootstrapRecord>,
    package: Seq<char>,
    policy: SecurityPolicy,
    error: Seq<char>,
    now: u64,
    id: Seq<char>,
)
    requires
        refused_bootstrap(before, after, package, policy, error, now),
    ensures
        after.contains_key(id) ==> before.contains_key(id) && after[id] == before[id],
        bootstrap_text_defect(package, policy, now) is Some ==> after == before && error
            == bootstrap_text_defect(package, policy, now)->Some_0,
        bootstrap_text_defect(package, policy, now) is None ==> (after.contains_key(id)
            <==> before.contains_key(id) && is_alive(before[id], now)),
{
}

} // verus!
