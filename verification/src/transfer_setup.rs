//! How transfers between two devices come about: receivers that are prepared, invitations that
//! are imported, and transfers that are taken up again.

use crate::authorization::{
    install_imported_available, install_outcome, installed, rollback_persisted_restore, rolled_back,
    saturating_sum, untouched, AuthorizationMaterial, AuthorizationRegistry, InvitationState,
    PersistedAuthorizationRestoreLease, SecurityPolicy,
};
use crate::authorization_delivery::{
    bootstrap_body, bootstrap_packing_defect, bootstrap_text_defect, checksummed,
    decode_receiver_bootstrap, package_end, prepare_receiver_bootstrap,
    DecodedManualInvitationPackage, DecodedReceiverBootstrap, EphemeralIdentity,
    PreparedReceiverBootstrap, MANUAL_PACKAGE_POSSESSION_WARNING,
};
use crate::arith::clamped;
use crate::bytes::bytes_equal;
use crate::candidates::CandidatePrivacyPolicy;
use crate::connectivity::ConnectivityGatherOptions;
use crate::cross_device::{
    bounded_lifetime, incoming_insert_refusal, incoming_snapshot, insert_incoming, insert_outgoing,
    outgoing_insert_refusal, outgoing_snapshot, shown,
    IncomingMutable, IncomingNativeState, IncomingNativeTransfer, IncomingNativeTransferSnapshot,
    NativeAuthorizationDeliveryMode, OutgoingMutable, OutgoingNativeState, OutgoingNativeTransfer,
    OutgoingNativeTransferSnapshot, SourceIdentity, BOOTSTRAP_SLACK_MS, DEFAULT_MANUAL_PACKAGE_LIFETIME_MS,
    MAX_SPLIT_ROLE_RECORDS, OUTGOING_STATE_VERSION,
};
use crate::crypto::{constant_time_equal, hmac_sha256_tag};
use crate::encoding::{base64url_text, hex, hex_text, parsed_uuid, uuid_parse, uuid_string, uuid_text};
use crate::ordering::{in_order, is_text_before, sort, text_before, views, Ranked};
use crate::paths::{file_name, file_name_of, is_child_of, join_path, joined_path, PathStyle};
use crate::received_files::{
    ensure_contained_destination, filename_defect, sanitize_received_filename, without_tail,
    PersistedIncomingRetention, MAX_INCOMING_RETENTION_MS,
};
use crate::registry::Registry;
use crate::secure_protocol::checkpoint_mac;
use crate::text::same_text;
use vstd::prelude::*;

verus! {

/// A receiver that waits for an invitation.
pub struct ReceiverBootstrapRecord {
    pub identity: EphemeralIdentity,
    pub expires_unix_ms: u64,
}

/// Whether a prepared receiver can still be used.
pub open spec fn is_alive(record: ReceiverBootstrapRecord, now: u64) -> bool {
    saturating_sum(record.expires_unix_ms, BOOTSTRAP_SLACK_MS) >= now
}

fn check_alive(record: &ReceiverBootstrapRecord, now: u64) -> (alive: bool)
    ensures
        alive == is_alive(*record, now),
{
    record.expires_unix_ms.saturating_add(BOOTSTRAP_SLACK_MS) >= now
}

/// The prepared receivers that can still be used.
pub open spec fn living(
    records: Map<Seq<char>, ReceiverBootstrapRecord>,
    now: u64,
) -> Map<Seq<char>, ReceiverBootstrapRecord> {
    Map::new(
        |id: Seq<char>| records.contains_key(id) && is_alive(records[id], now),
        |id: Seq<char>| records[id],
    )
}

/// Forgets the prepared receivers that can no longer be used.
pub fn prune_bootstraps(records: &mut Registry<String, ReceiverBootstrapRecord>, now: u64)
    requires
        old(records).wf(),
    ensures
        final(records).wf(),
        final(records)@ == living(old(records)@, now),
{
    let mut index: usize = 0;
    let ghost before = records@;
    while index < records.len()
        invariant
            records.wf(),
            index <= records.listing().len(),
            forall|id: Seq<char>| #[trigger]
                records@.contains_key(id) ==> before.contains_key(id) && records@[id]
                    == before[id],
            forall|id: Seq<char>| #[trigger]
                before.contains_key(id) && is_alive(before[id], now) ==> records@.contains_key(id),
            forall|i: int|
                0 <= i < index ==> is_alive((#[trigger] records.listing()[i]).1, now),
        decreases records.listing().len() - index,
    {
        let alive: bool = check_alive(&records.at(index).1, now);
        if alive {
            index += 1;
        } else {
            let ghost listing = records.listing();
            let ghost map = records@;
            let entry = records.remove_at(index);
            proof {
                assert forall|i: int| 0 <= i < index implies is_alive(
                    (#[trigger] records.listing()[i]).1,
                    now,
                ) by {
                    assert(records.listing()[i] == listing[i]);
                }
            }
        }
    }
    proof {
        records.lemma_listing();
        assert forall|id: Seq<char>| #[trigger] records@.contains_key(id) implies is_alive(
            records@[id],
            now,
        ) by {
            let i = choose|i: int|
                0 <= i < records.listing().len() && (#[trigger] records.listing()[i]).0@ == id;
            assert(is_alive(records.listing()[i].1, now));
        }
        assert(records@ =~= living(before, now));
    }
}

/// Why a prepared receiver cannot be kept, if it cannot.
pub open spec fn bootstrap_refusal(
    records: Map<Seq<char>, ReceiverBootstrapRecord>,
    package: Seq<char>,
    policy: SecurityPolicy,
    now: u64,
) -> Option<Seq<char>> {
    if bootstrap_text_defect(package, policy, now) is Some {
        bootstrap_text_defect(package, policy, now)
    } else if living(records, now).dom().len() >= MAX_SPLIT_ROLE_RECORDS {
        Some("native-receiver-bootstrap-capacity-reached"@)
    } else {
        None
    }
}

/// Whether a prepared receiver was not kept because of its package or for want of room: the
/// receivers that can no longer be used are forgotten once the package is found in order.
pub open spec fn refused_bootstrap(
    before: Map<Seq<char>, ReceiverBootstrapRecord>,
    after: Map<Seq<char>, ReceiverBootstrapRecord>,
    package: Seq<char>,
    policy: SecurityPolicy,
    error: Seq<char>,
    now: u64,
) -> bool {
    &&& bootstrap_refusal(before, package, policy, now) == Some(error)
    &&& after == if bootstrap_text_defect(package, policy, now) is Some {
        before
    } else {
        living(before, now)
    }
}

/// Keeps a prepared receiver until its invitation comes. Its package must be one that a sender
/// would accept.
pub fn insert_receiver_bootstrap(
    records: &mut Registry<String, ReceiverBootstrapRecord>,
    prepared: PreparedReceiverBootstrap,
    policy: &SecurityPolicy,
    now: u64,
) -> (result: Result<(), String>)
    requires
        old(records).wf(),
    ensures
        final(records).wf(),
        match result {
            Ok(()) => {
                &&& bootstrap_refusal(
                    old(records)@,
                    prepared.encoded_package@,
                    *policy,
                    now,
                ) is None
                &&& final(records)@ == living(old(records)@, now).insert(
                    uuid_text(prepared.bootstrap_id@),
                    (ReceiverBootstrapRecord {
                        identity: prepared.identity,
                        expires_unix_ms: prepared.expires_unix_ms,
                    }),
                )
            },
            Err(error) => refused_bootstrap(
                old(records)@,
                final(records)@,
                prepared.encoded_package@,
                *policy,
                error@,
                now,
            ),
        },
{
    let key: String = uuid_string(&prepared.bootstrap_id);
    match decode_receiver_bootstrap(prepared.encoded_package.as_str(), policy, now) {
        Ok(_) => {},
        Err(error) => {
            return Err(error);
        },
    }
    prune_bootstraps(records, now);
    if records.len() >= MAX_SPLIT_ROLE_RECORDS {
        return Err("native-receiver-bootstrap-capacity-reached".to_owned());
    }
    let ghost kept = records@;
    let record = ReceiverBootstrapRecord {
        identity: prepared.identity,
        expires_unix_ms: prepared.expires_unix_ms,
    };
    let _ = records.remove(&key);
    proof {
        assert(kept.remove(key@).insert(key@, record) =~= kept.insert(key@, record));
    }
    records.insert(key, record);
    Ok(())
}

/// Takes a prepared receiver out, so that nobody else can use it.
pub fn take_receiver_bootstrap(
    records: &mut Registry<String, ReceiverBootstrapRecord>,
    bootstrap_id: &String,
) -> (result: Result<ReceiverBootstrapRecord, String>)
    requires
        old(records).wf(),
    ensures
        final(records).wf(),
        match result {
            Ok(record) => {
                &&& old(records)@.contains_key(bootstrap_id@)
                &&& record == old(records)@[bootstrap_id@]
                &&& final(records)@ == old(records)@.remove(bootstrap_id@)
            },
            Err(error) => {
                &&& !old(records)@.contains_key(bootstrap_id@)
                &&& error@ == "native-receiver-bootstrap-unavailable"@
                &&& *final(records) == *old(records)
            },
        },
{
    match records.remove(bootstrap_id) {
        Some(record) => Ok(record),
        None => Err("native-receiver-bootstrap-unavailable".to_owned()),
    }
}

/// The prepared receivers once one was given back: it is kept if it can still be used and there
/// is room for it.
pub open spec fn given_back(
    records: Map<Seq<char>, ReceiverBootstrapRecord>,
    id: Seq<char>,
    record: ReceiverBootstrapRecord,
    now: u64,
) -> Map<Seq<char>, ReceiverBootstrapRecord> {
    if !is_alive(record, now) {
        records
    } else {
        let kept = living(records, now);
        if kept.dom().len() < MAX_SPLIT_ROLE_RECORDS && !kept.contains_key(id) {
            kept.insert(id, record)
        } else {
            kept
        }
    }
}

/// Gives a prepared receiver back that was taken out and not used.
pub fn restore_receiver_bootstrap(
    records: &mut Registry<String, ReceiverBootstrapRecord>,
    bootstrap_id: String,
    bootstrap: ReceiverBootstrapRecord,
    now: u64,
)
    requires
        old(records).wf(),
    ensures
        final(records).wf(),
        final(records)@ == given_back(old(records)@, bootstrap_id@, bootstrap, now),
{
    if !check_alive(&bootstrap, now) {
        return ;
    }
    prune_bootstraps(records, now);
    if records.len() < MAX_SPLIT_ROLE_RECORDS && !records.contains(&bootstrap_id) {
        records.insert(bootstrap_id, bootstrap);
    }
}

/// Why no prepared receiver can be taken out for a request, if none can.
pub open spec fn lease_refusal(
    records: Map<Seq<char>, ReceiverBootstrapRecord>,
    id: Seq<char>,
    now: u64,
) -> Option<Seq<char>> {
    match parsed_uuid(id) {
        None => Some("native-receiver-bootstrap-id-invalid"@),
        Some(parsed) => if !records.contains_key(uuid_text(parsed@)) {
            Some("native-receiver-bootstrap-unavailable"@)
        } else if !is_alive(records[uuid_text(parsed@)], now) {
            Some("native-receiver-bootstrap-expired"@)
        } else {
            None
        },
    }
}

/// Takes the prepared receiver of a request out. One that has run out is gone for good.
pub fn lease_receiver_bootstrap(
    records: &mut Registry<String, ReceiverBootstrapRecord>,
    bootstrap_id: &str,
    now: u64,
) -> (result: Result<(String, ReceiverBootstrapRecord), String>)
    requires
        old(records).wf(),
    ensures
        final(records).wf(),
        match result {
            Ok(lease) => {
                let id = uuid_text(parsed_uuid(bootstrap_id@)->Some_0@);
                &&& lease_refusal(old(records)@, bootstrap_id@, now) is None
                &&& lease.0@ == id
                &&& lease.1 == old(records)@[id]
                &&& final(records)@ == old(records)@.remove(id)
            },
            Err(error) => {
                &&& lease_refusal(old(records)@, bootstrap_id@, now) == Some(error@)
                &&& final(records)@ == if parsed_uuid(bootstrap_id@) is Some {
                    old(records)@.remove(uuid_text(parsed_uuid(bootstrap_id@)->Some_0@))
                } else {
                    old(records)@
                }
            },
        },
{
    let key: String = match uuid_parse(bootstrap_id) {
        Some(id) => uuid_string(&id),
        None => {
            return Err("native-receiver-bootstrap-id-invalid".to_owned());
        },
    };
    let ghost before = records@;
    let bootstrap = match take_receiver_bootstrap(records, &key) {
        Ok(bootstrap) => bootstrap,
        Err(error) => {
            assert(before.remove(key@) =~= before);
            return Err(error);
        },
    };
    if !check_alive(&bootstrap, now) {
        return Err("native-receiver-bootstrap-expired".to_owned());
    }
    Ok((key, bootstrap))
}

/// While a prepared receiver is taken out nobody else can take it.
pub proof fn law_leased_bootstrap_is_not_leased_again(
    records: Map<Seq<char>, ReceiverBootstrapRecord>,
    id: Seq<char>,
    now: u64,
    later: u64,
)
    requires
        lease_refusal(records, id, now) is None,
    ensures
        lease_refusal(records.remove(uuid_text(parsed_uuid(id)->Some_0@)), id, later) == Some(
            "native-receiver-bootstrap-unavailable"@,
        ),
{
}

/// A prepared receiver that was taken out and given back can be taken out again, as long as it
/// has not run out: a failed import or resumption does not use it up.
pub proof fn law_returned_bootstrap_can_be_leased_again(
    records: Map<Seq<char>, ReceiverBootstrapRecord>,
    id: Seq<char>,
    now: u64,
    later: u64,
)
    requires
        records.dom().finite(),
        records.dom().len() <= MAX_SPLIT_ROLE_RECORDS,
        lease_refusal(records, id, now) is None,
        now <= later,
        is_alive(records[uuid_text(parsed_uuid(id)->Some_0@)], later),
    ensures
        ({
            let key = uuid_text(parsed_uuid(id)->Some_0@);
            let after = given_back(records.remove(key), key, records[key], later);
            &&& lease_refusal(after, id, later) is None
            &&& after[key] == records[key]
        }),
{
    let key = uuid_text(parsed_uuid(id)->Some_0@);
    let rest = records.remove(key);
    let kept = living(rest, later);
    assert(kept.dom().subset_of(rest.dom()));
    vstd::set_lib::lemma_len_subset(kept.dom(), rest.dom());
    assert(rest.dom() =~= records.dom().remove(key));
    assert(rest.dom().len() == records.dom().len() - 1);
}

#[derive(Debug)]
pub struct PrepareIncomingReceiverRequest {
    pub lifetime_ms: Option<u64>,
}

#[derive(Debug)]
pub struct PrepareIncomingReceiverResponse {
    pub receiver_bootstrap_id: String,
    pub receiver_bootstrap_package: String,
    pub certificate_fingerprint_sha256: String,
    pub expires_unix_ms: u64,
    pub contains_private_key: bool,
}

/// How long a prepared receiver waits.
pub open spec fn receiver_lifetime(request: Option<PrepareIncomingReceiverRequest>) -> u64 {
    clamped(
        match request {
            Some(asked) => match asked.lifetime_ms {
                Some(lifetime) => lifetime,
                None => DEFAULT_MANUAL_PACKAGE_LIFETIME_MS,
            },
            None => DEFAULT_MANUAL_PACKAGE_LIFETIME_MS,
        },
        30_000,
        900_000,
    )
}

/// The text of a package that tells a sender of a receiver.
pub open spec fn receiver_package(
    policy: SecurityPolicy,
    id: [u8; 16],
    created_unix_ms: u64,
    expires_unix_ms: u64,
    identity: EphemeralIdentity,
    nonce: [u8; 32],
) -> Seq<char> {
    base64url_text(
        checksummed(
            bootstrap_body(
                policy.protocol_version,
                id@,
                created_unix_ms,
                expires_unix_ms,
                identity.fingerprint_sha256_bytes@,
                identity.certificate@,
                nonce@,
            ),
        ),
    )
}

/// Prepares this device for an invitation: an identity is kept, and the package for the sender
/// is handed out without the private key. Where the package cannot be made, nothing changes.
pub fn flowshare_native_prepare_incoming_receiver(
    records: &mut Registry<String, ReceiverBootstrapRecord>,
    request: &Option<PrepareIncomingReceiverRequest>,
    identity: EphemeralIdentity,
    policy: &SecurityPolicy,
    now: u64,
) -> (result: Result<PrepareIncomingReceiverResponse, String>)
    requires
        old(records).wf(),
    ensures
        final(records).wf(),
        match result {
            Ok(response) => {
                &&& bootstrap_packing_defect(
                    identity.certificate@,
                    now,
                    receiver_lifetime(*request) as u128,
                ) is None
                &&& Some(response.expires_unix_ms) == package_end(
                    now,
                    receiver_lifetime(*request) as u128,
                )
                &&& response.certificate_fingerprint_sha256@ == hex_text(
                    identity.fingerprint_sha256_bytes@,
                )
                &&& !response.contains_private_key
                &&& exists|id: [u8; 16], nonce: [u8; 32]|
                    response.receiver_bootstrap_id@ == uuid_text(id@) && id@[6] / 16 == 4 && id@[8]
                        / 64 == 2 && response.receiver_bootstrap_package@
                        == #[trigger] receiver_package(
                        *policy,
                        id,
                        now,
                        response.expires_unix_ms,
                        identity,
                        nonce,
                    )
                &&& bootstrap_refusal(
                    old(records)@,
                    response.receiver_bootstrap_package@,
                    *policy,
                    now,
                ) is None
                &&& final(records)@ == living(old(records)@, now).insert(
                    response.receiver_bootstrap_id@,
                    (ReceiverBootstrapRecord {
                        identity,
                        expires_unix_ms: response.expires_unix_ms,
                    }),
                )
            },
            Err(error) => {
                let end = package_end(now, receiver_lifetime(*request) as u128);
                match bootstrap_packing_defect(
                    identity.certificate@,
                    now,
                    receiver_lifetime(*request) as u128,
                ) {
                    Some(defect) => error@ == defect && final(records)@ == old(records)@,
                    None => {
                        ||| error@ == "native-randomness-unavailable"@ && final(records)@ == old(
                            records,
                        )@
                        ||| exists|id: [u8; 16], nonce: [u8; 32]|
                            refused_bootstrap(
                                old(records)@,
                                final(records)@,
                                #[trigger] receiver_package(
                                    *policy,
                                    id,
                                    now,
                                    end->Some_0,
                                    identity,
                                    nonce,
                                ),
                                *policy,
                                error@,
                                now,
                            )
                    },
                }
            },
        },
{
    let asked: Option<u64> = match request {
        Some(request) => request.lifetime_ms,
        None => None,
    };
    let lifetime_ms: u64 = bounded_lifetime(asked, DEFAULT_MANUAL_PACKAGE_LIFETIME_MS);
    let prepared = match prepare_receiver_bootstrap(identity, now, lifetime_ms as u128, policy) {
        Ok(prepared) => prepared,
        Err(error) => {
            return Err(error);
        },
    };
    let response = PrepareIncomingReceiverResponse {
        receiver_bootstrap_id: uuid_string(&prepared.bootstrap_id),
        receiver_bootstrap_package: prepared.encoded_package.clone(),
        certificate_fingerprint_sha256: hex(&prepared.certificate_fingerprint_sha256),
        expires_unix_ms: prepared.expires_unix_ms,
        contains_private_key: false,
    };
    let ghost before = records@;
    let ghost id = prepared.bootstrap_id;
    let ghost end = prepared.expires_unix_ms;
    let ghost nonce = choose|nonce: [u8; 32]|
        prepared.encoded_package@ == base64url_text(
            checksummed(
                #[trigger] bootstrap_body(
                    policy.protocol_version,
                    id@,
                    now,
                    end,
                    identity.fingerprint_sha256_bytes@,
                    identity.certificate@,
                    nonce@,
                ),
            ),
        );
    assert(prepared.encoded_package@ == receiver_package(*policy, id, now, end, identity, nonce));
    match insert_receiver_bootstrap(records, prepared, policy, now) {
        Ok(()) => Ok(response),
        Err(error) => {
            let ghost last = package_end(now, receiver_lifetime(*request) as u128)->Some_0;
            assert(bootstrap_refusal(
                before,
                receiver_package(*policy, id, now, last, identity, nonce),
                *policy,
                now,
            ) == Some(error@));
            Err(error)
        },
    }
}

#[derive(Debug)]
pub struct ImportIncomingInvitationRequest {
    pub receiver_bootstrap_id: String,
    pub invitation_package: String,
    pub destination_directory: String,
    pub retention_expires_unix_ms: Option<u64>,
}

#[derive(Debug)]
pub struct ImportIncomingInvitationResponse {
    pub transfer: IncomingNativeTransferSnapshot,
    pub authorization_secret: &'static str,
    pub protected_with_dpapi: bool,
    pub package_consumed_locally: bool,
}

/// Refuses a package that was imported before.
pub fn check_not_imported(
    imported: &Registry<[u8; 32], ()>,
    package_digest_sha256: &[u8; 32],
) -> (result: Result<(), String>)
    requires
        imported.wf(),
    ensures
        match result {
            Ok(()) => !imported@.contains_key(package_digest_sha256@),
            Err(error) => imported@.contains_key(package_digest_sha256@) && error@
                == "native-manual-package-replayed"@,
        },
{
    if imported.contains(package_digest_sha256) {
        return Err("native-manual-package-replayed".to_owned());
    }
    Ok(())
}

/// Where an imported transfer is kept.
#[derive(Debug)]
pub struct ImportPlace {
    pub destination_directory: String,
    pub artifact_directory: String,
    pub authorization_resume_path: String,
    pub created_unix_ms: u64,
    pub retention_expires_unix_ms: u64,
    /// Whether the secret is protected by the system's own means.
    pub protected_with_dpapi: bool,
}

/// Whether nothing has happened yet with a transfer but that it got the given state.
pub open spec fn is_fresh(mutable: IncomingMutable, state: IncomingNativeState) -> bool {
    &&& mutable.state == state
    &&& !mutable.control_requested
    &&& !mutable.cancelled
    &&& mutable.local_stop is None
    &&& mutable.peer_cancel_retain_partial is None
    &&& mutable.pause_request_id is None
    &&& !mutable.runtime_active
    &&& mutable.connectivity_session_id is None
    &&& mutable.quic_session_id is None
    &&& mutable.selected_path is None
    &&& mutable.bytes_received == 0
    &&& mutable.bytes_written == 0
    &&& mutable.integrity_result is None
    &&& mutable.performance is None
    &&& mutable.signaling_file_payload_bytes == 0
    &&& mutable.terminal_error is None
}

/// Whether a record is the one of a freshly imported invitation.
pub open spec fn is_imported(
    record: IncomingNativeTransfer,
    package: DecodedManualInvitationPackage,
    bootstrap: ReceiverBootstrapRecord,
    place: ImportPlace,
) -> bool {
    &&& record.transfer_id@ == uuid_text(package.material.invitation.body.transfer_id@)
    &&& record.invitation_id@ == uuid_text(package.material.invitation.body.invitation_id@)
    &&& record.destination_directory == place.destination_directory
    &&& record.artifact_directory == place.artifact_directory
    &&& record.authorization_resume_path == place.authorization_resume_path
    &&& record.receiver_identity == Some(bootstrap.identity)
    &&& record.receiver_certificate_fingerprint_sha256
        == package.receiver_certificate_fingerprint_sha256
    &&& record.expires_unix_ms == package.expires_unix_ms
    &&& record.retention_expires_unix_ms == place.retention_expires_unix_ms
    &&& record.created_unix_ms == place.created_unix_ms
    &&& is_fresh(record.mutable, IncomingNativeState::AwaitingAcceptance)
    &&& record.mutable.accepted_filename is None
    &&& record.mutable.expected_file_size is None
    &&& record.mutable.expected_sha256 is None
    &&& record.mutable.final_path is None
    &&& record.mutable.part_path is None
    &&& record.mutable.bytes_skipped == 0
    &&& record.mutable.checkpoint_generation == 0
    &&& record.mutable.secure_state_digest is None
    &&& record.mutable.completed_checkpoint_bytes == 0
}

/// Why an import cannot be committed, if it cannot: the package was imported before, there is no
/// room, the transfer is known, or its authorization is refused.
pub open spec fn import_refusal(
    incoming: Map<Seq<char>, IncomingNativeTransfer>,
    imported: Map<Seq<u8>, ()>,
    authorization: AuthorizationRegistry,
    package: DecodedManualInvitationPackage,
    verified: Result<(), String>,
) -> Option<Seq<char>> {
    let transfer_id = uuid_text(package.material.invitation.body.transfer_id@);
    if imported.contains_key(package.package_digest_sha256@) {
        Some("native-manual-package-replayed"@)
    } else if incoming_insert_refusal(incoming, transfer_id) is Some {
        incoming_insert_refusal(incoming, transfer_id)
    } else {
        match verified {
            Err(reason) => Some(reason@),
            Ok(()) => match install_outcome(
                authorization.records(),
                package.material.invitation,
                package.material.master,
            ) {
                Err(reason) => Some(reason),
                Ok(_) => None,
            },
        }
    }
}

/// An import that was not committed, with the prepared receiver that it took.
pub struct RefusedImport {
    pub error: String,
    pub bootstrap: ReceiverBootstrapRecord,
}

fn empty_incoming(state: IncomingNativeState) -> (mutable: IncomingMutable)
    ensures
        is_fresh(mutable, state),
        mutable.accepted_filename is None,
        mutable.expected_file_size is None,
        mutable.expected_sha256 is None,
        mutable.final_path is None,
        mutable.part_path is None,
        mutable.bytes_skipped == 0,
        mutable.checkpoint_generation == 0,
        mutable.secure_state_digest is None,
        mutable.completed_checkpoint_bytes == 0,
{
    IncomingMutable {
        state,
        control_requested: false,
        cancelled: false,
        local_stop: None,
        peer_cancel_retain_partial: None,
        pause_request_id: None,
        runtime_active: false,
        connectivity_session_id: None,
        quic_session_id: None,
        selected_path: None,
        accepted_filename: None,
        expected_file_size: None,
        expected_sha256: None,
        final_path: None,
        part_path: None,
        bytes_received: 0,
        bytes_written: 0,
        bytes_skipped: 0,
        checkpoint_generation: 0,
        secure_state_digest: None,
        completed_checkpoint_bytes: 0,
        integrity_result: None,
        performance: None,
        signaling_file_payload_bytes: 0,
        terminal_error: None,
    }
}

/// Commits an import in one step: the authorization, the mark against a second import, and the
/// record of the transfer. Either all three are there afterwards or none. `verified` is whether
/// the secure protocol accepts the invitation with its secret.
pub fn flowshare_native_import_incoming_invitation(
    incoming: &mut Registry<String, IncomingNativeTransfer>,
    imported: &mut Registry<[u8; 32], ()>,
    authorization: &mut AuthorizationRegistry,
    package: DecodedManualInvitationPackage,
    verified: Result<(), String>,
    bootstrap: ReceiverBootstrapRecord,
    place: ImportPlace,
) -> (result: Result<ImportIncomingInvitationResponse, RefusedImport>)
    requires
        old(incoming).wf(),
        old(imported).wf(),
        old(authorization).wf(),
    ensures
        final(incoming).wf(),
        final(imported).wf(),
        final(authorization).wf(),
        ({
            let refusal = import_refusal(
                old(incoming)@,
                old(imported)@,
                *old(authorization),
                package,
                verified,
            );
            let transfer_id = uuid_text(package.material.invitation.body.transfer_id@);
            match result {
                Ok(response) => {
                    let record = final(incoming)@[transfer_id];
                    &&& refusal is None
                    &&& final(incoming)@ == old(incoming)@.insert(transfer_id, record)
                    &&& is_imported(record, package, bootstrap, place)
                    &&& final(imported)@ == old(imported)@.insert(
                        package.package_digest_sha256@,
                        (),
                    )
                    &&& installed(
                        old(authorization).records(),
                        final(authorization).records(),
                        package.material,
                        InvitationState::Available,
                        install_outcome(
                            old(authorization).records(),
                            package.material.invitation,
                            package.material.master,
                        )->Ok_0,
                    )
                    &&& response.transfer.shows(record)
                    &&& response.authorization_secret@ == "[REDACTED]"@
                    &&& response.protected_with_dpapi == place.protected_with_dpapi
                    &&& response.package_consumed_locally
                },
                Err(refused) => {
                    &&& refusal == Some(refused.error@)
                    &&& refused.bootstrap == bootstrap
                    &&& *final(incoming) == *old(incoming)
                    &&& *final(imported) == *old(imported)
                    &&& *final(authorization) == *old(authorization)
                },
            }
        }),
{
    let body = package.material.invitation.body;
    let transfer_id: String = uuid_string(&body.transfer_id);
    if imported.contains(&package.package_digest_sha256) {
        return Err(
            RefusedImport { error: "native-manual-package-replayed".to_owned(), bootstrap },
        );
    }
    if incoming.len() >= MAX_SPLIT_ROLE_RECORDS {
        return Err(
            RefusedImport {
                error: "native-incoming-registry-capacity-reached".to_owned(),
                bootstrap,
            },
        );
    }
    if incoming.contains(&transfer_id) {
        return Err(
            RefusedImport { error: "native-incoming-transfer-exists".to_owned(), bootstrap },
        );
    }
    let digest: [u8; 32] = package.package_digest_sha256;
    match install_imported_available(authorization, package.material, verified) {
        Ok(()) => {},
        Err(error) => {
            return Err(RefusedImport { error, bootstrap });
        },
    }
    let record = IncomingNativeTransfer {
        transfer_id: uuid_string(&body.transfer_id),
        invitation_id: uuid_string(&body.invitation_id),
        destination_directory: place.destination_directory,
        artifact_directory: place.artifact_directory,
        authorization_resume_path: place.authorization_resume_path,
        receiver_identity: Some(bootstrap.identity),
        receiver_certificate_fingerprint_sha256: package.receiver_certificate_fingerprint_sha256,
        expires_unix_ms: package.expires_unix_ms,
        retention_expires_unix_ms: place.retention_expires_unix_ms,
        created_unix_ms: place.created_unix_ms,
        mutable: empty_incoming(IncomingNativeState::AwaitingAcceptance),
    };
    let transfer = incoming_snapshot(&record);
    imported.insert(digest, ());
    incoming.insert(transfer_id, record);
    Ok(
        ImportIncomingInvitationResponse {
            transfer,
            authorization_secret: "[REDACTED]",
            protected_with_dpapi: place.protected_with_dpapi,
            package_consumed_locally: true,
        },
    )
}

/// A package that was imported is refused from then on, whatever else has changed.
pub proof fn law_imported_package_is_refused_again(
    incoming: Map<Seq<char>, IncomingNativeTransfer>,
    imported: Map<Seq<u8>, ()>,
    authorization: AuthorizationRegistry,
    package: DecodedManualInvitationPackage,
    verified: Result<(), String>,
)
    ensures
        import_refusal(
            incoming,
            imported.insert(package.package_digest_sha256@, ()),
            authorization,
            package,
            verified,
        ) == Some("native-manual-package-replayed"@),
{
}

#[derive(Debug)]
pub struct CreateOutgoingTransferRequest {
    pub source_path: String,
    pub receiver_bootstrap_package: String,
    pub authorization_delivery_mode: NativeAuthorizationDeliveryMode,
    pub candidate_privacy_policy: Option<CandidatePrivacyPolicy>,
    pub invitation_lifetime_ms: Option<u64>,
}

#[derive(Debug)]
pub struct CreateOutgoingTransferResponse {
    pub transfer: OutgoingNativeTransferSnapshot,
    pub invitation_package: String,
    pub possession_warning: &'static str,
    pub secret_redacted_in_future_responses: bool,
}

/// What is known of a source file.
#[derive(Debug)]
pub struct OutgoingSource {
    pub path: String,
    /// The name to show, where the platform handed the file over with one.
    pub registered_name: Option<String>,
    /// Whether it is a regular file.
    pub is_file: bool,
    pub size: u64,
}

/// The name under which a source file is offered, before it is made safe.
pub open spec fn offered_name(style: PathStyle, source: OutgoingSource) -> Option<Seq<char>> {
    match source.registered_name {
        Some(name) => Some(name@),
        None => file_name_of(style, source.path@),
    }
}

/// Why a source cannot be sent, if it cannot.
pub open spec fn source_defect(style: PathStyle, source: OutgoingSource) -> Option<Seq<char>> {
    if !source.is_file {
        Some("native-outgoing-source-not-file"@)
    } else {
        match offered_name(style, source) {
            None => Some("native-outgoing-filename-invalid"@),
            Some(name) => filename_defect(name),
        }
    }
}

/// The safe name under which a source file is offered.
pub fn outgoing_display_name(style: PathStyle, source: &OutgoingSource) -> (result: Result<
    String,
    String,
>)
    ensures
        match result {
            Ok(name) => source_defect(style, *source) is None && name@ == without_tail(
                offered_name(style, *source)->Some_0,
            ),
            Err(error) => source_defect(style, *source) == Some(error@),
        },
{
    if !source.is_file {
        return Err("native-outgoing-source-not-file".to_owned());
    }
    let name: String = match &source.registered_name {
        Some(name) => name.clone(),
        None => match file_name(style, source.path.as_str()) {
            Some(name) => name,
            None => {
                return Err("native-outgoing-filename-invalid".to_owned());
            },
        },
    };
    sanitize_received_filename(name.as_str())
}

/// Whether nothing has happened yet with an outgoing transfer but that it got the given state.
pub open spec fn is_fresh_outgoing(mutable: OutgoingMutable, state: OutgoingNativeState) -> bool {
    &&& mutable.state == state
    &&& !mutable.control_requested
    &&& !mutable.cancelled
    &&& mutable.local_stop is None
    &&& mutable.pause_request_id is None
    &&& !mutable.runtime_active
    &&& mutable.connectivity_session_id is None
    &&& mutable.quic_session_id is None
    &&& mutable.selected_path is None
    &&& mutable.bytes_sent == 0
    &&& mutable.integrity_result is None
    &&& mutable.performance is None
    &&& mutable.signaling_file_payload_bytes == 0
    &&& mutable.terminal_error is None
}

fn empty_outgoing(state: OutgoingNativeState) -> (mutable: OutgoingMutable)
    ensures
        is_fresh_outgoing(mutable, state),
        mutable.bytes_skipped == 0,
        mutable.peer_checkpoint_generation is None,
        mutable.peer_state_digest is None,
        mutable.peer_completed_bytes == 0,
{
    OutgoingMutable {
        state,
        control_requested: false,
        cancelled: false,
        local_stop: None,
        pause_request_id: None,
        runtime_active: false,
        connectivity_session_id: None,
        quic_session_id: None,
        selected_path: None,
        bytes_sent: 0,
        bytes_skipped: 0,
        peer_checkpoint_generation: None,
        peer_state_digest: None,
        peer_completed_bytes: 0,
        integrity_result: None,
        performance: None,
        signaling_file_payload_bytes: 0,
        terminal_error: None,
    }
}

/// What a new outgoing transfer is made of.
pub struct OutgoingFacts {
    pub transfer_id: [u8; 16],
    pub invitation_id: [u8; 16],
    pub source: OutgoingSource,
    pub source_identity: SourceIdentity,
    pub display_filename: String,
    pub expected_sha256: [u8; 32],
    pub receiver: DecodedReceiverBootstrap,
    pub candidate_privacy_policy: CandidatePrivacyPolicy,
    pub authorization_resume_path: String,
    pub outgoing_state_path: String,
    pub expires_unix_ms: u64,
    pub created_unix_ms: u64,
}

/// Whether a record is that of a new outgoing transfer, which waits for its receiver.
pub open spec fn is_created(record: OutgoingNativeTransfer, facts: OutgoingFacts) -> bool {
    &&& record.transfer_id@ == uuid_text(facts.transfer_id@)
    &&& record.invitation_id@ == uuid_text(facts.invitation_id@)
    &&& record.source_path == facts.source.path
    &&& record.source_identity == facts.source_identity
    &&& record.display_filename == facts.display_filename
    &&& record.file_size == facts.source.size
    &&& record.expected_sha256 == facts.expected_sha256
    &&& record.receiver_certificate == facts.receiver.certificate
    &&& record.receiver_certificate_fingerprint_sha256
        == facts.receiver.certificate_fingerprint_sha256
    &&& record.candidate_privacy_policy == facts.candidate_privacy_policy
    &&& record.authorization_resume_path == facts.authorization_resume_path
    &&& record.outgoing_state_path == facts.outgoing_state_path
    &&& record.previous_quic_session_id is None
    &&& record.expires_unix_ms == facts.expires_unix_ms
    &&& record.created_unix_ms == facts.created_unix_ms
    &&& is_fresh_outgoing(record.mutable, OutgoingNativeState::AwaitingReceiver)
    &&& record.mutable.bytes_skipped == 0
    &&& record.mutable.peer_checkpoint_generation is None
    &&& record.mutable.peer_state_digest is None
    &&& record.mutable.peer_completed_bytes == 0
}

/// The record of a new outgoing transfer.
pub fn new_outgoing(facts: OutgoingFacts) -> (record: OutgoingNativeTransfer)
    ensures
        is_created(record, facts),
{
    OutgoingNativeTransfer {
        transfer_id: uuid_string(&facts.transfer_id),
        invitation_id: uuid_string(&facts.invitation_id),
        source_path: facts.source.path,
        source_identity: facts.source_identity,
        display_filename: facts.display_filename,
        file_size: facts.source.size,
        expected_sha256: facts.expected_sha256,
        receiver_certificate: facts.receiver.certificate,
        receiver_certificate_fingerprint_sha256: facts.receiver.certificate_fingerprint_sha256,
        candidate_privacy_policy: facts.candidate_privacy_policy,
        authorization_resume_path: facts.authorization_resume_path,
        outgoing_state_path: facts.outgoing_state_path,
        previous_quic_session_id: None,
        expires_unix_ms: facts.expires_unix_ms,
        created_unix_ms: facts.created_unix_ms,
        mutable: empty_outgoing(OutgoingNativeState::AwaitingReceiver),
    }
}

/// Adds a new outgoing transfer, once its state is stored, and hands its package out.
pub fn flowshare_native_create_outgoing_transfer(
    outgoing: &mut Registry<String, OutgoingNativeTransfer>,
    facts: OutgoingFacts,
    invitation_package: String,
) -> (result: Result<CreateOutgoingTransferResponse, String>)
    requires
        old(outgoing).wf(),
    ensures
        final(outgoing).wf(),
        ({
            let id = uuid_text(facts.transfer_id@);
            match result {
                Ok(response) => {
                    &&& outgoing_insert_refusal(old(outgoing)@, id) is None
                    &&& final(outgoing)@ == old(outgoing)@.insert(id, final(outgoing)@[id])
                    &&& is_created(final(outgoing)@[id], facts)
                    &&& response.transfer.shows(final(outgoing)@[id])
                    &&& response.invitation_package == invitation_package
                    &&& response.possession_warning@ == MANUAL_PACKAGE_POSSESSION_WARNING@
                    &&& response.secret_redacted_in_future_responses
                },
                Err(error) => {
                    &&& outgoing_insert_refusal(old(outgoing)@, id) == Some(error@)
                    &&& *final(outgoing) == *old(outgoing)
                },
            }
        }),
{
    let record = new_outgoing(facts);
    let transfer = outgoing_snapshot(&record);
    match insert_outgoing(outgoing, record) {
        Ok(()) => Ok(
            CreateOutgoingTransferResponse {
                transfer,
                invitation_package,
                possession_warning: MANUAL_PACKAGE_POSSESSION_WARNING,
                secret_redacted_in_future_responses: true,
            },
        ),
        Err(error) => Err(error),
    }
}

#[derive(Debug)]
pub struct ResumeIncomingTransferRequest {
    pub transfer_id: String,
    pub receiver_bootstrap_id: String,
    pub destination_directory: String,
    pub expected_checkpoint_generation: Option<u64>,
    pub signaling_endpoint: String,
    pub gathering: Option<ConnectivityGatherOptions>,
    pub signaling_timeout_ms: Option<u64>,
    pub connectivity_timeout_ms: Option<u64>,
}

/// An incoming transfer that is about to be resumed, with the prepared receiver it took.
pub struct IncomingResumeLease {
    pub transfer_id: [u8; 16],
    pub bootstrap_id: String,
    pub bootstrap: ReceiverBootstrapRecord,
}

/// Why an incoming transfer cannot be taken up again, if it cannot.
pub open spec fn incoming_resume_refusal(
    incoming: Map<Seq<char>, IncomingNativeTransfer>,
    bootstraps: Map<Seq<char>, ReceiverBootstrapRecord>,
    request: ResumeIncomingTransferRequest,
    now: u64,
) -> Option<Seq<char>> {
    match parsed_uuid(request.transfer_id@) {
        None => Some("native-transfer-id-invalid"@),
        Some(id) => if incoming.contains_key(uuid_text(id@)) {
            Some("resume-already-active"@)
        } else {
            lease_refusal(bootstraps, request.receiver_bootstrap_id@, now)
        },
    }
}

/// Begins to take up an incoming transfer again: it must not be running, and a prepared receiver
/// must be there for it.
pub fn begin_incoming_resume(
    incoming: &Registry<String, IncomingNativeTransfer>,
    bootstraps: &mut Registry<String, ReceiverBootstrapRecord>,
    request: &ResumeIncomingTransferRequest,
    now: u64,
) -> (result: Result<IncomingResumeLease, String>)
    requires
        incoming.wf(),
        old(bootstraps).wf(),
    ensures
        final(bootstraps).wf(),
        match result {
            Ok(lease) => {
                let id = uuid_text(parsed_uuid(request.receiver_bootstrap_id@)->Some_0@);
                &&& incoming_resume_refusal(incoming@, old(bootstraps)@, *request, now) is None
                &&& Some(lease.transfer_id) == parsed_uuid(request.transfer_id@)
                &&& lease.bootstrap_id@ == id
                &&& lease.bootstrap == old(bootstraps)@[id]
                &&& final(bootstraps)@ == old(bootstraps)@.remove(id)
            },
            Err(error) => {
                &&& incoming_resume_refusal(incoming@, old(bootstraps)@, *request, now) == Some(
                    error@,
                )
                &&& final(bootstraps)@ == if error@ == "native-receiver-bootstrap-expired"@ {
                    old(bootstraps)@.remove(
                        uuid_text(parsed_uuid(request.receiver_bootstrap_id@)->Some_0@),
                    )
                } else {
                    old(bootstraps)@
                }
            },
        },
{
    proof {
        reveal_strlit("native-receiver-bootstrap-expired");
        reveal_strlit("native-transfer-id-invalid");
        reveal_strlit("resume-already-active");
        reveal_strlit("native-receiver-bootstrap-id-invalid");
        reveal_strlit("native-receiver-bootstrap-unavailable");
        assert("native-receiver-bootstrap-id-invalid"@.len() == 36);
        assert("native-receiver-bootstrap-unavailable"@.len() == 37);
        assert("native-receiver-bootstrap-expired"@.len() == 33);
        assert("native-transfer-id-invalid"@.len() == 26);
        assert("resume-already-active"@.len() == 21);
    }
    let transfer_id: [u8; 16] = match uuid_parse(request.transfer_id.as_str()) {
        Some(id) => id,
        None => {
            return Err("native-transfer-id-invalid".to_owned());
        },
    };
    let key: String = uuid_string(&transfer_id);
    if incoming.contains(&key) {
        return Err("resume-already-active".to_owned());
    }
    let ghost before = bootstraps@;
    match lease_receiver_bootstrap(bootstraps, request.receiver_bootstrap_id.as_str(), now) {
        Ok(lease) => Ok(
            IncomingResumeLease { transfer_id, bootstrap_id: lease.0, bootstrap: lease.1 },
        ),
        Err(error) => {
            proof {
                if parsed_uuid(request.receiver_bootstrap_id@) is Some {
                    let id = uuid_text(parsed_uuid(request.receiver_bootstrap_id@)->Some_0@);
                    if !before.contains_key(id) {
                        assert(before.remove(id) =~= before);
                    }
                }
            }
            Err(error)
        },
    }
}

/// Where the records of a transfer that is resumed are.
#[derive(Debug, Clone, Copy, PartialEq, Eq, Structural)]
pub enum ResumePlace {
    /// In the directory for the state of transfers, kept until the given time.
    Central(u64),
    /// Beside the received data.
    Beside,
}

/// A transfer that cannot be resumed, and whether what is left of it is to be removed.
#[derive(Debug)]
pub struct ResumePlaceError {
    pub error: String,
    pub remove_workspace: bool,
}

/// Finds out where the records of a transfer are, from the record of how long it is kept, where
/// there is one. It must be for the destination that is asked for, and must not have run out.
pub fn resume_place(
    retention: &Option<PersistedIncomingRetention>,
    retained_destination: &str,
    destination: &str,
    now: u64,
) -> (result: Result<ResumePlace, ResumePlaceError>)
    ensures
        match *retention {
            None => result == Ok::<ResumePlace, ResumePlaceError>(ResumePlace::Beside),
            Some(kept) => if retained_destination@ != destination@ {
                result matches Err(refused) && refused.error@ == "resume-state-mismatch"@
                    && !refused.remove_workspace
            } else if kept.expires_unix_ms <= now {
                result matches Err(refused) && refused.error@ == "share-offline-or-expired"@
                    && refused.remove_workspace
            } else {
                result == Ok::<ResumePlace, ResumePlaceError>(
                    ResumePlace::Central(kept.expires_unix_ms),
                )
            },
        },
{
    match retention {
        None => Ok(ResumePlace::Beside),
        Some(kept) => {
            if !same_text(retained_destination, destination) {
                return Err(
                    ResumePlaceError {
                        error: "resume-state-mismatch".to_owned(),
                        remove_workspace: false,
                    },
                );
            }
            if kept.expires_unix_ms <= now {
                return Err(
                    ResumePlaceError {
                        error: "share-offline-or-expired".to_owned(),
                        remove_workspace: true,
                    },
                );
            }
            Ok(ResumePlace::Central(kept.expires_unix_ms))
        },
    }
}

/// What a checkpoint says about a transfer.
#[derive(Debug, Clone)]
pub struct CheckpointFacts {
    pub created_unix_ms: u64,
    pub checkpoint_generation: u64,
    pub final_filename: String,
    pub part_filename: String,
    pub file_size: u64,
    pub expected_sha256: [u8; 32],
    pub completed_bytes: u64,
    pub secure_state_digest: [u8; 32],
}

/// When a transfer with a checkpoint is no longer kept.
pub open spec fn checkpoint_expiry(checkpoint: CheckpointFacts, place: ResumePlace) -> u64 {
    match place {
        ResumePlace::Central(expires) => expires,
        ResumePlace::Beside => saturating_sum(
            checkpoint.created_unix_ms,
            MAX_INCOMING_RETENTION_MS,
        ),
    }
}

/// Why a checkpoint cannot be resumed, if it cannot.
pub open spec fn checkpoint_refusal(
    style: PathStyle,
    checkpoint: CheckpointFacts,
    place: ResumePlace,
    expected_generation: Option<u64>,
    destination: Seq<char>,
    artifact: Seq<char>,
    now: u64,
) -> Option<Seq<char>> {
    if checkpoint_expiry(checkpoint, place) <= now {
        Some("share-offline-or-expired"@)
    } else if (expected_generation matches Some(expected) && expected
        != checkpoint.checkpoint_generation) || checkpoint.part_filename@ != "payload.part"@ {
        Some("resume-state-mismatch"@)
    } else if filename_defect(checkpoint.final_filename@) is Some {
        filename_defect(checkpoint.final_filename@)
    } else if !is_child_of(
        style,
        joined_path(style, destination, without_tail(checkpoint.final_filename@)),
        destination,
    ) || !is_child_of(style, joined_path(style, artifact, "payload.part"@), artifact) {
        Some("native-incoming-destination-escaped"@)
    } else {
        None
    }
}

/// Where a resumed transfer goes on.
#[derive(Debug)]
pub struct IncomingResume {
    pub filename: String,
    pub final_path: String,
    pub part_path: String,
    pub retention_expires_unix_ms: u64,
}

/// Checks that a checkpoint is the one to resume, and says where the transfer goes on.
pub fn check_incoming_checkpoint(
    style: PathStyle,
    checkpoint: &CheckpointFacts,
    place: ResumePlace,
    expected_generation: Option<u64>,
    destination: &str,
    artifact: &str,
    now: u64,
) -> (result: Result<IncomingResume, String>)
    ensures
        ({
            let refusal = checkpoint_refusal(
                style,
                *checkpoint,
                place,
                expected_generation,
                destination@,
                artifact@,
                now,
            );
            match result {
                Ok(resume) => {
                    &&& refusal is None
                    &&& resume.filename@ == without_tail(checkpoint.final_filename@)
                    &&& resume.final_path@ == joined_path(style, destination@, resume.filename@)
                    &&& resume.part_path@ == joined_path(style, artifact@, "payload.part"@)
                    &&& resume.retention_expires_unix_ms == checkpoint_expiry(*checkpoint, place)
                },
                Err(error) => refusal == Some(error@),
            }
        }),
        result matches Ok(resume) ==> resume.retention_expires_unix_ms > now,
        result is Ok ==> match place {
            ResumePlace::Central(expires) => now < expires,
            ResumePlace::Beside => now < checkpoint.created_unix_ms + MAX_INCOMING_RETENTION_MS,
        },
{
    let retention_expires_unix_ms: u64 = match place {
        ResumePlace::Central(expires) => expires,
        ResumePlace::Beside => checkpoint.created_unix_ms.saturating_add(
            MAX_INCOMING_RETENTION_MS,
        ),
    };
    if retention_expires_unix_ms <= now {
        return Err("share-offline-or-expired".to_owned());
    }
    let stale: bool = match expected_generation {
        Some(expected) => expected != checkpoint.checkpoint_generation,
        None => false,
    };
    if stale || !same_text(checkpoint.part_filename.as_str(), "payload.part") {
        return Err("resume-state-mismatch".to_owned());
    }
    let filename = match sanitize_received_filename(checkpoint.final_filename.as_str()) {
        Ok(filename) => filename,
        Err(error) => {
            return Err(error);
        },
    };
    let final_path = join_path(style, destination, filename.as_str());
    match ensure_contained_destination(style, destination, final_path.as_str()) {
        Ok(()) => {},
        Err(error) => {
            return Err(error);
        },
    }
    let part_path = join_path(style, artifact, checkpoint.part_filename.as_str());
    match ensure_contained_destination(style, artifact, part_path.as_str()) {
        Ok(()) => {},
        Err(error) => {
            return Err(error);
        },
    }
    Ok(IncomingResume { filename, final_path, part_path, retention_expires_unix_ms })
}

/// Whether a record is that of an incoming transfer that goes on from a checkpoint.
pub open spec fn goes_on(
    record: IncomingNativeTransfer,
    lease: IncomingResumeLease,
    material: AuthorizationMaterial,
    checkpoint: CheckpointFacts,
    resume: IncomingResume,
) -> bool {
    &&& record.transfer_id@ == uuid_text(lease.transfer_id@)
    &&& record.invitation_id@ == uuid_text(material.invitation.body.invitation_id@)
    &&& record.receiver_identity == Some(lease.bootstrap.identity)
    &&& record.receiver_certificate_fingerprint_sha256
        == lease.bootstrap.identity.fingerprint_sha256_bytes
    &&& record.expires_unix_ms == material.invitation.body.expires_unix_ms
    &&& record.retention_expires_unix_ms == resume.retention_expires_unix_ms
    &&& record.created_unix_ms == checkpoint.created_unix_ms
    &&& is_fresh(record.mutable, IncomingNativeState::GatheringCandidates)
    &&& record.mutable.accepted_filename == Some(resume.filename)
    &&& record.mutable.expected_file_size == Some(checkpoint.file_size)
    &&& record.mutable.expected_sha256 == Some(checkpoint.expected_sha256)
    &&& record.mutable.final_path == Some(resume.final_path)
    &&& record.mutable.part_path == Some(resume.part_path)
    &&& record.mutable.bytes_skipped == checkpoint.completed_bytes
    &&& record.mutable.checkpoint_generation == checkpoint.checkpoint_generation
    &&& record.mutable.secure_state_digest == Some(checkpoint.secure_state_digest)
    &&& record.mutable.completed_checkpoint_bytes == checkpoint.completed_bytes
}

/// The directories of a resumed transfer.
#[derive(Debug)]
pub struct ResumeDirectories {
    pub destination_directory: String,
    pub artifact_directory: String,
    pub authorization_resume_path: String,
}

/// The record of an incoming transfer that goes on from a checkpoint.
pub fn resumed_incoming(
    lease: IncomingResumeLease,
    material: &AuthorizationMaterial,
    checkpoint: &CheckpointFacts,
    resume: IncomingResume,
    directories: ResumeDirectories,
) -> (record: IncomingNativeTransfer)
    ensures
        goes_on(record, lease, *material, *checkpoint, resume),
        record.destination_directory == directories.destination_directory,
        record.artifact_directory == directories.artifact_directory,
        record.authorization_resume_path == directories.authorization_resume_path,
{
    let mut mutable = empty_incoming(IncomingNativeState::GatheringCandidates);
    mutable.accepted_filename = Some(resume.filename);
    mutable.expected_file_size = Some(checkpoint.file_size);
    mutable.expected_sha256 = Some(checkpoint.expected_sha256);
    mutable.final_path = Some(resume.final_path);
    mutable.part_path = Some(resume.part_path);
    mutable.bytes_skipped = checkpoint.completed_bytes;
    mutable.checkpoint_generation = checkpoint.checkpoint_generation;
    mutable.secure_state_digest = Some(checkpoint.secure_state_digest);
    mutable.completed_checkpoint_bytes = checkpoint.completed_bytes;
    let fingerprint: [u8; 32] = lease.bootstrap.identity.fingerprint_sha256_bytes;
    IncomingNativeTransfer {
        transfer_id: uuid_string(&lease.transfer_id),
        invitation_id: uuid_string(&material.invitation.body.invitation_id),
        destination_directory: directories.destination_directory,
        artifact_directory: directories.artifact_directory,
        authorization_resume_path: directories.authorization_resume_path,
        receiver_identity: Some(lease.bootstrap.identity),
        receiver_certificate_fingerprint_sha256: fingerprint,
        expires_unix_ms: material.invitation.body.expires_unix_ms,
        retention_expires_unix_ms: resume.retention_expires_unix_ms,
        created_unix_ms: checkpoint.created_unix_ms,
        mutable,
    }
}

/// The step at which a resumption failed before there was a transfer to take up, and why.
pub enum FailedResumeStep {
    /// Finding the directories and the secret of the transfer.
    Preparing(String),
    /// Restoring its authorization.
    Restoring(String),
    /// Reading its checkpoint and finding its file, with the authorization restored.
    Reading(PersistedAuthorizationRestoreLease, String),
}

impl FailedResumeStep {
    /// Why the step failed.
    pub open spec fn reason(self) -> Seq<char> {
        match self {
            FailedResumeStep::Preparing(error) => error@,
            FailedResumeStep::Restoring(error) => error@,
            FailedResumeStep::Reading(_, error) => error@,
        }
    }
}

/// Gives up a resumption that failed: the prepared receiver is given back, and an authorization
/// that was restored for it is rolled back. Hands out why it failed.
pub fn abandon_incoming_resume(
    bootstraps: &mut Registry<String, ReceiverBootstrapRecord>,
    authorization: &mut AuthorizationRegistry,
    lease: IncomingResumeLease,
    failed: FailedResumeStep,
    now: u64,
) -> (error: String)
    requires
        old(bootstraps).wf(),
        old(authorization).wf(),
    ensures
        error@ == failed.reason(),
        final(bootstraps).wf(),
        final(bootstraps)@ == given_back(
            old(bootstraps)@,
            lease.bootstrap_id@,
            lease.bootstrap,
            now,
        ),
        final(authorization).wf(),
        final(authorization).log() == old(authorization).log(),
        final(authorization).policy() == old(authorization).policy(),
        final(authorization).records() == match failed {
            FailedResumeStep::Reading(restored, _) => rolled_back(
                old(authorization).records(),
                restored,
            ),
            _ => old(authorization).records(),
        },
{
    let error: String = match failed {
        FailedResumeStep::Preparing(error) => error,
        FailedResumeStep::Restoring(error) => error,
        FailedResumeStep::Reading(restored, error) => {
            rollback_persisted_restore(authorization, restored);
            error
        },
    };
    restore_receiver_bootstrap(bootstraps, lease.bootstrap_id, lease.bootstrap, now);
    error
}

/// The record of an incoming transfer whose run is under way.
pub open spec fn running_incoming(record: IncomingNativeTransfer) -> IncomingNativeTransfer {
    IncomingNativeTransfer {
        mutable: IncomingMutable { runtime_active: true, ..record.mutable },
        ..record
    }
}

/// Takes a resumed incoming transfer up, with its run under way. `validated` is whether its
/// checkpoint agrees with what is on disk. When it cannot be taken up, the restored authorization
/// is rolled back and the prepared receiver is given back.
pub fn flowshare_native_resume_incoming_transfer(
    incoming: &mut Registry<String, IncomingNativeTransfer>,
    bootstraps: &mut Registry<String, ReceiverBootstrapRecord>,
    authorization: &mut AuthorizationRegistry,
    record: IncomingNativeTransfer,
    validated: Result<(), String>,
    bootstrap_id: String,
    bootstrap_expires_unix_ms: u64,
    lease: PersistedAuthorizationRestoreLease,
    now: u64,
) -> (result: Result<IncomingNativeTransferSnapshot, String>)
    requires
        old(incoming).wf(),
        old(bootstraps).wf(),
        old(authorization).wf(),
    ensures
        final(incoming).wf(),
        final(bootstraps).wf(),
        final(authorization).wf(),
        ({
            let refusal = match validated {
                Err(error) => Some(error@),
                Ok(()) => incoming_insert_refusal(old(incoming)@, record.transfer_id@),
            };
            match refusal {
                None => {
                    &&& result matches Ok(snapshot) && snapshot.shows(running_incoming(record))
                    &&& final(incoming)@ == old(incoming)@.insert(
                        record.transfer_id@,
                        running_incoming(record),
                    )
                    &&& *final(bootstraps) == *old(bootstraps)
                    &&& *final(authorization) == *old(authorization)
                },
                Some(reason) => {
                    &&& result matches Err(error) && error@ == reason
                    &&& final(incoming)@ == old(incoming)@
                    &&& final(bootstraps)@ == match record.receiver_identity {
                        Some(identity) => given_back(
                            old(bootstraps)@,
                            bootstrap_id@,
                            ReceiverBootstrapRecord {
                                identity,
                                expires_unix_ms: bootstrap_expires_unix_ms,
                            },
                            now,
                        ),
                        None => old(bootstraps)@,
                    }
                    &&& final(authorization).log() == old(authorization).log()
                    &&& final(authorization).policy() == old(authorization).policy()
                    &&& final(authorization).records() == rolled_back(
                        old(authorization).records(),
                        lease,
                    )
                },
            }
        }),
{
    match validated {
        Ok(()) => {},
        Err(error) => {
            rollback_incoming_resume_setup(
                bootstraps,
                authorization,
                record,
                bootstrap_id,
                bootstrap_expires_unix_ms,
                lease,
                now,
            );
            return Err(error);
        },
    }
    if incoming.len() >= MAX_SPLIT_ROLE_RECORDS {
        rollback_incoming_resume_setup(
            bootstraps,
            authorization,
            record,
            bootstrap_id,
            bootstrap_expires_unix_ms,
            lease,
            now,
        );
        return Err("native-incoming-registry-capacity-reached".to_owned());
    }
    if incoming.contains(&record.transfer_id) {
        rollback_incoming_resume_setup(
            bootstraps,
            authorization,
            record,
            bootstrap_id,
            bootstrap_expires_unix_ms,
            lease,
            now,
        );
        return Err("native-incoming-transfer-exists".to_owned());
    }
    let mut running = record;
    running.mutable.runtime_active = true;
    let snapshot = incoming_snapshot(&running);
    match insert_incoming(incoming, running) {
        Ok(()) => Ok(snapshot),
        Err(error) => Err(error),
    }
}

/// Undoes what was set up for a resumption: the restored authorization is rolled back, and the
/// prepared receiver is given back where the record still has it.
pub fn rollback_incoming_resume_setup(
    bootstraps: &mut Registry<String, ReceiverBootstrapRecord>,
    authorization: &mut AuthorizationRegistry,
    record: IncomingNativeTransfer,
    bootstrap_id: String,
    bootstrap_expires_unix_ms: u64,
    lease: PersistedAuthorizationRestoreLease,
    now: u64,
)
    requires
        old(bootstraps).wf(),
        old(authorization).wf(),
    ensures
        final(bootstraps).wf(),
        final(authorization).wf(),
        final(bootstraps)@ == match record.receiver_identity {
            Some(identity) => given_back(
                old(bootstraps)@,
                bootstrap_id@,
                ReceiverBootstrapRecord { identity, expires_unix_ms: bootstrap_expires_unix_ms },
                now,
            ),
            None => old(bootstraps)@,
        },
        final(authorization).log() == old(authorization).log(),
        final(authorization).policy() == old(authorization).policy(),
        final(authorization).records() == rolled_back(old(authorization).records(), lease),
{
    rollback_persisted_restore(authorization, lease);
    match record.receiver_identity {
        Some(identity) => {
            restore_receiver_bootstrap(
                bootstraps,
                bootstrap_id,
                ReceiverBootstrapRecord { identity, expires_unix_ms: bootstrap_expires_unix_ms },
                now,
            );
        },
        None => {},
    }
}

/// What is stored of an outgoing transfer, so that it can be resumed.
#[derive(Debug, Clone)]
pub struct PersistedOutgoingState {
    pub version: u16,
    pub transfer_id: String,
    pub invitation_id: String,
    pub source_path: String,
    pub source_identity: SourceIdentity,
    pub display_filename: String,
    pub file_size: u64,
    pub expected_sha256: [u8; 32],
    pub candidate_privacy_policy: CandidatePrivacyPolicy,
    pub expires_unix_ms: u64,
    pub created_unix_ms: u64,
    pub previous_quic_session_id: Option<String>,
    pub peer_checkpoint_generation: Option<u64>,
    pub peer_state_digest: Option<[u8; 32]>,
    pub peer_completed_bytes: u64,
    pub authentication_tag: [u8; 32],
}

/// Whether a state is the one of a transfer, before it is tagged.
pub open spec fn is_state_of(
    state: PersistedOutgoingState,
    record: OutgoingNativeTransfer,
) -> bool {
    &&& state.version == OUTGOING_STATE_VERSION
    &&& state.transfer_id@ == record.transfer_id@
    &&& state.invitation_id@ == record.invitation_id@
    &&& state.source_path@ == record.source_path@
    &&& state.source_identity.same(record.source_identity)
    &&& state.display_filename@ == record.display_filename@
    &&& state.file_size == record.file_size
    &&& state.expected_sha256 == record.expected_sha256
    &&& state.candidate_privacy_policy == record.candidate_privacy_policy
    &&& state.expires_unix_ms == record.expires_unix_ms
    &&& state.created_unix_ms == record.created_unix_ms
    &&& shown(state.previous_quic_session_id) == shown(record.mutable.quic_session_id)
    &&& state.peer_checkpoint_generation == record.mutable.peer_checkpoint_generation
    &&& state.peer_state_digest == record.mutable.peer_state_digest
    &&& state.peer_completed_bytes == record.mutable.peer_completed_bytes
    &&& state.authentication_tag@ == Seq::new(32, |i: int| 0u8)
}

fn copied_text(text: &Option<String>) -> (copy: Option<String>)
    ensures
        shown(copy) == shown(*text),
{
    match text {
        Some(inner) => Some(inner.clone()),
        None => None,
    }
}

/// What is stored of an outgoing transfer, not yet tagged.
pub fn persisted_outgoing(record: &OutgoingNativeTransfer) -> (state: PersistedOutgoingState)
    ensures
        is_state_of(state, *record),
{
    let state = PersistedOutgoingState {
        version: OUTGOING_STATE_VERSION,
        transfer_id: record.transfer_id.clone(),
        invitation_id: record.invitation_id.clone(),
        source_path: record.source_path.clone(),
        source_identity: SourceIdentity {
            size: record.source_identity.size,
            modified_unix_ms: record.source_identity.modified_unix_ms,
            platform_file_id: copied_text(&record.source_identity.platform_file_id),
            canonical_path: copied_text(&record.source_identity.canonical_path),
        },
        display_filename: record.display_filename.clone(),
        file_size: record.file_size,
        expected_sha256: record.expected_sha256,
        candidate_privacy_policy: record.candidate_privacy_policy,
        expires_unix_ms: record.expires_unix_ms,
        created_unix_ms: record.created_unix_ms,
        previous_quic_session_id: copied_text(&record.mutable.quic_session_id),
        peer_checkpoint_generation: record.mutable.peer_checkpoint_generation,
        peer_state_digest: record.mutable.peer_state_digest,
        peer_completed_bytes: record.mutable.peer_completed_bytes,
        authentication_tag: [0u8; 32],
    };
    assert(state.authentication_tag@ =~= Seq::new(32, |i: int| 0u8));
    state
}

/// The tag of a stored state, over the bytes that it is written as with an empty tag.
pub fn persisted_outgoing_state_tag(payload: &[u8], checkpoint_key: &[u8; 32]) -> (tag: [u8; 32])
    ensures
        tag == hmac_sha256_tag(checkpoint_key@, payload@),
{
    checkpoint_mac(checkpoint_key, payload)
}

/// Whether a stored state is genuine and that of a transfer: its version and its identifiers are
/// right, and so is its tag over the bytes that it is written as with an empty tag.
pub open spec fn is_genuine(
    state: PersistedOutgoingState,
    payload: Seq<u8>,
    transfer_id: [u8; 16],
    invitation_id: Seq<u8>,
    checkpoint_key: Seq<u8>,
) -> bool {
    &&& state.version == OUTGOING_STATE_VERSION
    &&& parsed_uuid(state.transfer_id@) == Some(transfer_id)
    &&& state.invitation_id@ == uuid_text(invitation_id)
    &&& state.authentication_tag@ == hmac_sha256_tag(checkpoint_key, payload)@
}

/// Whether a stored state is genuine and that of a transfer.
pub fn check_persisted_outgoing(
    state: &PersistedOutgoingState,
    payload: &[u8],
    transfer_id: &[u8; 16],
    invitation_id: &[u8; 16],
    checkpoint_key: &[u8; 32],
) -> (genuine: bool)
    ensures
        genuine == is_genuine(
            *state,
            payload@,
            *transfer_id,
            invitation_id@,
            checkpoint_key@,
        ),
{
    if state.version != OUTGOING_STATE_VERSION {
        return false;
    }
    let same_transfer: bool = match uuid_parse(state.transfer_id.as_str()) {
        Some(id) => {
            let same: bool = bytes_equal(&id, transfer_id);
            proof {
                if same {
                    assert(id =~= *transfer_id);
                }
            }
            same
        },
        None => false,
    };
    if !same_transfer || !same_text(
        state.invitation_id.as_str(),
        uuid_string(invitation_id).as_str(),
    ) {
        return false;
    }
    let expected: [u8; 32] = persisted_outgoing_state_tag(payload, checkpoint_key);
    constant_time_equal(&state.authentication_tag, &expected)
}

/// What is stored of an outgoing transfer is taken for genuine when it is read back for the same
/// transfer under the same key, and for no other transfer or invitation.
pub proof fn law_stored_state_is_genuine(
    record: OutgoingNativeTransfer,
    untagged: PersistedOutgoingState,
    tag: [u8; 32],
    payload: Seq<u8>,
    transfer_id: [u8; 16],
    invitation_id: Seq<u8>,
    checkpoint_key: Seq<u8>,
)
    requires
        is_state_of(untagged, record),
        tag == hmac_sha256_tag(checkpoint_key, payload),
    ensures
        is_genuine(
            PersistedOutgoingState { authentication_tag: tag, ..untagged },
            payload,
            transfer_id,
            invitation_id,
            checkpoint_key,
        ) == (parsed_uuid(record.transfer_id@) == Some(transfer_id) && record.invitation_id@
            == uuid_text(invitation_id)),
{
}

/// The genuine state of a transfer, of the two that may be stored: the current one, or the one
/// before it where the current one is not genuine. Each comes with the bytes that its tag is
/// taken over.
pub fn choose_persisted_outgoing(
    current: Option<(PersistedOutgoingState, Vec<u8>)>,
    previous: Option<(PersistedOutgoingState, Vec<u8>)>,
    transfer_id: &[u8; 16],
    invitation_id: &[u8; 16],
    checkpoint_key: &[u8; 32],
) -> (result: Result<PersistedOutgoingState, String>)
    ensures
        ({
            let genuine = |stored: Option<(PersistedOutgoingState, Vec<u8>)>|
                match stored {
                    Some(pair) => is_genuine(
                        pair.0,
                        pair.1@,
                        *transfer_id,
                        invitation_id@,
                        checkpoint_key@,
                    ),
                    None => false,
                };
            match result {
                Ok(state) => if genuine(current) {
                    state == (current->0).0
                } else {
                    genuine(previous) && state == (previous->0).0
                },
                Err(error) => !genuine(current) && !genuine(previous) && error@
                    == "native-outgoing-state-unavailable"@,
            }
        }),
{
    if let Some((state, payload)) = current {
        if check_persisted_outgoing(
            &state,
            payload.as_slice(),
            transfer_id,
            invitation_id,
            checkpoint_key,
        ) {
            return Ok(state);
        }
    }
    if let Some((state, payload)) = previous {
        if check_persisted_outgoing(
            &state,
            payload.as_slice(),
            transfer_id,
            invitation_id,
            checkpoint_key,
        ) {
            return Ok(state);
        }
    }
    Err("native-outgoing-state-unavailable".to_owned())
}

#[derive(Debug)]
pub struct ResumeOutgoingTransferRequest {
    pub transfer_id: String,
    pub receiver_bootstrap_package: String,
    pub source_handle: Option<String>,
    pub expected_checkpoint_generation: Option<u64>,
    pub signaling_endpoint: String,
    pub gathering: Option<ConnectivityGatherOptions>,
    pub signaling_timeout_ms: Option<u64>,
    pub connectivity_timeout_ms: Option<u64>,
}

/// Begins to take up an outgoing transfer again: it must not be running.
pub fn begin_outgoing_resume(
    outgoing: &Registry<String, OutgoingNativeTransfer>,
    request: &ResumeOutgoingTransferRequest,
) -> (result: Result<[u8; 16], String>)
    requires
        outgoing.wf(),
    ensures
        match parsed_uuid(request.transfer_id@) {
            None => result matches Err(error) && error@ == "native-transfer-id-invalid"@,
            Some(id) => if outgoing@.contains_key(uuid_text(id@)) {
                result matches Err(error) && error@ == "resume-already-active"@
            } else {
                result == Ok::<[u8; 16], String>(id)
            },
        },
{
    let id: [u8; 16] = match uuid_parse(request.transfer_id.as_str()) {
        Some(id) => id,
        None => {
            return Err("native-transfer-id-invalid".to_owned());
        },
    };
    if outgoing.contains(&uuid_string(&id)) {
        return Err("resume-already-active".to_owned());
    }
    Ok(id)
}

/// Whether a stored state holds what a resumption needs, and is the one that is asked for.
pub open spec fn is_resumable(
    state: PersistedOutgoingState,
    expected_generation: Option<u64>,
) -> bool {
    &&& state.peer_checkpoint_generation is Some
    &&& expected_generation is Some ==> expected_generation == state.peer_checkpoint_generation
    &&& state.peer_state_digest is Some
    &&& state.peer_completed_bytes <= state.file_size
    &&& state.previous_quic_session_id is Some
}

/// The generation of the peer's checkpoint from which an outgoing transfer goes on.
pub fn check_outgoing_resumable(
    state: &PersistedOutgoingState,
    expected_generation: Option<u64>,
) -> (result: Result<u64, String>)
    ensures
        match result {
            Ok(generation) => is_resumable(*state, expected_generation)
                && state.peer_checkpoint_generation == Some(generation),
            Err(error) => !is_resumable(*state, expected_generation) && error@
                == "resume-state-mismatch"@,
        },
{
    let generation: u64 = match state.peer_checkpoint_generation {
        Some(generation) => generation,
        None => {
            return Err("resume-state-mismatch".to_owned());
        },
    };
    let stale: bool = match expected_generation {
        Some(expected) => expected != generation,
        None => false,
    };
    if stale || state.peer_state_digest.is_none() || state.peer_completed_bytes > state.file_size
        || state.previous_quic_session_id.is_none() {
        return Err("resume-state-mismatch".to_owned());
    }
    Ok(generation)
}

/// A source file as it is now.
#[derive(Debug)]
pub struct ReopenedSource {
    pub identity: SourceIdentity,
    /// Whether the platform handed the file over again.
    pub rebound: bool,
    /// The name to show, where the platform handed the file over with one.
    pub registered_name: Option<String>,
}

/// Whether only the content of a source can tell whether it is the same: it was handed over
/// again and has the same size, but is known under another identity.
pub open spec fn needs_content(state: PersistedOutgoingState, source: ReopenedSource) -> bool {
    &&& source.rebound
    &&& source.identity.size == state.file_size
    &&& !source.identity.same(state.source_identity)
}

/// Whether only the content of a source can tell whether it is the same.
pub fn source_content_decides(state: &PersistedOutgoingState, source: &ReopenedSource) -> (decides:
    bool)
    ensures
        decides == needs_content(*state, *source),
{
    source.rebound && source.identity.size == state.file_size && !source.identity.matches(
        &state.source_identity,
    )
}

/// Why a source is not the one that the transfer began with, if it is not.
pub open spec fn source_change(
    state: PersistedOutgoingState,
    source: ReopenedSource,
    content_matches: bool,
) -> Option<Seq<char>> {
    let same = source.identity.same(state.source_identity);
    if !same && !(source.rebound && needs_content(state, source) && content_matches)
        || source.identity.size != state.file_size || (source.registered_name matches Some(name)
        && name@ != state.display_filename@) {
        Some("resume-source-changed"@)
    } else if filename_defect(state.display_filename@) is Some {
        filename_defect(state.display_filename@)
    } else if without_tail(state.display_filename@) != state.display_filename@ {
        Some("resume-source-changed"@)
    } else {
        None
    }
}

/// Checks that a source is the one that the transfer began with. `content_matches` is asked for
/// only where the content decides.
pub fn check_resumed_source(
    state: &PersistedOutgoingState,
    source: &ReopenedSource,
    content_matches: bool,
) -> (result: Result<(), String>)
    ensures
        match result {
            Ok(()) => source_change(*state, *source, content_matches) is None,
            Err(error) => source_change(*state, *source, content_matches) == Some(error@),
        },
{
    let same: bool = source.identity.matches(&state.source_identity);
    let found_again: bool = source_content_decides(state, source) && content_matches;
    let renamed: bool = match &source.registered_name {
        Some(name) => !same_text(name.as_str(), state.display_filename.as_str()),
        None => false,
    };
    if (!source.rebound && !same) || (source.rebound && !same && !found_again)
        || source.identity.size != state.file_size || renamed {
        return Err("resume-source-changed".to_owned());
    }
    match sanitize_received_filename(state.display_filename.as_str()) {
        Ok(name) => if same_text(name.as_str(), state.display_filename.as_str()) {
            Ok(())
        } else {
            Err("resume-source-changed".to_owned())
        },
        Err(error) => Err(error),
    }
}

/// Whether a record is that of an outgoing transfer that goes on from a stored state, with its run
/// under way.
pub open spec fn goes_on_sending(
    record: OutgoingNativeTransfer,
    transfer_id: Seq<u8>,
    state: PersistedOutgoingState,
) -> bool {
    &&& record.transfer_id@ == uuid_text(transfer_id)
    &&& record.invitation_id == state.invitation_id
    &&& record.display_filename == state.display_filename
    &&& record.file_size == state.file_size
    &&& record.expected_sha256 == state.expected_sha256
    &&& record.candidate_privacy_policy == state.candidate_privacy_policy
    &&& record.previous_quic_session_id == state.previous_quic_session_id
    &&& record.expires_unix_ms == state.expires_unix_ms
    &&& record.created_unix_ms == state.created_unix_ms
    &&& record.mutable.runtime_active
    &&& is_fresh_outgoing(
        OutgoingMutable { runtime_active: false, ..record.mutable },
        OutgoingNativeState::GatheringCandidates,
    )
    &&& record.mutable.bytes_skipped == state.peer_completed_bytes
    &&& record.mutable.peer_checkpoint_generation == state.peer_checkpoint_generation
    &&& record.mutable.peer_state_digest == state.peer_state_digest
    &&& record.mutable.peer_completed_bytes == state.peer_completed_bytes
}

/// Takes a resumed outgoing transfer up.
pub fn flowshare_native_resume_outgoing_transfer(
    outgoing: &mut Registry<String, OutgoingNativeTransfer>,
    transfer_id: &[u8; 16],
    state: PersistedOutgoingState,
    source_path: String,
    source: ReopenedSource,
    receiver: DecodedReceiverBootstrap,
    authorization_resume_path: String,
    outgoing_state_path: String,
) -> (result: Result<OutgoingNativeTransferSnapshot, String>)
    requires
        old(outgoing).wf(),
    ensures
        final(outgoing).wf(),
        ({
            let id = uuid_text(transfer_id@);
            match result {
                Ok(snapshot) => {
                    let record = final(outgoing)@[id];
                    &&& outgoing_insert_refusal(old(outgoing)@, id) is None
                    &&& final(outgoing)@ == old(outgoing)@.insert(id, record)
                    &&& goes_on_sending(record, transfer_id@, state)
                    &&& record.source_path == source_path
                    &&& record.source_identity == source.identity
                    &&& record.receiver_certificate == receiver.certificate
                    &&& record.receiver_certificate_fingerprint_sha256
                        == receiver.certificate_fingerprint_sha256
                    &&& record.authorization_resume_path == authorization_resume_path
                    &&& record.outgoing_state_path == outgoing_state_path
                    &&& snapshot.shows(record)
                },
                Err(error) => {
                    &&& outgoing_insert_refusal(old(outgoing)@, id) == Some(error@)
                    &&& *final(outgoing) == *old(outgoing)
                },
            }
        }),
{
    let mut mutable = empty_outgoing(OutgoingNativeState::GatheringCandidates);
    mutable.bytes_skipped = state.peer_completed_bytes;
    mutable.peer_checkpoint_generation = state.peer_checkpoint_generation;
    mutable.peer_state_digest = state.peer_state_digest;
    mutable.peer_completed_bytes = state.peer_completed_bytes;
    mutable.runtime_active = true;
    let record = OutgoingNativeTransfer {
        transfer_id: uuid_string(transfer_id),
        invitation_id: state.invitation_id,
        source_path,
        source_identity: source.identity,
        display_filename: state.display_filename,
        file_size: state.file_size,
        expected_sha256: state.expected_sha256,
        receiver_certificate: receiver.certificate,
        receiver_certificate_fingerprint_sha256: receiver.certificate_fingerprint_sha256,
        candidate_privacy_policy: state.candidate_privacy_policy,
        authorization_resume_path,
        outgoing_state_path,
        previous_quic_session_id: state.previous_quic_session_id,
        expires_unix_ms: state.expires_unix_ms,
        created_unix_ms: state.created_unix_ms,
        mutable,
    };
    let snapshot = outgoing_snapshot(&record);
    match insert_outgoing(outgoing, record) {
        Ok(()) => Ok(snapshot),
        Err(error) => Err(error),
    }
}

#[derive(Debug)]
pub struct ScanIncomingResumableRequest {
    pub destination_directories: Vec<String>,
}

#[derive(Debug)]
pub struct DiscardOutgoingResumableRequest {
    pub transfer_id: String,
}

#[derive(Debug)]
pub struct DiscardIncomingResumableRequest {
    pub transfer_id: String,
    pub destination_directory: String,
}

/// An incoming transfer that can be resumed.
#[derive(Debug, Clone)]
pub struct IncomingResumableDiscovery {
    pub transfer_id: String,
    pub invitation_id: String,
    pub destination_directory: String,
    pub resume_metadata_path: String,
    pub final_filename: String,
    pub file_size: u64,
    pub checkpoint_generation: u64,
    pub completed_bytes: u64,
    pub missing_bytes: u64,
    pub checkpoint_authenticated: bool,
    pub block_hashes_authenticated: bool,
    pub part_file_present: bool,
    pub authorization_secret: &'static str,
}

/// What a discovery says.
pub struct IncomingDiscoveryFacts {
    pub transfer_id: Seq<char>,
    pub invitation_id: Seq<char>,
    pub destination_directory: Seq<char>,
    pub resume_metadata_path: Seq<char>,
    pub final_filename: Seq<char>,
    pub file_size: u64,
    pub checkpoint_generation: u64,
    pub completed_bytes: u64,
    pub missing_bytes: u64,
    pub checkpoint_authenticated: bool,
    pub block_hashes_authenticated: bool,
    pub part_file_present: bool,
    pub authorization_secret: Seq<char>,
}

impl View for IncomingResumableDiscovery {
    type V = IncomingDiscoveryFacts;

    open spec fn view(&self) -> IncomingDiscoveryFacts {
        IncomingDiscoveryFacts {
            transfer_id: self.transfer_id@,
            invitation_id: self.invitation_id@,
            destination_directory: self.destination_directory@,
            resume_metadata_path: self.resume_metadata_path@,
            final_filename: self.final_filename@,
            file_size: self.file_size,
            checkpoint_generation: self.checkpoint_generation,
            completed_bytes: self.completed_bytes,
            missing_bytes: self.missing_bytes,
            checkpoint_authenticated: self.checkpoint_authenticated,
            block_hashes_authenticated: self.block_hashes_authenticated,
            part_file_present: self.part_file_present,
            authorization_secret: self.authorization_secret@,
        }
    }
}

impl Ranked for IncomingResumableDiscovery {
    open spec fn precedes(left: IncomingDiscoveryFacts, right: IncomingDiscoveryFacts) -> bool {
        text_before(left.transfer_id, right.transfer_id)
    }

    proof fn lemma_order(
        a: IncomingDiscoveryFacts,
        b: IncomingDiscoveryFacts,
        c: IncomingDiscoveryFacts,
    ) {
        crate::ordering::lemma_text_order(a.transfer_id, b.transfer_id, c.transfer_id);
    }

    fn stands_before(&self, other: &Self) -> (result: bool) {
        is_text_before(self.transfer_id.as_str(), other.transfer_id.as_str())
    }
}

/// What was found on disk of an incoming transfer.
#[derive(Debug)]
pub struct IncomingFinding {
    /// The transfer that the stored secret is for.
    pub secret_transfer_id: [u8; 16],
    pub invitation_id: [u8; 16],
    pub checkpoint: CheckpointFacts,
    /// Whether the digests of the blocks are there and genuine.
    pub block_hashes_authenticated: bool,
    /// Whether the received data is there and is that of the checkpoint.
    pub part_file_present: bool,
}

/// Whether what was found of a transfer can be resumed.
pub open spec fn can_resume(finding: IncomingFinding, transfer_id: [u8; 16], now: u64) -> bool {
    &&& finding.secret_transfer_id == transfer_id
    &&& saturating_sum(finding.checkpoint.created_unix_ms, MAX_INCOMING_RETENTION_MS) > now
    &&& finding.block_hashes_authenticated
    &&& filename_defect(finding.checkpoint.final_filename@) is None
    &&& finding.checkpoint.part_filename@ == "payload.part"@
}

/// What a discovery says of a transfer.
pub open spec fn discovery_of(
    finding: IncomingFinding,
    transfer_id: Seq<u8>,
    destination: Seq<char>,
    resume_path: Seq<char>,
) -> IncomingDiscoveryFacts {
    let checkpoint = finding.checkpoint;
    IncomingDiscoveryFacts {
        transfer_id: uuid_text(transfer_id),
        invitation_id: uuid_text(finding.invitation_id@),
        destination_directory: destination,
        resume_metadata_path: resume_path,
        final_filename: checkpoint.final_filename@,
        file_size: checkpoint.file_size,
        checkpoint_generation: checkpoint.checkpoint_generation,
        completed_bytes: checkpoint.completed_bytes,
        missing_bytes: if checkpoint.completed_bytes <= checkpoint.file_size {
            (checkpoint.file_size - checkpoint.completed_bytes) as u64
        } else {
            0
        },
        checkpoint_authenticated: true,
        block_hashes_authenticated: true,
        part_file_present: finding.part_file_present,
        authorization_secret: "[REDACTED]"@,
    }
}

/// What is shown of an incoming transfer that can be resumed.
pub fn inspect_incoming_resumable(
    finding: &IncomingFinding,
    transfer_id: &[u8; 16],
    destination: &str,
    resume_path: &str,
    now: u64,
) -> (discovery: Option<IncomingResumableDiscovery>)
    ensures
        match discovery {
            Some(item) => can_resume(*finding, *transfer_id, now) && item@ == discovery_of(
                *finding,
                transfer_id@,
                destination@,
                resume_path@,
            ),
            None => !can_resume(*finding, *transfer_id, now),
        },
{
    let same: bool = bytes_equal(&finding.secret_transfer_id, transfer_id);
    proof {
        if same {
            assert(finding.secret_transfer_id =~= *transfer_id);
        }
    }
    if !same || finding.checkpoint.created_unix_ms.saturating_add(MAX_INCOMING_RETENTION_MS)
        <= now || !finding.block_hashes_authenticated {
        return None;
    }
    let usable: bool = match sanitize_received_filename(
        finding.checkpoint.final_filename.as_str(),
    ) {
        Ok(_) => true,
        Err(_) => false,
    };
    if !usable || !same_text(finding.checkpoint.part_filename.as_str(), "payload.part") {
        return None;
    }
    Some(
        IncomingResumableDiscovery {
            transfer_id: uuid_string(transfer_id),
            invitation_id: uuid_string(&finding.invitation_id),
            destination_directory: destination.to_owned(),
            resume_metadata_path: resume_path.to_owned(),
            final_filename: finding.checkpoint.final_filename.clone(),
            file_size: finding.checkpoint.file_size,
            checkpoint_generation: finding.checkpoint.checkpoint_generation,
            completed_bytes: finding.checkpoint.completed_bytes,
            missing_bytes: finding.checkpoint.file_size.saturating_sub(
                finding.checkpoint.completed_bytes,
            ),
            checkpoint_authenticated: true,
            block_hashes_authenticated: true,
            part_file_present: finding.part_file_present,
            authorization_secret: "[REDACTED]",
        },
    )
}

/// A search for incoming transfers that can be resumed.
#[derive(Debug)]
pub struct IncomingScan {
    discovered: Vec<IncomingResumableDiscovery>,
    inspected: usize,
}

impl IncomingScan {
    /// What was found so far.
    pub closed spec fn found(self) -> Seq<IncomingDiscoveryFacts> {
        views(self.discovered@)
    }

    /// How many entries of the present directory were looked at.
    pub closed spec fn looked_at(self) -> int {
        self.inspected as int
    }

    /// Starts a search in one to sixteen directories.
    pub fn begin(request: &ScanIncomingResumableRequest) -> (result: Result<Self, String>)
        ensures
            match result {
                Ok(scan) => 1 <= request.destination_directories@.len() <= 16
                    && scan.found().len() == 0 && scan.looked_at() == 0,
                Err(error) => !(1 <= request.destination_directories@.len() <= 16) && error@
                    == "resume-scan-location-count-invalid"@,
            },
    {
        if request.destination_directories.len() == 0 || request.destination_directories.len()
            > 16 {
            return Err("resume-scan-location-count-invalid".to_owned());
        }
        Ok(IncomingScan { discovered: Vec::new(), inspected: 0 })
    }

    /// Whether the central directory is searched no further.
    pub fn is_full(&self) -> (full: bool)
        ensures
            full == (self.found().len() >= MAX_SPLIT_ROLE_RECORDS),
    {
        self.discovered.len() >= MAX_SPLIT_ROLE_RECORDS
    }

    /// Goes on to another directory.
    pub fn enter_directory(&mut self)
        ensures
            final(self).found() == old(self).found(),
            final(self).looked_at() == 0,
    {
        self.inspected = 0;
    }

    /// Whether one more entry of the present directory is looked at.
    pub fn looks_at_another(&mut self) -> (looks: bool)
        ensures
            final(self).found() == old(self).found(),
            looks == (old(self).looked_at() < MAX_SPLIT_ROLE_RECORDS),
            final(self).looked_at() == old(self).looked_at() + if looks {
                1int
            } else {
                0
            },
    {
        if self.inspected >= MAX_SPLIT_ROLE_RECORDS {
            return false;
        }
        self.inspected = self.inspected + 1;
        true
    }

    /// Whether a transfer was found already.
    pub open spec fn has(self, transfer_id: Seq<char>) -> bool {
        exists|i: int|
            0 <= i < self.found().len() && (#[trigger] self.found()[i]).transfer_id == transfer_id
    }

    /// The transfer that an entry of a directory is for, if it is for one that was not found
    /// already.
    pub fn wants(&self, entry_name: &str) -> (wanted: Option<[u8; 16]>)
        ensures
            match wanted {
                Some(id) => parsed_uuid(entry_name@) == Some(id) && !self.has(uuid_text(id@)),
                None => parsed_uuid(entry_name@) matches Some(id) ==> self.has(uuid_text(id@)),
            },
    {
        let id: [u8; 16] = match uuid_parse(entry_name) {
            Some(id) => id,
            None => {
                return None;
            },
        };
        let text: String = uuid_string(&id);
        let mut index: usize = 0;
        while index < self.discovered.len()
            invariant
                index <= self.discovered.len(),
                text@ == uuid_text(id@),
                parsed_uuid(entry_name@) == Some(id),
                forall|i: int| 0 <= i < index ==> (#[trigger] self.found()[i]).transfer_id != text@,
            decreases self.discovered.len() - index,
        {
            if same_text(self.discovered[index].transfer_id.as_str(), text.as_str()) {
                assert(self.found()[index as int].transfer_id == text@);
                return None;
            }
            index += 1;
        }
        Some(id)
    }

    /// Takes a finding up.
    pub fn take(&mut self, discovery: IncomingResumableDiscovery)
        ensures
            final(self).found() == old(self).found().push(discovery@),
            final(self).looked_at() == old(self).looked_at(),
    {
        let ghost before = self.discovered@;
        self.discovered.push(discovery);
        assert(views(self.discovered@) =~= views(before).push(discovery@));
    }

    /// Ends the search: the findings in the order of their identifiers, not too many of them.
    pub fn finish(self) -> (discovered: Vec<IncomingResumableDiscovery>)
        ensures
            ({
                let all = in_order::<IncomingResumableDiscovery>(self.found());
                &&& all.len() == self.found().len()
                &&& views(discovered@) == if all.len() > MAX_SPLIT_ROLE_RECORDS {
                    all.take(MAX_SPLIT_ROLE_RECORDS as int)
                } else {
                    all
                }
            }),
    {
        let mut discovered: Vec<IncomingResumableDiscovery> = self.discovered;
        proof {
            crate::ordering::lemma_in_order::<IncomingResumableDiscovery>(views(discovered@));
        }
        sort(&mut discovered);
        let ghost sorted = discovered@;
        if discovered.len() > MAX_SPLIT_ROLE_RECORDS {
            discovered.truncate(MAX_SPLIT_ROLE_RECORDS);
            assert(views(discovered@) =~= views(sorted).take(MAX_SPLIT_ROLE_RECORDS as int));
        }
        discovered
    }
}

/// An outgoing transfer that can be resumed.
#[derive(Debug, Clone)]
pub struct OutgoingResumableDiscovery {
    pub transfer_id: String,
    pub invitation_id: String,
    pub source_path: String,
    pub display_filename: String,
    pub file_size: u64,
    pub checkpoint_generation: u64,
    pub peer_completed_bytes: u64,
    pub missing_bytes: u64,
    pub protected_state_authenticated: bool,
    pub source_identity_matches: bool,
    pub authorization_secret: &'static str,
}

/// Whether a discovery shows a stored state.
pub open spec fn discovers(
    discovery: OutgoingResumableDiscovery,
    state: PersistedOutgoingState,
    source_identity: Option<SourceIdentity>,
) -> bool {
    &&& discovery.transfer_id@ == state.transfer_id@
    &&& discovery.invitation_id@ == state.invitation_id@
    &&& discovery.source_path@ == state.source_path@
    &&& discovery.display_filename@ == state.display_filename@
    &&& discovery.file_size == state.file_size
    &&& Some(discovery.checkpoint_generation) == state.peer_checkpoint_generation
    &&& discovery.peer_completed_bytes == state.peer_completed_bytes
    &&& discovery.missing_bytes == if state.peer_completed_bytes <= state.file_size {
        state.file_size - state.peer_completed_bytes
    } else {
        0
    }
    &&& discovery.protected_state_authenticated
    &&& discovery.source_identity_matches == (source_identity matches Some(identity)
        && identity.same(state.source_identity))
    &&& discovery.authorization_secret@ == "[REDACTED]"@
}

/// What is shown of an outgoing transfer that can be resumed: its genuine state, and whether its
/// source is still the same.
pub fn inspect_outgoing_resumable(
    state: &PersistedOutgoingState,
    source_identity: &Option<SourceIdentity>,
) -> (discovery: Option<OutgoingResumableDiscovery>)
    ensures
        match discovery {
            Some(item) => state.peer_checkpoint_generation is Some && state.peer_state_digest is Some
                && state.previous_quic_session_id is Some && discovers(
                item,
                *state,
                *source_identity,
            ),
            None => state.peer_checkpoint_generation is None || state.peer_state_digest is None
                || state.previous_quic_session_id is None,
        },
{
    let generation: u64 = match state.peer_checkpoint_generation {
        Some(generation) => generation,
        None => {
            return None;
        },
    };
    if state.peer_state_digest.is_none() || state.previous_quic_session_id.is_none() {
        return None;
    }
    let source_identity_matches: bool = match source_identity {
        Some(identity) => identity.matches(&state.source_identity),
        None => false,
    };
    Some(
        OutgoingResumableDiscovery {
            transfer_id: state.transfer_id.clone(),
            invitation_id: state.invitation_id.clone(),
            source_path: state.source_path.clone(),
            display_filename: state.display_filename.clone(),
            file_size: state.file_size,
            checkpoint_generation: generation,
            peer_completed_bytes: state.peer_completed_bytes,
            missing_bytes: state.file_size.saturating_sub(state.peer_completed_bytes),
            protected_state_authenticated: true,
            source_identity_matches,
            authorization_secret: "[REDACTED]",
        },
    )
}

/// Whether a transfer is still kept.
pub fn is_still_kept(retention: &PersistedIncomingRetention, now: u64) -> (kept: bool)
    ensures
        kept == (retention.expires_unix_ms > now),
{
    retention.expires_unix_ms > now
}

/// Whether what is left of a transfer is removed now: it is no longer kept, and no run is on it.
/// `runtime_active` is that of its record, where it has one.
pub fn cleanup_is_due(
    retention: &PersistedIncomingRetention,
    runtime_active: Option<bool>,
    now: u64,
) -> (due: bool)
    ensures
        due == (retention.expires_unix_ms <= now && runtime_active != Some(true)),
{
    if retention.expires_unix_ms > now {
        return false;
    }
    match runtime_active {
        Some(active) => !active,
        None => true,
    }
}

/// Where the records of a transfer that is to be discarded are. They must be those for the
/// destination that is asked for; whether they have run out does not matter here.
pub fn discard_place(
    retention: &Option<PersistedIncomingRetention>,
    retained_destination: &str,
    destination: &str,
) -> (result: Result<ResumePlace, String>)
    ensures
        match *retention {
            None => result == Ok::<ResumePlace, String>(ResumePlace::Beside),
            Some(kept) => if retained_destination@ == destination@ {
                result == Ok::<ResumePlace, String>(ResumePlace::Central(kept.expires_unix_ms))
            } else {
                result matches Err(error) && error@ == "resume-state-mismatch"@
            },
        },
{
    match retention {
        None => Ok(ResumePlace::Beside),
        Some(kept) => {
            if same_text(retained_destination, destination) {
                Ok(ResumePlace::Central(kept.expires_unix_ms))
            } else {
                Err("resume-state-mismatch".to_owned())
            }
        },
    }
}

/// The file with the received data of a transfer that is to be discarded. Its checkpoint must
/// name the one file that such data is ever kept in.
pub fn discarded_part(style: PathStyle, checkpoint: &CheckpointFacts, artifact: &str) -> (result:
    Result<String, String>)
    ensures
        if checkpoint.part_filename@ == "payload.part"@ {
            result matches Ok(path) && path@ == joined_path(style, artifact@, "payload.part"@)
        } else {
            result matches Err(error) && error@ == "resume-state-mismatch"@
        },
{
    if !same_text(checkpoint.part_filename.as_str(), "payload.part") {
        return Err("resume-state-mismatch".to_owned());
    }
    Ok(join_path(style, artifact, checkpoint.part_filename.as_str()))
}

/// The transfer whose stored records are to be discarded. One that is known here is not.
pub fn discardable<V>(records: &Registry<String, V>, transfer_id: &str) -> (result: Result<
    [u8; 16],
    String,
>)
    requires
        records.wf(),
    ensures
        match parsed_uuid(transfer_id@) {
            None => result matches Err(error) && error@ == "native-transfer-id-invalid"@,
            Some(id) => if records@.contains_key(uuid_text(id@)) {
                result matches Err(error) && error@ == "resume-already-active"@
            } else {
                result == Ok::<[u8; 16], String>(id)
            },
        },
{
    let id: [u8; 16] = match uuid_parse(transfer_id) {
        Some(id) => id,
        None => {
            return Err("native-transfer-id-invalid".to_owned());
        },
    };
    if records.contains(&uuid_string(&id)) {
        return Err("resume-already-active".to_owned());
    }
    Ok(id)
}

/// Checks that a stored secret is for the transfer that it was found with.
pub fn check_secret_is_for(material: &AuthorizationMaterial, transfer_id: &[u8; 16]) -> (result:
    Result<(), String>)
    ensures
        match result {
            Ok(()) => material.invitation.body.transfer_id@ == transfer_id@,
            Err(error) => material.invitation.body.transfer_id@ != transfer_id@ && error@
                == "resume-state-mismatch"@,
        },
{
    if !bytes_equal(&material.invitation.body.transfer_id, transfer_id) {
        return Err("resume-state-mismatch".to_owned());
    }
    Ok(())
}

/// What a discovery of an outgoing transfer says.
pub struct OutgoingDiscoveryFacts {
    pub transfer_id: Seq<char>,
    pub invitation_id: Seq<char>,
    pub source_path: Seq<char>,
    pub display_filename: Seq<char>,
    pub file_size: u64,
    pub checkpoint_generation: u64,
    pub peer_completed_bytes: u64,
    pub missing_bytes: u64,
    pub protected_state_authenticated: bool,
    pub source_identity_matches: bool,
    pub authorization_secret: Seq<char>,
}

impl View for OutgoingResumableDiscovery {
    type V = OutgoingDiscoveryFacts;

    open spec fn view(&self) -> OutgoingDiscoveryFacts {
        OutgoingDiscoveryFacts {
            transfer_id: self.transfer_id@,
            invitation_id: self.invitation_id@,
            source_path: self.source_path@,
            display_filename: self.display_filename@,
            file_size: self.file_size,
            checkpoint_generation: self.checkpoint_generation,
            peer_completed_bytes: self.peer_completed_bytes,
            missing_bytes: self.missing_bytes,
            protected_state_authenticated: self.protected_state_authenticated,
            source_identity_matches: self.source_identity_matches,
            authorization_secret: self.authorization_secret@,
        }
    }
}

impl Ranked for OutgoingResumableDiscovery {
    open spec fn precedes(left: OutgoingDiscoveryFacts, right: OutgoingDiscoveryFacts) -> bool {
        text_before(left.transfer_id, right.transfer_id)
    }

    proof fn lemma_order(
        a: OutgoingDiscoveryFacts,
        b: OutgoingDiscoveryFacts,
        c: OutgoingDiscoveryFacts,
    ) {
        crate::ordering::lemma_text_order(a.transfer_id, b.transfer_id, c.transfer_id);
    }

    fn stands_before(&self, other: &Self) -> (result: bool) {
        is_text_before(self.transfer_id.as_str(), other.transfer_id.as_str())
    }
}

/// Puts the outgoing transfers that can be resumed in the order of their identifiers.
pub fn order_outgoing_discoveries(discovered: &mut Vec<OutgoingResumableDiscovery>)
    ensures
        views(final(discovered)@) == in_order::<OutgoingResumableDiscovery>(
            views(old(discovered)@),
        ),
{
    sort(discovered);
}

} // verus!
