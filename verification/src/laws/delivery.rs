//! How an authorization is handed over, and how a run goes from one step to the next.

use crate::authorization::{AuthorizationMaterial, SecureInvitation, SecurityPolicy};
use crate::authorization_delivery::{
    bootstrap_body, bootstrap_defect, bootstrap_packing_defect, bootstrap_reads, bounded_bytes,
    checked_body, checksummed, field, in_time_window, invitation_end, invitation_package_end,
    invitation_packing_defect, law_bootstrap_round_trip, law_package_round_trip,
    lemma_package_fields, number, package_binds, package_body, package_defect, package_end,
    package_head_defect, package_reads, package_shown, DecodedManualInvitationPackage,
    DecodedReceiverBootstrap, ManualInvitationPackageInspection, BOOTSTRAP_MAGIC,
    INVITATION_PACKAGE_MAGIC, MAX_CERTIFICATE_BYTES, MAX_INVITATION_PACKAGE_BYTES,
};
use crate::crypto::sha256_digest;
use crate::direct_run::{
    delivery_failure, failure_in, phase_after, phase_after_agreement, Delivery, RunPhase,
};
use crate::encoding::{base64url_bytes, hex_text, uuid_text};
use crate::engine::{valid_request, TransferRequest, TransferRun};
use crate::failures::{
    candidate_setup_class, checks_failure, exchange_failure, failure_text, receiver_wait_failure,
};
use crate::platform_handles::{has_control, source_refusal, valid_display_name};
use crate::signaling::NativeDeviceRole;
use crate::text::trimmed;
use vstd::prelude::*;
use vstd::utf8::encode_utf8;

verus! {

/// A package counts from its beginning to its end, give or take the allowed skew, and lasts for
/// some time but not for more than a quarter of an hour.
pub proof fn law_packages_count_in_their_time(created: u64, expires: u64, now: u64, skew: u64)
    ensures
        in_time_window(created, expires, now, skew) <==> {
            &&& created < expires
            &&& expires - created <= 15 * 60 * 1000
            &&& created <= now + skew
            &&& now <= expires + skew
        },
{
}

/// A package lasts as long as was asked for, which is some time and at most a quarter of an hour;
/// that of an invitation also ends with it.
pub proof fn law_packages_last_for_their_time(
    material: AuthorizationMaterial,
    created: u64,
    lifetime_ms: u128,
)
    ensures
        package_end(created, lifetime_ms) is Some <==> 0 < lifetime_ms <= 15 * 60 * 1000 && created
            + lifetime_ms <= u64::MAX,
        package_end(created, lifetime_ms) matches Some(end) ==> end == created + lifetime_ms,
        package_end(created, lifetime_ms) is Some ==> {
            let end = invitation_package_end(material, created, lifetime_ms);
            &&& end <= created + lifetime_ms
            &&& end <= material.invitation.body.expires_unix_ms
            &&& end == created + lifetime_ms || end == material.invitation.body.expires_unix_ms
        },
{
}

/// What is packed: a lifetime that can be, a certificate of a size that can be, an invitation that
/// is genuine and fits.
pub proof fn law_only_sound_packages_are_made(
    certificate: Seq<u8>,
    material: AuthorizationMaterial,
    verified: Result<(), String>,
    created: u64,
    lifetime_ms: u128,
)
    ensures
        bootstrap_packing_defect(certificate, created, lifetime_ms) is None <==> package_end(
            created,
            lifetime_ms,
        ) is Some && 0 < certificate.len() <= 4096,
        invitation_packing_defect(material, verified, created, lifetime_ms) is None
            <==> package_end(created, lifetime_ms) is Some && verified is Ok
            && material.invitation.encoded@.len() + 236 <= 8192,
        package_end(created, lifetime_ms) is Some && verified is Err ==> invitation_packing_defect(
            material,
            verified,
            created,
            lifetime_ms,
        ) == Some(verified->Err_0@),
{
}

/// A body with its checksum gives the body back, and nothing else does.
pub proof fn law_checksums_guard_bodies(bytes: Seq<u8>, body: Seq<u8>)
    ensures
        checked_body(bytes) == Some(body) ==> bytes == body + sha256_digest(body)@,
        checked_body(bytes) is None ==> forall|other: Seq<u8>| #[trigger]
            checksummed(other) != bytes,
        bytes.len() < 32 ==> checked_body(bytes) is None,
{
    assert forall|other: Seq<u8>| checked_body(bytes) is None implies #[trigger] checksummed(other)
        != bytes by {
        if checksummed(other) == bytes {
            assert(bytes.take(bytes.len() - 32) =~= other);
        }
    }
}

/// A prepared receiver is read exactly when it is of its kind and versions, holds one certificate
/// of a size that can be and nothing more, counts now, and its certificate has its fingerprint.
pub proof fn law_receivers_are_read_when_sound(body: Seq<u8>, policy: SecurityPolicy, now: u64)
    ensures
        ({
            let length = number(body, 84, 2) as int;
            bootstrap_defect(body, policy, now) is None <==> {
                &&& body.len() == 118 + length
                &&& 0 < length <= 4096
                &&& field(body, 0, 16) == BOOTSTRAP_MAGIC@
                &&& number(body, 16, 2) == 1
                &&& number(body, 18, 2) == policy.protocol_version
                &&& in_time_window(
                    number(body, 36, 8) as u64,
                    number(body, 44, 8) as u64,
                    now,
                    policy.allowed_clock_skew_ms,
                )
                &&& sha256_digest(field(body, 86, length))@ == field(body, 52, 32)
            }
        }),
{
}

/// The head of a package is read exactly when it is of its kind and versions, from a sender to a
/// receiver, and holds an invitation of a size that can be.
pub proof fn law_package_heads_are_read_when_sound(body: Seq<u8>, policy: SecurityPolicy)
    ensures
        ({
            let length = number(body, 168, 4) as int;
            package_head_defect(body, policy) is None <==> {
                &&& body.len() >= 172 + length
                &&& 0 < length <= policy.max_invitation_bytes
                &&& field(body, 0, 16) == INVITATION_PACKAGE_MAGIC@
                &&& number(body, 16, 2) == 4
                &&& number(body, 18, 2) == 1
                &&& number(body, 20, 2) == policy.protocol_version
                &&& body[38] == 1
                &&& body[39] == 2
            }
        }),
{
}

/// A package is taken exactly when its head is sound, its invitation can be read, it holds a
/// secret and nothing more, it counts now, it says of the invitation what that says of itself, it
/// is for this receiver, and the invitation is genuine.
pub proof fn law_packages_are_taken_when_genuine(
    body: Seq<u8>,
    receiver: Option<[u8; 32]>,
    invitation: Result<SecureInvitation, String>,
    verified: Result<(), String>,
    policy: SecurityPolicy,
    now: u64,
)
    ensures
        package_defect(body, receiver, invitation, verified, policy, now) is None <==> {
            &&& package_head_defect(body, policy) is None
            &&& invitation is Ok
            &&& body.len() == invitation_end(body) + 32
            &&& in_time_window(
                number(body, 22, 8) as u64,
                number(body, 30, 8) as u64,
                now,
                policy.allowed_clock_skew_ms,
            )
            &&& invitation->Ok_0.body.invitation_id@ == field(body, 40, 16)
            &&& invitation->Ok_0.body.transfer_id@ == field(body, 56, 16)
            &&& invitation->Ok_0.body.server_certificate_fingerprint@ == field(body, 72, 32)
            &&& invitation->Ok_0.body.capability_digest@ == field(body, 104, 32)
            &&& number(body, 30, 8) <= invitation->Ok_0.body.expires_unix_ms
            &&& receiver is Some ==> receiver->Some_0@ == field(body, 72, 32)
            &&& verified is Ok
        },
{
}

/// What is shown of a package names its transfer, its end and its receiver, and no file.
pub proof fn law_shown_packages_name_no_file(
    inspection: ManualInvitationPackageInspection,
    material: AuthorizationMaterial,
    expires_unix_ms: u64,
    policy: SecurityPolicy,
)
    requires
        package_shown(inspection, material, expires_unix_ms, policy),
    ensures
        !inspection.contains_path_or_filename,
        inspection.contains_high_entropy_one_time_secret,
        inspection.transfer_id@ == uuid_text(material.invitation.body.transfer_id@),
        inspection.invitation_id@ == uuid_text(material.invitation.body.invitation_id@),
        inspection.expires_unix_ms == expires_unix_ms,
        inspection.receiver_certificate_fingerprint_sha256@ == hex_text(
            material.invitation.body.server_certificate_fingerprint@,
        ),
        inspection.authorization_delivery_version == 4,
{
}

/// The sender offers first: it sends its own message, takes the peer's and checks. The receiver
/// takes the peer's message first, then sends its own and checks.
pub proof fn law_the_sender_offers_first(phase: RunPhase)
    ensures
        phase_after(NativeDeviceRole::Sender, RunPhase::WaitingForPeer) is SettingUp,
        phase_after(NativeDeviceRole::Receiver, RunPhase::WaitingForPeer) is ReceivingPeer,
        phase_after(NativeDeviceRole::Sender, phase) is ReceivingPeer ==> phase is SendingOwn,
        phase_after(NativeDeviceRole::Receiver, phase) is SendingOwn ==> phase is SettingUp,
        phase_after(NativeDeviceRole::Receiver, phase) is SettingUp ==> phase is ReceivingPeer,
        phase_after(NativeDeviceRole::Sender, phase) is AddingPeer ==> phase is ReceivingPeer,
        phase_after(NativeDeviceRole::Sender, phase) is Checking ==> phase is AddingPeer,
        phase is SendingOwn ==> phase_after(NativeDeviceRole::Receiver, phase) is Checking,
        !(phase is AddingPeer) && phase_after(NativeDeviceRole::Receiver, phase) is Checking
            ==> phase is SendingOwn,
{
}

/// Both ends check, exchange their results and judge them, in this order; an attempt that is
/// repeated goes back to the offer.
pub proof fn law_results_are_exchanged_before_judging(role: NativeDeviceRole, phase: RunPhase)
    ensures
        phase_after(role, RunPhase::Connecting) is WaitingForPeer,
        phase_after(role, RunPhase::Checking) is SendingResult,
        phase_after(role, RunPhase::SendingResult) is ReceivingResult,
        phase_after(role, RunPhase::ReceivingResult) is AddingResult,
        phase_after(role, RunPhase::AddingResult) is Judging,
        phase_after(role, phase) is SendingResult ==> phase is Checking,
        phase_after(role, phase) is ReceivingResult ==> phase is SendingResult,
        phase_after(role, phase) is AddingResult ==> phase is ReceivingResult,
        phase_after(role, phase) is Judging && !(phase is Judging) ==> phase is AddingResult,
        phase_after(role, RunPhase::Closing) == phase_after(role, RunPhase::WaitingForPeer),
        !(phase_after(role, phase) is Closing),
        !(phase_after(role, phase) is Connecting),
        role is Sender ==> phase_after_agreement(role) is SendingNomination,
        role is Receiver ==> phase_after_agreement(role) is OpeningEndpoint,
        phase_after(NativeDeviceRole::Receiver, RunPhase::OpeningEndpoint) is SendingNomination,
        phase_after(NativeDeviceRole::Sender, RunPhase::OpeningEndpoint) is Running,
        phase_after(NativeDeviceRole::Receiver, RunPhase::FindingPath) is Running,
        phase_after(NativeDeviceRole::Sender, RunPhase::FindingPath) is OpeningEndpoint,
{
}

/// What went wrong in a phase is told by what the phase does: exchanging, setting up, checking,
/// closing, finding a path or connecting.
pub proof fn law_phases_tell_their_failures(
    role: NativeDeviceRole,
    phase: RunPhase,
    error: Seq<char>,
)
    ensures
        ({
            let told = failure_in(role, phase, error);
            &&& phase is SendingOwn || phase is SendingResult || phase is SendingNomination
                || phase is ReceivingPeer || phase is ReceivingResult
                || phase is ReceivingNomination ==> told == exchange_failure(error)
            &&& phase is WaitingForPeer && role is Receiver ==> told == exchange_failure(error)
            &&& phase is WaitingForPeer && role is Sender ==> told == receiver_wait_failure(error)
            &&& phase is AddingPeer || phase is AddingResult || phase is AddingNomination ==> told
                == failure_text("candidate-exchange-failed"@, error)
            &&& phase is SettingUp ==> told == failure_text(candidate_setup_class(error), error)
            &&& phase is Checking ==> told == checks_failure(error)
            &&& phase is Closing ==> told == failure_text(
                "direct-connect-recovery-failed"@,
                error,
            )
            &&& phase is FindingPath ==> told == failure_text("no-direct-path"@, error)
            &&& phase is OpeningEndpoint ==> told == failure_text("quic-connect-failed"@, error)
            &&& phase is Connecting || phase is Judging || phase is Running ==> told == error
        }),
{
}

/// A message was delivered exactly when it was accepted.
pub proof fn law_only_accepted_messages_are_delivered(delivery: Delivery)
    ensures
        delivery_failure(delivery) is None <==> delivery is Accepted,
{
}

/// A transfer in memory goes on block by block, each as long as the others or as what is left, and
/// never past its end.
pub proof fn law_blocks_stay_within_the_request(run: TransferRun, request: TransferRequest)
    requires
        run.wf(),
    ensures
        valid_request(request) <==> request.block_bytes > 0 && request.start_offset
            <= request.total_bytes,
        0 <= run.next_length() <= run.request().block_bytes,
        run.offset() + run.next_length() <= run.request().total_bytes,
        run.next_length() < run.request().block_bytes ==> run.offset() + run.next_length()
            == run.request().total_bytes,
        run.next_length() == 0 <==> run.offset() == run.request().total_bytes,
{
}

/// A source is registered exactly when it is a file and its name, without the spaces around it, is
/// one that can be shown: not empty, not long, not a directory's, without separators and control
/// characters.
pub proof fn law_sources_are_registered_with_plain_names(name: Seq<char>, is_file: bool)
    ensures
        source_refusal(name, is_file) is None <==> is_file && valid_display_name(trimmed(name)),
        valid_display_name(name) <==> {
            &&& 0 < encode_utf8(name).len() <= 255
            &&& name != "."@
            &&& name != ".."@
            &&& forall|i: int|
                0 <= i < name.len() ==> #[trigger] name[i] != '/' && name[i] != '\\'
            &&& !has_control(name)
        },
        valid_display_name(trimmed(name)) && !is_file ==> source_refusal(name, is_file) == Some(
            "platform-source-descriptor-unavailable"@,
        ),
{
}

/// A text is read as a package exactly when it is base64 of some bytes and no more than fit.
pub proof fn law_packages_are_bounded(encoded: Seq<char>, maximum: nat, prefix: Seq<char>)
    ensures
        ({
            let length = encode_utf8(encoded).len();
            let bytes = base64url_bytes(encoded);
            match bounded_bytes(encoded, maximum, prefix) {
                Ok(read) => {
                    &&& bytes == Some(read)
                    &&& 0 < read.len() <= maximum
                    &&& 0 < length <= 2 * maximum
                },
                Err(error) => {
                    ||| length == 0 || length > 2 * maximum
                    ||| bytes is None && error == prefix + "-malformed"@
                    ||| bytes is Some && (bytes->Some_0.len() == 0 || bytes->Some_0.len()
                        > maximum) && error == prefix + "-oversized"@
                },
            }
        }),
{
}

/// A receiver that was packed is read with its own identifier, times and certificate.
pub proof fn law_packed_receivers_are_read(
    bootstrap: DecodedReceiverBootstrap,
    policy: SecurityPolicy,
    id: [u8; 16],
    created: u64,
    lifetime_ms: u128,
    certificate: Seq<u8>,
    nonce: [u8; 32],
)
    requires
        package_end(created, lifetime_ms) is Some,
        0 < certificate.len() <= MAX_CERTIFICATE_BYTES,
        bootstrap_reads(
            bootstrap,
            bootstrap_body(
                policy.protocol_version,
                id@,
                created,
                package_end(created, lifetime_ms)->Some_0,
                sha256_digest(certificate)@,
                certificate,
                nonce@,
            ),
        ),
    ensures
        bootstrap.bootstrap_id@ == id@,
        bootstrap.created_unix_ms == created,
        bootstrap.expires_unix_ms == package_end(created, lifetime_ms)->Some_0,
        bootstrap.certificate_fingerprint_sha256@ == sha256_digest(certificate)@,
        bootstrap.certificate@ == certificate,
{
    law_bootstrap_round_trip(policy, id, created, lifetime_ms, certificate, nonce, created);
}

/// A package that was packed is read with the invitation and the secret that were packed, and its
/// times.
pub proof fn law_packed_invitations_are_read(
    package: DecodedManualInvitationPackage,
    policy: SecurityPolicy,
    material: AuthorizationMaterial,
    created: u64,
    lifetime_ms: u128,
    nonce: [u8; 32],
)
    requires
        package_end(created, lifetime_ms) is Some,
        0 < material.invitation.encoded@.len() <= policy.max_invitation_bytes,
        material.invitation.encoded@.len() + 236 <= MAX_INVITATION_PACKAGE_BYTES,
        created < material.invitation.body.expires_unix_ms,
        package_reads(
            package,
            package_body(
                policy.protocol_version,
                created,
                invitation_package_end(material, created, lifetime_ms),
                material,
                nonce@,
            ),
            material.invitation,
        ),
    ensures
        package.material.invitation == material.invitation,
        package.material.master.bytes@ == material.master.bytes@,
        package.created_unix_ms == created,
        package.expires_unix_ms == invitation_package_end(material, created, lifetime_ms),
        package.receiver_certificate_fingerprint_sha256@
            == material.invitation.body.server_certificate_fingerprint@,
{
    law_package_round_trip(policy, material, created, lifetime_ms, nonce, created);
    lemma_package_fields(
        policy.protocol_version,
        created,
        invitation_package_end(material, created, lifetime_ms),
        material,
        nonce@,
    );
}

/// What stands around an invitation in a package must be of the same invitation, and may not
/// outlast it.
pub proof fn law_packages_are_bound_to_their_invitation(body: Seq<u8>, invitation: SecureInvitation)
    ensures
        package_binds(body, invitation) <==> field(body, 40, 16) == invitation.body.invitation_id@
            && field(body, 56, 16) == invitation.body.transfer_id@ && field(body, 72, 32)
            == invitation.body.server_certificate_fingerprint@ && field(body, 104, 32)
            == invitation.body.capability_digest@ && number(body, 30, 8)
            <= invitation.body.expires_unix_ms,
{
}

} // verus!
