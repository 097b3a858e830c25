//! Connectivity sessions: the exchange of candidates with the peer, the checks of their pairs,
//! and the nomination of one pair by both ends.

use crate::address::{same_ip, same_socket, SocketAddress};
use crate::arith::{clamp_u64, clamped};
use crate::authorization::{
    invitation_for, material_for_transfer, refreshed, saturating_sum, withheld,
    AuthorizationMaterial, AuthorizationRecord, AuthorizationRegistry, SecurityPolicy,
};
use crate::bytes::bytes_equal;
use crate::candidates::{
    admitted, apply_privacy_policy, batch_defect, text_bytes, validate_candidate_batch,
    write_bounded_string, CandidateFacts, CandidatePrivacyPolicy, ManualCandidateInput,
    HostGatherOptions, HostGatherResult, NativeAddressFamily, NativeCandidate,
    MAX_NATIVE_CANDIDATES,
};
use crate::connectivity_diagnostics::{
    applies_report, find_result, result_for, ConnectivityOutcome, ConnectivityStateName,
    NativeConnectivityDiagnostics, ObservedNatMappingBehavior,
};
use crate::crypto::{sha256, sha256_digest};
use crate::encoding::{decode_hex_32, hex_value_32, parsed_uuid, uuid_parse, uuid_string, uuid_text};
use crate::hole_punch::{
    HolePunchConfig, HolePunchReport, ProbePairResult, ResultFacts, MILLISECOND, SECOND,
};
use crate::ordering::{in_order, is_text_before, lemma_text_order, sort, text_before, views, Ranked};
use crate::path_selection::{build_candidate_pairs, candidate_pairs, NativeCandidatePair, PairFacts};
use crate::port_mapping::{PortMappingAttemptDiagnostic, PortMappingDevelopmentOptions};
use crate::registry::Registry;
use crate::quinn_connectivity::QUINN_UDP_SOCKET_BUFFER_BYTES;
use crate::signaling::{NativeConnectivityFailure, NativeDeviceRole};
use crate::text::{append_text, chars_of, joined, same_text, text_of};
use vstd::prelude::*;

verus! {

pub const MAX_CONNECTIVITY_SESSIONS: usize = 64;

pub const MIN_CONNECTIVITY_LIFETIME_MS: u64 = 30_000;

pub const MAX_CONNECTIVITY_LIFETIME_MS: u64 = 300_000;

pub const SESSION_GRACE_MS: u64 = 30_000;

/// How candidates are gathered.
#[derive(Debug, Clone)]
pub struct ConnectivityGatherOptions {
    pub privacy_policy: Option<CandidatePrivacyPolicy>,
    pub expected_same_lan: Option<bool>,
    pub all_direct_approved: Option<bool>,
    pub allow_vpn: Option<bool>,
    pub allow_virtual_adapters: Option<bool>,
    pub allow_loopback_test: Option<bool>,
    pub enable_stun: Option<bool>,
    pub manual_candidates: Option<Vec<ManualCandidateInput>>,
    pub port_mapping: Option<PortMappingDevelopmentOptions>,
    pub candidate_lifetime_ms: Option<u64>,
}

/// The options that hold where nothing else was chosen, for candidates that live as long as the
/// messages that carry them.
pub open spec fn usual_options(signaling_lifetime_ms: u64) -> ConnectivityGatherOptions {
    ConnectivityGatherOptions {
        privacy_policy: Some(CandidatePrivacyPolicy::LanFirst),
        expected_same_lan: Some(false),
        all_direct_approved: Some(false),
        allow_vpn: Some(false),
        allow_virtual_adapters: Some(false),
        allow_loopback_test: Some(false),
        enable_stun: Some(true),
        manual_candidates: None,
        port_mapping: None,
        candidate_lifetime_ms: Some(signaling_lifetime_ms),
    }
}

impl ConnectivityGatherOptions {
    /// The options that hold where nothing else was chosen.
    pub fn usual(signaling_lifetime_ms: u64) -> (options: Self)
        ensures
            options == usual_options(signaling_lifetime_ms),
    {
        ConnectivityGatherOptions {
            privacy_policy: Some(CandidatePrivacyPolicy::LanFirst),
            expected_same_lan: Some(false),
            all_direct_approved: Some(false),
            allow_vpn: Some(false),
            allow_virtual_adapters: Some(false),
            allow_loopback_test: Some(false),
            enable_stun: Some(true),
            manual_candidates: None,
            port_mapping: None,
            candidate_lifetime_ms: Some(signaling_lifetime_ms),
        }
    }
}

#[derive(Debug)]
pub struct CreateConnectivityOfferRequest {
    pub transfer_id: String,
    pub role: Option<NativeDeviceRole>,
    pub signaling_generation: Option<u64>,
    pub candidate_generation: Option<u32>,
    pub future_quic_session_id: Option<String>,
}

#[derive(Debug)]
pub struct StartConnectivityChecksRequest {
    pub connectivity_session_id: String,
    pub total_timeout_ms: Option<u64>,
}

#[derive(Debug)]
pub struct ConnectivitySessionRequest {
    pub connectivity_session_id: String,
}

/// A path that both ends have nominated.
#[derive(Debug)]
pub struct NominatedPathContext {
    pub connectivity_session_id: String,
    pub future_quic_session_id: [u8; 16],
    pub transfer_id: [u8; 16],
    pub role: NativeDeviceRole,
    pub pair: NativeCandidatePair,
    pub expires_unix_ms: u64,
}

/// The pair that an end nominates, with the endpoints it saw. An endpoint that could not be read
/// is none.
#[derive(Debug)]
pub struct NativeCandidateNominationPayload {
    pub pair_id: String,
    pub sender_candidate_id: String,
    pub receiver_candidate_id: String,
    pub sender_observed_endpoint: Option<SocketAddress>,
    pub receiver_observed_endpoint: Option<SocketAddress>,
    /// In nanoseconds.
    pub measured_rtt: u64,
    pub confirmation_count: u8,
}

/// How the checks of an end went.
#[derive(Debug, Clone)]
pub struct ConnectivityCheckResultPayload {
    pub attempted_pair_ids: Vec<String>,
    pub viable_pair_ids: Vec<String>,
    pub authenticated_probes_sent: u32,
    pub authenticated_probes_received: u32,
    /// In nanoseconds.
    pub best_rtt: Option<u64>,
    pub failure: Option<NativeConnectivityFailure>,
}

/// The search for a direct path between two ends.
#[derive(Debug)]
pub struct ConnectivitySession {
    pub id: String,
    pub registry_id: String,
    pub future_quic_session_id: String,
    pub transfer_id: [u8; 16],
    pub role: NativeDeviceRole,
    pub candidate_generation: u32,
    pub expires_unix_ms: u64,
    pub allow_loopback_test: bool,
    pub local_candidates: Vec<NativeCandidate>,
    pub state: ConnectivityStateName,
    pub remote_candidates: Vec<NativeCandidate>,
    pub remote_candidate_generation: Option<u32>,
    pub next_sequence: u64,
    pub checks_active: bool,
    pub nominated_pair: Option<NativeCandidatePair>,
    pub remote_nomination_authenticated: bool,
    pub diagnostics: NativeConnectivityDiagnostics,
    pub network_snapshot: [u8; 32],
}

/// Identifiers and a generation drawn at random for a new session.
#[derive(Debug, Clone, Copy)]
pub struct FreshIdentifiers {
    pub connectivity_session_id: [u8; 16],
    pub future_quic_session_id: [u8; 16],
    pub signaling_generation: u64,
}

/// What a new offer is made of.
pub struct OfferPlan {
    pub authorization: AuthorizationMaterial,
    pub transfer_id: [u8; 16],
    pub role: NativeDeviceRole,
    pub connectivity_session_id: [u8; 16],
    pub future_quic_session_id: [u8; 16],
    pub signaling_generation: u64,
    pub candidate_generation: u32,
    pub certificate_commitment: [u8; 32],
}

/// Why the authorization of a transfer is not handed out, if it is not.
pub open spec fn authorization_refusal(
    records: Map<Seq<u8>, AuthorizationRecord>,
    policy: SecurityPolicy,
    transfer_id: Seq<u8>,
    now: u64,
) -> Option<Seq<char>> {
    match invitation_for(records, transfer_id) {
        None => Some("resume-authorization-failed"@),
        Some(id) => withheld(refreshed(records[id], policy, now).state),
    }
}

/// The records after the authorization of a transfer was looked up.
pub open spec fn after_lookup(
    records: Map<Seq<u8>, AuthorizationRecord>,
    policy: SecurityPolicy,
    transfer_id: Seq<u8>,
    now: u64,
) -> Map<Seq<u8>, AuthorizationRecord> {
    match invitation_for(records, transfer_id) {
        None => records,
        Some(id) => records.insert(id, refreshed(records[id], policy, now)),
    }
}

/// The random generation, which is never zero.
pub open spec fn nonzero(value: u64) -> u64 {
    if value == 0 {
        1
    } else {
        value
    }
}

/// The QUIC session that an offer names: the requested one, else a fresh one; an error where the
/// request names none.
pub open spec fn quic_session_of(request: CreateConnectivityOfferRequest, fresh: [u8; 16]) -> Option<
    [u8; 16],
> {
    match request.future_quic_session_id {
        Some(text) => parsed_uuid(text@),
        None => Some(fresh),
    }
}

/// The generation of an offer.
pub open spec fn generation_of(request: CreateConnectivityOfferRequest, fresh: u64) -> u64 {
    match request.signaling_generation {
        Some(generation) => generation,
        None => nonzero(fresh),
    }
}

/// The generation of the candidates, which is one unless the request names it.
pub open spec fn candidate_generation_of(generation: Option<u32>) -> u32 {
    match generation {
        Some(value) => value,
        None => 1,
    }
}

/// Why an offer is refused, if it is.
pub open spec fn offer_refusal(
    records: Map<Seq<u8>, AuthorizationRecord>,
    policy: SecurityPolicy,
    request: CreateConnectivityOfferRequest,
    fresh: FreshIdentifiers,
    now: u64,
) -> Option<Seq<char>> {
    match parsed_uuid(request.transfer_id@) {
        None => Some("native-connectivity-transfer-id-invalid"@),
        Some(transfer_id) => if authorization_refusal(records, policy, transfer_id@, now) is Some {
            authorization_refusal(records, policy, transfer_id@, now)
        } else if quic_session_of(request, fresh.future_quic_session_id) is None {
            Some("native-connectivity-quic-session-id-invalid"@)
        } else if generation_of(request, fresh.signaling_generation) == 0 {
            Some("native-signaling-generation-invalid"@)
        } else if candidate_generation_of(request.candidate_generation) == 0 {
            Some("native-signaling-candidate-generation-invalid"@)
        } else {
            None
        },
    }
}

/// Plans an offer for a transfer that this process is authorized for.
pub fn plan_connectivity_offer(
    authorizations: &mut AuthorizationRegistry,
    request: &CreateConnectivityOfferRequest,
    fresh: FreshIdentifiers,
    now: u64,
) -> (result: Result<OfferPlan, String>)
    requires
        old(authorizations).wf(),
    ensures
        final(authorizations).wf(),
        final(authorizations).policy() == old(authorizations).policy(),
        final(authorizations).log() == old(authorizations).log(),
        final(authorizations).records() == match parsed_uuid(request.transfer_id@) {
            None => old(authorizations).records(),
            Some(transfer_id) => after_lookup(
                old(authorizations).records(),
                old(authorizations).policy(),
                transfer_id@,
                now,
            ),
        },
        ({
            let refusal = offer_refusal(
                old(authorizations).records(),
                old(authorizations).policy(),
                *request,
                fresh,
                now,
            );
            match result {
                Ok(plan) => {
                    let record = final(authorizations).records()[invitation_for(
                        old(authorizations).records(),
                        plan.transfer_id@,
                    )->Some_0];
                    &&& refusal is None
                    &&& Some(plan.transfer_id) == parsed_uuid(request.transfer_id@)
                    &&& plan.role == match request.role {
                        Some(role) => role,
                        None => NativeDeviceRole::Sender,
                    }
                    &&& plan.connectivity_session_id == fresh.connectivity_session_id
                    &&& Some(plan.future_quic_session_id) == quic_session_of(
                        *request,
                        fresh.future_quic_session_id,
                    )
                    &&& plan.signaling_generation == generation_of(
                        *request,
                        fresh.signaling_generation,
                    )
                    &&& plan.candidate_generation == candidate_generation_of(
                        request.candidate_generation,
                    )
                    &&& plan.authorization.invitation.same(record.invitation)
                    &&& plan.authorization.master == record.master
                    &&& plan.certificate_commitment
                        == record.invitation.body.server_certificate_fingerprint
                },
                Err(error) => refusal == Some(error@),
            }
        }),
{
    let transfer_id: [u8; 16] = match uuid_parse(request.transfer_id.as_str()) {
        Some(id) => id,
        None => return Err("native-connectivity-transfer-id-invalid".to_owned()),
    };
    let authorization: AuthorizationMaterial = match material_for_transfer(
        authorizations,
        &transfer_id,
        now,
    ) {
        Ok(material) => material,
        Err(error) => return Err(error),
    };
    let role = match request.role {
        Some(role) => role,
        None => NativeDeviceRole::Sender,
    };
    let future_quic_session_id: [u8; 16] = match &request.future_quic_session_id {
        Some(text) => match uuid_parse(text.as_str()) {
            Some(id) => id,
            None => return Err("native-connectivity-quic-session-id-invalid".to_owned()),
        },
        None => fresh.future_quic_session_id,
    };
    let signaling_generation: u64 = match request.signaling_generation {
        Some(generation) => generation,
        None => if fresh.signaling_generation == 0 {
            1
        } else {
            fresh.signaling_generation
        },
    };
    if signaling_generation == 0 {
        return Err("native-signaling-generation-invalid".to_owned());
    }
    let candidate_generation: u32 = match request.candidate_generation {
        Some(generation) => generation,
        None => 1,
    };
    if candidate_generation == 0 {
        return Err("native-signaling-candidate-generation-invalid".to_owned());
    }
    let certificate_commitment: [u8; 32] =
        authorization.invitation.body.server_certificate_fingerprint;
    Ok(
        OfferPlan {
            authorization,
            transfer_id,
            role,
            connectivity_session_id: fresh.connectivity_session_id,
            future_quic_session_id,
            signaling_generation,
            candidate_generation,
            certificate_commitment,
        },
    )
}

/// What a received envelope says before it is trusted.
#[derive(Debug)]
pub struct ReceivedOffer {
    pub is_offer: bool,
    pub transfer_id: String,
    pub connectivity_session_id: String,
    pub future_quic_session_id: String,
    pub invitation_id: String,
    pub certificate_commitment_sha256: String,
    pub signaling_generation: u64,
    pub candidate_generation: u32,
    pub sender_role: NativeDeviceRole,
}

/// What the answer to an offer is made of.
pub struct AnswerPlan {
    pub authorization: AuthorizationMaterial,
    pub transfer_id: [u8; 16],
    pub role: NativeDeviceRole,
    pub connectivity_session_id: [u8; 16],
    pub future_quic_session_id: [u8; 16],
    pub signaling_generation: u64,
    pub certificate_commitment: [u8; 32],
}

/// Whether a text is 64 hexadecimal digits.
pub open spec fn is_hex_32(text: Seq<char>) -> bool {
    exists|bytes: Seq<u8>| #[trigger] hex_value_32(text, bytes)
}

/// Why a received offer is refused before its signature is checked, if it is.
pub open spec fn received_offer_refusal(
    records: Map<Seq<u8>, AuthorizationRecord>,
    policy: SecurityPolicy,
    offer: ReceivedOffer,
    now: u64,
) -> Option<Seq<char>> {
    let transfer = parsed_uuid(offer.transfer_id@);
    if !offer.is_offer {
        Some("native-signaling-offer-required"@)
    } else if transfer is None {
        Some("native-connectivity-transfer-id-invalid"@)
    } else if parsed_uuid(offer.connectivity_session_id@) is None {
        Some("native-connectivity-session-id-invalid"@)
    } else if parsed_uuid(offer.future_quic_session_id@) is None {
        Some("native-connectivity-quic-session-id-invalid"@)
    } else if !is_hex_32(offer.certificate_commitment_sha256@) {
        Some("native-sha256-invalid"@)
    } else if authorization_refusal(records, policy, transfer->Some_0@, now) is Some {
        authorization_refusal(records, policy, transfer->Some_0@, now)
    } else if parsed_uuid(offer.invitation_id@) is None {
        Some("native-connectivity-invitation-id-invalid"@)
    } else {
        let id = invitation_for(records, transfer->Some_0@)->Some_0;
        if records[id].invitation.body.invitation_id != parsed_uuid(offer.invitation_id@)->Some_0 {
            Some("native-signaling-transfer-mismatch"@)
        } else {
            None
        }
    }
}

/// Whether an offer can be read so far that the authorization of its transfer is looked up.
pub open spec fn is_readable_offer(offer: ReceivedOffer) -> bool {
    &&& offer.is_offer
    &&& parsed_uuid(offer.transfer_id@) is Some
    &&& parsed_uuid(offer.connectivity_session_id@) is Some
    &&& parsed_uuid(offer.future_quic_session_id@) is Some
    &&& is_hex_32(offer.certificate_commitment_sha256@)
}

/// Plans the answer to an offer for a transfer that this process is authorized for.
pub fn plan_connectivity_answer(
    authorizations: &mut AuthorizationRegistry,
    offer: &ReceivedOffer,
    now: u64,
) -> (result: Result<AnswerPlan, String>)
    requires
        old(authorizations).wf(),
    ensures
        final(authorizations).wf(),
        final(authorizations).policy() == old(authorizations).policy(),
        final(authorizations).log() == old(authorizations).log(),
        final(authorizations).records() == if is_readable_offer(*offer) {
            after_lookup(
                old(authorizations).records(),
                old(authorizations).policy(),
                parsed_uuid(offer.transfer_id@)->Some_0@,
                now,
            )
        } else {
            old(authorizations).records()
        },
        ({
            let refusal = received_offer_refusal(
                old(authorizations).records(),
                old(authorizations).policy(),
                *offer,
                now,
            );
            match result {
                Ok(plan) => {
                    let record = final(authorizations).records()[invitation_for(
                        old(authorizations).records(),
                        plan.transfer_id@,
                    )->Some_0];
                    &&& refusal is None
                    &&& Some(plan.transfer_id) == parsed_uuid(offer.transfer_id@)
                    &&& plan.role == offer.sender_role.other()
                    &&& Some(plan.connectivity_session_id) == parsed_uuid(
                        offer.connectivity_session_id@,
                    )
                    &&& Some(plan.future_quic_session_id) == parsed_uuid(
                        offer.future_quic_session_id@,
                    )
                    &&& plan.signaling_generation == offer.signaling_generation
                    &&& hex_value_32(
                        offer.certificate_commitment_sha256@,
                        plan.certificate_commitment@,
                    )
                    &&& plan.authorization.invitation.same(record.invitation)
                    &&& plan.authorization.master == record.master
                },
                Err(error) => refusal == Some(error@),
            }
        }),
{
    if !offer.is_offer {
        return Err("native-signaling-offer-required".to_owned());
    }
    let transfer_id: [u8; 16] = match uuid_parse(offer.transfer_id.as_str()) {
        Some(id) => id,
        None => return Err("native-connectivity-transfer-id-invalid".to_owned()),
    };
    let connectivity_session_id: [u8; 16] = match uuid_parse(
        offer.connectivity_session_id.as_str(),
    ) {
        Some(id) => id,
        None => return Err("native-connectivity-session-id-invalid".to_owned()),
    };
    let future_quic_session_id: [u8; 16] = match uuid_parse(offer.future_quic_session_id.as_str()) {
        Some(id) => id,
        None => return Err("native-connectivity-quic-session-id-invalid".to_owned()),
    };
    let certificate_commitment: [u8; 32] = match decode_hex_32(
        offer.certificate_commitment_sha256.as_str(),
    ) {
        Some(bytes) => bytes,
        None => return Err("native-sha256-invalid".to_owned()),
    };
    let authorization: AuthorizationMaterial = match material_for_transfer(
        authorizations,
        &transfer_id,
        now,
    ) {
        Ok(material) => material,
        Err(error) => return Err(error),
    };
    let invitation_id: [u8; 16] = match uuid_parse(offer.invitation_id.as_str()) {
        Some(id) => id,
        None => return Err("native-connectivity-invitation-id-invalid".to_owned()),
    };
    let matching: bool = bytes_equal(
        &authorization.invitation.body.invitation_id,
        &invitation_id,
    );
    assert(matching ==> authorization.invitation.body.invitation_id =~= invitation_id);
    if !matching {
        return Err("native-signaling-transfer-mismatch".to_owned());
    }
    Ok(
        AnswerPlan {
            authorization,
            transfer_id,
            role: offer.sender_role.opposite(),
            connectivity_session_id,
            future_quic_session_id,
            signaling_generation: offer.signaling_generation,
            certificate_commitment,
        },
    )
}

/// The generation of the candidates of an answer.
pub fn answer_candidate_generation(generation: Option<u32>) -> (result: Result<u32, String>)
    ensures
        match result {
            Ok(value) => value == candidate_generation_of(generation) && value != 0,
            Err(error) => candidate_generation_of(generation) == 0 && error@
                == "native-signaling-candidate-generation-invalid"@,
        },
{
    let value: u32 = match generation {
        Some(value) => value,
        None => 1,
    };
    if value == 0 {
        return Err("native-signaling-candidate-generation-invalid".to_owned());
    }
    Ok(value)
}

/// The label of a role in identifiers.
pub open spec fn label_of(role: NativeDeviceRole) -> Seq<char> {
    match role {
        NativeDeviceRole::Sender => "sender"@,
        NativeDeviceRole::Receiver => "receiver"@,
    }
}

pub fn role_label(role: NativeDeviceRole) -> (label: &'static str)
    ensures
        label@ == label_of(role),
{
    match role {
        NativeDeviceRole::Sender => "sender",
        NativeDeviceRole::Receiver => "receiver",
    }
}

/// Native transfers are available.
pub fn ensure_native_beta_available() -> (result: Result<(), String>)
    ensures
        result is Ok,
{
    Ok(())
}

/// Where the first sign `@` stands in a text.
pub open spec fn first_at_sign(text: Seq<char>, at: int) -> bool {
    &&& 0 <= at < text.len()
    &&& text[at] == '@'
    &&& forall|i: int| 0 <= i < at ==> text[i] != '@'
}

/// The identifier under which a session is registered: the hyphenated form of the identifier,
/// with the label of a role where the text has one. None where the text is no such identifier.
pub open spec fn canonical_id(text: Seq<char>) -> Option<Seq<char>> {
    if exists|at: int| #[trigger] first_at_sign(text, at) {
        let at = choose|at: int| #[trigger] first_at_sign(text, at);
        let suffix = text.skip(at + 1);
        match parsed_uuid(text.take(at)) {
            Some(id) => if suffix == "sender"@ || suffix == "receiver"@ {
                Some(uuid_text(id@) + "@"@ + suffix)
            } else {
                None
            },
            None => None,
        }
    } else {
        match parsed_uuid(text) {
            Some(id) => Some(uuid_text(id@)),
            None => None,
        }
    }
}

/// The identifier under which a session is registered.
pub fn canonical_registry_id(id: &str) -> (result: Result<String, String>)
    ensures
        match result {
            Ok(canonical) => canonical_id(id@) == Some(canonical@),
            Err(error) => canonical_id(id@) is None && error@
                == "native-connectivity-session-id-invalid"@,
        },
{
    let chars = chars_of(id);
    let mut at: usize = 0;
    while at < chars.len() && chars[at] != '@'
        invariant
            at <= chars@.len(),
            chars@ == id@,
            forall|i: int| 0 <= i < at ==> id@[i] != '@',
        decreases chars@.len() - at,
    {
        at += 1;
    }
    if at == chars.len() {
        proof {
            if exists|other: int| #[trigger] first_at_sign(id@, other) {
                let other = choose|other: int| #[trigger] first_at_sign(id@, other);
                assert(id@[other] != '@');
            }
        }
        return match uuid_parse(id) {
            Some(bytes) => Ok(uuid_string(&bytes)),
            None => Err("native-connectivity-session-id-invalid".to_owned()),
        };
    }
    proof {
        assert(first_at_sign(id@, at as int));
        let other = choose|other: int| #[trigger] first_at_sign(id@, other);
        if other < at {
            assert(id@[other] != '@');
        } else if other > at {
            assert(id@[at as int] != '@');
        }
    }
    let wire = crate::paths::slice_chars(&chars, 0, at);
    let suffix = crate::paths::slice_chars(&chars, at + 1, chars.len());
    assert(wire@ =~= id@.take(at as int));
    assert(suffix@ =~= id@.skip(at + 1));
    let wire_text = text_of(&wire);
    let suffix_text = text_of(&suffix);
    match uuid_parse(wire_text.as_str()) {
        Some(bytes) => {
            if same_text(suffix_text.as_str(), "sender") || same_text(
                suffix_text.as_str(),
                "receiver",
            ) {
                let mut canonical: String = uuid_string(&bytes);
                append_text(&mut canonical, "@");
                append_text(&mut canonical, suffix_text.as_str());
                Ok(canonical)
            } else {
                Err("native-connectivity-session-id-invalid".to_owned())
            }
        },
        None => Err("native-connectivity-session-id-invalid".to_owned()),
    }
}

/// Whether a session has not been over for longer than the grace period.
pub open spec fn alive(session: ConnectivitySession, now: u64) -> bool {
    saturating_sum(session.expires_unix_ms, SESSION_GRACE_MS) >= now
}

/// The sessions that are alive.
pub open spec fn live_sessions(sessions: Map<Seq<char>, ConnectivitySession>, now: u64) -> Map<
    Seq<char>,
    ConnectivitySession,
> {
    Map::new(
        |id: Seq<char>| sessions.contains_key(id) && alive(sessions[id], now),
        |id: Seq<char>| sessions[id],
    )
}

/// The identifier for a new session: its own, or with the label of its role where that is in
/// use, as it is when both ends run in one process.
pub open spec fn id_for(
    sessions: Map<Seq<char>, ConnectivitySession>,
    session: ConnectivitySession,
) -> Seq<char> {
    if sessions.contains_key(session.id@) {
        session.id@ + "@"@ + label_of(session.role)
    } else {
        session.id@
    }
}

/// Why a session is not registered among the live ones, if it is not.
pub open spec fn insert_refusal(
    live: Map<Seq<char>, ConnectivitySession>,
    session: ConnectivitySession,
) -> Option<Seq<char>> {
    let id = id_for(live, session);
    if live.dom().len() >= MAX_CONNECTIVITY_SESSIONS && !live.contains_key(id) {
        Some("native-connectivity-session-limit-reached"@)
    } else if live.contains_key(id) {
        Some("native-connectivity-session-already-exists"@)
    } else {
        None
    }
}

/// The connectivity sessions of this process.
pub struct ConnectivityRegistry {
    sessions: Registry<String, ConnectivitySession>,
}

impl View for ConnectivityRegistry {
    type V = Map<Seq<char>, ConnectivitySession>;

    closed spec fn view(&self) -> Map<Seq<char>, ConnectivitySession> {
        self.sessions@
    }
}

impl ConnectivityRegistry {
    pub closed spec fn wf(self) -> bool {
        self.sessions.wf()
    }

    pub fn new() -> (registry: Self)
        ensures
            registry.wf(),
            registry@ == Map::<Seq<char>, ConnectivitySession>::empty(),
    {
        ConnectivityRegistry { sessions: Registry::new() }
    }

    fn retain_live(&mut self, now: u64)
        requires
            old(self).wf(),
        ensures
            final(self).wf(),
            final(self)@ == live_sessions(old(self)@, now),
    {
        let ghost start = self@;
        let mut index: usize = 0;
        while index < self.sessions.len()
            invariant
                self.sessions.wf(),
                index <= self.sessions.listing().len(),
                live_sessions(self@, now) == live_sessions(start, now),
                forall|i: int|
                    0 <= i < index ==> alive((#[trigger] self.sessions.listing()[i]).1, now),
            decreases self.sessions.listing().len() - index,
        {
            let entry: &(String, ConnectivitySession) = self.sessions.at(index);
            if entry.1.expires_unix_ms.saturating_add(SESSION_GRACE_MS) >= now {
                index += 1;
            } else {
                let ghost before = self@;
                let ghost listing = self.sessions.listing();
                let removed = self.sessions.remove_at(index);
                proof {
                    assert(live_sessions(self@, now) =~= live_sessions(before, now));
                    assert forall|i: int| 0 <= i < index implies alive(
                        (#[trigger] self.sessions.listing()[i]).1,
                        now,
                    ) by {
                        assert(self.sessions.listing()[i] == listing[i]);
                    }
                }
            }
        }
        proof {
            self.sessions.lemma_listing();
            assert forall|id: Seq<char>| #[trigger] self@.contains_key(id) implies alive(
                self@[id],
                now,
            ) by {
                let i = choose|i: int|
                    0 <= i < self.sessions.listing().len() && (
                    #[trigger] self.sessions.listing()[i]).0@ == id;
                assert(alive(self.sessions.listing()[i].1, now));
            }
            assert(live_sessions(self@, now) =~= self@);
        }
    }

    /// Registers a session, after the sessions that are over were dropped.
    pub fn insert_session(&mut self, session: ConnectivitySession, now: u64) -> (result: Result<
        String,
        String,
    >)
        requires
            old(self).wf(),
        ensures
            final(self).wf(),
            ({
                let live = live_sessions(old(self)@, now);
                match result {
                    Ok(id) => {
                        &&& insert_refusal(live, session) is None
                        &&& id@ == id_for(live, session)
                        &&& final(self)@.contains_key(id@)
                        &&& final(self)@ == live.insert(id@, final(self)@[id@])
                        &&& final(self)@[id@].registry_id@ == id@
                        &&& final(self)@[id@] == (ConnectivitySession {
                            registry_id: final(self)@[id@].registry_id,
                            ..session
                        })
                    },
                    Err(error) => insert_refusal(live, session) == Some(error@) && final(self)@
                        == live,
                }
            }),
    {
        self.retain_live(now);
        let ghost live = self@;
        let mut registry_id: String = session.id.clone();
        if self.sessions.contains(&registry_id) {
            append_text(&mut registry_id, "@");
            append_text(&mut registry_id, role_label(session.role));
        }
        let taken: bool = self.sessions.contains(&registry_id);
        if self.sessions.len() >= MAX_CONNECTIVITY_SESSIONS && !taken {
            return Err("native-connectivity-session-limit-reached".to_owned());
        }
        if taken {
            return Err("native-connectivity-session-already-exists".to_owned());
        }
        let mut registered: ConnectivitySession = session;
        registered.registry_id = registry_id.clone();
        let id: String = registry_id.clone();
        self.sessions.insert(registry_id, registered);
        assert(self@ =~= live.insert(id@, registered));
        Ok(id)
    }

    /// The session with an identifier.
    pub fn lookup_session(&self, id: &str) -> (result: Result<&ConnectivitySession, String>)
        requires
            self.wf(),
        ensures
            match result {
                Ok(session) => canonical_id(id@) matches Some(key) && self@.contains_key(key)
                    && *session == self@[key],
                Err(error) => match canonical_id(id@) {
                    None => error@ == "native-connectivity-session-id-invalid"@,
                    Some(key) => !self@.contains_key(key) && error@
                        == "native-connectivity-session-not-found"@,
                },
            },
    {
        let canonical: String = match canonical_registry_id(id) {
            Ok(canonical) => canonical,
            Err(error) => return Err(error),
        };
        match self.sessions.get(&canonical) {
            Some(session) => Ok(session),
            None => Err("native-connectivity-session-not-found".to_owned()),
        }
    }

    /// Takes a session out, to change it and put it back, or for good.
    pub fn take_session(&mut self, id: &str) -> (result: Result<
        (String, ConnectivitySession),
        String,
    >)
        requires
            old(self).wf(),
        ensures
            final(self).wf(),
            match result {
                Ok((key, session)) => {
                    &&& canonical_id(id@) == Some(key@)
                    &&& old(self)@.contains_key(key@)
                    &&& session == old(self)@[key@]
                    &&& final(self)@ == old(self)@.remove(key@)
                },
                Err(error) => final(self)@ == old(self)@ && match canonical_id(id@) {
                    None => error@ == "native-connectivity-session-id-invalid"@,
                    Some(key) => !old(self)@.contains_key(key) && error@
                        == "native-connectivity-session-not-found"@,
                },
            },
    {
        let canonical: String = match canonical_registry_id(id) {
            Ok(canonical) => canonical,
            Err(error) => return Err(error),
        };
        match self.sessions.remove(&canonical) {
            Some(session) => Ok((canonical, session)),
            None => Err("native-connectivity-session-not-found".to_owned()),
        }
    }

    /// Puts a session back under the identifier that it was taken from.
    pub fn put_session(&mut self, id: String, session: ConnectivitySession)
        requires
            old(self).wf(),
        ensures
            final(self).wf(),
            final(self)@ == old(self)@.insert(id@, session),
    {
        let ghost before = self@;
        let _ = self.sessions.remove(&id);
        self.sessions.insert(id, session);
        assert(self@ =~= before.insert(id@, session));
    }

    /// Forgets all sessions.
    pub fn clear_for_test(&mut self)
        ensures
            final(self).wf(),
            final(self)@ == Map::<Seq<char>, ConnectivitySession>::empty(),
    {
        self.sessions.clear();
    }
}

/// A registered session is found again under the identifier that it was given, and a session
/// that is taken out leaves its place free.
pub proof fn law_taken_session_frees_its_place(
    live: Map<Seq<char>, ConnectivitySession>,
    session: ConnectivitySession,
)
    requires
        live.dom().finite(),
        insert_refusal(live, session) is None,
    ensures
        ({
            let id = id_for(live, session);
            let more = live.insert(id, session);
            &&& more.contains_key(id)
            &&& more.remove(id) == live
            &&& insert_refusal(more.remove(id), session) is None
            &&& live.dom().len() < MAX_CONNECTIVITY_SESSIONS
        }),
{
    let id = id_for(live, session);
    assert(live.insert(id, session).remove(id) =~= live);
}

/// Whether two candidates name the same endpoint in the same way.
pub open spec fn same_endpoint(left: CandidateFacts, right: CandidateFacts) -> bool {
    left.candidate_type == right.candidate_type && left.address == right.address && left.port
        == right.port
}

/// Whether a list holds a candidate with the endpoint of another.
pub open spec fn holds_endpoint(kept: Seq<CandidateFacts>, candidate: CandidateFacts) -> bool {
    exists|i: int| 0 <= i < kept.len() && same_endpoint(#[trigger] kept[i], candidate)
}

/// The candidates without those whose endpoint an earlier one has.
pub open spec fn first_endpoints(candidates: Seq<CandidateFacts>) -> Seq<CandidateFacts>
    decreases candidates.len(),
{
    if candidates.len() == 0 {
        candidates
    } else {
        let kept = first_endpoints(candidates.drop_last());
        if holds_endpoint(kept, candidates.last()) {
            kept
        } else {
            kept.push(candidates.last())
        }
    }
}

/// The best candidates, one for each endpoint, as many as a set may hold.
pub open spec fn deduplicated(candidates: Seq<CandidateFacts>) -> Seq<CandidateFacts> {
    let kept = first_endpoints(in_order::<NativeCandidate>(candidates));
    if kept.len() > MAX_NATIVE_CANDIDATES {
        kept.take(MAX_NATIVE_CANDIDATES as int)
    } else {
        kept
    }
}

fn has_endpoint(kept: &Vec<NativeCandidate>, candidate: &NativeCandidate) -> (found: bool)
    ensures
        found == holds_endpoint(views(kept@), candidate@),
{
    let mut index: usize = 0;
    while index < kept.len()
        invariant
            index <= kept@.len(),
            forall|i: int|
                0 <= i < index ==> !same_endpoint(#[trigger] views(kept@)[i], candidate@),
        decreases kept@.len() - index,
    {
        assert(views(kept@)[index as int] == kept@[index as int]@);
        let other: &NativeCandidate = &kept[index];
        if other.candidate_type == candidate.candidate_type && same_ip(
            &other.address,
            &candidate.address,
        ) && other.port == candidate.port {
            return true;
        }
        index += 1;
    }
    false
}

/// Sorts candidates, keeps one for each endpoint, and no more than a set may hold.
pub fn deduplicate_candidates(candidates: &mut Vec<NativeCandidate>)
    ensures
        views(final(candidates)@) == deduplicated(views(old(candidates)@)),
{
    sort(candidates);
    let ghost sorted = views(candidates@);
    let mut kept: Vec<NativeCandidate> = Vec::new();
    let mut index: usize = 0;
    assert(views(kept@) =~= first_endpoints(sorted.take(0)));
    while index < candidates.len()
        invariant
            index <= candidates@.len(),
            sorted == views(candidates@),
            views(kept@) == first_endpoints(sorted.take(index as int)),
        decreases candidates@.len() - index,
    {
        let ghost before = views(kept@);
        let candidate: &NativeCandidate = &candidates[index];
        proof {
            let next = sorted.take(index + 1);
            assert(next.drop_last() =~= sorted.take(index as int));
            assert(next.last() == candidate@);
        }
        if !has_endpoint(&kept, candidate) {
            kept.push(candidate.clone());
            assert(views(kept@) =~= before.push(candidate@));
        }
        index += 1;
    }
    assert(sorted.take(sorted.len() as int) =~= sorted);
    let ghost all = views(kept@);
    kept.truncate(MAX_NATIVE_CANDIDATES);
    proof {
        if all.len() > MAX_NATIVE_CANDIDATES {
            assert(views(kept@) =~= all.take(MAX_NATIVE_CANDIDATES as int));
        } else {
            assert(views(kept@) =~= all);
        }
    }
    *candidates = kept;
}

/// A copy of a list of candidates with another list behind it.
pub fn joined_candidates(left: &[NativeCandidate], right: &[NativeCandidate]) -> (all: Vec<
    NativeCandidate,
>)
    ensures
        views(all@) == views(left@) + views(right@),
{
    let mut all: Vec<NativeCandidate> = Vec::new();
    let mut index: usize = 0;
    while index < left.len()
        invariant
            index <= left@.len(),
            views(all@) == views(left@).take(index as int),
        decreases left@.len() - index,
    {
        let ghost before = views(all@);
        all.push(left[index].clone());
        proof {
            assert(views(all@) =~= before.push(left@[index as int]@));
            assert(views(left@).take(index + 1) =~= before.push(left@[index as int]@));
        }
        index += 1;
    }
    assert(views(left@).take(left@.len() as int) =~= views(left@));
    let mut at: usize = 0;
    assert(views(all@) =~= views(left@) + views(right@).take(0));
    while at < right.len()
        invariant
            at <= right@.len(),
            views(all@) == views(left@) + views(right@).take(at as int),
        decreases right@.len() - at,
    {
        let ghost before = views(all@);
        all.push(right[at].clone());
        proof {
            assert(views(all@) =~= before.push(right@[at as int]@));
            assert(views(left@) + views(right@).take(at + 1) =~= before.push(right@[at as int]@));
        }
        at += 1;
    }
    assert(views(right@).take(right@.len() as int) =~= views(right@));
    all
}

/// The candidates of the peer with further ones, where they are valid together.
pub fn merge_candidates(
    existing: &mut Vec<NativeCandidate>,
    incoming: &[NativeCandidate],
    allow_loopback: bool,
    now: u64,
) -> (result: Result<(), String>)
    ensures
        ({
            let combined = deduplicated(views(old(existing)@) + views(incoming@));
            match result {
                Ok(()) => batch_defect(combined, allow_loopback, now) is None && views(
                    final(existing)@,
                ) == combined,
                Err(error) => batch_defect(combined, allow_loopback, now) == Some(error@)
                    && *final(existing) == *old(existing),
            }
        }),
{
    let mut combined = joined_candidates(existing.as_slice(), incoming);
    deduplicate_candidates(&mut combined);
    match validate_candidate_batch(combined.as_slice(), allow_loopback, now) {
        Ok(()) => {
            *existing = combined;
            Ok(())
        },
        Err(error) => Err(error),
    }
}

/// The default of a flag of the options, which is off.
pub open spec fn flag(value: Option<bool>) -> bool {
    value == Some(true)
}

/// When the candidates that are gathered now are over.
pub open spec fn gathering_end(options: ConnectivityGatherOptions, default_lifetime_ms: u64, now: u64) -> u64 {
    saturating_sum(
        now,
        clamped(
            match options.candidate_lifetime_ms {
                Some(lifetime) => lifetime,
                None => default_lifetime_ms,
            },
            MIN_CONNECTIVITY_LIFETIME_MS,
            MAX_CONNECTIVITY_LIFETIME_MS,
        ),
    )
}

/// When the candidates that are gathered now are over.
pub fn gathering_expiry(options: &ConnectivityGatherOptions, default_lifetime_ms: u64, now: u64) -> (
end: u64)
    ensures
        end == gathering_end(*options, default_lifetime_ms, now),
{
    let lifetime: u64 = match options.candidate_lifetime_ms {
        Some(lifetime) => lifetime,
        None => default_lifetime_ms,
    };
    now.saturating_add(
        clamp_u64(lifetime, MIN_CONNECTIVITY_LIFETIME_MS, MAX_CONNECTIVITY_LIFETIME_MS),
    )
}

/// An entered candidate with the port of the socket of its family, where none was entered.
pub open spec fn with_port(
    input: ManualCandidateInput,
    ipv4_port: Option<u16>,
    ipv6_port: Option<u16>,
) -> Option<ManualCandidateInput> {
    if input.port != 0 {
        Some(input)
    } else {
        let port = match NativeAddressFamily::of(input.address) {
            NativeAddressFamily::Ipv4 => ipv4_port,
            NativeAddressFamily::Ipv6 => ipv6_port,
        };
        match port {
            Some(number) => Some(ManualCandidateInput { port: number, ..input }),
            None => None,
        }
    }
}

/// The first `n` entered candidates, or why one of them is refused.
pub open spec fn manual_candidates_of(
    inputs: Seq<ManualCandidateInput>,
    ipv4_port: Option<u16>,
    ipv6_port: Option<u16>,
    generation: u32,
    expires_unix_ms: u64,
    allow_loopback: bool,
    n: nat,
) -> Result<Seq<CandidateFacts>, Seq<char>>
    decreases n,
{
    if n == 0 {
        Ok(Seq::empty())
    } else {
        match manual_candidates_of(
            inputs,
            ipv4_port,
            ipv6_port,
            generation,
            expires_unix_ms,
            allow_loopback,
            (n - 1) as nat,
        ) {
            Err(error) => Err(error),
            Ok(before) => match with_port(inputs[n - 1], ipv4_port, ipv6_port) {
                None => Err("native-manual-candidate-family-unavailable"@),
                Some(input) => {
                    let facts = crate::candidates::manual_candidate(
                        input,
                        generation,
                        expires_unix_ms,
                    );
                    match facts.defect(allow_loopback, 0) {
                        Some(error) => Err(error),
                        None => Ok(before.push(facts)),
                    }
                },
            },
        }
    }
}

fn build_manual_candidates(
    inputs: &Vec<ManualCandidateInput>,
    ipv4_port: Option<u16>,
    ipv6_port: Option<u16>,
    generation: u32,
    expires_unix_ms: u64,
    allow_loopback: bool,
) -> (result: Result<Vec<NativeCandidate>, String>)
    ensures
        match result {
            Ok(candidates) => manual_candidates_of(
                inputs@,
                ipv4_port,
                ipv6_port,
                generation,
                expires_unix_ms,
                allow_loopback,
                inputs@.len(),
            ) == Ok::<Seq<CandidateFacts>, Seq<char>>(views(candidates@)),
            Err(error) => manual_candidates_of(
                inputs@,
                ipv4_port,
                ipv6_port,
                generation,
                expires_unix_ms,
                allow_loopback,
                inputs@.len(),
            ) == Err::<Seq<CandidateFacts>, Seq<char>>(error@),
        },
{
    let mut candidates: Vec<NativeCandidate> = Vec::new();
    let mut index: usize = 0;
    assert(views(candidates@) =~= Seq::empty());
    while index < inputs.len()
        invariant
            index <= inputs@.len(),
            manual_candidates_of(
                inputs@,
                ipv4_port,
                ipv6_port,
                generation,
                expires_unix_ms,
                allow_loopback,
                index as nat,
            ) == Ok::<Seq<CandidateFacts>, Seq<char>>(views(candidates@)),
        decreases inputs@.len() - index,
    {
        let mut input: ManualCandidateInput = inputs[index];
        let mut failure: Option<String> = None;
        if input.port == 0 {
            let port: Option<u16> = match NativeAddressFamily::for_ip(input.address) {
                NativeAddressFamily::Ipv4 => ipv4_port,
                NativeAddressFamily::Ipv6 => ipv6_port,
            };
            match port {
                Some(number) => {
                    input.port = number;
                },
                None => {
                    failure = Some("native-manual-candidate-family-unavailable".to_owned());
                },
            }
        }
        let ghost before = views(candidates@);
        if failure.is_none() {
            match input.into_candidate(generation, expires_unix_ms, allow_loopback) {
                Ok(candidate) => {
                    candidates.push(candidate);
                    assert(views(candidates@) =~= before.push(candidate@));
                },
                Err(error) => {
                    failure = Some(error);
                },
            }
        }
        match failure {
            Some(error) => {
                proof {
                    lemma_manual_error(
                        inputs@,
                        ipv4_port,
                        ipv6_port,
                        generation,
                        expires_unix_ms,
                        allow_loopback,
                        (index + 1) as nat,
                        inputs@.len(),
                    );
                }
                return Err(error);
            },
            None => {},
        }
        index += 1;
    }
    Ok(candidates)
}

proof fn lemma_manual_error(
    inputs: Seq<ManualCandidateInput>,
    ipv4_port: Option<u16>,
    ipv6_port: Option<u16>,
    generation: u32,
    expires_unix_ms: u64,
    allow_loopback: bool,
    n: nat,
    m: nat,
)
    requires
        n <= m,
        manual_candidates_of(
            inputs,
            ipv4_port,
            ipv6_port,
            generation,
            expires_unix_ms,
            allow_loopback,
            n,
        ) is Err,
    ensures
        manual_candidates_of(
            inputs,
            ipv4_port,
            ipv6_port,
            generation,
            expires_unix_ms,
            allow_loopback,
            m,
        ) == manual_candidates_of(
            inputs,
            ipv4_port,
            ipv6_port,
            generation,
            expires_unix_ms,
            allow_loopback,
            n,
        ),
    decreases m,
{
    if n < m {
        lemma_manual_error(
            inputs,
            ipv4_port,
            ipv6_port,
            generation,
            expires_unix_ms,
            allow_loopback,
            n,
            (m - 1) as nat,
        );
    }
}

/// Which candidates the peer is told of.
pub open spec fn shown_candidates(
    candidates: Seq<CandidateFacts>,
    options: ConnectivityGatherOptions,
) -> Seq<CandidateFacts> {
    let policy = match options.privacy_policy {
        Some(policy) => policy,
        None => CandidatePrivacyPolicy::LanFirst,
    };
    let same_lan = flag(options.expected_same_lan);
    deduplicated(candidates).filter(
        |candidate: CandidateFacts| admitted(candidate, policy, same_lan),
    )
}

/// The entered candidates of the options.
pub open spec fn manual_inputs(options: ConnectivityGatherOptions) -> Seq<ManualCandidateInput> {
    match options.manual_candidates {
        Some(inputs) => inputs@,
        None => Seq::empty(),
    }
}

/// The local candidates of a session, or why there are none: what was discovered and what was
/// entered, one candidate for each endpoint, as far as the peer may learn of them.
pub open spec fn collected(
    discovered: Seq<CandidateFacts>,
    options: ConnectivityGatherOptions,
    ipv4_port: Option<u16>,
    ipv6_port: Option<u16>,
    generation: u32,
    expires_unix_ms: u64,
    now: u64,
) -> Result<Seq<CandidateFacts>, Seq<char>> {
    let allow_loopback = flag(options.allow_loopback_test);
    match manual_candidates_of(
        manual_inputs(options),
        ipv4_port,
        ipv6_port,
        generation,
        expires_unix_ms,
        allow_loopback,
        manual_inputs(options).len(),
    ) {
        Err(error) => Err(error),
        Ok(manual) => {
            let shown = shown_candidates(discovered + manual, options);
            if options.privacy_policy == Some(CandidatePrivacyPolicy::AllDirect) && !flag(
                options.all_direct_approved,
            ) {
                Err("native-private-candidate-approval-required"@)
            } else {
                match batch_defect(shown, allow_loopback, now) {
                    Some(error) => Err(error),
                    None => Ok(shown),
                }
            }
        },
    }
}

fn flag_value(value: Option<bool>) -> (on: bool)
    ensures
        on == flag(value),
{
    match value {
        Some(on) => on,
        None => false,
    }
}

/// The local candidates of a session, made of the candidates that were discovered on the
/// interfaces, by servers and on the router, and of the entered ones.
pub fn gather_connectivity_candidates(
    discovered: &Vec<NativeCandidate>,
    options: &ConnectivityGatherOptions,
    ipv4_port: Option<u16>,
    ipv6_port: Option<u16>,
    generation: u32,
    expires_unix_ms: u64,
    now: u64,
) -> (result: Result<Vec<NativeCandidate>, String>)
    ensures
        match result {
            Ok(candidates) => collected(
                views(discovered@),
                *options,
                ipv4_port,
                ipv6_port,
                generation,
                expires_unix_ms,
                now,
            ) == Ok::<Seq<CandidateFacts>, Seq<char>>(views(candidates@)),
            Err(error) => collected(
                views(discovered@),
                *options,
                ipv4_port,
                ipv6_port,
                generation,
                expires_unix_ms,
                now,
            ) == Err::<Seq<CandidateFacts>, Seq<char>>(error@),
        },
{
    let allow_loopback: bool = flag_value(options.allow_loopback_test);
    let none: Vec<ManualCandidateInput> = Vec::new();
    assert(none@ =~= Seq::empty());
    let inputs: &Vec<ManualCandidateInput> = match &options.manual_candidates {
        Some(inputs) => inputs,
        None => &none,
    };
    let manual = match build_manual_candidates(
        inputs,
        ipv4_port,
        ipv6_port,
        generation,
        expires_unix_ms,
        allow_loopback,
    ) {
        Ok(manual) => manual,
        Err(error) => return Err(error),
    };
    let mut candidates = joined_candidates(discovered.as_slice(), manual.as_slice());
    deduplicate_candidates(&mut candidates);
    let policy = match options.privacy_policy {
        Some(policy) => policy,
        None => CandidatePrivacyPolicy::LanFirst,
    };
    let shown = match apply_privacy_policy(
        candidates,
        policy,
        flag_value(options.expected_same_lan),
        flag_value(options.all_direct_approved),
    ) {
        Ok(shown) => shown,
        Err(error) => return Err(error),
    };
    match validate_candidate_batch(shown.as_slice(), allow_loopback, now) {
        Ok(()) => Ok(shown),
        Err(error) => Err(error),
    }
}

/// How candidates are gathered on the interfaces.
pub fn host_options(
    options: &ConnectivityGatherOptions,
    ipv4_port: Option<u16>,
    ipv6_port: Option<u16>,
    generation: u32,
    expires_unix_ms: u64,
) -> (host: HostGatherOptions)
    ensures
        host == (HostGatherOptions {
            allow_vpn: flag(options.allow_vpn),
            allow_virtual: flag(options.allow_virtual_adapters),
            allow_loopback_test: flag(options.allow_loopback_test),
            generation,
            expires_unix_ms,
            ipv4_port,
            ipv6_port,
        }),
{
    HostGatherOptions {
        allow_vpn: flag_value(options.allow_vpn),
        allow_virtual: flag_value(options.allow_virtual_adapters),
        allow_loopback_test: flag_value(options.allow_loopback_test),
        generation,
        expires_unix_ms,
        ipv4_port,
        ipv6_port,
    }
}

/// Whether servers are asked for the public endpoint of a socket.
pub fn asks_servers(options: &ConnectivityGatherOptions) -> (asks: bool)
    ensures
        asks == (options.enable_stun != Some(false)),
{
    match options.enable_stun {
        Some(enabled) => enabled,
        None => true,
    }
}

/// The endpoint of the first candidate of a family.
pub open spec fn first_endpoint(
    candidates: Seq<CandidateFacts>,
    family: NativeAddressFamily,
) -> Option<SocketAddress>
    decreases candidates.len(),
{
    if candidates.len() == 0 {
        None
    } else if candidates[0].address_family == family {
        Some(candidates[0].socket())
    } else {
        first_endpoint(candidates.drop_first(), family)
    }
}

/// The endpoint that a public endpoint of a family belongs to.
pub fn related_endpoint(candidates: &Vec<NativeCandidate>, family: NativeAddressFamily) -> (endpoint:
    Option<SocketAddress>)
    ensures
        endpoint == first_endpoint(views(candidates@), family),
{
    let ghost all = views(candidates@);
    assert(all.skip(0) =~= all);
    let mut at: usize = 0;
    while at < candidates.len()
        invariant
            at <= candidates.len(),
            all == views(candidates@),
            first_endpoint(all, family) == first_endpoint(all.skip(at as int), family),
        decreases candidates.len() - at,
    {
        assert(all.skip(at as int)[0] == candidates@[at as int]@);
        if candidates[at].address_family == family {
            return Some(candidates[at].socket_addr());
        }
        assert(all.skip(at as int).drop_first() =~= all.skip(at + 1));
        at += 1;
    }
    None
}

/// What the servers answered about the sockets of one family.
#[derive(Debug)]
pub struct ServerAnswers {
    pub public_endpoint_found: bool,
    pub candidates: Vec<NativeCandidate>,
    pub mapping_behavior: ObservedNatMappingBehavior,
    pub mapping_consistent: Option<bool>,
}

/// The candidates of the first `n` answers.
pub open spec fn answered_candidates(answers: Seq<ServerAnswers>, n: nat) -> Seq<CandidateFacts>
    decreases n,
{
    if n == 0 {
        Seq::empty()
    } else {
        answered_candidates(answers, (n - 1) as nat) + views(answers[n - 1].candidates@)
    }
}

/// Whether one of the first `n` answers names a public endpoint.
pub open spec fn any_endpoint(answers: Seq<ServerAnswers>, n: int) -> bool {
    exists|i: int| 0 <= i < n && (#[trigger] answers[i]).public_endpoint_found
}

/// How the router maps ports, by the last of the first `n` answers that tells it.
pub open spec fn answered_mapping(answers: Seq<ServerAnswers>, n: nat) -> (
    ObservedNatMappingBehavior,
    Option<bool>,
)
    decreases n,
{
    if n == 0 {
        (ObservedNatMappingBehavior::Unknown, None)
    } else if answers[n - 1].mapping_behavior is Unknown {
        answered_mapping(answers, (n - 1) as nat)
    } else {
        (answers[n - 1].mapping_behavior, answers[n - 1].mapping_consistent)
    }
}

/// What was discovered on the interfaces, by servers and on the router.
pub struct Discoveries {
    pub host: HostGatherResult,
    pub answers: Vec<ServerAnswers>,
    pub port_mapping_attempts: Vec<PortMappingAttemptDiagnostic>,
    pub mapped: Option<NativeCandidate>,
}

impl Discoveries {
    /// The candidate on the router, where there is one.
    pub open spec fn mapped_list(self) -> Seq<CandidateFacts> {
        match self.mapped {
            Some(candidate) => seq![candidate@],
            None => Seq::empty(),
        }
    }

    /// All candidates, those of the interfaces first and that of the router last.
    pub open spec fn all(self) -> Seq<CandidateFacts> {
        views(self.host.candidates@) + answered_candidates(self.answers@, self.answers@.len())
            + self.mapped_list()
    }
}

/// Whether diagnostics tell of what was discovered and of nothing else.
pub open spec fn tells_discoveries(
    diagnostics: NativeConnectivityDiagnostics,
    discoveries: Discoveries,
) -> bool {
    let mapping = answered_mapping(discoveries.answers@, discoveries.answers@.len());
    &&& diagnostics.state is Gathering
    &&& diagnostics.interfaces_examined == discoveries.host.diagnostics
    &&& views(diagnostics.host_candidates@) == views(discoveries.host.candidates@)
    &&& diagnostics.observed_nat_mapping == mapping.0
    &&& diagnostics.mapping_consistent_across_stun_servers == mapping.1
    &&& views(diagnostics.mapped_candidates@) == discoveries.mapped_list()
    &&& diagnostics.port_mapping_attempts == discoveries.port_mapping_attempts
    &&& diagnostics.candidate_pairs_attempted@.len() == 0
    &&& diagnostics.probe_results@.len() == 0
    &&& diagnostics.probe_packets_sent == 0
    &&& diagnostics.probe_packets_received == 0
    &&& diagnostics.authenticated_probe_packets_received == 0
    &&& diagnostics.unauthenticated_probe_packets_dropped == 0
    &&& diagnostics.replayed_probe_packets_dropped == 0
    &&& diagnostics.selected_pair is None
    &&& diagnostics.failure_classification is None
    &&& diagnostics.fallback_decision is None
    &&& diagnostics.firewall.udp_bind_succeeded
    &&& diagnostics.firewall.outbound_stun_succeeded == any_endpoint(
        discoveries.answers@,
        discoveries.answers@.len() as int,
    )
    &&& !diagnostics.firewall.inbound_authenticated_probe_observed
    &&& !diagnostics.firewall.quic_handshake_reached
    &&& !diagnostics.firewall.firewall_blocked_likely
    &&& diagnostics.firewall.note@ == "FlowGet never changes Windows Firewall rules."@
    &&& !diagnostics.same_udp_port_preserved_for_stun_probe_and_quic
    &&& diagnostics.quinn_udp_buffer_target_bytes == QUINN_UDP_SOCKET_BUFFER_BYTES
    &&& diagnostics.quinn_udp_send_buffer_bytes is None
    &&& diagnostics.quinn_udp_receive_buffer_bytes is None
    &&& diagnostics.file_payload_bytes_sent_through_signaling == 0
    &&& diagnostics.last_error is None
}

/// The candidates of all discoveries, with the diagnostics that tell of them.
pub fn collect_discoveries(
    discoveries: Discoveries,
    connectivity_session_id: String,
    transfer_id: String,
    candidate_generation: u32,
) -> (collected: (Vec<NativeCandidate>, NativeConnectivityDiagnostics))
    ensures
        views(collected.0@) == discoveries.all(),
        collected.1.connectivity_session_id == connectivity_session_id,
        collected.1.transfer_id == transfer_id,
        collected.1.candidate_generation == candidate_generation,
        tells_discoveries(collected.1, discoveries),
{
    let ghost given = discoveries;
    let Discoveries { host, answers, port_mapping_attempts, mapped } = discoveries;
    let mut diagnostics = NativeConnectivityDiagnostics::empty(
        connectivity_session_id,
        transfer_id,
        candidate_generation,
    );
    diagnostics.firewall.udp_bind_succeeded = true;
    let none: Vec<NativeCandidate> = Vec::new();
    let mut candidates: Vec<NativeCandidate> = joined_candidates(
        host.candidates.as_slice(),
        none.as_slice(),
    );
    assert(views(candidates@) =~= views(host.candidates@) + answered_candidates(answers@, 0));
    let mut found: bool = false;
    let mut mapping: ObservedNatMappingBehavior = ObservedNatMappingBehavior::Unknown;
    let mut consistent: Option<bool> = None;
    let mut at: usize = 0;
    while at < answers.len()
        invariant
            at <= answers.len(),
            views(candidates@) == views(host.candidates@) + answered_candidates(
                answers@,
                at as nat,
            ),
            found == any_endpoint(answers@, at as int),
            (mapping, consistent) == answered_mapping(answers@, at as nat),
        decreases answers.len() - at,
    {
        let answer: &ServerAnswers = &answers[at];
        candidates = joined_candidates(candidates.as_slice(), answer.candidates.as_slice());
        proof {
            assert(views(host.candidates@) + answered_candidates(answers@, at as nat) + views(
                answer.candidates@,
            ) =~= views(host.candidates@) + answered_candidates(answers@, (at + 1) as nat));
            assert(answers@[at as int].public_endpoint_found ==> any_endpoint(
                answers@,
                at as int + 1,
            ));
        }
        if answer.public_endpoint_found {
            found = true;
        }
        if answer.mapping_behavior != ObservedNatMappingBehavior::Unknown {
            mapping = answer.mapping_behavior;
            consistent = answer.mapping_consistent;
        }
        at += 1;
    }
    diagnostics.firewall.outbound_stun_succeeded = found;
    diagnostics.observed_nat_mapping = mapping;
    diagnostics.mapping_consistent_across_stun_servers = consistent;
    diagnostics.port_mapping_attempts = port_mapping_attempts;
    let ghost before = views(candidates@);
    if let Some(candidate) = mapped {
        diagnostics.mapped_candidates.push(candidate.clone());
        candidates.push(candidate);
        assert(views(diagnostics.mapped_candidates@) =~= given.mapped_list());
        assert(views(candidates@) =~= before + given.mapped_list());
    } else {
        assert(views(diagnostics.mapped_candidates@) =~= given.mapped_list());
        assert(views(candidates@) =~= before + given.mapped_list());
    }
    diagnostics.interfaces_examined = host.diagnostics;
    diagnostics.host_candidates = host.candidates;
    (candidates, diagnostics)
}

/// What the gathering of a session came to.
pub struct GatheredConnectivity {
    pub local_candidates: Vec<NativeCandidate>,
    pub diagnostics: NativeConnectivityDiagnostics,
    pub expires_unix_ms: u64,
    pub allow_loopback_test: bool,
    pub network_snapshot: [u8; 32],
}

/// Whether a session is the one that an offer or an answer starts.
pub open spec fn starts_session(
    session: ConnectivitySession,
    id: Seq<char>,
    future_quic_session_id: Seq<char>,
    transfer_id: [u8; 16],
    role: NativeDeviceRole,
    candidate_generation: u32,
    gathered: GatheredConnectivity,
    state: ConnectivityStateName,
) -> bool {
    &&& session.id@ == id
    &&& session.registry_id@ == id
    &&& session.future_quic_session_id@ == future_quic_session_id
    &&& session.transfer_id == transfer_id
    &&& session.role == role
    &&& session.candidate_generation == candidate_generation
    &&& session.expires_unix_ms == gathered.expires_unix_ms
    &&& session.allow_loopback_test == gathered.allow_loopback_test
    &&& session.local_candidates == gathered.local_candidates
    &&& session.state == state
    &&& session.next_sequence == 1
    &&& !session.checks_active
    &&& session.nominated_pair is None
    &&& !session.remote_nomination_authenticated
    &&& session.diagnostics == (NativeConnectivityDiagnostics { state, ..gathered.diagnostics })
    &&& session.network_snapshot == gathered.network_snapshot
}

fn require_candidates(gathered: &GatheredConnectivity) -> (result: Result<(), String>)
    ensures
        match result {
            Ok(()) => gathered.local_candidates@.len() > 0,
            Err(error) => gathered.local_candidates@.len() == 0 && error@
                == "native-connectivity-no-local-candidates"@,
        },
{
    if gathered.local_candidates.len() == 0 {
        return Err("native-connectivity-no-local-candidates".to_owned());
    }
    Ok(())
}

impl ConnectivitySession {
    /// The session of the end that makes an offer. It waits for the candidates of the peer.
    pub fn offered(plan: &OfferPlan, gathered: GatheredConnectivity) -> (result: Result<
        Self,
        String,
    >)
        ensures
            match result {
                Ok(session) => {
                    &&& gathered.local_candidates@.len() > 0
                    &&& starts_session(
                        session,
                        uuid_text(plan.connectivity_session_id@),
                        uuid_text(plan.future_quic_session_id@),
                        plan.transfer_id,
                        plan.role,
                        plan.candidate_generation,
                        gathered,
                        ConnectivityStateName::AwaitingRemoteCandidates,
                    )
                    &&& session.remote_candidates@.len() == 0
                    &&& session.remote_candidate_generation is None
                },
                Err(error) => gathered.local_candidates@.len() == 0 && error@
                    == "native-connectivity-no-local-candidates"@,
            },
    {
        match require_candidates(&gathered) {
            Ok(()) => {},
            Err(error) => return Err(error),
        }
        let mut diagnostics = gathered.diagnostics;
        diagnostics.state = ConnectivityStateName::AwaitingRemoteCandidates;
        Ok(
            ConnectivitySession {
                id: uuid_string(&plan.connectivity_session_id),
                registry_id: uuid_string(&plan.connectivity_session_id),
                future_quic_session_id: uuid_string(&plan.future_quic_session_id),
                transfer_id: plan.transfer_id,
                role: plan.role,
                candidate_generation: plan.candidate_generation,
                expires_unix_ms: gathered.expires_unix_ms,
                allow_loopback_test: gathered.allow_loopback_test,
                local_candidates: gathered.local_candidates,
                state: ConnectivityStateName::AwaitingRemoteCandidates,
                remote_candidates: Vec::new(),
                remote_candidate_generation: None,
                next_sequence: 1,
                checks_active: false,
                nominated_pair: None,
                remote_nomination_authenticated: false,
                diagnostics,
                network_snapshot: gathered.network_snapshot,
            },
        )
    }

    /// The session of the end that answers an offer. It has the candidates of the peer.
    pub fn answered(
        plan: &AnswerPlan,
        offer: &ReceivedOffer,
        remote_candidates: Vec<NativeCandidate>,
        candidate_generation: u32,
        gathered: GatheredConnectivity,
    ) -> (result: Result<Self, String>)
        ensures
            match result {
                Ok(session) => {
                    &&& gathered.local_candidates@.len() > 0
                    &&& starts_session(
                        session,
                        offer.connectivity_session_id@,
                        offer.future_quic_session_id@,
                        plan.transfer_id,
                        plan.role,
                        candidate_generation,
                        gathered,
                        ConnectivityStateName::ReadyToCheck,
                    )
                    &&& session.remote_candidates == remote_candidates
                    &&& session.remote_candidate_generation == Some(offer.candidate_generation)
                },
                Err(error) => gathered.local_candidates@.len() == 0 && error@
                    == "native-connectivity-no-local-candidates"@,
            },
    {
        match require_candidates(&gathered) {
            Ok(()) => {},
            Err(error) => return Err(error),
        }
        let mut diagnostics = gathered.diagnostics;
        diagnostics.state = ConnectivityStateName::ReadyToCheck;
        Ok(
            ConnectivitySession {
                id: offer.connectivity_session_id.clone(),
                registry_id: offer.connectivity_session_id.clone(),
                future_quic_session_id: offer.future_quic_session_id.clone(),
                transfer_id: plan.transfer_id,
                role: plan.role,
                candidate_generation,
                expires_unix_ms: gathered.expires_unix_ms,
                allow_loopback_test: gathered.allow_loopback_test,
                local_candidates: gathered.local_candidates,
                state: ConnectivityStateName::ReadyToCheck,
                remote_candidates,
                remote_candidate_generation: Some(offer.candidate_generation),
                next_sequence: 1,
                checks_active: false,
                nominated_pair: None,
                remote_nomination_authenticated: false,
                diagnostics,
                network_snapshot: gathered.network_snapshot,
            },
        )
    }
}

/// Whether an endpoint can be one of a pair.
pub open spec fn is_pair_endpoint(endpoint: SocketAddress, family: NativeAddressFamily) -> bool {
    crate::hole_punch::usable_source(endpoint, family)
}

fn can_be_endpoint(endpoint: &SocketAddress, family: NativeAddressFamily) -> (result: bool)
    ensures
        result == is_pair_endpoint(*endpoint, family),
{
    endpoint.port != 0 && !endpoint.ip.is_unspecified() && !endpoint.ip.is_multicast()
        && NativeAddressFamily::for_ip(endpoint.ip) == family
}

/// Why the nomination of the peer is refused, if it is. It has to name the pair that this end
/// has verified itself, and for the peer the endpoint that this end knows.
pub open spec fn nomination_refusal(
    nominated: Option<NativeCandidatePair>,
    nomination: NativeCandidateNominationPayload,
    remote_role: NativeDeviceRole,
) -> Option<Seq<char>> {
    match nominated {
        None => Some("native-signaling-nomination-before-direct-verification"@),
        Some(local) => if nomination.pair_id@ != local@.pair_id || nomination.sender_candidate_id@
            != local@.sender_candidate_id || nomination.receiver_candidate_id@
            != local@.receiver_candidate_id {
            Some("native-signaling-nomination-inconsistent"@)
        } else if nomination.sender_observed_endpoint is None
            || nomination.receiver_observed_endpoint is None {
            Some("native-signaling-nomination-invalid"@)
        } else {
            let (remote_claim, local_claim) = if remote_role is Sender {
                (
                    nomination.sender_observed_endpoint->Some_0,
                    nomination.receiver_observed_endpoint->Some_0,
                )
            } else {
                (
                    nomination.receiver_observed_endpoint->Some_0,
                    nomination.sender_observed_endpoint->Some_0,
                )
            };
            if (remote_claim != local@.remote_candidate.socket() && remote_claim
                != local@.remote_socket()) || !is_pair_endpoint(
                remote_claim,
                local@.address_family,
            ) || !is_pair_endpoint(local_claim, local@.address_family) {
                Some("native-signaling-nomination-endpoint-changed"@)
            } else {
                None
            }
        },
    }
}

fn check_nomination(
    nominated: &Option<NativeCandidatePair>,
    nomination: &NativeCandidateNominationPayload,
    remote_role: NativeDeviceRole,
) -> (result: Result<(), String>)
    ensures
        match result {
            Ok(()) => nomination_refusal(*nominated, *nomination, remote_role) is None,
            Err(error) => nomination_refusal(*nominated, *nomination, remote_role) == Some(error@),
        },
{
    let local: &NativeCandidatePair = match nominated {
        Some(pair) => pair,
        None => return Err("native-signaling-nomination-before-direct-verification".to_owned()),
    };
    if !same_text(nomination.pair_id.as_str(), local.pair_id.as_str()) || !same_text(
        nomination.sender_candidate_id.as_str(),
        local.sender_candidate_id.as_str(),
    ) || !same_text(
        nomination.receiver_candidate_id.as_str(),
        local.receiver_candidate_id.as_str(),
    ) {
        return Err("native-signaling-nomination-inconsistent".to_owned());
    }
    let (sender, receiver) = match (
        nomination.sender_observed_endpoint,
        nomination.receiver_observed_endpoint,
    ) {
        (Some(sender), Some(receiver)) => (sender, receiver),
        _ => return Err("native-signaling-nomination-invalid".to_owned()),
    };
    let (remote_claim, local_claim) = if remote_role == NativeDeviceRole::Sender {
        (sender, receiver)
    } else {
        (receiver, sender)
    };
    let advertised: SocketAddress = local.remote_candidate.socket_addr();
    let authenticated: SocketAddress = local.remote_socket_addr();
    if (!same_socket(&remote_claim, &advertised) && !same_socket(&remote_claim, &authenticated))
        || !can_be_endpoint(&remote_claim, local.address_family) || !can_be_endpoint(
        &local_claim,
        local.address_family,
    ) {
        return Err("native-signaling-nomination-endpoint-changed".to_owned());
    }
    Ok(())
}

/// A message of the peer, once its signature was checked.
pub enum RemoteMessage {
    Offer,
    Answer { candidates: Vec<NativeCandidate> },
    Batch { candidates: Vec<NativeCandidate> },
    Nomination(NativeCandidateNominationPayload),
    CheckResult,
    Cancel,
}

impl RemoteMessage {
    /// The name of the kind of message.
    pub open spec fn kind(self) -> Seq<char> {
        match self {
            RemoteMessage::Offer => "native-connectivity-offer"@,
            RemoteMessage::Answer { candidates } => "native-connectivity-answer"@,
            RemoteMessage::Batch { candidates } => "native-candidate-batch"@,
            RemoteMessage::Nomination(_) => "native-candidate-nomination"@,
            RemoteMessage::CheckResult => "native-connectivity-check-result"@,
            RemoteMessage::Cancel => "native-connectivity-cancel"@,
        }
    }

    pub fn message_type(&self) -> (name: &'static str)
        ensures
            name@ == self.kind(),
    {
        match self {
            RemoteMessage::Offer => "native-connectivity-offer",
            RemoteMessage::Answer { candidates: _ } => "native-connectivity-answer",
            RemoteMessage::Batch { candidates: _ } => "native-candidate-batch",
            RemoteMessage::Nomination(_) => "native-candidate-nomination",
            RemoteMessage::CheckResult => "native-connectivity-check-result",
            RemoteMessage::Cancel => "native-connectivity-cancel",
        }
    }
}

#[derive(Debug)]
pub struct AcceptConnectivityOfferRequest {
    pub encoded_offer: String,
    pub candidate_generation: Option<u32>,
    pub gathering: Option<ConnectivityGatherOptions>,
}

#[derive(Debug)]
pub struct AddRemoteCandidatesRequest {
    pub connectivity_session_id: String,
    pub encoded_envelope: String,
}

#[derive(Debug)]
pub struct AddRemoteCandidatesResponse {
    pub connectivity_session_id: String,
    pub accepted_message_type: String,
    pub remote_candidate_count: usize,
    pub state: ConnectivityStateName,
}

/// Whether the candidates of a message are taken over by a session.
pub open spec fn takes_candidates(
    before: ConnectivitySession,
    after: ConnectivitySession,
    candidates: Seq<CandidateFacts>,
    generation: u32,
    now: u64,
) -> bool {
    let combined = deduplicated(views(before.remote_candidates@) + candidates);
    &&& batch_defect(combined, before.allow_loopback_test, now) is None
    &&& views(after.remote_candidates@) == combined
    &&& ({
        let state = if combined.len() > 0 {
            ConnectivityStateName::ReadyToCheck
        } else {
            before.state
        };
        after == (ConnectivitySession {
            remote_candidates: after.remote_candidates,
            remote_candidate_generation: Some(generation),
            state,
            diagnostics: NativeConnectivityDiagnostics { state, ..before.diagnostics },
            ..before
        })
    })
}

/// Why the candidates of a message are refused, if they are.
pub open spec fn candidates_refusal(
    session: ConnectivitySession,
    candidates: Seq<CandidateFacts>,
    now: u64,
) -> Option<Seq<char>> {
    batch_defect(
        deduplicated(views(session.remote_candidates@) + candidates),
        session.allow_loopback_test,
        now,
    )
}

/// Why a message of the peer is refused, if it is. `replay` is what the window for replayed
/// messages says of it.
pub open spec fn message_refusal(
    session: ConnectivitySession,
    message: RemoteMessage,
    generation: u32,
    replay: Result<(), String>,
    now: u64,
) -> Option<Seq<char>> {
    if replay is Err {
        Some(replay->Err_0@)
    } else if session.remote_candidate_generation matches Some(known) && generation < known {
        Some("native-signaling-candidate-generation-rollback"@)
    } else {
        match message {
            RemoteMessage::Answer { candidates } => candidates_refusal(
                session,
                views(candidates@),
                now,
            ),
            RemoteMessage::Batch { candidates } => candidates_refusal(
                session,
                views(candidates@),
                now,
            ),
            RemoteMessage::Nomination(nomination) => nomination_refusal(
                session.nominated_pair,
                nomination,
                session.role.other(),
            ),
            RemoteMessage::Offer => Some("native-signaling-unexpected-offer"@),
            RemoteMessage::CheckResult | RemoteMessage::Cancel => None,
        }
    }
}

/// Whether a session has taken a message of the peer.
pub open spec fn takes_message(
    before: ConnectivitySession,
    after: ConnectivitySession,
    message: RemoteMessage,
    generation: u32,
    now: u64,
) -> bool {
    match message {
        RemoteMessage::Answer { candidates } => takes_candidates(
            before,
            after,
            views(candidates@),
            generation,
            now,
        ),
        RemoteMessage::Batch { candidates } => takes_candidates(
            before,
            after,
            views(candidates@),
            generation,
            now,
        ),
        RemoteMessage::Nomination(_) => after == (ConnectivitySession {
            remote_nomination_authenticated: true,
            diagnostics: NativeConnectivityDiagnostics {
                state: before.state,
                ..before.diagnostics
            },
            ..before
        }),
        RemoteMessage::Cancel => after == (ConnectivitySession {
            state: ConnectivityStateName::Cancelled,
            diagnostics: NativeConnectivityDiagnostics {
                state: ConnectivityStateName::Cancelled,
                ..before.diagnostics
            },
            ..before
        }),
        _ => after == (ConnectivitySession {
            diagnostics: NativeConnectivityDiagnostics {
                state: before.state,
                ..before.diagnostics
            },
            ..before
        }),
    }
}

impl ConnectivitySession {
    /// Takes a message of the peer. A nomination is accepted only for the pair that this end
    /// has verified itself.
    pub fn add_remote_message(
        &mut self,
        message: &RemoteMessage,
        candidate_generation: u32,
        replay: Result<(), String>,
        now: u64,
    ) -> (result: Result<AddRemoteCandidatesResponse, String>)
        ensures
            match message_refusal(*old(self), *message, candidate_generation, replay, now) {
                Some(reason) => {
                    &&& result matches Err(error) && error@ == reason
                    &&& *final(self) == *old(self)
                },
                None => {
                    &&& takes_message(*old(self), *final(self), *message, candidate_generation, now)
                    &&& result matches Ok(response) && response.connectivity_session_id@
                        == old(self).registry_id@ && response.accepted_message_type@
                        == message.kind() && response.remote_candidate_count
                        == final(self).remote_candidates@.len() && response.state
                        == final(self).state
                },
            },
    {
        match replay {
            Ok(()) => {},
            Err(error) => return Err(error),
        }
        match self.remote_candidate_generation {
            Some(known) => {
                if candidate_generation < known {
                    return Err("native-signaling-candidate-generation-rollback".to_owned());
                }
            },
            None => {},
        }
        match message {
            RemoteMessage::Answer { candidates } | RemoteMessage::Batch { candidates } => {
                match merge_candidates(
                    &mut self.remote_candidates,
                    candidates.as_slice(),
                    self.allow_loopback_test,
                    now,
                ) {
                    Ok(()) => {},
                    Err(error) => return Err(error),
                }
                self.remote_candidate_generation = Some(candidate_generation);
                assert(views(self.remote_candidates@).len() == self.remote_candidates@.len());
                if self.remote_candidates.len() > 0 {
                    self.state = ConnectivityStateName::ReadyToCheck;
                }
            },
            RemoteMessage::Nomination(nomination) => {
                match check_nomination(
                    &self.nominated_pair,
                    nomination,
                    self.role.opposite(),
                ) {
                    Ok(()) => {},
                    Err(error) => return Err(error),
                }
                self.remote_nomination_authenticated = true;
            },
            RemoteMessage::Cancel => {
                self.state = ConnectivityStateName::Cancelled;
            },
            RemoteMessage::CheckResult => {},
            RemoteMessage::Offer => {
                return Err("native-signaling-unexpected-offer".to_owned());
            },
        }
        self.diagnostics.state = self.state;
        Ok(
            AddRemoteCandidatesResponse {
                connectivity_session_id: self.registry_id.clone(),
                accepted_message_type: message.message_type().to_owned(),
                remote_candidate_count: self.remote_candidates.len(),
                state: self.state,
            },
        )
    }
}

/// A nomination is taken only where it names the pair that this end has verified itself and
/// nominated, whatever else it holds.
pub proof fn law_nomination_needs_own_verification(
    session: ConnectivitySession,
    nomination: NativeCandidateNominationPayload,
    generation: u32,
    replay: Result<(), String>,
    now: u64,
)
    requires
        message_refusal(
            session,
            RemoteMessage::Nomination(nomination),
            generation,
            replay,
            now,
        ) is None,
    ensures
        session.nominated_pair matches Some(own) && nomination.pair_id@ == own@.pair_id
            && nomination.sender_candidate_id@ == own@.sender_candidate_id
            && nomination.receiver_candidate_id@ == own@.receiver_candidate_id,
{
}

/// The counters of several reports together.
pub struct ReportTotals {
    pub sent: nat,
    pub received: nat,
    pub authenticated: nat,
    pub unauthenticated: nat,
    pub replayed: nat,
}

impl ReportTotals {
    /// Whether every counter can be counted.
    pub open spec fn countable(self) -> bool {
        &&& self.sent <= u32::MAX
        &&& self.received <= u32::MAX
        &&& self.authenticated <= u32::MAX
        &&& self.unauthenticated <= u32::MAX
        &&& self.replayed <= u32::MAX
    }
}

/// The counters of the first `n` reports together.
pub open spec fn totals_of(reports: Seq<HolePunchReport>, n: nat) -> ReportTotals
    decreases n,
{
    if n == 0 {
        ReportTotals { sent: 0, received: 0, authenticated: 0, unauthenticated: 0, replayed: 0 }
    } else {
        let before = totals_of(reports, (n - 1) as nat);
        let report = reports[n - 1];
        ReportTotals {
            sent: before.sent + report.total_packets_sent as nat,
            received: before.received + report.total_packets_received as nat,
            authenticated: before.authenticated + report.authenticated_packets_received as nat,
            unauthenticated: before.unauthenticated + report.unauthenticated_packets_dropped as nat,
            replayed: before.replayed + report.replayed_packets_dropped as nat,
        }
    }
}

proof fn lemma_totals_grow(reports: Seq<HolePunchReport>, n: nat, m: nat)
    requires
        n <= m,
    ensures
        totals_of(reports, n).sent <= totals_of(reports, m).sent,
        totals_of(reports, n).received <= totals_of(reports, m).received,
        totals_of(reports, n).authenticated <= totals_of(reports, m).authenticated,
        totals_of(reports, n).unauthenticated <= totals_of(reports, m).unauthenticated,
        totals_of(reports, n).replayed <= totals_of(reports, m).replayed,
    decreases m,
{
    if n < m {
        lemma_totals_grow(reports, n, (m - 1) as nat);
    }
}

/// The pair with an identifier, by its place.
pub open spec fn pair_at(pairs: Seq<PairFacts>, id: Seq<char>, at: int) -> bool {
    &&& 0 <= at < pairs.len()
    &&& pairs[at].pair_id == id
    &&& forall|i: int| 0 <= i < at ==> (#[trigger] pairs[i]).pair_id != id
}

/// Where the first pair with an identifier stands, if there is one.
pub open spec fn pair_index(pairs: Seq<PairFacts>, id: Seq<char>) -> Option<int> {
    if exists|at: int| #[trigger] pair_at(pairs, id, at) {
        Some(choose|at: int| #[trigger] pair_at(pairs, id, at))
    } else {
        None
    }
}

/// The pair that the first `n` reports choose together: the one with the highest priority, the
/// last one where several have it.
pub open spec fn joint_choice(
    reports: Seq<HolePunchReport>,
    pairs: Seq<PairFacts>,
    n: nat,
) -> Option<int>
    decreases n,
{
    if n == 0 {
        None
    } else {
        let before = joint_choice(reports, pairs, (n - 1) as nat);
        let found = match reports[n - 1].selected_pair_id {
            Some(id) => pair_index(pairs, id@),
            None => None,
        };
        match (before, found) {
            (Some(a), Some(b)) => if pairs[a].priority > pairs[b].priority {
                before
            } else {
                found
            },
            (Some(_), None) => before,
            (None, _) => found,
        }
    }
}

/// The results of the pairs of the first `n` reports.
pub open spec fn joint_results(reports: Seq<HolePunchReport>, n: nat) -> Seq<ResultFacts>
    decreases n,
{
    if n == 0 {
        Seq::empty()
    } else {
        joint_results(reports, (n - 1) as nat) + views(reports[n - 1].pair_results@)
    }
}

/// The earliest start of the first `n` reports, or `now` where there are none.
pub open spec fn earliest_start(reports: Seq<HolePunchReport>, now: u64, n: nat) -> u64
    decreases n,
{
    if n == 0 {
        now
    } else {
        let before = earliest_start(reports, now, (n - 1) as nat);
        let start = reports[n - 1].started_unix_ms;
        if n == 1 || start < before {
            start
        } else {
            before
        }
    }
}

/// The longest time that the first `n` reports took.
pub open spec fn longest_time(reports: Seq<HolePunchReport>, n: nat) -> u64
    decreases n,
{
    if n == 0 {
        0
    } else {
        let before = longest_time(reports, (n - 1) as nat);
        if reports[n - 1].elapsed > before {
            reports[n - 1].elapsed
        } else {
            before
        }
    }
}

/// The highest rate limit of the first `n` reports, or the usual one where there are none.
pub open spec fn highest_rate(reports: Seq<HolePunchReport>, n: nat) -> u32
    decreases n,
{
    if n == 0 {
        64
    } else {
        let before = highest_rate(reports, (n - 1) as nat);
        let rate = reports[n - 1].rate_limit_packets_per_second;
        if n == 1 || rate > before {
            rate
        } else {
            before
        }
    }
}

/// Whether all of the first `n` reports say that nothing came through.
pub open spec fn all_blocked(reports: Seq<HolePunchReport>) -> bool {
    forall|i: int|
        0 <= i < reports.len() ==> (#[trigger] reports[i]).failure == Some(
            NativeConnectivityFailure::UdpBlocked,
        )
}

/// Whether a report is that of several checks together.
pub open spec fn combines(
    combined: HolePunchReport,
    reports: Seq<HolePunchReport>,
    pairs: Seq<PairFacts>,
    now: u64,
) -> bool {
    let totals = totals_of(reports, reports.len());
    let choice = joint_choice(reports, pairs, reports.len());
    &&& combined.started_unix_ms == earliest_start(reports, now, reports.len())
    &&& combined.elapsed == longest_time(reports, reports.len())
    &&& combined.total_packets_sent == totals.sent
    &&& combined.total_packets_received == totals.received
    &&& combined.authenticated_packets_received == totals.authenticated
    &&& combined.unauthenticated_packets_dropped == totals.unauthenticated
    &&& combined.replayed_packets_dropped == totals.replayed
    &&& combined.rate_limit_packets_per_second == highest_rate(reports, reports.len())
    &&& views(combined.pair_results@) == joint_results(reports, reports.len())
    &&& match combined.selected_pair_id {
        Some(id) => choice matches Some(at) && id@ == pairs[at].pair_id,
        None => choice is None,
    }
    &&& combined.failure == if choice is Some {
        None
    } else if all_blocked(reports) {
        Some(NativeConnectivityFailure::UdpBlocked)
    } else {
        Some(NativeConnectivityFailure::NoViablePair)
    }
}

fn find_pair_index(pairs: &Vec<NativeCandidatePair>, id: &str) -> (found: Option<usize>)
    ensures
        match found {
            Some(at) => at < pairs@.len() && pair_index(views(pairs@), id@) == Some(at as int),
            None => pair_index(views(pairs@), id@) is None,
        },
{
    let ghost facts = views(pairs@);
    let mut index: usize = 0;
    while index < pairs.len()
        invariant
            index <= pairs@.len(),
            facts == views(pairs@),
            forall|i: int| 0 <= i < index ==> (#[trigger] facts[i]).pair_id != id@,
        decreases pairs@.len() - index,
    {
        assert(facts[index as int] == pairs@[index as int]@);
        if same_text(pairs[index].pair_id.as_str(), id) {
            proof {
                assert(pair_at(facts, id@, index as int));
                let chosen = choose|at: int| #[trigger] pair_at(facts, id@, at);
                if chosen < index {
                    assert(facts[chosen].pair_id == id@);
                } else if chosen > index {
                    assert(facts[index as int].pair_id != id@);
                }
            }
            return Some(index);
        }
        index += 1;
    }
    None
}

fn choose_pair(reports: &Vec<HolePunchReport>, pairs: &Vec<NativeCandidatePair>) -> (choice: Option<
    usize,
>)
    ensures
        match choice {
            Some(at) => at < pairs@.len() && joint_choice(
                reports@,
                views(pairs@),
                reports@.len(),
            ) == Some(at as int),
            None => joint_choice(reports@, views(pairs@), reports@.len()) is None,
        },
{
    let mut choice: Option<usize> = None;
    let mut index: usize = 0;
    while index < reports.len()
        invariant
            index <= reports@.len(),
            match choice {
                Some(at) => at < pairs@.len() && joint_choice(
                    reports@,
                    views(pairs@),
                    index as nat,
                ) == Some(at as int),
                None => joint_choice(reports@, views(pairs@), index as nat) is None,
            },
        decreases reports@.len() - index,
    {
        let found: Option<usize> = match &reports[index].selected_pair_id {
            Some(id) => find_pair_index(pairs, id.as_str()),
            None => None,
        };
        match (choice, found) {
            (Some(a), Some(b)) => {
                assert(views(pairs@)[a as int] == pairs@[a as int]@);
                assert(views(pairs@)[b as int] == pairs@[b as int]@);
                if !(pairs[a].priority > pairs[b].priority) {
                    choice = found;
                }
            },
            (Some(_), None) => {},
            (None, _) => {
                choice = found;
            },
        }
        index += 1;
    }
    choice
}

fn append_results(all: &mut Vec<ProbePairResult>, results: &Vec<ProbePairResult>)
    ensures
        views(final(all)@) == views(old(all)@) + views(results@),
{
    let ghost start = views(all@);
    let mut index: usize = 0;
    assert(start + views(results@).take(0) =~= start);
    while index < results.len()
        invariant
            index <= results@.len(),
            views(all@) == start + views(results@).take(index as int),
        decreases results@.len() - index,
    {
        let ghost before = views(all@);
        all.push(results[index].clone());
        proof {
            assert(views(all@) =~= before.push(results@[index as int]@));
            assert(start + views(results@).take(index + 1) =~= before.push(
                results@[index as int]@,
            ));
        }
        index += 1;
    }
    assert(views(results@).take(results@.len() as int) =~= views(results@));
}

fn all_reports_blocked(reports: &Vec<HolePunchReport>) -> (blocked: bool)
    ensures
        blocked == all_blocked(reports@),
{
    let mut index: usize = 0;
    while index < reports.len()
        invariant
            index <= reports@.len(),
            forall|i: int|
                0 <= i < index ==> (#[trigger] reports@[i]).failure == Some(
                    NativeConnectivityFailure::UdpBlocked,
                ),
        decreases reports@.len() - index,
    {
        match reports[index].failure {
            Some(NativeConnectivityFailure::UdpBlocked) => {},
            _ => return false,
        }
        index += 1;
    }
    true
}

/// The checks of several address families as one.
pub fn combine_hole_punch_reports(
    reports: &Vec<HolePunchReport>,
    pairs: &Vec<NativeCandidatePair>,
    now: u64,
) -> (combined: HolePunchReport)
    requires
        totals_of(reports@, reports@.len()).countable(),
    ensures
        combines(combined, reports@, views(pairs@), now),
{
    let mut started_unix_ms: u64 = now;
    let mut elapsed: u64 = 0;
    let mut sent: u32 = 0;
    let mut received: u32 = 0;
    let mut authenticated: u32 = 0;
    let mut unauthenticated: u32 = 0;
    let mut replayed: u32 = 0;
    let mut rate: u32 = 64;
    let mut pair_results: Vec<ProbePairResult> = Vec::new();
    let mut index: usize = 0;
    assert(views(pair_results@) =~= joint_results(reports@, 0));
    while index < reports.len()
        invariant
            index <= reports@.len(),
            totals_of(reports@, reports@.len()).countable(),
            started_unix_ms == earliest_start(reports@, now, index as nat),
            elapsed == longest_time(reports@, index as nat),
            sent == totals_of(reports@, index as nat).sent,
            received == totals_of(reports@, index as nat).received,
            authenticated == totals_of(reports@, index as nat).authenticated,
            unauthenticated == totals_of(reports@, index as nat).unauthenticated,
            replayed == totals_of(reports@, index as nat).replayed,
            rate == highest_rate(reports@, index as nat),
            views(pair_results@) == joint_results(reports@, index as nat),
        decreases reports@.len() - index,
    {
        proof {
            lemma_totals_grow(reports@, (index + 1) as nat, reports@.len());
        }
        let report: &HolePunchReport = &reports[index];
        if index == 0 || report.started_unix_ms < started_unix_ms {
            started_unix_ms = report.started_unix_ms;
        }
        if report.elapsed > elapsed {
            elapsed = report.elapsed;
        }
        sent = sent + report.total_packets_sent;
        received = received + report.total_packets_received;
        authenticated = authenticated + report.authenticated_packets_received;
        unauthenticated = unauthenticated + report.unauthenticated_packets_dropped;
        replayed = replayed + report.replayed_packets_dropped;
        if index == 0 || report.rate_limit_packets_per_second > rate {
            rate = report.rate_limit_packets_per_second;
        }
        append_results(&mut pair_results, &report.pair_results);
        index += 1;
    }
    let choice: Option<usize> = choose_pair(reports, pairs);
    let selected_pair_id: Option<String> = match choice {
        Some(at) => {
            assert(views(pairs@)[at as int] == pairs@[at as int]@);
            Some(pairs[at].pair_id.clone())
        },
        None => None,
    };
    let failure = if choice.is_some() {
        None
    } else if all_reports_blocked(reports) {
        Some(NativeConnectivityFailure::UdpBlocked)
    } else {
        Some(NativeConnectivityFailure::NoViablePair)
    };
    HolePunchReport {
        started_unix_ms,
        elapsed,
        total_packets_sent: sent,
        total_packets_received: received,
        authenticated_packets_received: authenticated,
        unauthenticated_packets_dropped: unauthenticated,
        replayed_packets_dropped: replayed,
        rate_limit_packets_per_second: rate,
        pair_results,
        selected_pair_id,
        failure,
    }
}

/// The first viable result of the pair with an identifier, by its place.
pub open spec fn viable_result_at(results: Seq<ResultFacts>, id: Seq<char>, at: int) -> bool {
    &&& 0 <= at < results.len()
    &&& results[at].pair_id == id
    &&& results[at].viable
    &&& forall|i: int| 0 <= i < at ==> (#[trigger] results[i]).pair_id != id || !results[i].viable
}

/// The endpoint from which the peer's authenticated packets came all along, where it is not the
/// advertised one.
pub open spec fn learned_endpoint(pair: PairFacts, results: Seq<ResultFacts>) -> Option<
    SocketAddress,
> {
    if exists|at: int| #[trigger] viable_result_at(results, pair.pair_id, at) {
        let result = results[choose|at: int| #[trigger] viable_result_at(results, pair.pair_id, at)];
        match result.observed_source_endpoint {
            Some(endpoint) => if result.source_endpoint_stable && is_pair_endpoint(
                endpoint,
                pair.address_family,
            ) && endpoint != pair.remote_candidate.socket() {
                Some(endpoint)
            } else {
                None
            },
            None => None,
        }
    } else {
        None
    }
}

/// A pair with what the probes have learned of its remote endpoint.
pub open spec fn with_learned_endpoint(pair: PairFacts, results: Seq<ResultFacts>) -> PairFacts {
    match learned_endpoint(pair, results) {
        Some(endpoint) => PairFacts { peer_reflexive_remote_endpoint: Some(endpoint), ..pair },
        None => pair,
    }
}

/// A pair with the endpoint that the peer was stably seen at, where a check found one.
pub fn pair_with_authenticated_remote_endpoint(
    pair: NativeCandidatePair,
    report: &HolePunchReport,
) -> (learned: NativeCandidatePair)
    ensures
        learned@ == with_learned_endpoint(pair@, views(report.pair_results@)),
{
    let ghost facts = views(report.pair_results@);
    let mut learned: NativeCandidatePair = pair;
    let mut index: usize = 0;
    while index < report.pair_results.len()
        invariant
            index <= report.pair_results@.len(),
            facts == views(report.pair_results@),
            learned == pair,
            forall|i: int|
                0 <= i < index ==> (#[trigger] facts[i]).pair_id != pair@.pair_id
                    || !facts[i].viable,
        decreases report.pair_results@.len() - index,
    {
        let result: &ProbePairResult = &report.pair_results[index];
        assert(facts[index as int] == result@);
        if result.viable && same_text(result.pair_id.as_str(), learned.pair_id.as_str()) {
            proof {
                assert(viable_result_at(facts, pair@.pair_id, index as int));
                let chosen = choose|at: int| #[trigger] viable_result_at(facts, pair@.pair_id, at);
                if chosen < index {
                    assert(facts[chosen].viable);
                } else if chosen > index {
                    assert(facts[index as int].viable);
                }
            }
            match result.observed_source_endpoint {
                Some(endpoint) => {
                    if result.source_endpoint_stable && can_be_endpoint(
                        &endpoint,
                        learned.address_family,
                    ) && !same_socket(&endpoint, &learned.remote_candidate.socket_addr()) {
                        learned.peer_reflexive_remote_endpoint = Some(endpoint);
                    }
                },
                None => {},
            }
            return learned;
        }
        index += 1;
    }
    learned
}

/// Whether a nomination says what an end has found of a pair.
pub open spec fn nominates(
    payload: NativeCandidateNominationPayload,
    pair: PairFacts,
    observation: Option<ResultFacts>,
) -> bool {
    let own_is_sender = pair.local_candidate.candidate_id == pair.sender_candidate_id;
    &&& payload.pair_id@ == pair.pair_id
    &&& payload.sender_candidate_id@ == pair.sender_candidate_id
    &&& payload.receiver_candidate_id@ == pair.receiver_candidate_id
    &&& payload.sender_observed_endpoint == Some(
        if own_is_sender {
            pair.local_candidate.socket()
        } else {
            pair.remote_socket()
        },
    )
    &&& payload.receiver_observed_endpoint == Some(
        if own_is_sender {
            pair.remote_socket()
        } else {
            pair.local_candidate.socket()
        },
    )
    &&& payload.measured_rtt == match observation {
        Some(result) => match result.best_rtt {
            Some(time) => time,
            None => 0,
        },
        None => 0,
    }
    &&& payload.confirmation_count == match observation {
        Some(result) => if result.confirmation_count < 2 {
            2
        } else {
            result.confirmation_count
        },
        None => 2,
    }
}

/// The nomination of a pair.
pub fn nomination_payload(pair: &NativeCandidatePair, observation: Option<&ProbePairResult>) -> (
payload: NativeCandidateNominationPayload)
    ensures
        nominates(
            payload,
            pair@,
            match observation {
                Some(result) => Some(result@),
                None => None,
            },
        ),
{
    let (sender, receiver) = if same_text(
        pair.local_candidate.candidate_id.as_str(),
        pair.sender_candidate_id.as_str(),
    ) {
        (pair.local_candidate.socket_addr(), pair.remote_socket_addr())
    } else {
        (pair.remote_socket_addr(), pair.local_candidate.socket_addr())
    };
    let measured_rtt: u64 = match observation {
        Some(result) => match result.best_rtt {
            Some(time) => time,
            None => 0,
        },
        None => 0,
    };
    let confirmation_count: u8 = match observation {
        Some(result) => if result.confirmation_count < 2 {
            2
        } else {
            result.confirmation_count
        },
        None => 2,
    };
    NativeCandidateNominationPayload {
        pair_id: pair.pair_id.clone(),
        sender_candidate_id: pair.sender_candidate_id.clone(),
        receiver_candidate_id: pair.receiver_candidate_id.clone(),
        sender_observed_endpoint: Some(sender),
        receiver_observed_endpoint: Some(receiver),
        measured_rtt,
        confirmation_count,
    }
}

/// How long the checks take at most, in nanoseconds.
pub fn check_config(total_timeout_ms: Option<u64>) -> (config: HolePunchConfig)
    ensures
        config.total_timeout == clamped(
            match total_timeout_ms {
                Some(timeout) => timeout,
                None => 15_000,
            },
            1_000,
            30_000,
        ) * MILLISECOND,
        config.initial_interval == 250 * MILLISECOND,
        config.max_interval == 1500 * MILLISECOND,
        config.resynchronize_interval == 3 * SECOND,
        config.confirmation_grace == 2 * SECOND,
{
    let wanted: u64 = match total_timeout_ms {
        Some(timeout) => timeout,
        None => 15_000,
    };
    let mut config = HolePunchConfig::default();
    config.total_timeout = clamp_u64(wanted, 1_000, 30_000) * MILLISECOND;
    config
}

/// The pairs of one address family, in their order.
pub open spec fn of_family(pairs: Seq<PairFacts>, family: NativeAddressFamily) -> Seq<PairFacts> {
    pairs.filter(|pair: PairFacts| pair.address_family == family)
}

/// The pairs of one address family, in their order.
pub fn pairs_of_family(pairs: &Vec<NativeCandidatePair>, family: NativeAddressFamily) -> (kept: Vec<
    NativeCandidatePair,
>)
    ensures
        views(kept@) == of_family(views(pairs@), family),
{
    let ghost matching = |pair: PairFacts| pair.address_family == family;
    let ghost all = views(pairs@);
    let mut kept: Vec<NativeCandidatePair> = Vec::new();
    let mut index: usize = 0;
    proof {
        reveal(Seq::filter);
        assert(all.take(0).filter(matching) =~= views(kept@));
    }
    while index < pairs.len()
        invariant
            index <= pairs@.len(),
            all == views(pairs@),
            matching == (|pair: PairFacts| pair.address_family == family),
            views(kept@) == all.take(index as int).filter(matching),
        decreases pairs@.len() - index,
    {
        let ghost before = kept@;
        let pair: &NativeCandidatePair = &pairs[index];
        if pair.address_family == family {
            kept.push(pair.clone());
        }
        proof {
            reveal(Seq::filter);
            let next = all.take(index + 1);
            assert(next.drop_last() =~= all.take(index as int));
            assert(next.last() == pair@);
            if pair@.address_family == family {
                assert(views(kept@) =~= views(before).push(pair@));
            }
        }
        index += 1;
    }
    assert(all.take(all.len() as int) =~= all);
    kept
}

fn copy_pairs(pairs: &Vec<NativeCandidatePair>) -> (copy: Vec<NativeCandidatePair>)
    ensures
        views(copy@) == views(pairs@),
{
    let copy: Vec<NativeCandidatePair> = pairs.clone();
    assert(views(copy@) =~= views(pairs@));
    copy
}

/// Why the checks of a session cannot begin, if they cannot. The last reason ends them.
pub open spec fn checks_refusal(session: ConnectivitySession, now: u64) -> Option<Seq<char>> {
    if now > saturating_sum(session.expires_unix_ms, SESSION_GRACE_MS) {
        Some("native-connectivity-session-expired"@)
    } else if session.checks_active {
        Some("native-connectivity-checks-already-active"@)
    } else if session.remote_candidates@.len() == 0 {
        Some("native-connectivity-remote-candidates-required"@)
    } else {
        None
    }
}

/// The pairs of a session.
pub open spec fn session_pairs(session: ConnectivitySession) -> Seq<PairFacts> {
    candidate_pairs(
        views(session.local_candidates@),
        views(session.remote_candidates@),
        session.role,
    )
}

/// Whether the checks of a session have ended with an error.
pub open spec fn ended_with_error(
    before: ConnectivitySession,
    after: ConnectivitySession,
    error: Seq<char>,
) -> bool {
    &&& after.diagnostics.last_error matches Some(text) && text@ == error
    &&& after == (ConnectivitySession {
        checks_active: false,
        state: ConnectivityStateName::Failed,
        diagnostics: NativeConnectivityDiagnostics {
            state: ConnectivityStateName::Failed,
            last_error: after.diagnostics.last_error,
            ..before.diagnostics
        },
        ..before
    })
}

/// What is sent to the peer once the checks are over, with the sequence number of each message.
pub struct CompletedChecks {
    pub check_result: ConnectivityCheckResultPayload,
    pub check_result_sequence: u64,
    pub nomination: Option<(NativeCandidateNominationPayload, u64)>,
}

/// How many probes the pairs have sent together.
pub open spec fn probes_of(results: Seq<ResultFacts>, n: nat) -> nat
    decreases n,
{
    if n == 0 {
        0
    } else {
        probes_of(results, (n - 1) as nat) + results[n - 1].probes_sent as nat
    }
}

/// The shortest round trip of the first `n` pairs.
pub open spec fn shortest_trip(results: Seq<ResultFacts>, n: nat) -> Option<u64>
    decreases n,
{
    if n == 0 {
        None
    } else {
        let before = shortest_trip(results, (n - 1) as nat);
        match results[n - 1].best_rtt {
            Some(time) => match before {
                Some(best) => if best <= time {
                    before
                } else {
                    Some(time)
                },
                None => Some(time),
            },
            None => before,
        }
    }
}

/// The texts of a list of strings.
pub open spec fn string_views(list: Seq<String>) -> Seq<Seq<char>> {
    Seq::new(list.len(), |i: int| list[i]@)
}

/// The identifiers of the first `n` pairs, on request only of the viable ones.
pub open spec fn ids_of(results: Seq<ResultFacts>, viable_only: bool, n: nat) -> Seq<Seq<char>>
    decreases n,
{
    if n == 0 {
        Seq::empty()
    } else {
        let before = ids_of(results, viable_only, (n - 1) as nat);
        if results[n - 1].viable || !viable_only {
            before.push(results[n - 1].pair_id)
        } else {
            before
        }
    }
}

/// Whether a message to the peer sums up a report.
pub open spec fn sums_up(payload: ConnectivityCheckResultPayload, report: HolePunchReport) -> bool {
    let results = views(report.pair_results@);
    &&& string_views(payload.attempted_pair_ids@) == ids_of(results, false, results.len())
    &&& string_views(payload.viable_pair_ids@) == ids_of(results, true, results.len())
    &&& payload.authenticated_probes_sent == probes_of(results, results.len())
    &&& payload.authenticated_probes_received == report.authenticated_packets_received
    &&& payload.best_rtt == shortest_trip(results, results.len())
    &&& payload.failure == report.failure
}

proof fn lemma_probes_grow(results: Seq<ResultFacts>, n: nat, m: nat)
    requires
        n <= m,
    ensures
        probes_of(results, n) <= probes_of(results, m),
    decreases m,
{
    if n < m {
        lemma_probes_grow(results, n, (m - 1) as nat);
    }
}

fn summarize(report: &HolePunchReport) -> (payload: ConnectivityCheckResultPayload)
    requires
        probes_of(views(report.pair_results@), report.pair_results@.len()) <= u32::MAX,
    ensures
        sums_up(payload, *report),
{
    let ghost results = views(report.pair_results@);
    let mut attempted: Vec<String> = Vec::new();
    let mut viable: Vec<String> = Vec::new();
    let mut probes: u32 = 0;
    let mut best: Option<u64> = None;
    let mut index: usize = 0;
    assert(string_views(attempted@) =~= ids_of(results, false, 0));
    assert(string_views(viable@) =~= ids_of(results, true, 0));
    while index < report.pair_results.len()
        invariant
            index <= report.pair_results@.len(),
            results == views(report.pair_results@),
            probes_of(results, results.len()) <= u32::MAX,
            string_views(attempted@) == ids_of(results, false, index as nat),
            string_views(viable@) == ids_of(results, true, index as nat),
            probes == probes_of(results, index as nat),
            best == shortest_trip(results, index as nat),
        decreases report.pair_results@.len() - index,
    {
        let result: &ProbePairResult = &report.pair_results[index];
        assert(results[index as int] == result@);
        proof {
            lemma_probes_grow(results, (index + 1) as nat, results.len());
        }
        let ghost tried = string_views(attempted@);
        let ghost good = string_views(viable@);
        attempted.push(result.pair_id.clone());
        assert(string_views(attempted@) =~= tried.push(result@.pair_id));
        if result.viable {
            viable.push(result.pair_id.clone());
            assert(string_views(viable@) =~= good.push(result@.pair_id));
        }
        probes = probes + result.probes_sent;
        match result.best_rtt {
            Some(time) => {
                best =
                match best {
                    Some(known) => if known <= time {
                        Some(known)
                    } else {
                        Some(time)
                    },
                    None => Some(time),
                };
            },
            None => {},
        }
        index += 1;
    }
    ConnectivityCheckResultPayload {
        attempted_pair_ids: attempted,
        viable_pair_ids: viable,
        authenticated_probes_sent: probes,
        authenticated_probes_received: report.authenticated_packets_received,
        best_rtt: best,
        failure: report.failure,
    }
}

impl ConnectivitySession {
    fn finish_checks_with_error(&mut self, error: &str)
        ensures
            ended_with_error(*old(self), *final(self), error@),
    {
        self.checks_active = false;
        self.state = ConnectivityStateName::Failed;
        self.diagnostics.state = ConnectivityStateName::Failed;
        self.diagnostics.last_error = Some(error.to_owned());
    }

    /// Begins the checks, and gives the pairs to check.
    pub fn begin_checks(&mut self, now: u64) -> (result: Result<Vec<NativeCandidatePair>, String>)
        ensures
            match checks_refusal(*old(self), now) {
                Some(reason) => {
                    &&& result matches Err(error) && error@ == reason
                    &&& *final(self) == *old(self)
                },
                None => if session_pairs(*old(self)).len() == 0 {
                    &&& result matches Err(error) && error@
                        == "native-connectivity-no-candidate-pairs"@
                    &&& ended_with_error(
                        *old(self),
                        *final(self),
                        "native-connectivity-no-candidate-pairs"@,
                    )
                } else {
                    &&& result matches Ok(pairs) && views(pairs@) == session_pairs(*old(self))
                    &&& views(final(self).diagnostics.candidate_pairs_attempted@) == session_pairs(
                        *old(self),
                    )
                    &&& *final(self) == (ConnectivitySession {
                        checks_active: true,
                        state: ConnectivityStateName::Checking,
                        diagnostics: NativeConnectivityDiagnostics {
                            state: ConnectivityStateName::Checking,
                            candidate_pairs_attempted:
                                final(self).diagnostics.candidate_pairs_attempted,
                            ..old(self).diagnostics
                        },
                        ..*old(self)
                    })
                },
            },
    {
        if now > self.expires_unix_ms.saturating_add(SESSION_GRACE_MS) {
            return Err("native-connectivity-session-expired".to_owned());
        }
        if self.checks_active {
            return Err("native-connectivity-checks-already-active".to_owned());
        }
        if self.remote_candidates.len() == 0 {
            return Err("native-connectivity-remote-candidates-required".to_owned());
        }
        let pairs = build_candidate_pairs(
            self.local_candidates.as_slice(),
            self.remote_candidates.as_slice(),
            self.role,
        );
        assert(views(pairs@).len() == pairs@.len());
        if pairs.len() == 0 {
            self.finish_checks_with_error("native-connectivity-no-candidate-pairs");
            return Err("native-connectivity-no-candidate-pairs".to_owned());
        }
        self.checks_active = true;
        self.state = ConnectivityStateName::Checking;
        self.diagnostics.state = ConnectivityStateName::Checking;
        self.diagnostics.candidate_pairs_attempted = copy_pairs(&pairs);
        Ok(pairs)
    }

    /// Ends the checks with the reports of the address families: sums them up for the peer and
    /// nominates the chosen pair. Where no family could report, the first error ends them.
    pub fn complete_checks(
        &mut self,
        pairs: &Vec<NativeCandidatePair>,
        reports: &Vec<HolePunchReport>,
        errors: &Vec<String>,
        now: u64,
    ) -> (result: Result<CompletedChecks, String>)
        requires
            totals_of(reports@, reports@.len()).countable(),
            probes_of(
                joint_results(reports@, reports@.len()),
                joint_results(reports@, reports@.len()).len(),
            ) <= u32::MAX,
        ensures
            if reports@.len() == 0 {
                &&& result matches Err(error) && error@ == if errors@.len() > 0 {
                    errors@[0]@
                } else {
                    "native-connectivity-checks-failed"@
                } && ended_with_error(*old(self), *final(self), error@)
            } else {
                exists|combined: HolePunchReport| #[trigger]
                    combines(combined, reports@, views(pairs@), now) && completes(
                        *old(self),
                        *final(self),
                        combined,
                        views(pairs@),
                        result,
                    )
            },
    {
        if reports.len() == 0 {
            let error: String = if errors.len() > 0 {
                errors[0].clone()
            } else {
                "native-connectivity-checks-failed".to_owned()
            };
            self.finish_checks_with_error(error.as_str());
            return Err(error);
        }
        let combined = combine_hole_punch_reports(reports, pairs, now);
        let ghost results = views(combined.pair_results@);
        assert(results.len() == combined.pair_results@.len());
        let selected: Option<NativeCandidatePair> = match &combined.selected_pair_id {
            Some(id) => match find_pair_index(pairs, id.as_str()) {
                Some(at) => {
                    assert(views(pairs@)[at as int] == pairs@[at as int]@);
                    Some(pair_with_authenticated_remote_endpoint(pairs[at].clone(), &combined))
                },
                None => None,
            },
            None => None,
        };
        let check_result = summarize(&combined);
        let check_result_sequence: u64 = self.next_sequence;
        self.next_sequence = self.next_sequence.saturating_add(1);
        self.checks_active = false;
        self.diagnostics.apply_hole_punch_report(&combined, selected.as_ref());
        self.diagnostics.same_udp_port_preserved_for_stun_probe_and_quic = false;
        let nomination: Option<(NativeCandidateNominationPayload, u64)> = match selected {
            Some(pair) => {
                let observation = find_result(&combined.pair_results, pair.pair_id.as_str());
                let payload = nomination_payload(&pair, observation);
                let sequence: u64 = self.next_sequence;
                self.next_sequence = self.next_sequence.saturating_add(1);
                self.state = ConnectivityStateName::Nominated;
                self.nominated_pair = Some(pair);
                Some((payload, sequence))
            },
            None => {
                self.state = ConnectivityStateName::Failed;
                None
            },
        };
        let completed = CompletedChecks { check_result, check_result_sequence, nomination };
        assert(combines(combined, reports@, views(pairs@), now));
        Ok(completed)
    }
}

/// The pair that a report has chosen, with what was learned of its remote endpoint.
pub open spec fn chosen_pair(report: HolePunchReport, pairs: Seq<PairFacts>) -> Option<PairFacts> {
    match report.selected_pair_id {
        Some(id) => match pair_index(pairs, id@) {
            Some(at) => Some(with_learned_endpoint(pairs[at], views(report.pair_results@))),
            None => None,
        },
        None => None,
    }
}

/// The sequence number after another.
pub open spec fn next_number(sequence: u64) -> u64 {
    saturating_sum(sequence, 1)
}

/// Whether a session has ended its checks with a report.
pub open spec fn completes(
    before: ConnectivitySession,
    after: ConnectivitySession,
    report: HolePunchReport,
    pairs: Seq<PairFacts>,
    result: Result<CompletedChecks, String>,
) -> bool {
    let chosen = chosen_pair(report, pairs);
    let results = views(report.pair_results@);
    &&& result matches Ok(completed) && sums_up(completed.check_result, report)
        && completed.check_result_sequence == before.next_sequence && match completed.nomination {
        Some((payload, sequence)) => chosen matches Some(pair) && nominates(
            payload,
            pair,
            result_for(results, pair.pair_id),
        ) && sequence == next_number(before.next_sequence),
        None => chosen is None,
    }
    &&& !after.checks_active
    &&& after.state == if chosen is Some {
        ConnectivityStateName::Nominated
    } else {
        ConnectivityStateName::Failed
    }
    &&& after.next_sequence == if chosen is Some {
        next_number(next_number(before.next_sequence))
    } else {
        next_number(before.next_sequence)
    }
    &&& match chosen {
        Some(pair) => after.nominated_pair matches Some(own) && own@ == pair,
        None => after.nominated_pair == before.nominated_pair,
    }
    &&& applies_report(
        before.diagnostics,
        NativeConnectivityDiagnostics {
            same_udp_port_preserved_for_stun_probe_and_quic:
                before.diagnostics.same_udp_port_preserved_for_stun_probe_and_quic,
            ..after.diagnostics
        },
        report,
        chosen,
    )
    &&& !after.diagnostics.same_udp_port_preserved_for_stun_probe_and_quic
    &&& after == (ConnectivitySession {
        checks_active: after.checks_active,
        state: after.state,
        next_sequence: after.next_sequence,
        nominated_pair: after.nominated_pair,
        diagnostics: after.diagnostics,
        ..before
    })
}

/// What is told of a session.
#[derive(Debug)]
pub struct ConnectivityStateResponse {
    pub connectivity_session_id: String,
    pub role: NativeDeviceRole,
    pub state: ConnectivityStateName,
    pub local_candidate_count: usize,
    pub remote_candidate_count: usize,
    pub network_change_detected: bool,
    pub renegotiation_required: bool,
    pub production_native_enabled: bool,
    pub diagnostics: NativeConnectivityDiagnostics,
}

/// What is told of a session that was just made, with the message that goes to the peer.
#[derive(Debug)]
pub struct ConnectivityEnvelopeResponse {
    pub connectivity_session_id: String,
    pub future_quic_session_id: String,
    pub signaling_generation: u64,
    pub candidate_generation: u32,
    pub role: NativeDeviceRole,
    pub encoded_envelope: String,
    pub local_candidates: Vec<NativeCandidate>,
    pub diagnostics: NativeConnectivityDiagnostics,
}

/// What is told of a session whose checks are over, with the messages that go to the peer.
#[derive(Debug)]
pub struct ConnectivityChecksResponse {
    pub connectivity_session_id: String,
    pub state: ConnectivityStateName,
    pub check_result_envelope: String,
    pub nomination_envelope: Option<String>,
    pub diagnostics: NativeConnectivityDiagnostics,
}

/// What is asked of a search whose candidates nobody is shown.
#[derive(Debug)]
pub struct ConnectivityDiagnosticsRequest {
    pub gathering: Option<ConnectivityGatherOptions>,
}

impl Default for ConnectivityDiagnosticsRequest {
    fn default() -> (request: Self)
        ensures
            request.gathering is None,
    {
        ConnectivityDiagnosticsRequest { gathering: None }
    }
}

/// Whether a response tells how a session stands.
pub open spec fn tells_state(
    response: ConnectivityStateResponse,
    session: ConnectivitySession,
    network_snapshot: [u8; 32],
) -> bool {
    &&& response.connectivity_session_id@ == session.registry_id@
    &&& response.role == session.role
    &&& response.state == session.state
    &&& response.local_candidate_count == session.local_candidates@.len()
    &&& response.remote_candidate_count == session.remote_candidates@.len()
    &&& response.network_change_detected == (session.network_snapshot != network_snapshot)
    &&& response.renegotiation_required == response.network_change_detected
    &&& response.production_native_enabled
    &&& response.diagnostics@ == session.diagnostics@
}

/// Why a session has no path that both ends have nominated, if it has none.
pub open spec fn path_refusal(
    session: ConnectivitySession,
    expected_transfer_id: [u8; 16],
    expected_role: NativeDeviceRole,
    now: u64,
) -> Option<Seq<char>> {
    if session.transfer_id != expected_transfer_id {
        Some("native-connectivity-transfer-mismatch"@)
    } else if session.role != expected_role {
        Some("native-connectivity-role-mismatch"@)
    } else if now > saturating_sum(session.expires_unix_ms, SESSION_GRACE_MS) {
        Some("native-connectivity-session-expired"@)
    } else if session.state != ConnectivityStateName::Nominated {
        Some("native-connectivity-path-not-nominated"@)
    } else if !session.remote_nomination_authenticated {
        Some("native-connectivity-peer-nomination-required"@)
    } else if session.nominated_pair is None {
        Some("native-connectivity-path-not-nominated"@)
    } else if parsed_uuid(session.future_quic_session_id@) is None {
        Some("native-connectivity-quic-session-id-invalid"@)
    } else {
        None
    }
}

impl ConnectivitySession {
    /// The identifier under which both ends know the session.
    pub fn identifier(&self) -> (result: Result<[u8; 16], String>)
        ensures
            match result {
                Ok(id) => parsed_uuid(self.id@) == Some(id),
                Err(error) => parsed_uuid(self.id@) is None && error@
                    == "native-connectivity-session-id-invalid"@,
            },
    {
        match uuid_parse(self.id.as_str()) {
            Some(id) => Ok(id),
            None => Err("native-connectivity-session-id-invalid".to_owned()),
        }
    }

    /// Tells how the session stands, given the network as it is now.
    pub fn state_response(&self, network_snapshot: &[u8; 32]) -> (response:
        ConnectivityStateResponse)
        ensures
            tells_state(response, *self, *network_snapshot),
    {
        let same: bool = bytes_equal(&self.network_snapshot, network_snapshot);
        assert(same ==> self.network_snapshot =~= *network_snapshot);
        ConnectivityStateResponse {
            connectivity_session_id: self.registry_id.clone(),
            role: self.role,
            state: self.state,
            local_candidate_count: self.local_candidates.len(),
            remote_candidate_count: self.remote_candidates.len(),
            network_change_detected: !same,
            renegotiation_required: !same,
            production_native_enabled: true,
            diagnostics: self.diagnostics.clone(),
        }
    }

    /// Tells of the session when it was just made.
    pub fn envelope_response(&self, signaling_generation: u64, encoded_envelope: String) -> (
        response: ConnectivityEnvelopeResponse)
        ensures
            response.connectivity_session_id@ == self.registry_id@,
            response.future_quic_session_id@ == self.future_quic_session_id@,
            response.signaling_generation == signaling_generation,
            response.candidate_generation == self.candidate_generation,
            response.role == self.role,
            response.encoded_envelope == encoded_envelope,
            views(response.local_candidates@) == views(self.local_candidates@),
            response.diagnostics@ == self.diagnostics@,
    {
        let local_candidates: Vec<NativeCandidate> = self.local_candidates.clone();
        assert(views(local_candidates@) =~= views(self.local_candidates@));
        ConnectivityEnvelopeResponse {
            connectivity_session_id: self.registry_id.clone(),
            future_quic_session_id: self.future_quic_session_id.clone(),
            signaling_generation,
            candidate_generation: self.candidate_generation,
            role: self.role,
            encoded_envelope,
            local_candidates,
            diagnostics: self.diagnostics.clone(),
        }
    }

    /// Tells of the session when its checks are over.
    pub fn checks_response(
        &self,
        check_result_envelope: String,
        nomination_envelope: Option<String>,
    ) -> (response: ConnectivityChecksResponse)
        ensures
            response.connectivity_session_id@ == self.registry_id@,
            response.state == self.diagnostics.state,
            response.check_result_envelope == check_result_envelope,
            response.nomination_envelope == nomination_envelope,
            response.diagnostics@ == self.diagnostics@,
    {
        ConnectivityChecksResponse {
            connectivity_session_id: self.registry_id.clone(),
            state: self.diagnostics.state,
            check_result_envelope,
            nomination_envelope,
            diagnostics: self.diagnostics.clone(),
        }
    }

    /// Cancels the session.
    pub fn cancel(&mut self)
        ensures
            *final(self) == (ConnectivitySession {
                state: ConnectivityStateName::Cancelled,
                checks_active: false,
                diagnostics: NativeConnectivityDiagnostics {
                    state: ConnectivityStateName::Cancelled,
                    failure_classification: Some(ConnectivityOutcome::Cancelled),
                    ..old(self).diagnostics
                },
                ..*old(self)
            }),
    {
        self.state = ConnectivityStateName::Cancelled;
        self.checks_active = false;
        self.diagnostics.state = ConnectivityStateName::Cancelled;
        self.diagnostics.failure_classification = Some(ConnectivityOutcome::Cancelled);
    }

    /// The pair whose socket is handed to QUIC.
    pub fn nominated_pair(&self) -> (result: Result<NativeCandidatePair, String>)
        ensures
            match self.nominated_pair {
                Some(own) => result matches Ok(pair) && pair@ == own@,
                None => result matches Err(error) && error@
                    == "native-connectivity-path-not-nominated"@,
            },
    {
        match &self.nominated_pair {
            Some(pair) => Ok(pair.clone()),
            None => Err("native-connectivity-path-not-nominated".to_owned()),
        }
    }

    /// The path that both ends have nominated, for the transfer and role that are expected.
    pub fn nominated_path_context(
        &self,
        expected_transfer_id: &[u8; 16],
        expected_role: NativeDeviceRole,
        now: u64,
    ) -> (result: Result<NominatedPathContext, String>)
        ensures
            match result {
                Ok(context) => {
                    &&& path_refusal(*self, *expected_transfer_id, expected_role, now) is None
                    &&& context.connectivity_session_id@ == self.registry_id@
                    &&& Some(context.future_quic_session_id) == parsed_uuid(
                        self.future_quic_session_id@,
                    )
                    &&& context.transfer_id == self.transfer_id
                    &&& context.role == self.role
                    &&& self.nominated_pair matches Some(own) && context.pair@ == own@
                    &&& context.expires_unix_ms == self.expires_unix_ms
                },
                Err(error) => path_refusal(*self, *expected_transfer_id, expected_role, now)
                    == Some(error@),
            },
    {
        let same: bool = bytes_equal(&self.transfer_id, expected_transfer_id);
        assert(same ==> self.transfer_id =~= *expected_transfer_id);
        if !same {
            return Err("native-connectivity-transfer-mismatch".to_owned());
        }
        if self.role != expected_role {
            return Err("native-connectivity-role-mismatch".to_owned());
        }
        if now > self.expires_unix_ms.saturating_add(SESSION_GRACE_MS) {
            return Err("native-connectivity-session-expired".to_owned());
        }
        if self.state != ConnectivityStateName::Nominated {
            return Err("native-connectivity-path-not-nominated".to_owned());
        }
        if !self.remote_nomination_authenticated {
            return Err("native-connectivity-peer-nomination-required".to_owned());
        }
        let pair: NativeCandidatePair = match &self.nominated_pair {
            Some(pair) => pair.clone(),
            None => return Err("native-connectivity-path-not-nominated".to_owned()),
        };
        let future_quic_session_id: [u8; 16] = match uuid_parse(
            self.future_quic_session_id.as_str(),
        ) {
            Some(id) => id,
            None => return Err("native-connectivity-quic-session-id-invalid".to_owned()),
        };
        Ok(
            NominatedPathContext {
                connectivity_session_id: self.registry_id.clone(),
                future_quic_session_id,
                transfer_id: self.transfer_id,
                role: self.role,
                pair,
                expires_unix_ms: self.expires_unix_ms,
            },
        )
    }
}

/// A path is used only after both ends have nominated: this end by its own checks, the peer by an
/// authenticated message.
pub proof fn law_path_needs_both_nominations(
    session: ConnectivitySession,
    expected_transfer_id: [u8; 16],
    expected_role: NativeDeviceRole,
    now: u64,
)
    requires
        path_refusal(session, expected_transfer_id, expected_role, now) is None,
    ensures
        session.nominated_pair is Some,
        session.remote_nomination_authenticated,
        session.state == ConnectivityStateName::Nominated,
{
}

/// One address of one network interface.
pub struct NetworkRow {
    text: String,
}

impl View for NetworkRow {
    type V = Seq<char>;

    closed spec fn view(&self) -> Seq<char> {
        self.text@
    }
}

impl Ranked for NetworkRow {
    open spec fn precedes(left: Seq<char>, right: Seq<char>) -> bool {
        text_before(left, right)
    }

    proof fn lemma_order(a: Seq<char>, b: Seq<char>, c: Seq<char>) {
        lemma_text_order(a, b, c);
    }

    fn stands_before(&self, other: &Self) -> (result: bool) {
        is_text_before(self.text.as_str(), other.text.as_str())
    }
}

impl NetworkRow {
    /// The address of an interface as text, with its family.
    pub fn new(name: &str, family: NativeAddressFamily, address: &str) -> (row: Self)
        ensures
            row@ == name@ + (if family is Ipv4 {
                "|4|"@
            } else {
                "|6|"@
            }) + address@,
    {
        let mut text: String = joined(
            name,
            if family == NativeAddressFamily::Ipv4 {
                "|4|"
            } else {
                "|6|"
            },
        );
        append_text(&mut text, address);
        NetworkRow { text }
    }
}

/// The bytes of the first `n` rows, each with its length.
pub open spec fn rows_bytes(rows: Seq<Seq<char>>, n: nat) -> Seq<u8>
    decreases n,
{
    if n == 0 {
        Seq::empty()
    } else {
        rows_bytes(rows, (n - 1) as nat) + text_bytes(rows[n - 1])
    }
}

/// The digest that stands for the addresses of all interfaces, whatever their order.
pub fn current_network_snapshot(rows: Vec<NetworkRow>) -> (snapshot: [u8; 32])
    ensures
        snapshot == sha256_digest(
            rows_bytes(in_order::<NetworkRow>(views(rows@)), rows@.len()),
        ),
{
    let mut sorted: Vec<NetworkRow> = rows;
    sort(&mut sorted);
    let ghost texts = views(sorted@);
    proof {
        crate::ordering::lemma_in_order::<NetworkRow>(views(rows@));
    }
    let mut bytes: Vec<u8> = Vec::new();
    let mut index: usize = 0;
    assert(bytes@ =~= rows_bytes(texts, 0));
    while index < sorted.len()
        invariant
            index <= sorted@.len(),
            texts == views(sorted@),
            bytes@ == rows_bytes(texts, index as nat),
        decreases sorted@.len() - index,
    {
        assert(texts[index as int] == sorted@[index as int]@);
        write_bounded_string(&mut bytes, sorted[index].text.as_str());
        index += 1;
    }
    sha256(bytes.as_slice())
}

} // verus!
