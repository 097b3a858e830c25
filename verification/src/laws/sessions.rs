//! How two devices agree on a path before anything is sent.

use crate::authorization::{invitation_for, AuthorizationRecord, SecurityPolicy};
use crate::candidates::{
    admitted, batch_defect, text_bytes, CandidateFacts, CandidatePrivacyPolicy,
    ManualCandidateInput, NativeAddressFamily, NativeCandidate,
};
use crate::connectivity::{
    after_lookup, alive, answered_mapping, authorization_refusal, candidate_generation_of,
    checks_refusal, chosen_pair, collected, combines, completes, deduplicated, earliest_start,
    ended_with_error, first_endpoint, first_endpoints, flag, gathering_end, generation_of,
    highest_rate, holds_endpoint, id_for, ids_of, insert_refusal, is_hex_32, is_readable_offer,
    joint_choice, learned_endpoint, live_sessions, longest_time, message_refusal, nominates,
    nomination_refusal, offer_refusal, pair_at, pair_index, path_refusal, quic_session_of,
    received_offer_refusal, rows_bytes, same_endpoint, session_pairs, shortest_trip,
    shown_candidates, starts_session, sums_up, takes_message, tells_discoveries, tells_state,
    totals_of, viable_result_at, with_learned_endpoint, with_port, CompletedChecks,
    ConnectivityCheckResultPayload, ConnectivityGatherOptions, ConnectivitySession,
    ConnectivityStateResponse, CreateConnectivityOfferRequest, Discoveries, FreshIdentifiers,
    GatheredConnectivity, NativeCandidateNominationPayload, ReceivedOffer, RemoteMessage,
    ServerAnswers,
};
use crate::connectivity_diagnostics::{ConnectivityStateName, NativeConnectivityDiagnostics};
use crate::encoding::parsed_uuid;
use crate::hole_punch::{HolePunchReport, ResultFacts};
use crate::ordering::{in_order, lemma_in_order, views};
use crate::path_selection::{
    law_pairs_are_bounded_and_of_one_family, law_pairs_stand_by_priority, pair_of, PairFacts,
};
use crate::signaling::{NativeConnectivityFailure, NativeDeviceRole};
use vstd::prelude::*;

verus! {

/// A session lives until half a minute after its time, and those that live are exactly the ones
/// that are kept.
pub proof fn law_sessions_live_for_their_time(
    sessions: Map<Seq<char>, ConnectivitySession>,
    id: Seq<char>,
    now: u64,
)
    ensures
        alive(sessions[id], now) <==> now <= sessions[id].expires_unix_ms + 30_000,
        live_sessions(sessions, now).contains_key(id) <==> sessions.contains_key(id) && now
            <= sessions[id].expires_unix_ms + 30_000,
        live_sessions(sessions, now).contains_key(id) ==> live_sessions(sessions, now)[id]
            == sessions[id],
{
}

/// A session is registered under its own identifier, or under that with its role when the other
/// end of it is here too; it is refused when both places are taken or there is no room.
pub proof fn law_sessions_are_registered_while_there_is_room(
    live: Map<Seq<char>, ConnectivitySession>,
    session: ConnectivitySession,
)
    ensures
        !live.contains_key(session.id@) ==> id_for(live, session) == session.id@,
        live.contains_key(session.id@) && session.role is Sender ==> id_for(live, session)
            == session.id@ + "@"@ + "sender"@,
        live.contains_key(session.id@) && session.role is Receiver ==> id_for(live, session)
            == session.id@ + "@"@ + "receiver"@,
        insert_refusal(live, session) is None <==> !live.contains_key(id_for(live, session))
            && live.dom().len() < 64,
        live.contains_key(id_for(live, session)) ==> insert_refusal(live, session) == Some(
            "native-connectivity-session-already-exists"@,
        ),
{
}

/// Connectivity is set up only for a transfer whose authorization is there and has not ended. To
/// look it up changes nothing but that what ran out is known to have.
pub proof fn law_connectivity_needs_an_authorization(
    records: Map<Seq<u8>, AuthorizationRecord>,
    policy: SecurityPolicy,
    transfer_id: Seq<u8>,
    now: u64,
    other: Seq<u8>,
)
    ensures
        ({
            let refusal = authorization_refusal(records, policy, transfer_id, now);
            let id = invitation_for(records, transfer_id)->Some_0;
            let end = records[id].invitation.body.expires_unix_ms + policy.allowed_clock_skew_ms;
            let state = records[id].state;
            &&& invitation_for(records, transfer_id) is None ==> refusal == Some(
                "resume-authorization-failed"@,
            )
            &&& invitation_for(records, transfer_id) is Some ==> (refusal is None <==> state
                is Claiming || state is Claimed || state is Active || state is Available && now
                <= end)
            &&& invitation_for(records, transfer_id) is None ==> after_lookup(
                records,
                policy,
                transfer_id,
                now,
            ) == records
            &&& invitation_for(records, transfer_id) is Some && other != id ==> after_lookup(
                records,
                policy,
                transfer_id,
                now,
            )[other] == records[other]
        }),
{
}

/// An offer is made exactly for a transfer that is authorized, with a session identifier that is
/// one and with generations that are not zero; what was not asked for is drawn anew.
pub proof fn law_offers_are_made_for_authorized_transfers(
    records: Map<Seq<u8>, AuthorizationRecord>,
    policy: SecurityPolicy,
    request: CreateConnectivityOfferRequest,
    fresh: FreshIdentifiers,
    now: u64,
)
    ensures
        ({
            let id = parsed_uuid(request.transfer_id@);
            let refusal = offer_refusal(records, policy, request, fresh, now);
            &&& refusal is None <==> {
                &&& id is Some
                &&& authorization_refusal(records, policy, id->Some_0@, now) is None
                &&& request.future_quic_session_id matches Some(text) ==> parsed_uuid(
                    text@,
                ) is Some
                &&& request.signaling_generation != Some(0u64)
                &&& request.candidate_generation != Some(0u32)
            }
            &&& request.future_quic_session_id is None ==> quic_session_of(
                request,
                fresh.future_quic_session_id,
            ) == Some(fresh.future_quic_session_id)
            &&& request.signaling_generation is None ==> generation_of(
                request,
                fresh.signaling_generation,
            ) > 0
            &&& request.signaling_generation is None && fresh.signaling_generation > 0
                ==> generation_of(request, fresh.signaling_generation)
                == fresh.signaling_generation
            &&& request.signaling_generation is None && fresh.signaling_generation == 0
                ==> generation_of(request, fresh.signaling_generation) == 1
            &&& request.candidate_generation is None ==> candidate_generation_of(
                request.candidate_generation,
            ) == 1
            &&& request.candidate_generation is Some ==> candidate_generation_of(
                request.candidate_generation,
            ) == request.candidate_generation->Some_0
        }),
{
}

/// An offer that arrives is taken exactly when it is one, all it names is well formed, its
/// transfer is authorized here, and its invitation is that of the transfer.
pub proof fn law_offers_are_taken_for_their_invitation(
    records: Map<Seq<u8>, AuthorizationRecord>,
    policy: SecurityPolicy,
    offer: ReceivedOffer,
    now: u64,
)
    ensures
        ({
            let transfer = parsed_uuid(offer.transfer_id@);
            let id = invitation_for(records, transfer->Some_0@);
            received_offer_refusal(records, policy, offer, now) is None <==> {
                &&& offer.is_offer
                &&& transfer is Some
                &&& parsed_uuid(offer.connectivity_session_id@) is Some
                &&& parsed_uuid(offer.future_quic_session_id@) is Some
                &&& is_hex_32(offer.certificate_commitment_sha256@)
                &&& authorization_refusal(records, policy, transfer->Some_0@, now) is None
                &&& parsed_uuid(offer.invitation_id@) == Some(
                    records[id->Some_0].invitation.body.invitation_id,
                )
            }
        }),
        !offer.is_offer ==> received_offer_refusal(records, policy, offer, now) == Some(
            "native-signaling-offer-required"@,
        ),
{
}

/// Candidates live as long as was asked for, but at least half a minute and at most five minutes.
pub proof fn law_candidate_lifetimes_are_bounded(
    options: ConnectivityGatherOptions,
    default_lifetime_ms: u64,
    now: u64,
)
    requires
        now <= u64::MAX - 300_000,
    ensures
        ({
            let end = gathering_end(options, default_lifetime_ms, now);
            let wanted = if options.candidate_lifetime_ms is Some {
                options.candidate_lifetime_ms->Some_0
            } else {
                default_lifetime_ms
            };
            &&& now + 30_000 <= end <= now + 300_000
            &&& 30_000 <= wanted <= 300_000 ==> end == now + wanted
            &&& wanted < 30_000 ==> end == now + 30_000
            &&& wanted > 300_000 ==> end == now + 300_000
        }),
{
}

/// A candidate that was entered without a port gets that of the socket of its family; one with a
/// port keeps it.
pub proof fn law_missing_ports_are_those_of_the_sockets(
    input: ManualCandidateInput,
    ipv4_port: Option<u16>,
    ipv6_port: Option<u16>,
)
    ensures
        input.port != 0 ==> with_port(input, ipv4_port, ipv6_port) == Some(input),
        input.port == 0 && input.address is V4 ==> (with_port(
            input,
            ipv4_port,
            ipv6_port,
        ) is Some <==> ipv4_port is Some),
        input.port == 0 && input.address is V6 ==> (with_port(
            input,
            ipv4_port,
            ipv6_port,
        ) is Some <==> ipv6_port is Some),
        input.port == 0 ==> (with_port(input, ipv4_port, ipv6_port) matches Some(filled) ==> {
            &&& filled.address == input.address
            &&& filled.priority == input.priority
            &&& input.address is V4 ==> Some(filled.port) == ipv4_port
            &&& input.address is V6 ==> Some(filled.port) == ipv6_port
        }),
{
}

/// Leaving out repeated endpoints keeps one candidate of each, and adds nothing.
pub proof fn law_each_endpoint_is_kept_once(candidates: Seq<CandidateFacts>)
    ensures
        ({
            let kept = first_endpoints(candidates);
            &&& kept.len() <= candidates.len()
            &&& forall|i: int|
                0 <= i < kept.len() ==> candidates.contains(#[trigger] kept[i])
            &&& forall|i: int, j: int|
                0 <= i < j < kept.len() ==> !((#[trigger] kept[i]).candidate_type == (
                #[trigger] kept[j]).candidate_type && kept[i].address == kept[j].address
                    && kept[i].port == kept[j].port)
            &&& forall|k: int|
                0 <= k < candidates.len() ==> exists|i: int|
                    0 <= i < kept.len() && (#[trigger] kept[i]).candidate_type == (
                    #[trigger] candidates[k]).candidate_type && kept[i].address
                        == candidates[k].address && kept[i].port == candidates[k].port
        }),
    decreases candidates.len(),
{
    if candidates.len() > 0 {
        let head = candidates.drop_last();
        let last = candidates.last();
        law_each_endpoint_is_kept_once(head);
        let before = first_endpoints(head);
        let kept = first_endpoints(candidates);
        assert forall|i: int| 0 <= i < kept.len() implies candidates.contains(
            #[trigger] kept[i],
        ) by {
            if i < before.len() {
                assert(kept[i] == before[i]);
                assert(head.contains(before[i]));
                let m = choose|m: int| 0 <= m < head.len() && head[m] == before[i];
                assert(candidates[m] == kept[i]);
            } else {
                assert(candidates[candidates.len() - 1] == kept[i]);
            }
        }
        assert forall|i: int, j: int| 0 <= i < j < kept.len() implies !((
        #[trigger] kept[i]).candidate_type == (#[trigger] kept[j]).candidate_type
            && kept[i].address == kept[j].address && kept[i].port == kept[j].port) by {
            assert(kept[i] == before[i]);
            if j < before.len() {
                assert(kept[j] == before[j]);
            } else {
                assert(!same_endpoint(before[i], last));
            }
        }
        assert forall|k: int| 0 <= k < candidates.len() implies exists|i: int|
            0 <= i < kept.len() && (#[trigger] kept[i]).candidate_type == (
            #[trigger] candidates[k]).candidate_type && kept[i].address == candidates[k].address
                && kept[i].port == candidates[k].port by {
            if k < head.len() {
                assert(candidates[k] == head[k]);
                let i = choose|i: int|
                    0 <= i < before.len() && (#[trigger] before[i]).candidate_type
                        == head[k].candidate_type && before[i].address == head[k].address
                        && before[i].port == head[k].port;
                assert(kept[i] == before[i]);
            } else if holds_endpoint(before, last) {
                let i = choose|i: int|
                    0 <= i < before.len() && same_endpoint(#[trigger] before[i], last);
                assert(kept[i] == before[i]);
            } else {
                assert(kept[kept.len() - 1] == last);
            }
        }
    }
}

/// Candidates of one endpoint are one: the best of them is kept, the kept ones stand by priority,
/// and there are at most so many as are exchanged.
pub proof fn law_repeated_candidates_are_joined(candidates: Seq<CandidateFacts>)
    ensures
        ({
            let kept = deduplicated(candidates);
            &&& kept.len() <= 32
            &&& forall|i: int|
                0 <= i < kept.len() ==> candidates.contains(#[trigger] kept[i])
            &&& forall|i: int, j: int|
                0 <= i < j < kept.len() ==> {
                    &&& (#[trigger] kept[i]).priority >= (#[trigger] kept[j]).priority
                    &&& !(kept[i].candidate_type == kept[j].candidate_type && kept[i].address
                        == kept[j].address && kept[i].port == kept[j].port)
                }
        }),
{
    let sorted = in_order::<NativeCandidate>(candidates);
    lemma_in_order::<NativeCandidate>(candidates);
    law_each_endpoint_is_kept_once(sorted);
    lemma_first_endpoints_by_priority(sorted);
    let all = first_endpoints(sorted);
    let kept = deduplicated(candidates);
    assert forall|i: int| 0 <= i < kept.len() implies candidates.contains(#[trigger] kept[i]) by {
        assert(kept[i] == all[i]);
        assert(sorted.contains(all[i]));
    }
    assert forall|i: int, j: int| 0 <= i < j < kept.len() implies {
        &&& (#[trigger] kept[i]).priority >= (#[trigger] kept[j]).priority
        &&& !(kept[i].candidate_type == kept[j].candidate_type && kept[i].address
            == kept[j].address && kept[i].port == kept[j].port)
    } by {
        assert(kept[i] == all[i] && kept[j] == all[j]);
    }
}

proof fn lemma_first_endpoints_by_priority(candidates: Seq<CandidateFacts>)
    requires
        forall|i: int, j: int|
            0 <= i < j < candidates.len() ==> (#[trigger] candidates[i]).priority >= (
            #[trigger] candidates[j]).priority,
    ensures
        forall|i: int, j: int|
            0 <= i < j < first_endpoints(candidates).len() ==> (
            #[trigger] first_endpoints(candidates)[i]).priority >= (
            #[trigger] first_endpoints(candidates)[j]).priority,
    decreases candidates.len(),
{
    if candidates.len() > 0 {
        let head = candidates.drop_last();
        let before = first_endpoints(head);
        let kept = first_endpoints(candidates);
        lemma_first_endpoints_by_priority(head);
        law_each_endpoint_is_kept_once(head);
        assert forall|i: int, j: int| 0 <= i < j < kept.len() implies (
        #[trigger] kept[i]).priority >= (#[trigger] kept[j]).priority by {
            assert(kept[i] == before[i]);
            if j < before.len() {
                assert(kept[j] == before[j]);
            } else {
                assert(head.contains(before[i]));
                let m = choose|m: int| 0 <= m < head.len() && head[m] == before[i];
                assert(candidates[m] == before[i]);
                assert(candidates[candidates.len() - 1] == kept[j]);
            }
        }
    }
}

/// What a device shows of itself: only what its policy admits, and everything at once only where
/// that was approved.
pub proof fn law_shown_candidates_are_admitted(
    discovered: Seq<CandidateFacts>,
    options: ConnectivityGatherOptions,
    ipv4_port: Option<u16>,
    ipv6_port: Option<u16>,
    generation: u32,
    expires_unix_ms: u64,
    now: u64,
)
    ensures
        ({
            let result = collected(
                discovered,
                options,
                ipv4_port,
                ipv6_port,
                generation,
                expires_unix_ms,
                now,
            );
            let policy = if options.privacy_policy is Some {
                options.privacy_policy->Some_0
            } else {
                CandidatePrivacyPolicy::LanFirst
            };
            &&& result matches Ok(shown) ==> {
                &&& shown.len() <= 32
                &&& policy is AllDirect ==> options.all_direct_approved == Some(true)
                &&& batch_defect(shown, options.allow_loopback_test == Some(true), now) is None
                &&& forall|i: int|
                    0 <= i < shown.len() ==> admitted(
                        #[trigger] shown[i],
                        policy,
                        options.expected_same_lan == Some(true),
                    )
            }
            &&& policy is AllDirect && options.all_direct_approved != Some(true) ==> result is Err
            &&& !(policy is AllDirect && options.all_direct_approved != Some(true))
                && options.manual_candidates is None && batch_defect(
                shown_candidates(discovered, options),
                options.allow_loopback_test == Some(true),
                now,
            ) is None ==> result == Ok::<Seq<CandidateFacts>, Seq<char>>(
                shown_candidates(discovered, options),
            )
        }),
{
    let manual = crate::connectivity::manual_candidates_of(
        crate::connectivity::manual_inputs(options),
        ipv4_port,
        ipv6_port,
        generation,
        expires_unix_ms,
        flag(options.allow_loopback_test),
        crate::connectivity::manual_inputs(options).len(),
    );
    if manual is Ok {
        let all = discovered + manual->Ok_0;
        let policy = if options.privacy_policy is Some {
            options.privacy_policy->Some_0
        } else {
            CandidatePrivacyPolicy::LanFirst
        };
        let same_lan = flag(options.expected_same_lan);
        let test = |candidate: CandidateFacts| admitted(candidate, policy, same_lan);
        law_repeated_candidates_are_joined(all);
        deduplicated(all).filter_lemma(test);
        assert(shown_candidates(all, options) == deduplicated(all).filter(test));
    }
}

/// The first endpoint of an address family is that of a candidate of it, and no earlier candidate
/// is of that family.
pub proof fn law_first_endpoints_are_of_their_family(
    candidates: Seq<CandidateFacts>,
    family: NativeAddressFamily,
) -> (at: int)
    ensures
        match first_endpoint(candidates, family) {
            Some(endpoint) => {
                &&& 0 <= at < candidates.len()
                &&& candidates[at].address_family == family
                &&& endpoint.ip == candidates[at].address
                &&& endpoint.port == candidates[at].port
                &&& forall|i: int|
                    0 <= i < at ==> (#[trigger] candidates[i]).address_family != family
            },
            None => forall|i: int|
                0 <= i < candidates.len() ==> (#[trigger] candidates[i]).address_family != family,
        },
    decreases candidates.len(),
{
    if candidates.len() == 0 || candidates[0].address_family == family {
        0
    } else {
        let rest = candidates.drop_first();
        let at = law_first_endpoints_are_of_their_family(rest, family);
        if first_endpoint(rest, family) is Some {
            assert forall|i: int| 0 <= i < at + 1 implies (
            #[trigger] candidates[i]).address_family != family by {
                if i > 0 {
                    assert(candidates[i] == rest[i - 1]);
                }
            }
        } else {
            assert forall|i: int| 0 <= i < candidates.len() implies (
            #[trigger] candidates[i]).address_family != family by {
                if i > 0 {
                    assert(candidates[i] == rest[i - 1]);
                }
            }
        }
        at + 1
    }
}

/// What is known of a translation is what the last server said that knew anything.
pub proof fn law_the_last_word_on_translation_counts(answers: Seq<ServerAnswers>, n: nat)
    requires
        n <= answers.len(),
    ensures
        answered_mapping(answers, n).0 is Unknown <==> forall|i: int|
            0 <= i < n ==> (#[trigger] answers[i]).mapping_behavior is Unknown,
        n > 0 && !(answers[n - 1].mapping_behavior is Unknown) ==> answered_mapping(answers, n) == (
            answers[n - 1].mapping_behavior,
            answers[n - 1].mapping_consistent,
        ),
        n > 0 && answers[n - 1].mapping_behavior is Unknown ==> answered_mapping(answers, n)
            == answered_mapping(answers, (n - 1) as nat),
    decreases n,
{
    if n > 0 {
        law_the_last_word_on_translation_counts(answers, (n - 1) as nat);
    }
}

/// A nomination is taken exactly when this end has nominated the same pair of the same
/// candidates, and what it says of the endpoints can be: the peer's is where the peer was found,
/// and both can be answered.
pub proof fn law_nominations_must_agree(
    nominated: Option<crate::path_selection::NativeCandidatePair>,
    nomination: NativeCandidateNominationPayload,
    remote_role: NativeDeviceRole,
)
    ensures
        nomination_refusal(nominated, nomination, remote_role) is None <==> {
            let own = nominated->Some_0@;
            let at_sender = nomination.sender_observed_endpoint;
            let at_receiver = nomination.receiver_observed_endpoint;
            let remote = if remote_role is Sender {
                at_sender
            } else {
                at_receiver
            };
            &&& nominated is Some
            &&& nomination.pair_id@ == own.pair_id
            &&& nomination.sender_candidate_id@ == own.sender_candidate_id
            &&& nomination.receiver_candidate_id@ == own.receiver_candidate_id
            &&& at_sender is Some
            &&& at_receiver is Some
            &&& remote == Some(own.remote_candidate.socket()) || remote == Some(own.remote_socket())
            &&& crate::hole_punch::usable_source(at_sender->Some_0, own.address_family)
            &&& crate::hole_punch::usable_source(at_receiver->Some_0, own.address_family)
        },
        nominated is None ==> nomination_refusal(nominated, nomination, remote_role) == Some(
            "native-signaling-nomination-before-direct-verification"@,
        ),
{
}

/// What one end nominates the other end takes: when both found the same pair, each at the
/// endpoint that the other uses, the nomination of one agrees with that of the other.
pub proof fn law_matching_nominations_are_taken(
    payload: NativeCandidateNominationPayload,
    pair: PairFacts,
    observation: Option<ResultFacts>,
    peer: crate::path_selection::NativeCandidatePair,
    role: NativeDeviceRole,
)
    requires
        nominates(payload, pair, observation),
        pair.sender_candidate_id != pair.receiver_candidate_id,
        role is Sender ==> pair.local_candidate.candidate_id == pair.sender_candidate_id,
        role is Receiver ==> pair.local_candidate.candidate_id == pair.receiver_candidate_id,
        peer@.pair_id == pair.pair_id,
        peer@.sender_candidate_id == pair.sender_candidate_id,
        peer@.receiver_candidate_id == pair.receiver_candidate_id,
        peer@.address_family == pair.address_family,
        pair.local_candidate.socket() == peer@.remote_candidate.socket(),
        crate::hole_punch::usable_source(pair.local_candidate.socket(), pair.address_family),
        crate::hole_punch::usable_source(pair.remote_socket(), pair.address_family),
    ensures
        nomination_refusal(Some(peer), payload, role) is None,
        payload.confirmation_count >= 2,
        observation matches Some(result) ==> (result.confirmation_count >= 2
            ==> payload.confirmation_count == result.confirmation_count),
        observation matches Some(result) ==> (result.best_rtt matches Some(time)
            ==> payload.measured_rtt == time),
{
}

/// A message is refused as a replay first, then when it goes back behind a known generation, and
/// then for what it holds; results and cancellations hold nothing to refuse.
pub proof fn law_messages_do_not_go_back(
    session: ConnectivitySession,
    message: RemoteMessage,
    generation: u32,
    replay: Result<(), String>,
    now: u64,
)
    ensures
        ({
            let refusal = message_refusal(session, message, generation, replay, now);
            let back = session.remote_candidate_generation is Some && generation
                < session.remote_candidate_generation->Some_0;
            &&& replay is Err ==> refusal == Some(replay->Err_0@)
            &&& replay is Ok && back ==> refusal == Some(
                "native-signaling-candidate-generation-rollback"@,
            )
            &&& replay is Ok && !back && (message is CheckResult || message is Cancel)
                ==> refusal is None
            &&& message is Offer ==> refusal is Some
            &&& replay is Ok && !back && message is Nomination ==> (refusal is None
                <==> nomination_refusal(
                session.nominated_pair,
                message->Nomination_0,
                session.role.other(),
            ) is None)
            &&& refusal is None ==> replay is Ok && !back
        }),
{
}

/// What a message changes: candidates make a session ready and raise its generation, a nomination
/// is noted, a cancellation ends it, and a result changes nothing.
pub proof fn law_messages_change_their_part(
    before: ConnectivitySession,
    after: ConnectivitySession,
    message: RemoteMessage,
    generation: u32,
    now: u64,
)
    requires
        takes_message(before, after, message, generation, now),
    ensures
        after.id == before.id,
        after.role == before.role,
        after.transfer_id == before.transfer_id,
        after.local_candidates == before.local_candidates,
        after.nominated_pair == before.nominated_pair,
        after.next_sequence == before.next_sequence,
        after.checks_active == before.checks_active,
        after.expires_unix_ms == before.expires_unix_ms,
        after.diagnostics.state == after.state,
        message is Cancel ==> after.state is Cancelled,
        message is Nomination ==> after.remote_nomination_authenticated && after.state
            == before.state,
        !(message is Nomination) ==> after.remote_nomination_authenticated
            == before.remote_nomination_authenticated,
        message is Answer || message is Batch ==> after.remote_candidate_generation == Some(
            generation,
        ),
        message is Answer || message is Batch ==> (after.remote_candidates@.len() > 0
            ==> after.state is ReadyToCheck),
        message is Answer || message is Batch ==> after.remote_candidates@.len() <= 32,
        message is CheckResult ==> after.state == before.state && after.remote_candidates
            == before.remote_candidates && after.remote_candidate_generation
            == before.remote_candidate_generation,
{
    if message is Answer || message is Batch {
        assert(views(after.remote_candidates@).len() == after.remote_candidates@.len());
    }
}

/// Of several reports the chosen pair is one that a report chose, no report chose one with a
/// higher priority, and there is a choice whenever a report made one.
pub proof fn law_the_joint_choice_has_the_highest_priority(
    reports: Seq<HolePunchReport>,
    pairs: Seq<PairFacts>,
    n: nat,
)
    requires
        n <= reports.len(),
    ensures
        match joint_choice(reports, pairs, n) {
            Some(at) => {
                &&& exists|k: int|
                    0 <= k < n && (#[trigger] reports[k]).selected_pair_id is Some && pair_at(
                        pairs,
                        reports[k].selected_pair_id->Some_0@,
                        at,
                    )
                &&& forall|k: int, m: int|
                    0 <= k < n && (#[trigger] reports[k]).selected_pair_id is Some
                        && #[trigger] pair_at(
                        pairs,
                        reports[k].selected_pair_id->Some_0@,
                        m,
                    ) ==> pairs[m].priority <= pairs[at].priority
            },
            None => forall|k: int, m: int|
                0 <= k < n && (#[trigger] reports[k]).selected_pair_id is Some ==> !(
                #[trigger] pair_at(pairs, reports[k].selected_pair_id->Some_0@, m)),
        },
    decreases n,
{
    if n > 0 {
        law_the_joint_choice_has_the_highest_priority(reports, pairs, (n - 1) as nat);
        assert forall|id: Seq<char>, m: int| #[trigger] pair_at(pairs, id, m) implies pair_index(
            pairs,
            id,
        ) == Some(m) by {
            let other = choose|at: int| #[trigger] pair_at(pairs, id, at);
            assert(pair_at(pairs, id, other));
            if other < m {
                assert(pairs[other].pair_id != id);
            } else if m < other {
                assert(pairs[m].pair_id != id);
            }
        }
        let before = joint_choice(reports, pairs, (n - 1) as nat);
        let now = joint_choice(reports, pairs, n);
        if before is Some && now == before {
            let k = choose|k: int|
                0 <= k < n - 1 && (#[trigger] reports[k]).selected_pair_id is Some && pair_at(
                    pairs,
                    reports[k].selected_pair_id->Some_0@,
                    before->Some_0,
                );
            assert(reports[k].selected_pair_id is Some);
        }
        if reports[n - 1].selected_pair_id is Some {
            let id = reports[n - 1].selected_pair_id->Some_0@;
            if pair_index(pairs, id) is Some {
                assert(pair_at(pairs, id, pair_index(pairs, id)->Some_0));
            }
        }
    }
}

/// What several reports say together: when the first of them began, how long the longest took,
/// what all of them counted, and a failure exactly when no pair was chosen.
pub proof fn law_joint_reports_sum_up(
    combined: HolePunchReport,
    reports: Seq<HolePunchReport>,
    pairs: Seq<PairFacts>,
    now: u64,
    k: int,
)
    requires
        combines(combined, reports, pairs, now),
        0 <= k < reports.len(),
    ensures
        combined.started_unix_ms <= reports[k].started_unix_ms,
        combined.elapsed >= reports[k].elapsed,
        combined.total_packets_sent >= reports[k].total_packets_sent,
        combined.total_packets_received >= reports[k].total_packets_received,
        combined.authenticated_packets_received >= reports[k].authenticated_packets_received,
        combined.unauthenticated_packets_dropped >= reports[k].unauthenticated_packets_dropped,
        combined.replayed_packets_dropped >= reports[k].replayed_packets_dropped,
        combined.rate_limit_packets_per_second >= reports[k].rate_limit_packets_per_second,
        combined.failure is None <==> combined.selected_pair_id is Some,
        combined.failure matches Some(failure) ==> (failure is UdpBlocked <==> forall|i: int|
            0 <= i < reports.len() ==> (#[trigger] reports[i]).failure == Some(
                NativeConnectivityFailure::UdpBlocked,
            )),
        combined.failure matches Some(failure) ==> failure is UdpBlocked
            || failure is NoViablePair,
        combined.total_packets_sent == totals_of(reports, reports.len()).sent,
        reports.len() == 1 ==> combined.total_packets_sent == reports[0].total_packets_sent
            && combined.started_unix_ms == reports[0].started_unix_ms && combined.elapsed
            == reports[0].elapsed && combined.rate_limit_packets_per_second
            == reports[0].rate_limit_packets_per_second,
{
    lemma_joint_counters(reports, now, reports.len(), k);
    if reports.len() == 1 {
        reveal_with_fuel(totals_of, 2);
        reveal_with_fuel(earliest_start, 2);
        reveal_with_fuel(longest_time, 2);
        reveal_with_fuel(highest_rate, 2);
    }
}

proof fn lemma_joint_counters(reports: Seq<HolePunchReport>, now: u64, n: nat, k: int)
    requires
        0 <= k < n <= reports.len(),
    ensures
        earliest_start(reports, now, n) <= reports[k].started_unix_ms,
        longest_time(reports, n) >= reports[k].elapsed,
        highest_rate(reports, n) >= reports[k].rate_limit_packets_per_second,
        totals_of(reports, n).sent >= reports[k].total_packets_sent,
        totals_of(reports, n).received >= reports[k].total_packets_received,
        totals_of(reports, n).authenticated >= reports[k].authenticated_packets_received,
        totals_of(reports, n).unauthenticated >= reports[k].unauthenticated_packets_dropped,
        totals_of(reports, n).replayed >= reports[k].replayed_packets_dropped,
    decreases n,
{
    if k < n - 1 {
        lemma_joint_counters(reports, now, (n - 1) as nat, k);
    }
}

/// A pair learns the peer's endpoint only from a viable result of its own, over a source that
/// repeated itself, that can be answered and that differs from what was offered.
pub proof fn law_learned_endpoints_are_proved(pair: PairFacts, results: Seq<ResultFacts>)
    ensures
        ({
            let after = with_learned_endpoint(pair, results);
            &&& learned_endpoint(pair, results) matches Some(endpoint) ==> {
                &&& endpoint != pair.remote_candidate.socket()
                &&& crate::hole_punch::usable_source(endpoint, pair.address_family)
                &&& exists|at: int|
                    0 <= at < results.len() && (#[trigger] results[at]).pair_id == pair.pair_id
                        && results[at].viable && results[at].source_endpoint_stable
                        && results[at].observed_source_endpoint == Some(endpoint)
                &&& after.remote_socket() == endpoint
            }
            &&& learned_endpoint(pair, results) is None ==> after == pair
            &&& after.pair_id == pair.pair_id
            &&& after.priority == pair.priority
            &&& after.local_candidate == pair.local_candidate
            &&& after.remote_candidate == pair.remote_candidate
        }),
{
    if exists|at: int| #[trigger] viable_result_at(results, pair.pair_id, at) {
        let at = choose|at: int| #[trigger] viable_result_at(results, pair.pair_id, at);
        assert(results[at].pair_id == pair.pair_id);
    }
}

/// Checks start exactly in a session that lives, has none running, and knows the peer's
/// candidates.
pub proof fn law_checks_start_once_there_is_a_peer(session: ConnectivitySession, now: u64)
    ensures
        checks_refusal(session, now) is None <==> {
            &&& now <= session.expires_unix_ms + 30_000
            &&& !session.checks_active
            &&& session.remote_candidates@.len() > 0
        },
        now > session.expires_unix_ms + 30_000 ==> checks_refusal(session, now) == Some(
            "native-connectivity-session-expired"@,
        ),
{
}

/// A path is handed out exactly for its transfer and role, while the session lives, after both
/// ends nominated.
pub proof fn law_paths_are_handed_out_after_both_nominations(
    session: ConnectivitySession,
    transfer_id: [u8; 16],
    role: NativeDeviceRole,
    now: u64,
)
    ensures
        path_refusal(session, transfer_id, role, now) is None <==> {
            &&& session.transfer_id == transfer_id
            &&& session.role == role
            &&& now <= session.expires_unix_ms + 30_000
            &&& session.state is Nominated
            &&& session.remote_nomination_authenticated
            &&& session.nominated_pair is Some
            &&& parsed_uuid(session.future_quic_session_id@) is Some
        },
{
}

/// Completed checks nominate exactly when a pair was chosen; without one the session has failed.
/// Each message takes the next number.
pub proof fn law_completed_checks_nominate_or_fail(
    before: ConnectivitySession,
    after: ConnectivitySession,
    report: HolePunchReport,
    pairs: Seq<PairFacts>,
    result: Result<CompletedChecks, String>,
)
    requires
        completes(before, after, report, pairs, result),
        before.next_sequence < u64::MAX - 1,
    ensures
        result is Ok,
        !after.checks_active,
        after.state is Nominated <==> chosen_pair(report, pairs) is Some,
        after.state is Failed <==> chosen_pair(report, pairs) is None,
        report.selected_pair_id is None ==> after.state is Failed,
        result->Ok_0.nomination is Some <==> after.state is Nominated,
        after.state is Nominated ==> after.nominated_pair is Some && after.next_sequence
            == before.next_sequence + 2,
        after.state is Failed ==> after.nominated_pair == before.nominated_pair
            && after.next_sequence == before.next_sequence + 1,
        result->Ok_0.check_result_sequence == before.next_sequence,
        result->Ok_0.nomination matches Some((payload, sequence)) ==> sequence
            == before.next_sequence + 1 && Some(payload.pair_id@) == match report.selected_pair_id {
            Some(id) => Some(id@),
            None => None,
        },
        after.remote_candidates == before.remote_candidates,
        after.local_candidates == before.local_candidates,
        after.remote_nomination_authenticated == before.remote_nomination_authenticated,
{
}

/// A session whose checks went wrong has failed and says why; nothing that was agreed is lost.
pub proof fn law_broken_checks_fail_the_session(
    before: ConnectivitySession,
    after: ConnectivitySession,
    error: Seq<char>,
)
    requires
        ended_with_error(before, after, error),
    ensures
        after.state is Failed,
        after.diagnostics.state is Failed,
        !after.checks_active,
        after.diagnostics.last_error matches Some(text) && text@ == error,
        after.nominated_pair == before.nominated_pair,
        after.remote_candidates == before.remote_candidates,
        after.next_sequence == before.next_sequence,
{
}

/// A check result names every pair that was tried and, of these, those that are viable; its time
/// is the shortest of all.
pub proof fn law_check_results_name_the_viable_pairs(
    results: Seq<ResultFacts>,
    n: nat,
    k: int,
)
    requires
        n <= results.len(),
        0 <= k < n,
    ensures
        ids_of(results, false, n).len() == n,
        ids_of(results, false, n)[k] == results[k].pair_id,
        results[k].viable ==> ids_of(results, true, n).contains(results[k].pair_id),
        ids_of(results, true, n).len() <= n,
        results[k].best_rtt matches Some(time) ==> (shortest_trip(results, n) matches Some(best)
            && best <= time),
        shortest_trip(results, n) matches Some(best) ==> exists|i: int|
            0 <= i < n && (#[trigger] results[i]).best_rtt == Some(best),
    decreases n,
{
    lemma_shortest(results, n);
    lemma_all_ids(results, n);
    if k < n - 1 {
        law_check_results_name_the_viable_pairs(results, (n - 1) as nat, k);
        let before = ids_of(results, true, (n - 1) as nat);
        let now = ids_of(results, true, n);
        if results[k].viable {
            let m = choose|m: int| 0 <= m < before.len() && before[m] == results[k].pair_id;
            assert(now[m] == results[k].pair_id);
        }
    } else if results[k].viable {
        let now = ids_of(results, true, n);
        assert(now[now.len() - 1] == results[k].pair_id);
    }
}

proof fn lemma_all_ids(results: Seq<ResultFacts>, n: nat)
    requires
        n <= results.len(),
    ensures
        ids_of(results, false, n).len() == n,
        forall|k: int| 0 <= k < n ==> #[trigger] ids_of(results, false, n)[k] == results[k].pair_id,
        ids_of(results, true, n).len() <= n,
    decreases n,
{
    if n > 0 {
        lemma_all_ids(results, (n - 1) as nat);
    }
}

/// No check result names a pair as viable that has no viable result.
pub proof fn law_named_pairs_are_viable(results: Seq<ResultFacts>, n: nat)
    requires
        n <= results.len(),
    ensures
        forall|i: int|
            0 <= i < ids_of(results, true, n).len() ==> exists|m: int|
                0 <= m < n && (#[trigger] results[m]).viable && results[m].pair_id
                    == #[trigger] ids_of(results, true, n)[i],
    decreases n,
{
    if n > 0 {
        law_named_pairs_are_viable(results, (n - 1) as nat);
        let before = ids_of(results, true, (n - 1) as nat);
        let now = ids_of(results, true, n);
        assert forall|i: int| 0 <= i < now.len() implies exists|m: int|
            0 <= m < n && (#[trigger] results[m]).viable && results[m].pair_id
                == #[trigger] now[i] by {
            if i < before.len() {
                assert(now[i] == before[i]);
                let m = choose|m: int|
                    0 <= m < n - 1 && (#[trigger] results[m]).viable && results[m].pair_id
                        == before[i];
                assert(results[m].viable);
            } else {
                assert(results[n - 1].viable);
            }
        }
    }
}

proof fn lemma_shortest(results: Seq<ResultFacts>, n: nat)
    requires
        n <= results.len(),
    ensures
        shortest_trip(results, n) matches Some(best) ==> exists|i: int|
            0 <= i < n && (#[trigger] results[i]).best_rtt == Some(best),
    decreases n,
{
    if n > 0 {
        lemma_shortest(results, (n - 1) as nat);
        let now = shortest_trip(results, n);
        if now is Some {
            if results[n - 1].best_rtt == now {
                assert(results[n - 1].best_rtt == Some(now->Some_0));
            } else {
                let i = choose|i: int|
                    0 <= i < n - 1 && (#[trigger] results[i]).best_rtt == Some(now->Some_0);
                assert(results[i].best_rtt == Some(now->Some_0));
            }
        }
    }
}

/// What is told of a session is what it holds; a changed network asks for a new agreement.
pub proof fn law_told_sessions_are_as_they_are(
    response: ConnectivityStateResponse,
    session: ConnectivitySession,
    network_snapshot: [u8; 32],
)
    requires
        tells_state(response, session, network_snapshot),
    ensures
        response.state == session.state,
        response.role == session.role,
        response.local_candidate_count == session.local_candidates@.len(),
        response.remote_candidate_count == session.remote_candidates@.len(),
        response.network_change_detected <==> session.network_snapshot != network_snapshot,
        response.renegotiation_required <==> session.network_snapshot != network_snapshot,
{
}

/// A new session has agreed on nothing yet: no checks run, nothing is nominated, and its first
/// message has the number one.
pub proof fn law_new_sessions_have_agreed_on_nothing(
    session: ConnectivitySession,
    id: Seq<char>,
    future_quic_session_id: Seq<char>,
    transfer_id: [u8; 16],
    role: NativeDeviceRole,
    candidate_generation: u32,
    gathered: GatheredConnectivity,
    state: ConnectivityStateName,
)
    requires
        starts_session(
            session,
            id,
            future_quic_session_id,
            transfer_id,
            role,
            candidate_generation,
            gathered,
            state,
        ),
    ensures
        !session.checks_active,
        session.nominated_pair is None,
        !session.remote_nomination_authenticated,
        session.next_sequence == 1,
        session.role == role,
        session.state == state,
        session.transfer_id == transfer_id,
        session.expires_unix_ms == gathered.expires_unix_ms,
        session.local_candidates == gathered.local_candidates,
{
}

/// What is told of completed checks is what the reports counted: the probes of all pairs, what came
/// back, and why nothing was found.
pub proof fn law_check_results_are_those_of_the_report(
    payload: ConnectivityCheckResultPayload,
    report: HolePunchReport,
)
    requires
        sums_up(payload, report),
    ensures
        payload.failure == report.failure,
        payload.authenticated_probes_received == report.authenticated_packets_received,
        payload.attempted_pair_ids@.len() == report.pair_results@.len(),
        payload.viable_pair_ids@.len() <= report.pair_results@.len(),
        forall|i: int|
            0 <= i < report.pair_results@.len() ==> (
            #[trigger] payload.attempted_pair_ids@[i])@ == report.pair_results@[i]@.pair_id,
        payload.best_rtt == shortest_trip(
            views(report.pair_results@),
            report.pair_results@.len(),
        ),
        payload.authenticated_probes_sent == crate::connectivity::probes_of(
            views(report.pair_results@),
            report.pair_results@.len(),
        ),
{
    let results = views(report.pair_results@);
    lemma_all_ids(results, results.len());
    let texts = crate::connectivity::string_views(payload.attempted_pair_ids@);
    let viable = crate::connectivity::string_views(payload.viable_pair_ids@);
    assert(texts.len() == payload.attempted_pair_ids@.len());
    assert(viable.len() == payload.viable_pair_ids@.len());
    assert forall|i: int| 0 <= i < report.pair_results@.len() implies (
    #[trigger] payload.attempted_pair_ids@[i])@ == report.pair_results@[i]@.pair_id by {
        assert(texts[i] == payload.attempted_pair_ids@[i]@);
        assert(results[i] == report.pair_results@[i]@);
    }
}

/// One more report adds its own counts to those of the others.
pub proof fn law_counts_add_up(reports: Seq<HolePunchReport>, more: HolePunchReport)
    ensures
        ({
            let before = totals_of(reports, reports.len());
            let after = totals_of(reports.push(more), reports.len() + 1);
            &&& after.sent == before.sent + more.total_packets_sent
            &&& after.received == before.received + more.total_packets_received
            &&& after.authenticated == before.authenticated + more.authenticated_packets_received
            &&& after.unauthenticated == before.unauthenticated
                + more.unauthenticated_packets_dropped
            &&& after.replayed == before.replayed + more.replayed_packets_dropped
        }),
        totals_of(reports, 0).sent == 0,
        totals_of(reports, 0).received == 0,
{
    lemma_totals_of_beginning(reports, more, reports.len());
}

proof fn lemma_totals_of_beginning(reports: Seq<HolePunchReport>, more: HolePunchReport, n: nat)
    requires
        n <= reports.len(),
    ensures
        totals_of(reports.push(more), n) == totals_of(reports, n),
    decreases n,
{
    if n > 0 {
        lemma_totals_of_beginning(reports, more, (n - 1) as nat);
        assert(reports.push(more)[n - 1] == reports[n - 1]);
    }
}

/// What was entered by hand becomes a candidate each, in order, with the ports that were missing;
/// one that cannot be used is refused with all the others.
pub proof fn law_entered_candidates_are_all_taken(
    inputs: Seq<ManualCandidateInput>,
    ipv4_port: Option<u16>,
    ipv6_port: Option<u16>,
    generation: u32,
    expires_unix_ms: u64,
    allow_loopback: bool,
    n: nat,
    k: int,
)
    requires
        0 <= k < n <= inputs.len(),
    ensures
        ({
            let result = crate::connectivity::manual_candidates_of(
                inputs,
                ipv4_port,
                ipv6_port,
                generation,
                expires_unix_ms,
                allow_loopback,
                n,
            );
            result matches Ok(candidates) ==> {
                &&& candidates.len() == n
                &&& candidates[k].candidate_type is Manual
                &&& candidates[k].address == inputs[k].address
                &&& inputs[k].port != 0 ==> candidates[k].port == inputs[k].port
                &&& candidates[k].generation == generation
                &&& candidates[k].expires_unix_ms == expires_unix_ms
                &&& candidates[k].defect(allow_loopback, 0) is None
            }
        }),
    decreases n,
{
    lemma_entered_count(
        inputs,
        ipv4_port,
        ipv6_port,
        generation,
        expires_unix_ms,
        allow_loopback,
        (n - 1) as nat,
    );
    if k < n - 1 {
        law_entered_candidates_are_all_taken(
            inputs,
            ipv4_port,
            ipv6_port,
            generation,
            expires_unix_ms,
            allow_loopback,
            (n - 1) as nat,
            k,
        );
    }
}

proof fn lemma_entered_count(
    inputs: Seq<ManualCandidateInput>,
    ipv4_port: Option<u16>,
    ipv6_port: Option<u16>,
    generation: u32,
    expires_unix_ms: u64,
    allow_loopback: bool,
    n: nat,
)
    ensures
        crate::connectivity::manual_candidates_of(
            inputs,
            ipv4_port,
            ipv6_port,
            generation,
            expires_unix_ms,
            allow_loopback,
            n,
        ) matches Ok(candidates) ==> candidates.len() == n,
    decreases n,
{
    if n > 0 {
        lemma_entered_count(
            inputs,
            ipv4_port,
            ipv6_port,
            generation,
            expires_unix_ms,
            allow_loopback,
            (n - 1) as nat,
        );
    }
}

/// A session that both ends keep here is named with its role behind an at sign.
pub proof fn law_session_names_carry_their_role(id: Seq<char>, role: Seq<char>)
    requires
        forall|i: int| 0 <= i < id.len() ==> #[trigger] id[i] != '@',
    ensures
        ({
            let text = id + "@"@ + role;
            let named = crate::connectivity::canonical_id(text);
            &&& named is Some <==> parsed_uuid(id) is Some && (role == "sender"@ || role
                == "receiver"@)
            &&& named matches Some(name) ==> name == crate::encoding::uuid_text(
                parsed_uuid(id)->Some_0@,
            ) + "@"@ + role
        }),
{
    reveal_strlit("@");
    let text = id + "@"@ + role;
    let at = id.len() as int;
    assert(text[at] == '@');
    assert(crate::connectivity::first_at_sign(text, at)) by {
        assert forall|i: int| 0 <= i < at implies text[i] != '@' by {
            assert(text[i] == id[i]);
        }
    }
    let chosen = choose|x: int| #[trigger] crate::connectivity::first_at_sign(text, x);
    assert(crate::connectivity::first_at_sign(text, chosen));
    if chosen < at {
        assert(text[chosen] == id[chosen]);
    } else if at < chosen {
        assert(text[at] != '@');
    }
    assert(chosen == at);
    assert(text.take(at) =~= id);
    assert(text.skip(at + 1) =~= role);
}

/// An offer is readable when it is one, names its transfer and both sessions by identifiers, and
/// commits to a certificate by a digest.
pub proof fn law_readable_offers_are_well_formed(offer: ReceivedOffer)
    ensures
        is_readable_offer(offer) ==> offer.is_offer && parsed_uuid(offer.transfer_id@) is Some
            && parsed_uuid(offer.connectivity_session_id@) is Some && parsed_uuid(
            offer.future_quic_session_id@,
        ) is Some && offer.certificate_commitment_sha256@.len() == 64,
        !is_readable_offer(offer) && offer.is_offer && is_hex_32(
            offer.certificate_commitment_sha256@,
        ) ==> parsed_uuid(offer.transfer_id@) is None || parsed_uuid(offer.connectivity_session_id@)
            is None || parsed_uuid(offer.future_quic_session_id@) is None,
{
}

/// What was discovered is told as it was found, and nothing is told of checks that have not begun.
pub proof fn law_discoveries_are_told(
    diagnostics: NativeConnectivityDiagnostics,
    discoveries: Discoveries,
)
    requires
        tells_discoveries(diagnostics, discoveries),
    ensures
        diagnostics.state is Gathering,
        diagnostics.interfaces_examined == discoveries.host.diagnostics,
        views(diagnostics.host_candidates@) == views(discoveries.host.candidates@),
        diagnostics.mapped_candidates@.len() == (if discoveries.mapped is Some {
            1nat
        } else {
            0nat
        }),
        discoveries.mapped matches Some(candidate) ==> diagnostics.mapped_candidates@[0]@
            == candidate@,
        diagnostics.port_mapping_attempts == discoveries.port_mapping_attempts,
        diagnostics.firewall.outbound_stun_succeeded <==> exists|i: int|
            0 <= i < discoveries.answers@.len() && (
            #[trigger] discoveries.answers@[i]).public_endpoint_found,
        discoveries.answers@.len() == 1 ==> diagnostics.observed_nat_mapping
            == discoveries.answers@[0].mapping_behavior,
        diagnostics.firewall.udp_bind_succeeded,
        !diagnostics.firewall.inbound_authenticated_probe_observed,
        !diagnostics.firewall.quic_handshake_reached,
        !diagnostics.firewall.firewall_blocked_likely,
        diagnostics.candidate_pairs_attempted@.len() == 0,
        diagnostics.probe_results@.len() == 0,
        diagnostics.probe_packets_sent == 0,
        diagnostics.probe_packets_received == 0,
        diagnostics.selected_pair is None,
        diagnostics.failure_classification is None,
        diagnostics.fallback_decision is None,
        diagnostics.last_error is None,
        diagnostics.file_payload_bytes_sent_through_signaling == 0,
{
    let told = views(diagnostics.mapped_candidates@);
    assert(told.len() == diagnostics.mapped_candidates@.len());
    if discoveries.mapped is Some {
        assert(told[0] == diagnostics.mapped_candidates@[0]@);
    }
    reveal_with_fuel(answered_mapping, 2);
}

/// A session tries the pairs of its own candidates with those of the other end: the most promising
/// first, no more than are tried at most, and each of one address family.
pub proof fn law_sessions_pair_their_candidates(session: ConnectivitySession)
    ensures
        ({
            let pairs = session_pairs(session);
            let locals = views(session.local_candidates@);
            let remotes = views(session.remote_candidates@);
            &&& pairs.len() <= 256
            &&& forall|i: int, j: int|
                0 <= i < j < pairs.len() ==> (#[trigger] pairs[i]).priority >= (
                #[trigger] pairs[j]).priority
            &&& forall|a: int, b: int|
                0 <= a < locals.len() && 0 <= b < remotes.len() && (
                #[trigger] locals[a]).address_family == (#[trigger] remotes[b]).address_family ==> {
                    let pair = pair_of(locals[a], remotes[b], session.role);
                    ||| exists|i: int|
                        0 <= i < pairs.len() && (#[trigger] pairs[i]).pair_id == pair.pair_id
                            && pairs[i].priority >= pair.priority
                    ||| pairs.len() == 256 && forall|i: int|
                        0 <= i < pairs.len() ==> (#[trigger] pairs[i]).priority >= pair.priority
                }
        }),
{
    let locals = views(session.local_candidates@);
    let remotes = views(session.remote_candidates@);
    law_pairs_stand_by_priority(locals, remotes, session.role);
    law_pairs_are_bounded_and_of_one_family(locals, remotes, session.role);
}

/// What stands for a network holds every row with its length: one more row adds its own bytes, and
/// the rows before it stay as they are.
pub proof fn law_networks_are_told_by_all_their_rows(rows: Seq<Seq<char>>, row: Seq<char>, n: nat)
    requires
        n <= rows.len(),
    ensures
        rows_bytes(rows, 0).len() == 0,
        rows_bytes(rows.push(row), n) == rows_bytes(rows, n),
        n == rows.len() ==> rows_bytes(rows.push(row), n + 1) == rows_bytes(rows, n) + text_bytes(
            row,
        ),
    decreases n,
{
    if n > 0 {
        law_networks_are_told_by_all_their_rows(rows, row, (n - 1) as nat);
        assert(rows.push(row)[n - 1] == rows[n - 1]);
    }
    if n == rows.len() {
        assert(rows.push(row)[n as int] == row);
    }
}

} // verus!
