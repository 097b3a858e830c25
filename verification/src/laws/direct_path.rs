//! Which path between two devices is tried, proved and chosen.

use crate::address::{IpAddress, SocketAddress};
use crate::bytes::be_value;
use crate::candidates::{CandidateFacts, NativeAddressFamily};
use crate::hole_punch::{
    active_pairs, after_arrival, after_packet, after_probe_sent, after_source, after_turn,
    answered_key, any_viable, arrival_of, at_loop_head, belongs, confirmed_lately, elapsed,
    is_pair_at, is_pair_id, packet_in, phase_of, probe_kind, punch_failure, remembered, replay_key,
    reply_packet, reports, result_of, round_ended, round_started, shorter, start_defect,
    started_punch, strictly_ordered, turn_packet, usable_source, Arrival, HolePunchConfig,
    HolePunchReport, ProbeKey, ProbeKind, ProbePacket, PunchFacts, PunchPhase, ReplayKey,
    StateFacts, PROBE_MAGIC,
};
use crate::ordering::lemma_placed;
use crate::path_selection::{
    pair_of, route_label, route_of, same_network, EstimatedNativeRoute, PairFacts,
};
use crate::signaling::{NativeConnectivityFailure, NativeDeviceRole};
use vstd::prelude::*;

verus! {

/// A pair can carry data exactly when two answers and a request came over a source that repeated
/// itself, and both ends confirmed the pair. A result counts these four signs.
pub proof fn law_viable_pairs_have_shown_everything(state: StateFacts)
    ensures
        state.is_viable() <==> {
            &&& state.outbound_responses >= 2
            &&& state.inbound_requests >= 1
            &&& state.source_stable
            &&& state.remote_confirm
            &&& state.confirm_ack
        },
        state.bidirectional() <==> {
            &&& state.outbound_responses >= 2
            &&& state.inbound_requests >= 1
            &&& state.source_stable
        },
        0 <= state.confirmations() <= 4,
        state.confirmations() == 4 && state.source_stable <==> state.is_viable(),
        state.confirmations() == 0 <==> state.outbound_responses < 2 && state.inbound_requests == 0
            && !state.remote_confirm && !state.confirm_ack,
        result_of(state).viable <==> state.is_viable(),
        result_of(state).confirmation_count == state.confirmations(),
        result_of(state).best_rtt == state.best_rtt,
        result_of(state).pair_id == state.pair.pair_id,
        result_of(state).probes_sent == state.probes_sent,
        result_of(state).authenticated_requests_received == state.inbound_requests,
        result_of(state).authenticated_responses_received == state.outbound_responses,
        result_of(state).source_endpoint_stable == state.source_stable,
        state.observed_source is Some ==> result_of(state).remote_endpoint
            == state.observed_source,
        state.observed_source is None ==> result_of(state).remote_endpoint == Some(
            state.pair.remote_candidate.socket(),
        ),
{
}

/// A packet counts only from an address that can be answered: a port, one host, and the address
/// family of the pair.
pub proof fn law_sources_can_be_answered(source: SocketAddress, family: NativeAddressFamily)
    ensures
        usable_source(source, family) ==> {
            &&& source.port > 0
            &&& match source.ip {
                IpAddress::V4(octets) => {
                    &&& family is Ipv4
                    &&& !(octets@[0] == 0 && octets@[1] == 0 && octets@[2] == 0 && octets@[3] == 0)
                    &&& !(224 <= octets@[0] <= 239)
                },
                IpAddress::V6(octets) => family is Ipv6 && octets@[0] != 255,
            }
        },
        source.port > 0 && family is Ipv4 ==> (source.ip matches IpAddress::V4(octets) ==> (0
            < octets@[0] < 224 ==> usable_source(source, family))),
        source.port > 0 && family is Ipv6 ==> (source.ip matches IpAddress::V6(octets) ==> (0
            < octets@[0] < 255 ==> usable_source(source, family))),
        source.port == 0 ==> !usable_source(source, family),
{
    match source.ip {
        IpAddress::V4(octets) => {
            assert(source.ip.octets() == octets@);
            if octets@[0] == 0 && octets@[1] == 0 && octets@[2] == 0 && octets@[3] == 0 {
                assert(source.ip.unspecified());
            }
            if octets@[0] > 0 {
                assert(source.ip.octets()[0] != 0);
                assert(!source.ip.unspecified());
            }
        },
        IpAddress::V6(octets) => {
            assert(source.ip.octets() == octets@);
            if octets@[0] > 0 {
                assert(source.ip.octets()[0] != 0);
                assert(!source.ip.unspecified());
            }
        },
    }
}

/// A packet from where the last one came adds to what is known; the first packet from elsewhere
/// starts over. What was sent and refused stays counted either way.
pub proof fn law_sources_are_counted(state: StateFacts, source: SocketAddress)
    ensures
        ({
            let after = after_source(state, source);
            &&& after.observed_source == Some(source)
            &&& state.observed_source == Some(source) ==> {
                &&& state.observed_source_count < 255 ==> after.observed_source_count
                    == state.observed_source_count + 1
                &&& state.source_stable ==> after.source_stable
                &&& !state.source_stable ==> (after.source_stable <==> after.observed_source_count
                    >= 2)
                &&& after.inbound_requests == state.inbound_requests
                &&& after.outbound_responses == state.outbound_responses
                &&& after.best_rtt == state.best_rtt
                &&& after.remote_confirm == state.remote_confirm
                &&& after.confirm_ack == state.confirm_ack
            }
            &&& state.observed_source is Some && state.observed_source != Some(source) ==> {
                &&& after.observed_source_count == 1
                &&& after.inbound_requests == 0
                &&& after.outbound_responses == 0
                &&& after.best_rtt is None
                &&& !after.remote_confirm
                &&& !after.confirm_ack
                &&& !after.source_stable
                &&& after.last_confirm_sent is None
            }
            &&& state.observed_source is None ==> after.observed_source_count == 1
                && !after.source_stable
            &&& after.probes_sent == state.probes_sent
            &&& after.replayed == state.replayed
            &&& after.invalid == state.invalid
            &&& after.pair == state.pair
        }),
{
}

/// From a known source each kind of packet shows one thing: a request that the other end reaches
/// this one, an answer that it was reached, and the two confirmations that the pair is agreed. An
/// answer counts only for a probe that waits for it, and the shortest time is kept.
pub proof fn law_packets_show_one_thing_each(
    state: StateFacts,
    packet: ProbePacket,
    source: SocketAddress,
    answers: Option<u64>,
    now: u64,
)
    requires
        state.observed_source == Some(source),
        state.inbound_requests < u32::MAX,
        state.outbound_responses < u32::MAX,
        state.invalid < u32::MAX,
    ensures
        ({
            let after = after_packet(state, packet, source, answers, now);
            let answered = (packet.kind is Response || packet.kind is ConfirmAck) && answers is Some;
            let time: int = if answers is Some && now >= answers->Some_0 {
                now - answers->Some_0
            } else {
                0
            };
            &&& after.inbound_requests == state.inbound_requests + (if packet.kind is Request {
                1int
            } else {
                0
            })
            &&& after.outbound_responses == state.outbound_responses + (if packet.kind is Response
                && answers is Some {
                1int
            } else {
                0
            })
            &&& after.remote_confirm <==> state.remote_confirm || packet.kind is Confirm
            &&& after.confirm_ack <==> state.confirm_ack || packet.kind is ConfirmAck
                && answers is Some
            &&& after.invalid == state.invalid + (if (packet.kind is Response
                || packet.kind is ConfirmAck) && answers is None {
                1int
            } else {
                0
            })
            &&& !answered ==> after.best_rtt == state.best_rtt
            &&& answered ==> after.best_rtt is Some && after.best_rtt->Some_0 <= time
            &&& answered && state.best_rtt is Some ==> after.best_rtt->Some_0
                <= state.best_rtt->Some_0
            &&& answered ==> after.best_rtt == Some(time as u64) || after.best_rtt
                == state.best_rtt
            &&& after.pair == state.pair
            &&& after.probes_sent == state.probes_sent
            &&& after.replayed == state.replayed
        }),
{
}

/// A packet is of a check exactly when it is of its session and transfer, comes from the other
/// end, and was made and runs out within half a minute of the clock here.
pub proof fn law_packets_belong_to_their_check(
    facts: PunchFacts,
    packet: ProbePacket,
    now_unix_ms: u64,
)
    ensures
        belongs(facts, packet, now_unix_ms) <==> {
            &&& packet.connectivity_session_id == facts.connectivity_session_id
            &&& packet.transfer_id == facts.transfer_id
            &&& packet.role != facts.role
            &&& now_unix_ms <= packet.expires_unix_ms + 30_000
            &&& packet.sent_unix_ms <= now_unix_ms + 30_000
        },
{
}

/// An answer is recognised: what one end replies to a probe belongs to the other end's check and
/// answers exactly that probe, as long as their clocks are close.
pub proof fn law_answers_are_recognised(
    asking: PunchFacts,
    answering: PunchFacts,
    at: int,
    sent_unix_ms: u64,
    answered_unix_ms: u64,
    seen_unix_ms: u64,
)
    requires
        0 <= at < asking.states.len(),
        asking.sequence < u64::MAX,
        asking.role != answering.role,
        asking.connectivity_session_id == answering.connectivity_session_id,
        asking.transfer_id == answering.transfer_id,
        asking.key == answering.key,
        answered_unix_ms <= seen_unix_ms + 30_000,
        seen_unix_ms <= answered_unix_ms + 30_000,
    ensures
        ({
            let probe = turn_packet(asking, at, sent_unix_ms);
            let answer = reply_packet(answering, probe, answered_unix_ms);
            &&& answer.kind is Response <==> probe.kind is Request
            &&& answer.kind is ConfirmAck <==> probe.kind is Confirm
            &&& answered_key(answer) == (
                asking.states[at].wire_id@,
                (asking.sequence + 1) as u64,
                probe.kind,
            )
            &&& answered_unix_ms + 5_000 <= u64::MAX ==> answer.expires_unix_ms == answered_unix_ms
                + 5_000
            &&& answer.sent_unix_ms == answered_unix_ms
            &&& answer.role == answering.role
            &&& answer.sender_nonce == answering.nonce
            &&& belongs(asking, answer, seen_unix_ms)
            &&& answer.authentic(asking.key@)
            &&& probe.authentic(answering.key@)
        }),
{
}

/// A probe asks until the pair works both ways and confirms from then on. It carries the next
/// number, and is valid for the time of the check and five seconds more.
pub proof fn law_probes_ask_and_confirm(facts: PunchFacts, at: int, now: u64, now_unix_ms: u64)
    requires
        0 <= at < facts.states.len(),
        facts.sequence < u64::MAX,
    ensures
        ({
            let probe = turn_packet(facts, at, now_unix_ms);
            let after = after_turn(facts, at, now);
            let state = facts.states[at];
            let both_ways = state.outbound_responses >= 2 && state.inbound_requests >= 1
                && state.source_stable;
            &&& probe.kind is Confirm <==> both_ways
            &&& probe.kind is Request <==> !both_ways
            &&& probe.kind == probe_kind(state)
            &&& probe.role == facts.role
            &&& probe.sequence == facts.sequence + 1
            &&& after.sequence == facts.sequence + 1
            &&& probe.sender_nonce == facts.nonce
            &&& probe.sent_unix_ms == now_unix_ms
            &&& now_unix_ms + facts.timeout / 1_000_000 + 5_000 <= u64::MAX
                ==> probe.expires_unix_ms == now_unix_ms + facts.timeout / 1_000_000 + 5_000
            &&& both_ways ==> after.states[at].last_confirm_sent == Some(now)
            &&& !both_ways ==> after.states == facts.states
            &&& after.total_sent == facts.total_sent
            &&& forall|i: int|
                0 <= i < facts.states.len() && i != at ==> #[trigger] after.states[i]
                    == facts.states[i]
        }),
{
}

/// A probe that was sent is counted for its pair, for the check and for the second that runs, and
/// waits for its answer from now on.
pub proof fn law_sent_probes_wait_for_their_answer(
    facts: PunchFacts,
    at: int,
    key: ProbeKey,
    now: u64,
)
    requires
        0 <= at < facts.states.len(),
        facts.states[at].probes_sent < u32::MAX,
        facts.total_sent < u32::MAX,
        facts.packets_this_window < u32::MAX,
    ensures
        ({
            let after = after_probe_sent(facts, at, key, now);
            &&& after.states[at].probes_sent == facts.states[at].probes_sent + 1
            &&& after.total_sent == facts.total_sent + 1
            &&& after.packets_this_window == facts.packets_this_window + 1
            &&& after.sent.contains_key(key@) && after.sent[key@] == now
            &&& after.total_received == facts.total_received
            &&& after.sequence == facts.sequence
            &&& forall|i: int|
                0 <= i < facts.states.len() && i != at ==> #[trigger] after.states[i]
                    == facts.states[i]
        }),
{
}

/// A check goes on while its time is not over: without a pair until its deadline, with one until
/// the grace after the first is over. The grace is set once.
pub proof fn law_checks_end_in_time(facts: PunchFacts, now: u64, later: u64)
    requires
        now <= later,
    ensures
        ({
            let head = at_loop_head(facts, now);
            let found = exists|i: int|
                0 <= i < facts.states.len() && (#[trigger] facts.states[i]).is_viable();
            &&& found && facts.confirmation_deadline is None && now + facts.confirmation_grace
                <= u64::MAX ==> head.confirmation_deadline == Some(
                (now + facts.confirmation_grace) as u64,
            )
            &&& !found || facts.confirmation_deadline is Some ==> head == facts
            &&& at_loop_head(head, later) == head
            &&& !found ==> (phase_of(head, now) is Finished <==> facts.search_deadline <= now)
            &&& found ==> (phase_of(head, now) is Finished
                <==> head.confirmation_deadline->Some_0 <= now)
            &&& phase_of(head, now) is Finished ==> phase_of(head, later) is Finished
            &&& phase_of(head, now) matches PunchPhase::Waiting { next_round, deadline } ==> {
                &&& next_round == facts.next_round
                &&& deadline == (if head.confirmation_deadline is Some {
                    head.confirmation_deadline->Some_0
                } else {
                    facts.search_deadline
                })
            }
        }),
{
    assert(any_viable(facts.states) == (exists|i: int|
        0 <= i < facts.states.len() && (#[trigger] facts.states[i]).is_viable()));
}

/// A round starts a new second for the rate once a second is over, and goes back to quick probing
/// when it is time for it and no pair works both ways. Nothing else changes.
pub proof fn law_rounds_renew_the_rate(facts: PunchFacts, now: u64)
    ensures
        ({
            let after = round_started(facts, now);
            let over = now >= facts.rate_window + 1_000_000_000;
            let both_ways = exists|i: int|
                0 <= i < facts.states.len() && (#[trigger] facts.states[i]).bidirectional();
            let again = now >= facts.next_resynchronization && !both_ways;
            &&& over ==> after.packets_this_window == 0 && after.rate_window == now
            &&& !over ==> after.packets_this_window == facts.packets_this_window
                && after.rate_window == facts.rate_window
            &&& again ==> after.interval == facts.initial_interval
            &&& !again ==> after.interval == facts.interval && after.next_resynchronization
                == facts.next_resynchronization
            &&& again && now + facts.resynchronize_interval <= u64::MAX
                ==> after.next_resynchronization == now + facts.resynchronize_interval
            &&& after.states == facts.states
            &&& after.sequence == facts.sequence
            &&& after.total_sent == facts.total_sent
        }),
{
    assert(crate::hole_punch::any_bidirectional(facts.states) == (exists|i: int|
        0 <= i < facts.states.len() && (#[trigger] facts.states[i]).bidirectional()));
}

/// The next round comes after the interval and at most a tenth of a second more; then the interval
/// has doubled, but never beyond its largest.
pub proof fn law_rounds_slow_down(facts: PunchFacts, jitter: u16, now: u64)
    requires
        now + facts.interval + 100_000_000 <= u64::MAX,
        facts.interval <= facts.max_interval,
    ensures
        ({
            let after = round_ended(facts, jitter, now);
            &&& now + facts.interval <= after.next_round <= now + facts.interval + 100_000_000
            &&& (after.next_round - now - facts.interval) % 1_000_000 == 0
            &&& facts.interval <= after.interval <= facts.max_interval
            &&& after.interval <= 2 * facts.interval
            &&& after.interval == 2 * facts.interval || after.interval == facts.max_interval
            &&& after.states == facts.states
            &&& after.packets_this_window == facts.packets_this_window
        }),
{
    let step = jitter as int % 101;
    assert(0 <= step <= 100);
    assert((step * 1_000_000) % 1_000_000 == 0) by (nonlinear_arith);
}

/// A pair that works both ways is confirmed again only after an interval.
pub proof fn law_confirmations_are_spaced(facts: PunchFacts, state: StateFacts, now: u64)
    requires
        facts.interval > 0,
    ensures
        confirmed_lately(facts, state, now) <==> state.last_confirm_sent is Some && now
            < state.last_confirm_sent->Some_0 + facts.interval,
{
    if state.last_confirm_sent is Some {
        let last = state.last_confirm_sent->Some_0;
        if now < last {
            assert(elapsed(last, now) == 0);
        }
    }
}

/// A check that found no pair says why: it was cancelled, nothing came back at all, or what came
/// back was not enough. A check that found one did not fail unless it was cancelled.
pub proof fn law_failed_checks_say_why(
    report: HolePunchReport,
    facts: PunchFacts,
    cancelled: bool,
    now: u64,
)
    requires
        reports(report, facts, cancelled, now),
    ensures
        ({
            let failure = punch_failure(facts, cancelled);
            let found = report.selected_pair_id is Some;
            &&& cancelled <==> failure == Some(
                NativeConnectivityFailure::Cancelled,
            )
            &&& failure is None <==> !cancelled && found
            &&& !cancelled && !found && facts.authenticated_received == 0 <==> failure == Some(
                NativeConnectivityFailure::UdpBlocked,
            )
            &&& !cancelled && !found && facts.authenticated_received > 0 <==> failure == Some(
                NativeConnectivityFailure::NoViablePair,
            )
        }),
        report.total_packets_sent == facts.total_sent,
        report.total_packets_received == facts.total_received,
        report.authenticated_packets_received == facts.authenticated_received,
        report.unauthenticated_packets_dropped == facts.invalid_received,
        report.replayed_packets_dropped == facts.replayed_received,
        now >= facts.started ==> report.elapsed == now - facts.started,
        report.rate_limit_packets_per_second == 64,
{
}

/// Every packet that comes is counted once: as authentic, as invalid or as a replay; an answer
/// that nothing waits for is both authentic and invalid. No other pair is touched.
pub proof fn law_every_packet_is_counted(
    facts: PunchFacts,
    bytes: Seq<u8>,
    source: SocketAddress,
    now: u64,
    now_unix_ms: u64,
)
    requires
        facts.total_received < u32::MAX,
        facts.authenticated_received <= facts.total_received,
        facts.invalid_received <= facts.total_received,
        facts.replayed_received <= facts.total_received,
    ensures
        ({
            let after = after_arrival(facts, bytes, source, now, now_unix_ms);
            let arrival = arrival_of(facts, bytes, source, now_unix_ms);
            &&& after.total_received == facts.total_received + 1
            &&& arrival is Accepted <==> after.authenticated_received
                == facts.authenticated_received + 1
            &&& !(arrival is Accepted) ==> after.authenticated_received
                == facts.authenticated_received
            &&& arrival is Replayed <==> after.replayed_received == facts.replayed_received + 1
            &&& !(arrival is Replayed) ==> after.replayed_received == facts.replayed_received
            &&& arrival is Invalid || arrival is WrongSource ==> after.invalid_received
                == facts.invalid_received + 1
            &&& arrival is Replayed ==> after.invalid_received == facts.invalid_received
            &&& after.total_sent == facts.total_sent
            &&& after.sequence == facts.sequence
            &&& after.states.len() == facts.states.len()
            &&& arrival is Invalid ==> after.states == facts.states && after.replay == facts.replay
            &&& arrival is Replayed ==> after.replay == facts.replay && after.sent == facts.sent
        }),
{
}

/// What is remembered of accepted packets is bounded: the new one is added, and when there is no
/// room the least one goes, by role, kind, number and nonce.
pub proof fn law_replay_memory_is_bounded(entries: Seq<ReplayKey>, packet: ProbePacket)
    requires
        strictly_ordered(entries),
        entries.len() <= 4096,
        !entries.contains(replay_key(packet)),
    ensures
        ({
            let after = remembered(entries, replay_key(packet));
            &&& after.len() <= 4096
            &&& entries.len() < 4096 ==> after.len() == entries.len() + 1 && after.contains(
                replay_key(packet),
            ) && forall|key: ReplayKey| #[trigger] entries.contains(key) ==> after.contains(key)
            &&& entries.len() == 4096 ==> after.len() == entries.len()
        }),
        replay_key(packet).sequence == packet.sequence,
        replay_key(packet).role == packet.role.number(),
        replay_key(packet).kind == packet.kind.number(),
{
    assert(crate::ordering::is_ordered::<ReplayKey>(entries));
    lemma_placed::<ReplayKey>(entries, replay_key(packet));
}

/// A check starts with its times kept in bounds, with nothing sent or seen, and with the best
/// pairs of one address family.
pub proof fn law_checks_start_bounded(
    pairs: Seq<PairFacts>,
    role: NativeDeviceRole,
    session: [u8; 16],
    transfer: [u8; 16],
    key: [u8; 32],
    nonce: [u8; 16],
    config: HolePunchConfig,
    now: u64,
    now_unix_ms: u64,
)
    ensures
        ({
            let facts = started_punch(
                pairs,
                role,
                session,
                transfer,
                key,
                nonce,
                config,
                now,
                now_unix_ms,
            );
            &&& 1_000_000_000 <= facts.timeout <= 30_000_000_000
            &&& 1_000_000_000 <= config.total_timeout <= 30_000_000_000 ==> facts.timeout
                == config.total_timeout
            &&& 100_000_000 <= facts.initial_interval <= 1_000_000_000
            &&& 100_000_000 <= config.initial_interval <= 1_000_000_000 ==> facts.initial_interval
                == config.initial_interval
            &&& facts.initial_interval <= facts.max_interval <= 3_000_000_000
            &&& facts.initial_interval <= config.max_interval <= 3_000_000_000
                ==> facts.max_interval == config.max_interval
            &&& 500_000_000 <= facts.resynchronize_interval <= 5_000_000_000
            &&& 500_000_000 <= config.resynchronize_interval <= 5_000_000_000
                ==> facts.resynchronize_interval == config.resynchronize_interval
            &&& 500_000_000 <= facts.confirmation_grace <= 5_000_000_000
            &&& 500_000_000 <= config.confirmation_grace <= 5_000_000_000
                ==> facts.confirmation_grace == config.confirmation_grace
            &&& now + facts.timeout <= u64::MAX ==> facts.search_deadline == now + facts.timeout
            &&& facts.next_round == now
            &&& facts.started == now
            &&& facts.interval == facts.initial_interval
            &&& facts.sequence == 0
            &&& facts.total_sent == 0
            &&& facts.total_received == 0
            &&& facts.authenticated_received == 0
            &&& facts.confirmation_deadline is None
            &&& facts.role == role
            &&& facts.key == key
        }),
        active_pairs(pairs) <= 16,
        pairs.len() <= 16 ==> active_pairs(pairs) == pairs.len(),
        start_defect(pairs) is None <==> {
            &&& pairs.len() > 0
            &&& forall|i: int|
                0 <= i < pairs.len() ==> (#[trigger] pairs[i]).address_family
                    == pairs[0].address_family
            &&& forall|i: int|
                0 <= i < pairs.len() && i < 16 ==> is_pair_id((#[trigger] pairs[i]).pair_id)
        },
{
}

/// Where the parts of a probe stand in its bytes.
pub proof fn law_probes_have_one_layout(packet: ProbePacket)
    ensures
        ({
            let bytes = packet.wire();
            &&& bytes.len() == 132
            &&& bytes.subrange(0, 8) == PROBE_MAGIC@
            &&& be_value(bytes.subrange(8, 10)) == 1
            &&& bytes[10] == (match packet.kind {
                ProbeKind::Request => 1u8,
                ProbeKind::Response => 2u8,
                ProbeKind::Confirm => 3u8,
                ProbeKind::ConfirmAck => 4u8,
            })
            &&& bytes[11] == (match packet.role {
                NativeDeviceRole::Sender => 1u8,
                NativeDeviceRole::Receiver => 2u8,
            })
            &&& bytes.subrange(12, 28) == packet.connectivity_session_id@
            &&& bytes.subrange(28, 44) == packet.transfer_id@
            &&& bytes.subrange(44, 60) == packet.pair_id@
            &&& be_value(bytes.subrange(60, 68)) == packet.sequence
            &&& bytes.subrange(68, 84) == packet.sender_nonce@
            &&& be_value(bytes.subrange(84, 92)) == packet.sent_unix_ms
            &&& be_value(bytes.subrange(92, 100)) == packet.expires_unix_ms
            &&& bytes.subrange(100, 132) == packet.tag@
        }),
{
    crate::hole_punch::lemma_wire_fields(packet);
    assert(packet.wire().skip(100) =~= packet.wire().subrange(100, 132));
}

/// A pair's route: chosen by hand only with a candidate that was, in one network only between
/// hosts that share it, and by holes only where both ends are seen from outside.
pub proof fn law_routes_fit_their_candidates(local: CandidateFacts, remote: CandidateFacts)
    ensures
        ({
            let route = route_of(local, remote);
            let by_hand = local.candidate_type is Manual || remote.candidate_type is Manual;
            &&& route is ManualDirect <==> by_hand
            &&& route is SameLan ==> same_network(local.address, remote.address)
            &&& route is SameLan <==> !by_hand && same_network(local.address, remote.address) && (
            local.candidate_type is Host || local.candidate_type is Ipv6) && (
            remote.candidate_type is Host || remote.candidate_type is Ipv6)
            &&& route is Ipv6Direct ==> local.address_family is Ipv6
                && !local.address.private_or_local() && !remote.address.private_or_local()
            &&& route is MappedDirect ==> local.candidate_type is Mapped
                && remote.candidate_type is Mapped
            &&& route is StunHolePunch ==> local.candidate_type is ServerReflexive
                && remote.candidate_type is ServerReflexive
            &&& local.address_family is Ipv4 && local.candidate_type is Mapped
                && remote.candidate_type is Mapped ==> route is MappedDirect
            &&& local.address_family is Ipv4 && local.candidate_type is ServerReflexive
                && remote.candidate_type is ServerReflexive ==> route is StunHolePunch
            &&& local.address_family is Ipv6 && !by_hand && !local.address.private_or_local()
                && !remote.address.private_or_local() ==> route is Ipv6Direct
        }),
{
}

/// Two addresses are of one network exactly when both are local and share their first three
/// bytes, or for the newer family their first eight.
pub proof fn law_networks_share_their_prefix(left: IpAddress, right: IpAddress)
    ensures
        same_network(left, right) ==> same_network(right, left),
        same_network(left, right) ==> left.private_or_local() && right.private_or_local(),
        match (left, right) {
            (IpAddress::V4(a), IpAddress::V4(b)) => same_network(left, right)
                <==> left.private_or_local() && right.private_or_local() && a@[0] == b@[0] && a@[1]
                == b@[1] && a@[2] == b@[2],
            (IpAddress::V6(a), IpAddress::V6(b)) => same_network(left, right)
                <==> left.private_or_local() && right.private_or_local() && forall|i: int|
                0 <= i < 8 ==> a@[i] == b@[i],
            _ => !same_network(left, right),
        },
{
    match (left, right) {
        (IpAddress::V4(a), IpAddress::V4(b)) => {
            if a@[0] == b@[0] && a@[1] == b@[1] && a@[2] == b@[2] {
                assert(a@.take(3) =~= b@.take(3));
            }
            if a@.take(3) == b@.take(3) {
                assert(a@.take(3)[0] == b@.take(3)[0]);
                assert(a@.take(3)[1] == b@.take(3)[1]);
                assert(a@.take(3)[2] == b@.take(3)[2]);
            }
        },
        (IpAddress::V6(a), IpAddress::V6(b)) => {
            if forall|i: int| 0 <= i < 8 ==> a@[i] == b@[i] {
                assert(a@.take(8) =~= b@.take(8));
            }
            if a@.take(8) == b@.take(8) {
                assert forall|i: int| 0 <= i < 8 implies a@[i] == b@[i] by {
                    assert(a@.take(8)[i] == b@.take(8)[i]);
                }
            }
        },
        _ => {},
    }
}

/// Of two pairs over equally good candidates the one with the better route comes first: one
/// network, the newer family, mapped ports, holes, mixed, by hand. On one route the sender's
/// candidate counts a thousand times the receiver's.
pub proof fn law_better_routes_come_first(
    sender: CandidateFacts,
    receiver: CandidateFacts,
    other_sender: CandidateFacts,
    other_receiver: CandidateFacts,
)
    ensures
        ({
            let one = pair_of(sender, receiver, NativeDeviceRole::Sender);
            let two = pair_of(other_sender, other_receiver, NativeDeviceRole::Sender);
            let better = |left: EstimatedNativeRoute, right: EstimatedNativeRoute|
                left is SameLan && !(right is SameLan) || left is Ipv6Direct && !(right is SameLan
                    || right is Ipv6Direct) || left is MappedDirect && (right is StunHolePunch
                    || right is MixedDirect || right is ManualDirect) || left is StunHolePunch && (
                right is MixedDirect || right is ManualDirect) || left is MixedDirect
                    && right is ManualDirect;
            &&& sender.priority == other_sender.priority && receiver.priority
                == other_receiver.priority && better(one.estimated_route, two.estimated_route)
                ==> one.priority > two.priority
            &&& one.estimated_route == two.estimated_route ==> one.priority - two.priority == 1000
                * (sender.priority - other_sender.priority) + (receiver.priority
                - other_receiver.priority)
            &&& sender.priority == 0 && receiver.priority == 0 ==> one.priority == 1_000_000 * (
            match one.estimated_route {
                EstimatedNativeRoute::SameLan => 600int,
                EstimatedNativeRoute::Ipv6Direct => 550,
                EstimatedNativeRoute::MappedDirect => 450,
                EstimatedNativeRoute::StunHolePunch => 400,
                EstimatedNativeRoute::MixedDirect => 300,
                EstimatedNativeRoute::ManualDirect => 100,
            })
            &&& one.estimated_route == route_of(sender, receiver)
            &&& one.local_candidate == sender && one.remote_candidate == receiver
            &&& one.sender_candidate_id == sender.candidate_id
            &&& one.receiver_candidate_id == receiver.candidate_id
            &&& one.peer_reflexive_remote_endpoint is None
            &&& one.remote_socket() == receiver.socket()
        }),
{
}

/// Every route has its own name.
pub proof fn law_routes_have_their_names(route: EstimatedNativeRoute)
    ensures
        route is SameLan <==> route_label(route) == "same-lan"@,
        route is Ipv6Direct <==> route_label(route) == "ipv6-direct"@,
        route is MappedDirect <==> route_label(route) == "mapped-direct"@,
        route is StunHolePunch <==> route_label(route) == "stun-hole-punch"@,
        route is MixedDirect <==> route_label(route) == "mixed-direct"@,
        route is ManualDirect <==> route_label(route) == "manual-direct"@,
{
    reveal_strlit("same-lan");
    reveal_strlit("ipv6-direct");
    reveal_strlit("mapped-direct");
    reveal_strlit("stun-hole-punch");
    reveal_strlit("mixed-direct");
    reveal_strlit("manual-direct");
    assert("same-lan"@[1] == 'a' && "ipv6-direct"@[1] == 'p' && "mapped-direct"@[1] == 'a'
        && "stun-hole-punch"@[1] == 't' && "mixed-direct"@[1] == 'i' && "manual-direct"@[1] == 'a');
    assert("same-lan"@[2] == 'm' && "mapped-direct"@[2] == 'p' && "manual-direct"@[2] == 'n');
}

/// Of two round trips the smaller is the shorter; none is never longer than another.
pub proof fn law_round_trips_are_ordered(left: Option<u64>, right: Option<u64>)
    ensures
        !shorter(left, left),
        left != right ==> (shorter(left, right) <==> !shorter(right, left)),
        left is None && right is Some ==> shorter(left, right),
        left is Some && right is Some ==> (shorter(left, right) <==> left->Some_0 < right->Some_0),
{
}

/// A packet is accepted exactly when it is authentic, of this check, for one of its pairs, not seen
/// before and from a source that the pair can have. What it is dropped for otherwise is the first
/// of these that fails.
pub proof fn law_only_fitting_packets_are_accepted(
    facts: PunchFacts,
    bytes: Seq<u8>,
    source: SocketAddress,
    now_unix_ms: u64,
)
    ensures
        ({
            let arrival = arrival_of(facts, bytes, source, now_unix_ms);
            match packet_in(bytes, facts.key@) {
                None => arrival is Invalid,
                Some(packet) => {
                    let expected = belongs(facts, packet, now_unix_ms) && exists|at: int|
                        0 <= at < facts.states.len() && (#[trigger] facts.states[at]).wire_id
                            == packet.pair_id;
                    let seen = facts.replay.contains(replay_key(packet));
                    &&& arrival is Invalid <==> !expected
                    &&& arrival is Replayed <==> expected && seen
                    &&& arrival matches Arrival::Accepted { at, packet: taken } ==> {
                        &&& taken == packet
                        &&& 0 <= at < facts.states.len()
                        &&& facts.states[at].wire_id == packet.pair_id
                        &&& source.port != 0
                        &&& usable_source(source, facts.states[at].pair.address_family)
                    }
                    &&& arrival matches Arrival::WrongSource { at, packet: taken } ==> {
                        &&& taken == packet
                        &&& facts.states[at].wire_id == packet.pair_id
                        &&& !usable_source(source, facts.states[at].pair.address_family)
                    }
                },
            }
        }),
{
    if let Some(packet) = packet_in(bytes, facts.key@) {
        if exists|at: int|
            0 <= at < facts.states.len() && (#[trigger] facts.states[at]).wire_id
                == packet.pair_id {
            let at = choose|at: int|
                0 <= at < facts.states.len() && (#[trigger] facts.states[at]).wire_id
                    == packet.pair_id;
            assert(is_pair_at(facts.states, packet.pair_id, at));
        }
        if exists|at: int| #[trigger] is_pair_at(facts.states, packet.pair_id, at) {
            let at = choose|at: int| #[trigger] is_pair_at(facts.states, packet.pair_id, at);
            assert(facts.states[at].wire_id == packet.pair_id);
        }
    }
}

/// An accepted answer to nothing that was asked counts as unauthenticated too; an accepted request
/// or an answer to a known probe does not.
pub proof fn law_unasked_answers_are_counted(
    facts: PunchFacts,
    bytes: Seq<u8>,
    source: SocketAddress,
    now: u64,
    now_unix_ms: u64,
)
    requires
        facts.invalid_received < u32::MAX,
    ensures
        arrival_of(facts, bytes, source, now_unix_ms) matches Arrival::Accepted { at, packet } ==> {
            let after = after_arrival(facts, bytes, source, now, now_unix_ms);
            let asked = facts.sent.contains_key(answered_key(packet));
            &&& (packet.kind is Response || packet.kind is ConfirmAck) && !asked
                ==> after.invalid_received == facts.invalid_received + 1
            &&& packet.kind is Request || packet.kind is Confirm || asked ==> after.invalid_received
                == facts.invalid_received
            &&& packet.kind is Request || packet.kind is Confirm ==> after.sent == facts.sent
            &&& packet.kind is Response || packet.kind is ConfirmAck ==> !after.sent.contains_key(
                answered_key(packet),
            )
        },
{
}

} // verus!
