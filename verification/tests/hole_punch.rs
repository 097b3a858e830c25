use flowshare_core::address::{IpAddress, SocketAddress};
use flowshare_core::candidates::ManualCandidateInput;
use flowshare_core::hole_punch::{
    accept_probe_once, decode_pair_id, observe_authenticated_source, HolePunch, HolePunchConfig,
    HolePunchReport, PairState, ProbeKind, ProbePacket, ProbeReplaySet, PunchPhase, RoundStep, MILLISECOND,
    PROBE_PACKET_BYTES, SECOND,
};
use flowshare_core::path_selection::{build_candidate_pairs, NativeCandidatePair};
use flowshare_core::signaling::{NativeConnectivityFailure, NativeDeviceRole};

const NOW: u64 = 1_700_000_000_000;
const KEY: [u8; 32] = [8; 32];

fn probe(kind: ProbeKind, role: NativeDeviceRole, sequence: u64, nonce: [u8; 16]) -> ProbePacket {
    ProbePacket::new(
        kind,
        role,
        [1; 16],
        [2; 16],
        [4; 16],
        sequence,
        nonce,
        NOW,
        NOW + 5_000,
        &KEY,
    )
}

fn socket(octets: [u8; 4], port: u16) -> SocketAddress {
    SocketAddress::new(IpAddress::V4(octets), port)
}

fn pair(role: NativeDeviceRole) -> NativeCandidatePair {
    let here = ManualCandidateInput {
        address: IpAddress::V4([198, 51, 100, 10]),
        port: 40_000,
        priority: None,
    }
    .into_candidate(1, NOW + 60_000, false)
    .unwrap();
    let there = ManualCandidateInput {
        address: IpAddress::V4([203, 0, 113, 20]),
        port: 41_000,
        priority: None,
    }
    .into_candidate(1, NOW + 60_000, false)
    .unwrap();
    match role {
        NativeDeviceRole::Sender => build_candidate_pairs(&[here], &[there], role).remove(0),
        NativeDeviceRole::Receiver => build_candidate_pairs(&[there], &[here], role).remove(0),
    }
}

#[test]
fn forged_probe_and_role_modification_are_rejected() {
    let mut packet = probe(ProbeKind::Request, NativeDeviceRole::Sender, 1, [5; 16]).encode();
    packet[11] = 2;
    assert_eq!(
        ProbePacket::decode(&packet, &KEY).unwrap_err(),
        "native-probe-authentication-failed"
    );
}

#[test]
fn response_has_exactly_request_size() {
    let request = probe(ProbeKind::Request, NativeDeviceRole::Sender, 1, [5; 16]).encode();
    let response = probe(ProbeKind::Response, NativeDeviceRole::Receiver, 1, [6; 16]).encode();
    assert_eq!(request.len(), response.len());
}

#[test]
fn duplicate_authenticated_probe_is_rejected_as_replay() {
    let packet = probe(ProbeKind::Request, NativeDeviceRole::Sender, 9, [5; 16]);
    let mut replay = ProbeReplaySet::new();
    assert!(accept_probe_once(&mut replay, &packet));
    assert!(!accept_probe_once(&mut replay, &packet));
}

#[test]
fn authenticated_peer_reflexive_source_requires_repeat_stability() {
    let mut state = PairState::new(pair(NativeDeviceRole::Sender), [0; 16]);
    let rewritten = socket([203, 0, 113, 20], 51000);
    assert!(observe_authenticated_source(&mut state, rewritten));
    assert_eq!(state.observed_source, Some(rewritten));
    assert!(!state.source_stable);

    assert!(observe_authenticated_source(&mut state, rewritten));
    assert!(state.source_stable);

    state.inbound_requests = 3;
    state.outbound_responses = 4;
    state.remote_confirm = true;
    state.confirm_ack = true;
    let changed = socket([203, 0, 113, 20], 52000);
    assert!(observe_authenticated_source(&mut state, changed));
    assert_eq!(state.observed_source, Some(changed));
    assert!(!state.source_stable);
    assert_eq!(state.observed_source_count, 1);
    assert_eq!(state.inbound_requests, 0);
    assert_eq!(state.outbound_responses, 0);
    assert!(!state.remote_confirm);
    assert!(!state.confirm_ack);

    let mut octets = [0u8; 16];
    octets[0] = 0x20;
    octets[1] = 0x01;
    octets[2] = 0x0d;
    octets[3] = 0xb8;
    octets[15] = 1;
    let wrong_family = SocketAddress::new(IpAddress::V6(octets), 52000);
    assert!(!observe_authenticated_source(&mut state, wrong_family));
    assert_eq!(state.observed_source, Some(changed));
}

#[test]
fn probe_bytes_follow_the_wire_layout_and_come_back() {
    let packet = probe(ProbeKind::Confirm, NativeDeviceRole::Receiver, 77, [6; 16]);
    let bytes = packet.encode();
    assert_eq!(bytes.len(), PROBE_PACKET_BYTES);
    assert_eq!(&bytes[..8], b"FQPRB001");
    assert_eq!(&bytes[8..10], &1u16.to_be_bytes());
    assert_eq!(bytes[10], 3);
    assert_eq!(bytes[11], 2);
    let decoded = ProbePacket::decode(&bytes, &KEY).unwrap();
    assert_eq!(decoded.kind, ProbeKind::Confirm);
    assert_eq!(decoded.role, NativeDeviceRole::Receiver);
    assert_eq!(decoded.sequence, 77);
    assert_eq!(decoded.pair_id, [4; 16]);
    assert_eq!(decoded.sender_nonce, [6; 16]);
    assert_eq!(decoded.expires_unix_ms, NOW + 5_000);
    assert_eq!(decoded.tag, packet.compute_tag(&KEY));
}

#[test]
fn probes_under_another_key_or_cut_short_are_refused() {
    let bytes = probe(ProbeKind::Request, NativeDeviceRole::Sender, 1, [5; 16]).encode();
    assert_eq!(
        ProbePacket::decode(&bytes, &[9; 32]).unwrap_err(),
        "native-probe-authentication-failed"
    );
    assert!(ProbePacket::decode(&bytes[..PROBE_PACKET_BYTES - 1], &KEY).is_err());
    assert!(ProbeKind::decode(0).is_err());
    assert_eq!(ProbeKind::decode(4).unwrap(), ProbeKind::ConfirmAck);
}

#[test]
fn pair_identifiers_are_read_from_hex() {
    assert_eq!(
        decode_pair_id("000102030405060708090a0b0c0d0e0f").unwrap(),
        [0, 1, 2, 3, 4, 5, 6, 7, 8, 9, 10, 11, 12, 13, 14, 15]
    );
    assert!(decode_pair_id("00").is_err());
    assert!(decode_pair_id("zz0102030405060708090a0b0c0d0e0f").is_err());
}

fn config() -> HolePunchConfig {
    HolePunchConfig {
        total_timeout: 5 * SECOND,
        initial_interval: 100 * MILLISECOND,
        max_interval: 300 * MILLISECOND,
        resynchronize_interval: 500 * MILLISECOND,
        confirmation_grace: 700 * MILLISECOND,
    }
}

fn begin(role: NativeDeviceRole) -> HolePunch {
    begin_at(role, 0)
}

fn begin_at(role: NativeDeviceRole, now: u64) -> HolePunch {
    HolePunch::begin(
        &vec![pair(role)],
        role,
        [1; 16],
        [2; 16],
        KEY,
        match role {
            NativeDeviceRole::Sender => [5; 16],
            NativeDeviceRole::Receiver => [6; 16],
        },
        config(),
        now,
        NOW + now / MILLISECOND,
    )
    .unwrap()
}

struct Peer {
    role: NativeDeviceRole,
    at: SocketAddress,
    start: u64,
    punch: Option<HolePunch>,
    finished: Option<HolePunchReport>,
}

impl Peer {
    fn new(role: NativeDeviceRole, at: SocketAddress, start: u64) -> Self {
        Peer {
            role,
            at,
            start,
            punch: None,
            finished: None,
        }
    }

    /// Starts when it is time, sends what is due, and notes when the check is over.
    fn step(&mut self, now: u64) -> Vec<[u8; PROBE_PACKET_BYTES]> {
        let mut out = Vec::new();
        if now < self.start || self.finished.is_some() {
            return out;
        }
        if self.punch.is_none() {
            self.punch = Some(begin_at(self.role, now));
        }
        let punch = self.punch.as_mut().unwrap();
        match punch.phase(now) {
            PunchPhase::Finished => self.finished = Some(punch.report(false, now)),
            PunchPhase::Waiting { next_round, .. } => {
                if now >= next_round {
                    punch.start_round(now);
                    for at in 0..punch.pair_count() {
                        if let RoundStep::Send { encoded, key, .. } = punch
                            .take_turn(at, now, NOW + now / MILLISECOND)
                            .unwrap()
                        {
                            out.push(encoded);
                            punch.probe_sent(at, key, now);
                        }
                    }
                    punch.end_round(0, now);
                }
            }
        }
        out
    }

    fn receive(
        &mut self,
        bytes: &[u8; PROBE_PACKET_BYTES],
        from: SocketAddress,
        now: u64,
    ) -> Option<[u8; PROBE_PACKET_BYTES]> {
        if self.finished.is_some() {
            return None;
        }
        let punch = self.punch.as_mut()?;
        let reply = punch.receive(bytes, from, now, NOW + now / MILLISECOND)?;
        punch.reply_sent();
        Some(reply.encoded)
    }
}

/// Runs the checks of two peers. The receiver starts later by `delay`, and the first
/// `acks_to_drop` acknowledgements that it sends are lost.
fn run_two_peers(delay: u64, acks_to_drop: u8) -> (HolePunchReport, HolePunchReport) {
    let mut sender = Peer::new(
        NativeDeviceRole::Sender,
        socket([198, 51, 100, 10], 40_000),
        0,
    );
    let mut receiver = Peer::new(
        NativeDeviceRole::Receiver,
        socket([203, 0, 113, 20], 41_000),
        delay,
    );
    let mut acks_left = acks_to_drop;
    let mut now = 0;
    while sender.finished.is_none() || receiver.finished.is_none() {
        assert!(now < 10 * SECOND);
        let mut to_receiver = sender.step(now);
        let mut to_sender = receiver.step(now);
        while !to_receiver.is_empty() || !to_sender.is_empty() {
            for bytes in std::mem::take(&mut to_receiver) {
                if let Some(reply) = receiver.receive(&bytes, sender.at, now) {
                    if reply[10] == ProbeKind::ConfirmAck.code() && acks_left > 0 {
                        acks_left -= 1;
                    } else {
                        to_sender.push(reply);
                    }
                }
            }
            for bytes in std::mem::take(&mut to_sender) {
                if let Some(reply) = sender.receive(&bytes, receiver.at, now) {
                    to_receiver.push(reply);
                }
            }
        }
        now += 10 * MILLISECOND;
    }
    assert_eq!(acks_left, 0);
    (sender.finished.unwrap(), receiver.finished.unwrap())
}

fn assert_same_nomination(sender: &HolePunchReport, receiver: &HolePunchReport) {
    assert!(sender.selected_pair_id.is_some(), "{sender:?}");
    assert_eq!(sender.selected_pair_id, receiver.selected_pair_id);
    assert_eq!(sender.pair_results[0].confirmation_count, 4);
    assert_eq!(receiver.pair_results[0].confirmation_count, 4);
}

#[test]
fn same_machine_two_socket_check_nominates_bidirectionally() {
    let (sender, receiver) = run_two_peers(0, 0);
    assert_same_nomination(&sender, &receiver);
}

#[test]
fn staggered_peer_start_still_nominates_bidirectionally() {
    let (sender, receiver) = run_two_peers(900 * MILLISECOND, 0);
    assert_same_nomination(&sender, &receiver);
}

#[test]
fn dropped_final_confirmation_is_retried_before_either_side_exits() {
    let (sender, receiver) = run_two_peers(0, 1);
    assert_same_nomination(&sender, &receiver);
}

#[test]
fn two_peers_confirm_the_path_both_ways() {
    let sender_at = socket([198, 51, 100, 10], 40_000);
    let receiver_at = socket([203, 0, 113, 20], 41_000);
    let mut sender = begin(NativeDeviceRole::Sender);
    let mut receiver = begin(NativeDeviceRole::Receiver);
    let mut to_receiver: Vec<[u8; PROBE_PACKET_BYTES]> = Vec::new();
    let mut to_sender: Vec<[u8; PROBE_PACKET_BYTES]> = Vec::new();
    let mut now = 0;
    for _ in 0..40 {
        if matches!(sender.phase(now), PunchPhase::Finished)
            && matches!(receiver.phase(now), PunchPhase::Finished)
        {
            break;
        }
        let unix = NOW + now / MILLISECOND;
        for (punch, out, remote) in [
            (&mut sender, &mut to_receiver, receiver_at),
            (&mut receiver, &mut to_sender, sender_at),
        ] {
            punch.start_round(now);
            for at in 0..punch.pair_count() {
                if let RoundStep::Send {
                    encoded,
                    destination,
                    key,
                } = punch.take_turn(at, now, unix).unwrap()
                {
                    assert_eq!(destination, remote);
                    out.push(encoded);
                    punch.probe_sent(at, key, now);
                }
            }
            punch.end_round(0, now);
        }
        while !to_receiver.is_empty() || !to_sender.is_empty() {
            for bytes in std::mem::take(&mut to_receiver) {
                if let Some(reply) = receiver.receive(&bytes, sender_at, now, unix) {
                    receiver.reply_sent();
                    to_sender.push(reply.encoded);
                }
            }
            for bytes in std::mem::take(&mut to_sender) {
                if let Some(reply) = sender.receive(&bytes, receiver_at, now, unix) {
                    sender.reply_sent();
                    to_receiver.push(reply.encoded);
                }
            }
        }
        now += 100 * MILLISECOND;
    }
    let from_sender = sender.report(false, now);
    let from_receiver = receiver.report(false, now);
    assert!(from_sender.pair_results[0].viable);
    assert!(from_receiver.pair_results[0].viable);
    assert_eq!(from_sender.selected_pair_id, from_receiver.selected_pair_id);
    assert_eq!(
        from_sender.selected_pair_id,
        Some(pair(NativeDeviceRole::Sender).pair_id)
    );
    assert!(from_sender.failure.is_none());
}

#[test]
fn forged_and_replayed_packets_are_counted_and_teach_nothing() {
    let mut receiver = begin(NativeDeviceRole::Receiver);
    let from = socket([198, 51, 100, 10], 40_000);
    let wire = decode_pair_id(&pair(NativeDeviceRole::Receiver).pair_id).unwrap();
    let request = ProbePacket::new(
        ProbeKind::Request,
        NativeDeviceRole::Sender,
        [1; 16],
        [2; 16],
        wire,
        1,
        [5; 16],
        NOW,
        NOW + 5_000,
        &KEY,
    );
    let mut forged = request.encode();
    forged[PROBE_PACKET_BYTES - 1] ^= 1;
    assert!(receiver.receive(&forged, from, 0, NOW).is_none());
    assert!(receiver.receive(&request.encode(), from, 0, NOW).is_some());
    assert!(receiver.receive(&request.encode(), from, 0, NOW).is_none());
    let report = receiver.report(false, 0);
    assert_eq!(report.total_packets_received, 3);
    assert_eq!(report.unauthenticated_packets_dropped, 1);
    assert_eq!(report.replayed_packets_dropped, 1);
    assert_eq!(report.pair_results[0].authenticated_requests_received, 1);
    assert!(!report.pair_results[0].viable);
}

#[test]
fn a_search_without_answers_ends_at_its_deadline() {
    let mut sender = begin(NativeDeviceRole::Sender);
    assert!(matches!(sender.phase(0), PunchPhase::Waiting { .. }));
    assert!(matches!(sender.phase(6 * SECOND), PunchPhase::Finished));
    let report = sender.report(false, 6 * SECOND);
    assert_eq!(report.selected_pair_id, None);
    assert!(report.failure.is_some());
    assert_eq!(
        sender.report(true, 6 * SECOND).failure,
        Some(NativeConnectivityFailure::Cancelled)
    );
}
