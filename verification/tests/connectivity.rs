use flowshare_core::address::{IpAddress, SocketAddress};
use flowshare_core::candidates::{HostGatherResult, ManualCandidateInput, NativeAddressFamily};
use flowshare_core::connectivity::{
    answer_candidate_generation, asks_servers, check_config, collect_discoveries, combine_hole_punch_reports, current_network_snapshot,
    deduplicate_candidates, merge_candidates, nomination_payload, pair_with_authenticated_remote_endpoint,
    related_endpoint, ConnectivityGatherOptions, ConnectivityRegistry, ConnectivitySession,
    Discoveries, NetworkRow, RemoteMessage, ServerAnswers,
};
use flowshare_core::connectivity_diagnostics::{
    ConnectivityOutcome, ConnectivityStateName, NativeConnectivityDiagnostics,
    ObservedNatMappingBehavior,
};
use flowshare_core::hole_punch::{HolePunchReport, ProbePairResult, MILLISECOND, SECOND};
use flowshare_core::path_selection::{
    build_candidate_pairs, selected_path_label, EstimatedNativeRoute, NativeCandidatePair,
};
use flowshare_core::port_mapping::{
    mapping_route, renewal_delay, DefaultRoute, NativePortMappingProtocol, PortMappingRun,
    PortMappingDevelopmentOptions,
};
use flowshare_core::quinn_connectivity::{
    socket_handoff, SocketBuffers, QUINN_UDP_SOCKET_BUFFER_BYTES,
};
use flowshare_core::signaling::{NativeConnectivityFailure, NativeDeviceRole};

const NOW: u64 = 1_700_000_000_000;

fn socket(octets: [u8; 4], port: u16) -> SocketAddress {
    SocketAddress::new(IpAddress::V4(octets), port)
}

fn manual_pair(role: NativeDeviceRole) -> NativeCandidatePair {
    let local = ManualCandidateInput {
        address: IpAddress::V4([198, 51, 100, 10]),
        port: 40_000,
        priority: None,
    }
    .into_candidate(1, NOW + 60_000, false)
    .unwrap();
    let remote = ManualCandidateInput {
        address: IpAddress::V4([203, 0, 113, 20]),
        port: 41_000,
        priority: None,
    }
    .into_candidate(1, NOW + 60_000, false)
    .unwrap();
    build_candidate_pairs(&[local], &[remote], role).remove(0)
}

fn report(results: Vec<ProbePairResult>, selected: Option<String>) -> HolePunchReport {
    HolePunchReport {
        started_unix_ms: NOW,
        elapsed: MILLISECOND,
        total_packets_sent: 4,
        total_packets_received: 4,
        authenticated_packets_received: 4,
        unauthenticated_packets_dropped: 0,
        replayed_packets_dropped: 0,
        rate_limit_packets_per_second: 64,
        pair_results: results,
        selected_pair_id: selected,
        failure: None,
    }
}

fn session(role: NativeDeviceRole) -> ConnectivitySession {
    let pair = manual_pair(role);
    ConnectivitySession {
        id: "07070707-0707-0707-0707-070707070707".into(),
        registry_id: "07070707-0707-0707-0707-070707070707:sender".into(),
        future_quic_session_id: "08080808-0808-0808-0808-080808080808".into(),
        transfer_id: [1; 16],
        role,
        candidate_generation: 1,
        expires_unix_ms: NOW + 60_000,
        allow_loopback_test: false,
        local_candidates: vec![pair.local_candidate.clone()],
        state: ConnectivityStateName::Nominated,
        remote_candidates: vec![pair.remote_candidate.clone()],
        remote_candidate_generation: Some(1),
        next_sequence: 1,
        checks_active: false,
        nominated_pair: Some(pair),
        remote_nomination_authenticated: false,
        diagnostics: NativeConnectivityDiagnostics::empty("session".into(), "transfer".into(), 1),
        network_snapshot: [0; 32],
    }
}

#[test]
fn hole_punch_packet_totals_are_retained_for_safe_diagnostics() {
    let mut diagnostics = NativeConnectivityDiagnostics::empty(
        "connectivity-session".into(),
        "transfer".into(),
        2,
    );
    diagnostics.firewall.outbound_stun_succeeded = true;
    diagnostics.apply_hole_punch_report(
        &HolePunchReport {
            started_unix_ms: 1,
            elapsed: 30 * SECOND,
            total_packets_sent: 24,
            total_packets_received: 7,
            authenticated_packets_received: 3,
            unauthenticated_packets_dropped: 3,
            replayed_packets_dropped: 1,
            rate_limit_packets_per_second: 64,
            pair_results: Vec::new(),
            selected_pair_id: None,
            failure: Some(NativeConnectivityFailure::UdpBlocked),
        },
        None,
    );

    assert_eq!(diagnostics.candidate_generation, 2);
    assert_eq!(diagnostics.probe_packets_sent, 24);
    assert_eq!(diagnostics.probe_packets_received, 7);
    assert_eq!(diagnostics.authenticated_probe_packets_received, 3);
    assert_eq!(diagnostics.unauthenticated_probe_packets_dropped, 3);
    assert_eq!(diagnostics.replayed_probe_packets_dropped, 1);
    assert_eq!(
        diagnostics.failure_classification,
        Some(ConnectivityOutcome::DirectConnectTimeout)
    );
    assert!(!diagnostics.firewall.firewall_blocked_likely);
}

#[test]
fn stable_authenticated_peer_reflexive_endpoint_is_carried_to_quinn() {
    let pair = manual_pair(NativeDeviceRole::Sender);
    let observed = socket([203, 0, 113, 20], 51000);
    let result = ProbePairResult {
        pair_id: pair.pair_id.clone(),
        source_endpoint_stable: true,
        observed_source_endpoint: Some(observed),
        viable: true,
        ..ProbePairResult::default()
    };
    let stable = report(vec![result], Some(pair.pair_id.clone()));

    let learned = pair_with_authenticated_remote_endpoint(pair.clone(), &stable);
    assert_eq!(learned.remote_socket_addr(), observed);
    assert_eq!(learned.peer_reflexive_remote_endpoint, Some(observed));

    let mut unstable = stable;
    unstable.pair_results[0].source_endpoint_stable = false;
    let unchanged = pair_with_authenticated_remote_endpoint(pair.clone(), &unstable);
    assert_eq!(
        unchanged.remote_socket_addr(),
        pair.remote_candidate.socket_addr()
    );
    assert_eq!(unchanged.peer_reflexive_remote_endpoint, None);
}

#[test]
fn nomination_accepts_only_authenticated_remote_endpoint_learning() {
    let mut sender = session(NativeDeviceRole::Sender);
    let mut pair = manual_pair(NativeDeviceRole::Sender);
    pair.peer_reflexive_remote_endpoint = Some(socket([203, 0, 113, 20], 51000));
    sender.nominated_pair = Some(pair.clone());
    let mut nomination = nomination_payload(&pair, None);
    nomination.sender_observed_endpoint = Some(socket([198, 51, 100, 10], 55000));
    let accepted = sender
        .add_remote_message(&RemoteMessage::Nomination(nomination), 1, Ok(()), NOW)
        .unwrap();
    assert_eq!(accepted.accepted_message_type, "native-candidate-nomination");
    assert!(sender.remote_nomination_authenticated);

    let mut changed = nomination_payload(&pair, None);
    changed.sender_observed_endpoint = Some(socket([198, 51, 100, 10], 55000));
    changed.receiver_observed_endpoint = Some(socket([203, 0, 113, 20], 52000));
    assert_eq!(
        sender
            .add_remote_message(&RemoteMessage::Nomination(changed), 1, Ok(()), NOW)
            .unwrap_err(),
        "native-signaling-nomination-endpoint-changed"
    );
}

#[test]
fn mapping_is_disabled_by_default_without_network_access() {
    let plan =
        PortMappingRun::plan(45000, &PortMappingDevelopmentOptions::default(), true).unwrap();
    assert!(plan.is_none());
}

#[test]
fn mapping_tries_each_protocol_in_turn() {
    let mut run = PortMappingRun::plan(
        45000,
        &PortMappingDevelopmentOptions {
            enabled: true,
            protocols: Some(vec![
                NativePortMappingProtocol::Pcp,
                NativePortMappingProtocol::NatPmp,
            ]),
            lease_duration_seconds: Some(60),
        },
        true,
    )
    .unwrap()
    .unwrap();
    let first = run.next_protocol(false).unwrap();
    assert_eq!(first, Some(NativePortMappingProtocol::Pcp));
    run.attempt_failed(
        NativePortMappingProtocol::Pcp,
        socket([10, 0, 0, 2], 45000),
        "refused".into(),
    );
    assert_eq!(
        run.next_protocol(false).unwrap(),
        Some(NativePortMappingProtocol::NatPmp)
    );
    assert_eq!(run.next_protocol(false).unwrap(), None);
    let attempts = run.into_attempts();
    assert_eq!(attempts.len(), 1);
    assert_eq!(attempts[0].error.as_deref(), Some("refused"));
    assert_eq!(renewal_delay(120), 60);
    assert!(mapping_route(&None).is_err());
    assert_eq!(
        mapping_route(&Some(DefaultRoute {
            addresses: vec![[127, 0, 0, 1], [10, 0, 0, 2]],
            gateways: vec![[10, 0, 0, 1]],
        }))
        .unwrap(),
        (IpAddress::V4([10, 0, 0, 1]), IpAddress::V4([10, 0, 0, 2]))
    );
}

#[test]
fn authenticated_check_result_is_accepted_once_and_replay_rejected() {
    let mut sender = session(NativeDeviceRole::Sender);
    let accepted = sender
        .add_remote_message(&RemoteMessage::CheckResult, 1, Ok(()), NOW)
        .unwrap();
    assert_eq!(
        accepted.accepted_message_type,
        "native-connectivity-check-result"
    );
    assert_eq!(
        sender
            .add_remote_message(
                &RemoteMessage::CheckResult,
                1,
                Err("native-signaling-replay-detected".into()),
                NOW
            )
            .unwrap_err(),
        "native-signaling-replay-detected"
    );
}

#[test]
fn sessions_and_routes_are_named() {
    let mut sender = session(NativeDeviceRole::Sender);
    assert_eq!(sender.identifier().unwrap(), [7; 16]);
    sender.id = "no identifier".into();
    assert!(sender.identifier().is_err());
    assert_eq!(selected_path_label(EstimatedNativeRoute::SameLan), "same-lan");
    assert_eq!(
        selected_path_label(EstimatedNativeRoute::StunHolePunch),
        "stun-hole-punch"
    );
}

#[test]
fn a_path_is_given_out_only_after_both_nominations() {
    let mut sender = session(NativeDeviceRole::Sender);
    assert!(sender
        .nominated_path_context(&[1; 16], NativeDeviceRole::Sender, NOW)
        .is_err());
    sender.remote_nomination_authenticated = true;
    let context = sender
        .nominated_path_context(&[1; 16], NativeDeviceRole::Sender, NOW)
        .unwrap();
    assert_eq!(context.future_quic_session_id, [8; 16]);
    assert!(sender
        .nominated_path_context(&[2; 16], NativeDeviceRole::Sender, NOW)
        .is_err());
    assert!(sender
        .nominated_path_context(&[1; 16], NativeDeviceRole::Receiver, NOW)
        .is_err());
    sender.cancel();
    assert_eq!(sender.state, ConnectivityStateName::Cancelled);
}

#[test]
fn a_taken_session_makes_room_for_another() {
    let mut registry = ConnectivityRegistry::new();
    let id = registry
        .insert_session(session(NativeDeviceRole::Sender), NOW)
        .unwrap();
    assert!(registry.lookup_session(&id).is_ok());
    let (key, taken) = registry.take_session(&id).unwrap();
    assert!(registry.lookup_session(&id).is_err());
    registry.put_session(key, taken);
    assert!(registry.lookup_session(&id).is_ok());
    registry.clear_for_test();
    assert!(registry.lookup_session(&id).is_err());
}

#[test]
fn checks_that_find_a_path_nominate_it() {
    let mut sender = session(NativeDeviceRole::Sender);
    sender.state = ConnectivityStateName::ReadyToCheck;
    sender.nominated_pair = None;
    let pairs = sender.begin_checks(NOW).unwrap();
    assert_eq!(pairs.len(), 1);
    assert_eq!(sender.state, ConnectivityStateName::Checking);
    assert!(sender.begin_checks(NOW).is_err());
    let result = ProbePairResult {
        pair_id: pairs[0].pair_id.clone(),
        source_endpoint_stable: true,
        viable: true,
        best_rtt: Some(3 * MILLISECOND),
        probes_sent: 2,
        ..ProbePairResult::default()
    };
    let reports = vec![report(vec![result], Some(pairs[0].pair_id.clone()))];
    let completed = sender
        .complete_checks(&pairs, &reports, &Vec::new(), NOW)
        .unwrap();
    assert_eq!(sender.state, ConnectivityStateName::Nominated);
    assert_eq!(
        completed.check_result.viable_pair_ids,
        vec![pairs[0].pair_id.clone()]
    );
    assert_eq!(completed.check_result.best_rtt, Some(3 * MILLISECOND));
    assert!(completed.nomination.is_some());
    assert_eq!(completed.check_result_sequence, 1);
    assert_eq!(sender.next_sequence, 3);
}

#[test]
fn reports_of_both_families_are_counted_together() {
    let pair = manual_pair(NativeDeviceRole::Sender);
    let combined = combine_hole_punch_reports(
        &vec![report(Vec::new(), None), report(Vec::new(), None)],
        &vec![pair],
        NOW,
    );
    assert_eq!(combined.total_packets_sent, 8);
    assert_eq!(combined.authenticated_packets_received, 8);
    assert_eq!(combined.selected_pair_id, None);
}

#[test]
fn candidates_of_one_endpoint_are_kept_once() {
    let candidate = manual_pair(NativeDeviceRole::Sender).local_candidate;
    let mut all = vec![candidate.clone(), candidate.clone()];
    deduplicate_candidates(&mut all);
    assert_eq!(all, vec![candidate.clone()]);
    merge_candidates(&mut all, &[candidate.clone()], false, NOW).unwrap();
    assert_eq!(all, vec![candidate.clone()]);
    let mut altered = candidate.clone();
    altered.port += 1;
    assert!(merge_candidates(&mut all, &[altered], false, NOW).is_err());
    assert_eq!(all, vec![candidate]);
    assert_eq!(answer_candidate_generation(None).unwrap(), 1);
    assert!(answer_candidate_generation(Some(0)).is_err());
}

#[test]
fn check_times_stay_within_bounds() {
    assert_eq!(check_config(Some(0)).total_timeout, check_config(Some(1)).total_timeout);
    assert_eq!(check_config(Some(20_000)).total_timeout, 20 * SECOND);
}

#[test]
fn the_network_snapshot_does_not_depend_on_order() {
    let row = |name: &str| NetworkRow::new(name, NativeAddressFamily::Ipv4, "10.0.0.2");
    let forward = current_network_snapshot(vec![row("eth0"), row("wlan0")]);
    assert_eq!(
        forward,
        current_network_snapshot(vec![row("wlan0"), row("eth0")])
    );
    assert_ne!(forward, current_network_snapshot(vec![row("eth0")]));
}

#[test]
fn a_socket_handed_over_keeps_its_port() {
    let buffers = SocketBuffers {
        send_tuned: true,
        receive_tuned: true,
        send_bytes: Some(8_388_608),
        receive_bytes: Some(8_388_608),
    };
    let kept = socket_handoff(socket([0, 0, 0, 0], 4000), socket([0, 0, 0, 0], 4000), buffers);
    assert!(kept.unwrap().same_local_port);
    assert!(
        socket_handoff(socket([0, 0, 0, 0], 4000), socket([0, 0, 0, 0], 4001), buffers).is_err()
    );
}

#[test]
fn discoveries_are_told_in_the_order_of_their_sources() {
    let pair = manual_pair(NativeDeviceRole::Sender);
    let (host, public) = (pair.local_candidate, pair.remote_candidate);
    let answer = |found, mapping, candidates| ServerAnswers {
        public_endpoint_found: found,
        candidates,
        mapping_behavior: mapping,
        mapping_consistent: Some(found),
    };
    let (candidates, diagnostics) = collect_discoveries(
        Discoveries {
            host: HostGatherResult {
                candidates: vec![host.clone()],
                diagnostics: Vec::new(),
            },
            answers: vec![
                answer(
                    true,
                    ObservedNatMappingBehavior::LikelyEndpointIndependent,
                    vec![public.clone()],
                ),
                answer(false, ObservedNatMappingBehavior::Unknown, Vec::new()),
            ],
            port_mapping_attempts: Vec::new(),
            mapped: None,
        },
        "session".into(),
        "transfer".into(),
        2,
    );
    assert_eq!(
        diagnostics.firewall.note,
        "FlowGet never changes Windows Firewall rules."
    );
    assert_eq!(
        diagnostics.quinn_udp_buffer_target_bytes,
        QUINN_UDP_SOCKET_BUFFER_BYTES
    );
    assert_eq!(candidates, vec![host.clone(), public]);
    assert_eq!(diagnostics.host_candidates, vec![host.clone()]);
    assert!(diagnostics.firewall.udp_bind_succeeded);
    assert!(diagnostics.firewall.outbound_stun_succeeded);
    assert_eq!(
        diagnostics.observed_nat_mapping,
        ObservedNatMappingBehavior::LikelyEndpointIndependent
    );
    assert_eq!(diagnostics.mapping_consistent_across_stun_servers, Some(true));
    assert_eq!(
        related_endpoint(&candidates, NativeAddressFamily::Ipv4),
        Some(host.socket_addr())
    );
    assert_eq!(related_endpoint(&candidates, NativeAddressFamily::Ipv6), None);
    let usual = ConnectivityGatherOptions::usual(120_000);
    assert!(asks_servers(&usual));
    assert_eq!(usual.candidate_lifetime_ms, Some(120_000));
}

#[test]
fn responses_tell_what_a_session_holds() {
    let mut told = session(NativeDeviceRole::Sender);
    told.diagnostics.last_error = Some("native-udp-bind-failed".into());
    told.diagnostics.host_candidates = told.local_candidates.clone();
    told.cancel();

    let state = told.state_response(&[1; 32]);
    assert_eq!(state.connectivity_session_id, told.registry_id);
    assert_eq!(state.state, ConnectivityStateName::Cancelled);
    assert_eq!(state.remote_candidate_count, 1);
    assert!(state.network_change_detected && state.renegotiation_required);
    assert!(state.production_native_enabled);
    assert!(!told.state_response(&[0; 32]).network_change_detected);
    assert_eq!(state.diagnostics.host_candidates, told.local_candidates);
    assert_eq!(state.diagnostics.last_error.as_deref(), Some("native-udp-bind-failed"));
    assert_eq!(state.diagnostics.failure_classification, Some(ConnectivityOutcome::Cancelled));

    let made = told.envelope_response(9, "offer".into());
    assert_eq!(made.future_quic_session_id, told.future_quic_session_id);
    assert_eq!((made.signaling_generation, made.candidate_generation), (9, 1));
    assert_eq!(made.encoded_envelope, "offer");
    assert_eq!(made.local_candidates, told.local_candidates);

    let checked = told.checks_response("result".into(), None);
    assert_eq!(checked.state, ConnectivityStateName::Cancelled);
    assert_eq!(checked.check_result_envelope, "result");
    assert_eq!(checked.nomination_envelope, None);
}
