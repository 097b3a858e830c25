use flowshare_core::address::{IpAddress, SocketAddress};
use flowshare_core::candidates::{
    apply_privacy_policy, candidate_payload_digest, candidate_priority, contains_vpn_hint,
    gather_host_candidates, validate_candidate_batch, CandidatePrivacyPolicy, HostGatherOptions,
    HostInterface, InterfaceKind, ManualCandidateInput, NativeAddressFamily, NativeCandidate,
    NativeCandidateType,
};
use flowshare_core::path_selection::{build_candidate_pairs, pair_id, EstimatedNativeRoute};
use flowshare_core::signaling::NativeDeviceRole;

const LOCALHOST: IpAddress = IpAddress::V4([127, 0, 0, 1]);

fn link_local() -> IpAddress {
    let mut octets = [0u8; 16];
    octets[0] = 0xfe;
    octets[1] = 0x80;
    octets[15] = 1;
    IpAddress::V6(octets)
}

fn manual(address: IpAddress, port: u16) -> NativeCandidate {
    ManualCandidateInput {
        address,
        port,
        priority: None,
    }
    .into_candidate(1, u64::MAX - 31_000, address == LOCALHOST)
    .unwrap()
}

#[test]
fn candidate_id_detects_modification() {
    let mut candidate = NativeCandidate::new(
        NativeCandidateType::Host,
        IpAddress::V4([192, 168, 1, 20]),
        44000,
        "if-7".into(),
        500_110,
        "abcd".into(),
        None,
        1,
        u64::MAX - 31_000,
    )
    .unwrap();
    candidate.port += 1;
    assert_eq!(
        candidate.validate(false, 1).unwrap_err(),
        "native-candidate-id-mismatch"
    );
}

#[test]
fn remote_loopback_and_unscoped_link_local_are_rejected() {
    let loopback = ManualCandidateInput {
        address: LOCALHOST,
        port: 44000,
        priority: None,
    }
    .into_candidate(1, u64::MAX - 31_000, true)
    .unwrap();
    assert_eq!(
        loopback.validate(false, 1).unwrap_err(),
        "native-candidate-loopback-not-permitted"
    );
    assert_eq!(
        ManualCandidateInput {
            address: link_local(),
            port: 44000,
            priority: None,
        }
        .into_candidate(1, u64::MAX - 31_000, false)
        .unwrap_err(),
        "native-candidate-ipv6-scope-required"
    );
}

#[test]
fn public_only_hides_private_host_candidates() {
    let host = NativeCandidate::new(
        NativeCandidateType::Host,
        IpAddress::V4([10, 0, 0, 2]),
        42000,
        "if-1".into(),
        1,
        "host".into(),
        None,
        1,
        u64::MAX - 31_000,
    )
    .unwrap();
    let public = NativeCandidate::new(
        NativeCandidateType::ServerReflexive,
        IpAddress::V4([203, 0, 113, 5]),
        42000,
        "stun".into(),
        1,
        "srflx".into(),
        Some(SocketAddress::new(IpAddress::V4([10, 0, 0, 2]), 42000)),
        1,
        u64::MAX - 31_000,
    )
    .unwrap();
    let filtered = apply_privacy_policy(
        vec![host, public.clone()],
        CandidatePrivacyPolicy::PublicOnly,
        false,
        false,
    )
    .unwrap();
    assert_eq!(filtered, vec![public]);
}

#[test]
fn duplicate_candidate_batch_is_rejected() {
    let candidate = NativeCandidate::new(
        NativeCandidateType::Manual,
        IpAddress::V4([198, 51, 100, 7]),
        42000,
        "manual".into(),
        1,
        "manual".into(),
        None,
        1,
        u64::MAX - 31_000,
    )
    .unwrap();
    assert_eq!(
        validate_candidate_batch(&[candidate.clone(), candidate], false, 1).unwrap_err(),
        "native-candidate-duplicate"
    );
}

#[test]
fn pair_identity_is_role_stable() {
    let sender = manual(IpAddress::V4([198, 51, 100, 1]), 40000);
    let receiver = manual(IpAddress::V4([203, 0, 113, 2]), 41000);
    let sender_view = build_candidate_pairs(
        &[sender.clone()],
        &[receiver.clone()],
        NativeDeviceRole::Sender,
    );
    let receiver_view = build_candidate_pairs(&[receiver], &[sender], NativeDeviceRole::Receiver);
    assert_eq!(sender_view[0].pair_id, receiver_view[0].pair_id);
    assert_eq!(
        sender_view[0].sender_candidate_id,
        receiver_view[0].sender_candidate_id
    );
    assert_eq!(sender_view[0].priority, receiver_view[0].priority);
}

#[test]
fn pairs_join_addresses_of_one_family_only() {
    let four = manual(IpAddress::V4([198, 51, 100, 1]), 40000);
    let six = manual(IpAddress::V6([0x20; 16]), 40000);
    let pairs = build_candidate_pairs(
        &[four.clone(), six.clone()],
        &[four, six],
        NativeDeviceRole::Sender,
    );
    assert_eq!(pairs.len(), 2);
    for pair in &pairs {
        assert_eq!(
            pair.local_candidate.address_family,
            pair.remote_candidate.address_family
        );
        assert_eq!(pair.estimated_route, EstimatedNativeRoute::ManualDirect);
    }
    let text = pair_id("a", "b");
    assert_eq!(text.len(), 32);
    assert_ne!(text, pair_id("b", "a"));
}

#[test]
fn the_set_payload_does_not_depend_on_order() {
    let one = manual(IpAddress::V4([198, 51, 100, 1]), 40000);
    let two = manual(IpAddress::V4([198, 51, 100, 2]), 40000);
    let forward = candidate_payload_digest(&[one.clone(), two.clone()]);
    assert_eq!(forward, candidate_payload_digest(&[two, one.clone()]));
    assert_ne!(forward, candidate_payload_digest(&[one]));
}

#[test]
fn priorities_follow_the_kind_of_path() {
    assert_eq!(
        candidate_priority(NativeCandidateType::Host, true, false),
        500_110
    );
    assert_eq!(
        candidate_priority(NativeCandidateType::Ipv6, false, false),
        450_010
    );
    assert_eq!(
        candidate_priority(NativeCandidateType::ServerReflexive, false, true),
        300_000
    );
    assert!(contains_vpn_hint("WireGuard Tunnel"));
    assert!(!contains_vpn_hint("Ethernet"));
}

#[test]
fn batches_over_the_limit_and_expired_candidates_are_refused() {
    let many: Vec<NativeCandidate> = (0..33u16)
        .map(|at| manual(IpAddress::V4([198, 51, 100, 1]), 40000 + at))
        .collect();
    assert!(validate_candidate_batch(&many, false, 1).is_err());
    assert!(validate_candidate_batch(&many[..32], false, 1).is_ok());
    assert!(many[0].validate(false, u64::MAX).is_err());
}

#[test]
fn private_candidates_need_approval_for_all_direct() {
    let candidate = manual(IpAddress::V4([198, 51, 100, 1]), 40000);
    assert!(apply_privacy_policy(
        vec![candidate.clone()],
        CandidatePrivacyPolicy::AllDirect,
        false,
        false
    )
    .is_err());
    assert_eq!(
        apply_privacy_policy(
            vec![candidate.clone()],
            CandidatePrivacyPolicy::AllDirect,
            false,
            true
        )
        .unwrap(),
        vec![candidate]
    );
}

#[test]
fn gathering_takes_each_usable_address_once() {
    let interface = HostInterface {
        index: 7,
        name: "eth0".into(),
        friendly_name: None,
        kind_name: "Ethernet".into(),
        kind: InterfaceKind::Other,
        is_tun: false,
        is_up: true,
        is_running: true,
        is_physical: true,
        is_loopback: false,
        addresses: vec![
            IpAddress::V4([192, 168, 1, 20]),
            IpAddress::V4([192, 168, 1, 20]),
            link_local(),
        ],
    };
    let gathered = gather_host_candidates(
        &[interface],
        HostGatherOptions {
            allow_vpn: false,
            allow_virtual: false,
            allow_loopback_test: false,
            generation: 1,
            expires_unix_ms: u64::MAX - 31_000,
            ipv4_port: Some(44000),
            ipv6_port: Some(44001),
        },
    );
    assert_eq!(gathered.candidates.len(), 1);
    assert_eq!(gathered.candidates[0].port, 44000);
    assert_eq!(
        gathered.candidates[0].address_family,
        NativeAddressFamily::Ipv4
    );
    assert_eq!(gathered.candidates[0].network_identifier, "if-7");
    assert_eq!(gathered.diagnostics.len(), 3);
    assert!(gathered.diagnostics[0].accepted);
    assert!(!gathered.diagnostics[1].accepted);
    assert!(!gathered.diagnostics[2].accepted);
}
