use flowshare_core::authorization::{
    AuthorizationMaterial, AuthorizationRegistry, PersistedAuthorizationRestoreLease,
    SecureInvitation, SecureInvitationBody, SecurityPolicy, TransferMasterSecret,
};
use flowshare_core::authorization_delivery::{
    decode_manual_invitation_package, DecodedManualInvitationPackage, DecodedReceiverBootstrap,
    EphemeralIdentity,
};
use flowshare_core::candidates::CandidatePrivacyPolicy;
use flowshare_core::connectivity::{ConnectivityCheckResultPayload, ConnectivityGatherOptions};
use flowshare_core::connectivity_diagnostics::ConnectivityOutcome;
use flowshare_core::cross_device::{
    bounded_lifetime, bounded_timeout, check_run_in_time, finish_incoming_runtime,
    finish_outgoing_runtime, flowshare_native_accept_incoming_transfer,
    flowshare_native_cancel_outgoing_transfer, flowshare_native_get_outgoing_transfer,
    flowshare_native_pause_outgoing_transfer, flowshare_native_reject_incoming_transfer,
    flowshare_native_start_outgoing_transfer, insert_incoming, insert_outgoing,
    list_outgoing_transfers, lookup_incoming, lookup_outgoing, parse_transfer_id, plan_acceptance,
    sender_gathering, terminal_incoming_state, terminal_outgoing_state, AcceptIncomingTransferRequest,
    CancelSplitTransferRequest, IncomingMutable, IncomingNativeState, IncomingNativeTransfer,
    IncomingNativeTransferSnapshot,
    OutgoingMutable, OutgoingNativeState, OutgoingNativeTransfer, SourceIdentity,
    SplitTransferIdRequest, SplitTransferResult, StartSplitTransferRequest,
    MAX_SPLIT_ROLE_RECORDS, OUTGOING_STATE_VERSION,
};
use flowshare_core::crypto::digest_of;
use flowshare_core::direct_run::{
    check_delivery, require_check_result, Delivery, DirectRun, RunPhase,
};
use flowshare_core::encoding::hex;
use flowshare_core::failures::{
    classify_candidate_setup_error, classify_connectivity_checks_error,
    classify_receiver_wait_error, classify_runtime_error, classify_signaling_exchange_error,
    connectivity_results_agree, require_nomination, should_retry_connectivity_attempt,
    signaling_connect_error_retryable, ConnectStep, SignalingConnect, MAX_DIRECT_CONNECT_ATTEMPTS,
};
use flowshare_core::received_files::{
    choose_retention, decode_import_receipt, duplicate_destination_name, encode_import_receipt,
    ensure_contained_destination, ensure_incoming_storage_capacity, incoming_artifact_directory,
    incoming_retention_expiry, incoming_state_root, pending_receipt_name,
    sanitize_received_filename, PersistedIncomingRetention, MAX_INCOMING_RETENTION_MS,
};
use flowshare_core::file_transfer::DestinationChoice;
use flowshare_core::paths::{join_path, PathStyle};
use flowshare_core::registry::Registry;
use flowshare_core::signaling::{NativeConnectivityFailure, NativeDeviceRole};
use flowshare_core::transfer_setup::{
    abandon_incoming_resume, begin_incoming_resume, check_not_imported, check_persisted_outgoing, check_resumed_source,
    choose_persisted_outgoing, cleanup_is_due, discard_place, discarded_part,
    flowshare_native_import_incoming_invitation,
    flowshare_native_prepare_incoming_receiver, flowshare_native_resume_incoming_transfer,
    flowshare_native_resume_outgoing_transfer,
    inspect_outgoing_resumable, is_still_kept, lease_receiver_bootstrap, order_outgoing_discoveries,
    persisted_outgoing, persisted_outgoing_state_tag, resumed_incoming, restore_receiver_bootstrap,
    CheckpointFacts, FailedResumeStep, ImportPlace, IncomingResume, IncomingScan, PersistedOutgoingState,
    PrepareIncomingReceiverRequest, ReceiverBootstrapRecord, ReopenedSource, ResumeDirectories,
    ResumeIncomingTransferRequest, ResumePlace, ScanIncomingResumableRequest,
};

const NOW: u64 = 1_700_000_000_000;
const TRANSFER: &str = "01010101-0101-0101-0101-010101010101";

fn policy() -> SecurityPolicy {
    SecurityPolicy {
        protocol_version: 4,
        allowed_clock_skew_ms: 30_000,
        default_invitation_lifetime_ms: 600_000,
        max_invitation_bytes: 4_096,
    }
}

fn outgoing_mutable(state: OutgoingNativeState) -> OutgoingMutable {
    OutgoingMutable {
        state,
        control_requested: false,
        cancelled: false,
        local_stop: None,
        pause_request_id: None,
        runtime_active: false,
        connectivity_session_id: None,
        quic_session_id: None,
        selected_path: None,
        bytes_sent: 0,
        bytes_skipped: 0,
        peer_checkpoint_generation: None,
        peer_state_digest: None,
        peer_completed_bytes: 0,
        integrity_result: None,
        performance: None,
        signaling_file_payload_bytes: 0,
        terminal_error: None,
    }
}

fn outgoing_record(transfer_id: &str, state: OutgoingNativeState) -> OutgoingNativeTransfer {
    OutgoingNativeTransfer {
        transfer_id: transfer_id.into(),
        invitation_id: "05050505-0505-0505-0505-050505050505".into(),
        source_path: "source.bin".into(),
        source_identity: SourceIdentity {
            size: 16,
            modified_unix_ms: None,
            platform_file_id: None,
            canonical_path: None,
        },
        display_filename: "source.bin".into(),
        file_size: 16,
        expected_sha256: [1; 32],
        receiver_certificate: Vec::new(),
        receiver_certificate_fingerprint_sha256: [2; 32],
        candidate_privacy_policy: CandidatePrivacyPolicy::LanFirst,
        authorization_resume_path: "transfer.resume.current".into(),
        outgoing_state_path: "outgoing-state.json".into(),
        previous_quic_session_id: None,
        expires_unix_ms: NOW + 60_000,
        created_unix_ms: NOW,
        mutable: outgoing_mutable(state),
    }
}

fn incoming_mutable(state: IncomingNativeState) -> IncomingMutable {
    IncomingMutable {
        state,
        control_requested: false,
        cancelled: false,
        local_stop: None,
        peer_cancel_retain_partial: None,
        pause_request_id: None,
        runtime_active: false,
        connectivity_session_id: None,
        quic_session_id: None,
        selected_path: None,
        accepted_filename: None,
        expected_file_size: None,
        expected_sha256: None,
        final_path: None,
        part_path: None,
        bytes_received: 0,
        bytes_written: 0,
        bytes_skipped: 0,
        checkpoint_generation: 0,
        secure_state_digest: None,
        completed_checkpoint_bytes: 0,
        integrity_result: None,
        performance: None,
        signaling_file_payload_bytes: 0,
        terminal_error: None,
    }
}

fn incoming_record(state: IncomingNativeState) -> IncomingNativeTransfer {
    IncomingNativeTransfer {
        transfer_id: TRANSFER.into(),
        invitation_id: "05050505-0505-0505-0505-050505050505".into(),
        destination_directory: "/downloads".into(),
        artifact_directory: "/state/incoming/a".into(),
        authorization_resume_path: "/state/incoming/a/transfer.resume.current".into(),
        receiver_identity: None,
        receiver_certificate_fingerprint_sha256: [2; 32],
        expires_unix_ms: NOW + 60_000,
        retention_expires_unix_ms: NOW + 600_000,
        created_unix_ms: NOW,
        mutable: incoming_mutable(state),
    }
}

fn material() -> AuthorizationMaterial {
    AuthorizationMaterial {
        invitation: SecureInvitation {
            body: SecureInvitationBody {
                invitation_id: [5; 16],
                transfer_id: [1; 16],
                created_unix_ms: NOW,
                expires_unix_ms: NOW + 60_000,
                server_certificate_fingerprint: [2; 32],
                capability_digest: [7; 32],
                allowed_file_count: 1,
                maximum_claim_count: 1,
            },
            encoded: vec![9; 40],
        },
        master: TransferMasterSecret { bytes: [6; 32] },
    }
}

fn identity() -> EphemeralIdentity {
    let certificate = vec![0x30; 300];
    EphemeralIdentity {
        fingerprint_sha256_bytes: digest_of(&certificate),
        certificate,
        private_key: vec![1; 32],
    }
}

fn result() -> SplitTransferResult {
    SplitTransferResult {
        payload_bytes: 16,
        bytes_skipped: 0,
        integrity_result: "sha256-match".into(),
        signaling_file_payload_bytes: 0,
        bytes_per_second: 1_000,
    }
}

fn prepared(records: &mut Registry<String, ReceiverBootstrapRecord>) -> String {
    flowshare_native_prepare_incoming_receiver(
        records,
        &Some(PrepareIncomingReceiverRequest {
            lifetime_ms: Some(60_000),
        }),
        identity(),
        &policy(),
        NOW,
    )
    .unwrap()
    .receiver_bootstrap_id
}

#[test]
fn filename_validation_rejects_traversal_drives_and_windows_devices() {
    for unsafe_name in [
        "../escape.bin",
        "..\\escape.bin",
        "C:\\escape.bin",
        "\\\\server\\share.bin",
        "CON",
        "con.txt",
        "LPT9.log",
        "NUL.bin",
        "file/child.bin",
        "file\\child.bin",
    ] {
        assert!(
            sanitize_received_filename(unsafe_name).is_err(),
            "accepted unsafe filename {unsafe_name:?}"
        );
    }
}

#[test]
fn filename_validation_normalizes_trailing_dots_and_preserves_extension() {
    assert_eq!(
        sanitize_received_filename("report.final.pdf...  ").unwrap(),
        "report.final.pdf"
    );
    assert_eq!(
        sanitize_received_filename("archive.tar.zst").unwrap(),
        "archive.tar.zst"
    );
}

#[test]
fn destination_containment_is_strict() {
    for style in [PathStyle::Unix, PathStyle::Windows] {
        let inside = join_path(style, "C:\\Downloads", "file.bin");
        assert!(ensure_contained_destination(style, "C:\\Downloads", &inside).is_ok());
        assert!(ensure_contained_destination(style, "C:\\Downloads", "C:\\file.bin").is_err());
    }
}

fn payload(state: &PersistedOutgoingState) -> Vec<u8> {
    let mut map = serde_json::Map::new();
    map.insert("version".into(), state.version.into());
    map.insert("transferId".into(), state.transfer_id.clone().into());
    map.insert("invitationId".into(), state.invitation_id.clone().into());
    map.insert("sourcePath".into(), state.source_path.clone().into());
    map.insert("fileSize".into(), state.file_size.into());
    map.insert(
        "peerCompletedBytes".into(),
        state.peer_completed_bytes.into(),
    );
    serde_json::to_vec(&serde_json::Value::Object(map)).unwrap()
}

#[test]
fn persisted_outgoing_state_mac_rejects_local_field_tampering() {
    let key = [0x4b; 32];
    let mut state = PersistedOutgoingState {
        version: OUTGOING_STATE_VERSION,
        transfer_id: TRANSFER.into(),
        invitation_id: "05050505-0505-0505-0505-050505050505".into(),
        source_path: "C:\\source.bin".into(),
        source_identity: SourceIdentity {
            size: 10,
            modified_unix_ms: Some(2),
            platform_file_id: Some("volume:file".into()),
            canonical_path: Some("C:\\source.bin".into()),
        },
        display_filename: "source.bin".into(),
        file_size: 10,
        expected_sha256: [9; 32],
        candidate_privacy_policy: CandidatePrivacyPolicy::LanFirst,
        expires_unix_ms: NOW + 60_000,
        created_unix_ms: NOW,
        previous_quic_session_id: Some("08080808-0808-0808-0808-080808080808".into()),
        peer_checkpoint_generation: Some(1),
        peer_state_digest: Some([8; 32]),
        peer_completed_bytes: 4,
        authentication_tag: [0; 32],
    };
    state.authentication_tag = persisted_outgoing_state_tag(&payload(&state), &key);
    assert_eq!(
        state.authentication_tag,
        persisted_outgoing_state_tag(&payload(&state), &key)
    );
    assert!(check_persisted_outgoing(
        &state,
        &payload(&state),
        &[1; 16],
        &[5; 16],
        &key
    ));
    state.peer_completed_bytes = 5;
    assert_ne!(
        state.authentication_tag,
        persisted_outgoing_state_tag(&payload(&state), &key)
    );
    assert!(!check_persisted_outgoing(
        &state,
        &payload(&state),
        &[1; 16],
        &[5; 16],
        &key
    ));
}

#[test]
fn import_receipt_rejects_tampering() {
    let digest = [5; 32];
    let mut bytes = encode_import_receipt(&digest, NOW);
    assert_eq!(bytes.len(), 88);
    assert_eq!(&bytes[..16], b"FQINVRECEIPT0004");
    assert_eq!(decode_import_receipt(&bytes).unwrap(), digest);
    bytes[20] ^= 1;
    assert_eq!(
        decode_import_receipt(&bytes).unwrap_err(),
        "native-manual-package-receipt-failed"
    );
}

#[test]
fn incoming_storage_preflight_reports_required_and_available_bytes() {
    assert_eq!(
        ensure_incoming_storage_capacity(4_096, Some(1_024)).unwrap_err(),
        "native-incoming-insufficient-space: required-bytes=4096; available-bytes=1024"
    );
    assert!(ensure_incoming_storage_capacity(4_096, Some(4_096)).is_ok());
    assert!(ensure_incoming_storage_capacity(4_096, None).is_ok());
}

#[test]
fn failed_incoming_resume_preparation_restores_receiver_bootstrap() {
    let mut bootstraps = Registry::new();
    let incoming = Registry::new();
    let bootstrap_id = prepared(&mut bootstraps);
    let lease = match begin_incoming_resume(
        &incoming,
        &mut bootstraps,
        &ResumeIncomingTransferRequest {
            transfer_id: TRANSFER.into(),
            receiver_bootstrap_id: bootstrap_id.clone(),
            destination_directory: "/downloads".into(),
            expected_checkpoint_generation: None,
            signaling_endpoint: "ws://127.0.0.1:9/ws".into(),
            gathering: None,
            signaling_timeout_ms: Some(5_000),
            connectivity_timeout_ms: Some(5_000),
        },
        NOW,
    ) {
        Ok(lease) => lease,
        Err(error) => panic!("{error}"),
    };
    assert!(!bootstraps.contains(&bootstrap_id));
    let mut authorization = AuthorizationRegistry::new(policy());
    let error = abandon_incoming_resume(
        &mut bootstraps,
        &mut authorization,
        lease,
        FailedResumeStep::Preparing("native-incoming-artifact-unsafe".into()),
        NOW,
    );
    assert!(error.starts_with("native-incoming-artifact"), "{error}");
    assert!(bootstraps.contains(&bootstrap_id));
}

#[test]
fn a_receiver_is_prepared_only_for_a_time_that_ends() {
    let mut records = Registry::new();
    assert_eq!(
        flowshare_native_prepare_incoming_receiver(
            &mut records,
            &None,
            identity(),
            &policy(),
            u64::MAX,
        )
        .err()
        .unwrap(),
        "native-receiver-bootstrap-lifetime-invalid"
    );
    assert_eq!(records.len(), 0);
}

#[test]
fn the_sender_announces_its_file_and_the_receiver_does_not() {
    let mut record = outgoing_record(TRANSFER, OutgoingNativeState::AwaitingReceiver);
    let announced = record.announcement();
    assert_eq!(announced.share_id, TRANSFER);
    assert_eq!(announced.display_filename.as_deref(), Some("source.bin"));
    assert_eq!(announced.file_size, Some(16));
    assert_eq!(announced.file_sha256, Some(hex(&[1; 32])));
    record.file_size = 0;
    assert_eq!(record.announcement().file_size, Some(1));
    let waiting = incoming_record(IncomingNativeState::AwaitingAcceptance).announcement();
    assert_eq!(waiting.share_id, TRANSFER);
    assert!(waiting.display_filename.is_none());
    assert!(waiting.file_size.is_none());
    assert!(waiting.file_sha256.is_none());
}

#[test]
fn a_run_goes_on_only_with_a_nomination() {
    assert_eq!(
        require_nomination(&Some("envelope".into()), None, &None).unwrap(),
        "envelope"
    );
    assert_eq!(
        require_nomination(&None, Some(ConnectivityOutcome::Cancelled), &None).unwrap_err(),
        "native-transfer-cancelled"
    );
}

#[test]
fn duplicate_outgoing_insert_keeps_the_original_record() {
    let mut records = Registry::new();
    insert_outgoing(
        &mut records,
        outgoing_record(TRANSFER, OutgoingNativeState::AwaitingReceiver),
    )
    .unwrap();
    assert_eq!(
        insert_outgoing(
            &mut records,
            outgoing_record(TRANSFER, OutgoingNativeState::Failed)
        )
        .unwrap_err(),
        "native-outgoing-transfer-exists"
    );
    let stored = lookup_outgoing(&records, TRANSFER).unwrap();
    assert_eq!(stored.mutable.state, OutgoingNativeState::AwaitingReceiver);
}

#[test]
fn task_registration_does_not_resurrect_completed_runtime() {
    let mut mutable = outgoing_mutable(OutgoingNativeState::GatheringCandidates);
    mutable.register_task(true);
    assert!(!mutable.runtime_active);
    mutable.register_task(false);
    assert!(mutable.runtime_active);
}

#[test]
fn lifecycle_panic_is_converted_to_terminal_failed_state() {
    let mut mutable = outgoing_mutable(OutgoingNativeState::GatheringCandidates);
    mutable.runtime_active = true;
    finish_outgoing_runtime(&mut mutable, Err("native-runtime-panic".into()));
    assert_eq!(mutable.state, OutgoingNativeState::Failed);
    assert_eq!(
        mutable.terminal_error.as_deref(),
        Some("native-runtime-panic")
    );
    assert!(!mutable.runtime_active);
}

#[test]
fn failed_invitation_validation_restores_receiver_bootstrap_for_retry() {
    let mut bootstraps = Registry::new();
    let bootstrap_id = prepared(&mut bootstraps);
    for _ in 0..2 {
        let (id, bootstrap) = match lease_receiver_bootstrap(&mut bootstraps, &bootstrap_id, NOW) {
            Ok(lease) => lease,
            Err(error) => panic!("{error}"),
        };
        let refused = decode_manual_invitation_package(
            "not-a-secure-invitation",
            &Some(bootstrap.identity.fingerprint_sha256_bytes),
            Ok(material().invitation),
            Ok(()),
            &policy(),
            NOW,
        )
        .err()
        .unwrap();
        assert!(refused.starts_with("native-manual-package"), "{refused}");
        restore_receiver_bootstrap(&mut bootstraps, id, bootstrap, NOW);
        assert!(bootstraps.contains(&bootstrap_id));
    }
}

#[test]
fn connectivity_failure_classification_does_not_invent_peer_decline_or_cgnat() {
    assert_eq!(
        classify_receiver_wait_error("native-signaling-receiver-timeout"),
        "receiver-not-ready: native-signaling-receiver-timeout"
    );
    assert_eq!(
        classify_candidate_setup_error("native-udp-bind-failed"),
        "udp-bind-failed: native-udp-bind-failed"
    );
    assert_eq!(
        classify_connectivity_checks_error("native-connectivity-no-candidate-pairs"),
        "no-compatible-candidate-pair: native-connectivity-no-candidate-pairs"
    );
    assert_eq!(
        classify_signaling_exchange_error("native-signaling-disabled"),
        "native-signaling-disabled: native-signaling-disabled"
    );
    assert_eq!(
        classify_signaling_exchange_error(
            "native-signaling-delivery-retry-exhausted: native-peer-offline"
        ),
        "native-peer-offline: native-signaling-delivery-retry-exhausted: native-peer-offline"
    );
    assert!(!signaling_connect_error_retryable(
        "native-route-unauthorized"
    ));
    assert!(signaling_connect_error_retryable("native-peer-offline"));
    assert!(signaling_connect_error_retryable(
        "share-offline-or-expired"
    ));
}

fn failed() -> ConnectivityCheckResultPayload {
    ConnectivityCheckResultPayload {
        attempted_pair_ids: vec!["pair-a".into()],
        viable_pair_ids: Vec::new(),
        authenticated_probes_sent: 4,
        authenticated_probes_received: 0,
        best_rtt: None,
        failure: Some(NativeConnectivityFailure::UdpBlocked),
    }
}

#[test]
fn bounded_recovery_barrier_makes_symmetric_retry_and_stop_decisions() {
    let failed = failed();
    assert!(!connectivity_results_agree(Some("pair-a"), &failed));
    assert!(should_retry_connectivity_attempt(1, &failed));
    assert!(!should_retry_connectivity_attempt(
        MAX_DIRECT_CONNECT_ATTEMPTS,
        &failed
    ));

    let succeeded = ConnectivityCheckResultPayload {
        viable_pair_ids: vec!["pair-a".into()],
        failure: None,
        ..failed.clone()
    };
    assert!(connectivity_results_agree(Some("pair-a"), &succeeded));
    assert!(!connectivity_results_agree(Some("pair-b"), &succeeded));

    let fatal = ConnectivityCheckResultPayload {
        failure: Some(NativeConnectivityFailure::CandidateAuthenticationFailed),
        ..failed
    };
    assert!(!should_retry_connectivity_attempt(1, &fatal));
}

#[test]
fn finalization_boundary_preserves_terminal_ownership() {
    let mut record = outgoing_record(TRANSFER, OutgoingNativeState::Transferring);
    assert!(record.mutable.claim_finalization().is_ok());
    assert_eq!(record.mutable.state, OutgoingNativeState::Finalizing);

    let mut records = Registry::new();
    insert_outgoing(&mut records, record).unwrap();
    let (snapshot, _) = flowshare_native_cancel_outgoing_transfer(
        &mut records,
        &CancelSplitTransferRequest {
            transfer_id: TRANSFER.into(),
            retain_partial: Some(false),
        },
    )
    .unwrap();
    assert_eq!(snapshot.state, OutgoingNativeState::Finalizing);
    assert_eq!(
        terminal_outgoing_state(OutgoingNativeState::Completed, "transfer-interrupted"),
        OutgoingNativeState::Completed
    );
    assert_eq!(
        terminal_incoming_state(IncomingNativeState::Completed, "completed-ack-lost"),
        IncomingNativeState::Completed
    );
}

#[test]
fn a_cancelled_transfer_is_not_finalized() {
    let mut records = Registry::new();
    insert_outgoing(
        &mut records,
        outgoing_record(TRANSFER, OutgoingNativeState::Transferring),
    )
    .unwrap();
    let (snapshot, follow_up) = flowshare_native_cancel_outgoing_transfer(
        &mut records,
        &CancelSplitTransferRequest {
            transfer_id: TRANSFER.into(),
            retain_partial: Some(false),
        },
    )
    .unwrap();
    assert_eq!(snapshot.state, OutgoingNativeState::Cancelled);
    assert!(follow_up.revoke_authorization && follow_up.remove_state);
    let key = TRANSFER.to_string();
    let stored = records.get_mut(&key).unwrap();
    assert!(stored.mutable.claim_finalization().is_err());
}

#[test]
fn a_sender_runs_once_and_pauses_while_it_runs() {
    let mut records = Registry::new();
    insert_outgoing(
        &mut records,
        outgoing_record(TRANSFER, OutgoingNativeState::AwaitingReceiver),
    )
    .unwrap();
    let start = StartSplitTransferRequest {
        transfer_id: TRANSFER.into(),
        signaling_endpoint: "wss://example.org/ws".into(),
        gathering: None,
        signaling_timeout_ms: None,
        connectivity_timeout_ms: None,
    };
    let started = flowshare_native_start_outgoing_transfer(&mut records, &start).unwrap();
    assert_eq!(started.transfer_id, TRANSFER);
    assert!(started.runtime_active);
    assert_eq!(started.state, OutgoingNativeState::GatheringCandidates);
    let key = TRANSFER.to_string();
    records.get_mut(&key).unwrap().mutable.register_task(false);
    assert!(flowshare_native_start_outgoing_transfer(&mut records, &start).is_err());
    let id = SplitTransferIdRequest {
        transfer_id: TRANSFER.into(),
    };
    records.get_mut(&key).unwrap().mutable.state = OutgoingNativeState::Transferring;
    flowshare_native_pause_outgoing_transfer(&mut records, &id, [3; 16]).unwrap();
    let snapshot = flowshare_native_get_outgoing_transfer(&records, &id).unwrap();
    assert!(snapshot.runtime_active);
    assert_eq!(snapshot.expected_sha256, hex(&[1; 32]));
    assert!(lookup_outgoing(&records, "ffffffff-ffff-ffff-ffff-ffffffffffff").is_err());
    assert_eq!(parse_transfer_id(TRANSFER).unwrap(), [1; 16]);
    assert_eq!(
        parse_transfer_id("nothing").unwrap_err(),
        "native-transfer-id-invalid"
    );
}

#[test]
fn a_completed_transfer_leaves_nothing_to_resume() {
    let mut outgoing = outgoing_mutable(OutgoingNativeState::Finalizing);
    let follow_up = finish_outgoing_runtime(&mut outgoing, Ok(result()));
    assert_eq!(outgoing.state, OutgoingNativeState::Completed);
    assert_eq!(outgoing.bytes_sent, 16);
    assert!(follow_up.remove_state && !follow_up.revoke_authorization);

    let mut incoming = incoming_mutable(IncomingNativeState::Finalizing);
    let follow_up =
        finish_incoming_runtime(&mut incoming, Ok(result()), NOW + 600_000, NOW);
    assert_eq!(incoming.state, IncomingNativeState::Completed);
    assert!(follow_up.consume_authorization && follow_up.delete_secret);
    assert!(follow_up.remove_workspace);
}

#[test]
fn the_oldest_listing_is_bounded_and_full_registries_refuse() {
    let mut records = Registry::new();
    for at in 0..MAX_SPLIT_ROLE_RECORDS {
        let id = format!("00000000-0000-0000-0000-0000000000{at:02x}");
        insert_outgoing(
            &mut records,
            outgoing_record(&id, OutgoingNativeState::Created),
        )
        .unwrap();
    }
    assert!(insert_outgoing(
        &mut records,
        outgoing_record(TRANSFER, OutgoingNativeState::Created)
    )
    .is_err());
    assert_eq!(list_outgoing_transfers(&records).len(), MAX_SPLIT_ROLE_RECORDS);
}

#[test]
fn an_accepted_offer_names_its_file_and_part() {
    let mut records = Registry::new();
    insert_incoming(
        &mut records,
        incoming_record(IncomingNativeState::AwaitingAcceptance),
    )
    .unwrap();
    let request = AcceptIncomingTransferRequest {
        transfer_id: TRANSFER.into(),
        display_filename: "movie.webm".into(),
        file_size: 16,
        expected_sha256: hex(&[1; 32]),
        overwrite: None,
    };
    let plan = plan_acceptance(PathStyle::Unix, &records, &request).unwrap();
    assert_eq!(plan.filename, "movie.webm");
    assert_eq!(plan.expected_sha256, [1; 32]);
    assert_eq!(plan.destination, "/downloads");
    let snapshot = flowshare_native_accept_incoming_transfer(
        &mut records,
        &request,
        plan,
        "/downloads/movie.webm".into(),
    )
    .unwrap();
    assert_eq!(snapshot.state, IncomingNativeState::Accepted);
    assert_eq!(snapshot.final_path.as_deref(), Some("/downloads/movie.webm"));
    assert_eq!(snapshot.expected_file_size, Some(16));
    assert!(plan_acceptance(
        PathStyle::Unix,
        &records,
        &AcceptIncomingTransferRequest {
            transfer_id: TRANSFER.into(),
            display_filename: "../movie".into(),
            file_size: 16,
            expected_sha256: hex(&[1; 32]),
            overwrite: None,
        }
    )
    .is_err());
}

#[test]
fn a_rejected_offer_gives_up_its_authorization() {
    let mut records = Registry::new();
    insert_incoming(
        &mut records,
        incoming_record(IncomingNativeState::AwaitingAcceptance),
    )
    .unwrap();
    let (snapshot, follow_up) = flowshare_native_reject_incoming_transfer(
        &mut records,
        &SplitTransferIdRequest {
            transfer_id: TRANSFER.into(),
        },
    )
    .unwrap();
    assert_eq!(snapshot.state, IncomingNativeState::Declined);
    assert!(follow_up.revoke_authorization);
    assert_eq!(
        lookup_incoming(&records, TRANSFER).unwrap().mutable.state,
        IncomingNativeState::Declined
    );
}

#[test]
fn an_imported_package_is_not_imported_again() {
    let mut incoming = Registry::new();
    let mut imported = Registry::new();
    let mut authorization = AuthorizationRegistry::new(policy());
    let package = || DecodedManualInvitationPackage {
        material: material(),
        package_digest_sha256: [0x0d; 32],
        created_unix_ms: NOW,
        expires_unix_ms: NOW + 60_000,
        receiver_certificate_fingerprint_sha256: [2; 32],
    };
    let place = || ImportPlace {
        destination_directory: "/downloads".into(),
        artifact_directory: "/state/incoming/a".into(),
        authorization_resume_path: "/state/incoming/a/transfer.resume.current".into(),
        created_unix_ms: NOW,
        retention_expires_unix_ms: NOW + 600_000,
        protected_with_dpapi: true,
    };
    let bootstrap = || ReceiverBootstrapRecord {
        identity: identity(),
        expires_unix_ms: NOW + 60_000,
    };
    assert!(check_not_imported(&imported, &[0x0d; 32]).is_ok());
    let response = match flowshare_native_import_incoming_invitation(
        &mut incoming,
        &mut imported,
        &mut authorization,
        package(),
        Ok(()),
        bootstrap(),
        place(),
    ) {
        Ok(response) => response,
        Err(refused) => panic!("{}", refused.error),
    };
    assert_eq!(response.transfer.transfer_id, TRANSFER);
    assert_eq!(
        response.transfer.state,
        IncomingNativeState::AwaitingAcceptance
    );
    assert!(check_not_imported(&imported, &[0x0d; 32]).is_err());
    assert!(flowshare_native_import_incoming_invitation(
        &mut incoming,
        &mut imported,
        &mut authorization,
        package(),
        Ok(()),
        bootstrap(),
        place(),
    )
    .is_err());
}

/// Resumes an incoming transfer, and tells whether the prepared receiver is there afterwards.
fn try_resume(
    validated: Result<(), String>,
) -> (
    Result<IncomingNativeTransferSnapshot, String>,
    Registry<String, IncomingNativeTransfer>,
    bool,
) {
    let mut incoming = Registry::new();
    let mut bootstraps = Registry::new();
    let mut authorization = AuthorizationRegistry::new(policy());
    let bootstrap_id = prepared(&mut bootstraps);
    let request = ResumeIncomingTransferRequest {
        transfer_id: TRANSFER.into(),
        receiver_bootstrap_id: bootstrap_id.clone(),
        destination_directory: "/downloads".into(),
        expected_checkpoint_generation: None,
        signaling_endpoint: "ws://127.0.0.1:9/ws".into(),
        gathering: None,
        signaling_timeout_ms: None,
        connectivity_timeout_ms: None,
    };
    let lease = match begin_incoming_resume(&incoming, &mut bootstraps, &request, NOW) {
        Ok(lease) => lease,
        Err(error) => panic!("{error}"),
    };
    let expires = lease.bootstrap.expires_unix_ms;
    let record = resumed_incoming(
        lease,
        &material(),
        &CheckpointFacts {
            created_unix_ms: NOW,
            checkpoint_generation: 3,
            final_filename: "movie.webm".into(),
            part_filename: "movie.part".into(),
            file_size: 16,
            expected_sha256: [1; 32],
            completed_bytes: 4,
            secure_state_digest: [8; 32],
        },
        IncomingResume {
            filename: "movie.webm".into(),
            final_path: "/downloads/movie.webm".into(),
            part_path: "/state/incoming/a/movie.part".into(),
            retention_expires_unix_ms: NOW + 600_000,
        },
        ResumeDirectories {
            destination_directory: "/downloads".into(),
            artifact_directory: "/state/incoming/a".into(),
            authorization_resume_path: "/state/incoming/a/transfer.resume.current".into(),
        },
    );
    assert_eq!(record.mutable.checkpoint_generation, 3);
    assert_eq!(record.mutable.completed_checkpoint_bytes, 4);
    let result = flowshare_native_resume_incoming_transfer(
        &mut incoming,
        &mut bootstraps,
        &mut authorization,
        record,
        validated,
        bootstrap_id.clone(),
        expires,
        PersistedAuthorizationRestoreLease {
            invitation_id: [5; 16],
            inserted: false,
        },
        NOW,
    );
    (result, incoming, bootstraps.contains(&bootstrap_id))
}

#[test]
fn a_failed_resume_gives_the_bootstrap_back() {
    let (result, incoming, given_back) =
        try_resume(Err("native-incoming-part-missing".into()));
    assert_eq!(result.err().unwrap(), "native-incoming-part-missing");
    assert!(given_back);
    assert_eq!(incoming.len(), 0);
}

#[test]
fn a_resumed_transfer_is_under_way() {
    let (result, incoming, given_back) = try_resume(Ok(()));
    let snapshot = result.unwrap();
    assert!(snapshot.runtime_active);
    assert_eq!(snapshot.state, IncomingNativeState::GatheringCandidates);
    assert!(!given_back);
    assert!(lookup_incoming(&incoming, TRANSFER).unwrap().mutable.runtime_active);

    let mut outgoing = Registry::new();
    let snapshot = flowshare_native_resume_outgoing_transfer(
        &mut outgoing,
        &[1; 16],
        persisted_outgoing(&outgoing_record(TRANSFER, OutgoingNativeState::Paused)),
        "source.bin".into(),
        ReopenedSource {
            identity: SourceIdentity {
                size: 16,
                modified_unix_ms: None,
                platform_file_id: None,
                canonical_path: None,
            },
            rebound: false,
            registered_name: None,
        },
        DecodedReceiverBootstrap {
            bootstrap_id: [4; 16],
            certificate: vec![0x30; 300],
            certificate_fingerprint_sha256: [2; 32],
            created_unix_ms: NOW,
            expires_unix_ms: NOW + 60_000,
        },
        "transfer.resume.current".into(),
        "outgoing-state.json".into(),
    )
    .unwrap();
    assert!(snapshot.runtime_active);
    assert!(lookup_outgoing(&outgoing, TRANSFER).unwrap().mutable.runtime_active);
}

#[test]
fn a_resumed_source_must_be_the_one_that_was_sent() {
    let state = persisted_outgoing(&outgoing_record(TRANSFER, OutgoingNativeState::Paused));
    let same = ReopenedSource {
        identity: SourceIdentity {
            size: 16,
            modified_unix_ms: None,
            platform_file_id: None,
            canonical_path: None,
        },
        rebound: false,
        registered_name: None,
    };
    assert!(check_resumed_source(&state, &same, true).is_ok());
    let other = ReopenedSource {
        identity: SourceIdentity {
            size: 17,
            modified_unix_ms: None,
            platform_file_id: None,
            canonical_path: None,
        },
        rebound: false,
        registered_name: None,
    };
    assert!(check_resumed_source(&state, &other, true).is_err());
}

#[test]
fn recoverable_sends_need_a_checkpoint_of_the_peer() {
    let mut record = outgoing_record(TRANSFER, OutgoingNativeState::Paused);
    let without = persisted_outgoing(&record);
    assert!(inspect_outgoing_resumable(&without, &None).is_none());
    record.mutable.quic_session_id = Some("08080808-0808-0808-0808-080808080808".into());
    record.mutable.peer_checkpoint_generation = Some(2);
    record.mutable.peer_state_digest = Some([8; 32]);
    record.mutable.peer_completed_bytes = 4;
    let found = inspect_outgoing_resumable(&persisted_outgoing(&record), &None).unwrap();
    assert_eq!(found.checkpoint_generation, 2);
    assert_eq!(found.missing_bytes, 12);
    assert!(!found.source_identity_matches);
    let mut first = found.clone();
    first.transfer_id = "00000000-0000-0000-0000-000000000000".into();
    let mut list = vec![found, first];
    order_outgoing_discoveries(&mut list);
    assert_eq!(list.len(), 2);
    assert_eq!(list[0].transfer_id, "00000000-0000-0000-0000-000000000000");
}

#[test]
fn a_scan_takes_directories_named_by_their_transfer() {
    let scan = IncomingScan::begin(&ScanIncomingResumableRequest {
        destination_directories: vec!["/downloads".into()],
    })
    .unwrap();
    assert!(!scan.is_full());
    assert_eq!(scan.wants("movie.webm"), None);
    assert!(scan.finish().is_empty());
}

#[test]
fn retention_is_bounded_and_bound_to_its_transfer() {
    assert_eq!(
        incoming_retention_expiry(Some(NOW + 10), NOW).unwrap(),
        NOW + 10
    );
    assert!(incoming_retention_expiry(Some(NOW), NOW).is_err());
    assert_eq!(
        incoming_retention_expiry(Some(u64::MAX), NOW).unwrap(),
        NOW + MAX_INCOMING_RETENTION_MS
    );
    let retention = PersistedIncomingRetention::of(&[1; 16], "/downloads".into(), NOW, NOW + 10);
    assert!(retention.applies_to(&[1; 16]));
    assert!(!retention.applies_to(&[2; 16]));
    assert_eq!(
        choose_retention(None, Some(retention.clone()), &[1; 16]).unwrap(),
        retention
    );
    assert!(choose_retention(None, Some(retention.clone()), &[2; 16]).is_err());
    assert!(cleanup_is_due(&retention, None, NOW + 11));
    assert!(!cleanup_is_due(&retention, Some(true), NOW + 11));
    assert!(!cleanup_is_due(&retention, None, NOW));
}

#[test]
fn taken_names_are_numbered() {
    assert_eq!(
        duplicate_destination_name(PathStyle::Unix, "/downloads", "movie.webm", true, None).unwrap(),
        DestinationChoice::Use("/downloads/movie.webm".into())
    );
    assert_eq!(
        duplicate_destination_name(PathStyle::Unix, "/downloads", "movie.webm", false, Some((0, true))).unwrap(),
        DestinationChoice::Probe(1, "/downloads/movie (1).webm".into())
    );
    assert_eq!(
        pending_receipt_name("invitation.imported", &[0xab; 16]),
        ".invitation.imported.abababababababababababababababab.pending"
    );
    assert!(incoming_artifact_directory(PathStyle::Unix, "/downloads", &[1; 16]).starts_with("/downloads/"));
    assert!(incoming_state_root(PathStyle::Unix, &Some("/state".into()), None)
        .unwrap()
        .starts_with("/state/"));
    assert!(incoming_state_root(PathStyle::Unix, &None, None).is_err());
}

#[test]
fn times_of_a_run_are_bounded() {
    assert_eq!(bounded_timeout(None, 30_000), 30_000);
    assert_eq!(bounded_timeout(Some(1), 30_000), 5_000);
    assert_eq!(bounded_timeout(Some(u64::MAX), 30_000), 120_000);
    assert_eq!(bounded_lifetime(None, 600_000), 600_000);
    assert!(check_run_in_time(false, NOW, NOW + 30_000).is_ok());
    assert_eq!(
        check_run_in_time(false, NOW, NOW + 30_001).unwrap_err(),
        "authorization-delivery-failed: invitation-expired"
    );
    assert!(check_run_in_time(true, NOW, NOW + 30_001).is_ok());
}

#[test]
fn a_signaling_connection_is_tried_until_its_time_is_over() {
    let mut connect = SignalingConnect::begin();
    assert!(matches!(connect.next(5_000, false), ConnectStep::Try(_)));
    assert!(matches!(connect.next(5_000, true), ConnectStep::Fail(_)));
    assert!(matches!(
        connect.attempt_failed(Some("native-peer-offline".into()), 5_000),
        ConnectStep::Wait(_)
    ));
    assert!(matches!(
        connect.attempt_failed(Some("native-route-unauthorized".into()), 5_000),
        ConnectStep::Fail(_)
    ));
    assert!(classify_runtime_error("native-quic-handshake-failed").contains("quic"));
}

#[test]
fn a_run_moves_files_only_after_nomination() {
    let mut run = DirectRun::begin(NativeDeviceRole::Sender);
    let mut seen = vec![run.phase()];
    let agreed = ConnectivityCheckResultPayload {
        viable_pair_ids: vec!["pair-a".into()],
        failure: None,
        ..failed()
    };
    let mut steps = 0;
    while run.phase() != RunPhase::Running && steps < 40 {
        if run.phase() == RunPhase::Judging {
            run.judge(Some("pair-a"), None, &None, &agreed).unwrap();
        } else {
            run.advance();
        }
        seen.push(run.phase());
        steps += 1;
    }
    assert_eq!(run.phase(), RunPhase::Running);
    let nominated = seen
        .iter()
        .position(|phase| *phase == RunPhase::AddingNomination)
        .unwrap();
    assert!(nominated < seen.len() - 1);
    assert_eq!(run.candidate_generation(), 1);
    assert!(check_delivery(Delivery::Accepted).is_ok());
    assert!(check_delivery(Delivery::Rejected).is_err());
}

#[test]
fn a_run_gives_up_after_its_attempts() {
    let mut run = DirectRun::begin(NativeDeviceRole::Receiver);
    let mut rounds = 0;
    let mut ended = None;
    for _ in 0..80 {
        if run.phase() == RunPhase::Judging {
            rounds += 1;
            if let Err(error) = run.judge(None, None, &None, &failed()) {
                ended = Some(error);
                break;
            }
        } else {
            run.advance();
        }
    }
    assert!(ended.is_some());
    assert_eq!(rounds, MAX_DIRECT_CONNECT_ATTEMPTS);
}

#[test]
fn a_damaged_state_gives_way_to_the_one_before_it() {
    let key = [0x4b; 32];
    let stored = |bytes: u64| {
        let mut state =
            persisted_outgoing(&outgoing_record(TRANSFER, OutgoingNativeState::Paused));
        state.peer_completed_bytes = bytes;
        state.authentication_tag = persisted_outgoing_state_tag(&payload(&state), &key);
        let payload = payload(&state);
        (state, payload)
    };
    let (mut damaged, _) = stored(4);
    damaged.peer_completed_bytes = 5;
    let damaged_payload = payload(&damaged);
    let chosen = choose_persisted_outgoing(
        Some((damaged.clone(), damaged_payload.clone())),
        Some(stored(2)),
        &[1; 16],
        &[5; 16],
        &key,
    )
    .unwrap();
    assert_eq!(chosen.peer_completed_bytes, 2);
    assert_eq!(
        choose_persisted_outgoing(
            Some((damaged, damaged_payload)),
            None,
            &[1; 16],
            &[5; 16],
            &key
        )
        .unwrap_err(),
        "native-outgoing-state-unavailable"
    );
}

#[test]
fn notes_of_a_run_change_only_what_they_name() {
    let mut outgoing = outgoing_mutable(OutgoingNativeState::GatheringCandidates);
    outgoing.session_opened("session".into(), "quic".into());
    assert_eq!(outgoing.connectivity_session_id.as_deref(), Some("session"));
    assert_eq!(outgoing.quic_session_id.as_deref(), Some("quic"));
    assert_eq!(outgoing.state, OutgoingNativeState::GatheringCandidates);
    outgoing.checks_started();
    assert_eq!(outgoing.state, OutgoingNativeState::Connecting);
    outgoing.path_selected("same-lan".into(), 3);
    assert_eq!(outgoing.selected_path.as_deref(), Some("same-lan"));
    assert_eq!(outgoing.signaling_file_payload_bytes, 3);

    let mut incoming = incoming_mutable(IncomingNativeState::GatheringCandidates);
    incoming.session_opened("session".into(), "quic".into());
    incoming.checks_started();
    incoming.path_selected("ipv6-direct".into(), 0);
    assert_eq!(incoming.connectivity_session_id.as_deref(), Some("session"));
    assert_eq!(incoming.quic_session_id.as_deref(), Some("quic"));
    assert_eq!(incoming.state, IncomingNativeState::Connecting);
    assert_eq!(incoming.selected_path.as_deref(), Some("ipv6-direct"));
}

#[test]
fn a_run_waits_as_long_as_it_was_asked_to() {
    let mut request = StartSplitTransferRequest {
        transfer_id: TRANSFER.into(),
        signaling_endpoint: "wss://signal.example".into(),
        gathering: None,
        signaling_timeout_ms: None,
        connectivity_timeout_ms: None,
    };
    assert_eq!(request.timeouts().signaling_ms, 30_000);
    assert_eq!(request.timeouts().connectivity_ms, 15_000);
    request.signaling_timeout_ms = Some(1);
    request.connectivity_timeout_ms = Some(u64::MAX);
    assert_eq!(request.timeouts().signaling_ms, 5_000);
    assert_eq!(request.timeouts().connectivity_ms, 120_000);
}

#[test]
fn a_sender_gathers_under_the_policy_of_its_transfer() {
    let usual = sender_gathering(None, CandidatePrivacyPolicy::PublicOnly, 90_000);
    assert_eq!(usual.privacy_policy, Some(CandidatePrivacyPolicy::PublicOnly));
    assert_eq!(usual.candidate_lifetime_ms, Some(90_000));
    let mut asked = ConnectivityGatherOptions::usual(90_000);
    asked.privacy_policy = Some(CandidatePrivacyPolicy::AllDirect);
    asked.allow_vpn = Some(true);
    let options = sender_gathering(Some(asked), CandidatePrivacyPolicy::LanFirst, 1);
    assert_eq!(options.privacy_policy, Some(CandidatePrivacyPolicy::LanFirst));
    assert_eq!(options.allow_vpn, Some(true));
    assert_eq!(options.candidate_lifetime_ms, Some(90_000));
}

#[test]
fn a_peer_must_report_its_checks() {
    assert_eq!(
        require_check_result(None).unwrap_err(),
        "candidate-exchange-failed: native-connectivity-check-result-required"
    );
    let reported = require_check_result(Some(failed())).unwrap();
    assert_eq!(reported.failure, failed().failure);
}

#[test]
fn discarded_records_are_those_of_the_named_destination() {
    let transfer_id = parse_transfer_id(TRANSFER).unwrap();
    let kept = PersistedIncomingRetention::of(&transfer_id, "/downloads".into(), NOW, NOW + 5);
    assert!(is_still_kept(&kept, NOW + 4));
    assert!(!is_still_kept(&kept, NOW + 5));
    assert_eq!(
        discard_place(&Some(kept.clone()), "/downloads", "/downloads"),
        Ok(ResumePlace::Central(NOW + 5))
    );
    assert_eq!(
        discard_place(&Some(kept), "/downloads", "/elsewhere"),
        Err("resume-state-mismatch".into())
    );
    assert_eq!(
        discard_place(&None, "/downloads", "/elsewhere"),
        Ok(ResumePlace::Beside)
    );
    let mut checkpoint = CheckpointFacts {
        created_unix_ms: NOW,
        checkpoint_generation: 1,
        final_filename: "movie.webm".into(),
        part_filename: "payload.part".into(),
        file_size: 10,
        expected_sha256: [1; 32],
        completed_bytes: 5,
        secure_state_digest: [2; 32],
    };
    assert_eq!(
        discarded_part(PathStyle::Unix, &checkpoint, "/downloads/.flowshare-native/x").unwrap(),
        "/downloads/.flowshare-native/x/payload.part"
    );
    checkpoint.part_filename = "../payload.part".into();
    assert_eq!(
        discarded_part(PathStyle::Unix, &checkpoint, "/downloads").unwrap_err(),
        "resume-state-mismatch"
    );
}

#[test]
fn a_scan_looks_at_a_bounded_number_of_entries_of_each_directory() {
    let mut scan = IncomingScan::begin(&ScanIncomingResumableRequest {
        destination_directories: vec!["/downloads".into()],
    })
    .unwrap();
    for _ in 0..2 {
        scan.enter_directory();
        for _ in 0..MAX_SPLIT_ROLE_RECORDS {
            assert!(scan.looks_at_another());
        }
        assert!(!scan.looks_at_another());
        assert!(!scan.looks_at_another());
    }
    assert!(scan.finish().is_empty());
}
