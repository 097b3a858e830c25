use flowshare_core::cross_device::{
    insert_outgoing, OutgoingMutable, OutgoingNativeState,
    OutgoingNativeTransfer, SourceIdentity, StartSplitTransferRequest,
};
use flowshare_core::candidates::CandidatePrivacyPolicy;
use flowshare_core::cross_platform::{
    api_error, event_kind, failure_for_api_error, gathering_options, negotiate, FlowShareApiError,
    FlowShareCapabilities, FlowShareDirection, FlowShareEngine, FlowShareErrorCode, FlowShareEvent,
    FlowShareEventKind, FlowShareFailure, FlowShareTransferState, FlowShareTransferStatus,
    TransferControlRequest, TransferLookupRequest, TransferWatch, CAPABILITY_SCHEMA_VERSION,
};
use flowshare_core::device_protocol::{
    DevicePlatform, DEVICE_PROTOCOL_VERSION, LAN_SERVICE_TYPE,
};
use flowshare_core::ffi::{flowshare_core_contract, validate_completed_bitmap, CORE_API_VERSION};
use flowshare_core::paths::PathStyle;
use flowshare_core::protocol::NATIVE_QUIC_PROTOCOL_VERSION;
use flowshare_core::registry::Registry;

fn capabilities(platform: DevicePlatform) -> FlowShareCapabilities {
    FlowShareCapabilities {
        schema_version: CAPABILITY_SCHEMA_VERSION,
        protocol_version: NATIVE_QUIC_PROTOCOL_VERSION,
        platform,
        native_quic: true,
        webrtc_direct: false,
        resume: true,
        completion_ack: true,
        sha256: true,
        lan_discovery: true,
        device_mode: true,
        max_file_size: 8 * 1024 * 1024 * 1024,
        app_version: "golden".into(),
    }
}

fn status(state: FlowShareTransferState, bytes: u64) -> FlowShareTransferStatus {
    FlowShareTransferStatus {
        schema_version: 1,
        transfer_id: "event-order".into(),
        direction: FlowShareDirection::Send,
        state,
        bytes_transferred: bytes,
        total_bytes: 1024,
        bytes_per_second: 0,
        transport: Some("quic-direct".into()),
        checkpoint_generation: 0,
        runtime_active: !state.terminal(),
        failure: None,
    }
}

#[test]
fn capability_negotiation_is_versioned_and_64_bit_safe() {
    let engine = FlowShareEngine::new(capabilities(DevicePlatform::Windows));
    let mut peer = capabilities(DevicePlatform::Android);
    peer.max_file_size = 4_294_967_297;
    let negotiated = engine.negotiate(&peer);
    assert!(negotiated.compatible && negotiated.native_quic && negotiated.resume);
    assert_eq!(negotiated.max_file_size, 4_294_967_297);

    let mut future = capabilities(DevicePlatform::Android);
    future.protocol_version += 1;
    let rejected = engine.negotiate(&future);
    assert_eq!(
        rejected.failure.unwrap().code,
        FlowShareErrorCode::ProtocolMismatch
    );
}

#[test]
fn stable_errors_expose_retry_and_fallback_policy() {
    let native = FlowShareFailure::classify(FlowShareErrorCode::QuicConnectFailed);
    assert!(native.retryable && native.fallback_eligible);
    let authorization = FlowShareFailure::classify(FlowShareErrorCode::AuthorizationFailed);
    assert!(!authorization.retryable && !authorization.fallback_eligible);
}

#[test]
fn initialize_is_idempotent_and_shutdown_is_terminal() {
    let mut engine = FlowShareEngine::new(capabilities(DevicePlatform::Windows));
    assert_eq!(engine.initialize(), Ok(true));
    assert_eq!(engine.initialize(), Ok(false));
}

#[test]
fn logical_progress_remains_u64_safe_above_four_gib() {
    let status = FlowShareTransferStatus {
        schema_version: 1,
        transfer_id: "logical-large".into(),
        direction: FlowShareDirection::Send,
        state: FlowShareTransferState::Transferring,
        bytes_transferred: 4_294_967_297,
        total_bytes: 8_589_934_593,
        bytes_per_second: 0,
        transport: Some("quic-direct".into()),
        checkpoint_generation: 7,
        runtime_active: true,
        failure: None,
    };
    assert!(status.total_bytes > u32::MAX as u64);
    assert!(status.bytes_transferred > u32::MAX as u64);
}

#[test]
fn successful_event_order_never_completes_before_verification() {
    let mut engine = FlowShareEngine::new(capabilities(DevicePlatform::Windows));
    engine.set_event_listener();
    let mut events: Vec<FlowShareEvent> = Vec::new();
    for (state, bytes) in [
        (FlowShareTransferState::Prepared, 0),
        (FlowShareTransferState::WaitingForPeer, 0),
        (FlowShareTransferState::Connecting, 0),
        (FlowShareTransferState::Connected, 0),
        (FlowShareTransferState::Transferring, 0),
        (FlowShareTransferState::Transferring, 1024),
        (FlowShareTransferState::Verifying, 1024),
        (FlowShareTransferState::Completed, 1024),
    ] {
        events.extend(engine.emit(&status(state, bytes)));
    }
    let kinds: Vec<_> = events.iter().map(|event| event.kind).collect();
    assert_eq!(
        kinds,
        vec![
            FlowShareEventKind::TransferPrepared,
            FlowShareEventKind::WaitingForPeer,
            FlowShareEventKind::Connecting,
            FlowShareEventKind::Connected,
            FlowShareEventKind::TransferStarted,
            FlowShareEventKind::Progress,
            FlowShareEventKind::Verifying,
            FlowShareEventKind::Completed,
        ]
    );
    assert!(events
        .windows(2)
        .all(|pair| pair[0].sequence < pair[1].sequence));
}

#[test]
fn shutdown_is_idempotent_and_rejects_new_work() {
    let mut engine = FlowShareEngine::new(capabilities(DevicePlatform::Windows));
    assert!(engine.initialize().unwrap());
    assert!(engine.shutdown().is_some());
    assert!(engine.shutdown().is_none());
    assert_eq!(engine.initialize(), Err(FlowShareApiError::EngineShutdown));
    assert_eq!(
        engine.require_running(),
        Err(FlowShareApiError::EngineShutdown)
    );
    assert!(matches!(
        engine.prepare_receive(Err("native-receiver-bootstrap-unavailable".into())),
        Err(FlowShareApiError::EngineShutdown)
    ));
}

#[test]
fn negotiation_does_not_depend_on_who_asks() {
    let mut one = capabilities(DevicePlatform::Windows);
    one.resume = false;
    let mut two = capabilities(DevicePlatform::Ios);
    two.max_file_size = 5;
    assert_eq!(negotiate(&one, &two), negotiate(&two, &one));
    assert!(!negotiate(&one, &two).resume);
}

#[test]
fn messages_are_told_apart_by_their_text() {
    assert_eq!(
        api_error("native-transfer-cancelled"),
        FlowShareApiError::Cancelled
    );
    assert_eq!(
        failure_for_api_error(FlowShareApiError::HashMismatch).code,
        FlowShareErrorCode::HashMismatch
    );
    assert_eq!(FlowShareApiError::EngineShutdown.name(), "EngineShutdown");
    assert_eq!(
        event_kind(FlowShareTransferState::Transferring, 0),
        FlowShareEventKind::TransferStarted
    );
}

#[test]
fn a_watch_reports_what_changed_and_ends_with_the_transfer() {
    let mut watch = TransferWatch::begin();
    let (first, ended) = watch.observe(&status(FlowShareTransferState::Transferring, 10));
    assert!(!first.is_empty() && !ended);
    let (again, ended) = watch.observe(&status(FlowShareTransferState::Transferring, 10));
    assert!(again.is_empty() && !ended);
    let (last, ended) = watch.observe(&status(FlowShareTransferState::Completed, 1024));
    assert!(ended);
    assert_eq!(
        last.last().map(|status| status.state),
        Some(FlowShareTransferState::Completed)
    );
    assert!(last
        .iter()
        .any(|status| status.state == FlowShareTransferState::Verifying));
}

fn outgoing() -> OutgoingNativeTransfer {
    OutgoingNativeTransfer {
        transfer_id: "01010101-0101-0101-0101-010101010101".into(),
        invitation_id: "05050505-0505-0505-0505-050505050505".into(),
        source_path: "source.bin".into(),
        source_identity: SourceIdentity {
            size: 16,
            modified_unix_ms: None,
            platform_file_id: None,
            canonical_path: None,
        },
        display_filename: "source.bin".into(),
        file_size: 16,
        expected_sha256: [1; 32],
        receiver_certificate: Vec::new(),
        receiver_certificate_fingerprint_sha256: [2; 32],
        candidate_privacy_policy: CandidatePrivacyPolicy::LanFirst,
        authorization_resume_path: "transfer.resume.current".into(),
        outgoing_state_path: "outgoing-state.json".into(),
        previous_quic_session_id: None,
        expires_unix_ms: 60_000,
        created_unix_ms: 1,
        mutable: OutgoingMutable {
            state: OutgoingNativeState::Transferring,
            control_requested: false,
            cancelled: false,
            local_stop: None,
            pause_request_id: None,
            runtime_active: true,
            connectivity_session_id: None,
            quic_session_id: None,
            selected_path: None,
            bytes_sent: 4,
            bytes_skipped: 0,
            peer_checkpoint_generation: None,
            peer_state_digest: None,
            peer_completed_bytes: 0,
            integrity_result: None,
            performance: None,
            signaling_file_payload_bytes: 0,
            terminal_error: None,
        },
    }
}

#[test]
fn the_engine_answers_for_transfers_while_it_runs() {
    let mut engine = FlowShareEngine::new(capabilities(DevicePlatform::Windows));
    let mut sends = Registry::new();
    let mut receives = Registry::new();
    insert_outgoing(&mut sends, outgoing()).unwrap();
    let lookup = || TransferLookupRequest {
        transfer_id: "01010101-0101-0101-0101-010101010101".into(),
        direction: FlowShareDirection::Send,
    };
    assert_eq!(
        engine.get_transfer_status(&sends, &receives, lookup()),
        Err(FlowShareApiError::EngineNotInitialized)
    );
    engine.initialize().unwrap();
    engine.set_event_listener();
    let found = engine
        .get_transfer_status(&sends, &receives, lookup())
        .unwrap();
    assert_eq!(found.state, FlowShareTransferState::Transferring);
    assert_eq!(found.total_bytes, 16);
    let (published, follow_up) = engine
        .cancel(
            &mut sends,
            &mut receives,
            TransferControlRequest {
                transfer_id: "01010101-0101-0101-0101-010101010101".into(),
                direction: FlowShareDirection::Send,
                retain_partial: false,
            },
        )
        .unwrap();
    assert_eq!(published.status.state, FlowShareTransferState::Cancelled);
    assert_eq!(
        published.event.unwrap().kind,
        FlowShareEventKind::Cancelled
    );
    assert!(!follow_up.revoke_authorization);
    assert!(sends
        .get(&"01010101-0101-0101-0101-010101010101".to_string())
        .unwrap()
        .mutable
        .control_requested);
}

#[test]
fn a_started_transfer_is_published_with_its_run_under_way() {
    let mut engine = FlowShareEngine::new(capabilities(DevicePlatform::Windows));
    engine.initialize().unwrap();
    engine.set_event_listener();
    assert!(engine.can_report());
    let mut sends = Registry::new();
    let mut record = outgoing();
    record.mutable.state = OutgoingNativeState::AwaitingReceiver;
    record.mutable.runtime_active = false;
    insert_outgoing(&mut sends, record).unwrap();
    let start = StartSplitTransferRequest {
        transfer_id: "01010101-0101-0101-0101-010101010101".into(),
        signaling_endpoint: "wss://example.org/ws".into(),
        gathering: None,
        signaling_timeout_ms: None,
        connectivity_timeout_ms: None,
    };
    let published = engine.start_sender(&mut sends, &start).unwrap();
    assert!(published.status.runtime_active);
    assert_eq!(published.status.state, FlowShareTransferState::Connecting);
    assert!(published.event.unwrap().status.runtime_active);
    assert!(engine.start_sender(&mut sends, &start).is_err());
}

#[test]
fn the_process_has_one_protector_whoever_installs_it() {
    let mut installed = false;
    let first = FlowShareEngine::new(capabilities(DevicePlatform::Windows));
    let mut second = FlowShareEngine::new(capabilities(DevicePlatform::Android));
    assert_eq!(first.set_secret_protector(&mut installed), Ok(true));
    assert!(installed);
    assert_eq!(second.set_secret_protector(&mut installed), Ok(false));
    second.initialize().unwrap();
    second.shutdown().unwrap();
    assert_eq!(
        second.set_secret_protector(&mut installed),
        Err(FlowShareApiError::EngineShutdown)
    );
}

#[test]
fn the_state_root_is_chosen_once_and_before_the_engine_runs() {
    let mut engine = FlowShareEngine::new(capabilities(DevicePlatform::Windows));
    let mut root = None;
    let style = PathStyle::Unix;
    assert!(engine
        .configure_state_root(style, "state", &mut root, Some("/state".into()))
        .is_err());
    assert!(engine
        .configure_state_root(style, "/state", &mut root, None)
        .is_err());
    assert_eq!(root, None);
    assert_eq!(
        engine.configure_state_root(style, "/state", &mut root, Some("/state".into())),
        Ok(true)
    );
    assert_eq!(root.as_deref(), Some("/state"));
    assert_eq!(
        engine.configure_state_root(style, "/state/", &mut root, Some("/state".into())),
        Ok(false)
    );
    assert!(engine
        .configure_state_root(style, "/other", &mut root, Some("/other".into()))
        .is_err());
    assert!(engine.check_root_choice(PathStyle::Windows, "C:\\state").is_ok());
    engine.initialize().unwrap();
    assert_eq!(
        engine.configure_state_root(style, "/state", &mut root, Some("/state".into())),
        Err(FlowShareApiError::InvalidRequest)
    );
    assert_eq!(root.as_deref(), Some("/state"));
}

#[test]
fn a_shutdown_hands_over_what_the_engine_owns() {
    let mut engine = FlowShareEngine::new(capabilities(DevicePlatform::Windows));
    engine.initialize().unwrap();
    let id = "01010101-0101-0101-0101-010101010101".to_string();
    engine.remember(&id, FlowShareDirection::Receive);
    engine.remember(&id, FlowShareDirection::Receive);
    let token = "source:1".to_string();
    engine.register_source_descriptor(&token).unwrap();
    let work = engine.shutdown().unwrap();
    assert_eq!(work.incoming, vec![id]);
    assert!(work.outgoing.is_empty());
    assert_eq!(work.source_handles, vec![token]);
}

#[test]
fn the_contract_names_the_versions() {
    let contract = flowshare_core_contract();
    assert_eq!(contract.core_api_version, CORE_API_VERSION);
    assert_eq!(contract.native_quic_protocol_version, 3);
    assert_eq!(contract.device_protocol_version, DEVICE_PROTOCOL_VERSION);
    assert_eq!(contract.lan_service_type, LAN_SERVICE_TYPE);
    assert!(validate_completed_bitmap(vec![0b0000_0100], 3, 2));
    assert!(!validate_completed_bitmap(vec![0b0000_0100], 3, 1));
    assert!(!validate_completed_bitmap(vec![0b0000_1000], 3, 3));
    assert_eq!(
        DevicePlatform::Windows.entitlement_audience(),
        Some("flowget-desktop")
    );
    assert_eq!(DevicePlatform::Unknown.entitlement_audience(), None);
}

#[test]
fn transfers_on_one_machine_ask_no_servers() {
    assert!(gathering_options(false, 120_000).is_none());
    let options = gathering_options(true, 120_000).unwrap();
    assert_eq!(options.allow_loopback_test, Some(true));
    assert_eq!(options.enable_stun, Some(false));
    assert_eq!(options.expected_same_lan, Some(true));
    assert_eq!(options.all_direct_approved, Some(false));
    assert_eq!(options.candidate_lifetime_ms, Some(120_000));
}
