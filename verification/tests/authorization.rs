use flowshare_core::authorization::{
    abort_claim, begin_server_claim, clear_for_test, complete_claim, consume,
    create_registered_invitation, flowshare_native_create_secure_invitation,
    flowshare_native_inspect_secure_invitation, flowshare_native_list_security_events,
    flowshare_native_revoke_authorization, install_imported_available, mark_resumable,
    material_for_transfer, plan_secure_invitation, prepare_client_handshake,
    record_security_rejection, restore_persisted_leased, revoke, rollback_persisted_restore,
    AuthorizationMaterial, AuthorizationRegistry, CreateSecureInvitationRequest, ExpectedSession,
    InspectSecureInvitationRequest, InvitationState, ListSecurityEventsRequest, RevocationFollowUp,
    RevocationTarget, RevokeAuthorizationRequest, SecureInvitation, SecureInvitationBody,
    SecureSessionMode, SecurityPolicy, SessionAuthorizationBody, TransferMasterSecret,
    MAX_SECURITY_EVENTS,
};
use flowshare_core::encoding::hex;
use flowshare_core::lifecycle::TransferState;

const NOW: u64 = 1_700_000_000_000;
const TRANSFER: [u8; 16] = [1; 16];
const CERTIFICATE: [u8; 32] = [2; 32];
const CAPABILITIES: [u8; 32] = [0x77; 32];
const COMMITMENT: [u8; 32] = [3; 32];
const LINEAGE: [u8; 32] = [0x10; 32];

fn policy() -> SecurityPolicy {
    SecurityPolicy {
        protocol_version: 4,
        allowed_clock_skew_ms: 30_000,
        default_invitation_lifetime_ms: 600_000,
        max_invitation_bytes: 4_096,
    }
}

fn material(invitation_id: [u8; 16], transfer_id: [u8; 16]) -> AuthorizationMaterial {
    AuthorizationMaterial {
        invitation: SecureInvitation {
            body: SecureInvitationBody {
                invitation_id,
                transfer_id,
                created_unix_ms: NOW,
                expires_unix_ms: NOW + 60_000,
                server_certificate_fingerprint: CERTIFICATE,
                capability_digest: CAPABILITIES,
                allowed_file_count: 1,
                maximum_claim_count: 1,
            },
            encoded: vec![9; 40],
        },
        master: TransferMasterSecret { bytes: [6; 32] },
    }
}

fn setup() -> AuthorizationRegistry {
    let mut registry = AuthorizationRegistry::new(policy());
    clear_for_test(&mut registry);
    create_registered_invitation(&mut registry, &material([5; 16], TRANSFER), Ok(()), NOW).unwrap();
    registry
}

fn offer(
    registry: &mut AuthorizationRegistry,
    authorization_id: [u8; 16],
    session_id: [u8; 16],
    mode: SecureSessionMode,
    generation: u64,
    state_digest: [u8; 32],
    lineage: [u8; 32],
    certificate: [u8; 32],
) -> SessionAuthorizationBody {
    match prepare_client_handshake(
        registry,
        TRANSFER,
        authorization_id,
        session_id,
        mode,
        generation,
        state_digest,
        COMMITMENT,
        lineage,
        certificate,
        7,
        NOW,
    ) {
        Ok(prepared) => prepared.authorization,
        Err(error) => panic!("{error}"),
    }
}

fn expected(offer: &SessionAuthorizationBody) -> ExpectedSession {
    ExpectedSession {
        session_id: offer.session_id,
        mode: offer.mode,
        checkpoint_generation: offer.checkpoint_generation,
        state_digest: offer.verified_state_digest,
        transfer_commitment: offer.transfer_commitment,
        previous_session_digest: offer.previous_session_digest,
        capabilities: offer.negotiated_capabilities,
        capability_digest: CAPABILITIES,
    }
}

fn claim(
    registry: &mut AuthorizationRegistry,
    offer: &SessionAuthorizationBody,
    verified: Result<(), String>,
) -> Result<flowshare_core::authorization::ClaimHandle, String> {
    match begin_server_claim(registry, offer, &expected(offer), verified, NOW) {
        Ok(claim) => Ok(claim.handle),
        Err(error) => Err(error),
    }
}

#[test]
fn simultaneous_claim_allows_exactly_one_receiver() {
    let mut registry = setup();
    let offer = offer(
        &mut registry,
        [0x21; 16],
        [0x31; 16],
        SecureSessionMode::NewTransfer,
        0,
        [0; 32],
        LINEAGE,
        CERTIFICATE,
    );
    let results: Vec<Result<_, String>> =
        (0..8).map(|_| claim(&mut registry, &offer, Ok(()))).collect();
    assert_eq!(results.iter().filter(|value| value.is_ok()).count(), 1);
    assert!(results.iter().filter(|value| value.is_err()).all(|value| {
        matches!(
            value.as_ref().unwrap_err().as_str(),
            "control-replay-detected" | "invitation-already-claimed"
        )
    }));
}

#[test]
fn invitation_command_never_returns_shared_secret() {
    let mut registry = AuthorizationRegistry::new(policy());
    let request = CreateSecureInvitationRequest {
        transfer_id: "01010101-0101-0101-0101-010101010101".into(),
        certificate_fingerprint_sha256: hex(&[4; 32]),
        capabilities: Some(7),
        lifetime_ms: Some(60_000),
    };
    let plan = plan_secure_invitation(&request, &policy(), true).unwrap();
    assert_eq!(plan.transfer_id, [1; 16]);
    assert_eq!(plan.certificate_fingerprint, [4; 32]);
    assert_eq!(plan.capabilities, 7);
    assert_eq!(plan.lifetime_ms, 60_000);
    let response = flowshare_native_create_secure_invitation(
        &mut registry,
        &material([5; 16], TRANSFER),
        Ok(()),
        NOW,
    )
    .unwrap();
    let text = format!("{response:?}");
    assert!(text.contains("[REDACTED]"));
    assert!(!text.contains("BgYGBgYGBgYGBgYGBgYGBgYGBgYGBgYGBgYGBgYGBgY"));
    assert!(!text.contains(&hex(&[6; 32])));
    assert_eq!(
        response.encoded_invitation,
        "CQkJCQkJCQkJCQkJCQkJCQkJCQkJCQkJCQkJCQkJCQkJCQkJCQkJCQ"
    );
}

#[test]
fn revocation_and_resume_authorization_replay_are_rejected() {
    let mut registry = setup();
    let normal = offer(
        &mut registry,
        [0x21; 16],
        [0x31; 16],
        SecureSessionMode::NewTransfer,
        0,
        [0; 32],
        LINEAGE,
        CERTIFICATE,
    );
    let handle = claim(&mut registry, &normal, Ok(())).unwrap();
    abort_claim(&mut registry, &handle, true, "disconnect", NOW);

    let resume_certificate = [8; 32];
    let resume = offer(
        &mut registry,
        [0x22; 16],
        [0x32; 16],
        SecureSessionMode::Resume,
        3,
        [9; 32],
        [0x11; 32],
        resume_certificate,
    );
    assert_eq!(
        claim(
            &mut registry,
            &resume,
            Err("certificate-binding-failed".into())
        )
        .unwrap_err(),
        "certificate-binding-failed"
    );
    let handle = claim(&mut registry, &resume, Ok(())).unwrap();
    abort_claim(&mut registry, &handle, true, "disconnect", NOW);
    assert_eq!(
        claim(&mut registry, &resume, Ok(())).unwrap_err(),
        "control-replay-detected"
    );

    revoke(&mut registry, &TRANSFER, NOW).unwrap();
    assert_eq!(
        material_for_transfer(&mut registry, &TRANSFER, NOW)
            .err()
            .unwrap(),
        "invitation-revoked"
    );
}

#[test]
fn one_of_several_offers_goes_through() {
    let mut registry = setup();
    let offers: Vec<SessionAuthorizationBody> = (1..6u8)
        .map(|n| {
            offer(
                &mut registry,
                [n; 16],
                [0x30 + n; 16],
                SecureSessionMode::NewTransfer,
                0,
                [0; 32],
                LINEAGE,
                CERTIFICATE,
            )
        })
        .collect();
    let results: Vec<Result<_, String>> = offers
        .iter()
        .map(|offer| claim(&mut registry, offer, Ok(())))
        .collect();
    assert!(results[0].is_ok());
    assert!(results[1..].iter().all(|value| value.is_err()));
}

#[test]
fn a_revoked_transfer_stays_revoked() {
    let mut registry = setup();
    let normal = offer(
        &mut registry,
        [0x21; 16],
        [0x31; 16],
        SecureSessionMode::NewTransfer,
        0,
        [0; 32],
        LINEAGE,
        CERTIFICATE,
    );
    let handle = claim(&mut registry, &normal, Ok(())).unwrap();
    revoke(&mut registry, &TRANSFER, NOW).unwrap();
    let _ = mark_resumable(&mut registry, &TRANSFER);
    abort_claim(&mut registry, &handle, true, "disconnect", NOW);
    assert_eq!(
        material_for_transfer(&mut registry, &TRANSFER, NOW)
            .err()
            .unwrap(),
        "invitation-revoked"
    );
}

#[test]
fn persisted_restore_lease_rolls_back_only_untouched_insertions() {
    let mut registry = AuthorizationRegistry::new(policy());
    let stored = material([5; 16], TRANSFER);

    let lease = restore_persisted_leased(&mut registry, stored.clone(), Ok(())).unwrap();
    assert!(material_for_transfer(&mut registry, &TRANSFER, NOW).is_ok());
    rollback_persisted_restore(&mut registry, lease);
    assert_eq!(
        material_for_transfer(&mut registry, &TRANSFER, NOW)
            .err()
            .unwrap(),
        "resume-authorization-failed"
    );

    let consumed_lease = restore_persisted_leased(&mut registry, stored.clone(), Ok(())).unwrap();
    consume(&mut registry, &TRANSFER).unwrap();
    rollback_persisted_restore(&mut registry, consumed_lease);
    assert_eq!(
        material_for_transfer(&mut registry, &TRANSFER, NOW)
            .err()
            .unwrap(),
        "resume-authorization-failed"
    );
    assert_eq!(
        restore_persisted_leased(&mut registry, stored, Ok(())).unwrap_err(),
        "resume-authorization-failed"
    );
    clear_for_test(&mut registry);
}

#[test]
fn revocation_honors_delete_choice_for_inactive_paused_transfer() {
    let mut registry = setup();
    let revocation = flowshare_native_revoke_authorization(
        &mut registry,
        &RevokeAuthorizationRequest {
            transfer_id: "01010101-0101-0101-0101-010101010101".into(),
            retain_partial: Some(false),
            stop_active_session: Some(false),
        },
        Some(RevocationTarget {
            runtime_active: false,
            state: TransferState::Paused,
        }),
        true,
        NOW,
    )
    .unwrap();
    assert_eq!(revocation.follow_up, RevocationFollowUp::DiscardPartial);
    let result = revocation.response(true);
    assert_eq!(result.state, InvitationState::Revoked);
    assert!(result.protected_secret_removed);
    assert!(!result.active_session_stop_requested);
}

#[test]
fn a_completed_claim_ends_new_transfers_under_the_invitation() {
    let mut registry = setup();
    let first = offer(
        &mut registry,
        [0x21; 16],
        [0x31; 16],
        SecureSessionMode::NewTransfer,
        0,
        [0; 32],
        LINEAGE,
        CERTIFICATE,
    );
    let handle = claim(&mut registry, &first, Ok(())).unwrap();
    complete_claim(&mut registry, &handle, "transcript".into(), NOW).unwrap();
    mark_resumable(&mut registry, &TRANSFER).unwrap();
    let second = offer(
        &mut registry,
        [0x23; 16],
        [0x33; 16],
        SecureSessionMode::NewTransfer,
        0,
        [0; 32],
        LINEAGE,
        CERTIFICATE,
    );
    assert!(claim(&mut registry, &second, Ok(())).is_err());
}

#[test]
fn invitations_expire_after_their_time_and_the_allowed_skew() {
    let mut registry = setup();
    let end = NOW + 60_000 + 30_000;
    assert!(material_for_transfer(&mut registry, &TRANSFER, end).is_ok());
    assert_eq!(
        material_for_transfer(&mut registry, &TRANSFER, end + 1)
            .err()
            .unwrap(),
        "invitation-expired"
    );
}

#[test]
fn an_imported_invitation_can_be_inspected_without_its_secret() {
    let mut registry = AuthorizationRegistry::new(policy());
    install_imported_available(&mut registry, material([5; 16], TRANSFER), Ok(())).unwrap();
    let inspection = flowshare_native_inspect_secure_invitation(
        &mut registry,
        &InspectSecureInvitationRequest {
            invitation_id: None,
            transfer_id: Some("01010101-0101-0101-0101-010101010101".into()),
        },
        true,
        NOW,
    )
    .unwrap();
    assert_eq!(inspection.state, InvitationState::Available);
    assert_eq!(
        inspection.invitation_id,
        "05050505-0505-0505-0505-050505050505"
    );
    assert_eq!(inspection.certificate_fingerprint_sha256, hex(&CERTIFICATE));
    assert_eq!(inspection.authorization_secret, "[REDACTED]");
    assert!(install_imported_available(
        &mut registry,
        material([4; 16], TRANSFER),
        Err("invitation-invalid".into())
    )
    .is_err());
}

#[test]
fn security_events_are_listed_newest_first_and_bounded() {
    let mut registry = AuthorizationRegistry::new(policy());
    for at in 0..MAX_SECURITY_EVENTS as u64 + 5 {
        record_security_rejection(
            &mut registry,
            "rejected",
            TRANSFER,
            [5; 16],
            None,
            "reason",
            None,
            at,
        );
    }
    let all = flowshare_native_list_security_events(
        &registry,
        &ListSecurityEventsRequest {
            transfer_id: None,
            limit: Some(2),
        },
        true,
    )
    .unwrap();
    assert_eq!(all.len(), 2);
    assert_eq!(all[0].timestamp_unix_ms, MAX_SECURITY_EVENTS as u64 + 4);
    assert_eq!(all[1].timestamp_unix_ms, MAX_SECURITY_EVENTS as u64 + 3);
    let none = flowshare_native_list_security_events(
        &registry,
        &ListSecurityEventsRequest {
            transfer_id: Some("ffffffff-ffff-ffff-ffff-ffffffffffff".into()),
            limit: None,
        },
        true,
    )
    .unwrap();
    assert!(none.is_empty());
}

#[test]
fn development_commands_need_the_development_build() {
    let mut registry = setup();
    assert!(flowshare_native_inspect_secure_invitation(
        &mut registry,
        &InspectSecureInvitationRequest {
            invitation_id: None,
            transfer_id: None,
        },
        false,
        NOW
    )
    .is_err());
    assert!(plan_secure_invitation(
        &CreateSecureInvitationRequest {
            transfer_id: "not-a-uuid".into(),
            certificate_fingerprint_sha256: hex(&[4; 32]),
            capabilities: None,
            lifetime_ms: None,
        },
        &policy(),
        true
    )
    .is_err());
}
