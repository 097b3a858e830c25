use base64::engine::general_purpose::URL_SAFE_NO_PAD;
use base64::Engine as _;
use flowshare_core::authorization::{
    AuthorizationMaterial, SecureInvitation, SecureInvitationBody, SecurityPolicy,
    TransferMasterSecret,
};
use flowshare_core::authorization_delivery::{
    build_manual_invitation_package, build_receiver_bootstrap, decode_manual_invitation_package,
    decode_receiver_bootstrap, export_manual_invitation_package, invitation_in_package,
    join_halves, prepare_receiver_bootstrap, random_id, validate_time_window, DecodedManualInvitationPackage,
    EphemeralIdentity, PreparedReceiverBootstrap, MAX_INVITATION_PACKAGE_BYTES,
};
use flowshare_core::crypto::digest_of;

const NOW: u64 = 1_700_000_000_000;
const ALLOWED_CLOCK_SKEW_MS: u64 = 30_000;

fn policy() -> SecurityPolicy {
    SecurityPolicy {
        protocol_version: 4,
        allowed_clock_skew_ms: ALLOWED_CLOCK_SKEW_MS,
        default_invitation_lifetime_ms: 600_000,
        max_invitation_bytes: 4_096,
    }
}

fn identity() -> EphemeralIdentity {
    let certificate = vec![0x30; 300];
    EphemeralIdentity {
        fingerprint_sha256_bytes: digest_of(&certificate),
        certificate,
        private_key: vec![1; 32],
    }
}

fn invitation(certificate: [u8; 32]) -> SecureInvitation {
    SecureInvitation {
        body: SecureInvitationBody {
            invitation_id: [5; 16],
            transfer_id: [1; 16],
            created_unix_ms: NOW,
            expires_unix_ms: NOW + 60_000,
            server_certificate_fingerprint: certificate,
            capability_digest: [7; 32],
            allowed_file_count: 1,
            maximum_claim_count: 1,
        },
        encoded: vec![9; 160],
    }
}

fn fixture() -> (PreparedReceiverBootstrap, AuthorizationMaterial) {
    let bootstrap = match prepare_receiver_bootstrap(identity(), NOW, 60_000, &policy()) {
        Ok(bootstrap) => bootstrap,
        Err(error) => panic!("{error}"),
    };
    let material = AuthorizationMaterial {
        invitation: invitation(bootstrap.certificate_fingerprint_sha256),
        master: TransferMasterSecret { bytes: [6; 32] },
    };
    (bootstrap, material)
}

fn opened(
    encoded: &str,
    receiver: Option<[u8; 32]>,
    certificate: [u8; 32],
    now: u64,
) -> Result<DecodedManualInvitationPackage, String> {
    let held = invitation_in_package(encoded, &policy())?;
    assert_eq!(held, vec![9; 160]);
    decode_manual_invitation_package(
        encoded,
        &receiver,
        Ok(invitation(certificate)),
        Ok(()),
        &policy(),
        now,
    )
}

#[test]
fn receiver_bootstrap_round_trip_binds_certificate() {
    let (bootstrap, _) = fixture();
    assert_eq!(bootstrap.bootstrap_id[6] >> 4, 4);
    assert_eq!(bootstrap.bootstrap_id[8] & 0xc0, 0x80);
    let decoded = decode_receiver_bootstrap(&bootstrap.encoded_package, &policy(), NOW).unwrap();
    assert_eq!(decoded.bootstrap_id, bootstrap.bootstrap_id);
    assert_eq!(
        decoded.certificate_fingerprint_sha256,
        bootstrap.certificate_fingerprint_sha256
    );
}

#[test]
fn manual_package_round_trip_is_bound_and_path_free() {
    let (bootstrap, material) = fixture();
    let (encoded, inspection) =
        export_manual_invitation_package(&material, Ok(()), NOW, 60_000, &policy()).unwrap();
    assert!(!encoded.contains('\\'));
    assert!(!encoded.contains('/'));
    assert!(!inspection.contains_path_or_filename);
    let decoded = match opened(
        &encoded,
        Some(bootstrap.certificate_fingerprint_sha256),
        bootstrap.certificate_fingerprint_sha256,
        NOW,
    ) {
        Ok(decoded) => decoded,
        Err(error) => panic!("{error}"),
    };
    assert_eq!(
        decoded.material.invitation.body.transfer_id,
        material.invitation.body.transfer_id
    );
    assert!(decoded.material.master.bytes == material.master.bytes);
    assert!(!decoded.describe().contains("0606"));
}

#[test]
fn manual_package_rejects_tamper_wrong_receiver_and_trailing_bytes() {
    let (bootstrap, material) = fixture();
    let certificate = bootstrap.certificate_fingerprint_sha256;
    let (encoded, _) =
        export_manual_invitation_package(&material, Ok(()), NOW, 60_000, &policy()).unwrap();
    let mut bytes = URL_SAFE_NO_PAD.decode(&encoded).unwrap();
    bytes[40] ^= 1;
    assert!(decode_manual_invitation_package(
        &URL_SAFE_NO_PAD.encode(&bytes),
        &Some(certificate),
        Ok(invitation(certificate)),
        Ok(()),
        &policy(),
        NOW
    )
    .is_err());
    assert!(opened(&encoded, Some([9; 32]), certificate, NOW).is_err());
    let mut trailing = URL_SAFE_NO_PAD.decode(&encoded).unwrap();
    trailing.extend_from_slice(b"extra");
    assert!(decode_manual_invitation_package(
        &URL_SAFE_NO_PAD.encode(trailing),
        &Some(certificate),
        Ok(invitation(certificate)),
        Ok(()),
        &policy(),
        NOW
    )
    .is_err());
}

#[test]
fn manual_package_rejects_expiration_and_oversize() {
    let (bootstrap, material) = fixture();
    let certificate = bootstrap.certificate_fingerprint_sha256;
    let (encoded, _) =
        export_manual_invitation_package(&material, Ok(()), NOW, 1, &policy()).unwrap();
    assert!(opened(
        &encoded,
        Some(certificate),
        certificate,
        NOW + ALLOWED_CLOCK_SKEW_MS + 10
    )
    .is_err());
    assert!(decode_manual_invitation_package(
        &"a".repeat(MAX_INVITATION_PACKAGE_BYTES * 2 + 1),
        &None,
        Ok(invitation(certificate)),
        Ok(()),
        &policy(),
        NOW
    )
    .is_err());
}

#[test]
fn packages_must_end_some_time() {
    assert_eq!(
        prepare_receiver_bootstrap(identity(), u64::MAX, 60_000, &policy())
            .err()
            .unwrap(),
        "native-receiver-bootstrap-lifetime-invalid"
    );
    let (_, material) = fixture();
    assert_eq!(
        export_manual_invitation_package(&material, Ok(()), u64::MAX, 60_000, &policy())
            .err()
            .unwrap(),
        "native-manual-package-lifetime-invalid"
    );
    assert_eq!(
        export_manual_invitation_package(
            &material,
            Err("invitation-expired".into()),
            NOW,
            60_000,
            &policy()
        )
        .err()
        .unwrap(),
        "invitation-expired"
    );
}

#[test]
fn packages_start_with_their_magic_and_end_with_a_digest() {
    let prepared = match build_receiver_bootstrap(
        identity(),
        [0x42; 16],
        &[0x24; 32],
        NOW,
        60_000,
        &policy(),
    ) {
        Ok(prepared) => prepared,
        Err(error) => panic!("{error}"),
    };
    let bytes = URL_SAFE_NO_PAD.decode(&prepared.encoded_package).unwrap();
    assert_eq!(&bytes[..16], b"FQNATIVEBOOT0004");
    let body = bytes.len() - 32;
    assert_eq!(&bytes[body..], &digest_of(&bytes[..body]));

    let (_, material) = fixture();
    let (encoded, _) = build_manual_invitation_package(
        &material,
        Ok(()),
        &[0x24; 32],
        NOW,
        60_000,
        &policy(),
    )
    .unwrap();
    let bytes = URL_SAFE_NO_PAD.decode(&encoded).unwrap();
    assert_eq!(&bytes[..16], b"FQNATIVEINVITE04");
}

#[test]
fn time_windows_allow_the_skew_and_no_more() {
    assert!(validate_time_window(NOW, NOW + 10, NOW + 10 + 30_000, 30_000).is_ok());
    assert!(validate_time_window(NOW, NOW + 10, NOW + 11 + 30_000, 30_000).is_err());
    assert!(validate_time_window(NOW + 30_001, NOW + 60_000, NOW, 30_000).is_err());
    assert!(validate_time_window(NOW, NOW, NOW, 30_000).is_err());
}

#[test]
fn identifiers_are_drawn_anew() {
    let one = random_id().unwrap();
    let two = random_id().unwrap();
    assert_ne!(one, two);
    assert_eq!(one[6] >> 4, 4);
}

#[test]
fn halves_are_joined_in_the_order_in_which_they_were_drawn() {
    let mut joined = [1u8; 32];
    joined[16..].copy_from_slice(&[2; 16]);
    assert_eq!(join_halves(Some([1; 16]), Some([2; 16])), Some(joined));
    assert_eq!(join_halves(None, Some([2; 16])), None);
    assert_eq!(join_halves(Some([1; 16]), None), None);
}
