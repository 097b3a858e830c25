use flowshare_core::paths::PathStyle;
use flowshare_core::block_hash::{
    block_generation_paths, decode, encode, from_hashes, load_for_generation,
    load_for_generation_authenticated, SidecarRead,
};

fn stored() -> flowshare_core::block_hash::BlockHashManifest {
    from_hashes([1; 16], 3, 5, 2, &[Some([1; 32]), None, Some([2; 32])]).unwrap()
}

#[test]
fn block_sidecar_decoder_rejects_random_and_truncated_frames() {
    let manifest = from_hashes([1; 16], 3, 5, 2, &[Some([1; 32]), None, Some([2; 32])]).unwrap();
    let valid = encode(&manifest).unwrap();
    for length in 0..valid.len() {
        assert!(decode(&valid[..length]).is_err());
    }
    let mut state = 0xa5a5_5a5a_dead_beefu64;
    for length in 0..1024usize {
        let mut input = vec![0u8; length];
        for byte in &mut input {
            state ^= state << 13;
            state ^= state >> 7;
            state ^= state << 17;
            *byte = state as u8;
        }
        let _ = decode(&input);
    }
}

#[test]
fn sidecar_round_trip_is_generation_bound_and_corruption_detected() {
    let manifest = stored();
    let bytes = encode(&manifest).unwrap();
    let paths = block_generation_paths(PathStyle::Unix, "/tmp/transfer.resume.current");
    let reads = vec![
        (paths.current.clone(), SidecarRead::Bytes(bytes.clone())),
        (paths.previous.clone(), SidecarRead::Missing),
        (paths.pending.clone(), SidecarRead::Missing),
    ];
    let loaded = load_for_generation(&reads, &[1; 16], 3);
    assert_eq!(loaded.manifest.unwrap(), manifest);
    assert_eq!(loaded.encoded_size, bytes.len());
    assert_eq!(loaded.selected_path.as_deref(), Some(paths.current.as_str()));

    let mut damaged = bytes;
    damaged[15] ^= 1;
    let reads = vec![(paths.current, SidecarRead::Bytes(damaged))];
    let corrupt = load_for_generation(&reads, &[1; 16], 3);
    assert!(corrupt.manifest.is_none());
    assert_eq!(corrupt.invalid_candidates.len(), 1);
}

#[test]
fn refused_sidecars_are_listed_in_the_order_of_the_reads() {
    let bytes = encode(&stored()).unwrap();
    let mut damaged = bytes.clone();
    damaged[15] ^= 1;
    let reads = vec![
        ("first".to_string(), SidecarRead::Bytes(damaged.clone())),
        ("second".to_string(), SidecarRead::Missing),
        ("third".to_string(), SidecarRead::Bytes(bytes)),
        ("fourth".to_string(), SidecarRead::Bytes(damaged)),
    ];
    let loaded = load_for_generation(&reads, &[1; 16], 3);
    assert_eq!(loaded.selected_path.as_deref(), Some("third"));
    let refused: Vec<&str> = loaded
        .invalid_candidates
        .iter()
        .map(|value| value.path.as_str())
        .collect();
    assert_eq!(refused, vec!["first", "fourth"]);
}

#[test]
fn checksum_valid_but_mac_invalid_sidecar_is_rejected() {
    let invitation = [4; 16];
    let part_identity = [5; 32];
    let key = [6; 32];
    let mut manifest = stored();
    manifest
        .authenticate(invitation, part_identity, &key)
        .unwrap();
    let reads = vec![(
        "current".to_string(),
        SidecarRead::Bytes(encode(&manifest).unwrap()),
    )];
    let loaded = load_for_generation_authenticated(
        &reads,
        &[1; 16],
        &invitation,
        3,
        &part_identity,
        &manifest.authenticated_digest().unwrap(),
        &key,
    );
    assert!(loaded.manifest.is_some());

    let mut tampered = manifest;
    tampered.entries[0].digest[0] ^= 1;
    let reads = vec![(
        "current".to_string(),
        SidecarRead::Bytes(encode(&tampered).unwrap()),
    )];
    let rejected = load_for_generation_authenticated(
        &reads,
        &[1; 16],
        &invitation,
        3,
        &part_identity,
        &tampered.authenticated_digest().unwrap(),
        &key,
    );
    assert!(rejected.manifest.is_none());
    assert!(rejected
        .invalid_candidates
        .iter()
        .any(|value| value.error == "checkpoint-authentication-failed"));
}

#[test]
fn a_manifest_comes_back_as_it_was_written() {
    let manifest = stored();
    assert_eq!(decode(&encode(&manifest).unwrap()).unwrap(), manifest);
    assert_eq!(
        manifest.encoded_size().unwrap(),
        encode(&manifest).unwrap().len()
    );
    assert_eq!(manifest.hash_for(0), Some([1; 32]));
    assert_eq!(manifest.hash_for(1), None);
    assert_eq!(manifest.hash_for(2), Some([2; 32]));
    assert_eq!(manifest.entries[1].absolute_offset, 4);
    assert_eq!(manifest.entries[1].valid_length, 1);
}

#[test]
fn a_tag_holds_only_under_its_own_key() {
    let mut manifest = stored();
    manifest.authenticate([4; 16], [5; 32], &[6; 32]).unwrap();
    assert!(manifest
        .verify_security(&[6; 32], &[4; 16], &[5; 32])
        .is_ok());
    assert_eq!(
        manifest
            .verify_security(&[7; 32], &[4; 16], &[5; 32])
            .unwrap_err(),
        "checkpoint-authentication-failed"
    );
}

#[test]
fn sidecars_of_another_generation_are_passed_over() {
    let reads = vec![
        (
            "current".to_string(),
            SidecarRead::Bytes(encode(&stored()).unwrap()),
        ),
        (
            "previous".to_string(),
            SidecarRead::Failed("denied".to_string()),
        ),
    ];
    let selection = load_for_generation(&reads, &[1; 16], 4);
    assert!(selection.manifest.is_none());
    assert_eq!(selection.invalid_candidates.len(), 2);
    assert_eq!(selection.invalid_candidates[1].path, "previous");
}
