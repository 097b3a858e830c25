use flowshare_core::protocol::{
    contains_separator, missing_block_ranges, resume_state_digest, validate_missing_ranges,
    CompletionManifest, MissingBlockRange, ProtocolError, RangeHeader, RangeLedger, ResumeBinding,
    SessionControl, MAX_MISSING_RANGES, NATIVE_QUIC_PROTOCOL_VERSION, RANGE_HEADER_BYTES,
    RESUME_CAP_BLOCK_SHA256, RESUME_REQUIRED_CAPABILITIES,
};

fn header(id: u32, offset: u64, length: u64) -> RangeHeader {
    RangeHeader {
        transfer_id: [7; 16],
        range_id: id,
        offset,
        length,
        flags: 0,
    }
}

fn binding() -> ResumeBinding {
    ResumeBinding {
        version: NATIVE_QUIC_PROTOCOL_VERSION,
        transfer_id: [4; 16],
        session_id: "new-session".into(),
        checkpoint_generation: 7,
        file_size: 8 * 1024 * 1024,
        block_size: 2 * 1024 * 1024,
        total_blocks: 4,
        expected_sha256: [9; 32],
        state_digest: [3; 32],
        capabilities: RESUME_REQUIRED_CAPABILITIES,
    }
}

#[test]
fn range_header_round_trip_and_rejections() {
    let value = header(9, u32::MAX as u64 + 20, 4096);
    assert_eq!(RangeHeader::decode(&value.encode()).unwrap(), value);
    assert!(matches!(
        RangeHeader::decode(&value.encode()[..20]),
        Err(ProtocolError::Malformed(_))
    ));
    assert!(matches!(
        value.validate(&[8; 16], u64::MAX),
        Err(ProtocolError::WrongTransfer)
    ));
    assert!(matches!(
        header(1, 90, 20).validate(&[7; 16], 100),
        Err(ProtocolError::OutOfBounds)
    ));
}

#[test]
fn ledger_rejects_duplicates_overlaps_missing_and_payload_after_completion() {
    let mut ledger = RangeLedger::default();
    ledger.record(&header(0, 0, 50), 50).unwrap();
    assert_eq!(
        ledger.record(&header(0, 0, 50), 50),
        Err(ProtocolError::DuplicateRange)
    );
    assert_eq!(
        ledger.record(&header(1, 40, 20), 20),
        Err(ProtocolError::OverlappingRange)
    );
    let incomplete = CompletionManifest {
        version: NATIVE_QUIC_PROTOCOL_VERSION,
        transfer_id: [7; 16],
        expected_bytes: 100,
        expected_ranges: 2,
        sha256: None,
    };
    assert_eq!(
        ledger.finalize(&incomplete, 100),
        Err(ProtocolError::IncompleteTransfer)
    );
    ledger.record(&header(1, 50, 50), 50).unwrap();
    ledger.finalize(&incomplete, 100).unwrap();
    assert_eq!(
        ledger.record(&header(2, 100, 1), 1),
        Err(ProtocolError::PayloadAfterFinalization)
    );
}

#[test]
fn ledger_refuses_before_it_forms_the_end_of_a_range() {
    let beyond = header(0, u64::MAX, 2);
    assert_eq!(
        RangeLedger::default().record(&beyond, 1),
        Err(ProtocolError::LengthMismatch)
    );
    let mut closed = RangeLedger::default();
    let empty = CompletionManifest {
        version: NATIVE_QUIC_PROTOCOL_VERSION,
        transfer_id: [7; 16],
        expected_bytes: 0,
        expected_ranges: 0,
        sha256: None,
    };
    closed.finalize(&empty, 0).unwrap();
    assert_eq!(
        closed.record(&beyond, 2),
        Err(ProtocolError::PayloadAfterFinalization)
    );
}

#[test]
fn ledger_rejects_declared_length_mismatch() {
    assert_eq!(
        RangeLedger::default().record(&header(0, 0, 10), 9),
        Err(ProtocolError::LengthMismatch)
    );
}

#[test]
fn missing_ranges_are_compact_and_strictly_validated() {
    let bitmap = [0b0000_1111u8, 0b0000_0011];
    let ranges = missing_block_ranges(&bitmap, 12).unwrap();
    assert_eq!(
        ranges,
        vec![
            MissingBlockRange {
                start_block: 4,
                block_count: 4,
            },
            MissingBlockRange {
                start_block: 10,
                block_count: 2,
            }
        ]
    );
    assert_eq!(validate_missing_ranges(&ranges, 12).unwrap(), 6);
    assert!(validate_missing_ranges(
        &[
            MissingBlockRange {
                start_block: 4,
                block_count: 3,
            },
            MissingBlockRange {
                start_block: 6,
                block_count: 1,
            }
        ],
        12
    )
    .is_err());
}

#[test]
fn randomized_missing_range_round_trips_are_bounded_and_exact() {
    let mut state = 0x6a09_e667_f3bc_c909u64;
    for total_blocks in 0..1024u64 {
        let mut bitmap = vec![0u8; total_blocks.div_ceil(8) as usize];
        for byte in &mut bitmap {
            state ^= state << 13;
            state ^= state >> 7;
            state ^= state << 17;
            *byte = state as u8;
        }
        if let Some(last) = bitmap.last_mut() {
            let used = total_blocks % 8;
            if used != 0 {
                *last &= (1u8 << used) - 1;
            }
        }
        let expected_missing = (0..total_blocks)
            .filter(|block| bitmap[(*block / 8) as usize] & (1 << (*block % 8)) == 0)
            .count() as u64;
        let ranges = missing_block_ranges(&bitmap, total_blocks).unwrap();
        assert!(ranges.len() <= total_blocks as usize);
        assert_eq!(
            validate_missing_ranges(&ranges, total_blocks).unwrap(),
            expected_missing
        );
    }
}

#[test]
fn resume_binding_rejects_stale_mismatched_and_downgraded_sessions() {
    let expected = binding();
    expected.validate_matches(&expected).unwrap();
    let mut stale = expected.clone();
    stale.checkpoint_generation -= 1;
    assert_eq!(
        stale.validate_matches(&expected),
        Err(ProtocolError::StaleCheckpoint)
    );
    let mut wrong_hash = expected.clone();
    wrong_hash.expected_sha256[0] ^= 1;
    assert_eq!(
        wrong_hash.validate_matches(&expected),
        Err(ProtocolError::ResumeMismatch)
    );
    let mut downgraded = expected.clone();
    downgraded.capabilities &= !RESUME_CAP_BLOCK_SHA256;
    assert_eq!(
        downgraded.validate_matches(&expected),
        Err(ProtocolError::ResumeDowngrade)
    );
}

#[test]
fn header_bytes_follow_the_wire_layout() {
    let bytes = RangeHeader {
        transfer_id: [0xab; 16],
        range_id: 0x0102_0304,
        offset: 0x1112_1314_1516_1718,
        length: 0x2122_2324_2526_2728,
        flags: 0,
    }
    .encode();
    assert_eq!(bytes.len(), RANGE_HEADER_BYTES);
    assert_eq!(&bytes[..4], b"FQRG");
    assert_eq!(&bytes[4..6], &3u16.to_be_bytes());
    assert_eq!(&bytes[6..22], &[0xab; 16]);
    assert_eq!(&bytes[22..26], &[1, 2, 3, 4]);
    assert_eq!(&bytes[26..34], &0x1112_1314_1516_1718u64.to_be_bytes());
    assert_eq!(&bytes[34..42], &0x2122_2324_2526_2728u64.to_be_bytes());
    assert_eq!(&bytes[42..44], &[0, 0]);
}

#[test]
fn altered_header_bytes_are_refused() {
    let good = header(1, 2, 3).encode();
    let mut magic = good;
    magic[0] = b'X';
    assert!(matches!(
        RangeHeader::decode(&magic),
        Err(ProtocolError::Malformed(_))
    ));
    let mut version = good;
    version[5] = 9;
    assert_eq!(
        RangeHeader::decode(&version),
        Err(ProtocolError::UnsupportedVersion(9))
    );
}

#[test]
fn a_wrong_session_is_told_apart_from_a_wrong_transfer() {
    let expected = binding();
    let mut session = expected.clone();
    session.session_id = "other".into();
    assert_eq!(
        session.validate_matches(&expected),
        Err(ProtocolError::WrongSession)
    );
    let mut transfer = expected.clone();
    transfer.transfer_id = [5; 16];
    assert_eq!(
        transfer.validate_matches(&expected),
        Err(ProtocolError::WrongTransfer)
    );
    let mut version = expected.clone();
    version.version = 2;
    assert_eq!(
        version.validate(),
        Err(ProtocolError::UnsupportedVersion(2))
    );
    let mut blocks = expected;
    blocks.total_blocks = 5;
    assert_eq!(blocks.validate(), Err(ProtocolError::InvalidResumeState));
}

#[test]
fn missing_ranges_need_a_bitmap_of_the_right_size() {
    assert_eq!(
        missing_block_ranges(&[0u8, 0], 8),
        Err(ProtocolError::InvalidResumeState)
    );
    assert_eq!(
        missing_block_ranges(&[0b1000_0000], 7).unwrap(),
        vec![MissingBlockRange {
            start_block: 0,
            block_count: 7,
        }]
    );
    assert_eq!(missing_block_ranges(&[], 0).unwrap(), vec![]);
    let too_many = vec![
        MissingBlockRange {
            start_block: 0,
            block_count: 1,
        };
        MAX_MISSING_RANGES + 1
    ];
    assert_eq!(
        validate_missing_ranges(&too_many, 10),
        Err(ProtocolError::InvalidResumeState)
    );
}

#[test]
fn state_digest_depends_on_count_and_bitmap() {
    let digest = resume_state_digest(8, &[0x0f]);
    assert_eq!(digest, resume_state_digest(8, &[0x0f]));
    assert_ne!(digest, resume_state_digest(7, &[0x0f]));
    assert_ne!(digest, resume_state_digest(8, &[0x1f]));
}

#[test]
fn errors_are_written_as_their_variant() {
    assert_eq!(ProtocolError::WrongTransfer.message(), "WrongTransfer");
    assert_eq!(
        ProtocolError::UnsupportedVersion(12).message(),
        "UnsupportedVersion(12)"
    );
}

fn session() -> SessionControl {
    SessionControl {
        version: NATIVE_QUIC_PROTOCOL_VERSION,
        share_id: "share".into(),
        transfer_id: [1; 16],
        session_id: "session".into(),
        file_id: "file".into(),
        file_name: "movie.webm".into(),
        file_size: 5 * 1024 * 1024 * 1024,
        modified_unix_ms: None,
        stream_count: 4,
        range_bytes: 2 * 1024 * 1024,
        integrity_algorithm: "sha256".into(),
        capabilities: 7,
        resume_supported: true,
        expires_unix_ms: 1,
    }
}

#[test]
fn session_control_refuses_paths_and_empty_identifiers() {
    assert_eq!(session().validate(), Ok(()));
    assert!(contains_separator("a/b"));
    assert!(contains_separator("a\\b"));
    assert!(!contains_separator("ab"));
    let mut path = session();
    path.file_name = "../movie.webm".into();
    assert!(path.validate().is_err());
    let mut unnamed = session();
    unnamed.session_id = String::new();
    assert!(unnamed.validate().is_err());
    let mut streams = session();
    streams.stream_count = 0;
    assert!(streams.validate().is_err());
}
