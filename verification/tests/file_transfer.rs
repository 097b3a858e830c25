use flowshare_core::config::NativeQuicConfig;
use flowshare_core::crypto::digest_of;
use flowshare_core::engine::{TransferRequest, TransferRun};
use flowshare_core::file_transfer::{
    accept_range_header, check_ack, check_control, check_frame_length, check_source_unchanged,
    check_transfer_settings, completion_ack, completion_manifest, data_streams,
    deterministic_range_hash, duplicate_name, failure_outcome, filler_byte, gather_ranges,
    next_send, now_unix_ms, peak_memory, planned_header, range_for, safe_name, total_sent,
    working_names, CompletedBlocks, ContentDigest, ControlFrame, DestinationChoice, FailureOutcome,
    FileControl, LoopbackSource, NativeFileLoopbackRequest, RangeAction, RangeReceiver,
    ReadProgress, SourceStamp, StopReason, SyncMode, TransferCounters, TransferEvent,
    TransferProgress,
};
use flowshare_core::framing::{decode_framed, encode_framed};
use flowshare_core::lifecycle::TransferState;
use flowshare_core::paths::{first_name, next_name, number_name, NameChoice, PathStyle};
use flowshare_core::protocol::ProtocolError;

const NOW: u64 = 1_700_000_000_000;

#[test]
fn ranges_tile_the_file_in_order() {
    for (size, streams) in [(0u64, 4u8), (1, 4), (10, 3), (4_294_967_297, 8)] {
        let mut next = 0;
        for index in 0..streams {
            let (offset, length) = range_for(size, streams, index);
            assert_eq!(offset, next);
            next += length;
        }
        assert_eq!(next, size);
    }
    assert_eq!(range_for(10, 3, 0), (0, 3));
    assert_eq!(range_for(10, 3, 2), (6, 4));
    assert_eq!(data_streams(2, 4), 2);
    assert_eq!(data_streams(100, 4), 4);
}

#[test]
fn the_reference_digest_is_that_of_the_filled_ranges() {
    let mut content = Vec::new();
    for index in 0..3u8 {
        let (_, length) = range_for(10, 3, index);
        content.extend(std::iter::repeat(filler_byte(index)).take(length as usize));
    }
    assert_eq!(deterministic_range_hash(10, 3, 2), digest_of(&content));
}

#[test]
fn a_digest_fed_in_pieces_is_the_digest_of_the_whole() {
    let mut digest = ContentDigest::begin();
    digest.take(b"hello ");
    digest.take(b"");
    digest.take(b"world");
    let whole = digest.finish();
    assert_eq!(whole, digest_of(b"hello world"));
    assert_eq!(
        whole[..4],
        [0xb9, 0x4d, 0x27, 0xb9]
    );
}

#[test]
fn loopback_requests_name_memory_or_a_file() {
    let request = NativeFileLoopbackRequest {
        source_path: None,
        source_mode: Some("memory".into()),
        total_bytes: Some(64),
        destination_directory: "/tmp".into(),
        stream_count: Some(4),
        block_bytes: None,
        overwrite: None,
        retain_partial: None,
        sync_mode: None,
        receiver_buffer_count: None,
        write_queue_capacity: None,
    };
    assert_eq!(request.source().unwrap(), LoopbackSource::Memory(64));
    assert_eq!(request.config().unwrap().stream_count, 4);
    let mut file = request.clone();
    file.source_mode = None;
    file.source_path = Some("/tmp/source.bin".into());
    assert_eq!(
        file.source().unwrap(),
        LoopbackSource::File("/tmp/source.bin".into())
    );
    let mut streams = request.clone();
    streams.stream_count = Some(3);
    assert!(streams.config().is_err());
    let mut blocks = request;
    blocks.block_bytes = Some(3);
    assert!(blocks.config().is_err());
}

#[test]
fn settings_outside_their_bounds_are_refused() {
    assert_eq!(
        check_transfer_settings(&Some("data".into()), 16, 4).unwrap(),
        SyncMode::Data
    );
    assert!(check_transfer_settings(&Some("often".into()), 16, 4).is_err());
    assert!(check_transfer_settings(&None, 0, 4).is_err());
    let config = NativeQuicConfig::desktop(4).unwrap();
    let (sender, receiver) = peak_memory(&config, 16, 4);
    assert!(sender > 0 && receiver > 0);
    assert!(NativeQuicConfig::desktop(5).is_err());
}

#[test]
fn names_are_safe_and_numbered() {
    assert_eq!(safe_name(PathStyle::Unix, "/tmp/movie.webm").unwrap(), "movie.webm");
    assert!(safe_name(PathStyle::Unix, "/").is_err());
    assert_eq!(
        duplicate_name(PathStyle::Unix, "/tmp", "movie.webm", false, None).unwrap(),
        DestinationChoice::Probe(0, "/tmp/movie.webm".into())
    );
    assert_eq!(
        duplicate_name(PathStyle::Unix, "/tmp", "movie.webm", false, Some((0, false))).unwrap(),
        DestinationChoice::Use("/tmp/movie.webm".into())
    );
    assert_eq!(number_name(PathStyle::Unix, "movie.webm", 2), "movie (2).webm");
    assert_eq!(
        first_name("movie.webm", true),
        NameChoice::Use("movie.webm".into())
    );
    assert_eq!(
        next_name(PathStyle::Unix, "movie.webm", 1, true),
        NameChoice::Probe(2, "movie (2).webm".into())
    );
    let (part, resume) = working_names("movie.webm", &[1; 16]);
    assert!(part.contains("01010101-0101-0101-0101-010101010101"));
    assert_ne!(part, resume);
    assert_eq!(now_unix_ms(Some(5)), 5);
    assert_eq!(now_unix_ms(None), 0);
}

#[test]
fn a_receiver_reads_blocks_to_the_end_of_its_range() {
    let header = planned_header([1; 16], 10, 1, 0);
    let encoded = header.encode();
    let accepted = accept_range_header(&encoded, &[1; 16], 10).unwrap();
    assert_eq!(
        accept_range_header(&encoded, &[2; 16], 10).unwrap_err(),
        ProtocolError::WrongTransfer
    );
    let mut receiver = RangeReceiver::begin(accepted, 4);
    let mut blocks = Vec::new();
    loop {
        match receiver.next_action(false) {
            RangeAction::Fill(wanted) => {
                if wanted > 1 {
                    assert_eq!(
                        receiver.take_read(Some(1)).unwrap(),
                        ReadProgress::Missing(wanted - 1)
                    );
                    match receiver.take_read(Some(wanted - 1)).unwrap() {
                        ReadProgress::Block { offset, length } => blocks.push((offset, length)),
                        ReadProgress::Missing(_) => panic!("block was complete"),
                    }
                }
            }
            RangeAction::AwaitEnd | RangeAction::Stop => break,
        }
    }
    assert_eq!(blocks, vec![(0, 4), (4, 4), (8, 2)]);
    assert!(receiver.finish(false, 10).is_ok());

    let mut cut = RangeReceiver::begin(planned_header([1; 16], 10, 1, 0), 4);
    assert!(matches!(cut.next_action(false), RangeAction::Fill(4)));
    assert!(cut.take_read(None).is_err());
    let mut stopped = RangeReceiver::begin(planned_header([1; 16], 10, 1, 0), 4);
    assert!(matches!(stopped.next_action(true), RangeAction::Stop));
}

#[test]
fn planned_ranges_complete_the_file() {
    let size = 4_294_967_297u64;
    let headers: Vec<Result<_, String>> = (0..4u8)
        .map(|index| Ok(planned_header([1; 16], size, 4, index)))
        .collect();
    let mut ledger = gather_ranges(&headers).unwrap();
    let manifest = completion_manifest([1; 16], size, 4, [9; 32]);
    assert_eq!(manifest.expected_ranges, 4);
    assert!(ledger.finalize(&manifest, size).is_ok());
    let failed = vec![Err("native-stream-read-failed".to_string())];
    assert_eq!(
        gather_ranges(&failed).err().unwrap(),
        "native-stream-read-failed"
    );
}

#[test]
fn blocks_are_counted_once() {
    let mut blocks = CompletedBlocks::none_of(5, 2);
    assert_eq!(blocks.total_blocks, 3);
    blocks.record(0, &[1, 2]);
    blocks.record(0, &[1, 2]);
    blocks.record(4, &[5]);
    assert_eq!(blocks.count, 2);
    assert_eq!(blocks.completed_bytes(), 3);
    assert_eq!(blocks.bitmap, vec![0b0000_0101]);
    assert_eq!(blocks.hashes[0], Some(digest_of(&[1, 2])));
    blocks.record(2, &[3, 4]);
    assert_eq!(blocks.completed_bytes(), 5);
}

#[test]
fn counters_follow_a_block_from_read_to_write() {
    let mut counters = TransferCounters::zero();
    assert!(!counters.has_room_for(&TransferEvent::WriterEnded));
    assert!(counters.has_room_for(&TransferEvent::BlockQueued(u64::MAX)));
    counters.note(TransferEvent::ReceiverStarted);
    counters.note(TransferEvent::BufferTaken);
    counters.note(TransferEvent::BlockQueued(4));
    assert!(!counters.has_room_for(&TransferEvent::BlockQueued(u64::MAX)));
    assert_eq!(counters.queued_writes, 1);
    assert_eq!(counters.checked_out_buffers, 1);
    counters.note(TransferEvent::BlockDequeued);
    counters.note(TransferEvent::BytesWritten(4));
    counters.note(TransferEvent::BufferReturned);
    counters.note(TransferEvent::ReceiverEnded);
    assert_eq!(counters.queued_writes, 0);
    assert_eq!(counters.checked_out_buffers, 0);
    assert_eq!(counters.active_receiver_streams, 0);
    assert_eq!(counters.bytes_received, 4);
    assert_eq!(counters.bytes_written, 4);
}

#[test]
fn a_transfer_completes_only_with_the_expected_content() {
    let run = || {
        let mut progress = TransferProgress::created([1; 16], 4, 2, NOW);
        progress
            .lifecycle
            .transition(TransferState::Preparing, NOW)
            .unwrap();
        progress
            .lifecycle
            .transition(TransferState::Connecting, NOW)
            .unwrap();
        progress
            .lifecycle
            .transition(TransferState::Transferring, NOW)
            .unwrap();
        let mut ledger =
            gather_ranges(&vec![Ok(planned_header([1; 16], 4, 1, 0))]).unwrap();
        let manifest = completion_manifest([1; 16], 4, 1, [9; 32]);
        progress
            .accept_manifest(&mut ledger, &manifest, &[9; 32], false, NOW)
            .unwrap();
        progress
    };
    let mut good = run();
    assert_eq!(good.lifecycle.state, TransferState::Synchronizing);
    good.accept_content(&[9; 32], &[9; 32], false, NOW).unwrap();
    good.accept_rename(NOW).unwrap();
    assert_eq!(good.lifecycle.state, TransferState::Completed);
    good.finish_cleanup(vec!["left behind".into()]);
    assert_eq!(good.cleanup_warnings.len(), 1);

    let mut bad = run();
    assert_eq!(
        bad.accept_content(&[8; 32], &[9; 32], false, NOW)
            .unwrap_err(),
        "integrity-mismatch"
    );
    assert_ne!(bad.lifecycle.state, TransferState::Completed);
}

#[test]
fn checkpoints_carry_the_blocks_and_a_new_generation() {
    let mut progress = TransferProgress::created([1; 16], 4, 2, NOW);
    progress.expected_sha256 = Some([9; 32]);
    progress.blocks.record(0, &[1, 2]);
    let plan = progress
        .plan_checkpoint(
            PathStyle::Unix,
            [5; 16],
            [7; 32],
            &[6; 32],
            "/tmp/movie.webm",
            "/tmp/movie.part",
            TransferState::Paused,
            NOW,
        )
        .unwrap();
    assert_eq!(plan.checkpoint_generation, 1);
    assert_eq!(plan.completed_bytes, 2);
    assert_eq!(plan.final_filename, "movie.webm");
    assert_eq!(plan.manifest.entries.len(), 1);
    assert!(plan
        .manifest
        .verify_security(&[6; 32], &[5; 16], &[7; 32])
        .is_ok());
    progress.checkpoint_written(&plan, 120);
    assert_eq!(progress.checkpoint_generation, 1);
    assert_eq!(progress.block_hash_sidecar_bytes, 120);
    assert!(progress.resume_available);
}

#[test]
fn a_stop_decides_what_is_kept() {
    assert_eq!(
        failure_outcome(Some(StopReason::Pause), false),
        FailureOutcome::Checkpoint(TransferState::Paused)
    );
    assert_eq!(
        failure_outcome(Some(StopReason::CancelDelete), true),
        FailureOutcome::Discard
    );
    assert_eq!(failure_outcome(None, false), FailureOutcome::Fail);
    assert_eq!(
        failure_outcome(None, true),
        FailureOutcome::Checkpoint(TransferState::RecoverableFailure)
    );
}

#[test]
fn acknowledgements_must_match_what_was_sent() {
    let control = FileControl {
        transfer_id: [1; 16],
        file_size: 4,
        stream_count: 1,
        expected_sha256: [9; 32],
    };
    let ack = completion_ack([1; 16], 4, [9; 32]);
    assert!(check_ack(&ack, &control, 4).is_ok());
    assert!(check_ack(&ack, &control, 3).is_err());
    assert!(check_ack(&completion_ack([1; 16], 4, [8; 32]), &control, 4).is_err());
    assert!(check_control(&control, &control).is_ok());
    let mut other = control;
    other.file_size = 5;
    assert!(check_control(&other, &control).is_err());
    assert!(check_frame_length(ControlFrame::Metadata, 8192).is_ok());
    assert_eq!(
        check_frame_length(ControlFrame::Metadata, 8193).unwrap_err(),
        "control-frame-too-large"
    );
    assert_eq!(
        check_frame_length(ControlFrame::Manifest, 4097).unwrap_err(),
        "completion-frame-too-large"
    );
    assert_eq!(next_send(10, 4, false).unwrap(), Some(4));
    assert_eq!(next_send(2, 4, false).unwrap(), Some(2));
    assert_eq!(next_send(0, 4, false).unwrap(), None);
    assert!(next_send(10, 4, true).is_err());
    assert_eq!(total_sent(&vec![Ok(3), Ok(4)]).unwrap(), 7);
    assert!(total_sent(&vec![Ok(3), Err("failed".into())]).is_err());
    let before = SourceStamp {
        size: 4,
        modified_ms: Some(1),
    };
    assert!(check_source_unchanged(&before, &before).is_ok());
    assert!(check_source_unchanged(
        &before,
        &SourceStamp {
            size: 4,
            modified_ms: Some(2),
        }
    )
    .is_err());
}

#[test]
fn an_adapter_transfer_hashes_every_block_it_wrote() {
    let content: Vec<u8> = (0..10).collect();
    let mut run = match TransferRun::begin(TransferRequest {
        transfer_id: "transfer".into(),
        source_handle: "source".into(),
        destination_handle: "destination".into(),
        start_offset: 0,
        total_bytes: 10,
        block_bytes: 4,
    }) {
        Ok(run) => run,
        Err(error) => panic!("{error}"),
    };
    while let Some(next) = run.next_block() {
        let block = &content[next.offset as usize..next.offset as usize + next.length];
        run.check_read(block).unwrap();
        assert!(run.check_read(&block[1..]).is_err());
        run.record_written(block);
    }
    let receipt = run.finish();
    assert_eq!(receipt.bytes_written, 10);
    assert_eq!(receipt.sha256, digest_of(&content));
    assert!(TransferRun::begin(TransferRequest {
        transfer_id: "transfer".into(),
        source_handle: "source".into(),
        destination_handle: "destination".into(),
        start_offset: 0,
        total_bytes: 10,
        block_bytes: 0,
    })
    .is_err());
}

#[test]
fn frames_come_back_and_damage_is_noticed() {
    let magic = *b"FQTEST01";
    let frame = encode_framed(&magic, b"payload").unwrap();
    assert_eq!(decode_framed(&magic, &frame).unwrap(), b"payload");
    for at in 0..frame.len() {
        let mut damaged = frame.clone();
        damaged[at] ^= 1;
        assert!(decode_framed(&magic, &damaged).is_none());
    }
    assert!(decode_framed(b"FQOTHER1", &frame).is_none());
}
