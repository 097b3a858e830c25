//! What a file may be called, how it is cut up, and when it has arrived.

use crate::block_hash::{
    entries_for, entry_at, entry_fits, BlockHashEntry, BlockHashManifest, SidecarExpectation,
};
use crate::crypto::{hmac_sha256_tag, sha256_digest};
use crate::encoding::uuid_text;
use crate::file_transfer::{
    active_streams, block_length, confirms, filler, first_failure, lowered, memory_payload, planned,
    range_length, range_start, sent_bytes, settings_defect, sync_mode_of, valid_block_size,
    FileCompletionAck, FileControl, NativeFileLoopbackRequest, SyncMode, TransferCounters,
    TransferEvent, TransferProgress,
};
use crate::paths::{file_name_of, PathStyle};
use crate::platform_handles::has_control;
use crate::protocol::{
    covers, starts_within, CompletionManifest, ProtocolError, RangeHeader, RangeLedger,
    ResumeBinding,
};
use crate::received_files::{
    filename_defect, has_forbidden, is_reserved, retention_expiry, without_tail,
    PersistedIncomingRetention,
};
use vstd::prelude::*;
use vstd::utf8::encode_utf8;

verus! {

/// The spaces and dots at the end of a name are left out, and nothing else.
pub proof fn law_only_closing_spaces_and_dots_are_left_out(name: Seq<char>)
    ensures
        ({
            let kept = without_tail(name);
            &&& kept.len() <= name.len()
            &&& kept == name.take(kept.len() as int)
            &&& kept.len() > 0 ==> kept.last() != ' ' && kept.last() != '.'
            &&& forall|i: int|
                kept.len() <= i < name.len() ==> #[trigger] name[i] == ' ' || name[i] == '.'
        }),
    decreases name.len(),
{
    if name.len() > 0 && (name.last() == ' ' || name.last() == '.') {
        let head = name.drop_last();
        law_only_closing_spaces_and_dots_are_left_out(head);
        let kept = without_tail(name);
        assert(kept =~= name.take(kept.len() as int));
        assert forall|i: int| kept.len() <= i < name.len() implies #[trigger] name[i] == ' '
            || name[i] == '.' by {
            if i < head.len() {
                assert(head[i] == name[i]);
            }
        }
    } else {
        assert(name =~= name.take(name.len() as int));
    }
}

/// A name is taken exactly when it is short, holds no separator, drive or control character, is
/// more than spaces and dots, and is not that of a device.
pub proof fn law_names_are_taken_when_safe(value: Seq<char>)
    ensures
        filename_defect(value) is None <==> {
            &&& 0 < value.len() <= 240
            &&& encode_utf8(value).len() <= 255
            &&& !has_control(value)
            &&& forall|i: int|
                0 <= i < value.len() ==> #[trigger] value[i] != '/' && value[i] != '\\' && value[i]
                    != ':'
            &&& exists|i: int| 0 <= i < value.len() && #[trigger] value[i] != ' ' && value[i] != '.'
            &&& !is_reserved(crate::received_files::device_stem(without_tail(value)))
        },
{
    law_only_closing_spaces_and_dots_are_left_out(value);
    let kept = without_tail(value);
    if kept.len() > 0 {
        assert(kept.last() == value[kept.len() - 1]);
        assert(value[kept.len() - 1] != ' ' && value[kept.len() - 1] != '.');
    }
    if !has_forbidden(value) {
        assert forall|i: int| 0 <= i < value.len() implies #[trigger] value[i] != '/' && value[i]
            != '\\' && value[i] != ':' by {}
    }
}

/// The names of devices: five of them, and the nine serial and the nine parallel ports.
pub proof fn law_device_names_are_reserved(stem: Seq<char>)
    ensures
        is_reserved(stem) ==> stem == "CON"@ || stem == "PRN"@ || stem == "AUX"@ || stem == "NUL"@
            || stem == "CLOCK$"@ || stem.len() == 4 && '1' <= stem[3] <= '9' && (stem.take(3)
            == "COM"@ || stem.take(3) == "LPT"@),
        stem == "CON"@ || stem == "PRN"@ || stem == "AUX"@ || stem == "NUL"@ || stem == "CLOCK$"@
            ==> is_reserved(stem),
        stem.len() == 4 && stem.take(3) == "COM"@ && '1' <= stem[3] <= '9' ==> is_reserved(stem),
        stem.len() == 4 && stem.take(3) == "LPT"@ && '1' <= stem[3] <= '9' ==> is_reserved(stem),
{
}

/// A kept file is kept for as long as was asked for, but never longer than seven days.
pub proof fn law_files_are_kept_for_seven_days(requested: Option<u64>, created: u64)
    requires
        created <= u64::MAX - 7 * 24 * 60 * 60 * 1000,
    ensures
        ({
            let expiry = retention_expiry(requested, created);
            let latest = created + 7 * 24 * 60 * 60 * 1000;
            &&& expiry <= latest
            &&& requested is None ==> expiry == latest
            &&& requested matches Some(wanted) ==> (wanted <= latest ==> expiry == wanted)
            &&& requested matches Some(wanted) ==> (wanted > latest ==> expiry == latest)
        }),
{
}

/// A note on how long a file is kept counts exactly for its transfer, in its version, for a time
/// that is not empty and not longer than seven days.
pub proof fn law_retention_notes_are_for_their_transfer(
    note: PersistedIncomingRetention,
    transfer_id: Seq<u8>,
)
    ensures
        note.created_unix_ms <= u64::MAX - 7 * 24 * 60 * 60 * 1000 ==> (note.is_for(transfer_id)
            <==> {
            &&& note.version == 1
            &&& note.transfer_id@ == uuid_text(transfer_id)
            &&& note.created_unix_ms < note.expires_unix_ms
            &&& note.expires_unix_ms <= note.created_unix_ms + 7 * 24 * 60 * 60 * 1000
        }),
{
}

/// A range is recorded exactly while the transfer is open, with the length that it says, and where
/// no byte of it was recorded before.
pub proof fn law_ranges_are_recorded_where_nothing_was(
    ledger: RangeLedger,
    header: RangeHeader,
    actual_length: u64,
)
    requires
        header.length > 0,
        forall|offset: u64| #[trigger]
            ledger@.contains_key(offset) ==> ledger@[offset].0 > 0,
    ensures
        ledger.refusal(header, actual_length) is None <==> {
            &&& !ledger.is_finalized()
            &&& actual_length == header.length
            &&& forall|position: int|
                header.offset <= position < header.offset + header.length ==> !#[trigger] covers(
                    ledger@,
                    position,
                )
        },
        ledger.is_finalized() ==> ledger.refusal(header, actual_length) == Some(
            ProtocolError::PayloadAfterFinalization,
        ),
        !ledger.is_finalized() && actual_length != header.length ==> ledger.refusal(
            header,
            actual_length,
        ) == Some(ProtocolError::LengthMismatch),
        !ledger.is_finalized() && actual_length == header.length ==> (ledger.refusal(
            header,
            actual_length,
        ) == Some(ProtocolError::DuplicateRange) <==> ledger@.contains_key(header.offset)
            && ledger@[header.offset] == (header.length, header.range_id)),
{
    if !covers(ledger@, header.offset as int) && !starts_within(
        ledger@,
        header.offset as int,
        header.offset + header.length,
    ) {
        assert forall|position: int|
            header.offset <= position < header.offset + header.length implies !#[trigger] covers(
            ledger@,
            position,
        ) by {
            if covers(ledger@, position) {
                let offset = choose|offset: u64| #[trigger]
                    ledger@.contains_key(offset) && offset <= position < offset
                        + ledger@[offset].0;
                if offset <= header.offset {
                    assert(covers(ledger@, header.offset as int));
                } else {
                    assert(starts_within(
                        ledger@,
                        header.offset as int,
                        header.offset + header.length,
                    ));
                }
            }
        }
    }
    if starts_within(ledger@, header.offset as int, header.offset + header.length) {
        let offset = choose|offset: u64| #[trigger]
            ledger@.contains_key(offset) && header.offset <= offset < header.offset
                + header.length;
        assert(covers(ledger@, offset as int));
    }
    if ledger@.contains_key(header.offset) {
        assert(covers(ledger@, header.offset as int));
    }
}

/// A transfer is complete exactly when its version, its length, the number of its ranges and every
/// byte of its file agree.
pub proof fn law_complete_means_every_byte(
    ledger: RangeLedger,
    manifest: CompletionManifest,
    file_size: u64,
)
    ensures
        ledger.incomplete(manifest, file_size) is None <==> {
            &&& manifest.version == 3
            &&& manifest.expected_bytes == file_size
            &&& ledger.received() == file_size
            &&& ledger.range_count() == manifest.expected_ranges
            &&& forall|position: int|
                0 <= position < file_size ==> #[trigger] covers(ledger@, position)
            &&& forall|offset: u64| #[trigger]
                ledger@.contains_key(offset) ==> offset + ledger@[offset].0 <= file_size
        },
        manifest.version == 3 && ledger.incomplete(manifest, file_size) is Some
            ==> ledger.incomplete(manifest, file_size) == Some(ProtocolError::IncompleteTransfer),
{
}

/// A range lies in its file exactly when it is not empty and ends within it.
pub proof fn law_ranges_lie_in_their_file(header: RangeHeader, file_size: u64)
    ensures
        header.in_bounds(file_size) <==> header.length > 0 && header.offset + header.length
            <= file_size,
        header.in_bounds(file_size) ==> header.offset < file_size,
{
}

/// A resumption fits exactly when both descriptions of it hold and agree in everything: the
/// transfer, the session, the generation, the file and its layout, and what both ends can do.
pub proof fn law_resumptions_must_agree(own: ResumeBinding, expected: ResumeBinding)
    ensures
        own.mismatch(expected) is None <==> {
            &&& own.defect() is None
            &&& expected.defect() is None
            &&& own.transfer_id@ == expected.transfer_id@
            &&& own.session_id@ == expected.session_id@
            &&& own.checkpoint_generation == expected.checkpoint_generation
            &&& own.file_size == expected.file_size
            &&& own.block_size == expected.block_size
            &&& own.total_blocks == expected.total_blocks
            &&& own.expected_sha256@ == expected.expected_sha256@
            &&& own.state_digest@ == expected.state_digest@
            &&& own.capabilities == expected.capabilities
        },
        own.mismatch(expected) is None ==> expected.mismatch(own) is None,
        own.defect() is None ==> own.version == 3 && own.session_id@.len() > 0 && own.block_size
            > 0,
        own.defect() is None && expected.defect() is None && own.transfer_id@
            != expected.transfer_id@ ==> own.mismatch(expected) == Some(
            ProtocolError::WrongTransfer,
        ),
        own.defect() is None && expected.defect() is None && own.transfer_id@
            == expected.transfer_id@ && own.session_id@ != expected.session_id@ ==> own.mismatch(
            expected,
        ) == Some(ProtocolError::WrongSession),
        own.defect() is None && expected.defect() is None && own.transfer_id@
            == expected.transfer_id@ && own.session_id@ == expected.session_id@
            && own.checkpoint_generation != expected.checkpoint_generation ==> own.mismatch(
            expected,
        ) == Some(ProtocolError::StaleCheckpoint),
{
}

/// A description of a resumption holds exactly when its blocks make up its file and it can do what
/// resuming needs.
pub proof fn law_resumptions_have_a_layout(own: ResumeBinding)
    ensures
        own.defect() is None <==> {
            &&& own.version == 3
            &&& own.session_id@.len() > 0
            &&& own.block_size > 0
            &&& own.total_blocks == crate::arith::ceil_div(
                own.file_size as int,
                own.block_size as int,
            )
            &&& own.has_capabilities()
        },
        own.version != 3 ==> own.defect() == Some(ProtocolError::UnsupportedVersion(own.version)),
        own.version == 3 && own.has_layout() && !own.has_capabilities() ==> own.defect() == Some(
            ProtocolError::ResumeDowngrade,
        ),
{
}

/// A file is sent over no more streams than it has bytes, and over none when it is empty.
pub proof fn law_every_stream_has_work(file_size: u64, streams: u8)
    requires
        streams > 0,
    ensures
        active_streams(file_size, streams) <= streams,
        active_streams(file_size, streams) <= file_size,
        file_size >= streams ==> active_streams(file_size, streams) == streams,
        file_size < streams ==> active_streams(file_size, streams) == file_size,
        active_streams(file_size, streams) == 0 <==> file_size == 0,
{
}

/// The ranges of a file follow one another, have nearly one size, and the last one ends with the
/// file; each carries its place as its number.
pub proof fn law_ranges_follow_one_another(
    transfer_id: [u8; 16],
    file_size: u64,
    streams: u8,
    index: int,
)
    requires
        0 < streams <= file_size,
        0 <= index < streams,
    ensures
        range_start(file_size, streams, 0) == 0,
        index + 1 < streams ==> range_start(file_size, streams, index) + range_length(
            file_size,
            streams,
            index,
        ) == range_start(file_size, streams, index + 1),
        index + 1 == streams ==> range_start(file_size, streams, index) + range_length(
            file_size,
            streams,
            index,
        ) == file_size,
        range_length(file_size, streams, index) >= file_size as int / streams as int,
        range_length(file_size, streams, index) < file_size as int / streams as int + streams,
        planned(transfer_id, file_size, streams, index).transfer_id == transfer_id,
        planned(transfer_id, file_size, streams, index).flags == 0,
        planned(transfer_id, file_size, streams, index).range_id == index,
{
    let size = file_size as int / streams as int;
    vstd::arithmetic::div_mod::lemma_fundamental_div_mod(file_size as int, streams as int);
    vstd::arithmetic::div_mod::lemma_mod_bound(file_size as int, streams as int);
    assert(size * (index + 1) == size * index + size) by (nonlinear_arith);
    assert(size * 0 == 0) by (nonlinear_arith);
    if index + 1 == streams {
        assert(size * streams == streams * size) by (nonlinear_arith);
    }
}

/// A block is as long as the others, but for the last one, which ends with the file.
pub proof fn law_blocks_end_with_the_file(file_size: u64, block_size: u64, block: int)
    requires
        0 < block_size,
        0 <= block,
        block * block_size < file_size,
    ensures
        0 < block_length(file_size, block_size, block) <= block_size,
        block * block_size + block_length(file_size, block_size, block) <= file_size,
        block_length(file_size, block_size, block) < block_size ==> block * block_size
            + block_length(file_size, block_size, block) == file_size,
{
}

/// What is counted up when work starts is counted down when it ends: the two leave the counters as
/// they were.
pub proof fn law_ended_work_is_not_counted(counters: TransferCounters, reads: bool, bytes: u64)
    requires
        counters.takes(TransferEvent::ReceiverStarted),
        counters.takes(TransferEvent::WriterStarted),
        counters.takes(TransferEvent::SenderStarted(reads)),
        counters.takes(TransferEvent::BufferTaken),
        counters.takes(TransferEvent::CheckpointStarted),
        counters.takes(TransferEvent::BlockQueued(bytes)),
    ensures
        counters.after(TransferEvent::ReceiverStarted).after(TransferEvent::ReceiverEnded)
            == counters,
        counters.after(TransferEvent::WriterStarted).after(TransferEvent::WriterEnded) == counters,
        counters.after(TransferEvent::SenderStarted(reads)).after(TransferEvent::SenderEnded(reads))
            == counters,
        counters.after(TransferEvent::BufferTaken).after(TransferEvent::BufferReturned) == counters,
        counters.after(TransferEvent::CheckpointStarted).after(TransferEvent::CheckpointEnded)
            == counters,
        counters.after(TransferEvent::BlockQueued(bytes)).after(
            TransferEvent::BlockDequeued,
        ).queued_writes == counters.queued_writes,
        counters.after(TransferEvent::ReceiverStarted).active_receiver_streams
            == counters.active_receiver_streams + 1,
        counters.after(TransferEvent::WriterStarted).active_writers == counters.active_writers + 1,
        counters.after(TransferEvent::SenderStarted(reads)).active_sender_streams
            == counters.active_sender_streams + 1,
        reads ==> counters.after(TransferEvent::SenderStarted(reads)).active_readers
            == counters.active_readers + 1,
        counters.after(TransferEvent::BufferTaken).checked_out_buffers
            == counters.checked_out_buffers + 1,
        counters.after(TransferEvent::CheckpointStarted).active_checkpoint_tasks
            == counters.active_checkpoint_tasks + 1,
        counters.after(TransferEvent::BlockQueued(bytes)).queued_writes == counters.queued_writes
            + 1,
        lowered(0) == 0,
{
}

/// Bytes are counted where they are: read, sent, received or written, for the file and for the
/// session alike.
pub proof fn law_bytes_are_counted_where_they_are(counters: TransferCounters, bytes: u64)
    requires
        counters.takes(TransferEvent::BytesRead(bytes)),
        counters.takes(TransferEvent::BytesSent(bytes)),
        counters.takes(TransferEvent::BytesWritten(bytes)),
        counters.takes(TransferEvent::BlockQueued(bytes)),
    ensures
        ({
            let read = counters.after(TransferEvent::BytesRead(bytes));
            let sent = counters.after(TransferEvent::BytesSent(bytes));
            let written = counters.after(TransferEvent::BytesWritten(bytes));
            let queued = counters.after(TransferEvent::BlockQueued(bytes));
            &&& read.bytes_read == counters.bytes_read + bytes
            &&& read.session_bytes_read == counters.session_bytes_read + bytes
            &&& read.bytes_sent == counters.bytes_sent
            &&& sent.bytes_sent == counters.bytes_sent + bytes
            &&& sent.session_bytes_sent == counters.session_bytes_sent + bytes
            &&& sent.bytes_read == counters.bytes_read
            &&& written.bytes_written == counters.bytes_written + bytes
            &&& written.session_bytes_written == counters.session_bytes_written + bytes
            &&& written.bytes_received == counters.bytes_received
            &&& queued.bytes_received == counters.bytes_received + bytes
            &&& queued.session_bytes_received == counters.session_bytes_received + bytes
            &&& queued.bytes_written == counters.bytes_written
        }),
        TransferCounters::untouched().bytes_read == 0,
        TransferCounters::untouched().bytes_sent == 0,
        TransferCounters::untouched().bytes_received == 0,
        TransferCounters::untouched().bytes_written == 0,
        TransferCounters::untouched().active_writers == 0,
        TransferCounters::untouched().queued_writes == 0,
{
}

/// A receiver confirms a file exactly when all of it was sent and arrived whole, under its
/// transfer and with its digest.
pub proof fn law_confirmations_are_of_the_whole_file(
    ack: FileCompletionAck,
    control: FileControl,
    sent: u64,
)
    ensures
        confirms(ack, control, sent) <==> {
            &&& sent == control.file_size
            &&& ack.received_bytes == control.file_size
            &&& ack.transfer_id == control.transfer_id
            &&& ack.sha256 == control.expected_sha256
            &&& ack.integrity_ok
        },
        confirms(ack, control, sent) ==> ack.received_bytes == sent,
{
}

/// What the streams of a file sent together is counted, and the first of their errors is told.
pub proof fn law_the_first_error_is_told(results: Seq<Result<u64, String>>, n: int)
    requires
        0 <= n <= results.len(),
    ensures
        first_failure(results, n) is None <==> forall|i: int|
            0 <= i < n ==> (#[trigger] results[i]) is Ok,
        n > 0 && results[0] is Err ==> first_failure(results, n) == Some(results[0]->Err_0@),
        sent_bytes(results, n) >= 0,
        n > 0 && results[n - 1] is Ok ==> sent_bytes(results, n) == sent_bytes(results, n - 1)
            + results[n - 1]->Ok_0,
        n > 0 && results[n - 1] is Err ==> sent_bytes(results, n) == sent_bytes(results, n - 1),
    decreases n,
{
    if n > 0 {
        law_the_first_error_is_told(results, n - 1);
    }
}

/// What may be chosen for a transfer: how it is synchronized, three numbers of buffers and four
/// sizes of the queue; where nothing was chosen everything is synchronized.
pub proof fn law_settings_are_known_ones(
    sync_mode: Option<Seq<char>>,
    buffers: usize,
    queue: usize,
    block: usize,
)
    ensures
        settings_defect(sync_mode, buffers, queue) is None <==> {
            &&& sync_mode_of(sync_mode) is Some
            &&& buffers == 8 || buffers == 16 || buffers == 32
            &&& queue == 2 || queue == 4 || queue == 8 || queue == 16
        },
        sync_mode is None ==> sync_mode_of(sync_mode) == Some(SyncMode::All),
        sync_mode == Some("none"@) ==> sync_mode_of(sync_mode) == Some(SyncMode::Nothing),
        sync_mode == Some("data"@) ==> sync_mode_of(sync_mode) == Some(SyncMode::Data),
        sync_mode == Some("all"@) ==> sync_mode_of(sync_mode) == Some(SyncMode::All),
        sync_mode_of(sync_mode) is Some ==> sync_mode is None || sync_mode == Some("none"@)
            || sync_mode == Some("data"@) || sync_mode == Some("all"@),
        valid_block_size(block) <==> block == 1024 * 1024 || block == 2 * 1024 * 1024 || block == 4
            * 1024 * 1024 || block == 8 * 1024 * 1024,
{
    reveal_strlit("none");
    reveal_strlit("data");
    reveal_strlit("all");
    assert("none"@[0] == 'n' && "data"@[0] == 'd' && "all"@[0] == 'a');
}

/// An entry is that of its block: it starts where the block does, and is as long as the block or
/// as what is left of the file.
pub proof fn law_block_entries_fit_their_block(
    block: u64,
    digest: [u8; 32],
    generation: u64,
    file_size: u64,
    block_size: u64,
    total_blocks: u64,
)
    requires
        block < total_blocks,
        block * block_size < file_size,
    ensures
        ({
            let entry = entry_at(block, digest, generation, file_size, block_size);
            &&& entry_fits(entry, generation, file_size, block_size, total_blocks)
            &&& entry.block_index == block
            &&& entry.digest == digest
            &&& entry.checkpoint_generation == generation
            &&& entry.absolute_offset == block * block_size
            &&& entry.valid_length <= block_size
            &&& entry.absolute_offset + entry.valid_length <= file_size
            &&& entry.valid_length < block_size ==> entry.absolute_offset + entry.valid_length
                == file_size
        }),
{
}

/// A stored list of hashes is trusted exactly when it is of the invitation and the part file, it
/// is well formed, and its tag was made over all of it with the key.
pub proof fn law_hash_lists_are_trusted_by_their_tag(
    manifest: BlockHashManifest,
    key: Seq<u8>,
    invitation_id: Seq<u8>,
    part_identity_digest: Seq<u8>,
)
    ensures
        manifest.distrust(key, invitation_id, part_identity_digest) is None <==> {
            &&& manifest.invitation_id@ == invitation_id
            &&& manifest.part_identity_digest@ == part_identity_digest
            &&& manifest.defect() is None
            &&& manifest.entries@.len() <= u32::MAX
            &&& manifest.authentication_tag == hmac_sha256_tag(key, manifest.payload())
        },
        manifest.defect() is None ==> {
            &&& manifest.format_version == 2
            &&& manifest.protocol_version == 3
            &&& manifest.block_size > 0
            &&& manifest.entries@.len() <= manifest.total_blocks
            &&& manifest.total_blocks == crate::arith::ceil_div(
                manifest.file_size as int,
                manifest.block_size as int,
            )
        },
{
}

/// A list of hashes is used exactly when it is of the transfer and the generation that are asked
/// for and, where that is asked for too, is trusted and is the one that was noted.
pub proof fn law_hash_lists_are_used_for_their_generation(
    expected: SidecarExpectation,
    manifest: BlockHashManifest,
)
    ensures
        expected.objection(manifest) is None <==> {
            &&& manifest.transfer_id@ == expected.transfer_id@
            &&& manifest.checkpoint_generation == expected.generation
            &&& expected.authentication matches Some(required) ==> manifest.distrust(
                required.checkpoint_key@,
                required.invitation_id@,
                required.part_identity_digest@,
            ) is None && sha256_digest(manifest.stored_bytes())@ == required.sidecar_digest@
        },
        manifest.transfer_id@ != expected.transfer_id@ || manifest.checkpoint_generation
            != expected.generation ==> expected.objection(manifest) == Some(
            "block-hash-generation-mismatch"@,
        ),
{
}

/// Every known hash has its entry, in the order of the blocks, and nothing else has.
pub proof fn law_known_hashes_have_entries(
    hashes: Seq<Option<[u8; 32]>>,
    generation: u64,
    file_size: u64,
    block_size: u64,
    n: nat,
    block: int,
)
    requires
        n <= hashes.len(),
        hashes.len() <= u64::MAX,
        0 <= block < n,
    ensures
        hashes[block] is Some <==> exists|i: int|
            0 <= i < entries_for(hashes, generation, file_size, block_size, n).len() && (
            #[trigger] entries_for(hashes, generation, file_size, block_size, n)[i]).block_index
                == block,
        entries_for(hashes, generation, file_size, block_size, n).len() <= n,
        forall|i: int|
            0 <= i < entries_for(hashes, generation, file_size, block_size, n).len() ==> (
            #[trigger] entries_for(hashes, generation, file_size, block_size, n)[i]).block_index
                < n,
    decreases n,
{
    let before = entries_for(hashes, generation, file_size, block_size, (n - 1) as nat);
    let now = entries_for(hashes, generation, file_size, block_size, n);
    lemma_entries_are_below(hashes, generation, file_size, block_size, (n - 1) as nat);
    if block < n - 1 {
        law_known_hashes_have_entries(
            hashes,
            generation,
            file_size,
            block_size,
            (n - 1) as nat,
            block,
        );
        if hashes[block] is Some {
            let i = choose|i: int|
                0 <= i < before.len() && (#[trigger] before[i]).block_index == block;
            assert(now[i].block_index == block);
        } else {
            assert forall|i: int| 0 <= i < now.len() implies (#[trigger] now[i]).block_index
                != block by {
                if i < before.len() {
                    assert(now[i] == before[i]);
                }
            }
        }
    } else {
        if hashes[block] is Some {
            assert(now[now.len() - 1].block_index == block);
        } else {
            assert(now == before);
        }
    }
    lemma_entries_are_below(hashes, generation, file_size, block_size, n);
}

proof fn lemma_entries_are_below(
    hashes: Seq<Option<[u8; 32]>>,
    generation: u64,
    file_size: u64,
    block_size: u64,
    n: nat,
)
    requires
        n <= hashes.len(),
        hashes.len() <= u64::MAX,
    ensures
        entries_for(hashes, generation, file_size, block_size, n).len() <= n,
        forall|i: int|
            0 <= i < entries_for(hashes, generation, file_size, block_size, n).len() ==> (
            #[trigger] entries_for(hashes, generation, file_size, block_size, n)[i]).block_index
                < n,
    decreases n,
{
    if n > 0 {
        lemma_entries_are_below(hashes, generation, file_size, block_size, (n - 1) as nat);
        let before = entries_for(hashes, generation, file_size, block_size, (n - 1) as nat);
        let now = entries_for(hashes, generation, file_size, block_size, n);
        assert forall|i: int| 0 <= i < now.len() implies (#[trigger] now[i]).block_index < n by {
            if i < before.len() {
                assert(now[i] == before[i]);
            }
        }
    }
}

/// The bytes of a payload from memory tell its ranges apart: from one range to the next the byte
/// moves on by thirty-seven, past the highest to the lowest.
pub proof fn law_ranges_from_memory_differ(index: int)
    requires
        0 <= index,
    ensures
        filler(index + 1) == filler(index) + 37 || filler(index + 1) == filler(index) + 37 - 256,
        filler(index) != filler(index + 1),
        filler(0) == 11,
{
    let place = index * 37 + 11;
    let byte = place % 256;
    assert(place == 256 * (place / 256) + byte);
    assert((index + 1) * 37 + 11 == place + 37);
    if byte + 37 < 256 {
        vstd::arithmetic::div_mod::lemma_fundamental_div_mod_converse(
            place + 37,
            256,
            place / 256,
            byte + 37,
        );
    } else {
        vstd::arithmetic::div_mod::lemma_fundamental_div_mod_converse(
            place + 37,
            256,
            place / 256 + 1,
            byte + 37 - 256,
        );
    }
}

/// A payload from memory grows by whole ranges, each filled with its own byte.
pub proof fn law_payloads_from_memory_are_made_of_ranges(
    file_size: u64,
    streams: u8,
    count: int,
    i: int,
)
    requires
        0 <= count,
        0 <= range_length(file_size, streams, count),
        0 <= i < memory_payload(file_size, streams, count + 1).len(),
    ensures
        ({
            let before = memory_payload(file_size, streams, count);
            let after = memory_payload(file_size, streams, count + 1);
            &&& memory_payload(file_size, streams, 0).len() == 0
            &&& after.len() == before.len() + range_length(file_size, streams, count)
            &&& i < before.len() ==> after[i] == before[i]
            &&& i >= before.len() ==> after[i] == filler(count)
        }),
{
}

/// A transfer with itself takes its payload from memory exactly when it is told to.
pub proof fn law_loopbacks_read_files_unless_told(request: NativeFileLoopbackRequest)
    ensures
        request.from_memory() <==> request.source_mode is Some && request.source_mode->Some_0@
            == "memory"@,
{
}

/// A checkpoint is written when the digest is known, both paths name a file and the entries can be
/// counted.
pub proof fn law_checkpoints_need_a_digest_and_names(
    progress: TransferProgress,
    style: PathStyle,
    destination_path: Seq<char>,
    part_path: Seq<char>,
)
    ensures
        ({
            let defect = progress.checkpoint_defect(style, destination_path, part_path);
            let named = progress.expected_sha256 is Some && file_name_of(style, destination_path)
                is Some && file_name_of(style, part_path) is Some;
            let entries = entries_for(
                progress.blocks.hashes@,
                (progress.checkpoint_generation + 1) as u64,
                progress.blocks.file_size,
                progress.blocks.block_size,
                progress.blocks.total_blocks as nat,
            );
            &&& defect is None <==> named && entries.len() <= u32::MAX
            &&& !named <==> defect == Some("resume-state-invalid"@)
        }),
{
    reveal_strlit("resume-state-invalid");
    reveal_strlit("block-hash-layout-invalid");
    assert("resume-state-invalid"@[0] == 'r' && "block-hash-layout-invalid"@[0] == 'b');
}

/// An entry that fits tells where its block is: at its number of whole blocks, for one block or up
/// to the end of the file.
pub proof fn law_fitting_entries_tell_their_block(
    entry: BlockHashEntry,
    generation: u64,
    file_size: u64,
    block_size: u64,
    total_blocks: u64,
)
    ensures
        entry_fits(entry, generation, file_size, block_size, total_blocks) <==> {
            let rest = file_size - entry.absolute_offset;
            &&& entry.checkpoint_generation == generation
            &&& entry.block_index < total_blocks
            &&& entry.absolute_offset == entry.block_index * block_size
            &&& entry.valid_length == block_size || entry.valid_length == rest
            &&& entry.valid_length <= block_size
            &&& entry.valid_length <= rest
        },
{
}

/// Before anything has happened nothing is counted.
pub proof fn law_nothing_is_counted_at_first()
    ensures
        ({
            let counters = TransferCounters::untouched();
            &&& counters.session_bytes_read == 0 && counters.session_bytes_sent == 0
            &&& counters.session_bytes_received == 0 && counters.session_bytes_written == 0
            &&& counters.active_receiver_streams == 0 && counters.active_sender_streams == 0
            &&& counters.active_readers == 0 && counters.checked_out_buffers == 0
            &&& counters.active_checkpoint_tasks == 0
        }),
{
}

} // verus!
