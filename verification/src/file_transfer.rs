//! The transfer of one file between two endpoints: how it is planned, how its ranges are read,
//! checked and written, and how it ends.

use crate::arith::{ceil_div, div_ceil, min_u64};
use crate::authorization::{
    invitation_for, material_for_transfer, refreshed, withheld, AuthorizationMaterial,
    AuthorizationRegistry,
};
use crate::bitmap::{bit_set, bitmap_fits, is_set, set_bit, set_count};
use crate::block_hash::{entries_for, from_hashes, BlockHashManifest};
use crate::bytes::{bytes_equal, copy_of};
use crate::config::{valid_stream_count, NativeQuicConfig};
use crate::crypto::{digest_of, hmac_sha256_tag, sha256_digest, StreamDigest};
use crate::encoding::{uuid_string, uuid_text};
use crate::lifecycle::{after_transition, Lifecycle, TransferState};
use crate::paths::{
    file_name, file_name_of, first_name, join_path, joined_path, next_name, nth_name, NameChoice,
    PathStyle, LAST_DUPLICATE_INDEX,
};
use crate::protocol::{
    contains_separator, has_separator, CompletionManifest, ProtocolError, RangeHeader, RangeLedger,
    NATIVE_QUIC_PROTOCOL_VERSION,
};
use crate::text::{append_text, same_text};
use vstd::prelude::*;

verus! {

/// How many buffers a receiver has when nothing else is asked for.
pub const DEFAULT_RECEIVER_BUFFER_COUNT: usize = 16;

/// How many blocks wait for the disk per stream when nothing else is asked for.
pub const DEFAULT_PER_STREAM_WRITE_QUEUE: usize = 4;

/// The size of a payload from memory when none is asked for.
pub const DEFAULT_MEMORY_BYTES: u64 = 1_073_741_824;

/// The time in milliseconds, given the milliseconds since the start of 1970 where the clock
/// stands behind that: a clock before it gives zero, one too far ahead the largest time.
pub fn now_unix_ms(since_epoch: Option<u128>) -> (now: u64)
    ensures
        now == match since_epoch {
            None => 0int,
            Some(millis) => if millis > u64::MAX {
                u64::MAX as int
            } else {
                millis as int
            },
        },
{
    match since_epoch {
        None => 0,
        Some(millis) => if millis > u64::MAX as u128 {
            u64::MAX
        } else {
            millis as u64
        },
    }
}

/// Why the last component of a source path cannot name the file at the other end, if it cannot.
pub open spec fn name_defect(style: PathStyle, source: Seq<char>) -> Option<Seq<char>> {
    match file_name_of(style, source) {
        None => Some("invalid-source-file-name"@),
        Some(name) => if name.len() == 0 || name == "."@ || name == ".."@ || has_separator(name) {
            Some("unsafe-source-file-name"@)
        } else {
            None
        },
    }
}

/// The name under which a source file is offered.
pub fn safe_name(style: PathStyle, source: &str) -> (result: Result<String, String>)
    ensures
        match result {
            Ok(name) => name_defect(style, source@) is None && file_name_of(style, source@) == Some(
                name@,
            ),
            Err(error) => name_defect(style, source@) == Some(error@),
        },
{
    let name = match file_name(style, source) {
        Some(name) => name,
        None => {
            return Err("invalid-source-file-name".to_owned());
        },
    };
    proof {
        reveal_strlit("");
        assert(name@.len() == 0 ==> name@ =~= ""@);
    }
    if same_text(name.as_str(), "") || same_text(name.as_str(), ".") || same_text(
        name.as_str(),
        "..",
    ) || contains_separator(name.as_str()) {
        return Err("unsafe-source-file-name".to_owned());
    }
    Ok(name)
}

/// Where the search for a free destination stands.
#[derive(Debug, Clone, PartialEq, Eq)]
pub enum DestinationChoice {
    /// Write to this path.
    Use(String),
    /// Ask whether something exists at this path, and go on from its number.
    Probe(u32, String),
}

/// One step of the search for the path of a new file in `directory`. The first step has no
/// `answer`; each later one brings the number of the path that was asked about and whether
/// something exists there. With `overwrite` the requested name is used as it is. The numbers run
/// up to the last one and no further.
pub fn duplicate_name(
    style: PathStyle,
    directory: &str,
    name: &str,
    overwrite: bool,
    answer: Option<(u32, bool)>,
) -> (result: Result<DestinationChoice, String>)
    ensures
        match answer {
            None => if overwrite {
                result matches Ok(DestinationChoice::Use(path)) && path@ == joined_path(
                    style,
                    directory@,
                    name@,
                )
            } else {
                result matches Ok(DestinationChoice::Probe(index, path)) && index == 0 && path@
                    == joined_path(style, directory@, name@)
            },
            Some((index, exists)) => if !exists {
                result matches Ok(DestinationChoice::Use(path)) && path@ == joined_path(
                    style,
                    directory@,
                    nth_name(style, name@, index),
                )
            } else if index < LAST_DUPLICATE_INDEX {
                result matches Ok(DestinationChoice::Probe(next, path)) && next == index + 1
                    && path@ == joined_path(style, directory@, nth_name(style, name@, next))
            } else {
                result matches Err(error) && error@ == "destination-name-exhausted"@
            },
        },
{
    let choice = match answer {
        None => first_name(name, overwrite),
        Some((index, exists)) => next_name(style, name, index, exists),
    };
    match choice {
        NameChoice::Use(text) => Ok(
            DestinationChoice::Use(join_path(style, directory, text.as_str())),
        ),
        NameChoice::Probe(index, text) => Ok(
            DestinationChoice::Probe(index, join_path(style, directory, text.as_str())),
        ),
        NameChoice::Exhausted => Err("destination-name-exhausted".to_owned()),
    }
}

/// The name of the file that holds a transfer while it runs.
pub open spec fn part_name(name: Seq<char>, transfer_id: Seq<u8>) -> Seq<char> {
    "."@ + name + "."@ + uuid_text(transfer_id) + ".part"@
}

/// The name of the file that holds the checkpoint of a transfer.
pub open spec fn resume_name(name: Seq<char>, transfer_id: Seq<u8>) -> Seq<char> {
    "."@ + name + "."@ + uuid_text(transfer_id) + ".resume.current"@
}

/// The names of the part file and of the checkpoint of a transfer.
pub fn working_names(name: &str, transfer_id: &[u8; 16]) -> (names: (String, String))
    ensures
        names.0@ == part_name(name@, transfer_id@),
        names.1@ == resume_name(name@, transfer_id@),
{
    let id = uuid_string(transfer_id);
    let mut part: String = ".".to_owned();
    append_text(&mut part, name);
    append_text(&mut part, ".");
    append_text(&mut part, id.as_str());
    append_text(&mut part, ".part");
    let mut resume: String = ".".to_owned();
    append_text(&mut resume, name);
    append_text(&mut resume, ".");
    append_text(&mut resume, id.as_str());
    append_text(&mut resume, ".resume.current");
    (part, resume)
}

/// How many streams carry data: none for an empty file, and never more than there are bytes.
pub open spec fn active_streams(file_size: u64, streams: u8) -> u8 {
    if file_size == 0 {
        0
    } else if file_size < streams {
        file_size as u8
    } else {
        streams
    }
}

/// How many streams carry data.
pub fn data_streams(file_size: u64, streams: u8) -> (active: u8)
    ensures
        active == active_streams(file_size, streams),
{
    if file_size < streams as u64 {
        file_size as u8
    } else if file_size == 0 {
        0
    } else {
        streams
    }
}

/// Where the range of a stream starts.
pub open spec fn range_start(file_size: u64, streams: u8, index: int) -> int {
    (file_size as int / streams as int) * index
}

/// How long the range of a stream is: the last stream takes what the others leave.
pub open spec fn range_length(file_size: u64, streams: u8, index: int) -> int {
    if index + 1 == streams {
        file_size - range_start(file_size, streams, index)
    } else {
        file_size as int / streams as int
    }
}

proof fn lemma_range(file_size: u64, streams: u8, index: int)
    requires
        0 <= index < streams,
    ensures
        0 <= range_start(file_size, streams, index) <= file_size,
        0 <= range_length(file_size, streams, index),
        range_start(file_size, streams, index) + range_length(file_size, streams, index)
            <= file_size,
        file_size >= streams ==> range_length(file_size, streams, index) > 0,
{
    let size = file_size as int;
    let count = streams as int;
    let base = size / count;
    assert(0 <= base * index && base * index + base <= size && (size >= count ==> base >= 1))
        by (nonlinear_arith)
        requires
            base == size / count,
            0 <= index < count,
            0 <= size,
    ;
}

/// Offset and length of the range of the stream with the given number.
pub fn range_for(file_size: u64, streams: u8, index: u8) -> (range: (u64, u64))
    requires
        index < streams,
    ensures
        range.0 == range_start(file_size, streams, index as int),
        range.1 == range_length(file_size, streams, index as int),
{
    proof {
        lemma_range(file_size, streams, index as int);
    }
    let base: u64 = file_size / streams as u64;
    let offset: u64 = base * index as u64;
    let length: u64 = if index == streams - 1 {
        file_size - offset
    } else {
        base
    };
    (offset, length)
}

/// The ranges of all streams lie behind one another without gap or overlap: the first starts
/// the file, each starts where the one before it ends, and the last ends the file. With no more
/// streams than bytes none is empty.
pub proof fn law_ranges_tile_the_file(file_size: u64, streams: u8, index: int)
    requires
        0 <= index < streams,
    ensures
        range_start(file_size, streams, 0) == 0,
        index + 1 < streams ==> range_start(file_size, streams, index + 1) == range_start(
            file_size,
            streams,
            index,
        ) + range_length(file_size, streams, index),
        index + 1 == streams ==> range_start(file_size, streams, index) + range_length(
            file_size,
            streams,
            index,
        ) == file_size,
        streams <= file_size ==> range_length(file_size, streams, index) > 0,
{
    lemma_range(file_size, streams, index);
    let base = file_size as int / streams as int;
    assert(base * 0 == 0 && base * (index + 1) == base * index + base) by (nonlinear_arith);
}

/// The byte that fills the range of a stream when the payload comes from memory.
pub open spec fn filler(index: int) -> u8 {
    ((index * 37 + 11) % 256) as u8
}

/// The byte that fills the range of the stream with the given number.
pub fn filler_byte(index: u8) -> (byte: u8)
    ensures
        byte == filler(index as int),
{
    let wide: u32 = index as u32 * 37 + 11;
    (wide % 256) as u8
}

/// The first `count` ranges of a payload from memory.
pub open spec fn memory_payload(file_size: u64, streams: u8, count: int) -> Seq<u8>
    decreases count,
{
    if count <= 0 {
        Seq::empty()
    } else {
        memory_payload(file_size, streams, count - 1) + Seq::new(
            range_length(file_size, streams, count - 1) as nat,
            |i: int| filler(count - 1),
        )
    }
}

fn filled(byte: u8, length: usize) -> (block: Vec<u8>)
    ensures
        block@ == Seq::new(length as nat, |i: int| byte),
{
    let mut block: Vec<u8> = Vec::new();
    while block.len() < length
        invariant
            block@ == Seq::new(block@.len(), |i: int| byte),
            block@.len() <= length,
        decreases length - block@.len(),
    {
        block.push(byte);
    }
    block
}

/// The digest of a payload from memory: every range is filled with the byte of its stream.
pub fn deterministic_range_hash(file_size: u64, streams: u8, block_bytes: usize) -> (digest: [u8;
    32])
    requires
        block_bytes > 0,
    ensures
        digest == sha256_digest(
            memory_payload(
                file_size,
                active_streams(file_size, streams),
                active_streams(file_size, streams) as int,
            ),
        ),
{
    let active: u8 = data_streams(file_size, streams);
    let mut hash = StreamDigest::new();
    let mut index: u8 = 0;
    while index < active
        invariant
            index <= active,
            block_bytes > 0,
            crate::crypto::collected_bytes(hash) == memory_payload(
                file_size,
                active,
                index as int,
            ),
        decreases active - index,
    {
        let (_, length) = range_for(file_size, active, index);
        let block = filled(filler_byte(index), block_bytes);
        let mut remaining: u64 = length;
        let ghost before = memory_payload(file_size, active, index as int);
        assert(before + Seq::new(0, |i: int| filler(index as int)) =~= before);
        while remaining != 0
            invariant
                block_bytes > 0,
                remaining <= length,
                block@ == Seq::new(block_bytes as nat, |i: int| filler(index as int)),
                crate::crypto::collected_bytes(hash) == before + Seq::new(
                    (length - remaining) as nat,
                    |i: int| filler(index as int),
                ),
            decreases remaining,
        {
            let count: u64 = min_u64(remaining, block_bytes as u64);
            let piece = vstd::slice::slice_subrange(block.as_slice(), 0, count as usize);
            hash.update(piece);
            proof {
                assert(Seq::new((length - remaining) as nat, |i: int| filler(index as int))
                    + piece@ =~= Seq::new(
                    (length - remaining + count) as nat,
                    |i: int| filler(index as int),
                ));
                assert(before + Seq::new((length - remaining) as nat, |i: int| filler(index as int))
                    + piece@ =~= before + Seq::new(
                    (length - remaining + count) as nat,
                    |i: int| filler(index as int),
                ));
            }
            remaining = remaining - count;
        }
        proof {
            assert(memory_payload(file_size, active, index + 1) == before + Seq::new(
                length as nat,
                |i: int| filler(index as int),
            ));
        }
        index += 1;
    }
    hash.finish()
}


/// What a transfer between two endpoints of one process is asked to do.
#[derive(Debug, Clone)]
pub struct NativeFileLoopbackRequest {
    pub source_path: Option<String>,
    pub source_mode: Option<String>,
    pub total_bytes: Option<u64>,
    pub destination_directory: String,
    pub stream_count: Option<u8>,
    pub block_bytes: Option<usize>,
    pub overwrite: Option<bool>,
    pub retain_partial: Option<bool>,
    pub sync_mode: Option<String>,
    pub receiver_buffer_count: Option<usize>,
    pub write_queue_capacity: Option<usize>,
}

/// Where the payload comes from.
#[derive(Debug, Clone, PartialEq, Eq)]
pub enum LoopbackSource {
    /// As many bytes, made up.
    Memory(u64),
    /// The file at this path.
    File(String),
}

impl NativeFileLoopbackRequest {
    /// Whether the payload is made up in memory.
    pub open spec fn from_memory(self) -> bool {
        self.source_mode matches Some(mode) && mode@ == "memory"@
    }

    /// Where the payload comes from.
    pub fn source(&self) -> (result: Result<LoopbackSource, String>)
        ensures
            if self.from_memory() {
                result matches Ok(LoopbackSource::Memory(size)) && size == match self.total_bytes {
                    Some(bytes) => bytes,
                    None => DEFAULT_MEMORY_BYTES,
                }
            } else {
                match self.source_path {
                    Some(wanted) => result matches Ok(LoopbackSource::File(path)) && path@
                        == wanted@,
                    None => result matches Err(error) && error@ == "sourcePath is required"@,
                }
            },
    {
        let from_memory = match &self.source_mode {
            Some(mode) => same_text(mode.as_str(), "memory"),
            None => false,
        };
        if from_memory {
            return Ok(
                LoopbackSource::Memory(
                    match self.total_bytes {
                        Some(bytes) => bytes,
                        None => DEFAULT_MEMORY_BYTES,
                    },
                ),
            );
        }
        match &self.source_path {
            Some(path) => Ok(LoopbackSource::File(path.clone())),
            None => Err("sourcePath is required".to_owned()),
        }
    }

    /// The number of streams that is asked for.
    pub open spec fn streams(self) -> u8 {
        match self.stream_count {
            Some(count) => count,
            None => 4,
        }
    }

    /// Why no connection can be set up as asked for, if none can.
    pub open spec fn config_defect(self) -> Option<Seq<char>> {
        if !valid_stream_count(self.streams()) {
            Some("Native QUIC stream count must be 1, 2, 4, or 8."@)
        } else if self.block_bytes matches Some(bytes) && !valid_block_size(bytes) {
            Some("block size must be 1, 2, 4, or 8 MiB"@)
        } else {
            None
        }
    }

    /// The settings of the connection.
    pub fn config(&self) -> (result: Result<NativeQuicConfig, String>)
        ensures
            match result {
                Ok(config) => {
                    &&& self.config_defect() is None
                    &&& config.stream_count == self.streams()
                    &&& config.block_bytes == match self.block_bytes {
                        Some(bytes) => bytes as int,
                        None => 2_097_152,
                    }
                    &&& config.connection_window_bytes == 268_435_456
                    &&& config.stream_window_bytes == 67_108_864
                    &&& config.send_window_bytes == 268_435_456
                    &&& config.keep_alive_seconds == 10
                    &&& config.buffer_pool_blocks == if self.streams() == 8 {
                        16int
                    } else {
                        8
                    }
                },
                Err(error) => self.config_defect() == Some(error@),
            },
    {
        let mut config = match NativeQuicConfig::desktop(
            match self.stream_count {
                Some(count) => count,
                None => 4,
            },
        ) {
            Ok(config) => config,
            Err(error) => {
                return Err(error);
            },
        };
        if let Some(bytes) = self.block_bytes {
            if !is_block_size(bytes) {
                return Err("block size must be 1, 2, 4, or 8 MiB".to_owned());
            }
            config.block_bytes = bytes;
        }
        Ok(config)
    }

    /// What the request leaves to its defaults: whether an existing file is replaced, whether
    /// partial files are kept, how many buffers there are and how many blocks wait for the disk.
    pub fn choices(&self) -> (choices: (bool, bool, usize, usize))
        ensures
            choices.0 == (self.overwrite == Some(true)),
            choices.1 == (self.retain_partial != Some(false)),
            choices.2 == match self.receiver_buffer_count {
                Some(count) => count,
                None => DEFAULT_RECEIVER_BUFFER_COUNT,
            },
            choices.3 == match self.write_queue_capacity {
                Some(count) => count,
                None => DEFAULT_PER_STREAM_WRITE_QUEUE,
            },
    {
        (
            match self.overwrite {
                Some(overwrite) => overwrite,
                None => false,
            },
            match self.retain_partial {
                Some(retain) => retain,
                None => true,
            },
            match self.receiver_buffer_count {
                Some(count) => count,
                None => DEFAULT_RECEIVER_BUFFER_COUNT,
            },
            match self.write_queue_capacity {
                Some(count) => count,
                None => DEFAULT_PER_STREAM_WRITE_QUEUE,
            },
        )
    }
}

/// Whether a block may have this size: one, two, four or eight mebibytes.
pub open spec fn valid_block_size(bytes: usize) -> bool {
    bytes == 1_048_576 || bytes == 2_097_152 || bytes == 4_194_304 || bytes == 8_388_608
}

fn is_block_size(bytes: usize) -> (valid: bool)
    ensures
        valid == valid_block_size(bytes),
{
    bytes == 1_048_576 || bytes == 2_097_152 || bytes == 4_194_304 || bytes == 8_388_608
}

/// How much is forced to the disk before a file is complete.
#[derive(Debug, Clone, Copy, PartialEq, Eq, Structural)]
pub enum SyncMode {
    Nothing,
    Data,
    All,
}

/// The mode with the given name.
pub open spec fn sync_mode_of(name: Option<Seq<char>>) -> Option<SyncMode> {
    match name {
        None => Some(SyncMode::All),
        Some(text) => if text == "none"@ {
            Some(SyncMode::Nothing)
        } else if text == "data"@ {
            Some(SyncMode::Data)
        } else if text == "all"@ {
            Some(SyncMode::All)
        } else {
            None
        },
    }
}

/// Why a transfer cannot run with these settings, if it cannot.
pub open spec fn settings_defect(
    sync_mode: Option<Seq<char>>,
    receiver_buffer_count: usize,
    write_queue_capacity: usize,
) -> Option<Seq<char>> {
    if sync_mode_of(sync_mode) is None {
        Some("sync mode must be none, data, or all"@)
    } else if receiver_buffer_count != 8 && receiver_buffer_count != 16 && receiver_buffer_count
        != 32 {
        Some("receiver buffer count must be 8, 16, or 32"@)
    } else if write_queue_capacity != 2 && write_queue_capacity != 4 && write_queue_capacity != 8
        && write_queue_capacity != 16 {
        Some("write queue capacity must be 2, 4, 8, or 16"@)
    } else {
        None
    }
}

/// Checks the settings of a transfer and says what is forced to the disk. Without a name
/// everything is.
pub fn check_transfer_settings(
    sync_mode: &Option<String>,
    receiver_buffer_count: usize,
    write_queue_capacity: usize,
) -> (result: Result<SyncMode, String>)
    ensures
        ({
            let name = match *sync_mode {
                Some(text) => Some(text@),
                None => None,
            };
            let defect = settings_defect(name, receiver_buffer_count, write_queue_capacity);
            match result {
                Ok(mode) => defect is None && sync_mode_of(name) == Some(mode),
                Err(error) => defect == Some(error@),
            }
        }),
{
    proof {
        reveal_strlit("none");
        reveal_strlit("data");
        reveal_strlit("all");
    }
    let mode = match sync_mode {
        None => SyncMode::All,
        Some(text) => if same_text(text.as_str(), "none") {
            SyncMode::Nothing
        } else if same_text(text.as_str(), "data") {
            SyncMode::Data
        } else if same_text(text.as_str(), "all") {
            SyncMode::All
        } else {
            return Err("sync mode must be none, data, or all".to_owned());
        },
    };
    if receiver_buffer_count != 8 && receiver_buffer_count != 16 && receiver_buffer_count != 32 {
        return Err("receiver buffer count must be 8, 16, or 32".to_owned());
    }
    if write_queue_capacity != 2 && write_queue_capacity != 4 && write_queue_capacity != 8
        && write_queue_capacity != 16 {
        return Err("write queue capacity must be 2, 4, 8, or 16".to_owned());
    }
    Ok(mode)
}

/// The most memory that the blocks in flight take, and the most bytes that wait for the disk.
pub fn peak_memory(config: &NativeQuicConfig, receiver_buffer_count: usize, write_queue_capacity: usize)
    -> (peaks: (u64, u64))
    requires
        config.block_bytes * (config.buffer_pool_blocks + receiver_buffer_count) <= usize::MAX,
        config.buffer_pool_blocks + receiver_buffer_count <= usize::MAX,
        config.block_bytes * config.stream_count <= usize::MAX,
        config.block_bytes * config.stream_count * write_queue_capacity <= usize::MAX,
    ensures
        peaks.0 == config.block_bytes * (config.buffer_pool_blocks + receiver_buffer_count),
        peaks.1 == config.block_bytes * config.stream_count * write_queue_capacity,
{
    let pooled: usize = config.block_bytes * (config.buffer_pool_blocks + receiver_buffer_count);
    let pending: usize = config.block_bytes * config.stream_count as usize * write_queue_capacity;
    (pooled as u64, pending as u64)
}

/// The message that opens a transfer on the control stream.
#[derive(Debug, Clone, Copy, PartialEq, Eq)]
pub struct FileControl {
    pub transfer_id: [u8; 16],
    pub file_size: u64,
    pub stream_count: u8,
    pub expected_sha256: [u8; 32],
}

/// The message that confirms a whole file.
#[derive(Debug, Clone, Copy, PartialEq, Eq)]
pub struct FileCompletionAck {
    pub transfer_id: [u8; 16],
    pub received_bytes: u64,
    pub sha256: [u8; 32],
    pub integrity_ok: bool,
}

/// The messages that a receiver takes from the network, each with its own bound.
#[derive(Debug, Clone, Copy, PartialEq, Eq, Structural)]
pub enum ControlFrame {
    Metadata,
    Manifest,
    Acknowledgement,
}

/// Checks the announced length of a message before it is read.
pub fn check_frame_length(frame: ControlFrame, length: u32) -> (result: Result<(), String>)
    ensures
        match result {
            Ok(()) => match frame {
                ControlFrame::Metadata => length <= 8192,
                ControlFrame::Manifest => length <= 4096,
                ControlFrame::Acknowledgement => length <= 8192,
            },
            Err(error) => match frame {
                ControlFrame::Metadata => length > 8192 && error@ == "control-frame-too-large"@,
                ControlFrame::Manifest => length > 4096 && error@ == "completion-frame-too-large"@,
                ControlFrame::Acknowledgement => length > 8192 && error@
                    == "completion-frame-too-large"@,
            },
        },
{
    match frame {
        ControlFrame::Metadata => if length > 8192 {
            Err("control-frame-too-large".to_owned())
        } else {
            Ok(())
        },
        ControlFrame::Manifest => if length > 4096 {
            Err("completion-frame-too-large".to_owned())
        } else {
            Ok(())
        },
        ControlFrame::Acknowledgement => if length > 8192 {
            Err("completion-frame-too-large".to_owned())
        } else {
            Ok(())
        },
    }
}

/// Checks that the opening message is about the transfer that was agreed on.
pub fn check_control(control: &FileControl, expected: &FileControl) -> (result: Result<(), String>)
    ensures
        match result {
            Ok(()) => *control == *expected,
            Err(error) => *control != *expected && error@ == "wrong-transfer-control"@,
        },
{
    if !bytes_equal(&control.transfer_id, &expected.transfer_id) || control.file_size
        != expected.file_size || control.stream_count != expected.stream_count || !bytes_equal(
        &control.expected_sha256,
        &expected.expected_sha256,
    ) {
        return Err("wrong-transfer-control".to_owned());
    }
    assert(control.transfer_id =~= expected.transfer_id);
    assert(control.expected_sha256 =~= expected.expected_sha256);
    Ok(())
}

/// Why a transfer was stopped from outside.
#[derive(Debug, Clone, Copy, PartialEq, Eq, Structural)]
pub enum StopReason {
    Pause,
    CancelRetain,
    CancelDelete,
    Disconnect,
}

/// What becomes of a transfer that did not finish.
#[derive(Debug, Clone, Copy, PartialEq, Eq, Structural)]
pub enum FailureOutcome {
    /// A checkpoint is written and the transfer rests in this state.
    Checkpoint(TransferState),
    /// Everything is removed, the authorization is revoked, and the transfer is cancelled.
    Discard,
    /// The transfer has failed.
    Fail,
}

/// What becomes of a transfer that broke off: it is checkpointed in the state that it was stopped
/// in, its data is discarded, or it has failed.
pub open spec fn outcome_of_stop(stop: Option<StopReason>, retain_partial: bool) -> FailureOutcome {
    match stop {
        Some(StopReason::Pause) => FailureOutcome::Checkpoint(TransferState::Paused),
        Some(StopReason::CancelRetain) => FailureOutcome::Checkpoint(TransferState::Cancelled),
        Some(StopReason::Disconnect) => FailureOutcome::Checkpoint(
            TransferState::PausedByDisconnect,
        ),
        Some(StopReason::CancelDelete) => FailureOutcome::Discard,
        None => if retain_partial {
            FailureOutcome::Checkpoint(TransferState::RecoverableFailure)
        } else {
            FailureOutcome::Fail
        },
    }
}

/// What becomes of a transfer that did not finish.
pub fn failure_outcome(stop: Option<StopReason>, retain_partial: bool) -> (outcome: FailureOutcome)
    ensures
        outcome == outcome_of_stop(stop, retain_partial),
{
    match stop {
        Some(StopReason::Pause) => FailureOutcome::Checkpoint(TransferState::Paused),
        Some(StopReason::CancelRetain) => FailureOutcome::Checkpoint(TransferState::Cancelled),
        Some(StopReason::Disconnect) => FailureOutcome::Checkpoint(
            TransferState::PausedByDisconnect,
        ),
        Some(StopReason::CancelDelete) => FailureOutcome::Discard,
        None => if retain_partial {
            FailureOutcome::Checkpoint(TransferState::RecoverableFailure)
        } else {
            FailureOutcome::Fail
        },
    }
}

/// What is done next with a range that is being received.
#[derive(Debug, Clone, Copy, PartialEq, Eq, Structural)]
pub enum RangeAction {
    /// Take a buffer and fill it with this many bytes.
    Fill(u64),
    /// Every byte is here; look whether the stream has ended.
    AwaitEnd,
    /// The transfer was stopped; take no more.
    Stop,
}

/// What a read brought.
#[derive(Debug, Clone, Copy, PartialEq, Eq, Structural)]
pub enum ReadProgress {
    /// This many bytes are still missing from the block.
    Missing(u64),
    /// The block is full: it belongs at the offset, with the length.
    Block { offset: u64, length: u64 },
}

/// A range on its way from its stream to the file, block by block.
#[derive(Debug)]
pub struct RangeReceiver {
    header: RangeHeader,
    block_bytes: u64,
    remaining: u64,
    filled: u64,
    stopped: bool,
}

impl RangeReceiver {
    /// The header of the range.
    pub closed spec fn of(self) -> RangeHeader {
        self.header
    }

    /// The size of a full block.
    pub closed spec fn block_size(self) -> u64 {
        self.block_bytes
    }

    /// How many bytes are not in a full block yet.
    pub closed spec fn left(self) -> u64 {
        self.remaining
    }

    /// How many bytes of the present block are here.
    pub closed spec fn held(self) -> u64 {
        self.filled
    }

    /// Whether the range was given up.
    pub closed spec fn is_stopped(self) -> bool {
        self.stopped
    }

    /// The size of the present block.
    pub open spec fn target(self) -> u64 {
        if self.left() <= self.block_size() {
            self.left()
        } else {
            self.block_size()
        }
    }

    /// Where the present block belongs in the file.
    pub open spec fn block_offset(self) -> int {
        self.of().offset + self.of().length - self.left()
    }

    /// What is left lies within the range, and the present block is not full.
    pub open spec fn wf(self) -> bool {
        &&& self.of().offset + self.of().length <= u64::MAX
        &&& self.block_size() > 0
        &&& self.left() <= self.of().length
        &&& self.held() <= self.target()
        &&& self.held() == self.target() ==> self.left() == 0
    }

    /// Starts on a range that belongs to the file.
    pub fn begin(header: RangeHeader, block_bytes: u64) -> (receiver: Self)
        requires
            block_bytes > 0,
            header.offset + header.length <= u64::MAX,
        ensures
            receiver.wf(),
            receiver.of() == header,
            receiver.block_size() == block_bytes,
            receiver.left() == header.length,
            receiver.held() == 0,
            !receiver.is_stopped(),
    {
        let remaining: u64 = header.length;
        RangeReceiver { header, block_bytes, remaining, filled: 0, stopped: false }
    }

    /// What is done next, at the start of a block. A stop is noticed here only: a block that
    /// was begun is finished first.
    pub fn next_action(&mut self, cancelled: bool) -> (action: RangeAction)
        requires
            old(self).wf(),
            old(self).held() == 0,
        ensures
            final(self).wf(),
            final(self).of() == old(self).of(),
            final(self).block_size() == old(self).block_size(),
            final(self).left() == old(self).left(),
            final(self).held() == 0,
            if old(self).left() == 0 {
                &&& action is AwaitEnd
                &&& final(self).is_stopped() == old(self).is_stopped()
            } else if cancelled {
                action is Stop && final(self).is_stopped()
            } else {
                &&& action == RangeAction::Fill(old(self).target())
                &&& final(self).is_stopped() == old(self).is_stopped()
            },
    {
        if self.remaining == 0 {
            return RangeAction::AwaitEnd;
        }
        if cancelled {
            self.stopped = true;
            return RangeAction::Stop;
        }
        RangeAction::Fill(min_u64(self.remaining, self.block_bytes))
    }

    /// Takes what one read of the stream brought: `None` where the stream has ended.
    pub fn take_read(&mut self, count: Option<u64>) -> (result: Result<ReadProgress, String>)
        requires
            old(self).wf(),
            old(self).left() > 0,
            count matches Some(bytes) ==> bytes <= old(self).target() - old(self).held(),
        ensures
            final(self).wf(),
            final(self).of() == old(self).of(),
            final(self).block_size() == old(self).block_size(),
            final(self).is_stopped() == old(self).is_stopped(),
            match count {
                None => {
                    &&& result matches Err(error) && error@ == "range-unexpected-eof"@
                    &&& *final(self) == *old(self)
                },
                Some(bytes) => if bytes == 0 {
                    &&& result matches Err(error) && error@ == "range-short-read"@
                    &&& *final(self) == *old(self)
                } else if old(self).held() + bytes < old(self).target() {
                    &&& result == Ok::<ReadProgress, String>(
                        ReadProgress::Missing(
                            (old(self).target() - old(self).held() - bytes) as u64,
                        ),
                    )
                    &&& final(self).left() == old(self).left()
                    &&& final(self).held() == old(self).held() + bytes
                } else {
                    &&& result matches Ok(ReadProgress::Block { offset, length }) && offset == old(self).block_offset() && length == old(self).target()
                    &&& final(self).left() == old(self).left() - old(self).target()
                    &&& final(self).held() == 0
                },
            },
    {
        let count: u64 = match count {
            None => {
                return Err("range-unexpected-eof".to_owned());
            },
            Some(count) => count,
        };
        if count == 0 {
            return Err("range-short-read".to_owned());
        }
        let target: u64 = min_u64(self.remaining, self.block_bytes);
        let filled: u64 = self.filled + count;
        if filled < target {
            self.filled = filled;
            return Ok(ReadProgress::Missing(target - filled));
        }
        let offset: u64 = self.header.offset + (self.header.length - self.remaining);
        self.remaining = self.remaining - target;
        self.filled = 0;
        Ok(ReadProgress::Block { offset, length: target })
    }

    /// Why the range does not count, if it does not: more came than was announced, the transfer
    /// was stopped, or less reached the file.
    pub open spec fn shortfall(self, trailing: bool, written: u64) -> Option<Seq<char>> {
        if !self.is_stopped() && trailing {
            Some("range-declared-length-mismatch"@)
        } else if self.is_stopped() {
            Some("native-file-transfer-cancelled"@)
        } else if written != self.of().length {
            Some("destination-short-write"@)
        } else {
            None
        }
    }

    /// Ends the range, given whether the stream held more and how much reached the file.
    pub fn finish(self, trailing: bool, written: u64) -> (result: Result<RangeHeader, String>)
        ensures
            match result {
                Ok(header) => self.shortfall(trailing, written) is None && header == self.of(),
                Err(error) => self.shortfall(trailing, written) == Some(error@),
            },
    {
        if !self.stopped && trailing {
            return Err("range-declared-length-mismatch".to_owned());
        }
        if self.stopped {
            return Err("native-file-transfer-cancelled".to_owned());
        }
        if written != self.header.length {
            return Err("destination-short-write".to_owned());
        }
        Ok(self.header)
    }
}

/// A block that came in full stands right behind the bytes that came before it, and what is left
/// after it stands right behind the block: the blocks of a range tile it.
pub proof fn law_blocks_tile_the_range(before: RangeReceiver, after: RangeReceiver)
    requires
        before.wf(),
        before.left() > 0,
        after.of() == before.of(),
        after.block_size() == before.block_size(),
        after.left() == before.left() - before.target(),
    ensures
        before.target() > 0,
        after.block_offset() == before.block_offset() + before.target(),
        after.left() == 0 ==> after.block_offset() == before.of().offset + before.of().length,
{
}

/// Checks the header of a range that arrived for the given transfer.
pub fn accept_range_header(encoded: &[u8], transfer_id: &[u8; 16], file_size: u64) -> (result:
    Result<RangeHeader, ProtocolError>)
    ensures
        match result {
            Ok(header) => encoded@ == header.wire() && header.transfer_id@ == transfer_id@
                && header.in_bounds(file_size),
            Err(error) => if encoded@.len() != crate::protocol::RANGE_HEADER_BYTES {
                crate::protocol::is_malformed(error, "invalid range header length"@)
            } else if encoded@.subrange(0, 4) != crate::protocol::RANGE_MAGIC@ {
                crate::protocol::is_malformed(error, "invalid range magic"@)
            } else {
                ||| error == ProtocolError::UnsupportedVersion(
                    crate::bytes::be_value(encoded@.subrange(4, 6)) as u16,
                ) && crate::bytes::be_value(encoded@.subrange(4, 6))
                    != NATIVE_QUIC_PROTOCOL_VERSION
                ||| error is WrongTransfer && exists|header: RangeHeader| #[trigger] header.wire()
                    == encoded@ && header.transfer_id@ != transfer_id@
                ||| error is OutOfBounds && exists|header: RangeHeader| #[trigger] header.wire()
                    == encoded@ && header.transfer_id@ == transfer_id@ && !header.in_bounds(
                    file_size,
                )
            },
        },
{
    let header = match RangeHeader::decode(encoded) {
        Ok(header) => header,
        Err(error) => {
            return Err(error);
        },
    };
    proof {
        crate::protocol::law_header_bytes_are_accepted(header);
    }
    match header.validate(transfer_id, file_size) {
        Ok(()) => Ok(header),
        Err(error) => Err(error),
    }
}

/// The ranges that arrived, with the first error among them.
pub struct GatheredRanges {
    pub ranges: Map<u64, (u64, u32)>,
    pub bytes: nat,
    pub count: nat,
    pub error: Option<Seq<char>>,
}

/// Why a range that came in full cannot be recorded beside the others, if it cannot.
pub open spec fn recording_refusal(ranges: Map<u64, (u64, u32)>, header: RangeHeader) -> Option<
    ProtocolError,
> {
    if crate::protocol::covers(ranges, header.offset as int) {
        if ranges.contains_key(header.offset) && ranges[header.offset] == (
            header.length,
            header.range_id,
        ) {
            Some(ProtocolError::DuplicateRange)
        } else {
            Some(ProtocolError::OverlappingRange)
        }
    } else if crate::protocol::starts_within(
        ranges,
        header.offset as int,
        header.offset + header.length,
    ) {
        Some(ProtocolError::OverlappingRange)
    } else {
        None
    }
}

/// What the first `n` results of the receiving streams amount to.
pub open spec fn gathered(results: Seq<Result<RangeHeader, String>>, n: int) -> GatheredRanges
    decreases n,
{
    if n <= 0 {
        GatheredRanges { ranges: Map::empty(), bytes: 0, count: 0, error: None }
    } else {
        let before = gathered(results, n - 1);
        match results[n - 1] {
            Err(error) => GatheredRanges {
                error: if before.error is Some {
                    before.error
                } else {
                    Some(error@)
                },
                ..before
            },
            Ok(header) => match recording_refusal(before.ranges, header) {
                Some(refusal) => GatheredRanges {
                    error: if before.error is Some {
                        before.error
                    } else {
                        Some(refusal.text())
                    },
                    ..before
                },
                None => GatheredRanges {
                    ranges: before.ranges.insert(header.offset, (header.length, header.range_id)),
                    bytes: before.bytes + header.length as nat,
                    count: before.count + if before.ranges.contains_key(header.offset) {
                        0nat
                    } else {
                        1nat
                    },
                    ..before
                },
            },
        }
    }
}

/// Records the ranges of all streams in a ledger. The first stream that failed, or whose range
/// collides with another, decides the error.
pub fn gather_ranges(results: &Vec<Result<RangeHeader, String>>) -> (result: Result<
    RangeLedger,
    String,
>)
    requires
        forall|i: int|
            0 <= i < results@.len() ==> (#[trigger] results@[i] matches Ok(header)
                ==> header.offset + header.length <= u64::MAX),
    ensures
        ({
            let all = gathered(results@, results@.len() as int);
            match result {
                Ok(ledger) => all.error is None && ledger.wf() && !ledger.is_finalized()
                    && ledger@ == all.ranges && ledger.received() == all.bytes
                    && ledger.range_count() == all.count,
                Err(error) => all.error == Some(error@),
            }
        }),
{
    let mut ledger = RangeLedger::default();
    let mut first: Option<String> = None;
    let mut index: usize = 0;
    while index < results.len()
        invariant
            index <= results.len(),
            ledger.wf(),
            !ledger.is_finalized(),
            ledger@ == gathered(results@, index as int).ranges,
            ledger.received() == gathered(results@, index as int).bytes,
            ledger.range_count() == gathered(results@, index as int).count,
            match first {
                Some(text) => gathered(results@, index as int).error == Some(text@),
                None => gathered(results@, index as int).error is None,
            },
            forall|i: int|
                0 <= i < results@.len() ==> (#[trigger] results@[i] matches Ok(header)
                    ==> header.offset + header.length <= u64::MAX),
        decreases results.len() - index,
    {
        match &results[index] {
            Ok(header) => match ledger.record(header, header.length) {
                Ok(()) => {},
                Err(error) => {
                    if first.is_none() {
                        first = Some(error.message());
                    }
                },
            },
            Err(error) => {
                if first.is_none() {
                    first = Some(error.clone());
                }
            },
        }
        index += 1;
    }
    match first {
        Some(error) => Err(error),
        None => Ok(ledger),
    }
}

/// How long a block of a file is: the last one may be shorter.
pub open spec fn block_length(file_size: u64, block_size: u64, block: int) -> int {
    if file_size - block * block_size <= block_size {
        file_size - block * block_size
    } else {
        block_size as int
    }
}

/// How many bytes the completed blocks among the first `n` hold.
pub open spec fn completed_length(bitmap: Seq<u8>, file_size: u64, block_size: u64, n: nat) -> int
    decreases n,
{
    if n == 0 {
        0
    } else {
        completed_length(bitmap, file_size, block_size, (n - 1) as nat) + if bit_set(
            bitmap,
            n - 1,
        ) {
            block_length(file_size, block_size, n - 1)
        } else {
            0
        }
    }
}

/// The blocks of a file that are complete, each with the digest of its content.
#[derive(Debug, Clone)]
pub struct CompletedBlocks {
    pub file_size: u64,
    pub block_size: u64,
    pub total_blocks: u64,
    pub bitmap: Vec<u8>,
    pub hashes: Vec<Option<[u8; 32]>>,
    pub count: u64,
}

impl CompletedBlocks {
    /// There is a bit and a place for a digest for every block, exactly the completed blocks
    /// have both, and the count is theirs.
    pub open spec fn wf(self) -> bool {
        &&& self.block_size > 0
        &&& self.total_blocks == ceil_div(self.file_size as int, self.block_size as int)
        &&& bitmap_fits(self.bitmap@, self.total_blocks as int)
        &&& self.hashes@.len() == self.total_blocks
        &&& self.count == set_count(self.bitmap@, self.total_blocks as nat)
        &&& forall|block: int|
            0 <= block < self.total_blocks ==> #[trigger] bit_set(self.bitmap@, block) == (
            self.hashes@[block] is Some)
    }

    /// Nothing is complete yet.
    pub fn none_of(file_size: u64, block_size: u64) -> (blocks: Self)
        requires
            block_size > 0,
            ceil_div(file_size as int, block_size as int) <= usize::MAX,
        ensures
            blocks.wf(),
            blocks.file_size == file_size,
            blocks.block_size == block_size,
            blocks.count == 0,
            forall|block: int| 0 <= block < blocks.total_blocks ==> blocks.hashes@[block] is None,
    {
        let total_blocks: u64 = div_ceil(file_size, block_size);
        let bitmap_bytes: u64 = div_ceil(total_blocks, 8);
        let mut bitmap: Vec<u8> = Vec::new();
        while (bitmap.len() as u64) < bitmap_bytes
            invariant
                bitmap@.len() <= bitmap_bytes <= usize::MAX,
                forall|i: int| 0 <= i < bitmap@.len() ==> bitmap@[i] == 0,
            decreases bitmap_bytes - bitmap@.len(),
        {
            bitmap.push(0);
        }
        let mut hashes: Vec<Option<[u8; 32]>> = Vec::new();
        while (hashes.len() as u64) < total_blocks
            invariant
                hashes@.len() <= total_blocks <= usize::MAX,
                forall|i: int| 0 <= i < hashes@.len() ==> hashes@[i] is None,
            decreases total_blocks - hashes@.len(),
        {
            hashes.push(None);
        }
        proof {
            assert forall|block: int| 0 <= block < total_blocks implies !#[trigger] bit_set(
                bitmap@,
                block,
            ) by {
                assert(block / 8 < bitmap@.len());
            }
            lemma_nothing_set(bitmap@, total_blocks as nat);
        }
        CompletedBlocks { file_size, block_size, total_blocks, bitmap, hashes, count: 0 }
    }

    /// Whether `length` bytes at `offset` are one whole block.
    pub open spec fn is_block(self, offset: u64, length: int) -> bool {
        &&& offset as int % self.block_size as int == 0
        &&& (offset as int / self.block_size as int) < self.total_blocks
        &&& length == block_length(
            self.file_size,
            self.block_size,
            offset as int / self.block_size as int,
        )
    }

    /// Notes that `bytes` were written at `offset`. Only a whole block completes anything; one
    /// that is written again keeps its place in the count and gets the newer digest.
    pub fn record(&mut self, offset: u64, bytes: &[u8])
        requires
            old(self).wf(),
        ensures
            final(self).wf(),
            final(self).file_size == old(self).file_size,
            final(self).block_size == old(self).block_size,
            final(self).total_blocks == old(self).total_blocks,
            if old(self).is_block(offset, bytes@.len() as int) {
                let block = offset as int / old(self).block_size as int;
                &&& final(self).hashes@ == old(self).hashes@.update(
                    block,
                    Some(sha256_digest(bytes@)),
                )
                &&& final(self).count == old(self).count + if old(self).hashes@[block] is None {
                    1int
                } else {
                    0
                }
            } else {
                *final(self) == *old(self)
            },
    {
        if offset % self.block_size != 0 {
            return ;
        }
        let block: u64 = offset / self.block_size;
        if block >= self.total_blocks {
            return ;
        }
        proof {
            lemma_block_starts_in_file(self.file_size, self.block_size, block as int);
            let o = offset as int;
            let b = self.block_size as int;
            assert(o == (o / b) * b) by (nonlinear_arith)
                requires
                    o % b == 0,
                    b > 0,
            ;
        }
        let expected: u64 = min_u64(self.file_size - offset, self.block_size);
        if bytes.len() as u64 != expected {
            return ;
        }
        let ghost before = self.bitmap@;
        assert(block as int / 8 < self.bitmap.len());
        let was_clear: bool = set_bit(&mut self.bitmap, block);
        proof {
            let total = self.total_blocks as nat;
            assert(before.len() * 8 >= total);
            if was_clear {
                crate::bitmap::lemma_set_count_after_set(
                    before,
                    self.bitmap@,
                    block as int,
                    total,
                );
                lemma_set_count_bound(self.bitmap@, total);
            } else {
                lemma_same_set_count(before, self.bitmap@, total);
            }
        }
        if was_clear {
            self.count = self.count + 1;
        }
        assert(block < self.hashes.len());
        self.hashes[block as usize] = Some(digest_of(bytes));
        proof {
            assert forall|other: int| 0 <= other < self.total_blocks implies #[trigger] bit_set(
                self.bitmap@,
                other,
            ) == (self.hashes@[other] is Some) by {
                assert(bit_set(self.bitmap@, other) == (other == block || bit_set(before, other)));
            }
        }
    }

    /// How many bytes the completed blocks hold.
    pub fn completed_bytes(&self) -> (bytes: u64)
        requires
            self.wf(),
        ensures
            bytes == completed_length(
                self.bitmap@,
                self.file_size,
                self.block_size,
                self.total_blocks as nat,
            ),
            bytes <= self.file_size,
    {
        let mut bytes: u64 = 0;
        let mut block: u64 = 0;
        while block < self.total_blocks
            invariant
                self.wf(),
                block <= self.total_blocks,
                bytes == completed_length(
                    self.bitmap@,
                    self.file_size,
                    self.block_size,
                    block as nat,
                ),
                bytes <= self.file_size,
            decreases self.total_blocks - block,
        {
            proof {
                lemma_block_starts_in_file(self.file_size, self.block_size, block as int);
                lemma_completed_length(
                    self.bitmap@,
                    self.file_size,
                    self.block_size,
                    (block + 1) as nat,
                );
                assert(block as int / 8 < self.bitmap.len());
            }
            if is_set(self.bitmap.as_slice(), block) {
                let rest: u64 = self.file_size - block * self.block_size;
                bytes = bytes + min_u64(rest, self.block_size);
            }
            block += 1;
        }
        bytes
    }
}

proof fn lemma_nothing_set(bitmap: Seq<u8>, n: nat)
    requires
        forall|block: int| 0 <= block < n ==> !#[trigger] bit_set(bitmap, block),
    ensures
        set_count(bitmap, n) == 0,
    decreases n,
{
    if n > 0 {
        lemma_nothing_set(bitmap, (n - 1) as nat);
        assert(!bit_set(bitmap, n - 1));
    }
}

proof fn lemma_set_count_bound(bitmap: Seq<u8>, n: nat)
    ensures
        set_count(bitmap, n) <= n,
    decreases n,
{
    if n > 0 {
        lemma_set_count_bound(bitmap, (n - 1) as nat);
    }
}

proof fn lemma_same_set_count(before: Seq<u8>, after: Seq<u8>, n: nat)
    requires
        before.len() == after.len(),
        n <= before.len() * 8,
        forall|block: int|
            0 <= block < before.len() * 8 ==> #[trigger] bit_set(after, block) == bit_set(
                before,
                block,
            ),
    ensures
        set_count(after, n) == set_count(before, n),
    decreases n,
{
    if n > 0 {
        lemma_same_set_count(before, after, (n - 1) as nat);
        assert(bit_set(after, n - 1) == bit_set(before, n - 1));
    }
}

proof fn lemma_block_starts_in_file(file_size: u64, block_size: u64, block: int)
    requires
        block_size > 0,
        0 <= block < ceil_div(file_size as int, block_size as int),
    ensures
        0 <= block * block_size < file_size,
        0 < block_length(file_size, block_size, block) <= block_size,
{
    let v = file_size as int;
    let d = block_size as int;
    assert(0 <= block * d < v) by (nonlinear_arith)
        requires
            d > 0,
            0 <= block < (v + d - 1) / d,
    ;
}

proof fn lemma_completed_length(bitmap: Seq<u8>, file_size: u64, block_size: u64, n: nat)
    requires
        block_size > 0,
        n <= ceil_div(file_size as int, block_size as int),
    ensures
        0 <= completed_length(bitmap, file_size, block_size, n) <= file_size,
        completed_length(bitmap, file_size, block_size, n) <= n * block_size,
    decreases n,
{
    if n > 0 {
        lemma_completed_length(bitmap, file_size, block_size, (n - 1) as nat);
        lemma_block_starts_in_file(file_size, block_size, n - 1);
        let d = block_size as int;
        assert((n - 1) * d + d == n * d) by (nonlinear_arith);
    }
}

proof fn lemma_whole_length(bitmap: Seq<u8>, file_size: u64, block_size: u64, n: nat)
    requires
        block_size > 0,
        n <= ceil_div(file_size as int, block_size as int),
        forall|block: int| 0 <= block < n ==> #[trigger] bit_set(bitmap, block),
    ensures
        completed_length(bitmap, file_size, block_size, n) == if n * block_size <= file_size {
            n * block_size
        } else {
            file_size as int
        },
    decreases n,
{
    if n > 0 {
        lemma_whole_length(bitmap, file_size, block_size, (n - 1) as nat);
        lemma_block_starts_in_file(file_size, block_size, n - 1);
        let d = block_size as int;
        assert((n - 1) * d + d == n * d) by (nonlinear_arith);
        assert(bit_set(bitmap, n - 1));
    } else {
        assert(n * block_size == 0) by (nonlinear_arith)
            requires
                n == 0,
        ;
    }
}

proof fn lemma_full_count(bitmap: Seq<u8>, n: nat, block: int)
    requires
        set_count(bitmap, n) == n,
        0 <= block < n,
    ensures
        bit_set(bitmap, block),
    decreases n,
{
    lemma_set_count_bound(bitmap, (n - 1) as nat);
    if block < n - 1 {
        lemma_full_count(bitmap, (n - 1) as nat, block);
    }
}

/// When every block is complete, the completed blocks hold the whole file.
pub proof fn law_all_blocks_are_the_file(blocks: CompletedBlocks)
    requires
        blocks.wf(),
        blocks.count == blocks.total_blocks,
    ensures
        completed_length(
            blocks.bitmap@,
            blocks.file_size,
            blocks.block_size,
            blocks.total_blocks as nat,
        ) == blocks.file_size,
{
    let total = blocks.total_blocks as nat;
    assert forall|block: int| 0 <= block < total implies #[trigger] bit_set(blocks.bitmap@, block) by {
        lemma_full_count(blocks.bitmap@, total, block);
    }
    lemma_whole_length(blocks.bitmap@, blocks.file_size, blocks.block_size, total);
    let v = blocks.file_size as int;
    let d = blocks.block_size as int;
    let n = total as int;
    assert(n * d >= v) by (nonlinear_arith)
        requires
            d > 0,
            v >= 0,
            n == (v + d - 1) / d,
    ;
}

/// What is counted while a transfer runs.
#[derive(Debug, Clone, Copy, PartialEq, Eq)]
pub struct TransferCounters {
    pub bytes_read: u64,
    pub session_bytes_read: u64,
    pub bytes_sent: u64,
    pub session_bytes_sent: u64,
    pub bytes_received: u64,
    pub session_bytes_received: u64,
    pub bytes_written: u64,
    pub session_bytes_written: u64,
    pub active_receiver_streams: u32,
    pub active_sender_streams: u32,
    pub active_readers: u32,
    pub active_writers: u32,
    pub queued_writes: u32,
    pub checked_out_buffers: u32,
    pub active_checkpoint_tasks: u32,
}

/// What happens while a transfer runs.
#[derive(Debug, Clone, Copy, PartialEq, Eq, Structural)]
pub enum TransferEvent {
    ReceiverStarted,
    ReceiverEnded,
    WriterStarted,
    WriterEnded,
    /// A sender started; the flag says whether it reads a file.
    SenderStarted(bool),
    SenderEnded(bool),
    BufferTaken,
    BufferReturned,
    /// As many bytes came from the network and wait for the disk.
    BlockQueued(u64),
    BlockDequeued,
    BytesWritten(u64),
    BytesRead(u64),
    BytesSent(u64),
    CheckpointStarted,
    CheckpointEnded,
}

/// One less, but not below zero.
pub open spec fn lowered(value: u32) -> u32 {
    if value == 0 {
        0
    } else {
        (value - 1) as u32
    }
}

fn lower(value: u32) -> (lower: u32)
    ensures
        lower == lowered(value),
{
    if value == 0 {
        0
    } else {
        value - 1
    }
}

impl TransferCounters {
    /// The counters before anything happened.
    pub open spec fn untouched() -> Self {
        TransferCounters {
            bytes_read: 0,
            session_bytes_read: 0,
            bytes_sent: 0,
            session_bytes_sent: 0,
            bytes_received: 0,
            session_bytes_received: 0,
            bytes_written: 0,
            session_bytes_written: 0,
            active_receiver_streams: 0,
            active_sender_streams: 0,
            active_readers: 0,
            active_writers: 0,
            queued_writes: 0,
            checked_out_buffers: 0,
            active_checkpoint_tasks: 0,
        }
    }

    /// Everything is zero.
    pub fn zero() -> (counters: Self)
        ensures
            counters == TransferCounters::untouched(),
    {
        TransferCounters {
            bytes_read: 0,
            session_bytes_read: 0,
            bytes_sent: 0,
            session_bytes_sent: 0,
            bytes_received: 0,
            session_bytes_received: 0,
            bytes_written: 0,
            session_bytes_written: 0,
            active_receiver_streams: 0,
            active_sender_streams: 0,
            active_readers: 0,
            active_writers: 0,
            queued_writes: 0,
            checked_out_buffers: 0,
            active_checkpoint_tasks: 0,
        }
    }

    /// Whether the counters can still take the event: none overflows, and no writer ends that
    /// did not start.
    pub open spec fn takes(self, event: TransferEvent) -> bool {
        match event {
            TransferEvent::ReceiverStarted => self.active_receiver_streams < u32::MAX,
            TransferEvent::WriterStarted => self.active_writers < u32::MAX,
            TransferEvent::WriterEnded => self.active_writers > 0,
            TransferEvent::SenderStarted(reads) => self.active_sender_streams < u32::MAX && (reads
                ==> self.active_readers < u32::MAX),
            TransferEvent::BufferTaken => self.checked_out_buffers < u32::MAX,
            TransferEvent::BlockQueued(bytes) => self.queued_writes < u32::MAX
                && self.bytes_received + bytes <= u64::MAX && self.session_bytes_received + bytes
                <= u64::MAX,
            TransferEvent::BytesWritten(bytes) => self.bytes_written + bytes <= u64::MAX
                && self.session_bytes_written + bytes <= u64::MAX,
            TransferEvent::BytesRead(bytes) => self.bytes_read + bytes <= u64::MAX
                && self.session_bytes_read + bytes <= u64::MAX,
            TransferEvent::BytesSent(bytes) => self.bytes_sent + bytes <= u64::MAX
                && self.session_bytes_sent + bytes <= u64::MAX,
            TransferEvent::CheckpointStarted => self.active_checkpoint_tasks < u32::MAX,
            _ => true,
        }
    }

    /// The counters after the event.
    pub open spec fn after(self, event: TransferEvent) -> Self {
        match event {
            TransferEvent::ReceiverStarted => TransferCounters {
                active_receiver_streams: (self.active_receiver_streams + 1) as u32,
                ..self
            },
            TransferEvent::ReceiverEnded => TransferCounters {
                active_receiver_streams: lowered(self.active_receiver_streams),
                ..self
            },
            TransferEvent::WriterStarted => TransferCounters {
                active_writers: (self.active_writers + 1) as u32,
                ..self
            },
            TransferEvent::WriterEnded => TransferCounters {
                active_writers: (self.active_writers - 1) as u32,
                ..self
            },
            TransferEvent::SenderStarted(reads) => TransferCounters {
                active_sender_streams: (self.active_sender_streams + 1) as u32,
                active_readers: if reads {
                    (self.active_readers + 1) as u32
                } else {
                    self.active_readers
                },
                ..self
            },
            TransferEvent::SenderEnded(reads) => TransferCounters {
                active_sender_streams: lowered(self.active_sender_streams),
                active_readers: if reads {
                    lowered(self.active_readers)
                } else {
                    self.active_readers
                },
                ..self
            },
            TransferEvent::BufferTaken => TransferCounters {
                checked_out_buffers: (self.checked_out_buffers + 1) as u32,
                ..self
            },
            TransferEvent::BufferReturned => TransferCounters {
                checked_out_buffers: lowered(self.checked_out_buffers),
                ..self
            },
            TransferEvent::BlockQueued(bytes) => TransferCounters {
                queued_writes: (self.queued_writes + 1) as u32,
                bytes_received: (self.bytes_received + bytes) as u64,
                session_bytes_received: (self.session_bytes_received + bytes) as u64,
                ..self
            },
            TransferEvent::BlockDequeued => TransferCounters {
                queued_writes: lowered(self.queued_writes),
                ..self
            },
            TransferEvent::BytesWritten(bytes) => TransferCounters {
                bytes_written: (self.bytes_written + bytes) as u64,
                session_bytes_written: (self.session_bytes_written + bytes) as u64,
                ..self
            },
            TransferEvent::BytesRead(bytes) => TransferCounters {
                bytes_read: (self.bytes_read + bytes) as u64,
                session_bytes_read: (self.session_bytes_read + bytes) as u64,
                ..self
            },
            TransferEvent::BytesSent(bytes) => TransferCounters {
                bytes_sent: (self.bytes_sent + bytes) as u64,
                session_bytes_sent: (self.session_bytes_sent + bytes) as u64,
                ..self
            },
            TransferEvent::CheckpointStarted => TransferCounters {
                active_checkpoint_tasks: (self.active_checkpoint_tasks + 1) as u32,
                ..self
            },
            TransferEvent::CheckpointEnded => TransferCounters {
                active_checkpoint_tasks: lowered(self.active_checkpoint_tasks),
                ..self
            },
        }
    }

    /// Whether the counters can still take the event.
    pub fn has_room_for(&self, event: &TransferEvent) -> (room: bool)
        ensures
            room == self.takes(*event),
    {
        match *event {
            TransferEvent::ReceiverStarted => self.active_receiver_streams < u32::MAX,
            TransferEvent::WriterStarted => self.active_writers < u32::MAX,
            TransferEvent::WriterEnded => self.active_writers > 0,
            TransferEvent::SenderStarted(reads) => self.active_sender_streams < u32::MAX && (!reads
                || self.active_readers < u32::MAX),
            TransferEvent::BufferTaken => self.checked_out_buffers < u32::MAX,
            TransferEvent::BlockQueued(bytes) => self.queued_writes < u32::MAX
                && self.bytes_received <= u64::MAX - bytes && self.session_bytes_received
                <= u64::MAX - bytes,
            TransferEvent::BytesWritten(bytes) => self.bytes_written <= u64::MAX - bytes
                && self.session_bytes_written <= u64::MAX - bytes,
            TransferEvent::BytesRead(bytes) => self.bytes_read <= u64::MAX - bytes
                && self.session_bytes_read <= u64::MAX - bytes,
            TransferEvent::BytesSent(bytes) => self.bytes_sent <= u64::MAX - bytes
                && self.session_bytes_sent <= u64::MAX - bytes,
            TransferEvent::CheckpointStarted => self.active_checkpoint_tasks < u32::MAX,
            _ => true,
        }
    }

    /// Counts an event.
    pub fn note(&mut self, event: TransferEvent)
        requires
            old(self).takes(event),
        ensures
            *final(self) == old(self).after(event),
    {
        match event {
            TransferEvent::ReceiverStarted => {
                self.active_receiver_streams = self.active_receiver_streams + 1;
            },
            TransferEvent::ReceiverEnded => {
                self.active_receiver_streams = lower(self.active_receiver_streams);
            },
            TransferEvent::WriterStarted => {
                self.active_writers = self.active_writers + 1;
            },
            TransferEvent::WriterEnded => {
                self.active_writers = self.active_writers - 1;
            },
            TransferEvent::SenderStarted(reads) => {
                self.active_sender_streams = self.active_sender_streams + 1;
                if reads {
                    self.active_readers = self.active_readers + 1;
                }
            },
            TransferEvent::SenderEnded(reads) => {
                self.active_sender_streams = lower(self.active_sender_streams);
                if reads {
                    self.active_readers = lower(self.active_readers);
                }
            },
            TransferEvent::BufferTaken => {
                self.checked_out_buffers = self.checked_out_buffers + 1;
            },
            TransferEvent::BufferReturned => {
                self.checked_out_buffers = lower(self.checked_out_buffers);
            },
            TransferEvent::BlockQueued(bytes) => {
                self.queued_writes = self.queued_writes + 1;
                self.bytes_received = self.bytes_received + bytes;
                self.session_bytes_received = self.session_bytes_received + bytes;
            },
            TransferEvent::BlockDequeued => {
                self.queued_writes = lower(self.queued_writes);
            },
            TransferEvent::BytesWritten(bytes) => {
                self.bytes_written = self.bytes_written + bytes;
                self.session_bytes_written = self.session_bytes_written + bytes;
            },
            TransferEvent::BytesRead(bytes) => {
                self.bytes_read = self.bytes_read + bytes;
                self.session_bytes_read = self.session_bytes_read + bytes;
            },
            TransferEvent::BytesSent(bytes) => {
                self.bytes_sent = self.bytes_sent + bytes;
                self.session_bytes_sent = self.session_bytes_sent + bytes;
            },
            TransferEvent::CheckpointStarted => {
                self.active_checkpoint_tasks = self.active_checkpoint_tasks + 1;
            },
            TransferEvent::CheckpointEnded => {
                self.active_checkpoint_tasks = lower(self.active_checkpoint_tasks);
            },
        }
    }
}

/// A block that goes all the way from the network to the disk leaves no buffer out and no write
/// waiting, and counts its bytes once as received and once as written.
pub proof fn law_a_written_block_leaves_nothing_open(counters: TransferCounters, bytes: u64)
    requires
        counters.takes(TransferEvent::BufferTaken),
        counters.takes(TransferEvent::BlockQueued(bytes)),
        counters.takes(TransferEvent::BytesWritten(bytes)),
    ensures
        ({
            let after = counters.after(TransferEvent::BufferTaken).after(
                TransferEvent::BlockQueued(bytes),
            ).after(TransferEvent::BlockDequeued).after(TransferEvent::BytesWritten(bytes)).after(
                TransferEvent::BufferReturned,
            );
            after == (TransferCounters {
                bytes_received: (counters.bytes_received + bytes) as u64,
                session_bytes_received: (counters.session_bytes_received + bytes) as u64,
                bytes_written: (counters.bytes_written + bytes) as u64,
                session_bytes_written: (counters.session_bytes_written + bytes) as u64,
                ..counters
            })
        }),
{
}

/// A transfer as both of its ends keep it.
#[derive(Debug, Clone)]
pub struct TransferProgress {
    pub transfer_id: [u8; 16],
    pub expected_sha256: Option<[u8; 32]>,
    pub lifecycle: Lifecycle,
    pub blocks: CompletedBlocks,
    pub counters: TransferCounters,
    pub finalization_owned: bool,
    pub checkpoint_generation: u64,
    pub last_checkpoint_unix_ms: Option<u64>,
    pub checkpoint_succeeded: bool,
    pub resume_available: bool,
    pub partial_retained: bool,
    pub block_hash_sidecar_bytes: u64,
    pub terminal_error: Option<String>,
    pub cleanup_warnings: Vec<String>,
}

impl TransferProgress {
    /// A transfer that was just created.
    pub fn created(transfer_id: [u8; 16], file_size: u64, block_size: u64, now: u64) -> (progress:
        Self)
        requires
            block_size > 0,
            ceil_div(file_size as int, block_size as int) <= usize::MAX,
        ensures
            progress.blocks.wf(),
            progress.transfer_id == transfer_id,
            progress.expected_sha256 is None,
            progress.lifecycle.state is Created,
            progress.lifecycle.generation == 0,
            progress.lifecycle.last_state_change_unix_ms == now,
            progress.blocks.file_size == file_size,
            progress.blocks.block_size == block_size,
            progress.blocks.count == 0,
            forall|block: int|
                0 <= block < progress.blocks.total_blocks ==> progress.blocks.hashes@[block]
                    is None,
            progress.counters == TransferCounters::untouched(),
            !progress.finalization_owned,
            progress.checkpoint_generation == 0,
            progress.last_checkpoint_unix_ms is None,
            !progress.checkpoint_succeeded,
            !progress.resume_available,
            !progress.partial_retained,
            progress.block_hash_sidecar_bytes == 0,
            progress.terminal_error is None,
            progress.cleanup_warnings@.len() == 0,
    {
        TransferProgress {
            transfer_id,
            expected_sha256: None,
            lifecycle: Lifecycle::new(now),
            blocks: CompletedBlocks::none_of(file_size, block_size),
            counters: TransferCounters::zero(),
            finalization_owned: false,
            checkpoint_generation: 0,
            last_checkpoint_unix_ms: None,
            checkpoint_succeeded: false,
            resume_available: false,
            partial_retained: false,
            block_hash_sidecar_bytes: 0,
            terminal_error: None,
            cleanup_warnings: Vec::new(),
        }
    }

    /// Why a manifest does not close the transfer, if it does not.
    pub open spec fn manifest_refusal(
        self,
        ledger: RangeLedger,
        manifest: CompletionManifest,
        expected_sha256: [u8; 32],
        cancelled: bool,
    ) -> Option<Seq<char>> {
        if manifest.transfer_id != self.transfer_id || manifest.sha256 != Some(expected_sha256) {
            Some("completion-manifest-mismatch"@)
        } else if ledger.incomplete(manifest, self.blocks.file_size) matches Some(error) {
            Some(ledger.incomplete(manifest, self.blocks.file_size)->Some_0.text())
        } else if cancelled {
            Some("native-file-transfer-cancelled"@)
        } else {
            None
        }
    }

    /// Takes the manifest at the end of all ranges. When everything is here the transfer is
    /// validated and can no longer be stopped by others; what was written is forced to the disk
    /// next.
    pub fn accept_manifest(
        &mut self,
        ledger: &mut RangeLedger,
        manifest: &CompletionManifest,
        expected_sha256: &[u8; 32],
        cancelled: bool,
        now: u64,
    ) -> (result: Result<(), String>)
        requires
            old(ledger).wf(),
        ensures
            final(ledger).wf(),
            final(ledger)@ == old(ledger)@,
            final(ledger).is_finalized() == (old(ledger).is_finalized() || old(
                self,
            ).manifest_refusal(*old(ledger), *manifest, *expected_sha256, false) is None),
            ({
                let refusal = old(self).manifest_refusal(
                    *old(ledger),
                    *manifest,
                    *expected_sha256,
                    cancelled,
                );
                let validating = after_transition(
                    old(self).lifecycle,
                    TransferState::Validating,
                    now,
                );
                let synchronizing = after_transition(
                    validating.0,
                    TransferState::Synchronizing,
                    now,
                );
                if refusal is Some {
                    &&& result matches Err(error) && Some(error@) == refusal
                    &&& *final(self) == *old(self)
                } else if validating.1 is Some {
                    &&& result matches Err(error) && Some(error@) == validating.1
                    &&& *final(self) == (TransferProgress {
                        lifecycle: validating.0,
                        ..*old(self)
                    })
                } else {
                    &&& match result {
                        Ok(()) => synchronizing.1 is None,
                        Err(error) => synchronizing.1 == Some(error@),
                    }
                    &&& *final(self) == (TransferProgress {
                        lifecycle: synchronizing.0,
                        finalization_owned: true,
                        ..*old(self)
                    })
                }
            }),
    {
        let same_hash: bool = match &manifest.sha256 {
            Some(hash) => bytes_equal(hash, expected_sha256),
            None => false,
        };
        let same_transfer: bool = bytes_equal(&manifest.transfer_id, &self.transfer_id);
        proof {
            if same_transfer {
                assert(manifest.transfer_id =~= self.transfer_id);
            }
            if same_hash {
                assert(manifest.sha256->Some_0 =~= *expected_sha256);
            }
        }
        if !same_transfer || !same_hash {
            return Err("completion-manifest-mismatch".to_owned());
        }
        match ledger.finalize(manifest, self.blocks.file_size) {
            Ok(()) => {},
            Err(error) => {
                return Err(error.message());
            },
        }
        if cancelled {
            return Err("native-file-transfer-cancelled".to_owned());
        }
        match self.lifecycle.transition(TransferState::Validating, now) {
            Ok(()) => {},
            Err(error) => {
                return Err(error);
            },
        }
        self.finalization_owned = true;
        self.lifecycle.transition(TransferState::Synchronizing, now)
    }

    /// Takes the digest of what the part file holds. Only the expected one lets the transfer
    /// go on to its last step.
    pub fn accept_content(
        &mut self,
        actual_sha256: &[u8; 32],
        expected_sha256: &[u8; 32],
        cancelled: bool,
        now: u64,
    ) -> (result: Result<(), String>)
        ensures
            ({
                let moved = after_transition(old(self).lifecycle, TransferState::Finalizing, now);
                if *actual_sha256 != *expected_sha256 {
                    &&& result matches Err(error) && error@ == "integrity-mismatch"@
                    &&& *final(self) == *old(self)
                } else if cancelled {
                    &&& result matches Err(error) && error@ == "native-file-transfer-cancelled"@
                    &&& *final(self) == *old(self)
                } else {
                    &&& match result {
                        Ok(()) => moved.1 is None,
                        Err(error) => moved.1 == Some(error@),
                    }
                    &&& *final(self) == (TransferProgress { lifecycle: moved.0, ..*old(self) })
                }
            }),
    {
        if !bytes_equal(actual_sha256, expected_sha256) {
            return Err("integrity-mismatch".to_owned());
        }
        assert(*actual_sha256 =~= *expected_sha256);
        if cancelled {
            return Err("native-file-transfer-cancelled".to_owned());
        }
        self.lifecycle.transition(TransferState::Finalizing, now)
    }

    /// The part file has its final name: the transfer is complete.
    pub fn accept_rename(&mut self, now: u64) -> (result: Result<(), String>)
        ensures
            ({
                let moved = after_transition(old(self).lifecycle, TransferState::Completed, now);
                &&& match result {
                    Ok(()) => moved.1 is None,
                    Err(error) => moved.1 == Some(error@),
                }
                &&& *final(self) == (TransferProgress { lifecycle: moved.0, ..*old(self) })
            }),
    {
        self.lifecycle.transition(TransferState::Completed, now)
    }

    /// What was kept for a resumption is gone; what could not be removed is noted.
    pub fn finish_cleanup(&mut self, cleanup_warnings: Vec<String>)
        ensures
            *final(self) == (TransferProgress {
                finalization_owned: false,
                resume_available: false,
                partial_retained: false,
                cleanup_warnings,
                ..*old(self)
            }),
    {
        self.finalization_owned = false;
        self.resume_available = false;
        self.partial_retained = false;
        self.cleanup_warnings = cleanup_warnings;
    }

    /// The transfer once it is known what becomes of it after it broke off.
    pub open spec fn settled(
        self,
        outcome: FailureOutcome,
        checkpoint_error: Option<String>,
        error: String,
        now: u64,
    ) -> Self {
        match outcome {
            FailureOutcome::Checkpoint(state) => TransferProgress {
                lifecycle: after_transition(self.lifecycle, state, now).0,
                terminal_error: if checkpoint_error is Some {
                    checkpoint_error
                } else {
                    self.terminal_error
                },
                ..self
            },
            FailureOutcome::Discard => TransferProgress {
                lifecycle: after_transition(
                    self.lifecycle,
                    TransferState::Cancelled,
                    now,
                ).0,
                ..self
            },
            FailureOutcome::Fail => TransferProgress {
                lifecycle: after_transition(
                    self.lifecycle,
                    TransferState::Failed,
                    now,
                ).0,
                terminal_error: Some(error),
                ..self
            },
        }
    }

    /// Lets a transfer that did not finish come to rest. A checkpoint that could not be written
    /// is reported, and so is what made a transfer fail; a transition that is not allowed is
    /// passed over.
    pub fn settle_failure(
        &mut self,
        outcome: FailureOutcome,
        checkpoint_error: Option<String>,
        error: String,
        now: u64,
    )
        ensures
            *final(self) == old(self).settled(outcome, checkpoint_error, error, now),
    {
        match outcome {
            FailureOutcome::Checkpoint(state) => {
                if checkpoint_error.is_some() {
                    self.terminal_error = checkpoint_error;
                }
                let _ = self.lifecycle.transition(state, now);
            },
            FailureOutcome::Discard => {
                let _ = self.lifecycle.transition(TransferState::Cancelled, now);
            },
            FailureOutcome::Fail => {
                self.terminal_error = Some(error);
                let _ = self.lifecycle.transition(TransferState::Failed, now);
            },
        }
    }
}

/// The header of the range that the stream with the given number carries.
pub fn planned_header(transfer_id: [u8; 16], file_size: u64, streams: u8, index: u8) -> (header:
    RangeHeader)
    requires
        index < streams,
    ensures
        header == planned(transfer_id, file_size, streams, index as int),
{
    let (offset, length) = range_for(file_size, streams, index);
    proof {
        lemma_range(file_size, streams, index as int);
    }
    RangeHeader { transfer_id, range_id: index as u32, offset, length, flags: 0 }
}

/// The header of the range that a stream carries.
pub open spec fn planned(
    transfer_id: [u8; 16],
    file_size: u64,
    streams: u8,
    index: int,
) -> RangeHeader {
    RangeHeader {
        transfer_id,
        range_id: index as u32,
        offset: range_start(file_size, streams, index) as u64,
        length: range_length(file_size, streams, index) as u64,
        flags: 0,
    }
}

/// How many bytes a sender takes next from its range: nothing at the end of it, and an error
/// once the transfer was stopped.
pub fn next_send(remaining: u64, block_bytes: u64, cancelled: bool) -> (result: Result<
    Option<u64>,
    String,
>)
    ensures
        if remaining == 0 {
            result == Ok::<Option<u64>, String>(None)
        } else if cancelled {
            result matches Err(error) && error@ == "native-file-transfer-cancelled"@
        } else {
            result == Ok::<Option<u64>, String>(
                Some(
                    if remaining <= block_bytes {
                        remaining
                    } else {
                        block_bytes
                    },
                ),
            )
        },
{
    if remaining == 0 {
        return Ok(None);
    }
    if cancelled {
        return Err("native-file-transfer-cancelled".to_owned());
    }
    Ok(Some(min_u64(remaining, block_bytes)))
}

/// How many bytes the first `n` senders sent.
pub open spec fn sent_bytes(results: Seq<Result<u64, String>>, n: int) -> int
    decreases n,
{
    if n <= 0 {
        0
    } else {
        sent_bytes(results, n - 1) + match results[n - 1] {
            Ok(bytes) => bytes as int,
            Err(_) => 0,
        }
    }
}

/// What the first failed sender among the first `n` reports, if one failed.
pub open spec fn first_failure(results: Seq<Result<u64, String>>, n: int) -> Option<Seq<char>>
    decreases n,
{
    if n <= 0 {
        None
    } else if first_failure(results, n - 1) is Some {
        first_failure(results, n - 1)
    } else {
        match results[n - 1] {
            Ok(_) => None,
            Err(error) => Some(error@),
        }
    }
}

proof fn lemma_sent_bytes(results: Seq<Result<u64, String>>, n: int, more: int)
    requires
        n <= more,
    ensures
        0 <= sent_bytes(results, n) <= sent_bytes(results, more),
    decreases more,
{
    if more > 0 {
        if n < more {
            lemma_sent_bytes(results, n, more - 1);
        } else if n > 0 {
            lemma_sent_bytes(results, n - 1, more - 1);
        }
    }
}

/// The bytes of all senders, or what the first one that failed reports.
pub fn total_sent(results: &Vec<Result<u64, String>>) -> (result: Result<u64, String>)
    requires
        sent_bytes(results@, results@.len() as int) <= u64::MAX,
    ensures
        match result {
            Ok(bytes) => first_failure(results@, results@.len() as int) is None && bytes
                == sent_bytes(results@, results@.len() as int),
            Err(error) => first_failure(results@, results@.len() as int) == Some(error@),
        },
{
    let mut sent: u64 = 0;
    let mut first: Option<String> = None;
    let mut index: usize = 0;
    while index < results.len()
        invariant
            index <= results.len(),
            sent == sent_bytes(results@, index as int),
            sent_bytes(results@, results@.len() as int) <= u64::MAX,
            match first {
                Some(text) => first_failure(results@, index as int) == Some(text@),
                None => first_failure(results@, index as int) is None,
            },
        decreases results.len() - index,
    {
        proof {
            lemma_sent_bytes(results@, index + 1, results@.len() as int);
        }
        match &results[index] {
            Ok(bytes) => {
                sent = sent + *bytes;
            },
            Err(error) => {
                if first.is_none() {
                    first = Some(error.clone());
                }
            },
        }
        index += 1;
    }
    match first {
        Some(error) => Err(error),
        None => Ok(sent),
    }
}

/// The message that follows all ranges.
pub fn completion_manifest(
    transfer_id: [u8; 16],
    file_size: u64,
    streams: u8,
    expected_sha256: [u8; 32],
) -> (manifest: CompletionManifest)
    ensures
        manifest == (CompletionManifest {
            version: NATIVE_QUIC_PROTOCOL_VERSION,
            transfer_id,
            expected_bytes: file_size,
            expected_ranges: streams as u32,
            sha256: Some(expected_sha256),
        }),
{
    CompletionManifest {
        version: NATIVE_QUIC_PROTOCOL_VERSION,
        transfer_id,
        expected_bytes: file_size,
        expected_ranges: streams as u32,
        sha256: Some(expected_sha256),
    }
}

/// The confirmation of a whole file with the given digest.
pub fn completion_ack(transfer_id: [u8; 16], file_size: u64, actual_sha256: [u8; 32]) -> (ack:
    FileCompletionAck)
    ensures
        ack == (FileCompletionAck {
            transfer_id,
            received_bytes: file_size,
            sha256: actual_sha256,
            integrity_ok: true,
        }),
{
    FileCompletionAck {
        transfer_id,
        received_bytes: file_size,
        sha256: actual_sha256,
        integrity_ok: true,
    }
}

/// Size and time of change of a source file.
#[derive(Debug, Clone, Copy, PartialEq, Eq)]
pub struct SourceStamp {
    pub size: u64,
    pub modified_ms: Option<u128>,
}

/// Checks that a source file is as it was.
pub fn check_source_unchanged(before: &SourceStamp, now: &SourceStamp) -> (result: Result<
    (),
    String,
>)
    ensures
        match result {
            Ok(()) => *now == *before,
            Err(error) => *now != *before && error@ == "source-file-changed"@,
        },
{
    let same_time: bool = match (before.modified_ms, now.modified_ms) {
        (Some(left), Some(right)) => left == right,
        (None, None) => true,
        _ => false,
    };
    if before.size != now.size || !same_time {
        return Err("source-file-changed".to_owned());
    }
    Ok(())
}

/// Whether a confirmation is the one for a file that was sent whole.
pub open spec fn confirms(ack: FileCompletionAck, control: FileControl, sent: u64) -> bool {
    &&& sent == control.file_size
    &&& ack.transfer_id == control.transfer_id
    &&& ack.received_bytes == control.file_size
    &&& ack.sha256 == control.expected_sha256
    &&& ack.integrity_ok
}

/// Checks the confirmation of a transfer.
pub fn check_ack(ack: &FileCompletionAck, control: &FileControl, sent: u64) -> (result: Result<
    (),
    String,
>)
    ensures
        match result {
            Ok(()) => confirms(*ack, *control, sent),
            Err(error) => !confirms(*ack, *control, sent) && error@ == "integrity-mismatch"@,
        },
{
    if sent != control.file_size || !bytes_equal(&ack.transfer_id, &control.transfer_id)
        || ack.received_bytes != control.file_size || !bytes_equal(
        &ack.sha256,
        &control.expected_sha256,
    ) || !ack.integrity_ok {
        return Err("integrity-mismatch".to_owned());
    }
    assert(ack.transfer_id =~= control.transfer_id);
    assert(ack.sha256 =~= control.expected_sha256);
    Ok(())
}

/// The ranges of the first `n` streams, recorded in the order of the streams.
pub open spec fn planned_ranges(
    transfer_id: [u8; 16],
    file_size: u64,
    streams: u8,
    n: int,
) -> Map<u64, (u64, u32)>
    decreases n,
{
    if n <= 0 {
        Map::empty()
    } else {
        let header = planned(transfer_id, file_size, streams, n - 1);
        planned_ranges(transfer_id, file_size, streams, n - 1).insert(
            header.offset,
            (header.length, header.range_id),
        )
    }
}

proof fn lemma_planned_ranges(transfer_id: [u8; 16], file_size: u64, streams: u8, n: int)
    requires
        0 < streams <= file_size,
        0 <= n <= streams,
    ensures
        forall|offset: u64| #[trigger]
            planned_ranges(transfer_id, file_size, streams, n).contains_key(offset) ==> {
                &&& planned_ranges(transfer_id, file_size, streams, n)[offset].0 > 0
                &&& offset + planned_ranges(transfer_id, file_size, streams, n)[offset].0 <= if n
                    == streams {
                    file_size as int
                } else {
                    range_start(file_size, streams, n)
                }
            },
        forall|position: int|
            0 <= position < if n == streams {
                file_size as int
            } else {
                range_start(file_size, streams, n)
            } ==> #[trigger] crate::protocol::covers(
                planned_ranges(transfer_id, file_size, streams, n),
                position,
            ),
    decreases n,
{
    if n > 0 {
        lemma_planned_ranges(transfer_id, file_size, streams, n - 1);
        law_ranges_tile_the_file(file_size, streams, n - 1);
        lemma_range(file_size, streams, n - 1);
        let before = planned_ranges(transfer_id, file_size, streams, n - 1);
        let after = planned_ranges(transfer_id, file_size, streams, n);
        let header = planned(transfer_id, file_size, streams, n - 1);
        let end = if n == streams {
            file_size as int
        } else {
            range_start(file_size, streams, n)
        };
        assert forall|position: int| 0 <= position < end implies #[trigger] crate::protocol::covers(
            after,
            position,
        ) by {
            if position < header.offset {
                assert(crate::protocol::covers(before, position));
                let offset = choose|offset: u64| #[trigger]
                    before.contains_key(offset) && offset <= position < offset + before[offset].0;
                assert(after.contains_key(offset));
                assert(offset != header.offset);
            } else {
                assert(after.contains_key(header.offset));
            }
        }
    } else {
        law_ranges_tile_the_file(file_size, streams, 0);
    }
}

/// A receiver that gets the planned range of every stream records them all, and they hold the
/// whole file: none collides with another, none reaches past the end, and no byte is missing.
pub proof fn law_planned_ranges_complete_the_file(
    transfer_id: [u8; 16],
    file_size: u64,
    streams: u8,
    results: Seq<Result<RangeHeader, String>>,
    n: int,
)
    requires
        0 < streams <= file_size,
        0 <= n <= streams,
        results.len() == streams,
        forall|i: int|
            0 <= i < streams ==> #[trigger] results[i] == Ok::<RangeHeader, String>(
                planned(transfer_id, file_size, streams, i),
            ),
    ensures
        gathered(results, n).error is None,
        gathered(results, n).ranges == planned_ranges(transfer_id, file_size, streams, n),
        gathered(results, n).count == n,
        n == streams ==> crate::protocol::covers_file(gathered(results, n).ranges, file_size),
    decreases n,
{
    lemma_planned_ranges(transfer_id, file_size, streams, n);
    if n > 0 {
        law_planned_ranges_complete_the_file(transfer_id, file_size, streams, results, n - 1);
        lemma_planned_ranges(transfer_id, file_size, streams, n - 1);
        lemma_range(file_size, streams, n - 1);
        assert(results[n - 1] == Ok::<RangeHeader, String>(
            planned(transfer_id, file_size, streams, n - 1),
        ));
        let before = planned_ranges(transfer_id, file_size, streams, n - 1);
        let header = planned(transfer_id, file_size, streams, n - 1);
        assert(!crate::protocol::covers(before, header.offset as int));
        assert(!crate::protocol::starts_within(
            before,
            header.offset as int,
            header.offset + header.length,
        ));
        assert(gathered(results, n).ranges == planned_ranges(transfer_id, file_size, streams, n));
        if n == streams {
            assert(crate::protocol::covers_file(
                planned_ranges(transfer_id, file_size, streams, n),
                file_size,
            ));
        }
    }
}

/// Once the planned range of every stream has come in full, the manifest of the sender is
/// accepted: the ledger is whole, and the transfer goes on to be validated.
pub proof fn law_planned_ranges_are_accepted(
    progress: TransferProgress,
    ledger: RangeLedger,
    streams: u8,
    results: Seq<Result<RangeHeader, String>>,
    manifest: CompletionManifest,
    expected_sha256: [u8; 32],
)
    requires
        streams <= progress.blocks.file_size,
        streams == 0 ==> progress.blocks.file_size == 0,
        results.len() == streams,
        forall|i: int|
            0 <= i < streams ==> #[trigger] results[i] == Ok::<RangeHeader, String>(
                planned(progress.transfer_id, progress.blocks.file_size, streams, i),
            ),
        ledger.wf(),
        ledger@ == gathered(results, streams as int).ranges,
        ledger.range_count() == gathered(results, streams as int).count,
        manifest == (CompletionManifest {
            version: NATIVE_QUIC_PROTOCOL_VERSION,
            transfer_id: progress.transfer_id,
            expected_bytes: progress.blocks.file_size,
            expected_ranges: streams as u32,
            sha256: Some(expected_sha256),
        }),
    ensures
        ledger.received() == progress.blocks.file_size,
        ledger.incomplete(manifest, progress.blocks.file_size) is None,
        progress.manifest_refusal(ledger, manifest, expected_sha256, false) is None,
{
    let file_size = progress.blocks.file_size;
    if streams > 0 {
        law_planned_ranges_complete_the_file(
            progress.transfer_id,
            file_size,
            streams,
            results,
            streams as int,
        );
    } else {
        assert(ledger@ == Map::<u64, (u64, u32)>::empty());
    }
    crate::protocol::law_full_ledger_has_received_the_file(ledger, file_size);
}

/// What a checkpoint holds, beside what names its source.
#[derive(Debug)]
pub struct CheckpointPlan {
    pub transfer_id: [u8; 16],
    pub invitation_id: [u8; 16],
    pub lifecycle_generation: u64,
    pub checkpoint_generation: u64,
    pub checkpoint_state: TransferState,
    pub expected_sha256: [u8; 32],
    pub final_filename: String,
    pub part_filename: String,
    pub completed_bitmap: Vec<u8>,
    pub completed_bytes: u64,
    pub checkpoint_unix_ms: u64,
    pub manifest: BlockHashManifest,
    pub sidecar_digest: [u8; 32],
}

impl TransferProgress {
    /// Starts a checkpoint: the authorization of the transfer is looked up. Without an expected
    /// digest there is nothing that could be resumed.
    pub fn begin_checkpoint(&mut self, registry: &mut AuthorizationRegistry, now: u64) -> (result:
        Result<AuthorizationMaterial, String>)
        requires
            old(self).counters.takes(TransferEvent::CheckpointStarted),
            old(registry).wf(),
        ensures
            final(registry).wf(),
            *final(self) == (TransferProgress {
                counters: old(self).counters.after(TransferEvent::CheckpointStarted),
                ..*old(self)
            }),
            if old(self).expected_sha256 is None {
                &&& result matches Err(error) && error@ == "resume-state-invalid"@
                &&& *final(registry) == *old(registry)
            } else {
                &&& final(registry).log() == old(registry).log()
                &&& final(registry).policy() == old(registry).policy()
                &&& match invitation_for(old(registry).records(), old(self).transfer_id@) {
                    None => {
                        &&& result matches Err(error) && error@ == "resume-authorization-failed"@
                        &&& final(registry).records() == old(registry).records()
                    },
                    Some(id) => {
                        let record = refreshed(
                            old(registry).records()[id],
                            old(registry).policy(),
                            now,
                        );
                        &&& final(registry).records() == old(registry).records().insert(id, record)
                        &&& match withheld(record.state) {
                            Some(reason) => result matches Err(error) && error@ == reason,
                            None => result matches Ok(material) && material.invitation.same(
                                record.invitation,
                            ) && material.master == record.master,
                        }
                    },
                }
            },
    {
        self.counters.note(TransferEvent::CheckpointStarted);
        if self.expected_sha256.is_none() {
            return Err("resume-state-invalid".to_owned());
        }
        material_for_transfer(registry, &self.transfer_id, now)
    }

    /// Why no checkpoint can be made, if none can.
    pub open spec fn checkpoint_defect(
        self,
        style: PathStyle,
        destination_path: Seq<char>,
        part_path: Seq<char>,
    ) -> Option<Seq<char>> {
        if self.expected_sha256 is None || file_name_of(style, destination_path) is None
            || file_name_of(style, part_path) is None {
            Some("resume-state-invalid"@)
        } else if entries_for(
            self.blocks.hashes@,
            (self.checkpoint_generation + 1) as u64,
            self.blocks.file_size,
            self.blocks.block_size,
            self.blocks.total_blocks as nat,
        ).len() > u32::MAX {
            Some("block-hash-layout-invalid"@)
        } else {
            None
        }
    }

    /// Makes the next checkpoint: the digests of the completed blocks are bound to the
    /// invitation and to the part file and tagged with the key.
    pub fn plan_checkpoint(
        &self,
        style: PathStyle,
        invitation_id: [u8; 16],
        part_identity_digest: [u8; 32],
        checkpoint_key: &[u8; 32],
        destination_path: &str,
        part_path: &str,
        state: TransferState,
        now: u64,
    ) -> (result: Result<CheckpointPlan, String>)
        requires
            self.blocks.wf(),
            self.checkpoint_generation < u64::MAX,
        ensures
            match result {
                Ok(plan) => {
                    &&& self.checkpoint_defect(style, destination_path@, part_path@) is None
                    &&& plan.transfer_id == self.transfer_id
                    &&& plan.invitation_id == invitation_id
                    &&& plan.lifecycle_generation == self.lifecycle.generation
                    &&& plan.checkpoint_generation == self.checkpoint_generation + 1
                    &&& plan.checkpoint_state == state
                    &&& Some(plan.expected_sha256) == self.expected_sha256
                    &&& file_name_of(style, destination_path@) == Some(plan.final_filename@)
                    &&& file_name_of(style, part_path@) == Some(plan.part_filename@)
                    &&& plan.completed_bitmap@ == self.blocks.bitmap@
                    &&& plan.completed_bytes == completed_length(
                        self.blocks.bitmap@,
                        self.blocks.file_size,
                        self.blocks.block_size,
                        self.blocks.total_blocks as nat,
                    )
                    &&& plan.checkpoint_unix_ms == now
                    &&& plan.manifest.transfer_id == self.transfer_id
                    &&& plan.manifest.invitation_id == invitation_id
                    &&& plan.manifest.part_identity_digest == part_identity_digest
                    &&& plan.manifest.checkpoint_generation == plan.checkpoint_generation
                    &&& plan.manifest.file_size == self.blocks.file_size
                    &&& plan.manifest.block_size == self.blocks.block_size
                    &&& plan.manifest.total_blocks == self.blocks.total_blocks
                    &&& plan.manifest.entries@ == entries_for(
                        self.blocks.hashes@,
                        plan.checkpoint_generation,
                        self.blocks.file_size,
                        self.blocks.block_size,
                        self.blocks.total_blocks as nat,
                    )
                    &&& plan.manifest.payload_defect() is None
                    &&& plan.manifest.authentication_tag == hmac_sha256_tag(
                        checkpoint_key@,
                        plan.manifest.payload(),
                    )
                    &&& plan.sidecar_digest == sha256_digest(
                        plan.manifest.payload() + plan.manifest.authentication_tag@,
                    )
                },
                Err(error) => self.checkpoint_defect(style, destination_path@, part_path@) == Some(error@),
            },
    {
        let expected_sha256: [u8; 32] = match self.expected_sha256 {
            Some(digest) => digest,
            None => {
                return Err("resume-state-invalid".to_owned());
            },
        };
        let generation: u64 = self.checkpoint_generation + 1;
        let completed_bytes: u64 = self.blocks.completed_bytes();
        let final_filename = match file_name(style, destination_path) {
            Some(name) => name,
            None => {
                return Err("resume-state-invalid".to_owned());
            },
        };
        let part_filename = match file_name(style, part_path) {
            Some(name) => name,
            None => {
                return Err("resume-state-invalid".to_owned());
            },
        };
        let mut manifest = match from_hashes(
            self.transfer_id,
            generation,
            self.blocks.file_size,
            self.blocks.block_size,
            self.blocks.hashes.as_slice(),
        ) {
            Ok(manifest) => manifest,
            Err(error) => {
                return Err(error);
            },
        };
        match manifest.authenticate(invitation_id, part_identity_digest, checkpoint_key) {
            Ok(()) => {},
            Err(error) => {
                return Err(error);
            },
        }
        let sidecar_digest: [u8; 32] = match manifest.authenticated_digest() {
            Ok(digest) => digest,
            Err(error) => {
                return Err(error);
            },
        };
        Ok(
            CheckpointPlan {
                transfer_id: self.transfer_id,
                invitation_id,
                lifecycle_generation: self.lifecycle.generation,
                checkpoint_generation: generation,
                checkpoint_state: state,
                expected_sha256,
                final_filename,
                part_filename,
                completed_bitmap: copy_of(self.blocks.bitmap.as_slice()),
                completed_bytes,
                checkpoint_unix_ms: now,
                manifest,
                sidecar_digest,
            },
        )
    }

    /// Notes a checkpoint that was written.
    pub fn checkpoint_written(&mut self, plan: &CheckpointPlan, sidecar_bytes: u64)
        ensures
            *final(self) == (TransferProgress {
                checkpoint_generation: plan.checkpoint_generation,
                last_checkpoint_unix_ms: Some(plan.checkpoint_unix_ms),
                checkpoint_succeeded: true,
                resume_available: true,
                partial_retained: true,
                block_hash_sidecar_bytes: sidecar_bytes,
                ..*old(self)
            }),
    {
        self.checkpoint_generation = plan.checkpoint_generation;
        self.last_checkpoint_unix_ms = Some(plan.checkpoint_unix_ms);
        self.checkpoint_succeeded = true;
        self.resume_available = true;
        self.partial_retained = true;
        self.block_hash_sidecar_bytes = sidecar_bytes;
    }

    /// Ends a checkpoint, whether it was written or not.
    pub fn end_checkpoint(&mut self)
        ensures
            *final(self) == (TransferProgress {
                counters: old(self).counters.after(TransferEvent::CheckpointEnded),
                ..*old(self)
            }),
    {
        self.counters.note(TransferEvent::CheckpointEnded);
    }
}

/// The digest of a file that is read piece by piece.
pub struct ContentDigest {
    digest: StreamDigest,
}

impl ContentDigest {
    /// What was read so far.
    pub closed spec fn taken(self) -> Seq<u8> {
        crate::crypto::collected_bytes(self.digest)
    }

    /// Nothing was read yet.
    pub fn begin() -> (content: Self)
        ensures
            content.taken() == Seq::<u8>::empty(),
    {
        ContentDigest { digest: StreamDigest::new() }
    }

    /// Takes the next piece.
    pub fn take(&mut self, piece: &[u8])
        ensures
            final(self).taken() == old(self).taken() + piece@,
    {
        self.digest.update(piece);
    }

    /// The digest of everything that was read, however it was cut into pieces.
    pub fn finish(self) -> (digest: [u8; 32])
        ensures
            digest == sha256_digest(self.taken()),
    {
        self.digest.finish()
    }
}

} // verus!
