//! The wire protocol of one transfer: range headers, the ledger of received ranges, and the
//! binding that ties a resumed session to its checkpoint.

use crate::arith::{ceil_div, div_ceil};
use crate::bitmap::{bit_set, bitmap_fits, has_bitmap_size, is_set};
use crate::bytes::{
    append, append_u16, append_u32, append_u64, be_bytes, be_value, bytes_equal, read_16, read_u16,
    read_u32, read_u64,
};
use crate::crypto::{sha256, sha256_digest};
use crate::text::{append_text, chars_of, decimal, decimal_text, same_text};
use vstd::prelude::*;

verus! {

pub const NATIVE_QUIC_PROTOCOL_VERSION: u16 = 3;

/// The letters `FQRG`.
pub const RANGE_MAGIC: [u8; 4] = [0x46, 0x51, 0x52, 0x47];

/// Magic, version, transfer, range, offset, length and flags.
pub const RANGE_HEADER_BYTES: usize = 44;

pub const RESUME_CAP_BLOCK_SHA256: u64 = 1;

pub const RESUME_CAP_MISSING_RANGES: u64 = 2;

pub const RESUME_CAP_NEW_SESSION: u64 = 4;

/// All three of the capabilities above.
pub const RESUME_REQUIRED_CAPABILITIES: u64 = 7;

pub const MAX_MISSING_RANGES: usize = 1_000_000;

/// Why a message of the protocol was refused.
#[derive(Debug, Clone, PartialEq, Eq)]
pub enum ProtocolError {
    Malformed(&'static str),
    UnsupportedVersion(u16),
    WrongTransfer,
    OutOfBounds,
    LengthMismatch,
    DuplicateRange,
    OverlappingRange,
    IncompleteTransfer,
    PayloadAfterFinalization,
    InvalidResumeState,
    WrongSession,
    StaleCheckpoint,
    ResumeMismatch,
    ResumeDowngrade,
}

/// Whether `error` is the malformed-message error with the given text.
pub open spec fn is_malformed(error: ProtocolError, message: Seq<char>) -> bool {
    error matches ProtocolError::Malformed(text) && text@ == message
}

impl ProtocolError {
    /// The text of the error in reports: the name of the variant, with its field in brackets.
    pub open spec fn text(self) -> Seq<char> {
        match self {
            ProtocolError::Malformed(message) => "Malformed(\""@ + message@ + "\")"@,
            ProtocolError::UnsupportedVersion(version) => "UnsupportedVersion("@ + decimal_text(
                version as nat,
            ) + ")"@,
            ProtocolError::WrongTransfer => "WrongTransfer"@,
            ProtocolError::OutOfBounds => "OutOfBounds"@,
            ProtocolError::LengthMismatch => "LengthMismatch"@,
            ProtocolError::DuplicateRange => "DuplicateRange"@,
            ProtocolError::OverlappingRange => "OverlappingRange"@,
            ProtocolError::IncompleteTransfer => "IncompleteTransfer"@,
            ProtocolError::PayloadAfterFinalization => "PayloadAfterFinalization"@,
            ProtocolError::InvalidResumeState => "InvalidResumeState"@,
            ProtocolError::WrongSession => "WrongSession"@,
            ProtocolError::StaleCheckpoint => "StaleCheckpoint"@,
            ProtocolError::ResumeMismatch => "ResumeMismatch"@,
            ProtocolError::ResumeDowngrade => "ResumeDowngrade"@,
        }
    }

    /// The text of the error in reports.
    pub fn message(&self) -> (message: String)
        ensures
            message@ == self.text(),
    {
        match self {
            ProtocolError::Malformed(reason) => {
                let mut message: String = "Malformed(\"".to_owned();
                append_text(&mut message, *reason);
                append_text(&mut message, "\")");
                message
            },
            ProtocolError::UnsupportedVersion(version) => {
                let mut message: String = "UnsupportedVersion(".to_owned();
                append_text(&mut message, decimal(*version as u64).as_str());
                append_text(&mut message, ")");
                message
            },
            ProtocolError::WrongTransfer => "WrongTransfer".to_owned(),
            ProtocolError::OutOfBounds => "OutOfBounds".to_owned(),
            ProtocolError::LengthMismatch => "LengthMismatch".to_owned(),
            ProtocolError::DuplicateRange => "DuplicateRange".to_owned(),
            ProtocolError::OverlappingRange => "OverlappingRange".to_owned(),
            ProtocolError::IncompleteTransfer => "IncompleteTransfer".to_owned(),
            ProtocolError::PayloadAfterFinalization => "PayloadAfterFinalization".to_owned(),
            ProtocolError::InvalidResumeState => "InvalidResumeState".to_owned(),
            ProtocolError::WrongSession => "WrongSession".to_owned(),
            ProtocolError::StaleCheckpoint => "StaleCheckpoint".to_owned(),
            ProtocolError::ResumeMismatch => "ResumeMismatch".to_owned(),
            ProtocolError::ResumeDowngrade => "ResumeDowngrade".to_owned(),
        }
    }
}

/// A run of blocks that are still missing.
#[derive(Debug, Clone, PartialEq, Eq)]
pub struct MissingBlockRange {
    pub start_block: u64,
    pub block_count: u64,
}

impl MissingBlockRange {
    /// The first block past the run.
    pub open spec fn end(self) -> int {
        self.start_block + self.block_count
    }

    /// Whether `block` belongs to the run.
    pub open spec fn holds(self, block: int) -> bool {
        self.start_block <= block < self.end()
    }
}

/// Whether `block` is one of the first `total` blocks and its bit is clear.
pub open spec fn is_missing(bitmap: Seq<u8>, total: int, block: int) -> bool {
    0 <= block < total && !bit_set(bitmap, block)
}

/// Whether a run of missing blocks starts at `block`.
pub open spec fn run_starts(bitmap: Seq<u8>, total: int, block: int) -> bool {
    is_missing(bitmap, total, block) && !is_missing(bitmap, total, block - 1)
}

/// How many runs of missing blocks start among the first `n` blocks.
pub open spec fn run_count(bitmap: Seq<u8>, total: int, n: nat) -> nat
    decreases n,
{
    if n == 0 {
        0
    } else {
        run_count(bitmap, total, (n - 1) as nat) + if run_starts(bitmap, total, n - 1) {
            1nat
        } else {
            0nat
        }
    }
}

/// How many of the first `n` blocks are missing.
pub open spec fn missing_count(bitmap: Seq<u8>, total: int, n: nat) -> nat
    decreases n,
{
    if n == 0 {
        0
    } else {
        missing_count(bitmap, total, (n - 1) as nat) + if is_missing(bitmap, total, n - 1) {
            1nat
        } else {
            0nat
        }
    }
}

/// Non-empty runs within `total` blocks, in ascending order, with a gap between neighbours.
pub open spec fn separated_ranges(ranges: Seq<MissingBlockRange>, total: int) -> bool {
    &&& forall|i: int|
        0 <= i < ranges.len() ==> 0 < (#[trigger] ranges[i]).block_count && ranges[i].end()
            <= total
    &&& forall|i: int, j: int|
        0 <= i < j < ranges.len() ==> (#[trigger] ranges[i]).end() < (
        #[trigger] ranges[j]).start_block
}

/// The number of blocks in all the runs together.
pub open spec fn blocks_in(ranges: Seq<MissingBlockRange>) -> nat
    decreases ranges.len(),
{
    if ranges.len() == 0 {
        0
    } else {
        blocks_in(ranges.drop_last()) + ranges.last().block_count as nat
    }
}

/// Whether some run holds `block`.
pub open spec fn some_range_holds(ranges: Seq<MissingBlockRange>, block: int) -> bool {
    exists|i: int| 0 <= i < ranges.len() && (#[trigger] ranges[i]).holds(block)
}

/// Whether `ranges` are exactly the maximal runs of missing blocks.
pub open spec fn are_missing_runs(
    ranges: Seq<MissingBlockRange>,
    bitmap: Seq<u8>,
    total: int,
) -> bool {
    &&& separated_ranges(ranges, total)
    &&& forall|block: int|
        #[trigger] is_missing(bitmap, total, block) <==> some_range_holds(ranges, block)
}

/// The maximal runs of blocks whose bit is clear, in ascending order.
///
/// A bitmap of the wrong size is refused, and so is one with more than `MAX_MISSING_RANGES`
/// runs.
pub fn missing_block_ranges(
    completed_bitmap: &[u8],
    total_blocks: u64,
) -> (result: Result<Vec<MissingBlockRange>, ProtocolError>)
    ensures
        match result {
            Ok(ranges) => {
                &&& bitmap_fits(completed_bitmap@, total_blocks as int)
                &&& are_missing_runs(ranges@, completed_bitmap@, total_blocks as int)
                &&& ranges@.len() == run_count(
                    completed_bitmap@,
                    total_blocks as int,
                    total_blocks as nat,
                )
                &&& ranges@.len() <= MAX_MISSING_RANGES
                &&& blocks_in(ranges@) == missing_count(
                    completed_bitmap@,
                    total_blocks as int,
                    total_blocks as nat,
                )
            },
            Err(error) => {
                &&& error is InvalidResumeState
                &&& !bitmap_fits(completed_bitmap@, total_blocks as int) || run_count(
                    completed_bitmap@,
                    total_blocks as int,
                    total_blocks as nat,
                ) > MAX_MISSING_RANGES
            },
        },
{
    if !has_bitmap_size(completed_bitmap, total_blocks) {
        return Err(ProtocolError::InvalidResumeState);
    }
    let ghost bitmap = completed_bitmap@;
    let ghost total = total_blocks as int;
    let mut output: Vec<MissingBlockRange> = Vec::new();
    let mut cursor: u64 = 0;
    while cursor < total_blocks
        invariant
            bitmap == completed_bitmap@,
            total == total_blocks,
            bitmap_fits(bitmap, total),
            cursor <= total_blocks,
            output@.len() == run_count(bitmap, total, cursor as nat),
            output@.len() <= MAX_MISSING_RANGES,
            blocks_in(output@) == missing_count(bitmap, total, cursor as nat),
            separated_ranges(output@, cursor as int),
            cursor == 0 || cursor == total || !is_missing(bitmap, total, cursor - 1)
                || !is_missing(bitmap, total, cursor as int),
            forall|block: int|
                block < cursor ==> (#[trigger] is_missing(bitmap, total, block)
                    <==> some_range_holds(output@, block)),
        decreases total_blocks - cursor,
    {
        if is_set(completed_bitmap, cursor) {
            proof {
                assert(!is_missing(bitmap, total, cursor as int));
                assert forall|block: int| block < cursor + 1 implies (#[trigger] is_missing(
                    bitmap,
                    total,
                    block,
                ) <==> some_range_holds(output@, block)) by {
                    if block == cursor {
                        assert(!some_range_holds(output@, block));
                    }
                }
            }
            cursor += 1;
            continue ;
        }
        let start: u64 = cursor;
        let ghost before = output@;
        proof {
            assert(run_starts(bitmap, total, start as int));
        }
        cursor += 1;
        while cursor < total_blocks && !is_set(completed_bitmap, cursor)
            invariant
                bitmap == completed_bitmap@,
                total == total_blocks,
                bitmap_fits(bitmap, total),
                start < cursor <= total_blocks,
                forall|block: int|
                    start <= block < cursor ==> #[trigger] is_missing(bitmap, total, block),
                run_count(bitmap, total, cursor as nat) == run_count(bitmap, total, start as nat)
                    + 1,
                missing_count(bitmap, total, cursor as nat) == missing_count(
                    bitmap,
                    total,
                    start as nat,
                ) + (cursor - start),
            decreases total_blocks - cursor,
        {
            assert(is_missing(bitmap, total, cursor as int));
            assert(is_missing(bitmap, total, cursor - 1));
            cursor += 1;
        }
        output.push(MissingBlockRange { start_block: start, block_count: cursor - start });
        proof {
            let last = output@.last();
            assert(output@.drop_last() =~= before);
            assert(blocks_in(output@) == blocks_in(before) + last.block_count);
            assert forall|block: int| block < cursor implies (#[trigger] is_missing(
                bitmap,
                total,
                block,
            ) <==> some_range_holds(output@, block)) by {
                if block < start {
                    if some_range_holds(before, block) {
                        let i = choose|i: int|
                            0 <= i < before.len() && (#[trigger] before[i]).holds(block);
                        assert(output@[i].holds(block));
                    }
                    if some_range_holds(output@, block) {
                        let i = choose|i: int|
                            0 <= i < output@.len() && (#[trigger] output@[i]).holds(block);
                        assert(i < before.len());
                        assert(before[i].holds(block));
                    }
                } else {
                    assert(output@[output@.len() - 1].holds(block));
                }
            }
            if start > 0 {
                assert(!is_missing(bitmap, total, start - 1));
                assert forall|i: int| 0 <= i < before.len() implies (#[trigger] before[i]).end()
                    < start by {
                    if before[i].end() == start {
                        assert(before[i].holds(start - 1));
                        assert(some_range_holds(before, start - 1));
                    }
                }
            }
            if output@.len() > MAX_MISSING_RANGES {
                lemma_run_count_monotonic(bitmap, total, cursor as nat, total_blocks as nat);
            }
        }
        if output.len() > MAX_MISSING_RANGES {
            return Err(ProtocolError::InvalidResumeState);
        }
    }
    proof {
        assert forall|block: int|
            #[trigger] is_missing(bitmap, total, block) <==> some_range_holds(output@, block) by {
            if block >= total {
                assert(!some_range_holds(output@, block));
            }
        }
    }
    Ok(output)
}

proof fn lemma_run_count_monotonic(bitmap: Seq<u8>, total: int, low: nat, high: nat)
    requires
        low <= high,
    ensures
        run_count(bitmap, total, low) <= run_count(bitmap, total, high),
    decreases high,
{
    if low < high {
        lemma_run_count_monotonic(bitmap, total, low, (high - 1) as nat);
    }
}

/// Whether a claimed list of missing runs is acceptable.
pub open spec fn valid_missing_ranges(ranges: Seq<MissingBlockRange>, total: int) -> bool {
    &&& ranges.len() <= MAX_MISSING_RANGES
    &&& separated_ranges(ranges, total)
}

/// A further run past the last one keeps the runs separated.
proof fn lemma_extend_separated(
    ranges: Seq<MissingBlockRange>,
    next: MissingBlockRange,
    total: int,
)
    requires
        separated_ranges(ranges, total),
        next.block_count > 0,
        next.end() <= total,
        ranges.len() > 0 ==> ranges.last().end() < next.start_block,
    ensures
        separated_ranges(ranges.push(next), total),
        blocks_in(ranges.push(next)) == blocks_in(ranges) + next.block_count,
{
    let longer = ranges.push(next);
    assert(longer.drop_last() =~= ranges);
    assert forall|i: int, j: int| 0 <= i < j < longer.len() implies (#[trigger] longer[i]).end() < (
    #[trigger] longer[j]).start_block by {
        let last = ranges.len() - 1;
        if j > last {
            if i < last {
                assert(ranges[i].end() < ranges[last].start_block);
            }
        } else {
            assert(ranges[i].end() < ranges[j].start_block);
        }
    }
}

/// Checks a claimed list of missing runs and returns the number of blocks in it.
pub fn validate_missing_ranges(
    ranges: &[MissingBlockRange],
    total_blocks: u64,
) -> (result: Result<u64, ProtocolError>)
    ensures
        match result {
            Ok(missing) => valid_missing_ranges(ranges@, total_blocks as int) && missing
                == blocks_in(ranges@),
            Err(error) => error is InvalidResumeState && !valid_missing_ranges(
                ranges@,
                total_blocks as int,
            ),
        },
{
    if ranges.len() > MAX_MISSING_RANGES {
        return Err(ProtocolError::InvalidResumeState);
    }
    let mut prior_end: u64 = 0;
    let mut missing: u64 = 0;
    let mut index: usize = 0;
    while index < ranges.len()
        invariant
            index <= ranges.len(),
            separated_ranges(ranges@.take(index as int), total_blocks as int),
            missing == blocks_in(ranges@.take(index as int)),
            missing <= prior_end <= total_blocks,
            index > 0 ==> prior_end == ranges@[index - 1].end(),
        decreases ranges.len() - index,
    {
        let ghost seen = ranges@.take(index as int);
        let start: u64 = ranges[index].start_block;
        let count: u64 = ranges[index].block_count;
        let end: u64 = match start.checked_add(count) {
            Some(end) => end,
            None => {
                assert(ranges@[index as int].end() > total_blocks);
                return Err(ProtocolError::InvalidResumeState);
            },
        };
        assert(ranges@[index as int].end() == end);
        if count == 0 || end > total_blocks {
            return Err(ProtocolError::InvalidResumeState);
        }
        if index != 0 && start <= prior_end {
            assert(ranges@[index - 1].end() >= ranges@[index as int].start_block);
            return Err(ProtocolError::InvalidResumeState);
        }
        proof {
            lemma_extend_separated(seen, ranges@[index as int], total_blocks as int);
            assert(ranges@.take(index + 1) =~= seen.push(ranges@[index as int]));
        }
        missing += count;
        prior_end = end;
        index += 1;
    }
    assert(ranges@.take(ranges@.len() as int) =~= ranges@);
    Ok(missing)
}

/// The runs found in a bitmap are always accepted as a claim about it, and the claim counts
/// exactly the missing blocks.
pub proof fn law_missing_runs_are_valid_claims(
    ranges: Seq<MissingBlockRange>,
    bitmap: Seq<u8>,
    total: u64,
)
    requires
        are_missing_runs(ranges, bitmap, total as int),
        ranges.len() <= MAX_MISSING_RANGES,
    ensures
        valid_missing_ranges(ranges, total as int),
        blocks_in(ranges) == missing_count(bitmap, total as int, total as nat),
{
    lemma_blocks_in_runs(ranges, bitmap, total as int, total as nat);
    assert(ranges.len() > 0 ==> ranges.last().end() <= total);
}

/// The runs within the first `n` blocks hold as many blocks as are missing there, when no run
/// reaches past `n`.
proof fn lemma_blocks_in_runs(ranges: Seq<MissingBlockRange>, bitmap: Seq<u8>, total: int, n: nat)
    requires
        n <= total,
        separated_ranges(ranges, total),
        ranges.len() > 0 ==> ranges.last().end() <= n,
        forall|block: int|
            block < n ==> (#[trigger] is_missing(bitmap, total, block) <==> some_range_holds(
                ranges,
                block,
            )),
    ensures
        blocks_in(ranges) == missing_count(bitmap, total, n),
    decreases n,
{
    if n > 0 {
        let block = n - 1;
        if is_missing(bitmap, total, block) {
            assert(some_range_holds(ranges, block));
            let i = choose|i: int| 0 <= i < ranges.len() && (#[trigger] ranges[i]).holds(block);
            let last = ranges.len() - 1;
            if i < last {
                assert(ranges[i].end() < ranges[last].start_block);
            }
            let run = ranges.last();
            let rest = ranges.drop_last();
            if run.block_count == 1 {
                assert forall|b: int| b < block implies (#[trigger] is_missing(bitmap, total, b)
                    <==> some_range_holds(rest, b)) by {
                    if some_range_holds(ranges, b) {
                        let k = choose|k: int|
                            0 <= k < ranges.len() && (#[trigger] ranges[k]).holds(b);
                        assert(rest[k].holds(b));
                    }
                    if some_range_holds(rest, b) {
                        let k = choose|k: int| 0 <= k < rest.len() && (#[trigger] rest[k]).holds(b);
                        assert(ranges[k].holds(b));
                    }
                }
                if rest.len() > 0 {
                    assert(ranges[rest.len() - 1].end() < ranges[last].start_block);
                }
                lemma_blocks_in_runs(rest, bitmap, total, block as nat);
            } else {
                let shorter = MissingBlockRange {
                    start_block: run.start_block,
                    block_count: (run.block_count - 1) as u64,
                };
                let shortened = rest.push(shorter);
                assert(shortened.drop_last() =~= rest);
                assert forall|b: int| b < block implies (#[trigger] is_missing(bitmap, total, b)
                    <==> some_range_holds(shortened, b)) by {
                    if some_range_holds(ranges, b) {
                        let k = choose|k: int|
                            0 <= k < ranges.len() && (#[trigger] ranges[k]).holds(b);
                        assert(shortened[k].holds(b));
                    }
                    if some_range_holds(shortened, b) {
                        let k = choose|k: int|
                            0 <= k < shortened.len() && (#[trigger] shortened[k]).holds(b);
                        assert(ranges[k].holds(b));
                    }
                }
                lemma_blocks_in_runs(shortened, bitmap, total, block as nat);
            }
        } else {
            if ranges.len() > 0 && ranges.last().end() == n {
                assert(ranges[ranges.len() - 1].holds(block));
                assert(some_range_holds(ranges, block));
            }
            lemma_blocks_in_runs(ranges, bitmap, total, block as nat);
        }
    } else {
        if ranges.len() > 0 {
            assert(0 < ranges[ranges.len() - 1].block_count);
        }
    }
}

/// The bytes whose digest names a resume state.
pub open spec fn resume_state_bytes(total_blocks: u64, completed_bitmap: Seq<u8>) -> Seq<u8> {
    be_bytes(NATIVE_QUIC_PROTOCOL_VERSION as nat, 2) + be_bytes(total_blocks as nat, 8)
        + completed_bitmap
}

/// The digest that names a resume state: protocol version, block count and bitmap.
pub fn resume_state_digest(total_blocks: u64, completed_bitmap: &[u8]) -> (digest: [u8; 32])
    ensures
        digest == sha256_digest(resume_state_bytes(total_blocks, completed_bitmap@)),
{
    let mut input: Vec<u8> = Vec::new();
    append_u16(&mut input, NATIVE_QUIC_PROTOCOL_VERSION);
    append_u64(&mut input, total_blocks);
    append(&mut input, completed_bitmap);
    assert(input@ =~= resume_state_bytes(total_blocks, completed_bitmap@));
    sha256(input.as_slice())
}

/// What both sides of a resumed session must agree on.
#[derive(Debug, Clone, PartialEq, Eq)]
pub struct ResumeBinding {
    pub version: u16,
    pub transfer_id: [u8; 16],
    pub session_id: String,
    pub checkpoint_generation: u64,
    pub file_size: u64,
    pub block_size: u64,
    pub total_blocks: u64,
    pub expected_sha256: [u8; 32],
    pub state_digest: [u8; 32],
    pub capabilities: u64,
}

impl ResumeBinding {
    /// Whether the session is named and the block layout is that of the file.
    pub open spec fn has_layout(self) -> bool {
        &&& self.session_id@.len() > 0
        &&& self.block_size != 0
        &&& self.total_blocks == ceil_div(self.file_size as int, self.block_size as int)
    }

    /// Whether all capabilities that a resumed session needs are offered.
    pub open spec fn has_capabilities(self) -> bool {
        self.capabilities & RESUME_REQUIRED_CAPABILITIES == RESUME_REQUIRED_CAPABILITIES
    }

    /// The first thing wrong with the binding on its own, if anything is.
    pub open spec fn defect(self) -> Option<ProtocolError> {
        if self.version != NATIVE_QUIC_PROTOCOL_VERSION {
            Some(ProtocolError::UnsupportedVersion(self.version))
        } else if !self.has_layout() {
            Some(ProtocolError::InvalidResumeState)
        } else if !self.has_capabilities() {
            Some(ProtocolError::ResumeDowngrade)
        } else {
            None
        }
    }

    /// Whether both bindings name the same file content and checkpoint state.
    pub open spec fn same_content(self, other: Self) -> bool {
        &&& self.file_size == other.file_size
        &&& self.block_size == other.block_size
        &&& self.total_blocks == other.total_blocks
        &&& self.expected_sha256@ == other.expected_sha256@
        &&& self.state_digest@ == other.state_digest@
    }

    /// The first reason why the binding does not match `expected`, if there is one.
    pub open spec fn mismatch(self, expected: Self) -> Option<ProtocolError> {
        if self.defect() is Some {
            self.defect()
        } else if expected.defect() is Some {
            expected.defect()
        } else if self.transfer_id@ != expected.transfer_id@ {
            Some(ProtocolError::WrongTransfer)
        } else if self.session_id@ != expected.session_id@ {
            Some(ProtocolError::WrongSession)
        } else if self.checkpoint_generation != expected.checkpoint_generation {
            Some(ProtocolError::StaleCheckpoint)
        } else if !self.same_content(expected) {
            Some(ProtocolError::ResumeMismatch)
        } else if self.capabilities != expected.capabilities {
            Some(ProtocolError::ResumeDowngrade)
        } else {
            None
        }
    }

    /// Checks the binding on its own.
    pub fn validate(&self) -> (result: Result<(), ProtocolError>)
        ensures
            match result {
                Ok(()) => self.defect() is None,
                Err(error) => self.defect() == Some(error),
            },
    {
        if self.version != NATIVE_QUIC_PROTOCOL_VERSION {
            return Err(ProtocolError::UnsupportedVersion(self.version));
        }
        if self.session_id.as_str().is_empty() || self.block_size == 0 {
            return Err(ProtocolError::InvalidResumeState);
        }
        if self.total_blocks != div_ceil(self.file_size, self.block_size) {
            return Err(ProtocolError::InvalidResumeState);
        }
        if self.capabilities & RESUME_REQUIRED_CAPABILITIES != RESUME_REQUIRED_CAPABILITIES {
            return Err(ProtocolError::ResumeDowngrade);
        }
        Ok(())
    }

    /// Checks the binding against the one that this side expects.
    pub fn validate_matches(&self, expected: &Self) -> (result: Result<(), ProtocolError>)
        ensures
            match result {
                Ok(()) => self.mismatch(*expected) is None,
                Err(error) => self.mismatch(*expected) == Some(error),
            },
    {
        match self.validate() {
            Ok(()) => {},
            Err(error) => return Err(error),
        }
        match expected.validate() {
            Ok(()) => {},
            Err(error) => return Err(error),
        }
        if !bytes_equal(&self.transfer_id, &expected.transfer_id) {
            return Err(ProtocolError::WrongTransfer);
        }
        if !same_text(self.session_id.as_str(), expected.session_id.as_str()) {
            return Err(ProtocolError::WrongSession);
        }
        if self.checkpoint_generation != expected.checkpoint_generation {
            return Err(ProtocolError::StaleCheckpoint);
        }
        if self.file_size != expected.file_size || self.block_size != expected.block_size
            || self.total_blocks != expected.total_blocks || !bytes_equal(
            &self.expected_sha256,
            &expected.expected_sha256,
        ) || !bytes_equal(&self.state_digest, &expected.state_digest) {
            return Err(ProtocolError::ResumeMismatch);
        }
        if self.capabilities != expected.capabilities {
            return Err(ProtocolError::ResumeDowngrade);
        }
        Ok(())
    }
}

/// A binding that is valid on its own matches itself.
pub proof fn law_valid_binding_matches_itself(binding: ResumeBinding)
    requires
        binding.defect() is None,
    ensures
        binding.mismatch(binding) is None,
{
}

/// A binding from another checkpoint generation, session or transfer never matches, nor does
/// one that lost a capability.
pub proof fn law_stale_or_downgraded_binding_is_refused(
    offered: ResumeBinding,
    expected: ResumeBinding,
)
    requires
        offered.checkpoint_generation != expected.checkpoint_generation || offered.capabilities
            != expected.capabilities || offered.session_id@ != expected.session_id@
            || offered.transfer_id@ != expected.transfer_id@ || !offered.same_content(expected),
    ensures
        offered.mismatch(expected) is Some,
{
}

#[derive(Debug, Clone, PartialEq, Eq)]
pub struct ResumeOffer {
    pub binding: ResumeBinding,
}

#[derive(Debug, Clone, PartialEq, Eq)]
pub struct ResumeState {
    pub binding: ResumeBinding,
    pub missing_ranges: Vec<MissingBlockRange>,
}

#[derive(Debug, Clone, PartialEq, Eq)]
pub struct ResumeAccept {
    pub binding: ResumeBinding,
    pub missing_range_count: u64,
    pub stream_count: u8,
}

#[derive(Debug, Clone, PartialEq, Eq)]
pub struct ResumeReject {
    pub version: u16,
    pub transfer_id: [u8; 16],
    pub session_id: String,
    pub code: String,
}

#[derive(Debug, Clone, PartialEq, Eq)]
pub struct ResumeCompletionManifest {
    pub binding: ResumeBinding,
    pub transferred_blocks: u64,
    pub transferred_bytes: u64,
    pub final_sha256: [u8; 32],
}

#[derive(Debug, Clone, PartialEq, Eq)]
pub struct ResumeCompletionAck {
    pub binding: ResumeBinding,
    pub complete_blocks: u64,
    pub received_bytes: u64,
    pub integrity_ok: bool,
    pub final_sha256: [u8; 32],
    pub cleanup_warnings: Vec<String>,
}

/// The messages that negotiate and end a resumed session.
#[derive(Debug, Clone, PartialEq, Eq)]
pub enum ResumeControlMessage {
    Offer(ResumeOffer),
    State(ResumeState),
    Accept(ResumeAccept),
    Reject(ResumeReject),
    CompletionManifest(ResumeCompletionManifest),
    CompletionAck(ResumeCompletionAck),
}

/// The announcement that opens a session.
#[derive(Debug, Clone, PartialEq, Eq)]
pub struct SessionControl {
    pub version: u16,
    pub share_id: String,
    pub transfer_id: [u8; 16],
    pub session_id: String,
    pub file_id: String,
    pub file_name: String,
    pub file_size: u64,
    pub modified_unix_ms: Option<u64>,
    pub stream_count: u8,
    pub range_bytes: u64,
    pub integrity_algorithm: String,
    pub capabilities: u64,
    pub resume_supported: bool,
    pub expires_unix_ms: u64,
}

/// Whether a file name holds a path separator.
pub open spec fn has_separator(name: Seq<char>) -> bool {
    exists|i: int| 0 <= i < name.len() && (#[trigger] name[i] == '/' || name[i] == '\\')
}

/// Whether `name` holds a path separator.
pub fn contains_separator(name: &str) -> (found: bool)
    ensures
        found == has_separator(name@),
{
    let chars = chars_of(name);
    let mut index: usize = 0;
    while index < chars.len()
        invariant
            index <= chars.len(),
            chars@ == name@,
            forall|i: int| 0 <= i < index ==> name@[i] != '/' && name@[i] != '\\',
        decreases chars.len() - index,
    {
        if chars[index] == '/' || chars[index] == '\\' {
            assert(name@[index as int] == '/' || name@[index as int] == '\\');
            return true;
        }
        index += 1;
    }
    false
}

impl SessionControl {
    /// Whether none of the identifying fields is empty.
    pub open spec fn is_named(self) -> bool {
        &&& self.share_id@.len() > 0
        &&& self.session_id@.len() > 0
        &&& self.file_id@.len() > 0
        &&& self.file_name@.len() > 0
    }

    /// Whether the stream count is one that a session may use.
    pub open spec fn has_stream_count(self) -> bool {
        self.stream_count == 1 || self.stream_count == 2 || self.stream_count == 4
    }

    /// Checks the announcement.
    pub fn validate(&self) -> (result: Result<(), ProtocolError>)
        ensures
            match result {
                Ok(()) => {
                    &&& self.version == NATIVE_QUIC_PROTOCOL_VERSION
                    &&& self.is_named()
                    &&& !has_separator(self.file_name@)
                    &&& self.has_stream_count()
                    &&& self.range_bytes != 0
                },
                Err(error) => if self.version != NATIVE_QUIC_PROTOCOL_VERSION {
                    error == ProtocolError::UnsupportedVersion(self.version)
                } else if !self.is_named() {
                    is_malformed(error, "required session field is empty"@)
                } else if has_separator(self.file_name@) || !self.has_stream_count() {
                    is_malformed(error, "invalid file name or stream count"@)
                } else {
                    is_malformed(error, "range size is zero"@) && self.range_bytes == 0
                },
            },
    {
        if self.version != NATIVE_QUIC_PROTOCOL_VERSION {
            return Err(ProtocolError::UnsupportedVersion(self.version));
        }
        if self.share_id.as_str().is_empty() || self.session_id.as_str().is_empty()
            || self.file_id.as_str().is_empty() || self.file_name.as_str().is_empty() {
            return Err(ProtocolError::Malformed("required session field is empty"));
        }
        if contains_separator(self.file_name.as_str()) || !(self.stream_count == 1
            || self.stream_count == 2 || self.stream_count == 4) {
            return Err(ProtocolError::Malformed("invalid file name or stream count"));
        }
        if self.range_bytes == 0 {
            return Err(ProtocolError::Malformed("range size is zero"));
        }
        Ok(())
    }
}

/// The header in front of the bytes of one range.
#[derive(Debug, Clone, PartialEq, Eq)]
pub struct RangeHeader {
    pub transfer_id: [u8; 16],
    pub range_id: u32,
    pub offset: u64,
    pub length: u64,
    pub flags: u16,
}

/// Copies the bytes of a complete header into an array.
fn header_array(bytes: &Vec<u8>) -> (array: [u8; RANGE_HEADER_BYTES])
    requires
        bytes@.len() == RANGE_HEADER_BYTES,
    ensures
        array@ == bytes@,
{
    let mut array: [u8; RANGE_HEADER_BYTES] = [0u8; RANGE_HEADER_BYTES];
    let mut index: usize = 0;
    while index < RANGE_HEADER_BYTES
        invariant
            index <= RANGE_HEADER_BYTES,
            bytes@.len() == RANGE_HEADER_BYTES,
            forall|i: int| 0 <= i < index ==> array@[i] == bytes@[i],
        decreases RANGE_HEADER_BYTES - index,
    {
        array[index] = bytes[index];
        index += 1;
    }
    assert(array@ =~= bytes@);
    array
}

impl RangeHeader {
    /// The bytes of the header on the wire.
    pub open spec fn wire(self) -> Seq<u8> {
        RANGE_MAGIC@ + be_bytes(NATIVE_QUIC_PROTOCOL_VERSION as nat, 2) + self.transfer_id@
            + be_bytes(self.range_id as nat, 4) + be_bytes(self.offset as nat, 8) + be_bytes(
            self.length as nat,
            8,
        ) + be_bytes(self.flags as nat, 2)
    }

    /// The bytes of the header on the wire.
    pub fn encode(&self) -> (output: [u8; RANGE_HEADER_BYTES])
        ensures
            output@ == self.wire(),
    {
        let mut bytes: Vec<u8> = Vec::new();
        append(&mut bytes, &RANGE_MAGIC);
        append_u16(&mut bytes, NATIVE_QUIC_PROTOCOL_VERSION);
        append(&mut bytes, &self.transfer_id);
        append_u32(&mut bytes, self.range_id);
        append_u64(&mut bytes, self.offset);
        append_u64(&mut bytes, self.length);
        append_u16(&mut bytes, self.flags);
        proof {
            lemma_wire_parts(*self);
            assert(bytes@ =~= self.wire());
        }
        header_array(&bytes)
    }

    /// Reads a header from its bytes.
    pub fn decode(input: &[u8]) -> (result: Result<Self, ProtocolError>)
        ensures
            match result {
                Ok(header) => input@ == header.wire(),
                Err(error) => if input@.len() != RANGE_HEADER_BYTES {
                    is_malformed(error, "invalid range header length"@)
                } else if input@.subrange(0, 4) != RANGE_MAGIC@ {
                    is_malformed(error, "invalid range magic"@)
                } else {
                    &&& error == ProtocolError::UnsupportedVersion(
                        be_value(input@.subrange(4, 6)) as u16,
                    )
                    &&& be_value(input@.subrange(4, 6)) != NATIVE_QUIC_PROTOCOL_VERSION
                },
            },
    {
        if input.len() != RANGE_HEADER_BYTES {
            return Err(ProtocolError::Malformed("invalid range header length"));
        }
        if !bytes_equal(&input[0..4], &RANGE_MAGIC) {
            return Err(ProtocolError::Malformed("invalid range magic"));
        }
        let version: u16 = read_u16(input, 4);
        if version != NATIVE_QUIC_PROTOCOL_VERSION {
            return Err(ProtocolError::UnsupportedVersion(version));
        }
        let header = RangeHeader {
            transfer_id: read_16(input, 6),
            range_id: read_u32(input, 22),
            offset: read_u64(input, 26),
            length: read_u64(input, 34),
            flags: read_u16(input, 42),
        };
        proof {
            crate::bytes::lemma_be_bytes_of_be_value(input@.subrange(4, 6));
            crate::bytes::lemma_be_bytes_of_be_value(input@.subrange(22, 26));
            crate::bytes::lemma_be_bytes_of_be_value(input@.subrange(26, 34));
            crate::bytes::lemma_be_bytes_of_be_value(input@.subrange(34, 42));
            crate::bytes::lemma_be_bytes_of_be_value(input@.subrange(42, 44));
            assert(input@ =~= input@.subrange(0, 4) + input@.subrange(4, 6) + input@.subrange(6, 22)
                + input@.subrange(22, 26) + input@.subrange(26, 34) + input@.subrange(34, 42)
                + input@.subrange(42, 44));
        }
        Ok(header)
    }

    /// Whether the range is not empty and lies within the file.
    pub open spec fn in_bounds(self, file_size: u64) -> bool {
        self.length != 0 && self.offset + self.length <= file_size
    }

    /// Checks the header against the transfer that it belongs to.
    pub fn validate(&self, expected_transfer: &[u8; 16], file_size: u64) -> (result: Result<
        (),
        ProtocolError,
    >)
        ensures
            match result {
                Ok(()) => self.transfer_id@ == expected_transfer@ && self.in_bounds(file_size),
                Err(error) => if self.transfer_id@ != expected_transfer@ {
                    error is WrongTransfer
                } else {
                    error is OutOfBounds && !self.in_bounds(file_size)
                },
            },
    {
        if !bytes_equal(&self.transfer_id, expected_transfer) {
            return Err(ProtocolError::WrongTransfer);
        }
        if self.length == 0 {
            return Err(ProtocolError::OutOfBounds);
        }
        match self.offset.checked_add(self.length) {
            Some(end) => if end > file_size {
                Err(ProtocolError::OutOfBounds)
            } else {
                Ok(())
            },
            None => Err(ProtocolError::OutOfBounds),
        }
    }
}

/// Where the fields stand in the bytes of a header.
pub proof fn lemma_wire_parts(header: RangeHeader)
    ensures
        header.wire().len() == RANGE_HEADER_BYTES,
        header.wire().subrange(0, 4) == RANGE_MAGIC@,
        header.wire().subrange(4, 6) == be_bytes(NATIVE_QUIC_PROTOCOL_VERSION as nat, 2),
        header.wire().subrange(6, 22) == header.transfer_id@,
        header.wire().subrange(22, 26) == be_bytes(header.range_id as nat, 4),
        header.wire().subrange(26, 34) == be_bytes(header.offset as nat, 8),
        header.wire().subrange(34, 42) == be_bytes(header.length as nat, 8),
        header.wire().subrange(42, 44) == be_bytes(header.flags as nat, 2),
{
    crate::bytes::lemma_be_bytes_len(NATIVE_QUIC_PROTOCOL_VERSION as nat, 2);
    crate::bytes::lemma_be_bytes_len(header.range_id as nat, 4);
    crate::bytes::lemma_be_bytes_len(header.offset as nat, 8);
    crate::bytes::lemma_be_bytes_len(header.length as nat, 8);
    crate::bytes::lemma_be_bytes_len(header.flags as nat, 2);
    let wire = header.wire();
    assert(wire.subrange(0, 4) =~= RANGE_MAGIC@);
    assert(wire.subrange(4, 6) =~= be_bytes(NATIVE_QUIC_PROTOCOL_VERSION as nat, 2));
    assert(wire.subrange(6, 22) =~= header.transfer_id@);
    assert(wire.subrange(22, 26) =~= be_bytes(header.range_id as nat, 4));
    assert(wire.subrange(26, 34) =~= be_bytes(header.offset as nat, 8));
    assert(wire.subrange(34, 42) =~= be_bytes(header.length as nat, 8));
    assert(wire.subrange(42, 44) =~= be_bytes(header.flags as nat, 2));
}

/// Two headers with the same bytes are the same header: decoding the bytes of a header gives
/// the header back.
pub proof fn law_header_bytes_determine_header(left: RangeHeader, right: RangeHeader)
    requires
        left.wire() == right.wire(),
    ensures
        left == right,
{
    lemma_wire_parts(left);
    lemma_wire_parts(right);
    crate::bytes::lemma_capacities();
    crate::bytes::lemma_be_value_of_be_bytes(left.range_id as nat, 4);
    crate::bytes::lemma_be_value_of_be_bytes(right.range_id as nat, 4);
    crate::bytes::lemma_be_value_of_be_bytes(left.offset as nat, 8);
    crate::bytes::lemma_be_value_of_be_bytes(right.offset as nat, 8);
    crate::bytes::lemma_be_value_of_be_bytes(left.length as nat, 8);
    crate::bytes::lemma_be_value_of_be_bytes(right.length as nat, 8);
    crate::bytes::lemma_be_value_of_be_bytes(left.flags as nat, 2);
    crate::bytes::lemma_be_value_of_be_bytes(right.flags as nat, 2);
    assert(left.transfer_id@ == right.transfer_id@);
    assert(left.transfer_id =~= right.transfer_id);
}

/// The bytes of a header always decode: they have the right length, magic and version.
pub proof fn law_header_bytes_are_accepted(header: RangeHeader)
    ensures
        header.wire().len() == RANGE_HEADER_BYTES,
        header.wire().subrange(0, 4) == RANGE_MAGIC@,
        be_value(header.wire().subrange(4, 6)) == NATIVE_QUIC_PROTOCOL_VERSION,
{
    lemma_wire_parts(header);
    crate::bytes::lemma_capacities();
    crate::bytes::lemma_be_value_of_be_bytes(NATIVE_QUIC_PROTOCOL_VERSION as nat, 2);
}

#[derive(Debug, Clone, PartialEq, Eq)]
pub struct CompletionManifest {
    pub version: u16,
    pub transfer_id: [u8; 16],
    pub expected_bytes: u64,
    pub expected_ranges: u32,
    pub sha256: Option<[u8; 32]>,
}

#[derive(Debug, Clone, PartialEq, Eq)]
pub struct CompletionAck {
    pub version: u16,
    pub transfer_id: [u8; 16],
    pub received_bytes: u64,
    pub completed_ranges: Vec<u32>,
    pub missing_ranges: Vec<u32>,
    pub integrity_ok: bool,
}

/// One range that a ledger holds.
#[derive(Debug, Clone, Copy)]
struct LedgerRange {
    offset: u64,
    length: u64,
    range_id: u32,
}

impl LedgerRange {
    spec fn end(self) -> int {
        self.offset + self.length
    }
}

/// Ranges in ascending order that do not overlap.
spec fn sorted_ranges(ranges: Seq<LedgerRange>) -> bool {
    &&& forall|i: int| 0 <= i < ranges.len() ==> (#[trigger] ranges[i]).end() <= u64::MAX
    &&& forall|i: int, j: int|
        0 <= i < j < ranges.len() ==> (#[trigger] ranges[i]).offset < (#[trigger] ranges[j]).offset
            && ranges[i].end() <= ranges[j].offset
}

/// The number of bytes in all the ranges.
spec fn total_length(ranges: Seq<LedgerRange>) -> nat
    decreases ranges.len(),
{
    if ranges.len() == 0 {
        0
    } else {
        total_length(ranges.drop_last()) + ranges.last().length as nat
    }
}

/// Where a range with the given offset stands.
spec fn stands_at(ranges: Seq<LedgerRange>, offset: u64, i: int) -> bool {
    0 <= i < ranges.len() && ranges[i].offset == offset
}

/// The length and identifier of each range, by its offset.
spec fn map_of(ranges: Seq<LedgerRange>) -> Map<u64, (u64, u32)> {
    Map::new(
        |offset: u64| exists|i: int| stands_at(ranges, offset, i),
        |offset: u64|
            {
                let i = choose|i: int| stands_at(ranges, offset, i);
                (ranges[i].length, ranges[i].range_id)
            },
    )
}

proof fn lemma_map_of(ranges: Seq<LedgerRange>)
    requires
        sorted_ranges(ranges),
    ensures
        forall|i: int|
            0 <= i < ranges.len() ==> map_of(ranges).contains_key((#[trigger] ranges[i]).offset)
                && map_of(ranges)[ranges[i].offset] == (ranges[i].length, ranges[i].range_id),
        forall|offset: u64| #[trigger]
            map_of(ranges).contains_key(offset) ==> exists|i: int| stands_at(ranges, offset, i),
{
    assert forall|i: int| 0 <= i < ranges.len() implies map_of(ranges).contains_key(
        (#[trigger] ranges[i]).offset,
    ) && map_of(ranges)[ranges[i].offset] == (ranges[i].length, ranges[i].range_id) by {
        assert(stands_at(ranges, ranges[i].offset, i));
        let k = choose|k: int| stands_at(ranges, ranges[i].offset, k);
        assert(stands_at(ranges, ranges[i].offset, k));
        if k < i {
            assert(ranges[k].offset < ranges[i].offset);
        }
        if i < k {
            assert(ranges[i].offset < ranges[k].offset);
        }
    }
}

proof fn lemma_total_length_concat(left: Seq<LedgerRange>, right: Seq<LedgerRange>)
    ensures
        total_length(left + right) == total_length(left) + total_length(right),
    decreases right.len(),
{
    if right.len() == 0 {
        assert(left + right =~= left);
    } else {
        lemma_total_length_concat(left, right.drop_last());
        assert((left + right).drop_last() =~= left + right.drop_last());
    }
}

proof fn lemma_total_length_insert(ranges: Seq<LedgerRange>, at: int, range: LedgerRange)
    requires
        0 <= at <= ranges.len(),
    ensures
        total_length(ranges.insert(at, range)) == total_length(ranges) + range.length,
{
    let head = ranges.take(at);
    let tail = ranges.skip(at);
    let one = seq![range];
    lemma_total_length_concat(head, tail);
    lemma_total_length_concat(head, one);
    lemma_total_length_concat(head + one, tail);
    assert(one.drop_last() =~= Seq::<LedgerRange>::empty());
    assert(total_length(one) == total_length(one.drop_last()) + range.length);
    assert(head + tail =~= ranges);
    assert(head + one + tail =~= ranges.insert(at, range));
}

proof fn lemma_total_length_bound(ranges: Seq<LedgerRange>)
    requires
        sorted_ranges(ranges),
    ensures
        ranges.len() > 0 ==> total_length(ranges) <= ranges.last().end(),
        total_length(ranges) <= u64::MAX,
    decreases ranges.len(),
{
    if ranges.len() > 0 {
        let rest = ranges.drop_last();
        let last = ranges.len() - 1;
        assert(sorted_ranges(rest)) by {
            assert forall|i: int, j: int| 0 <= i < j < rest.len() implies (
            #[trigger] rest[i]).offset < (#[trigger] rest[j]).offset && rest[i].end()
                <= rest[j].offset by {
                assert(ranges[i].end() <= ranges[j].offset);
            }
            assert forall|i: int| 0 <= i < rest.len() implies (#[trigger] rest[i]).end()
                <= u64::MAX by {
                assert(ranges[i].end() <= u64::MAX);
            }
        }
        lemma_total_length_bound(rest);
        if rest.len() > 0 {
            assert(ranges[last - 1].end() <= ranges[last].offset);
        }
        assert(ranges[last].end() <= u64::MAX);
    }
}

/// Whether some recorded range holds the byte at `position`.
pub open spec fn covers(ranges: Map<u64, (u64, u32)>, position: int) -> bool {
    exists|offset: u64| #[trigger] ranges.contains_key(offset) && offset <= position < offset + ranges[offset].0
}

/// Whether some recorded range starts at or after `low` and before `high`.
pub open spec fn starts_within(ranges: Map<u64, (u64, u32)>, low: int, high: int) -> bool {
    exists|offset: u64| #[trigger] ranges.contains_key(offset) && low <= offset < high
}

/// Whether the recorded ranges hold every byte of a file of the given size and nothing past
/// its end.
pub open spec fn covers_file(ranges: Map<u64, (u64, u32)>, file_size: u64) -> bool {
    &&& forall|position: int| 0 <= position < file_size ==> #[trigger] covers(ranges, position)
    &&& forall|offset: u64| #[trigger]
        ranges.contains_key(offset) ==> offset + ranges[offset].0 <= file_size
}

/// The ranges of one file that have been received. No two of them share a byte.
#[derive(Debug)]
pub struct RangeLedger {
    ranges: Vec<LedgerRange>,
    received_bytes: u64,
    finalized: bool,
}

impl View for RangeLedger {
    type V = Map<u64, (u64, u32)>;

    /// The length and identifier of each recorded range, by its offset.
    closed spec fn view(&self) -> Map<u64, (u64, u32)> {
        map_of(self.ranges@)
    }
}

impl Default for RangeLedger {
    /// An empty ledger that still accepts ranges.
    fn default() -> (ledger: Self)
        ensures
            ledger.wf(),
            ledger@ == Map::<u64, (u64, u32)>::empty(),
            ledger.range_count() == 0,
            ledger.received() == 0,
            !ledger.is_finalized(),
    {
        let ledger = RangeLedger { ranges: Vec::new(), received_bytes: 0, finalized: false };
        assert(ledger@ =~= Map::<u64, (u64, u32)>::empty());
        ledger
    }
}

impl RangeLedger {
    /// The ranges are in order, do not overlap, and their lengths add up to the byte count.
    pub closed spec fn wf(self) -> bool {
        &&& sorted_ranges(self.ranges@)
        &&& self.received_bytes == total_length(self.ranges@)
    }

    /// The number of bytes in all the recorded ranges.
    pub closed spec fn received(self) -> nat {
        self.received_bytes as nat
    }

    /// The number of recorded ranges.
    pub closed spec fn range_count(self) -> nat {
        self.ranges@.len()
    }

    /// Whether the ledger has been closed.
    pub closed spec fn is_finalized(self) -> bool {
        self.finalized
    }

    /// Why a range cannot be recorded, if it cannot.
    pub open spec fn refusal(self, header: RangeHeader, actual_length: u64) -> Option<
        ProtocolError,
    > {
        if self.is_finalized() {
            Some(ProtocolError::PayloadAfterFinalization)
        } else if actual_length != header.length {
            Some(ProtocolError::LengthMismatch)
        } else if covers(self@, header.offset as int) {
            if self@.contains_key(header.offset) && self@[header.offset] == (
                header.length,
                header.range_id,
            ) {
                Some(ProtocolError::DuplicateRange)
            } else {
                Some(ProtocolError::OverlappingRange)
            }
        } else if starts_within(self@, header.offset as int, header.offset + header.length) {
            Some(ProtocolError::OverlappingRange)
        } else {
            None
        }
    }

    /// How many recorded ranges start at or before `offset`.
    fn position_after(&self, offset: u64) -> (at: usize)
        requires
            self.wf(),
        ensures
            splits_at(self.ranges@, offset, at as int),
    {
        let mut at: usize = 0;
        while at < self.ranges.len() && self.ranges[at].offset <= offset
            invariant
                at <= self.ranges.len(),
                forall|i: int| 0 <= i < at ==> (#[trigger] self.ranges@[i]).offset <= offset,
            decreases self.ranges.len() - at,
        {
            at += 1;
        }
        proof {
            assert forall|i: int| at <= i < self.ranges@.len() implies (
            #[trigger] self.ranges@[i]).offset > offset by {
                if i > at {
                    assert(self.ranges@[at as int].offset < self.ranges@[i].offset);
                }
            }
        }
        at
    }

    /// Records a range that arrived in full.
    pub fn record(&mut self, header: &RangeHeader, actual_length: u64) -> (result: Result<
        (),
        ProtocolError,
    >)
        requires
            old(self).wf(),
            !old(self).is_finalized() && actual_length == header.length ==> header.offset
                + header.length <= u64::MAX,
        ensures
            final(self).wf(),
            final(self).is_finalized() == old(self).is_finalized(),
            match result {
                Ok(()) => {
                    &&& old(self).refusal(*header, actual_length) is None
                    &&& final(self)@ == old(self)@.insert(
                        header.offset,
                        (header.length, header.range_id),
                    )
                    &&& final(self).received() == old(self).received() + header.length
                    &&& final(self).range_count() == old(self).range_count() + if old(self)@.contains_key(header.offset) {
                        0nat
                    } else {
                        1nat
                    }
                },
                Err(error) => {
                    &&& old(self).refusal(*header, actual_length) == Some(error)
                    &&& *final(self) == *old(self)
                },
            },
    {
        if self.finalized {
            return Err(ProtocolError::PayloadAfterFinalization);
        }
        if actual_length != header.length {
            return Err(ProtocolError::LengthMismatch);
        }
        let ghost ranges = self.ranges@;
        let end: u64 = header.offset + header.length;
        let at: usize = self.position_after(header.offset);
        if at > 0 {
            let previous: LedgerRange = self.ranges[at - 1];
            assert(ranges[at - 1].end() <= u64::MAX);
            if previous.offset + previous.length > header.offset {
                proof {
                    lemma_covered(ranges, header.offset, at as int);
                }
                if previous.offset == header.offset && previous.length == header.length
                    && previous.range_id == header.range_id {
                    return Err(ProtocolError::DuplicateRange);
                }
                return Err(ProtocolError::OverlappingRange);
            }
        }
        proof {
            lemma_not_covered(ranges, header.offset, at as int);
        }
        let same_offset: bool = at > 0 && self.ranges[at - 1].offset == header.offset;
        if header.length > 0 && (same_offset || (at < self.ranges.len() && self.ranges[at].offset
            < end)) {
            proof {
                lemma_start_within(ranges, header.offset, end as int, at as int);
            }
            return Err(ProtocolError::OverlappingRange);
        }
        proof {
            lemma_no_start_within(ranges, header.offset, end as int, at as int);
            lemma_same_offset(ranges, header.offset, at as int);
        }
        let range = LedgerRange {
            offset: header.offset,
            length: header.length,
            range_id: header.range_id,
        };
        if same_offset {
            self.ranges[at - 1] = range;
            proof {
                lemma_replace_empty(ranges, at - 1, range);
            }
        } else {
            self.ranges.insert(at, range);
            proof {
                lemma_insert_sorted(ranges, at as int, range);
            }
        }
        proof {
            lemma_total_length_bound(self.ranges@);
        }
        self.received_bytes = self.received_bytes + header.length;
        Ok(())
    }

    /// Why the ledger cannot be closed, if it cannot.
    pub open spec fn incomplete(self, manifest: CompletionManifest, file_size: u64) -> Option<
        ProtocolError,
    > {
        if manifest.version != NATIVE_QUIC_PROTOCOL_VERSION {
            Some(ProtocolError::UnsupportedVersion(manifest.version))
        } else if manifest.expected_bytes != file_size || self.received() != file_size
            || self.range_count() != manifest.expected_ranges || !covers_file(self@, file_size) {
            Some(ProtocolError::IncompleteTransfer)
        } else {
            None
        }
    }

    /// Closes the ledger when the recorded ranges are the whole file.
    pub fn finalize(&mut self, manifest: &CompletionManifest, file_size: u64) -> (result: Result<
        (),
        ProtocolError,
    >)
        requires
            old(self).wf(),
        ensures
            final(self).wf(),
            final(self)@ == old(self)@,
            final(self).received() == old(self).received(),
            final(self).range_count() == old(self).range_count(),
            match result {
                Ok(()) => old(self).incomplete(*manifest, file_size) is None && final(self).is_finalized(),
                Err(error) => old(self).incomplete(*manifest, file_size) == Some(error)
                    && final(self).is_finalized() == old(self).is_finalized(),
            },
    {
        if manifest.version != NATIVE_QUIC_PROTOCOL_VERSION {
            return Err(ProtocolError::UnsupportedVersion(manifest.version));
        }
        if manifest.expected_bytes != file_size || self.received_bytes != file_size
            || self.ranges.len() as u64 != manifest.expected_ranges as u64 {
            return Err(ProtocolError::IncompleteTransfer);
        }
        let ghost ranges = self.ranges@;
        let ghost map = map_of(ranges);
        proof {
            lemma_map_of(ranges);
        }
        let mut cursor: u64 = 0;
        let mut at: usize = 0;
        while at < self.ranges.len()
            invariant
                *self == *old(self),
                old(self).wf(),
                manifest.version == NATIVE_QUIC_PROTOCOL_VERSION,
                self.ranges@ == ranges,
                self@ == map,
                map == map_of(ranges),
                sorted_ranges(ranges),
                at <= ranges.len(),
                at > 0 ==> cursor == ranges[at - 1].end(),
                at == 0 ==> cursor == 0,
                forall|i: int| 0 <= i < at ==> (#[trigger] ranges[i]).end() <= cursor,
                forall|position: int| 0 <= position < cursor ==> #[trigger] covers(map, position),
                forall|i: int|
                    0 <= i < ranges.len() ==> map.contains_key((#[trigger] ranges[i]).offset)
                        && map[ranges[i].offset] == (ranges[i].length, ranges[i].range_id),
                forall|offset: u64| #[trigger]
                    map.contains_key(offset) ==> exists|i: int| stands_at(ranges, offset, i),
            decreases self.ranges.len() - at,
        {
            let range: LedgerRange = self.ranges[at];
            if range.offset != cursor {
                proof {
                    if at > 0 {
                        assert(ranges[at - 1].end() <= ranges[at as int].offset);
                    }
                    assert(map.contains_key(ranges[at as int].offset));
                    if cursor < file_size && covers(map, cursor as int) {
                        let offset = choose|offset: u64| #[trigger]
                            map.contains_key(offset) && offset <= cursor < offset + map[offset].0;
                        let i = choose|i: int| stands_at(ranges, offset, i);
                        assert(map[ranges[i].offset] == (ranges[i].length, ranges[i].range_id));
                        if i > at {
                            assert(ranges[at as int].offset < ranges[i].offset);
                        }
                        if i < at {
                            assert(ranges[i].end() <= cursor);
                        }
                    }
                }
                return Err(ProtocolError::IncompleteTransfer);
            }
            assert(ranges[at as int].end() <= u64::MAX);
            proof {
                assert forall|position: int| 0 <= position < cursor + range.length implies
                    #[trigger] covers(map, position) by {
                    if position >= cursor {
                        assert(map.contains_key(ranges[at as int].offset));
                    }
                }
                assert forall|i: int| 0 <= i <= at implies (#[trigger] ranges[i]).end() <= cursor
                    + range.length by {}
            }
            cursor = cursor + range.length;
            at += 1;
        }
        if cursor != file_size {
            proof {
                if cursor < file_size {
                    if covers(map, cursor as int) {
                        let offset = choose|offset: u64| #[trigger]
                            map.contains_key(offset) && offset <= cursor < offset + map[offset].0;
                        let i = choose|i: int| stands_at(ranges, offset, i);
                        assert(map[ranges[i].offset] == (ranges[i].length, ranges[i].range_id));
                        assert(ranges[i].end() <= cursor);
                    }
                } else {
                    assert(at > 0);
                    assert(map.contains_key(ranges[at - 1].offset));
                    assert(map[ranges[at - 1].offset].0 == ranges[at - 1].length);
                }
            }
            return Err(ProtocolError::IncompleteTransfer);
        }
        proof {
            assert forall|offset: u64| #[trigger] map.contains_key(offset) implies offset
                + map[offset].0 <= file_size by {
                let i = choose|i: int| stands_at(ranges, offset, i);
                assert(map[ranges[i].offset] == (ranges[i].length, ranges[i].range_id));
                assert(ranges[i].end() <= cursor);
            }
        }
        self.finalized = true;
        assert(self@ == map_of(ranges));
        Ok(())
    }
}

/// The first `at` ranges start at or before `offset`, and the others after it.
spec fn splits_at(ranges: Seq<LedgerRange>, offset: u64, at: int) -> bool {
    &&& 0 <= at <= ranges.len()
    &&& forall|i: int| 0 <= i < at ==> (#[trigger] ranges[i]).offset <= offset
    &&& forall|i: int| at <= i < ranges.len() ==> (#[trigger] ranges[i]).offset > offset
}

proof fn lemma_covered(ranges: Seq<LedgerRange>, offset: u64, at: int)
    requires
        sorted_ranges(ranges),
        splits_at(ranges, offset, at),
        at > 0,
        ranges[at - 1].end() > offset,
    ensures
        covers(map_of(ranges), offset as int),
        map_of(ranges).contains_key(offset) == (ranges[at - 1].offset == offset),
        map_of(ranges)[ranges[at - 1].offset] == (ranges[at - 1].length, ranges[at - 1].range_id),
{
    lemma_map_of(ranges);
    lemma_same_offset(ranges, offset, at);
    assert(map_of(ranges).contains_key(ranges[at - 1].offset));
}

proof fn lemma_not_covered(ranges: Seq<LedgerRange>, offset: u64, at: int)
    requires
        sorted_ranges(ranges),
        splits_at(ranges, offset, at),
        at > 0 ==> ranges[at - 1].end() <= offset,
    ensures
        !covers(map_of(ranges), offset as int),
{
    let map = map_of(ranges);
    lemma_map_of(ranges);
    if covers(map, offset as int) {
        let start = choose|start: u64| #[trigger]
            map.contains_key(start) && start <= offset < start + map[start].0;
        let i = choose|i: int| stands_at(ranges, start, i);
        assert(map[ranges[i].offset] == (ranges[i].length, ranges[i].range_id));
        assert(i < at);
        if i < at - 1 {
            assert(ranges[i].end() <= ranges[at - 1].offset);
        }
    }
}

proof fn lemma_start_within(ranges: Seq<LedgerRange>, offset: u64, end: int, at: int)
    requires
        sorted_ranges(ranges),
        splits_at(ranges, offset, at),
        offset < end,
        (at > 0 && ranges[at - 1].offset == offset) || (at < ranges.len() && ranges[at].offset
            < end),
    ensures
        starts_within(map_of(ranges), offset as int, end),
{
    lemma_map_of(ranges);
    if at > 0 && ranges[at - 1].offset == offset {
        assert(map_of(ranges).contains_key(ranges[at - 1].offset));
    } else {
        assert(map_of(ranges).contains_key(ranges[at].offset));
    }
}

proof fn lemma_no_start_within(ranges: Seq<LedgerRange>, offset: u64, end: int, at: int)
    requires
        sorted_ranges(ranges),
        splits_at(ranges, offset, at),
        offset <= end,
        offset < end ==> !(at > 0 && ranges[at - 1].offset == offset),
        offset < end && at < ranges.len() ==> ranges[at].offset >= end,
    ensures
        !starts_within(map_of(ranges), offset as int, end),
{
    let map = map_of(ranges);
    lemma_map_of(ranges);
    if starts_within(map, offset as int, end) {
        let start = choose|start: u64| #[trigger] map.contains_key(start) && offset <= start < end;
        let i = choose|i: int| stands_at(ranges, start, i);
        if i < at {
            if i < at - 1 {
                assert(ranges[i].offset < ranges[at - 1].offset);
            }
        } else if i > at {
            assert(ranges[at].offset < ranges[i].offset);
        }
    }
}

proof fn lemma_same_offset(ranges: Seq<LedgerRange>, offset: u64, at: int)
    requires
        sorted_ranges(ranges),
        splits_at(ranges, offset, at),
    ensures
        map_of(ranges).contains_key(offset) == (at > 0 && ranges[at - 1].offset == offset),
{
    lemma_map_of(ranges);
    if at > 0 && ranges[at - 1].offset == offset {
        assert(map_of(ranges).contains_key(ranges[at - 1].offset));
    }
    if map_of(ranges).contains_key(offset) {
        let i = choose|i: int| stands_at(ranges, offset, i);
        assert(i < at);
        if i < at - 1 {
            assert(ranges[i].offset < ranges[at - 1].offset);
        }
    }
}

proof fn lemma_replace_empty(ranges: Seq<LedgerRange>, at: int, range: LedgerRange)
    requires
        sorted_ranges(ranges),
        0 <= at < ranges.len(),
        ranges[at].offset == range.offset,
        ranges[at].end() <= range.offset,
        range.length == 0,
    ensures
        sorted_ranges(ranges.update(at, range)),
        total_length(ranges.update(at, range)) == total_length(ranges),
        map_of(ranges.update(at, range)) == map_of(ranges).insert(
            range.offset,
            (range.length, range.range_id),
        ),
{
    let updated = ranges.update(at, range);
    assert forall|i: int, j: int| 0 <= i < j < updated.len() implies (#[trigger] updated[i]).offset
        < (#[trigger] updated[j]).offset && updated[i].end() <= updated[j].offset by {
        assert(ranges[i].offset < ranges[j].offset && ranges[i].end() <= ranges[j].offset);
    }
    assert forall|i: int| 0 <= i < updated.len() implies (#[trigger] updated[i]).end()
        <= u64::MAX by {
        assert(ranges[i].end() <= u64::MAX);
    }
    let head = ranges.take(at);
    let tail = ranges.skip(at + 1);
    lemma_total_length_insert(head + tail, at, range);
    lemma_total_length_insert(head + tail, at, ranges[at]);
    assert((head + tail).insert(at, range) =~= updated);
    assert((head + tail).insert(at, ranges[at]) =~= ranges);
    lemma_map_of(ranges);
    lemma_map_of(updated);
    lemma_map_after(ranges, updated, at, range);
}

proof fn lemma_insert_sorted(ranges: Seq<LedgerRange>, at: int, range: LedgerRange)
    requires
        sorted_ranges(ranges),
        0 <= at <= ranges.len(),
        range.end() <= u64::MAX,
        at > 0 ==> ranges[at - 1].offset < range.offset && ranges[at - 1].end() <= range.offset,
        at < ranges.len() ==> range.offset < ranges[at].offset && range.end() <= ranges[at].offset,
    ensures
        sorted_ranges(ranges.insert(at, range)),
        total_length(ranges.insert(at, range)) == total_length(ranges) + range.length,
        map_of(ranges.insert(at, range)) == map_of(ranges).insert(
            range.offset,
            (range.length, range.range_id),
        ),
{
    let inserted = ranges.insert(at, range);
    assert forall|i: int, j: int| 0 <= i < j < inserted.len() implies (
    #[trigger] inserted[i]).offset < (#[trigger] inserted[j]).offset && inserted[i].end()
        <= inserted[j].offset by {
        if i < at && j > at {
            assert(ranges[i].offset < ranges[j - 1].offset && ranges[i].end() <= ranges[j
                - 1].offset);
        } else if j < at {
            assert(ranges[i].offset < ranges[j].offset && ranges[i].end() <= ranges[j].offset);
        } else if i > at {
            assert(ranges[i - 1].offset < ranges[j - 1].offset && ranges[i - 1].end() <= ranges[j
                - 1].offset);
        } else if j == at {
            if i < at - 1 {
                assert(ranges[i].offset < ranges[at - 1].offset && ranges[i].end() <= ranges[at
                    - 1].offset);
            }
        } else {
            if j - 1 > at {
                assert(ranges[at].offset < ranges[j - 1].offset);
            }
        }
    }
    assert forall|i: int| 0 <= i < inserted.len() implies (#[trigger] inserted[i]).end()
        <= u64::MAX by {
        if i < at {
            assert(ranges[i].end() <= u64::MAX);
        } else if i > at {
            assert(ranges[i - 1].end() <= u64::MAX);
        }
    }
    lemma_total_length_insert(ranges, at, range);
    lemma_map_of(ranges);
    lemma_map_of(inserted);
    let before = map_of(ranges).insert(range.offset, (range.length, range.range_id));
    let after = map_of(inserted);
    assert(inserted[at] == range);
    assert forall|offset: u64| #[trigger] after.contains_key(offset) == before.contains_key(
        offset,
    ) by {
        if after.contains_key(offset) {
            let i = choose|i: int| stands_at(inserted, offset, i);
            if i < at {
                assert(map_of(ranges).contains_key(ranges[i].offset));
            } else if i > at {
                assert(map_of(ranges).contains_key(ranges[i - 1].offset));
            }
        }
        if map_of(ranges).contains_key(offset) {
            let i = choose|i: int| stands_at(ranges, offset, i);
            if i < at {
                assert(after.contains_key(inserted[i].offset));
            } else {
                assert(after.contains_key(inserted[i + 1].offset));
            }
        }
    }
    assert forall|offset: u64| #[trigger] after.contains_key(offset) implies after[offset]
        == before[offset] by {
        let i = choose|i: int| stands_at(inserted, offset, i);
        assert(after[inserted[i].offset] == (inserted[i].length, inserted[i].range_id));
        if i < at {
            assert(inserted[i].offset < inserted[at].offset);
            assert(map_of(ranges)[ranges[i].offset] == (ranges[i].length, ranges[i].range_id));
        } else if i > at {
            assert(inserted[at].offset < inserted[i].offset);
            assert(map_of(ranges)[ranges[i - 1].offset] == (
                ranges[i - 1].length,
                ranges[i - 1].range_id,
            ));
        }
    }
    assert(after =~= before);
}

proof fn lemma_map_after(
    ranges: Seq<LedgerRange>,
    updated: Seq<LedgerRange>,
    at: int,
    range: LedgerRange,
)
    requires
        sorted_ranges(ranges),
        sorted_ranges(updated),
        0 <= at < ranges.len(),
        updated == ranges.update(at, range),
        ranges[at].offset == range.offset,
    ensures
        map_of(updated) == map_of(ranges).insert(range.offset, (range.length, range.range_id)),
{
    lemma_map_of(ranges);
    lemma_map_of(updated);
    let before = map_of(ranges).insert(range.offset, (range.length, range.range_id));
    let after = map_of(updated);
    assert(updated[at] == range);
    assert forall|offset: u64| #[trigger] after.contains_key(offset) == before.contains_key(
        offset,
    ) by {
        if after.contains_key(offset) {
            let i = choose|i: int| stands_at(updated, offset, i);
            assert(map_of(ranges).contains_key(ranges[i].offset));
        }
        if map_of(ranges).contains_key(offset) {
            let i = choose|i: int| stands_at(ranges, offset, i);
            assert(after.contains_key(updated[i].offset));
        }
    }
    assert forall|offset: u64| #[trigger] after.contains_key(offset) implies after[offset]
        == before[offset] by {
        let i = choose|i: int| stands_at(updated, offset, i);
        assert(after[updated[i].offset] == (updated[i].length, updated[i].range_id));
        if i < at {
            assert(updated[i].offset < updated[at].offset);
            assert(map_of(ranges)[ranges[i].offset] == (ranges[i].length, ranges[i].range_id));
        } else if i > at {
            assert(updated[at].offset < updated[i].offset);
            assert(map_of(ranges)[ranges[i].offset] == (ranges[i].length, ranges[i].range_id));
        }
    }
    assert(after =~= before);
}

proof fn lemma_full_prefix(ranges: Seq<LedgerRange>, file_size: u64, n: int)
    requires
        sorted_ranges(ranges),
        covers_file(map_of(ranges), file_size),
        0 <= n <= ranges.len(),
    ensures
        total_length(ranges.take(n)) == if n == 0 {
            0
        } else {
            ranges[n - 1].end()
        },
    decreases n,
{
    lemma_map_of(ranges);
    if n > 0 {
        lemma_full_prefix(ranges, file_size, n - 1);
        let map = map_of(ranges);
        let cursor = total_length(ranges.take(n - 1)) as int;
        let range = ranges[n - 1];
        assert(ranges.take(n).drop_last() =~= ranges.take(n - 1));
        assert(map.contains_key(range.offset) && map[range.offset].0 == range.length);
        if n > 1 {
            assert(ranges[n - 2].end() <= range.offset);
        }
        if cursor < range.offset {
            assert(covers(map, cursor));
            let offset = choose|offset: u64| #[trigger]
                map.contains_key(offset) && offset <= cursor < offset + map[offset].0;
            let i = choose|i: int| stands_at(ranges, offset, i);
            assert(map[ranges[i].offset] == (ranges[i].length, ranges[i].range_id));
            if i > n - 1 {
                assert(range.offset < ranges[i].offset);
            } else if i < n - 1 {
                assert(ranges[i].end() <= range.offset);
                if i < n - 2 {
                    assert(ranges[i].end() <= ranges[n - 2].offset);
                }
            }
        }
    } else {
        assert(ranges.take(0) =~= Seq::<LedgerRange>::empty());
    }
}

/// A ledger whose ranges hold the whole file has received as many bytes as the file has.
pub proof fn law_full_ledger_has_received_the_file(ledger: RangeLedger, file_size: u64)
    requires
        ledger.wf(),
        covers_file(ledger@, file_size),
    ensures
        ledger.received() == file_size,
{
    let ranges = ledger.ranges@;
    let n = ranges.len() as int;
    lemma_map_of(ranges);
    lemma_full_prefix(ranges, file_size, n);
    assert(ranges.take(n) =~= ranges);
    let cursor = total_length(ranges) as int;
    if n > 0 {
        assert(ledger@.contains_key(ranges[n - 1].offset));
        assert(ledger@[ranges[n - 1].offset].0 == ranges[n - 1].length);
    }
    if cursor < file_size {
        assert(covers(ledger@, cursor));
        let offset = choose|offset: u64| #[trigger]
            ledger@.contains_key(offset) && offset <= cursor < offset + ledger@[offset].0;
        let i = choose|i: int| stands_at(ranges, offset, i);
        assert(ledger@[ranges[i].offset] == (ranges[i].length, ranges[i].range_id));
        if i < n - 1 {
            assert(ranges[i].end() <= ranges[n - 1].offset);
        }
    }
}

/// A closed ledger refuses every further range.
pub proof fn law_closed_ledger_refuses_payload(
    ledger: RangeLedger,
    header: RangeHeader,
    actual_length: u64,
)
    requires
        ledger.is_finalized(),
    ensures
        ledger.refusal(header, actual_length) == Some(ProtocolError::PayloadAfterFinalization),
{
}

/// No two recorded ranges of a ledger share a byte.
pub proof fn law_ledger_ranges_are_disjoint(
    ledger: RangeLedger,
    first: u64,
    second: u64,
    position: int,
)
    requires
        ledger.wf(),
        ledger@.contains_key(first),
        ledger@.contains_key(second),
        first <= position < first + ledger@[first].0,
        second <= position < second + ledger@[second].0,
    ensures
        first == second,
{
    let ranges = ledger.ranges@;
    lemma_map_of(ranges);
    let i = choose|i: int| stands_at(ranges, first, i);
    let j = choose|j: int| stands_at(ranges, second, j);
    assert(map_of(ranges)[ranges[i].offset] == (ranges[i].length, ranges[i].range_id));
    assert(map_of(ranges)[ranges[j].offset] == (ranges[j].length, ranges[j].range_id));
    if i < j {
        assert(ranges[i].end() <= ranges[j].offset);
    }
    if j < i {
        assert(ranges[j].end() <= ranges[i].offset);
    }
}

/// A range that was recorded and is not empty is refused as a duplicate when it comes again.
pub proof fn law_recorded_range_is_a_duplicate(
    before: RangeLedger,
    after: RangeLedger,
    header: RangeHeader,
)
    requires
        before.refusal(header, header.length) is None,
        after@ == before@.insert(header.offset, (header.length, header.range_id)),
        !after.is_finalized(),
        header.length > 0,
    ensures
        after.refusal(header, header.length) == Some(ProtocolError::DuplicateRange),
{
    assert(after@.contains_key(header.offset));
    assert(covers(after@, header.offset as int));
}

} // verus!
