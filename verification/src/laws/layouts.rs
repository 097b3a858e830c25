//! Where things stand: in bytes, and in lists that are put in order.

use crate::address::IpAddress;
use crate::block_hash::{entry_bytes, BlockHashEntry};
use crate::bytes::{
    be_bytes, be_value, lemma_be_bytes_len, lemma_be_value_of_be_bytes, lemma_capacities,
};
use crate::candidates::{related_bytes, text_bytes, ById, CandidateFacts, NativeCandidateType};
use crate::connectivity::NetworkRow;
use crate::crypto::sha256_digest;
use crate::encoding::hex_text;
use crate::framing::{fits_frame, frame_of};
use crate::ordering::{in_order, is_ordered, lemma_in_order, placed, text_before, Ranked};
use crate::path_selection::pair_id_text;
use crate::protocol::{resume_state_bytes, RangeHeader, SessionControl, RANGE_MAGIC};
use crate::received_files::{is_receipt, receipt_bytes, RECEIPT_MAGIC};
use crate::transfer_setup::{
    IncomingDiscoveryFacts, IncomingResumableDiscovery, OutgoingDiscoveryFacts,
    OutgoingResumableDiscovery,
};
use vstd::prelude::*;
use vstd::utf8::encode_utf8;

verus! {

/// A number is written with its highest byte first: the last byte is what is left over 256, and
/// those before it are the number without it.
pub proof fn law_numbers_are_written_high_byte_first(value: nat, n: nat)
    requires
        n > 0,
    ensures
        be_bytes(value, n).len() == n,
        be_bytes(value, n).last() == value % 256,
        be_bytes(value, n).drop_last() == be_bytes(value / 256, (n - 1) as nat),
        n == 2 && value < 0x1_0000 ==> be_bytes(value, n)[0] == value / 256,
{
    lemma_be_bytes_len(value, n);
    assert(be_bytes(value, n).drop_last() =~= be_bytes(value / 256, (n - 1) as nat));
    if n == 2 && value < 0x1_0000 {
        lemma_be_bytes_len(value / 256, 1);
        assert(be_bytes(value / 256, 1) =~= be_bytes(value / 256 / 256, 0).push(
            (value / 256 % 256) as u8,
        ));
        assert(be_bytes(value, 2)[0] == be_bytes(value / 256, 1)[0]);
    }
}

/// A frame is its mark, the length of what it holds in four bytes, what it holds, and a digest of
/// all that.
pub proof fn law_frames_have_one_layout(magic: Seq<u8>, payload: Seq<u8>)
    requires
        magic.len() == 8,
        fits_frame(payload),
    ensures
        ({
            let frame = frame_of(magic, payload);
            let end = 12 + payload.len() as int;
            &&& frame.len() == end + 32
            &&& frame.subrange(0, 8) == magic
            &&& be_value(frame.subrange(8, 12)) == payload.len()
            &&& frame.subrange(12, end) == payload
            &&& frame.subrange(end, end + 32) == sha256_digest(frame.subrange(0, end))@
        }),
        fits_frame(payload) <==> payload.len() <= 0xffff_ffff,
{
    lemma_capacities();
    lemma_be_bytes_len(payload.len(), 4);
    lemma_be_value_of_be_bytes(payload.len(), 4);
    let frame = frame_of(magic, payload);
    let end = 12 + payload.len() as int;
    assert(frame.subrange(0, 8) =~= magic);
    assert(frame.subrange(8, 12) =~= be_bytes(payload.len(), 4));
    assert(frame.subrange(12, end) =~= payload);
    assert(frame.subrange(0, end) =~= magic + be_bytes(payload.len(), 4) + payload);
    assert(frame.subrange(end, end + 32) =~= sha256_digest(
        magic + be_bytes(payload.len(), 4) + payload,
    )@);
}

/// Where the parts of a range's header stand.
pub proof fn law_range_headers_have_one_layout(header: RangeHeader)
    ensures
        ({
            let wire = header.wire();
            &&& wire.len() == 44
            &&& wire.subrange(0, 4) == RANGE_MAGIC@
            &&& be_value(wire.subrange(4, 6)) == 3
            &&& wire.subrange(6, 22) == header.transfer_id@
            &&& be_value(wire.subrange(22, 26)) == header.range_id
            &&& be_value(wire.subrange(26, 34)) == header.offset
            &&& be_value(wire.subrange(34, 42)) == header.length
            &&& be_value(wire.subrange(42, 44)) == header.flags
        }),
{
    lemma_capacities();
    crate::protocol::lemma_wire_parts(header);
    lemma_be_value_of_be_bytes(3, 2);
    lemma_be_value_of_be_bytes(header.range_id as nat, 4);
    lemma_be_value_of_be_bytes(header.offset as nat, 8);
    lemma_be_value_of_be_bytes(header.length as nat, 8);
    lemma_be_value_of_be_bytes(header.flags as nat, 2);
}

/// Where the parts of a receipt stand: its mark, what it is for, when it was written, and a digest
/// of all that.
pub proof fn law_receipts_have_one_layout(digest: Seq<u8>, time: u64)
    requires
        digest.len() == 32,
    ensures
        ({
            let receipt = receipt_bytes(digest, time);
            &&& receipt.len() == 88
            &&& receipt.subrange(0, 16) == RECEIPT_MAGIC@
            &&& receipt.subrange(16, 48) == digest
            &&& be_value(receipt.subrange(48, 56)) == time
            &&& receipt.subrange(56, 88) == sha256_digest(receipt.subrange(0, 56))@
            &&& is_receipt(receipt)
        }),
{
    lemma_capacities();
    lemma_be_bytes_len(time as nat, 8);
    lemma_be_value_of_be_bytes(time as nat, 8);
    let receipt = receipt_bytes(digest, time);
    let head = RECEIPT_MAGIC@ + digest + be_bytes(time as nat, 8);
    assert(receipt.subrange(0, 16) =~= RECEIPT_MAGIC@);
    assert(receipt.subrange(16, 48) =~= digest);
    assert(receipt.subrange(48, 56) =~= be_bytes(time as nat, 8));
    assert(receipt.subrange(0, 56) =~= head);
    assert(receipt.subrange(56, 88) =~= sha256_digest(head)@);
}

/// Where the parts of a block's entry stand.
pub proof fn law_block_entries_have_one_layout(entry: BlockHashEntry)
    ensures
        ({
            let bytes = entry_bytes(entry);
            &&& bytes.len() == 64
            &&& be_value(bytes.subrange(0, 8)) == entry.block_index
            &&& be_value(bytes.subrange(8, 16)) == entry.absolute_offset
            &&& be_value(bytes.subrange(16, 24)) == entry.valid_length
            &&& bytes.subrange(24, 56) == entry.digest@
            &&& be_value(bytes.subrange(56, 64)) == entry.checkpoint_generation
        }),
{
    lemma_capacities();
    lemma_be_bytes_len(entry.block_index as nat, 8);
    lemma_be_bytes_len(entry.absolute_offset as nat, 8);
    lemma_be_bytes_len(entry.valid_length as nat, 8);
    lemma_be_bytes_len(entry.checkpoint_generation as nat, 8);
    lemma_be_value_of_be_bytes(entry.block_index as nat, 8);
    lemma_be_value_of_be_bytes(entry.absolute_offset as nat, 8);
    lemma_be_value_of_be_bytes(entry.valid_length as nat, 8);
    lemma_be_value_of_be_bytes(entry.checkpoint_generation as nat, 8);
    let bytes = entry_bytes(entry);
    assert(bytes.subrange(0, 8) =~= be_bytes(entry.block_index as nat, 8));
    assert(bytes.subrange(8, 16) =~= be_bytes(entry.absolute_offset as nat, 8));
    assert(bytes.subrange(16, 24) =~= be_bytes(entry.valid_length as nat, 8));
    assert(bytes.subrange(24, 56) =~= entry.digest@);
    assert(bytes.subrange(56, 64) =~= be_bytes(entry.checkpoint_generation as nat, 8));
}

/// What the digest of a resumption is made over: the version, the number of blocks and the map of
/// those that are there.
pub proof fn law_resumption_states_have_one_layout(total_blocks: u64, bitmap: Seq<u8>)
    ensures
        ({
            let bytes = resume_state_bytes(total_blocks, bitmap);
            &&& bytes.len() == 10 + bitmap.len()
            &&& be_value(bytes.subrange(0, 2)) == 3
            &&& be_value(bytes.subrange(2, 10)) == total_blocks
            &&& bytes.skip(10) == bitmap
        }),
{
    lemma_capacities();
    lemma_be_bytes_len(3, 2);
    lemma_be_bytes_len(total_blocks as nat, 8);
    lemma_be_value_of_be_bytes(3, 2);
    lemma_be_value_of_be_bytes(total_blocks as nat, 8);
    let bytes = resume_state_bytes(total_blocks, bitmap);
    assert(bytes.subrange(0, 2) =~= be_bytes(3, 2));
    assert(bytes.subrange(2, 10) =~= be_bytes(total_blocks as nat, 8));
    assert(bytes.skip(10) =~= bitmap);
}

/// A text is written with its length in two bytes before it.
pub proof fn law_texts_are_written_behind_their_length(text: Seq<char>)
    requires
        encode_utf8(text).len() < 0x1_0000,
    ensures
        text_bytes(text).len() == 2 + encode_utf8(text).len(),
        be_value(text_bytes(text).take(2)) == encode_utf8(text).len(),
        text_bytes(text).skip(2) == encode_utf8(text),
{
    lemma_capacities();
    lemma_be_bytes_len(encode_utf8(text).len(), 2);
    lemma_be_value_of_be_bytes(encode_utf8(text).len(), 2);
    assert(text_bytes(text).take(2) =~= be_bytes(encode_utf8(text).len(), 2));
    assert(text_bytes(text).skip(2) =~= encode_utf8(text));
}

/// What the identifier of a candidate is made over begins with its version, its kind, its
/// transport, and its address behind the number of its family.
#[verifier::spinoff_prover]
#[verifier::rlimit(60)]
pub proof fn law_candidates_are_written_from_their_kind(candidate: CandidateFacts)
    ensures
        ({
            let bytes = candidate.canonical();
            &&& bytes.len() > 9
            &&& be_value(bytes.subrange(0, 2)) == candidate.version
            &&& bytes[2] == (match candidate.candidate_type {
                NativeCandidateType::Host => 1u8,
                NativeCandidateType::ServerReflexive => 2u8,
                NativeCandidateType::Mapped => 3u8,
                NativeCandidateType::Ipv6 => 4u8,
                NativeCandidateType::Manual => 5u8,
            })
            &&& bytes[3] == 1
            &&& match candidate.address {
                IpAddress::V4(octets) => {
                    &&& bytes[4] == 4
                    &&& bytes.subrange(5, 9) == octets@
                    &&& be_value(bytes.subrange(9, 11)) == candidate.port
                },
                IpAddress::V6(octets) => {
                    &&& bytes[4] == 6
                    &&& bytes.subrange(5, 21) == octets@
                    &&& be_value(bytes.subrange(21, 23)) == candidate.port
                },
            }
        }),
{
    lemma_capacities();
    lemma_be_bytes_len(candidate.version as nat, 2);
    lemma_be_bytes_len(candidate.port as nat, 2);
    lemma_be_value_of_be_bytes(candidate.version as nat, 2);
    lemma_be_value_of_be_bytes(candidate.port as nat, 2);
    let bytes = candidate.canonical();
    assert(bytes.subrange(0, 2) =~= be_bytes(candidate.version as nat, 2));
    match candidate.address {
        IpAddress::V4(octets) => {
            assert(bytes.subrange(5, 9) =~= octets@);
            assert(bytes.subrange(9, 11) =~= be_bytes(candidate.port as nat, 2));
        },
        IpAddress::V6(octets) => {
            assert(bytes.subrange(5, 21) =~= octets@);
            assert(bytes.subrange(21, 23) =~= be_bytes(candidate.port as nat, 2));
        },
    }
}

/// A pair is named by half a digest over its mark and the candidates of the sender and of the
/// receiver, in this order.
pub proof fn law_pairs_are_named_after_both_candidates(sender: Seq<char>, receiver: Seq<char>)
    ensures
        ({
            let mark = encode_utf8("flowshare/native/candidate-pair/v1"@);
            &&& pair_id_text(sender, receiver) == hex_text(
                sha256_digest(mark + text_bytes(sender) + text_bytes(receiver))@.subrange(0, 16),
            )
            &&& pair_id_text(sender, receiver).len() == 32
        }),
{
    let mark = encode_utf8("flowshare/native/candidate-pair/v1"@);
    let digest = sha256_digest(mark + text_bytes(sender) + text_bytes(receiver))@;
    assert(digest.take(16) =~= digest.subrange(0, 16));
}

/// A session is described by names that are not empty, a file name without separators, one of
/// three numbers of streams and ranges that are not empty.
pub proof fn law_sessions_are_described(control: SessionControl)
    ensures
        control.is_named() <==> control.share_id@.len() > 0 && control.session_id@.len() > 0
            && control.file_id@.len() > 0 && control.file_name@.len() > 0,
        control.has_stream_count() <==> control.stream_count == 1 || control.stream_count == 2
            || control.stream_count == 4,
{
}

/// A new item is put behind everything that it does not precede and before everything that it
/// does, so items that rank alike keep the order in which they came.
pub proof fn law_new_items_stand_behind_their_equals<T: Ranked>(
    items: Seq<T::V>,
    item: T::V,
) -> (at: int)
    ensures
        0 <= at <= items.len(),
        in_order::<T>(items.push(item)) == in_order::<T>(items).insert(at, item),
        forall|i: int|
            0 <= i < at ==> !T::precedes(item, #[trigger] in_order::<T>(items)[i]),
        forall|i: int|
            at <= i < items.len() ==> T::precedes(item, #[trigger] in_order::<T>(items)[i]),
{
    let sorted = in_order::<T>(items);
    lemma_in_order::<T>(items);
    assert(items.push(item).drop_last() =~= items);
    lemma_place::<T>(sorted, item)
}

proof fn lemma_place<T: Ranked>(sorted: Seq<T::V>, item: T::V) -> (at: int)
    requires
        is_ordered::<T>(sorted),
    ensures
        0 <= at <= sorted.len(),
        placed::<T>(sorted, item) == sorted.insert(at, item),
        forall|i: int| 0 <= i < at ==> !T::precedes(item, #[trigger] sorted[i]),
        forall|i: int| at <= i < sorted.len() ==> T::precedes(item, #[trigger] sorted[i]),
    decreases sorted.len(),
{
    if sorted.len() == 0 || !T::precedes(item, sorted.last()) {
        assert(sorted.push(item) =~= sorted.insert(sorted.len() as int, item));
        assert forall|i: int| 0 <= i < sorted.len() implies !T::precedes(
            item,
            #[trigger] sorted[i],
        ) by {
            if i < sorted.len() - 1 {
                T::lemma_order(sorted[i], sorted.last(), item);
                assert(!T::precedes(sorted[sorted.len() - 1], sorted[i]));
            }
        }
        sorted.len() as int
    } else {
        let head = sorted.drop_last();
        assert forall|i: int, j: int| 0 <= i < j < head.len() implies !T::precedes(
            #[trigger] head[j],
            #[trigger] head[i],
        ) by {
            assert(head[i] == sorted[i] && head[j] == sorted[j]);
        }
        let at = lemma_place::<T>(head, item);
        assert(head.insert(at, item).push(sorted.last()) =~= sorted.insert(at, item));
        assert forall|i: int| at <= i < sorted.len() implies T::precedes(
            item,
            #[trigger] sorted[i],
        ) by {
            if i < head.len() {
                assert(head[i] == sorted[i]);
            }
        }
        assert forall|i: int| 0 <= i < at implies !T::precedes(item, #[trigger] sorted[i]) by {
            assert(head[i] == sorted[i]);
        }
        at
    }
}

/// What can be resumed is listed by rising identifier.
pub proof fn law_resumable_transfers_are_listed_by_identifier(
    received: Seq<IncomingDiscoveryFacts>,
    sent: Seq<OutgoingDiscoveryFacts>,
    i: int,
    j: int,
)
    requires
        0 <= i < j,
    ensures
        j < received.len() ==> !text_before(
            in_order::<IncomingResumableDiscovery>(received)[j].transfer_id,
            in_order::<IncomingResumableDiscovery>(received)[i].transfer_id,
        ),
        j < sent.len() ==> !text_before(
            in_order::<OutgoingResumableDiscovery>(sent)[j].transfer_id,
            in_order::<OutgoingResumableDiscovery>(sent)[i].transfer_id,
        ),
        in_order::<IncomingResumableDiscovery>(received).len() == received.len(),
        in_order::<OutgoingResumableDiscovery>(sent).len() == sent.len(),
{
    lemma_in_order::<IncomingResumableDiscovery>(received);
    lemma_in_order::<OutgoingResumableDiscovery>(sent);
}

/// What the identifier of a candidate is made over ends with its generation and its time, and
/// holds both texts and the related address before them.
#[verifier::spinoff_prover]
#[verifier::rlimit(60)]
pub proof fn law_candidates_are_written_to_their_end(candidate: CandidateFacts)
    ensures
        ({
            let bytes = candidate.canonical();
            let size = bytes.len() as int;
            let address = match candidate.address {
                IpAddress::V4(_) => 5int,
                IpAddress::V6(_) => 17,
            };
            &&& size == 4 + address + 3 + text_bytes(candidate.network_identifier).len() + 4
                + text_bytes(candidate.foundation).len() + related_bytes(
                candidate.related_address,
            ).len() + 12
            &&& be_value(bytes.subrange(size - 12, size - 8)) == candidate.generation
            &&& be_value(bytes.subrange(size - 8, size)) == candidate.expires_unix_ms
            &&& bytes[address + 6] == (if candidate.address_family is Ipv4 {
                4u8
            } else {
                6u8
            })
        }),
{
    lemma_capacities();
    lemma_be_bytes_len(candidate.version as nat, 2);
    lemma_be_bytes_len(candidate.port as nat, 2);
    lemma_be_bytes_len(candidate.priority as nat, 4);
    lemma_be_bytes_len(candidate.generation as nat, 4);
    lemma_be_bytes_len(candidate.expires_unix_ms as nat, 8);
    lemma_be_value_of_be_bytes(candidate.generation as nat, 4);
    lemma_be_value_of_be_bytes(candidate.expires_unix_ms as nat, 8);
    let bytes = candidate.canonical();
    let size = bytes.len() as int;
    assert(bytes.subrange(size - 12, size - 8) =~= be_bytes(candidate.generation as nat, 4));
    assert(bytes.subrange(size - 8, size) =~= be_bytes(candidate.expires_unix_ms as nat, 8));
}

/// What a digest is made over stands by rising text: the candidates of a set by their identifiers,
/// and the rows of a network.
pub proof fn law_digests_are_made_in_rising_order(
    candidates: Seq<CandidateFacts>,
    rows: Seq<Seq<char>>,
    i: int,
    j: int,
)
    requires
        0 <= i < j,
    ensures
        j < candidates.len() ==> !text_before(
            in_order::<ById>(candidates)[j].candidate_id,
            in_order::<ById>(candidates)[i].candidate_id,
        ),
        j < rows.len() ==> !text_before(
            in_order::<NetworkRow>(rows)[j],
            in_order::<NetworkRow>(rows)[i],
        ),
        in_order::<ById>(candidates).len() == candidates.len(),
        in_order::<NetworkRow>(rows).len() == rows.len(),
{
    lemma_in_order::<ById>(candidates);
    lemma_in_order::<NetworkRow>(rows);
}

} // verus!
