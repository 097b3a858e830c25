//! Frames for stored records: a magic, the length of the payload, the payload and a checksum.

use crate::bytes::{
    append, append_u32, be_bytes, be_value, bytes_equal, copy_of, read_u32,
};
use crate::crypto::{sha256, sha256_digest};
use vstd::prelude::*;

verus! {

/// Magic, length and payload: what the checksum covers.
pub open spec fn frame_body(magic: Seq<u8>, payload: Seq<u8>) -> Seq<u8> {
    magic + be_bytes(payload.len(), 4) + payload
}

/// A complete frame.
pub open spec fn frame_of(magic: Seq<u8>, payload: Seq<u8>) -> Seq<u8> {
    frame_body(magic, payload) + sha256_digest(frame_body(magic, payload))@
}

/// Whether a payload is short enough for a frame.
pub open spec fn fits_frame(payload: Seq<u8>) -> bool {
    payload.len() <= u32::MAX
}

/// Puts a payload into a frame. A payload whose length does not fit gives `None`.
pub fn encode_framed(magic: &[u8; 8], payload: &[u8]) -> (frame: Option<Vec<u8>>)
    ensures
        match frame {
            Some(bytes) => {
                &&& fits_frame(payload@)
                &&& bytes@ == frame_of(magic@, payload@)
            },
            None => !fits_frame(payload@),
        },
{
    if payload.len() as u64 > u32::MAX as u64 {
        return None;
    }
    let mut bytes: Vec<u8> = Vec::new();
    append(&mut bytes, magic);
    append_u32(&mut bytes, payload.len() as u32);
    append(&mut bytes, payload);
    assert(bytes@ =~= frame_body(magic@, payload@));
    let checksum: [u8; 32] = sha256(bytes.as_slice());
    append(&mut bytes, &checksum);
    Some(bytes)
}

/// Takes the payload out of a frame, if the bytes are one.
pub fn decode_framed(magic: &[u8; 8], input: &[u8]) -> (payload: Option<Vec<u8>>)
    ensures
        match payload {
            Some(bytes) => fits_frame(bytes@) && input@ == frame_of(magic@, bytes@),
            None => forall|other: Seq<u8>|
                fits_frame(other) ==> #[trigger] frame_of(magic@, other) != input@,
        },
{
    proof {
        assert forall|other: Seq<u8>|
            fits_frame(other) && #[trigger] frame_of(magic@, other) == input@ implies input@.len() == other.len()
            + 44 && input@.subrange(0, 8) == magic@ && be_value(input@.subrange(8, 12))
            == other.len() && input@.subrange(0, input@.len() - 32) == frame_body(magic@, other)
            && input@.subrange(input@.len() - 32, input@.len() as int) == sha256_digest(
            frame_body(magic@, other),
        )@ by {
            lemma_frame_parts(magic@, other, input@);
        }
    }
    if input.len() < 44 {
        return None;
    }
    if !bytes_equal(&input[0..8], magic) {
        return None;
    }
    let length: u32 = read_u32(input, 8);
    if length as u64 != (input.len() - 44) as u64 {
        return None;
    }
    let end: usize = input.len() - 32;
    let checksum: [u8; 32] = sha256(&input[0..end]);
    if !bytes_equal(&checksum, &input[end..input.len()]) {
        return None;
    }
    let payload = copy_of(&input[12..end]);
    proof {
        crate::bytes::lemma_be_bytes_of_be_value(input@.subrange(8, 12));
        assert(input@.subrange(0, end as int) =~= frame_body(magic@, payload@)) by {
            assert(input@.subrange(0, end as int) =~= input@.subrange(0, 8) + input@.subrange(8, 12)
                + input@.subrange(12, end as int));
        }
        assert(input@ =~= input@.subrange(0, end as int) + input@.subrange(
            end as int,
            input@.len() as int,
        ));
    }
    Some(payload)
}

proof fn lemma_frame_parts(magic: Seq<u8>, payload: Seq<u8>, frame: Seq<u8>)
    requires
        magic.len() == 8,
        fits_frame(payload),
        frame == frame_of(magic, payload),
    ensures
        frame.len() == payload.len() + 44,
        frame.subrange(0, 8) == magic,
        be_value(frame.subrange(8, 12)) == payload.len(),
        frame.subrange(0, frame.len() - 32) == frame_body(magic, payload),
        frame.subrange(12, frame.len() - 32) == payload,
        frame.subrange(frame.len() - 32, frame.len() as int) == sha256_digest(
            frame_body(magic, payload),
        )@,
{
    crate::bytes::lemma_be_bytes_len(payload.len(), 4);
    crate::bytes::lemma_capacities();
    crate::bytes::lemma_be_value_of_be_bytes(payload.len(), 4);
    assert(frame.subrange(0, 8) =~= magic);
    assert(frame.subrange(8, 12) =~= be_bytes(payload.len(), 4));
    assert(frame.subrange(0, frame.len() - 32) =~= frame_body(magic, payload));
    assert(frame.subrange(12, frame.len() - 32) =~= payload);
    assert(frame.subrange(frame.len() - 32, frame.len() as int) =~= sha256_digest(
        frame_body(magic, payload),
    )@);
}

/// Two frames with the same bytes have the same payload.
pub proof fn law_frame_determines_payload(magic: Seq<u8>, left: Seq<u8>, right: Seq<u8>)
    requires
        magic.len() == 8,
        fits_frame(left),
        fits_frame(right),
        frame_of(magic, left) == frame_of(magic, right),
    ensures
        left == right,
{
    lemma_frame_parts(magic, left, frame_of(magic, left));
    lemma_frame_parts(magic, right, frame_of(magic, right));
}

/// A frame that was cut short is not a frame.
pub proof fn law_truncated_frame_is_no_frame(
    magic: Seq<u8>,
    payload: Seq<u8>,
    other: Seq<u8>,
    length: int,
)
    requires
        magic.len() == 8,
        fits_frame(payload),
        fits_frame(other),
        0 <= length < frame_of(magic, payload).len(),
    ensures
        frame_of(magic, payload).take(length) != frame_of(magic, other),
{
    let whole = frame_of(magic, payload);
    lemma_frame_parts(magic, payload, whole);
    lemma_frame_parts(magic, other, frame_of(magic, other));
    if whole.take(length) == frame_of(magic, other) {
        assert(whole.take(length).subrange(8, 12) =~= whole.subrange(8, 12));
    }
}

} // verus!
