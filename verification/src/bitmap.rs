//! Bitmaps with one bit for each block, the lowest bit of a byte first.

use crate::arith::{ceil_div, div_ceil};
use vstd::prelude::*;

verus! {

/// The weight of bit `index` of a byte.
pub open spec fn bit_weight(index: int) -> int {
    if index == 0 {
        1
    } else if index == 1 {
        2
    } else if index == 2 {
        4
    } else if index == 3 {
        8
    } else if index == 4 {
        16
    } else if index == 5 {
        32
    } else if index == 6 {
        64
    } else {
        128
    }
}

/// Whether bit `index` of `byte` is set.
pub open spec fn byte_bit(byte: u8, index: int) -> bool {
    byte as int / bit_weight(index) % 2 == 1
}

/// Whether the bit of `block` is set.
pub open spec fn bit_set(bitmap: Seq<u8>, block: int) -> bool {
    byte_bit(bitmap[block / 8], block % 8)
}

/// Whether a bitmap has exactly the bytes that `total_blocks` blocks need.
pub open spec fn bitmap_fits(bitmap: Seq<u8>, total_blocks: int) -> bool {
    bitmap.len() == ceil_div(total_blocks, 8)
}

/// How many of the first `n` blocks have their bit set.
pub open spec fn set_count(bitmap: Seq<u8>, n: nat) -> nat
    decreases n,
{
    if n == 0 {
        0
    } else {
        set_count(bitmap, (n - 1) as nat) + if bit_set(bitmap, n - 1) {
            1nat
        } else {
            0nat
        }
    }
}

fn weight(index: u64) -> (value: u8)
    requires
        index < 8,
    ensures
        value == bit_weight(index as int),
        value >= 1,
{
    if index == 0 {
        1
    } else if index == 1 {
        2
    } else if index == 2 {
        4
    } else if index == 3 {
        8
    } else if index == 4 {
        16
    } else if index == 5 {
        32
    } else if index == 6 {
        64
    } else {
        128
    }
}

/// Whether `bitmap` has exactly the bytes that `total_blocks` blocks need.
pub fn has_bitmap_size(bitmap: &[u8], total_blocks: u64) -> (fits: bool)
    ensures
        fits == bitmap_fits(bitmap@, total_blocks as int),
{
    bitmap.len() as u64 == div_ceil(total_blocks, 8)
}

/// Whether the bit of `block` is set.
pub fn is_set(bitmap: &[u8], block: u64) -> (set: bool)
    requires
        block as int / 8 < bitmap.len(),
    ensures
        set == bit_set(bitmap@, block as int),
{
    let byte: u8 = bitmap[(block / 8) as usize];
    let unit: u8 = weight(block % 8);
    byte / unit % 2 == 1
}

proof fn lemma_add_weight(byte: u8, index: int, other: int)
    requires
        0 <= index < 8,
        0 <= other < 8,
        !byte_bit(byte, index),
    ensures
        byte + bit_weight(index) <= 255,
        byte_bit((byte + bit_weight(index)) as u8, other) == (other == index || byte_bit(
            byte,
            other,
        )),
{
    let w: u8 = bit_weight(index) as u8;
    let v: u8 = bit_weight(other) as u8;
    assert(byte + w <= 255 && (((byte + w) as u8) / v % 2 == 1) == (w == v || byte / v % 2 == 1))
        by (bit_vector)
        requires
            w == 1 || w == 2 || w == 4 || w == 8 || w == 16 || w == 32 || w == 64 || w == 128,
            v == 1 || v == 2 || v == 4 || v == 8 || v == 16 || v == 32 || v == 64 || v == 128,
            byte / w % 2 != 1,
    ;
}

/// Sets the bit of `block`, and tells whether it was clear before.
pub fn set_bit(bitmap: &mut Vec<u8>, block: u64) -> (was_clear: bool)
    requires
        block as int / 8 < old(bitmap).len(),
    ensures
        was_clear == !bit_set(old(bitmap)@, block as int),
        final(bitmap)@.len() == old(bitmap)@.len(),
        forall|other: int|
            0 <= other < old(bitmap)@.len() * 8 ==> #[trigger] bit_set(final(bitmap)@, other) == (
            other == block || bit_set(old(bitmap)@, other)),
{
    if is_set(bitmap.as_slice(), block) {
        return false;
    }
    let at: usize = (block / 8) as usize;
    let byte: u8 = bitmap[at];
    let unit: u8 = weight(block % 8);
    proof {
        lemma_add_weight(byte, block as int % 8, block as int % 8);
    }
    bitmap[at] = byte + unit;
    proof {
        assert forall|other: int| 0 <= other < old(bitmap)@.len() * 8 implies #[trigger] bit_set(
            bitmap@,
            other,
        ) == (other == block || bit_set(old(bitmap)@, other)) by {
            if other / 8 == block as int / 8 {
                lemma_add_weight(byte, block as int % 8, other % 8);
            }
        }
    }
    true
}

/// Setting a clear bit below `n` adds one to the count, and a bit at or past `n` adds nothing.
pub proof fn lemma_set_count_after_set(before: Seq<u8>, after: Seq<u8>, block: int, n: nat)
    requires
        0 <= block,
        before.len() == after.len(),
        n <= before.len() * 8,
        !bit_set(before, block),
        forall|other: int|
            0 <= other < before.len() * 8 ==> #[trigger] bit_set(after, other) == (other == block
                || bit_set(before, other)),
    ensures
        set_count(after, n) == set_count(before, n) + if block < n {
            1nat
        } else {
            0nat
        },
    decreases n,
{
    if n > 0 {
        lemma_set_count_after_set(before, after, block, (n - 1) as nat);
        assert(bit_set(after, n - 1) == (n - 1 == block || bit_set(before, n - 1)));
    }
}

} // verus!
