//! Byte sequences: equality and big-endian integers.

use vstd::prelude::*;

verus! {

/// The `n` low-order bytes of `value`, most significant byte first.
pub open spec fn be_bytes(value: nat, n: nat) -> Seq<u8>
    decreases n,
{
    if n == 0 {
        Seq::empty()
    } else {
        be_bytes(value / 256, (n - 1) as nat).push((value % 256) as u8)
    }
}

/// The integer that `bytes` spell, most significant byte first.
pub open spec fn be_value(bytes: Seq<u8>) -> nat
    decreases bytes.len(),
{
    if bytes.len() == 0 {
        0
    } else {
        be_value(bytes.drop_last()) * 256 + bytes.last() as nat
    }
}

/// `256` to the power `n`.
pub open spec fn byte_capacity(n: nat) -> nat
    decreases n,
{
    if n == 0 {
        1
    } else {
        256 * byte_capacity((n - 1) as nat)
    }
}

/// `be_bytes(_, n)` has exactly `n` bytes.
pub proof fn lemma_be_bytes_len(value: nat, n: nat)
    ensures
        be_bytes(value, n).len() == n,
    decreases n,
{
    if n > 0 {
        lemma_be_bytes_len(value / 256, (n - 1) as nat);
    }
}

/// Reading back the bytes of a value that fits gives the value.
pub proof fn lemma_be_value_of_be_bytes(value: nat, n: nat)
    requires
        value < byte_capacity(n),
    ensures
        be_value(be_bytes(value, n)) == value,
    decreases n,
{
    if n > 0 {
        let high = be_bytes(value / 256, (n - 1) as nat);
        assert(value / 256 < byte_capacity((n - 1) as nat));
        lemma_be_value_of_be_bytes(value / 256, (n - 1) as nat);
        assert(be_bytes(value, n).drop_last() =~= high);
    }
}

/// Writing out the value that bytes spell gives the bytes.
pub proof fn lemma_be_bytes_of_be_value(bytes: Seq<u8>)
    ensures
        be_bytes(be_value(bytes), bytes.len()) == bytes,
        be_value(bytes) < byte_capacity(bytes.len()),
    decreases bytes.len(),
{
    if bytes.len() > 0 {
        lemma_be_bytes_of_be_value(bytes.drop_last());
        let value = be_value(bytes);
        assert(value / 256 == be_value(bytes.drop_last()));
        assert(value % 256 == bytes.last() as nat);
        assert(bytes.drop_last().push(bytes.last()) =~= bytes);
    } else {
        assert(be_bytes(be_value(bytes), 0) =~= bytes);
    }
}

/// The capacities of the integer widths.
pub proof fn lemma_capacities()
    ensures
        byte_capacity(1) == 0x100,
        byte_capacity(2) == 0x1_0000,
        byte_capacity(4) == 0x1_0000_0000,
        byte_capacity(8) == 0x1_0000_0000_0000_0000,
{
    reveal_with_fuel(byte_capacity, 9);
}

/// Whether two byte slices hold the same bytes.
pub fn bytes_equal(left: &[u8], right: &[u8]) -> (equal: bool)
    ensures
        equal == (left@ == right@),
{
    if left.len() != right.len() {
        return false;
    }
    let mut index: usize = 0;
    while index < left.len()
        invariant
            left@.len() == right@.len(),
            index <= left@.len(),
            forall|i: int| 0 <= i < index ==> left@[i] == right@[i],
        decreases left@.len() - index,
    {
        if left[index] != right[index] {
            return false;
        }
        index += 1;
    }
    assert(left@ =~= right@);
    true
}

/// Appends `tail` to `out`.
pub fn append(out: &mut Vec<u8>, tail: &[u8])
    ensures
        final(out)@ == old(out)@ + tail@,
{
    out.extend_from_slice(tail);
    assert(out@ =~= old(out)@ + tail@);
}

/// A fresh vector with the bytes of `source`.
pub fn copy_of(source: &[u8]) -> (copy: Vec<u8>)
    ensures
        copy@ == source@,
{
    let mut copy: Vec<u8> = Vec::new();
    append(&mut copy, source);
    assert(copy@ =~= source@);
    copy
}

/// Appends a 16-bit integer, most significant byte first.
pub fn append_u16(out: &mut Vec<u8>, value: u16)
    ensures
        final(out)@ == old(out)@ + be_bytes(value as nat, 2),
{
    proof {
        reveal_with_fuel(be_bytes, 3);
    }
    out.push((value / 256) as u8);
    out.push((value % 256) as u8);
    assert(out@ =~= old(out)@ + be_bytes(value as nat, 2));
}

/// Appends a 32-bit integer, most significant byte first.
pub fn append_u32(out: &mut Vec<u8>, value: u32)
    ensures
        final(out)@ == old(out)@ + be_bytes(value as nat, 4),
{
    proof {
        lemma_split_in_half(value as nat, 2, 2);
        lemma_capacities();
    }
    append_u16(out, (value / 0x1_0000) as u16);
    append_u16(out, (value % 0x1_0000) as u16);
    assert(out@ =~= old(out)@ + be_bytes(value as nat, 4));
}

/// Appends a 64-bit integer, most significant byte first.
pub fn append_u64(out: &mut Vec<u8>, value: u64)
    ensures
        final(out)@ == old(out)@ + be_bytes(value as nat, 8),
{
    proof {
        lemma_split_in_half(value as nat, 4, 4);
        lemma_capacities();
    }
    append_u32(out, (value / 0x1_0000_0000) as u32);
    append_u32(out, (value % 0x1_0000_0000) as u32);
    assert(out@ =~= old(out)@ + be_bytes(value as nat, 8));
}

proof fn lemma_split_in_half(value: nat, high: nat, low: nat)
    ensures
        byte_capacity(low) > 0,
        be_bytes(value, high + low) == be_bytes(value / byte_capacity(low), high) + be_bytes(
            value % byte_capacity(low),
            low,
        ),
    decreases low,
{
    if low == 0 {
        assert(value / 1 == value);
        assert(be_bytes(value, high) + be_bytes(value % 1, 0) =~= be_bytes(value, high));
    } else {
        let less = (low - 1) as nat;
        let capacity = byte_capacity(less);
        lemma_split_in_half(value / 256, high, less);
        assert(value / 256 / capacity == value / (256 * capacity)) by (nonlinear_arith)
            requires
                capacity > 0,
        ;
        assert((value % (256 * capacity)) / 256 == (value / 256) % capacity
            && (value % (256 * capacity)) % 256 == value % 256) by {
            let quotient = value / (256 * capacity);
            let rest = value % (256 * capacity);
            assert(value == 256 * capacity * quotient + rest && rest < 256 * capacity)
                by (nonlinear_arith)
                requires
                    quotient == value / (256 * capacity),
                    rest == value % (256 * capacity),
                    capacity > 0,
            ;
            assert(256 * capacity * quotient == 256 * (capacity * quotient)) by (nonlinear_arith);
            let inner = capacity * quotient;
            assert(value / 256 == inner + rest / 256);
            assert(value % 256 == rest % 256);
            assert((inner + rest / 256) % capacity == rest / 256) by {
                vstd::arithmetic::div_mod::lemma_mod_multiples_vanish(
                    quotient as int,
                    (rest / 256) as int,
                    capacity as int,
                );
                vstd::arithmetic::div_mod::lemma_small_mod(rest / 256, capacity);
            }
        }
        assert(be_bytes(value, high + low) =~= be_bytes(value / byte_capacity(low), high)
            + be_bytes(value % byte_capacity(low), low));
    }
}

proof fn lemma_be_value_concat(left: Seq<u8>, right: Seq<u8>)
    ensures
        be_value(left + right) == be_value(left) * byte_capacity(right.len()) + be_value(right),
    decreases right.len(),
{
    if right.len() == 0 {
        assert(left + right =~= left);
        assert(be_value(left) * 1 == be_value(left));
    } else {
        lemma_be_value_concat(left, right.drop_last());
        assert((left + right).drop_last() =~= left + right.drop_last());
        let a = be_value(left);
        let capacity = byte_capacity((right.len() - 1) as nat);
        let b = be_value(right.drop_last());
        assert((a * capacity + b) * 256 == a * (256 * capacity) + b * 256) by (nonlinear_arith);
        assert((left + right).last() == right.last());
    }
}

/// Reads a 16-bit integer at `at`.
pub fn read_u16(bytes: &[u8], at: usize) -> (value: u16)
    requires
        at + 2 <= bytes.len(),
    ensures
        value == be_value(bytes@.subrange(at as int, at + 2)),
{
    proof {
        reveal_with_fuel(be_value, 3);
    }
    (bytes[at] as u16) * 256 + bytes[at + 1] as u16
}

/// Reads a 32-bit integer at `at`.
pub fn read_u32(bytes: &[u8], at: usize) -> (value: u32)
    requires
        at + 4 <= bytes.len(),
    ensures
        value == be_value(bytes@.subrange(at as int, at + 4)),
{
    let high: u32 = read_u16(bytes, at) as u32;
    let low: u32 = read_u16(bytes, at + 2) as u32;
    let value: u32 = high * 0x1_0000 + low;
    proof {
        let left = bytes@.subrange(at as int, at + 2);
        let right = bytes@.subrange(at + 2, at + 4);
        lemma_capacities();
        lemma_be_value_concat(left, right);
        assert(left + right =~= bytes@.subrange(at as int, at + 4));
    }
    value
}

/// Reads a 64-bit integer at `at`.
pub fn read_u64(bytes: &[u8], at: usize) -> (value: u64)
    requires
        at + 8 <= bytes.len(),
    ensures
        value == be_value(bytes@.subrange(at as int, at + 8)),
{
    let high: u32 = read_u32(bytes, at);
    let low: u32 = read_u32(bytes, at + 4);
    assert(0 <= high <= 0xffff_ffff);
    let value: u64 = high as u64 * 0x1_0000_0000 + low as u64;
    proof {
        let left = bytes@.subrange(at as int, at + 4);
        let right = bytes@.subrange(at + 4, at + 8);
        lemma_capacities();
        lemma_be_value_concat(left, right);
        assert(left + right =~= bytes@.subrange(at as int, at + 8));
    }
    value
}

/// Copies 16 bytes starting at `at`.
pub fn read_16(bytes: &[u8], at: usize) -> (copy: [u8; 16])
    requires
        at + 16 <= bytes.len(),
    ensures
        copy@ == bytes@.subrange(at as int, at + 16),
{
    let mut copy: [u8; 16] = [0u8; 16];
    let mut index: usize = 0;
    while index < 16
        invariant
            index <= 16,
            at + 16 <= bytes.len(),
            forall|i: int| 0 <= i < index ==> copy@[i] == bytes@[at + i],
        decreases 16 - index,
    {
        copy[index] = bytes[at + index];
        index += 1;
    }
    assert(copy@ =~= bytes@.subrange(at as int, at + 16));
    copy
}

/// Copies 32 bytes starting at `at`.
pub fn read_32(bytes: &[u8], at: usize) -> (copy: [u8; 32])
    requires
        at + 32 <= bytes.len(),
    ensures
        copy@ == bytes@.subrange(at as int, at + 32),
{
    let mut copy: [u8; 32] = [0u8; 32];
    let mut index: usize = 0;
    while index < 32
        invariant
            index <= 32,
            at + 32 <= bytes.len(),
            forall|i: int| 0 <= i < index ==> copy@[i] == bytes@[at + i],
        decreases 32 - index,
    {
        copy[index] = bytes[at + index];
        index += 1;
    }
    assert(copy@ =~= bytes@.subrange(at as int, at + 32));
    copy
}

} // verus!
