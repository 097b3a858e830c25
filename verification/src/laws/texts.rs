//! How bytes and numbers are written down.

use crate::address::IpAddress;
use crate::bitmap::{bit_set, byte_bit, set_count};
use crate::encoding::{
    base64url_symbol, base64url_text, hex_byte, hex_digit, hex_text, hex_value_32, nibble_value,
    sextet,
};
use crate::ordering::text_before;
use crate::platform_handles::has_control;
use crate::text::{
    decimal_text, is_control_char, is_white_space, leading_space, lower_char, lower_text, trimmed,
    trimmed_end, upper_char, upper_text,
};
use vstd::prelude::*;

verus! {

/// A digit of hexadecimal text is read as the number that it was written for, in either case.
pub proof fn law_hex_digits_are_read_back(nibble: int, digit: char)
    requires
        0 <= nibble < 16,
    ensures
        nibble_value(hex_digit(nibble)) == Some(nibble),
        nibble_value(digit) is Some <==> '0' <= digit <= '9' || 'a' <= digit <= 'f' || 'A' <= digit
            <= 'F',
        nibble_value(digit) matches Some(value) ==> 0 <= value < 16,
        nibble_value(upper_char(hex_digit(nibble))) == Some(nibble),
{
}

/// Bytes are written as two digits each, the higher half first.
pub proof fn law_bytes_are_written_high_half_first(bytes: Seq<u8>, i: int)
    requires
        0 <= i < bytes.len(),
    ensures
        hex_text(bytes).len() == 2 * bytes.len(),
        nibble_value(hex_text(bytes)[2 * i]) == Some(bytes[i] as int / 16),
        nibble_value(hex_text(bytes)[2 * i + 1]) == Some(bytes[i] as int % 16),
        bytes[i] == 16 * nibble_value(hex_text(bytes)[2 * i])->Some_0 + nibble_value(
            hex_text(bytes)[2 * i + 1],
        )->Some_0,
{
    let value = bytes[i] as int;
    law_hex_digits_are_read_back(value / 16, '0');
    law_hex_digits_are_read_back(value % 16, '0');
    assert(2 * i / 2 == i);
    assert((2 * i + 1) / 2 == i);
    assert(2 * i % 2 == 0);
    assert((2 * i + 1) % 2 == 1);
}

/// Three bytes are written as four symbols of six bits each, in order; the symbols of different
/// bits differ and need no escaping in addresses.
pub proof fn law_symbols_hold_six_bits_each(bytes: Seq<u8>, k: int, left: int, right: int)
    requires
        0 <= k,
        3 * k + 2 < bytes.len(),
        0 <= left < 64,
        0 <= right < 64,
    ensures
        bytes[3 * k] == sextet(bytes, 4 * k) * 4 + sextet(bytes, 4 * k + 1) / 16,
        bytes[3 * k + 1] == sextet(bytes, 4 * k + 1) % 16 * 16 + sextet(bytes, 4 * k + 2) / 4,
        bytes[3 * k + 2] == sextet(bytes, 4 * k + 2) % 4 * 64 + sextet(bytes, 4 * k + 3),
        base64url_symbol(left) == base64url_symbol(right) ==> left == right,
        3 * base64url_text(bytes).len() <= 4 * bytes.len() + 2,
        4 * bytes.len() <= 3 * base64url_text(bytes).len(),
        base64url_text(bytes)[4 * k] == base64url_symbol(sextet(bytes, 4 * k)),
        ({
            let symbol = base64url_symbol(left);
            'A' <= symbol <= 'Z' || 'a' <= symbol <= 'z' || '0' <= symbol <= '9' || symbol == '-'
                || symbol == '_'
        }),
{
    assert(4 * k / 4 * 3 == 3 * k);
    assert((4 * k + 1) / 4 * 3 == 3 * k);
    assert((4 * k + 2) / 4 * 3 == 3 * k);
    assert((4 * k + 3) / 4 * 3 == 3 * k);
    assert(4 * k % 4 == 0 && (4 * k + 1) % 4 == 1 && (4 * k + 2) % 4 == 2 && (4 * k + 3) % 4 == 3);
    lemma_groups(bytes[3 * k] as int, bytes[3 * k + 1] as int, bytes[3 * k + 2] as int);
}

proof fn lemma_groups(a: int, b: int, c: int)
    requires
        0 <= a < 256,
        0 <= b < 256,
        0 <= c < 256,
    ensures
        ({
            let group = a * 65536 + b * 256 + c;
            &&& group / 262144 == a / 4
            &&& group / 4096 % 64 == a % 4 * 16 + b / 16
            &&& group / 64 % 64 == b % 16 * 4 + c / 64
            &&& group % 64 == c % 64
        }),
{
    let group = a * 65536 + b * 256 + c;
    let (p, q) = (a / 4, a % 4);
    let (r, s) = (b / 16, b % 16);
    let (t, u) = (c / 64, c % 64);
    assert(a == 4 * p + q && b == 16 * r + s && c == 64 * t + u);
    assert(group == 262144 * p + (65536 * q + 256 * b + c));
    assert(0 <= 65536 * q + 256 * b + c < 262144);
    assert(group / 262144 == p);
    assert(group == 4096 * (64 * p + 16 * q + r) + (256 * s + c));
    assert(0 <= 256 * s + c < 4096);
    assert(group / 4096 == 64 * p + 16 * q + r);
    assert((64 * p + (16 * q + r)) % 64 == 16 * q + r);
    assert(group == 64 * (64 * (16 * a + r) + 4 * s + t) + u);
    assert(group / 64 == 64 * (16 * a + r) + 4 * s + t);
    assert((64 * (16 * a + r) + (4 * s + t)) % 64 == 4 * s + t);
}

/// The bits of a byte make it up, each with its weight, the lowest first.
pub proof fn law_bits_make_up_their_byte(byte: u8, bitmap: Seq<u8>, block: int)
    ensures
        byte as int == bit_of(byte, 0) + 2 * bit_of(byte, 1) + 4 * bit_of(byte, 2) + 8 * bit_of(
            byte,
            3,
        ) + 16 * bit_of(byte, 4) + 32 * bit_of(byte, 5) + 64 * bit_of(byte, 6) + 128 * bit_of(
            byte,
            7,
        ),
        0 <= block ==> bit_set(bitmap, block) == (bit_of(bitmap[block / 8], block % 8) == 1),
{
    let value = byte as int;
    assert(value / 1 == value);
    assert(value == 2 * (value / 2) + value % 2);
    assert(value / 2 == 2 * (value / 4) + value / 2 % 2);
    assert(value / 4 == 2 * (value / 8) + value / 4 % 2);
    assert(value / 8 == 2 * (value / 16) + value / 8 % 2);
    assert(value / 16 == 2 * (value / 32) + value / 16 % 2);
    assert(value / 32 == 2 * (value / 64) + value / 32 % 2);
    assert(value / 64 == 2 * (value / 128) + value / 64 % 2);
    assert(value / 128 == value / 128 % 2);
    lemma_bits_are_remainders(byte);
}

proof fn lemma_bits_are_remainders(byte: u8)
    ensures
        bit_of(byte, 0) == byte as int % 2,
        bit_of(byte, 1) == byte as int / 2 % 2,
        bit_of(byte, 2) == byte as int / 4 % 2,
        bit_of(byte, 3) == byte as int / 8 % 2,
        bit_of(byte, 4) == byte as int / 16 % 2,
        bit_of(byte, 5) == byte as int / 32 % 2,
        bit_of(byte, 6) == byte as int / 64 % 2,
        bit_of(byte, 7) == byte as int / 128 % 2,
{
    assert(byte as int / 1 == byte as int);
}

/// A bit of a byte as a number.
pub open spec fn bit_of(byte: u8, index: int) -> int {
    if byte_bit(byte, index) {
        1
    } else {
        0
    }
}

/// No more blocks are there than are counted, and all are exactly when none is missing.
pub proof fn law_set_bits_are_counted(bitmap: Seq<u8>, n: nat)
    ensures
        set_count(bitmap, n) <= n,
        set_count(bitmap, n) == n <==> forall|block: int|
            0 <= block < n ==> #[trigger] bit_set(bitmap, block),
        set_count(bitmap, n) == 0 <==> forall|block: int|
            0 <= block < n ==> !#[trigger] bit_set(bitmap, block),
    decreases n,
{
    if n > 0 {
        law_set_bits_are_counted(bitmap, (n - 1) as nat);
        if set_count(bitmap, n) == n {
            assert(bit_set(bitmap, n - 1));
        }
        if set_count(bitmap, n) == 0 {
            assert(!bit_set(bitmap, n - 1));
        }
    }
}

/// Only the spaces around a text are left out.
pub proof fn law_only_outer_spaces_are_trimmed(text: Seq<char>)
    ensures
        ({
            let start = leading_space(text) as int;
            let kept = trimmed(text);
            &&& 0 <= start <= text.len()
            &&& start + kept.len() <= text.len()
            &&& kept == text.subrange(start, start + kept.len())
            &&& kept.len() > 0 ==> !is_white_space(kept[0]) && !is_white_space(kept.last())
            &&& forall|i: int| 0 <= i < start ==> is_white_space(#[trigger] text[i])
            &&& forall|i: int|
                start + kept.len() <= i < text.len() ==> is_white_space(#[trigger] text[i])
        }),
{
    lemma_leading(text);
    let start = leading_space(text) as int;
    let rest = text.skip(start);
    lemma_trimmed_end(rest);
    let kept = trimmed(text);
    assert(kept =~= text.subrange(start, start + kept.len()));
    assert forall|i: int| start + kept.len() <= i < text.len() implies is_white_space(
        #[trigger] text[i],
    ) by {
        assert(rest[i - start] == text[i]);
    }
    if kept.len() > 0 {
        assert(kept[0] == rest[0] && rest[0] == text[start]);
    }
}

proof fn lemma_leading(text: Seq<char>)
    ensures
        leading_space(text) <= text.len(),
        forall|i: int| 0 <= i < leading_space(text) ==> is_white_space(#[trigger] text[i]),
        leading_space(text) < text.len() ==> !is_white_space(text[leading_space(text) as int]),
    decreases text.len(),
{
    if text.len() > 0 && is_white_space(text[0]) {
        let rest = text.drop_first();
        lemma_leading(rest);
        assert forall|i: int| 0 <= i < leading_space(text) implies is_white_space(
            #[trigger] text[i],
        ) by {
            if i > 0 {
                assert(rest[i - 1] == text[i]);
            }
        }
    }
}

proof fn lemma_trimmed_end(text: Seq<char>)
    ensures
        trimmed_end(text).len() <= text.len(),
        trimmed_end(text) == text.take(trimmed_end(text).len() as int),
        trimmed_end(text).len() > 0 ==> !is_white_space(trimmed_end(text).last()),
        forall|i: int|
            trimmed_end(text).len() <= i < text.len() ==> is_white_space(#[trigger] text[i]),
    decreases text.len(),
{
    if text.len() > 0 && is_white_space(text.last()) {
        let head = text.drop_last();
        lemma_trimmed_end(head);
        let kept = trimmed_end(text);
        assert(kept =~= text.take(kept.len() as int));
        assert forall|i: int| kept.len() <= i < text.len() implies is_white_space(
            #[trigger] text[i],
        ) by {
            if i < head.len() {
                assert(head[i] == text[i]);
            }
        }
    } else {
        assert(text =~= text.take(text.len() as int));
    }
}

/// Changing the case of a text changes its Latin letters and nothing else; what is lower case
/// stays, and back again gives the upper case.
pub proof fn law_case_is_of_letters(text: Seq<char>, i: int)
    requires
        0 <= i < text.len(),
    ensures
        lower_text(text).len() == text.len(),
        upper_text(text).len() == text.len(),
        !('A' <= lower_text(text)[i] <= 'Z'),
        !('a' <= upper_text(text)[i] <= 'z'),
        !('A' <= text[i] <= 'Z') ==> lower_text(text)[i] == text[i],
        !('a' <= text[i] <= 'z') ==> upper_text(text)[i] == text[i],
        'A' <= text[i] <= 'Z' ==> upper_char(lower_text(text)[i]) == text[i],
        'a' <= text[i] <= 'z' ==> lower_char(upper_text(text)[i]) == text[i],
        lower_text(lower_text(text)) == lower_text(text),
{
    assert(lower_text(lower_text(text)) =~= lower_text(text));
}

/// Control characters and white space: tabs and line breaks are both, a plain space is only white,
/// and no letter, digit or mark of the basic set is either.
pub proof fn law_controls_and_spaces(character: char)
    ensures
        0x21 <= character as int <= 0x7e ==> !is_control_char(character) && !is_white_space(
            character,
        ),
        0x9 <= character as int <= 0xd ==> is_control_char(character) && is_white_space(character),
        character == ' ' ==> is_white_space(character) && !is_control_char(character),
        (character as int) < 0x20 ==> is_control_char(character),
        0x7f <= character as int <= 0x9f ==> is_control_char(character),
        character as int >= 0xa0 ==> !is_control_char(character),
{
}

/// A number is written in decimal digits: the last one is what is left over ten, those before it
/// are the number without it, and there is no leading zero.
pub proof fn law_numbers_are_written_in_decimal(value: nat)
    ensures
        decimal_text(value).len() > 0,
        decimal_text(value).last() as int - '0' as int == value % 10,
        value >= 10 ==> decimal_text(value).drop_last() == decimal_text(value / 10),
        value < 10 ==> decimal_text(value).len() == 1,
        value > 0 ==> decimal_text(value)[0] != '0',
        forall|i: int|
            0 <= i < decimal_text(value).len() ==> '0' <= #[trigger] decimal_text(value)[i] <= '9',
    decreases value,
{
    if value >= 10 {
        law_numbers_are_written_in_decimal(value / 10);
        let before = decimal_text(value / 10);
        let now = decimal_text(value);
        assert(now.drop_last() =~= before);
        assert forall|i: int| 0 <= i < now.len() implies '0' <= #[trigger] now[i] <= '9' by {
            if i < before.len() {
                assert(now[i] == before[i]);
            }
        }
    }
}

/// Texts are ordered by the first character in which they differ; a beginning stands before what
/// goes on from it.
pub proof fn law_texts_are_ordered_by_their_first_difference(
    left: Seq<char>,
    right: Seq<char>,
    at: int,
)
    requires
        0 <= at <= left.len(),
        at <= right.len(),
        forall|i: int| 0 <= i < at ==> left[i] == right[i],
    ensures
        at < left.len() && at < right.len() && left[at] != right[at] ==> text_before(left, right)
            == (left[at] < right[at]),
        at == left.len() && at < right.len() ==> text_before(left, right),
        at == right.len() ==> !text_before(left, right),
    decreases at,
{
    if at > 0 {
        assert(left[0] == right[0]);
        law_texts_are_ordered_by_their_first_difference(
            left.drop_first(),
            right.drop_first(),
            at - 1,
        );
    }
}

/// Which addresses are private, and which are special: written out on their bytes.
pub proof fn law_private_addresses_are_known(address: IpAddress)
    ensures
        match address {
            IpAddress::V4(octets) => {
                let (a, b) = (octets@[0], octets@[1]);
                &&& a == 10 || a == 127 || a == 192 && b == 168 || a == 169 && b == 254
                    ==> address.private_or_local()
                &&& a == 172 ==> (address.private_or_local() <==> 16 <= b <= 31)
                &&& a == 100 ==> (address.private_or_local() <==> 64 <= b <= 127)
                &&& a == 192 && b != 168 || a == 169 && b != 254 ==> !address.private_or_local()
                &&& a != 10 && a != 127 && a != 192 && a != 169 && a != 172 && a != 100
                    ==> !address.private_or_local()
                &&& address.loopback() <==> a == 127
                &&& address.multicast() <==> 224 <= a <= 239
                &&& !address.link_local_v6()
            },
            IpAddress::V6(octets) => {
                let (a, b) = (octets@[0], octets@[1]);
                &&& a == 0xfc || a == 0xfd ==> address.private_or_local()
                &&& a == 0xfe && 0x80 <= b <= 0xbf ==> address.private_or_local()
                    && address.link_local_v6()
                &&& 0x20 <= a <= 0x3f ==> !address.private_or_local()
                &&& address.multicast() <==> a == 0xff
                &&& !address.broadcast()
            },
        },
{
}

/// A text holds a control character exactly when one of its characters is below the space, is the
/// delete character or is one of the thirty-two that follow it.
pub proof fn law_control_characters_are_found(text: Seq<char>)
    ensures
        has_control(text) <==> exists|i: int|
            0 <= i < text.len() && {
                let character = #[trigger] text[i] as int;
                character < 32 || 127 <= character < 160
            },
{
    if has_control(text) {
        let i = choose|i: int| 0 <= i < text.len() && is_control_char(#[trigger] text[i]);
        let character = text[i] as int;
        assert(character < 32 || 127 <= character < 160);
    }
    if exists|i: int|
        0 <= i < text.len() && {
            let character = #[trigger] text[i] as int;
            character < 32 || 127 <= character < 160
        } {
        let i = choose|i: int|
            0 <= i < text.len() && {
                let character = #[trigger] text[i] as int;
                character < 32 || 127 <= character < 160
            };
        assert(is_control_char(text[i]));
    }
}

/// The hexadecimal text of a digest is read as that digest, and as no other.
pub proof fn law_digests_are_read_back(digest: [u8; 32], other: Seq<u8>)
    ensures
        hex_value_32(hex_text(digest@), digest@),
        hex_value_32(hex_text(digest@), other) ==> other == digest@,
        forall|text: Seq<char>| #[trigger] hex_value_32(text, other) ==> text.len() == 64,
{
    let text = hex_text(digest@);
    assert forall|i: int| 0 <= i < 32 implies hex_byte(text, i) == Some(
        (#[trigger] digest@[i]) as int,
    ) by {
        let high = digest@[i] as int / 16;
        let low = digest@[i] as int % 16;
        assert(text[2 * i] == hex_digit(high));
        assert(text[2 * i + 1] == hex_digit(low));
        assert(nibble_value(hex_digit(high)) == Some(high));
        assert(nibble_value(hex_digit(low)) == Some(low));
    }
    if hex_value_32(text, other) {
        assert forall|i: int| 0 <= i < 32 implies other[i] == digest@[i] by {
            assert(hex_byte(text, i) == Some(other[i] as int));
            assert(hex_byte(text, i) == Some(digest@[i] as int));
        }
        assert(other =~= digest@);
    }
}

} // verus!
