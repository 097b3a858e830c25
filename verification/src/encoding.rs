//! Textual forms of bytes: hexadecimal, unpadded URL-safe base64 and hyphenated identifiers.

use base64::engine::general_purpose::URL_SAFE_NO_PAD;
use base64::Engine;
use crate::text::lower_text;
use vstd::prelude::*;

verus! {

/// The lower-case hexadecimal digit of `nibble`.
pub open spec fn hex_digit(nibble: int) -> char {
    if nibble < 10 {
        ('0' as int + nibble) as char
    } else {
        ('a' as int + nibble - 10) as char
    }
}

/// The lower-case hexadecimal text of `bytes`, two digits for each byte.
pub open spec fn hex_text(bytes: Seq<u8>) -> Seq<char> {
    Seq::new(
        bytes.len() * 2,
        |i: int|
            if i % 2 == 0 {
                hex_digit(bytes[i / 2] as int / 16)
            } else {
                hex_digit(bytes[i / 2] as int % 16)
            },
    )
}

/// The value of a hexadecimal digit in either case, if it is one.
pub open spec fn nibble_value(digit: char) -> Option<int> {
    if '0' <= digit <= '9' {
        Some(digit as int - '0' as int)
    } else if 'a' <= digit <= 'f' {
        Some(digit as int - 'a' as int + 10)
    } else if 'A' <= digit <= 'F' {
        Some(digit as int - 'A' as int + 10)
    } else {
        None
    }
}

fn digit_of(nibble: u8) -> (digit: char)
    requires
        nibble < 16,
    ensures
        digit == hex_digit(nibble as int),
{
    if nibble < 10 {
        (48 + nibble) as char
    } else {
        (87 + nibble) as char
    }
}

/// The lower-case hexadecimal text of `value`.
pub fn hex(value: &[u8]) -> (text: String)
    ensures
        text@ == hex_text(value@),
{
    let mut text: String = String::new();
    let mut index: usize = 0;
    while index < value.len()
        invariant
            index <= value.len(),
            text@ == hex_text(value@).take(index * 2),
        decreases value.len() - index,
    {
        text.push(digit_of(value[index] / 16));
        text.push(digit_of(value[index] % 16));
        index += 1;
        assert(text@ =~= hex_text(value@).take(index * 2));
    }
    assert(hex_text(value@).take(value@.len() as int * 2) =~= hex_text(value@));
    text
}

/// Two byte sequences with the same hexadecimal text are the same.
pub proof fn lemma_hex_text_injective(left: Seq<u8>, right: Seq<u8>)
    requires
        hex_text(left) == hex_text(right),
    ensures
        left == right,
{
    assert(hex_text(left).len() == left.len() * 2);
    assert(hex_text(right).len() == right.len() * 2);
    assert forall|i: int| 0 <= i < left.len() implies left[i] == right[i] by {
        let high = hex_text(left)[2 * i];
        let low = hex_text(left)[2 * i + 1];
        assert(high == hex_digit(left[i] as int / 16));
        assert(low == hex_digit(left[i] as int % 16));
        assert(hex_text(right)[2 * i] == hex_digit(right[i] as int / 16));
        assert(hex_text(right)[2 * i + 1] == hex_digit(right[i] as int % 16));
    }
    assert(left =~= right);
}

/// The byte at `at`, or zero past the end.
pub open spec fn byte_or_zero(bytes: Seq<u8>, at: int) -> int {
    if 0 <= at < bytes.len() {
        bytes[at] as int
    } else {
        0
    }
}

/// The `i`-th group of six bits of `bytes`, the last one padded with zero bits.
pub open spec fn sextet(bytes: Seq<u8>, i: int) -> int {
    let at = i / 4 * 3;
    let group = byte_or_zero(bytes, at) * 65536 + byte_or_zero(bytes, at + 1) * 256 + byte_or_zero(
        bytes,
        at + 2,
    );
    if i % 4 == 0 {
        group / 262144
    } else if i % 4 == 1 {
        group / 4096 % 64
    } else if i % 4 == 2 {
        group / 64 % 64
    } else {
        group % 64
    }
}

/// The URL-safe base64 symbol of six bits.
pub open spec fn base64url_symbol(bits: int) -> char {
    if bits < 26 {
        ('A' as int + bits) as char
    } else if bits < 52 {
        ('a' as int + bits - 26) as char
    } else if bits < 62 {
        ('0' as int + bits - 52) as char
    } else if bits == 62 {
        '-'
    } else {
        '_'
    }
}

/// The unpadded URL-safe base64 text of `bytes`.
pub open spec fn base64url_text(bytes: Seq<u8>) -> Seq<char> {
    Seq::new(((bytes.len() * 4 + 2) / 3) as nat, |i: int| base64url_symbol(sextet(bytes, i)))
}

/// `base64::Engine::encode` of the engine `URL_SAFE_NO_PAD`: one symbol for each started group
/// of six bits, without padding.
#[verifier::external_body]
pub(crate) fn base64url_encode(bytes: &[u8]) -> (text: String)
    ensures
        text@ == base64url_text(bytes@),
{
    URL_SAFE_NO_PAD.encode(bytes)
}

/// `base64::Engine::decode` of the engine `URL_SAFE_NO_PAD`: the bytes whose encoding is
/// `text`, or an error where no bytes have that encoding. Padding, foreign characters, an
/// incomplete last group and stray trailing bits are all errors.
#[verifier::external_body]
pub(crate) fn base64url_decode(text: &str) -> (bytes: Option<Vec<u8>>)
    ensures
        match bytes {
            Some(decoded) => base64url_text(decoded@) == text@,
            None => forall|other: Seq<u8>| #[trigger] base64url_text(other) != text@,
        },
{
    match URL_SAFE_NO_PAD.decode(text) {
        Ok(bytes) => Some(bytes),
        Err(_) => None,
    }
}

proof fn lemma_symbol_injective(left: int, right: int)
    requires
        0 <= left < 64,
        0 <= right < 64,
        base64url_symbol(left) == base64url_symbol(right),
    ensures
        left == right,
{
}

proof fn lemma_group_digits(first: int, second: int, third: int, fourth: int)
    requires
        0 <= first < 64,
        0 <= second < 64,
        0 <= third < 64,
        0 <= fourth < 64,
    ensures
        ({
            let group = first * 262144 + second * 4096 + third * 64 + fourth;
            &&& group / 262144 == first
            &&& group / 4096 % 64 == second
            &&& group / 64 % 64 == third
            &&& group % 64 == fourth
        }),
{
    let group = first * 262144 + second * 4096 + third * 64 + fourth;
    assert(group / 64 == first * 4096 + second * 64 + third);
    assert(group / 4096 == first * 64 + second);
}

proof fn lemma_group_bytes(a: int, b: int, c: int, group: int)
    requires
        0 <= a < 256,
        0 <= b < 256,
        0 <= c < 256,
        group == a * 65536 + b * 256 + c,
    ensures
        a == group / 262144 * 4 + group / 4096 % 64 / 16,
        b == group / 4096 % 64 % 16 * 16 + group / 64 % 64 / 4,
        c == group / 64 % 64 % 4 * 64 + group % 64,
        0 <= group / 262144 < 64,
{
    let first = a / 4;
    let second = a % 4 * 16 + b / 16;
    let third = b % 16 * 4 + c / 64;
    let fourth = c % 64;
    assert(group == first * 262144 + second * 4096 + third * 64 + fourth);
    lemma_group_digits(first, second, third, fourth);
    assert(second / 16 == a % 4 && second % 16 == b / 16);
    assert(third / 4 == b % 16 && third % 4 == c / 64);
}

/// Two byte sequences with the same base64 text are the same.
pub proof fn lemma_base64url_injective(left: Seq<u8>, right: Seq<u8>)
    requires
        base64url_text(left) == base64url_text(right),
    ensures
        left == right,
{
    assert(base64url_text(left).len() == (left.len() * 4 + 2) / 3);
    assert(base64url_text(right).len() == (right.len() * 4 + 2) / 3);
    assert(left.len() == right.len());
    assert forall|j: int| 0 <= j < base64url_text(left).len() implies sextet(left, j) == sextet(
        right,
        j,
    ) && 0 <= sextet(left, j) < 64 by {
        let at = j / 4 * 3;
        lemma_group_bytes(
            byte_or_zero(left, at),
            byte_or_zero(left, at + 1),
            byte_or_zero(left, at + 2),
            byte_or_zero(left, at) * 65536 + byte_or_zero(left, at + 1) * 256 + byte_or_zero(
                left,
                at + 2,
            ),
        );
        lemma_group_bytes(
            byte_or_zero(right, at),
            byte_or_zero(right, at + 1),
            byte_or_zero(right, at + 2),
            byte_or_zero(right, at) * 65536 + byte_or_zero(right, at + 1) * 256 + byte_or_zero(
                right,
                at + 2,
            ),
        );
        assert(base64url_text(left)[j] == base64url_symbol(sextet(left, j)));
        assert(base64url_text(right)[j] == base64url_symbol(sextet(right, j)));
        lemma_symbol_injective(sextet(left, j), sextet(right, j));
    }
    assert forall|i: int| 0 <= i < left.len() implies left[i] == right[i] by {
        let group = i / 3;
        let at = group * 3;
        let j = group * 4 + i % 3;
        assert(j / 4 == group && (j + 1) / 4 == group);
        assert(j + 1 < base64url_text(left).len());
        lemma_group_bytes(
            byte_or_zero(left, at),
            byte_or_zero(left, at + 1),
            byte_or_zero(left, at + 2),
            byte_or_zero(left, at) * 65536 + byte_or_zero(left, at + 1) * 256 + byte_or_zero(
                left,
                at + 2,
            ),
        );
        lemma_group_bytes(
            byte_or_zero(right, at),
            byte_or_zero(right, at + 1),
            byte_or_zero(right, at + 2),
            byte_or_zero(right, at) * 65536 + byte_or_zero(right, at + 1) * 256 + byte_or_zero(
                right,
                at + 2,
            ),
        );
        assert(sextet(left, j) == sextet(right, j));
        assert(sextet(left, j + 1) == sextet(right, j + 1));
        if i % 3 == 0 {
            assert(i == at);
        } else if i % 3 == 1 {
            assert(i == at + 1);
        } else {
            assert(i == at + 2);
        }
    }
    assert(left =~= right);
}

/// The hyphenated lower-case text of a 16-byte identifier.
pub open spec fn uuid_text(id: Seq<u8>) -> Seq<char> {
    hex_text(id.subrange(0, 4)) + seq!['-'] + hex_text(id.subrange(4, 6)) + seq!['-'] + hex_text(
        id.subrange(6, 8),
    ) + seq!['-'] + hex_text(id.subrange(8, 10)) + seq!['-'] + hex_text(id.subrange(10, 16))
}

/// The digits of an identifier in groups of eight, four, four, four and twelve, if single
/// hyphens stand between the groups.
pub open spec fn grouped_digits(text: Seq<char>) -> Option<Seq<char>> {
    if text.len() == 36 && text[8] == '-' && text[13] == '-' && text[18] == '-' && text[23]
        == '-' {
        Some(
            text.subrange(0, 8) + text.subrange(9, 13) + text.subrange(14, 18) + text.subrange(
                19,
                23,
            ) + text.subrange(24, 36),
        )
    } else {
        None
    }
}

/// The digits of an identifier in one of its forms: plain, in groups, in groups between braces,
/// or in groups behind `urn:uuid:` in either case.
pub open spec fn uuid_digits(text: Seq<char>) -> Option<Seq<char>> {
    if text.len() == 32 {
        Some(text)
    } else if text.len() == 36 {
        grouped_digits(text)
    } else if text.len() == 38 && text[0] == '{' && text[37] == '}' {
        grouped_digits(text.subrange(1, 37))
    } else if text.len() == 45 && lower_text(text.take(9)) == "urn:uuid:"@ {
        grouped_digits(text.skip(9))
    } else {
        None
    }
}

/// Whether a text spells the identifier, with hexadecimal digits in either case.
pub open spec fn spells_uuid(text: Seq<char>, id: Seq<u8>) -> bool {
    &&& id.len() == 16
    &&& uuid_digits(text) is Some
    &&& forall|i: int|
        0 <= i < 16 ==> hex_byte(uuid_digits(text)->Some_0, i) == Some((#[trigger] id[i]) as int)
}

/// The identifier that a text spells, if it spells one.
pub open spec fn parsed_uuid(text: Seq<char>) -> Option<[u8; 16]> {
    if exists|id: [u8; 16]| #[trigger] spells_uuid(text, id@) {
        Some(choose|id: [u8; 16]| #[trigger] spells_uuid(text, id@))
    } else {
        None
    }
}

proof fn lemma_spelled_once(text: Seq<char>, id: [u8; 16])
    requires
        spells_uuid(text, id@),
    ensures
        parsed_uuid(text) == Some(id),
{
    let chosen = choose|other: [u8; 16]| #[trigger] spells_uuid(text, other@);
    assert(spells_uuid(text, chosen@));
    assert forall|i: int| 0 <= i < 16 implies chosen[i] == id[i] by {
        assert(hex_byte(uuid_digits(text)->Some_0, i) == Some(chosen@[i] as int));
        assert(hex_byte(uuid_digits(text)->Some_0, i) == Some(id@[i] as int));
    }
    assert(chosen =~= id);
}

/// The hyphenated text of an identifier is read back as the identifier.
pub proof fn law_uuid_round_trip(id: [u8; 16])
    ensures
        parsed_uuid(uuid_text(id@)) == Some(id),
{
    let text = uuid_text(id@);
    let digits = hex_text(id@);
    assert(text.len() == 36);
    assert(text[8] == '-' && text[13] == '-' && text[18] == '-' && text[23] == '-');
    assert(grouped_digits(text)->Some_0 =~= digits);
    assert forall|i: int| 0 <= i < 16 implies hex_byte(digits, i) == Some(
        (#[trigger] id@[i]) as int,
    ) by {
        let high = id@[i] as int / 16;
        let low = id@[i] as int % 16;
        assert(digits[2 * i] == hex_digit(high));
        assert(digits[2 * i + 1] == hex_digit(low));
        assert(nibble_value(hex_digit(high)) == Some(high));
        assert(nibble_value(hex_digit(low)) == Some(low));
    }
    lemma_spelled_once(text, id);
}

/// `uuid::Uuid::from_bytes` and its `to_string`: the hyphenated form in lower case.
#[verifier::external_body]
fn format_uuid(id: &[u8; 16]) -> (text: String)
    ensures
        text@ == uuid_text(id@),
{
    uuid::Uuid::from_bytes(*id).to_string()
}

/// `uuid::Uuid::parse_str`: the identifier that the text spells, in one of the four forms that
/// are accepted; nothing where it spells none.
#[verifier::external_body]
fn read_uuid(text: &str) -> (id: Option<[u8; 16]>)
    ensures
        match id {
            Some(value) => spells_uuid(text@, value@),
            None => forall|value: Seq<u8>| !#[trigger] spells_uuid(text@, value),
        },
{
    match uuid::Uuid::parse_str(text) {
        Ok(id) => Some(*id.as_bytes()),
        Err(_) => None,
    }
}

/// The hyphenated lower-case text of an identifier, which reads back as the identifier.
pub fn uuid_string(id: &[u8; 16]) -> (text: String)
    ensures
        text@ == uuid_text(id@),
        parsed_uuid(text@) == Some(*id),
{
    proof {
        law_uuid_round_trip(*id);
    }
    format_uuid(id)
}

/// The identifier that a text spells, if it spells one.
pub fn uuid_parse(text: &str) -> (id: Option<[u8; 16]>)
    ensures
        id == parsed_uuid(text@),
{
    let id = read_uuid(text);
    proof {
        match id {
            Some(value) => lemma_spelled_once(text@, value),
            None => {
                assert forall|value: [u8; 16]| !#[trigger] spells_uuid(text@, value@) by {}
            },
        }
    }
    id
}

/// `uuid::Builder::from_random_bytes`: the random bytes with the version and variant bits of a
/// random identifier set.
#[verifier::external_body]
pub(crate) fn uuid_from_random(random: [u8; 16]) -> (id: [u8; 16])
    ensures
        id@ == random@.update(6, (random@[6] % 16 + 64) as u8).update(
            8,
            (random@[8] % 64 + 128) as u8,
        ),
{
    *uuid::Builder::from_random_bytes(random).into_uuid().as_bytes()
}

/// The byte at `index` that hexadecimal digits spell, if both its digits are digits.
pub open spec fn hex_byte(text: Seq<char>, index: int) -> Option<int> {
    match (nibble_value(text[2 * index]), nibble_value(text[2 * index + 1])) {
        (Some(high), Some(low)) => Some(high * 16 + low),
        _ => None,
    }
}

/// Whether `text` is 64 hexadecimal digits in either case that spell `bytes`.
pub open spec fn hex_value_32(text: Seq<char>, bytes: Seq<u8>) -> bool {
    &&& text.len() == 64
    &&& bytes.len() == 32
    &&& forall|i: int| 0 <= i < 32 ==> hex_byte(text, i) == Some((#[trigger] bytes[i]) as int)
}

/// The value of a hexadecimal digit in either case.
pub fn decode_nibble(digit: char) -> (value: Option<u8>)
    ensures
        match value {
            Some(nibble) => nibble_value(digit) == Some(nibble as int) && nibble < 16,
            None => nibble_value(digit) is None,
        },
{
    if '0' <= digit && digit <= '9' {
        Some(digit as u8 - 48)
    } else if 'a' <= digit && digit <= 'f' {
        Some(digit as u8 - 87)
    } else if 'A' <= digit && digit <= 'F' {
        Some(digit as u8 - 55)
    } else {
        None
    }
}

/// The 32 bytes that 64 hexadecimal digits spell.
pub fn decode_hex_32(text: &str) -> (bytes: Option<[u8; 32]>)
    ensures
        match bytes {
            Some(value) => hex_value_32(text@, value@),
            None => forall|value: Seq<u8>| !#[trigger] hex_value_32(text@, value),
        },
{
    let chars = crate::text::chars_of(text);
    if chars.len() != 64 {
        return None;
    }
    let mut value: [u8; 32] = [0u8; 32];
    let mut index: usize = 0;
    while index < 32
        invariant
            index <= 32,
            chars@ == text@,
            chars@.len() == 64,
            forall|i: int| 0 <= i < index ==> hex_byte(text@, i) == Some((#[trigger] value@[i]) as int),
        decreases 32 - index,
    {
        match (decode_nibble(chars[2 * index]), decode_nibble(chars[2 * index + 1])) {
            (Some(high), Some(low)) => {
                value[index] = high * 16 + low;
            },
            _ => {
                proof {
                    assert(hex_byte(text@, index as int) is None);
                    assert forall|other: Seq<u8>| !#[trigger] hex_value_32(text@, other) by {
                        if hex_value_32(text@, other) {
                            assert(hex_byte(text@, index as int) == Some(
                                other[index as int] as int,
                            ));
                        }
                    }
                }
                return None;
            },
        }
        index += 1;
    }
    Some(value)
}

/// The bytes that an unpadded URL-safe base64 text stands for, if it is such a text.
pub open spec fn base64url_bytes(text: Seq<char>) -> Option<Seq<u8>> {
    if exists|bytes: Seq<u8>| #[trigger] base64url_text(bytes) == text {
        Some(choose|bytes: Seq<u8>| #[trigger] base64url_text(bytes) == text)
    } else {
        None
    }
}

/// Base64 text stands for the bytes that it was made from.
pub proof fn lemma_base64url_bytes(bytes: Seq<u8>)
    ensures
        base64url_bytes(base64url_text(bytes)) == Some(bytes),
{
    let text = base64url_text(bytes);
    let chosen = choose|other: Seq<u8>| #[trigger] base64url_text(other) == text;
    assert(base64url_text(chosen) == text);
    lemma_base64url_injective(chosen, bytes);
}

/// Base64 text takes one byte for each of its characters.
pub proof fn lemma_base64url_size(bytes: Seq<u8>)
    ensures
        vstd::utf8::encode_utf8(base64url_text(bytes)).len() == (bytes.len() * 4 + 2) / 3,
{
    let text = base64url_text(bytes);
    assert forall|i: int| 0 <= i < text.len() implies '\0' <= #[trigger] text[i] <= '\u{7f}' by {
        let at = i / 4 * 3;
        lemma_group_bytes(
            byte_or_zero(bytes, at),
            byte_or_zero(bytes, at + 1),
            byte_or_zero(bytes, at + 2),
            byte_or_zero(bytes, at) * 65536 + byte_or_zero(bytes, at + 1) * 256 + byte_or_zero(
                bytes,
                at + 2,
            ),
        );
        assert(0 <= sextet(bytes, i) < 64);
    }
    vstd::utf8::is_ascii_chars_encode_utf8(text);
}

/// Hexadecimal text takes one byte for each of its characters.
pub proof fn lemma_hex_text_size(bytes: Seq<u8>)
    ensures
        vstd::utf8::encode_utf8(hex_text(bytes)).len() == bytes.len() * 2,
{
    let text = hex_text(bytes);
    assert forall|i: int| 0 <= i < text.len() implies '\0' <= #[trigger] text[i] <= '\u{7f}' by {
        assert(0 <= i / 2 < bytes.len());
    }
    vstd::utf8::is_ascii_chars_encode_utf8(text);
}

} // verus!
