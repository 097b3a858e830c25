//! Text: comparison, searching and building of strings.

use vstd::prelude::*;

verus! {

/// Whether `needle` occurs somewhere in `text`.
pub open spec fn contains_text(text: Seq<char>, needle: Seq<char>) -> bool {
    exists|at: int| #[trigger] occurs_at(text, needle, at)
}

/// Whether `needle` stands in `text` at position `at`.
pub open spec fn occurs_at(text: Seq<char>, needle: Seq<char>, at: int) -> bool {
    &&& 0 <= at
    &&& at + needle.len() <= text.len()
    &&& text.subrange(at, at + needle.len()) == needle
}

/// Whether `text` ends with `tail`.
pub open spec fn ends_with_text(text: Seq<char>, tail: Seq<char>) -> bool {
    occurs_at(text, tail, text.len() - tail.len())
}

/// Whether `text` starts with `head`.
pub open spec fn starts_with_text(text: Seq<char>, head: Seq<char>) -> bool {
    occurs_at(text, head, 0)
}

/// `String::push` of the standard library: appends one character.
pub assume_specification[ String::push ](text: &mut String, character: char)
    ensures
        final(text)@ == old(text)@.push(character),
;

/// The characters of `text`.
pub fn chars_of(text: &str) -> (chars: Vec<char>)
    ensures
        chars@ == text@,
{
    let mut chars: Vec<char> = Vec::new();
    for character in iter: text.chars()
        invariant
            chars@ == text@.take(iter.index() as int),
            iter.seq() == text@,
    {
        chars.push(character);
        assert(chars@ =~= text@.take(iter.index() + 1));
    }
    assert(text@.take(text@.len() as int) =~= text@);
    chars
}

/// The string made of `chars`.
pub fn text_of(chars: &Vec<char>) -> (text: String)
    ensures
        text@ == chars@,
{
    let mut text: String = String::new();
    let mut index: usize = 0;
    while index < chars.len()
        invariant
            index <= chars.len(),
            text@ == chars@.take(index as int),
        decreases chars.len() - index,
    {
        text.push(chars[index]);
        index += 1;
        assert(text@ =~= chars@.take(index as int));
    }
    assert(chars@.take(chars@.len() as int) =~= chars@);
    text
}

/// Whether two texts are the same.
pub fn same_text(left: &str, right: &str) -> (same: bool)
    ensures
        same == (left@ == right@),
{
    let a = chars_of(left);
    let b = chars_of(right);
    same_chars(&a, &b)
}

/// Whether two character sequences are the same.
pub fn same_chars(left: &Vec<char>, right: &Vec<char>) -> (same: bool)
    ensures
        same == (left@ == right@),
{
    if left.len() != right.len() {
        return false;
    }
    chars_at(left, right, 0)
}

fn chars_at(text: &Vec<char>, needle: &Vec<char>, at: usize) -> (found: bool)
    requires
        at + needle.len() <= text.len(),
    ensures
        found == occurs_at(text@, needle@, at as int),
        at == 0 && text@.len() == needle@.len() ==> found == (text@ == needle@),
{
    let mut index: usize = 0;
    while index < needle.len()
        invariant
            index <= needle.len(),
            at + needle.len() <= text.len(),
            forall|i: int| 0 <= i < index ==> text@[at + i] == needle@[i],
        decreases needle.len() - index,
    {
        if text[at + index] != needle[index] {
            assert(text@.subrange(at as int, at + needle@.len())[index as int] != needle@[index as int]);
            assert(at == 0 ==> text@[index as int] != needle@[index as int]);
            return false;
        }
        index += 1;
    }
    assert(text@.subrange(at as int, at + needle@.len()) =~= needle@);
    assert(at == 0 && text@.len() == needle@.len() ==> text@ =~= needle@);
    true
}

/// Whether `needle` occurs in `text`.
pub fn contains(text: &str, needle: &str) -> (found: bool)
    ensures
        found == contains_text(text@, needle@),
{
    let chars = chars_of(text);
    let wanted = chars_of(needle);
    if wanted.len() > chars.len() {
        return false;
    }
    let last: usize = chars.len() - wanted.len();
    let mut at: usize = 0;
    while at <= last
        invariant
            chars@ == text@,
            wanted@ == needle@,
            last == chars@.len() - wanted@.len(),
            at <= last + 1,
            forall|i: int| 0 <= i < at ==> !occurs_at(text@, needle@, i),
        decreases last + 1 - at,
    {
        if chars_at(&chars, &wanted, at) {
            return true;
        }
        if at == last {
            assert(forall|i: int| 0 <= i <= last ==> !occurs_at(text@, needle@, i));
            return false;
        }
        at += 1;
    }
    false
}

/// Whether `text` ends with `tail`.
pub fn ends_with(text: &str, tail: &str) -> (found: bool)
    ensures
        found == ends_with_text(text@, tail@),
{
    let chars = chars_of(text);
    let wanted = chars_of(tail);
    if wanted.len() > chars.len() {
        return false;
    }
    chars_at(&chars, &wanted, chars.len() - wanted.len())
}

/// Whether `text` starts with `head`.
pub fn starts_with(text: &str, head: &str) -> (found: bool)
    ensures
        found == starts_with_text(text@, head@),
{
    let chars = chars_of(text);
    let wanted = chars_of(head);
    if wanted.len() > chars.len() {
        return false;
    }
    chars_at(&chars, &wanted, 0)
}

/// Appends the text `tail` to `text`.
pub fn append_text(text: &mut String, tail: &str)
    ensures
        final(text)@ == old(text)@ + tail@,
{
    let chars = chars_of(tail);
    let mut index: usize = 0;
    while index < chars.len()
        invariant
            index <= chars.len(),
            chars@ == tail@,
            text@ == old(text)@ + tail@.take(index as int),
        decreases chars.len() - index,
    {
        text.push(chars[index]);
        index += 1;
        assert(text@ =~= old(text)@ + tail@.take(index as int));
    }
    assert(tail@.take(tail@.len() as int) =~= tail@);
}

/// `left` followed by `right`.
pub fn joined(left: &str, right: &str) -> (text: String)
    ensures
        text@ == left@ + right@,
{
    let mut text: String = left.to_owned();
    append_text(&mut text, right);
    text
}

/// The decimal digits of `value`.
pub open spec fn decimal_text(value: nat) -> Seq<char>
    decreases value,
{
    if value < 10 {
        seq![('0' as nat + value) as char]
    } else {
        decimal_text(value / 10).push(('0' as nat + value % 10) as char)
    }
}

/// The decimal digits of `value`.
pub fn decimal(value: u64) -> (text: String)
    ensures
        text@ == decimal_text(value as nat),
    decreases value,
{
    if value < 10 {
        let mut text: String = String::new();
        text.push((48 + value as u8) as char);
        assert(text@ =~= decimal_text(value as nat));
        text
    } else {
        let mut text: String = decimal(value / 10);
        text.push((48 + (value % 10) as u8) as char);
        text
    }
}

/// Whether a character is a control character (general category Cc).
pub open spec fn is_control_char(character: char) -> bool {
    character as int <= 0x1f || 0x7f <= character as int <= 0x9f
}

/// Whether a character is white space (Unicode property White_Space).
pub open spec fn is_white_space(character: char) -> bool {
    let code = character as int;
    ||| 0x9 <= code <= 0xd
    ||| code == 0x20
    ||| code == 0x85
    ||| code == 0xa0
    ||| code == 0x1680
    ||| 0x2000 <= code <= 0x200a
    ||| code == 0x2028
    ||| code == 0x2029
    ||| code == 0x202f
    ||| code == 0x205f
    ||| code == 0x3000
}

/// Whether `character` is a control character.
pub fn is_control(character: char) -> (control: bool)
    ensures
        control == is_control_char(character),
{
    let code: u32 = character as u32;
    code <= 0x1f || (0x7f <= code && code <= 0x9f)
}

/// Whether `character` is white space.
pub fn is_space(character: char) -> (space: bool)
    ensures
        space == is_white_space(character),
{
    let code: u32 = character as u32;
    (0x9 <= code && code <= 0xd) || code == 0x20 || code == 0x85 || code == 0xa0 || code == 0x1680
        || (0x2000 <= code && code <= 0x200a) || code == 0x2028 || code == 0x2029 || code == 0x202f
        || code == 0x205f || code == 0x3000
}

/// `character` with an ASCII capital made small.
pub open spec fn lower_char(character: char) -> char {
    if 'A' <= character <= 'Z' {
        (character as int + 32) as char
    } else {
        character
    }
}

/// `character` with a small ASCII letter made capital.
pub open spec fn upper_char(character: char) -> char {
    if 'a' <= character <= 'z' {
        (character as int - 32) as char
    } else {
        character
    }
}

/// `text` with ASCII capitals made small.
pub open spec fn lower_text(text: Seq<char>) -> Seq<char> {
    Seq::new(text.len(), |i: int| lower_char(text[i]))
}

/// `text` with small ASCII letters made capital.
pub open spec fn upper_text(text: Seq<char>) -> Seq<char> {
    Seq::new(text.len(), |i: int| upper_char(text[i]))
}

/// `text` with ASCII capitals made small.
pub fn to_lower(text: &str) -> (lower: String)
    ensures
        lower@ == lower_text(text@),
{
    let chars = chars_of(text);
    let mut lower: String = String::new();
    let mut index: usize = 0;
    while index < chars.len()
        invariant
            index <= chars.len(),
            chars@ == text@,
            lower@ == lower_text(text@).take(index as int),
        decreases chars.len() - index,
    {
        let character: char = chars[index];
        if 'A' <= character && character <= 'Z' {
            lower.push((character as u8 + 32) as char);
        } else {
            lower.push(character);
        }
        index += 1;
        assert(lower@ =~= lower_text(text@).take(index as int));
    }
    assert(lower_text(text@).take(text@.len() as int) =~= lower_text(text@));
    lower
}

/// `text` with small ASCII letters made capital.
pub fn to_upper(text: &str) -> (upper: String)
    ensures
        upper@ == upper_text(text@),
{
    let chars = chars_of(text);
    let mut upper: String = String::new();
    let mut index: usize = 0;
    while index < chars.len()
        invariant
            index <= chars.len(),
            chars@ == text@,
            upper@ == upper_text(text@).take(index as int),
        decreases chars.len() - index,
    {
        let character: char = chars[index];
        if 'a' <= character && character <= 'z' {
            upper.push((character as u8 - 32) as char);
        } else {
            upper.push(character);
        }
        index += 1;
        assert(upper@ =~= upper_text(text@).take(index as int));
    }
    assert(upper_text(text@).take(text@.len() as int) =~= upper_text(text@));
    upper
}

/// Two numbers with the same digits are the same.
pub proof fn lemma_decimal_injective(left: nat, right: nat)
    requires
        decimal_text(left) == decimal_text(right),
    ensures
        left == right,
    decreases left + right,
{
    lemma_decimal_len(left);
    lemma_decimal_len(right);
    let a = decimal_text(left);
    let b = decimal_text(right);
    assert(a.last() == b.last());
    if left < 10 && right < 10 {
    } else if left >= 10 && right >= 10 {
        assert(a.drop_last() =~= decimal_text(left / 10));
        assert(b.drop_last() =~= decimal_text(right / 10));
        lemma_decimal_injective(left / 10, right / 10);
    } else if left >= 10 {
        lemma_decimal_len(left / 10);
        assert(a.len() >= 2);
        assert(b.len() == 1);
    } else {
        lemma_decimal_len(right / 10);
        assert(b.len() >= 2);
        assert(a.len() == 1);
    }
}

proof fn lemma_decimal_len(value: nat)
    ensures
        decimal_text(value).len() >= 1,
    decreases value,
{
    if value >= 10 {
        lemma_decimal_len(value / 10);
    }
}

/// `text` without its last `tail.len()` characters, where it ends with `tail`.
pub fn strip_suffix(text: &str, tail: &str) -> (rest: Option<String>)
    ensures
        match rest {
            Some(head) => ends_with_text(text@, tail@) && head@ == text@.take(
                text@.len() - tail@.len(),
            ),
            None => !ends_with_text(text@, tail@),
        },
{
    if !ends_with(text, tail) {
        return None;
    }
    let chars = chars_of(text);
    let cut: usize = chars.len() - chars_of(tail).len();
    let mut head: String = String::new();
    let mut index: usize = 0;
    while index < cut
        invariant
            index <= cut <= chars.len(),
            chars@ == text@,
            head@ == text@.take(index as int),
        decreases cut - index,
    {
        head.push(chars[index]);
        index += 1;
        assert(head@ =~= text@.take(index as int));
    }
    Some(head)
}

/// How many characters at the start of `text` are white space.
pub open spec fn leading_space(text: Seq<char>) -> nat
    decreases text.len(),
{
    if text.len() == 0 || !is_white_space(text[0]) {
        0
    } else {
        1 + leading_space(text.drop_first())
    }
}

/// `text` without the white space at its end.
pub open spec fn trimmed_end(text: Seq<char>) -> Seq<char>
    decreases text.len(),
{
    if text.len() == 0 || !is_white_space(text.last()) {
        text
    } else {
        trimmed_end(text.drop_last())
    }
}

/// `text` without the white space at its start and its end.
pub open spec fn trimmed(text: Seq<char>) -> Seq<char> {
    trimmed_end(text.skip(leading_space(text) as int))
}

/// `text` without the white space at its start and its end.
pub fn trim(text: &str) -> (rest: String)
    ensures
        rest@ == trimmed(text@),
{
    let chars = chars_of(text);
    let mut from: usize = 0;
    assert(chars@.skip(0) =~= text@);
    while from < chars.len() && is_space(chars[from])
        invariant
            from <= chars.len(),
            chars@ == text@,
            leading_space(text@) == from + leading_space(chars@.skip(from as int)),
        decreases chars.len() - from,
    {
        assert(chars@.skip(from as int).drop_first() =~= chars@.skip(from + 1));
        from += 1;
    }
    assert(leading_space(text@) == from);
    let ghost tail = text@.skip(from as int);
    let mut to: usize = chars.len();
    assert(text@.subrange(from as int, to as int) =~= tail);
    while to > from && is_space(chars[to - 1])
        invariant
            from <= to <= chars.len(),
            chars@ == text@,
            trimmed_end(tail) == trimmed_end(text@.subrange(from as int, to as int)),
        decreases to,
    {
        assert(text@.subrange(from as int, to as int).drop_last() =~= text@.subrange(
            from as int,
            to - 1,
        ));
        to -= 1;
    }
    assert(trimmed_end(tail) == text@.subrange(from as int, to as int));
    let mut rest: String = String::new();
    let mut index: usize = from;
    while index < to
        invariant
            from <= index <= to <= chars.len(),
            chars@ == text@,
            rest@ == text@.subrange(from as int, index as int),
        decreases to - index,
    {
        rest.push(chars[index]);
        index += 1;
        assert(rest@ =~= text@.subrange(from as int, index as int));
    }
    rest
}

} // verus!
