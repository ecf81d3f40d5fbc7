//! Characters, strings and lower-case hexadecimal.

use vstd::prelude::*;

use crate::bytes::same_bytes;

verus! {

/// `String::push` appends one character.
pub assume_specification[ String::push ](s: &mut String, c: char)
    ensures
        final(s)@ == old(s)@.push(c),
;

/// Whether a character is white space in the sense of Unicode.
pub open spec fn is_white_space(c: char) -> bool {
    let code = c as u32;
    ||| 0x09 <= code <= 0x0d
    ||| code == 0x20 || code == 0x85 || code == 0xa0 || code == 0x1680
    ||| 0x2000 <= code <= 0x200a
    ||| code == 0x2028 || code == 0x2029 || code == 0x202f || code == 0x205f || code == 0x3000
}

/// Where the white space at the beginning of a text ends.
pub open spec fn lead_end(text: Seq<char>) -> nat
    decreases text.len(),
{
    if text.len() > 0 && is_white_space(text[0]) {
        1 + lead_end(text.skip(1))
    } else {
        0
    }
}

/// Where the white space at the end of a text starts.
pub open spec fn tail_start(text: Seq<char>) -> nat
    decreases text.len(),
{
    if text.len() > 0 && is_white_space(text.last()) {
        tail_start(text.drop_last())
    } else {
        text.len()
    }
}

/// A text without the white space at its beginning and end.
pub open spec fn trimmed(text: Seq<char>) -> Seq<char> {
    let front = text.take(tail_start(text) as int);
    front.skip(lead_end(front) as int)
}

/// Whether a character is white space in the sense of Unicode.
pub fn white_space(c: char) -> (white: bool)
    ensures
        white == is_white_space(c),
{
    let code: u32 = c as u32;
    (0x09 <= code && code <= 0x0d) || code == 0x20 || code == 0x85 || code == 0xa0 || code == 0x1680
        || (0x2000 <= code && code <= 0x200a) || code == 0x2028 || code == 0x2029 || code == 0x202f
        || code == 0x205f || code == 0x3000
}

/// A text without the white space at its beginning and end.
pub fn trim_text(text: &str) -> (out: String)
    ensures
        out@ == trimmed(text@),
{
    let chars = chars_of(text);
    let mut end: usize = chars.len();
    assert(chars@.take(end as int) =~= chars@);
    while end > 0 && white_space(chars[end - 1])
        invariant
            end <= chars@.len(),
            tail_start(chars@) == tail_start(chars@.take(end as int)),
        decreases end,
    {
        assert(chars@.take(end as int).last() == chars@[end - 1]);
        assert(chars@.take(end as int).drop_last() =~= chars@.take(end - 1));
        end -= 1;
    }
    proof {
        let rest = chars@.take(end as int);
        if end > 0 {
            assert(rest.last() == chars@[end - 1]);
        }
        assert(tail_start(chars@) == end);
    }
    let ghost front = chars@.take(end as int);
    let mut start: usize = 0;
    assert(front.skip(0) =~= front);
    while start < end && white_space(chars[start])
        invariant
            start <= end <= chars@.len(),
            front == chars@.take(end as int),
            lead_end(front) == start + lead_end(front.skip(start as int)),
        decreases end - start,
    {
        assert(front.skip(start as int)[0] == chars@[start as int]);
        assert(front.skip(start as int).skip(1) =~= front.skip(start + 1));
        start += 1;
    }
    proof {
        if start < end {
            assert(front.skip(start as int)[0] == chars@[start as int]);
        }
        assert(lead_end(front) == start);
        assert(chars@.subrange(start as int, end as int) =~= front.skip(start as int));
    }
    string_of(vstd::slice::slice_subrange(chars.as_slice(), start, end))
}

/// A character with an ASCII upper-case letter lowered.
pub open spec fn ascii_lower(c: char) -> char {
    if 'A' <= c <= 'Z' {
        ((c as int) + 32) as char
    } else {
        c
    }
}

/// A character with an ASCII upper-case letter lowered.
pub fn lower_ascii(c: char) -> (lowered: char)
    ensures
        lowered == ascii_lower(c),
{
    if 'A' <= c && c <= 'Z' {
        (c as u8 + 32) as char
    } else {
        c
    }
}

/// Whether `text` is `lower` up to ASCII case.
pub open spec fn is_ascii_case_of(text: Seq<char>, lower: Seq<char>) -> bool {
    &&& text.len() == lower.len()
    &&& forall|i: int| 0 <= i < text.len() ==> ascii_lower(#[trigger] text[i]) == lower[i]
}

/// Whether `text` is `lower` up to ASCII case.
pub fn same_ascii_case(text: &str, lower: &str) -> (same: bool)
    ensures
        same == is_ascii_case_of(text@, lower@),
{
    let a = chars_of(text);
    let b = chars_of(lower);
    if a.len() != b.len() {
        return false;
    }
    let mut index: usize = 0;
    while index < a.len()
        invariant
            index <= a@.len(),
            a@ == text@,
            b@ == lower@,
            a@.len() == b@.len(),
            forall|i: int| 0 <= i < index ==> ascii_lower(#[trigger] a@[i]) == b@[i],
        decreases a@.len() - index,
    {
        if lower_ascii(a[index]) != b[index] {
            assert(ascii_lower(text@[index as int]) != lower@[index as int]);
            return false;
        }
        index += 1;
    }
    true
}

/// The characters of a string.
pub fn chars_of(text: &str) -> (out: Vec<char>)
    ensures
        out@ == text@,
{
    let mut out: Vec<char> = Vec::new();
    for c in iter: text.chars()
        invariant
            out@ == iter.seq().take(iter.index()),
    {
        out.push(c);
        assert(iter.seq().take(iter.index() + 1) =~= iter.seq().take(iter.index()).push(c));
    }
    assert(out@ =~= text@);
    out
}

/// The string of some characters.
pub fn string_of(chars: &[char]) -> (out: String)
    ensures
        out@ == chars@,
{
    let mut out = String::new();
    let mut index: usize = 0;
    while index < chars.len()
        invariant
            index <= chars@.len(),
            out@ == chars@.take(index as int),
        decreases chars@.len() - index,
    {
        out.push(chars[index]);
        index += 1;
        assert(out@ =~= chars@.take(index as int));
    }
    assert(chars@.take(index as int) =~= chars@);
    out
}

/// Two texts with the same UTF-8 bytes are the same text.
pub proof fn lemma_utf8_injective(a: Seq<char>, b: Seq<char>)
    requires
        vstd::utf8::encode_utf8(a) == vstd::utf8::encode_utf8(b),
    ensures
        a == b,
{
    vstd::utf8::encode_utf8_decode_utf8(a);
    vstd::utf8::encode_utf8_decode_utf8(b);
}

/// Whether two texts are the same.
pub fn same_text(a: &str, b: &str) -> (same: bool)
    ensures
        same == (a@ == b@),
{
    let same = same_bytes(a.as_bytes(), b.as_bytes());
    proof {
        if same {
            lemma_utf8_injective(a@, b@);
        }
    }
    same
}

/// The sixteen lower-case hexadecimal digits.
pub open spec fn hex_digits() -> Seq<char> {
    seq!['0', '1', '2', '3', '4', '5', '6', '7', '8', '9', 'a', 'b', 'c', 'd', 'e', 'f']
}

/// Whether a character is a lower-case hexadecimal digit.
pub open spec fn is_hex_digit(c: char) -> bool {
    '0' <= c <= '9' || 'a' <= c <= 'f'
}

/// The value of a lower-case hexadecimal digit.
pub open spec fn hex_digit_value(c: char) -> nat {
    if '0' <= c <= '9' {
        (c as int - '0' as int) as nat
    } else {
        (c as int - 'a' as int + 10) as nat
    }
}

/// The lower-case hexadecimal digits of `bytes`, two for each byte.
pub open spec fn hex_text(bytes: Seq<u8>) -> Seq<char> {
    Seq::new(
        2 * bytes.len(),
        |i: int|
            if i % 2 == 0 {
                hex_digits()[bytes[i / 2] as int / 16]
            } else {
                hex_digits()[bytes[i / 2] as int % 16]
            },
    )
}

/// Whether `text` consists of `length` lower-case hexadecimal digits.
pub open spec fn is_hex_text(text: Seq<char>, length: nat) -> bool {
    &&& text.len() == length
    &&& forall|i: int| 0 <= i < text.len() ==> is_hex_digit(#[trigger] text[i])
}

/// The bytes that an even number of hexadecimal digits writes.
pub open spec fn hex_bytes(text: Seq<char>) -> Seq<u8> {
    Seq::new(
        text.len() / 2,
        |i: int| (hex_digit_value(text[2 * i]) * 16 + hex_digit_value(text[2 * i + 1])) as u8,
    )
}

/// Every digit of the table is a hexadecimal digit with its index as value.
pub proof fn lemma_hex_digit(d: int)
    requires
        0 <= d < 16,
    ensures
        is_hex_digit(hex_digits()[d]),
        hex_digit_value(hex_digits()[d]) == d,
{
}

/// Hexadecimal text is made of lower-case hexadecimal digits and reads back as its bytes.
pub proof fn lemma_hex_round_trip(bytes: Seq<u8>)
    ensures
        is_hex_text(hex_text(bytes), 2 * bytes.len()),
        hex_bytes(hex_text(bytes)) == bytes,
{
    let text = hex_text(bytes);
    assert forall|i: int| 0 <= i < text.len() implies is_hex_digit(#[trigger] text[i]) by {
        lemma_hex_digit(bytes[i / 2] as int / 16);
        lemma_hex_digit(bytes[i / 2] as int % 16);
    }
    assert forall|i: int| 0 <= i < bytes.len() implies #[trigger] hex_bytes(text)[i]
        == bytes[i] by {
        lemma_hex_digit(bytes[i] as int / 16);
        lemma_hex_digit(bytes[i] as int % 16);
        assert((2 * i) / 2 == i && (2 * i + 1) / 2 == i);
    }
    assert(hex_bytes(text) =~= bytes);
}

/// Hexadecimal text of distinct bytes is distinct.
pub proof fn lemma_hex_injective(a: Seq<u8>, b: Seq<u8>)
    requires
        hex_text(a) == hex_text(b),
    ensures
        a == b,
{
    lemma_hex_round_trip(a);
    lemma_hex_round_trip(b);
}

/// The hexadecimal digit of a value below sixteen.
pub fn hex_digit(value: u8) -> (c: char)
    requires
        value < 16,
    ensures
        c == hex_digits()[value as int],
{
    match value {
        0 => '0',
        1 => '1',
        2 => '2',
        3 => '3',
        4 => '4',
        5 => '5',
        6 => '6',
        7 => '7',
        8 => '8',
        9 => '9',
        10 => 'a',
        11 => 'b',
        12 => 'c',
        13 => 'd',
        14 => 'e',
        _ => 'f',
    }
}

/// Appends the hexadecimal digits of `bytes`.
pub fn push_hex(out: &mut String, bytes: &[u8])
    requires
        bytes@.len() <= usize::MAX / 2,
    ensures
        final(out)@ == old(out)@ + hex_text(bytes@),
{
    let mut index: usize = 0;
    while index < bytes.len()
        invariant
            index <= bytes@.len() <= usize::MAX / 2,
            out@ == old(out)@ + hex_text(bytes@).take(2 * index as int),
        decreases bytes@.len() - index,
    {
        let ghost before = out@;
        let byte = bytes[index];
        out.push(hex_digit(byte / 16));
        out.push(hex_digit(byte % 16));
        proof {
            let text = hex_text(bytes@);
            let at = 2 * index as int;
            assert(at / 2 == index && (at + 1) / 2 == index);
            assert(text.take(at + 2) =~= text.take(at).push(text[at]).push(text[at + 1]));
            assert(out@ =~= old(out)@ + text.take(at + 2));
        }
        index += 1;
    }
    assert(hex_text(bytes@).take(2 * index as int) =~= hex_text(bytes@));
}

/// Whether `text` consists of `length` lower-case hexadecimal digits.
pub fn check_hex_text(text: &[char], length: usize) -> (ok: bool)
    ensures
        ok == is_hex_text(text@, length as nat),
{
    if text.len() != length {
        return false;
    }
    let mut index: usize = 0;
    while index < text.len()
        invariant
            index <= text@.len(),
            text@.len() == length,
            forall|i: int| 0 <= i < index ==> is_hex_digit(#[trigger] text@[i]),
        decreases text@.len() - index,
    {
        let c = text[index];
        if !(('0' <= c && c <= '9') || ('a' <= c && c <= 'f')) {
            assert(!is_hex_digit(text@[index as int]));
            return false;
        }
        index += 1;
    }
    true
}

} // verus!
