//! How numbers, digests, identities and names are written.

use vstd::prelude::*;

use crate::bytes::{
    be_bytes, be_value, lemma_be_bytes_len, lemma_be_round_trip, lemma_pow256_widths, pow256,
};
use crate::claim::{derivation_input, directory_identity_input, marked_uuid_bytes};
use crate::ids::{
    hyphenated_text, lemma_simple_text, simple_text, ProjectionIntentId, ProjectionReceiptStoreId,
    Uuid,
};
use crate::manifest_check::{document_bytes, parts_preimage};
use crate::messages::decimal_text;
use crate::names::{attempt_name, attempt_of, names_temp, temp_name};
use crate::text::{hex_bytes, hex_text};

verus! {

/// Numbers are written with their highest byte first.
pub proof fn law_numbers_are_written_highest_byte_first(value: nat, n: nat, i: int)
    requires
        0 <= i < n,
    ensures
        be_bytes(value, n).len() == n,
        be_bytes(value, n)[i] == (value / pow256((n - 1 - i) as nat)) % 256,
    decreases n,
{
    lemma_be_bytes_len(value, n);
    lemma_be_bytes_len(value / 256, (n - 1) as nat);
    if i < n - 1 {
        law_numbers_are_written_highest_byte_first(value / 256, (n - 1) as nat, i);
        let rest = pow256((n - 2 - i) as nat);
        lemma_pow256_positive((n - 2 - i) as nat);
        vstd::arithmetic::div_mod::lemma_div_denominator(value as int, 256, rest as int);
        assert(pow256((n - 1 - i) as nat) == 256 * rest);
        assert(be_bytes(value, n)[i] == be_bytes(value / 256, (n - 1) as nat)[i]);
    } else {
        assert(pow256(0) == 1);
        assert(value / 1 == value);
        assert(be_bytes(value, n)[i] == (value % 256) as u8);
    }
}

/// A power is positive.
proof fn lemma_pow256_positive(n: nat)
    ensures
        pow256(n) > 0,
    decreases n,
{
    if n > 0 {
        lemma_pow256_positive((n - 1) as nat);
    }
}

/// Whether a character is the hexadecimal digit of a number below sixteen.
pub open spec fn is_digit_of(c: char, value: int) -> bool {
    if value < 10 {
        c as int == '0' as int + value
    } else {
        c as int == 'a' as int + (value - 10)
    }
}

/// Bytes are written as two small hexadecimal digits each, the higher half first.
pub proof fn law_bytes_are_written_as_two_digits(bytes: Seq<u8>, i: int)
    requires
        0 <= i < bytes.len(),
    ensures
        hex_text(bytes).len() == 2 * bytes.len(),
        is_digit_of(hex_text(bytes)[2 * i], bytes[i] as int / 16),
        is_digit_of(hex_text(bytes)[2 * i + 1], bytes[i] as int % 16),
{
    let text = hex_text(bytes);
    assert((2 * i) / 2 == i && (2 * i) % 2 == 0);
    assert((2 * i + 1) / 2 == i && (2 * i + 1) % 2 == 1);
    lemma_digit(bytes[i] as int / 16);
    lemma_digit(bytes[i] as int % 16);
}

/// Each digit is the one of its value.
proof fn lemma_digit(value: int)
    requires
        0 <= value < 16,
    ensures
        is_digit_of(crate::text::hex_digits()[value], value),
{
}

/// An identity is written in five groups of eight, four, four, four and twelve digits, with a hyphen
/// between them; the digits alone are those of its number, and read back as it.
pub proof fn law_identity_is_written_in_five_groups(value: u128)
    ensures
        ({
            let text = hyphenated_text(value);
            let digits = simple_text(value);
            &&& text.len() == 36
            &&& text[8] == '-' && text[13] == '-' && text[18] == '-' && text[23] == '-'
            &&& digits.len() == 32
            &&& be_value(hex_bytes(digits)) == value
            &&& digits == text.subrange(0, 8) + text.subrange(9, 13) + text.subrange(14, 18)
                + text.subrange(19, 23) + text.subrange(24, 36)
        }),
{
    lemma_simple_text(value);
    let text = hyphenated_text(value);
    let digits = simple_text(value);
    assert(text.subrange(0, 8) =~= digits.subrange(0, 8));
    assert(text.subrange(9, 13) =~= digits.subrange(8, 12));
    assert(text.subrange(14, 18) =~= digits.subrange(12, 16));
    assert(text.subrange(19, 23) =~= digits.subrange(16, 20));
    assert(text.subrange(24, 36) =~= digits.subrange(20, 32));
    assert(digits =~= text.subrange(0, 8) + text.subrange(9, 13) + text.subrange(14, 18)
        + text.subrange(19, 23) + text.subrange(24, 36));
}

/// A name stands for an attempt only where it is the thirty-two digits of its identifier and
/// `.attempt`.
pub proof fn law_attempts_are_named_by_their_digits(name: Seq<char>, attempt_id: Uuid)
    ensures
        attempt_of(name) == Some(attempt_id) <==> name == simple_text(attempt_id.value)
            + ".attempt"@,
{
    if attempt_of(name) is Some {
        let read = choose|id: Uuid| name == #[trigger] attempt_name(id);
        assert(name == attempt_name(read));
    }
    if name == simple_text(attempt_id.value) + ".attempt"@ {
        assert(name == attempt_name(attempt_id));
        crate::names::law_attempt_name_reads_back(attempt_id);
    }
}

/// A name is that of an unfinished file only where it starts with `.tmp-` and goes on with a written
/// identity.
pub proof fn law_unfinished_files_are_named_by_an_identity(name: Seq<char>)
    ensures
        names_temp(name) <==> exists|value: u128|
            name == ".tmp-"@ + #[trigger] hyphenated_text(value),
{
    if names_temp(name) {
        let value = choose|value: u128| name == #[trigger] temp_name(value);
        assert(name == ".tmp-"@ + hyphenated_text(value));
    }
    if exists|value: u128| name == ".tmp-"@ + #[trigger] hyphenated_text(value) {
        let value = choose|value: u128| name == ".tmp-"@ + #[trigger] hyphenated_text(value);
        assert(name == temp_name(value));
    }
}

/// A derived identity is the first sixteen bytes of its digest with the version and the variant of
/// an application's own identities put in: every other bit is the digest's.
pub proof fn law_derived_identities_are_marked(digest: Seq<u8>, i: int)
    requires
        digest.len() >= 16,
        0 <= i < 16,
    ensures
        marked_uuid_bytes(digest).len() == 16,
        i != 6 && i != 8 ==> marked_uuid_bytes(digest)[i] == digest[i],
        marked_uuid_bytes(digest)[6] / 16 == 8,
        marked_uuid_bytes(digest)[6] % 16 == digest[6] % 16,
        marked_uuid_bytes(digest)[8] / 64 == 2,
        marked_uuid_bytes(digest)[8] % 64 == digest[8] % 64,
        document_bytes(digest) == marked_uuid_bytes(digest),
{
    let (six, eight) = (digest[6], digest[8]);
    assert(((six & 0x0f) | 0x80) / 16 == 8 && ((six & 0x0f) | 0x80) % 16 == six % 16)
        by (bit_vector);
    assert(((eight & 0x3f) | 0x80) / 64 == 2 && ((eight & 0x3f) | 0x80) % 64 == eight % 64)
        by (bit_vector);
}

/// What an identity is derived from tells stores and intents apart, under one domain.
pub proof fn law_derivations_tell_intents_apart(
    domain: Seq<char>,
    store_id: ProjectionReceiptStoreId,
    intent_id: ProjectionIntentId,
    other_store_id: ProjectionReceiptStoreId,
    other_intent_id: ProjectionIntentId,
)
    requires
        derivation_input(domain, store_id, intent_id) == derivation_input(
            domain,
            other_store_id,
            other_intent_id,
        ),
    ensures
        store_id == other_store_id,
        intent_id == other_intent_id,
{
    store_id.digest.lemma_bytes();
    intent_id.digest.lemma_bytes();
    other_store_id.digest.lemma_bytes();
    other_intent_id.digest.lemma_bytes();
    let head = vstd::utf8::encode_utf8(domain).push(0u8);
    let one = derivation_input(domain, store_id, intent_id);
    let other = derivation_input(domain, other_store_id, other_intent_id);
    let at = head.len() as int;
    assert(one.subrange(at, at + 32) =~= store_id.digest.spec_bytes());
    assert(other.subrange(at, at + 32) =~= other_store_id.digest.spec_bytes());
    assert(one.subrange(at + 32, at + 64) =~= intent_id.digest.spec_bytes());
    assert(other.subrange(at + 32, at + 64) =~= other_intent_id.digest.spec_bytes());
}

/// What the identity of a directory is derived from tells volumes and files apart, under one domain.
pub proof fn law_directories_are_told_apart(
    domain: Seq<char>,
    volume: u64,
    file: Seq<u8>,
    other_volume: u64,
    other_file: Seq<u8>,
)
    requires
        directory_identity_input(domain, volume, file) == directory_identity_input(
            domain,
            other_volume,
            other_file,
        ),
    ensures
        volume == other_volume,
        file == other_file,
{
    let head = vstd::utf8::encode_utf8(domain).push(0u8);
    let one = directory_identity_input(domain, volume, file);
    let other = directory_identity_input(domain, other_volume, other_file);
    let at = head.len() as int;
    lemma_be_bytes_len(volume as nat, 8);
    lemma_be_bytes_len(other_volume as nat, 8);
    assert(one.subrange(at, at + 8) =~= be_bytes(volume as nat, 8));
    assert(other.subrange(at, at + 8) =~= be_bytes(other_volume as nat, 8));
    assert(one.skip(at + 8) =~= file);
    assert(other.skip(at + 8) =~= other_file);
    lemma_pow256_widths();
    lemma_be_round_trip(volume as nat, 8);
    lemma_be_round_trip(other_volume as nat, 8);
}

/// The number that decimal digits write.
pub open spec fn decimal_value(digits: Seq<char>) -> int
    decreases digits.len(),
{
    if digits.len() == 0 {
        0
    } else {
        decimal_value(digits.drop_last()) * 10 + (digits.last() as int - '0' as int)
    }
}

/// A number is written in decimal digits that read back as it, without a zero in front.
pub proof fn law_numbers_are_written_in_decimal(value: nat)
    ensures
        decimal_value(decimal_text(value)) == value,
        forall|i: int|
            0 <= i < decimal_text(value).len() ==> '0' <= #[trigger] decimal_text(value)[i] <= '9',
        decimal_text(value).len() > 0,
        value > 0 ==> decimal_text(value)[0] != '0',
    decreases value,
{
    if value >= 10 {
        law_numbers_are_written_in_decimal(value / 10);
        assert(decimal_text(value).drop_last() =~= decimal_text(value / 10));
    } else {
        assert(decimal_text(value).drop_last() =~= Seq::empty());
        reveal_with_fuel(decimal_value, 2);
    }
}

/// The first part of several stands in front of the others.
proof fn lemma_first_part(parts: Seq<Seq<u8>>)
    requires
        parts.len() > 0,
    ensures
        parts_preimage(parts) == be_bytes(parts[0].len(), 8) + parts[0] + parts_preimage(
            parts.skip(1),
        ),
    decreases parts.len(),
{
    let front = parts.drop_last();
    let rest = parts.skip(1);
    let last = be_bytes(parts.last().len(), 8) + parts.last();
    if parts.len() == 1 {
        assert(front =~= Seq::empty());
        assert(rest =~= Seq::empty());
        assert(parts_preimage(front) =~= Seq::<u8>::empty());
        assert(parts_preimage(rest) =~= Seq::<u8>::empty());
        assert(parts_preimage(parts) =~= be_bytes(parts[0].len(), 8) + parts[0]
            + parts_preimage(rest));
    } else {
        lemma_first_part(front);
        assert(rest.drop_last() =~= front.skip(1));
        assert(rest.last() == parts.last());
        assert(front[0] == parts[0]);
        assert(parts_preimage(parts) =~= parts_preimage(front) + last);
        assert(parts_preimage(rest) =~= parts_preimage(front.skip(1)) + last);
        assert(parts_preimage(parts) =~= be_bytes(parts[0].len(), 8) + parts[0]
            + parts_preimage(rest));
    }
}

/// What a document's identity is derived from tells its parts apart: as many parts come to the same
/// bytes only where each is the same.
pub proof fn law_parts_are_told_apart(one: Seq<Seq<u8>>, other: Seq<Seq<u8>>)
    requires
        one.len() == other.len(),
        parts_preimage(one) == parts_preimage(other),
        forall|k: int| 0 <= k < one.len() ==> (#[trigger] one[k]).len() <= u64::MAX,
        forall|k: int| 0 <= k < other.len() ==> (#[trigger] other[k]).len() <= u64::MAX,
    ensures
        one == other,
    decreases one.len(),
{
    if one.len() > 0 {
        let (a, b) = (one[0], other[0]);
        let (x, y) = (parts_preimage(one), parts_preimage(other));
        lemma_first_part(one);
        lemma_first_part(other);
        lemma_be_bytes_len(a.len(), 8);
        lemma_be_bytes_len(b.len(), 8);
        lemma_pow256_widths();
        lemma_be_round_trip(a.len(), 8);
        lemma_be_round_trip(b.len(), 8);
        assert(x.take(8) =~= be_bytes(a.len(), 8));
        assert(y.take(8) =~= be_bytes(b.len(), 8));
        let end = 8 + a.len();
        assert(x.subrange(8, end as int) =~= a);
        assert(y.subrange(8, end as int) =~= b);
        assert(x.skip(end as int) =~= parts_preimage(one.skip(1)));
        assert(y.skip(end as int) =~= parts_preimage(other.skip(1)));
        law_parts_are_told_apart(one.skip(1), other.skip(1));
        assert forall|k: int| 0 <= k < one.len() implies one[k] == other[k] by {
            if k > 0 {
                assert(one.skip(1)[k - 1] == other.skip(1)[k - 1]);
            }
        }
        assert(one =~= other);
    } else {
        assert(one =~= other);
    }
}

} // verus!
