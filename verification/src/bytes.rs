//! Big-endian integers and byte comparison.

use vstd::prelude::*;

verus! {

/// `256` raised to `n`.
pub open spec fn pow256(n: nat) -> nat
    decreases n,
{
    if n == 0 {
        1
    } else {
        256 * pow256((n - 1) as nat)
    }
}

/// The `n` least significant bytes of `value`, most significant first.
pub open spec fn be_bytes(value: nat, n: nat) -> Seq<u8>
    decreases n,
{
    if n == 0 {
        Seq::empty()
    } else {
        be_bytes(value / 256, (n - 1) as nat).push((value % 256) as u8)
    }
}

/// The number that `bytes` writes, most significant byte first.
pub open spec fn be_value(bytes: Seq<u8>) -> nat
    decreases bytes.len(),
{
    if bytes.len() == 0 {
        0
    } else {
        be_value(bytes.drop_last()) * 256 + bytes.last() as nat
    }
}

/// `be_bytes` writes exactly `n` bytes.
pub proof fn lemma_be_bytes_len(value: nat, n: nat)
    ensures
        be_bytes(value, n).len() == n,
    decreases n,
{
    if n > 0 {
        lemma_be_bytes_len(value / 256, (n - 1) as nat);
    }
}

/// A number of `n` bytes is below `256` raised to `n`.
pub proof fn lemma_be_value_bound(bytes: Seq<u8>)
    ensures
        be_value(bytes) < pow256(bytes.len()),
    decreases bytes.len(),
{
    if bytes.len() > 0 {
        lemma_be_value_bound(bytes.drop_last());
        let head = be_value(bytes.drop_last());
        let limit = pow256((bytes.len() - 1) as nat);
        assert(head * 256 + 256 <= 256 * limit) by (nonlinear_arith)
            requires
                head < limit,
        ;
    }
}

/// Reading back what was written gives the number, where it fits.
pub proof fn lemma_be_round_trip(value: nat, n: nat)
    requires
        value < pow256(n),
    ensures
        be_value(be_bytes(value, n)) == value,
    decreases n,
{
    if n > 0 {
        let rest = (n - 1) as nat;
        assert(value / 256 < pow256(rest)) by (nonlinear_arith)
            requires
                value < 256 * pow256(rest),
        ;
        lemma_be_round_trip(value / 256, rest);
        let bytes = be_bytes(value, n);
        assert(bytes.drop_last() =~= be_bytes(value / 256, rest));
    }
}

/// Writing back what was read gives the bytes.
pub proof fn lemma_be_write_back(bytes: Seq<u8>)
    ensures
        be_bytes(be_value(bytes), bytes.len()) =~= bytes,
    decreases bytes.len(),
{
    if bytes.len() > 0 {
        lemma_be_write_back(bytes.drop_last());
        let value = be_value(bytes);
        assert(value / 256 == be_value(bytes.drop_last()));
        assert(value % 256 == bytes.last() as nat);
        assert(bytes =~= bytes.drop_last().push(bytes.last()));
    }
}

/// Powers of `256` grow.
pub proof fn lemma_pow256_monotonic(a: nat, b: nat)
    requires
        a <= b,
    ensures
        pow256(a) <= pow256(b),
    decreases b,
{
    if a < b {
        lemma_pow256_monotonic(a, (b - 1) as nat);
    }
}

/// The limits of the fixed-width integers as powers of `256`.
pub proof fn lemma_pow256_widths()
    ensures
        pow256(4) == 0x1_0000_0000,
        pow256(8) == 0x1_0000_0000_0000_0000,
        pow256(16) == 0x1_0000_0000_0000_0000_0000_0000_0000_0000,
{
    reveal_with_fuel(pow256, 17);
}

/// Appends the `n` least significant bytes of `value`, most significant first.
pub fn push_be(out: &mut Vec<u8>, value: u128, n: usize)
    ensures
        final(out)@ == old(out)@ + be_bytes(value as nat, n as nat),
    decreases n,
{
    if n > 0 {
        push_be(out, value / 256, n - 1);
        out.push((value % 256) as u8);
        assert(out@ =~= old(out)@ + be_bytes(value as nat, n as nat));
    } else {
        assert(out@ =~= old(out)@ + be_bytes(value as nat, n as nat));
    }
}

/// Reads at most sixteen bytes as one number, most significant byte first.
pub fn read_be(bytes: &[u8]) -> (value: u128)
    requires
        bytes@.len() <= 16,
    ensures
        value == be_value(bytes@),
{
    let mut value: u128 = 0;
    let mut index: usize = 0;
    while index < bytes.len()
        invariant
            index <= bytes@.len() <= 16,
            value == be_value(bytes@.take(index as int)),
        decreases bytes@.len() - index,
    {
        proof {
            let grown = bytes@.take(index + 1);
            lemma_be_value_bound(grown);
            lemma_pow256_monotonic(grown.len(), 16);
            lemma_pow256_widths();
            assert(grown.drop_last() =~= bytes@.take(index as int));
        }
        value = value * 256 + bytes[index] as u128;
        index += 1;
    }
    assert(bytes@.take(index as int) =~= bytes@);
    value
}

/// Whether two byte strings are the same.
pub fn same_bytes(a: &[u8], b: &[u8]) -> (same: bool)
    ensures
        same == (a@ == b@),
{
    if a.len() != b.len() {
        return false;
    }
    let mut index: usize = 0;
    while index < a.len()
        invariant
            index <= a@.len(),
            a@.len() == b@.len(),
            a@.take(index as int) == b@.take(index as int),
        decreases a@.len() - index,
    {
        if a[index] != b[index] {
            return false;
        }
        assert(a@.take(index + 1) =~= a@.take(index as int).push(a@[index as int]));
        assert(b@.take(index + 1) =~= b@.take(index as int).push(b@[index as int]));
        index += 1;
    }
    assert(a@.take(index as int) =~= a@);
    assert(b@.take(index as int) =~= b@);
    true
}

/// Appends `tail` to `out`.
pub fn push_bytes(out: &mut Vec<u8>, tail: &[u8])
    ensures
        final(out)@ == old(out)@ + tail@,
{
    let mut index: usize = 0;
    while index < tail.len()
        invariant
            index <= tail@.len(),
            out@ == old(out)@ + tail@.take(index as int),
        decreases tail@.len() - index,
    {
        out.push(tail[index]);
        index += 1;
        assert(tail@.take(index as int) =~= tail@.take(index - 1).push(tail@[index - 1]));
        assert(out@ =~= old(out)@ + tail@.take(index as int));
    }
    assert(tail@.take(index as int) =~= tail@);
}

/// A copy of the bytes from `from` up to `to`.
pub fn copy_range(bytes: &[u8], from: usize, to: usize) -> (out: Vec<u8>)
    requires
        from <= to <= bytes@.len(),
    ensures
        out@ == bytes@.subrange(from as int, to as int),
{
    let mut out: Vec<u8> = Vec::new();
    let mut index: usize = from;
    while index < to
        invariant
            from <= index <= to <= bytes@.len(),
            out@ == bytes@.subrange(from as int, index as int),
        decreases to - index,
    {
        out.push(bytes[index]);
        index += 1;
        assert(out@ =~= bytes@.subrange(from as int, index as int));
    }
    out
}

/// A copy of all the bytes.
pub fn copy_bytes(bytes: &[u8]) -> (out: Vec<u8>)
    ensures
        out@ == bytes@,
{
    let out = copy_range(bytes, 0, bytes.len());
    assert(bytes@.subrange(0, bytes@.len() as int) =~= bytes@);
    out
}

} // verus!
