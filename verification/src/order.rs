//! Lexicographic orders.

use vstd::prelude::*;

verus! {

/// Whether `a` and `b` agree on their first `k` elements and `a` comes first at `k`: it ends
/// there, or its element is the smaller one.
pub open spec fn words_differ_at(a: Seq<u32>, b: Seq<u32>, k: int) -> bool {
    &&& 0 <= k <= a.len()
    &&& k < b.len()
    &&& forall|j: int| 0 <= j < k ==> #[trigger] a[j] == b[j]
    &&& k == a.len() || a[k] < b[k]
}

/// Whether `a` comes before `b` in lexicographic order.
pub open spec fn words_before(a: Seq<u32>, b: Seq<u32>) -> bool {
    exists|k: int| words_differ_at(a, b, k)
}

/// Lexicographic order is transitive.
pub proof fn lemma_words_transitive(a: Seq<u32>, b: Seq<u32>, c: Seq<u32>)
    requires
        words_before(a, b),
        words_before(b, c),
    ensures
        words_before(a, c),
{
    let k = choose|k: int| words_differ_at(a, b, k);
    let j = choose|j: int| words_differ_at(b, c, j);
    let m = if k < j { k } else { j };
    assert forall|i: int| 0 <= i < m implies #[trigger] a[i] == c[i] by {
        assert(a[i] == b[i]);
        assert(b[i] == c[i]);
    }
    if k < j {
        assert(b[k] == c[k]);
    }
    assert(words_differ_at(a, c, m));
}

/// Whether `a` comes before `b` in lexicographic order.
pub fn words_in_order(a: &[u32], b: &[u32]) -> (before: bool)
    ensures
        before == words_before(a@, b@),
{
    let mut index: usize = 0;
    while index < a.len() && index < b.len() && a[index] == b[index]
        invariant
            index <= a@.len(),
            index <= b@.len(),
            forall|j: int| 0 <= j < index ==> #[trigger] a@[j] == b@[j],
        decreases a@.len() - index,
    {
        index += 1;
    }
    let before = index < b.len() && (index == a.len() || a[index] < b[index]);
    proof {
        if before {
            assert(words_differ_at(a@, b@, index as int));
        } else if words_before(a@, b@) {
            let k = choose|k: int| words_differ_at(a@, b@, k);
            if index < k {
                assert(a@[index as int] == b@[index as int]);
            } else if k < index {
                assert(a@[k] == b@[k]);
            }
        }
    }
    before
}

/// Whether two lists of words are the same.
pub fn same_words(a: &[u32], b: &[u32]) -> (same: bool)
    ensures
        same == (a@ == b@),
{
    if a.len() != b.len() {
        return false;
    }
    let mut index: usize = 0;
    while index < a.len()
        invariant
            index <= a@.len(),
            a@.len() == b@.len(),
            forall|j: int| 0 <= j < index ==> #[trigger] a@[j] == b@[j],
        decreases a@.len() - index,
    {
        if a[index] != b[index] {
            return false;
        }
        index += 1;
    }
    assert(a@ =~= b@);
    true
}

/// A copy of a list of words.
pub fn copy_words(words: &[u32]) -> (out: Vec<u32>)
    ensures
        out@ == words@,
{
    let mut out: Vec<u32> = Vec::new();
    let mut index: usize = 0;
    while index < words.len()
        invariant
            index <= words@.len(),
            out@ == words@.take(index as int),
        decreases words@.len() - index,
    {
        out.push(words[index]);
        index += 1;
        assert(out@ =~= words@.take(index as int));
    }
    assert(words@.take(index as int) =~= words@);
    out
}

/// Whether the byte strings agree up to `k` and `a` comes first there.
pub open spec fn bytes_differ_at(a: Seq<u8>, b: Seq<u8>, k: int) -> bool {
    &&& 0 <= k <= a.len()
    &&& k < b.len()
    &&& forall|j: int| 0 <= j < k ==> #[trigger] a[j] == b[j]
    &&& k == a.len() || a[k] < b[k]
}

/// Whether `a` comes before `b` in the order of their bytes.
pub open spec fn bytes_before(a: Seq<u8>, b: Seq<u8>) -> bool {
    exists|k: int| bytes_differ_at(a, b, k)
}

/// The order of bytes is strict.
pub proof fn lemma_bytes_asymmetric(a: Seq<u8>, b: Seq<u8>)
    requires
        bytes_before(a, b),
    ensures
        !bytes_before(b, a),
        a != b,
{
    let k = choose|k: int| bytes_differ_at(a, b, k);
    if bytes_before(b, a) {
        let j = choose|j: int| bytes_differ_at(b, a, j);
        if j < k {
            assert(a[j] == b[j]);
        } else if k < j {
            assert(b[k] == a[k]);
        }
    }
}

/// The order of bytes is transitive.
pub proof fn lemma_bytes_transitive(a: Seq<u8>, b: Seq<u8>, c: Seq<u8>)
    requires
        bytes_before(a, b),
        bytes_before(b, c),
    ensures
        bytes_before(a, c),
{
    let k = choose|k: int| bytes_differ_at(a, b, k);
    let j = choose|j: int| bytes_differ_at(b, c, j);
    let m = if k < j { k } else { j };
    assert forall|i: int| 0 <= i < m implies #[trigger] a[i] == c[i] by {
        assert(a[i] == b[i]);
        assert(b[i] == c[i]);
    }
    if k < j {
        assert(b[k] == c[k]);
    }
    assert(bytes_differ_at(a, c, m));
}

/// Two different byte strings are in order one way or the other.
pub proof fn lemma_bytes_total(a: Seq<u8>, b: Seq<u8>)
    requires
        a != b,
    ensures
        bytes_before(a, b) || bytes_before(b, a),
    decreases a.len(),
{
    if forall|j: int| 0 <= j < a.len() && j < b.len() ==> #[trigger] a[j] == b[j] {
        if a.len() < b.len() {
            assert(bytes_differ_at(a, b, a.len() as int));
        } else if b.len() < a.len() {
            assert(bytes_differ_at(b, a, b.len() as int));
        } else {
            assert(a =~= b);
        }
    } else {
        let k = choose|k: int| first_difference(a, b, k);
        lemma_first_difference(a, b, a.len());
        assert(first_difference(a, b, k));
        if a[k] < b[k] {
            assert(bytes_differ_at(a, b, k));
        } else {
            assert(bytes_differ_at(b, a, k));
        }
    }
}

/// Whether `k` is the first position at which both strings hold different bytes.
spec fn first_difference(a: Seq<u8>, b: Seq<u8>, k: int) -> bool {
    &&& 0 <= k < a.len()
    &&& k < b.len()
    &&& a[k] != b[k]
    &&& forall|j: int| 0 <= j < k ==> #[trigger] a[j] == b[j]
}

/// Where some position below `n` differs, there is a first such position.
proof fn lemma_first_difference(a: Seq<u8>, b: Seq<u8>, n: nat)
    requires
        exists|j: int| 0 <= j < n && j < a.len() && j < b.len() && #[trigger] a[j] != b[j],
    ensures
        exists|k: int| first_difference(a, b, k),
    decreases n,
{
    let last = n - 1;
    if exists|j: int| 0 <= j < last && j < a.len() && j < b.len() && #[trigger] a[j] != b[j] {
        lemma_first_difference(a, b, last as nat);
    } else {
        assert(first_difference(a, b, last));
    }
}

/// Whether `a` comes before `b` in the order of their bytes.
pub fn bytes_in_order(a: &[u8], b: &[u8]) -> (before: bool)
    ensures
        before == bytes_before(a@, b@),
{
    let mut index: usize = 0;
    while index < a.len() && index < b.len() && a[index] == b[index]
        invariant
            index <= a@.len(),
            index <= b@.len(),
            forall|j: int| 0 <= j < index ==> #[trigger] a@[j] == b@[j],
        decreases a@.len() - index,
    {
        index += 1;
    }
    let before = index < b.len() && (index == a.len() || a[index] < b[index]);
    proof {
        if before {
            assert(bytes_differ_at(a@, b@, index as int));
        } else if bytes_before(a@, b@) {
            let k = choose|k: int| bytes_differ_at(a@, b@, k);
            if index < k {
                assert(a@[index as int] == b@[index as int]);
            } else if k < index {
                assert(a@[k] == b@[k]);
            }
        }
    }
    before
}

} // verus!
