//! Sets of names, held in the order of their bytes.

use vstd::prelude::*;

use crate::order::{
    bytes_before, bytes_in_order, lemma_bytes_asymmetric, lemma_bytes_total,
    lemma_bytes_transitive,
};
use crate::text::same_text;

verus! {

/// Whether one name comes before another in the order of their bytes.
pub open spec fn name_before(a: Seq<char>, b: Seq<char>) -> bool {
    bytes_before(vstd::utf8::encode_utf8(a), vstd::utf8::encode_utf8(b))
}

/// Whether names are in strictly ascending order.
pub open spec fn names_ascend(names: Seq<String>) -> bool {
    forall|i: int, j: int|
        0 <= i < j < names.len() ==> name_before((#[trigger] names[i])@, (#[trigger] names[j])@)
}

/// The set of some names.
pub open spec fn name_set(names: Seq<String>) -> Set<Seq<char>> {
    names.map_values(|name: String| name@).to_set()
}

/// A name is in the set just where it is among the names.
proof fn lemma_among(names: Seq<String>, name: Seq<char>)
    ensures
        name_set(names).contains(name) <==> exists|i: int|
            0 <= i < names.len() && (#[trigger] names[i])@ == name,
{
    let views = names.map_values(|name: String| name@);
    if name_set(names).contains(name) {
        assert(views.contains(name));
        let i = choose|i: int| 0 <= i < views.len() && views[i] == name;
        assert(names[i]@ == name);
    }
    if exists|i: int| 0 <= i < names.len() && (#[trigger] names[i])@ == name {
        let i = choose|i: int| 0 <= i < names.len() && (#[trigger] names[i])@ == name;
        assert(views[i] == name);
        assert(views.contains(name));
    }
}

/// Distinct names are in one order or the other.
proof fn lemma_names_total(a: Seq<char>, b: Seq<char>)
    requires
        a != b,
    ensures
        name_before(a, b) || name_before(b, a),
{
    let x = vstd::utf8::encode_utf8(a);
    let y = vstd::utf8::encode_utf8(b);
    if x == y {
        vstd::utf8::encode_utf8_decode_utf8(a);
        vstd::utf8::encode_utf8_decode_utf8(b);
    } else {
        lemma_bytes_total(x, y);
    }
}

/// Puts a name into a set of names, and says whether it is new there.
pub fn insert_name(names: &mut Vec<String>, name: String) -> (new: bool)
    requires
        names_ascend(old(names)@),
    ensures
        names_ascend(final(names)@),
        new == !name_set(old(names)@).contains(name@),
        name_set(final(names)@) == name_set(old(names)@).insert(name@),
        final(names)@.len() == old(names)@.len() + (if new {
            1int
        } else {
            0int
        }),
{
    let mut at: usize = names.len();
    while at > 0 && bytes_in_order(
        name.as_str().as_bytes(),
        names[at - 1].as_str().as_bytes(),
    )
        invariant
            at <= names@.len(),
            *names == *old(names),
            forall|i: int| at <= i < names@.len() ==> name_before(name@, (#[trigger] names@[i])@),
        decreases at,
    {
        at = at - 1;
    }
    let ghost before = names@;
    if at > 0 && same_text(names[at - 1].as_str(), name.as_str()) {
        proof {
            lemma_among(before, name@);
            assert(before[at - 1]@ == name@);
            assert(name_set(before).insert(name@) =~= name_set(before));
        }
        return false;
    }
    proof {
        lemma_among(before, name@);
        assert forall|i: int| 0 <= i < at implies name_before((#[trigger] before[i])@, name@) by {
            lemma_names_total(before[at - 1]@, name@);
            if i < at - 1 {
                assert(name_before(before[i]@, before[at - 1]@));
                lemma_bytes_transitive(
                    vstd::utf8::encode_utf8(before[i]@),
                    vstd::utf8::encode_utf8(before[at - 1]@),
                    vstd::utf8::encode_utf8(name@),
                );
            }
        }
        assert forall|i: int| 0 <= i < before.len() implies (#[trigger] before[i])@ != name@ by {
            if i < at {
                lemma_bytes_asymmetric(
                    vstd::utf8::encode_utf8(before[i]@),
                    vstd::utf8::encode_utf8(name@),
                );
            } else {
                lemma_bytes_asymmetric(
                    vstd::utf8::encode_utf8(name@),
                    vstd::utf8::encode_utf8(before[i]@),
                );
            }
        }
    }
    let ghost kept = name@;
    names.insert(at, name);
    proof {
        let after = names@;
        assert forall|i: int, j: int| 0 <= i < j < after.len() implies name_before(
            (#[trigger] after[i])@,
            (#[trigger] after[j])@,
        ) by {
            let from = if i < at {
                i
            } else {
                i - 1
            };
            let to = if j < at {
                j
            } else {
                j - 1
            };
            if i == at {
                assert(after[j] == before[j - 1]);
            } else if j == at {
                assert(after[i] == before[i]);
            } else {
                assert(after[i] == before[from]);
                assert(after[j] == before[to]);
            }
        }
        assert forall|other: Seq<char>| name_set(after).contains(other) == name_set(before).insert(
            kept,
        ).contains(other) by {
            lemma_among(after, other);
            lemma_among(before, other);
            if name_set(after).contains(other) {
                let i = choose|i: int| 0 <= i < after.len() && (#[trigger] after[i])@ == other;
                if i < at {
                    assert(before[i]@ == other);
                } else if i > at {
                    assert(before[i - 1]@ == other);
                }
            }
            if name_set(before).contains(other) {
                let i = choose|i: int| 0 <= i < before.len() && (#[trigger] before[i])@ == other;
                if i < at {
                    assert(after[i]@ == other);
                } else {
                    assert(after[i + 1]@ == other);
                }
            }
            if other == kept {
                assert(after[at as int]@ == kept);
            }
        }
        assert(name_set(after) =~= name_set(before).insert(kept));
    }
    true
}

} // verus!
