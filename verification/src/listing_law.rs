//! The document of a page does not depend on the order in which its blocks are listed.

use vstd::prelude::*;

use crate::document::{
    add_owner, identities_fault, identity_fault, owner_among, owner_in_block, projected_blocks,
    projected_content, projected_siblings, projected_subtree, property_id, raw_owner, RawOwner,
};
use crate::document_laws::{
    distinct_ids, law_siblings_are_ordered, lemma_all_rooted, lemma_blocks_distinct,
    lemma_distinct_blocks, lemma_no_parent_fault, lemma_none_unrooted, lemma_parents,
    siblings_ascend,
};
use crate::forest::{
    forest_fault, has_block, is_child, is_rooted, parent_fault, rooted_within, sibling_before,
    siblings_of,
};
use crate::ids::{BlockId, LogseqUuid};
use crate::inject::ProjectionFormat;
use crate::order::{bytes_before, lemma_bytes_asymmetric};
use crate::page::MaterializedBlock;

verus! {

/// Whether `second` lists the blocks of `first` in the order that `order` gives.
pub open spec fn is_relisting(
    first: Seq<MaterializedBlock>,
    second: Seq<MaterializedBlock>,
    order: Seq<int>,
) -> bool {
    &&& order.len() == first.len()
    &&& second.len() == first.len()
    &&& order.no_duplicates()
    &&& forall|i: int| 0 <= i < order.len() ==> 0 <= #[trigger] order[i] < first.len()
    &&& forall|i: int| 0 <= i < second.len() ==> #[trigger] second[i] == first[order[i]]
}

/// Every block is listed again.
proof fn lemma_relisted(
    first: Seq<MaterializedBlock>,
    second: Seq<MaterializedBlock>,
    order: Seq<int>,
    j: int,
)
    requires
        is_relisting(first, second, order),
        0 <= j < first.len(),
    ensures
        exists|i: int| 0 <= i < order.len() && #[trigger] order[i] == j,
{
    let n = first.len() as int;
    order.unique_seq_to_set();
    vstd::set_lib::lemma_int_range(0, n);
    assert(order.to_set().subset_of(vstd::set_lib::set_int_range(0, n)));
    vstd::set_lib::lemma_subset_equality(order.to_set(), vstd::set_lib::set_int_range(0, n));
    assert(order.to_set().contains(j));
    assert(order.contains(j));
}

/// How many of the first `n` properties of a block write an identity.
spec fn writes(block: MaterializedBlock, n: nat, uuid: u128) -> nat
    decreases n,
{
    if n == 0 {
        0
    } else {
        writes(block, (n - 1) as nat, uuid) + if property_id(block.parsed.properties@[n - 1])
            == Some(uuid) {
            1nat
        } else {
            0nat
        }
    }
}

/// How often a block writes an identity.
spec fn total_writes(block: MaterializedBlock, uuid: u128) -> nat {
    writes(block, block.parsed.properties@.len(), uuid)
}

/// The owners after a block, by how often it writes the identity.
proof fn lemma_owner_in_block(owner: RawOwner, block: MaterializedBlock, n: nat, uuid: u128)
    ensures
        writes(block, n, uuid) == 0 ==> owner_in_block(owner, block, n, uuid) == owner,
        writes(block, n, uuid) == 1 ==> owner_in_block(owner, block, n, uuid) == add_owner(
            owner,
            block.block_id,
        ),
        writes(block, n, uuid) >= 2 ==> owner_in_block(owner, block, n, uuid) is Several,
    decreases n,
{
    if n > 0 {
        lemma_owner_in_block(owner, block, (n - 1) as nat, uuid);
    }
}

/// Whether block `i` alone, among the first `n`, writes an identity, and writes it once.
spec fn writes_alone(blocks: Seq<MaterializedBlock>, n: nat, uuid: u128, i: int) -> bool {
    &&& 0 <= i < n
    &&& total_writes(blocks[i], uuid) == 1
    &&& forall|j: int|
        0 <= j < n && j != i ==> total_writes(#[trigger] blocks[j], uuid) == 0
}

/// Whether two blocks, or one block twice, write an identity.
spec fn writes_twice(
    blocks: Seq<MaterializedBlock>,
    n: nat,
    uuid: u128,
    i: int,
    j: int,
) -> bool {
    &&& 0 <= i < n
    &&& 0 <= j < n
    &&& total_writes(blocks[i], uuid) >= 1
    &&& total_writes(blocks[j], uuid) >= 1
    &&& i == j ==> total_writes(blocks[i], uuid) >= 2
}

/// What having an owner means.
spec fn owner_means(
    blocks: Seq<MaterializedBlock>,
    n: nat,
    uuid: u128,
    owner: RawOwner,
) -> bool {
    match owner {
        RawOwner::Nobody => forall|i: int|
            0 <= i < n ==> total_writes(#[trigger] blocks[i], uuid) == 0,
        RawOwner::Only(block) => exists|i: int| #[trigger]
            writes_alone(blocks, n, uuid, i) && blocks[i].block_id == block,
        RawOwner::Several => exists|i: int, j: int| writes_twice(blocks, n, uuid, i, j),
    }
}

/// The owner found is the owner meant.
proof fn lemma_owner_means(blocks: Seq<MaterializedBlock>, n: nat, uuid: u128)
    requires
        n <= blocks.len(),
    ensures
        owner_means(blocks, n, uuid, owner_among(blocks, n, uuid)),
    decreases n,
{
    if n > 0 {
        let m = (n - 1) as nat;
        lemma_owner_means(blocks, m, uuid);
        let before = owner_among(blocks, m, uuid);
        let block = blocks[n - 1];
        lemma_owner_in_block(before, block, block.parsed.properties@.len(), uuid);
        let count = total_writes(block, uuid);
        match before {
            RawOwner::Nobody => {
                if count == 1 {
                    assert(writes_alone(blocks, n, uuid, n - 1));
                } else if count >= 2 {
                    assert(writes_twice(blocks, n, uuid, n - 1, n - 1));
                }
            },
            RawOwner::Only(_) => {
                let i = choose|i: int| #[trigger] writes_alone(blocks, m, uuid, i);
                if count == 0 {
                    assert(writes_alone(blocks, n, uuid, i));
                } else {
                    assert(writes_twice(blocks, n, uuid, i, n - 1));
                }
            },
            RawOwner::Several => {
                let (i, j) = choose|i: int, j: int| writes_twice(blocks, m, uuid, i, j);
                assert(writes_twice(blocks, n, uuid, i, j));
            },
        }
    }
}

/// Only one owner can be meant.
proof fn lemma_owner_unique(
    blocks: Seq<MaterializedBlock>,
    n: nat,
    uuid: u128,
    a: RawOwner,
    b: RawOwner,
)
    requires
        owner_means(blocks, n, uuid, a),
        owner_means(blocks, n, uuid, b),
    ensures
        a == b,
{
    if a is Only && b is Only {
        let i = choose|i: int| #[trigger]
            writes_alone(blocks, n, uuid, i) && blocks[i].block_id == a->Only_0;
        let j = choose|j: int| #[trigger]
            writes_alone(blocks, n, uuid, j) && blocks[j].block_id == b->Only_0;
        if i != j {
            assert(total_writes(blocks[j], uuid) == 0);
        }
    } else if a is Only {
        lemma_owner_kinds(blocks, n, uuid, a, b);
    } else if b is Only {
        lemma_owner_kinds(blocks, n, uuid, b, a);
    } else if a is Several && b is Nobody {
        let (i, j) = choose|i: int, j: int| writes_twice(blocks, n, uuid, i, j);
        assert(total_writes(blocks[i], uuid) == 0);
    } else if a is Nobody && b is Several {
        let (i, j) = choose|i: int, j: int| writes_twice(blocks, n, uuid, i, j);
        assert(total_writes(blocks[i], uuid) == 0);
    }
}

/// A sole owner excludes having none and having several.
proof fn lemma_owner_kinds(
    blocks: Seq<MaterializedBlock>,
    n: nat,
    uuid: u128,
    only: RawOwner,
    other: RawOwner,
)
    requires
        only is Only,
        !(other is Only),
        owner_means(blocks, n, uuid, only),
    ensures
        !owner_means(blocks, n, uuid, other),
{
    let i = choose|i: int| #[trigger] writes_alone(blocks, n, uuid, i);
    if other is Nobody {
        if owner_means(blocks, n, uuid, other) {
            assert(total_writes(blocks[i], uuid) == 0);
        }
    } else if owner_means(blocks, n, uuid, other) {
        let (x, y) = choose|x: int, y: int| writes_twice(blocks, n, uuid, x, y);
        if x != i {
            assert(total_writes(blocks[x], uuid) == 0);
        }
        if y != i {
            assert(total_writes(blocks[y], uuid) == 0);
        }
    }
}

/// Who owns an identity does not depend on the listing.
proof fn lemma_relisted_owner(
    first: Seq<MaterializedBlock>,
    second: Seq<MaterializedBlock>,
    order: Seq<int>,
    uuid: LogseqUuid,
)
    requires
        is_relisting(first, second, order),
    ensures
        raw_owner(second, uuid) == raw_owner(first, uuid),
{
    let n = first.len();
    let u = uuid.uuid.value;
    let owner = raw_owner(first, uuid);
    lemma_owner_means(first, n, u);
    lemma_owner_means(second, n, u);
    assert(owner_means(second, n, u, owner)) by {
        match owner {
            RawOwner::Nobody => {
                assert forall|i: int| 0 <= i < n implies total_writes(#[trigger] second[i], u)
                    == 0 by {
                    assert(total_writes(first[order[i]], u) == 0);
                }
            },
            RawOwner::Only(block) => {
                let j = choose|j: int| #[trigger]
                    writes_alone(first, n, u, j) && first[j].block_id == block;
                lemma_relisted(first, second, order, j);
                let i = choose|i: int| 0 <= i < order.len() && #[trigger] order[i] == j;
                assert(second[i] == first[j]);
                assert forall|k: int| 0 <= k < n && k != i implies total_writes(
                    #[trigger] second[k],
                    u,
                ) == 0 by {
                    assert(order[k] != j);
                    assert(total_writes(first[order[k]], u) == 0);
                }
                assert(writes_alone(second, n, u, i));
            },
            RawOwner::Several => {
                let (x, y) = choose|x: int, y: int| writes_twice(first, n, u, x, y);
                lemma_relisted(first, second, order, x);
                lemma_relisted(first, second, order, y);
                let i = choose|i: int| 0 <= i < order.len() && #[trigger] order[i] == x;
                let j = choose|j: int| 0 <= j < order.len() && #[trigger] order[j] == y;
                assert(second[i] == first[x] && second[j] == first[y]);
                assert(writes_twice(second, n, u, i, j));
            },
        }
    }
    lemma_owner_unique(second, n, u, raw_owner(second, uuid), owner);
}

/// Whether a block with an identity is there does not depend on the listing.
proof fn lemma_relisted_has(
    first: Seq<MaterializedBlock>,
    second: Seq<MaterializedBlock>,
    order: Seq<int>,
    id: BlockId,
)
    requires
        is_relisting(first, second, order),
        has_block(first, id),
    ensures
        has_block(second, id),
{
    let j = choose|j: int| 0 <= j < first.len() && (#[trigger] first[j]).block_id == id;
    lemma_relisted(first, second, order, j);
    let i = choose|i: int| 0 <= i < order.len() && #[trigger] order[i] == j;
    assert(second[i].block_id == id);
}

/// Whether a block hangs below a root does not depend on the listing.
proof fn lemma_relisted_rooted(
    first: Seq<MaterializedBlock>,
    second: Seq<MaterializedBlock>,
    order: Seq<int>,
    i: int,
    steps: nat,
)
    requires
        is_relisting(first, second, order),
        0 <= i < second.len(),
        rooted_within(first, order[i], steps),
    ensures
        rooted_within(second, i, steps),
    decreases steps,
{
    assert(second[i] == first[order[i]]);
    if second[i].parent is Some {
        let p = choose|p: int|
            0 <= p < first.len() && #[trigger] is_child(first, p, order[i]) && rooted_within(
                first,
                p,
                (steps - 1) as nat,
            );
        lemma_relisted(first, second, order, p);
        let q = choose|q: int| 0 <= q < order.len() && #[trigger] order[q] == p;
        assert(second[q] == first[p]);
        lemma_relisted_rooted(first, second, order, q, (steps - 1) as nat);
        assert(is_child(second, q, i));
    }
}

/// A forest is one in every listing.
proof fn lemma_relisted_forest(
    first: Seq<MaterializedBlock>,
    second: Seq<MaterializedBlock>,
    order: Seq<int>,
)
    requires
        is_relisting(first, second, order),
        forest_fault(first) is None,
    ensures
        forest_fault(second) is None,
        distinct_ids(first),
        distinct_ids(second),
{
    let n = first.len();
    lemma_blocks_distinct(first, n);
    assert forall|i: int, j: int| 0 <= i < j < n implies (#[trigger] second[i]).block_id != (
    #[trigger] second[j]).block_id by {
        assert(order[i] != order[j]);
        if order[i] < order[j] {
            assert(first[order[i]].block_id != first[order[j]].block_id);
        } else {
            assert(first[order[j]].block_id != first[order[i]].block_id);
        }
    }
    assert forall|i: int| 0 <= i < n implies (#[trigger] second[i]).order@.len() > 0 by {
        assert(first[order[i]].order@.len() > 0);
    }
    lemma_distinct_blocks(second, n);
    assert forall|i: int| 0 <= i < n implies parent_fault(second, i) is None by {
        assert(second[i] == first[order[i]]);
        lemma_parents(first, n, order[i]);
        if second[i].parent is Some {
            lemma_relisted_has(first, second, order, second[i].parent->0);
        }
    }
    lemma_no_parent_fault(second, n);
    assert forall|i: int| 0 <= i < n implies is_rooted(second, i) by {
        lemma_all_rooted(first, 0, order[i]);
        let steps = choose|steps: nat| rooted_within(first, order[i], steps);
        lemma_relisted_rooted(first, second, order, i, steps);
    }
    lemma_none_unrooted(second, 0);
}

/// Two lists of the same blocks in strict order are the same list.
proof fn lemma_same_ascending(blocks: Seq<MaterializedBlock>, s: Seq<int>, t: Seq<int>)
    requires
        siblings_ascend(blocks, s),
        siblings_ascend(blocks, t),
        forall|x: int| s.contains(x) <==> t.contains(x),
    ensures
        s == t,
    decreases s.len(),
{
    if s.len() == 0 {
        if t.len() > 0 {
            assert(t.contains(t[0]));
            assert(s.contains(t[0]));
        }
        assert(s =~= t);
    } else {
        assert(s.contains(s[0]));
        assert(t.contains(s[0]));
        assert(t.len() > 0);
        let (a, b) = (s.last(), t.last());
        assert(s.contains(a) && t.contains(b));
        let k = choose|k: int| 0 <= k < t.len() && t[k] == a;
        let m = choose|m: int| 0 <= m < s.len() && s[m] == b;
        if a != b {
            assert(sibling_before(blocks[t[k]], blocks[t[t.len() - 1]]));
            assert(sibling_before(blocks[s[m]], blocks[s[s.len() - 1]]));
            lemma_before_asymmetric(blocks[a], blocks[b]);
        }
        let (x, y) = (s.drop_last(), t.drop_last());
        assert(siblings_ascend(blocks, x)) by {
            assert forall|i: int, j: int| 0 <= i < j < x.len() implies sibling_before(
                blocks[#[trigger] x[i]],
                blocks[#[trigger] x[j]],
            ) by {
                assert(x[i] == s[i] && x[j] == s[j]);
            }
        }
        assert(siblings_ascend(blocks, y)) by {
            assert forall|i: int, j: int| 0 <= i < j < y.len() implies sibling_before(
                blocks[#[trigger] y[i]],
                blocks[#[trigger] y[j]],
            ) by {
                assert(y[i] == t[i] && y[j] == t[j]);
            }
        }
        assert forall|v: int| x.contains(v) <==> y.contains(v) by {
            if x.contains(v) {
                lemma_dropped(blocks, s, t, v);
            }
            if y.contains(v) {
                lemma_dropped(blocks, t, s, v);
            }
        }
        lemma_same_ascending(blocks, x, y);
        assert(s =~= x.push(a));
        assert(t =~= y.push(b));
    }
}

/// An element before the last of one list is before the last of the other.
proof fn lemma_dropped(blocks: Seq<MaterializedBlock>, s: Seq<int>, t: Seq<int>, v: int)
    requires
        s.len() > 0,
        t.len() > 0,
        s.last() == t.last(),
        siblings_ascend(blocks, s),
        forall|x: int| s.contains(x) ==> t.contains(x),
        s.drop_last().contains(v),
    ensures
        t.drop_last().contains(v),
{
    let i = choose|i: int| 0 <= i < s.drop_last().len() && s.drop_last()[i] == v;
    assert(s[i] == v);
    assert(s.contains(v));
    assert(t.contains(v));
    let k = choose|k: int| 0 <= k < t.len() && t[k] == v;
    if k == t.len() - 1 {
        assert(sibling_before(blocks[s[i]], blocks[s[s.len() - 1]]));
        lemma_before_asymmetric(blocks[v], blocks[v]);
    }
    assert(t.drop_last()[k] == v);
}

/// No two blocks come before each other.
proof fn lemma_before_asymmetric(a: MaterializedBlock, b: MaterializedBlock)
    requires
        sibling_before(a, b),
    ensures
        !sibling_before(b, a),
{
    let (x, y) = (
        vstd::utf8::encode_utf8(a.order@),
        vstd::utf8::encode_utf8(b.order@),
    );
    if bytes_before(x, y) {
        lemma_bytes_asymmetric(x, y);
    } else {
        assert(a.order@ == b.order@);
        if bytes_before(y, x) {
            lemma_bytes_asymmetric(y, x);
        }
    }
}

/// Siblings stand in the same order in every listing.
proof fn lemma_relisted_siblings(
    first: Seq<MaterializedBlock>,
    second: Seq<MaterializedBlock>,
    order: Seq<int>,
    parent: Option<BlockId>,
)
    requires
        is_relisting(first, second, order),
        distinct_ids(first),
        distinct_ids(second),
    ensures
        siblings_of(first, parent).len() == siblings_of(second, parent).len(),
        forall|k: int|
            0 <= k < siblings_of(second, parent).len() ==> 0 <= (#[trigger] siblings_of(
                second,
                parent,
            )[k]) < second.len() && siblings_of(first, parent)[k] == order[siblings_of(
                second,
                parent,
            )[k]],
{
    let s = siblings_of(first, parent);
    let u = siblings_of(second, parent);
    law_siblings_are_ordered(first, parent);
    law_siblings_are_ordered(second, parent);
    let t = u.map_values(|i: int| order[i]);
    assert(siblings_ascend(first, t)) by {
        assert forall|a: int, b: int| 0 <= a < b < t.len() implies sibling_before(
            first[#[trigger] t[a]],
            first[#[trigger] t[b]],
        ) by {
            assert(sibling_before(second[u[a]], second[u[b]]));
        }
    }
    assert forall|x: int| s.contains(x) <==> t.contains(x) by {
        if s.contains(x) {
            let k = choose|k: int| 0 <= k < s.len() && s[k] == x;
            assert(0 <= s[k] < first.len());
            lemma_relisted(first, second, order, x);
            let i = choose|i: int| 0 <= i < order.len() && #[trigger] order[i] == x;
            assert(second[i] == first[x]);
            assert(u.contains(i));
            let m = choose|m: int| 0 <= m < u.len() && u[m] == i;
            assert(t[m] == x);
        }
        if t.contains(x) {
            let m = choose|m: int| 0 <= m < t.len() && t[m] == x;
            assert(0 <= u[m] < second.len());
            assert(u.contains(u[m]));
            assert(second[u[m]] == first[x]);
            assert(s.contains(x));
        }
    }
    lemma_same_ascending(first, s, t);
    assert forall|k: int| 0 <= k < u.len() implies 0 <= (#[trigger] u[k]) < second.len() && s[k]
        == order[u[k]] by {
        assert(t[k] == order[u[k]]);
    }
}

/// A subtree is the same in every listing.
proof fn lemma_relisted_subtree(
    first: Seq<MaterializedBlock>,
    second: Seq<MaterializedBlock>,
    order: Seq<int>,
    format: ProjectionFormat,
    i: int,
    locator: Seq<u32>,
    depth: nat,
)
    requires
        is_relisting(first, second, order),
        distinct_ids(first),
        distinct_ids(second),
        0 <= i < second.len(),
    ensures
        projected_subtree(second, format, i, locator, depth) == projected_subtree(
            first,
            format,
            order[i],
            locator,
            depth,
        ),
    decreases depth, 0nat,
{
    if depth > 0 {
        let block = second[i];
        assert(block == first[order[i]]);
        if block.logseq_uuid is Some {
            lemma_relisted_owner(first, second, order, block.logseq_uuid->0);
        }
        assert(projected_content(second, block, format) == projected_content(first, block, format));
        let parent = Some(block.block_id);
        lemma_relisted_siblings(first, second, order, parent);
        lemma_relisted_list(
            first,
            second,
            order,
            format,
            parent,
            siblings_of(second, parent).len(),
            locator,
            (depth - 1) as nat,
        );
    }
}

/// Siblings and what is below them are the same in every listing.
proof fn lemma_relisted_list(
    first: Seq<MaterializedBlock>,
    second: Seq<MaterializedBlock>,
    order: Seq<int>,
    format: ProjectionFormat,
    parent: Option<BlockId>,
    n: nat,
    locator: Seq<u32>,
    depth: nat,
)
    requires
        is_relisting(first, second, order),
        distinct_ids(first),
        distinct_ids(second),
        n <= siblings_of(second, parent).len(),
    ensures
        projected_siblings(second, format, siblings_of(second, parent), n, locator, depth)
            == projected_siblings(first, format, siblings_of(first, parent), n, locator, depth),
    decreases depth, n,
{
    lemma_relisted_siblings(first, second, order, parent);
    if n > 0 {
        lemma_relisted_list(
            first,
            second,
            order,
            format,
            parent,
            (n - 1) as nat,
            locator,
            depth,
        );
        lemma_relisted_subtree(
            first,
            second,
            order,
            format,
            siblings_of(second, parent)[n - 1],
            locator.push((n - 1) as u32),
            depth,
        );
    }
}

/// Where no identity is faulty, that of block `i` is not.
proof fn lemma_identity_at(blocks: Seq<MaterializedBlock>, n: nat, i: int)
    requires
        0 <= i < n,
        identities_fault(blocks, n) is None,
    ensures
        identity_fault(blocks, i) is None,
    decreases n,
{
    if i < n - 1 {
        lemma_identity_at(blocks, (n - 1) as nat, i);
    }
}

/// Where each identity is fine, none is faulty.
proof fn lemma_no_identity_fault(blocks: Seq<MaterializedBlock>, n: nat)
    requires
        forall|i: int| 0 <= i < n ==> identity_fault(blocks, i) is None,
    ensures
        identities_fault(blocks, n) is None,
    decreases n,
{
    if n > 0 {
        lemma_no_identity_fault(blocks, (n - 1) as nat);
    }
}

/// A page that can be projected is projected to the same document however its blocks are listed.
pub proof fn law_listing_order_does_not_matter(
    first: Seq<MaterializedBlock>,
    second: Seq<MaterializedBlock>,
    order: Seq<int>,
    format: ProjectionFormat,
)
    requires
        is_relisting(first, second, order),
        projected_blocks(first, format) is Ok,
    ensures
        projected_blocks(second, format) == projected_blocks(first, format),
{
    let n = first.len();
    lemma_relisted_forest(first, second, order);
    assert forall|i: int| 0 <= i < n implies identity_fault(second, i) is None by {
        let block = second[i];
        assert(block == first[order[i]]);
        lemma_identity_at(first, n, order[i]);
        if block.logseq_uuid is Some {
            let uuid = block.logseq_uuid->0;
            lemma_relisted_owner(first, second, order, uuid);
            if exists|j: int| 0 <= j < i && (#[trigger] second[j]).logseq_uuid == Some(uuid) {
                let j = choose|j: int|
                    0 <= j < i && (#[trigger] second[j]).logseq_uuid == Some(uuid);
                assert(second[j] == first[order[j]]);
                lemma_identity_at(first, n, order[j]);
                assert(order[i] != order[j]);
                if order[j] < order[i] {
                    assert(first[order[j]].logseq_uuid == Some(uuid));
                } else {
                    assert(first[order[i]].logseq_uuid == Some(uuid));
                }
            }
        }
    }
    lemma_no_identity_fault(second, n);
    lemma_relisted_siblings(first, second, order, None);
    lemma_relisted_list(
        first,
        second,
        order,
        format,
        None,
        siblings_of(second, None).len(),
        Seq::empty(),
        n,
    );
}

} // verus!
