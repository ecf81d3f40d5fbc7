//! What holds of the outline document of a page.

use vstd::prelude::*;

use crate::document::{projected_blocks, projected_siblings, projected_subtree, DocBlockView};
use crate::forest::{
    block_fault, blocks_fault, first_unrooted, forest_fault, has_block, insert_sibling, is_child,
    is_rooted, lemma_insert_sibling_members, lemma_siblings_range, parent_fault, parents_fault,
    rooted_within, sibling_before, siblings_among, siblings_of,
};
use crate::ids::BlockId;
use crate::inject::ProjectionFormat;
use crate::order::{
    bytes_before, lemma_bytes_asymmetric, lemma_bytes_total, lemma_bytes_transitive, words_before,
    words_differ_at,
};
use crate::page::MaterializedBlock;

verus! {

/// Whether no two blocks have the same identity.
pub open spec fn distinct_ids(blocks: Seq<MaterializedBlock>) -> bool {
    forall|i: int, j: int|
        0 <= i < j < blocks.len() ==> (#[trigger] blocks[i]).block_id != (
        #[trigger] blocks[j]).block_id
}

/// Blocks that are not faulty by themselves have distinct identities and order keys.
pub proof fn lemma_blocks_distinct(blocks: Seq<MaterializedBlock>, n: nat)
    requires
        n <= blocks.len(),
        blocks_fault(blocks, n) is None,
    ensures
        forall|i: int, j: int|
            0 <= i < j < n ==> (#[trigger] blocks[i]).block_id != (#[trigger] blocks[j]).block_id,
        forall|i: int| 0 <= i < n ==> (#[trigger] blocks[i]).order@.len() > 0,
    decreases n,
{
    if n > 0 {
        lemma_blocks_distinct(blocks, (n - 1) as nat);
        assert(block_fault(blocks, n - 1) is None);
    }
}

/// Blocks with distinct identities and order keys are not faulty by themselves.
pub proof fn lemma_distinct_blocks(blocks: Seq<MaterializedBlock>, n: nat)
    requires
        n <= blocks.len(),
        distinct_ids(blocks),
        forall|i: int| 0 <= i < blocks.len() ==> (#[trigger] blocks[i]).order@.len() > 0,
    ensures
        blocks_fault(blocks, n) is None,
    decreases n,
{
    if n > 0 {
        lemma_distinct_blocks(blocks, (n - 1) as nat);
    }
}

/// Where no parent is faulty, every parent is another block that is there.
pub proof fn lemma_parents(blocks: Seq<MaterializedBlock>, n: nat, i: int)
    requires
        0 <= i < n,
        parents_fault(blocks, n) is None,
    ensures
        parent_fault(blocks, i) is None,
    decreases n,
{
    if i < n - 1 {
        lemma_parents(blocks, (n - 1) as nat, i);
    }
}

/// Where every parent is fine, no parent is faulty.
pub proof fn lemma_no_parent_fault(blocks: Seq<MaterializedBlock>, n: nat)
    requires
        n <= blocks.len(),
        forall|i: int| 0 <= i < blocks.len() ==> parent_fault(blocks, i) is None,
    ensures
        parents_fault(blocks, n) is None,
    decreases n,
{
    if n > 0 {
        lemma_no_parent_fault(blocks, (n - 1) as nat);
    }
}

/// Where no block from `from` on is unrooted, each hangs below a root.
pub proof fn lemma_all_rooted(blocks: Seq<MaterializedBlock>, from: int, i: int)
    requires
        0 <= from <= i < blocks.len(),
        first_unrooted(blocks, from) is None,
    ensures
        is_rooted(blocks, i),
    decreases blocks.len() - from,
{
    if from < i {
        lemma_all_rooted(blocks, from + 1, i);
    }
}

/// Where every block hangs below a root, none is unrooted.
pub proof fn lemma_none_unrooted(blocks: Seq<MaterializedBlock>, from: int)
    requires
        0 <= from <= blocks.len(),
        forall|i: int| 0 <= i < blocks.len() ==> is_rooted(blocks, i),
    ensures
        first_unrooted(blocks, from) is None,
    decreases blocks.len() - from,
{
    if from < blocks.len() {
        assert(is_rooted(blocks, from));
        lemma_none_unrooted(blocks, from + 1);
    }
}

/// Siblings with different identities are in order one way or the other, never both.
proof fn lemma_sibling_order(a: MaterializedBlock, b: MaterializedBlock)
    requires
        a.block_id != b.block_id,
    ensures
        sibling_before(a, b) || sibling_before(b, a),
        !(sibling_before(a, b) && sibling_before(b, a)),
{
    let (x, y) = (
        vstd::utf8::encode_utf8(a.order@),
        vstd::utf8::encode_utf8(b.order@),
    );
    if x == y {
        crate::text::lemma_utf8_injective(a.order@, b.order@);
        if bytes_before(x, y) {
            lemma_bytes_asymmetric(x, y);
        }
    } else {
        lemma_bytes_total(x, y);
        if bytes_before(x, y) {
            lemma_bytes_asymmetric(x, y);
        }
    }
}

/// The order of siblings is transitive.
proof fn lemma_sibling_transitive(a: MaterializedBlock, b: MaterializedBlock, c: MaterializedBlock)
    requires
        sibling_before(a, b),
        sibling_before(b, c),
    ensures
        sibling_before(a, c),
{
    let (x, y, z) = (
        vstd::utf8::encode_utf8(a.order@),
        vstd::utf8::encode_utf8(b.order@),
        vstd::utf8::encode_utf8(c.order@),
    );
    if bytes_before(x, y) && bytes_before(y, z) {
        lemma_bytes_transitive(x, y, z);
    }
}

/// Whether siblings stand in strict order.
pub open spec fn siblings_ascend(blocks: Seq<MaterializedBlock>, siblings: Seq<int>) -> bool {
    forall|a: int, b: int|
        0 <= a < b < siblings.len() ==> sibling_before(
            blocks[#[trigger] siblings[a]],
            blocks[#[trigger] siblings[b]],
        )
}

/// Inserting another block keeps siblings in strict order.
proof fn lemma_insert_ascends(blocks: Seq<MaterializedBlock>, siblings: Seq<int>, j: int)
    requires
        siblings_ascend(blocks, siblings),
        forall|k: int|
            0 <= k < siblings.len() ==> blocks[#[trigger] siblings[k]].block_id
                != blocks[j].block_id,
    ensures
        siblings_ascend(blocks, insert_sibling(blocks, siblings, j)),
    decreases siblings.len(),
{
    let grown = insert_sibling(blocks, siblings, j);
    if siblings.len() > 0 && sibling_before(blocks[j], blocks[siblings.last()]) {
        let front = siblings.drop_last();
        lemma_insert_ascends(blocks, front, j);
        lemma_insert_sibling_members(blocks, front, j);
        let inner = insert_sibling(blocks, front, j);
        assert forall|a: int, b: int| 0 <= a < b < grown.len() implies sibling_before(
            blocks[#[trigger] grown[a]],
            blocks[#[trigger] grown[b]],
        ) by {
            if b == inner.len() {
                assert(grown[a] == inner[a]);
                assert(inner.contains(inner[a]));
                if inner[a] != j {
                    assert(front.contains(inner[a]));
                    let m = choose|m: int| 0 <= m < front.len() && front[m] == inner[a];
                    assert(siblings[m] == inner[a]);
                    assert(sibling_before(
                        blocks[siblings[m]],
                        blocks[siblings[siblings.len() - 1]],
                    ));
                }
            } else {
                assert(grown[a] == inner[a] && grown[b] == inner[b]);
            }
        }
    } else {
        assert forall|a: int, b: int| 0 <= a < b < grown.len() implies sibling_before(
            blocks[#[trigger] grown[a]],
            blocks[#[trigger] grown[b]],
        ) by {
            if b == siblings.len() {
                let last = siblings.len() - 1;
                lemma_sibling_order(blocks[siblings[last]], blocks[j]);
                if a < last {
                    assert(sibling_before(blocks[siblings[a]], blocks[siblings[last]]));
                    lemma_sibling_transitive(blocks[siblings[a]], blocks[siblings[last]], blocks[j]);
                }
            } else {
                assert(grown[a] == siblings[a] && grown[b] == siblings[b]);
            }
        }
    }
}

/// The first blocks with a parent stand in strict order.
proof fn lemma_siblings_ascend(
    blocks: Seq<MaterializedBlock>,
    parent: Option<BlockId>,
    n: nat,
)
    requires
        n <= blocks.len(),
        distinct_ids(blocks),
    ensures
        siblings_ascend(blocks, siblings_among(blocks, parent, n)),
    decreases n,
{
    if n > 0 {
        let rest = siblings_among(blocks, parent, (n - 1) as nat);
        lemma_siblings_ascend(blocks, parent, (n - 1) as nat);
        lemma_siblings_range(blocks, parent, (n - 1) as nat);
        if blocks[n - 1].parent == parent {
            lemma_insert_ascends(blocks, rest, n - 1);
        }
    }
}

/// The children of a block are exactly the blocks that name it as parent, in the order of their
/// order keys, and of their identities where the keys are the same.
pub proof fn law_siblings_are_ordered(blocks: Seq<MaterializedBlock>, parent: Option<BlockId>)
    requires
        distinct_ids(blocks),
    ensures
        siblings_ascend(blocks, siblings_of(blocks, parent)),
        forall|j: int|
            0 <= j < blocks.len() ==> (#[trigger] siblings_of(blocks, parent).contains(j)
                <==> blocks[j].parent == parent),
        forall|k: int|
            0 <= k < siblings_of(blocks, parent).len() ==> 0 <= (#[trigger] siblings_of(
                blocks,
                parent,
            )[k]) < blocks.len(),
{
    lemma_siblings_ascend(blocks, parent, blocks.len());
    lemma_siblings_range(blocks, parent, blocks.len());
    let siblings = siblings_of(blocks, parent);
    assert forall|j: int| 0 <= j < blocks.len() implies (#[trigger] siblings.contains(j)
        <==> blocks[j].parent == parent) by {
        if siblings.contains(j) {
            let k = choose|k: int| 0 <= k < siblings.len() && siblings[k] == j;
            assert(blocks[siblings[k]].parent == parent);
        }
    }
}

/// Whether a position starts with another.
pub open spec fn extends(locator: Seq<u32>, prefix: Seq<u32>) -> bool {
    locator.len() >= prefix.len() && locator.take(prefix.len() as int) == prefix
}

/// Whether positions come in outline order.
pub open spec fn locators_ascend(blocks: Seq<DocBlockView>) -> bool {
    forall|k: int, l: int|
        0 <= k < l < blocks.len() ==> words_before(
            (#[trigger] blocks[k]).locator,
            (#[trigger] blocks[l]).locator,
        )
}

/// Positions in a subtree extend that of its top and come in outline order.
proof fn lemma_subtree_order(
    blocks: Seq<MaterializedBlock>,
    format: ProjectionFormat,
    i: int,
    locator: Seq<u32>,
    depth: nat,
)
    requires
        projected_subtree(blocks, format, i, locator, depth) is Ok,
    ensures
        locators_ascend(projected_subtree(blocks, format, i, locator, depth)->Ok_0),
        forall|k: int|
            0 <= k < projected_subtree(blocks, format, i, locator, depth)->Ok_0.len() ==> extends(
                (#[trigger] projected_subtree(blocks, format, i, locator, depth)->Ok_0[k]).locator,
                locator,
            ),
    decreases depth, 0nat,
{
    if depth > 0 {
        let children = siblings_of(blocks, Some(blocks[i].block_id));
        lemma_siblings_order(blocks, format, children, children.len(), locator, (depth - 1) as nat);
        let below = projected_siblings(
            blocks,
            format,
            children,
            children.len(),
            locator,
            (depth - 1) as nat,
        )->Ok_0;
        let all = projected_subtree(blocks, format, i, locator, depth)->Ok_0;
        assert(all.len() == below.len() + 1);
        assert(all[0].locator == locator);
        assert(locator.take(locator.len() as int) =~= locator);
        assert forall|k: int| 0 <= k < below.len() implies all[k + 1] == #[trigger] below[k] by {}
        assert forall|k: int| 0 <= k < all.len() implies extends(
            (#[trigger] all[k]).locator,
            locator,
        ) by {
            if k > 0 {
                assert(all[k] == below[k - 1]);
            }
        }
        assert forall|k: int, l: int| 0 <= k < l < all.len() implies words_before(
            (#[trigger] all[k]).locator,
            (#[trigger] all[l]).locator,
        ) by {
            assert(all[l] == below[l - 1]);
            if k == 0 {
                let longer = all[l].locator;
                assert(longer.len() > locator.len());
                assert forall|m: int| 0 <= m < locator.len() implies #[trigger] locator[m]
                    == longer[m] by {
                    assert(longer.take(locator.len() as int)[m] == longer[m]);
                }
                assert(words_differ_at(locator, longer, locator.len() as int));
            } else {
                assert(all[k] == below[k - 1]);
            }
        }
    }
}

/// Positions of siblings and below them extend the common one by smaller components first.
proof fn lemma_siblings_order(
    blocks: Seq<MaterializedBlock>,
    format: ProjectionFormat,
    siblings: Seq<int>,
    n: nat,
    locator: Seq<u32>,
    depth: nat,
)
    requires
        projected_siblings(blocks, format, siblings, n, locator, depth) is Ok,
    ensures
        locators_ascend(projected_siblings(blocks, format, siblings, n, locator, depth)->Ok_0),
        forall|k: int|
            0 <= k < projected_siblings(blocks, format, siblings, n, locator, depth)->Ok_0.len()
                ==> ({
                let found = (#[trigger] projected_siblings(
                    blocks,
                    format,
                    siblings,
                    n,
                    locator,
                    depth,
                )->Ok_0[k]).locator;
                &&& extends(found, locator)
                &&& found.len() > locator.len()
                &&& found[locator.len() as int] < n
            }),
    decreases depth, n,
{
    if n > 0 {
        let step = locator.push((n - 1) as u32);
        lemma_siblings_order(blocks, format, siblings, (n - 1) as nat, locator, depth);
        lemma_subtree_order(blocks, format, siblings[n - 1], step, depth);
        let before = projected_siblings(
            blocks,
            format,
            siblings,
            (n - 1) as nat,
            locator,
            depth,
        )->Ok_0;
        let subtree = projected_subtree(blocks, format, siblings[n - 1], step, depth)->Ok_0;
        let all = before + subtree;
        assert forall|k: int| 0 <= k < subtree.len() implies ({
            let found = (#[trigger] subtree[k]).locator;
            &&& extends(found, locator)
            &&& found.len() > locator.len()
            &&& found[locator.len() as int] == n - 1
        }) by {
            let found = subtree[k].locator;
            assert(extends(found, step));
            assert(found.take(step.len() as int)[locator.len() as int]
                == found[locator.len() as int]);
            assert(found.take(locator.len() as int) =~= locator) by {
                assert forall|m: int| 0 <= m < locator.len() implies found[m] == locator[m] by {
                    assert(found.take(step.len() as int)[m] == found[m]);
                    assert(step[m] == locator[m]);
                }
            }
        }
        assert forall|k: int| 0 <= k < all.len() implies ({
            let found = (#[trigger] all[k]).locator;
            &&& extends(found, locator)
            &&& found.len() > locator.len()
            &&& found[locator.len() as int] < n
        }) by {
            if k < before.len() {
                assert(all[k] == before[k]);
            } else {
                assert(all[k] == subtree[k - before.len()]);
            }
        }
        assert forall|k: int, l: int| 0 <= k < l < all.len() implies words_before(
            (#[trigger] all[k]).locator,
            (#[trigger] all[l]).locator,
        ) by {
            if l < before.len() {
                assert(all[k] == before[k] && all[l] == before[l]);
            } else if k >= before.len() {
                assert(all[k] == subtree[k - before.len()]);
                assert(all[l] == subtree[l - before.len()]);
            } else {
                assert(all[k] == before[k]);
                assert(all[l] == subtree[l - before.len()]);
                let (x, y) = (before[k].locator, subtree[l - before.len()].locator);
                assert forall|m: int| 0 <= m < locator.len() implies #[trigger] x[m] == y[m] by {
                    assert(x.take(locator.len() as int)[m] == x[m]);
                    assert(y.take(locator.len() as int)[m] == y[m]);
                }
                assert(words_differ_at(x, y, locator.len() as int));
            }
        }
    }
}

/// The blocks of a projected page come in outline order, at strictly increasing positions.
pub proof fn law_document_is_in_outline_order(
    blocks: Seq<MaterializedBlock>,
    format: ProjectionFormat,
)
    requires
        projected_blocks(blocks, format) is Ok,
    ensures
        locators_ascend(projected_blocks(blocks, format)->Ok_0),
{
    let roots = siblings_of(blocks, None);
    lemma_siblings_order(blocks, format, roots, roots.len(), Seq::empty(), blocks.len());
}

/// The index of the parent of block `i`.
spec fn parent_of(blocks: Seq<MaterializedBlock>, i: int) -> int {
    choose|p: int| 0 <= p < blocks.len() && #[trigger] is_child(blocks, p, i)
}

/// Block `i` itself, its parent, the parent of that, and so on.
spec fn ancestor(blocks: Seq<MaterializedBlock>, i: int, k: nat) -> int
    decreases k,
{
    if k == 0 {
        i
    } else {
        parent_of(blocks, ancestor(blocks, i, (k - 1) as nat))
    }
}

/// Whether block `i` reaches a root in exactly `k` steps.
spec fn has_depth(blocks: Seq<MaterializedBlock>, i: int, k: nat) -> bool
    decreases k,
{
    if k == 0 {
        blocks[i].parent is None
    } else {
        blocks[i].parent is Some && has_depth(blocks, parent_of(blocks, i), (k - 1) as nat)
    }
}

/// A forest: identities are distinct, parents are there, and every block hangs below a root.
spec fn is_forest(blocks: Seq<MaterializedBlock>) -> bool {
    &&& distinct_ids(blocks)
    &&& forall|i: int|
        0 <= i < blocks.len() && (#[trigger] blocks[i]).parent is Some ==> has_block(
            blocks,
            blocks[i].parent->0,
        )
    &&& forall|i: int| 0 <= i < blocks.len() ==> #[trigger] is_rooted(blocks, i)
}

/// Blocks without a fault are a forest.
proof fn lemma_is_forest(blocks: Seq<MaterializedBlock>)
    requires
        forest_fault(blocks) is None,
    ensures
        is_forest(blocks),
{
    lemma_blocks_distinct(blocks, blocks.len());
    assert forall|i: int|
        0 <= i < blocks.len() && (#[trigger] blocks[i]).parent is Some implies has_block(
        blocks,
        blocks[i].parent->0,
    ) by {
        lemma_parents(blocks, blocks.len(), i);
    }
    assert forall|i: int| 0 <= i < blocks.len() implies #[trigger] is_rooted(blocks, i) by {
        lemma_all_rooted(blocks, 0, i);
    }
}

/// A block with a parent has exactly one.
proof fn lemma_parent_unique(blocks: Seq<MaterializedBlock>, i: int)
    requires
        distinct_ids(blocks),
        0 <= i < blocks.len(),
        blocks[i].parent is Some,
        has_block(blocks, blocks[i].parent->0),
    ensures
        0 <= parent_of(blocks, i) < blocks.len(),
        is_child(blocks, parent_of(blocks, i), i),
        forall|p: int|
            0 <= p < blocks.len() && #[trigger] is_child(blocks, p, i) ==> p == parent_of(
                blocks,
                i,
            ),
{
    let j = choose|j: int|
        0 <= j < blocks.len() && (#[trigger] blocks[j]).block_id == blocks[i].parent->0;
    assert(is_child(blocks, j, i));
    let q = parent_of(blocks, i);
    assert forall|p: int| 0 <= p < blocks.len() && #[trigger] is_child(blocks, p, i) implies p
        == q by {
        if p < q {
            assert(blocks[p].block_id != blocks[q].block_id);
        } else if q < p {
            assert(blocks[q].block_id != blocks[p].block_id);
        }
    }
}

/// A block that hangs below a root has a depth.
proof fn lemma_depth_exists(blocks: Seq<MaterializedBlock>, i: int, steps: nat)
    requires
        is_forest(blocks),
        0 <= i < blocks.len(),
        rooted_within(blocks, i, steps),
    ensures
        exists|k: nat| has_depth(blocks, i, k),
    decreases steps,
{
    if blocks[i].parent is None {
        assert(has_depth(blocks, i, 0));
    } else {
        lemma_parent_unique(blocks, i);
        let p = choose|p: int|
            0 <= p < blocks.len() && #[trigger] is_child(blocks, p, i) && rooted_within(
                blocks,
                p,
                (steps - 1) as nat,
            );
        lemma_depth_exists(blocks, p, (steps - 1) as nat);
        let k = choose|k: nat| has_depth(blocks, p, k);
        assert(has_depth(blocks, i, k + 1));
    }
}

/// A block has one depth only.
proof fn lemma_depth_unique(blocks: Seq<MaterializedBlock>, i: int, k: nat, l: nat)
    requires
        has_depth(blocks, i, k),
        has_depth(blocks, i, l),
    ensures
        k == l,
    decreases k,
{
    if k > 0 && l > 0 {
        lemma_depth_unique(blocks, parent_of(blocks, i), (k - 1) as nat, (l - 1) as nat);
    }
}

/// The ancestors of a block are blocks of decreasing depth.
proof fn lemma_ancestors(blocks: Seq<MaterializedBlock>, i: int, d: nat, k: nat)
    requires
        is_forest(blocks),
        0 <= i < blocks.len(),
        has_depth(blocks, i, d),
        k <= d,
    ensures
        0 <= ancestor(blocks, i, k) < blocks.len(),
        has_depth(blocks, ancestor(blocks, i, k), (d - k) as nat),
    decreases k,
{
    if k > 0 {
        lemma_ancestors(blocks, i, d, (k - 1) as nat);
        let below = ancestor(blocks, i, (k - 1) as nat);
        lemma_parent_unique(blocks, below);
    }
}

/// A block in a forest of `n` blocks is less than `n` steps from its root.
proof fn lemma_depth_bound(blocks: Seq<MaterializedBlock>, i: int, d: nat)
    requires
        is_forest(blocks),
        0 <= i < blocks.len(),
        has_depth(blocks, i, d),
    ensures
        d < blocks.len(),
{
    let chain = Seq::new(d + 1, |k: int| ancestor(blocks, i, k as nat));
    assert forall|a: int, b: int| 0 <= a < chain.len() && 0 <= b < chain.len() && a
        != b implies chain[a] != chain[b] by {
        lemma_ancestors(blocks, i, d, a as nat);
        lemma_ancestors(blocks, i, d, b as nat);
        if chain[a] == chain[b] {
            lemma_depth_unique(blocks, chain[a], (d - a) as nat, (d - b) as nat);
        }
    }
    assert(chain.no_duplicates());
    assert forall|k: int| 0 <= k < chain.len() implies 0 <= #[trigger] chain[k] < blocks.len() by {
        lemma_ancestors(blocks, i, d, k as nat);
    }
    lemma_distinct_in_range(chain, blocks.len());
}

/// Distinct numbers below `n` are at most `n` in number; if there are `n`, each number occurs.
proof fn lemma_distinct_in_range(numbers: Seq<int>, n: nat)
    requires
        numbers.no_duplicates(),
        forall|k: int| 0 <= k < numbers.len() ==> 0 <= #[trigger] numbers[k] < n,
    ensures
        numbers.len() <= n,
{
    numbers.unique_seq_to_set();
    vstd::set_lib::lemma_int_range(0, n as int);
    assert(numbers.to_set().subset_of(vstd::set_lib::set_int_range(0, n as int)));
    vstd::set_lib::lemma_len_subset(
        numbers.to_set(),
        vstd::set_lib::set_int_range(0, n as int),
    );
}

/// Distinct numbers below `n` among which every number below `n` occurs are `n` in number.
proof fn lemma_all_in_range(numbers: Seq<int>, n: nat)
    requires
        numbers.no_duplicates(),
        forall|k: int| 0 <= k < numbers.len() ==> 0 <= #[trigger] numbers[k] < n,
        forall|x: int| 0 <= x < n ==> numbers.contains(x),
    ensures
        numbers.len() == n,
{
    numbers.unique_seq_to_set();
    vstd::set_lib::lemma_int_range(0, n as int);
    assert(numbers.to_set() =~= vstd::set_lib::set_int_range(0, n as int));
}

/// Block `i` and everything below it, as indexes.
spec fn subtree_indexes(blocks: Seq<MaterializedBlock>, i: int, depth: nat) -> Seq<int>
    decreases depth, 0nat,
{
    if depth == 0 {
        Seq::empty()
    } else {
        let children = siblings_of(blocks, Some(blocks[i].block_id));
        seq![i] + siblings_indexes(blocks, children, children.len(), (depth - 1) as nat)
    }
}

/// The first `n` siblings and everything below them, as indexes.
spec fn siblings_indexes(
    blocks: Seq<MaterializedBlock>,
    siblings: Seq<int>,
    n: nat,
    depth: nat,
) -> Seq<int>
    decreases depth, n,
{
    if n == 0 {
        Seq::empty()
    } else {
        siblings_indexes(blocks, siblings, (n - 1) as nat, depth) + subtree_indexes(
            blocks,
            siblings[n - 1],
            depth,
        )
    }
}

/// A projected subtree holds the blocks of its indexes.
proof fn lemma_subtree_ids(
    blocks: Seq<MaterializedBlock>,
    format: ProjectionFormat,
    i: int,
    locator: Seq<u32>,
    depth: nat,
)
    requires
        projected_subtree(blocks, format, i, locator, depth) is Ok,
    ensures
        projected_subtree(blocks, format, i, locator, depth)->Ok_0.len() == subtree_indexes(
            blocks,
            i,
            depth,
        ).len(),
        forall|k: int|
            0 <= k < subtree_indexes(blocks, i, depth).len() ==> (#[trigger] projected_subtree(
                blocks,
                format,
                i,
                locator,
                depth,
            )->Ok_0[k]).block_id == blocks[subtree_indexes(blocks, i, depth)[k]].block_id,
        forall|k: int|
            0 <= k < subtree_indexes(blocks, i, depth).len() ==> (#[trigger] projected_subtree(
                blocks,
                format,
                i,
                locator,
                depth,
            )->Ok_0[k]).logseq_uuid == blocks[subtree_indexes(blocks, i, depth)[k]].logseq_uuid,
    decreases depth, 0nat,
{
    if depth > 0 {
        let children = siblings_of(blocks, Some(blocks[i].block_id));
        lemma_siblings_ids(blocks, format, children, children.len(), locator, (depth - 1) as nat);
        let below = projected_siblings(
            blocks,
            format,
            children,
            children.len(),
            locator,
            (depth - 1) as nat,
        )->Ok_0;
        let indexes = siblings_indexes(blocks, children, children.len(), (depth - 1) as nat);
        let all = projected_subtree(blocks, format, i, locator, depth)->Ok_0;
        assert forall|k: int| 0 <= k < subtree_indexes(blocks, i, depth).len() implies (
        #[trigger] all[k]).block_id == blocks[subtree_indexes(blocks, i, depth)[k]].block_id
            && all[k].logseq_uuid == blocks[subtree_indexes(
            blocks,
            i,
            depth,
        )[k]].logseq_uuid by {
            if k > 0 {
                assert(all[k] == below[k - 1]);
                assert(subtree_indexes(blocks, i, depth)[k] == indexes[k - 1]);
            }
        }
    }
}

/// Projected siblings hold the blocks of their indexes.
proof fn lemma_siblings_ids(
    blocks: Seq<MaterializedBlock>,
    format: ProjectionFormat,
    siblings: Seq<int>,
    n: nat,
    locator: Seq<u32>,
    depth: nat,
)
    requires
        projected_siblings(blocks, format, siblings, n, locator, depth) is Ok,
    ensures
        projected_siblings(blocks, format, siblings, n, locator, depth)->Ok_0.len()
            == siblings_indexes(blocks, siblings, n, depth).len(),
        forall|k: int|
            0 <= k < siblings_indexes(blocks, siblings, n, depth).len() ==> (
            #[trigger] projected_siblings(
                blocks,
                format,
                siblings,
                n,
                locator,
                depth,
            )->Ok_0[k]).block_id == blocks[siblings_indexes(
                blocks,
                siblings,
                n,
                depth,
            )[k]].block_id,
        forall|k: int|
            0 <= k < siblings_indexes(blocks, siblings, n, depth).len() ==> (
            #[trigger] projected_siblings(
                blocks,
                format,
                siblings,
                n,
                locator,
                depth,
            )->Ok_0[k]).logseq_uuid == blocks[siblings_indexes(
                blocks,
                siblings,
                n,
                depth,
            )[k]].logseq_uuid,
    decreases depth, n,
{
    if n > 0 {
        let step = locator.push((n - 1) as u32);
        lemma_siblings_ids(blocks, format, siblings, (n - 1) as nat, locator, depth);
        lemma_subtree_ids(blocks, format, siblings[n - 1], step, depth);
        let before = projected_siblings(
            blocks,
            format,
            siblings,
            (n - 1) as nat,
            locator,
            depth,
        )->Ok_0;
        let subtree = projected_subtree(blocks, format, siblings[n - 1], step, depth)->Ok_0;
        let x = siblings_indexes(blocks, siblings, (n - 1) as nat, depth);
        let y = subtree_indexes(blocks, siblings[n - 1], depth);
        let all = before + subtree;
        assert forall|k: int| 0 <= k < (x + y).len() implies (#[trigger] all[k]).block_id
            == blocks[(x + y)[k]].block_id && all[k].logseq_uuid == blocks[(x
            + y)[k]].logseq_uuid by {
            if k < before.len() {
                assert(all[k] == before[k]);
                assert((x + y)[k] == x[k]);
            } else {
                assert(all[k] == subtree[k - before.len()]);
                assert((x + y)[k] == y[k - x.len()]);
            }
        }
    }
}

/// The indexes of a subtree are distinct blocks whose ancestor at the top's depth is the top.
proof fn lemma_subtree_members(blocks: Seq<MaterializedBlock>, i: int, d: nat, depth: nat)
    requires
        is_forest(blocks),
        0 <= i < blocks.len(),
        has_depth(blocks, i, d),
    ensures
        subtree_indexes(blocks, i, depth).no_duplicates(),
        forall|x: int| #[trigger]
            subtree_indexes(blocks, i, depth).contains(x) ==> 0 <= x < blocks.len() && exists|k: nat|
                k < depth && has_depth(blocks, x, d + k) && #[trigger] ancestor(blocks, x, k) == i,
        forall|x: int, k: nat|
            0 <= x < blocks.len() && k < depth && has_depth(blocks, x, d + k)
                && #[trigger] ancestor(blocks, x, k) == i ==> subtree_indexes(
                blocks,
                i,
                depth,
            ).contains(x),
    decreases depth, 0nat,
{
    let all = subtree_indexes(blocks, i, depth);
    if depth > 0 {
        let children = siblings_of(blocks, Some(blocks[i].block_id));
        let rest = (depth - 1) as nat;
        lemma_children(blocks, i, d);
        lemma_siblings_members(blocks, i, children.len(), d, rest);
        let below = siblings_indexes(blocks, children, children.len(), rest);
        assert(all =~= seq![i] + below);
        assert forall|x: int| #[trigger] all.contains(x) implies 0 <= x < blocks.len()
            && exists|k: nat|
            k < depth && has_depth(blocks, x, d + k) && #[trigger] ancestor(blocks, x, k) == i by {
            let at = choose|at: int| 0 <= at < all.len() && all[at] == x;
            if at == 0 {
                assert(ancestor(blocks, x, 0) == i);
            } else {
                assert(below[at - 1] == x);
                assert(below.contains(x));
                let k = choose|k: nat|
                    k < rest && has_depth(blocks, x, d + 1 + k) && #[trigger] ancestor(
                        blocks,
                        x,
                        k + 1,
                    ) == i;
                assert(ancestor(blocks, x, k + 1) == i);
            }
        }
        assert forall|x: int, k: nat|
            0 <= x < blocks.len() && k < depth && has_depth(blocks, x, d + k)
                && #[trigger] ancestor(blocks, x, k) == i implies all.contains(x) by {
            if k == 0 {
                assert(all[0] == x);
            } else {
                let m = (k - 1) as nat;
                assert(ancestor(blocks, x, m + 1) == i);
                assert(below.contains(x));
                let at = choose|at: int| 0 <= at < below.len() && below[at] == x;
                assert(all[at + 1] == x);
            }
        }
        assert forall|a: int, b: int| 0 <= a < all.len() && 0 <= b < all.len() && a
            != b implies all[a] != all[b] by {
            if a == 0 || b == 0 {
                let other = if a == 0 {
                    b
                } else {
                    a
                };
                assert(below[other - 1] == all[other]);
                assert(below.contains(all[other]));
                let x = all[other];
                let k = choose|k: nat|
                    k < rest && has_depth(blocks, x, d + 1 + k) && #[trigger] ancestor(
                        blocks,
                        x,
                        k + 1,
                    ) == i;
                if x == i {
                    lemma_depth_unique(blocks, i, d, d + 1 + k);
                }
            } else {
                assert(below[a - 1] == all[a] && below[b - 1] == all[b]);
            }
        }
    }
}

/// The children of a block are the blocks one step deeper with it as parent.
proof fn lemma_children(blocks: Seq<MaterializedBlock>, i: int, d: nat)
    requires
        is_forest(blocks),
        0 <= i < blocks.len(),
        has_depth(blocks, i, d),
    ensures
        forall|k: int|
            0 <= k < siblings_of(blocks, Some(blocks[i].block_id)).len() ==> ({
                let c = #[trigger] siblings_of(blocks, Some(blocks[i].block_id))[k];
                &&& 0 <= c < blocks.len()
                &&& has_depth(blocks, c, d + 1)
                &&& parent_of(blocks, c) == i
            }),
{
    let children = siblings_of(blocks, Some(blocks[i].block_id));
    lemma_siblings_range(blocks, Some(blocks[i].block_id), blocks.len());
    assert forall|k: int| 0 <= k < children.len() implies ({
        let c = #[trigger] children[k];
        &&& 0 <= c < blocks.len()
        &&& has_depth(blocks, c, d + 1)
        &&& parent_of(blocks, c) == i
    }) by {
        let c = children[k];
        assert(is_child(blocks, i, c));
        lemma_parent_unique(blocks, c);
    }
}

/// Siblings occur once each.
proof fn lemma_siblings_distinct(blocks: Seq<MaterializedBlock>, parent: Option<BlockId>)
    requires
        distinct_ids(blocks),
    ensures
        siblings_of(blocks, parent).no_duplicates(),
{
    let siblings = siblings_of(blocks, parent);
    law_siblings_are_ordered(blocks, parent);
    assert forall|a: int, b: int| 0 <= a < siblings.len() && 0 <= b < siblings.len() && a
        != b implies siblings[a] != siblings[b] by {
        if siblings[a] == siblings[b] {
            let (lo, hi) = if a < b {
                (a, b)
            } else {
                (b, a)
            };
            assert(sibling_before(blocks[siblings[lo]], blocks[siblings[hi]]));
            lemma_not_before_itself(blocks[siblings[lo]]);
        }
    }
}

/// No block comes before itself.
proof fn lemma_not_before_itself(a: MaterializedBlock)
    ensures
        !sibling_before(a, a),
{
    let x = vstd::utf8::encode_utf8(a.order@);
    if bytes_before(x, x) {
        lemma_bytes_asymmetric(x, x);
    }
}

/// The step from an ancestor to the one above it.
proof fn lemma_ancestor_step(blocks: Seq<MaterializedBlock>, x: int, k: nat)
    ensures
        ancestor(blocks, x, k + 1) == parent_of(blocks, ancestor(blocks, x, k)),
{
}

/// The indexes below the first children of block `i` are distinct blocks whose ancestor one step
/// above the children's depth is block `i`; below all children there is every such block.
proof fn lemma_siblings_members(
    blocks: Seq<MaterializedBlock>,
    i: int,
    n: nat,
    d: nat,
    depth: nat,
)
    requires
        is_forest(blocks),
        0 <= i < blocks.len(),
        has_depth(blocks, i, d),
        n <= siblings_of(blocks, Some(blocks[i].block_id)).len(),
    ensures
        ({
            let children = siblings_of(blocks, Some(blocks[i].block_id));
            let all = siblings_indexes(blocks, children, n, depth);
            &&& all.no_duplicates()
            &&& forall|x: int| #[trigger]
                all.contains(x) ==> 0 <= x < blocks.len() && (exists|k: nat|
                    k < depth && has_depth(blocks, x, d + 1 + k) && #[trigger] ancestor(
                        blocks,
                        x,
                        k + 1,
                    ) == i) && (exists|m: int, k: nat|
                    0 <= m < n && k < depth && has_depth(blocks, x, d + 1 + k)
                        && #[trigger] ancestor(blocks, x, k) == #[trigger] children[m])
            &&& forall|x: int, m: int, k: nat|
                0 <= x < blocks.len() && 0 <= m < n && k < depth && has_depth(blocks, x, d + 1 + k)
                    && #[trigger] ancestor(blocks, x, k) == #[trigger] children[m] ==> all.contains(
                    x,
                )
        }),
        n == siblings_of(blocks, Some(blocks[i].block_id)).len() ==> forall|x: int, k: nat|
            0 <= x < blocks.len() && k < depth && has_depth(blocks, x, d + 1 + k)
                && #[trigger] ancestor(blocks, x, k + 1) == i ==> siblings_indexes(
                blocks,
                siblings_of(blocks, Some(blocks[i].block_id)),
                n,
                depth,
            ).contains(x),
    decreases depth, n + 1,
{
    let children = siblings_of(blocks, Some(blocks[i].block_id));
    let all = siblings_indexes(blocks, children, n, depth);
    lemma_children(blocks, i, d);
    lemma_siblings_distinct(blocks, Some(blocks[i].block_id));
    if n > 0 {
        let c = children[n - 1];
        lemma_siblings_members(blocks, i, (n - 1) as nat, d, depth);
        lemma_subtree_members(blocks, c, d + 1, depth);
        let before = siblings_indexes(blocks, children, (n - 1) as nat, depth);
        let subtree = subtree_indexes(blocks, c, depth);
        assert(all =~= before + subtree);
        assert forall|x: int| #[trigger] all.contains(x) implies 0 <= x < blocks.len() && (exists|
            k: nat,
        |
            k < depth && has_depth(blocks, x, d + 1 + k) && #[trigger] ancestor(blocks, x, k + 1)
                == i) && (exists|m: int, k: nat|
            0 <= m < n && k < depth && has_depth(blocks, x, d + 1 + k) && #[trigger] ancestor(
                blocks,
                x,
                k,
            ) == #[trigger] children[m]) by {
            let at = choose|at: int| 0 <= at < all.len() && all[at] == x;
            if at < before.len() {
                assert(before[at] == x);
                assert(before.contains(x));
                let (m, k) = choose|m: int, k: nat|
                    0 <= m < n - 1 && k < depth && has_depth(blocks, x, d + 1 + k)
                        && #[trigger] ancestor(blocks, x, k) == #[trigger] children[m];
                assert(ancestor(blocks, x, k) == children[m]);
            } else {
                assert(subtree[at - before.len()] == x);
                assert(subtree.contains(x));
                let k = choose|k: nat|
                    k < depth && has_depth(blocks, x, d + 1 + k) && #[trigger] ancestor(
                        blocks,
                        x,
                        k,
                    ) == c;
                lemma_ancestor_step(blocks, x, k);
                assert(ancestor(blocks, x, k + 1) == i);
                assert(ancestor(blocks, x, k) == children[n - 1]);
            }
        }
        assert forall|x: int, m: int, k: nat|
            0 <= x < blocks.len() && 0 <= m < n && k < depth && has_depth(blocks, x, d + 1 + k)
                && #[trigger] ancestor(blocks, x, k) == #[trigger] children[m] implies all.contains(
            x,
        ) by {
            if m < n - 1 {
                assert(before.contains(x));
                let at = choose|at: int| 0 <= at < before.len() && before[at] == x;
                assert(all[at] == x);
            } else {
                assert(subtree.contains(x));
                let at = choose|at: int| 0 <= at < subtree.len() && subtree[at] == x;
                assert(all[before.len() + at] == x);
            }
        }
        assert forall|a: int, b: int| 0 <= a < all.len() && 0 <= b < all.len() && a
            != b implies all[a] != all[b] by {
            if a < before.len() && b < before.len() {
                assert(all[a] == before[a] && all[b] == before[b]);
            } else if a >= before.len() && b >= before.len() {
                assert(all[a] == subtree[a - before.len()]);
                assert(all[b] == subtree[b - before.len()]);
            } else {
                let (lo, hi) = if a < b {
                    (a, b)
                } else {
                    (b, a)
                };
                if all[lo] == all[hi] {
                    let x = all[lo];
                    assert(before[lo] == x);
                    assert(before.contains(x));
                    assert(subtree[hi - before.len()] == x);
                    assert(subtree.contains(x));
                    let (m, k) = choose|m: int, k: nat|
                        0 <= m < n - 1 && k < depth && has_depth(blocks, x, d + 1 + k)
                            && #[trigger] ancestor(blocks, x, k) == #[trigger] children[m];
                    let l = choose|l: nat|
                        l < depth && has_depth(blocks, x, d + 1 + l) && #[trigger] ancestor(
                            blocks,
                            x,
                            l,
                        ) == c;
                    lemma_depth_unique(blocks, x, d + 1 + k, d + 1 + l);
                    assert(children[m] == children[n - 1]);
                }
            }
        }
    }
    if n == children.len() {
        assert forall|x: int, k: nat|
            0 <= x < blocks.len() && k < depth && has_depth(blocks, x, d + 1 + k)
                && #[trigger] ancestor(blocks, x, k + 1) == i implies all.contains(x) by {
            lemma_ancestor_step(blocks, x, k);
            lemma_ancestors(blocks, x, d + 1 + k, k);
            let c = ancestor(blocks, x, k);
            lemma_parent_unique(blocks, c);
            assert(is_child(blocks, i, c));
            lemma_siblings_range(blocks, Some(blocks[i].block_id), blocks.len());
            assert(children.contains(c));
            let m = choose|m: int| 0 <= m < children.len() && children[m] == c;
            assert(ancestor(blocks, x, k) == children[m]);
        }
    }
}

/// The indexes of the first roots and everything below them are distinct, and with all roots every
/// block is among them.
proof fn lemma_roots_members(blocks: Seq<MaterializedBlock>, n: nat, depth: nat)
    requires
        is_forest(blocks),
        n <= siblings_of(blocks, None).len(),
    ensures
        ({
            let roots = siblings_of(blocks, None);
            let all = siblings_indexes(blocks, roots, n, depth);
            &&& all.no_duplicates()
            &&& forall|x: int| #[trigger]
                all.contains(x) ==> 0 <= x < blocks.len() && exists|m: int, k: nat|
                    0 <= m < n && k < depth && has_depth(blocks, x, k) && #[trigger] ancestor(
                        blocks,
                        x,
                        k,
                    ) == #[trigger] roots[m]
            &&& forall|x: int, m: int, k: nat|
                0 <= x < blocks.len() && 0 <= m < n && k < depth && has_depth(blocks, x, k)
                    && #[trigger] ancestor(blocks, x, k) == #[trigger] roots[m] ==> all.contains(x)
        }),
    decreases n,
{
    let roots = siblings_of(blocks, None);
    let all = siblings_indexes(blocks, roots, n, depth);
    lemma_siblings_distinct(blocks, None);
    lemma_siblings_range(blocks, None, blocks.len());
    if n > 0 {
        let c = roots[n - 1];
        assert(has_depth(blocks, c, 0));
        lemma_roots_members(blocks, (n - 1) as nat, depth);
        lemma_subtree_members(blocks, c, 0, depth);
        let before = siblings_indexes(blocks, roots, (n - 1) as nat, depth);
        let subtree = subtree_indexes(blocks, c, depth);
        assert(all =~= before + subtree);
        assert forall|x: int| #[trigger] all.contains(x) implies 0 <= x < blocks.len() && exists|
            m: int,
            k: nat,
        |
            0 <= m < n && k < depth && has_depth(blocks, x, k) && #[trigger] ancestor(blocks, x, k)
                == #[trigger] roots[m] by {
            let at = choose|at: int| 0 <= at < all.len() && all[at] == x;
            if at < before.len() {
                assert(before[at] == x);
                assert(before.contains(x));
                let (m, k) = choose|m: int, k: nat|
                    0 <= m < n - 1 && k < depth && has_depth(blocks, x, k) && #[trigger] ancestor(
                        blocks,
                        x,
                        k,
                    ) == #[trigger] roots[m];
                assert(ancestor(blocks, x, k) == roots[m]);
            } else {
                assert(subtree[at - before.len()] == x);
                assert(subtree.contains(x));
                let k = choose|k: nat|
                    k < depth && has_depth(blocks, x, 0 + k) && #[trigger] ancestor(blocks, x, k)
                        == c;
                assert(ancestor(blocks, x, k) == roots[n - 1]);
            }
        }
        assert forall|x: int, m: int, k: nat|
            0 <= x < blocks.len() && 0 <= m < n && k < depth && has_depth(blocks, x, k)
                && #[trigger] ancestor(blocks, x, k) == #[trigger] roots[m] implies all.contains(
            x,
        ) by {
            if m < n - 1 {
                assert(before.contains(x));
                let at = choose|at: int| 0 <= at < before.len() && before[at] == x;
                assert(all[at] == x);
            } else {
                assert(has_depth(blocks, x, 0 + k));
                assert(subtree.contains(x));
                let at = choose|at: int| 0 <= at < subtree.len() && subtree[at] == x;
                assert(all[before.len() + at] == x);
            }
        }
        assert forall|a: int, b: int| 0 <= a < all.len() && 0 <= b < all.len() && a
            != b implies all[a] != all[b] by {
            if a < before.len() && b < before.len() {
                assert(all[a] == before[a] && all[b] == before[b]);
            } else if a >= before.len() && b >= before.len() {
                assert(all[a] == subtree[a - before.len()]);
                assert(all[b] == subtree[b - before.len()]);
            } else {
                let (lo, hi) = if a < b {
                    (a, b)
                } else {
                    (b, a)
                };
                if all[lo] == all[hi] {
                    let x = all[lo];
                    assert(before[lo] == x);
                    assert(before.contains(x));
                    assert(subtree[hi - before.len()] == x);
                    assert(subtree.contains(x));
                    let (m, k) = choose|m: int, k: nat|
                        0 <= m < n - 1 && k < depth && has_depth(blocks, x, k)
                            && #[trigger] ancestor(blocks, x, k) == #[trigger] roots[m];
                    let l = choose|l: nat|
                        l < depth && has_depth(blocks, x, 0 + l) && #[trigger] ancestor(
                            blocks,
                            x,
                            l,
                        ) == c;
                    lemma_depth_unique(blocks, x, k, l);
                    assert(roots[m] == roots[n - 1]);
                }
            }
        }
    }
}

/// Where no identity is faulty, that of block `i` is not.
pub proof fn lemma_identity_at(blocks: Seq<MaterializedBlock>, n: nat, i: int)
    requires
        0 <= i < n,
        crate::document::identities_fault(blocks, n) is None,
    ensures
        crate::document::identity_fault(blocks, i) is None,
    decreases n,
{
    if i < n - 1 {
        lemma_identity_at(blocks, (n - 1) as nat, i);
    }
}

/// No two blocks of a projected page carry the same written identity.
pub proof fn law_written_identities_are_distinct(
    blocks: Seq<MaterializedBlock>,
    format: ProjectionFormat,
)
    requires
        projected_blocks(blocks, format) is Ok,
    ensures
        forall|k: int, l: int|
            0 <= k < l < projected_blocks(blocks, format)->Ok_0.len() && (
            #[trigger] projected_blocks(blocks, format)->Ok_0[k]).logseq_uuid is Some ==> (
            projected_blocks(blocks, format)->Ok_0[k]).logseq_uuid != (#[trigger] projected_blocks(
                blocks,
                format,
            )->Ok_0[l]).logseq_uuid,
{
    let roots = siblings_of(blocks, None);
    let depth = blocks.len();
    let indexes = siblings_indexes(blocks, roots, roots.len(), depth);
    let document = projected_blocks(blocks, format)->Ok_0;
    lemma_is_forest(blocks);
    lemma_siblings_ids(blocks, format, roots, roots.len(), Seq::empty(), depth);
    lemma_roots_members(blocks, roots.len(), depth);
    assert forall|k: int, l: int| 0 <= k < l < document.len() && (
    #[trigger] document[k]).logseq_uuid is Some implies (document[k]).logseq_uuid != (
    #[trigger] document[l]).logseq_uuid by {
        let (x, y) = (indexes[k], indexes[l]);
        assert(indexes.contains(x) && indexes.contains(y));
        assert(x != y);
        lemma_identity_at(blocks, blocks.len(), x);
        lemma_identity_at(blocks, blocks.len(), y);
        assert(document[k].logseq_uuid == blocks[x].logseq_uuid);
        assert(document[l].logseq_uuid == blocks[y].logseq_uuid);
    }
}

/// A projected page holds every block of the page exactly once.
pub proof fn law_every_block_is_projected_once(
    blocks: Seq<MaterializedBlock>,
    format: ProjectionFormat,
)
    requires
        projected_blocks(blocks, format) is Ok,
    ensures
        projected_blocks(blocks, format)->Ok_0.len() == blocks.len(),
        forall|i: int|
            0 <= i < blocks.len() ==> exists|k: int|
                0 <= k < blocks.len() && (#[trigger] projected_blocks(
                    blocks,
                    format,
                )->Ok_0[k]).block_id == (#[trigger] blocks[i]).block_id,
        forall|k: int, l: int|
            0 <= k < l < blocks.len() ==> (#[trigger] projected_blocks(
                blocks,
                format,
            )->Ok_0[k]).block_id != (#[trigger] projected_blocks(blocks, format)->Ok_0[l]).block_id,
{
    let roots = siblings_of(blocks, None);
    let depth = blocks.len();
    let indexes = siblings_indexes(blocks, roots, roots.len(), depth);
    let document = projected_blocks(blocks, format)->Ok_0;
    lemma_is_forest(blocks);
    lemma_siblings_ids(blocks, format, roots, roots.len(), Seq::empty(), depth);
    lemma_roots_members(blocks, roots.len(), depth);
    lemma_siblings_range(blocks, None, blocks.len());
    assert forall|x: int| 0 <= x < blocks.len() implies indexes.contains(x) by {
        assert(is_rooted(blocks, x));
        let steps = choose|steps: nat| rooted_within(blocks, x, steps);
        lemma_depth_exists(blocks, x, steps);
        let d = choose|d: nat| has_depth(blocks, x, d);
        lemma_depth_bound(blocks, x, d);
        lemma_ancestors(blocks, x, d, d);
        let top = ancestor(blocks, x, d);
        assert(blocks[top].parent is None);
        assert(roots.contains(top));
        let m = choose|m: int| 0 <= m < roots.len() && roots[m] == top;
        assert(ancestor(blocks, x, d) == roots[m]);
    }
    assert forall|k: int| 0 <= k < indexes.len() implies 0 <= #[trigger] indexes[k]
        < blocks.len() by {
        assert(indexes.contains(indexes[k]));
    }
    lemma_all_in_range(indexes, blocks.len());
    assert forall|i: int| 0 <= i < blocks.len() implies exists|k: int|
        0 <= k < blocks.len() && (#[trigger] document[k]).block_id == (
        #[trigger] blocks[i]).block_id by {
        assert(indexes.contains(i));
        let k = choose|k: int| 0 <= k < indexes.len() && indexes[k] == i;
        assert(document[k].block_id == blocks[i].block_id);
    }
    assert forall|k: int, l: int| 0 <= k < l < blocks.len() implies (
    #[trigger] document[k]).block_id != (#[trigger] document[l]).block_id by {
        let (x, y) = (indexes[k], indexes[l]);
        assert(x != y);
        if x < y {
            assert(blocks[x].block_id != blocks[y].block_id);
        } else {
            assert(blocks[y].block_id != blocks[x].block_id);
        }
    }
}

} // verus!
