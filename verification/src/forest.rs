//! The hierarchy of a page's blocks: who is whose child, in which order, and whether the blocks
//! form a forest at all.

use std::collections::HashMap;

use vstd::prelude::*;

use crate::error::ProjectionError;
use crate::ids::BlockId;
use crate::order::{bytes_before, bytes_in_order};
use crate::page::MaterializedBlock;
use crate::text::same_text;

verus! {

broadcast use vstd::std_specs::hash::group_hash_axioms;

/// What is wrong with block `i` by itself: its identity is taken, or it has no order key.
pub open spec fn block_fault(blocks: Seq<MaterializedBlock>, i: int) -> Option<ProjectionError> {
    if exists|j: int| 0 <= j < i && (#[trigger] blocks[j]).block_id == blocks[i].block_id {
        Some(ProjectionError::DuplicateBlock(blocks[i].block_id))
    } else if blocks[i].order@.len() == 0 {
        Some(ProjectionError::EmptyOrder(blocks[i].block_id))
    } else {
        None
    }
}

/// What is wrong with the first block, among the first `n`, that is faulty by itself.
pub open spec fn blocks_fault(blocks: Seq<MaterializedBlock>, n: nat) -> Option<ProjectionError>
    decreases n,
{
    if n == 0 {
        None
    } else {
        match blocks_fault(blocks, (n - 1) as nat) {
            Some(error) => Some(error),
            None => block_fault(blocks, n - 1),
        }
    }
}

/// Whether some block has the given identity.
pub open spec fn has_block(blocks: Seq<MaterializedBlock>, id: BlockId) -> bool {
    exists|j: int| 0 <= j < blocks.len() && (#[trigger] blocks[j]).block_id == id
}

/// What is wrong with the parent of block `i`: it is the block itself, or it is not there.
pub open spec fn parent_fault(blocks: Seq<MaterializedBlock>, i: int) -> Option<ProjectionError> {
    match blocks[i].parent {
        None => None,
        Some(parent) => if parent == blocks[i].block_id {
            Some(ProjectionError::CyclicTree(blocks[i].block_id))
        } else if !has_block(blocks, parent) {
            Some(ProjectionError::MissingParent { block: blocks[i].block_id, parent })
        } else {
            None
        },
    }
}

/// What is wrong with the first block, among the first `n`, that has a faulty parent.
pub open spec fn parents_fault(blocks: Seq<MaterializedBlock>, n: nat) -> Option<ProjectionError>
    decreases n,
{
    if n == 0 {
        None
    } else {
        match parents_fault(blocks, (n - 1) as nat) {
            Some(error) => Some(error),
            None => parent_fault(blocks, n - 1),
        }
    }
}

/// Whether block `j` is a child of block `i`.
pub open spec fn is_child(blocks: Seq<MaterializedBlock>, i: int, j: int) -> bool {
    blocks[j].parent == Some(blocks[i].block_id)
}

/// Whether going from block `i` to its parent at most `steps` times leads to a root.
pub open spec fn rooted_within(blocks: Seq<MaterializedBlock>, i: int, steps: nat) -> bool
    decreases steps,
{
    blocks[i].parent is None || (steps > 0 && exists|p: int|
        0 <= p < blocks.len() && #[trigger] is_child(blocks, p, i) && rooted_within(
            blocks,
            p,
            (steps - 1) as nat,
        ))
}

/// Whether block `i` hangs below a root.
pub open spec fn is_rooted(blocks: Seq<MaterializedBlock>, i: int) -> bool {
    exists|steps: nat| rooted_within(blocks, i, steps)
}

/// The first block, from `from` on, that does not hang below a root.
pub open spec fn first_unrooted(blocks: Seq<MaterializedBlock>, from: int) -> Option<int>
    decreases blocks.len() - from,
{
    if from < 0 || from >= blocks.len() {
        None
    } else if !is_rooted(blocks, from) {
        Some(from)
    } else {
        first_unrooted(blocks, from + 1)
    }
}

/// What keeps blocks from being a forest.
pub open spec fn forest_fault(blocks: Seq<MaterializedBlock>) -> Option<ProjectionError> {
    match blocks_fault(blocks, blocks.len()) {
        Some(error) => Some(error),
        None => match parents_fault(blocks, blocks.len()) {
            Some(error) => Some(error),
            None => match first_unrooted(blocks, 0) {
                Some(i) => Some(ProjectionError::CyclicTree(blocks[i].block_id)),
                None => None,
            },
        },
    }
}

/// Whether block `a` comes before block `b` among siblings: by order key, then by identity.
pub open spec fn sibling_before(a: MaterializedBlock, b: MaterializedBlock) -> bool {
    let (x, y) = (
        vstd::utf8::encode_utf8(a.order@),
        vstd::utf8::encode_utf8(b.order@),
    );
    bytes_before(x, y) || (a.order@ == b.order@ && a.block_id.uuid.value < b.block_id.uuid.value)
}

/// The siblings with block `j` put behind every sibling that it does not come before.
pub open spec fn insert_sibling(
    blocks: Seq<MaterializedBlock>,
    siblings: Seq<int>,
    j: int,
) -> Seq<int>
    decreases siblings.len(),
{
    if siblings.len() > 0 && sibling_before(blocks[j], blocks[siblings.last()]) {
        insert_sibling(blocks, siblings.drop_last(), j).push(siblings.last())
    } else {
        siblings.push(j)
    }
}

/// The blocks among the first `n` with the given parent, in order.
pub open spec fn siblings_among(
    blocks: Seq<MaterializedBlock>,
    parent: Option<BlockId>,
    n: nat,
) -> Seq<int>
    decreases n,
{
    if n == 0 {
        Seq::empty()
    } else {
        let rest = siblings_among(blocks, parent, (n - 1) as nat);
        if blocks[n - 1].parent == parent {
            insert_sibling(blocks, rest, n - 1)
        } else {
            rest
        }
    }
}

/// The blocks with the given parent, in order.
pub open spec fn siblings_of(blocks: Seq<MaterializedBlock>, parent: Option<BlockId>) -> Seq<int> {
    siblings_among(blocks, parent, blocks.len())
}

/// Indexes as mathematical integers.
pub open spec fn as_ints(indexes: Seq<usize>) -> Seq<int> {
    indexes.map_values(|index: usize| index as int)
}

/// Every sibling is one of the first `n` blocks and has the parent.
pub proof fn lemma_siblings_range(
    blocks: Seq<MaterializedBlock>,
    parent: Option<BlockId>,
    n: nat,
)
    requires
        n <= blocks.len(),
    ensures
        forall|k: int|
            0 <= k < siblings_among(blocks, parent, n).len() ==> 0 <= (
            #[trigger] siblings_among(blocks, parent, n)[k]) < n && blocks[siblings_among(
                blocks,
                parent,
                n,
            )[k]].parent == parent,
        forall|j: int|
            0 <= j < n && (#[trigger] blocks[j]).parent == parent ==> siblings_among(
                blocks,
                parent,
                n,
            ).contains(j),
    decreases n,
{
    if n > 0 {
        let rest = siblings_among(blocks, parent, (n - 1) as nat);
        lemma_siblings_range(blocks, parent, (n - 1) as nat);
        if blocks[n - 1].parent == parent {
            lemma_insert_sibling_members(blocks, rest, n - 1);
            let all = insert_sibling(blocks, rest, n - 1);
            assert forall|k: int| 0 <= k < all.len() implies 0 <= (#[trigger] all[k]) < n
                && blocks[all[k]].parent == parent by {
                assert(all.contains(all[k]));
            }
            assert forall|j: int| 0 <= j < n && (
            #[trigger] blocks[j]).parent == parent implies all.contains(j) by {
                if j < n - 1 {
                    assert(rest.contains(j));
                }
            }
        }
    }
}

/// Inserting a sibling adds exactly that one.
pub proof fn lemma_insert_sibling_members(
    blocks: Seq<MaterializedBlock>,
    siblings: Seq<int>,
    j: int,
)
    ensures
        insert_sibling(blocks, siblings, j).len() == siblings.len() + 1,
        forall|x: int|
            #[trigger] insert_sibling(blocks, siblings, j).contains(x) <==> (siblings.contains(x)
                || x == j),
    decreases siblings.len(),
{
    let grown = insert_sibling(blocks, siblings, j);
    if siblings.len() > 0 && sibling_before(blocks[j], blocks[siblings.last()]) {
        let front = siblings.drop_last();
        lemma_insert_sibling_members(blocks, front, j);
        let inner = insert_sibling(blocks, front, j);
        assert forall|x: int| #[trigger] grown.contains(x) <==> (siblings.contains(x) || x
            == j) by {
            if grown.contains(x) {
                let k = choose|k: int| 0 <= k < grown.len() && grown[k] == x;
                if k < inner.len() {
                    assert(inner.contains(x));
                    if front.contains(x) {
                        let m = choose|m: int| 0 <= m < front.len() && front[m] == x;
                        assert(siblings[m] == x);
                    }
                } else {
                    assert(siblings[siblings.len() - 1] == x);
                }
            }
            if siblings.contains(x) {
                let m = choose|m: int| 0 <= m < siblings.len() && siblings[m] == x;
                if m < front.len() {
                    assert(front[m] == x);
                    assert(inner.contains(x));
                    let k = choose|k: int| 0 <= k < inner.len() && inner[k] == x;
                    assert(grown[k] == x);
                } else {
                    assert(grown[inner.len() as int] == x);
                }
            }
            if x == j {
                assert(inner.contains(x));
                let k = choose|k: int| 0 <= k < inner.len() && inner[k] == x;
                assert(grown[k] == x);
            }
        }
    } else {
        assert forall|x: int| #[trigger] grown.contains(x) <==> (siblings.contains(x) || x
            == j) by {
            if siblings.contains(x) {
                let m = choose|m: int| 0 <= m < siblings.len() && siblings[m] == x;
                assert(grown[m] == x);
            }
            if x == j {
                assert(grown[siblings.len() as int] == x);
            }
        }
    }
}

/// Whether block `a` comes before block `b` among siblings.
fn in_sibling_order(a: &MaterializedBlock, b: &MaterializedBlock) -> (before: bool)
    ensures
        before == sibling_before(*a, *b),
{
    bytes_in_order(a.order.as_str().as_bytes(), b.order.as_str().as_bytes()) || (same_text(
        a.order.as_str(),
        b.order.as_str(),
    ) && a.block_id.uuid.value < b.block_id.uuid.value)
}

/// Puts block `j` in its place among its siblings.
fn sort_sibling(blocks: &Vec<MaterializedBlock>, siblings: &mut Vec<usize>, j: usize)
    requires
        j < blocks@.len(),
        forall|k: int| 0 <= k < old(siblings)@.len() ==> (#[trigger] old(siblings)@[k]) < blocks@.len(),
    ensures
        as_ints(final(siblings)@) == insert_sibling(blocks@, as_ints(old(siblings)@), j as int),
        forall|k: int|
            0 <= k < final(siblings)@.len() ==> (#[trigger] final(siblings)@[k]) < blocks@.len(),
{
    let ghost before = as_ints(siblings@);
    let mut at: usize = siblings.len();
    assert(before.take(at as int) =~= before);
    assert(insert_sibling(blocks@, before, j as int) =~= insert_sibling(
        blocks@,
        before.take(at as int),
        j as int,
    ) + before.skip(at as int));
    while at > 0 && in_sibling_order(&blocks[j], &blocks[siblings[at - 1]])
        invariant
            at <= siblings@.len(),
            j < blocks@.len(),
            as_ints(siblings@) == before,
            siblings@ == old(siblings)@,
            forall|k: int| 0 <= k < siblings@.len() ==> (#[trigger] siblings@[k]) < blocks@.len(),
            insert_sibling(blocks@, before, j as int) == insert_sibling(
                blocks@,
                before.take(at as int),
                j as int,
            ) + before.skip(at as int),
        decreases at,
    {
        proof {
            let front = before.take(at as int);
            assert(front.last() == before[at - 1]);
            assert(before[at - 1] == siblings@[at - 1]);
            assert(front.drop_last() =~= before.take(at - 1));
            assert(insert_sibling(blocks@, before, j as int) =~= insert_sibling(
                blocks@,
                before.take(at - 1),
                j as int,
            ) + before.skip(at - 1));
        }
        at -= 1;
    }
    proof {
        let front = before.take(at as int);
        if at > 0 {
            assert(front.last() == before[at - 1]);
            assert(before[at - 1] == siblings@[at - 1]);
        }
        assert(insert_sibling(blocks@, before, j as int) =~= before.insert(at as int, j as int));
    }
    siblings.insert(at, j);
    assert(as_ints(siblings@) =~= before.insert(at as int, j as int));
}

/// The hierarchy of blocks that form a forest.
#[derive(Debug, PartialEq, Eq)]
pub struct ValidatedForest {
    pub roots: Vec<usize>,
    pub children: Vec<Vec<usize>>,
}

impl ValidatedForest {
    /// Whether this is the hierarchy of the given blocks.
    pub open spec fn wf(self, blocks: Seq<MaterializedBlock>) -> bool {
        &&& forest_fault(blocks) is None
        &&& as_ints(self.roots@) == siblings_of(blocks, None)
        &&& self.children@.len() == blocks.len()
        &&& forall|i: int|
            0 <= i < blocks.len() ==> as_ints((#[trigger] self.children@[i])@) == siblings_of(
                blocks,
                Some(blocks[i].block_id),
            )
    }

    /// The hierarchy of the blocks, or what keeps them from being a forest.
    pub fn new(blocks: &Vec<MaterializedBlock>) -> (forest: Result<ValidatedForest, ProjectionError>)
        ensures
            match forest_fault(blocks@) {
                Some(error) => forest == Err::<ValidatedForest, _>(error),
                None => forest is Ok && forest->Ok_0.wf(blocks@),
            },
    {
        let indexes = match index_blocks(blocks) {
            Ok(indexes) => indexes,
            Err(error) => return Err(error),
        };
        let forest = match link_blocks(blocks, &indexes) {
            Ok(forest) => forest,
            Err(error) => return Err(error),
        };
        let visited = visit_rooted(blocks, &forest);
        let mut at: usize = 0;
        while at < blocks.len()
            invariant
                at <= blocks@.len(),
                visited@.len() == blocks@.len(),
                forall|i: int|
                    0 <= i < blocks@.len() ==> (#[trigger] visited@[i] <==> is_rooted(blocks@, i)),
                blocks_fault(blocks@, blocks@.len()) is None,
                parents_fault(blocks@, blocks@.len()) is None,
                first_unrooted(blocks@, 0) == first_unrooted(blocks@, at as int),
            decreases blocks@.len() - at,
        {
            if !visited[at] {
                return Err(ProjectionError::CyclicTree(blocks[at].block_id));
            }
            at += 1;
        }
        Ok(forest)
    }
}

/// A fault among the first blocks is the fault of all of them.
proof fn lemma_blocks_fault_stays(blocks: Seq<MaterializedBlock>, k: nat, n: nat)
    requires
        k <= n,
        blocks_fault(blocks, k) is Some,
    ensures
        blocks_fault(blocks, n) == blocks_fault(blocks, k),
    decreases n,
{
    if k < n {
        lemma_blocks_fault_stays(blocks, k, (n - 1) as nat);
    }
}

/// A fault among the first parents is the fault of all of them.
proof fn lemma_parents_fault_stays(blocks: Seq<MaterializedBlock>, k: nat, n: nat)
    requires
        k <= n,
        parents_fault(blocks, k) is Some,
    ensures
        parents_fault(blocks, n) == parents_fault(blocks, k),
    decreases n,
{
    if k < n {
        lemma_parents_fault_stays(blocks, k, (n - 1) as nat);
    }
}

/// Whether an index of blocks by identity is that of the first `n` blocks.
spec fn indexes_blocks(blocks: Seq<MaterializedBlock>, indexes: Map<u128, usize>, n: int) -> bool {
    &&& forall|i: int|
        0 <= i < n ==> indexes.dom().contains((#[trigger] blocks[i]).block_id.uuid.value)
            && indexes[blocks[i].block_id.uuid.value] == i
    &&& forall|value: u128| #[trigger]
        indexes.dom().contains(value) ==> 0 <= indexes[value] < n
            && blocks[indexes[value] as int].block_id.uuid.value == value
}

/// Indexes the blocks by identity, or finds the first one that is faulty by itself.
fn index_blocks(blocks: &Vec<MaterializedBlock>) -> (indexed: Result<
    HashMap<u128, usize>,
    ProjectionError,
>)
    ensures
        match blocks_fault(blocks@, blocks@.len()) {
            Some(error) => indexed == Err::<HashMap<u128, usize>, _>(error),
            None => indexed is Ok && indexes_blocks(
                blocks@,
                indexed->Ok_0@,
                blocks@.len() as int,
            ),
        },
{
    let mut indexes: HashMap<u128, usize> = HashMap::new();
    let mut at: usize = 0;
    while at < blocks.len()
        invariant
            at <= blocks@.len(),
            blocks_fault(blocks@, at as nat) is None,
            indexes_blocks(blocks@, indexes@, at as int),
        decreases blocks@.len() - at,
    {
        let block = &blocks[at];
        let number: u128 = block.block_id.uuid.value;
        proof {
            assert(blocks_fault(blocks@, (at + 1) as nat) == block_fault(blocks@, at as int));
            if block_fault(blocks@, at as int) is Some {
                lemma_blocks_fault_stays(blocks@, (at + 1) as nat, blocks@.len());
            }
        }
        if indexes.contains_key(&number) {
            assert(blocks@[indexes@[number] as int].block_id == block.block_id);
            return Err(ProjectionError::DuplicateBlock(block.block_id));
        }
        if block.order.as_str().is_empty() {
            return Err(ProjectionError::EmptyOrder(block.block_id));
        }
        indexes.insert(number, at);
        at += 1;
    }
    Ok(indexes)
}

/// Links children to parents, or finds the first block with a faulty parent.
fn link_blocks(blocks: &Vec<MaterializedBlock>, indexes: &HashMap<u128, usize>) -> (linked: Result<
    ValidatedForest,
    ProjectionError,
>)
    requires
        indexes_blocks(blocks@, indexes@, blocks@.len() as int),
    ensures
        match parents_fault(blocks@, blocks@.len()) {
            Some(error) => linked == Err::<ValidatedForest, _>(error),
            None => linked is Ok && linked_among(blocks@, linked->Ok_0, blocks@.len()),
        },
{
    let mut roots: Vec<usize> = Vec::new();
    let mut children: Vec<Vec<usize>> = Vec::new();
    let mut filled: usize = 0;
    while filled < blocks.len()
        invariant
            filled <= blocks@.len(),
            children@.len() == filled,
            forall|i: int| 0 <= i < filled ==> (#[trigger] children@[i])@.len() == 0,
        decreases blocks@.len() - filled,
    {
        children.push(Vec::new());
        filled += 1;
    }
    let mut at: usize = 0;
    proof {
        assert(as_ints(roots@) =~= Seq::<int>::empty());
        assert forall|i: int| 0 <= i < blocks@.len() implies as_ints((#[trigger] children@[i])@)
            == siblings_among(blocks@, Some(blocks@[i].block_id), 0) by {
            assert(as_ints(children@[i]@) =~= Seq::<int>::empty());
        }
    }
    while at < blocks.len()
        invariant
            at <= blocks@.len(),
            indexes_blocks(blocks@, indexes@, blocks@.len() as int),
            parents_fault(blocks@, at as nat) is None,
            linked_among(blocks@, (ValidatedForest { roots, children }), at as nat),
        decreases blocks@.len() - at,
    {
        let block = &blocks[at];
        proof {
            assert(parents_fault(blocks@, (at + 1) as nat) == parent_fault(blocks@, at as int));
            if parent_fault(blocks@, at as int) is Some {
                lemma_parents_fault_stays(blocks@, (at + 1) as nat, blocks@.len());
            }
        }
        match block.parent {
            None => {
                proof {
                    lemma_linked_range(blocks@, ValidatedForest { roots, children }, at as nat);
                }
                sort_sibling(blocks, &mut roots, at);
            },
            Some(parent) => {
                if parent == block.block_id {
                    return Err(ProjectionError::CyclicTree(block.block_id));
                }
                let number: u128 = parent.uuid.value;
                match indexes.get(&number) {
                    None => {
                        proof {
                            if has_block(blocks@, parent) {
                                let j = choose|j: int|
                                    0 <= j < blocks@.len() && (#[trigger] blocks@[j]).block_id
                                        == parent;
                                assert(indexes@.dom().contains(blocks@[j].block_id.uuid.value));
                            }
                        }
                        return Err(ProjectionError::MissingParent { block: block.block_id, parent });
                    },
                    Some(found) => {
                        let p: usize = *found;
                        assert(blocks@[p as int].block_id == parent);
                        assert(has_block(blocks@, parent));
                        let ghost before = children@;
                        proof {
                            lemma_linked_range(
                                blocks@,
                                ValidatedForest { roots, children },
                                at as nat,
                            );
                        }
                        sort_sibling(blocks, &mut children[p], at);
                        proof {
                            assert forall|i: int| 0 <= i < blocks@.len() implies as_ints(
                                (#[trigger] children@[i])@,
                            ) == siblings_among(
                                blocks@,
                                Some(blocks@[i].block_id),
                                (at + 1) as nat,
                            ) by {
                                if i != p {
                                    assert(children@[i] == before[i]);
                                    assert(indexes@[blocks@[i].block_id.uuid.value] == i);
                                    assert(blocks@[i].block_id != parent);
                                }
                            }
                        }
                    },
                }
            },
        }
        at += 1;
    }
    Ok(ValidatedForest { roots, children })
}

/// Whether children are linked to parents for the first `n` blocks.
spec fn linked_among(blocks: Seq<MaterializedBlock>, forest: ValidatedForest, n: nat) -> bool {
    &&& as_ints(forest.roots@) == siblings_among(blocks, None, n)
    &&& forest.children@.len() == blocks.len()
    &&& forall|i: int|
        0 <= i < blocks.len() ==> as_ints((#[trigger] forest.children@[i])@) == siblings_among(
            blocks,
            Some(blocks[i].block_id),
            n,
        )
}

/// Linked indexes are indexes of blocks.
proof fn lemma_linked_range(blocks: Seq<MaterializedBlock>, forest: ValidatedForest, n: nat)
    requires
        n <= blocks.len(),
        linked_among(blocks, forest, n),
    ensures
        forall|k: int| 0 <= k < forest.roots@.len() ==> (#[trigger] forest.roots@[k]) < n,
        forall|i: int, k: int|
            0 <= i < blocks.len() && 0 <= k < forest.children@[i]@.len() ==> (
            #[trigger] forest.children@[i]@[k]) < n,
{
    lemma_siblings_range(blocks, None, n);
    assert forall|k: int| 0 <= k < forest.roots@.len() implies (#[trigger] forest.roots@[k])
        < n by {
        assert(as_ints(forest.roots@)[k] == forest.roots@[k]);
    }
    assert forall|i: int, k: int|
        0 <= i < blocks.len() && 0 <= k < forest.children@[i]@.len() implies (
    #[trigger] forest.children@[i]@[k]) < n by {
        lemma_siblings_range(blocks, Some(blocks[i].block_id), n);
        assert(as_ints(forest.children@[i]@)[k] == forest.children@[i]@[k]);
    }
}

/// How many of the flags are set.
spec fn set_count(flags: Seq<bool>) -> nat
    decreases flags.len(),
{
    if flags.len() == 0 {
        0
    } else {
        set_count(flags.drop_last()) + if flags.last() {
            1nat
        } else {
            0nat
        }
    }
}

/// Setting a clear flag adds one; there are never more set flags than flags.
proof fn lemma_set_count(flags: Seq<bool>, i: int)
    requires
        0 <= i < flags.len(),
        !flags[i],
    ensures
        set_count(flags.update(i, true)) == set_count(flags) + 1,
        set_count(flags.update(i, true)) <= flags.len(),
    decreases flags.len(),
{
    let last = flags.len() - 1;
    let updated = flags.update(i, true);
    if i == last {
        assert(updated.drop_last() =~= flags.drop_last());
        lemma_set_count_bound(flags.drop_last());
    } else {
        assert(updated.drop_last() =~= flags.drop_last().update(i, true));
        lemma_set_count(flags.drop_last(), i);
    }
}

/// There are never more set flags than flags.
proof fn lemma_set_count_bound(flags: Seq<bool>)
    ensures
        set_count(flags) <= flags.len(),
    decreases flags.len(),
{
    if flags.len() > 0 {
        lemma_set_count_bound(flags.drop_last());
    }
}

/// Whether a set of blocks that holds the roots and the children of its members holds block `i`.
proof fn lemma_closed_holds(
    blocks: Seq<MaterializedBlock>,
    visited: Seq<bool>,
    i: int,
    steps: nat,
)
    requires
        visited.len() == blocks.len(),
        0 <= i < blocks.len(),
        rooted_within(blocks, i, steps),
        forall|j: int|
            0 <= j < blocks.len() && (#[trigger] blocks[j]).parent is None ==> visited[j],
        forall|p: int, j: int|
            0 <= p < blocks.len() && 0 <= j < blocks.len() && #[trigger] is_child(blocks, p, j)
                && visited[p] ==> visited[j],
    ensures
        visited[i],
    decreases steps,
{
    if blocks[i].parent is Some {
        let p = choose|p: int|
            0 <= p < blocks.len() && #[trigger] is_child(blocks, p, i) && rooted_within(
                blocks,
                p,
                (steps - 1) as nat,
            );
        lemma_closed_holds(blocks, visited, p, (steps - 1) as nat);
    }
}

/// Marks every block that hangs below a root.
fn visit_rooted(blocks: &Vec<MaterializedBlock>, forest: &ValidatedForest) -> (visited: Vec<bool>)
    requires
        linked_among(blocks@, *forest, blocks@.len()),
    ensures
        visited@.len() == blocks@.len(),
        forall|i: int| 0 <= i < blocks@.len() ==> (#[trigger] visited@[i] <==> is_rooted(blocks@, i)),
{
    let mut visited: Vec<bool> = Vec::new();
    let mut filled: usize = 0;
    while filled < blocks.len()
        invariant
            filled <= blocks@.len(),
            visited@.len() == filled,
            forall|i: int| 0 <= i < filled ==> !#[trigger] visited@[i],
        decreases blocks@.len() - filled,
    {
        visited.push(false);
        filled += 1;
    }
    proof {
        lemma_linked_range(blocks@, *forest, blocks@.len());
        lemma_siblings_range(blocks@, None, blocks@.len());
    }
    let mut stack: Vec<usize> = Vec::new();
    let mut next: usize = 0;
    while next < forest.roots.len()
        invariant
            next <= forest.roots@.len(),
            stack@ == forest.roots@.take(next as int),
        decreases forest.roots@.len() - next,
    {
        stack.push(forest.roots[next]);
        next += 1;
        assert(stack@ =~= forest.roots@.take(next as int));
    }
    assert(stack@ =~= forest.roots@);
    proof {
        assert forall|k: int| 0 <= k < stack@.len() implies (#[trigger] stack@[k]) < blocks@.len()
            && is_rooted(blocks@, stack@[k] as int) by {
            assert(as_ints(forest.roots@)[k] == stack@[k]);
            assert(rooted_within(blocks@, stack@[k] as int, 0));
        }
        assert forall|j: int| 0 <= j < blocks@.len() && (
        #[trigger] blocks@[j]).parent is None implies visited@[j] || stack@.contains(
            j as usize,
        ) by {
            assert(as_ints(forest.roots@).contains(j));
            let k = choose|k: int|
                0 <= k < as_ints(forest.roots@).len() && as_ints(forest.roots@)[k] == j;
            assert(stack@[k] == j as usize);
        }
        lemma_none_set(visited@);
    }
    let total: usize = blocks.len();
    while stack.len() > 0
        invariant
            total == blocks@.len(),
            visited@.len() == blocks@.len(),
            linked_among(blocks@, *forest, blocks@.len()),
            set_count(visited@) <= blocks@.len(),
            forall|k: int|
                0 <= k < stack@.len() ==> (#[trigger] stack@[k]) < blocks@.len() && is_rooted(
                    blocks@,
                    stack@[k] as int,
                ),
            forall|i: int| 0 <= i < blocks@.len() && #[trigger] visited@[i] ==> is_rooted(blocks@, i),
            forall|j: int|
                0 <= j < blocks@.len() && (#[trigger] blocks@[j]).parent is None ==> visited@[j]
                    || stack@.contains(j as usize),
            forall|p: int, j: int|
                0 <= p < blocks@.len() && 0 <= j < blocks@.len() && #[trigger] is_child(
                    blocks@,
                    p,
                    j,
                ) && visited@[p] ==> visited@[j] || stack@.contains(j as usize),
        decreases blocks@.len() - set_count(visited@), stack@.len(),
    {
        let ghost before = stack@;
        let ghost marked = visited@;
        let index: usize = stack.pop().unwrap();
        assert(before[before.len() - 1] == index);
        assert(is_rooted(blocks@, index as int));
        assert(before.drop_last() =~= stack@);
        proof {
            assert forall|x: usize| #[trigger] before.contains(x) implies x == index
                || stack@.contains(x) by {
                let k = choose|k: int| 0 <= k < before.len() && before[k] == x;
                if k < stack@.len() {
                    assert(stack@[k] == x);
                }
            }
        }
        if !visited[index] {
            visited.set(index, true);
            proof {
                lemma_set_count(marked, index as int);
                lemma_linked_range(blocks@, *forest, blocks@.len());
                lemma_siblings_range(
                    blocks@,
                    Some(blocks@[index as int].block_id),
                    blocks@.len(),
                );
            }
            let ghost rest = stack@;
            let descendants = &forest.children[index];
            let mut next: usize = 0;
            while next < descendants.len()
                invariant
                    next <= descendants@.len(),
                    *descendants == forest.children@[index as int],
                    stack@ == rest + descendants@.take(next as int),
                decreases descendants@.len() - next,
            {
                stack.push(descendants[next]);
                next += 1;
                assert(stack@ =~= rest + descendants@.take(next as int));
            }
            assert(stack@ =~= rest + descendants@);
            proof {
                assert forall|k: int| 0 <= k < stack@.len() implies (#[trigger] stack@[k])
                    < blocks@.len() && is_rooted(blocks@, stack@[k] as int) by {
                    if k < rest.len() {
                        assert(stack@[k] == rest[k]);
                        assert(rest[k] == before[k]);
                    } else {
                        let m = k - rest.len();
                        assert(stack@[k] == descendants@[m]);
                        assert(as_ints(descendants@)[m] == descendants@[m]);
                        let j = descendants@[m] as int;
                        assert(is_child(blocks@, index as int, j));
                        let steps = choose|steps: nat| rooted_within(blocks@, index as int, steps);
                        assert(rooted_within(blocks@, j, steps + 1));
                    }
                }
                assert forall|j: int| 0 <= j < blocks@.len() && (
                #[trigger] blocks@[j]).parent is None implies visited@[j] || stack@.contains(
                    j as usize,
                ) by {
                    if rest.contains(j as usize) {
                        let k = choose|k: int| 0 <= k < rest.len() && rest[k] == j as usize;
                        assert(stack@[k] == j as usize);
                    }
                }
                assert forall|p: int, j: int|
                    0 <= p < blocks@.len() && 0 <= j < blocks@.len() && #[trigger] is_child(
                        blocks@,
                        p,
                        j,
                    ) && visited@[p] implies visited@[j] || stack@.contains(j as usize) by {
                    if p == index {
                        assert(as_ints(descendants@).contains(j));
                        let m = choose|m: int|
                            0 <= m < as_ints(descendants@).len() && as_ints(descendants@)[m] == j;
                        assert(stack@[rest.len() + m] == j as usize);
                    } else if rest.contains(j as usize) {
                        let k = choose|k: int| 0 <= k < rest.len() && rest[k] == j as usize;
                        assert(stack@[k] == j as usize);
                    }
                }
            }
        }
    }
    proof {
        assert forall|i: int| 0 <= i < blocks@.len() && is_rooted(blocks@, i) implies
            #[trigger] visited@[i] by {
            let steps = choose|steps: nat| rooted_within(blocks@, i, steps);
            lemma_closed_holds(blocks@, visited@, i, steps);
        }
    }
    visited
}

/// Where no flag is set, none is counted.
proof fn lemma_none_set(flags: Seq<bool>)
    requires
        forall|i: int| 0 <= i < flags.len() ==> !#[trigger] flags[i],
    ensures
        set_count(flags) == 0,
    decreases flags.len(),
{
    if flags.len() > 0 {
        lemma_none_set(flags.drop_last());
    }
}

} // verus!
