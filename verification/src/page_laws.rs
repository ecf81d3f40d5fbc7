//! What a page must be to be projected, and where its blocks then stand.

use vstd::prelude::*;

use crate::document::{
    page_format, projected_blocks, projected_siblings, projected_subtree, DocBlockView,
};
use crate::document_laws::{
    distinct_ids, law_siblings_are_ordered, lemma_all_rooted, lemma_blocks_distinct,
    lemma_distinct_blocks, lemma_no_parent_fault, lemma_none_unrooted, lemma_parents,
};
use crate::error::ProjectionError;
use crate::forest::{
    block_fault, blocks_fault, first_unrooted, forest_fault, has_block, is_child, is_rooted,
    parent_fault, parents_fault, rooted_within, siblings_of,
};
use crate::ids::BlockId;
use crate::inject::ProjectionFormat;
use crate::order::{bytes_before, bytes_differ_at};
use crate::page::{MaterializedBlock, MaterializedPage};
use crate::path::{file_name, has_extension, is_name_start, lemma_name_start};
use crate::text::ascii_lower;

verus! {

/// Whether a character is a small letter or other sign, or that letter as a capital.
pub open spec fn is_letter(c: char, small: char) -> bool {
    c == small || ('a' <= small <= 'z' && c as int + 32 == small as int)
}

/// Whether a name ends in an extension, in letters of either case, with something before it.
pub open spec fn ends_as(name: Seq<char>, extension: Seq<char>) -> bool {
    &&& name.len() > extension.len()
    &&& forall|i: int|
        0 <= i < extension.len() ==> is_letter(
            #[trigger] name[name.len() - extension.len() + i],
            extension[i],
        )
}

/// A lowered character is a small letter exactly where it is that letter or its capital.
proof fn lemma_letter(c: char, small: char)
    requires
        !('A' <= small <= 'Z'),
    ensures
        ascii_lower(c) == small <==> is_letter(c, small),
{
}

/// A path has an extension exactly where its last component ends in it.
proof fn lemma_extension(path: Seq<char>, start: int, extension: Seq<char>)
    requires
        is_name_start(path, start),
        forall|i: int| 0 <= i < extension.len() ==> !('A' <= #[trigger] extension[i] <= 'Z'),
    ensures
        has_extension(path, extension) <==> ends_as(path.skip(start), extension),
{
    lemma_name_start(path, start);
    let name = path.skip(start);
    assert(file_name(path) =~= name);
    assert forall|i: int| 0 <= i < extension.len() implies (ascii_lower(
        #[trigger] name[name.len() - extension.len() + i],
    ) == extension[i] <==> is_letter(
        name[name.len() - extension.len() + i],
        extension[i],
    )) by {
        lemma_letter(name[name.len() - extension.len() + i], extension[i]);
    }
}

/// A page is Markdown exactly where its file's name ends in `.md` or `.markdown`, and Org where it
/// ends in `.org`, in letters of either case and with something before it; any other page is
/// refused, with its path.
pub proof fn law_format_is_by_extension(page: MaterializedPage, start: int)
    requires
        0 <= start <= page.path.text@.len(),
        start == 0 || page.path.text@[start - 1] == '/',
        forall|i: int| start <= i < page.path.text@.len() ==> #[trigger] page.path.text@[i] != '/',
    ensures
        ({
            let name = page.path.text@.skip(start);
            &&& page_format(page) == Ok::<_, ProjectionError>(ProjectionFormat::Markdown)
                <==> ends_as(name, seq!['.', 'm', 'd']) || ends_as(
                name,
                seq!['.', 'm', 'a', 'r', 'k', 'd', 'o', 'w', 'n'],
            )
            &&& page_format(page) == Ok::<_, ProjectionError>(ProjectionFormat::Org) <==> ends_as(
                name,
                seq!['.', 'o', 'r', 'g'],
            )
            &&& page_format(page) is Err ==> page_format(page)->Err_0
                == ProjectionError::UnsupportedFormat(page.path.text)
        }),
{
    reveal_strlit(".md");
    reveal_strlit(".markdown");
    reveal_strlit(".org");
    let name = page.path.text@.skip(start);
    assert(".md"@ =~= seq!['.', 'm', 'd']);
    assert(".markdown"@ =~= seq!['.', 'm', 'a', 'r', 'k', 'd', 'o', 'w', 'n']);
    assert(".org"@ =~= seq!['.', 'o', 'r', 'g']);
    lemma_extension(page.path.text@, start, seq!['.', 'm', 'd']);
    lemma_extension(page.path.text@, start, seq!['.', 'm', 'a', 'r', 'k', 'd', 'o', 'w', 'n']);
    lemma_extension(page.path.text@, start, seq!['.', 'o', 'r', 'g']);
    if ends_as(name, seq!['.', 'o', 'r', 'g']) {
        let org = seq!['.', 'o', 'r', 'g'];
        assert(is_letter(name[name.len() - 4 + 3], org[3]));
        if ends_as(name, seq!['.', 'm', 'd']) {
            let md = seq!['.', 'm', 'd'];
            assert(is_letter(name[name.len() - 3 + 2], md[2]));
        }
        if ends_as(name, seq!['.', 'm', 'a', 'r', 'k', 'd', 'o', 'w', 'n']) {
            let markdown = seq!['.', 'm', 'a', 'r', 'k', 'd', 'o', 'w', 'n'];
            assert(is_letter(name[name.len() - 9 + 8], markdown[8]));
        }
    }
}

/// Whether blocks lead from block `i` to a root: each but the last is a child of the next, and the
/// last has no parent.
pub open spec fn leads_to_root(
    blocks: Seq<MaterializedBlock>,
    i: int,
    ancestors: Seq<int>,
) -> bool {
    &&& ancestors.len() > 0
    &&& ancestors[0] == i
    &&& forall|k: int| 0 <= k < ancestors.len() ==> 0 <= #[trigger] ancestors[k] < blocks.len()
    &&& forall|k: int, l: int|
        0 <= k && l == k + 1 && l < ancestors.len() ==> blocks[#[trigger] ancestors[k]].parent
            == Some(blocks[#[trigger] ancestors[l]].block_id)
    &&& blocks[ancestors.last()].parent is None
}

/// Whether some blocks lead from block `i` to a root.
pub open spec fn hangs_below_a_root(blocks: Seq<MaterializedBlock>, i: int) -> bool {
    exists|ancestors: Seq<int>| leads_to_root(blocks, i, ancestors)
}

/// A block is rooted exactly where blocks lead from it to a root.
proof fn lemma_rooted_by_blocks(blocks: Seq<MaterializedBlock>, i: int, steps: nat)
    requires
        0 <= i < blocks.len(),
        rooted_within(blocks, i, steps),
    ensures
        hangs_below_a_root(blocks, i),
    decreases steps,
{
    if blocks[i].parent is None {
        assert(leads_to_root(blocks, i, seq![i]));
    } else {
        let p = choose|p: int|
            0 <= p < blocks.len() && #[trigger] is_child(blocks, p, i) && rooted_within(
                blocks,
                p,
                (steps - 1) as nat,
            );
        lemma_rooted_by_blocks(blocks, p, (steps - 1) as nat);
        let above = choose|above: Seq<int>| leads_to_root(blocks, p, above);
        let ancestors = seq![i] + above;
        assert forall|k: int, l: int|
            0 <= k && l == k + 1 && l < ancestors.len() implies blocks[#[trigger] ancestors[k]].parent
            == Some(blocks[#[trigger] ancestors[l]].block_id) by {
            if k > 0 {
                assert(ancestors[k] == above[k - 1]);
            }
            assert(ancestors[l] == above[l - 1]);
        }
        assert(ancestors.last() == above.last());
        assert(leads_to_root(blocks, i, ancestors));
    }
}

/// Blocks that lead to a root are within as many steps of it.
proof fn lemma_blocks_root(blocks: Seq<MaterializedBlock>, i: int, ancestors: Seq<int>)
    requires
        leads_to_root(blocks, i, ancestors),
    ensures
        rooted_within(blocks, i, ancestors.len()),
    decreases ancestors.len(),
{
    if blocks[i].parent is Some {
        let above = ancestors.skip(1);
        let p = ancestors[1];
        assert(above.last() == ancestors.last());
        assert forall|k: int, l: int|
            0 <= k && l == k + 1 && l < above.len() implies blocks[#[trigger] above[k]].parent
            == Some(blocks[#[trigger] above[l]].block_id) by {
            assert(above[k] == ancestors[k + 1] && above[l] == ancestors[l + 1]);
        }
        assert(leads_to_root(blocks, p, above));
        lemma_blocks_root(blocks, p, above);
        assert(blocks[ancestors[0]].parent == Some(blocks[ancestors[1]].block_id));
        assert(is_child(blocks, p, i));
    }
}

/// A block hangs below a root exactly where some blocks lead to one.
proof fn lemma_rooted(blocks: Seq<MaterializedBlock>, i: int)
    requires
        0 <= i < blocks.len(),
    ensures
        is_rooted(blocks, i) <==> hangs_below_a_root(blocks, i),
{
    if is_rooted(blocks, i) {
        lemma_rooted_by_blocks(blocks, i, choose|steps: nat| rooted_within(blocks, i, steps));
    }
    if hangs_below_a_root(blocks, i) {
        lemma_blocks_root(
            blocks,
            i,
            choose|ancestors: Seq<int>| leads_to_root(blocks, i, ancestors),
        );
    }
}

/// Blocks make a tree exactly where no two have the same identity, each has an order key, each
/// parent is another block that is there, and each block hangs below one without a parent.
pub proof fn law_only_trees_are_projected(blocks: Seq<MaterializedBlock>)
    ensures
        forest_fault(blocks) is None <==> {
            &&& forall|i: int, j: int|
                0 <= i < j < blocks.len() ==> (#[trigger] blocks[i]).block_id != (
                #[trigger] blocks[j]).block_id
            &&& forall|i: int| 0 <= i < blocks.len() ==> (#[trigger] blocks[i]).order@.len() > 0
            &&& forall|i: int|
                0 <= i < blocks.len() && (#[trigger] blocks[i]).parent is Some ==> exists|j: int|
                    0 <= j < blocks.len() && j != i && (#[trigger] blocks[j]).block_id
                        == blocks[i].parent->0
            &&& forall|i: int|
                0 <= i < blocks.len() ==> #[trigger] hangs_below_a_root(blocks, i)
        },
{
    let sound = {
        &&& forall|i: int, j: int|
            0 <= i < j < blocks.len() ==> (#[trigger] blocks[i]).block_id != (
            #[trigger] blocks[j]).block_id
        &&& forall|i: int| 0 <= i < blocks.len() ==> (#[trigger] blocks[i]).order@.len() > 0
        &&& forall|i: int|
            0 <= i < blocks.len() && (#[trigger] blocks[i]).parent is Some ==> exists|j: int|
                0 <= j < blocks.len() && j != i && (#[trigger] blocks[j]).block_id
                    == blocks[i].parent->0
        &&& forall|i: int| 0 <= i < blocks.len() ==> #[trigger] hangs_below_a_root(blocks, i)
    };
    if forest_fault(blocks) is None {
        lemma_blocks_distinct(blocks, blocks.len());
        assert forall|i: int| 0 <= i < blocks.len() && (#[trigger] blocks[i]).parent is Some implies
            exists|j: int|
                0 <= j < blocks.len() && j != i && (#[trigger] blocks[j]).block_id
                    == blocks[i].parent->0 by {
            lemma_parents(blocks, blocks.len(), i);
            let j = choose|j: int|
                0 <= j < blocks.len() && (#[trigger] blocks[j]).block_id == blocks[i].parent->0;
            assert(blocks[j].block_id == blocks[i].parent->0 && j != i);
        }
        assert forall|i: int| 0 <= i < blocks.len() implies #[trigger] hangs_below_a_root(
            blocks,
            i,
        ) by {
            lemma_all_rooted(blocks, 0, i);
            lemma_rooted(blocks, i);
        }
    }
    if sound {
        lemma_distinct_blocks(blocks, blocks.len());
        assert forall|i: int| 0 <= i < blocks.len() implies parent_fault(blocks, i) is None by {
            if blocks[i].parent is Some {
                let j = choose|j: int|
                    0 <= j < blocks.len() && j != i && (#[trigger] blocks[j]).block_id
                        == blocks[i].parent->0;
                assert(blocks[j].block_id == blocks[i].parent->0 && j != i);
                assert(has_block(blocks, blocks[i].parent->0));
                assert(blocks[j].block_id != blocks[i].block_id);
            }
        }
        lemma_no_parent_fault(blocks, blocks.len());
        assert forall|i: int| 0 <= i < blocks.len() implies is_rooted(blocks, i) by {
            assert(hangs_below_a_root(blocks, i));
            lemma_rooted(blocks, i);
        }
        lemma_none_unrooted(blocks, 0);
    }
}

/// The first fault of a block by itself is that of some block.
proof fn lemma_first_block_fault(blocks: Seq<MaterializedBlock>, n: nat) -> (i: int)
    requires
        n <= blocks.len(),
        blocks_fault(blocks, n) is Some,
    ensures
        0 <= i < n,
        block_fault(blocks, i) == blocks_fault(blocks, n),
    decreases n,
{
    if blocks_fault(blocks, (n - 1) as nat) is Some {
        lemma_first_block_fault(blocks, (n - 1) as nat)
    } else {
        n - 1
    }
}

/// The first fault of a parent is that of some block's parent.
proof fn lemma_first_parent_fault(blocks: Seq<MaterializedBlock>, n: nat) -> (i: int)
    requires
        n <= blocks.len(),
        parents_fault(blocks, n) is Some,
    ensures
        0 <= i < n,
        parent_fault(blocks, i) == parents_fault(blocks, n),
    decreases n,
{
    if parents_fault(blocks, (n - 1) as nat) is Some {
        lemma_first_parent_fault(blocks, (n - 1) as nat)
    } else {
        n - 1
    }
}

/// The first unrooted block is one, and is there.
proof fn lemma_first_unrooted(blocks: Seq<MaterializedBlock>, from: int)
    requires
        0 <= from,
        first_unrooted(blocks, from) is Some,
    ensures
        from <= first_unrooted(blocks, from)->0 < blocks.len(),
        !is_rooted(blocks, first_unrooted(blocks, from)->0),
    decreases blocks.len() - from,
{
    if is_rooted(blocks, from) {
        lemma_first_unrooted(blocks, from + 1);
    }
}

/// Where blocks make no tree, the error names a block that is at fault, and its fault.
pub proof fn law_faulty_blocks_are_named(blocks: Seq<MaterializedBlock>)
    requires
        forest_fault(blocks) is Some,
    ensures
        match forest_fault(blocks)->0 {
            ProjectionError::DuplicateBlock(id) => exists|i: int, j: int|
                0 <= i < j < blocks.len() && (#[trigger] blocks[i]).block_id == id && (
                #[trigger] blocks[j]).block_id == id,
            ProjectionError::EmptyOrder(id) => exists|i: int|
                0 <= i < blocks.len() && (#[trigger] blocks[i]).block_id == id
                    && blocks[i].order@.len() == 0,
            ProjectionError::MissingParent { block, parent } => (exists|i: int|
                0 <= i < blocks.len() && (#[trigger] blocks[i]).block_id == block
                    && blocks[i].parent == Some(parent)) && forall|j: int|
                0 <= j < blocks.len() ==> (#[trigger] blocks[j]).block_id != parent,
            ProjectionError::CyclicTree(id) => exists|i: int|
                0 <= i < blocks.len() && (#[trigger] blocks[i]).block_id == id && (blocks[i].parent
                    == Some(id) || !hangs_below_a_root(blocks, i)),
            _ => false,
        },
{
    let n = blocks.len();
    if blocks_fault(blocks, n) is Some {
        let j = lemma_first_block_fault(blocks, n);
        if blocks[j].order@.len() > 0 || exists|i: int|
            0 <= i < j && (#[trigger] blocks[i]).block_id == blocks[j].block_id {
            let i = choose|i: int|
                0 <= i < j && (#[trigger] blocks[i]).block_id == blocks[j].block_id;
            assert(blocks[i].block_id == blocks[j].block_id);
        }
    } else if parents_fault(blocks, n) is Some {
        let i = lemma_first_parent_fault(blocks, n);
        assert(blocks[i].parent is Some);
        if blocks[i].parent->0 != blocks[i].block_id {
            assert forall|j: int| 0 <= j < blocks.len() implies (#[trigger] blocks[j]).block_id
                != blocks[i].parent->0 by {
                assert(!has_block(blocks, blocks[i].parent->0));
            }
        }
    } else {
        lemma_first_unrooted(blocks, 0);
        lemma_rooted(blocks, first_unrooted(blocks, 0)->0);
    }
}

/// Siblings come by the bytes of their order keys: of two keys that differ, the one that is smaller
/// at the first byte where they do comes first, or the one that ends there; siblings with the same
/// key come by their identities.
pub proof fn law_siblings_come_by_their_keys(
    blocks: Seq<MaterializedBlock>,
    parent: Option<BlockId>,
    a: int,
    b: int,
)
    requires
        forest_fault(blocks) is None,
        0 <= a < b < siblings_of(blocks, parent).len(),
    ensures
        ({
            let first = blocks[siblings_of(blocks, parent)[a]];
            let second = blocks[siblings_of(blocks, parent)[b]];
            let x = vstd::utf8::encode_utf8(first.order@);
            let y = vstd::utf8::encode_utf8(second.order@);
            ||| first.order@ == second.order@ && first.block_id.uuid.value
                < second.block_id.uuid.value
            ||| exists|k: int|
                0 <= k < y.len() && (#[trigger] y.take(k)) == x.take(k) && (k == x.len() || k
                    < x.len() && x[k] < y[k])
        }),
{
    lemma_blocks_distinct(blocks, blocks.len());
    law_siblings_are_ordered(blocks, parent);
    let first = blocks[siblings_of(blocks, parent)[a]];
    let second = blocks[siblings_of(blocks, parent)[b]];
    let x = vstd::utf8::encode_utf8(first.order@);
    let y = vstd::utf8::encode_utf8(second.order@);
    if bytes_before(x, y) {
        let k = choose|k: int| bytes_differ_at(x, y, k);
        assert(y.take(k) =~= x.take(k));
    }
}

/// Whether a projected block stands at the place of block `i`: the last number of its position
/// counts the siblings before it.
pub open spec fn is_placed(
    blocks: Seq<MaterializedBlock>,
    projected: DocBlockView,
    i: int,
) -> bool {
    let siblings = siblings_of(blocks, blocks[i].parent);
    &&& 0 <= i < blocks.len()
    &&& projected.block_id == blocks[i].block_id
    &&& projected.locator.len() > 0
    &&& projected.locator.last() < siblings.len()
    &&& siblings[projected.locator.last() as int] == i
}

/// Whether a projected block stands right below its parent's position.
pub open spec fn hangs_below(
    projected: Seq<DocBlockView>,
    block: DocBlockView,
    parent: Option<BlockId>,
) -> bool {
    parent is Some && exists|above: DocBlockView| #[trigger]
        projected.contains(above) && above.block_id == parent->0 && above.locator
            == block.locator.drop_last()
}

/// What is in a sequence is in a longer one.
proof fn lemma_contained<A>(before: Seq<A>, behind: Seq<A>, x: A)
    ensures
        before.contains(x) ==> (before + behind).contains(x),
        behind.contains(x) ==> (before + behind).contains(x),
        (before + behind).contains(x) ==> before.contains(x) || behind.contains(x),
{
    let all = before + behind;
    if before.contains(x) {
        let k = before.index_of(x);
        assert(all[k] == x);
    }
    if behind.contains(x) {
        let k = behind.index_of(x);
        assert(all[before.len() + k] == x);
    }
    if all.contains(x) {
        let k = all.index_of(x);
        if k < before.len() {
            assert(before[k] == x);
        } else {
            assert(behind[k - before.len()] == x);
        }
    }
}

/// A projected subtree starts with its top; every other block of it hangs below its parent.
proof fn lemma_subtree_places(
    blocks: Seq<MaterializedBlock>,
    format: ProjectionFormat,
    i: int,
    locator: Seq<u32>,
    depth: nat,
)
    requires
        distinct_ids(blocks),
        0 <= i < blocks.len(),
        projected_subtree(blocks, format, i, locator, depth) is Ok,
    ensures
        forall|block: DocBlockView|
            projected_subtree(blocks, format, i, locator, depth)->Ok_0.contains(block) ==> {
                ||| block.block_id == blocks[i].block_id && block.locator == locator
                ||| exists|j: int| #[trigger]
                    is_placed(blocks, block, j) && hangs_below(
                        projected_subtree(blocks, format, i, locator, depth)->Ok_0,
                        block,
                        blocks[j].parent,
                    )
            },
    decreases depth, 0nat,
{
    if depth > 0 {
        let children = siblings_of(blocks, Some(blocks[i].block_id));
        let all = projected_subtree(blocks, format, i, locator, depth)->Ok_0;
        let below = projected_siblings(
            blocks,
            format,
            children,
            children.len(),
            locator,
            (depth - 1) as nat,
        )->Ok_0;
        let top = seq![all[0]];
        assert(all =~= top + below);
        lemma_siblings_places(
            blocks,
            format,
            Some(blocks[i].block_id),
            children.len(),
            locator,
            (depth - 1) as nat,
        );
        assert forall|block: DocBlockView| all.contains(block) implies {
            ||| block.block_id == blocks[i].block_id && block.locator == locator
            ||| exists|j: int| #[trigger]
                is_placed(blocks, block, j) && hangs_below(all, block, blocks[j].parent)
        } by {
            lemma_contained(top, below, block);
            if below.contains(block) {
                let j = choose|j: int| #[trigger]
                    is_placed(blocks, block, j) && {
                        ||| blocks[j].parent == Some(blocks[i].block_id)
                            && block.locator.drop_last() == locator
                        ||| hangs_below(below, block, blocks[j].parent)
                    };
                if hangs_below(below, block, blocks[j].parent) {
                    let above = choose|above: DocBlockView| #[trigger]
                        below.contains(above) && above.block_id == blocks[j].parent->0
                            && above.locator == block.locator.drop_last();
                    lemma_contained(top, below, above);
                    assert(all.contains(above));
                } else {
                    assert(all.contains(all[0]));
                }
                assert(is_placed(blocks, block, j));
            }
        }
    }
}

/// Projected siblings stand right below a position in their order; every other block among them
/// hangs below its parent.
proof fn lemma_siblings_places(
    blocks: Seq<MaterializedBlock>,
    format: ProjectionFormat,
    parent: Option<BlockId>,
    n: nat,
    locator: Seq<u32>,
    depth: nat,
)
    requires
        distinct_ids(blocks),
        n <= siblings_of(blocks, parent).len(),
        projected_siblings(blocks, format, siblings_of(blocks, parent), n, locator, depth) is Ok,
    ensures
        forall|block: DocBlockView|
            projected_siblings(
                blocks,
                format,
                siblings_of(blocks, parent),
                n,
                locator,
                depth,
            )->Ok_0.contains(block) ==> exists|j: int| #[trigger]
                is_placed(blocks, block, j) && {
                    ||| blocks[j].parent == parent && block.locator.drop_last() == locator
                    ||| hangs_below(
                        projected_siblings(
                            blocks,
                            format,
                            siblings_of(blocks, parent),
                            n,
                            locator,
                            depth,
                        )->Ok_0,
                        block,
                        blocks[j].parent,
                    )
                },
    decreases depth, n + 1,
{
    if n > 0 {
        let siblings = siblings_of(blocks, parent);
        law_siblings_are_ordered(blocks, parent);
        let i = siblings[n - 1];
        let at = locator.push((n - 1) as u32);
        let all = projected_siblings(blocks, format, siblings, n, locator, depth)->Ok_0;
        let before = projected_siblings(
            blocks,
            format,
            siblings,
            (n - 1) as nat,
            locator,
            depth,
        )->Ok_0;
        let subtree = projected_subtree(blocks, format, i, at, depth)->Ok_0;
        assert(all =~= before + subtree);
        lemma_siblings_places(blocks, format, parent, (n - 1) as nat, locator, depth);
        lemma_subtree_places(blocks, format, i, at, depth);
        assert(siblings.contains(i));
        assert(at.drop_last() =~= locator);
        assert forall|block: DocBlockView| all.contains(block) implies exists|j: int| #[trigger]
            is_placed(blocks, block, j) && {
                ||| blocks[j].parent == parent && block.locator.drop_last() == locator
                ||| hangs_below(all, block, blocks[j].parent)
            } by {
            lemma_contained(before, subtree, block);
            if before.contains(block) {
                let j = choose|j: int| #[trigger]
                    is_placed(blocks, block, j) && {
                        ||| blocks[j].parent == parent && block.locator.drop_last() == locator
                        ||| hangs_below(before, block, blocks[j].parent)
                    };
                if hangs_below(before, block, blocks[j].parent) {
                    let above = choose|above: DocBlockView| #[trigger]
                        before.contains(above) && above.block_id == blocks[j].parent->0
                            && above.locator == block.locator.drop_last();
                    lemma_contained(before, subtree, above);
                }
                assert(is_placed(blocks, block, j));
            } else if block.block_id == blocks[i].block_id && block.locator == at {
                assert(is_placed(blocks, block, i));
            } else {
                let j = choose|j: int| #[trigger]
                    is_placed(blocks, block, j) && hangs_below(subtree, block, blocks[j].parent);
                let above = choose|above: DocBlockView| #[trigger]
                    subtree.contains(above) && above.block_id == blocks[j].parent->0
                        && above.locator == block.locator.drop_last();
                lemma_contained(before, subtree, above);
                assert(is_placed(blocks, block, j));
            }
        }
    }
}

/// Every projected block stands where its page has it: a block without a parent at the outermost
/// level, every other one right below the position of its parent, and either behind exactly as many
/// siblings as the last number of its position says.
pub proof fn law_blocks_stand_below_their_parents(
    blocks: Seq<MaterializedBlock>,
    format: ProjectionFormat,
    k: int,
)
    requires
        projected_blocks(blocks, format) is Ok,
        0 <= k < projected_blocks(blocks, format)->Ok_0.len(),
    ensures
        ({
            let projected = projected_blocks(blocks, format)->Ok_0;
            exists|i: int| #[trigger]
                is_placed(blocks, projected[k], i) && {
                    ||| blocks[i].parent is None && projected[k].locator.len() == 1
                    ||| hangs_below(projected, projected[k], blocks[i].parent)
                }
        }),
{
    let projected = projected_blocks(blocks, format)->Ok_0;
    lemma_blocks_distinct(blocks, blocks.len());
    lemma_siblings_places(
        blocks,
        format,
        None,
        siblings_of(blocks, None).len(),
        Seq::empty(),
        blocks.len(),
    );
    assert(projected.contains(projected[k]));
    let i = choose|i: int| #[trigger]
        is_placed(blocks, projected[k], i) && {
            ||| blocks[i].parent is None && projected[k].locator.drop_last() == Seq::<u32>::empty()
            ||| hangs_below(projected, projected[k], blocks[i].parent)
        };
    assert(is_placed(blocks, projected[k], i));
    if !hangs_below(projected, projected[k], blocks[i].parent) {
        assert(projected[k].locator.drop_last().len() == 0);
    }
}

} // verus!
