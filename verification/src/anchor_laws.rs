//! What holds of the identities that a policy puts into a page.

use vstd::prelude::*;

use crate::annotation::AnnotatedIdentityView;
use crate::document::{
    owner_among, owner_in_block, page_format, projected_blocks, projected_content, projected_siblings,
    projected_subtree, property_id, DocBlockView, RawOwner,
};
use crate::document_laws::{law_every_block_is_projected_once, lemma_blocks_distinct};
use crate::forest::{lemma_siblings_range, siblings_of};
use crate::ids::WorkspaceId;
use crate::inject::ProjectionFormat;
use crate::page::{MaterializedBlock, ProjectionPageState};
use crate::plan::{
    anchors_among, insert_anchor, projection_plan, PageRendering, PolicyGeneratedAnchor, SourceBase,
};

verus! {

/// Whether a projected block is what block `i` of a page is projected to.
pub open spec fn is_block_of(
    blocks: Seq<MaterializedBlock>,
    format: ProjectionFormat,
    projected: DocBlockView,
    i: int,
) -> bool {
    &&& 0 <= i < blocks.len()
    &&& projected.block_id == blocks[i].block_id
    &&& projected_content(blocks, blocks[i], format) is Ok
    &&& projected_content(blocks, blocks[i], format)->Ok_0 == (
        projected.raw,
        projected.logseq_uuid,
        projected.generated,
    )
}

/// Whether a projected block is a block of a page.
pub open spec fn is_of_page(
    blocks: Seq<MaterializedBlock>,
    format: ProjectionFormat,
    projected: DocBlockView,
) -> bool {
    exists|i: int| is_block_of(blocks, format, projected, i)
}

/// Whether projected blocks are all blocks of a page.
pub open spec fn are_blocks_of(
    blocks: Seq<MaterializedBlock>,
    format: ProjectionFormat,
    projected: Seq<DocBlockView>,
) -> bool {
    forall|k: int|
        0 <= k < projected.len() ==> is_of_page(blocks, format, #[trigger] projected[k])
}

/// A projected subtree is made of the page's blocks.
proof fn lemma_subtree_blocks(
    blocks: Seq<MaterializedBlock>,
    format: ProjectionFormat,
    i: int,
    locator: Seq<u32>,
    depth: nat,
)
    requires
        0 <= i < blocks.len(),
        projected_subtree(blocks, format, i, locator, depth) is Ok,
    ensures
        are_blocks_of(blocks, format, projected_subtree(blocks, format, i, locator, depth)->Ok_0),
    decreases depth, 0nat,
{
    if depth > 0 {
        let children = siblings_of(blocks, Some(blocks[i].block_id));
        let less = (depth - 1) as nat;
        lemma_siblings_range(blocks, Some(blocks[i].block_id), blocks.len());
        lemma_siblings_blocks(blocks, format, children, children.len(), locator, less);
        let below =
            projected_siblings(blocks, format, children, children.len(), locator, less)->Ok_0;
        let all = projected_subtree(blocks, format, i, locator, depth)->Ok_0;
        assert forall|k: int| 0 <= k < all.len() implies is_of_page(
            blocks,
            format,
            #[trigger] all[k],
        ) by {
            if k == 0 {
                assert(is_block_of(blocks, format, all[0], i));
            } else {
                assert(all[k] == below[k - 1]);
            }
        }
    }
}

/// Projected siblings are made of the page's blocks.
proof fn lemma_siblings_blocks(
    blocks: Seq<MaterializedBlock>,
    format: ProjectionFormat,
    siblings: Seq<int>,
    n: nat,
    locator: Seq<u32>,
    depth: nat,
)
    requires
        n <= siblings.len(),
        forall|k: int| 0 <= k < siblings.len() ==> 0 <= #[trigger] siblings[k] < blocks.len(),
        projected_siblings(blocks, format, siblings, n, locator, depth) is Ok,
    ensures
        are_blocks_of(
            blocks,
            format,
            projected_siblings(blocks, format, siblings, n, locator, depth)->Ok_0,
        ),
    decreases depth, n,
{
    if n > 0 {
        let last = locator.push((n - 1) as u32);
        lemma_siblings_blocks(blocks, format, siblings, (n - 1) as nat, locator, depth);
        lemma_subtree_blocks(blocks, format, siblings[n - 1], last, depth);
        let before =
            projected_siblings(blocks, format, siblings, (n - 1) as nat, locator, depth)->Ok_0;
        let subtree = projected_subtree(blocks, format, siblings[n - 1], last, depth)->Ok_0;
        let all = projected_siblings(blocks, format, siblings, n, locator, depth)->Ok_0;
        assert forall|k: int| 0 <= k < all.len() implies is_of_page(
            blocks,
            format,
            #[trigger] all[k],
        ) by {
            if k < before.len() {
                assert(all[k] == before[k]);
            } else {
                assert(all[k] == subtree[k - before.len()]);
            }
        }
    }
}

/// A projected page holds the page's blocks alone, each with its own text and identity.
pub proof fn law_only_the_pages_blocks_are_projected(
    blocks: Seq<MaterializedBlock>,
    format: ProjectionFormat,
)
    requires
        projected_blocks(blocks, format) is Ok,
    ensures
        are_blocks_of(blocks, format, projected_blocks(blocks, format)->Ok_0),
{
    let roots = siblings_of(blocks, None);
    lemma_siblings_range(blocks, None, blocks.len());
    lemma_siblings_blocks(blocks, format, roots, roots.len(), Seq::empty(), blocks.len());
}

/// Whether no block of a page writes an identity in its own text.
pub open spec fn nobody_writes(blocks: Seq<MaterializedBlock>, uuid: u128) -> bool {
    forall|i: int, p: int|
        0 <= i < blocks.len() && 0 <= p < blocks[i].parsed.properties@.len() ==> property_id(
            #[trigger] blocks[i].parsed.properties@[p],
        ) != Some(uuid)
}

/// Properties add an owner exactly where one of them writes the identity.
proof fn lemma_owner_in_block(owner: RawOwner, block: MaterializedBlock, n: nat, uuid: u128)
    requires
        n <= block.parsed.properties@.len(),
    ensures
        owner_in_block(owner, block, n, uuid) is Nobody <==> owner is Nobody && forall|p: int|
            0 <= p < n ==> property_id(#[trigger] block.parsed.properties@[p]) != Some(uuid),
    decreases n,
{
    if n > 0 {
        lemma_owner_in_block(owner, block, (n - 1) as nat, uuid);
        if property_id(block.parsed.properties@[n - 1]) == Some(uuid) {
            assert(!(owner_in_block(owner, block, n, uuid) is Nobody));
        }
    }
}

/// An identity has no owner exactly where no block writes it.
proof fn lemma_no_owner(blocks: Seq<MaterializedBlock>, n: nat, uuid: u128)
    requires
        n <= blocks.len(),
    ensures
        owner_among(blocks, n, uuid) is Nobody <==> nobody_writes(blocks.take(n as int), uuid),
    decreases n,
{
    let first = blocks.take(n as int);
    if n > 0 {
        let less = blocks.take(n - 1);
        lemma_no_owner(blocks, (n - 1) as nat, uuid);
        lemma_owner_in_block(
            owner_among(blocks, (n - 1) as nat, uuid),
            blocks[n - 1],
            blocks[n - 1].parsed.properties@.len(),
            uuid,
        );
        assert(first[n - 1] == blocks[n - 1]);
        if nobody_writes(first, uuid) {
            assert forall|i: int, p: int|
                0 <= i < less.len() && 0 <= p < less[i].parsed.properties@.len() implies property_id(
                #[trigger] less[i].parsed.properties@[p],
            ) != Some(uuid) by {
                assert(first[i] == less[i]);
                assert(property_id(first[i].parsed.properties@[p]) != Some(uuid));
            }
            assert forall|p: int| 0 <= p < blocks[n - 1].parsed.properties@.len() implies property_id(
                #[trigger] blocks[n - 1].parsed.properties@[p],
            ) != Some(uuid) by {
                assert(property_id(first[n - 1].parsed.properties@[p]) != Some(uuid));
            }
        }
        if owner_among(blocks, n, uuid) is Nobody {
            assert forall|i: int, p: int|
                0 <= i < first.len() && 0 <= p < first[i].parsed.properties@.len() implies property_id(
                #[trigger] first[i].parsed.properties@[p],
            ) != Some(uuid) by {
                if i < n - 1 {
                    assert(first[i] == less[i]);
                    assert(property_id(less[i].parsed.properties@[p]) != Some(uuid));
                } else {
                    assert(property_id(blocks[n - 1].parsed.properties@[p]) != Some(uuid));
                }
            }
        }
    }
}

/// Whether anchors ascend strictly by their blocks.
pub open spec fn anchors_ascend(anchors: Seq<PolicyGeneratedAnchor>) -> bool {
    forall|a: int, b: int|
        0 <= a < b < anchors.len() ==> (#[trigger] anchors[a]).block_id.uuid.value < (
        #[trigger] anchors[b]).block_id.uuid.value
}

/// Inserting the anchor of another block keeps anchors ascending, and adds that one.
proof fn lemma_insert_anchor(anchors: Seq<PolicyGeneratedAnchor>, anchor: PolicyGeneratedAnchor)
    requires
        anchors_ascend(anchors),
        forall|k: int| 0 <= k < anchors.len() ==> (#[trigger] anchors[k]).block_id
            != anchor.block_id,
    ensures
        anchors_ascend(insert_anchor(anchors, anchor)),
        forall|other: PolicyGeneratedAnchor| #[trigger]
            insert_anchor(anchors, anchor).contains(other) <==> other == anchor
                || anchors.contains(other),
    decreases anchors.len(),
{
    let grown = insert_anchor(anchors, anchor);
    if anchors.len() > 0 && anchor.block_id.uuid.value < anchors.last().block_id.uuid.value {
        let front = anchors.drop_last();
        lemma_insert_anchor(front, anchor);
        let inner = insert_anchor(front, anchor);
        assert forall|a: int, b: int| 0 <= a < b < grown.len() implies (
        #[trigger] grown[a]).block_id.uuid.value < (#[trigger] grown[b]).block_id.uuid.value by {
            if b == inner.len() {
                assert(inner.contains(inner[a]));
                if inner[a] != anchor {
                    let m = choose|m: int| 0 <= m < front.len() && front[m] == inner[a];
                    assert(anchors[m] == inner[a]);
                }
            } else {
                assert(grown[a] == inner[a] && grown[b] == inner[b]);
            }
        }
        assert forall|other: PolicyGeneratedAnchor| #[trigger] grown.contains(other) <==> other
            == anchor || anchors.contains(other) by {
            assert(inner.contains(other) <==> other == anchor || front.contains(other));
            if grown.contains(other) {
                let k = choose|k: int| 0 <= k < grown.len() && grown[k] == other;
                if k < inner.len() {
                    assert(inner[k] == other);
                    if front.contains(other) {
                        let m = choose|m: int| 0 <= m < front.len() && front[m] == other;
                        assert(anchors[m] == other);
                    }
                } else {
                    assert(anchors[anchors.len() - 1] == other);
                }
            }
            if other == anchor || anchors.contains(other) {
                if anchors.contains(other) && other != anchor {
                    let m = choose|m: int| 0 <= m < anchors.len() && anchors[m] == other;
                    if m < front.len() {
                        assert(front[m] == other);
                    } else {
                        assert(grown[inner.len() as int] == other);
                    }
                }
                if inner.contains(other) {
                    let k = choose|k: int| 0 <= k < inner.len() && inner[k] == other;
                    assert(grown[k] == other);
                }
            }
        }
    } else {
        assert(grown == anchors.push(anchor));
        assert forall|other: PolicyGeneratedAnchor| #[trigger] grown.contains(other) <==> other
            == anchor || anchors.contains(other) by {
            if grown.contains(other) {
                let k = choose|k: int| 0 <= k < grown.len() && grown[k] == other;
                if k < anchors.len() {
                    assert(anchors[k] == other);
                }
            }
            if other == anchor {
                assert(grown[anchors.len() as int] == other);
            }
            if anchors.contains(other) {
                let m = choose|m: int| 0 <= m < anchors.len() && anchors[m] == other;
                assert(grown[m] == other);
            }
        }
    }
}

/// Whether an anchor is that of a projected block into which a policy put an identity.
pub open spec fn anchors_block(anchor: PolicyGeneratedAnchor, block: DocBlockView) -> bool {
    &&& block.generated
    &&& block.logseq_uuid == Some(anchor.logseq_uuid)
    &&& block.block_id == anchor.block_id
}

/// The anchors of the first blocks ascend, and are those of the blocks with a generated identity.
proof fn lemma_anchors_among(blocks: Seq<DocBlockView>, n: nat)
    requires
        n <= blocks.len(),
        forall|k: int, l: int|
            0 <= k < l < blocks.len() ==> (#[trigger] blocks[k]).block_id != (
            #[trigger] blocks[l]).block_id,
    ensures
        anchors_ascend(anchors_among(blocks, n)),
        forall|anchor: PolicyGeneratedAnchor| #[trigger]
            anchors_among(blocks, n).contains(anchor) <==> exists|k: int|
                0 <= k < n && anchors_block(anchor, #[trigger] blocks[k]),
    decreases n,
{
    if n > 0 {
        let before = anchors_among(blocks, (n - 1) as nat);
        let all = anchors_among(blocks, n);
        let block = blocks[n - 1];
        lemma_anchors_among(blocks, (n - 1) as nat);
        if block.generated && block.logseq_uuid is Some {
            let added = PolicyGeneratedAnchor {
                block_id: block.block_id,
                logseq_uuid: block.logseq_uuid->0,
            };
            assert forall|k: int| 0 <= k < before.len() implies (#[trigger] before[k]).block_id
                != added.block_id by {
                assert(before.contains(before[k]));
                let m = choose|m: int|
                    0 <= m < n - 1 && anchors_block(before[k], #[trigger] blocks[m]);
                assert(blocks[m].block_id != blocks[n - 1].block_id);
            }
            lemma_insert_anchor(before, added);
            assert forall|anchor: PolicyGeneratedAnchor| #[trigger]
                all.contains(anchor) <==> exists|k: int|
                    0 <= k < n && anchors_block(anchor, #[trigger] blocks[k]) by {
                assert(all.contains(anchor) <==> anchor == added || before.contains(anchor));
                if anchor == added {
                    assert(anchors_block(anchor, blocks[n - 1]));
                }
                if exists|k: int| 0 <= k < n && anchors_block(anchor, #[trigger] blocks[k]) {
                    let k = choose|k: int| 0 <= k < n && anchors_block(anchor, #[trigger] blocks[k]);
                    if k < n - 1 {
                        assert(before.contains(anchor));
                    }
                }
            }
        } else {
            assert forall|anchor: PolicyGeneratedAnchor| #[trigger]
                all.contains(anchor) <==> exists|k: int|
                    0 <= k < n && anchors_block(anchor, #[trigger] blocks[k]) by {
                assert(all.contains(anchor) <==> before.contains(anchor));
                if exists|k: int| 0 <= k < n && anchors_block(anchor, #[trigger] blocks[k]) {
                    let k = choose|k: int| 0 <= k < n && anchors_block(anchor, #[trigger] blocks[k]);
                    assert(k < n - 1);
                }
            }
        }
    }
}

/// Whether a policy puts an identity into a block of a page: the block's own, which was not read
/// from outside, and which no block of the page writes in its own text.
pub open spec fn is_policy_anchor(
    blocks: Seq<MaterializedBlock>,
    i: int,
    anchor: PolicyGeneratedAnchor,
) -> bool {
    &&& 0 <= i < blocks.len()
    &&& blocks[i].block_id == anchor.block_id
    &&& blocks[i].logseq_uuid == Some(anchor.logseq_uuid)
    &&& blocks[i].logseq_identity_origin is Some
    &&& !(blocks[i].logseq_identity_origin->0 is ExternalImported)
    &&& nobody_writes(blocks, anchor.logseq_uuid.uuid.value)
}

/// The anchor of a projected block is one that a policy puts there.
proof fn lemma_anchor_of_block(
    blocks: Seq<MaterializedBlock>,
    format: ProjectionFormat,
    projected: DocBlockView,
    i: int,
    anchor: PolicyGeneratedAnchor,
)
    requires
        is_block_of(blocks, format, projected, i),
        projected.block_id == anchor.block_id,
    ensures
        anchors_block(anchor, projected) <==> is_policy_anchor(blocks, i, anchor),
{
    lemma_no_owner(blocks, blocks.len(), anchor.logseq_uuid.uuid.value);
    assert(blocks.take(blocks.len() as int) =~= blocks);
}

/// The block with an identity is projected.
proof fn lemma_projection_of(blocks: Seq<MaterializedBlock>, format: ProjectionFormat, i: int) -> (k:
    int)
    requires
        projected_blocks(blocks, format) is Ok,
        0 <= i < blocks.len(),
    ensures
        0 <= k < projected_blocks(blocks, format)->Ok_0.len(),
        is_block_of(blocks, format, projected_blocks(blocks, format)->Ok_0[k], i),
{
    let projected = projected_blocks(blocks, format)->Ok_0;
    law_every_block_is_projected_once(blocks, format);
    law_only_the_pages_blocks_are_projected(blocks, format);
    lemma_blocks_distinct(blocks, blocks.len());
    assert(blocks[i].block_id == blocks[i].block_id);
    let k = choose|k: int|
        0 <= k < blocks.len() && (#[trigger] projected[k]).block_id == blocks[i].block_id;
    assert(is_of_page(blocks, format, projected[k]));
    let j = choose|j: int| is_block_of(blocks, format, projected[k], j);
    if i < j {
        assert(blocks[i].block_id != blocks[j].block_id);
    } else if j < i {
        assert(blocks[j].block_id != blocks[i].block_id);
    }
    k
}

/// The generated anchors of a page ascend strictly by block, and they are exactly the identities
/// that a policy puts into the page's blocks.
pub proof fn law_anchors_are_the_policys(blocks: Seq<MaterializedBlock>, format: ProjectionFormat)
    requires
        projected_blocks(blocks, format) is Ok,
    ensures
        ({
            let projected = projected_blocks(blocks, format)->Ok_0;
            let anchors = anchors_among(projected, projected.len());
            &&& anchors_ascend(anchors)
            &&& forall|anchor: PolicyGeneratedAnchor| #[trigger]
                anchors.contains(anchor) <==> exists|i: int| is_policy_anchor(blocks, i, anchor)
        }),
{
    let projected = projected_blocks(blocks, format)->Ok_0;
    let anchors = anchors_among(projected, projected.len());
    law_every_block_is_projected_once(blocks, format);
    law_only_the_pages_blocks_are_projected(blocks, format);
    lemma_anchors_among(projected, projected.len());
    assert forall|anchor: PolicyGeneratedAnchor| #[trigger]
        anchors.contains(anchor) <==> exists|i: int| is_policy_anchor(blocks, i, anchor) by {
        if anchors.contains(anchor) {
            let k = choose|k: int|
                0 <= k < projected.len() && anchors_block(anchor, #[trigger] projected[k]);
            assert(is_of_page(blocks, format, projected[k]));
            let i = choose|i: int| is_block_of(blocks, format, projected[k], i);
            lemma_anchor_of_block(blocks, format, projected[k], i, anchor);
        }
        if exists|i: int| is_policy_anchor(blocks, i, anchor) {
            let i = choose|i: int| is_policy_anchor(blocks, i, anchor);
            let k = lemma_projection_of(blocks, format, i);
            lemma_anchor_of_block(blocks, format, projected[k], i, anchor);
        }
    }
}

/// The anchors of a plan ascend strictly by block, and they are exactly the identities that a policy
/// puts into the blocks of the planned page.
pub proof fn law_plan_anchors_are_the_policys(
    workspace_id: WorkspaceId,
    state: ProjectionPageState,
    base: Option<&SourceBase>,
    annotations: Option<Seq<AnnotatedIdentityView>>,
    rendering: PageRendering,
)
    requires
        projection_plan(workspace_id, state, base, annotations, rendering) is Ok,
    ensures
        ({
            let plan = projection_plan(workspace_id, state, base, annotations, rendering)->Ok_0;
            &&& anchors_ascend(plan.generated_anchors)
            &&& forall|anchor: PolicyGeneratedAnchor| #[trigger]
                plan.generated_anchors.contains(anchor) <==> exists|i: int|
                    is_policy_anchor(state.page.blocks@, i, anchor)
        }),
{
    let format = page_format(state.page)->Ok_0;
    law_anchors_are_the_policys(state.page.blocks@, format);
}

} // verus!
