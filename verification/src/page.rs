//! Materialised pages and the accepted state that a projection starts from.

use vstd::prelude::*;

use crate::annotation::ProjectionClaimEvidence;
use crate::bytes::{copy_bytes, same_bytes};
use crate::frontier::FrontierV2;
use crate::ids::{BlockId, DocumentId, LogseqUuid, PageId};
use crate::path::ManagedPath;
use crate::text::same_text;

verus! {

/// Why a policy gave a block an identity.
#[derive(Clone, Copy, Debug, PartialEq, Eq, Structural)]
pub enum PolicyGeneratedAnchorReason {
    BlockReference,
    BlockEmbed,
    CopiedDeepLink,
    Export,
}

/// Where the identity that a block carries in its text comes from.
#[derive(Clone, Copy, Debug, PartialEq, Eq, Structural)]
pub enum LogseqIdentityOrigin {
    ExternalImported,
    PolicyGenerated { reason: PolicyGeneratedAnchorReason },
}

/// What a managed text is.
#[derive(Clone, Copy, Debug, PartialEq, Eq, Structural)]
pub enum ManagedTextKind {
    Page,
    Journal,
}

/// What the document parser reads in the content of a block: its properties, and the byte range
/// that the parser reports for the first property drawer, counted from two bytes before the
/// content without its leading white space.
#[derive(Clone, Debug, PartialEq, Eq)]
pub struct ParsedContent {
    pub properties: Vec<(String, String)>,
    pub drawer: Option<(usize, usize)>,
}

/// A block of a materialised page.
#[derive(Clone, Debug, PartialEq, Eq)]
pub struct MaterializedBlock {
    pub block_id: BlockId,
    pub home_document_id: DocumentId,
    pub parent: Option<BlockId>,
    pub order: String,
    pub logseq_uuid: Option<LogseqUuid>,
    pub logseq_identity_origin: Option<LogseqIdentityOrigin>,
    pub content: Vec<u8>,
    pub parsed: ParsedContent,
}

/// What a materialised block says, apart from what is read in its content.
pub struct MaterializedBlockView {
    pub block_id: BlockId,
    pub home_document_id: DocumentId,
    pub parent: Option<BlockId>,
    pub order: Seq<char>,
    pub logseq_uuid: Option<LogseqUuid>,
    pub logseq_identity_origin: Option<LogseqIdentityOrigin>,
    pub content: Seq<u8>,
}

impl View for MaterializedBlock {
    type V = MaterializedBlockView;

    open spec fn view(&self) -> MaterializedBlockView {
        MaterializedBlockView {
            block_id: self.block_id,
            home_document_id: self.home_document_id,
            parent: self.parent,
            order: self.order@,
            logseq_uuid: self.logseq_uuid,
            logseq_identity_origin: self.logseq_identity_origin,
            content: self.content@,
        }
    }
}

/// Whether two optional blocks are the same.
pub fn same_parent(a: Option<BlockId>, b: Option<BlockId>) -> (same: bool)
    ensures
        same == (a == b),
{
    match (a, b) {
        (Some(x), Some(y)) => x == y,
        (None, None) => true,
        _ => false,
    }
}

/// Whether two optional origins are the same.
pub fn same_origin(a: Option<LogseqIdentityOrigin>, b: Option<LogseqIdentityOrigin>) -> (same: bool)
    ensures
        same == (a == b),
{
    match (a, b) {
        (Some(x), Some(y)) => x == y,
        (None, None) => true,
        _ => false,
    }
}

impl MaterializedBlock {
    /// Whether two blocks say the same.
    pub fn same(&self, other: &MaterializedBlock) -> (same: bool)
        ensures
            same == (self@ == other@),
    {
        self.block_id == other.block_id && self.home_document_id == other.home_document_id
            && same_parent(self.parent, other.parent) && same_text(
            self.order.as_str(),
            other.order.as_str(),
        ) && crate::annotation::same_logseq(self.logseq_uuid, other.logseq_uuid) && same_origin(
            self.logseq_identity_origin,
            other.logseq_identity_origin,
        ) && same_bytes(self.content.as_slice(), other.content.as_slice())
    }
}

/// A materialised page.
#[derive(Clone, Debug, PartialEq, Eq)]
pub struct MaterializedPage {
    pub page_id: PageId,
    pub home_document_id: DocumentId,
    pub name: String,
    pub path: ManagedPath,
    pub kind: ManagedTextKind,
    pub preamble: Option<Vec<u8>>,
    pub blocks: Vec<MaterializedBlock>,
}

/// What an optional text holds.
pub open spec fn optional_text(text: Option<Vec<u8>>) -> Option<Seq<u8>> {
    match text {
        Some(bytes) => Some(bytes@),
        None => None,
    }
}

/// A copy of an optional text.
pub fn copy_optional_text(text: &Option<Vec<u8>>) -> (copy: Option<Vec<u8>>)
    ensures
        optional_text(copy) == optional_text(*text),
{
    match text {
        Some(bytes) => Some(copy_bytes(bytes.as_slice())),
        None => None,
    }
}

/// Whether two optional texts are the same.
pub fn same_optional_text(a: &Option<Vec<u8>>, b: &Option<Vec<u8>>) -> (same: bool)
    ensures
        same == (optional_text(*a) == optional_text(*b)),
{
    match (a, b) {
        (Some(x), Some(y)) => same_bytes(x.as_slice(), y.as_slice()),
        (None, None) => true,
        _ => false,
    }
}

/// What a list of blocks says.
pub open spec fn block_views(blocks: Seq<MaterializedBlock>) -> Seq<MaterializedBlockView> {
    blocks.map_values(|block: MaterializedBlock| block@)
}

/// Whether two pages agree in everything that a projection depends on.
pub open spec fn same_projection_identity(left: MaterializedPage, right: MaterializedPage) -> bool {
    &&& left.page_id == right.page_id
    &&& left.home_document_id == right.home_document_id
    &&& left.name@ == right.name@
    &&& left.path.text@ == right.path.text@
    &&& left.kind == right.kind
    &&& optional_text(left.preamble) == optional_text(right.preamble)
    &&& block_views(left.blocks@) == block_views(right.blocks@)
}

/// Whether two pages agree in everything that a projection depends on.
pub fn materialized_page_projection_identity_equal(
    left: &MaterializedPage,
    right: &MaterializedPage,
) -> (same: bool)
    ensures
        same == same_projection_identity(*left, *right),
{
    left.page_id == right.page_id && left.home_document_id == right.home_document_id && same_text(
        left.name.as_str(),
        right.name.as_str(),
    ) && left.path.same(&right.path) && left.kind == right.kind && same_optional_text(
        &left.preamble,
        &right.preamble,
    ) && same_blocks(&left.blocks, &right.blocks)
}

/// Whether two lists of blocks say the same.
fn same_blocks(a: &Vec<MaterializedBlock>, b: &Vec<MaterializedBlock>) -> (same: bool)
    ensures
        same == (block_views(a@) == block_views(b@)),
{
    if a.len() != b.len() {
        assert(block_views(a@).len() != block_views(b@).len());
        return false;
    }
    let mut index: usize = 0;
    while index < a.len()
        invariant
            index <= a@.len(),
            a@.len() == b@.len(),
            forall|j: int| 0 <= j < index ==> (#[trigger] a@[j])@ == b@[j]@,
        decreases a@.len() - index,
    {
        if !a[index].same(&b[index]) {
            assert(block_views(a@)[index as int] == a@[index as int]@);
            assert(block_views(b@)[index as int] == b@[index as int]@);
            return false;
        }
        index += 1;
    }
    assert(block_views(a@) =~= block_views(b@));
    true
}

/// An accepted page, the frontier that it was accepted at, and the blocks that claim the
/// identities written in it.
#[derive(Clone, Debug, PartialEq, Eq)]
pub struct ProjectionPageState {
    pub page: MaterializedPage,
    pub frontier: FrontierV2,
    pub claim_evidence: Vec<ProjectionClaimEvidence>,
}

} // verus!
