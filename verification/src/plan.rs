//! Planning a projection: the exact bytes of a page's file, where its blocks lie in them, and what
//! the file must hold before.
//!
//! The outline serialiser and parser are the host's. A plan is made in rounds: `render_input` says
//! what to serialise and with which layout identities, `mark_document_blocks` says what to
//! serialise the same way again, and the planning functions take what came back.

use vstd::prelude::*;

use crate::annotation::{
    annotation_views, copy_claims, claim_views, same_logseq, AnnotatedIdentity,
    AnnotatedIdentityView, ReceiptError, StructuralLocator, StructuralSpan,
};
use crate::bytes::{copy_bytes, same_bytes};
use crate::document::{
    build_page_document, doc_views, format_for_page, is_document_of, page_format, projected_blocks,
    DocBlock, DocBlockView, Document,
};
use crate::error::ProjectionError;
use crate::hash::BlobDescription;
use crate::ids::{hyphenated_text, BlockId, LogseqUuid, WorkspaceId};
use crate::inject::{is_utf8, ProjectionFormat};
use crate::intent::{
    BaseBlob, ProjectionIntent, ProjectionIntentView, ProjectionPrecondition, ProjectionTargetKind,
};
use crate::line_ends::{file_bytes, file_text, optional_file};
use crate::order::{copy_words, same_words};
use crate::page::{optional_text, MaterializedPage, ProjectionPageState};
use crate::render::{annotate_serialized_blocks, annotated, unused_mark_prefix, unused_prefix};
use crate::semantics::{
    check_same_document, compare_exact_source_semantics, same_document, semantic_difference,
    ExactSourceSemanticDifference, SemanticDifferenceView, SourceDocument,
};
use crate::text::same_text;

verus! {

/// An identity that a policy put into a block's text.
#[derive(Clone, Copy, Debug, PartialEq, Eq, Structural)]
pub struct PolicyGeneratedAnchor {
    pub block_id: BlockId,
    pub logseq_uuid: LogseqUuid,
}

impl PolicyGeneratedAnchor {
    /// The block.
    pub fn block_id(&self) -> (block_id: BlockId)
        ensures
            block_id == self.block_id,
    {
        self.block_id
    }

    /// The identity.
    pub fn logseq_uuid(&self) -> (logseq_uuid: LogseqUuid)
        ensures
            logseq_uuid == self.logseq_uuid,
    {
        self.logseq_uuid
    }
}

/// Which block stands at a position of a file, so that the layout there stays with the block.
#[derive(Clone, Debug, PartialEq, Eq)]
pub struct StructuralLayoutIdentity {
    pub locator: Vec<u32>,
    pub block_identity: String,
}

/// What a layout identity says.
pub struct LayoutIdentityView {
    pub locator: Seq<u32>,
    pub block_identity: Seq<char>,
}

impl View for StructuralLayoutIdentity {
    type V = LayoutIdentityView;

    open spec fn view(&self) -> LayoutIdentityView {
        LayoutIdentityView { locator: self.locator@, block_identity: self.block_identity@ }
    }
}

/// What a list of layout identities says.
pub open spec fn layout_views(identities: Seq<StructuralLayoutIdentity>) -> Seq<LayoutIdentityView> {
    identities.map_values(|identity: StructuralLayoutIdentity| identity@)
}

/// The layout identities of annotated blocks.
pub open spec fn annotated_layout(annotations: Seq<AnnotatedIdentityView>) -> Seq<
    LayoutIdentityView,
> {
    annotations.map_values(
        |annotation: AnnotatedIdentityView| LayoutIdentityView {
            locator: annotation.locator,
            block_identity: hyphenated_text(annotation.block_id.uuid.value),
        },
    )
}

/// The layout identities of the blocks of a document.
pub open spec fn document_layout(blocks: Seq<DocBlockView>) -> Seq<LayoutIdentityView> {
    blocks.map_values(
        |block: DocBlockView| LayoutIdentityView {
            locator: block.locator,
            block_identity: hyphenated_text(block.block_id.uuid.value),
        },
    )
}

/// The layout identities of annotated blocks.
pub fn structural_layout_identities(annotations: &[AnnotatedIdentity]) -> (identities: Vec<
    StructuralLayoutIdentity,
>)
    ensures
        layout_views(identities@) == annotated_layout(annotation_views(annotations@)),
{
    let mut identities: Vec<StructuralLayoutIdentity> = Vec::new();
    let mut at: usize = 0;
    while at < annotations.len()
        invariant
            at <= annotations@.len(),
            identities@.len() == at,
            forall|j: int|
                0 <= j < at ==> (#[trigger] identities@[j])@ == (LayoutIdentityView {
                    locator: annotations@[j].locator.components@,
                    block_identity: hyphenated_text(annotations@[j].block_id.uuid.value),
                }),
        decreases annotations@.len() - at,
    {
        let annotation = &annotations[at];
        identities.push(
            StructuralLayoutIdentity {
                locator: copy_words(annotation.locator.components.as_slice()),
                block_identity: annotation.block_id.uuid.hyphenated(),
            },
        );
        at += 1;
    }
    assert(layout_views(identities@) =~= annotated_layout(annotation_views(annotations@)));
    identities
}

/// The layout identities of the blocks of a document.
fn document_layout_identities(blocks: &Vec<DocBlock>) -> (identities: Vec<StructuralLayoutIdentity>)
    ensures
        layout_views(identities@) == document_layout(doc_views(blocks@)),
{
    let mut identities: Vec<StructuralLayoutIdentity> = Vec::new();
    let mut at: usize = 0;
    while at < blocks.len()
        invariant
            at <= blocks@.len(),
            identities@.len() == at,
            forall|j: int|
                0 <= j < at ==> (#[trigger] identities@[j])@ == (LayoutIdentityView {
                    locator: blocks@[j].locator@,
                    block_identity: hyphenated_text(blocks@[j].block_id.uuid.value),
                }),
        decreases blocks@.len() - at,
    {
        identities.push(
            StructuralLayoutIdentity {
                locator: copy_words(blocks[at].locator.as_slice()),
                block_identity: blocks[at].block_id.uuid.hyphenated(),
            },
        );
        at += 1;
    }
    assert(layout_views(identities@) =~= document_layout(doc_views(blocks@)));
    identities
}

/// A copy of a list of layout identities.
pub fn copy_layout(identities: &[StructuralLayoutIdentity]) -> (out: Vec<StructuralLayoutIdentity>)
    ensures
        layout_views(out@) == layout_views(identities@),
{
    let mut out: Vec<StructuralLayoutIdentity> = Vec::new();
    let mut at: usize = 0;
    while at < identities.len()
        invariant
            at <= identities@.len(),
            out@.len() == at,
            forall|j: int| 0 <= j < at ==> (#[trigger] out@[j])@ == identities@[j]@,
        decreases identities@.len() - at,
    {
        out.push(
            StructuralLayoutIdentity {
                locator: copy_words(identities[at].locator.as_slice()),
                block_identity: identities[at].block_identity.clone(),
            },
        );
        at += 1;
    }
    assert(layout_views(out@) =~= layout_views(identities@));
    out
}

/// Whether two lists of layout identities say the same.
pub fn same_layout(a: &[StructuralLayoutIdentity], b: &[StructuralLayoutIdentity]) -> (same: bool)
    ensures
        same == (layout_views(a@) == layout_views(b@)),
{
    let ghost x = layout_views(a@);
    let ghost y = layout_views(b@);
    if a.len() != b.len() {
        assert(x.len() != y.len());
        return false;
    }
    let mut at: usize = 0;
    while at < a.len()
        invariant
            at <= a@.len(),
            a@.len() == b@.len(),
            x == layout_views(a@),
            y == layout_views(b@),
            forall|j: int| 0 <= j < at ==> #[trigger] x[j] == y[j],
        decreases a@.len() - at,
    {
        assert(x[at as int] == a@[at as int]@ && y[at as int] == b@[at as int]@);
        if !same_words(a[at].locator.as_slice(), b[at].locator.as_slice()) || !same_text(
            a[at].block_identity.as_str(),
            b[at].block_identity.as_str(),
        ) {
            return false;
        }
        at += 1;
    }
    assert(x =~= y);
    true
}

/// Which blocks stand where in the file before and after, so that a guarded writer keeps the
/// layout of each.
#[derive(Clone, Debug, PartialEq, Eq)]
pub struct GuardedProjectionLayout {
    base: Vec<StructuralLayoutIdentity>,
    target: Vec<StructuralLayoutIdentity>,
    revive_page_self_base: bool,
}

/// What a guarded layout says.
pub struct GuardedLayoutView {
    pub base: Seq<LayoutIdentityView>,
    pub target: Seq<LayoutIdentityView>,
    pub revive_page_self_base: bool,
}

impl View for GuardedProjectionLayout {
    type V = GuardedLayoutView;

    closed spec fn view(&self) -> GuardedLayoutView {
        GuardedLayoutView {
            base: layout_views(self.base@),
            target: layout_views(self.target@),
            revive_page_self_base: self.revive_page_self_base,
        }
    }
}

impl GuardedProjectionLayout {
    /// The layout from `base` to the annotated target.
    pub fn new(
        base: Vec<StructuralLayoutIdentity>,
        target_annotations: &[AnnotatedIdentity],
    ) -> (layout: GuardedProjectionLayout)
        ensures
            layout@ == (GuardedLayoutView {
                base: layout_views(base@),
                target: annotated_layout(annotation_views(target_annotations@)),
                revive_page_self_base: false,
            }),
    {
        GuardedProjectionLayout {
            base,
            target: structural_layout_identities(target_annotations),
            revive_page_self_base: false,
        }
    }

    /// The layout of a revived page, which is its own base.
    pub fn for_revive_page(target_annotations: &[AnnotatedIdentity]) -> (layout:
        GuardedProjectionLayout)
        ensures
            layout@ == (GuardedLayoutView {
                base: annotated_layout(annotation_views(target_annotations@)),
                target: annotated_layout(annotation_views(target_annotations@)),
                revive_page_self_base: true,
            }),
    {
        let target = structural_layout_identities(target_annotations);
        GuardedProjectionLayout {
            base: copy_layout(target.as_slice()),
            target,
            revive_page_self_base: true,
        }
    }

    /// The layout from an annotated base, if there is one, to the annotated target.
    pub fn from_authenticated_annotations(
        base_annotations: Option<&[AnnotatedIdentity]>,
        target_annotations: &[AnnotatedIdentity],
    ) -> (layout: GuardedProjectionLayout)
        ensures
            layout@ == (GuardedLayoutView {
                base: match base_annotations {
                    Some(annotations) => annotated_layout(annotation_views(annotations@)),
                    None => Seq::empty(),
                },
                target: annotated_layout(annotation_views(target_annotations@)),
                revive_page_self_base: false,
            }),
    {
        let base = match base_annotations {
            Some(annotations) => structural_layout_identities(annotations),
            None => {
                let none: Vec<StructuralLayoutIdentity> = Vec::new();
                assert(layout_views(none@) =~= Seq::<LayoutIdentityView>::empty());
                none
            },
        };
        GuardedProjectionLayout::new(base, target_annotations)
    }

    /// The layout of nothing.
    pub fn empty() -> (layout: GuardedProjectionLayout)
        ensures
            layout@ == (GuardedLayoutView {
                base: Seq::empty(),
                target: Seq::empty(),
                revive_page_self_base: false,
            }),
    {
        let layout = GuardedProjectionLayout {
            base: Vec::new(),
            target: Vec::new(),
            revive_page_self_base: false,
        };
        assert(layout@.base =~= Seq::<LayoutIdentityView>::empty());
        assert(layout@.target =~= Seq::<LayoutIdentityView>::empty());
        layout
    }

    /// Whether the target is its own base.
    pub fn uses_revive_page_self_base(&self) -> (revived: bool)
        ensures
            revived == self@.revive_page_self_base,
    {
        self.revive_page_self_base
    }

    /// The blocks of the file before.
    pub fn base(&self) -> (base: &[StructuralLayoutIdentity])
        ensures
            layout_views(base@) == self@.base,
    {
        self.base.as_slice()
    }

    /// The blocks of the file after.
    pub fn target(&self) -> (target: &[StructuralLayoutIdentity])
        ensures
            layout_views(target@) == self@.target,
    {
        self.target.as_slice()
    }

    /// A copy of the layout.
    pub fn duplicate(&self) -> (copy: GuardedProjectionLayout)
        ensures
            copy@ == self@,
    {
        GuardedProjectionLayout {
            base: copy_layout(self.base.as_slice()),
            target: copy_layout(self.target.as_slice()),
            revive_page_self_base: self.revive_page_self_base,
        }
    }
}

/// What a strict parse of a file gave: the outline, the bytes of each block, and whether
/// serialising the outline in the file's own format gives the same outline again.
#[derive(Clone, Debug, PartialEq, Eq)]
pub struct StrictSource {
    pub document: SourceDocument,
    pub block_spans: Vec<(usize, usize)>,
    pub round_trips: bool,
}

impl GuardedProjectionLayout {
    /// Whether two layouts are the same.
    pub fn same(&self, other: &GuardedProjectionLayout) -> (same: bool)
        ensures
            same == (self@ == other@),
    {
        self.revive_page_self_base == other.revive_page_self_base && same_layout(
            self.base.as_slice(),
            other.base.as_slice(),
        ) && same_layout(self.target.as_slice(), other.target.as_slice())
    }
}

/// The bytes of a file, with what an ordinary and a strict parse of them gave.
#[derive(Debug, PartialEq, Eq)]
pub struct SourceBase {
    pub bytes: Vec<u8>,
    pub document: SourceDocument,
    pub strict: Result<StrictSource, String>,
}

/// What serialising a page gave: the bytes, the bytes of the marked document, and the properties
/// that the parser reads in each block of the document.
#[derive(Clone, Debug, PartialEq, Eq)]
pub struct PageRendering {
    pub serialized: Vec<u8>,
    pub marked: Vec<u8>,
    pub properties: Vec<Vec<(String, String)>>,
}

/// A rendered page.
#[derive(Debug, PartialEq, Eq)]
pub struct RenderedProjection {
    pub target: Vec<u8>,
    pub annotations: Vec<AnnotatedIdentity>,
    pub base_layout_identities: Vec<StructuralLayoutIdentity>,
    pub generated_anchors: Vec<PolicyGeneratedAnchor>,
}

/// What a rendered page says.
pub struct RenderedView {
    pub target: Seq<u8>,
    pub annotations: Seq<AnnotatedIdentityView>,
    pub base_layout_identities: Seq<LayoutIdentityView>,
    pub generated_anchors: Seq<PolicyGeneratedAnchor>,
}

impl View for RenderedProjection {
    type V = RenderedView;

    open spec fn view(&self) -> RenderedView {
        RenderedView {
            target: self.target@,
            annotations: annotation_views(self.annotations@),
            base_layout_identities: layout_views(self.base_layout_identities@),
            generated_anchors: self.generated_anchors@,
        }
    }
}

/// The anchors with `anchor` put behind every anchor whose block is not greater.
pub open spec fn insert_anchor(
    anchors: Seq<PolicyGeneratedAnchor>,
    anchor: PolicyGeneratedAnchor,
) -> Seq<PolicyGeneratedAnchor>
    decreases anchors.len(),
{
    if anchors.len() > 0 && anchor.block_id.uuid.value < anchors.last().block_id.uuid.value {
        insert_anchor(anchors.drop_last(), anchor).push(anchors.last())
    } else {
        anchors.push(anchor)
    }
}

/// The identities that a policy put into the first `n` blocks, in the order of the blocks'
/// identities.
pub open spec fn anchors_among(blocks: Seq<DocBlockView>, n: nat) -> Seq<PolicyGeneratedAnchor>
    decreases n,
{
    if n == 0 {
        Seq::empty()
    } else {
        let before = anchors_among(blocks, (n - 1) as nat);
        let block = blocks[n - 1];
        if block.generated && block.logseq_uuid is Some {
            insert_anchor(
                before,
                PolicyGeneratedAnchor {
                    block_id: block.block_id,
                    logseq_uuid: block.logseq_uuid->0,
                },
            )
        } else {
            before
        }
    }
}

/// The identities that a policy put into a document, in the order of the blocks' identities.
fn generated_anchors(blocks: &Vec<DocBlock>) -> (anchors: Vec<PolicyGeneratedAnchor>)
    ensures
        anchors@ == anchors_among(doc_views(blocks@), blocks@.len()),
{
    let ghost views = doc_views(blocks@);
    let mut anchors: Vec<PolicyGeneratedAnchor> = Vec::new();
    let mut index: usize = 0;
    while index < blocks.len()
        invariant
            index <= blocks@.len(),
            views == doc_views(blocks@),
            anchors@ == anchors_among(views, index as nat),
        decreases blocks@.len() - index,
    {
        let block = &blocks[index];
        assert(views[index as int] == block@);
        if block.generated {
            if let Some(logseq_uuid) = block.logseq_uuid {
                let entry = PolicyGeneratedAnchor { block_id: block.block_id, logseq_uuid };
                let ghost before = anchors@;
                let mut at: usize = anchors.len();
                assert(before.take(at as int) =~= before);
                assert(insert_anchor(before, entry) =~= insert_anchor(
                    before.take(at as int),
                    entry,
                ) + before.skip(at as int));
                while at > 0 && entry.block_id.uuid.value < anchors[at - 1].block_id.uuid.value
                    invariant
                        at <= anchors@.len(),
                        anchors@ == before,
                        insert_anchor(before, entry) == insert_anchor(
                            before.take(at as int),
                            entry,
                        ) + before.skip(at as int),
                    decreases at,
                {
                    proof {
                        let front = before.take(at as int);
                        assert(front.last() == before[at - 1]);
                        assert(front.drop_last() =~= before.take(at - 1));
                        assert(insert_anchor(before, entry) =~= insert_anchor(
                            before.take(at - 1),
                            entry,
                        ) + before.skip(at - 1));
                    }
                    at -= 1;
                }
                proof {
                    if at > 0 {
                        assert(before.take(at as int).last() == before[at - 1]);
                    }
                    assert(insert_anchor(before, entry) =~= before.insert(at as int, entry));
                }
                anchors.insert(at, entry);
            }
        }
        index += 1;
    }
    anchors
}

/// The optional annotations that something says.
pub open spec fn optional_annotations(annotations: Option<&[AnnotatedIdentity]>) -> Option<
    Seq<AnnotatedIdentityView>,
> {
    match annotations {
        Some(list) => Some(annotation_views(list@)),
        None => None,
    }
}

/// Which blocks the layout of the file stays with: those that annotations of the file name; without
/// annotations, the document's own where the file is exactly the document, else none.
pub open spec fn chosen_layout(
    document: Document,
    base: Option<&SourceBase>,
    annotations: Option<Seq<AnnotatedIdentityView>>,
) -> Seq<LayoutIdentityView> {
    match annotations {
        Some(list) => annotated_layout(list),
        None => match base {
            Some(source) => if same_document(source.document, document) {
                document_layout(doc_views(document.blocks@))
            } else {
                Seq::empty()
            },
            None => Seq::empty(),
        },
    }
}

/// Which blocks the layout of the file stays with.
pub fn projection_layout_identities(
    document: &Document,
    base: Option<&SourceBase>,
    base_annotations: Option<&[AnnotatedIdentity]>,
) -> (identities: Vec<StructuralLayoutIdentity>)
    ensures
        layout_views(identities@) == chosen_layout(
            *document,
            base,
            optional_annotations(base_annotations),
        ),
{
    if let Some(annotations) = base_annotations {
        return structural_layout_identities(annotations);
    }
    if let Some(source) = base {
        if check_same_document(&source.document, document) {
            return document_layout_identities(&document.blocks);
        }
    }
    let none: Vec<StructuralLayoutIdentity> = Vec::new();
    assert(layout_views(none@) =~= Seq::<LayoutIdentityView>::empty());
    none
}

/// What a document renders to, given what serialising it gave.
pub open spec fn rendered_document(
    format: ProjectionFormat,
    base: Option<Seq<u8>>,
    blocks: Seq<DocBlockView>,
    layout: Seq<LayoutIdentityView>,
    rendering: PageRendering,
) -> Result<RenderedView, ProjectionError> {
    let target = file_text(format, base, rendering.serialized@);
    match unused_prefix(target) {
        None => Err(ProjectionError::SpanInstrumentationMismatch),
        Some(prefix) => match annotated(
            target,
            file_text(format, base, rendering.marked@),
            prefix,
            blocks,
        ) {
            None => Err(ProjectionError::SpanInstrumentationMismatch),
            Some(annotations) => Ok(
                RenderedView {
                    target,
                    annotations,
                    base_layout_identities: layout,
                    generated_anchors: anchors_among(blocks, blocks.len()),
                },
            ),
        },
    }
}

/// Renders a document with chosen layout identities, given what serialising it gave.
fn render_document(
    format: ProjectionFormat,
    base: Option<&SourceBase>,
    document: &Document,
    layout: Vec<StructuralLayoutIdentity>,
    rendering: &PageRendering,
) -> (rendered: Result<RenderedProjection, ProjectionError>)
    requires
        forall|i: int|
            0 <= i < document.blocks@.len() ==> (#[trigger] document.blocks@[i]).locator@.len() > 0,
    ensures
        match rendered_document(
            format,
            base_bytes(base),
            doc_views(document.blocks@),
            layout_views(layout@),
            *rendering,
        ) {
            Ok(view) => rendered is Ok && rendered->Ok_0@ == view,
            Err(error) => rendered == Err::<RenderedProjection, _>(error),
        },
{
    let text: Option<&[u8]> = match base {
        Some(source) => Some(source.bytes.as_slice()),
        None => None,
    };
    assert(optional_file(text) == base_bytes(base));
    let target = file_bytes(format, copy_bytes(rendering.serialized.as_slice()), text);
    let marked = file_bytes(format, copy_bytes(rendering.marked.as_slice()), text);
    let prefix = match unused_mark_prefix(target.as_slice()) {
        Ok(prefix) => prefix,
        Err(error) => return Err(error),
    };
    let annotations = match annotate_serialized_blocks(
        target.as_slice(),
        marked.as_slice(),
        prefix.as_str(),
        &document.blocks,
    ) {
        Ok(annotations) => annotations,
        Err(error) => return Err(error),
    };
    let generated_anchors = generated_anchors(&document.blocks);
    Ok(
        RenderedProjection {
            target,
            annotations,
            base_layout_identities: layout,
            generated_anchors,
        },
    )
}

/// A projected document has a position for every block.
proof fn lemma_document_locators(
    page: MaterializedPage,
    format: ProjectionFormat,
    document: Document,
)
    requires
        projected_blocks(page.blocks@, format) is Ok,
        is_document_of(document, page, projected_blocks(page.blocks@, format)->Ok_0),
    ensures
        forall|i: int|
            0 <= i < document.blocks@.len() ==> (#[trigger] document.blocks@[i]).locator@.len() > 0,
{
    let roots = crate::forest::siblings_of(page.blocks@, None);
    crate::document::lemma_siblings_locators(
        page.blocks@,
        format,
        roots,
        roots.len(),
        Seq::empty(),
        page.blocks@.len(),
    );
    assert forall|i: int| 0 <= i < document.blocks@.len() implies (
    #[trigger] document.blocks@[i]).locator@.len() > 0 by {
        assert(doc_views(document.blocks@)[i] == document.blocks@[i]@);
    }
}

/// What to serialise for a page: its document, and the layout identities to serialise it with.
#[derive(Debug, PartialEq, Eq)]
pub struct RenderInput {
    pub format: ProjectionFormat,
    pub document: Document,
    pub layout: Vec<StructuralLayoutIdentity>,
}

/// Checks the bytes that a projection starts from.
fn check_base(base: Option<&SourceBase>) -> (checked: Result<(), ProjectionError>)
    ensures
        checked == base_check(base),
{
    match base {
        Some(source) => if is_utf8(source.bytes.as_slice()) {
            Ok(())
        } else {
            Err(ProjectionError::InvalidUtf8("projection base"))
        },
        None => Ok(()),
    }
}

/// Whether the bytes that a projection starts from are text.
pub open spec fn base_check(base: Option<&SourceBase>) -> Result<(), ProjectionError> {
    match base {
        Some(source) => if vstd::utf8::valid_utf8(source.bytes@) {
            Ok(())
        } else {
            Err(ProjectionError::InvalidUtf8("projection base"))
        },
        None => Ok(()),
    }
}

/// The document of a page that can be rendered against a base, or why there is none.
pub open spec fn renderable(page: MaterializedPage, base: Option<&SourceBase>) -> Result<
    Seq<DocBlockView>,
    ProjectionError,
> {
    match page_format(page) {
        Err(error) => Err(error),
        Ok(format) => match base_check(base) {
            Err(error) => Err(error),
            Ok(()) => projected_blocks(page.blocks@, format),
        },
    }
}

/// What to serialise for a page against a base, or why the page cannot be rendered.
pub fn render_input(
    page: &MaterializedPage,
    base: Option<&SourceBase>,
    base_annotations: Option<&[AnnotatedIdentity]>,
) -> (input: Result<RenderInput, ProjectionError>)
    ensures
        match renderable(*page, base) {
            Err(error) => input == Err::<RenderInput, _>(error),
            Ok(blocks) => input is Ok && page_format(*page) == Ok::<_, ProjectionError>(
                input->Ok_0.format,
            ) && is_document_of(input->Ok_0.document, *page, blocks) && layout_views(
                input->Ok_0.layout@,
            ) == chosen_layout(
                input->Ok_0.document,
                base,
                optional_annotations(base_annotations),
            ),
        },
{
    let format = match format_for_page(page) {
        Ok(format) => format,
        Err(error) => return Err(error),
    };
    if let Err(error) = check_base(base) {
        return Err(error);
    }
    let document = match build_page_document(page, format) {
        Ok(document) => document,
        Err(error) => return Err(error),
    };
    let layout = projection_layout_identities(&document, base, base_annotations);
    Ok(RenderInput { format, document, layout })
}

/// Whether a document is that of a page, by preamble and outline.
pub open spec fn page_is_source(page: MaterializedPage, blocks: Seq<DocBlockView>, source:
    SourceDocument) -> bool {
    &&& optional_text(source.pre_block) == optional_text(page.preamble)
    &&& crate::semantics::source_outline(source) == blocks.map_values(
        |block: DocBlockView| crate::semantics::OutlineEntry {
            locator: block.locator,
            raw: block.raw,
        },
    )
}

/// Which blocks the layout of the file stays with, said of a page's projected blocks.
pub open spec fn page_layout(
    page: MaterializedPage,
    blocks: Seq<DocBlockView>,
    base: Option<&SourceBase>,
    annotations: Option<Seq<AnnotatedIdentityView>>,
) -> Seq<LayoutIdentityView> {
    match annotations {
        Some(list) => annotated_layout(list),
        None => match base {
            Some(source) => if page_is_source(page, blocks, source.document) {
                document_layout(blocks)
            } else {
                Seq::empty()
            },
            None => Seq::empty(),
        },
    }
}

/// The layout chosen for a document is the one chosen for its page.
proof fn lemma_page_layout(
    page: MaterializedPage,
    blocks: Seq<DocBlockView>,
    document: Document,
    base: Option<&SourceBase>,
    annotations: Option<Seq<AnnotatedIdentityView>>,
)
    requires
        is_document_of(document, page, blocks),
    ensures
        chosen_layout(document, base, annotations) == page_layout(page, blocks, base, annotations),
{
    let outline = blocks.map_values(
        |block: DocBlockView| crate::semantics::OutlineEntry {
            locator: block.locator,
            raw: block.raw,
        },
    );
    assert(crate::semantics::document_outline(document) =~= outline) by {
        assert forall|i: int| 0 <= i < outline.len() implies
            crate::semantics::document_outline(document)[i] == outline[i] by {
            assert(doc_views(document.blocks@)[i] == document.blocks@[i]@);
        }
    }
}

/// What a page renders to against a base, given what serialising it gave.
pub open spec fn rendered_page(
    page: MaterializedPage,
    base: Option<&SourceBase>,
    annotations: Option<Seq<AnnotatedIdentityView>>,
    rendering: PageRendering,
) -> Result<RenderedView, ProjectionError> {
    match renderable(page, base) {
        Err(error) => Err(error),
        Ok(blocks) => rendered_document(
            page_format(page)->Ok_0,
            base_bytes(base),
            blocks,
            page_layout(page, blocks, base, annotations),
            rendering,
        ),
    }
}

/// Renders a page against a base, given what serialising it gave.
pub fn render_projection_page(
    page: &MaterializedPage,
    base: Option<&SourceBase>,
    base_annotations: Option<&[AnnotatedIdentity]>,
    rendering: &PageRendering,
) -> (rendered: Result<RenderedProjection, ProjectionError>)
    ensures
        match rendered_page(*page, base, optional_annotations(base_annotations), *rendering) {
            Ok(view) => rendered is Ok && rendered->Ok_0@ == view,
            Err(error) => rendered == Err::<RenderedProjection, _>(error),
        },
{
    let input = match render_input(page, base, base_annotations) {
        Ok(input) => input,
        Err(error) => return Err(error),
    };
    proof {
        let blocks = renderable(*page, base)->Ok_0;
        lemma_document_locators(*page, input.format, input.document);
        lemma_page_layout(
            *page,
            blocks,
            input.document,
            base,
            optional_annotations(base_annotations),
        );
    }
    render_document(input.format, base, &input.document, input.layout, rendering)
}

/// What a page renders to with layout identities that were chosen before.
pub open spec fn rendered_with_layout(
    page: MaterializedPage,
    base: Option<&SourceBase>,
    layout: Seq<LayoutIdentityView>,
    rendering: PageRendering,
) -> Result<RenderedView, ProjectionError> {
    match renderable(page, base) {
        Err(error) => Err(error),
        Ok(blocks) => rendered_document(
            page_format(page)->Ok_0,
            base_bytes(base),
            blocks,
            layout,
            rendering,
        ),
    }
}

/// Renders a page with layout identities that were chosen before.
pub fn render_projection_page_with_layout_identities(
    page: &MaterializedPage,
    base: Option<&SourceBase>,
    base_layout_identities: &[StructuralLayoutIdentity],
    rendering: &PageRendering,
) -> (rendered: Result<RenderedProjection, ProjectionError>)
    ensures
        match rendered_with_layout(*page, base, layout_views(base_layout_identities@), *rendering) {
            Ok(view) => rendered is Ok && rendered->Ok_0@ == view,
            Err(error) => rendered == Err::<RenderedProjection, _>(error),
        },
{
    let input = match render_input(page, base, None) {
        Ok(input) => input,
        Err(error) => return Err(error),
    };
    proof {
        lemma_document_locators(*page, input.format, input.document);
    }
    render_document(
        input.format,
        base,
        &input.document,
        copy_layout(base_layout_identities),
        rendering,
    )
}

/// The bytes of a page as an editor asks for it, without any intent.
pub fn render_requested_page_document(
    page: &MaterializedPage,
    base: Option<&SourceBase>,
    rendering: &PageRendering,
) -> (bytes: Result<Vec<u8>, ProjectionError>)
    ensures
        match rendered_page(*page, base, None, *rendering) {
            Ok(view) => bytes is Ok && bytes->Ok_0@ == view.target,
            Err(error) => bytes == Err::<Vec<u8>, _>(error),
        },
{
    match render_projection_page(page, base, None, rendering) {
        Ok(rendered) => Ok(rendered.target),
        Err(error) => Err(error),
    }
}

/// A planned projection: the intent, the bytes it starts from, the bytes it leaves, and which
/// blocks stand where in both.
#[derive(Clone, Debug, PartialEq, Eq)]
pub struct ProjectionPlan {
    pub intent: ProjectionIntent,
    pub base: Option<BaseBlob>,
    pub target: Vec<u8>,
    pub guarded_layout: GuardedProjectionLayout,
    pub generated_anchors: Vec<PolicyGeneratedAnchor>,
}

/// What a plan says.
pub struct ProjectionPlanView {
    pub intent: ProjectionIntentView,
    pub base: Option<Seq<u8>>,
    pub target: Seq<u8>,
    pub guarded_layout: GuardedLayoutView,
    pub generated_anchors: Seq<PolicyGeneratedAnchor>,
}

impl View for ProjectionPlan {
    type V = ProjectionPlanView;

    open spec fn view(&self) -> ProjectionPlanView {
        ProjectionPlanView {
            intent: self.intent@,
            base: match self.base {
                Some(base) => Some(base@),
                None => None,
            },
            target: self.target@,
            guarded_layout: self.guarded_layout@,
            generated_anchors: self.generated_anchors@,
        }
    }
}

impl ProjectionPlan {
    /// Whether the descriptions in the plan are those of its bytes.
    pub open spec fn wf(self) -> bool {
        &&& self.intent.wf()
        &&& self.base is Some ==> self.base->0.wf()
    }

    /// The intent.
    pub fn intent(&self) -> (intent: &ProjectionIntent)
        ensures
            *intent == self.intent,
    {
        &self.intent
    }

    /// The bytes that the projection leaves.
    pub fn target(&self) -> (target: &[u8])
        ensures
            target@ == self.target@,
    {
        self.target.as_slice()
    }

    /// The bytes that the projection starts from.
    pub fn base(&self) -> (base: Option<&BaseBlob>)
        ensures
            match self.base {
                Some(held) => base is Some && *base->0 == held,
                None => base is None,
            },
    {
        self.base.as_ref()
    }

    /// Which blocks stand where before and after.
    pub fn guarded_layout(&self) -> (layout: &GuardedProjectionLayout)
        ensures
            *layout == self.guarded_layout,
    {
        &self.guarded_layout
    }

    /// The identities that a policy put into the bytes.
    pub fn generated_anchors(&self) -> (anchors: &[PolicyGeneratedAnchor])
        ensures
            anchors@ == self.generated_anchors@,
    {
        self.generated_anchors.as_slice()
    }
}

/// The intent to leave `target` where `base` is now.
pub open spec fn planned_intent(
    workspace_id: WorkspaceId,
    state: ProjectionPageState,
    base: Option<Seq<u8>>,
    target: Seq<u8>,
    annotations: Seq<AnnotatedIdentityView>,
) -> ProjectionIntentView {
    ProjectionIntentView {
        workspace_id,
        page_id: state.page.page_id,
        path: state.page.path@,
        frontier: state.frontier@,
        claim_evidence: claim_views(state.claim_evidence@),
        precondition: match base {
            Some(bytes) => ProjectionPrecondition::Base(BlobDescription::spec_of(bytes)),
            None => ProjectionPrecondition::Absent,
        },
        target_kind: ProjectionTargetKind::Present,
        target: BlobDescription::spec_of(target),
        annotations,
    }
}

/// The plan that a rendered page makes.
pub open spec fn plan_of_rendered(
    workspace_id: WorkspaceId,
    state: ProjectionPageState,
    base: Option<Seq<u8>>,
    rendered: RenderedView,
) -> ProjectionPlanView {
    ProjectionPlanView {
        intent: planned_intent(workspace_id, state, base, rendered.target, rendered.annotations),
        base,
        target: rendered.target,
        guarded_layout: GuardedLayoutView {
            base: rendered.base_layout_identities,
            target: annotated_layout(rendered.annotations),
            revive_page_self_base: false,
        },
        generated_anchors: rendered.generated_anchors,
    }
}

/// A base that is lent.
pub open spec fn lent_base(base: &Option<SourceBase>) -> Option<&SourceBase> {
    match base {
        None => None,
        Some(base) => Some(base),
    }
}

/// Lends a base.
pub fn lend_base(base: &Option<SourceBase>) -> (lent: Option<&SourceBase>)
    ensures
        lent == lent_base(base),
{
    match base {
        None => None,
        Some(base) => Some(base),
    }
}

/// The bytes of an optional base.
pub open spec fn base_bytes(base: Option<&SourceBase>) -> Option<Seq<u8>> {
    match base {
        Some(source) => Some(source.bytes@),
        None => None,
    }
}

/// The optional bytes that something says.
pub open spec fn optional_bytes(bytes: Option<&[u8]>) -> Option<Seq<u8>> {
    match bytes {
        Some(list) => Some(list@),
        None => None,
    }
}

/// The intent to leave `target` where a base is now.
fn make_intent(
    workspace_id: WorkspaceId,
    state: &ProjectionPageState,
    precondition: ProjectionPrecondition,
    target: BlobDescription,
    annotations: Vec<AnnotatedIdentity>,
) -> (intent: Result<ProjectionIntent, ProjectionError>)
    ensures
        intent is Ok,
        intent->Ok_0.wf(),
        intent->Ok_0@ == (ProjectionIntentView {
            workspace_id,
            page_id: state.page.page_id,
            path: state.page.path@,
            frontier: state.frontier@,
            claim_evidence: claim_views(state.claim_evidence@),
            precondition,
            target_kind: ProjectionTargetKind::Present,
            target,
            annotations: annotation_views(annotations@),
        }),
{
    match ProjectionIntent::new(
        workspace_id,
        state.page.page_id,
        state.page.path.duplicate(),
        state.frontier.duplicate(),
        copy_claims(state.claim_evidence.as_slice()),
        precondition,
        ProjectionTargetKind::Present,
        target,
        annotations,
    ) {
        Ok(intent) => Ok(intent),
        Err(error) => Err(ProjectionError::Receipt(error)),
    }
}

/// The plan that a rendered page makes.
pub fn projection_plan_from_rendered(
    workspace_id: WorkspaceId,
    state: &ProjectionPageState,
    expected_base: Option<&[u8]>,
    rendered: RenderedProjection,
) -> (plan: Result<ProjectionPlan, ProjectionError>)
    ensures
        plan is Ok,
        plan->Ok_0.wf(),
        plan->Ok_0@ == plan_of_rendered(
            workspace_id,
            *state,
            optional_bytes(expected_base),
            rendered@,
        ),
{
    let base = match expected_base {
        Some(bytes) => Some(BaseBlob::new(copy_bytes(bytes))),
        None => None,
    };
    let precondition = match &base {
        Some(base) => ProjectionPrecondition::Base(base.description()),
        None => ProjectionPrecondition::Absent,
    };
    let guarded_layout = GuardedProjectionLayout::new(
        rendered.base_layout_identities,
        rendered.annotations.as_slice(),
    );
    let target = BlobDescription::of(rendered.target.as_slice());
    match make_intent(workspace_id, state, precondition, target, rendered.annotations) {
        Ok(intent) => Ok(
            ProjectionPlan {
                intent,
                base,
                target: rendered.target,
                guarded_layout,
                generated_anchors: rendered.generated_anchors,
            },
        ),
        Err(error) => Err(error),
    }
}

/// Why an exact source cannot be adopted.
#[derive(Debug, PartialEq, Eq)]
pub enum ExactSourceProjectionError {
    Projection(ProjectionError),
    Semantic(ExactSourceSemanticDifference),
}

/// What a refusal to adopt a source says.
pub enum AdoptionErrorView {
    Projection(ProjectionError),
    Semantic(SemanticDifferenceView),
}

impl View for ExactSourceProjectionError {
    type V = AdoptionErrorView;

    open spec fn view(&self) -> AdoptionErrorView {
        match *self {
            ExactSourceProjectionError::Projection(error) => AdoptionErrorView::Projection(error),
            ExactSourceProjectionError::Semantic(difference) => AdoptionErrorView::Semantic(
                difference@,
            ),
        }
    }
}

/// What is reported of a Markdown file that its own serialisation changes.
pub open spec fn unstable_markdown() -> Seq<char> {
    "Markdown parsing and format-preserving serialization change its semantic document"@
}

/// Where the first inverted range is among the first `n`.
pub open spec fn spans_fault(spans: Seq<(usize, usize)>, n: nat) -> bool {
    exists|i: int| 0 <= i < n && (#[trigger] spans[i]).1 < spans[i].0
}

/// The blocks of a document with the ranges that the parser gave.
pub open spec fn source_annotations(
    blocks: Seq<DocBlockView>,
    spans: Seq<(usize, usize)>,
) -> Seq<AnnotatedIdentityView> {
    Seq::new(
        blocks.len(),
        |i: int|
            AnnotatedIdentityView {
                locator: blocks[i].locator,
                span: StructuralSpan { start: spans[i].0 as u64, end: spans[i].1 as u64 },
                block_id: blocks[i].block_id,
                logseq_uuid: blocks[i].logseq_uuid,
            },
    )
}

/// Whether two annotations bind the same block and written identity to the same position.
pub open spec fn binds_same_identity(a: AnnotatedIdentityView, b: AnnotatedIdentityView) -> bool {
    a.locator == b.locator && a.block_id == b.block_id && a.logseq_uuid == b.logseq_uuid
}

/// Whether expected annotations, if there are any, bind what rendered annotations bind.
pub open spec fn annotations_agree(
    expected: Option<Seq<AnnotatedIdentityView>>,
    rendered: Seq<AnnotatedIdentityView>,
) -> bool {
    match expected {
        None => true,
        Some(list) => list.len() == rendered.len() && forall|i: int|
            0 <= i < list.len() ==> binds_same_identity(#[trigger] list[i], rendered[i]),
    }
}

/// The plan that adopts an exact source.
pub open spec fn plan_of_source(
    workspace_id: WorkspaceId,
    state: ProjectionPageState,
    source: Seq<u8>,
    expected: Option<Seq<AnnotatedIdentityView>>,
    annotations: Seq<AnnotatedIdentityView>,
    anchors: Seq<PolicyGeneratedAnchor>,
) -> ProjectionPlanView {
    ProjectionPlanView {
        intent: planned_intent(workspace_id, state, Some(source), source, annotations),
        base: Some(source),
        target: source,
        guarded_layout: GuardedLayoutView {
            base: match expected {
                Some(list) => annotated_layout(list),
                None => annotated_layout(annotations),
            },
            target: annotated_layout(annotations),
            revive_page_self_base: false,
        },
        generated_anchors: anchors,
    }
}

/// The difference between a page's projected blocks and a file, if there is one.
pub open spec fn page_difference(
    page: MaterializedPage,
    blocks: Seq<DocBlockView>,
    properties: Seq<Vec<(String, String)>>,
    source: SourceDocument,
) -> Option<SemanticDifferenceView> {
    let a = blocks.map_values(
        |block: DocBlockView| crate::semantics::OutlineEntry {
            locator: block.locator,
            raw: block.raw,
        },
    );
    let b = crate::semantics::source_outline(source);
    if optional_text(page.preamble) != optional_text(source.pre_block) {
        Some(SemanticDifferenceView::PreambleOrPageProperties)
    } else if a.len() != b.len() {
        Some(SemanticDifferenceView::BlockCount { accepted: a.len(), source: b.len() })
    } else {
        match crate::semantics::first_moved(a, b, a.len()) {
            Some(difference) => Some(difference),
            None => crate::semantics::first_paired(a, properties, source, a.len()),
        }
    }
}

/// The plan that adopts an exact source as the projection of accepted state, or why the source
/// cannot be adopted.
pub open spec fn source_plan(
    workspace_id: WorkspaceId,
    state: ProjectionPageState,
    source: SourceBase,
    expected: Option<Seq<AnnotatedIdentityView>>,
    rendering: PageRendering,
) -> Result<ProjectionPlanView, AdoptionErrorView> {
    match page_format(state.page) {
        Err(error) => Err(AdoptionErrorView::Projection(error)),
        Ok(format) => if !vstd::utf8::valid_utf8(source.bytes@) {
            Err(AdoptionErrorView::Projection(ProjectionError::InvalidUtf8("projection base")))
        } else {
            match source.strict {
                Err(message) => Err(
                    AdoptionErrorView::Semantic(
                        SemanticDifferenceView::UnsupportedSourceLayout(message@),
                    ),
                ),
                Ok(parsed) => if format == ProjectionFormat::Markdown && !parsed.round_trips {
                    Err(
                        AdoptionErrorView::Semantic(
                            SemanticDifferenceView::UnsupportedSourceLayout(unstable_markdown()),
                        ),
                    )
                } else {
                    match projected_blocks(state.page.blocks@, format) {
                        Err(error) => Err(AdoptionErrorView::Projection(error)),
                        Ok(blocks) => adopted_plan(
                            workspace_id,
                            state,
                            format,
                            source,
                            parsed,
                            blocks,
                            expected,
                            rendering,
                        ),
                    }
                },
            }
        },
    }
}

/// The plan that adopts a source whose outline was parsed, or why it cannot be adopted.
pub open spec fn adopted_plan(
    workspace_id: WorkspaceId,
    state: ProjectionPageState,
    format: ProjectionFormat,
    source: SourceBase,
    parsed: StrictSource,
    blocks: Seq<DocBlockView>,
    expected: Option<Seq<AnnotatedIdentityView>>,
    rendering: PageRendering,
) -> Result<ProjectionPlanView, AdoptionErrorView> {
    match page_difference(state.page, blocks, rendering.properties@, parsed.document) {
        Some(difference) => Err(AdoptionErrorView::Semantic(difference)),
        None => if parsed.block_spans@.len() != blocks.len() {
            Err(
                AdoptionErrorView::Semantic(
                    SemanticDifferenceView::BlockCount {
                        accepted: blocks.len(),
                        source: parsed.block_spans@.len(),
                    },
                ),
            )
        } else if spans_fault(parsed.block_spans@, blocks.len()) {
            Err(
                AdoptionErrorView::Projection(ProjectionError::Receipt(ReceiptError::InvertedSpan)),
            )
        } else {
            match rendered_document(
                format,
                Some(source.bytes@),
                blocks,
                page_layout(state.page, blocks, Some(&source), expected),
                rendering,
            ) {
                Err(error) => Err(AdoptionErrorView::Projection(error)),
                Ok(rendered) => if rendered.target == source.bytes@ && annotations_agree(
                    expected,
                    rendered.annotations,
                ) {
                    Ok(plan_of_rendered(workspace_id, state, Some(source.bytes@), rendered))
                } else {
                    Ok(
                        plan_of_source(
                            workspace_id,
                            state,
                            source.bytes@,
                            expected,
                            source_annotations(blocks, parsed.block_spans@),
                            rendered.generated_anchors,
                        ),
                    )
                },
            }
        },
    }
}

/// The blocks of a document with the ranges that the parser gave.
fn annotate_source(blocks: &Vec<DocBlock>, spans: &Vec<(usize, usize)>) -> (annotations: Result<
    Vec<AnnotatedIdentity>,
    ProjectionError,
>)
    requires
        blocks@.len() == spans@.len(),
        forall|i: int| 0 <= i < blocks@.len() ==> (#[trigger] blocks@[i]).locator@.len() > 0,
    ensures
        if spans_fault(spans@, blocks@.len()) {
            annotations == Err::<Vec<AnnotatedIdentity>, _>(
                ProjectionError::Receipt(ReceiptError::InvertedSpan),
            )
        } else {
            annotations is Ok && annotation_views(annotations->Ok_0@) == source_annotations(
                doc_views(blocks@),
                spans@,
            )
        },
{
    let mut annotations: Vec<AnnotatedIdentity> = Vec::new();
    let mut at: usize = 0;
    while at < blocks.len()
        invariant
            at <= blocks@.len(),
            blocks@.len() == spans@.len(),
            forall|i: int| 0 <= i < blocks@.len() ==> (#[trigger] blocks@[i]).locator@.len() > 0,
            forall|i: int| 0 <= i < at ==> (#[trigger] spans@[i]).0 <= spans@[i].1,
            annotations@.len() == at,
            forall|j: int|
                0 <= j < at ==> (#[trigger] annotations@[j])@ == source_annotations(
                    doc_views(blocks@),
                    spans@,
                )[j],
        decreases blocks@.len() - at,
    {
        let block = &blocks[at];
        let (start, end): (usize, usize) = spans[at];
        assert(doc_views(blocks@)[at as int] == block@);
        let locator = match StructuralLocator::new(copy_words(block.locator.as_slice())) {
            Ok(locator) => locator,
            Err(error) => return Err(ProjectionError::Receipt(error)),
        };
        let span = match StructuralSpan::new(start as u64, end as u64) {
            Ok(span) => span,
            Err(error) => {
                assert(spans@[at as int].1 < spans@[at as int].0);
                return Err(ProjectionError::Receipt(error));
            },
        };
        annotations.push(
            AnnotatedIdentity::new(locator, span, block.block_id, block.logseq_uuid),
        );
        at += 1;
    }
    assert(annotation_views(annotations@) =~= source_annotations(doc_views(blocks@), spans@));
    Ok(annotations)
}

/// Whether expected annotations, if there are any, bind what rendered annotations bind.
fn check_annotations_agree(
    expected: Option<&[AnnotatedIdentity]>,
    rendered: &Vec<AnnotatedIdentity>,
) -> (agree: bool)
    ensures
        agree == annotations_agree(
            optional_annotations(expected),
            annotation_views(rendered@),
        ),
{
    match expected {
        None => true,
        Some(list) => {
            let ghost a = annotation_views(list@);
            let ghost b = annotation_views(rendered@);
            if list.len() != rendered.len() {
                assert(a.len() != b.len());
                return false;
            }
            let mut at: usize = 0;
            while at < list.len()
                invariant
                    at <= list@.len(),
                    list@.len() == rendered@.len(),
                    a == annotation_views(list@),
                    b == annotation_views(rendered@),
                    optional_annotations(expected) == Some(a),
                    forall|i: int| 0 <= i < at ==> binds_same_identity(#[trigger] a[i], b[i]),
                decreases list@.len() - at,
            {
                let x = &list[at];
                let y = &rendered[at];
                assert(a[at as int] == x@ && b[at as int] == y@);
                if !same_words(
                    x.locator.components.as_slice(),
                    y.locator.components.as_slice(),
                ) || x.block_id != y.block_id || !same_logseq(x.logseq_uuid, y.logseq_uuid) {
                    assert(!binds_same_identity(a[at as int], b[at as int]));
                    return false;
                }
                at += 1;
            }
            true
        },
    }
}

/// The difference found in a document is the difference of its page.
proof fn lemma_page_difference(
    page: MaterializedPage,
    blocks: Seq<DocBlockView>,
    document: Document,
    properties: Seq<Vec<(String, String)>>,
    source: SourceDocument,
)
    requires
        is_document_of(document, page, blocks),
    ensures
        semantic_difference(document, properties, source) == page_difference(
            page,
            blocks,
            properties,
            source,
        ),
{
    let outline = blocks.map_values(
        |block: DocBlockView| crate::semantics::OutlineEntry {
            locator: block.locator,
            raw: block.raw,
        },
    );
    assert(crate::semantics::document_outline(document) =~= outline) by {
        assert forall|i: int| 0 <= i < outline.len() implies
            crate::semantics::document_outline(document)[i] == outline[i] by {
            assert(doc_views(document.blocks@)[i] == document.blocks@[i]@);
        }
    }
}

/// Plans the adoption of an exact source as the projection of accepted state.
pub fn plan_exact_source_projection(
    workspace_id: WorkspaceId,
    state: &ProjectionPageState,
    source: &SourceBase,
    expected_base_annotations: Option<&[AnnotatedIdentity]>,
    rendering: &PageRendering,
) -> (plan: Result<ProjectionPlan, ExactSourceProjectionError>)
    ensures
        match source_plan(
            workspace_id,
            *state,
            *source,
            optional_annotations(expected_base_annotations),
            *rendering,
        ) {
            Ok(view) => plan is Ok && plan->Ok_0@ == view && plan->Ok_0.wf(),
            Err(error) => plan is Err && plan->Err_0@ == error,
        },
{
    let format = match format_for_page(&state.page) {
        Ok(format) => format,
        Err(error) => return Err(ExactSourceProjectionError::Projection(error)),
    };
    if !is_utf8(source.bytes.as_slice()) {
        return Err(
            ExactSourceProjectionError::Projection(ProjectionError::InvalidUtf8("projection base")),
        );
    }
    let parsed = match &source.strict {
        Ok(parsed) => parsed,
        Err(message) => return Err(
            ExactSourceProjectionError::Semantic(
                ExactSourceSemanticDifference::UnsupportedSourceLayout(message.clone()),
            ),
        ),
    };
    if format == ProjectionFormat::Markdown && !parsed.round_trips {
        return Err(
            ExactSourceProjectionError::Semantic(
                ExactSourceSemanticDifference::UnsupportedSourceLayout(
                    "Markdown parsing and format-preserving serialization change its semantic document".to_owned(),
                ),
            ),
        );
    }
    let accepted = match build_page_document(&state.page, format) {
        Ok(document) => document,
        Err(error) => return Err(ExactSourceProjectionError::Projection(error)),
    };
    let ghost blocks = projected_blocks(state.page.blocks@, format)->Ok_0;
    proof {
        lemma_page_difference(
            state.page,
            blocks,
            accepted,
            rendering.properties@,
            parsed.document,
        );
        lemma_document_locators(state.page, format, accepted);
        lemma_page_layout(
            state.page,
            blocks,
            accepted,
            Some(source),
            optional_annotations(expected_base_annotations),
        );
    }
    if let Err(difference) = compare_exact_source_semantics(
        &accepted,
        &rendering.properties,
        &parsed.document,
    ) {
        return Err(ExactSourceProjectionError::Semantic(difference));
    }
    if parsed.block_spans.len() != accepted.blocks.len() {
        return Err(
            ExactSourceProjectionError::Semantic(
                ExactSourceSemanticDifference::BlockCount {
                    accepted: accepted.blocks.len(),
                    source: parsed.block_spans.len(),
                },
            ),
        );
    }
    let annotations = match annotate_source(&accepted.blocks, &parsed.block_spans) {
        Ok(annotations) => annotations,
        Err(error) => return Err(ExactSourceProjectionError::Projection(error)),
    };
    let layout = projection_layout_identities(
        &accepted,
        Some(source),
        expected_base_annotations,
    );
    let rendered = match render_document(format, Some(source), &accepted, layout, rendering) {
        Ok(rendered) => rendered,
        Err(error) => return Err(ExactSourceProjectionError::Projection(error)),
    };
    if same_bytes(rendered.target.as_slice(), source.bytes.as_slice()) && check_annotations_agree(
        expected_base_annotations,
        &rendered.annotations,
    ) {
        return match projection_plan_from_rendered(
            workspace_id,
            state,
            Some(source.bytes.as_slice()),
            rendered,
        ) {
            Ok(plan) => Ok(plan),
            Err(error) => Err(ExactSourceProjectionError::Projection(error)),
        };
    }
    let base = BaseBlob::new(copy_bytes(source.bytes.as_slice()));
    let description = base.description();
    let guarded_layout = match expected_base_annotations {
        Some(expected) => GuardedProjectionLayout::from_authenticated_annotations(
            Some(expected),
            annotations.as_slice(),
        ),
        None => GuardedProjectionLayout::from_authenticated_annotations(
            Some(annotations.as_slice()),
            annotations.as_slice(),
        ),
    };
    match make_intent(
        workspace_id,
        state,
        ProjectionPrecondition::Base(description),
        description,
        annotations,
    ) {
        Ok(intent) => Ok(
            ProjectionPlan {
                intent,
                base: Some(base),
                target: copy_bytes(source.bytes.as_slice()),
                guarded_layout,
                generated_anchors: rendered.generated_anchors,
            },
        ),
        Err(error) => Err(ExactSourceProjectionError::Projection(error)),
    }
}

/// Plans the adoption of an exact source without annotations of it.
pub fn plan_projection_adopting_exact_source(
    workspace_id: WorkspaceId,
    state: &ProjectionPageState,
    source: &SourceBase,
    rendering: &PageRendering,
) -> (plan: Result<ProjectionPlan, ExactSourceProjectionError>)
    ensures
        match source_plan(workspace_id, *state, *source, None, *rendering) {
            Ok(view) => plan is Ok && plan->Ok_0@ == view && plan->Ok_0.wf(),
            Err(error) => plan is Err && plan->Err_0@ == error,
        },
{
    plan_exact_source_projection(workspace_id, state, source, None, rendering)
}

/// The plan of a page against a base with annotations: the base is adopted where it says exactly
/// what the page says, which an annotated Org base never is; otherwise the page is rendered.
pub open spec fn projection_plan(
    workspace_id: WorkspaceId,
    state: ProjectionPageState,
    base: Option<&SourceBase>,
    annotations: Option<Seq<AnnotatedIdentityView>>,
    rendering: PageRendering,
) -> Result<ProjectionPlanView, ProjectionError> {
    if annotations is Some && page_format(state.page) is Err {
        Err(page_format(state.page)->Err_0)
    } else {
        let may_adopt = annotations is None || page_format(state.page) == Ok::<_, ProjectionError>(
            ProjectionFormat::Markdown,
        );
        let adopted = if base is Some && may_adopt {
            Some(source_plan(workspace_id, state, *base->0, annotations, rendering))
        } else {
            None
        };
        match adopted {
            Some(Ok(plan)) => Ok(plan),
            Some(Err(AdoptionErrorView::Projection(error))) => Err(error),
            _ => match rendered_page(state.page, base, annotations, rendering) {
                Err(error) => Err(error),
                Ok(rendered) => Ok(
                    plan_of_rendered(workspace_id, state, base_bytes(base), rendered),
                ),
            },
        }
    }
}

/// Plans the projection of a page against a base with annotations.
pub fn plan_projection_with_layout_annotations(
    workspace_id: WorkspaceId,
    state: &ProjectionPageState,
    expected_base: Option<&SourceBase>,
    expected_base_annotations: Option<&[AnnotatedIdentity]>,
    rendering: &PageRendering,
) -> (plan: Result<ProjectionPlan, ProjectionError>)
    ensures
        match projection_plan(
            workspace_id,
            *state,
            expected_base,
            optional_annotations(expected_base_annotations),
            *rendering,
        ) {
            Ok(view) => plan is Ok && plan->Ok_0@ == view && plan->Ok_0.wf(),
            Err(error) => plan == Err::<ProjectionPlan, _>(error),
        },
{
    let may_adopt_exact_source = match expected_base_annotations {
        None => true,
        Some(_) => match format_for_page(&state.page) {
            Ok(format) => format == ProjectionFormat::Markdown,
            Err(error) => return Err(error),
        },
    };
    if let Some(source) = expected_base {
        if may_adopt_exact_source {
            match plan_exact_source_projection(
                workspace_id,
                state,
                source,
                expected_base_annotations,
                rendering,
            ) {
                Ok(plan) => return Ok(plan),
                Err(ExactSourceProjectionError::Semantic(_)) => {},
                Err(ExactSourceProjectionError::Projection(error)) => return Err(error),
            }
        }
    }
    let rendered = match render_projection_page(
        &state.page,
        expected_base,
        expected_base_annotations,
        rendering,
    ) {
        Ok(rendered) => rendered,
        Err(error) => return Err(error),
    };
    let bytes = match expected_base {
        Some(source) => Some(source.bytes.as_slice()),
        None => None,
    };
    projection_plan_from_rendered(workspace_id, state, bytes, rendered)
}

/// Plans the exact bytes of a page and where its blocks lie in them, given what serialising the
/// page gave.
pub fn plan_projection(
    workspace_id: WorkspaceId,
    state: &ProjectionPageState,
    expected_base: Option<&SourceBase>,
    rendering: &PageRendering,
) -> (plan: Result<ProjectionPlan, ProjectionError>)
    ensures
        match projection_plan(workspace_id, *state, expected_base, None, *rendering) {
            Ok(view) => plan is Ok && plan->Ok_0@ == view && plan->Ok_0.wf(),
            Err(error) => plan == Err::<ProjectionPlan, _>(error),
        },
{
    plan_projection_with_layout_annotations(workspace_id, state, expected_base, None, rendering)
}

} // verus!
