//! What holds of plans.

use vstd::prelude::*;

use crate::anchor_laws::{is_block_of, is_of_page, law_only_the_pages_blocks_are_projected};
use crate::annotation::{annotation_views, AnnotatedIdentity, AnnotatedIdentityView, StructuralSpan};
use crate::document::{page_format, projected_blocks, DocBlockView};
use crate::document_laws::{
    law_document_is_in_outline_order, law_every_block_is_projected_once,
    law_written_identities_are_distinct,
};
use crate::editor::prepared;
use crate::error::ProjectionError;
use crate::hash::BlobDescription;
use crate::ids::WorkspaceId;
use crate::incremental::{
    incremental_projection, lemma_ordered_members, ordered_by_start, parses_at,
    patch_annotations, patched_block, BlockParses,
};
use crate::inject::ProjectionFormat;
use crate::intent::{ProjectionPrecondition, ProjectionTargetKind};
use crate::line_ends::{file_text, has_crlf, lemma_with_crlf, lines_end_in_crlf};
use crate::manifest_check::{
    annotation_fault, annotations_check, annotations_fault, MAX_PROJECTION_ANNOTATIONS,
};
use crate::order::words_before;
use crate::page::{MaterializedBlock, MaterializedPage, ProjectionPageState};
use crate::plan::{
    annotated_layout, annotations_agree, base_bytes, page_is_source, page_layout, projection_plan,
    rendered_document, rendered_page, source_annotations, source_plan, spans_fault,
    LayoutIdentityView, PageRendering, SourceBase,
};
use crate::render::{
    found_from, lemma_found_from, lemma_last_line_start, span_mark, unmark_blocks, unused_prefix,
};

verus! {

/// Adopting a file keeps its bytes: the plan leaves exactly the bytes that it starts from, and says
/// so.
pub proof fn law_adoption_keeps_the_file(
    workspace_id: WorkspaceId,
    state: ProjectionPageState,
    source: SourceBase,
    expected: Option<Seq<AnnotatedIdentityView>>,
    rendering: PageRendering,
)
    requires
        source_plan(workspace_id, state, source, expected, rendering) is Ok,
    ensures
        ({
            let plan = source_plan(workspace_id, state, source, expected, rendering)->Ok_0;
            &&& plan.target == source.bytes@
            &&& plan.base == Some(source.bytes@)
            &&& plan.intent.target == BlobDescription::spec_of(source.bytes@)
            &&& plan.intent.precondition == ProjectionPrecondition::Base(plan.intent.target)
            &&& plan.intent.target_kind == ProjectionTargetKind::Present
        }),
{
}

/// A file is adopted only where its own outline and preamble are those of the accepted page.
pub proof fn law_only_the_same_outline_is_adopted(
    workspace_id: WorkspaceId,
    state: ProjectionPageState,
    source: SourceBase,
    expected: Option<Seq<AnnotatedIdentityView>>,
    rendering: PageRendering,
)
    requires
        source_plan(workspace_id, state, source, expected, rendering) is Ok,
    ensures
        source.strict is Ok,
        page_format(state.page) is Ok,
        projected_blocks(state.page.blocks@, page_format(state.page)->Ok_0) is Ok,
        page_is_source(
            state.page,
            projected_blocks(state.page.blocks@, page_format(state.page)->Ok_0)->Ok_0,
            source.strict->Ok_0.document,
        ),
{
    let blocks = projected_blocks(state.page.blocks@, page_format(state.page)->Ok_0)->Ok_0;
    let document = source.strict->Ok_0.document;
    let a = blocks.map_values(
        |block: DocBlockView| crate::semantics::OutlineEntry {
            locator: block.locator,
            raw: block.raw,
        },
    );
    let b = crate::semantics::source_outline(document);
    assert forall|i: int| 0 <= i < a.len() implies a[i] == b[i] by {
        crate::semantics::lemma_unpaired(a, rendering.properties@, document, i, a.len());
    }
    assert(a =~= b);
}

/// Annotations of a file that bind the blocks where rendering finds them do not change the intent:
/// what is planned with them is what is planned without them.
pub proof fn law_agreeing_annotations_change_nothing(
    workspace_id: WorkspaceId,
    state: ProjectionPageState,
    source: SourceBase,
    expected: Seq<AnnotatedIdentityView>,
    rendering: PageRendering,
)
    requires
        source_plan(workspace_id, state, source, None, rendering) is Ok,
        file_text(
            page_format(state.page)->Ok_0,
            Some(source.bytes@),
            rendering.serialized@,
        ) == source.bytes@,
        annotations_agree(
            Some(expected),
            source_plan(workspace_id, state, source, None, rendering)->Ok_0.intent.annotations,
        ),
    ensures
        ({
            let plain = source_plan(workspace_id, state, source, None, rendering);
            let bound = source_plan(workspace_id, state, source, Some(expected), rendering);
            &&& bound is Ok
            &&& bound->Ok_0.intent == plain->Ok_0.intent
            &&& bound->Ok_0.target == plain->Ok_0.target
            &&& bound->Ok_0.base == plain->Ok_0.base
            &&& bound->Ok_0.generated_anchors == plain->Ok_0.generated_anchors
        }),
{
}

/// Local line ends stay local in a plan: over a Markdown file with carriage returns before line
/// feeds, either the file stays as it is, or every line feed of what replaces it has a carriage
/// return before it.
pub proof fn law_plan_keeps_local_line_ends(
    workspace_id: WorkspaceId,
    state: ProjectionPageState,
    base: &SourceBase,
    annotations: Option<Seq<AnnotatedIdentityView>>,
    rendering: PageRendering,
)
    requires
        projection_plan(workspace_id, state, Some(base), annotations, rendering) is Ok,
        page_format(state.page) == Ok::<_, ProjectionError>(ProjectionFormat::Markdown),
        has_crlf(base.bytes@),
    ensures
        ({
            let plan =
                projection_plan(workspace_id, state, Some(base), annotations, rendering)->Ok_0;
            plan.target == base.bytes@ || lines_end_in_crlf(plan.target)
        }),
{
    lemma_with_crlf(rendering.serialized@);
}

/// A prepared request says what rendering the requested page against the captured annotations says,
/// where those put the same blocks at the same positions.
pub proof fn law_prepared_request_is_the_ordinary_rendering(
    requested_page: MaterializedPage,
    accepted_page: MaterializedPage,
    base: SourceBase,
    accepted_rendering: PageRendering,
    requested_rendering: PageRendering,
    captured: Seq<AnnotatedIdentityView>,
)
    requires
        prepared(
            requested_page,
            accepted_page,
            base,
            accepted_rendering,
            requested_rendering,
        ) is Ok,
        prepared(
            requested_page,
            accepted_page,
            base,
            accepted_rendering,
            requested_rendering,
        )->Ok_0.candidate_base_layout == annotated_layout(captured),
    ensures
        rendered_page(requested_page, Some(&base), Some(captured), requested_rendering) == Ok::<
            _,
            ProjectionError,
        >(
            prepared(
                requested_page,
                accepted_page,
                base,
                accepted_rendering,
                requested_rendering,
            )->Ok_0.rendered,
        ),
{
}

/// Whether something stands before the first mark of every block with an empty text that is read
/// back: its marks do not touch those of the block before.
pub open spec fn marks_are_separated(
    marked: Seq<u8>,
    prefix: Seq<char>,
    blocks: Seq<DocBlockView>,
) -> bool {
    forall|k: int|
        0 <= k < blocks.len() && (#[trigger] blocks[k]).raw.len() == 0 && unmark_blocks(
            marked,
            prefix,
            blocks,
            (k + 1) as nat,
        ) is Some ==> found_from(
            marked,
            crate::inject::utf8(span_mark(prefix, k, 'S')),
            unmark_blocks(marked, prefix, blocks, k as nat)->0.cursor,
        ) != Some(unmark_blocks(marked, prefix, blocks, k as nat)->0.cursor)
}

/// Taking marks out names each block once, in order, at a range that does not run backwards.
pub proof fn lemma_named(marked: Seq<u8>, prefix: Seq<char>, blocks: Seq<DocBlockView>, n: nat)
    requires
        n <= blocks.len(),
        unmark_blocks(marked, prefix, blocks, n) is Some,
    ensures
        ({
            let state = unmark_blocks(marked, prefix, blocks, n)->0;
            &&& 0 <= state.cursor <= marked.len()
            &&& state.clean.len() <= state.cursor
            &&& state.annotations.len() == n
            &&& forall|k: int|
                0 <= k < n ==> ({
                    let found = #[trigger] state.annotations[k];
                    &&& found.locator == blocks[k].locator
                    &&& found.block_id == blocks[k].block_id
                    &&& found.logseq_uuid == blocks[k].logseq_uuid
                    &&& marked.len() <= u64::MAX ==> found.span.start <= found.span.end
                })
        }),
    decreases n,
{
    if n > 0 {
        lemma_named(marked, prefix, blocks, (n - 1) as nat);
        let state = unmark_blocks(marked, prefix, blocks, (n - 1) as nat)->0;
        let start_mark = crate::inject::utf8(span_mark(prefix, n - 1, 'S'));
        let end_mark = crate::inject::utf8(span_mark(prefix, n - 1, 'E'));
        lemma_found_from(marked, start_mark, state.cursor);
        let start_at = found_from(marked, start_mark, state.cursor)->0;
        let inside = start_at + start_mark.len();
        lemma_found_from(marked, end_mark, inside);
        let before = state.clean + marked.subrange(state.cursor, start_at);
        lemma_last_line_start(before);
    }
}

/// Taking separated marks out names each block once, in order, with growing bytes.
proof fn lemma_unmarked(
    marked: Seq<u8>,
    prefix: Seq<char>,
    blocks: Seq<DocBlockView>,
    n: nat,
)
    requires
        n <= blocks.len(),
        unmark_blocks(marked, prefix, blocks, n) is Some,
        marks_are_separated(marked, prefix, blocks),
    ensures
        ({
            let state = unmark_blocks(marked, prefix, blocks, n)->0;
            &&& 0 <= state.cursor <= marked.len()
            &&& state.clean.len() <= marked.len()
            &&& state.clean.len() <= state.cursor
            &&& state.annotations.len() == n
            &&& forall|k: int|
                0 <= k < n ==> ({
                    let found = #[trigger] state.annotations[k];
                    &&& found.locator == blocks[k].locator
                    &&& found.block_id == blocks[k].block_id
                    &&& found.logseq_uuid == blocks[k].logseq_uuid
                    &&& marked.len() <= u64::MAX ==> found.span.start <= found.span.end
                        && found.span.end <= state.clean.len()
                })
        }),
    decreases n,
{
    if n > 0 {
        lemma_unmarked(marked, prefix, blocks, (n - 1) as nat);
        let state = unmark_blocks(marked, prefix, blocks, (n - 1) as nat)->0;
        let start_mark = crate::inject::utf8(span_mark(prefix, n - 1, 'S'));
        let end_mark = crate::inject::utf8(span_mark(prefix, n - 1, 'E'));
        lemma_found_from(marked, start_mark, state.cursor);
        let start_at = found_from(marked, start_mark, state.cursor)->0;
        let inside = start_at + start_mark.len();
        lemma_found_from(marked, end_mark, inside);
        let before = state.clean + marked.subrange(state.cursor, start_at);
        lemma_last_line_start(before);
        if blocks[n - 1].raw.len() == 0 {
            assert(found_from(marked, start_mark, state.cursor) != Some(state.cursor));
            assert(before.drop_last().len() >= state.clean.len());
        }
    }
}

/// Whether annotations name the blocks of a page: each block and no others, once, in outline order.
pub open spec fn names_page(
    blocks: Seq<MaterializedBlock>,
    annotations: Seq<AnnotatedIdentityView>,
) -> bool {
    &&& annotations.len() == blocks.len()
    &&& forall|i: int|
        0 <= i < blocks.len() ==> exists|k: int|
            0 <= k < annotations.len() && (#[trigger] annotations[k]).block_id == (
            #[trigger] blocks[i]).block_id
    &&& forall|k: int|
        0 <= k < annotations.len() ==> exists|i: int|
            0 <= i < blocks.len() && (#[trigger] blocks[i]).block_id == (
            #[trigger] annotations[k]).block_id
    &&& forall|k: int, l: int|
        0 <= k < l < annotations.len() ==> (#[trigger] annotations[k]).block_id != (
        #[trigger] annotations[l]).block_id && words_before(
            annotations[k].locator,
            annotations[l].locator,
        )
}

/// Whether no annotated range runs backwards.
pub open spec fn ranges_run_forward(annotations: Seq<AnnotatedIdentityView>) -> bool {
    forall|k: int|
        0 <= k < annotations.len() ==> (#[trigger] annotations[k]).span.start
            <= annotations[k].span.end
}

/// Whether annotations name the blocks of a page: each block and no others, once, in outline order,
/// at ranges inside as many bytes.
pub open spec fn annotates_page(
    blocks: Seq<MaterializedBlock>,
    annotations: Seq<AnnotatedIdentityView>,
    length: nat,
) -> bool {
    &&& names_page(blocks, annotations)
    &&& forall|k: int|
        0 <= k < annotations.len() ==> (#[trigger] annotations[k]).span.start
            <= annotations[k].span.end <= length
}

/// Whether annotations are those of projected blocks.
spec fn names_document(
    projected: Seq<DocBlockView>,
    annotations: Seq<AnnotatedIdentityView>,
) -> bool {
    &&& annotations.len() == projected.len()
    &&& forall|k: int|
        0 <= k < annotations.len() ==> (#[trigger] annotations[k]).block_id == projected[k].block_id
            && annotations[k].locator == projected[k].locator && annotations[k].logseq_uuid
            == projected[k].logseq_uuid
}

/// Whether annotations are those of projected blocks, at ranges inside as many bytes.
spec fn annotates_document(
    projected: Seq<DocBlockView>,
    annotations: Seq<AnnotatedIdentityView>,
    length: nat,
) -> bool {
    &&& annotations.len() == projected.len()
    &&& forall|k: int|
        0 <= k < annotations.len() ==> (#[trigger] annotations[k]).block_id == projected[k].block_id
            && annotations[k].locator == projected[k].locator && annotations[k].logseq_uuid
            == projected[k].logseq_uuid && annotations[k].span.start <= annotations[k].span.end
            <= length
}

/// Annotations of a projected page name the page's blocks.
proof fn lemma_names_page(
    blocks: Seq<MaterializedBlock>,
    format: ProjectionFormat,
    annotations: Seq<AnnotatedIdentityView>,
)
    requires
        projected_blocks(blocks, format) is Ok,
        names_document(projected_blocks(blocks, format)->Ok_0, annotations),
    ensures
        names_page(blocks, annotations),
{
    let projected = projected_blocks(blocks, format)->Ok_0;
    law_document_is_in_outline_order(blocks, format);
    law_every_block_is_projected_once(blocks, format);
    law_only_the_pages_blocks_are_projected(blocks, format);
    assert forall|i: int| 0 <= i < blocks.len() implies exists|k: int|
        0 <= k < annotations.len() && (#[trigger] annotations[k]).block_id == (
        #[trigger] blocks[i]).block_id by {
        let k = choose|k: int|
            0 <= k < blocks.len() && (#[trigger] projected[k]).block_id == blocks[i].block_id;
        assert(annotations[k].block_id == blocks[i].block_id);
    }
    assert forall|k: int| 0 <= k < annotations.len() implies exists|i: int|
        0 <= i < blocks.len() && (#[trigger] blocks[i]).block_id == (
        #[trigger] annotations[k]).block_id by {
        assert(is_of_page(blocks, format, projected[k]));
        let i = choose|i: int| is_block_of(blocks, format, projected[k], i);
        assert(blocks[i].block_id == annotations[k].block_id);
    }
    assert forall|k: int, l: int| 0 <= k < l < annotations.len() implies (
    #[trigger] annotations[k]).block_id != (#[trigger] annotations[l]).block_id && words_before(
        annotations[k].locator,
        annotations[l].locator,
    ) by {
        assert(projected[k].block_id != projected[l].block_id);
        assert(words_before(projected[k].locator, projected[l].locator));
    }
}

/// Annotations of a projected page inside as many bytes annotate the page.
proof fn lemma_annotates_page(
    blocks: Seq<MaterializedBlock>,
    format: ProjectionFormat,
    annotations: Seq<AnnotatedIdentityView>,
    length: nat,
)
    requires
        projected_blocks(blocks, format) is Ok,
        annotates_document(projected_blocks(blocks, format)->Ok_0, annotations, length),
    ensures
        annotates_page(blocks, annotations, length),
{
    lemma_names_page(blocks, format, annotations);
}

/// A plan's annotations name each block of the page once and no others, in outline order, and no
/// range runs backwards, whatever the outline engine gave. The marked text is no longer than a range
/// can say.
pub proof fn law_plan_names_the_page(
    workspace_id: WorkspaceId,
    state: ProjectionPageState,
    base: Option<&SourceBase>,
    annotations: Option<Seq<AnnotatedIdentityView>>,
    rendering: PageRendering,
)
    requires
        projection_plan(workspace_id, state, base, annotations, rendering) is Ok,
        file_text(
            page_format(state.page)->Ok_0,
            base_bytes(base),
            rendering.marked@,
        ).len() <= u64::MAX,
    ensures
        ({
            let plan = projection_plan(workspace_id, state, base, annotations, rendering)->Ok_0;
            &&& names_page(state.page.blocks@, plan.intent.annotations)
            &&& ranges_run_forward(plan.intent.annotations)
        }),
{
    let format = page_format(state.page)->Ok_0;
    let blocks = projected_blocks(state.page.blocks@, format)->Ok_0;
    let plan = projection_plan(workspace_id, state, base, annotations, rendering)->Ok_0;
    let prefix = unused_prefix(file_text(format, base_bytes(base), rendering.serialized@))->0;
    let marked = file_text(format, base_bytes(base), rendering.marked@);
    lemma_named(marked, prefix, blocks, blocks.len());
    if base is Some && base->0.strict is Ok {
        let spans = base->0.strict->Ok_0.block_spans@;
        let found = source_annotations(blocks, spans);
        if spans.len() == blocks.len() && !spans_fault(spans, blocks.len()) {
            assert forall|k: int| 0 <= k < found.len() implies (#[trigger] found[k]).span.start
                <= found[k].span.end by {
                assert(spans[k].0 <= spans[k].1);
            }
        }
    }
    lemma_names_page(state.page.blocks@, format, plan.intent.annotations);
}

/// Whether a rendering can be read back: its marks are separated, and its length fits a span.
pub open spec fn is_readable(
    format: ProjectionFormat,
    base: Option<Seq<u8>>,
    blocks: Seq<DocBlockView>,
    rendering: PageRendering,
) -> bool {
    let prefix = unused_prefix(file_text(format, base, rendering.serialized@));
    let marked = file_text(format, base, rendering.marked@);
    &&& marked.len() <= u64::MAX
    &&& prefix is Some ==> marks_are_separated(marked, prefix->0, blocks)
}

/// A rendered document annotates its blocks.
proof fn lemma_rendered_annotations(
    format: ProjectionFormat,
    base: Option<Seq<u8>>,
    blocks: Seq<DocBlockView>,
    layout: Seq<LayoutIdentityView>,
    rendering: PageRendering,
)
    requires
        rendered_document(format, base, blocks, layout, rendering) is Ok,
        is_readable(format, base, blocks, rendering),
    ensures
        ({
            let rendered = rendered_document(format, base, blocks, layout, rendering)->Ok_0;
            &&& annotates_document(blocks, rendered.annotations, rendered.target.len())
            &&& rendered.target.len() <= u64::MAX
        }),
{
    let prefix = unused_prefix(file_text(format, base, rendering.serialized@))->0;
    let marked = file_text(format, base, rendering.marked@);
    lemma_unmarked(marked, prefix, blocks, blocks.len());
}

/// A rendered page's annotations name each of its blocks once and no others, in outline order, at
/// ranges inside the file's bytes.
pub proof fn law_rendering_annotates_the_page(
    page: MaterializedPage,
    base: Option<&SourceBase>,
    annotations: Option<Seq<AnnotatedIdentityView>>,
    rendering: PageRendering,
)
    requires
        rendered_page(page, base, annotations, rendering) is Ok,
        is_readable(
            page_format(page)->Ok_0,
            base_bytes(base),
            projected_blocks(page.blocks@, page_format(page)->Ok_0)->Ok_0,
            rendering,
        ),
    ensures
        ({
            let rendered = rendered_page(page, base, annotations, rendering)->Ok_0;
            annotates_page(page.blocks@, rendered.annotations, rendered.target.len())
        }),
{
    let format = page_format(page)->Ok_0;
    let blocks = projected_blocks(page.blocks@, format)->Ok_0;
    let rendered = rendered_page(page, base, annotations, rendering)->Ok_0;
    let layout = page_layout(page, blocks, base, annotations);
    lemma_rendered_annotations(format, base_bytes(base), blocks, layout, rendering);
    lemma_annotates_page(page.blocks@, format, rendered.annotations, rendered.target.len());
}

/// A plan's annotations name each block of the page once and no others, in outline order, at ranges
/// inside the planned bytes; where a file is adopted, the ranges that its parser gave lie inside it.
pub proof fn law_plan_annotates_the_page(
    workspace_id: WorkspaceId,
    state: ProjectionPageState,
    base: Option<&SourceBase>,
    annotations: Option<Seq<AnnotatedIdentityView>>,
    rendering: PageRendering,
)
    requires
        projection_plan(workspace_id, state, base, annotations, rendering) is Ok,
        is_readable(
            page_format(state.page)->Ok_0,
            base_bytes(base),
            projected_blocks(state.page.blocks@, page_format(state.page)->Ok_0)->Ok_0,
            rendering,
        ),
        base is Some && base->0.strict is Ok ==> forall|i: int|
            0 <= i < base->0.strict->Ok_0.block_spans@.len() ==> (
            #[trigger] base->0.strict->Ok_0.block_spans@[i]).1 <= base->0.bytes@.len(),
    ensures
        ({
            let plan = projection_plan(workspace_id, state, base, annotations, rendering)->Ok_0;
            annotates_page(state.page.blocks@, plan.intent.annotations, plan.target.len())
        }),
{
    let format = page_format(state.page)->Ok_0;
    let blocks = projected_blocks(state.page.blocks@, format)->Ok_0;
    let plan = projection_plan(workspace_id, state, base, annotations, rendering)->Ok_0;
    let layout = page_layout(state.page, blocks, base, annotations);
    lemma_rendered_annotations(format, base_bytes(base), blocks, layout, rendering);
    if base is Some && base->0.strict is Ok {
        let spans = base->0.strict->Ok_0.block_spans@;
        let found = source_annotations(blocks, spans);
        if spans.len() == blocks.len() && !spans_fault(spans, blocks.len()) {
            assert forall|k: int| 0 <= k < found.len() implies (#[trigger] found[k]).span.start
                <= found[k].span.end <= base->0.bytes@.len() by {
                assert(spans[k].0 <= spans[k].1);
            }
        }
    }
    lemma_annotates_page(
        state.page.blocks@,
        format,
        plan.intent.annotations,
        plan.target.len(),
    );
}

/// The annotations of a rendered page are acceptable in a manifest: they name the page's blocks in
/// outline order, each block and each written identity once, and lie inside the bytes. There are no
/// more blocks than a manifest may annotate.
pub proof fn law_rendered_annotations_are_acceptable(
    page_blocks: Seq<MaterializedBlock>,
    format: ProjectionFormat,
    base: Option<Seq<u8>>,
    layout: Seq<LayoutIdentityView>,
    rendering: PageRendering,
    annotations: Seq<AnnotatedIdentity>,
)
    requires
        projected_blocks(page_blocks, format) is Ok,
        rendered_document(
            format,
            base,
            projected_blocks(page_blocks, format)->Ok_0,
            layout,
            rendering,
        ) is Ok,
        annotation_views(annotations) == rendered_document(
            format,
            base,
            projected_blocks(page_blocks, format)->Ok_0,
            layout,
            rendering,
        )->Ok_0.annotations,
        is_readable(format, base, projected_blocks(page_blocks, format)->Ok_0, rendering),
        page_blocks.len() <= MAX_PROJECTION_ANNOTATIONS,
    ensures
        annotations_check(
            annotations,
            file_text(format, base, rendering.serialized@).len() as u64,
        ) is Ok,
{
    let blocks = projected_blocks(page_blocks, format)->Ok_0;
    let rendered = rendered_document(format, base, blocks, layout, rendering)->Ok_0;
    let target = rendered.target;
    let views = annotation_views(annotations);
    lemma_rendered_annotations(format, base, blocks, layout, rendering);
    law_document_is_in_outline_order(page_blocks, format);
    law_every_block_is_projected_once(page_blocks, format);
    law_written_identities_are_distinct(page_blocks, format);
    assert forall|i: int| 0 <= i < annotations.len() implies #[trigger] annotation_fault(
        annotations,
        i,
        target.len() as u64,
    ) is None by {
        assert forall|j: int| 0 <= j < annotations.len() implies (#[trigger] annotations[j])@
            == rendered.annotations[j] by {
            assert(views[j] == annotations[j]@);
        }
        assert(annotations[i]@ == rendered.annotations[i]);
        if i > 0 {
            assert(annotations[i - 1]@ == rendered.annotations[i - 1]);
            assert(words_before(blocks[i - 1].locator, blocks[i].locator));
        }
        assert forall|j: int| 0 <= j < i implies (#[trigger] annotations[j]).block_id
            != annotations[i].block_id && (annotations[i].logseq_uuid is Some
            ==> annotations[j].logseq_uuid != annotations[i].logseq_uuid) by {
            assert(annotations[j]@ == rendered.annotations[j]);
            assert(blocks[j].block_id != blocks[i].block_id);
            if annotations[j].logseq_uuid is Some {
                assert(blocks[j].logseq_uuid != blocks[i].logseq_uuid);
            }
        }
    }
    lemma_no_fault(annotations, annotations.len(), target.len() as u64);
}

/// Where no annotation is faulty, nothing is.
proof fn lemma_no_fault(annotations: Seq<AnnotatedIdentity>, n: nat, target_length: u64)
    requires
        n <= annotations.len(),
        forall|i: int|
            0 <= i < annotations.len() ==> #[trigger] annotation_fault(
                annotations,
                i,
                target_length,
            ) is None,
    ensures
        annotations_fault(annotations, n, target_length) is None,
    decreases n,
{
    if n > 0 {
        lemma_no_fault(annotations, (n - 1) as nat, target_length);
    }
}

/// The bytes that patching puts in place of an annotated block.
pub open spec fn bytes_for(
    accepted: Seq<MaterializedBlock>,
    requested: Seq<MaterializedBlock>,
    base: Seq<u8>,
    annotations: Seq<AnnotatedIdentity>,
    parses: Seq<BlockParses>,
    k: int,
) -> Option<Seq<u8>> {
    patched_block(
        accepted,
        requested,
        base,
        annotations[k].block_id,
        annotations[k].span.start as int,
        annotations[k].span.end as int,
        has_crlf(base),
        parses_at(parses, k),
    )
}

/// Whether the span of annotation `k` holds its bytes in `target`.
spec fn span_holds(target: Seq<u8>, span: StructuralSpan, bytes: Option<Seq<u8>>) -> bool {
    &&& bytes is Some
    &&& span.start <= span.end <= target.len()
    &&& target.subrange(span.start as int, span.end as int) == bytes->0
}

/// Patching passes the annotations in order, and each span holds its block's bytes.
proof fn lemma_patched(
    accepted: Seq<MaterializedBlock>,
    requested: Seq<MaterializedBlock>,
    base: Seq<u8>,
    annotations: Seq<AnnotatedIdentity>,
    parses: Seq<BlockParses>,
    ordered: Seq<int>,
    n: nat,
    limit: nat,
)
    requires
        n <= ordered.len(),
        patch_annotations(accepted, requested, base, annotations, parses, ordered, n) is Going,
        patch_annotations(
            accepted,
            requested,
            base,
            annotations,
            parses,
            ordered,
            n,
        )->Going_0.target.len() <= limit,
        limit <= u64::MAX,
    ensures
        ({
            let state = patch_annotations(
                accepted,
                requested,
                base,
                annotations,
                parses,
                ordered,
                n,
            )->Going_0;
            &&& forall|k: int| #[trigger]
                state.spans.dom().contains(k) ==> span_holds(
                    state.target,
                    state.spans[k],
                    bytes_for(accepted, requested, base, annotations, parses, k),
                )
            &&& forall|m: int| 0 <= m < n ==> state.spans.dom().contains(#[trigger] ordered[m])
        }),
    decreases n,
{
    if n > 0 {
        let before = patch_annotations(
            accepted,
            requested,
            base,
            annotations,
            parses,
            ordered,
            (n - 1) as nat,
        )->Going_0;
        let state = patch_annotations(
            accepted,
            requested,
            base,
            annotations,
            parses,
            ordered,
            n,
        )->Going_0;
        let index = ordered[n - 1];
        let bytes = bytes_for(accepted, requested, base, annotations, parses, index);
        let start = annotations[index].span.start as int;
        let head = before.target + base.subrange(before.cursor, start);
        assert(state.target == head + bytes->0);
        lemma_patched(
            accepted,
            requested,
            base,
            annotations,
            parses,
            ordered,
            (n - 1) as nat,
            limit,
        );
        assert forall|k: int| #[trigger] state.spans.dom().contains(k) implies span_holds(
            state.target,
            state.spans[k],
            bytes_for(accepted, requested, base, annotations, parses, k),
        ) by {
            if k == index {
                assert(state.target.subrange(head.len() as int, state.target.len() as int)
                    =~= bytes->0);
            } else {
                assert(before.spans.dom().contains(k));
                let span = before.spans[k];
                assert(state.target.subrange(span.start as int, span.end as int)
                    =~= before.target.subrange(span.start as int, span.end as int));
            }
        }
        assert forall|m: int| 0 <= m < n implies state.spans.dom().contains(
            #[trigger] ordered[m],
        ) by {
            if m < n - 1 {
                assert(before.spans.dom().contains(ordered[m]));
            }
        }
    }
}

/// In a patched page every annotated block lies where its annotation says: with the bytes it had
/// where its text did not change, with the replacing text where it did.
pub proof fn law_patching_keeps_the_other_blocks(
    accepted: MaterializedPage,
    requested: MaterializedPage,
    base: Seq<u8>,
    annotations: Seq<AnnotatedIdentity>,
    parses: Seq<BlockParses>,
    k: int,
)
    requires
        incremental_projection(accepted, requested, base, annotations, parses) matches Ok(Some(_)),
        incremental_projection(
            accepted,
            requested,
            base,
            annotations,
            parses,
        )->Ok_0->0.target.len() <= u64::MAX,
        0 <= k < annotations.len(),
    ensures
        ({
            let view = incremental_projection(
                accepted,
                requested,
                base,
                annotations,
                parses,
            )->Ok_0->0;
            let bytes = bytes_for(
                accepted.blocks@,
                requested.blocks@,
                base,
                annotations,
                parses,
                k,
            );
            let span = view.annotations[k].span;
            &&& bytes is Some
            &&& span.start <= span.end <= view.target.len()
            &&& view.target.subrange(span.start as int, span.end as int) == bytes->0
            &&& view.annotations[k].locator == annotations[k].locator.components@
            &&& view.annotations[k].block_id == annotations[k].block_id
        }),
{
    let ordered = ordered_by_start(annotations, annotations.len());
    let state = patch_annotations(
        accepted.blocks@,
        requested.blocks@,
        base,
        annotations,
        parses,
        ordered,
        ordered.len(),
    )->Going_0;
    let view = incremental_projection(accepted, requested, base, annotations, parses)->Ok_0->0;
    lemma_ordered_members(annotations, annotations.len());
    lemma_patched(
        accepted.blocks@,
        requested.blocks@,
        base,
        annotations,
        parses,
        ordered,
        ordered.len(),
        u64::MAX as nat,
    );
    assert(ordered.contains(k));
    let m = choose|m: int| 0 <= m < ordered.len() && ordered[m] == k;
    assert(state.spans.dom().contains(ordered[m]));
    let span = state.spans[k];
    assert(view.target.subrange(span.start as int, span.end as int) =~= state.target.subrange(
        span.start as int,
        span.end as int,
    ));
}

} // verus!
