//! What a plan says of its page, its base and its bytes.

use vstd::prelude::*;

use crate::annotation::{claim_views, AnnotatedIdentityView, StructuralSpan};
use crate::difference_laws::law_page_differs_as_it_is_told;
use crate::document::{page_format, projected_blocks, DocBlockView, Document};
use crate::error::ProjectionError;
use crate::hash::BlobDescription;
use crate::ids::{hyphenated_text, WorkspaceId};
use crate::inject::{holds_at, utf8, ProjectionFormat};
use crate::intent::ProjectionPrecondition;
use crate::line_ends::{adds_only_returns, file_text, law_line_ends_change_nothing_else};
use crate::page::{optional_text, ProjectionPageState};
use crate::plan::{
    base_bytes, chosen_layout, page_difference, page_is_source, projection_plan, rendered_document,
    source_plan, spans_fault, AdoptionErrorView, PageRendering, ProjectionPlanView, SourceBase,
};
use crate::plan_laws::{
    is_readable, law_only_the_same_outline_is_adopted, lemma_named, marks_are_separated,
};
use crate::render::{
    found_from, holds_somewhere, is_first_salt, last_line_start, lemma_found_from,
    lemma_last_line_start, mark_offset, mark_prefix, marked_raw, span_mark, unmark_blocks,
    unused_prefix,
};
use crate::semantics::{
    document_outline, first_moved, first_paired, source_outline, OutlineEntry,
    SemanticDifferenceView,
};

verus! {

/// A plan is of the page, at its path, that it was asked for, of the state that was accepted, and it
/// describes its own bytes: it starts from exactly the base that it was made over, or from no file,
/// leaves a file, and says of that file exactly what it holds.
pub proof fn law_plan_describes_its_bytes(
    workspace_id: WorkspaceId,
    state: ProjectionPageState,
    base: Option<&SourceBase>,
    annotations: Option<Seq<AnnotatedIdentityView>>,
    rendering: PageRendering,
)
    requires
        projection_plan(workspace_id, state, base, annotations, rendering) is Ok,
    ensures
        ({
            let plan = projection_plan(workspace_id, state, base, annotations, rendering)->Ok_0;
            &&& plan.intent.workspace_id == workspace_id
            &&& plan.intent.page_id == state.page.page_id
            &&& plan.intent.path.text == state.page.path.text@
            &&& plan.intent.frontier == state.frontier@
            &&& plan.intent.claim_evidence == claim_views(state.claim_evidence@)
            &&& plan.intent.target_kind is Present
            &&& plan.intent.target == BlobDescription::spec_of(plan.target)
            &&& base is None ==> plan.base is None && plan.intent.precondition is Absent
            &&& base is Some ==> plan.base == Some(base->0.bytes@) && plan.intent.precondition
                == ProjectionPrecondition::Base(BlobDescription::spec_of(base->0.bytes@))
            &&& !plan.guarded_layout.revive_page_self_base
            &&& plan.guarded_layout.target.len() == plan.intent.annotations.len()
            &&& forall|k: int|
                0 <= k < plan.intent.annotations.len() ==> (
                #[trigger] plan.guarded_layout.target[k]).locator
                    == plan.intent.annotations[k].locator
                    && plan.guarded_layout.target[k].block_identity == hyphenated_text(
                    plan.intent.annotations[k].block_id.uuid.value,
                )
        }),
{
}

/// What a plan leaves is what serialising the page gave, with the line ends of the file that it
/// replaces and nothing else changed; or, where that file already says what the page says, exactly
/// that file.
pub proof fn law_plan_leaves_the_page_or_the_file(
    workspace_id: WorkspaceId,
    state: ProjectionPageState,
    base: Option<&SourceBase>,
    annotations: Option<Seq<AnnotatedIdentityView>>,
    rendering: PageRendering,
)
    requires
        projection_plan(workspace_id, state, base, annotations, rendering) is Ok,
    ensures
        ({
            let plan = projection_plan(workspace_id, state, base, annotations, rendering)->Ok_0;
            let format = page_format(state.page)->Ok_0;
            let blocks = projected_blocks(state.page.blocks@, format);
            let keeps_returns = format is Markdown && base is Some && exists|i: int|
                0 <= i < base->0.bytes@.len() - 1 && #[trigger] base->0.bytes@[i] == 0x0d
                    && base->0.bytes@[i + 1] == 0x0a;
            let adopted = {
                &&& base is Some
                &&& plan.target == base->0.bytes@
                &&& annotations is Some ==> format is Markdown
                &&& base->0.strict is Ok
                &&& format is Markdown ==> base->0.strict->Ok_0.round_trips
                &&& blocks is Ok
                &&& page_is_source(state.page, blocks->Ok_0, base->0.strict->Ok_0.document)
            };
            let rendered = {
                &&& keeps_returns ==> adds_only_returns(plan.target, rendering.serialized@)
                &&& !keeps_returns ==> plan.target == rendering.serialized@
            };
            &&& page_format(state.page) is Ok
            &&& base is Some ==> vstd::utf8::valid_utf8(base->0.bytes@)
            &&& adopted || rendered
        }),
{
    let format = page_format(state.page)->Ok_0;
    law_line_ends_change_nothing_else(format, base_bytes(base), rendering.serialized@);
    if base is Some && source_plan(workspace_id, state, *base->0, annotations, rendering) is Ok {
        law_only_the_same_outline_is_adopted(
            workspace_id,
            state,
            *base->0,
            annotations,
            rendering,
        );
    }
}

/// The outline of projected blocks.
pub open spec fn projected_outline(blocks: Seq<DocBlockView>) -> Seq<OutlineEntry> {
    blocks.map_values(
        |block: DocBlockView| OutlineEntry { locator: block.locator, raw: block.raw },
    )
}

/// Equal outlines show no difference.
proof fn lemma_no_difference(
    accepted: Seq<OutlineEntry>,
    properties: Seq<Vec<(String, String)>>,
    source: crate::semantics::SourceDocument,
    n: nat,
)
    requires
        accepted == source_outline(source),
        n <= accepted.len(),
    ensures
        first_moved(accepted, source_outline(source), n) is None,
        first_paired(accepted, properties, source, n) is None,
    decreases n,
{
    if n > 0 {
        lemma_no_difference(accepted, properties, source, (n - 1) as nat);
    }
}

/// A file that says exactly what the page says is left as it is, byte for byte, whatever serialising
/// the page gave: its layout is not the page's to change. Its parser must have read it whole, with a
/// range for each block, and rendering must have succeeded.
pub proof fn law_file_that_says_the_page_is_kept(
    workspace_id: WorkspaceId,
    state: ProjectionPageState,
    base: SourceBase,
    annotations: Option<Seq<AnnotatedIdentityView>>,
    rendering: PageRendering,
)
    requires
        projection_plan(workspace_id, state, Some(&base), annotations, rendering) is Ok,
        annotations is Some ==> page_format(state.page)->Ok_0 is Markdown,
        base.strict is Ok,
        page_format(state.page)->Ok_0 is Markdown ==> base.strict->Ok_0.round_trips,
        optional_text(base.strict->Ok_0.document.pre_block) == optional_text(state.page.preamble),
        source_outline(base.strict->Ok_0.document) == projected_outline(
            projected_blocks(state.page.blocks@, page_format(state.page)->Ok_0)->Ok_0,
        ),
        base.strict->Ok_0.block_spans@.len() == projected_blocks(
            state.page.blocks@,
            page_format(state.page)->Ok_0,
        )->Ok_0.len(),
        forall|i: int|
            0 <= i < base.strict->Ok_0.block_spans@.len() ==> (
            #[trigger] base.strict->Ok_0.block_spans@[i]).0 <= base.strict->Ok_0.block_spans@[i].1,
    ensures
        projection_plan(workspace_id, state, Some(&base), annotations, rendering)->Ok_0.target
            == base.bytes@,
{
    let format = page_format(state.page)->Ok_0;
    let blocks = projected_blocks(state.page.blocks@, format)->Ok_0;
    let document = base.strict->Ok_0.document;
    lemma_no_difference(projected_outline(blocks), rendering.properties@, document, blocks.len());
    assert(page_difference(state.page, blocks, rendering.properties@, document) is None);
    assert(!spans_fault(base.strict->Ok_0.block_spans@, blocks.len()));
    let adopted = source_plan(workspace_id, state, base, annotations, rendering);
    assert(adopted is Ok || adopted->Err_0 is Projection);
}

/// Where the last line starts: behind the last line feed.
proof fn lemma_last_line(bytes: Seq<u8>)
    ensures
        ({
            let start = last_line_start(bytes);
            &&& 0 <= start <= bytes.len()
            &&& start == 0 || bytes[start - 1] == 0x0a
            &&& forall|x: int| start <= x < bytes.len() ==> #[trigger] bytes[x] != 0x0a
        }),
    decreases bytes.len(),
{
    if bytes.len() > 0 && bytes.last() != 0x0a {
        lemma_last_line(bytes.drop_last());
        let start = last_line_start(bytes);
        assert forall|x: int| start <= x < bytes.len() implies #[trigger] bytes[x] != 0x0a by {
            if x < bytes.len() - 1 {
                assert(bytes.drop_last()[x] == bytes[x]);
            }
        }
        if start > 0 {
            assert(bytes.drop_last()[start - 1] == bytes[start - 1]);
        }
    }
}

/// Whether a block lies in a file where its range says: its first mark stands at `s` in the marked
/// file and its second at `e`, what stands between them ends the range, and the range starts with
/// the line in which that starts. A block without text has nothing between its marks.
pub open spec fn lies_at(
    target: Seq<u8>,
    marked: Seq<u8>,
    prefix: Seq<char>,
    block: DocBlockView,
    k: int,
    span: StructuralSpan,
    s: int,
    e: int,
) -> bool {
    let inside = s + utf8(span_mark(prefix, k, 'S')).len();
    let text = marked.subrange(inside, e);
    &&& holds_at(marked, utf8(span_mark(prefix, k, 'S')), s)
    &&& holds_at(marked, utf8(span_mark(prefix, k, 'E')), e)
    &&& inside <= e
    &&& block.raw.len() == 0 ==> inside == e
    &&& span.start <= span.end - (e - inside)
    &&& span.end <= target.len()
    &&& target.subrange(span.end - (e - inside), span.end as int) == text
    &&& span.start == 0 || target[span.start - 1] == 0x0a
    &&& forall|x: int| span.start <= x < span.end - (e - inside) ==> #[trigger] target[x] != 0x0a
}

/// A range says the same of a longer file.
proof fn lemma_lies_in_longer(
    target: Seq<u8>,
    longer: Seq<u8>,
    marked: Seq<u8>,
    prefix: Seq<char>,
    block: DocBlockView,
    k: int,
    span: StructuralSpan,
    s: int,
    e: int,
)
    requires
        lies_at(target, marked, prefix, block, k, span, s, e),
        target.len() <= longer.len(),
        longer.take(target.len() as int) == target,
    ensures
        lies_at(longer, marked, prefix, block, k, span, s, e),
{
    let inside = s + utf8(span_mark(prefix, k, 'S')).len();
    assert forall|x: int| 0 <= x < target.len() implies #[trigger] longer[x] == target[x] by {
        assert(longer.take(target.len() as int)[x] == longer[x]);
    }
    assert(longer.subrange(span.end - (e - inside), span.end as int) =~= target.subrange(
        span.end - (e - inside),
        span.end as int,
    ));
}

/// Whether some place of its marks shows that a block lies where its range says.
pub open spec fn lies_between_its_marks(
    target: Seq<u8>,
    marked: Seq<u8>,
    prefix: Seq<char>,
    block: DocBlockView,
    k: int,
    span: StructuralSpan,
) -> bool {
    exists|s: int, e: int| #[trigger] lies_at(target, marked, prefix, block, k, span, s, e)
}

/// Taking marks out leaves every block where its range says.
proof fn lemma_blocks_lie(
    marked: Seq<u8>,
    prefix: Seq<char>,
    blocks: Seq<DocBlockView>,
    n: nat,
)
    requires
        n <= blocks.len(),
        unmark_blocks(marked, prefix, blocks, n) is Some,
        marks_are_separated(marked, prefix, blocks),
        marked.len() <= u64::MAX,
    ensures
        ({
            let state = unmark_blocks(marked, prefix, blocks, n)->0;
            &&& 0 <= state.cursor <= marked.len()
            &&& state.clean.len() <= state.cursor
            &&& state.annotations.len() == n
            &&& forall|k: int|
                0 <= k < n ==> lies_between_its_marks(
                    state.clean,
                    marked,
                    prefix,
                    blocks[k],
                    k,
                    (#[trigger] state.annotations[k]).span,
                )
        }),
    decreases n,
{
    if n > 0 {
        let less = (n - 1) as nat;
        lemma_blocks_lie(marked, prefix, blocks, less);
        let before_state = unmark_blocks(marked, prefix, blocks, less)->0;
        let state = unmark_blocks(marked, prefix, blocks, n)->0;
        let start_mark = utf8(span_mark(prefix, n - 1, 'S'));
        let end_mark = utf8(span_mark(prefix, n - 1, 'E'));
        lemma_found_from(marked, start_mark, before_state.cursor);
        let s = found_from(marked, start_mark, before_state.cursor)->0;
        let inside = s + start_mark.len();
        lemma_found_from(marked, end_mark, inside);
        let before = before_state.clean + marked.subrange(before_state.cursor, s);
        lemma_last_line_start(before);
        lemma_last_line(before);
        let span = state.annotations[n - 1].span;
        let e = if blocks[n - 1].raw.len() == 0 {
            inside
        } else {
            found_from(marked, end_mark, inside)->0
        };
        if blocks[n - 1].raw.len() == 0 {
            assert(found_from(marked, start_mark, before_state.cursor) != Some(
                before_state.cursor,
            ));
            assert(state.clean == before.drop_last());
            assert(state.clean.subrange(span.end as int, span.end as int) =~= marked.subrange(
                inside,
                e,
            ));
        } else {
            assert(state.clean == before + marked.subrange(inside, e));
            assert(state.clean.subrange(before.len() as int, span.end as int) =~= marked.subrange(
                inside,
                e,
            ));
        }
        assert(span.start == last_line_start(before));
        assert(span.end == state.clean.len());
        assert forall|x: int| span.start <= x < span.end - (e - inside) implies
            #[trigger] state.clean[x] != 0x0a by {
            assert(state.clean[x] == before[x]);
        }
        if span.start > 0 {
            assert(state.clean[span.start - 1] == before[span.start - 1]);
        }
        assert(lies_at(state.clean, marked, prefix, blocks[n - 1], n - 1, span, s, e));
        assert(state.clean.take(before_state.clean.len() as int) =~= before_state.clean);
        assert forall|k: int| 0 <= k < n implies lies_between_its_marks(
            state.clean,
            marked,
            prefix,
            blocks[k],
            k,
            (#[trigger] state.annotations[k]).span,
        ) by {
            if k < n - 1 {
                let held = before_state.annotations[k].span;
                assert(state.annotations[k] == before_state.annotations[k]);
                let (a, b) = choose|a: int, b: int| #[trigger]
                    lies_at(before_state.clean, marked, prefix, blocks[k], k, held, a, b);
                lemma_lies_in_longer(
                    before_state.clean,
                    state.clean,
                    marked,
                    prefix,
                    blocks[k],
                    k,
                    held,
                    a,
                    b,
                );
            }
        }
    }
}

/// Where a page is rendered, every block lies in the file where its range says: the range starts with
/// the line in which the block's text starts, and ends with exactly what the serialiser put between
/// the block's two marks. The marks occur nowhere in the file.
pub proof fn law_blocks_lie_in_their_ranges(
    format: ProjectionFormat,
    base: Option<Seq<u8>>,
    blocks: Seq<DocBlockView>,
    layout: Seq<crate::plan::LayoutIdentityView>,
    rendering: PageRendering,
    k: int,
)
    requires
        rendered_document(format, base, blocks, layout, rendering) is Ok,
        is_readable(format, base, blocks, rendering),
        0 <= k < blocks.len(),
    ensures
        ({
            let rendered = rendered_document(format, base, blocks, layout, rendering)->Ok_0;
            let target = file_text(format, base, rendering.serialized@);
            let marked = file_text(format, base, rendering.marked@);
            let prefix = unused_prefix(target);
            &&& rendered.target == target
            &&& rendered.base_layout_identities == layout
            &&& rendered.annotations.len() == blocks.len()
            &&& rendered.annotations[k].block_id == blocks[k].block_id
            &&& rendered.annotations[k].locator == blocks[k].locator
            &&& rendered.annotations[k].logseq_uuid == blocks[k].logseq_uuid
            &&& prefix is Some
            &&& !holds_somewhere(target, utf8(prefix->0))
            &&& lies_between_its_marks(
                target,
                marked,
                prefix->0,
                blocks[k],
                k,
                rendered.annotations[k].span,
            )
        }),
{
    let rendered = rendered_document(format, base, blocks, layout, rendering)->Ok_0;
    let target = file_text(format, base, rendering.serialized@);
    let marked = file_text(format, base, rendering.marked@);
    let prefix = unused_prefix(target)->0;
    let salt = choose|salt: u64| is_first_salt(target, salt);
    assert(is_first_salt(target, salt));
    lemma_blocks_lie(marked, prefix, blocks, blocks.len());
    lemma_named(marked, prefix, blocks, blocks.len());
    let state = unmark_blocks(marked, prefix, blocks, blocks.len())->0;
    assert(target.take(state.clean.len() as int) =~= state.clean);
    let span = state.annotations[k].span;
    let (s, e) = choose|s: int, e: int| #[trigger]
        lies_at(state.clean, marked, prefix, blocks[k], k, span, s, e);
    lemma_lies_in_longer(state.clean, target, marked, prefix, blocks[k], k, span, s, e);
}

/// The marks of a page are those of the first number whose marks are not in the file.
pub proof fn law_marks_are_of_the_first_unused_number(target: Seq<u8>, salt: u64)
    requires
        !holds_somewhere(target, utf8(mark_prefix(salt))),
        forall|earlier: u64|
            earlier < salt ==> holds_somewhere(target, #[trigger] utf8(mark_prefix(earlier))),
    ensures
        unused_prefix(target) == Some(mark_prefix(salt)),
{
    assert(is_first_salt(target, salt));
    let chosen = choose|chosen: u64| is_first_salt(target, chosen);
    if chosen < salt {
        assert(holds_somewhere(target, utf8(mark_prefix(chosen))));
    } else if salt < chosen {
        assert(holds_somewhere(target, utf8(mark_prefix(salt))));
    }
}

/// A block that is framed by marks holds its whole text: what stands before the first mark and what
/// stands between the marks is the text. The first mark stands behind a Markdown heading line, and
/// else at the start.
pub proof fn law_marks_frame_the_text(
    format: ProjectionFormat,
    heading_end: Option<usize>,
    raw: Seq<u8>,
    prefix: Seq<char>,
    k: int,
)
    requires
        heading_end is Some ==> heading_end->0 <= raw.len(),
    ensures
        ({
            let at = mark_offset(format, heading_end);
            let marked = marked_raw(raw, at, prefix, k);
            let start = utf8(span_mark(prefix, k, 'S'));
            let end = utf8(span_mark(prefix, k, 'E'));
            &&& format is Markdown && heading_end is Some ==> at == heading_end->0
            &&& format is Org || heading_end is None ==> at == 0
            &&& holds_at(marked, start, at)
            &&& holds_at(marked, end, (raw.len() + start.len()) as int)
            &&& marked.len() == raw.len() + start.len() + end.len()
            &&& marked.take(at) + marked.subrange(at + start.len(), raw.len() + start.len() as int)
                == raw
        }),
{
    let at = mark_offset(format, heading_end);
    let marked = marked_raw(raw, at, prefix, k);
    let start = utf8(span_mark(prefix, k, 'S'));
    let end = utf8(span_mark(prefix, k, 'E'));
    assert(marked.subrange(at, at + start.len()) =~= start);
    assert(marked.subrange(raw.len() + start.len() as int, marked.len() as int) =~= end);
    assert(marked.take(at) + marked.subrange(at + start.len(), raw.len() + start.len() as int)
        =~= raw);
}

/// The layout that a plan guards over its base is that of the annotations where it has some; without
/// them it is that of the page's own blocks where the base says what the page says, and else, where
/// the base is not taken over, it is empty.
pub proof fn law_plan_guards_the_known_layout(
    workspace_id: WorkspaceId,
    state: ProjectionPageState,
    base: Option<&SourceBase>,
    annotations: Option<Seq<AnnotatedIdentityView>>,
    rendering: PageRendering,
)
    requires
        projection_plan(workspace_id, state, base, annotations, rendering) is Ok,
    ensures
        ({
            let layout = projection_plan(
                workspace_id,
                state,
                base,
                annotations,
                rendering,
            )->Ok_0.guarded_layout.base;
            &&& annotations is Some ==> layout.len() == annotations->0.len() && forall|k: int|
                0 <= k < layout.len() ==> (#[trigger] layout[k]).locator
                    == annotations->0[k].locator && layout[k].block_identity == hyphenated_text(
                    annotations->0[k].block_id.uuid.value,
                )
            &&& annotations is None && base is None ==> layout.len() == 0
            &&& annotations is None && base is Some && layout.len() > 0 ==> {
                let blocks = projected_blocks(
                    state.page.blocks@,
                    page_format(state.page)->Ok_0,
                )->Ok_0;
                &&& layout.len() == blocks.len()
                &&& forall|k: int|
                    0 <= k < layout.len() ==> (#[trigger] layout[k]).locator == blocks[k].locator
                        && layout[k].block_identity == hyphenated_text(
                        blocks[k].block_id.uuid.value,
                    )
            }
        }),
{
}

/// Every sound file that says what the page says is adopted: one that is text, was read strictly,
/// round-trips where it is Markdown, and whose blocks have ranges that run forward.
pub proof fn law_every_sound_file_is_adopted(
    workspace_id: WorkspaceId,
    state: ProjectionPageState,
    source: SourceBase,
    expected: Option<Seq<AnnotatedIdentityView>>,
    rendering: PageRendering,
)
    requires
        page_format(state.page) is Ok,
        vstd::utf8::valid_utf8(source.bytes@),
        source.strict is Ok,
        page_format(state.page)->Ok_0 is Markdown ==> source.strict->Ok_0.round_trips,
        projected_blocks(state.page.blocks@, page_format(state.page)->Ok_0) is Ok,
        ({
            let blocks = projected_blocks(
                state.page.blocks@,
                page_format(state.page)->Ok_0,
            )->Ok_0;
            let parsed = source.strict->Ok_0;
            &&& optional_text(parsed.document.pre_block) == optional_text(state.page.preamble)
            &&& source_outline(parsed.document) == projected_outline(blocks)
            &&& parsed.block_spans@.len() == blocks.len()
            &&& forall|k: int|
                0 <= k < parsed.block_spans@.len() ==> (#[trigger] parsed.block_spans@[k]).0
                    <= parsed.block_spans@[k].1
            &&& rendered_document(
                page_format(state.page)->Ok_0,
                Some(source.bytes@),
                blocks,
                Seq::empty(),
                rendering,
            ) is Ok
        }),
    ensures
        source_plan(workspace_id, state, source, expected, rendering) is Ok,
{
    let blocks = projected_blocks(state.page.blocks@, page_format(state.page)->Ok_0)->Ok_0;
    law_page_differs_as_it_is_told(
        state.page,
        blocks,
        rendering.properties@,
        source.strict->Ok_0.document,
    );
}

/// A file that is not text, was not read strictly, or is Markdown that does not round-trip is never
/// adopted, and the reason is told.
pub proof fn law_unsound_files_are_not_adopted(
    workspace_id: WorkspaceId,
    state: ProjectionPageState,
    source: SourceBase,
    expected: Option<Seq<AnnotatedIdentityView>>,
    rendering: PageRendering,
)
    requires
        page_format(state.page) is Ok,
    ensures
        ({
            let plan = source_plan(workspace_id, state, source, expected, rendering);
            let text = vstd::utf8::valid_utf8(source.bytes@);
            &&& !text ==> plan is Err && plan->Err_0 == AdoptionErrorView::Projection(
                ProjectionError::InvalidUtf8("projection base"),
            )
            &&& text && source.strict is Err ==> plan is Err && plan->Err_0
                == AdoptionErrorView::Semantic(
                SemanticDifferenceView::UnsupportedSourceLayout(source.strict->Err_0@),
            )
            &&& text && source.strict is Ok && page_format(state.page)->Ok_0 is Markdown
                && !source.strict->Ok_0.round_trips ==> plan is Err && plan->Err_0 is Semantic
                && plan->Err_0->Semantic_0 is UnsupportedSourceLayout
        }),
{
}

/// A page without a file is planned exactly where it has a format, its blocks can be projected, and
/// their marks are found again in what serialising gave.
pub proof fn law_new_page_is_planned_where_it_renders(
    workspace_id: WorkspaceId,
    state: ProjectionPageState,
    rendering: PageRendering,
)
    ensures
        ({
            let plan = projection_plan(workspace_id, state, None, None, rendering);
            let format = page_format(state.page);
            let blocks = projected_blocks(state.page.blocks@, format->Ok_0);
            &&& plan is Ok <==> format is Ok && blocks is Ok && rendered_document(
                format->Ok_0,
                None,
                blocks->Ok_0,
                Seq::empty(),
                rendering,
            ) is Ok
            &&& format is Err ==> plan == Err::<ProjectionPlanView, _>(format->Err_0)
            &&& format is Ok && blocks is Err ==> plan == Err::<ProjectionPlanView, _>(
                blocks->Err_0,
            )
        }),
{
}

/// The layout of a document over a file is that of the annotations where there are some; without
/// them it is that of the document's own blocks where the file says what the document says, and
/// empty where it says something else or there is none.
pub proof fn law_known_layout_is_chosen(
    document: Document,
    base: Option<&SourceBase>,
    annotations: Option<Seq<AnnotatedIdentityView>>,
)
    ensures
        ({
            let layout = chosen_layout(document, base, annotations);
            let same = base is Some && optional_text(base->0.document.pre_block) == optional_text(
                document.pre_block,
            ) && source_outline(base->0.document) == document_outline(document);
            &&& annotations is Some ==> layout.len() == annotations->0.len() && forall|k: int|
                0 <= k < layout.len() ==> (#[trigger] layout[k]).locator
                    == annotations->0[k].locator && layout[k].block_identity == hyphenated_text(
                    annotations->0[k].block_id.uuid.value,
                )
            &&& annotations is None && same ==> layout.len() == document.blocks@.len() && forall|
                k: int,
            |
                0 <= k < layout.len() ==> (#[trigger] layout[k]).locator
                    == document.blocks@[k].locator@ && layout[k].block_identity == hyphenated_text(
                    document.blocks@[k].block_id.uuid.value,
                )
            &&& annotations is None && !same ==> layout.len() == 0
        }),
{
}

} // verus!
