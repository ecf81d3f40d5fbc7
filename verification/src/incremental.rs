//! Patching changed block texts into the exact bytes of a Markdown page.

use std::collections::{HashMap, HashSet};

use vstd::prelude::*;

use crate::annotation::{
    annotation_views, AnnotatedIdentity, AnnotatedIdentityView, StructuralLocator, StructuralSpan,
};
use crate::bytes::{copy_bytes, push_bytes, same_bytes};
use crate::error::ProjectionError;
use crate::ids::BlockId;
use crate::inject::{find_line_end, is_utf8, line_end, utf8};
use crate::line_ends::{find_crlf, has_crlf};
use crate::order::copy_words;
use crate::page::{
    optional_text, same_optional_text, same_parent, MaterializedBlock, MaterializedPage,
};
use crate::path::has_extension;
use crate::plan::{
    annotated_layout, structural_layout_identities, PolicyGeneratedAnchor, RenderedProjection,
    RenderedView,
};
use crate::semantics::SourceDocument;
use crate::text::same_text;

verus! {

broadcast use vstd::std_specs::hash::group_hash_axioms;

/// A line without the carriage return at its end.
pub open spec fn without_return(line: Seq<u8>) -> Seq<u8> {
    if line.len() > 0 && line.last() == 0x0d {
        line.drop_last()
    } else {
        line
    }
}

/// Where the blanks and tabs at the start of a line end, from `at` on.
pub open spec fn indent_end(line: Seq<u8>, at: int) -> int
    decreases line.len() - at,
{
    if 0 <= at < line.len() && (line[at] == 0x20 || line[at] == 0x09) {
        indent_end(line, at + 1)
    } else {
        at
    }
}

/// The first line of a text.
pub open spec fn first_line(text: Seq<u8>) -> Seq<u8> {
    without_return(text.take(line_end(text, 0)))
}

/// The blanks and tabs that a text starts with.
pub open spec fn indent_of(text: Seq<u8>) -> Seq<u8> {
    first_line(text).take(indent_end(first_line(text), 0))
}

/// Whether the first line of a text is a bullet: a hyphen alone, or a hyphen and a blank.
pub open spec fn is_bulleted(text: Seq<u8>) -> bool {
    let rest = first_line(text).skip(indent_end(first_line(text), 0));
    &&& rest.len() > 0
    &&& rest[0] == 0x2d
    &&& rest.len() == 1 || rest[1] == 0x20
}

/// The line feed of a file.
pub open spec fn newline(use_crlf: bool) -> Seq<u8> {
    if use_crlf {
        seq![0x0du8, 0x0au8]
    } else {
        seq![0x0au8]
    }
}

/// The lines of a content from `at` on, each continued under a bullet.
pub open spec fn continued_lines(
    content: Seq<u8>,
    at: int,
    indent: Seq<u8>,
    use_crlf: bool,
) -> Seq<u8>
    decreases content.len() - at,
{
    if at < 0 || at > content.len() {
        Seq::empty()
    } else {
        let end = line_end(content, at);
        let line = newline(use_crlf) + indent + seq![0x20u8, 0x20u8] + without_return(
            content.subrange(at, end),
        );
        if at <= end < content.len() {
            line + continued_lines(content, end + 1, indent, use_crlf)
        } else {
            line
        }
    }
}

/// A content under a bullet: the first line behind the hyphen, every other line two blanks deeper
/// than the bullet.
pub open spec fn bulleted_text(content: Seq<u8>, indent: Seq<u8>, use_crlf: bool) -> Seq<u8> {
    let end = line_end(content, 0);
    let blank = if end > 0 {
        seq![0x20u8]
    } else {
        Seq::empty()
    };
    let first = indent + seq![0x2du8] + blank + without_return(content.take(end));
    if end < content.len() {
        first + continued_lines(content, end + 1, indent, use_crlf)
    } else {
        first
    }
}

/// The text that replaces a bulleted block, or nothing where the block is not bulleted.
pub open spec fn replacement_text(
    accepted_source: Seq<u8>,
    requested: Seq<u8>,
    use_crlf: bool,
) -> Option<Seq<u8>> {
    if is_bulleted(accepted_source) {
        Some(bulleted_text(requested, indent_of(accepted_source), use_crlf))
    } else {
        None
    }
}

/// Where a line ends once its last carriage return is left off.
fn return_free_end(bytes: &[u8], start: usize, end: usize) -> (stop: usize)
    requires
        start <= end <= bytes@.len(),
    ensures
        start <= stop <= end,
        bytes@.subrange(start as int, stop as int) == without_return(
            bytes@.subrange(start as int, end as int),
        ),
{
    let ghost line = bytes@.subrange(start as int, end as int);
    if start < end && bytes[end - 1] == 0x0d {
        assert(line.last() == bytes@[end - 1]);
        assert(bytes@.subrange(start as int, end - 1) =~= line.drop_last());
        end - 1
    } else {
        if start < end {
            assert(line.last() == bytes@[end - 1]);
        }
        end
    }
}

/// The text that replaces a bulleted block, or nothing where the block is not bulleted.
pub fn incremental_block_text(accepted_source: &[u8], requested: &[u8], use_crlf: bool) -> (text:
    Option<Vec<u8>>)
    ensures
        match replacement_text(accepted_source@, requested@, use_crlf) {
            Some(replacement) => text is Some && text->0@ == replacement,
            None => text is None,
        },
{
    let first_end: usize = find_line_end(accepted_source, 0);
    let line_stop: usize = return_free_end(accepted_source, 0, first_end);
    let ghost line = first_line(accepted_source@);
    proof {
        assert(accepted_source@.subrange(0, first_end as int) =~= accepted_source@.take(
            first_end as int,
        ));
        assert(accepted_source@.subrange(0, line_stop as int) =~= line);
    }
    let mut indent_len: usize = 0;
    while indent_len < line_stop && (accepted_source[indent_len] == 0x20
        || accepted_source[indent_len] == 0x09)
        invariant
            indent_len <= line_stop <= accepted_source@.len(),
            line == accepted_source@.subrange(0, line_stop as int),
            indent_end(line, 0) == indent_end(line, indent_len as int),
        decreases line_stop - indent_len,
    {
        assert(line[indent_len as int] == accepted_source@[indent_len as int]);
        indent_len += 1;
    }
    proof {
        if indent_len < line_stop {
            assert(line[indent_len as int] == accepted_source@[indent_len as int]);
        }
        assert(indent_end(line, 0) == indent_len);
        let rest = line.skip(indent_len as int);
        assert(rest.len() == line_stop - indent_len);
        if rest.len() > 0 {
            assert(rest[0] == accepted_source@[indent_len as int]);
        }
        if rest.len() > 1 {
            assert(rest[1] == accepted_source@[indent_len + 1]);
        }
        assert(line.take(indent_len as int) =~= accepted_source@.subrange(0, indent_len as int));
    }
    if indent_len >= line_stop || accepted_source[indent_len] != 0x2d {
        return None;
    }
    if line_stop - indent_len > 1 && accepted_source[indent_len + 1] != 0x20 {
        return None;
    }
    let indent = vstd::slice::slice_subrange(accepted_source, 0, indent_len);
    let ghost indent_view = indent_of(accepted_source@);
    assert(indent@ =~= indent_view);
    let mut out: Vec<u8> = copy_bytes(indent);
    out.push(0x2d);
    let end: usize = find_line_end(requested, 0);
    if end > 0 {
        out.push(0x20);
    }
    let stop: usize = return_free_end(requested, 0, end);
    push_bytes(&mut out, vstd::slice::slice_subrange(requested, 0, stop));
    proof {
        assert(requested@.subrange(0, end as int) =~= requested@.take(end as int));
        let blank: Seq<u8> = if end > 0 {
            seq![0x20u8]
        } else {
            Seq::empty()
        };
        assert(out@ =~= indent_view + seq![0x2du8] + blank + without_return(
            requested@.take(end as int),
        ));
    }
    if end >= requested.len() {
        return Some(out);
    }
    let ghost head = out@;
    let mut at: usize = end + 1;
    let mut more = true;
    assert(head + continued_lines(requested@, at as int, indent_view, use_crlf) =~= out@
        + continued_lines(requested@, at as int, indent_view, use_crlf));
    while more
        invariant
            at <= requested@.len(),
            indent@ == indent_view,
            head + continued_lines(requested@, end + 1, indent_view, use_crlf) == if more {
                out@ + continued_lines(requested@, at as int, indent_view, use_crlf)
            } else {
                out@
            },
        decreases requested@.len() - at, if more {
                1int
            } else {
                0int
            },
    {
        let ghost before = out@;
        let next: usize = find_line_end(requested, at);
        let stop: usize = return_free_end(requested, at, next);
        if use_crlf {
            out.push(0x0d);
        }
        out.push(0x0a);
        push_bytes(&mut out, indent);
        out.push(0x20);
        out.push(0x20);
        push_bytes(&mut out, vstd::slice::slice_subrange(requested, at, stop));
        proof {
            let line = newline(use_crlf) + indent_view + seq![0x20u8, 0x20u8] + without_return(
                requested@.subrange(at as int, next as int),
            );
            assert(out@ =~= before + line);
            if next < requested@.len() {
                assert(before + continued_lines(requested@, at as int, indent_view, use_crlf)
                    =~= out@ + continued_lines(requested@, next + 1, indent_view, use_crlf));
            }
        }
        if next < requested.len() {
            at = next + 1;
        } else {
            more = false;
        }
    }
    Some(out)
}

/// What strict parses gave of a block's bytes and of the text that would replace them.
#[derive(Clone, Debug, PartialEq, Eq)]
pub struct BlockParses {
    pub accepted: Option<SourceDocument>,
    pub replaced: Option<SourceDocument>,
}

/// Whether a parse gave exactly one block with the given text and nothing else.
pub open spec fn is_single_block(parsed: Option<SourceDocument>, raw: Seq<u8>) -> bool {
    match parsed {
        Some(document) => document.pre_block is None && document.blocks@.len() == 1
            && document.blocks@[0].raw@ == raw,
        None => false,
    }
}

/// Whether a parse gave exactly one block with the given text and nothing else.
fn check_single_block(parsed: &Option<SourceDocument>, raw: &[u8]) -> (single: bool)
    ensures
        single == is_single_block(*parsed, raw@),
{
    match parsed {
        Some(document) => document.pre_block.is_none() && document.blocks.len() == 1 && same_bytes(
            document.blocks[0].raw.as_slice(),
            raw,
        ),
        None => false,
    }
}

/// The text that replaces a changed block, or nothing where the block or its replacement is not
/// exactly one bulleted block.
pub open spec fn rendered_block(
    accepted_source: Seq<u8>,
    accepted_content: Seq<u8>,
    requested_content: Seq<u8>,
    use_crlf: bool,
    parses: BlockParses,
) -> Option<Seq<u8>> {
    if vstd::utf8::valid_utf8(accepted_source) && is_single_block(
        parses.accepted,
        accepted_content,
    ) && is_single_block(parses.replaced, requested_content) {
        replacement_text(accepted_source, requested_content, use_crlf)
    } else {
        None
    }
}

/// The text that replaces a changed block.
pub fn render_incremental_markdown_block(
    accepted_source: &[u8],
    accepted_content: &[u8],
    requested_content: &[u8],
    use_crlf: bool,
    parses: &BlockParses,
) -> (text: Option<Vec<u8>>)
    ensures
        match rendered_block(
            accepted_source@,
            accepted_content@,
            requested_content@,
            use_crlf,
            *parses,
        ) {
            Some(replacement) => text is Some && text->0@ == replacement,
            None => text is None,
        },
{
    if !is_utf8(accepted_source) || !check_single_block(&parses.accepted, accepted_content)
        || !check_single_block(&parses.replaced, requested_content) {
        return None;
    }
    incremental_block_text(accepted_source, requested_content, use_crlf)
}

/// Whether two pages agree in everything but the texts of their blocks, as far as the pages
/// themselves show it.
pub open spec fn same_frame(accepted: MaterializedPage, requested: MaterializedPage) -> bool {
    &&& has_extension(accepted.path.text@, ".md"@) || has_extension(
        accepted.path.text@,
        ".markdown"@,
    )
    &&& accepted.page_id == requested.page_id
    &&& accepted.home_document_id == requested.home_document_id
    &&& accepted.name@ == requested.name@
    &&& accepted.path.text@ == requested.path.text@
    &&& accepted.kind == requested.kind
    &&& optional_text(accepted.preamble) == optional_text(requested.preamble)
    &&& accepted.blocks@.len() == requested.blocks@.len()
}

/// Whether no two blocks have the same identity.
pub open spec fn distinct_blocks(blocks: Seq<MaterializedBlock>) -> bool {
    forall|i: int, j: int|
        0 <= i < j < blocks.len() ==> (#[trigger] blocks[i]).block_id != (
        #[trigger] blocks[j]).block_id
}

/// Whether a block may differ from another in its text alone, and carries no written identity.
pub open spec fn differs_in_text_only(accepted: MaterializedBlock, requested: MaterializedBlock) -> bool {
    &&& accepted.block_id == requested.block_id
    &&& accepted.home_document_id == requested.home_document_id
    &&& accepted.parent == requested.parent
    &&& accepted.order@ == requested.order@
    &&& accepted.logseq_uuid is None
    &&& requested.logseq_uuid is None
    &&& accepted.logseq_identity_origin is None
    &&& requested.logseq_identity_origin is None
}

/// Whether a block has one with the same identity on the other side that differs in its text alone.
pub open spec fn has_counterpart(
    accepted: MaterializedBlock,
    requested: Seq<MaterializedBlock>,
) -> bool {
    exists|j: int| 0 <= j < requested.len() && differs_in_text_only(accepted, #[trigger] requested[j])
}

/// Whether every block has a counterpart.
pub open spec fn texts_only(
    accepted: Seq<MaterializedBlock>,
    requested: Seq<MaterializedBlock>,
) -> bool {
    forall|i: int| 0 <= i < accepted.len() ==> has_counterpart(#[trigger] accepted[i], requested)
}

/// The block with the given identity.
pub open spec fn block_with(blocks: Seq<MaterializedBlock>, id: BlockId) -> Option<MaterializedBlock> {
    if exists|i: int| 0 <= i < blocks.len() && (#[trigger] blocks[i]).block_id == id {
        Some(
            blocks[choose|i: int| 0 <= i < blocks.len() && (#[trigger] blocks[i]).block_id == id],
        )
    } else {
        None
    }
}

/// Whether the block with the given identity is on both sides, with different texts.
pub open spec fn is_changed(
    accepted: Seq<MaterializedBlock>,
    requested: Seq<MaterializedBlock>,
    id: BlockId,
) -> bool {
    match (block_with(accepted, id), block_with(requested, id)) {
        (Some(a), Some(r)) => a.content@ != r.content@,
        _ => false,
    }
}

/// Whether some block is changed.
pub open spec fn some_changed(
    accepted: Seq<MaterializedBlock>,
    requested: Seq<MaterializedBlock>,
) -> bool {
    exists|i: int|
        0 <= i < accepted.len() && is_changed(
            accepted,
            requested,
            (#[trigger] accepted[i]).block_id,
        )
}

/// The annotation indexes with `index` put behind every one that does not start later.
pub open spec fn insert_by_start(
    annotations: Seq<AnnotatedIdentity>,
    ordered: Seq<int>,
    index: int,
) -> Seq<int>
    decreases ordered.len(),
{
    if ordered.len() > 0 && annotations[index].span.start < annotations[ordered.last()].span.start {
        insert_by_start(annotations, ordered.drop_last(), index).push(ordered.last())
    } else {
        ordered.push(index)
    }
}

/// The first `n` annotation indexes in the order in which their spans start.
pub open spec fn ordered_by_start(annotations: Seq<AnnotatedIdentity>, n: nat) -> Seq<int>
    decreases n,
{
    if n == 0 {
        Seq::empty()
    } else {
        insert_by_start(annotations, ordered_by_start(annotations, (n - 1) as nat), n - 1)
    }
}

/// How far patching has come: up to `cursor` in the base, with the bytes so far and the span of
/// each annotation that was passed.
pub struct PatchState {
    pub cursor: int,
    pub target: Seq<u8>,
    pub spans: Map<int, StructuralSpan>,
}

/// What patching comes to at an annotation.
pub enum Patched {
    Refused,
    TooLarge,
    Going(PatchState),
}

/// Whether an annotation that was passed names the same block.
pub open spec fn names_passed_block(
    annotations: Seq<AnnotatedIdentity>,
    passed: Map<int, StructuralSpan>,
    index: int,
) -> bool {
    exists|k: int| #[trigger]
        passed.dom().contains(k) && annotations[k].block_id == annotations[index].block_id
}

/// The parses of the block that an annotation names.
pub open spec fn parses_at(parses: Seq<BlockParses>, index: int) -> BlockParses {
    if 0 <= index < parses.len() {
        parses[index]
    } else {
        BlockParses { accepted: None, replaced: None }
    }
}

/// The bytes that stand for an annotation: replaced ones where its block changed.
pub open spec fn patched_block(
    accepted: Seq<MaterializedBlock>,
    requested: Seq<MaterializedBlock>,
    base: Seq<u8>,
    id: BlockId,
    start: int,
    end: int,
    use_crlf: bool,
    parses: BlockParses,
) -> Option<Seq<u8>> {
    if is_changed(accepted, requested, id) {
        rendered_block(
            base.subrange(start, end),
            block_with(accepted, id)->0.content@,
            block_with(requested, id)->0.content@,
            use_crlf,
            parses,
        )
    } else {
        Some(base.subrange(start, end))
    }
}

/// Patches one annotation.
pub open spec fn patch_annotation(
    accepted: Seq<MaterializedBlock>,
    requested: Seq<MaterializedBlock>,
    base: Seq<u8>,
    annotations: Seq<AnnotatedIdentity>,
    parses: Seq<BlockParses>,
    state: PatchState,
    index: int,
) -> Patched {
    let annotation = annotations[index];
    let (start, end) = (annotation.span.start, annotation.span.end);
    if start > usize::MAX || end > usize::MAX {
        Patched::TooLarge
    } else if start < state.cursor || end < start || end > base.len() {
        Patched::Refused
    } else {
        match patched_block(
            accepted,
            requested,
            base,
            annotation.block_id,
            start as int,
            end as int,
            has_crlf(base),
            parses_at(parses, index),
        ) {
            None => Patched::Refused,
            Some(bytes) => if names_passed_block(annotations, state.spans, index) {
                Patched::Refused
            } else {
                let before = state.target + base.subrange(state.cursor, start as int);
                Patched::Going(
                    PatchState {
                        cursor: end as int,
                        target: before + bytes,
                        spans: state.spans.insert(
                            index,
                            StructuralSpan {
                                start: before.len() as u64,
                                end: (before + bytes).len() as u64,
                            },
                        ),
                    },
                )
            },
        }
    }
}

/// Patches the first `n` annotations in order.
pub open spec fn patch_annotations(
    accepted: Seq<MaterializedBlock>,
    requested: Seq<MaterializedBlock>,
    base: Seq<u8>,
    annotations: Seq<AnnotatedIdentity>,
    parses: Seq<BlockParses>,
    ordered: Seq<int>,
    n: nat,
) -> Patched
    decreases n,
{
    if n == 0 {
        Patched::Going(PatchState { cursor: 0, target: Seq::empty(), spans: Map::empty() })
    } else {
        match patch_annotations(
            accepted,
            requested,
            base,
            annotations,
            parses,
            ordered,
            (n - 1) as nat,
        ) {
            Patched::Going(state) => patch_annotation(
                accepted,
                requested,
                base,
                annotations,
                parses,
                state,
                ordered[n - 1],
            ),
            stopped => stopped,
        }
    }
}

/// Whether every changed block is named by an annotation.
pub open spec fn changes_annotated(
    accepted: Seq<MaterializedBlock>,
    requested: Seq<MaterializedBlock>,
    annotations: Seq<AnnotatedIdentity>,
) -> bool {
    forall|i: int|
        0 <= i < accepted.len() && is_changed(
            accepted,
            requested,
            (#[trigger] accepted[i]).block_id,
        ) ==> exists|k: int|
            0 <= k < annotations.len() && (#[trigger] annotations[k]).block_id
                == accepted[i].block_id
}

/// What patching the changed texts of a page into its exact bytes gives: nothing where the pages
/// differ in more than texts, or where something unusual is met.
pub open spec fn incremental_projection(
    accepted: MaterializedPage,
    requested: MaterializedPage,
    base: Seq<u8>,
    annotations: Seq<AnnotatedIdentity>,
    parses: Seq<BlockParses>,
) -> Result<Option<RenderedView>, ProjectionError> {
    let (a, r) = (accepted.blocks@, requested.blocks@);
    if !same_frame(accepted, requested) || a.len() != annotations.len() || !distinct_blocks(a)
        || !distinct_blocks(r) || !texts_only(a, r) || !some_changed(a, r) {
        Ok(None)
    } else {
        let ordered = ordered_by_start(annotations, annotations.len());
        match patch_annotations(a, r, base, annotations, parses, ordered, ordered.len()) {
            Patched::TooLarge => Err(ProjectionError::ProjectionTooLarge),
            Patched::Refused => Ok(None),
            Patched::Going(state) => if !changes_annotated(a, r, annotations) {
                Ok(None)
            } else {
                Ok(
                    Some(
                        RenderedView {
                            target: state.target + base.skip(state.cursor),
                            annotations: Seq::new(
                                annotations.len(),
                                |i: int|
                                    AnnotatedIdentityView {
                                        span: state.spans[i],
                                        ..annotations[i]@
                                    },
                            ),
                            base_layout_identities: annotated_layout(
                                annotation_views(annotations),
                            ),
                            generated_anchors: Seq::empty(),
                        },
                    ),
                )
            },
        }
    }
}

/// A refusal or failure at some annotation is that of all.
proof fn lemma_patch_stops(
    accepted: Seq<MaterializedBlock>,
    requested: Seq<MaterializedBlock>,
    base: Seq<u8>,
    annotations: Seq<AnnotatedIdentity>,
    parses: Seq<BlockParses>,
    ordered: Seq<int>,
    k: nat,
    n: nat,
)
    requires
        k <= n,
        !(patch_annotations(accepted, requested, base, annotations, parses, ordered, k) is Going),
    ensures
        patch_annotations(accepted, requested, base, annotations, parses, ordered, n)
            == patch_annotations(accepted, requested, base, annotations, parses, ordered, k),
    decreases n,
{
    if k < n {
        lemma_patch_stops(
            accepted,
            requested,
            base,
            annotations,
            parses,
            ordered,
            k,
            (n - 1) as nat,
        );
    }
}

/// Whether an index by identity is that of distinct blocks.
spec fn indexes_page(blocks: Seq<MaterializedBlock>, indexes: Map<u128, usize>) -> bool {
    &&& distinct_blocks(blocks)
    &&& forall|i: int|
        0 <= i < blocks.len() ==> indexes.dom().contains((#[trigger] blocks[i]).block_id.uuid.value)
            && indexes[blocks[i].block_id.uuid.value] == i
    &&& forall|value: u128| #[trigger]
        indexes.dom().contains(value) ==> 0 <= indexes[value] < blocks.len()
            && blocks[indexes[value] as int].block_id.uuid.value == value
}

/// Indexes distinct blocks by identity.
fn index_page(blocks: &Vec<MaterializedBlock>) -> (indexed: Option<HashMap<u128, usize>>)
    ensures
        match indexed {
            Some(indexes) => indexes_page(blocks@, indexes@),
            None => !distinct_blocks(blocks@),
        },
{
    let mut indexes: HashMap<u128, usize> = HashMap::new();
    let mut at: usize = 0;
    while at < blocks.len()
        invariant
            at <= blocks@.len(),
            forall|i: int|
                0 <= i < at ==> indexes@.dom().contains(
                    (#[trigger] blocks@[i]).block_id.uuid.value,
                ) && indexes@[blocks@[i].block_id.uuid.value] == i,
            forall|value: u128| #[trigger]
                indexes@.dom().contains(value) ==> 0 <= indexes@[value] < at
                    && blocks@[indexes@[value] as int].block_id.uuid.value == value,
        decreases blocks@.len() - at,
    {
        let number: u128 = blocks[at].block_id.uuid.value;
        if indexes.contains_key(&number) {
            proof {
                let i = indexes@[number] as int;
                assert(blocks@[i].block_id == blocks@[at as int].block_id);
            }
            return None;
        }
        indexes.insert(number, at);
        at += 1;
    }
    proof {
        assert forall|i: int, j: int| 0 <= i < j < blocks@.len() implies (
        #[trigger] blocks@[i]).block_id != (#[trigger] blocks@[j]).block_id by {
            assert(indexes@[blocks@[i].block_id.uuid.value] == i);
            assert(indexes@[blocks@[j].block_id.uuid.value] == j);
        }
    }
    Some(indexes)
}

/// The block with an identity is the indexed one.
proof fn lemma_block_with(blocks: Seq<MaterializedBlock>, indexes: Map<u128, usize>, id: BlockId)
    requires
        indexes_page(blocks, indexes),
    ensures
        indexes.dom().contains(id.uuid.value) ==> block_with(blocks, id) == Some(
            blocks[indexes[id.uuid.value] as int],
        ),
        !indexes.dom().contains(id.uuid.value) ==> block_with(blocks, id) is None,
{
    if block_with(blocks, id) is Some {
        let i = choose|i: int| 0 <= i < blocks.len() && (#[trigger] blocks[i]).block_id == id;
        assert(indexes[blocks[i].block_id.uuid.value] == i);
    }
    if indexes.dom().contains(id.uuid.value) {
        assert(blocks[indexes[id.uuid.value] as int].block_id == id);
    }
}

/// Whether every block differs from its counterpart in its text alone, and which blocks changed.
fn collect_changes(
    accepted: &Vec<MaterializedBlock>,
    requested: &Vec<MaterializedBlock>,
    requested_indexes: &HashMap<u128, usize>,
    accepted_indexes: &HashMap<u128, usize>,
) -> (changes: Option<HashSet<u128>>)
    requires
        indexes_page(accepted@, accepted_indexes@),
        indexes_page(requested@, requested_indexes@),
    ensures
        match changes {
            None => !texts_only(accepted@, requested@),
            Some(changed) => texts_only(accepted@, requested@) && forall|value: u128| #[trigger]
                changed@.contains(value) <==> is_changed(
                    accepted@,
                    requested@,
                    BlockId { uuid: crate::ids::Uuid { value } },
                ),
        },
{
    let mut changed: HashSet<u128> = HashSet::new();
    let mut at: usize = 0;
    while at < accepted.len()
        invariant
            at <= accepted@.len(),
            indexes_page(accepted@, accepted_indexes@),
            indexes_page(requested@, requested_indexes@),
            forall|i: int| 0 <= i < at ==> has_counterpart(#[trigger] accepted@[i], requested@),
            forall|value: u128| #[trigger]
                changed@.contains(value) <==> exists|i: int|
                    0 <= i < at && (#[trigger] accepted@[i]).block_id.uuid.value == value
                        && is_changed(accepted@, requested@, accepted@[i].block_id),
        decreases accepted@.len() - at,
    {
        let block = &accepted[at];
        let number: u128 = block.block_id.uuid.value;
        let ghost before = changed@;
        proof {
            lemma_block_with(accepted@, accepted_indexes@, block.block_id);
            lemma_block_with(requested@, requested_indexes@, block.block_id);
            assert(accepted_indexes@[number] == at);
        }
        let other: usize = match requested_indexes.get(&number) {
            Some(other) => *other,
            None => {
                proof {
                    assert forall|j: int| 0 <= j < requested@.len() implies !differs_in_text_only(
                        *block,
                        #[trigger] requested@[j],
                    ) by {
                        assert(requested_indexes@.dom().contains(
                            requested@[j].block_id.uuid.value,
                        ));
                    }
                }
                assert(!has_counterpart(accepted@[at as int], requested@));
                return None;
            },
        };
        let counterpart = &requested[other];
        if block.home_document_id != counterpart.home_document_id || !same_parent(
            block.parent,
            counterpart.parent,
        ) || !same_text(block.order.as_str(), counterpart.order.as_str())
            || block.logseq_uuid.is_some() || counterpart.logseq_uuid.is_some()
            || block.logseq_identity_origin.is_some()
            || counterpart.logseq_identity_origin.is_some() {
            proof {
                assert forall|j: int| 0 <= j < requested@.len() implies !differs_in_text_only(
                    *block,
                    #[trigger] requested@[j],
                ) by {
                    if requested@[j].block_id == block.block_id {
                        assert(requested_indexes@[requested@[j].block_id.uuid.value] == j);
                    }
                }
            }
            assert(!has_counterpart(accepted@[at as int], requested@));
            return None;
        }
        assert(differs_in_text_only(*block, requested@[other as int]));
        assert(has_counterpart(accepted@[at as int], requested@));
        if !same_bytes(block.content.as_slice(), counterpart.content.as_slice()) {
            changed.insert(number);
        }
        proof {
            assert forall|value: u128| #[trigger] changed@.contains(value) <==> exists|i: int|
                0 <= i < at + 1 && (#[trigger] accepted@[i]).block_id.uuid.value == value
                    && is_changed(accepted@, requested@, accepted@[i].block_id) by {
                if before.contains(value) {
                    let i = choose|i: int|
                        0 <= i < at && (#[trigger] accepted@[i]).block_id.uuid.value == value
                            && is_changed(accepted@, requested@, accepted@[i].block_id);
                    assert(accepted@[i].block_id.uuid.value == value);
                }
            }
        }
        at += 1;
    }
    proof {
        assert forall|value: u128| #[trigger] changed@.contains(value) <==> is_changed(
            accepted@,
            requested@,
            BlockId { uuid: crate::ids::Uuid { value } },
        ) by {
            let id = BlockId { uuid: crate::ids::Uuid { value } };
            if is_changed(accepted@, requested@, id) {
                lemma_block_with(accepted@, accepted_indexes@, id);
                let i = accepted_indexes@[value] as int;
                assert(accepted@[i].block_id == id);
            }
        }
    }
    Some(changed)
}

/// Puts the annotations in the order in which their spans start.
fn order_annotations(annotations: &[AnnotatedIdentity]) -> (ordered: Vec<usize>)
    ensures
        crate::forest::as_ints(ordered@) == ordered_by_start(annotations@, annotations@.len()),
        forall|k: int| 0 <= k < ordered@.len() ==> (#[trigger] ordered@[k]) < annotations@.len(),
{
    let mut ordered: Vec<usize> = Vec::new();
    let mut index: usize = 0;
    assert(crate::forest::as_ints(ordered@) =~= Seq::<int>::empty());
    while index < annotations.len()
        invariant
            index <= annotations@.len(),
            crate::forest::as_ints(ordered@) == ordered_by_start(annotations@, index as nat),
            forall|k: int| 0 <= k < ordered@.len() ==> (#[trigger] ordered@[k]) < index,
        decreases annotations@.len() - index,
    {
        let ghost before = crate::forest::as_ints(ordered@);
        let ghost held = ordered@;
        let start: u64 = annotations[index].span.start;
        let mut at: usize = ordered.len();
        assert(before.take(at as int) =~= before);
        assert(insert_by_start(annotations@, before, index as int) =~= insert_by_start(
            annotations@,
            before.take(at as int),
            index as int,
        ) + before.skip(at as int));
        while at > 0 && start < annotations[ordered[at - 1]].span.start
            invariant
                at <= ordered@.len(),
                ordered@ == held,
                before == crate::forest::as_ints(held),
                index < annotations@.len(),
                start == annotations@[index as int].span.start,
                forall|k: int| 0 <= k < ordered@.len() ==> (#[trigger] ordered@[k]) < index,
                insert_by_start(annotations@, before, index as int) == insert_by_start(
                    annotations@,
                    before.take(at as int),
                    index as int,
                ) + before.skip(at as int),
            decreases at,
        {
            proof {
                let front = before.take(at as int);
                assert(front.last() == before[at - 1]);
                assert(before[at - 1] == ordered@[at - 1]);
                assert(front.drop_last() =~= before.take(at - 1));
                assert(insert_by_start(annotations@, before, index as int) =~= insert_by_start(
                    annotations@,
                    before.take(at - 1),
                    index as int,
                ) + before.skip(at - 1));
            }
            at -= 1;
        }
        proof {
            if at > 0 {
                assert(before.take(at as int).last() == before[at - 1]);
                assert(before[at - 1] == ordered@[at - 1]);
            }
            assert(insert_by_start(annotations@, before, index as int) =~= before.insert(
                at as int,
                index as int,
            ));
        }
        ordered.insert(at, index);
        assert(crate::forest::as_ints(ordered@) =~= before.insert(at as int, index as int));
        index += 1;
    }
    ordered
}

/// Ordering loses no annotation.
pub proof fn lemma_ordered_members(annotations: Seq<AnnotatedIdentity>, n: nat)
    ensures
        ordered_by_start(annotations, n).len() == n,
        forall|i: int| 0 <= i < n ==> ordered_by_start(annotations, n).contains(i),
    decreases n,
{
    if n > 0 {
        let before = ordered_by_start(annotations, (n - 1) as nat);
        lemma_ordered_members(annotations, (n - 1) as nat);
        lemma_insert_by_start(annotations, before, n - 1);
    }
}

/// Inserting an index keeps the others and adds that one.
proof fn lemma_insert_by_start(annotations: Seq<AnnotatedIdentity>, ordered: Seq<int>, index: int)
    ensures
        insert_by_start(annotations, ordered, index).len() == ordered.len() + 1,
        insert_by_start(annotations, ordered, index).contains(index),
        forall|x: int|
            ordered.contains(x) ==> #[trigger] insert_by_start(
                annotations,
                ordered,
                index,
            ).contains(x),
    decreases ordered.len(),
{
    let grown = insert_by_start(annotations, ordered, index);
    if ordered.len() > 0 && annotations[index].span.start
        < annotations[ordered.last()].span.start {
        let front = ordered.drop_last();
        lemma_insert_by_start(annotations, front, index);
        let inner = insert_by_start(annotations, front, index);
        let k = choose|k: int| 0 <= k < inner.len() && inner[k] == index;
        assert(grown[k] == index);
        assert forall|x: int| ordered.contains(x) implies #[trigger] grown.contains(x) by {
            let m = choose|m: int| 0 <= m < ordered.len() && ordered[m] == x;
            if m < front.len() {
                assert(front[m] == x);
                assert(inner.contains(x));
                let j = choose|j: int| 0 <= j < inner.len() && inner[j] == x;
                assert(grown[j] == x);
            } else {
                assert(grown[inner.len() as int] == x);
            }
        }
    } else {
        assert(grown[ordered.len() as int] == index);
        assert forall|x: int| ordered.contains(x) implies #[trigger] grown.contains(x) by {
            let m = choose|m: int| 0 <= m < ordered.len() && ordered[m] == x;
            assert(grown[m] == x);
        }
    }
}

/// Patches the changed texts of a Markdown page into its exact bytes. Everything else about the
/// page must be unchanged, and every replaced block must be exactly one bulleted block before and
/// after; anything unusual gives nothing.
pub fn incremental_markdown_content_projection(
    accepted_page: &MaterializedPage,
    requested_page: &MaterializedPage,
    exact_base: &[u8],
    accepted_annotations: &[AnnotatedIdentity],
    parses: &Vec<BlockParses>,
) -> (rendered: Result<Option<RenderedProjection>, ProjectionError>)
    ensures
        match incremental_projection(
            *accepted_page,
            *requested_page,
            exact_base@,
            accepted_annotations@,
            parses@,
        ) {
            Err(error) => rendered == Err::<Option<RenderedProjection>, _>(error),
            Ok(None) => rendered is Ok && rendered->Ok_0 is None,
            Ok(Some(view)) => rendered is Ok && rendered->Ok_0 is Some && rendered->Ok_0->0@
                == view,
        },
{
    if !accepted_page.path.is_markdown() || accepted_page.page_id != requested_page.page_id
        || accepted_page.home_document_id != requested_page.home_document_id || !same_text(
        accepted_page.name.as_str(),
        requested_page.name.as_str(),
    ) || !accepted_page.path.same(&requested_page.path) || accepted_page.kind
        != requested_page.kind || !same_optional_text(
        &accepted_page.preamble,
        &requested_page.preamble,
    ) || accepted_page.blocks.len() != requested_page.blocks.len() || accepted_page.blocks.len()
        != accepted_annotations.len() {
        return Ok(None);
    }
    let ghost a = accepted_page.blocks@;
    let ghost r = requested_page.blocks@;
    let accepted_indexes = match index_page(&accepted_page.blocks) {
        Some(indexes) => indexes,
        None => return Ok(None),
    };
    let requested_indexes = match index_page(&requested_page.blocks) {
        Some(indexes) => indexes,
        None => return Ok(None),
    };
    let changed = match collect_changes(
        &accepted_page.blocks,
        &requested_page.blocks,
        &requested_indexes,
        &accepted_indexes,
    ) {
        Some(changed) => changed,
        None => return Ok(None),
    };
    let mut any_changed = false;
    let mut at: usize = 0;
    while at < accepted_page.blocks.len()
        invariant
            at <= a.len(),
            a == accepted_page.blocks@,
            r == requested_page.blocks@,
            forall|value: u128| #[trigger]
                changed@.contains(value) <==> is_changed(
                    a,
                    r,
                    BlockId { uuid: crate::ids::Uuid { value } },
                ),
            any_changed == exists|i: int|
                0 <= i < at && is_changed(a, r, (#[trigger] a[i]).block_id),
        decreases a.len() - at,
    {
        let number: u128 = accepted_page.blocks[at].block_id.uuid.value;
        let this_changed = changed.contains(&number);
        proof {
            assert(a[at as int].block_id == (BlockId { uuid: crate::ids::Uuid { value: number } }));
            assert(this_changed == is_changed(a, r, a[at as int].block_id));
        }
        if this_changed {
            any_changed = true;
        }
        at += 1;
    }
    if !any_changed {
        return Ok(None);
    }
    let use_crlf = find_crlf(exact_base);
    let ordered = order_annotations(accepted_annotations);
    let ghost order = crate::forest::as_ints(ordered@);
    proof {
        lemma_ordered_members(accepted_annotations@, accepted_annotations@.len());
    }
    let mut spans: Vec<StructuralSpan> = Vec::new();
    let mut filled: usize = 0;
    while filled < accepted_annotations.len()
        invariant
            filled <= accepted_annotations@.len(),
            spans@.len() == filled,
        decreases accepted_annotations@.len() - filled,
    {
        spans.push(StructuralSpan { start: 0, end: 0 });
        filled += 1;
    }
    let mut passed: HashSet<u128> = HashSet::new();
    let mut target: Vec<u8> = Vec::new();
    let mut cursor: usize = 0;
    let mut next: usize = 0;
    let ghost mut state = PatchState { cursor: 0, target: Seq::empty(), spans: Map::empty() };
    while next < ordered.len()
        invariant
            next <= ordered@.len(),
            order == crate::forest::as_ints(ordered@),
            order == ordered_by_start(accepted_annotations@, accepted_annotations@.len()),
            forall|k: int|
                0 <= k < ordered@.len() ==> (#[trigger] ordered@[k]) < accepted_annotations@.len(),
            a == accepted_page.blocks@,
            r == requested_page.blocks@,
            same_frame(*accepted_page, *requested_page),
            a.len() == accepted_annotations@.len(),
            distinct_blocks(a),
            distinct_blocks(r),
            texts_only(a, r),
            some_changed(a, r),
            indexes_page(a, accepted_indexes@),
            indexes_page(r, requested_indexes@),
            use_crlf == has_crlf(exact_base@),
            forall|value: u128| #[trigger]
                changed@.contains(value) <==> is_changed(
                    a,
                    r,
                    BlockId { uuid: crate::ids::Uuid { value } },
                ),
            spans@.len() == accepted_annotations@.len(),
            cursor <= exact_base@.len(),
            patch_annotations(
                a,
                r,
                exact_base@,
                accepted_annotations@,
                parses@,
                order,
                next as nat,
            ) == Patched::Going(state),
            state.cursor == cursor,
            state.target == target@,
            forall|k: int| #[trigger]
                state.spans.dom().contains(k) <==> (exists|m: int|
                    0 <= m < next && #[trigger] order[m] == k),
            forall|k: int| #[trigger]
                state.spans.dom().contains(k) ==> 0 <= k < spans@.len() && state.spans[k]
                    == spans@[k],
            forall|value: u128| #[trigger]
                passed@.contains(value) <==> exists|k: int| #[trigger]
                    state.spans.dom().contains(k)
                        && accepted_annotations@[k].block_id.uuid.value == value,
        decreases ordered@.len() - next,
    {
        let index: usize = ordered[next];
        let annotation = &accepted_annotations[index];
        let ghost before_state = state;
        let ghost step = patch_annotation(
            a,
            r,
            exact_base@,
            accepted_annotations@,
            parses@,
            state,
            index as int,
        );
        proof {
            assert(order[next as int] == index);
            assert(patch_annotations(
                a,
                r,
                exact_base@,
                accepted_annotations@,
                parses@,
                order,
                (next + 1) as nat,
            ) == step);
            if !(step is Going) {
                lemma_patch_stops(
                    a,
                    r,
                    exact_base@,
                    accepted_annotations@,
                    parses@,
                    order,
                    (next + 1) as nat,
                    order.len(),
                );
            }
        }
        if annotation.span.start > usize::MAX as u64 || annotation.span.end > usize::MAX as u64 {
            return Err(ProjectionError::ProjectionTooLarge);
        }
        let start: usize = annotation.span.start as usize;
        let end: usize = annotation.span.end as usize;
        if start < cursor || end < start || end > exact_base.len() {
            return Ok(None);
        }
        push_bytes(&mut target, vstd::slice::slice_subrange(exact_base, cursor, start));
        let ghost before = target@;
        let shifted_start: usize = target.len();
        let number: u128 = annotation.block_id.uuid.value;
        proof {
            assert(annotation.block_id == (BlockId {
                uuid: crate::ids::Uuid { value: number },
            }));
            lemma_block_with(a, accepted_indexes@, annotation.block_id);
            lemma_block_with(r, requested_indexes@, annotation.block_id);
        }
        if changed.contains(&number) {
            let accepted_at: usize = match accepted_indexes.get(&number) {
                Some(found) => *found,
                None => return Ok(None),
            };
            let requested_at: usize = match requested_indexes.get(&number) {
                Some(found) => *found,
                None => return Ok(None),
            };
            let nothing = BlockParses { accepted: None, replaced: None };
            let block_parses = if index < parses.len() {
                &parses[index]
            } else {
                &nothing
            };
            match render_incremental_markdown_block(
                vstd::slice::slice_subrange(exact_base, start, end),
                accepted_page.blocks[accepted_at].content.as_slice(),
                requested_page.blocks[requested_at].content.as_slice(),
                use_crlf,
                block_parses,
            ) {
                Some(replacement) => {
                    push_bytes(&mut target, replacement.as_slice());
                },
                None => return Ok(None),
            }
        } else {
            push_bytes(&mut target, vstd::slice::slice_subrange(exact_base, start, end));
        }
        let shifted_end: usize = target.len();
        let ghost held = passed@;
        if !passed.insert(number) {
            proof {
                let k = choose|k: int| #[trigger]
                    state.spans.dom().contains(k)
                        && accepted_annotations@[k].block_id.uuid.value == number;
                assert(accepted_annotations@[k].block_id == annotation.block_id);
                assert(names_passed_block(accepted_annotations@, state.spans, index as int));
            }
            return Ok(None);
        }
        proof {
            assert(!names_passed_block(accepted_annotations@, state.spans, index as int)) by {
                if names_passed_block(accepted_annotations@, state.spans, index as int) {
                    let k = choose|k: int| #[trigger]
                        state.spans.dom().contains(k) && accepted_annotations@[k].block_id
                            == accepted_annotations@[index as int].block_id;
                    assert(held.contains(number));
                }
            }
        }
        let span = StructuralSpan { start: shifted_start as u64, end: shifted_end as u64 };
        let ghost old_spans = spans@;
        spans.set(index, span);
        cursor = end;
        proof {
            state = step->Going_0;
            assert(state.spans == before_state.spans.insert(index as int, span));
            assert forall|k: int| #[trigger] state.spans.dom().contains(k) <==> (exists|m: int|
                0 <= m < next + 1 && #[trigger] order[m] == k) by {
                if k == index {
                    assert(order[next as int] == k);
                }
                if before_state.spans.dom().contains(k) {
                    let m = choose|m: int| 0 <= m < next && #[trigger] order[m] == k;
                    assert(order[m] == k);
                }
            }
            assert forall|value: u128| #[trigger] passed@.contains(value) <==> exists|k: int|
                #[trigger]
                state.spans.dom().contains(k) && accepted_annotations@[k].block_id.uuid.value
                    == value by {
                if held.contains(value) {
                    let k = choose|k: int| #[trigger]
                        before_state.spans.dom().contains(k)
                            && accepted_annotations@[k].block_id.uuid.value == value;
                    assert(state.spans.dom().contains(k));
                }
                if value == number {
                    assert(state.spans.dom().contains(index as int));
                }
            }
        }
        next += 1;
    }
    proof {
        assert forall|k: int|
            0 <= k < accepted_annotations@.len() implies #[trigger] state.spans.dom().contains(k) by {
            assert(order.contains(k));
            let m = choose|m: int| 0 <= m < order.len() && order[m] == k;
            assert(order[m] == k);
        }
    }
    let mut block: usize = 0;
    while block < accepted_page.blocks.len()
        invariant
            block <= a.len(),
            a == accepted_page.blocks@,
            r == requested_page.blocks@,
            same_frame(*accepted_page, *requested_page),
            a.len() == accepted_annotations@.len(),
            distinct_blocks(a),
            distinct_blocks(r),
            texts_only(a, r),
            some_changed(a, r),
            order == ordered_by_start(accepted_annotations@, accepted_annotations@.len()),
            patch_annotations(
                a,
                r,
                exact_base@,
                accepted_annotations@,
                parses@,
                order,
                order.len(),
            ) == Patched::Going(state),
            forall|value: u128| #[trigger]
                changed@.contains(value) <==> is_changed(
                    a,
                    r,
                    BlockId { uuid: crate::ids::Uuid { value } },
                ),
            forall|k: int|
                #[trigger] state.spans.dom().contains(k) ==> 0 <= k < accepted_annotations@.len(),
            forall|k: int|
                0 <= k < accepted_annotations@.len() ==> #[trigger] state.spans.dom().contains(k),
            forall|value: u128| #[trigger]
                passed@.contains(value) <==> exists|k: int| #[trigger]
                    state.spans.dom().contains(k)
                        && accepted_annotations@[k].block_id.uuid.value == value,
            forall|i: int|
                0 <= i < block && is_changed(a, r, (#[trigger] a[i]).block_id) ==> exists|k: int|
                    0 <= k < accepted_annotations@.len() && (
                    #[trigger] accepted_annotations@[k]).block_id == a[i].block_id,
        decreases a.len() - block,
    {
        let number: u128 = accepted_page.blocks[block].block_id.uuid.value;
        assert(a[block as int].block_id == (BlockId { uuid: crate::ids::Uuid { value: number } }));
        if changed.contains(&number) {
            if !passed.contains(&number) {
                proof {
                    assert(!changes_annotated(a, r, accepted_annotations@)) by {
                        if changes_annotated(a, r, accepted_annotations@) {
                            assert(is_changed(a, r, a[block as int].block_id));
                            let k = choose|k: int|
                                0 <= k < accepted_annotations@.len() && (
                                #[trigger] accepted_annotations@[k]).block_id
                                    == a[block as int].block_id;
                            assert(state.spans.dom().contains(k));
                            assert(passed@.contains(number));
                        }
                    }
                }
                return Ok(None);
            }
            proof {
                let k = choose|k: int| #[trigger]
                    state.spans.dom().contains(k)
                        && accepted_annotations@[k].block_id.uuid.value == number;
                assert(accepted_annotations@[k].block_id == a[block as int].block_id);
            }
        }
        block += 1;
    }
    assert(changes_annotated(a, r, accepted_annotations@));
    push_bytes(&mut target, vstd::slice::slice_subrange(exact_base, cursor, exact_base.len()));
    assert(exact_base@.subrange(cursor as int, exact_base@.len() as int) =~= exact_base@.skip(
        cursor as int,
    ));
    let mut annotations: Vec<AnnotatedIdentity> = Vec::new();
    let mut out: usize = 0;
    while out < accepted_annotations.len()
        invariant
            out <= accepted_annotations@.len(),
            spans@.len() == accepted_annotations@.len(),
            forall|k: int|
                0 <= k < accepted_annotations@.len() ==> #[trigger] state.spans.dom().contains(k),
            forall|k: int| #[trigger]
                state.spans.dom().contains(k) ==> 0 <= k < spans@.len() && state.spans[k]
                    == spans@[k],
            annotations@.len() == out,
            forall|j: int|
                0 <= j < out ==> (#[trigger] annotations@[j])@ == (AnnotatedIdentityView {
                    span: state.spans[j],
                    ..accepted_annotations@[j]@
                }),
        decreases accepted_annotations@.len() - out,
    {
        let annotation = &accepted_annotations[out];
        assert(state.spans.dom().contains(out as int));
        annotations.push(
            AnnotatedIdentity::new(
                StructuralLocator {
                    components: copy_words(annotation.locator.components.as_slice()),
                },
                spans[out],
                annotation.block_id,
                annotation.logseq_uuid,
            ),
        );
        out += 1;
    }
    let generated_anchors: Vec<PolicyGeneratedAnchor> = Vec::new();
    proof {
        assert(annotation_views(annotations@) =~= Seq::new(
            accepted_annotations@.len(),
            |i: int|
                AnnotatedIdentityView { span: state.spans[i], ..accepted_annotations@[i]@ },
        ));
        assert(generated_anchors@ =~= Seq::<PolicyGeneratedAnchor>::empty());
    }
    Ok(
        Some(
            RenderedProjection {
                target,
                annotations,
                base_layout_identities: structural_layout_identities(accepted_annotations),
                generated_anchors,
            },
        ),
    )
}

} // verus!
