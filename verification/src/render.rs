//! Where each block lies in the serialised bytes of a page.
//!
//! The serialiser is not trusted with positions. Each block's text is framed by two marks that
//! occur nowhere in the bytes, the marked document is serialised the same way, and taking the
//! marks out again must give exactly the bytes of the page.

use vstd::prelude::*;

use crate::annotation::{
    annotation_views, AnnotatedIdentity, AnnotatedIdentityView, StructuralLocator,
    StructuralSpan,
};
use crate::bytes::{be_bytes, copy_range, push_be, push_bytes, same_bytes};
use crate::document::{doc_views, DocBlock, DocBlockView, Document};
use crate::error::ProjectionError;
use crate::inject::{has_at, holds_at, utf8, ProjectionFormat};
use crate::order::copy_words;
use crate::page::{copy_optional_text, optional_text};
use crate::text::{hex_text, push_hex};

verus! {

/// The start of every mark for a given salt.
pub open spec fn mark_prefix(salt: u64) -> Seq<char> {
    "\u{1e}TINE-PROJECTION-SPAN-"@ + hex_text(be_bytes(salt as nat, 8)) + "-"@
}

/// Whether `bytes` holds `part` somewhere.
pub open spec fn holds_somewhere(bytes: Seq<u8>, part: Seq<u8>) -> bool {
    exists|at: int| holds_at(bytes, part, at)
}

/// Whether `salt` is the first one whose marks occur nowhere in `target`.
pub open spec fn is_first_salt(target: Seq<u8>, salt: u64) -> bool {
    &&& !holds_somewhere(target, utf8(mark_prefix(salt)))
    &&& forall|earlier: u64|
        earlier < salt ==> holds_somewhere(target, #[trigger] utf8(mark_prefix(earlier)))
}

/// The start of marks that occur nowhere in `target`, with the first salt that there is.
pub open spec fn unused_prefix(target: Seq<u8>) -> Option<Seq<char>> {
    if exists|salt: u64| is_first_salt(target, salt) {
        Some(mark_prefix(choose|salt: u64| is_first_salt(target, salt)))
    } else {
        None
    }
}

/// The mark at one side of block `index`.
pub open spec fn span_mark(prefix: Seq<char>, index: int, side: char) -> Seq<char> {
    prefix + hex_text(be_bytes(index as nat, 8)) + seq!['-', side, '\u{1f}']
}

/// Where `needle` first occurs in `haystack`, from `from` on.
pub open spec fn found_from(haystack: Seq<u8>, needle: Seq<u8>, from: int) -> Option<int>
    decreases haystack.len() - from,
{
    if from < 0 || from + needle.len() > haystack.len() {
        None
    } else if holds_at(haystack, needle, from) {
        Some(from)
    } else if from >= haystack.len() {
        None
    } else {
        found_from(haystack, needle, from + 1)
    }
}

/// Where `needle` first occurs in `haystack`, from `from` on.
pub fn find_bytes(haystack: &[u8], needle: &[u8], from: usize) -> (found: Option<usize>)
    requires
        from <= haystack@.len(),
    ensures
        match found_from(haystack@, needle@, from as int) {
            Some(at) => found is Some && found->0 == at && from <= at && at + needle@.len()
                <= haystack@.len() <= usize::MAX,
            None => found is None,
        },
{
    let length: usize = haystack.len();
    let mut at: usize = from;
    while needle.len() <= length - at
        invariant
            length == haystack@.len(),
            from <= at <= haystack@.len(),
            found_from(haystack@, needle@, from as int) == found_from(
                haystack@,
                needle@,
                at as int,
            ),
        decreases haystack@.len() - at,
    {
        if has_at(haystack, needle, at) {
            return Some(at);
        }
        if at >= length {
            return None;
        }
        at += 1;
    }
    None
}

/// Searching from the start finds a part exactly where there is one.
pub proof fn lemma_found_from(haystack: Seq<u8>, needle: Seq<u8>, from: int)
    requires
        0 <= from <= haystack.len(),
    ensures
        match found_from(haystack, needle, from) {
            Some(at) => from <= at && holds_at(haystack, needle, at) && forall|k: int|
                from <= k < at ==> !#[trigger] holds_at(haystack, needle, k),
            None => forall|k: int| from <= k ==> !#[trigger] holds_at(haystack, needle, k),
        },
    decreases haystack.len() - from,
{
    if from + needle.len() > haystack.len() {
    } else if holds_at(haystack, needle, from) {
    } else if from >= haystack.len() {
    } else {
        lemma_found_from(haystack, needle, from + 1);
    }
}

/// The start of every mark for a given salt.
fn mark_prefix_text(salt: u64) -> (prefix: String)
    ensures
        prefix@ == mark_prefix(salt),
{
    let mut prefix = String::new();
    prefix.append("\u{1e}TINE-PROJECTION-SPAN-");
    let mut number: Vec<u8> = Vec::new();
    push_be(&mut number, salt as u128, 8);
    proof {
        crate::bytes::lemma_be_bytes_len(salt as nat, 8);
        assert(number@ =~= be_bytes(salt as nat, 8));
    }
    push_hex(&mut prefix, number.as_slice());
    prefix.append("-");
    assert(prefix@ =~= mark_prefix(salt));
    prefix
}

/// The start of marks that occur nowhere in the bytes of a page.
pub fn unused_mark_prefix(target: &[u8]) -> (prefix: Result<String, ProjectionError>)
    ensures
        match unused_prefix(target@) {
            Some(text) => prefix is Ok && prefix->Ok_0@ == text,
            None => prefix == Err::<String, _>(ProjectionError::SpanInstrumentationMismatch),
        },
{
    let mut salt: u64 = 0;
    loop
        invariant
            forall|earlier: u64|
                earlier < salt ==> holds_somewhere(target@, #[trigger] utf8(mark_prefix(earlier))),
        decreases u64::MAX - salt,
    {
        let candidate = mark_prefix_text(salt);
        let found = find_bytes(target, candidate.as_str().as_bytes(), 0);
        proof {
            lemma_found_from(target@, utf8(mark_prefix(salt)), 0);
        }
        if found.is_none() {
            proof {
                assert(!holds_somewhere(target@, utf8(mark_prefix(salt)))) by {
                    if holds_somewhere(target@, utf8(mark_prefix(salt))) {
                        let at = choose|at: int| holds_at(target@, utf8(mark_prefix(salt)), at);
                        assert(0 <= at);
                    }
                }
                assert(is_first_salt(target@, salt));
                let chosen = choose|chosen: u64| is_first_salt(target@, chosen);
                assert(is_first_salt(target@, chosen));
                if chosen < salt {
                    assert(holds_somewhere(target@, utf8(mark_prefix(chosen))));
                } else if salt < chosen {
                    assert(holds_somewhere(target@, utf8(mark_prefix(salt))));
                }
            }
            return Ok(candidate);
        }
        proof {
            let at = found_from(target@, utf8(mark_prefix(salt)), 0)->0;
            assert(holds_at(target@, utf8(mark_prefix(salt)), at));
            assert(holds_somewhere(target@, utf8(mark_prefix(salt))));
        }
        if salt == u64::MAX {
            proof {
                assert forall|chosen: u64| !is_first_salt(target@, chosen) by {
                    assert(holds_somewhere(target@, utf8(mark_prefix(chosen))));
                }
            }
            return Err(ProjectionError::SpanInstrumentationMismatch);
        }
        salt += 1;
    }
}

/// The mark at one side of block `index`.
fn span_marker(prefix: &str, index: usize, side: char) -> (mark: String)
    ensures
        mark@ == span_mark(prefix@, index as int, side),
{
    let mut mark = prefix.to_owned();
    let mut number: Vec<u8> = Vec::new();
    push_be(&mut number, index as u128, 8);
    proof {
        crate::bytes::lemma_be_bytes_len(index as nat, 8);
        assert(number@ =~= be_bytes(index as nat, 8));
    }
    push_hex(&mut mark, number.as_slice());
    mark.push('-');
    mark.push(side);
    mark.push('\u{1f}');
    assert(mark@ =~= span_mark(prefix@, index as int, side));
    mark
}

/// The text of block `index` framed by its marks: the first one behind the first `offset` bytes,
/// the second one at the end.
pub open spec fn marked_raw(raw: Seq<u8>, offset: int, prefix: Seq<char>, index: int) -> Seq<u8> {
    raw.take(offset) + utf8(span_mark(prefix, index, 'S')) + raw.skip(offset) + utf8(
        span_mark(prefix, index, 'E'),
    )
}

/// Where the first mark of a block goes: behind a Markdown heading line, else at the start.
pub open spec fn mark_offset(format: ProjectionFormat, heading_end: Option<usize>) -> int {
    match format {
        ProjectionFormat::Markdown => match heading_end {
            Some(end) => end as int,
            None => 0,
        },
        ProjectionFormat::Org => 0,
    }
}

/// The document with every block's text framed by marks. `heading_ends` gives for each block where
/// the heading line that its text starts with ends, if it starts with one.
pub fn mark_document_blocks(
    format: ProjectionFormat,
    document: &Document,
    heading_ends: &Vec<Option<usize>>,
    prefix: &str,
) -> (marked: Document)
    requires
        heading_ends@.len() == document.blocks@.len(),
        forall|i: int|
            0 <= i < heading_ends@.len() ==> mark_offset(format, #[trigger] heading_ends@[i])
                <= document.blocks@[i].raw@.len(),
    ensures
        optional_text(marked.pre_block) == optional_text(document.pre_block),
        marked.blocks@.len() == document.blocks@.len(),
        forall|i: int|
            0 <= i < marked.blocks@.len() ==> (#[trigger] marked.blocks@[i])@ == (DocBlockView {
                raw: marked_raw(
                    document.blocks@[i].raw@,
                    mark_offset(format, heading_ends@[i]),
                    prefix@,
                    i,
                ),
                ..document.blocks@[i]@
            }),
{
    let mut blocks: Vec<DocBlock> = Vec::new();
    let mut index: usize = 0;
    while index < document.blocks.len()
        invariant
            index <= document.blocks@.len(),
            heading_ends@.len() == document.blocks@.len(),
            forall|i: int|
                0 <= i < heading_ends@.len() ==> mark_offset(format, #[trigger] heading_ends@[i])
                    <= document.blocks@[i].raw@.len(),
            blocks@.len() == index,
            forall|i: int|
                0 <= i < index ==> (#[trigger] blocks@[i])@ == (DocBlockView {
                    raw: marked_raw(
                        document.blocks@[i].raw@,
                        mark_offset(format, heading_ends@[i]),
                        prefix@,
                        i,
                    ),
                    ..document.blocks@[i]@
                }),
        decreases document.blocks@.len() - index,
    {
        let block = &document.blocks[index];
        let heading_end = heading_ends[index];
        assert(mark_offset(format, heading_ends@[index as int]) <= block.raw@.len());
        let offset: usize = match format {
            ProjectionFormat::Markdown => match heading_end {
                Some(end) => end,
                None => 0,
            },
            ProjectionFormat::Org => 0,
        };
        let start = span_marker(prefix, index, 'S');
        let end = span_marker(prefix, index, 'E');
        let mut raw = copy_range(block.raw.as_slice(), 0, offset);
        push_bytes(&mut raw, start.as_str().as_bytes());
        push_bytes(
            &mut raw,
            vstd::slice::slice_subrange(block.raw.as_slice(), offset, block.raw.len()),
        );
        push_bytes(&mut raw, end.as_str().as_bytes());
        proof {
            assert(block.raw@.subrange(0, offset as int) =~= block.raw@.take(offset as int));
            assert(block.raw@.subrange(offset as int, block.raw@.len() as int) =~= block.raw@.skip(
                offset as int,
            ));
        }
        blocks.push(
            DocBlock {
                locator: copy_words(block.locator.as_slice()),
                block_id: block.block_id,
                logseq_uuid: block.logseq_uuid,
                raw,
                generated: block.generated,
            },
        );
        index += 1;
    }
    Document { pre_block: copy_optional_text(&document.pre_block), blocks }
}

/// How far taking the marks out has come: up to `cursor` in the marked bytes, with the bytes that
/// were left and where the blocks lie in them.
pub struct Unmarked {
    pub cursor: int,
    pub clean: Seq<u8>,
    pub annotations: Seq<AnnotatedIdentityView>,
}

/// Where the last line of some bytes starts.
pub open spec fn last_line_start(bytes: Seq<u8>) -> int
    decreases bytes.len(),
{
    if bytes.len() == 0 || bytes.last() == 0x0a {
        bytes.len() as int
    } else {
        last_line_start(bytes.drop_last())
    }
}

/// Where the marks of block `index` are taken out and its bytes kept, or `None` where the marks
/// are not as they should be.
pub open spec fn unmark_block(
    marked: Seq<u8>,
    prefix: Seq<char>,
    state: Unmarked,
    block: DocBlockView,
    index: int,
) -> Option<Unmarked> {
    let start_mark = utf8(span_mark(prefix, index, 'S'));
    let end_mark = utf8(span_mark(prefix, index, 'E'));
    match found_from(marked, start_mark, state.cursor) {
        None => None,
        Some(start_at) => {
            let before = state.clean + marked.subrange(state.cursor, start_at);
            let inside = start_at + start_mark.len();
            let span_start = last_line_start(before);
            if block.raw.len() == 0 {
                if !holds_at(marked, end_mark, inside) || before.len() == 0 || before.last()
                    != 0x20 {
                    None
                } else {
                    Some(
                        unmarked_after(
                            state,
                            block,
                            inside + end_mark.len(),
                            before.drop_last(),
                            span_start,
                        ),
                    )
                }
            } else {
                match found_from(marked, end_mark, inside) {
                    None => None,
                    Some(end_at) => Some(
                        unmarked_after(
                            state,
                            block,
                            end_at + end_mark.len(),
                            before + marked.subrange(inside, end_at),
                            span_start,
                        ),
                    ),
                }
            }
        },
    }
}

/// The state after a block whose bytes run from `span_start` to the end of `clean`.
pub open spec fn unmarked_after(
    state: Unmarked,
    block: DocBlockView,
    cursor: int,
    clean: Seq<u8>,
    span_start: int,
) -> Unmarked {
    Unmarked {
        cursor,
        clean,
        annotations: state.annotations.push(
            AnnotatedIdentityView {
                locator: block.locator,
                span: StructuralSpan { start: span_start as u64, end: clean.len() as u64 },
                block_id: block.block_id,
                logseq_uuid: block.logseq_uuid,
            },
        ),
    }
}

/// The state after the first `n` blocks.
pub open spec fn unmark_blocks(
    marked: Seq<u8>,
    prefix: Seq<char>,
    blocks: Seq<DocBlockView>,
    n: nat,
) -> Option<Unmarked>
    decreases n,
{
    if n == 0 {
        Some(Unmarked { cursor: 0, clean: Seq::empty(), annotations: Seq::empty() })
    } else {
        match unmark_blocks(marked, prefix, blocks, (n - 1) as nat) {
            None => None,
            Some(state) => unmark_block(marked, prefix, state, blocks[n - 1], n - 1),
        }
    }
}

/// Where the blocks lie in the bytes of a page, from the serialisation of the marked document; or
/// nothing where taking the marks out does not give the bytes of the page.
pub open spec fn annotated(
    target: Seq<u8>,
    marked: Seq<u8>,
    prefix: Seq<char>,
    blocks: Seq<DocBlockView>,
) -> Option<Seq<AnnotatedIdentityView>> {
    match unmark_blocks(marked, prefix, blocks, blocks.len()) {
        None => None,
        Some(state) => if state.clean + marked.skip(state.cursor) == target {
            Some(state.annotations)
        } else {
            None
        },
    }
}

/// Where the last line of some bytes starts is inside them.
pub proof fn lemma_last_line_start(bytes: Seq<u8>)
    ensures
        0 <= last_line_start(bytes) <= bytes.len(),
        bytes.len() > 0 && bytes.last() != 0x0a ==> last_line_start(bytes) <= bytes.len() - 1,
    decreases bytes.len(),
{
    if bytes.len() > 0 && bytes.last() != 0x0a {
        lemma_last_line_start(bytes.drop_last());
    }
}

/// A failure at some block is the failure of all.
proof fn lemma_unmark_fails(
    marked: Seq<u8>,
    prefix: Seq<char>,
    blocks: Seq<DocBlockView>,
    k: nat,
    n: nat,
)
    requires
        k <= n,
        unmark_blocks(marked, prefix, blocks, k) is None,
    ensures
        unmark_blocks(marked, prefix, blocks, n) is None,
    decreases n,
{
    if k < n {
        lemma_unmark_fails(marked, prefix, blocks, k, (n - 1) as nat);
    }
}

/// Where the last line of some bytes starts.
fn find_last_line_start(bytes: &Vec<u8>) -> (start: usize)
    ensures
        start == last_line_start(bytes@),
        start <= bytes@.len(),
{
    let mut at: usize = bytes.len();
    assert(bytes@.take(at as int) =~= bytes@);
    while at > 0 && bytes[at - 1] != 0x0a
        invariant
            at <= bytes@.len(),
            last_line_start(bytes@) == last_line_start(bytes@.take(at as int)),
        decreases at,
    {
        assert(bytes@.take(at as int).last() == bytes@[at - 1]);
        assert(bytes@.take(at as int).drop_last() =~= bytes@.take(at - 1));
        at -= 1;
    }
    proof {
        if at > 0 {
            assert(bytes@.take(at as int).last() == bytes@[at - 1]);
        }
    }
    at
}

/// Where the blocks of a document lie in its serialised bytes, from the serialisation of the
/// marked document.
pub fn annotate_serialized_blocks(
    target: &[u8],
    marked: &[u8],
    prefix: &str,
    blocks: &Vec<DocBlock>,
) -> (annotations: Result<Vec<AnnotatedIdentity>, ProjectionError>)
    requires
        forall|i: int| 0 <= i < blocks@.len() ==> (#[trigger] blocks@[i]).locator@.len() > 0,
    ensures
        match annotated(target@, marked@, prefix@, doc_views(blocks@)) {
            Some(views) => annotations is Ok && annotation_views(annotations->Ok_0@) == views,
            None => annotations == Err::<Vec<AnnotatedIdentity>, _>(
                ProjectionError::SpanInstrumentationMismatch,
            ),
        },
{
    let ghost views = doc_views(blocks@);
    let mut clean: Vec<u8> = Vec::new();
    let mut cursor: usize = 0;
    let mut annotations: Vec<AnnotatedIdentity> = Vec::new();
    let mut index: usize = 0;
    proof {
        assert(annotation_views(annotations@) =~= Seq::<AnnotatedIdentityView>::empty());
    }
    while index < blocks.len()
        invariant
            index <= blocks@.len(),
            views == doc_views(blocks@),
            cursor <= marked@.len(),
            forall|i: int| 0 <= i < blocks@.len() ==> (#[trigger] blocks@[i]).locator@.len() > 0,
            unmark_blocks(marked@, prefix@, views, index as nat) == Some(
                Unmarked {
                    cursor: cursor as int,
                    clean: clean@,
                    annotations: annotation_views(annotations@),
                },
            ),
        decreases blocks@.len() - index,
    {
        let block = &blocks[index];
        let ghost state = Unmarked {
            cursor: cursor as int,
            clean: clean@,
            annotations: annotation_views(annotations@),
        };
        let ghost next = unmark_block(marked@, prefix@, state, block@, index as int);
        proof {
            assert(views[index as int] == block@);
            assert(unmark_blocks(marked@, prefix@, views, (index + 1) as nat) == next);
            if next is None {
                lemma_unmark_fails(marked@, prefix@, views, (index + 1) as nat, views.len());
            }
        }
        let start_mark = span_marker(prefix, index, 'S');
        let end_mark = span_marker(prefix, index, 'E');
        let start_bytes = start_mark.as_str().as_bytes();
        let end_bytes = end_mark.as_str().as_bytes();
        let start_at: usize = match find_bytes(marked, start_bytes, cursor) {
            Some(at) => at,
            None => return Err(ProjectionError::SpanInstrumentationMismatch),
        };
        push_bytes(&mut clean, vstd::slice::slice_subrange(marked, cursor, start_at));
        let ghost before = clean@;
        let span_start: usize = find_last_line_start(&clean);
        cursor = start_at + start_bytes.len();
        if block.raw.len() == 0 {
            if !has_at(marked, end_bytes, cursor) {
                return Err(ProjectionError::SpanInstrumentationMismatch);
            }
            match clean.pop() {
                Some(byte) => {
                    if byte != 0x20 {
                        return Err(ProjectionError::SpanInstrumentationMismatch);
                    }
                },
                None => return Err(ProjectionError::SpanInstrumentationMismatch),
            }
            assert(clean@ =~= before.drop_last());
        } else {
            let end_at: usize = match find_bytes(marked, end_bytes, cursor) {
                Some(at) => at,
                None => return Err(ProjectionError::SpanInstrumentationMismatch),
            };
            push_bytes(&mut clean, vstd::slice::slice_subrange(marked, cursor, end_at));
            cursor = end_at;
        }
        cursor = cursor + end_bytes.len();
        proof {
            lemma_last_line_start(before);
            assert(span_start <= clean@.len());
        }
        let locator = StructuralLocator { components: copy_words(block.locator.as_slice()) };
        let span = StructuralSpan { start: span_start as u64, end: clean.len() as u64 };
        let ghost held = annotations@;
        let entry = AnnotatedIdentity::new(locator, span, block.block_id, block.logseq_uuid);
        annotations.push(entry);
        assert(annotation_views(annotations@) =~= annotation_views(held).push(entry@));
        index += 1;
    }
    push_bytes(&mut clean, vstd::slice::slice_subrange(marked, cursor, marked.len()));
    proof {
        assert(marked@.subrange(cursor as int, marked@.len() as int) =~= marked@.skip(
            cursor as int,
        ));
    }
    if !same_bytes(clean.as_slice(), target) {
        return Err(ProjectionError::SpanInstrumentationMismatch);
    }
    Ok(annotations)
}

} // verus!
