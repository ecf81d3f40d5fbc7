//! What holds of patching changed block texts into the bytes of a page.

use vstd::prelude::*;

use crate::annotation::AnnotatedIdentity;
use crate::document::page_format;
use crate::error::ProjectionError;
use crate::incremental::{
    block_with, bulleted_text, continued_lines, distinct_blocks, first_line, has_counterpart,
    incremental_projection, indent_end, insert_by_start, is_bulleted, is_changed,
    lemma_ordered_members, names_passed_block, ordered_by_start, patch_annotation,
    patch_annotations, replacement_text, some_changed, without_return, BlockParses, Patched,
};
use crate::ids::hyphenated_text;
use crate::inject::{lemma_line_end, line_end, ProjectionFormat};
use crate::line_ends::has_crlf;
use crate::page::{optional_text, MaterializedBlock, MaterializedPage};
use crate::plan_laws::law_patching_keeps_the_other_blocks;

verus! {

/// Whether a text starts with a bullet behind `n` blanks and tabs: a hyphen that ends its line, or
/// that a blank follows.
pub open spec fn starts_bullet(text: Seq<u8>, n: int) -> bool {
    &&& 0 <= n < text.len()
    &&& forall|k: int| 0 <= k < n ==> #[trigger] text[k] == 0x20 || text[k] == 0x09
    &&& text[n] == 0x2d
    &&& {
        ||| n + 1 == text.len()
        ||| text[n + 1] == 0x20
        ||| text[n + 1] == 0x0a
        ||| text[n + 1] == 0x0d && (n + 2 == text.len() || text[n + 2] == 0x0a)
    }
}

/// Whether a line is one: no line feed is in it.
pub open spec fn is_one_line(line: Seq<u8>) -> bool {
    forall|k: int| 0 <= k < line.len() ==> #[trigger] line[k] != 0x0a
}

/// The end of a line in a file.
pub open spec fn line_break(use_crlf: bool) -> Seq<u8> {
    if use_crlf {
        seq![0x0du8, 0x0au8]
    } else {
        seq![0x0au8]
    }
}

/// A line without line feeds ends at its end.
proof fn lemma_one_line_end(line: Seq<u8>, at: int)
    requires
        is_one_line(line),
        0 <= at <= line.len(),
    ensures
        line_end(line, at) == line.len(),
    decreases line.len() - at,
{
    if at < line.len() {
        assert(line[at] != 0x0a);
        lemma_one_line_end(line, at + 1);
    }
}

/// Lines end where they did when another line is put behind them.
proof fn lemma_line_end_with_more(content: Seq<u8>, line: Seq<u8>, at: int)
    requires
        0 <= at <= content.len(),
    ensures
        line_end(content + seq![0x0au8] + line, at) == line_end(content, at),
    decreases content.len() - at,
{
    let more = content + seq![0x0au8] + line;
    if at < content.len() {
        assert(more[at] == content[at]);
        if content[at] != 0x0a {
            lemma_line_end_with_more(content, line, at + 1);
        }
    } else {
        assert(more[at] == 0x0a);
    }
}

/// The last line of a longer content ends at its end.
proof fn lemma_last_line_end(content: Seq<u8>, line: Seq<u8>, at: int)
    requires
        is_one_line(line),
        content.len() < at <= content.len() + 1 + line.len(),
    ensures
        line_end(content + seq![0x0au8] + line, at) == content.len() + 1 + line.len(),
    decreases content.len() + 1 + line.len() - at,
{
    let more = content + seq![0x0au8] + line;
    if at < more.len() {
        assert(more[at] == line[at - content.len() - 1]);
        lemma_last_line_end(content, line, at + 1);
    }
}

/// One line more is continued behind the others.
proof fn lemma_continued_more(
    content: Seq<u8>,
    line: Seq<u8>,
    at: int,
    indent: Seq<u8>,
    use_crlf: bool,
)
    requires
        is_one_line(line),
        0 <= at <= content.len(),
    ensures
        continued_lines(content + seq![0x0au8] + line, at, indent, use_crlf) == continued_lines(
            content,
            at,
            indent,
            use_crlf,
        ) + (line_break(use_crlf) + indent + seq![0x20u8, 0x20u8] + without_return(line)),
    decreases content.len() - at,
{
    let more = content + seq![0x0au8] + line;
    let end = line_end(content, at);
    lemma_line_end(content, at);
    lemma_line_end_with_more(content, line, at);
    assert(more.subrange(at, end) =~= content.subrange(at, end));
    if end < content.len() {
        lemma_continued_more(content, line, end + 1, indent, use_crlf);
    } else {
        lemma_last_line_end(content, line, end + 1);
        assert(more.subrange(end + 1, more.len() as int) =~= line);
        assert(continued_lines(more, end + 1, indent, use_crlf) == line_break(use_crlf) + indent
            + seq![0x20u8, 0x20u8] + without_return(line));
    }
    assert(continued_lines(more, at, indent, use_crlf) =~= continued_lines(
        content,
        at,
        indent,
        use_crlf,
    ) + (line_break(use_crlf) + indent + seq![0x20u8, 0x20u8] + without_return(line)));
}

/// Blanks and tabs end where something else comes.
proof fn lemma_indent_end(line: Seq<u8>, at: int, n: int)
    requires
        0 <= at <= n <= line.len(),
        forall|k: int| at <= k < n ==> #[trigger] line[k] == 0x20 || line[k] == 0x09,
        n == line.len() || (line[n] != 0x20 && line[n] != 0x09),
    ensures
        indent_end(line, at) == n,
    decreases n - at,
{
    if at < n {
        assert(line[at] == 0x20 || line[at] == 0x09);
        lemma_indent_end(line, at + 1, n);
    }
}

/// What blanks and tabs end before.
proof fn lemma_indent_is_blank(line: Seq<u8>, at: int)
    requires
        0 <= at <= line.len(),
    ensures
        at <= indent_end(line, at) <= line.len(),
        forall|k: int|
            at <= k < indent_end(line, at) ==> #[trigger] line[k] == 0x20 || line[k] == 0x09,
    decreases line.len() - at,
{
    if at < line.len() && (line[at] == 0x20 || line[at] == 0x09) {
        lemma_indent_is_blank(line, at + 1);
    }
}

/// Nothing before the end of a line is a line feed.
proof fn lemma_line_holds_no_feed(text: Seq<u8>, at: int, k: int)
    requires
        0 <= at <= k < line_end(text, at),
        at <= text.len(),
    ensures
        text[k] != 0x0a,
    decreases text.len() - at,
{
    lemma_line_end(text, at);
    if at < k && at < text.len() && text[at] != 0x0a {
        lemma_line_holds_no_feed(text, at + 1, k);
    }
}

/// A line feed ends the line that comes before it.
proof fn lemma_line_ends_by(text: Seq<u8>, at: int, stop: int)
    requires
        0 <= at <= stop <= text.len(),
        stop == text.len() || text[stop] == 0x0a,
    ensures
        line_end(text, at) <= stop,
    decreases stop - at,
{
    if at < stop && text[at] != 0x0a {
        lemma_line_ends_by(text, at + 1, stop);
    }
}

/// A bullet is found behind exactly its blanks and tabs.
proof fn lemma_bullet_is_found(text: Seq<u8>, n: int)
    requires
        starts_bullet(text, n),
    ensures
        is_bulleted(text),
        indent_end(first_line(text), 0) == n,
        first_line(text).take(n) == text.take(n),
{
    let end = line_end(text, 0);
    let line = first_line(text);
    lemma_line_end(text, 0);
    assert(end > n) by {
        if end <= n {
            assert(text[end] == 0x0a);
            if end < n {
                assert(text[end] == 0x20 || text[end] == 0x09);
            }
        }
    }
    assert(text.take(end).last() == text[end - 1]);
    if n + 1 == text.len() {
    } else if text[n + 1] == 0x0a {
        lemma_line_ends_by(text, 0, n + 1);
    } else if text[n + 1] == 0x0d && n + 2 < text.len() && text[n + 2] == 0x0a {
        lemma_line_ends_by(text, 0, n + 2);
    }
    if end == n + 1 {
    } else {
        lemma_line_holds_no_feed(text, 0, n + 1);
    }
    assert(line.len() > n);
    assert forall|k: int| 0 <= k < line.len() implies #[trigger] line[k] == text[k] by {}
    lemma_indent_end(line, 0, n);
    let rest = line.skip(n);
    assert(rest[0] == 0x2d);
    if rest.len() > 1 {
        assert(rest[1] == text[n + 1]);
    }
    assert(line.take(n) =~= text.take(n));
}

/// A block is replaced exactly where its text starts with a bullet.
pub proof fn law_only_bullets_are_replaced(accepted: Seq<u8>, requested: Seq<u8>, use_crlf: bool)
    ensures
        replacement_text(accepted, requested, use_crlf) is Some <==> exists|n: int| #[trigger]
            starts_bullet(accepted, n),
{
    if exists|n: int| #[trigger] starts_bullet(accepted, n) {
        let n = choose|n: int| #[trigger] starts_bullet(accepted, n);
        lemma_bullet_is_found(accepted, n);
    }
    if is_bulleted(accepted) {
        let end = line_end(accepted, 0);
        let line = first_line(accepted);
        let n = indent_end(line, 0);
        lemma_line_end(accepted, 0);
        lemma_indent_is_blank(line, 0);
        let rest = line.skip(n);
        assert(rest[0] == line[n]);
        if rest.len() > 1 {
            assert(rest[1] == line[n + 1]);
        }
        if end > 0 {
            assert(accepted.take(end).last() == accepted[end - 1]);
        }
        assert forall|k: int| 0 <= k < n implies #[trigger] accepted[k] == 0x20 || accepted[k]
            == 0x09 by {
            assert(line[k] == accepted[k]);
        }
        assert(starts_bullet(accepted, n));
    }
}

/// The text that replaces a block starts with exactly the blanks and tabs that the block started
/// with, then the hyphen and, where the text has a first line, a blank and that line. A carriage
/// return at the end of the line is left off.
pub proof fn law_replacement_keeps_the_bullet(
    accepted: Seq<u8>,
    n: int,
    line: Seq<u8>,
    use_crlf: bool,
)
    requires
        starts_bullet(accepted, n),
        is_one_line(line),
        line.len() > 0 ==> line.last() != 0x0d,
    ensures
        replacement_text(accepted, line, use_crlf) == Some(
            accepted.take(n) + seq![0x2du8] + if line.len() > 0 {
                seq![0x20u8] + line
            } else {
                Seq::empty()
            },
        ),
        replacement_text(accepted, line.push(0x0d), use_crlf) == Some(
            accepted.take(n) + seq![0x2du8, 0x20u8] + line,
        ),
{
    let returned = line.push(0x0d);
    lemma_bullet_is_found(accepted, n);
    lemma_one_line_end(line, 0);
    assert(is_one_line(returned));
    lemma_one_line_end(returned, 0);
    assert(line.take(line.len() as int) =~= line);
    assert(returned.take(returned.len() as int) =~= returned);
    assert(returned.drop_last() =~= line);
    assert(bulleted_text(line, accepted.take(n), use_crlf) =~= accepted.take(n) + seq![0x2du8]
        + if line.len() > 0 {
        seq![0x20u8] + line
    } else {
        Seq::empty()
    });
    assert(bulleted_text(returned, accepted.take(n), use_crlf) =~= accepted.take(n)
        + seq![0x2du8, 0x20u8] + line);
}

/// A text that is one line longer is replaced by one that is one line longer: the line comes behind
/// the file's line end, the blanks and tabs that the block started with and two blanks. A carriage
/// return at the end of the line is left off.
pub proof fn law_replacement_continues_each_line(
    accepted: Seq<u8>,
    n: int,
    content: Seq<u8>,
    line: Seq<u8>,
    use_crlf: bool,
)
    requires
        starts_bullet(accepted, n),
        is_one_line(line),
        line.len() > 0 ==> line.last() != 0x0d,
    ensures
        ({
            let shorter = replacement_text(accepted, content, use_crlf);
            let longer = replacement_text(accepted, content + seq![0x0au8] + line, use_crlf);
            let returned = replacement_text(
                accepted,
                content + seq![0x0au8] + line.push(0x0d),
                use_crlf,
            );
            &&& shorter is Some
            &&& longer == Some(
                shorter->0 + line_break(use_crlf) + accepted.take(n) + seq![0x20u8, 0x20u8] + line,
            )
            &&& returned == longer
        }),
{
    lemma_bullet_is_found(accepted, n);
    let returned = line.push(0x0d);
    assert(is_one_line(returned));
    assert(returned.drop_last() =~= line);
    lemma_one_more_line(content, line, accepted.take(n), use_crlf);
    lemma_one_more_line(content, returned, accepted.take(n), use_crlf);
    let shorter = bulleted_text(content, accepted.take(n), use_crlf);
    assert(shorter + (line_break(use_crlf) + accepted.take(n) + seq![0x20u8, 0x20u8] + line)
        =~= shorter + line_break(use_crlf) + accepted.take(n) + seq![0x20u8, 0x20u8] + line);
}

/// A bulleted text with one line more.
proof fn lemma_one_more_line(content: Seq<u8>, line: Seq<u8>, indent: Seq<u8>, use_crlf: bool)
    requires
        is_one_line(line),
    ensures
        bulleted_text(content + seq![0x0au8] + line, indent, use_crlf) == bulleted_text(
            content,
            indent,
            use_crlf,
        ) + (line_break(use_crlf) + indent + seq![0x20u8, 0x20u8] + without_return(line)),
{
    let more = content + seq![0x0au8] + line;
    let end = line_end(content, 0);
    let added = line_break(use_crlf) + indent + seq![0x20u8, 0x20u8] + without_return(line);
    lemma_line_end(content, 0);
    lemma_line_end_with_more(content, line, 0);
    assert(more.take(end) =~= content.take(end));
    if end < content.len() {
        lemma_continued_more(content, line, end + 1, indent, use_crlf);
    } else {
        lemma_last_line_end(content, line, end + 1);
        assert(more.subrange(end + 1, more.len() as int) =~= line);
        assert(continued_lines(more, end + 1, indent, use_crlf) == added);
    }
    assert(bulleted_text(more, indent, use_crlf) =~= bulleted_text(content, indent, use_crlf)
        + added);
}

/// The block with an identity is the one that has it.
proof fn lemma_block_at(blocks: Seq<MaterializedBlock>, i: int)
    requires
        distinct_blocks(blocks),
        0 <= i < blocks.len(),
    ensures
        block_with(blocks, blocks[i].block_id) == Some(blocks[i]),
{
    let id = blocks[i].block_id;
    assert(exists|j: int| 0 <= j < blocks.len() && (#[trigger] blocks[j]).block_id == id);
    let j = choose|j: int| 0 <= j < blocks.len() && (#[trigger] blocks[j]).block_id == id;
    if j < i {
        assert(blocks[j].block_id != blocks[i].block_id);
    } else if i < j {
        assert(blocks[i].block_id != blocks[j].block_id);
    }
}

/// Only texts are patched. Where a page is patched, it is a Markdown page, the accepted and the
/// requested page agree in everything but their blocks, every accepted block has a requested one of
/// the same identity, document, parent and order, none carries a written identity, every block is
/// annotated, and some text differs.
pub proof fn law_only_texts_are_patched(
    accepted: MaterializedPage,
    requested: MaterializedPage,
    base: Seq<u8>,
    annotations: Seq<AnnotatedIdentity>,
    parses: Seq<BlockParses>,
)
    requires
        incremental_projection(accepted, requested, base, annotations, parses) matches Ok(Some(_)),
    ensures
        page_format(accepted) == Ok::<_, ProjectionError>(ProjectionFormat::Markdown),
        accepted.page_id == requested.page_id,
        accepted.home_document_id == requested.home_document_id,
        accepted.name@ == requested.name@,
        accepted.path.text@ == requested.path.text@,
        accepted.kind == requested.kind,
        optional_text(accepted.preamble) == optional_text(requested.preamble),
        accepted.blocks@.len() == requested.blocks@.len(),
        accepted.blocks@.len() == annotations.len(),
        forall|i: int|
            0 <= i < accepted.blocks@.len() ==> exists|j: int|
                {
                    let (a, r) = (#[trigger] accepted.blocks@[i], #[trigger] requested.blocks@[j]);
                    &&& 0 <= j < requested.blocks@.len()
                    &&& a.block_id == r.block_id
                    &&& a.home_document_id == r.home_document_id
                    &&& a.parent == r.parent
                    &&& a.order@ == r.order@
                    &&& a.logseq_uuid is None && r.logseq_uuid is None
                    &&& a.logseq_identity_origin is None && r.logseq_identity_origin is None
                },
        exists|i: int, j: int|
            {
                let (a, r) = (#[trigger] accepted.blocks@[i], #[trigger] requested.blocks@[j]);
                &&& 0 <= i < accepted.blocks@.len()
                &&& 0 <= j < requested.blocks@.len()
                &&& a.block_id == r.block_id
                &&& a.content@ != r.content@
            },
        forall|i: int, j: int|
            0 <= i < j < accepted.blocks@.len() ==> (#[trigger] accepted.blocks@[i]).block_id != (
            #[trigger] accepted.blocks@[j]).block_id,
{
    let (a, r) = (accepted.blocks@, requested.blocks@);
    assert forall|i: int| 0 <= i < a.len() implies exists|j: int|
        {
            let (a, r) = (#[trigger] a[i], #[trigger] r[j]);
            &&& 0 <= j < requested.blocks@.len()
            &&& a.block_id == r.block_id
            &&& a.home_document_id == r.home_document_id
            &&& a.parent == r.parent
            &&& a.order@ == r.order@
            &&& a.logseq_uuid is None && r.logseq_uuid is None
            &&& a.logseq_identity_origin is None && r.logseq_identity_origin is None
        } by {
        assert(has_counterpart(a[i], r));
    }
    assert(some_changed(a, r));
    let i = choose|i: int|
        0 <= i < a.len() && is_changed(a, r, (#[trigger] a[i]).block_id);
    lemma_block_at(a, i);
    let id = a[i].block_id;
    assert(exists|j: int| 0 <= j < r.len() && (#[trigger] r[j]).block_id == id);
    let j = choose|j: int| 0 <= j < r.len() && (#[trigger] r[j]).block_id == id;
    lemma_block_at(r, j);
    assert(a[i].content@ != r[j].content@);
}

/// Inserting by start keeps what is there, in order.
proof fn lemma_insert_keeps_order(
    annotations: Seq<AnnotatedIdentity>,
    ordered: Seq<int>,
    index: int,
    n: int,
)
    requires
        ordered_ascends(annotations, ordered, n),
        0 <= index == n,
    ensures
        ordered_ascends(annotations, insert_by_start(annotations, ordered, index), n + 1),
        forall|x: int|
            insert_by_start(annotations, ordered, index).contains(x) ==> x == index
                || ordered.contains(x),
    decreases ordered.len(),
{
    let grown = insert_by_start(annotations, ordered, index);
    if ordered.len() > 0 && annotations[index].span.start
        < annotations[ordered.last()].span.start {
        let front = ordered.drop_last();
        assert(ordered_ascends(annotations, front, n)) by {
            assert forall|m: int| 0 <= m < front.len() implies 0 <= #[trigger] front[m] < n by {
                assert(front[m] == ordered[m]);
            }
            assert forall|l: int, m: int| 0 <= l < m < front.len() implies #[trigger] front[l]
                != #[trigger] front[m] && annotations[front[l]].span.start
                <= annotations[front[m]].span.start by {
                assert(front[l] == ordered[l] && front[m] == ordered[m]);
            }
        }
        lemma_insert_keeps_order(annotations, front, index, n);
        let inner = insert_by_start(annotations, front, index);
        let last = ordered.last();
        assert forall|m: int| 0 <= m < inner.len() implies (#[trigger] inner[m]) != last
            && annotations[inner[m]].span.start <= annotations[last].span.start by {
            assert(inner.contains(inner[m]));
            if inner[m] != index {
                assert(front.contains(inner[m]));
                let l = choose|l: int| 0 <= l < front.len() && front[l] == inner[m];
                assert(ordered[l] == inner[m]);
                assert(ordered[ordered.len() - 1] == last);
            } else {
                assert(ordered[ordered.len() - 1] == last);
            }
        }
        assert(ordered[ordered.len() - 1] == last);
        assert(grown =~= inner.push(last));
        assert forall|m: int| 0 <= m < grown.len() implies 0 <= #[trigger] grown[m] < n + 1 by {
            if m < inner.len() {
                assert(grown[m] == inner[m]);
            }
        }
        assert forall|l: int, m: int| 0 <= l < m < grown.len() implies #[trigger] grown[l]
            != #[trigger] grown[m] && annotations[grown[l]].span.start
            <= annotations[grown[m]].span.start by {
            assert(grown[l] == inner[l]);
            if m < inner.len() {
                assert(grown[m] == inner[m]);
            }
        }
        assert forall|x: int| grown.contains(x) implies x == index || ordered.contains(x) by {
            let m = choose|m: int| 0 <= m < grown.len() && grown[m] == x;
            if m < inner.len() {
                assert(inner[m] == x);
                assert(inner.contains(x));
                if x != index {
                    assert(front.contains(x));
                    let l = choose|l: int| 0 <= l < front.len() && front[l] == x;
                    assert(ordered[l] == x);
                }
            }
        }
    } else {
        assert forall|m: int| 0 <= m < ordered.len() implies (#[trigger] ordered[m]) != index
            && annotations[ordered[m]].span.start <= annotations[index].span.start by {
            if m < ordered.len() - 1 {
                assert(annotations[ordered[m]].span.start
                    <= annotations[ordered[ordered.len() - 1]].span.start);
            }
        }
        assert(grown =~= ordered.push(index));
        assert forall|m: int| 0 <= m < grown.len() implies 0 <= #[trigger] grown[m] < n + 1 by {
            if m < ordered.len() {
                assert(grown[m] == ordered[m]);
            }
        }
        assert forall|l: int, m: int| 0 <= l < m < grown.len() implies #[trigger] grown[l]
            != #[trigger] grown[m] && annotations[grown[l]].span.start
            <= annotations[grown[m]].span.start by {
            assert(grown[l] == ordered[l]);
            if m < ordered.len() {
                assert(grown[m] == ordered[m]);
            }
        }
        assert forall|x: int| grown.contains(x) implies x == index || ordered.contains(x) by {
            let m = choose|m: int| 0 <= m < grown.len() && grown[m] == x;
            if m < ordered.len() {
                assert(ordered[m] == x);
            }
        }
    }
}

/// Whether annotation indexes below `n` stand in the order of their starts, each once.
spec fn ordered_ascends(annotations: Seq<AnnotatedIdentity>, ordered: Seq<int>, n: int) -> bool {
    &&& forall|m: int| 0 <= m < ordered.len() ==> 0 <= #[trigger] ordered[m] < n
    &&& forall|l: int, m: int|
        0 <= l < m < ordered.len() ==> #[trigger] ordered[l] != #[trigger] ordered[m]
            && annotations[ordered[l]].span.start <= annotations[ordered[m]].span.start
}

/// Ordered annotations stand in the order of their starts.
proof fn lemma_ordered_ascends(annotations: Seq<AnnotatedIdentity>, n: nat)
    ensures
        ordered_ascends(annotations, ordered_by_start(annotations, n), n as int),
    decreases n,
{
    if n > 0 {
        let before = ordered_by_start(annotations, (n - 1) as nat);
        lemma_ordered_ascends(annotations, (n - 1) as nat);
        lemma_insert_keeps_order(annotations, before, n - 1, n - 1);
    }
}

/// The state of patching behind the first `n` annotations.
spec fn patched_to(
    accepted: MaterializedPage,
    requested: MaterializedPage,
    base: Seq<u8>,
    annotations: Seq<AnnotatedIdentity>,
    parses: Seq<BlockParses>,
    n: nat,
) -> Patched {
    patch_annotations(
        accepted.blocks@,
        requested.blocks@,
        base,
        annotations,
        parses,
        ordered_by_start(annotations, annotations.len()),
        n,
    )
}

/// What comes of a page was going at each annotation, and what was there stays.
proof fn lemma_going_before(
    accepted: MaterializedPage,
    requested: MaterializedPage,
    base: Seq<u8>,
    annotations: Seq<AnnotatedIdentity>,
    parses: Seq<BlockParses>,
    m: nat,
    n: nat,
)
    requires
        m <= n <= annotations.len(),
        patched_to(accepted, requested, base, annotations, parses, n) is Going,
    ensures
        ({
            let before = patched_to(accepted, requested, base, annotations, parses, m);
            let after = patched_to(accepted, requested, base, annotations, parses, n);
            let ordered = ordered_by_start(annotations, annotations.len());
            &&& before is Going
            &&& before->Going_0.target.is_prefix_of(after->Going_0.target)
            &&& forall|l: int|
                0 <= l < m ==> after->Going_0.spans[#[trigger] ordered[l]]
                    == before->Going_0.spans[ordered[l]]
        }),
    decreases n,
{
    let ordered = ordered_by_start(annotations, annotations.len());
    if m < n {
        let less = (n - 1) as nat;
        let middle = patched_to(accepted, requested, base, annotations, parses, less);
        let after = patched_to(accepted, requested, base, annotations, parses, n);
        assert(middle is Going);
        assert(after == patch_annotation(
            accepted.blocks@,
            requested.blocks@,
            base,
            annotations,
            parses,
            middle->Going_0,
            ordered[n - 1],
        ));
        lemma_going_before(accepted, requested, base, annotations, parses, m, less);
        lemma_ordered_ascends(annotations, annotations.len());
        lemma_ordered_members(annotations, annotations.len());
        let before = patched_to(accepted, requested, base, annotations, parses, m);
        let (b, c, d) = (
            before->Going_0.target,
            middle->Going_0.target,
            after->Going_0.target,
        );
        assert(c =~= d.take(c.len() as int));
        assert(b =~= d.take(b.len() as int)) by {
            assert(b == c.take(b.len() as int));
        }
        assert forall|l: int| 0 <= l < m implies after->Going_0.spans[#[trigger] ordered[l]]
            == before->Going_0.spans[ordered[l]] by {
            assert(ordered[l] != ordered[n - 1]);
        }
    } else {
        let b = patched_to(accepted, requested, base, annotations, parses, m)->Going_0.target;
        assert(b.take(b.len() as int) =~= b);
    }
}

/// Whether nothing that is annotated starts from one annotation to another that starts behind it.
pub open spec fn follows_directly(annotations: Seq<AnnotatedIdentity>, k: int, l: int) -> bool {
    &&& annotations[k].span.start < annotations[l].span.start
    &&& forall|x: int|
        0 <= x < annotations.len() && x != k && x != l ==> (#[trigger] annotations[x]).span.start
            < annotations[k].span.start || annotations[l].span.start < annotations[x].span.start
}

/// What the annotation at a place of the order comes to.
proof fn lemma_patched_at(
    accepted: MaterializedPage,
    requested: MaterializedPage,
    base: Seq<u8>,
    annotations: Seq<AnnotatedIdentity>,
    parses: Seq<BlockParses>,
    m: int,
)
    requires
        incremental_projection(accepted, requested, base, annotations, parses) matches Ok(Some(_)),
        incremental_projection(
            accepted,
            requested,
            base,
            annotations,
            parses,
        )->Ok_0->0.target.len() <= u64::MAX,
        0 <= m < annotations.len(),
    ensures
        ({
            let view = incremental_projection(
                accepted,
                requested,
                base,
                annotations,
                parses,
            )->Ok_0->0;
            let ordered = ordered_by_start(annotations, annotations.len());
            let before = patched_to(accepted, requested, base, annotations, parses, m as nat);
            let after = patched_to(accepted, requested, base, annotations, parses, (m + 1) as nat);
            let k = ordered[m];
            let old = annotations[k].span;
            let new = view.annotations[k].span;
            &&& ordered.len() == annotations.len()
            &&& 0 <= k < annotations.len()
            &&& before is Going && after is Going
            &&& 0 <= before->Going_0.cursor <= old.start <= old.end <= base.len()
            &&& after->Going_0.cursor == old.end
            &&& new.start == before->Going_0.target.len() + (old.start - before->Going_0.cursor)
            &&& new.end == after->Going_0.target.len()
            &&& after->Going_0.target.len() <= view.target.len()
            &&& new.start <= new.end
            &&& view.target.subrange(before->Going_0.target.len() as int, new.start as int)
                == base.subrange(before->Going_0.cursor, old.start as int)
        }),
    decreases m,
{
    let view = incremental_projection(accepted, requested, base, annotations, parses)->Ok_0->0;
    let ordered = ordered_by_start(annotations, annotations.len());
    let all = annotations.len();
    lemma_ordered_members(annotations, all);
    lemma_ordered_ascends(annotations, all);
    lemma_going_before(accepted, requested, base, annotations, parses, m as nat, all);
    lemma_going_before(accepted, requested, base, annotations, parses, (m + 1) as nat, all);
    let before = patched_to(accepted, requested, base, annotations, parses, m as nat)->Going_0;
    let after = patched_to(accepted, requested, base, annotations, parses, (m + 1) as nat)->Going_0;
    let end = patched_to(accepted, requested, base, annotations, parses, all)->Going_0;
    let k = ordered[m];
    if m > 0 {
        lemma_patched_at(accepted, requested, base, annotations, parses, m - 1);
    }
    assert(end.spans[k] == after.spans[k]);
    assert(view.annotations[k].span == end.spans[k]);
    let head = before.target + base.subrange(before.cursor, annotations[k].span.start as int);
    assert(head =~= after.target.take(head.len() as int));
    assert(after.target.len() <= end.target.len() <= view.target.len());
    assert(after.target == end.target.take(after.target.len() as int));
    assert(view.target.subrange(before.target.len() as int, head.len() as int) =~= base.subrange(
        before.cursor,
        annotations[k].span.start as int,
    )) by {
        assert forall|x: int| before.target.len() <= x < head.len() implies #[trigger] view.target[x]
            == head[x] by {
            assert(after.target[x] == head[x]);
            assert(end.target[x] == after.target[x]);
        }
    }
}

/// Patching leaves every byte between the blocks where it was: what stands before the first
/// annotated block, between one and the next, and behind the last, is what stood there.
pub proof fn law_patching_keeps_what_is_between(
    accepted: MaterializedPage,
    requested: MaterializedPage,
    base: Seq<u8>,
    annotations: Seq<AnnotatedIdentity>,
    parses: Seq<BlockParses>,
    k: int,
    l: int,
)
    requires
        incremental_projection(accepted, requested, base, annotations, parses) matches Ok(Some(_)),
        incremental_projection(
            accepted,
            requested,
            base,
            annotations,
            parses,
        )->Ok_0->0.target.len() <= u64::MAX,
        0 <= k < annotations.len(),
        0 <= l < annotations.len(),
    ensures
        ({
            let view = incremental_projection(
                accepted,
                requested,
                base,
                annotations,
                parses,
            )->Ok_0->0;
            let (old, new) = (annotations[k].span, view.annotations[k].span);
            let (old_next, new_next) = (annotations[l].span, view.annotations[l].span);
            &&& old.end <= base.len() && new.end <= view.target.len()
            &&& follows_directly(annotations, k, l) ==> {
                &&& old.end <= old_next.start && new.end <= new_next.start
                &&& view.target.subrange(new.end as int, new_next.start as int) == base.subrange(
                    old.end as int,
                    old_next.start as int,
                )
            }
            &&& starts_first(annotations, k) ==> view.target.take(new.start as int) == base.take(
                old.start as int,
            )
            &&& starts_last(annotations, k) ==> view.target.skip(new.end as int) == base.skip(
                old.end as int,
            )
        }),
{
    let view = incremental_projection(accepted, requested, base, annotations, parses)->Ok_0->0;
    let ordered = ordered_by_start(annotations, annotations.len());
    lemma_ordered_members(annotations, annotations.len());
    lemma_ordered_ascends(annotations, annotations.len());
    assert(ordered.contains(k) && ordered.contains(l));
    let m = choose|m: int| 0 <= m < ordered.len() && ordered[m] == k;
    let next = choose|m: int| 0 <= m < ordered.len() && ordered[m] == l;
    lemma_patched_at(accepted, requested, base, annotations, parses, m);
    if follows_directly(annotations, k, l) {
        assert(m < next) by {
            if next < m {
                assert(annotations[ordered[next]].span.start <= annotations[ordered[m]].span.start);
            }
        }
        assert(next == m + 1) by {
            if m + 1 < next {
                let x = ordered[m + 1];
                assert(x != k && x != l);
                assert(annotations[k].span.start <= annotations[x].span.start);
                assert(annotations[x].span.start <= annotations[l].span.start);
            }
        }
        lemma_patched_at(accepted, requested, base, annotations, parses, next);
    }
    if starts_first(annotations, k) {
        assert(m == 0) by {
            if m > 0 {
                assert(annotations[ordered[0]].span.start <= annotations[ordered[m]].span.start);
                assert(ordered[0] != k);
            }
        }
        let new = view.annotations[k].span;
        assert(view.target.take(new.start as int) =~= view.target.subrange(0, new.start as int));
        assert(base.take(annotations[k].span.start as int) =~= base.subrange(
            0,
            annotations[k].span.start as int,
        ));
    }
    if starts_last(annotations, k) {
        assert(m == ordered.len() - 1) by {
            if m < ordered.len() - 1 {
                let x = ordered[ordered.len() - 1];
                assert(annotations[ordered[m]].span.start <= annotations[x].span.start);
                assert(x != k);
            }
        }
        let end = patched_to(
            accepted,
            requested,
            base,
            annotations,
            parses,
            annotations.len(),
        )->Going_0;
        assert(view.target == end.target + base.skip(end.cursor));
        assert(view.target.skip(end.target.len() as int) =~= base.skip(end.cursor));
    }
}

/// Whether an annotation starts before every other.
pub open spec fn starts_first(annotations: Seq<AnnotatedIdentity>, k: int) -> bool {
    forall|x: int|
        0 <= x < annotations.len() && x != k ==> annotations[k].span.start < (
        #[trigger] annotations[x]).span.start
}

/// Whether an annotation starts behind every other.
pub open spec fn starts_last(annotations: Seq<AnnotatedIdentity>, k: int) -> bool {
    forall|x: int|
        0 <= x < annotations.len() && x != k ==> (#[trigger] annotations[x]).span.start
            < annotations[k].span.start
}

/// Each block of a patched page lies where its annotation says, at the depth that it had: a block
/// whose text stayed has the bytes that it had; one whose text changed has a bullet behind exactly
/// the blanks and tabs that it had, and is what its requested text is under that bullet, with the
/// line ends of the file.
pub proof fn law_patched_blocks_keep_their_depth(
    accepted: MaterializedPage,
    requested: MaterializedPage,
    base: Seq<u8>,
    annotations: Seq<AnnotatedIdentity>,
    parses: Seq<BlockParses>,
    k: int,
    i: int,
    j: int,
)
    requires
        incremental_projection(accepted, requested, base, annotations, parses) matches Ok(Some(_)),
        incremental_projection(
            accepted,
            requested,
            base,
            annotations,
            parses,
        )->Ok_0->0.target.len() <= u64::MAX,
        0 <= k < annotations.len(),
        0 <= i < accepted.blocks@.len(),
        0 <= j < requested.blocks@.len(),
        accepted.blocks@[i].block_id == annotations[k].block_id,
        requested.blocks@[j].block_id == annotations[k].block_id,
    ensures
        ({
            let view = incremental_projection(
                accepted,
                requested,
                base,
                annotations,
                parses,
            )->Ok_0->0;
            let (old, new) = (annotations[k].span, view.annotations[k].span);
            let source = base.subrange(old.start as int, old.end as int);
            let bytes = view.target.subrange(new.start as int, new.end as int);
            let text = requested.blocks@[j].content@;
            let crlf = exists|x: int|
                0 <= x < base.len() - 1 && #[trigger] base[x] == 0x0d && base[x + 1] == 0x0a;
            &&& view.annotations.len() == annotations.len()
            &&& view.annotations[k].locator == annotations[k].locator.components@
            &&& view.annotations[k].block_id == annotations[k].block_id
            &&& view.annotations[k].logseq_uuid == annotations[k].logseq_uuid
            &&& accepted.blocks@[i].content@ == text ==> bytes == source
            &&& accepted.blocks@[i].content@ != text ==> {
                &&& replacement_text(source, text, crlf) == Some(bytes)
                &&& exists|n: int|
                    #![trigger starts_bullet(source, n)]
                    starts_bullet(source, n) && n < bytes.len() && bytes.take(n) == source.take(n)
                        && bytes[n] == 0x2d
            }
        }),
{
    let view = incremental_projection(accepted, requested, base, annotations, parses)->Ok_0->0;
    let (a, r) = (accepted.blocks@, requested.blocks@);
    lemma_block_at(a, i);
    lemma_block_at(r, j);
    law_patching_keeps_the_other_blocks(accepted, requested, base, annotations, parses, k);
    let (old, new) = (annotations[k].span, view.annotations[k].span);
    let source = base.subrange(old.start as int, old.end as int);
    let text = r[j].content@;
    if a[i].content@ != text {
        law_only_bullets_are_replaced(source, text, has_crlf(base));
        let n = choose|n: int| #[trigger] starts_bullet(source, n);
        lemma_bullet_is_found(source, n);
        let bytes = view.target.subrange(new.start as int, new.end as int);
        assert(bytes == bulleted_text(text, source.take(n), has_crlf(base)));
        assert(bytes.take(n) =~= source.take(n));
        assert(bytes[n] == 0x2d);
    }
}

/// A block's text is replaced only where its old bytes are text and were read back as exactly one
/// block with the accepted text, and what replaces them as exactly one block with the requested
/// text.
pub proof fn law_replaced_blocks_were_read_back(
    accepted: MaterializedPage,
    requested: MaterializedPage,
    base: Seq<u8>,
    annotations: Seq<AnnotatedIdentity>,
    parses: Seq<BlockParses>,
    k: int,
    i: int,
    j: int,
)
    requires
        incremental_projection(accepted, requested, base, annotations, parses) matches Ok(Some(_)),
        incremental_projection(
            accepted,
            requested,
            base,
            annotations,
            parses,
        )->Ok_0->0.target.len() <= u64::MAX,
        0 <= k < annotations.len(),
        0 <= i < accepted.blocks@.len(),
        0 <= j < requested.blocks@.len(),
        accepted.blocks@[i].block_id == annotations[k].block_id,
        requested.blocks@[j].block_id == annotations[k].block_id,
        accepted.blocks@[i].content@ != requested.blocks@[j].content@,
    ensures
        k < parses.len(),
        vstd::utf8::valid_utf8(
            base.subrange(annotations[k].span.start as int, annotations[k].span.end as int),
        ),
        parses[k].accepted is Some,
        parses[k].accepted->0.pre_block is None,
        parses[k].accepted->0.blocks@.len() == 1,
        parses[k].accepted->0.blocks@[0].raw@ == accepted.blocks@[i].content@,
        parses[k].replaced is Some,
        parses[k].replaced->0.pre_block is None,
        parses[k].replaced->0.blocks@.len() == 1,
        parses[k].replaced->0.blocks@[0].raw@ == requested.blocks@[j].content@,
{
    let ordered = ordered_by_start(annotations, annotations.len());
    lemma_block_at(accepted.blocks@, i);
    lemma_block_at(requested.blocks@, j);
    lemma_ordered_members(annotations, annotations.len());
    assert(ordered.contains(k));
    let m = ordered.index_of(k);
    lemma_patched_at(accepted, requested, base, annotations, parses, m);
}

/// A patched page keeps the layout that it had, block for block, and puts no identity into its text.
pub proof fn law_patched_page_keeps_its_layout(
    accepted: MaterializedPage,
    requested: MaterializedPage,
    base: Seq<u8>,
    annotations: Seq<AnnotatedIdentity>,
    parses: Seq<BlockParses>,
    k: int,
)
    requires
        incremental_projection(accepted, requested, base, annotations, parses) matches Ok(Some(_)),
        0 <= k < annotations.len(),
    ensures
        ({
            let view = incremental_projection(
                accepted,
                requested,
                base,
                annotations,
                parses,
            )->Ok_0->0;
            &&& view.generated_anchors.len() == 0
            &&& view.base_layout_identities.len() == annotations.len()
            &&& view.base_layout_identities[k].locator == annotations[k].locator.components@
            &&& view.base_layout_identities[k].block_identity == hyphenated_text(
                annotations[k].block_id.uuid.value,
            )
        }),
{
}

/// Whether annotations lie apart in a file: none is empty, each ends within it, no two overlap, and
/// no two are of one block.
pub open spec fn lie_apart(annotations: Seq<AnnotatedIdentity>, length: nat) -> bool {
    &&& forall|k: int|
        0 <= k < annotations.len() ==> (#[trigger] annotations[k]).span.start
            < annotations[k].span.end <= length
    &&& forall|k: int, l: int|
        0 <= k < l < annotations.len() ==> {
            &&& (#[trigger] annotations[k]).span.end <= (#[trigger] annotations[l]).span.start
                || annotations[l].span.end <= annotations[k].span.start
            &&& annotations[k].block_id != annotations[l].block_id
        }
}

/// Whether the block of an annotation can be replaced: its bytes are text, start with a bullet, and
/// were read back as the accepted text, as what replaces them was as the requested text.
pub open spec fn can_be_replaced(
    base: Seq<u8>,
    annotations: Seq<AnnotatedIdentity>,
    parses: Seq<BlockParses>,
    k: int,
    accepted: Seq<u8>,
    requested: Seq<u8>,
) -> bool {
    let source = base.subrange(
        annotations[k].span.start as int,
        annotations[k].span.end as int,
    );
    &&& vstd::utf8::valid_utf8(source)
    &&& exists|n: int| starts_bullet(source, n)
    &&& 0 <= k < parses.len()
    &&& parses[k].accepted is Some
    &&& parses[k].accepted->0.pre_block is None
    &&& parses[k].accepted->0.blocks@.len() == 1
    &&& parses[k].accepted->0.blocks@[0].raw@ == accepted
    &&& parses[k].replaced is Some
    &&& parses[k].replaced->0.pre_block is None
    &&& parses[k].replaced->0.blocks@.len() == 1
    &&& parses[k].replaced->0.blocks@[0].raw@ == requested
}

/// Whether every block whose text changed can be replaced.
pub open spec fn changes_can_be_replaced(
    accepted: Seq<MaterializedBlock>,
    requested: Seq<MaterializedBlock>,
    base: Seq<u8>,
    annotations: Seq<AnnotatedIdentity>,
    parses: Seq<BlockParses>,
) -> bool {
    forall|k: int, i: int, j: int|
        #![trigger annotations[k], accepted[i], requested[j]]
        0 <= k < annotations.len() && 0 <= i < accepted.len() && 0 <= j < requested.len()
            && accepted[i].block_id == annotations[k].block_id && requested[j].block_id
            == annotations[k].block_id && accepted[i].content@ != requested[j].content@
            ==> can_be_replaced(
            base,
            annotations,
            parses,
            k,
            accepted[i].content@,
            requested[j].content@,
        )
}

/// Patching goes on as far as the annotations lie apart and the changes can be made.
proof fn lemma_going_on(
    accepted: MaterializedPage,
    requested: MaterializedPage,
    base: Seq<u8>,
    annotations: Seq<AnnotatedIdentity>,
    parses: Seq<BlockParses>,
    n: nat,
)
    requires
        n <= annotations.len(),
        base.len() <= usize::MAX,
        distinct_blocks(accepted.blocks@),
        distinct_blocks(requested.blocks@),
        lie_apart(annotations, base.len()),
        changes_can_be_replaced(
            accepted.blocks@,
            requested.blocks@,
            base,
            annotations,
            parses,
        ),
    ensures
        ({
            let ordered = ordered_by_start(annotations, annotations.len());
            let patched = patched_to(accepted, requested, base, annotations, parses, n);
            &&& patched is Going
            &&& n == 0 ==> patched->Going_0.cursor == 0
            &&& n > 0 ==> patched->Going_0.cursor == annotations[ordered[n - 1]].span.end
            &&& forall|x: int| #[trigger]
                patched->Going_0.spans.dom().contains(x) ==> exists|m: int|
                    0 <= m < n && #[trigger] ordered[m] == x
        }),
    decreases n,
{
    let (a, r) = (accepted.blocks@, requested.blocks@);
    let ordered = ordered_by_start(annotations, annotations.len());
    lemma_ordered_ascends(annotations, annotations.len());
    lemma_ordered_members(annotations, annotations.len());
    if n > 0 {
        lemma_going_on(accepted, requested, base, annotations, parses, (n - 1) as nat);
        let before = patched_to(
            accepted,
            requested,
            base,
            annotations,
            parses,
            (n - 1) as nat,
        )->Going_0;
        let k = ordered[n - 1];
        let id = annotations[k].block_id;
        let source = base.subrange(
            annotations[k].span.start as int,
            annotations[k].span.end as int,
        );
        assert(annotations[k].span.start < annotations[k].span.end <= base.len());
        if n > 1 {
            let l = ordered[n - 2];
            assert(l != k && annotations[l].span.start <= annotations[k].span.start);
            assert(annotations[l].span.start < annotations[l].span.end);
            if l < k {
                assert(annotations[l].span.end <= annotations[k].span.start
                    || annotations[k].span.end <= annotations[l].span.start);
            } else {
                assert(annotations[k].span.end <= annotations[l].span.start
                    || annotations[l].span.end <= annotations[k].span.start);
            }
        }
        if is_changed(a, r, id) {
            let i = choose|i: int| 0 <= i < a.len() && (#[trigger] a[i]).block_id == id;
            let j = choose|j: int| 0 <= j < r.len() && (#[trigger] r[j]).block_id == id;
            lemma_block_at(a, i);
            lemma_block_at(r, j);
            assert(can_be_replaced(base, annotations, parses, k, a[i].content@, r[j].content@));
            let at = choose|at: int| starts_bullet(source, at);
            lemma_bullet_is_found(source, at);
        }
        assert(!names_passed_block(annotations, before.spans, k)) by {
            if names_passed_block(annotations, before.spans, k) {
                let x = choose|x: int| #[trigger]
                    before.spans.dom().contains(x) && annotations[x].block_id
                        == annotations[k].block_id;
                let m = choose|m: int| 0 <= m < n - 1 && #[trigger] ordered[m] == x;
                assert(ordered[m] != ordered[n - 1]);
                if x < k {
                    assert(annotations[x].block_id != annotations[k].block_id);
                } else {
                    assert(annotations[k].block_id != annotations[x].block_id);
                }
            }
        }
        let after = patched_to(accepted, requested, base, annotations, parses, n);
        assert(after is Going);
        assert forall|x: int| #[trigger] after->Going_0.spans.dom().contains(x) implies exists|
            m: int,
        | 0 <= m < n && #[trigger] ordered[m] == x by {
            if x == k {
                assert(ordered[n - 1] == x);
            } else {
                assert(before.spans.dom().contains(x));
            }
        }
    }
}

/// Every page in which only texts changed is patched: where the accepted and the requested page
/// agree in everything else, the annotations name each block once and lie apart in the file, and
/// each block whose text changed can be replaced.
pub proof fn law_every_changed_text_is_patched(
    accepted: MaterializedPage,
    requested: MaterializedPage,
    base: Seq<u8>,
    annotations: Seq<AnnotatedIdentity>,
    parses: Seq<BlockParses>,
)
    requires
        base.len() <= usize::MAX,
        page_format(accepted) == Ok::<_, ProjectionError>(ProjectionFormat::Markdown),
        accepted.page_id == requested.page_id,
        accepted.home_document_id == requested.home_document_id,
        accepted.name@ == requested.name@,
        accepted.path.text@ == requested.path.text@,
        accepted.kind == requested.kind,
        optional_text(accepted.preamble) == optional_text(requested.preamble),
        accepted.blocks@.len() == requested.blocks@.len(),
        accepted.blocks@.len() == annotations.len(),
        forall|i: int, j: int|
            0 <= i < j < accepted.blocks@.len() ==> (#[trigger] accepted.blocks@[i]).block_id != (
            #[trigger] accepted.blocks@[j]).block_id,
        forall|i: int, j: int|
            0 <= i < j < requested.blocks@.len() ==> (#[trigger] requested.blocks@[i]).block_id
                != (#[trigger] requested.blocks@[j]).block_id,
        forall|i: int|
            0 <= i < accepted.blocks@.len() ==> exists|j: int|
                {
                    let (a, r) = (#[trigger] accepted.blocks@[i], #[trigger] requested.blocks@[j]);
                    &&& 0 <= j < requested.blocks@.len()
                    &&& a.block_id == r.block_id
                    &&& a.home_document_id == r.home_document_id
                    &&& a.parent == r.parent
                    &&& a.order@ == r.order@
                    &&& a.logseq_uuid is None && r.logseq_uuid is None
                    &&& a.logseq_identity_origin is None && r.logseq_identity_origin is None
                },
        exists|i: int, j: int|
            {
                let (a, r) = (#[trigger] accepted.blocks@[i], #[trigger] requested.blocks@[j]);
                &&& 0 <= i < accepted.blocks@.len()
                &&& 0 <= j < requested.blocks@.len()
                &&& a.block_id == r.block_id
                &&& a.content@ != r.content@
            },
        forall|i: int|
            0 <= i < accepted.blocks@.len() ==> exists|k: int|
                0 <= k < annotations.len() && (#[trigger] annotations[k]).block_id == (
                #[trigger] accepted.blocks@[i]).block_id,
        lie_apart(annotations, base.len()),
        changes_can_be_replaced(
            accepted.blocks@,
            requested.blocks@,
            base,
            annotations,
            parses,
        ),
    ensures
        incremental_projection(accepted, requested, base, annotations, parses) is Ok,
        incremental_projection(accepted, requested, base, annotations, parses)->Ok_0 is Some,
{
    let (a, r) = (accepted.blocks@, requested.blocks@);
    lemma_going_on(accepted, requested, base, annotations, parses, annotations.len());
    lemma_ordered_members(annotations, annotations.len());
    assert forall|i: int| 0 <= i < a.len() implies has_counterpart(#[trigger] a[i], r) by {
        let j = choose|j: int|
            {
                let (x, y) = (#[trigger] accepted.blocks@[i], #[trigger] requested.blocks@[j]);
                &&& 0 <= j < requested.blocks@.len()
                &&& x.block_id == y.block_id
                &&& x.home_document_id == y.home_document_id
                &&& x.parent == y.parent
                &&& x.order@ == y.order@
                &&& x.logseq_uuid is None && y.logseq_uuid is None
                &&& x.logseq_identity_origin is None && y.logseq_identity_origin is None
            };
        assert(0 <= j < r.len() && r[j].block_id == a[i].block_id);
    }
    let (i, j) = choose|i: int, j: int|
        {
            let (x, y) = (#[trigger] accepted.blocks@[i], #[trigger] requested.blocks@[j]);
            &&& 0 <= i < accepted.blocks@.len()
            &&& 0 <= j < requested.blocks@.len()
            &&& x.block_id == y.block_id
            &&& x.content@ != y.content@
        };
    lemma_block_at(a, i);
    lemma_block_at(r, j);
    assert(is_changed(a, r, a[i].block_id));
    assert(some_changed(a, r));
}

} // verus!
