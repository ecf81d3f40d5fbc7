//! What holds of writing an identity into the text of a block.

use vstd::prelude::*;

use crate::error::ProjectionError;
use crate::ids::LogseqUuid;
use crate::inject::{
    close_offset, content_offset, header_end, holds_at, injected, is_boundary, is_end_line,
    is_org_planning_line, lemma_line_end, lemma_white_end, line_end, org_injected, utf8,
    uuid_bytes, white_end, white_width, ProjectionFormat,
};

verus! {

/// Whether a code point is white space.
pub open spec fn is_white_point(point: int) -> bool {
    ||| 0x09 <= point <= 0x0d
    ||| point == 0x20
    ||| point == 0x85
    ||| point == 0xa0
    ||| point == 0x1680
    ||| 0x2000 <= point <= 0x200a
    ||| point == 0x2028
    ||| point == 0x2029
    ||| point == 0x202f
    ||| point == 0x205f
    ||| point == 0x3000
}

/// White space is that of the code points: a character counts as white space exactly where its code
/// point does, whether it takes one byte, two or three; nothing else does.
pub proof fn law_white_space_is_by_code_point(bytes: Seq<u8>, at: int)
    requires
        0 <= at < bytes.len(),
    ensures
        bytes[at] < 0x80 ==> white_width(bytes, at) == if is_white_point(bytes[at] as int) {
            1int
        } else {
            0
        },
        at + 1 < bytes.len() && 0xc2 <= bytes[at] <= 0xdf && 0x80 <= bytes[at + 1] <= 0xbf
            ==> white_width(bytes, at) == if is_white_point(
            (bytes[at] - 0xc0) * 0x40 + (bytes[at + 1] - 0x80),
        ) {
            2int
        } else {
            0
        },
        at + 2 < bytes.len() && 0xe0 <= bytes[at] <= 0xef && 0x80 <= bytes[at + 1] <= 0xbf && 0x80
            <= bytes[at + 2] <= 0xbf && (bytes[at] == 0xe0 ==> 0xa0 <= bytes[at + 1])
            ==> white_width(bytes, at) == if is_white_point(
            (bytes[at] - 0xe0) * 0x1000 + (bytes[at + 1] - 0x80) * 0x40 + (bytes[at + 2] - 0x80),
        ) {
            3int
        } else {
            0
        },
        bytes[at] >= 0xf0 || 0x80 <= bytes[at] < 0xc2 ==> white_width(bytes, at) == 0,
{
}

/// White space ends where no character of white space follows, and everything before that is made
/// of such characters.
pub proof fn law_white_space_is_skipped_whole(bytes: Seq<u8>, at: int)
    requires
        0 <= at <= bytes.len(),
    ensures
        ({
            let end = white_end(bytes, at);
            &&& at <= end <= bytes.len()
            &&& white_width(bytes, end) == 0
            &&& end == at || white_width(bytes, at) > 0 && white_end(
                bytes,
                at + white_width(bytes, at),
            ) == end
        }),
    decreases bytes.len() - at,
{
    lemma_white_end(bytes, at);
    if white_width(bytes, at) != 0 {
        law_white_space_is_skipped_whole(bytes, at + white_width(bytes, at));
    }
}

/// Whether a text has a line from `start` to `end`: no line feed is in it, and one is before it and
/// behind it, where the text does not start or end.
pub open spec fn is_line(text: Seq<u8>, start: int, end: int) -> bool {
    &&& 0 <= start <= end <= text.len()
    &&& start == 0 || text[start - 1] == 0x0a
    &&& end == text.len() || text[end] == 0x0a
    &&& forall|k: int| start <= k < end ==> #[trigger] text[k] != 0x0a
}

/// Whether a line starts with a word behind its white space.
pub open spec fn starts_with_word(line: Seq<u8>, word: Seq<u8>) -> bool {
    let at = white_end(line, 0);
    &&& at + word.len() <= line.len()
    &&& forall|k: int| 0 <= k < word.len() ==> line[at + k] == #[trigger] word[k]
}

/// Whether a line of an Org block names a time that the block is scheduled for, due at or was
/// closed at.
pub open spec fn names_a_time(line: Seq<u8>) -> bool {
    ||| starts_with_word(line, utf8("SCHEDULED:"@))
    ||| starts_with_word(line, utf8("DEADLINE:"@))
    ||| starts_with_word(line, utf8("CLOSED:"@))
}

/// Whether a line says `:END:` in any case, with nothing but white space around it.
pub open spec fn closes_drawer(line: Seq<u8>) -> bool {
    let at = white_end(line, 0);
    &&& at + 5 <= line.len()
    &&& line[at] == 0x3a
    &&& line[at + 1] == 0x45 || line[at + 1] == 0x65
    &&& line[at + 2] == 0x4e || line[at + 2] == 0x6e
    &&& line[at + 3] == 0x44 || line[at + 3] == 0x64
    &&& line[at + 4] == 0x3a
    &&& white_end(line, at + 5) == line.len()
}

/// A line ends at its next line feed.
proof fn lemma_line_ends(text: Seq<u8>, start: int, end: int)
    requires
        0 <= start <= end <= text.len(),
        end == text.len() || text[end] == 0x0a,
        forall|k: int| start <= k < end ==> #[trigger] text[k] != 0x0a,
    ensures
        line_end(text, start) == end,
    decreases end - start,
{
    if start < end {
        assert(text[start] != 0x0a);
        lemma_line_ends(text, start + 1, end);
    }
}

/// No line feed comes before the end of a line.
proof fn lemma_no_feed_before(text: Seq<u8>, start: int, k: int)
    requires
        0 <= start <= k < line_end(text, start),
        start <= text.len(),
    ensures
        text[k] != 0x0a,
    decreases text.len() - start,
{
    lemma_line_end(text, start);
    if start < text.len() && text[start] != 0x0a && start < k {
        lemma_no_feed_before(text, start + 1, k);
    }
}

/// A line that starts with a word holds it there.
proof fn lemma_word_held(line: Seq<u8>, word: Seq<u8>)
    ensures
        holds_at(line, word, white_end(line, 0)) == starts_with_word(line, word),
{
    let at = white_end(line, 0);
    lemma_white_end(line, 0);
    if holds_at(line, word, at) {
        assert forall|k: int| 0 <= k < word.len() implies line[at + k] == #[trigger] word[k] by {
            assert(line.subrange(at, at + word.len())[k] == line[at + k]);
        }
    }
    if starts_with_word(line, word) {
        assert(line.subrange(at, at + word.len()) =~= word);
    }
}

/// A planning line names a time.
proof fn lemma_planning_names_a_time(line: Seq<u8>)
    ensures
        is_org_planning_line(line) == names_a_time(line),
{
    lemma_word_held(line, utf8("SCHEDULED:"@));
    lemma_word_held(line, utf8("DEADLINE:"@));
    lemma_word_held(line, utf8("CLOSED:"@));
}

/// The header ends where the lines that name a time do.
proof fn lemma_header_end(content: Seq<u8>, at: int)
    requires
        0 <= at <= content.len(),
        at == content.len() || content[at] == 0x0a,
    ensures
        ({
            let stop = header_end(content, at);
            &&& at <= stop <= content.len()
            &&& stop == content.len() || content[stop] == 0x0a
            &&& forall|start: int, end: int|
                at < start <= stop && #[trigger] is_line(content, start, end) ==> end <= stop
                    && names_a_time(content.subrange(start, end))
            &&& forall|end: int|
                stop < content.len() && #[trigger] is_line(content, stop + 1, end)
                    ==> !names_a_time(content.subrange(stop + 1, end))
        }),
    decreases content.len() - at,
{
    if at < content.len() {
        let next = line_end(content, at + 1);
        lemma_line_end(content, at + 1);
        lemma_planning_names_a_time(content.subrange(at + 1, next));
        let planned = is_org_planning_line(content.subrange(at + 1, next));
        if planned {
            lemma_header_end(content, next);
        }
        let stop = header_end(content, at);
        assert forall|start: int, end: int|
            at < start <= stop && #[trigger] is_line(content, start, end) implies end <= stop
            && names_a_time(content.subrange(start, end)) by {
            lemma_line_ends(content, start, end);
            if start <= next {
                if start > at + 1 {
                    lemma_no_feed_before(content, at + 1, start - 1);
                }
                assert(start == at + 1);
            }
        }
        assert forall|end: int|
            stop < content.len() && #[trigger] is_line(content, stop + 1, end) implies
            !names_a_time(content.subrange(stop + 1, end)) by {
            lemma_line_ends(content, stop + 1, end);
        }
    }
}

/// An identity that is written into an Org block without a drawer gets a drawer of its own behind
/// the headline and every line behind that which names a time: the block is otherwise as it was,
/// each line between the headline and the drawer names a time, and the line right behind the drawer
/// names none.
pub proof fn law_org_drawer_follows_the_planning_lines(content: Seq<u8>, uuid: LogseqUuid)
    ensures
        exists|at: int|
            {
                &&& #[trigger] drawer_is_at(content, at)
                &&& org_injected(content, None, uuid) == Ok::<_, ProjectionError>(
                    content.take(at) + utf8("\n:PROPERTIES:\n:id: "@) + uuid_bytes(uuid) + utf8(
                        "\n:END:"@,
                    ) + content.skip(at),
                )
            },
{
    let first = line_end(content, 0);
    lemma_line_end(content, 0);
    lemma_header_end(content, first);
    let at = header_end(content, first);
    assert forall|start: int, end: int|
        0 < start <= at && #[trigger] is_line(content, start, end) implies end <= at
        && names_a_time(content.subrange(start, end)) by {
        if start <= first {
            lemma_no_feed_before(content, 0, start - 1);
        }
    }
    assert(drawer_is_at(content, at));
}

/// Whether a new drawer belongs at `at`: at the end of a line, behind lines that all name a time but
/// for the headline, and before none that does.
pub open spec fn drawer_is_at(content: Seq<u8>, at: int) -> bool {
    &&& 0 <= at <= content.len()
    &&& at == content.len() || content[at] == 0x0a
    &&& forall|start: int, end: int|
        0 < start <= at && #[trigger] is_line(content, start, end) ==> end <= at && names_a_time(
            content.subrange(start, end),
        )
    &&& forall|end: int|
        at < content.len() && #[trigger] is_line(content, at + 1, end) ==> !names_a_time(
            content.subrange(at + 1, end),
        )
}

/// The closing line of a drawer is its first line that says so.
proof fn lemma_close_offset(drawer: Seq<u8>, at: int)
    requires
        0 <= at <= drawer.len(),
        at == 0 || drawer[at - 1] == 0x0a,
    ensures
        match close_offset(drawer, at) {
            Some(close) => {
                &&& at <= close < drawer.len()
                &&& is_line(drawer, close, line_end(drawer, close))
                &&& closes_drawer(drawer.subrange(close, line_end(drawer, close)))
                &&& forall|start: int, end: int|
                    at <= start < close && #[trigger] is_line(drawer, start, end) ==> !closes_drawer(
                        drawer.subrange(start, end),
                    )
            },
            None => forall|start: int, end: int|
                at <= start < drawer.len() && #[trigger] is_line(drawer, start, end)
                    ==> !closes_drawer(drawer.subrange(start, end)),
        },
    decreases drawer.len() - at,
{
    if at < drawer.len() {
        let next = line_end(drawer, at);
        let line = drawer.subrange(at, next);
        lemma_line_end(drawer, at);
        lemma_white_end(line, 0);
        assert(is_end_line(line) == closes_drawer(line));
        assert forall|k: int| at <= k < next implies #[trigger] drawer[k] != 0x0a by {
            lemma_no_feed_before(drawer, at, k);
        }
        assert(is_line(drawer, at, next));
        if !is_end_line(line) && next < drawer.len() {
            lemma_close_offset(drawer, next + 1);
        }
        assert forall|start: int, end: int|
            at <= start <= next && start < drawer.len() && #[trigger] is_line(drawer, start, end)
            implies start == at && end == next by {
            lemma_line_ends(drawer, start, end);
            if start > at {
                assert(drawer[start - 1] == 0x0a);
                assert(at <= start - 1 < next);
            }
        }
    }
}

/// Where a position that a parser gave lies in the content: two bytes less, behind the white space
/// that the content starts with, and never behind the content.
pub open spec fn parsed_position(content: Seq<u8>, offset: usize) -> int {
    let moved = white_end(content, 0) + if offset >= 2 {
        offset - 2
    } else {
        0
    };
    if moved <= content.len() {
        moved
    } else {
        content.len() as int
    }
}

/// Whether the line of an identity belongs at `at` in a drawer: before the drawer's first line that
/// closes it.
pub open spec fn closes_first_at(drawer: Seq<u8>, at: int, end: int) -> bool {
    &&& at < drawer.len()
    &&& is_line(drawer, at, end)
    &&& closes_drawer(drawer.subrange(at, end))
    &&& forall|start: int, stop: int|
        0 <= start < at && #[trigger] is_line(drawer, start, stop) ==> !closes_drawer(
            drawer.subrange(start, stop),
        )
}

/// An identity that is written into the drawer of an Org block gets a line of its own right before
/// the first line that closes the drawer; everything else stays. It is refused exactly where the
/// drawer that the parser found is none: its ends are the wrong way round or inside a character, or
/// no line of it closes it.
pub proof fn law_org_identity_is_the_drawers_last_line(
    content: Seq<u8>,
    span: (usize, usize),
    uuid: LogseqUuid,
)
    ensures
        ({
            let start = parsed_position(content, span.0);
            let end = parsed_position(content, span.1);
            let drawer = content.subrange(start, end);
            match org_injected(content, Some(span), uuid) {
                Ok(text) => {
                    &&& start <= end
                    &&& exists|at: int, stop: int|
                        {
                            &&& #[trigger] closes_first_at(drawer, at, stop)
                            &&& text == content.take(start + at) + utf8(":id: "@) + uuid_bytes(uuid)
                                + utf8("\n"@) + content.skip(start + at)
                        }
                },
                Err(error) => {
                    &&& error == ProjectionError::ParserSpanMismatch
                    &&& start > end || splits_character(content, start) || splits_character(
                        content,
                        end,
                    ) || forall|at: int, stop: int|
                        at < drawer.len() && #[trigger] is_line(drawer, at, stop)
                            ==> !closes_drawer(drawer.subrange(at, stop))
                },
            }
        }),
{
    let start = parsed_position(content, span.0);
    let end = parsed_position(content, span.1);
    let drawer = content.subrange(start, end);
    lemma_white_end(content, 0);
    assert(start == content_offset(content, span.0));
    assert(end == content_offset(content, span.1));
    assert(is_boundary(content, start) == !splits_character(content, start));
    assert(is_boundary(content, end) == !splits_character(content, end));
    if start <= end && is_boundary(content, start) && is_boundary(content, end) {
        lemma_close_offset(drawer, 0);
        if let Some(close) = close_offset(drawer, 0) {
            assert(closes_first_at(drawer, close, line_end(drawer, close)));
        }
    }
}

/// Whether a position lies inside a character.
pub open spec fn splits_character(content: Seq<u8>, at: int) -> bool {
    0 < at < content.len() && 0x80 <= content[at] <= 0xbf
}

/// An identity that is written into a Markdown block is the block's last line, as a property of that
/// name; everything before it stays.
pub proof fn law_markdown_identity_is_the_last_line(
    content: Seq<u8>,
    drawer: Option<(usize, usize)>,
    uuid: LogseqUuid,
)
    ensures
        ({
            let text = injected(content, drawer, ProjectionFormat::Markdown, uuid);
            &&& text is Ok
            &&& content.is_prefix_of(text->Ok_0)
            &&& text->Ok_0.skip(content.len() as int) == utf8("\nid:: "@) + uuid_bytes(uuid)
        }),
{
    let text = injected(content, drawer, ProjectionFormat::Markdown, uuid)->Ok_0;
    assert(text.take(content.len() as int) =~= content);
    assert(text.skip(content.len() as int) =~= utf8("\nid:: "@) + uuid_bytes(uuid));
}

/// The format decides alone: an Org block is written as an Org block.
pub proof fn law_org_blocks_get_drawers(
    content: Seq<u8>,
    drawer: Option<(usize, usize)>,
    uuid: LogseqUuid,
)
    ensures
        injected(content, drawer, ProjectionFormat::Org, uuid) == org_injected(
            content,
            drawer,
            uuid,
        ),
{
}

} // verus!
