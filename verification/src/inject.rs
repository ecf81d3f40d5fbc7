//! Writing an identity into the text of a block.

use vstd::prelude::*;

use crate::bytes::{copy_bytes, push_bytes};
use crate::error::ProjectionError;
use crate::ids::{hyphenated_text, LogseqUuid};

verus! {

/// The formats that pages are projected in.
#[derive(Clone, Copy, Debug, PartialEq, Eq, Structural)]
pub enum ProjectionFormat {
    Markdown,
    Org,
}

/// The UTF-8 bytes of a text.
pub open spec fn utf8(text: Seq<char>) -> Seq<u8> {
    vstd::utf8::encode_utf8(text)
}

/// `std::str::from_utf8` of the standard library: whether bytes are UTF-8.
#[verifier::external_body]
pub(crate) fn is_utf8(bytes: &[u8]) -> (valid: bool)
    ensures
        valid == vstd::utf8::valid_utf8(bytes@),
{
    std::str::from_utf8(bytes).is_ok()
}

/// The UTF-8 bytes of an identity in its hyphenated form.
pub open spec fn uuid_bytes(uuid: LogseqUuid) -> Seq<u8> {
    utf8(hyphenated_text(uuid.uuid.value))
}

/// How many bytes the white-space character at `at` takes; none if there is no such character.
pub open spec fn white_width(bytes: Seq<u8>, at: int) -> int {
    if at < 0 || at >= bytes.len() {
        0
    } else if (0x09 <= bytes[at] <= 0x0d) || bytes[at] == 0x20 {
        1
    } else if at + 1 < bytes.len() && bytes[at] == 0xc2 && (bytes[at + 1] == 0x85 || bytes[at + 1]
        == 0xa0) {
        2
    } else if at + 2 < bytes.len() && bytes[at] == 0xe1 && bytes[at + 1] == 0x9a && bytes[at + 2]
        == 0x80 {
        3
    } else if at + 2 < bytes.len() && bytes[at] == 0xe2 && bytes[at + 1] == 0x80 && ((0x80
        <= bytes[at + 2] <= 0x8a) || bytes[at + 2] == 0xa8 || bytes[at + 2] == 0xa9 || bytes[at + 2]
        == 0xaf) {
        3
    } else if at + 2 < bytes.len() && bytes[at] == 0xe2 && bytes[at + 1] == 0x81 && bytes[at + 2]
        == 0x9f {
        3
    } else if at + 2 < bytes.len() && bytes[at] == 0xe3 && bytes[at + 1] == 0x80 && bytes[at + 2]
        == 0x80 {
        3
    } else {
        0
    }
}

/// Where the white space that starts at `at` ends.
pub open spec fn white_end(bytes: Seq<u8>, at: int) -> int
    decreases bytes.len() - at,
{
    if white_width(bytes, at) == 0 {
        at
    } else {
        white_end(bytes, at + white_width(bytes, at))
    }
}

/// White space ends no earlier than it starts, and inside the text.
pub proof fn lemma_white_end(bytes: Seq<u8>, at: int)
    requires
        0 <= at <= bytes.len(),
    ensures
        at <= white_end(bytes, at) <= bytes.len(),
    decreases bytes.len() - at,
{
    if white_width(bytes, at) != 0 {
        lemma_white_end(bytes, at + white_width(bytes, at));
    }
}

/// How many bytes the white-space character at `at` takes.
fn white_width_at(bytes: &[u8], at: usize) -> (width: usize)
    requires
        at <= bytes@.len(),
    ensures
        width == white_width(bytes@, at as int),
{
    let length: usize = bytes.len();
    if at >= length {
        return 0;
    }
    let first: u8 = bytes[at];
    if (0x09 <= first && first <= 0x0d) || first == 0x20 {
        return 1;
    }
    if length - at < 2 {
        return 0;
    }
    let second: u8 = bytes[at + 1];
    if first == 0xc2 && (second == 0x85 || second == 0xa0) {
        return 2;
    }
    if length - at < 3 {
        return 0;
    }
    let third: u8 = bytes[at + 2];
    if (first == 0xe1 && second == 0x9a && third == 0x80) || (first == 0xe2 && second == 0x80 && ((
    0x80 <= third && third <= 0x8a) || third == 0xa8 || third == 0xa9 || third == 0xaf)) || (first
        == 0xe2 && second == 0x81 && third == 0x9f) || (first == 0xe3 && second == 0x80 && third
        == 0x80) {
        3
    } else {
        0
    }
}

/// Where the white space that starts at `at` ends.
pub fn skip_white(bytes: &[u8], at: usize) -> (end: usize)
    requires
        at <= bytes@.len(),
    ensures
        end == white_end(bytes@, at as int),
        at <= end <= bytes@.len(),
{
    let length: usize = bytes.len();
    let mut end: usize = at;
    let mut width: usize = white_width_at(bytes, end);
    while width > 0
        invariant
            length == bytes@.len(),
            at <= end <= bytes@.len(),
            width == white_width(bytes@, end as int),
            white_end(bytes@, at as int) == white_end(bytes@, end as int),
        decreases bytes@.len() - end,
    {
        end += width;
        width = white_width_at(bytes, end);
    }
    end
}

/// Whether `bytes` holds `part` at `at`.
pub open spec fn holds_at(bytes: Seq<u8>, part: Seq<u8>, at: int) -> bool {
    &&& 0 <= at
    &&& at + part.len() <= bytes.len()
    &&& bytes.subrange(at, at + part.len()) == part
}

/// Whether `bytes` holds `part` at `at`.
pub fn has_at(bytes: &[u8], part: &[u8], at: usize) -> (holds: bool)
    ensures
        holds == holds_at(bytes@, part@, at as int),
{
    if at > bytes.len() || part.len() > bytes.len() - at {
        return false;
    }
    crate::bytes::same_bytes(vstd::slice::slice_subrange(bytes, at, at + part.len()), part)
}

/// Where the line that starts at `at` ends: at the next line feed, or at the end of the text.
pub open spec fn line_end(bytes: Seq<u8>, at: int) -> int
    decreases bytes.len() - at,
{
    if at < 0 || at >= bytes.len() || bytes[at] == 0x0a {
        at
    } else {
        line_end(bytes, at + 1)
    }
}

/// A line ends no earlier than it starts, and inside the text.
pub proof fn lemma_line_end(bytes: Seq<u8>, at: int)
    requires
        0 <= at <= bytes.len(),
    ensures
        at <= line_end(bytes, at) <= bytes.len(),
        line_end(bytes, at) < bytes.len() ==> bytes[line_end(bytes, at)] == 0x0a,
    decreases bytes.len() - at,
{
    if at < bytes.len() && bytes[at] != 0x0a {
        lemma_line_end(bytes, at + 1);
    }
}

/// Where the line that starts at `at` ends.
pub fn find_line_end(bytes: &[u8], at: usize) -> (end: usize)
    requires
        at <= bytes@.len(),
    ensures
        end == line_end(bytes@, at as int),
        at <= end <= bytes@.len(),
        end < bytes@.len() ==> bytes@[end as int] == 0x0a,
{
    let mut end: usize = at;
    while end < bytes.len() && bytes[end] != 0x0a
        invariant
            at <= end <= bytes@.len(),
            line_end(bytes@, at as int) == line_end(bytes@, end as int),
        decreases bytes@.len() - end,
    {
        end += 1;
    }
    end
}

/// An ASCII upper-case letter lowered.
pub open spec fn lower_byte(byte: u8) -> u8 {
    if 0x41 <= byte <= 0x5a {
        (byte + 0x20) as u8
    } else {
        byte
    }
}

/// Whether a line says `:END:`, in any case and with white space around it.
pub open spec fn is_end_line(line: Seq<u8>) -> bool {
    let at = white_end(line, 0);
    &&& at + 5 <= line.len()
    &&& line[at] == 0x3a
    &&& lower_byte(line[at + 1]) == 0x65
    &&& lower_byte(line[at + 2]) == 0x6e
    &&& lower_byte(line[at + 3]) == 0x64
    &&& line[at + 4] == 0x3a
    &&& white_end(line, at + 5) == line.len()
}

/// Whether a line says `:END:`, in any case and with white space around it.
fn check_end_line(line: &[u8]) -> (end: bool)
    ensures
        end == is_end_line(line@),
{
    let at: usize = skip_white(line, 0);
    if line.len() - at < 5 {
        return false;
    }
    let (b, c, d): (u8, u8, u8) = (line[at + 1], line[at + 2], line[at + 3]);
    let named = line[at] == 0x3a && (b == 0x45 || b == 0x65) && (c == 0x4e || c == 0x6e) && (d
        == 0x44 || d == 0x64) && line[at + 4] == 0x3a;
    named && skip_white(line, at + 5) == line.len()
}

/// Whether a line of an Org block plans it: it names a time after its white space.
pub open spec fn is_org_planning_line(line: Seq<u8>) -> bool {
    let at = white_end(line, 0);
    ||| holds_at(line, utf8("SCHEDULED:"@), at)
    ||| holds_at(line, utf8("DEADLINE:"@), at)
    ||| holds_at(line, utf8("CLOSED:"@), at)
}

/// Whether a line of an Org block plans it.
pub fn check_org_planning_line(line: &[u8]) -> (planning: bool)
    ensures
        planning == is_org_planning_line(line@),
{
    let at: usize = skip_white(line, 0);
    has_at(line, "SCHEDULED:".as_bytes(), at) || has_at(line, "DEADLINE:".as_bytes(), at) || has_at(
        line,
        "CLOSED:".as_bytes(),
        at,
    )
}

/// Where the first line that closes a drawer starts, from `at` on.
pub open spec fn close_offset(drawer: Seq<u8>, at: int) -> Option<int>
    decreases drawer.len() - at,
{
    if at < 0 || at >= drawer.len() {
        None
    } else {
        let end = line_end(drawer, at);
        if is_end_line(drawer.subrange(at, end)) {
            Some(at)
        } else if end < at || end >= drawer.len() {
            None
        } else {
            close_offset(drawer, end + 1)
        }
    }
}

/// Where the first line that closes a drawer starts.
fn find_close(drawer: &[u8]) -> (close: Option<usize>)
    ensures
        match close_offset(drawer@, 0) {
            Some(at) => close is Some && close->0 == at && 0 <= at < drawer@.len(),
            None => close is None,
        },
{
    let mut at: usize = 0;
    while at < drawer.len()
        invariant
            at <= drawer@.len(),
            close_offset(drawer@, 0) == close_offset(drawer@, at as int),
        decreases drawer@.len() - at,
    {
        let end: usize = find_line_end(drawer, at);
        if check_end_line(vstd::slice::slice_subrange(drawer, at, end)) {
            return Some(at);
        }
        if end >= drawer.len() {
            return None;
        }
        at = end + 1;
    }
    None
}

/// Whether a character starts or ends at `at`.
pub open spec fn is_boundary(bytes: Seq<u8>, at: int) -> bool {
    at == 0 || at == bytes.len() || (0 < at < bytes.len() && !(0x80 <= bytes[at] < 0xc0))
}

/// A parser offset moved onto the content: two bytes less, plus the leading white space, never
/// past the end of the content.
pub open spec fn content_offset(content: Seq<u8>, offset: usize) -> int {
    let less = if offset < 2 {
        0
    } else {
        offset - 2
    };
    let moved = less + white_end(content, 0);
    if moved > content.len() {
        content.len() as int
    } else {
        moved
    }
}

/// A parser offset moved onto the content.
fn move_offset(content: &[u8], lead: usize, offset: usize) -> (moved: usize)
    requires
        lead == white_end(content@, 0),
        lead <= content@.len(),
    ensures
        moved == content_offset(content@, offset),
        moved <= content@.len(),
{
    let less: usize = offset.saturating_sub(2);
    let sum: usize = less.saturating_add(lead);
    if sum > content.len() {
        content.len()
    } else {
        sum
    }
}

/// Where the headline and the planning lines after it end, from a line end on.
pub open spec fn header_end(content: Seq<u8>, at: int) -> int
    decreases content.len() - at,
{
    if at < 0 || at >= content.len() {
        at
    } else {
        let next = line_end(content, at + 1);
        if at < next <= content.len() && is_org_planning_line(content.subrange(at + 1, next)) {
            header_end(content, next)
        } else {
            at
        }
    }
}

/// The text of an Org block with an identity in it: in the property drawer that the parser found,
/// before the line that closes it; without a drawer, in a new one after the headline and the
/// planning lines.
pub open spec fn org_injected(
    content: Seq<u8>,
    drawer: Option<(usize, usize)>,
    uuid: LogseqUuid,
) -> Result<Seq<u8>, ProjectionError> {
    match drawer {
        Some(span) => {
            let start = content_offset(content, span.0);
            let end = content_offset(content, span.1);
            if start > end || !is_boundary(content, start) || !is_boundary(content, end) {
                Err(ProjectionError::ParserSpanMismatch)
            } else {
                match close_offset(content.subrange(start, end), 0) {
                    None => Err(ProjectionError::ParserSpanMismatch),
                    Some(close) => Ok(
                        content.take(start + close) + utf8(":id: "@) + uuid_bytes(uuid) + utf8(
                            "\n"@,
                        ) + content.skip(start + close),
                    ),
                }
            }
        },
        None => {
            let at = header_end(content, line_end(content, 0));
            Ok(
                content.take(at) + utf8("\n:PROPERTIES:\n:id: "@) + uuid_bytes(uuid) + utf8(
                    "\n:END:"@,
                ) + content.skip(at),
            )
        },
    }
}

/// The text of a block with an identity in it.
pub open spec fn injected(
    content: Seq<u8>,
    drawer: Option<(usize, usize)>,
    format: ProjectionFormat,
    uuid: LogseqUuid,
) -> Result<Seq<u8>, ProjectionError> {
    match format {
        ProjectionFormat::Markdown => Ok(content + utf8("\nid:: "@) + uuid_bytes(uuid)),
        ProjectionFormat::Org => org_injected(content, drawer, uuid),
    }
}

/// Whether a character starts or ends at `at`.
fn check_boundary(bytes: &[u8], at: usize) -> (boundary: bool)
    requires
        at <= bytes@.len(),
    ensures
        boundary == is_boundary(bytes@, at as int),
{
    at == 0 || at == bytes.len() || !(0x80 <= bytes[at] && bytes[at] < 0xc0)
}

/// The text of an Org block with an identity in it.
pub fn inject_org_id(content: &[u8], drawer: Option<(usize, usize)>, uuid: LogseqUuid) -> (text:
    Result<Vec<u8>, ProjectionError>)
    ensures
        match org_injected(content@, drawer, uuid) {
            Ok(injected) => text is Ok && text->Ok_0@ == injected,
            Err(error) => text == Err::<Vec<u8>, _>(error),
        },
{
    let written = uuid.as_uuid().hyphenated();
    if let Some(span) = drawer {
        let lead: usize = skip_white(content, 0);
        let start: usize = move_offset(content, lead, span.0);
        let end: usize = move_offset(content, lead, span.1);
        if start > end || !check_boundary(content, start) || !check_boundary(content, end) {
            return Err(ProjectionError::ParserSpanMismatch);
        }
        let found = match find_close(vstd::slice::slice_subrange(content, start, end)) {
            Some(found) => found,
            None => return Err(ProjectionError::ParserSpanMismatch),
        };
        let insertion: usize = start + found;
        let mut result = crate::bytes::copy_range(content, 0, insertion);
        push_bytes(&mut result, ":id: ".as_bytes());
        push_bytes(&mut result, written.as_str().as_bytes());
        push_bytes(&mut result, "\n".as_bytes());
        push_bytes(
            &mut result,
            vstd::slice::slice_subrange(content, insertion, content.len()),
        );
        proof {
            assert(content@.subrange(0, insertion as int) =~= content@.take(insertion as int));
            assert(content@.subrange(insertion as int, content@.len() as int) =~= content@.skip(
                insertion as int,
            ));
        }
        return Ok(result);
    }
    let mut at: usize = find_line_end(content, 0);
    let ghost first = at as int;
    let mut more = true;
    while more && at < content.len()
        invariant
            at <= content@.len(),
            header_end(content@, first) == if more {
                header_end(content@, at as int)
            } else {
                at as int
            },
        decreases content@.len() - at, if more {
                1int
            } else {
                0int
            },
    {
        let next: usize = find_line_end(content, at + 1);
        if check_org_planning_line(vstd::slice::slice_subrange(content, at + 1, next)) {
            at = next;
        } else {
            more = false;
        }
    }
    let mut result = crate::bytes::copy_range(content, 0, at);
    push_bytes(&mut result, "\n:PROPERTIES:\n:id: ".as_bytes());
    push_bytes(&mut result, written.as_str().as_bytes());
    push_bytes(&mut result, "\n:END:".as_bytes());
    push_bytes(&mut result, vstd::slice::slice_subrange(content, at, content.len()));
    proof {
        assert(content@.subrange(0, at as int) =~= content@.take(at as int));
        assert(content@.subrange(at as int, content@.len() as int) =~= content@.skip(at as int));
    }
    Ok(result)
}

/// The text of a block with an identity in it.
pub fn inject_logseq_id(
    content: &[u8],
    drawer: Option<(usize, usize)>,
    format: ProjectionFormat,
    uuid: LogseqUuid,
) -> (text: Result<Vec<u8>, ProjectionError>)
    ensures
        match injected(content@, drawer, format, uuid) {
            Ok(injected) => text is Ok && text->Ok_0@ == injected,
            Err(error) => text == Err::<Vec<u8>, _>(error),
        },
{
    match format {
        ProjectionFormat::Markdown => {
            let written = uuid.as_uuid().hyphenated();
            let mut text = copy_bytes(content);
            push_bytes(&mut text, "\nid:: ".as_bytes());
            push_bytes(&mut text, written.as_str().as_bytes());
            Ok(text)
        },
        ProjectionFormat::Org => inject_org_id(content, drawer, uuid),
    }
}

/// The text that a policy-generated identity has in a file.
pub fn inject_policy_generated_logseq_id(
    content: &[u8],
    drawer: Option<(usize, usize)>,
    is_org: bool,
    uuid: LogseqUuid,
) -> (text: Result<Vec<u8>, ProjectionError>)
    ensures
        match injected(
            content@,
            drawer,
            if is_org {
                ProjectionFormat::Org
            } else {
                ProjectionFormat::Markdown
            },
            uuid,
        ) {
            Ok(injected) => text is Ok && text->Ok_0@ == injected,
            Err(error) => text == Err::<Vec<u8>, _>(error),
        },
{
    inject_logseq_id(
        content,
        drawer,
        if is_org {
            ProjectionFormat::Org
        } else {
            ProjectionFormat::Markdown
        },
        uuid,
    )
}

} // verus!
