//! Line ends of a file.
//!
//! Texts hold line feeds. A Markdown file whose lines end in carriage return and line feed keeps
//! such line ends.

use vstd::prelude::*;

use crate::inject::ProjectionFormat;

verus! {

/// Whether a file has a line that ends in carriage return and line feed.
pub open spec fn has_crlf(bytes: Seq<u8>) -> bool {
    exists|i: int| 0 <= i < bytes.len() - 1 && #[trigger] bytes[i] == 0x0d && bytes[i + 1] == 0x0a
}

/// The bytes with a carriage return before every line feed.
pub open spec fn with_crlf(bytes: Seq<u8>) -> Seq<u8>
    decreases bytes.len(),
{
    if bytes.len() == 0 {
        Seq::empty()
    } else if bytes.last() == 0x0a {
        with_crlf(bytes.drop_last()).push(0x0d).push(0x0a)
    } else {
        with_crlf(bytes.drop_last()).push(bytes.last())
    }
}

/// The bytes of a page's file: what serialising the page gave, with the line ends of the file that
/// it replaces.
pub open spec fn file_text(
    format: ProjectionFormat,
    base: Option<Seq<u8>>,
    serialized: Seq<u8>,
) -> Seq<u8> {
    if format == ProjectionFormat::Markdown && base is Some && has_crlf(base->0) {
        with_crlf(serialized)
    } else {
        serialized
    }
}

/// The optional bytes that something holds.
pub open spec fn optional_file(base: Option<&[u8]>) -> Option<Seq<u8>> {
    match base {
        Some(bytes) => Some(bytes@),
        None => None,
    }
}

/// Whether a file has a line that ends in carriage return and line feed.
pub fn find_crlf(bytes: &[u8]) -> (found: bool)
    ensures
        found == has_crlf(bytes@),
{
    if bytes.len() == 0 {
        return false;
    }
    let mut at: usize = 0;
    while at < bytes.len() - 1
        invariant
            0 < bytes@.len(),
            at <= bytes@.len() - 1,
            forall|i: int|
                0 <= i < at ==> !(#[trigger] bytes@[i] == 0x0d && bytes@[i + 1] == 0x0a),
        decreases bytes@.len() - at,
    {
        if bytes[at] == 0x0d && bytes[at + 1] == 0x0a {
            assert(bytes@[at as int] == 0x0d);
            return true;
        }
        at += 1;
    }
    false
}

/// Puts a carriage return before every line feed.
fn crlf_lines(bytes: &[u8]) -> (lines: Vec<u8>)
    ensures
        lines@ == with_crlf(bytes@),
{
    let mut lines: Vec<u8> = Vec::new();
    let mut at: usize = 0;
    while at < bytes.len()
        invariant
            at <= bytes@.len(),
            lines@ == with_crlf(bytes@.take(at as int)),
        decreases bytes@.len() - at,
    {
        let byte: u8 = bytes[at];
        if byte == 0x0a {
            lines.push(0x0d);
        }
        lines.push(byte);
        proof {
            let next = bytes@.take(at + 1);
            assert(next.drop_last() =~= bytes@.take(at as int));
            assert(next.last() == byte);
        }
        at += 1;
    }
    assert(bytes@.take(at as int) =~= bytes@);
    lines
}

/// The bytes of a page's file, from what serialising the page gave and the file that it replaces.
pub fn file_bytes(format: ProjectionFormat, serialized: Vec<u8>, base: Option<&[u8]>) -> (bytes: Vec<
    u8,
>)
    ensures
        bytes@ == file_text(format, optional_file(base), serialized@),
{
    match format {
        ProjectionFormat::Org => serialized,
        ProjectionFormat::Markdown => match base {
            Some(text) => if find_crlf(text) {
                crlf_lines(serialized.as_slice())
            } else {
                serialized
            },
            None => serialized,
        },
    }
}

/// Whether every line feed has a carriage return before it.
pub open spec fn lines_end_in_crlf(bytes: Seq<u8>) -> bool {
    forall|i: int|
        0 <= i < bytes.len() && #[trigger] bytes[i] == 0x0a ==> i > 0 && bytes[i - 1] == 0x0d
}

/// Every line feed gets a carriage return before it.
pub proof fn lemma_with_crlf(bytes: Seq<u8>)
    ensures
        lines_end_in_crlf(with_crlf(bytes)),
    decreases bytes.len(),
{
    if bytes.len() > 0 {
        lemma_with_crlf(bytes.drop_last());
    }
}

/// Local line ends stay local: a Markdown file with carriage returns before line feeds is replaced
/// by one in which every line feed has one before it, and any other file by exactly what serialising
/// gave.
pub proof fn law_local_line_ends_stay(
    format: ProjectionFormat,
    base: Option<Seq<u8>>,
    serialized: Seq<u8>,
)
    ensures
        ({
            let text = file_text(format, base, serialized);
            if format == ProjectionFormat::Markdown && base is Some && has_crlf(base->0) {
                lines_end_in_crlf(text)
            } else {
                text == serialized
            }
        }),
{
    lemma_with_crlf(serialized);
}

/// How many of the first `n` bytes are line feeds.
pub open spec fn line_feeds(bytes: Seq<u8>, n: int) -> int
    decreases n,
{
    if n <= 0 {
        0
    } else {
        line_feeds(bytes, n - 1) + if bytes[n - 1] == 0x0a {
            1int
        } else {
            0
        }
    }
}

/// The first bytes have the same line feeds in a longer text.
proof fn lemma_line_feeds(bytes: Seq<u8>, n: int)
    requires
        0 <= n < bytes.len(),
    ensures
        line_feeds(bytes.drop_last(), n) == line_feeds(bytes, n),
        0 <= line_feeds(bytes, n) <= n,
    decreases n,
{
    if n > 0 {
        lemma_line_feeds(bytes, n - 1);
        assert(bytes.drop_last()[n - 1] == bytes[n - 1]);
    }
}

/// Whether a text is another one with one carriage return more before each line feed: every byte
/// stands behind as many more bytes as there are line feeds up to it, a line feed has a carriage
/// return before it, and there is nothing else.
pub open spec fn adds_only_returns(text: Seq<u8>, bytes: Seq<u8>) -> bool {
    &&& text.len() == bytes.len() + line_feeds(bytes, bytes.len() as int)
    &&& forall|i: int|
        0 <= i < bytes.len() ==> {
            let at = i + line_feeds(bytes, i + 1);
            &&& 0 <= at < text.len()
            &&& text[at] == #[trigger] bytes[i]
            &&& bytes[i] == 0x0a ==> at > 0 && text[at - 1] == 0x0d
        }
}

/// Changed line ends only add carriage returns.
proof fn lemma_adds_only_returns(bytes: Seq<u8>)
    ensures
        adds_only_returns(with_crlf(bytes), bytes),
    decreases bytes.len(),
{
    if bytes.len() > 0 {
        let less = bytes.drop_last();
        let text = with_crlf(bytes);
        let shorter = with_crlf(less);
        lemma_adds_only_returns(less);
        lemma_line_feeds(bytes, bytes.len() - 1);
        assert forall|i: int| 0 <= i < bytes.len() implies {
            let at = i + line_feeds(bytes, i + 1);
            &&& 0 <= at < text.len()
            &&& text[at] == #[trigger] bytes[i]
            &&& bytes[i] == 0x0a ==> at > 0 && text[at - 1] == 0x0d
        } by {
            if i < less.len() {
                assert(less[i] == bytes[i]);
                lemma_line_feeds(bytes, i + 1);
                let at = i + line_feeds(less, i + 1);
                assert(0 <= at < shorter.len());
                assert(text[at] == shorter[at]);
            } else {
                assert(text[text.len() - 1] == bytes.last());
            }
        }
    }
}

/// Changing line ends loses nothing and adds nothing but carriage returns. A Markdown file that
/// replaces one in which some carriage return stands before a line feed is the serialised text with
/// one carriage return more before each of its line feeds; every other file is the serialised text
/// itself.
pub proof fn law_line_ends_change_nothing_else(
    format: ProjectionFormat,
    base: Option<Seq<u8>>,
    serialized: Seq<u8>,
)
    ensures
        ({
            let text = file_text(format, base, serialized);
            let keeps_returns = format is Markdown && base is Some && exists|i: int|
                0 <= i < base->0.len() - 1 && #[trigger] base->0[i] == 0x0d && base->0[i + 1]
                    == 0x0a;
            &&& keeps_returns ==> adds_only_returns(text, serialized)
            &&& !keeps_returns ==> text == serialized
        }),
{
    lemma_adds_only_returns(serialized);
}

/// Two texts come to the same file only where they are the same.
pub proof fn law_line_ends_tell_texts_apart(
    format: ProjectionFormat,
    base: Option<Seq<u8>>,
    one: Seq<u8>,
    other: Seq<u8>,
)
    requires
        file_text(format, base, one) == file_text(format, base, other),
    ensures
        one == other,
{
    if file_text(format, base, one) == with_crlf(one) && file_text(format, base, other)
        == with_crlf(other) {
        lemma_crlf_tells_apart(one, other);
    }
}

/// Changed line ends tell texts apart.
proof fn lemma_crlf_tells_apart(one: Seq<u8>, other: Seq<u8>)
    requires
        with_crlf(one) == with_crlf(other),
    ensures
        one == other,
    decreases one.len(),
{
    let text = with_crlf(one);
    if one.len() == 0 || other.len() == 0 {
        assert(one =~= other);
    } else {
        assert(text.last() == one.last());
        assert(text.last() == other.last());
        let (first, second) = (one.drop_last(), other.drop_last());
        if one.last() == 0x0a {
            assert(with_crlf(first) =~= text.take(text.len() - 2));
            assert(with_crlf(second) =~= text.take(text.len() - 2));
        } else {
            assert(with_crlf(first) =~= text.drop_last());
            assert(with_crlf(second) =~= text.drop_last());
        }
        lemma_crlf_tells_apart(first, second);
        assert(one =~= first.push(one.last()));
        assert(other =~= second.push(other.last()));
    }
}

} // verus!
