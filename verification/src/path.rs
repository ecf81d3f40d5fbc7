//! Managed paths.

use vstd::prelude::*;

use crate::ids::PortablePathKeyDigest;
use crate::text::{ascii_lower, chars_of, lower_ascii, same_text, string_of};

verus! {

/// A slash-separated path inside the managed tree, with the digest of its portable key.
#[derive(Clone, Debug, PartialEq, Eq)]
pub struct ManagedPath {
    pub text: String,
    pub portable_key_digest: PortablePathKeyDigest,
}

/// What a managed path says.
pub struct ManagedPathView {
    pub text: Seq<char>,
    pub portable_key_digest: PortablePathKeyDigest,
}

impl View for ManagedPath {
    type V = ManagedPathView;

    open spec fn view(&self) -> ManagedPathView {
        ManagedPathView { text: self.text@, portable_key_digest: self.portable_key_digest }
    }
}

/// Whether no slash occurs from position `start` on.
pub open spec fn no_slash_from(text: Seq<char>, start: int) -> bool {
    forall|i: int| start <= i < text.len() ==> #[trigger] text[i] != '/'
}

/// Where the last component starts: after the last slash, or at the beginning.
pub open spec fn is_name_start(text: Seq<char>, start: int) -> bool {
    &&& 0 <= start <= text.len()
    &&& no_slash_from(text, start)
    &&& start == 0 || text[start - 1] == '/'
}

/// Where the last component of a path starts.
pub open spec fn name_start(text: Seq<char>) -> int {
    choose|start: int| is_name_start(text, start)
}

/// The last component of a path.
pub open spec fn file_name(text: Seq<char>) -> Seq<char> {
    text.subrange(name_start(text), text.len() as int)
}

/// The path with `name` in place of its last component.
pub open spec fn sibling(text: Seq<char>, name: Seq<char>) -> Seq<char> {
    text.take(name_start(text)) + name
}

/// The last component starts at one position only.
pub proof fn lemma_name_start(text: Seq<char>, start: int)
    requires
        is_name_start(text, start),
    ensures
        name_start(text) == start,
{
    let other = name_start(text);
    assert(is_name_start(text, other));
    if other < start {
        assert(text[start - 1] != '/');
    } else if start < other {
        assert(text[other - 1] != '/');
    }
}

/// Whether `text` ends in `suffix` up to ASCII case, with something before it in its last
/// component.
pub open spec fn has_extension(text: Seq<char>, suffix: Seq<char>) -> bool {
    let name = file_name(text);
    &&& suffix.len() < name.len()
    &&& forall|i: int|
        0 <= i < suffix.len() ==> ascii_lower(#[trigger] name[name.len() - suffix.len() + i])
            == suffix[i]
}

impl ManagedPath {
    /// The path with the given text and portable key.
    pub fn new(text: String, portable_key_digest: PortablePathKeyDigest) -> (path: ManagedPath)
        ensures
            path == (ManagedPath { text, portable_key_digest }),
    {
        ManagedPath { text, portable_key_digest }
    }

    /// The text of the path.
    pub fn as_str(&self) -> (text: &str)
        ensures
            text@ == self.text@,
    {
        self.text.as_str()
    }

    /// The digest of the path's portable key.
    pub fn portable_key_digest(&self) -> (digest: PortablePathKeyDigest)
        ensures
            digest == self.portable_key_digest,
    {
        self.portable_key_digest
    }

    /// A copy of the path.
    pub fn duplicate(&self) -> (copy: ManagedPath)
        ensures
            copy@ == self@,
    {
        ManagedPath { text: self.text.clone(), portable_key_digest: self.portable_key_digest }
    }

    /// Whether two paths are the same.
    pub fn same(&self, other: &ManagedPath) -> (same: bool)
        ensures
            same == (self.text@ == other.text@),
    {
        same_text(self.text.as_str(), other.text.as_str())
    }

    /// The last component of the path.
    pub fn file_name(&self) -> (name: String)
        ensures
            name@ == file_name(self.text@),
    {
        let chars = chars_of(self.text.as_str());
        let start = find_name_start(chars.as_slice());
        let name = string_of(vstd::slice::slice_subrange(chars.as_slice(), start, chars.len()));
        name
    }

    /// The path of `name` beside this path.
    pub fn sibling(&self, name: &str) -> (path: String)
        ensures
            path@ == sibling(self.text@, name@),
    {
        let chars = chars_of(self.text.as_str());
        let start = find_name_start(chars.as_slice());
        let mut path = string_of(vstd::slice::slice_subrange(chars.as_slice(), 0, start));
        path.append(name);
        assert(path@ =~= sibling(self.text@, name@));
        path
    }

    /// Whether the path names a Markdown file.
    pub fn is_markdown(&self) -> (markdown: bool)
        ensures
            markdown == (has_extension(self.text@, ".md"@) || has_extension(
                self.text@,
                ".markdown"@,
            )),
    {
        let name = chars_of(self.file_name().as_str());
        ends_in(name.as_slice(), ".md") || ends_in(name.as_slice(), ".markdown")
    }

    /// Whether the path names an Org file.
    pub fn is_org(&self) -> (org: bool)
        ensures
            org == has_extension(self.text@, ".org"@),
    {
        let name = chars_of(self.file_name().as_str());
        ends_in(name.as_slice(), ".org")
    }
}

/// Where the last component of a path starts.
fn find_name_start(chars: &[char]) -> (start: usize)
    ensures
        start == name_start(chars@),
        start <= chars@.len(),
{
    let mut start: usize = chars.len();
    while start > 0 && chars[start - 1] != '/'
        invariant
            start <= chars@.len(),
            no_slash_from(chars@, start as int),
        decreases start,
    {
        start -= 1;
    }
    proof {
        assert(is_name_start(chars@, start as int));
        lemma_name_start(chars@, start as int);
    }
    start
}

/// Whether `name` ends in `suffix` up to ASCII case, with something before it.
fn ends_in(name: &[char], suffix: &str) -> (ends: bool)
    ensures
        ends == (suffix@.len() < name@.len() && forall|i: int|
            0 <= i < suffix@.len() ==> ascii_lower(
                #[trigger] name@[name@.len() - suffix@.len() + i],
            ) == suffix@[i]),
{
    let tail = chars_of(suffix);
    if tail.len() >= name.len() {
        return false;
    }
    let total: usize = name.len();
    let from: usize = total - tail.len();
    let mut index: usize = 0;
    while index < tail.len()
        invariant
            total == name@.len(),
            index <= tail@.len(),
            tail@ == suffix@,
            tail@.len() < name@.len(),
            from == name@.len() - tail@.len(),
            forall|i: int|
                0 <= i < index ==> ascii_lower(#[trigger] name@[name@.len() - suffix@.len() + i])
                    == suffix@[i],
        decreases tail@.len() - index,
    {
        if lower_ascii(name[from + index]) != tail[index] {
            assert(ascii_lower(name@[name@.len() - suffix@.len() + index]) != suffix@[index as int]);
            return false;
        }
        index += 1;
    }
    true
}

} // verus!
