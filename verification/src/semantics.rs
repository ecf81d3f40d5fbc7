//! Whether a file's own outline is exactly the outline of an accepted page.

use vstd::prelude::*;

use crate::bytes::same_bytes;
use crate::document::{DocBlock, Document};
use crate::order::{copy_words, same_words};
use crate::page::{optional_text, same_optional_text};
use crate::text::{same_text, trim_text, trimmed};

verus! {

/// A block as the document parser reads it in a file: its position, its text, and its properties
/// with normalised keys.
#[derive(Clone, Debug, PartialEq, Eq)]
pub struct SourceBlock {
    pub locator: Vec<u32>,
    pub raw: Vec<u8>,
    pub properties: Vec<(String, String)>,
}

/// A file as the document parser reads it.
#[derive(Clone, Debug, PartialEq, Eq)]
pub struct SourceDocument {
    pub pre_block: Option<Vec<u8>>,
    pub blocks: Vec<SourceBlock>,
}

/// A position and the text there.
pub struct OutlineEntry {
    pub locator: Seq<u32>,
    pub raw: Seq<u8>,
}

/// The outline of a document.
pub open spec fn document_outline(document: Document) -> Seq<OutlineEntry> {
    document.blocks@.map_values(
        |block: DocBlock| OutlineEntry { locator: block.locator@, raw: block.raw@ },
    )
}

/// The outline of a file.
pub open spec fn source_outline(source: SourceDocument) -> Seq<OutlineEntry> {
    source.blocks@.map_values(
        |block: SourceBlock| OutlineEntry { locator: block.locator@, raw: block.raw@ },
    )
}

/// Whether a file says exactly what a document says.
pub open spec fn same_document(source: SourceDocument, document: Document) -> bool {
    &&& optional_text(source.pre_block) == optional_text(document.pre_block)
    &&& source_outline(source) == document_outline(document)
}

/// Why a file cannot stand for an accepted page.
#[derive(Clone, Debug, PartialEq, Eq)]
pub enum ExactSourceSemanticDifference {
    UnsupportedSourceLayout(String),
    PreambleOrPageProperties,
    BlockCount { accepted: usize, source: usize },
    BlockOrderOrAncestry { accepted_locator: Vec<u32>, source_locator: Vec<u32> },
    ExplicitBlockIdentity { locator: Vec<u32> },
    BlockContent { locator: Vec<u32> },
}

/// What a difference says.
pub enum SemanticDifferenceView {
    UnsupportedSourceLayout(Seq<char>),
    PreambleOrPageProperties,
    BlockCount { accepted: nat, source: nat },
    BlockOrderOrAncestry { accepted_locator: Seq<u32>, source_locator: Seq<u32> },
    ExplicitBlockIdentity { locator: Seq<u32> },
    BlockContent { locator: Seq<u32> },
}

impl View for ExactSourceSemanticDifference {
    type V = SemanticDifferenceView;

    open spec fn view(&self) -> SemanticDifferenceView {
        match *self {
            ExactSourceSemanticDifference::UnsupportedSourceLayout(
                message,
            ) => SemanticDifferenceView::UnsupportedSourceLayout(message@),
            ExactSourceSemanticDifference::PreambleOrPageProperties => {
                SemanticDifferenceView::PreambleOrPageProperties
            },
            ExactSourceSemanticDifference::BlockCount { accepted, source } => {
                SemanticDifferenceView::BlockCount {
                    accepted: accepted as nat,
                    source: source as nat,
                }
            },
            ExactSourceSemanticDifference::BlockOrderOrAncestry {
                accepted_locator,
                source_locator,
            } => SemanticDifferenceView::BlockOrderOrAncestry {
                accepted_locator: accepted_locator@,
                source_locator: source_locator@,
            },
            ExactSourceSemanticDifference::ExplicitBlockIdentity { locator } => {
                SemanticDifferenceView::ExplicitBlockIdentity { locator: locator@ }
            },
            ExactSourceSemanticDifference::BlockContent { locator } => {
                SemanticDifferenceView::BlockContent { locator: locator@ }
            },
        }
    }
}

/// Whether the text occurs in an outline at `k` and nowhere else.
pub open spec fn is_sole(outline: Seq<OutlineEntry>, raw: Seq<u8>, k: int) -> bool {
    &&& 0 <= k < outline.len()
    &&& outline[k].raw == raw
    &&& forall|j: int| 0 <= j < outline.len() && j != k ==> (#[trigger] outline[j]).raw != raw
}

/// Where a text occurs that occurs exactly once.
pub open spec fn sole_at(outline: Seq<OutlineEntry>, raw: Seq<u8>) -> Option<int> {
    if exists|k: int| is_sole(outline, raw, k) {
        Some(choose|k: int| is_sole(outline, raw, k))
    } else {
        None
    }
}

/// The difference that block `i` shows by its place: its text occurs exactly once on both sides,
/// at different positions.
pub open spec fn moved_difference(
    accepted: Seq<OutlineEntry>,
    source: Seq<OutlineEntry>,
    i: int,
) -> Option<SemanticDifferenceView> {
    match (sole_at(source, accepted[i].raw), sole_at(accepted, accepted[i].raw)) {
        (Some(s), Some(a)) => if accepted[a].locator != source[s].locator {
            Some(
                SemanticDifferenceView::BlockOrderOrAncestry {
                    accepted_locator: accepted[a].locator,
                    source_locator: source[s].locator,
                },
            )
        } else {
            None
        },
        _ => None,
    }
}

/// The first difference by place among the first `n` blocks.
pub open spec fn first_moved(
    accepted: Seq<OutlineEntry>,
    source: Seq<OutlineEntry>,
    n: nat,
) -> Option<SemanticDifferenceView>
    decreases n,
{
    if n == 0 {
        None
    } else {
        match first_moved(accepted, source, (n - 1) as nat) {
            Some(difference) => Some(difference),
            None => moved_difference(accepted, source, n - 1),
        }
    }
}

/// The identities that the `id` properties of a block write.
pub open spec fn explicit_ids(properties: Seq<(String, String)>) -> Seq<Seq<char>>
    decreases properties.len(),
{
    if properties.len() == 0 {
        Seq::empty()
    } else {
        let before = explicit_ids(properties.drop_last());
        if properties.last().0@ == "id"@ {
            before.push(trimmed(properties.last().1@))
        } else {
            before
        }
    }
}

/// The properties that the document parser reads in block `i`.
pub open spec fn properties_at(properties: Seq<Vec<(String, String)>>, i: int) -> Seq<
    (String, String),
> {
    if 0 <= i < properties.len() {
        properties[i]@
    } else {
        Seq::empty()
    }
}

/// The difference between blocks `i` of both sides.
pub open spec fn paired_difference(
    accepted: Seq<OutlineEntry>,
    accepted_properties: Seq<Vec<(String, String)>>,
    source: SourceDocument,
    i: int,
) -> Option<SemanticDifferenceView> {
    let other = source_outline(source)[i];
    if accepted[i].locator != other.locator {
        Some(
            SemanticDifferenceView::BlockOrderOrAncestry {
                accepted_locator: accepted[i].locator,
                source_locator: other.locator,
            },
        )
    } else if accepted[i].raw != other.raw {
        if explicit_ids(properties_at(accepted_properties, i)) != explicit_ids(
            source.blocks@[i].properties@,
        ) {
            Some(SemanticDifferenceView::ExplicitBlockIdentity { locator: accepted[i].locator })
        } else {
            Some(SemanticDifferenceView::BlockContent { locator: accepted[i].locator })
        }
    } else {
        None
    }
}

/// The first difference between paired blocks among the first `n`.
pub open spec fn first_paired(
    accepted: Seq<OutlineEntry>,
    accepted_properties: Seq<Vec<(String, String)>>,
    source: SourceDocument,
    n: nat,
) -> Option<SemanticDifferenceView>
    decreases n,
{
    if n == 0 {
        None
    } else {
        match first_paired(accepted, accepted_properties, source, (n - 1) as nat) {
            Some(difference) => Some(difference),
            None => paired_difference(accepted, accepted_properties, source, n - 1),
        }
    }
}

/// How the outline of a file differs from that of an accepted page, if it does.
pub open spec fn semantic_difference(
    accepted: Document,
    accepted_properties: Seq<Vec<(String, String)>>,
    source: SourceDocument,
) -> Option<SemanticDifferenceView> {
    let a = document_outline(accepted);
    let b = source_outline(source);
    if optional_text(accepted.pre_block) != optional_text(source.pre_block) {
        Some(SemanticDifferenceView::PreambleOrPageProperties)
    } else if a.len() != b.len() {
        Some(SemanticDifferenceView::BlockCount { accepted: a.len(), source: b.len() })
    } else {
        match first_moved(a, b, a.len()) {
            Some(difference) => Some(difference),
            None => first_paired(a, accepted_properties, source, a.len()),
        }
    }
}

/// A difference among the first blocks is the difference of all.
proof fn lemma_first_moved_stays(
    accepted: Seq<OutlineEntry>,
    source: Seq<OutlineEntry>,
    k: nat,
    n: nat,
)
    requires
        k <= n,
        first_moved(accepted, source, k) is Some,
    ensures
        first_moved(accepted, source, n) == first_moved(accepted, source, k),
    decreases n,
{
    if k < n {
        lemma_first_moved_stays(accepted, source, k, (n - 1) as nat);
    }
}

/// A difference among the first pairs is the difference of all.
proof fn lemma_first_paired_stays(
    accepted: Seq<OutlineEntry>,
    accepted_properties: Seq<Vec<(String, String)>>,
    source: SourceDocument,
    k: nat,
    n: nat,
)
    requires
        k <= n,
        first_paired(accepted, accepted_properties, source, k) is Some,
    ensures
        first_paired(accepted, accepted_properties, source, n) == first_paired(
            accepted,
            accepted_properties,
            source,
            k,
        ),
    decreases n,
{
    if k < n {
        lemma_first_paired_stays(accepted, accepted_properties, source, k, (n - 1) as nat);
    }
}

/// Equal outlines show no difference.
proof fn lemma_same_outline(
    accepted: Seq<OutlineEntry>,
    accepted_properties: Seq<Vec<(String, String)>>,
    source: SourceDocument,
    n: nat,
)
    requires
        accepted == source_outline(source),
        n <= accepted.len(),
    ensures
        first_moved(accepted, source_outline(source), n) is None,
        first_paired(accepted, accepted_properties, source, n) is None,
    decreases n,
{
    if n > 0 {
        lemma_same_outline(accepted, accepted_properties, source, (n - 1) as nat);
    }
}

/// A file stands for an accepted page exactly if preamble and outline are the same.
pub proof fn law_no_difference_means_same_document(
    accepted: Document,
    accepted_properties: Seq<Vec<(String, String)>>,
    source: SourceDocument,
)
    ensures
        semantic_difference(accepted, accepted_properties, source) is None <==> same_document(
            source,
            accepted,
        ),
{
    let a = document_outline(accepted);
    let b = source_outline(source);
    if same_document(source, accepted) {
        lemma_same_outline(a, accepted_properties, source, a.len());
    } else if semantic_difference(accepted, accepted_properties, source) is None {
        assert forall|i: int| 0 <= i < a.len() implies a[i] == b[i] by {
            lemma_unpaired(a, accepted_properties, source, i, a.len());
        }
        assert(a =~= b);
    }
}

/// Where no pair differs, pair `i` does not differ.
pub proof fn lemma_unpaired(
    accepted: Seq<OutlineEntry>,
    accepted_properties: Seq<Vec<(String, String)>>,
    source: SourceDocument,
    i: int,
    n: nat,
)
    requires
        0 <= i < n,
        first_paired(accepted, accepted_properties, source, n) is None,
    ensures
        paired_difference(accepted, accepted_properties, source, i) is None,
    decreases n,
{
    if i < n - 1 {
        lemma_unpaired(accepted, accepted_properties, source, i, (n - 1) as nat);
    }
}

/// A text occurs alone at one position only.
proof fn lemma_sole_unique(outline: Seq<OutlineEntry>, raw: Seq<u8>, k: int)
    requires
        is_sole(outline, raw, k),
    ensures
        sole_at(outline, raw) == Some(k),
{
    let other = choose|other: int| is_sole(outline, raw, other);
    assert(is_sole(outline, raw, other));
    if other != k {
        assert(outline[other].raw != raw);
    }
}

/// Where a text occurs in a file that occurs exactly once.
fn find_sole_in_source(blocks: &Vec<SourceBlock>, raw: &[u8]) -> (found: Option<usize>)
    ensures
        match sole_at(
            blocks@.map_values(
                |block: SourceBlock| OutlineEntry { locator: block.locator@, raw: block.raw@ },
            ),
            raw@,
        ) {
            Some(k) => found is Some && found->0 == k && 0 <= k < blocks@.len(),
            None => found is None,
        },
{
    let ghost outline = blocks@.map_values(
        |block: SourceBlock| OutlineEntry { locator: block.locator@, raw: block.raw@ },
    );
    let mut found: Option<usize> = None;
    let mut at: usize = 0;
    while at < blocks.len()
        invariant
            at <= blocks@.len(),
            outline == blocks@.map_values(
                |block: SourceBlock| OutlineEntry { locator: block.locator@, raw: block.raw@ },
            ),
            match found {
                None => forall|j: int| 0 <= j < at ==> (#[trigger] outline[j]).raw != raw@,
                Some(k) => k < at && outline[k as int].raw == raw@ && forall|j: int|
                    0 <= j < at && j != k ==> (#[trigger] outline[j]).raw != raw@,
            },
        decreases blocks@.len() - at,
    {
        assert(outline[at as int].raw == blocks@[at as int].raw@);
        if same_bytes(blocks[at].raw.as_slice(), raw) {
            if let Some(k) = found {
                proof {
                    assert forall|m: int| !is_sole(outline, raw@, m) by {
                        if is_sole(outline, raw@, m) {
                            if m != k {
                                assert(outline[k as int].raw != raw@);
                            } else {
                                assert(outline[at as int].raw != raw@);
                            }
                        }
                    }
                }
                return None;
            }
            found = Some(at);
        }
        at += 1;
    }
    proof {
        match found {
            Some(k) => {
                assert(is_sole(outline, raw@, k as int));
                lemma_sole_unique(outline, raw@, k as int);
            },
            None => {
                assert forall|m: int| !is_sole(outline, raw@, m) by {
                    if is_sole(outline, raw@, m) {
                        assert(outline[m].raw != raw@);
                    }
                }
            },
        }
    }
    found
}

/// Whether a text that occurs in a document occurs there only once.
fn is_sole_in_document(blocks: &Vec<DocBlock>, index: usize) -> (sole: bool)
    requires
        index < blocks@.len(),
    ensures
        sole == is_sole(
            blocks@.map_values(
                |block: DocBlock| OutlineEntry { locator: block.locator@, raw: block.raw@ },
            ),
            blocks@[index as int].raw@,
            index as int,
        ),
{
    let ghost outline = blocks@.map_values(
        |block: DocBlock| OutlineEntry { locator: block.locator@, raw: block.raw@ },
    );
    let ghost raw = blocks@[index as int].raw@;
    let mut at: usize = 0;
    while at < blocks.len()
        invariant
            at <= blocks@.len(),
            index < blocks@.len(),
            raw == blocks@[index as int].raw@,
            outline == blocks@.map_values(
                |block: DocBlock| OutlineEntry { locator: block.locator@, raw: block.raw@ },
            ),
            forall|j: int| 0 <= j < at && j != index ==> (#[trigger] outline[j]).raw != raw,
        decreases blocks@.len() - at,
    {
        assert(outline[at as int].raw == blocks@[at as int].raw@);
        if at != index && same_bytes(blocks[at].raw.as_slice(), blocks[index].raw.as_slice()) {
            return false;
        }
        at += 1;
    }
    true
}

/// The identities that the `id` properties of a block write.
fn explicit_block_ids(properties: &Vec<(String, String)>) -> (ids: Vec<String>)
    ensures
        ids@.map_values(|id: String| id@) == explicit_ids(properties@),
{
    let mut ids: Vec<String> = Vec::new();
    let mut at: usize = 0;
    assert(ids@.map_values(|id: String| id@) =~= explicit_ids(properties@.take(0)));
    while at < properties.len()
        invariant
            at <= properties@.len(),
            ids@.map_values(|id: String| id@) == explicit_ids(properties@.take(at as int)),
        decreases properties@.len() - at,
    {
        let ghost before = ids@;
        proof {
            assert(properties@.take(at + 1).drop_last() =~= properties@.take(at as int));
            assert(properties@.take(at + 1).last() == properties@[at as int]);
        }
        if same_text(properties[at].0.as_str(), "id") {
            let value = trim_text(properties[at].1.as_str());
            ids.push(value);
            assert(ids@.map_values(|id: String| id@) =~= before.map_values(|id: String| id@).push(
                trimmed(properties@[at as int].1@),
            ));
        }
        at += 1;
    }
    assert(properties@.take(at as int) =~= properties@);
    ids
}

/// Whether two lists of texts are the same.
fn same_texts(a: &Vec<String>, b: &Vec<String>) -> (same: bool)
    ensures
        same == (a@.map_values(|id: String| id@) == b@.map_values(|id: String| id@)),
{
    let ghost x = a@.map_values(|id: String| id@);
    let ghost y = b@.map_values(|id: String| id@);
    if a.len() != b.len() {
        assert(x.len() != y.len());
        return false;
    }
    let mut at: usize = 0;
    while at < a.len()
        invariant
            at <= a@.len(),
            a@.len() == b@.len(),
            x == a@.map_values(|id: String| id@),
            y == b@.map_values(|id: String| id@),
            forall|j: int| 0 <= j < at ==> #[trigger] x[j] == y[j],
        decreases a@.len() - at,
    {
        assert(x[at as int] == a@[at as int]@ && y[at as int] == b@[at as int]@);
        if !same_text(a[at].as_str(), b[at].as_str()) {
            return false;
        }
        at += 1;
    }
    assert(x =~= y);
    true
}

/// Whether a file says exactly what a document says.
pub fn check_same_document(source: &SourceDocument, document: &Document) -> (same: bool)
    ensures
        same == same_document(*source, *document),
{
    let ghost a = document_outline(*document);
    let ghost b = source_outline(*source);
    if !same_optional_text(&source.pre_block, &document.pre_block) {
        return false;
    }
    if source.blocks.len() != document.blocks.len() {
        assert(a.len() != b.len());
        return false;
    }
    let mut at: usize = 0;
    while at < source.blocks.len()
        invariant
            at <= source.blocks@.len(),
            source.blocks@.len() == document.blocks@.len(),
            a == document_outline(*document),
            b == source_outline(*source),
            forall|j: int| 0 <= j < at ==> #[trigger] a[j] == b[j],
        decreases source.blocks@.len() - at,
    {
        let x = &document.blocks[at];
        let y = &source.blocks[at];
        assert(a[at as int] == (OutlineEntry { locator: x.locator@, raw: x.raw@ }));
        assert(b[at as int] == (OutlineEntry { locator: y.locator@, raw: y.raw@ }));
        if !same_words(x.locator.as_slice(), y.locator.as_slice()) || !same_bytes(
            x.raw.as_slice(),
            y.raw.as_slice(),
        ) {
            return false;
        }
        at += 1;
    }
    assert(a =~= b);
    true
}

/// Compares the outline of a file with that of an accepted page, and reports the first useful
/// difference: the preamble, the number of blocks, a block whose unique text stands elsewhere, a
/// position, an identity in the text, or the text.
pub fn compare_exact_source_semantics(
    accepted: &Document,
    accepted_properties: &Vec<Vec<(String, String)>>,
    source: &SourceDocument,
) -> (compared: Result<(), ExactSourceSemanticDifference>)
    ensures
        match semantic_difference(*accepted, accepted_properties@, *source) {
            Some(difference) => compared is Err && compared->Err_0@ == difference,
            None => compared is Ok,
        },
{
    let ghost a = document_outline(*accepted);
    let ghost b = source_outline(*source);
    if check_same_document(source, accepted) {
        proof {
            law_no_difference_means_same_document(*accepted, accepted_properties@, *source);
        }
        return Ok(());
    }
    if !same_optional_text(&accepted.pre_block, &source.pre_block) {
        return Err(ExactSourceSemanticDifference::PreambleOrPageProperties);
    }
    if accepted.blocks.len() != source.blocks.len() {
        return Err(
            ExactSourceSemanticDifference::BlockCount {
                accepted: accepted.blocks.len(),
                source: source.blocks.len(),
            },
        );
    }
    let mut at: usize = 0;
    while at < accepted.blocks.len()
        invariant
            at <= accepted.blocks@.len(),
            accepted.blocks@.len() == source.blocks@.len(),
            a == document_outline(*accepted),
            b == source_outline(*source),
            optional_text(accepted.pre_block) == optional_text(source.pre_block),
            first_moved(a, b, at as nat) is None,
        decreases accepted.blocks@.len() - at,
    {
        proof {
            assert(first_moved(a, b, (at + 1) as nat) == moved_difference(a, b, at as int));
            if moved_difference(a, b, at as int) is Some {
                lemma_first_moved_stays(a, b, (at + 1) as nat, a.len());
            }
        }
        let block = &accepted.blocks[at];
        assert(a[at as int] == (OutlineEntry { locator: block.locator@, raw: block.raw@ }));
        let found = find_sole_in_source(&source.blocks, block.raw.as_slice());
        if let Some(k) = found {
            let sole = is_sole_in_document(&accepted.blocks, at);
            proof {
                if sole {
                    lemma_sole_unique(a, block.raw@, at as int);
                } else {
                    assert(sole_at(a, block.raw@) is None) by {
                        if sole_at(a, block.raw@) is Some {
                            let m = choose|m: int| is_sole(a, block.raw@, m);
                            assert(is_sole(a, block.raw@, m));
                            if m != at {
                                assert(a[at as int].raw != block.raw@);
                            }
                        }
                    }
                }
                assert(b[k as int] == (OutlineEntry {
                    locator: source.blocks@[k as int].locator@,
                    raw: source.blocks@[k as int].raw@,
                }));
            }
            if sole && !same_words(
                block.locator.as_slice(),
                source.blocks[k].locator.as_slice(),
            ) {
                return Err(
                    ExactSourceSemanticDifference::BlockOrderOrAncestry {
                        accepted_locator: copy_words(block.locator.as_slice()),
                        source_locator: copy_words(source.blocks[k].locator.as_slice()),
                    },
                );
            }
        }
        at += 1;
    }
    let mut next: usize = 0;
    while next < accepted.blocks.len()
        invariant
            next <= accepted.blocks@.len(),
            accepted.blocks@.len() == source.blocks@.len(),
            a == document_outline(*accepted),
            b == source_outline(*source),
            optional_text(accepted.pre_block) == optional_text(source.pre_block),
            first_moved(a, b, a.len()) is None,
            first_paired(a, accepted_properties@, *source, next as nat) is None,
        decreases accepted.blocks@.len() - next,
    {
        let x = &accepted.blocks[next];
        let y = &source.blocks[next];
        proof {
            let difference = paired_difference(a, accepted_properties@, *source, next as int);
            assert(a[next as int] == (OutlineEntry { locator: x.locator@, raw: x.raw@ }));
            assert(b[next as int] == (OutlineEntry { locator: y.locator@, raw: y.raw@ }));
            assert(first_paired(a, accepted_properties@, *source, (next + 1) as nat) == difference);
            if difference is Some {
                lemma_first_paired_stays(
                    a,
                    accepted_properties@,
                    *source,
                    (next + 1) as nat,
                    a.len(),
                );
            }
        }
        if !same_words(x.locator.as_slice(), y.locator.as_slice()) {
            return Err(
                ExactSourceSemanticDifference::BlockOrderOrAncestry {
                    accepted_locator: copy_words(x.locator.as_slice()),
                    source_locator: copy_words(y.locator.as_slice()),
                },
            );
        }
        if !same_bytes(x.raw.as_slice(), y.raw.as_slice()) {
            let accepted_ids = if next < accepted_properties.len() {
                explicit_block_ids(&accepted_properties[next])
            } else {
                let none: Vec<String> = Vec::new();
                assert(none@.map_values(|id: String| id@) =~= explicit_ids(Seq::empty()));
                none
            };
            let source_ids = explicit_block_ids(&y.properties);
            if !same_texts(&accepted_ids, &source_ids) {
                return Err(
                    ExactSourceSemanticDifference::ExplicitBlockIdentity {
                        locator: copy_words(x.locator.as_slice()),
                    },
                );
            }
            return Err(
                ExactSourceSemanticDifference::BlockContent {
                    locator: copy_words(x.locator.as_slice()),
                },
            );
        }
        next += 1;
    }
    Ok(())
}

} // verus!
