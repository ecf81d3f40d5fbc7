//! Which difference between a page and a file is told, and that it is one.

use vstd::prelude::*;

use crate::document::{DocBlockView, Document};
use crate::page::{optional_text, MaterializedPage};
use crate::plan::page_difference;
use crate::planning_laws::projected_outline;
use crate::semantics::{
    document_outline, explicit_ids, first_moved, first_paired, is_sole, moved_difference,
    paired_difference, properties_at, semantic_difference, sole_at, source_outline, OutlineEntry,
    SemanticDifferenceView, SourceDocument,
};
use crate::text::trimmed;

verus! {

/// Whether a block was moved: its text stands once on either side, at different positions.
pub open spec fn was_moved(
    accepted: Seq<OutlineEntry>,
    source: Seq<OutlineEntry>,
    i: int,
    j: int,
) -> bool {
    &&& is_sole(accepted, accepted[i].raw, i)
    &&& is_sole(source, accepted[i].raw, j)
    &&& accepted[i].locator != source[j].locator
}

/// Whether the blocks at `i` are at the same position and say different things.
pub open spec fn says_otherwise(
    accepted: Seq<OutlineEntry>,
    source: Seq<OutlineEntry>,
    i: int,
) -> bool {
    &&& 0 <= i < accepted.len()
    &&& i < source.len()
    &&& accepted[i].locator == source[i].locator
    &&& accepted[i].raw != source[i].raw
}

/// Whether a difference between two outlines of as many blocks is the one that it is told as.
pub open spec fn is_told(
    accepted: Seq<OutlineEntry>,
    properties: Seq<Vec<(String, String)>>,
    source: SourceDocument,
    difference: SemanticDifferenceView,
) -> bool {
    let other = source_outline(source);
    match difference {
        SemanticDifferenceView::BlockOrderOrAncestry { accepted_locator, source_locator } => {
            &&& accepted_locator != source_locator
            &&& exists|i: int, j: int|
                0 <= i < accepted.len() && 0 <= j < other.len() && (#[trigger] accepted[i]).locator
                    == accepted_locator && (#[trigger] other[j]).locator == source_locator && (i
                    == j || was_moved(accepted, other, i, j))
        },
        SemanticDifferenceView::ExplicitBlockIdentity { locator } => exists|i: int| #[trigger]
            says_otherwise(accepted, other, i) && accepted[i].locator == locator && explicit_ids(
                properties_at(properties, i),
            ) != explicit_ids(source.blocks@[i].properties@),
        SemanticDifferenceView::BlockContent { locator } => exists|i: int| #[trigger]
            says_otherwise(accepted, other, i) && accepted[i].locator == locator && explicit_ids(
                properties_at(properties, i),
            ) == explicit_ids(source.blocks@[i].properties@),
        _ => false,
    }
}

/// A text stands once at one place only.
proof fn lemma_sole(outline: Seq<OutlineEntry>, raw: Seq<u8>, k: int)
    requires
        is_sole(outline, raw, k),
    ensures
        sole_at(outline, raw) == Some(k),
{
    let other = choose|other: int| is_sole(outline, raw, other);
    assert(is_sole(outline, raw, other));
    if other != k {
        assert(outline[other].raw != raw);
    }
}

/// The first block found to be moved is one that was.
proof fn lemma_first_moved(
    accepted: Seq<OutlineEntry>,
    properties: Seq<Vec<(String, String)>>,
    source: SourceDocument,
    n: nat,
)
    requires
        n <= accepted.len(),
    ensures
        first_moved(accepted, source_outline(source), n) is Some ==> is_told(
            accepted,
            properties,
            source,
            first_moved(accepted, source_outline(source), n)->0,
        ) && first_moved(accepted, source_outline(source), n)->0 is BlockOrderOrAncestry,
        first_moved(accepted, source_outline(source), n) is None ==> forall|i: int, j: int|
            0 <= i < n ==> !#[trigger] was_moved(accepted, source_outline(source), i, j),
    decreases n,
{
    let other = source_outline(source);
    if n > 0 {
        lemma_first_moved(accepted, properties, source, (n - 1) as nat);
        let i = n - 1;
        let raw = accepted[i].raw;
        if moved_difference(accepted, other, i) is Some {
            let a = choose|a: int| is_sole(accepted, raw, a);
            let s = choose|s: int| is_sole(other, raw, s);
            assert(is_sole(accepted, raw, a) && is_sole(other, raw, s));
            if a != i {
                assert(accepted[i].raw != raw);
            }
            assert(was_moved(accepted, other, a, s));
            assert(accepted[a].locator == accepted[i].locator);
            assert(is_told(
                accepted,
                properties,
                source,
                moved_difference(accepted, other, i)->0,
            ));
        } else if first_moved(accepted, other, n) is None {
            assert forall|k: int, j: int| 0 <= k < n implies !#[trigger] was_moved(
                accepted,
                other,
                k,
                j,
            ) by {
                if k == i && was_moved(accepted, other, k, j) {
                    lemma_sole(accepted, raw, i);
                    lemma_sole(other, raw, j);
                }
            }
        }
    }
}

/// The first pair of blocks found to differ does.
proof fn lemma_first_paired(
    accepted: Seq<OutlineEntry>,
    properties: Seq<Vec<(String, String)>>,
    source: SourceDocument,
    n: nat,
)
    requires
        n <= accepted.len(),
        accepted.len() == source_outline(source).len(),
    ensures
        first_paired(accepted, properties, source, n) is Some ==> is_told(
            accepted,
            properties,
            source,
            first_paired(accepted, properties, source, n)->0,
        ),
        first_paired(accepted, properties, source, n) is None ==> forall|i: int|
            0 <= i < n ==> #[trigger] accepted[i] == source_outline(source)[i],
    decreases n,
{
    let other = source_outline(source);
    if n > 0 {
        lemma_first_paired(accepted, properties, source, (n - 1) as nat);
        let i = n - 1;
        if paired_difference(accepted, properties, source, i) is Some {
            if accepted[i].locator == other[i].locator {
                assert(says_otherwise(accepted, other, i));
            } else {
                assert(accepted[i].locator != other[i].locator);
            }
            assert(is_told(
                accepted,
                properties,
                source,
                paired_difference(accepted, properties, source, i)->0,
            ));
        } else {
            assert(accepted[i] == other[i]);
        }
    }
}

/// Whether what is told of a page and a file is right: nothing exactly where they have the same
/// preamble and outline; else the first that holds of different preambles, different numbers of
/// blocks, a block that was moved, and a block that differs from the one at its place.
pub open spec fn is_told_right(
    preamble: Option<Seq<u8>>,
    accepted: Seq<OutlineEntry>,
    properties: Seq<Vec<(String, String)>>,
    source: SourceDocument,
    told: Option<SemanticDifferenceView>,
) -> bool {
    let other = source_outline(source);
    if preamble != optional_text(source.pre_block) {
        told == Some(SemanticDifferenceView::PreambleOrPageProperties)
    } else if accepted.len() != other.len() {
        told == Some(
            SemanticDifferenceView::BlockCount { accepted: accepted.len(), source: other.len() },
        )
    } else {
        &&& told is None <==> accepted == other
        &&& told is Some ==> is_told(accepted, properties, source, told->0)
        &&& (exists|i: int, j: int|
            0 <= i < accepted.len() && #[trigger] was_moved(accepted, other, i, j))
            ==> told is Some && told->0 is BlockOrderOrAncestry
    }
}

/// What two outlines of as many blocks are told to differ in is right.
proof fn lemma_told_right(
    preamble: Option<Seq<u8>>,
    accepted: Seq<OutlineEntry>,
    properties: Seq<Vec<(String, String)>>,
    source: SourceDocument,
)
    requires
        preamble == optional_text(source.pre_block),
        accepted.len() == source_outline(source).len(),
    ensures
        is_told_right(
            preamble,
            accepted,
            properties,
            source,
            match first_moved(accepted, source_outline(source), accepted.len()) {
                Some(difference) => Some(difference),
                None => first_paired(accepted, properties, source, accepted.len()),
            },
        ),
{
    let other = source_outline(source);
    lemma_first_moved(accepted, properties, source, accepted.len());
    lemma_first_paired(accepted, properties, source, accepted.len());
    let moved = first_moved(accepted, other, accepted.len());
    let paired = first_paired(accepted, properties, source, accepted.len());
    if accepted == other {
        if moved is Some {
            let (i, j) = choose|i: int, j: int|
                0 <= i < accepted.len() && 0 <= j < other.len() && (#[trigger] accepted[i]).locator
                    == moved->0->accepted_locator && (#[trigger] other[j]).locator
                    == moved->0->source_locator && (i == j || was_moved(accepted, other, i, j));
            if i != j {
                assert(is_sole(accepted, accepted[i].raw, i));
                assert(accepted[j].raw != accepted[i].raw);
            }
        }
        if moved is None && paired is Some {
            lemma_same_outline(accepted, properties, source, paired->0);
        }
    }
    if moved is None && paired is None {
        assert(accepted =~= other);
    }
}

/// Nothing is told of outlines that are the same.
proof fn lemma_same_outline(
    accepted: Seq<OutlineEntry>,
    properties: Seq<Vec<(String, String)>>,
    source: SourceDocument,
    difference: SemanticDifferenceView,
)
    requires
        accepted == source_outline(source),
    ensures
        !is_told(accepted, properties, source, difference),
{
    let other = source_outline(source);
    assert forall|i: int| !#[trigger] says_otherwise(accepted, other, i) by {}
    assert forall|i: int, j: int| !#[trigger] was_moved(accepted, other, i, j) by {
        if was_moved(accepted, other, i, j) && i != j {
            assert(is_sole(accepted, accepted[i].raw, i));
            assert(accepted[j].raw != accepted[i].raw);
        }
    }
}

/// What is told of a page and a file is right, and nothing is told exactly where the file says what
/// the page says.
pub proof fn law_page_differs_as_it_is_told(
    page: MaterializedPage,
    blocks: Seq<DocBlockView>,
    properties: Seq<Vec<(String, String)>>,
    source: SourceDocument,
)
    ensures
        is_told_right(
            optional_text(page.preamble),
            projected_outline(blocks),
            properties,
            source,
            page_difference(page, blocks, properties, source),
        ),
{
    let accepted = projected_outline(blocks);
    if optional_text(page.preamble) == optional_text(source.pre_block) && accepted.len()
        == source_outline(source).len() {
        lemma_told_right(optional_text(page.preamble), accepted, properties, source);
    }
}

/// What is told of a document and a file is right, and nothing is told exactly where the file says
/// what the document says.
pub proof fn law_document_differs_as_it_is_told(
    document: Document,
    properties: Seq<Vec<(String, String)>>,
    source: SourceDocument,
)
    ensures
        is_told_right(
            optional_text(document.pre_block),
            document_outline(document),
            properties,
            source,
            semantic_difference(document, properties, source),
        ),
{
    let accepted = document_outline(document);
    if optional_text(document.pre_block) == optional_text(source.pre_block) && accepted.len()
        == source_outline(source).len() {
        lemma_told_right(optional_text(document.pre_block), accepted, properties, source);
    }
}

/// The identities that a block states are the values of its properties named exactly `id`, in their
/// order, without the white space round them.
pub proof fn law_stated_identities_are_the_id_properties(
    before: Seq<(String, String)>,
    property: (String, String),
)
    ensures
        explicit_ids(Seq::empty()) == Seq::<Seq<char>>::empty(),
        property.0@.len() == 2 && property.0@[0] == 'i' && property.0@[1] == 'd' ==> explicit_ids(
            before.push(property),
        ) == explicit_ids(before).push(trimmed(property.1@)),
        property.0@.len() != 2 || property.0@[0] != 'i' || property.0@[1] != 'd' ==> explicit_ids(
            before.push(property),
        ) == explicit_ids(before),
{
    reveal_strlit("id");
    assert(before.push(property).drop_last() =~= before);
    if property.0@.len() == 2 && property.0@[0] == 'i' && property.0@[1] == 'd' {
        assert(property.0@ =~= "id"@);
    }
}

} // verus!
