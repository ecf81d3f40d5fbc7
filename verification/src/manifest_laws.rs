//! What holds of manifested projection objects as a whole.

use vstd::prelude::*;

use crate::manifest::{
    intent_decoded, intent_magic, ManifestedProjectionIntentWire, ParsedProjectionIntent,
    MAX_MANIFESTED_PROJECTION_BYTES,
};
use crate::manifest::base_magic;
use crate::manifest::MAX_ANNOTATED_BASE_BYTES;
use crate::manifest_base::{base_decoded, AnnotatedProjectionBaseWire, ParsedAnnotatedBase};
use crate::manifest_check::{frame_length, starts_with};
use crate::manifest_error::ProjectionManifestError;
use crate::manifest_set::{
    insert_intent, intent_before, intent_bound, intents_fault, is_referenced, object_set_verdict,
    references_fault, same_intent_key, scan_objects, sorted_intents, OperationBatch,
    OperationObject, ScannedObjects,
};
use crate::order::{bytes_before, lemma_bytes_asymmetric, lemma_bytes_total, lemma_bytes_transitive};

verus! {

/// Decoding what was encoded gives the same intent back.
pub proof fn law_intent_round_trip(fields: ManifestedProjectionIntentWire, body: Vec<u8>)
    requires
        fields.check() is Ok,
        frame_length(intent_magic(), body@) <= MAX_MANIFESTED_PROJECTION_BYTES,
    ensures
        intent_decoded(
            intent_magic() + body@,
            (ParsedProjectionIntent { fields: Ok(fields), body: Ok(body) }),
        ) == Ok::<_, ProjectionManifestError>(fields),
{
    let bytes = intent_magic() + body@;
    assert(bytes.take(8) =~= intent_magic());
}

/// An intent has one encoding: what decodes is the frame of its own canonical body.
pub proof fn law_intent_encoding_is_canonical(bytes: Seq<u8>, parsed: ParsedProjectionIntent)
    requires
        intent_decoded(bytes, parsed) is Ok,
    ensures
        parsed.fields is Ok,
        intent_decoded(bytes, parsed)->Ok_0 == parsed.fields->Ok_0,
        parsed.fields->Ok_0.check() is Ok,
        parsed.body is Ok,
        bytes == intent_magic() + parsed.body->Ok_0@,
        bytes.len() <= MAX_MANIFESTED_PROJECTION_BYTES,
{
}

/// Decoding what was encoded gives the same base back.
pub proof fn law_base_round_trip(fields: AnnotatedProjectionBaseWire, body: Vec<u8>)
    requires
        fields.check() is Ok,
        frame_length(base_magic(), body@) <= MAX_ANNOTATED_BASE_BYTES,
    ensures
        base_decoded(
            base_magic() + body@,
            (ParsedAnnotatedBase { fields: Ok(fields), body: Ok(body) }),
        ) == Ok::<_, ProjectionManifestError>(fields),
{
    let bytes = base_magic() + body@;
    assert(bytes.take(8) =~= base_magic());
}

/// A base has one encoding: what decodes is the frame of its own canonical body.
pub proof fn law_base_encoding_is_canonical(bytes: Seq<u8>, parsed: ParsedAnnotatedBase)
    requires
        base_decoded(bytes, parsed) is Ok,
    ensures
        parsed.fields is Ok,
        base_decoded(bytes, parsed)->Ok_0 == parsed.fields->Ok_0,
        parsed.fields->Ok_0.check() is Ok,
        parsed.body is Ok,
        bytes == base_magic() + parsed.body->Ok_0@,
        bytes.len() <= MAX_ANNOTATED_BASE_BYTES,
{
}

/// An encoded intent is never taken for an encoded base, nor the other way round.
pub proof fn law_intents_and_bases_are_told_apart(
    bytes: Seq<u8>,
    intent: ParsedProjectionIntent,
    base: ParsedAnnotatedBase,
)
    ensures
        !(intent_decoded(bytes, intent) is Ok && base_decoded(bytes, base) is Ok),
{
    if starts_with(bytes, intent_magic()) && starts_with(bytes, base_magic()) {
        assert(intent_magic()[6] == base_magic()[6]);
    }
}

/// Whether every intent and base that was scanned is acceptable by itself, and the intents differ.
spec fn scan_inv(batch: OperationBatch, scanned: ScannedObjects) -> bool {
    &&& forall|i: int|
        0 <= i < scanned.intents.len() ==> intent_bound(batch, #[trigger] scanned.intents[i])
            && scanned.intents[i].check() is Ok
    &&& forall|i: int, j: int|
        0 <= i < j < scanned.intents.len() ==> !same_intent_key(
            #[trigger] scanned.intents[i],
            #[trigger] scanned.intents[j],
        )
    &&& forall|document: u128| #[trigger]
        scanned.bases.dom().contains(document) ==> scanned.bases[document].workspace_id
            == batch.workspace_id && scanned.bases[document].check() is Ok
}

/// Scanning keeps every intent and base acceptable.
proof fn lemma_scan_inv(batch: OperationBatch, objects: Seq<OperationObject>)
    requires
        scan_objects(batch, objects) is Ok,
    ensures
        scan_inv(batch, scan_objects(batch, objects)->Ok_0),
    decreases objects.len(),
{
    if objects.len() > 0 {
        lemma_scan_inv(batch, objects.drop_last());
    }
}

/// Whether no intent comes before one that stands in front of it.
pub open spec fn intents_ascend(intents: Seq<ManifestedProjectionIntentWire>) -> bool {
    forall|i: int, j: int|
        0 <= i < j < intents.len() ==> !intent_before(
            #[trigger] intents[j],
            #[trigger] intents[i],
        )
}

/// Not coming before is transitive.
proof fn lemma_not_before_transitive(
    a: ManifestedProjectionIntentWire,
    b: ManifestedProjectionIntentWire,
    c: ManifestedProjectionIntentWire,
)
    requires
        !intent_before(b, a),
        !intent_before(c, b),
    ensures
        !intent_before(c, a),
{
    let (x, y, z) = (
        vstd::utf8::encode_utf8(a.path.text@),
        vstd::utf8::encode_utf8(b.path.text@),
        vstd::utf8::encode_utf8(c.path.text@),
    );
    if intent_before(c, a) {
        assert(bytes_before(z, x));
        if x != y {
            lemma_bytes_total(x, y);
        }
        if y != z {
            lemma_bytes_total(y, z);
        }
        if x == y {
            if y != z {
                lemma_bytes_asymmetric(y, z);
            } else {
                lemma_bytes_asymmetric(z, x);
            }
        } else if y == z {
            lemma_bytes_asymmetric(x, y);
        } else {
            lemma_bytes_transitive(x, y, z);
            lemma_bytes_asymmetric(x, z);
        }
    }
}

/// An intent does not come before one that comes before it.
pub proof fn lemma_before_asymmetric(
    a: ManifestedProjectionIntentWire,
    b: ManifestedProjectionIntentWire,
)
    requires
        intent_before(a, b),
    ensures
        !intent_before(b, a),
{
    let (x, y) = (
        vstd::utf8::encode_utf8(a.path.text@),
        vstd::utf8::encode_utf8(b.path.text@),
    );
    if bytes_before(x, y) {
        lemma_bytes_asymmetric(x, y);
    }
}

/// Whether `intent` does not come before any of `intents`.
spec fn none_after(
    intents: Seq<ManifestedProjectionIntentWire>,
    intent: ManifestedProjectionIntentWire,
) -> bool {
    forall|i: int| 0 <= i < intents.len() ==> !intent_before(intent, #[trigger] intents[i])
}

/// Inserting keeps the order and adds exactly the intent.
proof fn lemma_insert_intent(
    intents: Seq<ManifestedProjectionIntentWire>,
    intent: ManifestedProjectionIntentWire,
)
    requires
        intents_ascend(intents),
    ensures
        intents_ascend(insert_intent(intents, intent)),
        insert_intent(intents, intent).to_multiset() == intents.to_multiset().insert(intent),
        forall|top: ManifestedProjectionIntentWire|
            #[trigger] none_after(intents, top) && !intent_before(top, intent) ==> none_after(
                insert_intent(intents, intent),
                top,
            ),
    decreases intents.len(),
{
    broadcast use vstd::seq_lib::group_to_multiset_ensures;

    if intents.len() > 0 && intent_before(intent, intents.last()) {
        let front = intents.drop_last();
        let last = intents.last();
        lemma_insert_intent(front, intent);
        let grown = insert_intent(front, intent);
        assert(intents =~= front.push(last));
        assert(insert_intent(intents, intent).to_multiset() =~= intents.to_multiset().insert(
            intent,
        ));
        assert forall|i: int| 0 <= i < front.len() implies !intent_before(
            last,
            #[trigger] front[i],
        ) by {
            assert(front[i] == intents[i]);
            assert(last == intents[intents.len() - 1]);
        }
        assert(none_after(front, last));
        lemma_before_asymmetric(intent, last);
        assert(none_after(grown, last));
        assert forall|top: ManifestedProjectionIntentWire| #[trigger]
            none_after(intents, top) && !intent_before(top, intent) implies none_after(
            insert_intent(intents, intent),
            top,
        ) by {
            assert forall|i: int| 0 <= i < front.len() implies !intent_before(
                top,
                #[trigger] front[i],
            ) by {
                assert(front[i] == intents[i]);
            }
            assert(none_after(front, top));
            assert(none_after(grown, top));
            assert(!intent_before(top, intents[intents.len() - 1]));
        }
    } else {
        assert(insert_intent(intents, intent) =~= intents.push(intent));
        assert forall|i: int| 0 <= i < intents.len() implies !intent_before(
            intent,
            #[trigger] intents[i],
        ) by {
            if i < intents.len() - 1 {
                assert(!intent_before(intents[intents.len() - 1], intents[i]));
                lemma_not_before_transitive(intents[i], intents.last(), intent);
            }
        }
    }
}

/// Sorting only reorders intents, so that none comes before one in front of it.
pub proof fn lemma_sorted_intents(intents: Seq<ManifestedProjectionIntentWire>)
    ensures
        intents_ascend(sorted_intents(intents)),
        sorted_intents(intents).to_multiset() == intents.to_multiset(),
    decreases intents.len(),
{
    broadcast use vstd::seq_lib::group_to_multiset_ensures;

    if intents.len() > 0 {
        lemma_sorted_intents(intents.drop_last());
        lemma_insert_intent(sorted_intents(intents.drop_last()), intents.last());
        assert(intents =~= intents.drop_last().push(intents.last()));
    }
}

/// Two intents with different endpoint, page or path are in order one way or the other.
proof fn lemma_before_total(a: ManifestedProjectionIntentWire, b: ManifestedProjectionIntentWire)
    requires
        !same_intent_key(a, b),
    ensures
        intent_before(a, b) || intent_before(b, a),
{
    let (x, y) = (
        vstd::utf8::encode_utf8(a.path.text@),
        vstd::utf8::encode_utf8(b.path.text@),
    );
    if a.source_endpoint_id == b.source_endpoint_id && a.page_id == b.page_id {
        if x == y {
            crate::text::lemma_utf8_injective(a.path.text@, b.path.text@);
        }
        lemma_bytes_total(x, y);
    }
}

/// A list without equal keys has none after reordering.
proof fn lemma_keys_differ(
    intents: Seq<ManifestedProjectionIntentWire>,
    sorted: Seq<ManifestedProjectionIntentWire>,
    i: int,
    j: int,
)
    requires
        intents.to_multiset() == sorted.to_multiset(),
        0 <= i < j < sorted.len(),
        forall|a: int, b: int|
            0 <= a < b < intents.len() ==> !same_intent_key(
                #[trigger] intents[a],
                #[trigger] intents[b],
            ),
    ensures
        !same_intent_key(sorted[i], sorted[j]),
{
    broadcast use vstd::seq_lib::group_to_multiset_ensures;

    let (x, y) = (sorted[i], sorted[j]);
    assert(sorted.contains(x) && sorted.contains(y));
    assert(sorted.to_multiset().count(x) > 0);
    assert(sorted.to_multiset().count(y) > 0);
    assert(intents.contains(x) && intents.contains(y));
    let a = choose|a: int| 0 <= a < intents.len() && intents[a] == x;
    let b = choose|b: int| 0 <= b < intents.len() && intents[b] == y;
    if a < b {
        assert(!same_intent_key(intents[a], intents[b]));
    } else if b < a {
        assert(!same_intent_key(intents[b], intents[a]));
    } else {
        lemma_repeated_count(sorted, i, j);
        lemma_single_count(intents, a);
    }
}

/// An element at two positions counts twice.
proof fn lemma_repeated_count(s: Seq<ManifestedProjectionIntentWire>, i: int, j: int)
    requires
        0 <= i < j < s.len(),
        s[i] == s[j],
    ensures
        s.to_multiset().count(s[i]) >= 2,
{
    broadcast use vstd::seq_lib::group_to_multiset_ensures;

    let rest = s.remove(j);
    assert(rest[i] == s[i]);
    assert(rest.contains(s[i]));
    assert(rest.to_multiset().count(s[i]) > 0);
    assert(s =~= rest.insert(j, s[j]));
    assert(s.to_multiset() =~= rest.to_multiset().insert(s[j]));
}

/// An element whose key no other position has counts once.
proof fn lemma_single_count(s: Seq<ManifestedProjectionIntentWire>, a: int)
    requires
        0 <= a < s.len(),
        forall|x: int, y: int|
            0 <= x < y < s.len() ==> !same_intent_key(#[trigger] s[x], #[trigger] s[y]),
    ensures
        s.to_multiset().count(s[a]) == 1,
{
    broadcast use vstd::seq_lib::group_to_multiset_ensures;

    let rest = s.remove(a);
    assert(s =~= rest.insert(a, s[a]));
    assert(s.to_multiset() =~= rest.to_multiset().insert(s[a]));
    if rest.contains(s[a]) {
        let k = choose|k: int| 0 <= k < rest.len() && rest[k] == s[a];
        if k < a {
            assert(same_intent_key(s[k], s[a]));
        } else {
            assert(rest[k] == s[k + 1]);
            assert(same_intent_key(s[a], s[k + 1]));
        }
    }
    assert(rest.to_multiset().count(s[a]) == 0);
}

/// In an accepted set every intent names the batch, no two intents share endpoint, page and path,
/// the intents stand in that order, every reference finds a base of the same endpoint and page,
/// every base is of the batch's workspace, and some intent refers to it.
pub proof fn law_accepted_sets_are_closed(batch: OperationBatch, objects: Seq<OperationObject>)
    requires
        object_set_verdict(batch, objects) is Ok,
    ensures
        ({
            let set = object_set_verdict(batch, objects)->Ok_0;
            &&& forall|i: int|
                0 <= i < set.intents.len() ==> intent_bound(batch, #[trigger] set.intents[i])
                    && set.intents[i].check() is Ok && references_fault(
                    batch,
                    set.bases,
                    set.intents[i],
                ) is None
            &&& forall|i: int, j: int|
                0 <= i < j < set.intents.len() ==> intent_before(
                    #[trigger] set.intents[i],
                    #[trigger] set.intents[j],
                )
            &&& forall|document: u128| #[trigger]
                set.bases.dom().contains(document) ==> set.bases[document].check() is Ok
                    && set.bases[document].workspace_id == batch.workspace_id && is_referenced(
                    set.intents,
                    document,
                )
        }),
{
    broadcast use vstd::seq_lib::group_to_multiset_ensures;

    let scanned = scan_objects(batch, objects)->Ok_0;
    let set = object_set_verdict(batch, objects)->Ok_0;
    lemma_scan_inv(batch, objects);
    lemma_sorted_intents(scanned.intents);
    assert forall|i: int| 0 <= i < set.intents.len() implies scanned.intents.contains(
        #[trigger] set.intents[i],
    ) by {
        assert(set.intents.contains(set.intents[i]));
        assert(set.intents.to_multiset().count(set.intents[i]) > 0);
    }
    assert forall|i: int| 0 <= i < set.intents.len() implies intent_bound(
        batch,
        #[trigger] set.intents[i],
    ) && set.intents[i].check() is Ok && references_fault(
        batch,
        set.bases,
        set.intents[i],
    ) is None by {
        assert(scanned.intents.contains(set.intents[i]));
        let k = choose|k: int|
            0 <= k < scanned.intents.len() && scanned.intents[k] == set.intents[i];
        lemma_no_fault(batch, scanned, k, scanned.intents.len());
    }
    assert forall|i: int, j: int| 0 <= i < j < set.intents.len() implies intent_before(
        #[trigger] set.intents[i],
        #[trigger] set.intents[j],
    ) by {
        lemma_keys_differ(scanned.intents, set.intents, i, j);
        lemma_before_total(set.intents[i], set.intents[j]);
    }
    assert forall|document: u128| #[trigger]
        set.bases.dom().contains(document) implies set.bases[document].check() is Ok
        && set.bases[document].workspace_id == batch.workspace_id && is_referenced(
        set.intents,
        document,
    ) by {
        assert(is_referenced(scanned.intents, document));
        let k = choose|k: int|
            0 <= k < scanned.intents.len() && crate::manifest_set::intent_refers(
                #[trigger] scanned.intents[k],
                document,
            );
        let intent = scanned.intents[k];
        assert(scanned.intents.contains(intent));
        assert(set.intents.to_multiset().count(intent) > 0);
        assert(set.intents.contains(intent));
        let i = choose|i: int| 0 <= i < set.intents.len() && set.intents[i] == intent;
        assert(crate::manifest_set::intent_refers(set.intents[i], document));
    }
}

/// Where no intent has a faulty reference, intent `k` has none.
pub proof fn lemma_no_fault(batch: OperationBatch, scanned: ScannedObjects, k: int, n: nat)
    requires
        0 <= k < n,
        intents_fault(batch, scanned.bases, scanned.intents, n) is None,
    ensures
        references_fault(batch, scanned.bases, scanned.intents[k]) is None,
    decreases n,
{
    if k < n - 1 {
        lemma_no_fault(batch, scanned, k, (n - 1) as nat);
    }
}

} // verus!
