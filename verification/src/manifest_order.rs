//! Accepting the objects of a batch does not depend on the order in which they are listed.

use vstd::prelude::*;

use crate::manifest::ManifestedProjectionIntentWire;
use crate::manifest_error::ProjectionManifestError;
use crate::manifest_laws::{
    law_accepted_sets_are_closed, lemma_before_asymmetric, lemma_no_fault, lemma_sorted_intents,
};
use crate::manifest_set::{
    has_orphan, intent_before, intent_refers, intents_fault, is_referenced, object_set_verdict,
    references_fault, same_intent_key, scan_object, scan_objects, sorted_intents, OperationBatch,
    OperationObject, ScannedObjects,
};

verus! {

/// What is scanned before any object.
spec fn nothing_scanned() -> ScannedObjects {
    ScannedObjects { intents: Seq::empty(), bases: Map::empty() }
}

/// What an object holds by itself, or why it is refused by itself.
spec fn own(batch: OperationBatch, object: OperationObject) -> Result<
    ScannedObjects,
    ProjectionManifestError,
> {
    scan_object(batch, nothing_scanned(), object)
}

/// Whether two objects do not hold the same base, nor intents for the same place.
spec fn go_together(a: ScannedObjects, b: ScannedObjects) -> bool {
    &&& forall|x: ManifestedProjectionIntentWire, y: ManifestedProjectionIntentWire|
        #[trigger] a.intents.contains(x) && #[trigger] b.intents.contains(y) ==> !same_intent_key(
            x,
            y,
        )
    &&& forall|document: u128| #[trigger]
        a.bases.dom().contains(document) ==> !b.bases.dom().contains(document)
}

/// Whether what was scanned is what the given objects hold.
spec fn holds_all(
    batch: OperationBatch,
    objects: Seq<OperationObject>,
    scanned: ScannedObjects,
) -> bool {
    &&& forall|i: int| 0 <= i < objects.len() ==> own(batch, #[trigger] objects[i]) is Ok
    &&& forall|i: int, j: int|
        0 <= i < j < objects.len() ==> go_together(
            own(batch, #[trigger] objects[i])->Ok_0,
            own(batch, #[trigger] objects[j])->Ok_0,
        )
    &&& forall|intent: ManifestedProjectionIntentWire| #[trigger]
        scanned.intents.contains(intent) <==> exists|i: int|
            0 <= i < objects.len() && own(batch, #[trigger] objects[i])->Ok_0.intents.contains(
                intent,
            )
    &&& forall|document: u128| #[trigger]
        scanned.bases.dom().contains(document) <==> exists|i: int|
            0 <= i < objects.len() && own(
                batch,
                #[trigger] objects[i],
            )->Ok_0.bases.dom().contains(document)
    &&& forall|i: int, document: u128|
        0 <= i < objects.len() && #[trigger] own(
            batch,
            objects[i],
        )->Ok_0.bases.dom().contains(document) ==> scanned.bases[document] == own(
            batch,
            objects[i],
        )->Ok_0.bases[document]
}

/// One more object is scanned exactly where it is fine by itself and goes together with what was
/// scanned; it then adds what it holds.
proof fn lemma_scan_object(batch: OperationBatch, scanned: ScannedObjects, object: OperationObject)
    ensures
        scan_object(batch, scanned, object) is Ok <==> own(batch, object) is Ok && go_together(
            scanned,
            own(batch, object)->Ok_0,
        ),
        scan_object(batch, scanned, object) is Ok ==> scan_object(
            batch,
            scanned,
            object,
        )->Ok_0.intents == scanned.intents + own(batch, object)->Ok_0.intents && scan_object(
            batch,
            scanned,
            object,
        )->Ok_0.bases == scanned.bases.union_prefer_right(own(batch, object)->Ok_0.bases),
{
    let alone = own(batch, object);
    let after = scan_object(batch, scanned, object);
    if alone is Ok {
        let held = alone->Ok_0;
        if held.intents.len() > 0 {
            let intent = held.intents[0];
            assert(held.intents =~= seq![intent]);
            assert(held.intents.contains(intent));
            assert(held.bases =~= Map::empty());
            assert(scanned.intents.push(intent) =~= scanned.intents + held.intents);
            assert(scanned.bases.union_prefer_right(held.bases) =~= scanned.bases);
            if after is Ok {
                assert forall|x: ManifestedProjectionIntentWire, y: ManifestedProjectionIntentWire|
                    #[trigger] scanned.intents.contains(x) && #[trigger] held.intents.contains(
                        y,
                    ) implies !same_intent_key(x, y) by {
                    let k = choose|k: int| 0 <= k < scanned.intents.len() && scanned.intents[k]
                        == x;
                    assert(!same_intent_key(scanned.intents[k], intent));
                    assert(y == intent);
                }
            } else {
                let k = choose|k: int|
                    0 <= k < scanned.intents.len() && same_intent_key(
                        #[trigger] scanned.intents[k],
                        intent,
                    );
                assert(scanned.intents.contains(scanned.intents[k]));
            }
        } else {
            assert(held.intents =~= Seq::empty());
            assert(scanned.intents + held.intents =~= scanned.intents);
            assert(scanned.bases.union_prefer_right(Map::empty()) =~= scanned.bases);
            let document = object.document_id.uuid.value;
            if held.bases.dom().contains(document) {
                assert(held.bases =~= Map::empty().insert(document, held.bases[document]));
                assert(scanned.bases.union_prefer_right(held.bases) =~= scanned.bases.insert(
                    document,
                    held.bases[document],
                ));
            } else {
                assert(held.bases =~= Map::empty());
            }
        }
    }
}

/// Scanned objects hold what each holds, and go together.
proof fn lemma_scanned(batch: OperationBatch, objects: Seq<OperationObject>)
    requires
        scan_objects(batch, objects) is Ok,
    ensures
        holds_all(batch, objects, scan_objects(batch, objects)->Ok_0),
    decreases objects.len(),
{
    if objects.len() > 0 {
        let front = objects.drop_last();
        let last = objects.len() - 1;
        let before = scan_objects(batch, front)->Ok_0;
        let after = scan_objects(batch, objects)->Ok_0;
        lemma_scanned(batch, front);
        lemma_scan_object(batch, before, objects.last());
        let held = own(batch, objects[last])->Ok_0;
        assert forall|i: int| 0 <= i < objects.len() implies own(
            batch,
            #[trigger] objects[i],
        ) is Ok by {
            if i < last {
                assert(front[i] == objects[i]);
            }
        }
        assert forall|i: int, j: int| 0 <= i < j < objects.len() implies go_together(
            own(batch, #[trigger] objects[i])->Ok_0,
            own(batch, #[trigger] objects[j])->Ok_0,
        ) by {
            assert(front[i] == objects[i]);
            if j < last {
                assert(front[j] == objects[j]);
            } else {
                let other = own(batch, front[i])->Ok_0;
                assert forall|x: ManifestedProjectionIntentWire, y: ManifestedProjectionIntentWire|
                    #[trigger] other.intents.contains(x) && #[trigger] held.intents.contains(
                        y,
                    ) implies !same_intent_key(x, y) by {
                    assert(before.intents.contains(x));
                }
                assert forall|document: u128| #[trigger]
                    other.bases.dom().contains(document) implies !held.bases.dom().contains(
                    document,
                ) by {
                    assert(before.bases.dom().contains(document));
                }
            }
        }
        assert forall|intent: ManifestedProjectionIntentWire| #[trigger]
            after.intents.contains(intent) <==> exists|i: int|
                0 <= i < objects.len() && own(batch, #[trigger] objects[i])->Ok_0.intents.contains(
                    intent,
                ) by {
            if after.intents.contains(intent) {
                let k = choose|k: int| 0 <= k < after.intents.len() && after.intents[k] == intent;
                if k < before.intents.len() {
                    assert(before.intents[k] == intent);
                    assert(before.intents.contains(intent));
                    let i = choose|i: int|
                        0 <= i < front.len() && own(
                            batch,
                            #[trigger] front[i],
                        )->Ok_0.intents.contains(intent);
                    assert(objects[i] == front[i]);
                } else {
                    assert(held.intents[k - before.intents.len()] == intent);
                    assert(own(batch, objects[last])->Ok_0.intents.contains(intent));
                }
            }
            if exists|i: int|
                0 <= i < objects.len() && own(batch, #[trigger] objects[i])->Ok_0.intents.contains(
                    intent,
                ) {
                let i = choose|i: int|
                    0 <= i < objects.len() && own(
                        batch,
                        #[trigger] objects[i],
                    )->Ok_0.intents.contains(intent);
                if i < last {
                    assert(front[i] == objects[i]);
                    assert(before.intents.contains(intent));
                    let k = choose|k: int|
                        0 <= k < before.intents.len() && before.intents[k] == intent;
                    assert(after.intents[k] == intent);
                } else {
                    let k = choose|k: int| 0 <= k < held.intents.len() && held.intents[k] == intent;
                    assert(after.intents[before.intents.len() + k] == intent);
                }
            }
        }
        assert forall|document: u128| #[trigger]
            after.bases.dom().contains(document) <==> exists|i: int|
                0 <= i < objects.len() && own(
                    batch,
                    #[trigger] objects[i],
                )->Ok_0.bases.dom().contains(document) by {
            if after.bases.dom().contains(document) {
                if before.bases.dom().contains(document) {
                    let i = choose|i: int|
                        0 <= i < front.len() && own(
                            batch,
                            #[trigger] front[i],
                        )->Ok_0.bases.dom().contains(document);
                    assert(objects[i] == front[i]);
                } else {
                    assert(own(batch, objects[last])->Ok_0.bases.dom().contains(document));
                }
            }
            if exists|i: int|
                0 <= i < objects.len() && own(
                    batch,
                    #[trigger] objects[i],
                )->Ok_0.bases.dom().contains(document) {
                let i = choose|i: int|
                    0 <= i < objects.len() && own(
                        batch,
                        #[trigger] objects[i],
                    )->Ok_0.bases.dom().contains(document);
                if i < last {
                    assert(front[i] == objects[i]);
                    assert(before.bases.dom().contains(document));
                }
            }
        }
        assert forall|i: int, document: u128|
            0 <= i < objects.len() && #[trigger] own(
                batch,
                objects[i],
            )->Ok_0.bases.dom().contains(document) implies after.bases[document] == own(
            batch,
            objects[i],
        )->Ok_0.bases[document] by {
            if i < last {
                assert(front[i] == objects[i]);
                assert(own(batch, front[i])->Ok_0.bases.dom().contains(document));
                assert(before.bases.dom().contains(document));
                assert(!held.bases.dom().contains(document));
            }
        }
    }
}

/// Objects that are fine by themselves and go together are scanned.
proof fn lemma_scans(batch: OperationBatch, objects: Seq<OperationObject>)
    requires
        forall|i: int| 0 <= i < objects.len() ==> own(batch, #[trigger] objects[i]) is Ok,
        forall|i: int, j: int|
            0 <= i < j < objects.len() ==> go_together(
                own(batch, #[trigger] objects[i])->Ok_0,
                own(batch, #[trigger] objects[j])->Ok_0,
            ),
    ensures
        scan_objects(batch, objects) is Ok,
    decreases objects.len(),
{
    if objects.len() > 0 {
        let front = objects.drop_last();
        let last = objects.len() - 1;
        lemma_scans(batch, front);
        lemma_scanned(batch, front);
        let before = scan_objects(batch, front)->Ok_0;
        let held = own(batch, objects[last])->Ok_0;
        assert forall|x: ManifestedProjectionIntentWire, y: ManifestedProjectionIntentWire|
            #[trigger] before.intents.contains(x) && #[trigger] held.intents.contains(
                y,
            ) implies !same_intent_key(x, y) by {
            let i = choose|i: int|
                0 <= i < front.len() && own(batch, #[trigger] front[i])->Ok_0.intents.contains(x);
            assert(objects[i] == front[i]);
            assert(go_together(own(batch, objects[i])->Ok_0, own(batch, objects[last])->Ok_0));
        }
        assert forall|document: u128| #[trigger]
            before.bases.dom().contains(document) implies !held.bases.dom().contains(
            document,
        ) by {
            let i = choose|i: int|
                0 <= i < front.len() && own(
                    batch,
                    #[trigger] front[i],
                )->Ok_0.bases.dom().contains(document);
            assert(objects[i] == front[i]);
            assert(go_together(own(batch, objects[i])->Ok_0, own(batch, objects[last])->Ok_0));
        }
        lemma_scan_object(batch, before, objects[last]);
    }
}

/// Two objects that go together do so either way round.
proof fn lemma_together_symmetric(a: ScannedObjects, b: ScannedObjects)
    requires
        go_together(a, b),
    ensures
        go_together(b, a),
{
    assert forall|x: ManifestedProjectionIntentWire, y: ManifestedProjectionIntentWire|
        #[trigger] b.intents.contains(x) && #[trigger] a.intents.contains(
            y,
        ) implies !same_intent_key(x, y) by {
        assert(!same_intent_key(y, x));
    }
}

/// Whether `second` lists the objects of `first` in the order that `order` gives.
pub open spec fn lists_again(
    first: Seq<OperationObject>,
    second: Seq<OperationObject>,
    order: Seq<int>,
) -> bool {
    &&& order.len() == first.len()
    &&& second.len() == first.len()
    &&& order.no_duplicates()
    &&& forall|i: int| 0 <= i < order.len() ==> 0 <= #[trigger] order[i] < first.len()
    &&& forall|i: int| 0 <= i < second.len() ==> #[trigger] second[i] == first[order[i]]
}

/// Every object is listed again.
proof fn lemma_listed_again(
    first: Seq<OperationObject>,
    second: Seq<OperationObject>,
    order: Seq<int>,
    j: int,
) -> (i: int)
    requires
        lists_again(first, second, order),
        0 <= j < first.len(),
    ensures
        0 <= i < second.len(),
        second[i] == first[j],
{
    let n = first.len() as int;
    order.unique_seq_to_set();
    vstd::set_lib::lemma_int_range(0, n);
    assert(order.to_set().subset_of(vstd::set_lib::set_int_range(0, n)));
    vstd::set_lib::lemma_subset_equality(order.to_set(), vstd::set_lib::set_int_range(0, n));
    assert(order.to_set().contains(j));
    assert(order.contains(j));
    choose|i: int| 0 <= i < order.len() && #[trigger] order[i] == j
}

/// Objects that are listed again are scanned, and hold the same.
proof fn lemma_scanned_again(
    batch: OperationBatch,
    first: Seq<OperationObject>,
    second: Seq<OperationObject>,
    order: Seq<int>,
)
    requires
        lists_again(first, second, order),
        scan_objects(batch, first) is Ok,
    ensures
        scan_objects(batch, second) is Ok,
        scan_objects(batch, second)->Ok_0.bases == scan_objects(batch, first)->Ok_0.bases,
        forall|intent: ManifestedProjectionIntentWire| #[trigger]
            scan_objects(batch, second)->Ok_0.intents.contains(intent) <==> scan_objects(
                batch,
                first,
            )->Ok_0.intents.contains(intent),
{
    let one = scan_objects(batch, first)->Ok_0;
    lemma_scanned(batch, first);
    assert forall|i: int| 0 <= i < second.len() implies own(batch, #[trigger] second[i]) is Ok by {
        assert(second[i] == first[order[i]]);
    }
    assert forall|i: int, j: int| 0 <= i < j < second.len() implies go_together(
        own(batch, #[trigger] second[i])->Ok_0,
        own(batch, #[trigger] second[j])->Ok_0,
    ) by {
        let (x, y) = (order[i], order[j]);
        assert(second[i] == first[x] && second[j] == first[y]);
        if y < x {
            assert(go_together(own(batch, first[y])->Ok_0, own(batch, first[x])->Ok_0));
            lemma_together_symmetric(own(batch, first[y])->Ok_0, own(batch, first[x])->Ok_0);
        } else {
            assert(x != y);
            assert(go_together(own(batch, first[x])->Ok_0, own(batch, first[y])->Ok_0));
        }
    }
    lemma_scans(batch, second);
    lemma_scanned(batch, second);
    let two = scan_objects(batch, second)->Ok_0;
    assert forall|intent: ManifestedProjectionIntentWire| #[trigger]
        two.intents.contains(intent) <==> one.intents.contains(intent) by {
        if two.intents.contains(intent) {
            let i = choose|i: int|
                0 <= i < second.len() && own(batch, #[trigger] second[i])->Ok_0.intents.contains(
                    intent,
                );
            assert(second[i] == first[order[i]]);
        }
        if one.intents.contains(intent) {
            let j = choose|j: int|
                0 <= j < first.len() && own(batch, #[trigger] first[j])->Ok_0.intents.contains(
                    intent,
                );
            let i = lemma_listed_again(first, second, order, j);
            assert(own(batch, second[i])->Ok_0.intents.contains(intent));
        }
    }
    assert(two.bases =~= one.bases) by {
        assert forall|document: u128| #[trigger]
            two.bases.dom().contains(document) <==> one.bases.dom().contains(document) by {
            if two.bases.dom().contains(document) {
                let i = choose|i: int|
                    0 <= i < second.len() && own(
                        batch,
                        #[trigger] second[i],
                    )->Ok_0.bases.dom().contains(document);
                assert(second[i] == first[order[i]]);
            }
            if one.bases.dom().contains(document) {
                let j = choose|j: int|
                    0 <= j < first.len() && own(
                        batch,
                        #[trigger] first[j],
                    )->Ok_0.bases.dom().contains(document);
                let i = lemma_listed_again(first, second, order, j);
                assert(own(batch, second[i])->Ok_0.bases.dom().contains(document));
            }
        }
        assert forall|document: u128| #[trigger]
            two.bases.dom().contains(document) implies two.bases[document]
            == one.bases[document] by {
            let i = choose|i: int|
                0 <= i < second.len() && own(
                    batch,
                    #[trigger] second[i],
                )->Ok_0.bases.dom().contains(document);
            let j = order[i];
            assert(second[i] == first[j]);
            assert(own(batch, second[i])->Ok_0.bases.dom().contains(document));
            assert(own(batch, first[j])->Ok_0.bases.dom().contains(document));
        }
    }
}

/// Where no intent has a faulty reference, nothing is faulty.
proof fn lemma_no_intent_fault(batch: OperationBatch, scanned: ScannedObjects, n: nat)
    requires
        n <= scanned.intents.len(),
        forall|k: int|
            0 <= k < scanned.intents.len() ==> references_fault(
                batch,
                scanned.bases,
                #[trigger] scanned.intents[k],
            ) is None,
    ensures
        intents_fault(batch, scanned.bases, scanned.intents, n) is None,
    decreases n,
{
    if n > 0 {
        lemma_no_intent_fault(batch, scanned, (n - 1) as nat);
    }
}

/// Lists in strict order with the same members are the same.
proof fn lemma_same_members(
    a: Seq<ManifestedProjectionIntentWire>,
    b: Seq<ManifestedProjectionIntentWire>,
)
    requires
        forall|i: int, j: int|
            0 <= i < j < a.len() ==> intent_before(#[trigger] a[i], #[trigger] a[j]),
        forall|i: int, j: int|
            0 <= i < j < b.len() ==> intent_before(#[trigger] b[i], #[trigger] b[j]),
        forall|intent: ManifestedProjectionIntentWire| #[trigger]
            a.contains(intent) <==> b.contains(intent),
    ensures
        a == b,
    decreases a.len(),
{
    if a.len() == 0 {
        if b.len() > 0 {
            assert(b.contains(b[0]));
            assert(a.contains(b[0]));
        }
        assert(a =~= b);
    } else {
        let (x, y) = (a.last(), b.last());
        assert(a.contains(x));
        assert(b.contains(x));
        assert(b.contains(y));
        assert(a.contains(y));
        let m = choose|m: int| 0 <= m < b.len() && b[m] == x;
        let k = choose|k: int| 0 <= k < a.len() && a[k] == y;
        if m < b.len() - 1 {
            assert(intent_before(b[m], b[b.len() - 1]));
            lemma_before_asymmetric(x, y);
            if k < a.len() - 1 {
                assert(intent_before(a[k], a[a.len() - 1]));
            } else {
                lemma_before_asymmetric(x, x);
            }
        }
        assert(x == y);
        let (c, d) = (a.drop_last(), b.drop_last());
        assert forall|intent: ManifestedProjectionIntentWire| #[trigger]
            c.contains(intent) <==> d.contains(intent) by {
            if c.contains(intent) {
                let i = choose|i: int| 0 <= i < c.len() && c[i] == intent;
                assert(a[i] == intent);
                assert(a.contains(intent));
                assert(b.contains(intent));
                let j = choose|j: int| 0 <= j < b.len() && b[j] == intent;
                if j == b.len() - 1 {
                    assert(intent_before(a[i], a[a.len() - 1]));
                    lemma_before_asymmetric(intent, intent);
                }
                assert(d[j] == intent);
            }
            if d.contains(intent) {
                let i = choose|i: int| 0 <= i < d.len() && d[i] == intent;
                assert(b[i] == intent);
                assert(a.contains(intent));
                let j = choose|j: int| 0 <= j < a.len() && a[j] == intent;
                if j == a.len() - 1 {
                    assert(intent_before(b[i], b[b.len() - 1]));
                    lemma_before_asymmetric(intent, intent);
                }
                assert(c[j] == intent);
            }
        }
        assert forall|i: int, j: int| 0 <= i < j < c.len() implies intent_before(
            #[trigger] c[i],
            #[trigger] c[j],
        ) by {
            assert(c[i] == a[i] && c[j] == a[j]);
        }
        assert forall|i: int, j: int| 0 <= i < j < d.len() implies intent_before(
            #[trigger] d[i],
            #[trigger] d[j],
        ) by {
            assert(d[i] == b[i] && d[j] == b[j]);
        }
        lemma_same_members(c, d);
        assert(a =~= c.push(x));
        assert(b =~= d.push(y));
    }
}

/// Sorting keeps the members.
proof fn lemma_sorted_members(intents: Seq<ManifestedProjectionIntentWire>)
    ensures
        forall|intent: ManifestedProjectionIntentWire| #[trigger]
            sorted_intents(intents).contains(intent) <==> intents.contains(intent),
{
    broadcast use vstd::seq_lib::group_to_multiset_ensures;

    lemma_sorted_intents(intents);
    let sorted = sorted_intents(intents);
    assert forall|intent: ManifestedProjectionIntentWire| #[trigger]
        sorted.contains(intent) <==> intents.contains(intent) by {
        assert(sorted.contains(intent) <==> sorted.to_multiset().count(intent) > 0);
        assert(intents.contains(intent) <==> intents.to_multiset().count(intent) > 0);
    }
}

/// The order in which the objects of a batch are listed never shows: where they are accepted, the
/// same objects in any other order are accepted too, with the same result.
pub proof fn law_object_order_never_shows(
    batch: OperationBatch,
    first: Seq<OperationObject>,
    second: Seq<OperationObject>,
    order: Seq<int>,
)
    requires
        lists_again(first, second, order),
        object_set_verdict(batch, first) is Ok,
    ensures
        object_set_verdict(batch, second) == object_set_verdict(batch, first),
{
    let one = scan_objects(batch, first)->Ok_0;
    let two = scan_objects(batch, second)->Ok_0;
    lemma_scanned_again(batch, first, second, order);
    assert forall|k: int| 0 <= k < two.intents.len() implies references_fault(
        batch,
        two.bases,
        #[trigger] two.intents[k],
    ) is None by {
        assert(two.intents.contains(two.intents[k]));
        assert(one.intents.contains(two.intents[k]));
        let m = choose|m: int| 0 <= m < one.intents.len() && one.intents[m] == two.intents[k];
        lemma_no_fault(batch, one, m, one.intents.len());
    }
    lemma_no_intent_fault(batch, two, two.intents.len());
    assert(!has_orphan(two)) by {
        assert forall|document: u128| #[trigger] two.bases.dom().contains(document) implies
            is_referenced(two.intents, document) by {
            assert(one.bases.dom().contains(document));
            assert(is_referenced(one.intents, document));
            let m = choose|m: int|
                0 <= m < one.intents.len() && intent_refers(#[trigger] one.intents[m], document);
            assert(one.intents.contains(one.intents[m]));
            assert(two.intents.contains(one.intents[m]));
            let k = choose|k: int| 0 <= k < two.intents.len() && two.intents[k] == one.intents[m];
            assert(intent_refers(two.intents[k], document));
        }
    }
    law_accepted_sets_are_closed(batch, first);
    law_accepted_sets_are_closed(batch, second);
    lemma_sorted_members(one.intents);
    lemma_sorted_members(two.intents);
    let (a, b) = (sorted_intents(two.intents), sorted_intents(one.intents));
    assert forall|intent: ManifestedProjectionIntentWire| #[trigger]
        a.contains(intent) <==> b.contains(intent) by {
        assert(two.intents.contains(intent) <==> one.intents.contains(intent));
    }
    lemma_same_members(a, b);
}

} // verus!
