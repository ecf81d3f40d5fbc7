//! What holds of the catalogue of a store and of the intents that are not completed.

use vstd::prelude::*;

use crate::attempts::EntryKind;
use crate::catalog::{
    bytes_check, catalog, catalogued_intent, charge_check, incomplete, insert_row, is_retired_name,
    law_catalog_lists_each_intent_once, lemma_intent_refused, lemma_row_named,
    lemma_scanned_intents_ascend, more_bytes, row_named, rows_ascend, scanned_completions,
    scanned_intents, CatalogView, CompletionEntry, IntentEntry, ProjectionCatalogEntry,
    MAX_PROJECTION_CATALOG_BYTES, MAX_PROJECTION_CATALOG_DIRECTORY_ENTRIES,
    MAX_PROJECTION_CATALOG_ROWS,
};
use crate::hash::BlobDescription;
use crate::ids::ProjectionIntentId;
use crate::intent::{ProjectionIntent, ProjectionPrecondition};
use crate::names::{
    evidence_name, is_evidence_name, law_evidence_names_are_recognised,
    law_evidence_names_are_unique, names_temp,
};
use crate::store::{bound_completion, intent_base, ProjectionReceiptStore};
use crate::store_error::ProjectionStoreError;

verus! {

/// Whether an entry of the directory of intents is a published intent: neither retired nor still
/// being written.
pub open spec fn publishes(
    store: ProjectionReceiptStore,
    entry: IntentEntry,
    intent_id: ProjectionIntentId,
    intent: ProjectionIntent,
) -> bool {
    &&& entry.name is Some
    &&& !is_retired_name(store.retired_own_endpoint_intents@, entry.name->0@, ".intent"@)
    &&& !names_temp(entry.name->0@)
    &&& entry.stored is Ok
    &&& entry.stored->Ok_0 is Some
    &&& catalogued_intent(store, entry.name->0@, ".intent"@, entry.stored->Ok_0->0) is Ok
    &&& catalogued_intent(store, entry.name->0@, ".intent"@, entry.stored->Ok_0->0)->Ok_0 == (
        intent_id,
        intent,
    )
}

/// Whether an entry of the directory of completions is the completion of an intent: neither retired
/// nor still being written.
pub open spec fn completes(
    store: ProjectionReceiptStore,
    entry: CompletionEntry,
    intent_id: ProjectionIntentId,
) -> bool {
    &&& entry.name is Some
    &&& !is_retired_name(store.retired_own_endpoint_intents@, entry.name->0@, ".completion"@)
    &&& !names_temp(entry.name->0@)
    &&& entry.name->0@ == evidence_name(intent_id.digest, ".completion"@)
}

/// Whether a directory lists each name once.
pub open spec fn names_differ(entries: Seq<IntentEntry>) -> bool {
    forall|i: int, j: int|
        0 <= i < j < entries.len() && (#[trigger] entries[i]).name is Some && (
        #[trigger] entries[j]).name is Some ==> entries[i].name->0@ != entries[j].name->0@
}

/// Whether a row of a catalogue is of an intent.
pub open spec fn is_row_of(
    row: ProjectionCatalogEntry,
    intent_id: ProjectionIntentId,
    intent: ProjectionIntent,
) -> bool {
    row.intent_id == intent_id && row.intent == intent
}

/// Whether an intent is published.
pub open spec fn is_published(
    store: ProjectionReceiptStore,
    entries: Seq<IntentEntry>,
    intent_id: ProjectionIntentId,
    intent: ProjectionIntent,
) -> bool {
    exists|i: int|
        0 <= i < entries.len() && publishes(store, #[trigger] entries[i], intent_id, intent)
}

/// Whether an intent has a completion.
pub open spec fn is_completed(
    store: ProjectionReceiptStore,
    entries: Seq<CompletionEntry>,
    intent_id: ProjectionIntentId,
) -> bool {
    exists|j: int| 0 <= j < entries.len() && completes(store, #[trigger] entries[j], intent_id)
}

/// Whether a catalogue has a row of an intent.
pub open spec fn has_row(
    rows: Seq<ProjectionCatalogEntry>,
    intent_id: ProjectionIntentId,
    intent: ProjectionIntent,
) -> bool {
    exists|k: int| 0 <= k < rows.len() && is_row_of(#[trigger] rows[k], intent_id, intent)
}

/// Whether one of the given positions of a catalogue is a row of an intent.
pub open spec fn has_row_at(
    rows: Seq<ProjectionCatalogEntry>,
    positions: Seq<int>,
    intent_id: ProjectionIntentId,
    intent: ProjectionIntent,
) -> bool {
    exists|a: int|
        0 <= a < positions.len() && is_row_of(rows[#[trigger] positions[a]], intent_id, intent)
}

/// Inserting an intent that is not there adds exactly it.
proof fn lemma_insert_members(rows: Seq<ProjectionCatalogEntry>, row: ProjectionCatalogEntry)
    requires
        forall|k: int| 0 <= k < rows.len() ==> (#[trigger] rows[k]).intent_id != row.intent_id,
    ensures
        forall|other: ProjectionCatalogEntry| #[trigger]
            insert_row(rows, row).contains(other) <==> other == row || rows.contains(other),
    decreases rows.len(),
{
    let grown = insert_row(rows, row);
    if rows.len() > 0 && row.intent_id.digest.spec_before(rows.last().intent_id.digest) {
        let front = rows.drop_last();
        let inner = insert_row(front, row);
        lemma_insert_members(front, row);
        assert forall|other: ProjectionCatalogEntry| #[trigger] grown.contains(other) <==> other
            == row || rows.contains(other) by {
            assert(inner.contains(other) <==> other == row || front.contains(other));
            if grown.contains(other) {
                let k = choose|k: int| 0 <= k < grown.len() && grown[k] == other;
                if k < inner.len() {
                    assert(inner[k] == other);
                    if front.contains(other) {
                        let m = choose|m: int| 0 <= m < front.len() && front[m] == other;
                        assert(rows[m] == other);
                    }
                } else {
                    assert(rows[rows.len() - 1] == other);
                }
            }
            if rows.contains(other) {
                let m = choose|m: int| 0 <= m < rows.len() && rows[m] == other;
                if m < front.len() {
                    assert(front[m] == other);
                } else {
                    assert(grown[inner.len() as int] == other);
                }
            }
            if inner.contains(other) {
                let k = choose|k: int| 0 <= k < inner.len() && inner[k] == other;
                assert(grown[k] == other);
            }
        }
    } else {
        if rows.len() > 0 {
            assert(rows[rows.len() - 1].intent_id != row.intent_id);
        }
        assert(grown == rows.push(row));
        assert forall|other: ProjectionCatalogEntry| #[trigger] grown.contains(other) <==> other
            == row || rows.contains(other) by {
            if grown.contains(other) {
                let k = choose|k: int| 0 <= k < grown.len() && grown[k] == other;
                if k < rows.len() {
                    assert(rows[k] == other);
                }
            }
            if other == row {
                assert(grown[rows.len() as int] == other);
            }
            if rows.contains(other) {
                let m = choose|m: int| 0 <= m < rows.len() && rows[m] == other;
                assert(grown[m] == other);
            }
        }
    }
}

/// The row of an intent that is not completed.
pub open spec fn open_row(
    intent_id: ProjectionIntentId,
    intent: ProjectionIntent,
) -> ProjectionCatalogEntry {
    ProjectionCatalogEntry { intent_id, intent, completion: None }
}

/// The rows after the first entries are those of the published intents among them.
proof fn lemma_published_rows(store: ProjectionReceiptStore, entries: Seq<IntentEntry>, n: nat)
    requires
        n <= entries.len(),
        names_differ(entries),
        scanned_intents(store, entries, n) is Ok,
    ensures
        forall|row: ProjectionCatalogEntry| #[trigger]
            scanned_intents(store, entries, n)->Ok_0.rows.contains(row) <==> row.completion is None
                && exists|i: int|
                0 <= i < n && publishes(store, #[trigger] entries[i], row.intent_id, row.intent),
    decreases n,
{
    if n > 0 {
        let before = scanned_intents(store, entries, (n - 1) as nat)->Ok_0.rows;
        let after = scanned_intents(store, entries, n)->Ok_0.rows;
        let entry = entries[n - 1];
        lemma_published_rows(store, entries, (n - 1) as nat);
        let name = entry.name->0@;
        if is_retired_name(store.retired_own_endpoint_intents@, name, ".intent"@) || names_temp(
            name,
        ) {
            assert(after == before);
            assert forall|row: ProjectionCatalogEntry| #[trigger]
                after.contains(row) <==> row.completion is None && exists|i: int|
                    0 <= i < n && publishes(
                        store,
                        #[trigger] entries[i],
                        row.intent_id,
                        row.intent,
                    ) by {
                assert(before.contains(row) <==> after.contains(row));
                if exists|i: int|
                    0 <= i < n && publishes(
                        store,
                        #[trigger] entries[i],
                        row.intent_id,
                        row.intent,
                    ) {
                    let i = choose|i: int|
                        0 <= i < n && publishes(
                            store,
                            #[trigger] entries[i],
                            row.intent_id,
                            row.intent,
                        );
                    assert(i < n - 1);
                }
            }
        } else {
            let stored = entry.stored->Ok_0->0;
            let (intent_id, intent) =
                catalogued_intent(store, name, ".intent"@, stored)->Ok_0;
            let added = open_row(intent_id, intent);
            assert(after == insert_row(before, added));
            assert(publishes(store, entries[n - 1], intent_id, intent));
            assert forall|k: int| 0 <= k < before.len() implies (#[trigger] before[k]).intent_id
                != intent_id by {
                assert(before.contains(before[k]));
                let i = choose|i: int|
                    0 <= i < n - 1 && publishes(
                        store,
                        #[trigger] entries[i],
                        before[k].intent_id,
                        before[k].intent,
                    );
                assert(entries[i].name->0@ == evidence_name(
                    before[k].intent_id.digest,
                    ".intent"@,
                ));
                assert(entries[i].name->0@ != entries[n - 1].name->0@);
            }
            lemma_insert_members(before, added);
            assert forall|row: ProjectionCatalogEntry| #[trigger]
                after.contains(row) <==> row.completion is None && exists|i: int|
                    0 <= i < n && publishes(
                        store,
                        #[trigger] entries[i],
                        row.intent_id,
                        row.intent,
                    ) by {
                assert(after.contains(row) <==> row == added || before.contains(row));
                if row.completion is None && exists|i: int|
                    0 <= i < n && publishes(
                        store,
                        #[trigger] entries[i],
                        row.intent_id,
                        row.intent,
                    ) {
                    let i = choose|i: int|
                        0 <= i < n && publishes(
                            store,
                            #[trigger] entries[i],
                            row.intent_id,
                            row.intent,
                        );
                    if i < n - 1 {
                        assert(before.contains(row));
                    } else {
                        assert(row == added);
                    }
                }
            }
        }
    }
}

/// The row that is found is the one with the name.
pub proof fn lemma_row_has_name(rows: Seq<ProjectionCatalogEntry>, name: Seq<char>, at: int)
    requires
        0 <= at,
        row_named(rows, name, at) is Some,
    ensures
        evidence_name(
            rows[row_named(rows, name, at)->0].intent_id.digest,
            ".completion"@,
        ) == name,
    decreases rows.len() - at,
{
    if evidence_name(rows[at].intent_id.digest, ".completion"@) != name {
        lemma_row_has_name(rows, name, at + 1);
    }
}

/// Reading completions keeps the intents, and completes exactly those that have a completion.
pub proof fn lemma_completed_rows(
    store: ProjectionReceiptStore,
    start: CatalogView,
    entries: Seq<CompletionEntry>,
    n: nat,
)
    requires
        n <= entries.len(),
        rows_ascend(start.rows),
        scanned_completions(store, start, entries, n) is Ok,
    ensures
        ({
            let rows = scanned_completions(store, start, entries, n)->Ok_0.rows;
            &&& rows.len() == start.rows.len()
            &&& forall|k: int|
                0 <= k < rows.len() ==> (#[trigger] rows[k]).intent_id == start.rows[k].intent_id
                    && rows[k].intent == start.rows[k].intent && (rows[k].completion is Some <==> (
                start.rows[k].completion is Some || exists|j: int|
                    0 <= j < n && completes(store, #[trigger] entries[j], rows[k].intent_id)))
        }),
    decreases n,
{
    if n > 0 {
        let before = scanned_completions(store, start, entries, (n - 1) as nat)->Ok_0.rows;
        let after = scanned_completions(store, start, entries, n)->Ok_0.rows;
        let entry = entries[n - 1];
        lemma_completed_rows(store, start, entries, (n - 1) as nat);
        let name = entry.name->0@;
        if is_retired_name(store.retired_own_endpoint_intents@, name, ".completion"@)
            || names_temp(name) {
            assert(after == before);
            assert forall|k: int| 0 <= k < after.len() implies (
            #[trigger] after[k]).completion is Some <==> (start.rows[k].completion is Some
                || exists|j: int|
                0 <= j < n && completes(store, #[trigger] entries[j], after[k].intent_id)) by {
                assert(after[k] == before[k]);
                if exists|j: int|
                    0 <= j < n && completes(store, #[trigger] entries[j], after[k].intent_id) {
                    let j = choose|j: int|
                        0 <= j < n && completes(store, #[trigger] entries[j], after[k].intent_id);
                    assert(j < n - 1);
                }
            }
        } else {
            let at = row_named(before, name, 0)->0;
            lemma_row_named(before, name, 0);
            lemma_row_has_name(before, name, 0);
            assert(completes(store, entries[n - 1], before[at].intent_id));
            assert forall|k: int| 0 <= k < after.len() implies (#[trigger] after[k]).intent_id
                == start.rows[k].intent_id && after[k].intent == start.rows[k].intent && (
            after[k].completion is Some <==> (start.rows[k].completion is Some || exists|j: int|
                0 <= j < n && completes(store, #[trigger] entries[j], after[k].intent_id))) by {
                assert(before[k].intent_id == start.rows[k].intent_id);
                if k == at {
                    assert(after[k].completion is Some);
                    assert(completes(store, entries[n - 1], after[k].intent_id));
                } else {
                    assert(after[k] == before[k]);
                    if completes(store, entries[n - 1], after[k].intent_id) {
                        law_evidence_names_are_unique(
                            before[k].intent_id.digest,
                            before[at].intent_id.digest,
                            ".completion"@,
                        );
                        assert(before[at].intent_id == start.rows[at].intent_id);
                        if k < at {
                            assert(start.rows[k].intent_id.digest.spec_before(
                                start.rows[at].intent_id.digest,
                            ));
                        } else {
                            assert(start.rows[at].intent_id.digest.spec_before(
                                start.rows[k].intent_id.digest,
                            ));
                        }
                    }
                    if exists|j: int|
                        0 <= j < n && completes(store, #[trigger] entries[j], after[k].intent_id) {
                        let j = choose|j: int|
                            0 <= j < n && completes(
                                store,
                                #[trigger] entries[j],
                                after[k].intent_id,
                            );
                        assert(j < n - 1);
                    }
                }
            }
        }
    }
}

/// The positions, among the first `n` rows, of the intents that are not completed.
pub open spec fn open_positions(rows: Seq<ProjectionCatalogEntry>, n: nat) -> Seq<int>
    decreases n,
{
    if n == 0 {
        Seq::empty()
    } else if rows[n - 1].completion is None {
        open_positions(rows, (n - 1) as nat).push(n - 1)
    } else {
        open_positions(rows, (n - 1) as nat)
    }
}

/// The incomplete intents are those at the open positions, which increase.
proof fn lemma_open_positions(rows: Seq<ProjectionCatalogEntry>, n: nat)
    requires
        n <= rows.len(),
    ensures
        ({
            let open = open_positions(rows, n);
            &&& open.len() == incomplete(rows, n).len()
            &&& forall|a: int|
                0 <= a < open.len() ==> 0 <= #[trigger] open[a] < n && rows[open[a]].completion
                    is None && incomplete(rows, n)[a] == rows[open[a]].intent
            &&& forall|a: int, b: int|
                0 <= a < b < open.len() ==> #[trigger] open[a] < #[trigger] open[b]
            &&& forall|k: int|
                0 <= k < n && (#[trigger] rows[k]).completion is None ==> open.contains(k)
        }),
    decreases n,
{
    if n > 0 {
        let before = open_positions(rows, (n - 1) as nat);
        let open = open_positions(rows, n);
        lemma_open_positions(rows, (n - 1) as nat);
        assert forall|k: int| 0 <= k < n && (
        #[trigger] rows[k]).completion is None implies open.contains(k) by {
            if k < n - 1 {
                let a = choose|a: int| 0 <= a < before.len() && before[a] == k;
                assert(open[a] == k);
            } else {
                assert(open[before.len() as int] == k);
            }
        }
    }
}

/// A catalogue has exactly one row for each published intent, and a row is completed exactly where
/// the intent has a completion.
pub proof fn law_catalog_rows_are_the_published_intents(
    store: ProjectionReceiptStore,
    intents: Seq<IntentEntry>,
    completions: Seq<CompletionEntry>,
)
    requires
        catalog(store, intents, completions) is Ok,
        names_differ(intents),
    ensures
        ({
            let rows = catalog(store, intents, completions)->Ok_0;
            &&& rows_ascend(rows)
            &&& forall|intent_id: ProjectionIntentId, intent: ProjectionIntent| #[trigger]
                has_row(rows, intent_id, intent) <==> is_published(
                    store,
                    intents,
                    intent_id,
                    intent,
                )
            &&& forall|k: int|
                0 <= k < rows.len() ==> ((#[trigger] rows[k]).completion is Some <==> is_completed(
                    store,
                    completions,
                    rows[k].intent_id,
                ))
        }),
{
    let start = scanned_intents(store, intents, intents.len())->Ok_0;
    let rows = catalog(store, intents, completions)->Ok_0;
    law_catalog_lists_each_intent_once(store, intents, completions);
    lemma_scanned_intents_ascend(store, intents, intents.len());
    lemma_published_rows(store, intents, intents.len());
    lemma_completed_rows(store, start, completions, completions.len());
    assert forall|intent_id: ProjectionIntentId, intent: ProjectionIntent| #[trigger]
        has_row(rows, intent_id, intent) <==> is_published(store, intents, intent_id, intent) by {
        if has_row(rows, intent_id, intent) {
            let k = choose|k: int|
                0 <= k < rows.len() && is_row_of(#[trigger] rows[k], intent_id, intent);
            assert(start.rows.contains(start.rows[k]));
            assert(start.rows[k].intent_id == intent_id && start.rows[k].intent == intent);
        }
        if is_published(store, intents, intent_id, intent) {
            let i = choose|i: int|
                0 <= i < intents.len() && publishes(store, #[trigger] intents[i], intent_id, intent);
            let row = open_row(intent_id, intent);
            assert(publishes(store, intents[i], row.intent_id, row.intent));
            assert(start.rows.contains(row));
            let k = choose|k: int| 0 <= k < start.rows.len() && start.rows[k] == row;
            assert(is_row_of(rows[k], intent_id, intent));
        }
    }
    assert forall|k: int| 0 <= k < rows.len() implies ((
    #[trigger] rows[k]).completion is Some <==> is_completed(
        store,
        completions,
        rows[k].intent_id,
    )) by {
        assert(start.rows.contains(start.rows[k]));
        assert(start.rows[k].completion is None);
    }
}

/// The incomplete intents are exactly the published intents that have no completion: each is listed
/// once, in strictly ascending order of the identities.
pub proof fn law_incomplete_is_published_less_completed(
    store: ProjectionReceiptStore,
    intents: Seq<IntentEntry>,
    completions: Seq<CompletionEntry>,
)
    requires
        catalog(store, intents, completions) is Ok,
        names_differ(intents),
    ensures
        ({
            let rows = catalog(store, intents, completions)->Ok_0;
            let listed = incomplete(rows, rows.len());
            let open = open_positions(rows, rows.len());
            &&& open.len() == listed.len()
            &&& forall|a: int|
                0 <= a < open.len() ==> 0 <= #[trigger] open[a] < rows.len() && listed[a]
                    == rows[open[a]].intent
            &&& forall|a: int, b: int|
                0 <= a < b < open.len() ==> rows[#[trigger] open[a]].intent_id.digest.spec_before(
                    rows[#[trigger] open[b]].intent_id.digest,
                )
            &&& forall|intent_id: ProjectionIntentId, intent: ProjectionIntent| #[trigger]
                has_row_at(rows, open, intent_id, intent) <==> is_published(
                    store,
                    intents,
                    intent_id,
                    intent,
                ) && !is_completed(store, completions, intent_id)
        }),
{
    let rows = catalog(store, intents, completions)->Ok_0;
    let open = open_positions(rows, rows.len());
    law_catalog_rows_are_the_published_intents(store, intents, completions);
    lemma_open_positions(rows, rows.len());
    assert forall|a: int, b: int| 0 <= a < b < open.len() implies rows[
        #[trigger] open[a]
    ].intent_id.digest.spec_before(rows[#[trigger] open[b]].intent_id.digest) by {
        assert(open[a] < open[b]);
    }
    assert forall|intent_id: ProjectionIntentId, intent: ProjectionIntent| #[trigger]
        has_row_at(rows, open, intent_id, intent) <==> is_published(
            store,
            intents,
            intent_id,
            intent,
        ) && !is_completed(store, completions, intent_id) by {
        assert(has_row(rows, intent_id, intent) <==> is_published(
            store,
            intents,
            intent_id,
            intent,
        ));
        if has_row_at(rows, open, intent_id, intent) {
            let a = choose|a: int|
                0 <= a < open.len() && is_row_of(rows[#[trigger] open[a]], intent_id, intent);
            let k = open[a];
            assert(is_row_of(rows[k], intent_id, intent));
            assert(!(rows[k].completion is Some));
        }
        if has_row(rows, intent_id, intent) && !is_completed(store, completions, intent_id) {
            let k = choose|k: int|
                0 <= k < rows.len() && is_row_of(#[trigger] rows[k], intent_id, intent);
            assert(rows[k].completion is None);
            assert(open.contains(k));
            let a = choose|a: int| 0 <= a < open.len() && open[a] == k;
            assert(is_row_of(rows[open[a]], intent_id, intent));
        }
    }
}

/// Where every published intent has a completion, nothing is incomplete.
pub proof fn law_nothing_is_incomplete_once_all_is_completed(
    store: ProjectionReceiptStore,
    intents: Seq<IntentEntry>,
    completions: Seq<CompletionEntry>,
)
    requires
        catalog(store, intents, completions) is Ok,
        names_differ(intents),
        forall|intent_id: ProjectionIntentId, intent: ProjectionIntent| #[trigger]
            is_published(store, intents, intent_id, intent) ==> is_completed(
                store,
                completions,
                intent_id,
            ),
    ensures
        ({
            let rows = catalog(store, intents, completions)->Ok_0;
            incomplete(rows, rows.len()) == Seq::<ProjectionIntent>::empty()
        }),
{
    let rows = catalog(store, intents, completions)->Ok_0;
    let open = open_positions(rows, rows.len());
    law_incomplete_is_published_less_completed(store, intents, completions);
    if open.len() > 0 {
        let row = rows[open[0]];
        assert(is_row_of(rows[open[0]], row.intent_id, row.intent));
        assert(has_row_at(rows, open, row.intent_id, row.intent));
        assert(is_published(store, intents, row.intent_id, row.intent));
    }
    assert(incomplete(rows, rows.len()) =~= Seq::empty());
}

/// Once what was incomplete is completed, nothing is incomplete any more: with a completion more for
/// every intent that was listed as incomplete, the list is empty.
pub proof fn law_completing_the_incomplete_leaves_nothing(
    store: ProjectionReceiptStore,
    intents: Seq<IntentEntry>,
    completions: Seq<CompletionEntry>,
    added: Seq<CompletionEntry>,
)
    requires
        catalog(store, intents, completions) is Ok,
        catalog(store, intents, completions + added) is Ok,
        names_differ(intents),
        ({
            let rows = catalog(store, intents, completions)->Ok_0;
            let open = open_positions(rows, rows.len());
            forall|a: int|
                0 <= a < open.len() ==> is_completed(
                    store,
                    added,
                    rows[#[trigger] open[a]].intent_id,
                )
        }),
    ensures
        ({
            let rows = catalog(store, intents, completions + added)->Ok_0;
            incomplete(rows, rows.len()) == Seq::<ProjectionIntent>::empty()
        }),
{
    let rows = catalog(store, intents, completions)->Ok_0;
    let open = open_positions(rows, rows.len());
    let all = completions + added;
    law_incomplete_is_published_less_completed(store, intents, completions);
    assert forall|intent_id: ProjectionIntentId, intent: ProjectionIntent| #[trigger]
        is_published(store, intents, intent_id, intent) implies is_completed(
        store,
        all,
        intent_id,
    ) by {
        if is_completed(store, completions, intent_id) {
            let j = choose|j: int|
                0 <= j < completions.len() && completes(
                    store,
                    #[trigger] completions[j],
                    intent_id,
                );
            assert(all[j] == completions[j]);
        } else {
            assert(has_row_at(rows, open, intent_id, intent));
            let a = choose|a: int|
                0 <= a < open.len() && is_row_of(rows[#[trigger] open[a]], intent_id, intent);
            assert(is_completed(store, added, rows[open[a]].intent_id));
            let j = choose|j: int|
                0 <= j < added.len() && completes(store, #[trigger] added[j], intent_id);
            assert(all[completions.len() + j] == added[j]);
        }
    }
    law_nothing_is_incomplete_once_all_is_completed(store, intents, all);
}

/// Whether an entry of the directory of intents is in order: a file that is passed over because it
/// is retired or still being written, or a published intent whose base is there as described.
pub open spec fn is_sound_intent(store: ProjectionReceiptStore, entry: IntentEntry) -> bool {
    &&& entry.name is Some
    &&& entry.kind == EntryKind::File
    &&& passes_over_intent(store, entry) || {
        &&& entry.stored is Ok
        &&& entry.stored->Ok_0 is Some
        &&& catalogued_intent(store, entry.name->0@, ".intent"@, entry.stored->Ok_0->0) is Ok
        &&& intent_base(
            store.workspace_id,
            catalogued_intent(
                store,
                entry.name->0@,
                ".intent"@,
                entry.stored->Ok_0->0,
            )->Ok_0.1@,
            entry.base,
        ) is Ok
    }
}

/// Whether an entry of the directory of intents is passed over.
pub open spec fn passes_over_intent(store: ProjectionReceiptStore, entry: IntentEntry) -> bool {
    is_retired_name(store.retired_own_endpoint_intents@, entry.name->0@, ".intent"@) || names_temp(
        entry.name->0@,
    )
}

/// The base that an entry of the directory of intents starts from, if it is a published intent that
/// starts from one.
pub open spec fn base_described(store: ProjectionReceiptStore, entry: IntentEntry) -> Option<
    BlobDescription,
> {
    if passes_over_intent(store, entry) {
        None
    } else {
        match entry.stored->Ok_0->0.decoded->Ok_0@.precondition {
            ProjectionPrecondition::Absent => None,
            ProjectionPrecondition::Base(description) => Some(description),
        }
    }
}

/// How many bytes the first `n` entries of the directory of intents bring: those of the intents, and
/// those of each base once.
pub open spec fn intent_bytes(
    store: ProjectionReceiptStore,
    entries: Seq<IntentEntry>,
    n: nat,
) -> int
    decreases n,
{
    if n == 0 {
        0
    } else {
        let entry = entries[n - 1];
        let before = intent_bytes(store, entries, (n - 1) as nat);
        if passes_over_intent(store, entry) {
            before
        } else {
            before + (entry.stored->Ok_0->0.bytes@.len() as u64) + match base_described(
                store,
                entry,
            ) {
                None => 0,
                Some(description) => if exists|i: int|
                    0 <= i < n - 1 && base_described(store, #[trigger] entries[i]) == Some(
                        description,
                    ) {
                    0
                } else {
                    description.byte_length as int
                },
            }
        }
    }
}

/// How many of the first `n` entries of the directory of intents are not passed over.
pub open spec fn intent_count(
    store: ProjectionReceiptStore,
    entries: Seq<IntentEntry>,
    n: nat,
) -> nat
    decreases n,
{
    if n == 0 {
        0
    } else {
        intent_count(store, entries, (n - 1) as nat) + if passes_over_intent(
            store,
            entries[n - 1],
        ) {
            0nat
        } else {
            1nat
        }
    }
}

/// The count of fewer entries is no more.
proof fn lemma_fewer_intents(
    store: ProjectionReceiptStore,
    entries: Seq<IntentEntry>,
    m: nat,
    n: nat,
)
    requires
        m <= n,
    ensures
        intent_count(store, entries, m) <= intent_count(store, entries, n),
    decreases n,
{
    if m < n {
        lemma_fewer_intents(store, entries, m, (n - 1) as nat);
    }
}

/// The bytes of fewer entries are no more.
proof fn lemma_fewer_intent_bytes(
    store: ProjectionReceiptStore,
    entries: Seq<IntentEntry>,
    m: nat,
    n: nat,
)
    requires
        m <= n,
    ensures
        0 <= intent_bytes(store, entries, m) <= intent_bytes(store, entries, n),
    decreases n,
{
    if m < n {
        lemma_fewer_intent_bytes(store, entries, m, (n - 1) as nat);
    } else if n > 0 {
        lemma_fewer_intent_bytes(store, entries, (n - 1) as nat, (n - 1) as nat);
    }
}

/// Sound intents within the limits are all read.
proof fn lemma_sound_intents(store: ProjectionReceiptStore, entries: Seq<IntentEntry>, n: nat)
    requires
        n <= entries.len(),
        forall|i: int| 0 <= i < entries.len() ==> is_sound_intent(store, #[trigger] entries[i]),
        entries.len() <= MAX_PROJECTION_CATALOG_DIRECTORY_ENTRIES,
        intent_count(store, entries, entries.len()) <= MAX_PROJECTION_CATALOG_ROWS,
        intent_bytes(store, entries, entries.len()) <= MAX_PROJECTION_CATALOG_BYTES,
    ensures
        scanned_intents(store, entries, n) is Ok,
        ({
            let scan = scanned_intents(store, entries, n)->Ok_0;
            &&& scan.directory_entries == n
            &&& scan.catalog_bytes == intent_bytes(store, entries, n)
            &&& scan.rows.len() <= intent_count(store, entries, n)
            &&& scan.completed == 0
            &&& forall|description: BlobDescription| #[trigger]
                scan.bases.contains(description) <==> exists|i: int|
                    0 <= i < n && base_described(store, #[trigger] entries[i]) == Some(description)
        }),
    decreases n,
{
    if n > 0 {
        let less = (n - 1) as nat;
        let entry = entries[n - 1];
        lemma_sound_intents(store, entries, less);
        lemma_fewer_intent_bytes(store, entries, n, entries.len());
        lemma_fewer_intent_bytes(store, entries, less, n);
        lemma_fewer_intents(store, entries, n, entries.len());
        assert(is_sound_intent(store, entries[n - 1]));
        let before = scanned_intents(store, entries, less)->Ok_0;
        let name = entry.name->0@;
        if passes_over_intent(store, entry) {
            let scan = scanned_intents(store, entries, n)->Ok_0;
            assert(scan.bases == before.bases);
            assert forall|description: BlobDescription| #[trigger]
                scan.bases.contains(description) <==> exists|i: int|
                    0 <= i < n && base_described(store, #[trigger] entries[i]) == Some(
                        description,
                    ) by {
                assert(before.bases.contains(description) <==> exists|i: int|
                    0 <= i < less && base_described(store, #[trigger] entries[i]) == Some(
                        description,
                    ));
                assert(base_described(store, entries[n - 1]) is None);
            }
        } else {
            let stored = entry.stored->Ok_0->0;
            let (intent_id, intent) = catalogued_intent(store, name, ".intent"@, stored)->Ok_0;
            law_evidence_names_are_recognised(intent_id.digest, ".intent"@);
            let row = open_row(intent_id, intent);
            lemma_insert_len(before.rows, row);
            let described = base_described(store, entry);
            let scan = scanned_intents(store, entries, n)->Ok_0;
            if described is Some {
                let description = described->0;
                assert(before.bases.contains(description) <==> exists|i: int|
                    0 <= i < less && base_described(store, #[trigger] entries[i]) == Some(
                        description,
                    ));
                assert(scan.bases == if before.bases.contains(description) {
                    before.bases
                } else {
                    before.bases.push(description)
                });
                if !before.bases.contains(description) {
                    assert(scan.bases[before.bases.len() as int] == description);
                }
            } else {
                assert(scan.bases == before.bases);
            }
            assert forall|description: BlobDescription| #[trigger]
                scan.bases.contains(description) <==> exists|i: int|
                    0 <= i < n && base_described(store, #[trigger] entries[i]) == Some(
                        description,
                    ) by {
                let held = before.bases;
                assert(held.contains(description) <==> exists|i: int|
                    0 <= i < less && base_described(store, #[trigger] entries[i]) == Some(
                        description,
                    ));
                assert(scan.bases.contains(description) <==> held.contains(description)
                    || described == Some(description)) by {
                    if scan.bases.contains(description) {
                        let k = choose|k: int|
                            0 <= k < scan.bases.len() && scan.bases[k] == description;
                        if k < held.len() {
                            assert(held[k] == description);
                        }
                    }
                    if held.contains(description) {
                        let k = choose|k: int| 0 <= k < held.len() && held[k] == description;
                        assert(scan.bases[k] == description);
                    }
                    if described == Some(description) && !held.contains(description) {
                        assert(scan.bases[held.len() as int] == description);
                    }
                }
                if described == Some(description) {
                    assert(base_described(store, entries[n - 1]) == Some(description));
                }
                if exists|i: int|
                    0 <= i < n && base_described(store, #[trigger] entries[i]) == Some(
                        description,
                    ) {
                    let i = choose|i: int|
                        0 <= i < n && base_described(store, #[trigger] entries[i]) == Some(
                            description,
                        );
                    assert(i == n - 1 || i < less);
                }
            }
        }
    }
}

/// Inserting adds at most one row.
proof fn lemma_insert_len(rows: Seq<ProjectionCatalogEntry>, row: ProjectionCatalogEntry)
    ensures
        insert_row(rows, row).len() <= rows.len() + 1,
    decreases rows.len(),
{
    if rows.len() > 0 {
        lemma_insert_len(rows.drop_last(), row);
    }
}

/// Whether an entry of the directory of completions is passed over.
pub open spec fn passes_over_completion(
    store: ProjectionReceiptStore,
    entry: CompletionEntry,
) -> bool {
    is_retired_name(store.retired_own_endpoint_intents@, entry.name->0@, ".completion"@)
        || names_temp(entry.name->0@)
}

/// Whether an entry of the directory of completions is the valid completion of an intent.
pub open spec fn is_valid_completion(
    store: ProjectionReceiptStore,
    entry: CompletionEntry,
    intent_id: ProjectionIntentId,
    intent: ProjectionIntent,
) -> bool {
    &&& completes(store, entry, intent_id)
    &&& entry.stored is Ok
    &&& entry.stored->Ok_0 is Some
    &&& bound_completion(intent@, intent_id, entry.stored->Ok_0->0) is Ok
    &&& entry.reconciled is Ok
}

/// Whether an entry of the directory of completions is in order: a file that is passed over because
/// it is retired or still being written, or the valid completion of a published intent.
pub open spec fn is_sound_completion(
    store: ProjectionReceiptStore,
    intents: Seq<IntentEntry>,
    entry: CompletionEntry,
) -> bool {
    &&& entry.name is Some
    &&& entry.kind == EntryKind::File
    &&& passes_over_completion(store, entry) || exists|
        intent_id: ProjectionIntentId,
        intent: ProjectionIntent,
    |
        is_published(store, intents, intent_id, intent) && #[trigger] is_valid_completion(
            store,
            entry,
            intent_id,
            intent,
        )
}

/// How many bytes the first `n` entries of the directory of completions bring.
pub open spec fn completion_bytes(
    store: ProjectionReceiptStore,
    entries: Seq<CompletionEntry>,
    n: nat,
) -> int
    decreases n,
{
    if n == 0 {
        0
    } else {
        let before = completion_bytes(store, entries, (n - 1) as nat);
        if passes_over_completion(store, entries[n - 1]) {
            before
        } else {
            before + (entries[n - 1].stored->Ok_0->0.bytes@.len() as u64)
        }
    }
}

/// How many of the first `n` entries of the directory of completions are not passed over.
pub open spec fn completion_count(
    store: ProjectionReceiptStore,
    entries: Seq<CompletionEntry>,
    n: nat,
) -> nat
    decreases n,
{
    if n == 0 {
        0
    } else {
        completion_count(store, entries, (n - 1) as nat) + if passes_over_completion(
            store,
            entries[n - 1],
        ) {
            0nat
        } else {
            1nat
        }
    }
}

/// The bytes and the count of fewer completions are no more.
proof fn lemma_fewer_completions(
    store: ProjectionReceiptStore,
    entries: Seq<CompletionEntry>,
    m: nat,
    n: nat,
)
    requires
        m <= n,
    ensures
        0 <= completion_bytes(store, entries, m) <= completion_bytes(store, entries, n),
        completion_count(store, entries, m) <= completion_count(store, entries, n),
    decreases n,
{
    if m < n {
        lemma_fewer_completions(store, entries, m, (n - 1) as nat);
    } else if n > 0 {
        lemma_fewer_completions(store, entries, (n - 1) as nat, (n - 1) as nat);
    }
}

/// A row with a name is found.
pub proof fn lemma_row_is_found(
    rows: Seq<ProjectionCatalogEntry>,
    name: Seq<char>,
    at: int,
    k: int,
)
    requires
        0 <= at <= k < rows.len(),
        evidence_name(rows[k].intent_id.digest, ".completion"@) == name,
    ensures
        row_named(rows, name, at) is Some,
    decreases k - at,
{
    if at < k {
        lemma_row_is_found(rows, name, at + 1, k);
    }
}

/// Whether a catalogue's directories are within its limits.
pub open spec fn is_within_limits(
    store: ProjectionReceiptStore,
    intents: Seq<IntentEntry>,
    completions: Seq<CompletionEntry>,
) -> bool {
    &&& intents.len() + completions.len() <= MAX_PROJECTION_CATALOG_DIRECTORY_ENTRIES
    &&& intent_count(store, intents, intents.len()) <= MAX_PROJECTION_CATALOG_ROWS
    &&& completion_count(store, completions, completions.len()) <= MAX_PROJECTION_CATALOG_ROWS
    &&& intent_bytes(store, intents, intents.len()) + completion_bytes(
        store,
        completions,
        completions.len(),
    ) <= MAX_PROJECTION_CATALOG_BYTES
}

/// Sound completions of the intents that were read are all read.
proof fn lemma_sound_completions(
    store: ProjectionReceiptStore,
    intents: Seq<IntentEntry>,
    entries: Seq<CompletionEntry>,
    n: nat,
)
    requires
        n <= entries.len(),
        names_differ(intents),
        forall|i: int| 0 <= i < intents.len() ==> is_sound_intent(store, #[trigger] intents[i]),
        forall|j: int|
            0 <= j < entries.len() ==> is_sound_completion(store, intents, #[trigger] entries[j]),
        is_within_limits(store, intents, entries),
        scanned_intents(store, intents, intents.len()) is Ok,
    ensures
        ({
            let start = scanned_intents(store, intents, intents.len())->Ok_0;
            let scan = scanned_completions(store, start, entries, n);
            &&& scan is Ok
            &&& scan->Ok_0.directory_entries == intents.len() + n
            &&& scan->Ok_0.catalog_bytes == intent_bytes(store, intents, intents.len())
                + completion_bytes(store, entries, n)
            &&& scan->Ok_0.completed <= completion_count(store, entries, n)
        }),
    decreases n,
{
    let start = scanned_intents(store, intents, intents.len())->Ok_0;
    lemma_fewer_completions(store, entries, n, entries.len());
    lemma_fewer_intent_bytes(store, intents, intents.len(), intents.len());
    lemma_sound_intents(store, intents, intents.len());
    if n > 0 {
        let less = (n - 1) as nat;
        let entry = entries[n - 1];
        lemma_sound_completions(store, intents, entries, less);
        lemma_fewer_completions(store, entries, less, n);
        let before = scanned_completions(store, start, entries, less)->Ok_0;
        assert(is_sound_completion(store, intents, entries[n - 1]));
        if !passes_over_completion(store, entry) {
            let (intent_id, intent) = choose|intent_id: ProjectionIntentId, intent: ProjectionIntent|
                is_published(store, intents, intent_id, intent) && #[trigger] is_valid_completion(
                    store,
                    entry,
                    intent_id,
                    intent,
                );
            let name = entry.name->0@;
            law_evidence_names_are_recognised(intent_id.digest, ".completion"@);
            lemma_scanned_intents_ascend(store, intents, intents.len());
            lemma_published_rows(store, intents, intents.len());
            lemma_completed_rows(store, start, entries, less);
            let row = open_row(intent_id, intent);
            let i = choose|i: int|
                0 <= i < intents.len() && publishes(store, #[trigger] intents[i], intent_id, intent);
            assert(publishes(store, intents[i], row.intent_id, row.intent));
            assert(start.rows.contains(row));
            let k = choose|k: int| 0 <= k < start.rows.len() && start.rows[k] == row;
            assert(before.rows[k].intent_id == intent_id);
            lemma_row_is_found(before.rows, name, 0, k);
            lemma_row_named(before.rows, name, 0);
            lemma_row_has_name(before.rows, name, 0);
            let at = row_named(before.rows, name, 0)->0;
            law_evidence_names_are_unique(
                before.rows[at].intent_id.digest,
                intent_id.digest,
                ".completion"@,
            );
            assert(at == k) by {
                assert(before.rows[at].intent_id == start.rows[at].intent_id);
                if at < k {
                    assert(start.rows[at].intent_id.digest.spec_before(
                        start.rows[k].intent_id.digest,
                    ));
                } else if k < at {
                    assert(start.rows[k].intent_id.digest.spec_before(
                        start.rows[at].intent_id.digest,
                    ));
                }
            }
            assert(before.rows[k].intent == intent);
        }
    }
}

/// A catalogue is given of every store in order: where each file among the intents is a published
/// intent with its base, each file among the completions a valid completion of one, apart from files
/// that are retired or still being written, and where the limits are kept.
pub proof fn law_sound_catalog_is_given(
    store: ProjectionReceiptStore,
    intents: Seq<IntentEntry>,
    completions: Seq<CompletionEntry>,
)
    requires
        names_differ(intents),
        forall|i: int| 0 <= i < intents.len() ==> is_sound_intent(store, #[trigger] intents[i]),
        forall|j: int|
            0 <= j < completions.len() ==> is_sound_completion(
                store,
                intents,
                #[trigger] completions[j],
            ),
        is_within_limits(store, intents, completions),
    ensures
        catalog(store, intents, completions) is Ok,
{
    lemma_fewer_completions(store, completions, 0, completions.len());
    lemma_sound_intents(store, intents, intents.len());
    lemma_sound_completions(store, intents, completions, completions.len());
}

/// A file among the intents whose name is neither that of an intent nor that of a file that is being
/// written is refused by that name, and no catalogue is given: such a name is not passed over,
/// even where it starts like that of a file that is being written.
pub proof fn law_malformed_name_is_refused(
    store: ProjectionReceiptStore,
    intents: Seq<IntentEntry>,
    completions: Seq<CompletionEntry>,
    at: int,
)
    requires
        0 <= at < intents.len(),
        scanned_intents(store, intents, at as nat) is Ok,
        charge_check(
            scanned_intents(store, intents, at as nat)->Ok_0.directory_entries,
            MAX_PROJECTION_CATALOG_DIRECTORY_ENTRIES,
        ) is Ok,
        scanned_intents(store, intents, at as nat)->Ok_0.rows.len() != MAX_PROJECTION_CATALOG_ROWS,
        intents[at].kind == EntryKind::File,
        intents[at].name is Some,
        !is_retired_name(
            store.retired_own_endpoint_intents@,
            intents[at].name->0@,
            ".intent"@,
        ),
        !names_temp(intents[at].name->0@),
        !is_evidence_name(intents[at].name->0@, ".intent"@),
    ensures
        catalog(store, intents, completions) == Err::<Seq<ProjectionCatalogEntry>, _>(
            ProjectionStoreError::MalformedEvidenceName(intents[at].name->0),
        ),
{
    assert(scanned_intents(store, intents, (at + 1) as nat) == Err::<CatalogView, _>(
        ProjectionStoreError::MalformedEvidenceName(intents[at].name->0),
    ));
    lemma_intent_refused(store, intents, (at + 1) as nat, intents.len());
}

/// A catalogue is of no more than four million entries, two million rows of a kind, and half a
/// gibibyte.
pub proof fn law_catalog_is_bounded(count: usize, bytes: u64, more: u64)
    ensures
        charge_check(count, MAX_PROJECTION_CATALOG_DIRECTORY_ENTRIES) is Ok <==> count < 4_000_000,
        MAX_PROJECTION_CATALOG_ROWS == 2_000_000,
        bytes_check(bytes) is Ok <==> bytes <= 512 * 1024 * 1024,
        more_bytes(bytes, more) is Ok <==> bytes + more <= u64::MAX,
        more_bytes(bytes, more) is Ok ==> more_bytes(bytes, more)->Ok_0 == bytes + more,
{
}

} // verus!
