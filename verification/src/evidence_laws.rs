//! What holds of the forensic evidence that is listed for an intent.

use vstd::prelude::*;

use crate::attempts::{
    attempt_entry, first_attempt, listed_attempts, AttemptEntry, EntryKind,
    ProjectionAttemptReservation,
};
use crate::evidence::{
    evidence_entry, insert_record, listed_records, stored_marker, EvidenceEntry,
    LocalProjectionEvidenceRecord, ParsedMarker,
};
use crate::hash::{sha256, Digest};
use crate::ids::{simple_text, ProjectionIntentId, Uuid};
use crate::intent::ProjectionIntentView;
use crate::names::{attempt_of, names_temp};
use crate::path::{file_name, is_name_start, lemma_name_start, sibling};
use crate::text::hex_text;

verus! {

/// Whether a record is of an intent and of one of the given attempts: it lies beside the page under
/// the name that the attempt was reserved for.
pub open spec fn is_reserved_record(
    intent: ProjectionIntentView,
    intent_id: ProjectionIntentId,
    record: LocalProjectionEvidenceRecord,
    attempts: Seq<ProjectionAttemptReservation>,
) -> bool {
    &&& record.intent_id == intent_id
    &&& record.target_path.text@ == intent.path.text
    &&& record.recovery_relative_path@ == sibling(intent.path.text, record.recovery_filename@)
    &&& exists|k: int|
        0 <= k < attempts.len() && (#[trigger] attempts[k]).attempt_id == record.attempt_id
            && attempts[k].recovery_filename@ == record.recovery_filename@
}

/// Whether an entry holds a record.
pub open spec fn holds_record(
    intent: ProjectionIntentView,
    intent_id: ProjectionIntentId,
    entry: EvidenceEntry,
    record: LocalProjectionEvidenceRecord,
) -> bool {
    evidence_entry(intent, intent_id, entry) is Ok && evidence_entry(
        intent,
        intent_id,
        entry,
    )->Ok_0 == Some(record)
}

/// Whether records stand in the order of their attempts.
pub open spec fn records_ascend(records: Seq<LocalProjectionEvidenceRecord>) -> bool {
    forall|a: int, b: int|
        0 <= a < b < records.len() ==> (#[trigger] records[a]).attempt_id.value <= (
        #[trigger] records[b]).attempt_id.value
}

/// An attempt that is found has the identifier.
pub proof fn lemma_attempt_found(
    attempts: Seq<ProjectionAttemptReservation>,
    attempt_id: Uuid,
    at: int,
)
    requires
        0 <= at,
    ensures
        first_attempt(attempts, attempt_id, at) is Some ==> {
            let found = first_attempt(attempts, attempt_id, at)->0;
            at <= found < attempts.len() && attempts[found].attempt_id == attempt_id
        },
    decreases attempts.len() - at,
{
    if at < attempts.len() && attempts[at].attempt_id != attempt_id {
        lemma_attempt_found(attempts, attempt_id, at + 1);
    }
}

/// Inserting keeps the order, and adds exactly the record.
proof fn lemma_insert_record(
    records: Seq<LocalProjectionEvidenceRecord>,
    record: LocalProjectionEvidenceRecord,
)
    requires
        records_ascend(records),
    ensures
        records_ascend(insert_record(records, record)),
        insert_record(records, record).len() == records.len() + 1,
        forall|other: LocalProjectionEvidenceRecord| #[trigger]
            insert_record(records, record).contains(other) <==> other == record
                || records.contains(other),
    decreases records.len(),
{
    let grown = insert_record(records, record);
    if records.len() > 0 && record.attempt_id.value < records.last().attempt_id.value {
        let front = records.drop_last();
        let inner = insert_record(front, record);
        lemma_insert_record(front, record);
        assert forall|a: int, b: int| 0 <= a < b < grown.len() implies (
        #[trigger] grown[a]).attempt_id.value <= (#[trigger] grown[b]).attempt_id.value by {
            assert(grown[a] == inner[a]);
            if b == inner.len() {
                assert(inner.contains(inner[a]));
                if inner[a] != record {
                    let m = choose|m: int| 0 <= m < front.len() && front[m] == inner[a];
                    assert(records[m] == inner[a]);
                }
            } else {
                assert(grown[b] == inner[b]);
            }
        }
        assert forall|other: LocalProjectionEvidenceRecord| #[trigger]
            grown.contains(other) <==> other == record || records.contains(other) by {
            assert(inner.contains(other) <==> other == record || front.contains(other));
            if grown.contains(other) {
                let k = choose|k: int| 0 <= k < grown.len() && grown[k] == other;
                if k < inner.len() {
                    assert(inner[k] == other);
                    if front.contains(other) {
                        let m = choose|m: int| 0 <= m < front.len() && front[m] == other;
                        assert(records[m] == other);
                    }
                } else {
                    assert(records[records.len() - 1] == other);
                }
            }
            if records.contains(other) {
                let m = choose|m: int| 0 <= m < records.len() && records[m] == other;
                if m < front.len() {
                    assert(front[m] == other);
                } else {
                    assert(grown[inner.len() as int] == other);
                }
            }
            if inner.contains(other) {
                let k = choose|k: int| 0 <= k < inner.len() && inner[k] == other;
                assert(grown[k] == other);
            }
        }
    } else {
        assert(grown == records.push(record));
        assert forall|other: LocalProjectionEvidenceRecord| #[trigger]
            grown.contains(other) <==> other == record || records.contains(other) by {
            if grown.contains(other) {
                let k = choose|k: int| 0 <= k < grown.len() && grown[k] == other;
                if k < records.len() {
                    assert(records[k] == other);
                }
            }
            if other == record {
                assert(grown[records.len() as int] == other);
            }
            if records.contains(other) {
                let m = choose|m: int| 0 <= m < records.len() && records[m] == other;
                assert(grown[m] == other);
            }
        }
    }
}

/// The records of the first entries stand in order and are those that the entries hold.
proof fn lemma_listed(
    intent: ProjectionIntentView,
    intent_id: ProjectionIntentId,
    entries: Seq<EvidenceEntry>,
    n: nat,
)
    requires
        n <= entries.len(),
        listed_records(intent, intent_id, entries, n) is Ok,
    ensures
        records_ascend(listed_records(intent, intent_id, entries, n)->Ok_0),
        forall|record: LocalProjectionEvidenceRecord| #[trigger]
            listed_records(intent, intent_id, entries, n)->Ok_0.contains(record) <==> exists|i: int|
                0 <= i < n && holds_record(intent, intent_id, #[trigger] entries[i], record),
    decreases n,
{
    if n > 0 {
        let before = listed_records(intent, intent_id, entries, (n - 1) as nat)->Ok_0;
        let all = listed_records(intent, intent_id, entries, n)->Ok_0;
        let last = evidence_entry(intent, intent_id, entries[n - 1])->Ok_0;
        lemma_listed(intent, intent_id, entries, (n - 1) as nat);
        if last is Some {
            lemma_insert_record(before, last->0);
        }
        assert forall|record: LocalProjectionEvidenceRecord| #[trigger]
            all.contains(record) <==> exists|i: int|
                0 <= i < n && holds_record(intent, intent_id, #[trigger] entries[i], record) by {
            assert(all.contains(record) <==> last == Some(record) || before.contains(record));
            if last == Some(record) {
                assert(holds_record(intent, intent_id, entries[n - 1], record));
            }
            if exists|i: int|
                0 <= i < n && holds_record(intent, intent_id, #[trigger] entries[i], record) {
                let i = choose|i: int|
                    0 <= i < n && holds_record(intent, intent_id, #[trigger] entries[i], record);
                if i < n - 1 {
                    assert(before.contains(record));
                }
            }
        }
    }
}

/// Listed evidence stands in the order of its attempts. It is exactly what the entries hold, and of
/// each record there is a reserved attempt of the same identifier and name: the record lies beside
/// the intent's page under that name.
pub proof fn law_listed_evidence_is_reserved(
    intent: ProjectionIntentView,
    intent_id: ProjectionIntentId,
    entries: Seq<EvidenceEntry>,
)
    requires
        listed_records(intent, intent_id, entries, entries.len()) is Ok,
    ensures
        ({
            let listed = listed_records(intent, intent_id, entries, entries.len())->Ok_0;
            &&& records_ascend(listed)
            &&& forall|record: LocalProjectionEvidenceRecord| #[trigger]
                listed.contains(record) <==> exists|i: int|
                    0 <= i < entries.len() && holds_record(
                        intent,
                        intent_id,
                        #[trigger] entries[i],
                        record,
                    )
            &&& forall|i: int, record: LocalProjectionEvidenceRecord|
                0 <= i < entries.len() && #[trigger] holds_record(
                    intent,
                    intent_id,
                    entries[i],
                    record,
                ) ==> entries[i].attempts is Ok && is_reserved_record(
                    intent,
                    intent_id,
                    record,
                    entries[i].attempts->Ok_0@,
                )
        }),
{
    lemma_listed(intent, intent_id, entries, entries.len());
    assert forall|i: int, record: LocalProjectionEvidenceRecord|
        0 <= i < entries.len() && #[trigger] holds_record(
            intent,
            intent_id,
            entries[i],
            record,
        ) implies entries[i].attempts is Ok && is_reserved_record(
        intent,
        intent_id,
        record,
        entries[i].attempts->Ok_0@,
    ) by {
        let attempts = entries[i].attempts->Ok_0@;
        lemma_attempt_found(attempts, record.attempt_id, 0);
        let k = first_attempt(attempts, record.attempt_id, 0)->0;
        assert(attempts[k].attempt_id == record.attempt_id);
    }
}

/// What lies beside a page: below its directory and a slash, or, for a page at the root, the name
/// alone.
pub proof fn law_evidence_lies_beside_the_page(
    directory: Seq<char>,
    page: Seq<char>,
    name: Seq<char>,
)
    requires
        !page.contains('/'),
    ensures
        sibling(page, name) == name,
        sibling(directory + seq!['/'] + page, name) == directory + seq!['/'] + name,
{
    assert forall|i: int| 0 <= i < page.len() implies page[i] != '/' by {
        assert(page.contains(page[i]));
    }
    lemma_name_start(page, 0);
    assert(page.take(0) + name =~= name);
    let text = directory + seq!['/'] + page;
    let start = directory.len() as int + 1;
    assert forall|i: int| start <= i < text.len() implies text[i] != '/' by {
        assert(text[i] == page[i - start]);
    }
    assert(text[start - 1] == '/');
    assert(is_name_start(text, start));
    lemma_name_start(text, start);
    assert(text.take(start) =~= directory + seq!['/']);
}

/// Whether an entry is an attempt of an intent: a file under the attempt's own name that holds its
/// canonical form, of the intent and its path.
pub open spec fn holds_attempt(
    intent: ProjectionIntentView,
    intent_id: ProjectionIntentId,
    entry: AttemptEntry,
    attempt: ProjectionAttemptReservation,
) -> bool {
    &&& entry.name is Some
    &&& entry.kind == EntryKind::File
    &&& (entry.name->0)@ == simple_text(attempt.attempt_id.value) + ".attempt"@
    &&& entry.stored is Ok
    &&& entry.stored->Ok_0 is Some
    &&& entry.stored->Ok_0->0.decoded == Ok::<_, String>(attempt)
    &&& entry.stored->Ok_0->0.encoded is Ok
    &&& entry.stored->Ok_0->0.encoded->Ok_0@ == entry.stored->Ok_0->0.bytes@
    &&& attempt.intent_id == intent_id
    &&& attempt.target_path.text@ == intent.path.text
    &&& attempt.recovery_filename@ == "."@ + file_name(intent.path.text) + "."@ + simple_text(
        attempt.attempt_id.value,
    ) + ".projection.recovery"@
}

/// What an accepted entry is: unfinished, or an attempt of the intent.
proof fn lemma_attempt_entry(
    intent: ProjectionIntentView,
    intent_id: ProjectionIntentId,
    entry: AttemptEntry,
)
    requires
        attempt_entry(intent, intent_id, entry) is Ok,
    ensures
        entry.name is Some,
        attempt_entry(intent, intent_id, entry)->Ok_0 is None <==> names_temp(
            (entry.name->0)@,
        ),
        attempt_entry(intent, intent_id, entry)->Ok_0 is Some ==> holds_attempt(
            intent,
            intent_id,
            entry,
            attempt_entry(intent, intent_id, entry)->Ok_0->0,
        ),
{
    if !names_temp((entry.name->0)@) {
        let found = attempt_of((entry.name->0)@)->0;
        let read = choose|id: Uuid|
            (entry.name->0)@ == #[trigger] crate::names::attempt_name(id);
        assert((entry.name->0)@ == crate::names::attempt_name(read));
        assert(found == read);
    }
}

/// Every attempt that is loaded for an intent is one that an entry holds, and every entry that is
/// finished holds one that is loaded; no more than a million are.
pub proof fn law_loaded_attempts_are_of_the_intent(
    intent: ProjectionIntentView,
    intent_id: ProjectionIntentId,
    entries: Seq<AttemptEntry>,
    n: nat,
)
    requires
        n <= entries.len(),
        listed_attempts(intent, intent_id, entries, n) is Ok,
    ensures
        listed_attempts(intent, intent_id, entries, n)->Ok_0.len() <= 1_000_000,
        forall|attempt: ProjectionAttemptReservation| #[trigger]
            listed_attempts(intent, intent_id, entries, n)->Ok_0.contains(attempt) ==> exists|
                i: int,
            |
                0 <= i < n && holds_attempt(intent, intent_id, #[trigger] entries[i], attempt),
        forall|i: int|
            0 <= i < n ==> (#[trigger] entries[i]).name is Some && (names_temp(
                (entries[i].name->0)@,
            ) || exists|attempt: ProjectionAttemptReservation|
                holds_attempt(intent, intent_id, entries[i], attempt) && #[trigger] listed_attempts(
                    intent,
                    intent_id,
                    entries,
                    n,
                )->Ok_0.contains(attempt)),
    decreases n,
{
    if n > 0 {
        law_loaded_attempts_are_of_the_intent(intent, intent_id, entries, (n - 1) as nat);
        lemma_attempt_entry(intent, intent_id, entries[n - 1]);
        let before = listed_attempts(intent, intent_id, entries, (n - 1) as nat)->Ok_0;
        let all = listed_attempts(intent, intent_id, entries, n)->Ok_0;
        let last = attempt_entry(intent, intent_id, entries[n - 1])->Ok_0;
        if last is Some {
            assert(all == before.push(last->0));
            assert(all[before.len() as int] == last->0);
        }
        assert forall|attempt: ProjectionAttemptReservation| #[trigger] all.contains(
            attempt,
        ) implies exists|i: int|
            0 <= i < n && holds_attempt(intent, intent_id, #[trigger] entries[i], attempt) by {
            let k = all.index_of(attempt);
            if k < before.len() {
                assert(before[k] == attempt);
                assert(before.contains(attempt));
            } else {
                assert(holds_attempt(intent, intent_id, entries[n - 1], attempt));
            }
        }
        assert forall|i: int| 0 <= i < n implies (#[trigger] entries[i]).name is Some && (
        names_temp((entries[i].name->0)@) || exists|attempt: ProjectionAttemptReservation|
            holds_attempt(intent, intent_id, entries[i], attempt) && #[trigger] all.contains(
                attempt,
            )) by {
            if i < n - 1 && !names_temp((entries[i].name->0)@) {
                let attempt = choose|attempt: ProjectionAttemptReservation|
                    holds_attempt(intent, intent_id, entries[i], attempt)
                        && #[trigger] before.contains(attempt);
                let k = before.index_of(attempt);
                assert(all[k] == attempt);
                assert(all.contains(attempt));
            } else if i == n - 1 && last is Some {
                assert(all.contains(last->0));
            }
        }
    }
}

/// A record of evidence that is read is in its canonical form and under the digest of its bytes; one
/// of the version before has no handle.
pub proof fn law_evidence_is_named_by_its_bytes(
    intent: ProjectionIntentView,
    intent_id: ProjectionIntentId,
    entry: EvidenceEntry,
    record: LocalProjectionEvidenceRecord,
)
    requires
        holds_record(intent, intent_id, entry, record),
    ensures
        entry.name is Some,
        entry.kind == EntryKind::File,
        entry.stored is Ok,
        entry.stored->Ok_0 is Some,
        entry.stored->Ok_0->0.decoded == Ok::<_, String>(record),
        entry.stored->Ok_0->0.encoded is Ok,
        entry.stored->Ok_0->0.encoded->Ok_0@ == entry.stored->Ok_0->0.bytes@,
        (entry.name->0)@ == hex_text(
            Digest::spec_from(sha256(entry.stored->Ok_0->0.bytes@)).spec_bytes(),
        ) + ".evidence"@,
        record.schema_version == 2 || record.schema_version == 1 && record.recovery_resource_id
            is None,
        record.observed.byte_length <= 64 * 1024 * 1024,
{
}

/// A marker that is read is in its canonical form, of a file whose handle is known, and observed, if
/// at all, as the evidence that it holds.
pub proof fn law_marker_is_of_its_evidence(bytes: Seq<u8>, parsed: ParsedMarker)
    requires
        stored_marker(bytes, parsed) is Ok,
    ensures
        ({
            let marker = stored_marker(bytes, parsed)->Ok_0;
            &&& parsed.decoded == Ok::<_, String>(marker)
            &&& parsed.encoded is Ok
            &&& parsed.encoded->Ok_0@ == bytes
            &&& parsed.evidence_bytes is Ok
            &&& marker.schema_version == 1
            &&& marker.evidence.schema_version == 2
            &&& marker.evidence.recovery_resource_id is Some
            &&& marker.observation is Some ==> marker.observation->0.schema_version == 1
                && marker.observation->0.evidence_digest == Digest::spec_from(
                sha256(parsed.evidence_bytes->Ok_0@),
            )
        }),
{
}

} // verus!
