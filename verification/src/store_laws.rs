//! What holds of reserving attempts and beginning mutations.

use vstd::prelude::*;

use crate::attempts::{
    attempt_entry, first_attempt, law_attempts_are_sorted, listed_attempts, loaded_attempts,
    sorted_attempts, stored_reservation, AttemptChoice, AttemptEntry, EntryKind,
    ProjectionAttemptReservation, StoredReservation, MAX_MUTATION_ATTEMPTS,
};
use crate::authority::{
    begins, is_among, optional_attempt, recorded_attempts, MutationSnapshot, MutationStart,
    StoreBinding, StoredAuthority,
};
use crate::files::{lease_check, LeaseAttempt};
use crate::ids::{lemma_simple_text, simple_text, ProjectionIntentId, Uuid};
use crate::intent::ProjectionIntentView;
use crate::names::{attempt_name, law_attempt_name_reads_back, names_temp, temp_name};
use crate::store::{
    attempt_outcome, mutation_outcome, published_check, ProjectionReceiptStore, PublishedIntent,
};
use crate::store_error::ProjectionStoreError;

verus! {

/// While another holds the lease of an intent, nothing is reserved for it and no mutation of it
/// begins: both are refused as pending, whatever the store holds.
pub proof fn law_held_lease_refuses(
    store: ProjectionReceiptStore,
    intent: ProjectionIntentView,
    intent_id: ProjectionIntentId,
    published: PublishedIntent,
    name: String,
    attempt: LeaseAttempt,
    current_attempt: Option<Uuid>,
    pending: Result<bool, ProjectionStoreError>,
    entries: Seq<AttemptEntry>,
    chosen: Result<AttemptChoice, ProjectionStoreError>,
    active: Option<ProjectionAttemptReservation>,
    recovery: Result<ProjectionAttemptReservation, ProjectionStoreError>,
    snapshot: MutationSnapshot,
    begun: Result<MutationStart, ProjectionStoreError>,
)
    requires
        published_check(store.workspace_id, intent, intent_id, published) is Ok,
        attempt is Contended,
        attempt_outcome(
            store.workspace_id,
            intent,
            intent_id,
            published,
            lease_check(name, attempt),
            current_attempt,
            pending,
            entries,
            chosen,
        ),
        mutation_outcome(
            store,
            intent,
            intent_id,
            published,
            lease_check(name, attempt),
            active,
            recovery,
            snapshot,
            begun,
        ),
    ensures
        chosen == Err::<AttemptChoice, _>(ProjectionStoreError::MutationAuthorityPending),
        begun == Err::<MutationStart, _>(ProjectionStoreError::MutationAuthorityPending),
{
}

/// Whether stored attempts are the given ones, each written canonically, in strictly ascending
/// order and no more than there may be.
pub open spec fn stores_attempts(
    intent: ProjectionIntentView,
    intent_id: ProjectionIntentId,
    stored: Seq<StoredReservation>,
    attempts: Seq<ProjectionAttemptReservation>,
) -> bool {
    &&& stored.len() == attempts.len()
    &&& attempts.len() <= MAX_MUTATION_ATTEMPTS
    &&& forall|i: int|
        0 <= i < attempts.len() ==> stored_reservation(intent, intent_id, #[trigger] stored[i])
            == Ok::<_, ProjectionStoreError>(attempts[i])
    &&& forall|i: int, j: int|
        0 <= i < j < attempts.len() ==> (#[trigger] attempts[i]).attempt_id.value < (
        #[trigger] attempts[j]).attempt_id.value
}

/// Stored attempts are read back.
proof fn lemma_stored_attempts(
    intent: ProjectionIntentView,
    intent_id: ProjectionIntentId,
    stored: Seq<StoredReservation>,
    attempts: Seq<ProjectionAttemptReservation>,
    n: nat,
)
    requires
        stores_attempts(intent, intent_id, stored, attempts),
        n <= attempts.len(),
    ensures
        recorded_attempts(intent, intent_id, stored, n) == Ok::<_, ProjectionStoreError>(
            attempts.take(n as int),
        ),
    decreases n,
{
    if n > 0 {
        lemma_stored_attempts(intent, intent_id, stored, attempts, (n - 1) as nat);
        let before = attempts.take(n - 1);
        assert(stored_reservation(intent, intent_id, stored[n - 1]) == Ok::<
            _,
            ProjectionStoreError,
        >(attempts[n - 1]));
        if n > 1 {
            assert(before.last() == attempts[n - 2]);
        }
        assert(before.push(attempts[n - 1]) =~= attempts.take(n as int));
    } else {
        assert(attempts.take(0) =~= Seq::<ProjectionAttemptReservation>::empty());
    }
}

/// An attempt that is there is found, and only it.
proof fn lemma_first_attempt(
    attempts: Seq<ProjectionAttemptReservation>,
    attempt_id: Uuid,
    from: int,
    i: int,
)
    requires
        0 <= from <= i < attempts.len(),
        attempts[i].attempt_id == attempt_id,
        forall|k: int, l: int|
            0 <= k < l < attempts.len() ==> (#[trigger] attempts[k]).attempt_id.value < (
            #[trigger] attempts[l]).attempt_id.value,
    ensures
        first_attempt(attempts, attempt_id, from) == Some(i),
    decreases i - from,
{
    if from < i {
        assert(attempts[from].attempt_id.value < attempts[i].attempt_id.value);
        lemma_first_attempt(attempts, attempt_id, from + 1, i);
    }
}

/// Once the lease of an intent is free again, a mutation of it begins: over the record that an
/// interrupted mutation left, with that record and the attempt it was written for; and without a
/// record afresh, under the attempt that is reserved.
pub proof fn law_released_mutation_begins_again(
    store: StoreBinding,
    intent: ProjectionIntentView,
    intent_id: ProjectionIntentId,
    active: Option<ProjectionAttemptReservation>,
    recovery: Result<ProjectionAttemptReservation, ProjectionStoreError>,
    snapshot: MutationSnapshot,
    start: MutationStart,
    stored: StoredAuthority,
    resumed: Result<MutationStart, ProjectionStoreError>,
    reservation: ProjectionAttemptReservation,
    afresh: Result<MutationStart, ProjectionStoreError>,
)
    requires
        start is Fresh,
        begins(
            store,
            intent,
            intent_id,
            Ok(()),
            active,
            recovery,
            snapshot,
            Ok(start),
        ),
        start->Fresh_active is Some ==> is_among(
            snapshot.attempts->Ok_0@,
            start->Fresh_active->0,
        ),
        stored.decoded == Ok::<_, String>(start->Fresh_durable),
        stored.encoded is Ok,
        stored.encoded->Ok_0@ == stored.bytes@,
        stores_attempts(intent, intent_id, stored.reservations@, snapshot.attempts->Ok_0@),
        begins(
            store,
            intent,
            intent_id,
            Ok(()),
            None,
            recovery,
            MutationSnapshot { existing: Ok(Some(stored)), ..snapshot },
            resumed,
        ),
        begins(
            store,
            intent,
            intent_id,
            Ok(()),
            None,
            Ok(reservation),
            MutationSnapshot { existing: Ok(None), ..snapshot },
            afresh,
        ),
    ensures
        resumed is Ok,
        resumed->Ok_0 is Resumed,
        resumed->Ok_0->Resumed_durable == start->Fresh_durable,
        resumed->Ok_0->Resumed_durable_bytes == stored.bytes,
        optional_attempt(resumed->Ok_0->Resumed_active) == optional_attempt(start->Fresh_active),
        afresh is Ok,
        afresh->Ok_0 is Fresh,
        afresh->Ok_0->Fresh_active == Some(reservation),
{
    let attempts = snapshot.attempts->Ok_0@;
    let kept = stored.reservations@;
    lemma_stored_attempts(intent, intent_id, kept, attempts, attempts.len());
    assert(attempts.take(attempts.len() as int) =~= attempts);
    if let Some(requested) = start->Fresh_active {
        let i = choose|i: int|
            0 <= i < attempts.len() && (#[trigger] attempts[i])@ == requested@;
        lemma_first_attempt(attempts, requested.attempt_id, 0, i);
    }
}

/// The name of an attempt is not that of a file that is being written.
proof fn lemma_attempt_is_not_temporary(attempt_id: Uuid)
    ensures
        !names_temp(attempt_name(attempt_id)),
{
    lemma_simple_text(attempt_id.value);
    reveal_strlit(".tmp-");
    if names_temp(attempt_name(attempt_id)) {
        let value = choose|value: u128| attempt_name(attempt_id) == #[trigger] temp_name(value);
        assert(attempt_name(attempt_id)[0] == simple_text(attempt_id.value)[0]);
        assert(temp_name(value)[0] == '.');
    }
}

/// Whether an entry of the directory of attempts is what publishing a reservation leaves there.
pub open spec fn holds_reservation(
    entry: AttemptEntry,
    reservation: ProjectionAttemptReservation,
) -> bool {
    &&& entry.name is Some
    &&& entry.name->0@ == attempt_name(reservation.attempt_id)
    &&& entry.kind == EntryKind::File
    &&& entry.stored is Ok
    &&& entry.stored->Ok_0 is Some
    &&& entry.stored->Ok_0->0.decoded == Ok::<_, String>(reservation)
    &&& entry.stored->Ok_0->0.encoded is Ok
    &&& entry.stored->Ok_0->0.encoded->Ok_0@ == entry.stored->Ok_0->0.bytes@
}

/// Where a directory lists no attempt, adding one lists that one.
proof fn lemma_added_attempt(
    intent: ProjectionIntentView,
    intent_id: ProjectionIntentId,
    entries: Seq<AttemptEntry>,
    at: int,
    entry: AttemptEntry,
    reservation: ProjectionAttemptReservation,
    n: nat,
)
    requires
        0 <= at <= entries.len(),
        n <= entries.len(),
        listed_attempts(intent, intent_id, entries, n) == Ok::<_, ProjectionStoreError>(
            Seq::<ProjectionAttemptReservation>::empty(),
        ),
        attempt_entry(intent, intent_id, entry) == Ok::<_, ProjectionStoreError>(Some(reservation)),
    ensures
        n <= at ==> listed_attempts(intent, intent_id, entries.insert(at, entry), n) == Ok::<
            _,
            ProjectionStoreError,
        >(Seq::<ProjectionAttemptReservation>::empty()),
        n >= at ==> listed_attempts(intent, intent_id, entries.insert(at, entry), n + 1) == Ok::<
            _,
            ProjectionStoreError,
        >(seq![reservation]),
    decreases n,
{
    let added = entries.insert(at, entry);
    let none = Seq::<ProjectionAttemptReservation>::empty();
    assert(none.push(reservation) =~= seq![reservation]);
    if n > 0 {
        let m = (n - 1) as nat;
        let before = listed_attempts(intent, intent_id, entries, m);
        assert(before is Ok);
        if before->Ok_0.len() > 0 {
            assert(listed_attempts(intent, intent_id, entries, n)->Ok_0.len() > 0);
        }
        assert(before->Ok_0 =~= none);
        lemma_added_attempt(intent, intent_id, entries, at, entry, reservation, m);
        assert(attempt_entry(intent, intent_id, entries[m as int]) == Ok::<
            _,
            ProjectionStoreError,
        >(None::<ProjectionAttemptReservation>)) by {
            if attempt_entry(intent, intent_id, entries[m as int])->Ok_0 is Some {
                assert(listed_attempts(intent, intent_id, entries, n)->Ok_0.len() > 0);
            }
        }
        if n <= at {
            assert(added[m as int] == entries[m as int]);
        }
        if n > at {
            assert(added[n as int] == entries[m as int]);
        }
    }
    if n == at {
        assert(added[n as int] == entry);
        assert(listed_attempts(intent, intent_id, added, n + 1) == Ok::<_, ProjectionStoreError>(
            none.push(reservation),
        ));
    }
}

/// A reservation is made once: after a new attempt was reserved and published, reserving again
/// gives it back, under whatever attempt the turn runs then, and it is the only one that is loaded.
/// Wherever the directory lists what was published.
pub proof fn law_reserving_again_gives_the_same(
    store: ProjectionReceiptStore,
    intent: ProjectionIntentView,
    intent_id: ProjectionIntentId,
    published: PublishedIntent,
    first_turn: Option<Uuid>,
    entries: Seq<AttemptEntry>,
    reservation: ProjectionAttemptReservation,
    entry: AttemptEntry,
    at: int,
    later_turn: Uuid,
    chosen: Result<AttemptChoice, ProjectionStoreError>,
)
    requires
        attempt_outcome(
            store.workspace_id,
            intent,
            intent_id,
            published,
            Ok(()),
            first_turn,
            Ok(false),
            entries,
            Ok(AttemptChoice::New(reservation)),
        ),
        holds_reservation(entry, reservation),
        0 <= at <= entries.len(),
        attempt_outcome(
            store.workspace_id,
            intent,
            intent_id,
            published,
            Ok(()),
            Some(later_turn),
            Ok(false),
            entries.insert(at, entry),
            chosen,
        ),
    ensures
        loaded_attempts(intent, intent_id, entries.insert(at, entry)) == Ok::<
            _,
            ProjectionStoreError,
        >(seq![reservation]),
        chosen is Ok,
        chosen->Ok_0 is Existing,
        chosen->Ok_0->Existing_0@ == reservation@,
{
    let listed = listed_attempts(intent, intent_id, entries, entries.len());
    assert(listed is Ok);
    law_attempts_are_sorted(listed->Ok_0);
    assert(listed->Ok_0 =~= Seq::<ProjectionAttemptReservation>::empty());
    law_attempt_name_reads_back(reservation.attempt_id);
    lemma_attempt_is_not_temporary(reservation.attempt_id);
    lemma_added_attempt(intent, intent_id, entries, at, entry, reservation, entries.len());
    let one = seq![reservation];
    let none = Seq::<ProjectionAttemptReservation>::empty();
    assert(one.drop_last() =~= none);
    assert(sorted_attempts(one) =~= one) by {
        assert(sorted_attempts(none) =~= none);
        assert(none.push(reservation) =~= one);
    }
    reveal_with_fuel(first_attempt, 2);
}

} // verus!
