//! What holds of the authority to mutate a page.

use vstd::prelude::*;

use crate::annotation::ReceiptError;
use crate::attempts::{
    first_attempt, reservation_choice, reservation_of, stored_reservation, AttemptChoice,
    ProjectionAttemptReservation, StoredReservation,
};
use crate::authority::{
    authority_attempts, begins, byte_views, completion_check, operation_comes_to,
    operation_is_allowed, optional_binding, reconciliation, recorded_attempts, reservation_views,
    same_authority, DurableProjectionMutationAuthority, MutationSnapshot, MutationStart,
    ProjectionMutationAuthority, Reconciliation, StoreBinding,
};
use crate::hash::{sha256, BlobDescription, Digest};
use crate::ids::{simple_text, ProjectionIntentId, Uuid};
use crate::intent::{ProjectionIntentView, ProjectionPrecondition};
use crate::messages::HostWords;
use crate::page::optional_text;
use crate::path::file_name;
use crate::store_error::{IoFailure, ProjectionStoreError};

verus! {

/// Whether an authority is that of a store over an intent: it names the store, its claim, its
/// workspace, endpoint and directories, the intent and its encoding, and the base that the intent
/// starts from, which is there as described.
pub open spec fn is_authority_over(
    durable: DurableProjectionMutationAuthority,
    store: StoreBinding,
    intent: ProjectionIntentView,
    intent_id: ProjectionIntentId,
    snapshot: MutationSnapshot,
) -> bool {
    &&& snapshot.claim is Ok
    &&& snapshot.claim->Ok_0 is Some
    &&& snapshot.intent_bytes is Ok
    &&& snapshot.attempts_identity is Ok
    &&& snapshot.forensics_identity is Ok
    &&& durable.schema_version == 1
    &&& durable.store_id == store.store_id
    &&& durable.store_claim_digest == Digest::spec_from(sha256(snapshot.claim->Ok_0->0@))
    &&& durable.workspace_id == store.workspace_id
    &&& optional_text(durable.endpoint_binding) == optional_binding(store.endpoint)
    &&& durable.intent_id == intent_id
    &&& durable.intent_digest == Digest::spec_from(sha256(snapshot.intent_bytes->Ok_0@))
    &&& durable.namespace_identities == store.namespace_identities
    &&& durable.attempts_identity == snapshot.attempts_identity->Ok_0
    &&& durable.forensics_identity == snapshot.forensics_identity->Ok_0
    &&& match intent.precondition {
        ProjectionPrecondition::Absent => durable.base is None,
        ProjectionPrecondition::Base(description) => durable.base == Some(description)
            && snapshot.base is Ok && snapshot.base->Ok_0 is Some && BlobDescription::spec_of(
            snapshot.base->Ok_0->0@,
        ) == description,
    }
}

/// A mutation that begins is over its intent in its store. One whose record was there goes on with
/// exactly that record, which was written canonically, with its attempts, which are those that are
/// live, and with its own active attempt; one without a record starts with the live attempts.
pub proof fn law_mutation_is_over_its_intent(
    store: StoreBinding,
    intent: ProjectionIntentView,
    intent_id: ProjectionIntentId,
    lease: Result<(), ProjectionStoreError>,
    active: Option<ProjectionAttemptReservation>,
    recovery: Result<ProjectionAttemptReservation, ProjectionStoreError>,
    snapshot: MutationSnapshot,
    begun: Result<MutationStart, ProjectionStoreError>,
)
    requires
        begins(store, intent, intent_id, lease, active, recovery, snapshot, begun),
        begun is Ok,
    ensures
        lease is Ok,
        snapshot.existing is Ok,
        snapshot.attempts is Ok,
        begun->Ok_0 is Resumed <==> snapshot.existing->Ok_0 is Some,
        begun->Ok_0 is Resumed ==> {
            let stored = snapshot.existing->Ok_0->0;
            &&& is_authority_over(
                begun->Ok_0->Resumed_durable,
                store,
                intent,
                intent_id,
                snapshot,
            )
            &&& stored.decoded == Ok::<_, String>(begun->Ok_0->Resumed_durable)
            &&& stored.encoded is Ok
            &&& stored.encoded->Ok_0@ == stored.bytes@
            &&& begun->Ok_0->Resumed_durable_bytes@ == stored.bytes@
            &&& begun->Ok_0->Resumed_reservation_bytes@.len() == stored.reservations@.len()
            &&& reservation_views(begun->Ok_0->Resumed_reservations@) == reservation_views(
                snapshot.attempts->Ok_0@,
            )
            &&& begun->Ok_0->Resumed_active is Some
                <==> begun->Ok_0->Resumed_durable.active_attempt_id is Some
            &&& begun->Ok_0->Resumed_active is Some ==> Some(
                begun->Ok_0->Resumed_active->0.attempt_id,
            ) == begun->Ok_0->Resumed_durable.active_attempt_id
            &&& active is Some ==> begun->Ok_0->Resumed_active is Some && active->0@
                == begun->Ok_0->Resumed_active->0@
        },
        begun->Ok_0 is Fresh ==> {
            &&& is_authority_over(begun->Ok_0->Fresh_durable, store, intent, intent_id, snapshot)
            &&& begun->Ok_0->Fresh_reservations == snapshot.attempts->Ok_0
            &&& snapshot.attempt_bytes == Ok::<_, String>(begun->Ok_0->Fresh_reservation_bytes)
            &&& active is Some ==> begun->Ok_0->Fresh_active == active
            &&& active is None ==> recovery is Ok && begun->Ok_0->Fresh_active == Some(
                recovery->Ok_0,
            )
            &&& begun->Ok_0->Fresh_active is Some
            &&& begun->Ok_0->Fresh_durable.active_attempt_id == Some(
                begun->Ok_0->Fresh_active->0.attempt_id,
            )
        },
{
    if begun->Ok_0 is Resumed {
        let stored = snapshot.existing->Ok_0->0;
        let attempts = begun->Ok_0->Resumed_reservations@;
        let id = stored.decoded->Ok_0.active_attempt_id;
        assert(byte_views(begun->Ok_0->Resumed_reservation_bytes@).len()
            == stored.reservations@.len());
        if id is Some {
            lemma_first_attempt(attempts, id->0, 0);
        }
    }
}

/// The first attempt with an identifier has it.
proof fn lemma_first_attempt(
    attempts: Seq<ProjectionAttemptReservation>,
    attempt_id: Uuid,
    at: int,
)
    requires
        0 <= at,
    ensures
        match first_attempt(attempts, attempt_id, at) {
            Some(found) => at <= found < attempts.len() && attempts[found].attempt_id
                == attempt_id,
            None => forall|k: int|
                at <= k < attempts.len() ==> (#[trigger] attempts[k]).attempt_id != attempt_id,
        },
    decreases attempts.len() - at,
{
    if at < attempts.len() && attempts[at].attempt_id != attempt_id {
        lemma_first_attempt(attempts, attempt_id, at + 1);
    }
}

/// An attempt that is asked for by name begins a mutation only where it is of the intent, at its
/// path and under its own file name, and among the live ones.
pub proof fn law_only_a_live_attempt_begins_a_mutation(
    store: StoreBinding,
    intent: ProjectionIntentView,
    intent_id: ProjectionIntentId,
    lease: Result<(), ProjectionStoreError>,
    active: ProjectionAttemptReservation,
    recovery: Result<ProjectionAttemptReservation, ProjectionStoreError>,
    snapshot: MutationSnapshot,
    begun: Result<MutationStart, ProjectionStoreError>,
)
    requires
        begins(store, intent, intent_id, lease, Some(active), recovery, snapshot, begun),
        begun is Ok,
    ensures
        active.intent_id == intent_id,
        active.target_path.text@ == intent.path.text,
        active.recovery_filename@ == "."@ + file_name(intent.path.text) + "."@ + simple_text(
            active.attempt_id.value,
        ) + ".projection.recovery"@,
        exists|i: int|
            0 <= i < snapshot.attempts->Ok_0@.len() && (
            #[trigger] snapshot.attempts->Ok_0@[i])@ == active@,
{
}

/// An authority lets one operation through, while it is live and on the path of its attempts; it
/// refuses every other.
pub proof fn law_authority_is_for_one_operation(
    authority: ProjectionMutationAuthority,
    live: Result<(), ProjectionStoreError>,
    words: HostWords,
    path: Seq<char>,
    consumed: Result<(), IoFailure>,
)
    requires
        operation_comes_to(authority, live, words, path, consumed),
    ensures
        consumed is Ok <==> {
            &&& !authority.graph_operation_consumed
            &&& live is Ok
            &&& forall|i: int|
                0 <= i < authority.reservations@.len() ==> (
                #[trigger] authority.reservations@[i]).target_path.text@ == path
            &&& authority.active is Some ==> authority.active->0.target_path.text@ == path
        },
        consumed is Err ==> consumed->Err_0.kind is PermissionDenied
            && !consumed->Err_0.semantic_refusal,
{
}

/// An authority publishes a completion only of its own intent, in its own store.
pub proof fn law_authority_completes_its_own_intent(
    authority: ProjectionMutationAuthority,
    store: StoreBinding,
    intent_id: ProjectionIntentId,
    intent_bytes: Result<Vec<u8>, ReceiptError>,
)
    ensures
        completion_check(authority, store, intent_id, intent_bytes) is Ok <==> {
            &&& intent_bytes is Ok
            &&& authority.durable.intent_digest == Digest::spec_from(
                sha256(intent_bytes->Ok_0@),
            )
            &&& authority.durable.intent_id == intent_id
            &&& authority.durable.store_id == store.store_id
            &&& authority.durable.workspace_id == store.workspace_id
            &&& optional_text(authority.durable.endpoint_binding) == optional_binding(
                store.endpoint,
            )
            &&& authority.durable.namespace_identities == store.namespace_identities
        },
        intent_bytes is Ok && completion_check(authority, store, intent_id, intent_bytes) is Err
            ==> completion_check(authority, store, intent_id, intent_bytes)->Err_0
            is MutationAuthorityMismatch,
{
}

/// Behind a completion, a record that is there is removed only where it is the authority over the
/// completed intent; where there is none, nothing is done.
pub proof fn law_only_its_own_record_is_reconciled(
    store: StoreBinding,
    intent: ProjectionIntentView,
    intent_id: ProjectionIntentId,
    lease: Result<(), ProjectionStoreError>,
    snapshot: MutationSnapshot,
)
    requires
        reconciliation(store, intent, intent_id, lease, snapshot) is Ok,
    ensures
        lease is Ok,
        snapshot.existing is Ok,
        reconciliation(store, intent, intent_id, lease, snapshot)->Ok_0 == (
        if snapshot.existing->Ok_0 is Some {
            Reconciliation::RemoveRecord
        } else {
            Reconciliation::Nothing
        }),
        snapshot.existing->Ok_0 is Some ==> {
            let stored = snapshot.existing->Ok_0->0;
            &&& stored.decoded is Ok
            &&& stored.encoded is Ok
            &&& stored.encoded->Ok_0@ == stored.bytes@
            &&& is_authority_over(stored.decoded->Ok_0, store, intent, intent_id, snapshot)
        },
{
}

/// Recorded attempts are read back in the order of their records, each by itself, and stand in
/// strictly ascending order.
proof fn lemma_recorded(
    intent: ProjectionIntentView,
    intent_id: ProjectionIntentId,
    stored: Seq<StoredReservation>,
    n: nat,
)
    requires
        n <= stored.len(),
        recorded_attempts(intent, intent_id, stored, n) is Ok,
    ensures
        recorded_attempts(intent, intent_id, stored, n)->Ok_0.len() == n,
        forall|k: int|
            0 <= k < n ==> stored_reservation(intent, intent_id, #[trigger] stored[k]) == Ok::<
                _,
                ProjectionStoreError,
            >(recorded_attempts(intent, intent_id, stored, n)->Ok_0[k]),
        forall|j: int, k: int|
            0 <= j < k < n ==> (#[trigger] recorded_attempts(
                intent,
                intent_id,
                stored,
                n,
            )->Ok_0[j]).attempt_id.value < (#[trigger] recorded_attempts(
                intent,
                intent_id,
                stored,
                n,
            )->Ok_0[k]).attempt_id.value,
    decreases n,
{
    if n > 0 {
        lemma_recorded(intent, intent_id, stored, (n - 1) as nat);
        let before = recorded_attempts(intent, intent_id, stored, (n - 1) as nat)->Ok_0;
        let all = recorded_attempts(intent, intent_id, stored, n)->Ok_0;
        assert(all.drop_last() =~= before);
        assert forall|j: int, k: int| 0 <= j < k < n implies (
        #[trigger] all[j]).attempt_id.value < (#[trigger] all[k]).attempt_id.value by {
            assert(all[j] == before[j]);
            if k < n - 1 {
                assert(all[k] == before[k]);
            } else {
                assert(before[n - 2] == before.last());
            }
        }
        assert forall|k: int| 0 <= k < n implies stored_reservation(
            intent,
            intent_id,
            #[trigger] stored[k],
        ) == Ok::<_, ProjectionStoreError>(all[k]) by {
            if k < n - 1 {
                assert(all[k] == before[k]);
            }
        }
    }
}

/// The attempts that an authority records are no more than a million, each of the intent and in its
/// canonical form, each once and in the order of their identifiers; the active one is among them.
pub proof fn law_recorded_attempts_are_of_the_intent(
    intent: ProjectionIntentView,
    intent_id: ProjectionIntentId,
    active_attempt_id: Option<Uuid>,
    stored: Seq<StoredReservation>,
)
    requires
        authority_attempts(intent, intent_id, active_attempt_id, stored) is Ok,
    ensures
        ({
            let attempts = authority_attempts(
                intent,
                intent_id,
                active_attempt_id,
                stored,
            )->Ok_0;
            &&& attempts.len() == stored.len()
            &&& attempts.len() <= 1_000_000
            &&& forall|k: int|
                0 <= k < attempts.len() ==> {
                    &&& stored[k].decoded == Ok::<_, String>(#[trigger] attempts[k])
                    &&& stored[k].encoded is Ok
                    &&& stored[k].encoded->Ok_0@ == stored[k].bytes@
                    &&& attempts[k].intent_id == intent_id
                    &&& attempts[k].target_path.text@ == intent.path.text
                }
            &&& forall|j: int, k: int|
                0 <= j < k < attempts.len() ==> (#[trigger] attempts[j]).attempt_id.value < (
                #[trigger] attempts[k]).attempt_id.value
            &&& active_attempt_id is Some ==> exists|k: int|
                0 <= k < attempts.len() && (#[trigger] attempts[k]).attempt_id
                    == active_attempt_id->0
        }),
{
    let attempts = authority_attempts(intent, intent_id, active_attempt_id, stored)->Ok_0;
    lemma_recorded(intent, intent_id, stored, stored.len());
    if active_attempt_id is Some {
        lemma_first_attempt(attempts, active_attempt_id->0, 0);
        let found = first_attempt(attempts, active_attempt_id->0, 0)->0;
        assert(attempts[found].attempt_id == active_attempt_id->0);
    }
    assert forall|k: int| 0 <= k < attempts.len() implies {
        &&& stored[k].decoded == Ok::<_, String>(#[trigger] attempts[k])
        &&& stored[k].encoded is Ok
        &&& stored[k].encoded->Ok_0@ == stored[k].bytes@
        &&& attempts[k].intent_id == intent_id
        &&& attempts[k].target_path.text@ == intent.path.text
    } by {
        assert(stored_reservation(intent, intent_id, stored[k]) == Ok::<_, ProjectionStoreError>(
            attempts[k],
        ));
    }
}

/// An attempt is reserved once: one with the identifier is used again where it is there, any other
/// where any will do, and a new one, of exactly the intent, its path and the identifier, is made
/// only where there is none to use and room for one more. Nothing is reserved while a mutation is
/// pending.
pub proof fn law_attempt_is_reserved_once(
    authority_is_pending: bool,
    attempts: Seq<ProjectionAttemptReservation>,
    intent: ProjectionIntentView,
    intent_id: ProjectionIntentId,
    attempt_id: Uuid,
    reuse_any: bool,
    choice: Result<AttemptChoice, ProjectionStoreError>,
)
    requires
        reservation_choice(
            authority_is_pending,
            attempts,
            intent,
            intent_id,
            attempt_id,
            reuse_any,
            choice,
        ),
    ensures
        ({
            let known = exists|k: int|
                0 <= k < attempts.len() && (#[trigger] attempts[k]).attempt_id == attempt_id;
            &&& authority_is_pending ==> choice is Err
                && choice->Err_0 is MutationAuthorityPending
            &&& !authority_is_pending && known ==> choice is Ok && choice->Ok_0 is Existing
                && choice->Ok_0->Existing_0.attempt_id == attempt_id
            &&& !authority_is_pending && !known && reuse_any && attempts.len() > 0 ==> choice is Ok
                && choice->Ok_0 is Existing && choice->Ok_0->Existing_0@ == attempts[0]@
            &&& !authority_is_pending && !known && (!reuse_any || attempts.len() == 0)
                && attempts.len() != 1_000_000 ==> choice is Ok && choice->Ok_0 is New
                && choice->Ok_0->New_0.attempt_id == attempt_id && choice->Ok_0->New_0.intent_id
                == intent_id && choice->Ok_0->New_0.target_path.text@ == intent.path.text
                && choice->Ok_0->New_0.recovery_filename@ == "."@ + file_name(intent.path.text)
                + "."@ + simple_text(attempt_id.value) + ".projection.recovery"@
            &&& !authority_is_pending && !known && !reuse_any && attempts.len() == 1_000_000
                ==> choice is Err && choice->Err_0 is MutationAuthorityTooLarge
        }),
{
    lemma_first_attempt(attempts, attempt_id, 0);
    let found = first_attempt(attempts, attempt_id, 0);
    if found is Some && !authority_is_pending {
        assert(attempts[found->0].attempt_id == attempt_id);
        assert(choice->Ok_0->Existing_0@.attempt_id == attempt_id);
    }
    if !authority_is_pending && choice is Ok && choice->Ok_0 is New {
        assert(choice->Ok_0->New_0@ == reservation_of(intent, intent_id, attempt_id));
        assert(choice->Ok_0->New_0@.target_path.text == choice->Ok_0->New_0.target_path.text@);
    }
}

/// A mutation whose record names one attempt is not begun by another, nor while another holds its
/// lease, nor where its base is gone or is another.
pub proof fn law_mutation_is_not_begun_otherwise(
    store: StoreBinding,
    intent: ProjectionIntentView,
    intent_id: ProjectionIntentId,
    lease: Result<(), ProjectionStoreError>,
    active: Option<ProjectionAttemptReservation>,
    recovery: Result<ProjectionAttemptReservation, ProjectionStoreError>,
    snapshot: MutationSnapshot,
    begun: Result<MutationStart, ProjectionStoreError>,
)
    requires
        begins(store, intent, intent_id, lease, active, recovery, snapshot, begun),
    ensures
        lease is Err ==> begun is Err && begun->Err_0 == lease->Err_0,
        active is Some && snapshot.existing is Ok && snapshot.existing->Ok_0 is Some
            && snapshot.existing->Ok_0->0.decoded is Ok
            && snapshot.existing->Ok_0->0.decoded->Ok_0.active_attempt_id != Some(
            active->0.attempt_id,
        ) ==> begun is Err,
        intent.precondition is Base && snapshot.base is Ok && (snapshot.base->Ok_0 is None
            || BlobDescription::spec_of((snapshot.base->Ok_0->0)@)
            != intent.precondition->Base_0) ==> begun is Err,
        active is None && lease is Ok && snapshot.existing is Ok && snapshot.existing->Ok_0 is None
            && recovery is Err ==> begun is Err && begun->Err_0 == recovery->Err_0,
{
    if begun is Ok {
        law_mutation_is_over_its_intent(
            store,
            intent,
            intent_id,
            lease,
            active,
            recovery,
            snapshot,
            begun,
        );
        if begun->Ok_0 is Resumed && active is Some {
            assert(active->0@.attempt_id == begun->Ok_0->Resumed_active->0@.attempt_id);
        }
    }
}

/// An operation is allowed to an authority that was not used yet, is live and whose attempts are all
/// at the path, and to no other.
pub proof fn law_operation_is_allowed_once_and_live(
    authority: ProjectionMutationAuthority,
    live: Result<(), ProjectionStoreError>,
    path: Seq<char>,
)
    ensures
        operation_is_allowed(authority, live, path) <==> {
            &&& !authority.graph_operation_consumed
            &&& live is Ok
            &&& forall|i: int|
                0 <= i < authority.reservations@.len() ==> (
                #[trigger] authority.reservations@[i]).target_path.text@ == path
            &&& authority.active is Some ==> authority.active->0.target_path.text@ == path
        },
{
}

/// Using an authority changes nothing about it but that it was used.
pub proof fn law_use_changes_only_that_it_was_used(
    before: ProjectionMutationAuthority,
    after: ProjectionMutationAuthority,
)
    ensures
        same_authority(before, after) <==> after == (ProjectionMutationAuthority {
            graph_operation_consumed: after.graph_operation_consumed,
            ..before
        }),
{
}

} // verus!
