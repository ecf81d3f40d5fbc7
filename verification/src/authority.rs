//! The authority to mutate: one durable record, one graph operation, one completion.

use vstd::prelude::*;

use crate::annotation::ReceiptError;
use crate::attempts::{
    check_stored_reservation, find_attempt, first_attempt, reservation_binds, stored_reservation,
    ProjectionAttemptReservation, StoredReservation, MAX_MUTATION_ATTEMPTS,
};
use crate::bytes::{copy_bytes, same_bytes};
use crate::claim::{
    binding_bytes, derivation_input, deterministic_mutation_uuid, endpoint_binding_bytes,
    marked_uuid_bytes, NamespaceIdentities,
};
use crate::evidence::{
    proof_is_of, record_evidence, record_of, require_write_proof, LocalProjectionEvidenceRecord,
    ProjectionWriteProof,
};
use crate::execution::ProjectionEndpointBinding;
use crate::hash::{BlobDescription, Digest};
use crate::ids::{ProjectionIntentId, ProjectionReceiptStoreId, Uuid, WorkspaceId};
use crate::intent::{ProjectionIntent, ProjectionIntentView, ProjectionPrecondition};
use crate::messages::{store_error_text, HostWords};
use crate::store_error::{IoFailure, IoFailureKind, ProjectionStoreError, Reason};
use crate::text::same_text;

verus! {

/// The version of durable authorities.
pub const MUTATION_AUTHORITY_SCHEMA_VERSION: u32 = 1;

/// How long a durable authority may be.
pub const MAX_MUTATION_AUTHORITY_BYTES: usize = 67_108_864;

/// What a durable authority binds, without the attempts that it lists.
#[derive(Clone, Debug, PartialEq, Eq)]
pub struct DurableProjectionMutationAuthority {
    pub schema_version: u32,
    pub authority_id: Uuid,
    pub store_id: ProjectionReceiptStoreId,
    pub store_claim_digest: Digest,
    pub workspace_id: WorkspaceId,
    pub endpoint_binding: Option<Vec<u8>>,
    pub intent_id: ProjectionIntentId,
    pub intent_digest: Digest,
    pub base: Option<BlobDescription>,
    pub namespace_identities: NamespaceIdentities,
    pub attempts_identity: Digest,
    pub forensics_identity: Digest,
    pub active_attempt_id: Option<Uuid>,
}

/// What an authority must bind: the store as it is now, and the intent.
#[derive(Debug, PartialEq, Eq)]
pub struct AuthorityBinding {
    pub store_id: ProjectionReceiptStoreId,
    pub store_claim_digest: Digest,
    pub workspace_id: WorkspaceId,
    pub endpoint: Option<ProjectionEndpointBinding>,
    pub intent_id: ProjectionIntentId,
    pub intent_digest: Digest,
    pub base: Option<BlobDescription>,
    pub namespace_identities: NamespaceIdentities,
    pub attempts_identity: Digest,
    pub forensics_identity: Digest,
}

/// The bytes of an optional endpoint.
pub open spec fn optional_binding(endpoint: Option<ProjectionEndpointBinding>) -> Option<Seq<u8>> {
    match endpoint {
        None => None,
        Some(endpoint) => Some(binding_bytes(endpoint)),
    }
}

/// Whether the bytes of an endpoint are those of this one.
pub fn same_binding(bytes: &Option<Vec<u8>>, endpoint: Option<ProjectionEndpointBinding>) -> (same: bool)
    ensures
        same == (crate::page::optional_text(*bytes) == optional_binding(endpoint)),
{
    match (bytes, endpoint) {
        (None, None) => true,
        (Some(bytes), Some(endpoint)) => same_bytes(
            bytes.as_slice(),
            endpoint_binding_bytes(endpoint).as_slice(),
        ),
        _ => false,
    }
}

/// Whether a durable authority binds what it must.
pub open spec fn authority_binds(
    durable: DurableProjectionMutationAuthority,
    binding: AuthorityBinding,
) -> bool {
    &&& durable.schema_version == MUTATION_AUTHORITY_SCHEMA_VERSION
    &&& durable.store_id == binding.store_id
    &&& durable.store_claim_digest == binding.store_claim_digest
    &&& durable.workspace_id == binding.workspace_id
    &&& crate::page::optional_text(durable.endpoint_binding) == optional_binding(binding.endpoint)
    &&& durable.intent_id == binding.intent_id
    &&& durable.intent_digest == binding.intent_digest
    &&& durable.base == binding.base
    &&& durable.namespace_identities == binding.namespace_identities
    &&& durable.attempts_identity == binding.attempts_identity
    &&& durable.forensics_identity == binding.forensics_identity
}

/// Whether two optional descriptions are the same.
fn same_description(a: Option<BlobDescription>, b: Option<BlobDescription>) -> (same: bool)
    ensures
        same == (a == b),
{
    match (a, b) {
        (None, None) => true,
        (Some(a), Some(b)) => a == b,
        _ => false,
    }
}

impl DurableProjectionMutationAuthority {
    /// Whether the authority binds what it must.
    pub fn binds(&self, binding: &AuthorityBinding) -> (binds: bool)
        ensures
            binds == authority_binds(*self, *binding),
    {
        self.schema_version == MUTATION_AUTHORITY_SCHEMA_VERSION && self.store_id
            == binding.store_id && self.store_claim_digest == binding.store_claim_digest
            && self.workspace_id == binding.workspace_id && same_binding(
            &self.endpoint_binding,
            binding.endpoint,
        ) && self.intent_id == binding.intent_id && self.intent_digest == binding.intent_digest
            && same_description(self.base, binding.base) && self.namespace_identities
            == binding.namespace_identities && self.attempts_identity == binding.attempts_identity
            && self.forensics_identity == binding.forensics_identity
    }
}

/// A stored authority: its bytes, what parsing them gave, the canonical encoding of that, and the
/// attempts that it lists, each with its bytes.
#[derive(Debug, PartialEq, Eq)]
pub struct StoredAuthority {
    pub bytes: Vec<u8>,
    pub decoded: Result<DurableProjectionMutationAuthority, String>,
    pub encoded: Result<Vec<u8>, String>,
    pub reservations: Vec<StoredReservation>,
}

/// The attempts among the first `n` that an authority lists, or why the first faulty one is
/// refused. They must be in strictly ascending order.
pub open spec fn recorded_attempts(
    intent: ProjectionIntentView,
    intent_id: ProjectionIntentId,
    stored: Seq<StoredReservation>,
    n: nat,
) -> Result<Seq<ProjectionAttemptReservation>, ProjectionStoreError>
    decreases n,
{
    if n == 0 {
        Ok(Seq::empty())
    } else {
        match recorded_attempts(intent, intent_id, stored, (n - 1) as nat) {
            Err(error) => Err(error),
            Ok(before) => match stored_reservation(intent, intent_id, stored[n - 1]) {
                Err(error) => Err(error),
                Ok(reservation) => if before.len() > 0 && before.last().attempt_id.value
                    >= reservation.attempt_id.value {
                    Err(ProjectionStoreError::AttemptBindingMismatch)
                } else {
                    Ok(before.push(reservation))
                },
            },
        }
    }
}

/// Once an attempt is refused, so is every longer list.
proof fn lemma_refused_attempt(
    intent: ProjectionIntentView,
    intent_id: ProjectionIntentId,
    stored: Seq<StoredReservation>,
    m: nat,
    n: nat,
)
    requires
        m <= n,
        recorded_attempts(intent, intent_id, stored, m) is Err,
    ensures
        recorded_attempts(intent, intent_id, stored, n) == recorded_attempts(
            intent,
            intent_id,
            stored,
            m,
        ),
    decreases n,
{
    if m < n {
        lemma_refused_attempt(intent, intent_id, stored, m, (n - 1) as nat);
    }
}

/// The attempts that an authority lists, or why they are refused. The active attempt must be one
/// of them.
pub open spec fn authority_attempts(
    intent: ProjectionIntentView,
    intent_id: ProjectionIntentId,
    active_attempt_id: Option<Uuid>,
    stored: Seq<StoredReservation>,
) -> Result<Seq<ProjectionAttemptReservation>, ProjectionStoreError> {
    if stored.len() > MAX_MUTATION_ATTEMPTS {
        Err(
            ProjectionStoreError::MutationAuthorityTooLarge {
                attempts: stored.len() as usize,
                bytes: 0,
            },
        )
    } else {
        match recorded_attempts(intent, intent_id, stored, stored.len()) {
            Err(error) => Err(error),
            Ok(attempts) => if active_attempt_id is Some && first_attempt(
                attempts,
                active_attempt_id->0,
                0,
            ) is None {
                Err(ProjectionStoreError::AttemptBindingMismatch)
            } else {
                Ok(attempts)
            },
        }
    }
}

/// Decodes the attempts that an authority lists.
pub fn decode_mutation_reservations(
    intent: &ProjectionIntent,
    intent_id: ProjectionIntentId,
    active_attempt_id: Option<Uuid>,
    stored: Vec<StoredReservation>,
) -> (decoded: Result<Vec<ProjectionAttemptReservation>, ProjectionStoreError>)
    ensures
        match authority_attempts(intent@, intent_id, active_attempt_id, stored@) {
            Err(error) => decoded == Err::<Vec<ProjectionAttemptReservation>, _>(error),
            Ok(attempts) => decoded is Ok && decoded->Ok_0@ == attempts,
        },
{
    if stored.len() > MAX_MUTATION_ATTEMPTS {
        return Err(
            ProjectionStoreError::MutationAuthorityTooLarge { attempts: stored.len(), bytes: 0 },
        );
    }
    let ghost all = stored@;
    let mut attempts: Vec<ProjectionAttemptReservation> = Vec::new();
    for one in iter: stored.into_iter()
        invariant
            iter.seq() == all,
            all == stored@,
            all.len() <= MAX_MUTATION_ATTEMPTS,
            recorded_attempts(intent@, intent_id, all, iter.index() as nat) == Ok::<
                _,
                ProjectionStoreError,
            >(attempts@),
    {
        let ghost at = iter.index() as nat;
        assert(one == all[at as int]);
        match check_stored_reservation(intent, intent_id, one) {
            Err(error) => {
                proof {
                    assert(recorded_attempts(intent@, intent_id, all, at + 1) == Err::<
                        Seq<ProjectionAttemptReservation>,
                        _,
                    >(error));
                    lemma_refused_attempt(intent@, intent_id, all, at + 1, all.len());
                }
                return Err(error);
            },
            Ok(reservation) => {
                if attempts.len() > 0 && attempts[attempts.len() - 1].attempt_id.value
                    >= reservation.attempt_id.value {
                    proof {
                        assert(recorded_attempts(intent@, intent_id, all, at + 1) is Err);
                        lemma_refused_attempt(intent@, intent_id, all, at + 1, all.len());
                    }
                    return Err(ProjectionStoreError::AttemptBindingMismatch);
                }
                attempts.push(reservation);
            },
        }
    }
    if let Some(active) = active_attempt_id {
        if find_attempt(&attempts, active).is_none() {
            return Err(ProjectionStoreError::AttemptBindingMismatch);
        }
    }
    Ok(attempts)
}

/// What reserved attempts say.
pub open spec fn reservation_views(attempts: Seq<ProjectionAttemptReservation>) -> Seq<
    crate::attempts::ReservationView,
> {
    attempts.map_values(|attempt: ProjectionAttemptReservation| attempt@)
}

/// Whether two lists of attempts say the same.
fn same_attempts(
    a: &Vec<ProjectionAttemptReservation>,
    b: &Vec<ProjectionAttemptReservation>,
) -> (same: bool)
    ensures
        same == (reservation_views(a@) == reservation_views(b@)),
{
    if a.len() != b.len() {
        assert(reservation_views(a@).len() != reservation_views(b@).len());
        return false;
    }
    let mut at: usize = 0;
    while at < a.len()
        invariant
            at <= a@.len(),
            a@.len() == b@.len(),
            forall|i: int| 0 <= i < at ==> (#[trigger] a@[i])@ == b@[i]@,
        decreases a@.len() - at,
    {
        if !a[at].same(&b[at]) {
            proof {
                assert(reservation_views(a@)[at as int] != reservation_views(b@)[at as int]);
            }
            return false;
        }
        at = at + 1;
    }
    assert(reservation_views(a@) =~= reservation_views(b@));
    true
}

/// The attempts of a stored authority, or why it is not the one that is expected now.
pub open spec fn authority_verdict(
    stored: StoredAuthority,
    intent: ProjectionIntentView,
    binding: AuthorityBinding,
    live: Seq<ProjectionAttemptReservation>,
) -> Result<Seq<ProjectionAttemptReservation>, ProjectionStoreError> {
    match stored.decoded {
        Err(message) => Err(ProjectionStoreError::Decode(message)),
        Ok(durable) => match stored.encoded {
            Err(message) => Err(ProjectionStoreError::Encode(message)),
            Ok(encoded) => if encoded@ != stored.bytes@ || !authority_binds(durable, binding) {
                Err(ProjectionStoreError::MutationAuthorityMismatch)
            } else {
                match authority_attempts(
                    intent,
                    binding.intent_id,
                    durable.active_attempt_id,
                    stored.reservations@,
                ) {
                    Err(error) => Err(error),
                    Ok(attempts) => if reservation_views(attempts) != reservation_views(live) {
                        Err(ProjectionStoreError::AttemptBindingMismatch)
                    } else {
                        Ok(attempts)
                    },
                }
            },
        },
    }
}

/// The bytes of the attempts that an authority lists.
pub open spec fn recorded_bytes(stored: Seq<StoredReservation>) -> Seq<Seq<u8>> {
    stored.map_values(|one: StoredReservation| one.bytes@)
}

/// What several byte strings hold.
pub open spec fn byte_views(all: Seq<Vec<u8>>) -> Seq<Seq<u8>> {
    all.map_values(|bytes: Vec<u8>| bytes@)
}

/// Copies the bytes of the attempts that an authority lists.
fn copy_recorded_bytes(stored: &Vec<StoredReservation>) -> (bytes: Vec<Vec<u8>>)
    ensures
        byte_views(bytes@) == recorded_bytes(stored@),
{
    let mut bytes: Vec<Vec<u8>> = Vec::new();
    let mut at: usize = 0;
    while at < stored.len()
        invariant
            at <= stored@.len(),
            bytes@.len() == at,
            forall|i: int| 0 <= i < at ==> (#[trigger] bytes@[i])@ == stored@[i].bytes@,
        decreases stored@.len() - at,
    {
        bytes.push(copy_bytes(stored[at].bytes.as_slice()));
        at = at + 1;
    }
    assert(byte_views(bytes@) =~= recorded_bytes(stored@));
    bytes
}

/// A stored authority that is the one expected now.
#[derive(Debug, PartialEq, Eq)]
pub struct DecodedAuthority {
    pub durable: DurableProjectionMutationAuthority,
    pub bytes: Vec<u8>,
    pub reservation_bytes: Vec<Vec<u8>>,
    pub reservations: Vec<ProjectionAttemptReservation>,
}

/// Decodes a stored authority and checks that it is the one expected now.
pub fn decode_durable_mutation_authority(
    stored: StoredAuthority,
    intent: &ProjectionIntent,
    binding: &AuthorityBinding,
    live: &Vec<ProjectionAttemptReservation>,
) -> (decoded: Result<DecodedAuthority, ProjectionStoreError>)
    ensures
        match authority_verdict(stored, intent@, *binding, live@) {
            Err(error) => decoded == Err::<DecodedAuthority, _>(error),
            Ok(attempts) => decoded is Ok && decoded->Ok_0.durable == stored.decoded->Ok_0
                && decoded->Ok_0.bytes == stored.bytes && byte_views(
                decoded->Ok_0.reservation_bytes@,
            ) == recorded_bytes(stored.reservations@) && decoded->Ok_0.reservations@ == attempts,
        },
{
    let durable = match stored.decoded {
        Err(message) => return Err(ProjectionStoreError::Decode(message)),
        Ok(durable) => durable,
    };
    let encoded = match stored.encoded {
        Err(message) => return Err(ProjectionStoreError::Encode(message)),
        Ok(encoded) => encoded,
    };
    if !same_bytes(encoded.as_slice(), stored.bytes.as_slice()) || !durable.binds(binding) {
        return Err(ProjectionStoreError::MutationAuthorityMismatch);
    }
    let reservation_bytes = copy_recorded_bytes(&stored.reservations);
    let reservations = match decode_mutation_reservations(
        intent,
        binding.intent_id,
        durable.active_attempt_id,
        stored.reservations,
    ) {
        Err(error) => return Err(error),
        Ok(reservations) => reservations,
    };
    if !same_attempts(&reservations, live) {
        return Err(ProjectionStoreError::AttemptBindingMismatch);
    }
    Ok(DecodedAuthority { durable, bytes: stored.bytes, reservation_bytes, reservations })
}

/// The base that an intent starts from, given what reading it gave, or why it cannot be had.
pub open spec fn checked_base(
    precondition: ProjectionPrecondition,
    read: Result<Option<Vec<u8>>, ProjectionStoreError>,
) -> Result<Option<BlobDescription>, ProjectionStoreError> {
    match precondition {
        ProjectionPrecondition::Absent => Ok(None),
        ProjectionPrecondition::Base(description) => match read {
            Err(error) => Err(error),
            Ok(None) => Err(ProjectionStoreError::MissingBase(description)),
            Ok(Some(bytes)) => if BlobDescription::spec_of(bytes@) != description {
                Err(ProjectionStoreError::BaseEvidenceMismatch(description))
            } else {
                Ok(Some(description))
            },
        },
    }
}

/// Checks the base that an intent starts from. Where it starts from none, what reading gave does
/// not matter.
pub fn check_base(
    precondition: ProjectionPrecondition,
    read: Result<Option<Vec<u8>>, ProjectionStoreError>,
) -> (base: Result<Option<BlobDescription>, ProjectionStoreError>)
    ensures
        base == checked_base(precondition, read),
{
    let description = match precondition {
        ProjectionPrecondition::Absent => return Ok(None),
        ProjectionPrecondition::Base(description) => description,
    };
    match read {
        Err(error) => Err(error),
        Ok(None) => Err(ProjectionStoreError::MissingBase(description)),
        Ok(Some(bytes)) => if BlobDescription::of(bytes.as_slice()) != description {
            Err(ProjectionStoreError::BaseEvidenceMismatch(description))
        } else {
            Ok(Some(description))
        },
    }
}

/// What reading the store gives when a mutation begins.
#[derive(Debug, PartialEq, Eq)]
pub struct MutationSnapshot {
    /// The authority that is there already.
    pub existing: Result<Option<StoredAuthority>, ProjectionStoreError>,
    /// The store's claim.
    pub claim: Result<Option<Vec<u8>>, ProjectionStoreError>,
    /// The attempts of the intent, in the order of their identifiers.
    pub attempts: Result<Vec<ProjectionAttemptReservation>, ProjectionStoreError>,
    /// The canonical encodings of those attempts.
    pub attempt_bytes: Result<Vec<Vec<u8>>, String>,
    /// The canonical encoding of the intent.
    pub intent_bytes: Result<Vec<u8>, ReceiptError>,
    /// What reading the intent's base gave.
    pub base: Result<Option<Vec<u8>>, ProjectionStoreError>,
    /// The directory of the intent's attempts.
    pub attempts_identity: Result<Digest, ProjectionStoreError>,
    /// The directory of the intent's evidence.
    pub forensics_identity: Result<Digest, ProjectionStoreError>,
}

/// A store as far as authorities bind it.
#[derive(Clone, Copy, Debug, PartialEq, Eq, Structural)]
pub struct StoreBinding {
    pub store_id: ProjectionReceiptStoreId,
    pub workspace_id: WorkspaceId,
    pub endpoint: Option<ProjectionEndpointBinding>,
    pub namespace_identities: NamespaceIdentities,
}

/// Whether an attempt is among others.
pub open spec fn is_among(
    attempts: Seq<ProjectionAttemptReservation>,
    attempt: ProjectionAttemptReservation,
) -> bool {
    exists|i: int| 0 <= i < attempts.len() && (#[trigger] attempts[i])@ == attempt@
}

/// Finds out whether an attempt is among others.
fn find_among(
    attempts: &Vec<ProjectionAttemptReservation>,
    attempt: &ProjectionAttemptReservation,
) -> (among: bool)
    ensures
        among == is_among(attempts@, *attempt),
{
    let mut at: usize = 0;
    while at < attempts.len()
        invariant
            at <= attempts@.len(),
            forall|i: int| 0 <= i < at ==> (#[trigger] attempts@[i])@ != attempt@,
        decreases attempts@.len() - at,
    {
        if attempts[at].same(attempt) {
            assert(attempts@[at as int]@ == attempt@);
            return true;
        }
        at = at + 1;
    }
    false
}

/// What the authority of a beginning mutation must bind.
pub open spec fn begun_binding(
    store: StoreBinding,
    intent_id: ProjectionIntentId,
    snapshot: MutationSnapshot,
    base: Option<BlobDescription>,
) -> AuthorityBinding {
    AuthorityBinding {
        store_id: store.store_id,
        store_claim_digest: Digest::spec_from(crate::hash::sha256(snapshot.claim->Ok_0->0@)),
        workspace_id: store.workspace_id,
        endpoint: store.endpoint,
        intent_id,
        intent_digest: Digest::spec_from(crate::hash::sha256(snapshot.intent_bytes->Ok_0@)),
        base,
        namespace_identities: store.namespace_identities,
        attempts_identity: snapshot.attempts_identity->Ok_0,
        forensics_identity: snapshot.forensics_identity->Ok_0,
    }
}

/// The base of the intent once everything that an authority binds was read, or what could not be
/// read.
pub open spec fn bound_check(
    intent: ProjectionIntentView,
    snapshot: MutationSnapshot,
) -> Result<Option<BlobDescription>, ProjectionStoreError> {
    match snapshot.intent_bytes {
        Err(error) => Err(ProjectionStoreError::Receipt(error)),
        Ok(_) => match checked_base(intent.precondition, snapshot.base) {
            Err(error) => Err(error),
            Ok(base) => match snapshot.attempts_identity {
                Err(error) => Err(error),
                Ok(_) => match snapshot.forensics_identity {
                    Err(error) => Err(error),
                    Ok(_) => Ok(base),
                },
            },
        },
    }
}

/// What has to be right before a mutation begins, or what is wrong: the claim is there, an active
/// attempt is one of the intent's, and the base is the one that the intent starts from.
pub open spec fn begin_check(
    intent: ProjectionIntentView,
    intent_id: ProjectionIntentId,
    active: Option<ProjectionAttemptReservation>,
    snapshot: MutationSnapshot,
) -> Result<Option<BlobDescription>, ProjectionStoreError> {
    match snapshot.claim {
        Err(error) => Err(error),
        Ok(None) => Err(ProjectionStoreError::MalformedStoreClaim),
        Ok(Some(_)) => match snapshot.attempts {
            Err(error) => Err(error),
            Ok(attempts) => if active is Some && (!reservation_binds(active->0@, intent, intent_id)
                || !is_among(attempts@, active->0)) {
                Err(ProjectionStoreError::AttemptBindingMismatch)
            } else {
                match snapshot.attempt_bytes {
                    Err(message) => Err(ProjectionStoreError::Encode(message)),
                    Ok(_) => bound_check(intent, snapshot),
                }
            },
        },
    }
}

/// Whether an attempt is reserved for a recovery: where the caller has none and no authority is
/// there already.
pub open spec fn recovery_is_reserved(has_active: bool, record_exists: bool) -> bool {
    !has_active && !record_exists
}

/// Decides whether an attempt has to be reserved for a recovery before a mutation begins.
pub fn reserves_recovery_attempt(
    active: &Option<ProjectionAttemptReservation>,
    record_exists: bool,
) -> (reserves: bool)
    ensures
        reserves == recovery_is_reserved(active is Some, record_exists),
{
    active.is_none() && !record_exists
}

/// The attempt that a mutation begins under: the caller's, or else the one that was reserved for a
/// recovery.
pub open spec fn requested_attempt(
    active: Option<ProjectionAttemptReservation>,
    recovery: Result<ProjectionAttemptReservation, ProjectionStoreError>,
    record_exists: bool,
) -> Option<ProjectionAttemptReservation> {
    if recovery_is_reserved(active is Some, record_exists) {
        Some(recovery->Ok_0)
    } else {
        active
    }
}

/// What an optional attempt says.
pub open spec fn optional_attempt(attempt: Option<ProjectionAttemptReservation>) -> Option<
    crate::attempts::ReservationView,
> {
    match attempt {
        None => None,
        Some(attempt) => Some(attempt@),
    }
}

/// The attempt that a durable authority was written with.
pub open spec fn durable_active(
    active_attempt_id: Option<Uuid>,
    attempts: Seq<ProjectionAttemptReservation>,
) -> Option<crate::attempts::ReservationView> {
    match active_attempt_id {
        None => None,
        Some(id) => match first_attempt(attempts, id, 0) {
            None => None,
            Some(at) => Some(attempts[at]@),
        },
    }
}

/// A mutation that has begun: an authority that was there, or one that is still to be written.
#[derive(Debug, PartialEq, Eq)]
pub enum MutationStart {
    Resumed {
        durable: DurableProjectionMutationAuthority,
        durable_bytes: Vec<u8>,
        reservation_bytes: Vec<Vec<u8>>,
        reservations: Vec<ProjectionAttemptReservation>,
        active: Option<ProjectionAttemptReservation>,
    },
    Fresh {
        durable: DurableProjectionMutationAuthority,
        reservation_bytes: Vec<Vec<u8>>,
        reservations: Vec<ProjectionAttemptReservation>,
        active: Option<ProjectionAttemptReservation>,
    },
}

/// Whether a new authority is the one that a mutation begins with.
pub open spec fn is_fresh_authority(
    durable: DurableProjectionMutationAuthority,
    binding: AuthorityBinding,
    active: Option<ProjectionAttemptReservation>,
) -> bool {
    &&& authority_binds(durable, binding)
    &&& durable.authority_id.spec_bytes() == marked_uuid_bytes(
        crate::hash::sha256(
            derivation_input(
                "tine/projection-mutation-authority/v1"@,
                binding.store_id,
                binding.intent_id,
            ),
        ),
    )
    &&& durable.active_attempt_id == (match active {
        None => None,
        Some(active) => Some(active.attempt_id),
    })
}

/// Whether a mutation begins as it must: under the intent's lease, with the authority that is
/// there, if it is the expected one and was written for the same attempt, and else with a new one.
pub open spec fn begins(
    store: StoreBinding,
    intent: ProjectionIntentView,
    intent_id: ProjectionIntentId,
    lease: Result<(), ProjectionStoreError>,
    active: Option<ProjectionAttemptReservation>,
    recovery: Result<ProjectionAttemptReservation, ProjectionStoreError>,
    snapshot: MutationSnapshot,
    begun: Result<MutationStart, ProjectionStoreError>,
) -> bool {
    match lease {
        Err(error) => begun == Err::<MutationStart, _>(error),
        Ok(()) => match snapshot.existing {
            Err(error) => begun == Err::<MutationStart, _>(error),
            Ok(existing) => if recovery_is_reserved(active is Some, existing is Some)
                && recovery is Err {
                begun == Err::<MutationStart, _>(recovery->Err_0)
            } else {
                match begin_check(intent, intent_id, active, snapshot) {
                    Err(error) => begun == Err::<MutationStart, _>(error),
                    Ok(base) => begins_under(
                        intent,
                        begun_binding(store, intent_id, snapshot, base),
                        requested_attempt(active, recovery, existing is Some),
                        existing,
                        snapshot,
                        begun,
                    ),
                }
            },
        },
    }
}

/// Whether a mutation begins as it must, once what it binds was read.
pub open spec fn begins_under(
    intent: ProjectionIntentView,
    binding: AuthorityBinding,
    requested: Option<ProjectionAttemptReservation>,
    existing: Option<StoredAuthority>,
    snapshot: MutationSnapshot,
    begun: Result<MutationStart, ProjectionStoreError>,
) -> bool {
    match existing {
        Some(stored) => match authority_verdict(
            stored,
            intent,
            binding,
            snapshot.attempts->Ok_0@,
        ) {
            Err(error) => begun == Err::<MutationStart, _>(error),
            Ok(attempts) => {
                let kept = durable_active(stored.decoded->Ok_0.active_attempt_id, attempts);
                if requested is Some && optional_attempt(requested) != kept {
                    begun == Err::<MutationStart, _>(ProjectionStoreError::MutationAuthorityPending)
                } else {
                    &&& begun is Ok
                    &&& begun->Ok_0 is Resumed
                    &&& begun->Ok_0->Resumed_durable == stored.decoded->Ok_0
                    &&& begun->Ok_0->Resumed_durable_bytes == stored.bytes
                    &&& byte_views(begun->Ok_0->Resumed_reservation_bytes@) == recorded_bytes(
                        stored.reservations@,
                    )
                    &&& begun->Ok_0->Resumed_reservations@ == attempts
                    &&& optional_attempt(begun->Ok_0->Resumed_active) == kept
                }
            },
        },
        None => {
            &&& begun is Ok
            &&& begun->Ok_0 is Fresh
            &&& is_fresh_authority(begun->Ok_0->Fresh_durable, binding, requested)
            &&& begun->Ok_0->Fresh_reservation_bytes == snapshot.attempt_bytes->Ok_0
            &&& begun->Ok_0->Fresh_reservations == snapshot.attempts->Ok_0
            &&& begun->Ok_0->Fresh_active == requested
        },
    }
}

/// Begins a mutation of an intent's page, from what taking the intent's lease and reading the store
/// gave. `active` is an attempt that the caller reserved. `recovery` is what reserving one under the
/// lease gave; it counts only where an attempt is reserved for a recovery.
pub fn begin_mutation(
    store: &StoreBinding,
    intent: &ProjectionIntent,
    intent_id: ProjectionIntentId,
    lease: Result<(), ProjectionStoreError>,
    active: Option<ProjectionAttemptReservation>,
    recovery: Result<ProjectionAttemptReservation, ProjectionStoreError>,
    snapshot: MutationSnapshot,
) -> (begun: Result<MutationStart, ProjectionStoreError>)
    ensures
        begins(*store, intent@, intent_id, lease, active, recovery, snapshot, begun),
{
    if let Err(error) = lease {
        return Err(error);
    }
    let existing = match snapshot.existing {
        Err(error) => return Err(error),
        Ok(existing) => existing,
    };
    let reserved = if reserves_recovery_attempt(&active, existing.is_some()) {
        match recovery {
            Err(error) => return Err(error),
            Ok(reservation) => Some(reservation),
        }
    } else {
        None
    };
    let claim = match snapshot.claim {
        Err(error) => return Err(error),
        Ok(None) => return Err(ProjectionStoreError::MalformedStoreClaim),
        Ok(Some(claim)) => claim,
    };
    let attempts = match snapshot.attempts {
        Err(error) => return Err(error),
        Ok(attempts) => attempts,
    };
    if let Some(active) = &active {
        if let Err(error) = active.validate(intent, intent_id) {
            return Err(error);
        }
        if !find_among(&attempts, active) {
            return Err(ProjectionStoreError::AttemptBindingMismatch);
        }
    }
    let reservation_bytes = match snapshot.attempt_bytes {
        Err(message) => return Err(ProjectionStoreError::Encode(message)),
        Ok(bytes) => bytes,
    };
    let intent_bytes = match snapshot.intent_bytes {
        Err(error) => return Err(ProjectionStoreError::Receipt(error)),
        Ok(bytes) => bytes,
    };
    let base = match check_base(intent.precondition, snapshot.base) {
        Err(error) => return Err(error),
        Ok(base) => base,
    };
    let attempts_identity = match snapshot.attempts_identity {
        Err(error) => return Err(error),
        Ok(identity) => identity,
    };
    let forensics_identity = match snapshot.forensics_identity {
        Err(error) => return Err(error),
        Ok(identity) => identity,
    };
    let binding = AuthorityBinding {
        store_id: store.store_id,
        store_claim_digest: Digest::of(claim.as_slice()),
        workspace_id: store.workspace_id,
        endpoint: store.endpoint,
        intent_id,
        intent_digest: Digest::of(intent_bytes.as_slice()),
        base,
        namespace_identities: store.namespace_identities,
        attempts_identity,
        forensics_identity,
    };
    let requested = if active.is_some() {
        active
    } else {
        reserved
    };
    match existing {
        Some(stored) => {
            let decoded = match decode_durable_mutation_authority(
                stored,
                intent,
                &binding,
                &attempts,
            ) {
                Err(error) => return Err(error),
                Ok(decoded) => decoded,
            };
            let kept = match decoded.durable.active_attempt_id {
                None => None,
                Some(id) => match find_attempt(&decoded.reservations, id) {
                    None => None,
                    Some(at) => Some(decoded.reservations[at].duplicate()),
                },
            };
            let pending = match (&requested, &kept) {
                (None, _) => false,
                (Some(requested), Some(kept)) => !requested.same(kept),
                (Some(_), None) => true,
            };
            if pending {
                return Err(ProjectionStoreError::MutationAuthorityPending);
            }
            Ok(
                MutationStart::Resumed {
                    durable: decoded.durable,
                    durable_bytes: decoded.bytes,
                    reservation_bytes: decoded.reservation_bytes,
                    reservations: decoded.reservations,
                    active: kept,
                },
            )
        },
        None => {
            let active_attempt_id = match &requested {
                None => None,
                Some(requested) => Some(requested.attempt_id),
            };
            let endpoint_binding = match store.endpoint {
                None => None,
                Some(endpoint) => Some(endpoint_binding_bytes(endpoint)),
            };
            let durable = DurableProjectionMutationAuthority {
                schema_version: MUTATION_AUTHORITY_SCHEMA_VERSION,
                authority_id: deterministic_mutation_uuid(
                    "tine/projection-mutation-authority/v1",
                    store.store_id,
                    intent_id,
                ),
                store_id: store.store_id,
                store_claim_digest: binding.store_claim_digest,
                workspace_id: store.workspace_id,
                endpoint_binding,
                intent_id,
                intent_digest: binding.intent_digest,
                base,
                namespace_identities: store.namespace_identities,
                attempts_identity,
                forensics_identity,
                active_attempt_id,
            };
            Ok(
                MutationStart::Fresh {
                    durable,
                    reservation_bytes,
                    reservations: attempts,
                    active: requested,
                },
            )
        },
    }
}

/// The authority to carry out one graph operation and to publish its completion.
#[derive(Debug, PartialEq, Eq)]
pub struct ProjectionMutationAuthority {
    pub durable: DurableProjectionMutationAuthority,
    pub durable_bytes: Vec<u8>,
    pub reservation_bytes: Vec<Vec<u8>>,
    pub reservations: Vec<ProjectionAttemptReservation>,
    pub active: Option<ProjectionAttemptReservation>,
    pub created_durable_record: bool,
    pub graph_operation_consumed: bool,
    pub completion_published: bool,
}

impl MutationStart {
    /// Makes the authority of a mutation that has begun. `encoded` is the canonical encoding of a
    /// new authority; it is to be published before the authority is used, and must not be too long.
    pub fn seal(self, encoded: Result<Vec<u8>, String>) -> (sealed: Result<
        ProjectionMutationAuthority,
        ProjectionStoreError,
    >)
        ensures
            match self {
                MutationStart::Resumed {
                    durable,
                    durable_bytes,
                    reservation_bytes,
                    reservations,
                    active,
                } => {
                    sealed == Ok::<_, ProjectionStoreError>(
                        ProjectionMutationAuthority {
                            durable,
                            durable_bytes,
                            reservation_bytes,
                            reservations,
                            active,
                            created_durable_record: false,
                            graph_operation_consumed: false,
                            completion_published: false,
                        },
                    )
                },
                MutationStart::Fresh { durable, reservation_bytes, reservations, active } => match encoded {
                    Err(message) => sealed == Err::<ProjectionMutationAuthority, _>(
                        ProjectionStoreError::Encode(message),
                    ),
                    Ok(bytes) => if bytes@.len() > MAX_MUTATION_AUTHORITY_BYTES {
                        sealed == Err::<ProjectionMutationAuthority, _>(
                            ProjectionStoreError::MutationAuthorityTooLarge {
                                attempts: reservations@.len() as usize,
                                bytes: bytes@.len() as usize,
                            },
                        )
                    } else {
                        sealed == Ok::<_, ProjectionStoreError>(
                            ProjectionMutationAuthority {
                                durable,
                                durable_bytes: bytes,
                                reservation_bytes,
                                reservations,
                                active,
                                created_durable_record: true,
                                graph_operation_consumed: false,
                                completion_published: false,
                            },
                        )
                    },
                },
            },
    {
        match self {
            MutationStart::Resumed {
                    durable,
                    durable_bytes,
                    reservation_bytes,
                    reservations,
                    active,
                } => Ok(
                ProjectionMutationAuthority {
                    durable,
                    durable_bytes,
                    reservation_bytes,
                    reservations,
                    active,
                    created_durable_record: false,
                    graph_operation_consumed: false,
                    completion_published: false,
                },
            ),
            MutationStart::Fresh { durable, reservation_bytes, reservations, active } => {
                let bytes = match encoded {
                    Err(message) => return Err(ProjectionStoreError::Encode(message)),
                    Ok(bytes) => bytes,
                };
                if bytes.len() > MAX_MUTATION_AUTHORITY_BYTES {
                    return Err(
                        ProjectionStoreError::MutationAuthorityTooLarge {
                            attempts: reservations.len(),
                            bytes: bytes.len(),
                        },
                    );
                }
                Ok(
                    ProjectionMutationAuthority {
                        durable,
                        durable_bytes: bytes,
                        reservation_bytes,
                        reservations,
                        active,
                        created_durable_record: true,
                        graph_operation_consumed: false,
                        completion_published: false,
                    },
                )
            },
        }
    }
}

/// A refused use of an authority.
pub open spec fn refused_use(message: &'static str) -> IoFailure {
    IoFailure {
        kind: IoFailureKind::PermissionDenied,
        message: Reason::Own(message),
        semantic_refusal: false,
    }
}

/// A refused use of an authority.
fn refuse_use(message: &'static str) -> (failure: IoFailure)
    ensures
        failure == refused_use(message),
{
    IoFailure {
        kind: IoFailureKind::PermissionDenied,
        message: Reason::Own(message),
        semantic_refusal: false,
    }
}

/// Whether a failure says that an authority is no longer live, and why.
pub open spec fn says_no_longer_live(
    failure: IoFailure,
    error: ProjectionStoreError,
    words: HostWords,
) -> bool {
    &&& failure.kind == IoFailureKind::PermissionDenied
    &&& !failure.semantic_refusal
    &&& failure.message is Reported
    &&& failure.message->Reported_0@ == "projection mutation authority is no longer live: "@
        + store_error_text(error, words)
}

/// The refused use of an authority that is no longer live. `words` are those of the surrounding
/// program for what the error names.
pub fn no_longer_live(error: ProjectionStoreError, words: &HostWords) -> (failure: IoFailure)
    ensures
        says_no_longer_live(failure, error, *words),
{
    let mut message = "projection mutation authority is no longer live: ".to_owned();
    error.append_message(words, &mut message);
    IoFailure {
        kind: IoFailureKind::PermissionDenied,
        message: Reason::Reported(message),
        semantic_refusal: false,
    }
}

/// Whether every attempt of an authority is at the given path.
pub open spec fn attempts_are_at(authority: ProjectionMutationAuthority, path: Seq<char>) -> bool {
    &&& forall|i: int|
        0 <= i < authority.reservations@.len() ==> (
        #[trigger] authority.reservations@[i]).target_path.text@ == path
    &&& authority.active is Some ==> authority.active->0.target_path.text@ == path
}

/// Whether an authority may be used for a graph operation at a path. `live` is what checking the
/// authority against the store gave.
pub open spec fn operation_is_allowed(
    authority: ProjectionMutationAuthority,
    live: Result<(), ProjectionStoreError>,
    path: Seq<char>,
) -> bool {
    !authority.graph_operation_consumed && live is Ok && attempts_are_at(authority, path)
}

/// Whether using an authority for a graph operation at a path comes to what it must: it is used
/// where that is allowed, and otherwise the first of the reasons against it is given.
pub open spec fn operation_comes_to(
    authority: ProjectionMutationAuthority,
    live: Result<(), ProjectionStoreError>,
    words: HostWords,
    path: Seq<char>,
    consumed: Result<(), IoFailure>,
) -> bool {
    if authority.graph_operation_consumed {
        consumed == Err::<(), _>(
            refused_use("projection mutation authority was already consumed"),
        )
    } else {
        match live {
            Err(error) => consumed is Err && says_no_longer_live(consumed->Err_0, error, words),
            Ok(()) => if !attempts_are_at(authority, path) {
                consumed == Err::<(), _>(
                    refused_use("projection mutation authority target path mismatch"),
                )
            } else {
                consumed == Ok::<(), IoFailure>(())
            },
        }
    }
}

/// What uses of an authority keep: everything but whether it was used up.
pub open spec fn same_authority(
    before: ProjectionMutationAuthority,
    after: ProjectionMutationAuthority,
) -> bool {
    &&& after.durable == before.durable
    &&& after.durable_bytes == before.durable_bytes
    &&& after.reservation_bytes == before.reservation_bytes
    &&& after.reservations == before.reservations
    &&& after.active == before.active
    &&& after.created_durable_record == before.created_durable_record
    &&& after.completion_published == before.completion_published
}

impl ProjectionMutationAuthority {
    /// Uses the authority up for a graph operation at a path.
    pub fn consume_graph_operation(
        &mut self,
        live: Result<(), ProjectionStoreError>,
        words: &HostWords,
        relative_path: &str,
    ) -> (consumed: Result<(), IoFailure>)
        ensures
            operation_comes_to(*old(self), live, *words, relative_path@, consumed),
            same_authority(*old(self), *final(self)),
            final(self).graph_operation_consumed == (old(self).graph_operation_consumed
                || consumed is Ok),
    {
        if self.graph_operation_consumed {
            return Err(refuse_use("projection mutation authority was already consumed"));
        }
        if let Err(error) = live {
            return Err(no_longer_live(error, words));
        }
        let mut at: usize = 0;
        while at < self.reservations.len()
            invariant
                at <= self.reservations@.len(),
                *self == *old(self),
                !self.graph_operation_consumed,
                live is Ok,
                forall|i: int|
                    0 <= i < at ==> (#[trigger] self.reservations@[i]).target_path.text@
                        == relative_path@,
            decreases self.reservations@.len() - at,
        {
            if !same_text(self.reservations[at].target_path.text.as_str(), relative_path) {
                assert(self.reservations@[at as int].target_path.text@ != relative_path@);
                return Err(refuse_use("projection mutation authority target path mismatch"));
            }
            at = at + 1;
        }
        if let Some(active) = &self.active {
            if !same_text(active.target_path.text.as_str(), relative_path) {
                return Err(refuse_use("projection mutation authority target path mismatch"));
            }
        }
        self.graph_operation_consumed = true;
        Ok(())
    }

    /// Uses the authority up for a write, which needs an active attempt.
    pub fn consume_write_evidence(
        &mut self,
        live: Result<(), ProjectionStoreError>,
        words: &HostWords,
        relative_path: &str,
    ) -> (consumed: Result<(), IoFailure>)
        ensures
            if operation_is_allowed(*old(self), live, relative_path@) && old(self).active is None {
                consumed == Err::<(), _>(
                    refused_use("projection mutation authority has no active reserved attempt"),
                )
            } else {
                operation_comes_to(*old(self), live, *words, relative_path@, consumed)
            },
            same_authority(*old(self), *final(self)),
            final(self).graph_operation_consumed == (old(self).graph_operation_consumed
                || operation_is_allowed(*old(self), live, relative_path@)),
    {
        if let Err(failure) = self.consume_graph_operation(live, words, relative_path) {
            return Err(failure);
        }
        if self.active.is_none() {
            return Err(
                refuse_use("projection mutation authority has no active reserved attempt"),
            );
        }
        Ok(())
    }

    /// Uses the authority up for a recovery, which needs a reserved attempt.
    pub fn consume_recovery_evidence(
        &mut self,
        live: Result<(), ProjectionStoreError>,
        words: &HostWords,
        relative_path: &str,
    ) -> (consumed: Result<(), IoFailure>)
        ensures
            if operation_is_allowed(*old(self), live, relative_path@) && old(
                self,
            ).reservations@.len() == 0 {
                consumed == Err::<(), _>(
                    refused_use("projection recovery authority has no durable attempts"),
                )
            } else {
                operation_comes_to(*old(self), live, *words, relative_path@, consumed)
            },
            same_authority(*old(self), *final(self)),
            final(self).graph_operation_consumed == (old(self).graph_operation_consumed
                || operation_is_allowed(*old(self), live, relative_path@)),
    {
        if let Err(failure) = self.consume_graph_operation(live, words, relative_path) {
            return Err(failure);
        }
        if self.reservations.len() == 0 {
            return Err(refuse_use("projection recovery authority has no durable attempts"));
        }
        Ok(())
    }

    /// Checks that the authority was used for a graph operation.
    pub fn require_consumed(&self) -> (checked: Result<(), ProjectionStoreError>)
        ensures
            checked == (if self.graph_operation_consumed {
                Ok(())
            } else {
                Err(ProjectionStoreError::MutationAuthorityMismatch)
            }),
    {
        if !self.graph_operation_consumed {
            return Err(ProjectionStoreError::MutationAuthorityMismatch);
        }
        Ok(())
    }

    /// Checks that the authority is of a store and an intent.
    pub fn require_store_and_intent(
        &self,
        store: &StoreBinding,
        intent_id: ProjectionIntentId,
        intent_bytes: Result<Vec<u8>, ReceiptError>,
    ) -> (checked: Result<(), ProjectionStoreError>)
        ensures
            checked == completion_check(*self, *store, intent_id, intent_bytes),
    {
        let bytes = match intent_bytes {
            Err(error) => return Err(ProjectionStoreError::Receipt(error)),
            Ok(bytes) => bytes,
        };
        if self.durable.store_id != store.store_id || self.durable.workspace_id
            != store.workspace_id || !same_binding(&self.durable.endpoint_binding, store.endpoint)
            || self.durable.intent_id != intent_id || self.durable.intent_digest != Digest::of(
            bytes.as_slice(),
        ) || self.durable.namespace_identities != store.namespace_identities {
            return Err(ProjectionStoreError::MutationAuthorityMismatch);
        }
        Ok(())
    }

    /// Whether the durable record is removed when the authority is given up: after a published
    /// completion, and where this authority wrote it and was never used.
    pub fn removes_record_when_dropped(&self) -> (removes: bool)
        ensures
            removes == (self.completion_published || (self.created_durable_record
                && !self.graph_operation_consumed)),
    {
        self.completion_published || (self.created_durable_record && !self.graph_operation_consumed)
    }
}

/// Whether an authority is of a store and an intent, and if not, why.
pub open spec fn completion_check(
    authority: ProjectionMutationAuthority,
    store: StoreBinding,
    intent_id: ProjectionIntentId,
    intent_bytes: Result<Vec<u8>, ReceiptError>,
) -> Result<(), ProjectionStoreError> {
    match intent_bytes {
        Err(error) => Err(ProjectionStoreError::Receipt(error)),
        Ok(bytes) => if authority.durable.store_id == store.store_id
            && authority.durable.workspace_id == store.workspace_id && crate::page::optional_text(
            authority.durable.endpoint_binding,
        ) == optional_binding(store.endpoint) && authority.durable.intent_id == intent_id
            && authority.durable.intent_digest == Digest::spec_from(crate::hash::sha256(bytes@))
            && authority.durable.namespace_identities == store.namespace_identities {
            Ok(())
        } else {
            Err(ProjectionStoreError::MutationAuthorityMismatch)
        },
    }
}

/// An authority is good for one graph operation: once it was used, every further use is refused.
pub proof fn law_authority_is_used_once(
    authority: ProjectionMutationAuthority,
    live: Result<(), ProjectionStoreError>,
    words: HostWords,
    path: Seq<char>,
    consumed: Result<(), IoFailure>,
)
    requires
        authority.graph_operation_consumed,
        operation_comes_to(authority, live, words, path, consumed),
    ensures
        consumed == Err::<(), _>(
            refused_use("projection mutation authority was already consumed"),
        ),
{
}

/// The authority to carry out one graph operation for a page of the current turn. It leaves no
/// record.
#[derive(Debug, PartialEq, Eq)]
pub struct ProjectionTurnMutationAuthority {
    pub reservation: ProjectionAttemptReservation,
    pub graph_operation_consumed: bool,
}

impl ProjectionTurnMutationAuthority {
    /// The authority for an intent under the attempt of the current turn. Without a turn there is
    /// none.
    pub fn for_current_turn(
        intent: &ProjectionIntent,
        intent_id: ProjectionIntentId,
        current_attempt: Option<Uuid>,
    ) -> (authority: Result<ProjectionTurnMutationAuthority, ProjectionStoreError>)
        ensures
            match current_attempt {
                None => authority == Err::<ProjectionTurnMutationAuthority, _>(
                    ProjectionStoreError::MissingTurnAttemptContext,
                ),
                Some(attempt_id) => authority is Ok && !authority->Ok_0.graph_operation_consumed
                    && authority->Ok_0.reservation@ == crate::attempts::reservation_of(
                    intent@,
                    intent_id,
                    attempt_id,
                ),
            },
    {
        match current_attempt {
            None => Err(ProjectionStoreError::MissingTurnAttemptContext),
            Some(attempt_id) => Ok(
                ProjectionTurnMutationAuthority {
                    reservation: ProjectionAttemptReservation::new(intent, intent_id, attempt_id),
                    graph_operation_consumed: false,
                },
            ),
        }
    }

    /// Uses the authority up for a graph operation at a path.
    pub fn consume_graph_operation(&mut self, relative_path: &str) -> (consumed: Result<
        (),
        IoFailure,
    >)
        ensures
            consumed == (if old(self).graph_operation_consumed {
                Err(refused_use("projection turn mutation authority was already consumed"))
            } else if old(self).reservation.target_path.text@ != relative_path@ {
                Err(refused_use("projection turn mutation authority target path mismatch"))
            } else {
                Ok(())
            }),
            final(self).reservation == old(self).reservation,
            final(self).graph_operation_consumed == (old(self).graph_operation_consumed
                || consumed is Ok),
    {
        if self.graph_operation_consumed {
            return Err(refuse_use("projection turn mutation authority was already consumed"));
        }
        if !same_text(self.reservation.target_path.text.as_str(), relative_path) {
            return Err(refuse_use("projection turn mutation authority target path mismatch"));
        }
        self.graph_operation_consumed = true;
        Ok(())
    }

    /// The records of what the operation displaced, once it was carried out and its proof is that
    /// of the intent's target. Every displaced file must be the reserved one.
    pub fn cleanup_records(
        &self,
        intent: &ProjectionIntent,
        intent_id: ProjectionIntentId,
        write_proof: &ProjectionWriteProof,
    ) -> (records: Result<Vec<LocalProjectionEvidenceRecord>, ProjectionStoreError>)
        ensures
            if !self.graph_operation_consumed || !proof_is_of(*write_proof, intent@) {
                records == Err::<Vec<LocalProjectionEvidenceRecord>, _>(
                    ProjectionStoreError::WriteProofMismatch,
                )
            } else if exists|i: int|
                0 <= i < write_proof.recovery_evidence@.len() && (
                #[trigger] write_proof.recovery_evidence@[i]).filename@
                    != self.reservation.recovery_filename@ {
                records == Err::<Vec<LocalProjectionEvidenceRecord>, _>(
                    ProjectionStoreError::UnreservedRecoveryEvidence,
                )
            } else {
                &&& records is Ok
                &&& records->Ok_0@.len() == write_proof.recovery_evidence@.len()
                &&& forall|i: int|
                    0 <= i < records->Ok_0@.len() ==> (#[trigger] records->Ok_0@[i])@ == record_of(
                        intent_id,
                        self.reservation.attempt_id,
                        intent@.path,
                        write_proof.recovery_evidence@[i],
                    )
            },
    {
        if !self.graph_operation_consumed {
            return Err(ProjectionStoreError::WriteProofMismatch);
        }
        if let Err(error) = require_write_proof(intent, write_proof) {
            return Err(error);
        }
        let mut records: Vec<LocalProjectionEvidenceRecord> = Vec::new();
        let mut at: usize = 0;
        while at < write_proof.recovery_evidence.len()
            invariant
                at <= write_proof.recovery_evidence@.len(),
                self.graph_operation_consumed,
                proof_is_of(*write_proof, intent@),
                records@.len() == at,
                forall|i: int|
                    0 <= i < at ==> (#[trigger] write_proof.recovery_evidence@[i]).filename@
                        == self.reservation.recovery_filename@,
                forall|i: int|
                    0 <= i < records@.len() ==> (#[trigger] records@[i])@ == record_of(
                        intent_id,
                        self.reservation.attempt_id,
                        intent@.path,
                        write_proof.recovery_evidence@[i],
                    ),
            decreases write_proof.recovery_evidence@.len() - at,
        {
            let evidence = &write_proof.recovery_evidence[at];
            if !same_text(
                self.reservation.recovery_filename.as_str(),
                evidence.filename.as_str(),
            ) {
                assert(write_proof.recovery_evidence@[at as int].filename@
                    != self.reservation.recovery_filename@);
                return Err(ProjectionStoreError::UnreservedRecoveryEvidence);
            }
            records.push(
                record_evidence(intent_id, self.reservation.attempt_id, &intent.path, evidence),
            );
            at = at + 1;
        }
        Ok(records)
    }
}

/// What reconciling a completed mutation comes to: there is no authority, or it is the expected
/// one and its record is to be removed.
#[derive(Debug, PartialEq, Eq)]
pub enum Reconciliation {
    Nothing,
    RemoveRecord,
}

/// What reconciling a completed mutation comes to, or why the authority that is there is refused.
pub open spec fn reconciliation(
    store: StoreBinding,
    intent: ProjectionIntentView,
    intent_id: ProjectionIntentId,
    lease: Result<(), ProjectionStoreError>,
    snapshot: MutationSnapshot,
) -> Result<Reconciliation, ProjectionStoreError> {
    match lease {
        Err(error) => Err(error),
        Ok(()) => match snapshot.existing {
            Err(error) => Err(error),
            Ok(None) => Ok(Reconciliation::Nothing),
            Ok(Some(stored)) => match snapshot.claim {
                Err(error) => Err(error),
                Ok(None) => Err(ProjectionStoreError::MalformedStoreClaim),
                Ok(Some(_)) => match snapshot.attempts {
                    Err(error) => Err(error),
                    Ok(attempts) => match bound_check(intent, snapshot) {
                        Err(error) => Err(error),
                        Ok(base) => match authority_verdict(
                            stored,
                            intent,
                            begun_binding(store, intent_id, snapshot, base),
                            attempts@,
                        ) {
                            Err(error) => Err(error),
                            Ok(_) => Ok(Reconciliation::RemoveRecord),
                        },
                    },
                },
            },
        },
    }
}

/// Reconciles a completed mutation, from what taking the intent's lease and reading the store gave.
pub fn reconcile_completed_mutation(
    store: &StoreBinding,
    intent: &ProjectionIntent,
    intent_id: ProjectionIntentId,
    lease: Result<(), ProjectionStoreError>,
    snapshot: MutationSnapshot,
) -> (reconciled: Result<Reconciliation, ProjectionStoreError>)
    ensures
        reconciled == reconciliation(*store, intent@, intent_id, lease, snapshot),
{
    if let Err(error) = lease {
        return Err(error);
    }
    let stored = match snapshot.existing {
        Err(error) => return Err(error),
        Ok(None) => return Ok(Reconciliation::Nothing),
        Ok(Some(stored)) => stored,
    };
    let claim = match snapshot.claim {
        Err(error) => return Err(error),
        Ok(None) => return Err(ProjectionStoreError::MalformedStoreClaim),
        Ok(Some(claim)) => claim,
    };
    let attempts = match snapshot.attempts {
        Err(error) => return Err(error),
        Ok(attempts) => attempts,
    };
    let intent_bytes = match snapshot.intent_bytes {
        Err(error) => return Err(ProjectionStoreError::Receipt(error)),
        Ok(bytes) => bytes,
    };
    let base = match check_base(intent.precondition, snapshot.base) {
        Err(error) => return Err(error),
        Ok(base) => base,
    };
    let attempts_identity = match snapshot.attempts_identity {
        Err(error) => return Err(error),
        Ok(identity) => identity,
    };
    let forensics_identity = match snapshot.forensics_identity {
        Err(error) => return Err(error),
        Ok(identity) => identity,
    };
    let binding = AuthorityBinding {
        store_id: store.store_id,
        store_claim_digest: Digest::of(claim.as_slice()),
        workspace_id: store.workspace_id,
        endpoint: store.endpoint,
        intent_id,
        intent_digest: Digest::of(intent_bytes.as_slice()),
        base,
        namespace_identities: store.namespace_identities,
        attempts_identity,
        forensics_identity,
    };
    match decode_durable_mutation_authority(stored, intent, &binding, &attempts) {
        Err(error) => Err(error),
        Ok(_) => Ok(Reconciliation::RemoveRecord),
    }
}

} // verus!
