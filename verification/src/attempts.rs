//! Reserved attempts: the recovery file that a projection may leave, named before it writes.

use vstd::prelude::*;

use crate::bytes::same_bytes;
use crate::ids::{simple_text, ProjectionIntentId, Uuid};
use crate::intent::{ProjectionIntent, ProjectionIntentView};
use crate::names::{attempt_of, is_temp_name, names_temp, parse_attempt_filename};
use crate::path::{file_name, ManagedPath, ManagedPathView};
use crate::store_error::{EntryFault, ProjectionStoreError};
use crate::text::same_text;

verus! {

/// The version of reserved attempts.
pub const LOCAL_ATTEMPT_SCHEMA_VERSION: u32 = 1;

/// How many attempts an intent may have.
pub const MAX_MUTATION_ATTEMPTS: usize = 1_000_000;

/// A reserved attempt at carrying out an intent.
#[derive(Clone, Debug, PartialEq, Eq)]
pub struct ProjectionAttemptReservation {
    pub schema_version: u32,
    pub intent_id: ProjectionIntentId,
    pub attempt_id: Uuid,
    pub target_path: ManagedPath,
    pub recovery_filename: String,
}

/// What a reserved attempt says.
pub struct ReservationView {
    pub schema_version: u32,
    pub intent_id: ProjectionIntentId,
    pub attempt_id: Uuid,
    pub target_path: ManagedPathView,
    pub recovery_filename: Seq<char>,
}

impl View for ProjectionAttemptReservation {
    type V = ReservationView;

    open spec fn view(&self) -> ReservationView {
        ReservationView {
            schema_version: self.schema_version,
            intent_id: self.intent_id,
            attempt_id: self.attempt_id,
            target_path: self.target_path@,
            recovery_filename: self.recovery_filename@,
        }
    }
}

/// The name of the recovery file of an attempt: hidden, next to the page's file, with the
/// attempt's digits.
pub open spec fn recovery_name(path: Seq<char>, attempt_id: Uuid) -> Seq<char> {
    "."@ + file_name(path) + "."@ + simple_text(attempt_id.value) + ".projection.recovery"@
}

/// The reserved attempt at carrying out an intent.
pub open spec fn reservation_of(
    intent: ProjectionIntentView,
    intent_id: ProjectionIntentId,
    attempt_id: Uuid,
) -> ReservationView {
    ReservationView {
        schema_version: LOCAL_ATTEMPT_SCHEMA_VERSION,
        intent_id,
        attempt_id,
        target_path: intent.path,
        recovery_filename: recovery_name(intent.path.text, attempt_id),
    }
}

/// Whether a reserved attempt is one at carrying out an intent.
pub open spec fn reservation_binds(
    reservation: ReservationView,
    intent: ProjectionIntentView,
    intent_id: ProjectionIntentId,
) -> bool {
    &&& reservation.schema_version == LOCAL_ATTEMPT_SCHEMA_VERSION
    &&& reservation.intent_id == intent_id
    &&& reservation.target_path.text == intent.path.text
    &&& reservation.recovery_filename == recovery_name(intent.path.text, reservation.attempt_id)
}

/// Names the recovery file of an attempt.
fn name_recovery(path: &ManagedPath, attempt_id: Uuid) -> (name: String)
    ensures
        name@ == recovery_name(path.text@, attempt_id),
{
    let mut name = ".".to_owned();
    name.append(path.file_name().as_str());
    name.append(".");
    name.append(attempt_id.simple().as_str());
    name.append(".projection.recovery");
    name
}

impl ProjectionAttemptReservation {
    /// The intent that is carried out.
    pub fn intent_id(&self) -> (intent_id: ProjectionIntentId)
        ensures
            intent_id == self.intent_id,
    {
        self.intent_id
    }

    /// The attempt.
    pub fn attempt_id(&self) -> (attempt_id: Uuid)
        ensures
            attempt_id == self.attempt_id,
    {
        self.attempt_id
    }

    /// The path of the page.
    pub fn target_path(&self) -> (target_path: &ManagedPath)
        ensures
            *target_path == self.target_path,
    {
        &self.target_path
    }

    /// The name of the recovery file.
    pub fn recovery_filename(&self) -> (name: &str)
        ensures
            name@ == self.recovery_filename@,
    {
        self.recovery_filename.as_str()
    }

    /// Reserves an attempt at carrying out an intent.
    pub fn new(intent: &ProjectionIntent, intent_id: ProjectionIntentId, attempt_id: Uuid) -> (reservation:
        ProjectionAttemptReservation)
        ensures
            reservation@ == reservation_of(intent@, intent_id, attempt_id),
            reservation_binds(reservation@, intent@, intent_id),
    {
        ProjectionAttemptReservation {
            schema_version: LOCAL_ATTEMPT_SCHEMA_VERSION,
            intent_id,
            attempt_id,
            target_path: intent.path.duplicate(),
            recovery_filename: name_recovery(&intent.path, attempt_id),
        }
    }

    /// Checks that the attempt is one at carrying out an intent.
    pub fn validate(&self, intent: &ProjectionIntent, intent_id: ProjectionIntentId) -> (checked: Result<
        (),
        ProjectionStoreError,
    >)
        ensures
            checked == (if reservation_binds(self@, intent@, intent_id) {
                Ok(())
            } else {
                Err(ProjectionStoreError::AttemptBindingMismatch)
            }),
    {
        let expected = name_recovery(&intent.path, self.attempt_id);
        if self.schema_version != LOCAL_ATTEMPT_SCHEMA_VERSION || self.intent_id != intent_id
            || !self.target_path.same(&intent.path) || !same_text(
            self.recovery_filename.as_str(),
            expected.as_str(),
        ) {
            return Err(ProjectionStoreError::AttemptBindingMismatch);
        }
        Ok(())
    }

    /// Whether two reserved attempts say the same.
    pub fn same(&self, other: &ProjectionAttemptReservation) -> (same: bool)
        ensures
            same == (self@ == other@),
    {
        self.schema_version == other.schema_version && self.intent_id == other.intent_id
            && self.attempt_id == other.attempt_id && self.target_path.same(&other.target_path)
            && self.target_path.portable_key_digest == other.target_path.portable_key_digest
            && same_text(self.recovery_filename.as_str(), other.recovery_filename.as_str())
    }

    /// A copy of the reserved attempt.
    pub fn duplicate(&self) -> (copy: ProjectionAttemptReservation)
        ensures
            copy@ == self@,
    {
        ProjectionAttemptReservation {
            schema_version: self.schema_version,
            intent_id: self.intent_id,
            attempt_id: self.attempt_id,
            target_path: self.target_path.duplicate(),
            recovery_filename: self.recovery_filename.clone(),
        }
    }
}

/// What an entry of a directory is.
#[derive(Clone, Copy, Debug, PartialEq, Eq, Structural)]
pub enum EntryKind {
    File,
    Directory,
    Other,
}

/// A stored reserved attempt: its bytes, what parsing them gave, and the canonical encoding of that.
#[derive(Debug, PartialEq, Eq)]
pub struct StoredReservation {
    pub bytes: Vec<u8>,
    pub decoded: Result<ProjectionAttemptReservation, String>,
    pub encoded: Result<Vec<u8>, String>,
}

/// An entry of the directory of an intent's attempts: its name where that is text, what it is, and
/// what reading it gave.
#[derive(Debug, PartialEq, Eq)]
pub struct AttemptEntry {
    pub name: Option<String>,
    pub kind: EntryKind,
    pub stored: Result<Option<StoredReservation>, ProjectionStoreError>,
}

/// The attempt that stored bytes are, or why they are none.
pub open spec fn stored_reservation(
    intent: ProjectionIntentView,
    intent_id: ProjectionIntentId,
    stored: StoredReservation,
) -> Result<ProjectionAttemptReservation, ProjectionStoreError> {
    match stored.decoded {
        Err(message) => Err(ProjectionStoreError::Decode(message)),
        Ok(reservation) => if !reservation_binds(reservation@, intent, intent_id) {
            Err(ProjectionStoreError::AttemptBindingMismatch)
        } else {
            match stored.encoded {
                Err(message) => Err(ProjectionStoreError::Encode(message)),
                Ok(encoded) => if encoded@ != stored.bytes@ {
                    Err(ProjectionStoreError::AttemptBindingMismatch)
                } else {
                    Ok(reservation)
                },
            }
        },
    }
}

/// What an entry of the directory of an intent's attempts holds: nothing where it is being
/// written, an attempt, or why it is refused.
pub open spec fn attempt_entry(
    intent: ProjectionIntentView,
    intent_id: ProjectionIntentId,
    entry: AttemptEntry,
) -> Result<Option<ProjectionAttemptReservation>, ProjectionStoreError> {
    match entry.name {
        None => Err(
            ProjectionStoreError::UnsafeEntry(
                EntryFault::Own("non-UTF-8 projection attempt entry"),
            ),
        ),
        Some(name) => if entry.kind != EntryKind::File {
            Err(
                ProjectionStoreError::UnsafeEntry(
                    EntryFault::Named { fault: "entry is not a regular file", name },
                ),
            )
        } else if names_temp(name@) {
            Ok(None)
        } else {
            match attempt_of(name@) {
                None => Err(ProjectionStoreError::MalformedEvidenceName(name)),
                Some(attempt_id) => match entry.stored {
                    Err(error) => Err(error),
                    Ok(None) => Err(
                        ProjectionStoreError::UnsafeEntry(
                            EntryFault::Named {
                                fault: "projection attempt disappeared during enumeration",
                                name,
                            },
                        ),
                    ),
                    Ok(Some(stored)) => if stored.decoded is Ok && reservation_binds(
                        stored.decoded->Ok_0@,
                        intent,
                        intent_id,
                    ) && stored.decoded->Ok_0.attempt_id != attempt_id {
                        Err(ProjectionStoreError::AttemptBindingMismatch)
                    } else {
                        match stored_reservation(intent, intent_id, stored) {
                            Err(error) => Err(error),
                            Ok(reservation) => Ok(Some(reservation)),
                        }
                    },
                },
            }
        },
    }
}

/// Checks stored bytes of an attempt.
pub fn check_stored_reservation(
    intent: &ProjectionIntent,
    intent_id: ProjectionIntentId,
    stored: StoredReservation,
) -> (checked: Result<ProjectionAttemptReservation, ProjectionStoreError>)
    ensures
        checked == stored_reservation(intent@, intent_id, stored),
{
    let reservation = match stored.decoded {
        Err(message) => return Err(ProjectionStoreError::Decode(message)),
        Ok(reservation) => reservation,
    };
    if let Err(error) = reservation.validate(intent, intent_id) {
        return Err(error);
    }
    match stored.encoded {
        Err(message) => Err(ProjectionStoreError::Encode(message)),
        Ok(encoded) => if !same_bytes(encoded.as_slice(), stored.bytes.as_slice()) {
            Err(ProjectionStoreError::AttemptBindingMismatch)
        } else {
            Ok(reservation)
        },
    }
}

/// Checks an entry of the directory of an intent's attempts.
fn check_attempt_entry(
    intent: &ProjectionIntent,
    intent_id: ProjectionIntentId,
    entry: AttemptEntry,
) -> (checked: Result<Option<ProjectionAttemptReservation>, ProjectionStoreError>)
    ensures
        checked == attempt_entry(intent@, intent_id, entry),
{
    let name = match entry.name {
        None => return Err(
            ProjectionStoreError::UnsafeEntry(
                EntryFault::Own("non-UTF-8 projection attempt entry"),
            ),
        ),
        Some(name) => name,
    };
    if entry.kind != EntryKind::File {
        return Err(
            ProjectionStoreError::UnsafeEntry(
                EntryFault::Named { fault: "entry is not a regular file", name },
            ),
        );
    }
    if is_temp_name(name.as_str()) {
        return Ok(None);
    }
    let attempt_id = match parse_attempt_filename(&name) {
        Err(error) => return Err(error),
        Ok(attempt_id) => attempt_id,
    };
    let stored = match entry.stored {
        Err(error) => return Err(error),
        Ok(None) => return Err(
            ProjectionStoreError::UnsafeEntry(
                EntryFault::Named {
                    fault: "projection attempt disappeared during enumeration",
                    name,
                },
            ),
        ),
        Ok(Some(stored)) => stored,
    };
    if let Ok(reservation) = &stored.decoded {
        if reservation.validate(intent, intent_id).is_ok() && reservation.attempt_id
            != attempt_id {
            return Err(ProjectionStoreError::AttemptBindingMismatch);
        }
    }
    match check_stored_reservation(intent, intent_id, stored) {
        Err(error) => Err(error),
        Ok(reservation) => Ok(Some(reservation)),
    }
}

/// The attempts among the first `n` entries, or why the first faulty entry is refused.
pub open spec fn listed_attempts(
    intent: ProjectionIntentView,
    intent_id: ProjectionIntentId,
    entries: Seq<AttemptEntry>,
    n: nat,
) -> Result<Seq<ProjectionAttemptReservation>, ProjectionStoreError>
    decreases n,
{
    if n == 0 {
        Ok(Seq::empty())
    } else {
        match listed_attempts(intent, intent_id, entries, (n - 1) as nat) {
            Err(error) => Err(error),
            Ok(before) => match attempt_entry(intent, intent_id, entries[n - 1]) {
                Err(error) => Err(error),
                Ok(None) => Ok(before),
                Ok(Some(reservation)) => if before.len() == MAX_MUTATION_ATTEMPTS {
                    Err(
                        ProjectionStoreError::MutationAuthorityTooLarge {
                            attempts: (MAX_MUTATION_ATTEMPTS + 1) as usize,
                            bytes: 0,
                        },
                    )
                } else {
                    Ok(before.push(reservation))
                },
            },
        }
    }
}

/// Once an entry is refused, so is every longer list.
proof fn lemma_refused(
    intent: ProjectionIntentView,
    intent_id: ProjectionIntentId,
    entries: Seq<AttemptEntry>,
    m: nat,
    n: nat,
)
    requires
        m <= n,
        listed_attempts(intent, intent_id, entries, m) is Err,
    ensures
        listed_attempts(intent, intent_id, entries, n) == listed_attempts(
            intent,
            intent_id,
            entries,
            m,
        ),
    decreases n,
{
    if m < n {
        lemma_refused(intent, intent_id, entries, m, (n - 1) as nat);
    }
}

/// Puts an attempt behind every attempt that is not above it.
pub open spec fn insert_attempt(
    sorted: Seq<ProjectionAttemptReservation>,
    reservation: ProjectionAttemptReservation,
) -> Seq<ProjectionAttemptReservation>
    decreases sorted.len(),
{
    if sorted.len() > 0 && reservation.attempt_id.value < sorted.last().attempt_id.value {
        insert_attempt(sorted.drop_last(), reservation).push(sorted.last())
    } else {
        sorted.push(reservation)
    }
}

/// The attempts in the order of their identifiers.
pub open spec fn sorted_attempts(attempts: Seq<ProjectionAttemptReservation>) -> Seq<
    ProjectionAttemptReservation,
>
    decreases attempts.len(),
{
    if attempts.len() == 0 {
        Seq::empty()
    } else {
        insert_attempt(sorted_attempts(attempts.drop_last()), attempts.last())
    }
}

/// Whether attempts are in the order of their identifiers.
pub open spec fn attempts_ascend(attempts: Seq<ProjectionAttemptReservation>) -> bool {
    forall|i: int, j: int|
        0 <= i < j < attempts.len() ==> (#[trigger] attempts[i]).attempt_id.value <= (
        #[trigger] attempts[j]).attempt_id.value
}

/// Inserting keeps the order.
proof fn lemma_insert_attempt(
    sorted: Seq<ProjectionAttemptReservation>,
    reservation: ProjectionAttemptReservation,
)
    requires
        attempts_ascend(sorted),
    ensures
        attempts_ascend(insert_attempt(sorted, reservation)),
        insert_attempt(sorted, reservation).len() == sorted.len() + 1,
        insert_attempt(sorted, reservation).to_multiset() == sorted.to_multiset().insert(
            reservation,
        ),
        forall|i: int|
            0 <= i < insert_attempt(sorted, reservation).len() ==> ((#[trigger] insert_attempt(
                sorted,
                reservation,
            )[i]) == reservation || sorted.contains(insert_attempt(sorted, reservation)[i])),
    decreases sorted.len(),
{
    broadcast use vstd::seq_lib::group_to_multiset_ensures;

    if sorted.len() > 0 && reservation.attempt_id.value < sorted.last().attempt_id.value {
        let front = sorted.drop_last();
        lemma_insert_attempt(front, reservation);
        let inserted = insert_attempt(front, reservation);
        assert(sorted =~= front.push(sorted.last()));
        assert(inserted.push(sorted.last()).to_multiset() =~= sorted.to_multiset().insert(
            reservation,
        ));
        let all = inserted.push(sorted.last());
        assert forall|i: int| 0 <= i < inserted.len() implies (
        #[trigger] inserted[i]).attempt_id.value <= sorted.last().attempt_id.value by {
            if inserted[i] != reservation {
                let k = choose|k: int| 0 <= k < front.len() && front[k] == inserted[i];
                assert(front[k] == sorted[k]);
            }
        }
        assert forall|i: int| 0 <= i < all.len() implies ((#[trigger] all[i]) == reservation
            || sorted.contains(all[i])) by {
            if i < inserted.len() {
                assert(all[i] == inserted[i]);
                if inserted[i] != reservation {
                    let k = choose|k: int| 0 <= k < front.len() && front[k] == inserted[i];
                    assert(sorted[k] == all[i]);
                }
            } else {
                assert(all[i] == sorted[sorted.len() - 1]);
            }
        }
    } else {
        let all = sorted.push(reservation);
        assert forall|i: int| 0 <= i < all.len() implies ((#[trigger] all[i]) == reservation
            || sorted.contains(all[i])) by {
            if i < sorted.len() {
                assert(all[i] == sorted[i]);
            }
        }
    }
}

/// Sorted attempts are the same attempts, in the order of their identifiers.
pub proof fn law_attempts_are_sorted(attempts: Seq<ProjectionAttemptReservation>)
    ensures
        attempts_ascend(sorted_attempts(attempts)),
        sorted_attempts(attempts).len() == attempts.len(),
        sorted_attempts(attempts).to_multiset() == attempts.to_multiset(),
    decreases attempts.len(),
{
    broadcast use vstd::seq_lib::group_to_multiset_ensures;

    if attempts.len() > 0 {
        assert(attempts =~= attempts.drop_last().push(attempts.last()));
        law_attempts_are_sorted(attempts.drop_last());
        lemma_insert_attempt(sorted_attempts(attempts.drop_last()), attempts.last());
    }
}

/// Inserting among the first `at` attempts and keeping those behind is inserting among all.
proof fn lemma_insert_at(
    sorted: Seq<ProjectionAttemptReservation>,
    reservation: ProjectionAttemptReservation,
    at: int,
)
    requires
        0 <= at <= sorted.len(),
        forall|i: int|
            at <= i < sorted.len() ==> reservation.attempt_id.value < (
            #[trigger] sorted[i]).attempt_id.value,
        at > 0 ==> reservation.attempt_id.value >= sorted[at - 1].attempt_id.value,
    ensures
        insert_attempt(sorted, reservation) == sorted.insert(at, reservation),
    decreases sorted.len(),
{
    if sorted.len() > at {
        let front = sorted.drop_last();
        assert(sorted.last() == sorted[sorted.len() - 1]);
        assert forall|i: int| at <= i < front.len() implies reservation.attempt_id.value < (
        #[trigger] front[i]).attempt_id.value by {
            assert(front[i] == sorted[i]);
        }
        lemma_insert_at(front, reservation, at);
        assert(front.insert(at, reservation).push(sorted.last()) =~= sorted.insert(
            at,
            reservation,
        ));
    } else {
        assert(sorted.push(reservation) =~= sorted.insert(at, reservation));
    }
}

/// Puts attempts in the order of their identifiers.
pub fn sort_attempts(attempts: Vec<ProjectionAttemptReservation>) -> (sorted: Vec<
    ProjectionAttemptReservation,
>)
    ensures
        sorted@ == sorted_attempts(attempts@),
{
    let ghost all = attempts@;
    let mut sorted: Vec<ProjectionAttemptReservation> = Vec::new();
    assert(all.take(0) =~= Seq::<ProjectionAttemptReservation>::empty());
    for reservation in iter: attempts.into_iter()
        invariant
            iter.seq() == all,
            sorted@ == sorted_attempts(all.take(iter.index() as int)),
    {
        let ghost index = iter.index() as int;
        let mut at: usize = sorted.len();
        while at > 0 && reservation.attempt_id.value < sorted[at - 1].attempt_id.value
            invariant
                at <= sorted@.len(),
                forall|i: int|
                    at <= i < sorted@.len() ==> reservation.attempt_id.value < (
                    #[trigger] sorted@[i]).attempt_id.value,
            decreases at,
        {
            at = at - 1;
        }
        proof {
            lemma_insert_at(sorted@, reservation, at as int);
            assert(all.take(index + 1).drop_last() =~= all.take(index));
            assert(all.take(index + 1).last() == reservation);
        }
        sorted.insert(at, reservation);
    }
    assert(all.take(all.len() as int) =~= all);
    sorted
}

/// The attempts of an intent in the order of their identifiers, or why its directory is refused.
pub open spec fn loaded_attempts(
    intent: ProjectionIntentView,
    intent_id: ProjectionIntentId,
    entries: Seq<AttemptEntry>,
) -> Result<Seq<ProjectionAttemptReservation>, ProjectionStoreError> {
    match listed_attempts(intent, intent_id, entries, entries.len()) {
        Err(error) => Err(error),
        Ok(attempts) => Ok(sorted_attempts(attempts)),
    }
}

/// Loads the attempts of an intent from the entries of its directory.
pub fn load_attempt_reservations_from(
    intent: &ProjectionIntent,
    intent_id: ProjectionIntentId,
    entries: Vec<AttemptEntry>,
) -> (loaded: Result<Vec<ProjectionAttemptReservation>, ProjectionStoreError>)
    ensures
        match loaded_attempts(intent@, intent_id, entries@) {
            Err(error) => loaded == Err::<Vec<ProjectionAttemptReservation>, _>(error),
            Ok(attempts) => loaded is Ok && loaded->Ok_0@ == attempts,
        },
{
    let ghost all = entries@;
    let mut attempts: Vec<ProjectionAttemptReservation> = Vec::new();
    for entry in iter: entries.into_iter()
        invariant
            iter.seq() == all,
            all == entries@,
            listed_attempts(intent@, intent_id, all, iter.index() as nat) == Ok::<
                _,
                ProjectionStoreError,
            >(attempts@),
    {
        let ghost at = iter.index() as nat;
        assert(entry == all[at as int]);
        let checked = check_attempt_entry(intent, intent_id, entry);
        match checked {
            Err(error) => {
                proof {
                    assert(listed_attempts(intent@, intent_id, all, at + 1) == Err::<
                        Seq<ProjectionAttemptReservation>,
                        _,
                    >(error));
                    lemma_refused(intent@, intent_id, all, at + 1, all.len());
                }
                return Err(error);
            },
            Ok(None) => {},
            Ok(Some(reservation)) => {
                if attempts.len() == MAX_MUTATION_ATTEMPTS {
                    proof {
                        assert(listed_attempts(intent@, intent_id, all, at + 1) is Err);
                        lemma_refused(intent@, intent_id, all, at + 1, all.len());
                    }
                    return Err(
                        ProjectionStoreError::MutationAuthorityTooLarge {
                            attempts: MAX_MUTATION_ATTEMPTS + 1,
                            bytes: 0,
                        },
                    );
                }
                attempts.push(reservation);
            },
        }
    }
    Ok(sort_attempts(attempts))
}

/// What reserving an attempt comes to: one that is there already, or a new one to be written.
#[derive(Debug, PartialEq, Eq)]
pub enum AttemptChoice {
    Existing(ProjectionAttemptReservation),
    New(ProjectionAttemptReservation),
}

/// The first of the attempts from `at` on with the given identifier.
pub open spec fn first_attempt(
    attempts: Seq<ProjectionAttemptReservation>,
    attempt_id: Uuid,
    at: int,
) -> Option<int>
    decreases attempts.len() - at,
{
    if at < 0 || at >= attempts.len() {
        None
    } else if attempts[at].attempt_id == attempt_id {
        Some(at)
    } else {
        first_attempt(attempts, attempt_id, at + 1)
    }
}

/// The attempt that is there already: the one with the identifier, or else the first where any may
/// be used again.
pub open spec fn reusable_attempt(
    attempts: Seq<ProjectionAttemptReservation>,
    attempt_id: Uuid,
    reuse_any: bool,
) -> Option<int> {
    match first_attempt(attempts, attempt_id, 0) {
        Some(at) => Some(at),
        None => if reuse_any && attempts.len() > 0 {
            Some(0)
        } else {
            None
        },
    }
}

/// Finds an attempt by its identifier.
pub fn find_attempt(attempts: &Vec<ProjectionAttemptReservation>, attempt_id: Uuid) -> (found: Option<
    usize,
>)
    ensures
        match first_attempt(attempts@, attempt_id, 0) {
            None => found is None,
            Some(at) => found is Some && found->0 == at && at < attempts@.len()
                && attempts@[at].attempt_id == attempt_id,
        },
{
    let mut at: usize = 0;
    while at < attempts.len()
        invariant
            at <= attempts@.len(),
            first_attempt(attempts@, attempt_id, 0) == first_attempt(
                attempts@,
                attempt_id,
                at as int,
            ),
        decreases attempts@.len() - at,
    {
        if attempts[at].attempt_id == attempt_id {
            return Some(at);
        }
        at = at + 1;
    }
    None
}

/// What reserving an attempt comes to, or why it is refused: nothing may be reserved while a
/// mutation is pending.
pub open spec fn reservation_choice(
    authority_is_pending: bool,
    attempts: Seq<ProjectionAttemptReservation>,
    intent: ProjectionIntentView,
    intent_id: ProjectionIntentId,
    attempt_id: Uuid,
    reuse_any: bool,
    choice: Result<AttemptChoice, ProjectionStoreError>,
) -> bool {
    if authority_is_pending {
        choice == Err::<AttemptChoice, _>(ProjectionStoreError::MutationAuthorityPending)
    } else {
        match reusable_attempt(attempts, attempt_id, reuse_any) {
            Some(at) => choice is Ok && choice->Ok_0 is Existing && choice->Ok_0->Existing_0@
                == attempts[at]@,
            None => if attempts.len() == MAX_MUTATION_ATTEMPTS {
                choice == Err::<AttemptChoice, _>(
                    ProjectionStoreError::MutationAuthorityTooLarge {
                        attempts: (MAX_MUTATION_ATTEMPTS + 1) as usize,
                        bytes: 0,
                    },
                )
            } else {
                choice is Ok && choice->Ok_0 is New && choice->Ok_0->New_0@ == reservation_of(
                    intent,
                    intent_id,
                    attempt_id,
                )
            },
        }
    }
}

/// Chooses the attempt to reserve for an intent.
pub fn reserve_deterministic_attempt(
    authority_is_pending: bool,
    attempts: &Vec<ProjectionAttemptReservation>,
    intent: &ProjectionIntent,
    intent_id: ProjectionIntentId,
    attempt_id: Uuid,
    reuse_any: bool,
) -> (choice: Result<AttemptChoice, ProjectionStoreError>)
    ensures
        reservation_choice(
            authority_is_pending,
            attempts@,
            intent@,
            intent_id,
            attempt_id,
            reuse_any,
            choice,
        ),
{
    if authority_is_pending {
        return Err(ProjectionStoreError::MutationAuthorityPending);
    }
    if let Some(at) = find_attempt(attempts, attempt_id) {
        return Ok(AttemptChoice::Existing(attempts[at].duplicate()));
    }
    if reuse_any && attempts.len() > 0 {
        return Ok(AttemptChoice::Existing(attempts[0].duplicate()));
    }
    if attempts.len() == MAX_MUTATION_ATTEMPTS {
        return Err(
            ProjectionStoreError::MutationAuthorityTooLarge {
                attempts: MAX_MUTATION_ATTEMPTS + 1,
                bytes: 0,
            },
        );
    }
    Ok(AttemptChoice::New(ProjectionAttemptReservation::new(intent, intent_id, attempt_id)))
}

/// The attempt that the current turn runs under. Without a turn nothing may be reserved.
pub fn turn_attempt_id(current: Option<Uuid>) -> (attempt_id: Result<Uuid, ProjectionStoreError>)
    ensures
        attempt_id == (match current {
            Some(attempt_id) => Ok(attempt_id),
            None => Err(ProjectionStoreError::MissingTurnAttemptContext),
        }),
{
    match current {
        Some(attempt_id) => Ok(attempt_id),
        None => Err(ProjectionStoreError::MissingTurnAttemptContext),
    }
}

} // verus!
