//! Whether an authority to mutate is still the one that the store holds.

use std::collections::{HashMap, HashSet};

use vstd::prelude::*;

use crate::attempts::{EntryKind, ProjectionAttemptReservation};
use crate::authority::ProjectionMutationAuthority;
use crate::bytes::same_bytes;
use crate::hash::{BlobDescription, Digest};
use crate::ids::{ProjectionIntentId, ProjectionReceiptStoreId, Uuid};
use crate::names::{
    attempt_of, is_temp_name, names_temp, parse_attempt_filename, ATTEMPTS_DIR, BASES_DIR,
    COMPLETIONS_DIR, FORENSICS_DIR, INTENTS_DIR,
};
use crate::store_error::{EntryFault, ProjectionStoreError};

verus! {

broadcast use vstd::std_specs::hash::group_hash_axioms;

/// What opening a directory by its name gave: what was reported, or what identifying it gave.
#[derive(Debug, PartialEq, Eq)]
pub enum LiveDirectory {
    Unopened(String),
    Opened(Result<Digest, ProjectionStoreError>),
}

/// What identifying the directories that an authority holds open gave.
#[derive(Debug, PartialEq, Eq)]
pub struct RetainedIdentities {
    pub bases: Result<Digest, ProjectionStoreError>,
    pub completions: Result<Digest, ProjectionStoreError>,
    pub intents: Result<Digest, ProjectionStoreError>,
    pub attempts_parent: Result<Digest, ProjectionStoreError>,
    pub forensics_parent: Result<Digest, ProjectionStoreError>,
    pub attempts: Result<Digest, ProjectionStoreError>,
    pub forensics: Result<Digest, ProjectionStoreError>,
}

/// An entry of the directory of an intent's attempts as it is now.
#[derive(Debug, PartialEq, Eq)]
pub struct LiveAttempt {
    pub name: Option<String>,
    pub kind: EntryKind,
    pub bytes: Result<Option<Vec<u8>>, ProjectionStoreError>,
}

/// What the store's names denote now.
#[derive(Debug, PartialEq, Eq)]
pub struct LiveNames {
    pub store_id: Result<ProjectionReceiptStoreId, ProjectionStoreError>,
    pub claim: Result<Option<Vec<u8>>, ProjectionStoreError>,
    pub authority: Result<Option<Vec<u8>>, ProjectionStoreError>,
    pub bases: LiveDirectory,
    pub intents: LiveDirectory,
    pub completions: LiveDirectory,
    pub attempts: LiveDirectory,
    pub forensics: LiveDirectory,
    pub retained: RetainedIdentities,
    /// The directory of pending cleanup by its name, where it could be opened.
    pub pending: Option<Result<Digest, ProjectionStoreError>>,
    /// The directory of pending cleanup that the authority holds open.
    pub pending_retained: Result<Digest, ProjectionStoreError>,
    pub intent: Result<Option<Vec<u8>>, ProjectionStoreError>,
    pub base: Result<Option<Vec<u8>>, ProjectionStoreError>,
    pub entries: Vec<LiveAttempt>,
    pub intent_attempts: LiveDirectory,
    pub intent_forensics: LiveDirectory,
}

/// Two checks, the second only where the first passes.
pub open spec fn both(
    first: Result<(), ProjectionStoreError>,
    second: Result<(), ProjectionStoreError>,
) -> Result<(), ProjectionStoreError> {
    match first {
        Err(error) => Err(error),
        Ok(()) => second,
    }
}

/// Whether the store is the one that the authority was written in, and if not, why.
pub open spec fn store_check(
    store_id: Result<ProjectionReceiptStoreId, ProjectionStoreError>,
    expected: ProjectionReceiptStoreId,
) -> Result<(), ProjectionStoreError> {
    match store_id {
        Err(error) => Err(error),
        Ok(found) => if found != expected {
            Err(ProjectionStoreError::MutationAuthorityMismatch)
        } else {
            Ok(())
        },
    }
}

/// Whether a file holds bytes of the given digest, and if not, why.
pub open spec fn digest_check(
    read: Result<Option<Vec<u8>>, ProjectionStoreError>,
    missing: ProjectionStoreError,
    expected: Digest,
) -> Result<(), ProjectionStoreError> {
    match read {
        Err(error) => Err(error),
        Ok(None) => Err(missing),
        Ok(Some(bytes)) => if Digest::spec_from(crate::hash::sha256(bytes@)) != expected {
            Err(ProjectionStoreError::MutationAuthorityMismatch)
        } else {
            Ok(())
        },
    }
}

/// Whether the record of the authority is still there, and if not, why.
pub open spec fn record_check(
    read: Result<Option<Vec<u8>>, ProjectionStoreError>,
    expected: Seq<u8>,
) -> Result<(), ProjectionStoreError> {
    match read {
        Err(error) => Err(error),
        Ok(None) => Err(
            ProjectionStoreError::NamespaceSubstitution(
                EntryFault::Own("projection mutation authority disappeared"),
            ),
        ),
        Ok(Some(bytes)) => if bytes@ != expected {
            Err(ProjectionStoreError::MutationAuthorityMismatch)
        } else {
            Ok(())
        },
    }
}

/// Whether a name of the store still denotes the directory that it did, and if not, why.
pub open spec fn directory_check(
    name: &'static str,
    live: LiveDirectory,
    expected: Digest,
) -> Result<(), ProjectionStoreError> {
    match live {
        LiveDirectory::Unopened(report) => Err(
            ProjectionStoreError::NamespaceSubstitution(
                EntryFault::Named { fault: name, name: report },
            ),
        ),
        LiveDirectory::Opened(Err(error)) => Err(error),
        LiveDirectory::Opened(Ok(identity)) => if identity != expected {
            Err(ProjectionStoreError::NamespaceSubstitution(EntryFault::Own(name)))
        } else {
            Ok(())
        },
    }
}

/// Whether the directory that an intent has in a namespace is still the one that it was, and if
/// not, why.
pub open spec fn intent_directory_check(
    namespace: &'static str,
    intent_id: ProjectionIntentId,
    live: LiveDirectory,
    expected: Digest,
) -> Result<(), ProjectionStoreError> {
    match live {
        LiveDirectory::Unopened(report) => Err(
            ProjectionStoreError::NamespaceSubstitution(
                EntryFault::IntentNamespace { namespace, intent_id, report: Some(report) },
            ),
        ),
        LiveDirectory::Opened(Err(error)) => Err(error),
        LiveDirectory::Opened(Ok(identity)) => if identity != expected {
            Err(
                ProjectionStoreError::NamespaceSubstitution(
                    EntryFault::IntentNamespace { namespace, intent_id, report: None },
                ),
            )
        } else {
            Ok(())
        },
    }
}

/// Whether a directory that is held open is the expected one, and if not, why.
pub open spec fn retained_check(
    found: Result<Digest, ProjectionStoreError>,
    expected: Digest,
) -> Result<(), ProjectionStoreError> {
    match found {
        Err(error) => Err(error),
        Ok(identity) => if identity != expected {
            Err(ProjectionStoreError::MutationAuthorityMismatch)
        } else {
            Ok(())
        },
    }
}

/// Whether the directory of pending cleanup is the one that is held open, and if not, why.
pub open spec fn pending_check(
    live: Option<Result<Digest, ProjectionStoreError>>,
    retained: Result<Digest, ProjectionStoreError>,
) -> Result<(), ProjectionStoreError> {
    match live {
        None => Err(ProjectionStoreError::MutationAuthorityMismatch),
        Some(Err(error)) => Err(error),
        Some(Ok(identity)) => retained_check(retained, identity),
    }
}

/// Whether the base that the authority names is there, and if not, why.
pub open spec fn base_check(
    base: Option<BlobDescription>,
    read: Result<Option<Vec<u8>>, ProjectionStoreError>,
) -> Result<(), ProjectionStoreError> {
    match base {
        None => Ok(()),
        Some(description) => match read {
            Err(error) => Err(error),
            Ok(None) => Err(ProjectionStoreError::MissingBase(description)),
            Ok(Some(bytes)) => if BlobDescription::spec_of(bytes@) != description {
                Err(ProjectionStoreError::BaseEvidenceMismatch(description))
            } else {
                Ok(())
            },
        },
    }
}

/// The last of the first `n` attempts with an identifier.
pub open spec fn last_attempt(
    attempts: Seq<ProjectionAttemptReservation>,
    attempt_id: u128,
    n: nat,
) -> Option<int>
    decreases n,
{
    if n == 0 {
        None
    } else if attempts[n - 1].attempt_id.value == attempt_id {
        Some(n - 1)
    } else {
        last_attempt(attempts, attempt_id, (n - 1) as nat)
    }
}

/// The attempt that an entry of the directory is, nothing where it is being written, or why it is
/// refused: the authority must list it with the same bytes.
pub open spec fn live_attempt(
    attempts: Seq<ProjectionAttemptReservation>,
    recorded: Seq<Vec<u8>>,
    entry: LiveAttempt,
) -> Result<Option<Uuid>, ProjectionStoreError> {
    match entry.name {
        None => Err(
            ProjectionStoreError::UnsafeEntry(
                EntryFault::Own("non-UTF-8 projection attempt entry"),
            ),
        ),
        Some(name) => if entry.kind != EntryKind::File {
            Err(
                ProjectionStoreError::UnsafeEntry(
                    EntryFault::Named { fault: "entry is not a regular file", name },
                ),
            )
        } else if names_temp(name@) {
            Ok(None)
        } else {
            match attempt_of(name@) {
                None => Err(ProjectionStoreError::MalformedEvidenceName(name)),
                Some(attempt_id) => match last_attempt(
                    attempts,
                    attempt_id.value,
                    attempts.len(),
                ) {
                    None => Err(ProjectionStoreError::AttemptBindingMismatch),
                    Some(at) => match entry.bytes {
                        Err(error) => Err(error),
                        Ok(None) => Err(ProjectionStoreError::AttemptBindingMismatch),
                        Ok(Some(bytes)) => if bytes@ != recorded[at]@ {
                            Err(ProjectionStoreError::AttemptBindingMismatch)
                        } else {
                            Ok(Some(attempt_id))
                        },
                    },
                },
            }
        },
    }
}

/// The attempts among the first `n` entries, or why the first faulty entry is refused.
pub open spec fn live_attempts(
    attempts: Seq<ProjectionAttemptReservation>,
    recorded: Seq<Vec<u8>>,
    entries: Seq<LiveAttempt>,
    n: nat,
) -> Result<Set<u128>, ProjectionStoreError>
    decreases n,
{
    if n == 0 {
        Ok(Set::empty())
    } else {
        match live_attempts(attempts, recorded, entries, (n - 1) as nat) {
            Err(error) => Err(error),
            Ok(before) => match live_attempt(attempts, recorded, entries[n - 1]) {
                Err(error) => Err(error),
                Ok(None) => Ok(before),
                Ok(Some(attempt_id)) => Ok(before.insert(attempt_id.value)),
            },
        }
    }
}

/// Whether the directory of an intent's attempts holds just those that the authority lists, and if
/// not, why.
pub open spec fn attempts_check(
    attempts: Seq<ProjectionAttemptReservation>,
    recorded: Seq<Vec<u8>>,
    entries: Seq<LiveAttempt>,
) -> Result<(), ProjectionStoreError> {
    if attempts.len() != recorded.len() {
        Err(ProjectionStoreError::MutationAuthorityMismatch)
    } else {
        match live_attempts(attempts, recorded, entries, entries.len()) {
            Err(error) => Err(error),
            Ok(seen) => if forall|i: int|
                0 <= i < attempts.len() ==> seen.contains(
                    (#[trigger] attempts[i]).attempt_id.value,
                ) {
                Ok(())
            } else {
                Err(ProjectionStoreError::AttemptBindingMismatch)
            },
        }
    }
}

/// Whether the directories by their names are the authority's, and if not, why.
pub open spec fn namespaces_check(
    authority: ProjectionMutationAuthority,
    live: LiveNames,
) -> Result<(), ProjectionStoreError> {
    let identities = authority.durable.namespace_identities;
    both(
        directory_check(BASES_DIR, live.bases, identities.bases),
        both(
            directory_check(INTENTS_DIR, live.intents, identities.intents),
            both(
                directory_check(COMPLETIONS_DIR, live.completions, identities.completions),
                both(
                    directory_check(ATTEMPTS_DIR, live.attempts, identities.attempts),
                    directory_check(FORENSICS_DIR, live.forensics, identities.forensics),
                ),
            ),
        ),
    )
}

/// Whether the directories that are held open are the authority's, and if not, why.
pub open spec fn all_retained_check(
    authority: ProjectionMutationAuthority,
    retained: RetainedIdentities,
) -> Result<(), ProjectionStoreError> {
    let identities = authority.durable.namespace_identities;
    both(
        retained_check(retained.bases, identities.bases),
        both(
            retained_check(retained.completions, identities.completions),
            both(
                retained_check(retained.intents, identities.intents),
                both(
                    retained_check(retained.attempts_parent, identities.attempts),
                    both(
                        retained_check(retained.forensics_parent, identities.forensics),
                        both(
                            retained_check(
                                retained.attempts,
                                authority.durable.attempts_identity,
                            ),
                            retained_check(
                                retained.forensics,
                                authority.durable.forensics_identity,
                            ),
                        ),
                    ),
                ),
            ),
        ),
    )
}

/// Whether the files that the authority binds are there, and if not, why.
pub open spec fn files_check(
    authority: ProjectionMutationAuthority,
    live: LiveNames,
) -> Result<(), ProjectionStoreError> {
    both(
        digest_check(
            live.intent,
            ProjectionStoreError::MissingIntent(authority.durable.intent_id),
            authority.durable.intent_digest,
        ),
        both(
            base_check(authority.durable.base, live.base),
            attempts_check(
                authority.reservations@,
                authority.reservation_bytes@,
                live.entries@,
            ),
        ),
    )
}

/// Whether an authority is still the one that the store holds, and if not, why: the store and its
/// claim, the authority's record, every directory, the intent, its base and its attempts.
pub open spec fn live_verdict(
    authority: ProjectionMutationAuthority,
    live: LiveNames,
) -> Result<(), ProjectionStoreError> {
    both(
        store_check(live.store_id, authority.durable.store_id),
        both(
            digest_check(
                live.claim,
                ProjectionStoreError::MalformedStoreClaim,
                authority.durable.store_claim_digest,
            ),
            both(
                record_check(live.authority, authority.durable_bytes@),
                both(
                    namespaces_check(authority, live),
                    both(
                        all_retained_check(authority, live.retained),
                        both(
                            pending_check(live.pending, live.pending_retained),
                            both(
                                files_check(authority, live),
                                both(
                                    intent_directory_check(
                                        ATTEMPTS_DIR,
                                        authority.durable.intent_id,
                                        live.intent_attempts,
                                        authority.durable.attempts_identity,
                                    ),
                                    intent_directory_check(
                                        FORENSICS_DIR,
                                        authority.durable.intent_id,
                                        live.intent_forensics,
                                        authority.durable.forensics_identity,
                                    ),
                                ),
                            ),
                        ),
                    ),
                ),
            ),
        ),
    )
}

/// Checks that the store is the expected one.
fn check_store(
    store_id: Result<ProjectionReceiptStoreId, ProjectionStoreError>,
    expected: ProjectionReceiptStoreId,
) -> (checked: Result<(), ProjectionStoreError>)
    ensures
        checked == store_check(store_id, expected),
{
    match store_id {
        Err(error) => Err(error),
        Ok(found) => if found != expected {
            Err(ProjectionStoreError::MutationAuthorityMismatch)
        } else {
            Ok(())
        },
    }
}

/// Checks that a file holds bytes of the given digest.
fn check_digest(
    read: Result<Option<Vec<u8>>, ProjectionStoreError>,
    missing: ProjectionStoreError,
    expected: Digest,
) -> (checked: Result<(), ProjectionStoreError>)
    ensures
        checked == digest_check(read, missing, expected),
{
    match read {
        Err(error) => Err(error),
        Ok(None) => Err(missing),
        Ok(Some(bytes)) => if Digest::of(bytes.as_slice()) != expected {
            Err(ProjectionStoreError::MutationAuthorityMismatch)
        } else {
            Ok(())
        },
    }
}

/// Checks that the record of the authority is still there.
fn check_record(read: Result<Option<Vec<u8>>, ProjectionStoreError>, expected: &[u8]) -> (checked: Result<
    (),
    ProjectionStoreError,
>)
    ensures
        checked == record_check(read, expected@),
{
    match read {
        Err(error) => Err(error),
        Ok(None) => Err(
            ProjectionStoreError::NamespaceSubstitution(
                EntryFault::Own("projection mutation authority disappeared"),
            ),
        ),
        Ok(Some(bytes)) => if !same_bytes(bytes.as_slice(), expected) {
            Err(ProjectionStoreError::MutationAuthorityMismatch)
        } else {
            Ok(())
        },
    }
}

/// Checks that a name of the store still denotes the directory that it did.
pub fn check_directory(name: &'static str, live: LiveDirectory, expected: Digest) -> (checked: Result<
    (),
    ProjectionStoreError,
>)
    ensures
        checked == directory_check(name, live, expected),
{
    match live {
        LiveDirectory::Unopened(report) => Err(
            ProjectionStoreError::NamespaceSubstitution(
                EntryFault::Named { fault: name, name: report },
            ),
        ),
        LiveDirectory::Opened(Err(error)) => Err(error),
        LiveDirectory::Opened(Ok(identity)) => if identity != expected {
            Err(ProjectionStoreError::NamespaceSubstitution(EntryFault::Own(name)))
        } else {
            Ok(())
        },
    }
}

/// Checks that the directory that an intent has in a namespace is still the one that it was.
pub fn validate_live_intent_namespace(
    namespace: &'static str,
    intent_id: ProjectionIntentId,
    live: LiveDirectory,
    expected: Digest,
) -> (checked: Result<(), ProjectionStoreError>)
    ensures
        checked == intent_directory_check(namespace, intent_id, live, expected),
{
    match live {
        LiveDirectory::Unopened(report) => Err(
            ProjectionStoreError::NamespaceSubstitution(
                EntryFault::IntentNamespace { namespace, intent_id, report: Some(report) },
            ),
        ),
        LiveDirectory::Opened(Err(error)) => Err(error),
        LiveDirectory::Opened(Ok(identity)) => if identity != expected {
            Err(
                ProjectionStoreError::NamespaceSubstitution(
                    EntryFault::IntentNamespace { namespace, intent_id, report: None },
                ),
            )
        } else {
            Ok(())
        },
    }
}

/// Checks that a directory that is held open is the expected one.
fn check_retained(found: Result<Digest, ProjectionStoreError>, expected: Digest) -> (checked: Result<
    (),
    ProjectionStoreError,
>)
    ensures
        checked == retained_check(found, expected),
{
    match found {
        Err(error) => Err(error),
        Ok(identity) => if identity != expected {
            Err(ProjectionStoreError::MutationAuthorityMismatch)
        } else {
            Ok(())
        },
    }
}

/// Checks that the directory of pending cleanup is the one that is held open.
fn check_pending(
    live: Option<Result<Digest, ProjectionStoreError>>,
    retained: Result<Digest, ProjectionStoreError>,
) -> (checked: Result<(), ProjectionStoreError>)
    ensures
        checked == pending_check(live, retained),
{
    match live {
        None => Err(ProjectionStoreError::MutationAuthorityMismatch),
        Some(Err(error)) => Err(error),
        Some(Ok(identity)) => check_retained(retained, identity),
    }
}

/// Checks that the base that the authority names is there.
fn check_live_base(
    base: Option<BlobDescription>,
    read: Result<Option<Vec<u8>>, ProjectionStoreError>,
) -> (checked: Result<(), ProjectionStoreError>)
    ensures
        checked == base_check(base, read),
{
    let description = match base {
        None => return Ok(()),
        Some(description) => description,
    };
    match read {
        Err(error) => Err(error),
        Ok(None) => Err(ProjectionStoreError::MissingBase(description)),
        Ok(Some(bytes)) => if BlobDescription::of(bytes.as_slice()) != description {
            Err(ProjectionStoreError::BaseEvidenceMismatch(description))
        } else {
            Ok(())
        },
    }
}

/// Finds attempts by their identifiers, the last one where several have the same.
fn index_attempts(attempts: &Vec<ProjectionAttemptReservation>) -> (indexes: HashMap<u128, usize>)
    ensures
        forall|id: u128|
            match last_attempt(attempts@, id, attempts@.len()) {
                None => !(#[trigger] indexes@.contains_key(id)),
                Some(at) => indexes@.contains_key(id) && indexes@[id] == at && 0 <= at
                    < attempts@.len(),
            },
{
    let mut indexes: HashMap<u128, usize> = HashMap::new();
    let mut at: usize = 0;
    while at < attempts.len()
        invariant
            at <= attempts@.len(),
            forall|id: u128|
                match last_attempt(attempts@, id, at as nat) {
                    None => !(#[trigger] indexes@.contains_key(id)),
                    Some(found) => indexes@.contains_key(id) && indexes@[id] == found && 0 <= found
                        < at,
                },
        decreases attempts@.len() - at,
    {
        indexes.insert(attempts[at].attempt_id.value, at);
        at = at + 1;
    }
    indexes
}

/// Checks an entry of the directory of an intent's attempts.
fn check_live_attempt(
    attempts: &Vec<ProjectionAttemptReservation>,
    indexes: &HashMap<u128, usize>,
    recorded: &Vec<Vec<u8>>,
    entry: LiveAttempt,
) -> (checked: Result<Option<Uuid>, ProjectionStoreError>)
    requires
        attempts@.len() == recorded@.len(),
        forall|id: u128|
            match last_attempt(attempts@, id, attempts@.len()) {
                None => !(#[trigger] indexes@.contains_key(id)),
                Some(at) => indexes@.contains_key(id) && indexes@[id] == at && 0 <= at
                    < attempts@.len(),
            },
    ensures
        checked == live_attempt(attempts@, recorded@, entry),
{
    let name = match entry.name {
        None => return Err(
            ProjectionStoreError::UnsafeEntry(
                EntryFault::Own("non-UTF-8 projection attempt entry"),
            ),
        ),
        Some(name) => name,
    };
    if entry.kind != EntryKind::File {
        return Err(
            ProjectionStoreError::UnsafeEntry(
                EntryFault::Named { fault: "entry is not a regular file", name },
            ),
        );
    }
    if is_temp_name(name.as_str()) {
        return Ok(None);
    }
    let attempt_id = match parse_attempt_filename(&name) {
        Err(error) => return Err(error),
        Ok(attempt_id) => attempt_id,
    };
    assert(indexes@.contains_key(attempt_id.value) || !indexes@.contains_key(attempt_id.value));
    let at: usize = match indexes.get(&attempt_id.value) {
        None => return Err(ProjectionStoreError::AttemptBindingMismatch),
        Some(at) => *at,
    };
    match entry.bytes {
        Err(error) => Err(error),
        Ok(None) => Err(ProjectionStoreError::AttemptBindingMismatch),
        Ok(Some(bytes)) => if !same_bytes(bytes.as_slice(), recorded[at].as_slice()) {
            Err(ProjectionStoreError::AttemptBindingMismatch)
        } else {
            Ok(Some(attempt_id))
        },
    }
}

/// Once an entry is refused, so is every longer list.
proof fn lemma_refused(
    attempts: Seq<ProjectionAttemptReservation>,
    recorded: Seq<Vec<u8>>,
    entries: Seq<LiveAttempt>,
    m: nat,
    n: nat,
)
    requires
        m <= n,
        live_attempts(attempts, recorded, entries, m) is Err,
    ensures
        live_attempts(attempts, recorded, entries, n) == live_attempts(
            attempts,
            recorded,
            entries,
            m,
        ),
    decreases n,
{
    if m < n {
        lemma_refused(attempts, recorded, entries, m, (n - 1) as nat);
    }
}

/// Checks that the directory of an intent's attempts holds just those that the authority lists.
fn check_live_attempts(
    attempts: &Vec<ProjectionAttemptReservation>,
    recorded: &Vec<Vec<u8>>,
    entries: Vec<LiveAttempt>,
) -> (checked: Result<(), ProjectionStoreError>)
    ensures
        checked == attempts_check(attempts@, recorded@, entries@),
{
    if attempts.len() != recorded.len() {
        return Err(ProjectionStoreError::MutationAuthorityMismatch);
    }
    let ghost all = entries@;
    let indexes = index_attempts(attempts);
    let mut seen: HashSet<u128> = HashSet::new();
    for entry in iter: entries.into_iter()
        invariant
            iter.seq() == all,
            all == entries@,
            attempts@.len() == recorded@.len(),
            forall|id: u128|
                match last_attempt(attempts@, id, attempts@.len()) {
                    None => !(#[trigger] indexes@.contains_key(id)),
                    Some(at) => indexes@.contains_key(id) && indexes@[id] == at && 0 <= at
                        < attempts@.len(),
                },
            live_attempts(attempts@, recorded@, all, iter.index() as nat) == Ok::<
                _,
                ProjectionStoreError,
            >(seen@),
    {
        let ghost at = iter.index() as nat;
        assert(entry == all[at as int]);
        match check_live_attempt(attempts, &indexes, recorded, entry) {
            Err(error) => {
                proof {
                    assert(live_attempts(attempts@, recorded@, all, at + 1) == Err::<
                        Set<u128>,
                        _,
                    >(error));
                    lemma_refused(attempts@, recorded@, all, at + 1, all.len());
                }
                return Err(error);
            },
            Ok(None) => {},
            Ok(Some(attempt_id)) => {
                seen.insert(attempt_id.value);
            },
        }
    }
    let mut at: usize = 0;
    while at < attempts.len()
        invariant
            at <= attempts@.len(),
            attempts@.len() == recorded@.len(),
            live_attempts(attempts@, recorded@, entries@, entries@.len()) == Ok::<
                _,
                ProjectionStoreError,
            >(seen@),
            forall|i: int|
                0 <= i < at ==> seen@.contains((#[trigger] attempts@[i]).attempt_id.value),
        decreases attempts@.len() - at,
    {
        if !seen.contains(&attempts[at].attempt_id.value) {
            assert(!seen@.contains(attempts@[at as int].attempt_id.value));
            return Err(ProjectionStoreError::AttemptBindingMismatch);
        }
        at = at + 1;
    }
    Ok(())
}

impl ProjectionMutationAuthority {
    /// Checks that the authority is still the one that the store holds.
    pub fn validate_live_names(&self, live: LiveNames) -> (checked: Result<
        (),
        ProjectionStoreError,
    >)
        ensures
            checked == live_verdict(*self, live),
    {
        let identities = &self.durable.namespace_identities;
        let intent_id = self.durable.intent_id;
        if let Err(error) = check_store(live.store_id, self.durable.store_id) {
            return Err(error);
        }
        if let Err(error) = check_digest(
            live.claim,
            ProjectionStoreError::MalformedStoreClaim,
            self.durable.store_claim_digest,
        ) {
            return Err(error);
        }
        if let Err(error) = check_record(live.authority, self.durable_bytes.as_slice()) {
            return Err(error);
        }
        if let Err(error) = check_directory(BASES_DIR, live.bases, identities.bases) {
            return Err(error);
        }
        if let Err(error) = check_directory(INTENTS_DIR, live.intents, identities.intents) {
            return Err(error);
        }
        if let Err(error) = check_directory(
            COMPLETIONS_DIR,
            live.completions,
            identities.completions,
        ) {
            return Err(error);
        }
        if let Err(error) = check_directory(ATTEMPTS_DIR, live.attempts, identities.attempts) {
            return Err(error);
        }
        if let Err(error) = check_directory(FORENSICS_DIR, live.forensics, identities.forensics) {
            return Err(error);
        }
        if let Err(error) = check_retained(live.retained.bases, identities.bases) {
            return Err(error);
        }
        if let Err(error) = check_retained(live.retained.completions, identities.completions) {
            return Err(error);
        }
        if let Err(error) = check_retained(live.retained.intents, identities.intents) {
            return Err(error);
        }
        if let Err(error) = check_retained(live.retained.attempts_parent, identities.attempts) {
            return Err(error);
        }
        if let Err(error) = check_retained(live.retained.forensics_parent, identities.forensics) {
            return Err(error);
        }
        if let Err(error) = check_retained(
            live.retained.attempts,
            self.durable.attempts_identity,
        ) {
            return Err(error);
        }
        if let Err(error) = check_retained(
            live.retained.forensics,
            self.durable.forensics_identity,
        ) {
            return Err(error);
        }
        if let Err(error) = check_pending(live.pending, live.pending_retained) {
            return Err(error);
        }
        if let Err(error) = check_digest(
            live.intent,
            ProjectionStoreError::MissingIntent(intent_id),
            self.durable.intent_digest,
        ) {
            return Err(error);
        }
        if let Err(error) = check_live_base(self.durable.base, live.base) {
            return Err(error);
        }
        if let Err(error) = check_live_attempts(
            &self.reservations,
            &self.reservation_bytes,
            live.entries,
        ) {
            return Err(error);
        }
        if let Err(error) = validate_live_intent_namespace(
            ATTEMPTS_DIR,
            intent_id,
            live.intent_attempts,
            self.durable.attempts_identity,
        ) {
            return Err(error);
        }
        validate_live_intent_namespace(
            FORENSICS_DIR,
            intent_id,
            live.intent_forensics,
            self.durable.forensics_identity,
        )
    }
}

/// An authority that is still live lists the intent's attempts exactly: every file there is one of
/// its attempts, and every one of its attempts is there.
pub proof fn law_live_authority_lists_every_attempt(
    authority: ProjectionMutationAuthority,
    live: LiveNames,
    i: int,
    k: int,
)
    requires
        live_verdict(authority, live) is Ok,
        0 <= i < live.entries@.len(),
        live.entries@[i].name is Some,
        !names_temp((live.entries@[i].name->0)@),
        0 <= k < authority.reservations@.len(),
    ensures
        attempt_of((live.entries@[i].name->0)@) is Some,
        last_attempt(
            authority.reservations@,
            (attempt_of((live.entries@[i].name->0)@)->0).value,
            authority.reservations@.len(),
        ) is Some,
        exists|j: int|
            0 <= j < live.entries@.len() && (#[trigger] live.entries@[j]).name is Some
                && attempt_of((live.entries@[j].name->0)@) is Some && (attempt_of(
                (live.entries@[j].name->0)@,
            )->0).value == authority.reservations@[k].attempt_id.value,
{
    let attempts = authority.reservations@;
    let recorded = authority.reservation_bytes@;
    let entries = live.entries@;
    assert(attempts_check(attempts, recorded, entries) is Ok);
    lemma_listed(attempts, recorded, entries, entries.len(), i);
    let seen = live_attempts(attempts, recorded, entries, entries.len())->Ok_0;
    assert(seen.contains(attempts[k].attempt_id.value));
    lemma_seen(attempts, recorded, entries, entries.len(), attempts[k].attempt_id.value);
}

/// Every entry of a list that is accepted is accepted.
proof fn lemma_listed(
    attempts: Seq<ProjectionAttemptReservation>,
    recorded: Seq<Vec<u8>>,
    entries: Seq<LiveAttempt>,
    n: nat,
    i: int,
)
    requires
        0 <= i < n,
        live_attempts(attempts, recorded, entries, n) is Ok,
    ensures
        live_attempt(attempts, recorded, entries[i]) is Ok,
    decreases n,
{
    if i < n - 1 {
        lemma_listed(attempts, recorded, entries, (n - 1) as nat, i);
    }
}

/// Every attempt that was seen is that of an entry.
proof fn lemma_seen(
    attempts: Seq<ProjectionAttemptReservation>,
    recorded: Seq<Vec<u8>>,
    entries: Seq<LiveAttempt>,
    n: nat,
    id: u128,
)
    requires
        n <= entries.len(),
        live_attempts(attempts, recorded, entries, n) is Ok,
        live_attempts(attempts, recorded, entries, n)->Ok_0.contains(id),
    ensures
        exists|j: int|
            0 <= j < n && (#[trigger] entries[j]).name is Some && attempt_of(
                (entries[j].name->0)@,
            ) is Some && (attempt_of((entries[j].name->0)@)->0).value == id,
    decreases n,
{
    if n > 0 {
        let before = live_attempts(attempts, recorded, entries, (n - 1) as nat)->Ok_0;
        if before.contains(id) {
            lemma_seen(attempts, recorded, entries, (n - 1) as nat, id);
        } else {
            assert(entries[n - 1].name is Some);
        }
    }
}

} // verus!
