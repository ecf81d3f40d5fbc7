//! What is read of a store without its whole catalogue: the names of its evidence, the rows that
//! are new, and what an endpoint's retired intents left behind.

use vstd::prelude::*;

use crate::attempts::EntryKind;
use crate::catalog::{
    catalogued_intent, charge_catalog_directory_entry, charge_check, charged, is_retired_name,
    ProjectionCatalogEntry, MAX_PROJECTION_CATALOG_DIRECTORY_ENTRIES, MAX_PROJECTION_CATALOG_ROWS,
};
use crate::completion::ProjectionCompletion;
use crate::ids::ProjectionIntentId;
use crate::intent::ProjectionIntent;
use crate::name_set::{insert_name, name_set, names_ascend};
use crate::names::{
    begins_with, completion_filename, evidence_name, intent_filename, is_evidence_name,
    is_temp_name, mutation_authority_filename, mutation_authority_lease_filename, name_evidence,
    names_temp, require_canonical_evidence_name, starts_with_text, ATTEMPTS_DIR, COMPLETIONS_DIR,
    FORENSICS_DIR, INTENTS_DIR, MUTATION_AUTHORITY_LEASE_SUFFIX, MUTATION_AUTHORITY_SUFFIX,
    PENDING_CLEANUP_DIR, PENDING_CLEANUP_ROUND_0_DIR, PENDING_CLEANUP_ROUND_1_DIR,
};
use crate::store::{ProjectionReceiptStore, StoredIntent};
use crate::store_error::{EntryFault, ProjectionStoreError};

verus! {

/// An entry of a directory: its name where that is text, and what it is.
#[derive(Debug, PartialEq, Eq)]
pub struct NamedEntry {
    pub name: Option<String>,
    pub kind: EntryKind,
}

/// The names that were read: the entries and rows of the directory so far, and the names of all
/// directories.
#[verifier::ext_equal]
pub struct NameScan {
    pub directory_entries: usize,
    pub rows: nat,
    pub names: Set<Seq<char>>,
}

/// The names after one more entry of a directory, or why the entry is refused.
pub open spec fn name_admitted(
    retired: Seq<ProjectionIntentId>,
    suffix: Seq<char>,
    kind: &'static str,
    scan: NameScan,
    entry: NamedEntry,
) -> Result<NameScan, ProjectionStoreError> {
    let next = NameScan { directory_entries: charged(scan.directory_entries), ..scan };
    match charge_check(scan.directory_entries, MAX_PROJECTION_CATALOG_DIRECTORY_ENTRIES) {
        Err(error) => Err(error),
        Ok(()) => match entry.name {
            None => Err(
                ProjectionStoreError::UnsafeEntry(
                    EntryFault::Own("non-UTF-8 projection evidence entry"),
                ),
            ),
            Some(name) => if is_retired_name(retired, name@, suffix) {
                Ok(next)
            } else if entry.kind != EntryKind::File {
                Err(
                    ProjectionStoreError::UnsafeEntry(
                        EntryFault::Named { fault: "entry is not a regular file", name },
                    ),
                )
            } else if names_temp(name@) {
                Ok(next)
            } else if scan.rows == MAX_PROJECTION_CATALOG_ROWS {
                Err(
                    ProjectionStoreError::EvidenceTooLarge {
                        kind,
                        declared: (MAX_PROJECTION_CATALOG_ROWS + 1) as u64,
                        limit: MAX_PROJECTION_CATALOG_ROWS as u64,
                    },
                )
            } else if !is_evidence_name(name@, suffix) || scan.names.contains(name@) {
                Err(ProjectionStoreError::MalformedEvidenceName(name))
            } else {
                Ok(
                    NameScan {
                        rows: scan.rows + 1,
                        names: scan.names.insert(name@),
                        ..next
                    },
                )
            },
        },
    }
}

/// The names after the first `n` entries of a directory, or why the first faulty entry is refused.
pub open spec fn names_read(
    retired: Seq<ProjectionIntentId>,
    suffix: Seq<char>,
    kind: &'static str,
    names: Set<Seq<char>>,
    entries: Seq<NamedEntry>,
    n: nat,
) -> Result<NameScan, ProjectionStoreError>
    decreases n,
{
    if n == 0 {
        Ok(NameScan { directory_entries: 0, rows: 0, names })
    } else {
        match names_read(retired, suffix, kind, names, entries, (n - 1) as nat) {
            Err(error) => Err(error),
            Ok(scan) => name_admitted(retired, suffix, kind, scan, entries[n - 1]),
        }
    }
}

/// The names of a store's completions and intents, or why a directory is refused.
pub open spec fn evidence_names(
    retired: Seq<ProjectionIntentId>,
    completions: Seq<NamedEntry>,
    intents: Seq<NamedEntry>,
) -> Result<Set<Seq<char>>, ProjectionStoreError> {
    match names_read(
        retired,
        ".completion"@,
        "projection completion rows",
        Set::empty(),
        completions,
        completions.len(),
    ) {
        Err(error) => Err(error),
        Ok(first) => match names_read(
            retired,
            ".intent"@,
            "projection intent rows",
            first.names,
            intents,
            intents.len(),
        ) {
            Err(error) => Err(error),
            Ok(second) => Ok(second.names),
        },
    }
}

/// Once an entry is refused, so is every longer list.
proof fn lemma_name_refused(
    retired: Seq<ProjectionIntentId>,
    suffix: Seq<char>,
    kind: &'static str,
    names: Set<Seq<char>>,
    entries: Seq<NamedEntry>,
    m: nat,
    n: nat,
)
    requires
        m <= n,
        names_read(retired, suffix, kind, names, entries, m) is Err,
    ensures
        names_read(retired, suffix, kind, names, entries, n) == names_read(
            retired,
            suffix,
            kind,
            names,
            entries,
            m,
        ),
    decreases n,
{
    if m < n {
        lemma_name_refused(retired, suffix, kind, names, entries, m, (n - 1) as nat);
    }
}

/// A new intent: the name of its file, and what reading it gave.
#[derive(Debug, PartialEq, Eq)]
pub struct DeltaIntent {
    pub name: String,
    pub stored: Result<Option<StoredIntent>, ProjectionStoreError>,
}

/// The new intent that a file holds, or why it is refused.
pub open spec fn delta_intent(store: ProjectionReceiptStore, one: DeltaIntent) -> Result<
    ProjectionIntent,
    ProjectionStoreError,
> {
    if !is_evidence_name(one.name@, ".intent"@) {
        Err(ProjectionStoreError::MalformedEvidenceName(one.name))
    } else {
        match one.stored {
            Err(error) => Err(error),
            Ok(None) => Err(
                ProjectionStoreError::UnsafeEntry(
                    EntryFault::Named {
                        fault: "projection intent disappeared after names snapshot",
                        name: one.name,
                    },
                ),
            ),
            Ok(Some(stored)) => match catalogued_intent(store, one.name@, ".intent"@, stored) {
                Err(error) => Err(error),
                Ok((_, intent)) => Ok(intent),
            },
        }
    }
}

/// The first `n` new intents, or why the first faulty one is refused.
pub open spec fn delta_intents(store: ProjectionReceiptStore, new: Seq<DeltaIntent>, n: nat) -> Result<
    Seq<ProjectionIntent>,
    ProjectionStoreError,
>
    decreases n,
{
    if n == 0 {
        Ok(Seq::empty())
    } else {
        match delta_intents(store, new, (n - 1) as nat) {
            Err(error) => Err(error),
            Ok(before) => match delta_intent(store, new[n - 1]) {
                Err(error) => Err(error),
                Ok(intent) => Ok(before.push(intent)),
            },
        }
    }
}

/// Once a new intent is refused, so is every longer list.
proof fn lemma_intent_refused(
    store: ProjectionReceiptStore,
    new: Seq<DeltaIntent>,
    m: nat,
    n: nat,
)
    requires
        m <= n,
        delta_intents(store, new, m) is Err,
    ensures
        delta_intents(store, new, n) == delta_intents(store, new, m),
    decreases n,
{
    if m < n {
        lemma_intent_refused(store, new, m, (n - 1) as nat);
    }
}

/// A new completion: the name of its file, what reading its intent gave, and what loading it gave.
#[derive(Debug, PartialEq, Eq)]
pub struct DeltaRow {
    pub name: String,
    pub stored: Result<Option<StoredIntent>, ProjectionStoreError>,
    pub completion: Result<Option<ProjectionCompletion>, ProjectionStoreError>,
}

/// The new row of the catalogue, or why it is refused.
pub open spec fn delta_row(store: ProjectionReceiptStore, one: DeltaRow) -> Result<
    ProjectionCatalogEntry,
    ProjectionStoreError,
> {
    if !is_evidence_name(one.name@, ".completion"@) {
        Err(ProjectionStoreError::MalformedEvidenceName(one.name))
    } else {
        match one.stored {
            Err(error) => Err(error),
            Ok(None) => Err(
                ProjectionStoreError::UnsafeEntry(
                    EntryFault::Named {
                        fault: "projection completion has no matching intent",
                        name: one.name,
                    },
                ),
            ),
            Ok(Some(stored)) => match catalogued_intent(
                store,
                one.name@,
                ".completion"@,
                stored,
            ) {
                Err(error) => Err(error),
                Ok((intent_id, intent)) => match one.completion {
                    Err(error) => Err(error),
                    Ok(None) => Err(
                        ProjectionStoreError::UnsafeEntry(
                            EntryFault::Named {
                                fault: "projection completion disappeared after names snapshot",
                                name: one.name,
                            },
                        ),
                    ),
                    Ok(Some(completion)) => Ok(
                        ProjectionCatalogEntry {
                            intent_id,
                            intent,
                            completion: Some(completion),
                        },
                    ),
                },
            },
        }
    }
}

/// The first `n` new rows, or why the first faulty one is refused.
pub open spec fn delta_rows(store: ProjectionReceiptStore, new: Seq<DeltaRow>, n: nat) -> Result<
    Seq<ProjectionCatalogEntry>,
    ProjectionStoreError,
>
    decreases n,
{
    if n == 0 {
        Ok(Seq::empty())
    } else {
        match delta_rows(store, new, (n - 1) as nat) {
            Err(error) => Err(error),
            Ok(before) => match delta_row(store, new[n - 1]) {
                Err(error) => Err(error),
                Ok(row) => Ok(before.push(row)),
            },
        }
    }
}

/// Once a new row is refused, so is every longer list.
proof fn lemma_row_refused(store: ProjectionReceiptStore, new: Seq<DeltaRow>, m: nat, n: nat)
    requires
        m <= n,
        delta_rows(store, new, m) is Err,
    ensures
        delta_rows(store, new, n) == delta_rows(store, new, m),
    decreases n,
{
    if m < n {
        lemma_row_refused(store, new, m, (n - 1) as nat);
    }
}

/// What is there of an intent of this endpoint whose receipts no longer count.
#[derive(Clone, Copy, Debug, PartialEq, Eq, Structural)]
pub struct OwnIntentResidue {
    pub intent_id: ProjectionIntentId,
    pub intent: bool,
    pub completion: bool,
    pub attempts: bool,
    pub forensics: bool,
    pub authority: bool,
    pub lease: bool,
}

/// Whether a path is that of something that is there of an intent.
pub open spec fn is_residue_of(one: OwnIntentResidue, path: Seq<char>) -> bool {
    let digest = one.intent_id.digest;
    ||| one.intent && path == INTENTS_DIR@ + "/"@ + evidence_name(digest, ".intent"@)
    ||| one.completion && path == COMPLETIONS_DIR@ + "/"@ + evidence_name(digest, ".completion"@)
    ||| one.attempts && path == ATTEMPTS_DIR@ + "/"@ + evidence_name(digest, "/"@)
    ||| one.forensics && path == FORENSICS_DIR@ + "/"@ + evidence_name(digest, "/"@)
    ||| one.authority && path == evidence_name(digest, MUTATION_AUTHORITY_SUFFIX@)
    ||| one.lease && path == evidence_name(digest, MUTATION_AUTHORITY_LEASE_SUFFIX@)
}

/// Whether a marker of pending cleanup is of one of some intents.
pub open spec fn is_own_marker(own: Seq<OwnIntentResidue>, name: Seq<char>) -> bool {
    exists|i: int|
        0 <= i < own.len() && begins_with(
            name,
            evidence_name((#[trigger] own[i]).intent_id.digest, "."@),
        )
}

/// The path of a marker in a round.
pub open spec fn marker_path(round: Seq<char>, name: Seq<char>) -> Seq<char> {
    FORENSICS_DIR@ + "/"@ + PENDING_CLEANUP_DIR@ + "/"@ + round + "/"@ + name
}

/// Whether a path is that of a marker that some intents left in a round.
pub open spec fn is_marker_residue(
    own: Seq<OwnIntentResidue>,
    round: Seq<char>,
    names: Seq<Option<String>>,
    path: Seq<char>,
) -> bool {
    exists|i: int|
        0 <= i < names.len() && (#[trigger] names[i]) is Some && is_own_marker(
            own,
            (names[i]->0)@,
        ) && path == marker_path(round, (names[i]->0)@)
}

/// Whether a path is that of something that retired intents left behind.
pub open spec fn is_residue(
    own: Seq<OwnIntentResidue>,
    round_0: Seq<Option<String>>,
    round_1: Seq<Option<String>>,
    path: Seq<char>,
) -> bool {
    ||| exists|i: int| 0 <= i < own.len() && is_residue_of(#[trigger] own[i], path)
    ||| is_marker_residue(own, PENDING_CLEANUP_ROUND_0_DIR@, round_0, path)
    ||| is_marker_residue(own, PENDING_CLEANUP_ROUND_1_DIR@, round_1, path)
}

/// Joins a directory and what is in it.
fn join_path(directory: &str, rest: &str) -> (path: String)
    ensures
        path@ == directory@ + "/"@ + rest@,
{
    let mut path = directory.to_owned();
    path.append("/");
    path.append(rest);
    path
}

/// Reports what is there of an intent.
fn report_residue(reported: &mut Vec<String>, one: OwnIntentResidue)
    requires
        names_ascend(old(reported)@),
    ensures
        names_ascend(final(reported)@),
        forall|path: Seq<char>|
            #[trigger] name_set(final(reported)@).contains(path) == (name_set(
                old(reported)@,
            ).contains(path) || is_residue_of(one, path)),
{
    if one.intent {
        insert_name(reported, join_path(INTENTS_DIR, intent_filename(one.intent_id).as_str()));
    }
    if one.completion {
        insert_name(
            reported,
            join_path(COMPLETIONS_DIR, completion_filename(one.intent_id).as_str()),
        );
    }
    if one.attempts {
        insert_name(
            reported,
            join_path(ATTEMPTS_DIR, name_evidence(one.intent_id.digest, "/").as_str()),
        );
    }
    if one.forensics {
        insert_name(
            reported,
            join_path(FORENSICS_DIR, name_evidence(one.intent_id.digest, "/").as_str()),
        );
    }
    if one.authority {
        insert_name(reported, mutation_authority_filename(one.intent_id));
    }
    if one.lease {
        insert_name(reported, mutation_authority_lease_filename(one.intent_id));
    }
}

/// Whether a marker of pending cleanup is of one of some intents.
fn owns_marker(own: &Vec<OwnIntentResidue>, name: &str) -> (owns: bool)
    ensures
        owns == is_own_marker(own@, name@),
{
    let mut at: usize = 0;
    while at < own.len()
        invariant
            at <= own@.len(),
            forall|i: int|
                0 <= i < at ==> !begins_with(
                    name@,
                    evidence_name((#[trigger] own@[i]).intent_id.digest, "."@),
                ),
        decreases own@.len() - at,
    {
        let prefix = name_evidence(own[at].intent_id.digest, ".");
        if starts_with_text(name, prefix.as_str()) {
            assert(begins_with(name@, evidence_name(own@[at as int].intent_id.digest, "."@)));
            return true;
        }
        at = at + 1;
    }
    false
}

/// Reports the markers that some intents left in a round.
fn report_markers(
    reported: &mut Vec<String>,
    own: &Vec<OwnIntentResidue>,
    round: &str,
    names: &Vec<Option<String>>,
)
    requires
        names_ascend(old(reported)@),
    ensures
        names_ascend(final(reported)@),
        forall|path: Seq<char>|
            #[trigger] name_set(final(reported)@).contains(path) == (name_set(
                old(reported)@,
            ).contains(path) || is_marker_residue(own@, round@, names@, path)),
{
    let mut at: usize = 0;
    while at < names.len()
        invariant
            at <= names@.len(),
            names_ascend(reported@),
            forall|path: Seq<char>|
                #[trigger] name_set(reported@).contains(path) == (name_set(
                    old(reported)@,
                ).contains(path) || is_marker_residue(
                    own@,
                    round@,
                    names@.take(at as int),
                    path,
                )),
        decreases names@.len() - at,
    {
        let ghost before = *reported;
        if let Some(name) = &names[at] {
            if owns_marker(own, name.as_str()) {
                let mut path = FORENSICS_DIR.to_owned();
                path.append("/");
                path.append(PENDING_CLEANUP_DIR);
                path.append("/");
                path.append(round);
                path.append("/");
                path.append(name.as_str());
                insert_name(reported, path);
            }
        }
        proof {
            let taken = names@.take(at as int);
            let more = names@.take(at + 1);
            assert forall|path: Seq<char>| is_marker_residue(own@, round@, more, path) == (
            is_marker_residue(own@, round@, taken, path) || (names@[at as int] is Some
                && is_own_marker(own@, (names@[at as int]->0)@) && path == marker_path(
                round@,
                (names@[at as int]->0)@,
            ))) by {
                if is_marker_residue(own@, round@, taken, path) {
                    let i = choose|i: int|
                        0 <= i < taken.len() && (#[trigger] taken[i]) is Some && is_own_marker(
                            own@,
                            (taken[i]->0)@,
                        ) && path == marker_path(round@, (taken[i]->0)@);
                    assert(more[i] == taken[i]);
                }
                if is_marker_residue(own@, round@, more, path) {
                    let i = choose|i: int|
                        0 <= i < more.len() && (#[trigger] more[i]) is Some && is_own_marker(
                            own@,
                            (more[i]->0)@,
                        ) && path == marker_path(round@, (more[i]->0)@);
                    if i < at {
                        assert(taken[i] == more[i]);
                    }
                }
                assert(more[at as int] == names@[at as int]);
            }
            assert forall|path: Seq<char>| #[trigger] name_set(reported@).contains(path) == (
            name_set(old(reported)@).contains(path) || is_marker_residue(
                own@,
                round@,
                more,
                path,
            )) by {
                assert(name_set(before@).contains(path) == (name_set(old(reported)@).contains(path)
                    || is_marker_residue(own@, round@, taken, path)));
            }
        }
        at = at + 1;
    }
    assert(names@.take(names@.len() as int) =~= names@);
}

impl ProjectionReceiptStore {
    /// Reads the names of one directory.
    fn read_names(
        &self,
        names: &mut Vec<String>,
        suffix: &'static str,
        kind: &'static str,
        entries: Vec<NamedEntry>,
    ) -> (read: Result<(), ProjectionStoreError>)
        requires
            names_ascend(old(names)@),
        ensures
            match names_read(
                self.retired_own_endpoint_intents@,
                suffix@,
                kind,
                name_set(old(names)@),
                entries@,
                entries@.len(),
            ) {
                Err(error) => read == Err::<(), _>(error),
                Ok(scan) => read is Ok && names_ascend(final(names)@) && name_set(final(names)@)
                    == scan.names,
            },
    {
        let ghost all = entries@;
        let ghost start = name_set(names@);
        let ghost retired = self.retired_own_endpoint_intents@;
        let mut directory_entries: usize = 0;
        let mut rows: usize = 0;
        for entry in iter: entries.into_iter()
            invariant
                iter.seq() == all,
                all == entries@,
                start == name_set(old(names)@),
                retired == self.retired_own_endpoint_intents@,
                names_ascend(names@),
                rows <= MAX_PROJECTION_CATALOG_ROWS,
                names_read(retired, suffix@, kind, start, all, iter.index() as nat) == Ok::<
                    _,
                    ProjectionStoreError,
                >(NameScan { directory_entries, rows: rows as nat, names: name_set(names@) }),
        {
            let ghost at = iter.index() as nat;
            assert(entry == all[at as int]);
            proof {
                if names_read(retired, suffix@, kind, start, all, at + 1) is Err {
                    lemma_name_refused(retired, suffix@, kind, start, all, at + 1, all.len());
                }
            }
            if let Err(error) = charge_catalog_directory_entry(
                &mut directory_entries,
                MAX_PROJECTION_CATALOG_DIRECTORY_ENTRIES,
            ) {
                return Err(error);
            }
            let name = match entry.name {
                None => return Err(
                    ProjectionStoreError::UnsafeEntry(
                        EntryFault::Own("non-UTF-8 projection evidence entry"),
                    ),
                ),
                Some(name) => name,
            };
            let skipped = if self.names_retired(name.as_str(), suffix) {
                true
            } else {
                if entry.kind != EntryKind::File {
                    return Err(
                        ProjectionStoreError::UnsafeEntry(
                            EntryFault::Named { fault: "entry is not a regular file", name },
                        ),
                    );
                }
                is_temp_name(name.as_str())
            };
            if !skipped {
                if rows == MAX_PROJECTION_CATALOG_ROWS {
                    return Err(
                        ProjectionStoreError::EvidenceTooLarge {
                            kind,
                            declared: 2_000_001,
                            limit: 2_000_000,
                        },
                    );
                }
                if let Err(error) = require_canonical_evidence_name(&name, suffix) {
                    return Err(error);
                }
                rows = rows + 1;
                let kept = name.clone();
                if !insert_name(names, kept) {
                    return Err(ProjectionStoreError::MalformedEvidenceName(name));
                }
            }
        }
        Ok(())
    }

    /// The names of the store's completions and intents, in the order of their bytes. No evidence
    /// is opened.
    pub fn absence_summary_evidence_names(
        &self,
        completions: Vec<NamedEntry>,
        intents: Vec<NamedEntry>,
    ) -> (names: Result<Vec<String>, ProjectionStoreError>)
        ensures
            match evidence_names(self.retired_own_endpoint_intents@, completions@, intents@) {
                Err(error) => names == Err::<Vec<String>, _>(error),
                Ok(set) => names is Ok && names_ascend(names->Ok_0@) && name_set(names->Ok_0@)
                    == set,
            },
    {
        let mut names: Vec<String> = Vec::new();
        assert(name_set(names@) =~= Set::<Seq<char>>::empty());
        if let Err(error) = self.read_names(
            &mut names,
            ".completion",
            "projection completion rows",
            completions,
        ) {
            return Err(error);
        }
        if let Err(error) = self.read_names(
            &mut names,
            ".intent",
            "projection intent rows",
            intents,
        ) {
            return Err(error);
        }
        Ok(names)
    }

    /// Reads intents that are new.
    pub fn absence_summary_intent_delta(&self, new: Vec<DeltaIntent>) -> (intents: Result<
        Vec<ProjectionIntent>,
        ProjectionStoreError,
    >)
        ensures
            match delta_intents(*self, new@, new@.len()) {
                Err(error) => intents == Err::<Vec<ProjectionIntent>, _>(error),
                Ok(read) => intents is Ok && intents->Ok_0@ == read,
            },
    {
        let ghost all = new@;
        let mut intents: Vec<ProjectionIntent> = Vec::new();
        for one in iter: new.into_iter()
            invariant
                iter.seq() == all,
                all == new@,
                delta_intents(*self, all, iter.index() as nat) == Ok::<_, ProjectionStoreError>(
                    intents@,
                ),
        {
            let ghost at = iter.index() as nat;
            assert(one == all[at as int]);
            proof {
                if delta_intents(*self, all, at + 1) is Err {
                    lemma_intent_refused(*self, all, at + 1, all.len());
                }
            }
            if let Err(error) = require_canonical_evidence_name(&one.name, ".intent") {
                return Err(error);
            }
            let stored = match one.stored {
                Err(error) => return Err(error),
                Ok(None) => return Err(
                    ProjectionStoreError::UnsafeEntry(
                        EntryFault::Named {
                            fault: "projection intent disappeared after names snapshot",
                            name: one.name,
                        },
                    ),
                ),
                Ok(Some(stored)) => stored,
            };
            match self.catalogue_intent(one.name.as_str(), ".intent", stored) {
                Err(error) => return Err(error),
                Ok((_, intent)) => {
                    intents.push(intent);
                },
            }
        }
        Ok(intents)
    }

    /// Reads completions that are new, with their intents.
    pub fn absence_summary_catalog_delta(&self, new: Vec<DeltaRow>) -> (rows: Result<
        Vec<ProjectionCatalogEntry>,
        ProjectionStoreError,
    >)
        ensures
            match delta_rows(*self, new@, new@.len()) {
                Err(error) => rows == Err::<Vec<ProjectionCatalogEntry>, _>(error),
                Ok(read) => rows is Ok && rows->Ok_0@ == read,
            },
    {
        let ghost all = new@;
        let mut rows: Vec<ProjectionCatalogEntry> = Vec::new();
        for one in iter: new.into_iter()
            invariant
                iter.seq() == all,
                all == new@,
                delta_rows(*self, all, iter.index() as nat) == Ok::<_, ProjectionStoreError>(rows@),
        {
            let ghost at = iter.index() as nat;
            assert(one == all[at as int]);
            proof {
                if delta_rows(*self, all, at + 1) is Err {
                    lemma_row_refused(*self, all, at + 1, all.len());
                }
            }
            if let Err(error) = require_canonical_evidence_name(&one.name, ".completion") {
                return Err(error);
            }
            let stored = match one.stored {
                Err(error) => return Err(error),
                Ok(None) => return Err(
                    ProjectionStoreError::UnsafeEntry(
                        EntryFault::Named {
                            fault: "projection completion has no matching intent",
                            name: one.name,
                        },
                    ),
                ),
                Ok(Some(stored)) => stored,
            };
            let (intent_id, intent) = match self.catalogue_intent(
                one.name.as_str(),
                ".completion",
                stored,
            ) {
                Err(error) => return Err(error),
                Ok(found) => found,
            };
            match one.completion {
                Err(error) => return Err(error),
                Ok(None) => {
                    return Err(
                        ProjectionStoreError::UnsafeEntry(
                            EntryFault::Named {
                                fault: "projection completion disappeared after names snapshot",
                                name: one.name,
                            },
                        ),
                    );
                },
                Ok(Some(completion)) => {
                    rows.push(
                        ProjectionCatalogEntry {
                            intent_id,
                            intent,
                            completion: Some(completion),
                        },
                    );
                },
            }
        }
        Ok(rows)
    }

    /// Retires intents of this endpoint: their receipts no longer count. What is there of them is
    /// reported, in the order of the paths' bytes, and left where it is.
    pub fn retired_own_endpoint_artifacts(
        &mut self,
        own: &Vec<OwnIntentResidue>,
        round_0: &Vec<Option<String>>,
        round_1: &Vec<Option<String>>,
    ) -> (reported: Vec<String>)
        ensures
            names_ascend(reported@),
            forall|path: Seq<char>|
                #[trigger] name_set(reported@).contains(path) == is_residue(
                    own@,
                    round_0@,
                    round_1@,
                    path,
                ),
            forall|id: ProjectionIntentId|
                #[trigger] final(self).retired_own_endpoint_intents@.contains(id) == (old(
                    self,
                ).retired_own_endpoint_intents@.contains(id) || exists|i: int|
                    0 <= i < own@.len() && (#[trigger] own@[i]).intent_id == id),
            final(self).root_path == old(self).root_path,
            final(self).store_id == old(self).store_id,
            final(self).workspace_id == old(self).workspace_id,
            final(self).endpoint == old(self).endpoint,
            final(self).namespace_identities == old(self).namespace_identities,
            final(self).pending_cleanup_identity == old(self).pending_cleanup_identity,
    {
        let mut reported: Vec<String> = Vec::new();
        assert(name_set(reported@) =~= Set::<Seq<char>>::empty());
        let mut at: usize = 0;
        while at < own.len()
            invariant
                at <= own@.len(),
                names_ascend(reported@),
                forall|path: Seq<char>|
                    #[trigger] name_set(reported@).contains(path) == (exists|i: int|
                        0 <= i < at && is_residue_of(#[trigger] own@[i], path)),
                forall|id: ProjectionIntentId|
                    #[trigger] self.retired_own_endpoint_intents@.contains(id) == (old(
                        self,
                    ).retired_own_endpoint_intents@.contains(id) || exists|i: int|
                        0 <= i < at && (#[trigger] own@[i]).intent_id == id),
                self.root_path == old(self).root_path,
                self.store_id == old(self).store_id,
                self.workspace_id == old(self).workspace_id,
                self.endpoint == old(self).endpoint,
                self.namespace_identities == old(self).namespace_identities,
                self.pending_cleanup_identity == old(self).pending_cleanup_identity,
            decreases own@.len() - at,
        {
            let one = own[at];
            let ghost before = reported@;
            let ghost retired = self.retired_own_endpoint_intents@;
            report_residue(&mut reported, one);
            proof {
                assert forall|path: Seq<char>| #[trigger] name_set(reported@).contains(path) == (
                exists|i: int| 0 <= i < at + 1 && is_residue_of(#[trigger] own@[i], path)) by {
                    assert(name_set(reported@).contains(path) == (name_set(before).contains(path)
                        || is_residue_of(own@[at as int], path)));
                    if exists|i: int| 0 <= i < at + 1 && is_residue_of(#[trigger] own@[i], path) {
                        let i = choose|i: int|
                            0 <= i < at + 1 && is_residue_of(#[trigger] own@[i], path);
                        if i < at {
                            assert(name_set(before).contains(path));
                        }
                    }
                }
            }
            if !self.is_retired(one.intent_id) {
                self.retired_own_endpoint_intents.push(one.intent_id);
            }
            proof {
                let now = self.retired_own_endpoint_intents@;
                assert forall|id: ProjectionIntentId| #[trigger] now.contains(id) == (
                retired.contains(id) || id == one.intent_id) by {
                    if retired.contains(id) {
                        let k = choose|k: int| 0 <= k < retired.len() && retired[k] == id;
                        assert(now[k] == id);
                    }
                    if id == one.intent_id && !retired.contains(id) {
                        assert(now[retired.len() as int] == id);
                    }
                    if now.contains(id) {
                        let k = choose|k: int| 0 <= k < now.len() && now[k] == id;
                        if k < retired.len() {
                            assert(retired[k] == id);
                        }
                    }
                }
                assert forall|id: ProjectionIntentId| #[trigger] now.contains(id) == (old(
                    self,
                ).retired_own_endpoint_intents@.contains(id) || exists|i: int|
                    0 <= i < at + 1 && (#[trigger] own@[i]).intent_id == id) by {
                    assert(retired.contains(id) == (old(
                        self,
                    ).retired_own_endpoint_intents@.contains(id) || exists|i: int|
                        0 <= i < at && (#[trigger] own@[i]).intent_id == id));
                    assert(own@[at as int].intent_id == one.intent_id);
                }
            }
            at = at + 1;
        }
        report_markers(&mut reported, own, PENDING_CLEANUP_ROUND_0_DIR, round_0);
        report_markers(&mut reported, own, PENDING_CLEANUP_ROUND_1_DIR, round_1);
        reported
    }
}

} // verus!
