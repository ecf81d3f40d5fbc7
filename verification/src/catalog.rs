//! The catalogue of a store: every intent with its completion, all of it checked.

use vstd::prelude::*;

use crate::attempts::EntryKind;
use crate::bytes::same_bytes;
use crate::completion::ProjectionCompletion;
use crate::hash::{BlobDescription, Digest};
use crate::ids::ProjectionIntentId;
use crate::intent::{ProjectionIntent, ProjectionPrecondition};
use crate::names::{
    completion_filename, evidence_name, is_evidence_name, is_temp_name, name_evidence, names_temp,
    require_canonical_evidence_name,
};
use crate::store::{
    bound_completion, decode_bound_completion, holds_completion, intent_base, workspace_check,
    ProjectionReceiptStore, StoredCompletion, StoredIntent,
};
use crate::store_error::{EntryFault, ProjectionStoreError};
use crate::text::same_text;

verus! {

/// How many bytes a catalogue may have in all.
pub const MAX_PROJECTION_CATALOG_BYTES: u64 = 536_870_912;

/// How many intents a catalogue may have.
pub const MAX_PROJECTION_CATALOG_ROWS: usize = 2_000_000;

/// How many entries the directories of a catalogue may have.
pub const MAX_PROJECTION_CATALOG_DIRECTORY_ENTRIES: usize = 4_000_000;

/// The count of directory entries with one more.
pub open spec fn charged(count: usize) -> usize {
    if count == usize::MAX {
        usize::MAX
    } else {
        (count + 1) as usize
    }
}

/// Whether one more directory entry is within a limit, and if not, why.
pub open spec fn charge_check(count: usize, limit: usize) -> Result<(), ProjectionStoreError> {
    if charged(count) > limit {
        Err(
            ProjectionStoreError::EvidenceTooLarge {
                kind: "projection catalog directory entries",
                declared: charged(count) as u64,
                limit: limit as u64,
            },
        )
    } else {
        Ok(())
    }
}

/// Counts one more directory entry.
pub fn charge_catalog_directory_entry(count: &mut usize, limit: usize) -> (checked: Result<
    (),
    ProjectionStoreError,
>)
    ensures
        *final(count) == charged(*old(count)),
        checked == charge_check(*old(count), limit),
{
    *count = if *count == usize::MAX {
        usize::MAX
    } else {
        *count + 1
    };
    if *count > limit {
        Err(
            ProjectionStoreError::EvidenceTooLarge {
                kind: "projection catalog directory entries",
                declared: *count as u64,
                limit: limit as u64,
            },
        )
    } else {
        Ok(())
    }
}

/// An intent of a catalogue with its completion.
#[derive(Debug, PartialEq, Eq)]
pub struct ProjectionCatalogEntry {
    pub intent_id: ProjectionIntentId,
    pub intent: ProjectionIntent,
    pub completion: Option<ProjectionCompletion>,
}

/// An entry of the directory of intents: its name where that is text, what it is, and what reading
/// it and the intent's base gave.
#[derive(Debug, PartialEq, Eq)]
pub struct IntentEntry {
    pub name: Option<String>,
    pub kind: EntryKind,
    pub stored: Result<Option<StoredIntent>, ProjectionStoreError>,
    pub base: Result<Option<Vec<u8>>, ProjectionStoreError>,
}

/// An entry of the directory of completions: its name where that is text, what it is, what reading
/// it gave, and what reconciling the completed mutation gave.
#[derive(Debug, PartialEq, Eq)]
pub struct CompletionEntry {
    pub name: Option<String>,
    pub kind: EntryKind,
    pub stored: Result<Option<StoredCompletion>, ProjectionStoreError>,
    pub reconciled: Result<(), ProjectionStoreError>,
}

/// A catalogue that is being read: first the intents, then the completions one by one.
pub struct CatalogScan {
    directory_entries: usize,
    catalog_bytes: u64,
    bases: Vec<BlobDescription>,
    rows: Vec<ProjectionCatalogEntry>,
    completed: usize,
}

/// What a catalogue that is being read holds: the directory entries and bytes so far, the bases
/// that were read, the intents in the order of their identities, and how many are completed.
#[verifier::ext_equal]
pub struct CatalogView {
    pub directory_entries: usize,
    pub catalog_bytes: u64,
    pub bases: Seq<BlobDescription>,
    pub rows: Seq<ProjectionCatalogEntry>,
    pub completed: usize,
}

impl View for CatalogScan {
    type V = CatalogView;

    closed spec fn view(&self) -> CatalogView {
        CatalogView {
            directory_entries: self.directory_entries,
            catalog_bytes: self.catalog_bytes,
            bases: self.bases@,
            rows: self.rows@,
            completed: self.completed,
        }
    }
}

/// A catalogue of which nothing was read.
pub open spec fn empty_catalog() -> CatalogView {
    CatalogView {
        directory_entries: 0,
        catalog_bytes: 0,
        bases: Seq::empty(),
        rows: Seq::empty(),
        completed: 0,
    }
}

/// Whether a name is that of a retired intent's file with the given ending.
pub open spec fn is_retired_name(
    retired: Seq<ProjectionIntentId>,
    name: Seq<char>,
    suffix: Seq<char>,
) -> bool {
    exists|i: int|
        0 <= i < retired.len() && name == evidence_name((#[trigger] retired[i]).digest, suffix)
}

/// The bytes of a catalogue with some more, or that they are too many to count.
pub open spec fn more_bytes(bytes: u64, more: u64) -> Result<u64, ProjectionStoreError> {
    if bytes + more > u64::MAX {
        Err(
            ProjectionStoreError::EvidenceTooLarge {
                kind: "projection catalog",
                declared: u64::MAX,
                limit: MAX_PROJECTION_CATALOG_BYTES,
            },
        )
    } else {
        Ok((bytes + more) as u64)
    }
}

/// Whether a catalogue has no more bytes than it may have, and if not, why.
pub open spec fn bytes_check(bytes: u64) -> Result<(), ProjectionStoreError> {
    if bytes > MAX_PROJECTION_CATALOG_BYTES {
        Err(
            ProjectionStoreError::EvidenceTooLarge {
                kind: "projection catalog",
                declared: bytes,
                limit: MAX_PROJECTION_CATALOG_BYTES,
            },
        )
    } else {
        Ok(())
    }
}

/// The intent that a file of the catalogue holds, with its identity, or why it is refused. The
/// given name with the given ending must be of that identity.
pub open spec fn catalogued_intent(
    store: ProjectionReceiptStore,
    name: Seq<char>,
    suffix: Seq<char>,
    stored: StoredIntent,
) -> Result<(ProjectionIntentId, ProjectionIntent), ProjectionStoreError> {
    match stored.decoded {
        Err(error) => Err(ProjectionStoreError::Receipt(error)),
        Ok(intent) => match workspace_check(store.workspace_id, intent@) {
            Err(error) => Err(error),
            Ok(()) => match stored.encoded {
                Err(error) => Err(ProjectionStoreError::Receipt(error)),
                Ok(encoded) => if encoded@ != stored.bytes@ {
                    Err(ProjectionStoreError::PathBindingMismatch("projection intent"))
                } else {
                    match stored.intent_id {
                        Err(error) => Err(ProjectionStoreError::Receipt(error)),
                        Ok(intent_id) => if evidence_name(intent_id.digest, suffix) != name {
                            Err(ProjectionStoreError::PathBindingMismatch("projection intent"))
                        } else {
                            Ok((intent_id, intent))
                        },
                    }
                },
            },
        },
    }
}

/// Puts an intent among others in the order of their identities, in the place of one with the same
/// identity.
pub open spec fn insert_row(
    rows: Seq<ProjectionCatalogEntry>,
    row: ProjectionCatalogEntry,
) -> Seq<ProjectionCatalogEntry>
    decreases rows.len(),
{
    if rows.len() > 0 && row.intent_id.digest.spec_before(rows.last().intent_id.digest) {
        insert_row(rows.drop_last(), row).push(rows.last())
    } else if rows.len() > 0 && row.intent_id == rows.last().intent_id {
        rows.drop_last().push(row)
    } else {
        rows.push(row)
    }
}

/// The bytes and the bases of a catalogue with the base of an intent, or why it is refused. A base
/// that several intents start from counts once.
pub open spec fn with_base(
    store: ProjectionReceiptStore,
    bytes: u64,
    bases: Seq<BlobDescription>,
    intent: ProjectionIntent,
    read: Result<Option<Vec<u8>>, ProjectionStoreError>,
) -> Result<(u64, Seq<BlobDescription>), ProjectionStoreError> {
    match intent@.precondition {
        ProjectionPrecondition::Absent => Ok((bytes, bases)),
        ProjectionPrecondition::Base(description) => if bases.contains(description) {
            Ok((bytes, bases))
        } else {
            match more_bytes(bytes, description.byte_length) {
                Err(error) => Err(error),
                Ok(total) => match intent_base(store.workspace_id, intent@, read) {
                    Err(error) => Err(error),
                    Ok(_) => Ok((total, bases.push(description))),
                },
            }
        },
    }
}

/// A catalogue with one more intent, or why the intent is refused.
pub open spec fn with_intent(
    store: ProjectionReceiptStore,
    scan: CatalogView,
    name: Seq<char>,
    stored: StoredIntent,
    base: Result<Option<Vec<u8>>, ProjectionStoreError>,
) -> Result<CatalogView, ProjectionStoreError> {
    match catalogued_intent(store, name, ".intent"@, stored) {
        Err(error) => Err(error),
        Ok((intent_id, intent)) => match more_bytes(
            scan.catalog_bytes,
            stored.bytes@.len() as u64,
        ) {
            Err(error) => Err(error),
            Ok(bytes) => match with_base(store, bytes, scan.bases, intent, base) {
                Err(error) => Err(error),
                Ok((total, bases)) => match bytes_check(total) {
                    Err(error) => Err(error),
                    Ok(()) => Ok(
                        CatalogView {
                            catalog_bytes: total,
                            bases,
                            rows: insert_row(
                                scan.rows,
                                ProjectionCatalogEntry { intent_id, intent, completion: None },
                            ),
                            ..scan
                        },
                    ),
                },
            },
        },
    }
}

/// A catalogue after one more entry of the directory of intents, or why the entry is refused.
pub open spec fn intent_admitted(
    store: ProjectionReceiptStore,
    before: CatalogView,
    entry: IntentEntry,
) -> Result<CatalogView, ProjectionStoreError> {
    let scan = CatalogView { directory_entries: charged(before.directory_entries), ..before };
    match charge_check(before.directory_entries, MAX_PROJECTION_CATALOG_DIRECTORY_ENTRIES) {
        Err(error) => Err(error),
        Ok(()) => match entry.name {
            None => Err(
                ProjectionStoreError::UnsafeEntry(
                    EntryFault::Own("non-UTF-8 projection intent entry"),
                ),
            ),
            Some(name) => if is_retired_name(
                store.retired_own_endpoint_intents@,
                name@,
                ".intent"@,
            ) {
                Ok(scan)
            } else if entry.kind != EntryKind::File {
                Err(
                    ProjectionStoreError::UnsafeEntry(
                        EntryFault::Named { fault: "entry is not a regular file", name },
                    ),
                )
            } else if names_temp(name@) {
                Ok(scan)
            } else if scan.rows.len() == MAX_PROJECTION_CATALOG_ROWS {
                Err(
                    ProjectionStoreError::EvidenceTooLarge {
                        kind: "projection catalog rows",
                        declared: (MAX_PROJECTION_CATALOG_ROWS + 1) as u64,
                        limit: MAX_PROJECTION_CATALOG_ROWS as u64,
                    },
                )
            } else if !is_evidence_name(name@, ".intent"@) {
                Err(ProjectionStoreError::MalformedEvidenceName(name))
            } else {
                match entry.stored {
                    Err(error) => Err(error),
                    Ok(None) => Err(
                        ProjectionStoreError::UnsafeEntry(
                            EntryFault::Named {
                                fault: "projection intent disappeared during enumeration",
                                name,
                            },
                        ),
                    ),
                    Ok(Some(stored)) => with_intent(store, scan, name@, stored, entry.base),
                }
            },
        },
    }
}

/// The first intent from `at` on whose completion has the given name.
pub open spec fn row_named(rows: Seq<ProjectionCatalogEntry>, name: Seq<char>, at: int) -> Option<
    int,
>
    decreases rows.len() - at,
{
    if at < 0 || at >= rows.len() {
        None
    } else if evidence_name(rows[at].intent_id.digest, ".completion"@) == name {
        Some(at)
    } else {
        row_named(rows, name, at + 1)
    }
}

/// A catalogue with one more completion, or why the completion is refused.
pub open spec fn with_completion(
    scan: CatalogView,
    at: int,
    stored: StoredCompletion,
    reconciled: Result<(), ProjectionStoreError>,
) -> Result<CatalogView, ProjectionStoreError> {
    let row = scan.rows[at];
    match bound_completion(row.intent@, row.intent_id, stored) {
        Err(error) => Err(error),
        Ok(completion) => match reconciled {
            Err(error) => Err(error),
            Ok(()) => match more_bytes(scan.catalog_bytes, stored.bytes@.len() as u64) {
                Err(error) => Err(error),
                Ok(total) => match bytes_check(total) {
                    Err(error) => Err(error),
                    Ok(()) => Ok(
                        CatalogView {
                            catalog_bytes: total,
                            rows: scan.rows.update(
                                at,
                                ProjectionCatalogEntry { completion: Some(completion), ..row },
                            ),
                            completed: if row.completion is None {
                                (scan.completed + 1) as usize
                            } else {
                                scan.completed
                            },
                            ..scan
                        },
                    ),
                },
            },
        },
    }
}

/// A catalogue after one more entry of the directory of completions, or why the entry is refused.
/// Every completion must be that of an intent of the catalogue.
pub open spec fn completion_admitted(
    store: ProjectionReceiptStore,
    before: CatalogView,
    entry: CompletionEntry,
) -> Result<CatalogView, ProjectionStoreError> {
    let scan = CatalogView { directory_entries: charged(before.directory_entries), ..before };
    match charge_check(before.directory_entries, MAX_PROJECTION_CATALOG_DIRECTORY_ENTRIES) {
        Err(error) => Err(error),
        Ok(()) => match entry.name {
            None => Err(
                ProjectionStoreError::UnsafeEntry(
                    EntryFault::Own("non-UTF-8 projection completion entry"),
                ),
            ),
            Some(name) => if is_retired_name(
                store.retired_own_endpoint_intents@,
                name@,
                ".completion"@,
            ) {
                Ok(scan)
            } else if entry.kind != EntryKind::File {
                Err(
                    ProjectionStoreError::UnsafeEntry(
                        EntryFault::Named { fault: "entry is not a regular file", name },
                    ),
                )
            } else if names_temp(name@) {
                Ok(scan)
            } else if scan.completed == MAX_PROJECTION_CATALOG_ROWS {
                Err(
                    ProjectionStoreError::EvidenceTooLarge {
                        kind: "projection completion rows",
                        declared: (MAX_PROJECTION_CATALOG_ROWS + 1) as u64,
                        limit: MAX_PROJECTION_CATALOG_ROWS as u64,
                    },
                )
            } else if !is_evidence_name(name@, ".completion"@) {
                Err(ProjectionStoreError::MalformedEvidenceName(name))
            } else {
                match row_named(scan.rows, name@, 0) {
                    None => Err(ProjectionStoreError::OrphanCompletion(name)),
                    Some(at) => match entry.stored {
                        Err(error) => Err(error),
                        Ok(None) => Err(
                            ProjectionStoreError::UnsafeEntry(
                                EntryFault::Named {
                                    fault: "projection completion disappeared during enumeration",
                                    name,
                                },
                            ),
                        ),
                        Ok(Some(stored)) => with_completion(scan, at, stored, entry.reconciled),
                    },
                }
            },
        },
    }
}

/// The intent whose completed mutation has to be reconciled before an entry of the directory of
/// completions is read: where the entry is the valid completion of an intent of the catalogue.
pub open spec fn reconciled_row(
    store: ProjectionReceiptStore,
    before: CatalogView,
    entry: CompletionEntry,
) -> Option<int> {
    if charge_check(before.directory_entries, MAX_PROJECTION_CATALOG_DIRECTORY_ENTRIES) is Err
        || entry.name is None || is_retired_name(
        store.retired_own_endpoint_intents@,
        entry.name->0@,
        ".completion"@,
    ) || entry.kind != EntryKind::File || names_temp(entry.name->0@) || before.completed
        == MAX_PROJECTION_CATALOG_ROWS || !is_evidence_name(entry.name->0@, ".completion"@) {
        None
    } else {
        match row_named(before.rows, entry.name->0@, 0) {
            None => None,
            Some(at) => if entry.stored is Ok && entry.stored->Ok_0 is Some && bound_completion(
                before.rows[at].intent@,
                before.rows[at].intent_id,
                entry.stored->Ok_0->0,
            ) is Ok {
                Some(at)
            } else {
                None
            },
        }
    }
}

/// What reconciling gave counts exactly where it was owed: there a failure of it refuses the
/// catalogue, and elsewhere it changes nothing.
pub proof fn law_only_owed_reconciliation_counts_in_a_catalog(
    store: ProjectionReceiptStore,
    before: CatalogView,
    entry: CompletionEntry,
    error: ProjectionStoreError,
)
    ensures
        reconciled_row(store, before, entry) is Some ==> completion_admitted(
            store,
            before,
            CompletionEntry { reconciled: Err(error), ..entry },
        ) == Err::<CatalogView, _>(error),
        reconciled_row(store, before, entry) is None ==> completion_admitted(
            store,
            before,
            CompletionEntry { reconciled: Err(error), ..entry },
        ) == completion_admitted(store, before, CompletionEntry { reconciled: Ok(()), ..entry }),
{
}

/// The catalogue after the first `n` entries of the directory of intents, or why the first faulty
/// entry is refused.
pub open spec fn scanned_intents(
    store: ProjectionReceiptStore,
    entries: Seq<IntentEntry>,
    n: nat,
) -> Result<CatalogView, ProjectionStoreError>
    decreases n,
{
    if n == 0 {
        Ok(empty_catalog())
    } else {
        match scanned_intents(store, entries, (n - 1) as nat) {
            Err(error) => Err(error),
            Ok(scan) => intent_admitted(store, scan, entries[n - 1]),
        }
    }
}

/// A catalogue after the first `n` entries of the directory of completions, or why the first
/// faulty entry is refused.
pub open spec fn scanned_completions(
    store: ProjectionReceiptStore,
    start: CatalogView,
    entries: Seq<CompletionEntry>,
    n: nat,
) -> Result<CatalogView, ProjectionStoreError>
    decreases n,
{
    if n == 0 {
        Ok(start)
    } else {
        match scanned_completions(store, start, entries, (n - 1) as nat) {
            Err(error) => Err(error),
            Ok(scan) => completion_admitted(store, scan, entries[n - 1]),
        }
    }
}

/// The catalogue of a store, or why it is refused.
pub open spec fn catalog(
    store: ProjectionReceiptStore,
    intents: Seq<IntentEntry>,
    completions: Seq<CompletionEntry>,
) -> Result<Seq<ProjectionCatalogEntry>, ProjectionStoreError> {
    match scanned_intents(store, intents, intents.len()) {
        Err(error) => Err(error),
        Ok(start) => match scanned_completions(store, start, completions, completions.len()) {
            Err(error) => Err(error),
            Ok(scan) => Ok(scan.rows),
        },
    }
}

/// The intents among the first `n` of a catalogue that are not completed.
pub open spec fn incomplete(rows: Seq<ProjectionCatalogEntry>, n: nat) -> Seq<ProjectionIntent>
    decreases n,
{
    if n == 0 {
        Seq::empty()
    } else if rows[n - 1].completion is None {
        incomplete(rows, (n - 1) as nat).push(rows[n - 1].intent)
    } else {
        incomplete(rows, (n - 1) as nat)
    }
}

/// Once an intent is refused, so is every longer list.
pub proof fn lemma_intent_refused(
    store: ProjectionReceiptStore,
    entries: Seq<IntentEntry>,
    m: nat,
    n: nat,
)
    requires
        m <= n,
        scanned_intents(store, entries, m) is Err,
    ensures
        scanned_intents(store, entries, n) == scanned_intents(store, entries, m),
    decreases n,
{
    if m < n {
        lemma_intent_refused(store, entries, m, (n - 1) as nat);
    }
}

/// Once a completion is refused, so is every longer list.
proof fn lemma_completion_refused(
    store: ProjectionReceiptStore,
    start: CatalogView,
    entries: Seq<CompletionEntry>,
    m: nat,
    n: nat,
)
    requires
        m <= n,
        scanned_completions(store, start, entries, m) is Err,
    ensures
        scanned_completions(store, start, entries, n) == scanned_completions(
            store,
            start,
            entries,
            m,
        ),
    decreases n,
{
    if m < n {
        lemma_completion_refused(store, start, entries, m, (n - 1) as nat);
    }
}

/// Whether one digest comes before another.
fn digest_in_order(a: Digest, b: Digest) -> (before: bool)
    ensures
        before == a.spec_before(b),
{
    a.high < b.high || (a.high == b.high && a.low < b.low)
}

/// Adds bytes to those of a catalogue.
fn add_bytes(bytes: u64, more: u64) -> (total: Result<u64, ProjectionStoreError>)
    ensures
        total == more_bytes(bytes, more),
{
    if more > u64::MAX - bytes {
        return Err(
            ProjectionStoreError::EvidenceTooLarge {
                kind: "projection catalog",
                declared: u64::MAX,
                limit: MAX_PROJECTION_CATALOG_BYTES,
            },
        );
    }
    Ok(bytes + more)
}

/// Checks that a catalogue has no more bytes than it may have.
fn check_bytes(bytes: u64) -> (checked: Result<(), ProjectionStoreError>)
    ensures
        checked == bytes_check(bytes),
{
    if bytes > MAX_PROJECTION_CATALOG_BYTES {
        return Err(
            ProjectionStoreError::EvidenceTooLarge {
                kind: "projection catalog",
                declared: bytes,
                limit: MAX_PROJECTION_CATALOG_BYTES,
            },
        );
    }
    Ok(())
}

/// Inserting behind the first `at` intents and before those behind is inserting among all.
proof fn lemma_insert_row_at(
    rows: Seq<ProjectionCatalogEntry>,
    row: ProjectionCatalogEntry,
    at: int,
)
    requires
        0 <= at <= rows.len(),
        forall|i: int|
            at <= i < rows.len() ==> row.intent_id.digest.spec_before(
                (#[trigger] rows[i]).intent_id.digest,
            ),
        at > 0 ==> !row.intent_id.digest.spec_before(rows[at - 1].intent_id.digest),
    ensures
        insert_row(rows, row) == (if at > 0 && rows[at - 1].intent_id == row.intent_id {
            rows.update(at - 1, row)
        } else {
            rows.insert(at, row)
        }),
    decreases rows.len(),
{
    if rows.len() > at {
        let front = rows.drop_last();
        assert(rows.last() == rows[rows.len() - 1]);
        assert forall|i: int| at <= i < front.len() implies row.intent_id.digest.spec_before(
            (#[trigger] front[i]).intent_id.digest,
        ) by {
            assert(front[i] == rows[i]);
        }
        lemma_insert_row_at(front, row, at);
        if at > 0 && rows[at - 1].intent_id == row.intent_id {
            assert(front.update(at - 1, row).push(rows.last()) =~= rows.update(at - 1, row));
        } else {
            assert(front.insert(at, row).push(rows.last()) =~= rows.insert(at, row));
        }
    } else if at > 0 && rows[at - 1].intent_id == row.intent_id {
        assert(rows.drop_last().push(row) =~= rows.update(at - 1, row));
    } else {
        assert(rows.push(row) =~= rows.insert(at, row));
    }
}

impl CatalogScan {
    /// A catalogue of which nothing was read.
    fn new() -> (scan: CatalogScan)
        ensures
            scan@ == empty_catalog(),
    {
        CatalogScan {
            directory_entries: 0,
            catalog_bytes: 0,
            bases: Vec::new(),
            rows: Vec::new(),
            completed: 0,
        }
    }

    /// Whether a base was read.
    fn has_base(&self, description: BlobDescription) -> (has: bool)
        ensures
            has == self.bases@.contains(description),
    {
        let mut at: usize = 0;
        while at < self.bases.len()
            invariant
                at <= self.bases@.len(),
                forall|i: int| 0 <= i < at ==> self.bases@[i] != description,
            decreases self.bases@.len() - at,
        {
            if self.bases[at] == description {
                assert(self.bases@[at as int] == description);
                return true;
            }
            at = at + 1;
        }
        false
    }

    /// Puts an intent among the others.
    fn insert(&mut self, row: ProjectionCatalogEntry)
        ensures
            final(self)@ == (CatalogView { rows: insert_row(old(self)@.rows, row), ..old(self)@ }),
    {
        let mut at: usize = self.rows.len();
        while at > 0 && digest_in_order(row.intent_id.digest, self.rows[at - 1].intent_id.digest)
            invariant
                at <= self.rows@.len(),
                *self == *old(self),
                forall|i: int|
                    at <= i < self.rows@.len() ==> row.intent_id.digest.spec_before(
                        (#[trigger] self.rows@[i]).intent_id.digest,
                    ),
            decreases at,
        {
            at = at - 1;
        }
        proof {
            lemma_insert_row_at(self.rows@, row, at as int);
        }
        if at > 0 && self.rows[at - 1].intent_id == row.intent_id {
            self.rows.set(at - 1, row);
        } else {
            self.rows.insert(at, row);
        }
    }

    /// Reads one more intent.
    fn add_intent(
        &mut self,
        store: &ProjectionReceiptStore,
        name: &String,
        stored: StoredIntent,
        base: Result<Option<Vec<u8>>, ProjectionStoreError>,
    ) -> (added: Result<(), ProjectionStoreError>)
        ensures
            match with_intent(*store, old(self)@, name@, stored, base) {
                Err(error) => added == Err::<(), _>(error),
                Ok(scan) => added is Ok && final(self)@ == scan,
            },
    {
        let length: u64 = stored.bytes.len() as u64;
        let (intent_id, intent) = match store.catalogue_intent(name.as_str(), ".intent", stored) {
            Err(error) => return Err(error),
            Ok(found) => found,
        };
        let mut total: u64 = match add_bytes(self.catalog_bytes, length) {
            Err(error) => return Err(error),
            Ok(total) => total,
        };
        if let ProjectionPrecondition::Base(description) = intent.precondition {
            if !self.has_base(description) {
                total =
                match add_bytes(total, description.byte_length) {
                    Err(error) => return Err(error),
                    Ok(total) => total,
                };
                if let Err(error) = store.load_base(&intent, base) {
                    return Err(error);
                }
                self.bases.push(description);
            }
        }
        if let Err(error) = check_bytes(total) {
            return Err(error);
        }
        self.catalog_bytes = total;
        self.insert(ProjectionCatalogEntry { intent_id, intent, completion: None });
        Ok(())
    }

    /// Reads one more entry of the directory of intents. Where it is refused, so is the catalogue.
    fn admit_intent(&mut self, store: &ProjectionReceiptStore, entry: IntentEntry) -> (admitted: Result<
        (),
        ProjectionStoreError,
    >)
        ensures
            match intent_admitted(*store, old(self)@, entry) {
                Err(error) => admitted == Err::<(), _>(error),
                Ok(scan) => admitted is Ok && final(self)@ == scan,
            },
    {
        if let Err(error) = charge_catalog_directory_entry(
            &mut self.directory_entries,
            MAX_PROJECTION_CATALOG_DIRECTORY_ENTRIES,
        ) {
            return Err(error);
        }
        let name = match entry.name {
            None => return Err(
                ProjectionStoreError::UnsafeEntry(
                    EntryFault::Own("non-UTF-8 projection intent entry"),
                ),
            ),
            Some(name) => name,
        };
        if store.names_retired(name.as_str(), ".intent") {
            return Ok(());
        }
        if entry.kind != EntryKind::File {
            return Err(
                ProjectionStoreError::UnsafeEntry(
                    EntryFault::Named { fault: "entry is not a regular file", name },
                ),
            );
        }
        if is_temp_name(name.as_str()) {
            return Ok(());
        }
        if self.rows.len() == MAX_PROJECTION_CATALOG_ROWS {
            return Err(
                ProjectionStoreError::EvidenceTooLarge {
                    kind: "projection catalog rows",
                    declared: 2_000_001,
                    limit: 2_000_000,
                },
            );
        }
        if let Err(error) = require_canonical_evidence_name(&name, ".intent") {
            return Err(error);
        }
        match entry.stored {
            Err(error) => Err(error),
            Ok(None) => Err(
                ProjectionStoreError::UnsafeEntry(
                    EntryFault::Named {
                        fault: "projection intent disappeared during enumeration",
                        name,
                    },
                ),
            ),
            Ok(Some(stored)) => self.add_intent(store, &name, stored, entry.base),
        }
    }

    /// Finds the intent whose completion has the given name.
    fn find_row(&self, name: &str) -> (found: Option<usize>)
        ensures
            match row_named(self.rows@, name@, 0) {
                None => found is None,
                Some(at) => found is Some && found->0 == at && at < self.rows@.len(),
            },
    {
        let mut at: usize = 0;
        while at < self.rows.len()
            invariant
                at <= self.rows@.len(),
                row_named(self.rows@, name@, 0) == row_named(self.rows@, name@, at as int),
            decreases self.rows@.len() - at,
        {
            if same_text(completion_filename(self.rows[at].intent_id).as_str(), name) {
                return Some(at);
            }
            at = at + 1;
        }
        None
    }

    /// Reads one more completion.
    fn add_completion(
        &mut self,
        at: usize,
        stored: StoredCompletion,
        reconciled: Result<(), ProjectionStoreError>,
    ) -> (added: Result<(), ProjectionStoreError>)
        requires
            at < old(self).rows@.len(),
            old(self).completed < MAX_PROJECTION_CATALOG_ROWS,
        ensures
            match with_completion(old(self)@, at as int, stored, reconciled) {
                Err(error) => added == Err::<(), _>(error),
                Ok(scan) => added is Ok && final(self)@ == scan,
            },
    {
        let length: u64 = stored.bytes.len() as u64;
        let completion = match decode_bound_completion(
            &self.rows[at].intent,
            self.rows[at].intent_id,
            stored,
        ) {
            Err(error) => return Err(error),
            Ok(completion) => completion,
        };
        if let Err(error) = reconciled {
            return Err(error);
        }
        let total: u64 = match add_bytes(self.catalog_bytes, length) {
            Err(error) => return Err(error),
            Ok(total) => total,
        };
        if let Err(error) = check_bytes(total) {
            return Err(error);
        }
        self.catalog_bytes = total;
        if self.rows[at].completion.is_none() {
            self.completed = self.completed + 1;
        }
        self.rows[at].completion = Some(completion);
        Ok(())
    }

    /// Decides whether a completed mutation has to be reconciled before an entry of the directory of
    /// completions is read, and gives the position of its intent. Nothing may be reconciled
    /// otherwise.
    pub fn reconciliation_is_owed(
        &self,
        store: &ProjectionReceiptStore,
        entry: &CompletionEntry,
    ) -> (owed: Option<usize>)
        ensures
            match reconciled_row(*store, self@, *entry) {
                None => owed is None,
                Some(at) => owed is Some && owed->0 == at && at < self@.rows.len(),
            },
    {
        let mut count: usize = self.directory_entries;
        if charge_catalog_directory_entry(
            &mut count,
            MAX_PROJECTION_CATALOG_DIRECTORY_ENTRIES,
        ).is_err() {
            return None;
        }
        let name = match &entry.name {
            None => return None,
            Some(name) => name,
        };
        if store.names_retired(name.as_str(), ".completion") || entry.kind != EntryKind::File
            || is_temp_name(name.as_str()) || self.completed == MAX_PROJECTION_CATALOG_ROWS
            || require_canonical_evidence_name(name, ".completion").is_err() {
            return None;
        }
        let at: usize = match self.find_row(name.as_str()) {
            None => return None,
            Some(at) => at,
        };
        match &entry.stored {
            Ok(Some(stored)) => if holds_completion(
                &self.rows[at].intent,
                self.rows[at].intent_id,
                stored,
            ) {
                Some(at)
            } else {
                None
            },
            _ => None,
        }
    }

    /// The intent at a position of the catalogue, with its completion so far.
    pub fn row(&self, at: usize) -> (row: Option<&ProjectionCatalogEntry>)
        ensures
            match row {
                None => at >= self@.rows.len(),
                Some(row) => at < self@.rows.len() && *row == self@.rows[at as int],
            },
    {
        if at < self.rows.len() {
            Some(&self.rows[at])
        } else {
            None
        }
    }

    /// The intents of the catalogue with their completions.
    pub fn into_rows(self) -> (rows: Vec<ProjectionCatalogEntry>)
        ensures
            rows@ == self@.rows,
    {
        self.rows
    }

    /// Reads one more entry of the directory of completions. Where it is refused, so is the
    /// catalogue.
    pub fn admit_completion(&mut self, store: &ProjectionReceiptStore, entry: CompletionEntry) -> (admitted:
        Result<(), ProjectionStoreError>)
        requires
            old(self)@.completed <= MAX_PROJECTION_CATALOG_ROWS,
        ensures
            match completion_admitted(*store, old(self)@, entry) {
                Err(error) => admitted == Err::<(), _>(error),
                Ok(scan) => admitted is Ok && final(self)@ == scan && scan.completed
                    <= MAX_PROJECTION_CATALOG_ROWS,
            },
    {
        if let Err(error) = charge_catalog_directory_entry(
            &mut self.directory_entries,
            MAX_PROJECTION_CATALOG_DIRECTORY_ENTRIES,
        ) {
            return Err(error);
        }
        let name = match entry.name {
            None => return Err(
                ProjectionStoreError::UnsafeEntry(
                    EntryFault::Own("non-UTF-8 projection completion entry"),
                ),
            ),
            Some(name) => name,
        };
        if store.names_retired(name.as_str(), ".completion") {
            return Ok(());
        }
        if entry.kind != EntryKind::File {
            return Err(
                ProjectionStoreError::UnsafeEntry(
                    EntryFault::Named { fault: "entry is not a regular file", name },
                ),
            );
        }
        if is_temp_name(name.as_str()) {
            return Ok(());
        }
        if self.completed == MAX_PROJECTION_CATALOG_ROWS {
            return Err(
                ProjectionStoreError::EvidenceTooLarge {
                    kind: "projection completion rows",
                    declared: 2_000_001,
                    limit: 2_000_000,
                },
            );
        }
        if let Err(error) = require_canonical_evidence_name(&name, ".completion") {
            return Err(error);
        }
        let at: usize = match self.find_row(name.as_str()) {
            None => return Err(ProjectionStoreError::OrphanCompletion(name)),
            Some(at) => at,
        };
        match entry.stored {
            Err(error) => Err(error),
            Ok(None) => Err(
                ProjectionStoreError::UnsafeEntry(
                    EntryFault::Named {
                        fault: "projection completion disappeared during enumeration",
                        name,
                    },
                ),
            ),
            Ok(Some(stored)) => self.add_completion(at, stored, entry.reconciled),
        }
    }
}

impl ProjectionReceiptStore {
    /// Checks the intent that a file of the catalogue holds.
    pub fn catalogue_intent(&self, name: &str, suffix: &str, stored: StoredIntent) -> (found: Result<
        (ProjectionIntentId, ProjectionIntent),
        ProjectionStoreError,
    >)
        ensures
            found == catalogued_intent(*self, name@, suffix@, stored),
    {
        let intent = match stored.decoded {
            Err(error) => return Err(ProjectionStoreError::Receipt(error)),
            Ok(intent) => intent,
        };
        if let Err(error) = self.require_workspace(&intent) {
            return Err(error);
        }
        match stored.encoded {
            Err(error) => return Err(ProjectionStoreError::Receipt(error)),
            Ok(encoded) => if !same_bytes(encoded.as_slice(), stored.bytes.as_slice()) {
                return Err(ProjectionStoreError::PathBindingMismatch("projection intent"));
            },
        }
        let intent_id = match stored.intent_id {
            Err(error) => return Err(ProjectionStoreError::Receipt(error)),
            Ok(intent_id) => intent_id,
        };
        if !same_text(name_evidence(intent_id.digest, suffix).as_str(), name) {
            return Err(ProjectionStoreError::PathBindingMismatch("projection intent"));
        }
        Ok((intent_id, intent))
    }

    /// Whether a name is that of a retired intent's file with the given ending.
    pub fn names_retired(&self, name: &str, suffix: &str) -> (retired: bool)
        ensures
            retired == is_retired_name(self.retired_own_endpoint_intents@, name@, suffix@),
    {
        let mut at: usize = 0;
        while at < self.retired_own_endpoint_intents.len()
            invariant
                at <= self.retired_own_endpoint_intents@.len(),
                forall|i: int|
                    0 <= i < at ==> name@ != evidence_name(
                        (#[trigger] self.retired_own_endpoint_intents@[i]).digest,
                        suffix@,
                    ),
            decreases self.retired_own_endpoint_intents@.len() - at,
        {
            let retired = name_evidence(self.retired_own_endpoint_intents[at].digest, suffix);
            if same_text(name, retired.as_str()) {
                assert(name@ == evidence_name(
                    self.retired_own_endpoint_intents@[at as int].digest,
                    suffix@,
                ));
                return true;
            }
            at = at + 1;
        }
        false
    }

    /// Reads the intents of the store's catalogue.
    pub fn read_catalog_intents(&self, intents: Vec<IntentEntry>) -> (read: Result<
        CatalogScan,
        ProjectionStoreError,
    >)
        ensures
            match scanned_intents(*self, intents@, intents@.len()) {
                Err(error) => read == Err::<CatalogScan, _>(error),
                Ok(scan) => read is Ok && read->Ok_0@ == scan && scan.completed == 0,
            },
    {
        let ghost all = intents@;
        let mut scan = CatalogScan::new();
        for entry in iter: intents.into_iter()
            invariant
                iter.seq() == all,
                all == intents@,
                scan.completed == 0,
                scanned_intents(*self, all, iter.index() as nat) == Ok::<_, ProjectionStoreError>(
                    scan@,
                ),
        {
            let ghost at = iter.index() as nat;
            assert(entry == all[at as int]);
            if let Err(error) = scan.admit_intent(self, entry) {
                proof {
                    assert(scanned_intents(*self, all, at + 1) == Err::<CatalogView, _>(error));
                    lemma_intent_refused(*self, all, at + 1, all.len());
                }
                return Err(error);
            }
        }
        Ok(scan)
    }

    /// Reads and checks the whole catalogue of the store. Whether the `reconciled` of a completion
    /// counts is what `CatalogScan::reconciliation_is_owed` decides.
    pub fn validated_catalog(
        &self,
        intents: Vec<IntentEntry>,
        completions: Vec<CompletionEntry>,
    ) -> (rows: Result<Vec<ProjectionCatalogEntry>, ProjectionStoreError>)
        ensures
            match catalog(*self, intents@, completions@) {
                Err(error) => rows == Err::<Vec<ProjectionCatalogEntry>, _>(error),
                Ok(read) => rows is Ok && rows->Ok_0@ == read,
            },
    {
        let mut scan = match self.read_catalog_intents(intents) {
            Err(error) => return Err(error),
            Ok(scan) => scan,
        };
        let ghost start = scan@;
        let ghost every = completions@;
        for entry in iter: completions.into_iter()
            invariant
                iter.seq() == every,
                every == completions@,
                scan.completed <= MAX_PROJECTION_CATALOG_ROWS,
                scanned_intents(*self, intents@, intents@.len()) == Ok::<_, ProjectionStoreError>(
                    start,
                ),
                scanned_completions(*self, start, every, iter.index() as nat) == Ok::<
                    _,
                    ProjectionStoreError,
                >(scan@),
        {
            let ghost at = iter.index() as nat;
            assert(entry == every[at as int]);
            if let Err(error) = scan.admit_completion(self, entry) {
                proof {
                    assert(scanned_completions(*self, start, every, at + 1) == Err::<
                        CatalogView,
                        _,
                    >(error));
                    lemma_completion_refused(*self, start, every, at + 1, every.len());
                }
                return Err(error);
            }
        }
        Ok(scan.rows)
    }

    /// The intents of the store that are not completed, in the order of their identities.
    pub fn incomplete_intents(
        &self,
        intents: Vec<IntentEntry>,
        completions: Vec<CompletionEntry>,
    ) -> (found: Result<Vec<ProjectionIntent>, ProjectionStoreError>)
        ensures
            match catalog(*self, intents@, completions@) {
                Err(error) => found == Err::<Vec<ProjectionIntent>, _>(error),
                Ok(rows) => found is Ok && found->Ok_0@ == incomplete(rows, rows.len()),
            },
    {
        match self.validated_catalog(intents, completions) {
            Err(error) => Err(error),
            Ok(rows) => Ok(incomplete_rows(rows)),
        }
    }
}

/// The intents of a catalogue that are not completed, in its order.
pub fn incomplete_rows(rows: Vec<ProjectionCatalogEntry>) -> (found: Vec<ProjectionIntent>)
    ensures
        found@ == incomplete(rows@, rows@.len()),
{
    let ghost all = rows@;
    let mut found: Vec<ProjectionIntent> = Vec::new();
    for row in iter: rows.into_iter()
        invariant
            iter.seq() == all,
            found@ == incomplete(all, iter.index() as nat),
    {
        assert(row == all[iter.index() as int]);
        if row.completion.is_none() {
            found.push(row.intent);
        }
    }
    found
}

/// The intents of a catalogue are in strictly ascending order.
pub open spec fn rows_ascend(rows: Seq<ProjectionCatalogEntry>) -> bool {
    forall|i: int, j: int|
        0 <= i < j < rows.len() ==> (#[trigger] rows[i]).intent_id.digest.spec_before(
            (#[trigger] rows[j]).intent_id.digest,
        )
}

/// Inserting keeps the order.
proof fn lemma_insert_ascends(rows: Seq<ProjectionCatalogEntry>, row: ProjectionCatalogEntry)
    requires
        rows_ascend(rows),
    ensures
        rows_ascend(insert_row(rows, row)),
        forall|i: int|
            0 <= i < insert_row(rows, row).len() ==> (#[trigger] insert_row(rows, row)[i]) == row
                || rows.contains(insert_row(rows, row)[i]),
    decreases rows.len(),
{
    let after = insert_row(rows, row);
    if rows.len() > 0 {
        let front = rows.drop_last();
        assert forall|i: int, j: int| 0 <= i < j < front.len() implies (
        #[trigger] front[i]).intent_id.digest.spec_before(
            (#[trigger] front[j]).intent_id.digest,
        ) by {
            assert(front[i] == rows[i]);
            assert(front[j] == rows[j]);
        }
        assert(forall|i: int| 0 <= i < front.len() ==> #[trigger] front[i] == rows[i]);
        assert(rows.last() == rows[rows.len() - 1]);
        if row.intent_id.digest.spec_before(rows.last().intent_id.digest) {
            lemma_insert_ascends(front, row);
            let inner = insert_row(front, row);
            assert forall|i: int| 0 <= i < inner.len() implies (
            #[trigger] inner[i]).intent_id.digest.spec_before(rows.last().intent_id.digest) by {
                if inner[i] != row {
                    let k = choose|k: int| 0 <= k < front.len() && front[k] == inner[i];
                    assert(rows[k] == inner[i]);
                }
            }
            assert forall|i: int| 0 <= i < after.len() implies (#[trigger] after[i]) == row
                || rows.contains(after[i]) by {
                if i < inner.len() {
                    assert(after[i] == inner[i]);
                    if inner[i] != row {
                        let k = choose|k: int| 0 <= k < front.len() && front[k] == inner[i];
                        assert(rows[k] == after[i]);
                    }
                } else {
                    assert(after[i] == rows[rows.len() - 1]);
                }
            }
        } else {
            assert forall|i: int| 0 <= i < after.len() implies (#[trigger] after[i]) == row
                || rows.contains(after[i]) by {
                if after[i] != row {
                    assert(after[i] == rows[i]);
                }
            }
            if row.intent_id != rows.last().intent_id {
                assert(rows.last().intent_id.digest.spec_before(row.intent_id.digest));
            }
        }
    }
}

/// The catalogue of a store lists each intent once, in the order of their identities.
pub proof fn law_catalog_lists_each_intent_once(
    store: ProjectionReceiptStore,
    intents: Seq<IntentEntry>,
    completions: Seq<CompletionEntry>,
)
    requires
        catalog(store, intents, completions) is Ok,
    ensures
        rows_ascend(catalog(store, intents, completions)->Ok_0),
{
    lemma_scanned_intents_ascend(store, intents, intents.len());
    let start = scanned_intents(store, intents, intents.len())->Ok_0;
    lemma_scanned_completions_ascend(store, start, completions, completions.len());
}

/// The intents that were read are in order.
pub proof fn lemma_scanned_intents_ascend(
    store: ProjectionReceiptStore,
    entries: Seq<IntentEntry>,
    n: nat,
)
    requires
        scanned_intents(store, entries, n) is Ok,
    ensures
        rows_ascend(scanned_intents(store, entries, n)->Ok_0.rows),
    decreases n,
{
    if n > 0 {
        lemma_scanned_intents_ascend(store, entries, (n - 1) as nat);
        let before = scanned_intents(store, entries, (n - 1) as nat)->Ok_0;
        let entry = entries[n - 1];
        if entry.stored is Ok && entry.stored->Ok_0 is Some {
            let stored = entry.stored->Ok_0->0;
            if stored.decoded is Ok && stored.intent_id is Ok {
                lemma_insert_ascends(
                    before.rows,
                    ProjectionCatalogEntry {
                        intent_id: stored.intent_id->Ok_0,
                        intent: stored.decoded->Ok_0,
                        completion: None,
                    },
                );
            }
        }
    }
}

/// The intent whose completion has a name is one of those listed.
pub proof fn lemma_row_named(rows: Seq<ProjectionCatalogEntry>, name: Seq<char>, at: int)
    requires
        0 <= at,
    ensures
        row_named(rows, name, at) is Some ==> at <= row_named(rows, name, at)->0 < rows.len(),
    decreases rows.len() - at,
{
    if at < rows.len() {
        lemma_row_named(rows, name, at + 1);
    }
}

/// Reading completions keeps the order.
proof fn lemma_scanned_completions_ascend(
    store: ProjectionReceiptStore,
    start: CatalogView,
    entries: Seq<CompletionEntry>,
    n: nat,
)
    requires
        rows_ascend(start.rows),
        scanned_completions(store, start, entries, n) is Ok,
    ensures
        rows_ascend(scanned_completions(store, start, entries, n)->Ok_0.rows),
    decreases n,
{
    if n > 0 {
        lemma_scanned_completions_ascend(store, start, entries, (n - 1) as nat);
        let before = scanned_completions(store, start, entries, (n - 1) as nat)->Ok_0;
        let after = scanned_completions(store, start, entries, n)->Ok_0;
        if entries[n - 1].name is Some {
            lemma_row_named(before.rows, (entries[n - 1].name->0)@, 0);
        }
        assert(forall|i: int|
            0 <= i < after.rows.len() ==> (#[trigger] after.rows[i]).intent_id
                == before.rows[i].intent_id);
        assert(after.rows.len() == before.rows.len());
        assert forall|i: int, j: int| 0 <= i < j < after.rows.len() implies (
        #[trigger] after.rows[i]).intent_id.digest.spec_before(
            (#[trigger] after.rows[j]).intent_id.digest,
        ) by {
            assert(before.rows[i].intent_id.digest.spec_before(before.rows[j].intent_id.digest));
        }
    }
}

} // verus!
