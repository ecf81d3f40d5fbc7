//! The two rounds of pending cleanup: markers wait in one while the other is being worked off.

use vstd::prelude::*;

use crate::attempts::EntryKind;
use crate::bytes::same_bytes;
use crate::evidence::{
    cleanup_bound, decode_pending_cleanup_marker, stored_marker, LocalProjectionEvidenceRecord,
    ParsedMarker,
};
use crate::files::{replaceable, require_replaceable};
use crate::hash::Digest;
use crate::ids::ProjectionReceiptStoreId;
use crate::names::{
    is_temp_name, names_temp, PENDING_CLEANUP_DIR, PENDING_CLEANUP_ROUND_0_DIR,
    PENDING_CLEANUP_ROUND_1_DIR, PENDING_CLEANUP_ROUND_STATE,
};
use crate::store_error::{EntryFault, ProjectionStoreError};
use crate::summary::NamedEntry;
use crate::text::same_text;

verus! {

/// The version of the state of the rounds.
pub const PENDING_CLEANUP_ROUND_STATE_SCHEMA_VERSION: u32 = 1;

/// The version of the namespace's own record.
pub const PENDING_CLEANUP_NAMESPACE_SCHEMA_VERSION: u32 = 1;

/// How long the state of the rounds may be.
pub const MAX_PENDING_CLEANUP_ROUND_STATE_BYTES: u64 = 4096;

/// One of the two rounds.
#[derive(Clone, Copy, Debug, PartialEq, Eq, Structural)]
pub enum Round {
    First,
    Second,
}

impl Round {
    /// The other round.
    pub open spec fn spec_other(self) -> Round {
        match self {
            Round::First => Round::Second,
            Round::Second => Round::First,
        }
    }

    /// The other round.
    pub fn other(self) -> (round: Round)
        ensures
            round == self.spec_other(),
    {
        match self {
            Round::First => Round::Second,
            Round::Second => Round::First,
        }
    }

    /// The round with the given number, where there is one.
    pub fn from_number(number: u8) -> (round: Option<Round>)
        ensures
            round == round_numbered(number),
    {
        if number == 0 {
            Some(Round::First)
        } else if number == 1 {
            Some(Round::Second)
        } else {
            None
        }
    }
}

/// The round with the given number, where there is one.
pub open spec fn round_numbered(number: u8) -> Option<Round> {
    if number == 0 {
        Some(Round::First)
    } else if number == 1 {
        Some(Round::Second)
    } else {
        None
    }
}

/// Which round is being worked off, and which directories the rounds are.
#[derive(Clone, Copy, Debug, PartialEq, Eq, Structural)]
pub struct PendingCleanupRoundState {
    pub schema_version: u32,
    pub store_id: ProjectionReceiptStoreId,
    pub namespace_identity: Digest,
    pub first_identity: Digest,
    pub second_identity: Digest,
    pub active_round: u8,
}

/// Which directory pending cleanup is in.
#[derive(Clone, Copy, Debug, PartialEq, Eq, Structural)]
pub struct PendingCleanupNamespaceAuthority {
    pub schema_version: u32,
    pub store_id: ProjectionReceiptStoreId,
    pub directory_identity: Digest,
}

impl PendingCleanupNamespaceAuthority {
    /// The record of a namespace.
    pub fn new(store_id: ProjectionReceiptStoreId, directory_identity: Digest) -> (authority:
        PendingCleanupNamespaceAuthority)
        ensures
            authority == (PendingCleanupNamespaceAuthority {
                schema_version: PENDING_CLEANUP_NAMESPACE_SCHEMA_VERSION,
                store_id,
                directory_identity,
            }),
    {
        PendingCleanupNamespaceAuthority {
            schema_version: PENDING_CLEANUP_NAMESPACE_SCHEMA_VERSION,
            store_id,
            directory_identity,
        }
    }
}

/// Checks the namespace's own record, where there is one, against the one that it must be.
/// `expected` is the canonical encoding of that.
pub fn check_cleanup_namespace(existing: Option<&[u8]>, expected: Result<Vec<u8>, String>) -> (checked:
    Result<Vec<u8>, ProjectionStoreError>)
    ensures
        match expected {
            Err(message) => checked == Err::<Vec<u8>, _>(ProjectionStoreError::Encode(message)),
            Ok(bytes) => if existing matches Some(found) && found@ != bytes@ {
                checked == Err::<Vec<u8>, _>(
                    ProjectionStoreError::NamespaceSubstitution(
                        EntryFault::Own(PENDING_CLEANUP_DIR),
                    ),
                )
            } else {
                checked == Ok::<_, ProjectionStoreError>(bytes)
            },
        },
{
    let bytes = match expected {
        Err(message) => return Err(ProjectionStoreError::Encode(message)),
        Ok(bytes) => bytes,
    };
    if let Some(found) = existing {
        if !same_bytes(found, bytes.as_slice()) {
            return Err(
                ProjectionStoreError::NamespaceSubstitution(
                    EntryFault::Own(PENDING_CLEANUP_DIR),
                ),
            );
        }
    }
    Ok(bytes)
}

/// The canonical bytes of a state, or why it has none.
pub open spec fn state_bytes(
    state: PendingCleanupRoundState,
    encoded: Result<Vec<u8>, String>,
) -> Result<Vec<u8>, ProjectionStoreError> {
    if state.schema_version != PENDING_CLEANUP_ROUND_STATE_SCHEMA_VERSION || state.active_round
        > 1 {
        Err(ProjectionStoreError::ForensicBindingMismatch)
    } else {
        match encoded {
            Err(message) => Err(ProjectionStoreError::Encode(message)),
            Ok(bytes) => Ok(bytes),
        }
    }
}

/// The canonical bytes of a state. `encoded` is its encoding.
pub fn encode_pending_cleanup_round_state(
    state: &PendingCleanupRoundState,
    encoded: Result<Vec<u8>, String>,
) -> (bytes: Result<Vec<u8>, ProjectionStoreError>)
    ensures
        bytes == state_bytes(*state, encoded),
{
    if state.schema_version != PENDING_CLEANUP_ROUND_STATE_SCHEMA_VERSION || state.active_round
        > 1 {
        return Err(ProjectionStoreError::ForensicBindingMismatch);
    }
    match encoded {
        Err(message) => Err(ProjectionStoreError::Encode(message)),
        Ok(bytes) => Ok(bytes),
    }
}

/// A stored state: its bytes, what parsing them gave, and the encoding of that.
#[derive(Debug, PartialEq, Eq)]
pub struct StoredRoundState {
    pub bytes: Vec<u8>,
    pub decoded: Result<PendingCleanupRoundState, String>,
    pub encoded: Result<Vec<u8>, String>,
}

/// The state that stored bytes are, or why they are none.
pub open spec fn decoded_state(stored: StoredRoundState) -> Result<
    PendingCleanupRoundState,
    ProjectionStoreError,
> {
    match stored.decoded {
        Err(message) => Err(ProjectionStoreError::Decode(message)),
        Ok(state) => match state_bytes(state, stored.encoded) {
            Err(error) => Err(error),
            Ok(bytes) => if bytes@ != stored.bytes@ {
                Err(ProjectionStoreError::ForensicBindingMismatch)
            } else {
                Ok(state)
            },
        },
    }
}

/// Decodes a state from its bytes.
pub fn decode_pending_cleanup_round_state(stored: StoredRoundState) -> (state: Result<
    PendingCleanupRoundState,
    ProjectionStoreError,
>)
    ensures
        state == decoded_state(stored),
{
    let state = match stored.decoded {
        Err(message) => return Err(ProjectionStoreError::Decode(message)),
        Ok(state) => state,
    };
    match encode_pending_cleanup_round_state(&state, stored.encoded) {
        Err(error) => Err(error),
        Ok(bytes) => if !same_bytes(bytes.as_slice(), stored.bytes.as_slice()) {
            Err(ProjectionStoreError::ForensicBindingMismatch)
        } else {
            Ok(state)
        },
    }
}

/// What was seen of the directory of the rounds: how many entries, whether the state and the two
/// rounds were among them, the files that are being written, and what is wrong first.
#[verifier::ext_equal]
pub struct RootScan {
    pub count: nat,
    pub state: bool,
    pub first: bool,
    pub second: bool,
    pub temporary: Seq<String>,
    pub fault: Option<ProjectionStoreError>,
}

/// The directory of the rounds after one more entry.
pub open spec fn root_admitted(before: RootScan, entry: NamedEntry) -> RootScan {
    let scan = RootScan { count: before.count + 1, ..before };
    if before.fault is Some {
        before
    } else if scan.count > 4 {
        RootScan {
            fault: Some(
                ProjectionStoreError::UnsafeEntry(
                    EntryFault::Own("pending projection cleanup round root has too many entries"),
                ),
            ),
            ..scan
        }
    } else {
        match entry.name {
            None => RootScan {
                fault: Some(
                    ProjectionStoreError::UnsafeEntry(
                        EntryFault::Own("non-UTF-8 pending projection cleanup round entry"),
                    ),
                ),
                ..scan
            },
            Some(name) => root_named(scan, name, entry.kind),
        }
    }
}

/// The directory of the rounds after an entry with a name.
pub open spec fn root_named(scan: RootScan, name: String, kind: EntryKind) -> RootScan {
    let irregular = RootScan {
        fault: Some(
            ProjectionStoreError::UnsafeEntry(
                EntryFault::Named { fault: "entry is not a regular file", name },
            ),
        ),
        ..scan
    };
    if names_temp(name@) {
        if kind != EntryKind::File {
            irregular
        } else {
            RootScan { temporary: scan.temporary.push(name), ..scan }
        }
    } else if name@ == PENDING_CLEANUP_ROUND_STATE@ {
        if kind != EntryKind::File {
            irregular
        } else if scan.state {
            RootScan {
                fault: Some(
                    ProjectionStoreError::UnsafeEntry(
                        EntryFault::Own("duplicate pending projection cleanup round state"),
                    ),
                ),
                ..scan
            }
        } else {
            RootScan { state: true, ..scan }
        }
    } else if name@ == PENDING_CLEANUP_ROUND_0_DIR@ {
        if kind != EntryKind::Directory || scan.first {
            RootScan {
                fault: Some(
                    ProjectionStoreError::NamespaceSubstitution(
                        EntryFault::Own(PENDING_CLEANUP_ROUND_0_DIR),
                    ),
                ),
                ..scan
            }
        } else {
            RootScan { first: true, ..scan }
        }
    } else if name@ == PENDING_CLEANUP_ROUND_1_DIR@ {
        if kind != EntryKind::Directory || scan.second {
            RootScan {
                fault: Some(
                    ProjectionStoreError::NamespaceSubstitution(
                        EntryFault::Own(PENDING_CLEANUP_ROUND_1_DIR),
                    ),
                ),
                ..scan
            }
        } else {
            RootScan { second: true, ..scan }
        }
    } else {
        RootScan {
            fault: Some(
                ProjectionStoreError::UnsafeEntry(
                    EntryFault::Named {
                        fault: "unknown pending projection cleanup round entry",
                        name,
                    },
                ),
            ),
            ..scan
        }
    }
}

/// The directory of the rounds after its first `n` entries.
pub open spec fn root_scan(entries: Seq<NamedEntry>, n: nat) -> RootScan
    decreases n,
{
    if n == 0 {
        RootScan {
            count: 0,
            state: false,
            first: false,
            second: false,
            temporary: Seq::empty(),
            fault: None,
        }
    } else {
        root_admitted(root_scan(entries, (n - 1) as nat), entries[n - 1])
    }
}

/// Whether the directory of the rounds is as it must be, and if not, why.
pub open spec fn root_verdict(scan: RootScan, require_state: bool) -> Result<
    (),
    ProjectionStoreError,
> {
    if scan.fault is Some {
        Err(scan.fault->0)
    } else if require_state && !(scan.state && scan.first && scan.second) {
        Err(ProjectionStoreError::NamespaceSubstitution(EntryFault::Own(PENDING_CLEANUP_DIR)))
    } else if !require_state && scan.state {
        Err(
            ProjectionStoreError::NamespaceSubstitution(
                EntryFault::Own(PENDING_CLEANUP_ROUND_STATE),
            ),
        )
    } else {
        Ok(())
    }
}

/// What checking the directory of the rounds came to: the files that are to be removed because they
/// were never finished, and whether the directory is as it must be.
#[derive(Debug, PartialEq, Eq)]
pub struct RoundRoot {
    pub temporary: Vec<String>,
    pub verdict: Result<(), ProjectionStoreError>,
}

/// Once something is wrong, what follows does not count.
proof fn lemma_root_fault(entries: Seq<NamedEntry>, m: nat, n: nat)
    requires
        m <= n,
        root_scan(entries, m).fault is Some,
    ensures
        root_scan(entries, n) == root_scan(entries, m),
    decreases n,
{
    if m < n {
        lemma_root_fault(entries, m, (n - 1) as nat);
    }
}

/// Checks the directory of the rounds.
pub fn validate_pending_cleanup_round_root(entries: Vec<NamedEntry>, require_state: bool) -> (root:
    RoundRoot)
    ensures
        root.temporary@ == root_scan(entries@, entries@.len()).temporary,
        root.verdict == root_verdict(root_scan(entries@, entries@.len()), require_state),
{
    let ghost all = entries@;
    let mut temporary: Vec<String> = Vec::new();
    let mut state: bool = false;
    let mut first: bool = false;
    let mut second: bool = false;
    let mut count: usize = 0;
    for entry in iter: entries.into_iter()
        invariant
            iter.seq() == all,
            all == entries@,
            count <= 4,
            root_scan(all, iter.index() as nat) == (RootScan {
                count: count as nat,
                state,
                first,
                second,
                temporary: temporary@,
                fault: None,
            }),
    {
        let ghost at = iter.index() as nat;
        assert(entry == all[at as int]);
        proof {
            if root_scan(all, at + 1).fault is Some {
                lemma_root_fault(all, at + 1, all.len());
            }
        }
        count = count + 1;
        if count > 4 {
            return RoundRoot {
                temporary,
                verdict: Err(
                    ProjectionStoreError::UnsafeEntry(
                        EntryFault::Own(
                            "pending projection cleanup round root has too many entries",
                        ),
                    ),
                ),
            };
        }
        let name = match entry.name {
            None => return RoundRoot {
                temporary,
                verdict: Err(
                    ProjectionStoreError::UnsafeEntry(
                        EntryFault::Own("non-UTF-8 pending projection cleanup round entry"),
                    ),
                ),
            },
            Some(name) => name,
        };
        let unfinished = is_temp_name(name.as_str());
        let is_state = same_text(name.as_str(), PENDING_CLEANUP_ROUND_STATE);
        if (unfinished || is_state) && entry.kind != EntryKind::File {
            return RoundRoot {
                temporary,
                verdict: Err(
                    ProjectionStoreError::UnsafeEntry(
                        EntryFault::Named { fault: "entry is not a regular file", name },
                    ),
                ),
            };
        }
        if unfinished {
            temporary.push(name);
        } else if is_state {
            if state {
                return RoundRoot {
                    temporary,
                    verdict: Err(
                        ProjectionStoreError::UnsafeEntry(
                            EntryFault::Own("duplicate pending projection cleanup round state"),
                        ),
                    ),
                };
            }
            state = true;
        } else if same_text(name.as_str(), PENDING_CLEANUP_ROUND_0_DIR) {
            if entry.kind != EntryKind::Directory || first {
                return RoundRoot {
                    temporary,
                    verdict: Err(
                        ProjectionStoreError::NamespaceSubstitution(
                            EntryFault::Own(PENDING_CLEANUP_ROUND_0_DIR),
                        ),
                    ),
                };
            }
            first = true;
        } else if same_text(name.as_str(), PENDING_CLEANUP_ROUND_1_DIR) {
            if entry.kind != EntryKind::Directory || second {
                return RoundRoot {
                    temporary,
                    verdict: Err(
                        ProjectionStoreError::NamespaceSubstitution(
                            EntryFault::Own(PENDING_CLEANUP_ROUND_1_DIR),
                        ),
                    ),
                };
            }
            second = true;
        } else {
            return RoundRoot {
                temporary,
                verdict: Err(
                    ProjectionStoreError::UnsafeEntry(
                        EntryFault::Named {
                            fault: "unknown pending projection cleanup round entry",
                            name,
                        },
                    ),
                ),
            };
        }
    }
    let verdict = if require_state && !(state && first && second) {
        Err(ProjectionStoreError::NamespaceSubstitution(EntryFault::Own(PENDING_CLEANUP_DIR)))
    } else if !require_state && state {
        Err(
            ProjectionStoreError::NamespaceSubstitution(
                EntryFault::Own(PENDING_CLEANUP_ROUND_STATE),
            ),
        )
    } else {
        Ok(())
    };
    RoundRoot { temporary, verdict }
}

/// The identities of the two rounds' directories as they are now.
#[derive(Clone, Copy, Debug, PartialEq, Eq, Structural)]
pub struct RoundIdentities {
    pub first: Digest,
    pub second: Digest,
}

/// The state of the rounds, or why they cannot be opened: the state must be that of the store, the
/// namespace and the two directories.
pub open spec fn opened_rounds(
    root: Result<(), ProjectionStoreError>,
    stored: Result<Option<StoredRoundState>, ProjectionStoreError>,
    rounds: Result<RoundIdentities, ProjectionStoreError>,
    store_id: ProjectionReceiptStoreId,
    namespace_identity: Digest,
) -> Result<PendingCleanupRoundState, ProjectionStoreError> {
    match root {
        Err(error) => Err(error),
        Ok(()) => match stored {
            Err(error) => Err(error),
            Ok(None) => Err(
                ProjectionStoreError::NamespaceSubstitution(
                    EntryFault::Own(PENDING_CLEANUP_ROUND_STATE),
                ),
            ),
            Ok(Some(stored)) => match decoded_state(stored) {
                Err(error) => Err(error),
                Ok(state) => match rounds {
                    Err(error) => Err(error),
                    Ok(rounds) => if state.store_id != store_id || state.namespace_identity
                        != namespace_identity || state.first_identity != rounds.first
                        || state.second_identity != rounds.second {
                        Err(
                            ProjectionStoreError::NamespaceSubstitution(
                                EntryFault::Own(PENDING_CLEANUP_ROUND_STATE),
                            ),
                        )
                    } else {
                        Ok(state)
                    },
                },
            },
        },
    }
}

/// Opens the rounds. `root` is what checking their directory gave, `stored` what reading their
/// state gave, and `rounds` what identifying the two directories gave.
pub fn open_pending_cleanup_rounds(
    root: Result<(), ProjectionStoreError>,
    stored: Result<Option<StoredRoundState>, ProjectionStoreError>,
    rounds: Result<RoundIdentities, ProjectionStoreError>,
    store_id: ProjectionReceiptStoreId,
    namespace_identity: Digest,
) -> (state: Result<PendingCleanupRoundState, ProjectionStoreError>)
    ensures
        state == opened_rounds(root, stored, rounds, store_id, namespace_identity),
        state is Ok ==> round_numbered(state->Ok_0.active_round) is Some,
{
    if let Err(error) = root {
        return Err(error);
    }
    let stored = match stored {
        Err(error) => return Err(error),
        Ok(None) => return Err(
            ProjectionStoreError::NamespaceSubstitution(
                EntryFault::Own(PENDING_CLEANUP_ROUND_STATE),
            ),
        ),
        Ok(Some(stored)) => stored,
    };
    let state = match decode_pending_cleanup_round_state(stored) {
        Err(error) => return Err(error),
        Ok(state) => state,
    };
    let rounds = match rounds {
        Err(error) => return Err(error),
        Ok(rounds) => rounds,
    };
    if state.store_id != store_id || state.namespace_identity != namespace_identity
        || state.first_identity != rounds.first || state.second_identity != rounds.second {
        return Err(
            ProjectionStoreError::NamespaceSubstitution(
                EntryFault::Own(PENDING_CLEANUP_ROUND_STATE),
            ),
        );
    }
    Ok(state)
}

impl PendingCleanupRoundState {
    /// The state that rounds start with.
    pub fn initial(
        store_id: ProjectionReceiptStoreId,
        namespace_identity: Digest,
        rounds: RoundIdentities,
    ) -> (state: PendingCleanupRoundState)
        ensures
            state == (PendingCleanupRoundState {
                schema_version: PENDING_CLEANUP_ROUND_STATE_SCHEMA_VERSION,
                store_id,
                namespace_identity,
                first_identity: rounds.first,
                second_identity: rounds.second,
                active_round: 0,
            }),
    {
        PendingCleanupRoundState {
            schema_version: PENDING_CLEANUP_ROUND_STATE_SCHEMA_VERSION,
            store_id,
            namespace_identity,
            first_identity: rounds.first,
            second_identity: rounds.second,
            active_round: 0,
        }
    }

    /// The state with the other round being worked off.
    pub fn flipped(&self) -> (state: PendingCleanupRoundState)
        requires
            self.active_round <= 1,
        ensures
            state == (PendingCleanupRoundState {
                active_round: (1 - self.active_round) as u8,
                ..*self
            }),
    {
        PendingCleanupRoundState {
            schema_version: self.schema_version,
            store_id: self.store_id,
            namespace_identity: self.namespace_identity,
            first_identity: self.first_identity,
            second_identity: self.second_identity,
            active_round: 1 - self.active_round,
        }
    }
}

/// The bytes that replace the state when the rounds are flipped, or why they are not flipped: the
/// state must still be there as it was read. `encoded` is the encoding of the flipped state, and
/// `current` what reading the state again gave.
pub fn flip_pending_cleanup_round(
    state: &PendingCleanupRoundState,
    read_bytes: &[u8],
    encoded: Result<Vec<u8>, String>,
    current: Result<Option<Vec<u8>>, ProjectionStoreError>,
) -> (replacement: Result<Vec<u8>, ProjectionStoreError>)
    requires
        state.active_round <= 1,
    ensures
        replacement == (match state_bytes(
            PendingCleanupRoundState { active_round: (1 - state.active_round) as u8, ..*state },
            encoded,
        ) {
            Err(error) => Err(error),
            Ok(bytes) => match replaceable(current, read_bytes@, bytes@) {
                Err(error) => Err(error),
                Ok(()) => Ok(bytes),
            },
        }),
{
    let flipped = state.flipped();
    let bytes = match encode_pending_cleanup_round_state(&flipped, encoded) {
        Err(error) => return Err(error),
        Ok(bytes) => bytes,
    };
    match require_replaceable(current, read_bytes, bytes.as_slice()) {
        Err(error) => Err(error),
        Ok(()) => Ok(bytes),
    }
}

/// Flipping twice changes nothing, and each time the other round is worked off.
pub proof fn law_flipping_twice_changes_nothing(state: PendingCleanupRoundState)
    requires
        state.active_round <= 1,
    ensures
        ({
            let once = PendingCleanupRoundState {
                active_round: (1 - state.active_round) as u8,
                ..state
            };
            &&& round_numbered(once.active_round) == Some(
                (round_numbered(state.active_round)->0).spec_other(),
            )
            &&& (PendingCleanupRoundState {
                active_round: (1 - once.active_round) as u8,
                ..once
            }) == state
        }),
{
}

/// A new state that is written and read back opens the rounds again.
pub proof fn law_written_state_opens(
    state: PendingCleanupRoundState,
    stored: StoredRoundState,
    rounds: RoundIdentities,
)
    requires
        state.schema_version == PENDING_CLEANUP_ROUND_STATE_SCHEMA_VERSION,
        state.active_round <= 1,
        state.first_identity == rounds.first,
        state.second_identity == rounds.second,
        stored.decoded == Ok::<_, String>(state),
        stored.encoded == Ok::<_, String>(stored.bytes),
    ensures
        opened_rounds(
            Ok(()),
            Ok(Some(stored)),
            Ok(rounds),
            state.store_id,
            state.namespace_identity,
        ) == Ok::<_, ProjectionStoreError>(state),
{
}

/// What publishing a marker comes to: it is there already, or it is to be written into a round.
#[derive(Clone, Copy, Debug, PartialEq, Eq, Structural)]
pub enum MarkerPublication {
    Exists,
    Write(Round),
}

/// What publishing a marker comes to, or why it is refused: it must not be in both rounds, nor be
/// there with other bytes. A new one goes into the round that is not being worked off.
pub open spec fn marker_publication(
    active: Round,
    first: Option<Seq<u8>>,
    second: Option<Seq<u8>>,
    bytes: Seq<u8>,
) -> Result<MarkerPublication, ProjectionStoreError> {
    match (first, second) {
        (Some(_), Some(_)) => Err(ProjectionStoreError::ForensicBindingMismatch),
        (Some(existing), None) => if existing != bytes {
            Err(ProjectionStoreError::ForensicBindingMismatch)
        } else {
            Ok(MarkerPublication::Exists)
        },
        (None, Some(existing)) => if existing != bytes {
            Err(ProjectionStoreError::ForensicBindingMismatch)
        } else {
            Ok(MarkerPublication::Exists)
        },
        (None, None) => Ok(MarkerPublication::Write(active.spec_other())),
    }
}

/// Decides what publishing a marker comes to, from what the two rounds hold under its name.
pub fn publish_pending_cleanup_marker(
    active: Round,
    first: &Option<Vec<u8>>,
    second: &Option<Vec<u8>>,
    bytes: &[u8],
) -> (publication: Result<MarkerPublication, ProjectionStoreError>)
    ensures
        publication == marker_publication(
            active,
            crate::page::optional_text(*first),
            crate::page::optional_text(*second),
            bytes@,
        ),
{
    match (first, second) {
        (Some(_), Some(_)) => Err(ProjectionStoreError::ForensicBindingMismatch),
        (Some(existing), None) => if !same_bytes(existing.as_slice(), bytes) {
            Err(ProjectionStoreError::ForensicBindingMismatch)
        } else {
            Ok(MarkerPublication::Exists)
        },
        (None, Some(existing)) => if !same_bytes(existing.as_slice(), bytes) {
            Err(ProjectionStoreError::ForensicBindingMismatch)
        } else {
            Ok(MarkerPublication::Exists)
        },
        (None, None) => Ok(MarkerPublication::Write(active.other())),
    }
}

/// A marker as it was found: the round that it is in, and its bytes.
#[derive(Debug, PartialEq, Eq)]
pub struct FoundMarker {
    pub round: Round,
    pub bytes: Vec<u8>,
}

/// Finds a marker in the one round that holds it, from what the two rounds hold under its name.
pub fn read_pending_cleanup_marker(first: Option<Vec<u8>>, second: Option<Vec<u8>>) -> (found: Result<
    FoundMarker,
    ProjectionStoreError,
>)
    ensures
        found == found_marker(first, second),
{
    match (first, second) {
        (Some(bytes), None) => Ok(FoundMarker { round: Round::First, bytes }),
        (None, Some(bytes)) => Ok(FoundMarker { round: Round::Second, bytes }),
        (Some(_), Some(_)) => Err(ProjectionStoreError::ForensicBindingMismatch),
        (None, None) => Err(ProjectionStoreError::ForensicBindingMismatch),
    }
}

/// The marker in the one round that holds it, or why there is none.
pub open spec fn found_marker(first: Option<Vec<u8>>, second: Option<Vec<u8>>) -> Result<
    FoundMarker,
    ProjectionStoreError,
> {
    match (first, second) {
        (Some(bytes), None) => Ok(FoundMarker { round: Round::First, bytes }),
        (None, Some(bytes)) => Ok(FoundMarker { round: Round::Second, bytes }),
        _ => Err(ProjectionStoreError::ForensicBindingMismatch),
    }
}

/// Decides from which round a record's marker is removed: the marker must be there once and be of
/// that record. `parsed` is what parsing the marker gave. The bytes say what may be removed.
pub fn retire_pending_projection_cleanup(
    record: &LocalProjectionEvidenceRecord,
    first: Option<Vec<u8>>,
    second: Option<Vec<u8>>,
    parsed: ParsedMarker,
) -> (retired: Result<FoundMarker, ProjectionStoreError>)
    ensures
        retired == (if !cleanup_bound(record@) {
            Err(ProjectionStoreError::ForensicBindingMismatch)
        } else {
            match found_marker(first, second) {
                Err(error) => Err(error),
                Ok(found) => match stored_marker(found.bytes@, parsed) {
                    Err(error) => Err(error),
                    Ok(marker) => if marker.evidence@ != record@ {
                        Err(ProjectionStoreError::ForensicBindingMismatch)
                    } else {
                        Ok(found)
                    },
                },
            }
        }),
{
    if !record.is_cleanup_bound() {
        return Err(ProjectionStoreError::ForensicBindingMismatch);
    }
    let found = match read_pending_cleanup_marker(first, second) {
        Err(error) => return Err(error),
        Ok(found) => found,
    };
    match decode_pending_cleanup_marker(found.bytes.as_slice(), parsed) {
        Err(error) => Err(error),
        Ok(marker) => if !marker.evidence.same(record) {
            Err(ProjectionStoreError::ForensicBindingMismatch)
        } else {
            Ok(found)
        },
    }
}

/// A marker that is published where there is none can then be found, in the round that is not
/// being worked off.
pub proof fn law_published_marker_is_found(active: Round, bytes: Vec<u8>)
    ensures
        marker_publication(active, None, None, bytes@) == Ok::<_, ProjectionStoreError>(
            MarkerPublication::Write(active.spec_other()),
        ),
        found_marker(
            if active.spec_other() == Round::First {
                Some(bytes)
            } else {
                None
            },
            if active.spec_other() == Round::Second {
                Some(bytes)
            } else {
                None
            },
        ) == Ok::<_, ProjectionStoreError>(FoundMarker { round: active.spec_other(), bytes }),
{
}

} // verus!
