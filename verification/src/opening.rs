//! Opening a store: its claim is checked, or written last when the store is new.

use vstd::prelude::*;

use crate::attempts::EntryKind;
use crate::bytes::same_bytes;
use crate::claim::{
    claim, claim_bytes, claim_verdict, enrollment, init_claim_bytes, init_magic,
    law_claim_reads_back, validate_claim, NamespaceIdentities,
};
use crate::execution::ProjectionEndpointBinding;
use crate::hash::Digest;
use crate::ids::{ProjectionReceiptStoreId, WorkspaceId};
use crate::names::{
    ATTEMPTS_DIR, BASES_DIR, COMPLETIONS_DIR, FORENSICS_DIR, INTENTS_DIR, STORE_INIT_FILE,
};
use crate::store::ProjectionReceiptStore;
use crate::store_error::{error_at, EntryFault, ProjectionStoreError};
use crate::text::same_text;

verus! {

/// The last component of a store's path, as far as it can be used.
#[derive(Debug, PartialEq, Eq)]
pub enum RootName {
    /// The path has no last component.
    Missing,
    /// The last component is not an ordinary name.
    NotNormal,
    /// The last component is not text.
    NotText,
    /// The path has no parent.
    NoParent,
    /// The last component.
    Named(String),
}

/// The name of a store's directory, or why its path cannot be used.
pub open spec fn root_name(root: RootName) -> Result<String, ProjectionStoreError> {
    match root {
        RootName::Missing => Err(
            ProjectionStoreError::UnsafeEntry(EntryFault::Own("store root has no name")),
        ),
        RootName::NotNormal => Err(
            ProjectionStoreError::UnsafeEntry(
                EntryFault::Own("store root must end in a normal path component"),
            ),
        ),
        RootName::NotText => Err(
            ProjectionStoreError::UnsafeEntry(EntryFault::Own("store root name is not UTF-8")),
        ),
        RootName::NoParent => Err(
            ProjectionStoreError::UnsafeEntry(
                EntryFault::Own("store root has no existing parent"),
            ),
        ),
        RootName::Named(name) => Ok(name),
    }
}

/// Checks the last component of a store's path.
pub fn require_root_name(root: RootName) -> (name: Result<String, ProjectionStoreError>)
    ensures
        name == root_name(root),
{
    match root {
        RootName::Missing => Err(
            ProjectionStoreError::UnsafeEntry(EntryFault::Own("store root has no name")),
        ),
        RootName::NotNormal => Err(
            ProjectionStoreError::UnsafeEntry(
                EntryFault::Own("store root must end in a normal path component"),
            ),
        ),
        RootName::NotText => Err(
            ProjectionStoreError::UnsafeEntry(EntryFault::Own("store root name is not UTF-8")),
        ),
        RootName::NoParent => Err(
            ProjectionStoreError::UnsafeEntry(
                EntryFault::Own("store root has no existing parent"),
            ),
        ),
        RootName::Named(name) => Ok(name),
    }
}

/// An entry of a store that is being initialised: its name where that is text, what it is, and
/// whether it is empty where it is a directory.
#[derive(Debug, PartialEq, Eq)]
pub struct IncompleteEntry {
    pub name: Option<String>,
    pub kind: EntryKind,
    pub empty: Result<bool, ProjectionStoreError>,
}

/// Whether a name is that of one of the store's directories.
pub open spec fn is_namespace(name: Seq<char>) -> bool {
    name == BASES_DIR@ || name == INTENTS_DIR@ || name == COMPLETIONS_DIR@ || name == ATTEMPTS_DIR@
        || name == FORENSICS_DIR@
}

/// Whether an entry may be in a store that is being initialised, and if not, why.
pub open spec fn incomplete_entry(entry: IncompleteEntry) -> Result<(), ProjectionStoreError> {
    match entry.name {
        None => Err(
            ProjectionStoreError::UnsafeEntry(
                EntryFault::Own("non-UTF-8 entry in incomplete receipt store"),
            ),
        ),
        Some(name) => if name@ == STORE_INIT_FILE@ {
            if entry.kind != EntryKind::File {
                Err(
                    ProjectionStoreError::UnsafeEntry(
                        EntryFault::Named { fault: "entry is not a regular file", name },
                    ),
                )
            } else {
                Ok(())
            }
        } else if !is_namespace(name@) || entry.kind != EntryKind::Directory {
            Err(ProjectionStoreError::ClaimlessNonemptyStore)
        } else {
            match entry.empty {
                Err(error) => Err(error),
                Ok(empty) => if !empty {
                    Err(ProjectionStoreError::ClaimlessNonemptyStore)
                } else {
                    Ok(())
                },
            }
        },
    }
}

/// Whether the first `n` entries may be in a store that is being initialised, and if not, why.
pub open spec fn incomplete_entries(entries: Seq<IncompleteEntry>, n: nat) -> Result<
    (),
    ProjectionStoreError,
>
    decreases n,
{
    if n == 0 {
        Ok(())
    } else {
        match incomplete_entries(entries, (n - 1) as nat) {
            Err(error) => Err(error),
            Ok(()) => incomplete_entry(entries[n - 1]),
        }
    }
}

/// Once an entry is refused, so is every longer list.
proof fn lemma_incomplete_refused(entries: Seq<IncompleteEntry>, m: nat, n: nat)
    requires
        m <= n,
        incomplete_entries(entries, m) is Err,
    ensures
        incomplete_entries(entries, n) == incomplete_entries(entries, m),
    decreases n,
{
    if m < n {
        lemma_incomplete_refused(entries, m, (n - 1) as nat);
    }
}

/// Checks an entry of a store that is being initialised.
fn check_incomplete_entry(entry: IncompleteEntry) -> (checked: Result<(), ProjectionStoreError>)
    ensures
        checked == incomplete_entry(entry),
{
    let name = match entry.name {
        None => return Err(
            ProjectionStoreError::UnsafeEntry(
                EntryFault::Own("non-UTF-8 entry in incomplete receipt store"),
            ),
        ),
        Some(name) => name,
    };
    if same_text(name.as_str(), STORE_INIT_FILE) {
        if entry.kind != EntryKind::File {
            return Err(
                ProjectionStoreError::UnsafeEntry(
                    EntryFault::Named { fault: "entry is not a regular file", name },
                ),
            );
        }
        return Ok(());
    }
    let namespace = same_text(name.as_str(), BASES_DIR) || same_text(name.as_str(), INTENTS_DIR)
        || same_text(name.as_str(), COMPLETIONS_DIR) || same_text(name.as_str(), ATTEMPTS_DIR)
        || same_text(name.as_str(), FORENSICS_DIR);
    if !namespace || entry.kind != EntryKind::Directory {
        return Err(ProjectionStoreError::ClaimlessNonemptyStore);
    }
    match entry.empty {
        Err(error) => Err(error),
        Ok(empty) => if !empty {
            Err(ProjectionStoreError::ClaimlessNonemptyStore)
        } else {
            Ok(())
        },
    }
}

/// Checks that a store that is being initialised holds nothing yet.
pub fn require_incomplete_store_is_empty(entries: Vec<IncompleteEntry>) -> (checked: Result<
    (),
    ProjectionStoreError,
>)
    ensures
        checked == incomplete_entries(entries@, entries@.len()),
{
    let ghost all = entries@;
    for entry in iter: entries.into_iter()
        invariant
            iter.seq() == all,
            all == entries@,
            incomplete_entries(all, iter.index() as nat) is Ok,
    {
        let ghost at = iter.index() as nat;
        assert(entry == all[at as int]);
        match check_incomplete_entry(entry) {
            Err(error) => {
                proof {
                    assert(incomplete_entries(all, at + 1) == Err::<(), _>(error));
                    lemma_incomplete_refused(all, at + 1, all.len());
                }
                return Err(error);
            },
            Ok(()) => {},
        }
    }
    Ok(())
}

/// The identities of a store's directories, as they were opened.
#[derive(Clone, Copy, Debug, PartialEq, Eq, Structural)]
pub struct OpenedNamespaces {
    pub identities: NamespaceIdentities,
    pub pending_cleanup: Digest,
}

/// How far an initialisation has come.
#[derive(Clone, Copy, Debug, PartialEq, Eq, Structural)]
pub enum InitializePhase {
    ReadClaim,
    /// The claim is there and binds these directories.
    OpenClaimed { expected: NamespaceIdentities },
    ReadInit,
    ListRoot,
    PublishInit,
    /// The directory with this number is to be there.
    Ensure { namespace: u8 },
    ListStore,
    OpenNew,
    PublishClaim { opened: OpenedNamespaces },
    Done,
}

/// What an initialisation has to do, or find out, next.
#[derive(Debug, PartialEq, Eq)]
pub enum InitializeAction {
    /// Read the store's claim.
    ReadClaim,
    /// Open the store's directories. Those of a claimed store are made durable strictly.
    OpenNamespaces { claimed: bool },
    /// Read the claim of a store that is being initialised.
    ReadInitClaim,
    /// Find out whether the store holds nothing.
    CheckEmpty,
    /// Publish the claim of a store that is being initialised.
    PublishInitClaim(Vec<u8>),
    /// Have a directory.
    EnsureNamespace(&'static str),
    /// List the store with what its directories hold.
    ListStore,
    /// Publish the store's claim.
    PublishClaim(Vec<u8>),
    /// The initialisation has ended.
    Finish(Result<ProjectionReceiptStore, ProjectionStoreError>),
}

/// What came of what an initialisation asked for.
#[derive(Debug, PartialEq, Eq)]
pub enum InitializeEvent {
    Read(Result<Option<Vec<u8>>, ProjectionStoreError>),
    Opened(Result<OpenedNamespaces, ProjectionStoreError>),
    Empty(Result<bool, ProjectionStoreError>),
    Published(Result<(), ProjectionStoreError>),
    Ensured(Result<(), ProjectionStoreError>),
    Listed(Result<Vec<IncompleteEntry>, ProjectionStoreError>),
}

/// A store that is being opened.
#[derive(Debug, PartialEq, Eq)]
pub struct StoreInitialization {
    pub root_path: String,
    pub store_id: ProjectionReceiptStoreId,
    pub workspace_id: WorkspaceId,
    pub endpoint: Option<ProjectionEndpointBinding>,
    pub phase: InitializePhase,
}

/// Where an initialisation goes next.
pub enum InitializeStep {
    Ask(InitializePhase),
    Finish(Result<OpenedNamespaces, ProjectionStoreError>),
}

/// The name of the directory with a number.
pub open spec fn namespace_numbered(namespace: u8) -> &'static str {
    if namespace == 0 {
        BASES_DIR
    } else if namespace == 1 {
        INTENTS_DIR
    } else if namespace == 2 {
        COMPLETIONS_DIR
    } else if namespace == 3 {
        ATTEMPTS_DIR
    } else {
        FORENSICS_DIR
    }
}

/// What was being done when the directory with a number could not be had.
pub open spec fn namespace_operation(namespace: u8) -> &'static str {
    if namespace == 0 {
        "create private receipt namespace bases"
    } else if namespace == 1 {
        "create private receipt namespace intents"
    } else if namespace == 2 {
        "create private receipt namespace completions"
    } else if namespace == 3 {
        "create private receipt namespace attempts"
    } else {
        "create private receipt namespace forensics"
    }
}

/// Where an initialisation goes on an event. A claimed store must have the directories that its
/// claim binds. A new store must hold nothing; its claim is published last. An event that answers
/// nothing that was asked changes nothing.
pub open spec fn initialize_step(run: StoreInitialization, event: InitializeEvent) -> InitializeStep {
    match (run.phase, event) {
        (InitializePhase::ReadClaim, InitializeEvent::Read(read)) => match read {
            Err(error) => InitializeStep::Finish(
                Err(error_at(error, "read private receipt store claim")),
            ),
            Ok(None) => InitializeStep::Ask(InitializePhase::ReadInit),
            Ok(Some(bytes)) => match claim_verdict(
                bytes@,
                run.store_id,
                run.workspace_id,
                run.endpoint,
            ) {
                Err(error) => InitializeStep::Finish(Err(error)),
                Ok(expected) => InitializeStep::Ask(InitializePhase::OpenClaimed { expected }),
            },
        },
        (InitializePhase::OpenClaimed { expected }, InitializeEvent::Opened(opened)) => {
            match opened {
                Err(error) => InitializeStep::Finish(Err(error)),
                Ok(opened) => if opened.identities != expected {
                    InitializeStep::Finish(
                        Err(
                            ProjectionStoreError::NamespaceSubstitution(
                                EntryFault::Own("top-level receipt namespace"),
                            ),
                        ),
                    )
                } else {
                    InitializeStep::Finish(Ok(opened))
                },
            }
        },
        (InitializePhase::ReadInit, InitializeEvent::Read(read)) => match read {
            Err(error) => InitializeStep::Finish(
                Err(error_at(error, "read private receipt initialization claim")),
            ),
            Ok(None) => InitializeStep::Ask(InitializePhase::ListRoot),
            Ok(Some(bytes)) => if bytes@ != enrollment(
                init_magic(),
                run.store_id,
                run.workspace_id,
                run.endpoint,
            ) {
                InitializeStep::Finish(Err(ProjectionStoreError::MalformedStoreClaim))
            } else {
                InitializeStep::Ask(InitializePhase::Ensure { namespace: 0 })
            },
        },
        (InitializePhase::ListRoot, InitializeEvent::Empty(empty)) => match empty {
            Err(error) => InitializeStep::Finish(Err(error)),
            Ok(empty) => if empty {
                InitializeStep::Ask(InitializePhase::PublishInit)
            } else {
                InitializeStep::Finish(Err(ProjectionStoreError::ClaimlessNonemptyStore))
            },
        },
        (InitializePhase::PublishInit, InitializeEvent::Published(published)) => match published {
            Err(error) => InitializeStep::Finish(
                Err(error_at(error, "publish private receipt initialization claim")),
            ),
            Ok(()) => InitializeStep::Ask(InitializePhase::Ensure { namespace: 0 }),
        },
        (InitializePhase::Ensure { namespace }, InitializeEvent::Ensured(ensured)) => {
            match ensured {
                Err(error) => InitializeStep::Finish(
                    Err(error_at(error, namespace_operation(namespace))),
                ),
                Ok(()) => if namespace < 4 {
                    InitializeStep::Ask(
                        InitializePhase::Ensure { namespace: (namespace + 1) as u8 },
                    )
                } else {
                    InitializeStep::Ask(InitializePhase::ListStore)
                },
            }
        },
        (InitializePhase::ListStore, InitializeEvent::Listed(listed)) => match listed {
            Err(error) => InitializeStep::Finish(Err(error)),
            Ok(entries) => match incomplete_entries(entries@, entries@.len()) {
                Err(error) => InitializeStep::Finish(Err(error)),
                Ok(()) => InitializeStep::Ask(InitializePhase::OpenNew),
            },
        },
        (InitializePhase::OpenNew, InitializeEvent::Opened(opened)) => match opened {
            Err(error) => InitializeStep::Finish(
                Err(error_at(error, "open private receipt namespaces")),
            ),
            Ok(opened) => InitializeStep::Ask(InitializePhase::PublishClaim { opened }),
        },
        (InitializePhase::PublishClaim { opened }, InitializeEvent::Published(published)) => {
            match published {
                Err(error) => InitializeStep::Finish(
                    Err(error_at(error, "publish private receipt store claim")),
                ),
                Ok(()) => InitializeStep::Finish(Ok(opened)),
            }
        },
        _ => InitializeStep::Ask(run.phase),
    }
}

/// Whether an action is what an initialisation asks for in a phase.
pub open spec fn initialize_asks(
    run: StoreInitialization,
    phase: InitializePhase,
    action: InitializeAction,
) -> bool {
    match phase {
        InitializePhase::ReadClaim => action == InitializeAction::ReadClaim,
        InitializePhase::OpenClaimed { .. } => action == InitializeAction::OpenNamespaces {
            claimed: true,
        },
        InitializePhase::ReadInit => action == InitializeAction::ReadInitClaim,
        InitializePhase::ListRoot => action == InitializeAction::CheckEmpty,
        InitializePhase::PublishInit => {
            &&& action is PublishInitClaim
            &&& action->PublishInitClaim_0@ == enrollment(
                init_magic(),
                run.store_id,
                run.workspace_id,
                run.endpoint,
            )
        },
        InitializePhase::Ensure { namespace } => action == InitializeAction::EnsureNamespace(
            namespace_numbered(namespace),
        ),
        InitializePhase::ListStore => action == InitializeAction::ListStore,
        InitializePhase::OpenNew => action == InitializeAction::OpenNamespaces { claimed: false },
        InitializePhase::PublishClaim { opened } => {
            &&& action is PublishClaim
            &&& action->PublishClaim_0@ == claim(
                run.store_id,
                run.workspace_id,
                run.endpoint,
                opened.identities,
            )
        },
        InitializePhase::Done => action == InitializeAction::Finish(
            Err(
                ProjectionStoreError::UnsafeEntry(
                    EntryFault::Own("the receipt store was already opened"),
                ),
            ),
        ),
    }
}

/// Whether a store is the one that was opened.
pub open spec fn is_opened_store(
    run: StoreInitialization,
    opened: OpenedNamespaces,
    store: ProjectionReceiptStore,
) -> bool {
    &&& store.root_path@ == run.root_path@
    &&& store.store_id == run.store_id
    &&& store.workspace_id == run.workspace_id
    &&& store.endpoint == run.endpoint
    &&& store.namespace_identities == opened.identities
    &&& store.pending_cleanup_identity == opened.pending_cleanup
    &&& store.retired_own_endpoint_intents@.len() == 0
}

/// Whether an initialisation is where it goes next and asks for that, or has ended with the store.
pub open spec fn initialize_goes(
    run: StoreInitialization,
    step: InitializeStep,
    after: StoreInitialization,
    action: InitializeAction,
) -> bool {
    &&& after.root_path == run.root_path
    &&& after.store_id == run.store_id
    &&& after.workspace_id == run.workspace_id
    &&& after.endpoint == run.endpoint
    &&& match step {
        InitializeStep::Ask(phase) => after.phase == phase && initialize_asks(run, phase, action),
        InitializeStep::Finish(outcome) => {
            &&& after.phase is Done
            &&& action is Finish
            &&& match outcome {
                Err(error) => action->Finish_0 == Err::<ProjectionReceiptStore, _>(
                    error_at(error, "initialize private receipt store"),
                ),
                Ok(opened) => action->Finish_0 is Ok && is_opened_store(
                    run,
                    opened,
                    action->Finish_0->Ok_0,
                ),
            }
        },
    }
}

/// A store whose claim was published is accepted when it is opened again for the same workspace and
/// endpoint with the same directories: the claim leads straight to them.
pub proof fn law_initialized_store_reopens(
    run: StoreInitialization,
    opened: OpenedNamespaces,
    again: StoreInitialization,
    stored: Vec<u8>,
)
    requires
        run.phase == (InitializePhase::PublishClaim { opened }),
        stored@ == claim(run.store_id, run.workspace_id, run.endpoint, opened.identities),
        again.phase is ReadClaim,
        again.store_id == run.store_id,
        again.workspace_id == run.workspace_id,
        again.endpoint == run.endpoint,
    ensures
        initialize_step(again, InitializeEvent::Read(Ok(Some(stored)))) == InitializeStep::Ask(
            InitializePhase::OpenClaimed { expected: opened.identities },
        ),
        initialize_step(
            StoreInitialization {
                phase: InitializePhase::OpenClaimed { expected: opened.identities },
                ..again
            },
            InitializeEvent::Opened(Ok(opened)),
        ) == InitializeStep::Finish(Ok(opened)),
{
    law_claim_reads_back(run.store_id, run.workspace_id, run.endpoint, opened.identities);
}

/// Once the claim of a store is accepted, an initialisation asks for nothing but to open the
/// directories that the claim binds, and ends with the answer: it asks for no publication, and for
/// no directory to be made.
pub proof fn law_claimed_store_is_only_opened(run: StoreInitialization, event: InitializeEvent)
    requires
        run.phase is OpenClaimed,
    ensures
        initialize_step(run, event) is Finish || initialize_step(run, event)
            == InitializeStep::Ask(run.phase),
{
}

impl StoreInitialization {
    /// What the initialisation asks for.
    pub fn asks(&self) -> (action: InitializeAction)
        ensures
            initialize_asks(*self, self.phase, action),
    {
        match self.phase {
            InitializePhase::ReadClaim => InitializeAction::ReadClaim,
            InitializePhase::OpenClaimed { .. } => InitializeAction::OpenNamespaces {
                claimed: true,
            },
            InitializePhase::ReadInit => InitializeAction::ReadInitClaim,
            InitializePhase::ListRoot => InitializeAction::CheckEmpty,
            InitializePhase::PublishInit => InitializeAction::PublishInitClaim(
                init_claim_bytes(self.store_id, self.workspace_id, self.endpoint),
            ),
            InitializePhase::Ensure { namespace } => {
                let name = if namespace == 0 {
                    BASES_DIR
                } else if namespace == 1 {
                    INTENTS_DIR
                } else if namespace == 2 {
                    COMPLETIONS_DIR
                } else if namespace == 3 {
                    ATTEMPTS_DIR
                } else {
                    FORENSICS_DIR
                };
                InitializeAction::EnsureNamespace(name)
            },
            InitializePhase::ListStore => InitializeAction::ListStore,
            InitializePhase::OpenNew => InitializeAction::OpenNamespaces { claimed: false },
            InitializePhase::PublishClaim { opened } => InitializeAction::PublishClaim(
                claim_bytes(self.store_id, self.workspace_id, self.endpoint, &opened.identities),
            ),
            InitializePhase::Done => InitializeAction::Finish(
                Err(
                    ProjectionStoreError::UnsafeEntry(
                        EntryFault::Own("the receipt store was already opened"),
                    ),
                ),
            ),
        }
    }

    /// Ends the initialisation because something is wrong.
    fn fail(&mut self, error: ProjectionStoreError) -> (action: InitializeAction)
        ensures
            initialize_goes(*old(self), InitializeStep::Finish(Err(error)), *final(self), action),
    {
        self.phase = InitializePhase::Done;
        InitializeAction::Finish(Err(error.at("initialize private receipt store")))
    }

    /// Ends the initialisation with the store.
    fn succeed(&mut self, opened: OpenedNamespaces) -> (action: InitializeAction)
        ensures
            initialize_goes(*old(self), InitializeStep::Finish(Ok(opened)), *final(self), action),
    {
        self.phase = InitializePhase::Done;
        InitializeAction::Finish(
            Ok(
                ProjectionReceiptStore {
                    root_path: self.root_path.clone(),
                    store_id: self.store_id,
                    workspace_id: self.workspace_id,
                    endpoint: self.endpoint,
                    namespace_identities: opened.identities,
                    pending_cleanup_identity: opened.pending_cleanup,
                    retired_own_endpoint_intents: Vec::new(),
                },
            ),
        )
    }

    /// Goes on with a phase.
    fn ask(&mut self, phase: InitializePhase) -> (action: InitializeAction)
        ensures
            initialize_goes(*old(self), InitializeStep::Ask(phase), *final(self), action),
    {
        self.phase = phase;
        self.asks()
    }

    /// Takes an event and says what comes next.
    pub fn advance(&mut self, event: InitializeEvent) -> (action: InitializeAction)
        ensures
            initialize_goes(
                *old(self),
                initialize_step(*old(self), event),
                *final(self),
                action,
            ),
    {
        match (self.phase, event) {
            (InitializePhase::ReadClaim, InitializeEvent::Read(read)) => match read {
                Err(error) => self.fail(error.at("read private receipt store claim")),
                Ok(None) => self.ask(InitializePhase::ReadInit),
                Ok(Some(bytes)) => match validate_claim(
                    bytes.as_slice(),
                    self.store_id,
                    self.workspace_id,
                    self.endpoint,
                ) {
                    Err(error) => self.fail(error),
                    Ok(expected) => self.ask(InitializePhase::OpenClaimed { expected }),
                },
            },
            (InitializePhase::OpenClaimed { expected }, InitializeEvent::Opened(opened)) => {
                match opened {
                    Err(error) => self.fail(error),
                    Ok(opened) => if opened.identities != expected {
                        self.fail(
                            ProjectionStoreError::NamespaceSubstitution(
                                EntryFault::Own("top-level receipt namespace"),
                            ),
                        )
                    } else {
                        self.succeed(opened)
                    },
                }
            },
            (InitializePhase::ReadInit, InitializeEvent::Read(read)) => match read {
                Err(error) => self.fail(error.at("read private receipt initialization claim")),
                Ok(None) => self.ask(InitializePhase::ListRoot),
                Ok(Some(bytes)) => {
                    let expected = init_claim_bytes(
                        self.store_id,
                        self.workspace_id,
                        self.endpoint,
                    );
                    if !same_bytes(bytes.as_slice(), expected.as_slice()) {
                        self.fail(ProjectionStoreError::MalformedStoreClaim)
                    } else {
                        self.ask(InitializePhase::Ensure { namespace: 0 })
                    }
                },
            },
            (InitializePhase::ListRoot, InitializeEvent::Empty(empty)) => match empty {
                Err(error) => self.fail(error),
                Ok(empty) => if empty {
                    self.ask(InitializePhase::PublishInit)
                } else {
                    self.fail(ProjectionStoreError::ClaimlessNonemptyStore)
                },
            },
            (InitializePhase::PublishInit, InitializeEvent::Published(published)) => {
                match published {
                    Err(error) => self.fail(
                        error.at("publish private receipt initialization claim"),
                    ),
                    Ok(()) => self.ask(InitializePhase::Ensure { namespace: 0 }),
                }
            },
            (InitializePhase::Ensure { namespace }, InitializeEvent::Ensured(ensured)) => {
                match ensured {
                    Err(error) => {
                        let operation = if namespace == 0 {
                            "create private receipt namespace bases"
                        } else if namespace == 1 {
                            "create private receipt namespace intents"
                        } else if namespace == 2 {
                            "create private receipt namespace completions"
                        } else if namespace == 3 {
                            "create private receipt namespace attempts"
                        } else {
                            "create private receipt namespace forensics"
                        };
                        self.fail(error.at(operation))
                    },
                    Ok(()) => if namespace < 4 {
                        self.ask(InitializePhase::Ensure { namespace: namespace + 1 })
                    } else {
                        self.ask(InitializePhase::ListStore)
                    },
                }
            },
            (InitializePhase::ListStore, InitializeEvent::Listed(listed)) => match listed {
                Err(error) => self.fail(error),
                Ok(entries) => match require_incomplete_store_is_empty(entries) {
                    Err(error) => self.fail(error),
                    Ok(()) => self.ask(InitializePhase::OpenNew),
                },
            },
            (InitializePhase::OpenNew, InitializeEvent::Opened(opened)) => match opened {
                Err(error) => self.fail(error.at("open private receipt namespaces")),
                Ok(opened) => self.ask(InitializePhase::PublishClaim { opened }),
            },
            (InitializePhase::PublishClaim { opened }, InitializeEvent::Published(published)) => {
                match published {
                    Err(error) => self.fail(error.at("publish private receipt store claim")),
                    Ok(()) => self.succeed(opened),
                }
            },
            _ => self.asks(),
        }
    }
}

/// What opening a store starts with, or why its path cannot be used.
pub open spec fn opening_starts(
    root: RootName,
    run: StoreInitialization,
    started: Result<StoreInitialization, ProjectionStoreError>,
) -> bool {
    match root_name(root) {
        Err(error) => started == Err::<StoreInitialization, _>(error),
        Ok(_) => started == Ok::<_, ProjectionStoreError>(run),
    }
}

impl ProjectionReceiptStore {
    /// Starts to open a store that is enrolled to no endpoint. `root_path` is the canonical path of
    /// its directory, and `store_id` the identity of that.
    pub fn open(
        root: RootName,
        root_path: String,
        store_id: ProjectionReceiptStoreId,
        workspace_id: WorkspaceId,
    ) -> (started: Result<StoreInitialization, ProjectionStoreError>)
        ensures
            opening_starts(
                root,
                StoreInitialization {
                    root_path,
                    store_id,
                    workspace_id,
                    endpoint: None,
                    phase: InitializePhase::ReadClaim,
                },
                started,
            ),
    {
        Self::open_with_binding(root, root_path, store_id, workspace_id, None)
    }

    /// Starts to open a store that is enrolled to an endpoint.
    pub fn open_for_endpoint(
        root: RootName,
        root_path: String,
        store_id: ProjectionReceiptStoreId,
        workspace_id: WorkspaceId,
        endpoint: ProjectionEndpointBinding,
    ) -> (started: Result<StoreInitialization, ProjectionStoreError>)
        ensures
            opening_starts(
                root,
                StoreInitialization {
                    root_path,
                    store_id,
                    workspace_id,
                    endpoint: Some(endpoint),
                    phase: InitializePhase::ReadClaim,
                },
                started,
            ),
    {
        Self::open_with_binding(root, root_path, store_id, workspace_id, Some(endpoint))
    }

    /// Starts to open a store.
    fn open_with_binding(
        root: RootName,
        root_path: String,
        store_id: ProjectionReceiptStoreId,
        workspace_id: WorkspaceId,
        endpoint: Option<ProjectionEndpointBinding>,
    ) -> (started: Result<StoreInitialization, ProjectionStoreError>)
        ensures
            opening_starts(
                root,
                StoreInitialization {
                    root_path,
                    store_id,
                    workspace_id,
                    endpoint,
                    phase: InitializePhase::ReadClaim,
                },
                started,
            ),
    {
        if let Err(error) = require_root_name(root) {
            return Err(error);
        }
        Ok(
            StoreInitialization {
                root_path,
                store_id,
                workspace_id,
                endpoint,
                phase: InitializePhase::ReadClaim,
            },
        )
    }
}

} // verus!
