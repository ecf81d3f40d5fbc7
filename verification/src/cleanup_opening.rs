//! Opening the namespace of pending cleanup: its own record and its rounds are checked, or written
//! when it is new.

use vstd::prelude::*;

use crate::hash::Digest;
use crate::ids::ProjectionReceiptStoreId;
use crate::names::PENDING_CLEANUP_ROUND_STATE;
use crate::rounds::{
    check_cleanup_namespace, PendingCleanupNamespaceAuthority, PendingCleanupRoundState,
    RoundIdentities, PENDING_CLEANUP_NAMESPACE_SCHEMA_VERSION,
    PENDING_CLEANUP_ROUND_STATE_SCHEMA_VERSION,
};
use crate::store_error::{EntryFault, ProjectionStoreError};

verus! {

/// How far an opening has come. A new namespace has no record of its own yet.
#[derive(Clone, Copy, Debug, PartialEq, Eq, Structural)]
pub enum CleanupOpeningPhase {
    ReadRecord,
    EnsureDirectory,
    Identify { new: bool },
    Encode { new: bool, identity: Digest },
    ReadState { new: bool, identity: Digest },
    CheckRoot { identity: Digest },
    EnsureRounds { identity: Digest },
    PublishState { identity: Digest, rounds: RoundIdentities },
    OpenRounds { new: bool, identity: Digest },
    PublishRecord { identity: Digest },
    Done,
}

/// What an opening has to do, or find out, next.
#[derive(Debug, PartialEq, Eq)]
pub enum CleanupOpeningAction {
    /// Read the namespace's own record.
    ReadRecord,
    /// Have the namespace's directory.
    EnsureDirectory,
    /// Identify the namespace's directory.
    Identify,
    /// Encode the namespace's own record.
    Encode(PendingCleanupNamespaceAuthority),
    /// Find out whether the state of the rounds is there.
    ReadState,
    /// Check the namespace's directory before there is a state.
    CheckRoot,
    /// Have the two rounds' directories, and identify them.
    EnsureRounds,
    /// Publish the state of the rounds.
    PublishState(PendingCleanupRoundState),
    /// Open the rounds.
    OpenRounds,
    /// Publish the namespace's own record.
    PublishRecord(Vec<u8>),
    /// The opening has ended with the identity of the directory.
    Finish(Result<Digest, ProjectionStoreError>),
}

/// What came of what an opening asked for.
#[derive(Debug, PartialEq, Eq)]
pub enum CleanupOpeningEvent {
    Record(Result<Option<Vec<u8>>, ProjectionStoreError>),
    Ensured(Result<(), ProjectionStoreError>),
    Identified(Result<Digest, ProjectionStoreError>),
    Encoded(Result<Vec<u8>, String>),
    StateExists(Result<bool, ProjectionStoreError>),
    RootChecked(Result<(), ProjectionStoreError>),
    RoundsEnsured(Result<RoundIdentities, ProjectionStoreError>),
    Published(Result<(), ProjectionStoreError>),
    RoundsOpened(Result<(), ProjectionStoreError>),
}

/// A namespace of pending cleanup that is being opened.
#[derive(Debug, PartialEq, Eq)]
pub struct CleanupOpening {
    pub store_id: ProjectionReceiptStoreId,
    pub phase: CleanupOpeningPhase,
    pub existing: Option<Vec<u8>>,
    pub expected: Vec<u8>,
}

/// What an opening says.
#[verifier::ext_equal]
pub struct CleanupOpeningView {
    pub store_id: ProjectionReceiptStoreId,
    pub phase: CleanupOpeningPhase,
    pub existing: Option<Seq<u8>>,
    pub expected: Seq<u8>,
}

impl View for CleanupOpening {
    type V = CleanupOpeningView;

    open spec fn view(&self) -> CleanupOpeningView {
        CleanupOpeningView {
            store_id: self.store_id,
            phase: self.phase,
            existing: crate::page::optional_text(self.existing),
            expected: self.expected@,
        }
    }
}

/// Where an opening goes next.
pub enum CleanupOpeningStep {
    Ask(CleanupOpeningView),
    Finish(Result<Digest, ProjectionStoreError>),
}

/// Where an opening goes on an event. A namespace with a record of its own must have that very
/// record and a state; a new one gets its rounds and their state first and its record last. An
/// event that answers nothing that was asked changes nothing.
pub open spec fn cleanup_opening_step(
    run: CleanupOpeningView,
    event: CleanupOpeningEvent,
) -> CleanupOpeningStep {
    match (run.phase, event) {
        (CleanupOpeningPhase::ReadRecord, CleanupOpeningEvent::Record(read)) => match read {
            Err(error) => CleanupOpeningStep::Finish(Err(error)),
            Ok(None) => CleanupOpeningStep::Ask(
                CleanupOpeningView {
                    phase: CleanupOpeningPhase::EnsureDirectory,
                    existing: None,
                    ..run
                },
            ),
            Ok(Some(bytes)) => CleanupOpeningStep::Ask(
                CleanupOpeningView {
                    phase: CleanupOpeningPhase::Identify { new: false },
                    existing: Some(bytes@),
                    ..run
                },
            ),
        },
        (CleanupOpeningPhase::EnsureDirectory, CleanupOpeningEvent::Ensured(ensured)) => {
            match ensured {
                Err(error) => CleanupOpeningStep::Finish(Err(error)),
                Ok(()) => CleanupOpeningStep::Ask(
                    CleanupOpeningView {
                        phase: CleanupOpeningPhase::Identify { new: true },
                        ..run
                    },
                ),
            }
        },
        (CleanupOpeningPhase::Identify { new }, CleanupOpeningEvent::Identified(identified)) => {
            match identified {
                Err(error) => CleanupOpeningStep::Finish(Err(error)),
                Ok(identity) => CleanupOpeningStep::Ask(
                    CleanupOpeningView {
                        phase: CleanupOpeningPhase::Encode { new, identity },
                        ..run
                    },
                ),
            }
        },
        (CleanupOpeningPhase::Encode { new, identity }, CleanupOpeningEvent::Encoded(encoded)) => {
            match encoded {
                Err(message) => CleanupOpeningStep::Finish(
                    Err(ProjectionStoreError::Encode(message)),
                ),
                Ok(bytes) => if run.existing is Some && run.existing->0 != bytes@ {
                    CleanupOpeningStep::Finish(
                        Err(
                            ProjectionStoreError::NamespaceSubstitution(
                                EntryFault::Own(crate::names::PENDING_CLEANUP_DIR),
                            ),
                        ),
                    )
                } else {
                    CleanupOpeningStep::Ask(
                        CleanupOpeningView {
                            phase: CleanupOpeningPhase::ReadState { new, identity },
                            expected: bytes@,
                            ..run
                        },
                    )
                },
            }
        },
        (
            CleanupOpeningPhase::ReadState { new, identity },
            CleanupOpeningEvent::StateExists(read),
        ) => match read {
            Err(error) => CleanupOpeningStep::Finish(Err(error)),
            Ok(there) => if there {
                CleanupOpeningStep::Ask(
                    CleanupOpeningView {
                        phase: CleanupOpeningPhase::OpenRounds { new, identity },
                        ..run
                    },
                )
            } else if !new {
                CleanupOpeningStep::Finish(
                    Err(
                        ProjectionStoreError::NamespaceSubstitution(
                            EntryFault::Own(PENDING_CLEANUP_ROUND_STATE),
                        ),
                    ),
                )
            } else {
                CleanupOpeningStep::Ask(
                    CleanupOpeningView {
                        phase: CleanupOpeningPhase::CheckRoot { identity },
                        ..run
                    },
                )
            },
        },
        (CleanupOpeningPhase::CheckRoot { identity }, CleanupOpeningEvent::RootChecked(checked)) => {
            match checked {
                Err(error) => CleanupOpeningStep::Finish(Err(error)),
                Ok(()) => CleanupOpeningStep::Ask(
                    CleanupOpeningView {
                        phase: CleanupOpeningPhase::EnsureRounds { identity },
                        ..run
                    },
                ),
            }
        },
        (
            CleanupOpeningPhase::EnsureRounds { identity },
            CleanupOpeningEvent::RoundsEnsured(ensured),
        ) => match ensured {
            Err(error) => CleanupOpeningStep::Finish(Err(error)),
            Ok(rounds) => CleanupOpeningStep::Ask(
                CleanupOpeningView {
                    phase: CleanupOpeningPhase::PublishState { identity, rounds },
                    ..run
                },
            ),
        },
        (
            CleanupOpeningPhase::PublishState { identity, .. },
            CleanupOpeningEvent::Published(published),
        ) => match published {
            Err(error) => CleanupOpeningStep::Finish(Err(error)),
            Ok(()) => CleanupOpeningStep::Ask(
                CleanupOpeningView {
                    phase: CleanupOpeningPhase::OpenRounds { new: true, identity },
                    ..run
                },
            ),
        },
        (
            CleanupOpeningPhase::OpenRounds { new, identity },
            CleanupOpeningEvent::RoundsOpened(opened),
        ) => match opened {
            Err(error) => CleanupOpeningStep::Finish(Err(error)),
            Ok(()) => if new {
                CleanupOpeningStep::Ask(
                    CleanupOpeningView {
                        phase: CleanupOpeningPhase::PublishRecord { identity },
                        ..run
                    },
                )
            } else {
                CleanupOpeningStep::Finish(Ok(identity))
            },
        },
        (
            CleanupOpeningPhase::PublishRecord { identity },
            CleanupOpeningEvent::Published(published),
        ) => match published {
            Err(error) => CleanupOpeningStep::Finish(Err(error)),
            Ok(()) => CleanupOpeningStep::Finish(Ok(identity)),
        },
        _ => CleanupOpeningStep::Ask(run),
    }
}

/// Whether an action is what an opening asks for.
pub open spec fn cleanup_opening_asks(
    run: CleanupOpeningView,
    action: CleanupOpeningAction,
) -> bool {
    match run.phase {
        CleanupOpeningPhase::ReadRecord => action == CleanupOpeningAction::ReadRecord,
        CleanupOpeningPhase::EnsureDirectory => action == CleanupOpeningAction::EnsureDirectory,
        CleanupOpeningPhase::Identify { .. } => action == CleanupOpeningAction::Identify,
        CleanupOpeningPhase::Encode { identity, .. } => action == CleanupOpeningAction::Encode(
            PendingCleanupNamespaceAuthority {
                schema_version: PENDING_CLEANUP_NAMESPACE_SCHEMA_VERSION,
                store_id: run.store_id,
                directory_identity: identity,
            },
        ),
        CleanupOpeningPhase::ReadState { .. } => action == CleanupOpeningAction::ReadState,
        CleanupOpeningPhase::CheckRoot { .. } => action == CleanupOpeningAction::CheckRoot,
        CleanupOpeningPhase::EnsureRounds { .. } => action == CleanupOpeningAction::EnsureRounds,
        CleanupOpeningPhase::PublishState { identity, rounds } => action
            == CleanupOpeningAction::PublishState(
            PendingCleanupRoundState {
                schema_version: PENDING_CLEANUP_ROUND_STATE_SCHEMA_VERSION,
                store_id: run.store_id,
                namespace_identity: identity,
                first_identity: rounds.first,
                second_identity: rounds.second,
                active_round: 0,
            },
        ),
        CleanupOpeningPhase::OpenRounds { .. } => action == CleanupOpeningAction::OpenRounds,
        CleanupOpeningPhase::PublishRecord { .. } => {
            &&& action is PublishRecord
            &&& action->PublishRecord_0@ == run.expected
        },
        CleanupOpeningPhase::Done => action == CleanupOpeningAction::Finish(
            Err(
                ProjectionStoreError::UnsafeEntry(
                    EntryFault::Own("the cleanup namespace was already opened"),
                ),
            ),
        ),
    }
}

/// Whether an opening is where it goes next and asks for that, or has ended.
pub open spec fn cleanup_opening_goes(
    step: CleanupOpeningStep,
    after: CleanupOpeningView,
    action: CleanupOpeningAction,
) -> bool {
    match step {
        CleanupOpeningStep::Ask(next) => after == next && cleanup_opening_asks(next, action),
        CleanupOpeningStep::Finish(outcome) => after.phase is Done && action
            == CleanupOpeningAction::Finish(outcome),
    }
}

/// The record of a new namespace is published only once its rounds could be opened.
pub proof fn law_record_follows_the_rounds(run: CleanupOpeningView, event: CleanupOpeningEvent)
    requires
        !(run.phase is PublishRecord),
        cleanup_opening_step(run, event) is Ask,
        cleanup_opening_step(run, event)->Ask_0.phase is PublishRecord,
    ensures
        run.phase is OpenRounds,
        run.phase->OpenRounds_new,
        event is RoundsOpened,
        event->RoundsOpened_0 is Ok,
{
}

impl CleanupOpening {
    /// An opening, before anything was asked.
    pub fn new(store_id: ProjectionReceiptStoreId) -> (run: CleanupOpening)
        ensures
            run@ == (CleanupOpeningView {
                store_id,
                phase: CleanupOpeningPhase::ReadRecord,
                existing: None,
                expected: Seq::empty(),
            }),
    {
        CleanupOpening {
            store_id,
            phase: CleanupOpeningPhase::ReadRecord,
            existing: None,
            expected: Vec::new(),
        }
    }

    /// What the opening asks for.
    pub fn asks(&self) -> (action: CleanupOpeningAction)
        ensures
            cleanup_opening_asks(self@, action),
    {
        match self.phase {
            CleanupOpeningPhase::ReadRecord => CleanupOpeningAction::ReadRecord,
            CleanupOpeningPhase::EnsureDirectory => CleanupOpeningAction::EnsureDirectory,
            CleanupOpeningPhase::Identify { .. } => CleanupOpeningAction::Identify,
            CleanupOpeningPhase::Encode { identity, .. } => CleanupOpeningAction::Encode(
                PendingCleanupNamespaceAuthority::new(self.store_id, identity),
            ),
            CleanupOpeningPhase::ReadState { .. } => CleanupOpeningAction::ReadState,
            CleanupOpeningPhase::CheckRoot { .. } => CleanupOpeningAction::CheckRoot,
            CleanupOpeningPhase::EnsureRounds { .. } => CleanupOpeningAction::EnsureRounds,
            CleanupOpeningPhase::PublishState { identity, rounds } => {
                CleanupOpeningAction::PublishState(
                    PendingCleanupRoundState::initial(self.store_id, identity, rounds),
                )
            },
            CleanupOpeningPhase::OpenRounds { .. } => CleanupOpeningAction::OpenRounds,
            CleanupOpeningPhase::PublishRecord { .. } => CleanupOpeningAction::PublishRecord(
                crate::bytes::copy_bytes(self.expected.as_slice()),
            ),
            CleanupOpeningPhase::Done => CleanupOpeningAction::Finish(
                Err(
                    ProjectionStoreError::UnsafeEntry(
                        EntryFault::Own("the cleanup namespace was already opened"),
                    ),
                ),
            ),
        }
    }

    /// Ends the opening.
    fn finish(&mut self, outcome: Result<Digest, ProjectionStoreError>) -> (action:
        CleanupOpeningAction)
        ensures
            cleanup_opening_goes(CleanupOpeningStep::Finish(outcome), final(self)@, action),
    {
        self.phase = CleanupOpeningPhase::Done;
        CleanupOpeningAction::Finish(outcome)
    }

    /// Goes on with a phase.
    fn ask(&mut self, phase: CleanupOpeningPhase) -> (action: CleanupOpeningAction)
        ensures
            cleanup_opening_goes(
                CleanupOpeningStep::Ask(CleanupOpeningView { phase, ..old(self)@ }),
                final(self)@,
                action,
            ),
    {
        self.phase = phase;
        self.asks()
    }

    /// Takes an event and says what comes next.
    pub fn advance(&mut self, event: CleanupOpeningEvent) -> (action: CleanupOpeningAction)
        ensures
            cleanup_opening_goes(cleanup_opening_step(old(self)@, event), final(self)@, action),
    {
        match (self.phase, event) {
            (CleanupOpeningPhase::ReadRecord, CleanupOpeningEvent::Record(read)) => match read {
                Err(error) => self.finish(Err(error)),
                Ok(existing) => {
                    let new = existing.is_none();
                    self.existing = existing;
                    if new {
                        self.ask(CleanupOpeningPhase::EnsureDirectory)
                    } else {
                        self.ask(CleanupOpeningPhase::Identify { new: false })
                    }
                },
            },
            (CleanupOpeningPhase::EnsureDirectory, CleanupOpeningEvent::Ensured(ensured)) => {
                match ensured {
                    Err(error) => self.finish(Err(error)),
                    Ok(()) => self.ask(CleanupOpeningPhase::Identify { new: true }),
                }
            },
            (
                CleanupOpeningPhase::Identify { new },
                CleanupOpeningEvent::Identified(identified),
            ) => match identified {
                Err(error) => self.finish(Err(error)),
                Ok(identity) => self.ask(CleanupOpeningPhase::Encode { new, identity }),
            },
            (
                CleanupOpeningPhase::Encode { new, identity },
                CleanupOpeningEvent::Encoded(encoded),
            ) => {
                let checked = match &self.existing {
                    None => check_cleanup_namespace(None, encoded),
                    Some(existing) => check_cleanup_namespace(Some(existing.as_slice()), encoded),
                };
                match checked {
                    Err(error) => self.finish(Err(error)),
                    Ok(bytes) => {
                        self.expected = bytes;
                        self.ask(CleanupOpeningPhase::ReadState { new, identity })
                    },
                }
            },
            (
                CleanupOpeningPhase::ReadState { new, identity },
                CleanupOpeningEvent::StateExists(read),
            ) => match read {
                Err(error) => self.finish(Err(error)),
                Ok(there) => if there {
                    self.ask(CleanupOpeningPhase::OpenRounds { new, identity })
                } else if !new {
                    self.finish(
                        Err(
                            ProjectionStoreError::NamespaceSubstitution(
                                EntryFault::Own(PENDING_CLEANUP_ROUND_STATE),
                            ),
                        ),
                    )
                } else {
                    self.ask(CleanupOpeningPhase::CheckRoot { identity })
                },
            },
            (
                CleanupOpeningPhase::CheckRoot { identity },
                CleanupOpeningEvent::RootChecked(checked),
            ) => match checked {
                Err(error) => self.finish(Err(error)),
                Ok(()) => self.ask(CleanupOpeningPhase::EnsureRounds { identity }),
            },
            (
                CleanupOpeningPhase::EnsureRounds { identity },
                CleanupOpeningEvent::RoundsEnsured(ensured),
            ) => match ensured {
                Err(error) => self.finish(Err(error)),
                Ok(rounds) => self.ask(CleanupOpeningPhase::PublishState { identity, rounds }),
            },
            (
                CleanupOpeningPhase::PublishState { identity, .. },
                CleanupOpeningEvent::Published(published),
            ) => match published {
                Err(error) => self.finish(Err(error)),
                Ok(()) => self.ask(CleanupOpeningPhase::OpenRounds { new: true, identity }),
            },
            (
                CleanupOpeningPhase::OpenRounds { new, identity },
                CleanupOpeningEvent::RoundsOpened(opened),
            ) => match opened {
                Err(error) => self.finish(Err(error)),
                Ok(()) => if new {
                    self.ask(CleanupOpeningPhase::PublishRecord { identity })
                } else {
                    self.finish(Ok(identity))
                },
            },
            (
                CleanupOpeningPhase::PublishRecord { identity },
                CleanupOpeningEvent::Published(published),
            ) => match published {
                Err(error) => self.finish(Err(error)),
                Ok(()) => self.finish(Ok(identity)),
            },
            _ => self.asks(),
        }
    }
}

} // verus!
