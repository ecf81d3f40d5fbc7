//! Publishing a file that is never changed: it is written under another name, made durable, and
//! moved to its place; a file that is there already must hold the same bytes.

use vstd::prelude::*;

use crate::bytes::{copy_bytes, same_bytes};
use crate::store_error::{IoFailure, IoFailureKind, Reason, StoreFault};

verus! {

/// How durable a directory has to be made.
#[derive(Clone, Copy, Debug, PartialEq, Eq, Structural)]
pub enum ReceiptDirectoryDurability {
    /// The store has no claim yet, so what it holds can be made again.
    PrePromotionBootstrap,
    /// The store is claimed: every change has to be durable.
    PromotedAuthority,
}

/// How far a publication has come.
#[derive(Clone, Copy, Debug, PartialEq, Eq, Structural)]
pub enum PublicationPhase {
    /// The file may be there; whether the other file was written yet.
    Looking { written: bool },
    VerifyingParent { written: bool },
    Creating,
    Writing,
    Beginning,
    Renaming,
    Syncing,
    Checking,
    /// The other file is removed.
    Removing,
    Done,
}

/// What a publication has to do, or find out, next.
#[derive(Clone, Copy, Debug, PartialEq, Eq, Structural)]
pub enum PublicationAction {
    /// Read the file, which must have the length of the bytes.
    ReadExisting,
    /// Make sure that the directory is durable, unless it is known to be.
    VerifyParent,
    /// Create the other file.
    CreateTemporary,
    /// Write the bytes into the other file and make it durable.
    WriteTemporary,
    /// Note that the directory is about to change.
    BeginMutation,
    /// Move the other file to its place.
    Rename,
    /// Make the directory durable.
    SyncDirectory(ReceiptDirectoryDurability),
    /// Remove the other file.
    RemoveTemporary,
    /// The publication has succeeded.
    Succeeded,
    /// The publication has failed; the fault says why.
    Failed,
}

/// What came of what a publication asked for.
#[derive(Debug, PartialEq, Eq)]
pub enum PublicationEvent {
    Existing(Result<Option<Vec<u8>>, StoreFault>),
    Outcome(Result<(), StoreFault>),
    Removed(Result<(), IoFailure>),
}

/// A publication.
#[derive(Debug, PartialEq, Eq)]
pub struct PublicationRun {
    pub filename: String,
    pub bytes: Vec<u8>,
    pub kind: &'static str,
    pub durability: ReceiptDirectoryDurability,
    pub phase: PublicationPhase,
    pub fault: Option<StoreFault>,
}

/// What a publication says.
#[verifier::ext_equal]
pub struct PublicationView {
    pub filename: String,
    pub bytes: Seq<u8>,
    pub kind: &'static str,
    pub durability: ReceiptDirectoryDurability,
    pub phase: PublicationPhase,
    pub fault: Option<StoreFault>,
}

impl View for PublicationRun {
    type V = PublicationView;

    open spec fn view(&self) -> PublicationView {
        PublicationView {
            filename: self.filename,
            bytes: self.bytes@,
            kind: self.kind,
            durability: self.durability,
            phase: self.phase,
            fault: self.fault,
        }
    }
}

/// Whether the file is there with the right bytes, or why it is refused.
pub open spec fn existing_verdict(
    bytes: Seq<u8>,
    kind: &'static str,
    read: Result<Option<Vec<u8>>, StoreFault>,
) -> Result<bool, StoreFault> {
    match read {
        Ok(Some(existing)) => if existing@ == bytes {
            Ok(true)
        } else {
            Err(StoreFault::ImmutableCollision(kind))
        },
        Ok(None) => Ok(false),
        Err(StoreFault::StoredLengthMismatch { .. }) => Err(StoreFault::ImmutableCollision(kind)),
        Err(StoreFault::StoredFileTooLarge { .. }) => Err(StoreFault::ImmutableCollision(kind)),
        Err(fault) => Err(fault),
    }
}

/// A publication in a phase.
pub open spec fn in_phase(run: PublicationView, phase: PublicationPhase) -> PublicationView {
    PublicationView { phase, ..run }
}

/// A publication that ends, with what went wrong. Once the other file was created, it is removed
/// first.
pub open spec fn ending(
    run: PublicationView,
    written: bool,
    fault: Option<StoreFault>,
) -> PublicationView {
    PublicationView {
        phase: if written {
            PublicationPhase::Removing
        } else {
            PublicationPhase::Done
        },
        fault,
        ..run
    }
}

/// A publication after looking for the file.
pub open spec fn after_looking(
    run: PublicationView,
    written: bool,
    read: Result<Option<Vec<u8>>, StoreFault>,
) -> PublicationView {
    match existing_verdict(run.bytes, run.kind, read) {
        Err(fault) => ending(run, written, Some(fault)),
        Ok(true) => if run.durability == ReceiptDirectoryDurability::PromotedAuthority {
            in_phase(run, PublicationPhase::VerifyingParent { written })
        } else {
            ending(run, written, None)
        },
        Ok(false) => if !written {
            in_phase(run, PublicationPhase::Creating)
        } else if run.durability == ReceiptDirectoryDurability::PromotedAuthority {
            in_phase(run, PublicationPhase::Beginning)
        } else {
            in_phase(run, PublicationPhase::Renaming)
        },
    }
}

/// A publication after a step that either leads on or ends it.
pub open spec fn after_step(
    run: PublicationView,
    outcome: Result<(), StoreFault>,
    phase: PublicationPhase,
) -> PublicationView {
    match outcome {
        Err(fault) => ending(run, true, Some(fault)),
        Ok(()) => in_phase(run, phase),
    }
}

/// A file that was gone after it had been moved to its place.
pub open spec fn lost_publication(filename: String) -> StoreFault {
    StoreFault::Io(
        IoFailure {
            kind: IoFailureKind::NotFound,
            message: Reason::Named {
                words: "Android private immutable publication lost ",
                name: filename,
            },
            semantic_refusal: false,
        },
    )
}

/// A file that was gone after it had been moved to its place.
fn lose_publication(filename: String) -> (fault: StoreFault)
    ensures
        fault == lost_publication(filename),
{
    StoreFault::Io(
        IoFailure {
            kind: IoFailureKind::NotFound,
            message: Reason::Named {
                words: "Android private immutable publication lost ",
                name: filename,
            },
            semantic_refusal: false,
        },
    )
}

/// A publication after an event. An event that answers nothing that was asked changes nothing.
pub open spec fn publication_step(run: PublicationView, event: PublicationEvent) -> PublicationView {
    match (run.phase, event) {
        (PublicationPhase::Looking { written }, PublicationEvent::Existing(read)) => after_looking(
            run,
            written,
            read,
        ),
        (PublicationPhase::VerifyingParent { written }, PublicationEvent::Outcome(outcome)) => {
            match outcome {
                Err(fault) => ending(run, written, Some(fault)),
                Ok(()) => ending(run, written, None),
            }
        },
        (PublicationPhase::Creating, PublicationEvent::Outcome(outcome)) => match outcome {
            Err(fault) => ending(run, false, Some(fault)),
            Ok(()) => in_phase(run, PublicationPhase::Writing),
        },
        (PublicationPhase::Writing, PublicationEvent::Outcome(outcome)) => after_step(
            run,
            outcome,
            PublicationPhase::Looking { written: true },
        ),
        (PublicationPhase::Beginning, PublicationEvent::Outcome(outcome)) => after_step(
            run,
            outcome,
            PublicationPhase::Renaming,
        ),
        (PublicationPhase::Renaming, PublicationEvent::Outcome(outcome)) => after_step(
            run,
            outcome,
            PublicationPhase::Syncing,
        ),
        (PublicationPhase::Syncing, PublicationEvent::Outcome(outcome)) => after_step(
            run,
            outcome,
            PublicationPhase::Checking,
        ),
        (PublicationPhase::Checking, PublicationEvent::Existing(read)) => match existing_verdict(
            run.bytes,
            run.kind,
            read,
        ) {
            Err(fault) => ending(run, true, Some(fault)),
            Ok(there) => if there {
                ending(run, true, None)
            } else {
                ending(run, true, Some(lost_publication(run.filename)))
            },
        },
        (PublicationPhase::Removing, PublicationEvent::Removed(removed)) => match removed {
            Ok(()) => in_phase(run, PublicationPhase::Done),
            Err(failure) => if run.fault is None && failure.kind != IoFailureKind::NotFound {
                PublicationView {
                    phase: PublicationPhase::Done,
                    fault: Some(StoreFault::Io(failure)),
                    ..run
                }
            } else {
                in_phase(run, PublicationPhase::Done)
            },
        },
        _ => run,
    }
}

/// What a publication asks for.
pub open spec fn publication_asks(run: PublicationView) -> PublicationAction {
    match run.phase {
        PublicationPhase::Looking { .. } => PublicationAction::ReadExisting,
        PublicationPhase::VerifyingParent { .. } => PublicationAction::VerifyParent,
        PublicationPhase::Creating => PublicationAction::CreateTemporary,
        PublicationPhase::Writing => PublicationAction::WriteTemporary,
        PublicationPhase::Beginning => PublicationAction::BeginMutation,
        PublicationPhase::Renaming => PublicationAction::Rename,
        PublicationPhase::Syncing => PublicationAction::SyncDirectory(run.durability),
        PublicationPhase::Checking => PublicationAction::ReadExisting,
        PublicationPhase::Removing => PublicationAction::RemoveTemporary,
        PublicationPhase::Done => if run.fault is None {
            PublicationAction::Succeeded
        } else {
            PublicationAction::Failed
        },
    }
}

/// A publication that ends well last saw the file with the right bytes, or, where that had been
/// seen, only still removed the other file.
pub proof fn law_published_bytes_were_seen(run: PublicationView, event: PublicationEvent)
    requires
        run.fault is None,
        !(run.phase is Done),
        !(run.phase is Removing),
        !(run.phase is VerifyingParent),
        publication_step(run, event).fault is None,
        publication_step(run, event).phase is Removing || publication_step(run, event).phase
            is Done,
    ensures
        event is Existing,
        event->Existing_0 is Ok,
        event->Existing_0->Ok_0 is Some,
        (event->Existing_0->Ok_0->0)@ == run.bytes,
{
}

/// A file that is there with other bytes is never replaced: the publication fails.
pub proof fn law_other_bytes_are_kept(
    run: PublicationView,
    written: bool,
    existing: Vec<u8>,
)
    requires
        run.phase == (PublicationPhase::Looking { written }),
        existing@ != run.bytes,
    ensures
        publication_step(run, PublicationEvent::Existing(Ok(Some(existing)))) == ending(
            run,
            written,
            Some(StoreFault::ImmutableCollision(run.kind)),
        ),
{
}

impl PublicationRun {
    /// A publication of bytes under a name, before anything was asked.
    pub fn new(
        filename: String,
        bytes: &[u8],
        kind: &'static str,
        durability: ReceiptDirectoryDurability,
    ) -> (run: PublicationRun)
        ensures
            run@ == (PublicationView {
                filename,
                bytes: bytes@,
                kind,
                durability,
                phase: PublicationPhase::Looking { written: false },
                fault: None,
            }),
    {
        PublicationRun {
            filename,
            bytes: copy_bytes(bytes),
            kind,
            durability,
            phase: PublicationPhase::Looking { written: false },
            fault: None,
        }
    }

    /// What the publication asks for.
    pub fn asks(&self) -> (action: PublicationAction)
        ensures
            action == publication_asks(self@),
    {
        match self.phase {
            PublicationPhase::Looking { .. } => PublicationAction::ReadExisting,
            PublicationPhase::VerifyingParent { .. } => PublicationAction::VerifyParent,
            PublicationPhase::Creating => PublicationAction::CreateTemporary,
            PublicationPhase::Writing => PublicationAction::WriteTemporary,
            PublicationPhase::Beginning => PublicationAction::BeginMutation,
            PublicationPhase::Renaming => PublicationAction::Rename,
            PublicationPhase::Syncing => PublicationAction::SyncDirectory(self.durability),
            PublicationPhase::Checking => PublicationAction::ReadExisting,
            PublicationPhase::Removing => PublicationAction::RemoveTemporary,
            PublicationPhase::Done => if self.fault.is_none() {
                PublicationAction::Succeeded
            } else {
                PublicationAction::Failed
            },
        }
    }

    /// Finds out whether the file is there with the right bytes.
    fn verify_existing(&self, read: Result<Option<Vec<u8>>, StoreFault>) -> (verdict: Result<
        bool,
        StoreFault,
    >)
        ensures
            verdict == existing_verdict(self.bytes@, self.kind, read),
    {
        match read {
            Ok(Some(existing)) => if same_bytes(existing.as_slice(), self.bytes.as_slice()) {
                Ok(true)
            } else {
                Err(StoreFault::ImmutableCollision(self.kind))
            },
            Ok(None) => Ok(false),
            Err(StoreFault::StoredLengthMismatch { .. }) => Err(
                StoreFault::ImmutableCollision(self.kind),
            ),
            Err(StoreFault::StoredFileTooLarge { .. }) => Err(
                StoreFault::ImmutableCollision(self.kind),
            ),
            Err(fault) => Err(fault),
        }
    }

    /// Ends the publication, once the other file is gone.
    fn end(&mut self, written: bool, fault: Option<StoreFault>)
        ensures
            final(self)@ == ending(old(self)@, written, fault),
    {
        self.phase = if written {
            PublicationPhase::Removing
        } else {
            PublicationPhase::Done
        };
        self.fault = fault;
    }

    /// Goes on after a step that either leads on or ends the publication.
    fn step(&mut self, outcome: Result<(), StoreFault>, phase: PublicationPhase)
        ensures
            final(self)@ == after_step(old(self)@, outcome, phase),
    {
        match outcome {
            Err(fault) => self.end(true, Some(fault)),
            Ok(()) => {
                self.phase = phase;
            },
        }
    }

    /// Goes on after looking for the file.
    fn look(&mut self, written: bool, read: Result<Option<Vec<u8>>, StoreFault>)
        ensures
            final(self)@ == after_looking(old(self)@, written, read),
    {
        let promoted = self.durability == ReceiptDirectoryDurability::PromotedAuthority;
        match self.verify_existing(read) {
            Err(fault) => self.end(written, Some(fault)),
            Ok(there) => {
                if there {
                    if promoted {
                        self.phase = PublicationPhase::VerifyingParent { written };
                    } else {
                        self.end(written, None);
                    }
                } else if !written {
                    self.phase = PublicationPhase::Creating;
                } else if promoted {
                    self.phase = PublicationPhase::Beginning;
                } else {
                    self.phase = PublicationPhase::Renaming;
                }
            },
        }
    }

    /// Takes an event and says what comes next.
    pub fn advance(&mut self, event: PublicationEvent) -> (action: PublicationAction)
        ensures
            final(self)@ == publication_step(old(self)@, event),
            action == publication_asks(final(self)@),
    {
        match (self.phase, event) {
            (PublicationPhase::Looking { written }, PublicationEvent::Existing(read)) => {
                self.look(written, read);
            },
            (PublicationPhase::VerifyingParent { written }, PublicationEvent::Outcome(outcome)) => {
                match outcome {
                    Err(fault) => self.end(written, Some(fault)),
                    Ok(()) => self.end(written, None),
                }
            },
            (PublicationPhase::Creating, PublicationEvent::Outcome(outcome)) => match outcome {
                Err(fault) => self.end(false, Some(fault)),
                Ok(()) => {
                    self.phase = PublicationPhase::Writing;
                },
            },
            (PublicationPhase::Writing, PublicationEvent::Outcome(outcome)) => {
                self.step(outcome, PublicationPhase::Looking { written: true });
            },
            (PublicationPhase::Beginning, PublicationEvent::Outcome(outcome)) => {
                self.step(outcome, PublicationPhase::Renaming);
            },
            (PublicationPhase::Renaming, PublicationEvent::Outcome(outcome)) => {
                self.step(outcome, PublicationPhase::Syncing);
            },
            (PublicationPhase::Syncing, PublicationEvent::Outcome(outcome)) => {
                self.step(outcome, PublicationPhase::Checking);
            },
            (PublicationPhase::Checking, PublicationEvent::Existing(read)) => {
                match self.verify_existing(read) {
                    Err(fault) => self.end(true, Some(fault)),
                    Ok(there) => {
                        if there {
                            self.end(true, None);
                        } else {
                            let lost = self.filename.clone();
                            self.end(true, Some(lose_publication(lost)));
                        }
                    },
                }
            },
            (PublicationPhase::Removing, PublicationEvent::Removed(removed)) => {
                self.phase = PublicationPhase::Done;
                if let Err(failure) = removed {
                    if self.fault.is_none() && failure.kind != IoFailureKind::NotFound {
                        self.fault = Some(StoreFault::Io(failure));
                    }
                }
            },
            _ => {},
        }
        self.asks()
    }
}

} // verus!
