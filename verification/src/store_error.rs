//! Why the receipt store refuses or fails.

use vstd::prelude::*;

use crate::annotation::ReceiptError;
use crate::hash::BlobDescription;
use crate::ids::{ProjectionIntentId, WorkspaceId};
use crate::manifest_error::ProjectionManifestError;

verus! {

/// The kinds of input and output failures that are told apart.
#[derive(Clone, Copy, Debug, PartialEq, Eq, Structural)]
pub enum IoFailureKind {
    NotFound,
    AlreadyExists,
    PermissionDenied,
    InvalidInput,
    InvalidData,
    Other,
}

/// What an error says: words of the library's own, such words with a name behind them, what another
/// component reported, or why a manifest is refused.
#[derive(Clone, Debug, PartialEq, Eq)]
pub enum Reason {
    Own(&'static str),
    Named { words: &'static str, name: String },
    Reported(String),
    Manifest(ProjectionManifestError),
}

/// A failed input or output operation, and whether the guarded writer refused it for what the file
/// holds.
#[derive(Clone, Debug, PartialEq, Eq)]
pub struct IoFailure {
    pub kind: IoFailureKind,
    pub message: Reason,
    pub semantic_refusal: bool,
}

/// What is wrong with an entry of the store: words of the library's own, such words with the
/// entry's name or what else was reported, the directory that an intent has in a namespace with
/// what was reported of it, or only what was reported.
#[derive(Clone, Debug, PartialEq, Eq)]
pub enum EntryFault {
    Own(&'static str),
    Named { fault: &'static str, name: String },
    IntentNamespace {
        namespace: &'static str,
        intent_id: ProjectionIntentId,
        report: Option<String>,
    },
    Reported(String),
}

/// What the storage below the receipt store reported.
#[derive(Clone, Debug, PartialEq, Eq)]
pub enum StoreFault {
    Io(IoFailure),
    /// An entry is not what it must be.
    UnsafeEntry(EntryFault),
    /// A file does not have the length that it must have.
    StoredLengthMismatch { path: String, expected: u64, actual: u64 },
    /// A file is longer than it may be.
    StoredFileTooLarge { path: String, length: u64, limit: u64 },
    /// A file that is never changed is there with other bytes.
    ImmutableCollision(&'static str),
    Reported(String),
}

/// Why the receipt store refuses or fails.
#[derive(Debug, PartialEq, Eq)]
pub enum ProjectionStoreError {
    Io(IoFailure),
    Store(StoreFault),
    Operation { operation: EntryFault, source: Box<ProjectionStoreError> },
    Receipt(ReceiptError),
    UnsafeEntry(EntryFault),
    UnknownStoreVersion(u32),
    UpgradeRequired { found: u32, current: u32 },
    MalformedStoreClaim,
    ClaimlessNonemptyStore,
    NamespaceSubstitution(EntryFault),
    EndpointBindingMismatch,
    GraphResourceMismatch,
    CapturedInputMismatch,
    MissingPriorCompletion,
    WorkspaceMismatch { expected: WorkspaceId, found: WorkspaceId },
    MissingBase(BlobDescription),
    UnexpectedBase,
    MissingIntent(ProjectionIntentId),
    BaseEvidenceMismatch(BlobDescription),
    PathBindingMismatch(&'static str),
    NonCanonical(&'static str),
    IntentCollision(ProjectionIntentId),
    EvidenceTooLarge { kind: &'static str, declared: u64, limit: u64 },
    MalformedEvidenceName(String),
    OrphanCompletion(String),
    WriteProofMismatch,
    RecoveryTargetMismatch,
    AttemptBindingMismatch,
    MissingTurnAttemptContext,
    MutationAuthorityMismatch,
    MutationAuthorityPending,
    MutationAuthorityTooLarge { attempts: usize, bytes: usize },
    ForensicBindingMismatch,
    UnreservedRecoveryEvidence,
    Decode(String),
    Encode(String),
}

/// The error of a fault of the storage below: data that is not valid counts as a failed operation
/// of the store's own.
pub open spec fn storage_error(fault: StoreFault) -> ProjectionStoreError {
    match fault {
        StoreFault::Io(failure) => if failure.kind == IoFailureKind::InvalidData {
            ProjectionStoreError::Io(failure)
        } else {
            ProjectionStoreError::Store(StoreFault::Io(failure))
        },
        other => ProjectionStoreError::Store(other),
    }
}

/// An error with what was being done.
pub open spec fn error_at(error: ProjectionStoreError, operation: &'static str) -> ProjectionStoreError {
    ProjectionStoreError::Operation {
        operation: EntryFault::Own(operation),
        source: Box::new(error),
    }
}

impl ProjectionStoreError {
    /// The error of a fault of the storage below.
    pub fn from_storage(fault: StoreFault) -> (error: ProjectionStoreError)
        ensures
            error == storage_error(fault),
    {
        match fault {
            StoreFault::Io(failure) => if failure.kind == IoFailureKind::InvalidData {
                ProjectionStoreError::Io(failure)
            } else {
                ProjectionStoreError::Store(StoreFault::Io(failure))
            },
            other => ProjectionStoreError::Store(other),
        }
    }

    /// The error with what was being done.
    pub fn at(self, operation: &'static str) -> (error: ProjectionStoreError)
        ensures
            error == error_at(self, operation),
    {
        ProjectionStoreError::Operation {
            operation: EntryFault::Own(operation),
            source: Box::new(self),
        }
    }
}

} // verus!
