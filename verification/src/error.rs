//! Why a projection is refused or fails.

use vstd::prelude::*;

use crate::annotation::ReceiptError;
use crate::ids::{BlockId, LogseqUuid};
use crate::store_error::{IoFailure, ProjectionStoreError, Reason};

verus! {

/// Why the engine refuses.
#[derive(Clone, Debug, PartialEq, Eq)]
pub enum EngineError {
    /// No current authorization can be given.
    ProjectionAuthorizationUnavailable,
    /// The index of projection work is inconsistent.
    ProjectionWork(Reason),
    /// Any other refusal.
    Other(String),
}

/// Why a projection is refused or fails.
#[derive(Debug, PartialEq, Eq)]
pub enum ProjectionError {
    Io(IoFailure),
    /// The guarded writer found that the live file no longer matches the work item.
    GuardedConflict(IoFailure),
    Engine(EngineError),
    Receipt(ReceiptError),
    Store(Box<ProjectionStoreError>),
    InvalidUtf8(&'static str),
    UnsupportedFormat(String),
    DuplicateBlock(BlockId),
    MissingParent { block: BlockId, parent: BlockId },
    CyclicTree(BlockId),
    EmptyOrder(BlockId),
    DuplicateLogseqClaim(LogseqUuid),
    AmbiguousRawLogseqId(LogseqUuid),
    InconsistentLogseqIdentityOrigin(BlockId),
    MissingExternalRawLogseqId { block: BlockId, logseq_uuid: LogseqUuid },
    ParserSpanMismatch,
    SpanInstrumentationMismatch,
    TreeTooWide,
    ProjectionTooLarge,
    RecoveryIntentMismatch,
    ReceiverSourceMismatch,
    ReceiverEndpointIsSource,
    ReceiverSourceAbsent,
    ReceiverBaseMismatch,
    EndpointBindingMismatch,
    Archive(Reason),
    Work(Reason),
    WorkNotReady,
    WorkIntentMismatch,
}

} // verus!
