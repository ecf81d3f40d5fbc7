//! Replaying a projection turn page by page, one decision at a time.

use vstd::prelude::*;

use crate::error::{EngineError, ProjectionError};
use crate::execution::{ProjectionEndpointBinding, ProjectionExecution};
use crate::hash::BlobDescription;
use crate::ids::{PageId, Uuid, WorkspaceId};
use crate::manifest::{
    ManifestProjectionTarget, ManifestedProjectionIntent, ManifestedProjectionIntentWire,
};
use crate::manifest_set::{
    intent_wires, object_set_verdict, validate_projection_object_set, OperationBatch,
    OperationObject,
};
use crate::page::optional_text;
use crate::store_error::{IoFailure, IoFailureKind, Reason};
use crate::turn::{ProjectionTurn, SequenceDomain, TurnOrigin, TurnPage, TurnTarget};
use crate::work::{
    decode_manifested_projection_work, decoded_work, ProjectionWork, ProjectionWorkTarget,
};

verus! {

/// How far a replay has come.
#[derive(Clone, Copy, Debug, PartialEq, Eq, Structural)]
pub enum TurnPhase {
    Endpoint,
    Batch,
    RepairInput,
    RepairAuthority,
    Opening,
    Listing,
    Entering { attempt_id: Uuid },
    ForeignBatch,
    Projecting,
    ObservedInput,
    ProbingStale,
    Executing,
    ProbingNotReady,
    NotReadyInput,
    RewriteAuthority,
    Rewriting,
    WorkObjects,
    RebarrierInput { then_bind: bool },
    Rebarriering { then_bind: bool },
    BaselineInput,
    Binding { description: BlobDescription },
    Closing,
    Done,
}

/// What has to be done, or found out, next.
#[derive(Debug, PartialEq, Eq)]
pub enum TurnAction {
    /// Find the endpoint that the engine is bound to.
    BindEndpoint,
    /// Read the turn's batch from the archive.
    ReadBatch,
    /// Read the file of the current page.
    ReadInput,
    /// Have the engine say whose superseded bytes the file holds.
    AuthorizeRepair,
    /// Open the durability barrier of the turn.
    OpenBarrier,
    /// List the accepted work that the turn's pages are found in.
    ListWork,
    /// Enter the attempt of the current page.
    EnterAttempt(Uuid),
    /// Project the found intent of another device.
    ProjectSource,
    /// Find out whether the file already holds what the work leaves.
    ProbeExact,
    /// Carry out the found work.
    ExecuteWork,
    /// Write the accepted page over the superseded bytes.
    RewriteExact,
    /// Read the found work's objects from the archive.
    ReadWorkObjects,
    /// Take the current page's file, as it was read, into the barrier.
    Rebarrier,
    /// Bind the baseline of the current page to these bytes.
    BindBaseline(BlobDescription),
    /// Close the durability barrier of the turn.
    CloseBarrier,
    /// The replay has ended.
    Finish(Result<(), ProjectionError>),
}

/// What reading a batch gave.
#[derive(Debug, PartialEq, Eq)]
pub enum BatchRead {
    NoArchive,
    Failed(String),
    NotReady,
    Ready { manifest: OperationBatch, objects: Vec<OperationObject> },
}

/// The objects that the archive gave for a piece of work.
#[derive(Debug, PartialEq, Eq)]
pub struct WorkObjects {
    pub intent: Result<OperationObject, String>,
    pub base: Result<OperationObject, String>,
}

/// What came of what was asked for.
#[derive(Debug, PartialEq, Eq)]
pub enum TurnEvent {
    Endpoint(Option<ProjectionEndpointBinding>),
    Batch(BatchRead),
    Input(Result<Option<Vec<u8>>, IoFailure>),
    Repair(Result<Option<PageId>, EngineError>),
    Barrier(Result<(), IoFailure>),
    Work(Result<Vec<ProjectionWork>, EngineError>),
    Entered,
    Projected(Result<Option<ProjectionExecution>, ProjectionError>),
    Probed(Result<bool, ProjectionError>),
    Executed(Result<ProjectionExecution, ProjectionError>),
    Rewritten(Result<(), ProjectionError>),
    Objects(Option<WorkObjects>),
    Rebarriered(Result<(), IoFailure>),
    Bound(Result<(), String>),
}

/// A turn that is being replayed.
#[derive(Debug, PartialEq, Eq)]
pub struct TurnRun {
    pub workspace_id: WorkspaceId,
    pub turn: ProjectionTurn,
    pub has_handoff: bool,
    pub phase: TurnPhase,
    pub endpoint: Option<ProjectionEndpointBinding>,
    /// The page that is replayed.
    pub page: usize,
    pub work: Vec<ProjectionWork>,
    /// The work that was found for the page.
    pub found: usize,
    /// The intents that the source of the page was found in.
    pub sources: Vec<ManifestedProjectionIntent>,
    /// The source that was found for the page.
    pub source: usize,
    /// The file of the page, as it was last read.
    pub observed: Option<Vec<u8>>,
    pub error: Option<ProjectionError>,
}

/// What a replay says.
pub struct TurnRunView {
    pub workspace_id: WorkspaceId,
    pub turn: ProjectionTurn,
    pub has_handoff: bool,
    pub phase: TurnPhase,
    pub endpoint: Option<ProjectionEndpointBinding>,
    pub page: int,
    pub work: Seq<ProjectionWork>,
    pub found: int,
    pub sources: Seq<ManifestedProjectionIntentWire>,
    pub source: int,
    pub observed: Option<Seq<u8>>,
    pub error: Option<ProjectionError>,
}

impl View for TurnRun {
    type V = TurnRunView;

    open spec fn view(&self) -> TurnRunView {
        TurnRunView {
            workspace_id: self.workspace_id,
            turn: self.turn,
            has_handoff: self.has_handoff,
            phase: self.phase,
            endpoint: self.endpoint,
            page: self.page as int,
            work: self.work@,
            found: self.found as int,
            sources: intent_wires(self.sources@),
            source: self.source as int,
            observed: optional_text(self.observed),
            error: self.error,
        }
    }
}

/// Where a replay goes next.
pub enum TurnStep {
    Ask(TurnRunView),
    Finish(Result<(), ProjectionError>),
}

/// What a replay asks for in a phase.
pub open spec fn turn_asks(phase: TurnPhase) -> TurnAction {
    match phase {
        TurnPhase::Endpoint => TurnAction::BindEndpoint,
        TurnPhase::Batch | TurnPhase::ForeignBatch => TurnAction::ReadBatch,
        TurnPhase::RepairInput
        | TurnPhase::ObservedInput
        | TurnPhase::NotReadyInput
        | TurnPhase::RebarrierInput { .. }
        | TurnPhase::BaselineInput => TurnAction::ReadInput,
        TurnPhase::RepairAuthority | TurnPhase::RewriteAuthority => TurnAction::AuthorizeRepair,
        TurnPhase::Opening => TurnAction::OpenBarrier,
        TurnPhase::Listing => TurnAction::ListWork,
        TurnPhase::Entering { attempt_id } => TurnAction::EnterAttempt(attempt_id),
        TurnPhase::Projecting => TurnAction::ProjectSource,
        TurnPhase::ProbingStale | TurnPhase::ProbingNotReady => TurnAction::ProbeExact,
        TurnPhase::Executing => TurnAction::ExecuteWork,
        TurnPhase::Rewriting => TurnAction::RewriteExact,
        TurnPhase::WorkObjects => TurnAction::ReadWorkObjects,
        TurnPhase::Rebarriering { .. } => TurnAction::Rebarrier,
        TurnPhase::Binding { description } => TurnAction::BindBaseline(description),
        TurnPhase::Closing => TurnAction::CloseBarrier,
        TurnPhase::Done => TurnAction::Finish(Ok(())),
    }
}

/// The replay in another phase.
pub open spec fn turn_in(run: TurnRunView, phase: TurnPhase) -> TurnStep {
    TurnStep::Ask(TurnRunView { phase, ..run })
}

/// The end of a replay before its barrier was opened.
pub open spec fn turn_refused(error: ProjectionError) -> TurnStep {
    TurnStep::Finish(Err(error))
}

/// An error of a replay once its barrier is open: the barrier is closed first.
pub open spec fn turn_fails(run: TurnRunView, error: ProjectionError) -> TurnStep {
    TurnStep::Ask(TurnRunView { phase: TurnPhase::Closing, error: Some(error), ..run })
}

/// Whether a turn is for this workspace, endpoint and device.
pub open spec fn turn_is_bound(
    workspace_id: WorkspaceId,
    turn: ProjectionTurn,
    endpoint: ProjectionEndpointBinding,
) -> bool {
    &&& turn.workspace_id == workspace_id
    &&& turn.endpoint_id == endpoint.endpoint_id
    &&& turn.domain == SequenceDomain::ProjectionTurn ==> turn.device_id == endpoint.device_id.uuid
}

/// Where a replay goes once its batch is complete: a turn that repairs a superseded file looks at
/// that file first, and is of that one page.
pub open spec fn turn_after_batch(run: TurnRunView) -> TurnStep {
    match run.turn.origin {
        TurnOrigin::SupersededRepair { page_id, .. } => if run.turn.pages@.len() != 1
            || run.turn.pages@[0].page_id != page_id {
            turn_refused(ProjectionError::WorkIntentMismatch)
        } else {
            turn_in(run, TurnPhase::RepairInput)
        },
        _ => turn_in(run, TurnPhase::Opening),
    }
}

/// Where a replay goes with `page` pages behind it.
pub open spec fn turn_at_page(run: TurnRunView, page: int) -> TurnStep {
    if page >= run.turn.pages@.len() {
        TurnStep::Ask(TurnRunView { phase: TurnPhase::Closing, page, ..run })
    } else if page >= run.turn.attempt_ids@.len() {
        turn_fails(TurnRunView { page, ..run }, ProjectionError::WorkIntentMismatch)
    } else {
        TurnStep::Ask(
            TurnRunView {
                phase: TurnPhase::Entering { attempt_id: run.turn.attempt_ids@[page] },
                page,
                ..run
            },
        )
    }
}

/// Whether what a turn recorded is what an intent of a batch leaves.
pub open spec fn source_leaves(target: ManifestProjectionTarget, recorded: TurnTarget) -> bool {
    match (target, recorded) {
        (ManifestProjectionTarget::Absent, TurnTarget::Absent) => true,
        (
            ManifestProjectionTarget::Present { description, .. },
            TurnTarget::Present { description: recorded, .. },
        ) => description == recorded,
        _ => false,
    }
}

/// Whether what a turn recorded is what a piece of work leaves.
pub open spec fn work_leaves(target: ProjectionWorkTarget, recorded: TurnTarget) -> bool {
    match (target, recorded) {
        (ProjectionWorkTarget::Absent, TurnTarget::Absent) => true,
        (
            ProjectionWorkTarget::Present(description),
            TurnTarget::Present { description: recorded, .. },
        ) => description == recorded,
        _ => false,
    }
}

/// Whether an intent of a batch is that of a page of a turn.
pub open spec fn source_of_page(source: ManifestedProjectionIntentWire, page: TurnPage) -> bool {
    &&& source.page_id == page.page_id
    &&& source.path.text@ == page.path.text@
    &&& source.post_frontier@ == page.frontier@
    &&& source_leaves(source.target, page.target)
}

/// Whether a piece of work is that of a page of a turn.
pub open spec fn work_of_page(work: ProjectionWork, page: TurnPage) -> bool {
    &&& work.page_id == page.page_id
    &&& work.path.text@ == page.path.text@
    &&& work.post_frontier@ == page.frontier@
    &&& work_leaves(work.target, page.target)
}

/// The first of the intents from `at` on that is that of a page.
pub open spec fn first_source(
    sources: Seq<ManifestedProjectionIntentWire>,
    page: TurnPage,
    at: int,
) -> Option<int>
    decreases sources.len() - at,
{
    if at < 0 || at >= sources.len() {
        None
    } else if source_of_page(sources[at], page) {
        Some(at)
    } else {
        first_source(sources, page, at + 1)
    }
}

/// The first piece of work from `at` on that is that of a page.
pub open spec fn first_work(work: Seq<ProjectionWork>, page: TurnPage, at: int) -> Option<int>
    decreases work.len() - at,
{
    if at < 0 || at >= work.len() {
        None
    } else if work_of_page(work[at], page) {
        Some(at)
    } else {
        first_work(work, page, at + 1)
    }
}

/// Whether the file still holds what the turn recorded.
pub open spec fn target_is_recorded(target: TurnTarget, observed: Option<Seq<u8>>) -> bool {
    match (target, observed) {
        (TurnTarget::Absent, None) => true,
        (TurnTarget::Present { description, .. }, Some(bytes)) => BlobDescription::spec_of(bytes)
            == description,
        _ => false,
    }
}

/// Where a replay goes with the source of the page found.
pub open spec fn turn_projects(run: TurnRunView) -> TurnStep {
    if run.has_handoff {
        turn_in(run, TurnPhase::Projecting)
    } else {
        turn_fails(
            run,
            ProjectionError::Work(Reason::Own("receiver projection turn requires a handoff")),
        )
    }
}

/// Where a replay goes once the file is known to be as it should be and recorded work is found:
/// this endpoint's work is carried out, another's is projected from its intent.
pub open spec fn turn_carries_out(run: TurnRunView) -> TurnStep {
    if run.work[run.found].endpoint_id == run.endpoint->0.endpoint_id {
        turn_in(run, TurnPhase::Executing)
    } else {
        turn_in(run, TurnPhase::WorkObjects)
    }
}

/// Where a replay goes while it makes sure that the turn is this device's.
#[verifier::opaque]
pub open spec fn turn_check(run: TurnRunView, event: TurnEvent) -> TurnStep {
    match (run.phase, event) {
        (TurnPhase::Endpoint, TurnEvent::Endpoint(endpoint)) => match endpoint {
            None => turn_refused(ProjectionError::EndpointBindingMismatch),
            Some(binding) => if !turn_is_bound(run.workspace_id, run.turn, binding) {
                turn_refused(ProjectionError::EndpointBindingMismatch)
            } else {
                let bound = TurnRunView { endpoint, ..run };
                if run.turn.origin.spec_batch_id() is Some {
                    turn_in(bound, TurnPhase::Batch)
                } else {
                    turn_after_batch(bound)
                }
            },
        },
        (TurnPhase::Batch, TurnEvent::Batch(read)) => match read {
            BatchRead::NoArchive => turn_refused(
                ProjectionError::Archive(Reason::Own("projection turn has no accepted archive")),
            ),
            BatchRead::Failed(message) => turn_refused(
                ProjectionError::Archive(Reason::Reported(message)),
            ),
            BatchRead::NotReady => turn_refused(
                ProjectionError::Work(Reason::Own("projection turn origin batch is not complete")),
            ),
            BatchRead::Ready { .. } => turn_after_batch(run),
        },
        _ => TurnStep::Ask(run),
    }
}

/// Where a replay goes while it looks at a superseded file.
#[verifier::opaque]
pub open spec fn turn_repair(run: TurnRunView, event: TurnEvent) -> TurnStep {
    match (run.phase, event) {
        (TurnPhase::RepairInput, TurnEvent::Input(input)) => match input {
            Err(failure) => turn_refused(ProjectionError::Io(failure)),
            Ok(None) => turn_refused(ProjectionError::WorkNotReady),
            Ok(Some(bytes)) => if run.turn.origin is SupersededRepair && BlobDescription::spec_of(
                bytes@,
            ) == run.turn.origin->observed {
                turn_in(
                    TurnRunView { observed: Some(bytes@), ..run },
                    TurnPhase::RepairAuthority,
                )
            } else {
                turn_refused(
                    ProjectionError::GuardedConflict(
                        IoFailure {
                            kind: IoFailureKind::Other,
                            message: Reason::Own(
                                "superseded projection repair observed externally diverged bytes",
                            ),
                            semantic_refusal: false,
                        },
                    ),
                )
            },
        },
        (TurnPhase::RepairAuthority, TurnEvent::Repair(owner)) => match owner {
            Err(error) => turn_refused(ProjectionError::Engine(error)),
            Ok(owner) => if run.turn.origin is SupersededRepair && owner == Some(
                run.turn.origin->page_id,
            ) {
                turn_in(run, TurnPhase::Opening)
            } else {
                turn_refused(ProjectionError::WorkNotReady)
            },
        },
        _ => TurnStep::Ask(run),
    }
}

/// Where a replay goes while it opens its barrier and lists the work.
#[verifier::opaque]
pub open spec fn turn_open(run: TurnRunView, event: TurnEvent) -> TurnStep {
    match (run.phase, event) {
        (TurnPhase::Opening, TurnEvent::Barrier(opened)) => match opened {
            Err(failure) => turn_refused(ProjectionError::Io(failure)),
            Ok(()) => turn_in(run, TurnPhase::Listing),
        },
        (TurnPhase::Listing, TurnEvent::Work(work)) => match work {
            Err(error) => turn_fails(run, ProjectionError::Engine(error)),
            Ok(work) => turn_at_page(TurnRunView { work: work@, ..run }, 0),
        },
        _ => TurnStep::Ask(run),
    }
}

/// Where a replay goes while it finds what a page stands for.
#[verifier::opaque]
pub open spec fn turn_enter(run: TurnRunView, event: TurnEvent) -> TurnStep {
    match (run.phase, event) {
        (TurnPhase::Entering { .. }, TurnEvent::Entered) => if run.turn.origin.spec_is_foreign() {
            if run.turn.origin.spec_batch_id() is Some {
                turn_in(run, TurnPhase::ForeignBatch)
            } else {
                turn_fails(run, ProjectionError::WorkIntentMismatch)
            }
        } else {
            match first_work(run.work, run.turn.pages@[run.page], 0) {
                None => turn_fails(run, ProjectionError::WorkNotReady),
                Some(found) => turn_in(
                    TurnRunView { found, ..run },
                    TurnPhase::ObservedInput,
                ),
            }
        },
        (TurnPhase::ForeignBatch, TurnEvent::Batch(read)) => match read {
            BatchRead::NoArchive => turn_fails(
                run,
                ProjectionError::Archive(Reason::Own("receiver turn has no accepted archive")),
            ),
            BatchRead::Failed(message) => turn_fails(
                run,
                ProjectionError::Archive(Reason::Reported(message)),
            ),
            BatchRead::NotReady => turn_fails(run, ProjectionError::WorkNotReady),
            BatchRead::Ready { manifest, objects } => match object_set_verdict(
                manifest,
                objects@,
            ) {
                Err(error) => turn_fails(run, ProjectionError::Archive(Reason::Manifest(error))),
                Ok(scanned) => match first_source(
                    scanned.intents,
                    run.turn.pages@[run.page],
                    0,
                ) {
                    None => turn_fails(run, ProjectionError::WorkIntentMismatch),
                    Some(source) => turn_projects(
                        TurnRunView { sources: scanned.intents, source, ..run },
                    ),
                },
            },
        },
        _ => TurnStep::Ask(run),
    }
}

/// Where a replay goes once another device's intent was projected.
#[verifier::opaque]
pub open spec fn turn_received(run: TurnRunView, event: TurnEvent) -> TurnStep {
    match (run.phase, event) {
        (TurnPhase::Projecting, TurnEvent::Projected(projected)) => match projected {
            Err(error) => turn_fails(run, error),
            Ok(None) => turn_fails(run, ProjectionError::WorkNotReady),
            Ok(Some(ProjectionExecution::NeedsTurnRebarrier)) => turn_in(
                run,
                TurnPhase::RebarrierInput { then_bind: true },
            ),
            Ok(Some(_)) => turn_in(run, TurnPhase::BaselineInput),
        },
        (TurnPhase::WorkObjects, TurnEvent::Objects(objects)) => match objects {
            None => turn_fails(
                run,
                ProjectionError::Archive(Reason::Own("receiver turn has no accepted archive")),
            ),
            Some(objects) => match decoded_work(
                run.work[run.found],
                objects.intent,
                objects.base,
            ) {
                Err(error) => turn_fails(run, error),
                Ok(decoded) => turn_projects(
                    TurnRunView { sources: seq![decoded.manifested], source: 0, ..run },
                ),
            },
        },
        _ => TurnStep::Ask(run),
    }
}

/// Where a replay goes while it compares the file with what the turn recorded. Bytes that differ,
/// and are what is accepted now, are left to whoever wrote them.
#[verifier::opaque]
pub open spec fn turn_observe(run: TurnRunView, event: TurnEvent) -> TurnStep {
    match (run.phase, event) {
        (TurnPhase::ObservedInput, TurnEvent::Input(input)) => match input {
            Err(failure) => turn_fails(run, ProjectionError::Io(failure)),
            Ok(input) => {
                let seen = TurnRunView { observed: optional_text(input), ..run };
                if target_is_recorded(run.turn.pages@[run.page].target, seen.observed) {
                    turn_carries_out(seen)
                } else {
                    turn_in(seen, TurnPhase::ProbingStale)
                }
            },
        },
        (TurnPhase::ProbingStale, TurnEvent::Probed(exact)) => match exact {
            Err(error) => turn_fails(run, error),
            Ok(true) => turn_in(run, TurnPhase::Rebarriering { then_bind: false }),
            Ok(false) => turn_carries_out(run),
        },
        _ => TurnStep::Ask(run),
    }
}

/// Where a replay goes while it carries out this endpoint's work.
#[verifier::opaque]
pub open spec fn turn_execute(run: TurnRunView, event: TurnEvent) -> TurnStep {
    match (run.phase, event) {
        (TurnPhase::Executing, TurnEvent::Executed(executed)) => match executed {
            Err(ProjectionError::WorkNotReady) => turn_in(run, TurnPhase::ProbingNotReady),
            Err(error) => turn_fails(run, error),
            Ok(ProjectionExecution::NeedsTurnRebarrier) => turn_in(
                run,
                TurnPhase::RebarrierInput { then_bind: true },
            ),
            Ok(_) => turn_in(run, TurnPhase::BaselineInput),
        },
        (TurnPhase::ProbingNotReady, TurnEvent::Probed(exact)) => match exact {
            Err(error) => turn_fails(run, error),
            Ok(true) => turn_in(run, TurnPhase::RebarrierInput { then_bind: false }),
            Ok(false) => turn_in(run, TurnPhase::NotReadyInput),
        },
        (TurnPhase::NotReadyInput, TurnEvent::Input(input)) => match input {
            Err(failure) => turn_fails(run, ProjectionError::Io(failure)),
            Ok(None) => turn_fails(run, ProjectionError::WorkNotReady),
            Ok(Some(bytes)) => turn_in(
                TurnRunView { observed: Some(bytes@), ..run },
                TurnPhase::RewriteAuthority,
            ),
        },
        (TurnPhase::RewriteAuthority, TurnEvent::Repair(owner)) => match owner {
            Err(error) => turn_fails(run, ProjectionError::Engine(error)),
            Ok(owner) => if owner == Some(run.work[run.found].page_id) {
                turn_in(run, TurnPhase::Rewriting)
            } else {
                turn_fails(run, ProjectionError::WorkNotReady)
            },
        },
        (TurnPhase::Rewriting, TurnEvent::Rewritten(rewritten)) => match rewritten {
            Err(error) => turn_fails(run, error),
            Ok(()) => turn_in(run, TurnPhase::BaselineInput),
        },
        _ => TurnStep::Ask(run),
    }
}

/// Where a replay goes while it settles a page and goes on to the next.
#[verifier::opaque]
pub open spec fn turn_settle(run: TurnRunView, event: TurnEvent) -> TurnStep {
    match (run.phase, event) {
        (TurnPhase::RebarrierInput { then_bind }, TurnEvent::Input(input)) => match input {
            Err(failure) => turn_fails(run, ProjectionError::Io(failure)),
            Ok(input) => turn_in(
                TurnRunView { observed: optional_text(input), ..run },
                TurnPhase::Rebarriering { then_bind },
            ),
        },
        (TurnPhase::Rebarriering { then_bind }, TurnEvent::Rebarriered(done)) => match done {
            Err(failure) => turn_fails(run, ProjectionError::Io(failure)),
            Ok(()) => if then_bind {
                turn_in(run, TurnPhase::BaselineInput)
            } else {
                turn_at_page(run, run.page + 1)
            },
        },
        (TurnPhase::BaselineInput, TurnEvent::Input(input)) => match input {
            Err(failure) => turn_fails(run, ProjectionError::Io(failure)),
            Ok(None) => turn_at_page(run, run.page + 1),
            Ok(Some(bytes)) => turn_in(
                run,
                TurnPhase::Binding { description: BlobDescription::spec_of(bytes@) },
            ),
        },
        (TurnPhase::Binding { .. }, TurnEvent::Bound(bound)) => match bound {
            Err(message) => turn_fails(run, ProjectionError::Work(Reason::Reported(message))),
            Ok(()) => turn_at_page(run, run.page + 1),
        },
        (TurnPhase::Closing, TurnEvent::Barrier(closed)) => TurnStep::Finish(
            match run.error {
                Some(error) => Err(error),
                None => match closed {
                    Err(failure) => Err(ProjectionError::Io(failure)),
                    Ok(()) => Ok(()),
                },
            },
        ),
        _ => TurnStep::Ask(run),
    }
}

/// Where a replay goes on an event. An event that answers nothing that was asked changes nothing.
pub open spec fn turn_step(run: TurnRunView, event: TurnEvent) -> TurnStep {
    match run.phase {
        TurnPhase::Endpoint | TurnPhase::Batch => turn_check(run, event),
        TurnPhase::RepairInput | TurnPhase::RepairAuthority => turn_repair(run, event),
        TurnPhase::Opening | TurnPhase::Listing => turn_open(run, event),
        TurnPhase::Entering { .. } | TurnPhase::ForeignBatch => turn_enter(run, event),
        TurnPhase::Projecting | TurnPhase::WorkObjects => turn_received(run, event),
        TurnPhase::ObservedInput | TurnPhase::ProbingStale => turn_observe(run, event),
        TurnPhase::Executing
        | TurnPhase::ProbingNotReady
        | TurnPhase::NotReadyInput
        | TurnPhase::RewriteAuthority
        | TurnPhase::Rewriting => turn_execute(run, event),
        TurnPhase::RebarrierInput { .. }
        | TurnPhase::Rebarriering { .. }
        | TurnPhase::BaselineInput
        | TurnPhase::Binding { .. }
        | TurnPhase::Closing => turn_settle(run, event),
        TurnPhase::Done => TurnStep::Ask(run),
    }
}

/// Whether a phase is inside the barrier.
pub open spec fn inside_barrier(phase: TurnPhase) -> bool {
    !(phase is Endpoint || phase is Batch || phase is RepairInput || phase is RepairAuthority
        || phase is Opening || phase is Done)
}

/// Whether a phase is about a page.
pub open spec fn about_a_page(phase: TurnPhase) -> bool {
    inside_barrier(phase) && !(phase is Listing || phase is Closing)
}

/// Whether a phase is about a piece of work.
pub open spec fn about_work(phase: TurnPhase) -> bool {
    phase is ObservedInput || phase is ProbingStale || phase is Executing
        || phase is ProbingNotReady || phase is NotReadyInput || phase is RewriteAuthority
        || phase is Rewriting || phase is WorkObjects
}

/// What holds of a replay between two events.
pub open spec fn turn_run_wf(run: TurnRunView) -> bool {
    &&& !(run.phase is Endpoint || run.phase is Done) ==> run.endpoint is Some && turn_is_bound(
        run.workspace_id,
        run.turn,
        run.endpoint->0,
    )
    &&& about_a_page(run.phase) ==> 0 <= run.page < run.turn.pages@.len()
    &&& about_work(run.phase) ==> 0 <= run.found < run.work.len() && work_of_page(
        run.work[run.found],
        run.turn.pages@[run.page],
    )
    &&& run.phase is Executing ==> run.work[run.found].endpoint_id == run.endpoint->0.endpoint_id
    &&& run.phase is Projecting ==> run.has_handoff && 0 <= run.source < run.sources.len()
    &&& !(run.phase is Closing || run.phase is Done) ==> run.error is None
}

/// A found source is one of the intents and that of the page.
pub proof fn lemma_first_source(
    sources: Seq<ManifestedProjectionIntentWire>,
    page: TurnPage,
    at: int,
)
    requires
        0 <= at,
    ensures
        first_source(sources, page, at) matches Some(found) ==> at <= found < sources.len()
            && source_of_page(sources[found], page),
    decreases sources.len() - at,
{
    if at < sources.len() && !source_of_page(sources[at], page) {
        lemma_first_source(sources, page, at + 1);
    }
}

/// A found piece of work is one of the pieces and that of the page.
pub proof fn lemma_first_work(work: Seq<ProjectionWork>, page: TurnPage, at: int)
    requires
        0 <= at,
    ensures
        first_work(work, page, at) matches Some(found) ==> at <= found < work.len()
            && work_of_page(work[found], page),
    decreases work.len() - at,
{
    if at < work.len() && !work_of_page(work[at], page) {
        lemma_first_work(work, page, at + 1);
    }
}

/// A replay whose barrier is open ends only by closing it, and an error of a page is what it ends
/// with, whatever closing the barrier gave.
pub proof fn law_barrier_is_closed(run: TurnRunView, event: TurnEvent)
    requires
        inside_barrier(run.phase),
        turn_step(run, event) is Finish,
    ensures
        turn_asks(run.phase) == TurnAction::CloseBarrier,
        run.error is Some ==> turn_step(run, event) == TurnStep::Finish(Err(run.error->0)),
{
    reveal(turn_open);
    reveal(turn_enter);
    reveal(turn_received);
    reveal(turn_observe);
    reveal(turn_execute);
    reveal(turn_settle);
}

/// Pages are replayed in the order of the record: an event leaves the page or goes on to the next.
pub proof fn law_pages_are_replayed_in_order(run: TurnRunView, event: TurnEvent)
    requires
        about_a_page(run.phase),
        turn_step(run, event) is Ask,
    ensures
        turn_step(run, event)->Ask_0.page == run.page || turn_step(run, event)->Ask_0.page
            == run.page + 1,
        turn_step(run, event)->Ask_0.turn == run.turn,
{
    reveal(turn_enter);
    reveal(turn_received);
    reveal(turn_observe);
    reveal(turn_execute);
    reveal(turn_settle);
}

/// Work is carried out only where it is this endpoint's and that of the page.
pub proof fn law_only_own_work_is_executed(run: TurnRunView)
    requires
        turn_run_wf(run),
        turn_asks(run.phase) == TurnAction::ExecuteWork,
    ensures
        run.work[run.found].endpoint_id == run.turn.endpoint_id,
        work_of_page(run.work[run.found], run.turn.pages@[run.page]),
{
}

/// Whether a replay is where it goes next and asks for that, or has ended.
pub open spec fn turn_goes(step: TurnStep, after: TurnRunView, action: TurnAction) -> bool {
    &&& turn_run_wf(after)
    &&& match step {
        TurnStep::Ask(next) => after == next && action == turn_asks(next.phase),
        TurnStep::Finish(outcome) => action == TurnAction::Finish(outcome) && after.phase is Done,
    }
}

/// Whether an intent of a batch is that of a page of a turn.
fn is_source_of_page(source: &ManifestedProjectionIntent, page: &TurnPage) -> (is: bool)
    ensures
        is == source_of_page(source.wire(), *page),
{
    source.page_id() == page.page_id && source.path().same(&page.path)
        && source.post_frontier().same(&page.frontier) && match (source.target(), &page.target) {
        (ManifestProjectionTarget::Absent, TurnTarget::Absent) => true,
        (
            ManifestProjectionTarget::Present { description, .. },
            TurnTarget::Present { description: recorded, .. },
        ) => *description == *recorded,
        _ => false,
    }
}

/// Whether a piece of work is that of a page of a turn.
fn is_work_of_page(work: &ProjectionWork, page: &TurnPage) -> (is: bool)
    ensures
        is == work_of_page(*work, *page),
{
    work.page_id == page.page_id && work.path.same(&page.path) && work.post_frontier.same(
        &page.frontier,
    ) && match (&work.target, &page.target) {
        (ProjectionWorkTarget::Absent, TurnTarget::Absent) => true,
        (
            ProjectionWorkTarget::Present(description),
            TurnTarget::Present { description: recorded, .. },
        ) => *description == *recorded,
        _ => false,
    }
}

/// Finds the first intent that is that of a page.
fn find_source(sources: &Vec<ManifestedProjectionIntent>, page: &TurnPage) -> (found: Option<usize>)
    ensures
        match first_source(intent_wires(sources@), *page, 0) {
            None => found is None,
            Some(at) => found is Some && found->0 == at,
        },
{
    let mut at: usize = 0;
    while at < sources.len()
        invariant
            at <= sources@.len(),
            first_source(intent_wires(sources@), *page, 0) == first_source(
                intent_wires(sources@),
                *page,
                at as int,
            ),
        decreases sources@.len() - at,
    {
        assert(intent_wires(sources@)[at as int] == sources@[at as int].wire());
        if is_source_of_page(&sources[at], page) {
            return Some(at);
        }
        at = at + 1;
    }
    None
}

/// Finds the first piece of work that is that of a page.
fn find_work(work: &Vec<ProjectionWork>, page: &TurnPage) -> (found: Option<usize>)
    ensures
        match first_work(work@, *page, 0) {
            None => found is None,
            Some(at) => found is Some && found->0 == at,
        },
{
    let mut at: usize = 0;
    while at < work.len()
        invariant
            at <= work@.len(),
            first_work(work@, *page, 0) == first_work(work@, *page, at as int),
        decreases work@.len() - at,
    {
        if is_work_of_page(&work[at], page) {
            return Some(at);
        }
        at = at + 1;
    }
    None
}

impl TurnRun {
    /// The replay of a turn, before anything was asked.
    pub fn new(workspace_id: WorkspaceId, turn: ProjectionTurn, has_handoff: bool) -> (run: TurnRun)
        ensures
            run@ == (TurnRunView {
                workspace_id,
                turn,
                has_handoff,
                phase: TurnPhase::Endpoint,
                endpoint: None,
                page: 0,
                work: Seq::empty(),
                found: 0,
                sources: Seq::empty(),
                source: 0,
                observed: None,
                error: None,
            }),
            turn_run_wf(run@),
    {
        let run = TurnRun {
            workspace_id,
            turn,
            has_handoff,
            phase: TurnPhase::Endpoint,
            endpoint: None,
            page: 0,
            work: Vec::new(),
            found: 0,
            sources: Vec::new(),
            source: 0,
            observed: None,
            error: None,
        };
        assert(run@.work =~= Seq::<ProjectionWork>::empty());
        assert(run@.sources =~= Seq::<ManifestedProjectionIntentWire>::empty());
        run
    }

    /// What the replay asks for.
    pub fn asks(&self) -> (action: TurnAction)
        ensures
            action == turn_asks(self.phase),
    {
        match self.phase {
            TurnPhase::Endpoint => TurnAction::BindEndpoint,
            TurnPhase::Batch | TurnPhase::ForeignBatch => TurnAction::ReadBatch,
            TurnPhase::RepairInput
            | TurnPhase::ObservedInput
            | TurnPhase::NotReadyInput
            | TurnPhase::RebarrierInput { .. }
            | TurnPhase::BaselineInput => TurnAction::ReadInput,
            TurnPhase::RepairAuthority
            | TurnPhase::RewriteAuthority => TurnAction::AuthorizeRepair,
            TurnPhase::Opening => TurnAction::OpenBarrier,
            TurnPhase::Listing => TurnAction::ListWork,
            TurnPhase::Entering { attempt_id } => TurnAction::EnterAttempt(attempt_id),
            TurnPhase::Projecting => TurnAction::ProjectSource,
            TurnPhase::ProbingStale | TurnPhase::ProbingNotReady => TurnAction::ProbeExact,
            TurnPhase::Executing => TurnAction::ExecuteWork,
            TurnPhase::Rewriting => TurnAction::RewriteExact,
            TurnPhase::WorkObjects => TurnAction::ReadWorkObjects,
            TurnPhase::Rebarriering { .. } => TurnAction::Rebarrier,
            TurnPhase::Binding { description } => TurnAction::BindBaseline(description),
            TurnPhase::Closing => TurnAction::CloseBarrier,
            TurnPhase::Done => TurnAction::Finish(Ok(())),
        }
    }

    /// Takes an event and says what comes next.
    pub fn advance(&mut self, event: TurnEvent) -> (action: TurnAction)
        requires
            turn_run_wf(old(self)@),
        ensures
            turn_goes(turn_step(old(self)@, event), final(self)@, action),
    {
        match self.phase {
            TurnPhase::Endpoint | TurnPhase::Batch => self.check(event),
            TurnPhase::RepairInput | TurnPhase::RepairAuthority => self.repair(event),
            TurnPhase::Opening | TurnPhase::Listing => self.open(event),
            TurnPhase::Entering { .. } | TurnPhase::ForeignBatch => self.enter(event),
            TurnPhase::Projecting | TurnPhase::WorkObjects => self.receive(event),
            TurnPhase::ObservedInput | TurnPhase::ProbingStale => self.observe(event),
            TurnPhase::Executing
            | TurnPhase::ProbingNotReady
            | TurnPhase::NotReadyInput
            | TurnPhase::RewriteAuthority
            | TurnPhase::Rewriting => self.execute(event),
            TurnPhase::RebarrierInput { .. }
            | TurnPhase::Rebarriering { .. }
            | TurnPhase::BaselineInput
            | TurnPhase::Binding { .. }
            | TurnPhase::Closing => self.settle(event),
            TurnPhase::Done => self.asks(),
        }
    }

    /// Ends the replay.
    fn finish(&mut self, outcome: Result<(), ProjectionError>) -> (action: TurnAction)
        ensures
            action == TurnAction::Finish(outcome),
            final(self).phase is Done,
            turn_run_wf(final(self)@),
    {
        self.phase = TurnPhase::Done;
        TurnAction::Finish(outcome)
    }

    /// Closes the barrier after an error.
    fn fail(&mut self, error: ProjectionError) -> (action: TurnAction)
        requires
            old(self).endpoint is Some,
            turn_is_bound(old(self).workspace_id, old(self).turn, old(self).endpoint->0),
        ensures
            turn_goes(turn_fails(old(self)@, error), final(self)@, action),
    {
        self.error = Some(error);
        self.phase = TurnPhase::Closing;
        self.asks()
    }

    /// Goes on to the page at `page`, or closes the barrier.
    fn go_to(&mut self, page: usize) -> (action: TurnAction)
        requires
            old(self).endpoint is Some,
            turn_is_bound(old(self).workspace_id, old(self).turn, old(self).endpoint->0),
            old(self).error is None,
        ensures
            turn_goes(turn_at_page(old(self)@, page as int), final(self)@, action),
    {
        self.page = page;
        if page >= self.turn.pages.len() {
            self.phase = TurnPhase::Closing;
            return self.asks();
        }
        match self.turn.attempt_id(page) {
            None => self.fail(ProjectionError::WorkIntentMismatch),
            Some(attempt_id) => {
                self.phase = TurnPhase::Entering { attempt_id };
                self.asks()
            },
        }
    }

    /// Goes on to the next page, or closes the barrier.
    fn next_page(&mut self) -> (action: TurnAction)
        requires
            turn_run_wf(old(self)@),
            about_a_page(old(self).phase),
        ensures
            turn_goes(turn_at_page(old(self)@, old(self).page + 1), final(self)@, action),
    {
        let pages: usize = self.turn.pages.len();
        assert(self.page < pages);
        self.go_to(self.page + 1)
    }

    /// Goes on once the batch is complete.
    fn after_batch(&mut self) -> (action: TurnAction)
        requires
            old(self).endpoint is Some,
            turn_is_bound(old(self).workspace_id, old(self).turn, old(self).endpoint->0),
            old(self).error is None,
        ensures
            turn_goes(turn_after_batch(old(self)@), final(self)@, action),
    {
        match self.turn.origin {
            TurnOrigin::SupersededRepair { page_id, .. } => {
                if self.turn.pages.len() != 1 || self.turn.pages[0].page_id != page_id {
                    return self.finish(Err(ProjectionError::WorkIntentMismatch));
                }
                self.phase = TurnPhase::RepairInput;
            },
            _ => {
                self.phase = TurnPhase::Opening;
            },
        }
        self.asks()
    }

    /// Makes sure that the turn is this device's.
    fn check(&mut self, event: TurnEvent) -> (action: TurnAction)
        requires
            turn_run_wf(old(self)@),
            old(self).phase is Endpoint || old(self).phase is Batch,
        ensures
            turn_goes(turn_check(old(self)@, event), final(self)@, action),
    {
        reveal(turn_check);
        match (self.phase, event) {
            (TurnPhase::Endpoint, TurnEvent::Endpoint(endpoint)) => {
                let binding = match endpoint {
                    None => return self.finish(Err(ProjectionError::EndpointBindingMismatch)),
                    Some(binding) => binding,
                };
                if self.turn.workspace_id != self.workspace_id || self.turn.endpoint_id
                    != binding.endpoint_id || (self.turn.domain == SequenceDomain::ProjectionTurn
                    && self.turn.device_id != binding.device_id.uuid) {
                    return self.finish(Err(ProjectionError::EndpointBindingMismatch));
                }
                self.endpoint = Some(binding);
                if self.turn.origin.batch_id().is_none() {
                    return self.after_batch();
                }
                self.phase = TurnPhase::Batch;
            },
            (TurnPhase::Batch, TurnEvent::Batch(read)) => match read {
                BatchRead::NoArchive => {
                    return self.finish(
                        Err(
                            ProjectionError::Archive(
                                Reason::Own("projection turn has no accepted archive"),
                            ),
                        ),
                    );
                },
                BatchRead::Failed(message) => {
                    return self.finish(Err(ProjectionError::Archive(Reason::Reported(message))));
                },
                BatchRead::NotReady => {
                    return self.finish(
                        Err(
                            ProjectionError::Work(
                                Reason::Own("projection turn origin batch is not complete"),
                            ),
                        ),
                    );
                },
                BatchRead::Ready { .. } => return self.after_batch(),
            },
            _ => {},
        }
        self.asks()
    }

    /// Looks at a superseded file.
    fn repair(&mut self, event: TurnEvent) -> (action: TurnAction)
        requires
            turn_run_wf(old(self)@),
            old(self).phase is RepairInput || old(self).phase is RepairAuthority,
        ensures
            turn_goes(turn_repair(old(self)@, event), final(self)@, action),
    {
        reveal(turn_repair);
        match (self.phase, event) {
            (TurnPhase::RepairInput, TurnEvent::Input(input)) => match input {
                Err(failure) => return self.finish(Err(ProjectionError::Io(failure))),
                Ok(None) => return self.finish(Err(ProjectionError::WorkNotReady)),
                Ok(Some(bytes)) => {
                    let same = match self.turn.origin {
                        TurnOrigin::SupersededRepair { observed, .. } => BlobDescription::of(
                            bytes.as_slice(),
                        ) == observed,
                        _ => false,
                    };
                    if !same {
                        return self.finish(
                            Err(
                                ProjectionError::GuardedConflict(
                                    IoFailure {
                                        kind: IoFailureKind::Other,
                                        message: Reason::Own(
                                            "superseded projection repair observed externally diverged bytes",
                                        ),
                                        semantic_refusal: false,
                                    },
                                ),
                            ),
                        );
                    }
                    self.observed = Some(bytes);
                    self.phase = TurnPhase::RepairAuthority;
                },
            },
            (TurnPhase::RepairAuthority, TurnEvent::Repair(owner)) => match owner {
                Err(error) => return self.finish(Err(ProjectionError::Engine(error))),
                Ok(owner) => {
                    let owned = match (owner, self.turn.origin) {
                        (Some(owner), TurnOrigin::SupersededRepair { page_id, .. }) => owner
                            == page_id,
                        _ => false,
                    };
                    if !owned {
                        return self.finish(Err(ProjectionError::WorkNotReady));
                    }
                    self.phase = TurnPhase::Opening;
                },
            },
            _ => {},
        }
        self.asks()
    }

    /// Opens the barrier and lists the work.
    fn open(&mut self, event: TurnEvent) -> (action: TurnAction)
        requires
            turn_run_wf(old(self)@),
            old(self).phase is Opening || old(self).phase is Listing,
        ensures
            turn_goes(turn_open(old(self)@, event), final(self)@, action),
    {
        reveal(turn_open);
        match (self.phase, event) {
            (TurnPhase::Opening, TurnEvent::Barrier(opened)) => {
                if let Err(failure) = opened {
                    return self.finish(Err(ProjectionError::Io(failure)));
                }
                self.phase = TurnPhase::Listing;
            },
            (TurnPhase::Listing, TurnEvent::Work(work)) => match work {
                Err(error) => return self.fail(ProjectionError::Engine(error)),
                Ok(work) => {
                    self.work = work;
                    return self.go_to(0);
                },
            },
            _ => {},
        }
        self.asks()
    }

    /// Projects the source that was found.
    fn project(&mut self) -> (action: TurnAction)
        requires
            old(self).endpoint is Some,
            turn_is_bound(old(self).workspace_id, old(self).turn, old(self).endpoint->0),
            old(self).error is None,
            old(self).page < old(self).turn.pages@.len(),
            old(self).source < old(self).sources@.len(),
        ensures
            turn_goes(turn_projects(old(self)@), final(self)@, action),
    {
        if !self.has_handoff {
            return self.fail(
                ProjectionError::Work(Reason::Own("receiver projection turn requires a handoff")),
            );
        }
        self.phase = TurnPhase::Projecting;
        self.asks()
    }

    /// Finds what a page stands for.
    fn enter(&mut self, event: TurnEvent) -> (action: TurnAction)
        requires
            turn_run_wf(old(self)@),
            old(self).phase is Entering || old(self).phase is ForeignBatch,
        ensures
            turn_goes(turn_enter(old(self)@, event), final(self)@, action),
    {
        reveal(turn_enter);
        match (self.phase, event) {
            (TurnPhase::Entering { .. }, TurnEvent::Entered) => {
                if self.turn.origin.is_foreign() {
                    if self.turn.origin.batch_id().is_none() {
                        return self.fail(ProjectionError::WorkIntentMismatch);
                    }
                    self.phase = TurnPhase::ForeignBatch;
                } else {
                    proof {
                        lemma_first_work(self.work@, self.turn.pages@[self.page as int], 0);
                    }
                    match find_work(&self.work, &self.turn.pages[self.page]) {
                        None => return self.fail(ProjectionError::WorkNotReady),
                        Some(found) => {
                            self.found = found;
                            self.phase = TurnPhase::ObservedInput;
                        },
                    }
                }
            },
            (TurnPhase::ForeignBatch, TurnEvent::Batch(read)) => match read {
                BatchRead::NoArchive => {
                    return self.fail(
                        ProjectionError::Archive(
                            Reason::Own("receiver turn has no accepted archive"),
                        ),
                    );
                },
                BatchRead::Failed(message) => {
                    return self.fail(ProjectionError::Archive(Reason::Reported(message)));
                },
                BatchRead::NotReady => return self.fail(ProjectionError::WorkNotReady),
                BatchRead::Ready { manifest, objects } => {
                    let validated = match validate_projection_object_set(&manifest, objects) {
                        Err(error) => {
                            return self.fail(ProjectionError::Archive(Reason::Manifest(error)));
                        },
                        Ok(validated) => validated,
                    };
                    let (sources, _bases) = validated.into_parts();
                    let found = find_source(&sources, &self.turn.pages[self.page]);
                    proof {
                        lemma_first_source(
                            intent_wires(sources@),
                            self.turn.pages@[self.page as int],
                            0,
                        );
                    }
                    match found {
                        None => return self.fail(ProjectionError::WorkIntentMismatch),
                        Some(source) => {
                            self.sources = sources;
                            self.source = source;
                            return self.project();
                        },
                    }
                },
            },
            _ => {},
        }
        self.asks()
    }

    /// Takes up another device's intent and what came of it.
    fn receive(&mut self, event: TurnEvent) -> (action: TurnAction)
        requires
            turn_run_wf(old(self)@),
            old(self).phase is Projecting || old(self).phase is WorkObjects,
        ensures
            turn_goes(turn_received(old(self)@, event), final(self)@, action),
    {
        reveal(turn_received);
        match (self.phase, event) {
            (TurnPhase::Projecting, TurnEvent::Projected(projected)) => match projected {
                Err(error) => return self.fail(error),
                Ok(None) => return self.fail(ProjectionError::WorkNotReady),
                Ok(Some(execution)) => {
                    self.phase = if execution == ProjectionExecution::NeedsTurnRebarrier {
                        TurnPhase::RebarrierInput { then_bind: true }
                    } else {
                        TurnPhase::BaselineInput
                    };
                },
            },
            (TurnPhase::WorkObjects, TurnEvent::Objects(objects)) => {
                let objects = match objects {
                    None => {
                        return self.fail(
                            ProjectionError::Archive(
                                Reason::Own("receiver turn has no accepted archive"),
                            ),
                        );
                    },
                    Some(objects) => objects,
                };
                match decode_manifested_projection_work(
                    &self.work[self.found],
                    objects.intent,
                    objects.base,
                ) {
                    Err(error) => return self.fail(error),
                    Ok(decoded) => {
                        let mut sources: Vec<ManifestedProjectionIntent> = Vec::new();
                        let ghost wire = decoded.manifested.wire();
                        sources.push(decoded.manifested);
                        assert(intent_wires(sources@) =~= seq![wire]);
                        self.sources = sources;
                        self.source = 0;
                        return self.project();
                    },
                }
            },
            _ => {},
        }
        self.asks()
    }

    /// Carries out the work that was found.
    fn carry_out(&mut self) -> (action: TurnAction)
        requires
            turn_run_wf(old(self)@),
            about_work(old(self).phase),
        ensures
            turn_goes(turn_carries_out(old(self)@), final(self)@, action),
    {
        let own = match &self.endpoint {
            None => false,
            Some(endpoint) => self.work[self.found].endpoint_id == endpoint.endpoint_id,
        };
        self.phase = if own {
            TurnPhase::Executing
        } else {
            TurnPhase::WorkObjects
        };
        self.asks()
    }

    /// Compares the file with what the turn recorded.
    fn observe(&mut self, event: TurnEvent) -> (action: TurnAction)
        requires
            turn_run_wf(old(self)@),
            old(self).phase is ObservedInput || old(self).phase is ProbingStale,
        ensures
            turn_goes(turn_observe(old(self)@, event), final(self)@, action),
    {
        reveal(turn_observe);
        match (self.phase, event) {
            (TurnPhase::ObservedInput, TurnEvent::Input(input)) => {
                let input = match input {
                    Err(failure) => return self.fail(ProjectionError::Io(failure)),
                    Ok(input) => input,
                };
                let recorded = match (&self.turn.pages[self.page].target, &input) {
                    (TurnTarget::Absent, None) => true,
                    (TurnTarget::Present { description, .. }, Some(bytes)) => BlobDescription::of(
                        bytes.as_slice(),
                    ) == *description,
                    _ => false,
                };
                self.observed = input;
                if recorded {
                    return self.carry_out();
                }
                self.phase = TurnPhase::ProbingStale;
            },
            (TurnPhase::ProbingStale, TurnEvent::Probed(exact)) => match exact {
                Err(error) => return self.fail(error),
                Ok(exact) => {
                    if !exact {
                        return self.carry_out();
                    }
                    self.phase = TurnPhase::Rebarriering { then_bind: false };
                },
            },
            _ => {},
        }
        self.asks()
    }

    /// Carries out this endpoint's work.
    fn execute(&mut self, event: TurnEvent) -> (action: TurnAction)
        requires
            turn_run_wf(old(self)@),
            old(self).phase is Executing || old(self).phase is ProbingNotReady || old(self).phase
                is NotReadyInput || old(self).phase is RewriteAuthority || old(self).phase
                is Rewriting,
        ensures
            turn_goes(turn_execute(old(self)@, event), final(self)@, action),
    {
        reveal(turn_execute);
        match (self.phase, event) {
            (TurnPhase::Executing, TurnEvent::Executed(executed)) => match executed {
                Err(ProjectionError::WorkNotReady) => {
                    self.phase = TurnPhase::ProbingNotReady;
                },
                Err(error) => return self.fail(error),
                Ok(execution) => {
                    self.phase = if execution == ProjectionExecution::NeedsTurnRebarrier {
                        TurnPhase::RebarrierInput { then_bind: true }
                    } else {
                        TurnPhase::BaselineInput
                    };
                },
            },
            (TurnPhase::ProbingNotReady, TurnEvent::Probed(exact)) => match exact {
                Err(error) => return self.fail(error),
                Ok(exact) => {
                    self.phase = if exact {
                        TurnPhase::RebarrierInput { then_bind: false }
                    } else {
                        TurnPhase::NotReadyInput
                    };
                },
            },
            (TurnPhase::NotReadyInput, TurnEvent::Input(input)) => match input {
                Err(failure) => return self.fail(ProjectionError::Io(failure)),
                Ok(None) => return self.fail(ProjectionError::WorkNotReady),
                Ok(Some(bytes)) => {
                    self.observed = Some(bytes);
                    self.phase = TurnPhase::RewriteAuthority;
                },
            },
            (TurnPhase::RewriteAuthority, TurnEvent::Repair(owner)) => match owner {
                Err(error) => return self.fail(ProjectionError::Engine(error)),
                Ok(owner) => {
                    let owned = match owner {
                        None => false,
                        Some(owner) => owner == self.work[self.found].page_id,
                    };
                    if !owned {
                        return self.fail(ProjectionError::WorkNotReady);
                    }
                    self.phase = TurnPhase::Rewriting;
                },
            },
            (TurnPhase::Rewriting, TurnEvent::Rewritten(rewritten)) => {
                if let Err(error) = rewritten {
                    return self.fail(error);
                }
                self.phase = TurnPhase::BaselineInput;
            },
            _ => {},
        }
        self.asks()
    }

    /// Settles a page and goes on to the next.
    fn settle(&mut self, event: TurnEvent) -> (action: TurnAction)
        requires
            turn_run_wf(old(self)@),
            old(self).phase is RebarrierInput || old(self).phase is Rebarriering || old(
                self,
            ).phase is BaselineInput || old(self).phase is Binding || old(self).phase is Closing,
        ensures
            turn_goes(turn_settle(old(self)@, event), final(self)@, action),
    {
        reveal(turn_settle);
        match (self.phase, event) {
            (TurnPhase::RebarrierInput { then_bind }, TurnEvent::Input(input)) => match input {
                Err(failure) => return self.fail(ProjectionError::Io(failure)),
                Ok(input) => {
                    self.observed = input;
                    self.phase = TurnPhase::Rebarriering { then_bind };
                },
            },
            (TurnPhase::Rebarriering { then_bind }, TurnEvent::Rebarriered(done)) => {
                if let Err(failure) = done {
                    return self.fail(ProjectionError::Io(failure));
                }
                if !then_bind {
                    return self.next_page();
                }
                self.phase = TurnPhase::BaselineInput;
            },
            (TurnPhase::BaselineInput, TurnEvent::Input(input)) => match input {
                Err(failure) => return self.fail(ProjectionError::Io(failure)),
                Ok(None) => return self.next_page(),
                Ok(Some(bytes)) => {
                    let description = BlobDescription::of(bytes.as_slice());
                    self.phase = TurnPhase::Binding { description };
                },
            },
            (TurnPhase::Binding { .. }, TurnEvent::Bound(bound)) => match bound {
                Err(message) => {
                    return self.fail(ProjectionError::Work(Reason::Reported(message)));
                },
                Ok(()) => return self.next_page(),
            },
            (TurnPhase::Closing, TurnEvent::Barrier(closed)) => {
                let error = self.error.take();
                return match error {
                    Some(error) => self.finish(Err(error)),
                    None => match closed {
                        Err(failure) => self.finish(Err(ProjectionError::Io(failure))),
                        Ok(()) => self.finish(Ok(())),
                    },
                };
            },
            _ => {},
        }
        self.asks()
    }
}

} // verus!
