//! Carrying out one accepted piece of projection work, one decision at a time.

use vstd::prelude::*;

use crate::annotation::{annotation_views, AnnotatedIdentity, AnnotatedIdentityView};
use crate::bytes::same_bytes;
use crate::error::{EngineError, ProjectionError};
use crate::execution::{
    is_recovery_open, recovery_is_open, revival_intent_matches, same_except_frontier, same_revival,
    GraphOperation, ProjectionEndpointBinding, ProjectionExecution,
};
use crate::ids::{CanonicalGraphResourceId, WorkspaceId};
use crate::manifest_set::OperationObject;
use crate::page::ProjectionPageState;
use crate::plan::{
    base_bytes, lend_base, lent_base, plan_projection_with_layout_annotations, projection_plan,
    GuardedLayoutView, GuardedProjectionLayout, PageRendering, ProjectionPlan, ProjectionPlanView,
    SourceBase,
};
use crate::store_error::{IoFailure, ProjectionStoreError};
use crate::work::{
    decode_manifested_projection_work, decoded_work, DecodedManifestedProjectionWork,
    DecodedWorkView, ProjectionWork,
};

verus! {

/// How far a piece of work has come.
#[derive(Clone, Copy, Debug, PartialEq, Eq, Structural)]
pub enum WorkPhase {
    Endpoint,
    Resource,
    Authorizing,
    Objects,
    Revival,
    InputBefore,
    CompletedBefore,
    Accepting,
    Rendering,
    Completed,
    DeletedInput,
    Authority { deletion_is_exact: bool },
    Recovering { operation: GraphOperation },
    FallbackAuthority,
    Fault,
    FallbackInput,
    Writing { operation: GraphOperation },
    Cleanup,
    Staging,
    Deferring,
    Done,
}

/// What has to be done, or found out, next.
#[derive(Debug, PartialEq, Eq)]
pub enum WorkAction {
    /// Find the endpoint that the engine is bound to.
    BindEndpoint,
    /// Find the graph's resource.
    ReadResource,
    /// Have the engine authorize the work.
    AuthorizeWork,
    /// Read the work's objects from the archive.
    ReadObjects,
    /// Find out whether the batch revives the page.
    AskRevival,
    /// Read the page's file.
    ReadInput,
    /// Find out whether the local intent was completed before.
    AskCompleted,
    /// Have the engine authorize a write and give the accepted page.
    AuthorizeWrite,
    /// Serialise the accepted page against the base.
    Render,
    /// Take the authority to mutate, for the local intent.
    TakeAuthority,
    /// Let a harness fail the write.
    LetHarnessFail,
    /// Carry out a guarded operation.
    Operate(GraphOperation),
    /// Retire the recovery files that the operation left.
    Cleanup,
    /// Stage the completion of the local intent.
    StageCompletion,
    /// Note that the file was found gone.
    NoteDeferredAbsence,
    /// The work has ended.
    Finish(Result<ProjectionExecution, ProjectionError>),
}

/// What came of what was asked for.
#[derive(Debug, PartialEq, Eq)]
pub enum WorkEvent {
    Endpoint(Option<ProjectionEndpointBinding>),
    Resource(Result<CanonicalGraphResourceId, IoFailure>),
    Authorized(Result<(), EngineError>),
    Objects { intent: Result<OperationObject, String>, base: Result<OperationObject, String> },
    Revival(Result<bool, EngineError>),
    Input(Result<Option<Vec<u8>>, IoFailure>),
    Completed(Result<bool, ProjectionError>),
    Accepted(Result<ProjectionPageState, ProjectionError>),
    Rendered { base: Option<SourceBase>, rendering: PageRendering },
    Authority(Result<(), ProjectionStoreError>),
    Harness(Result<(), ProjectionError>),
    Operated(Result<(), IoFailure>),
    Cleaned(Result<(), ProjectionError>),
    Staged(Result<(), EngineError>),
    Noted,
}

/// A piece of work that is being carried out.
#[derive(Debug, PartialEq, Eq)]
pub struct WorkRun {
    pub workspace_id: WorkspaceId,
    pub work: ProjectionWork,
    pub phase: WorkPhase,
    pub endpoint: Option<ProjectionEndpointBinding>,
    pub decoded: Option<DecodedManifestedProjectionWork>,
    pub revival: bool,
    pub accepted: Option<ProjectionPageState>,
    pub replay: Option<ProjectionPlan>,
}

/// What a run says.
pub struct WorkRunView {
    pub workspace_id: WorkspaceId,
    pub work: ProjectionWork,
    pub phase: WorkPhase,
    pub endpoint: Option<ProjectionEndpointBinding>,
    pub decoded: Option<DecodedWorkView>,
    pub revival: bool,
    pub accepted: Option<ProjectionPageState>,
    pub replay: Option<ProjectionPlanView>,
}

impl View for WorkRun {
    type V = WorkRunView;

    open spec fn view(&self) -> WorkRunView {
        WorkRunView {
            workspace_id: self.workspace_id,
            work: self.work,
            phase: self.phase,
            endpoint: self.endpoint,
            decoded: match self.decoded {
                None => None,
                Some(decoded) => Some(decoded@),
            },
            revival: self.revival,
            accepted: self.accepted,
            replay: match self.replay {
                None => None,
                Some(plan) => Some(plan@),
            },
        }
    }
}

/// Where a run goes next.
pub enum WorkStep {
    Ask(WorkRunView),
    Finish(Result<ProjectionExecution, ProjectionError>),
}

/// What a run asks for in a phase.
pub open spec fn work_asks(phase: WorkPhase) -> WorkAction {
    match phase {
        WorkPhase::Endpoint => WorkAction::BindEndpoint,
        WorkPhase::Resource => WorkAction::ReadResource,
        WorkPhase::Authorizing => WorkAction::AuthorizeWork,
        WorkPhase::Objects => WorkAction::ReadObjects,
        WorkPhase::Revival => WorkAction::AskRevival,
        WorkPhase::InputBefore => WorkAction::ReadInput,
        WorkPhase::CompletedBefore => WorkAction::AskCompleted,
        WorkPhase::Accepting => WorkAction::AuthorizeWrite,
        WorkPhase::Rendering => WorkAction::Render,
        WorkPhase::Completed => WorkAction::AskCompleted,
        WorkPhase::DeletedInput => WorkAction::ReadInput,
        WorkPhase::Authority { .. } => WorkAction::TakeAuthority,
        WorkPhase::Recovering { operation } => WorkAction::Operate(operation),
        WorkPhase::FallbackAuthority => WorkAction::TakeAuthority,
        WorkPhase::Fault => WorkAction::LetHarnessFail,
        WorkPhase::FallbackInput => WorkAction::ReadInput,
        WorkPhase::Writing { operation } => WorkAction::Operate(operation),
        WorkPhase::Cleanup => WorkAction::Cleanup,
        WorkPhase::Staging => WorkAction::StageCompletion,
        WorkPhase::Deferring => WorkAction::NoteDeferredAbsence,
        WorkPhase::Done => WorkAction::Finish(Err(ProjectionError::WorkNotReady)),
    }
}

/// The bytes that the accepted page is rendered against: the base, or the target of a revived page.
pub open spec fn render_base_bytes(decoded: DecodedWorkView, revival: bool) -> Option<Seq<u8>> {
    match decoded.annotated_base {
        Some(base) => Some(base.bytes@),
        None => if revival {
            decoded.target
        } else {
            None
        },
    }
}

/// The annotations that the accepted page is rendered against.
pub open spec fn render_base_annotations(decoded: DecodedWorkView, revival: bool) -> Option<
    Seq<AnnotatedIdentityView>,
> {
    match decoded.annotated_base {
        Some(base) => Some(annotation_views(base.annotations@)),
        None => if revival {
            Some(annotation_views(decoded.manifested.target.spec_annotations()))
        } else {
            None
        },
    }
}

/// Whether the replayed plan is the one that the work was accepted with.
pub open spec fn replay_matches(
    decoded: DecodedWorkView,
    revival: bool,
    replay: ProjectionPlanView,
) -> bool {
    &&& Some(replay.target) == decoded.target
    &&& revival || replay.guarded_layout == decoded.guarded_layout
    &&& if revival {
        same_revival(replay.intent, decoded.receiver_local_intent)
    } else {
        same_except_frontier(decoded.receiver_local_intent, replay.intent)
    }
}

/// The operation that an earlier attempt is recovered by, if it can be named.
pub open spec fn recovery_operation(decoded: DecodedWorkView, deletion_is_exact: bool) -> Option<
    GraphOperation,
> {
    if decoded.target is Some {
        Some(GraphOperation::Recover)
    } else if deletion_is_exact {
        Some(GraphOperation::ConfirmRemoved)
    } else if decoded.annotated_base is Some {
        Some(GraphOperation::RecoverRemoved)
    } else {
        None
    }
}

/// The operation that is carried out where nothing could be recovered, if it can be named.
pub open spec fn fallback_operation(decoded: DecodedWorkView, current: Option<Seq<u8>>) -> Option<
    GraphOperation,
> {
    match decoded.target {
        Some(target) => if current == Some(target) {
            Some(GraphOperation::Recover)
        } else {
            Some(GraphOperation::Write)
        },
        None => if current is None {
            Some(GraphOperation::ConfirmRemoved)
        } else if decoded.annotated_base is Some {
            Some(GraphOperation::Remove)
        } else {
            None
        },
    }
}

/// The run in another phase.
pub open spec fn work_in(run: WorkRunView, phase: WorkPhase) -> WorkStep {
    WorkStep::Ask(WorkRunView { phase, ..run })
}

/// Where a run goes after the file was read before anything was written. A file that is gone is
/// left gone, unless the batch revives the page: where a base says that it was there, and else
/// where the intent was completed before.
pub open spec fn work_after_input(run: WorkRunView, input: Option<Vec<u8>>) -> WorkStep {
    let decoded = run.decoded->0;
    if decoded.target is Some && input is None && !run.revival {
        if decoded.annotated_base is Some {
            work_in(run, WorkPhase::Deferring)
        } else {
            work_in(run, WorkPhase::CompletedBefore)
        }
    } else if decoded.target is Some {
        work_in(run, WorkPhase::Accepting)
    } else {
        work_in(run, WorkPhase::Completed)
    }
}

/// Where a run goes on an event. An event that answers nothing that was asked changes nothing.
pub open spec fn work_step(run: WorkRunView, event: WorkEvent) -> WorkStep {
    match (run.phase, event) {
        (WorkPhase::Endpoint, WorkEvent::Endpoint(endpoint)) => match endpoint {
            None => WorkStep::Finish(Err(ProjectionError::EndpointBindingMismatch)),
            Some(_) => WorkStep::Ask(
                WorkRunView { phase: WorkPhase::Resource, endpoint, ..run },
            ),
        },
        (WorkPhase::Resource, WorkEvent::Resource(resource)) => match resource {
            Err(failure) => WorkStep::Finish(Err(ProjectionError::Io(failure))),
            Ok(resource) => if run.endpoint is Some && resource
                == run.endpoint->0.graph_resource_id {
                work_in(run, WorkPhase::Authorizing)
            } else {
                WorkStep::Finish(Err(ProjectionError::EndpointBindingMismatch))
            },
        },
        (WorkPhase::Authorizing, WorkEvent::Authorized(authorized)) => match authorized {
            Err(error) => WorkStep::Finish(Err(ProjectionError::Engine(error))),
            Ok(()) => work_in(run, WorkPhase::Objects),
        },
        (WorkPhase::Objects, WorkEvent::Objects { intent, base }) => match decoded_work(
            run.work,
            intent,
            base,
        ) {
            Err(error) => WorkStep::Finish(Err(error)),
            Ok(decoded) => WorkStep::Ask(
                WorkRunView { phase: WorkPhase::Revival, decoded: Some(decoded), ..run },
            ),
        },
        (WorkPhase::Revival, WorkEvent::Revival(revival)) => match revival {
            Err(error) => WorkStep::Finish(Err(ProjectionError::Engine(error))),
            Ok(revival) => WorkStep::Ask(
                WorkRunView { phase: WorkPhase::InputBefore, revival, ..run },
            ),
        },
        (WorkPhase::InputBefore, WorkEvent::Input(input)) => match input {
            Err(failure) => WorkStep::Finish(Err(ProjectionError::Io(failure))),
            Ok(input) => work_after_input(run, input),
        },
        (WorkPhase::CompletedBefore, WorkEvent::Completed(completed)) => match completed {
            Err(error) => WorkStep::Finish(Err(error)),
            Ok(completed) => work_in(
                run,
                if completed {
                    WorkPhase::Deferring
                } else {
                    WorkPhase::Accepting
                },
            ),
        },
        (WorkPhase::Accepting, WorkEvent::Accepted(accepted)) => match accepted {
            Err(error) => WorkStep::Finish(Err(error)),
            Ok(state) => WorkStep::Ask(
                WorkRunView { phase: WorkPhase::Rendering, accepted: Some(state), ..run },
            ),
        },
        (WorkPhase::Rendering, WorkEvent::Rendered { base, rendering }) => {
            let decoded = run.decoded->0;
            if base_bytes(lent_base(&base)) != render_base_bytes(decoded, run.revival) {
                WorkStep::Ask(run)
            } else {
                match projection_plan(
                    run.workspace_id,
                    run.accepted->0,
                    lent_base(&base),
                    render_base_annotations(decoded, run.revival),
                    rendering,
                ) {
                    Err(error) => WorkStep::Finish(Err(error)),
                    Ok(replay) => if replay_matches(decoded, run.revival, replay) {
                        WorkStep::Ask(
                            WorkRunView {
                                phase: WorkPhase::Completed,
                                replay: Some(replay),
                                ..run
                            },
                        )
                    } else {
                        WorkStep::Finish(Err(ProjectionError::WorkNotReady))
                    },
                }
            }
        },
        (WorkPhase::Completed, WorkEvent::Completed(completed)) => match completed {
            Err(error) => WorkStep::Finish(Err(error)),
            Ok(true) => WorkStep::Finish(Ok(ProjectionExecution::NeedsTurnRebarrier)),
            Ok(false) => work_in(
                run,
                if run.decoded->0.target is None {
                    WorkPhase::DeletedInput
                } else {
                    WorkPhase::Authority { deletion_is_exact: false }
                },
            ),
        },
        (WorkPhase::DeletedInput, WorkEvent::Input(input)) => match input {
            Err(failure) => WorkStep::Finish(Err(ProjectionError::Io(failure))),
            Ok(input) => work_in(run, WorkPhase::Authority { deletion_is_exact: input is None }),
        },
        (WorkPhase::Authority { deletion_is_exact }, WorkEvent::Authority(taken)) => match taken {
            Err(error) => WorkStep::Finish(Err(ProjectionError::Store(Box::new(error)))),
            Ok(()) => match recovery_operation(run.decoded->0, deletion_is_exact) {
                None => WorkStep::Finish(Err(ProjectionError::WorkIntentMismatch)),
                Some(operation) => work_in(run, WorkPhase::Recovering { operation }),
            },
        },
        (WorkPhase::Recovering { .. }, WorkEvent::Operated(operated)) => match operated {
            Ok(()) => work_in(run, WorkPhase::Cleanup),
            Err(failure) => if recovery_is_open(failure) {
                work_in(run, WorkPhase::FallbackAuthority)
            } else if failure.semantic_refusal {
                WorkStep::Finish(Err(ProjectionError::GuardedConflict(failure)))
            } else {
                WorkStep::Finish(Err(ProjectionError::Io(failure)))
            },
        },
        (WorkPhase::FallbackAuthority, WorkEvent::Authority(taken)) => match taken {
            Err(error) => WorkStep::Finish(Err(ProjectionError::Store(Box::new(error)))),
            Ok(()) => work_in(run, WorkPhase::Fault),
        },
        (WorkPhase::Fault, WorkEvent::Harness(outcome)) => match outcome {
            Err(error) => WorkStep::Finish(Err(error)),
            Ok(()) => work_in(run, WorkPhase::FallbackInput),
        },
        (WorkPhase::FallbackInput, WorkEvent::Input(input)) => match input {
            Err(failure) => WorkStep::Finish(Err(ProjectionError::Io(failure))),
            Ok(input) => match fallback_operation(
                run.decoded->0,
                crate::page::optional_text(input),
            ) {
                None => WorkStep::Finish(Err(ProjectionError::WorkIntentMismatch)),
                Some(operation) => work_in(run, WorkPhase::Writing { operation }),
            },
        },
        (WorkPhase::Writing { .. }, WorkEvent::Operated(operated)) => match operated {
            Ok(()) => work_in(run, WorkPhase::Cleanup),
            Err(failure) => if recovery_is_open(failure) || failure.semantic_refusal {
                WorkStep::Finish(Err(ProjectionError::GuardedConflict(failure)))
            } else {
                WorkStep::Finish(Err(ProjectionError::Io(failure)))
            },
        },
        (WorkPhase::Cleanup, WorkEvent::Cleaned(cleaned)) => match cleaned {
            Err(error) => WorkStep::Finish(Err(error)),
            Ok(()) => work_in(run, WorkPhase::Staging),
        },
        (WorkPhase::Staging, WorkEvent::Staged(staged)) => match staged {
            Err(error) => WorkStep::Finish(Err(ProjectionError::Engine(error))),
            Ok(()) => WorkStep::Finish(Ok(ProjectionExecution::BarrierTaken)),
        },
        (WorkPhase::Deferring, WorkEvent::Noted) => WorkStep::Finish(
            Ok(ProjectionExecution::DeferredAbsence),
        ),
        _ => WorkStep::Ask(run),
    }
}

/// What holds of a run between two events: it has what its phase stands on.
pub open spec fn work_run_wf(run: WorkRunView) -> bool {
    &&& work_needs_decoded(run.phase) ==> run.decoded is Some
    &&& run.phase is Rendering ==> run.accepted is Some
    &&& run.phase is CompletedBefore || run.phase is Accepting || run.phase is Rendering
        ==> run.decoded->0.target is Some
    &&& work_may_mutate(run.phase) && run.decoded->0.target is Some ==> run.replay is Some
        && replay_matches(run.decoded->0, run.revival, run.replay->0)
}

/// Whether a phase comes after the objects were decoded.
pub open spec fn work_needs_decoded(phase: WorkPhase) -> bool {
    !(phase is Endpoint || phase is Resource || phase is Authorizing || phase is Objects
        || phase is Done)
}

/// Whether a phase comes after the accepted page was replayed.
pub open spec fn work_may_mutate(phase: WorkPhase) -> bool {
    phase is Completed || phase is DeletedInput || phase is Authority || phase is Recovering
        || phase is FallbackAuthority || phase is Fault || phase is FallbackInput
        || phase is Writing || phase is Cleanup || phase is Staging
}

/// Every event leaves a run with what its phase stands on.
pub proof fn law_work_run_stays_well_formed(run: WorkRunView, event: WorkEvent)
    requires
        work_run_wf(run),
        work_step(run, event) is Ask,
    ensures
        work_run_wf(work_step(run, event)->Ask_0),
{
}

/// The page's file is only touched for work whose target, where it leaves a file, is what the
/// accepted page renders to now.
pub proof fn law_work_writes_only_what_is_accepted(run: WorkRunView, operation: GraphOperation)
    requires
        work_run_wf(run),
        work_asks(run.phase) == WorkAction::Operate(operation),
    ensures
        run.decoded is Some,
        run.decoded->0.target is Some ==> run.replay is Some && Some(run.replay->0.target)
            == run.decoded->0.target,
{
}

/// Work on a page whose file is gone, where the batch does not revive the page, ends with the
/// absence deferred, and without an operation on the file: at once where a base says that the file
/// was there, and else where the local intent turns out to have been completed before.
pub proof fn law_missing_file_is_not_recreated(run: WorkRunView, completed: bool)
    requires
        run.phase is InputBefore,
        run.decoded->0.target is Some,
        run.decoded->0.annotated_base is Some || completed,
        !run.revival,
    ensures
        ({
            let next = work_step(run, WorkEvent::Input(Ok(None)));
            let deferred = if run.decoded->0.annotated_base is Some {
                next
            } else {
                work_step(next->Ask_0, WorkEvent::Completed(Ok(completed)))
            };
            &&& next is Ask
            &&& run.decoded->0.annotated_base is None ==> work_asks(next->Ask_0.phase)
                == WorkAction::AskCompleted
            &&& deferred is Ask
            &&& work_asks(deferred->Ask_0.phase) == WorkAction::NoteDeferredAbsence
            &&& work_step(deferred->Ask_0, WorkEvent::Noted) == WorkStep::Finish(
                Ok(ProjectionExecution::DeferredAbsence),
            )
        }),
{
}

/// What holds after an event: the run is where it goes next and asks for that, or it has ended.
pub open spec fn work_advanced(
    before: WorkRunView,
    event: WorkEvent,
    after: WorkRunView,
    action: WorkAction,
) -> bool {
    match work_step(before, event) {
        WorkStep::Ask(next) => after == next && action == work_asks(next.phase) && work_run_wf(
            after,
        ),
        WorkStep::Finish(outcome) => action == WorkAction::Finish(outcome) && after.phase is Done,
    }
}

impl WorkRun {
    /// The run of a piece of work, before anything was asked.
    pub fn new(workspace_id: WorkspaceId, work: ProjectionWork) -> (run: WorkRun)
        ensures
            run@ == (WorkRunView {
                workspace_id,
                work,
                phase: WorkPhase::Endpoint,
                endpoint: None,
                decoded: None,
                revival: false,
                accepted: None,
                replay: None,
            }),
            work_run_wf(run@),
    {
        WorkRun {
            workspace_id,
            work,
            phase: WorkPhase::Endpoint,
            endpoint: None,
            decoded: None,
            revival: false,
            accepted: None,
            replay: None,
        }
    }

    /// What the run asks for.
    pub fn asks(&self) -> (action: WorkAction)
        ensures
            action == work_asks(self.phase),
    {
        match self.phase {
            WorkPhase::Endpoint => WorkAction::BindEndpoint,
            WorkPhase::Resource => WorkAction::ReadResource,
            WorkPhase::Authorizing => WorkAction::AuthorizeWork,
            WorkPhase::Objects => WorkAction::ReadObjects,
            WorkPhase::Revival => WorkAction::AskRevival,
            WorkPhase::InputBefore => WorkAction::ReadInput,
            WorkPhase::CompletedBefore => WorkAction::AskCompleted,
            WorkPhase::Accepting => WorkAction::AuthorizeWrite,
            WorkPhase::Rendering => WorkAction::Render,
            WorkPhase::Completed => WorkAction::AskCompleted,
            WorkPhase::DeletedInput => WorkAction::ReadInput,
            WorkPhase::Authority { .. } => WorkAction::TakeAuthority,
            WorkPhase::Recovering { operation } => WorkAction::Operate(operation),
            WorkPhase::FallbackAuthority => WorkAction::TakeAuthority,
            WorkPhase::Fault => WorkAction::LetHarnessFail,
            WorkPhase::FallbackInput => WorkAction::ReadInput,
            WorkPhase::Writing { operation } => WorkAction::Operate(operation),
            WorkPhase::Cleanup => WorkAction::Cleanup,
            WorkPhase::Staging => WorkAction::StageCompletion,
            WorkPhase::Deferring => WorkAction::NoteDeferredAbsence,
            WorkPhase::Done => WorkAction::Finish(Err(ProjectionError::WorkNotReady)),
        }
    }

    /// What the accepted page is rendered over: the bytes of the base and the annotations of its
    /// blocks, or the target itself where the batch revives a page without a base.
    pub fn render_base(&self) -> (base: (Option<&[u8]>, Option<&[AnnotatedIdentity]>))
        ensures
            match self@.decoded {
                None => base == (None::<&[u8]>, None::<&[AnnotatedIdentity]>),
                Some(decoded) => {
                    &&& (match base.0 {
                        Some(bytes) => Some(bytes@),
                        None => None,
                    }) == render_base_bytes(decoded, self.revival)
                    &&& crate::plan::optional_annotations(base.1) == render_base_annotations(
                        decoded,
                        self.revival,
                    )
                },
            },
    {
        match &self.decoded {
            None => (None, None),
            Some(decoded) => match &decoded.annotated_base {
                Some(base) => (Some(base.bytes()), Some(base.annotations())),
                None => if self.revival {
                    (decoded.target_bytes(), Some(decoded.manifested.target().annotations()))
                } else {
                    (None, None)
                },
            },
        }
    }

    /// The layout that the guarded writer must find: that of the work, or that of the target alone
    /// where the batch revives the page.
    pub fn effective_guarded_layout(&self) -> (layout: Option<GuardedProjectionLayout>)
        ensures
            match self@.decoded {
                None => layout is None,
                Some(decoded) => layout is Some && layout->0@ == (if self.revival {
                    GuardedLayoutView {
                        base: crate::plan::annotated_layout(
                            annotation_views(decoded.manifested.target.spec_annotations()),
                        ),
                        target: crate::plan::annotated_layout(
                            annotation_views(decoded.manifested.target.spec_annotations()),
                        ),
                        revive_page_self_base: true,
                    }
                } else {
                    decoded.guarded_layout
                }),
            },
    {
        match &self.decoded {
            None => None,
            Some(decoded) => if self.revival {
                Some(
                    GuardedProjectionLayout::for_revive_page(
                        decoded.manifested.target().annotations(),
                    ),
                )
            } else {
                Some(decoded.guarded_layout.duplicate())
            },
        }
    }

    /// Takes an event and says what comes next.
    pub fn advance(&mut self, event: WorkEvent) -> (action: WorkAction)
        requires
            work_run_wf(old(self)@),
        ensures
            work_advanced(old(self)@, event, final(self)@, action),
    {
        match self.phase {
            WorkPhase::Endpoint | WorkPhase::Resource | WorkPhase::Authorizing => {
                self.find_out(event)
            },
            WorkPhase::Objects | WorkPhase::Revival | WorkPhase::InputBefore => self.look(event),
            WorkPhase::CompletedBefore | WorkPhase::Accepting | WorkPhase::Rendering
            | WorkPhase::Completed => {
                self.compare(event)
            },
            WorkPhase::DeletedInput | WorkPhase::Authority { .. }
            | WorkPhase::Recovering { .. } => {
                self.recover(event)
            },
            WorkPhase::FallbackAuthority | WorkPhase::Fault | WorkPhase::FallbackInput
            | WorkPhase::Writing { .. } => {
                self.fall_back(event)
            },
            WorkPhase::Cleanup | WorkPhase::Staging | WorkPhase::Deferring => self.settle(event),
            WorkPhase::Done => self.asks(),
        }
    }

    /// Finds out what the work is.
    fn find_out(&mut self, event: WorkEvent) -> (action: WorkAction)
        requires
            work_run_wf(old(self)@),
            old(self).phase is Endpoint || old(self).phase is Resource
                || old(self).phase is Authorizing,
        ensures
            work_advanced(old(self)@, event, final(self)@, action),
    {
        match (self.phase, event) {
            (WorkPhase::Endpoint, WorkEvent::Endpoint(endpoint)) => {
                if endpoint.is_none() {
                    return self.finish(Err(ProjectionError::EndpointBindingMismatch));
                }
                self.endpoint = endpoint;
                self.phase = WorkPhase::Resource;
            },
            (WorkPhase::Resource, WorkEvent::Resource(resource)) => {
                let found = match resource {
                    Err(failure) => return self.finish(Err(ProjectionError::Io(failure))),
                    Ok(found) => found,
                };
                let bound = match &self.endpoint {
                    Some(endpoint) => endpoint.graph_resource_id == found,
                    None => false,
                };
                if !bound {
                    return self.finish(Err(ProjectionError::EndpointBindingMismatch));
                }
                self.phase = WorkPhase::Authorizing;
            },
            (WorkPhase::Authorizing, WorkEvent::Authorized(authorized)) => {
                if let Err(error) = authorized {
                    return self.finish(Err(ProjectionError::Engine(error)));
                }
                self.phase = WorkPhase::Objects;
            },
            _ => {},
        }
        self.asks()
    }

    /// Looks at what is there.
    fn look(&mut self, event: WorkEvent) -> (action: WorkAction)
        requires
            work_run_wf(old(self)@),
            old(self).phase is Objects || old(self).phase is Revival
                || old(self).phase is InputBefore,
        ensures
            work_advanced(old(self)@, event, final(self)@, action),
    {
        match (self.phase, event) {
            (WorkPhase::Objects, WorkEvent::Objects { intent, base }) => {
                match decode_manifested_projection_work(&self.work, intent, base) {
                    Err(error) => return self.finish(Err(error)),
                    Ok(decoded) => {
                        self.decoded = Some(decoded);
                        self.phase = WorkPhase::Revival;
                    },
                }
            },
            (WorkPhase::Revival, WorkEvent::Revival(revival)) => match revival {
                Err(error) => return self.finish(Err(ProjectionError::Engine(error))),
                Ok(revival) => {
                    self.revival = revival;
                    self.phase = WorkPhase::InputBefore;
                },
            },
            (WorkPhase::InputBefore, WorkEvent::Input(input)) => {
                let input = match input {
                    Err(failure) => return self.finish(Err(ProjectionError::Io(failure))),
                    Ok(input) => input,
                };
                self.phase = if !self.leaves_file() {
                    WorkPhase::Completed
                } else if input.is_some() || self.revival {
                    WorkPhase::Accepting
                } else if self.has_base() {
                    WorkPhase::Deferring
                } else {
                    WorkPhase::CompletedBefore
                };
            },
            _ => {},
        }
        self.asks()
    }

    /// Compares the work with the accepted page.
    fn compare(&mut self, event: WorkEvent) -> (action: WorkAction)
        requires
            work_run_wf(old(self)@),
            old(self).phase is CompletedBefore || old(self).phase is Accepting
                || old(self).phase is Rendering || old(self).phase is Completed,
        ensures
            work_advanced(old(self)@, event, final(self)@, action),
    {
        match (self.phase, event) {
            (WorkPhase::CompletedBefore, WorkEvent::Completed(completed)) => match completed {
                Err(error) => return self.finish(Err(error)),
                Ok(completed) => {
                    self.phase = if completed {
                        WorkPhase::Deferring
                    } else {
                        WorkPhase::Accepting
                    };
                },
            },
            (WorkPhase::Accepting, WorkEvent::Accepted(accepted)) => match accepted {
                Err(error) => return self.finish(Err(error)),
                Ok(state) => {
                    self.accepted = Some(state);
                    self.phase = WorkPhase::Rendering;
                },
            },
            (WorkPhase::Rendering, WorkEvent::Rendered { base, rendering }) => {
                return self.take_rendering(base, rendering);
            },
            (WorkPhase::Completed, WorkEvent::Completed(completed)) => match completed {
                Err(error) => return self.finish(Err(error)),
                Ok(completed) => {
                    if completed {
                        return self.finish(Ok(ProjectionExecution::NeedsTurnRebarrier));
                    }
                    self.phase = if self.leaves_file() {
                        WorkPhase::Authority { deletion_is_exact: false }
                    } else {
                        WorkPhase::DeletedInput
                    };
                },
            },
            _ => {},
        }
        self.asks()
    }

    /// Recovers an earlier attempt.
    fn recover(&mut self, event: WorkEvent) -> (action: WorkAction)
        requires
            work_run_wf(old(self)@),
            old(self).phase is DeletedInput || old(self).phase is Authority
                || old(self).phase is Recovering,
        ensures
            work_advanced(old(self)@, event, final(self)@, action),
    {
        match (self.phase, event) {
            (WorkPhase::DeletedInput, WorkEvent::Input(input)) => match input {
                Err(failure) => return self.finish(Err(ProjectionError::Io(failure))),
                Ok(input) => {
                    self.phase = WorkPhase::Authority { deletion_is_exact: input.is_none() };
                },
            },
            (WorkPhase::Authority { deletion_is_exact }, WorkEvent::Authority(taken)) => {
                if let Err(error) = taken {
                    return self.finish(Err(ProjectionError::Store(Box::new(error))));
                }
                let operation = if self.leaves_file() {
                    GraphOperation::Recover
                } else if deletion_is_exact {
                    GraphOperation::ConfirmRemoved
                } else if self.has_base() {
                    GraphOperation::RecoverRemoved
                } else {
                    return self.finish(Err(ProjectionError::WorkIntentMismatch));
                };
                self.phase = WorkPhase::Recovering { operation };
            },
            (WorkPhase::Recovering { .. }, WorkEvent::Operated(operated)) => match operated {
                Ok(()) => {
                    self.phase = WorkPhase::Cleanup;
                },
                Err(failure) => {
                    if is_recovery_open(&failure) {
                        self.phase = WorkPhase::FallbackAuthority;
                    } else if failure.semantic_refusal {
                        return self.finish(Err(ProjectionError::GuardedConflict(failure)));
                    } else {
                        return self.finish(Err(ProjectionError::Io(failure)));
                    }
                },
            },
            _ => {},
        }
        self.asks()
    }

    /// Carries the work out afresh.
    fn fall_back(&mut self, event: WorkEvent) -> (action: WorkAction)
        requires
            work_run_wf(old(self)@),
            old(self).phase is FallbackAuthority || old(self).phase is Fault
                || old(self).phase is FallbackInput || old(self).phase is Writing,
        ensures
            work_advanced(old(self)@, event, final(self)@, action),
    {
        match (self.phase, event) {
            (WorkPhase::FallbackAuthority, WorkEvent::Authority(taken)) => {
                if let Err(error) = taken {
                    return self.finish(Err(ProjectionError::Store(Box::new(error))));
                }
                self.phase = WorkPhase::Fault;
            },
            (WorkPhase::Fault, WorkEvent::Harness(outcome)) => {
                if let Err(error) = outcome {
                    return self.finish(Err(error));
                }
                self.phase = WorkPhase::FallbackInput;
            },
            (WorkPhase::FallbackInput, WorkEvent::Input(input)) => match input {
                Err(failure) => return self.finish(Err(ProjectionError::Io(failure))),
                Ok(input) => match self.choose_fallback(&input) {
                    None => return self.finish(Err(ProjectionError::WorkIntentMismatch)),
                    Some(operation) => {
                        self.phase = WorkPhase::Writing { operation };
                    },
                },
            },
            (WorkPhase::Writing { .. }, WorkEvent::Operated(operated)) => match operated {
                Ok(()) => {
                    self.phase = WorkPhase::Cleanup;
                },
                Err(failure) => {
                    if is_recovery_open(&failure) || failure.semantic_refusal {
                        return self.finish(Err(ProjectionError::GuardedConflict(failure)));
                    }
                    return self.finish(Err(ProjectionError::Io(failure)));
                },
            },
            _ => {},
        }
        self.asks()
    }

    /// Settles the work.
    fn settle(&mut self, event: WorkEvent) -> (action: WorkAction)
        requires
            work_run_wf(old(self)@),
            old(self).phase is Cleanup || old(self).phase is Staging
                || old(self).phase is Deferring,
        ensures
            work_advanced(old(self)@, event, final(self)@, action),
    {
        match (self.phase, event) {
            (WorkPhase::Cleanup, WorkEvent::Cleaned(cleaned)) => {
                if let Err(error) = cleaned {
                    return self.finish(Err(error));
                }
                self.phase = WorkPhase::Staging;
            },
            (WorkPhase::Staging, WorkEvent::Staged(staged)) => match staged {
                Err(error) => return self.finish(Err(ProjectionError::Engine(error))),
                Ok(()) => return self.finish(Ok(ProjectionExecution::BarrierTaken)),
            },
            (WorkPhase::Deferring, WorkEvent::Noted) => {
                return self.finish(Ok(ProjectionExecution::DeferredAbsence));
            },
            _ => {},
        }
        self.asks()
    }

    /// Ends the run.
    fn finish(&mut self, outcome: Result<ProjectionExecution, ProjectionError>) -> (action: WorkAction)
        ensures
            action == WorkAction::Finish(outcome),
            final(self).phase is Done,
    {
        self.phase = WorkPhase::Done;
        WorkAction::Finish(outcome)
    }

    /// Whether the work leaves a file.
    fn leaves_file(&self) -> (leaves: bool)
        ensures
            self.decoded is Some ==> leaves == (self@.decoded->0.target is Some),
    {
        match &self.decoded {
            None => false,
            Some(decoded) => decoded.target.is_some(),
        }
    }

    /// Whether a base must be there before.
    fn has_base(&self) -> (has: bool)
        ensures
            self.decoded is Some ==> has == (self@.decoded->0.annotated_base is Some),
    {
        match &self.decoded {
            None => false,
            Some(decoded) => decoded.annotated_base.is_some(),
        }
    }

    /// Chooses the operation that is carried out where nothing could be recovered.
    fn choose_fallback(&self, input: &Option<Vec<u8>>) -> (operation: Option<GraphOperation>)
        requires
            self.decoded is Some,
        ensures
            operation == fallback_operation(
                self@.decoded->0,
                crate::page::optional_text(*input),
            ),
    {
        match &self.decoded {
            None => None,
            Some(decoded) => match &decoded.target {
                Some(target) => {
                    let exact = match input {
                        None => false,
                        Some(current) => same_bytes(current.as_slice(), target.as_slice()),
                    };
                    if exact {
                        Some(GraphOperation::Recover)
                    } else {
                        Some(GraphOperation::Write)
                    }
                },
                None => if input.is_none() {
                    Some(GraphOperation::ConfirmRemoved)
                } else if decoded.annotated_base.is_some() {
                    Some(GraphOperation::Remove)
                } else {
                    None
                },
            },
        }
    }

    /// Plans the accepted page again and compares the plan with the work.
    fn take_rendering(&mut self, base: Option<SourceBase>, rendering: PageRendering) -> (action:
        WorkAction)
        requires
            old(self).phase is Rendering,
            work_run_wf(old(self)@),
        ensures
            work_advanced(
                old(self)@,
                WorkEvent::Rendered { base, rendering },
                final(self)@,
                action,
            ),
    {
        let planned = match (&self.decoded, &self.accepted) {
            (Some(decoded), Some(accepted)) => {
                let (bytes, annotations): (Option<&[u8]>, Option<&[AnnotatedIdentity]>) =
                    self.render_base();
                let same_base = match (&base, bytes) {
                    (None, None) => true,
                    (Some(base), Some(bytes)) => same_bytes(base.bytes.as_slice(), bytes),
                    _ => false,
                };
                if !same_base {
                    return self.asks();
                }
                match plan_projection_with_layout_annotations(
                    self.workspace_id,
                    accepted,
                    lend_base(&base),
                    annotations,
                    &rendering,
                ) {
                    Err(error) => Err(error),
                    Ok(replay) => {
                        let target_matches = match &decoded.target {
                            None => false,
                            Some(target) => same_bytes(replay.target(), target.as_slice()),
                        };
                        let layout_matches = self.revival || replay.guarded_layout.same(
                            &decoded.guarded_layout,
                        );
                        let intent_matches = if self.revival {
                            revival_intent_matches(&replay.intent, &decoded.receiver_local_intent)
                        } else {
                            decoded.receiver_local_intent.matches_replay_except_frontier(
                                &replay.intent,
                            )
                        };
                        if target_matches && layout_matches && intent_matches {
                            Ok(replay)
                        } else {
                            Err(ProjectionError::WorkNotReady)
                        }
                    },
                }
            },
            _ => return self.asks(),
        };
        match planned {
            Err(error) => self.finish(Err(error)),
            Ok(replay) => {
                self.replay = Some(replay);
                self.phase = WorkPhase::Completed;
                self.asks()
            },
        }
    }
}

} // verus!
