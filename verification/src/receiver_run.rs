//! Projecting a page for an intent of another device, one decision at a time.

use vstd::prelude::*;

use crate::annotation::{
    annotation_views, claim_views, same_claims, AnnotatedIdentity, AnnotatedIdentityView,
};
use crate::bytes::same_bytes;
use crate::error::{EngineError, ProjectionError};
use crate::execution::{
    completed_plan_matches_current, plan_is_current, receiver_clean_tombstone_plan,
    receiver_projection_work_state_matches, record_completed_tombstone_path, same_work_state,
    tombstone_is_recorded, tombstone_plan, GraphOperation, ProjectionEndpointBinding,
    ProjectionExecution, ProjectionTombstoneAuthorization,
};
use crate::ids::WorkspaceId;
use crate::intent::{ProjectionIntent, ProjectionIntentView, ProjectionPrecondition};
use crate::manifest::{
    ManifestProjectionTarget, ManifestedProjectionIntent, ManifestedProjectionIntentWire,
};
use crate::manifest_base::{AnnotatedProjectionBase, AnnotatedProjectionBaseWire};
use crate::page::{optional_text, ProjectionPageState};
use crate::path::ManagedPath;
use crate::plan::{
    base_bytes, lend_base, lent_base, plan_projection_with_layout_annotations, projection_plan,
    PageRendering, ProjectionPlan, ProjectionPlanView, SourceBase,
};
use crate::store_error::{IoFailure, ProjectionStoreError, Reason};
use crate::work::{
    authenticated_source_layout_base, layout_base, optional_base_wire, ArchiveRead,
};

verus! {

/// What the engine says of an accepted removal.
#[derive(Debug, PartialEq, Eq)]
pub enum CleanTombstoneAuthorization {
    Authorized(ProjectionTombstoneAuthorization),
    Superseded,
    Deferred,
}

/// How far a projection for another device's intent has come.
#[derive(Clone, Copy, Debug, PartialEq, Eq, Structural)]
pub enum ReceiverPhase {
    Endpoint,
    RetiringPending,
    Tombstone,
    Current,
    Input,
    LayoutBase,
    AcceptedState,
    Rendering,
    Incomplete,
    Delegated { index: usize },
    Revival,
    Absence,
    Deferring,
    Publishing,
    NotingIntent,
    Completion,
    Attempts,
    Reserving,
    Beginning { reserved: bool },
    Operating { operation: GraphOperation },
    PublishingCompletion,
    NotingCompletion,
    RetiringCompleted { already_complete: bool },
    Recording { already_complete: bool },
    Runtime { already_complete: bool },
    Supersession { already_complete: bool },
    Done,
}

/// What has to be done, or found out, next.
#[derive(Debug, PartialEq, Eq)]
pub enum ReceiverAction {
    /// Check that engine, receipt store and graph belong together.
    RequireEndpoint,
    /// Retire the recovery files of completed projections.
    RetirePending,
    /// Have the engine authorize the removal of the page.
    AuthorizeTombstone,
    /// Have the engine authorize a write and give the accepted page.
    AuthorizeWrite,
    /// Read the file at the projection path.
    ReadInput,
    /// Read the base that the source author rendered against from the archive.
    ReadLayoutBase,
    /// Have the engine give the accepted page that the source is for.
    AuthorizeRecovery,
    /// Serialise the accepted page against the file.
    Render,
    /// List the incomplete intents of the page at its path.
    ListIncomplete,
    /// Recover the listed intent at this position.
    RecoverIncomplete(usize),
    /// Find out whether the batch revives the page.
    AskRevival,
    /// Find out whether the absence of the file is to be deferred.
    AskAbsence,
    /// Note that the file was found gone.
    NoteDeferredAbsence,
    /// Publish the planned intent.
    PublishIntent,
    /// Note the planned intent in the engine.
    NoteIntent,
    /// Find out whether the planned intent has a completion.
    LoadCompletion,
    /// Find out whether the planned intent has reserved attempts.
    LoadAttempts,
    /// Reserve an attempt for the planned intent.
    ReserveAttempt,
    /// Begin to mutate, with the attempt just reserved or with those there are.
    BeginMutation { reserved: bool },
    /// Carry out a guarded operation.
    Operate(GraphOperation),
    /// Publish the completion of the planned intent.
    PublishCompletion,
    /// Note the completion in the engine.
    NoteCompletion,
    /// Retire the recovery files of the planned intent.
    RetireCompleted,
    /// Find out whether the engine runs without an index.
    AskIndexFree,
    /// Find out whether the source batch is superseded.
    AskSuperseded,
    /// The projection has ended: finished for this device, or to be tried again.
    Finish(Result<Option<ProjectionExecution>, ProjectionError>),
}

/// What came of what was asked for.
#[derive(Debug, PartialEq, Eq)]
pub enum ReceiverEvent {
    Endpoint(Result<ProjectionEndpointBinding, ProjectionError>),
    Retired(Result<(), ProjectionError>),
    Tombstone(Result<CleanTombstoneAuthorization, EngineError>),
    State(Result<ProjectionPageState, EngineError>),
    Input(Result<Option<Vec<u8>>, IoFailure>),
    LayoutBase(ArchiveRead),
    Rendered { base: Option<SourceBase>, rendering: PageRendering },
    Incomplete(Vec<ProjectionIntent>),
    Recovered(Result<ProjectionExecution, ProjectionError>),
    Answer(Result<bool, EngineError>),
    Stored(Result<bool, ProjectionStoreError>),
    Operated(Result<(), IoFailure>),
    Noted(Result<(), EngineError>),
}

/// A projection for an intent of another device that is being carried out.
#[derive(Debug, PartialEq, Eq)]
pub struct ReceiverRun {
    pub workspace_id: WorkspaceId,
    pub source: ManifestedProjectionIntent,
    /// Whether there is a projection that removals are authorized against.
    pub has_projection: bool,
    pub allow_mutation: bool,
    pub phase: ReceiverPhase,
    pub endpoint: Option<ProjectionEndpointBinding>,
    pub tombstone: Option<ProjectionTombstoneAuthorization>,
    /// Whether the source is no longer what is current.
    pub superseded: bool,
    /// The accepted page that is rendered.
    pub accepted: Option<ProjectionPageState>,
    pub local_base: Option<Vec<u8>>,
    pub layout_base: Option<AnnotatedProjectionBase>,
    pub plan: Option<ProjectionPlan>,
    pub incomplete: Vec<ProjectionIntent>,
    pub has_attempts: bool,
}

/// What a run says.
pub struct ReceiverRunView {
    pub workspace_id: WorkspaceId,
    pub source: ManifestedProjectionIntentWire,
    pub has_projection: bool,
    pub allow_mutation: bool,
    pub phase: ReceiverPhase,
    pub endpoint: Option<ProjectionEndpointBinding>,
    pub tombstone: Option<ProjectionTombstoneAuthorization>,
    pub superseded: bool,
    pub accepted: Option<ProjectionPageState>,
    pub local_base: Option<Seq<u8>>,
    pub layout_base: Option<AnnotatedProjectionBaseWire>,
    pub plan: Option<ProjectionPlanView>,
    pub incomplete: Seq<ProjectionIntent>,
    pub has_attempts: bool,
}

impl View for ReceiverRun {
    type V = ReceiverRunView;

    open spec fn view(&self) -> ReceiverRunView {
        ReceiverRunView {
            workspace_id: self.workspace_id,
            source: self.source.wire(),
            has_projection: self.has_projection,
            allow_mutation: self.allow_mutation,
            phase: self.phase,
            endpoint: self.endpoint,
            tombstone: self.tombstone,
            superseded: self.superseded,
            accepted: self.accepted,
            local_base: optional_text(self.local_base),
            layout_base: optional_base_wire(self.layout_base),
            plan: match self.plan {
                None => None,
                Some(plan) => Some(plan@),
            },
            incomplete: self.incomplete@,
            has_attempts: self.has_attempts,
        }
    }
}

/// Where a run goes next.
pub enum ReceiverStep {
    Ask(ReceiverRunView),
    Finish(Result<Option<ProjectionExecution>, ProjectionError>),
}

/// What a run asks for in a phase.
pub open spec fn receiver_asks(phase: ReceiverPhase) -> ReceiverAction {
    match phase {
        ReceiverPhase::Endpoint => ReceiverAction::RequireEndpoint,
        ReceiverPhase::RetiringPending => ReceiverAction::RetirePending,
        ReceiverPhase::Tombstone => ReceiverAction::AuthorizeTombstone,
        ReceiverPhase::Current => ReceiverAction::AuthorizeWrite,
        ReceiverPhase::Input => ReceiverAction::ReadInput,
        ReceiverPhase::LayoutBase => ReceiverAction::ReadLayoutBase,
        ReceiverPhase::AcceptedState => ReceiverAction::AuthorizeRecovery,
        ReceiverPhase::Rendering => ReceiverAction::Render,
        ReceiverPhase::Incomplete => ReceiverAction::ListIncomplete,
        ReceiverPhase::Delegated { index } => ReceiverAction::RecoverIncomplete(index),
        ReceiverPhase::Revival => ReceiverAction::AskRevival,
        ReceiverPhase::Absence => ReceiverAction::AskAbsence,
        ReceiverPhase::Deferring => ReceiverAction::NoteDeferredAbsence,
        ReceiverPhase::Publishing => ReceiverAction::PublishIntent,
        ReceiverPhase::NotingIntent => ReceiverAction::NoteIntent,
        ReceiverPhase::Completion => ReceiverAction::LoadCompletion,
        ReceiverPhase::Attempts => ReceiverAction::LoadAttempts,
        ReceiverPhase::Reserving => ReceiverAction::ReserveAttempt,
        ReceiverPhase::Beginning { reserved } => ReceiverAction::BeginMutation { reserved },
        ReceiverPhase::Operating { operation } => ReceiverAction::Operate(operation),
        ReceiverPhase::PublishingCompletion => ReceiverAction::PublishCompletion,
        ReceiverPhase::NotingCompletion => ReceiverAction::NoteCompletion,
        ReceiverPhase::RetiringCompleted { .. } => ReceiverAction::RetireCompleted,
        ReceiverPhase::Recording { .. } => ReceiverAction::AuthorizeWrite,
        ReceiverPhase::Runtime { .. } => ReceiverAction::AskIndexFree,
        ReceiverPhase::Supersession { .. } => ReceiverAction::AskSuperseded,
        ReceiverPhase::Done => ReceiverAction::Finish(Ok(None)),
    }
}

/// The run in another phase.
pub open spec fn receiver_in(run: ReceiverRunView, phase: ReceiverPhase) -> ReceiverStep {
    ReceiverStep::Ask(ReceiverRunView { phase, ..run })
}

/// The end of a run with an error.
pub open spec fn receiver_fails(error: ProjectionError) -> ReceiverStep {
    ReceiverStep::Finish(Err(error))
}

/// Whether the accepted page is the one that the source intent is for.
pub open spec fn source_is_current(
    source: ManifestedProjectionIntentWire,
    current: ProjectionPageState,
) -> bool {
    &&& current.page.path.text@ == source.path.text@
    &&& current.frontier@ == source.post_frontier@
    &&& claim_views(current.claim_evidence@) == claim_views(source.claim_evidence@)
}

/// The annotations that the page is rendered with.
pub open spec fn layout_annotations(base: Option<AnnotatedProjectionBaseWire>) -> Option<
    Seq<AnnotatedIdentityView>,
> {
    match base {
        None => None,
        Some(base) => Some(annotation_views(base.annotations@)),
    }
}

/// The positions among the first `n` intents that are of the planned page state.
pub open spec fn matching_intents(
    intents: Seq<ProjectionIntent>,
    plan: ProjectionIntentView,
    n: nat,
) -> Seq<int>
    decreases n,
{
    if n == 0 {
        Seq::empty()
    } else {
        let before = matching_intents(intents, plan, (n - 1) as nat);
        if same_work_state(intents[n - 1]@, plan) {
            before.push(n - 1)
        } else {
            before
        }
    }
}

/// The operation that carries a plan out.
pub open spec fn receiver_operation(run: ReceiverRunView) -> Option<GraphOperation> {
    let plan = run.plan->0;
    let exact = !(run.source.target is Absent) && run.local_base == Some(plan.target);
    if run.source.target is Absent {
        if run.has_attempts {
            match plan.intent.precondition {
                ProjectionPrecondition::Absent => Some(GraphOperation::ConfirmRemoved),
                ProjectionPrecondition::Base(_) => if plan.base is Some {
                    Some(GraphOperation::RecoverRemoved)
                } else {
                    None
                },
            }
        } else if run.local_base is Some {
            Some(GraphOperation::Remove)
        } else {
            Some(GraphOperation::ConfirmRemoved)
        }
    } else if exact || run.has_attempts {
        Some(GraphOperation::Recover)
    } else {
        Some(GraphOperation::Write)
    }
}

/// How a projection ends that was carried out, or had been before.
pub open spec fn receiver_done(already_complete: bool) -> ReceiverStep {
    ReceiverStep::Finish(
        Ok(
            Some(
                if already_complete {
                    ProjectionExecution::NeedsTurnRebarrier
                } else {
                    ProjectionExecution::BarrierTaken
                },
            ),
        ),
    )
}

/// Where a run goes once the plan is there: an absent file whose page is to be left may be
/// deferred; everything else is published.
pub open spec fn receiver_planned(run: ReceiverRunView) -> ReceiverStep {
    if run.source.target is Absent {
        receiver_in(run, ReceiverPhase::Publishing)
    } else {
        receiver_in(run, ReceiverPhase::Incomplete)
    }
}

/// Where a run goes once recovery files are retired and the completion is to be recorded.
pub open spec fn receiver_records(run: ReceiverRunView, already_complete: bool) -> ReceiverStep {
    match run.tombstone {
        None => receiver_in(run, ReceiverPhase::Recording { already_complete }),
        Some(authorization) => if tombstone_is_recorded(authorization, run.plan->0.intent) {
            receiver_done(already_complete)
        } else {
            receiver_fails(ProjectionError::RecoveryIntentMismatch)
        },
    }
}

/// Where a run goes once engine, receipt store and graph are known to belong together.
pub open spec fn receiver_after_retiring(run: ReceiverRunView) -> ReceiverStep {
    if run.endpoint is Some && run.source.source_endpoint_id == run.endpoint->0.endpoint_id {
        receiver_fails(ProjectionError::ReceiverEndpointIsSource)
    } else if run.source.target is Absent {
        if run.has_projection {
            receiver_in(run, ReceiverPhase::Tombstone)
        } else {
            receiver_fails(
                ProjectionError::Engine(
                    EngineError::ProjectionWork(
                        Reason::Own(
                            "clean receiver-local deletion has no disposable SQLite projection",
                        ),
                    ),
                ),
            )
        }
    } else {
        receiver_in(run, ReceiverPhase::Current)
    }
}

/// Where a run goes while it is bound to its endpoint.
#[verifier::opaque]
pub open spec fn receiver_bind(run: ReceiverRunView, event: ReceiverEvent) -> ReceiverStep {
    match (run.phase, event) {
        (ReceiverPhase::Endpoint, ReceiverEvent::Endpoint(endpoint)) => match endpoint {
            Err(error) => receiver_fails(error),
            Ok(endpoint) => ReceiverStep::Ask(
                ReceiverRunView {
                    phase: ReceiverPhase::RetiringPending,
                    endpoint: Some(endpoint),
                    ..run
                },
            ),
        },
        (ReceiverPhase::RetiringPending, ReceiverEvent::Retired(retired)) => match retired {
            Err(error) => receiver_fails(error),
            Ok(()) => receiver_after_retiring(run),
        },
        (ReceiverPhase::Tombstone, ReceiverEvent::Tombstone(authorized)) => match authorized {
            Err(error) => receiver_fails(ProjectionError::Engine(error)),
            Ok(CleanTombstoneAuthorization::Authorized(authorization)) => ReceiverStep::Ask(
                ReceiverRunView {
                    phase: ReceiverPhase::Input,
                    tombstone: Some(authorization),
                    ..run
                },
            ),
            Ok(CleanTombstoneAuthorization::Superseded) => ReceiverStep::Finish(
                Ok(Some(ProjectionExecution::NeedsTurnRebarrier)),
            ),
            Ok(CleanTombstoneAuthorization::Deferred) => ReceiverStep::Finish(Ok(None)),
        },
        _ => ReceiverStep::Ask(run),
    }
}

/// Where a run goes while it looks at the accepted page and the file.
#[verifier::opaque]
pub open spec fn receiver_look(run: ReceiverRunView, event: ReceiverEvent) -> ReceiverStep {
    match (run.phase, event) {
        (ReceiverPhase::Current, ReceiverEvent::State(state)) => match state {
            Err(EngineError::ProjectionAuthorizationUnavailable) => ReceiverStep::Finish(Ok(None)),
            Err(error) => receiver_fails(ProjectionError::Engine(error)),
            Ok(current) => ReceiverStep::Ask(
                ReceiverRunView {
                    phase: ReceiverPhase::Input,
                    superseded: !source_is_current(run.source, current),
                    accepted: Some(current),
                    ..run
                },
            ),
        },
        (ReceiverPhase::Input, ReceiverEvent::Input(input)) => match input {
            Err(failure) => receiver_fails(ProjectionError::Io(failure)),
            Ok(input) => {
                let read = ReceiverRunView { local_base: optional_text(input), ..run };
                match run.tombstone {
                    None => receiver_in(read, ReceiverPhase::LayoutBase),
                    Some(authorization) => receiver_planned(
                        ReceiverRunView {
                            plan: Some(
                                tombstone_plan(run.workspace_id, authorization, read.local_base),
                            ),
                            ..read
                        },
                    ),
                }
            },
        },
        _ => ReceiverStep::Ask(run),
    }
}

/// Where a run goes while it gathers what the page is rendered from.
#[verifier::opaque]
pub open spec fn receiver_gather(run: ReceiverRunView, event: ReceiverEvent) -> ReceiverStep {
    match (run.phase, event) {
        (ReceiverPhase::LayoutBase, ReceiverEvent::LayoutBase(read)) => match layout_base(
            run.source,
            read,
        ) {
            Err(error) => receiver_fails(error),
            Ok(base) => {
                let based = ReceiverRunView { layout_base: base, ..run };
                if run.superseded {
                    receiver_in(based, ReceiverPhase::Rendering)
                } else if run.source.workspace_id != run.workspace_id {
                    receiver_fails(ProjectionError::ReceiverSourceMismatch)
                } else {
                    receiver_in(based, ReceiverPhase::AcceptedState)
                }
            },
        },
        (ReceiverPhase::AcceptedState, ReceiverEvent::State(state)) => match state {
            Err(error) => receiver_fails(ProjectionError::Engine(error)),
            Ok(state) => receiver_in(
                ReceiverRunView { accepted: Some(state), ..run },
                ReceiverPhase::Rendering,
            ),
        },
        _ => ReceiverStep::Ask(run),
    }
}

/// Where a run goes while it plans the page.
#[verifier::opaque]
pub open spec fn receiver_plan_page(run: ReceiverRunView, event: ReceiverEvent) -> ReceiverStep {
    match (run.phase, event) {
        (ReceiverPhase::Rendering, ReceiverEvent::Rendered { base, rendering }) => if base_bytes(
            lent_base(&base),
        ) != run.local_base {
            ReceiverStep::Ask(run)
        } else {
            match projection_plan(
                run.workspace_id,
                run.accepted->0,
                lent_base(&base),
                layout_annotations(run.layout_base),
                rendering,
            ) {
                Err(error) => receiver_fails(error),
                Ok(plan) => receiver_planned(ReceiverRunView { plan: Some(plan), ..run }),
            }
        },
        _ => ReceiverStep::Ask(run),
    }
}

/// Where a run goes while it looks for an incomplete intent.
#[verifier::opaque]
pub open spec fn receiver_resume(run: ReceiverRunView, event: ReceiverEvent) -> ReceiverStep {
    match (run.phase, event) {
        (ReceiverPhase::Incomplete, ReceiverEvent::Incomplete(intents)) => {
            let matching = matching_intents(intents@, run.plan->0.intent, intents@.len());
            let listed = ReceiverRunView { incomplete: intents@, ..run };
            if matching.len() == 0 {
                receiver_in(
                    listed,
                    if run.local_base is None {
                        ReceiverPhase::Revival
                    } else {
                        ReceiverPhase::Publishing
                    },
                )
            } else if matching.len() == 1 {
                receiver_in(listed, ReceiverPhase::Delegated { index: matching[0] as usize })
            } else {
                receiver_fails(ProjectionError::RecoveryIntentMismatch)
            }
        },
        (ReceiverPhase::Delegated { .. }, ReceiverEvent::Recovered(recovered)) => match recovered {
            Err(error) => receiver_fails(error),
            Ok(execution) => ReceiverStep::Finish(Ok(Some(execution))),
        },
        _ => ReceiverStep::Ask(run),
    }
}

/// Where a run goes while it considers a missing file.
#[verifier::opaque]
pub open spec fn receiver_consider_absence(run: ReceiverRunView, event: ReceiverEvent) -> ReceiverStep {
    match (run.phase, event) {
        (ReceiverPhase::Revival, ReceiverEvent::Answer(revives)) => match revives {
            Err(error) => receiver_fails(ProjectionError::Engine(error)),
            Ok(revives) => receiver_in(
                run,
                if revives {
                    ReceiverPhase::Publishing
                } else {
                    ReceiverPhase::Absence
                },
            ),
        },
        (ReceiverPhase::Absence, ReceiverEvent::Answer(deferred)) => match deferred {
            Err(error) => receiver_fails(ProjectionError::Engine(error)),
            Ok(deferred) => receiver_in(
                run,
                if deferred {
                    ReceiverPhase::Deferring
                } else {
                    ReceiverPhase::Publishing
                },
            ),
        },
        (ReceiverPhase::Deferring, ReceiverEvent::Noted(_)) => ReceiverStep::Finish(
            Ok(Some(ProjectionExecution::DeferredAbsence)),
        ),
        _ => ReceiverStep::Ask(run),
    }
}

/// Where a run goes while it publishes the intent.
#[verifier::opaque]
pub open spec fn receiver_publish(run: ReceiverRunView, event: ReceiverEvent) -> ReceiverStep {
    match (run.phase, event) {
        (ReceiverPhase::Publishing, ReceiverEvent::Stored(stored)) => match stored {
            Err(error) => receiver_fails(ProjectionError::Store(Box::new(error))),
            Ok(_) => receiver_in(run, ReceiverPhase::NotingIntent),
        },
        (ReceiverPhase::NotingIntent, ReceiverEvent::Noted(noted)) => match noted {
            Err(error) => receiver_fails(ProjectionError::Engine(error)),
            Ok(()) => receiver_in(run, ReceiverPhase::Completion),
        },
        (ReceiverPhase::Completion, ReceiverEvent::Stored(stored)) => match stored {
            Err(error) => receiver_fails(ProjectionError::Store(Box::new(error))),
            Ok(true) => receiver_in(
                run,
                ReceiverPhase::RetiringCompleted { already_complete: true },
            ),
            Ok(false) => if run.allow_mutation {
                receiver_in(run, ReceiverPhase::Attempts)
            } else {
                ReceiverStep::Finish(Ok(None))
            },
        },
        _ => ReceiverStep::Ask(run),
    }
}

/// Where a run goes while it begins to mutate.
#[verifier::opaque]
pub open spec fn receiver_begin(run: ReceiverRunView, event: ReceiverEvent) -> ReceiverStep {
    match (run.phase, event) {
        (ReceiverPhase::Attempts, ReceiverEvent::Stored(stored)) => match stored {
            Err(error) => receiver_fails(ProjectionError::Store(Box::new(error))),
            Ok(has_attempts) => receiver_in(
                ReceiverRunView { has_attempts, ..run },
                if has_attempts {
                    ReceiverPhase::Beginning { reserved: false }
                } else {
                    ReceiverPhase::Reserving
                },
            ),
        },
        (ReceiverPhase::Reserving, ReceiverEvent::Stored(stored)) => match stored {
            Err(error) => receiver_fails(ProjectionError::Store(Box::new(error))),
            Ok(_) => receiver_in(run, ReceiverPhase::Beginning { reserved: true }),
        },
        (ReceiverPhase::Beginning { .. }, ReceiverEvent::Stored(stored)) => match stored {
            Err(error) => receiver_fails(ProjectionError::Store(Box::new(error))),
            Ok(_) => match receiver_operation(run) {
                None => receiver_fails(ProjectionError::ReceiverSourceAbsent),
                Some(operation) => receiver_in(run, ReceiverPhase::Operating { operation }),
            },
        },
        _ => ReceiverStep::Ask(run),
    }
}

/// Where a run goes while it completes what was carried out.
#[verifier::opaque]
pub open spec fn receiver_complete(run: ReceiverRunView, event: ReceiverEvent) -> ReceiverStep {
    match (run.phase, event) {
        (ReceiverPhase::Operating { .. }, ReceiverEvent::Operated(operated)) => match operated {
            Err(failure) => receiver_fails(ProjectionError::Io(failure)),
            Ok(()) => receiver_in(run, ReceiverPhase::PublishingCompletion),
        },
        (ReceiverPhase::PublishingCompletion, ReceiverEvent::Stored(stored)) => match stored {
            Err(error) => receiver_fails(ProjectionError::Store(Box::new(error))),
            Ok(_) => receiver_in(run, ReceiverPhase::NotingCompletion),
        },
        (ReceiverPhase::NotingCompletion, ReceiverEvent::Noted(noted)) => match noted {
            Err(error) => receiver_fails(ProjectionError::Engine(error)),
            Ok(()) => receiver_in(
                run,
                ReceiverPhase::RetiringCompleted { already_complete: false },
            ),
        },
        _ => ReceiverStep::Ask(run),
    }
}

/// Where a run goes while it records the completion.
#[verifier::opaque]
pub open spec fn receiver_record(run: ReceiverRunView, event: ReceiverEvent) -> ReceiverStep {
    match (run.phase, event) {
        (
            ReceiverPhase::RetiringCompleted { already_complete },
            ReceiverEvent::Retired(retired),
        ) => match retired {
            Err(error) => receiver_fails(error),
            Ok(()) => receiver_records(run, already_complete),
        },
        (ReceiverPhase::Recording { already_complete }, ReceiverEvent::State(state)) => {
            match state {
                Err(error) => receiver_fails(ProjectionError::Engine(error)),
                Ok(current) => if plan_is_current(
                    run.workspace_id,
                    current,
                    run.plan->0.intent,
                ) {
                    receiver_done(already_complete)
                } else {
                    receiver_in(run, ReceiverPhase::Runtime { already_complete })
                },
            }
        },
        _ => ReceiverStep::Ask(run),
    }
}

/// Where a run goes while it excuses a completion that is not current.
#[verifier::opaque]
pub open spec fn receiver_excuse(run: ReceiverRunView, event: ReceiverEvent) -> ReceiverStep {
    match (run.phase, event) {
        (ReceiverPhase::Runtime { already_complete }, ReceiverEvent::Answer(index_free)) => {
            match index_free {
                Ok(true) => receiver_in(run, ReceiverPhase::Supersession { already_complete }),
                _ => receiver_fails(ProjectionError::RecoveryIntentMismatch),
            }
        },
        (ReceiverPhase::Supersession { already_complete }, ReceiverEvent::Answer(superseded)) => {
            match superseded {
                Err(error) => receiver_fails(ProjectionError::Engine(error)),
                Ok(true) => receiver_done(already_complete),
                Ok(false) => receiver_fails(ProjectionError::RecoveryIntentMismatch),
            }
        },
        _ => ReceiverStep::Ask(run),
    }
}

/// Where a run goes on an event. An event that answers nothing that was asked changes nothing.
pub open spec fn receiver_step(run: ReceiverRunView, event: ReceiverEvent) -> ReceiverStep {
    match run.phase {
        ReceiverPhase::Endpoint | ReceiverPhase::RetiringPending | ReceiverPhase::Tombstone => {
            receiver_bind(run, event)
        },
        ReceiverPhase::Current | ReceiverPhase::Input => receiver_look(run, event),
        ReceiverPhase::LayoutBase | ReceiverPhase::AcceptedState => receiver_gather(run, event),
        ReceiverPhase::Rendering => receiver_plan_page(run, event),
        ReceiverPhase::Incomplete | ReceiverPhase::Delegated { .. } => receiver_resume(run, event),
        ReceiverPhase::Revival | ReceiverPhase::Absence | ReceiverPhase::Deferring => {
            receiver_consider_absence(run, event)
        },
        ReceiverPhase::Publishing | ReceiverPhase::NotingIntent | ReceiverPhase::Completion => {
            receiver_publish(run, event)
        },
        ReceiverPhase::Attempts | ReceiverPhase::Reserving | ReceiverPhase::Beginning { .. } => {
            receiver_begin(run, event)
        },
        ReceiverPhase::Operating { .. } | ReceiverPhase::PublishingCompletion
        | ReceiverPhase::NotingCompletion => {
            receiver_complete(run, event)
        },
        ReceiverPhase::RetiringCompleted { .. } | ReceiverPhase::Recording { .. } => {
            receiver_record(run, event)
        },
        ReceiverPhase::Runtime { .. } | ReceiverPhase::Supersession { .. } => {
            receiver_excuse(run, event)
        },
        ReceiverPhase::Done => ReceiverStep::Ask(run),
    }
}

/// Whether a phase comes after the plan was made.
pub open spec fn receiver_needs_plan(phase: ReceiverPhase) -> bool {
    !(phase is Endpoint || phase is RetiringPending || phase is Tombstone || phase is Current
        || phase is Input || phase is LayoutBase || phase is AcceptedState || phase is Rendering
        || phase is Done)
}

/// Whether a phase belongs to the mutation of the file.
pub open spec fn receiver_mutates(phase: ReceiverPhase) -> bool {
    phase is Attempts || phase is Reserving || phase is Beginning || phase is Operating
        || phase is PublishingCompletion || phase is NotingCompletion
}

/// Whether a phase comes after the source is known to be of another endpoint.
pub open spec fn receiver_knows_source(phase: ReceiverPhase) -> bool {
    !(phase is Endpoint || phase is RetiringPending || phase is Done)
}

/// What holds of a run between two events.
pub open spec fn receiver_run_wf(run: ReceiverRunView) -> bool {
    &&& phase_knows_endpoint(run)
    &&& receiver_needs_plan(run.phase) ==> run.plan is Some && run.plan->0.base == run.local_base
    &&& run.phase is Rendering || run.phase is LayoutBase ==> run.accepted is Some
    &&& run.phase is Input && !(run.source.target is Absent) ==> run.accepted is Some
    &&& receiver_mutates(run.phase) ==> run.allow_mutation
    &&& run.tombstone is Some ==> run.source.target is Absent
    &&& receiver_needs_plan(run.phase) || run.phase is Input ==> (run.source.target is Absent
        <==> run.tombstone is Some)
    &&& run.phase is Tombstone ==> run.source.target is Absent
    &&& run.phase is Current || run.phase is LayoutBase || run.phase is AcceptedState
        || run.phase is Rendering || run.phase is Incomplete || run.phase is Delegated
        || run.phase is Revival || run.phase is Absence || run.phase is Deferring ==> !(
    run.source.target is Absent)
    &&& run.phase is Delegated ==> run.phase->index < run.incomplete.len() && same_work_state(
        run.incomplete[run.phase->index as int]@,
        run.plan->0.intent,
    )
    &&& run.phase is Absence || run.phase is Revival || run.phase is Deferring ==> run.local_base is None
}

/// Past the first two phases, the source is of another endpoint than this one.
pub open spec fn phase_knows_endpoint(run: ReceiverRunView) -> bool {
    &&& !(run.phase is Endpoint || run.phase is Done) ==> run.endpoint is Some
    &&& receiver_knows_source(run.phase) ==> run.source.source_endpoint_id
        != run.endpoint->0.endpoint_id
}

/// A plan starts from the bytes that it was made against.
pub proof fn lemma_plan_base(
    workspace_id: WorkspaceId,
    state: ProjectionPageState,
    base: Option<&SourceBase>,
    annotations: Option<Seq<AnnotatedIdentityView>>,
    rendering: PageRendering,
)
    requires
        projection_plan(workspace_id, state, base, annotations, rendering) is Ok,
    ensures
        projection_plan(workspace_id, state, base, annotations, rendering)->Ok_0.base == base_bytes(
            base,
        ),
{
}

/// The positions of matching intents are positions of the list, and those intents match.
pub proof fn lemma_matching(intents: Seq<ProjectionIntent>, plan: ProjectionIntentView, n: nat)
    requires
        n <= intents.len(),
    ensures
        forall|k: int|
            0 <= k < matching_intents(intents, plan, n).len() ==> {
                let at = #[trigger] matching_intents(intents, plan, n)[k];
                0 <= at < n && same_work_state(intents[at]@, plan)
            },
    decreases n,
{
    if n > 0 {
        lemma_matching(intents, plan, (n - 1) as nat);
        let before = matching_intents(intents, plan, (n - 1) as nat);
        let all = matching_intents(intents, plan, n);
        assert forall|k: int| 0 <= k < all.len() implies {
            let at = #[trigger] all[k];
            0 <= at < n && same_work_state(intents[at]@, plan)
        } by {
            if k < before.len() {
                assert(all[k] == before[k]);
            }
        }
    }
}

/// Every event leaves a run with what its phase stands on. A list of intents has no more than a
/// machine can count.
pub proof fn law_receiver_run_stays_well_formed(run: ReceiverRunView, event: ReceiverEvent)
    requires
        receiver_run_wf(run),
        receiver_step(run, event) is Ask,
        event matches ReceiverEvent::Incomplete(intents) ==> intents@.len() <= usize::MAX,
    ensures
        receiver_run_wf(receiver_step(run, event)->Ask_0),
{
    reveal(receiver_bind);
    reveal(receiver_look);
    reveal(receiver_gather);
    reveal(receiver_plan_page);
    reveal(receiver_resume);
    reveal(receiver_consider_absence);
    reveal(receiver_publish);
    reveal(receiver_begin);
    reveal(receiver_complete);
    reveal(receiver_record);
    reveal(receiver_excuse);
    match event {
        ReceiverEvent::Rendered { base, rendering } => {
            if run.phase is Rendering && base_bytes(lent_base(&base)) == run.local_base {
                lemma_plan_base(
                    run.workspace_id,
                    run.accepted->0,
                    lent_base(&base),
                    layout_annotations(run.layout_base),
                    rendering,
                );
            }
        },
        ReceiverEvent::Incomplete(intents) => {
            lemma_matching(intents@, run.plan->0.intent, intents@.len());
            let matching = matching_intents(intents@, run.plan->0.intent, intents@.len());
            if matching.len() == 1 {
                let at = matching[0];
                assert(0 <= at < intents@.len());
            }
        },
        _ => {},
    }
}

/// Whatever another device asks for, the page's file is only touched where mutation is allowed,
/// and the plan that is carried out starts from exactly the bytes that this device read.
pub proof fn law_receiver_starts_from_local_bytes(run: ReceiverRunView, operation: GraphOperation)
    requires
        receiver_run_wf(run),
        receiver_asks(run.phase) == ReceiverAction::Operate(operation),
    ensures
        run.allow_mutation,
        run.plan is Some,
        run.plan->0.base == run.local_base,
        run.source.source_endpoint_id != run.endpoint->0.endpoint_id,
{
}

/// A device does not project its own intents as those of another: nothing is read or published.
pub proof fn law_own_intents_are_refused(run: ReceiverRunView)
    requires
        run.phase is RetiringPending,
        run.endpoint is Some,
        run.source.source_endpoint_id == run.endpoint->0.endpoint_id,
    ensures
        receiver_step(run, ReceiverEvent::Retired(Ok(()))) == ReceiverStep::Finish(
            Err(ProjectionError::ReceiverEndpointIsSource),
        ),
{
    reveal(receiver_bind);
}

/// Whether a run is where it goes next and asks for that, or has ended.
pub open spec fn receiver_goes(
    step: ReceiverStep,
    after: ReceiverRunView,
    action: ReceiverAction,
) -> bool {
    &&& receiver_run_wf(after)
    &&& match step {
        ReceiverStep::Ask(next) => after == next && action == receiver_asks(next.phase),
        ReceiverStep::Finish(outcome) => action == ReceiverAction::Finish(outcome)
            && after.phase is Done,
    }
}

impl ReceiverRun {
    /// The run for an intent, before anything was asked.
    pub fn new(
        workspace_id: WorkspaceId,
        source: ManifestedProjectionIntent,
        has_projection: bool,
        allow_mutation: bool,
    ) -> (run: ReceiverRun)
        ensures
            run@ == (ReceiverRunView {
                workspace_id,
                source: source.wire(),
                has_projection,
                allow_mutation,
                phase: ReceiverPhase::Endpoint,
                endpoint: None,
                tombstone: None,
                superseded: false,
                accepted: None,
                local_base: None,
                layout_base: None,
                plan: None,
                incomplete: Seq::empty(),
                has_attempts: false,
            }),
            receiver_run_wf(run@),
    {
        let run = ReceiverRun {
            workspace_id,
            source,
            has_projection,
            allow_mutation,
            phase: ReceiverPhase::Endpoint,
            endpoint: None,
            tombstone: None,
            superseded: false,
            accepted: None,
            local_base: None,
            layout_base: None,
            plan: None,
            incomplete: Vec::new(),
            has_attempts: false,
        };
        assert(run@.incomplete =~= Seq::<ProjectionIntent>::empty());
        run
    }

    /// The path that the page is projected at: that of the accepted page where the source is no
    /// longer current.
    pub fn projection_path(&self) -> (path: &ManagedPath)
        ensures
            *path == (if self.superseded && self.accepted is Some {
                self.accepted->0.page.path
            } else {
                self.source.wire().path
            }),
    {
        match &self.accepted {
            Some(current) => if self.superseded {
                &current.page.path
            } else {
                self.source.path()
            },
            None => self.source.path(),
        }
    }

    /// What the run asks for.
    pub fn asks(&self) -> (action: ReceiverAction)
        ensures
            action == receiver_asks(self.phase),
    {
        match self.phase {
            ReceiverPhase::Endpoint => ReceiverAction::RequireEndpoint,
            ReceiverPhase::RetiringPending => ReceiverAction::RetirePending,
            ReceiverPhase::Tombstone => ReceiverAction::AuthorizeTombstone,
            ReceiverPhase::Current => ReceiverAction::AuthorizeWrite,
            ReceiverPhase::Input => ReceiverAction::ReadInput,
            ReceiverPhase::LayoutBase => ReceiverAction::ReadLayoutBase,
            ReceiverPhase::AcceptedState => ReceiverAction::AuthorizeRecovery,
            ReceiverPhase::Rendering => ReceiverAction::Render,
            ReceiverPhase::Incomplete => ReceiverAction::ListIncomplete,
            ReceiverPhase::Delegated { index } => ReceiverAction::RecoverIncomplete(index),
            ReceiverPhase::Revival => ReceiverAction::AskRevival,
            ReceiverPhase::Absence => ReceiverAction::AskAbsence,
            ReceiverPhase::Deferring => ReceiverAction::NoteDeferredAbsence,
            ReceiverPhase::Publishing => ReceiverAction::PublishIntent,
            ReceiverPhase::NotingIntent => ReceiverAction::NoteIntent,
            ReceiverPhase::Completion => ReceiverAction::LoadCompletion,
            ReceiverPhase::Attempts => ReceiverAction::LoadAttempts,
            ReceiverPhase::Reserving => ReceiverAction::ReserveAttempt,
            ReceiverPhase::Beginning { reserved } => ReceiverAction::BeginMutation { reserved },
            ReceiverPhase::Operating { operation } => ReceiverAction::Operate(operation),
            ReceiverPhase::PublishingCompletion => ReceiverAction::PublishCompletion,
            ReceiverPhase::NotingCompletion => ReceiverAction::NoteCompletion,
            ReceiverPhase::RetiringCompleted { .. } => ReceiverAction::RetireCompleted,
            ReceiverPhase::Recording { .. } => ReceiverAction::AuthorizeWrite,
            ReceiverPhase::Runtime { .. } => ReceiverAction::AskIndexFree,
            ReceiverPhase::Supersession { .. } => ReceiverAction::AskSuperseded,
            ReceiverPhase::Done => ReceiverAction::Finish(Ok(None)),
        }
    }

    /// Takes an event and says what comes next.
    pub fn advance(&mut self, event: ReceiverEvent) -> (action: ReceiverAction)
        requires
            receiver_run_wf(old(self)@),
        ensures
            receiver_goes(receiver_step(old(self)@, event), final(self)@, action),
    {
        match self.phase {
            ReceiverPhase::Endpoint
            | ReceiverPhase::RetiringPending
            | ReceiverPhase::Tombstone => self.bind(event),
            ReceiverPhase::Current | ReceiverPhase::Input => self.look(event),
            ReceiverPhase::LayoutBase | ReceiverPhase::AcceptedState => self.gather(event),
            ReceiverPhase::Rendering => self.plan_page(event),
            ReceiverPhase::Incomplete | ReceiverPhase::Delegated { .. } => self.resume(event),
            ReceiverPhase::Revival | ReceiverPhase::Absence | ReceiverPhase::Deferring => {
                self.consider_absence(event)
            },
            ReceiverPhase::Publishing
            | ReceiverPhase::NotingIntent
            | ReceiverPhase::Completion => self.publish(event),
            ReceiverPhase::Attempts
            | ReceiverPhase::Reserving
            | ReceiverPhase::Beginning { .. } => self.begin(event),
            ReceiverPhase::Operating { .. }
            | ReceiverPhase::PublishingCompletion
            | ReceiverPhase::NotingCompletion => self.complete(event),
            ReceiverPhase::RetiringCompleted { .. } | ReceiverPhase::Recording { .. } => {
                self.record(event)
            },
            ReceiverPhase::Runtime { .. } | ReceiverPhase::Supersession { .. } => {
                self.excuse(event)
            },
            ReceiverPhase::Done => self.asks(),
        }
    }

    /// Ends the run.
    fn finish(&mut self, outcome: Result<Option<ProjectionExecution>, ProjectionError>) -> (action:
        ReceiverAction)
        requires
            old(self).tombstone is Some ==> old(self).source.wire().target is Absent,
        ensures
            action == ReceiverAction::Finish(outcome),
            final(self).phase is Done,
            receiver_run_wf(final(self)@),
    {
        self.phase = ReceiverPhase::Done;
        ReceiverAction::Finish(outcome)
    }

    /// Ends a run that was carried out, or had been before.
    fn finish_done(&mut self, already_complete: bool) -> (action: ReceiverAction)
        requires
            old(self).tombstone is Some ==> old(self).source.wire().target is Absent,
        ensures
            action == ReceiverAction::Finish(receiver_done(already_complete)->Finish_0),
            final(self).phase is Done,
            receiver_run_wf(final(self)@),
    {
        self.finish(
            Ok(
                Some(
                    if already_complete {
                        ProjectionExecution::NeedsTurnRebarrier
                    } else {
                        ProjectionExecution::BarrierTaken
                    },
                ),
            ),
        )
    }

    /// Whether the source removes the page.
    fn source_is_absent(&self) -> (absent: bool)
        ensures
            absent == (self@.source.target is Absent),
    {
        match self.source.target() {
            ManifestProjectionTarget::Absent => true,
            ManifestProjectionTarget::Present { .. } => false,
        }
    }

    /// Binds the run to the endpoint and takes up the source.
    fn bind(&mut self, event: ReceiverEvent) -> (action: ReceiverAction)
        requires
            receiver_run_wf(old(self)@),
            old(self).phase is Endpoint || old(self).phase is RetiringPending
                || old(self).phase is Tombstone,
        ensures
            receiver_goes(receiver_bind(old(self)@, event), final(self)@, action),
    {
        reveal(receiver_bind);
        match (self.phase, event) {
            (ReceiverPhase::Endpoint, ReceiverEvent::Endpoint(endpoint)) => match endpoint {
                Err(error) => return self.finish(Err(error)),
                Ok(endpoint) => {
                    self.endpoint = Some(endpoint);
                    self.phase = ReceiverPhase::RetiringPending;
                },
            },
            (ReceiverPhase::RetiringPending, ReceiverEvent::Retired(retired)) => {
                if let Err(error) = retired {
                    return self.finish(Err(error));
                }
                let own = match &self.endpoint {
                    Some(endpoint) => self.source.source_endpoint_id() == endpoint.endpoint_id,
                    None => false,
                };
                if own {
                    return self.finish(Err(ProjectionError::ReceiverEndpointIsSource));
                }
                if self.source_is_absent() {
                    if !self.has_projection {
                        return self.finish(
                            Err(
                                ProjectionError::Engine(
                                    EngineError::ProjectionWork(
                                        Reason::Own(
                                            "clean receiver-local deletion has no disposable SQLite projection",
                                        ),
                                    ),
                                ),
                            ),
                        );
                    }
                    self.phase = ReceiverPhase::Tombstone;
                } else {
                    self.phase = ReceiverPhase::Current;
                }
            },
            (ReceiverPhase::Tombstone, ReceiverEvent::Tombstone(authorized)) => match authorized {
                Err(error) => return self.finish(Err(ProjectionError::Engine(error))),
                Ok(CleanTombstoneAuthorization::Authorized(authorization)) => {
                    self.tombstone = Some(authorization);
                    self.phase = ReceiverPhase::Input;
                },
                Ok(CleanTombstoneAuthorization::Superseded) => {
                    return self.finish(Ok(Some(ProjectionExecution::NeedsTurnRebarrier)));
                },
                Ok(CleanTombstoneAuthorization::Deferred) => return self.finish(Ok(None)),
            },
            _ => {},
        }
        self.asks()
    }

    /// Looks at the accepted page and the file.
    fn look(&mut self, event: ReceiverEvent) -> (action: ReceiverAction)
        requires
            receiver_run_wf(old(self)@),
            old(self).phase is Current || old(self).phase is Input,
        ensures
            receiver_goes(receiver_look(old(self)@, event), final(self)@, action),
    {
        reveal(receiver_look);
        match (self.phase, event) {
            (ReceiverPhase::Current, ReceiverEvent::State(state)) => match state {
                Err(EngineError::ProjectionAuthorizationUnavailable) => {
                    return self.finish(Ok(None));
                },
                Err(error) => return self.finish(Err(ProjectionError::Engine(error))),
                Ok(current) => {
                    let matches = current.page.path.same(self.source.path())
                        && current.frontier.same(self.source.post_frontier()) && same_claims(
                        current.claim_evidence.as_slice(),
                        self.source.claim_evidence(),
                    );
                    self.superseded = !matches;
                    self.accepted = Some(current);
                    self.phase = ReceiverPhase::Input;
                },
            },
            (ReceiverPhase::Input, ReceiverEvent::Input(input)) => {
                let input = match input {
                    Err(failure) => return self.finish(Err(ProjectionError::Io(failure))),
                    Ok(input) => input,
                };
                let planned = match &self.tombstone {
                    None => None,
                    Some(authorization) => {
                        let bytes = match &input {
                            None => None,
                            Some(bytes) => Some(bytes.as_slice()),
                        };
                        Some(receiver_clean_tombstone_plan(self.workspace_id, authorization, bytes))
                    },
                };
                self.local_base = input;
                match planned {
                    None => {
                        self.phase = ReceiverPhase::LayoutBase;
                    },
                    Some(Err(error)) => return self.finish(Err(error)),
                    Some(Ok(plan)) => {
                        self.plan = Some(plan);
                        self.phase = ReceiverPhase::Publishing;
                    },
                }
            },
            _ => {},
        }
        self.asks()
    }

    /// Gathers what the page is rendered from.
    fn gather(&mut self, event: ReceiverEvent) -> (action: ReceiverAction)
        requires
            receiver_run_wf(old(self)@),
            old(self).phase is LayoutBase || old(self).phase is AcceptedState,
        ensures
            receiver_goes(receiver_gather(old(self)@, event), final(self)@, action),
    {
        reveal(receiver_gather);
        match (self.phase, event) {
            (ReceiverPhase::LayoutBase, ReceiverEvent::LayoutBase(read)) => {
                let base = match authenticated_source_layout_base(&self.source, read) {
                    Err(error) => return self.finish(Err(error)),
                    Ok(base) => base,
                };
                self.layout_base = base;
                if self.superseded {
                    self.phase = ReceiverPhase::Rendering;
                } else {
                    if self.source.workspace_id() != self.workspace_id {
                        return self.finish(Err(ProjectionError::ReceiverSourceMismatch));
                    }
                    self.phase = ReceiverPhase::AcceptedState;
                }
            },
            (ReceiverPhase::AcceptedState, ReceiverEvent::State(state)) => match state {
                Err(error) => return self.finish(Err(ProjectionError::Engine(error))),
                Ok(state) => {
                    self.accepted = Some(state);
                    self.phase = ReceiverPhase::Rendering;
                },
            },
            _ => {},
        }
        self.asks()
    }

    /// Plans the page from its rendering.
    fn plan_page(&mut self, event: ReceiverEvent) -> (action: ReceiverAction)
        requires
            receiver_run_wf(old(self)@),
            old(self).phase is Rendering,
        ensures
            receiver_goes(receiver_plan_page(old(self)@, event), final(self)@, action),
    {
        reveal(receiver_plan_page);
        match event {
            ReceiverEvent::Rendered { base, rendering } => {
                let same_base = match (&base, &self.local_base) {
                    (None, None) => true,
                    (Some(base), Some(bytes)) => same_bytes(
                        base.bytes.as_slice(),
                        bytes.as_slice(),
                    ),
                    _ => false,
                };
                if !same_base {
                    return self.asks();
                }
                let annotations: Option<&[AnnotatedIdentity]> = match &self.layout_base {
                    None => None,
                    Some(base) => Some(base.annotations()),
                };
                let planned = match &self.accepted {
                    None => return self.asks(),
                    Some(accepted) => plan_projection_with_layout_annotations(
                        self.workspace_id,
                        accepted,
                        lend_base(&base),
                        annotations,
                        &rendering,
                    ),
                };
                proof {
                    let run = old(self)@;
                    assert(base_bytes(lent_base(&base)) == run.local_base);
                    if projection_plan(
                        run.workspace_id,
                        run.accepted->0,
                        lent_base(&base),
                        layout_annotations(run.layout_base),
                        rendering,
                    ) is Ok {
                        lemma_plan_base(
                            run.workspace_id,
                            run.accepted->0,
                            lent_base(&base),
                            layout_annotations(run.layout_base),
                            rendering,
                        );
                    }
                }
                match planned {
                    Err(error) => return self.finish(Err(error)),
                    Ok(plan) => {
                        self.plan = Some(plan);
                        self.phase = ReceiverPhase::Incomplete;
                    },
                }
            },
            _ => {},
        }
        self.asks()
    }

    /// Finds an incomplete intent to resume in place of a new one.
    fn resume(&mut self, event: ReceiverEvent) -> (action: ReceiverAction)
        requires
            receiver_run_wf(old(self)@),
            old(self).phase is Incomplete || old(self).phase is Delegated,
        ensures
            receiver_goes(receiver_resume(old(self)@, event), final(self)@, action),
    {
        reveal(receiver_resume);
        match (self.phase, event) {
            (ReceiverPhase::Incomplete, ReceiverEvent::Incomplete(intents)) => {
                let ghost wanted = self@.plan->0.intent;
                let mut count: usize = 0;
                let mut found: usize = 0;
                if let Some(plan) = &self.plan {
                    for i in 0..intents.len()
                        invariant
                            plan@.intent == wanted,
                            count <= i,
                            count == matching_intents(intents@, wanted, i as nat).len(),
                            count >= 1 ==> found == matching_intents(intents@, wanted, i as nat)[
                                count - 1],
                    {
                        if receiver_projection_work_state_matches(&intents[i], &plan.intent) {
                            count = count + 1;
                            found = i;
                        }
                    }
                }
                proof {
                    lemma_matching(intents@, wanted, intents@.len());
                    if count == 1 {
                        let at = matching_intents(intents@, wanted, intents@.len())[0];
                        assert(found == at);
                    }
                }
                self.incomplete = intents;
                if count == 0 {
                    self.phase = if self.local_base.is_none() {
                        ReceiverPhase::Revival
                    } else {
                        ReceiverPhase::Publishing
                    };
                } else if count == 1 {
                    self.phase = ReceiverPhase::Delegated { index: found };
                } else {
                    return self.finish(Err(ProjectionError::RecoveryIntentMismatch));
                }
            },
            (ReceiverPhase::Delegated { .. }, ReceiverEvent::Recovered(recovered)) => {
                match recovered {
                    Err(error) => return self.finish(Err(error)),
                    Ok(execution) => return self.finish(Ok(Some(execution))),
                }
            },
            _ => {},
        }
        self.asks()
    }

    /// Considers whether a missing file is to stay missing.
    fn consider_absence(&mut self, event: ReceiverEvent) -> (action: ReceiverAction)
        requires
            receiver_run_wf(old(self)@),
            old(self).phase is Revival || old(self).phase is Absence || old(self).phase
                is Deferring,
        ensures
            receiver_goes(receiver_consider_absence(old(self)@, event), final(self)@, action),
    {
        reveal(receiver_consider_absence);
        match (self.phase, event) {
            (ReceiverPhase::Revival, ReceiverEvent::Answer(revives)) => match revives {
                Err(error) => return self.finish(Err(ProjectionError::Engine(error))),
                Ok(revives) => {
                    self.phase = if revives {
                        ReceiverPhase::Publishing
                    } else {
                        ReceiverPhase::Absence
                    };
                },
            },
            (ReceiverPhase::Absence, ReceiverEvent::Answer(deferred)) => match deferred {
                Err(error) => return self.finish(Err(ProjectionError::Engine(error))),
                Ok(deferred) => {
                    self.phase = if deferred {
                        ReceiverPhase::Deferring
                    } else {
                        ReceiverPhase::Publishing
                    };
                },
            },
            (ReceiverPhase::Deferring, ReceiverEvent::Noted(_)) => {
                return self.finish(Ok(Some(ProjectionExecution::DeferredAbsence)));
            },
            _ => {},
        }
        self.asks()
    }

    /// Publishes the intent and finds out whether it is complete.
    fn publish(&mut self, event: ReceiverEvent) -> (action: ReceiverAction)
        requires
            receiver_run_wf(old(self)@),
            old(self).phase is Publishing || old(self).phase is NotingIntent || old(self).phase
                is Completion,
        ensures
            receiver_goes(receiver_publish(old(self)@, event), final(self)@, action),
    {
        reveal(receiver_publish);
        match (self.phase, event) {
            (ReceiverPhase::Publishing, ReceiverEvent::Stored(stored)) => {
                if let Err(error) = stored {
                    return self.finish(Err(ProjectionError::Store(Box::new(error))));
                }
                self.phase = ReceiverPhase::NotingIntent;
            },
            (ReceiverPhase::NotingIntent, ReceiverEvent::Noted(noted)) => {
                if let Err(error) = noted {
                    return self.finish(Err(ProjectionError::Engine(error)));
                }
                self.phase = ReceiverPhase::Completion;
            },
            (ReceiverPhase::Completion, ReceiverEvent::Stored(stored)) => match stored {
                Err(error) => return self.finish(Err(ProjectionError::Store(Box::new(error)))),
                Ok(complete) => {
                    if complete {
                        self.phase = ReceiverPhase::RetiringCompleted { already_complete: true };
                    } else if self.allow_mutation {
                        self.phase = ReceiverPhase::Attempts;
                    } else {
                        return self.finish(Ok(None));
                    }
                },
            },
            _ => {},
        }
        self.asks()
    }

    /// Begins to mutate.
    fn begin(&mut self, event: ReceiverEvent) -> (action: ReceiverAction)
        requires
            receiver_run_wf(old(self)@),
            old(self).phase is Attempts || old(self).phase is Reserving || old(self).phase
                is Beginning,
        ensures
            receiver_goes(receiver_begin(old(self)@, event), final(self)@, action),
    {
        reveal(receiver_begin);
        match (self.phase, event) {
            (ReceiverPhase::Attempts, ReceiverEvent::Stored(stored)) => match stored {
                Err(error) => return self.finish(Err(ProjectionError::Store(Box::new(error)))),
                Ok(has_attempts) => {
                    self.has_attempts = has_attempts;
                    self.phase = if has_attempts {
                        ReceiverPhase::Beginning { reserved: false }
                    } else {
                        ReceiverPhase::Reserving
                    };
                },
            },
            (ReceiverPhase::Reserving, ReceiverEvent::Stored(stored)) => {
                if let Err(error) = stored {
                    return self.finish(Err(ProjectionError::Store(Box::new(error))));
                }
                self.phase = ReceiverPhase::Beginning { reserved: true };
            },
            (ReceiverPhase::Beginning { .. }, ReceiverEvent::Stored(stored)) => {
                if let Err(error) = stored {
                    return self.finish(Err(ProjectionError::Store(Box::new(error))));
                }
                match self.choose_operation() {
                    None => return self.finish(Err(ProjectionError::ReceiverSourceAbsent)),
                    Some(operation) => {
                        self.phase = ReceiverPhase::Operating { operation };
                    },
                }
            },
            _ => {},
        }
        self.asks()
    }

    /// Chooses the operation that carries the plan out.
    fn choose_operation(&self) -> (operation: Option<GraphOperation>)
        requires
            self.plan is Some,
        ensures
            operation == receiver_operation(self@),
    {
        let plan = match &self.plan {
            None => return None,
            Some(plan) => plan,
        };
        if self.source_is_absent() {
            if self.has_attempts {
                match plan.intent.precondition {
                    ProjectionPrecondition::Absent => Some(GraphOperation::ConfirmRemoved),
                    ProjectionPrecondition::Base(_) => if plan.base().is_some() {
                        Some(GraphOperation::RecoverRemoved)
                    } else {
                        None
                    },
                }
            } else if self.local_base.is_some() {
                Some(GraphOperation::Remove)
            } else {
                Some(GraphOperation::ConfirmRemoved)
            }
        } else {
            let exact = match &self.local_base {
                None => false,
                Some(bytes) => same_bytes(bytes.as_slice(), plan.target()),
            };
            if exact || self.has_attempts {
                Some(GraphOperation::Recover)
            } else {
                Some(GraphOperation::Write)
            }
        }
    }

    /// Publishes the completion of what was carried out.
    fn complete(&mut self, event: ReceiverEvent) -> (action: ReceiverAction)
        requires
            receiver_run_wf(old(self)@),
            old(self).phase is Operating || old(self).phase is PublishingCompletion || old(
                self,
            ).phase is NotingCompletion,
        ensures
            receiver_goes(receiver_complete(old(self)@, event), final(self)@, action),
    {
        reveal(receiver_complete);
        match (self.phase, event) {
            (ReceiverPhase::Operating { .. }, ReceiverEvent::Operated(operated)) => {
                if let Err(failure) = operated {
                    return self.finish(Err(ProjectionError::Io(failure)));
                }
                self.phase = ReceiverPhase::PublishingCompletion;
            },
            (ReceiverPhase::PublishingCompletion, ReceiverEvent::Stored(stored)) => {
                if let Err(error) = stored {
                    return self.finish(Err(ProjectionError::Store(Box::new(error))));
                }
                self.phase = ReceiverPhase::NotingCompletion;
            },
            (ReceiverPhase::NotingCompletion, ReceiverEvent::Noted(noted)) => {
                if let Err(error) = noted {
                    return self.finish(Err(ProjectionError::Engine(error)));
                }
                self.phase = ReceiverPhase::RetiringCompleted { already_complete: false };
            },
            _ => {},
        }
        self.asks()
    }

    /// Records the completion.
    fn record(&mut self, event: ReceiverEvent) -> (action: ReceiverAction)
        requires
            receiver_run_wf(old(self)@),
            old(self).phase is RetiringCompleted || old(self).phase is Recording,
        ensures
            receiver_goes(receiver_record(old(self)@, event), final(self)@, action),
    {
        reveal(receiver_record);
        match (self.phase, event) {
            (
                ReceiverPhase::RetiringCompleted { already_complete },
                ReceiverEvent::Retired(retired),
            ) => {
                if let Err(error) = retired {
                    return self.finish(Err(error));
                }
                let recorded = match (&self.tombstone, &self.plan) {
                    (Some(authorization), Some(plan)) => {
                        Some(record_completed_tombstone_path(&plan.intent, authorization))
                    },
                    _ => None,
                };
                match recorded {
                    None => {
                        self.phase = ReceiverPhase::Recording { already_complete };
                    },
                    Some(Err(error)) => return self.finish(Err(error)),
                    Some(Ok(())) => return self.finish_done(already_complete),
                }
            },
            (ReceiverPhase::Recording { already_complete }, ReceiverEvent::State(state)) => {
                let current = match state {
                    Err(error) => return self.finish(Err(ProjectionError::Engine(error))),
                    Ok(current) => current,
                };
                let matches = match &self.plan {
                    None => false,
                    Some(plan) => completed_plan_matches_current(
                        self.workspace_id,
                        &current,
                        plan,
                    ),
                };
                if matches {
                    return self.finish_done(already_complete);
                }
                self.phase = ReceiverPhase::Runtime { already_complete };
            },
            _ => {},
        }
        self.asks()
    }

    /// Excuses a completion that is no longer current where its batch is superseded.
    fn excuse(&mut self, event: ReceiverEvent) -> (action: ReceiverAction)
        requires
            receiver_run_wf(old(self)@),
            old(self).phase is Runtime || old(self).phase is Supersession,
        ensures
            receiver_goes(receiver_excuse(old(self)@, event), final(self)@, action),
    {
        reveal(receiver_excuse);
        match (self.phase, event) {
            (ReceiverPhase::Runtime { already_complete }, ReceiverEvent::Answer(index_free)) => {
                let index_free = match index_free {
                    Err(_) => false,
                    Ok(index_free) => index_free,
                };
                if !index_free {
                    return self.finish(Err(ProjectionError::RecoveryIntentMismatch));
                }
                self.phase = ReceiverPhase::Supersession { already_complete };
            },
            (
                ReceiverPhase::Supersession { already_complete },
                ReceiverEvent::Answer(superseded),
            ) => match superseded {
                Err(error) => return self.finish(Err(ProjectionError::Engine(error))),
                Ok(superseded) => {
                    if superseded {
                        return self.finish_done(already_complete);
                    }
                    return self.finish(Err(ProjectionError::RecoveryIntentMismatch));
                },
            },
            _ => {},
        }
        self.asks()
    }
}

} // verus!
