//! Recovering incomplete projections, one decision at a time.

use vstd::prelude::*;

use crate::annotation::{AnnotatedIdentity, AnnotatedIdentityView};
use crate::bytes::same_bytes;
use crate::completion::ProjectionWrite;
use crate::error::{EngineError, ProjectionError};
use crate::execution::{
    is_recovery_open, receiver_recovery_terminal_disposition, recovery_disposition,
    recovery_is_open, ProjectionEndpointBinding, ProjectionExecution,
};
use crate::hash::BlobDescription;
use crate::ids::WorkspaceId;
use crate::intent::{BaseBlob, ProjectionIntent, ProjectionIntentView};
use crate::page::ProjectionPageState;
use crate::plan::{
    base_bytes, lend_base, lent_base, plan_projection_with_layout_annotations, projection_plan,
    PageRendering, ProjectionPlan, ProjectionPlanView, SourceBase,
};
use crate::store_error::{IoFailure, ProjectionStoreError};

verus! {

/// How far the recovery of an intent has come.
#[derive(Clone, Copy, Debug, PartialEq, Eq, Structural)]
pub enum RecoveryPhase {
    Authorizing,
    LoadingBase,
    Rendering,
    Attempts,
    Beginning,
    Recovering,
    Releasing,
    Reserving,
    BeginningFallback,
    Writing,
    Rereading,
    Deferring,
    Completing,
    NotingCompletion,
    Retiring,
    Recording,
    Done,
}

/// What has to be done, or found out, next.
#[derive(Debug, PartialEq, Eq)]
pub enum RecoveryAction {
    /// Have the engine give the accepted page that the intent is for.
    AuthorizeRecovery,
    /// Load the base of the intent.
    LoadBase,
    /// Serialise the accepted page against the base.
    Render,
    /// Load the attempts that were reserved for the intent.
    LoadAttempts,
    /// Begin to mutate, with the attempts there are.
    BeginMutation,
    /// Prove or finish an earlier write.
    Recover,
    /// Give up the failed recovery.
    ReleaseFailedRecovery,
    /// Reserve an attempt to write afresh.
    ReserveFallback,
    /// Begin to mutate, with the attempt just reserved.
    BeginFallback,
    /// Write the target over the base.
    Write,
    /// Read the page's file.
    ReadInput,
    /// Note that the file was found gone.
    NoteDeferredAbsence,
    /// Write the completion of the intent.
    ReconstructCompletion,
    /// Note the completion in the engine.
    NoteCompletion,
    /// Retire the recovery files of the intent.
    RetireCompleted,
    /// Have the engine authorize a write and give the accepted page.
    AuthorizeWrite,
    /// The recovery has ended.
    Finish(Result<ProjectionExecution, ProjectionError>),
}

/// What came of what was asked for.
#[derive(Debug, PartialEq, Eq)]
pub enum RecoveryEvent {
    State(Result<ProjectionPageState, EngineError>),
    Base(Result<Option<BaseBlob>, ProjectionStoreError>),
    Rendered { base: Option<SourceBase>, rendering: PageRendering },
    Stored(Result<(), ProjectionStoreError>),
    Operated(Result<(), IoFailure>),
    Input(Result<Option<Vec<u8>>, IoFailure>),
    Noted(Result<(), EngineError>),
    Retired(Result<(), ProjectionError>),
}

/// An incomplete intent that is being recovered.
#[derive(Debug, PartialEq, Eq)]
pub struct RecoveryRun {
    pub workspace_id: WorkspaceId,
    pub intent: ProjectionIntent,
    /// Whether the recovery is for another device's intent, under a handoff.
    pub under_handoff: bool,
    pub phase: RecoveryPhase,
    pub accepted: Option<ProjectionPageState>,
    pub base: Option<BaseBlob>,
    pub plan: Option<ProjectionPlan>,
    pub failure: Option<IoFailure>,
}

/// What a run says.
pub struct RecoveryRunView {
    pub workspace_id: WorkspaceId,
    pub intent: ProjectionIntentView,
    pub under_handoff: bool,
    pub phase: RecoveryPhase,
    pub accepted: Option<ProjectionPageState>,
    pub base: Option<Seq<u8>>,
    pub plan: Option<ProjectionPlanView>,
    pub failure: Option<IoFailure>,
}

/// The bytes of an optional base.
pub open spec fn blob_bytes(base: Option<BaseBlob>) -> Option<Seq<u8>> {
    match base {
        None => None,
        Some(base) => Some(base@),
    }
}

impl View for RecoveryRun {
    type V = RecoveryRunView;

    open spec fn view(&self) -> RecoveryRunView {
        RecoveryRunView {
            workspace_id: self.workspace_id,
            intent: self.intent@,
            under_handoff: self.under_handoff,
            phase: self.phase,
            accepted: self.accepted,
            base: blob_bytes(self.base),
            plan: match self.plan {
                None => None,
                Some(plan) => Some(plan@),
            },
            failure: self.failure,
        }
    }
}

/// Where a run goes next.
pub enum RecoveryStep {
    Ask(RecoveryRunView),
    Finish(Result<ProjectionExecution, ProjectionError>),
}

/// What a run asks for in a phase.
pub open spec fn recovery_asks(phase: RecoveryPhase) -> RecoveryAction {
    match phase {
        RecoveryPhase::Authorizing => RecoveryAction::AuthorizeRecovery,
        RecoveryPhase::LoadingBase => RecoveryAction::LoadBase,
        RecoveryPhase::Rendering => RecoveryAction::Render,
        RecoveryPhase::Attempts => RecoveryAction::LoadAttempts,
        RecoveryPhase::Beginning => RecoveryAction::BeginMutation,
        RecoveryPhase::Recovering => RecoveryAction::Recover,
        RecoveryPhase::Releasing => RecoveryAction::ReleaseFailedRecovery,
        RecoveryPhase::Reserving => RecoveryAction::ReserveFallback,
        RecoveryPhase::BeginningFallback => RecoveryAction::BeginFallback,
        RecoveryPhase::Writing => RecoveryAction::Write,
        RecoveryPhase::Rereading => RecoveryAction::ReadInput,
        RecoveryPhase::Deferring => RecoveryAction::NoteDeferredAbsence,
        RecoveryPhase::Completing => RecoveryAction::ReconstructCompletion,
        RecoveryPhase::NotingCompletion => RecoveryAction::NoteCompletion,
        RecoveryPhase::Retiring => RecoveryAction::RetireCompleted,
        RecoveryPhase::Recording => RecoveryAction::AuthorizeWrite,
        RecoveryPhase::Done => RecoveryAction::Finish(Err(ProjectionError::WorkNotReady)),
    }
}

/// The run in another phase.
pub open spec fn recovery_in(run: RecoveryRunView, phase: RecoveryPhase) -> RecoveryStep {
    RecoveryStep::Ask(RecoveryRunView { phase, ..run })
}

/// The end of a run with an error.
pub open spec fn recovery_fails(error: ProjectionError) -> RecoveryStep {
    RecoveryStep::Finish(Err(error))
}

/// Whether the intent only takes over the formatting of its base: it leaves the bytes that it
/// starts from.
pub open spec fn adopts_formatting(intent: ProjectionIntentView, base: Option<Seq<u8>>) -> bool {
    base is Some && BlobDescription::spec_of(base->0) == intent.target
}

/// The annotations that the page is rendered with: those of the intent where it takes over the
/// formatting of its base.
pub open spec fn recovery_annotations(intent: ProjectionIntentView, base: Option<Seq<u8>>) -> Option<
    Seq<AnnotatedIdentityView>,
> {
    if adopts_formatting(intent, base) {
        Some(intent.annotations)
    } else {
        None
    }
}

/// Where a run goes while it plans the page again.
#[verifier::opaque]
pub open spec fn recovery_replan(run: RecoveryRunView, event: RecoveryEvent) -> RecoveryStep {
    match (run.phase, event) {
        (RecoveryPhase::Authorizing, RecoveryEvent::State(state)) => match state {
            Err(error) => recovery_fails(ProjectionError::Engine(error)),
            Ok(state) => recovery_in(
                RecoveryRunView { accepted: Some(state), ..run },
                RecoveryPhase::LoadingBase,
            ),
        },
        (RecoveryPhase::LoadingBase, RecoveryEvent::Base(base)) => match base {
            Err(error) => recovery_fails(ProjectionError::Store(Box::new(error))),
            Ok(base) => recovery_in(
                RecoveryRunView { base: blob_bytes(base), ..run },
                RecoveryPhase::Rendering,
            ),
        },
        (RecoveryPhase::Rendering, RecoveryEvent::Rendered { base, rendering }) => if base_bytes(
            lent_base(&base),
        ) != run.base {
            RecoveryStep::Ask(run)
        } else {
            match projection_plan(
                run.workspace_id,
                run.accepted->0,
                lent_base(&base),
                recovery_annotations(run.intent, run.base),
                rendering,
            ) {
                Err(error) => recovery_fails(error),
                Ok(plan) => if plan.intent != run.intent {
                    recovery_fails(ProjectionError::RecoveryIntentMismatch)
                } else {
                    recovery_in(
                        RecoveryRunView { plan: Some(plan), ..run },
                        RecoveryPhase::Attempts,
                    )
                },
            }
        },
        _ => RecoveryStep::Ask(run),
    }
}

/// Where a run goes while it proves or finishes an earlier write.
#[verifier::opaque]
pub open spec fn recovery_recover(run: RecoveryRunView, event: RecoveryEvent) -> RecoveryStep {
    match (run.phase, event) {
        (RecoveryPhase::Attempts, RecoveryEvent::Stored(stored)) => match stored {
            Err(error) => recovery_fails(ProjectionError::Store(Box::new(error))),
            Ok(()) => recovery_in(run, RecoveryPhase::Beginning),
        },
        (RecoveryPhase::Beginning, RecoveryEvent::Stored(stored)) => match stored {
            Err(error) => recovery_fails(ProjectionError::Store(Box::new(error))),
            Ok(()) => recovery_in(run, RecoveryPhase::Recovering),
        },
        (RecoveryPhase::Recovering, RecoveryEvent::Operated(operated)) => match operated {
            Ok(()) => recovery_in(run, RecoveryPhase::Completing),
            Err(failure) => if recovery_is_open(failure) {
                recovery_in(run, RecoveryPhase::Releasing)
            } else {
                recovery_fails(ProjectionError::Io(failure))
            },
        },
        _ => RecoveryStep::Ask(run),
    }
}

/// Where a run goes while it writes afresh.
#[verifier::opaque]
pub open spec fn recovery_rewrite(run: RecoveryRunView, event: RecoveryEvent) -> RecoveryStep {
    match (run.phase, event) {
        (RecoveryPhase::Releasing, RecoveryEvent::Stored(stored)) => match stored {
            Err(error) => recovery_fails(ProjectionError::Store(Box::new(error))),
            Ok(()) => recovery_in(run, RecoveryPhase::Reserving),
        },
        (RecoveryPhase::Reserving, RecoveryEvent::Stored(stored)) => match stored {
            Err(error) => recovery_fails(ProjectionError::Store(Box::new(error))),
            Ok(()) => recovery_in(run, RecoveryPhase::BeginningFallback),
        },
        (RecoveryPhase::BeginningFallback, RecoveryEvent::Stored(stored)) => match stored {
            Err(error) => recovery_fails(ProjectionError::Store(Box::new(error))),
            Ok(()) => recovery_in(run, RecoveryPhase::Writing),
        },
        (RecoveryPhase::Writing, RecoveryEvent::Operated(operated)) => match operated {
            Ok(()) => recovery_in(run, RecoveryPhase::Completing),
            Err(failure) => if run.under_handoff {
                recovery_in(
                    RecoveryRunView { failure: Some(failure), ..run },
                    RecoveryPhase::Rereading,
                )
            } else {
                recovery_fails(ProjectionError::Io(failure))
            },
        },
        (RecoveryPhase::Rereading, RecoveryEvent::Input(input)) => match recovery_disposition(
            input,
            run.failure->0,
        ) {
            Err(error) => recovery_fails(error),
            Ok(_) => recovery_in(
                RecoveryRunView { failure: None, ..run },
                RecoveryPhase::Deferring,
            ),
        },
        (RecoveryPhase::Deferring, RecoveryEvent::Noted(_)) => RecoveryStep::Finish(
            Ok(ProjectionExecution::DeferredAbsence),
        ),
        _ => RecoveryStep::Ask(run),
    }
}

/// Where a run goes while it completes the intent. A completion that is no longer current stays,
/// and is not shown as current.
#[verifier::opaque]
pub open spec fn recovery_complete(run: RecoveryRunView, event: RecoveryEvent) -> RecoveryStep {
    match (run.phase, event) {
        (RecoveryPhase::Completing, RecoveryEvent::Stored(stored)) => match stored {
            Err(error) => recovery_fails(ProjectionError::Store(Box::new(error))),
            Ok(()) => recovery_in(
                run,
                if run.under_handoff {
                    RecoveryPhase::NotingCompletion
                } else {
                    RecoveryPhase::Retiring
                },
            ),
        },
        (RecoveryPhase::NotingCompletion, RecoveryEvent::Noted(noted)) => match noted {
            Err(error) => recovery_fails(ProjectionError::Engine(error)),
            Ok(()) => recovery_in(run, RecoveryPhase::Retiring),
        },
        (RecoveryPhase::Retiring, RecoveryEvent::Retired(retired)) => match retired {
            Err(error) => recovery_fails(error),
            Ok(()) => recovery_in(run, RecoveryPhase::Recording),
        },
        (RecoveryPhase::Recording, RecoveryEvent::State(state)) => match state {
            Err(error) => recovery_fails(ProjectionError::Engine(error)),
            Ok(_) => RecoveryStep::Finish(Ok(ProjectionExecution::BarrierTaken)),
        },
        _ => RecoveryStep::Ask(run),
    }
}

/// Where a run goes on an event. An event that answers nothing that was asked changes nothing.
pub open spec fn recovery_step(run: RecoveryRunView, event: RecoveryEvent) -> RecoveryStep {
    match run.phase {
        RecoveryPhase::Authorizing | RecoveryPhase::LoadingBase | RecoveryPhase::Rendering => {
            recovery_replan(run, event)
        },
        RecoveryPhase::Attempts | RecoveryPhase::Beginning | RecoveryPhase::Recovering => {
            recovery_recover(run, event)
        },
        RecoveryPhase::Releasing
        | RecoveryPhase::Reserving
        | RecoveryPhase::BeginningFallback
        | RecoveryPhase::Writing
        | RecoveryPhase::Rereading
        | RecoveryPhase::Deferring => recovery_rewrite(run, event),
        RecoveryPhase::Completing
        | RecoveryPhase::NotingCompletion
        | RecoveryPhase::Retiring
        | RecoveryPhase::Recording => recovery_complete(run, event),
        RecoveryPhase::Done => RecoveryStep::Ask(run),
    }
}

/// Whether a phase comes after the page was planned again.
pub open spec fn recovery_needs_plan(phase: RecoveryPhase) -> bool {
    !(phase is Authorizing || phase is LoadingBase || phase is Rendering || phase is Done)
}

/// What holds of a run between two events.
pub open spec fn recovery_run_wf(run: RecoveryRunView) -> bool {
    &&& run.phase is Rendering ==> run.accepted is Some
    &&& run.phase is LoadingBase ==> run.accepted is Some
    &&& recovery_needs_plan(run.phase) ==> run.plan is Some && run.plan->0.intent == run.intent
        && run.plan->0.base == run.base
    &&& run.phase is Rereading ==> run.failure is Some && run.under_handoff
}

/// Every event leaves a run with what its phase stands on.
pub proof fn law_recovery_run_stays_well_formed(run: RecoveryRunView, event: RecoveryEvent)
    requires
        recovery_run_wf(run),
        recovery_step(run, event) is Ask,
    ensures
        recovery_run_wf(recovery_step(run, event)->Ask_0),
{
    reveal(recovery_replan);
    reveal(recovery_recover);
    reveal(recovery_rewrite);
    reveal(recovery_complete);
}

/// A recovery touches the page's file only where the accepted page still plans exactly the intent
/// that is recovered, from exactly its base.
pub proof fn law_recovery_replays_the_intent(run: RecoveryRunView)
    requires
        recovery_run_wf(run),
        recovery_asks(run.phase) == RecoveryAction::Recover || recovery_asks(run.phase)
            == RecoveryAction::Write,
    ensures
        run.plan is Some,
        run.plan->0.intent == run.intent,
        run.plan->0.base == run.base,
{
}

/// An exhausted recovery of another device's intent whose file is gone defers the absence, and one
/// whose file is there keeps its failure.
pub proof fn law_exhausted_recovery_reads_the_file(
    run: RecoveryRunView,
    input: Option<Vec<u8>>,
)
    requires
        run.phase is Rereading,
        run.failure is Some,
    ensures
        ({
            let next = recovery_step(run, RecoveryEvent::Input(Ok(input)));
            if input is None {
                next is Ask && recovery_asks(next->Ask_0.phase)
                    == RecoveryAction::NoteDeferredAbsence
            } else {
                next == recovery_fails(ProjectionError::Io(run.failure->0))
            }
        }),
{
    reveal(recovery_rewrite);
}

/// Whether a run is where it goes next and asks for that, or has ended.
pub open spec fn recovery_goes(
    step: RecoveryStep,
    after: RecoveryRunView,
    action: RecoveryAction,
) -> bool {
    &&& recovery_run_wf(after)
    &&& match step {
        RecoveryStep::Ask(next) => after == next && action == recovery_asks(next.phase),
        RecoveryStep::Finish(outcome) => action == RecoveryAction::Finish(outcome)
            && after.phase is Done,
    }
}

impl RecoveryRun {
    /// The recovery of an intent, before anything was asked.
    pub fn new(workspace_id: WorkspaceId, intent: ProjectionIntent, under_handoff: bool) -> (run:
        RecoveryRun)
        ensures
            run@ == (RecoveryRunView {
                workspace_id,
                intent: intent@,
                under_handoff,
                phase: RecoveryPhase::Authorizing,
                accepted: None,
                base: None,
                plan: None,
                failure: None,
            }),
            recovery_run_wf(run@),
    {
        RecoveryRun {
            workspace_id,
            intent,
            under_handoff,
            phase: RecoveryPhase::Authorizing,
            accepted: None,
            base: None,
            plan: None,
            failure: None,
        }
    }

    /// The annotations that the page is rendered with.
    pub fn render_annotations(&self) -> (annotations: Option<&[AnnotatedIdentity]>)
        ensures
            crate::plan::optional_annotations(annotations) == recovery_annotations(
                self@.intent,
                self@.base,
            ),
    {
        let adopts = match &self.base {
            None => false,
            Some(blob) => BlobDescription::of(blob.bytes()) == self.intent.target,
        };
        if adopts {
            Some(self.intent.annotations.as_slice())
        } else {
            None
        }
    }

    /// What the run asks for.
    pub fn asks(&self) -> (action: RecoveryAction)
        ensures
            action == recovery_asks(self.phase),
    {
        match self.phase {
            RecoveryPhase::Authorizing => RecoveryAction::AuthorizeRecovery,
            RecoveryPhase::LoadingBase => RecoveryAction::LoadBase,
            RecoveryPhase::Rendering => RecoveryAction::Render,
            RecoveryPhase::Attempts => RecoveryAction::LoadAttempts,
            RecoveryPhase::Beginning => RecoveryAction::BeginMutation,
            RecoveryPhase::Recovering => RecoveryAction::Recover,
            RecoveryPhase::Releasing => RecoveryAction::ReleaseFailedRecovery,
            RecoveryPhase::Reserving => RecoveryAction::ReserveFallback,
            RecoveryPhase::BeginningFallback => RecoveryAction::BeginFallback,
            RecoveryPhase::Writing => RecoveryAction::Write,
            RecoveryPhase::Rereading => RecoveryAction::ReadInput,
            RecoveryPhase::Deferring => RecoveryAction::NoteDeferredAbsence,
            RecoveryPhase::Completing => RecoveryAction::ReconstructCompletion,
            RecoveryPhase::NotingCompletion => RecoveryAction::NoteCompletion,
            RecoveryPhase::Retiring => RecoveryAction::RetireCompleted,
            RecoveryPhase::Recording => RecoveryAction::AuthorizeWrite,
            RecoveryPhase::Done => RecoveryAction::Finish(Err(ProjectionError::WorkNotReady)),
        }
    }

    /// Takes an event and says what comes next.
    pub fn advance(&mut self, event: RecoveryEvent) -> (action: RecoveryAction)
        requires
            recovery_run_wf(old(self)@),
        ensures
            recovery_goes(recovery_step(old(self)@, event), final(self)@, action),
    {
        match self.phase {
            RecoveryPhase::Authorizing
            | RecoveryPhase::LoadingBase
            | RecoveryPhase::Rendering => self.replan(event),
            RecoveryPhase::Attempts
            | RecoveryPhase::Beginning
            | RecoveryPhase::Recovering => self.recover(event),
            RecoveryPhase::Releasing
            | RecoveryPhase::Reserving
            | RecoveryPhase::BeginningFallback
            | RecoveryPhase::Writing
            | RecoveryPhase::Rereading
            | RecoveryPhase::Deferring => self.rewrite(event),
            RecoveryPhase::Completing
            | RecoveryPhase::NotingCompletion
            | RecoveryPhase::Retiring
            | RecoveryPhase::Recording => self.complete(event),
            RecoveryPhase::Done => self.asks(),
        }
    }

    /// Ends the run.
    fn finish(&mut self, outcome: Result<ProjectionExecution, ProjectionError>) -> (action:
        RecoveryAction)
        ensures
            action == RecoveryAction::Finish(outcome),
            final(self).phase is Done,
            recovery_run_wf(final(self)@),
    {
        self.phase = RecoveryPhase::Done;
        RecoveryAction::Finish(outcome)
    }

    /// Plans the page again.
    fn replan(&mut self, event: RecoveryEvent) -> (action: RecoveryAction)
        requires
            recovery_run_wf(old(self)@),
            old(self).phase is Authorizing || old(self).phase is LoadingBase || old(self).phase
                is Rendering,
        ensures
            recovery_goes(recovery_replan(old(self)@, event), final(self)@, action),
    {
        reveal(recovery_replan);
        match (self.phase, event) {
            (RecoveryPhase::Authorizing, RecoveryEvent::State(state)) => match state {
                Err(error) => return self.finish(Err(ProjectionError::Engine(error))),
                Ok(state) => {
                    self.accepted = Some(state);
                    self.phase = RecoveryPhase::LoadingBase;
                },
            },
            (RecoveryPhase::LoadingBase, RecoveryEvent::Base(base)) => match base {
                Err(error) => return self.finish(Err(ProjectionError::Store(Box::new(error)))),
                Ok(base) => {
                    self.base = base;
                    self.phase = RecoveryPhase::Rendering;
                },
            },
            (RecoveryPhase::Rendering, RecoveryEvent::Rendered { base, rendering }) => {
                let same_base = match (&base, &self.base) {
                    (None, None) => true,
                    (Some(base), Some(blob)) => same_bytes(base.bytes.as_slice(), blob.bytes()),
                    _ => false,
                };
                if !same_base {
                    return self.asks();
                }
                let annotations = self.render_annotations();
                let planned = match &self.accepted {
                    None => return self.asks(),
                    Some(accepted) => plan_projection_with_layout_annotations(
                        self.workspace_id,
                        accepted,
                        lend_base(&base),
                        annotations,
                        &rendering,
                    ),
                };
                match planned {
                    Err(error) => return self.finish(Err(error)),
                    Ok(plan) => {
                        if !plan.intent.same(&self.intent) {
                            return self.finish(Err(ProjectionError::RecoveryIntentMismatch));
                        }
                        self.plan = Some(plan);
                        self.phase = RecoveryPhase::Attempts;
                    },
                }
            },
            _ => {},
        }
        self.asks()
    }

    /// Proves or finishes an earlier write.
    fn recover(&mut self, event: RecoveryEvent) -> (action: RecoveryAction)
        requires
            recovery_run_wf(old(self)@),
            old(self).phase is Attempts || old(self).phase is Beginning || old(self).phase
                is Recovering,
        ensures
            recovery_goes(recovery_recover(old(self)@, event), final(self)@, action),
    {
        reveal(recovery_recover);
        match (self.phase, event) {
            (RecoveryPhase::Attempts, RecoveryEvent::Stored(stored)) => {
                if let Err(error) = stored {
                    return self.finish(Err(ProjectionError::Store(Box::new(error))));
                }
                self.phase = RecoveryPhase::Beginning;
            },
            (RecoveryPhase::Beginning, RecoveryEvent::Stored(stored)) => {
                if let Err(error) = stored {
                    return self.finish(Err(ProjectionError::Store(Box::new(error))));
                }
                self.phase = RecoveryPhase::Recovering;
            },
            (RecoveryPhase::Recovering, RecoveryEvent::Operated(operated)) => match operated {
                Ok(()) => {
                    self.phase = RecoveryPhase::Completing;
                },
                Err(failure) => {
                    if !is_recovery_open(&failure) {
                        return self.finish(Err(ProjectionError::Io(failure)));
                    }
                    self.phase = RecoveryPhase::Releasing;
                },
            },
            _ => {},
        }
        self.asks()
    }

    /// Writes afresh.
    fn rewrite(&mut self, event: RecoveryEvent) -> (action: RecoveryAction)
        requires
            recovery_run_wf(old(self)@),
            old(self).phase is Releasing || old(self).phase is Reserving || old(self).phase
                is BeginningFallback || old(self).phase is Writing || old(self).phase is Rereading
                || old(self).phase is Deferring,
        ensures
            recovery_goes(recovery_rewrite(old(self)@, event), final(self)@, action),
    {
        reveal(recovery_rewrite);
        match (self.phase, event) {
            (RecoveryPhase::Releasing, RecoveryEvent::Stored(stored)) => {
                if let Err(error) = stored {
                    return self.finish(Err(ProjectionError::Store(Box::new(error))));
                }
                self.phase = RecoveryPhase::Reserving;
            },
            (RecoveryPhase::Reserving, RecoveryEvent::Stored(stored)) => {
                if let Err(error) = stored {
                    return self.finish(Err(ProjectionError::Store(Box::new(error))));
                }
                self.phase = RecoveryPhase::BeginningFallback;
            },
            (RecoveryPhase::BeginningFallback, RecoveryEvent::Stored(stored)) => {
                if let Err(error) = stored {
                    return self.finish(Err(ProjectionError::Store(Box::new(error))));
                }
                self.phase = RecoveryPhase::Writing;
            },
            (RecoveryPhase::Writing, RecoveryEvent::Operated(operated)) => match operated {
                Ok(()) => {
                    self.phase = RecoveryPhase::Completing;
                },
                Err(failure) => {
                    if !self.under_handoff {
                        return self.finish(Err(ProjectionError::Io(failure)));
                    }
                    self.failure = Some(failure);
                    self.phase = RecoveryPhase::Rereading;
                },
            },
            (RecoveryPhase::Rereading, RecoveryEvent::Input(input)) => {
                let failure = match self.failure.take() {
                    None => return self.asks(),
                    Some(failure) => failure,
                };
                match receiver_recovery_terminal_disposition(input, failure) {
                    Err(error) => return self.finish(Err(error)),
                    Ok(_) => {
                        self.phase = RecoveryPhase::Deferring;
                    },
                }
            },
            (RecoveryPhase::Deferring, RecoveryEvent::Noted(_)) => {
                return self.finish(Ok(ProjectionExecution::DeferredAbsence));
            },
            _ => {},
        }
        self.asks()
    }

    /// Completes the intent.
    fn complete(&mut self, event: RecoveryEvent) -> (action: RecoveryAction)
        requires
            recovery_run_wf(old(self)@),
            old(self).phase is Completing || old(self).phase is NotingCompletion || old(self).phase
                is Retiring || old(self).phase is Recording,
        ensures
            recovery_goes(recovery_complete(old(self)@, event), final(self)@, action),
    {
        reveal(recovery_complete);
        match (self.phase, event) {
            (RecoveryPhase::Completing, RecoveryEvent::Stored(stored)) => {
                if let Err(error) = stored {
                    return self.finish(Err(ProjectionError::Store(Box::new(error))));
                }
                self.phase = if self.under_handoff {
                    RecoveryPhase::NotingCompletion
                } else {
                    RecoveryPhase::Retiring
                };
            },
            (RecoveryPhase::NotingCompletion, RecoveryEvent::Noted(noted)) => {
                if let Err(error) = noted {
                    return self.finish(Err(ProjectionError::Engine(error)));
                }
                self.phase = RecoveryPhase::Retiring;
            },
            (RecoveryPhase::Retiring, RecoveryEvent::Retired(retired)) => {
                if let Err(error) = retired {
                    return self.finish(Err(error));
                }
                self.phase = RecoveryPhase::Recording;
            },
            (RecoveryPhase::Recording, RecoveryEvent::State(state)) => match state {
                Err(error) => return self.finish(Err(ProjectionError::Engine(error))),
                Ok(_) => return self.finish(Ok(ProjectionExecution::BarrierTaken)),
            },
            _ => {},
        }
        self.asks()
    }
}

/// How far a pass over all incomplete intents has come.
#[derive(Clone, Copy, Debug, PartialEq, Eq, Structural)]
pub enum PassPhase {
    Endpoint,
    RetiringPending,
    Listing,
    Recovering { index: usize },
    Done,
}

/// What a pass has to do, or find out, next.
#[derive(Debug, PartialEq, Eq)]
pub enum PassAction {
    /// Check that engine, receipt store and graph belong together.
    RequireEndpoint,
    /// Retire the recovery files of completed projections.
    RetirePending,
    /// List the incomplete intents.
    ListIncomplete,
    /// Recover the listed intent at this position.
    Recover(usize),
    /// The pass has ended.
    Finish(Result<Vec<ProjectionWrite>, ProjectionError>),
}

/// What came of what a pass asked for.
#[derive(Debug, PartialEq, Eq)]
pub enum PassEvent {
    Endpoint(Result<ProjectionEndpointBinding, ProjectionError>),
    Retired(Result<(), ProjectionError>),
    Listed(Result<Vec<ProjectionIntent>, ProjectionStoreError>),
    Recovered(Result<ProjectionWrite, ProjectionError>),
}

/// A pass over all incomplete intents.
#[derive(Debug, PartialEq, Eq)]
pub struct RecoveryPass {
    pub phase: PassPhase,
    pub intents: Vec<ProjectionIntent>,
    pub recovered: Vec<ProjectionWrite>,
}

/// What a pass says.
pub struct PassView {
    pub phase: PassPhase,
    pub intents: Seq<ProjectionIntent>,
    pub recovered: Seq<ProjectionWrite>,
}

impl View for RecoveryPass {
    type V = PassView;

    open spec fn view(&self) -> PassView {
        PassView {
            phase: self.phase,
            intents: self.intents@,
            recovered: self.recovered@,
        }
    }
}

/// Where a pass goes next.
pub enum PassStep {
    Ask(PassView),
    Fail(ProjectionError),
    Finish(Seq<ProjectionWrite>),
}

/// Where a pass goes with `index` intents recovered.
pub open spec fn pass_at(pass: PassView, index: nat) -> PassStep {
    if index < pass.intents.len() {
        PassStep::Ask(PassView { phase: PassPhase::Recovering { index: index as usize }, ..pass })
    } else {
        PassStep::Finish(pass.recovered)
    }
}

/// Where a pass goes on an event: it recovers the listed intents in order and stops at the first
/// that fails, or whose write is not of the intent that it is at. An event that answers nothing that was asked changes nothing.
pub open spec fn pass_step(pass: PassView, event: PassEvent) -> PassStep {
    match (pass.phase, event) {
        (PassPhase::Endpoint, PassEvent::Endpoint(endpoint)) => match endpoint {
            Err(error) => PassStep::Fail(error),
            Ok(_) => PassStep::Ask(PassView { phase: PassPhase::RetiringPending, ..pass }),
        },
        (PassPhase::RetiringPending, PassEvent::Retired(retired)) => match retired {
            Err(error) => PassStep::Fail(error),
            Ok(()) => PassStep::Ask(PassView { phase: PassPhase::Listing, ..pass }),
        },
        (PassPhase::Listing, PassEvent::Listed(listed)) => match listed {
            Err(error) => PassStep::Fail(ProjectionError::Store(Box::new(error))),
            Ok(intents) => pass_at(PassView { intents: intents@, ..pass }, 0),
        },
        (PassPhase::Recovering { index }, PassEvent::Recovered(recovered)) => match recovered {
            Err(error) => PassStep::Fail(error),
            Ok(write) => if write.plan.intent@ != pass.intents[index as int]@ {
                PassStep::Fail(ProjectionError::RecoveryIntentMismatch)
            } else {
                pass_at(
                    PassView { recovered: pass.recovered.push(write), ..pass },
                    (index + 1) as nat,
                )
            },
        },
        _ => PassStep::Ask(pass),
    }
}

/// What a pass asks for in a phase that is not the last.
pub open spec fn pass_asks(phase: PassPhase, action: PassAction) -> bool {
    match phase {
        PassPhase::Endpoint => action is RequireEndpoint,
        PassPhase::RetiringPending => action is RetirePending,
        PassPhase::Listing => action is ListIncomplete,
        PassPhase::Recovering { index } => action == PassAction::Recover(index),
        PassPhase::Done => action is Finish && action->Finish_0 is Ok
            && action->Finish_0->Ok_0@.len() == 0,
    }
}

/// Whether the writes are those of the first listed intents, in order.
pub open spec fn writes_are_of(
    writes: Seq<ProjectionWrite>,
    intents: Seq<ProjectionIntent>,
) -> bool {
    &&& writes.len() <= intents.len()
    &&& forall|k: int|
        0 <= k < writes.len() ==> (#[trigger] writes[k]).plan.intent@ == intents[k]@
}

/// What holds of a pass between two events: the intent at each position passed was recovered.
pub open spec fn pass_wf(pass: PassView) -> bool {
    match pass.phase {
        PassPhase::Recovering { index } => index < pass.intents.len() && pass.recovered.len()
            == index && writes_are_of(pass.recovered, pass.intents),
        PassPhase::Done => true,
        _ => pass.recovered.len() == 0,
    }
}

/// Whether a pass is where it goes next and asks for that, or has ended.
pub open spec fn pass_goes(step: PassStep, after: PassView, action: PassAction) -> bool {
    &&& pass_wf(after)
    &&& match step {
        PassStep::Ask(next) => after == next && pass_asks(next.phase, action),
        PassStep::Fail(error) => after.phase is Done && action == PassAction::Finish(Err(error)),
        PassStep::Finish(writes) => after.phase is Done && action is Finish
            && action->Finish_0 is Ok && action->Finish_0->Ok_0@ == writes,
    }
}

/// A pass that ends well has recovered every listed intent: the write at each position is of the
/// intent listed there, and there are no others.
pub proof fn law_pass_recovers_all(pass: PassView, event: PassEvent)
    requires
        pass_wf(pass),
        pass_step(pass, event) is Finish,
    ensures
        ({
            let writes = pass_step(pass, event)->Finish_0;
            let intents = match event {
                PassEvent::Listed(Ok(intents)) => intents@,
                _ => pass.intents,
            };
            &&& writes.len() == intents.len()
            &&& writes_are_of(writes, intents)
        }),
{
}

/// A write of another intent than the one that a pass is at ends the pass with a mismatch.
pub proof fn law_pass_refuses_other_writes(pass: PassView, write: ProjectionWrite)
    requires
        pass.phase is Recovering,
        write.plan.intent@ != pass.intents[pass.phase->index as int]@,
    ensures
        pass_step(pass, PassEvent::Recovered(Ok(write))) == PassStep::Fail(
            ProjectionError::RecoveryIntentMismatch,
        ),
{
}

impl RecoveryPass {
    /// A pass, before anything was asked.
    pub fn new() -> (pass: RecoveryPass)
        ensures
            pass@ == (PassView {
                phase: PassPhase::Endpoint,
                intents: Seq::empty(),
                recovered: Seq::empty(),
            }),
            pass_wf(pass@),
    {
        let pass = RecoveryPass {
            phase: PassPhase::Endpoint,
            intents: Vec::new(),
            recovered: Vec::new(),
        };
        assert(pass@.intents =~= Seq::<ProjectionIntent>::empty());
        assert(pass@.recovered =~= Seq::<ProjectionWrite>::empty());
        pass
    }

    /// What the pass asks for.
    pub fn asks(&self) -> (action: PassAction)
        ensures
            pass_asks(self.phase, action),
    {
        match self.phase {
            PassPhase::Endpoint => PassAction::RequireEndpoint,
            PassPhase::RetiringPending => PassAction::RetirePending,
            PassPhase::Listing => PassAction::ListIncomplete,
            PassPhase::Recovering { index } => PassAction::Recover(index),
            PassPhase::Done => PassAction::Finish(Ok(Vec::new())),
        }
    }

    /// Takes an event and says what comes next.
    pub fn advance(&mut self, event: PassEvent) -> (action: PassAction)
        requires
            pass_wf(old(self)@),
        ensures
            pass_goes(pass_step(old(self)@, event), final(self)@, action),
    {
        match (self.phase, event) {
            (PassPhase::Endpoint, PassEvent::Endpoint(endpoint)) => match endpoint {
                Err(error) => return self.fail(error),
                Ok(_) => {
                    self.phase = PassPhase::RetiringPending;
                },
            },
            (PassPhase::RetiringPending, PassEvent::Retired(retired)) => match retired {
                Err(error) => return self.fail(error),
                Ok(()) => {
                    self.phase = PassPhase::Listing;
                },
            },
            (PassPhase::Listing, PassEvent::Listed(listed)) => match listed {
                Err(error) => return self.fail(ProjectionError::Store(Box::new(error))),
                Ok(intents) => {
                    self.intents = intents;
                    return self.go_on(0);
                },
            },
            (PassPhase::Recovering { index }, PassEvent::Recovered(recovered)) => match recovered {
                Err(error) => return self.fail(error),
                Ok(write) => {
                    let listed: usize = self.intents.len();
                    assert(index < listed);
                    if !write.plan.intent.same(&self.intents[index]) {
                        return self.fail(ProjectionError::RecoveryIntentMismatch);
                    }
                    self.recovered.push(write);
                    return self.go_on(index + 1);
                },
            },
            _ => {},
        }
        self.asks()
    }

    /// Ends the pass with an error.
    fn fail(&mut self, error: ProjectionError) -> (action: PassAction)
        ensures
            action == PassAction::Finish(Err(error)),
            final(self).phase is Done,
            pass_wf(final(self)@),
    {
        self.phase = PassPhase::Done;
        PassAction::Finish(Err(error))
    }

    /// Goes on to the intent at `index`, or ends.
    fn go_on(&mut self, index: usize) -> (action: PassAction)
        requires
            old(self).recovered@.len() == index,
            writes_are_of(old(self).recovered@, old(self).intents@),
        ensures
            pass_goes(pass_at(old(self)@, index as nat), final(self)@, action),
    {
        if index < self.intents.len() {
            self.phase = PassPhase::Recovering { index };
            return self.asks();
        }
        self.phase = PassPhase::Done;
        let mut recovered: Vec<ProjectionWrite> = Vec::new();
        std::mem::swap(&mut recovered, &mut self.recovered);
        PassAction::Finish(Ok(recovered))
    }
}

} // verus!
