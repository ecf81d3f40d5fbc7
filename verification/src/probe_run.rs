//! Smaller executions: probing whether a file is already exact, rewriting a superseded file, and
//! retiring recovery files.

use vstd::prelude::*;

use crate::bytes::same_bytes;
use crate::error::{EngineError, ProjectionError};
use crate::execution::ProjectionEndpointBinding;
use crate::hash::BlobDescription;
use crate::ids::{CanonicalGraphResourceId, ProjectionIntentId, WorkspaceId};
use crate::page::{optional_text, ProjectionPageState};
use crate::plan::{
    base_bytes, lend_base, lent_base, plan_projection, projection_plan, PageRendering,
    ProjectionPlan, ProjectionPlanView, SourceBase,
};
use crate::store_error::{IoFailure, ProjectionStoreError, Reason};
use crate::work::{ProjectionWork, ProjectionWorkTarget};

verus! {

/// How far a probe has come.
#[derive(Clone, Copy, Debug, PartialEq, Eq, Structural)]
pub enum ProbePhase {
    Input,
    Baseline { description: BlobDescription },
    Accepting,
    Rendering,
    Binding { description: BlobDescription },
    Done,
}

/// What a probe has to do, or find out, next.
#[derive(Debug, PartialEq, Eq)]
pub enum ProbeAction {
    /// Read the page's file.
    ReadInput,
    /// Find out whether the baseline of the page is these bytes.
    AskBaseline(BlobDescription),
    /// Have the engine authorize a write and give the accepted page.
    AuthorizeWrite,
    /// Serialise the accepted page against the file.
    Render,
    /// Bind the baseline of the page to these bytes.
    BindBaseline(BlobDescription),
    /// The probe has ended.
    Finish(Result<bool, ProjectionError>),
}

/// What came of what a probe asked for.
#[derive(Debug, PartialEq, Eq)]
pub enum ProbeEvent {
    Input(Result<Option<Vec<u8>>, IoFailure>),
    Baseline(Result<bool, String>),
    Accepted(Result<ProjectionPageState, ProjectionError>),
    Rendered { base: Option<SourceBase>, rendering: PageRendering },
    Bound(Result<(), String>),
}

/// A probe of whether a page's file already holds what a piece of work leaves.
#[derive(Debug, PartialEq, Eq)]
pub struct ExactProbe {
    pub workspace_id: WorkspaceId,
    pub work: ProjectionWork,
    pub phase: ProbePhase,
    pub current: Option<Vec<u8>>,
    pub accepted: Option<ProjectionPageState>,
}

/// What a probe says.
pub struct ProbeView {
    pub workspace_id: WorkspaceId,
    pub work: ProjectionWork,
    pub phase: ProbePhase,
    pub current: Option<Seq<u8>>,
    pub accepted: Option<ProjectionPageState>,
}

impl View for ExactProbe {
    type V = ProbeView;

    open spec fn view(&self) -> ProbeView {
        ProbeView {
            workspace_id: self.workspace_id,
            work: self.work,
            phase: self.phase,
            current: optional_text(self.current),
            accepted: self.accepted,
        }
    }
}

/// Where a probe goes next.
pub enum ProbeStep {
    Ask(ProbeView),
    Finish(Result<bool, ProjectionError>),
}

/// What a probe asks for in a phase.
pub open spec fn probe_asks(phase: ProbePhase) -> ProbeAction {
    match phase {
        ProbePhase::Input => ProbeAction::ReadInput,
        ProbePhase::Baseline { description } => ProbeAction::AskBaseline(description),
        ProbePhase::Accepting => ProbeAction::AuthorizeWrite,
        ProbePhase::Rendering => ProbeAction::Render,
        ProbePhase::Binding { description } => ProbeAction::BindBaseline(description),
        ProbePhase::Done => ProbeAction::Finish(Ok(false)),
    }
}

/// Where a probe goes once the baseline says nothing: a removal is exact where there is no file.
pub open spec fn probe_without_baseline(probe: ProbeView) -> ProbeStep {
    if probe.work.target == ProjectionWorkTarget::Absent {
        ProbeStep::Finish(Ok(probe.current is None))
    } else {
        ProbeStep::Ask(ProbeView { phase: ProbePhase::Accepting, ..probe })
    }
}

/// Where a probe goes on an event. An event that answers nothing that was asked changes nothing.
pub open spec fn probe_step(probe: ProbeView, event: ProbeEvent) -> ProbeStep {
    match (probe.phase, event) {
        (ProbePhase::Input, ProbeEvent::Input(input)) => match input {
            Err(failure) => ProbeStep::Finish(Err(ProjectionError::Io(failure))),
            Ok(input) => {
                let read = ProbeView { current: optional_text(input), ..probe };
                match read.current {
                    None => probe_without_baseline(read),
                    Some(bytes) => ProbeStep::Ask(
                        ProbeView {
                            phase: ProbePhase::Baseline {
                                description: BlobDescription::spec_of(bytes),
                            },
                            ..read
                        },
                    ),
                }
            },
        },
        (ProbePhase::Baseline { .. }, ProbeEvent::Baseline(matches)) => match matches {
            Err(message) => ProbeStep::Finish(
                Err(ProjectionError::Work(Reason::Reported(message))),
            ),
            Ok(true) => ProbeStep::Finish(Ok(true)),
            Ok(false) => probe_without_baseline(probe),
        },
        (ProbePhase::Accepting, ProbeEvent::Accepted(accepted)) => match accepted {
            Err(error) => ProbeStep::Finish(Err(error)),
            Ok(state) => ProbeStep::Ask(
                ProbeView { phase: ProbePhase::Rendering, accepted: Some(state), ..probe },
            ),
        },
        (ProbePhase::Rendering, ProbeEvent::Rendered { base, rendering }) => if base_bytes(
            lent_base(&base),
        ) != probe.current {
            ProbeStep::Ask(probe)
        } else {
            match projection_plan(
                probe.workspace_id,
                probe.accepted->0,
                lent_base(&base),
                None,
                rendering,
            ) {
                Err(error) => ProbeStep::Finish(Err(error)),
                Ok(plan) => if probe.current == Some(plan.target) {
                    ProbeStep::Ask(
                        ProbeView {
                            phase: ProbePhase::Binding {
                                description: BlobDescription::spec_of(plan.target),
                            },
                            ..probe
                        },
                    )
                } else {
                    ProbeStep::Finish(Ok(false))
                },
            }
        },
        (ProbePhase::Binding { .. }, ProbeEvent::Bound(bound)) => match bound {
            Err(message) => ProbeStep::Finish(
                Err(ProjectionError::Work(Reason::Reported(message))),
            ),
            Ok(()) => ProbeStep::Finish(Ok(true)),
        },
        _ => ProbeStep::Ask(probe),
    }
}

/// What holds of a probe between two events.
pub open spec fn probe_wf(probe: ProbeView) -> bool {
    probe.phase is Rendering ==> probe.accepted is Some
}

/// Whether a probe is where it goes next and asks for that, or has ended.
pub open spec fn probe_goes(step: ProbeStep, after: ProbeView, action: ProbeAction) -> bool {
    &&& probe_wf(after)
    &&& match step {
        ProbeStep::Ask(next) => after == next && action == probe_asks(next.phase),
        ProbeStep::Finish(outcome) => action == ProbeAction::Finish(outcome) && after.phase is Done,
    }
}

/// A baseline is bound only to the bytes that the file holds.
pub proof fn law_baseline_is_the_file(probe: ProbeView, event: ProbeEvent)
    requires
        probe_step(probe, event) is Ask,
        probe_step(probe, event)->Ask_0.phase is Binding,
        probe.phase is Rendering,
    ensures
        probe.current is Some,
        probe_step(probe, event)->Ask_0.phase->Binding_description == BlobDescription::spec_of(
            probe.current->0,
        ),
{
}

impl ExactProbe {
    /// A probe of a piece of work, before anything was asked.
    pub fn new(workspace_id: WorkspaceId, work: ProjectionWork) -> (probe: ExactProbe)
        ensures
            probe@ == (ProbeView {
                workspace_id,
                work,
                phase: ProbePhase::Input,
                current: None,
                accepted: None,
            }),
            probe_wf(probe@),
    {
        ExactProbe { workspace_id, work, phase: ProbePhase::Input, current: None, accepted: None }
    }

    /// What the probe asks for.
    pub fn asks(&self) -> (action: ProbeAction)
        ensures
            action == probe_asks(self.phase),
    {
        match self.phase {
            ProbePhase::Input => ProbeAction::ReadInput,
            ProbePhase::Baseline { description } => ProbeAction::AskBaseline(description),
            ProbePhase::Accepting => ProbeAction::AuthorizeWrite,
            ProbePhase::Rendering => ProbeAction::Render,
            ProbePhase::Binding { description } => ProbeAction::BindBaseline(description),
            ProbePhase::Done => ProbeAction::Finish(Ok(false)),
        }
    }

    /// Ends the probe.
    fn finish(&mut self, outcome: Result<bool, ProjectionError>) -> (action: ProbeAction)
        ensures
            action == ProbeAction::Finish(outcome),
            final(self).phase is Done,
            probe_wf(final(self)@),
    {
        self.phase = ProbePhase::Done;
        ProbeAction::Finish(outcome)
    }

    /// Goes on where the baseline says nothing.
    fn without_baseline(&mut self) -> (action: ProbeAction)
        ensures
            probe_goes(probe_without_baseline(old(self)@), final(self)@, action),
    {
        if self.work.target == ProjectionWorkTarget::Absent {
            let gone = self.current.is_none();
            return self.finish(Ok(gone));
        }
        self.phase = ProbePhase::Accepting;
        self.asks()
    }

    /// Takes an event and says what comes next.
    pub fn advance(&mut self, event: ProbeEvent) -> (action: ProbeAction)
        requires
            probe_wf(old(self)@),
        ensures
            probe_goes(probe_step(old(self)@, event), final(self)@, action),
    {
        match (self.phase, event) {
            (ProbePhase::Input, ProbeEvent::Input(input)) => {
                let input = match input {
                    Err(failure) => return self.finish(Err(ProjectionError::Io(failure))),
                    Ok(input) => input,
                };
                let description = match &input {
                    None => None,
                    Some(bytes) => Some(BlobDescription::of(bytes.as_slice())),
                };
                self.current = input;
                match description {
                    None => return self.without_baseline(),
                    Some(description) => {
                        self.phase = ProbePhase::Baseline { description };
                    },
                }
            },
            (ProbePhase::Baseline { .. }, ProbeEvent::Baseline(matches)) => match matches {
                Err(message) => {
                    return self.finish(Err(ProjectionError::Work(Reason::Reported(message))));
                },
                Ok(matches) => {
                    if matches {
                        return self.finish(Ok(true));
                    }
                    return self.without_baseline();
                },
            },
            (ProbePhase::Accepting, ProbeEvent::Accepted(accepted)) => match accepted {
                Err(error) => return self.finish(Err(error)),
                Ok(state) => {
                    self.accepted = Some(state);
                    self.phase = ProbePhase::Rendering;
                },
            },
            (ProbePhase::Rendering, ProbeEvent::Rendered { base, rendering }) => {
                let same_base = match (&base, &self.current) {
                    (None, None) => true,
                    (Some(base), Some(bytes)) => same_bytes(
                        base.bytes.as_slice(),
                        bytes.as_slice(),
                    ),
                    _ => false,
                };
                if !same_base {
                    return self.asks();
                }
                let planned = match &self.accepted {
                    None => return self.asks(),
                    Some(accepted) => plan_projection(
                        self.workspace_id,
                        accepted,
                        lend_base(&base),
                        &rendering,
                    ),
                };
                match planned {
                    Err(error) => return self.finish(Err(error)),
                    Ok(plan) => {
                        let exact = match &self.current {
                            None => false,
                            Some(bytes) => same_bytes(bytes.as_slice(), plan.target()),
                        };
                        if !exact {
                            return self.finish(Ok(false));
                        }
                        let description = BlobDescription::of(plan.target());
                        self.phase = ProbePhase::Binding { description };
                    },
                }
            },
            (ProbePhase::Binding { .. }, ProbeEvent::Bound(bound)) => match bound {
                Err(message) => {
                    return self.finish(Err(ProjectionError::Work(Reason::Reported(message))));
                },
                Ok(()) => return self.finish(Ok(true)),
            },
            _ => {},
        }
        self.asks()
    }
}

/// How far a rewrite has come.
#[derive(Clone, Copy, Debug, PartialEq, Eq, Structural)]
pub enum RewritePhase {
    Endpoint,
    Resource,
    Accepting,
    Rendering,
    Authority,
    Writing,
    Cleanup,
    Staging,
    Done,
}

/// What a rewrite has to do, or find out, next.
#[derive(Debug, PartialEq, Eq)]
pub enum RewriteAction {
    /// Find the endpoint that the engine is bound to.
    BindEndpoint,
    /// Find the graph's resource.
    ReadResource,
    /// Have the engine authorize a write and give the accepted page.
    AuthorizeWrite,
    /// Serialise the accepted page against the superseded bytes.
    Render,
    /// Take the authority to mutate, for the planned intent.
    TakeAuthority,
    /// Write the target over the superseded bytes.
    Write,
    /// Retire the recovery files that the write left.
    Cleanup,
    /// Stage the completion of the planned intent.
    StageCompletion,
    /// The rewrite has ended.
    Finish(Result<(), ProjectionError>),
}

/// What came of what a rewrite asked for.
#[derive(Debug, PartialEq, Eq)]
pub enum RewriteEvent {
    Endpoint(Option<ProjectionEndpointBinding>),
    Resource(Result<CanonicalGraphResourceId, IoFailure>),
    Accepted(Result<ProjectionPageState, EngineError>),
    Rendered { base: Option<SourceBase>, rendering: PageRendering },
    Authority(Result<(), ProjectionStoreError>),
    Written(Result<(), IoFailure>),
    Cleaned(Result<(), ProjectionError>),
    Staged(Result<(), EngineError>),
}

/// The rewrite of a file that holds superseded bytes.
#[derive(Debug, PartialEq, Eq)]
pub struct RewriteRun {
    pub workspace_id: WorkspaceId,
    /// The superseded bytes.
    pub expected_base: Option<Vec<u8>>,
    pub phase: RewritePhase,
    pub endpoint: Option<ProjectionEndpointBinding>,
    pub accepted: Option<ProjectionPageState>,
    pub plan: Option<ProjectionPlan>,
}

/// What a rewrite says.
pub struct RewriteView {
    pub workspace_id: WorkspaceId,
    pub expected_base: Option<Seq<u8>>,
    pub phase: RewritePhase,
    pub endpoint: Option<ProjectionEndpointBinding>,
    pub accepted: Option<ProjectionPageState>,
    pub plan: Option<ProjectionPlanView>,
}

impl View for RewriteRun {
    type V = RewriteView;

    open spec fn view(&self) -> RewriteView {
        RewriteView {
            workspace_id: self.workspace_id,
            expected_base: optional_text(self.expected_base),
            phase: self.phase,
            endpoint: self.endpoint,
            accepted: self.accepted,
            plan: match self.plan {
                None => None,
                Some(plan) => Some(plan@),
            },
        }
    }
}

/// Where a rewrite goes next.
pub enum RewriteStep {
    Ask(RewriteView),
    Finish(Result<(), ProjectionError>),
}

/// What a rewrite asks for in a phase.
pub open spec fn rewrite_asks(phase: RewritePhase) -> RewriteAction {
    match phase {
        RewritePhase::Endpoint => RewriteAction::BindEndpoint,
        RewritePhase::Resource => RewriteAction::ReadResource,
        RewritePhase::Accepting => RewriteAction::AuthorizeWrite,
        RewritePhase::Rendering => RewriteAction::Render,
        RewritePhase::Authority => RewriteAction::TakeAuthority,
        RewritePhase::Writing => RewriteAction::Write,
        RewritePhase::Cleanup => RewriteAction::Cleanup,
        RewritePhase::Staging => RewriteAction::StageCompletion,
        RewritePhase::Done => RewriteAction::Finish(Ok(())),
    }
}

/// The rewrite in another phase.
pub open spec fn rewrite_in(run: RewriteView, phase: RewritePhase) -> RewriteStep {
    RewriteStep::Ask(RewriteView { phase, ..run })
}

/// Where a rewrite goes on an event. An event that answers nothing that was asked changes nothing.
pub open spec fn rewrite_step(run: RewriteView, event: RewriteEvent) -> RewriteStep {
    match (run.phase, event) {
        (RewritePhase::Endpoint, RewriteEvent::Endpoint(endpoint)) => match endpoint {
            None => RewriteStep::Finish(Err(ProjectionError::EndpointBindingMismatch)),
            Some(_) => rewrite_in(RewriteView { endpoint, ..run }, RewritePhase::Resource),
        },
        (RewritePhase::Resource, RewriteEvent::Resource(resource)) => match resource {
            Err(failure) => RewriteStep::Finish(Err(ProjectionError::Io(failure))),
            Ok(resource) => if run.endpoint is Some && resource
                == run.endpoint->0.graph_resource_id {
                rewrite_in(run, RewritePhase::Accepting)
            } else {
                RewriteStep::Finish(Err(ProjectionError::EndpointBindingMismatch))
            },
        },
        (RewritePhase::Accepting, RewriteEvent::Accepted(accepted)) => match accepted {
            Err(error) => RewriteStep::Finish(Err(ProjectionError::Engine(error))),
            Ok(state) => rewrite_in(
                RewriteView { accepted: Some(state), ..run },
                RewritePhase::Rendering,
            ),
        },
        (RewritePhase::Rendering, RewriteEvent::Rendered { base, rendering }) => if base_bytes(
            lent_base(&base),
        ) != run.expected_base {
            RewriteStep::Ask(run)
        } else {
            match projection_plan(
                run.workspace_id,
                run.accepted->0,
                lent_base(&base),
                None,
                rendering,
            ) {
                Err(error) => RewriteStep::Finish(Err(error)),
                Ok(plan) => rewrite_in(
                    RewriteView { plan: Some(plan), ..run },
                    RewritePhase::Authority,
                ),
            }
        },
        (RewritePhase::Authority, RewriteEvent::Authority(taken)) => match taken {
            Err(error) => RewriteStep::Finish(Err(ProjectionError::Store(Box::new(error)))),
            Ok(()) => rewrite_in(run, RewritePhase::Writing),
        },
        (RewritePhase::Writing, RewriteEvent::Written(written)) => match written {
            Err(failure) => RewriteStep::Finish(Err(ProjectionError::Io(failure))),
            Ok(()) => rewrite_in(run, RewritePhase::Cleanup),
        },
        (RewritePhase::Cleanup, RewriteEvent::Cleaned(cleaned)) => match cleaned {
            Err(error) => RewriteStep::Finish(Err(error)),
            Ok(()) => rewrite_in(run, RewritePhase::Staging),
        },
        (RewritePhase::Staging, RewriteEvent::Staged(staged)) => match staged {
            Err(error) => RewriteStep::Finish(Err(ProjectionError::Engine(error))),
            Ok(()) => RewriteStep::Finish(Ok(())),
        },
        _ => RewriteStep::Ask(run),
    }
}

/// What holds of a rewrite between two events.
pub open spec fn rewrite_wf(run: RewriteView) -> bool {
    &&& run.phase is Rendering ==> run.accepted is Some
    &&& run.phase is Authority || run.phase is Writing || run.phase is Cleanup
        || run.phase is Staging ==> run.plan is Some && run.plan->0.base == run.expected_base
}

/// Whether a rewrite is where it goes next and asks for that, or has ended.
pub open spec fn rewrite_goes(step: RewriteStep, after: RewriteView, action: RewriteAction) -> bool {
    &&& rewrite_wf(after)
    &&& match step {
        RewriteStep::Ask(next) => after == next && action == rewrite_asks(next.phase),
        RewriteStep::Finish(outcome) => action == RewriteAction::Finish(outcome)
            && after.phase is Done,
    }
}

impl RewriteRun {
    /// The rewrite of superseded bytes, before anything was asked.
    pub fn new(workspace_id: WorkspaceId, expected_base: Option<Vec<u8>>) -> (run: RewriteRun)
        ensures
            run@ == (RewriteView {
                workspace_id,
                expected_base: optional_text(expected_base),
                phase: RewritePhase::Endpoint,
                endpoint: None,
                accepted: None,
                plan: None,
            }),
            rewrite_wf(run@),
    {
        RewriteRun {
            workspace_id,
            expected_base,
            phase: RewritePhase::Endpoint,
            endpoint: None,
            accepted: None,
            plan: None,
        }
    }

    /// What the rewrite asks for.
    pub fn asks(&self) -> (action: RewriteAction)
        ensures
            action == rewrite_asks(self.phase),
    {
        match self.phase {
            RewritePhase::Endpoint => RewriteAction::BindEndpoint,
            RewritePhase::Resource => RewriteAction::ReadResource,
            RewritePhase::Accepting => RewriteAction::AuthorizeWrite,
            RewritePhase::Rendering => RewriteAction::Render,
            RewritePhase::Authority => RewriteAction::TakeAuthority,
            RewritePhase::Writing => RewriteAction::Write,
            RewritePhase::Cleanup => RewriteAction::Cleanup,
            RewritePhase::Staging => RewriteAction::StageCompletion,
            RewritePhase::Done => RewriteAction::Finish(Ok(())),
        }
    }

    /// Ends the rewrite.
    fn finish(&mut self, outcome: Result<(), ProjectionError>) -> (action: RewriteAction)
        ensures
            action == RewriteAction::Finish(outcome),
            final(self).phase is Done,
            rewrite_wf(final(self)@),
    {
        self.phase = RewritePhase::Done;
        RewriteAction::Finish(outcome)
    }

    /// Takes an event and says what comes next.
    pub fn advance(&mut self, event: RewriteEvent) -> (action: RewriteAction)
        requires
            rewrite_wf(old(self)@),
        ensures
            rewrite_goes(rewrite_step(old(self)@, event), final(self)@, action),
    {
        match (self.phase, event) {
            (RewritePhase::Endpoint, RewriteEvent::Endpoint(endpoint)) => {
                if endpoint.is_none() {
                    return self.finish(Err(ProjectionError::EndpointBindingMismatch));
                }
                self.endpoint = endpoint;
                self.phase = RewritePhase::Resource;
            },
            (RewritePhase::Resource, RewriteEvent::Resource(resource)) => {
                let found = match resource {
                    Err(failure) => return self.finish(Err(ProjectionError::Io(failure))),
                    Ok(found) => found,
                };
                let bound = match &self.endpoint {
                    None => false,
                    Some(endpoint) => endpoint.graph_resource_id == found,
                };
                if !bound {
                    return self.finish(Err(ProjectionError::EndpointBindingMismatch));
                }
                self.phase = RewritePhase::Accepting;
            },
            (RewritePhase::Accepting, RewriteEvent::Accepted(accepted)) => match accepted {
                Err(error) => return self.finish(Err(ProjectionError::Engine(error))),
                Ok(state) => {
                    self.accepted = Some(state);
                    self.phase = RewritePhase::Rendering;
                },
            },
            (RewritePhase::Rendering, RewriteEvent::Rendered { base, rendering }) => {
                let same_base = match (&base, &self.expected_base) {
                    (None, None) => true,
                    (Some(base), Some(bytes)) => same_bytes(
                        base.bytes.as_slice(),
                        bytes.as_slice(),
                    ),
                    _ => false,
                };
                if !same_base {
                    return self.asks();
                }
                let planned = match &self.accepted {
                    None => return self.asks(),
                    Some(accepted) => plan_projection(
                        self.workspace_id,
                        accepted,
                        lend_base(&base),
                        &rendering,
                    ),
                };
                match planned {
                    Err(error) => return self.finish(Err(error)),
                    Ok(plan) => {
                        self.plan = Some(plan);
                        self.phase = RewritePhase::Authority;
                    },
                }
            },
            (RewritePhase::Authority, RewriteEvent::Authority(taken)) => {
                if let Err(error) = taken {
                    return self.finish(Err(ProjectionError::Store(Box::new(error))));
                }
                self.phase = RewritePhase::Writing;
            },
            (RewritePhase::Writing, RewriteEvent::Written(written)) => {
                if let Err(failure) = written {
                    return self.finish(Err(ProjectionError::Io(failure)));
                }
                self.phase = RewritePhase::Cleanup;
            },
            (RewritePhase::Cleanup, RewriteEvent::Cleaned(cleaned)) => {
                if let Err(error) = cleaned {
                    return self.finish(Err(error));
                }
                self.phase = RewritePhase::Staging;
            },
            (RewritePhase::Staging, RewriteEvent::Staged(staged)) => match staged {
                Err(error) => return self.finish(Err(ProjectionError::Engine(error))),
                Ok(()) => return self.finish(Ok(())),
            },
            _ => {},
        }
        self.asks()
    }
}

/// How far retiring the recovery file of one pending cleanup has come.
#[derive(Clone, Copy, Debug, PartialEq, Eq, Structural)]
pub enum RetirePhase {
    Completion { index: usize },
    File { index: usize },
    Record { index: usize },
    Done,
}

/// What retiring has to do, or find out, next.
#[derive(Debug, PartialEq, Eq)]
pub enum RetireAction {
    /// Find out whether the pending cleanup at this position is of a completed intent.
    LoadCompletion(usize),
    /// Retire the recovery file of the pending cleanup at this position.
    RetireFile(usize),
    /// Retire the record of the pending cleanup at this position.
    RetireRecord(usize),
    /// Retiring has ended.
    Finish(Result<(), ProjectionError>),
}

/// What came of what retiring asked for.
#[derive(Debug, PartialEq, Eq)]
pub enum RetireEvent {
    Completion(Result<bool, ProjectionStoreError>),
    File(Result<(), IoFailure>),
    Record(Result<(), ProjectionStoreError>),
}

/// A pass over pending cleanups. It retires those of completed intents: of one intent, or of all.
#[derive(Debug, PartialEq, Eq)]
pub struct RetirePass {
    pub wanted: Option<ProjectionIntentId>,
    pub pending: Vec<ProjectionIntentId>,
    pub phase: RetirePhase,
}

/// What a pass says.
pub struct RetireView {
    pub wanted: Option<ProjectionIntentId>,
    pub pending: Seq<ProjectionIntentId>,
    pub phase: RetirePhase,
}

impl View for RetirePass {
    type V = RetireView;

    open spec fn view(&self) -> RetireView {
        RetireView { wanted: self.wanted, pending: self.pending@, phase: self.phase }
    }
}

/// Where a pass goes next.
pub enum RetireStep {
    Ask(RetireView),
    Finish(Result<(), ProjectionError>),
}

/// What a pass asks for in a phase.
pub open spec fn retire_asks(phase: RetirePhase) -> RetireAction {
    match phase {
        RetirePhase::Completion { index } => RetireAction::LoadCompletion(index),
        RetirePhase::File { index } => RetireAction::RetireFile(index),
        RetirePhase::Record { index } => RetireAction::RetireRecord(index),
        RetirePhase::Done => RetireAction::Finish(Ok(())),
    }
}

/// The first position from `at` on whose intent is wanted.
pub open spec fn next_wanted(
    wanted: Option<ProjectionIntentId>,
    pending: Seq<ProjectionIntentId>,
    at: int,
) -> Option<int>
    decreases pending.len() - at,
{
    if at < 0 || at >= pending.len() {
        None
    } else if wanted is None || wanted == Some(pending[at]) {
        Some(at)
    } else {
        next_wanted(wanted, pending, at + 1)
    }
}

/// Where a pass goes with the positions before `at` behind it.
pub open spec fn retire_from(pass: RetireView, at: int) -> RetireStep {
    match next_wanted(pass.wanted, pass.pending, at) {
        None => RetireStep::Finish(Ok(())),
        Some(index) => RetireStep::Ask(
            RetireView { phase: RetirePhase::Completion { index: index as usize }, ..pass },
        ),
    }
}

/// Where a pass goes on an event: a pending cleanup of an intent without a completion is left, and
/// every other has its file retired before its record. An event that answers nothing that was
/// asked changes nothing.
pub open spec fn retire_step(pass: RetireView, event: RetireEvent) -> RetireStep {
    match (pass.phase, event) {
        (RetirePhase::Completion { index }, RetireEvent::Completion(completed)) => {
            match completed {
                Err(error) => RetireStep::Finish(Err(ProjectionError::Store(Box::new(error)))),
                Ok(true) => RetireStep::Ask(
                    RetireView { phase: RetirePhase::File { index }, ..pass },
                ),
                Ok(false) => retire_from(pass, index + 1),
            }
        },
        (RetirePhase::File { index }, RetireEvent::File(retired)) => match retired {
            Err(failure) => RetireStep::Finish(Err(ProjectionError::Io(failure))),
            Ok(()) => RetireStep::Ask(RetireView { phase: RetirePhase::Record { index }, ..pass }),
        },
        (RetirePhase::Record { index }, RetireEvent::Record(retired)) => match retired {
            Err(error) => RetireStep::Finish(Err(ProjectionError::Store(Box::new(error)))),
            Ok(()) => retire_from(pass, index + 1),
        },
        _ => RetireStep::Ask(pass),
    }
}

/// What holds of a pass between two events: it is at a wanted position.
pub open spec fn retire_wf(pass: RetireView) -> bool {
    match pass.phase {
        RetirePhase::Completion { index } | RetirePhase::File { index } | RetirePhase::Record {
            index,
        } => index < pass.pending.len() && (pass.wanted is None || pass.wanted == Some(
            pass.pending[index as int],
        )),
        RetirePhase::Done => true,
    }
}

/// Whether a pass is where it goes next and asks for that, or has ended.
pub open spec fn retire_goes(step: RetireStep, after: RetireView, action: RetireAction) -> bool {
    &&& retire_wf(after)
    &&& match step {
        RetireStep::Ask(next) => after == next && action == retire_asks(next.phase),
        RetireStep::Finish(outcome) => action == RetireAction::Finish(outcome)
            && after.phase is Done,
    }
}

/// Only the recovery files of wanted intents are retired.
pub proof fn law_only_wanted_files_are_retired(pass: RetireView, index: usize)
    requires
        retire_wf(pass),
        retire_asks(pass.phase) == RetireAction::RetireFile(index),
    ensures
        index < pass.pending.len(),
        pass.wanted is Some ==> pass.pending[index as int] == pass.wanted->0,
{
}


impl RetirePass {
    /// Starts a pass over pending cleanups, and says what it asks for first.
    pub fn start(wanted: Option<ProjectionIntentId>, pending: Vec<ProjectionIntentId>) -> (started: (
        RetirePass,
        RetireAction,
    ))
        ensures
            retire_goes(
                retire_from(
                    RetireView { wanted, pending: pending@, phase: RetirePhase::Done },
                    0,
                ),
                started.0@,
                started.1,
            ),
    {
        let mut pass = RetirePass { wanted, pending, phase: RetirePhase::Done };
        let action = pass.go_on(0);
        (pass, action)
    }

    /// What the pass asks for.
    pub fn asks(&self) -> (action: RetireAction)
        ensures
            action == retire_asks(self.phase),
    {
        match self.phase {
            RetirePhase::Completion { index } => RetireAction::LoadCompletion(index),
            RetirePhase::File { index } => RetireAction::RetireFile(index),
            RetirePhase::Record { index } => RetireAction::RetireRecord(index),
            RetirePhase::Done => RetireAction::Finish(Ok(())),
        }
    }

    /// Ends the pass.
    fn finish(&mut self, outcome: Result<(), ProjectionError>) -> (action: RetireAction)
        ensures
            action == RetireAction::Finish(outcome),
            final(self).phase is Done,
    {
        self.phase = RetirePhase::Done;
        RetireAction::Finish(outcome)
    }

    /// Goes on from the position `at`.
    fn go_on(&mut self, at: usize) -> (action: RetireAction)
        requires
            at <= old(self).pending@.len(),
        ensures
            retire_goes(retire_from(old(self)@, at as int), final(self)@, action),
    {
        let mut index: usize = at;
        while index < self.pending.len()
            invariant
                at <= index <= self.pending@.len(),
                *self == *old(self),
                next_wanted(self.wanted, self.pending@, at as int) == next_wanted(
                    self.wanted,
                    self.pending@,
                    index as int,
                ),
            decreases self.pending@.len() - index,
        {
            let is_wanted = match self.wanted {
                None => true,
                Some(wanted) => wanted == self.pending[index],
            };
            if is_wanted {
                self.phase = RetirePhase::Completion { index };
                return self.asks();
            }
            index = index + 1;
        }
        self.finish(Ok(()))
    }

    /// Takes an event and says what comes next.
    pub fn advance(&mut self, event: RetireEvent) -> (action: RetireAction)
        requires
            retire_wf(old(self)@),
        ensures
            retire_goes(retire_step(old(self)@, event), final(self)@, action),
    {
        let total: usize = self.pending.len();
        match (self.phase, event) {
            (RetirePhase::Completion { index }, RetireEvent::Completion(completed)) => {
                match completed {
                    Err(error) => {
                        return self.finish(Err(ProjectionError::Store(Box::new(error))));
                    },
                    Ok(completed) => {
                        if !completed {
                            return self.go_on(index + 1);
                        }
                        self.phase = RetirePhase::File { index };
                    },
                }
            },
            (RetirePhase::File { index }, RetireEvent::File(retired)) => {
                if let Err(failure) = retired {
                    return self.finish(Err(ProjectionError::Io(failure)));
                }
                self.phase = RetirePhase::Record { index };
            },
            (RetirePhase::Record { index }, RetireEvent::Record(retired)) => {
                if let Err(error) = retired {
                    return self.finish(Err(ProjectionError::Store(Box::new(error))));
                }
                return self.go_on(index + 1);
            },
            _ => {},
        }
        self.asks()
    }
}

} // verus!
