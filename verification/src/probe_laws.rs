//! What holds of the smaller executions: probing, rewriting and retiring.

use vstd::prelude::*;

use crate::error::{EngineError, ProjectionError};
use crate::execution::ProjectionEndpointBinding;
use crate::hash::BlobDescription;
use crate::ids::{CanonicalGraphResourceId, ProjectionIntentId};
use crate::page::ProjectionPageState;
use crate::plan::{base_bytes, lent_base, projection_plan, PageRendering, SourceBase};
use crate::probe_run::{
    next_wanted, probe_asks, probe_step, retire_asks, retire_from, retire_step, rewrite_asks,
    rewrite_step, ProbeAction, ProbeEvent, ProbeStep, ProbeView, RetireAction, RetireEvent,
    RetirePhase, RetireStep, RetireView, RewriteAction, RewriteEvent, RewriteStep, RewriteView,
};
use crate::store_error::{IoFailure, ProjectionStoreError, Reason};

verus! {

/// A file that is there is compared with its baseline before anything else: a probe asks about the
/// description of exactly the bytes that were read. Where there is no file, work that leaves none is
/// exact, and for other work the accepted page is asked for.
pub proof fn law_probe_asks_about_the_file(probe: ProbeView, input: Option<Vec<u8>>)
    requires
        probe_asks(probe.phase) == ProbeAction::ReadInput,
    ensures
        ({
            let next = probe_step(probe, ProbeEvent::Input(Ok(input)));
            &&& input is Some ==> {
                &&& next is Ask
                &&& probe_asks(next->Ask_0.phase) == ProbeAction::AskBaseline(
                    BlobDescription::spec_of(input->0@),
                )
                &&& next->Ask_0 == (ProbeView {
                    phase: next->Ask_0.phase,
                    current: Some(input->0@),
                    ..probe
                })
            }
            &&& input is None && probe.work.target is Absent ==> next == ProbeStep::Finish(Ok(true))
            &&& input is None && probe.work.target is Present ==> {
                &&& next is Ask
                &&& probe_asks(next->Ask_0.phase) == ProbeAction::AuthorizeWrite
                &&& next->Ask_0 == (ProbeView {
                    phase: next->Ask_0.phase,
                    current: None,
                    ..probe
                })
            }
        }),
{
}

/// A file that is its baseline is exact. Another one is not where the work leaves no file, and else
/// the accepted page is asked for, and then rendered.
pub proof fn law_probe_trusts_the_baseline(
    probe: ProbeView,
    description: BlobDescription,
    state: ProjectionPageState,
)
    ensures
        probe_asks(probe.phase) == ProbeAction::AskBaseline(description) ==> {
            let other = probe_step(probe, ProbeEvent::Baseline(Ok(false)));
            &&& probe_step(probe, ProbeEvent::Baseline(Ok(true))) == ProbeStep::Finish(Ok(true))
            &&& probe.work.target is Absent ==> other == ProbeStep::Finish(
                Ok(probe.current is None),
            )
            &&& probe.work.target is Present ==> {
                &&& other is Ask
                &&& probe_asks(other->Ask_0.phase) == ProbeAction::AuthorizeWrite
                &&& other->Ask_0 == (ProbeView { phase: other->Ask_0.phase, ..probe })
            }
        },
        probe_asks(probe.phase) == ProbeAction::AuthorizeWrite ==> {
            let next = probe_step(probe, ProbeEvent::Accepted(Ok(state)));
            &&& next is Ask
            &&& probe_asks(next->Ask_0.phase) == ProbeAction::Render
            &&& next->Ask_0 == (ProbeView {
                phase: next->Ask_0.phase,
                accepted: Some(state),
                ..probe
            })
        },
{
}

/// A file is exact where the accepted page renders to exactly its bytes over them; then the baseline
/// is bound to those bytes. Else it is not. A rendering over other bytes is no answer.
pub proof fn law_probe_is_exact_to_the_byte(
    probe: ProbeView,
    base: Option<SourceBase>,
    rendering: PageRendering,
)
    requires
        probe_asks(probe.phase) == ProbeAction::Render,
    ensures
        ({
            let next = probe_step(probe, ProbeEvent::Rendered { base, rendering });
            let plan = projection_plan(
                probe.workspace_id,
                probe.accepted->0,
                lent_base(&base),
                None,
                rendering,
            );
            if base_bytes(lent_base(&base)) != probe.current {
                next == ProbeStep::Ask(probe)
            } else if plan is Err {
                next == ProbeStep::Finish(Err(plan->Err_0))
            } else if probe.current is Some && plan->Ok_0.target == probe.current->0 {
                &&& next is Ask
                &&& probe_asks(next->Ask_0.phase) == ProbeAction::BindBaseline(
                    BlobDescription::spec_of(probe.current->0),
                )
                &&& next->Ask_0 == (ProbeView { phase: next->Ask_0.phase, ..probe })
            } else {
                next == ProbeStep::Finish(Ok(false))
            }
        }),
{
}

/// Whatever says no ends a probe with what it says, and a bound baseline ends it well. What answers
/// nothing that was asked changes nothing.
pub proof fn law_probe_ends_with_the_first_refusal(
    probe: ProbeView,
    description: BlobDescription,
    failure: IoFailure,
    message: String,
    error: ProjectionError,
    event: ProbeEvent,
)
    ensures
        probe_asks(probe.phase) == ProbeAction::ReadInput ==> probe_step(
            probe,
            ProbeEvent::Input(Err(failure)),
        ) == ProbeStep::Finish(Err(ProjectionError::Io(failure))),
        probe_asks(probe.phase) == ProbeAction::AskBaseline(description) ==> probe_step(
            probe,
            ProbeEvent::Baseline(Err(message)),
        ) == ProbeStep::Finish(Err(ProjectionError::Work(Reason::Reported(message)))),
        probe_asks(probe.phase) == ProbeAction::AuthorizeWrite ==> probe_step(
            probe,
            ProbeEvent::Accepted(Err(error)),
        ) == ProbeStep::Finish(Err(error)),
        probe_asks(probe.phase) == ProbeAction::BindBaseline(description) ==> probe_step(
            probe,
            ProbeEvent::Bound(Err(message)),
        ) == ProbeStep::Finish(Err(ProjectionError::Work(Reason::Reported(message)))) && probe_step(
            probe,
            ProbeEvent::Bound(Ok(())),
        ) == ProbeStep::Finish(Ok(true)),
        !(event is Input && probe.phase is Input || event is Baseline && probe.phase is Baseline
            || event is Accepted && probe.phase is Accepting || event is Rendered
            && probe.phase is Rendering || event is Bound && probe.phase is Binding) ==> probe_step(
            probe,
            event,
        ) == ProbeStep::Ask(probe),
{
}

/// Whether a rewrite goes on by asking for something, with nothing else about it changed.
pub open spec fn rewrite_goes_on(
    run: RewriteView,
    step: RewriteStep,
    action: RewriteAction,
) -> bool {
    &&& step is Ask
    &&& rewrite_asks(step->Ask_0.phase) == action
    &&& step->Ask_0 == (RewriteView { phase: step->Ask_0.phase, ..run })
}

/// A rewrite is bound to its endpoint's graph, has the accepted page planned over exactly the
/// superseded bytes, takes the authority to write, writes, retires what that left, and stages its
/// completion, in that order.
pub proof fn law_rewrite_goes_in_order(
    run: RewriteView,
    endpoint: ProjectionEndpointBinding,
    resource: CanonicalGraphResourceId,
    state: ProjectionPageState,
    base: Option<SourceBase>,
    rendering: PageRendering,
)
    ensures
        rewrite_asks(run.phase) == RewriteAction::BindEndpoint ==> {
            let bound = rewrite_step(run, RewriteEvent::Endpoint(Some(endpoint)));
            let checked = rewrite_step(bound->Ask_0, RewriteEvent::Resource(Ok(resource)));
            &&& rewrite_goes_on(
                RewriteView { endpoint: Some(endpoint), ..run },
                bound,
                RewriteAction::ReadResource,
            )
            &&& resource == endpoint.graph_resource_id ==> rewrite_goes_on(
                bound->Ask_0,
                checked,
                RewriteAction::AuthorizeWrite,
            )
            &&& resource != endpoint.graph_resource_id ==> checked == RewriteStep::Finish(
                Err(ProjectionError::EndpointBindingMismatch),
            )
        },
        rewrite_asks(run.phase) == RewriteAction::AuthorizeWrite ==> rewrite_goes_on(
            RewriteView { accepted: Some(state), ..run },
            rewrite_step(run, RewriteEvent::Accepted(Ok(state))),
            RewriteAction::Render,
        ),
        rewrite_asks(run.phase) == RewriteAction::Render ==> {
            let next = rewrite_step(run, RewriteEvent::Rendered { base, rendering });
            let plan = projection_plan(
                run.workspace_id,
                run.accepted->0,
                lent_base(&base),
                None,
                rendering,
            );
            if base_bytes(lent_base(&base)) != run.expected_base {
                next == RewriteStep::Ask(run)
            } else if plan is Err {
                next == RewriteStep::Finish(Err(plan->Err_0))
            } else {
                rewrite_goes_on(
                    RewriteView { plan: Some(plan->Ok_0), ..run },
                    next,
                    RewriteAction::TakeAuthority,
                )
            }
        },
        rewrite_asks(run.phase) == RewriteAction::TakeAuthority ==> rewrite_goes_on(
            run,
            rewrite_step(run, RewriteEvent::Authority(Ok(()))),
            RewriteAction::Write,
        ),
        rewrite_asks(run.phase) == RewriteAction::Write ==> rewrite_goes_on(
            run,
            rewrite_step(run, RewriteEvent::Written(Ok(()))),
            RewriteAction::Cleanup,
        ),
        rewrite_asks(run.phase) == RewriteAction::Cleanup ==> rewrite_goes_on(
            run,
            rewrite_step(run, RewriteEvent::Cleaned(Ok(()))),
            RewriteAction::StageCompletion,
        ),
        rewrite_asks(run.phase) == RewriteAction::StageCompletion ==> rewrite_step(
            run,
            RewriteEvent::Staged(Ok(())),
        ) == RewriteStep::Finish(Ok(())),
{
}

/// Whatever says no ends a rewrite with what it says.
pub proof fn law_rewrite_ends_with_the_first_refusal(
    run: RewriteView,
    failure: IoFailure,
    refusal: EngineError,
    fault: ProjectionStoreError,
    error: ProjectionError,
)
    ensures
        rewrite_asks(run.phase) == RewriteAction::BindEndpoint ==> rewrite_step(
            run,
            RewriteEvent::Endpoint(None),
        ) == RewriteStep::Finish(Err(ProjectionError::EndpointBindingMismatch)),
        rewrite_asks(run.phase) == RewriteAction::ReadResource ==> rewrite_step(
            run,
            RewriteEvent::Resource(Err(failure)),
        ) == RewriteStep::Finish(Err(ProjectionError::Io(failure))),
        rewrite_asks(run.phase) == RewriteAction::AuthorizeWrite ==> rewrite_step(
            run,
            RewriteEvent::Accepted(Err(refusal)),
        ) == RewriteStep::Finish(Err(ProjectionError::Engine(refusal))),
        rewrite_asks(run.phase) == RewriteAction::TakeAuthority ==> rewrite_step(
            run,
            RewriteEvent::Authority(Err(fault)),
        ) == RewriteStep::Finish(Err(ProjectionError::Store(Box::new(fault)))),
        rewrite_asks(run.phase) == RewriteAction::Write ==> rewrite_step(
            run,
            RewriteEvent::Written(Err(failure)),
        ) == RewriteStep::Finish(Err(ProjectionError::Io(failure))),
        rewrite_asks(run.phase) == RewriteAction::Cleanup ==> rewrite_step(
            run,
            RewriteEvent::Cleaned(Err(error)),
        ) == RewriteStep::Finish(Err(error)),
        rewrite_asks(run.phase) == RewriteAction::StageCompletion ==> rewrite_step(
            run,
            RewriteEvent::Staged(Err(refusal)),
        ) == RewriteStep::Finish(Err(ProjectionError::Engine(refusal))),
{
}

/// Whether an intent's files are to be retired.
pub open spec fn is_wanted(wanted: Option<ProjectionIntentId>, intent: ProjectionIntentId) -> bool {
    wanted is None || wanted->0 == intent
}

/// Where the next wanted intent is.
proof fn lemma_next_wanted(
    wanted: Option<ProjectionIntentId>,
    pending: Seq<ProjectionIntentId>,
    at: int,
)
    requires
        0 <= at <= pending.len(),
    ensures
        match next_wanted(wanted, pending, at) {
            Some(found) => at <= found < pending.len() && is_wanted(wanted, pending[found])
                && forall|k: int|
                at <= k < found ==> !is_wanted(wanted, #[trigger] pending[k]),
            None => forall|k: int|
                at <= k < pending.len() ==> !is_wanted(wanted, #[trigger] pending[k]),
        },
    decreases pending.len() - at,
{
    if at < pending.len() && !is_wanted(wanted, pending[at]) {
        lemma_next_wanted(wanted, pending, at + 1);
    }
}

/// A pass goes from one wanted intent to the next and leaves none out: from any position on, it asks
/// for the completion of the first wanted intent, or ends well where there is none.
pub proof fn law_every_wanted_intent_is_visited(pass: RetireView, at: int, found: int)
    requires
        0 <= at <= pass.pending.len(),
        pass.pending.len() <= usize::MAX,
    ensures
        at <= found < pass.pending.len() && is_wanted(pass.wanted, pass.pending[found]) && (forall|
            k: int,
        |
            at <= k < found ==> !is_wanted(pass.wanted, #[trigger] pass.pending[k])) ==> {
            let next = retire_from(pass, at);
            &&& next is Ask
            &&& retire_asks(next->Ask_0.phase) == RetireAction::LoadCompletion(found as usize)
            &&& next->Ask_0 == (RetireView { phase: next->Ask_0.phase, ..pass })
        },
        (forall|k: int|
            at <= k < pass.pending.len() ==> !is_wanted(pass.wanted, #[trigger] pass.pending[k]))
            ==> retire_from(pass, at) == RetireStep::Finish(Ok(())),
{
    lemma_next_wanted(pass.wanted, pass.pending, at);
    if let Some(next) = next_wanted(pass.wanted, pass.pending, at) {
        assert(is_wanted(pass.wanted, pass.pending[next]));
    }
}

/// The files of an intent are retired only where it has a completion, its file before its record, and
/// then the pass goes on behind it; whatever says no ends the pass with what it says.
pub proof fn law_files_are_retired_behind_completions(
    pass: RetireView,
    index: usize,
    failure: IoFailure,
    fault: ProjectionStoreError,
)
    ensures
        pass.phase == (RetirePhase::Completion { index }) ==> {
            let retired = retire_step(pass, RetireEvent::Completion(Ok(true)));
            &&& retired is Ask
            &&& retire_asks(retired->Ask_0.phase) == RetireAction::RetireFile(index)
            &&& retired->Ask_0 == (RetireView { phase: retired->Ask_0.phase, ..pass })
            &&& retire_step(pass, RetireEvent::Completion(Ok(false))) == retire_from(
                pass,
                index + 1,
            )
            &&& retire_step(pass, RetireEvent::Completion(Err(fault))) == RetireStep::Finish(
                Err(ProjectionError::Store(Box::new(fault))),
            )
        },
        pass.phase == (RetirePhase::File { index }) ==> {
            let retired = retire_step(pass, RetireEvent::File(Ok(())));
            &&& retired is Ask
            &&& retire_asks(retired->Ask_0.phase) == RetireAction::RetireRecord(index)
            &&& retired->Ask_0 == (RetireView { phase: retired->Ask_0.phase, ..pass })
            &&& retire_step(pass, RetireEvent::File(Err(failure))) == RetireStep::Finish(
                Err(ProjectionError::Io(failure)),
            )
        },
        pass.phase == (RetirePhase::Record { index }) ==> retire_step(
            pass,
            RetireEvent::Record(Ok(())),
        ) == retire_from(pass, index + 1) && retire_step(pass, RetireEvent::Record(Err(fault)))
            == RetireStep::Finish(Err(ProjectionError::Store(Box::new(fault)))),
{
}

} // verus!
