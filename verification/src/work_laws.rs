//! What holds of carrying out a piece of work.

use vstd::prelude::*;

use crate::annotation::annotation_views;
use crate::error::ProjectionError;
use crate::execution::{GraphOperation, ProjectionEndpointBinding, ProjectionExecution};
use crate::ids::CanonicalGraphResourceId;
use crate::manifest_set::OperationObject;
use crate::page::ProjectionPageState;
use crate::plan::{base_bytes, lent_base, projection_plan, PageRendering, SourceBase};
use crate::store_error::IoFailure;
use crate::work::{decoded_work, DecodedWorkView};
use crate::work_run::{
    work_asks, work_step, WorkAction, WorkEvent, WorkPhase, WorkRunView, WorkStep,
};

verus! {

/// Whether a run goes on by asking for something, with nothing else about it changed.
pub open spec fn work_goes_on(run: WorkRunView, step: WorkStep, action: WorkAction) -> bool {
    &&& step is Ask
    &&& work_asks(step->Ask_0.phase) == action
    &&& step->Ask_0 == (WorkRunView { phase: step->Ask_0.phase, ..run })
}

/// Whether an event is an answer to what was asked for.
pub open spec fn answers_work(action: WorkAction, event: WorkEvent) -> bool {
    match action {
        WorkAction::BindEndpoint => event is Endpoint,
        WorkAction::ReadResource => event is Resource,
        WorkAction::AuthorizeWork => event is Authorized,
        WorkAction::ReadObjects => event is Objects,
        WorkAction::AskRevival => event is Revival,
        WorkAction::ReadInput => event is Input,
        WorkAction::AskCompleted => event is Completed,
        WorkAction::AuthorizeWrite => event is Accepted,
        WorkAction::Render => event is Rendered,
        WorkAction::TakeAuthority => event is Authority,
        WorkAction::LetHarnessFail => event is Harness,
        WorkAction::Operate(_) => event is Operated,
        WorkAction::Cleanup => event is Cleaned,
        WorkAction::StageCompletion => event is Staged,
        WorkAction::NoteDeferredAbsence => event is Noted,
        WorkAction::Finish(_) => false,
    }
}

/// What an answer that says no says, apart from that of an operation.
pub open spec fn refused_work(event: WorkEvent) -> Option<ProjectionError> {
    match event {
        WorkEvent::Endpoint(None) => Some(ProjectionError::EndpointBindingMismatch),
        WorkEvent::Resource(Err(failure)) => Some(ProjectionError::Io(failure)),
        WorkEvent::Authorized(Err(error)) => Some(ProjectionError::Engine(error)),
        WorkEvent::Revival(Err(error)) => Some(ProjectionError::Engine(error)),
        WorkEvent::Input(Err(failure)) => Some(ProjectionError::Io(failure)),
        WorkEvent::Completed(Err(error)) => Some(error),
        WorkEvent::Accepted(Err(error)) => Some(error),
        WorkEvent::Authority(Err(error)) => Some(ProjectionError::Store(Box::new(error))),
        WorkEvent::Harness(Err(error)) => Some(error),
        WorkEvent::Cleaned(Err(error)) => Some(error),
        WorkEvent::Staged(Err(error)) => Some(ProjectionError::Engine(error)),
        _ => None,
    }
}

/// Whatever says no ends the work with what it says; whatever answers nothing that was asked
/// changes nothing.
pub proof fn law_work_ends_with_the_first_refusal(run: WorkRunView, event: WorkEvent)
    ensures
        answers_work(work_asks(run.phase), event) && refused_work(event) is Some ==> work_step(
            run,
            event,
        ) == WorkStep::Finish(Err(refused_work(event)->0)),
        !answers_work(work_asks(run.phase), event) ==> work_step(run, event) == WorkStep::Ask(run),
{
}

/// Work of another graph than the one that the endpoint is bound to is refused, and work of that
/// graph is authorised next.
pub proof fn law_work_is_bound_to_its_graph(
    run: WorkRunView,
    endpoint: ProjectionEndpointBinding,
    resource: CanonicalGraphResourceId,
)
    requires
        work_asks(run.phase) == WorkAction::BindEndpoint,
    ensures
        ({
            let bound = work_step(run, WorkEvent::Endpoint(Some(endpoint)));
            let checked = work_step(bound->Ask_0, WorkEvent::Resource(Ok(resource)));
            &&& bound is Ask
            &&& work_asks(bound->Ask_0.phase) == WorkAction::ReadResource
            &&& bound->Ask_0.endpoint == Some(endpoint)
            &&& resource == endpoint.graph_resource_id ==> work_goes_on(
                bound->Ask_0,
                checked,
                WorkAction::AuthorizeWork,
            )
            &&& resource != endpoint.graph_resource_id ==> checked == WorkStep::Finish(
                Err(ProjectionError::EndpointBindingMismatch),
            )
        }),
{
}

/// Authorised work has its objects read, and the file is read before anything else is asked about
/// the page; what is found out is kept.
pub proof fn law_work_reads_before_it_decides(run: WorkRunView, revival: bool)
    ensures
        work_asks(run.phase) == WorkAction::AuthorizeWork ==> work_goes_on(
            run,
            work_step(run, WorkEvent::Authorized(Ok(()))),
            WorkAction::ReadObjects,
        ),
        work_asks(run.phase) == WorkAction::AskRevival ==> {
            let next = work_step(run, WorkEvent::Revival(Ok(revival)));
            &&& next is Ask
            &&& work_asks(next->Ask_0.phase) == WorkAction::ReadInput
            &&& next->Ask_0 == (WorkRunView { phase: next->Ask_0.phase, revival, ..run })
        },
{
}

/// Work whose objects are read goes on as what they hold, where they are the work's own; where they
/// are not, it ends with the reason.
pub proof fn law_work_is_decoded_from_its_objects(
    run: WorkRunView,
    intent: Result<OperationObject, String>,
    base: Result<OperationObject, String>,
)
    requires
        work_asks(run.phase) == WorkAction::ReadObjects,
    ensures
        ({
            let next = work_step(run, WorkEvent::Objects { intent, base });
            let decoded = decoded_work(run.work, intent, base);
            &&& decoded is Ok ==> next is Ask && work_asks(next->Ask_0.phase)
                == WorkAction::AskRevival && next->Ask_0 == (WorkRunView {
                phase: next->Ask_0.phase,
                decoded: Some(decoded->Ok_0),
                ..run
            })
            &&& decoded is Err ==> next == WorkStep::Finish(Err(decoded->Err_0))
        }),
{
}

/// What is done about the file as it was first read: a page that is to be there is planned from its
/// accepted state where there is a file, or where the batch revives it; a page that is to be gone
/// needs no plan. Where nothing is there that ought to be, and nothing revives it, the file is left
/// gone if there was one before, and else it is asked whether the work was done before.
pub proof fn law_work_decides_by_the_first_reading(run: WorkRunView, input: Option<Vec<u8>>)
    requires
        run.phase is InputBefore,
    ensures
        ({
            let next = work_step(run, WorkEvent::Input(Ok(input)));
            let leaves_file = run.decoded->0.target is Some;
            &&& !leaves_file ==> work_goes_on(run, next, WorkAction::AskCompleted)
                && !(next->Ask_0.phase is CompletedBefore)
            &&& leaves_file && (input is Some || run.revival) ==> work_goes_on(
                run,
                next,
                WorkAction::AuthorizeWrite,
            )
            &&& leaves_file && input is None && !run.revival && run.decoded->0.annotated_base is Some
                ==> work_goes_on(run, next, WorkAction::NoteDeferredAbsence)
            &&& leaves_file && input is None && !run.revival && run.decoded->0.annotated_base is None
                ==> work_goes_on(run, next, WorkAction::AskCompleted)
                && next->Ask_0.phase is CompletedBefore
        }),
{
}

/// Work whose file is gone and that was not done before goes on as if the file were to be written
/// for the first time.
pub proof fn law_new_file_is_written(run: WorkRunView)
    requires
        run.phase is CompletedBefore,
    ensures
        work_goes_on(
            run,
            work_step(run, WorkEvent::Completed(Ok(false))),
            WorkAction::AuthorizeWrite,
        ),
        work_goes_on(
            run,
            work_step(run, WorkEvent::Completed(Ok(true))),
            WorkAction::NoteDeferredAbsence,
        ),
{
}

/// The accepted page is rendered once the engine has given it.
pub proof fn law_accepted_page_is_rendered(run: WorkRunView, state: ProjectionPageState)
    requires
        work_asks(run.phase) == WorkAction::AuthorizeWrite,
    ensures
        ({
            let next = work_step(run, WorkEvent::Accepted(Ok(state)));
            &&& next is Ask
            &&& work_asks(next->Ask_0.phase) == WorkAction::Render
            &&& next->Ask_0 == (WorkRunView {
                phase: next->Ask_0.phase,
                accepted: Some(state),
                ..run
            })
        }),
{
}

/// The bytes that the accepted page is rendered against: those of the work's base, or else, where
/// the batch revives the page, those that the work leaves.
pub open spec fn rendered_against(decoded: DecodedWorkView, revival: bool) -> Option<Seq<u8>> {
    if decoded.annotated_base is Some {
        Some(decoded.annotated_base->0.bytes@)
    } else if revival {
        decoded.target
    } else {
        None
    }
}

/// Work goes on only where the accepted page still renders to what the work leaves: against the
/// work's base, with its annotations, to the same bytes, blocks and description, of the same page at
/// the same path with the same claims, and, but for a revived page, from the same base and with the
/// same layout. Where it does not, the work is not ready; a rendering against other bytes is no
/// answer.
pub proof fn law_stale_work_is_not_carried_out(
    run: WorkRunView,
    base: Option<SourceBase>,
    rendering: PageRendering,
)
    requires
        work_asks(run.phase) == WorkAction::Render,
    ensures
        ({
            let decoded = run.decoded->0;
            let next = work_step(run, WorkEvent::Rendered { base, rendering });
            let annotations = if decoded.annotated_base is Some {
                Some(annotation_views(decoded.annotated_base->0.annotations@))
            } else if run.revival {
                Some(annotation_views(decoded.manifested.target.spec_annotations()))
            } else {
                None
            };
            let planned = projection_plan(
                run.workspace_id,
                run.accepted->0,
                lent_base(&base),
                annotations,
                rendering,
            );
            let plan = planned->Ok_0;
            let intent = decoded.receiver_local_intent;
            let same = {
                &&& Some(plan.target) == decoded.target
                &&& plan.intent.workspace_id == intent.workspace_id
                &&& plan.intent.page_id == intent.page_id
                &&& plan.intent.path.text == intent.path.text
                &&& plan.intent.claim_evidence == intent.claim_evidence
                &&& plan.intent.target_kind == intent.target_kind
                &&& plan.intent.target == intent.target
                &&& plan.intent.annotations == intent.annotations
                &&& !run.revival ==> plan.intent.precondition == intent.precondition
                    && plan.guarded_layout == decoded.guarded_layout
            };
            if base_bytes(lent_base(&base)) != rendered_against(decoded, run.revival) {
                next == WorkStep::Ask(run)
            } else if planned is Err {
                next == WorkStep::Finish(Err(planned->Err_0))
            } else if !same {
                next == WorkStep::Finish(Err(ProjectionError::WorkNotReady))
            } else {
                &&& next is Ask
                &&& work_asks(next->Ask_0.phase) == WorkAction::AskCompleted
                &&& !(next->Ask_0.phase is CompletedBefore)
                &&& next->Ask_0 == (WorkRunView {
                    phase: next->Ask_0.phase,
                    replay: Some(plan),
                    ..run
                })
            }
        }),
{
}

/// Work that was done before is not done again. Work that was not takes the authority to change the
/// file; where it leaves none, the file is read again first.
pub proof fn law_completed_work_is_not_repeated(run: WorkRunView)
    requires
        run.phase is Completed,
    ensures
        work_step(run, WorkEvent::Completed(Ok(true))) == WorkStep::Finish(
            Ok(ProjectionExecution::NeedsTurnRebarrier),
        ),
        work_goes_on(
            run,
            work_step(run, WorkEvent::Completed(Ok(false))),
            if run.decoded->0.target is Some {
                WorkAction::TakeAuthority
            } else {
                WorkAction::ReadInput
            },
        ),
{
}

/// The first operation only finishes or proves. Work that leaves a file recovers the write. Work
/// that leaves none proves the absence where the file was read as absent, and only there; where it
/// was read as present, the removal of its base is recovered, and without a base there is no
/// operation. None is asked for before the authority was taken.
pub proof fn law_first_operation_finishes_or_proves(run: WorkRunView, input: Option<Vec<u8>>)
    ensures
        run.phase is Completed && run.decoded->0.target is Some ==> {
            let unfinished = work_step(run, WorkEvent::Completed(Ok(false)));
            work_goes_on(
                run,
                work_step(unfinished->Ask_0, WorkEvent::Authority(Ok(()))),
                WorkAction::Operate(GraphOperation::Recover),
            )
        },
        run.phase is DeletedInput && run.decoded->0.target is None ==> {
            let reread = work_step(run, WorkEvent::Input(Ok(input)));
            let next = work_step(reread->Ask_0, WorkEvent::Authority(Ok(())));
            &&& work_goes_on(run, reread, WorkAction::TakeAuthority)
            &&& input is None ==> work_goes_on(
                run,
                next,
                WorkAction::Operate(GraphOperation::ConfirmRemoved),
            )
            &&& input is Some && run.decoded->0.annotated_base is Some ==> work_goes_on(
                run,
                next,
                WorkAction::Operate(GraphOperation::RecoverRemoved),
            )
            &&& input is Some && run.decoded->0.annotated_base is None ==> next
                == WorkStep::Finish(Err(ProjectionError::WorkIntentMismatch))
        },
{
}

/// What comes of the first operation: where it was carried out, its recovery files are retired;
/// where something else or nothing was in the file's place, the work is tried afresh under a new
/// authority; any other failure ends the work, as a conflict where the file was refused by what it
/// means.
pub proof fn law_failed_recovery_is_tried_afresh(
    run: WorkRunView,
    operation: GraphOperation,
    failure: IoFailure,
)
    requires
        run.phase == (WorkPhase::Recovering { operation }),
    ensures
        ({
            let next = work_step(run, WorkEvent::Operated(Err(failure)));
            let open = failure.kind is AlreadyExists || failure.kind is NotFound;
            &&& work_goes_on(
                run,
                work_step(run, WorkEvent::Operated(Ok(()))),
                WorkAction::Cleanup,
            )
            &&& open ==> work_goes_on(run, next, WorkAction::TakeAuthority)
            &&& !open && failure.semantic_refusal ==> next == WorkStep::Finish(
                Err(ProjectionError::GuardedConflict(failure)),
            )
            &&& !open && !failure.semantic_refusal ==> next == WorkStep::Finish(
                Err(ProjectionError::Io(failure)),
            )
        }),
{
}

/// Before the work is tried afresh its file is read once more.
pub proof fn law_file_is_read_again(run: WorkRunView)
    requires
        run.phase is FallbackAuthority,
    ensures
        ({
            let taken = work_step(run, WorkEvent::Authority(Ok(())));
            let read = work_step(taken->Ask_0, WorkEvent::Harness(Ok(())));
            &&& work_goes_on(run, taken, WorkAction::LetHarnessFail)
            &&& work_goes_on(run, read, WorkAction::ReadInput)
            &&& read->Ask_0.phase is FallbackInput
        }),
{
}

/// What is done about the file as it was last read. A file that is to be there is written, unless it
/// already holds exactly what it is to hold: that is only proved. Where no file is to be there, its
/// absence is proved if it was read as absent, and only then; a file that was read as present is
/// removed if the work has a base for it, and without one there is no operation.
pub proof fn law_last_reading_decides_the_operation(run: WorkRunView, input: Option<Vec<u8>>)
    requires
        run.phase is FallbackInput,
    ensures
        ({
            let next = work_step(run, WorkEvent::Input(Ok(input)));
            let decoded = run.decoded->0;
            &&& decoded.target is Some ==> work_goes_on(
                run,
                next,
                WorkAction::Operate(
                    if input is Some && input->0@ == decoded.target->0 {
                        GraphOperation::Recover
                    } else {
                        GraphOperation::Write
                    },
                ),
            )
            &&& decoded.target is None && input is None ==> work_goes_on(
                run,
                next,
                WorkAction::Operate(GraphOperation::ConfirmRemoved),
            )
            &&& decoded.target is None && input is Some && decoded.annotated_base is Some
                ==> work_goes_on(run, next, WorkAction::Operate(GraphOperation::Remove))
            &&& decoded.target is None && input is Some && decoded.annotated_base is None ==> next
                == WorkStep::Finish(Err(ProjectionError::WorkIntentMismatch))
        }),
{
}

/// The second operation is the last: where it was carried out, its recovery files are retired; where
/// something else or nothing was in the file's place, or the file was refused by what it means, the
/// work ends as a conflict, and else with the failure.
pub proof fn law_second_operation_is_the_last(
    run: WorkRunView,
    operation: GraphOperation,
    failure: IoFailure,
)
    requires
        run.phase == (WorkPhase::Writing { operation }),
    ensures
        ({
            let next = work_step(run, WorkEvent::Operated(Err(failure)));
            let conflict = failure.kind is AlreadyExists || failure.kind is NotFound
                || failure.semantic_refusal;
            &&& work_goes_on(
                run,
                work_step(run, WorkEvent::Operated(Ok(()))),
                WorkAction::Cleanup,
            )
            &&& conflict ==> next == WorkStep::Finish(
                Err(ProjectionError::GuardedConflict(failure)),
            )
            &&& !conflict ==> next == WorkStep::Finish(Err(ProjectionError::Io(failure)))
        }),
{
}

/// What was carried out is cleaned up behind, then its completion is staged, and only then has the
/// barrier been taken. An absence that was put off ends so.
pub proof fn law_work_is_settled_in_order(run: WorkRunView)
    ensures
        work_asks(run.phase) == WorkAction::Cleanup ==> work_goes_on(
            run,
            work_step(run, WorkEvent::Cleaned(Ok(()))),
            WorkAction::StageCompletion,
        ),
        work_asks(run.phase) == WorkAction::StageCompletion ==> work_step(
            run,
            WorkEvent::Staged(Ok(())),
        ) == WorkStep::Finish(Ok(ProjectionExecution::BarrierTaken)),
        work_asks(run.phase) == WorkAction::NoteDeferredAbsence ==> work_step(run, WorkEvent::Noted)
            == WorkStep::Finish(Ok(ProjectionExecution::DeferredAbsence)),
{
}

/// Work ends well in three ways: its completion was staged, it had been completed before, or the
/// absence of its file was noted.
pub proof fn law_work_ends_well_in_three_ways(
    run: WorkRunView,
    event: WorkEvent,
    execution: ProjectionExecution,
)
    requires
        work_step(run, event) == WorkStep::Finish(Ok::<_, ProjectionError>(execution)),
    ensures
        match execution {
            ProjectionExecution::BarrierTaken => work_asks(run.phase)
                == WorkAction::StageCompletion && event is Staged && event->Staged_0 is Ok,
            ProjectionExecution::NeedsTurnRebarrier => run.phase is Completed && event
                == WorkEvent::Completed(Ok(true)),
            ProjectionExecution::DeferredAbsence => work_asks(run.phase)
                == WorkAction::NoteDeferredAbsence,
        },
{
}

/// The file is touched only behind an authority: a run that comes to ask for an operation was
/// answered that the authority was taken, or had that answered before the file was read for the last
/// time.
pub proof fn law_operations_need_authority(
    run: WorkRunView,
    event: WorkEvent,
    operation: GraphOperation,
)
    requires
        work_step(run, event) is Ask,
        work_asks(work_step(run, event)->Ask_0.phase) == WorkAction::Operate(operation),
        work_step(run, event)->Ask_0 != run,
    ensures
        run.phase is Authority && event is Authority && event->Authority_0 is Ok
            || run.phase is FallbackInput && event is Input && event->Input_0 is Ok,
{
}

} // verus!
