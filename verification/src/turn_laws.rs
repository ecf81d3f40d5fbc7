//! What holds of replaying a turn.

use vstd::prelude::*;

use crate::error::{EngineError, ProjectionError};
use crate::execution::{ProjectionEndpointBinding, ProjectionExecution};
use crate::hash::BlobDescription;
use crate::ids::{PageId, Uuid};
use crate::manifest::ManifestedProjectionIntentWire;
use crate::manifest_set::{object_set_verdict, OperationBatch, OperationObject};
use crate::page::optional_text;
use crate::store_error::{IoFailure, Reason};
use crate::turn::{TurnOrigin, TurnPage, TurnTarget};
use crate::turn_run::{
    first_source, first_work, turn_asks, turn_check, turn_enter, turn_execute, turn_observe,
    turn_open, turn_received, turn_repair, turn_settle, turn_step, BatchRead, TurnAction,
    TurnEvent, TurnPhase, TurnRunView, TurnStep, WorkObjects,
};
use crate::work::{decoded_work, ProjectionWork};

verus! {

/// Whether a replay goes on by asking for something, with nothing else about it changed.
pub open spec fn turn_goes_on(run: TurnRunView, step: TurnStep, action: TurnAction) -> bool {
    &&& step is Ask
    &&& turn_asks(step->Ask_0.phase) == action
    &&& step->Ask_0 == (TurnRunView { phase: step->Ask_0.phase, ..run })
}

/// Whether a replay whose barrier is open goes on to close it, to end with an error.
pub open spec fn turn_closes_with(run: TurnRunView, step: TurnStep, error: ProjectionError) -> bool {
    turn_goes_on(
        TurnRunView { error: Some(error), ..run },
        step,
        TurnAction::CloseBarrier,
    )
}

/// The batch that a turn is for.
pub open spec fn batch_of(origin: TurnOrigin) -> bool {
    match origin {
        TurnOrigin::Accepted { .. } => true,
        TurnOrigin::IngressForeign { batch_id } => batch_id is Some,
        TurnOrigin::TerminalForeign { batch_id } => batch_id is Some,
        TurnOrigin::Terminal => false,
        TurnOrigin::SupersededRepair { .. } => false,
    }
}

/// Whether a turn may be replayed here: it is of this workspace and endpoint, and, where its record
/// is of the sequence of turns, of this device.
pub open spec fn turn_is_ours(run: TurnRunView, endpoint: ProjectionEndpointBinding) -> bool {
    &&& run.turn.workspace_id == run.workspace_id
    &&& run.turn.endpoint_id == endpoint.endpoint_id
    &&& run.turn.domain is ProjectionTurn ==> run.turn.device_id == endpoint.device_id.uuid
}

/// Where a replay goes whose batch, if it has one, is complete: a repair of a superseded file has the
/// file read, and must be of that one page; any other opens its barrier.
pub open spec fn turn_begins(run: TurnRunView, step: TurnStep) -> bool {
    match run.turn.origin {
        TurnOrigin::SupersededRepair { page_id, .. } => if run.turn.pages@.len() == 1
            && run.turn.pages@[0].page_id == page_id {
            turn_goes_on(run, step, TurnAction::ReadInput) && step->Ask_0.phase is RepairInput
        } else {
            step == TurnStep::Finish(Err(ProjectionError::WorkIntentMismatch))
        },
        _ => turn_goes_on(run, step, TurnAction::OpenBarrier),
    }
}

/// Only this device's turns are replayed, and those for a batch only where the batch is complete.
pub proof fn law_turn_is_checked_first(
    run: TurnRunView,
    endpoint: ProjectionEndpointBinding,
    message: String,
    manifest: OperationBatch,
    objects: Vec<OperationObject>,
)
    ensures
        turn_asks(run.phase) == TurnAction::BindEndpoint ==> {
            let next = turn_step(run, TurnEvent::Endpoint(Some(endpoint)));
            let bound = TurnRunView { endpoint: Some(endpoint), ..run };
            let mismatch = TurnStep::Finish(Err(ProjectionError::EndpointBindingMismatch));
            &&& turn_step(run, TurnEvent::Endpoint(None)) == mismatch
            &&& !turn_is_ours(run, endpoint) ==> next == mismatch
            &&& turn_is_ours(run, endpoint) && batch_of(run.turn.origin) ==> turn_goes_on(
                bound,
                next,
                TurnAction::ReadBatch,
            ) && next->Ask_0.phase is Batch
            &&& turn_is_ours(run, endpoint) && !batch_of(run.turn.origin) ==> turn_begins(
                bound,
                next,
            )
        },
        run.phase is Batch ==> {
            &&& turn_step(run, TurnEvent::Batch(BatchRead::NoArchive)) == TurnStep::Finish(
                Err(
                    ProjectionError::Archive(
                        Reason::Own("projection turn has no accepted archive"),
                    ),
                ),
            )
            &&& turn_step(run, TurnEvent::Batch(BatchRead::Failed(message))) == TurnStep::Finish(
                Err(ProjectionError::Archive(Reason::Reported(message))),
            )
            &&& turn_step(run, TurnEvent::Batch(BatchRead::NotReady)) == TurnStep::Finish(
                Err(
                    ProjectionError::Work(
                        Reason::Own("projection turn origin batch is not complete"),
                    ),
                ),
            )
            &&& turn_begins(
                run,
                turn_step(run, TurnEvent::Batch(BatchRead::Ready { manifest, objects })),
            )
        },
{
    reveal(turn_check);
}

/// A superseded file is repaired only where it still holds the bytes that were observed and the engine
/// says that they are of the page to be repaired; nothing is repaired where there is no file.
pub proof fn law_repair_is_of_the_observed_bytes(
    run: TurnRunView,
    page_id: PageId,
    observed: BlobDescription,
    bytes: Vec<u8>,
    owner: Option<PageId>,
)
    requires
        run.turn.origin == (TurnOrigin::SupersededRepair { page_id, observed }),
    ensures
        run.phase is RepairInput ==> {
            let next = turn_step(run, TurnEvent::Input(Ok(Some(bytes))));
            &&& turn_step(run, TurnEvent::Input(Ok(None))) == TurnStep::Finish(
                Err(ProjectionError::WorkNotReady),
            )
            &&& BlobDescription::spec_of(bytes@) == observed ==> turn_goes_on(
                TurnRunView { observed: Some(bytes@), ..run },
                next,
                TurnAction::AuthorizeRepair,
            ) && next->Ask_0.phase is RepairAuthority
            &&& BlobDescription::spec_of(bytes@) != observed ==> next is Finish
                && next->Finish_0 is Err && next->Finish_0->Err_0 is GuardedConflict
        },
        run.phase is RepairAuthority ==> {
            let next = turn_step(run, TurnEvent::Repair(Ok(owner)));
            &&& owner == Some(page_id) ==> turn_goes_on(run, next, TurnAction::OpenBarrier)
            &&& owner != Some(page_id) ==> next == TurnStep::Finish(
                Err(ProjectionError::WorkNotReady),
            )
        },
{
    reveal(turn_repair);
}

/// Where a replay goes that has `page` pages behind it: to the attempt that the turn records for that
/// page, or, behind the last, to closing the barrier. A page without an attempt is refused.
pub open spec fn turn_comes_to_page(run: TurnRunView, step: TurnStep, page: int) -> bool {
    let at = TurnRunView { page, ..run };
    if page >= run.turn.pages@.len() {
        turn_goes_on(at, step, TurnAction::CloseBarrier)
    } else if page < run.turn.attempt_ids@.len() {
        turn_goes_on(at, step, TurnAction::EnterAttempt(run.turn.attempt_ids@[page]))
    } else {
        turn_closes_with(at, step, ProjectionError::WorkIntentMismatch)
    }
}

/// The barrier is opened before any work is listed, and the pages are replayed from the first on.
pub proof fn law_barrier_is_opened_before_the_first_page(
    run: TurnRunView,
    failure: IoFailure,
    work: Vec<ProjectionWork>,
    error: EngineError,
)
    ensures
        turn_asks(run.phase) == TurnAction::OpenBarrier ==> turn_goes_on(
            run,
            turn_step(run, TurnEvent::Barrier(Ok(()))),
            TurnAction::ListWork,
        ) && turn_step(run, TurnEvent::Barrier(Err(failure))) == TurnStep::Finish(
            Err(ProjectionError::Io(failure)),
        ),
        turn_asks(run.phase) == TurnAction::ListWork ==> turn_comes_to_page(
            TurnRunView { work: work@, ..run },
            turn_step(run, TurnEvent::Work(Ok(work))),
            0,
        ) && turn_closes_with(
            run,
            turn_step(run, TurnEvent::Work(Err(error))),
            ProjectionError::Engine(error),
        ),
{
    reveal(turn_open);
}

/// Whether a piece of work is what a page of a turn records: of the same page, path and frontier, and
/// leaving the same bytes, or none.
pub open spec fn is_recorded_work(work: ProjectionWork, page: TurnPage) -> bool {
    &&& work.page_id == page.page_id
    &&& work.path.text@ == page.path.text@
    &&& work.post_frontier@ == page.frontier@
    &&& match page.target {
        TurnTarget::Absent => work.target is Absent,
        TurnTarget::Present { description, .. } => work.target is Present && work.target->Present_0
            == description,
    }
}

/// Whether an intent of a batch is what a page of a turn records.
pub open spec fn is_recorded_source(
    source: ManifestedProjectionIntentWire,
    page: TurnPage,
) -> bool {
    &&& source.page_id == page.page_id
    &&& source.path.text@ == page.path.text@
    &&& source.post_frontier@ == page.frontier@
    &&& match page.target {
        TurnTarget::Absent => source.target is Absent,
        TurnTarget::Present { description, .. } => source.target is Present
            && source.target->Present_description == description,
    }
}

/// The first work of a page is found.
proof fn lemma_first_work_is(work: Seq<ProjectionWork>, page: TurnPage, at: int)
    requires
        0 <= at <= work.len(),
    ensures
        match first_work(work, page, at) {
            Some(found) => at <= found < work.len() && is_recorded_work(work[found], page)
                && forall|k: int| at <= k < found ==> !is_recorded_work(#[trigger] work[k], page),
            None => forall|k: int|
                at <= k < work.len() ==> !is_recorded_work(#[trigger] work[k], page),
        },
    decreases work.len() - at,
{
    if at < work.len() && !is_recorded_work(work[at], page) {
        lemma_first_work_is(work, page, at + 1);
    }
}

/// The first source of a page is found.
proof fn lemma_first_source_is(
    sources: Seq<ManifestedProjectionIntentWire>,
    page: TurnPage,
    at: int,
)
    requires
        0 <= at <= sources.len(),
    ensures
        match first_source(sources, page, at) {
            Some(found) => at <= found < sources.len() && is_recorded_source(sources[found], page)
                && forall|k: int|
                at <= k < found ==> !is_recorded_source(#[trigger] sources[k], page),
            None => forall|k: int|
                at <= k < sources.len() ==> !is_recorded_source(#[trigger] sources[k], page),
        },
    decreases sources.len() - at,
{
    if at < sources.len() && !is_recorded_source(sources[at], page) {
        lemma_first_source_is(sources, page, at + 1);
    }
}

/// A page is replayed by the first listed work that is what the turn records of it, and by no other:
/// the file is read next. Without such work the turn is not ready. A page of another device's batch is
/// found in that batch, which is read again.
pub proof fn law_page_is_replayed_by_its_own_work(run: TurnRunView, attempt_id: Uuid, found: int)
    requires
        turn_asks(run.phase) == TurnAction::EnterAttempt(attempt_id),
    ensures
        ({
            let next = turn_step(run, TurnEvent::Entered);
            let page = run.turn.pages@[run.page];
            let foreign = run.turn.origin is IngressForeign || run.turn.origin is TerminalForeign;
            &&& foreign && batch_of(run.turn.origin) ==> turn_goes_on(
                run,
                next,
                TurnAction::ReadBatch,
            ) && next->Ask_0.phase is ForeignBatch
            &&& foreign && !batch_of(run.turn.origin) ==> turn_closes_with(
                run,
                next,
                ProjectionError::WorkIntentMismatch,
            )
            &&& !foreign && 0 <= found < run.work.len() && is_recorded_work(run.work[found], page)
                && (forall|k: int|
                0 <= k < found ==> !is_recorded_work(#[trigger] run.work[k], page))
                ==> turn_goes_on(TurnRunView { found, ..run }, next, TurnAction::ReadInput)
                && next->Ask_0.phase is ObservedInput
            &&& !foreign && (forall|k: int|
                0 <= k < run.work.len() ==> !is_recorded_work(#[trigger] run.work[k], page))
                ==> turn_closes_with(run, next, ProjectionError::WorkNotReady)
        }),
{
    reveal(turn_enter);
    let page = run.turn.pages@[run.page];
    lemma_first_work_is(run.work, page, 0);
    if let Some(first) = first_work(run.work, page, 0) {
        assert(is_recorded_work(run.work[first], page));
    }
}

/// Where a replay goes that has found an intent of another device: it is projected under a handoff,
/// and without one refused.
pub open spec fn turn_projects_source(run: TurnRunView, step: TurnStep) -> bool {
    if run.has_handoff {
        turn_goes_on(run, step, TurnAction::ProjectSource)
    } else {
        turn_closes_with(
            run,
            step,
            ProjectionError::Work(Reason::Own("receiver projection turn requires a handoff")),
        )
    }
}

/// A page of another device's batch is replayed by the first intent of the batch that is what the turn
/// records of it. The batch must be there, complete and in order.
pub proof fn law_foreign_page_is_replayed_by_its_own_intent(
    run: TurnRunView,
    message: String,
    manifest: OperationBatch,
    objects: Vec<OperationObject>,
    found: int,
)
    requires
        run.phase is ForeignBatch,
    ensures
        ({
            let next = turn_step(run, TurnEvent::Batch(BatchRead::Ready { manifest, objects }));
            let page = run.turn.pages@[run.page];
            let verdict = object_set_verdict(manifest, objects@);
            let intents = verdict->Ok_0.intents;
            &&& turn_closes_with(
                run,
                turn_step(run, TurnEvent::Batch(BatchRead::NoArchive)),
                ProjectionError::Archive(Reason::Own("receiver turn has no accepted archive")),
            )
            &&& turn_closes_with(
                run,
                turn_step(run, TurnEvent::Batch(BatchRead::Failed(message))),
                ProjectionError::Archive(Reason::Reported(message)),
            )
            &&& turn_closes_with(
                run,
                turn_step(run, TurnEvent::Batch(BatchRead::NotReady)),
                ProjectionError::WorkNotReady,
            )
            &&& verdict is Err ==> turn_closes_with(
                run,
                next,
                ProjectionError::Archive(Reason::Manifest(verdict->Err_0)),
            )
            &&& verdict is Ok && 0 <= found < intents.len() && is_recorded_source(
                intents[found],
                page,
            ) && (forall|k: int|
                0 <= k < found ==> !is_recorded_source(#[trigger] intents[k], page))
                ==> turn_projects_source(
                TurnRunView { sources: intents, source: found, ..run },
                next,
            )
            &&& verdict is Ok && (forall|k: int|
                0 <= k < intents.len() ==> !is_recorded_source(#[trigger] intents[k], page))
                ==> turn_closes_with(run, next, ProjectionError::WorkIntentMismatch)
        }),
{
    reveal(turn_enter);
    let page = run.turn.pages@[run.page];
    let verdict = object_set_verdict(manifest, objects@);
    if verdict is Ok {
        let intents = verdict->Ok_0.intents;
        lemma_first_source_is(intents, page, 0);
        if let Some(first) = first_source(intents, page, 0) {
            assert(is_recorded_source(intents[first], page));
        }
    }
}

/// Where a replay goes with its work: this endpoint's is carried out, another's is read from the
/// archive to be projected.
pub open spec fn turn_does_work(run: TurnRunView, step: TurnStep) -> bool {
    turn_goes_on(
        run,
        step,
        if run.work[run.found].endpoint_id == run.endpoint->0.endpoint_id {
            TurnAction::ExecuteWork
        } else {
            TurnAction::ReadWorkObjects
        },
    )
}

/// Work is carried out at once where the file holds what the turn recorded, or is absent as recorded.
/// Any other file is probed first: where it already holds what is accepted now, it is only taken into
/// the barrier, as it was read, and else the work is carried out.
pub proof fn law_changed_file_is_probed_first(run: TurnRunView, input: Option<Vec<u8>>)
    ensures
        run.phase is ObservedInput ==> {
            let next = turn_step(run, TurnEvent::Input(Ok(input)));
            let seen = TurnRunView { observed: optional_text(input), ..run };
            let recorded = match run.turn.pages@[run.page].target {
                TurnTarget::Absent => input is None,
                TurnTarget::Present { description, .. } => input is Some
                    && BlobDescription::spec_of(input->0@) == description,
            };
            &&& recorded ==> turn_does_work(seen, next)
            &&& !recorded ==> turn_goes_on(seen, next, TurnAction::ProbeExact)
                && next->Ask_0.phase is ProbingStale
        },
        run.phase is ProbingStale ==> {
            let exact = turn_step(run, TurnEvent::Probed(Ok(true)));
            &&& turn_goes_on(run, exact, TurnAction::Rebarrier)
            &&& exact->Ask_0.phase == (TurnPhase::Rebarriering { then_bind: false })
            &&& turn_does_work(run, turn_step(run, TurnEvent::Probed(Ok(false))))
        },
{
    reveal(turn_observe);
}

/// What comes of projecting another device's intent: where it was done before, the file is taken into
/// the barrier and then its baseline is bound; where it was done now, or its absence put off, only the
/// baseline is. An intent that is to be tried again is not ready.
pub proof fn law_projected_page_is_settled(
    run: TurnRunView,
    execution: ProjectionExecution,
    error: ProjectionError,
    objects: WorkObjects,
)
    ensures
        turn_asks(run.phase) == TurnAction::ProjectSource ==> {
            let next = turn_step(run, TurnEvent::Projected(Ok(Some(execution))));
            &&& turn_closes_with(run, turn_step(run, TurnEvent::Projected(Err(error))), error)
            &&& turn_closes_with(
                run,
                turn_step(run, TurnEvent::Projected(Ok(None))),
                ProjectionError::WorkNotReady,
            )
            &&& turn_goes_on(run, next, TurnAction::ReadInput)
            &&& execution is NeedsTurnRebarrier ==> next->Ask_0.phase
                == (TurnPhase::RebarrierInput { then_bind: true })
            &&& !(execution is NeedsTurnRebarrier) ==> next->Ask_0.phase is BaselineInput
        },
        turn_asks(run.phase) == TurnAction::ReadWorkObjects ==> {
            let next = turn_step(run, TurnEvent::Objects(Some(objects)));
            let decoded = decoded_work(run.work[run.found], objects.intent, objects.base);
            &&& turn_closes_with(
                run,
                turn_step(run, TurnEvent::Objects(None)),
                ProjectionError::Archive(Reason::Own("receiver turn has no accepted archive")),
            )
            &&& decoded is Err ==> turn_closes_with(run, next, decoded->Err_0)
            &&& decoded is Ok ==> turn_projects_source(
                TurnRunView { sources: seq![decoded->Ok_0.manifested], source: 0, ..run },
                next,
            )
        },
{
    reveal(turn_received);
}

/// What comes of carrying out this endpoint's work: it is settled as a projected page is. Work that is
/// not ready is not an error at once: a file that is already exact is taken into the barrier, and one
/// that holds superseded bytes of the work's page is rewritten; without a file, or with bytes of
/// another page, the turn is not ready.
pub proof fn law_unready_work_is_rewritten_only_over_superseded_bytes(
    run: TurnRunView,
    execution: ProjectionExecution,
    error: ProjectionError,
    bytes: Vec<u8>,
    owner: Option<PageId>,
)
    ensures
        turn_asks(run.phase) == TurnAction::ExecuteWork ==> {
            let next = turn_step(run, TurnEvent::Executed(Ok(execution)));
            let failed = turn_step(run, TurnEvent::Executed(Err(error)));
            &&& turn_goes_on(run, next, TurnAction::ReadInput)
            &&& execution is NeedsTurnRebarrier ==> next->Ask_0.phase
                == (TurnPhase::RebarrierInput { then_bind: true })
            &&& !(execution is NeedsTurnRebarrier) ==> next->Ask_0.phase is BaselineInput
            &&& error is WorkNotReady ==> turn_goes_on(run, failed, TurnAction::ProbeExact)
                && failed->Ask_0.phase is ProbingNotReady
            &&& !(error is WorkNotReady) ==> turn_closes_with(run, failed, error)
        },
        run.phase is ProbingNotReady ==> {
            let exact = turn_step(run, TurnEvent::Probed(Ok(true)));
            let other = turn_step(run, TurnEvent::Probed(Ok(false)));
            &&& turn_goes_on(run, exact, TurnAction::ReadInput)
            &&& exact->Ask_0.phase == (TurnPhase::RebarrierInput { then_bind: false })
            &&& turn_goes_on(run, other, TurnAction::ReadInput)
            &&& other->Ask_0.phase is NotReadyInput
        },
        run.phase is NotReadyInput ==> {
            let next = turn_step(run, TurnEvent::Input(Ok(Some(bytes))));
            &&& turn_closes_with(
                run,
                turn_step(run, TurnEvent::Input(Ok(None))),
                ProjectionError::WorkNotReady,
            )
            &&& turn_goes_on(
                TurnRunView { observed: Some(bytes@), ..run },
                next,
                TurnAction::AuthorizeRepair,
            )
            &&& next->Ask_0.phase is RewriteAuthority
        },
        run.phase is RewriteAuthority ==> {
            let next = turn_step(run, TurnEvent::Repair(Ok(owner)));
            let of_the_page = owner is Some && owner->0 == run.work[run.found].page_id;
            &&& of_the_page ==> turn_goes_on(run, next, TurnAction::RewriteExact)
            &&& !of_the_page ==> turn_closes_with(run, next, ProjectionError::WorkNotReady)
        },
        turn_asks(run.phase) == TurnAction::RewriteExact ==> {
            let next = turn_step(run, TurnEvent::Rewritten(Ok(())));
            &&& turn_goes_on(run, next, TurnAction::ReadInput)
            &&& next->Ask_0.phase is BaselineInput
        },
{
    reveal(turn_execute);
}

/// A page is settled before the next one: the file is taken into the barrier as it was read last, its
/// baseline is bound to exactly the bytes that are there, and where there are none nothing is bound.
/// The barrier is closed last, and the turn ends with the first error, or with that of the barrier.
pub proof fn law_page_is_settled_before_the_next(
    run: TurnRunView,
    then_bind: bool,
    input: Option<Vec<u8>>,
    description: BlobDescription,
    failure: IoFailure,
)
    ensures
        run.phase == (TurnPhase::RebarrierInput { then_bind }) ==> {
            let next = turn_step(run, TurnEvent::Input(Ok(input)));
            &&& turn_goes_on(
                TurnRunView { observed: optional_text(input), ..run },
                next,
                TurnAction::Rebarrier,
            )
            &&& next->Ask_0.phase == (TurnPhase::Rebarriering { then_bind })
        },
        run.phase == (TurnPhase::Rebarriering { then_bind }) ==> {
            let next = turn_step(run, TurnEvent::Rebarriered(Ok(())));
            if then_bind {
                turn_goes_on(run, next, TurnAction::ReadInput) && next->Ask_0.phase is BaselineInput
            } else {
                turn_comes_to_page(run, next, run.page + 1)
            }
        },
        run.phase is BaselineInput ==> {
            let next = turn_step(run, TurnEvent::Input(Ok(input)));
            if input is Some {
                turn_goes_on(
                    run,
                    next,
                    TurnAction::BindBaseline(BlobDescription::spec_of(input->0@)),
                )
            } else {
                turn_comes_to_page(run, next, run.page + 1)
            }
        },
        turn_asks(run.phase) == TurnAction::BindBaseline(description) ==> turn_comes_to_page(
            run,
            turn_step(run, TurnEvent::Bound(Ok(()))),
            run.page + 1,
        ),
        turn_asks(run.phase) == TurnAction::CloseBarrier ==> {
            let closed = turn_step(run, TurnEvent::Barrier(Ok(())));
            let unclosed = turn_step(run, TurnEvent::Barrier(Err(failure)));
            &&& run.error is Some ==> closed == TurnStep::Finish(Err(run.error->0)) && unclosed
                == closed
            &&& run.error is None ==> closed is Finish && closed->Finish_0 is Ok && unclosed
                == TurnStep::Finish(Err(ProjectionError::Io(failure)))
        },
{
    reveal(turn_settle);
}

/// Whether an event is an answer to what was asked for.
pub open spec fn answers_turn(action: TurnAction, event: TurnEvent) -> bool {
    match action {
        TurnAction::BindEndpoint => event is Endpoint,
        TurnAction::ReadBatch => event is Batch,
        TurnAction::ReadInput => event is Input,
        TurnAction::AuthorizeRepair => event is Repair,
        TurnAction::OpenBarrier | TurnAction::CloseBarrier => event is Barrier,
        TurnAction::ListWork => event is Work,
        TurnAction::EnterAttempt(_) => event is Entered,
        TurnAction::ProjectSource => event is Projected,
        TurnAction::ProbeExact => event is Probed,
        TurnAction::ExecuteWork => event is Executed,
        TurnAction::RewriteExact => event is Rewritten,
        TurnAction::ReadWorkObjects => event is Objects,
        TurnAction::Rebarrier => event is Rebarriered,
        TurnAction::BindBaseline(_) => event is Bound,
        TurnAction::Finish(_) => false,
    }
}

/// What an answer that says no says.
pub open spec fn refused_turn(event: TurnEvent) -> Option<ProjectionError> {
    match event {
        TurnEvent::Input(Err(failure)) => Some(ProjectionError::Io(failure)),
        TurnEvent::Repair(Err(error)) => Some(ProjectionError::Engine(error)),
        TurnEvent::Probed(Err(error)) => Some(error),
        TurnEvent::Rewritten(Err(error)) => Some(error),
        TurnEvent::Rebarriered(Err(failure)) => Some(ProjectionError::Io(failure)),
        TurnEvent::Bound(Err(message)) => Some(ProjectionError::Work(Reason::Reported(message))),
        _ => None,
    }
}

/// Whatever says no ends the replay with what it says: at once before the barrier is open, and by
/// closing it after. Whatever answers nothing that was asked changes nothing.
pub proof fn law_turn_ends_with_the_first_refusal(run: TurnRunView, event: TurnEvent)
    ensures
        answers_turn(turn_asks(run.phase), event) && refused_turn(event) is Some ==> if run.phase
            is RepairInput || run.phase is RepairAuthority {
            turn_step(run, event) == TurnStep::Finish(Err(refused_turn(event)->0))
        } else {
            turn_closes_with(run, turn_step(run, event), refused_turn(event)->0)
        },
        !answers_turn(turn_asks(run.phase), event) ==> turn_step(run, event) == TurnStep::Ask(run),
{
    reveal(turn_check);
    reveal(turn_repair);
    reveal(turn_open);
    reveal(turn_enter);
    reveal(turn_received);
    reveal(turn_observe);
    reveal(turn_execute);
    reveal(turn_settle);
}

} // verus!
