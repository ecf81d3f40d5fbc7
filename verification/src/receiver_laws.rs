//! What holds of projecting a page for an intent of another device.

use vstd::prelude::*;

use crate::annotation::{annotation_views, claim_views};
use crate::error::{EngineError, ProjectionError};
use crate::execution::{
    same_work_state, GraphOperation, ProjectionEndpointBinding, ProjectionExecution,
    ProjectionTombstoneAuthorization,
};
use crate::hash::BlobDescription;
use crate::intent::{ProjectionIntent, ProjectionPrecondition};
use crate::page::{optional_text, ProjectionPageState};
use crate::plan::{base_bytes, lent_base, projection_plan, PageRendering, SourceBase};
use crate::receiver_run::{
    lemma_matching, matching_intents, receiver_asks, receiver_begin, receiver_bind,
    receiver_complete, receiver_consider_absence, receiver_excuse, receiver_gather, receiver_look,
    receiver_plan_page, receiver_publish, receiver_record, receiver_resume, receiver_step,
    CleanTombstoneAuthorization, ReceiverAction, ReceiverEvent, ReceiverPhase,
    ReceiverRunView, ReceiverStep,
};
use crate::store_error::Reason;
use crate::work::{layout_base, ArchiveRead};

verus! {

/// Whether a run goes on by asking for something, with nothing else about it changed.
pub open spec fn receiver_goes_on(
    run: ReceiverRunView,
    step: ReceiverStep,
    action: ReceiverAction,
) -> bool {
    &&& step is Ask
    &&& receiver_asks(step->Ask_0.phase) == action
    &&& step->Ask_0 == (ReceiverRunView { phase: step->Ask_0.phase, ..run })
}

/// Whether an event is an answer to what was asked for.
pub open spec fn answers_receiver(action: ReceiverAction, event: ReceiverEvent) -> bool {
    match action {
        ReceiverAction::RequireEndpoint => event is Endpoint,
        ReceiverAction::RetirePending | ReceiverAction::RetireCompleted => event is Retired,
        ReceiverAction::AuthorizeTombstone => event is Tombstone,
        ReceiverAction::AuthorizeWrite | ReceiverAction::AuthorizeRecovery => event is State,
        ReceiverAction::ReadInput => event is Input,
        ReceiverAction::ReadLayoutBase => event is LayoutBase,
        ReceiverAction::Render => event is Rendered,
        ReceiverAction::ListIncomplete => event is Incomplete,
        ReceiverAction::RecoverIncomplete(_) => event is Recovered,
        ReceiverAction::AskRevival | ReceiverAction::AskAbsence | ReceiverAction::AskIndexFree
        | ReceiverAction::AskSuperseded => event is Answer,
        ReceiverAction::NoteDeferredAbsence | ReceiverAction::NoteIntent
        | ReceiverAction::NoteCompletion => event is Noted,
        ReceiverAction::PublishIntent | ReceiverAction::LoadCompletion
        | ReceiverAction::LoadAttempts | ReceiverAction::ReserveAttempt
        | ReceiverAction::BeginMutation { .. } | ReceiverAction::PublishCompletion => event is Stored,
        ReceiverAction::Operate(_) => event is Operated,
        ReceiverAction::Finish(_) => false,
    }
}

/// What an answer that says no says.
pub open spec fn refused_receiver(event: ReceiverEvent) -> Option<ProjectionError> {
    match event {
        ReceiverEvent::Endpoint(Err(error)) => Some(error),
        ReceiverEvent::Retired(Err(error)) => Some(error),
        ReceiverEvent::Tombstone(Err(error)) => Some(ProjectionError::Engine(error)),
        ReceiverEvent::State(Err(error)) => Some(ProjectionError::Engine(error)),
        ReceiverEvent::Input(Err(failure)) => Some(ProjectionError::Io(failure)),
        ReceiverEvent::Recovered(Err(error)) => Some(error),
        ReceiverEvent::Answer(Err(error)) => Some(ProjectionError::Engine(error)),
        ReceiverEvent::Stored(Err(error)) => Some(ProjectionError::Store(Box::new(error))),
        ReceiverEvent::Operated(Err(failure)) => Some(ProjectionError::Io(failure)),
        ReceiverEvent::Noted(Err(error)) => Some(ProjectionError::Engine(error)),
        _ => None,
    }
}

/// Whatever says no ends the projection with what it says, but for three answers: the engine may say
/// that a page cannot be authorised yet, what noting an absence gave does not matter, and an engine
/// that cannot say that it runs without an index does not. Whatever answers nothing that was asked
/// changes nothing.
pub proof fn law_receiver_ends_with_the_first_refusal(run: ReceiverRunView, event: ReceiverEvent)
    ensures
        answers_receiver(receiver_asks(run.phase), event) && refused_receiver(event) is Some && !(
        run.phase is Current && event == ReceiverEvent::State(
            Err(EngineError::ProjectionAuthorizationUnavailable),
        )) && !(run.phase is Deferring) && !(run.phase is Runtime) ==> receiver_step(run, event)
            == ReceiverStep::Finish(Err(refused_receiver(event)->0)),
        run.phase is Current && event == ReceiverEvent::State(
            Err(EngineError::ProjectionAuthorizationUnavailable),
        ) ==> receiver_step(run, event) == ReceiverStep::Finish(Ok(None)),
        !answers_receiver(receiver_asks(run.phase), event) ==> receiver_step(run, event)
            == ReceiverStep::Ask(run),
{
    reveal(receiver_bind);
    reveal(receiver_look);
    reveal(receiver_gather);
    reveal(receiver_plan_page);
    reveal(receiver_resume);
    reveal(receiver_consider_absence);
    reveal(receiver_publish);
    reveal(receiver_begin);
    reveal(receiver_complete);
    reveal(receiver_record);
    reveal(receiver_excuse);
}

/// A projection is bound to its endpoint, and what earlier ones left is retired before it looks at
/// anything. Then a removal is authorised as such, and any other page is asked for as it is accepted
/// now; this device's own intents are refused, and so is a removal that nothing authorises.
pub proof fn law_receiver_binds_and_retires_first(
    run: ReceiverRunView,
    endpoint: ProjectionEndpointBinding,
)
    requires
        receiver_asks(run.phase) == ReceiverAction::RequireEndpoint,
    ensures
        ({
            let bound = receiver_step(run, ReceiverEvent::Endpoint(Ok(endpoint)));
            let next = receiver_step(bound->Ask_0, ReceiverEvent::Retired(Ok(())));
            let own = run.source.source_endpoint_id == endpoint.endpoint_id;
            &&& bound is Ask
            &&& receiver_asks(bound->Ask_0.phase) == ReceiverAction::RetirePending
            &&& bound->Ask_0 == (ReceiverRunView {
                phase: bound->Ask_0.phase,
                endpoint: Some(endpoint),
                ..run
            })
            &&& own ==> next == ReceiverStep::Finish(Err(ProjectionError::ReceiverEndpointIsSource))
            &&& !own && run.source.target is Present ==> receiver_goes_on(
                bound->Ask_0,
                next,
                ReceiverAction::AuthorizeWrite,
            )
            &&& !own && run.source.target is Absent && run.has_projection ==> receiver_goes_on(
                bound->Ask_0,
                next,
                ReceiverAction::AuthorizeTombstone,
            )
            &&& !own && run.source.target is Absent && !run.has_projection ==> next
                == ReceiverStep::Finish(
                Err(
                    ProjectionError::Engine(
                        EngineError::ProjectionWork(
                            Reason::Own(
                                "clean receiver-local deletion has no disposable SQLite projection",
                            ),
                        ),
                    ),
                ),
            )
        }),
{
    reveal(receiver_bind);
}

/// What comes of a removal: authorised, it is planned from the file that is there; superseded, there
/// is nothing to do; deferred, it is tried again.
pub proof fn law_removal_follows_its_authorization(
    run: ReceiverRunView,
    authorization: ProjectionTombstoneAuthorization,
)
    requires
        receiver_asks(run.phase) == ReceiverAction::AuthorizeTombstone,
    ensures
        ({
            let authorized = receiver_step(
                run,
                ReceiverEvent::Tombstone(
                    Ok(CleanTombstoneAuthorization::Authorized(authorization)),
                ),
            );
            &&& authorized is Ask
            &&& receiver_asks(authorized->Ask_0.phase) == ReceiverAction::ReadInput
            &&& authorized->Ask_0 == (ReceiverRunView {
                phase: authorized->Ask_0.phase,
                tombstone: Some(authorization),
                ..run
            })
        }),
        receiver_step(run, ReceiverEvent::Tombstone(Ok(CleanTombstoneAuthorization::Superseded)))
            == ReceiverStep::Finish(Ok(Some(ProjectionExecution::NeedsTurnRebarrier))),
        receiver_step(run, ReceiverEvent::Tombstone(Ok(CleanTombstoneAuthorization::Deferred)))
            == ReceiverStep::Finish(Ok(None)),
{
    reveal(receiver_bind);
}

/// The removal of a page is planned from exactly the bytes that this device read: it leaves nothing,
/// names the page that was authorised, starts from those bytes or from no file, and is published
/// next.
pub proof fn law_removal_is_planned_from_the_file(run: ReceiverRunView, input: Option<Vec<u8>>)
    requires
        run.phase is Input,
        run.tombstone is Some,
        run.source.target is Absent,
    ensures
        ({
            let next = receiver_step(run, ReceiverEvent::Input(Ok(input)));
            let plan = next->Ask_0.plan->0;
            let authorization = run.tombstone->0;
            &&& next is Ask
            &&& receiver_asks(next->Ask_0.phase) == ReceiverAction::PublishIntent
            &&& next->Ask_0.local_base == optional_text(input)
            &&& next->Ask_0.plan is Some
            &&& plan.base == optional_text(input)
            &&& plan.target.len() == 0
            &&& plan.intent.workspace_id == run.workspace_id
            &&& plan.intent.page_id == authorization.page_id
            &&& plan.intent.path.text == authorization.path.text@
            &&& plan.intent.frontier == authorization.frontier@
            &&& plan.intent.claim_evidence.len() == 0
            &&& plan.intent.annotations.len() == 0
            &&& plan.intent.target_kind is Absent
            &&& plan.intent.target == BlobDescription::spec_of(Seq::empty())
            &&& plan.intent.precondition == match input {
                None => ProjectionPrecondition::Absent,
                Some(bytes) => ProjectionPrecondition::Base(BlobDescription::spec_of(bytes@)),
            }
        }),
{
    reveal(receiver_look);
}

/// The accepted page is looked at before the file is read, and the source counts as superseded
/// exactly where the accepted page has another path, frontier or claims than the source was for.
pub proof fn law_source_is_superseded_by_another_state(
    run: ReceiverRunView,
    current: ProjectionPageState,
)
    requires
        run.phase is Current,
    ensures
        ({
            let next = receiver_step(run, ReceiverEvent::State(Ok(current)));
            let same = current.page.path.text@ == run.source.path.text@ && current.frontier@
                == run.source.post_frontier@ && claim_views(current.claim_evidence@) == claim_views(
                run.source.claim_evidence@,
            );
            &&& next is Ask
            &&& receiver_asks(next->Ask_0.phase) == ReceiverAction::ReadInput
            &&& next->Ask_0 == (ReceiverRunView {
                phase: next->Ask_0.phase,
                superseded: !same,
                accepted: Some(current),
                ..run
            })
        }),
{
    reveal(receiver_look);
}

/// A page that is to be there is planned over exactly the bytes that this device read, and in the
/// layout of the base that the source's author rendered against: a source that is current is asked
/// for its own accepted state, and must be of this workspace; of a superseded one the accepted state
/// is rendered.
pub proof fn law_page_is_gathered_for_rendering(
    run: ReceiverRunView,
    input: Option<Vec<u8>>,
    read: ArchiveRead,
    state: ProjectionPageState,
)
    ensures
        run.phase is Input && run.tombstone is None ==> {
            let next = receiver_step(run, ReceiverEvent::Input(Ok(input)));
            &&& next is Ask
            &&& receiver_asks(next->Ask_0.phase) == ReceiverAction::ReadLayoutBase
            &&& next->Ask_0 == (ReceiverRunView {
                phase: next->Ask_0.phase,
                local_base: optional_text(input),
                ..run
            })
        },
        receiver_asks(run.phase) == ReceiverAction::ReadLayoutBase ==> {
            let next = receiver_step(run, ReceiverEvent::LayoutBase(read));
            let base = layout_base(run.source, read);
            let based = ReceiverRunView {
                phase: next->Ask_0.phase,
                layout_base: base->Ok_0,
                ..run
            };
            &&& base is Err ==> next == ReceiverStep::Finish(Err(base->Err_0))
            &&& base is Ok && run.superseded ==> next is Ask && receiver_asks(next->Ask_0.phase)
                == ReceiverAction::Render && next->Ask_0 == based
            &&& base is Ok && !run.superseded && run.source.workspace_id == run.workspace_id
                ==> next is Ask && receiver_asks(next->Ask_0.phase)
                == ReceiverAction::AuthorizeRecovery && next->Ask_0 == based
            &&& base is Ok && !run.superseded && run.source.workspace_id != run.workspace_id
                ==> next == ReceiverStep::Finish(Err(ProjectionError::ReceiverSourceMismatch))
        },
        receiver_asks(run.phase) == ReceiverAction::AuthorizeRecovery ==> {
            let next = receiver_step(run, ReceiverEvent::State(Ok(state)));
            &&& next is Ask
            &&& receiver_asks(next->Ask_0.phase) == ReceiverAction::Render
            &&& next->Ask_0 == (ReceiverRunView {
                phase: next->Ask_0.phase,
                accepted: Some(state),
                ..run
            })
        },
{
    reveal(receiver_look);
    reveal(receiver_gather);
}

/// The plan of a page is that of the accepted state over the bytes that this device read, with the
/// annotations of the source author's base. A rendering over other bytes is no answer. What was left
/// unfinished is looked for next.
pub proof fn law_page_is_planned_over_local_bytes(
    run: ReceiverRunView,
    base: Option<SourceBase>,
    rendering: PageRendering,
)
    requires
        receiver_asks(run.phase) == ReceiverAction::Render,
        run.source.target is Present,
    ensures
        ({
            let next = receiver_step(run, ReceiverEvent::Rendered { base, rendering });
            let annotations = if run.layout_base is Some {
                Some(annotation_views(run.layout_base->0.annotations@))
            } else {
                None
            };
            let plan = projection_plan(
                run.workspace_id,
                run.accepted->0,
                lent_base(&base),
                annotations,
                rendering,
            );
            if base_bytes(lent_base(&base)) != run.local_base {
                next == ReceiverStep::Ask(run)
            } else if plan is Err {
                next == ReceiverStep::Finish(Err(plan->Err_0))
            } else {
                &&& next is Ask
                &&& receiver_asks(next->Ask_0.phase) == ReceiverAction::ListIncomplete
                &&& next->Ask_0 == (ReceiverRunView {
                    phase: next->Ask_0.phase,
                    plan: Some(plan->Ok_0),
                    ..run
                })
            }
        }),
{
    reveal(receiver_plan_page);
}

/// Whether an intent is of the page state that a plan is for: of the same workspace, page, path,
/// frontier, claims and kind of target.
pub open spec fn is_of_planned_state(run: ReceiverRunView, intent: ProjectionIntent) -> bool {
    let plan = run.plan->0.intent;
    &&& intent@.workspace_id == plan.workspace_id
    &&& intent@.page_id == plan.page_id
    &&& intent@.path.text == plan.path.text
    &&& intent@.frontier == plan.frontier
    &&& intent@.claim_evidence == plan.claim_evidence
    &&& intent@.target_kind == plan.target_kind
}

/// Every matching position is found.
proof fn lemma_matching_complete(run: ReceiverRunView, intents: Seq<ProjectionIntent>, n: nat, i: int)
    requires
        0 <= i < n <= intents.len(),
        same_work_state(intents[i]@, run.plan->0.intent),
    ensures
        matching_intents(intents, run.plan->0.intent, n).contains(i),
    decreases n,
{
    let all = matching_intents(intents, run.plan->0.intent, n);
    let before = matching_intents(intents, run.plan->0.intent, (n - 1) as nat);
    if i < n - 1 {
        lemma_matching_complete(run, intents, (n - 1) as nat, i);
        let k = choose|k: int| 0 <= k < before.len() && before[k] == i;
        assert(all[k] == i);
    } else {
        assert(all[before.len() as int] == i);
    }
}

/// Matching positions ascend.
proof fn lemma_matching_ascends(run: ReceiverRunView, intents: Seq<ProjectionIntent>, n: nat)
    requires
        n <= intents.len(),
    ensures
        forall|k: int, l: int|
            0 <= k < l < matching_intents(intents, run.plan->0.intent, n).len()
                ==> #[trigger] matching_intents(intents, run.plan->0.intent, n)[k]
                < #[trigger] matching_intents(intents, run.plan->0.intent, n)[l],
    decreases n,
{
    if n > 0 {
        let before = matching_intents(intents, run.plan->0.intent, (n - 1) as nat);
        let all = matching_intents(intents, run.plan->0.intent, n);
        lemma_matching_ascends(run, intents, (n - 1) as nat);
        lemma_matching(intents, run.plan->0.intent, (n - 1) as nat);
        assert forall|k: int, l: int| 0 <= k < l < all.len() implies #[trigger] all[k]
            < #[trigger] all[l] by {
            assert(all[k] == before[k]);
            if l < before.len() {
                assert(all[l] == before[l]);
            }
        }
    }
}

/// What was left unfinished for the planned page state is finished rather than done anew: where
/// exactly one listed intent is of that state, it is recovered; where two are, the projection is
/// refused. Where none is, a file that is there is projected at once, and of one that is not it is
/// asked whether the batch revives the page.
pub proof fn law_unfinished_intent_is_finished(
    run: ReceiverRunView,
    intents: Vec<ProjectionIntent>,
    i: int,
    j: int,
)
    requires
        receiver_asks(run.phase) == ReceiverAction::ListIncomplete,
        intents@.len() <= usize::MAX,
    ensures
        ({
            let next = receiver_step(run, ReceiverEvent::Incomplete(intents));
            let listed = ReceiverRunView { incomplete: intents@, ..run };
            &&& 0 <= i < intents@.len() && is_of_planned_state(run, intents@[i]) && (forall|x: int|
                0 <= x < intents@.len() && x != i ==> !is_of_planned_state(
                    run,
                    #[trigger] intents@[x],
                )) ==> receiver_goes_on(
                listed,
                next,
                ReceiverAction::RecoverIncomplete(i as usize),
            )
            &&& 0 <= i < j < intents@.len() && is_of_planned_state(run, intents@[i])
                && is_of_planned_state(run, intents@[j]) ==> next == ReceiverStep::Finish(
                Err(ProjectionError::RecoveryIntentMismatch),
            )
            &&& (forall|x: int|
                0 <= x < intents@.len() ==> !is_of_planned_state(run, #[trigger] intents@[x]))
                ==> receiver_goes_on(
                listed,
                next,
                if run.local_base is Some {
                    ReceiverAction::PublishIntent
                } else {
                    ReceiverAction::AskRevival
                },
            )
        }),
{
    reveal(receiver_resume);
    let matching = matching_intents(intents@, run.plan->0.intent, intents@.len());
    lemma_matching(intents@, run.plan->0.intent, intents@.len());
    lemma_matching_ascends(run, intents@, intents@.len());
    if 0 <= i < intents@.len() && is_of_planned_state(run, intents@[i]) {
        lemma_matching_complete(run, intents@, intents@.len(), i);
        let k = choose|k: int| 0 <= k < matching.len() && matching[k] == i;
        if 0 <= i < j < intents@.len() && is_of_planned_state(run, intents@[j]) {
            lemma_matching_complete(run, intents@, intents@.len(), j);
            let l = choose|l: int| 0 <= l < matching.len() && matching[l] == j;
            assert(k != l);
        }
        if forall|x: int|
            0 <= x < intents@.len() && x != i ==> !is_of_planned_state(
                run,
                #[trigger] intents@[x],
            ) {
            if matching.len() > 1 {
                assert(matching[0] < matching[1]);
                assert(is_of_planned_state(run, intents@[matching[0]]));
                assert(is_of_planned_state(run, intents@[matching[1]]));
            }
            assert(matching[0] == i);
        }
    }
    if forall|x: int|
        0 <= x < intents@.len() ==> !is_of_planned_state(run, #[trigger] intents@[x]) {
        if matching.len() > 0 {
            assert(is_of_planned_state(run, intents@[matching[0]]));
        }
    }
}

/// How recovering an unfinished intent ended is how the projection ends.
pub proof fn law_finishing_an_intent_ends_the_projection(
    run: ReceiverRunView,
    execution: ProjectionExecution,
    index: usize,
)
    requires
        receiver_asks(run.phase) == ReceiverAction::RecoverIncomplete(index),
    ensures
        receiver_step(run, ReceiverEvent::Recovered(Ok(execution))) == ReceiverStep::Finish(
            Ok(Some(execution)),
        ),
{
    reveal(receiver_resume);
}

/// A file that is gone is only made again where the batch revives the page, or where the absence is
/// not to be deferred; else the absence is noted, and that ends the projection.
pub proof fn law_missing_file_is_revived_or_deferred(run: ReceiverRunView, event: ReceiverEvent)
    ensures
        receiver_asks(run.phase) == ReceiverAction::AskRevival ==> receiver_goes_on(
            run,
            receiver_step(run, ReceiverEvent::Answer(Ok(true))),
            ReceiverAction::PublishIntent,
        ) && receiver_goes_on(
            run,
            receiver_step(run, ReceiverEvent::Answer(Ok(false))),
            ReceiverAction::AskAbsence,
        ),
        receiver_asks(run.phase) == ReceiverAction::AskAbsence ==> receiver_goes_on(
            run,
            receiver_step(run, ReceiverEvent::Answer(Ok(true))),
            ReceiverAction::NoteDeferredAbsence,
        ) && receiver_goes_on(
            run,
            receiver_step(run, ReceiverEvent::Answer(Ok(false))),
            ReceiverAction::PublishIntent,
        ),
        receiver_asks(run.phase) == ReceiverAction::NoteDeferredAbsence && event is Noted
            ==> receiver_step(run, event) == ReceiverStep::Finish(
            Ok(Some(ProjectionExecution::DeferredAbsence)),
        ),
{
    reveal(receiver_consider_absence);
}

/// The intent is published and noted before anything is asked of its completion. A completed intent
/// is not carried out again; another one is, where that is allowed, and is else left for later.
pub proof fn law_intent_is_published_before_the_file_is_touched(run: ReceiverRunView, stored: bool)
    ensures
        receiver_asks(run.phase) == ReceiverAction::PublishIntent ==> receiver_goes_on(
            run,
            receiver_step(run, ReceiverEvent::Stored(Ok(stored))),
            ReceiverAction::NoteIntent,
        ),
        receiver_asks(run.phase) == ReceiverAction::NoteIntent ==> receiver_goes_on(
            run,
            receiver_step(run, ReceiverEvent::Noted(Ok(()))),
            ReceiverAction::LoadCompletion,
        ),
        receiver_asks(run.phase) == ReceiverAction::LoadCompletion ==> {
            let complete = receiver_step(run, ReceiverEvent::Stored(Ok(true)));
            let incomplete = receiver_step(run, ReceiverEvent::Stored(Ok(false)));
            &&& receiver_goes_on(run, complete, ReceiverAction::RetireCompleted)
            &&& complete->Ask_0.phase == (ReceiverPhase::RetiringCompleted {
                already_complete: true,
            })
            &&& run.allow_mutation ==> receiver_goes_on(
                run,
                incomplete,
                ReceiverAction::LoadAttempts,
            )
            &&& !run.allow_mutation ==> incomplete == ReceiverStep::Finish(Ok(None))
        },
{
    reveal(receiver_publish);
}

/// A mutation begins under the attempts that there are, and under one that is reserved for it where
/// there are none.
pub proof fn law_mutation_begins_under_an_attempt(run: ReceiverRunView, stored: bool)
    ensures
        receiver_asks(run.phase) == ReceiverAction::LoadAttempts ==> {
            let next = receiver_step(run, ReceiverEvent::Stored(Ok(stored)));
            &&& next is Ask
            &&& receiver_asks(next->Ask_0.phase) == if stored {
                ReceiverAction::BeginMutation { reserved: false }
            } else {
                ReceiverAction::ReserveAttempt
            }
            &&& next->Ask_0 == (ReceiverRunView {
                phase: next->Ask_0.phase,
                has_attempts: stored,
                ..run
            })
        },
        receiver_asks(run.phase) == ReceiverAction::ReserveAttempt ==> receiver_goes_on(
            run,
            receiver_step(run, ReceiverEvent::Stored(Ok(stored))),
            ReceiverAction::BeginMutation { reserved: true },
        ),
{
    reveal(receiver_begin);
}

/// What is done with the file of a page that is to be there: it is written where no attempt was
/// reserved before and this device's bytes are not those that the plan leaves; an earlier write is
/// recovered where an attempt exists, or where the bytes already are the plan's, and only there.
pub proof fn law_present_page_is_written_or_recovered(
    run: ReceiverRunView,
    reserved: bool,
    stored: bool,
)
    requires
        receiver_asks(run.phase) == (ReceiverAction::BeginMutation { reserved }),
        run.source.target is Present,
    ensures
        ({
            let next = receiver_step(run, ReceiverEvent::Stored(Ok(stored)));
            let settled = run.local_base is Some && run.local_base->0 == run.plan->0.target;
            &&& !run.has_attempts && !settled ==> receiver_goes_on(
                run,
                next,
                ReceiverAction::Operate(GraphOperation::Write),
            )
            &&& run.has_attempts || settled ==> receiver_goes_on(
                run,
                next,
                ReceiverAction::Operate(GraphOperation::Recover),
            )
        }),
{
    reveal(receiver_begin);
}

/// What is done with the file of a page that is to be gone. Without an earlier attempt, a file that
/// this device read is removed, and where it read none, the absence is proved. With one, the removal
/// of the bytes that the plan starts from is recovered, and where it starts from none, the absence is
/// proved.
pub proof fn law_removed_page_is_removed_or_confirmed(
    run: ReceiverRunView,
    reserved: bool,
    stored: bool,
)
    requires
        receiver_asks(run.phase) == (ReceiverAction::BeginMutation { reserved }),
        run.source.target is Absent,
    ensures
        ({
            let next = receiver_step(run, ReceiverEvent::Stored(Ok(stored)));
            let plan = run.plan->0;
            &&& !run.has_attempts && run.local_base is Some ==> receiver_goes_on(
                run,
                next,
                ReceiverAction::Operate(GraphOperation::Remove),
            )
            &&& !run.has_attempts && run.local_base is None ==> receiver_goes_on(
                run,
                next,
                ReceiverAction::Operate(GraphOperation::ConfirmRemoved),
            )
            &&& run.has_attempts && plan.intent.precondition is Absent ==> receiver_goes_on(
                run,
                next,
                ReceiverAction::Operate(GraphOperation::ConfirmRemoved),
            )
            &&& run.has_attempts && plan.intent.precondition is Base && plan.base is Some
                ==> receiver_goes_on(
                run,
                next,
                ReceiverAction::Operate(GraphOperation::RecoverRemoved),
            )
            &&& run.has_attempts && plan.intent.precondition is Base && plan.base is None ==> next
                == ReceiverStep::Finish(Err(ProjectionError::ReceiverSourceAbsent))
        }),
{
    reveal(receiver_begin);
}

/// What was carried out is completed in order: its completion is published, then noted, and then its
/// recovery files are retired.
pub proof fn law_operation_is_completed_in_order(
    run: ReceiverRunView,
    operation: GraphOperation,
    stored: bool,
)
    ensures
        receiver_asks(run.phase) == ReceiverAction::Operate(operation) ==> receiver_goes_on(
            run,
            receiver_step(run, ReceiverEvent::Operated(Ok(()))),
            ReceiverAction::PublishCompletion,
        ),
        receiver_asks(run.phase) == ReceiverAction::PublishCompletion ==> receiver_goes_on(
            run,
            receiver_step(run, ReceiverEvent::Stored(Ok(stored))),
            ReceiverAction::NoteCompletion,
        ),
        receiver_asks(run.phase) == ReceiverAction::NoteCompletion ==> {
            let next = receiver_step(run, ReceiverEvent::Noted(Ok(())));
            &&& receiver_goes_on(run, next, ReceiverAction::RetireCompleted)
            &&& next->Ask_0.phase == (ReceiverPhase::RetiringCompleted { already_complete: false })
        },
{
    reveal(receiver_complete);
}

/// How a projection ends that is complete: the barrier was taken where it was carried out just now,
/// and is still to be taken where it had been carried out before.
pub open spec fn receiver_is_complete(already_complete: bool) -> ReceiverStep {
    if already_complete {
        ReceiverStep::Finish(Ok(Some(ProjectionExecution::NeedsTurnRebarrier)))
    } else {
        ReceiverStep::Finish(Ok(Some(ProjectionExecution::BarrierTaken)))
    }
}

/// A completed removal counts only as the one that was authorised: of the page, path and frontier
/// that were authorised, with no claims, no annotations and nothing left. Any other completion is
/// held against the page as it is accepted now.
pub proof fn law_completed_removal_is_the_authorized_one(
    run: ReceiverRunView,
    already_complete: bool,
)
    requires
        run.phase == (ReceiverPhase::RetiringCompleted { already_complete }),
    ensures
        ({
            let next = receiver_step(run, ReceiverEvent::Retired(Ok(())));
            let authorization = run.tombstone->0;
            let intent = run.plan->0.intent;
            let same = {
                &&& authorization.page_id == intent.page_id
                &&& authorization.path.text@ == intent.path.text
                &&& authorization.frontier@ == intent.frontier
                &&& intent.claim_evidence.len() == 0
                &&& intent.target == BlobDescription::spec_of(Seq::empty())
                &&& intent.annotations.len() == 0
            };
            &&& run.tombstone is None ==> receiver_goes_on(
                run,
                next,
                ReceiverAction::AuthorizeWrite,
            ) && next->Ask_0.phase == (ReceiverPhase::Recording { already_complete })
            &&& run.tombstone is Some && same ==> next == receiver_is_complete(already_complete)
            &&& run.tombstone is Some && !same ==> next == ReceiverStep::Finish(
                Err(ProjectionError::RecoveryIntentMismatch),
            )
        }),
{
    reveal(receiver_record);
}

/// A completed page counts where the accepted page is still the one that was planned: of the same
/// workspace, page, path, frontier and claims. Where it is not, it counts only if the engine runs
/// without an index and the source batch is superseded.
pub proof fn law_completed_page_is_current_or_superseded(
    run: ReceiverRunView,
    already_complete: bool,
    current: ProjectionPageState,
    other: EngineError,
)
    ensures
        run.phase == (ReceiverPhase::Recording { already_complete }) ==> {
            let next = receiver_step(run, ReceiverEvent::State(Ok(current)));
            let intent = run.plan->0.intent;
            let same = {
                &&& intent.workspace_id == run.workspace_id
                &&& current.page.page_id == intent.page_id
                &&& current.page.path.text@ == intent.path.text
                &&& current.frontier@ == intent.frontier
                &&& claim_views(current.claim_evidence@) == intent.claim_evidence
            };
            &&& same ==> next == receiver_is_complete(already_complete)
            &&& !same ==> receiver_goes_on(run, next, ReceiverAction::AskIndexFree)
                && next->Ask_0.phase == (ReceiverPhase::Runtime { already_complete })
        },
        run.phase == (ReceiverPhase::Runtime { already_complete }) ==> {
            let free = receiver_step(run, ReceiverEvent::Answer(Ok(true)));
            let mismatch = ReceiverStep::Finish(Err(ProjectionError::RecoveryIntentMismatch));
            &&& receiver_goes_on(run, free, ReceiverAction::AskSuperseded)
            &&& free->Ask_0.phase == (ReceiverPhase::Supersession { already_complete })
            &&& receiver_step(run, ReceiverEvent::Answer(Ok(false))) == mismatch
            &&& receiver_step(run, ReceiverEvent::Answer(Err(other))) == mismatch
        },
        run.phase == (ReceiverPhase::Supersession { already_complete }) ==> {
            &&& receiver_step(run, ReceiverEvent::Answer(Ok(true))) == receiver_is_complete(
                already_complete,
            )
            &&& receiver_step(run, ReceiverEvent::Answer(Ok(false))) == ReceiverStep::Finish(
                Err(ProjectionError::RecoveryIntentMismatch),
            )
        },
{
    reveal(receiver_record);
    reveal(receiver_excuse);
}

} // verus!
