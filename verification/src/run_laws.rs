//! What holds of every run: it asks for what its step says, and ends with what its step ends with.

use vstd::prelude::*;

use crate::cleanup_opening::{
    cleanup_opening_asks, cleanup_opening_goes, CleanupOpeningAction, CleanupOpeningStep,
    CleanupOpeningView,
};
use crate::cleanup_run::{
    cleanup_asks, cleanup_goes, CleanupAction, CleanupStep, CleanupView, PendingCleanup,
};
use crate::completion_run::{
    completion_asks, completion_goes, CompletionAction, CompletionRun, CompletionStep,
};
use crate::opening::{
    initialize_asks, initialize_goes, InitializeAction, InitializeStep, StoreInitialization,
};
use crate::probe_run::{
    probe_asks, probe_goes, retire_asks, retire_goes, rewrite_asks, rewrite_goes, ProbeAction,
    ProbeStep, ProbeView, RetireAction, RetireStep, RetireView, RewriteAction, RewriteStep,
    RewriteView,
};
use crate::receiver_run::{
    receiver_asks, receiver_goes, ReceiverAction, ReceiverRunView, ReceiverStep,
};
use crate::recovery_run::{
    pass_asks, pass_goes, recovery_asks, recovery_goes, PassAction, PassStep, PassView,
    RecoveryAction, RecoveryRunView, RecoveryStep,
};
use crate::store_error::ProjectionStoreError;
use crate::turn_run::{turn_asks, turn_goes, TurnAction, TurnRunView, TurnStep};
use crate::work_run::{work_advanced, work_asks, work_step, WorkAction, WorkEvent, WorkRunView};

verus! {

/// Carrying out work asks for what its step asks for and goes on from there, or ends with exactly
/// what its step ends with.
pub proof fn law_work_does_what_its_step_says(
    before: WorkRunView,
    event: WorkEvent,
    after: WorkRunView,
    action: WorkAction,
)
    requires
        work_advanced(before, event, after, action),
    ensures
        work_step(before, event) is Ask ==> after == work_step(before, event)->Ask_0 && action
            == work_asks(after.phase),
        work_step(before, event) is Finish ==> after.phase is Done && action == WorkAction::Finish(
            work_step(before, event)->Finish_0,
        ),
{
}

/// A receiver asks for what its step asks for and goes on from there, or ends with exactly what its
/// step ends with.
pub proof fn law_receiver_does_what_its_step_says(
    step: ReceiverStep,
    after: ReceiverRunView,
    action: ReceiverAction,
)
    requires
        receiver_goes(step, after, action),
    ensures
        step is Ask ==> after == step->Ask_0 && action == receiver_asks(after.phase),
        step is Finish ==> after.phase is Done && action == ReceiverAction::Finish(
            step->Finish_0,
        ),
{
}

/// A recovery asks for what its step asks for and goes on from there, or ends with exactly what its
/// step ends with; and so does a pass over the incomplete intents.
pub proof fn law_recovery_does_what_its_step_says(
    step: RecoveryStep,
    after: RecoveryRunView,
    action: RecoveryAction,
    pass_step: PassStep,
    pass_after: PassView,
    pass_action: PassAction,
)
    requires
        recovery_goes(step, after, action),
        pass_goes(pass_step, pass_after, pass_action),
    ensures
        step is Ask ==> after == step->Ask_0 && action == recovery_asks(after.phase),
        step is Finish ==> after.phase is Done && action == RecoveryAction::Finish(
            step->Finish_0,
        ),
        pass_step is Ask ==> pass_after == pass_step->Ask_0 && pass_asks(
            pass_after.phase,
            pass_action,
        ),
        pass_step is Fail ==> pass_after.phase is Done && pass_action == PassAction::Finish(
            Err(pass_step->Fail_0),
        ),
        pass_step is Finish ==> pass_after.phase is Done && pass_action is Finish
            && pass_action->Finish_0 is Ok && pass_action->Finish_0->Ok_0@
            == pass_step->Finish_0,
{
}

/// A probe, a rewrite and a retirement ask for what their steps ask for and go on from there, or end
/// with exactly what their steps end with.
pub proof fn law_probes_do_what_their_steps_say(
    probe_step: ProbeStep,
    probe: ProbeView,
    probe_action: ProbeAction,
    rewrite_step: RewriteStep,
    rewrite: RewriteView,
    rewrite_action: RewriteAction,
    retire_step: RetireStep,
    retire: RetireView,
    retire_action: RetireAction,
)
    requires
        probe_goes(probe_step, probe, probe_action),
        rewrite_goes(rewrite_step, rewrite, rewrite_action),
        retire_goes(retire_step, retire, retire_action),
    ensures
        probe_step is Ask ==> probe == probe_step->Ask_0 && probe_action == probe_asks(
            probe.phase,
        ),
        probe_step is Finish ==> probe.phase is Done && probe_action == ProbeAction::Finish(
            probe_step->Finish_0,
        ),
        rewrite_step is Ask ==> rewrite == rewrite_step->Ask_0 && rewrite_action == rewrite_asks(
            rewrite.phase,
        ),
        rewrite_step is Finish ==> rewrite.phase is Done && rewrite_action
            == RewriteAction::Finish(rewrite_step->Finish_0),
        retire_step is Ask ==> retire == retire_step->Ask_0 && retire_action == retire_asks(
            retire.phase,
        ),
        retire_step is Finish ==> retire.phase is Done && retire_action == RetireAction::Finish(
            retire_step->Finish_0,
        ),
{
}

/// A turn asks for what its step asks for and goes on from there, or ends with exactly what its step
/// ends with.
pub proof fn law_turn_does_what_its_step_says(
    step: TurnStep,
    after: TurnRunView,
    action: TurnAction,
)
    requires
        turn_goes(step, after, action),
    ensures
        step is Ask ==> after == step->Ask_0 && action == turn_asks(after.phase),
        step is Finish ==> after.phase is Done && action == TurnAction::Finish(step->Finish_0),
{
}

/// A cleanup pass asks for what its step asks for and goes on from there, or ends with exactly what
/// its step ends with; and so does the opening of its rounds.
pub proof fn law_cleanup_does_what_its_step_says(
    step: CleanupStep,
    after: CleanupView,
    action: CleanupAction,
    opening_step: CleanupOpeningStep,
    opening: CleanupOpeningView,
    opening_action: CleanupOpeningAction,
)
    requires
        cleanup_goes(step, after, action),
        cleanup_opening_goes(opening_step, opening, opening_action),
    ensures
        step is Ask ==> after == step->Ask_0 && cleanup_asks(after, action),
        step is Finish ==> after.phase is Done && action is Finish,
        step is Finish && step->Finish_0 is Err ==> action->Finish_0 == Err::<
            Vec<PendingCleanup>,
            ProjectionStoreError,
        >(step->Finish_0->Err_0),
        step is Finish && step->Finish_0 is Ok ==> action->Finish_0 is Ok
            && action->Finish_0->Ok_0@ == step->Finish_0->Ok_0,
        opening_step is Ask ==> opening == opening_step->Ask_0 && cleanup_opening_asks(
            opening,
            opening_action,
        ),
        opening_step is Finish ==> opening.phase is Done && opening_action
            == CleanupOpeningAction::Finish(opening_step->Finish_0),
{
}

/// Publishing a completion asks for what its step asks for, of the same intent and proof, or ends
/// with exactly what its step ends with.
pub proof fn law_publishing_does_what_its_step_says(
    before: CompletionRun,
    step: CompletionStep,
    after: CompletionRun,
    action: CompletionAction,
)
    requires
        completion_goes(before, step, after, action),
    ensures
        after.intent == before.intent,
        after.intent_id == before.intent_id,
        after.write_proof == before.write_proof,
        after.authority.reservations == before.authority.reservations,
        after.authority.durable == before.authority.durable,
        after.authority.graph_operation_consumed == before.authority.graph_operation_consumed,
        before.authority.completion_published ==> after.authority.completion_published,
        step is Ask ==> after.phase == step->Ask_0 && after.index == step->Ask_1
            && completion_asks(after, action),
        step is Finish ==> after.phase is Done && action == CompletionAction::Finish(
            step->Finish_0,
        ),
{
}

/// Opening a store asks for what its step asks for, of the same store, and fails exactly where its
/// step does.
pub proof fn law_opening_does_what_its_step_says(
    run: StoreInitialization,
    step: InitializeStep,
    after: StoreInitialization,
    action: InitializeAction,
)
    requires
        initialize_goes(run, step, after, action),
    ensures
        after == (StoreInitialization { phase: after.phase, ..run }),
        step is Ask ==> after.phase == step->Ask_0 && initialize_asks(run, after.phase, action),
        step is Finish ==> after.phase is Done && action is Finish && (action->Finish_0 is Ok
            <==> step->Finish_0 is Ok),
        step is Finish && step->Finish_0 is Ok ==> action->Finish_0->Ok_0.namespace_identities
            == step->Finish_0->Ok_0.identities,
{
}

} // verus!
