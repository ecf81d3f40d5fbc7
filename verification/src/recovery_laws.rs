//! What holds of recovering all incomplete intents.

use vstd::prelude::*;

use crate::attempts::EntryKind;
use crate::catalog::{
    catalog, incomplete, is_retired_name, lemma_row_named, lemma_scanned_intents_ascend, row_named,
    rows_ascend, scanned_completions, scanned_intents, CatalogView, CompletionEntry, IntentEntry,
    ProjectionCatalogEntry, MAX_PROJECTION_CATALOG_BYTES, MAX_PROJECTION_CATALOG_DIRECTORY_ENTRIES,
    MAX_PROJECTION_CATALOG_ROWS,
};
use crate::catalog_laws::{
    completes as is_completion_of, has_row_at, is_completed, is_published, is_row_of,
    law_completing_the_incomplete_leaves_nothing, law_incomplete_is_published_less_completed,
    lemma_completed_rows, lemma_row_has_name, lemma_row_is_found, names_differ, open_positions,
    publishes,
};
use crate::completion::{completes, ProjectionCompletion, ProjectionWrite};
use crate::completion_run::{
    completion_step, law_published_completion_is_of_the_intent, CompletionEvent, CompletionRun,
};
use crate::error::{EngineError, ProjectionError};
use crate::execution::{ProjectionEndpointBinding, ProjectionExecution};
use crate::hash::BlobDescription;
use crate::ids::ProjectionIntentId;
use crate::intent::{BaseBlob, ProjectionIntent, ProjectionIntentView};
use crate::names::{
    evidence_name, law_evidence_names_are_recognised, law_evidence_names_are_unique, names_temp,
    temp_name,
};
use crate::page::ProjectionPageState;
use crate::plan::{base_bytes, lent_base, projection_plan, PageRendering, SourceBase};
use crate::recovery_run::{
    law_pass_recovers_all, law_recovery_run_stays_well_formed, pass_asks, pass_step, pass_wf,
    recovery_annotations, recovery_asks, recovery_complete, recovery_needs_plan, recovery_recover,
    recovery_replan, recovery_rewrite, recovery_run_wf, recovery_step, writes_are_of, PassAction,
    PassEvent, PassPhase, PassStep, PassView, RecoveryAction, RecoveryEvent, RecoveryPhase,
    RecoveryRunView, RecoveryStep,
};
use crate::store::{bound_completion, ProjectionReceiptStore};
use crate::store_error::{IoFailure, ProjectionStoreError};

verus! {

/// Where a recovery is after the first `n` events.
pub open spec fn recovery_after(run: RecoveryRunView, events: Seq<RecoveryEvent>, n: nat) -> RecoveryStep
    decreases n,
{
    if n == 0 {
        RecoveryStep::Ask(run)
    } else {
        match recovery_after(run, events, (n - 1) as nat) {
            RecoveryStep::Ask(now) => recovery_step(now, events[n - 1]),
            ended => ended,
        }
    }
}

/// Whether the completion of a recovery's intent was written on one of the first `n` events.
pub open spec fn completion_was_written(
    run: RecoveryRunView,
    events: Seq<RecoveryEvent>,
    n: nat,
) -> bool {
    exists|j: int| 0 <= j < n && #[trigger] writes_completion(run, events, j)
}

/// Whether a recovery asked for the completion of its intent to be written, and event `j` says that
/// it was.
pub open spec fn writes_completion(
    run: RecoveryRunView,
    events: Seq<RecoveryEvent>,
    j: int,
) -> bool {
    let now = recovery_after(run, events, j as nat);
    &&& now is Ask
    &&& now->Ask_0.phase is Completing
    &&& now->Ask_0.intent == run.intent
    &&& now->Ask_0.plan is Some
    &&& now->Ask_0.plan->0.intent == run.intent
    &&& events[j] is Stored
    &&& events[j]->Stored_0 is Ok
}

/// Whether a phase comes behind the completion.
spec fn is_behind_completion(phase: RecoveryPhase) -> bool {
    phase is NotingCompletion || phase is Retiring || phase is Recording
}

/// Whether a recovery that ended well wrote the completion of its intent, or put off an absent file
/// under a handoff and wrote none.
pub open spec fn ends_with_completion(
    run: RecoveryRunView,
    execution: ProjectionExecution,
    written: bool,
) -> bool {
    match execution {
        ProjectionExecution::BarrierTaken => written,
        ProjectionExecution::NeedsTurnRebarrier => false,
        ProjectionExecution::DeferredAbsence => run.under_handoff && !written,
    }
}

/// A step gets behind the completion only where that was written, and ends well only from there or
/// by putting an absent file off.
proof fn lemma_recovery_one(now: RecoveryRunView, event: RecoveryEvent)
    requires
        now.phase is Rereading || now.phase is Deferring ==> now.under_handoff,
    ensures
        match recovery_step(now, event) {
            RecoveryStep::Ask(next) => {
                &&& next.intent == now.intent
                &&& next.under_handoff == now.under_handoff
                &&& next.phase is Rereading || next.phase is Deferring ==> next.under_handoff
                &&& is_behind_completion(next.phase) == (is_behind_completion(now.phase) || (
                now.phase is Completing && event is Stored && event->Stored_0 is Ok))
            },
            RecoveryStep::Finish(Ok(execution)) => {
                &&& !(now.phase is Completing)
                &&& ends_with_completion(now, execution, is_behind_completion(now.phase))
            },
            RecoveryStep::Finish(Err(_)) => true,
        },
{
    reveal(recovery_replan);
    reveal(recovery_recover);
    reveal(recovery_rewrite);
    reveal(recovery_complete);
}

/// A recovery keeps its intent and what its phases stand on, and is behind the completion exactly
/// once that was written.
proof fn lemma_recovery_after(run: RecoveryRunView, events: Seq<RecoveryEvent>, n: nat)
    requires
        run.phase is Authorizing,
        n <= events.len(),
    ensures
        match recovery_after(run, events, n) {
            RecoveryStep::Ask(now) => {
                &&& recovery_run_wf(now)
                &&& now.intent == run.intent
                &&& now.under_handoff == run.under_handoff
                &&& now.phase is Rereading || now.phase is Deferring ==> now.under_handoff
                &&& is_behind_completion(now.phase) == completion_was_written(run, events, n)
            },
            RecoveryStep::Finish(Ok(execution)) => ends_with_completion(
                run,
                execution,
                completion_was_written(run, events, n),
            ),
            RecoveryStep::Finish(Err(_)) => true,
        },
    decreases n,
{
    if n > 0 {
        let less = (n - 1) as nat;
        let event = events[n - 1];
        lemma_recovery_after(run, events, less);
        if completion_was_written(run, events, less) {
            let j = choose|j: int| 0 <= j < less && #[trigger] writes_completion(run, events, j);
            assert(writes_completion(run, events, j));
            assert(completion_was_written(run, events, n));
        }
        if writes_completion(run, events, n - 1) {
            assert(completion_was_written(run, events, n));
        }
        assert(completion_was_written(run, events, n) == (completion_was_written(run, events, less)
            || writes_completion(run, events, n - 1)));
        if let RecoveryStep::Ask(now) = recovery_after(run, events, less) {
            lemma_recovery_one(now, event);
            if recovery_step(now, event) is Ask {
                law_recovery_run_stays_well_formed(now, event);
            }
        }
    }
}

/// A recovery that ends well has had the completion of exactly its intent written, over a plan of
/// exactly that intent. The one exception is an absent file that is put off under a handoff: then no
/// completion was written.
pub proof fn law_recovery_writes_the_completion(
    run: RecoveryRunView,
    events: Seq<RecoveryEvent>,
    n: nat,
    execution: ProjectionExecution,
)
    requires
        run.phase is Authorizing,
        n <= events.len(),
        recovery_after(run, events, n) == RecoveryStep::Finish(
            Ok::<_, ProjectionError>(execution),
        ),
    ensures
        ends_with_completion(run, execution, completion_was_written(run, events, n)),
{
    lemma_recovery_after(run, events, n);
}

/// A recovery that is behind its plan stays there.
proof fn lemma_stays_behind_plan(
    run: RecoveryRunView,
    events: Seq<RecoveryEvent>,
    m: nat,
    n: nat,
)
    requires
        m <= n,
        recovery_after(run, events, m) is Ask ==> recovery_needs_plan(
            recovery_after(run, events, m)->Ask_0.phase,
        ),
    ensures
        recovery_after(run, events, n) is Ask ==> recovery_needs_plan(
            recovery_after(run, events, n)->Ask_0.phase,
        ),
    decreases n,
{
    reveal(recovery_replan);
    reveal(recovery_recover);
    reveal(recovery_rewrite);
    reveal(recovery_complete);
    if m < n {
        lemma_stays_behind_plan(run, events, m, (n - 1) as nat);
    }
}

/// An intent that the accepted page does not plan exactly gets no completion: where the page plans
/// another intent, the recovery ends with a mismatch, and no completion was written before.
pub proof fn law_other_plan_gets_no_completion(
    run: RecoveryRunView,
    events: Seq<RecoveryEvent>,
    n: nat,
    base: Option<SourceBase>,
    rendering: PageRendering,
)
    requires
        0 < n <= events.len(),
        events[n - 1] == (RecoveryEvent::Rendered { base, rendering }),
        recovery_after(run, events, (n - 1) as nat) is Ask,
        ({
            let now = recovery_after(run, events, (n - 1) as nat)->Ask_0;
            let plan = projection_plan(
                now.workspace_id,
                now.accepted->0,
                lent_base(&base),
                recovery_annotations(now.intent, now.base),
                rendering,
            );
            &&& now.phase is Rendering
            &&& base_bytes(lent_base(&base)) == now.base
            &&& plan is Ok
            &&& plan->Ok_0.intent != now.intent
        }),
    ensures
        recovery_after(run, events, n) == RecoveryStep::Finish(
            Err(ProjectionError::RecoveryIntentMismatch),
        ),
        !completion_was_written(run, events, n),
{
    reveal(recovery_replan);
    if completion_was_written(run, events, n) {
        let j = choose|j: int| 0 <= j < n && #[trigger] writes_completion(run, events, j);
        assert(writes_completion(run, events, j));
        lemma_stays_behind_plan(run, events, j as nat, (n - 1) as nat);
    }
}

/// The name of evidence is not that of a file that is being written.
proof fn lemma_evidence_is_not_temporary(intent_id: ProjectionIntentId, suffix: Seq<char>)
    ensures
        !names_temp(evidence_name(intent_id.digest, suffix)),
{
    let name = evidence_name(intent_id.digest, suffix);
    let bytes = intent_id.digest.spec_bytes();
    intent_id.digest.lemma_bytes();
    crate::text::lemma_hex_round_trip(bytes);
    crate::text::lemma_hex_digit(bytes[0] as int / 16);
    reveal_strlit(".tmp-");
    if names_temp(name) {
        let value = choose|value: u128| name == #[trigger] temp_name(value);
        assert(temp_name(value)[0] == '.');
        assert(name[0] == crate::text::hex_text(bytes)[0]);
    }
}

/// Whether an entry of the directory of completions is what publishing a completion leaves there.
pub open spec fn holds_published(entry: CompletionEntry, completion: ProjectionCompletion) -> bool {
    &&& entry.name is Some
    &&& entry.name->0@ == evidence_name(completion.intent_id.digest, ".completion"@)
    &&& entry.kind == EntryKind::File
    &&& entry.stored is Ok
    &&& entry.stored->Ok_0 is Some
    &&& entry.stored->Ok_0->0.decoded is Ok
    &&& entry.stored->Ok_0->0.decoded->Ok_0 == completion
    &&& entry.stored->Ok_0->0.encoded is Ok
    &&& entry.stored->Ok_0->0.encoded->Ok_0@ == entry.stored->Ok_0->0.bytes@
    &&& entry.reconciled is Ok
}

/// How many bytes the first `n` completions have.
pub open spec fn added_bytes(added: Seq<CompletionEntry>, n: nat) -> int
    decreases n,
{
    if n == 0 {
        0
    } else {
        added_bytes(added, (n - 1) as nat) + (added[n - 1].stored->Ok_0->0.bytes@.len() as u64)
    }
}

/// The bytes of fewer completions are no more.
proof fn lemma_fewer_added(added: Seq<CompletionEntry>, m: nat, n: nat)
    requires
        m <= n,
    ensures
        0 <= added_bytes(added, m) <= added_bytes(added, n),
    decreases n,
{
    if m < n {
        lemma_fewer_added(added, m, (n - 1) as nat);
    } else if n > 0 {
        lemma_fewer_added(added, (n - 1) as nat, (n - 1) as nat);
    }
}

/// Whether a catalogue has room for more completions.
pub open spec fn has_room(scan: CatalogView, added: Seq<CompletionEntry>) -> bool {
    &&& scan.directory_entries + added.len() <= MAX_PROJECTION_CATALOG_DIRECTORY_ENTRIES
    &&& scan.completed + added.len() <= MAX_PROJECTION_CATALOG_ROWS
    &&& scan.catalog_bytes + added_bytes(added, added.len()) <= MAX_PROJECTION_CATALOG_BYTES
}

/// Scanning more completions goes on from where scanning the first ones came to.
proof fn lemma_scanned_on(
    store: ProjectionReceiptStore,
    start: CatalogView,
    first: Seq<CompletionEntry>,
    more: Seq<CompletionEntry>,
    n: nat,
)
    requires
        n <= first.len(),
    ensures
        scanned_completions(store, start, first + more, n) == scanned_completions(
            store,
            start,
            first,
            n,
        ),
    decreases n,
{
    if n > 0 {
        lemma_scanned_on(store, start, first, more, (n - 1) as nat);
        assert((first + more)[n - 1] == first[n - 1]);
    }
}

/// Whether an added entry is the valid completion of the intent of a row.
spec fn is_added_at(
    store: ProjectionReceiptStore,
    row: ProjectionCatalogEntry,
    entry: CompletionEntry,
) -> bool {
    &&& entry.kind == EntryKind::File
    &&& is_completion_of(store, entry, row.intent_id)
    &&& entry.stored is Ok
    &&& entry.stored->Ok_0 is Some
    &&& bound_completion(row.intent@, row.intent_id, entry.stored->Ok_0->0) is Ok
    &&& entry.reconciled is Ok
}

/// Whether each added completion is that of an intent of the catalogue, at its position.
spec fn adds_at(
    store: ProjectionReceiptStore,
    rows: Seq<ProjectionCatalogEntry>,
    added: Seq<CompletionEntry>,
    at: Seq<int>,
) -> bool {
    &&& at.len() == added.len()
    &&& forall|k: int|
        0 <= k < added.len() ==> 0 <= at[k] < rows.len() && is_added_at(
            store,
            rows[at[k]],
            #[trigger] added[k],
        )
}

/// Added completions of intents of the catalogue are all read, where there is room.
proof fn lemma_added_are_read(
    store: ProjectionReceiptStore,
    start: CatalogView,
    first: Seq<CompletionEntry>,
    added: Seq<CompletionEntry>,
    at: Seq<int>,
    m: nat,
)
    requires
        m <= added.len(),
        rows_ascend(start.rows),
        scanned_completions(store, start, first, first.len()) is Ok,
        adds_at(store, start.rows, added, at),
        has_room(scanned_completions(store, start, first, first.len())->Ok_0, added),
    ensures
        ({
            let before = scanned_completions(store, start, first, first.len())->Ok_0;
            let scan = scanned_completions(store, start, first + added, first.len() + m);
            &&& scan is Ok
            &&& scan->Ok_0.directory_entries == before.directory_entries + m
            &&& scan->Ok_0.catalog_bytes == before.catalog_bytes + added_bytes(added, m)
            &&& scan->Ok_0.completed <= before.completed + m
        }),
    decreases m,
{
    lemma_scanned_on(store, start, first, added, first.len());
    lemma_fewer_added(added, m, added.len());
    if m > 0 {
        let less = (m - 1) as nat;
        let all = first + added;
        let entry = added[m - 1];
        lemma_added_are_read(store, start, first, added, at, less);
        lemma_fewer_added(added, less, m);
        let now = scanned_completions(store, start, all, first.len() + less)->Ok_0;
        assert(all[first.len() + less as int] == entry);
        let k = at[m - 1];
        let intent_id = start.rows[k].intent_id;
        let name = entry.name->0@;
        assert(is_added_at(store, start.rows[k], added[m - 1]));
        lemma_completed_rows(store, start, all, first.len() + less);
        assert(now.rows[k].intent_id == intent_id);
        law_evidence_names_are_recognised(intent_id.digest, ".completion"@);
        lemma_row_is_found(now.rows, name, 0, k);
        lemma_row_named(now.rows, name, 0);
        lemma_row_has_name(now.rows, name, 0);
        let found = row_named(now.rows, name, 0)->0;
        law_evidence_names_are_unique(
            now.rows[found].intent_id.digest,
            intent_id.digest,
            ".completion"@,
        );
        assert(found == k) by {
            assert(now.rows[found].intent_id == start.rows[found].intent_id);
            if found < k {
                assert(start.rows[found].intent_id.digest.spec_before(
                    start.rows[k].intent_id.digest,
                ));
            } else if k < found {
                assert(start.rows[k].intent_id.digest.spec_before(
                    start.rows[found].intent_id.digest,
                ));
            }
        }
        assert(now.rows[k].intent == start.rows[k].intent);
    }
}

/// The intents that a pass was over, where it ends on an event.
pub open spec fn listed_by(pass: PassView, event: PassEvent) -> Seq<ProjectionIntent> {
    match event {
        PassEvent::Listed(Ok(intents)) => intents@,
        _ => pass.intents,
    }
}

/// Whether a write hands out the completion whose publication ended well, and that publication left
/// a file in the directory of completions. `identity` is the identity that an intent has.
pub open spec fn leaves_completion(
    identity: spec_fn(ProjectionIntentView) -> ProjectionIntentId,
    write: ProjectionWrite,
    run: CompletionRun,
    event: CompletionEvent,
    entry: CompletionEntry,
) -> bool {
    &&& run.intent@ == write.plan.intent@
    &&& run.intent_id == identity(run.intent@)
    &&& completion_step(run, event) is Finish
    &&& completion_step(run, event)->Finish_0 is Ok
    &&& completion_step(run, event)->Finish_0->Ok_0 == write.completion
    &&& holds_published(entry, write.completion)
}

/// A left completion is that of an intent of the catalogue.
proof fn lemma_left_completion(
    store: ProjectionReceiptStore,
    intents: Seq<IntentEntry>,
    identity: spec_fn(ProjectionIntentView) -> ProjectionIntentId,
    row: ProjectionCatalogEntry,
    write: ProjectionWrite,
    run: CompletionRun,
    event: CompletionEvent,
    entry: CompletionEntry,
)
    requires
        leaves_completion(identity, write, run, event, entry),
        is_published(store, intents, row.intent_id, row.intent),
        row.intent_id == identity(row.intent@),
        write.plan.intent@ == row.intent@,
    ensures
        completes(write.completion, row.intent@, row.intent_id),
        entry.kind == EntryKind::File,
        is_completion_of(store, entry, row.intent_id),
        entry.stored is Ok,
        entry.stored->Ok_0 is Some,
        bound_completion(row.intent@, row.intent_id, entry.stored->Ok_0->0) is Ok,
        entry.reconciled is Ok,
{
    law_published_completion_is_of_the_intent(run, event);
    lemma_completion_counts(store, intents, row.intent_id, row.intent);
}

/// After a pass that ends well nothing is incomplete. The pass was over the intents that the store
/// lists as incomplete; each of its writes hands out the completion whose publication ended well,
/// and that publication left one more file in the directory of completions. Then there is one write
/// for each listed intent, in order and of exactly that intent, its completion is of the intent, and
/// the store's list is empty. `identity` is the identity that an intent has, and there is room in
/// the catalogue.
pub proof fn law_recovery_leaves_nothing_incomplete(
    store: ProjectionReceiptStore,
    intents: Seq<IntentEntry>,
    completions: Seq<CompletionEntry>,
    identity: spec_fn(ProjectionIntentView) -> ProjectionIntentId,
    pass: PassView,
    event: PassEvent,
    runs: Seq<CompletionRun>,
    events: Seq<CompletionEvent>,
    added: Seq<CompletionEntry>,
)
    requires
        catalog(store, intents, completions) is Ok,
        names_differ(intents),
        forall|intent_id: ProjectionIntentId, intent: ProjectionIntent| #[trigger]
            is_published(store, intents, intent_id, intent) ==> intent_id == identity(intent@),
        has_room(
            scanned_completions(
                store,
                scanned_intents(store, intents, intents.len())->Ok_0,
                completions,
                completions.len(),
            )->Ok_0,
            added,
        ),
        pass_wf(pass),
        pass_step(pass, event) is Finish,
        listed_by(pass, event) == incomplete(
            catalog(store, intents, completions)->Ok_0,
            catalog(store, intents, completions)->Ok_0.len(),
        ),
        runs.len() == pass_step(pass, event)->Finish_0.len(),
        events.len() == runs.len(),
        added.len() == runs.len(),
        forall|k: int|
            0 <= k < added.len() ==> leaves_completion(
                identity,
                pass_step(pass, event)->Finish_0[k],
                runs[k],
                events[k],
                #[trigger] added[k],
            ),
    ensures
        ({
            let writes = pass_step(pass, event)->Finish_0;
            let listed = listed_by(pass, event);
            let after = catalog(store, intents, completions + added);
            &&& writes.len() == listed.len()
            &&& writes_are_of(writes, listed)
            &&& forall|k: int|
                0 <= k < writes.len() ==> completes(
                    (#[trigger] writes[k]).completion,
                    listed[k]@,
                    identity(listed[k]@),
                )
            &&& after is Ok
            &&& incomplete(after->Ok_0, after->Ok_0.len()) == Seq::<ProjectionIntent>::empty()
        }),
{
    let writes = pass_step(pass, event)->Finish_0;
    let listed = listed_by(pass, event);
    let start = scanned_intents(store, intents, intents.len())->Ok_0;
    let rows = catalog(store, intents, completions)->Ok_0;
    let open = open_positions(rows, rows.len());
    law_pass_recovers_all(pass, event);
    law_incomplete_is_published_less_completed(store, intents, completions);
    lemma_scanned_intents_ascend(store, intents, intents.len());
    lemma_completed_rows(store, start, completions, completions.len());
    assert forall|k: int| 0 <= k < added.len() implies is_added_at(
        store,
        start.rows[open[k]],
        #[trigger] added[k],
    ) && 0 <= open[k] < start.rows.len() && rows[open[k]].intent_id
        == start.rows[open[k]].intent_id && completes(
        writes[k].completion,
        listed[k]@,
        identity(listed[k]@),
    ) by {
        let row = rows[open[k]];
        assert(is_row_of(rows[open[k]], row.intent_id, row.intent));
        assert(has_row_at(rows, open, row.intent_id, row.intent));
        assert(is_published(store, intents, row.intent_id, row.intent));
        assert(listed[k] == row.intent);
        assert(writes[k].plan.intent@ == listed[k]@);
        lemma_left_completion(
            store,
            intents,
            identity,
            row,
            writes[k],
            runs[k],
            events[k],
            added[k],
        );
        assert(start.rows[open[k]].intent_id == row.intent_id);
        assert(start.rows[open[k]].intent == row.intent);
    }
    assert forall|k: int| 0 <= k < writes.len() implies completes(
        (#[trigger] writes[k]).completion,
        listed[k]@,
        identity(listed[k]@),
    ) by {
        assert(is_added_at(store, start.rows[open[k]], added[k]));
    }
    lemma_added_are_read(store, start, completions, added, open, added.len());
    assert((completions + added).len() == completions.len() + added.len());
    assert forall|a: int| 0 <= a < open.len() implies is_completed(
        store,
        added,
        rows[#[trigger] open[a]].intent_id,
    ) by {
        assert(is_added_at(store, start.rows[open[a]], added[a]));
        assert(is_completion_of(store, added[a], rows[open[a]].intent_id));
    }
    law_completing_the_incomplete_leaves_nothing(store, intents, completions, added);
}

/// The completion of a published intent counts: its name is neither retired nor that of a file that
/// is being written.
proof fn lemma_completion_counts(
    store: ProjectionReceiptStore,
    intents: Seq<IntentEntry>,
    intent_id: ProjectionIntentId,
    intent: ProjectionIntent,
)
    requires
        is_published(store, intents, intent_id, intent),
    ensures
        !is_retired_name(
            store.retired_own_endpoint_intents@,
            evidence_name(intent_id.digest, ".completion"@),
            ".completion"@,
        ),
        !names_temp(evidence_name(intent_id.digest, ".completion"@)),
{
    let retired = store.retired_own_endpoint_intents@;
    let name = evidence_name(intent_id.digest, ".completion"@);
    lemma_evidence_is_not_temporary(intent_id, ".completion"@);
    let i = choose|i: int|
        0 <= i < intents.len() && publishes(store, #[trigger] intents[i], intent_id, intent);
    if is_retired_name(retired, name, ".completion"@) {
        let r = choose|r: int|
            0 <= r < retired.len() && name == evidence_name(
                (#[trigger] retired[r]).digest,
                ".completion"@,
            );
        law_evidence_names_are_unique(intent_id.digest, retired[r].digest, ".completion"@);
        assert(intents[i].name->0@ == evidence_name(retired[r].digest, ".intent"@));
        assert(is_retired_name(retired, intents[i].name->0@, ".intent"@));
    }
}

/// Whether a recovery goes on by asking for something, with nothing else about it changed.
pub open spec fn recovery_goes_on(
    run: RecoveryRunView,
    step: RecoveryStep,
    action: RecoveryAction,
) -> bool {
    &&& step is Ask
    &&& recovery_asks(step->Ask_0.phase) == action
    &&& step->Ask_0 == (RecoveryRunView { phase: step->Ask_0.phase, ..run })
}

/// Whether an event is an answer to what was asked for.
pub open spec fn answers_recovery(action: RecoveryAction, event: RecoveryEvent) -> bool {
    match action {
        RecoveryAction::AuthorizeRecovery | RecoveryAction::AuthorizeWrite => event is State,
        RecoveryAction::LoadBase => event is Base,
        RecoveryAction::Render => event is Rendered,
        RecoveryAction::LoadAttempts
        | RecoveryAction::BeginMutation
        | RecoveryAction::ReleaseFailedRecovery
        | RecoveryAction::ReserveFallback
        | RecoveryAction::BeginFallback
        | RecoveryAction::ReconstructCompletion => event is Stored,
        RecoveryAction::Recover | RecoveryAction::Write => event is Operated,
        RecoveryAction::ReadInput => event is Input,
        RecoveryAction::NoteDeferredAbsence | RecoveryAction::NoteCompletion => event is Noted,
        RecoveryAction::RetireCompleted => event is Retired,
        RecoveryAction::Finish(_) => false,
    }
}

/// What an answer that says no says, apart from that of an operation.
pub open spec fn refused_recovery(event: RecoveryEvent) -> Option<ProjectionError> {
    match event {
        RecoveryEvent::State(Err(error)) => Some(ProjectionError::Engine(error)),
        RecoveryEvent::Base(Err(error)) => Some(ProjectionError::Store(Box::new(error))),
        RecoveryEvent::Stored(Err(error)) => Some(ProjectionError::Store(Box::new(error))),
        RecoveryEvent::Input(Err(failure)) => Some(ProjectionError::Io(failure)),
        RecoveryEvent::Noted(Err(error)) => Some(ProjectionError::Engine(error)),
        RecoveryEvent::Retired(Err(error)) => Some(error),
        _ => None,
    }
}

/// Whatever says no ends the recovery with what it says; only what noting an absence gave does not
/// matter. Whatever answers nothing that was asked changes nothing.
pub proof fn law_recovery_ends_with_the_first_refusal(run: RecoveryRunView, event: RecoveryEvent)
    ensures
        answers_recovery(recovery_asks(run.phase), event) && refused_recovery(event) is Some
            && recovery_asks(run.phase) != RecoveryAction::NoteDeferredAbsence ==> recovery_step(
            run,
            event,
        ) == RecoveryStep::Finish(Err(refused_recovery(event)->0)),
        !answers_recovery(recovery_asks(run.phase), event) ==> recovery_step(run, event)
            == RecoveryStep::Ask(run),
{
    reveal(recovery_replan);
    reveal(recovery_recover);
    reveal(recovery_rewrite);
    reveal(recovery_complete);
}

/// A recovery plans the accepted page again before it touches anything: over the base that the store
/// holds for the intent, and, where the intent leaves exactly the bytes of its base, with the
/// intent's own annotations. It goes on only where that plan is of exactly the intent.
pub proof fn law_recovery_plans_the_page_again(
    run: RecoveryRunView,
    state: ProjectionPageState,
    blob: Option<BaseBlob>,
    base: Option<SourceBase>,
    rendering: PageRendering,
)
    ensures
        recovery_asks(run.phase) == RecoveryAction::AuthorizeRecovery ==> {
            let next = recovery_step(run, RecoveryEvent::State(Ok(state)));
            &&& next is Ask
            &&& recovery_asks(next->Ask_0.phase) == RecoveryAction::LoadBase
            &&& next->Ask_0 == (RecoveryRunView {
                phase: next->Ask_0.phase,
                accepted: Some(state),
                ..run
            })
        },
        recovery_asks(run.phase) == RecoveryAction::LoadBase ==> {
            let next = recovery_step(run, RecoveryEvent::Base(Ok(blob)));
            &&& next is Ask
            &&& recovery_asks(next->Ask_0.phase) == RecoveryAction::Render
            &&& next->Ask_0 == (RecoveryRunView {
                phase: next->Ask_0.phase,
                base: if blob is Some {
                    Some(blob->0@)
                } else {
                    None
                },
                ..run
            })
        },
        recovery_asks(run.phase) == RecoveryAction::Render ==> {
            let next = recovery_step(run, RecoveryEvent::Rendered { base, rendering });
            let adopts = run.base is Some && BlobDescription::spec_of(run.base->0)
                == run.intent.target;
            let plan = projection_plan(
                run.workspace_id,
                run.accepted->0,
                lent_base(&base),
                if adopts {
                    Some(run.intent.annotations)
                } else {
                    None
                },
                rendering,
            );
            if base_bytes(lent_base(&base)) != run.base {
                next == RecoveryStep::Ask(run)
            } else if plan is Err {
                next == RecoveryStep::Finish(Err(plan->Err_0))
            } else if plan->Ok_0.intent != run.intent {
                next == RecoveryStep::Finish(Err(ProjectionError::RecoveryIntentMismatch))
            } else {
                &&& next is Ask
                &&& recovery_asks(next->Ask_0.phase) == RecoveryAction::LoadAttempts
                &&& next->Ask_0 == (RecoveryRunView {
                    phase: next->Ask_0.phase,
                    plan: Some(plan->Ok_0),
                    ..run
                })
            }
        },
{
    reveal(recovery_replan);
}

/// A recovery first finishes or proves what an earlier attempt left, under the attempts that there
/// are. Where something else or nothing was in the file's place, it gives that up, reserves an attempt
/// of its own and writes afresh; any other failure ends it.
pub proof fn law_recovery_finishes_before_it_writes(run: RecoveryRunView, failure: IoFailure)
    ensures
        recovery_asks(run.phase) == RecoveryAction::LoadAttempts ==> recovery_goes_on(
            run,
            recovery_step(run, RecoveryEvent::Stored(Ok(()))),
            RecoveryAction::BeginMutation,
        ),
        recovery_asks(run.phase) == RecoveryAction::BeginMutation ==> recovery_goes_on(
            run,
            recovery_step(run, RecoveryEvent::Stored(Ok(()))),
            RecoveryAction::Recover,
        ),
        recovery_asks(run.phase) == RecoveryAction::Recover ==> {
            let next = recovery_step(run, RecoveryEvent::Operated(Err(failure)));
            let open = failure.kind is AlreadyExists || failure.kind is NotFound;
            &&& recovery_goes_on(
                run,
                recovery_step(run, RecoveryEvent::Operated(Ok(()))),
                RecoveryAction::ReconstructCompletion,
            )
            &&& open ==> recovery_goes_on(run, next, RecoveryAction::ReleaseFailedRecovery)
            &&& !open ==> next == RecoveryStep::Finish(Err(ProjectionError::Io(failure)))
        },
        recovery_asks(run.phase) == RecoveryAction::ReleaseFailedRecovery ==> recovery_goes_on(
            run,
            recovery_step(run, RecoveryEvent::Stored(Ok(()))),
            RecoveryAction::ReserveFallback,
        ),
        recovery_asks(run.phase) == RecoveryAction::ReserveFallback ==> recovery_goes_on(
            run,
            recovery_step(run, RecoveryEvent::Stored(Ok(()))),
            RecoveryAction::BeginFallback,
        ),
        recovery_asks(run.phase) == RecoveryAction::BeginFallback ==> recovery_goes_on(
            run,
            recovery_step(run, RecoveryEvent::Stored(Ok(()))),
            RecoveryAction::Write,
        ),
{
    reveal(recovery_recover);
    reveal(recovery_rewrite);
}

/// What comes of writing afresh: the completion is written where it was carried out. A failure ends
/// the recovery of this device's own intent; under a handoff the file is read again, an absent one is
/// put off, and a present one keeps the failure.
pub proof fn law_failed_write_ends_or_rereads(
    run: RecoveryRunView,
    failure: IoFailure,
    input: Option<Vec<u8>>,
    noted: Result<(), EngineError>,
)
    requires
        recovery_asks(run.phase) == RecoveryAction::Write,
    ensures
        ({
            let failed = recovery_step(run, RecoveryEvent::Operated(Err(failure)));
            let reread = recovery_step(failed->Ask_0, RecoveryEvent::Input(Ok(input)));
            let kept = RecoveryRunView { failure: None, ..run };
            &&& recovery_goes_on(
                run,
                recovery_step(run, RecoveryEvent::Operated(Ok(()))),
                RecoveryAction::ReconstructCompletion,
            )
            &&& !run.under_handoff ==> failed == RecoveryStep::Finish(
                Err(ProjectionError::Io(failure)),
            )
            &&& run.under_handoff ==> recovery_goes_on(
                RecoveryRunView { failure: Some(failure), ..run },
                failed,
                RecoveryAction::ReadInput,
            )
            &&& run.under_handoff && input is Some ==> reread == RecoveryStep::Finish(
                Err(ProjectionError::Io(failure)),
            )
            &&& run.under_handoff && input is None ==> recovery_goes_on(
                kept,
                reread,
                RecoveryAction::NoteDeferredAbsence,
            ) && recovery_step(reread->Ask_0, RecoveryEvent::Noted(noted)) == RecoveryStep::Finish(
                Ok(ProjectionExecution::DeferredAbsence),
            )
        }),
{
    reveal(recovery_rewrite);
}

/// A recovery is completed in order: the completion is written, under a handoff it is noted in the
/// engine, the recovery files are retired, and the page as it is accepted now is asked for last.
pub proof fn law_recovery_is_completed_in_order(run: RecoveryRunView, state: ProjectionPageState)
    ensures
        recovery_asks(run.phase) == RecoveryAction::ReconstructCompletion ==> recovery_goes_on(
            run,
            recovery_step(run, RecoveryEvent::Stored(Ok(()))),
            if run.under_handoff {
                RecoveryAction::NoteCompletion
            } else {
                RecoveryAction::RetireCompleted
            },
        ),
        recovery_asks(run.phase) == RecoveryAction::NoteCompletion ==> recovery_goes_on(
            run,
            recovery_step(run, RecoveryEvent::Noted(Ok(()))),
            RecoveryAction::RetireCompleted,
        ),
        recovery_asks(run.phase) == RecoveryAction::RetireCompleted ==> recovery_goes_on(
            run,
            recovery_step(run, RecoveryEvent::Retired(Ok(()))),
            RecoveryAction::AuthorizeWrite,
        ),
        recovery_asks(run.phase) == RecoveryAction::AuthorizeWrite ==> recovery_step(
            run,
            RecoveryEvent::State(Ok(state)),
        ) == RecoveryStep::Finish(Ok(ProjectionExecution::BarrierTaken)),
{
    reveal(recovery_complete);
}

/// A pass is bound to its endpoint, retires what earlier projections left, lists what is incomplete
/// and recovers it from the first to the last; whatever says no ends it with what it says.
pub proof fn law_pass_goes_through_the_list(
    pass: PassView,
    endpoint: ProjectionEndpointBinding,
    intents: Vec<ProjectionIntent>,
    write: ProjectionWrite,
    error: ProjectionError,
    fault: ProjectionStoreError,
    index: usize,
)
    ensures
        pass.phase is Endpoint ==> pass_step(pass, PassEvent::Endpoint(Ok(endpoint)))
            == PassStep::Ask(PassView { phase: PassPhase::RetiringPending, ..pass }) && pass_step(
            pass,
            PassEvent::Endpoint(Err(error)),
        ) == PassStep::Fail(error),
        pass.phase is RetiringPending ==> pass_step(pass, PassEvent::Retired(Ok(())))
            == PassStep::Ask(PassView { phase: PassPhase::Listing, ..pass }) && pass_step(
            pass,
            PassEvent::Retired(Err(error)),
        ) == PassStep::Fail(error),
        pass.phase is Listing ==> {
            let listed = pass_step(pass, PassEvent::Listed(Ok(intents)));
            &&& pass_step(pass, PassEvent::Listed(Err(fault))) == PassStep::Fail(
                ProjectionError::Store(Box::new(fault)),
            )
            &&& intents@.len() == 0 ==> listed == PassStep::Finish(pass.recovered)
            &&& intents@.len() > 0 ==> listed == PassStep::Ask(
                PassView {
                    phase: PassPhase::Recovering { index: 0 },
                    intents: intents@,
                    ..pass
                },
            )
        },
        pass.phase == (PassPhase::Recovering { index }) && index < pass.intents.len()
            && pass.intents.len() <= usize::MAX ==> {
            let next = pass_step(pass, PassEvent::Recovered(Ok(write)));
            let recovered = pass.recovered.push(write);
            &&& pass_step(pass, PassEvent::Recovered(Err(error))) == PassStep::Fail(error)
            &&& write.plan.intent@ == pass.intents[index as int]@ && index + 1 < pass.intents.len()
                ==> next == PassStep::Ask(
                PassView {
                    phase: PassPhase::Recovering { index: (index + 1) as usize },
                    recovered,
                    ..pass
                },
            )
            &&& write.plan.intent@ == pass.intents[index as int]@ && index + 1 == pass.intents.len()
                ==> next == PassStep::Finish(recovered)
        },
        pass_asks(PassPhase::Endpoint, PassAction::RequireEndpoint),
        pass_asks(PassPhase::RetiringPending, PassAction::RetirePending),
        pass_asks(PassPhase::Listing, PassAction::ListIncomplete),
        pass_asks(PassPhase::Recovering { index }, PassAction::Recover(index)),
{
}

} // verus!
