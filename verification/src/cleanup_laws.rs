//! What holds of a cleanup pass over the displaced files.

use vstd::prelude::*;

use crate::attempts::EntryKind;
use crate::cleanup_run::{
    after_entries, cleanup_asks, cleanup_step, current_name, first_live, insert_pending, inspected,
    is_retired_marker, record_before, walk, CleanupAction, CleanupEvent, CleanupPhase, CleanupStep,
    CleanupView, ListedEntry, MarkerFacts, PendingCleanup,
};
use crate::evidence_laws::is_reserved_record;
use crate::hash::Digest;
use crate::ids::{simple_text, ProjectionIntentId, WorkspaceId};
use crate::names::names_temp;
use crate::rounds::{marker_publication, opened_rounds, Round, RoundIdentities, StoredRoundState};
use crate::store_error::ProjectionStoreError;
use crate::text::hex_text;

verus! {

/// Whether an event answers what a pass waits for.
pub open spec fn answers_cleanup(phase: CleanupPhase, event: CleanupEvent) -> bool {
    match phase {
        CleanupPhase::Opening { .. } => event is Opened,
        CleanupPhase::Listing { .. } => event is Listed,
        CleanupPhase::Peeking => event is Listed,
        CleanupPhase::Flipping => event is Flipped,
        CleanupPhase::Removing => event is Removed,
        CleanupPhase::Inspecting => event is Marker,
        CleanupPhase::Moving => event is Moved,
        CleanupPhase::SyncingActive => event is Synced,
        CleanupPhase::SyncingInactive => event is Synced,
        CleanupPhase::Done => false,
    }
}

/// Why an event refuses what was asked for, if it does.
pub open spec fn refused_cleanup(event: CleanupEvent) -> Option<ProjectionStoreError> {
    match event {
        CleanupEvent::Opened(Err(error)) => Some(error),
        CleanupEvent::Listed(Err(error)) => Some(error),
        CleanupEvent::Flipped(Err(error)) => Some(error),
        CleanupEvent::Removed(Err(error)) => Some(error),
        CleanupEvent::Moved(Err(error)) => Some(error),
        CleanupEvent::Synced(Err(error)) => Some(error),
        _ => None,
    }
}

/// A pass ends with the first refusal, for its reason; an event that answers nothing leaves it as it
/// is.
pub proof fn law_cleanup_ends_with_the_first_refusal(pass: CleanupView, event: CleanupEvent)
    ensures
        answers_cleanup(pass.phase, event) && refused_cleanup(event) is Some ==> cleanup_step(
            pass,
            event,
        ) == CleanupStep::Finish(Err(refused_cleanup(event)->0)),
        !answers_cleanup(pass.phase, event) ==> cleanup_step(pass, event) == CleanupStep::Ask(pass),
{
}

/// Whether a pass goes on in a phase, with nothing else about it changed.
pub open spec fn cleanup_goes_on(
    pass: CleanupView,
    step: CleanupStep,
    phase: CleanupPhase,
) -> bool {
    step == CleanupStep::Ask(CleanupView { phase, ..pass })
}

/// Whether an entry is a marker of an intent that was retired: its name starts with the digest of
/// the intent and a dot.
pub open spec fn is_of_retired(retired: Seq<ProjectionIntentId>, entry: ListedEntry) -> bool {
    entry is Ok && entry->Ok_0.name is Some && exists|i: int|
        0 <= i < retired.len() && (entry->Ok_0.name->0)@.len() >= 65 && (
        entry->Ok_0.name->0)@.take(65) == hex_text((#[trigger] retired[i]).digest.spec_bytes())
            + "."@
}

/// A name is that of a retired marker exactly where it starts with a retired intent's digest and a
/// dot.
proof fn lemma_retired(retired: Seq<ProjectionIntentId>, entry: ListedEntry)
    requires
        entry is Ok,
        entry->Ok_0.name is Some,
    ensures
        is_retired_marker(retired, (entry->Ok_0.name->0)@) <==> is_of_retired(retired, entry),
{
    reveal_strlit(".");
    let name = (entry->Ok_0.name->0)@;
    assert forall|i: int| 0 <= i < retired.len() implies (
    #[trigger] retired[i]).digest.spec_bytes().len() == 32 by {
        retired[i].digest.lemma_bytes();
    }
    if is_retired_marker(retired, name) {
        let i = choose|i: int|
            0 <= i < retired.len() && crate::names::begins_with(
                name,
                crate::names::evidence_name((#[trigger] retired[i]).digest, "."@),
            );
        assert(retired[i].digest.spec_bytes().len() == 32);
    }
    if is_of_retired(retired, entry) {
        let i = choose|i: int|
            0 <= i < retired.len() && name.len() >= 65 && name.take(65) == hex_text(
                (#[trigger] retired[i]).digest.spec_bytes(),
            ) + "."@;
        assert(retired[i].digest.spec_bytes().len() == 32);
    }
}

/// Looking for the first entry that is not of a retired intent finds exactly that.
proof fn lemma_first_live(retired: Seq<ProjectionIntentId>, entries: Seq<ListedEntry>, at: int)
    requires
        0 <= at <= entries.len(),
    ensures
        match first_live(retired, entries, at) {
            Ok(None) => forall|k: int|
                at <= k < entries.len() ==> is_of_retired(retired, #[trigger] entries[k]),
            Ok(Some(found)) => at <= found < entries.len() && entries[found] is Ok
                && !is_of_retired(retired, entries[found]) && forall|k: int|
                at <= k < found ==> is_of_retired(retired, #[trigger] entries[k]),
            Err(error) => exists|k: int|
                at <= k < entries.len() && ((#[trigger] entries[k]) is Err || entries[k]->Ok_0.name
                    is None),
        },
    decreases entries.len() - at,
{
    if at < entries.len() {
        if entries[at] is Ok && entries[at]->Ok_0.name is Some {
            lemma_retired(retired, entries[at]);
            lemma_first_live(retired, entries, at + 1);
        } else {
            assert(entries[at] is Err || entries[at]->Ok_0.name is None);
        }
    }
}

/// A pass works off the round that is active. Where that holds nothing but markers of retired
/// intents, and only then, the other round is looked at; where that holds something else, the
/// rounds change places, once, and the round that is then active is worked off; else the pass ends
/// with nothing.
pub proof fn law_rounds_change_places_once(
    pass: CleanupView,
    opened: Round,
    entries: Vec<ListedEntry>,
    flipped: bool,
)
    ensures
        pass.phase == (CleanupPhase::Opening { flipped }) ==> cleanup_step(
            pass,
            CleanupEvent::Opened(Ok(opened)),
        ) == CleanupStep::Ask(
            CleanupView { phase: CleanupPhase::Listing { flipped }, active: opened, ..pass },
        ),
        ({
            let step = cleanup_step(pass, CleanupEvent::Listed(Ok(entries)));
            let readable = forall|k: int|
                0 <= k < entries@.len() ==> (#[trigger] entries@[k]) is Ok
                    && entries@[k]->Ok_0.name is Some;
            let nothing = forall|k: int|
                0 <= k < entries@.len() ==> is_of_retired(pass.retired, #[trigger] entries@[k]);
            &&& pass.phase == (CleanupPhase::Listing { flipped: false }) && nothing
                ==> cleanup_goes_on(pass, step, CleanupPhase::Peeking)
            &&& pass.phase == (CleanupPhase::Listing { flipped: true }) && nothing ==> step
                == CleanupStep::Finish(Ok(Seq::empty()))
            &&& pass.phase is Peeking && nothing ==> step == CleanupStep::Finish(Ok(Seq::empty()))
            &&& pass.phase is Peeking && readable && !nothing ==> cleanup_goes_on(
                pass,
                step,
                CleanupPhase::Flipping,
            )
            &&& pass.phase is Listing && step is Ask && step->Ask_0.phase is Peeking ==> nothing
            &&& pass.phase is Peeking && step is Ask && step->Ask_0.phase is Flipping ==> !nothing
        }),
        pass.phase is Flipping ==> cleanup_goes_on(
            pass,
            cleanup_step(pass, CleanupEvent::Flipped(Ok(()))),
            CleanupPhase::Opening { flipped: true },
        ),
{
    lemma_first_live(pass.retired, entries@, 0);
    if pass.phase is Listing {
        if first_live(pass.retired, entries@, 0) is Ok && first_live(
            pass.retired,
            entries@,
            0,
        )->Ok_0 is Some {
            let found = first_live(pass.retired, entries@, 0)->Ok_0->0;
            assert(!is_of_retired(pass.retired, entries@[found]));
            lemma_walk(CleanupView { entries: entries@, at: found as nat, ..pass });
        }
    }
}

/// Whether a step of walking through a round stops at an entry: every entry before it is of a
/// retired intent, it is a file and of none, and it is either an unfinished file, to be removed, or
/// a marker, to be read.
pub open spec fn stops_at(pass: CleanupView, next: CleanupView, at: int) -> bool {
    let entry = pass.entries[at];
    &&& pass.at <= at < pass.entries.len()
    &&& forall|k: int|
        pass.at <= k < at ==> is_of_retired(pass.retired, #[trigger] pass.entries[k])
    &&& entry is Ok
    &&& entry->Ok_0.name is Some
    &&& !is_of_retired(pass.retired, entry)
    &&& entry->Ok_0.kind == EntryKind::File
    &&& pass.visited != pass.max_entries
    &&& next.phase is Removing || next.phase is Inspecting
    &&& next.phase is Removing <==> names_temp((entry->Ok_0.name->0)@)
    &&& next.phase is Inspecting ==> ends_in_cleanup((entry->Ok_0.name->0)@)
    &&& next == (CleanupView {
        phase: next.phase,
        at: at as nat,
        visited: pass.visited + 1,
        ..pass
    })
}

/// Whether a name ends as that of a marker does.
pub open spec fn ends_in_cleanup(name: Seq<char>) -> bool {
    name.len() >= 8 && name.skip(name.len() - 8) == ".cleanup"@
}

/// Whether a step of walking through a round leaves it behind: every entry that is left is of a
/// retired intent, or as many were visited as may be.
pub open spec fn leaves_round(pass: CleanupView, at: int) -> bool {
    &&& pass.at <= at <= pass.entries.len()
    &&& forall|k: int|
        pass.at <= k < at ==> is_of_retired(pass.retired, #[trigger] pass.entries[k])
    &&& at == pass.entries.len() || pass.visited == pass.max_entries
}

/// Walking on stops at the next entry that is not of a retired intent, leaves the round, or ends
/// with an error.
proof fn lemma_walk(pass: CleanupView)
    ensures
        walk(pass) is Finish && walk(pass)->Finish_0 is Err || (exists|at: int|
            walk(pass) is Ask && #[trigger] stops_at(pass, walk(pass)->Ask_0, at)) || (exists|
            at: int,
        | #[trigger]
            leaves_round(pass, at) && walk(pass) == after_entries(
                CleanupView { at: at as nat, ..pass },
            )) || (pass.at > pass.entries.len() && walk(pass) == after_entries(pass)),
    decreases pass.entries.len() - pass.at,
{
    reveal_strlit(".cleanup");
    if pass.at < pass.entries.len() {
        let entry = pass.entries[pass.at as int];
        if entry is Ok && entry->Ok_0.name is Some {
            lemma_retired(pass.retired, entry);
            if is_of_retired(pass.retired, entry) {
                let rest = CleanupView { at: pass.at + 1, ..pass };
                lemma_walk(rest);
                if exists|at: int|
                    walk(rest) is Ask && #[trigger] stops_at(rest, walk(rest)->Ask_0, at) {
                    let at = choose|at: int|
                        walk(rest) is Ask && #[trigger] stops_at(rest, walk(rest)->Ask_0, at);
                    assert(stops_at(pass, walk(pass)->Ask_0, at));
                } else if exists|at: int| #[trigger]
                    leaves_round(rest, at) && walk(rest) == after_entries(
                        CleanupView { at: at as nat, ..rest },
                    ) {
                    let at = choose|at: int| #[trigger]
                        leaves_round(rest, at) && walk(rest) == after_entries(
                            CleanupView { at: at as nat, ..rest },
                        );
                    assert(leaves_round(pass, at));
                }
            } else if pass.visited == pass.max_entries {
                assert(leaves_round(pass, pass.at as int));
            } else if walk(pass) is Ask {
                assert(stops_at(pass, walk(pass)->Ask_0, pass.at as int));
            }
        }
    } else if pass.at == pass.entries.len() {
        assert(leaves_round(pass, pass.at as int));
    }
}

/// A pass goes through its round in the order of the listing and passes over nothing but markers of
/// retired intents: it next removes an unfinished file or reads a marker, or it leaves the round,
/// with nothing to make durable only where nothing was removed and nothing moved.
pub proof fn law_cleanup_passes_over_retired_markers_alone(pass: CleanupView)
    requires
        pass.at <= pass.entries.len(),
    ensures
        ({
            let step = walk(pass);
            ||| step is Finish && step->Finish_0 is Err
            ||| exists|at: int| step is Ask && #[trigger] stops_at(pass, step->Ask_0, at)
            ||| exists|at: int| #[trigger]
                leaves_round(pass, at) && (if pass.removed_temporary || pass.rotated {
                    step == CleanupStep::Ask(
                        CleanupView { phase: CleanupPhase::SyncingActive, at: at as nat, ..pass },
                    )
                } else {
                    step == CleanupStep::Finish(Ok(pass.pending))
                })
        }),
{
    lemma_walk(pass);
}

/// Behind each entry the pass goes on with the next: a removed file is noted, and a marker that was
/// moved is added to what is pending. A marker is moved only once it was inspected.
pub proof fn law_markers_are_inspected_then_moved(pass: CleanupView, facts: MarkerFacts)
    ensures
        pass.phase is Removing ==> cleanup_step(pass, CleanupEvent::Removed(Ok(()))) == walk(
            CleanupView { removed_temporary: true, at: pass.at + 1, ..pass },
        ),
        pass.phase is Inspecting ==> match inspected(
            pass.workspace_id,
            current_name(pass),
            facts,
        ) {
            Ok(one) => cleanup_step(pass, CleanupEvent::Marker(facts)) == CleanupStep::Ask(
                CleanupView { phase: CleanupPhase::Moving, moving: Some(one), ..pass },
            ),
            Err(error) => cleanup_step(pass, CleanupEvent::Marker(facts)) == CleanupStep::Finish(
                Err(error),
            ),
        },
        pass.phase is Moving && pass.moving is Some ==> cleanup_step(
            pass,
            CleanupEvent::Moved(Ok(())),
        ) == walk(
            CleanupView {
                rotated: true,
                pending: insert_pending(pass.pending, pass.moving->0),
                moving: None,
                at: pass.at + 1,
                ..pass
            },
        ),
{
}

/// What was removed or moved is made durable in the round it left, and what was moved also in the
/// round it went to, before the pass ends with what is pending.
pub proof fn law_cleanup_is_made_durable(pass: CleanupView)
    ensures
        pass.phase is SyncingActive && pass.rotated ==> cleanup_goes_on(
            pass,
            cleanup_step(pass, CleanupEvent::Synced(Ok(()))),
            CleanupPhase::SyncingInactive,
        ),
        pass.phase is SyncingActive && !pass.rotated ==> cleanup_step(
            pass,
            CleanupEvent::Synced(Ok(())),
        ) == CleanupStep::Finish(Ok(pass.pending)),
        pass.phase is SyncingInactive ==> cleanup_step(pass, CleanupEvent::Synced(Ok(())))
            == CleanupStep::Finish(Ok(pass.pending)),
{
}

/// A pass lists, reads, moves from and removes from the round that is active alone; it peeks into
/// the other round, and makes both durable.
pub proof fn law_cleanup_works_off_the_active_round(pass: CleanupView, action: CleanupAction)
    requires
        cleanup_asks(pass, action),
    ensures
        action is RemoveTemporary ==> action->RemoveTemporary_round == pass.active && pass.phase
            is Removing,
        action is ReadMarker ==> action->ReadMarker_round == pass.active && pass.phase
            is Inspecting,
        action is MoveMarker ==> action->from == pass.active && pass.phase is Moving,
        pass.phase is Listing ==> action == CleanupAction::ListRound(pass.active),
        pass.phase is Peeking ==> action is ListRound && action->ListRound_0 != pass.active,
        pass.phase is SyncingActive ==> action == CleanupAction::SyncRound(pass.active),
        pass.phase is SyncingInactive ==> action is SyncRound && action->SyncRound_0
            != pass.active,
{
}

/// A marker that is taken over is written canonically, under the name of its intent and attempt; its
/// file was reserved by an attempt of that intent, whose own record is the one with that identity;
/// and no other marker of that name is in the other round.
pub proof fn law_taken_over_marker_is_sound(
    workspace_id: WorkspaceId,
    name: String,
    facts: MarkerFacts,
)
    requires
        inspected(workspace_id, name, facts) is Ok,
    ensures
        ({
            let one = inspected(workspace_id, name, facts)->Ok_0;
            &&& facts.read is Ok
            &&& facts.read->Ok_0 is Some
            &&& facts.read->Ok_0->0.parsed.decoded is Ok
            &&& one.record == facts.read->Ok_0->0.parsed.decoded->Ok_0.evidence
            &&& facts.read->Ok_0->0.parsed.encoded is Ok
            &&& facts.read->Ok_0->0.parsed.encoded->Ok_0@ == facts.read->Ok_0->0.bytes@
            &&& one.record.recovery_resource_id is Some
            &&& name@ == hex_text(one.record.intent_id.digest.spec_bytes()) + "."@ + simple_text(
                one.record.attempt_id.value,
            ) + ".cleanup"@
            &&& facts.intent is Ok
            &&& facts.intent->Ok_0 is Some
            &&& facts.intent->Ok_0->0.decoded is Ok
            &&& one.intent == facts.intent->Ok_0->0.decoded->Ok_0
            &&& one.intent@.workspace_id == workspace_id
            &&& facts.intent->Ok_0->0.intent_id is Ok
            &&& facts.intent->Ok_0->0.intent_id->Ok_0 == one.record.intent_id
            &&& facts.attempts is Ok
            &&& is_reserved_record(
                one.intent@,
                one.record.intent_id,
                one.record,
                facts.attempts->Ok_0@,
            )
            &&& facts.other_round is Ok
            &&& !facts.other_round->Ok_0
        }),
{
    let one = inspected(workspace_id, name, facts)->Ok_0;
    let attempts = facts.attempts->Ok_0@;
    crate::evidence_laws::lemma_attempt_found(attempts, one.record.attempt_id, 0);
    let at = crate::attempts::first_attempt(attempts, one.record.attempt_id, 0)->0;
    assert(attempts[at].attempt_id == one.record.attempt_id);
    assert(one.record@.recovery_filename == one.record.recovery_filename@);
    assert(one.record@.target_path.text == one.record.target_path.text@);
}

/// Whether what is pending stands in order: by intent, and by attempt where the intent is the same.
pub open spec fn pending_ascends(pending: Seq<PendingCleanup>) -> bool {
    forall|a: int, b: int|
        0 <= a < b < pending.len() ==> !record_before(
            (#[trigger] pending[b]).record,
            (#[trigger] pending[a]).record,
        )
}

/// The order of records is transitive the way that inserting needs it.
proof fn lemma_not_before(a: PendingCleanup, b: PendingCleanup, c: PendingCleanup)
    requires
        !record_before(b.record, a.record),
        record_before(c.record, a.record),
    ensures
        !record_before(b.record, c.record),
{
}

/// What is pending is handed out in order, by intent and attempt, and adding to it adds exactly
/// that one.
pub proof fn law_pending_is_in_order(pending: Seq<PendingCleanup>, one: PendingCleanup)
    requires
        pending_ascends(pending),
    ensures
        pending_ascends(insert_pending(pending, one)),
        insert_pending(pending, one).len() == pending.len() + 1,
        forall|other: PendingCleanup| #[trigger]
            insert_pending(pending, one).contains(other) <==> other == one || pending.contains(
                other,
            ),
    decreases pending.len(),
{
    let grown = insert_pending(pending, one);
    if pending.len() > 0 && record_before(one.record, pending.last().record) {
        let front = pending.drop_last();
        let rest = insert_pending(front, one);
        law_pending_is_in_order(front, one);
        assert forall|other: PendingCleanup| #[trigger] grown.contains(other) <==> other == one
            || pending.contains(other) by {
            if grown.contains(other) {
                let k = grown.index_of(other);
                if k < rest.len() {
                    assert(rest[k] == other);
                    assert(rest.contains(other));
                    if front.contains(other) {
                        let j = front.index_of(other);
                        assert(pending[j] == other);
                    }
                } else {
                    assert(pending[pending.len() - 1] == other);
                }
            }
            if other == one || pending.contains(other) {
                if other != one && other != pending.last() {
                    let j = pending.index_of(other);
                    assert(front[j] == other);
                    assert(front.contains(other));
                }
                if other == one || front.contains(other) {
                    assert(rest.contains(other));
                    let k = rest.index_of(other);
                    assert(grown[k] == other);
                } else {
                    assert(grown[rest.len() as int] == other);
                }
            }
        }
        assert forall|a: int, b: int| 0 <= a < b < grown.len() implies !record_before(
            (#[trigger] grown[b]).record,
            (#[trigger] grown[a]).record,
        ) by {
            if b == rest.len() {
                assert(rest[a] == grown[a] && rest.contains(rest[a]));
                if grown[a] != one {
                    let j = front.index_of(rest[a]);
                    assert(pending[j] == rest[a] && pending[pending.len() - 1] == pending.last());
                }
            } else {
                assert(grown[a] == rest[a] && grown[b] == rest[b]);
            }
        }
    } else {
        assert forall|a: int, b: int| 0 <= a < b < grown.len() implies !record_before(
            (#[trigger] grown[b]).record,
            (#[trigger] grown[a]).record,
        ) by {
            if b == pending.len() && a < pending.len() - 1 {
                assert(grown[a] == pending[a] && pending[pending.len() - 1] == pending.last());
                if record_before(one.record, pending[a].record) {
                    lemma_not_before(pending[a], pending.last(), one);
                    lemma_before_last(pending[a], pending.last(), one);
                }
            }
        }
        assert forall|other: PendingCleanup| #[trigger] grown.contains(other) <==> other == one
            || pending.contains(other) by {
            if grown.contains(other) {
                let k = grown.index_of(other);
                if k < pending.len() {
                    assert(pending[k] == other);
                }
            }
            if other == one {
                assert(grown[pending.len() as int] == other);
            } else if pending.contains(other) {
                let k = pending.index_of(other);
                assert(grown[k] == other);
            }
        }
    }
}

/// What comes before a record comes before all that do not come before that one.
proof fn lemma_before_last(a: PendingCleanup, last: PendingCleanup, one: PendingCleanup)
    requires
        !record_before(last.record, a.record),
        record_before(one.record, a.record),
    ensures
        record_before(one.record, last.record),
{
}

/// The rounds open only where their state was written canonically and is of this store, this
/// directory and these two rounds.
pub proof fn law_rounds_open_by_their_own_state(
    root: Result<(), ProjectionStoreError>,
    stored: Result<Option<StoredRoundState>, ProjectionStoreError>,
    rounds: Result<RoundIdentities, ProjectionStoreError>,
    store_id: crate::ids::ProjectionReceiptStoreId,
    namespace_identity: Digest,
)
    requires
        opened_rounds(root, stored, rounds, store_id, namespace_identity) is Ok,
    ensures
        ({
            let state = opened_rounds(root, stored, rounds, store_id, namespace_identity)->Ok_0;
            &&& root is Ok
            &&& stored is Ok
            &&& stored->Ok_0 is Some
            &&& stored->Ok_0->0.decoded == Ok::<_, String>(state)
            &&& stored->Ok_0->0.encoded is Ok
            &&& stored->Ok_0->0.encoded->Ok_0@ == stored->Ok_0->0.bytes@
            &&& rounds is Ok
            &&& state.schema_version == 1
            &&& state.active_round == 0 || state.active_round == 1
            &&& state.store_id == store_id
            &&& state.namespace_identity == namespace_identity
            &&& state.first_identity == rounds->Ok_0.first
            &&& state.second_identity == rounds->Ok_0.second
        }),
{
}

/// A marker is written into the round that is not being worked off, where neither round has it; it
/// stays where one round has it with the same bytes, and is refused in every other case.
pub proof fn law_marker_is_in_one_round(
    active: Round,
    first: Option<Seq<u8>>,
    second: Option<Seq<u8>>,
    bytes: Seq<u8>,
)
    ensures
        ({
            let published = marker_publication(active, first, second, bytes);
            &&& first is None && second is None ==> published is Ok && published->Ok_0 is Write
                && published->Ok_0->Write_0 != active
            &&& first is Some != second is Some ==> (published is Ok && published->Ok_0 is Exists
                <==> first == Some(bytes) || second == Some(bytes))
            &&& first is Some || second is Some ==> published is Err || published->Ok_0 is Exists
            &&& first is Some && second is Some ==> published is Err
            &&& published is Err ==> published->Err_0 is ForensicBindingMismatch
        }),
{
}

} // verus!
