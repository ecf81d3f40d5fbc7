//! One bounded pass over pending cleanup.

use vstd::prelude::*;

use crate::attempts::{EntryKind, ProjectionAttemptReservation};
use crate::evidence::{
    cleanup_bound, cleanup_name, decode_pending_cleanup_marker, record_verdict, stored_marker,
    validate_forensic_record, LocalProjectionEvidenceRecord, ParsedMarker,
};
use crate::ids::{ProjectionIntentId, WorkspaceId};
use crate::intent::ProjectionIntent;
use crate::names::{
    begins_with, ends_with_text, evidence_name, finishes_with, is_temp_name, name_evidence,
    names_temp, starts_with_text, PENDING_CLEANUP_SUFFIX,
};
use crate::rounds::Round;
use crate::store::{intent_by_id, load_intent_of, ProjectionReceiptStore, StoredIntent};
use crate::store_error::{EntryFault, ProjectionStoreError};
use crate::summary::NamedEntry;
use crate::text::same_text;

verus! {

/// How many entries one pass visits at most in the ordinary case.
pub const MAX_PENDING_PROJECTION_CLEANUP_PER_PASS: usize = 64;

/// A displaced file that is still to be cleaned up, with the intent that displaced it.
#[derive(Debug, PartialEq, Eq)]
pub struct PendingCleanup {
    pub intent: ProjectionIntent,
    pub record: LocalProjectionEvidenceRecord,
}

/// What reading a marker gave: its bytes with what parsing them gave, its intent, that intent's
/// attempts, and whether the other round holds a marker of the same name.
#[derive(Debug, PartialEq, Eq)]
pub struct MarkerFacts {
    pub read: Result<Option<ReadMarker>, ProjectionStoreError>,
    pub intent: Result<Option<StoredIntent>, ProjectionStoreError>,
    pub attempts: Result<Vec<ProjectionAttemptReservation>, ProjectionStoreError>,
    pub other_round: Result<bool, ProjectionStoreError>,
}

/// The bytes of a marker, with what parsing them gave.
#[derive(Debug, PartialEq, Eq)]
pub struct ReadMarker {
    pub bytes: Vec<u8>,
    pub parsed: ParsedMarker,
}

/// An entry of a round, or why it could not be listed.
pub type ListedEntry = Result<NamedEntry, ProjectionStoreError>;

/// How far a pass has come.
#[derive(Clone, Copy, Debug, PartialEq, Eq, Structural)]
pub enum CleanupPhase {
    Opening { flipped: bool },
    Listing { flipped: bool },
    Peeking,
    Flipping,
    Removing,
    Inspecting,
    Moving,
    SyncingActive,
    SyncingInactive,
    Done,
}

/// What a pass has to do, or find out, next.
#[derive(Debug, PartialEq, Eq)]
pub enum CleanupAction {
    /// Open the rounds.
    OpenRounds,
    /// List a round.
    ListRound(Round),
    /// Have the other round worked off from now on.
    Flip,
    /// Remove a file of a round that was never finished.
    RemoveTemporary { round: Round, name: String },
    /// Read a marker of a round.
    ReadMarker { round: Round, name: String },
    /// Move a marker out of a round into the other one.
    MoveMarker { from: Round, name: String },
    /// Make what happened to a round durable.
    SyncRound(Round),
    /// The pass has ended.
    Finish(Result<Vec<PendingCleanup>, ProjectionStoreError>),
}

/// What came of what a pass asked for.
#[derive(Debug, PartialEq, Eq)]
pub enum CleanupEvent {
    Opened(Result<Round, ProjectionStoreError>),
    Listed(Result<Vec<ListedEntry>, ProjectionStoreError>),
    Flipped(Result<(), ProjectionStoreError>),
    Removed(Result<(), ProjectionStoreError>),
    Marker(MarkerFacts),
    Moved(Result<(), ProjectionStoreError>),
    Synced(Result<(), ProjectionStoreError>),
}

/// A pass over pending cleanup.
#[derive(Debug, PartialEq, Eq)]
pub struct CleanupPass {
    pub workspace_id: WorkspaceId,
    pub retired: Vec<ProjectionIntentId>,
    pub max_entries: usize,
    pub phase: CleanupPhase,
    pub active: Round,
    pub entries: Vec<ListedEntry>,
    pub at: usize,
    pub visited: usize,
    pub removed_temporary: bool,
    pub rotated: bool,
    pub pending: Vec<PendingCleanup>,
    pub moving: Option<PendingCleanup>,
}

/// What a pass says.
#[verifier::ext_equal]
pub struct CleanupView {
    pub workspace_id: WorkspaceId,
    pub retired: Seq<ProjectionIntentId>,
    pub max_entries: nat,
    pub phase: CleanupPhase,
    pub active: Round,
    pub entries: Seq<ListedEntry>,
    pub at: nat,
    pub visited: nat,
    pub removed_temporary: bool,
    pub rotated: bool,
    pub pending: Seq<PendingCleanup>,
    pub moving: Option<PendingCleanup>,
}

impl View for CleanupPass {
    type V = CleanupView;

    open spec fn view(&self) -> CleanupView {
        CleanupView {
            workspace_id: self.workspace_id,
            retired: self.retired@,
            max_entries: self.max_entries as nat,
            phase: self.phase,
            active: self.active,
            entries: self.entries@,
            at: self.at as nat,
            visited: self.visited as nat,
            removed_temporary: self.removed_temporary,
            rotated: self.rotated,
            pending: self.pending@,
            moving: self.moving,
        }
    }
}

/// Where a pass goes next.
pub enum CleanupStep {
    Ask(CleanupView),
    Finish(Result<Seq<PendingCleanup>, ProjectionStoreError>),
}

/// Whether a marker's name is that of a retired intent.
pub open spec fn is_retired_marker(retired: Seq<ProjectionIntentId>, name: Seq<char>) -> bool {
    exists|i: int|
        0 <= i < retired.len() && begins_with(
            name,
            evidence_name((#[trigger] retired[i]).digest, "."@),
        )
}

/// The first entry from `at` on that is not of a retired intent, or why one before it is refused.
pub open spec fn first_live(
    retired: Seq<ProjectionIntentId>,
    entries: Seq<ListedEntry>,
    at: int,
) -> Result<Option<int>, ProjectionStoreError>
    decreases entries.len() - at,
{
    if at < 0 || at >= entries.len() {
        Ok(None)
    } else {
        match entries[at] {
            Err(error) => Err(error),
            Ok(entry) => match entry.name {
                None => Err(
                    ProjectionStoreError::UnsafeEntry(
                        EntryFault::Own("non-UTF-8 pending projection cleanup entry"),
                    ),
                ),
                Some(name) => if is_retired_marker(retired, name@) {
                    first_live(retired, entries, at + 1)
                } else {
                    Ok(Some(at))
                },
            },
        }
    }
}

/// The name of the entry that a pass is at.
pub open spec fn current_name(pass: CleanupView) -> String {
    pass.entries[pass.at as int]->Ok_0.name->0
}

/// Where a pass goes once it visits no more entries: what it changed is made durable first.
pub open spec fn after_entries(pass: CleanupView) -> CleanupStep {
    if pass.removed_temporary || pass.rotated {
        CleanupStep::Ask(CleanupView { phase: CleanupPhase::SyncingActive, ..pass })
    } else {
        CleanupStep::Finish(Ok(pass.pending))
    }
}

/// Where a pass goes from the entry that it is at: entries of retired intents are passed over, and
/// of the others no more are visited than there may be.
pub open spec fn walk(pass: CleanupView) -> CleanupStep
    decreases pass.entries.len() - pass.at,
{
    if pass.at >= pass.entries.len() {
        after_entries(pass)
    } else {
        match pass.entries[pass.at as int] {
            Err(error) => CleanupStep::Finish(Err(error)),
            Ok(entry) => match entry.name {
                None => CleanupStep::Finish(
                    Err(
                        ProjectionStoreError::UnsafeEntry(
                            EntryFault::Own("non-UTF-8 pending projection cleanup entry"),
                        ),
                    ),
                ),
                Some(name) => if is_retired_marker(pass.retired, name@) {
                    walk(CleanupView { at: pass.at + 1, ..pass })
                } else if pass.visited == pass.max_entries {
                    after_entries(pass)
                } else if !names_temp(name@) && !finishes_with(name@, PENDING_CLEANUP_SUFFIX@) {
                    CleanupStep::Finish(
                        Err(
                            ProjectionStoreError::UnsafeEntry(
                                EntryFault::Named {
                                    fault: "unknown pending projection cleanup entry",
                                    name,
                                },
                            ),
                        ),
                    )
                } else if entry.kind != EntryKind::File {
                    CleanupStep::Finish(
                        Err(
                            ProjectionStoreError::UnsafeEntry(
                                EntryFault::Named { fault: "entry is not a regular file", name },
                            ),
                        ),
                    )
                } else {
                    CleanupStep::Ask(
                        CleanupView {
                            phase: if names_temp(name@) {
                                CleanupPhase::Removing
                            } else {
                                CleanupPhase::Inspecting
                            },
                            visited: pass.visited + 1,
                            ..pass
                        },
                    )
                },
            },
        }
    }
}

/// The displaced file that a marker is of, or why the marker is refused: it must be named after its
/// record, its intent and attempt must be there, and the other round must not hold it too.
pub open spec fn inspected(workspace_id: WorkspaceId, name: String, facts: MarkerFacts) -> Result<
    PendingCleanup,
    ProjectionStoreError,
> {
    match facts.read {
        Err(error) => Err(error),
        Ok(None) => Err(
            ProjectionStoreError::UnsafeEntry(
                EntryFault::Named {
                    fault: "pending projection cleanup disappeared during enumeration",
                    name,
                },
            ),
        ),
        Ok(Some(read)) => match stored_marker(read.bytes@, read.parsed) {
            Err(error) => Err(error),
            Ok(marker) => {
                let record = marker.evidence;
                if !cleanup_bound(record@) || cleanup_name(record.intent_id, record.attempt_id)
                    != name@ {
                    Err(ProjectionStoreError::ForensicBindingMismatch)
                } else {
                    match intent_by_id(workspace_id, record.intent_id, facts.intent) {
                        Err(error) => Err(error),
                        Ok(intent) => match record_verdict(
                            intent@,
                            record.intent_id,
                            record@,
                            facts.attempts,
                        ) {
                            Err(error) => Err(error),
                            Ok(()) => match facts.other_round {
                                Err(error) => Err(error),
                                Ok(there) => if there {
                                    Err(ProjectionStoreError::ForensicBindingMismatch)
                                } else {
                                    Ok(PendingCleanup { intent, record })
                                },
                            },
                        },
                    }
                }
            },
        },
    }
}

/// Whether one record comes before another in the order of their intents and attempts.
pub open spec fn record_before(
    a: LocalProjectionEvidenceRecord,
    b: LocalProjectionEvidenceRecord,
) -> bool {
    a.intent_id.digest.spec_before(b.intent_id.digest) || (a.intent_id == b.intent_id
        && a.attempt_id.value < b.attempt_id.value)
}

/// Puts a displaced file behind every one that is not above it.
pub open spec fn insert_pending(sorted: Seq<PendingCleanup>, one: PendingCleanup) -> Seq<
    PendingCleanup,
>
    decreases sorted.len(),
{
    if sorted.len() > 0 && record_before(one.record, sorted.last().record) {
        insert_pending(sorted.drop_last(), one).push(sorted.last())
    } else {
        sorted.push(one)
    }
}

/// Where a pass goes while the rounds are opened, listed and flipped.
pub open spec fn cleanup_start_step(pass: CleanupView, event: CleanupEvent) -> CleanupStep {
    match (pass.phase, event) {
        (CleanupPhase::Opening { flipped }, CleanupEvent::Opened(opened)) => match opened {
            Err(error) => CleanupStep::Finish(Err(error)),
            Ok(active) => CleanupStep::Ask(
                CleanupView { phase: CleanupPhase::Listing { flipped }, active, ..pass },
            ),
        },
        (CleanupPhase::Listing { flipped }, CleanupEvent::Listed(listed)) => match listed {
            Err(error) => CleanupStep::Finish(Err(error)),
            Ok(entries) => match first_live(pass.retired, entries@, 0) {
                Err(error) => CleanupStep::Finish(Err(error)),
                Ok(None) => if flipped {
                    CleanupStep::Finish(Ok(Seq::empty()))
                } else {
                    CleanupStep::Ask(CleanupView { phase: CleanupPhase::Peeking, ..pass })
                },
                Ok(Some(at)) => walk(CleanupView { entries: entries@, at: at as nat, ..pass }),
            },
        },
        (CleanupPhase::Peeking, CleanupEvent::Listed(listed)) => match listed {
            Err(error) => CleanupStep::Finish(Err(error)),
            Ok(entries) => match first_live(pass.retired, entries@, 0) {
                Err(error) => CleanupStep::Finish(Err(error)),
                Ok(None) => CleanupStep::Finish(Ok(Seq::empty())),
                Ok(Some(_)) => CleanupStep::Ask(
                    CleanupView { phase: CleanupPhase::Flipping, ..pass },
                ),
            },
        },
        (CleanupPhase::Flipping, CleanupEvent::Flipped(flipped)) => match flipped {
            Err(error) => CleanupStep::Finish(Err(error)),
            Ok(()) => CleanupStep::Ask(
                CleanupView { phase: CleanupPhase::Opening { flipped: true }, ..pass },
            ),
        },
        _ => CleanupStep::Ask(pass),
    }
}

/// Where a pass goes while it visits entries and makes what it changed durable.
pub open spec fn cleanup_entry_step(pass: CleanupView, event: CleanupEvent) -> CleanupStep {
    match (pass.phase, event) {
        (CleanupPhase::Removing, CleanupEvent::Removed(removed)) => match removed {
            Err(error) => CleanupStep::Finish(Err(error)),
            Ok(()) => walk(CleanupView { removed_temporary: true, at: pass.at + 1, ..pass }),
        },
        (CleanupPhase::Inspecting, CleanupEvent::Marker(facts)) => match inspected(
            pass.workspace_id,
            current_name(pass),
            facts,
        ) {
            Err(error) => CleanupStep::Finish(Err(error)),
            Ok(one) => CleanupStep::Ask(
                CleanupView { phase: CleanupPhase::Moving, moving: Some(one), ..pass },
            ),
        },
        (CleanupPhase::Moving, CleanupEvent::Moved(moved)) => match moved {
            Err(error) => CleanupStep::Finish(Err(error)),
            Ok(()) => walk(
                CleanupView {
                    rotated: true,
                    pending: insert_pending(pass.pending, pass.moving->0),
                    moving: None,
                    at: pass.at + 1,
                    ..pass
                },
            ),
        },
        (CleanupPhase::SyncingActive, CleanupEvent::Synced(synced)) => match synced {
            Err(error) => CleanupStep::Finish(Err(error)),
            Ok(()) => if pass.rotated {
                CleanupStep::Ask(CleanupView { phase: CleanupPhase::SyncingInactive, ..pass })
            } else {
                CleanupStep::Finish(Ok(pass.pending))
            },
        },
        (CleanupPhase::SyncingInactive, CleanupEvent::Synced(synced)) => match synced {
            Err(error) => CleanupStep::Finish(Err(error)),
            Ok(()) => CleanupStep::Finish(Ok(pass.pending)),
        },
        _ => CleanupStep::Ask(pass),
    }
}

/// Where a pass goes on an event. An event that answers nothing that was asked changes nothing.
pub open spec fn cleanup_step(pass: CleanupView, event: CleanupEvent) -> CleanupStep {
    match pass.phase {
        CleanupPhase::Opening { .. } => cleanup_start_step(pass, event),
        CleanupPhase::Listing { .. } => cleanup_start_step(pass, event),
        CleanupPhase::Peeking => cleanup_start_step(pass, event),
        CleanupPhase::Flipping => cleanup_start_step(pass, event),
        _ => cleanup_entry_step(pass, event),
    }
}

/// What holds of a pass between two events.
pub open spec fn cleanup_wf(pass: CleanupView) -> bool {
    &&& pass.visited <= pass.max_entries <= usize::MAX
    &&& pass.pending.len() + (if pass.moving is Some {
        1int
    } else {
        0int
    }) <= pass.visited
    &&& (pass.phase is Removing || pass.phase is Inspecting || pass.phase is Moving) ==> {
        &&& pass.at < pass.entries.len()
        &&& pass.entries[pass.at as int] is Ok
        &&& pass.entries[pass.at as int]->Ok_0.name is Some
    }
    &&& pass.phase is Moving <==> pass.moving is Some
    &&& pass.phase is Inspecting ==> pass.pending.len() < pass.visited
}

/// Whether an action is what a pass asks for.
pub open spec fn cleanup_asks(pass: CleanupView, action: CleanupAction) -> bool {
    match pass.phase {
        CleanupPhase::Opening { .. } => action == CleanupAction::OpenRounds,
        CleanupPhase::Listing { .. } => action == CleanupAction::ListRound(pass.active),
        CleanupPhase::Peeking => action == CleanupAction::ListRound(pass.active.spec_other()),
        CleanupPhase::Flipping => action == CleanupAction::Flip,
        CleanupPhase::Removing => action == CleanupAction::RemoveTemporary {
            round: pass.active,
            name: current_name(pass),
        },
        CleanupPhase::Inspecting => action == CleanupAction::ReadMarker {
            round: pass.active,
            name: current_name(pass),
        },
        CleanupPhase::Moving => action == CleanupAction::MoveMarker {
            from: pass.active,
            name: current_name(pass),
        },
        CleanupPhase::SyncingActive => action == CleanupAction::SyncRound(pass.active),
        CleanupPhase::SyncingInactive => action == CleanupAction::SyncRound(
            pass.active.spec_other(),
        ),
        CleanupPhase::Done => finishes(action, Ok(Seq::empty())),
    }
}

/// Whether an action ends a pass with an outcome.
pub open spec fn finishes(
    action: CleanupAction,
    outcome: Result<Seq<PendingCleanup>, ProjectionStoreError>,
) -> bool {
    &&& action is Finish
    &&& match outcome {
        Err(error) => action->Finish_0 == Err::<Vec<PendingCleanup>, _>(error),
        Ok(pending) => action->Finish_0 is Ok && action->Finish_0->Ok_0@ == pending,
    }
}

/// Whether a pass is where it goes next and asks for that, or has ended.
pub open spec fn cleanup_goes(step: CleanupStep, after: CleanupView, action: CleanupAction) -> bool {
    &&& cleanup_wf(after)
    &&& match step {
        CleanupStep::Ask(next) => after == next && cleanup_asks(next, action),
        CleanupStep::Finish(outcome) => finishes(action, outcome) && after.phase is Done,
    }
}

/// Inserting adds one.
proof fn lemma_insert_pending_len(sorted: Seq<PendingCleanup>, one: PendingCleanup)
    ensures
        insert_pending(sorted, one).len() == sorted.len() + 1,
    decreases sorted.len(),
{
    if sorted.len() > 0 && record_before(one.record, sorted.last().record) {
        lemma_insert_pending_len(sorted.drop_last(), one);
    }
}

/// Inserting among the first `at` and keeping those behind is inserting among all.
proof fn lemma_insert_pending_at(sorted: Seq<PendingCleanup>, one: PendingCleanup, at: int)
    requires
        0 <= at <= sorted.len(),
        forall|i: int|
            at <= i < sorted.len() ==> record_before(one.record, (#[trigger] sorted[i]).record),
        at > 0 ==> !record_before(one.record, sorted[at - 1].record),
    ensures
        insert_pending(sorted, one) == sorted.insert(at, one),
    decreases sorted.len(),
{
    if sorted.len() > at {
        let front = sorted.drop_last();
        assert(sorted.last() == sorted[sorted.len() - 1]);
        assert forall|i: int| at <= i < front.len() implies record_before(
            one.record,
            (#[trigger] front[i]).record,
        ) by {
            assert(front[i] == sorted[i]);
        }
        lemma_insert_pending_at(front, one, at);
        assert(front.insert(at, one).push(sorted.last()) =~= sorted.insert(at, one));
    } else {
        assert(sorted.push(one) =~= sorted.insert(at, one));
    }
}

/// Where a pass goes from an entry it has visited no more than it may, and what it has found stays.
proof fn lemma_walk(pass: CleanupView)
    requires
        pass.visited <= pass.max_entries,
    ensures
        match walk(pass) {
            CleanupStep::Ask(next) => {
                &&& next.visited <= next.max_entries
                &&& next.max_entries == pass.max_entries
                &&& next.pending == pass.pending
                &&& next.moving == pass.moving
                &&& next.active == pass.active
                &&& next.phase is SyncingActive || next.phase is Removing || next.phase
                    is Inspecting
            },
            CleanupStep::Finish(outcome) => outcome is Ok ==> outcome->Ok_0 == pass.pending,
        },
    decreases pass.entries.len() - pass.at,
{
    if pass.at < pass.entries.len() {
        match pass.entries[pass.at as int] {
            Err(_) => {},
            Ok(entry) => match entry.name {
                None => {},
                Some(name) => {
                    if is_retired_marker(pass.retired, name@) {
                        lemma_walk(CleanupView { at: pass.at + 1, ..pass });
                    }
                },
            },
        }
    }
}

/// A pass hands out no more displaced files than it may visit entries.
pub proof fn law_pass_is_bounded(pass: CleanupView, event: CleanupEvent)
    requires
        cleanup_wf(pass),
        cleanup_step(pass, event) is Finish,
        cleanup_step(pass, event)->Finish_0 is Ok,
    ensures
        cleanup_step(pass, event)->Finish_0->Ok_0.len() <= pass.max_entries,
{
    match (pass.phase, event) {
        (CleanupPhase::Listing { .. }, CleanupEvent::Listed(listed)) => {
            if listed is Ok {
                match first_live(pass.retired, listed->Ok_0@, 0) {
                    Ok(Some(at)) => {
                        lemma_walk(
                            CleanupView { entries: listed->Ok_0@, at: at as nat, ..pass },
                        );
                    },
                    _ => {},
                }
            }
        },
        (CleanupPhase::Removing, CleanupEvent::Removed(_)) => {
            lemma_walk(CleanupView { removed_temporary: true, at: pass.at + 1, ..pass });
        },
        (CleanupPhase::Moving, CleanupEvent::Moved(_)) => {
            lemma_insert_pending_len(pass.pending, pass.moving->0);
            lemma_walk(
                CleanupView {
                    rotated: true,
                    pending: insert_pending(pass.pending, pass.moving->0),
                    moving: None,
                    at: pass.at + 1,
                    ..pass
                },
            );
        },
        _ => {},
    }
}

/// Where both rounds hold nothing but what retired intents left, a pass ends without a flip: the
/// state of the rounds is not written.
pub proof fn law_empty_queue_is_not_flipped(
    pass: CleanupView,
    active: Vec<ListedEntry>,
    inactive: Vec<ListedEntry>,
)
    requires
        pass.phase == (CleanupPhase::Listing { flipped: false }),
        first_live(pass.retired, active@, 0) == Ok::<Option<int>, ProjectionStoreError>(None),
        first_live(pass.retired, inactive@, 0) == Ok::<Option<int>, ProjectionStoreError>(None),
    ensures
        cleanup_step(pass, CleanupEvent::Listed(Ok(active))) == CleanupStep::Ask(
            CleanupView { phase: CleanupPhase::Peeking, ..pass },
        ),
        cleanup_step(
            CleanupView { phase: CleanupPhase::Peeking, ..pass },
            CleanupEvent::Listed(Ok(inactive)),
        ) == CleanupStep::Finish(Ok(Seq::empty())),
{
}

/// The rounds are flipped only where the round being worked off was found to be empty: a pass that
/// asks for a flip was peeking into the other round.
pub proof fn law_flip_follows_an_empty_round(pass: CleanupView, event: CleanupEvent)
    requires
        cleanup_wf(pass),
        !(pass.phase is Flipping),
        cleanup_step(pass, event) is Ask,
        cleanup_step(pass, event)->Ask_0.phase is Flipping,
    ensures
        pass.phase is Peeking,
{
    match (pass.phase, event) {
        (CleanupPhase::Listing { .. }, CleanupEvent::Listed(listed)) => {
            if listed is Ok {
                match first_live(pass.retired, listed->Ok_0@, 0) {
                    Ok(Some(at)) => {
                        lemma_walk(
                            CleanupView { entries: listed->Ok_0@, at: at as nat, ..pass },
                        );
                    },
                    _ => {},
                }
            }
        },
        (CleanupPhase::Removing, CleanupEvent::Removed(_)) => {
            lemma_walk(CleanupView { removed_temporary: true, at: pass.at + 1, ..pass });
        },
        (CleanupPhase::Moving, CleanupEvent::Moved(_)) => {
            lemma_walk(
                CleanupView {
                    rotated: true,
                    pending: insert_pending(pass.pending, pass.moving->0),
                    moving: None,
                    at: pass.at + 1,
                    ..pass
                },
            );
        },
        _ => {},
    }
}

/// Every displaced file that a pass hands out was moved into the other round first.
pub proof fn law_handed_out_markers_were_moved(pass: CleanupView, event: CleanupEvent)
    requires
        cleanup_wf(pass),
        cleanup_step(pass, event) is Ask,
        cleanup_step(pass, event)->Ask_0.pending != pass.pending,
    ensures
        pass.phase is Moving,
        event is Moved,
        event->Moved_0 is Ok,
        cleanup_step(pass, event)->Ask_0.pending == insert_pending(pass.pending, pass.moving->0),
        cleanup_step(pass, event)->Ask_0.rotated,
{
    match (pass.phase, event) {
        (CleanupPhase::Listing { .. }, CleanupEvent::Listed(listed)) => {
            if listed is Ok {
                match first_live(pass.retired, listed->Ok_0@, 0) {
                    Ok(Some(at)) => {
                        lemma_walk(
                            CleanupView { entries: listed->Ok_0@, at: at as nat, ..pass },
                        );
                    },
                    _ => {},
                }
            }
        },
        (CleanupPhase::Removing, CleanupEvent::Removed(_)) => {
            lemma_walk(CleanupView { removed_temporary: true, at: pass.at + 1, ..pass });
        },
        (CleanupPhase::Moving, CleanupEvent::Moved(moved)) => {
            let next = CleanupView {
                rotated: true,
                pending: insert_pending(pass.pending, pass.moving->0),
                moving: None,
                at: pass.at + 1,
                ..pass
            };
            lemma_walk(next);
            lemma_walk_keeps_rotated(next);
        },
        _ => {},
    }
}

/// Visiting entries does not forget that markers were moved.
proof fn lemma_walk_keeps_rotated(pass: CleanupView)
    requires
        pass.rotated,
    ensures
        walk(pass) is Ask ==> walk(pass)->Ask_0.rotated,
    decreases pass.entries.len() - pass.at,
{
    if pass.at < pass.entries.len() {
        match pass.entries[pass.at as int] {
            Err(_) => {},
            Ok(entry) => match entry.name {
                None => {},
                Some(name) => {
                    if is_retired_marker(pass.retired, name@) {
                        lemma_walk_keeps_rotated(CleanupView { at: pass.at + 1, ..pass });
                    }
                },
            },
        }
    }
}

/// Whether a marker's name is that of a retired intent.
fn marks_retired(retired: &Vec<ProjectionIntentId>, name: &str) -> (marks: bool)
    ensures
        marks == is_retired_marker(retired@, name@),
{
    let mut at: usize = 0;
    while at < retired.len()
        invariant
            at <= retired@.len(),
            forall|i: int|
                0 <= i < at ==> !begins_with(
                    name@,
                    evidence_name((#[trigger] retired@[i]).digest, "."@),
                ),
        decreases retired@.len() - at,
    {
        let prefix = name_evidence(retired[at].digest, ".");
        if starts_with_text(name, prefix.as_str()) {
            assert(begins_with(name@, evidence_name(retired@[at as int].digest, "."@)));
            return true;
        }
        at = at + 1;
    }
    false
}

/// The entries of a round, with the first that is not of a retired intent.
#[derive(Debug, PartialEq, Eq)]
pub struct LiveSearch {
    pub entries: Vec<ListedEntry>,
    pub at: Option<usize>,
}

/// Finds the first entry that is not of a retired intent.
pub fn next_non_retired_pending_entry(
    retired: &Vec<ProjectionIntentId>,
    entries: Vec<ListedEntry>,
) -> (found: Result<LiveSearch, ProjectionStoreError>)
    ensures
        match first_live(retired@, entries@, 0) {
            Err(error) => found == Err::<LiveSearch, _>(error),
            Ok(None) => found is Ok && found->Ok_0.at is None,
            Ok(Some(at)) => {
                &&& found is Ok
                &&& found->Ok_0.entries == entries
                &&& found->Ok_0.at is Some
                &&& found->Ok_0.at->0 == at
                &&& at < entries@.len()
            },
        },
{
    let mut listed = entries;
    let mut at: usize = 0;
    while at < listed.len()
        invariant
            at <= listed@.len(),
            listed == entries,
            first_live(retired@, entries@, 0) == first_live(retired@, entries@, at as int),
        decreases listed@.len() - at,
    {
        let verdict = match &listed[at] {
            Err(_) => None,
            Ok(entry) => match &entry.name {
                None => {
                    return Err(
                        ProjectionStoreError::UnsafeEntry(
                            EntryFault::Own("non-UTF-8 pending projection cleanup entry"),
                        ),
                    );
                },
                Some(name) => Some(marks_retired(retired, name.as_str())),
            },
        };
        match verdict {
            None => {
                if let Err(error) = listed.swap_remove(at) {
                    return Err(error);
                }
                assert(false);
                return Ok(LiveSearch { entries: listed, at: None });
            },
            Some(is_retired) => {
                if !is_retired {
                    return Ok(LiveSearch { entries: listed, at: Some(at) });
                }
            },
        }
        at = at + 1;
    }
    Ok(LiveSearch { entries: listed, at: None })
}

/// Whether one record comes before another.
fn record_in_order(a: &LocalProjectionEvidenceRecord, b: &LocalProjectionEvidenceRecord) -> (before:
    bool)
    ensures
        before == record_before(*a, *b),
{
    let x = a.intent_id.digest;
    let y = b.intent_id.digest;
    x.high < y.high || (x.high == y.high && x.low < y.low) || (a.intent_id == b.intent_id
        && a.attempt_id.value < b.attempt_id.value)
}

/// Checks a marker.
fn inspect(workspace_id: WorkspaceId, name: &String, facts: MarkerFacts) -> (inspection: Result<
    PendingCleanup,
    ProjectionStoreError,
>)
    ensures
        inspection == inspected(workspace_id, *name, facts),
{
    let read = match facts.read {
        Err(error) => return Err(error),
        Ok(None) => return Err(
            ProjectionStoreError::UnsafeEntry(
                EntryFault::Named {
                    fault: "pending projection cleanup disappeared during enumeration",
                    name: name.clone(),
                },
            ),
        ),
        Ok(Some(read)) => read,
    };
    let marker = match decode_pending_cleanup_marker(read.bytes.as_slice(), read.parsed) {
        Err(error) => return Err(error),
        Ok(marker) => marker,
    };
    let record = marker.evidence;
    if !record.is_cleanup_bound() || !same_text(
        record.pending_cleanup_filename().as_str(),
        name.as_str(),
    ) {
        return Err(ProjectionStoreError::ForensicBindingMismatch);
    }
    let intent = match load_intent_of(workspace_id, record.intent_id, facts.intent) {
        Err(error) => return Err(error),
        Ok(intent) => intent,
    };
    if let Err(error) = validate_forensic_record(
        &intent,
        record.intent_id,
        &record,
        facts.attempts,
    ) {
        return Err(error);
    }
    match facts.other_round {
        Err(error) => Err(error),
        Ok(there) => if there {
            Err(ProjectionStoreError::ForensicBindingMismatch)
        } else {
            Ok(PendingCleanup { intent, record })
        },
    }
}

impl CleanupPass {
    /// Ends the pass.
    fn finish(&mut self, outcome: Result<Vec<PendingCleanup>, ProjectionStoreError>) -> (action:
        CleanupAction)
        requires
            old(self).visited <= old(self).max_entries,
        ensures
            action == CleanupAction::Finish(outcome),
            final(self).phase is Done,
            cleanup_wf(final(self)@),
    {
        self.phase = CleanupPhase::Done;
        self.pending = Vec::new();
        self.moving = None;
        CleanupAction::Finish(outcome)
    }

    /// A copy of the name of the entry that the pass is at.
    fn name(&self) -> (name: String)
        requires
            self.at < self.entries@.len(),
            self.entries@[self.at as int] is Ok,
            self.entries@[self.at as int]->Ok_0.name is Some,
        ensures
            name == current_name(self@),
    {
        match &self.entries[self.at] {
            Ok(entry) => match &entry.name {
                Some(name) => name.clone(),
                None => String::new(),
            },
            Err(_) => String::new(),
        }
    }

    /// What the pass asks for.
    pub fn asks(&self) -> (action: CleanupAction)
        requires
            cleanup_wf(self@),
        ensures
            cleanup_asks(self@, action),
    {
        match self.phase {
            CleanupPhase::Opening { .. } => CleanupAction::OpenRounds,
            CleanupPhase::Listing { .. } => CleanupAction::ListRound(self.active),
            CleanupPhase::Peeking => CleanupAction::ListRound(self.active.other()),
            CleanupPhase::Flipping => CleanupAction::Flip,
            CleanupPhase::Removing => CleanupAction::RemoveTemporary {
                round: self.active,
                name: self.name(),
            },
            CleanupPhase::Inspecting => CleanupAction::ReadMarker {
                round: self.active,
                name: self.name(),
            },
            CleanupPhase::Moving => CleanupAction::MoveMarker {
                from: self.active,
                name: self.name(),
            },
            CleanupPhase::SyncingActive => CleanupAction::SyncRound(self.active),
            CleanupPhase::SyncingInactive => CleanupAction::SyncRound(self.active.other()),
            CleanupPhase::Done => CleanupAction::Finish(Ok(Vec::new())),
        }
    }

    /// Ends the pass with what it found.
    fn hand_out(&mut self) -> (action: CleanupAction)
        requires
            old(self).visited <= old(self).max_entries,
        ensures
            finishes(action, Ok(old(self)@.pending)),
            final(self).phase is Done,
            cleanup_wf(final(self)@),
    {
        let mut pending: Vec<PendingCleanup> = Vec::new();
        std::mem::swap(&mut pending, &mut self.pending);
        self.finish(Ok(pending))
    }

    /// Goes on from the entry that the pass is at.
    fn go_on(&mut self) -> (action: CleanupAction)
        requires
            old(self).visited <= old(self).max_entries,
            old(self).pending@.len() <= old(self).visited,
            old(self).moving is None,
        ensures
            cleanup_goes(walk(old(self)@), final(self)@, action),
    {
        let ghost start = self@;
        while self.at < self.entries.len()
            invariant
                start == old(self)@,
                walk(start) == walk(self@),
                self.visited <= self.max_entries,
                self.pending@.len() <= self.visited,
                self.moving is None,
            decreases self.entries@.len() - self.at,
        {
            let failed = match &self.entries[self.at] {
                Err(_) => true,
                Ok(_) => false,
            };
            if failed {
                let at: usize = self.at;
                if let Err(error) = self.entries.swap_remove(at) {
                    return self.finish(Err(error));
                }
                assert(false);
                return self.finish(Ok(Vec::new()));
            }
            let (named, kind) = match &self.entries[self.at] {
                Err(_) => (None, EntryKind::Other),
                Ok(entry) => match &entry.name {
                    None => (None, entry.kind),
                    Some(name) => (Some(name.clone()), entry.kind),
                },
            };
            let name = match named {
                None => return self.finish(
                    Err(
                        ProjectionStoreError::UnsafeEntry(
                            EntryFault::Own("non-UTF-8 pending projection cleanup entry"),
                        ),
                    ),
                ),
                Some(name) => name,
            };
            if marks_retired(&self.retired, name.as_str()) {
                self.at = self.at + 1;
            } else {
                if self.visited == self.max_entries {
                    return self.end_entries();
                }
                let temporary = is_temp_name(name.as_str());
                if !temporary && !ends_with_text(name.as_str(), PENDING_CLEANUP_SUFFIX) {
                    return self.finish(
                        Err(
                            ProjectionStoreError::UnsafeEntry(
                                EntryFault::Named {
                                    fault: "unknown pending projection cleanup entry",
                                    name,
                                },
                            ),
                        ),
                    );
                }
                if kind != EntryKind::File {
                    return self.finish(
                        Err(
                            ProjectionStoreError::UnsafeEntry(
                                EntryFault::Named { fault: "entry is not a regular file", name },
                            ),
                        ),
                    );
                }
                self.visited = self.visited + 1;
                self.phase = if temporary {
                    CleanupPhase::Removing
                } else {
                    CleanupPhase::Inspecting
                };
                return self.asks();
            }
        }
        self.end_entries()
    }

    /// Goes on once no more entries are visited.
    fn end_entries(&mut self) -> (action: CleanupAction)
        requires
            old(self).visited <= old(self).max_entries,
            old(self).pending@.len() <= old(self).visited,
            old(self).moving is None,
        ensures
            cleanup_goes(after_entries(old(self)@), final(self)@, action),
    {
        if self.removed_temporary || self.rotated {
            self.phase = CleanupPhase::SyncingActive;
            return self.asks();
        }
        self.hand_out()
    }

    /// Puts a displaced file among the others.
    fn keep(&mut self, one: PendingCleanup)
        ensures
            final(self)@ == (CleanupView {
                pending: insert_pending(old(self)@.pending, one),
                ..old(self)@
            }),
            final(self)@.pending.len() == old(self)@.pending.len() + 1,
    {
        let mut at: usize = self.pending.len();
        while at > 0 && record_in_order(&one.record, &self.pending[at - 1].record)
            invariant
                at <= self.pending@.len(),
                *self == *old(self),
                forall|i: int|
                    at <= i < self.pending@.len() ==> record_before(
                        one.record,
                        (#[trigger] self.pending@[i]).record,
                    ),
            decreases at,
        {
            at = at - 1;
        }
        proof {
            lemma_insert_pending_at(self.pending@, one, at as int);
        }
        self.pending.insert(at, one);
    }

    /// Takes an event while the rounds are opened, listed and flipped.
    fn advance_start(&mut self, event: CleanupEvent) -> (action: CleanupAction)
        requires
            cleanup_wf(old(self)@),
            old(self).moving is None,
        ensures
            cleanup_goes(cleanup_start_step(old(self)@, event), final(self)@, action),
    {
        match (self.phase, event) {
            (CleanupPhase::Opening { flipped }, CleanupEvent::Opened(opened)) => match opened {
                Err(error) => self.finish(Err(error)),
                Ok(active) => {
                    self.active = active;
                    self.phase = CleanupPhase::Listing { flipped };
                    self.asks()
                },
            },
            (CleanupPhase::Listing { flipped }, CleanupEvent::Listed(listed)) => {
                let entries = match listed {
                    Err(error) => return self.finish(Err(error)),
                    Ok(entries) => entries,
                };
                let found = match next_non_retired_pending_entry(&self.retired, entries) {
                    Err(error) => return self.finish(Err(error)),
                    Ok(found) => found,
                };
                match found.at {
                    None => {
                        if flipped {
                            return self.finish(Ok(Vec::new()));
                        }
                        self.phase = CleanupPhase::Peeking;
                        self.asks()
                    },
                    Some(at) => {
                        self.entries = found.entries;
                        self.at = at;
                        self.go_on()
                    },
                }
            },
            (CleanupPhase::Peeking, CleanupEvent::Listed(listed)) => {
                let entries = match listed {
                    Err(error) => return self.finish(Err(error)),
                    Ok(entries) => entries,
                };
                match next_non_retired_pending_entry(&self.retired, entries) {
                    Err(error) => self.finish(Err(error)),
                    Ok(found) => {
                        if found.at.is_none() {
                            return self.finish(Ok(Vec::new()));
                        }
                        self.phase = CleanupPhase::Flipping;
                        self.asks()
                    },
                }
            },
            (CleanupPhase::Flipping, CleanupEvent::Flipped(flipped)) => match flipped {
                Err(error) => self.finish(Err(error)),
                Ok(()) => {
                    self.phase = CleanupPhase::Opening { flipped: true };
                    self.asks()
                },
            },
            _ => self.asks(),
        }
    }

    /// Takes an event while entries are visited and what was changed is made durable.
    fn advance_entry(&mut self, event: CleanupEvent) -> (action: CleanupAction)
        requires
            cleanup_wf(old(self)@),
        ensures
            cleanup_goes(cleanup_entry_step(old(self)@, event), final(self)@, action),
    {
        let listed: usize = self.entries.len();
        assert(self.at < self.entries@.len() ==> self.at < listed);
        match (self.phase, event) {
            (CleanupPhase::Removing, CleanupEvent::Removed(removed)) => match removed {
                Err(error) => self.finish(Err(error)),
                Ok(()) => {
                    self.removed_temporary = true;
                    self.at = self.at + 1;
                    self.go_on()
                },
            },
            (CleanupPhase::Inspecting, CleanupEvent::Marker(facts)) => {
                let name = self.name();
                match inspect(self.workspace_id, &name, facts) {
                    Err(error) => self.finish(Err(error)),
                    Ok(one) => {
                        self.moving = Some(one);
                        self.phase = CleanupPhase::Moving;
                        self.asks()
                    },
                }
            },
            (CleanupPhase::Moving, CleanupEvent::Moved(moved)) => match moved {
                Err(error) => self.finish(Err(error)),
                Ok(()) => {
                    self.rotated = true;
                    let mut moving: Option<PendingCleanup> = None;
                    std::mem::swap(&mut moving, &mut self.moving);
                    if let Some(one) = moving {
                        self.keep(one);
                    }
                    self.at = self.at + 1;
                    self.go_on()
                },
            },
            (CleanupPhase::SyncingActive, CleanupEvent::Synced(synced)) => match synced {
                Err(error) => self.finish(Err(error)),
                Ok(()) => {
                    if self.rotated {
                        self.phase = CleanupPhase::SyncingInactive;
                        return self.asks();
                    }
                    self.hand_out()
                },
            },
            (CleanupPhase::SyncingInactive, CleanupEvent::Synced(synced)) => match synced {
                Err(error) => self.finish(Err(error)),
                Ok(()) => self.hand_out(),
            },
            _ => self.asks(),
        }
    }

    /// Takes an event and says what comes next.
    pub fn advance(&mut self, event: CleanupEvent) -> (action: CleanupAction)
        requires
            cleanup_wf(old(self)@),
        ensures
            cleanup_goes(cleanup_step(old(self)@, event), final(self)@, action),
    {
        match self.phase {
            CleanupPhase::Opening { .. } => self.advance_start(event),
            CleanupPhase::Listing { .. } => self.advance_start(event),
            CleanupPhase::Peeking => self.advance_start(event),
            CleanupPhase::Flipping => self.advance_start(event),
            _ => self.advance_entry(event),
        }
    }
}

impl ProjectionReceiptStore {
    /// A pass over the store's pending cleanup that visits no more than the given number of
    /// entries, before anything was asked. Where that number is zero it has ended.
    pub fn pending_projection_cleanup_bounded(&self, max_entries: usize) -> (pass: CleanupPass)
        ensures
            pass@ == (CleanupView {
                workspace_id: self.workspace_id,
                retired: self.retired_own_endpoint_intents@,
                max_entries: max_entries as nat,
                phase: if max_entries == 0 {
                    CleanupPhase::Done
                } else {
                    CleanupPhase::Opening { flipped: false }
                },
                active: Round::First,
                entries: Seq::empty(),
                at: 0,
                visited: 0,
                removed_temporary: false,
                rotated: false,
                pending: Seq::empty(),
                moving: None,
            }),
            cleanup_wf(pass@),
    {
        let mut retired: Vec<ProjectionIntentId> = Vec::new();
        let mut at: usize = 0;
        while at < self.retired_own_endpoint_intents.len()
            invariant
                at <= self.retired_own_endpoint_intents@.len(),
                retired@ == self.retired_own_endpoint_intents@.take(at as int),
            decreases self.retired_own_endpoint_intents@.len() - at,
        {
            retired.push(self.retired_own_endpoint_intents[at]);
            at = at + 1;
            assert(retired@ =~= self.retired_own_endpoint_intents@.take(at as int));
        }
        assert(retired@ =~= self.retired_own_endpoint_intents@);
        CleanupPass {
            workspace_id: self.workspace_id,
            retired,
            max_entries,
            phase: if max_entries == 0 {
                CleanupPhase::Done
            } else {
                CleanupPhase::Opening { flipped: false }
            },
            active: Round::First,
            entries: Vec::new(),
            at: 0,
            visited: 0,
            removed_temporary: false,
            rotated: false,
            pending: Vec::new(),
            moving: None,
        }
    }
}

} // verus!
