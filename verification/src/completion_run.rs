//! Publishing a completion: what was displaced is recorded first, the completion is published next,
//! and the authority's own record is removed last.

use vstd::prelude::*;

use crate::annotation::ReceiptError;
use crate::authority::{completion_check, ProjectionMutationAuthority, StoreBinding};
use crate::completion::{completes, ProjectionCompletion};
use crate::evidence::{
    cleanup_bound, completion_record, length_check, prepare_completion_record, proof_is_of,
    require_evidence_length, require_write_proof, EvidenceRecordView,
    LocalProjectionEvidenceRecord, ProjectionWriteProof, MAX_PROJECTION_EVIDENCE_BYTES,
};
use crate::hash::BlobDescription;
use crate::ids::ProjectionIntentId;
use crate::intent::ProjectionIntent;
use crate::names::{completion_filename, evidence_name};
use crate::store_error::ProjectionStoreError;

verus! {

/// How far a publication has come.
#[derive(Clone, Copy, Debug, PartialEq, Eq, Structural)]
pub enum CompletionPhase {
    CheckingLive,
    PublishingMarker,
    PublishingEvidence,
    Encoding,
    PublishingCompletion,
    CheckingAfter,
    Retiring,
    Done,
}

/// What a publication has to do, or find out, next.
#[derive(Debug, PartialEq, Eq)]
pub enum CompletionAction {
    /// Check that the authority is still live.
    CheckLive,
    /// Publish the marker of a displaced file.
    PublishMarker(LocalProjectionEvidenceRecord),
    /// Publish the record of a displaced file.
    PublishEvidence(LocalProjectionEvidenceRecord),
    /// Encode the completion.
    Encode(ProjectionCompletion),
    /// Publish the encoded completion under this name.
    PublishCompletion(String),
    /// Remove the authority's own record.
    RetireAuthority,
    /// The publication has ended.
    Finish(Result<ProjectionCompletion, ProjectionStoreError>),
}

/// What came of what a publication asked for.
#[derive(Debug, PartialEq, Eq)]
pub enum CompletionEvent {
    Live(Result<(), ProjectionStoreError>),
    Published(Result<(), ProjectionStoreError>),
    Encoded(Result<Vec<u8>, ReceiptError>),
    Retired(Result<(), ProjectionStoreError>),
}

/// A publication of a completion.
#[derive(Debug, PartialEq, Eq)]
pub struct CompletionRun {
    pub authority: ProjectionMutationAuthority,
    pub intent: ProjectionIntent,
    pub intent_id: ProjectionIntentId,
    pub write_proof: ProjectionWriteProof,
    pub index: usize,
    pub phase: CompletionPhase,
}

/// Where a publication goes next: a phase at a displaced file, or its end.
pub enum CompletionStep {
    Ask(CompletionPhase, nat),
    Finish(Result<ProjectionCompletion, ProjectionStoreError>),
}

/// The record of a displaced file, or why it is refused.
pub open spec fn record_at(run: CompletionRun, index: nat) -> Result<
    EvidenceRecordView,
    ProjectionStoreError,
> {
    completion_record(
        run.intent@,
        run.intent_id,
        run.authority.reservations@,
        run.write_proof.recovery_evidence@[index as int],
    )
}

/// Where a publication goes with a displaced file: what has yet to be cleaned up gets a marker
/// first. After the last one the completion is encoded.
pub open spec fn with_file(run: CompletionRun, index: nat) -> CompletionStep {
    if index >= run.write_proof.recovery_evidence@.len() {
        CompletionStep::Ask(CompletionPhase::Encoding, index)
    } else {
        match record_at(run, index) {
            Err(error) => CompletionStep::Finish(Err(error)),
            Ok(record) => if cleanup_bound(record) {
                CompletionStep::Ask(CompletionPhase::PublishingMarker, index)
            } else {
                CompletionStep::Ask(CompletionPhase::PublishingEvidence, index)
            },
        }
    }
}

/// The completion of the intent.
pub open spec fn completion_of(run: CompletionRun) -> ProjectionCompletion {
    ProjectionCompletion {
        intent_id: run.intent_id,
        target_kind: run.intent@.target_kind,
        target: run.intent@.target,
    }
}

/// Where a publication goes on an event. An event that answers nothing that was asked changes
/// nothing.
pub open spec fn completion_step(run: CompletionRun, event: CompletionEvent) -> CompletionStep {
    let index = run.index as nat;
    match (run.phase, event) {
        (CompletionPhase::CheckingLive, CompletionEvent::Live(live)) => match live {
            Err(error) => CompletionStep::Finish(Err(error)),
            Ok(()) => if !proof_is_of(run.write_proof, run.intent@) {
                CompletionStep::Finish(Err(ProjectionStoreError::WriteProofMismatch))
            } else {
                with_file(run, 0)
            },
        },
        (CompletionPhase::PublishingMarker, CompletionEvent::Published(published)) => {
            match published {
                Err(error) => CompletionStep::Finish(Err(error)),
                Ok(()) => CompletionStep::Ask(CompletionPhase::PublishingEvidence, index),
            }
        },
        (CompletionPhase::PublishingEvidence, CompletionEvent::Published(published)) => {
            match published {
                Err(error) => CompletionStep::Finish(Err(error)),
                Ok(()) => with_file(run, index + 1),
            }
        },
        (CompletionPhase::Encoding, CompletionEvent::Encoded(encoded)) => match encoded {
            Err(error) => CompletionStep::Finish(Err(ProjectionStoreError::Receipt(error))),
            Ok(bytes) => match length_check(
                "projection completion",
                bytes@.len() as u64,
                MAX_PROJECTION_EVIDENCE_BYTES,
            ) {
                Err(error) => CompletionStep::Finish(Err(error)),
                Ok(()) => CompletionStep::Ask(CompletionPhase::PublishingCompletion, index),
            },
        },
        (CompletionPhase::PublishingCompletion, CompletionEvent::Published(published)) => {
            match published {
                Err(error) => CompletionStep::Finish(Err(error)),
                Ok(()) => CompletionStep::Ask(CompletionPhase::CheckingAfter, index),
            }
        },
        (CompletionPhase::CheckingAfter, CompletionEvent::Live(live)) => match live {
            Err(error) => CompletionStep::Finish(Err(error)),
            Ok(()) => CompletionStep::Ask(CompletionPhase::Retiring, index),
        },
        (CompletionPhase::Retiring, CompletionEvent::Retired(retired)) => match retired {
            Err(error) => CompletionStep::Finish(Err(error)),
            Ok(()) => CompletionStep::Finish(Ok(completion_of(run))),
        },
        _ => CompletionStep::Ask(run.phase, index),
    }
}

/// What holds of a publication between two events: in the phases of a displaced file it has one
/// whose record is accepted.
pub open spec fn completion_wf(run: CompletionRun) -> bool {
    (run.phase is PublishingMarker || run.phase is PublishingEvidence) ==> run.index
        < run.write_proof.recovery_evidence@.len() && record_at(run, run.index as nat) is Ok
}

/// Whether an action is what a publication asks for.
pub open spec fn completion_asks(run: CompletionRun, action: CompletionAction) -> bool {
    match run.phase {
        CompletionPhase::CheckingLive => action == CompletionAction::CheckLive,
        CompletionPhase::PublishingMarker => {
            &&& action is PublishMarker
            &&& action->PublishMarker_0@ == record_at(run, run.index as nat)->Ok_0
        },
        CompletionPhase::PublishingEvidence => {
            &&& action is PublishEvidence
            &&& action->PublishEvidence_0@ == record_at(run, run.index as nat)->Ok_0
        },
        CompletionPhase::Encoding => action == CompletionAction::Encode(completion_of(run)),
        CompletionPhase::PublishingCompletion => {
            &&& action is PublishCompletion
            &&& action->PublishCompletion_0@ == evidence_name(
                run.intent_id.digest,
                ".completion"@,
            )
        },
        CompletionPhase::CheckingAfter => action == CompletionAction::CheckLive,
        CompletionPhase::Retiring => action == CompletionAction::RetireAuthority,
        CompletionPhase::Done => action == CompletionAction::Finish(
            Err(ProjectionStoreError::MutationAuthorityMismatch),
        ),
    }
}

/// Whether a publication is still of the same intent under the same authority.
pub open spec fn same_publication(before: CompletionRun, after: CompletionRun) -> bool {
    &&& after.intent == before.intent
    &&& after.intent_id == before.intent_id
    &&& after.write_proof == before.write_proof
    &&& after.authority.reservations == before.authority.reservations
    &&& after.authority.durable == before.authority.durable
    &&& after.authority.durable_bytes == before.authority.durable_bytes
    &&& after.authority.reservation_bytes == before.authority.reservation_bytes
    &&& after.authority.active == before.authority.active
    &&& after.authority.created_durable_record == before.authority.created_durable_record
    &&& after.authority.graph_operation_consumed == before.authority.graph_operation_consumed
}

/// Whether a publication is where it goes next and asks for that, or has ended. The completion
/// counts as published from the second check on.
pub open spec fn completion_goes(
    before: CompletionRun,
    step: CompletionStep,
    after: CompletionRun,
    action: CompletionAction,
) -> bool {
    &&& same_publication(before, after)
    &&& completion_wf(after)
    &&& match step {
        CompletionStep::Ask(phase, index) => {
            &&& after.phase == phase
            &&& after.index == index
            &&& completion_asks(after, action)
            &&& after.authority.completion_published == (before.authority.completion_published || (
            before.phase is CheckingAfter && phase is Retiring))
        },
        CompletionStep::Finish(outcome) => {
            &&& after.phase is Done
            &&& action == CompletionAction::Finish(outcome)
            &&& after.authority.completion_published == before.authority.completion_published
        },
    }
}

/// A completion is published only after the record of every displaced file was.
pub proof fn law_completion_follows_the_records(run: CompletionRun, event: CompletionEvent)
    requires
        !(run.phase is Encoding),
        completion_step(run, event) is Ask,
        completion_step(run, event)->Ask_0 is Encoding,
    ensures
        completion_step(run, event)->Ask_1 >= run.write_proof.recovery_evidence@.len(),
        run.write_proof.recovery_evidence@.len() > 0 ==> run.phase is PublishingEvidence && run.index
            + 1 >= run.write_proof.recovery_evidence@.len() && event is Published,
{
}

/// What a publication that ends well hands out is the completion of its intent, and the target is
/// what the proof says that the file holds.
pub proof fn law_published_completion_is_of_the_intent(run: CompletionRun, event: CompletionEvent)
    requires
        completion_step(run, event) is Finish,
        completion_step(run, event)->Finish_0 is Ok,
    ensures
        completes(completion_step(run, event)->Finish_0->Ok_0, run.intent@, run.intent_id),
        run.phase is Retiring,
{
}

impl CompletionRun {
    /// Starts to publish a completion under an authority, which must have been used and must be of
    /// the store and the intent.
    pub fn publish_completion(
        authority: ProjectionMutationAuthority,
        store: &StoreBinding,
        intent: ProjectionIntent,
        intent_id: ProjectionIntentId,
        intent_bytes: Result<Vec<u8>, ReceiptError>,
        write_proof: ProjectionWriteProof,
    ) -> (started: (CompletionRun, CompletionAction))
        ensures
            started.0.authority == authority,
            started.0.intent == intent,
            started.0.intent_id == intent_id,
            started.0.write_proof == write_proof,
            started.0.index == 0,
            completion_wf(started.0),
            match completion_check(authority, *store, intent_id, intent_bytes) {
                Err(error) => started.0.phase is Done && started.1 == CompletionAction::Finish(
                    Err(error),
                ),
                Ok(()) => if !authority.graph_operation_consumed {
                    started.0.phase is Done && started.1 == CompletionAction::Finish(
                        Err(ProjectionStoreError::MutationAuthorityMismatch),
                    )
                } else {
                    started.0.phase is CheckingLive && started.1 == CompletionAction::CheckLive
                },
            },
    {
        let checked = match authority.require_store_and_intent(store, intent_id, intent_bytes) {
            Err(error) => Err(error),
            Ok(()) => authority.require_consumed(),
        };
        match checked {
            Err(error) => (
                CompletionRun {
                    authority,
                    intent,
                    intent_id,
                    write_proof,
                    index: 0,
                    phase: CompletionPhase::Done,
                },
                CompletionAction::Finish(Err(error)),
            ),
            Ok(()) => (
                CompletionRun {
                    authority,
                    intent,
                    intent_id,
                    write_proof,
                    index: 0,
                    phase: CompletionPhase::CheckingLive,
                },
                CompletionAction::CheckLive,
            ),
        }
    }

    /// Starts to publish a completion from a replay: the replayed bytes must be the intent's target
    /// too.
    pub fn reconstruct_completion(
        authority: ProjectionMutationAuthority,
        store: &StoreBinding,
        intent: ProjectionIntent,
        intent_id: ProjectionIntentId,
        intent_bytes: Result<Vec<u8>, ReceiptError>,
        replayed_target: &[u8],
        write_proof: ProjectionWriteProof,
    ) -> (started: (CompletionRun, CompletionAction))
        ensures
            started.0.authority == authority,
            started.0.intent == intent,
            started.0.intent_id == intent_id,
            started.0.write_proof == write_proof,
            started.0.index == 0,
            completion_wf(started.0),
            if BlobDescription::spec_of(replayed_target@) != intent@.target {
                started.0.phase is Done && started.1 == CompletionAction::Finish(
                    Err(ProjectionStoreError::RecoveryTargetMismatch),
                )
            } else if !proof_is_of(write_proof, intent@) {
                started.0.phase is Done && started.1 == CompletionAction::Finish(
                    Err(ProjectionStoreError::WriteProofMismatch),
                )
            } else {
                match completion_check(authority, *store, intent_id, intent_bytes) {
                    Err(error) => started.0.phase is Done && started.1 == CompletionAction::Finish(
                        Err(error),
                    ),
                    Ok(()) => if !authority.graph_operation_consumed {
                        started.0.phase is Done && started.1 == CompletionAction::Finish(
                            Err(ProjectionStoreError::MutationAuthorityMismatch),
                        )
                    } else {
                        started.0.phase is CheckingLive && started.1 == CompletionAction::CheckLive
                    },
                }
            },
    {
        let checked = if BlobDescription::of(replayed_target) != intent.target {
            Err(ProjectionStoreError::RecoveryTargetMismatch)
        } else {
            require_write_proof(&intent, &write_proof)
        };
        match checked {
            Err(error) => (
                CompletionRun {
                    authority,
                    intent,
                    intent_id,
                    write_proof,
                    index: 0,
                    phase: CompletionPhase::Done,
                },
                CompletionAction::Finish(Err(error)),
            ),
            Ok(()) => CompletionRun::publish_completion(
                authority,
                store,
                intent,
                intent_id,
                intent_bytes,
                write_proof,
            ),
        }
    }

    /// The completion of the intent.
    fn completion(&self) -> (completion: ProjectionCompletion)
        ensures
            completion == completion_of(*self),
    {
        ProjectionCompletion {
            intent_id: self.intent_id,
            target_kind: self.intent.target_kind,
            target: self.intent.target,
        }
    }

    /// The record of the displaced file that the publication is at.
    fn record(&self) -> (record: Result<LocalProjectionEvidenceRecord, ProjectionStoreError>)
        requires
            self.index < self.write_proof.recovery_evidence@.len(),
        ensures
            match record_at(*self, self.index as nat) {
                Err(error) => record == Err::<LocalProjectionEvidenceRecord, _>(error),
                Ok(view) => record is Ok && record->Ok_0@ == view,
            },
    {
        prepare_completion_record(
            &self.intent,
            self.intent_id,
            &self.authority.reservations,
            &self.write_proof.recovery_evidence[self.index],
        )
    }

    /// What the publication asks for.
    pub fn asks(&self) -> (action: CompletionAction)
        requires
            completion_wf(*self),
        ensures
            completion_asks(*self, action),
    {
        match self.phase {
            CompletionPhase::CheckingLive => CompletionAction::CheckLive,
            CompletionPhase::PublishingMarker => match self.record() {
                Ok(record) => CompletionAction::PublishMarker(record),
                Err(error) => CompletionAction::Finish(Err(error)),
            },
            CompletionPhase::PublishingEvidence => match self.record() {
                Ok(record) => CompletionAction::PublishEvidence(record),
                Err(error) => CompletionAction::Finish(Err(error)),
            },
            CompletionPhase::Encoding => CompletionAction::Encode(self.completion()),
            CompletionPhase::PublishingCompletion => CompletionAction::PublishCompletion(
                completion_filename(self.intent_id),
            ),
            CompletionPhase::CheckingAfter => CompletionAction::CheckLive,
            CompletionPhase::Retiring => CompletionAction::RetireAuthority,
            CompletionPhase::Done => CompletionAction::Finish(
                Err(ProjectionStoreError::MutationAuthorityMismatch),
            ),
        }
    }

    /// Ends the publication.
    fn finish(&mut self, outcome: Result<ProjectionCompletion, ProjectionStoreError>) -> (action:
        CompletionAction)
        ensures
            completion_goes(*old(self), CompletionStep::Finish(outcome), *final(self), action),
    {
        self.phase = CompletionPhase::Done;
        CompletionAction::Finish(outcome)
    }

    /// Goes on with the displaced file that the publication is at now.
    fn go_on(&mut self) -> (action: CompletionAction)
        requires
            !(old(self).phase is CheckingAfter),
        ensures
            completion_goes(
                *old(self),
                with_file(*old(self), old(self).index as nat),
                *final(self),
                action,
            ),
    {
        if self.index >= self.write_proof.recovery_evidence.len() {
            self.phase = CompletionPhase::Encoding;
            return self.asks();
        }
        match self.record() {
            Err(error) => self.finish(Err(error)),
            Ok(record) => {
                if record.is_cleanup_bound() {
                    self.phase = CompletionPhase::PublishingMarker;
                    CompletionAction::PublishMarker(record)
                } else {
                    self.phase = CompletionPhase::PublishingEvidence;
                    CompletionAction::PublishEvidence(record)
                }
            },
        }
    }

    /// Takes an event and says what comes next.
    pub fn advance(&mut self, event: CompletionEvent) -> (action: CompletionAction)
        requires
            completion_wf(*old(self)),
        ensures
            completion_goes(
                *old(self),
                completion_step(*old(self), event),
                *final(self),
                action,
            ),
    {
        match (self.phase, event) {
            (CompletionPhase::CheckingLive, CompletionEvent::Live(live)) => {
                if let Err(error) = live {
                    return self.finish(Err(error));
                }
                if let Err(error) = require_write_proof(&self.intent, &self.write_proof) {
                    return self.finish(Err(error));
                }
                self.index = 0;
                return self.go_on();
            },
            (CompletionPhase::PublishingMarker, CompletionEvent::Published(published)) => {
                if let Err(error) = published {
                    return self.finish(Err(error));
                }
                self.phase = CompletionPhase::PublishingEvidence;
            },
            (CompletionPhase::PublishingEvidence, CompletionEvent::Published(published)) => {
                if let Err(error) = published {
                    return self.finish(Err(error));
                }
                let displaced: usize = self.write_proof.recovery_evidence.len();
                assert(self.index < displaced);
                self.index = self.index + 1;
                return self.go_on();
            },
            (CompletionPhase::Encoding, CompletionEvent::Encoded(encoded)) => {
                let bytes = match encoded {
                    Err(error) => return self.finish(Err(ProjectionStoreError::Receipt(error))),
                    Ok(bytes) => bytes,
                };
                if let Err(error) = require_evidence_length(
                    "projection completion",
                    bytes.len() as u64,
                    MAX_PROJECTION_EVIDENCE_BYTES,
                ) {
                    return self.finish(Err(error));
                }
                self.phase = CompletionPhase::PublishingCompletion;
            },
            (CompletionPhase::PublishingCompletion, CompletionEvent::Published(published)) => {
                if let Err(error) = published {
                    return self.finish(Err(error));
                }
                self.phase = CompletionPhase::CheckingAfter;
            },
            (CompletionPhase::CheckingAfter, CompletionEvent::Live(live)) => {
                if let Err(error) = live {
                    return self.finish(Err(error));
                }
                self.authority.completion_published = true;
                self.phase = CompletionPhase::Retiring;
            },
            (CompletionPhase::Retiring, CompletionEvent::Retired(retired)) => {
                if let Err(error) = retired {
                    return self.finish(Err(error));
                }
                let completion = self.completion();
                return self.finish(Ok(completion));
            },
            _ => {},
        }
        self.asks()
    }
}

} // verus!
