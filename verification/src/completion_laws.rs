//! What holds of publishing a completion, and of what is recorded of displaced files.

use vstd::prelude::*;

use crate::attempts::ProjectionAttemptReservation;
use crate::completion_run::{
    completion_asks, completion_goes, completion_step, CompletionAction, CompletionEvent,
    CompletionPhase, CompletionRun, CompletionStep,
};
use crate::evidence::{
    attempt_with_file, completion_record, published_record, ProjectionRecoveryEvidence,
};
use crate::hash::{sha256, Digest};
use crate::ids::ProjectionIntentId;
use crate::intent::ProjectionIntentView;
use crate::path::sibling;
use crate::store_error::ProjectionStoreError;
use crate::text::hex_text;

verus! {

/// Whether an event answers what a run waits for.
pub open spec fn answers_completion(phase: CompletionPhase, event: CompletionEvent) -> bool {
    match phase {
        CompletionPhase::CheckingLive | CompletionPhase::CheckingAfter => event is Live,
        CompletionPhase::PublishingMarker
        | CompletionPhase::PublishingEvidence
        | CompletionPhase::PublishingCompletion => event is Published,
        CompletionPhase::Encoding => event is Encoded,
        CompletionPhase::Retiring => event is Retired,
        CompletionPhase::Done => false,
    }
}

/// Why an event refuses what was asked for, if it does.
pub open spec fn refused_completion(event: CompletionEvent) -> Option<ProjectionStoreError> {
    match event {
        CompletionEvent::Live(Err(error)) => Some(error),
        CompletionEvent::Published(Err(error)) => Some(error),
        CompletionEvent::Encoded(Err(error)) => Some(ProjectionStoreError::Receipt(error)),
        CompletionEvent::Retired(Err(error)) => Some(error),
        _ => None,
    }
}

/// Publishing ends with the first refusal, for its reason; an event that answers nothing leaves the
/// run waiting for what it waits for.
pub proof fn law_publishing_ends_with_the_first_refusal(
    run: CompletionRun,
    event: CompletionEvent,
)
    ensures
        answers_completion(run.phase, event) && refused_completion(event) is Some
            ==> completion_step(run, event) == CompletionStep::Finish(
            Err(refused_completion(event)->0),
        ),
        !answers_completion(run.phase, event) ==> completion_step(run, event)
            == CompletionStep::Ask(run.phase, run.index as nat),
{
}

/// Nothing is published unless what was written is what the intent asks for: at its path, of its
/// digest and of its length.
pub proof fn law_only_the_intended_bytes_are_completed(run: CompletionRun)
    requires
        run.phase is CheckingLive,
        run.write_proof.bytes@.len() <= u64::MAX,
    ensures
        ({
            let step = completion_step(run, CompletionEvent::Live(Ok(())));
            let written = run.write_proof;
            let exact = written.path@ == run.intent@.path.text && written.digest
                == run.intent@.target.sha256 && written.digest == Digest::spec_from(
                sha256(written.bytes@),
            ) && written.bytes@.len() == run.intent@.target.byte_length;
            &&& step is Ask ==> exact
            &&& !exact ==> step == CompletionStep::Finish(
                Err(ProjectionStoreError::WriteProofMismatch),
            )
        }),
{
}

/// The first attempt with a file name has that name.
proof fn lemma_attempt_with_file(
    attempts: Seq<ProjectionAttemptReservation>,
    filename: Seq<char>,
    at: int,
)
    requires
        0 <= at,
    ensures
        match attempt_with_file(attempts, filename, at) {
            Some(found) => at <= found < attempts.len() && attempts[found].recovery_filename@
                == filename && forall|k: int|
                at <= k < found ==> (#[trigger] attempts[k]).recovery_filename@ != filename,
            None => forall|k: int|
                at <= k < attempts.len() ==> (#[trigger] attempts[k]).recovery_filename@
                    != filename,
        },
    decreases attempts.len() - at,
{
    if at < attempts.len() && attempts[at].recovery_filename@ != filename {
        lemma_attempt_with_file(attempts, filename, at + 1);
    }
}

/// A displaced file is recorded under the first attempt that its name was reserved for, as what it
/// is and where it lies: beside the page. One that no attempt reserved, that lies elsewhere or that
/// is longer than evidence may be is refused.
pub proof fn law_displaced_file_is_recorded_under_its_attempt(
    intent: ProjectionIntentView,
    intent_id: ProjectionIntentId,
    attempts: Seq<ProjectionAttemptReservation>,
    evidence: ProjectionRecoveryEvidence,
)
    ensures
        ({
            let recorded = completion_record(intent, intent_id, attempts, evidence);
            let reserved = exists|k: int|
                0 <= k < attempts.len() && (#[trigger] attempts[k]).recovery_filename@
                    == evidence.filename@;
            &&& !reserved <==> recorded is Err
                && recorded->Err_0 is UnreservedRecoveryEvidence
            &&& recorded is Ok <==> reserved && evidence.path@ == sibling(
                intent.path.text,
                evidence.filename@,
            ) && evidence.len <= 64 * 1024 * 1024
            &&& recorded is Ok ==> {
                let record = recorded->Ok_0;
                &&& record.intent_id == intent_id
                &&& record.target_path == intent.path
                &&& record.recovery_relative_path == evidence.path@
                &&& record.recovery_filename == evidence.filename@
                &&& record.recovery_resource_id == evidence.resource_id
                &&& record.observed.sha256 == evidence.digest
                &&& record.observed.byte_length == evidence.len
                &&& exists|k: int|
                    0 <= k < attempts.len() && (#[trigger] attempts[k]).attempt_id
                        == record.attempt_id && attempts[k].recovery_filename@
                        == evidence.filename@ && forall|j: int|
                        0 <= j < k ==> (#[trigger] attempts[j]).recovery_filename@
                            != evidence.filename@
            }
        }),
{
    lemma_attempt_with_file(attempts, evidence.filename@, 0);
}

/// What is published of a displaced file while an attempt is active is of that attempt alone, and of
/// a file whose handle is known.
pub proof fn law_active_attempt_binds_the_displaced_file(
    intent_id: ProjectionIntentId,
    reservation: ProjectionAttemptReservation,
    evidence: ProjectionRecoveryEvidence,
)
    ensures
        ({
            let published = published_record(intent_id, reservation, evidence);
            &&& published is Ok <==> evidence.resource_id is Some && evidence.filename@
                == reservation.recovery_filename@ && evidence.path@ == sibling(
                reservation.target_path.text@,
                evidence.filename@,
            )
            &&& published is Ok ==> published->Ok_0.intent_id == intent_id
                && published->Ok_0.attempt_id == reservation.attempt_id
                && published->Ok_0.recovery_relative_path == evidence.path@
                && published->Ok_0.recovery_filename == evidence.filename@
                && published->Ok_0.recovery_resource_id == evidence.resource_id
                && published->Ok_0.observed.sha256 == evidence.digest
                && published->Ok_0.observed.byte_length == evidence.len
        }),
{
}

/// Every displaced file is recorded before the completion is encoded, one after another and none
/// left out: a file whose handle is known gets a marker first, every file a record. The first that
/// cannot be recorded ends the run.
pub proof fn law_displaced_files_are_recorded_first(run: CompletionRun, event: CompletionEvent)
    requires
        run.phase is PublishingMarker || run.phase is PublishingEvidence,
        event == CompletionEvent::Published(Ok(())),
        run.index < run.write_proof.recovery_evidence@.len(),
    ensures
        ({
            let files = run.write_proof.recovery_evidence@;
            let step = completion_step(run, event);
            let next = run.index + 1;
            &&& run.phase is PublishingMarker ==> step == CompletionStep::Ask(
                CompletionPhase::PublishingEvidence,
                run.index as nat,
            )
            &&& run.phase is PublishingEvidence && next == files.len() ==> step
                == CompletionStep::Ask(CompletionPhase::Encoding, next as nat)
            &&& run.phase is PublishingEvidence && next < files.len() ==> {
                let recorded = completion_record(
                    run.intent@,
                    run.intent_id,
                    run.authority.reservations@,
                    files[next],
                );
                &&& recorded is Err ==> step == CompletionStep::Finish(Err(recorded->Err_0))
                &&& recorded is Ok && files[next].resource_id is Some ==> step
                    == CompletionStep::Ask(CompletionPhase::PublishingMarker, next as nat)
                &&& recorded is Ok && files[next].resource_id is None ==> step
                    == CompletionStep::Ask(CompletionPhase::PublishingEvidence, next as nat)
            }
        }),
{
}

/// The first displaced file is recorded first; where there is none, the completion is encoded.
pub proof fn law_first_displaced_file_comes_first(run: CompletionRun)
    requires
        run.phase is CheckingLive,
        completion_step(run, CompletionEvent::Live(Ok(()))) is Ask,
    ensures
        ({
            let files = run.write_proof.recovery_evidence@;
            let step = completion_step(run, CompletionEvent::Live(Ok(())));
            &&& step->Ask_1 == 0
            &&& files.len() == 0 ==> step->Ask_0 is Encoding
            &&& files.len() > 0 && files[0].resource_id is Some ==> step->Ask_0 is PublishingMarker
            &&& files.len() > 0 && files[0].resource_id is None
                ==> step->Ask_0 is PublishingEvidence
        }),
{
}

/// A completion is published once it is encoded and not too long, then the authority is checked
/// again, and only then is its record removed; the run ends well with that, and with the completion
/// of the intent.
pub proof fn law_completion_is_published_before_the_authority_goes(
    run: CompletionRun,
    bytes: Vec<u8>,
)
    requires
        bytes@.len() <= u64::MAX,
    ensures
        ({
            let at = run.index as nat;
            let encoded = completion_step(run, CompletionEvent::Encoded(Ok(bytes)));
            let published = completion_step(run, CompletionEvent::Published(Ok(())));
            let live = completion_step(run, CompletionEvent::Live(Ok(())));
            let retired = completion_step(run, CompletionEvent::Retired(Ok(())));
            &&& run.phase is Encoding && bytes@.len() <= 64 * 1024 * 1024 ==> encoded
                == CompletionStep::Ask(CompletionPhase::PublishingCompletion, at)
            &&& run.phase is Encoding && bytes@.len() > 64 * 1024 * 1024 ==> encoded is Finish
                && encoded->Finish_0 is Err && encoded->Finish_0->Err_0 is EvidenceTooLarge
            &&& run.phase is PublishingCompletion ==> published == CompletionStep::Ask(
                CompletionPhase::CheckingAfter,
                at,
            )
            &&& run.phase is CheckingAfter ==> live == CompletionStep::Ask(
                CompletionPhase::Retiring,
                at,
            )
            &&& run.phase is Retiring ==> retired is Finish && retired->Finish_0 is Ok
                && retired->Finish_0->Ok_0.intent_id == run.intent_id
                && retired->Finish_0->Ok_0.target_kind == run.intent@.target_kind
                && retired->Finish_0->Ok_0.target == run.intent@.target
        }),
{
}

/// A run ends well only by removing the authority's record, and says that its completion was
/// published only once the authority was found live behind the publication.
pub proof fn law_publishing_ends_well_in_one_way(
    before: CompletionRun,
    event: CompletionEvent,
    after: CompletionRun,
    action: CompletionAction,
)
    requires
        completion_goes(before, completion_step(before, event), after, action),
    ensures
        action is Finish && action->Finish_0 is Ok ==> before.phase is Retiring
            && event is Retired && event->Retired_0 is Ok,
        after.authority.completion_published && !before.authority.completion_published
            ==> before.phase is CheckingAfter && event is Live && event->Live_0 is Ok
            && action is RetireAuthority,
        action is RetireAuthority && before.phase is CheckingAfter && event is Live && event->Live_0 is Ok
            ==> after.authority.completion_published,
{
}

/// A completion is published under the hexadecimal digest of its intent.
pub proof fn law_completion_is_named_by_its_intent(run: CompletionRun, action: CompletionAction)
    requires
        run.phase is PublishingCompletion,
        completion_asks(run, action),
    ensures
        action is PublishCompletion,
        action->PublishCompletion_0@ == hex_text(run.intent_id.digest.spec_bytes())
            + ".completion"@,
{
}

} // verus!
