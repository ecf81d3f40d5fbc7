//! Completions: what a projection left behind once it was carried out.

use vstd::prelude::*;

use crate::annotation::ReceiptError;
use crate::hash::BlobDescription;
use crate::ids::ProjectionIntentId;
use crate::intent::{ProjectionIntent, ProjectionIntentView, ProjectionTargetKind};
use crate::plan::ProjectionPlan;

verus! {

/// That an intent was carried out.
#[derive(Clone, Copy, Debug, PartialEq, Eq, Structural)]
pub struct ProjectionCompletion {
    pub intent_id: ProjectionIntentId,
    pub target_kind: ProjectionTargetKind,
    pub target: BlobDescription,
}

/// Whether a completion is that of an intent with the given identity.
pub open spec fn completes(
    completion: ProjectionCompletion,
    intent: ProjectionIntentView,
    intent_id: ProjectionIntentId,
) -> bool {
    completion == (ProjectionCompletion {
        intent_id,
        target_kind: intent.target_kind,
        target: intent.target,
    })
}

impl ProjectionCompletion {
    /// The completion of an intent that left `bytes`. They must be those that the intent declares.
    pub fn for_intent(intent: &ProjectionIntent, intent_id: ProjectionIntentId, bytes: &[u8]) -> (completion:
        Result<ProjectionCompletion, ReceiptError>)
        ensures
            match completion {
                Ok(completion) => BlobDescription::spec_of(bytes@) == intent.target && completes(
                    completion,
                    intent@,
                    intent_id,
                ),
                Err(error) => BlobDescription::spec_of(bytes@) != intent.target && error
                    == ReceiptError::CompletionMismatch,
            },
    {
        if BlobDescription::of(bytes) != intent.target {
            return Err(ReceiptError::CompletionMismatch);
        }
        Ok(
            ProjectionCompletion {
                intent_id,
                target_kind: intent.target_kind,
                target: intent.target,
            },
        )
    }

    /// Whether a file was left.
    pub fn target_kind(&self) -> (target_kind: ProjectionTargetKind)
        ensures
            target_kind == self.target_kind,
    {
        self.target_kind
    }

    /// Checks that the completion is that of an intent with the given identity.
    pub fn validate_against(&self, intent: &ProjectionIntent, intent_id: ProjectionIntentId) -> (checked:
        Result<(), ReceiptError>)
        ensures
            checked == (if completes(*self, intent@, intent_id) {
                Ok(())
            } else {
                Err(ReceiptError::CompletionMismatch)
            }),
    {
        if self.intent_id != intent_id || self.target_kind != intent.target_kind || self.target
            != intent.target {
            return Err(ReceiptError::CompletionMismatch);
        }
        Ok(())
    }
}

/// A plan that was carried out, with its completion.
#[derive(Debug, PartialEq, Eq)]
pub struct ProjectionWrite {
    pub plan: ProjectionPlan,
    pub completion: ProjectionCompletion,
}

} // verus!
