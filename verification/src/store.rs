//! The receipt store: what it accepts of the intents, bases and completions that it holds.

use vstd::prelude::*;

use crate::annotation::ReceiptError;
use crate::attempts::{
    loaded_attempts, load_attempt_reservations_from, reservation_choice,
    reserve_deterministic_attempt, turn_attempt_id, AttemptChoice, AttemptEntry,
    ProjectionAttemptReservation,
};
use crate::authority::{begin_mutation, begins, MutationSnapshot, MutationStart, StoreBinding};
use crate::bytes::{copy_bytes, same_bytes};
use crate::claim::NamespaceIdentities;
use crate::completion::{completes, ProjectionCompletion};
use crate::evidence::{
    length_check, list_forensic_evidence, listed_records, require_evidence_length, EvidenceEntry,
    LocalProjectionEvidenceRecord, MAX_PROJECTION_EVIDENCE_BYTES,
};
use crate::execution::ProjectionEndpointBinding;
use crate::hash::{BlobDescription, Digest};
use crate::ids::{
    CanonicalGraphResourceId, ProjectionIntentId, ProjectionReceiptStoreId, Uuid, WorkspaceId,
};
use crate::intent::{BaseBlob, ProjectionIntent, ProjectionIntentView, ProjectionPrecondition};
use crate::names::{
    base_filename, evidence_name, intent_filename, ATTEMPTS_DIR, BASES_DIR, COMPLETIONS_DIR,
    FORENSICS_DIR, INTENTS_DIR,
};
use crate::path::ManagedPath;
use crate::store_error::{EntryFault, IoFailure, ProjectionStoreError};
use crate::text::same_text;

verus! {

/// A receipt store that was opened.
#[derive(Debug, PartialEq, Eq)]
pub struct ProjectionReceiptStore {
    pub root_path: String,
    pub store_id: ProjectionReceiptStoreId,
    pub workspace_id: WorkspaceId,
    pub endpoint: Option<ProjectionEndpointBinding>,
    pub namespace_identities: NamespaceIdentities,
    pub pending_cleanup_identity: Digest,
    /// The intents of this endpoint whose receipts no longer count.
    pub retired_own_endpoint_intents: Vec<ProjectionIntentId>,
}

/// A stored intent: its bytes, what decoding them gave, and the canonical encoding and identity of
/// that.
#[derive(Debug, PartialEq, Eq)]
pub struct StoredIntent {
    pub bytes: Vec<u8>,
    pub decoded: Result<ProjectionIntent, ReceiptError>,
    pub encoded: Result<Vec<u8>, ReceiptError>,
    pub intent_id: Result<ProjectionIntentId, ReceiptError>,
}

/// A stored completion: its bytes, what decoding them gave, and the canonical encoding of that.
#[derive(Debug, PartialEq, Eq)]
pub struct StoredCompletion {
    pub bytes: Vec<u8>,
    pub decoded: Result<ProjectionCompletion, ReceiptError>,
    pub encoded: Result<Vec<u8>, ReceiptError>,
}

/// What reading a published intent and its base gave.
#[derive(Debug, PartialEq, Eq)]
pub struct PublishedIntent {
    pub stored: Result<Option<StoredIntent>, ProjectionStoreError>,
    pub base: Result<Option<Vec<u8>>, ProjectionStoreError>,
}

/// Whether an intent is of a workspace, and if not, why.
pub open spec fn workspace_check(workspace_id: WorkspaceId, intent: ProjectionIntentView) -> Result<
    (),
    ProjectionStoreError,
> {
    if intent.workspace_id != workspace_id {
        Err(
            ProjectionStoreError::WorkspaceMismatch {
                expected: workspace_id,
                found: intent.workspace_id,
            },
        )
    } else {
        Ok(())
    }
}

/// The bytes of a described base, given what reading its file gave, or why they are refused.
pub open spec fn described_base(
    description: BlobDescription,
    read: Result<Option<Vec<u8>>, ProjectionStoreError>,
) -> Result<Option<Seq<u8>>, ProjectionStoreError> {
    match length_check("projection base", description.byte_length, MAX_PROJECTION_EVIDENCE_BYTES) {
        Err(error) => Err(error),
        Ok(()) => match read {
            Err(error) => Err(error),
            Ok(None) => Ok(None),
            Ok(Some(bytes)) => if BlobDescription::spec_of(bytes@) != description {
                Err(ProjectionStoreError::BaseEvidenceMismatch(description))
            } else {
                Ok(Some(bytes@))
            },
        },
    }
}

/// The bytes that an intent starts from, or why they are refused. Where it starts from none there
/// are none.
pub open spec fn intent_base(
    workspace_id: WorkspaceId,
    intent: ProjectionIntentView,
    read: Result<Option<Vec<u8>>, ProjectionStoreError>,
) -> Result<Option<Seq<u8>>, ProjectionStoreError> {
    match workspace_check(workspace_id, intent) {
        Err(error) => Err(error),
        Ok(()) => match intent.precondition {
            ProjectionPrecondition::Absent => Ok(None),
            ProjectionPrecondition::Base(description) => match described_base(description, read) {
                Err(error) => Err(error),
                Ok(None) => Err(ProjectionStoreError::MissingBase(description)),
                Ok(Some(bytes)) => Ok(Some(bytes)),
            },
        },
    }
}

/// Whether a base that was loaded is what it must be.
pub open spec fn is_base(
    loaded: Result<Option<BaseBlob>, ProjectionStoreError>,
    expected: Result<Option<Seq<u8>>, ProjectionStoreError>,
) -> bool {
    match expected {
        Err(error) => loaded == Err::<Option<BaseBlob>, _>(error),
        Ok(None) => loaded == Ok::<Option<BaseBlob>, ProjectionStoreError>(None),
        Ok(Some(bytes)) => {
            &&& loaded is Ok
            &&& loaded->Ok_0 is Some
            &&& (loaded->Ok_0->0)@ == bytes
            &&& (loaded->Ok_0->0).wf()
        },
    }
}

/// The intent that a file holds, or why it is refused: it must be of the workspace, be the one
/// that the file is named after, and be written canonically, and its base must be there.
pub open spec fn loaded_intent(
    workspace_id: WorkspaceId,
    intent_id: ProjectionIntentId,
    published: PublishedIntent,
) -> Result<Option<ProjectionIntent>, ProjectionStoreError> {
    match published.stored {
        Err(error) => Err(error),
        Ok(None) => Ok(None),
        Ok(Some(stored)) => match stored.decoded {
            Err(error) => Err(ProjectionStoreError::Receipt(error)),
            Ok(intent) => match workspace_check(workspace_id, intent@) {
                Err(error) => Err(error),
                Ok(()) => match stored.intent_id {
                    Err(error) => Err(ProjectionStoreError::Receipt(error)),
                    Ok(found) => if found != intent_id {
                        Err(ProjectionStoreError::PathBindingMismatch("projection intent"))
                    } else {
                        match stored.encoded {
                            Err(error) => Err(ProjectionStoreError::Receipt(error)),
                            Ok(encoded) => if encoded@ != stored.bytes@ {
                                Err(ProjectionStoreError::NonCanonical("projection intent"))
                            } else {
                                match intent_base(workspace_id, intent@, published.base) {
                                    Err(error) => Err(error),
                                    Ok(_) => Ok(Some(intent)),
                                }
                            },
                        }
                    },
                },
            },
        },
    }
}

/// Whether an intent is the one that was published, and if not, why.
pub open spec fn published_check(
    workspace_id: WorkspaceId,
    intent: ProjectionIntentView,
    intent_id: ProjectionIntentId,
    published: PublishedIntent,
) -> Result<(), ProjectionStoreError> {
    match workspace_check(workspace_id, intent) {
        Err(error) => Err(error),
        Ok(()) => match loaded_intent(workspace_id, intent_id, published) {
            Err(error) => Err(error),
            Ok(None) => Err(ProjectionStoreError::MissingIntent(intent_id)),
            Ok(Some(stored)) => if stored@ != intent {
                Err(ProjectionStoreError::IntentCollision(intent_id))
            } else {
                Ok(())
            },
        },
    }
}

/// The intent that a file is named after, or why the file is refused. The base is not looked at.
pub open spec fn intent_by_id(
    workspace_id: WorkspaceId,
    intent_id: ProjectionIntentId,
    stored: Result<Option<StoredIntent>, ProjectionStoreError>,
) -> Result<ProjectionIntent, ProjectionStoreError> {
    match stored {
        Err(error) => Err(error),
        Ok(None) => Err(ProjectionStoreError::MissingIntent(intent_id)),
        Ok(Some(stored)) => named_intent(workspace_id, intent_id, stored),
    }
}

/// The intent that stored bytes are, or why they are not the one with the given identity.
pub open spec fn named_intent(
    workspace_id: WorkspaceId,
    intent_id: ProjectionIntentId,
    stored: StoredIntent,
) -> Result<ProjectionIntent, ProjectionStoreError> {
    match stored.decoded {
        Err(error) => Err(ProjectionStoreError::Receipt(error)),
        Ok(intent) => match workspace_check(workspace_id, intent@) {
            Err(error) => Err(error),
            Ok(()) => match stored.encoded {
                Err(error) => Err(ProjectionStoreError::Receipt(error)),
                Ok(encoded) => if encoded@ != stored.bytes@ {
                    Err(ProjectionStoreError::PathBindingMismatch("projection intent"))
                } else {
                    match stored.intent_id {
                        Err(error) => Err(ProjectionStoreError::Receipt(error)),
                        Ok(found) => if found != intent_id {
                            Err(ProjectionStoreError::PathBindingMismatch("projection intent"))
                        } else {
                            Ok(intent)
                        },
                    }
                },
            },
        },
    }
}

/// The completion that stored bytes are, or why they are not one of the intent.
pub open spec fn bound_completion(
    intent: ProjectionIntentView,
    intent_id: ProjectionIntentId,
    stored: StoredCompletion,
) -> Result<ProjectionCompletion, ProjectionStoreError> {
    match stored.decoded {
        Err(error) => Err(ProjectionStoreError::Receipt(error)),
        Ok(completion) => if !completes(completion, intent, intent_id) {
            Err(ProjectionStoreError::Receipt(ReceiptError::CompletionMismatch))
        } else {
            match stored.encoded {
                Err(error) => Err(ProjectionStoreError::Receipt(error)),
                Ok(encoded) => if encoded@ != stored.bytes@ {
                    Err(ProjectionStoreError::NonCanonical("projection completion"))
                } else {
                    Ok(completion)
                },
            }
        },
    }
}

/// Checks that stored bytes are a completion of the intent.
pub fn decode_bound_completion(
    intent: &ProjectionIntent,
    intent_id: ProjectionIntentId,
    stored: StoredCompletion,
) -> (completion: Result<ProjectionCompletion, ProjectionStoreError>)
    ensures
        completion == bound_completion(intent@, intent_id, stored),
{
    let completion = match stored.decoded {
        Err(error) => return Err(ProjectionStoreError::Receipt(error)),
        Ok(completion) => completion,
    };
    if let Err(error) = completion.validate_against(intent, intent_id) {
        return Err(ProjectionStoreError::Receipt(error));
    }
    match stored.encoded {
        Err(error) => Err(ProjectionStoreError::Receipt(error)),
        Ok(encoded) => if !same_bytes(encoded.as_slice(), stored.bytes.as_slice()) {
            Err(ProjectionStoreError::NonCanonical("projection completion"))
        } else {
            Ok(completion)
        },
    }
}

/// Whether stored bytes are a completion of the intent.
pub fn holds_completion(
    intent: &ProjectionIntent,
    intent_id: ProjectionIntentId,
    stored: &StoredCompletion,
) -> (holds: bool)
    ensures
        holds == (bound_completion(intent@, intent_id, *stored) is Ok),
{
    match &stored.decoded {
        Err(_) => false,
        Ok(completion) => match completion.validate_against(intent, intent_id) {
            Err(_) => false,
            Ok(()) => match &stored.encoded {
                Err(_) => false,
                Ok(encoded) => same_bytes(encoded.as_slice(), stored.bytes.as_slice()),
            },
        },
    }
}

/// Checks that an intent is of a workspace.
fn check_workspace(workspace_id: WorkspaceId, intent: &ProjectionIntent) -> (checked: Result<
    (),
    ProjectionStoreError,
>)
    ensures
        checked == workspace_check(workspace_id, intent@),
{
    if intent.workspace_id != workspace_id {
        return Err(
            ProjectionStoreError::WorkspaceMismatch {
                expected: workspace_id,
                found: intent.workspace_id,
            },
        );
    }
    Ok(())
}

/// Loads an intent of a workspace by its identity alone, given what reading its file gave.
pub fn load_intent_of(
    workspace_id: WorkspaceId,
    intent_id: ProjectionIntentId,
    stored: Result<Option<StoredIntent>, ProjectionStoreError>,
) -> (intent: Result<ProjectionIntent, ProjectionStoreError>)
    ensures
        intent == intent_by_id(workspace_id, intent_id, stored),
{
    let stored = match stored {
        Err(error) => return Err(error),
        Ok(None) => return Err(ProjectionStoreError::MissingIntent(intent_id)),
        Ok(Some(stored)) => stored,
    };
    let intent = match stored.decoded {
        Err(error) => return Err(ProjectionStoreError::Receipt(error)),
        Ok(intent) => intent,
    };
    if let Err(error) = check_workspace(workspace_id, &intent) {
        return Err(error);
    }
    match stored.encoded {
        Err(error) => return Err(ProjectionStoreError::Receipt(error)),
        Ok(encoded) => if !same_bytes(encoded.as_slice(), stored.bytes.as_slice()) {
            return Err(ProjectionStoreError::PathBindingMismatch("projection intent"));
        },
    }
    match stored.intent_id {
        Err(error) => Err(ProjectionStoreError::Receipt(error)),
        Ok(found) => if found != intent_id {
            Err(ProjectionStoreError::PathBindingMismatch("projection intent"))
        } else {
            Ok(intent)
        },
    }
}

/// Loads a described base, given what reading its file gave.
pub fn load_retained_base(
    description: BlobDescription,
    read: Result<Option<Vec<u8>>, ProjectionStoreError>,
) -> (base: Result<Option<BaseBlob>, ProjectionStoreError>)
    ensures
        is_base(base, described_base(description, read)),
{
    if let Err(error) = require_evidence_length(
        "projection base",
        description.byte_length,
        MAX_PROJECTION_EVIDENCE_BYTES,
    ) {
        return Err(error);
    }
    match read {
        Err(error) => Err(error),
        Ok(None) => Ok(None),
        Ok(Some(bytes)) => {
            let base = BaseBlob::new(bytes);
            if base.description != description {
                return Err(ProjectionStoreError::BaseEvidenceMismatch(description));
            }
            Ok(Some(base))
        },
    }
}

/// One step of publishing an intent.
#[derive(Debug, PartialEq, Eq)]
pub enum PublicationStep {
    /// Publish the base under this name.
    Base { name: String, bytes: Vec<u8> },
    /// Have the directory of the intent's attempts.
    AttemptNamespace,
    /// Have the directory of the intent's evidence.
    ForensicNamespace,
    /// Publish the intent under this name.
    Intent { name: String, bytes: Vec<u8> },
}

/// What may stand in the way of publishing an intent.
pub open spec fn publication_check(
    workspace_id: WorkspaceId,
    intent: ProjectionIntentView,
    encoded: Result<Vec<u8>, ReceiptError>,
    base: Option<Seq<u8>>,
) -> Result<(), ProjectionStoreError> {
    match workspace_check(workspace_id, intent) {
        Err(error) => Err(error),
        Ok(()) => match encoded {
            Err(error) => Err(ProjectionStoreError::Receipt(error)),
            Ok(bytes) => match length_check(
                "projection target",
                intent.target.byte_length,
                MAX_PROJECTION_EVIDENCE_BYTES,
            ) {
                Err(error) => Err(error),
                Ok(()) => match length_check(
                    "projection intent",
                    bytes@.len() as u64,
                    MAX_PROJECTION_EVIDENCE_BYTES,
                ) {
                    Err(error) => Err(error),
                    Ok(()) => publication_base_check(intent.precondition, base),
                },
            },
        },
    }
}

/// Whether the base that is handed in is the one that the intent starts from, and if not, why.
pub open spec fn publication_base_check(
    precondition: ProjectionPrecondition,
    base: Option<Seq<u8>>,
) -> Result<(), ProjectionStoreError> {
    match (precondition, base) {
        (ProjectionPrecondition::Absent, None) => Ok(()),
        (ProjectionPrecondition::Absent, Some(_)) => Err(ProjectionStoreError::UnexpectedBase),
        (ProjectionPrecondition::Base(description), None) => Err(
            ProjectionStoreError::MissingBase(description),
        ),
        (ProjectionPrecondition::Base(description), Some(bytes)) => match length_check(
            "projection base",
            description.byte_length,
            MAX_PROJECTION_EVIDENCE_BYTES,
        ) {
            Err(error) => Err(error),
            Ok(()) => if BlobDescription::spec_of(bytes) != description {
                Err(ProjectionStoreError::BaseEvidenceMismatch(description))
            } else {
                Ok(())
            },
        },
    }
}

/// Whether steps publish an intent: its base first where it has one, then the two directories, and
/// the intent last.
pub open spec fn publishes(
    steps: Seq<PublicationStep>,
    intent_id: ProjectionIntentId,
    intent: ProjectionIntentView,
    encoded: Seq<u8>,
    base: Option<Seq<u8>>,
) -> bool {
    let first = if base is Some {
        1int
    } else {
        0int
    };
    &&& steps.len() == first + 3
    &&& base is Some ==> {
        &&& steps[0] is Base
        &&& steps[0]->Base_name@ == evidence_name(
            intent.precondition->Base_0.sha256,
            ".base"@,
        )
        &&& steps[0]->Base_bytes@ == base->0
    }
    &&& steps[first] is AttemptNamespace
    &&& steps[first + 1] is ForensicNamespace
    &&& steps[first + 2] is Intent
    &&& steps[first + 2]->Intent_name@ == evidence_name(intent_id.digest, ".intent"@)
    &&& steps[first + 2]->Intent_bytes@ == encoded
}

/// What reserving an attempt gives, or why none is reserved.
pub open spec fn attempt_outcome(
    workspace_id: WorkspaceId,
    intent: ProjectionIntentView,
    intent_id: ProjectionIntentId,
    published: PublishedIntent,
    lease: Result<(), ProjectionStoreError>,
    current_attempt: Option<Uuid>,
    pending: Result<bool, ProjectionStoreError>,
    entries: Seq<AttemptEntry>,
    chosen: Result<AttemptChoice, ProjectionStoreError>,
) -> bool {
    match published_check(workspace_id, intent, intent_id, published) {
        Err(error) => chosen == Err::<AttemptChoice, _>(error),
        Ok(()) => match lease {
            Err(error) => chosen == Err::<AttemptChoice, _>(error),
            Ok(()) => match current_attempt {
                None => chosen == Err::<AttemptChoice, _>(
                    ProjectionStoreError::MissingTurnAttemptContext,
                ),
                Some(attempt_id) => match pending {
                    Err(error) => chosen == Err::<AttemptChoice, _>(error),
                    Ok(true) => chosen == Err::<AttemptChoice, _>(
                        ProjectionStoreError::MutationAuthorityPending,
                    ),
                    Ok(false) => match loaded_attempts(intent, intent_id, entries) {
                        Err(error) => chosen == Err::<AttemptChoice, _>(error),
                        Ok(attempts) => reservation_choice(
                            false,
                            attempts,
                            intent,
                            intent_id,
                            attempt_id,
                            true,
                            chosen,
                        ),
                    },
                },
            },
        },
    }
}

/// What beginning a mutation of a published intent gives, or why none begins.
pub open spec fn mutation_outcome(
    store: ProjectionReceiptStore,
    intent: ProjectionIntentView,
    intent_id: ProjectionIntentId,
    published: PublishedIntent,
    lease: Result<(), ProjectionStoreError>,
    active: Option<ProjectionAttemptReservation>,
    recovery: Result<ProjectionAttemptReservation, ProjectionStoreError>,
    snapshot: MutationSnapshot,
    begun: Result<MutationStart, ProjectionStoreError>,
) -> bool {
    match published_check(store.workspace_id, intent, intent_id, published) {
        Err(error) => begun == Err::<MutationStart, _>(error),
        Ok(()) => begins(
            store.spec_binding(),
            intent,
            intent_id,
            lease,
            active,
            recovery,
            snapshot,
            begun,
        ),
    }
}

/// What a page's file held when it was captured.
#[derive(Debug, PartialEq, Eq)]
pub enum CapabilityCapturedProjectionState {
    Absent,
    Present {
        bytes: Vec<u8>,
        prior_intent: ProjectionIntent,
        prior_completion: ProjectionCompletion,
    },
}

/// A page's file as it was captured, with the completion that accounts for it.
#[derive(Debug, PartialEq, Eq)]
pub struct CapabilityCapturedProjectionInput {
    pub path: ManagedPath,
    pub endpoint: ProjectionEndpointBinding,
    pub store_id: ProjectionReceiptStoreId,
    pub state: CapabilityCapturedProjectionState,
}

/// What capturing a page's file gives, or why it is refused: without a file no completion may be
/// claimed, and with one a completion of this store must account for its bytes.
pub open spec fn captured(
    store: ProjectionReceiptStore,
    endpoint: ProjectionEndpointBinding,
    resource: Result<CanonicalGraphResourceId, IoFailure>,
    path: ManagedPath,
    current: Result<Option<Vec<u8>>, IoFailure>,
    prior_intent: Option<ProjectionIntent>,
    completion: Result<Option<ProjectionCompletion>, ProjectionStoreError>,
) -> Result<CapabilityCapturedProjectionState, ProjectionStoreError> {
    if store.endpoint != Some(endpoint) {
        Err(ProjectionStoreError::EndpointBindingMismatch)
    } else {
        match resource {
            Err(failure) => Err(ProjectionStoreError::Io(failure)),
            Ok(resource) => if resource != endpoint.graph_resource_id {
                Err(ProjectionStoreError::GraphResourceMismatch)
            } else {
                match current {
                    Err(failure) => Err(ProjectionStoreError::Io(failure)),
                    Ok(None) => match prior_intent {
                        None => Ok(CapabilityCapturedProjectionState::Absent),
                        Some(_) => Err(ProjectionStoreError::CapturedInputMismatch),
                    },
                    Ok(Some(bytes)) => match prior_intent {
                        None => Err(ProjectionStoreError::MissingPriorCompletion),
                        Some(intent) => if intent.workspace_id != store.workspace_id
                            || intent.path.text@ != path.text@ || intent.target
                            != BlobDescription::spec_of(bytes@) {
                            Err(ProjectionStoreError::CapturedInputMismatch)
                        } else {
                            match completion {
                                Err(error) => Err(error),
                                Ok(None) => Err(ProjectionStoreError::MissingPriorCompletion),
                                Ok(Some(prior_completion)) => Ok(
                                    CapabilityCapturedProjectionState::Present {
                                        bytes,
                                        prior_intent: intent,
                                        prior_completion,
                                    },
                                ),
                            }
                        },
                    },
                }
            },
        }
    }
}

/// The completion that the store holds of an intent, or why it is refused. The receipts of a
/// retired intent do not count.
pub open spec fn loaded_completion(
    store: ProjectionReceiptStore,
    intent: ProjectionIntentView,
    intent_id: ProjectionIntentId,
    published: PublishedIntent,
    stored: Result<Option<StoredCompletion>, ProjectionStoreError>,
    reconciled: Result<(), ProjectionStoreError>,
) -> Result<Option<ProjectionCompletion>, ProjectionStoreError> {
    if store.retired_own_endpoint_intents@.contains(intent_id) {
        Ok(None)
    } else {
        match published_check(store.workspace_id, intent, intent_id, published) {
            Err(error) => Err(error),
            Ok(()) => match stored {
                Err(error) => Err(error),
                Ok(None) => Ok(None),
                Ok(Some(stored)) => match bound_completion(intent, intent_id, stored) {
                    Err(error) => Err(error),
                    Ok(completion) => match reconciled {
                        Err(error) => Err(error),
                        Ok(()) => Ok(Some(completion)),
                    },
                },
            },
        }
    }
}

/// Whether the completed mutation of an intent has to be reconciled before its completion is loaded:
/// exactly where the receipts of the intent count, the intent is published, and its completion is
/// there, is of the intent and is written canonically.
pub open spec fn reconciliation_is_due(
    store: ProjectionReceiptStore,
    intent: ProjectionIntentView,
    intent_id: ProjectionIntentId,
    published: PublishedIntent,
    stored: Result<Option<StoredCompletion>, ProjectionStoreError>,
) -> bool {
    &&& !store.retired_own_endpoint_intents@.contains(intent_id)
    &&& published_check(store.workspace_id, intent, intent_id, published) is Ok
    &&& stored is Ok
    &&& stored->Ok_0 is Some
    &&& bound_completion(intent, intent_id, stored->Ok_0->0) is Ok
}

/// What is known of an intent's directory in a namespace.
#[derive(Debug, PartialEq, Eq)]
pub enum IntentDirectory {
    Missing,
    Directory,
    NotDirectory,
    Unreadable(ProjectionStoreError),
}

/// What to do for an intent's directory in a namespace.
#[derive(Clone, Copy, Debug, PartialEq, Eq, Structural)]
pub enum IntentDirectoryStep {
    Open,
    CreateAndOpen,
    LeaveAbsent,
}

impl ProjectionReceiptStore {
    /// Where the store is.
    pub fn root_path(&self) -> (root_path: &str)
        ensures
            root_path@ == self.root_path@,
    {
        self.root_path.as_str()
    }

    /// The store's identity.
    pub fn store_id(&self) -> (store_id: ProjectionReceiptStoreId)
        ensures
            store_id == self.store_id,
    {
        self.store_id
    }

    /// The workspace that the store is of.
    pub fn workspace_id(&self) -> (workspace_id: WorkspaceId)
        ensures
            workspace_id == self.workspace_id,
    {
        self.workspace_id
    }

    /// The endpoint that the store is enrolled to.
    pub fn endpoint_binding(&self) -> (endpoint: Option<ProjectionEndpointBinding>)
        ensures
            endpoint == self.endpoint,
    {
        self.endpoint
    }

    /// The store as authorities bind it.
    pub open spec fn spec_binding(self) -> StoreBinding {
        StoreBinding {
            store_id: self.store_id,
            workspace_id: self.workspace_id,
            endpoint: self.endpoint,
            namespace_identities: self.namespace_identities,
        }
    }

    /// The store as authorities bind it.
    pub fn binding(&self) -> (binding: StoreBinding)
        ensures
            binding == self.spec_binding(),
    {
        StoreBinding {
            store_id: self.store_id,
            workspace_id: self.workspace_id,
            endpoint: self.endpoint,
            namespace_identities: self.namespace_identities,
        }
    }

    /// The identity of one of the store's directories.
    pub fn namespace_identity(&self, name: &String) -> (identity: Result<
        Digest,
        ProjectionStoreError,
    >)
        ensures
            identity == (if name@ == BASES_DIR@ {
                Ok(self.namespace_identities.bases)
            } else if name@ == INTENTS_DIR@ {
                Ok(self.namespace_identities.intents)
            } else if name@ == COMPLETIONS_DIR@ {
                Ok(self.namespace_identities.completions)
            } else if name@ == ATTEMPTS_DIR@ {
                Ok(self.namespace_identities.attempts)
            } else if name@ == FORENSICS_DIR@ {
                Ok(self.namespace_identities.forensics)
            } else {
                Err(
                    ProjectionStoreError::UnsafeEntry(
                        EntryFault::Named { fault: "unknown receipt namespace", name: *name },
                    ),
                )
            }),
    {
        if same_text(name.as_str(), BASES_DIR) {
            Ok(self.namespace_identities.bases)
        } else if same_text(name.as_str(), INTENTS_DIR) {
            Ok(self.namespace_identities.intents)
        } else if same_text(name.as_str(), COMPLETIONS_DIR) {
            Ok(self.namespace_identities.completions)
        } else if same_text(name.as_str(), ATTEMPTS_DIR) {
            Ok(self.namespace_identities.attempts)
        } else if same_text(name.as_str(), FORENSICS_DIR) {
            Ok(self.namespace_identities.forensics)
        } else {
            Err(
                ProjectionStoreError::UnsafeEntry(
                    EntryFault::Named {
                        fault: "unknown receipt namespace",
                        name: name.clone(),
                    },
                ),
            )
        }
    }

    /// What to do for an intent's directory in a namespace. What is there but is no directory is
    /// refused.
    pub fn open_intent_namespace(
        &self,
        namespace: &'static str,
        intent_id: ProjectionIntentId,
        found: IntentDirectory,
        create: bool,
    ) -> (step: Result<IntentDirectoryStep, ProjectionStoreError>)
        ensures
            step == (match found {
                IntentDirectory::Unreadable(error) => Err(error),
                IntentDirectory::NotDirectory => Err(
                    ProjectionStoreError::UnsafeEntry(
                        EntryFault::IntentNamespace { namespace, intent_id, report: None },
                    ),
                ),
                IntentDirectory::Directory => Ok(IntentDirectoryStep::Open),
                IntentDirectory::Missing => if create {
                    Ok(IntentDirectoryStep::CreateAndOpen)
                } else {
                    Ok(IntentDirectoryStep::LeaveAbsent)
                },
            }),
    {
        match found {
            IntentDirectory::Unreadable(error) => Err(error),
            IntentDirectory::NotDirectory => Err(
                ProjectionStoreError::UnsafeEntry(
                    EntryFault::IntentNamespace { namespace, intent_id, report: None },
                ),
            ),
            IntentDirectory::Directory => Ok(IntentDirectoryStep::Open),
            IntentDirectory::Missing => if create {
                Ok(IntentDirectoryStep::CreateAndOpen)
            } else {
                Ok(IntentDirectoryStep::LeaveAbsent)
            },
        }
    }

    /// Checks that an intent is of the store's workspace.
    pub fn require_workspace(&self, intent: &ProjectionIntent) -> (checked: Result<
        (),
        ProjectionStoreError,
    >)
        ensures
            checked == workspace_check(self.workspace_id, intent@),
    {
        check_workspace(self.workspace_id, intent)
    }

    /// Checks that the store is enrolled to an endpoint.
    pub fn require_endpoint(&self, endpoint: ProjectionEndpointBinding) -> (checked: Result<
        (),
        ProjectionStoreError,
    >)
        ensures
            checked == (if self.endpoint == Some(endpoint) {
                Ok(())
            } else {
                Err(ProjectionStoreError::EndpointBindingMismatch)
            }),
    {
        match self.endpoint {
            None => Err(ProjectionStoreError::EndpointBindingMismatch),
            Some(enrolled) => if enrolled != endpoint {
                Err(ProjectionStoreError::EndpointBindingMismatch)
            } else {
                Ok(())
            },
        }
    }

    /// Loads the base of an intent, given what reading its file gave.
    pub fn load_base(
        &self,
        intent: &ProjectionIntent,
        read: Result<Option<Vec<u8>>, ProjectionStoreError>,
    ) -> (base: Result<Option<BaseBlob>, ProjectionStoreError>)
        ensures
            is_base(base, intent_base(self.workspace_id, intent@, read)),
    {
        if let Err(error) = self.require_workspace(intent) {
            return Err(error);
        }
        let description = match intent.precondition {
            ProjectionPrecondition::Absent => return Ok(None),
            ProjectionPrecondition::Base(description) => description,
        };
        match load_retained_base(description, read) {
            Err(error) => Err(error),
            Ok(None) => Err(ProjectionStoreError::MissingBase(description)),
            Ok(Some(base)) => Ok(Some(base)),
        }
    }

    /// Loads an intent, given what reading its file and its base gave.
    pub fn load_intent(&self, intent_id: ProjectionIntentId, published: PublishedIntent) -> (intent: Result<
        Option<ProjectionIntent>,
        ProjectionStoreError,
    >)
        ensures
            intent == loaded_intent(self.workspace_id, intent_id, published),
    {
        let stored = match published.stored {
            Err(error) => return Err(error),
            Ok(None) => return Ok(None),
            Ok(Some(stored)) => stored,
        };
        let intent = match stored.decoded {
            Err(error) => return Err(ProjectionStoreError::Receipt(error)),
            Ok(intent) => intent,
        };
        if let Err(error) = self.require_workspace(&intent) {
            return Err(error);
        }
        match stored.intent_id {
            Err(error) => return Err(ProjectionStoreError::Receipt(error)),
            Ok(found) => if found != intent_id {
                return Err(ProjectionStoreError::PathBindingMismatch("projection intent"));
            },
        }
        match stored.encoded {
            Err(error) => return Err(ProjectionStoreError::Receipt(error)),
            Ok(encoded) => if !same_bytes(encoded.as_slice(), stored.bytes.as_slice()) {
                return Err(ProjectionStoreError::NonCanonical("projection intent"));
            },
        }
        match self.load_base(&intent, published.base) {
            Err(error) => Err(error),
            Ok(_) => Ok(Some(intent)),
        }
    }

    /// Loads an intent by its identity alone, given what reading its file gave.
    pub fn load_intent_by_id(
        &self,
        intent_id: ProjectionIntentId,
        stored: Result<Option<StoredIntent>, ProjectionStoreError>,
    ) -> (intent: Result<ProjectionIntent, ProjectionStoreError>)
        ensures
            intent == intent_by_id(self.workspace_id, intent_id, stored),
    {
        load_intent_of(self.workspace_id, intent_id, stored)
    }

    /// Checks that an intent is the one that was published.
    pub fn require_published_intent(
        &self,
        intent: &ProjectionIntent,
        intent_id: ProjectionIntentId,
        published: PublishedIntent,
    ) -> (checked: Result<(), ProjectionStoreError>)
        ensures
            checked == published_check(self.workspace_id, intent@, intent_id, published),
    {
        if let Err(error) = self.require_workspace(intent) {
            return Err(error);
        }
        match self.load_intent(intent_id, published) {
            Err(error) => Err(error),
            Ok(None) => Err(ProjectionStoreError::MissingIntent(intent_id)),
            Ok(Some(stored)) => if !stored.same(intent) {
                Err(ProjectionStoreError::IntentCollision(intent_id))
            } else {
                Ok(())
            },
        }
    }

    /// The steps that publish an intent with its base, in order, or why it is refused. `encoded`
    /// is the canonical encoding of the intent.
    pub fn publish_intent(
        &self,
        intent: &ProjectionIntent,
        intent_id: ProjectionIntentId,
        encoded: Result<Vec<u8>, ReceiptError>,
        base_bytes: Option<&[u8]>,
    ) -> (steps: Result<Vec<PublicationStep>, ProjectionStoreError>)
        ensures
            match publication_check(
                self.workspace_id,
                intent@,
                encoded,
                match base_bytes {
                    None => None,
                    Some(bytes) => Some(bytes@),
                },
            ) {
                Err(error) => steps == Err::<Vec<PublicationStep>, _>(error),
                Ok(()) => steps is Ok && publishes(
                    steps->Ok_0@,
                    intent_id,
                    intent@,
                    encoded->Ok_0@,
                    match base_bytes {
                        None => None,
                        Some(bytes) => Some(bytes@),
                    },
                ),
            },
    {
        if let Err(error) = self.require_workspace(intent) {
            return Err(error);
        }
        let bytes = match encoded {
            Err(error) => return Err(ProjectionStoreError::Receipt(error)),
            Ok(bytes) => bytes,
        };
        if let Err(error) = require_evidence_length(
            "projection target",
            intent.target.byte_length,
            MAX_PROJECTION_EVIDENCE_BYTES,
        ) {
            return Err(error);
        }
        if let Err(error) = require_evidence_length(
            "projection intent",
            bytes.len() as u64,
            MAX_PROJECTION_EVIDENCE_BYTES,
        ) {
            return Err(error);
        }
        let mut steps: Vec<PublicationStep> = Vec::new();
        match (intent.precondition, base_bytes) {
            (ProjectionPrecondition::Absent, None) => {},
            (ProjectionPrecondition::Absent, Some(_)) => {
                return Err(ProjectionStoreError::UnexpectedBase);
            },
            (ProjectionPrecondition::Base(description), None) => {
                return Err(ProjectionStoreError::MissingBase(description));
            },
            (ProjectionPrecondition::Base(description), Some(base_bytes)) => {
                if let Err(error) = require_evidence_length(
                    "projection base",
                    description.byte_length,
                    MAX_PROJECTION_EVIDENCE_BYTES,
                ) {
                    return Err(error);
                }
                if BlobDescription::of(base_bytes) != description {
                    return Err(ProjectionStoreError::BaseEvidenceMismatch(description));
                }
                steps.push(
                    PublicationStep::Base {
                        name: base_filename(description),
                        bytes: copy_bytes(base_bytes),
                    },
                );
            },
        }
        steps.push(PublicationStep::AttemptNamespace);
        steps.push(PublicationStep::ForensicNamespace);
        steps.push(PublicationStep::Intent { name: intent_filename(intent_id), bytes });
        Ok(steps)
    }

    /// Reserves an attempt at carrying out a published intent, or takes up one that is reserved.
    /// `lease` is what taking the intent's lease gave, `pending` whether an authority is there, and
    /// `current_attempt` the attempt of the current turn.
    pub fn reserve_attempt(
        &self,
        intent: &ProjectionIntent,
        intent_id: ProjectionIntentId,
        published: PublishedIntent,
        lease: Result<(), ProjectionStoreError>,
        current_attempt: Option<Uuid>,
        pending: Result<bool, ProjectionStoreError>,
        entries: Vec<AttemptEntry>,
    ) -> (chosen: Result<AttemptChoice, ProjectionStoreError>)
        ensures
            attempt_outcome(
                self.workspace_id,
                intent@,
                intent_id,
                published,
                lease,
                current_attempt,
                pending,
                entries@,
                chosen,
            ),
    {
        if let Err(error) = self.require_published_intent(intent, intent_id, published) {
            return Err(error);
        }
        if let Err(error) = lease {
            return Err(error);
        }
        let attempt_id = match turn_attempt_id(current_attempt) {
            Err(error) => return Err(error),
            Ok(attempt_id) => attempt_id,
        };
        match pending {
            Err(error) => return Err(error),
            Ok(pending) => if pending {
                return Err(ProjectionStoreError::MutationAuthorityPending);
            },
        }
        let attempts = match load_attempt_reservations_from(intent, intent_id, entries) {
            Err(error) => return Err(error),
            Ok(attempts) => attempts,
        };
        reserve_deterministic_attempt(false, &attempts, intent, intent_id, attempt_id, true)
    }

    /// Begins a mutation of a published intent's page. `lease` is what taking the intent's lease
    /// gave, `active` an attempt that the caller reserved, and `recovery` what reserving one under
    /// the lease gave, which counts only where an attempt is reserved for a recovery.
    pub fn begin_mutation(
        &self,
        intent: &ProjectionIntent,
        intent_id: ProjectionIntentId,
        published: PublishedIntent,
        lease: Result<(), ProjectionStoreError>,
        active: Option<ProjectionAttemptReservation>,
        recovery: Result<ProjectionAttemptReservation, ProjectionStoreError>,
        snapshot: MutationSnapshot,
    ) -> (begun: Result<MutationStart, ProjectionStoreError>)
        ensures
            mutation_outcome(
                *self,
                intent@,
                intent_id,
                published,
                lease,
                active,
                recovery,
                snapshot,
                begun,
            ),
    {
        if let Err(error) = self.require_published_intent(intent, intent_id, published) {
            return Err(error);
        }
        begin_mutation(&self.binding(), intent, intent_id, lease, active, recovery, snapshot)
    }

    /// Loads the attempts of a published intent.
    pub fn load_attempt_reservations(
        &self,
        intent: &ProjectionIntent,
        intent_id: ProjectionIntentId,
        published: PublishedIntent,
        entries: Vec<AttemptEntry>,
    ) -> (attempts: Result<Vec<ProjectionAttemptReservation>, ProjectionStoreError>)
        ensures
            match published_check(self.workspace_id, intent@, intent_id, published) {
                Err(error) => attempts == Err::<Vec<ProjectionAttemptReservation>, _>(error),
                Ok(()) => match loaded_attempts(intent@, intent_id, entries@) {
                    Err(error) => attempts == Err::<Vec<ProjectionAttemptReservation>, _>(error),
                    Ok(loaded) => attempts is Ok && attempts->Ok_0@ == loaded,
                },
            },
    {
        if let Err(error) = self.require_published_intent(intent, intent_id, published) {
            return Err(error);
        }
        load_attempt_reservations_from(intent, intent_id, entries)
    }

    /// Lists the forensic evidence of a published intent, in the order of its attempts.
    pub fn local_forensic_evidence(
        &self,
        intent: &ProjectionIntent,
        intent_id: ProjectionIntentId,
        published: PublishedIntent,
        entries: Vec<EvidenceEntry>,
    ) -> (records: Result<Vec<LocalProjectionEvidenceRecord>, ProjectionStoreError>)
        ensures
            match published_check(self.workspace_id, intent@, intent_id, published) {
                Err(error) => records == Err::<Vec<LocalProjectionEvidenceRecord>, _>(error),
                Ok(()) => match listed_records(intent@, intent_id, entries@, entries@.len()) {
                    Err(error) => records == Err::<Vec<LocalProjectionEvidenceRecord>, _>(error),
                    Ok(listed) => records is Ok && records->Ok_0@ == listed,
                },
            },
    {
        if let Err(error) = self.require_published_intent(intent, intent_id, published) {
            return Err(error);
        }
        list_forensic_evidence(intent, intent_id, entries)
    }

    /// Whether an intent is the one that was published.
    fn holds_published(
        &self,
        intent: &ProjectionIntent,
        intent_id: ProjectionIntentId,
        published: &PublishedIntent,
    ) -> (holds: bool)
        ensures
            holds == (published_check(self.workspace_id, intent@, intent_id, *published) is Ok),
    {
        if self.require_workspace(intent).is_err() {
            return false;
        }
        let stored = match &published.stored {
            Ok(Some(stored)) => stored,
            _ => return false,
        };
        let held = match &stored.decoded {
            Err(_) => return false,
            Ok(held) => held,
        };
        if self.require_workspace(held).is_err() {
            return false;
        }
        match &stored.intent_id {
            Err(_) => return false,
            Ok(found) => if *found != intent_id {
                return false;
            },
        }
        match &stored.encoded {
            Err(_) => return false,
            Ok(encoded) => if !same_bytes(encoded.as_slice(), stored.bytes.as_slice()) {
                return false;
            },
        }
        if let ProjectionPrecondition::Base(description) = held.precondition {
            if require_evidence_length(
                "projection base",
                description.byte_length,
                MAX_PROJECTION_EVIDENCE_BYTES,
            ).is_err() {
                return false;
            }
            match &published.base {
                Ok(Some(bytes)) => if BlobDescription::of(bytes.as_slice()) != description {
                    return false;
                },
                _ => return false,
            }
        }
        held.same(intent)
    }

    /// Decides whether the completed mutation of an intent has to be reconciled before its
    /// completion is loaded. Nothing may be reconciled otherwise.
    pub fn reconciliation_is_owed(
        &self,
        intent: &ProjectionIntent,
        intent_id: ProjectionIntentId,
        published: &PublishedIntent,
        stored: &Result<Option<StoredCompletion>, ProjectionStoreError>,
    ) -> (owed: bool)
        ensures
            owed == reconciliation_is_due(*self, intent@, intent_id, *published, *stored),
    {
        if self.is_retired(intent_id) || !self.holds_published(intent, intent_id, published) {
            return false;
        }
        match stored {
            Ok(Some(stored)) => holds_completion(intent, intent_id, stored),
            _ => false,
        }
    }

    /// Loads the completion of an intent. `reconciled` is what reconciling the intent's completed
    /// mutation gave; it counts only where that was owed.
    pub fn load_completion(
        &self,
        intent: &ProjectionIntent,
        intent_id: ProjectionIntentId,
        published: PublishedIntent,
        stored: Result<Option<StoredCompletion>, ProjectionStoreError>,
        reconciled: Result<(), ProjectionStoreError>,
    ) -> (completion: Result<Option<ProjectionCompletion>, ProjectionStoreError>)
        ensures
            completion == loaded_completion(
                *self,
                intent@,
                intent_id,
                published,
                stored,
                reconciled,
            ),
    {
        if self.is_retired(intent_id) {
            return Ok(None);
        }
        if let Err(error) = self.require_published_intent(intent, intent_id, published) {
            return Err(error);
        }
        let stored = match stored {
            Err(error) => return Err(error),
            Ok(None) => return Ok(None),
            Ok(Some(stored)) => stored,
        };
        let completion = match decode_bound_completion(intent, intent_id, stored) {
            Err(error) => return Err(error),
            Ok(completion) => completion,
        };
        match reconciled {
            Err(error) => Err(error),
            Ok(()) => Ok(Some(completion)),
        }
    }

    /// Whether the receipts of an intent no longer count.
    pub fn is_retired(&self, intent_id: ProjectionIntentId) -> (retired: bool)
        ensures
            retired == self.retired_own_endpoint_intents@.contains(intent_id),
    {
        let mut at: usize = 0;
        while at < self.retired_own_endpoint_intents.len()
            invariant
                at <= self.retired_own_endpoint_intents@.len(),
                forall|i: int|
                    0 <= i < at ==> self.retired_own_endpoint_intents@[i] != intent_id,
            decreases self.retired_own_endpoint_intents@.len() - at,
        {
            if self.retired_own_endpoint_intents[at] == intent_id {
                assert(self.retired_own_endpoint_intents@[at as int] == intent_id);
                return true;
            }
            at = at + 1;
        }
        false
    }

    /// Captures what a page's file holds, with the completion that accounts for it. `resource` is
    /// what identifying the graph gave, `current` what reading the file gave, and `completion` what
    /// loading the completion of the prior intent gave.
    pub fn capture_projection_input(
        &self,
        endpoint: ProjectionEndpointBinding,
        resource: Result<CanonicalGraphResourceId, IoFailure>,
        path: ManagedPath,
        current: Result<Option<Vec<u8>>, IoFailure>,
        prior_intent: Option<ProjectionIntent>,
        completion: Result<Option<ProjectionCompletion>, ProjectionStoreError>,
    ) -> (input: Result<CapabilityCapturedProjectionInput, ProjectionStoreError>)
        ensures
            match captured(
                *self,
                endpoint,
                resource,
                path,
                current,
                prior_intent,
                completion,
            ) {
                Err(error) => input == Err::<CapabilityCapturedProjectionInput, _>(error),
                Ok(state) => input == Ok::<_, ProjectionStoreError>(
                    CapabilityCapturedProjectionInput {
                        path,
                        endpoint,
                        store_id: self.store_id,
                        state,
                    },
                ),
            },
    {
        if let Err(error) = self.require_endpoint(endpoint) {
            return Err(error);
        }
        match resource {
            Err(failure) => return Err(ProjectionStoreError::Io(failure)),
            Ok(resource) => if resource != endpoint.graph_resource_id {
                return Err(ProjectionStoreError::GraphResourceMismatch);
            },
        }
        let current = match current {
            Err(failure) => return Err(ProjectionStoreError::Io(failure)),
            Ok(current) => current,
        };
        let state = match (current, prior_intent) {
            (None, None) => CapabilityCapturedProjectionState::Absent,
            (None, Some(_)) => return Err(ProjectionStoreError::CapturedInputMismatch),
            (Some(_), None) => return Err(ProjectionStoreError::MissingPriorCompletion),
            (Some(bytes), Some(intent)) => {
                if intent.workspace_id != self.workspace_id || !intent.path.same(&path)
                    || intent.target != BlobDescription::of(bytes.as_slice()) {
                    return Err(ProjectionStoreError::CapturedInputMismatch);
                }
                let prior_completion = match completion {
                    Err(error) => return Err(error),
                    Ok(None) => return Err(ProjectionStoreError::MissingPriorCompletion),
                    Ok(Some(completion)) => completion,
                };
                CapabilityCapturedProjectionState::Present {
                    bytes,
                    prior_intent: intent,
                    prior_completion,
                }
            },
        };
        Ok(
            CapabilityCapturedProjectionInput {
                path,
                endpoint,
                store_id: self.store_id,
                state,
            },
        )
    }
}

/// What is published is loaded again: where the base that an intent was published with and the
/// intent itself are read back, loading gives that intent.
pub proof fn law_published_intent_is_loaded(
    workspace_id: WorkspaceId,
    intent: ProjectionIntent,
    intent_id: ProjectionIntentId,
    encoded: Vec<u8>,
    base: Option<Vec<u8>>,
    published: PublishedIntent,
)
    requires
        publication_check(
            workspace_id,
            intent@,
            Ok(encoded),
            match base {
                None => None,
                Some(bytes) => Some(bytes@),
            },
        ) is Ok,
        published.stored is Ok,
        published.stored->Ok_0 is Some,
        published.stored->Ok_0->0.bytes@ == encoded@,
        published.stored->Ok_0->0.decoded == Ok::<_, ReceiptError>(intent),
        published.stored->Ok_0->0.encoded == Ok::<_, ReceiptError>(encoded),
        published.stored->Ok_0->0.intent_id == Ok::<_, ReceiptError>(intent_id),
        published.base == Ok::<_, ProjectionStoreError>(base),
    ensures
        loaded_intent(workspace_id, intent_id, published) == Ok::<_, ProjectionStoreError>(
            Some(intent),
        ),
        published_check(workspace_id, intent@, intent_id, published) is Ok,
        intent_base(workspace_id, intent@, published.base) == Ok::<_, ProjectionStoreError>(
            match base {
                None => None,
                Some(bytes) => Some(bytes@),
            },
        ),
{
}

/// What loading a published intent answers once the store no longer holds what was published: an
/// identity under which nothing is stored is no intent; a stored intent whose bytes are not the
/// canonical ones is refused; and so is one whose base is gone, or holds other bytes than those
/// described.
pub proof fn law_damaged_intent_is_refused(
    workspace_id: WorkspaceId,
    intent: ProjectionIntent,
    intent_id: ProjectionIntentId,
    encoded: Vec<u8>,
    base: Option<Seq<u8>>,
    published: PublishedIntent,
)
    requires
        publication_check(workspace_id, intent@, Ok(encoded), base) is Ok,
        published.stored is Ok,
        published.stored->Ok_0 is Some ==> {
            let stored = published.stored->Ok_0->0;
            &&& stored.decoded == Ok::<_, ReceiptError>(intent)
            &&& stored.intent_id == Ok::<_, ReceiptError>(intent_id)
            &&& stored.encoded == Ok::<_, ReceiptError>(encoded)
        },
        published.base is Ok,
    ensures
        ({
            let loaded = loaded_intent(workspace_id, intent_id, published);
            match published.stored->Ok_0 {
                None => loaded == Ok::<Option<ProjectionIntent>, ProjectionStoreError>(None),
                Some(stored) => if stored.bytes@ != encoded@ {
                    loaded == Err::<Option<ProjectionIntent>, _>(
                        ProjectionStoreError::NonCanonical("projection intent"),
                    )
                } else {
                    match intent@.precondition {
                        ProjectionPrecondition::Absent => true,
                        ProjectionPrecondition::Base(description) => match published.base->Ok_0 {
                            None => loaded == Err::<Option<ProjectionIntent>, _>(
                                ProjectionStoreError::MissingBase(description),
                            ),
                            Some(bytes) => BlobDescription::spec_of(bytes@) != description
                                ==> loaded == Err::<Option<ProjectionIntent>, _>(
                                ProjectionStoreError::BaseEvidenceMismatch(description),
                            ),
                        },
                    }
                },
            }
        }),
{
}

/// What reconciling gave counts exactly where it was owed: there it decides whether the completion
/// is given, and elsewhere it changes nothing. Nothing is owed for a retired intent.
pub proof fn law_only_owed_reconciliation_counts(
    store: ProjectionReceiptStore,
    intent: ProjectionIntentView,
    intent_id: ProjectionIntentId,
    published: PublishedIntent,
    stored: Result<Option<StoredCompletion>, ProjectionStoreError>,
    reconciled: Result<(), ProjectionStoreError>,
)
    ensures
        if reconciliation_is_due(store, intent, intent_id, published, stored) {
            loaded_completion(store, intent, intent_id, published, stored, reconciled) == match reconciled {
                Err(error) => Err(error),
                Ok(()) => Ok(Some(bound_completion(intent, intent_id, stored->Ok_0->0)->Ok_0)),
            }
        } else {
            loaded_completion(store, intent, intent_id, published, stored, reconciled)
                == loaded_completion(store, intent, intent_id, published, stored, Ok(()))
        },
        store.retired_own_endpoint_intents@.contains(intent_id) ==> !reconciliation_is_due(
            store,
            intent,
            intent_id,
            published,
            stored,
        ),
{
}

/// The receipts of a retired intent never count, whatever the store holds of it.
pub proof fn law_retired_receipts_do_not_count(
    store: ProjectionReceiptStore,
    intent: ProjectionIntentView,
    intent_id: ProjectionIntentId,
    published: PublishedIntent,
    stored: Result<Option<StoredCompletion>, ProjectionStoreError>,
    reconciled: Result<(), ProjectionStoreError>,
)
    requires
        store.retired_own_endpoint_intents@.contains(intent_id),
    ensures
        loaded_completion(store, intent, intent_id, published, stored, reconciled) == Ok::<
            Option<ProjectionCompletion>,
            ProjectionStoreError,
        >(None),
{
}

} // verus!
