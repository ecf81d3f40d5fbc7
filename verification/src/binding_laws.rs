//! What an accepted projection object binds, and what a store takes for one of its own.

use vstd::prelude::*;

use crate::annotation::{AnnotatedIdentity, ProjectionClaimEvidence, ReceiptError};
use crate::attempts::{AttemptChoice, AttemptEntry};
use crate::completion::ProjectionCompletion;
use crate::execution::ProjectionEndpointBinding;
use crate::hash::BlobDescription;
use crate::ids::{CanonicalGraphResourceId, ContentDigest, ProjectionIntentId, Uuid, WorkspaceId};
use crate::intent::{ProjectionIntent, ProjectionIntentView};
use crate::manifest::{
    intent_decoded, intent_document, ManifestObjectRef, ManifestedProjectionIntentWire,
    ObjectDescriptor, ObjectKind, ParsedProjectionIntent,
};
use crate::manifest_base::{base_decoded, AnnotatedProjectionBaseWire, ParsedAnnotatedBase};
use crate::manifest_check::{
    annotation_fault, annotations_check, annotations_fault, claim_fits, claims_check,
};
use crate::manifest_set::{
    first_descriptor, last_descriptor, reference_fault, references_fault, scan_base, scan_intent,
    scan_object, OperationBatch, OperationObject, ScannedObjects,
};
use crate::order::{lemma_words_transitive, words_before};
use crate::path::ManagedPath;
use crate::store::{
    attempt_outcome, bound_completion, captured, loaded_completion, named_intent, publication_check,
    published_check, publishes, ProjectionReceiptStore, PublicationStep, PublishedIntent,
    StoredCompletion, StoredIntent,
};
use crate::store_error::{IoFailure, ProjectionStoreError};
use crate::summary::{delta_intent, delta_row, DeltaIntent, DeltaRow};
use crate::text::hex_text;

verus! {

/// Where the first annotations have no fault, they are in order and sound.
proof fn lemma_annotations(annotations: Seq<AnnotatedIdentity>, n: nat, length: u64)
    requires
        n <= annotations.len(),
        annotations_fault(annotations, n, length) is None,
    ensures
        forall|i: int, j: int|
            0 <= i < j < n ==> words_before(
                (#[trigger] annotations[i]).locator.components@,
                (#[trigger] annotations[j]).locator.components@,
            ),
        forall|i: int, j: int|
            0 <= i < j < n ==> (#[trigger] annotations[i]).block_id != (
            #[trigger] annotations[j]).block_id && (annotations[i].logseq_uuid is Some
                ==> annotations[i].logseq_uuid != annotations[j].logseq_uuid),
        forall|i: int| 0 <= i < n ==> (#[trigger] annotations[i]).span.end <= length,
    decreases n,
{
    if n > 0 {
        lemma_annotations(annotations, (n - 1) as nat, length);
        let last = n - 1;
        assert(annotation_fault(annotations, last, length) is None);
        assert forall|i: int, j: int| 0 <= i < j < n implies words_before(
            (#[trigger] annotations[i]).locator.components@,
            (#[trigger] annotations[j]).locator.components@,
        ) by {
            if j == last && i < last - 1 {
                lemma_words_transitive(
                    annotations[i].locator.components@,
                    annotations[last - 1].locator.components@,
                    annotations[last].locator.components@,
                );
            }
        }
    }
}

/// Annotations are accepted only where there are no more than may be, they come in the order of
/// their positions, no two are of one block or of one written identity, and each ends within the
/// bytes.
pub proof fn law_accepted_annotations_are_canonical(
    annotations: Seq<AnnotatedIdentity>,
    length: u64,
)
    requires
        annotations_check(annotations, length) is Ok,
    ensures
        annotations.len() <= 100_000,
        forall|i: int, j: int|
            0 <= i < j < annotations.len() ==> words_before(
                (#[trigger] annotations[i]).locator.components@,
                (#[trigger] annotations[j]).locator.components@,
            ),
        forall|i: int, j: int|
            0 <= i < j < annotations.len() ==> (#[trigger] annotations[i]).block_id != (
            #[trigger] annotations[j]).block_id && (annotations[i].logseq_uuid is Some
                ==> annotations[i].logseq_uuid != annotations[j].logseq_uuid),
        forall|i: int|
            0 <= i < annotations.len() ==> (#[trigger] annotations[i]).span.end <= length,
{
    lemma_annotations(annotations, annotations.len(), length);
}

/// Claims are accepted only where each has participants, which ascend by block and then by document,
/// and the claims ascend by identity.
pub proof fn law_accepted_claims_are_canonical(evidence: Seq<ProjectionClaimEvidence>, i: int)
    requires
        claims_check(evidence) is Ok,
        0 <= i < evidence.len(),
    ensures
        evidence[i].participants@.len() > 0,
        i > 0 ==> evidence[i - 1].logseq_uuid.uuid.value < evidence[i].logseq_uuid.uuid.value,
        forall|k: int|
            0 <= k < evidence[i].participants@.len() - 1 ==> {
                let a = #[trigger] evidence[i].participants@[k];
                let b = evidence[i].participants@[k + 1];
                a.block_id.uuid.value < b.block_id.uuid.value || (a.block_id == b.block_id
                    && a.home_document_id.uuid.value < b.home_document_id.uuid.value)
            },
{
    assert(claim_fits(evidence, i));
}

/// An intent is accepted only in its version, under the key of its own path, with bytes that are
/// described as they are, and with no base to render over where it leaves no file.
pub proof fn law_accepted_intent_is_bound(fields: ManifestedProjectionIntentWire)
    requires
        fields.check() is Ok,
    ensures
        fields.schema_version == 2,
        fields.portable_path_key_version == 1,
        fields.portable_path_key_digest == fields.path.portable_key_digest,
        fields.target is Absent ==> fields.render_base is None,
        fields.target is Present ==> fields.target->description == BlobDescription::spec_of(
            fields.target->bytes@,
        ) && annotations_check(
            fields.target->annotations@,
            fields.target->bytes@.len() as u64,
        ) is Ok,
        claims_check(fields.claim_evidence@) is Ok,
{
}

/// A base is accepted only in its version, with bytes that are described as they are.
pub proof fn law_accepted_base_is_bound(fields: AnnotatedProjectionBaseWire)
    requires
        fields.check() is Ok,
    ensures
        fields.schema_version == 1,
        fields.description == BlobDescription::spec_of(fields.bytes@),
        annotations_check(fields.annotations@, fields.bytes@.len() as u64) is Ok,
        claims_check(fields.claim_evidence@) is Ok,
{
}

/// An intent of a batch is taken in only under its own document, where it is of the batch, its
/// workspace, author and session, and no other of its endpoint, page and path was; a base only of
/// the batch's workspace, and once.
pub proof fn law_objects_are_of_their_batch(
    batch: OperationBatch,
    scanned: ScannedObjects,
    document_id: crate::ids::DocumentId,
    intent: ManifestedProjectionIntentWire,
    payload: Seq<u8>,
    base: AnnotatedProjectionBaseWire,
)
    ensures
        scan_intent(batch, scanned, document_id, intent) is Ok <==> {
            &&& document_id == intent_document(intent)
            &&& intent.workspace_id == batch.workspace_id
            &&& intent.source_batch_id == batch.batch_id
            &&& intent.source_author_device_id == batch.author_device_id
            &&& intent.source_author_session_id == batch.author_session_id
            &&& forall|i: int|
                0 <= i < scanned.intents.len() ==> {
                    ||| (#[trigger] scanned.intents[i]).source_endpoint_id
                        != intent.source_endpoint_id
                    ||| scanned.intents[i].page_id != intent.page_id
                    ||| scanned.intents[i].path.text@ != intent.path.text@
                }
        },
        scan_intent(batch, scanned, document_id, intent) is Ok ==> scan_intent(
            batch,
            scanned,
            document_id,
            intent,
        )->Ok_0 == (ScannedObjects { intents: scanned.intents.push(intent), ..scanned }),
        scan_base(batch, scanned, document_id, payload, base) is Ok ==> base.workspace_id
            == batch.workspace_id && !scanned.bases.dom().contains(document_id.uuid.value)
            && scan_base(batch, scanned, document_id, payload, base)->Ok_0 == (ScannedObjects {
            bases: scanned.bases.insert(document_id.uuid.value, base),
            ..scanned
        }),
{
    if scan_intent(batch, scanned, document_id, intent) is Ok {
        assert forall|i: int| 0 <= i < scanned.intents.len() implies {
            ||| (#[trigger] scanned.intents[i]).source_endpoint_id != intent.source_endpoint_id
            ||| scanned.intents[i].page_id != intent.page_id
            ||| scanned.intents[i].path.text@ != intent.path.text@
        } by {
            assert(!crate::manifest_set::same_intent_key(scanned.intents[i], intent));
        }
    }
}

/// A base that an intent refers to is one of the batch, of the intent's endpoint and page, and, where
/// the file must hold it, of the intent's path.
pub proof fn law_referenced_base_is_of_the_intent(
    batch: OperationBatch,
    bases: Map<u128, AnnotatedProjectionBaseWire>,
    intent: ManifestedProjectionIntentWire,
)
    requires
        references_fault(batch, bases, intent) is None,
    ensures
        intent.precondition is Present ==> {
            let reference = intent.precondition->base;
            &&& bases.dom().contains(reference.document_id.uuid.value)
            &&& bases[reference.document_id.uuid.value].endpoint_id == intent.source_endpoint_id
            &&& bases[reference.document_id.uuid.value].source_page_id == intent.page_id
            &&& bases[reference.document_id.uuid.value].source_path.text@ == intent.path.text@
        },
        intent.render_base is Some ==> {
            let reference = intent.render_base->0;
            &&& bases.dom().contains(reference.document_id.uuid.value)
            &&& bases[reference.document_id.uuid.value].endpoint_id == intent.source_endpoint_id
            &&& bases[reference.document_id.uuid.value].source_page_id == intent.page_id
        },
{
}

/// Whether stored bytes are an intent of a workspace, in their canonical form and under its
/// identity.
pub open spec fn stores_intent(
    workspace_id: WorkspaceId,
    intent_id: ProjectionIntentId,
    stored: StoredIntent,
    intent: ProjectionIntent,
) -> bool {
    &&& stored.decoded == Ok::<_, ReceiptError>(intent)
    &&& intent@.workspace_id == workspace_id
    &&& stored.intent_id is Ok
    &&& stored.intent_id->Ok_0 == intent_id
    &&& stored.encoded is Ok
    &&& stored.encoded->Ok_0@ == stored.bytes@
}

/// A store takes bytes for an intent exactly where they are one of its workspace, canonical and
/// under its identity.
pub proof fn law_store_reads_its_own_intents(
    workspace_id: WorkspaceId,
    intent_id: ProjectionIntentId,
    stored: StoredIntent,
    intent: ProjectionIntent,
)
    ensures
        named_intent(workspace_id, intent_id, stored) == Ok::<_, ProjectionStoreError>(intent)
            <==> stores_intent(workspace_id, intent_id, stored, intent),
{
}

/// An intent counts as published only where the store holds exactly it, with the base that it
/// starts from.
pub proof fn law_published_intent_is_stored_with_its_base(
    workspace_id: WorkspaceId,
    intent: ProjectionIntentView,
    intent_id: ProjectionIntentId,
    published: PublishedIntent,
)
    requires
        published_check(workspace_id, intent, intent_id, published) is Ok,
    ensures
        intent.workspace_id == workspace_id,
        published.stored is Ok,
        published.stored->Ok_0 is Some,
        published.stored->Ok_0->0.decoded is Ok,
        stores_intent(
            workspace_id,
            intent_id,
            published.stored->Ok_0->0,
            published.stored->Ok_0->0.decoded->Ok_0,
        ),
        published.stored->Ok_0->0.decoded->Ok_0@ == intent,
        intent.precondition is Base ==> published.base is Ok && published.base->Ok_0 is Some
            && BlobDescription::spec_of((published.base->Ok_0->0)@)
            == intent.precondition->Base_0 && intent.precondition->Base_0.byte_length <= 64 * 1024
            * 1024,
{
}

/// An intent is published only into its own workspace, with a target and an encoding that are not
/// too long, and with exactly the base that it starts from, or none where it starts from none.
pub proof fn law_intent_is_published_with_its_base(
    workspace_id: WorkspaceId,
    intent: ProjectionIntentView,
    encoded: Result<Vec<u8>, ReceiptError>,
    base: Option<Seq<u8>>,
)
    requires
        encoded is Ok ==> encoded->Ok_0@.len() <= u64::MAX,
    ensures
        publication_check(workspace_id, intent, encoded, base) is Ok <==> {
            &&& intent.workspace_id == workspace_id
            &&& encoded is Ok
            &&& encoded->Ok_0@.len() <= 64 * 1024 * 1024
            &&& intent.target.byte_length <= 64 * 1024 * 1024
            &&& intent.precondition is Absent ==> base is None
            &&& intent.precondition is Base ==> base is Some && BlobDescription::spec_of(base->0)
                == intent.precondition->Base_0 && intent.precondition->Base_0.byte_length <= 64
                * 1024 * 1024
        },
{
}

/// The base is published first, then the two directories are made, and the intent is published
/// last, under its identity.
pub proof fn law_intent_is_published_last(
    steps: Seq<PublicationStep>,
    intent_id: ProjectionIntentId,
    intent: ProjectionIntentView,
    encoded: Seq<u8>,
    base: Option<Seq<u8>>,
)
    requires
        publishes(steps, intent_id, intent, encoded, base),
    ensures
        base is Some ==> steps.len() == 4 && steps[0] is Base && steps[0]->Base_bytes@ == base->0
            && steps[0]->Base_name@ == hex_text(intent.precondition->Base_0.sha256.spec_bytes())
            + ".base"@,
        base is None ==> steps.len() == 3,
        forall|k: int| 0 <= k < steps.len() - 1 ==> !((#[trigger] steps[k]) is Intent),
        steps[steps.len() - 3] is AttemptNamespace,
        steps[steps.len() - 2] is ForensicNamespace,
        steps[steps.len() - 1] is Intent,
        steps[steps.len() - 1]->Intent_bytes@ == encoded,
        steps[steps.len() - 1]->Intent_name@ == hex_text(intent_id.digest.spec_bytes())
            + ".intent"@,
{
}

/// A stored completion counts only for the intent that it completes: of its identity, leaving what
/// it leaves, and in canonical form.
pub proof fn law_completion_is_of_its_intent(
    intent: ProjectionIntentView,
    intent_id: ProjectionIntentId,
    stored: StoredCompletion,
)
    ensures
        bound_completion(intent, intent_id, stored) is Ok <==> {
            &&& stored.decoded is Ok
            &&& stored.decoded->Ok_0.intent_id == intent_id
            &&& stored.decoded->Ok_0.target_kind == intent.target_kind
            &&& stored.decoded->Ok_0.target == intent.target
            &&& stored.encoded is Ok
            &&& stored.encoded->Ok_0@ == stored.bytes@
        },
        bound_completion(intent, intent_id, stored) is Ok ==> bound_completion(
            intent,
            intent_id,
            stored,
        )->Ok_0 == stored.decoded->Ok_0,
{
}

/// A completion is read back exactly where it is there and its intent was not retired; what is read
/// is of a published intent, and its mutation was reconciled.
pub proof fn law_loaded_completion_is_reconciled(
    store: ProjectionReceiptStore,
    intent: ProjectionIntentView,
    intent_id: ProjectionIntentId,
    published: PublishedIntent,
    stored: Result<Option<StoredCompletion>, ProjectionStoreError>,
    reconciled: Result<(), ProjectionStoreError>,
)
    ensures
        ({
            let loaded = loaded_completion(
                store,
                intent,
                intent_id,
                published,
                stored,
                reconciled,
            );
            let retired = store.retired_own_endpoint_intents@.contains(intent_id);
            &&& retired ==> loaded is Ok && loaded->Ok_0 is None
            &&& loaded is Ok && loaded->Ok_0 is Some ==> !retired && reconciled is Ok
                && published_check(store.workspace_id, intent, intent_id, published) is Ok
                && stored is Ok && stored->Ok_0 is Some && bound_completion(
                intent,
                intent_id,
                stored->Ok_0->0,
            ) == Ok::<_, ProjectionStoreError>(loaded->Ok_0->0)
            &&& loaded is Ok && loaded->Ok_0 is None ==> retired || stored is Ok
                && stored->Ok_0 is None
        }),
{
}

/// What a file is captured as: absent only where there is none and nothing was projected there;
/// present only where it holds exactly what the last projection there left, in this workspace and at
/// this path, and that was completed. Only the store's own endpoint captures, on its own graph.
pub proof fn law_captured_file_is_what_was_projected(
    store: ProjectionReceiptStore,
    endpoint: ProjectionEndpointBinding,
    resource: Result<CanonicalGraphResourceId, IoFailure>,
    path: ManagedPath,
    current: Result<Option<Vec<u8>>, IoFailure>,
    prior_intent: Option<ProjectionIntent>,
    completion: Result<Option<ProjectionCompletion>, ProjectionStoreError>,
)
    ensures
        ({
            let result = captured(
                store,
                endpoint,
                resource,
                path,
                current,
                prior_intent,
                completion,
            );
            &&& result is Ok ==> store.endpoint == Some(endpoint) && resource is Ok
                && resource->Ok_0 == endpoint.graph_resource_id && current is Ok
            &&& result is Ok && result->Ok_0 is Absent ==> current->Ok_0 is None
                && prior_intent is None
            &&& result is Ok && result->Ok_0 is Present ==> {
                &&& current->Ok_0 == Some(result->Ok_0->bytes)
                &&& prior_intent == Some(result->Ok_0->prior_intent)
                &&& prior_intent->0.workspace_id == store.workspace_id
                &&& prior_intent->0.path.text@ == path.text@
                &&& prior_intent->0.target == BlobDescription::spec_of((current->Ok_0->0)@)
                &&& completion is Ok
                &&& completion->Ok_0 == Some(result->Ok_0->prior_completion)
            }
            &&& store.endpoint == Some(endpoint) && resource == Ok::<_, IoFailure>(
                endpoint.graph_resource_id,
            ) && current is Ok && current->Ok_0 is None && prior_intent is None ==> result is Ok
        }),
{
}

/// What a snapshot of names adds is read by its name alone: an intent under its own identity, and a
/// completed one with its completion.
pub proof fn law_added_rows_are_under_their_names(
    store: ProjectionReceiptStore,
    intent: DeltaIntent,
    row: DeltaRow,
)
    ensures
        delta_intent(store, intent) is Ok ==> {
            &&& intent.stored is Ok
            &&& intent.stored->Ok_0 is Some
            &&& intent.stored->Ok_0->0.intent_id is Ok
            &&& intent.name@ == hex_text(
                intent.stored->Ok_0->0.intent_id->Ok_0.digest.spec_bytes(),
            ) + ".intent"@
            &&& stores_intent(
                store.workspace_id,
                intent.stored->Ok_0->0.intent_id->Ok_0,
                intent.stored->Ok_0->0,
                delta_intent(store, intent)->Ok_0,
            )
        },
        delta_row(store, row) is Ok ==> {
            let entry = delta_row(store, row)->Ok_0;
            &&& row.stored is Ok
            &&& row.stored->Ok_0 is Some
            &&& row.name@ == hex_text(entry.intent_id.digest.spec_bytes()) + ".completion"@
            &&& stores_intent(
                store.workspace_id,
                entry.intent_id,
                row.stored->Ok_0->0,
                entry.intent,
            )
            &&& entry.completion is Some
            &&& row.completion is Ok
            &&& row.completion->Ok_0 == entry.completion
        },
{
}

/// An attempt is reserved only for a published intent, under its lease, for the attempt that the
/// turn works on, and while no mutation is pending.
pub proof fn law_attempt_is_reserved_for_the_turn(
    workspace_id: WorkspaceId,
    intent: ProjectionIntentView,
    intent_id: ProjectionIntentId,
    published: PublishedIntent,
    lease: Result<(), ProjectionStoreError>,
    current_attempt: Option<Uuid>,
    pending: Result<bool, ProjectionStoreError>,
    entries: Seq<AttemptEntry>,
    chosen: Result<AttemptChoice, ProjectionStoreError>,
)
    requires
        attempt_outcome(
            workspace_id,
            intent,
            intent_id,
            published,
            lease,
            current_attempt,
            pending,
            entries,
            chosen,
        ),
        chosen is Ok,
    ensures
        published_check(workspace_id, intent, intent_id, published) is Ok,
        lease is Ok,
        current_attempt is Some,
        pending is Ok,
        !pending->Ok_0,
        chosen->Ok_0 is New ==> chosen->Ok_0->New_0.attempt_id == current_attempt->0
            && chosen->Ok_0->New_0.intent_id == intent_id,
{
}

/// The last descriptor with a digest is one of the descriptors, and has it.
proof fn lemma_last_descriptor(descriptors: Seq<ObjectDescriptor>, digest: ContentDigest)
    ensures
        last_descriptor(descriptors, digest) is Some ==> descriptors.contains(
            last_descriptor(descriptors, digest)->0,
        ) && last_descriptor(descriptors, digest)->0.content_digest == digest,
    decreases descriptors.len(),
{
    if descriptors.len() > 0 {
        if descriptors.last().content_digest == digest {
            assert(descriptors[descriptors.len() - 1] == descriptors.last());
        } else {
            let front = descriptors.drop_last();
            lemma_last_descriptor(front, digest);
            if last_descriptor(front, digest) is Some {
                let k = front.index_of(last_descriptor(front, digest)->0);
                assert(descriptors[k] == front[k]);
            }
        }
    }
}

/// The first descriptor with a digest is one of the descriptors, and has it.
proof fn lemma_first_descriptor(descriptors: Seq<ObjectDescriptor>, digest: ContentDigest)
    ensures
        first_descriptor(descriptors, digest) is Some ==> descriptors.contains(
            first_descriptor(descriptors, digest)->0,
        ) && first_descriptor(descriptors, digest)->0.content_digest == digest,
    decreases descriptors.len(),
{
    if descriptors.len() > 0 {
        if descriptors.first().content_digest == digest {
            assert(descriptors[0] == descriptors.first());
        } else {
            let rest = descriptors.skip(1);
            lemma_first_descriptor(rest, digest);
            if first_descriptor(rest, digest) is Some {
                let k = rest.index_of(first_descriptor(rest, digest)->0);
                assert(descriptors[k + 1] == rest[k]);
            }
        }
    }
}

/// An object of a batch is taken in only where the batch requires exactly it; an object that is
/// neither an intent nor a base changes nothing.
pub proof fn law_only_required_objects_are_taken_in(
    batch: OperationBatch,
    scanned: ScannedObjects,
    object: OperationObject,
)
    requires
        scan_object(batch, scanned, object) is Ok,
    ensures
        object.descriptor is Ok,
        batch.required_objects@.contains(object.descriptor->Ok_0),
        !(object.content is ProjectionIntent) && !(object.content is AnnotatedBaseBlob)
            ==> scan_object(batch, scanned, object)->Ok_0 == scanned,
        object.content is ProjectionIntent ==> scan_object(batch, scanned, object)->Ok_0.bases
            == scanned.bases && scan_object(batch, scanned, object)->Ok_0.intents.len()
            == scanned.intents.len() + 1,
        object.content is AnnotatedBaseBlob ==> scan_object(batch, scanned, object)->Ok_0.intents
            == scanned.intents,
{
    lemma_last_descriptor(batch.required_objects@, object.descriptor->Ok_0.content_digest);
}

/// What an intent refers to is required by the batch as a base, under the same document, digest and
/// length.
pub proof fn law_references_are_required_bases(
    batch: OperationBatch,
    bases: Map<u128, AnnotatedProjectionBaseWire>,
    intent: ManifestedProjectionIntentWire,
    reference: ManifestObjectRef,
    is_precondition: bool,
)
    requires
        reference_fault(batch, bases, intent, reference, is_precondition) is None,
    ensures
        batch.required_objects@.contains(
            ObjectDescriptor {
                kind: ObjectKind::AnnotatedBaseBlob,
                document_id: reference.document_id,
                content_digest: reference.content_digest,
                encoded_byte_length: reference.encoded_byte_length,
            },
        ),
{
    lemma_first_descriptor(batch.required_objects@, reference.content_digest);
}

/// Intents and bases are read only within thirty-two mebibytes, and behind their own start: `TINEPRI2`
/// and `TINEPRB1`. More than a hundred thousand annotations or claims are refused.
pub proof fn law_objects_are_bounded_and_marked(
    bytes: Seq<u8>,
    intent: ParsedProjectionIntent,
    base: ParsedAnnotatedBase,
    annotations: Seq<AnnotatedIdentity>,
    length: u64,
    evidence: Seq<ProjectionClaimEvidence>,
)
    ensures
        intent_decoded(bytes, intent) is Ok ==> 8 <= bytes.len() <= 32 * 1024 * 1024 && bytes.take(
            8,
        ) == seq![0x54u8, 0x49, 0x4e, 0x45, 0x50, 0x52, 0x49, 0x32],
        base_decoded(bytes, base) is Ok ==> 8 <= bytes.len() <= 32 * 1024 * 1024 && bytes.take(8)
            == seq![0x54u8, 0x49, 0x4e, 0x45, 0x50, 0x52, 0x42, 0x31],
        annotations.len() > 100_000 ==> annotations_check(annotations, length) is Err
            && annotations_check(annotations, length)->Err_0 is TooManyAnnotations,
        evidence.len() > 100_000 ==> claims_check(evidence) is Err && claims_check(evidence)->Err_0
            is TooMuchClaimEvidence,
        annotations.len() <= 100_000 && annotations_check(annotations, length) is Err ==> !(
        annotations_check(annotations, length)->Err_0 is TooManyAnnotations),
{
    if annotations.len() <= 100_000 {
        lemma_fault_is_of_one(annotations, annotations.len(), length);
    }
}

/// A fault of annotations is never their number.
proof fn lemma_fault_is_of_one(annotations: Seq<AnnotatedIdentity>, n: nat, length: u64)
    ensures
        annotations_fault(annotations, n, length) is Some ==> !(annotations_fault(
            annotations,
            n,
            length,
        )->0 is TooManyAnnotations),
    decreases n,
{
    if n > 0 {
        lemma_fault_is_of_one(annotations, (n - 1) as nat, length);
    }
}

} // verus!
