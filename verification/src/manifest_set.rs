//! The projection objects of one batch, checked together.

use std::collections::{BTreeMap, HashSet};

use vstd::prelude::*;

use crate::ids::{BatchId, ContentDigest, DeviceId, DocumentId, SessionId, WorkspaceId};
use crate::manifest::{
    intent_decoded, intent_document, ManifestObjectRef, ManifestedProjectionIntent,
    ManifestedProjectionIntentWire, ObjectDescriptor, ObjectKind, ParsedProjectionIntent,
};
use crate::manifest_base::{
    base_decoded, AnnotatedProjectionBase, AnnotatedProjectionBaseWire, ParsedAnnotatedBase,
};
use crate::manifest_check::{annotated_base_document_id, spec_annotated_base_document_id};
use crate::manifest_error::ProjectionManifestError;
use crate::order::{bytes_before, bytes_in_order};

verus! {

broadcast use {
    vstd::std_specs::hash::group_hash_axioms,
    vstd::std_specs::btree::group_btree_axioms,
    vstd::laws_cmp::group_laws_cmp,
};

/// A batch of operations: who wrote it and which objects it requires.
#[derive(Clone, Debug, PartialEq, Eq)]
pub struct OperationBatch {
    pub workspace_id: WorkspaceId,
    pub batch_id: BatchId,
    pub author_device_id: DeviceId,
    pub author_session_id: SessionId,
    pub required_objects: Vec<ObjectDescriptor>,
}

/// What parsing the payload of an object gave.
#[derive(Debug, PartialEq, Eq)]
pub enum ObjectContent {
    SemanticEffect,
    CrdtUpdate,
    ExternalImportObservation,
    ProjectionIntent(ParsedProjectionIntent),
    AnnotatedBaseBlob(ParsedAnnotatedBase),
}

/// An object of a batch: its document, its payload with what parsing that gave, and how its
/// envelope describes it, or why the envelope cannot be described.
#[derive(Debug, PartialEq, Eq)]
pub struct OperationObject {
    pub document_id: DocumentId,
    pub payload: Vec<u8>,
    pub descriptor: Result<ObjectDescriptor, String>,
    pub content: ObjectContent,
}

impl OperationObject {
    /// What the object holds.
    pub open spec fn spec_kind(self) -> ObjectKind {
        match self.content {
            ObjectContent::SemanticEffect => ObjectKind::SemanticEffect,
            ObjectContent::CrdtUpdate => ObjectKind::CrdtUpdate,
            ObjectContent::ExternalImportObservation => ObjectKind::ExternalImportObservation,
            ObjectContent::ProjectionIntent(_) => ObjectKind::ProjectionIntent,
            ObjectContent::AnnotatedBaseBlob(_) => ObjectKind::AnnotatedBaseBlob,
        }
    }

    /// What the object holds.
    pub fn kind(&self) -> (kind: ObjectKind)
        ensures
            kind == self.spec_kind(),
    {
        match &self.content {
            ObjectContent::SemanticEffect => ObjectKind::SemanticEffect,
            ObjectContent::CrdtUpdate => ObjectKind::CrdtUpdate,
            ObjectContent::ExternalImportObservation => ObjectKind::ExternalImportObservation,
            ObjectContent::ProjectionIntent(_) => ObjectKind::ProjectionIntent,
            ObjectContent::AnnotatedBaseBlob(_) => ObjectKind::AnnotatedBaseBlob,
        }
    }
}

/// The last descriptor with the given digest.
pub open spec fn last_descriptor(
    descriptors: Seq<ObjectDescriptor>,
    digest: ContentDigest,
) -> Option<ObjectDescriptor>
    decreases descriptors.len(),
{
    if descriptors.len() == 0 {
        None
    } else if descriptors.last().content_digest == digest {
        Some(descriptors.last())
    } else {
        last_descriptor(descriptors.drop_last(), digest)
    }
}

/// The first descriptor with the given digest.
pub open spec fn first_descriptor(
    descriptors: Seq<ObjectDescriptor>,
    digest: ContentDigest,
) -> Option<ObjectDescriptor>
    decreases descriptors.len(),
{
    if descriptors.len() == 0 {
        None
    } else if descriptors.first().content_digest == digest {
        Some(descriptors.first())
    } else {
        first_descriptor(descriptors.skip(1), digest)
    }
}

/// The last descriptor with the given digest.
fn find_last_descriptor(descriptors: &Vec<ObjectDescriptor>, digest: ContentDigest) -> (found:
    Option<ObjectDescriptor>)
    ensures
        found == last_descriptor(descriptors@, digest),
{
    let mut at: usize = descriptors.len();
    assert(descriptors@.take(at as int) =~= descriptors@);
    while at > 0
        invariant
            at <= descriptors@.len(),
            last_descriptor(descriptors@, digest) == last_descriptor(
                descriptors@.take(at as int),
                digest,
            ),
        decreases at,
    {
        proof {
            let front = descriptors@.take(at as int);
            assert(front.last() == descriptors@[at - 1]);
            assert(front.drop_last() =~= descriptors@.take(at - 1));
        }
        if descriptors[at - 1].content_digest == digest {
            return Some(descriptors[at - 1]);
        }
        at -= 1;
    }
    None
}

/// The first descriptor with the given digest.
fn find_first_descriptor(descriptors: &Vec<ObjectDescriptor>, digest: ContentDigest) -> (found:
    Option<ObjectDescriptor>)
    ensures
        found == first_descriptor(descriptors@, digest),
{
    let mut at: usize = 0;
    assert(descriptors@.skip(0) =~= descriptors@);
    while at < descriptors.len()
        invariant
            at <= descriptors@.len(),
            first_descriptor(descriptors@, digest) == first_descriptor(
                descriptors@.skip(at as int),
                digest,
            ),
        decreases descriptors@.len() - at,
    {
        proof {
            let rest = descriptors@.skip(at as int);
            assert(rest.first() == descriptors@[at as int]);
            assert(rest.skip(1) =~= descriptors@.skip(at + 1));
        }
        if descriptors[at].content_digest == digest {
            return Some(descriptors[at]);
        }
        at += 1;
    }
    None
}

/// What the objects of a batch hold so far: the intents in order, and the bases by document.
pub struct ScannedObjects {
    pub intents: Seq<ManifestedProjectionIntentWire>,
    pub bases: Map<u128, AnnotatedProjectionBaseWire>,
}

/// Whether two intents are for the same endpoint, page and path.
pub open spec fn same_intent_key(
    a: ManifestedProjectionIntentWire,
    b: ManifestedProjectionIntentWire,
) -> bool {
    &&& a.source_endpoint_id == b.source_endpoint_id
    &&& a.page_id == b.page_id
    &&& a.path.text@ == b.path.text@
}

/// Whether an intent names the batch that carries it and who wrote that.
pub open spec fn intent_bound(batch: OperationBatch, intent: ManifestedProjectionIntentWire) -> bool {
    &&& intent.workspace_id == batch.workspace_id
    &&& intent.source_batch_id == batch.batch_id
    &&& intent.source_author_device_id == batch.author_device_id
    &&& intent.source_author_session_id == batch.author_session_id
}

/// What is scanned after an object that holds an intent, or why it is refused.
pub open spec fn scan_intent(
    batch: OperationBatch,
    scanned: ScannedObjects,
    document_id: DocumentId,
    intent: ManifestedProjectionIntentWire,
) -> Result<ScannedObjects, ProjectionManifestError> {
    if document_id != intent_document(intent) {
        Err(
            ProjectionManifestError::DescriptorDocumentMismatch {
                kind: "projection intent",
                expected: intent_document(intent),
                found: document_id,
            },
        )
    } else if !intent_bound(batch, intent) {
        Err(
            ProjectionManifestError::InvalidBinding(
                "projection intent source binding does not match manifest",
            ),
        )
    } else if exists|i: int|
        0 <= i < scanned.intents.len() && same_intent_key(#[trigger] scanned.intents[i], intent) {
        Err(ProjectionManifestError::DuplicateIntent)
    } else {
        Ok(ScannedObjects { intents: scanned.intents.push(intent), bases: scanned.bases })
    }
}

/// What is scanned after an object that holds a base, or why it is refused.
pub open spec fn scan_base(
    batch: OperationBatch,
    scanned: ScannedObjects,
    document_id: DocumentId,
    payload: Seq<u8>,
    base: AnnotatedProjectionBaseWire,
) -> Result<ScannedObjects, ProjectionManifestError> {
    if document_id != spec_annotated_base_document_id(payload) {
        Err(
            ProjectionManifestError::DescriptorDocumentMismatch {
                kind: "annotated base",
                expected: spec_annotated_base_document_id(payload),
                found: document_id,
            },
        )
    } else if base.workspace_id != batch.workspace_id {
        Err(
            ProjectionManifestError::InvalidBinding(
                "annotated base workspace does not match manifest",
            ),
        )
    } else if scanned.bases.dom().contains(document_id.uuid.value) {
        Err(ProjectionManifestError::DuplicateBase)
    } else {
        Ok(
            ScannedObjects {
                intents: scanned.intents,
                bases: scanned.bases.insert(document_id.uuid.value, base),
            },
        )
    }
}

/// What is scanned after one more object, or why that object is refused.
pub open spec fn scan_object(
    batch: OperationBatch,
    scanned: ScannedObjects,
    object: OperationObject,
) -> Result<ScannedObjects, ProjectionManifestError> {
    match object.descriptor {
        Err(message) => Err(ProjectionManifestError::Object(message)),
        Ok(descriptor) => match last_descriptor(
            batch.required_objects@,
            descriptor.content_digest,
        ) {
            None => Err(
                ProjectionManifestError::InvalidBinding(
                    "projection object has no manifest descriptor",
                ),
            ),
            Some(expected) => if expected != descriptor {
                Err(
                    ProjectionManifestError::InvalidBinding(
                        "projection object descriptor mismatch",
                    ),
                )
            } else {
                match object.content {
                    ObjectContent::ProjectionIntent(parsed) => match intent_decoded(
                        object.payload@,
                        parsed,
                    ) {
                        Err(error) => Err(error),
                        Ok(intent) => scan_intent(batch, scanned, object.document_id, intent),
                    },
                    ObjectContent::AnnotatedBaseBlob(parsed) => match base_decoded(
                        object.payload@,
                        parsed,
                    ) {
                        Err(error) => Err(error),
                        Ok(base) => scan_base(
                            batch,
                            scanned,
                            object.document_id,
                            object.payload@,
                            base,
                        ),
                    },
                    _ => Ok(scanned),
                }
            },
        },
    }
}

/// What the objects of a batch hold, or why the first refused object is refused.
pub open spec fn scan_objects(batch: OperationBatch, objects: Seq<OperationObject>) -> Result<
    ScannedObjects,
    ProjectionManifestError,
>
    decreases objects.len(),
{
    if objects.len() == 0 {
        Ok(ScannedObjects { intents: Seq::empty(), bases: Map::empty() })
    } else {
        match scan_objects(batch, objects.drop_last()) {
            Err(error) => Err(error),
            Ok(scanned) => scan_object(batch, scanned, objects.last()),
        }
    }
}

/// A refused object refuses every longer list.
proof fn lemma_scan_stays(batch: OperationBatch, objects: Seq<OperationObject>, k: int)
    requires
        0 <= k <= objects.len(),
        scan_objects(batch, objects.take(k)) is Err,
    ensures
        scan_objects(batch, objects) == scan_objects(batch, objects.take(k)),
    decreases objects.len(),
{
    if k < objects.len() {
        assert(objects.drop_last().take(k) =~= objects.take(k));
        lemma_scan_stays(batch, objects.drop_last(), k);
    } else {
        assert(objects.take(k) =~= objects);
    }
}

/// What is wrong with a reference of an intent to a base.
pub open spec fn reference_fault(
    batch: OperationBatch,
    bases: Map<u128, AnnotatedProjectionBaseWire>,
    intent: ManifestedProjectionIntentWire,
    reference: ManifestObjectRef,
    is_precondition: bool,
) -> Option<ProjectionManifestError> {
    match first_descriptor(batch.required_objects@, reference.content_digest) {
        None => Some(ProjectionManifestError::MissingBaseReference),
        Some(descriptor) => if !reference.spec_matches(descriptor) {
            Some(ProjectionManifestError::BaseReferenceMismatch)
        } else if !bases.dom().contains(reference.document_id.uuid.value) {
            Some(ProjectionManifestError::MissingBaseReference)
        } else {
            let base = bases[reference.document_id.uuid.value];
            if base.endpoint_id != intent.source_endpoint_id || base.source_page_id
                != intent.page_id {
                Some(
                    ProjectionManifestError::InvalidBinding(
                        "annotated base endpoint/page does not match intent",
                    ),
                )
            } else if is_precondition && base.source_path.text@ != intent.path.text@ {
                Some(
                    ProjectionManifestError::InvalidBinding(
                        "precondition base path does not match intent path",
                    ),
                )
            } else {
                None
            }
        },
    }
}

/// What is wrong with the references of an intent: first its precondition's, then its render
/// base's.
pub open spec fn references_fault(
    batch: OperationBatch,
    bases: Map<u128, AnnotatedProjectionBaseWire>,
    intent: ManifestedProjectionIntentWire,
) -> Option<ProjectionManifestError> {
    let first = match intent.precondition.spec_base() {
        Some(reference) => reference_fault(batch, bases, intent, reference, true),
        None => None,
    };
    if first is Some {
        first
    } else {
        match intent.render_base {
            Some(reference) => reference_fault(batch, bases, intent, reference, false),
            None => None,
        }
    }
}

/// What is wrong with the first intent, among the first `n`, that has a faulty reference.
pub open spec fn intents_fault(
    batch: OperationBatch,
    bases: Map<u128, AnnotatedProjectionBaseWire>,
    intents: Seq<ManifestedProjectionIntentWire>,
    n: nat,
) -> Option<ProjectionManifestError>
    decreases n,
{
    if n == 0 {
        None
    } else {
        match intents_fault(batch, bases, intents, (n - 1) as nat) {
            Some(error) => Some(error),
            None => references_fault(batch, bases, intents[n - 1]),
        }
    }
}

/// A fault among the first intents is the fault of all of them.
proof fn lemma_intents_fault_stays(
    batch: OperationBatch,
    bases: Map<u128, AnnotatedProjectionBaseWire>,
    intents: Seq<ManifestedProjectionIntentWire>,
    k: nat,
    n: nat,
)
    requires
        k <= n,
        intents_fault(batch, bases, intents, k) is Some,
    ensures
        intents_fault(batch, bases, intents, n) == intents_fault(batch, bases, intents, k),
    decreases n,
{
    if k < n {
        lemma_intents_fault_stays(batch, bases, intents, k, (n - 1) as nat);
    }
}

/// Whether an intent refers to the base of the given document.
pub open spec fn intent_refers(intent: ManifestedProjectionIntentWire, document: u128) -> bool {
    ||| intent.precondition.spec_base() is Some
        && intent.precondition.spec_base()->0.document_id.uuid.value == document
    ||| intent.render_base is Some && intent.render_base->0.document_id.uuid.value == document
}

/// Whether some intent refers to the base of the given document.
pub open spec fn is_referenced(
    intents: Seq<ManifestedProjectionIntentWire>,
    document: u128,
) -> bool {
    exists|i: int| 0 <= i < intents.len() && intent_refers(#[trigger] intents[i], document)
}

/// Whether some base is referred to by no intent.
pub open spec fn has_orphan(scanned: ScannedObjects) -> bool {
    exists|document: u128| #[trigger]
        scanned.bases.dom().contains(document) && !is_referenced(scanned.intents, document)
}

/// Whether intent `a` comes before `b`: by endpoint, then page, then the bytes of the path.
pub open spec fn intent_before(
    a: ManifestedProjectionIntentWire,
    b: ManifestedProjectionIntentWire,
) -> bool {
    let (x, y) = (a.source_endpoint_id.uuid.value, b.source_endpoint_id.uuid.value);
    let (p, q) = (a.page_id.uuid.value, b.page_id.uuid.value);
    x < y || (x == y && (p < q || (p == q && bytes_before(
        vstd::utf8::encode_utf8(a.path.text@),
        vstd::utf8::encode_utf8(b.path.text@),
    ))))
}

/// The intents with `intent` put behind every intent that it does not come before.
pub open spec fn insert_intent(
    intents: Seq<ManifestedProjectionIntentWire>,
    intent: ManifestedProjectionIntentWire,
) -> Seq<ManifestedProjectionIntentWire>
    decreases intents.len(),
{
    if intents.len() > 0 && intent_before(intent, intents.last()) {
        insert_intent(intents.drop_last(), intent).push(intents.last())
    } else {
        intents.push(intent)
    }
}

/// The intents in order.
pub open spec fn sorted_intents(intents: Seq<ManifestedProjectionIntentWire>) -> Seq<
    ManifestedProjectionIntentWire,
>
    decreases intents.len(),
{
    if intents.len() == 0 {
        intents
    } else {
        insert_intent(sorted_intents(intents.drop_last()), intents.last())
    }
}

/// The verdict on the objects of a batch: what they hold, or why they are refused.
pub open spec fn object_set_verdict(
    batch: OperationBatch,
    objects: Seq<OperationObject>,
) -> Result<ScannedObjects, ProjectionManifestError> {
    match scan_objects(batch, objects) {
        Err(error) => Err(error),
        Ok(scanned) => match intents_fault(
            batch,
            scanned.bases,
            scanned.intents,
            scanned.intents.len(),
        ) {
            Some(error) => Err(error),
            None => if has_orphan(scanned) {
                Err(ProjectionManifestError::OrphanBase)
            } else {
                Ok(
                    ScannedObjects {
                        intents: sorted_intents(scanned.intents),
                        bases: scanned.bases,
                    },
                )
            },
        },
    }
}

/// The projection objects of a batch that passed every check.
#[derive(Debug, PartialEq, Eq)]
pub struct ValidatedProjectionObjects {
    intents: Vec<ManifestedProjectionIntent>,
    bases: BTreeMap<u128, AnnotatedProjectionBase>,
}

/// The fields of a list of intents.
pub open spec fn intent_wires(intents: Seq<ManifestedProjectionIntent>) -> Seq<
    ManifestedProjectionIntentWire,
> {
    intents.map_values(|intent: ManifestedProjectionIntent| intent.wire())
}

/// The fields of a map of bases.
pub open spec fn base_wires(bases: Map<u128, AnnotatedProjectionBase>) -> Map<
    u128,
    AnnotatedProjectionBaseWire,
> {
    bases.map_values(|base: AnnotatedProjectionBase| base.wire())
}

impl View for ValidatedProjectionObjects {
    type V = ScannedObjects;

    closed spec fn view(&self) -> ScannedObjects {
        ScannedObjects { intents: intent_wires(self.intents@), bases: base_wires(self.bases@) }
    }
}

impl ValidatedProjectionObjects {
    /// The intents, in order.
    pub fn intents(&self) -> (intents: &[ManifestedProjectionIntent])
        ensures
            intent_wires(intents@) == self@.intents,
    {
        self.intents.as_slice()
    }

    /// The bases, each under the number of its document.
    pub fn bases(&self) -> (bases: &BTreeMap<u128, AnnotatedProjectionBase>)
        ensures
            base_wires(bases@) == self@.bases,
    {
        &self.bases
    }

    /// The intents and the bases.
    pub fn into_parts(self) -> (parts: (
        Vec<ManifestedProjectionIntent>,
        BTreeMap<u128, AnnotatedProjectionBase>,
    ))
        ensures
            intent_wires(parts.0@) == self@.intents,
            base_wires(parts.1@) == self@.bases,
    {
        (self.intents, self.bases)
    }
}

/// Whether an intent with the same endpoint, page and path is there already.
fn holds_key(
    intents: &Vec<ManifestedProjectionIntent>,
    intent: &ManifestedProjectionIntent,
) -> (holds: bool)
    ensures
        holds == exists|i: int|
            0 <= i < intents@.len() && same_intent_key(
                #[trigger] intent_wires(intents@)[i],
                intent.wire(),
            ),
{
    let mut at: usize = 0;
    while at < intents.len()
        invariant
            at <= intents@.len(),
            forall|i: int|
                0 <= i < at ==> !same_intent_key(
                    #[trigger] intent_wires(intents@)[i],
                    intent.wire(),
                ),
        decreases intents@.len() - at,
    {
        let other = &intents[at];
        assert(intent_wires(intents@)[at as int] == other.wire());
        if other.source_endpoint_id() == intent.source_endpoint_id() && other.page_id()
            == intent.page_id() && other.path().same(intent.path()) {
            return true;
        }
        at += 1;
    }
    false
}

/// Checks one reference of an intent to a base.
fn check_reference(
    batch: &OperationBatch,
    bases: &BTreeMap<u128, AnnotatedProjectionBase>,
    intent: &ManifestedProjectionIntent,
    reference: &ManifestObjectRef,
    is_precondition: bool,
) -> (checked: Result<(), ProjectionManifestError>)
    ensures
        match reference_fault(
            *batch,
            base_wires(bases@),
            intent.wire(),
            *reference,
            is_precondition,
        ) {
            Some(error) => checked == Err::<(), _>(error),
            None => checked == Ok::<(), ProjectionManifestError>(()),
        },
{
    let descriptor = match find_first_descriptor(
        &batch.required_objects,
        reference.content_digest,
    ) {
        Some(descriptor) => descriptor,
        None => return Err(ProjectionManifestError::MissingBaseReference),
    };
    if !reference.matches(&descriptor) {
        return Err(ProjectionManifestError::BaseReferenceMismatch);
    }
    let base = match bases.get(&reference.document_id.uuid.value) {
        Some(base) => base,
        None => return Err(ProjectionManifestError::MissingBaseReference),
    };
    if base.endpoint_id() != intent.source_endpoint_id() || base.source_page_id()
        != intent.page_id() {
        return Err(
            ProjectionManifestError::InvalidBinding(
                "annotated base endpoint/page does not match intent",
            ),
        );
    }
    if is_precondition && !base.source_path().same(intent.path()) {
        return Err(
            ProjectionManifestError::InvalidBinding(
                "precondition base path does not match intent path",
            ),
        );
    }
    Ok(())
}

/// Whether intent `a` comes before `b`.
fn in_order(a: &ManifestedProjectionIntent, b: &ManifestedProjectionIntent) -> (before: bool)
    ensures
        before == intent_before(a.wire(), b.wire()),
{
    let (x, y): (u128, u128) = (
        a.source_endpoint_id().uuid.value,
        b.source_endpoint_id().uuid.value,
    );
    let (p, q): (u128, u128) = (a.page_id().uuid.value, b.page_id().uuid.value);
    x < y || (x == y && (p < q || (p == q && bytes_in_order(
        a.path().as_str().as_bytes(),
        b.path().as_str().as_bytes(),
    ))))
}

/// Puts intents in order.
fn sort_intents(intents: Vec<ManifestedProjectionIntent>) -> (sorted: Vec<
    ManifestedProjectionIntent,
>)
    ensures
        intent_wires(sorted@) == sorted_intents(intent_wires(intents@)),
{
    let mut sorted: Vec<ManifestedProjectionIntent> = Vec::new();
    let ghost all = intent_wires(intents@);
    let ghost held = intents@;
    assert(all.take(0) =~= Seq::<ManifestedProjectionIntentWire>::empty());
    assert(intent_wires(sorted@) =~= Seq::<ManifestedProjectionIntentWire>::empty());
    for intent in iter: intents.into_iter()
        invariant
            iter.seq() == held,
            all == intent_wires(held),
            intent_wires(sorted@) == sorted_intents(all.take(iter.index() as int)),
    {
        let ghost before = intent_wires(sorted@);
        let ghost entry = intent.wire();
        let mut at: usize = sorted.len();
        assert(before.take(at as int) =~= before);
        assert(insert_intent(before, entry) =~= insert_intent(before.take(at as int), entry)
            + before.skip(at as int));
        while at > 0 && in_order(&intent, &sorted[at - 1])
            invariant
                at <= sorted@.len(),
                intent_wires(sorted@) == before,
                entry == intent.wire(),
                insert_intent(before, entry) == insert_intent(before.take(at as int), entry)
                    + before.skip(at as int),
            decreases at,
        {
            proof {
                let front = before.take(at as int);
                assert(front.last() == before[at - 1]);
                assert(before[at - 1] == sorted@[at - 1].wire());
                assert(front.drop_last() =~= before.take(at - 1));
                assert(insert_intent(before, entry) =~= insert_intent(before.take(at - 1), entry)
                    + before.skip(at - 1));
            }
            at -= 1;
        }
        proof {
            let front = before.take(at as int);
            if at > 0 {
                assert(front.last() == before[at - 1]);
                assert(before[at - 1] == sorted@[at - 1].wire());
            }
            assert(insert_intent(before, entry) =~= before.insert(at as int, entry));
            let index = iter.index() as int;
            assert(all.take(index + 1).drop_last() =~= all.take(index));
            assert(all.take(index + 1).last() == entry);
        }
        sorted.insert(at, intent);
        assert(intent_wires(sorted@) =~= before.insert(at as int, entry));
    }
    assert(all.take(all.len() as int) =~= all);
    sorted
}

/// Checks the projection objects of a batch together: each is described by the batch and
/// canonical, the intents name the batch and differ in endpoint, page or path, every reference
/// finds its base, and every base is referred to.
pub fn validate_projection_object_set(
    manifest: &OperationBatch,
    objects: Vec<OperationObject>,
) -> (validated: Result<ValidatedProjectionObjects, ProjectionManifestError>)
    ensures
        match object_set_verdict(*manifest, objects@) {
            Err(error) => validated == Err::<ValidatedProjectionObjects, _>(error),
            Ok(scanned) => validated is Ok && validated->Ok_0@ == scanned,
        },
{
    let mut bases: BTreeMap<u128, AnnotatedProjectionBase> = BTreeMap::new();
    let mut base_documents: Vec<u128> = Vec::new();
    let mut intents: Vec<ManifestedProjectionIntent> = Vec::new();
    let ghost all = objects@;
    assert(all.take(0) =~= Seq::<OperationObject>::empty());
    assert(intent_wires(intents@) =~= Seq::<ManifestedProjectionIntentWire>::empty());
    assert(base_wires(bases@) =~= Map::<u128, AnnotatedProjectionBaseWire>::empty());
    for object in iter: objects.into_iter()
        invariant
            iter.seq() == all,
            all == objects@,
            scan_objects(*manifest, all.take(iter.index() as int)) == Ok::<
                ScannedObjects,
                ProjectionManifestError,
            >(ScannedObjects { intents: intent_wires(intents@), bases: base_wires(bases@) }),
            forall|document: u128|
                #[trigger] bases@.dom().contains(document) <==> base_documents@.contains(document),
    {
        let ghost index = iter.index() as int;
        let ghost scanned = ScannedObjects {
            intents: intent_wires(intents@),
            bases: base_wires(bases@),
        };
        let ghost next = scan_object(*manifest, scanned, object);
        proof {
            assert(all.take(index + 1).drop_last() =~= all.take(index));
            assert(all.take(index + 1).last() == object);
            assert(scan_objects(*manifest, all.take(index + 1)) == next);
            if next is Err {
                lemma_scan_stays(*manifest, all, index + 1);
            }
        }
        let descriptor = match object.descriptor {
            Ok(descriptor) => descriptor,
            Err(message) => return Err(ProjectionManifestError::Object(message)),
        };
        let expected = match find_last_descriptor(
            &manifest.required_objects,
            descriptor.content_digest,
        ) {
            Some(expected) => expected,
            None => return Err(
                ProjectionManifestError::InvalidBinding(
                    "projection object has no manifest descriptor",
                ),
            ),
        };
        if expected != descriptor {
            return Err(
                ProjectionManifestError::InvalidBinding("projection object descriptor mismatch"),
            );
        }
        let document_id = object.document_id;
        match object.content {
            ObjectContent::ProjectionIntent(parsed) => {
                let intent = match ManifestedProjectionIntent::decode(
                    object.payload.as_slice(),
                    parsed,
                ) {
                    Ok(intent) => intent,
                    Err(error) => return Err(error),
                };
                let document = intent.descriptor_document_id();
                if document_id != document {
                    return Err(
                        ProjectionManifestError::DescriptorDocumentMismatch {
                            kind: "projection intent",
                            expected: document,
                            found: document_id,
                        },
                    );
                }
                if intent.workspace_id() != manifest.workspace_id || intent.source_batch_id()
                    != manifest.batch_id || intent.source_author_device_id()
                    != manifest.author_device_id || intent.source_author_session_id()
                    != manifest.author_session_id {
                    return Err(
                        ProjectionManifestError::InvalidBinding(
                            "projection intent source binding does not match manifest",
                        ),
                    );
                }
                if holds_key(&intents, &intent) {
                    return Err(ProjectionManifestError::DuplicateIntent);
                }
                intents.push(intent);
                assert(intent_wires(intents@) =~= scanned.intents.push(intent.wire()));
            },
            ObjectContent::AnnotatedBaseBlob(parsed) => {
                let base = match AnnotatedProjectionBase::decode(
                    object.payload.as_slice(),
                    parsed,
                ) {
                    Ok(base) => base,
                    Err(error) => return Err(error),
                };
                let expected_document = annotated_base_document_id(object.payload.as_slice());
                if document_id != expected_document {
                    return Err(
                        ProjectionManifestError::DescriptorDocumentMismatch {
                            kind: "annotated base",
                            expected: expected_document,
                            found: document_id,
                        },
                    );
                }
                if base.workspace_id() != manifest.workspace_id {
                    return Err(
                        ProjectionManifestError::InvalidBinding(
                            "annotated base workspace does not match manifest",
                        ),
                    );
                }
                let number: u128 = document_id.uuid.value;
                if bases.contains_key(&number) {
                    return Err(ProjectionManifestError::DuplicateBase);
                }
                let ghost held = bases@;
                let ghost listed = base_documents@;
                bases.insert(number, base);
                base_documents.push(number);
                proof {
                    assert(base_wires(bases@) =~= scanned.bases.insert(number, base.wire()));
                    assert forall|document: u128| #[trigger]
                        bases@.dom().contains(document) <==> base_documents@.contains(document) by {
                        assert(base_documents@[listed.len() as int] == number);
                        if listed.contains(document) {
                            let k = choose|k: int| 0 <= k < listed.len() && listed[k] == document;
                            assert(base_documents@[k] == document);
                        }
                        if base_documents@.contains(document) && document != number {
                            let k = choose|k: int|
                                0 <= k < base_documents@.len() && base_documents@[k] == document;
                            assert(listed[k] == document);
                        }
                    }
                }
            },
            ObjectContent::SemanticEffect => {},
            ObjectContent::CrdtUpdate => {},
            ObjectContent::ExternalImportObservation => {},
        }
    }
    assert(all.take(all.len() as int) =~= all);
    let ghost scanned = ScannedObjects {
        intents: intent_wires(intents@),
        bases: base_wires(bases@),
    };
    assert(scan_objects(*manifest, all) == Ok::<ScannedObjects, ProjectionManifestError>(scanned));

    let mut referenced: HashSet<u128> = HashSet::new();
    let mut at: usize = 0;
    while at < intents.len()
        invariant
            at <= intents@.len(),
            scanned == (ScannedObjects {
                intents: intent_wires(intents@),
                bases: base_wires(bases@),
            }),
            all == objects@,
            scan_objects(*manifest, all) == Ok::<ScannedObjects, ProjectionManifestError>(scanned),
            intents_fault(*manifest, scanned.bases, scanned.intents, at as nat) is None,
            forall|document: u128|
                #[trigger] referenced@.contains(document) <==> exists|i: int|
                    0 <= i < at && intent_refers(#[trigger] scanned.intents[i], document),
        decreases intents@.len() - at,
    {
        let intent = &intents[at];
        let ghost before = referenced@;
        assert(scanned.intents[at as int] == intent.wire());
        proof {
            let fault = references_fault(*manifest, scanned.bases, intent.wire());
            assert(intents_fault(*manifest, scanned.bases, scanned.intents, (at + 1) as nat)
                == fault);
            if fault is Some {
                lemma_intents_fault_stays(
                    *manifest,
                    scanned.bases,
                    scanned.intents,
                    (at + 1) as nat,
                    scanned.intents.len(),
                );
            }
        }
        let precondition = intent.precondition().base();
        if let Some(reference) = precondition {
            if let Err(error) = check_reference(manifest, &bases, intent, &reference, true) {
                return Err(error);
            }
            referenced.insert(reference.document_id.uuid.value);
        }
        if let Some(reference) = intent.render_base() {
            if let Err(error) = check_reference(manifest, &bases, intent, reference, false) {
                return Err(error);
            }
            referenced.insert(reference.document_id.uuid.value);
        }
        proof {
            assert forall|document: u128| #[trigger]
                referenced@.contains(document) <==> (before.contains(document) || intent_refers(
                    scanned.intents[at as int],
                    document,
                )) by {}
            assert forall|document: u128| #[trigger]
                referenced@.contains(document) <==> exists|i: int|
                0 <= i < at + 1 && intent_refers(#[trigger] scanned.intents[i], document) by {
                if before.contains(document) {
                    let i = choose|i: int|
                        0 <= i < at && intent_refers(#[trigger] scanned.intents[i], document);
                    assert(intent_refers(scanned.intents[i], document));
                }
            }
        }
        at += 1;
    }
    let mut k: usize = 0;
    while k < base_documents.len()
        invariant
            k <= base_documents@.len(),
            scanned == (ScannedObjects {
                intents: intent_wires(intents@),
                bases: base_wires(bases@),
            }),
            all == objects@,
            scan_objects(*manifest, all) == Ok::<ScannedObjects, ProjectionManifestError>(scanned),
            intents_fault(*manifest, scanned.bases, scanned.intents, scanned.intents.len()) is None,
            forall|document: u128|
                #[trigger] referenced@.contains(document) <==> is_referenced(
                    scanned.intents,
                    document,
                ),
            forall|document: u128|
                #[trigger] bases@.dom().contains(document) <==> base_documents@.contains(document),
            forall|i: int|
                0 <= i < k ==> is_referenced(scanned.intents, #[trigger] base_documents@[i]),
        decreases base_documents@.len() - k,
    {
        if !referenced.contains(&base_documents[k]) {
            proof {
                let document = base_documents@[k as int];
                assert(base_documents@.contains(document));
                assert(scanned.bases.dom().contains(document));
                assert(has_orphan(scanned));
            }
            return Err(ProjectionManifestError::OrphanBase);
        }
        k += 1;
    }
    proof {
        assert forall|document: u128| #[trigger]
            scanned.bases.dom().contains(document) implies is_referenced(
            scanned.intents,
            document,
        ) by {
            assert(bases@.dom().contains(document));
            let i = choose|i: int|
                0 <= i < base_documents@.len() && base_documents@[i] == document;
            assert(is_referenced(scanned.intents, base_documents@[i]));
        }
        assert(!has_orphan(scanned));
    }
    let intents = sort_intents(intents);
    Ok(ValidatedProjectionObjects { intents, bases })
}

} // verus!
