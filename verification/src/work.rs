//! One accepted piece of projection work and the objects that it stands on.

use vstd::prelude::*;

use crate::annotation::{annotation_views, claim_views, copy_annotations, copy_claims};
use crate::bytes::copy_bytes;
use crate::error::ProjectionError;
use crate::frontier::FrontierV2;
use crate::hash::BlobDescription;
use crate::ids::{BatchId, PageId, PortablePathIndexRoot, ProjectionEndpointId, WorkspaceId};
use crate::intent::{
    ProjectionIntent, ProjectionIntentView, ProjectionPrecondition, ProjectionTargetKind,
};
use crate::manifest::{
    intent_decoded, ManifestObjectRef, ManifestProjectionTarget, ManifestedProjectionIntent,
    ManifestedProjectionIntentWire, ObjectKind,
};
use crate::manifest_base::{base_decoded, AnnotatedProjectionBase, AnnotatedProjectionBaseWire};
use crate::manifest_set::{ObjectContent, OperationObject};
use crate::path::ManagedPath;
use crate::plan::{annotated_layout, GuardedLayoutView, GuardedProjectionLayout};
use crate::store_error::Reason;

verus! {

/// What a piece of work leaves at its path.
#[derive(Clone, Copy, Debug, PartialEq, Eq, Structural)]
pub enum ProjectionWorkTarget {
    Absent,
    Present(BlobDescription),
}

/// One accepted piece of projection work.
#[derive(Clone, Debug, PartialEq, Eq)]
pub struct ProjectionWork {
    pub workspace_id: WorkspaceId,
    pub batch_id: BatchId,
    pub endpoint_id: ProjectionEndpointId,
    pub page_id: PageId,
    pub path: ManagedPath,
    pub portable_path_index_root: PortablePathIndexRoot,
    pub post_frontier: FrontierV2,
    pub intent: ManifestObjectRef,
    pub target: ProjectionWorkTarget,
}

/// Whether an object is of the given kind and is the one that a reference names.
pub open spec fn object_is(object: OperationObject, kind: ObjectKind, reference: ManifestObjectRef) -> bool {
    &&& object.spec_kind() == kind
    &&& object.document_id == reference.document_id
    &&& object.descriptor matches Ok(descriptor) && descriptor.content_digest
        == reference.content_digest && descriptor.encoded_byte_length
        == reference.encoded_byte_length
}

/// Checks that an object is of the given kind and is the one that a reference names.
pub fn check_object(object: &OperationObject, kind: ObjectKind, reference: &ManifestObjectRef) -> (is:
    bool)
    ensures
        is == object_is(*object, kind, *reference),
{
    object.kind() == kind && object.document_id == reference.document_id && match &object.descriptor {
        Ok(descriptor) => descriptor.content_digest == reference.content_digest
            && descriptor.encoded_byte_length == reference.encoded_byte_length,
        Err(_) => false,
    }
}

/// The intent that an archived object holds for a reference, or why it holds none.
pub open spec fn archived_intent(
    object: Result<OperationObject, String>,
    reference: ManifestObjectRef,
) -> Result<ManifestedProjectionIntentWire, ProjectionError> {
    match object {
        Err(message) => Err(ProjectionError::Archive(Reason::Reported(message))),
        Ok(object) => match object.content {
            ObjectContent::ProjectionIntent(parsed) => if !object_is(
                object,
                ObjectKind::ProjectionIntent,
                reference,
            ) {
                Err(ProjectionError::WorkIntentMismatch)
            } else {
                match intent_decoded(object.payload@, parsed) {
                    Err(error) => Err(ProjectionError::Archive(Reason::Manifest(error))),
                    Ok(fields) => Ok(fields),
                }
            },
            _ => Err(ProjectionError::WorkIntentMismatch),
        },
    }
}

/// Reads an intent from an archived object.
pub fn read_intent(
    object: Result<OperationObject, String>,
    reference: &ManifestObjectRef,
) -> (intent: Result<ManifestedProjectionIntent, ProjectionError>)
    ensures
        match archived_intent(object, *reference) {
            Err(error) => intent == Err::<ManifestedProjectionIntent, _>(error),
            Ok(fields) => intent is Ok && intent->Ok_0.wire() == fields && intent->Ok_0.wf(),
        },
{
    let object = match object {
        Ok(object) => object,
        Err(message) => return Err(ProjectionError::Archive(Reason::Reported(message))),
    };
    if !check_object(&object, ObjectKind::ProjectionIntent, reference) {
        return Err(ProjectionError::WorkIntentMismatch);
    }
    match object.content {
        ObjectContent::ProjectionIntent(parsed) => match ManifestedProjectionIntent::decode(
            object.payload.as_slice(),
            parsed,
        ) {
            Err(error) => Err(ProjectionError::Archive(Reason::Manifest(error))),
            Ok(intent) => Ok(intent),
        },
        _ => Err(ProjectionError::WorkIntentMismatch),
    }
}

/// The annotated base that an archived object holds for a reference, or why it holds none.
pub open spec fn archived_base(
    object: Result<OperationObject, String>,
    reference: ManifestObjectRef,
) -> Result<AnnotatedProjectionBaseWire, ProjectionError> {
    match object {
        Err(message) => Err(ProjectionError::Archive(Reason::Reported(message))),
        Ok(object) => match object.content {
            ObjectContent::AnnotatedBaseBlob(parsed) => if !object_is(
                object,
                ObjectKind::AnnotatedBaseBlob,
                reference,
            ) {
                Err(ProjectionError::WorkIntentMismatch)
            } else {
                match base_decoded(object.payload@, parsed) {
                    Err(error) => Err(ProjectionError::Archive(Reason::Manifest(error))),
                    Ok(fields) => Ok(fields),
                }
            },
            _ => Err(ProjectionError::WorkIntentMismatch),
        },
    }
}

/// Reads an annotated base from an archived object.
pub fn read_base(
    object: Result<OperationObject, String>,
    reference: &ManifestObjectRef,
) -> (base: Result<AnnotatedProjectionBase, ProjectionError>)
    ensures
        match archived_base(object, *reference) {
            Err(error) => base == Err::<AnnotatedProjectionBase, _>(error),
            Ok(fields) => base is Ok && base->Ok_0.wire() == fields && base->Ok_0.wf(),
        },
{
    let object = match object {
        Ok(object) => object,
        Err(message) => return Err(ProjectionError::Archive(Reason::Reported(message))),
    };
    if !check_object(&object, ObjectKind::AnnotatedBaseBlob, reference) {
        return Err(ProjectionError::WorkIntentMismatch);
    }
    match object.content {
        ObjectContent::AnnotatedBaseBlob(parsed) => match AnnotatedProjectionBase::decode(
            object.payload.as_slice(),
            parsed,
        ) {
            Err(error) => Err(ProjectionError::Archive(Reason::Manifest(error))),
            Ok(base) => Ok(base),
        },
        _ => Err(ProjectionError::WorkIntentMismatch),
    }
}

/// The base that a source author rendered against: the render base, or else the base that must be
/// there before.
pub open spec fn layout_reference(source: ManifestedProjectionIntentWire) -> Option<
    ManifestObjectRef,
> {
    match source.render_base {
        Some(reference) => Some(reference),
        None => source.precondition.spec_base(),
    }
}

/// The base that a source author rendered against.
pub fn source_layout_reference(source: &ManifestedProjectionIntent) -> (reference: Option<
    ManifestObjectRef,
>)
    ensures
        reference == layout_reference(source.wire()),
{
    match source.render_base() {
        Some(reference) => Some(*reference),
        None => source.precondition().base(),
    }
}

/// What the archive gave for a referenced object: there is no archive, or a read was tried.
#[derive(Debug, PartialEq, Eq)]
pub enum ArchiveRead {
    NoArchive,
    Read(Result<OperationObject, String>),
}

/// The annotated base that a source author rendered against, or why it cannot be had.
pub open spec fn layout_base(source: ManifestedProjectionIntentWire, read: ArchiveRead) -> Result<
    Option<AnnotatedProjectionBaseWire>,
    ProjectionError,
> {
    match layout_reference(source) {
        None => Ok(None),
        Some(reference) => match read {
            ArchiveRead::NoArchive => Err(
                ProjectionError::Archive(
                    Reason::Own("receiver projection has no accepted archive"),
                ),
            ),
            ArchiveRead::Read(object) => match archived_base(object, reference) {
                Err(error) => Err(error),
                Ok(fields) => if fields.workspace_id != source.workspace_id {
                    Err(ProjectionError::WorkIntentMismatch)
                } else {
                    Ok(Some(fields))
                },
            },
        },
    }
}

/// The fields of an optional annotated base.
pub open spec fn optional_base_wire(base: Option<AnnotatedProjectionBase>) -> Option<
    AnnotatedProjectionBaseWire,
> {
    match base {
        None => None,
        Some(base) => Some(base.wire()),
    }
}

/// The authenticated annotated base that a source author rendered against, given what the archive
/// gave for it. Where the source names none, what the archive gave does not matter.
pub fn authenticated_source_layout_base(source: &ManifestedProjectionIntent, read: ArchiveRead) -> (base:
    Result<Option<AnnotatedProjectionBase>, ProjectionError>)
    ensures
        match layout_base(source.wire(), read) {
            Err(error) => base == Err::<Option<AnnotatedProjectionBase>, _>(error),
            Ok(fields) => base is Ok && optional_base_wire(base->Ok_0) == fields && (
            base->Ok_0 is Some ==> base->Ok_0->0.wf()),
        },
{
    let reference = match source_layout_reference(source) {
        None => return Ok(None),
        Some(reference) => reference,
    };
    let object = match read {
        ArchiveRead::NoArchive => return Err(
            ProjectionError::Archive(Reason::Own("receiver projection has no accepted archive")),
        ),
        ArchiveRead::Read(object) => object,
    };
    match read_base(object, &reference) {
        Err(error) => Err(error),
        Ok(base) => if base.workspace_id() != source.workspace_id() {
            Err(ProjectionError::WorkIntentMismatch)
        } else {
            Ok(Some(base))
        },
    }
}

/// A piece of work with what the archive holds for it.
#[derive(Debug, PartialEq, Eq)]
pub struct DecodedManifestedProjectionWork {
    pub manifested: ManifestedProjectionIntent,
    pub receiver_local_intent: ProjectionIntent,
    pub annotated_base: Option<AnnotatedProjectionBase>,
    pub target: Option<Vec<u8>>,
    pub guarded_layout: GuardedProjectionLayout,
}

/// What a decoded piece of work says.
pub struct DecodedWorkView {
    pub manifested: ManifestedProjectionIntentWire,
    pub receiver_local_intent: ProjectionIntentView,
    pub annotated_base: Option<AnnotatedProjectionBaseWire>,
    pub target: Option<Seq<u8>>,
    pub guarded_layout: GuardedLayoutView,
}

impl View for DecodedManifestedProjectionWork {
    type V = DecodedWorkView;

    open spec fn view(&self) -> DecodedWorkView {
        DecodedWorkView {
            manifested: self.manifested.wire(),
            receiver_local_intent: self.receiver_local_intent@,
            annotated_base: optional_base_wire(self.annotated_base),
            target: crate::page::optional_text(self.target),
            guarded_layout: self.guarded_layout@,
        }
    }
}

impl DecodedManifestedProjectionWork {
    /// The intent of the batch.
    pub fn manifested(&self) -> (manifested: &ManifestedProjectionIntent)
        ensures
            *manifested == self.manifested,
    {
        &self.manifested
    }

    /// The intent for this device.
    pub fn receiver_local_intent(&self) -> (intent: &ProjectionIntent)
        ensures
            *intent == self.receiver_local_intent,
    {
        &self.receiver_local_intent
    }

    /// The base that must be there before.
    pub fn annotated_base(&self) -> (base: Option<&AnnotatedProjectionBase>)
        ensures
            match self.annotated_base {
                None => base is None,
                Some(kept) => base == Some(&kept),
            },
    {
        match &self.annotated_base {
            None => None,
            Some(base) => Some(base),
        }
    }

    /// The bytes that the work leaves, if it leaves any.
    pub fn target_bytes(&self) -> (target: Option<&[u8]>)
        ensures
            crate::plan::optional_bytes(target) == self@.target,
    {
        match &self.target {
            None => None,
            Some(target) => Some(target.as_slice()),
        }
    }

    /// The layout that a guarded writer must find.
    pub fn guarded_layout(&self) -> (layout: &GuardedProjectionLayout)
        ensures
            *layout == self.guarded_layout,
    {
        &self.guarded_layout
    }
}

/// Whether an intent is that of a piece of work.
pub open spec fn work_binds(work: ProjectionWork, fields: ManifestedProjectionIntentWire) -> bool {
    &&& fields.workspace_id == work.workspace_id
    &&& fields.source_batch_id == work.batch_id
    &&& fields.source_endpoint_id == work.endpoint_id
    &&& fields.page_id == work.page_id
    &&& fields.path.text@ == work.path.text@
    &&& fields.portable_path_index_root == work.portable_path_index_root
    &&& fields.post_frontier@ == work.post_frontier@
    &&& work.target == work_target(fields.target)
}

/// What a piece of work leaves, as an intent of a batch says it.
pub open spec fn work_target(target: ManifestProjectionTarget) -> ProjectionWorkTarget {
    match target {
        ManifestProjectionTarget::Absent => ProjectionWorkTarget::Absent,
        ManifestProjectionTarget::Present { description, .. } => ProjectionWorkTarget::Present(
            description,
        ),
    }
}

/// The description of what an intent leaves: that of no bytes where it leaves no file.
pub open spec fn target_description(target: ManifestProjectionTarget) -> BlobDescription {
    match target {
        ManifestProjectionTarget::Absent => BlobDescription::spec_of(Seq::empty()),
        ManifestProjectionTarget::Present { description, .. } => description,
    }
}

/// Whether an intent leaves a file.
pub open spec fn target_kind(target: ManifestProjectionTarget) -> ProjectionTargetKind {
    match target {
        ManifestProjectionTarget::Absent => ProjectionTargetKind::Absent,
        ManifestProjectionTarget::Present { .. } => ProjectionTargetKind::Present,
    }
}

/// What the archive holds for a piece of work, given its intent and its base.
pub open spec fn decoded_parts(
    fields: ManifestedProjectionIntentWire,
    base: Option<AnnotatedProjectionBaseWire>,
) -> DecodedWorkView {
    DecodedWorkView {
        manifested: fields,
        receiver_local_intent: ProjectionIntentView {
            workspace_id: fields.workspace_id,
            page_id: fields.page_id,
            path: fields.path@,
            frontier: fields.post_frontier@,
            claim_evidence: claim_views(fields.claim_evidence@),
            precondition: match base {
                None => ProjectionPrecondition::Absent,
                Some(base) => ProjectionPrecondition::Base(base.description),
            },
            target_kind: target_kind(fields.target),
            target: target_description(fields.target),
            annotations: annotation_views(fields.target.spec_annotations()),
        },
        annotated_base: base,
        target: match fields.target {
            ManifestProjectionTarget::Absent => None,
            ManifestProjectionTarget::Present { bytes, .. } => Some(bytes@),
        },
        guarded_layout: match fields.target {
            ManifestProjectionTarget::Absent => GuardedLayoutView {
                base: Seq::empty(),
                target: Seq::empty(),
                revive_page_self_base: false,
            },
            ManifestProjectionTarget::Present { .. } => GuardedLayoutView {
                base: match base {
                    None => Seq::empty(),
                    Some(base) => annotated_layout(annotation_views(base.annotations@)),
                },
                target: annotated_layout(annotation_views(fields.target.spec_annotations())),
                revive_page_self_base: false,
            },
        },
    }
}

/// What the archive holds for a piece of work, or why the work is refused. The base object is only
/// looked at where the intent names a base.
pub open spec fn decoded_work(
    work: ProjectionWork,
    intent_object: Result<OperationObject, String>,
    base_object: Result<OperationObject, String>,
) -> Result<DecodedWorkView, ProjectionError> {
    match archived_intent(intent_object, work.intent) {
        Err(error) => Err(error),
        Ok(fields) => if !work_binds(work, fields) {
            Err(ProjectionError::WorkIntentMismatch)
        } else {
            match fields.precondition.spec_base() {
                None => Ok(decoded_parts(fields, None)),
                Some(reference) => match archived_base(base_object, reference) {
                    Err(error) => Err(error),
                    Ok(base) => Ok(decoded_parts(fields, Some(base))),
                },
            }
        },
    }
}

/// Decodes a piece of work from the objects that the archive holds for it. The base object is only
/// looked at where the intent names a base.
pub fn decode_manifested_projection_work(
    work: &ProjectionWork,
    intent_object: Result<OperationObject, String>,
    base_object: Result<OperationObject, String>,
) -> (decoded: Result<DecodedManifestedProjectionWork, ProjectionError>)
    ensures
        match decoded_work(*work, intent_object, base_object) {
            Err(error) => decoded == Err::<DecodedManifestedProjectionWork, _>(error),
            Ok(view) => decoded is Ok && decoded->Ok_0@ == view && decoded->Ok_0.manifested.wf() && (
            decoded->Ok_0.annotated_base is Some ==> decoded->Ok_0.annotated_base->0.wf()),
        },
{
    let manifested = match read_intent(intent_object, &work.intent) {
        Ok(manifested) => manifested,
        Err(error) => return Err(error),
    };
    let (description, target, kind) = match manifested.target() {
        ManifestProjectionTarget::Absent => {
            let nothing: &[u8] = &[];
            assert(nothing@ =~= Seq::<u8>::empty());
            (BlobDescription::of(nothing), None, ProjectionTargetKind::Absent)
        },
        ManifestProjectionTarget::Present { description, bytes, .. } => (
            *description,
            Some(copy_bytes(bytes.as_slice())),
            ProjectionTargetKind::Present,
        ),
    };
    let left = match manifested.target() {
        ManifestProjectionTarget::Absent => ProjectionWorkTarget::Absent,
        ManifestProjectionTarget::Present { description, .. } => ProjectionWorkTarget::Present(
            *description,
        ),
    };
    if manifested.workspace_id() != work.workspace_id || manifested.source_batch_id()
        != work.batch_id || manifested.source_endpoint_id() != work.endpoint_id
        || manifested.page_id() != work.page_id || !manifested.path().same(&work.path)
        || manifested.portable_path_index_root() != work.portable_path_index_root
        || !manifested.post_frontier().same(&work.post_frontier) || work.target != left {
        return Err(ProjectionError::WorkIntentMismatch);
    }
    let annotated_base = match manifested.precondition().base() {
        None => None,
        Some(reference) => match read_base(base_object, &reference) {
            Ok(base) => Some(base),
            Err(error) => return Err(error),
        },
    };
    let annotations = copy_annotations(manifested.target().annotations());
    let guarded_layout = if target.is_some() {
        GuardedProjectionLayout::from_authenticated_annotations(
            match &annotated_base {
                None => None,
                Some(base) => Some(base.annotations()),
            },
            manifested.target().annotations(),
        )
    } else {
        GuardedProjectionLayout::empty()
    };
    let precondition = match &annotated_base {
        None => ProjectionPrecondition::Absent,
        Some(base) => ProjectionPrecondition::Base(base.description()),
    };
    let receiver_local_intent = match ProjectionIntent::new(
        manifested.workspace_id(),
        manifested.page_id(),
        manifested.path().duplicate(),
        manifested.post_frontier().duplicate(),
        copy_claims(manifested.claim_evidence()),
        precondition,
        kind,
        description,
        annotations,
    ) {
        Ok(intent) => intent,
        Err(error) => return Err(ProjectionError::Receipt(error)),
    };
    Ok(
        DecodedManifestedProjectionWork {
            manifested,
            receiver_local_intent,
            annotated_base,
            target,
            guarded_layout,
        },
    )
}

} // verus!
