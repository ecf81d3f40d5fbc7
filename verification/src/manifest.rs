//! Manifested projection intents: the plans that a batch of operations carries.

use vstd::prelude::*;

use crate::annotation::{AnnotatedIdentity, ProjectionClaimEvidence};
use crate::bytes::same_bytes;
use crate::frontier::FrontierV2;
use crate::hash::BlobDescription;
use crate::ids::{
    BatchId, ContentDigest, DeviceId, DocumentId, PageId, PortablePathIndexRoot,
    PortablePathKeyDigest, ProjectionEndpointId, SessionId, WorkspaceId,
};
use crate::manifest_check::{
    encode_canonical, has_prefix, projection_intent_document_id, validate_annotations,
    validate_blob, validate_claim_evidence,
};
use crate::manifest_error::ProjectionManifestError;
use crate::path::ManagedPath;

verus! {

/// The schema of a manifested projection intent.
pub const MANIFESTED_PROJECTION_SCHEMA_VERSION: u32 = 2;

/// The schema of an annotated base.
pub const ANNOTATED_BASE_SCHEMA_VERSION: u32 = 1;

/// The longest encoded projection intent.
pub const MAX_MANIFESTED_PROJECTION_BYTES: usize = 33_554_432;

/// The longest encoded annotated base.
pub const MAX_ANNOTATED_BASE_BYTES: usize = 33_554_432;

/// The version of the portable path keys.
pub const PORTABLE_PATH_KEY_VERSION: u32 = 1;

/// The first bytes of an encoded projection intent, `TINEPRI2`.
pub open spec fn intent_magic() -> Seq<u8> {
    seq![0x54u8, 0x49u8, 0x4eu8, 0x45u8, 0x50u8, 0x52u8, 0x49u8, 0x32u8]
}

/// The first bytes of an encoded annotated base, `TINEPRB1`.
pub open spec fn base_magic() -> Seq<u8> {
    seq![0x54u8, 0x49u8, 0x4eu8, 0x45u8, 0x50u8, 0x52u8, 0x42u8, 0x31u8]
}

/// The first bytes of an encoded projection intent.
fn intent_magic_bytes() -> (magic: [u8; 8])
    ensures
        magic@ == intent_magic(),
{
    let magic: [u8; 8] = [0x54, 0x49, 0x4e, 0x45, 0x50, 0x52, 0x49, 0x32];
    assert(magic@ =~= intent_magic());
    magic
}

/// What an object of a batch holds.
#[derive(Clone, Copy, Debug, PartialEq, Eq, Structural)]
pub enum ObjectKind {
    SemanticEffect,
    CrdtUpdate,
    ExternalImportObservation,
    ProjectionIntent,
    AnnotatedBaseBlob,
}

/// How a batch names one of its objects.
#[derive(Clone, Copy, Debug, PartialEq, Eq, Structural)]
pub struct ObjectDescriptor {
    pub kind: ObjectKind,
    pub document_id: DocumentId,
    pub content_digest: ContentDigest,
    pub encoded_byte_length: u64,
}

/// A reference from an intent to an annotated base of the same batch.
#[derive(Clone, Copy, Debug, PartialEq, Eq, Structural)]
pub struct ManifestObjectRef {
    pub document_id: DocumentId,
    pub content_digest: ContentDigest,
    pub encoded_byte_length: u64,
}

impl ManifestObjectRef {
    /// The reference to a described object.
    pub fn from_descriptor(descriptor: &ObjectDescriptor) -> (reference: ManifestObjectRef)
        ensures
            reference == (ManifestObjectRef {
                document_id: descriptor.document_id,
                content_digest: descriptor.content_digest,
                encoded_byte_length: descriptor.encoded_byte_length,
            }),
    {
        ManifestObjectRef {
            document_id: descriptor.document_id,
            content_digest: descriptor.content_digest,
            encoded_byte_length: descriptor.encoded_byte_length,
        }
    }

    /// The document that is referred to.
    pub fn document_id(&self) -> (document_id: DocumentId)
        ensures
            document_id == self.document_id,
    {
        self.document_id
    }

    /// The digest of the object that is referred to.
    pub fn content_digest(&self) -> (content_digest: ContentDigest)
        ensures
            content_digest == self.content_digest,
    {
        self.content_digest
    }

    /// The length of the object that is referred to.
    pub fn encoded_byte_length(&self) -> (encoded_byte_length: u64)
        ensures
            encoded_byte_length == self.encoded_byte_length,
    {
        self.encoded_byte_length
    }

    /// Whether the reference is to the described object, and that object is an annotated base.
    pub open spec fn spec_matches(self, descriptor: ObjectDescriptor) -> bool {
        &&& self.document_id == descriptor.document_id
        &&& self.content_digest == descriptor.content_digest
        &&& self.encoded_byte_length == descriptor.encoded_byte_length
        &&& descriptor.kind == ObjectKind::AnnotatedBaseBlob
    }

    /// Whether the reference is to the described object, and that object is an annotated base.
    pub fn matches(&self, descriptor: &ObjectDescriptor) -> (matches: bool)
        ensures
            matches == self.spec_matches(*descriptor),
    {
        self.document_id == descriptor.document_id && self.content_digest
            == descriptor.content_digest && self.encoded_byte_length
            == descriptor.encoded_byte_length && descriptor.kind == ObjectKind::AnnotatedBaseBlob
    }
}

/// What must be at the path before an intent may be carried out.
#[derive(Clone, Copy, Debug, PartialEq, Eq, Structural)]
pub enum ManifestProjectionPrecondition {
    Absent,
    Present { base: ManifestObjectRef },
}

impl ManifestProjectionPrecondition {
    /// The base that must be there.
    pub open spec fn spec_base(self) -> Option<ManifestObjectRef> {
        match self {
            ManifestProjectionPrecondition::Absent => None,
            ManifestProjectionPrecondition::Present { base } => Some(base),
        }
    }

    /// The base that must be there, if one must be.
    pub fn base(&self) -> (base: Option<ManifestObjectRef>)
        ensures
            base == self.spec_base(),
    {
        match self {
            ManifestProjectionPrecondition::Absent => None,
            ManifestProjectionPrecondition::Present { base } => Some(*base),
        }
    }
}

/// What an intent puts at its path.
#[derive(Clone, Debug, PartialEq, Eq)]
pub enum ManifestProjectionTarget {
    Absent,
    Present {
        description: BlobDescription,
        bytes: Vec<u8>,
        annotations: Vec<AnnotatedIdentity>,
    },
}

/// Whether a target is acceptable, and if not, why.
pub open spec fn target_check(target: ManifestProjectionTarget) -> Result<
    (),
    ProjectionManifestError,
> {
    match target {
        ManifestProjectionTarget::Absent => Ok(()),
        ManifestProjectionTarget::Present { description, bytes, annotations } => {
            match crate::manifest_check::blob_check(description, bytes@, "projection target") {
                Err(error) => Err(error),
                Ok(()) => crate::manifest_check::annotations_check(
                    annotations@,
                    bytes@.len() as u64,
                ),
            }
        },
    }
}

impl ManifestProjectionTarget {
    /// The target of some bytes with their annotations.
    pub fn present(bytes: Vec<u8>, annotations: Vec<AnnotatedIdentity>) -> (target: Result<
        ManifestProjectionTarget,
        ProjectionManifestError,
    >)
        ensures
            match crate::manifest_check::annotations_check(annotations@, bytes@.len() as u64) {
                Err(error) => target == Err::<ManifestProjectionTarget, _>(error),
                Ok(()) => target == Ok::<_, ProjectionManifestError>(
                    ManifestProjectionTarget::Present {
                        description: BlobDescription::spec_of(bytes@),
                        bytes,
                        annotations,
                    },
                ),
            },
    {
        let description = BlobDescription::of(bytes.as_slice());
        let target = ManifestProjectionTarget::Present { description, bytes, annotations };
        match target.validate() {
            Err(error) => Err(error),
            Ok(()) => Ok(target),
        }
    }

    /// The description of the bytes, if there are any.
    pub fn description(&self) -> (description: Option<BlobDescription>)
        ensures
            description == (match *self {
                ManifestProjectionTarget::Absent => None,
                ManifestProjectionTarget::Present { description, .. } => Some(description),
            }),
    {
        match self {
            ManifestProjectionTarget::Absent => None,
            ManifestProjectionTarget::Present { description, .. } => Some(*description),
        }
    }

    /// The bytes, if there are any.
    pub fn bytes(&self) -> (bytes: Option<&[u8]>)
        ensures
            match *self {
                ManifestProjectionTarget::Absent => bytes is None,
                ManifestProjectionTarget::Present { bytes: held, .. } => bytes is Some
                    && bytes->0@ == held@,
            },
    {
        match self {
            ManifestProjectionTarget::Absent => None,
            ManifestProjectionTarget::Present { bytes, .. } => Some(bytes.as_slice()),
        }
    }

    /// What the annotations of the target are: none where the target is absent.
    pub open spec fn spec_annotations(self) -> Seq<AnnotatedIdentity> {
        match self {
            ManifestProjectionTarget::Absent => Seq::empty(),
            ManifestProjectionTarget::Present { annotations, .. } => annotations@,
        }
    }

    /// The annotations of the bytes; there are none where the target is absent.
    pub fn annotations(&self) -> (annotations: &[AnnotatedIdentity])
        ensures
            annotations@ == self.spec_annotations(),
    {
        match self {
            ManifestProjectionTarget::Absent => {
                let none: &[AnnotatedIdentity] = &[];
                assert(none@ =~= Seq::<AnnotatedIdentity>::empty());
                none
            },
            ManifestProjectionTarget::Present { annotations, .. } => annotations.as_slice(),
        }
    }

    /// Checks the target.
    fn validate(&self) -> (checked: Result<(), ProjectionManifestError>)
        ensures
            checked == target_check(*self),
    {
        match self {
            ManifestProjectionTarget::Absent => Ok(()),
            ManifestProjectionTarget::Present { description, bytes, annotations } => {
                match validate_blob(*description, bytes.as_slice(), "projection target") {
                    Err(error) => Err(error),
                    Ok(()) => validate_annotations(annotations.as_slice(), bytes.len() as u64),
                }
            },
        }
    }
}

/// The fields of a manifested projection intent as they are read, before any check.
#[derive(Clone, Debug, PartialEq, Eq)]
pub struct ManifestedProjectionIntentWire {
    pub schema_version: u32,
    pub workspace_id: WorkspaceId,
    pub source_batch_id: BatchId,
    pub source_author_device_id: DeviceId,
    pub source_author_session_id: SessionId,
    pub source_endpoint_id: ProjectionEndpointId,
    pub page_id: PageId,
    pub path: ManagedPath,
    pub portable_path_key_version: u32,
    pub portable_path_key_digest: PortablePathKeyDigest,
    pub portable_path_index_root: PortablePathIndexRoot,
    pub precondition: ManifestProjectionPrecondition,
    pub render_base: Option<ManifestObjectRef>,
    pub target: ManifestProjectionTarget,
    pub post_frontier: FrontierV2,
    pub claim_evidence: Vec<ProjectionClaimEvidence>,
}

/// Whether the fields of an intent belong together, and if not, why.
pub open spec fn intent_check(
    schema_version: u32,
    portable_path_key_version: u32,
    portable_path_key_digest: PortablePathKeyDigest,
    path: ManagedPath,
    render_base: Option<ManifestObjectRef>,
    target: ManifestProjectionTarget,
    claims: Seq<ProjectionClaimEvidence>,
) -> Result<(), ProjectionManifestError> {
    if schema_version != MANIFESTED_PROJECTION_SCHEMA_VERSION {
        Err(
            ProjectionManifestError::UnknownVersion {
                kind: "projection intent",
                expected: MANIFESTED_PROJECTION_SCHEMA_VERSION,
                found: schema_version,
            },
        )
    } else if portable_path_key_version != PORTABLE_PATH_KEY_VERSION || portable_path_key_digest
        != path.portable_key_digest {
        Err(
            ProjectionManifestError::InvalidBinding(
                "projection intent portable-path key binding mismatch",
            ),
        )
    } else {
        match target_check(target) {
            Err(error) => Err(error),
            Ok(()) => match crate::manifest_check::claims_check(claims) {
                Err(error) => Err(error),
                Ok(()) => if render_base is Some && target is Absent {
                    Err(
                        ProjectionManifestError::InvalidBinding(
                            "Absent target cannot carry a render base",
                        ),
                    )
                } else {
                    Ok(())
                },
            },
        }
    }
}

impl ManifestedProjectionIntentWire {
    /// Whether the fields belong together, and if not, why.
    pub open spec fn check(self) -> Result<(), ProjectionManifestError> {
        intent_check(
            self.schema_version,
            self.portable_path_key_version,
            self.portable_path_key_digest,
            self.path,
            self.render_base,
            self.target,
            self.claim_evidence@,
        )
    }
}

/// What parsing an encoded intent gave: the fields or the parser's message, and the canonical
/// encoding of those fields or the encoder's message.
#[derive(Debug, PartialEq, Eq)]
pub struct ParsedProjectionIntent {
    pub fields: Result<ManifestedProjectionIntentWire, String>,
    pub body: Result<Vec<u8>, String>,
}

/// The fields that an encoded intent stands for, or why it is refused.
pub open spec fn intent_decoded(bytes: Seq<u8>, parsed: ParsedProjectionIntent) -> Result<
    ManifestedProjectionIntentWire,
    ProjectionManifestError,
> {
    if bytes.len() > MAX_MANIFESTED_PROJECTION_BYTES {
        Err(
            ProjectionManifestError::TooLarge {
                kind: "projection intent",
                length: bytes.len() as usize,
                limit: MAX_MANIFESTED_PROJECTION_BYTES,
            },
        )
    } else if !crate::manifest_check::starts_with(bytes, intent_magic()) {
        Err(ProjectionManifestError::InvalidMagic("projection intent"))
    } else {
        match parsed.fields {
            Err(message) => Err(ProjectionManifestError::Decode(message)),
            Ok(fields) => match fields.check() {
                Err(error) => Err(error),
                Ok(()) => match parsed.body {
                    Err(message) => Err(ProjectionManifestError::Encode(message)),
                    Ok(body) => if crate::manifest_check::frame_length(intent_magic(), body@)
                        > MAX_MANIFESTED_PROJECTION_BYTES {
                        Err(
                            ProjectionManifestError::TooLarge {
                                kind: "projection object",
                                length: crate::manifest_check::frame_length(
                                    intent_magic(),
                                    body@,
                                ),
                                limit: MAX_MANIFESTED_PROJECTION_BYTES,
                            },
                        )
                    } else if intent_magic() + body@ != bytes {
                        Err(ProjectionManifestError::NonCanonical("projection intent"))
                    } else {
                        Ok(fields)
                    },
                },
            },
        }
    }
}

/// The plan to put a page's bytes at its path, as a batch of operations carries it.
#[derive(Clone, Debug, PartialEq, Eq)]
pub struct ManifestedProjectionIntent {
    fields: ManifestedProjectionIntentWire,
}

impl ManifestedProjectionIntent {
    /// The fields of the intent.
    pub closed spec fn wire(self) -> ManifestedProjectionIntentWire {
        self.fields
    }

    /// Whether the fields of the intent belong together.
    pub open spec fn wf(self) -> bool {
        self.wire().check() is Ok
    }

    /// The intent with the given parts. Its claim evidence is put in the order of the claimed
    /// identities.
    pub fn new(
        workspace_id: WorkspaceId,
        source_batch_id: BatchId,
        source_author_device_id: DeviceId,
        source_author_session_id: SessionId,
        source_endpoint_id: ProjectionEndpointId,
        page_id: PageId,
        path: ManagedPath,
        portable_path_index_root: PortablePathIndexRoot,
        precondition: ManifestProjectionPrecondition,
        render_base: Option<ManifestObjectRef>,
        target: ManifestProjectionTarget,
        post_frontier: FrontierV2,
        claim_evidence: Vec<ProjectionClaimEvidence>,
    ) -> (intent: Result<ManifestedProjectionIntent, ProjectionManifestError>)
        ensures
            match intent_check(
                MANIFESTED_PROJECTION_SCHEMA_VERSION,
                PORTABLE_PATH_KEY_VERSION,
                path.portable_key_digest,
                path,
                render_base,
                target,
                sorted_claims(claim_evidence@),
            ) {
                Err(error) => intent == Err::<ManifestedProjectionIntent, _>(error),
                Ok(()) => intent is Ok && ({
                    let fields = intent->Ok_0.wire();
                    &&& intent->Ok_0.wf()
                    &&& fields.claim_evidence@ == sorted_claims(claim_evidence@)
                    &&& fields == (ManifestedProjectionIntentWire {
                        schema_version: MANIFESTED_PROJECTION_SCHEMA_VERSION,
                        workspace_id,
                        source_batch_id,
                        source_author_device_id,
                        source_author_session_id,
                        source_endpoint_id,
                        page_id,
                        path,
                        portable_path_key_version: PORTABLE_PATH_KEY_VERSION,
                        portable_path_key_digest: path.portable_key_digest,
                        portable_path_index_root,
                        precondition,
                        render_base,
                        target,
                        post_frontier,
                        claim_evidence: fields.claim_evidence,
                    })
                }),
            },
    {
        let claim_evidence = sort_claims(claim_evidence);
        let portable_path_key_digest = path.portable_key_digest();
        let intent = ManifestedProjectionIntent {
            fields: ManifestedProjectionIntentWire {
                schema_version: MANIFESTED_PROJECTION_SCHEMA_VERSION,
                workspace_id,
                source_batch_id,
                source_author_device_id,
                source_author_session_id,
                source_endpoint_id,
                page_id,
                path,
                portable_path_key_version: PORTABLE_PATH_KEY_VERSION,
                portable_path_key_digest,
                portable_path_index_root,
                precondition,
                render_base,
                target,
                post_frontier,
                claim_evidence,
            },
        };
        match intent.validate() {
            Err(error) => Err(error),
            Ok(()) => Ok(intent),
        }
    }

    /// The encoded intent, from the canonical encoding of its fields.
    pub fn encode(&self, body: Result<Vec<u8>, String>) -> (encoded: Result<
        Vec<u8>,
        ProjectionManifestError,
    >)
        ensures
            match self.wire().check() {
                Err(error) => encoded == Err::<Vec<u8>, _>(error),
                Ok(()) => match body {
                    Err(message) => encoded == Err::<Vec<u8>, _>(
                        ProjectionManifestError::Encode(message),
                    ),
                    Ok(body) => if crate::manifest_check::frame_length(intent_magic(), body@)
                        > MAX_MANIFESTED_PROJECTION_BYTES {
                        encoded == Err::<Vec<u8>, _>(
                            ProjectionManifestError::TooLarge {
                                kind: "projection object",
                                length: crate::manifest_check::frame_length(
                                    intent_magic(),
                                    body@,
                                ),
                                limit: MAX_MANIFESTED_PROJECTION_BYTES,
                            },
                        )
                    } else {
                        encoded is Ok && encoded->Ok_0@ == intent_magic() + body@
                    },
                },
            },
    {
        match self.validate() {
            Err(error) => Err(error),
            Ok(()) => encode_canonical(
                intent_magic_bytes().as_slice(),
                body,
                MAX_MANIFESTED_PROJECTION_BYTES,
            ),
        }
    }

    /// The part of an encoded intent that holds its fields, where the encoding is not too long
    /// and carries the magic.
    pub fn decode_body(bytes: &[u8]) -> (body: Result<&[u8], ProjectionManifestError>)
        ensures
            if bytes@.len() > MAX_MANIFESTED_PROJECTION_BYTES {
                body == Err::<&[u8], _>(
                    ProjectionManifestError::TooLarge {
                        kind: "projection intent",
                        length: bytes@.len() as usize,
                        limit: MAX_MANIFESTED_PROJECTION_BYTES,
                    },
                )
            } else if !crate::manifest_check::starts_with(bytes@, intent_magic()) {
                body == Err::<&[u8], _>(ProjectionManifestError::InvalidMagic("projection intent"))
            } else {
                body is Ok && body->Ok_0@ == bytes@.skip(8)
            },
    {
        if bytes.len() > MAX_MANIFESTED_PROJECTION_BYTES {
            return Err(
                ProjectionManifestError::TooLarge {
                    kind: "projection intent",
                    length: bytes.len(),
                    limit: MAX_MANIFESTED_PROJECTION_BYTES,
                },
            );
        }
        if !has_prefix(bytes, intent_magic_bytes().as_slice()) {
            return Err(ProjectionManifestError::InvalidMagic("projection intent"));
        }
        let body = vstd::slice::slice_subrange(bytes, 8, bytes.len());
        assert(body@ =~= bytes@.skip(8));
        Ok(body)
    }

    /// The intent that `bytes` encodes, given what parsing their body gave. The encoding must be
    /// the canonical one.
    pub fn decode(bytes: &[u8], parsed: ParsedProjectionIntent) -> (intent: Result<
        ManifestedProjectionIntent,
        ProjectionManifestError,
    >)
        ensures
            match intent_decoded(bytes@, parsed) {
                Err(error) => intent == Err::<ManifestedProjectionIntent, _>(error),
                Ok(fields) => intent is Ok && intent->Ok_0.wire() == fields && intent->Ok_0.wf(),
            },
    {
        if let Err(error) = ManifestedProjectionIntent::decode_body(bytes) {
            return Err(error);
        }
        let fields = match parsed.fields {
            Ok(fields) => fields,
            Err(message) => return Err(ProjectionManifestError::Decode(message)),
        };
        let intent = ManifestedProjectionIntent { fields };
        match intent.encode(parsed.body) {
            Err(error) => Err(error),
            Ok(encoded) => if same_bytes(encoded.as_slice(), bytes) {
                Ok(intent)
            } else {
                Err(ProjectionManifestError::NonCanonical("projection intent"))
            },
        }
    }

    /// The workspace.
    pub fn workspace_id(&self) -> (workspace_id: WorkspaceId)
        ensures
            workspace_id == self.wire().workspace_id,
    {
        self.fields.workspace_id
    }

    /// The batch that carries the intent.
    pub fn source_batch_id(&self) -> (source_batch_id: BatchId)
        ensures
            source_batch_id == self.wire().source_batch_id,
    {
        self.fields.source_batch_id
    }

    /// The device that wrote the batch.
    pub fn source_author_device_id(&self) -> (source_author_device_id: DeviceId)
        ensures
            source_author_device_id == self.wire().source_author_device_id,
    {
        self.fields.source_author_device_id
    }

    /// The session that wrote the batch.
    pub fn source_author_session_id(&self) -> (source_author_session_id: SessionId)
        ensures
            source_author_session_id == self.wire().source_author_session_id,
    {
        self.fields.source_author_session_id
    }

    /// The endpoint that the intent was planned for.
    pub fn source_endpoint_id(&self) -> (source_endpoint_id: ProjectionEndpointId)
        ensures
            source_endpoint_id == self.wire().source_endpoint_id,
    {
        self.fields.source_endpoint_id
    }

    /// The page.
    pub fn page_id(&self) -> (page_id: PageId)
        ensures
            page_id == self.wire().page_id,
    {
        self.fields.page_id
    }

    /// The path of the page.
    pub fn path(&self) -> (path: &ManagedPath)
        ensures
            *path == self.wire().path,
    {
        &self.fields.path
    }

    /// The version of the portable path key.
    pub fn portable_path_key_version(&self) -> (portable_path_key_version: u32)
        ensures
            portable_path_key_version == self.wire().portable_path_key_version,
    {
        self.fields.portable_path_key_version
    }

    /// The digest of the portable path key.
    pub fn portable_path_key_digest(&self) -> (portable_path_key_digest: PortablePathKeyDigest)
        ensures
            portable_path_key_digest == self.wire().portable_path_key_digest,
    {
        self.fields.portable_path_key_digest
    }

    /// The root of the portable path index.
    pub fn portable_path_index_root(&self) -> (portable_path_index_root: PortablePathIndexRoot)
        ensures
            portable_path_index_root == self.wire().portable_path_index_root,
    {
        self.fields.portable_path_index_root
    }

    /// What must be at the path before.
    pub fn precondition(&self) -> (precondition: &ManifestProjectionPrecondition)
        ensures
            *precondition == self.wire().precondition,
    {
        &self.fields.precondition
    }

    /// The base that the target was rendered against.
    pub fn render_base(&self) -> (render_base: Option<&ManifestObjectRef>)
        ensures
            match self.wire().render_base {
                None => render_base is None,
                Some(base) => render_base is Some && *render_base->0 == base,
            },
    {
        self.fields.render_base.as_ref()
    }

    /// What is put at the path.
    pub fn target(&self) -> (target: &ManifestProjectionTarget)
        ensures
            *target == self.wire().target,
    {
        &self.fields.target
    }

    /// The frontier after the batch.
    pub fn post_frontier(&self) -> (post_frontier: &FrontierV2)
        ensures
            *post_frontier == self.wire().post_frontier,
    {
        &self.fields.post_frontier
    }

    /// The blocks that claim the written identities.
    pub fn claim_evidence(&self) -> (claim_evidence: &[ProjectionClaimEvidence])
        ensures
            claim_evidence@ == self.wire().claim_evidence@,
    {
        self.fields.claim_evidence.as_slice()
    }

    /// The document that the intent is stored as.
    pub fn descriptor_document_id(&self) -> (document: DocumentId)
        ensures
            document == intent_document(self.wire()),
    {
        projection_intent_document_id(
            self.fields.source_batch_id,
            self.fields.source_endpoint_id,
            self.fields.page_id,
            &self.fields.path,
        )
    }

    /// Checks that the fields belong together.
    fn validate(&self) -> (checked: Result<(), ProjectionManifestError>)
        ensures
            checked == self.wire().check(),
    {
        let fields = &self.fields;
        if fields.schema_version != MANIFESTED_PROJECTION_SCHEMA_VERSION {
            return Err(
                ProjectionManifestError::UnknownVersion {
                    kind: "projection intent",
                    expected: MANIFESTED_PROJECTION_SCHEMA_VERSION,
                    found: fields.schema_version,
                },
            );
        }
        if fields.portable_path_key_version != PORTABLE_PATH_KEY_VERSION
            || fields.portable_path_key_digest != fields.path.portable_key_digest() {
            return Err(
                ProjectionManifestError::InvalidBinding(
                    "projection intent portable-path key binding mismatch",
                ),
            );
        }
        if let Err(error) = fields.target.validate() {
            return Err(error);
        }
        if let Err(error) = validate_claim_evidence(fields.claim_evidence.as_slice()) {
            return Err(error);
        }
        let absent = match &fields.target {
            ManifestProjectionTarget::Absent => true,
            _ => false,
        };
        if fields.render_base.is_some() && absent {
            return Err(
                ProjectionManifestError::InvalidBinding("Absent target cannot carry a render base"),
            );
        }
        Ok(())
    }
}

/// The document that an intent is stored as.
pub open spec fn intent_document(fields: ManifestedProjectionIntentWire) -> DocumentId {
    crate::manifest_check::spec_projection_intent_document_id(
        fields.source_batch_id,
        fields.source_endpoint_id,
        fields.page_id,
        fields.path.text@,
    )
}

/// The claims with `entry` put behind every claim whose identity is not greater.
pub open spec fn insert_claim(
    claims: Seq<ProjectionClaimEvidence>,
    entry: ProjectionClaimEvidence,
) -> Seq<ProjectionClaimEvidence>
    decreases claims.len(),
{
    if claims.len() > 0 && entry.logseq_uuid.uuid.value < claims.last().logseq_uuid.uuid.value {
        insert_claim(claims.drop_last(), entry).push(claims.last())
    } else {
        claims.push(entry)
    }
}

/// The claims in the order of their identities.
pub open spec fn sorted_claims(claims: Seq<ProjectionClaimEvidence>) -> Seq<
    ProjectionClaimEvidence,
>
    decreases claims.len(),
{
    if claims.len() == 0 {
        claims
    } else {
        insert_claim(sorted_claims(claims.drop_last()), claims.last())
    }
}

/// Whether the identities of claims never decrease.
pub open spec fn claims_ascend(claims: Seq<ProjectionClaimEvidence>) -> bool {
    forall|i: int, j: int|
        0 <= i < j < claims.len() ==> (#[trigger] claims[i]).logseq_uuid.uuid.value <= (
        #[trigger] claims[j]).logseq_uuid.uuid.value
}

/// Whether no claim has an identity above `bound`.
spec fn claims_at_most(claims: Seq<ProjectionClaimEvidence>, bound: u128) -> bool {
    forall|i: int| 0 <= i < claims.len() ==> (#[trigger] claims[i]).logseq_uuid.uuid.value <= bound
}

/// Inserting keeps the order and adds exactly the entry.
proof fn lemma_insert_claim(claims: Seq<ProjectionClaimEvidence>, entry: ProjectionClaimEvidence)
    requires
        claims_ascend(claims),
    ensures
        claims_ascend(insert_claim(claims, entry)),
        insert_claim(claims, entry).to_multiset() == claims.to_multiset().insert(entry),
        insert_claim(claims, entry).len() == claims.len() + 1,
        claims.len() > 0 ==> insert_claim(claims, entry).last().logseq_uuid.uuid.value
            >= claims.last().logseq_uuid.uuid.value,
        forall|bound: u128|
            #[trigger] claims_at_most(claims, bound) && entry.logseq_uuid.uuid.value <= bound
                ==> claims_at_most(insert_claim(claims, entry), bound),
    decreases claims.len(),
{
    broadcast use vstd::seq_lib::group_to_multiset_ensures;

    if claims.len() > 0 && entry.logseq_uuid.uuid.value < claims.last().logseq_uuid.uuid.value {
        let front = claims.drop_last();
        lemma_insert_claim(front, entry);
        let grown = insert_claim(front, entry);
        assert(claims =~= front.push(claims.last()));
        assert(insert_claim(claims, entry).to_multiset() =~= claims.to_multiset().insert(entry));
        let bound = claims.last().logseq_uuid.uuid.value;
        assert(claims_at_most(front, bound));
        assert(claims_at_most(grown, bound));
        assert forall|limit: u128| #[trigger]
            claims_at_most(claims, limit) && entry.logseq_uuid.uuid.value
                <= limit implies claims_at_most(insert_claim(claims, entry), limit) by {
            assert(claims_at_most(front, limit));
            assert(claims_at_most(grown, limit));
            assert(claims[claims.len() - 1].logseq_uuid.uuid.value <= limit);
        }
    } else {
        assert(insert_claim(claims, entry) =~= claims.push(entry));
    }
}

/// Sorting claims only reorders them, into the order of their identities.
pub proof fn lemma_sorted_claims(claims: Seq<ProjectionClaimEvidence>)
    ensures
        claims_ascend(sorted_claims(claims)),
        sorted_claims(claims).to_multiset() == claims.to_multiset(),
    decreases claims.len(),
{
    broadcast use vstd::seq_lib::group_to_multiset_ensures;

    if claims.len() > 0 {
        lemma_sorted_claims(claims.drop_last());
        lemma_insert_claim(sorted_claims(claims.drop_last()), claims.last());
        assert(claims =~= claims.drop_last().push(claims.last()));
    }
}

/// Puts claims in the order of their identities.
pub fn sort_claims(claims: Vec<ProjectionClaimEvidence>) -> (sorted: Vec<ProjectionClaimEvidence>)
    ensures
        sorted@ == sorted_claims(claims@),
{
    let mut sorted: Vec<ProjectionClaimEvidence> = Vec::new();
    let ghost all = claims@;
    assert(all.take(0) =~= Seq::<ProjectionClaimEvidence>::empty());
    for entry in iter: claims.into_iter()
        invariant
            iter.seq() == all,
            sorted@ == sorted_claims(all.take(iter.index() as int)),
    {
        let ghost before = sorted@;
        let mut at: usize = sorted.len();
        assert(before.take(at as int) =~= before);
        assert(insert_claim(before, entry) =~= insert_claim(before.take(at as int), entry)
            + before.skip(at as int));
        while at > 0 && entry.logseq_uuid.uuid.value < sorted[at - 1].logseq_uuid.uuid.value
            invariant
                at <= sorted@.len(),
                sorted@ == before,
                insert_claim(before, entry) == insert_claim(before.take(at as int), entry)
                    + before.skip(at as int),
            decreases at,
        {
            proof {
                let front = before.take(at as int);
                assert(front.last() == before[at - 1]);
                assert(front.drop_last() =~= before.take(at - 1));
                assert(insert_claim(before, entry) =~= insert_claim(before.take(at - 1), entry)
                    + before.skip(at - 1));
            }
            at -= 1;
        }
        proof {
            let front = before.take(at as int);
            if at > 0 {
                assert(front.last() == before[at - 1]);
            }
            assert(insert_claim(before, entry) =~= before.insert(at as int, entry));
            let index = iter.index() as int;
            assert(all.take(index + 1).drop_last() =~= all.take(index));
            assert(all.take(index + 1).last() == entry);
        }
        sorted.insert(at, entry);
    }
    assert(all.take(all.len() as int) =~= all);
    sorted
}

} // verus!
