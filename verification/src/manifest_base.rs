//! Annotated bases: the bytes that a projection starts from, with the identities in them.

use vstd::prelude::*;

use crate::annotation::{AnnotatedIdentity, ProjectionClaimEvidence};
use crate::bytes::same_bytes;
use crate::frontier::FrontierV2;
use crate::hash::BlobDescription;
use crate::ids::{DocumentId, LogicalCompletionId, PageId, ProjectionEndpointId, WorkspaceId};
use crate::manifest::{
    base_magic, sort_claims, sorted_claims, ANNOTATED_BASE_SCHEMA_VERSION, MAX_ANNOTATED_BASE_BYTES,
};
use crate::manifest_check::{
    annotated_base_document_id, annotations_check, blob_check, claims_check, encode_canonical,
    frame_length, has_prefix, spec_annotated_base_document_id, starts_with, validate_annotations,
    validate_blob, validate_claim_evidence,
};
use crate::manifest_error::ProjectionManifestError;
use crate::path::ManagedPath;

verus! {

/// The first bytes of an encoded annotated base.
fn base_magic_bytes() -> (magic: [u8; 8])
    ensures
        magic@ == base_magic(),
{
    let magic: [u8; 8] = [0x54, 0x49, 0x4e, 0x45, 0x50, 0x52, 0x42, 0x31];
    assert(magic@ =~= base_magic());
    magic
}

/// The fields of an annotated base as they are read, before any check.
#[derive(Clone, Debug, PartialEq, Eq)]
pub struct AnnotatedProjectionBaseWire {
    pub schema_version: u32,
    pub workspace_id: WorkspaceId,
    pub endpoint_id: ProjectionEndpointId,
    pub source_page_id: PageId,
    pub source_path: ManagedPath,
    pub prior_completion_id: Option<LogicalCompletionId>,
    pub prior_frontier: FrontierV2,
    pub description: BlobDescription,
    pub bytes: Vec<u8>,
    pub annotations: Vec<AnnotatedIdentity>,
    pub claim_evidence: Vec<ProjectionClaimEvidence>,
}

/// Whether the fields of a base belong together, and if not, why.
pub open spec fn base_check(
    schema_version: u32,
    description: BlobDescription,
    bytes: Seq<u8>,
    annotations: Seq<AnnotatedIdentity>,
    claims: Seq<ProjectionClaimEvidence>,
) -> Result<(), ProjectionManifestError> {
    if schema_version != ANNOTATED_BASE_SCHEMA_VERSION {
        Err(
            ProjectionManifestError::UnknownVersion {
                kind: "annotated base",
                expected: ANNOTATED_BASE_SCHEMA_VERSION,
                found: schema_version,
            },
        )
    } else {
        match blob_check(description, bytes, "annotated base") {
            Err(error) => Err(error),
            Ok(()) => match annotations_check(annotations, bytes.len() as u64) {
                Err(error) => Err(error),
                Ok(()) => claims_check(claims),
            },
        }
    }
}

impl AnnotatedProjectionBaseWire {
    /// Whether the fields belong together, and if not, why.
    pub open spec fn check(self) -> Result<(), ProjectionManifestError> {
        base_check(
            self.schema_version,
            self.description,
            self.bytes@,
            self.annotations@,
            self.claim_evidence@,
        )
    }
}

/// What parsing an encoded base gave: the fields or the parser's message, and the canonical
/// encoding of those fields or the encoder's message.
#[derive(Debug, PartialEq, Eq)]
pub struct ParsedAnnotatedBase {
    pub fields: Result<AnnotatedProjectionBaseWire, String>,
    pub body: Result<Vec<u8>, String>,
}

/// The fields that an encoded base stands for, or why it is refused.
pub open spec fn base_decoded(bytes: Seq<u8>, parsed: ParsedAnnotatedBase) -> Result<
    AnnotatedProjectionBaseWire,
    ProjectionManifestError,
> {
    if bytes.len() > MAX_ANNOTATED_BASE_BYTES {
        Err(
            ProjectionManifestError::TooLarge {
                kind: "annotated base",
                length: bytes.len() as usize,
                limit: MAX_ANNOTATED_BASE_BYTES,
            },
        )
    } else if !starts_with(bytes, base_magic()) {
        Err(ProjectionManifestError::InvalidMagic("annotated base"))
    } else {
        match parsed.fields {
            Err(message) => Err(ProjectionManifestError::Decode(message)),
            Ok(fields) => match fields.check() {
                Err(error) => Err(error),
                Ok(()) => match parsed.body {
                    Err(message) => Err(ProjectionManifestError::Encode(message)),
                    Ok(body) => if frame_length(base_magic(), body@) > MAX_ANNOTATED_BASE_BYTES {
                        Err(
                            ProjectionManifestError::TooLarge {
                                kind: "projection object",
                                length: frame_length(base_magic(), body@),
                                limit: MAX_ANNOTATED_BASE_BYTES,
                            },
                        )
                    } else if base_magic() + body@ != bytes {
                        Err(ProjectionManifestError::NonCanonical("annotated base"))
                    } else {
                        Ok(fields)
                    },
                },
            },
        }
    }
}

/// The bytes that a projection starts from, with the identities in them.
#[derive(Clone, Debug, PartialEq, Eq)]
pub struct AnnotatedProjectionBase {
    fields: AnnotatedProjectionBaseWire,
}

impl AnnotatedProjectionBase {
    /// The fields of the base.
    pub closed spec fn wire(self) -> AnnotatedProjectionBaseWire {
        self.fields
    }

    /// Whether the fields of the base belong together.
    pub open spec fn wf(self) -> bool {
        self.wire().check() is Ok
    }

    /// The base with the given parts. Its claim evidence is put in the order of the claimed
    /// identities.
    pub fn new(
        workspace_id: WorkspaceId,
        endpoint_id: ProjectionEndpointId,
        source_page_id: PageId,
        source_path: ManagedPath,
        prior_completion_id: Option<LogicalCompletionId>,
        prior_frontier: FrontierV2,
        bytes: Vec<u8>,
        annotations: Vec<AnnotatedIdentity>,
        claim_evidence: Vec<ProjectionClaimEvidence>,
    ) -> (base: Result<AnnotatedProjectionBase, ProjectionManifestError>)
        ensures
            match base_check(
                ANNOTATED_BASE_SCHEMA_VERSION,
                BlobDescription::spec_of(bytes@),
                bytes@,
                annotations@,
                sorted_claims(claim_evidence@),
            ) {
                Err(error) => base == Err::<AnnotatedProjectionBase, _>(error),
                Ok(()) => base is Ok && ({
                    let fields = base->Ok_0.wire();
                    &&& base->Ok_0.wf()
                    &&& fields.claim_evidence@ == sorted_claims(claim_evidence@)
                    &&& fields == (AnnotatedProjectionBaseWire {
                        schema_version: ANNOTATED_BASE_SCHEMA_VERSION,
                        workspace_id,
                        endpoint_id,
                        source_page_id,
                        source_path,
                        prior_completion_id,
                        prior_frontier,
                        description: BlobDescription::spec_of(bytes@),
                        bytes,
                        annotations,
                        claim_evidence: fields.claim_evidence,
                    })
                }),
            },
    {
        let claim_evidence = sort_claims(claim_evidence);
        let description = BlobDescription::of(bytes.as_slice());
        let base = AnnotatedProjectionBase {
            fields: AnnotatedProjectionBaseWire {
                schema_version: ANNOTATED_BASE_SCHEMA_VERSION,
                workspace_id,
                endpoint_id,
                source_page_id,
                source_path,
                prior_completion_id,
                prior_frontier,
                description,
                bytes,
                annotations,
                claim_evidence,
            },
        };
        match base.validate() {
            Err(error) => Err(error),
            Ok(()) => Ok(base),
        }
    }

    /// The encoded base, from the canonical encoding of its fields.
    pub fn encode(&self, body: Result<Vec<u8>, String>) -> (encoded: Result<
        Vec<u8>,
        ProjectionManifestError,
    >)
        ensures
            match self.wire().check() {
                Err(error) => encoded == Err::<Vec<u8>, _>(error),
                Ok(()) => match body {
                    Err(message) => encoded == Err::<Vec<u8>, _>(
                        ProjectionManifestError::Encode(message),
                    ),
                    Ok(body) => if frame_length(base_magic(), body@) > MAX_ANNOTATED_BASE_BYTES {
                        encoded == Err::<Vec<u8>, _>(
                            ProjectionManifestError::TooLarge {
                                kind: "projection object",
                                length: frame_length(base_magic(), body@),
                                limit: MAX_ANNOTATED_BASE_BYTES,
                            },
                        )
                    } else {
                        encoded is Ok && encoded->Ok_0@ == base_magic() + body@
                    },
                },
            },
    {
        match self.validate() {
            Err(error) => Err(error),
            Ok(()) => encode_canonical(
                base_magic_bytes().as_slice(),
                body,
                MAX_ANNOTATED_BASE_BYTES,
            ),
        }
    }

    /// The part of an encoded base that holds its fields, where the encoding is not too long and
    /// carries the magic.
    pub fn decode_body(bytes: &[u8]) -> (body: Result<&[u8], ProjectionManifestError>)
        ensures
            if bytes@.len() > MAX_ANNOTATED_BASE_BYTES {
                body == Err::<&[u8], _>(
                    ProjectionManifestError::TooLarge {
                        kind: "annotated base",
                        length: bytes@.len() as usize,
                        limit: MAX_ANNOTATED_BASE_BYTES,
                    },
                )
            } else if !starts_with(bytes@, base_magic()) {
                body == Err::<&[u8], _>(ProjectionManifestError::InvalidMagic("annotated base"))
            } else {
                body is Ok && body->Ok_0@ == bytes@.skip(8)
            },
    {
        if bytes.len() > MAX_ANNOTATED_BASE_BYTES {
            return Err(
                ProjectionManifestError::TooLarge {
                    kind: "annotated base",
                    length: bytes.len(),
                    limit: MAX_ANNOTATED_BASE_BYTES,
                },
            );
        }
        if !has_prefix(bytes, base_magic_bytes().as_slice()) {
            return Err(ProjectionManifestError::InvalidMagic("annotated base"));
        }
        let body = vstd::slice::slice_subrange(bytes, 8, bytes.len());
        assert(body@ =~= bytes@.skip(8));
        Ok(body)
    }

    /// The base that `bytes` encodes, given what parsing their body gave. The encoding must be the
    /// canonical one.
    pub fn decode(bytes: &[u8], parsed: ParsedAnnotatedBase) -> (base: Result<
        AnnotatedProjectionBase,
        ProjectionManifestError,
    >)
        ensures
            match base_decoded(bytes@, parsed) {
                Err(error) => base == Err::<AnnotatedProjectionBase, _>(error),
                Ok(fields) => base is Ok && base->Ok_0.wire() == fields && base->Ok_0.wf(),
            },
    {
        if let Err(error) = AnnotatedProjectionBase::decode_body(bytes) {
            return Err(error);
        }
        let fields = match parsed.fields {
            Ok(fields) => fields,
            Err(message) => return Err(ProjectionManifestError::Decode(message)),
        };
        let base = AnnotatedProjectionBase { fields };
        match base.encode(parsed.body) {
            Err(error) => Err(error),
            Ok(encoded) => if same_bytes(encoded.as_slice(), bytes) {
                Ok(base)
            } else {
                Err(ProjectionManifestError::NonCanonical("annotated base"))
            },
        }
    }

    /// The workspace.
    pub fn workspace_id(&self) -> (workspace_id: WorkspaceId)
        ensures
            workspace_id == self.wire().workspace_id,
    {
        self.fields.workspace_id
    }

    /// The endpoint that holds the bytes.
    pub fn endpoint_id(&self) -> (endpoint_id: ProjectionEndpointId)
        ensures
            endpoint_id == self.wire().endpoint_id,
    {
        self.fields.endpoint_id
    }

    /// The page that the bytes are of.
    pub fn source_page_id(&self) -> (source_page_id: PageId)
        ensures
            source_page_id == self.wire().source_page_id,
    {
        self.fields.source_page_id
    }

    /// The path that the bytes were at.
    pub fn source_path(&self) -> (source_path: &ManagedPath)
        ensures
            *source_path == self.wire().source_path,
    {
        &self.fields.source_path
    }

    /// The completion that put the bytes there.
    pub fn prior_completion_id(&self) -> (prior_completion_id: Option<LogicalCompletionId>)
        ensures
            prior_completion_id == self.wire().prior_completion_id,
    {
        self.fields.prior_completion_id
    }

    /// The frontier that the bytes were projected at.
    pub fn prior_frontier(&self) -> (prior_frontier: &FrontierV2)
        ensures
            *prior_frontier == self.wire().prior_frontier,
    {
        &self.fields.prior_frontier
    }

    /// The description of the bytes.
    pub fn description(&self) -> (description: BlobDescription)
        ensures
            description == self.wire().description,
    {
        self.fields.description
    }

    /// The bytes.
    pub fn bytes(&self) -> (bytes: &[u8])
        ensures
            bytes@ == self.wire().bytes@,
    {
        self.fields.bytes.as_slice()
    }

    /// The identities in the bytes.
    pub fn annotations(&self) -> (annotations: &[AnnotatedIdentity])
        ensures
            annotations@ == self.wire().annotations@,
    {
        self.fields.annotations.as_slice()
    }

    /// The blocks that claim the written identities.
    pub fn claim_evidence(&self) -> (claim_evidence: &[ProjectionClaimEvidence])
        ensures
            claim_evidence@ == self.wire().claim_evidence@,
    {
        self.fields.claim_evidence.as_slice()
    }

    /// The document that the base is stored as, from the canonical encoding of its fields.
    pub fn descriptor_document_id(&self, body: Result<Vec<u8>, String>) -> (document: Result<
        DocumentId,
        ProjectionManifestError,
    >)
        ensures
            match self.wire().check() {
                Err(error) => document == Err::<DocumentId, _>(error),
                Ok(()) => match body {
                    Err(message) => document == Err::<DocumentId, _>(
                        ProjectionManifestError::Encode(message),
                    ),
                    Ok(body) => if frame_length(base_magic(), body@) > MAX_ANNOTATED_BASE_BYTES {
                        document == Err::<DocumentId, _>(
                            ProjectionManifestError::TooLarge {
                                kind: "projection object",
                                length: frame_length(base_magic(), body@),
                                limit: MAX_ANNOTATED_BASE_BYTES,
                            },
                        )
                    } else {
                        document == Ok::<_, ProjectionManifestError>(
                            spec_annotated_base_document_id(base_magic() + body@),
                        )
                    },
                },
            },
    {
        match self.encode(body) {
            Err(error) => Err(error),
            Ok(encoded) => Ok(annotated_base_document_id(encoded.as_slice())),
        }
    }

    /// Checks that the fields belong together.
    fn validate(&self) -> (checked: Result<(), ProjectionManifestError>)
        ensures
            checked == self.wire().check(),
    {
        let fields = &self.fields;
        if fields.schema_version != ANNOTATED_BASE_SCHEMA_VERSION {
            return Err(
                ProjectionManifestError::UnknownVersion {
                    kind: "annotated base",
                    expected: ANNOTATED_BASE_SCHEMA_VERSION,
                    found: fields.schema_version,
                },
            );
        }
        if let Err(error) = validate_blob(
            fields.description,
            fields.bytes.as_slice(),
            "annotated base",
        ) {
            return Err(error);
        }
        if let Err(error) = validate_annotations(
            fields.annotations.as_slice(),
            fields.bytes.len() as u64,
        ) {
            return Err(error);
        }
        validate_claim_evidence(fields.claim_evidence.as_slice())
    }
}

} // verus!
