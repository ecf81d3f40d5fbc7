//! Manifested intents, their annotated bases and the sets that a batch carries.

use tine_projection::annotation::{
    AnnotatedIdentity, ProjectionClaimEvidence, ProjectionClaimParticipant, StructuralLocator,
    StructuralSpan,
};
use tine_projection::frontier::FrontierV2;
use tine_projection::hash::{BlobDescription, Digest};
use tine_projection::ids::{
    BatchId, BlockId, ContentDigest, DeviceId, DocumentId, LogseqUuid, PageId,
    PortablePathIndexRoot, PortablePathKeyDigest, ProjectionEndpointId, SessionId, Uuid,
    WorkspaceId,
};
use tine_projection::manifest::{
    ManifestObjectRef, ManifestProjectionPrecondition, ManifestProjectionTarget,
    ManifestedProjectionIntent, ManifestedProjectionIntentWire, ObjectDescriptor, ObjectKind,
    ParsedProjectionIntent, MAX_MANIFESTED_PROJECTION_BYTES,
};
use tine_projection::manifest_base::{
    AnnotatedProjectionBase, AnnotatedProjectionBaseWire, ParsedAnnotatedBase,
};
use tine_projection::manifest_check::{
    annotated_base_document_id, encode_canonical, projection_intent_document_id,
    validate_annotations, validate_blob, validate_claim_evidence, MAX_PROJECTION_ANNOTATIONS,
    MAX_PROJECTION_CLAIM_EVIDENCE,
};
use tine_projection::manifest_error::ProjectionManifestError;
use tine_projection::manifest_set::{
    validate_projection_object_set, ObjectContent, OperationBatch, OperationObject,
};
use tine_projection::path::ManagedPath;

fn uuid(value: u128) -> Uuid {
    Uuid::from_u128(value)
}

fn path(value: &str) -> ManagedPath {
    ManagedPath::new(
        value.to_string(),
        PortablePathKeyDigest::from_digest(Digest::of(value.as_bytes())),
    )
}

fn annotation(locator: &[u32], start: u64, end: u64, block: u128, logseq: Option<u128>) -> AnnotatedIdentity {
    AnnotatedIdentity::new(
        StructuralLocator::new(locator.to_vec()).unwrap(),
        StructuralSpan::new(start, end).unwrap(),
        BlockId::from_uuid(uuid(block)),
        logseq.map(|value| LogseqUuid::from_uuid(uuid(value))),
    )
}

fn claim(logseq: u128, blocks: &[u128]) -> ProjectionClaimEvidence {
    ProjectionClaimEvidence::new(
        LogseqUuid::from_uuid(uuid(logseq)),
        blocks
            .iter()
            .map(|block| {
                ProjectionClaimParticipant::new(
                    BlockId::from_uuid(uuid(*block)),
                    DocumentId::from_uuid(uuid(9)),
                )
            })
            .collect(),
    )
}

fn intent_fields() -> ManifestedProjectionIntentWire {
    let bytes = b"- a\n".to_vec();
    ManifestedProjectionIntentWire {
        schema_version: 2,
        workspace_id: WorkspaceId::from_uuid(uuid(1)),
        source_batch_id: BatchId::from_uuid(uuid(2)),
        source_author_device_id: DeviceId::from_uuid(uuid(3)),
        source_author_session_id: SessionId::from_uuid(uuid(4)),
        source_endpoint_id: ProjectionEndpointId::from_uuid(uuid(5)),
        page_id: PageId::from_uuid(uuid(6)),
        path: path("pages/a.md"),
        portable_path_key_version: 1,
        portable_path_key_digest: path("pages/a.md").portable_key_digest(),
        portable_path_index_root: PortablePathIndexRoot::from_digest(Digest::of(b"root")),
        precondition: ManifestProjectionPrecondition::Absent,
        render_base: None,
        target: ManifestProjectionTarget::Present {
            description: BlobDescription::of(&bytes),
            bytes,
            annotations: vec![annotation(&[0], 0, 4, 7, None)],
        },
        post_frontier: FrontierV2::default(),
        claim_evidence: Vec::new(),
    }
}

fn base_fields() -> AnnotatedProjectionBaseWire {
    let bytes = b"- old\n".to_vec();
    AnnotatedProjectionBaseWire {
        schema_version: 1,
        workspace_id: WorkspaceId::from_uuid(uuid(1)),
        endpoint_id: ProjectionEndpointId::from_uuid(uuid(5)),
        source_page_id: PageId::from_uuid(uuid(6)),
        source_path: path("pages/a.md"),
        prior_completion_id: None,
        prior_frontier: FrontierV2::default(),
        description: BlobDescription::of(&bytes),
        bytes,
        annotations: vec![annotation(&[0], 0, 6, 7, None)],
        claim_evidence: Vec::new(),
    }
}

fn parsed(fields: ManifestedProjectionIntentWire, body: &[u8]) -> ParsedProjectionIntent {
    ParsedProjectionIntent {
        fields: Ok(fields),
        body: Ok(body.to_vec()),
    }
}

fn parsed_base(fields: AnnotatedProjectionBaseWire, body: &[u8]) -> ParsedAnnotatedBase {
    ParsedAnnotatedBase {
        fields: Ok(fields),
        body: Ok(body.to_vec()),
    }
}

fn framed(magic: &[u8], body: &[u8]) -> Vec<u8> {
    let mut bytes = magic.to_vec();
    bytes.extend_from_slice(body);
    bytes
}

fn decode(fields: ManifestedProjectionIntentWire) -> Result<ManifestedProjectionIntent, ProjectionManifestError> {
    ManifestedProjectionIntent::decode(&framed(b"TINEPRI2", b"body"), parsed(fields, b"body"))
}

fn decode_base(fields: AnnotatedProjectionBaseWire) -> Result<AnnotatedProjectionBase, ProjectionManifestError> {
    AnnotatedProjectionBase::decode(&framed(b"TINEPRB1", b"base"), parsed_base(fields, b"base"))
}

#[test]
fn an_encoded_intent_decodes_to_itself() {
    let fields = intent_fields();
    let intent = ManifestedProjectionIntent::new(
        fields.workspace_id,
        fields.source_batch_id,
        fields.source_author_device_id,
        fields.source_author_session_id,
        fields.source_endpoint_id,
        fields.page_id,
        path("pages/a.md"),
        fields.portable_path_index_root,
        fields.precondition,
        None,
        fields.target.clone(),
        FrontierV2::default(),
        Vec::new(),
    )
    .unwrap();
    let encoded = intent.encode(Ok(b"body".to_vec())).unwrap();
    assert_eq!(encoded, b"TINEPRI2body");
    assert_eq!(ManifestedProjectionIntent::decode_body(&encoded).unwrap(), b"body");
    let decoded = ManifestedProjectionIntent::decode(&encoded, parsed(fields, b"body")).unwrap();
    assert_eq!(decoded, intent);
    assert_eq!(decoded.portable_path_key_version(), 1);
    assert_eq!(decoded.target().annotations().len(), 1);
    assert_eq!(decoded.target().bytes(), Some(b"- a\n".as_slice()));
}

#[test]
fn an_encoded_base_decodes_to_itself() {
    let fields = base_fields();
    let base = AnnotatedProjectionBase::new(
        fields.workspace_id,
        fields.endpoint_id,
        fields.source_page_id,
        path("pages/a.md"),
        None,
        FrontierV2::default(),
        fields.bytes.clone(),
        fields.annotations.clone(),
        Vec::new(),
    )
    .unwrap();
    let encoded = base.encode(Ok(b"base".to_vec())).unwrap();
    assert_eq!(encoded, b"TINEPRB1base");
    let decoded = AnnotatedProjectionBase::decode(&encoded, parsed_base(fields, b"base")).unwrap();
    assert_eq!(decoded, base);
    assert_eq!(decoded.description(), BlobDescription::of(b"- old\n"));
    assert_eq!(
        decoded.descriptor_document_id(Ok(b"base".to_vec())).unwrap(),
        annotated_base_document_id(&encoded)
    );
}

#[test]
fn claims_of_a_new_intent_are_put_in_order() {
    let fields = intent_fields();
    let intent = ManifestedProjectionIntent::new(
        fields.workspace_id,
        fields.source_batch_id,
        fields.source_author_device_id,
        fields.source_author_session_id,
        fields.source_endpoint_id,
        fields.page_id,
        path("pages/a.md"),
        fields.portable_path_index_root,
        fields.precondition,
        None,
        fields.target,
        FrontierV2::default(),
        vec![claim(20, &[1]), claim(10, &[1, 2])],
    )
    .unwrap();
    assert_eq!(intent.claim_evidence(), &[claim(10, &[1, 2]), claim(20, &[1])]);
}

#[test]
fn a_foreign_frame_is_refused() {
    assert_eq!(
        ManifestedProjectionIntent::decode(b"TINEPRI1body", parsed(intent_fields(), b"body")),
        Err(ProjectionManifestError::InvalidMagic("projection intent"))
    );
    assert_eq!(
        ManifestedProjectionIntent::decode_body(b"TINE"),
        Err(ProjectionManifestError::InvalidMagic("projection intent"))
    );
    assert_eq!(
        AnnotatedProjectionBase::decode(b"TINEPRI2base", parsed_base(base_fields(), b"base")),
        Err(ProjectionManifestError::InvalidMagic("annotated base"))
    );
}

#[test]
fn another_encoding_of_the_same_fields_is_refused() {
    assert_eq!(
        ManifestedProjectionIntent::decode(b"TINEPRI2body!", parsed(intent_fields(), b"body")),
        Err(ProjectionManifestError::NonCanonical("projection intent"))
    );
    assert_eq!(
        AnnotatedProjectionBase::decode(b"TINEPRB1base!", parsed_base(base_fields(), b"base")),
        Err(ProjectionManifestError::NonCanonical("annotated base"))
    );
}

#[test]
fn what_the_codec_reports_is_passed_on() {
    assert_eq!(
        ManifestedProjectionIntent::decode(
            b"TINEPRI2x",
            ParsedProjectionIntent {
                fields: Err("short".to_string()),
                body: Ok(Vec::new()),
            }
        ),
        Err(ProjectionManifestError::Decode("short".to_string()))
    );
    assert_eq!(
        ManifestedProjectionIntent::decode(
            b"TINEPRI2x",
            ParsedProjectionIntent {
                fields: Ok(intent_fields()),
                body: Err("full".to_string()),
            }
        ),
        Err(ProjectionManifestError::Encode("full".to_string()))
    );
}

#[test]
fn a_frame_has_a_limit() {
    assert_eq!(encode_canonical(b"ABCD", Ok(vec![1, 2]), 6).unwrap(), [65, 66, 67, 68, 1, 2]);
    assert_eq!(
        encode_canonical(b"ABCD", Ok(vec![1, 2, 3]), 6),
        Err(ProjectionManifestError::TooLarge {
            kind: "projection object",
            length: 7,
            limit: 6,
        })
    );
    let long = vec![0; MAX_MANIFESTED_PROJECTION_BYTES + 1];
    assert_eq!(
        ManifestedProjectionIntent::decode(&long, parsed(intent_fields(), b"body")),
        Err(ProjectionManifestError::TooLarge {
            kind: "projection intent",
            length: 33_554_433,
            limit: 33_554_432,
        })
    );
}

#[test]
fn versions_are_exact() {
    let mut fields = intent_fields();
    fields.schema_version = 1;
    assert_eq!(
        decode(fields),
        Err(ProjectionManifestError::UnknownVersion {
            kind: "projection intent",
            expected: 2,
            found: 1,
        })
    );
    let mut fields = base_fields();
    fields.schema_version = 2;
    assert_eq!(
        decode_base(fields),
        Err(ProjectionManifestError::UnknownVersion {
            kind: "annotated base",
            expected: 1,
            found: 2,
        })
    );
}

#[test]
fn a_path_key_must_belong_to_the_path() {
    let mut fields = intent_fields();
    fields.portable_path_key_digest = path("pages/b.md").portable_key_digest();
    assert_eq!(
        decode(fields),
        Err(ProjectionManifestError::InvalidBinding(
            "projection intent portable-path key binding mismatch"
        ))
    );
}

#[test]
fn an_absent_target_has_no_render_base() {
    let mut fields = intent_fields();
    fields.target = ManifestProjectionTarget::Absent;
    assert!(decode(fields.clone()).is_ok());
    fields.render_base = Some(ManifestObjectRef {
        document_id: DocumentId::from_uuid(uuid(8)),
        content_digest: ContentDigest::from_digest(Digest::of(b"x")),
        encoded_byte_length: 1,
    });
    assert_eq!(
        decode(fields),
        Err(ProjectionManifestError::InvalidBinding(
            "Absent target cannot carry a render base"
        ))
    );
}

#[test]
fn a_description_must_describe_the_bytes() {
    assert!(validate_blob(BlobDescription::of(b"a"), b"a", "projection target").is_ok());
    assert_eq!(
        validate_blob(BlobDescription::of(b"a"), b"b", "projection target"),
        Err(ProjectionManifestError::BlobMismatch("projection target"))
    );
    let mut fields = base_fields();
    fields.bytes.push(b'!');
    assert_eq!(
        decode_base(fields),
        Err(ProjectionManifestError::BlobMismatch("annotated base"))
    );
}

#[test]
fn annotations_ascend_without_repetition_inside_the_target() {
    let first = annotation(&[0], 0, 2, 1, Some(1));
    assert!(validate_annotations(&[first.clone(), annotation(&[0, 0], 2, 4, 2, None)], 4).is_ok());
    assert_eq!(
        validate_annotations(&[annotation(&[1], 0, 2, 1, None), annotation(&[0], 2, 4, 2, None)], 4),
        Err(ProjectionManifestError::NonCanonical("projection annotations"))
    );
    for second in [
        annotation(&[1], 2, 4, 1, None),
        annotation(&[1], 2, 4, 2, Some(1)),
        annotation(&[1], 2, 5, 2, None),
    ] {
        assert_eq!(
            validate_annotations(&[first.clone(), second], 4),
            Err(ProjectionManifestError::InvalidAnnotations)
        );
    }
    let many = vec![first; MAX_PROJECTION_ANNOTATIONS + 1];
    assert_eq!(
        validate_annotations(&many, 4),
        Err(ProjectionManifestError::TooManyAnnotations(100_001))
    );
}

#[test]
fn claim_evidence_ascends_and_names_participants() {
    assert!(validate_claim_evidence(&[claim(1, &[2]), claim(2, &[1, 2])]).is_ok());
    for evidence in [
        vec![claim(2, &[1]), claim(1, &[1])],
        vec![claim(1, &[])],
        vec![claim(1, &[1, 1])],
    ] {
        assert_eq!(
            validate_claim_evidence(&evidence),
            Err(ProjectionManifestError::NonCanonical("projection claim evidence"))
        );
    }
    let many = vec![claim(1, &[1]); MAX_PROJECTION_CLAIM_EVIDENCE + 1];
    assert_eq!(
        validate_claim_evidence(&many),
        Err(ProjectionManifestError::TooMuchClaimEvidence(100_001))
    );
}

#[test]
fn document_identities_have_fixed_values() {
    assert_eq!(
        projection_intent_document_id(
            BatchId::from_uuid(uuid(2)),
            ProjectionEndpointId::from_uuid(uuid(5)),
            PageId::from_uuid(uuid(6)),
            &path("pages/a.md"),
        )
        .as_uuid()
        .hyphenated(),
        "e2d72e10-a6b0-8ff3-aa1a-f8db83e01729"
    );
    assert_eq!(
        annotated_base_document_id(b"TINEPRB1base").as_uuid().hyphenated(),
        "518ff576-da92-8980-a7f9-ea605db3f286"
    );
}

// Sets of objects.

fn descriptor(kind: ObjectKind, document_id: DocumentId, payload: &[u8]) -> ObjectDescriptor {
    ObjectDescriptor {
        kind,
        document_id,
        content_digest: ContentDigest::from_digest(Digest::of(payload)),
        encoded_byte_length: payload.len() as u64,
    }
}

fn base_object(fields: AnnotatedProjectionBaseWire) -> OperationObject {
    let payload = framed(b"TINEPRB1", b"base");
    let document_id = annotated_base_document_id(&payload);
    OperationObject {
        document_id,
        descriptor: Ok(descriptor(ObjectKind::AnnotatedBaseBlob, document_id, &payload)),
        payload,
        content: ObjectContent::AnnotatedBaseBlob(parsed_base(fields, b"base")),
    }
}

fn intent_object(fields: ManifestedProjectionIntentWire, body: &[u8]) -> OperationObject {
    let payload = framed(b"TINEPRI2", body);
    let document_id = projection_intent_document_id(
        fields.source_batch_id,
        fields.source_endpoint_id,
        fields.page_id,
        &fields.path,
    );
    OperationObject {
        document_id,
        descriptor: Ok(descriptor(ObjectKind::ProjectionIntent, document_id, &payload)),
        payload,
        content: ObjectContent::ProjectionIntent(parsed(fields, body)),
    }
}

fn based_fields() -> ManifestedProjectionIntentWire {
    let base = base_object(base_fields());
    let mut fields = intent_fields();
    fields.precondition = ManifestProjectionPrecondition::Present {
        base: ManifestObjectRef::from_descriptor(base.descriptor.as_ref().unwrap()),
    };
    fields
}

fn batch(objects: &[OperationObject]) -> OperationBatch {
    OperationBatch {
        workspace_id: WorkspaceId::from_uuid(uuid(1)),
        batch_id: BatchId::from_uuid(uuid(2)),
        author_device_id: DeviceId::from_uuid(uuid(3)),
        author_session_id: SessionId::from_uuid(uuid(4)),
        required_objects: objects
            .iter()
            .filter_map(|object| object.descriptor.as_ref().ok().copied())
            .collect(),
    }
}

fn validate(objects: Vec<OperationObject>) -> Result<(usize, usize), ProjectionManifestError> {
    let manifest = batch(&objects);
    validate_projection_object_set(&manifest, objects)
        .map(|set| (set.intents().len(), set.bases().len()))
}

#[test]
fn a_set_binds_every_intent_to_its_base() {
    let objects = vec![intent_object(based_fields(), b"one"), base_object(base_fields())];
    assert_eq!(validate(objects), Ok((1, 1)));
}

#[test]
fn the_intents_of_a_set_are_in_order_whatever_the_listing() {
    let mut other = intent_fields();
    other.page_id = PageId::from_uuid(uuid(1));
    for objects in [
        vec![intent_object(intent_fields(), b"one"), intent_object(other.clone(), b"two")],
        vec![intent_object(other.clone(), b"two"), intent_object(intent_fields(), b"one")],
    ] {
        let manifest = batch(&objects);
        let (intents, bases) = validate_projection_object_set(&manifest, objects)
            .unwrap()
            .into_parts();
        assert!(bases.is_empty());
        assert_eq!(intents[0].page_id(), PageId::from_uuid(uuid(1)));
        assert_eq!(intents[1].page_id(), PageId::from_uuid(uuid(6)));
    }
}

#[test]
fn the_order_of_the_objects_never_shows() {
    let list = || {
        let mut other = intent_fields();
        other.page_id = PageId::from_uuid(uuid(1));
        vec![
            intent_object(based_fields(), b"one"),
            base_object(base_fields()),
            intent_object(other, b"two"),
        ]
    };
    let manifest = batch(&list());
    let expected = validate_projection_object_set(&manifest, list()).unwrap();
    assert_eq!(expected.intents().len(), 2);
    assert_eq!(expected.bases().len(), 1);
    for order in [[0, 2, 1], [1, 0, 2], [1, 2, 0], [2, 0, 1], [2, 1, 0]] {
        let mut held: Vec<Option<OperationObject>> = list().into_iter().map(Some).collect();
        let objects = order.into_iter().map(|at| held[at].take().unwrap()).collect();
        assert_eq!(
            validate_projection_object_set(&manifest, objects).as_ref(),
            Ok(&expected)
        );
    }
}

#[test]
fn each_fault_of_a_set_is_named() {
    assert_eq!(
        validate(vec![base_object(base_fields())]),
        Err(ProjectionManifestError::OrphanBase)
    );
    assert_eq!(
        validate(vec![intent_object(based_fields(), b"one")]),
        Err(ProjectionManifestError::MissingBaseReference)
    );
    assert_eq!(
        validate(vec![
            intent_object(intent_fields(), b"one"),
            intent_object(intent_fields(), b"two")
        ]),
        Err(ProjectionManifestError::DuplicateIntent)
    );
    assert_eq!(
        validate(vec![base_object(base_fields()), base_object(base_fields())]),
        Err(ProjectionManifestError::DuplicateBase)
    );

    let mut mismatched = based_fields();
    if let ManifestProjectionPrecondition::Present { base } = &mut mismatched.precondition {
        base.encoded_byte_length += 1;
    }
    assert_eq!(
        validate(vec![intent_object(mismatched, b"one"), base_object(base_fields())]),
        Err(ProjectionManifestError::BaseReferenceMismatch)
    );

    let mut elsewhere = base_fields();
    elsewhere.source_path = path("pages/b.md");
    assert_eq!(
        validate(vec![intent_object(based_fields(), b"one"), base_object(elsewhere)]),
        Err(ProjectionManifestError::InvalidBinding(
            "precondition base path does not match intent path"
        ))
    );

    let mut foreign = base_fields();
    foreign.source_page_id = PageId::from_uuid(uuid(77));
    assert_eq!(
        validate(vec![intent_object(based_fields(), b"one"), base_object(foreign)]),
        Err(ProjectionManifestError::InvalidBinding(
            "annotated base endpoint/page does not match intent"
        ))
    );

    let mut broken = intent_object(intent_fields(), b"one");
    broken.descriptor = Err("unreadable".to_string());
    assert_eq!(
        validate(vec![broken]),
        Err(ProjectionManifestError::Object("unreadable".to_string()))
    );

    let mut displaced = intent_object(intent_fields(), b"one");
    let expected = displaced.document_id;
    displaced.document_id = DocumentId::from_uuid(uuid(1));
    assert_eq!(
        validate(vec![displaced]),
        Err(ProjectionManifestError::DescriptorDocumentMismatch {
            kind: "projection intent",
            expected,
            found: DocumentId::from_uuid(uuid(1)),
        })
    );

    let mut other_batch = intent_fields();
    other_batch.source_author_device_id = DeviceId::from_uuid(uuid(33));
    assert_eq!(
        validate(vec![intent_object(other_batch, b"one")]),
        Err(ProjectionManifestError::InvalidBinding(
            "projection intent source binding does not match manifest"
        ))
    );
    let objects = vec![intent_object(intent_fields(), b"one")];
    let mut manifest = batch(&objects);
    manifest.required_objects.clear();
    assert_eq!(
        validate_projection_object_set(&manifest, objects).map(|_| ()),
        Err(ProjectionManifestError::InvalidBinding(
            "projection object has no manifest descriptor"
        ))
    );
}

#[test]
fn manifest_faults_have_their_words() {
    assert_eq!(
        ProjectionManifestError::OrphanBase.message(),
        "manifest contains an orphan annotated base"
    );
    assert_eq!(
        ProjectionManifestError::UnknownVersion {
            kind: "annotated base",
            expected: 1,
            found: 20,
        }
        .message(),
        "unknown annotated base schema 20; expected 1"
    );
}
