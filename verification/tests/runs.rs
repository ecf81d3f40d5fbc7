//! The runs that carry a projection out, and the queue of displaced files.

use tine_projection::annotation::AnnotatedIdentity;
use tine_projection::attempts::{EntryKind, ProjectionAttemptReservation};
use tine_projection::catalog::{CompletionEntry, IntentEntry};
use tine_projection::cleanup_opening::{
    CleanupOpening, CleanupOpeningAction, CleanupOpeningEvent,
};
use tine_projection::cleanup_run::{
    CleanupAction, CleanupEvent, CleanupPass, ListedEntry, MarkerFacts, ReadMarker,
    MAX_PENDING_PROJECTION_CLEANUP_PER_PASS,
};
use tine_projection::claim::NamespaceIdentities;
use tine_projection::completion::{ProjectionCompletion, ProjectionWrite};
use tine_projection::document::Document;
use tine_projection::error::{EngineError, ProjectionError};
use tine_projection::evidence::{
    publish_recovery_evidence, LocalProjectionEvidenceRecord, ParsedMarker,
    PendingProjectionCleanupMarker, ProjectionRecoveryEvidence,
};
use tine_projection::execution::{
    is_recovery_open, locate_projection_failure, receiver_clean_tombstone_plan,
    receiver_recovery_terminal_disposition, record_completed_tombstone_path,
    require_endpoint_authority, GraphOperation, ManifestedProjectionFaults,
    ProjectionEndpointBinding, ProjectionExecution, ProjectionTombstoneAuthorization,
};
use tine_projection::frontier::FrontierV2;
use tine_projection::hash::{BlobDescription, Digest};
use tine_projection::ids::{
    BatchId, BlockId, CanonicalGraphResourceId, ContentDigest, DeviceId, DocumentId, PageId,
    PortablePathIndexRoot, PortablePathKeyDigest, ProjectionEndpointId, ProjectionIntentId,
    ProjectionReceiptStoreId, SessionId, Uuid, WorkspaceId,
};
use tine_projection::inject::ProjectionFormat;
use tine_projection::intent::{
    BaseBlob, ProjectionIntent, ProjectionPrecondition, ProjectionTargetKind,
};
use tine_projection::manifest::{
    ManifestObjectRef, ManifestProjectionPrecondition, ManifestProjectionTarget,
    ManifestedProjectionIntent, ManifestedProjectionIntentWire, ObjectDescriptor, ObjectKind,
    ParsedProjectionIntent,
};
use tine_projection::manifest_check::projection_intent_document_id;
use tine_projection::manifest_set::{ObjectContent, OperationBatch, OperationObject};
use tine_projection::messages::HostWords;
use tine_projection::names::{completion_filename, intent_filename};
use tine_projection::page::{
    ManagedTextKind, MaterializedBlock, MaterializedPage, ParsedContent, ProjectionPageState,
};
use tine_projection::path::ManagedPath;
use tine_projection::plan::{
    plan_projection, render_input, PageRendering, ProjectionPlan, SourceBase, StrictSource,
};
use tine_projection::probe_run::{
    ExactProbe, ProbeAction, ProbeEvent, RetireAction, RetireEvent, RetirePass, RewriteAction,
    RewriteEvent, RewriteRun,
};
use tine_projection::receiver::derive_receiver_local_projection;
use tine_projection::receiver_run::{ReceiverAction, ReceiverEvent, ReceiverRun};
use tine_projection::recovery_run::{
    PassAction, PassEvent, RecoveryAction, RecoveryEvent, RecoveryPass, RecoveryRun,
};
use tine_projection::render::{mark_document_blocks, unused_mark_prefix};
use tine_projection::rounds::{
    check_cleanup_namespace, flip_pending_cleanup_round, open_pending_cleanup_rounds,
    publish_pending_cleanup_marker, read_pending_cleanup_marker,
    retire_pending_projection_cleanup, validate_pending_cleanup_round_root, MarkerPublication,
    PendingCleanupRoundState, Round, RoundIdentities, StoredRoundState,
};
use tine_projection::semantics::{SourceBlock, SourceDocument};
use tine_projection::store::{ProjectionReceiptStore, StoredCompletion, StoredIntent};
use tine_projection::store_error::{
    EntryFault, IoFailure, IoFailureKind, ProjectionStoreError, Reason,
};
use tine_projection::summary::NamedEntry;
use tine_projection::turn::{
    local_completion_intents_for_turn, projection_turn_pages_for_foreign_sources,
    projection_turn_pages_for_work, ArchivedWork, ForeignSource, ProjectionTurn, SequenceDomain,
    TurnOrigin, TurnPage, TurnPrecondition, TurnTarget,
};
use tine_projection::turn_run::{BatchRead, TurnAction, TurnEvent, TurnRun, WorkObjects};
use tine_projection::work::{
    decode_manifested_projection_work, ArchiveRead, ProjectionWork, ProjectionWorkTarget,
};
use tine_projection::work_run::{WorkAction, WorkEvent, WorkRun};

// Values.

fn uuid(value: u128) -> Uuid {
    Uuid::from_u128(value)
}

fn workspace() -> WorkspaceId {
    WorkspaceId::from_uuid(uuid(1))
}

fn digest(label: &str) -> Digest {
    Digest::of(label.as_bytes())
}

fn path(value: &str) -> ManagedPath {
    ManagedPath::new(
        value.to_string(),
        PortablePathKeyDigest::from_digest(digest(value)),
    )
}

fn endpoint() -> ProjectionEndpointBinding {
    ProjectionEndpointBinding {
        endpoint_id: ProjectionEndpointId::from_uuid(uuid(5)),
        device_id: DeviceId::from_uuid(uuid(3)),
        graph_resource_id: CanonicalGraphResourceId::from_digest(digest("graph")),
    }
}

fn failure(kind: IoFailureKind) -> IoFailure {
    IoFailure {
        kind,
        message: Reason::Reported("refused".to_string()),
        semantic_refusal: false,
    }
}

fn words() -> HostWords {
    HostWords {
        refusal: "outdated-store".to_string(),
        description: "5 bytes".to_string(),
    }
}

fn page_state(content: &str) -> ProjectionPageState {
    ProjectionPageState {
        page: MaterializedPage {
            page_id: PageId::from_uuid(uuid(6)),
            home_document_id: DocumentId::from_uuid(uuid(8)),
            name: "Page".to_string(),
            path: path("pages/a.md"),
            kind: ManagedTextKind::Page,
            preamble: None,
            blocks: vec![MaterializedBlock {
                block_id: BlockId::from_uuid(uuid(7)),
                home_document_id: DocumentId::from_uuid(uuid(8)),
                parent: None,
                order: "a".to_string(),
                logseq_uuid: None,
                logseq_identity_origin: None,
                content: content.as_bytes().to_vec(),
                parsed: ParsedContent {
                    properties: Vec::new(),
                    drawer: None,
                },
            }],
        },
        frontier: FrontierV2::default(),
        claim_evidence: Vec::new(),
    }
}

/// The bytes of an outline of single lines.
fn serialize(document: &Document) -> Vec<u8> {
    let mut out = Vec::new();
    for block in &document.blocks {
        out.extend_from_slice(b"- ");
        out.extend_from_slice(&block.raw);
        out.push(b'\n');
    }
    out
}

fn source(bytes: &[u8]) -> SourceBase {
    let text = std::str::from_utf8(bytes).unwrap();
    let mut blocks = Vec::new();
    let mut block_spans = Vec::new();
    let mut at = 0;
    for (index, line) in text.split_inclusive('\n').enumerate() {
        blocks.push(SourceBlock {
            locator: vec![index as u32],
            raw: line.trim_end().trim_start_matches("- ").as_bytes().to_vec(),
            properties: Vec::new(),
        });
        block_spans.push((at, at + line.len()));
        at += line.len();
    }
    let document = SourceDocument {
        pre_block: None,
        blocks,
    };
    SourceBase {
        bytes: bytes.to_vec(),
        document: document.clone(),
        strict: Ok(StrictSource {
            document,
            block_spans,
            round_trips: true,
        }),
    }
}

fn render(
    state: &ProjectionPageState,
    base: Option<&SourceBase>,
    annotations: Option<&[AnnotatedIdentity]>,
) -> PageRendering {
    let input = render_input(&state.page, base, annotations).unwrap();
    let serialized = serialize(&input.document);
    let prefix = unused_mark_prefix(&serialized).unwrap();
    let ends = vec![None; input.document.blocks.len()];
    let marked = mark_document_blocks(ProjectionFormat::Markdown, &input.document, &ends, &prefix);
    PageRendering {
        serialized,
        marked: serialize(&marked),
        properties: vec![Vec::new(); input.document.blocks.len()],
    }
}

fn plan(state: &ProjectionPageState, base: Option<&[u8]>) -> ProjectionPlan {
    let base = base.map(source);
    let rendering = render(state, base.as_ref(), None);
    plan_projection(workspace(), state, base.as_ref(), &rendering).unwrap()
}

fn intent_fields(content: &str) -> ManifestedProjectionIntentWire {
    let plan = plan(&page_state(content), None);
    ManifestedProjectionIntentWire {
        schema_version: 2,
        workspace_id: workspace(),
        source_batch_id: BatchId::from_uuid(uuid(2)),
        source_author_device_id: DeviceId::from_uuid(uuid(3)),
        source_author_session_id: SessionId::from_uuid(uuid(4)),
        source_endpoint_id: ProjectionEndpointId::from_uuid(uuid(5)),
        page_id: PageId::from_uuid(uuid(6)),
        path: path("pages/a.md"),
        portable_path_key_version: 1,
        portable_path_key_digest: path("pages/a.md").portable_key_digest(),
        portable_path_index_root: PortablePathIndexRoot::from_digest(digest("root")),
        precondition: ManifestProjectionPrecondition::Absent,
        render_base: None,
        target: ManifestProjectionTarget::Present {
            description: BlobDescription::of(plan.target()),
            bytes: plan.target().to_vec(),
            annotations: plan.intent().annotations().to_vec(),
        },
        post_frontier: FrontierV2::default(),
        claim_evidence: Vec::new(),
    }
}

fn intent_object(fields: ManifestedProjectionIntentWire) -> OperationObject {
    let payload = b"TINEPRI2body".to_vec();
    let document_id = projection_intent_document_id(
        fields.source_batch_id,
        fields.source_endpoint_id,
        fields.page_id,
        &fields.path,
    );
    OperationObject {
        document_id,
        descriptor: Ok(ObjectDescriptor {
            kind: ObjectKind::ProjectionIntent,
            document_id,
            content_digest: ContentDigest::from_digest(Digest::of(&payload)),
            encoded_byte_length: payload.len() as u64,
        }),
        payload,
        content: ObjectContent::ProjectionIntent(ParsedProjectionIntent {
            fields: Ok(fields),
            body: Ok(b"body".to_vec()),
        }),
    }
}

fn manifested(content: &str) -> ManifestedProjectionIntent {
    ManifestedProjectionIntent::decode(
        b"TINEPRI2body",
        ParsedProjectionIntent {
            fields: Ok(intent_fields(content)),
            body: Ok(b"body".to_vec()),
        },
    )
    .unwrap()
}

fn work(fields: &ManifestedProjectionIntentWire) -> ProjectionWork {
    ProjectionWork {
        workspace_id: fields.workspace_id,
        batch_id: fields.source_batch_id,
        endpoint_id: fields.source_endpoint_id,
        page_id: fields.page_id,
        path: fields.path.clone(),
        portable_path_index_root: fields.portable_path_index_root,
        post_frontier: FrontierV2::default(),
        intent: ManifestObjectRef::from_descriptor(
            intent_object(fields.clone()).descriptor.as_ref().unwrap(),
        ),
        target: match &fields.target {
            ManifestProjectionTarget::Absent => ProjectionWorkTarget::Absent,
            ManifestProjectionTarget::Present { description, .. } => {
                ProjectionWorkTarget::Present(*description)
            }
        },
    }
}

fn rendered(content: &str, base: Option<&[u8]>) -> (Option<SourceBase>, PageRendering) {
    let base = base.map(source);
    let rendering = render(&page_state(content), base.as_ref(), None);
    (base, rendering)
}

// Executing the work of a batch.

/// A run that has read its objects and asks for the file.
fn started(content: &str) -> WorkRun {
    let fields = intent_fields(content);
    let mut run = WorkRun::new(workspace(), work(&fields));
    assert_eq!(run.asks(), WorkAction::BindEndpoint);
    assert_eq!(
        run.advance(WorkEvent::Endpoint(Some(endpoint()))),
        WorkAction::ReadResource
    );
    assert_eq!(
        run.advance(WorkEvent::Resource(Ok(endpoint().graph_resource_id()))),
        WorkAction::AuthorizeWork
    );
    assert_eq!(
        run.advance(WorkEvent::Authorized(Ok(()))),
        WorkAction::ReadObjects
    );
    assert_eq!(
        run.advance(WorkEvent::Objects {
            intent: Ok(intent_object(fields)),
            base: Err("no base".to_string()),
        }),
        WorkAction::AskRevival
    );
    assert_eq!(run.advance(WorkEvent::Revival(Ok(false))), WorkAction::ReadInput);
    run
}

#[test]
fn work_writes_what_the_accepted_page_renders_to() {
    let mut run = started("a");
    assert_eq!(
        run.advance(WorkEvent::Input(Ok(Some(b"- a\n".to_vec())))),
        WorkAction::AuthorizeWrite
    );
    assert_eq!(
        run.advance(WorkEvent::Accepted(Ok(page_state("a")))),
        WorkAction::Render
    );
    let (base, rendering) = rendered("a", None);
    assert_eq!(
        run.advance(WorkEvent::Rendered { base, rendering }),
        WorkAction::AskCompleted
    );
    assert_eq!(
        run.advance(WorkEvent::Completed(Ok(false))),
        WorkAction::TakeAuthority
    );
    assert_eq!(
        run.advance(WorkEvent::Authority(Ok(()))),
        WorkAction::Operate(GraphOperation::Recover)
    );
    assert_eq!(
        run.advance(WorkEvent::Operated(Err(failure(IoFailureKind::NotFound)))),
        WorkAction::TakeAuthority
    );
    assert_eq!(
        run.advance(WorkEvent::Authority(Ok(()))),
        WorkAction::LetHarnessFail
    );
    assert_eq!(run.advance(WorkEvent::Harness(Ok(()))), WorkAction::ReadInput);
    assert_eq!(
        run.advance(WorkEvent::Input(Ok(None))),
        WorkAction::Operate(GraphOperation::Write)
    );
    assert_eq!(run.advance(WorkEvent::Operated(Ok(()))), WorkAction::Cleanup);
    assert_eq!(
        run.advance(WorkEvent::Cleaned(Ok(()))),
        WorkAction::StageCompletion
    );
    assert_eq!(
        run.advance(WorkEvent::Staged(Ok(()))),
        WorkAction::Finish(Ok(ProjectionExecution::BarrierTaken))
    );
}

#[test]
fn a_missing_file_that_was_completed_is_not_recreated() {
    let mut run = started("a");
    assert_eq!(run.advance(WorkEvent::Input(Ok(None))), WorkAction::AskCompleted);
    assert_eq!(
        run.advance(WorkEvent::Completed(Ok(true))),
        WorkAction::NoteDeferredAbsence
    );
    assert_eq!(
        run.advance(WorkEvent::Noted),
        WorkAction::Finish(Ok(ProjectionExecution::DeferredAbsence))
    );
}

#[test]
fn work_of_another_page_state_is_not_ready() {
    let mut run = started("a");
    run.advance(WorkEvent::Input(Ok(Some(b"- a\n".to_vec()))));
    run.advance(WorkEvent::Accepted(Ok(page_state("b"))));
    let (base, rendering) = rendered("b", None);
    assert_eq!(
        run.advance(WorkEvent::Rendered { base, rendering }),
        WorkAction::Finish(Err(ProjectionError::WorkNotReady))
    );
}

#[test]
fn work_is_bound_to_its_endpoint_and_its_intent() {
    let fields = intent_fields("a");
    let mut run = WorkRun::new(workspace(), work(&fields));
    assert_eq!(
        run.advance(WorkEvent::Endpoint(None)),
        WorkAction::Finish(Err(ProjectionError::EndpointBindingMismatch))
    );
    let mut other = work(&fields);
    other.page_id = PageId::from_uuid(uuid(66));
    assert_eq!(
        decode_manifested_projection_work(
            &other,
            Ok(intent_object(fields.clone())),
            Err("no base".to_string())
        )
        .map(|_| ()),
        Err(ProjectionError::WorkIntentMismatch)
    );
    assert!(matches!(
        decode_manifested_projection_work(
            &work(&fields),
            Err("unreadable".to_string()),
            Err("no base".to_string())
        ),
        Err(ProjectionError::Archive(_))
    ));
    let decoded = decode_manifested_projection_work(
        &work(&fields),
        Ok(intent_object(fields)),
        Err("no base".to_string()),
    )
    .unwrap();
    assert_eq!(decoded.target_bytes(), Some(b"- a\n".as_slice()));
    assert_eq!(
        decoded.receiver_local_intent().precondition(),
        ProjectionPrecondition::Absent
    );
}

// Receiving a projection of another endpoint.

#[test]
fn a_receiver_never_copies_foreign_bytes() {
    let receiver = ProjectionEndpointId::from_uuid(uuid(50));
    let local = source(b"- local\n");
    let state = page_state("local");
    let rendering = render(&state, Some(&local), None);
    let plan = derive_receiver_local_projection(
        workspace(),
        &manifested("foreign"),
        receiver,
        Ok(state.clone()),
        Some(&local),
        &rendering,
    )
    .unwrap();
    assert_eq!(plan.target(), b"- local\n");
    assert_eq!(
        derive_receiver_local_projection(
            workspace(),
            &manifested("foreign"),
            ProjectionEndpointId::from_uuid(uuid(5)),
            Ok(state),
            Some(&local),
            &rendering,
        ),
        Err(ProjectionError::ReceiverEndpointIsSource)
    );
}

#[test]
fn a_receiver_refuses_its_own_intents() {
    let mut run = ReceiverRun::new(workspace(), manifested("a"), true, true);
    assert_eq!(run.asks(), ReceiverAction::RequireEndpoint);
    run.advance(ReceiverEvent::Endpoint(Ok(endpoint())));
    let mut action = run.asks();
    for _ in 0..12 {
        action = match action {
            ReceiverAction::RetirePending => run.advance(ReceiverEvent::Retired(Ok(()))),
            ReceiverAction::AuthorizeWrite | ReceiverAction::AuthorizeRecovery => {
                run.advance(ReceiverEvent::State(Ok(page_state("a"))))
            }
            ReceiverAction::ReadInput => {
                run.advance(ReceiverEvent::Input(Ok(Some(b"- a\n".to_vec()))))
            }
            ReceiverAction::ReadLayoutBase => {
                run.advance(ReceiverEvent::LayoutBase(ArchiveRead::NoArchive))
            }
            ReceiverAction::Render => {
                let (base, rendering) = rendered("a", Some(b"- a\n"));
                run.advance(ReceiverEvent::Rendered { base, rendering })
            }
            other => {
                action = other;
                break;
            }
        };
    }
    assert_eq!(
        action,
        ReceiverAction::Finish(Err(ProjectionError::ReceiverEndpointIsSource))
    );
}

#[test]
fn receiver_recovery_terminal_remap_reads_disk_shape_not_error_kind() {
    let collapsed = || IoFailure {
        kind: IoFailureKind::AlreadyExists,
        message: Reason::Reported("collapsed guarded conflict".to_string()),
        semantic_refusal: false,
    };
    assert_eq!(
        receiver_recovery_terminal_disposition(Ok(None), collapsed()),
        Ok(ProjectionExecution::DeferredAbsence)
    );
    assert_eq!(
        receiver_recovery_terminal_disposition(
            Ok(Some(b"external winner\n".to_vec())),
            collapsed()
        ),
        Err(ProjectionError::Io(collapsed()))
    );
}

// Recovering what was left unfinished.

fn recovering(under_handoff: bool) -> RecoveryRun {
    let intent = plan(&page_state("a"), Some(b"- old\n")).intent().clone();
    let mut run = RecoveryRun::new(workspace(), intent, under_handoff);
    assert_eq!(run.asks(), RecoveryAction::AuthorizeRecovery);
    assert_eq!(
        run.advance(RecoveryEvent::State(Ok(page_state("a")))),
        RecoveryAction::LoadBase
    );
    let base = BaseBlob::new(b"- old\n".to_vec());
    assert_eq!(
        run.advance(RecoveryEvent::Base(Ok(Some(base)))),
        RecoveryAction::Render
    );
    run
}

fn assert_recovers(under_handoff: bool) {
    let mut run = recovering(under_handoff);
    let (base, rendering) = rendered("a", Some(b"- old\n"));
    assert_eq!(
        run.advance(RecoveryEvent::Rendered { base, rendering }),
        RecoveryAction::LoadAttempts
    );
    assert_eq!(
        run.advance(RecoveryEvent::Stored(Ok(()))),
        RecoveryAction::BeginMutation
    );
    assert_eq!(
        run.advance(RecoveryEvent::Stored(Ok(()))),
        RecoveryAction::Recover
    );
    assert_eq!(
        run.advance(RecoveryEvent::Operated(Ok(()))),
        RecoveryAction::ReconstructCompletion
    );
    if under_handoff {
        assert_eq!(
            run.advance(RecoveryEvent::Stored(Ok(()))),
            RecoveryAction::NoteCompletion
        );
        assert_eq!(
            run.advance(RecoveryEvent::Noted(Ok(()))),
            RecoveryAction::RetireCompleted
        );
    } else {
        assert_eq!(
            run.advance(RecoveryEvent::Stored(Ok(()))),
            RecoveryAction::RetireCompleted
        );
    }
    assert_eq!(
        run.advance(RecoveryEvent::Retired(Ok(()))),
        RecoveryAction::AuthorizeWrite
    );
    assert_eq!(
        run.advance(RecoveryEvent::State(Ok(page_state("a")))),
        RecoveryAction::Finish(Ok(ProjectionExecution::BarrierTaken))
    );
}

#[test]
fn recovery_replays_exactly_the_intent() {
    assert_recovers(false);
    assert_recovers(true);
}

#[test]
fn an_absent_file_is_put_off_only_under_a_handoff() {
    for under_handoff in [false, true] {
        let mut run = recovering(under_handoff);
        let (base, rendering) = rendered("a", Some(b"- old\n"));
        run.advance(RecoveryEvent::Rendered { base, rendering });
        run.advance(RecoveryEvent::Stored(Ok(())));
        run.advance(RecoveryEvent::Stored(Ok(())));
        run.advance(RecoveryEvent::Operated(Err(failure(IoFailureKind::NotFound))));
        for _ in 0..3 {
            run.advance(RecoveryEvent::Stored(Ok(())));
        }
        let refused = failure(IoFailureKind::AlreadyExists);
        let mut action = run.advance(RecoveryEvent::Operated(Err(refused.clone())));
        if under_handoff {
            assert_eq!(action, RecoveryAction::ReadInput);
            assert_eq!(
                run.advance(RecoveryEvent::Input(Ok(None))),
                RecoveryAction::NoteDeferredAbsence
            );
            action = run.advance(RecoveryEvent::Noted(Ok(())));
            assert_eq!(
                action,
                RecoveryAction::Finish(Ok(ProjectionExecution::DeferredAbsence))
            );
        } else {
            assert_eq!(
                action,
                RecoveryAction::Finish(Err(ProjectionError::Io(refused)))
            );
        }
    }
}

#[test]
fn recovery_of_another_page_state_is_refused() {
    let intent = plan(&page_state("b"), Some(b"- old\n")).intent().clone();
    let mut run = RecoveryRun::new(workspace(), intent, false);
    run.advance(RecoveryEvent::State(Ok(page_state("a"))));
    run.advance(RecoveryEvent::Base(Ok(Some(BaseBlob::new(b"- old\n".to_vec())))));
    let (base, rendering) = rendered("a", Some(b"- old\n"));
    assert_eq!(
        run.advance(RecoveryEvent::Rendered { base, rendering }),
        RecoveryAction::Finish(Err(ProjectionError::RecoveryIntentMismatch))
    );
}

#[test]
fn a_pass_recovers_every_listed_intent() {
    let write = |content: &str| {
        let plan = plan(&page_state(content), None);
        let completion = ProjectionCompletion::for_intent(
            plan.intent(),
            ProjectionIntentId::from_digest(digest(content)),
            plan.target(),
        )
        .unwrap();
        ProjectionWrite { plan, completion }
    };
    let mut pass = RecoveryPass::new();
    assert_eq!(pass.asks(), PassAction::RequireEndpoint);
    assert_eq!(
        pass.advance(PassEvent::Endpoint(Ok(endpoint()))),
        PassAction::RetirePending
    );
    assert_eq!(
        pass.advance(PassEvent::Retired(Ok(()))),
        PassAction::ListIncomplete
    );
    let intents = ["a", "b"]
        .map(|content| write(content).plan.intent().clone())
        .to_vec();
    assert_eq!(
        pass.advance(PassEvent::Listed(Ok(intents))),
        PassAction::Recover(0)
    );
    assert_eq!(
        pass.advance(PassEvent::Recovered(Ok(write("a")))),
        PassAction::Recover(1)
    );
    assert_eq!(
        pass.advance(PassEvent::Recovered(Ok(write("b")))),
        PassAction::Finish(Ok(vec![write("a"), write("b")]))
    );
}

#[test]
fn after_a_pass_nothing_is_incomplete() {
    let encode = |intent: &ProjectionIntent| format!("{intent:?}").into_bytes();
    let id_of = |intent: &ProjectionIntent| {
        ProjectionIntentId::from_digest(Digest::of(&encode(intent)))
    };
    let plans = ["a", "b"].map(|content| plan(&page_state(content), None));
    let entries = || {
        plans
            .iter()
            .map(|plan| IntentEntry {
                name: Some(intent_filename(id_of(plan.intent()))),
                kind: EntryKind::File,
                stored: Ok(Some(StoredIntent {
                    bytes: encode(plan.intent()),
                    decoded: Ok(plan.intent().clone()),
                    encoded: Ok(encode(plan.intent())),
                    intent_id: Ok(id_of(plan.intent())),
                })),
                base: Ok(None),
            })
            .collect::<Vec<_>>()
    };
    let listed = receipt_store().incomplete_intents(entries(), Vec::new()).unwrap();
    assert_eq!(listed.len(), 2);
    let mut pass = RecoveryPass::new();
    pass.advance(PassEvent::Endpoint(Ok(endpoint())));
    pass.advance(PassEvent::Retired(Ok(())));
    let mut action = pass.advance(PassEvent::Listed(Ok(listed.clone())));
    let writes = loop {
        action = match action {
            PassAction::Recover(at) => {
                let intent = &listed[at];
                let content = ["a", "b"]
                    .into_iter()
                    .find(|content| plan(&page_state(content), None).intent() == intent)
                    .unwrap();
                let plan = plan(&page_state(content), None);
                let completion =
                    ProjectionCompletion::for_intent(intent, id_of(intent), plan.target())
                        .unwrap();
                pass.advance(PassEvent::Recovered(Ok(ProjectionWrite { plan, completion })))
            }
            PassAction::Finish(finished) => break finished.unwrap(),
            other => panic!("the pass asked for something else: {other:?}"),
        };
    };
    assert_eq!(writes.len(), 2);
    let mut added = Vec::new();
    for (write, intent) in writes.iter().zip(&listed) {
        assert_eq!(write.plan.intent(), intent);
        assert_eq!(write.completion.intent_id, id_of(intent));
        let bytes = format!("{:?}", write.completion).into_bytes();
        added.push(CompletionEntry {
            name: Some(completion_filename(write.completion.intent_id)),
            kind: EntryKind::File,
            stored: Ok(Some(StoredCompletion {
                bytes: bytes.clone(),
                decoded: Ok(write.completion),
                encoded: Ok(bytes),
            })),
            reconciled: Ok(()),
        });
    }
    assert_eq!(receipt_store().incomplete_intents(entries(), added), Ok(Vec::new()));
}

#[test]
fn a_pass_refuses_the_write_of_another_intent() {
    let plan_of = |content: &str| plan(&page_state(content), None);
    let mut pass = RecoveryPass::new();
    pass.advance(PassEvent::Endpoint(Ok(endpoint())));
    pass.advance(PassEvent::Retired(Ok(())));
    let listed = vec![plan_of("a").intent().clone()];
    assert_eq!(
        pass.advance(PassEvent::Listed(Ok(listed))),
        PassAction::Recover(0)
    );
    let other = plan_of("b");
    let completion = ProjectionCompletion::for_intent(
        other.intent(),
        ProjectionIntentId::from_digest(digest("b")),
        other.target(),
    )
    .unwrap();
    let write = ProjectionWrite {
        plan: other,
        completion,
    };
    assert_eq!(
        pass.advance(PassEvent::Recovered(Ok(write))),
        PassAction::Finish(Err(ProjectionError::RecoveryIntentMismatch))
    );
}

// Turns.

fn turn(pages: Vec<TurnPage>) -> ProjectionTurn {
    ProjectionTurn {
        workspace_id: workspace(),
        device_id: uuid(3),
        endpoint_id: ProjectionEndpointId::from_uuid(uuid(5)),
        domain: SequenceDomain::ProjectionTurn,
        origin: TurnOrigin::Accepted {
            batch_id: BatchId::from_uuid(uuid(2)),
        },
        attempt_ids: pages.iter().enumerate().map(|(at, _)| uuid(at as u128 + 90)).collect(),
        pages,
    }
}

fn ready() -> TurnEvent {
    TurnEvent::Batch(BatchRead::Ready {
        manifest: OperationBatch {
            workspace_id: workspace(),
            batch_id: BatchId::from_uuid(uuid(2)),
            author_device_id: DeviceId::from_uuid(uuid(3)),
            author_session_id: SessionId::from_uuid(uuid(4)),
            required_objects: Vec::new(),
        },
        objects: Vec::new(),
    })
}

fn turn_page() -> TurnPage {
    let plan = plan(&page_state("a"), None);
    TurnPage {
        page_id: PageId::from_uuid(uuid(6)),
        path: path("pages/a.md"),
        precondition: TurnPrecondition::Absent,
        target: TurnTarget::Present {
            description: BlobDescription::of(plan.target()),
            bytes: Some(plan.target().to_vec()),
            annotations: plan.intent().annotations().to_vec(),
        },
        frontier: FrontierV2::default(),
        claim_evidence: Vec::new(),
    }
}

#[test]
fn the_pages_of_a_turn_describe_bytes_and_hold_none() {
    let mut expected = turn_page();
    if let TurnTarget::Present { bytes, .. } = &mut expected.target {
        *bytes = None;
    }
    let fields = intent_fields("a");
    let archived = |work: ProjectionWork| {
        projection_turn_pages_for_work(Some(vec![ArchivedWork {
            work,
            intent_object: Ok(intent_object(fields.clone())),
            base_object: Err("no base".to_string()),
        }]))
    };
    assert_eq!(archived(work(&fields)), Ok(vec![expected.clone()]));
    let mut other = work(&fields);
    other.page_id = PageId::from_uuid(uuid(66));
    assert_eq!(archived(other), Err(ProjectionError::WorkIntentMismatch));
    assert_eq!(
        projection_turn_pages_for_work(None),
        Err(ProjectionError::Archive(Reason::Own(
            "projection turn has no accepted archive"
        )))
    );
    assert_eq!(
        projection_turn_pages_for_foreign_sources(vec![ForeignSource {
            source: manifested("a"),
            base: ArchiveRead::NoArchive,
        }]),
        Ok(vec![expected])
    );
}

#[test]
fn an_empty_turn_only_takes_its_barrier() {
    let mut run = TurnRun::new(workspace(), turn(Vec::new()), true);
    let mut action = run.asks();
    let mut opened = 0;
    let mut closed = 0;
    for _ in 0..10 {
        action = match action {
            TurnAction::BindEndpoint => run.advance(TurnEvent::Endpoint(Some(endpoint()))),
            TurnAction::ReadBatch => run.advance(ready()),
            TurnAction::OpenBarrier => {
                opened += 1;
                run.advance(TurnEvent::Barrier(Ok(())))
            }
            TurnAction::ListWork => run.advance(TurnEvent::Work(Ok(Vec::new()))),
            TurnAction::CloseBarrier => {
                closed += 1;
                run.advance(TurnEvent::Barrier(Ok(())))
            }
            other => {
                action = other;
                break;
            }
        };
    }
    assert_eq!(action, TurnAction::Finish(Ok(())));
    assert_eq!(opened, closed);
}

#[test]
fn a_turn_executes_its_own_work_inside_the_barrier() {
    let mut run = TurnRun::new(workspace(), turn(vec![turn_page()]), true);
    let fields = intent_fields("a");
    let mut trace = Vec::new();
    let mut action = run.asks();
    for _ in 0..24 {
        trace.push(format!("{action:?}").split('(').next().unwrap().to_string());
        action = match action {
            TurnAction::BindEndpoint => run.advance(TurnEvent::Endpoint(Some(endpoint()))),
            TurnAction::ReadBatch => run.advance(ready()),
            TurnAction::OpenBarrier | TurnAction::CloseBarrier => {
                run.advance(TurnEvent::Barrier(Ok(())))
            }
            TurnAction::ListWork => run.advance(TurnEvent::Work(Ok(vec![work(&fields)]))),
            TurnAction::EnterAttempt(attempt) => {
                assert_eq!(attempt, uuid(90));
                run.advance(TurnEvent::Entered)
            }
            TurnAction::ReadInput => run.advance(TurnEvent::Input(Ok(Some(b"- a\n".to_vec())))),
            TurnAction::ProbeExact => run.advance(TurnEvent::Probed(Ok(false))),
            TurnAction::ExecuteWork => {
                run.advance(TurnEvent::Executed(Ok(ProjectionExecution::BarrierTaken)))
            }
            TurnAction::ReadWorkObjects => run.advance(TurnEvent::Objects(Some(WorkObjects {
                intent: Ok(intent_object(fields.clone())),
                base: Err("no base".to_string()),
            }))),
            TurnAction::Rebarrier => run.advance(TurnEvent::Rebarriered(Ok(()))),
            TurnAction::BindBaseline(description) => {
                assert_eq!(description, BlobDescription::of(b"- a\n"));
                run.advance(TurnEvent::Bound(Ok(())))
            }
            other => {
                action = other;
                break;
            }
        };
    }
    assert_eq!(action, TurnAction::Finish(Ok(())), "{trace:?}");
    let at = |name: &str| trace.iter().position(|step| step == name);
    assert!(at("OpenBarrier") < at("ExecuteWork"));
    assert!(at("ExecuteWork") < at("CloseBarrier"));
    assert!(at("OpenBarrier").is_some());
}

#[test]
fn a_turn_names_the_intents_it_completes() {
    let intents = local_completion_intents_for_turn(&turn(vec![turn_page()])).unwrap();
    assert_eq!(intents.len(), 1);
    assert_eq!(intents[0].target(), BlobDescription::of(b"- a\n"));
    assert_eq!(turn(vec![turn_page()]).attempt_id(0), Some(uuid(90)));
}

// Probing, rewriting and retiring.

#[test]
fn a_probe_binds_the_file_as_it_stands() {
    let mut probe = ExactProbe::new(workspace(), work(&intent_fields("a")));
    assert_eq!(probe.asks(), ProbeAction::ReadInput);
    let description = BlobDescription::of(b"- a\n");
    assert_eq!(
        probe.advance(ProbeEvent::Input(Ok(Some(b"- a\n".to_vec())))),
        ProbeAction::AskBaseline(description)
    );
    assert_eq!(
        probe.advance(ProbeEvent::Baseline(Ok(false))),
        ProbeAction::AuthorizeWrite
    );
    assert_eq!(
        probe.advance(ProbeEvent::Accepted(Ok(page_state("a")))),
        ProbeAction::Render
    );
    let (base, rendering) = rendered("a", Some(b"- a\n"));
    assert_eq!(
        probe.advance(ProbeEvent::Rendered { base, rendering }),
        ProbeAction::BindBaseline(description)
    );
    assert_eq!(
        probe.advance(ProbeEvent::Bound(Ok(()))),
        ProbeAction::Finish(Ok(true))
    );

    let mut edited = ExactProbe::new(workspace(), work(&intent_fields("a")));
    edited.advance(ProbeEvent::Input(Ok(Some(b"- edited\n".to_vec()))));
    edited.advance(ProbeEvent::Baseline(Ok(false)));
    edited.advance(ProbeEvent::Accepted(Ok(page_state("a"))));
    let (base, rendering) = rendered("a", Some(b"- edited\n"));
    assert_eq!(
        edited.advance(ProbeEvent::Rendered { base, rendering }),
        ProbeAction::Finish(Ok(false))
    );
}

#[test]
fn a_rewrite_starts_from_the_bytes_it_was_given() {
    let mut run = RewriteRun::new(workspace(), Some(b"- old\n".to_vec()));
    assert_eq!(run.asks(), RewriteAction::BindEndpoint);
    run.advance(RewriteEvent::Endpoint(Some(endpoint())));
    run.advance(RewriteEvent::Resource(Ok(endpoint().graph_resource_id())));
    assert_eq!(
        run.advance(RewriteEvent::Accepted(Ok(page_state("a")))),
        RewriteAction::Render
    );
    let (other, rendering) = rendered("a", Some(b"- other\n"));
    assert_eq!(
        run.advance(RewriteEvent::Rendered {
            base: other,
            rendering
        }),
        RewriteAction::Render
    );
    let (base, rendering) = rendered("a", Some(b"- old\n"));
    assert_eq!(
        run.advance(RewriteEvent::Rendered { base, rendering }),
        RewriteAction::TakeAuthority
    );
    assert_eq!(run.advance(RewriteEvent::Authority(Ok(()))), RewriteAction::Write);
    assert_eq!(run.advance(RewriteEvent::Written(Ok(()))), RewriteAction::Cleanup);
    assert_eq!(
        run.advance(RewriteEvent::Cleaned(Ok(()))),
        RewriteAction::StageCompletion
    );
    assert_eq!(
        run.advance(RewriteEvent::Staged(Ok(()))),
        RewriteAction::Finish(Ok(()))
    );
}

#[test]
fn only_completed_and_wanted_files_are_retired() {
    let id = |label: &str| ProjectionIntentId::from_digest(digest(label));
    let (mut pass, first) = RetirePass::start(Some(id("b")), vec![id("a"), id("b"), id("c")]);
    assert_eq!(first, RetireAction::LoadCompletion(1));
    assert_eq!(
        pass.advance(RetireEvent::Completion(Ok(true))),
        RetireAction::RetireFile(1)
    );
    assert_eq!(
        pass.advance(RetireEvent::File(Ok(()))),
        RetireAction::RetireRecord(1)
    );
    assert_eq!(
        pass.advance(RetireEvent::Record(Ok(()))),
        RetireAction::Finish(Ok(()))
    );
    let (mut all, first) = RetirePass::start(None, vec![id("a"), id("b")]);
    assert_eq!(first, RetireAction::LoadCompletion(0));
    assert_eq!(
        all.advance(RetireEvent::Completion(Ok(false))),
        RetireAction::LoadCompletion(1)
    );
}

#[test]
fn manifested_projection_fault_scope_cleans_up_after_consumption() {
    let mut faults = ManifestedProjectionFaults::none();
    assert!(faults.fail_during_manifested_projection_for_harness().is_ok());
    let previously = faults.fail_next_manifested_projection_during_write_for_harness();
    faults.restore(previously);
    assert!(faults.fail_during_manifested_projection_for_harness().is_ok());
    let previously = faults.fail_next_manifested_projection_during_write_for_harness();
    assert!(faults.fail_during_manifested_projection_for_harness().is_err());
    faults.restore(previously);
    assert!(faults.fail_during_manifested_projection_for_harness().is_ok());
    faults.fail_manifested_projection_repeatedly_for_harness(2);
    assert!(faults.fail_during_manifested_projection_for_harness().is_err());
    assert!(faults.fail_during_manifested_projection_for_harness().is_err());
    assert!(faults.fail_during_manifested_projection_for_harness().is_ok());
}

// Endpoints, tombstones and located failures.

#[test]
fn an_endpoint_is_bound_to_its_store_and_its_graph() {
    let store = ProjectionReceiptStoreId::from_digest(digest("store"));
    let other = ProjectionReceiptStoreId::from_digest(digest("other"));
    let graph = endpoint().graph_resource_id();
    assert_eq!(
        require_endpoint_authority(Some(endpoint()), Some(store), store, Ok(()), Ok(graph)),
        Ok(endpoint())
    );
    for refused in [
        require_endpoint_authority(None, Some(store), store, Ok(()), Ok(graph)),
        require_endpoint_authority(Some(endpoint()), Some(other), store, Ok(()), Ok(graph)),
        require_endpoint_authority(
            Some(endpoint()),
            Some(store),
            store,
            Ok(()),
            Ok(CanonicalGraphResourceId::from_digest(digest("elsewhere"))),
        ),
    ] {
        assert_eq!(refused, Err(ProjectionError::EndpointBindingMismatch));
    }
}

#[test]
fn a_tombstone_is_recorded_for_exactly_its_page() {
    let authorization = ProjectionTombstoneAuthorization {
        page_id: PageId::from_uuid(uuid(6)),
        path: path("pages/a.md"),
        frontier: FrontierV2::default(),
    };
    let plan =
        receiver_clean_tombstone_plan(workspace(), &authorization, Some(b"- old\n")).unwrap();
    assert_eq!(plan.intent().target_kind(), ProjectionTargetKind::Absent);
    assert_eq!(plan.target(), b"");
    assert_eq!(
        plan.base().map(|base| base.bytes().to_vec()),
        Some(b"- old\n".to_vec())
    );
    assert!(record_completed_tombstone_path(plan.intent(), &authorization).is_ok());
    let mut moved = authorization;
    moved.path = path("pages/b.md");
    assert!(record_completed_tombstone_path(plan.intent(), &moved).is_err());
}

#[test]
fn a_failure_is_located_by_its_quoted_path() {
    let located = locate_projection_failure(
        "pages/\"a\".md",
        ProjectionError::Io(failure(IoFailureKind::Other)),
    );
    match located {
        ProjectionError::Io(IoFailure {
            message: Reason::Reported(text),
            ..
        }) => {
            assert!(text.contains("\"pages/\\\"a\\\".md\""), "{text}");
            assert!(text.contains("refused"), "{text}");
        }
        other => panic!("the failure was not located: {other:?}"),
    }
    assert!(is_recovery_open(&failure(IoFailureKind::NotFound)));
    assert!(!is_recovery_open(&failure(IoFailureKind::Other)));
    assert_eq!(
        ProjectionError::Engine(EngineError::Other("lost".to_string())).message(&words()),
        "lost"
    );
    let described = BlobDescription::of(b"bytes");
    let missing =
        ProjectionError::Store(Box::new(ProjectionStoreError::MissingBase(described)));
    assert_eq!(missing.described(), Some(described));
    assert_eq!(missing.message(&words()), "missing immutable projection base 5 bytes");
}

// The queue of displaced files.

fn round_state(active_round: u8) -> PendingCleanupRoundState {
    PendingCleanupRoundState {
        active_round,
        ..PendingCleanupRoundState::initial(
            ProjectionReceiptStoreId::from_digest(digest("store")),
            digest("pending"),
            rounds(),
        )
    }
}

fn rounds() -> RoundIdentities {
    RoundIdentities {
        first: digest("round-0"),
        second: digest("round-1"),
    }
}

fn stored_state(state: PendingCleanupRoundState) -> StoredRoundState {
    let bytes = format!("{state:?}").into_bytes();
    StoredRoundState {
        bytes: bytes.clone(),
        decoded: Ok(state),
        encoded: Ok(bytes),
    }
}

fn open_rounds(
    stored: Option<StoredRoundState>,
    rounds: RoundIdentities,
) -> Result<PendingCleanupRoundState, ProjectionStoreError> {
    open_pending_cleanup_rounds(
        Ok(()),
        Ok(stored),
        Ok(rounds),
        ProjectionReceiptStoreId::from_digest(digest("store")),
        digest("pending"),
    )
}

#[test]
fn pending_cleanup_round_state_and_identity_fail_closed() {
    let state = open_rounds(Some(stored_state(round_state(0))), rounds()).unwrap();
    assert_eq!(state.active_round, 0);
    assert!(matches!(
        open_rounds(None, rounds()),
        Err(ProjectionStoreError::NamespaceSubstitution(_))
    ));
    let substituted = RoundIdentities {
        first: digest("replaced"),
        ..rounds()
    };
    assert!(matches!(
        open_rounds(Some(stored_state(round_state(0))), substituted),
        Err(ProjectionStoreError::NamespaceSubstitution(_))
    ));
    assert!(open_rounds(Some(stored_state(round_state(2))), rounds()).is_err());

    let entry = |name: &str, kind: EntryKind| NamedEntry {
        name: Some(name.to_string()),
        kind,
    };
    let temporary = format!(".tmp-{}", uuid(9).hyphenated());
    let root = validate_pending_cleanup_round_root(
        vec![
            entry("round-state", EntryKind::File),
            entry("round-0", EntryKind::Directory),
            entry(&temporary, EntryKind::File),
            entry("round-1", EntryKind::Directory),
        ],
        true,
    );
    assert_eq!(root.temporary, vec![temporary]);
    assert_eq!(root.verdict, Ok(()));
    let unknown = validate_pending_cleanup_round_root(vec![entry("other", EntryKind::File)], false);
    assert!(unknown.verdict.is_err());
}

#[test]
fn flipping_the_round_twice_changes_nothing() {
    let state = round_state(0);
    assert_eq!(state.flipped().active_round, 1);
    assert_eq!(state.flipped().flipped(), state);
    assert_eq!(Round::First.other(), Round::Second);
    assert_eq!(Round::from_number(2), None);
    let current = stored_state(state).bytes;
    let replacement = stored_state(state.flipped()).bytes;
    assert_eq!(
        flip_pending_cleanup_round(
            &state,
            &current,
            Ok(replacement.clone()),
            Ok(Some(current.clone()))
        ),
        Ok(replacement.clone())
    );
    assert_eq!(
        flip_pending_cleanup_round(&state, &current, Ok(replacement), Ok(Some(Vec::new()))),
        Err(ProjectionStoreError::MutationAuthorityMismatch)
    );
}

fn marked() -> (ProjectionIntent, ProjectionAttemptReservation, LocalProjectionEvidenceRecord) {
    let intent = plan(&page_state("a"), Some(b"- base\n")).intent().clone();
    let id = ProjectionIntentId::from_digest(digest("intent"));
    let reservation = ProjectionAttemptReservation::new(&intent, id, uuid(5));
    let evidence = ProjectionRecoveryEvidence {
        path: intent.path().sibling(reservation.recovery_filename()),
        filename: reservation.recovery_filename().to_string(),
        digest: Digest::of(b"- base\n"),
        len: 7,
        resource_id: Some(ContentDigest::from_digest(digest("inode"))),
    };
    let record = publish_recovery_evidence(id, &reservation, &evidence).unwrap();
    (intent, reservation, record)
}

fn parsed_marker(record: &LocalProjectionEvidenceRecord) -> ParsedMarker {
    ParsedMarker {
        decoded: Ok(PendingProjectionCleanupMarker::new(record.clone())),
        evidence_bytes: Ok(b"record".to_vec()),
        encoded: Ok(b"marker".to_vec()),
    }
}

#[test]
fn a_published_marker_is_found_again_and_retired_once() {
    assert_eq!(
        publish_pending_cleanup_marker(Round::First, &None, &None, b"marker"),
        Ok(MarkerPublication::Write(Round::Second))
    );
    let there = Some(b"marker".to_vec());
    assert_eq!(
        publish_pending_cleanup_marker(Round::First, &None, &there, b"marker"),
        Ok(MarkerPublication::Exists)
    );
    assert_eq!(
        publish_pending_cleanup_marker(Round::First, &there, &there, b"marker"),
        Err(ProjectionStoreError::ForensicBindingMismatch)
    );
    let found = read_pending_cleanup_marker(None, there.clone()).unwrap();
    assert_eq!(found.round, Round::Second);
    let (_, _, record) = marked();
    assert_eq!(
        retire_pending_projection_cleanup(&record, None, there.clone(), parsed_marker(&record)),
        Ok(found)
    );
    let mut other = record.clone();
    other.attempt_id = uuid(6);
    assert_eq!(
        retire_pending_projection_cleanup(&other, None, there, parsed_marker(&record)),
        Err(ProjectionStoreError::ForensicBindingMismatch)
    );
}

fn receipt_store() -> ProjectionReceiptStore {
    ProjectionReceiptStore {
        root_path: "/receipts".to_string(),
        store_id: ProjectionReceiptStoreId::from_digest(digest("store")),
        workspace_id: workspace(),
        endpoint: None,
        namespace_identities: NamespaceIdentities {
            bases: digest("bases"),
            intents: digest("intents"),
            completions: digest("completions"),
            attempts: digest("attempts"),
            forensics: digest("forensics"),
        },
        pending_cleanup_identity: digest("pending"),
        retired_own_endpoint_intents: Vec::new(),
    }
}

fn queue_entry(name: String) -> ListedEntry {
    Ok(NamedEntry {
        name: Some(name),
        kind: EntryKind::File,
    })
}

fn pass(max_entries: usize) -> CleanupPass {
    receipt_store().pending_projection_cleanup_bounded(max_entries)
}

#[test]
fn an_empty_pending_cleanup_queue_elides_the_durable_round_flip() {
    let mut empty = pass(MAX_PENDING_PROJECTION_CLEANUP_PER_PASS);
    assert_eq!(empty.asks(), CleanupAction::OpenRounds);
    assert_eq!(
        empty.advance(CleanupEvent::Opened(Ok(Round::First))),
        CleanupAction::ListRound(Round::First)
    );
    assert_eq!(
        empty.advance(CleanupEvent::Listed(Ok(Vec::new()))),
        CleanupAction::ListRound(Round::Second)
    );
    assert_eq!(
        empty.advance(CleanupEvent::Listed(Ok(Vec::new()))),
        CleanupAction::Finish(Ok(Vec::new()))
    );

    let (intent, reservation, record) = marked();
    let name = record.pending_cleanup_filename();
    let mut run = pass(MAX_PENDING_PROJECTION_CLEANUP_PER_PASS);
    run.advance(CleanupEvent::Opened(Ok(Round::First)));
    run.advance(CleanupEvent::Listed(Ok(Vec::new())));
    assert_eq!(
        run.advance(CleanupEvent::Listed(Ok(vec![queue_entry(name.clone())]))),
        CleanupAction::Flip
    );
    assert_eq!(
        run.advance(CleanupEvent::Flipped(Ok(()))),
        CleanupAction::OpenRounds
    );
    assert_eq!(
        run.advance(CleanupEvent::Opened(Ok(Round::Second))),
        CleanupAction::ListRound(Round::Second)
    );
    assert_eq!(
        run.advance(CleanupEvent::Listed(Ok(vec![queue_entry(name.clone())]))),
        CleanupAction::ReadMarker {
            round: Round::Second,
            name: name.clone(),
        }
    );
    let facts = MarkerFacts {
        read: Ok(Some(ReadMarker {
            bytes: b"marker".to_vec(),
            parsed: parsed_marker(&record),
        })),
        intent: Ok(Some(StoredIntent {
            bytes: b"intent".to_vec(),
            decoded: Ok(intent.clone()),
            encoded: Ok(b"intent".to_vec()),
            intent_id: Ok(record.intent_id()),
        })),
        attempts: Ok(vec![reservation]),
        other_round: Ok(false),
    };
    assert_eq!(
        run.advance(CleanupEvent::Marker(facts)),
        CleanupAction::MoveMarker {
            from: Round::Second,
            name,
        }
    );
    assert_eq!(
        run.advance(CleanupEvent::Moved(Ok(()))),
        CleanupAction::SyncRound(Round::Second)
    );
    assert_eq!(
        run.advance(CleanupEvent::Synced(Ok(()))),
        CleanupAction::SyncRound(Round::First)
    );
    match run.advance(CleanupEvent::Synced(Ok(()))) {
        CleanupAction::Finish(Ok(pending)) => {
            assert_eq!(pending.len(), 1);
            assert_eq!(pending[0].intent, intent);
            assert_eq!(pending[0].record, record);
        }
        other => panic!("the marker was not handed out: {other:?}"),
    }
}

#[test]
fn pending_cleanup_round_temp_is_bounded_and_unicode_unknown_fails_closed() {
    let temporary = format!(".tmp-{}", uuid(9).hyphenated());
    let mut run = pass(1);
    run.advance(CleanupEvent::Opened(Ok(Round::First)));
    assert_eq!(
        run.advance(CleanupEvent::Listed(Ok(vec![
            queue_entry(temporary.clone()),
            queue_entry("not reached".to_string()),
        ]))),
        CleanupAction::RemoveTemporary {
            round: Round::First,
            name: temporary,
        }
    );
    assert_eq!(
        run.advance(CleanupEvent::Removed(Ok(()))),
        CleanupAction::SyncRound(Round::First)
    );
    assert_eq!(
        run.advance(CleanupEvent::Synced(Ok(()))),
        CleanupAction::Finish(Ok(Vec::new()))
    );

    let unknown = "未認証.projection-cleanup".to_string();
    let mut run = pass(1);
    run.advance(CleanupEvent::Opened(Ok(Round::First)));
    let action = run.advance(CleanupEvent::Listed(Ok(vec![queue_entry(unknown.clone())])));
    let refused = match action {
        CleanupAction::ReadMarker { .. } => run.advance(CleanupEvent::Marker(MarkerFacts {
            read: Ok(Some(ReadMarker {
                bytes: b"not a canonical marker".to_vec(),
                parsed: ParsedMarker {
                    decoded: Err("not a marker".to_string()),
                    evidence_bytes: Ok(Vec::new()),
                    encoded: Ok(Vec::new()),
                },
            })),
            intent: Ok(None),
            attempts: Ok(Vec::new()),
            other_round: Ok(false),
        })),
        other => other,
    };
    assert!(matches!(refused, CleanupAction::Finish(Err(_))), "{refused:?}");
}

#[test]
fn the_namespace_record_follows_its_rounds() {
    let store_id = ProjectionReceiptStoreId::from_digest(digest("store"));
    let mut run = CleanupOpening::new(store_id);
    assert_eq!(run.asks(), CleanupOpeningAction::ReadRecord);
    assert_eq!(
        run.advance(CleanupOpeningEvent::Record(Ok(None))),
        CleanupOpeningAction::EnsureDirectory
    );
    assert_eq!(
        run.advance(CleanupOpeningEvent::Ensured(Ok(()))),
        CleanupOpeningAction::Identify
    );
    assert!(matches!(
        run.advance(CleanupOpeningEvent::Identified(Ok(digest("pending")))),
        CleanupOpeningAction::Encode(_)
    ));
    assert_eq!(
        run.advance(CleanupOpeningEvent::Encoded(Ok(b"record".to_vec()))),
        CleanupOpeningAction::ReadState
    );
    assert_eq!(
        run.advance(CleanupOpeningEvent::StateExists(Ok(false))),
        CleanupOpeningAction::CheckRoot
    );
    assert_eq!(
        run.advance(CleanupOpeningEvent::RootChecked(Ok(()))),
        CleanupOpeningAction::EnsureRounds
    );
    assert_eq!(
        run.advance(CleanupOpeningEvent::RoundsEnsured(Ok(rounds()))),
        CleanupOpeningAction::PublishState(round_state(0))
    );
    assert_eq!(
        run.advance(CleanupOpeningEvent::Published(Ok(()))),
        CleanupOpeningAction::OpenRounds
    );
    assert_eq!(
        run.advance(CleanupOpeningEvent::RoundsOpened(Ok(()))),
        CleanupOpeningAction::PublishRecord(b"record".to_vec())
    );
    assert_eq!(
        run.advance(CleanupOpeningEvent::Published(Ok(()))),
        CleanupOpeningAction::Finish(Ok(digest("pending")))
    );
    assert!(check_cleanup_namespace(Some(b"record"), Ok(b"record".to_vec())).is_ok());
    assert!(check_cleanup_namespace(Some(b"other"), Ok(b"record".to_vec())).is_err());
    assert_eq!(EntryFault::Own("words").message(), "words");
}
