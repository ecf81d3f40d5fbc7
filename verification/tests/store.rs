//! The receipt store: its claim, its evidence and the authority to change a file.

use std::cell::Cell;

use tine_projection::annotation::ReceiptError;
use tine_projection::attempts::{
    load_attempt_reservations_from, reserve_deterministic_attempt, sort_attempts, turn_attempt_id,
    AttemptChoice, AttemptEntry, EntryKind, ProjectionAttemptReservation, StoredReservation,
};
use tine_projection::authority::{
    no_longer_live, reconcile_completed_mutation, reserves_recovery_attempt, MutationSnapshot,
    MutationStart, ProjectionMutationAuthority, ProjectionTurnMutationAuthority, Reconciliation,
    StoreBinding, StoredAuthority,
};
use tine_projection::barrier::{AndroidReceiptBarrierState, AndroidReceiptDirectoryIdentity};
use tine_projection::catalog::{
    charge_catalog_directory_entry, incomplete_rows, CompletionEntry, IntentEntry,
    ProjectionCatalogEntry,
};
use tine_projection::claim::{
    claim_bytes, classify_precheck_claim, deterministic_mutation_uuid, init_claim_bytes,
    precheck_authoritative_claim, unix_directory_identity, validate_claim,
    windows_directory_identity, ClaimProbe, NamespaceIdentities, STORE_CLAIM_LEN,
};
use tine_projection::completion::ProjectionCompletion;
use tine_projection::completion_run::{CompletionAction, CompletionEvent, CompletionRun};
use tine_projection::evidence::{
    decode_local_forensic_record, list_forensic_evidence, publish_recovery_evidence,
    require_evidence_length, validate_forensic_record_with_reservation, EvidenceEntry,
    LocalProjectionEvidenceRecord, ParsedMarker, PendingProjectionCleanupMarker,
    ProjectionRecoveryEvidence, ProjectionWriteProof, StoredRecord, MAX_PROJECTION_EVIDENCE_BYTES,
};
use tine_projection::execution::ProjectionEndpointBinding;
use tine_projection::files::{
    acquire_mutation_lease, read_optional_mutation_authority, read_optional_regular,
    remove_mutation_authority_if_exact, require_replaceable, FileFacts, LeaseAttempt, LeaseFile,
    OpenedFile, ReceiptFile,
};
use tine_projection::frontier::FrontierV2;
use tine_projection::hash::{BlobDescription, Digest};
use tine_projection::ids::{
    CanonicalGraphResourceId, ContentDigest, DeviceId, PageId, PortablePathKeyDigest,
    ProjectionEndpointId, ProjectionIntentId, ProjectionReceiptStoreId, Uuid, WorkspaceId,
};
use tine_projection::intent::{ProjectionIntent, ProjectionPrecondition, ProjectionTargetKind};
use tine_projection::live::{LiveAttempt, LiveDirectory, LiveNames, RetainedIdentities};
use tine_projection::messages::HostWords;
use tine_projection::names::{
    attempt_filename, base_filename, completion_filename, intent_filename, is_temp_name,
    parse_attempt_filename, require_canonical_evidence_name,
};
use tine_projection::opening::{
    require_root_name, InitializeAction, InitializeEvent, OpenedNamespaces, RootName,
    StoreInitialization,
};
use tine_projection::path::ManagedPath;
use tine_projection::probe_run::{RetireAction, RetireEvent, RetirePass};
use tine_projection::publication::{
    PublicationAction, PublicationEvent, PublicationRun, ReceiptDirectoryDurability,
};
use tine_projection::rounds::{retire_pending_projection_cleanup, Round};
use tine_projection::store::{
    holds_completion, CapabilityCapturedProjectionState, IntentDirectory, IntentDirectoryStep,
    ProjectionReceiptStore, PublicationStep, PublishedIntent, StoredCompletion, StoredIntent,
};
use tine_projection::store_error::{
    EntryFault, IoFailure, IoFailureKind, ProjectionStoreError, Reason, StoreFault,
};
use tine_projection::summary::{DeltaIntent, DeltaRow, NamedEntry, OwnIntentResidue};

// Values.

fn uuid(value: u128) -> Uuid {
    Uuid::from_u128(value)
}

fn workspace(value: u128) -> WorkspaceId {
    WorkspaceId::from_uuid(uuid(value))
}

fn path(value: &str) -> ManagedPath {
    ManagedPath::new(
        value.to_string(),
        PortablePathKeyDigest::from_digest(Digest::of(value.to_lowercase().as_bytes())),
    )
}

fn digest(label: &str) -> Digest {
    Digest::of(label.as_bytes())
}

fn identities() -> NamespaceIdentities {
    NamespaceIdentities {
        bases: digest("bases"),
        intents: digest("intents"),
        completions: digest("completions"),
        attempts: digest("attempts"),
        forensics: digest("forensics"),
    }
}

fn store_id(label: &str) -> ProjectionReceiptStoreId {
    ProjectionReceiptStoreId::from_digest(digest(label))
}

fn endpoint() -> ProjectionEndpointBinding {
    ProjectionEndpointBinding {
        endpoint_id: ProjectionEndpointId::from_uuid(uuid(21)),
        device_id: DeviceId::from_uuid(uuid(22)),
        graph_resource_id: CanonicalGraphResourceId::from_digest(digest("graph")),
    }
}

fn store() -> ProjectionReceiptStore {
    ProjectionReceiptStore {
        root_path: "/receipts".to_string(),
        store_id: store_id("store"),
        workspace_id: workspace(1),
        endpoint: Some(endpoint()),
        namespace_identities: identities(),
        pending_cleanup_identity: digest("pending"),
        retired_own_endpoint_intents: Vec::new(),
    }
}

fn failure(kind: IoFailureKind) -> IoFailure {
    IoFailure {
        kind,
        message: Reason::Reported("refused".to_string()),
        semantic_refusal: false,
    }
}

/// What a host calls a refused version, and how it writes a description.
fn words() -> HostWords {
    HostWords {
        refusal: "outdated-store".to_string(),
        description: "5 bytes".to_string(),
    }
}

fn intent_at(managed_path: &str, base: Option<&[u8]>, target: &[u8]) -> ProjectionIntent {
    ProjectionIntent::new(
        workspace(1),
        PageId::from_uuid(uuid(2)),
        path(managed_path),
        FrontierV2::default(),
        Vec::new(),
        match base {
            None => ProjectionPrecondition::Absent,
            Some(bytes) => ProjectionPrecondition::Base(BlobDescription::of(bytes)),
        },
        ProjectionTargetKind::Present,
        BlobDescription::of(target),
        Vec::new(),
    )
    .unwrap()
}

/// Stands for the canonical encoding of an intent.
fn encode_intent(intent: &ProjectionIntent) -> Vec<u8> {
    format!("{intent:?}").into_bytes()
}

fn id_of(intent: &ProjectionIntent) -> ProjectionIntentId {
    ProjectionIntentId::from_digest(Digest::of(&encode_intent(intent)))
}

fn stored_intent(intent: &ProjectionIntent) -> StoredIntent {
    StoredIntent {
        bytes: encode_intent(intent),
        decoded: Ok(intent.clone()),
        encoded: Ok(encode_intent(intent)),
        intent_id: Ok(id_of(intent)),
    }
}

fn published(intent: &ProjectionIntent, base: Option<&[u8]>) -> PublishedIntent {
    PublishedIntent {
        stored: Ok(Some(stored_intent(intent))),
        base: Ok(base.map(<[u8]>::to_vec)),
    }
}

fn encode_reservation(reservation: &ProjectionAttemptReservation) -> Vec<u8> {
    format!("{reservation:?}").into_bytes()
}

fn stored_reservation(reservation: &ProjectionAttemptReservation) -> StoredReservation {
    StoredReservation {
        bytes: encode_reservation(reservation),
        decoded: Ok(reservation.clone()),
        encoded: Ok(encode_reservation(reservation)),
    }
}

fn attempt_entry(reservation: &ProjectionAttemptReservation) -> AttemptEntry {
    AttemptEntry {
        name: Some(attempt_filename(reservation.attempt_id())),
        kind: EntryKind::File,
        stored: Ok(Some(stored_reservation(reservation))),
    }
}

fn reserve(intent: &ProjectionIntent, attempt: u128) -> ProjectionAttemptReservation {
    let chosen = store()
        .reserve_attempt(
            intent,
            id_of(intent),
            published(intent, None),
            Ok(()),
            Some(uuid(attempt)),
            Ok(false),
            Vec::new(),
        )
        .unwrap();
    match chosen {
        AttemptChoice::New(reservation) => reservation,
        AttemptChoice::Existing(_) => panic!("nothing was reserved before"),
    }
}

fn snapshot(intent: &ProjectionIntent, attempts: &[ProjectionAttemptReservation]) -> MutationSnapshot {
    MutationSnapshot {
        existing: Ok(None),
        claim: Ok(Some(b"claim".to_vec())),
        attempts: Ok(attempts.to_vec()),
        attempt_bytes: Ok(attempts.iter().map(encode_reservation).collect()),
        intent_bytes: Ok(encode_intent(intent)),
        base: Ok(None),
        attempts_identity: Ok(digest("own attempts")),
        forensics_identity: Ok(digest("own forensics")),
    }
}

/// Begins under the lease. Where an attempt is reserved for a recovery, that is the first of the
/// snapshot's.

fn begin(
    intent: &ProjectionIntent,
    active: Option<&ProjectionAttemptReservation>,
    snapshot: MutationSnapshot,
) -> Result<MutationStart, ProjectionStoreError> {
    let recovery = match &snapshot.attempts {
        Ok(attempts) if !attempts.is_empty() => attempts[0].clone(),
        _ => reserve(intent, 0x77),
    };
    store().begin_mutation(
        intent,
        id_of(intent),
        published(intent, None),
        Ok(()),
        active.cloned(),
        Ok(recovery),
        snapshot,
    )
}

fn fresh_authority(
    intent: &ProjectionIntent,
    reservation: &ProjectionAttemptReservation,
) -> ProjectionMutationAuthority {
    let attempts = [reservation.clone()];
    begin(intent, Some(reservation), snapshot(intent, &attempts))
        .unwrap()
        .seal(Ok(b"authority".to_vec()))
        .unwrap()
}

/// The record that an interrupted authority left behind.
fn left_behind(authority: &ProjectionMutationAuthority) -> StoredAuthority {
    StoredAuthority {
        bytes: authority.durable_bytes.clone(),
        decoded: Ok(authority.durable.clone()),
        encoded: Ok(authority.durable_bytes.clone()),
        reservations: authority.reservations.iter().map(stored_reservation).collect(),
    }
}

// Limits.

#[test]
fn catalog_directory_budget_counts_temp_entries_before_loading() {
    let mut count = 0;
    charge_catalog_directory_entry(&mut count, 2).unwrap();
    charge_catalog_directory_entry(&mut count, 2).unwrap();
    assert!(matches!(
        charge_catalog_directory_entry(&mut count, 2),
        Err(ProjectionStoreError::EvidenceTooLarge {
            kind: "projection catalog directory entries",
            declared: 3,
            limit: 2
        })
    ));
}

#[test]
fn every_published_evidence_class_obeys_the_reload_limit() {
    for kind in [
        "projection base",
        "projection target",
        "projection intent",
        "projection completion",
    ] {
        assert!(require_evidence_length(
            kind,
            MAX_PROJECTION_EVIDENCE_BYTES,
            MAX_PROJECTION_EVIDENCE_BYTES
        )
        .is_ok());
        assert!(matches!(
            require_evidence_length(
                kind,
                MAX_PROJECTION_EVIDENCE_BYTES + 1,
                MAX_PROJECTION_EVIDENCE_BYTES
            ),
            Err(ProjectionStoreError::EvidenceTooLarge {
                kind: found,
                declared,
                limit,
            }) if found == kind
                && declared == MAX_PROJECTION_EVIDENCE_BYTES + 1
                && limit == MAX_PROJECTION_EVIDENCE_BYTES
        ));
    }
}

// Names.

#[test]
fn evidence_is_named_after_its_digest() {
    let hex = "ba7816bf8f01cfea414140de5dae2223b00361a396177a9cb410ff61f20015ad";
    assert_eq!(Digest::of(b"abc").to_hex(), hex);
    assert_eq!(base_filename(BlobDescription::of(b"abc")), format!("{hex}.base"));
    let id = ProjectionIntentId::from_digest(Digest::of(b"abc"));
    assert_eq!(intent_filename(id), format!("{hex}.intent"));
    assert_eq!(completion_filename(id), format!("{hex}.completion"));
    assert!(require_canonical_evidence_name(&format!("{hex}.intent"), ".intent").is_ok());
    for name in ["abc.intent".to_string(), format!("{hex}.completion"), hex.to_uppercase()] {
        assert_eq!(
            require_canonical_evidence_name(&name, ".intent"),
            Err(ProjectionStoreError::MalformedEvidenceName(name.clone()))
        );
    }
}

#[test]
fn an_attempt_name_reads_back() {
    let id = uuid(0x0123_4567_89ab_cdef_0123_4567_89ab_cdef);
    let name = attempt_filename(id);
    assert_eq!(name, "0123456789abcdef0123456789abcdef.attempt");
    assert_eq!(parse_attempt_filename(&name), Ok(id));
    for other in [
        "0123456789ABCDEF0123456789abcdef.attempt",
        "01234567-89ab-cdef-0123-456789abcdef.attempt",
        "0123456789abcdef0123456789abcdef",
    ] {
        assert_eq!(
            parse_attempt_filename(&other.to_string()),
            Err(ProjectionStoreError::MalformedEvidenceName(other.to_string()))
        );
    }
}

#[test]
fn only_a_whole_identifier_makes_a_temporary_name() {
    assert!(is_temp_name(".tmp-01234567-89ab-cdef-0123-456789abcdef"));
    assert!(!is_temp_name(".tmp-not-canonical"));
    assert!(!is_temp_name("01234567-89ab-cdef-0123-456789abcdef"));
    assert_eq!(Uuid::parse_str("nothing"), None);
    assert_eq!(
        Uuid::parse_str("01234567-89ab-cdef-0123-456789abcdef").map(|id| id.simple()),
        Some("0123456789abcdef0123456789abcdef".to_string())
    );
}

// The claim.

fn claim() -> Vec<u8> {
    claim_bytes(store_id("store"), workspace(1), Some(endpoint()), &identities())
}

#[test]
fn a_claim_reads_back_and_binds_all_it_names() {
    let bytes = claim();
    assert_eq!(bytes.len(), STORE_CLAIM_LEN);
    assert_eq!(&bytes[..12], b"TINEPR6\0\0\0\0\x06");
    assert_eq!(
        validate_claim(&bytes, store_id("store"), workspace(1), Some(endpoint())),
        Ok(identities())
    );
    assert_eq!(
        validate_claim(&bytes, store_id("copy"), workspace(1), Some(endpoint())),
        Err(ProjectionStoreError::EndpointBindingMismatch)
    );
    assert_eq!(
        validate_claim(&bytes, store_id("store"), workspace(2), Some(endpoint())),
        Err(ProjectionStoreError::WorkspaceMismatch {
            expected: workspace(2),
            found: workspace(1),
        })
    );
    assert_eq!(
        validate_claim(&bytes, store_id("store"), workspace(1), None),
        Err(ProjectionStoreError::EndpointBindingMismatch)
    );
}

#[test]
fn a_claim_of_another_version_is_told_from_a_broken_one() {
    let mut future = claim();
    future[11] = 99;
    assert_eq!(
        classify_precheck_claim(&future),
        Err(ProjectionStoreError::UnknownStoreVersion(99))
    );
    let mut older = claim();
    older[11] = 2;
    assert_eq!(
        classify_precheck_claim(&older),
        Err(ProjectionStoreError::UpgradeRequired {
            found: 2,
            current: 6,
        })
    );
    let mut long = claim();
    long.push(0);
    for broken in [long, b"TINEPR6\0".to_vec(), b"TINEPR7\0\0\0\0\x06".to_vec()] {
        assert_eq!(
            classify_precheck_claim(&broken),
            Err(ProjectionStoreError::MalformedStoreClaim)
        );
    }
}

#[test]
fn the_precheck_accepts_only_no_store_an_empty_one_or_a_claimed_one() {
    assert!(precheck_authoritative_claim(ClaimProbe::NoStore).is_ok());
    assert!(precheck_authoritative_claim(ClaimProbe::NoClaim(Ok(false))).is_ok());
    assert!(precheck_authoritative_claim(ClaimProbe::Claim(Ok(claim()))).is_ok());
    assert_eq!(
        precheck_authoritative_claim(ClaimProbe::NoClaim(Ok(true))),
        Err(ProjectionStoreError::ClaimlessNonemptyStore)
    );
    assert_eq!(
        precheck_authoritative_claim(ClaimProbe::NotAFile),
        Err(ProjectionStoreError::MalformedStoreClaim)
    );
    let error = precheck_authoritative_claim(ClaimProbe::StoreClosed(failure(IoFailureKind::Other)));
    assert_eq!(
        error,
        Err(ProjectionStoreError::Operation {
            operation: EntryFault::Own("open private receipt store for claim precheck"),
            source: Box::new(ProjectionStoreError::Store(StoreFault::Io(failure(
                IoFailureKind::Other
            )))),
        })
    );
}

#[test]
fn derived_identities_have_fixed_values() {
    assert_eq!(
        unix_directory_identity(17, 29).to_hex(),
        "90c8fdbf3306c275e5e670800929d5424a610359073694e3daecf485414bb5f3"
    );
    assert_eq!(
        windows_directory_identity(17, &29_u128.to_be_bytes()).to_hex(),
        "d38a5cba915c1cd3440499e0e202a48c6370249273db30c51890d66d072d2a9a"
    );
    assert_eq!(
        deterministic_mutation_uuid(
            "tine/projection-mutation-authority/v1",
            store_id("store"),
            ProjectionIntentId::from_digest(digest("intent")),
        )
        .hyphenated(),
        "e673c72e-7419-88ae-9af5-78cfc50c101a"
    );
}

// Opening.

fn opening() -> StoreInitialization {
    ProjectionReceiptStore::open(
        RootName::Named("receipts".to_string()),
        "/receipts".to_string(),
        store_id("store"),
        workspace(1),
    )
    .unwrap()
}

fn refused_source(action: InitializeAction) -> ProjectionStoreError {
    match action {
        InitializeAction::Finish(Err(ProjectionStoreError::Operation { operation, source })) => {
            assert_eq!(operation, EntryFault::Own("initialize private receipt store"));
            *source
        }
        other => panic!("the store was not refused: {other:?}"),
    }
}

#[test]
fn claimless_nonempty_and_prior_version_receipt_roots_fail_without_mutation() {
    let mut claimless = opening();
    assert_eq!(claimless.asks(), InitializeAction::ReadClaim);
    assert_eq!(
        claimless.advance(InitializeEvent::Read(Ok(None))),
        InitializeAction::ReadInitClaim
    );
    assert_eq!(
        claimless.advance(InitializeEvent::Read(Ok(None))),
        InitializeAction::CheckEmpty
    );
    assert_eq!(
        refused_source(claimless.advance(InitializeEvent::Empty(Ok(false)))),
        ProjectionStoreError::ClaimlessNonemptyStore
    );

    for (magic, found) in [(&b"TINEPR5\0"[..], 5_u32), (&b"TINEPR4\0"[..], 4)] {
        let mut prior = Vec::new();
        prior.extend_from_slice(magic);
        prior.extend_from_slice(&found.to_be_bytes());
        prior.extend_from_slice(&workspace(1).as_uuid().to_bytes());
        prior.extend_from_slice(&[0_u8; 1 + 16 + 16 + 32]);
        let mut run = opening();
        let error = refused_source(run.advance(InitializeEvent::Read(Ok(Some(prior)))));
        assert_eq!(error, ProjectionStoreError::UpgradeRequired { found, current: 6 });
        let message = error.message(&words());
        assert!(
            message.contains("backed up")
                && message.contains("rebuilt")
                && message.contains("Markdown/Org")
                && !message.contains("re-activate"),
            "the refusal must name automatic blank-slate recovery: {message}"
        );
    }
}

fn opened() -> OpenedNamespaces {
    OpenedNamespaces {
        identities: identities(),
        pending_cleanup: digest("pending"),
    }
}

#[test]
fn a_new_store_is_claimed_and_opens_again() {
    let mut run = opening();
    run.advance(InitializeEvent::Read(Ok(None)));
    run.advance(InitializeEvent::Read(Ok(None)));
    let init = init_claim_bytes(store_id("store"), workspace(1), None);
    assert_eq!(
        run.advance(InitializeEvent::Empty(Ok(true))),
        InitializeAction::PublishInitClaim(init)
    );
    assert_eq!(
        run.advance(InitializeEvent::Published(Ok(()))),
        InitializeAction::EnsureNamespace("bases")
    );
    for next in ["intents", "completions", "attempts", "forensics"] {
        assert_eq!(
            run.advance(InitializeEvent::Ensured(Ok(()))),
            InitializeAction::EnsureNamespace(next)
        );
    }
    assert_eq!(
        run.advance(InitializeEvent::Ensured(Ok(()))),
        InitializeAction::ListStore
    );
    assert_eq!(
        run.advance(InitializeEvent::Listed(Ok(Vec::new()))),
        InitializeAction::OpenNamespaces { claimed: false }
    );
    let written = match run.advance(InitializeEvent::Opened(Ok(opened()))) {
        InitializeAction::PublishClaim(bytes) => bytes,
        other => panic!("no claim was published: {other:?}"),
    };
    let first = match run.advance(InitializeEvent::Published(Ok(()))) {
        InitializeAction::Finish(Ok(store)) => store,
        other => panic!("the store did not open: {other:?}"),
    };

    let mut again = opening();
    assert_eq!(
        again.advance(InitializeEvent::Read(Ok(Some(written)))),
        InitializeAction::OpenNamespaces { claimed: true }
    );
    assert_eq!(
        again.advance(InitializeEvent::Opened(Ok(opened()))),
        InitializeAction::Finish(Ok(first))
    );
}

#[test]
fn a_claimed_store_with_a_replaced_namespace_is_refused() {
    let written = claim_bytes(store_id("store"), workspace(1), None, &identities());
    let mut run = opening();
    run.advance(InitializeEvent::Read(Ok(Some(written))));
    let mut replaced = opened();
    replaced.identities.attempts = digest("elsewhere");
    assert_eq!(
        refused_source(run.advance(InitializeEvent::Opened(Ok(replaced)))),
        ProjectionStoreError::NamespaceSubstitution(EntryFault::Own("top-level receipt namespace"))
    );
}

#[test]
fn a_store_needs_a_normal_name_below_a_parent() {
    assert_eq!(
        require_root_name(RootName::Named("receipts".to_string())),
        Ok("receipts".to_string())
    );
    for root in [RootName::Missing, RootName::NotNormal, RootName::NotText, RootName::NoParent] {
        assert!(require_root_name(root).is_err());
    }
}

// Intents and bases.

#[test]
fn receipt_store_orders_base_before_intent_and_enumerates_incomplete() {
    let intent = intent_at("pages/store.md", Some(b"- base\n"), b"- target\n");
    let steps = store()
        .publish_intent(&intent, id_of(&intent), Ok(encode_intent(&intent)), Some(b"- base\n"))
        .unwrap();
    let base = BlobDescription::of(b"- base\n");
    assert_eq!(
        steps,
        vec![
            PublicationStep::Base {
                name: format!("{}.base", base.sha256().to_hex()),
                bytes: b"- base\n".to_vec(),
            },
            PublicationStep::AttemptNamespace,
            PublicationStep::ForensicNamespace,
            PublicationStep::Intent {
                name: format!("{}.intent", id_of(&intent).digest().to_hex()),
                bytes: encode_intent(&intent),
            },
        ]
    );
    assert_eq!(
        store().incomplete_intents(vec![intent_entry(&intent, Some(b"- base\n"))], Vec::new()),
        Ok(vec![intent])
    );
}

#[test]
fn receipt_store_requires_exact_base_presence_and_descriptor_match() {
    let absent = intent_at("archive/pages/absent.md", None, b"- target\n");
    assert_eq!(
        store().publish_intent(
            &absent,
            id_of(&absent),
            Ok(encode_intent(&absent)),
            Some(b"unexpected")
        ),
        Err(ProjectionStoreError::UnexpectedBase)
    );
    let based = intent_at("archive/pages/based.md", Some(b"- exact base\n"), b"- target\n");
    let description = BlobDescription::of(b"- exact base\n");
    assert_eq!(
        store().publish_intent(&based, id_of(&based), Ok(encode_intent(&based)), None),
        Err(ProjectionStoreError::MissingBase(description))
    );
    assert_eq!(
        store().publish_intent(
            &based,
            id_of(&based),
            Ok(encode_intent(&based)),
            Some(b"- wrong base\n")
        ),
        Err(ProjectionStoreError::BaseEvidenceMismatch(description))
    );
    let loaded = store()
        .load_base(&based, Ok(Some(b"- exact base\n".to_vec())))
        .unwrap()
        .unwrap();
    assert_eq!(loaded.bytes(), b"- exact base\n");
    assert_eq!(store().load_base(&absent, Ok(None)), Ok(None));
}

#[test]
fn declared_oversized_target_is_rejected_before_any_evidence_publication() {
    let mut intent = intent_at("pages/oversized.md", None, b"");
    intent.target.byte_length = 64 * 1024 * 1024 + 1;
    assert_eq!(
        store().publish_intent(&intent, id_of(&intent), Ok(encode_intent(&intent)), None),
        Err(ProjectionStoreError::EvidenceTooLarge {
            kind: "projection target",
            declared: 67_108_865,
            limit: 67_108_864,
        })
    );
}

#[test]
fn corrupt_missing_noncanonical_and_unknown_evidence_fail_closed() {
    let intent = intent_at("pages/corrupt.md", Some(b"- base\n"), b"- target\n");
    let id = id_of(&intent);
    let description = BlobDescription::of(b"- base\n");
    assert_eq!(
        store().load_intent(id, published(&intent, Some(b"- base\n"))),
        Ok(Some(intent.clone()))
    );
    assert_eq!(
        store().load_intent(id, published(&intent, None)),
        Err(ProjectionStoreError::MissingBase(description))
    );
    assert_eq!(
        store().load_intent(id, published(&intent, Some(b"- evil\n"))),
        Err(ProjectionStoreError::BaseEvidenceMismatch(description))
    );
    let mut unknown = published(&intent, Some(b"- base\n"));
    unknown.stored = Ok(Some(StoredIntent {
        decoded: Err(ReceiptError::Codec("unknown receipt schema 99".to_string())),
        ..stored_intent(&intent)
    }));
    assert_eq!(
        store().load_intent(id, unknown),
        Err(ProjectionStoreError::Receipt(ReceiptError::Codec(
            "unknown receipt schema 99".to_string()
        )))
    );
    let mut noncanonical = stored_intent(&intent);
    noncanonical.bytes.push(b'\n');
    let published_twice = PublishedIntent {
        stored: Ok(Some(noncanonical)),
        base: Ok(Some(b"- base\n".to_vec())),
    };
    assert_eq!(
        store().load_intent(id, published_twice),
        Err(ProjectionStoreError::NonCanonical("projection intent"))
    );
    let other = intent_at("pages/other.md", Some(b"- base\n"), b"- target\n");
    assert_eq!(
        store().load_intent(id_of(&other), published(&intent, Some(b"- base\n"))),
        Err(ProjectionStoreError::PathBindingMismatch("projection intent"))
    );
    let nothing = PublishedIntent {
        stored: Ok(None),
        base: Ok(None),
    };
    assert_eq!(store().load_intent(id, nothing), Ok(None));
    assert_eq!(
        store().load_intent_by_id(id, Ok(None)),
        Err(ProjectionStoreError::MissingIntent(id))
    );
    let mut foreign = intent.clone();
    foreign.workspace_id = workspace(9);
    assert_eq!(
        store().require_workspace(&foreign),
        Err(ProjectionStoreError::WorkspaceMismatch {
            expected: workspace(1),
            found: workspace(9),
        })
    );
}

#[test]
fn a_missing_per_intent_recovery_namespace_is_recreated_instead_of_wedging_projection() {
    let id = ProjectionIntentId::from_digest(digest("intent"));
    for namespace in ["attempts", "forensics"] {
        assert_eq!(
            store().open_intent_namespace(namespace, id, IntentDirectory::Missing, true),
            Ok(IntentDirectoryStep::CreateAndOpen)
        );
        assert_eq!(
            store().open_intent_namespace(namespace, id, IntentDirectory::Missing, false),
            Ok(IntentDirectoryStep::LeaveAbsent)
        );
        assert!(matches!(
            store().open_intent_namespace(namespace, id, IntentDirectory::NotDirectory, true),
            Err(ProjectionStoreError::UnsafeEntry(_))
        ));
    }
}

#[test]
fn intent_and_completion_records_carry_an_explicit_target_kind() {
    let of_kind = |kind: ProjectionTargetKind| {
        ProjectionIntent::new(
            workspace(1),
            PageId::from_uuid(uuid(940)),
            path("pages/target-kind.md"),
            FrontierV2::default(),
            Vec::new(),
            ProjectionPrecondition::Base(BlobDescription::of(b"- base\n")),
            kind,
            BlobDescription::of(&[]),
            Vec::new(),
        )
        .unwrap()
    };
    let absent = of_kind(ProjectionTargetKind::Absent);
    let empty_present = of_kind(ProjectionTargetKind::Present);
    assert_eq!(absent.target(), empty_present.target());
    assert_eq!(absent.target_kind(), ProjectionTargetKind::Absent);
    assert_eq!(empty_present.target_kind(), ProjectionTargetKind::Present);
    assert!(!absent.matches_replay_except_frontier(&empty_present));

    let id = ProjectionIntentId::from_digest(digest("same for both"));
    let completion = ProjectionCompletion::for_intent(&empty_present, id, &[]).unwrap();
    assert_eq!(completion.target_kind(), ProjectionTargetKind::Present);
    assert!(completion.validate_against(&empty_present, id).is_ok());
    let absent_completion = ProjectionCompletion::for_intent(&absent, id, &[]).unwrap();
    assert_eq!(absent_completion.target_kind(), ProjectionTargetKind::Absent);
    assert!(absent_completion.validate_against(&empty_present, id).is_err());
    assert_eq!(
        ProjectionIntent::new(
            workspace(1),
            PageId::from_uuid(uuid(940)),
            path("pages/target-kind.md"),
            FrontierV2::default(),
            Vec::new(),
            ProjectionPrecondition::Absent,
            ProjectionTargetKind::Absent,
            BlobDescription::of(b"bytes"),
            Vec::new(),
        ),
        Err(ReceiptError::AbsentTargetWithBytes)
    );
}

// The catalogue.

fn intent_entry(intent: &ProjectionIntent, base: Option<&[u8]>) -> IntentEntry {
    IntentEntry {
        name: Some(intent_filename(id_of(intent))),
        kind: EntryKind::File,
        stored: Ok(Some(stored_intent(intent))),
        base: Ok(base.map(<[u8]>::to_vec)),
    }
}

fn completion_of(intent: &ProjectionIntent, target: &[u8]) -> ProjectionCompletion {
    ProjectionCompletion::for_intent(intent, id_of(intent), target).unwrap()
}

fn stored_completion(completion: &ProjectionCompletion) -> StoredCompletion {
    let bytes = format!("{completion:?}").into_bytes();
    StoredCompletion {
        bytes: bytes.clone(),
        decoded: Ok(*completion),
        encoded: Ok(bytes),
    }
}

fn completion_entry(completion: &ProjectionCompletion) -> CompletionEntry {
    CompletionEntry {
        name: Some(completion_filename(completion.intent_id)),
        kind: EntryKind::File,
        stored: Ok(Some(stored_completion(completion))),
        reconciled: Ok(()),
    }
}

#[test]
fn incomplete_enumeration_skips_only_canonical_publication_temps() {
    let intent = intent_at("pages/enumeration.md", None, b"- target\n");
    let residue = |name: &str| IntentEntry {
        name: Some(name.to_string()),
        kind: EntryKind::File,
        stored: Ok(None),
        base: Ok(None),
    };
    let temporary = format!(".tmp-{}", uuid(7).hyphenated());
    assert_eq!(
        store()
            .incomplete_intents(
                vec![intent_entry(&intent, None), residue(&temporary)],
                Vec::new()
            )
            .map(|intents| intents.len()),
        Ok(1)
    );
    assert_eq!(
        store().incomplete_intents(
            vec![
                intent_entry(&intent, None),
                residue(&temporary),
                residue(".tmp-not-canonical")
            ],
            Vec::new()
        ),
        Err(ProjectionStoreError::MalformedEvidenceName(
            ".tmp-not-canonical".to_string()
        ))
    );
}

#[test]
fn catalog_paths_reconcile_one_exact_completed_slot_per_row() {
    let intent = intent_at("pages/catalog.md", None, b"- target\n");
    let completion = completion_of(&intent, b"- target\n");
    assert_eq!(
        store().incomplete_intents(
            vec![intent_entry(&intent, None)],
            vec![completion_entry(&completion)]
        ),
        Ok(Vec::new())
    );
    let rows = store()
        .validated_catalog(
            vec![intent_entry(&intent, None)],
            vec![completion_entry(&completion)],
        )
        .unwrap();
    assert_eq!(rows.len(), 1);
    assert_eq!(rows[0].intent, intent);
    assert_eq!(rows[0].completion, Some(completion));

    let mut unreconciled = completion_entry(&completion);
    unreconciled.reconciled = Err(ProjectionStoreError::MutationAuthorityMismatch);
    assert_eq!(
        store().validated_catalog(vec![intent_entry(&intent, None)], vec![unreconciled]),
        Err(ProjectionStoreError::MutationAuthorityMismatch)
    );
}

#[test]
fn a_completion_without_its_intent_is_an_orphan() {
    let intent = intent_at("pages/orphan.md", None, b"- target\n");
    let completion = completion_of(&intent, b"- target\n");
    assert_eq!(
        store().validated_catalog(Vec::new(), vec![completion_entry(&completion)]),
        Err(ProjectionStoreError::OrphanCompletion(completion_filename(
            id_of(&intent)
        )))
    );
}

#[test]
fn load_completion_reconciles_a_crash_retained_slot_idempotently() {
    let intent = intent_at("pages/load.md", None, b"- target\n");
    let id = id_of(&intent);
    let completion = completion_of(&intent, b"- target\n");
    for _ in 0..2 {
        assert_eq!(
            store().load_completion(
                &intent,
                id,
                published(&intent, None),
                Ok(Some(stored_completion(&completion))),
                Ok(())
            ),
            Ok(Some(completion))
        );
    }

    let reservation = reserve(&intent, 5);
    let authority = fresh_authority(&intent, &reservation);
    let mut retained = snapshot(&intent, &[reservation]);
    retained.existing = Ok(Some(left_behind(&authority)));
    assert_eq!(
        reconcile_completed_mutation(&store().binding(), &intent, id, Ok(()), retained),
        Ok(Reconciliation::RemoveRecord)
    );
    assert_eq!(
        reconcile_completed_mutation(
            &store().binding(),
            &intent,
            id,
            Ok(()),
            snapshot(&intent, &[])
        ),
        Ok(Reconciliation::Nothing)
    );
}

#[test]
fn a_mutation_is_reconciled_only_behind_its_valid_completion() {
    let intent = intent_at("pages/owed.md", None, b"- target\n");
    let other = intent_at("pages/other.md", None, b"- other\n");
    let id = id_of(&intent);
    let completion = completion_of(&intent, b"- target\n");
    let valid = || Ok(Some(stored_completion(&completion)));
    assert!(store().reconciliation_is_owed(&intent, id, &published(&intent, None), &valid()));
    assert!(!store().reconciliation_is_owed(&intent, id, &published(&intent, None), &Ok(None)));
    assert!(!store().reconciliation_is_owed(
        &intent,
        id,
        &PublishedIntent {
            stored: Ok(None),
            base: Ok(None),
        },
        &valid()
    ));
    let noncanonical = StoredCompletion {
        encoded: Ok(b"other bytes".to_vec()),
        ..stored_completion(&completion)
    };
    assert!(!holds_completion(&intent, id, &noncanonical));
    assert!(!store().reconciliation_is_owed(
        &intent,
        id,
        &published(&intent, None),
        &Ok(Some(noncanonical))
    ));
    let foreign = stored_completion(&completion_of(&other, b"- other\n"));
    assert!(!holds_completion(&intent, id, &foreign));
    let mut retired = store();
    retired.retired_own_endpoint_intents.push(id);
    assert!(!retired.reconciliation_is_owed(&intent, id, &published(&intent, None), &valid()));

    let refused = || Err(ProjectionStoreError::MutationAuthorityMismatch);
    assert_eq!(
        retired.load_completion(&intent, id, published(&intent, None), valid(), refused()),
        Ok(None)
    );
    assert_eq!(
        store().load_completion(&intent, id, published(&intent, None), valid(), refused()),
        Err(ProjectionStoreError::MutationAuthorityMismatch)
    );
}

#[test]
fn a_catalog_names_the_row_to_reconcile() {
    let done = intent_at("pages/done.md", None, b"- target\n");
    let left = intent_at("pages/left.md", None, b"- target\n");
    let completion = completion_of(&done, b"- target\n");
    let entries = || vec![intent_entry(&done, None), intent_entry(&left, None)];
    let mut scan = store().read_catalog_intents(entries()).unwrap();
    let at = scan.reconciliation_is_owed(&store(), &completion_entry(&completion)).unwrap();
    assert_eq!(scan.row(at).unwrap().intent, done);
    assert!(scan.row(2).is_none());
    let misnamed = CompletionEntry {
        name: Some(completion_filename(id_of(&left))),
        ..completion_entry(&completion)
    };
    assert_eq!(scan.reconciliation_is_owed(&store(), &misnamed), None);
    let temporary = CompletionEntry {
        name: Some(format!(".tmp-{}", uuid(7).hyphenated())),
        kind: EntryKind::File,
        stored: Ok(None),
        reconciled: Ok(()),
    };
    assert_eq!(scan.reconciliation_is_owed(&store(), &temporary), None);
    assert_eq!(scan.admit_completion(&store(), completion_entry(&completion)), Ok(()));
    let rows = scan.into_rows();
    assert_eq!(
        Ok(&rows),
        store()
            .validated_catalog(entries(), vec![completion_entry(&completion)])
            .as_ref()
    );
    assert_eq!(incomplete_rows(rows), vec![left.clone()]);

    let mut retired = store();
    retired.retired_own_endpoint_intents.push(id_of(&done));
    let scan = retired.read_catalog_intents(entries()).unwrap();
    assert_eq!(scan.reconciliation_is_owed(&retired, &completion_entry(&completion)), None);
}

#[test]
fn completed_slot_bound_to_another_intent_fails_closed_without_removal() {
    let intent = intent_at("pages/first-authority.md", None, b"- target\n");
    let second = intent_at("pages/second-authority.md", None, b"- second target\n");
    let reservation = reserve(&second, 5);
    let mut retained = snapshot(&intent, &[]);
    retained.existing = Ok(Some(left_behind(&fresh_authority(&second, &reservation))));
    assert_eq!(
        reconcile_completed_mutation(&store().binding(), &intent, id_of(&intent), Ok(()), retained),
        Err(ProjectionStoreError::MutationAuthorityMismatch)
    );
}

#[test]
fn registered_own_endpoint_residue_is_inert_and_remains_byte_identical() {
    let intent = intent_at("pages/own.md", None, b"- target\n");
    let id = id_of(&intent);
    let mut store = store();
    let own = OwnIntentResidue {
        intent_id: id,
        intent: true,
        completion: true,
        attempts: false,
        forensics: false,
        authority: false,
        lease: false,
    };
    let reported = store.retired_own_endpoint_artifacts(&vec![own], &Vec::new(), &Vec::new());
    assert_eq!(
        reported,
        vec![
            format!("completions/{}", completion_filename(id)),
            format!("intents/{}", intent_filename(id)),
        ]
    );
    assert!(store.is_retired(id));
    let completion = completion_of(&intent, b"- target\n");
    assert_eq!(
        store.load_completion(
            &intent,
            id,
            published(&intent, None),
            Ok(Some(stored_completion(&completion))),
            Ok(())
        ),
        Ok(None)
    );
    assert_eq!(
        store.incomplete_intents(vec![intent_entry(&intent, None)], Vec::new()),
        Ok(Vec::new())
    );
    let names = store.absence_summary_evidence_names(
        vec![NamedEntry {
            name: Some(completion_filename(id)),
            kind: EntryKind::File,
        }],
        vec![NamedEntry {
            name: Some(intent_filename(id)),
            kind: EntryKind::File,
        }],
    );
    assert_eq!(names, Ok(Vec::new()));
}

#[test]
fn a_delta_reads_exactly_the_named_evidence() {
    let intent = intent_at("pages/new.md", None, b"- target\n");
    let id = id_of(&intent);
    let store = store();
    let new_intent = |name: String, stored: Option<StoredIntent>| {
        store.absence_summary_intent_delta(vec![DeltaIntent {
            name,
            stored: Ok(stored),
        }])
    };
    assert_eq!(
        new_intent(intent_filename(id), Some(stored_intent(&intent))),
        Ok(vec![intent.clone()])
    );
    assert_eq!(
        new_intent("new".to_string(), Some(stored_intent(&intent))),
        Err(ProjectionStoreError::MalformedEvidenceName("new".to_string()))
    );
    assert_eq!(
        new_intent(intent_filename(id), None),
        Err(ProjectionStoreError::UnsafeEntry(EntryFault::Named {
            fault: "projection intent disappeared after names snapshot",
            name: intent_filename(id),
        }))
    );

    let completion = completion_of(&intent, b"- target\n");
    let new_row = |stored: Option<StoredIntent>, completion: Option<ProjectionCompletion>| {
        store.absence_summary_catalog_delta(vec![DeltaRow {
            name: completion_filename(id),
            stored: Ok(stored),
            completion: Ok(completion),
        }])
    };
    assert_eq!(
        new_row(Some(stored_intent(&intent)), Some(completion)),
        Ok(vec![ProjectionCatalogEntry {
            intent_id: id,
            intent: intent.clone(),
            completion: Some(completion),
        }])
    );
    for (stored, fault) in [
        (None, "projection completion has no matching intent"),
        (
            Some(stored_intent(&intent)),
            "projection completion disappeared after names snapshot",
        ),
    ] {
        assert_eq!(
            new_row(stored, None),
            Err(ProjectionStoreError::UnsafeEntry(EntryFault::Named {
                fault,
                name: completion_filename(id),
            }))
        );
    }
}

// Attempts.

#[test]
fn root_attempt_reservation_uses_the_target_filename_without_panicking() {
    let intent = intent_at("Root.md", None, b"- target\n");
    let reservation = reserve(&intent, 0x55);
    assert_eq!(
        reservation.recovery_filename(),
        format!(
            ".Root.md.{}.projection.recovery",
            reservation.attempt_id().simple()
        )
    );
}

#[test]
fn root_and_nested_forensic_paths_validate_exactly_and_forgery_fails_closed() {
    for (target_path, expected_parent) in
        [("Root.md", None), ("pages/deep/Target.md", Some("pages/deep"))]
    {
        let intent = intent_at(target_path, None, b"- target\n");
        let id = id_of(&intent);
        let reservation = reserve(&intent, 0x55);
        let expected_filename = format!(
            ".{}.{}.projection.recovery",
            intent.path().file_name(),
            reservation.attempt_id().simple()
        );
        assert_eq!(reservation.recovery_filename(), expected_filename);

        let expected_relative_path = match expected_parent {
            Some(parent) => format!("{parent}/{expected_filename}"),
            None => expected_filename.clone(),
        };
        let record = LocalProjectionEvidenceRecord {
            schema_version: 2,
            intent_id: id,
            attempt_id: reservation.attempt_id(),
            target_path: intent.path().clone(),
            recovery_relative_path: expected_relative_path.clone(),
            recovery_filename: expected_filename.clone(),
            recovery_resource_id: Some(ContentDigest::from_digest(Digest::from_bytes(&[7; 32]))),
            observed: BlobDescription::of(b"- displaced\n"),
        };
        validate_forensic_record_with_reservation(&intent, id, &record, &reservation).unwrap();
        assert_eq!(
            record.recovery_relative_path(),
            expected_relative_path.as_str()
        );

        if expected_parent.is_none() {
            let mut leading_slash = record.clone();
            leading_slash.recovery_relative_path =
                format!("/{}", leading_slash.recovery_relative_path);
            let mut wrong_parent = record.clone();
            wrong_parent.recovery_relative_path =
                format!("pages/{}", wrong_parent.recovery_filename);
            let mut wrong_filename = record.clone();
            wrong_filename.recovery_filename = format!(
                ".Wrong.md.{}.projection.recovery",
                reservation.attempt_id().simple()
            );
            wrong_filename.recovery_relative_path =
                intent.path().sibling(&wrong_filename.recovery_filename);
            for forged in [leading_slash, wrong_parent, wrong_filename] {
                assert_eq!(
                    validate_forensic_record_with_reservation(&intent, id, &forged, &reservation),
                    Err(ProjectionStoreError::ForensicBindingMismatch)
                );
            }
        }
    }
}

#[test]
fn repeated_reservations_across_handles_return_one_exact_attempt() {
    let intent = intent_at("pages/one.md", None, b"- target\n");
    let reservation = reserve(&intent, 5);
    let again = store().reserve_attempt(
        &intent,
        id_of(&intent),
        published(&intent, None),
        Ok(()),
        Some(uuid(6)),
        Ok(false),
        vec![attempt_entry(&reservation)],
    );
    assert_eq!(again, Ok(AttemptChoice::Existing(reservation.clone())));
    assert_eq!(
        load_attempt_reservations_from(&intent, id_of(&intent), vec![attempt_entry(&reservation)]),
        Ok(vec![reservation])
    );
}

#[test]
fn attempts_are_listed_in_order_and_checked_by_name() {
    let intent = intent_at("pages/listed.md", None, b"- target\n");
    let id = id_of(&intent);
    let first = ProjectionAttemptReservation::new(&intent, id, uuid(1));
    let second = ProjectionAttemptReservation::new(&intent, id, uuid(2));
    assert_eq!(
        load_attempt_reservations_from(
            &intent,
            id,
            vec![attempt_entry(&second), attempt_entry(&first)]
        ),
        Ok(vec![first.clone(), second.clone()])
    );
    assert_eq!(
        sort_attempts(vec![second.clone(), first.clone()]),
        vec![first.clone(), second.clone()]
    );
    assert_eq!(
        sort_attempts(vec![second.clone(), first.clone(), second.clone()]),
        vec![first.clone(), second.clone(), second.clone()]
    );
    let mut misnamed = attempt_entry(&first);
    misnamed.name = Some(attempt_filename(uuid(3)));
    assert_eq!(
        load_attempt_reservations_from(&intent, id, vec![misnamed]),
        Err(ProjectionStoreError::AttemptBindingMismatch)
    );
    let mut edited = attempt_entry(&first);
    edited.stored = Ok(Some(StoredReservation {
        bytes: b"edited".to_vec(),
        ..stored_reservation(&first)
    }));
    assert_eq!(
        load_attempt_reservations_from(&intent, id, vec![edited]),
        Err(ProjectionStoreError::AttemptBindingMismatch)
    );
}

#[test]
fn an_attempt_needs_a_turn_and_no_pending_authority() {
    let intent = intent_at("pages/turn.md", None, b"- target\n");
    assert_eq!(turn_attempt_id(Some(uuid(3))), Ok(uuid(3)));
    assert_eq!(
        turn_attempt_id(None),
        Err(ProjectionStoreError::MissingTurnAttemptContext)
    );
    assert_eq!(
        reserve_deterministic_attempt(true, &Vec::new(), &intent, id_of(&intent), uuid(3), false),
        Err(ProjectionStoreError::MutationAuthorityPending)
    );
}

// The authority to change a file.

#[test]
fn pre_graph_drop_frees_only_a_new_authority_slot() {
    let intent = intent_at("pages/drop.md", None, b"- target\n");
    let reservation = reserve(&intent, 5);
    let authority = fresh_authority(&intent, &reservation);
    assert!(authority.removes_record_when_dropped());

    let recovery = begin(&intent, None, snapshot(&intent, &[reservation.clone()]))
        .unwrap()
        .seal(Ok(b"authority".to_vec()))
        .unwrap();
    assert!(recovery.removes_record_when_dropped());

    let mut resumed = snapshot(&intent, &[reservation.clone()]);
    resumed.existing = Ok(Some(left_behind(&authority)));
    let resumed = begin(&intent, None, resumed)
        .unwrap()
        .seal(Err("not encoded again".to_string()))
        .unwrap();
    assert!(!resumed.removes_record_when_dropped());
    assert_eq!(resumed.active, Some(reservation));
    assert_eq!(resumed.durable_bytes, b"authority");
}

#[test]
fn a_turn_crashed_under_2a_replays_under_2b_without_refusal() {
    let intent = intent_at("pages/legacy.md", None, b"- target\n");
    let legacy = reserve(&intent, 5);
    let mut existing = snapshot(&intent, &[legacy.clone()]);
    existing.existing = Ok(Some(left_behind(&fresh_authority(&intent, &legacy))));
    let derived = uuid(0x2b2b_2b2b_2b2b_2b2b_2b2b_2b2b_2b2b_2b2b);
    assert_ne!(legacy.attempt_id(), derived);
    match begin(&intent, None, existing).unwrap() {
        MutationStart::Resumed {
            active,
            reservations,
            ..
        } => {
            assert_eq!(active.map(|attempt| attempt.attempt_id()), Some(legacy.attempt_id()));
            assert_eq!(reservations.len(), 1);
        }
        MutationStart::Fresh { .. } => panic!("the record was not resumed"),
    }
}

#[test]
fn pending_recovery_reopens_same_attempt_and_blocks_new_reservation() {
    let intent = intent_at("pages/pending.md", None, b"- target\n");
    let reservation = reserve(&intent, 5);
    let other = ProjectionAttemptReservation::new(&intent, id_of(&intent), uuid(9));
    let attempts = [reservation.clone(), other.clone()];
    let authority = begin(&intent, Some(&reservation), snapshot(&intent, &attempts))
        .unwrap()
        .seal(Ok(b"authority".to_vec()))
        .unwrap();
    let mut existing = snapshot(&intent, &attempts);
    existing.existing = Ok(Some(left_behind(&authority)));
    assert_eq!(
        begin(&intent, Some(&other), existing),
        Err(ProjectionStoreError::MutationAuthorityPending)
    );
    assert_eq!(
        store().reserve_attempt(
            &intent,
            id_of(&intent),
            published(&intent, None),
            Ok(()),
            Some(uuid(9)),
            Ok(true),
            vec![attempt_entry(&reservation)],
        ),
        Err(ProjectionStoreError::MutationAuthorityPending)
    );
}

#[test]
fn an_authority_is_used_once_and_for_its_own_path() {
    let intent = intent_at("pages/once.md", None, b"- target\n");
    let reservation = reserve(&intent, 5);
    let mut authority = fresh_authority(&intent, &reservation);
    assert!(authority.require_consumed().is_err());
    assert!(authority.consume_write_evidence(Ok(()), &words(), "pages/else.md").is_err());
    assert_eq!(
        authority.consume_write_evidence(
            Err(ProjectionStoreError::MutationAuthorityMismatch),
            &words(),
            "pages/once.md"
        ),
        Err(IoFailure {
            kind: IoFailureKind::PermissionDenied,
            message: Reason::Reported(
                "projection mutation authority is no longer live: projection mutation authority \
                 does not match the durable operation"
                    .to_string()
            ),
            semantic_refusal: false,
        })
    );
    assert!(!authority.graph_operation_consumed);
    assert!(authority.consume_write_evidence(Ok(()), &words(), "pages/once.md").is_ok());
    assert!(authority.require_consumed().is_ok());
    assert!(!authority.removes_record_when_dropped());
    assert!(authority.consume_graph_operation(Ok(()), &words(), "pages/once.md").is_err());
    assert!(authority.consume_recovery_evidence(Ok(()), &words(), "pages/once.md").is_err());
}

#[test]
fn using_an_authority_leaves_its_completion_as_it_was() {
    let intent = intent_at("pages/once.md", None, b"- target\n");
    let reservation = reserve(&intent, 5);
    for published in [false, true] {
        let mut writing = fresh_authority(&intent, &reservation);
        writing.completion_published = published;
        writing.consume_write_evidence(Ok(()), &words(), "pages/once.md").unwrap();
        assert_eq!(writing.completion_published, published);
        let mut recovering = fresh_authority(&intent, &reservation);
        recovering.completion_published = published;
        recovering.consume_recovery_evidence(Ok(()), &words(), "pages/once.md").unwrap();
        assert_eq!(recovering.completion_published, published);
    }
}

#[test]
fn an_authority_that_is_no_longer_live_is_denied_in_words() {
    let denied = no_longer_live(
        ProjectionStoreError::MissingBase(BlobDescription::of(b"bytes")),
        &words(),
    );
    assert_eq!(denied.kind, IoFailureKind::PermissionDenied);
    assert_eq!(
        denied.message.message(),
        "projection mutation authority is no longer live: missing immutable projection base 5 bytes"
    );
}

#[test]
fn a_record_of_another_claim_or_base_is_not_resumed() {
    let intent = intent_at("pages/bound.md", None, b"- target\n");
    let reservation = reserve(&intent, 5);
    let authority = fresh_authority(&intent, &reservation);
    let mut changed = snapshot(&intent, &[reservation.clone()]);
    changed.claim = Ok(Some(b"another claim".to_vec()));
    changed.existing = Ok(Some(left_behind(&authority)));
    assert_eq!(
        begin(&intent, None, changed),
        Err(ProjectionStoreError::MutationAuthorityMismatch)
    );
    let mut unclaimed = snapshot(&intent, &[]);
    unclaimed.claim = Ok(None);
    assert_eq!(
        begin(&intent, None, unclaimed),
        Err(ProjectionStoreError::MalformedStoreClaim)
    );
    assert_eq!(
        begin(&intent, Some(&reservation), snapshot(&intent, &[])),
        Err(ProjectionStoreError::AttemptBindingMismatch)
    );
    let mut unencoded = snapshot(&intent, &[reservation.clone()]);
    unencoded.attempt_bytes = Err("full".to_string());
    assert_eq!(
        begin(&intent, None, unencoded),
        Err(ProjectionStoreError::Encode("full".to_string()))
    );
    let huge = vec![0; 67_108_865];
    assert_eq!(
        begin(&intent, None, snapshot(&intent, &[reservation])).unwrap().seal(Ok(huge)),
        Err(ProjectionStoreError::MutationAuthorityTooLarge {
            attempts: 1,
            bytes: 67_108_865,
        })
    );
}

#[test]
fn a_turn_authority_records_only_what_it_reserved() {
    let intent = intent_at("pages/turn.md", Some(b"- base\n"), b"- target\n");
    let id = id_of(&intent);
    let mut authority =
        ProjectionTurnMutationAuthority::for_current_turn(&intent, id, Some(uuid(5))).unwrap();
    assert!(authority.consume_graph_operation("pages/turn.md").is_ok());
    assert!(authority.consume_graph_operation("pages/turn.md").is_err());
    let displaced = displaced_evidence(&authority.reservation);
    let records = authority
        .cleanup_records(&intent, id, &proof_of(&intent, b"- target\n", vec![displaced.clone()]))
        .unwrap();
    assert_eq!(records.len(), 1);
    assert!(records[0].is_cleanup_bound());
    let mut unknown = displaced;
    unknown.filename = ".turn.md.0.projection.recovery".to_string();
    assert_eq!(
        authority.cleanup_records(&intent, id, &proof_of(&intent, b"- target\n", vec![unknown])),
        Err(ProjectionStoreError::UnreservedRecoveryEvidence)
    );
}

// What the files show while an authority is used.

fn live(authority: &ProjectionMutationAuthority, intent: &ProjectionIntent) -> LiveNames {
    let held = |label: &str| LiveDirectory::Opened(Ok(digest(label)));
    LiveNames {
        store_id: Ok(store_id("store")),
        claim: Ok(Some(b"claim".to_vec())),
        authority: Ok(Some(authority.durable_bytes.clone())),
        bases: held("bases"),
        intents: held("intents"),
        completions: held("completions"),
        attempts: held("attempts"),
        forensics: held("forensics"),
        retained: RetainedIdentities {
            bases: Ok(digest("bases")),
            completions: Ok(digest("completions")),
            intents: Ok(digest("intents")),
            attempts_parent: Ok(digest("attempts")),
            forensics_parent: Ok(digest("forensics")),
            attempts: Ok(digest("own attempts")),
            forensics: Ok(digest("own forensics")),
        },
        pending: Some(Ok(digest("pending"))),
        pending_retained: Ok(digest("pending")),
        intent: Ok(Some(encode_intent(intent))),
        base: Ok(None),
        entries: authority
            .reservations
            .iter()
            .map(|reservation| LiveAttempt {
                name: Some(attempt_filename(reservation.attempt_id())),
                kind: EntryKind::File,
                bytes: Ok(Some(encode_reservation(reservation))),
            })
            .collect(),
        intent_attempts: held("own attempts"),
        intent_forensics: held("own forensics"),
    }
}

#[test]
fn authority_or_attempt_change_after_validation_denies_before_graph_mutation() {
    let intent = intent_at("pages/live.md", None, b"- target\n");
    let reservation = reserve(&intent, 5);
    let authority = fresh_authority(&intent, &reservation);
    assert!(authority.validate_live_names(live(&authority, &intent)).is_ok());

    let mut removed = live(&authority, &intent);
    removed.authority = Ok(None);
    assert!(authority.validate_live_names(removed).is_err());
    let mut changed = live(&authority, &intent);
    changed.entries[0].bytes = Ok(Some(b"changed".to_vec()));
    assert!(authority.validate_live_names(changed).is_err());
    let mut added = live(&authority, &intent);
    added.entries.push(LiveAttempt {
        name: Some(attempt_filename(uuid(99))),
        kind: EntryKind::File,
        bytes: Ok(Some(b"added".to_vec())),
    });
    assert!(authority.validate_live_names(added).is_err());
}

#[test]
fn store_claim_or_intent_delete_or_substitute_after_capture_denies_before_mutation() {
    let intent = intent_at("pages/live.md", None, b"- target\n");
    let reservation = reserve(&intent, 5);
    let authority = fresh_authority(&intent, &reservation);
    let mut no_claim = live(&authority, &intent);
    no_claim.claim = Ok(None);
    assert_eq!(
        authority.validate_live_names(no_claim),
        Err(ProjectionStoreError::MalformedStoreClaim)
    );
    let mut other_claim = live(&authority, &intent);
    other_claim.claim = Ok(Some(b"other".to_vec()));
    assert!(authority.validate_live_names(other_claim).is_err());
    let mut no_intent = live(&authority, &intent);
    no_intent.intent = Ok(None);
    assert_eq!(
        authority.validate_live_names(no_intent),
        Err(ProjectionStoreError::MissingIntent(id_of(&intent)))
    );
    let mut other_intent = live(&authority, &intent);
    other_intent.intent = Ok(Some(b"other".to_vec()));
    assert!(authority.validate_live_names(other_intent).is_err());
}

#[test]
fn every_top_level_receipt_namespace_fails_closed_after_deletion_or_copy_replacement() {
    let intent = intent_at("pages/live.md", None, b"- target\n");
    let reservation = reserve(&intent, 5);
    let authority = fresh_authority(&intent, &reservation);
    for namespace in ["bases", "intents", "completions", "attempts", "forensics"] {
        for replacement in [
            LiveDirectory::Unopened("gone".to_string()),
            LiveDirectory::Opened(Ok(digest("copy"))),
        ] {
            let mut names = live(&authority, &intent);
            match namespace {
                "bases" => names.bases = replacement,
                "intents" => names.intents = replacement,
                "completions" => names.completions = replacement,
                "attempts" => names.attempts = replacement,
                _ => names.forensics = replacement,
            }
            assert!(
                matches!(
                    authority.validate_live_names(names),
                    Err(ProjectionStoreError::NamespaceSubstitution(_))
                ),
                "{namespace}"
            );
        }
        assert_eq!(
            store().namespace_identity(&namespace.to_string()),
            Ok(digest(namespace))
        );
    }
    let mut names = live(&authority, &intent);
    names.intent_attempts = LiveDirectory::Opened(Ok(digest("copy")));
    assert!(matches!(
        authority.validate_live_names(names),
        Err(ProjectionStoreError::NamespaceSubstitution(_))
    ));
}

// Evidence and completions.

fn displaced_evidence(reservation: &ProjectionAttemptReservation) -> ProjectionRecoveryEvidence {
    ProjectionRecoveryEvidence {
        path: reservation.target_path().sibling(reservation.recovery_filename()),
        filename: reservation.recovery_filename().to_string(),
        digest: BlobDescription::of(b"- base\n").sha256(),
        len: 7,
        resource_id: Some(ContentDigest::from_digest(digest("inode"))),
    }
}

fn proof_of(
    intent: &ProjectionIntent,
    bytes: &[u8],
    recovery_evidence: Vec<ProjectionRecoveryEvidence>,
) -> ProjectionWriteProof {
    ProjectionWriteProof {
        path: intent.path().as_str().to_string(),
        digest: Digest::of(bytes),
        bytes: bytes.to_vec(),
        recovery_evidence,
    }
}

#[test]
fn canonical_v1_forensic_evidence_decodes_but_never_authorizes_cleanup() {
    let intent = intent_at("pages/v1.md", None, b"- target\n");
    let id = id_of(&intent);
    let reservation = reserve(&intent, 5);
    let record = LocalProjectionEvidenceRecord {
        schema_version: 1,
        intent_id: id,
        attempt_id: reservation.attempt_id(),
        target_path: intent.path().clone(),
        recovery_relative_path: intent.path().sibling(reservation.recovery_filename()),
        recovery_filename: reservation.recovery_filename().to_string(),
        recovery_resource_id: None,
        observed: BlobDescription::of(b"- base\n"),
    };
    let bytes = b"v1".to_vec();
    let entry = EvidenceEntry {
        name: Some(format!("{}.evidence", Digest::of(&bytes).to_hex())),
        kind: EntryKind::File,
        stored: Ok(Some(StoredRecord {
            bytes: bytes.clone(),
            decoded: Ok(record.clone()),
            encoded: Ok(bytes.clone()),
        })),
        attempts: Ok(vec![reservation.clone()]),
    };
    let loaded = store()
        .local_forensic_evidence(&intent, id, published(&intent, None), vec![entry])
        .unwrap();
    assert_eq!(loaded, vec![record.clone()]);
    assert!(!loaded[0].is_cleanup_bound());

    let mut bound = record.clone();
    bound.recovery_resource_id = Some(ContentDigest::from_digest(digest("inode")));
    assert!(!bound.has_valid_version());
    assert!(decode_local_forensic_record(&bytes, Ok(bound), Ok(bytes.clone())).is_err());
    let misnamed = EvidenceEntry {
        name: Some(format!("{}.evidence", digest("other").to_hex())),
        kind: EntryKind::File,
        stored: Ok(Some(StoredRecord {
            bytes: bytes.clone(),
            decoded: Ok(record),
            encoded: Ok(bytes),
        })),
        attempts: Ok(vec![reservation]),
    };
    assert!(list_forensic_evidence(&intent, id, vec![misnamed]).is_err());
}

#[test]
fn completion_removes_only_its_matching_authority_slot() {
    let intent = intent_at("pages/complete.md", None, b"- target\n");
    let id = id_of(&intent);
    let reservation = reserve(&intent, 5);
    let mut authority = fresh_authority(&intent, &reservation);
    authority.consume_write_evidence(Ok(()), &words(), "pages/complete.md").unwrap();
    let displaced = displaced_evidence(&reservation);
    let (mut run, first) = CompletionRun::publish_completion(
        authority,
        &store().binding(),
        intent.clone(),
        id,
        Ok(encode_intent(&intent)),
        proof_of(&intent, b"- target\n", vec![displaced]),
    );
    assert_eq!(first, CompletionAction::CheckLive);
    let marked = match run.advance(CompletionEvent::Live(Ok(()))) {
        CompletionAction::PublishMarker(record) => record,
        other => panic!("no marker was published: {other:?}"),
    };
    assert_eq!(
        run.advance(CompletionEvent::Published(Ok(()))),
        CompletionAction::PublishEvidence(marked)
    );
    let completion = completion_of(&intent, b"- target\n");
    assert_eq!(
        run.advance(CompletionEvent::Published(Ok(()))),
        CompletionAction::Encode(completion)
    );
    assert_eq!(
        run.advance(CompletionEvent::Encoded(Ok(b"completion".to_vec()))),
        CompletionAction::PublishCompletion(completion_filename(id))
    );
    assert_eq!(
        run.advance(CompletionEvent::Published(Ok(()))),
        CompletionAction::CheckLive
    );
    assert!(!run.authority.completion_published);
    assert_eq!(
        run.advance(CompletionEvent::Live(Ok(()))),
        CompletionAction::RetireAuthority
    );
    assert!(run.authority.removes_record_when_dropped());
    assert_eq!(
        run.advance(CompletionEvent::Retired(Ok(()))),
        CompletionAction::Finish(Ok(completion))
    );
}

#[test]
fn root_authority_removal_before_completion_publication_preserves_recovery() {
    let intent = intent_at("pages/complete.md", None, b"- target\n");
    let id = id_of(&intent);
    let reservation = reserve(&intent, 5);
    let mut authority = fresh_authority(&intent, &reservation);
    authority.consume_write_evidence(Ok(()), &words(), "pages/complete.md").unwrap();
    let (mut run, _) = CompletionRun::publish_completion(
        authority,
        &store().binding(),
        intent.clone(),
        id,
        Ok(encode_intent(&intent)),
        proof_of(&intent, b"- target\n", Vec::new()),
    );
    assert_eq!(
        run.advance(CompletionEvent::Live(Err(
            ProjectionStoreError::MutationAuthorityMismatch
        ))),
        CompletionAction::Finish(Err(ProjectionStoreError::MutationAuthorityMismatch))
    );
    assert!(!run.authority.removes_record_when_dropped());
}

#[test]
fn a_completion_needs_a_used_authority_and_the_written_bytes() {
    let intent = intent_at("pages/complete.md", None, b"- target\n");
    let id = id_of(&intent);
    let reservation = reserve(&intent, 5);
    let (_, unused) = CompletionRun::publish_completion(
        fresh_authority(&intent, &reservation),
        &store().binding(),
        intent.clone(),
        id,
        Ok(encode_intent(&intent)),
        proof_of(&intent, b"- target\n", Vec::new()),
    );
    assert_eq!(
        unused,
        CompletionAction::Finish(Err(ProjectionStoreError::MutationAuthorityMismatch))
    );
    let mut authority = fresh_authority(&intent, &reservation);
    authority.consume_write_evidence(Ok(()), &words(), "pages/complete.md").unwrap();
    let (mut run, _) = CompletionRun::publish_completion(
        authority,
        &store().binding(),
        intent.clone(),
        id,
        Ok(encode_intent(&intent)),
        proof_of(&intent, b"- other\n", Vec::new()),
    );
    assert_eq!(
        run.advance(CompletionEvent::Live(Ok(()))),
        CompletionAction::Finish(Err(ProjectionStoreError::WriteProofMismatch))
    );
    let mut authority = fresh_authority(&intent, &reservation);
    authority.consume_recovery_evidence(Ok(()), &words(), "pages/complete.md").unwrap();
    let (_, replayed) = CompletionRun::reconstruct_completion(
        authority,
        &store().binding(),
        intent.clone(),
        id,
        Ok(encode_intent(&intent)),
        b"- other\n",
        proof_of(&intent, b"- target\n", Vec::new()),
    );
    assert_eq!(
        replayed,
        CompletionAction::Finish(Err(ProjectionStoreError::RecoveryTargetMismatch))
    );
}

#[test]
fn recovery_evidence_is_published_only_for_the_reserved_file() {
    let intent = intent_at("pages/evidence.md", None, b"- target\n");
    let id = id_of(&intent);
    let reservation = reserve(&intent, 5);
    let evidence = displaced_evidence(&reservation);
    let record = publish_recovery_evidence(id, &reservation, &evidence).unwrap();
    assert_eq!(record.observed(), BlobDescription::of(b"- base\n"));
    assert_eq!(
        record.pending_cleanup_filename(),
        format!("{}.{}.cleanup", id.digest().to_hex(), uuid(5).simple())
    );
    let mut other = evidence;
    other.filename = "other".to_string();
    assert!(publish_recovery_evidence(id, &reservation, &other).is_err());
}

#[test]
fn a_marker_is_of_a_record_that_may_be_cleaned_up() {
    let intent = intent_at("pages/evidence.md", None, b"- target\n");
    let reservation = reserve(&intent, 5);
    let record =
        publish_recovery_evidence(id_of(&intent), &reservation, &displaced_evidence(&reservation))
            .unwrap();
    let marker = PendingProjectionCleanupMarker::new(record.clone());
    assert!(marker.validate(Ok(b"record")).is_ok());
    let mut unbound = record;
    unbound.recovery_resource_id = None;
    let unbound = PendingProjectionCleanupMarker::new(unbound);
    assert_eq!(
        unbound.validate(Ok(b"record")),
        Err(ProjectionStoreError::ForensicBindingMismatch)
    );
    let parsed = ParsedMarker {
        decoded: Ok(marker),
        evidence_bytes: Ok(b"record".to_vec()),
        encoded: Ok(b"marker".to_vec()),
    };
    assert!(tine_projection::evidence::decode_pending_cleanup_marker(b"marker", parsed).is_ok());
}

#[test]
fn a_captured_file_is_what_the_last_completion_wrote() {
    let intent = intent_at("pages/captured.md", None, b"- target\n");
    let completion = completion_of(&intent, b"- target\n");
    let capture = |current: Option<&[u8]>, prior: Option<ProjectionIntent>| {
        store()
            .capture_projection_input(
                endpoint(),
                Ok(endpoint().graph_resource_id()),
                path("pages/captured.md"),
                Ok(current.map(<[u8]>::to_vec)),
                prior,
                Ok(Some(completion)),
            )
            .map(|input| input.state)
    };
    assert_eq!(capture(None, None), Ok(CapabilityCapturedProjectionState::Absent));
    assert_eq!(
        capture(Some(b"- target\n"), Some(intent.clone())),
        Ok(CapabilityCapturedProjectionState::Present {
            bytes: b"- target\n".to_vec(),
            prior_intent: intent.clone(),
            prior_completion: completion,
        })
    );
    assert_eq!(
        capture(Some(b"- edited\n"), Some(intent.clone())),
        Err(ProjectionStoreError::CapturedInputMismatch)
    );
    assert_eq!(
        capture(Some(b"- target\n"), None),
        Err(ProjectionStoreError::MissingPriorCompletion)
    );
    assert_eq!(
        store()
            .capture_projection_input(
                endpoint(),
                Ok(CanonicalGraphResourceId::from_digest(digest("other graph"))),
                path("pages/captured.md"),
                Ok(None),
                None,
                Ok(None),
            )
            .map(|_| ()),
        Err(ProjectionStoreError::GraphResourceMismatch)
    );
}

// Single files.

fn facts(bytes: &[u8]) -> FileFacts {
    FileFacts {
        is_file: true,
        single_link: true,
        reparse_point: false,
        length: bytes.len() as u64,
        bytes: Ok(bytes.to_vec()),
    }
}

#[test]
fn completed_hardlinked_slot_fails_closed_without_removal() {
    let name = "slot".to_string();
    let mut linked = facts(b"authority");
    linked.single_link = false;
    assert!(matches!(
        read_optional_mutation_authority(&name, OpenedFile::Opened(linked), None),
        Err(ProjectionStoreError::UnsafeEntry(_))
    ));
    assert_eq!(
        read_optional_mutation_authority(&name, OpenedFile::Opened(facts(b"authority")), None),
        Ok(Some(b"authority".to_vec()))
    );
    assert_eq!(
        read_optional_mutation_authority(&name, OpenedFile::Opened(facts(b"authority")), Some(4)),
        Err(ProjectionStoreError::MutationAuthorityMismatch)
    );
    assert_eq!(
        read_optional_mutation_authority(&name, OpenedFile::Missing, None),
        Ok(None)
    );
    assert_eq!(
        remove_mutation_authority_if_exact(Ok(Some(b"authority".to_vec())), b"authority"),
        Ok(true)
    );
    assert_eq!(
        remove_mutation_authority_if_exact(Ok(Some(b"other".to_vec())), b"authority"),
        Err(ProjectionStoreError::MutationAuthorityMismatch)
    );
    assert!(require_replaceable(Ok(Some(b"old".to_vec())), b"old", b"new").is_ok());
    assert!(require_replaceable(Ok(None), b"old", b"new").is_err());
}

#[test]
fn reservation_lease_blocks_competing_begin_until_release() {
    let name = "lease".to_string();
    assert_eq!(
        acquire_mutation_lease(&name, LeaseAttempt::Contended),
        Err(ProjectionStoreError::MutationAuthorityPending)
    );
    let held = LeaseFile {
        is_file: true,
        single_link: true,
        reparse_point: false,
    };
    assert_eq!(acquire_mutation_lease(&name, LeaseAttempt::Locked(held)), Ok(()));
    assert!(matches!(
        acquire_mutation_lease(
            &name,
            LeaseAttempt::Locked(LeaseFile {
                single_link: false,
                ..held
            })
        ),
        Err(ProjectionStoreError::UnsafeEntry(_))
    ));

    let intent = intent_at("pages/leased.md", None, b"- target\n");
    let id = id_of(&intent);
    let reservation = reserve(&intent, 5);
    let contended = || acquire_mutation_lease(&name, LeaseAttempt::Contended);
    for active in [None, Some(reservation.clone())] {
        assert_eq!(
            store().begin_mutation(
                &intent,
                id,
                published(&intent, None),
                contended(),
                active,
                Ok(reservation.clone()),
                snapshot(&intent, &[reservation.clone()]),
            ),
            Err(ProjectionStoreError::MutationAuthorityPending)
        );
    }
    assert_eq!(
        store().reserve_attempt(
            &intent,
            id,
            published(&intent, None),
            contended(),
            Some(uuid(5)),
            Ok(false),
            Vec::new(),
        ),
        Err(ProjectionStoreError::MutationAuthorityPending)
    );
    assert_eq!(
        reconcile_completed_mutation(
            &store().binding(),
            &intent,
            id,
            contended(),
            snapshot(&intent, &[])
        ),
        Err(ProjectionStoreError::MutationAuthorityPending)
    );
    let retry = begin(&intent, Some(&reservation), snapshot(&intent, &[reservation.clone()]));
    assert!(matches!(
        retry,
        Ok(MutationStart::Fresh { active: Some(active), .. }) if active == reservation
    ));
}

#[test]
fn an_attempt_is_reserved_for_a_recovery_only_where_nothing_names_one() {
    let intent = intent_at("pages/recovery.md", None, b"- target\n");
    let id = id_of(&intent);
    let reservation = reserve(&intent, 5);
    assert!(reserves_recovery_attempt(&None, false));
    assert!(!reserves_recovery_attempt(&None, true));
    assert!(!reserves_recovery_attempt(&Some(reservation.clone()), false));
    assert!(!reserves_recovery_attempt(&Some(reservation.clone()), true));

    let refused = || Err(ProjectionStoreError::MissingTurnAttemptContext);
    let begin_with = |active: Option<ProjectionAttemptReservation>, snapshot: MutationSnapshot| {
        store().begin_mutation(
            &intent,
            id,
            published(&intent, None),
            Ok(()),
            active,
            refused(),
            snapshot,
        )
    };
    let held = snapshot(&intent, &[reservation.clone()]);
    assert_eq!(
        begin_with(None, held),
        Err(ProjectionStoreError::MissingTurnAttemptContext)
    );
    let held = snapshot(&intent, &[reservation.clone()]);
    assert!(matches!(
        begin_with(Some(reservation.clone()), held),
        Ok(MutationStart::Fresh { .. })
    ));
    let mut left = snapshot(&intent, &[reservation.clone()]);
    left.existing = Ok(Some(left_behind(&fresh_authority(&intent, &reservation))));
    assert!(matches!(
        begin_with(None, left),
        Ok(MutationStart::Resumed { active: Some(active), .. }) if active == reservation
    ));

    let unpublished = PublishedIntent {
        stored: Ok(None),
        base: Ok(None),
    };
    assert!(store()
        .begin_mutation(
            &intent,
            id,
            unpublished,
            Ok(()),
            None,
            Ok(reservation.clone()),
            snapshot(&intent, &[reservation]),
        )
        .is_err());
}

#[test]
fn a_snapshot_is_refused_by_the_first_reading_that_failed() {
    let intent = intent_at("pages/reading.md", None, b"- target\n");
    let reservation = reserve(&intent, 5);
    let fault = |label: &str| ProjectionStoreError::Decode(label.to_string());
    let broken = |from: usize| {
        let mut broken = snapshot(&intent, &[reservation.clone()]);
        broken.forensics_identity = Err(fault("forensics identity"));
        if from <= 6 {
            broken.attempts_identity = Err(fault("attempts identity"));
        }
        if from <= 5 {
            broken.base = Err(fault("base"));
        }
        if from <= 4 {
            broken.intent_bytes = Err(ReceiptError::Codec("intent".to_string()));
        }
        if from <= 3 {
            broken.attempt_bytes = Err("encoding".to_string());
        }
        if from <= 2 {
            broken.attempts = Err(fault("attempts"));
        }
        if from <= 1 {
            broken.claim = Err(fault("claim"));
        }
        if from == 0 {
            broken.existing = Err(fault("record"));
        }
        broken
    };
    let expected = [
        fault("record"),
        fault("claim"),
        fault("attempts"),
        ProjectionStoreError::Encode("encoding".to_string()),
        ProjectionStoreError::Receipt(ReceiptError::Codec("intent".to_string())),
        fault("attempts identity"),
        fault("attempts identity"),
        fault("forensics identity"),
    ];
    for (from, expected) in expected.into_iter().enumerate() {
        assert_eq!(begin(&intent, Some(&reservation), broken(from)), Err(expected));
    }
}

#[test]
fn a_resumed_retirement_still_retires_its_recovery_file() {
    let intent = intent_at("pages/resumed.md", Some(b"- base\n"), b"- target\n");
    let id = id_of(&intent);
    let published_intent = || published(&intent, Some(b"- base\n"));
    let reserved = store()
        .reserve_attempt(
            &intent,
            id,
            published_intent(),
            Ok(()),
            Some(uuid(5)),
            Ok(false),
            Vec::new(),
        )
        .unwrap();
    let AttemptChoice::New(reservation) = reserved else {
        panic!("nothing was reserved before");
    };
    let read = |existing: Option<StoredAuthority>| MutationSnapshot {
        existing: Ok(existing),
        base: Ok(Some(b"- base\n".to_vec())),
        ..snapshot(&intent, &[reservation.clone()])
    };
    let begin_again = |active: Option<ProjectionAttemptReservation>, snapshot: MutationSnapshot| {
        store()
            .begin_mutation(
                &intent,
                id,
                published_intent(),
                Ok(()),
                active,
                Err(ProjectionStoreError::MissingTurnAttemptContext),
                snapshot,
            )
            .unwrap()
    };
    let crashed = begin_again(Some(reservation.clone()), read(None))
        .seal(Ok(b"authority".to_vec()))
        .unwrap();
    let mut resumed = begin_again(None, read(Some(left_behind(&crashed))))
        .seal(Err("not encoded again".to_string()))
        .unwrap();
    assert_eq!(resumed.active, Some(reservation.clone()));
    resumed.consume_write_evidence(Ok(()), &words(), "pages/resumed.md").unwrap();
    let (mut run, first) = CompletionRun::publish_completion(
        resumed,
        &store().binding(),
        intent.clone(),
        id,
        Ok(encode_intent(&intent)),
        proof_of(&intent, b"- target\n", vec![displaced_evidence(&reservation)]),
    );
    assert_eq!(first, CompletionAction::CheckLive);
    let CompletionAction::PublishMarker(record) = run.advance(CompletionEvent::Live(Ok(()))) else {
        panic!("no marker was published");
    };
    assert_eq!(
        run.advance(CompletionEvent::Published(Ok(()))),
        CompletionAction::PublishEvidence(record.clone())
    );
    run.advance(CompletionEvent::Published(Ok(())));
    run.advance(CompletionEvent::Encoded(Ok(b"completion".to_vec())));
    run.advance(CompletionEvent::Published(Ok(())));
    assert_eq!(
        run.advance(CompletionEvent::Live(Ok(()))),
        CompletionAction::RetireAuthority
    );
    assert_eq!(
        run.advance(CompletionEvent::Retired(Ok(()))),
        CompletionAction::Finish(Ok(completion_of(&intent, b"- target\n")))
    );

    let bytes = format!("{record:?}").into_bytes();
    let entry = EvidenceEntry {
        name: Some(format!("{}.evidence", Digest::of(&bytes).to_hex())),
        kind: EntryKind::File,
        stored: Ok(Some(StoredRecord {
            bytes: bytes.clone(),
            decoded: Ok(record.clone()),
            encoded: Ok(bytes.clone()),
        })),
        attempts: Ok(vec![reservation.clone()]),
    };
    let records = store()
        .local_forensic_evidence(&intent, id, published_intent(), vec![entry])
        .unwrap();
    assert_eq!(records, vec![record.clone()]);
    assert!(records[0].is_cleanup_bound());
    assert_eq!(records[0].recovery_filename, reservation.recovery_filename());
    assert_eq!(
        records[0].recovery_relative_path,
        format!("pages/{}", reservation.recovery_filename())
    );

    let (mut pass, first) = RetirePass::start(Some(id), vec![id]);
    assert_eq!(first, RetireAction::LoadCompletion(0));
    assert_eq!(
        pass.advance(RetireEvent::Completion(Ok(true))),
        RetireAction::RetireFile(0)
    );
    assert_eq!(
        pass.advance(RetireEvent::File(Ok(()))),
        RetireAction::RetireRecord(0)
    );
    let marker = Some(b"marker".to_vec());
    let parsed = ParsedMarker {
        decoded: Ok(PendingProjectionCleanupMarker::new(record.clone())),
        evidence_bytes: Ok(bytes),
        encoded: Ok(b"marker".to_vec()),
    };
    let retired = retire_pending_projection_cleanup(&record, None, marker, parsed).unwrap();
    assert_eq!(retired.round, Round::Second);
    assert_eq!(
        pass.advance(RetireEvent::Record(Ok(()))),
        RetireAction::Finish(Ok(()))
    );
}

#[test]
fn incomplete_is_published_less_completed() {
    let intents: Vec<ProjectionIntent> = ["pages/a.md", "pages/b.md", "pages/c.md"]
        .into_iter()
        .map(|path| intent_at(path, None, b"- target\n"))
        .collect();
    let entries = || intents.iter().rev().map(|intent| intent_entry(intent, None)).collect();
    let done = completion_of(&intents[1], b"- target\n");
    let mut expected = vec![intents[0].clone(), intents[2].clone()];
    expected.sort_by_key(|intent| id_of(intent).digest().to_hex());
    assert_eq!(
        store().incomplete_intents(entries(), vec![completion_entry(&done)]),
        Ok(expected)
    );
    let all = intents
        .iter()
        .map(|intent| completion_entry(&completion_of(intent, b"- target\n")))
        .collect();
    assert_eq!(store().incomplete_intents(entries(), all), Ok(Vec::new()));
}

#[test]
fn a_receipt_is_read_whole_or_not_at_all() {
    let name = "receipt".to_string();
    let opened = |length: u64, bytes: &[u8]| ReceiptFile::Opened {
        is_file: true,
        length,
        bytes: Ok(bytes.to_vec()),
    };
    assert_eq!(
        read_optional_regular(&name, opened(3, b"abc"), 10, Some(3)),
        Ok(Some(b"abc".to_vec()))
    );
    assert_eq!(read_optional_regular(&name, ReceiptFile::Missing, 10, None), Ok(None));
    assert_eq!(
        read_optional_regular(&name, opened(3, b"abc"), 10, Some(4)),
        Err(StoreFault::StoredLengthMismatch {
            path: name.clone(),
            expected: 4,
            actual: 3,
        })
    );
    assert_eq!(
        read_optional_regular(&name, opened(3, b"abc"), 2, None),
        Err(StoreFault::StoredFileTooLarge {
            path: name.clone(),
            length: 3,
            limit: 2,
        })
    );
    assert_eq!(
        read_optional_regular(&name, opened(3, b"ab"), 10, None),
        Err(StoreFault::StoredLengthMismatch {
            path: name,
            expected: 3,
            actual: 2,
        })
    );
}

#[test]
fn a_file_is_published_only_where_its_name_is_free() {
    let start = || {
        PublicationRun::new(
            "name".to_string(),
            b"bytes",
            "projection intent",
            ReceiptDirectoryDurability::PrePromotionBootstrap,
        )
    };
    let mut run = start();
    assert_eq!(run.asks(), PublicationAction::ReadExisting);
    assert_eq!(
        run.advance(PublicationEvent::Existing(Ok(None))),
        PublicationAction::CreateTemporary
    );
    assert_eq!(
        run.advance(PublicationEvent::Outcome(Ok(()))),
        PublicationAction::WriteTemporary
    );
    assert_eq!(
        run.advance(PublicationEvent::Outcome(Ok(()))),
        PublicationAction::ReadExisting
    );
    let mut action = run.advance(PublicationEvent::Existing(Ok(None)));
    if action == PublicationAction::BeginMutation {
        action = run.advance(PublicationEvent::Outcome(Ok(())));
    }
    assert_eq!(action, PublicationAction::Rename);
    assert_eq!(
        run.advance(PublicationEvent::Outcome(Ok(()))),
        PublicationAction::SyncDirectory(ReceiptDirectoryDurability::PrePromotionBootstrap)
    );
    assert_eq!(
        run.advance(PublicationEvent::Outcome(Ok(()))),
        PublicationAction::ReadExisting
    );
    assert_eq!(
        run.advance(PublicationEvent::Existing(Ok(Some(b"bytes".to_vec())))),
        PublicationAction::RemoveTemporary
    );
    assert_eq!(
        run.advance(PublicationEvent::Removed(Err(failure(IoFailureKind::NotFound)))),
        PublicationAction::Succeeded
    );

    let mut taken = start();
    assert_eq!(
        taken.advance(PublicationEvent::Existing(Ok(Some(b"other".to_vec())))),
        PublicationAction::Failed
    );
    assert_eq!(
        taken.fault,
        Some(StoreFault::ImmutableCollision("projection intent"))
    );
}

#[test]
fn a_publication_that_is_gone_again_is_lost() {
    let mut run = PublicationRun::new(
        "name".to_string(),
        b"bytes",
        "projection intent",
        ReceiptDirectoryDurability::PrePromotionBootstrap,
    );
    let mut action = run.asks();
    let mut renamed = false;
    while action != PublicationAction::RemoveTemporary {
        renamed = renamed || action == PublicationAction::Rename;
        action = run.advance(match action {
            PublicationAction::ReadExisting => PublicationEvent::Existing(Ok(None)),
            _ => PublicationEvent::Outcome(Ok(())),
        });
    }
    assert!(renamed);
    assert_eq!(
        run.advance(PublicationEvent::Removed(Err(failure(IoFailureKind::NotFound)))),
        PublicationAction::Failed
    );
    let lost = run.fault.take().unwrap();
    match &lost {
        StoreFault::Io(failure) => assert_eq!(failure.kind, IoFailureKind::NotFound),
        other => panic!("the publication was not lost: {other:?}"),
    }
    assert_eq!(
        ProjectionStoreError::from_storage(lost).message(&words()),
        "Android private immutable publication lost name"
    );
}

#[test]
fn an_error_is_written_with_the_words_of_its_host() {
    let upgrade = ProjectionStoreError::UpgradeRequired {
        found: 5,
        current: 6,
    };
    assert_eq!(
        upgrade.message(&words()),
        "projection receipt store version 5 requires upgrade to 6: this pre-0.7 private state \
         must be backed up and rebuilt from the intact Markdown/Org tree by the graph-open \
         lifecycle [outdated-store]"
    );
    assert_eq!(upgrade.described(), None);
    let description = BlobDescription::of(b"bytes");
    let missing = ProjectionStoreError::MissingBase(description);
    assert_eq!(missing.described(), Some(description));
    assert_eq!(missing.message(&words()), "missing immutable projection base 5 bytes");
    let mismatched = ProjectionStoreError::BaseEvidenceMismatch(description).at("load base");
    assert_eq!(mismatched.described(), Some(description));
    assert_eq!(
        mismatched.message(&words()),
        "load base: projection base evidence mismatch for 5 bytes"
    );
}

#[test]
fn android_promoted_receipt_revalidates_an_existing_parent_after_process_restart() {
    let identity = AndroidReceiptDirectoryIdentity {
        device: 17,
        inode: 29,
    };
    let mut first_process = AndroidReceiptBarrierState::new();
    first_process
        .record_mutation_barrier(identity, || Err::<(), _>("refused"))
        .unwrap_err();

    let mut next_process = AndroidReceiptBarrierState::new();
    let barriers = Cell::new(0);
    for _ in 0..2 {
        next_process
            .verify_existing(identity, || {
                barriers.set(barriers.get() + 1);
                Ok::<(), &str>(())
            })
            .unwrap();
        assert_eq!(
            barriers.get(),
            1,
            "one successful parent barrier covers later exact names in that process"
        );
    }
}

#[test]
fn a_refused_barrier_never_marks_the_parent_verified() {
    let identity = AndroidReceiptDirectoryIdentity {
        device: 31,
        inode: 37,
    };
    let mut state = AndroidReceiptBarrierState::new();
    let barriers = Cell::new(0);
    state
        .verify_existing(identity, || {
            barriers.set(barriers.get() + 1);
            Err("refused")
        })
        .unwrap_err();
    assert!(!state.is_verified(identity));
    state
        .verify_existing(identity, || {
            barriers.set(barriers.get() + 1);
            Ok::<(), &str>(())
        })
        .unwrap();
    assert_eq!(barriers.get(), 2);
    assert!(state.is_verified(identity));
    state.begin_mutation(identity);
    assert!(!state.is_verified(identity));
    state.finish_mutation_barrier(identity, || Ok::<(), &str>(())).unwrap();
    assert!(state.is_verified(identity));
}

#[test]
fn store_faults_have_their_words() {
    let error = ProjectionStoreError::WorkspaceMismatch {
        expected: workspace(1),
        found: workspace(2),
    };
    assert!(error.message(&words()).contains("00000000-0000-0000-0000-000000000001"));
    assert_eq!(
        ProjectionStoreError::from_storage(StoreFault::Io(failure(IoFailureKind::NotFound))),
        ProjectionStoreError::Store(StoreFault::Io(failure(IoFailureKind::NotFound)))
    );
    assert_eq!(
        ProjectionStoreError::from_storage(StoreFault::Io(failure(IoFailureKind::InvalidData))),
        ProjectionStoreError::Io(failure(IoFailureKind::InvalidData))
    );
    assert_eq!(
        ProjectionStoreError::UnexpectedBase.at("publish"),
        ProjectionStoreError::Operation {
            operation: EntryFault::Own("publish"),
            source: Box::new(ProjectionStoreError::UnexpectedBase),
        }
    );
}

#[test]
fn a_store_binding_is_all_that_an_authority_binds() {
    let binding: StoreBinding = store().binding();
    assert_eq!(binding.store_id, store().store_id());
    assert_eq!(binding.endpoint, store().endpoint_binding());
    assert_eq!(store().root_path(), "/receipts");
    assert!(store().require_endpoint(endpoint()).is_ok());
    let mut other = endpoint();
    other.device_id = DeviceId::from_uuid(uuid(99));
    assert_eq!(
        store().require_endpoint(other),
        Err(ProjectionStoreError::EndpointBindingMismatch)
    );
}
