//! Forensic evidence: what a projection displaced, and the marks that it is still to be cleaned up.

use vstd::prelude::*;

use crate::attempts::{
    find_attempt, first_attempt, EntryKind, ProjectionAttemptReservation,
};
use crate::bytes::same_bytes;
use crate::hash::{BlobDescription, Digest};
use crate::ids::{simple_text, ContentDigest, ProjectionIntentId, Uuid};
use crate::intent::{ProjectionIntent, ProjectionIntentView};
use crate::names::{
    evidence_name, is_evidence_name, is_temp_name, name_evidence, names_temp,
    require_canonical_evidence_name, PENDING_CLEANUP_SUFFIX,
};
use crate::path::{sibling, ManagedPath, ManagedPathView};
use crate::store_error::{EntryFault, IoFailure, IoFailureKind, ProjectionStoreError, Reason};
use crate::text::{hex_text, same_text};

verus! {

/// The version of forensic records.
pub const LOCAL_FORENSIC_SCHEMA_VERSION: u32 = 2;

/// The version of forensic records before records named the displaced file.
pub const PRIOR_LOCAL_FORENSIC_SCHEMA_VERSION: u32 = 1;

/// The version of cleanup marks.
pub const PENDING_CLEANUP_MARKER_SCHEMA_VERSION: u32 = 1;

/// The version of observations in cleanup marks.
pub const PENDING_CLEANUP_OBSERVATION_SCHEMA_VERSION: u32 = 1;

/// How long a piece of evidence may be.
pub const MAX_PROJECTION_EVIDENCE_BYTES: u64 = 67_108_864;

/// Whether a declared length is within a limit, and if not, why.
pub open spec fn length_check(kind: &'static str, declared: u64, limit: u64) -> Result<
    (),
    ProjectionStoreError,
> {
    if declared > limit {
        Err(ProjectionStoreError::EvidenceTooLarge { kind, declared, limit })
    } else {
        Ok(())
    }
}

/// Checks that a declared length is within a limit.
pub fn require_evidence_length(kind: &'static str, declared: u64, limit: u64) -> (checked: Result<
    (),
    ProjectionStoreError,
>)
    ensures
        checked == length_check(kind, declared, limit),
{
    if declared > limit {
        return Err(ProjectionStoreError::EvidenceTooLarge { kind, declared, limit });
    }
    Ok(())
}

/// What a projection displaced.
#[derive(Clone, Debug, PartialEq, Eq)]
pub struct LocalProjectionEvidenceRecord {
    pub schema_version: u32,
    pub intent_id: ProjectionIntentId,
    pub attempt_id: Uuid,
    pub target_path: ManagedPath,
    pub recovery_relative_path: String,
    pub recovery_filename: String,
    pub recovery_resource_id: Option<ContentDigest>,
    pub observed: BlobDescription,
}

/// What a record says.
pub struct EvidenceRecordView {
    pub schema_version: u32,
    pub intent_id: ProjectionIntentId,
    pub attempt_id: Uuid,
    pub target_path: ManagedPathView,
    pub recovery_relative_path: Seq<char>,
    pub recovery_filename: Seq<char>,
    pub recovery_resource_id: Option<ContentDigest>,
    pub observed: BlobDescription,
}

impl View for LocalProjectionEvidenceRecord {
    type V = EvidenceRecordView;

    open spec fn view(&self) -> EvidenceRecordView {
        EvidenceRecordView {
            schema_version: self.schema_version,
            intent_id: self.intent_id,
            attempt_id: self.attempt_id,
            target_path: self.target_path@,
            recovery_relative_path: self.recovery_relative_path@,
            recovery_filename: self.recovery_filename@,
            recovery_resource_id: self.recovery_resource_id,
            observed: self.observed,
        }
    }
}

/// Whether a record names the displaced file, so that it may be cleaned up.
pub open spec fn cleanup_bound(record: EvidenceRecordView) -> bool {
    record.schema_version == LOCAL_FORENSIC_SCHEMA_VERSION && record.recovery_resource_id is Some
}

/// Whether the version of a record is known and agrees with what it names.
pub open spec fn version_is_valid(record: EvidenceRecordView) -> bool {
    if record.schema_version == PRIOR_LOCAL_FORENSIC_SCHEMA_VERSION {
        record.recovery_resource_id is None
    } else {
        record.schema_version == LOCAL_FORENSIC_SCHEMA_VERSION
    }
}

impl LocalProjectionEvidenceRecord {
    /// The intent that was carried out.
    pub fn intent_id(&self) -> (intent_id: ProjectionIntentId)
        ensures
            intent_id == self.intent_id,
    {
        self.intent_id
    }

    /// The attempt that displaced the file.
    pub fn attempt_id(&self) -> (attempt_id: Uuid)
        ensures
            attempt_id == self.attempt_id,
    {
        self.attempt_id
    }

    /// The path of the displaced file.
    pub fn recovery_relative_path(&self) -> (path: &str)
        ensures
            path@ == self.recovery_relative_path@,
    {
        self.recovery_relative_path.as_str()
    }

    /// The name of the displaced file.
    pub fn recovery_filename(&self) -> (name: &str)
        ensures
            name@ == self.recovery_filename@,
    {
        self.recovery_filename.as_str()
    }

    /// The displaced file itself, where it is known.
    pub fn recovery_resource_id(&self) -> (resource: Option<ContentDigest>)
        ensures
            resource == self.recovery_resource_id,
    {
        self.recovery_resource_id
    }

    /// The displaced bytes.
    pub fn observed(&self) -> (observed: BlobDescription)
        ensures
            observed == self.observed,
    {
        self.observed
    }

    /// Whether the displaced file may be cleaned up.
    pub fn is_cleanup_bound(&self) -> (bound: bool)
        ensures
            bound == cleanup_bound(self@),
    {
        self.schema_version == LOCAL_FORENSIC_SCHEMA_VERSION && self.recovery_resource_id.is_some()
    }

    /// Whether the version is known and agrees with what the record names.
    pub fn has_valid_version(&self) -> (valid: bool)
        ensures
            valid == version_is_valid(self@),
    {
        if self.schema_version == PRIOR_LOCAL_FORENSIC_SCHEMA_VERSION {
            self.recovery_resource_id.is_none()
        } else {
            self.schema_version == LOCAL_FORENSIC_SCHEMA_VERSION
        }
    }

    /// Whether two records say the same.
    pub fn same(&self, other: &LocalProjectionEvidenceRecord) -> (same: bool)
        ensures
            same == (self@ == other@),
    {
        let same_resource = match (self.recovery_resource_id, other.recovery_resource_id) {
            (None, None) => true,
            (Some(a), Some(b)) => a == b,
            _ => false,
        };
        self.schema_version == other.schema_version && self.intent_id == other.intent_id
            && self.attempt_id == other.attempt_id && self.target_path.same(&other.target_path)
            && self.target_path.portable_key_digest == other.target_path.portable_key_digest
            && same_text(
            self.recovery_relative_path.as_str(),
            other.recovery_relative_path.as_str(),
        ) && same_text(self.recovery_filename.as_str(), other.recovery_filename.as_str())
            && same_resource && self.observed == other.observed
    }

    /// The name of the cleanup mark of the displaced file.
    pub fn pending_cleanup_filename(&self) -> (name: String)
        ensures
            name@ == cleanup_name(self.intent_id, self.attempt_id),
    {
        let mut name = self.intent_id.digest.to_hex();
        name.append(".");
        name.append(self.attempt_id.simple().as_str());
        name.append(PENDING_CLEANUP_SUFFIX);
        name
    }
}

/// The name of a cleanup mark.
pub open spec fn cleanup_name(intent_id: ProjectionIntentId, attempt_id: Uuid) -> Seq<char> {
    hex_text(intent_id.digest.spec_bytes()) + "."@ + simple_text(attempt_id.value)
        + PENDING_CLEANUP_SUFFIX@
}

/// The record that stored bytes are, or why they are none.
pub open spec fn stored_record(
    bytes: Seq<u8>,
    decoded: Result<LocalProjectionEvidenceRecord, String>,
    encoded: Result<Vec<u8>, String>,
) -> Result<LocalProjectionEvidenceRecord, ProjectionStoreError> {
    match decoded {
        Err(message) => Err(ProjectionStoreError::Decode(message)),
        Ok(record) => if !version_is_valid(record@) {
            Err(ProjectionStoreError::ForensicBindingMismatch)
        } else {
            match encoded {
                Err(message) => Err(ProjectionStoreError::Encode(message)),
                Ok(encoded) => if encoded@ != bytes {
                    Err(ProjectionStoreError::ForensicBindingMismatch)
                } else {
                    Ok(record)
                },
            }
        },
    }
}

/// Decodes a record from its bytes, given what parsing them gave and the canonical encoding of
/// that.
pub fn decode_local_forensic_record(
    bytes: &[u8],
    decoded: Result<LocalProjectionEvidenceRecord, String>,
    encoded: Result<Vec<u8>, String>,
) -> (record: Result<LocalProjectionEvidenceRecord, ProjectionStoreError>)
    ensures
        record == stored_record(bytes@, decoded, encoded),
{
    let record = match decoded {
        Err(message) => return Err(ProjectionStoreError::Decode(message)),
        Ok(record) => record,
    };
    if !record.has_valid_version() {
        return Err(ProjectionStoreError::ForensicBindingMismatch);
    }
    match encoded {
        Err(message) => Err(ProjectionStoreError::Encode(message)),
        Ok(encoded) => if !same_bytes(encoded.as_slice(), bytes) {
            Err(ProjectionStoreError::ForensicBindingMismatch)
        } else {
            Ok(record)
        },
    }
}

/// Whether a record is of an intent, and if not, why.
pub open spec fn record_is_of(
    intent: ProjectionIntentView,
    intent_id: ProjectionIntentId,
    record: EvidenceRecordView,
) -> Result<(), ProjectionStoreError> {
    if !version_is_valid(record) || record.intent_id != intent_id || record.target_path.text
        != intent.path.text {
        Err(ProjectionStoreError::ForensicBindingMismatch)
    } else {
        length_check(
            "local projection forensic evidence",
            record.observed.byte_length,
            MAX_PROJECTION_EVIDENCE_BYTES,
        )
    }
}

/// Whether a record is of an intent and of a reserved attempt, and if not, why.
pub open spec fn record_is_reserved(
    intent: ProjectionIntentView,
    intent_id: ProjectionIntentId,
    record: EvidenceRecordView,
    reservation: ProjectionAttemptReservation,
) -> Result<(), ProjectionStoreError> {
    if !version_is_valid(record) || record.intent_id != intent_id || record.target_path.text
        != intent.path.text || reservation.attempt_id != record.attempt_id {
        Err(ProjectionStoreError::ForensicBindingMismatch)
    } else if record.observed.byte_length > MAX_PROJECTION_EVIDENCE_BYTES {
        length_check(
            "local projection forensic evidence",
            record.observed.byte_length,
            MAX_PROJECTION_EVIDENCE_BYTES,
        )
    } else if reservation.recovery_filename@ != record.recovery_filename
        || record.recovery_relative_path != sibling(intent.path.text, record.recovery_filename) {
        Err(ProjectionStoreError::ForensicBindingMismatch)
    } else {
        Ok(())
    }
}

/// Checks a record against an intent and a reserved attempt.
pub fn validate_forensic_record_with_reservation(
    intent: &ProjectionIntent,
    intent_id: ProjectionIntentId,
    record: &LocalProjectionEvidenceRecord,
    reservation: &ProjectionAttemptReservation,
) -> (checked: Result<(), ProjectionStoreError>)
    ensures
        checked == record_is_reserved(intent@, intent_id, record@, *reservation),
{
    if !record.has_valid_version() || record.intent_id != intent_id || !record.target_path.same(
        &intent.path,
    ) || reservation.attempt_id != record.attempt_id {
        return Err(ProjectionStoreError::ForensicBindingMismatch);
    }
    if let Err(error) = require_evidence_length(
        "local projection forensic evidence",
        record.observed.byte_length,
        MAX_PROJECTION_EVIDENCE_BYTES,
    ) {
        return Err(error);
    }
    let expected = intent.path.sibling(record.recovery_filename.as_str());
    if !same_text(reservation.recovery_filename.as_str(), record.recovery_filename.as_str())
        || !same_text(record.recovery_relative_path.as_str(), expected.as_str()) {
        return Err(ProjectionStoreError::ForensicBindingMismatch);
    }
    Ok(())
}

/// Whether a record is of an intent and of one of its reserved attempts, and if not, why.
pub open spec fn record_verdict(
    intent: ProjectionIntentView,
    intent_id: ProjectionIntentId,
    record: EvidenceRecordView,
    attempts: Result<Vec<ProjectionAttemptReservation>, ProjectionStoreError>,
) -> Result<(), ProjectionStoreError> {
    match record_is_of(intent, intent_id, record) {
        Err(error) => Err(error),
        Ok(()) => match attempts {
            Err(error) => Err(error),
            Ok(attempts) => match first_attempt(attempts@, record.attempt_id, 0) {
                None => Err(ProjectionStoreError::ForensicBindingMismatch),
                Some(at) => record_is_reserved(intent, intent_id, record, attempts@[at]),
            },
        },
    }
}

/// Checks a record against an intent and its reserved attempts, or why those could not be loaded.
pub fn validate_forensic_record(
    intent: &ProjectionIntent,
    intent_id: ProjectionIntentId,
    record: &LocalProjectionEvidenceRecord,
    attempts: Result<Vec<ProjectionAttemptReservation>, ProjectionStoreError>,
) -> (checked: Result<(), ProjectionStoreError>)
    ensures
        checked == record_verdict(intent@, intent_id, record@, attempts),
{
    if !record.has_valid_version() || record.intent_id != intent_id || !record.target_path.same(
        &intent.path,
    ) {
        return Err(ProjectionStoreError::ForensicBindingMismatch);
    }
    if let Err(error) = require_evidence_length(
        "local projection forensic evidence",
        record.observed.byte_length,
        MAX_PROJECTION_EVIDENCE_BYTES,
    ) {
        return Err(error);
    }
    let attempts = match attempts {
        Err(error) => return Err(error),
        Ok(attempts) => attempts,
    };
    match find_attempt(&attempts, record.attempt_id) {
        None => Err(ProjectionStoreError::ForensicBindingMismatch),
        Some(at) => validate_forensic_record_with_reservation(
            intent,
            intent_id,
            record,
            &attempts[at],
        ),
    }
}

/// That a displaced file was seen by a session.
#[derive(Clone, Copy, Debug, PartialEq, Eq, Structural)]
pub struct PendingProjectionCleanupObservation {
    pub schema_version: u32,
    pub evidence_digest: Digest,
    pub session_id: Uuid,
    pub observed_unix_seconds: u64,
}

/// The mark that a displaced file is still to be cleaned up.
#[derive(Clone, Debug, PartialEq, Eq)]
pub struct PendingProjectionCleanupMarker {
    pub schema_version: u32,
    pub evidence: LocalProjectionEvidenceRecord,
    pub observation: Option<PendingProjectionCleanupObservation>,
}

/// Whether a mark is acceptable, given the canonical encoding of its record, and if not, why.
pub open spec fn marker_check(
    marker: PendingProjectionCleanupMarker,
    evidence_bytes: Result<Vec<u8>, String>,
) -> Result<(), ProjectionStoreError> {
    match evidence_bytes {
        Err(message) => Err(ProjectionStoreError::Encode(message)),
        Ok(bytes) => if marker.schema_version == PENDING_CLEANUP_MARKER_SCHEMA_VERSION
            && cleanup_bound(marker.evidence@) && (marker.observation matches Some(observation)
            ==> observation.schema_version == PENDING_CLEANUP_OBSERVATION_SCHEMA_VERSION
            && observation.evidence_digest == Digest::spec_from(crate::hash::sha256(bytes@))) {
            Ok(())
        } else {
            Err(ProjectionStoreError::ForensicBindingMismatch)
        },
    }
}

impl PendingProjectionCleanupMarker {
    /// The mark of a displaced file that no session has seen yet.
    pub fn new(evidence: LocalProjectionEvidenceRecord) -> (marker: PendingProjectionCleanupMarker)
        ensures
            marker == (PendingProjectionCleanupMarker {
                schema_version: PENDING_CLEANUP_MARKER_SCHEMA_VERSION,
                evidence,
                observation: None,
            }),
    {
        PendingProjectionCleanupMarker {
            schema_version: PENDING_CLEANUP_MARKER_SCHEMA_VERSION,
            evidence,
            observation: None,
        }
    }

    /// Checks the mark, given the canonical encoding of its record.
    pub fn validate(&self, evidence_bytes: Result<&[u8], String>) -> (checked: Result<
        (),
        ProjectionStoreError,
    >)
        ensures
            match evidence_bytes {
                Err(message) => checked == Err::<(), _>(ProjectionStoreError::Encode(message)),
                Ok(bytes) => checked == (if self.schema_version
                    == PENDING_CLEANUP_MARKER_SCHEMA_VERSION && cleanup_bound(self.evidence@) && (
                self.observation matches Some(observation) ==> observation.schema_version
                    == PENDING_CLEANUP_OBSERVATION_SCHEMA_VERSION && observation.evidence_digest
                    == Digest::spec_from(crate::hash::sha256(bytes@))) {
                    Ok(())
                } else {
                    Err(ProjectionStoreError::ForensicBindingMismatch)
                }),
            },
    {
        let bytes = match evidence_bytes {
            Err(message) => return Err(ProjectionStoreError::Encode(message)),
            Ok(bytes) => bytes,
        };
        let digest = Digest::of(bytes);
        let observed = match &self.observation {
            None => true,
            Some(observation) => observation.schema_version
                == PENDING_CLEANUP_OBSERVATION_SCHEMA_VERSION && observation.evidence_digest
                == digest,
        };
        if self.schema_version != PENDING_CLEANUP_MARKER_SCHEMA_VERSION
            || !self.evidence.is_cleanup_bound() || !observed {
            return Err(ProjectionStoreError::ForensicBindingMismatch);
        }
        Ok(())
    }
}

/// What parsing a stored mark gave: the mark, the canonical encoding of its record and of itself.
#[derive(Debug, PartialEq, Eq)]
pub struct ParsedMarker {
    pub decoded: Result<PendingProjectionCleanupMarker, String>,
    pub evidence_bytes: Result<Vec<u8>, String>,
    pub encoded: Result<Vec<u8>, String>,
}

/// The mark that stored bytes are, or why they are none.
pub open spec fn stored_marker(bytes: Seq<u8>, parsed: ParsedMarker) -> Result<
    PendingProjectionCleanupMarker,
    ProjectionStoreError,
> {
    match parsed.decoded {
        Err(message) => Err(ProjectionStoreError::Decode(message)),
        Ok(marker) => match marker_check(marker, parsed.evidence_bytes) {
            Err(error) => Err(error),
            Ok(()) => match parsed.encoded {
                Err(message) => Err(ProjectionStoreError::Encode(message)),
                Ok(encoded) => if encoded@ != bytes {
                    Err(ProjectionStoreError::ForensicBindingMismatch)
                } else {
                    Ok(marker)
                },
            },
        },
    }
}

/// Encodes a mark, given the canonical encoding of its record and of itself.
pub fn encode_pending_cleanup_marker(
    marker: &PendingProjectionCleanupMarker,
    evidence_bytes: Result<Vec<u8>, String>,
    encoded: Result<Vec<u8>, String>,
) -> (bytes: Result<Vec<u8>, ProjectionStoreError>)
    ensures
        bytes == (match marker_check(*marker, evidence_bytes) {
            Err(error) => Err(error),
            Ok(()) => match encoded {
                Err(message) => Err(ProjectionStoreError::Encode(message)),
                Ok(encoded) => Ok(encoded),
            },
        }),
{
    let checked = match evidence_bytes {
        Err(message) => marker.validate(Err(message)),
        Ok(bytes) => marker.validate(Ok(bytes.as_slice())),
    };
    if let Err(error) = checked {
        return Err(error);
    }
    match encoded {
        Err(message) => Err(ProjectionStoreError::Encode(message)),
        Ok(encoded) => Ok(encoded),
    }
}

/// Decodes a mark from its bytes, given what parsing them gave.
pub fn decode_pending_cleanup_marker(bytes: &[u8], parsed: ParsedMarker) -> (marker: Result<
    PendingProjectionCleanupMarker,
    ProjectionStoreError,
>)
    ensures
        marker == stored_marker(bytes@, parsed),
{
    let marker = match parsed.decoded {
        Err(message) => return Err(ProjectionStoreError::Decode(message)),
        Ok(marker) => marker,
    };
    match encode_pending_cleanup_marker(&marker, parsed.evidence_bytes, parsed.encoded) {
        Err(error) => Err(error),
        Ok(encoded) => if !same_bytes(encoded.as_slice(), bytes) {
            Err(ProjectionStoreError::ForensicBindingMismatch)
        } else {
            Ok(marker)
        },
    }
}

/// What a graph operation displaced.
#[derive(Clone, Debug, PartialEq, Eq)]
pub struct ProjectionRecoveryEvidence {
    pub path: String,
    pub filename: String,
    pub digest: Digest,
    pub len: u64,
    pub resource_id: Option<ContentDigest>,
}

/// What a graph operation proved: the path, the bytes that are there now, and what it displaced.
#[derive(Clone, Debug, PartialEq, Eq)]
pub struct ProjectionWriteProof {
    pub path: String,
    pub digest: Digest,
    pub bytes: Vec<u8>,
    pub recovery_evidence: Vec<ProjectionRecoveryEvidence>,
}

/// Whether a proof is that of an intent's target.
pub open spec fn proof_is_of(proof_view: ProjectionWriteProof, intent: ProjectionIntentView) -> bool {
    &&& proof_view.path@ == intent.path.text
    &&& proof_view.digest == intent.target.sha256
    &&& BlobDescription::spec_of(proof_view.bytes@) == intent.target
}

/// Checks that a proof is that of an intent's target.
pub fn require_write_proof(intent: &ProjectionIntent, write_proof: &ProjectionWriteProof) -> (checked:
    Result<(), ProjectionStoreError>)
    ensures
        checked == (if proof_is_of(*write_proof, intent@) {
            Ok(())
        } else {
            Err(ProjectionStoreError::WriteProofMismatch)
        }),
{
    if !same_text(write_proof.path.as_str(), intent.path.text.as_str()) || write_proof.digest
        != intent.target.sha256 || BlobDescription::of(write_proof.bytes.as_slice())
        != intent.target {
        return Err(ProjectionStoreError::WriteProofMismatch);
    }
    Ok(())
}

/// The record of what a graph operation displaced.
pub open spec fn record_of(
    intent_id: ProjectionIntentId,
    attempt_id: Uuid,
    target_path: ManagedPathView,
    evidence: ProjectionRecoveryEvidence,
) -> EvidenceRecordView {
    EvidenceRecordView {
        schema_version: LOCAL_FORENSIC_SCHEMA_VERSION,
        intent_id,
        attempt_id,
        target_path,
        recovery_relative_path: evidence.path@,
        recovery_filename: evidence.filename@,
        recovery_resource_id: evidence.resource_id,
        observed: BlobDescription { sha256: evidence.digest, byte_length: evidence.len },
    }
}

/// Records what a graph operation displaced.
pub fn record_evidence(
    intent_id: ProjectionIntentId,
    attempt_id: Uuid,
    target_path: &ManagedPath,
    evidence: &ProjectionRecoveryEvidence,
) -> (record: LocalProjectionEvidenceRecord)
    ensures
        record@ == record_of(intent_id, attempt_id, target_path@, *evidence),
{
    LocalProjectionEvidenceRecord {
        schema_version: LOCAL_FORENSIC_SCHEMA_VERSION,
        intent_id,
        attempt_id,
        target_path: target_path.duplicate(),
        recovery_relative_path: evidence.path.clone(),
        recovery_filename: evidence.filename.clone(),
        recovery_resource_id: evidence.resource_id,
        observed: BlobDescription { sha256: evidence.digest, byte_length: evidence.len },
    }
}

/// The first of the attempts from `at` on whose recovery file has the given name.
pub open spec fn attempt_with_file(
    attempts: Seq<ProjectionAttemptReservation>,
    filename: Seq<char>,
    at: int,
) -> Option<int>
    decreases attempts.len() - at,
{
    if at < 0 || at >= attempts.len() {
        None
    } else if attempts[at].recovery_filename@ == filename {
        Some(at)
    } else {
        attempt_with_file(attempts, filename, at + 1)
    }
}

/// Finds the attempt whose recovery file has the given name.
fn find_attempt_with_file(attempts: &Vec<ProjectionAttemptReservation>, filename: &str) -> (found: Option<
    usize,
>)
    ensures
        match attempt_with_file(attempts@, filename@, 0) {
            None => found is None,
            Some(at) => found is Some && found->0 == at && at < attempts@.len(),
        },
{
    let mut at: usize = 0;
    while at < attempts.len()
        invariant
            at <= attempts@.len(),
            attempt_with_file(attempts@, filename@, 0) == attempt_with_file(
                attempts@,
                filename@,
                at as int,
            ),
        decreases attempts@.len() - at,
    {
        if same_text(attempts[at].recovery_filename.as_str(), filename) {
            return Some(at);
        }
        at = at + 1;
    }
    None
}

/// The record of one displaced file for the completion of an intent, or why it is refused.
pub open spec fn completion_record(
    intent: ProjectionIntentView,
    intent_id: ProjectionIntentId,
    attempts: Seq<ProjectionAttemptReservation>,
    evidence: ProjectionRecoveryEvidence,
) -> Result<EvidenceRecordView, ProjectionStoreError> {
    match attempt_with_file(attempts, evidence.filename@, 0) {
        None => Err(ProjectionStoreError::UnreservedRecoveryEvidence),
        Some(at) => {
            let record = record_of(intent_id, attempts[at].attempt_id, intent.path, evidence);
            match record_is_reserved(intent, intent_id, record, attempts[at]) {
                Err(error) => Err(error),
                Ok(()) => Ok(record),
            }
        },
    }
}

/// Records one displaced file for the completion of an intent.
pub fn prepare_completion_record(
    intent: &ProjectionIntent,
    intent_id: ProjectionIntentId,
    attempts: &Vec<ProjectionAttemptReservation>,
    evidence: &ProjectionRecoveryEvidence,
) -> (record: Result<LocalProjectionEvidenceRecord, ProjectionStoreError>)
    ensures
        match completion_record(intent@, intent_id, attempts@, *evidence) {
            Err(error) => record == Err::<LocalProjectionEvidenceRecord, _>(error),
            Ok(view) => record is Ok && record->Ok_0@ == view,
        },
{
    let at = match find_attempt_with_file(attempts, evidence.filename.as_str()) {
        None => return Err(ProjectionStoreError::UnreservedRecoveryEvidence),
        Some(at) => at,
    };
    let record = record_evidence(intent_id, attempts[at].attempt_id, &intent.path, evidence);
    match validate_forensic_record_with_reservation(intent, intent_id, &record, &attempts[at]) {
        Err(error) => Err(error),
        Ok(()) => Ok(record),
    }
}

/// The record that a displaced file is published with, or why it is refused: it must be the
/// reserved recovery file of the active attempt, and known itself.
pub open spec fn published_record(
    intent_id: ProjectionIntentId,
    reservation: ProjectionAttemptReservation,
    evidence: ProjectionRecoveryEvidence,
) -> Result<EvidenceRecordView, IoFailure> {
    if reservation.recovery_filename@ != evidence.filename@ || evidence.path@ != sibling(
        reservation.target_path.text@,
        evidence.filename@,
    ) || evidence.resource_id is None {
        Err(
            IoFailure {
                kind: IoFailureKind::InvalidInput,
                message: Reason::Own(
                    "recovery evidence is not bound to the active displaced handle",
                ),
                semantic_refusal: false,
            },
        )
    } else {
        Ok(
            record_of(
                intent_id,
                reservation.attempt_id,
                reservation.target_path@,
                evidence,
            ),
        )
    }
}

/// Records a displaced file for publication while its operation runs.
pub fn publish_recovery_evidence(
    intent_id: ProjectionIntentId,
    reservation: &ProjectionAttemptReservation,
    evidence: &ProjectionRecoveryEvidence,
) -> (record: Result<LocalProjectionEvidenceRecord, IoFailure>)
    ensures
        match published_record(intent_id, *reservation, *evidence) {
            Err(failure) => record == Err::<LocalProjectionEvidenceRecord, _>(failure),
            Ok(view) => record is Ok && record->Ok_0@ == view && cleanup_bound(record->Ok_0@),
        },
{
    let expected = reservation.target_path.sibling(evidence.filename.as_str());
    if !same_text(reservation.recovery_filename.as_str(), evidence.filename.as_str())
        || !same_text(expected.as_str(), evidence.path.as_str()) || evidence.resource_id.is_none() {
        return Err(
            IoFailure {
                kind: IoFailureKind::InvalidInput,
                message: Reason::Own(
                    "recovery evidence is not bound to the active displaced handle",
                ),
                semantic_refusal: false,
            },
        );
    }
    Ok(
        record_evidence(
            intent_id,
            reservation.attempt_id,
            &reservation.target_path,
            evidence,
        ),
    )
}

/// A stored record: its bytes, what parsing them gave, and the canonical encoding of that.
#[derive(Debug, PartialEq, Eq)]
pub struct StoredRecord {
    pub bytes: Vec<u8>,
    pub decoded: Result<LocalProjectionEvidenceRecord, String>,
    pub encoded: Result<Vec<u8>, String>,
}

/// An entry of the directory of an intent's forensic evidence. `attempts` is what loading the
/// intent's attempts gave when the entry was looked at.
#[derive(Debug, PartialEq, Eq)]
pub struct EvidenceEntry {
    pub name: Option<String>,
    pub kind: EntryKind,
    pub stored: Result<Option<StoredRecord>, ProjectionStoreError>,
    pub attempts: Result<Vec<ProjectionAttemptReservation>, ProjectionStoreError>,
}

/// What an entry of the directory of an intent's forensic evidence holds.
pub open spec fn evidence_entry(
    intent: ProjectionIntentView,
    intent_id: ProjectionIntentId,
    entry: EvidenceEntry,
) -> Result<Option<LocalProjectionEvidenceRecord>, ProjectionStoreError> {
    match entry.name {
        None => Err(
            ProjectionStoreError::UnsafeEntry(
                EntryFault::Own("non-UTF-8 forensic evidence entry"),
            ),
        ),
        Some(name) => if entry.kind != EntryKind::File {
            Err(
                ProjectionStoreError::UnsafeEntry(
                    EntryFault::Named { fault: "entry is not a regular file", name },
                ),
            )
        } else if names_temp(name@) {
            Ok(None)
        } else if !is_evidence_name(name@, ".evidence"@) {
            Err(ProjectionStoreError::MalformedEvidenceName(name))
        } else {
            match entry.stored {
                Err(error) => Err(error),
                Ok(None) => Err(
                    ProjectionStoreError::UnsafeEntry(
                        EntryFault::Named {
                            fault: "forensic evidence disappeared during enumeration",
                            name,
                        },
                    ),
                ),
                Ok(Some(stored)) => match stored_record(
                    stored.bytes@,
                    stored.decoded,
                    stored.encoded,
                ) {
                    Err(error) => Err(error),
                    Ok(record) => if name@ != evidence_name(
                        Digest::spec_from(crate::hash::sha256(stored.bytes@)),
                        ".evidence"@,
                    ) {
                        Err(ProjectionStoreError::ForensicBindingMismatch)
                    } else {
                        match record_verdict(intent, intent_id, record@, entry.attempts) {
                            Err(error) => Err(error),
                            Ok(()) => Ok(Some(record)),
                        }
                    },
                },
            }
        },
    }
}

/// Checks an entry of the directory of an intent's forensic evidence.
fn check_evidence_entry(
    intent: &ProjectionIntent,
    intent_id: ProjectionIntentId,
    entry: EvidenceEntry,
) -> (checked: Result<Option<LocalProjectionEvidenceRecord>, ProjectionStoreError>)
    ensures
        checked == evidence_entry(intent@, intent_id, entry),
{
    let name = match entry.name {
        None => return Err(
            ProjectionStoreError::UnsafeEntry(
                EntryFault::Own("non-UTF-8 forensic evidence entry"),
            ),
        ),
        Some(name) => name,
    };
    if entry.kind != EntryKind::File {
        return Err(
            ProjectionStoreError::UnsafeEntry(
                EntryFault::Named { fault: "entry is not a regular file", name },
            ),
        );
    }
    if is_temp_name(name.as_str()) {
        return Ok(None);
    }
    if let Err(error) = require_canonical_evidence_name(&name, ".evidence") {
        return Err(error);
    }
    let stored = match entry.stored {
        Err(error) => return Err(error),
        Ok(None) => return Err(
            ProjectionStoreError::UnsafeEntry(
                EntryFault::Named {
                    fault: "forensic evidence disappeared during enumeration",
                    name,
                },
            ),
        ),
        Ok(Some(stored)) => stored,
    };
    let expected = name_evidence(Digest::of(stored.bytes.as_slice()), ".evidence");
    let record = match decode_local_forensic_record(
        stored.bytes.as_slice(),
        stored.decoded,
        stored.encoded,
    ) {
        Err(error) => return Err(error),
        Ok(record) => record,
    };
    if !same_text(name.as_str(), expected.as_str()) {
        return Err(ProjectionStoreError::ForensicBindingMismatch);
    }
    match validate_forensic_record(intent, intent_id, &record, entry.attempts) {
        Err(error) => Err(error),
        Ok(()) => Ok(Some(record)),
    }
}

/// Puts a record behind every record that is not above it.
pub open spec fn insert_record(
    sorted: Seq<LocalProjectionEvidenceRecord>,
    record: LocalProjectionEvidenceRecord,
) -> Seq<LocalProjectionEvidenceRecord>
    decreases sorted.len(),
{
    if sorted.len() > 0 && record.attempt_id.value < sorted.last().attempt_id.value {
        insert_record(sorted.drop_last(), record).push(sorted.last())
    } else {
        sorted.push(record)
    }
}

/// Inserting among the first `at` records and keeping those behind is inserting among all.
proof fn lemma_insert_record_at(
    sorted: Seq<LocalProjectionEvidenceRecord>,
    record: LocalProjectionEvidenceRecord,
    at: int,
)
    requires
        0 <= at <= sorted.len(),
        forall|i: int|
            at <= i < sorted.len() ==> record.attempt_id.value < (
            #[trigger] sorted[i]).attempt_id.value,
        at > 0 ==> record.attempt_id.value >= sorted[at - 1].attempt_id.value,
    ensures
        insert_record(sorted, record) == sorted.insert(at, record),
    decreases sorted.len(),
{
    if sorted.len() > at {
        let front = sorted.drop_last();
        assert(sorted.last() == sorted[sorted.len() - 1]);
        assert forall|i: int| at <= i < front.len() implies record.attempt_id.value < (
        #[trigger] front[i]).attempt_id.value by {
            assert(front[i] == sorted[i]);
        }
        lemma_insert_record_at(front, record, at);
        assert(front.insert(at, record).push(sorted.last()) =~= sorted.insert(at, record));
    } else {
        assert(sorted.push(record) =~= sorted.insert(at, record));
    }
}

/// The records among the first `n` entries in the order of their attempts, or why the first faulty
/// entry is refused.
pub open spec fn listed_records(
    intent: ProjectionIntentView,
    intent_id: ProjectionIntentId,
    entries: Seq<EvidenceEntry>,
    n: nat,
) -> Result<Seq<LocalProjectionEvidenceRecord>, ProjectionStoreError>
    decreases n,
{
    if n == 0 {
        Ok(Seq::empty())
    } else {
        match listed_records(intent, intent_id, entries, (n - 1) as nat) {
            Err(error) => Err(error),
            Ok(before) => match evidence_entry(intent, intent_id, entries[n - 1]) {
                Err(error) => Err(error),
                Ok(None) => Ok(before),
                Ok(Some(record)) => Ok(insert_record(before, record)),
            },
        }
    }
}

/// Once an entry is refused, so is every longer list.
proof fn lemma_refused_entry(
    intent: ProjectionIntentView,
    intent_id: ProjectionIntentId,
    entries: Seq<EvidenceEntry>,
    m: nat,
    n: nat,
)
    requires
        m <= n,
        listed_records(intent, intent_id, entries, m) is Err,
    ensures
        listed_records(intent, intent_id, entries, n) == listed_records(
            intent,
            intent_id,
            entries,
            m,
        ),
    decreases n,
{
    if m < n {
        lemma_refused_entry(intent, intent_id, entries, m, (n - 1) as nat);
    }
}

/// The forensic evidence of an intent in the order of its attempts, from the entries of its
/// directory.
pub fn list_forensic_evidence(
    intent: &ProjectionIntent,
    intent_id: ProjectionIntentId,
    entries: Vec<EvidenceEntry>,
) -> (records: Result<Vec<LocalProjectionEvidenceRecord>, ProjectionStoreError>)
    ensures
        match listed_records(intent@, intent_id, entries@, entries@.len()) {
            Err(error) => records == Err::<Vec<LocalProjectionEvidenceRecord>, _>(error),
            Ok(listed) => records is Ok && records->Ok_0@ == listed,
        },
{
    let ghost all = entries@;
    let mut records: Vec<LocalProjectionEvidenceRecord> = Vec::new();
    for entry in iter: entries.into_iter()
        invariant
            iter.seq() == all,
            all == entries@,
            listed_records(intent@, intent_id, all, iter.index() as nat) == Ok::<
                _,
                ProjectionStoreError,
            >(records@),
    {
        let ghost index = iter.index() as nat;
        assert(entry == all[index as int]);
        let checked = check_evidence_entry(intent, intent_id, entry);
        match checked {
            Err(error) => {
                proof {
                    assert(listed_records(intent@, intent_id, all, index + 1) == Err::<
                        Seq<LocalProjectionEvidenceRecord>,
                        _,
                    >(error));
                    lemma_refused_entry(intent@, intent_id, all, index + 1, all.len());
                }
                return Err(error);
            },
            Ok(None) => {},
            Ok(Some(record)) => {
                let mut at: usize = records.len();
                while at > 0 && record.attempt_id.value < records[at - 1].attempt_id.value
                    invariant
                        at <= records@.len(),
                        forall|i: int|
                            at <= i < records@.len() ==> record.attempt_id.value < (
                            #[trigger] records@[i]).attempt_id.value,
                    decreases at,
                {
                    at = at - 1;
                }
                proof {
                    lemma_insert_record_at(records@, record, at as int);
                }
                records.insert(at, record);
            },
        }
    }
    Ok(records)
}

} // verus!
