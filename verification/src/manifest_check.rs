//! The checks that every manifested projection object passes, and the framing of its bytes.

use std::collections::HashSet;

use vstd::prelude::*;

use crate::annotation::{AnnotatedIdentity, ProjectionClaimEvidence};
use crate::bytes::{be_bytes, be_value, push_be, push_bytes};
use crate::hash::{sha256, BlobDescription, Digest};
use crate::ids::{BatchId, DocumentId, PageId, ProjectionEndpointId, Uuid};
use crate::manifest_error::ProjectionManifestError;
use crate::order::{words_before, words_in_order};
use crate::path::ManagedPath;

verus! {

broadcast use vstd::std_specs::hash::group_hash_axioms;

/// The most annotations that one object may carry.
pub const MAX_PROJECTION_ANNOTATIONS: usize = 100_000;

/// The most pieces of claim evidence that one object may carry.
pub const MAX_PROJECTION_CLAIM_EVIDENCE: usize = 100_000;

/// What is wrong with annotation `i`, given that those before it are in order.
pub open spec fn annotation_fault(
    annotations: Seq<AnnotatedIdentity>,
    i: int,
    target_length: u64,
) -> Option<ProjectionManifestError> {
    if i > 0 && !words_before(
        annotations[i - 1].locator.components@,
        annotations[i].locator.components@,
    ) {
        Some(ProjectionManifestError::NonCanonical("projection annotations"))
    } else if exists|j: int|
        0 <= j < i && (#[trigger] annotations[j]).block_id == annotations[i].block_id {
        Some(ProjectionManifestError::InvalidAnnotations)
    } else if annotations[i].logseq_uuid is Some && exists|j: int|
        0 <= j < i && (#[trigger] annotations[j]).logseq_uuid == annotations[i].logseq_uuid {
        Some(ProjectionManifestError::InvalidAnnotations)
    } else if annotations[i].span.end > target_length {
        Some(ProjectionManifestError::InvalidAnnotations)
    } else {
        None
    }
}

/// What is wrong with the first faulty annotation among the first `n`.
pub open spec fn annotations_fault(
    annotations: Seq<AnnotatedIdentity>,
    n: nat,
    target_length: u64,
) -> Option<ProjectionManifestError>
    decreases n,
{
    if n == 0 {
        None
    } else {
        match annotations_fault(annotations, (n - 1) as nat, target_length) {
            Some(error) => Some(error),
            None => annotation_fault(annotations, n - 1, target_length),
        }
    }
}

/// Whether annotations are acceptable for a target of the given length, and if not, why: there
/// are too many, or one of them is out of order, repeats an identity or leaves the target.
pub open spec fn annotations_check(
    annotations: Seq<AnnotatedIdentity>,
    target_length: u64,
) -> Result<(), ProjectionManifestError> {
    if annotations.len() > MAX_PROJECTION_ANNOTATIONS {
        Err(ProjectionManifestError::TooManyAnnotations(annotations.len() as usize))
    } else {
        match annotations_fault(annotations, annotations.len(), target_length) {
            Some(error) => Err(error),
            None => Ok(()),
        }
    }
}

/// Checks annotations against a target of the given length.
pub fn validate_annotations(annotations: &[AnnotatedIdentity], target_length: u64) -> (checked:
    Result<(), ProjectionManifestError>)
    ensures
        checked == annotations_check(annotations@, target_length),
{
    if annotations.len() > MAX_PROJECTION_ANNOTATIONS {
        return Err(ProjectionManifestError::TooManyAnnotations(annotations.len()));
    }
    let mut block_ids: HashSet<u128> = HashSet::new();
    let mut logseq_uuids: HashSet<u128> = HashSet::new();
    let mut index: usize = 0;
    while index < annotations.len()
        invariant
            index <= annotations@.len() <= MAX_PROJECTION_ANNOTATIONS,
            annotations_fault(annotations@, index as nat, target_length) is None,
            forall|value: u128|
                #[trigger] block_ids@.contains(value) <==> exists|j: int|
                    0 <= j < index && (#[trigger] annotations@[j]).block_id.uuid.value == value,
            forall|value: u128|
                #[trigger] logseq_uuids@.contains(value) <==> exists|j: int|
                    0 <= j < index && (#[trigger] annotations@[j]).logseq_uuid is Some
                        && annotations@[j].logseq_uuid->0.uuid.value == value,
        decreases annotations@.len() - index,
    {
        let annotation = &annotations[index];
        let ghost fault = annotation_fault(annotations@, index as int, target_length);
        assert(annotations_fault(annotations@, (index + 1) as nat, target_length) == fault);
        let ghost whole = annotations_fault(annotations@, annotations@.len(), target_length);
        proof {
            if fault is Some {
                lemma_fault_stays(
                    annotations@,
                    (index + 1) as nat,
                    annotations@.len(),
                    target_length,
                );
            }
        }
        if index > 0 && !words_in_order(
            annotations[index - 1].locator.components.as_slice(),
            annotation.locator.components.as_slice(),
        ) {
            return Err(ProjectionManifestError::NonCanonical("projection annotations"));
        }
        let block_value: u128 = annotation.block_id.uuid.value;
        if !block_ids.insert(block_value) {
            assert(exists|j: int|
                0 <= j < index && (#[trigger] annotations@[j]).block_id
                    == annotations@[index as int].block_id);
            return Err(ProjectionManifestError::InvalidAnnotations);
        }
        if let Some(uuid) = annotation.logseq_uuid {
            if !logseq_uuids.insert(uuid.uuid.value) {
                assert(exists|j: int|
                    0 <= j < index && (#[trigger] annotations@[j]).logseq_uuid
                        == annotations@[index as int].logseq_uuid);
                return Err(ProjectionManifestError::InvalidAnnotations);
            }
        }
        if annotation.span.end > target_length {
            return Err(ProjectionManifestError::InvalidAnnotations);
        }
        assert(fault is None);
        index += 1;
        proof {
            assert forall|value: u128| #[trigger] block_ids@.contains(value) <==> exists|j: int|
                0 <= j < index && (#[trigger] annotations@[j]).block_id.uuid.value == value by {
                if value == block_value {
                    assert(annotations@[index - 1].block_id.uuid.value == value);
                }
            }
            assert forall|value: u128| #[trigger]
                logseq_uuids@.contains(value) <==> exists|j: int|
                0 <= j < index && (#[trigger] annotations@[j]).logseq_uuid is Some
                    && annotations@[j].logseq_uuid->0.uuid.value == value by {
                if annotations@[index - 1].logseq_uuid is Some
                    && annotations@[index - 1].logseq_uuid->0.uuid.value == value {
                    assert(logseq_uuids@.contains(value));
                }
            }
        }
    }
    Ok(())
}

/// A fault among the first annotations is the fault of all of them.
proof fn lemma_fault_stays(
    annotations: Seq<AnnotatedIdentity>,
    k: nat,
    n: nat,
    target_length: u64,
)
    requires
        k <= n,
        annotations_fault(annotations, k, target_length) is Some,
    ensures
        annotations_fault(annotations, n, target_length) == annotations_fault(
            annotations,
            k,
            target_length,
        ),
    decreases n,
{
    if k < n {
        lemma_fault_stays(annotations, k, (n - 1) as nat, target_length);
    }
}

/// Acceptable annotations have strictly increasing locators, distinct blocks, distinct written
/// identities, and spans that end inside the target.
pub proof fn law_checked_annotations_are_ordered_and_distinct(
    annotations: Seq<AnnotatedIdentity>,
    target_length: u64,
)
    requires
        annotations_check(annotations, target_length) is Ok,
    ensures
        forall|i: int, j: int|
            0 <= i < j < annotations.len() ==> words_before(
                (#[trigger] annotations[i]).locator.components@,
                (#[trigger] annotations[j]).locator.components@,
            ),
        forall|i: int, j: int|
            0 <= i < j < annotations.len() ==> (#[trigger] annotations[i]).block_id != (
            #[trigger] annotations[j]).block_id,
        forall|i: int, j: int|
            0 <= i < j < annotations.len() && (#[trigger] annotations[i]).logseq_uuid is Some ==> (
            annotations[i]).logseq_uuid != (#[trigger] annotations[j]).logseq_uuid,
        forall|i: int|
            0 <= i < annotations.len() ==> (#[trigger] annotations[i]).span.end <= target_length,
{
    assert forall|i: int| 0 <= i < annotations.len() implies annotation_fault(
        annotations,
        i,
        target_length,
    ) is None by {
        if annotation_fault(annotations, i, target_length) is Some {
            if annotations_fault(annotations, i as nat, target_length) is Some {
                lemma_fault_stays(annotations, i as nat, annotations.len(), target_length);
            } else {
                assert(annotations_fault(annotations, (i + 1) as nat, target_length) is Some);
                lemma_fault_stays(annotations, (i + 1) as nat, annotations.len(), target_length);
            }
        }
    }
    assert forall|i: int, j: int| 0 <= i < j < annotations.len() implies words_before(
        (#[trigger] annotations[i]).locator.components@,
        (#[trigger] annotations[j]).locator.components@,
    ) by {
        lemma_locators_increase(annotations, i, j, target_length);
    }
    assert forall|i: int, j: int| 0 <= i < j < annotations.len() implies (
    #[trigger] annotations[i]).block_id != (#[trigger] annotations[j]).block_id by {
        assert(annotation_fault(annotations, j, target_length) is None);
    }
    assert forall|i: int, j: int|
        0 <= i < j < annotations.len() && (#[trigger] annotations[i]).logseq_uuid is Some implies (
    annotations[i]).logseq_uuid != (#[trigger] annotations[j]).logseq_uuid by {
        assert(annotation_fault(annotations, j, target_length) is None);
    }
    assert forall|i: int| 0 <= i < annotations.len() implies (
    #[trigger] annotations[i]).span.end <= target_length by {
        assert(annotation_fault(annotations, i, target_length) is None);
    }
}

/// Locators that increase from each to the next increase over any distance.
proof fn lemma_locators_increase(
    annotations: Seq<AnnotatedIdentity>,
    i: int,
    j: int,
    target_length: u64,
)
    requires
        0 <= i < j < annotations.len(),
        forall|k: int|
            0 <= k < annotations.len() ==> annotation_fault(annotations, k, target_length) is None,
    ensures
        words_before(annotations[i].locator.components@, annotations[j].locator.components@),
    decreases j - i,
{
    assert(annotation_fault(annotations, j, target_length) is None);
    if i + 1 < j {
        lemma_locators_increase(annotations, i, j - 1, target_length);
        crate::order::lemma_words_transitive(
            annotations[i].locator.components@,
            annotations[j - 1].locator.components@,
            annotations[j].locator.components@,
        );
    }
}

/// Whether the participants of a claim are strictly increasing.
pub open spec fn participants_in_order(entry: ProjectionClaimEvidence) -> bool {
    forall|k: int|
        0 <= k < entry.participants@.len() - 1 ==> (#[trigger] entry.participants@[k]).spec_before(
            entry.participants@[k + 1],
        )
}

/// Whether entry `i` is acceptable after the entries before it.
pub open spec fn claim_fits(evidence: Seq<ProjectionClaimEvidence>, i: int) -> bool {
    &&& evidence[i].participants@.len() > 0
    &&& i > 0 ==> evidence[i - 1].logseq_uuid.uuid.value < evidence[i].logseq_uuid.uuid.value
    &&& participants_in_order(evidence[i])
}

/// Whether claim evidence is acceptable, and if not, why.
pub open spec fn claims_check(evidence: Seq<ProjectionClaimEvidence>) -> Result<
    (),
    ProjectionManifestError,
> {
    if evidence.len() > MAX_PROJECTION_CLAIM_EVIDENCE {
        Err(ProjectionManifestError::TooMuchClaimEvidence(evidence.len() as usize))
    } else if exists|i: int| 0 <= i < evidence.len() && !claim_fits(evidence, i) {
        Err(ProjectionManifestError::NonCanonical("projection claim evidence"))
    } else {
        Ok(())
    }
}

/// Checks claim evidence.
pub fn validate_claim_evidence(evidence: &[ProjectionClaimEvidence]) -> (checked: Result<
    (),
    ProjectionManifestError,
>)
    ensures
        checked == claims_check(evidence@),
{
    if evidence.len() > MAX_PROJECTION_CLAIM_EVIDENCE {
        return Err(ProjectionManifestError::TooMuchClaimEvidence(evidence.len()));
    }
    let mut index: usize = 0;
    while index < evidence.len()
        invariant
            index <= evidence@.len() <= MAX_PROJECTION_CLAIM_EVIDENCE,
            forall|i: int| 0 <= i < index ==> claim_fits(evidence@, i),
        decreases evidence@.len() - index,
    {
        let entry = &evidence[index];
        if entry.participants.len() == 0 || (index > 0 && evidence[index
            - 1].logseq_uuid.uuid.value >= entry.logseq_uuid.uuid.value) {
            assert(!claim_fits(evidence@, index as int));
            return Err(ProjectionManifestError::NonCanonical("projection claim evidence"));
        }
        let mut at: usize = 1;
        while at < entry.participants.len()
            invariant
                1 <= at <= entry.participants@.len(),
                index < evidence@.len(),
                evidence@.len() <= MAX_PROJECTION_CLAIM_EVIDENCE,
                *entry == evidence@[index as int],
                forall|k: int|
                    0 <= k < at - 1 ==> (#[trigger] entry.participants@[k]).spec_before(
                        entry.participants@[k + 1],
                    ),
            decreases entry.participants@.len() - at,
        {
            if !entry.participants[at - 1].before(&entry.participants[at]) {
                proof {
                    let k = at - 1;
                    assert(!entry.participants@[k].spec_before(entry.participants@[k + 1]));
                    assert(!claim_fits(evidence@, index as int));
                }
                return Err(ProjectionManifestError::NonCanonical("projection claim evidence"));
            }
            at += 1;
        }
        assert(claim_fits(evidence@, index as int));
        index += 1;
    }
    Ok(())
}

/// Whether a blob has the declared digest and length, and if not, which one it is.
pub open spec fn blob_check(
    description: BlobDescription,
    bytes: Seq<u8>,
    kind: &'static str,
) -> Result<(), ProjectionManifestError> {
    if BlobDescription::spec_of(bytes) == description {
        Ok(())
    } else {
        Err(ProjectionManifestError::BlobMismatch(kind))
    }
}

/// Checks a blob against its declared digest and length.
pub fn validate_blob(description: BlobDescription, bytes: &[u8], kind: &'static str) -> (checked:
    Result<(), ProjectionManifestError>)
    ensures
        checked == blob_check(description, bytes@, kind),
{
    let actual = BlobDescription::of(bytes);
    if actual != description {
        return Err(ProjectionManifestError::BlobMismatch(kind));
    }
    Ok(())
}

/// The length of a frame, stopping at the largest length there is.
pub open spec fn frame_length(magic: Seq<u8>, body: Seq<u8>) -> usize {
    if magic.len() + body.len() > usize::MAX {
        usize::MAX
    } else {
        (magic.len() + body.len()) as usize
    }
}

/// Frames an encoded body: its magic, then the body, where both fit the limit.
pub fn encode_canonical(magic: &[u8], body: Result<Vec<u8>, String>, limit: usize) -> (framed:
    Result<Vec<u8>, ProjectionManifestError>)
    ensures
        match body {
            Err(message) => framed == Err::<Vec<u8>, _>(ProjectionManifestError::Encode(message)),
            Ok(body) => if frame_length(magic@, body@) > limit {
                framed == Err::<Vec<u8>, _>(
                    ProjectionManifestError::TooLarge {
                        kind: "projection object",
                        length: frame_length(magic@, body@),
                        limit,
                    },
                )
            } else {
                &&& framed is Ok
                &&& framed->Ok_0@ == magic@ + body@
            },
        },
{
    let body = match body {
        Ok(body) => body,
        Err(message) => return Err(ProjectionManifestError::Encode(message)),
    };
    let length: usize = magic.len().saturating_add(body.len());
    if length > limit {
        return Err(
            ProjectionManifestError::TooLarge { kind: "projection object", length, limit },
        );
    }
    let mut bytes: Vec<u8> = Vec::new();
    push_bytes(&mut bytes, magic);
    push_bytes(&mut bytes, body.as_slice());
    assert(bytes@ =~= magic@ + body@);
    Ok(bytes)
}

/// Whether `bytes` starts with `magic`.
pub open spec fn starts_with(bytes: Seq<u8>, magic: Seq<u8>) -> bool {
    bytes.len() >= magic.len() && bytes.take(magic.len() as int) == magic
}

/// Whether `bytes` starts with `magic`.
pub fn has_prefix(bytes: &[u8], magic: &[u8]) -> (has: bool)
    ensures
        has == starts_with(bytes@, magic@),
{
    if bytes.len() < magic.len() {
        return false;
    }
    crate::bytes::same_bytes(vstd::slice::slice_subrange(bytes, 0, magic.len()), magic)
}

/// What the parts of an identity are hashed from: each part after its length in eight bytes.
pub open spec fn parts_preimage(parts: Seq<Seq<u8>>) -> Seq<u8>
    decreases parts.len(),
{
    if parts.len() == 0 {
        Seq::empty()
    } else {
        parts_preimage(parts.drop_last()) + be_bytes(parts.last().len(), 8) + parts.last()
    }
}

/// The first sixteen bytes of a digest, marked as a version 8 identifier of the usual variant.
pub open spec fn document_bytes(digest: Seq<u8>) -> Seq<u8> {
    digest.take(16).update(6, (digest[6] & 0x0f) | 0x80).update(8, (digest[8] & 0x3f) | 0x80)
}

/// The document that some hashed bytes name.
pub open spec fn document_of(preimage: Seq<u8>) -> DocumentId {
    DocumentId { uuid: Uuid { value: be_value(document_bytes(sha256(preimage))) as u128 } }
}

/// The document that a domain and parts name: a version 8 identifier.
fn derive_document_id(domain: &str, parts: &Vec<Vec<u8>>) -> (document: DocumentId)
    ensures
        document == document_of(
            vstd::utf8::encode_utf8(domain@) + parts_preimage(parts@.map_values(|part: Vec<u8>| part@)),
        ),
        document.uuid.spec_bytes()[6] >> 4 == 8,
        document.uuid.spec_bytes()[8] >> 6 == 2,
{
    let mut preimage: Vec<u8> = Vec::new();
    push_bytes(&mut preimage, domain.as_bytes());
    assert(preimage@ =~= vstd::utf8::encode_utf8(domain@));
    let ghost views = parts@.map_values(|part: Vec<u8>| part@);
    assert(views.take(0) =~= Seq::<Seq<u8>>::empty());
    assert(preimage@ =~= vstd::utf8::encode_utf8(domain@) + parts_preimage(views.take(0)));
    let mut index: usize = 0;
    while index < parts.len()
        invariant
            index <= parts@.len(),
            views == parts@.map_values(|part: Vec<u8>| part@),
            preimage@ == vstd::utf8::encode_utf8(domain@) + parts_preimage(views.take(index as int)),
        decreases parts@.len() - index,
    {
        push_be(&mut preimage, parts[index].len() as u128, 8);
        push_bytes(&mut preimage, parts[index].as_slice());
        index += 1;
        proof {
            let taken = views.take(index as int);
            assert(taken.drop_last() =~= views.take(index - 1));
            assert(taken.last() == parts@[index - 1]@);
            assert(preimage@ =~= vstd::utf8::encode_utf8(domain@) + parts_preimage(taken));
        }
    }
    assert(views.take(index as int) =~= views);
    let digest = Digest::of(preimage.as_slice());
    proof {
        digest.lemma_bytes();
    }
    let all = digest.to_bytes();
    let mut bytes = crate::bytes::copy_range(all.as_slice(), 0, 16);
    let ghost first = bytes@;
    let sixth: u8 = bytes[6];
    let eighth: u8 = bytes[8];
    bytes.set(6, (sixth & 0x0f) | 0x80);
    bytes.set(8, (eighth & 0x3f) | 0x80);
    proof {
        assert(first =~= sha256(preimage@).take(16));
        assert(bytes@ =~= document_bytes(sha256(preimage@)));
        assert(((sixth & 0x0f) | 0x80) >> 4 == 8) by (bit_vector);
        assert(((eighth & 0x3f) | 0x80) >> 6 == 2) by (bit_vector);
    }
    DocumentId { uuid: Uuid::from_bytes(bytes.as_slice()) }
}

/// The document of a projection intent.
pub open spec fn spec_projection_intent_document_id(
    batch_id: BatchId,
    endpoint_id: ProjectionEndpointId,
    page_id: PageId,
    path: Seq<char>,
) -> DocumentId {
    document_of(
        vstd::utf8::encode_utf8("tine/projection-intent-document-id/v2\0"@) + parts_preimage(
            seq![
                batch_id.uuid.spec_bytes(),
                endpoint_id.uuid.spec_bytes(),
                page_id.uuid.spec_bytes(),
                vstd::utf8::encode_utf8(path),
            ],
        ),
    )
}

/// The document of an annotated base.
pub open spec fn spec_annotated_base_document_id(payload: Seq<u8>) -> DocumentId {
    document_of(
        vstd::utf8::encode_utf8("tine/annotated-projection-base-document-id/v1\0"@)
            + parts_preimage(seq![sha256(payload)]),
    )
}

/// The document that a projection intent is stored as: it depends on the batch, the endpoint, the
/// page and the path, and on nothing else of the intent.
pub fn projection_intent_document_id(
    batch_id: BatchId,
    endpoint_id: ProjectionEndpointId,
    page_id: PageId,
    path: &ManagedPath,
) -> (document: DocumentId)
    ensures
        document == spec_projection_intent_document_id(batch_id, endpoint_id, page_id, path.text@),
{
    let mut parts: Vec<Vec<u8>> = Vec::new();
    parts.push(batch_id.uuid.to_bytes());
    parts.push(endpoint_id.uuid.to_bytes());
    parts.push(page_id.uuid.to_bytes());
    parts.push(crate::bytes::copy_bytes(path.as_str().as_bytes()));
    assert(parts@.map_values(|part: Vec<u8>| part@) =~= seq![
        batch_id.uuid.spec_bytes(),
        endpoint_id.uuid.spec_bytes(),
        page_id.uuid.spec_bytes(),
        vstd::utf8::encode_utf8(path.text@),
    ]);
    derive_document_id("tine/projection-intent-document-id/v2\0", &parts)
}

/// The document that an annotated base is stored as, from its canonical payload.
pub fn annotated_base_document_id(canonical_payload: &[u8]) -> (document: DocumentId)
    ensures
        document == spec_annotated_base_document_id(canonical_payload@),
{
    let mut parts: Vec<Vec<u8>> = Vec::new();
    parts.push(Digest::of(canonical_payload).to_bytes());
    assert(parts@.map_values(|part: Vec<u8>| part@) =~= seq![sha256(canonical_payload@)]);
    derive_document_id("tine/annotated-projection-base-document-id/v1\0", &parts)
}

} // verus!
