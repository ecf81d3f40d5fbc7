//! The identities of the blocks of a page, where each lies in the page's bytes, and which blocks
//! claim an identity that is written in the text.

use vstd::prelude::*;

use crate::ids::{BlockId, DocumentId, LogseqUuid};
use crate::order::{copy_words, same_words};

verus! {

/// Why a record cannot be made.
#[derive(Clone, Debug, PartialEq, Eq)]
pub enum ReceiptError {
    /// A locator names no block.
    EmptyLocator,
    /// A span ends before it starts.
    InvertedSpan,
    /// An absent target declares bytes.
    AbsentTargetWithBytes,
    /// A completion is not that of the intent.
    CompletionMismatch,
    /// A record could not be encoded or decoded.
    Codec(String),
}

/// The position of a block: its index among the roots, then among each parent's children.
#[derive(Clone, Debug, PartialEq, Eq)]
pub struct StructuralLocator {
    pub components: Vec<u32>,
}

impl StructuralLocator {
    /// The locator with the given components, of which there is at least one.
    pub fn new(components: Vec<u32>) -> (locator: Result<StructuralLocator, ReceiptError>)
        ensures
            components@.len() > 0 ==> locator == Ok::<_, ReceiptError>(
                StructuralLocator { components },
            ),
            components@.len() == 0 ==> locator == Err::<StructuralLocator, _>(
                ReceiptError::EmptyLocator,
            ),
    {
        if components.len() == 0 {
            Err(ReceiptError::EmptyLocator)
        } else {
            Ok(StructuralLocator { components })
        }
    }

    /// The components of the locator.
    pub fn components(&self) -> (components: &[u32])
        ensures
            components@ == self.components@,
    {
        self.components.as_slice()
    }
}

/// A range of bytes.
#[derive(Clone, Copy, Debug, PartialEq, Eq, Structural)]
pub struct StructuralSpan {
    pub start: u64,
    pub end: u64,
}

impl StructuralSpan {
    /// The span from `start` up to `end`.
    pub fn new(start: u64, end: u64) -> (span: Result<StructuralSpan, ReceiptError>)
        ensures
            start <= end ==> span == Ok::<_, ReceiptError>(StructuralSpan { start, end }),
            end < start ==> span == Err::<StructuralSpan, _>(ReceiptError::InvertedSpan),
    {
        if end < start {
            Err(ReceiptError::InvertedSpan)
        } else {
            Ok(StructuralSpan { start, end })
        }
    }

    /// Where the span starts.
    pub fn start(&self) -> (start: u64)
        ensures
            start == self.start,
    {
        self.start
    }

    /// Where the span ends.
    pub fn end(&self) -> (end: u64)
        ensures
            end == self.end,
    {
        self.end
    }
}

/// The identity of a block, its position and its bytes.
#[derive(Clone, Debug, PartialEq, Eq)]
pub struct AnnotatedIdentity {
    pub locator: StructuralLocator,
    pub span: StructuralSpan,
    pub block_id: BlockId,
    pub logseq_uuid: Option<LogseqUuid>,
}

/// What an annotated identity says.
pub struct AnnotatedIdentityView {
    pub locator: Seq<u32>,
    pub span: StructuralSpan,
    pub block_id: BlockId,
    pub logseq_uuid: Option<LogseqUuid>,
}

impl View for AnnotatedIdentity {
    type V = AnnotatedIdentityView;

    open spec fn view(&self) -> AnnotatedIdentityView {
        AnnotatedIdentityView {
            locator: self.locator.components@,
            span: self.span,
            block_id: self.block_id,
            logseq_uuid: self.logseq_uuid,
        }
    }
}

/// What a list of annotated identities says.
pub open spec fn annotation_views(annotations: Seq<AnnotatedIdentity>) -> Seq<
    AnnotatedIdentityView,
> {
    annotations.map_values(|annotation: AnnotatedIdentity| annotation@)
}

impl AnnotatedIdentity {
    /// The annotation with the given parts.
    pub fn new(
        locator: StructuralLocator,
        span: StructuralSpan,
        block_id: BlockId,
        logseq_uuid: Option<LogseqUuid>,
    ) -> (annotation: AnnotatedIdentity)
        ensures
            annotation == (AnnotatedIdentity { locator, span, block_id, logseq_uuid }),
    {
        AnnotatedIdentity { locator, span, block_id, logseq_uuid }
    }

    /// The position of the block.
    pub fn locator(&self) -> (locator: &StructuralLocator)
        ensures
            *locator == self.locator,
    {
        &self.locator
    }

    /// The bytes of the block.
    pub fn span(&self) -> (span: StructuralSpan)
        ensures
            span == self.span,
    {
        self.span
    }

    /// The block.
    pub fn block_id(&self) -> (block_id: BlockId)
        ensures
            block_id == self.block_id,
    {
        self.block_id
    }

    /// The identity that the block carries in its text, if it carries one.
    pub fn logseq_uuid(&self) -> (logseq_uuid: Option<LogseqUuid>)
        ensures
            logseq_uuid == self.logseq_uuid,
    {
        self.logseq_uuid
    }

    /// A copy of the annotation.
    pub fn duplicate(&self) -> (copy: AnnotatedIdentity)
        ensures
            copy@ == self@,
    {
        AnnotatedIdentity {
            locator: StructuralLocator { components: copy_words(self.locator.components.as_slice()) },
            span: self.span,
            block_id: self.block_id,
            logseq_uuid: self.logseq_uuid,
        }
    }

    /// Whether two annotations say the same.
    pub fn same(&self, other: &AnnotatedIdentity) -> (same: bool)
        ensures
            same == (self@ == other@),
    {
        same_words(self.locator.components.as_slice(), other.locator.components.as_slice())
            && self.span == other.span && self.block_id == other.block_id
            && same_logseq(self.logseq_uuid, other.logseq_uuid)
    }
}

/// Whether two optional identities are the same.
pub fn same_logseq(a: Option<LogseqUuid>, b: Option<LogseqUuid>) -> (same: bool)
    ensures
        same == (a == b),
{
    match (a, b) {
        (Some(x), Some(y)) => x == y,
        (None, None) => true,
        _ => false,
    }
}

/// Whether two lists of annotations say the same.
pub fn same_annotations(a: &[AnnotatedIdentity], b: &[AnnotatedIdentity]) -> (same: bool)
    ensures
        same == (annotation_views(a@) == annotation_views(b@)),
{
    if a.len() != b.len() {
        assert(annotation_views(a@).len() != annotation_views(b@).len());
        return false;
    }
    let mut index: usize = 0;
    while index < a.len()
        invariant
            index <= a@.len(),
            a@.len() == b@.len(),
            forall|j: int| 0 <= j < index ==> (#[trigger] a@[j])@ == b@[j]@,
        decreases a@.len() - index,
    {
        if !a[index].same(&b[index]) {
            assert(annotation_views(a@)[index as int] == a@[index as int]@);
            assert(annotation_views(b@)[index as int] == b@[index as int]@);
            return false;
        }
        index += 1;
    }
    assert(annotation_views(a@) =~= annotation_views(b@));
    true
}

/// A copy of a list of annotations.
pub fn copy_annotations(annotations: &[AnnotatedIdentity]) -> (out: Vec<AnnotatedIdentity>)
    ensures
        annotation_views(out@) == annotation_views(annotations@),
{
    let mut out: Vec<AnnotatedIdentity> = Vec::new();
    let mut index: usize = 0;
    while index < annotations.len()
        invariant
            index <= annotations@.len(),
            out@.len() == index,
            forall|j: int| 0 <= j < index ==> (#[trigger] out@[j])@ == annotations@[j]@,
        decreases annotations@.len() - index,
    {
        out.push(annotations[index].duplicate());
        index += 1;
    }
    assert(annotation_views(out@) =~= annotation_views(annotations@));
    out
}

/// A block that claims an identity, and the document that the block lives in.
#[derive(Clone, Copy, Debug, PartialEq, Eq, Structural)]
pub struct ProjectionClaimParticipant {
    pub block_id: BlockId,
    pub home_document_id: DocumentId,
}

impl ProjectionClaimParticipant {
    /// The participant with the given parts.
    pub fn new(block_id: BlockId, home_document_id: DocumentId) -> (participant:
        ProjectionClaimParticipant)
        ensures
            participant == (ProjectionClaimParticipant { block_id, home_document_id }),
    {
        ProjectionClaimParticipant { block_id, home_document_id }
    }

    /// Whether this participant comes before `other`: by block, then by document.
    pub open spec fn spec_before(self, other: ProjectionClaimParticipant) -> bool {
        self.block_id.uuid.value < other.block_id.uuid.value || (self.block_id == other.block_id
            && self.home_document_id.uuid.value < other.home_document_id.uuid.value)
    }

    /// Whether this participant comes before `other`: by block, then by document.
    pub fn before(&self, other: &ProjectionClaimParticipant) -> (before: bool)
        ensures
            before == self.spec_before(*other),
    {
        self.block_id.uuid.value < other.block_id.uuid.value || (self.block_id == other.block_id
            && self.home_document_id.uuid.value < other.home_document_id.uuid.value)
    }
}

/// The blocks that claim one identity.
#[derive(Clone, Debug, PartialEq, Eq)]
pub struct ProjectionClaimEvidence {
    pub logseq_uuid: LogseqUuid,
    pub participants: Vec<ProjectionClaimParticipant>,
}

/// What claim evidence says.
pub struct ProjectionClaimEvidenceView {
    pub logseq_uuid: LogseqUuid,
    pub participants: Seq<ProjectionClaimParticipant>,
}

impl View for ProjectionClaimEvidence {
    type V = ProjectionClaimEvidenceView;

    open spec fn view(&self) -> ProjectionClaimEvidenceView {
        ProjectionClaimEvidenceView {
            logseq_uuid: self.logseq_uuid,
            participants: self.participants@,
        }
    }
}

/// What a list of claim evidence says.
pub open spec fn claim_views(evidence: Seq<ProjectionClaimEvidence>) -> Seq<
    ProjectionClaimEvidenceView,
> {
    evidence.map_values(|entry: ProjectionClaimEvidence| entry@)
}

impl ProjectionClaimEvidence {
    /// The evidence that `participants` claim `logseq_uuid`.
    pub fn new(
        logseq_uuid: LogseqUuid,
        participants: Vec<ProjectionClaimParticipant>,
    ) -> (evidence: ProjectionClaimEvidence)
        ensures
            evidence == (ProjectionClaimEvidence { logseq_uuid, participants }),
    {
        ProjectionClaimEvidence { logseq_uuid, participants }
    }

    /// The claimed identity.
    pub fn logseq_uuid(&self) -> (logseq_uuid: LogseqUuid)
        ensures
            logseq_uuid == self.logseq_uuid,
    {
        self.logseq_uuid
    }

    /// The blocks that claim it.
    pub fn participants(&self) -> (participants: &[ProjectionClaimParticipant])
        ensures
            participants@ == self.participants@,
    {
        self.participants.as_slice()
    }

    /// A copy of the evidence.
    pub fn duplicate(&self) -> (copy: ProjectionClaimEvidence)
        ensures
            copy@ == self@,
    {
        let mut participants: Vec<ProjectionClaimParticipant> = Vec::new();
        let mut index: usize = 0;
        while index < self.participants.len()
            invariant
                index <= self.participants@.len(),
                participants@ == self.participants@.take(index as int),
            decreases self.participants@.len() - index,
        {
            participants.push(self.participants[index]);
            index += 1;
            assert(participants@ =~= self.participants@.take(index as int));
        }
        assert(participants@ =~= self.participants@);
        ProjectionClaimEvidence { logseq_uuid: self.logseq_uuid, participants }
    }

    /// Whether two pieces of evidence say the same.
    pub fn same(&self, other: &ProjectionClaimEvidence) -> (same: bool)
        ensures
            same == (self@ == other@),
    {
        if self.logseq_uuid != other.logseq_uuid {
            return false;
        }
        if self.participants.len() != other.participants.len() {
            return false;
        }
        let mut index: usize = 0;
        while index < self.participants.len()
            invariant
                index <= self.participants@.len(),
                self.participants@.len() == other.participants@.len(),
                self.logseq_uuid == other.logseq_uuid,
                forall|j: int|
                    0 <= j < index ==> #[trigger] self.participants@[j] == other.participants@[j],
            decreases self.participants@.len() - index,
        {
            if self.participants[index] != other.participants[index] {
                return false;
            }
            index += 1;
        }
        assert(self.participants@ =~= other.participants@);
        true
    }
}

/// Whether two lists of claim evidence say the same.
pub fn same_claims(a: &[ProjectionClaimEvidence], b: &[ProjectionClaimEvidence]) -> (same: bool)
    ensures
        same == (claim_views(a@) == claim_views(b@)),
{
    if a.len() != b.len() {
        assert(claim_views(a@).len() != claim_views(b@).len());
        return false;
    }
    let mut index: usize = 0;
    while index < a.len()
        invariant
            index <= a@.len(),
            a@.len() == b@.len(),
            forall|j: int| 0 <= j < index ==> (#[trigger] a@[j])@ == b@[j]@,
        decreases a@.len() - index,
    {
        if !a[index].same(&b[index]) {
            assert(claim_views(a@)[index as int] == a@[index as int]@);
            assert(claim_views(b@)[index as int] == b@[index as int]@);
            return false;
        }
        index += 1;
    }
    assert(claim_views(a@) =~= claim_views(b@));
    true
}

/// A copy of a list of claim evidence.
pub fn copy_claims(evidence: &[ProjectionClaimEvidence]) -> (out: Vec<ProjectionClaimEvidence>)
    ensures
        claim_views(out@) == claim_views(evidence@),
{
    let mut out: Vec<ProjectionClaimEvidence> = Vec::new();
    let mut index: usize = 0;
    while index < evidence.len()
        invariant
            index <= evidence@.len(),
            out@.len() == index,
            forall|j: int| 0 <= j < index ==> (#[trigger] out@[j])@ == evidence@[j]@,
        decreases evidence@.len() - index,
    {
        out.push(evidence[index].duplicate());
        index += 1;
    }
    assert(claim_views(out@) =~= claim_views(evidence@));
    out
}

} // verus!
