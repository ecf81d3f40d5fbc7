//! Projection intents: what a page's file must hold before and will hold after a projection.

use vstd::prelude::*;

use crate::annotation::{
    annotation_views, claim_views, copy_annotations, copy_claims, same_annotations, same_claims,
    AnnotatedIdentity, AnnotatedIdentityView, ProjectionClaimEvidence, ProjectionClaimEvidenceView,
    ReceiptError,
};
use crate::frontier::FrontierV2;
use crate::hash::BlobDescription;
use crate::ids::{PageId, WorkspaceId};
use crate::path::{ManagedPath, ManagedPathView};

verus! {

/// What must be at the path before a projection.
#[derive(Clone, Copy, Debug, PartialEq, Eq, Structural)]
pub enum ProjectionPrecondition {
    Absent,
    Base(BlobDescription),
}

/// Whether a projection leaves a file or none.
#[derive(Clone, Copy, Debug, PartialEq, Eq, Structural)]
pub enum ProjectionTargetKind {
    Present,
    Absent,
}

/// Bytes that a projection starts from, with their description.
#[derive(Clone, Debug, PartialEq, Eq)]
pub struct BaseBlob {
    pub description: BlobDescription,
    pub bytes: Vec<u8>,
}

impl View for BaseBlob {
    type V = Seq<u8>;

    open spec fn view(&self) -> Seq<u8> {
        self.bytes@
    }
}

impl BaseBlob {
    /// Whether the description is that of the bytes.
    pub open spec fn wf(self) -> bool {
        self.description == BlobDescription::spec_of(self.bytes@)
    }

    /// The base of some bytes.
    pub fn new(bytes: Vec<u8>) -> (base: BaseBlob)
        ensures
            base.wf(),
            base@ == bytes@,
    {
        BaseBlob { description: BlobDescription::of(bytes.as_slice()), bytes }
    }

    /// The description of the bytes.
    pub fn description(&self) -> (description: BlobDescription)
        ensures
            description == self.description,
    {
        self.description
    }

    /// The bytes.
    pub fn bytes(&self) -> (bytes: &[u8])
        ensures
            bytes@ == self@,
    {
        self.bytes.as_slice()
    }
}

/// What a page's file must hold before and will hold after a projection.
#[derive(Clone, Debug, PartialEq, Eq)]
pub struct ProjectionIntent {
    pub workspace_id: WorkspaceId,
    pub page_id: PageId,
    pub path: ManagedPath,
    pub frontier: FrontierV2,
    pub claim_evidence: Vec<ProjectionClaimEvidence>,
    pub precondition: ProjectionPrecondition,
    pub target_kind: ProjectionTargetKind,
    pub target: BlobDescription,
    pub annotations: Vec<AnnotatedIdentity>,
}

/// What an intent says.
pub struct ProjectionIntentView {
    pub workspace_id: WorkspaceId,
    pub page_id: PageId,
    pub path: ManagedPathView,
    pub frontier: Seq<u8>,
    pub claim_evidence: Seq<ProjectionClaimEvidenceView>,
    pub precondition: ProjectionPrecondition,
    pub target_kind: ProjectionTargetKind,
    pub target: BlobDescription,
    pub annotations: Seq<AnnotatedIdentityView>,
}

impl View for ProjectionIntent {
    type V = ProjectionIntentView;

    open spec fn view(&self) -> ProjectionIntentView {
        ProjectionIntentView {
            workspace_id: self.workspace_id,
            page_id: self.page_id,
            path: self.path@,
            frontier: self.frontier@,
            claim_evidence: claim_views(self.claim_evidence@),
            precondition: self.precondition,
            target_kind: self.target_kind,
            target: self.target,
            annotations: annotation_views(self.annotations@),
        }
    }
}

impl ProjectionIntent {
    /// Whether an absent target declares no bytes.
    pub open spec fn wf(self) -> bool {
        self.target_kind == ProjectionTargetKind::Absent ==> self.target.byte_length == 0
    }

    /// The intent with the given parts. An absent target declares no bytes.
    pub fn new(
        workspace_id: WorkspaceId,
        page_id: PageId,
        path: ManagedPath,
        frontier: FrontierV2,
        claim_evidence: Vec<ProjectionClaimEvidence>,
        precondition: ProjectionPrecondition,
        target_kind: ProjectionTargetKind,
        target: BlobDescription,
        annotations: Vec<AnnotatedIdentity>,
    ) -> (intent: Result<ProjectionIntent, ReceiptError>)
        ensures
            if target_kind == ProjectionTargetKind::Absent && target.byte_length != 0 {
                intent == Err::<ProjectionIntent, _>(ReceiptError::AbsentTargetWithBytes)
            } else {
                &&& intent == Ok::<_, ReceiptError>(
                    ProjectionIntent {
                        workspace_id,
                        page_id,
                        path,
                        frontier,
                        claim_evidence,
                        precondition,
                        target_kind,
                        target,
                        annotations,
                    },
                )
                &&& intent->Ok_0.wf()
            },
    {
        if target_kind == ProjectionTargetKind::Absent && target.byte_length != 0 {
            return Err(ReceiptError::AbsentTargetWithBytes);
        }
        Ok(
            ProjectionIntent {
                workspace_id,
                page_id,
                path,
                frontier,
                claim_evidence,
                precondition,
                target_kind,
                target,
                annotations,
            },
        )
    }

    /// The workspace.
    pub fn workspace_id(&self) -> (workspace_id: WorkspaceId)
        ensures
            workspace_id == self.workspace_id,
    {
        self.workspace_id
    }

    /// The page.
    pub fn page_id(&self) -> (page_id: PageId)
        ensures
            page_id == self.page_id,
    {
        self.page_id
    }

    /// The path of the page.
    pub fn path(&self) -> (path: &ManagedPath)
        ensures
            *path == self.path,
    {
        &self.path
    }

    /// The frontier that the page was accepted at.
    pub fn frontier(&self) -> (frontier: &FrontierV2)
        ensures
            *frontier == self.frontier,
    {
        &self.frontier
    }

    /// The blocks that claim the written identities.
    pub fn claim_evidence(&self) -> (claim_evidence: &[ProjectionClaimEvidence])
        ensures
            claim_evidence@ == self.claim_evidence@,
    {
        self.claim_evidence.as_slice()
    }

    /// What must be there before.
    pub fn precondition(&self) -> (precondition: ProjectionPrecondition)
        ensures
            precondition == self.precondition,
    {
        self.precondition
    }

    /// Whether a file is left.
    pub fn target_kind(&self) -> (target_kind: ProjectionTargetKind)
        ensures
            target_kind == self.target_kind,
    {
        self.target_kind
    }

    /// The bytes that are left.
    pub fn target(&self) -> (target: BlobDescription)
        ensures
            target == self.target,
    {
        self.target
    }

    /// The identities in the bytes that are left.
    pub fn annotations(&self) -> (annotations: &[AnnotatedIdentity])
        ensures
            annotations@ == self.annotations@,
    {
        self.annotations.as_slice()
    }

    /// A copy of the intent.
    pub fn duplicate(&self) -> (copy: ProjectionIntent)
        ensures
            copy@ == self@,
    {
        ProjectionIntent {
            workspace_id: self.workspace_id,
            page_id: self.page_id,
            path: self.path.duplicate(),
            frontier: self.frontier.duplicate(),
            claim_evidence: copy_claims(self.claim_evidence.as_slice()),
            precondition: self.precondition,
            target_kind: self.target_kind,
            target: self.target,
            annotations: copy_annotations(self.annotations.as_slice()),
        }
    }

    /// Whether two intents say the same.
    pub fn same(&self, other: &ProjectionIntent) -> (same: bool)
        ensures
            same == (self@ == other@),
    {
        self.workspace_id == other.workspace_id && self.page_id == other.page_id && self.path.same(
            &other.path,
        ) && self.path.portable_key_digest == other.path.portable_key_digest && self.frontier.same(
            &other.frontier,
        ) && same_claims(self.claim_evidence.as_slice(), other.claim_evidence.as_slice())
            && self.precondition == other.precondition && self.target_kind == other.target_kind
            && self.target == other.target && same_annotations(
            self.annotations.as_slice(),
            other.annotations.as_slice(),
        )
    }
}

} // verus!
