//! Projection turns: the pages that one durable record asks to be projected together.

use vstd::prelude::*;

use crate::annotation::{
    annotation_views, claim_views, copy_annotations, copy_claims, AnnotatedIdentity,
    AnnotatedIdentityView, ProjectionClaimEvidence, ProjectionClaimEvidenceView,
};
use crate::error::ProjectionError;
use crate::frontier::FrontierV2;
use crate::hash::BlobDescription;
use crate::ids::{BatchId, PageId, ProjectionEndpointId, Uuid, WorkspaceId};
use crate::intent::{
    ProjectionIntent, ProjectionIntentView, ProjectionPrecondition, ProjectionTargetKind,
};
use crate::manifest::{
    ManifestProjectionTarget, ManifestedProjectionIntent, ManifestedProjectionIntentWire,
};
use crate::manifest_base::{AnnotatedProjectionBase, AnnotatedProjectionBaseWire};
use crate::manifest_set::OperationObject;
use crate::path::{ManagedPath, ManagedPathView};
use crate::store_error::Reason;
use crate::work::{
    authenticated_source_layout_base, decode_manifested_projection_work, decoded_work, layout_base,
    ArchiveRead, ProjectionWork,
};

verus! {

/// What a turn says must be at the path of a page.
#[derive(Clone, Debug, PartialEq, Eq)]
pub enum TurnPrecondition {
    Absent,
    Base {
        description: BlobDescription,
        bytes: Option<Vec<u8>>,
        annotations: Vec<AnnotatedIdentity>,
    },
}

/// What a turn leaves at the path of a page.
#[derive(Clone, Debug, PartialEq, Eq)]
pub enum TurnTarget {
    Absent,
    Present {
        description: BlobDescription,
        bytes: Option<Vec<u8>>,
        annotations: Vec<AnnotatedIdentity>,
    },
}

/// A page of a turn.
#[derive(Clone, Debug, PartialEq, Eq)]
pub struct TurnPage {
    pub page_id: PageId,
    pub path: ManagedPath,
    pub precondition: TurnPrecondition,
    pub target: TurnTarget,
    pub frontier: FrontierV2,
    pub claim_evidence: Vec<ProjectionClaimEvidence>,
}

/// What described bytes of a turn say.
pub struct TurnBlobView {
    pub description: BlobDescription,
    pub bytes: Option<Seq<u8>>,
    pub annotations: Seq<AnnotatedIdentityView>,
}

/// What a page of a turn says. Absence is `None`.
pub struct TurnPageView {
    pub page_id: PageId,
    pub path: ManagedPathView,
    pub precondition: Option<TurnBlobView>,
    pub target: Option<TurnBlobView>,
    pub frontier: Seq<u8>,
    pub claim_evidence: Seq<ProjectionClaimEvidenceView>,
}

/// What a turn's precondition says.
pub open spec fn precondition_view(precondition: TurnPrecondition) -> Option<TurnBlobView> {
    match precondition {
        TurnPrecondition::Absent => None,
        TurnPrecondition::Base { description, bytes, annotations } => Some(
            TurnBlobView {
                description,
                bytes: crate::page::optional_text(bytes),
                annotations: annotation_views(annotations@),
            },
        ),
    }
}

/// What a turn's target says.
pub open spec fn target_view(target: TurnTarget) -> Option<TurnBlobView> {
    match target {
        TurnTarget::Absent => None,
        TurnTarget::Present { description, bytes, annotations } => Some(
            TurnBlobView {
                description,
                bytes: crate::page::optional_text(bytes),
                annotations: annotation_views(annotations@),
            },
        ),
    }
}

impl View for TurnPage {
    type V = TurnPageView;

    open spec fn view(&self) -> TurnPageView {
        TurnPageView {
            page_id: self.page_id,
            path: self.path@,
            precondition: precondition_view(self.precondition),
            target: target_view(self.target),
            frontier: self.frontier@,
            claim_evidence: claim_views(self.claim_evidence@),
        }
    }
}

/// What the pages of a turn say.
pub open spec fn page_views(pages: Seq<TurnPage>) -> Seq<TurnPageView> {
    pages.map_values(|page: TurnPage| page@)
}

/// What made a turn.
#[derive(Clone, Copy, Debug, PartialEq, Eq, Structural)]
pub enum TurnOrigin {
    /// An accepted batch of this device.
    Accepted { batch_id: BatchId },
    /// The current terminal heads.
    Terminal,
    /// A batch of another device that has just been taken in.
    IngressForeign { batch_id: Option<BatchId> },
    /// A batch of another device that a terminal head stands on.
    TerminalForeign { batch_id: Option<BatchId> },
    /// A file that still holds the observed bytes of a superseded projection.
    SupersededRepair { page_id: PageId, observed: BlobDescription },
}

impl TurnOrigin {
    /// The batch that the turn is for.
    pub open spec fn spec_batch_id(self) -> Option<BatchId> {
        match self {
            TurnOrigin::Accepted { batch_id } => Some(batch_id),
            TurnOrigin::IngressForeign { batch_id } => batch_id,
            TurnOrigin::TerminalForeign { batch_id } => batch_id,
            _ => None,
        }
    }

    /// The batch that the turn is for.
    pub fn batch_id(&self) -> (batch_id: Option<BatchId>)
        ensures
            batch_id == self.spec_batch_id(),
    {
        match *self {
            TurnOrigin::Accepted { batch_id } => Some(batch_id),
            TurnOrigin::IngressForeign { batch_id } => batch_id,
            TurnOrigin::TerminalForeign { batch_id } => batch_id,
            _ => None,
        }
    }

    /// Whether the turn is for a batch of another device.
    pub open spec fn spec_is_foreign(self) -> bool {
        self is IngressForeign || self is TerminalForeign
    }

    /// Whether the turn is for a batch of another device.
    pub fn is_foreign(&self) -> (foreign: bool)
        ensures
            foreign == self.spec_is_foreign(),
    {
        match *self {
            TurnOrigin::IngressForeign { .. } => true,
            TurnOrigin::TerminalForeign { .. } => true,
            _ => false,
        }
    }
}

/// The sequence that a turn's record stands in.
#[derive(Clone, Copy, Debug, PartialEq, Eq, Structural)]
pub enum SequenceDomain {
    ProjectionTurn,
    Other,
}

/// One durable record of pages to project.
#[derive(Clone, Debug, PartialEq, Eq)]
pub struct ProjectionTurn {
    pub workspace_id: WorkspaceId,
    pub device_id: Uuid,
    pub endpoint_id: ProjectionEndpointId,
    pub domain: SequenceDomain,
    pub origin: TurnOrigin,
    pub pages: Vec<TurnPage>,
    /// The attempt that each page is projected under.
    pub attempt_ids: Vec<Uuid>,
}

impl ProjectionTurn {
    /// The attempt that the page at `index` is projected under, if there is one.
    pub fn attempt_id(&self, index: usize) -> (attempt_id: Option<Uuid>)
        ensures
            attempt_id == (if index < self.attempt_ids@.len() {
                Some(self.attempt_ids@[index as int])
            } else {
                None
            }),
    {
        if index < self.attempt_ids.len() {
            Some(self.attempt_ids[index])
        } else {
            None
        }
    }
}

/// The described target of a turn page for an intent of a batch.
pub open spec fn described_target(target: ManifestProjectionTarget) -> Option<TurnBlobView> {
    match target {
        ManifestProjectionTarget::Absent => None,
        ManifestProjectionTarget::Present { description, annotations, .. } => Some(
            TurnBlobView {
                description,
                bytes: None,
                annotations: annotation_views(annotations@),
            },
        ),
    }
}

/// The described precondition of a turn page for an annotated base.
pub open spec fn described_base(base: Option<AnnotatedProjectionBaseWire>) -> Option<TurnBlobView> {
    match base {
        None => None,
        Some(base) => Some(
            TurnBlobView {
                description: base.description,
                bytes: None,
                annotations: annotation_views(base.annotations@),
            },
        ),
    }
}

/// The turn page of an intent of a batch with its base. It describes bytes and holds none.
pub open spec fn described_page(
    fields: ManifestedProjectionIntentWire,
    base: Option<AnnotatedProjectionBaseWire>,
) -> TurnPageView {
    TurnPageView {
        page_id: fields.page_id,
        path: fields.path@,
        precondition: described_base(base),
        target: described_target(fields.target),
        frontier: fields.post_frontier@,
        claim_evidence: claim_views(fields.claim_evidence@),
    }
}

/// Describes the target of an intent.
fn describe_target(target: &ManifestProjectionTarget) -> (described: TurnTarget)
    ensures
        target_view(described) == described_target(*target),
{
    match target {
        ManifestProjectionTarget::Absent => TurnTarget::Absent,
        ManifestProjectionTarget::Present { description, annotations, .. } => TurnTarget::Present {
            description: *description,
            bytes: None,
            annotations: copy_annotations(annotations.as_slice()),
        },
    }
}

/// Describes an annotated base.
fn describe_base(base: &Option<AnnotatedProjectionBase>) -> (described: TurnPrecondition)
    ensures
        precondition_view(described) == described_base(crate::work::optional_base_wire(*base)),
{
    match base {
        None => TurnPrecondition::Absent,
        Some(base) => TurnPrecondition::Base {
            description: base.description(),
            bytes: None,
            annotations: copy_annotations(base.annotations()),
        },
    }
}

/// Describes an intent of a batch with its base.
fn describe_page(
    source: &ManifestedProjectionIntent,
    base: &Option<AnnotatedProjectionBase>,
) -> (page: TurnPage)
    ensures
        page@ == described_page(source.wire(), crate::work::optional_base_wire(*base)),
{
    TurnPage {
        page_id: source.page_id(),
        path: source.path().duplicate(),
        precondition: describe_base(base),
        target: describe_target(source.target()),
        frontier: source.post_frontier().duplicate(),
        claim_evidence: copy_claims(source.claim_evidence()),
    }
}

/// A piece of work with the objects that the archive gave for it.
#[derive(Debug, PartialEq, Eq)]
pub struct ArchivedWork {
    pub work: ProjectionWork,
    pub intent_object: Result<OperationObject, String>,
    pub base_object: Result<OperationObject, String>,
}

/// The turn page of a piece of work, or why the work is refused. The page and its path and
/// frontier are those of the work.
pub open spec fn work_page(archived: ArchivedWork) -> Result<TurnPageView, ProjectionError> {
    match decoded_work(archived.work, archived.intent_object, archived.base_object) {
        Err(error) => Err(error),
        Ok(decoded) => Ok(
            TurnPageView {
                path: archived.work.path@,
                ..described_page(decoded.manifested, decoded.annotated_base)
            },
        ),
    }
}

/// The turn pages of the first `n` pieces of work, or why the first faulty one is refused.
pub open spec fn work_pages(work: Seq<ArchivedWork>, n: nat) -> Result<
    Seq<TurnPageView>,
    ProjectionError,
>
    decreases n,
{
    if n == 0 {
        Ok(Seq::empty())
    } else {
        match work_pages(work, (n - 1) as nat) {
            Err(error) => Err(error),
            Ok(pages) => match work_page(work[n - 1]) {
                Err(error) => Err(error),
                Ok(page) => Ok(pages.push(page)),
            },
        }
    }
}

/// Once a piece of work is refused, so is every longer list.
proof fn lemma_refused_work(work: Seq<ArchivedWork>, m: nat, n: nat)
    requires
        m <= n,
        work_pages(work, m) is Err,
    ensures
        work_pages(work, n) == work_pages(work, m),
    decreases n,
{
    if m < n {
        lemma_refused_work(work, m, (n - 1) as nat);
    }
}

/// The described pages of a turn for accepted work. `None` is that there is no archive.
pub fn projection_turn_pages_for_work(work: Option<Vec<ArchivedWork>>) -> (pages: Result<
    Vec<TurnPage>,
    ProjectionError,
>)
    ensures
        match work {
            None => pages == Err::<Vec<TurnPage>, _>(
                ProjectionError::Archive(Reason::Own("projection turn has no accepted archive")),
            ),
            Some(work) => match work_pages(work@, work@.len()) {
                Err(error) => pages == Err::<Vec<TurnPage>, _>(error),
                Ok(views) => pages is Ok && page_views(pages->Ok_0@) == views,
            },
        },
{
    let all = match work {
        None => return Err(
            ProjectionError::Archive(Reason::Own("projection turn has no accepted archive")),
        ),
        Some(all) => all,
    };
    let ghost given = all@;
    let mut pages: Vec<TurnPage> = Vec::new();
    assert(page_views(pages@) =~= Seq::<TurnPageView>::empty());
    for archived in iter: all.into_iter()
        invariant
            iter.seq() == given,
            work is Some,
            work->0@ == given,
            work_pages(given, iter.index() as nat) == Ok::<_, ProjectionError>(page_views(pages@)),
    {
        let ghost at = iter.index() as nat;
        assert(archived == given[at as int]);
        let ghost before = pages@;
        let path = archived.work.path.duplicate();
        match decode_manifested_projection_work(
            &archived.work,
            archived.intent_object,
            archived.base_object,
        ) {
            Err(error) => {
                proof {
                    assert(work_pages(given, at + 1) == Err::<Seq<TurnPageView>, _>(error));
                    lemma_refused_work(given, at + 1, given.len());
                }
                return Err(error);
            },
            Ok(decoded) => {
                let described = describe_page(&decoded.manifested, &decoded.annotated_base);
                let page = TurnPage { path, ..described };
                pages.push(page);
                assert(page_views(pages@) =~= page_views(before).push(page@));
            },
        }
    }
    Ok(pages)
}

/// An intent of another device with what the archive gave for the base that it names.
#[derive(Debug, PartialEq, Eq)]
pub struct ForeignSource {
    pub source: ManifestedProjectionIntent,
    pub base: ArchiveRead,
}

/// The turn pages of the first `n` sources, or why the first faulty one is refused.
pub open spec fn foreign_pages(sources: Seq<ForeignSource>, n: nat) -> Result<
    Seq<TurnPageView>,
    ProjectionError,
>
    decreases n,
{
    if n == 0 {
        Ok(Seq::empty())
    } else {
        match foreign_pages(sources, (n - 1) as nat) {
            Err(error) => Err(error),
            Ok(pages) => match layout_base(sources[n - 1].source.wire(), sources[n - 1].base) {
                Err(error) => Err(error),
                Ok(base) => Ok(pages.push(described_page(sources[n - 1].source.wire(), base))),
            },
        }
    }
}

/// Once a source is refused, so is every longer list.
proof fn lemma_refused_source(sources: Seq<ForeignSource>, m: nat, n: nat)
    requires
        m <= n,
        foreign_pages(sources, m) is Err,
    ensures
        foreign_pages(sources, n) == foreign_pages(sources, m),
    decreases n,
{
    if m < n {
        lemma_refused_source(sources, m, (n - 1) as nat);
    }
}

/// The described pages of a turn for intents of another device.
pub fn projection_turn_pages_for_foreign_sources(sources: Vec<ForeignSource>) -> (pages: Result<
    Vec<TurnPage>,
    ProjectionError,
>)
    ensures
        match foreign_pages(sources@, sources@.len()) {
            Err(error) => pages == Err::<Vec<TurnPage>, _>(error),
            Ok(views) => pages is Ok && page_views(pages->Ok_0@) == views,
        },
{
    let ghost given = sources@;
    let mut pages: Vec<TurnPage> = Vec::new();
    assert(page_views(pages@) =~= Seq::<TurnPageView>::empty());
    for foreign in iter: sources.into_iter()
        invariant
            iter.seq() == given,
            foreign_pages(given, iter.index() as nat) == Ok::<_, ProjectionError>(
                page_views(pages@),
            ),
    {
        let ghost at = iter.index() as nat;
        assert(foreign == given[at as int]);
        let ghost before = pages@;
        match authenticated_source_layout_base(&foreign.source, foreign.base) {
            Err(error) => {
                proof {
                    assert(foreign_pages(given, at + 1) == Err::<Seq<TurnPageView>, _>(error));
                    lemma_refused_source(given, at + 1, given.len());
                }
                return Err(error);
            },
            Ok(base) => {
                let page = describe_page(&foreign.source, &base);
                pages.push(page);
                assert(page_views(pages@) =~= page_views(before).push(page@));
            },
        }
    }
    Ok(pages)
}

/// The intent that a page of a turn stands for on this device.
pub open spec fn turn_intent(workspace_id: WorkspaceId, page: TurnPageView) -> ProjectionIntentView {
    ProjectionIntentView {
        workspace_id,
        page_id: page.page_id,
        path: page.path,
        frontier: page.frontier,
        claim_evidence: page.claim_evidence,
        precondition: match page.precondition {
            None => ProjectionPrecondition::Absent,
            Some(base) => ProjectionPrecondition::Base(base.description),
        },
        target_kind: match page.target {
            None => ProjectionTargetKind::Absent,
            Some(_) => ProjectionTargetKind::Present,
        },
        target: match page.target {
            None => BlobDescription::spec_of(Seq::empty()),
            Some(target) => target.description,
        },
        annotations: match page.target {
            None => Seq::empty(),
            Some(target) => target.annotations,
        },
    }
}

/// The intent that a page of a turn stands for on this device.
fn intent_of_page(workspace_id: WorkspaceId, page: &TurnPage) -> (intent: Result<
    ProjectionIntent,
    ProjectionError,
>)
    ensures
        intent is Ok,
        intent->Ok_0@ == turn_intent(workspace_id, page@),
{
    let precondition = match &page.precondition {
        TurnPrecondition::Absent => ProjectionPrecondition::Absent,
        TurnPrecondition::Base { description, .. } => ProjectionPrecondition::Base(*description),
    };
    let (target_kind, target, annotations) = match &page.target {
        TurnTarget::Absent => {
            let nothing: &[u8] = &[];
            assert(nothing@ =~= Seq::<u8>::empty());
            let none: Vec<AnnotatedIdentity> = Vec::new();
            assert(annotation_views(none@) =~= Seq::<AnnotatedIdentityView>::empty());
            (ProjectionTargetKind::Absent, BlobDescription::of(nothing), none)
        },
        TurnTarget::Present { description, annotations, .. } => (
            ProjectionTargetKind::Present,
            *description,
            copy_annotations(annotations.as_slice()),
        ),
    };
    match ProjectionIntent::new(
        workspace_id,
        page.page_id,
        page.path.duplicate(),
        page.frontier.duplicate(),
        copy_claims(page.claim_evidence.as_slice()),
        precondition,
        target_kind,
        target,
        annotations,
    ) {
        Ok(intent) => Ok(intent),
        Err(error) => Err(ProjectionError::Receipt(error)),
    }
}

/// The local intents whose completions an unretired turn still refers to: one for each page, and
/// none for a turn of another device's batch.
pub fn local_completion_intents_for_turn(turn: &ProjectionTurn) -> (intents: Result<
    Vec<ProjectionIntent>,
    ProjectionError,
>)
    ensures
        intents is Ok,
        intents->Ok_0@.len() == (if turn.origin.spec_is_foreign() {
            0
        } else {
            turn.pages@.len()
        }),
        forall|i: int|
            0 <= i < intents->Ok_0@.len() ==> (#[trigger] intents->Ok_0@[i])@ == turn_intent(
                turn.workspace_id,
                turn.pages@[i]@,
            ),
{
    let mut intents: Vec<ProjectionIntent> = Vec::new();
    if turn.origin.is_foreign() {
        return Ok(intents);
    }
    for i in 0..turn.pages.len()
        invariant
            intents@.len() == i,
            forall|j: int|
                0 <= j < i ==> (#[trigger] intents@[j])@ == turn_intent(
                    turn.workspace_id,
                    turn.pages@[j]@,
                ),
    {
        match intent_of_page(turn.workspace_id, &turn.pages[i]) {
            Ok(intent) => intents.push(intent),
            Err(error) => return Err(error),
        }
    }
    Ok(intents)
}

} // verus!
