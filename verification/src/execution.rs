//! What every execution of a projection decides by: endpoints, operations, outcomes and records.

use vstd::prelude::*;

use crate::annotation::{
    annotation_views, claim_views, same_annotations, same_claims, AnnotatedIdentity,
    AnnotatedIdentityView, ProjectionClaimEvidence, ProjectionClaimEvidenceView,
};
use crate::bytes::copy_bytes;
use crate::error::ProjectionError;
use crate::frontier::FrontierV2;
use crate::hash::BlobDescription;
use crate::ids::{
    CanonicalGraphResourceId, DeviceId, PageId, ProjectionEndpointId, ProjectionReceiptStoreId,
    WorkspaceId,
};
use crate::intent::{
    BaseBlob, ProjectionIntent, ProjectionIntentView, ProjectionPrecondition, ProjectionTargetKind,
};
use crate::messages::reason_text;
use crate::page::ProjectionPageState;
use crate::path::ManagedPath;
use crate::plan::{
    optional_bytes, GuardedLayoutView, GuardedProjectionLayout, PolicyGeneratedAnchor,
    ProjectionPlan, ProjectionPlanView,
};
use crate::store_error::{IoFailure, IoFailureKind, ProjectionStoreError, Reason};

verus! {

/// How an execution ended.
#[derive(Clone, Copy, Debug, PartialEq, Eq, Structural)]
pub enum ProjectionExecution {
    /// The page's file was proved and its durability barrier taken.
    BarrierTaken,
    /// Nothing had to be done; the turn has to take the barrier again.
    NeedsTurnRebarrier,
    /// The file is gone: nothing was done, and no completion was written.
    DeferredAbsence,
}

/// A guarded operation on a page's file.
#[derive(Clone, Copy, Debug, PartialEq, Eq, Structural)]
pub enum GraphOperation {
    /// Writes the target over the base.
    Write,
    /// Proves or finishes an earlier write.
    Recover,
    /// Removes the base.
    Remove,
    /// Proves or finishes an earlier removal.
    RecoverRemoved,
    /// Proves that there is no file.
    ConfirmRemoved,
}

/// Where projections of this device go.
#[derive(Clone, Copy, Debug, PartialEq, Eq, Structural)]
pub struct ProjectionEndpointBinding {
    pub endpoint_id: ProjectionEndpointId,
    pub device_id: DeviceId,
    pub graph_resource_id: CanonicalGraphResourceId,
}

impl ProjectionEndpointBinding {
    /// The endpoint.
    pub fn endpoint_id(&self) -> (endpoint_id: ProjectionEndpointId)
        ensures
            endpoint_id == self.endpoint_id,
    {
        self.endpoint_id
    }

    /// The device.
    pub fn device_id(&self) -> (device_id: DeviceId)
        ensures
            device_id == self.device_id,
    {
        self.device_id
    }

    /// The graph.
    pub fn graph_resource_id(&self) -> (graph_resource_id: CanonicalGraphResourceId)
        ensures
            graph_resource_id == self.graph_resource_id,
    {
        self.graph_resource_id
    }
}

/// What has to hold between engine, receipt store and graph before a projection, or what is wrong.
pub open spec fn endpoint_authority(
    endpoint: Option<ProjectionEndpointBinding>,
    engine_store_id: Option<ProjectionReceiptStoreId>,
    store_id: ProjectionReceiptStoreId,
    store_accepts: Result<(), ProjectionStoreError>,
    resource: Result<CanonicalGraphResourceId, IoFailure>,
) -> Result<ProjectionEndpointBinding, ProjectionError> {
    match endpoint {
        None => Err(ProjectionError::EndpointBindingMismatch),
        Some(endpoint) => if engine_store_id != Some(store_id) {
            Err(ProjectionError::EndpointBindingMismatch)
        } else {
            match store_accepts {
                Err(error) => Err(ProjectionError::Store(Box::new(error))),
                Ok(()) => match resource {
                    Err(failure) => Err(ProjectionError::Io(failure)),
                    Ok(resource) => if resource != endpoint.graph_resource_id {
                        Err(ProjectionError::EndpointBindingMismatch)
                    } else {
                        Ok(endpoint)
                    },
                },
            }
        },
    }
}

/// Checks that engine, receipt store and graph belong together, and gives the endpoint.
pub fn require_endpoint_authority(
    endpoint: Option<ProjectionEndpointBinding>,
    engine_store_id: Option<ProjectionReceiptStoreId>,
    store_id: ProjectionReceiptStoreId,
    store_accepts: Result<(), ProjectionStoreError>,
    resource: Result<CanonicalGraphResourceId, IoFailure>,
) -> (authority: Result<ProjectionEndpointBinding, ProjectionError>)
    ensures
        authority == endpoint_authority(
            endpoint,
            engine_store_id,
            store_id,
            store_accepts,
            resource,
        ),
{
    let endpoint = match endpoint {
        None => return Err(ProjectionError::EndpointBindingMismatch),
        Some(endpoint) => endpoint,
    };
    match engine_store_id {
        None => return Err(ProjectionError::EndpointBindingMismatch),
        Some(id) => if id != store_id {
            return Err(ProjectionError::EndpointBindingMismatch);
        },
    }
    if let Err(error) = store_accepts {
        return Err(ProjectionError::Store(Box::new(error)));
    }
    match resource {
        Err(failure) => Err(ProjectionError::Io(failure)),
        Ok(resource) => if resource != endpoint.graph_resource_id {
            Err(ProjectionError::EndpointBindingMismatch)
        } else {
            Ok(endpoint)
        },
    }
}

/// Whether a failed recovery leaves room for writing afresh: something else is there, or nothing.
pub open spec fn recovery_is_open(failure: IoFailure) -> bool {
    failure.kind == IoFailureKind::AlreadyExists || failure.kind == IoFailureKind::NotFound
}

/// Whether a failed recovery leaves room for writing afresh.
pub fn is_recovery_open(failure: &IoFailure) -> (open: bool)
    ensures
        open == recovery_is_open(*failure),
{
    failure.kind == IoFailureKind::AlreadyExists || failure.kind == IoFailureKind::NotFound
}

/// What an exhausted recovery of another device's projection ends in, once the file was read
/// again: absence is deferred, and any file that is there keeps the failure.
pub open spec fn recovery_disposition(
    input: Result<Option<Vec<u8>>, IoFailure>,
    failure: IoFailure,
) -> Result<ProjectionExecution, ProjectionError> {
    match input {
        Err(error) => Err(ProjectionError::Io(error)),
        Ok(None) => Ok(ProjectionExecution::DeferredAbsence),
        Ok(Some(_)) => Err(ProjectionError::Io(failure)),
    }
}

/// What an exhausted recovery of another device's projection ends in, given the failure and what a
/// fresh read of the file gave.
pub fn receiver_recovery_terminal_disposition(
    input: Result<Option<Vec<u8>>, IoFailure>,
    failure: IoFailure,
) -> (disposition: Result<ProjectionExecution, ProjectionError>)
    ensures
        disposition == recovery_disposition(input, failure),
{
    match input {
        Err(error) => Err(ProjectionError::Io(error)),
        Ok(None) => Ok(ProjectionExecution::DeferredAbsence),
        Ok(Some(_)) => Err(ProjectionError::Io(failure)),
    }
}

/// Whether two intents are of the same page state: all but base, target bytes and annotations.
pub open spec fn same_work_state(retained: ProjectionIntentView, replay: ProjectionIntentView) -> bool {
    &&& retained.workspace_id == replay.workspace_id
    &&& retained.page_id == replay.page_id
    &&& retained.path.text == replay.path.text
    &&& retained.frontier == replay.frontier
    &&& retained.claim_evidence == replay.claim_evidence
    &&& retained.target_kind == replay.target_kind
}

/// Whether a retained intent and a planned one are of the same page state.
pub fn receiver_projection_work_state_matches(
    retained: &ProjectionIntent,
    replay: &ProjectionIntent,
) -> (matches: bool)
    ensures
        matches == same_work_state(retained@, replay@),
{
    retained.workspace_id == replay.workspace_id && retained.page_id == replay.page_id
        && retained.path.same(&replay.path) && retained.frontier.same(&replay.frontier)
        && same_claims(retained.claim_evidence.as_slice(), replay.claim_evidence.as_slice())
        && retained.target_kind == replay.target_kind
}

/// Whether two intents say the same but for the frontier.
pub open spec fn same_except_frontier(a: ProjectionIntentView, b: ProjectionIntentView) -> bool {
    &&& a.workspace_id == b.workspace_id
    &&& a.page_id == b.page_id
    &&& a.path.text == b.path.text
    &&& a.claim_evidence == b.claim_evidence
    &&& a.precondition == b.precondition
    &&& a.target_kind == b.target_kind
    &&& a.target == b.target
    &&& a.annotations == b.annotations
}

/// Whether two intents are of the same target on a revived page, wherever they start from.
pub open spec fn same_revival(a: ProjectionIntentView, b: ProjectionIntentView) -> bool {
    &&& a.workspace_id == b.workspace_id
    &&& a.page_id == b.page_id
    &&& a.path.text == b.path.text
    &&& a.claim_evidence == b.claim_evidence
    &&& a.target_kind == b.target_kind
    &&& a.target == b.target
    &&& a.annotations == b.annotations
}

/// Whether two intents are of the same target on a revived page.
pub fn revival_intent_matches(a: &ProjectionIntent, b: &ProjectionIntent) -> (matches: bool)
    ensures
        matches == same_revival(a@, b@),
{
    a.workspace_id == b.workspace_id && a.page_id == b.page_id && a.path.same(&b.path)
        && same_claims(a.claim_evidence.as_slice(), b.claim_evidence.as_slice()) && a.target_kind
        == b.target_kind && a.target == b.target && same_annotations(
        a.annotations.as_slice(),
        b.annotations.as_slice(),
    )
}

impl ProjectionIntent {
    /// Whether a replayed intent says the same but for the frontier.
    pub fn matches_replay_except_frontier(&self, replay: &ProjectionIntent) -> (matches: bool)
        ensures
            matches == same_except_frontier(self@, replay@),
    {
        self.precondition == replay.precondition && revival_intent_matches(self, replay)
    }
}

/// Whether a completed plan is that of the current accepted page.
pub open spec fn plan_is_current(
    workspace_id: WorkspaceId,
    current: ProjectionPageState,
    intent: ProjectionIntentView,
) -> bool {
    &&& intent.workspace_id == workspace_id
    &&& current.page.page_id == intent.page_id
    &&& current.page.path.text@ == intent.path.text
    &&& current.frontier@ == intent.frontier
    &&& claim_views(current.claim_evidence@) == intent.claim_evidence
}

/// Whether a completed plan is that of the current accepted page.
pub fn completed_plan_matches_current(
    workspace_id: WorkspaceId,
    current: &ProjectionPageState,
    plan: &ProjectionPlan,
) -> (matches: bool)
    ensures
        matches == plan_is_current(workspace_id, *current, plan@.intent),
{
    let intent = plan.intent();
    intent.workspace_id == workspace_id && current.page.page_id == intent.page_id
        && current.page.path.same(&intent.path) && current.frontier.same(&intent.frontier)
        && same_claims(current.claim_evidence.as_slice(), intent.claim_evidence.as_slice())
}

/// The accepted removal of a page.
#[derive(Clone, Debug, PartialEq, Eq)]
pub struct ProjectionTombstoneAuthorization {
    pub page_id: PageId,
    pub path: ManagedPath,
    pub frontier: FrontierV2,
}

/// Whether an intent carries out an accepted removal.
pub open spec fn tombstone_is_recorded(
    authorization: ProjectionTombstoneAuthorization,
    intent: ProjectionIntentView,
) -> bool {
    &&& authorization.page_id == intent.page_id
    &&& authorization.path.text@ == intent.path.text
    &&& authorization.frontier@ == intent.frontier
    &&& intent.claim_evidence.len() == 0
    &&& intent.target == BlobDescription::spec_of(Seq::empty())
    &&& intent.annotations.len() == 0
}

/// Checks that a completed intent carries out an accepted removal.
pub fn record_completed_tombstone_path(
    intent: &ProjectionIntent,
    authorization: &ProjectionTombstoneAuthorization,
) -> (recorded: Result<(), ProjectionError>)
    ensures
        recorded == (if tombstone_is_recorded(*authorization, intent@) {
            Ok(())
        } else {
            Err(ProjectionError::RecoveryIntentMismatch)
        }),
{
    let nothing: &[u8] = &[];
    assert(nothing@ =~= Seq::<u8>::empty());
    if authorization.page_id != intent.page_id || !authorization.path.same(&intent.path)
        || !authorization.frontier.same(&intent.frontier) || intent.claim_evidence.len() != 0
        || intent.target != BlobDescription::of(nothing) || intent.annotations.len() != 0 {
        return Err(ProjectionError::RecoveryIntentMismatch);
    }
    Ok(())
}

/// The plan that removes a page's file, from the bytes that are there.
pub open spec fn tombstone_plan(
    workspace_id: WorkspaceId,
    authorization: ProjectionTombstoneAuthorization,
    local_base: Option<Seq<u8>>,
) -> ProjectionPlanView {
    ProjectionPlanView {
        intent: ProjectionIntentView {
            workspace_id,
            page_id: authorization.page_id,
            path: authorization.path@,
            frontier: authorization.frontier@,
            claim_evidence: Seq::empty(),
            precondition: match local_base {
                None => ProjectionPrecondition::Absent,
                Some(bytes) => ProjectionPrecondition::Base(BlobDescription::spec_of(bytes)),
            },
            target_kind: ProjectionTargetKind::Absent,
            target: BlobDescription::spec_of(Seq::empty()),
            annotations: Seq::empty(),
        },
        base: local_base,
        target: Seq::empty(),
        guarded_layout: GuardedLayoutView {
            base: Seq::empty(),
            target: Seq::empty(),
            revive_page_self_base: false,
        },
        generated_anchors: Seq::empty(),
    }
}

/// Plans the removal of a page's file on this device. The bytes that are there are what the
/// removal starts from.
pub fn receiver_clean_tombstone_plan(
    workspace_id: WorkspaceId,
    authorization: &ProjectionTombstoneAuthorization,
    local_base: Option<&[u8]>,
) -> (plan: Result<ProjectionPlan, ProjectionError>)
    ensures
        plan is Ok,
        plan->Ok_0@ == tombstone_plan(workspace_id, *authorization, optional_bytes(local_base)),
        plan->Ok_0.wf(),
{
    let nothing: &[u8] = &[];
    assert(nothing@ =~= Seq::<u8>::empty());
    let claims: Vec<ProjectionClaimEvidence> = Vec::new();
    assert(claim_views(claims@) =~= Seq::<ProjectionClaimEvidenceView>::empty());
    let annotations: Vec<AnnotatedIdentity> = Vec::new();
    assert(annotation_views(annotations@) =~= Seq::<AnnotatedIdentityView>::empty());
    let base = match local_base {
        None => None,
        Some(bytes) => Some(BaseBlob::new(copy_bytes(bytes))),
    };
    let precondition = match &base {
        None => ProjectionPrecondition::Absent,
        Some(base) => ProjectionPrecondition::Base(base.description),
    };
    let intent = match ProjectionIntent::new(
        workspace_id,
        authorization.page_id,
        authorization.path.duplicate(),
        authorization.frontier.duplicate(),
        claims,
        precondition,
        ProjectionTargetKind::Absent,
        BlobDescription::of(nothing),
        annotations,
    ) {
        Ok(intent) => intent,
        Err(error) => return Err(ProjectionError::Receipt(error)),
    };
    let target: Vec<u8> = Vec::new();
    let generated_anchors: Vec<PolicyGeneratedAnchor> = Vec::new();
    let plan = ProjectionPlan {
        intent,
        base,
        target,
        guarded_layout: GuardedProjectionLayout::empty(),
        generated_anchors,
    };
    assert(plan@.target =~= Seq::<u8>::empty());
    assert(plan@.generated_anchors =~= Seq::<PolicyGeneratedAnchor>::empty());
    Ok(plan)
}

/// What Rust writes for a text between double quotes, with its special characters escaped.
pub uninterp spec fn quoted(text: Seq<char>) -> Seq<char>;

/// Calls the `Debug` implementation of `str` through `format!`: the text between double quotes,
/// with its special characters escaped. What is escaped, and how, is not stated.
#[verifier::external_body]
fn quote(text: &str) -> (out: String)
    ensures
        out@ == quoted(text@),
{
    format!("{:?}", text)
}

/// Whether `located` is `failure` with the path in front of its words.
pub open spec fn is_located(path: Seq<char>, failure: IoFailure, located: IoFailure) -> bool {
    &&& located.kind == failure.kind
    &&& !located.semantic_refusal
    &&& located.message is Reported
    &&& located.message->Reported_0@ == "projecting "@ + quoted(path) + ": "@ + reason_text(
        failure.message,
    )
}

/// Names the page in a failed input or output operation. Every other error already says what it is
/// about and stays as it is.
pub fn locate_projection_failure(path: &str, error: ProjectionError) -> (located: ProjectionError)
    ensures
        match error {
            ProjectionError::Io(failure) => located is Io && is_located(
                path@,
                failure,
                located->Io_0,
            ),
            other => located == other,
        },
{
    match error {
        ProjectionError::Io(failure) => {
            let mut message = "projecting ".to_owned();
            let name = quote(path);
            message.append(name.as_str());
            message.append(": ");
            failure.message.append_message(&mut message);
            ProjectionError::Io(
                IoFailure {
                    kind: failure.kind,
                    message: Reason::Reported(message),
                    semantic_refusal: false,
                },
            )
        },
        other => other,
    }
}

/// Failures that a harness asks for while a projection writes.
#[derive(Clone, Copy, Debug, PartialEq, Eq, Structural)]
pub struct ManifestedProjectionFaults {
    /// How many of the next writes fail.
    pub repeats: u32,
    /// Whether the write after those fails.
    pub armed: bool,
}

impl ManifestedProjectionFaults {
    /// No failures.
    pub fn none() -> (faults: ManifestedProjectionFaults)
        ensures
            faults == (ManifestedProjectionFaults { repeats: 0, armed: false }),
    {
        ManifestedProjectionFaults { repeats: 0, armed: false }
    }

    /// Makes the next write fail, and gives whether one was to fail before.
    pub fn fail_next_manifested_projection_during_write_for_harness(&mut self) -> (previously: bool)
        ensures
            previously == old(self).armed,
            final(self).armed,
            final(self).repeats == old(self).repeats,
    {
        let previously = self.armed;
        self.armed = true;
        previously
    }

    /// Makes the next `times` writes fail.
    pub fn fail_manifested_projection_repeatedly_for_harness(&mut self, times: u32)
        ensures
            *final(self) == (ManifestedProjectionFaults { repeats: times, ..*old(self) }),
    {
        self.repeats = times;
    }

    /// Puts back whether the next write fails.
    pub fn restore(&mut self, previously: bool)
        ensures
            *final(self) == (ManifestedProjectionFaults { armed: previously, ..*old(self) }),
    {
        self.armed = previously;
    }

    /// Fails where a failure was asked for. Each failure is used up by the write that it fails; the
    /// repeated ones come first.
    pub fn fail_during_manifested_projection_for_harness(&mut self) -> (outcome: Result<
        (),
        ProjectionError,
    >)
        ensures
            outcome is Ok <==> old(self).repeats == 0 && !old(self).armed,
            outcome is Err ==> outcome == Err::<(), _>(
                ProjectionError::Work(
                    Reason::Own("deterministic failure during manifested projection"),
                ),
            ),
            *final(self) == (if old(self).repeats > 0 {
                ManifestedProjectionFaults {
                    repeats: (old(self).repeats - 1) as u32,
                    ..*old(self)
                }
            } else {
                ManifestedProjectionFaults { repeats: 0, armed: false }
            }),
    {
        if self.repeats > 0 {
            self.repeats = self.repeats - 1;
            return Err(
                ProjectionError::Work(
                    Reason::Own("deterministic failure during manifested projection"),
                ),
            );
        }
        if self.armed {
            self.armed = false;
            return Err(
                ProjectionError::Work(
                    Reason::Own("deterministic failure during manifested projection"),
                ),
            );
        }
        Ok(())
    }
}

} // verus!
