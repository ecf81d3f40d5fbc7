//! Planning a page on this device for an intent of another.

use vstd::prelude::*;

use crate::annotation::{AnnotatedIdentity, AnnotatedIdentityView};
use crate::error::{EngineError, ProjectionError};
use crate::ids::{ProjectionEndpointId, WorkspaceId};
use crate::manifest::{
    ManifestProjectionTarget, ManifestedProjectionIntent, ManifestedProjectionIntentWire,
};
use crate::page::ProjectionPageState;
use crate::plan::{
    optional_annotations, plan_projection_with_layout_annotations, projection_plan, PageRendering,
    ProjectionPlan, ProjectionPlanView, SourceBase,
};

verus! {

/// The plan of this device for an intent of another, or why there is none. The source supplies no
/// bytes: the page is rendered from the accepted state against the bytes that are here.
pub open spec fn receiver_plan(
    workspace_id: WorkspaceId,
    source: ManifestedProjectionIntentWire,
    receiver_endpoint_id: ProjectionEndpointId,
    state: Result<ProjectionPageState, EngineError>,
    exact_local_base: Option<&SourceBase>,
    source_layout_annotations: Option<Seq<AnnotatedIdentityView>>,
    rendering: PageRendering,
) -> Result<ProjectionPlanView, ProjectionError> {
    if source.workspace_id != workspace_id {
        Err(ProjectionError::ReceiverSourceMismatch)
    } else if source.source_endpoint_id == receiver_endpoint_id {
        Err(ProjectionError::ReceiverEndpointIsSource)
    } else if source.target is Absent {
        Err(ProjectionError::ReceiverSourceAbsent)
    } else {
        match state {
            Err(error) => Err(ProjectionError::Engine(error)),
            Ok(state) => projection_plan(
                workspace_id,
                state,
                exact_local_base,
                source_layout_annotations,
                rendering,
            ),
        }
    }
}

/// Plans a page on this device for an intent of another, given the accepted state that the engine
/// authorized, or its refusal.
pub fn derive_receiver_local_projection(
    workspace_id: WorkspaceId,
    source: &ManifestedProjectionIntent,
    receiver_endpoint_id: ProjectionEndpointId,
    state: Result<ProjectionPageState, EngineError>,
    exact_local_base: Option<&SourceBase>,
    rendering: &PageRendering,
) -> (plan: Result<ProjectionPlan, ProjectionError>)
    ensures
        match receiver_plan(
            workspace_id,
            source.wire(),
            receiver_endpoint_id,
            state,
            exact_local_base,
            None,
            *rendering,
        ) {
            Ok(view) => plan is Ok && plan->Ok_0@ == view && plan->Ok_0.wf(),
            Err(error) => plan == Err::<ProjectionPlan, _>(error),
        },
{
    derive_receiver_local_projection_with_layout(
        workspace_id,
        source,
        receiver_endpoint_id,
        state,
        exact_local_base,
        None,
        rendering,
    )
}

/// Plans a page on this device for an intent of another, with the layout of the source author's
/// base.
pub fn derive_receiver_local_projection_with_layout(
    workspace_id: WorkspaceId,
    source: &ManifestedProjectionIntent,
    receiver_endpoint_id: ProjectionEndpointId,
    state: Result<ProjectionPageState, EngineError>,
    exact_local_base: Option<&SourceBase>,
    source_layout_annotations: Option<&[AnnotatedIdentity]>,
    rendering: &PageRendering,
) -> (plan: Result<ProjectionPlan, ProjectionError>)
    ensures
        match receiver_plan(
            workspace_id,
            source.wire(),
            receiver_endpoint_id,
            state,
            exact_local_base,
            optional_annotations(source_layout_annotations),
            *rendering,
        ) {
            Ok(view) => plan is Ok && plan->Ok_0@ == view && plan->Ok_0.wf(),
            Err(error) => plan == Err::<ProjectionPlan, _>(error),
        },
{
    if source.workspace_id() != workspace_id {
        return Err(ProjectionError::ReceiverSourceMismatch);
    }
    if source.source_endpoint_id() == receiver_endpoint_id {
        return Err(ProjectionError::ReceiverEndpointIsSource);
    }
    if let ManifestProjectionTarget::Absent = source.target() {
        return Err(ProjectionError::ReceiverSourceAbsent);
    }
    match state {
        Err(error) => Err(ProjectionError::Engine(error)),
        Ok(state) => plan_projection_with_layout_annotations(
            workspace_id,
            &state,
            exact_local_base,
            source_layout_annotations,
            rendering,
        ),
    }
}

/// What another device's intent leaves does not reach this device's plan: two intents that differ
/// in the bytes of a present target give the same plan.
pub proof fn law_foreign_bytes_are_not_copied(
    workspace_id: WorkspaceId,
    source: ManifestedProjectionIntentWire,
    other: ManifestedProjectionIntentWire,
    receiver_endpoint_id: ProjectionEndpointId,
    state: Result<ProjectionPageState, EngineError>,
    exact_local_base: Option<&SourceBase>,
    source_layout_annotations: Option<Seq<AnnotatedIdentityView>>,
    rendering: PageRendering,
)
    requires
        other == (ManifestedProjectionIntentWire { target: other.target, ..source }),
        source.target is Present,
        other.target is Present,
    ensures
        receiver_plan(
            workspace_id,
            source,
            receiver_endpoint_id,
            state,
            exact_local_base,
            source_layout_annotations,
            rendering,
        ) == receiver_plan(
            workspace_id,
            other,
            receiver_endpoint_id,
            state,
            exact_local_base,
            source_layout_annotations,
            rendering,
        ),
{
}

} // verus!
