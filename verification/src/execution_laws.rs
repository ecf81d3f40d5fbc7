//! What holds of the checks round an execution: who may project, over what, and what is decoded.

use vstd::prelude::*;

use crate::annotation::{annotation_views, claim_views, AnnotatedIdentityView};
use crate::attempts::ProjectionAttemptReservation;
use crate::authority::ProjectionMutationAuthority;
use crate::editor::prepared;
use crate::error::{EngineError, ProjectionError};
use crate::execution::{
    endpoint_authority, plan_is_current, recovery_disposition, recovery_is_open,
    same_except_frontier, same_revival, same_work_state, tombstone_is_recorded, tombstone_plan,
    ProjectionEndpointBinding, ProjectionExecution, ProjectionTombstoneAuthorization,
};
use crate::hash::{sha256, BlobDescription, Digest};
use crate::ids::{
    hyphenated_text, CanonicalGraphResourceId, ProjectionEndpointId, ProjectionReceiptStoreId,
    WorkspaceId,
};
use crate::intent::{ProjectionIntentView, ProjectionPrecondition};
use crate::live::{
    attempts_check, last_attempt, live_attempt, live_attempts, live_verdict, LiveDirectory,
    LiveNames,
};
use crate::manifest::{
    intent_decoded, ManifestObjectRef, ManifestedProjectionIntentWire, ObjectKind,
};
use crate::manifest_base::base_decoded;
use crate::manifest_error::ProjectionManifestError;
use crate::manifest_set::OperationObject;
use crate::names::{attempt_of, names_temp};
use crate::page::{MaterializedPage, ProjectionPageState};
use crate::plan::{projection_plan, rendered_page, rendered_with_layout, PageRendering, SourceBase};
use crate::receiver::receiver_plan;
use crate::store_error::{IoFailure, ProjectionStoreError};
use crate::turn::{
    foreign_pages, turn_intent, work_pages, ArchivedWork, ForeignSource, TurnPageView,
};
use crate::work::{
    decoded_work, layout_base, layout_reference, ArchiveRead, ProjectionWork, ProjectionWorkTarget,
};

verus! {

/// Only an endpoint may project whose store is the engine's, which that store accepts, and whose
/// graph is the one at hand; each reason for a refusal is told.
pub proof fn law_only_the_bound_endpoint_projects(
    endpoint: Option<ProjectionEndpointBinding>,
    engine_store_id: Option<ProjectionReceiptStoreId>,
    store_id: ProjectionReceiptStoreId,
    store_accepts: Result<(), ProjectionStoreError>,
    resource: Result<CanonicalGraphResourceId, IoFailure>,
)
    ensures
        ({
            let authority = endpoint_authority(
                endpoint,
                engine_store_id,
                store_id,
                store_accepts,
                resource,
            );
            &&& authority is Ok <==> endpoint is Some && engine_store_id is Some
                && engine_store_id->0 == store_id && store_accepts is Ok && resource is Ok
                && resource->Ok_0 == endpoint->0.graph_resource_id
            &&& authority is Ok ==> authority->Ok_0 == endpoint->0
            &&& endpoint is Some && engine_store_id == Some(store_id) && store_accepts is Err
                ==> authority == Err::<ProjectionEndpointBinding, _>(
                ProjectionError::Store(Box::new(store_accepts->Err_0)),
            )
            &&& endpoint is Some && engine_store_id == Some(store_id) && store_accepts is Ok
                && resource is Err ==> authority == Err::<ProjectionEndpointBinding, _>(
                ProjectionError::Io(resource->Err_0),
            )
            &&& authority is Err && authority->Err_0 is EndpointBindingMismatch ==> endpoint is None
                || engine_store_id != Some(store_id) || resource is Ok && resource->Ok_0
                != endpoint->0.graph_resource_id
        }),
{
}

/// A recovery that failed is put off only where the file is gone; where it is there, and where that
/// could not be found out, the failure stands.
pub proof fn law_recovery_is_put_off_only_without_a_file(
    input: Result<Option<Vec<u8>>, IoFailure>,
    failure: IoFailure,
)
    ensures
        recovery_disposition(input, failure) is Ok <==> input is Ok && input->Ok_0 is None,
        recovery_disposition(input, failure) is Ok ==> recovery_disposition(input, failure)->Ok_0
            == ProjectionExecution::DeferredAbsence,
        input is Err ==> recovery_disposition(input, failure) == Err::<ProjectionExecution, _>(
            ProjectionError::Io(input->Err_0),
        ),
        input is Ok && input->Ok_0 is Some ==> recovery_disposition(input, failure) == Err::<
            ProjectionExecution,
            _,
        >(ProjectionError::Io(failure)),
        recovery_is_open(failure) <==> failure.kind is AlreadyExists || failure.kind is NotFound,
{
}

/// What two intents that are the same in some respect may differ in: those of the same work in what
/// they start from and leave, those that are the same but for the frontier in that alone, and those
/// of the same revival in the frontier and in what they start from.
pub proof fn law_same_intents_differ_only_where_they_may(
    a: ProjectionIntentView,
    b: ProjectionIntentView,
)
    requires
        a.path == b.path,
    ensures
        same_work_state(a, b) <==> (ProjectionIntentView {
            precondition: b.precondition,
            target: b.target,
            annotations: b.annotations,
            ..a
        }) == b,
        same_except_frontier(a, b) <==> (ProjectionIntentView { frontier: b.frontier, ..a }) == b,
        same_revival(a, b) <==> (ProjectionIntentView {
            frontier: b.frontier,
            precondition: b.precondition,
            ..a
        }) == b,
{
}

/// Intents of different paths are never the same in any respect.
pub proof fn law_same_intents_are_of_one_path(a: ProjectionIntentView, b: ProjectionIntentView)
    requires
        a.path.text != b.path.text,
    ensures
        !same_work_state(a, b),
        !same_except_frontier(a, b),
        !same_revival(a, b),
{
}

/// A plan is current only where its intent is of the workspace and of exactly the page, path,
/// frontier and claims that are accepted now.
pub proof fn law_current_plan_is_of_the_accepted_state(
    workspace_id: WorkspaceId,
    current: ProjectionPageState,
    intent: ProjectionIntentView,
)
    ensures
        plan_is_current(workspace_id, current, intent) <==> {
            &&& intent.workspace_id == workspace_id
            &&& intent.page_id == current.page.page_id
            &&& intent.path.text == current.page.path.text@
            &&& intent.frontier == current.frontier@
            &&& intent.claim_evidence == claim_views(current.claim_evidence@)
        },
{
}

/// A removal is planned as authorized: of the page, path and frontier, from the file that is there or
/// from none, to no file, with nothing annotated; and what is planned counts as recorded for that
/// authorization alone.
pub proof fn law_removal_is_planned_as_authorized(
    workspace_id: WorkspaceId,
    authorization: ProjectionTombstoneAuthorization,
    other: ProjectionTombstoneAuthorization,
    local_base: Option<Seq<u8>>,
)
    ensures
        ({
            let plan = tombstone_plan(workspace_id, authorization, local_base);
            &&& plan.intent.workspace_id == workspace_id
            &&& plan.intent.page_id == authorization.page_id
            &&& plan.intent.path == authorization.path@
            &&& plan.intent.frontier == authorization.frontier@
            &&& plan.intent.claim_evidence.len() == 0
            &&& plan.intent.annotations.len() == 0
            &&& plan.intent.target_kind is Absent
            &&& plan.intent.target == BlobDescription::spec_of(Seq::empty())
            &&& plan.target.len() == 0
            &&& plan.base == local_base
            &&& local_base is None ==> plan.intent.precondition is Absent
            &&& local_base is Some ==> plan.intent.precondition == ProjectionPrecondition::Base(
                BlobDescription::spec_of(local_base->0),
            )
            &&& plan.generated_anchors.len() == 0
            &&& plan.guarded_layout.base.len() == 0
            &&& plan.guarded_layout.target.len() == 0
            &&& tombstone_is_recorded(other, plan.intent) <==> other.page_id
                == authorization.page_id && other.path.text@ == authorization.path.text@
                && other.frontier@ == authorization.frontier@
        }),
{
}

/// A removal counts as recorded only by an intent that claims nothing, leaves nothing and annotates
/// nothing.
pub proof fn law_recorded_removal_leaves_nothing(
    authorization: ProjectionTombstoneAuthorization,
    intent: ProjectionIntentView,
)
    requires
        tombstone_is_recorded(authorization, intent),
    ensures
        intent.page_id == authorization.page_id,
        intent.path.text == authorization.path.text@,
        intent.frontier == authorization.frontier@,
        intent.claim_evidence.len() == 0,
        intent.annotations.len() == 0,
        intent.target == BlobDescription::spec_of(Seq::empty()),
{
}

/// What another device projected is planned here only where it is of this workspace, of another
/// endpoint and leaves a page; it is then planned from the accepted state as any page is.
pub proof fn law_receiver_plans_from_its_own_state(
    workspace_id: WorkspaceId,
    source: ManifestedProjectionIntentWire,
    receiver_endpoint_id: ProjectionEndpointId,
    state: Result<ProjectionPageState, EngineError>,
    exact_local_base: Option<&SourceBase>,
    annotations: Option<Seq<AnnotatedIdentityView>>,
    rendering: PageRendering,
)
    ensures
        ({
            let plan = receiver_plan(
                workspace_id,
                source,
                receiver_endpoint_id,
                state,
                exact_local_base,
                annotations,
                rendering,
            );
            let ours = source.workspace_id == workspace_id;
            let foreign = source.source_endpoint_id != receiver_endpoint_id;
            &&& plan is Ok ==> ours && foreign && source.target is Present && state is Ok && plan
                == projection_plan(
                workspace_id,
                state->Ok_0,
                exact_local_base,
                annotations,
                rendering,
            )
            &&& !ours ==> plan is Err && plan->Err_0 is ReceiverSourceMismatch
            &&& ours && !foreign ==> plan is Err && plan->Err_0 is ReceiverEndpointIsSource
            &&& ours && foreign && source.target is Absent ==> plan is Err
                && plan->Err_0 is ReceiverSourceAbsent
            &&& ours && foreign && source.target is Present && state is Err ==> plan is Err
                && plan->Err_0 == ProjectionError::Engine(state->Err_0)
        }),
{
}

/// Whether a directory is the one expected.
pub open spec fn is_directory(live: LiveDirectory, expected: Digest) -> bool {
    live is Opened && live->Opened_0 is Ok && live->Opened_0->Ok_0 == expected
}

/// Whether a directory held open is the one expected.
pub open spec fn is_held(found: Result<Digest, ProjectionStoreError>, expected: Digest) -> bool {
    found is Ok && found->Ok_0 == expected
}

/// Whether a file holds bytes with a digest.
pub open spec fn has_digest(
    read: Result<Option<Vec<u8>>, ProjectionStoreError>,
    digest: Digest,
) -> bool {
    read is Ok && read->Ok_0 is Some && Digest::spec_from(sha256((read->Ok_0->0)@)) == digest
}

/// An authority is live only where everything is as when it began: the store, its claim, the
/// authority's record to the byte, the directories, by name and as held open, the intent, and its
/// base.
pub proof fn law_live_authority_is_undisturbed(
    authority: ProjectionMutationAuthority,
    live: LiveNames,
)
    requires
        live_verdict(authority, live) is Ok,
    ensures
        ({
            let durable = authority.durable;
            let identities = durable.namespace_identities;
            &&& live.store_id is Ok
            &&& live.store_id->Ok_0 == durable.store_id
            &&& has_digest(live.claim, durable.store_claim_digest)
            &&& live.authority is Ok
            &&& live.authority->Ok_0 is Some
            &&& (live.authority->Ok_0->0)@ == authority.durable_bytes@
            &&& is_directory(live.bases, identities.bases)
            &&& is_directory(live.intents, identities.intents)
            &&& is_directory(live.completions, identities.completions)
            &&& is_directory(live.attempts, identities.attempts)
            &&& is_directory(live.forensics, identities.forensics)
            &&& is_held(live.retained.bases, identities.bases)
            &&& is_held(live.retained.intents, identities.intents)
            &&& is_held(live.retained.completions, identities.completions)
            &&& is_held(live.retained.attempts_parent, identities.attempts)
            &&& is_held(live.retained.forensics_parent, identities.forensics)
            &&& is_held(live.retained.attempts, durable.attempts_identity)
            &&& is_held(live.retained.forensics, durable.forensics_identity)
            &&& live.pending is Some
            &&& live.pending->0 is Ok
            &&& is_held(live.pending_retained, live.pending->0->Ok_0)
            &&& has_digest(live.intent, durable.intent_digest)
            &&& durable.base is Some ==> live.base is Ok && live.base->Ok_0 is Some
                && BlobDescription::spec_of((live.base->Ok_0->0)@) == durable.base->0
            &&& authority.reservations@.len() == authority.reservation_bytes@.len()
            &&& is_directory(live.intent_attempts, durable.attempts_identity)
            &&& is_directory(live.intent_forensics, durable.forensics_identity)
        }),
{
}

/// Each of the first entries of a list that is accepted is accepted.
proof fn lemma_live_entry(
    authority: ProjectionMutationAuthority,
    live: LiveNames,
    n: nat,
    i: int,
)
    requires
        0 <= i < n <= live.entries@.len(),
        live_attempts(
            authority.reservations@,
            authority.reservation_bytes@,
            live.entries@,
            n,
        ) is Ok,
    ensures
        live_attempt(
            authority.reservations@,
            authority.reservation_bytes@,
            live.entries@[i],
        ) is Ok,
    decreases n,
{
    if i < n - 1 {
        lemma_live_entry(authority, live, (n - 1) as nat, i);
    }
}

/// The last attempt with an identifier has it.
proof fn lemma_last_attempt(
    attempts: Seq<ProjectionAttemptReservation>,
    attempt_id: u128,
    n: nat,
)
    requires
        n <= attempts.len(),
    ensures
        last_attempt(attempts, attempt_id, n) is Some ==> 0 <= last_attempt(
            attempts,
            attempt_id,
            n,
        )->0 < n && attempts[last_attempt(attempts, attempt_id, n)->0].attempt_id.value
            == attempt_id,
    decreases n,
{
    if n > 0 && attempts[n - 1].attempt_id.value != attempt_id {
        lemma_last_attempt(attempts, attempt_id, (n - 1) as nat);
    }
}

/// Every finished file among the attempts of a live authority is one of its attempts, under its own
/// name, and holds what it held when the authority began, to the byte.
pub proof fn law_live_attempts_are_undisturbed(
    authority: ProjectionMutationAuthority,
    live: LiveNames,
    i: int,
)
    requires
        live_verdict(authority, live) is Ok,
        0 <= i < live.entries@.len(),
    ensures
        live.entries@[i].name is Some,
        live.entries@[i].kind is File,
        !names_temp((live.entries@[i].name->0)@) ==> live.entries@[i].bytes is Ok
            && live.entries@[i].bytes->Ok_0 is Some && exists|at: int|
            0 <= at < authority.reservations@.len() && attempt_of((live.entries@[i].name->0)@)
                == Some((#[trigger] authority.reservations@[at]).attempt_id) && (
            live.entries@[i].bytes->Ok_0->0)@ == authority.reservation_bytes@[at]@,
{
    let attempts = authority.reservations@;
    lemma_live_entry(authority, live, live.entries@.len(), i);
    let entry = live.entries@[i];
    if !names_temp((entry.name->0)@) {
        let id = attempt_of((entry.name->0)@)->0;
        lemma_last_attempt(attempts, id.value, attempts.len());
        let at = last_attempt(attempts, id.value, attempts.len())->0;
        assert(attempts[at].attempt_id == id);
    }
}

/// An authority is live wherever everything is as when it began.
pub proof fn law_undisturbed_authority_is_live(
    authority: ProjectionMutationAuthority,
    live: LiveNames,
)
    requires
        ({
            let durable = authority.durable;
            let identities = durable.namespace_identities;
            &&& live.store_id is Ok
            &&& live.store_id->Ok_0 == durable.store_id
            &&& has_digest(live.claim, durable.store_claim_digest)
            &&& live.authority is Ok
            &&& live.authority->Ok_0 is Some
            &&& (live.authority->Ok_0->0)@ == authority.durable_bytes@
            &&& is_directory(live.bases, identities.bases)
            &&& is_directory(live.intents, identities.intents)
            &&& is_directory(live.completions, identities.completions)
            &&& is_directory(live.attempts, identities.attempts)
            &&& is_directory(live.forensics, identities.forensics)
            &&& is_held(live.retained.bases, identities.bases)
            &&& is_held(live.retained.intents, identities.intents)
            &&& is_held(live.retained.completions, identities.completions)
            &&& is_held(live.retained.attempts_parent, identities.attempts)
            &&& is_held(live.retained.forensics_parent, identities.forensics)
            &&& is_held(live.retained.attempts, durable.attempts_identity)
            &&& is_held(live.retained.forensics, durable.forensics_identity)
            &&& live.pending is Some
            &&& live.pending->0 is Ok
            &&& is_held(live.pending_retained, live.pending->0->Ok_0)
            &&& has_digest(live.intent, durable.intent_digest)
            &&& durable.base is Some ==> live.base is Ok && live.base->Ok_0 is Some
                && BlobDescription::spec_of((live.base->Ok_0->0)@) == durable.base->0
            &&& attempts_check(
                authority.reservations@,
                authority.reservation_bytes@,
                live.entries@,
            ) is Ok
            &&& is_directory(live.intent_attempts, durable.attempts_identity)
            &&& is_directory(live.intent_forensics, durable.forensics_identity)
        }),
    ensures
        live_verdict(authority, live) is Ok,
{
}

/// What an editor prepares: the accepted page is rendered over the file as it is, and the requested
/// page over the same file, with the layout that rendering the accepted page found. Both fail as
/// rendering does, the accepted page first.
pub proof fn law_editor_prepares_over_the_accepted_layout(
    requested_page: MaterializedPage,
    accepted_page: MaterializedPage,
    base: SourceBase,
    accepted_rendering: PageRendering,
    requested_rendering: PageRendering,
)
    ensures
        ({
            let result = prepared(
                requested_page,
                accepted_page,
                base,
                accepted_rendering,
                requested_rendering,
            );
            let accepted = rendered_page(accepted_page, Some(&base), None, accepted_rendering);
            &&& accepted is Err ==> result is Err && result->Err_0 == accepted->Err_0
            &&& result is Ok ==> {
                let view = result->Ok_0;
                &&& accepted is Ok
                &&& view.requested_page == requested_page
                &&& view.exact_base == base.bytes@
                &&& view.before_rendered == Some(accepted->Ok_0)
                &&& view.before_page is None
                &&& view.predecessor_annotations is None
                &&& view.candidate_base_layout.len() == accepted->Ok_0.annotations.len()
                &&& forall|k: int|
                    0 <= k < view.candidate_base_layout.len() ==> (
                    #[trigger] view.candidate_base_layout[k]).locator
                        == accepted->Ok_0.annotations[k].locator
                        && view.candidate_base_layout[k].block_identity == hyphenated_text(
                        accepted->Ok_0.annotations[k].block_id.uuid.value,
                    )
                &&& rendered_with_layout(
                    requested_page,
                    Some(&base),
                    view.candidate_base_layout,
                    requested_rendering,
                ) == Ok::<_, ProjectionError>(view.rendered)
            }
        }),
{
}

/// Whether an object of an archive is the one that a reference names: of the kind, under the
/// document, with the digest and of the length.
pub open spec fn is_object_named(
    object: Result<OperationObject, String>,
    kind: ObjectKind,
    reference: ManifestObjectRef,
) -> bool {
    &&& object is Ok
    &&& object->Ok_0.spec_kind() == kind
    &&& object->Ok_0.document_id == reference.document_id
    &&& object->Ok_0.descriptor is Ok
    &&& object->Ok_0.descriptor->Ok_0.content_digest == reference.content_digest
    &&& object->Ok_0.descriptor->Ok_0.encoded_byte_length == reference.encoded_byte_length
}

/// Work is decoded only from the objects that it names, and only where what they hold is of the
/// work: its workspace, batch, endpoint, page, path, index, frontier and target. What it then starts
/// from is the base that the intent names, and from no file where it names none.
pub proof fn law_decoded_work_is_what_was_archived(
    work: ProjectionWork,
    intent_object: Result<OperationObject, String>,
    base_object: Result<OperationObject, String>,
)
    requires
        decoded_work(work, intent_object, base_object) is Ok,
    ensures
        ({
            let decoded = decoded_work(work, intent_object, base_object)->Ok_0;
            let fields = decoded.manifested;
            let intent = decoded.receiver_local_intent;
            &&& is_object_named(intent_object, ObjectKind::ProjectionIntent, work.intent)
            &&& fields.workspace_id == work.workspace_id
            &&& fields.source_batch_id == work.batch_id
            &&& fields.source_endpoint_id == work.endpoint_id
            &&& fields.page_id == work.page_id
            &&& fields.path.text@ == work.path.text@
            &&& fields.portable_path_index_root == work.portable_path_index_root
            &&& fields.post_frontier@ == work.post_frontier@
            &&& work.target is Absent <==> fields.target is Absent
            &&& work.target is Present ==> work.target->Present_0
                == fields.target->Present_description
            &&& intent.workspace_id == work.workspace_id
            &&& intent.page_id == work.page_id
            &&& intent.path.text == work.path.text@
            &&& intent.frontier == work.post_frontier@
            &&& intent.claim_evidence == claim_views(fields.claim_evidence@)
            &&& fields.precondition is Absent ==> decoded.annotated_base is None
                && intent.precondition is Absent
            &&& fields.precondition is Present ==> is_object_named(
                base_object,
                ObjectKind::AnnotatedBaseBlob,
                fields.precondition->base,
            ) && decoded.annotated_base is Some && intent.precondition
                == ProjectionPrecondition::Base(decoded.annotated_base->0.description)
            &&& fields.target is Absent ==> decoded.target is None && intent.target_kind is Absent
                && intent.annotations.len() == 0 && intent.target == BlobDescription::spec_of(
                Seq::empty(),
            )
            &&& fields.target is Present ==> decoded.target == Some(
                fields.target->Present_bytes@,
            ) && intent.target_kind is Present && intent.target
                == fields.target->Present_description && intent.annotations == annotation_views(
                fields.target->Present_annotations@,
            )
            &&& !decoded.guarded_layout.revive_page_self_base
        }),
{
}

/// Work is decoded wherever its objects are the ones that it names, can be read, and are of it.
pub proof fn law_sound_work_is_decoded(
    work: ProjectionWork,
    intent_object: Result<OperationObject, String>,
    base_object: Result<OperationObject, String>,
)
    requires
        is_object_named(intent_object, ObjectKind::ProjectionIntent, work.intent),
        intent_object->Ok_0.content is ProjectionIntent,
        intent_decoded(
            intent_object->Ok_0.payload@,
            intent_object->Ok_0.content->ProjectionIntent_0,
        ) is Ok,
        ({
            let fields = intent_decoded(
                intent_object->Ok_0.payload@,
                intent_object->Ok_0.content->ProjectionIntent_0,
            )->Ok_0;
            &&& fields.workspace_id == work.workspace_id
            &&& fields.source_batch_id == work.batch_id
            &&& fields.source_endpoint_id == work.endpoint_id
            &&& fields.page_id == work.page_id
            &&& fields.path.text@ == work.path.text@
            &&& fields.portable_path_index_root == work.portable_path_index_root
            &&& fields.post_frontier@ == work.post_frontier@
            &&& fields.target is Absent ==> work.target is Absent
            &&& fields.target is Present ==> work.target == ProjectionWorkTarget::Present(
                fields.target->description,
            )
            &&& fields.precondition is Present ==> {
                &&& is_object_named(
                    base_object,
                    ObjectKind::AnnotatedBaseBlob,
                    fields.precondition->base,
                )
                &&& base_object->Ok_0.content is AnnotatedBaseBlob
                &&& base_decoded(
                    base_object->Ok_0.payload@,
                    base_object->Ok_0.content->AnnotatedBaseBlob_0,
                ) is Ok
            }
        }),
    ensures
        decoded_work(work, intent_object, base_object) is Ok,
        decoded_work(work, intent_object, base_object)->Ok_0.manifested == intent_decoded(
            intent_object->Ok_0.payload@,
            intent_object->Ok_0.content->ProjectionIntent_0,
        )->Ok_0,
        decoded_work(work, intent_object, base_object)->Ok_0.annotated_base is Some ==> Ok::<
            _,
            ProjectionManifestError,
        >(decoded_work(work, intent_object, base_object)->Ok_0.annotated_base->0)
            == base_decoded(
            base_object->Ok_0.payload@,
            base_object->Ok_0.content->AnnotatedBaseBlob_0,
        ),
{
}

/// The layout that another device's page is read by is that of the base it was rendered over, or
/// else of the base it starts from; a page that names neither has none. It is of the same workspace.
pub proof fn law_foreign_layout_is_of_the_named_base(
    source: ManifestedProjectionIntentWire,
    read: ArchiveRead,
)
    ensures
        layout_reference(source) == (if source.render_base is Some {
            source.render_base
        } else if source.precondition is Present {
            Some(source.precondition->base)
        } else {
            None
        }),
        layout_base(source, read) is Ok ==> (layout_base(source, read)->Ok_0 is None
            <==> layout_reference(source) is None),
        layout_base(source, read) is Ok && layout_reference(source) is Some ==> read is Read
            && is_object_named(
            read->Read_0,
            ObjectKind::AnnotatedBaseBlob,
            layout_reference(source)->0,
        ) && layout_base(source, read)->Ok_0->0.workspace_id == source.workspace_id,
{
}

/// The intent of a turn's page is of exactly that page: it starts from and leaves what the page
/// describes.
pub proof fn law_turn_intent_is_of_its_page(workspace_id: WorkspaceId, page: TurnPageView)
    ensures
        ({
            let intent = turn_intent(workspace_id, page);
            &&& intent.workspace_id == workspace_id
            &&& intent.page_id == page.page_id
            &&& intent.path == page.path
            &&& intent.frontier == page.frontier
            &&& intent.claim_evidence == page.claim_evidence
            &&& page.precondition is None ==> intent.precondition is Absent
            &&& page.precondition is Some ==> intent.precondition == ProjectionPrecondition::Base(
                page.precondition->0.description,
            )
            &&& page.target is None ==> intent.target_kind is Absent && intent.annotations.len()
                == 0 && intent.target == BlobDescription::spec_of(Seq::empty())
            &&& page.target is Some ==> intent.target_kind is Present && intent.target
                == page.target->0.description && intent.annotations == page.target->0.annotations
        }),
{
}

/// Whether a turn's page is that of decoded work.
pub open spec fn is_page_of_work(page: TurnPageView, archived: ArchivedWork) -> bool {
    let decoded = decoded_work(archived.work, archived.intent_object, archived.base_object);
    &&& decoded is Ok
    &&& page.page_id == archived.work.page_id
    &&& page.path == archived.work.path@
    &&& page.frontier == archived.work.post_frontier@
    &&& page.claim_evidence == decoded->Ok_0.receiver_local_intent.claim_evidence
    &&& page.precondition is Some <==> decoded->Ok_0.annotated_base is Some
    &&& page.precondition is Some ==> page.precondition->0.description
        == decoded->Ok_0.annotated_base->0.description && page.precondition->0.bytes is None
    &&& page.target is Some <==> archived.work.target is Present
    &&& page.target is Some ==> page.target->0.description == archived.work.target->Present_0
        && page.target->0.bytes is None && page.target->0.annotations
        == decoded->Ok_0.receiver_local_intent.annotations
}

/// A turn of this device's work has one page for each piece of work, in the same order, and each is
/// that of its work.
pub proof fn law_turn_has_a_page_for_each_work(work: Seq<ArchivedWork>, n: nat)
    requires
        n <= work.len(),
        work_pages(work, n) is Ok,
    ensures
        work_pages(work, n)->Ok_0.len() == n,
        forall|k: int|
            0 <= k < n ==> is_page_of_work(#[trigger] work_pages(work, n)->Ok_0[k], work[k]),
    decreases n,
{
    if n > 0 {
        law_turn_has_a_page_for_each_work(work, (n - 1) as nat);
        let before = work_pages(work, (n - 1) as nat)->Ok_0;
        let all = work_pages(work, n)->Ok_0;
        assert forall|k: int| 0 <= k < n implies is_page_of_work(#[trigger] all[k], work[k]) by {
            if k < n - 1 {
                assert(all[k] == before[k]);
            } else {
                law_decoded_work_is_what_was_archived(
                    work[k].work,
                    work[k].intent_object,
                    work[k].base_object,
                );
            }
        }
    }
}

/// Whether a turn's page is that of another device's intent.
pub open spec fn is_page_of_source(page: TurnPageView, foreign: ForeignSource) -> bool {
    let fields = foreign.source.wire();
    let base = layout_base(fields, foreign.base);
    &&& base is Ok
    &&& page.page_id == fields.page_id
    &&& page.path == fields.path@
    &&& page.frontier == fields.post_frontier@
    &&& page.claim_evidence == claim_views(fields.claim_evidence@)
    &&& page.precondition is Some <==> base->Ok_0 is Some
    &&& page.precondition is Some ==> page.precondition->0.description
        == base->Ok_0->0.description && page.precondition->0.bytes is None
        && page.precondition->0.annotations == annotation_views(base->Ok_0->0.annotations@)
    &&& page.target is Some <==> fields.target is Present
    &&& page.target is Some ==> page.target->0.description == fields.target->Present_description
        && page.target->0.bytes is None && page.target->0.annotations == annotation_views(
        fields.target->Present_annotations@,
    )
}

/// A turn of another device's batch has one page for each intent, in the same order, and each is
/// that of its intent.
pub proof fn law_turn_has_a_page_for_each_source(sources: Seq<ForeignSource>, n: nat)
    requires
        n <= sources.len(),
        foreign_pages(sources, n) is Ok,
    ensures
        foreign_pages(sources, n)->Ok_0.len() == n,
        forall|k: int|
            0 <= k < n ==> is_page_of_source(
                #[trigger] foreign_pages(sources, n)->Ok_0[k],
                sources[k],
            ),
    decreases n,
{
    if n > 0 {
        law_turn_has_a_page_for_each_source(sources, (n - 1) as nat);
        let before = foreign_pages(sources, (n - 1) as nat)->Ok_0;
        let all = foreign_pages(sources, n)->Ok_0;
        assert forall|k: int| 0 <= k < n implies is_page_of_source(
            #[trigger] all[k],
            sources[k],
        ) by {
            if k < n - 1 {
                assert(all[k] == before[k]);
            }
        }
    }
}

} // verus!
