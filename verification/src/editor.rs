//! The rendering of an editor's request, kept from the draft until a fresh plan is made of it.

use vstd::prelude::*;

use crate::annotation::{annotation_views, copy_annotations, AnnotatedIdentity, AnnotatedIdentityView};
use crate::bytes::{copy_bytes, same_bytes};
use crate::error::ProjectionError;
use crate::ids::WorkspaceId;
use crate::incremental::{
    incremental_markdown_content_projection, incremental_projection, BlockParses,
};
use crate::page::{
    materialized_page_projection_identity_equal, same_projection_identity, MaterializedPage,
    ProjectionPageState,
};
use crate::plan::{
    annotated_layout, layout_views, plan_of_rendered, projection_plan_from_rendered,
    render_projection_page, render_projection_page_with_layout_identities, rendered_page,
    rendered_with_layout, same_layout, structural_layout_identities, LayoutIdentityView,
    PageRendering, PolicyGeneratedAnchor, ProjectionPlan, RenderedProjection, RenderedView,
    SourceBase, StructuralLayoutIdentity,
};

verus! {

/// The accepted page before an editor's request, with its rendering.
#[derive(Debug, PartialEq, Eq)]
pub struct PreparedEditorProjectionBeforeCandidate {
    accepted_page: Option<MaterializedPage>,
    accepted_rendered: RenderedProjection,
}

impl PreparedEditorProjectionBeforeCandidate {
    /// The accepted page, once it is bound.
    pub closed spec fn page(self) -> Option<MaterializedPage> {
        self.accepted_page
    }

    /// The rendering of the accepted page.
    pub closed spec fn rendered(self) -> RenderedView {
        self.accepted_rendered@
    }

    /// The accepted page with its bytes and annotations, once the page is bound.
    pub fn into_page_and_accepted_render(self) -> (parts: Option<
        (MaterializedPage, Vec<u8>, Vec<AnnotatedIdentity>),
    >)
        ensures
            match self.page() {
                Some(page) => parts is Some && (parts->0).0 == page && (parts->0).1@
                    == self.rendered().target && annotation_views((parts->0).2@)
                    == self.rendered().annotations,
                None => parts is None,
            },
    {
        match self.accepted_page {
            Some(page) => Some(
                (page, self.accepted_rendered.target, self.accepted_rendered.annotations),
            ),
            None => None,
        }
    }
}

/// One rendering of an editor's request. Neither the bytes nor the layout identities are
/// authority: a plan is made of them only where the captured base and its annotations are the ones
/// that the rendering was made with.
#[derive(Debug, PartialEq, Eq)]
pub struct PreparedEditorProjection {
    requested_page: MaterializedPage,
    exact_base: Vec<u8>,
    candidate_base_layout: Vec<StructuralLayoutIdentity>,
    capture_predecessor_annotations: Option<Vec<AnnotatedIdentity>>,
    before_candidate: Option<PreparedEditorProjectionBeforeCandidate>,
    rendered: RenderedProjection,
}

/// What a prepared projection says.
pub struct PreparedView {
    pub requested_page: MaterializedPage,
    pub exact_base: Seq<u8>,
    pub candidate_base_layout: Seq<LayoutIdentityView>,
    pub predecessor_annotations: Option<Seq<AnnotatedIdentityView>>,
    pub before_page: Option<MaterializedPage>,
    pub before_rendered: Option<RenderedView>,
    pub rendered: RenderedView,
}

impl View for PreparedEditorProjection {
    type V = PreparedView;

    closed spec fn view(&self) -> PreparedView {
        PreparedView {
            requested_page: self.requested_page,
            exact_base: self.exact_base@,
            candidate_base_layout: layout_views(self.candidate_base_layout@),
            predecessor_annotations: match self.capture_predecessor_annotations {
                Some(annotations) => Some(annotation_views(annotations@)),
                None => None,
            },
            before_page: match self.before_candidate {
                Some(candidate) => candidate.page(),
                None => None,
            },
            before_rendered: match self.before_candidate {
                Some(candidate) => Some(candidate.rendered()),
                None => None,
            },
            rendered: self.rendered@,
        }
    }
}

/// What a prepared projection of a fresh request is, or why there is none.
pub open spec fn prepared(
    requested_page: MaterializedPage,
    accepted_page: MaterializedPage,
    base: SourceBase,
    accepted_rendering: PageRendering,
    requested_rendering: PageRendering,
) -> Result<PreparedView, ProjectionError> {
    match rendered_page(accepted_page, Some(&base), None, accepted_rendering) {
        Err(error) => Err(error),
        Ok(accepted) => {
            let layout = annotated_layout(accepted.annotations);
            match rendered_with_layout(requested_page, Some(&base), layout, requested_rendering) {
                Err(error) => Err(error),
                Ok(rendered) => Ok(
                    PreparedView {
                        requested_page,
                        exact_base: base.bytes@,
                        candidate_base_layout: layout,
                        predecessor_annotations: None,
                        before_page: None,
                        before_rendered: Some(accepted),
                        rendered,
                    },
                ),
            }
        },
    }
}

/// The rendering of a request on top of a predecessor: patched where it can be, else complete.
pub open spec fn patched_or_rendered(
    requested_page: MaterializedPage,
    accepted_page: MaterializedPage,
    base: SourceBase,
    annotations: Seq<AnnotatedIdentity>,
    parses: Seq<BlockParses>,
    rendering: PageRendering,
) -> Result<RenderedView, ProjectionError> {
    match incremental_projection(
        accepted_page,
        requested_page,
        base.bytes@,
        annotations,
        parses,
    ) {
        Err(error) => Err(error),
        Ok(Some(rendered)) => Ok(rendered),
        Ok(None) => rendered_with_layout(
            requested_page,
            Some(&base),
            annotated_layout(annotation_views(annotations)),
            rendering,
        ),
    }
}

impl PreparedEditorProjection {
    /// Renders a request with the layout identities of the accepted page's own rendering.
    pub fn prepare(
        requested_page: MaterializedPage,
        accepted_page: &MaterializedPage,
        base: &SourceBase,
        accepted_rendering: &PageRendering,
        requested_rendering: &PageRendering,
    ) -> (projection: Result<PreparedEditorProjection, ProjectionError>)
        ensures
            match prepared(
                requested_page,
                *accepted_page,
                *base,
                *accepted_rendering,
                *requested_rendering,
            ) {
                Ok(view) => projection is Ok && projection->Ok_0@ == view,
                Err(error) => projection == Err::<PreparedEditorProjection, _>(error),
            },
    {
        let accepted = match render_projection_page(
            accepted_page,
            Some(base),
            None,
            accepted_rendering,
        ) {
            Ok(accepted) => accepted,
            Err(error) => return Err(error),
        };
        let candidate_base_layout = structural_layout_identities(accepted.annotations.as_slice());
        let rendered = match render_projection_page_with_layout_identities(
            &requested_page,
            Some(base),
            candidate_base_layout.as_slice(),
            requested_rendering,
        ) {
            Ok(rendered) => rendered,
            Err(error) => return Err(error),
        };
        Ok(
            PreparedEditorProjection {
                requested_page,
                exact_base: copy_bytes(base.bytes.as_slice()),
                candidate_base_layout,
                capture_predecessor_annotations: None,
                before_candidate: Some(
                    PreparedEditorProjectionBeforeCandidate {
                        accepted_page: None,
                        accepted_rendered: accepted,
                    },
                ),
                rendered,
            },
        )
    }

    /// Renders a request on top of a predecessor whose annotations are at hand: changed texts are
    /// patched into the exact bytes where nothing else changed, otherwise the page is rendered.
    pub fn prepare_from_hot_predecessor(
        requested_page: MaterializedPage,
        accepted_page: &MaterializedPage,
        base: &SourceBase,
        accepted_annotations: Vec<AnnotatedIdentity>,
        parses: &Vec<BlockParses>,
        requested_rendering: &PageRendering,
    ) -> (projection: Result<PreparedEditorProjection, ProjectionError>)
        ensures
            match patched_or_rendered(
                requested_page,
                *accepted_page,
                *base,
                accepted_annotations@,
                parses@,
                *requested_rendering,
            ) {
                Err(error) => projection == Err::<PreparedEditorProjection, _>(error),
                Ok(rendered) => projection is Ok && projection->Ok_0@ == (PreparedView {
                    requested_page,
                    exact_base: base.bytes@,
                    candidate_base_layout: annotated_layout(
                        annotation_views(accepted_annotations@),
                    ),
                    predecessor_annotations: Some(annotation_views(accepted_annotations@)),
                    before_page: None,
                    before_rendered: Some(
                        RenderedView {
                            target: base.bytes@,
                            annotations: annotation_views(accepted_annotations@),
                            base_layout_identities: Seq::empty(),
                            generated_anchors: Seq::empty(),
                        },
                    ),
                    rendered,
                }),
            },
    {
        let candidate_base_layout = structural_layout_identities(accepted_annotations.as_slice());
        let incremental = match incremental_markdown_content_projection(
            accepted_page,
            &requested_page,
            base.bytes.as_slice(),
            accepted_annotations.as_slice(),
            parses,
        ) {
            Ok(incremental) => incremental,
            Err(error) => return Err(error),
        };
        let rendered = match incremental {
            Some(rendered) => rendered,
            None => match render_projection_page_with_layout_identities(
                &requested_page,
                Some(base),
                candidate_base_layout.as_slice(),
                requested_rendering,
            ) {
                Ok(rendered) => rendered,
                Err(error) => return Err(error),
            },
        };
        let no_layout: Vec<StructuralLayoutIdentity> = Vec::new();
        let no_anchors: Vec<PolicyGeneratedAnchor> = Vec::new();
        proof {
            assert(layout_views(no_layout@) =~= Seq::<LayoutIdentityView>::empty());
            assert(no_anchors@ =~= Seq::<PolicyGeneratedAnchor>::empty());
        }
        Ok(
            PreparedEditorProjection {
                requested_page,
                exact_base: copy_bytes(base.bytes.as_slice()),
                candidate_base_layout,
                capture_predecessor_annotations: Some(
                    copy_annotations(accepted_annotations.as_slice()),
                ),
                before_candidate: Some(
                    PreparedEditorProjectionBeforeCandidate {
                        accepted_page: None,
                        accepted_rendered: RenderedProjection {
                            target: copy_bytes(base.bytes.as_slice()),
                            annotations: accepted_annotations,
                            base_layout_identities: no_layout,
                            generated_anchors: no_anchors,
                        },
                    },
                ),
                rendered,
            },
        )
    }

    /// The bytes of the request.
    pub fn target(&self) -> (target: &[u8])
        ensures
            target@ == self@.rendered.target,
    {
        self.rendered.target.as_slice()
    }

    /// The requested page.
    pub fn requested_page_candidate(&self) -> (page: &MaterializedPage)
        ensures
            *page == self@.requested_page,
    {
        &self.requested_page
    }

    /// The bytes of the accepted page, as long as its rendering was not taken.
    pub fn accepted_target(&self) -> (target: &[u8])
        requires
            self@.before_rendered is Some,
        ensures
            target@ == self@.before_rendered->0.target,
    {
        self.before_candidate.as_ref().unwrap().accepted_rendered.target.as_slice()
    }

    /// The exact bytes and annotations of the predecessor, where there is one.
    pub fn accepted_predecessor_candidate(&self) -> (candidate: Option<
        (&[u8], &[AnnotatedIdentity]),
    >)
        ensures
            match self@.predecessor_annotations {
                Some(annotations) => candidate is Some && (candidate->0).0@ == self@.exact_base
                    && annotation_views((candidate->0).1@) == annotations,
                None => candidate is None,
            },
    {
        match &self.capture_predecessor_annotations {
            Some(annotations) => Some((self.exact_base.as_slice(), annotations.as_slice())),
            None => None,
        }
    }

    /// Binds the accepted page to its rendering, as long as that was not taken.
    pub fn bind_accepted_page(self, accepted_page: MaterializedPage) -> (bound:
        PreparedEditorProjection)
        requires
            self@.before_rendered is Some,
        ensures
            bound@ == (PreparedView { before_page: Some(accepted_page), ..self@ }),
    {
        let candidate = self.before_candidate.unwrap();
        PreparedEditorProjection {
            requested_page: self.requested_page,
            exact_base: self.exact_base,
            candidate_base_layout: self.candidate_base_layout,
            capture_predecessor_annotations: self.capture_predecessor_annotations,
            before_candidate: Some(
                PreparedEditorProjectionBeforeCandidate {
                    accepted_page: Some(accepted_page),
                    accepted_rendered: candidate.accepted_rendered,
                },
            ),
            rendered: self.rendered,
        }
    }

    /// Whether the accepted page renders to exactly the base.
    pub fn before_candidate_matches_exact_base(&self) -> (matches: bool)
        ensures
            matches == (match self@.before_rendered {
                Some(rendered) => rendered.target == self@.exact_base,
                None => false,
            }),
    {
        match &self.before_candidate {
            Some(candidate) => same_bytes(
                candidate.accepted_rendered.target.as_slice(),
                self.exact_base.as_slice(),
            ),
            None => false,
        }
    }

    /// Takes the accepted page and its rendering out, which can be done once.
    pub fn take_before_candidate(&mut self) -> (candidate: Option<
        PreparedEditorProjectionBeforeCandidate,
    >)
        ensures
            final(self)@ == (PreparedView {
                before_page: None,
                before_rendered: None,
                ..old(self)@
            }),
            match old(self)@.before_rendered {
                Some(rendered) => candidate is Some && candidate->0.rendered() == rendered
                    && candidate->0.page() == old(self)@.before_page,
                None => candidate is None,
            },
    {
        self.before_candidate.take()
    }

    /// A fresh plan of the request, where the final page is the requested one, the captured bytes
    /// are the ones that the request was rendered against, and the captured annotations put the
    /// same blocks at the same positions.
    pub fn into_fresh_plan(
        self,
        workspace_id: WorkspaceId,
        after: &ProjectionPageState,
        captured_base: &[u8],
        captured_annotations: &[AnnotatedIdentity],
    ) -> (plan: Result<Option<ProjectionPlan>, ProjectionError>)
        ensures
            plan is Ok,
            if same_projection_identity(self@.requested_page, after.page) && self@.exact_base
                == captured_base@ && self@.candidate_base_layout == annotated_layout(
                annotation_views(captured_annotations@),
            ) {
                plan->Ok_0 is Some && plan->Ok_0->0.wf() && plan->Ok_0->0@ == plan_of_rendered(
                    workspace_id,
                    *after,
                    Some(captured_base@),
                    self@.rendered,
                )
            } else {
                plan->Ok_0 is None
            },
    {
        let captured_layout = structural_layout_identities(captured_annotations);
        let reusable = materialized_page_projection_identity_equal(
            &self.requested_page,
            &after.page,
        ) && same_bytes(self.exact_base.as_slice(), captured_base) && same_layout(
            self.candidate_base_layout.as_slice(),
            captured_layout.as_slice(),
        );
        if !reusable {
            return Ok(None);
        }
        match projection_plan_from_rendered(
            workspace_id,
            after,
            Some(captured_base),
            self.rendered,
        ) {
            Ok(plan) => Ok(Some(plan)),
            Err(error) => Err(error),
        }
    }
}

} // verus!
