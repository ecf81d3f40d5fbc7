//! Projection of a synchronised note graph onto files: planning the exact bytes of a page,
//! manifesting that plan, and keeping the durable evidence of every file it replaces.

pub mod anchor_laws;
pub mod annotation;
pub mod attempts;
pub mod authority;
pub mod authority_laws;
pub mod barrier;
pub mod binding_laws;
pub mod bytes;
pub mod catalog;
pub mod catalog_laws;
pub mod claim;
pub mod cleanup_laws;
pub mod cleanup_opening;
pub mod cleanup_run;
pub mod completion;
pub mod completion_laws;
pub mod completion_run;
pub mod difference_laws;
pub mod document;
pub mod document_laws;
pub mod editor;
pub mod error;
pub mod evidence;
pub mod evidence_laws;
pub mod execution;
pub mod execution_laws;
pub mod files;
pub mod forest;
pub mod frontier;
pub mod hash;
pub mod identity_laws;
pub mod ids;
pub mod incremental;
pub mod incremental_laws;
pub mod inject;
pub mod inject_laws;
pub mod intent;
pub mod line_ends;
pub mod listing_law;
pub mod live;
pub mod manifest;
pub mod manifest_base;
pub mod manifest_check;
pub mod manifest_error;
pub mod manifest_laws;
pub mod manifest_order;
pub mod manifest_set;
pub mod messages;
pub mod name_laws;
pub mod name_set;
pub mod names;
pub mod opening;
pub mod opening_laws;
pub mod order;
pub mod order_laws;
pub mod page;
pub mod page_laws;
pub mod path;
pub mod plan;
pub mod plan_laws;
pub mod planning_laws;
pub mod probe_laws;
pub mod probe_run;
pub mod publication;
pub mod receiver;
pub mod receiver_laws;
pub mod receiver_run;
pub mod recovery_laws;
pub mod recovery_run;
pub mod render;
pub mod rounds;
pub mod run_laws;
pub mod semantics;
pub mod store;
pub mod store_error;
pub mod store_laws;
pub mod summary;
pub mod summary_laws;
pub mod text;
pub mod turn;
pub mod turn_laws;
pub mod turn_run;
pub mod work;
pub mod work_laws;
pub mod work_run;
