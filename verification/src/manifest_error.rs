//! Why a manifested projection object is refused.

use vstd::prelude::*;

use crate::ids::DocumentId;

verus! {

/// Why a manifested projection object, or a set of them, is refused.
#[derive(Clone, Debug, PartialEq, Eq)]
pub enum ProjectionManifestError {
    Decode(String),
    Encode(String),
    Object(String),
    InvalidMagic(&'static str),
    UnknownVersion { kind: &'static str, expected: u32, found: u32 },
    TooLarge { kind: &'static str, length: usize, limit: usize },
    TooManyAnnotations(usize),
    TooMuchClaimEvidence(usize),
    NonCanonical(&'static str),
    BlobMismatch(&'static str),
    InvalidAnnotations,
    DescriptorDocumentMismatch { kind: &'static str, expected: DocumentId, found: DocumentId },
    InvalidBinding(&'static str),
    DuplicateIntent,
    DuplicateBase,
    MissingBaseReference,
    BaseReferenceMismatch,
    OrphanBase,
}

} // verus!
