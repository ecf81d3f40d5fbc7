//! Causal frontiers.

use vstd::prelude::*;

use crate::bytes::{copy_bytes, same_bytes};

verus! {

/// The causal frontier that a page was materialised at, in its canonical encoding.
#[derive(Clone, Debug, PartialEq, Eq)]
pub struct FrontierV2 {
    pub encoded: Vec<u8>,
}

impl View for FrontierV2 {
    type V = Seq<u8>;

    open spec fn view(&self) -> Seq<u8> {
        self.encoded@
    }
}

impl Default for FrontierV2 {
    /// The frontier of nothing.
    fn default() -> (frontier: FrontierV2)
        ensures
            frontier@ == Seq::<u8>::empty(),
    {
        FrontierV2 { encoded: Vec::new() }
    }
}

impl FrontierV2 {
    /// The frontier with the given encoding.
    pub fn from_encoded(encoded: Vec<u8>) -> (frontier: FrontierV2)
        ensures
            frontier@ == encoded@,
    {
        FrontierV2 { encoded }
    }

    /// A copy of the frontier.
    pub fn duplicate(&self) -> (copy: FrontierV2)
        ensures
            copy@ == self@,
    {
        FrontierV2 { encoded: copy_bytes(self.encoded.as_slice()) }
    }

    /// Whether two frontiers are the same.
    pub fn same(&self, other: &FrontierV2) -> (same: bool)
        ensures
            same == (self@ == other@),
    {
        same_bytes(self.encoded.as_slice(), other.encoded.as_slice())
    }
}

} // verus!
