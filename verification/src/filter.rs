use vstd::prelude::*;
use crate::state::Outpoint;

verus! {

/// A choice of transaction outputs, made by the caller of a query: those of a
/// wallet, a single one, all of them.
pub trait OutpointFilter {
    /// Whether the choice holds the output.
    spec fn includes(&self, outpoint: Outpoint) -> bool;

    fn include_outpoint(&self, outpoint: Outpoint) -> (r: bool)
        ensures
            r == self.includes(outpoint),
    ;
}

/// The choice of every output.
#[derive(Copy, Clone, PartialEq, Eq, Structural, Debug)]
pub struct FilterIncludeAll;

impl OutpointFilter for FilterIncludeAll {
    open spec fn includes(&self, outpoint: Outpoint) -> bool {
        true
    }

    fn include_outpoint(&self, outpoint: Outpoint) -> (r: bool) {
        true
    }
}

/// An output chooses itself and no other.
impl OutpointFilter for Outpoint {
    open spec fn includes(&self, outpoint: Outpoint) -> bool {
        *self == outpoint
    }

    fn include_outpoint(&self, outpoint: Outpoint) -> (r: bool) {
        self.same(&outpoint)
    }
}

/// A list of outputs chooses the outputs that it holds.
impl OutpointFilter for Vec<Outpoint> {
    open spec fn includes(&self, outpoint: Outpoint) -> bool {
        self@.contains(outpoint)
    }

    fn include_outpoint(&self, outpoint: Outpoint) -> (r: bool) {
        let mut i: usize = 0;
        while i < self.len()
            invariant
                i <= self.len(),
                forall|k: int| 0 <= k < i ==> self@[k] != outpoint,
            decreases self.len() - i,
        {
            if self[i].same(&outpoint) {
                return true;
            }
            i += 1;
        }
        false
    }
}

} // verus!
