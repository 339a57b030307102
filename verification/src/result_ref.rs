//! A named result of a chain.

use vstd::prelude::*;

verus! {

/// A reference to the step output that a chain result reports.
#[derive(Debug, Clone)]
pub struct ResultRef {
    /// The key of the output, as `steps.<step>.outputs.<output>`.
    pub ref_: String,
}

} // verus!
