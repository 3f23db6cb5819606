//! Block heights.

use vstd::prelude::*;

verus! {

/// The slot of the chain that a round of consensus decides. Heights are
/// ordered by their number.
#[derive(Clone, Copy, Debug, PartialEq, Eq, Structural, PartialOrd, Ord, Hash)]
pub struct Height(pub u64);

} // verus!
