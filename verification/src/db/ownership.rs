//! A row of the ownership table: which user owns which zone.

use vstd::prelude::*;

verus! {

/// A zone ownership.
#[derive(Debug, Clone, Copy, PartialEq, Eq)]
pub struct Model {
    /// The ownership's UUID, as its 128 bits
    pub id: u128,
    /// The zone's UUID, as its 128 bits
    pub zoneid: u128,
    /// The user's UUID, as its 128 bits
    pub userid: u128,
}

} // verus!
