//! Identifiers for intersections in the road network.

use vstd::prelude::*;

verus! {

/// Numeric identifier of an intersection in the road network.
///
/// The congestion monitor reports delay per intersection, so this is the
/// location identifier that runs through the whole driver.
#[derive(Clone, Copy, Debug, PartialEq, Eq, Hash, Structural)]
pub struct IntersectionID(pub usize);

} // verus!
