use vstd::prelude::*;

verus! {

/// Marker for components whose distance is an angle (unit radians).
pub trait RotElement {
}

/// Marker for components whose distance is a length (unit mm).
pub trait LinElement {
}

} // verus!
