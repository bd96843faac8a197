//! The possible states of convexity of a shape.

use vstd::prelude::*;

verus! {

/// The states of convexity that a shape can have.
#[derive(Debug, Clone, Copy, PartialEq, Eq, Structural)]
pub enum Convexity {
    /// The convexity has not been computed yet. No public function returns
    /// this state.
    UNKNOWN,
    /// Every straight line segment between two points inside of the shape
    /// stays inside of the shape.
    CONVEX,
    /// There are straight line segments between two points inside of the shape
    /// that pass outside of it.
    CONCAVE,
    /// The shape has parts of zero width, or it has no area at all.
    DEGENERATE,
}

} // verus!
