//! The capability of being positioned in two-dimensional space.

use vstd::prelude::*;
use crate::coordinate::Coordinate;
use crate::point2d::Point2D;

verus! {

/// The positions `points`, each moved by `dx` along X and by `dy` along Y.
///
/// The order and the number of the positions stay as they are.
pub open spec fn moved_points(points: Seq<Point2D>, dx: Coordinate, dy: Coordinate) -> Seq<Point2D> {
    Seq::new(points.len(), |i: int| points[i].moved_by(dx, dy))
}

/// Geometrical objects that are in a two-dimensional space.
pub trait TwoDimensional {
    /// The positions that make up this object, in their order.
    spec fn positions(&self) -> Seq<Point2D>;

    /// Move the object across the two-dimensional space.
    ///
    /// Every position of the object moves by `dx` in the X direction and by
    /// `dy` in the Y direction. The object is not rotated, scaled or deformed.
    /// Coordinates wrap around at the ends of their range.
    fn translate(&mut self, dx: Coordinate, dy: Coordinate)
        ensures
            final(self).positions() == moved_points(old(self).positions(), dx, dy),
    ;
}

/// Moving by zero along both dimensions leaves every position as it is.
pub proof fn lemma_moved_points_zero(points: Seq<Point2D>)
    ensures
        moved_points(points, 0, 0) == points,
{
    assert forall|i: int| 0 <= i < points.len() implies moved_points(points, 0, 0)[i] == points[i] by {
        Point2D::lemma_moved_by_zero(points[i]);
    }
    assert(moved_points(points, 0, 0) =~= points);
}

/// Moving by a displacement and then by its opposite restores every position,
/// whether or not a coordinate wrapped around on the way.
pub proof fn lemma_moved_points_round_trip(points: Seq<Point2D>, dx: Coordinate, dy: Coordinate)
    ensures
        moved_points(
            moved_points(points, dx, dy),
            crate::coordinate::opposite(dx),
            crate::coordinate::opposite(dy),
        ) == points,
{
    let there = moved_points(points, dx, dy);
    let back = moved_points(there, crate::coordinate::opposite(dx), crate::coordinate::opposite(dy));
    assert forall|i: int| 0 <= i < points.len() implies back[i] == points[i] by {
        Point2D::lemma_moved_by_round_trip(points[i], dx, dy);
    }
    assert(back =~= points);
}

/// Moving twice is moving once by the wrapped sum of the displacements.
pub proof fn lemma_moved_points_twice(
    points: Seq<Point2D>,
    dx1: Coordinate,
    dy1: Coordinate,
    dx2: Coordinate,
    dy2: Coordinate,
)
    ensures
        moved_points(moved_points(points, dx1, dy1), dx2, dy2) == moved_points(
            points,
            crate::coordinate::wrapped_sum(dx1, dx2),
            crate::coordinate::wrapped_sum(dy1, dy2),
        ),
{
    let twice = moved_points(moved_points(points, dx1, dy1), dx2, dy2);
    let once = moved_points(
        points,
        crate::coordinate::wrapped_sum(dx1, dx2),
        crate::coordinate::wrapped_sum(dy1, dy2),
    );
    assert forall|i: int| 0 <= i < points.len() implies twice[i] == once[i] by {
        crate::coordinate::lemma_wrapped_sum_associative(points[i].x, dx1, dx2);
        crate::coordinate::lemma_wrapped_sum_associative(points[i].y, dy1, dy2);
    }
    assert(twice =~= once);
}

} // verus!
