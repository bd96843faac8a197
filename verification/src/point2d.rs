//! A single point in two-dimensional space.

use vstd::prelude::*;
use core::cmp::Ordering;
use core::ops::{Add, Sub};
use crate::convexity::Convexity;
use crate::coordinate::{opposite, wrapped_difference, wrapped_sum, Area, Coordinate};
use crate::shape2d::{lemma_few_vertices_no_area, Shape2D};
use crate::two_dimensional::{moved_points, TwoDimensional};

verus! {

/// A point in 2D space, by its projections on the X and the Y dimension.
///
/// Points are ordered lexicographically: a point with a lower X coordinate is
/// lower, and among points with the same X coordinate the one with the lower Y
/// coordinate is lower.
#[derive(Debug, Clone, Copy, PartialEq, Eq, Structural, Ord)]
pub struct Point2D {
    /// The projection of this point on the X dimension.
    pub x: Coordinate,
    /// The projection of this point on the Y dimension.
    pub y: Coordinate,
}

impl Point2D {
    /// The point at the given position.
    pub fn new(x: Coordinate, y: Coordinate) -> (point: Point2D)
        ensures
            point == (Point2D { x, y }),
    {
        Point2D { x, y }
    }

    /// This point moved by `dx` along X and by `dy` along Y, each coordinate
    /// wrapping around at the ends of its range.
    pub open spec fn moved_by(self, dx: Coordinate, dy: Coordinate) -> Point2D {
        Point2D { x: wrapped_sum(self.x, dx), y: wrapped_sum(self.y, dy) }
    }

    /// The componentwise wrapped sum of this point and `other`.
    pub open spec fn plus(self, other: Point2D) -> Point2D {
        Point2D { x: wrapped_sum(self.x, other.x), y: wrapped_sum(self.y, other.y) }
    }

    /// The componentwise wrapped difference of this point and `other`.
    pub open spec fn minus(self, other: Point2D) -> Point2D {
        Point2D { x: wrapped_difference(self.x, other.x), y: wrapped_difference(self.y, other.y) }
    }

    /// The point that undoes this one in a sum: both coordinates replaced by
    /// their opposites.
    pub open spec fn negated(self) -> Point2D {
        Point2D { x: opposite(self.x), y: opposite(self.y) }
    }

    /// Whether this point comes strictly before `other` in the lexicographic
    /// order.
    pub open spec fn precedes(self, other: Point2D) -> bool {
        self.x < other.x || (self.x == other.x && self.y < other.y)
    }

    /// Moving a point by zero along both dimensions yields the same point.
    pub proof fn lemma_moved_by_zero(p: Point2D)
        ensures
            p.moved_by(0, 0) == p,
    {
    }

    /// Moving a point by a displacement and then by the opposite displacement
    /// yields the same point.
    pub proof fn lemma_moved_by_round_trip(p: Point2D, dx: Coordinate, dy: Coordinate)
        ensures
            p.moved_by(dx, dy).moved_by(opposite(dx), opposite(dy)) == p,
    {
    }

    /// Moving a point is adding the displacement as a point.
    pub proof fn lemma_moved_by_is_plus(p: Point2D, dx: Coordinate, dy: Coordinate)
        ensures
            p.moved_by(dx, dy) == p.plus(Point2D { x: dx, y: dy }),
    {
    }

    /// The sum of two points does not depend on their order.
    pub proof fn lemma_plus_commutative(p: Point2D, q: Point2D)
        ensures
            p.plus(q) == q.plus(p),
    {
    }

    /// The sum of three points does not depend on the grouping.
    pub proof fn lemma_plus_associative(p: Point2D, q: Point2D, r: Point2D)
        ensures
            p.plus(q).plus(r) == p.plus(q.plus(r)),
    {
    }

    /// Subtracting a point is adding its negation, componentwise.
    pub proof fn lemma_minus_is_plus_negated(p: Point2D, q: Point2D)
        ensures
            p.minus(q) == p.plus(q.negated()),
            p.minus(q).x == wrapped_sum(p.x, opposite(q.x)),
            p.minus(q).y == wrapped_sum(p.y, opposite(q.y)),
    {
    }

    /// The lexicographic order is a strict total order: of two points exactly
    /// one comes first, unless they are the same point, and the order carries
    /// over a point in between.
    pub proof fn lemma_precedes_total_order(p: Point2D, q: Point2D, r: Point2D)
        ensures
            !p.precedes(p),
            p.precedes(q) || q.precedes(p) || p == q,
            !(p.precedes(q) && q.precedes(p)),
            p.precedes(q) && q.precedes(r) ==> p.precedes(r),
    {
    }
}

impl TwoDimensional for Point2D {
    /// A point is made up of one position: its own.
    open spec fn positions(&self) -> Seq<Point2D> {
        seq![*self]
    }

    /// Move the point by `dx` along X and by `dy` along Y. A coordinate that
    /// passes an end of its range wraps around to the other end.
    fn translate(&mut self, dx: Coordinate, dy: Coordinate)
        ensures
            *final(self) == old(self).moved_by(dx, dy),
    {
        self.x = self.x.wrapping_add(dx);
        self.y = self.y.wrapping_add(dy);
        assert(self.positions() =~= moved_points(old(self).positions(), dx, dy));
    }
}

impl Shape2D for Point2D {
    /// The area of a point, which is zero.
    fn area(&self) -> (area: Area)
        ensures
            area == 0,
    {
        proof {
            lemma_few_vertices_no_area(self.positions());
        }
        0
    }

    /// The convexity of a point, which is a degenerate shape.
    fn convexity(&self) -> (convexity: Convexity)
        ensures
            convexity == Convexity::DEGENERATE,
    {
        proof {
            lemma_few_vertices_no_area(self.positions());
        }
        Convexity::DEGENERATE
    }
}

impl PartialOrd for Point2D {
    /// How this point compares to `other` in the lexicographic order: by X
    /// first, and by Y where X is the same.
    fn partial_cmp(&self, other: &Point2D) -> (r: Option<Ordering>) {
        if self.x < other.x {
            Some(Ordering::Less)
        } else if self.x > other.x {
            Some(Ordering::Greater)
        } else if self.y < other.y {
            Some(Ordering::Less)
        } else if self.y > other.y {
            Some(Ordering::Greater)
        } else {
            Some(Ordering::Equal)
        }
    }
}

impl vstd::std_specs::cmp::PartialOrdSpecImpl for Point2D {
    open spec fn obeys_partial_cmp_spec() -> bool {
        true
    }

    open spec fn partial_cmp_spec(&self, other: &Point2D) -> Option<Ordering> {
        if self.precedes(*other) {
            Some(Ordering::Less)
        } else if other.precedes(*self) {
            Some(Ordering::Greater)
        } else {
            Some(Ordering::Equal)
        }
    }
}

impl Add<Point2D> for Point2D {
    type Output = Point2D;

    /// The componentwise sum of two points. Coordinates wrap around at the
    /// ends of their range.
    fn add(self, rhs: Point2D) -> (sum: Point2D) {
        Point2D::new(self.x.wrapping_add(rhs.x), self.y.wrapping_add(rhs.y))
    }
}

impl vstd::std_specs::ops::AddSpecImpl<Point2D> for Point2D {
    open spec fn obeys_add_spec() -> bool {
        true
    }

    open spec fn add_req(self, rhs: Point2D) -> bool {
        true
    }

    open spec fn add_spec(self, rhs: Point2D) -> Point2D {
        self.plus(rhs)
    }
}

impl<'a, 'b> Add<&'b Point2D> for &'a Point2D {
    type Output = Point2D;

    /// The componentwise sum of two points. Coordinates wrap around at the
    /// ends of their range.
    fn add(self, rhs: &'b Point2D) -> (sum: Point2D) {
        Point2D::new(self.x.wrapping_add(rhs.x), self.y.wrapping_add(rhs.y))
    }
}

impl<'a, 'b> vstd::std_specs::ops::AddSpecImpl<&'b Point2D> for &'a Point2D {
    open spec fn obeys_add_spec() -> bool {
        true
    }

    open spec fn add_req(self, rhs: &'b Point2D) -> bool {
        true
    }

    open spec fn add_spec(self, rhs: &'b Point2D) -> Point2D {
        (*self).plus(*rhs)
    }
}

impl<'b> Add<&'b Point2D> for Point2D {
    type Output = Point2D;

    /// The componentwise sum of two points. Coordinates wrap around at the
    /// ends of their range.
    fn add(self, rhs: &'b Point2D) -> (sum: Point2D) {
        Point2D::new(self.x.wrapping_add(rhs.x), self.y.wrapping_add(rhs.y))
    }
}

impl<'b> vstd::std_specs::ops::AddSpecImpl<&'b Point2D> for Point2D {
    open spec fn obeys_add_spec() -> bool {
        true
    }

    open spec fn add_req(self, rhs: &'b Point2D) -> bool {
        true
    }

    open spec fn add_spec(self, rhs: &'b Point2D) -> Point2D {
        self.plus(*rhs)
    }
}

impl<'a> Add<Point2D> for &'a Point2D {
    type Output = Point2D;

    /// The componentwise sum of two points. Coordinates wrap around at the
    /// ends of their range.
    fn add(self, rhs: Point2D) -> (sum: Point2D) {
        Point2D::new(self.x.wrapping_add(rhs.x), self.y.wrapping_add(rhs.y))
    }
}

impl<'a> vstd::std_specs::ops::AddSpecImpl<Point2D> for &'a Point2D {
    open spec fn obeys_add_spec() -> bool {
        true
    }

    open spec fn add_req(self, rhs: Point2D) -> bool {
        true
    }

    open spec fn add_spec(self, rhs: Point2D) -> Point2D {
        (*self).plus(rhs)
    }
}

impl Sub<Point2D> for Point2D {
    type Output = Point2D;

    /// The componentwise difference of two points. Coordinates wrap around at the
    /// ends of their range.
    fn sub(self, rhs: Point2D) -> (difference: Point2D) {
        Point2D::new(self.x.wrapping_sub(rhs.x), self.y.wrapping_sub(rhs.y))
    }
}

impl vstd::std_specs::ops::SubSpecImpl<Point2D> for Point2D {
    open spec fn obeys_sub_spec() -> bool {
        true
    }

    open spec fn sub_req(self, rhs: Point2D) -> bool {
        true
    }

    open spec fn sub_spec(self, rhs: Point2D) -> Point2D {
        self.minus(rhs)
    }
}

impl<'a, 'b> Sub<&'b Point2D> for &'a Point2D {
    type Output = Point2D;

    /// The componentwise difference of two points. Coordinates wrap around at the
    /// ends of their range.
    fn sub(self, rhs: &'b Point2D) -> (difference: Point2D) {
        Point2D::new(self.x.wrapping_sub(rhs.x), self.y.wrapping_sub(rhs.y))
    }
}

impl<'a, 'b> vstd::std_specs::ops::SubSpecImpl<&'b Point2D> for &'a Point2D {
    open spec fn obeys_sub_spec() -> bool {
        true
    }

    open spec fn sub_req(self, rhs: &'b Point2D) -> bool {
        true
    }

    open spec fn sub_spec(self, rhs: &'b Point2D) -> Point2D {
        (*self).minus(*rhs)
    }
}

impl<'b> Sub<&'b Point2D> for Point2D {
    type Output = Point2D;

    /// The componentwise difference of two points. Coordinates wrap around at the
    /// ends of their range.
    fn sub(self, rhs: &'b Point2D) -> (difference: Point2D) {
        Point2D::new(self.x.wrapping_sub(rhs.x), self.y.wrapping_sub(rhs.y))
    }
}

impl<'b> vstd::std_specs::ops::SubSpecImpl<&'b Point2D> for Point2D {
    open spec fn obeys_sub_spec() -> bool {
        true
    }

    open spec fn sub_req(self, rhs: &'b Point2D) -> bool {
        true
    }

    open spec fn sub_spec(self, rhs: &'b Point2D) -> Point2D {
        self.minus(*rhs)
    }
}

impl<'a> Sub<Point2D> for &'a Point2D {
    type Output = Point2D;

    /// The componentwise difference of two points. Coordinates wrap around at the
    /// ends of their range.
    fn sub(self, rhs: Point2D) -> (difference: Point2D) {
        Point2D::new(self.x.wrapping_sub(rhs.x), self.y.wrapping_sub(rhs.y))
    }
}

impl<'a> vstd::std_specs::ops::SubSpecImpl<Point2D> for &'a Point2D {
    open spec fn obeys_sub_spec() -> bool {
        true
    }

    open spec fn sub_req(self, rhs: Point2D) -> bool {
        true
    }

    open spec fn sub_spec(self, rhs: Point2D) -> Point2D {
        (*self).minus(rhs)
    }
}

} // verus!
