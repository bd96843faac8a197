//! Operations that tell the convexity of geometric objects.

use vstd::prelude::*;
use crate::convexity::Convexity;
use crate::operations::area::doubled_area;
use crate::point2d::Point2D;
use crate::polygon::Polygon;
use crate::shape2d::{
    along, convexity_of, edges_run_back, has_zero_width_part, inner_side, next_index,
    runs_back_along, side, twice_area,
};

verus! {

/// On which side of the edge from `a` to `b` the position `c` lies: positive
/// to the left of the edge, negative to the right of it, zero on the line
/// through it.
///
/// The difference of two coordinates takes 33 bits and the product of two
/// such differences 66 bits, so that the result is exact.
pub fn side_of(a: Point2D, b: Point2D, c: Point2D) -> (s: i128)
    ensures
        s == side(a, b, c),
{
    let abx: i128 = b.x as i128 - a.x as i128;
    let aby: i128 = b.y as i128 - a.y as i128;
    let acx: i128 = c.x as i128 - a.x as i128;
    let acy: i128 = c.y as i128 - a.y as i128;
    assert(-0x1_0000_0000_0000_0000 <= abx * acy <= 0x1_0000_0000_0000_0000) by (nonlinear_arith)
        requires
            -0x1_0000_0000 <= abx <= 0x1_0000_0000,
            -0x1_0000_0000 <= acy <= 0x1_0000_0000,
    ;
    assert(-0x1_0000_0000_0000_0000 <= aby * acx <= 0x1_0000_0000_0000_0000) by (nonlinear_arith)
        requires
            -0x1_0000_0000 <= aby <= 0x1_0000_0000,
            -0x1_0000_0000 <= acx <= 0x1_0000_0000,
    ;
    abx * acy - aby * acx
}

/// How far along the edge from `a` to `b` the position `p` lies: zero for `a`
/// itself, and the squared length of the edge for `b`.
///
/// The scalar product of two differences of coordinates takes 67 bits, so that
/// the result is exact.
pub fn along_edge(a: Point2D, b: Point2D, p: Point2D) -> (t: i128)
    ensures
        t == along(a, b, p),
{
    let abx: i128 = b.x as i128 - a.x as i128;
    let aby: i128 = b.y as i128 - a.y as i128;
    let apx: i128 = p.x as i128 - a.x as i128;
    let apy: i128 = p.y as i128 - a.y as i128;
    assert(-0x1_0000_0000_0000_0000 <= abx * apx <= 0x1_0000_0000_0000_0000) by (nonlinear_arith)
        requires
            -0x1_0000_0000 <= abx <= 0x1_0000_0000,
            -0x1_0000_0000 <= apx <= 0x1_0000_0000,
    ;
    assert(-0x1_0000_0000_0000_0000 <= aby * apy <= 0x1_0000_0000_0000_0000) by (nonlinear_arith)
        requires
            -0x1_0000_0000 <= aby <= 0x1_0000_0000,
            -0x1_0000_0000 <= apy <= 0x1_0000_0000,
    ;
    abx * apx + aby * apy
}

/// Whether the edge from `c` to `d` runs back along the edge from `a` to `b`:
/// on the same line, in the opposite direction, with more than a point in
/// common.
pub fn runs_back(a: Point2D, b: Point2D, c: Point2D, d: Point2D) -> (back: bool)
    ensures
        back == runs_back_along(a, b, c, d),
{
    if side_of(a, b, c) != 0 || side_of(a, b, d) != 0 {
        return false;
    }
    let at_c = along_edge(a, b, c);
    let at_d = along_edge(a, b, d);
    at_d < at_c && 0 < at_c && at_d < along_edge(a, b, b)
}

/// Whether the closed chain `vertices` has a part of zero width: an edge that
/// runs back along another one.
pub fn zero_width_part(vertices: &Vec<Point2D>) -> (found: bool)
    ensures
        found == has_zero_width_part(vertices@),
{
    let n = vertices.len();
    let mut i: usize = 0;
    while i < n
        invariant
            i <= n,
            n == vertices@.len(),
            forall|a: int, b: int|
                0 <= a < i && 0 <= b < n ==> !#[trigger] edges_run_back(vertices@, a, b),
        decreases n - i,
    {
        let after_i = if i + 1 == n {
            0
        } else {
            i + 1
        };
        let mut j: usize = 0;
        while j < n
            invariant
                i < n,
                j <= n,
                after_i < n,
                n == vertices@.len(),
                after_i == next_index(vertices@.len(), i as int),
                forall|b: int| 0 <= b < j ==> !#[trigger] edges_run_back(vertices@, i as int, b),
            decreases n - j,
        {
            let after_j = if j + 1 == n {
                0
            } else {
                j + 1
            };
            assert(after_j == next_index(vertices@.len(), j as int));
            if runs_back(vertices[i], vertices[after_i], vertices[j], vertices[after_j]) {
                assert(edges_run_back(vertices@, i as int, j as int));
                return true;
            }
            j += 1;
        }
        i += 1;
    }
    false
}

/// The convexity of a polygon.
///
/// A polygon of fewer than three vertices, one that encloses no area on
/// balance, and one with a part of zero width, such as a spike, are
/// degenerate. Any other polygon is convex if all of it lies on one side of
/// each of its edges, and concave if it does not.
pub fn polygon_convexity(polygon: &Polygon) -> (convexity: Convexity)
    ensures
        convexity == convexity_of(polygon@),
        convexity != Convexity::UNKNOWN,
{
    let vertices = polygon.host_vertices();
    let n = vertices.len();
    if n < 3 {
        return Convexity::DEGENERATE;
    }
    let twice = doubled_area(vertices);
    if twice == 0 {
        return Convexity::DEGENERATE;
    }
    if zero_width_part(vertices) {
        return Convexity::DEGENERATE;
    }
    let mut i: usize = 0;
    while i < n
        invariant
            i <= n,
            n == vertices@.len(),
            n >= 3,
            vertices@ == polygon@,
            twice == twice_area(vertices@),
            twice != 0,
            !has_zero_width_part(vertices@),
            forall|a: int, b: int|
                0 <= a < i && 0 <= b < n ==> #[trigger] inner_side(vertices@, twice as int, a, b),
        decreases n - i,
    {
        let next = if i + 1 == n {
            0
        } else {
            i + 1
        };
        assert(next == next_index(vertices@.len(), i as int));
        let mut j: usize = 0;
        while j < n
            invariant
                i < n,
                j <= n,
                next < n,
                n >= 3,
                n == vertices@.len(),
                vertices@ == polygon@,
                next == next_index(vertices@.len(), i as int),
                twice == twice_area(vertices@),
                twice != 0,
                !has_zero_width_part(vertices@),
                forall|b: int| 0 <= b < j ==> #[trigger] inner_side(vertices@, twice as int, i as int, b),
            decreases n - j,
        {
            let s = side_of(vertices[i], vertices[next], vertices[j]);
            let inside = if twice > 0 {
                s >= 0
            } else {
                s <= 0
            };
            if !inside {
                assert(!inner_side(vertices@, twice as int, i as int, j as int));
                return Convexity::CONCAVE;
            }
            j += 1;
        }
        i += 1;
    }
    Convexity::CONVEX
}

} // verus!
