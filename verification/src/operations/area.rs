//! Operations that measure the surface area of geometric objects.

use vstd::prelude::*;
use crate::coordinate::Area;
use crate::point2d::Point2D;
use crate::polygon::Polygon;
use crate::shape2d::{area_of, cross, edge_sum, next_index, twice_area};

verus! {

/// The cross product of two positions, taken as vectors from the origin.
///
/// The product of two coordinates takes 63 bits, so that the cross product
/// fits in 64 bits.
pub fn cross_product(p: Point2D, q: Point2D) -> (product: i128)
    ensures
        product == cross(p, q),
        -0x8000_0000_0000_0000 < product < 0x8000_0000_0000_0000,
{
    let px: i128 = p.x as i128;
    let py: i128 = p.y as i128;
    let qx: i128 = q.x as i128;
    let qy: i128 = q.y as i128;
    assert(-0x4000_0000_0000_0000 < px * qy <= 0x4000_0000_0000_0000) by (nonlinear_arith)
        requires
            -0x8000_0000 <= px <= 0x7FFF_FFFF,
            -0x8000_0000 <= qy <= 0x7FFF_FFFF,
    ;
    assert(-0x4000_0000_0000_0000 < qx * py <= 0x4000_0000_0000_0000) by (nonlinear_arith)
        requires
            -0x8000_0000 <= qx <= 0x7FFF_FFFF,
            -0x8000_0000 <= py <= 0x7FFF_FFFF,
    ;
    px * qy - qx * py
}

/// Twice the signed area that the closed chain `vertices` encloses, exactly:
/// the sum of the cross products over its edges.
pub fn doubled_area(vertices: &Vec<Point2D>) -> (twice: i128)
    ensures
        twice == twice_area(vertices@),
        -0x8000_0000_0000_0000 * vertices@.len() <= twice <= 0x8000_0000_0000_0000
            * vertices@.len(),
        i128::MIN < twice,
{
    let n = vertices.len();
    let mut sum: i128 = 0;
    let mut i: usize = 0;
    while i < n
        invariant
            i <= n,
            n == vertices@.len(),
            sum == edge_sum(vertices@, i as nat),
            -0x8000_0000_0000_0000 * i <= sum <= 0x8000_0000_0000_0000 * i,
        decreases n - i,
    {
        let j = if i + 1 == n {
            0
        } else {
            i + 1
        };
        assert(j == next_index(vertices@.len(), i as int));
        let product = cross_product(vertices[i], vertices[j]);
        sum = sum + product;
        i += 1;
    }
    sum
}

/// The signed surface area of a polygon: positive if its vertices wind
/// counter-clockwise, negative if they wind clockwise.
///
/// The area is in whole units, rounded towards zero. A polygon of fewer than
/// three vertices has no area. An area that does not fit in an `Area` wraps
/// around.
pub fn polygon_area(polygon: &Polygon) -> (area: Area)
    ensures
        area == area_of(polygon@),
{
    let twice = doubled_area(polygon.host_vertices());
    let half = if twice >= 0 {
        twice / 2
    } else {
        -((-twice) / 2)
    };
    #[verifier::truncate]
    (half as i64)
}

} // verus!
