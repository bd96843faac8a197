//! The capability of being a finitely bounded shape in two-dimensional space,
//! and what the area and the convexity of a closed chain of vertices are.

use vstd::prelude::*;
use crate::convexity::Convexity;
use crate::coordinate::{Area, Coordinate};
use crate::point2d::Point2D;
use crate::two_dimensional::{moved_points, TwoDimensional};

verus! {

/// The cross product of the positions `p` and `q`, taken as vectors from the
/// origin: twice the signed area of the triangle from the origin to `p` to
/// `q`.
pub open spec fn cross(p: Point2D, q: Point2D) -> int {
    p.x * q.y - q.x * p.y
}

/// The position of the vertex after the one at `index` in a closed chain of
/// `len` vertices: after the last vertex comes the first.
pub open spec fn next_index(len: nat, index: int) -> int {
    if index + 1 >= len {
        0
    } else {
        index + 1
    }
}

/// The sum of the cross products over the first `count` edges of the closed
/// chain `vertices`. Edge number `i` goes from vertex `i` to the vertex after
/// it.
pub open spec fn edge_sum(vertices: Seq<Point2D>, count: nat) -> int
    decreases count,
{
    if count == 0 {
        0
    } else {
        edge_sum(vertices, (count - 1) as nat) + cross(
            vertices[count - 1],
            vertices[next_index(vertices.len(), count - 1)],
        )
    }
}

/// Twice the signed area that the closed chain `vertices` encloses: positive
/// where the chain winds counter-clockwise, negative where it winds clockwise.
/// A part of the plane that the chain winds around twice counts twice.
pub open spec fn twice_area(vertices: Seq<Point2D>) -> int {
    edge_sum(vertices, vertices.len())
}

/// Half of `a`, rounded towards zero.
pub open spec fn half_toward_zero(a: int) -> int {
    if a >= 0 {
        a / 2
    } else {
        -((-a) / 2)
    }
}

/// The signed area that the closed chain `vertices` encloses, in whole units,
/// rounded towards zero.
pub open spec fn exact_area(vertices: Seq<Point2D>) -> int {
    half_toward_zero(twice_area(vertices))
}

/// The signed area that the closed chain `vertices` encloses as an `Area`:
/// the exact area wherever that fits, and its lowest 64 bits otherwise.
pub open spec fn area_of(vertices: Seq<Point2D>) -> Area {
    exact_area(vertices) as Area
}

/// On which side of the edge from vertex `a` to vertex `b` the vertex `c`
/// lies: positive to the left of the edge, negative to the right of it, zero
/// on the line through it.
pub open spec fn side(a: Point2D, b: Point2D, c: Point2D) -> int {
    (b.x - a.x) * (c.y - a.y) - (b.y - a.y) * (c.x - a.x)
}

/// Whether every vertex of the closed chain lies on the inner side of every
/// edge, or on the line through it. The inner side is to the left of an edge
/// if the chain winds counter-clockwise (`winding` is positive), and to the
/// right if it winds clockwise (`winding` is negative).
pub open spec fn within_all_edges(vertices: Seq<Point2D>, winding: int) -> bool {
    forall|i: int, j: int|
        0 <= i < vertices.len() && 0 <= j < vertices.len() ==> #[trigger] inner_side(
            vertices,
            winding,
            i,
            j,
        )
}

/// Whether vertex `j` of the closed chain lies on the inner side of edge `i`,
/// or on the line through it.
pub open spec fn inner_side(vertices: Seq<Point2D>, winding: int, i: int, j: int) -> bool {
    let s = side(vertices[i], vertices[next_index(vertices.len(), i)], vertices[j]);
    if winding >= 0 {
        s >= 0
    } else {
        s <= 0
    }
}

/// How far along the edge from `a` to `b` the position `p` lies: the scalar
/// product of the edge with the step from `a` to `p`. It is zero for `a`
/// itself, grows in the direction of the edge, and is the squared length of
/// the edge for `b`.
pub open spec fn along(a: Point2D, b: Point2D, p: Point2D) -> int {
    (b.x - a.x) * (p.x - a.x) + (b.y - a.y) * (p.y - a.y)
}

/// Whether the edge from `c` to `d` runs back along the edge from `a` to `b`:
/// both lie on one line, they point in opposite directions, and they have more
/// than a point in common. What lies between two such edges has no width.
pub open spec fn runs_back_along(a: Point2D, b: Point2D, c: Point2D, d: Point2D) -> bool {
    &&& side(a, b, c) == 0
    &&& side(a, b, d) == 0
    &&& along(a, b, d) < along(a, b, c)
    &&& 0 < along(a, b, c)
    &&& along(a, b, d) < along(a, b, b)
}

/// Whether edge `j` of the closed chain runs back along edge `i` of it.
pub open spec fn edges_run_back(vertices: Seq<Point2D>, i: int, j: int) -> bool {
    runs_back_along(
        vertices[i],
        vertices[next_index(vertices.len(), i)],
        vertices[j],
        vertices[next_index(vertices.len(), j)],
    )
}

/// Whether the closed chain has a part of zero width: an edge that runs back
/// along another edge, as in a spike that sticks out of the shape or in a
/// passage of no width between two parts of it.
pub open spec fn has_zero_width_part(vertices: Seq<Point2D>) -> bool {
    exists|i: int, j: int|
        0 <= i < vertices.len() && 0 <= j < vertices.len() && #[trigger] edges_run_back(
            vertices,
            i,
            j,
        )
}

/// The convexity of the closed chain `vertices`.
///
/// A chain of fewer than three vertices, one that encloses no area on
/// balance, and one with a part of zero width are degenerate. Any other chain
/// is convex if it lies on one side of each of its edges, and concave if it
/// does not.
pub open spec fn convexity_of(vertices: Seq<Point2D>) -> Convexity {
    if vertices.len() < 3 || twice_area(vertices) == 0 || has_zero_width_part(vertices) {
        Convexity::DEGENERATE
    } else if within_all_edges(vertices, twice_area(vertices)) {
        Convexity::CONVEX
    } else {
        Convexity::CONCAVE
    }
}

/// Finitely bounded shapes in two-dimensional space.
pub trait Shape2D: TwoDimensional {
    /// The surface area of this shape.
    ///
    /// The area is negative for a shape that winds clockwise: such shapes
    /// stand for holes in other shapes.
    fn area(&self) -> (area: Area)
        ensures
            area == area_of(self.positions()),
    ;

    /// The convexity of this shape.
    ///
    /// A shape is convex if every line segment between two points inside of
    /// it stays inside of it, and concave if there is one that does not. A
    /// shape without area, or with a part of zero width, is degenerate.
    fn convexity(&self) -> (convexity: Convexity)
        ensures
            convexity == convexity_of(self.positions()),
            convexity != Convexity::UNKNOWN,
    ;
}

/// An area that fits in an `Area` is held exactly.
pub proof fn lemma_area_that_fits(vertices: Seq<Point2D>)
    requires
        Area::MIN <= exact_area(vertices) <= Area::MAX,
    ensures
        area_of(vertices) == exact_area(vertices),
{
}

/// A closed chain of fewer than three vertices encloses no area.
pub proof fn lemma_few_vertices_no_area(vertices: Seq<Point2D>)
    requires
        vertices.len() < 3,
    ensures
        twice_area(vertices) == 0,
        exact_area(vertices) == 0,
        area_of(vertices) == 0,
        convexity_of(vertices) == Convexity::DEGENERATE,
{
    reveal_with_fuel(edge_sum, 3);
    if vertices.len() == 2 {
        let p = vertices[0];
        let q = vertices[1];
        assert(cross(p, q) + cross(q, p) == 0) by (nonlinear_arith)
            requires
                cross(p, q) == p.x * q.y - q.x * p.y,
                cross(q, p) == q.x * p.y - p.x * q.y,
        ;
    }
}

/// Whether every one of `vertices` can move by `dx` along X and by `dy` along
/// Y without a coordinate that wraps around.
pub open spec fn moves_without_wrapping(vertices: Seq<Point2D>, dx: Coordinate, dy: Coordinate) -> bool {
    forall|i: int|
        0 <= i < vertices.len() ==> {
            &&& Coordinate::MIN <= (#[trigger] vertices[i]).x + dx <= Coordinate::MAX
            &&& Coordinate::MIN <= vertices[i].y + dy <= Coordinate::MAX
        }
}

/// What moving a chain adds to the sum over its first `count` edges: a term
/// that depends on where the last of these edges ends only, and that is zero
/// where it ends at the first vertex.
proof fn lemma_edge_sum_moved(vertices: Seq<Point2D>, dx: Coordinate, dy: Coordinate, count: nat)
    requires
        moves_without_wrapping(vertices, dx, dy),
        1 <= count <= vertices.len(),
    ensures
        edge_sum(moved_points(vertices, dx, dy), count) == edge_sum(vertices, count) + dx * (
        vertices[next_index(vertices.len(), count - 1)].y - vertices[0].y) - dy * (vertices[next_index(
            vertices.len(),
            count - 1,
        )].x - vertices[0].x),
    decreases count,
{
    let moved = moved_points(vertices, dx, dy);
    let n = vertices.len();
    let p = vertices[count - 1];
    let q = vertices[next_index(n, count - 1)];
    let mp = moved[count - 1];
    let mq = moved[next_index(n, count - 1)];
    assert(mp.x == p.x + dx && mp.y == p.y + dy);
    assert(mq.x == q.x + dx && mq.y == q.y + dy);
    let px = p.x as int;
    let py = p.y as int;
    let qx = q.x as int;
    let qy = q.y as int;
    let ex = dx as int;
    let ey = dy as int;
    assert((px + ex) * (qy + ey) == px * qy + px * ey + ex * qy + ex * ey) by (nonlinear_arith);
    assert((qx + ex) * (py + ey) == qx * py + qx * ey + ex * py + ex * ey) by (nonlinear_arith);
    assert(ex * (qy - py) == ex * qy - ex * py) by (nonlinear_arith);
    assert(ey * (qx - px) == qx * ey - px * ey) by (nonlinear_arith);
    assert(cross(mp, mq) == (px + ex) * (qy + ey) - (qx + ex) * (py + ey));
    assert(cross(mp, mq) == cross(p, q) + dx * (q.y - p.y) - dy * (q.x - p.x));
    if count == 1 {
        reveal_with_fuel(edge_sum, 2);
    } else {
        lemma_edge_sum_moved(vertices, dx, dy, (count - 1) as nat);
        let o = vertices[0];
        assert(next_index(n, count - 2) == count - 1);
        assert(dx * (p.y - o.y) + dx * (q.y - p.y) == dx * (q.y - o.y)) by (nonlinear_arith);
        assert(dy * (p.x - o.x) + dy * (q.x - p.x) == dy * (q.x - o.x)) by (nonlinear_arith);
    }
}

/// Moving a chain of vertices, without a coordinate that wraps around, keeps
/// on which side of an edge a vertex lies.
proof fn lemma_side_moved(a: Point2D, b: Point2D, c: Point2D, dx: Coordinate, dy: Coordinate)
    requires
        moves_without_wrapping(seq![a, b, c], dx, dy),
    ensures
        side(a.moved_by(dx, dy), b.moved_by(dx, dy), c.moved_by(dx, dy)) == side(a, b, c),
{
    let s = seq![a, b, c];
    assert(s[0] == a && s[1] == b && s[2] == c);
    let ma = a.moved_by(dx, dy);
    let mb = b.moved_by(dx, dy);
    let mc = c.moved_by(dx, dy);
    assert(mb.x - ma.x == b.x - a.x);
    assert(mb.y - ma.y == b.y - a.y);
    assert(mc.x - ma.x == c.x - a.x);
    assert(mc.y - ma.y == c.y - a.y);
}

/// Moving two edges, without a coordinate that wraps around, keeps whether one
/// runs back along the other.
proof fn lemma_runs_back_moved(
    a: Point2D,
    b: Point2D,
    c: Point2D,
    d: Point2D,
    dx: Coordinate,
    dy: Coordinate,
)
    requires
        moves_without_wrapping(seq![a, b, c, d], dx, dy),
    ensures
        runs_back_along(
            a.moved_by(dx, dy),
            b.moved_by(dx, dy),
            c.moved_by(dx, dy),
            d.moved_by(dx, dy),
        ) == runs_back_along(a, b, c, d),
{
    let s = seq![a, b, c, d];
    assert(s[0] == a && s[1] == b && s[2] == c && s[3] == d);
    let ma = a.moved_by(dx, dy);
    let mb = b.moved_by(dx, dy);
    let mc = c.moved_by(dx, dy);
    let md = d.moved_by(dx, dy);
    assert(mb.x - ma.x == b.x - a.x);
    assert(mb.y - ma.y == b.y - a.y);
    assert(mc.x - ma.x == c.x - a.x);
    assert(mc.y - ma.y == c.y - a.y);
    assert(md.x - ma.x == d.x - a.x);
    assert(md.y - ma.y == d.y - a.y);
    assert(side(ma, mb, mc) == side(a, b, c));
    assert(side(ma, mb, md) == side(a, b, d));
    assert(along(ma, mb, mc) == along(a, b, c));
    assert(along(ma, mb, md) == along(a, b, d));
    assert(along(ma, mb, mb) == along(a, b, b));
}

/// Translating a chain, without a coordinate that wraps around, keeps whether
/// it has a part of zero width.
proof fn lemma_zero_width_moved(vertices: Seq<Point2D>, dx: Coordinate, dy: Coordinate)
    requires
        moves_without_wrapping(vertices, dx, dy),
    ensures
        has_zero_width_part(moved_points(vertices, dx, dy)) == has_zero_width_part(vertices),
{
    let moved = moved_points(vertices, dx, dy);
    let n = vertices.len();
    assert forall|i: int, j: int| 0 <= i < n && 0 <= j < n implies edges_run_back(moved, i, j)
        == edges_run_back(vertices, i, j) by {
        let a = vertices[i];
        let b = vertices[next_index(n, i)];
        let c = vertices[j];
        let d = vertices[next_index(n, j)];
        let s = seq![a, b, c, d];
        assert(s[0] == a && s[1] == b && s[2] == c && s[3] == d);
        assert(moves_without_wrapping(s, dx, dy));
        lemma_runs_back_moved(a, b, c, d, dx, dy);
    }
    if has_zero_width_part(vertices) {
        let (i, j) = choose|i: int, j: int|
            0 <= i < n && 0 <= j < n && #[trigger] edges_run_back(vertices, i, j);
        assert(edges_run_back(moved, i, j));
    }
    if has_zero_width_part(moved) {
        let (i, j) = choose|i: int, j: int|
            0 <= i < n && 0 <= j < n && #[trigger] edges_run_back(moved, i, j);
        assert(edges_run_back(vertices, i, j));
    }
}

/// Translating a shape does not change its area nor its convexity, as long as
/// no coordinate wraps around.
pub proof fn lemma_translation_keeps_shape(vertices: Seq<Point2D>, dx: Coordinate, dy: Coordinate)
    requires
        moves_without_wrapping(vertices, dx, dy),
    ensures
        twice_area(moved_points(vertices, dx, dy)) == twice_area(vertices),
        exact_area(moved_points(vertices, dx, dy)) == exact_area(vertices),
        area_of(moved_points(vertices, dx, dy)) == area_of(vertices),
        convexity_of(moved_points(vertices, dx, dy)) == convexity_of(vertices),
{
    let moved = moved_points(vertices, dx, dy);
    let n = vertices.len();
    assert(moved.len() == n);
    lemma_zero_width_moved(vertices, dx, dy);
    if n > 0 {
        lemma_edge_sum_moved(vertices, dx, dy, n);
        assert(next_index(n, n - 1) == 0);
        let first = vertices[0];
        assert(dx * (first.y - first.y) == 0) by (nonlinear_arith);
        assert(dy * (first.x - first.x) == 0) by (nonlinear_arith);
        assert(edge_sum(moved, n) == edge_sum(vertices, n));
    }
    assert(twice_area(moved) == twice_area(vertices));
    let winding = twice_area(vertices);
    assert forall|i: int, j: int| 0 <= i < n && 0 <= j < n implies inner_side(moved, winding, i, j)
        == inner_side(vertices, winding, i, j) by {
        let a = vertices[i];
        let b = vertices[next_index(n, i)];
        let c = vertices[j];
        let s = seq![a, b, c];
        assert(s[0] == a && s[1] == b && s[2] == c);
        assert(moves_without_wrapping(s, dx, dy));
        lemma_side_moved(a, b, c, dx, dy);
    }
    if within_all_edges(vertices, winding) {
        assert forall|i: int, j: int| 0 <= i < n && 0 <= j < n implies #[trigger] inner_side(
            moved,
            winding,
            i,
            j,
        ) by {
            assert(inner_side(vertices, winding, i, j));
        }
    }
    if within_all_edges(moved, winding) {
        assert forall|i: int, j: int| 0 <= i < n && 0 <= j < n implies #[trigger] inner_side(
            vertices,
            winding,
            i,
            j,
        ) by {
            assert(inner_side(moved, winding, i, j));
        }
    }
}

/// The closed chain `vertices` with the seam moved past its first vertex: the
/// same vertices in the same cyclic order, counted from the second one.
pub open spec fn seam_moved(vertices: Seq<Point2D>) -> Seq<Point2D> {
    if vertices.len() == 0 {
        vertices
    } else {
        vertices.subrange(1, vertices.len() as int).push(vertices[0])
    }
}

/// The closed chain `vertices` with the seam before vertex `first`: the same
/// vertices in the same cyclic order, counted from that vertex.
pub open spec fn seam_at(vertices: Seq<Point2D>, first: nat) -> Seq<Point2D>
    decreases first,
{
    if first == 0 {
        vertices
    } else {
        seam_moved(seam_at(vertices, (first - 1) as nat))
    }
}

/// The sum over the first edges of a chain with the seam moved by one is the
/// sum over the same edges of the chain as it was: all but its first edge.
proof fn lemma_edge_sum_seam_moved(vertices: Seq<Point2D>, count: nat)
    requires
        vertices.len() >= 2,
        count < vertices.len(),
    ensures
        edge_sum(seam_moved(vertices), count) == edge_sum(vertices, count + 1) - cross(
            vertices[0],
            vertices[1],
        ),
    decreases count,
{
    let n = vertices.len();
    let moved = seam_moved(vertices);
    reveal_with_fuel(edge_sum, 2);
    if count > 0 {
        lemma_edge_sum_seam_moved(vertices, (count - 1) as nat);
        assert(moved[count - 1] == vertices[count as int]);
        assert(moved[next_index(n, count - 1)] == vertices[next_index(n, count as int)]);
    }
}

/// Where the seam of a closed chain lies does not matter to whether it has a
/// part of zero width.
proof fn lemma_zero_width_seam_moved(vertices: Seq<Point2D>)
    ensures
        has_zero_width_part(seam_moved(vertices)) == has_zero_width_part(vertices),
{
    let n = vertices.len();
    let moved = seam_moved(vertices);
    if n < 2 {
        assert(moved =~= vertices);
    } else {
        assert(moved.len() == n);
        if has_zero_width_part(vertices) {
            let (i, j) = choose|i: int, j: int|
                0 <= i < n && 0 <= j < n && #[trigger] edges_run_back(vertices, i, j);
            let a = if i == 0 {
                n - 1
            } else {
                i - 1
            };
            let b = if j == 0 {
                n - 1
            } else {
                j - 1
            };
            assert(moved[a] == vertices[i]);
            assert(moved[b] == vertices[j]);
            assert(moved[next_index(n, a)] == vertices[next_index(n, i)]);
            assert(moved[next_index(n, b)] == vertices[next_index(n, j)]);
            assert(edges_run_back(moved, a, b));
        }
        if has_zero_width_part(moved) {
            let (i, j) = choose|i: int, j: int|
                0 <= i < n && 0 <= j < n && #[trigger] edges_run_back(moved, i, j);
            let a = next_index(n, i);
            let b = next_index(n, j);
            assert(moved[i] == vertices[a]);
            assert(moved[j] == vertices[b]);
            assert(moved[next_index(n, i)] == vertices[next_index(n, a)]);
            assert(moved[next_index(n, j)] == vertices[next_index(n, b)]);
            assert(edges_run_back(vertices, a, b));
        }
    }
}

/// Where the seam of a closed chain lies does not matter to its area nor to
/// its convexity.
pub proof fn lemma_seam_does_not_matter(vertices: Seq<Point2D>)
    ensures
        seam_moved(vertices).len() == vertices.len(),
        twice_area(seam_moved(vertices)) == twice_area(vertices),
        exact_area(seam_moved(vertices)) == exact_area(vertices),
        area_of(seam_moved(vertices)) == area_of(vertices),
        convexity_of(seam_moved(vertices)) == convexity_of(vertices),
{
    let n = vertices.len();
    let moved = seam_moved(vertices);
    lemma_zero_width_seam_moved(vertices);
    if n < 2 {
        assert(moved =~= vertices);
    } else {
        lemma_edge_sum_seam_moved(vertices, (n - 1) as nat);
        assert(moved[n - 1] == vertices[0]);
        assert(moved[next_index(n, n - 1)] == vertices[1]);
        let winding = twice_area(vertices);
        if within_all_edges(vertices, winding) {
            assert forall|i: int, j: int| 0 <= i < n && 0 <= j < n implies #[trigger] inner_side(
                moved,
                winding,
                i,
                j,
            ) by {
                let a = next_index(n, i);
                let b = next_index(n, j);
                assert(moved[i] == vertices[a]);
                assert(moved[j] == vertices[b]);
                assert(moved[next_index(n, i)] == vertices[next_index(n, a)]);
                assert(inner_side(vertices, winding, a, b));
            }
        }
        if within_all_edges(moved, winding) {
            assert forall|i: int, j: int| 0 <= i < n && 0 <= j < n implies #[trigger] inner_side(
                vertices,
                winding,
                i,
                j,
            ) by {
                let a = if i == 0 {
                    n - 1
                } else {
                    i - 1
                };
                let b = if j == 0 {
                    n - 1
                } else {
                    j - 1
                };
                assert(moved[a] == vertices[i]);
                assert(moved[b] == vertices[j]);
                assert(moved[next_index(n, a)] == vertices[next_index(n, i)]);
                assert(inner_side(moved, winding, a, b));
            }
        }
    }
}

/// Wherever the seam of a closed chain is put, its area and its convexity are
/// the same.
pub proof fn lemma_seam_anywhere(vertices: Seq<Point2D>, first: nat)
    ensures
        seam_at(vertices, first).len() == vertices.len(),
        twice_area(seam_at(vertices, first)) == twice_area(vertices),
        exact_area(seam_at(vertices, first)) == exact_area(vertices),
        area_of(seam_at(vertices, first)) == area_of(vertices),
        convexity_of(seam_at(vertices, first)) == convexity_of(vertices),
    decreases first,
{
    if first > 0 {
        lemma_seam_anywhere(vertices, (first - 1) as nat);
        lemma_seam_does_not_matter(seam_at(vertices, (first - 1) as nat));
    }
}

/// The closed chain `vertices` walked the other way round: the same vertices
/// in the opposite order.
pub open spec fn reversed(vertices: Seq<Point2D>) -> Seq<Point2D> {
    Seq::new(vertices.len(), |i: int| vertices[vertices.len() - 1 - i])
}

/// The sum over the first edges of a chain that is walked the other way round
/// is the negated sum over as many of the last edges of the chain as it was,
/// the edge across the seam left out.
proof fn lemma_edge_sum_reversed(vertices: Seq<Point2D>, count: nat)
    requires
        vertices.len() >= 1,
        count <= vertices.len() - 1,
    ensures
        edge_sum(reversed(vertices), count) == edge_sum(vertices, (vertices.len() - 1 - count) as nat)
            - edge_sum(vertices, (vertices.len() - 1) as nat),
    decreases count,
{
    let n = vertices.len();
    let r = reversed(vertices);
    if count > 0 {
        lemma_edge_sum_reversed(vertices, (count - 1) as nat);
        let p = vertices[n - 1 - count];
        let q = vertices[n - count];
        assert(r[count - 1] == q);
        assert(r[next_index(n, count - 1)] == p);
        assert(next_index(n, n - 1 - count) == n - count);
        assert(cross(q, p) == -cross(p, q)) by (nonlinear_arith)
            requires
                cross(q, p) == q.x * p.y - p.x * q.y,
                cross(p, q) == p.x * q.y - q.x * p.y,
        ;
        assert(edge_sum(vertices, (n - count) as nat) == edge_sum(vertices, (n - 1 - count) as nat)
            + cross(p, q));
    }
}

/// A vertex that lies to the left of an edge lies to the right of the same
/// edge walked the other way.
proof fn lemma_side_reversed(a: Point2D, b: Point2D, c: Point2D)
    ensures
        side(b, a, c) == -side(a, b, c),
{
    let abx = b.x - a.x;
    let aby = b.y - a.y;
    let acx = c.x - a.x;
    let acy = c.y - a.y;
    assert((0 - abx) * (acy - aby) - (0 - aby) * (acx - abx) == -(abx * acy - aby * acx))
        by (nonlinear_arith);
    assert(a.x - b.x == 0 - abx);
    assert(a.y - b.y == 0 - aby);
    assert(c.y - b.y == acy - aby);
    assert(c.x - b.x == acx - abx);
}

/// Two edges of which one runs back along the other still do so when both are
/// walked the other way.
proof fn lemma_runs_back_reversed(a: Point2D, b: Point2D, c: Point2D, d: Point2D)
    ensures
        runs_back_along(b, a, d, c) == runs_back_along(a, b, c, d),
{
    lemma_side_reversed(a, b, c);
    lemma_side_reversed(a, b, d);
    let ux = b.x - a.x;
    let uy = b.y - a.y;
    let cx = c.x - a.x;
    let cy = c.y - a.y;
    let ex = d.x - a.x;
    let ey = d.y - a.y;
    let length = ux * ux + uy * uy;
    assert(along(a, b, b) == length);
    assert(along(a, b, c) == ux * cx + uy * cy);
    assert(along(a, b, d) == ux * ex + uy * ey);
    assert((0 - ux) * (0 - ux) + (0 - uy) * (0 - uy) == length) by (nonlinear_arith)
        requires
            length == ux * ux + uy * uy,
    ;
    assert((0 - ux) * (cx - ux) + (0 - uy) * (cy - uy) == length - (ux * cx + uy * cy))
        by (nonlinear_arith)
        requires
            length == ux * ux + uy * uy,
    ;
    assert((0 - ux) * (ex - ux) + (0 - uy) * (ey - uy) == length - (ux * ex + uy * ey))
        by (nonlinear_arith)
        requires
            length == ux * ux + uy * uy,
    ;
    assert(a.x - b.x == 0 - ux && a.y - b.y == 0 - uy);
    assert(c.x - b.x == cx - ux && c.y - b.y == cy - uy);
    assert(d.x - b.x == ex - ux && d.y - b.y == ey - uy);
    assert(along(b, a, a) == length);
    assert(along(b, a, c) == length - along(a, b, c));
    assert(along(b, a, d) == length - along(a, b, d));
}

/// A chain that is walked the other way round has a part of zero width if the
/// chain has one.
proof fn lemma_zero_width_reversed(vertices: Seq<Point2D>)
    ensures
        has_zero_width_part(reversed(vertices)) == has_zero_width_part(vertices),
{
    let n = vertices.len();
    let r = reversed(vertices);
    assert(r.len() == n);
    // Edge `i` of either chain is edge `edge_of(i)` of the other, walked the
    // other way.
    let edge_of = |i: int| if i == n - 1 { n - 1 } else { n - 2 - i };
    if has_zero_width_part(vertices) {
        let (i, j) = choose|i: int, j: int|
            0 <= i < n && 0 <= j < n && #[trigger] edges_run_back(vertices, i, j);
        let e = edge_of(i);
        let f = edge_of(j);
        let a = vertices[i];
        let b = vertices[next_index(n, i)];
        let c = vertices[j];
        let d = vertices[next_index(n, j)];
        assert(r[e] == b);
        assert(r[next_index(n, e)] == a);
        assert(r[f] == d);
        assert(r[next_index(n, f)] == c);
        lemma_runs_back_reversed(a, b, c, d);
        assert(edges_run_back(r, e, f));
    }
    if has_zero_width_part(r) {
        let (i, j) = choose|i: int, j: int|
            0 <= i < n && 0 <= j < n && #[trigger] edges_run_back(r, i, j);
        let e = edge_of(i);
        let f = edge_of(j);
        let a = vertices[e];
        let b = vertices[next_index(n, e)];
        let c = vertices[f];
        let d = vertices[next_index(n, f)];
        assert(r[i] == b);
        assert(r[next_index(n, i)] == a);
        assert(r[j] == d);
        assert(r[next_index(n, j)] == c);
        lemma_runs_back_reversed(a, b, c, d);
        assert(edges_run_back(vertices, e, f));
    }
}

/// The sign of the area follows the winding: a chain that is walked the other
/// way round encloses the negated area. Its convexity is the same.
pub proof fn lemma_reversed_negates_area(vertices: Seq<Point2D>)
    ensures
        twice_area(reversed(vertices)) == -twice_area(vertices),
        exact_area(reversed(vertices)) == -exact_area(vertices),
        convexity_of(reversed(vertices)) == convexity_of(vertices),
{
    let n = vertices.len();
    let r = reversed(vertices);
    assert(r.len() == n);
    lemma_zero_width_reversed(vertices);
    if n >= 1 {
        lemma_edge_sum_reversed(vertices, (n - 1) as nat);
        let p = vertices[n - 1];
        let q = vertices[0];
        assert(r[n - 1] == q);
        assert(r[next_index(n, n - 1)] == p);
        assert(next_index(n, n - 1) == 0);
        assert(cross(q, p) == -cross(p, q)) by (nonlinear_arith)
            requires
                cross(q, p) == q.x * p.y - p.x * q.y,
                cross(p, q) == p.x * q.y - q.x * p.y,
        ;
        assert(edge_sum(vertices, 0) == 0);
        assert(edge_sum(vertices, n) == edge_sum(vertices, (n - 1) as nat) + cross(p, q));
        assert(edge_sum(r, n) == edge_sum(r, (n - 1) as nat) + cross(q, p));
    }
    assert(twice_area(r) == -twice_area(vertices));
    let winding = twice_area(vertices);
    if n >= 3 && winding != 0 {
        // Edge `i` of the reversed chain is an edge of the chain, walked the
        // other way; which one, `edge_of` tells.
        let edge_of = |i: int| if i == n - 1 { n - 1 } else { n - 2 - i };
        if within_all_edges(vertices, winding) {
            assert forall|i: int, j: int| 0 <= i < n && 0 <= j < n implies #[trigger] inner_side(
                r,
                -winding,
                i,
                j,
            ) by {
                let e = edge_of(i);
                let a = vertices[e];
                let b = vertices[next_index(n, e)];
                assert(r[i] == b);
                assert(r[next_index(n, i)] == a);
                assert(r[j] == vertices[n - 1 - j]);
                lemma_side_reversed(a, b, vertices[n - 1 - j]);
                assert(inner_side(vertices, winding, e, n - 1 - j));
            }
        }
        if within_all_edges(r, -winding) {
            assert forall|i: int, j: int| 0 <= i < n && 0 <= j < n implies #[trigger] inner_side(
                vertices,
                winding,
                i,
                j,
            ) by {
                let e = edge_of(i);
                let a = vertices[i];
                let b = vertices[next_index(n, i)];
                assert(r[e] == b);
                assert(r[next_index(n, e)] == a);
                assert(r[n - 1 - j] == vertices[j]);
                lemma_side_reversed(a, b, vertices[j]);
                assert(inner_side(r, -winding, e, n - 1 - j));
            }
        }
    }
}

/// No chain of vertices has an unknown convexity.
pub proof fn lemma_convexity_is_known(vertices: Seq<Point2D>)
    ensures
        convexity_of(vertices) != Convexity::UNKNOWN,
{
}

} // verus!
