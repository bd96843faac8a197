//! Operations that translate (move) geometric objects.

use vstd::prelude::*;
use rayon::iter::ParallelIterator;
use rayon::slice::ParallelSliceMut;
use crate::coordinate::{opposite, Coordinate};
use crate::detail::sync_status::SyncStatus;
use crate::point2d::Point2D;
use crate::polygon::Polygon;
use crate::two_dimensional::{
    lemma_moved_points_round_trip, lemma_moved_points_zero, moved_points, TwoDimensional,
};

verus! {

/// The smallest number of vertices that is handed to a thread as one piece of
/// work. Below it the cost of handing out the work outweighs the work.
pub const MIN_CHUNK_SIZE: usize = 10000;

/// The number of vertices per piece of work when `len` vertices are divided
/// over `threads` threads: an even share, but no less than the minimum.
pub open spec fn spec_chunk_size(len: nat, threads: nat) -> nat {
    if len / threads >= MIN_CHUNK_SIZE {
        len / threads
    } else {
        MIN_CHUNK_SIZE as nat
    }
}

/// Where chunk number `k` starts when `len` points are cut into chunks of
/// `chunk_size` points: after `k` whole chunks, or at the end of the points
/// if there are not that many.
pub open spec fn chunk_start(len: nat, chunk_size: nat, k: nat) -> nat {
    if k * chunk_size <= len {
        k * chunk_size
    } else {
        len
    }
}

/// Chunk number `k` of `points` cut into chunks of `chunk_size` points. The
/// last chunk may be shorter, and the chunks after it are empty.
pub open spec fn chunk_of(points: Seq<Point2D>, chunk_size: nat, k: nat) -> Seq<Point2D> {
    points.subrange(
        chunk_start(points.len(), chunk_size, k) as int,
        chunk_start(points.len(), chunk_size, k + 1) as int,
    )
}

/// Whether the polygon `after` is the polygon `before` translated by `dx`
/// along X and by `dy` along Y: every vertex has moved by that much, wrapping
/// around at the ends of the coordinate range, the capacity is as it was, and
/// the host's copy of the vertices is the leading one.
pub open spec fn is_translation(before: Polygon, after: Polygon, dx: Coordinate, dy: Coordinate) -> bool {
    &&& after@ == moved_points(before@, dx, dy)
    &&& after.spec_capacity() == before.spec_capacity()
    &&& after.spec_sync_status() == SyncStatus::HOST
}

/// However a polygon is translated, one vertex after the other or in chunks
/// of any size on any number of threads, the outcome is the same: two
/// translations of one polygon by one displacement have the same vertices, in
/// the same order.
pub proof fn lemma_translation_is_unique(
    before: Polygon,
    first: Polygon,
    second: Polygon,
    dx: Coordinate,
    dy: Coordinate,
)
    requires
        is_translation(before, first, dx, dy),
        is_translation(before, second, dx, dy),
    ensures
        first@ == second@,
        first.spec_capacity() == second.spec_capacity(),
        first.spec_sync_status() == second.spec_sync_status(),
{
}

/// A translation keeps the number of vertices; an empty polygon stays empty.
pub proof fn lemma_translation_keeps_length(
    before: Polygon,
    after: Polygon,
    dx: Coordinate,
    dy: Coordinate,
)
    requires
        is_translation(before, after, dx, dy),
    ensures
        after@.len() == before@.len(),
        before@.len() == 0 ==> after@ == before@,
{
    if before@.len() == 0 {
        assert(after@ =~= before@);
    }
}

/// Translating by zero along both dimensions leaves every vertex as it is.
pub proof fn lemma_translation_by_zero(before: Polygon, after: Polygon)
    requires
        is_translation(before, after, 0, 0),
    ensures
        after@ == before@,
{
    lemma_moved_points_zero(before@);
}

/// Translating by a displacement and then by the opposite displacement
/// restores the vertices exactly, also where coordinates wrapped around on the
/// way. The opposite of a displacement `d` is `-d`, but for the lowest
/// coordinate, which is its own opposite.
pub proof fn lemma_translation_round_trip(
    before: Polygon,
    there: Polygon,
    back: Polygon,
    dx: Coordinate,
    dy: Coordinate,
)
    requires
        is_translation(before, there, dx, dy),
        is_translation(there, back, opposite(dx), opposite(dy)),
    ensures
        back@ == before@,
        back.spec_capacity() == before.spec_capacity(),
        dx != Coordinate::MIN ==> opposite(dx) == -dx,
        dy != Coordinate::MIN ==> opposite(dy) == -dy,
{
    lemma_moved_points_round_trip(before@, dx, dy);
}

/// How the size of the chunks divides the work: few vertices are one chunk,
/// so that nothing is handed out, and many vertices are divided evenly, so
/// that every thread has a whole chunk and what is left over is less than one
/// vertex for each thread.
pub proof fn lemma_chunk_size_divides_work(points: Seq<Point2D>, threads: nat)
    requires
        threads > 0,
    ensures
        spec_chunk_size(points.len(), threads) >= MIN_CHUNK_SIZE,
        points.len() <= MIN_CHUNK_SIZE ==> chunk_of(
            points,
            spec_chunk_size(points.len(), threads),
            0,
        ) == points,
        points.len() / threads >= MIN_CHUNK_SIZE ==> spec_chunk_size(points.len(), threads) * threads
            <= points.len() < (spec_chunk_size(points.len(), threads) + 1) * threads,
{
    let len = points.len();
    let size = spec_chunk_size(len, threads);
    assert(len / threads <= len) by (nonlinear_arith)
        requires
            threads > 0,
    ;
    if len <= MIN_CHUNK_SIZE {
        assert(0 * size == 0);
        assert(1 * size == size);
        assert(chunk_of(points, size, 0) =~= points);
    }
    if len / threads >= MIN_CHUNK_SIZE {
        assert((len / threads) * threads <= len < (len / threads + 1) * threads) by (nonlinear_arith)
            requires
                threads > 0,
        ;
    }
}

/// Calls rayon's `current_num_threads`: the number of threads of the thread
/// pool that the caller runs in, or of the global pool.
///
/// The number depends on the machine and on the environment. A pool of rayon
/// has a thread at least; that is all that is claimed here. Where rayon cannot
/// start its global pool, for want of threads on the machine, it gives up with
/// a panic; no argument of this function decides that.
#[verifier::external_body]
fn current_num_threads() -> (threads: usize)
    ensures
        threads >= 1,
{
    rayon::current_num_threads()
}

/// Calls rayon's `par_chunks_mut` and `for_each` on the result: the points are
/// cut into chunks of `chunk_size` points, the last one possibly shorter, and
/// `translate_slice` runs once on every chunk, on several threads at a time.
///
/// The chunks do not overlap and there are no points outside of them, so that
/// every chunk ends up as `translate_slice` leaves it, and the call returns
/// when all of them are done. rayon refuses a chunk size of zero. It needs its
/// pool of threads, as `current_num_threads` does.
#[verifier::external_body]
fn par_translate_chunks(points: &mut [Point2D], chunk_size: usize, dx: Coordinate, dy: Coordinate)
    requires
        chunk_size > 0,
    ensures
        final(points)@.len() == old(points)@.len(),
        forall|k: nat| #[trigger]
            chunk_of(final(points)@, chunk_size as nat, k) == moved_points(
                chunk_of(old(points)@, chunk_size as nat, k),
                dx,
                dy,
            ),
{
    points.par_chunks_mut(chunk_size).for_each(|chunk| translate_slice(chunk, dx, dy));
}

/// Points that were moved chunk by chunk were all moved, whatever the size of
/// the chunks: together the chunks hold every point once.
pub proof fn lemma_chunks_cover(
    before: Seq<Point2D>,
    after: Seq<Point2D>,
    chunk_size: nat,
    dx: Coordinate,
    dy: Coordinate,
)
    requires
        chunk_size > 0,
        after.len() == before.len(),
        forall|k: nat| #[trigger]
            chunk_of(after, chunk_size, k) == moved_points(chunk_of(before, chunk_size, k), dx, dy),
    ensures
        after == moved_points(before, dx, dy),
{
    let len = before.len();
    assert forall|i: int| 0 <= i < len implies after[i] == before[i].moved_by(dx, dy) by {
        let k = (i / chunk_size as int) as nat;
        assert(k * chunk_size <= i < (k + 1) * chunk_size) by (nonlinear_arith)
            requires
                0 <= i,
                chunk_size > 0,
                k == i / chunk_size as int,
        ;
        let lo = chunk_start(len, chunk_size, k);
        let hi = chunk_start(len, chunk_size, k + 1);
        assert(lo == k * chunk_size);
        assert(lo <= i < hi);
        assert(chunk_of(after, chunk_size, k)[i - lo] == after[i]);
        assert(chunk_of(before, chunk_size, k)[i - lo] == before[i]);
    }
    assert(after =~= moved_points(before, dx, dy));
}

/// The number of vertices that one thread gets at a time when `len` vertices
/// are divided over `threads` threads.
///
/// Every thread gets an even share, but no less than `MIN_CHUNK_SIZE`
/// vertices: few vertices are translated in one piece.
pub fn chunk_size(len: usize, threads: usize) -> (size: usize)
    requires
        threads > 0,
    ensures
        size == spec_chunk_size(len as nat, threads as nat),
        size >= MIN_CHUNK_SIZE,
{
    let share = len / threads;
    if share >= MIN_CHUNK_SIZE {
        share
    } else {
        MIN_CHUNK_SIZE
    }
}

/// Move every point of a slice by `dx` along X and by `dy` along Y, one after
/// the other.
pub(crate) fn translate_slice(points: &mut [Point2D], dx: Coordinate, dy: Coordinate)
    ensures
        final(points)@ == moved_points(old(points)@, dx, dy),
{
    let n = points.len();
    let mut i: usize = 0;
    while i < n
        invariant
            i <= n,
            n == points@.len(),
            points@.len() == old(points)@.len(),
            forall|k: int| 0 <= k < i ==> points@[k] == old(points)@[k].moved_by(dx, dy),
            forall|k: int| i <= k < n ==> points@[k] == old(points)@[k],
        decreases n - i,
    {
        points[i].translate(dx, dy);
        i += 1;
    }
    assert(points@ =~= moved_points(old(points)@, dx, dy));
}

/// Move a polygon by `dx` along X and by `dy` along Y.
///
/// This implementation translates the vertices one by one.
pub fn translate_polygon_st(polygon: &mut Polygon, dx: Coordinate, dy: Coordinate)
    ensures
        is_translation(*old(polygon), *final(polygon), dx, dy),
{
    translate_slice(polygon.host_vertices_mut().as_mut_slice(), dx, dy);
}

/// Move a polygon by `dx` along X and by `dy` along Y, in chunks of
/// `chunk_size` vertices that several threads translate at a time.
///
/// The result does not depend on the size of the chunks, which has to be
/// positive.
pub fn translate_polygon_chunked(
    polygon: &mut Polygon,
    chunk_size: usize,
    dx: Coordinate,
    dy: Coordinate,
)
    requires
        chunk_size > 0,
    ensures
        is_translation(*old(polygon), *final(polygon), dx, dy),
{
    let vertices = polygon.host_vertices_mut();
    let ghost before = vertices@;
    par_translate_chunks(vertices.as_mut_slice(), chunk_size, dx, dy);
    proof {
        lemma_chunks_cover(before, vertices@, chunk_size as nat, dx, dy);
    }
}

/// Move a polygon by `dx` along X and by `dy` along Y.
///
/// This implementation divides the vertices over the threads that are
/// available. It yields the same polygon as `translate_polygon_st`, on every
/// machine.
pub fn translate_polygon_mt(polygon: &mut Polygon, dx: Coordinate, dy: Coordinate)
    ensures
        is_translation(*old(polygon), *final(polygon), dx, dy),
{
    let threads = current_num_threads();
    let size = chunk_size(polygon.len(), threads);
    translate_polygon_chunked(polygon, size, dx, dy);
}

} // verus!
