//! The polygon: a plane figure bounded by a single closed chain of straight
//! line segments.

use vstd::prelude::*;
use core::slice::{Iter, IterMut};
use crate::convexity::Convexity;
use crate::coordinate::{Area, Coordinate};
use crate::detail::sync_status::SyncStatus;
use crate::operations::area::polygon_area;
use crate::operations::convexity::polygon_convexity;
use crate::operations::translate::{is_translation, translate_polygon_st};
use crate::point2d::Point2D;
use crate::shape2d::Shape2D;
use crate::two_dimensional::TwoDimensional;

verus! {

/// A plane figure consisting of a single contour of straight line segments.
///
/// The polygon is a list of vertices. Between every two adjacent vertices, and
/// between the last vertex and the first, is an edge. The place between the
/// last vertex and the first is the seam: vertices are counted from there.
///
/// The polygon may intersect itself, but it has one contour only. If its
/// vertices wind counter-clockwise the polygon is positive, else negative.
///
/// To verified code a polygon is the sequence of its vertices, its view, with
/// the number of vertices that it has reserved memory for and the state of
/// synchronisation of its data.
#[derive(Debug)]
pub struct Polygon {
    /// The vertices of the closed polygonal chain, counted from the seam.
    vertices: Vec<Point2D>,
    /// The highest number of vertices that memory was reserved for so far.
    reserved: usize,
    /// Which copy of the vertex data is leading: the one on the host or the
    /// one on the device.
    sync_status: SyncStatus,
}

/// The highest number of vertices that memory can be reserved for at once: a
/// vertex takes 8 bytes, and no piece of memory is larger than `isize::MAX`
/// bytes.
pub const MAX_CAPACITY: usize = usize::MAX / 16;

/// An iterator that hands out every vertex of a slice for modification.
#[verifier::external_type_specification]
#[verifier::external_body]
#[verifier::reject_recursive_types(E)]
pub struct ExIterMut<'a, E: 'a>(IterMut<'a, E>);

/// The vertices that an iterator of std's slices hands out for modification,
/// in the order in which it hands them out, as they are before anything is
/// written through it.
pub uninterp spec fn iter_mut_items(iter: IterMut<'_, Point2D>) -> Seq<Point2D>;

/// Calls `iter_mut` of std's slices. The iterator that it returns hands out
/// every vertex of the slice once, from the first to the last. It can change
/// the vertices of the slice, but not their number.
#[verifier::external_body]
fn slice_iter_mut<'a>(vertices: &'a mut [Point2D]) -> (iter: IterMut<'a, Point2D>)
    ensures
        iter_mut_items(iter) == old(vertices)@,
        final(vertices)@.len() == old(vertices)@.len(),
{
    vertices.iter_mut()
}

impl View for Polygon {
    type V = Seq<Point2D>;

    /// The vertices of the polygon, counted from the seam.
    closed spec fn view(&self) -> Seq<Point2D> {
        self.vertices@
    }
}

impl Polygon {
    /// The highest number of vertices that was asked to be reserved for, by
    /// `with_capacity`, by `reserve` or by adding vertices.
    pub closed spec fn spec_reserved(&self) -> nat {
        self.reserved as nat
    }

    /// The number of vertices that the polygon has room for without asking
    /// for more memory: what was reserved, or the number of vertices where
    /// that is higher.
    pub open spec fn spec_capacity(&self) -> nat {
        if self.spec_reserved() >= self@.len() {
            self.spec_reserved()
        } else {
            self@.len()
        }
    }

    /// Which copy of the vertex data is leading.
    pub closed spec fn spec_sync_status(&self) -> SyncStatus {
        self.sync_status
    }

    /// The capacity after one vertex was added to a polygon of `len` vertices
    /// with capacity `capacity`: it stays while there is room, and grows by
    /// the one vertex that did not fit otherwise.
    pub open spec fn capacity_after_growth(len: nat, capacity: nat) -> nat {
        if len < capacity {
            capacity
        } else {
            len + 1
        }
    }

    /// The capacity after room was reserved for `additional` more vertices in
    /// a polygon of `len` vertices with capacity `capacity`: it stays if it is
    /// sufficient, and becomes what was asked for otherwise.
    pub open spec fn capacity_after_reserve(len: nat, capacity: nat, additional: nat) -> nat {
        if capacity >= len + additional {
            capacity
        } else {
            len + additional
        }
    }

    /// Create a new, empty polygon, without any vertices and without any
    /// memory reserved.
    pub fn new() -> (polygon: Polygon)
        ensures
            polygon@ == Seq::<Point2D>::empty(),
            polygon.spec_capacity() == 0,
            polygon.spec_sync_status() == SyncStatus::HOST,
    {
        Polygon { vertices: Vec::new(), reserved: 0, sync_status: SyncStatus::HOST }
    }

    /// Create a new, empty polygon that has memory reserved for `capacity`
    /// vertices.
    ///
    /// As long as the polygon holds no more vertices than that, adding a
    /// vertex does not move its contents to a bigger piece of memory. The
    /// capacity is at most `MAX_CAPACITY`.
    pub fn with_capacity(capacity: usize) -> (polygon: Polygon)
        requires
            capacity <= MAX_CAPACITY,
        ensures
            polygon@ == Seq::<Point2D>::empty(),
            polygon.spec_capacity() == capacity,
            polygon.spec_sync_status() == SyncStatus::HOST,
    {
        Polygon {
            vertices: Vec::with_capacity(capacity),
            reserved: capacity,
            sync_status: SyncStatus::HOST,
        }
    }

    /// Create a polygon from its vertices, counted from the seam.
    pub fn from_vertices(vertices: Vec<Point2D>) -> (polygon: Polygon)
        ensures
            polygon@ == vertices@,
            polygon.spec_capacity() == vertices@.len(),
            polygon.spec_sync_status() == SyncStatus::HOST,
    {
        let reserved = vertices.len();
        Polygon { vertices, reserved, sync_status: SyncStatus::HOST }
    }

    /// The number of vertices that the polygon has room for without asking
    /// for more memory.
    ///
    /// This is the room that the polygon has asked for: the allocator may have
    /// given more. The capacity is never below the number of vertices, and no
    /// operation lowers it.
    pub fn capacity(&self) -> (capacity: usize)
        ensures
            capacity == self.spec_capacity(),
            capacity >= self@.len(),
    {
        let len = self.host_vertices().len();
        if self.reserved >= len {
            self.reserved
        } else {
            len
        }
    }

    /// Which copy of the vertex data is leading.
    pub fn sync_status(&self) -> (status: SyncStatus)
        ensures
            status == self.spec_sync_status(),
    {
        self.sync_status
    }

    /// Reserve memory for at least `additional` more vertices than the polygon
    /// holds now.
    ///
    /// If the capacity is sufficient already this changes nothing. The number
    /// of vertices asked for in all is at most `MAX_CAPACITY`.
    pub fn reserve(&mut self, additional: usize)
        requires
            old(self)@.len() + additional <= MAX_CAPACITY,
        ensures
            final(self)@ == old(self)@,
            final(self).spec_capacity() >= old(self)@.len() + additional,
            final(self).spec_capacity() >= old(self).spec_capacity(),
            final(self).spec_capacity() == Self::capacity_after_reserve(
                old(self)@.len(),
                old(self).spec_capacity(),
                additional as nat,
            ),
            final(self).spec_sync_status() == SyncStatus::HOST,
    {
        let vertices = self.host_vertices_mut();
        vertices.reserve(additional);
        let wanted = vertices.len() + additional;
        if wanted > self.reserved {
            self.reserved = wanted;
        }
    }

    /// The number of vertices of the polygon, which is also the number of its
    /// sides.
    pub fn len(&self) -> (len: usize)
        ensures
            len == self@.len(),
    {
        self.host_vertices().len()
    }

    /// Add a vertex to the polygon, at the seam: after the last vertex.
    ///
    /// If the polygon is at capacity it gets more memory, else its capacity
    /// stays as it is.
    pub fn push(&mut self, vertex: Point2D)
        ensures
            final(self)@ == old(self)@.push(vertex),
            final(self).spec_capacity() >= old(self).spec_capacity(),
            final(self).spec_capacity() == Self::capacity_after_growth(
                old(self)@.len(),
                old(self).spec_capacity(),
            ),
            final(self).spec_sync_status() == SyncStatus::HOST,
    {
        self.host_vertices_mut().push(vertex);
        self.keep_reservation();
    }

    /// Remove the last vertex before the seam and return it, or return `None`
    /// if the polygon has no vertices.
    pub fn pop(&mut self) -> (removed: Option<Point2D>)
        ensures
            old(self)@.len() == 0 ==> removed is None && final(self)@ == old(self)@,
            old(self)@.len() > 0 ==> removed == Some(old(self)@.last()) && final(self)@ == old(
                self,
            )@.drop_last(),
            final(self).spec_capacity() == old(self).spec_capacity(),
            final(self).spec_sync_status() == SyncStatus::HOST,
    {
        self.keep_reservation();
        self.host_vertices_mut().pop()
    }

    /// Insert a vertex at position `index`, counted from the seam. The vertex
    /// that was there and the ones after it move up by one.
    ///
    /// The position is at most the number of vertices; with that number the
    /// vertex is added at the end.
    pub fn insert(&mut self, index: usize, vertex: Point2D)
        requires
            index <= old(self)@.len(),
        ensures
            final(self)@ == old(self)@.insert(index as int, vertex),
            final(self).spec_capacity() >= old(self).spec_capacity(),
            final(self).spec_capacity() == Self::capacity_after_growth(
                old(self)@.len(),
                old(self).spec_capacity(),
            ),
            final(self).spec_sync_status() == SyncStatus::HOST,
    {
        self.host_vertices_mut().insert(index, vertex);
        self.keep_reservation();
    }

    /// Remove the vertex at position `index`, counted from the seam, and
    /// return it. The vertices after it move down by one.
    ///
    /// The position is below the number of vertices.
    pub fn remove(&mut self, index: usize) -> (removed: Point2D)
        requires
            index < old(self)@.len(),
        ensures
            removed == old(self)@[index as int],
            final(self)@ == old(self)@.remove(index as int),
            final(self).spec_capacity() == old(self).spec_capacity(),
            final(self).spec_sync_status() == SyncStatus::HOST,
    {
        self.keep_reservation();
        self.host_vertices_mut().remove(index)
    }

    /// Remove all vertices from the polygon. Its capacity stays.
    pub fn clear(&mut self)
        ensures
            final(self)@ == Seq::<Point2D>::empty(),
            final(self).spec_capacity() == old(self).spec_capacity(),
            final(self).spec_sync_status() == SyncStatus::HOST,
    {
        self.keep_reservation();
        self.host_vertices_mut().clear();
    }

    /// A reference to the vertex at position `index`, counted from the seam,
    /// or `None` if the polygon has no such vertex.
    pub fn get(&self, index: usize) -> (vertex: Option<&Point2D>)
        ensures
            index < self@.len() ==> vertex == Some(&self@[index as int]),
            index >= self@.len() ==> vertex is None,
    {
        let vertices = self.host_vertices();
        if index < vertices.len() {
            Some(&vertices[index])
        } else {
            None
        }
    }

    /// A mutable reference to the vertex at position `index`, counted from the
    /// seam, or `None` if the polygon has no such vertex.
    ///
    /// What is written through the reference is written to the polygon; the
    /// other vertices stay as they are.
    pub fn get_mut(&mut self, index: usize) -> (vertex: Option<&mut Point2D>)
        ensures
            index >= old(self)@.len() ==> vertex is None && final(self)@ == old(self)@,
            index < old(self)@.len() ==> vertex is Some && *vertex->0 == old(self)@[index as int]
                && final(self)@ == old(self)@.update(index as int, *final(vertex->0)),
            final(self).spec_capacity() == old(self).spec_capacity(),
            final(self).spec_sync_status() == SyncStatus::HOST,
    {
        let vertices = self.host_vertices_mut();
        if index < vertices.len() {
            Some(&mut vertices[index])
        } else {
            None
        }
    }

    /// An iterator over the vertices of the polygon, in their order from the
    /// seam.
    pub fn iter(&self) -> (iter: Iter<'_, Point2D>)
        ensures
            vstd::std_specs::slice::into_iter_elts(iter) == self@,
            vstd::std_specs::iter::IteratorSpec::remaining(&iter) == self@.as_ref(),
            vstd::std_specs::iter::IteratorSpec::decrease(&iter) is Some,
            vstd::std_specs::iter::IteratorSpec::initial_value_relation(&iter, &iter),
    {
        broadcast use vstd::std_specs::slice::group_slice_axioms;

        self.host_vertices().iter()
    }

    /// An iterator that hands out the vertices of the polygon for modification
    /// in place, in their order from the seam.
    ///
    /// The iterator hands out every vertex once. It can change vertices, but
    /// not their number.
    pub fn iter_mut(&mut self) -> (iter: IterMut<'_, Point2D>)
        ensures
            iter_mut_items(iter) == old(self)@,
            final(self)@.len() == old(self)@.len(),
            final(self).spec_capacity() == old(self).spec_capacity(),
            final(self).spec_sync_status() == SyncStatus::HOST,
    {
        slice_iter_mut(self.host_vertices_mut().as_mut_slice())
    }

    /// The vertices of the polygon as the host sees them.
    ///
    /// Every read of the vertex data goes through here. This is the place
    /// where data that is leading on the device would be fetched first; there
    /// is no device, so the host's copy is handed out as it is.
    pub fn host_vertices(&self) -> (vertices: &Vec<Point2D>)
        ensures
            vertices@ == self@,
    {
        &self.vertices
    }

    /// The vertices of the polygon as the host sees them, for modification.
    ///
    /// Every write to the vertex data goes through here. After it the host's
    /// copy is the leading one.
    pub(crate) fn host_vertices_mut(&mut self) -> (vertices: &mut Vec<Point2D>)
        ensures
            vertices@ == old(self)@,
            final(self)@ == final(vertices)@,
            final(self).spec_reserved() == old(self).spec_reserved(),
            final(self).spec_sync_status() == SyncStatus::HOST,
    {
        self.sync_status = self.sync_status.after_host_write();
        &mut self.vertices
    }

    /// Raise the reservation to the number of vertices, if that is higher, so
    /// that the capacity does not shrink when vertices leave.
    fn keep_reservation(&mut self)
        ensures
            final(self)@ == old(self)@,
            final(self).spec_capacity() == old(self).spec_capacity(),
            final(self).spec_reserved() == old(self).spec_capacity(),
            final(self).spec_sync_status() == old(self).spec_sync_status(),
    {
        let len = self.vertices.len();
        if len > self.reserved {
            self.reserved = len;
        }
    }
}

impl TwoDimensional for Polygon {
    open spec fn positions(&self) -> Seq<Point2D> {
        self@
    }

    /// Move every vertex of the polygon by `dx` along X and by `dy` along Y.
    fn translate(&mut self, dx: Coordinate, dy: Coordinate)
        ensures
            is_translation(*old(self), *final(self), dx, dy),
    {
        translate_polygon_st(self, dx, dy);
    }
}

impl Shape2D for Polygon {
    /// The signed surface area of the polygon: positive if its vertices wind
    /// counter-clockwise, negative if they wind clockwise.
    fn area(&self) -> (area: Area) {
        polygon_area(self)
    }

    /// The convexity of the polygon.
    fn convexity(&self) -> (convexity: Convexity) {
        polygon_convexity(self)
    }
}

impl core::iter::FromIterator<Point2D> for Polygon {
    /// Construct a polygon from a collection of vertices, which become the
    /// vertices of the polygon in the order in which the collection hands
    /// them out.
    ///
    /// The vertices are collected by std's `Vec::from_iter`, and the polygon is
    /// made of them as `from_vertices` makes it: the host's copy leads, and no
    /// more room is reserved than the vertices take. Nothing is proved of what
    /// an arbitrary collection hands out.
    #[verifier::external_body]
    fn from_iter<I: IntoIterator<Item = Point2D>>(iter: I) -> (polygon: Polygon)
        ensures
            polygon.spec_sync_status() == SyncStatus::HOST,
            polygon.spec_capacity() == polygon@.len(),
    {
        Polygon::from_vertices(Vec::from_iter(iter))
    }
}

impl core::ops::Index<usize> for Polygon {
    type Output = Point2D;

    /// The vertex at position `index`, counted from the seam.
    ///
    /// The position is below the number of vertices.
    fn index(&self, index: usize) -> (vertex: &Point2D)
        ensures
            *vertex == self@[index as int],
    {
        &self.host_vertices()[index]
    }
}

impl vstd::std_specs::core::IndexSpecImpl<usize> for Polygon {
    open spec fn index_req(&self, index: &usize) -> bool {
        *index < self@.len()
    }
}

impl core::ops::IndexMut<usize> for Polygon {
    /// The vertex at position `index`, counted from the seam, for
    /// modification.
    ///
    /// The position is below the number of vertices.
    fn index_mut(&mut self, index: usize) -> (vertex: &mut Point2D)
        requires
            index < old(self)@.len(),
        ensures
            *vertex == old(self)@[index as int],
            final(self)@ == old(self)@.update(index as int, *final(vertex)),
            final(self).spec_capacity() == old(self).spec_capacity(),
            final(self).spec_sync_status() == SyncStatus::HOST,
    {
        &mut self.host_vertices_mut()[index]
    }
}

impl core::convert::AsRef<Polygon> for Polygon {
    /// A reference to the same polygon.
    fn as_ref(&self) -> (polygon: &Polygon)
        ensures
            polygon == self,
    {
        self
    }
}

impl core::convert::AsMut<Polygon> for Polygon {
    /// A mutable reference to the same polygon.
    fn as_mut(&mut self) -> (polygon: &mut Polygon)
        ensures
            *polygon == *old(self),
            *final(self) == *final(polygon),
    {
        self
    }
}

} // verus!
