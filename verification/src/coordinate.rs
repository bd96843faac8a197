//! The numeric types used for positions and for surface areas.

use vstd::prelude::*;

verus! {

/// The type used to store coordinates in space.
///
/// Coordinates are integers, so two distinct positions differ by at least one
/// unit. Arithmetic on coordinates wraps around at the ends of the range.
pub type Coordinate = i32;

/// The type used to store the size of areas in 2D space.
///
/// Areas are signed: the sign gives the winding direction of a contour.
pub type Area = i64;

/// The sum of two coordinates, wrapped around into the coordinate range.
pub open spec fn wrapped_sum(a: Coordinate, b: Coordinate) -> Coordinate {
    vstd::wrapping::i32_specs::wrapping_add(a, b)
}

/// The difference of two coordinates, wrapped around into the coordinate range.
pub open spec fn wrapped_difference(a: Coordinate, b: Coordinate) -> Coordinate {
    vstd::wrapping::i32_specs::wrapping_sub(a, b)
}

/// The coordinate that undoes `a` in a wrapped sum. It is `-a`, but for the
/// lowest coordinate, which is its own opposite.
pub open spec fn opposite(a: Coordinate) -> Coordinate {
    wrapped_difference(0, a)
}

/// A coordinate holds exactly the signed 32-bit range, and one past either
/// end of it wraps around to the other end.
pub proof fn lemma_coordinate_range(c: Coordinate)
    ensures
        -0x8000_0000 <= c <= 0x7FFF_FFFF,
        Coordinate::MIN == -0x8000_0000,
        Coordinate::MAX == 0x7FFF_FFFF,
        wrapped_sum(Coordinate::MAX, 1) == Coordinate::MIN,
        wrapped_difference(Coordinate::MIN, 1) == Coordinate::MAX,
        Coordinate::MAX.checked_add(1) is None,
        Coordinate::MIN.checked_sub(1) is None,
{
}

/// An area holds exactly the signed 64-bit range, and one past either end of
/// it wraps around to the other end.
pub proof fn lemma_area_range(a: Area)
    ensures
        -0x8000_0000_0000_0000 <= a <= 0x7FFF_FFFF_FFFF_FFFF,
        Area::MIN == -0x8000_0000_0000_0000,
        Area::MAX == 0x7FFF_FFFF_FFFF_FFFF,
        vstd::wrapping::i64_specs::wrapping_add(Area::MAX, 1) == Area::MIN,
        vstd::wrapping::i64_specs::wrapping_sub(Area::MIN, 1) == Area::MAX,
        Area::MAX.checked_add(1) is None,
        Area::MIN.checked_sub(1) is None,
{
}

/// The wrapped sum agrees with the exact sum wherever that fits.
pub proof fn lemma_wrapped_sum_exact(a: Coordinate, b: Coordinate)
    requires
        Coordinate::MIN <= a + b <= Coordinate::MAX,
    ensures
        wrapped_sum(a, b) == a + b,
{
}

/// Adding zero changes nothing.
pub proof fn lemma_wrapped_sum_zero(a: Coordinate)
    ensures
        wrapped_sum(a, 0) == a,
        wrapped_sum(0, a) == a,
{
}

/// The wrapped sum does not depend on the order of its operands.
pub proof fn lemma_wrapped_sum_commutative(a: Coordinate, b: Coordinate)
    ensures
        wrapped_sum(a, b) == wrapped_sum(b, a),
{
}

/// The wrapped sum of three coordinates does not depend on the grouping.
pub proof fn lemma_wrapped_sum_associative(a: Coordinate, b: Coordinate, c: Coordinate)
    ensures
        wrapped_sum(wrapped_sum(a, b), c) == wrapped_sum(a, wrapped_sum(b, c)),
{
}

/// Subtracting is adding the opposite.
pub proof fn lemma_wrapped_difference_is_sum_of_opposite(a: Coordinate, b: Coordinate)
    ensures
        wrapped_difference(a, b) == wrapped_sum(a, opposite(b)),
{
}

/// Adding a coordinate and then its opposite restores the start.
pub proof fn lemma_wrapped_sum_round_trip(a: Coordinate, d: Coordinate)
    ensures
        wrapped_sum(wrapped_sum(a, d), opposite(d)) == a,
        d != Coordinate::MIN ==> opposite(d) == -d,
{
}

} // verus!
