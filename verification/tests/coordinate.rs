//! Tests of the numeric types.

use apex::{Area, Coordinate};

/// Test whether the possible range of `Coordinate` is as expected.
#[test]
fn coordinate_range() {
    let x: Coordinate = 0x7FFFFFFF;
    assert_eq!(x, 0x7FFFFFFF, "We need to be able to store at least this coordinate.");
    let result = x.checked_add(1);
    assert_eq!(result, None, "It needs to overflow then.");
}

/// Test whether the possible range of `Area` is as expected.
#[test]
fn area_range() {
    let area: Area = 0x7FFFFFFFFFFFFFFF;
    assert_eq!(area, 0x7FFFFFFFFFFFFFFF, "We need to be able to store at least this area.");
    let result = area.checked_add(1);
    assert_eq!(result, None, "It needs to overflow then.");
}

/// Test the range of `Coordinate` through the name that the crate exports.
#[test]
fn coordinate_coordinate_range() {
    let x: apex::Coordinate = 0x7FFFFFFF;
    assert_eq!(x, 0x7FFFFFFF, "We need to be able to store at least this coordinate.");
    let result = x.checked_add(1);
    assert_eq!(result, None, "It needs to overflow then.");
}

/// Test the range of `Area` through the name that the crate exports.
#[test]
fn coordinate_area_range() {
    let area: apex::Area = 0x7FFFFFFFFFFFFFFF;
    assert_eq!(area, 0x7FFFFFFFFFFFFFFF, "We need to be able to store at least this area.");
    let result = area.checked_add(1);
    assert_eq!(result, None, "It needs to overflow then.");
}

/// A coordinate is exactly 32 bits wide and wraps around at both ends.
#[test]
fn coordinate_wraps_at_both_ends() {
    assert_eq!(Coordinate::MAX, 2147483647);
    assert_eq!(Coordinate::MIN, -2147483648);
    assert_eq!(Coordinate::MAX.wrapping_add(1), Coordinate::MIN);
    assert_eq!(Coordinate::MIN.wrapping_sub(1), Coordinate::MAX);
    assert_eq!(Coordinate::MIN.checked_sub(1), None);
}

/// An area is exactly 64 bits wide and wraps around at both ends.
#[test]
fn area_wraps_at_both_ends() {
    assert_eq!(Area::MAX, 9223372036854775807);
    assert_eq!(Area::MIN, -9223372036854775808);
    assert_eq!(Area::MAX.wrapping_add(1), Area::MIN);
    assert_eq!(Area::MIN.wrapping_sub(1), Area::MAX);
    assert_eq!(Area::MIN.checked_sub(1), None);
}
