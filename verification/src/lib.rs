//! Apex: a geometry kernel for batch operations on two-dimensional polygons.
//!
//! The kernel holds points and polygons with integer coordinates, and the
//! operations on them: translating, measuring the area and telling the
//! convexity. A polygon can be translated one vertex after the other or in
//! chunks on several threads; both ways yield the same polygon.
//!
//! Every operation has a contract over a mathematical model of its data: a
//! polygon is the sequence of its vertices, with the number of vertices that
//! it has reserved memory for and the state of synchronisation of its data.
//! The contracts are proved, but for the calls into rayon and into two parts
//! of the standard library, whose contracts are stated with the calls.

pub mod convexity;
pub mod coordinate;
pub mod detail;
pub mod operations;
pub mod point2d;
pub mod polygon;
pub mod shape2d;
pub mod test;
pub mod two_dimensional;

pub use convexity::Convexity;
pub use coordinate::{Area, Coordinate};
pub use point2d::Point2D;
pub use polygon::Polygon;
pub use shape2d::Shape2D;
pub use two_dimensional::TwoDimensional;
