//! The algorithms that perform operations on the geometric objects.
//!
//! The algorithms are free functions, organised by the kind of operation. The
//! methods of the geometric objects call them.

pub mod area;
pub mod convexity;
pub mod translate;
