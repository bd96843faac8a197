//! Geometric objects to test with.

pub mod polygon;
