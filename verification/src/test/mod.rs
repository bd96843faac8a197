//! Helpers for tests of the library and of code that builds on it.

pub mod data;
