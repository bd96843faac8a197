//! Implementation details that the geometric types share.

pub mod sync_status;
