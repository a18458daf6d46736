//! Live, lifetime-aware collection of visualization markers projected into
//! the plane.

pub mod cache;
pub mod dispatch;
pub mod laws;
pub mod shape;
pub mod topics;
