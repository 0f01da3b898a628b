//! Buffers that values of different types use in turn.
//!
//! A [`SameVec`] makes it possible to re-use allocations. It is an allocated buffer that can be
//! used by vectors of different element types, as long as they have the same layout.
pub mod boxed;
pub mod same;
pub mod vec;

pub use self::vec::{SameVec, TempVec, VecBuffer};
