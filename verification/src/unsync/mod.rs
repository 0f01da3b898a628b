//! Bump allocators that one owner uses at a time.
pub mod bump;
pub mod header;

pub use self::bump::{Bump, BumpRef, BumpSlice, FromMemError, SliceBox, UninitBump};
