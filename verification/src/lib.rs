//! Bump allocators, and buffers that types of one layout use in turn.
//!
//! The library decides over plain values: memory is an address with the bytes that lie there, a
//! pointer is an address, a layout is a size with an alignment. What it decides is proved: blocks
//! lie in the storage, are aligned and do not overlap; the memory of an allocator holds that
//! allocator, and all of it is there again when the allocator is no longer used; an allocation
//! that was lent to a temporary vector is returned.
//!
//! - [`unsync`] has the bump allocators, [`allocator_api2`] their interface as general allocators,
//!   and [`bump`] what they hand out, with the allocators that are used through a view.
//! - [`arena`] is the model that their contracts speak of, with the laws that hold of it.
//! - [`same_alloc`] has the buffers.
//! - [`align`], [`layout`], [`leaked`], [`mem`] and [`ptr`] are what all of these are made of.
pub mod align;
pub mod allocator_api2;
pub mod arena;
pub mod bump;
pub mod layout;
pub mod leaked;
pub mod mem;
pub mod ptr;
pub mod same_alloc;
pub mod unsync;
