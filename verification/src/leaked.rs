//! Handles that own what was allocated.
use crate::bump::{alloc_time, Allocation};
use crate::ptr::NonNull;
use alloc_traits::AllocTime;
use vstd::prelude::*;

verus! {

/// The only handle to a run of values of type `T` that an allocator has handed out.
///
/// The values are not initialised by handing them out.
pub struct LeakBox<'bump, T> {
    ptr: NonNull<T>,
    len: usize,
    lifetime: AllocTime<'bump>,
}

impl<'bump, T> LeakBox<'bump, T> {
    /// Where the first value is.
    pub closed spec fn spec_ptr(self) -> NonNull<T> {
        self.ptr
    }

    /// How many values there are.
    pub closed spec fn spec_len(self) -> int {
        self.len as int
    }

    /// The handle to the one value of an allocation.
    pub fn from_allocation(allocation: Allocation<'bump, T>) -> (r: Self)
        ensures
            r.spec_ptr() == allocation.ptr,
            r.spec_len() == 1,
    {
        LeakBox { ptr: allocation.ptr, len: 1, lifetime: allocation.lifetime }
    }

    /// The handle to the `len` values that begin at `ptr`.
    pub fn from_raw_parts(ptr: NonNull<T>, len: usize) -> (r: Self)
        ensures
            r.spec_ptr() == ptr,
            r.spec_len() == len,
    {
        LeakBox { ptr, len, lifetime: alloc_time() }
    }

    /// Where the first value is.
    pub fn as_ptr(&self) -> (ptr: NonNull<T>)
        ensures
            ptr == self.spec_ptr(),
            ptr.wf(),
    {
        proof {
            use_type_invariant(&self.ptr);
        }
        self.ptr
    }

    /// How many values there are.
    pub fn len(&self) -> (len: usize)
        ensures
            len == self.spec_len(),
    {
        self.len
    }
}

} // verus!
