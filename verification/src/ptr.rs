//! Addresses of memory, as values.
use core::marker::PhantomData;
use vstd::prelude::*;

verus! {

/// The address of a value of type `T`. It is never zero.
pub struct NonNull<T> {
    addr: usize,
    marker: PhantomData<T>,
}

impl<T> Copy for NonNull<T> {

}

impl<T> Clone for NonNull<T> {
    fn clone(&self) -> (r: Self)
        ensures
            r == *self,
    {
        *self
    }
}

impl<T> NonNull<T> {
    /// The address.
    pub closed spec fn spec_addr(self) -> int {
        self.addr as int
    }

    /// The values of this type that exist at run time.
    #[verifier::type_invariant]
    pub open spec fn wf(self) -> bool {
        0 < self.spec_addr() <= usize::MAX
    }

    /// The pointer to an address, unless the address is zero.
    pub fn new(addr: usize) -> (r: Option<Self>)
        ensures
            r is Some <==> addr != 0,
            r matches Some(p) ==> p.wf() && p.spec_addr() == addr,
    {
        if addr == 0 {
            None
        } else {
            Some(NonNull { addr, marker: PhantomData })
        }
    }

    /// The address, as a number.
    pub fn addr(&self) -> (addr: usize)
        ensures
            addr == self.spec_addr(),
            addr != 0,
    {
        proof {
            use_type_invariant(self);
        }
        self.addr
    }

    /// The same address, of a value of another type.
    pub fn cast<V>(self) -> (r: NonNull<V>)
        ensures
            r.wf(),
            r.spec_addr() == self.spec_addr(),
    {
        proof {
            use_type_invariant(&self);
        }
        NonNull { addr: self.addr, marker: PhantomData }
    }
}

/// The address of a run of values of type `T`, and how many there are.
pub struct NonNullSlice<T> {
    ptr: NonNull<T>,
    len: usize,
}

impl<T> NonNullSlice<T> {
    /// Where the run begins.
    pub closed spec fn spec_ptr(self) -> NonNull<T> {
        self.ptr
    }

    /// How many values there are.
    pub closed spec fn spec_len(self) -> int {
        self.len as int
    }

    /// The run of `len` values that begins at `ptr`.
    pub fn slice_from_raw_parts(ptr: NonNull<T>, len: usize) -> (r: Self)
        ensures
            r.spec_ptr() == ptr,
            r.spec_len() == len,
    {
        NonNullSlice { ptr, len }
    }

    /// Where the run begins.
    pub fn as_non_null_ptr(&self) -> (ptr: NonNull<T>)
        ensures
            ptr == self.spec_ptr(),
            ptr.wf(),
    {
        proof {
            use_type_invariant(&self.ptr);
        }
        self.ptr
    }

    /// How many values there are.
    pub fn len(&self) -> (len: usize)
        ensures
            len == self.spec_len(),
    {
        self.len
    }
}

} // verus!
