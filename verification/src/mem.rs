//! Memory: its place and its contents.
use crate::align::align_offset;
use vstd::prelude::*;

verus! {

/// One byte of memory. `None` stands for a byte that was never initialised.
pub type Byte = Option<u8>;

/// A region of memory: the address of its first byte, and its bytes.
#[derive(Debug)]
pub struct Mem {
    /// The address of the first byte.
    pub addr: usize,
    /// The contents.
    pub bytes: Vec<Byte>,
}

/// A part of a region of memory, borrowed.
pub struct MemSlice<'m> {
    /// The address of the first byte.
    pub addr: usize,
    /// The contents.
    pub bytes: &'m mut [Byte],
}

impl Mem {
    /// A region does not begin at the null address, and all its bytes have an address.
    pub open spec fn wf(&self) -> bool {
        &&& 0 < self.addr
        &&& self.addr + self.bytes@.len() <= usize::MAX
    }

    /// Borrows the whole region.
    pub fn as_slice(&mut self) -> (slice: MemSlice<'_>)
        ensures
            slice.addr == old(self).addr,
            slice.bytes@ == old(self).bytes@,
            final(self).addr == old(self).addr,
            final(self).bytes@ == final(slice.bytes)@,
    {
        MemSlice { addr: self.addr, bytes: self.bytes.as_mut_slice() }
    }

    /// A new region of `len` bytes that are all equal to `byte`.
    ///
    /// The byte at index `front` has an aligned address. Nothing else is known of the address.
    pub(crate) fn placed(byte: Byte, len: usize, align: usize, front: usize) -> (mem: Self)
        requires
            0 < align,
            front <= len,
            len + align - 1 <= usize::MAX,
        ensures
            mem.wf(),
            mem.bytes@ == Seq::new(len as nat, |i: int| byte),
            (mem.addr + front) % align as int == 0,
    {
        let mut bytes: Vec<Byte> = filled(byte, len + (align - 1));
        // The buffer of the vector has room for the region behind the aligned address, and it is
        // not used for anything else as long as the region exists.
        let start: usize = address_of(&bytes);
        proof {
            crate::align::lemma_padding(start + front, align as int);
        }
        let addr: usize = start + align_offset(start + front, align);
        bytes.truncate(len);
        Mem { addr, bytes }
    }
}

impl<'m> MemSlice<'m> {
    /// A region does not begin at the null address, and all its bytes have an address.
    pub open spec fn wf(&self) -> bool {
        &&& 0 < self.addr
        &&& self.addr + self.bytes@.len() <= usize::MAX
    }
}

/// Calls `Vec::as_ptr`, and returns the address of the buffer of a vector.
///
/// A vector does not begin at the null address, and the memory of its elements, each of which
/// occupies at least one byte, does not wrap around the address space. Where it lies is not said.
#[verifier::external_body]
fn address_of(bytes: &Vec<Byte>) -> (addr: usize)
    ensures
        addr > 0,
        addr + bytes@.len() <= usize::MAX,
{
    bytes.as_ptr() as usize
}

/// `n` uninitialised bytes.
pub open spec fn uninit_bytes(n: int) -> Seq<Byte> {
    Seq::new(n as nat, |i: int| None)
}

/// `n` bytes that are zero.
pub open spec fn zeroed_bytes(n: int) -> Seq<Byte> {
    Seq::new(n as nat, |i: int| Some(0u8))
}

/// Makes `n` bytes that are all equal to `byte`.
pub fn filled(byte: Byte, n: usize) -> (bytes: Vec<Byte>)
    ensures
        bytes@ == Seq::new(n as nat, |i: int| byte),
{
    let mut bytes: Vec<Byte> = Vec::new();
    let mut i: usize = 0;
    while i < n
        invariant
            i <= n,
            bytes@ == Seq::new(i as nat, |j: int| byte),
        decreases n - i,
    {
        bytes.push(byte);
        i = i + 1;
    }
    bytes
}

/// Each of `n` uninitialised bytes is uninitialised, and each of `n` zeroed bytes is zero.
pub proof fn law_bytes_are_uniform(n: int)
    requires
        0 <= n,
    ensures
        uninit_bytes(n).len() == n,
        zeroed_bytes(n).len() == n,
        forall|i: int| 0 <= i < n ==> (#[trigger] uninit_bytes(n)[i]) is None,
        forall|i: int| 0 <= i < n ==> #[trigger] zeroed_bytes(n)[i] == Some(0u8),
{
}

/// A region can lie anywhere but at the null address, as long as all its bytes have an address.
pub proof fn law_regions_can_lie_anywhere(mem: Mem)
    ensures
        mem.wf() <==> mem.addr != 0 && mem.addr + mem.bytes@.len() <= usize::MAX,
{
}

/// A borrowed region can lie anywhere but at the null address, as long as all its bytes have an
/// address.
pub proof fn law_borrowed_regions_can_lie_anywhere<'m>(mem: MemSlice<'m>)
    ensures
        mem.wf() <==> mem.addr != 0 && mem.addr + old(mem.bytes)@.len() <= usize::MAX,
{
}

} // verus!
