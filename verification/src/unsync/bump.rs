//! The bump allocators.
use super::header::{decode, encode, Header};
use crate::align::align_offset;
use crate::arena::{Arena, Placement};
use crate::bump::{alloc_time, Allocation, Failure, Level};
use crate::layout::{Layout, LayoutError};
use crate::leaked::LeakBox;
use crate::mem::{Byte, Mem, MemSlice};
use crate::ptr::NonNull;
use core::marker::PhantomData;
use vstd::prelude::*;

verus! {

/// The memory given cannot be used for a bump allocator.
#[derive(Debug)]
pub struct FromMemError {
    _inner: (),
}

/// A dynamically sized allocation block in which any type can be allocated, borrowed for the time
/// `'m`.
///
/// It is a header, which counts the bytes that are taken, followed by the storage. Blocks are
/// handed out from the start of the storage to its end, and none is taken back alone. What was
/// handed out can be used for as long as the allocator is borrowed.
pub struct BumpSlice<'m> {
    /// The memory, from the header to the padding behind the storage.
    pub mem: MemSlice<'m>,
    /// How many bytes the storage has.
    pub capacity: usize,
}

/// A [`BumpSlice`] that is only looked at.
pub struct BumpRef<'m> {
    /// The address of the header.
    pub addr: usize,
    /// The contents of the memory, from the header to the padding behind the storage.
    pub bytes: &'m [Byte],
    /// How many bytes the storage has.
    pub capacity: usize,
}

/// An owned [`BumpSlice`].
pub struct SliceBox {
    mem: Mem,
    capacity: usize,
}

/// A bump allocator whose storage capacity and alignment is given by `T`.
///
/// This type dereferences to the generic [`BumpSlice`] that implements the allocation behavior.
/// The layout of the two is the same only for types that have at most an alignment of the size of
/// `usize`, and only then can it be dereferenced.
pub struct Bump<T> {
    mem: Mem,
    marker: PhantomData<T>,
}

/// Memory with the size and the alignment of a [`Bump`], which need not be initialized.
pub struct UninitBump<T> {
    bump: Bump<T>,
}

/// Whether the storage of a `Bump<T>` follows its header without a gap, as that of a `BumpSlice`.
pub open spec fn deref_is_applicable<T>() -> bool {
    storage_offset::<T>() == Header::spec_size()
}

/// Where in a `Bump<T>` the storage begins.
pub open spec fn storage_offset<T>() -> int {
    crate::align::round_up(Header::spec_size(), vstd::layout::align_of::<T>() as int)
}

/// The alignment of a `Bump<T>`.
pub open spec fn bump_align<T>() -> int {
    crate::layout::larger(Header::spec_align(), vstd::layout::align_of::<T>() as int)
}

/// The size of a `Bump<T>`.
pub open spec fn bump_size<T>() -> int {
    crate::align::round_up(storage_offset::<T>() + vstd::layout::size_of::<T>(), bump_align::<T>())
}

/// The size of an allocator with a storage of `size` bytes.
pub open spec fn slice_size(size: int) -> int {
    crate::align::round_up(Header::spec_size() + size, Header::spec_align())
}

/// The allocator in a region of memory with a header at its start and a storage of `capacity` bytes
/// at index `offset`.
pub open spec fn arena_in(addr: int, bytes: Seq<Byte>, offset: int, capacity: int) -> Arena {
    Arena {
        base: addr + offset,
        level: Header::number(bytes.take(Header::spec_size())) as int,
        bytes: bytes.subrange(offset, offset + capacity),
    }
}

/// Whether a region begins with a header, which counts no more bytes than the storage has.
pub open spec fn has_header(bytes: Seq<Byte>, capacity: int) -> bool {
    &&& bytes.len() >= Header::spec_size()
    &&& Header::readable(bytes.take(Header::spec_size()))
    &&& Header::number(bytes.take(Header::spec_size())) <= capacity
}

/// The bytes of a region after a header was written at its start, which says that `index` bytes are
/// taken.
pub open spec fn with_header(bytes: Seq<Byte>, index: int) -> Seq<Byte> {
    Header::image(index) + bytes.skip(Header::spec_size())
}

/// Whether a region of memory is that of an allocator with a storage of `capacity` bytes, at an
/// address that it can have.
pub open spec fn is_slice(addr: int, bytes: Seq<Byte>, capacity: int) -> bool {
    &&& 0 < addr
    &&& addr % Header::spec_align() == 0
    &&& addr + bytes.len() <= usize::MAX
    &&& 0 <= capacity
    &&& bytes.len() == slice_size(capacity)
    &&& has_header(bytes, capacity)
}

/// Whether a region of memory has the size of a `Bump<T>`, and an address that it can have.
pub open spec fn has_room_for_bump<T>(addr: int, bytes: Seq<Byte>) -> bool {
    &&& 0 < addr
    &&& addr % bump_align::<T>() == 0
    &&& addr + bytes.len() <= usize::MAX
    &&& bytes.len() == bump_size::<T>()
}

impl<T> View for Bump<T> {
    type V = Arena;

    open spec fn view(&self) -> Arena {
        arena_in(
            self.spec_addr(),
            self.spec_bytes(),
            storage_offset::<T>(),
            vstd::layout::size_of::<T>() as int,
        )
    }
}

impl<T> UninitBump<T> {
    /// The address of the memory.
    pub closed spec fn spec_addr(&self) -> int {
        self.bump.spec_addr()
    }

    /// The contents of the memory.
    pub closed spec fn spec_bytes(&self) -> Seq<Byte> {
        self.bump.spec_bytes()
    }

    /// The memory has the size of an allocator, and an address that it can have.
    pub open spec fn wf(&self) -> bool {
        has_room_for_bump::<T>(self.spec_addr(), self.spec_bytes())
    }

    /// Uses a region of memory with the size and the alignment of a [`Bump`].
    pub fn new(mem: Mem) -> (r: Self)
        requires
            has_room_for_bump::<T>(mem.addr as int, mem.bytes@),
        ensures
            r.wf(),
            r.spec_addr() == mem.addr,
            r.spec_bytes() == mem.bytes@,
    {
        UninitBump { bump: Bump { mem, marker: PhantomData } }
    }

    /// The memory.
    pub fn into_mem(self) -> (mem: Mem)
        ensures
            mem.addr == self.spec_addr(),
            mem.bytes@ == self.spec_bytes(),
    {
        self.bump.mem
    }
}

impl<T> Bump<T> {
    /// The address of the allocator.
    pub closed spec fn spec_addr(&self) -> int {
        self.mem.addr as int
    }

    /// The memory of the allocator: its header, its storage, and the padding of both.
    pub closed spec fn spec_bytes(&self) -> Seq<Byte> {
        self.mem.bytes@
    }

    /// The allocator lies at an address that it can have, and its header counts no more bytes than
    /// a `T` has.
    pub open spec fn wf(&self) -> bool {
        &&& has_room_for_bump::<T>(self.spec_addr(), self.spec_bytes())
        &&& has_header(self.spec_bytes(), vstd::layout::size_of::<T>() as int)
    }

    /// The storage has an address throughout, and is aligned for `T`.
    pub proof fn lemma_wf(&self)
        requires
            self.wf(),
        ensures
            self@.wf(),
            self@.base % vstd::layout::align_of::<T>() as int == 0,
            self@.capacity() == vstd::layout::size_of::<T>(),
    {
        lemma_bump_layout::<T>();
        lemma_storage_aligned::<T>(self.spec_addr());
        Header::lemma_layout();
    }

    /// Create an allocator with uninitialized memory.
    ///
    /// All allocations coming from the allocator will need to be initialized manually.
    pub fn uninit() -> (r: Self)
        ensures
            r.wf(),
            r@.level == 0,
            r@.bytes == crate::mem::uninit_bytes(vstd::layout::size_of::<T>() as int),
    {
        Self::filled_with(None)
    }

    /// Create an allocator with zeroed memory.
    ///
    /// The caller can rely on all allocations to be zeroed.
    pub fn zeroed() -> (r: Self)
        ensures
            r.wf(),
            r@.level == 0,
            r@.bytes == crate::mem::zeroed_bytes(vstd::layout::size_of::<T>() as int),
    {
        Self::filled_with(Some(0))
    }

    fn filled_with(byte: Byte) -> (r: Self)
        ensures
            r.wf(),
            r@.level == 0,
            r@.bytes == Seq::new(vstd::layout::size_of::<T>(), |i: int| byte),
    {
        let item: Layout = Layout::new::<T>();
        let header: Layout = BumpSlice::header_layout();
        proof {
            item.lemma_bounds();
            Header::lemma_layout();
            lemma_bump_layout::<T>();
            lemma_bump_is_addressable::<T>();
            Header::lemma_round_trip(0);
            vstd::arithmetic::div_mod::lemma_small_mod(0, bump_align::<T>() as nat);
        }
        let align: usize = if header.align() >= item.align() {
            header.align()
        } else {
            item.align()
        };
        let offset: usize = header.size() + align_offset(header.size(), item.align());
        let end: usize = offset + item.size();
        let size: usize = end + align_offset(end, align);
        let mut mem: Mem = Mem::placed(byte, size, align, 0);
        let ghost pre = mem.bytes@;
        encode(&Header::empty(), mem.bytes.as_mut_slice());
        proof {
            assert(mem.bytes@.take(Header::spec_size()) =~= Header::image(0));
            assert(mem.bytes@.subrange(offset as int, offset + item.spec_size()) =~= Seq::new(
                vstd::layout::size_of::<T>(),
                |i: int| byte,
            ));
        }
        Bump { mem, marker: PhantomData }
    }

    /// Construct a bump allocator into an uninitialized memory location.
    ///
    /// This fills in only a constant sized header. The rest of the allocation is left-as, i.e. it
    /// remains initialized exactly in those spots the caller may have initialized with external
    /// means.
    pub fn from_maybe_uninit(data: &mut UninitBump<T>) -> (r: &mut Self)
        requires
            old(data).wf(),
        ensures
            r.wf(),
            r@.level == 0,
            r.spec_addr() == old(data).spec_addr(),
            r.spec_bytes() == with_header(old(data).spec_bytes(), 0),
            final(data).spec_addr() == final(r).spec_addr(),
            final(data).spec_bytes() == final(r).spec_bytes(),
    {
        proof {
            lemma_bump_layout::<T>();
            Header::lemma_round_trip(0);
        }
        encode(&Header::empty(), data.bump.mem.bytes.as_mut_slice());
        assert(data.bump.mem.bytes@.take(Header::spec_size()) =~= Header::image(0));
        &mut data.bump
    }

    /// Tells whether this type can be dereferenced.
    pub fn is_deref_applicable() -> (r: bool)
        ensures
            r == deref_is_applicable::<T>(),
    {
        let data: Layout = Layout::new::<T>();
        proof {
            data.lemma_bounds();
        }
        align_offset(BumpSlice::header_layout().size(), data.align()) == 0
    }

    /// The layout of this type.
    ///
    /// There is none if `T` leaves no room for the header in what one block of memory can hold.
    pub fn layout() -> (r: Result<Layout, LayoutError>)
        ensures
            r is Ok <==> bump_size::<T>() <= isize::MAX,
            r matches Ok(layout) ==> layout.wf() && layout.spec_size() == bump_size::<T>()
                && layout.spec_align() == bump_align::<T>(),
    {
        let data: Layout = Layout::new::<T>();
        proof {
            data.lemma_bounds();
            lemma_bump_layout::<T>();
        }
        match BumpSlice::header_layout().extend(data) {
            Err(e) => Err(e),
            Ok((layout, _)) => Ok(layout.pad_to_align()),
        }
    }

    /// The allocator as a [`BumpSlice`].
    pub fn deref(&self) -> (slice: BumpRef<'_>)
        requires
            self.wf(),
            deref_is_applicable::<T>(),
        ensures
            slice.wf(),
            slice@ == self@,
            slice.addr == self.spec_addr(),
            slice.bytes@ == self.spec_bytes(),
    {
        proof {
            lemma_bump_is_slice::<T>(self.spec_addr(), self.spec_bytes());
        }
        let data: Layout = Layout::new::<T>();
        BumpRef { addr: self.mem.addr, bytes: self.mem.bytes.as_slice(), capacity: data.size() }
    }

    /// The allocator as a [`BumpSlice`] that can be changed.
    pub fn deref_mut(&mut self) -> (slice: BumpSlice<'_>)
        requires
            old(self).wf(),
            deref_is_applicable::<T>(),
        ensures
            slice.wf(),
            slice@ == old(self)@,
            slice.mem.addr == old(self).spec_addr(),
            slice.mem.bytes@ == old(self).spec_bytes(),
            final(self).spec_addr() == old(self).spec_addr(),
            final(self).spec_bytes() == final(slice.mem.bytes)@,
    {
        proof {
            lemma_bump_is_slice::<T>(self.spec_addr(), self.spec_bytes());
        }
        let data: Layout = Layout::new::<T>();
        BumpSlice { mem: self.mem.as_slice(), capacity: data.size() }
    }
}

/// A header and the storage behind it have an alignment that both their alignments divide.
pub proof fn lemma_bump_layout<T>()
    ensures
        vstd::arithmetic::power2::is_pow2(bump_align::<T>()),
        bump_align::<T>() > 0,
        Header::spec_size() <= storage_offset::<T>(),
        storage_offset::<T>() + vstd::layout::size_of::<T>() <= bump_size::<T>(),
        bump_align::<T>() % Header::spec_align() == 0,
        bump_align::<T>() % vstd::layout::align_of::<T>() as int == 0,
        storage_offset::<T>() % Header::spec_align() == 0,
        storage_offset::<T>() % vstd::layout::align_of::<T>() as int == 0,
{
    broadcast use vstd::layout::align_properties;

    let align = vstd::layout::align_of::<T>() as int;
    Header::lemma_layout();
    crate::align::lemma_pow2_positive(align);
    crate::align::lemma_padding(Header::spec_size(), align);
    crate::align::lemma_padding(
        storage_offset::<T>() + vstd::layout::size_of::<T>(),
        bump_align::<T>(),
    );
    if align >= Header::spec_align() {
        crate::align::lemma_pow2_divides(Header::spec_align(), align);
        crate::align::lemma_pow2_divides(align, align);
        crate::align::lemma_multiple_of_divisor(storage_offset::<T>(), Header::spec_align(), align);
    } else {
        crate::align::lemma_pow2_divides(Header::spec_align(), Header::spec_align());
        crate::align::lemma_pow2_divides(align, Header::spec_align());
        crate::align::lemma_multiple_of_divisor(Header::spec_size(), align, Header::spec_align());
    }
}

/// Behind a header at an address that an allocator can have, the storage is aligned.
proof fn lemma_storage_aligned<T>(addr: int)
    requires
        addr % bump_align::<T>() == 0,
    ensures
        addr % Header::spec_align() == 0,
        (addr + storage_offset::<T>()) % Header::spec_align() == 0,
        (addr + storage_offset::<T>()) % vstd::layout::align_of::<T>() as int == 0,
{
    broadcast use vstd::layout::align_nonzero;

    lemma_bump_layout::<T>();
    Header::lemma_layout();
    let align = vstd::layout::align_of::<T>() as int;
    crate::align::lemma_multiple_of_divisor(addr, Header::spec_align(), bump_align::<T>());
    crate::align::lemma_multiple_of_divisor(addr, align, bump_align::<T>());
    crate::align::lemma_sum_of_multiples(addr, storage_offset::<T>(), Header::spec_align());
    crate::align::lemma_sum_of_multiples(addr, storage_offset::<T>(), align);
}

/// There are enough addresses for a `Bump<T>` and for the bytes that are skipped in front of it to
/// align it.
pub proof fn lemma_bump_is_addressable<T>()
    requires
        vstd::layout::size_of::<T>() <= isize::MAX,
        vstd::layout::align_of::<T>() <= usize::MAX,
    ensures
        bump_size::<T>() + bump_align::<T>() - 1 <= usize::MAX,
        slice_size(vstd::layout::size_of::<T>() as int) + bump_align::<T>() - 1 <= usize::MAX,
{
    broadcast use {vstd::layout::align_properties, vstd::layout::align_nonzero};

    let align = vstd::layout::align_of::<T>() as int;
    let size = vstd::layout::size_of::<T>() as int;
    Header::lemma_layout();
    lemma_bump_layout::<T>();
    crate::align::lemma_padding(Header::spec_size(), align);
    crate::align::lemma_padding(Header::spec_size() + size, Header::spec_align());
    crate::align::lemma_padding(storage_offset::<T>() + size, bump_align::<T>());
    if align <= Header::spec_size() {
        crate::align::lemma_pow2_divides(align, Header::spec_size());
    } else {
        crate::align::lemma_pow2_divides(Header::spec_align(), align);
        vstd::arithmetic::div_mod::lemma_small_mod(Header::spec_size() as nat, align as nat);
        crate::align::lemma_pow2_divides(align, align);
        crate::align::lemma_sum_of_multiples(align, size, align);
        if size == 0 {
            crate::align::lemma_pow2_half_usize(align);
        } else {
            if size < align {
                vstd::arithmetic::div_mod::lemma_small_mod(size as nat, align as nat);
            }
            crate::align::lemma_pow2_half_isize(align);
        }
    }
}

/// The memory of a `Bump<T>` that can be dereferenced is that of a slice.
proof fn lemma_bump_is_slice<T>(addr: int, bytes: Seq<Byte>)
    requires
        deref_is_applicable::<T>(),
        has_room_for_bump::<T>(addr, bytes),
        has_header(bytes, vstd::layout::size_of::<T>() as int),
    ensures
        is_slice(addr, bytes, vstd::layout::size_of::<T>() as int),
{
    lemma_storage_aligned::<T>(addr);
    law_dereferencing_keeps_the_layout::<T>();
}

/// How many bytes of storage a region of `len` bytes holds behind a header.
///
/// An allocator occupies a multiple of its alignment.
pub open spec fn storage_size(len: int) -> int {
    let rest = len - Header::spec_size();
    rest - rest % Header::spec_align()
}

/// Whether a region holds an allocator: a header at an address that it can have, which counts no
/// more bytes than the storage has.
pub open spec fn holds_slice(addr: int, bytes: Seq<Byte>) -> bool {
    &&& addr % Header::spec_align() == 0
    &&& has_header(bytes, storage_size(bytes.len() as int))
}

/// The storage that a region holds is part of what follows the header.
pub proof fn lemma_storage_size(len: int)
    requires
        len >= Header::spec_size(),
    ensures
        0 <= storage_size(len) <= len - Header::spec_size(),
        storage_size(len) % Header::spec_align() == 0,
{
    Header::lemma_layout();
    let rest = len - Header::spec_size();
    let align = Header::spec_align();
    vstd::arithmetic::div_mod::lemma_fundamental_div_mod(rest, align);
    vstd::arithmetic::div_mod::lemma_mod_bound(rest, align);
    vstd::arithmetic::div_mod::lemma_mod_decreases(rest as nat, align as nat);
    assert(storage_size(len) == (rest / align) * align) by (nonlinear_arith)
        requires
            rest == align * (rest / align) + rest % align,
            storage_size(len) == rest - rest % align,
    ;
    vstd::arithmetic::div_mod::lemma_mod_multiples_basic(rest / align, align);
}

/// The storage of an allocator lies behind the header, and has an address throughout.
pub proof fn lemma_slice(addr: int, bytes: Seq<Byte>, capacity: int)
    requires
        is_slice(addr, bytes, capacity),
    ensures
        Header::spec_size() + capacity <= bytes.len(),
        arena_in(addr, bytes, Header::spec_size(), capacity).wf(),
        arena_in(addr, bytes, Header::spec_size(), capacity).capacity() == capacity,
        arena_in(addr, bytes, Header::spec_size(), capacity).base % Header::spec_align() == 0,
{
    Header::lemma_layout();
    crate::align::lemma_padding(Header::spec_size() + capacity, Header::spec_align());
    crate::align::lemma_sum_of_multiples(addr, Header::spec_size(), Header::spec_align());
}

impl<'m> View for BumpSlice<'m> {
    type V = Arena;

    open spec fn view(&self) -> Arena {
        arena_in(
            self.mem.addr as int,
            self.mem.bytes@,
            Header::spec_size(),
            self.capacity as int,
        )
    }
}

impl<'m> View for BumpRef<'m> {
    type V = Arena;

    open spec fn view(&self) -> Arena {
        arena_in(self.addr as int, self.bytes@, Header::spec_size(), self.capacity as int)
    }
}

impl View for SliceBox {
    type V = Arena;

    open spec fn view(&self) -> Arena {
        arena_in(
            self.spec_addr(),
            self.spec_bytes(),
            Header::spec_size(),
            self.spec_capacity(),
        )
    }
}

impl SliceBox {
    /// The address of the allocator.
    pub closed spec fn spec_addr(&self) -> int {
        self.mem.addr as int
    }

    /// The memory of the allocator: its header, its storage, and the padding behind it.
    pub closed spec fn spec_bytes(&self) -> Seq<Byte> {
        self.mem.bytes@
    }

    /// How many bytes the storage has.
    pub closed spec fn spec_capacity(&self) -> int {
        self.capacity as int
    }

    /// The memory is that of an allocator.
    pub open spec fn wf(&self) -> bool {
        is_slice(self.spec_addr(), self.spec_bytes(), self.spec_capacity())
    }

    /// An allocator with uninitialized memory, whose storage is aligned.
    pub(crate) fn aligned(capacity: usize, align: usize) -> (r: Self)
        requires
            vstd::arithmetic::power2::is_pow2(align as int),
            slice_size(capacity as int) + crate::layout::larger(
                Header::spec_align(),
                align as int,
            ) - 1 <= usize::MAX,
        ensures
            r.wf(),
            r@.level == 0,
            r@.base % align as int == 0,
            r@.bytes == crate::mem::uninit_bytes(capacity as int),
    {
        let header: Layout = BumpSlice::header_layout();
        proof {
            Header::lemma_layout();
            Header::lemma_round_trip(0);
            crate::align::lemma_pow2_positive(align as int);
            crate::align::lemma_padding(Header::spec_size() + capacity, Header::spec_align());
            if align >= Header::spec_align() {
                crate::align::lemma_pow2_divides(Header::spec_align(), align as int);
                crate::align::lemma_pow2_divides(align as int, align as int);
            } else {
                crate::align::lemma_pow2_divides(align as int, Header::spec_align());
                crate::align::lemma_pow2_divides(Header::spec_align(), Header::spec_align());
            }
        }
        let most: usize = if header.align() >= align {
            header.align()
        } else {
            align
        };
        let end: usize = header.size() + capacity;
        let size: usize = end + align_offset(end, header.align());
        let mut mem: Mem = Mem::placed(None, size, most, header.size());
        encode(&Header::empty(), mem.bytes.as_mut_slice());
        proof {
            let base = mem.addr + Header::spec_size();
            crate::align::lemma_multiple_of_divisor(base, align as int, most as int);
            crate::align::lemma_multiple_of_divisor(base, Header::spec_align(), most as int);
            crate::align::lemma_sum_of_multiples(base, Header::spec_size(), Header::spec_align());
            assert(mem.bytes@.take(Header::spec_size()) =~= Header::image(0));
            assert(mem.bytes@.subrange(Header::spec_size(), end as int)
                =~= crate::mem::uninit_bytes(capacity as int));
        }
        SliceBox { mem, capacity }
    }

    /// The allocator.
    pub fn deref(&self) -> (slice: BumpRef<'_>)
        requires
            self.wf(),
        ensures
            slice.wf(),
            slice@ == self@,
            slice.addr == self.spec_addr(),
            slice.bytes@ == self.spec_bytes(),
    {
        BumpRef { addr: self.mem.addr, bytes: self.mem.bytes.as_slice(), capacity: self.capacity }
    }

    /// The allocator, which can be changed.
    pub fn deref_mut(&mut self) -> (slice: BumpSlice<'_>)
        requires
            old(self).wf(),
        ensures
            slice.wf(),
            slice@ == old(self)@,
            slice.mem.addr == old(self).spec_addr(),
            slice.mem.bytes@ == old(self).spec_bytes(),
            slice.capacity == old(self).spec_capacity(),
            final(self).spec_addr() == old(self).spec_addr(),
            final(self).spec_capacity() == old(self).spec_capacity(),
            final(self).spec_bytes() == final(slice.mem.bytes)@,
    {
        BumpSlice { mem: self.mem.as_slice(), capacity: self.capacity }
    }
}

impl<'m> BumpRef<'m> {
    /// The memory is that of an allocator.
    pub open spec fn wf(&self) -> bool {
        is_slice(self.addr as int, self.bytes@, self.capacity as int)
    }

    /// Returns capacity of the allocator.
    ///
    /// This is how many *bytes* can be allocated within this node.
    pub fn capacity(&self) -> (capacity: usize)
        requires
            self.wf(),
        ensures
            capacity == self@.capacity(),
    {
        proof {
            lemma_slice(self.addr as int, self.bytes@, self.capacity as int);
        }
        self.capacity
    }

    /// Get the address of the data.
    ///
    /// The length of the valid region is [`BumpRef::capacity`].
    pub fn data_ptr(&self) -> (ptr: NonNull<u8>)
        requires
            self.wf(),
        ensures
            ptr.spec_addr() == self@.base,
    {
        proof {
            lemma_slice(self.addr as int, self.bytes@, self.capacity as int);
        }
        let ptr: Option<NonNull<u8>> = NonNull::new(
            self.addr + BumpSlice::header_layout().size(),
        );
        ptr.unwrap()
    }

    /// Get the number of already allocated bytes.
    pub fn level(&self) -> (level: Level)
        requires
            self.wf(),
        ensures
            level.0 == self@.level,
    {
        Level(decode(self.bytes).index)
    }

    /// Reacquire an allocation that has been performed previously.
    ///
    /// See [`BumpSlice::get_unchecked`].
    pub fn get_unchecked<V>(&self, level: Level) -> (r: Allocation<'m, V>)
        requires
            self.wf(),
            level.0 < self@.capacity(),
            level.0 <= self@.level,
            (self@.base + level.0) % vstd::layout::align_of::<V>() as int == 0,
        ensures
            r.ptr.spec_addr() == self@.base + level.0,
            r.level == level,
    {
        proof {
            lemma_slice(self.addr as int, self.bytes@, self.capacity as int);
        }
        let ptr: Option<NonNull<u8>> = NonNull::new(self.data_ptr().addr() + level.0);
        Allocation { level, lifetime: alloc_time(), ptr: ptr.unwrap().cast() }
    }

    /// The byte at an address of the storage.
    pub fn read(&self, ptr: NonNull<u8>) -> (byte: Byte)
        requires
            self.wf(),
            self@.base <= ptr.spec_addr() < self@.base + self@.capacity(),
        ensures
            byte == self@.byte_at(ptr.spec_addr()),
    {
        proof {
            lemma_slice(self.addr as int, self.bytes@, self.capacity as int);
        }
        self.bytes[ptr.addr() - self.addr]
    }
}

impl<'m> BumpSlice<'m> {
    /// The memory is that of an allocator.
    pub open spec fn wf(&self) -> bool {
        is_slice(self.mem.addr as int, self.mem.bytes@, self.capacity as int)
    }

    /// Whether two allocators have the same place, and the same padding behind their storage.
    pub open spec fn same_place(&self, other: &BumpSlice<'m>) -> bool {
        &&& self.mem.addr == other.mem.addr
        &&& self.capacity == other.capacity
        &&& self.mem.bytes@.skip(Header::spec_size() + self.capacity)
            == other.mem.bytes@.skip(Header::spec_size() + other.capacity)
    }

    /// Allocate some space to use for a bump allocator.
    ///
    /// The capacity must leave room for the header in what one block of memory can hold.
    pub fn new(capacity: usize) -> (r: SliceBox)
        requires
            slice_size(capacity as int) <= isize::MAX,
        ensures
            r.wf(),
            r@.level == 0,
            r@.bytes == crate::mem::uninit_bytes(capacity as int),
    {
        proof {
            Header::lemma_layout();
        }
        SliceBox::aligned(capacity, Self::header_layout().align())
    }

    /// Initialize a bump allocator from existing memory.
    ///
    /// Only the header is written. What lies in front of the first address that the allocator can
    /// have, and what is too short for its alignment at the end, is not part of it and stays as it
    /// is. The memory is that of the allocator for as long as the allocator is used, and afterwards
    /// holds what the allocator has left in it.
    pub fn from_mem(mem: MemSlice<'m>) -> (r: Result<Self, FromMemError>)
        requires
            mem.wf(),
        ensures
            ({
                let offset = crate::align::padding(mem.addr as int, Header::spec_align());
                let size = Header::spec_size() + storage_size(old(mem.bytes)@.len() - offset);
                if offset + Header::spec_size() <= old(mem.bytes)@.len() {
                    &&& r matches Ok(slice)
                    &&& slice.wf()
                    &&& slice@.level == 0
                    &&& slice.mem.addr == mem.addr + offset
                    &&& slice.capacity == storage_size(old(mem.bytes)@.len() - offset)
                    &&& slice.mem.bytes@ == with_header(
                        old(mem.bytes)@.subrange(offset, offset + size),
                        0,
                    )
                    &&& final(mem.bytes)@ == old(mem.bytes)@.take(offset) + final(slice.mem.bytes)@
                        + old(mem.bytes)@.skip(offset + size)
                } else {
                    &&& r is Err
                    &&& final(mem.bytes)@ == old(mem.bytes)@
                }
            }),
    {
        proof {
            Header::lemma_layout();
            crate::align::lemma_padding(mem.addr as int, Header::spec_align());
        }
        let header: Layout = Self::header_layout();
        let offset: usize = align_offset(mem.addr, header.align());
        // Align the memory for the header.
        let length: usize = mem.bytes.len();
        if offset > length || header.size() > length - offset {
            return Err(FromMemError { _inner: () });
        }
        let addr: usize = mem.addr + offset;
        let ghost all = mem.bytes@;
        let (_, rest): (&'m mut [Byte], &'m mut [Byte]) = mem.bytes.split_at_mut(offset);
        let ghost behind = rest@;
        encode(&Header::empty(), &mut *rest);
        proof {
            Header::lemma_round_trip(0);
            lemma_storage_size(all.len() - offset);
            let size = Header::spec_size() + storage_size(all.len() - offset);
            assert(rest@.take(Header::spec_size()) =~= Header::image(0));
            assert(rest@.take(size) =~= with_header(all.subrange(offset as int, offset + size), 0));
            assert(rest@.skip(size) =~= all.skip(offset + size));
            assert(rest@.take(size).take(Header::spec_size()) =~= Header::image(0));
        }
        Ok(Self::from_mem_unchecked(MemSlice { addr, bytes: rest }))
    }

    /// Construct a bump allocator from existing memory without reinitializing.
    ///
    /// The memory must contain data that has been previously wrapped as a `BumpSlice`, exactly.
    pub fn from_mem_unchecked(mem: MemSlice<'m>) -> (r: Self)
        requires
            mem.wf(),
            holds_slice(mem.addr as int, mem.bytes@),
        ensures
            r.wf(),
            r.mem.addr == mem.addr,
            r.capacity == storage_size(old(mem.bytes)@.len() as int),
            r.mem.bytes@ == old(mem.bytes)@.take(Header::spec_size() + r.capacity),
            final(mem.bytes)@ == final(r.mem.bytes)@ + old(mem.bytes)@.skip(
                Header::spec_size() + r.capacity,
            ),
    {
        Self::reinterpret_aligned_mem(mem)
    }

    /// Cast pre-initialized, aligned memory into a bump allocator.
    fn reinterpret_aligned_mem(mem: MemSlice<'m>) -> (r: Self)
        requires
            mem.wf(),
            holds_slice(mem.addr as int, mem.bytes@),
        ensures
            r.wf(),
            r.mem.addr == mem.addr,
            r.capacity == storage_size(old(mem.bytes)@.len() as int),
            r.mem.bytes@ == old(mem.bytes)@.take(Header::spec_size() + r.capacity),
            final(mem.bytes)@ == final(r.mem.bytes)@ + old(mem.bytes)@.skip(
                Header::spec_size() + r.capacity,
            ),
    {
        proof {
            Header::lemma_layout();
            lemma_storage_size(mem.bytes@.len() as int);
            law_region_holds_its_allocator(mem.bytes@.len() as int, 0);
        }
        let header: Layout = Self::header_layout();
        let datasize: usize = mem.bytes.len() - header.size();
        // Round down to the header alignment. The whole struct will occupy memory according to its
        // natural alignment.
        let datasize: usize = datasize - datasize % header.align();
        let addr: usize = mem.addr;
        let ghost all = mem.bytes@;
        let (bytes, _): (&'m mut [Byte], &'m mut [Byte]) = mem.bytes.split_at_mut(
            header.size() + datasize,
        );
        assert(bytes@.take(Header::spec_size()) =~= all.take(Header::spec_size()));
        BumpSlice { mem: MemSlice { addr, bytes }, capacity: datasize }
    }

    /// Unwrap the memory owned by an unsized bump allocator.
    ///
    /// The memory holds the allocator, so that [`BumpSlice::from_mem_unchecked`] can restore it.
    pub fn into_mem(this: Self) -> (mem: MemSlice<'m>)
        requires
            this.wf(),
        ensures
            mem == this.mem,
            mem.wf(),
    {
        this.mem
    }

    /// Returns the layout for the `header` of a `BumpSlice`.
    ///
    /// The definition of `header` in this case is all the fields that come **before** the `data`
    /// field.
    pub fn header_layout() -> (layout: Layout)
        ensures
            layout.wf(),
            layout.spec_size() == Header::spec_size(),
            layout.spec_align() == Header::spec_align(),
    {
        Layout::new::<usize>()
    }

    /// Returns the layout for an array with the size of `size`.
    pub fn data_layout(size: usize) -> (r: Result<Layout, LayoutError>)
        ensures
            r is Ok <==> size <= isize::MAX,
            r matches Ok(layout) ==> layout.wf() && layout.spec_size() == size
                && layout.spec_align() == 1,
    {
        proof {
            broadcast use {vstd::layout::align_of_u8, vstd::layout::layout_of_primitives};

        }
        Layout::array::<u8>(size)
    }

    /// Returns a layout for a `BumpSlice` where the length of the data field is `size`.
    pub fn layout_from_size(size: usize) -> (r: Result<Layout, LayoutError>)
        ensures
            r is Ok <==> slice_size(size as int) <= isize::MAX,
            r matches Ok(layout) ==> layout.wf() && layout.spec_size() == slice_size(size as int)
                && layout.spec_align() == Header::spec_align(),
    {
        proof {
            Header::lemma_layout();
            crate::align::lemma_padding(Header::spec_size(), 1);
            crate::align::lemma_padding(Header::spec_size() + size, Header::spec_align());
        }
        match Self::data_layout(size) {
            Err(e) => Err(e),
            Ok(data_tail) => match Self::header_layout().extend(data_tail) {
                Err(e) => Err(e),
                Ok((layout, _)) => Ok(layout.pad_to_align()),
            },
        }
    }

    /// The allocator, to be looked at.
    pub fn as_ref(&self) -> (slice: BumpRef<'_>)
        requires
            self.wf(),
        ensures
            slice.wf(),
            slice@ == self@,
            slice.addr == self.mem.addr,
            slice.bytes@ == old(self.mem.bytes)@,
    {
        BumpRef { addr: self.mem.addr, bytes: &*self.mem.bytes, capacity: self.capacity }
    }

    /// Returns capacity of this `BumpSlice`.
    ///
    /// This is how many *bytes* can be allocated within this node.
    pub fn capacity(&self) -> (capacity: usize)
        requires
            self.wf(),
        ensures
            capacity == self@.capacity(),
    {
        self.as_ref().capacity()
    }

    /// Get the address of the data.
    ///
    /// The length of the valid region is [`BumpSlice::capacity`].
    pub fn data_ptr(&self) -> (ptr: NonNull<u8>)
        requires
            self.wf(),
        ensures
            ptr.spec_addr() == self@.base,
    {
        self.as_ref().data_ptr()
    }

    /// Get the number of already allocated bytes.
    pub fn level(&self) -> (level: Level)
        requires
            self.wf(),
        ensures
            level.0 == self@.level,
    {
        self.as_ref().level()
    }

    /// Reset the bump allocator.
    ///
    /// It will reset the internal count of used bytes to zero. This ends the use of the allocator:
    /// it can be borrowed again when nothing that it has handed out is in use any more.
    pub fn reset(self)
        requires
            self.wf(),
        ensures
            final(self.mem.bytes)@ == with_header(old(self.mem.bytes)@, 0),
            is_slice(self.mem.addr as int, final(self.mem.bytes)@, self.capacity as int),
            arena_in(
                self.mem.addr as int,
                final(self.mem.bytes)@,
                Header::spec_size(),
                self.capacity as int,
            ) == self@.at_level(0),
    {
        proof {
            lemma_with_header(
                self.mem.addr as int,
                self.mem.bytes@,
                self.capacity as int,
                0,
            );
        }
        encode(&Header::empty(), self.mem.bytes);
    }

    /// Allocate a region of memory.
    ///
    /// There is none if the region does not fit behind what is already taken. The size of the
    /// region must not be zero.
    pub fn alloc_layout(&mut self, layout: Layout) -> (r: Option<NonNull<u8>>)
        requires
            old(self).wf(),
            layout.spec_size() > 0,
        ensures
            final(self).wf(),
            final(self).same_place(&old(self)),
            final(final(self).mem.bytes)@ == final(old(self).mem.bytes)@,
            final(self)@ == old(self)@.after(layout, old(self)@.level),
            r is Some <==> old(self)@.fits(layout, old(self)@.level),
            r matches Some(ptr) ==> ptr.spec_addr() == old(self)@.base + old(self)@.start(
                layout,
                old(self)@.level,
            ),
    {
        match self.try_alloc(layout) {
            None => None,
            Some(allocation) => Some(allocation.ptr),
        }
    }

    /// Try to allocate some layout with a precise base location.
    ///
    /// The base location is the currently consumed byte count, without correction for the
    /// alignment of the allocation. This will succeed if it can be allocate exactly at the
    /// expected location.
    pub fn alloc_at(&mut self, layout: Layout, level: Level) -> (r: Result<NonNull<u8>, Failure>)
        requires
            old(self).wf(),
            layout.spec_size() > 0,
            level.0 <= old(self)@.capacity(),
        ensures
            final(self).wf(),
            final(self).same_place(&old(self)),
            final(final(self).mem.bytes)@ == final(old(self).mem.bytes)@,
            final(self)@ == old(self)@.after(layout, level.0 as int),
            match old(self)@.request(layout, level.0 as int) {
                Ok(placement) => r matches Ok(ptr) && ptr.spec_addr() == placement.addr,
                Err(failure) => r == Err::<NonNull<u8>, Failure>(failure),
            },
    {
        match self.try_alloc_at(layout, level.0) {
            Ok(allocation) => Ok(allocation.ptr),
            Err(failure) => Err(failure),
        }
    }

    /// Get an allocation for a specific type.
    ///
    /// It is not yet initialized. The type must not be zero-sized.
    pub fn get<V>(&mut self) -> (r: Option<Allocation<'m, V>>)
        requires
            old(self).wf(),
            vstd::layout::size_of::<V>() > 0,
        ensures
            final(self).wf(),
            final(self).same_place(&old(self)),
            final(final(self).mem.bytes)@ == final(old(self).mem.bytes)@,
            final(self)@ == old(self)@.after(Layout::of::<V>(), old(self)@.level),
            match old(self)@.request(Layout::of::<V>(), old(self)@.level) {
                Ok(placement) => r matches Some(a) && a.ptr.spec_addr() == placement.addr
                    && a.level.0 == placement.level,
                Err(_) => r is None,
            },
    {
        match self.try_alloc(Layout::new::<V>()) {
            None => None,
            Some(allocation) => Some(
                Allocation {
                    lifetime: allocation.lifetime,
                    level: allocation.level,
                    ptr: allocation.ptr.cast(),
                },
            ),
        }
    }

    /// Get an allocation for a specific type at a specific level.
    ///
    /// See [`BumpSlice::get`]. This can be used to ensure that data is contiguous.
    pub fn get_at<V>(&mut self, level: Level) -> (r: Result<Allocation<'m, V>, Failure>)
        requires
            old(self).wf(),
            vstd::layout::size_of::<V>() > 0,
            level.0 <= old(self)@.capacity(),
        ensures
            final(self).wf(),
            final(self).same_place(&old(self)),
            final(final(self).mem.bytes)@ == final(old(self).mem.bytes)@,
            final(self)@ == old(self)@.after(Layout::of::<V>(), level.0 as int),
            match old(self)@.request(Layout::of::<V>(), level.0 as int) {
                Ok(placement) => r matches Ok(a) && a.ptr.spec_addr() == placement.addr
                    && a.level.0 == placement.level,
                Err(failure) => r == Err::<Allocation<'m, V>, Failure>(failure),
            },
    {
        match self.try_alloc_at(Layout::new::<V>(), level.0) {
            Err(failure) => Err(failure),
            Ok(allocation) => Ok(
                Allocation {
                    lifetime: allocation.lifetime,
                    level: allocation.level,
                    ptr: allocation.ptr.cast(),
                },
            ),
        }
    }

    /// Reacquire an allocation that has been performed previously.
    ///
    /// This call won't invalidate any other allocations. The level is the one at which the
    /// allocation was performed, and its storage is aligned for `V`.
    pub fn get_unchecked<V>(&self, level: Level) -> (r: Allocation<'m, V>)
        requires
            self.wf(),
            level.0 < self@.capacity(),
            level.0 <= self@.level,
            (self@.base + level.0) % vstd::layout::align_of::<V>() as int == 0,
        ensures
            r.ptr.spec_addr() == self@.base + level.0,
            r.level == level,
    {
        let allocation: Allocation<'_, V> = self.as_ref().get_unchecked(level);
        Allocation { level: allocation.level, lifetime: alloc_time(), ptr: allocation.ptr }
    }

    /// Allocate space for one `T` without initializing it.
    pub fn bump_box<T>(&mut self) -> (r: Result<LeakBox<'m, T>, Failure>)
        requires
            old(self).wf(),
            vstd::layout::size_of::<T>() > 0,
        ensures
            final(self).wf(),
            final(self).same_place(&old(self)),
            final(final(self).mem.bytes)@ == final(old(self).mem.bytes)@,
            final(self)@ == old(self)@.after(Layout::of::<T>(), old(self)@.level),
            match old(self)@.request(Layout::of::<T>(), old(self)@.level) {
                Ok(placement) => r matches Ok(b) && b.spec_ptr().spec_addr() == placement.addr
                    && b.spec_len() == 1,
                Err(_) => r == Err::<LeakBox<'m, T>, Failure>(Failure::Exhausted),
            },
    {
        proof {
            lemma_slice(self.mem.addr as int, self.mem.bytes@, self.capacity as int);
        }
        let level: Level = self.level();
        match self.get_at(level) {
            Err(failure) => Err(failure),
            Ok(allocation) => Ok(LeakBox::from_allocation(allocation)),
        }
    }

    /// Allocate space for a slice of `T`s without initializing any.
    ///
    /// The slice must not be empty, nor its items zero-sized.
    pub fn bump_array<T>(&mut self, n: usize) -> (r: Result<LeakBox<'m, T>, Failure>)
        requires
            old(self).wf(),
            n * vstd::layout::size_of::<T>() > 0,
        ensures
            final(self).wf(),
            final(self).same_place(&old(self)),
            final(final(self).mem.bytes)@ == final(old(self).mem.bytes)@,
            ({
                let pre = old(self)@;
                let layout = Layout::of_array::<T>(n as int);
                if n * vstd::layout::size_of::<T>() <= isize::MAX && pre.fits(layout, pre.level) {
                    &&& final(self)@ == pre.after(layout, pre.level)
                    &&& r matches Ok(b)
                    &&& b.spec_ptr().spec_addr() == pre.base + pre.start(layout, pre.level)
                    &&& b.spec_len() == n
                } else {
                    &&& final(self)@ == pre
                    &&& r == Err::<LeakBox<'m, T>, Failure>(Failure::Exhausted)
                }
            }),
    {
        match Layout::array::<T>(n) {
            Err(_) => Err(Failure::Exhausted),
            Ok(layout) => match self.alloc_layout(layout) {
                None => Err(Failure::Exhausted),
                Some(raw) => Ok(LeakBox::from_raw_parts(raw.cast(), n)),
            },
        }
    }

    /// The byte at an address of the storage.
    pub fn read(&self, ptr: NonNull<u8>) -> (byte: Byte)
        requires
            self.wf(),
            self@.base <= ptr.spec_addr() < self@.base + self@.capacity(),
        ensures
            byte == self@.byte_at(ptr.spec_addr()),
    {
        self.as_ref().read(ptr)
    }

    /// Stores a byte at an address of the storage.
    pub fn write(&mut self, ptr: NonNull<u8>, byte: Byte)
        requires
            old(self).wf(),
            old(self)@.base <= ptr.spec_addr() < old(self)@.base + old(self)@.capacity(),
        ensures
            final(self).wf(),
            final(self).same_place(&old(self)),
            final(final(self).mem.bytes)@ == final(old(self).mem.bytes)@,
            final(self)@ == old(self)@.written(ptr.spec_addr(), byte),
    {
        proof {
            lemma_slice(self.mem.addr as int, self.mem.bytes@, self.capacity as int);
        }
        let i: usize = ptr.addr() - self.mem.addr;
        let ghost pre = self.mem.bytes@;
        self.mem.bytes[i] = byte;
        proof {
            let size = Header::spec_size();
            assert(self.mem.bytes@.take(size) =~= pre.take(size));
            assert(self.mem.bytes@.skip(size + self.capacity) =~= pre.skip(size + self.capacity));
            assert(self@.bytes =~= old(self)@.bytes.update(i - size, byte));
        }
    }

    pub(crate) fn try_alloc(&mut self, layout: Layout) -> (r: Option<Allocation<'m, u8>>)
        requires
            old(self).wf(),
            layout.spec_size() > 0,
        ensures
            final(self).wf(),
            final(self).same_place(&old(self)),
            final(final(self).mem.bytes)@ == final(old(self).mem.bytes)@,
            final(self)@ == old(self)@.after(layout, old(self)@.level),
            match old(self)@.request(layout, old(self)@.level) {
                Ok(placement) => r matches Some(a) && a.ptr.spec_addr() == placement.addr
                    && a.level.0 == placement.level,
                Err(_) => r is None,
            },
    {
        proof {
            lemma_slice(self.mem.addr as int, self.mem.bytes@, self.capacity as int);
        }
        let consumed: usize = self.level().0;
        match self.try_alloc_at(layout, consumed) {
            Ok(allocation) => Some(allocation),
            Err(_) => None,
        }
    }

    fn try_alloc_at(&mut self, layout: Layout, expect_consumed: usize) -> (r: Result<
        Allocation<'m, u8>,
        Failure,
    >)
        requires
            old(self).wf(),
            layout.spec_size() > 0,
            expect_consumed <= old(self)@.capacity(),
        ensures
            final(self).wf(),
            final(self).same_place(&old(self)),
            final(final(self).mem.bytes)@ == final(old(self).mem.bytes)@,
            final(self)@ == old(self)@.after(layout, expect_consumed as int),
            match old(self)@.request(layout, expect_consumed as int) {
                Ok(placement) => r matches Ok(a) && a.ptr.spec_addr() == placement.addr
                    && a.level.0 == placement.level,
                Err(failure) => r == Err::<Allocation<'m, u8>, Failure>(failure),
            },
    {
        proof {
            use_type_invariant(&layout);
            layout.lemma_bounds();
            lemma_slice(self.mem.addr as int, self.mem.bytes@, self.capacity as int);
            crate::align::lemma_padding(self@.base + expect_consumed, layout.spec_align());
        }
        let length: usize = self.capacity;
        let base: usize = self.data_ptr().addr();
        let alignment: usize = layout.align();
        let requested: usize = layout.size();

        let available: usize = length - expect_consumed;
        let offset: usize = align_offset(base + expect_consumed, alignment);

        match available.checked_sub(offset) {
            None => {
                return Err(Failure::Exhausted);
            },
            Some(room) => {
                if requested > room {
                    return Err(Failure::Exhausted);
                }
            },
        }

        let at_aligned: usize = expect_consumed + offset;
        let new_consumed: usize = at_aligned + requested;

        match self.bump(expect_consumed, new_consumed) {
            Ok(()) => {},
            Err(observed) => {
                return Err(Failure::Mismatch { observed: Level(observed) });
            },
        }

        let aligned: Option<NonNull<u8>> = NonNull::new(base + at_aligned);
        Ok(
            Allocation {
                ptr: aligned.unwrap(),
                lifetime: alloc_time(),
                level: Level(new_consumed),
            },
        )
    }

    fn bump(&mut self, expect: usize, consume: usize) -> (r: Result<(), usize>)
        requires
            old(self).wf(),
            expect <= consume <= old(self)@.capacity(),
        ensures
            final(self).wf(),
            final(self).same_place(&old(self)),
            final(final(self).mem.bytes)@ == final(old(self).mem.bytes)@,
            old(self)@.level == expect ==> r is Ok && final(self)@ == old(self)@.at_level(
                consume as int,
            ),
            old(self)@.level != expect ==> r == Err::<(), usize>(old(self)@.level as usize)
                && final(self)@ == old(self)@,
    {
        let prev: usize = self.level().0;
        if prev != expect {
            Err(prev)
        } else {
            proof {
                lemma_slice(self.mem.addr as int, self.mem.bytes@, self.capacity as int);
                lemma_with_header(
                    self.mem.addr as int,
                    self.mem.bytes@,
                    self.capacity as int,
                    consume as int,
                );
            }
            encode(&Header { index: consume }, &mut *self.mem.bytes);
            Ok(())
        }
    }
}

/// Writing another header changes nothing but the level of the allocator.
proof fn lemma_with_header(addr: int, bytes: Seq<Byte>, capacity: int, index: int)
    requires
        is_slice(addr, bytes, capacity),
        0 <= index <= capacity,
        capacity <= usize::MAX,
    ensures
        is_slice(addr, with_header(bytes, index), capacity),
        with_header(bytes, index).skip(Header::spec_size() + capacity) == bytes.skip(
            Header::spec_size() + capacity,
        ),
        arena_in(addr, with_header(bytes, index), Header::spec_size(), capacity) == arena_in(
            addr,
            bytes,
            Header::spec_size(),
            capacity,
        ).at_level(index),
{
    let size = Header::spec_size();
    let after = with_header(bytes, index);
    lemma_slice(addr, bytes, capacity);
    Header::lemma_layout();
    Header::lemma_round_trip(index);
    assert(after.take(size) =~= Header::image(index));
    assert(after.skip(size + capacity) =~= bytes.skip(size + capacity));
    assert(after.subrange(size, size + capacity) =~= bytes.subrange(size, size + capacity));
}

/// The memory of an allocator is its header, its storage and the padding behind it. It holds that
/// allocator: restoring it gives it back, with the padding added to the storage.
pub proof fn law_memory_holds_the_allocator(addr: int, bytes: Seq<Byte>, capacity: int)
    requires
        is_slice(addr, bytes, capacity),
    ensures
        ({
            let arena = arena_in(addr, bytes, Header::spec_size(), capacity);
            let rest = bytes.skip(Header::spec_size() + capacity);
            let storage = storage_size(bytes.len() as int);
            &&& bytes == Header::image(arena.level) + arena.bytes + rest
            &&& holds_slice(addr, bytes)
            &&& storage == capacity + rest.len()
            &&& Header::spec_size() + storage == bytes.len()
            &&& arena_in(addr, bytes, Header::spec_size(), storage) == (Arena {
                bytes: arena.bytes + rest,
                ..arena
            })
            &&& capacity % Header::spec_align() == 0 ==> storage == capacity
        }),
{
    let align = Header::spec_align();
    let size = Header::spec_size() + capacity;
    let arena = arena_in(addr, bytes, Header::spec_size(), capacity);
    let rest = bytes.skip(size);
    Header::lemma_layout();
    lemma_slice(addr, bytes, capacity);
    Header::lemma_image_of_number(bytes.take(Header::spec_size()));
    crate::align::lemma_padding(size, align);
    assert(bytes =~= Header::image(arena.level) + arena.bytes + rest);
    crate::align::lemma_sum_of_multiples(bytes.len() as int, Header::spec_size(), align);
    assert(storage_size(bytes.len() as int) == capacity + rest.len());
    assert(bytes.subrange(Header::spec_size(), bytes.len() as int) =~= arena.bytes + rest);
    if capacity % align == 0 {
        crate::align::lemma_sum_of_multiples(Header::spec_size(), capacity, align);
    }
}

/// An allocator that was made of a region of `len` bytes, of which `offset` were skipped, occupies
/// no more than that region; and its capacity needs no padding.
pub proof fn law_region_holds_its_allocator(len: int, offset: int)
    requires
        0 <= offset,
        offset + Header::spec_size() <= len,
    ensures
        storage_size(len - offset) % Header::spec_align() == 0,
        slice_size(storage_size(len - offset)) == Header::spec_size() + storage_size(len - offset),
        slice_size(storage_size(len - offset)) <= len - offset,
{
    Header::lemma_layout();
    lemma_storage_size(len - offset);
    let size = Header::spec_size() + storage_size(len - offset);
    crate::align::lemma_sum_of_multiples(
        Header::spec_size(),
        storage_size(len - offset),
        Header::spec_align(),
    );
    crate::align::lemma_padding(size, Header::spec_align());
}

/// An allocator and the slice that it dereferences to have one size; and for a type that is not
/// more strictly aligned than `usize`, one layout.
pub proof fn law_dereferencing_keeps_the_layout<T>()
    ensures
        deref_is_applicable::<T>() ==> bump_size::<T>() == slice_size(
            vstd::layout::size_of::<T>() as int,
        ),
        vstd::layout::align_of::<T>() <= vstd::layout::align_of::<usize>() ==> {
            &&& deref_is_applicable::<T>()
            &&& bump_align::<T>() == Header::spec_align()
        },
{
    broadcast use {vstd::layout::align_properties, vstd::layout::align_nonzero};

    let align = vstd::layout::align_of::<T>() as int;
    let size = Header::spec_size() + vstd::layout::size_of::<T>();
    Header::lemma_layout();
    crate::align::lemma_padding(Header::spec_size(), align);
    if align <= Header::spec_align() {
        crate::align::lemma_pow2_divides(align, Header::spec_align());
        crate::align::lemma_multiple_of_divisor(Header::spec_size(), align, Header::spec_align());
    } else if deref_is_applicable::<T>() {
        crate::align::lemma_sum_of_multiples(
            Header::spec_size(),
            vstd::layout::size_of::<T>() as int,
            align,
        );
        crate::align::lemma_pow2_divides(Header::spec_align(), align);
        crate::align::lemma_multiple_of_divisor(size, Header::spec_align(), align);
        crate::align::lemma_padding(size, align);
        crate::align::lemma_padding(size, Header::spec_align());
    }
}

/// An allocator of which nothing is taken has room for one value of the type that it is made for,
/// right at the start of its storage.
pub proof fn law_storage_holds_its_type<T>(bump: Bump<T>)
    requires
        bump.wf(),
        bump@.level == 0,
        crate::layout::describes_layout(
            vstd::layout::size_of::<T>() as int,
            vstd::layout::align_of::<T>() as int,
        ),
        vstd::layout::align_of::<T>() <= usize::MAX,
    ensures
        bump@.request(Layout::of::<T>(), 0) == Ok::<Placement, Failure>(
            Placement { addr: bump@.base, level: bump@.capacity() },
        ),
{
    let align = vstd::layout::align_of::<T>() as int;
    bump.lemma_wf();
    Layout::lemma_of::<T>();
    crate::align::lemma_pow2_positive(align);
    crate::align::lemma_padding(bump@.base, align);
}

/// Values of one type fill the storage of an allocator one after the other, if it was made for as
/// many of them as fit in a `T`.
pub proof fn law_values_fill_the_allocator<T, V>(bump: Bump<T>, n: int, i: int)
    requires
        bump.wf(),
        bump@.level == 0,
        crate::layout::describes_layout(
            vstd::layout::size_of::<V>() as int,
            vstd::layout::align_of::<V>() as int,
        ),
        vstd::layout::align_of::<V>() <= usize::MAX,
        vstd::layout::size_of::<V>() > 0,
        vstd::layout::size_of::<T>() == n * vstd::layout::size_of::<V>(),
        vstd::layout::align_of::<T>() as int % vstd::layout::align_of::<V>() as int == 0,
        0 <= i <= n,
    ensures
        ({
            let item = Layout::of::<V>();
            let size = vstd::layout::size_of::<V>();
            let later = bump@.after_all(Seq::new(i as nat, |k: int| item));
            &&& later == bump@.at_level(i * size)
            &&& later.request(item, later.level) == if i < n {
                Ok::<Placement, Failure>(
                    Placement { addr: bump@.base + i * size, level: (i + 1) * size },
                )
            } else {
                Err::<Placement, Failure>(Failure::Exhausted)
            }
        }),
{
    broadcast use {vstd::layout::align_properties, vstd::layout::align_nonzero};

    let align = vstd::layout::align_of::<V>() as int;
    bump.lemma_wf();
    Layout::lemma_of::<V>();
    crate::align::lemma_pow2_positive(align);
    crate::align::lemma_multiple_of_divisor(
        bump@.base,
        align,
        vstd::layout::align_of::<T>() as int,
    );
    crate::arena::law_values_fill_the_storage(bump@, Layout::of::<V>(), n, i);
}

/// The storage in a region is the largest that fits behind the header: it is a multiple of the
/// alignment, and so is no larger number that leaves room for the header.
pub proof fn law_storage_is_the_largest_that_fits(len: int, n: int)
    requires
        len >= vstd::layout::size_of::<usize>(),
    ensures
        0 <= storage_size(len),
        storage_size(len) % vstd::layout::align_of::<usize>() as int == 0,
        vstd::layout::size_of::<usize>() + storage_size(len) <= len,
        len - vstd::layout::size_of::<usize>() - storage_size(len)
            < vstd::layout::align_of::<usize>(),
        n % vstd::layout::align_of::<usize>() as int == 0 && vstd::layout::size_of::<usize>() + n
            <= len ==> n <= storage_size(len),
{
    let align = Header::spec_align();
    let storage = storage_size(len);
    Header::lemma_layout();
    lemma_storage_size(len);
    vstd::arithmetic::div_mod::lemma_mod_bound(len - Header::spec_size(), align);
    if n % align == 0 && Header::spec_size() + n <= len && storage < n {
        crate::align::lemma_sum_of_multiples(n, storage, align);
        vstd::arithmetic::div_mod::lemma_small_mod((n - storage) as nat, align as nat);
    }
}

/// An allocator occupies the smallest multiple of its alignment that holds the header and the
/// storage.
pub proof fn law_slice_size_is_the_smallest_that_holds(size: int, n: int)
    ensures
        vstd::layout::size_of::<usize>() + size <= slice_size(size),
        slice_size(size) % vstd::layout::align_of::<usize>() as int == 0,
        n % vstd::layout::align_of::<usize>() as int == 0 && vstd::layout::size_of::<usize>() + size
            <= n ==> slice_size(size) <= n,
{
    Header::lemma_layout();
    crate::align::law_round_up_is_the_next_multiple(
        Header::spec_size() + size,
        Header::spec_align(),
        n,
    );
}

/// In a `Bump<T>` the storage begins at the first offset behind the header that is aligned for `T`,
/// the alignment is the larger one of the two, and the size is the smallest multiple of it that
/// holds both. It can be dereferenced exactly if a `T` can follow the header without a gap.
pub proof fn law_bump_is_a_header_and_a_value<T>(n: int)
    ensures
        ({
            let word = vstd::layout::size_of::<usize>() as int;
            let align = vstd::layout::align_of::<T>() as int;
            let most = bump_align::<T>();
            let end = storage_offset::<T>() + vstd::layout::size_of::<T>();
            &&& word <= storage_offset::<T>()
            &&& storage_offset::<T>() % align == 0
            &&& word <= n && n % align == 0 ==> storage_offset::<T>() <= n
            &&& align <= most && vstd::layout::align_of::<usize>() <= most
            &&& most == align || most == vstd::layout::align_of::<usize>()
            &&& end <= bump_size::<T>()
            &&& bump_size::<T>() % most == 0
            &&& end <= n && n % most == 0 ==> bump_size::<T>() <= n
            &&& deref_is_applicable::<T>() <==> word % align == 0
        }),
{
    broadcast use vstd::layout::align_nonzero;

    let align = vstd::layout::align_of::<T>() as int;
    let end = storage_offset::<T>() + vstd::layout::size_of::<T>();
    Header::lemma_layout();
    lemma_bump_layout::<T>();
    crate::align::law_round_up_is_the_next_multiple(Header::spec_size(), align, n);
    crate::align::law_round_up_is_the_next_multiple(
        Header::spec_size(),
        align,
        Header::spec_size(),
    );
    crate::align::law_round_up_is_the_next_multiple(end, bump_align::<T>(), n);
}

/// The header of a region is at its start and the storage at an offset: each byte of the storage is
/// the byte of the region at its address, and the level is what the header says.
pub proof fn law_region_has_header_and_storage(
    addr: int,
    bytes: Seq<Byte>,
    offset: int,
    capacity: int,
)
    requires
        vstd::layout::size_of::<usize>() <= offset,
        0 <= capacity,
        offset + capacity <= bytes.len(),
    ensures
        ({
            let arena = arena_in(addr, bytes, offset, capacity);
            &&& arena.base == addr + offset
            &&& arena.bytes.len() == capacity
            &&& forall|i: int|
                0 <= i < capacity ==> #[trigger] arena.bytes[i] == bytes[offset + i]
            &&& arena.level == Header::number(
                bytes.take(vstd::layout::size_of::<usize>() as int),
            )
        }),
{
}

/// Writing a header replaces the bytes at the start of a region with those of the number, and
/// leaves every other byte as it is.
pub proof fn law_writing_a_header_keeps_the_rest(bytes: Seq<Byte>, index: int)
    requires
        0 <= index <= usize::MAX,
        vstd::layout::size_of::<usize>() <= bytes.len(),
    ensures
        ({
            let word = vstd::layout::size_of::<usize>() as int;
            let after = with_header(bytes, index);
            &&& after.len() == bytes.len()
            &&& after.take(word) == Header::image(index)
            &&& forall|i: int| word <= i < bytes.len() ==> #[trigger] after[i] == bytes[i]
            &&& Header::number(after.take(word)) == index
            &&& Header::readable(after.take(word))
        }),
{
    let word = vstd::layout::size_of::<usize>() as int;
    Header::lemma_round_trip(index);
    assert(with_header(bytes, index).take(word) =~= Header::image(index));
}

/// A region can be that of an allocator exactly if it is aligned and of the right size, and its
/// header is initialised and counts no more bytes than there are. Nothing is asked of its contents.
pub proof fn law_regions_of_an_allocator(addr: int, bytes: Seq<Byte>, capacity: int)
    requires
        0 < addr,
        addr + bytes.len() <= usize::MAX,
        0 <= capacity,
        vstd::layout::size_of::<usize>() <= bytes.len(),
    ensures
        ({
            let word = vstd::layout::size_of::<usize>() as int;
            let header = bytes.take(word);
            let initialised = forall|i: int| 0 <= i < word ==> (#[trigger] bytes[i]) is Some;
            let aligned = addr % vstd::layout::align_of::<usize>() as int == 0;
            let level = Header::number(header);
            &&& is_slice(addr, bytes, capacity) <==> aligned && initialised && level <= capacity
                && bytes.len() == slice_size(capacity)
            &&& holds_slice(addr, bytes) <==> aligned && initialised && level <= storage_size(
                bytes.len() as int,
            )
            &&& has_header(bytes, capacity) <==> initialised && level <= capacity
        }),
{
    let word = vstd::layout::size_of::<usize>() as int;
    let header = bytes.take(word);
    if Header::readable(header) {
        assert forall|i: int| 0 <= i < word implies (#[trigger] bytes[i]) is Some by {
            assert(header[i] is Some);
        }
    }
}

/// A region can become a `Bump<T>` exactly if it has its size and its alignment.
pub proof fn law_regions_of_a_bump<T>(addr: int, bytes: Seq<Byte>)
    requires
        0 < addr,
        addr + bytes.len() <= usize::MAX,
    ensures
        has_room_for_bump::<T>(addr, bytes) <==> addr % bump_align::<T>() == 0 && bytes.len()
            == bump_size::<T>(),
{
}

/// What an allocator looks like is read off its memory: the storage of a `Bump<T>` is as large as a
/// `T`, and begins where a `T` behind the header begins.
pub proof fn law_bump_is_read_off_its_memory<T>(bump: Bump<T>, i: int)
    requires
        bump.wf(),
        0 <= i < vstd::layout::size_of::<T>(),
    ensures
        bump@.base == bump.spec_addr() + storage_offset::<T>(),
        bump@.bytes.len() == vstd::layout::size_of::<T>(),
        bump@.bytes[i] == bump.spec_bytes()[storage_offset::<T>() + i],
        bump@.level == Header::number(
            bump.spec_bytes().take(vstd::layout::size_of::<usize>() as int),
        ),
{
    lemma_bump_layout::<T>();
    bump.lemma_wf();
}

/// What an allocator looks like is read off its memory: the storage begins right behind the header.
pub proof fn law_slice_is_read_off_its_memory<'m>(slice: BumpSlice<'m>, i: int)
    requires
        slice.wf(),
        0 <= i < slice.capacity,
    ensures
        slice@.base == slice.mem.addr + vstd::layout::size_of::<usize>(),
        slice@.bytes.len() == slice.capacity,
        slice@.bytes[i] == old(slice.mem.bytes)@[vstd::layout::size_of::<usize>() + i],
        slice@.level == Header::number(
            old(slice.mem.bytes)@.take(vstd::layout::size_of::<usize>() as int),
        ),
{
    lemma_slice(slice.mem.addr as int, slice.mem.bytes@, slice.capacity as int);
}

/// Two states of one allocator have the same address and capacity, and the same bytes behind the
/// storage.
pub proof fn law_same_place_is_address_and_padding<'m>(
    one: BumpSlice<'m>,
    other: BumpSlice<'m>,
    i: int,
)
    requires
        one.wf(),
        other.wf(),
        one.same_place(&other),
        vstd::layout::size_of::<usize>() + one.capacity <= i < one.mem.bytes@.len(),
    ensures
        one.mem.addr == other.mem.addr,
        one.capacity == other.capacity,
        old(one.mem.bytes)@.len() == old(other.mem.bytes)@.len(),
        old(one.mem.bytes)@[i] == old(other.mem.bytes)@[i],
{
    let from = Header::spec_size() + one.capacity;
    assert(one.mem.bytes@[i] == one.mem.bytes@.skip(from)[i - from]);
    assert(other.mem.bytes@[i] == other.mem.bytes@.skip(from)[i - from]);
}

/// What an allocator that is only looked at, or owned, looks like is read off its memory as for one
/// that can be changed; and each of them can be used if its memory is that of an allocator.
pub proof fn law_all_slices_are_read_alike<'m>(
    slice: BumpSlice<'m>,
    shared: BumpRef<'m>,
    owned: SliceBox,
)
    requires
        slice.mem.addr == shared.addr == owned.spec_addr(),
        slice.mem.bytes@ == shared.bytes@,
        slice.mem.bytes@ == owned.spec_bytes(),
        slice.capacity == shared.capacity == owned.spec_capacity(),
    ensures
        slice@ == shared@,
        slice@ == owned@,
        slice.wf() == shared.wf(),
        slice.wf() == owned.wf(),
        slice.wf() == is_slice(
            slice.mem.addr as int,
            old(slice.mem.bytes)@,
            slice.capacity as int,
        ),
{
}

/// A region with the size and the alignment of a `Bump<T>` can be made into one; it is one if its
/// header counts no more bytes than a `T` has.
pub proof fn law_bump_and_its_place<T>(place: UninitBump<T>, bump: Bump<T>)
    ensures
        place.wf() == has_room_for_bump::<T>(place.spec_addr(), place.spec_bytes()),
        bump.wf() <==> has_room_for_bump::<T>(bump.spec_addr(), bump.spec_bytes()) && has_header(
            bump.spec_bytes(),
            vstd::layout::size_of::<T>() as int,
        ),
{
}

} // verus!
