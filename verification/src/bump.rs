//! What every bump allocator hands out, and the allocators that are used through a view.
use crate::arena::Arena;
use crate::layout::Layout;
use crate::mem::Byte;
use crate::ptr::NonNull;
use crate::unsync;
use alloc_traits::AllocTime;
use core::marker::PhantomData;
use vstd::prelude::*;

verus! {

/// The number of bytes of an allocator that are taken.
#[derive(Clone, Copy, Debug, PartialEq, Eq, Structural)]
pub struct Level(pub usize);

/// Why an allocation did not take place.
#[derive(Clone, Copy, Debug, PartialEq, Eq, Structural)]
pub enum Failure {
    /// There is not enough room left.
    Exhausted,
    /// The allocator is not at the level that the caller expected.
    Mismatch {
        /// The level that the allocator is at.
        observed: Level,
    },
}

/// The lifetime that `alloc_traits` marks an allocation with.
#[verifier::external_type_specification]
#[verifier::external_body]
pub struct ExAllocTime<'lt>(AllocTime<'lt>);

/// Calls `AllocTime::default` of `alloc_traits`, which makes the marker of a lifetime.
///
/// The marker holds no data, so that nothing is claimed of it.
#[verifier::external_body]
pub(crate) fn alloc_time<'lt>() -> AllocTime<'lt> {
    AllocTime::default()
}

/// Space for one value of type `T`, which is not initialised.
pub struct Allocation<'a, T> {
    /// Where the space is.
    pub ptr: NonNull<T>,
    /// How long the space can be used.
    pub lifetime: AllocTime<'a>,
    /// The level of the allocator after the allocation.
    pub level: Level,
}

/// A bump allocator whose storage capacity and alignment is given by `T`.
///
/// It is used through its view.
pub struct Bump<T> {
    inner: unsync::SliceBox,
    marker: PhantomData<T>,
}

/// A bump allocator of any capacity.
///
/// It is used through its view.
pub struct BumpSlice {
    inner: unsync::SliceBox,
}

/// A bump allocator, borrowed for allocation.
pub struct BumpView<'a> {
    /// The allocator.
    pub slice: unsync::BumpSlice<'a>,
}

impl<T> View for Bump<T> {
    type V = Arena;

    open spec fn view(&self) -> Arena {
        unsync::bump::arena_in(
            self.spec_addr(),
            self.spec_bytes(),
            unsync::header::Header::spec_size(),
            vstd::layout::size_of::<T>() as int,
        )
    }
}

impl View for BumpSlice {
    type V = Arena;

    open spec fn view(&self) -> Arena {
        unsync::bump::arena_in(
            self.spec_addr(),
            self.spec_bytes(),
            unsync::header::Header::spec_size(),
            self.spec_capacity(),
        )
    }
}

impl<'a> View for BumpView<'a> {
    type V = Arena;

    open spec fn view(&self) -> Arena {
        self.slice@
    }
}

impl<T> Bump<T> {
    /// The address of the allocator.
    pub closed spec fn spec_addr(&self) -> int {
        self.inner.spec_addr()
    }

    /// The memory of the allocator: its header, its storage, and the padding behind it.
    pub closed spec fn spec_bytes(&self) -> Seq<Byte> {
        self.inner.spec_bytes()
    }

    /// The memory is that of an allocator whose storage has the size and the alignment of `T`.
    pub closed spec fn wf(&self) -> bool {
        &&& self.inner.wf()
        &&& self.inner.spec_capacity() == vstd::layout::size_of::<T>()
        &&& self@.base % vstd::layout::align_of::<T>() as int == 0
    }

    /// The storage has an address throughout, and is aligned for `T`.
    pub proof fn lemma_wf(&self)
        requires
            self.wf(),
        ensures
            unsync::bump::is_slice(
                self.spec_addr(),
                self.spec_bytes(),
                vstd::layout::size_of::<T>() as int,
            ),
            self@.wf(),
            self@.base % vstd::layout::align_of::<T>() as int == 0,
    {
        unsync::bump::lemma_slice(
            self.spec_addr(),
            self.spec_bytes(),
            vstd::layout::size_of::<T>() as int,
        );
    }

    /// Create an allocator with uninitialized memory.
    pub fn uninit() -> (r: Self)
        ensures
            r.wf(),
            r@.level == 0,
            r@.bytes == crate::mem::uninit_bytes(vstd::layout::size_of::<T>() as int),
    {
        let item: Layout = Layout::new::<T>();
        proof {
            item.lemma_bounds();
            unsync::bump::lemma_bump_is_addressable::<T>();
        }
        let inner: unsync::SliceBox = unsync::SliceBox::aligned(item.size(), item.align());
        proof {
            unsync::bump::lemma_slice(inner.spec_addr(), inner.spec_bytes(), inner.spec_capacity());
        }
        Bump { inner, marker: PhantomData }
    }

    /// Borrows the allocator.
    pub fn as_view(&mut self) -> (view: BumpView<'_>)
        requires
            old(self).wf(),
        ensures
            view.wf(),
            view@ == old(self)@,
            view.slice.mem.addr == old(self).spec_addr(),
            view.slice.mem.bytes@ == old(self).spec_bytes(),
            final(self).spec_addr() == old(self).spec_addr(),
            final(self).spec_bytes() == final(view.slice.mem.bytes)@,
            view.slice.capacity == vstd::layout::size_of::<T>(),
            unsync::bump::is_slice(
                old(self).spec_addr(),
                final(view.slice.mem.bytes)@,
                vstd::layout::size_of::<T>() as int,
            ) ==> final(self).wf(),
    {
        BumpView { slice: self.inner.deref_mut() }
    }
}

impl BumpSlice {
    /// The address of the allocator.
    pub closed spec fn spec_addr(&self) -> int {
        self.inner.spec_addr()
    }

    /// The memory of the allocator: its header, its storage, and the padding behind it.
    pub closed spec fn spec_bytes(&self) -> Seq<Byte> {
        self.inner.spec_bytes()
    }

    /// How many bytes the storage has.
    pub closed spec fn spec_capacity(&self) -> int {
        self.inner.spec_capacity()
    }

    /// The memory is that of an allocator.
    pub open spec fn wf(&self) -> bool {
        unsync::bump::is_slice(self.spec_addr(), self.spec_bytes(), self.spec_capacity())
    }

    /// An allocator that goes on from the state of another one.
    pub fn new(inner: unsync::SliceBox) -> (r: Self)
        requires
            inner.wf(),
        ensures
            r.wf(),
            r@ == inner@,
            r.spec_addr() == inner.spec_addr(),
            r.spec_bytes() == inner.spec_bytes(),
            r.spec_capacity() == inner.spec_capacity(),
    {
        BumpSlice { inner }
    }

    /// Borrows the allocator.
    pub fn as_view(&mut self) -> (view: BumpView<'_>)
        requires
            old(self).wf(),
        ensures
            view.wf(),
            view@ == old(self)@,
            view.slice.mem.addr == old(self).spec_addr(),
            view.slice.mem.bytes@ == old(self).spec_bytes(),
            final(self).spec_addr() == old(self).spec_addr(),
            final(self).spec_bytes() == final(view.slice.mem.bytes)@,
            view.slice.capacity == old(self).spec_capacity(),
            final(self).spec_capacity() == old(self).spec_capacity(),
    {
        BumpView { slice: self.inner.deref_mut() }
    }
}

impl<'a> BumpView<'a> {
    /// The allocator that is borrowed is one that can be used.
    pub open spec fn wf(&self) -> bool {
        self.slice.wf()
    }

    /// Allocate a region of memory.
    ///
    /// There is none if the region does not fit behind what is already taken. The size of the
    /// region must not be zero.
    pub fn get_layout(&mut self, layout: Layout) -> (r: Option<Allocation<'a, u8>>)
        requires
            old(self).wf(),
            layout.spec_size() > 0,
        ensures
            final(self).wf(),
            final(self).slice.same_place(&old(self).slice),
            final(final(self).slice.mem.bytes)@ == final(old(self).slice.mem.bytes)@,
            final(self)@ == old(self)@.after(layout, old(self)@.level),
            match old(self)@.request(layout, old(self)@.level) {
                Ok(placement) => r matches Some(a) && a.ptr.spec_addr() == placement.addr
                    && a.level.0 == placement.level,
                Err(_) => r is None,
            },
    {
        self.slice.try_alloc(layout)
    }
}

/// What a viewed allocator looks like is read off its memory: the storage begins right behind the
/// header, is as large as a `T`, and is aligned for one.
pub proof fn law_viewed_bump_is_read_off_its_memory<T>(bump: Bump<T>)
    requires
        bump.wf(),
    ensures
        bump@.base == bump.spec_addr() + vstd::layout::size_of::<usize>(),
        bump@.base % vstd::layout::align_of::<T>() as int == 0,
        bump@.bytes.len() == vstd::layout::size_of::<T>(),
        forall|i: int|
            0 <= i < vstd::layout::size_of::<T>() ==> #[trigger] bump@.bytes[i]
                == bump.spec_bytes()[vstd::layout::size_of::<usize>() + i],
        bump@.level == unsync::header::Header::number(
            bump.spec_bytes().take(vstd::layout::size_of::<usize>() as int),
        ),
{
    bump.lemma_wf();
    unsync::bump::lemma_slice(
        bump.spec_addr(),
        bump.spec_bytes(),
        vstd::layout::size_of::<T>() as int,
    );
}

/// What a viewed allocator looks like is read off its memory: the storage begins right behind the
/// header. A view looks like the allocator that it borrows.
pub proof fn law_viewed_slice_is_read_off_its_memory<'a>(slice: BumpSlice, view: BumpView<'a>)
    requires
        slice.wf(),
    ensures
        slice@.base == slice.spec_addr() + vstd::layout::size_of::<usize>(),
        slice@.bytes.len() == slice.spec_capacity(),
        forall|i: int|
            0 <= i < slice.spec_capacity() ==> #[trigger] slice@.bytes[i] == slice.spec_bytes()[
                vstd::layout::size_of::<usize>() + i
            ],
        slice@.level == unsync::header::Header::number(
            slice.spec_bytes().take(vstd::layout::size_of::<usize>() as int),
        ),
        view@ == view.slice@,
        view.wf() == view.slice.wf(),
{
    unsync::bump::lemma_slice(slice.spec_addr(), slice.spec_bytes(), slice.spec_capacity());
}

} // verus!
