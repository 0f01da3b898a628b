//! The allocators behind the interface of a general allocator: blocks are allocated, given back and
//! shrunk.
use crate::align::align_offset;
use crate::bump::{Bump, BumpSlice, BumpView};
use crate::layout::Layout;
use crate::ptr::{NonNull, NonNullSlice};
use crate::unsync;
use vstd::prelude::*;

verus! {

/// There is no memory for a request.
#[derive(Clone, Copy, Debug, PartialEq, Eq, Structural)]
pub struct AllocError;

/// What comes of asking an allocator for a block: the block has the size asked for, and there is
/// none if it does not fit.
pub open spec fn allocated(
    arena: crate::arena::Arena,
    layout: Layout,
    r: Result<NonNullSlice<u8>, AllocError>,
) -> bool {
    match arena.request(layout, arena.level) {
        Ok(placement) => r matches Ok(block) && block.spec_ptr().spec_addr() == placement.addr
            && block.spec_len() == layout.spec_size(),
        Err(_) => r is Err,
    }
}

/// What comes of shrinking a block: it keeps its place if that suits the new layout, else it moves
/// up to the first address that does; and there is none if the block has no room for that.
pub open spec fn shrunk(
    arena: crate::arena::Arena,
    later: crate::arena::Arena,
    ptr: NonNull<u8>,
    old_layout: Layout,
    new_layout: Layout,
    r: Result<NonNullSlice<u8>, AllocError>,
) -> bool {
    if arena.shrinks(ptr.spec_addr(), old_layout.spec_size(), new_layout) {
        &&& later == arena.shrunk(ptr.spec_addr(), new_layout)
        &&& r matches Ok(block)
        &&& block.spec_ptr().spec_addr() == crate::align::round_up(
            ptr.spec_addr(),
            new_layout.spec_align(),
        )
        &&& block.spec_len() == new_layout.spec_size()
    } else {
        &&& later == arena
        &&& r is Err
    }
}

/// Whether a block of a layout lies in the storage, and the new layout asks for no more bytes.
pub open spec fn can_shrink(
    arena: crate::arena::Arena,
    ptr: NonNull<u8>,
    old_layout: Layout,
    new_layout: Layout,
) -> bool {
    &&& arena.base <= ptr.spec_addr()
    &&& ptr.spec_addr() + old_layout.spec_size() <= arena.base + arena.capacity()
    &&& new_layout.spec_size() <= old_layout.spec_size()
}

impl<T> Bump<T> {
    /// Attempts to allocate a block of memory. Its size must not be zero.
    pub fn allocate(&mut self, layout: Layout) -> (r: Result<NonNullSlice<u8>, AllocError>)
        requires
            old(self).wf(),
            layout.spec_size() > 0,
        ensures
            final(self).wf(),
            final(self).spec_addr() == old(self).spec_addr(),
            ({
                let past = vstd::layout::size_of::<usize>() + vstd::layout::size_of::<T>() as int;
                final(self).spec_bytes().skip(past) == old(self).spec_bytes().skip(past)
            }),
            final(self)@ == old(self)@.after(layout, old(self)@.level),
            allocated(old(self)@, layout, r),
    {
        proof {
            self.lemma_wf();
        }
        let mut view: BumpView<'_> = self.as_view();
        view.allocate(layout)
    }

    /// Gives back a block. Its memory can only be used again after the allocator was reset.
    pub fn deallocate(&mut self, _ptr: NonNull<u8>, _layout: Layout)
        requires
            old(self).wf(),
        ensures
            *final(self) == *old(self),
    {
    }

    /// Makes a block fit a layout that asks for no more bytes than it has.
    pub fn shrink(
        &mut self,
        ptr: NonNull<u8>,
        old_layout: Layout,
        new_layout: Layout,
    ) -> (r: Result<NonNullSlice<u8>, AllocError>)
        requires
            old(self).wf(),
            can_shrink(old(self)@, ptr, old_layout, new_layout),
        ensures
            final(self).wf(),
            final(self).spec_addr() == old(self).spec_addr(),
            ({
                let past = vstd::layout::size_of::<usize>() + vstd::layout::size_of::<T>() as int;
                final(self).spec_bytes().skip(past) == old(self).spec_bytes().skip(past)
            }),
            shrunk(old(self)@, final(self)@, ptr, old_layout, new_layout, r),
    {
        proof {
            self.lemma_wf();
        }
        let mut view: BumpView<'_> = self.as_view();
        view.shrink(ptr, old_layout, new_layout)
    }
}

impl BumpSlice {
    /// Attempts to allocate a block of memory. Its size must not be zero.
    pub fn allocate(&mut self, layout: Layout) -> (r: Result<NonNullSlice<u8>, AllocError>)
        requires
            old(self).wf(),
            layout.spec_size() > 0,
        ensures
            final(self).wf(),
            final(self).spec_capacity() == old(self).spec_capacity(),
            final(self).spec_addr() == old(self).spec_addr(),
            ({
                let past = vstd::layout::size_of::<usize>() + old(self).spec_capacity();
                final(self).spec_bytes().skip(past) == old(self).spec_bytes().skip(past)
            }),
            final(self)@ == old(self)@.after(layout, old(self)@.level),
            allocated(old(self)@, layout, r),
    {
        let mut view: BumpView<'_> = self.as_view();
        view.allocate(layout)
    }

    /// Gives back a block. Its memory can only be used again after the allocator was reset.
    pub fn deallocate(&mut self, _ptr: NonNull<u8>, _layout: Layout)
        requires
            old(self).wf(),
        ensures
            *final(self) == *old(self),
    {
    }

    /// Makes a block fit a layout that asks for no more bytes than it has.
    pub fn shrink(
        &mut self,
        ptr: NonNull<u8>,
        old_layout: Layout,
        new_layout: Layout,
    ) -> (r: Result<NonNullSlice<u8>, AllocError>)
        requires
            old(self).wf(),
            can_shrink(old(self)@, ptr, old_layout, new_layout),
        ensures
            final(self).wf(),
            final(self).spec_capacity() == old(self).spec_capacity(),
            final(self).spec_addr() == old(self).spec_addr(),
            ({
                let past = vstd::layout::size_of::<usize>() + old(self).spec_capacity();
                final(self).spec_bytes().skip(past) == old(self).spec_bytes().skip(past)
            }),
            shrunk(old(self)@, final(self)@, ptr, old_layout, new_layout, r),
    {
        let mut view: BumpView<'_> = self.as_view();
        view.shrink(ptr, old_layout, new_layout)
    }
}

impl<'a> BumpView<'a> {
    /// Attempts to allocate a block of memory. Its size must not be zero.
    pub fn allocate(&mut self, layout: Layout) -> (r: Result<NonNullSlice<u8>, AllocError>)
        requires
            old(self).wf(),
            layout.spec_size() > 0,
        ensures
            final(self).wf(),
            final(self).slice.same_place(&old(self).slice),
            final(final(self).slice.mem.bytes)@ == final(old(self).slice.mem.bytes)@,
            final(self)@ == old(self)@.after(layout, old(self)@.level),
            allocated(old(self)@, layout, r),
    {
        let len: usize = layout.size();
        match self.get_layout(layout) {
            None => Err(AllocError),
            Some(allocation) => Ok(NonNullSlice::slice_from_raw_parts(allocation.ptr, len)),
        }
    }

    /// Gives back a block. Its memory can only be used again after the allocator was reset.
    pub fn deallocate(&mut self, _ptr: NonNull<u8>, _layout: Layout)
        requires
            old(self).wf(),
        ensures
            *final(self) == *old(self),
    {
    }

    /// Makes a block fit a layout that asks for no more bytes than it has.
    pub fn shrink(
        &mut self,
        ptr: NonNull<u8>,
        old_layout: Layout,
        new_layout: Layout,
    ) -> (r: Result<NonNullSlice<u8>, AllocError>)
        requires
            old(self).wf(),
            can_shrink(old(self)@, ptr, old_layout, new_layout),
        ensures
            final(self).wf(),
            final(self).slice.same_place(&old(self).slice),
            final(final(self).slice.mem.bytes)@ == final(old(self).slice.mem.bytes)@,
            shrunk(old(self)@, final(self)@, ptr, old_layout, new_layout, r),
    {
        shrink_in_place(&mut self.slice, ptr, old_layout, new_layout)
    }
}

impl<T> unsync::Bump<T> {
    /// Attempts to allocate a block of memory. Its size must not be zero.
    pub fn allocate(&mut self, layout: Layout) -> (r: Result<NonNullSlice<u8>, AllocError>)
        requires
            old(self).wf(),
            unsync::bump::deref_is_applicable::<T>(),
            layout.spec_size() > 0,
        ensures
            final(self).wf(),
            final(self).spec_addr() == old(self).spec_addr(),
            ({
                let past = vstd::layout::size_of::<usize>() + vstd::layout::size_of::<T>() as int;
                final(self).spec_bytes().skip(past) == old(self).spec_bytes().skip(past)
            }),
            final(self)@ == old(self)@.after(layout, old(self)@.level),
            allocated(old(self)@, layout, r),
    {
        let mut slice: unsync::BumpSlice<'_> = self.deref_mut();
        slice.allocate(layout)
    }

    /// Gives back a block. Its memory can only be used again after the allocator was reset.
    pub fn deallocate(&mut self, _ptr: NonNull<u8>, _layout: Layout)
        requires
            old(self).wf(),
        ensures
            *final(self) == *old(self),
    {
    }

    /// Makes a block fit a layout that asks for no more bytes than it has.
    pub fn shrink(
        &mut self,
        ptr: NonNull<u8>,
        old_layout: Layout,
        new_layout: Layout,
    ) -> (r: Result<NonNullSlice<u8>, AllocError>)
        requires
            old(self).wf(),
            unsync::bump::deref_is_applicable::<T>(),
            can_shrink(old(self)@, ptr, old_layout, new_layout),
        ensures
            final(self).wf(),
            final(self).spec_addr() == old(self).spec_addr(),
            ({
                let past = vstd::layout::size_of::<usize>() + vstd::layout::size_of::<T>() as int;
                final(self).spec_bytes().skip(past) == old(self).spec_bytes().skip(past)
            }),
            shrunk(old(self)@, final(self)@, ptr, old_layout, new_layout, r),
    {
        let mut slice: unsync::BumpSlice<'_> = self.deref_mut();
        slice.shrink(ptr, old_layout, new_layout)
    }
}

impl<'m> unsync::BumpSlice<'m> {
    /// Attempts to allocate a block of memory. Its size must not be zero.
    pub fn allocate(&mut self, layout: Layout) -> (r: Result<NonNullSlice<u8>, AllocError>)
        requires
            old(self).wf(),
            layout.spec_size() > 0,
        ensures
            final(self).wf(),
            final(self).same_place(&old(self)),
            final(final(self).mem.bytes)@ == final(old(self).mem.bytes)@,
            final(self)@ == old(self)@.after(layout, old(self)@.level),
            allocated(old(self)@, layout, r),
    {
        let len: usize = layout.size();
        match self.alloc_layout(layout) {
            None => Err(AllocError),
            Some(allocation) => Ok(NonNullSlice::slice_from_raw_parts(allocation, len)),
        }
    }

    /// Gives back a block. Its memory can only be used again after the allocator was reset.
    pub fn deallocate(&mut self, _ptr: NonNull<u8>, _layout: Layout)
        requires
            old(self).wf(),
        ensures
            *final(self) == *old(self),
    {
    }

    /// Makes a block fit a layout that asks for no more bytes than it has.
    pub fn shrink(
        &mut self,
        ptr: NonNull<u8>,
        old_layout: Layout,
        new_layout: Layout,
    ) -> (r: Result<NonNullSlice<u8>, AllocError>)
        requires
            old(self).wf(),
            can_shrink(old(self)@, ptr, old_layout, new_layout),
        ensures
            final(self).wf(),
            final(self).same_place(&old(self)),
            final(final(self).mem.bytes)@ == final(old(self).mem.bytes)@,
            shrunk(old(self)@, final(self)@, ptr, old_layout, new_layout, r),
    {
        shrink_in_place(self, ptr, old_layout, new_layout)
    }
}

/// Makes a block fit a layout without asking for memory.
///
/// The block is one of `slice` with the layout `old_layout`. Returns a pointer into the same
/// block, to which the contents have moved.
fn shrink_in_place<'m>(
    slice: &mut unsync::BumpSlice<'m>,
    ptr: NonNull<u8>,
    old_layout: Layout,
    new_layout: Layout,
) -> (r: Result<NonNullSlice<u8>, AllocError>)
    requires
        old(slice).wf(),
        can_shrink(old(slice)@, ptr, old_layout, new_layout),
    ensures
        final(slice).wf(),
        final(slice).same_place(&old(slice)),
        final(final(slice).mem.bytes)@ == final(old(slice).mem.bytes)@,
        shrunk(old(slice)@, final(slice)@, ptr, old_layout, new_layout, r),
{
    proof {
        use_type_invariant(&new_layout);
        new_layout.lemma_bounds();
        crate::align::lemma_padding(ptr.spec_addr(), new_layout.spec_align());
    }
    let len: usize = new_layout.size();

    let offset: usize = align_offset(ptr.addr(), new_layout.align());

    if offset > 0 {
        match old_layout.size().checked_sub(offset) {
            None => {
                // Won't fit in-place.
                return Err(AllocError);
            },
            Some(room) => {
                if room < len {
                    return Err(AllocError);
                }
            },
        }
        let dst: NonNull<u8> = NonNull::new(ptr.addr() + offset).unwrap();
        copy_up(slice, ptr, dst, len);
        Ok(NonNullSlice::slice_from_raw_parts(dst, len))
    } else {
        proof {
            crate::arena::law_shrinking_an_aligned_block_changes_nothing(
                slice@,
                ptr.spec_addr(),
                old_layout.spec_size(),
                new_layout,
            );
        }
        Ok(NonNullSlice::slice_from_raw_parts(ptr, len))
    }
}

/// Copies `len` bytes to a higher address. The two regions may overlap.
fn copy_up<'m>(slice: &mut unsync::BumpSlice<'m>, src: NonNull<u8>, dst: NonNull<u8>, len: usize)
    requires
        old(slice).wf(),
        old(slice)@.base <= src.spec_addr() < dst.spec_addr(),
        dst.spec_addr() + len <= old(slice)@.base + old(slice)@.capacity(),
    ensures
        final(slice).wf(),
        final(slice).same_place(&old(slice)),
        final(final(slice).mem.bytes)@ == final(old(slice).mem.bytes)@,
        final(slice)@ == old(slice)@.moved(
            src.spec_addr() - old(slice)@.base,
            dst.spec_addr() - old(slice)@.base,
            len as int,
        ),
{
    let ghost pre = slice@;
    let ghost from: int = src.spec_addr() - pre.base;
    let ghost to: int = dst.spec_addr() - pre.base;
    let mut rest: usize = len;
    assert(slice@.bytes =~= pre.moved(from + rest, to + rest, len - rest).bytes);
    while rest > 0
        invariant
            rest <= len,
            slice.wf(),
            slice.same_place(&old(slice)),
            final(slice.mem.bytes)@ == final(old(slice).mem.bytes)@,
            pre.wf(),
            from == src.spec_addr() - pre.base,
            to == dst.spec_addr() - pre.base,
            0 <= from < to,
            to + len <= pre.capacity(),
            slice@ == pre.moved(from + rest, to + rest, len - rest),
        decreases rest,
    {
        rest = rest - 1;
        let below: NonNull<u8> = NonNull::new(src.addr() + rest).unwrap();
        let above: NonNull<u8> = NonNull::new(dst.addr() + rest).unwrap();
        let byte: crate::mem::Byte = slice.read(below);
        slice.write(above, byte);
        assert(slice@.bytes =~= pre.moved(from + rest, to + rest, len - rest).bytes);
    }
}

/// Asking for a block gives one exactly if the storage has an aligned free address for it. The
/// block is at the first such address and has the size that was asked for.
pub proof fn law_allocation_is_decided_by_room(
    arena: crate::arena::Arena,
    layout: Layout,
    r: Result<NonNullSlice<u8>, AllocError>,
)
    requires
        layout.spec_align() > 0,
        0 <= arena.level <= usize::MAX,
        allocated(arena, layout, r),
    ensures
        r is Ok <==> exists|a: int|
            arena.base + arena.level <= a && #[trigger] (a % layout.spec_align()) == 0 && a
                + layout.spec_size() <= arena.base + arena.bytes.len(),
        r matches Ok(block) ==> {
            let addr = block.spec_ptr().spec_addr();
            &&& arena.base + arena.level <= addr
            &&& addr % layout.spec_align() == 0
            &&& addr + layout.spec_size() <= arena.base + arena.bytes.len()
            &&& block.spec_len() == layout.spec_size()
            &&& forall|a: int|
                arena.base + arena.level <= a && #[trigger] (a % layout.spec_align()) == 0 ==> addr
                    <= a
        },
{
    crate::arena::law_request_is_decided_by_room_and_level(arena, layout, arena.level);
}

/// A block can be made to fit any layout that asks for no more bytes than it has, wherever in the
/// storage it lies. That succeeds exactly if the block has room behind some aligned address. The
/// new block is at the first such address, has the new size, and begins with the bytes that the old
/// one began with; no other byte changes, nor does anything if there is no room.
pub proof fn law_shrink_is_decided_by_room(
    arena: crate::arena::Arena,
    later: crate::arena::Arena,
    ptr: NonNull<u8>,
    old_layout: Layout,
    new_layout: Layout,
    r: Result<NonNullSlice<u8>, AllocError>,
)
    requires
        new_layout.spec_align() > 0,
        0 <= new_layout.spec_size() <= old_layout.spec_size(),
        arena.base <= ptr.spec_addr(),
        ptr.spec_addr() + old_layout.spec_size() <= arena.base + arena.bytes.len(),
        shrunk(arena, later, ptr, old_layout, new_layout, r),
    ensures
        can_shrink(arena, ptr, old_layout, new_layout),
        r is Ok <==> exists|a: int|
            ptr.spec_addr() <= a && #[trigger] (a % new_layout.spec_align()) == 0 && a
                + new_layout.spec_size() <= ptr.spec_addr() + old_layout.spec_size(),
        r is Err ==> later == arena,
        r matches Ok(block) ==> {
            let new = block.spec_ptr().spec_addr();
            &&& ptr.spec_addr() <= new
            &&& new % new_layout.spec_align() == 0
            &&& new + new_layout.spec_size() <= ptr.spec_addr() + old_layout.spec_size()
            &&& block.spec_len() == new_layout.spec_size()
            &&& forall|a: int|
                ptr.spec_addr() <= a && #[trigger] (a % new_layout.spec_align()) == 0 ==> new <= a
            &&& later.base == arena.base
            &&& later.level == arena.level
            &&& later.bytes.len() == arena.bytes.len()
            &&& forall|i: int|
                0 <= i < arena.bytes.len() ==> #[trigger] later.bytes[i] == if new <= arena.base + i
                    < new + new_layout.spec_size() {
                    arena.bytes[i - new + ptr.spec_addr()]
                } else {
                    arena.bytes[i]
                }
        },
{
    let addr = ptr.spec_addr();
    let align = new_layout.spec_align();
    let new = crate::align::round_up(addr, align);
    crate::arena::law_shrinking_is_decided_by_room(
        arena,
        addr,
        old_layout.spec_size(),
        new_layout,
    );
    assert forall|a: int| addr <= a && #[trigger] (a % align) == 0 implies new <= a by {
        crate::align::law_round_up_is_the_next_multiple(addr, align, a);
    }
    crate::align::law_round_up_is_the_next_multiple(addr, align, new);
    assert(new % align == 0);
}

/// Only a block of the storage, and only a layout that asks for no more bytes, can be shrunk to.
pub proof fn law_what_can_be_shrunk(
    arena: crate::arena::Arena,
    ptr: NonNull<u8>,
    old_layout: Layout,
    new_layout: Layout,
)
    ensures
        can_shrink(arena, ptr, old_layout, new_layout) <==> {
            &&& arena.base <= ptr.spec_addr()
            &&& ptr.spec_addr() + old_layout.spec_size() <= arena.base + arena.bytes.len()
            &&& new_layout.spec_size() <= old_layout.spec_size()
        },
{
}

} // verus!
