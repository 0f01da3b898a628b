use static_alloc::bump::{Failure, Level};
use static_alloc::layout::{Layout, LayoutError};
use static_alloc::mem::{Byte, Mem, MemSlice};
use static_alloc::ptr::NonNull;
use static_alloc::unsync::{Bump, BumpRef, BumpSlice, UninitBump};

const WORD: usize = core::mem::size_of::<usize>();

fn layout(size: usize, align: usize) -> Layout {
    Layout::from_size_align(size, align).unwrap()
}

#[test]
fn mem_bump_derefs_correctly() {
    let bump = Bump::<usize>::zeroed();
    let mem: BumpRef = bump.deref();
    assert_eq!(
        Bump::<usize>::layout().unwrap().size(),
        BumpSlice::layout_from_size(mem.capacity()).unwrap().size()
    );
}

#[test]
fn dereferencing_keeps_size_and_alignment() {
    assert_eq!(Bump::<usize>::layout(), BumpSlice::layout_from_size(WORD));
    assert_eq!(Bump::<[u8; 5]>::layout(), BumpSlice::layout_from_size(5));
    assert_eq!(Bump::<[u16; 64]>::layout(), BumpSlice::layout_from_size(128));
    assert_eq!(Bump::<[u8; 5]>::layout().unwrap().size(), WORD + 8);
    assert_eq!(Bump::<[u8; 5]>::layout().unwrap().align(), core::mem::align_of::<usize>());
}

/// Storage that is more strictly aligned than `usize`.
type HighlyAligned = [u128; 8];

#[test]
fn highly_aligned_storage_cannot_be_dereferenced() {
    assert!(!Bump::<HighlyAligned>::is_deref_applicable());
    assert!(Bump::<[u64; 64]>::is_deref_applicable() || WORD < 8);
    assert!(Bump::<[u8; 3]>::is_deref_applicable());
    let align = core::mem::align_of::<HighlyAligned>();
    assert_eq!(Bump::<HighlyAligned>::layout().unwrap().size(), align + 128);
    assert_eq!(Bump::<HighlyAligned>::layout().unwrap().align(), align);
    let _ = Bump::<HighlyAligned>::uninit();
}

#[test]
fn capacity_is_the_size_of_the_type() {
    assert_eq!(Bump::<[u8; 37]>::uninit().deref().capacity(), 37);
    assert_eq!(Bump::<[u32; 4]>::zeroed().deref().capacity(), 16);
    assert_eq!(Bump::<()>::uninit().deref().capacity(), 0);
    assert_eq!(BumpSlice::new(100).deref().capacity(), 100);
}

#[test]
fn scratch_space_is_reused_after_reset() {
    let mut stack_buffer: Bump<[usize; 64]> = Bump::uninit();
    let mut slice = stack_buffer.deref_mut();
    let first = slice.get::<usize>().unwrap().ptr.addr();
    let second = slice.get::<u64>().unwrap().ptr.addr();
    assert_eq!(first, slice.data_ptr().addr());
    assert!(first + WORD <= second);
    slice.reset();
    let mut slice = stack_buffer.deref_mut();
    assert_eq!(slice.level(), Level(0));
    assert_eq!(slice.get::<usize>().unwrap().ptr.addr(), first);
}

#[test]
fn blocks_are_aligned_and_disjoint() {
    let mut mem = Mem { addr: 1 << 20, bytes: vec![None; 512] };
    let mut slice = BumpSlice::from_mem(mem.as_slice()).unwrap();
    let end = slice.data_ptr().addr() + slice.capacity();
    let mut above = slice.data_ptr().addr();
    for (size, align) in [(1, 1), (3, 64), (2, 2), (17, 8), (5, 128), (1, 1), (40, 16)] {
        let addr = slice.alloc_layout(layout(size, align)).unwrap().addr();
        assert_eq!(addr % align, 0);
        assert!(above <= addr);
        above = addr + size;
        assert_eq!(slice.level(), Level(above - slice.data_ptr().addr()));
    }
    assert!(above <= end);
}

#[test]
fn exact_addresses() {
    let mut mem = Mem { addr: 4096, bytes: vec![None; 200] };
    let mut slice = BumpSlice::from_mem(mem.as_slice()).unwrap();
    let base = 4096 + WORD;
    assert_eq!(slice.data_ptr().addr(), base);
    assert_eq!(slice.alloc_layout(layout(1, 1)).unwrap().addr(), base);
    assert_eq!(slice.level(), Level(1));
    assert_eq!(slice.alloc_layout(layout(4, 64)).unwrap().addr(), 4096 + 64);
    assert_eq!(slice.level(), Level(4096 + 64 + 4 - base));
    assert_eq!(slice.alloc_layout(layout(2, 4)).unwrap().addr(), 4096 + 68);
}

#[test]
fn exhausted() {
    let mut bump = Bump::<[u8; 16]>::uninit();
    let mut slice = bump.deref_mut();
    assert!(slice.alloc_layout(layout(17, 1)).is_none());
    assert!(slice.alloc_layout(layout(9, 1)).is_some());
    assert!(slice.alloc_layout(layout(8, 1)).is_none());
    assert!(slice.get::<u64>().is_none() || core::mem::align_of::<u64>() < 8);
    assert!(matches!(
        slice.alloc_at(layout(8, 1), Level(9)),
        Err(Failure::Exhausted)
    ));
    assert!(matches!(slice.bump_box::<[u8; 8]>(), Err(Failure::Exhausted)));
    assert_eq!(slice.level(), Level(9));
    assert!(slice.alloc_layout(layout(7, 1)).is_some());
    assert_eq!(slice.level(), Level(16));
    assert!(slice.alloc_layout(layout(1, 1)).is_none());
}

#[test]
fn padding_beyond_the_end_is_exhausted() {
    let mut mem = Mem { addr: 4096, bytes: vec![None; WORD + 16] };
    let mut slice = BumpSlice::from_mem(mem.as_slice()).unwrap();
    assert_eq!(slice.capacity(), 16);
    assert!(slice.alloc_layout(layout(1, 4096)).is_none());
    assert_eq!(slice.level(), Level(0));
}

#[test]
fn mismatch_names_the_level() {
    let mut bump = Bump::<[u8; 16]>::uninit();
    let mut slice = bump.deref_mut();
    let start = slice.level();
    assert!(slice.alloc_at(layout(4, 1), start).is_ok());
    assert!(matches!(
        slice.alloc_at(layout(4, 1), start),
        Err(Failure::Mismatch { observed: Level(4) })
    ));
    assert!(matches!(
        slice.get_at::<u32>(Level(8)),
        Err(Failure::Mismatch { observed: Level(4) })
    ));
    // There is no room at the expected level, whatever the level is.
    assert!(matches!(slice.alloc_at(layout(17, 1), start), Err(Failure::Exhausted)));
    assert_eq!(slice.level(), Level(4));
}

#[test]
fn expected_level_keeps_blocks_together() {
    let mut bump = Bump::<[u32; 8]>::uninit();
    let mut slice = bump.deref_mut();
    let first = slice.get::<u32>().unwrap();
    let second = slice.get_at::<u32>(first.level).unwrap();
    assert_eq!(second.ptr.addr(), first.ptr.addr() + 4);
    assert_eq!(second.level, Level(8));
    assert!(slice.get_at::<u32>(first.level).is_err());
}

#[test]
fn reacquired_allocation() {
    let mut mem = Mem { addr: 4096, bytes: vec![Some(0); 128] };
    let mut alloc = BumpSlice::from_mem(mem.as_slice()).unwrap();
    let level = alloc.level();
    let allocation = alloc.get_at::<usize>(level).unwrap();
    let address = allocation.ptr.addr();
    let other = alloc.bump_box::<usize>().unwrap();

    let renewed = alloc.get_unchecked::<usize>(level);
    assert_eq!(address, renewed.ptr.addr());
    assert_eq!(renewed.level, level);
    assert_eq!(other.as_ptr().addr(), address + WORD);
    assert_eq!(other.len(), 1);
}

#[test]
fn arrays() {
    let mut bump = Bump::<[u64; 8]>::uninit();
    let mut slice = bump.deref_mut();
    let base = slice.data_ptr().addr();
    let array = slice.bump_array::<u16>(5).unwrap();
    assert_eq!(array.as_ptr().addr(), base);
    assert_eq!(array.len(), 5);
    assert_eq!(slice.level(), Level(10));
    assert!(matches!(slice.bump_array::<u64>(8), Err(Failure::Exhausted)));
    assert!(matches!(slice.bump_array::<u64>(usize::MAX), Err(Failure::Exhausted)));
    assert_eq!(slice.level(), Level(10));
    let one = slice.bump_box::<u32>().unwrap();
    assert_eq!(one.as_ptr().addr(), base + 12);
}

#[test]
fn zeroed_storage_gives_zeroed_blocks() {
    let mut bump = Bump::<[u8; 24]>::zeroed();
    let mut slice = bump.deref_mut();
    for size in [1, 5, 18] {
        let ptr = slice.alloc_layout(layout(size, 1)).unwrap();
        for i in 0..size {
            assert_eq!(slice.read(NonNull::new(ptr.addr() + i).unwrap()), Some(0));
        }
    }
    let mut bump = Bump::<[u8; 24]>::uninit();
    let ptr = bump.deref_mut().alloc_layout(layout(1, 1)).unwrap();
    assert_eq!(bump.deref().read(ptr), None);
    bump.deref_mut().write(ptr, Some(9));
    assert_eq!(bump.deref().read(ptr), Some(9));
}

#[test]
fn blocks_are_zeroed_while_earlier_ones_are_used() {
    let mut bump = Bump::<[u64; 4]>::zeroed();
    let mut slice = bump.deref_mut();
    let first = slice.alloc_layout(layout(8, 8)).unwrap();
    for i in 0..8 {
        slice.write(NonNull::new(first.addr() + i).unwrap(), Some(0xff));
    }
    slice.shrink(first, layout(8, 8), layout(4, 4)).unwrap();
    let second = slice.alloc_layout(layout(24, 1)).unwrap();
    for i in 0..24 {
        assert_eq!(slice.read(NonNull::new(second.addr() + i).unwrap()), Some(0));
    }
}

#[test]
fn values_fill_the_storage() {
    let mut bump = Bump::<[u16; 5]>::uninit();
    let mut slice = bump.deref_mut();
    let base = slice.data_ptr().addr();
    for i in 0..5 {
        let value = slice.get::<u16>().unwrap();
        assert_eq!(value.ptr.addr(), base + 2 * i);
        assert_eq!(value.level, Level(2 * (i + 1)));
    }
    assert!(slice.get::<u16>().is_none());
    assert_eq!(slice.level(), Level(10));
}

#[test]
fn from_maybe_uninit_fills_in_only_the_header() {
    let size = Bump::<[u8; 4]>::layout().unwrap().size();
    let mut bytes: Vec<Byte> = vec![Some(1); size];
    bytes[WORD + 1] = None;
    let mut expected = vec![Some(0); WORD];
    expected.extend_from_slice(&bytes[WORD..]);
    let mut data = UninitBump::<[u8; 4]>::new(Mem { addr: 64, bytes });

    let bump = Bump::from_maybe_uninit(&mut data);
    let slice = bump.deref();
    assert_eq!(slice.level(), Level(0));
    assert_eq!(slice.capacity(), 4);
    assert_eq!(slice.data_ptr().addr(), 64 + WORD);
    let read = |i: usize| slice.read(NonNull::new(64 + WORD + i).unwrap());
    assert_eq!([read(0), read(1), read(2), read(3)], [Some(1), None, Some(1), Some(1)]);
    bump.deref_mut().write(NonNull::new(64 + WORD).unwrap(), Some(9));

    expected[WORD] = Some(9);
    let mem = data.into_mem();
    assert_eq!(mem.addr, 64);
    assert_eq!(mem.bytes, expected);
}

#[test]
fn from_mem_skips_to_an_aligned_address() {
    let align = core::mem::align_of::<usize>();
    let bytes: Vec<Byte> = (0..3 + WORD as u8 + 21).map(Some).collect();
    let mut expected = bytes.clone();
    let mut mem = Mem { addr: 8 * 512 - 3, bytes };
    let mut slice = BumpSlice::from_mem(mem.as_slice()).unwrap();
    assert_eq!(slice.data_ptr().addr(), 8 * 512 + WORD);
    assert_eq!(slice.capacity(), 21 - 21 % align);
    assert_eq!(slice.read(slice.data_ptr()), Some(3 + WORD as u8));
    assert_eq!(slice.level(), Level(0));
    let ptr = slice.alloc_layout(layout(5, 1)).unwrap();
    slice.write(ptr, Some(200));

    // Only the header and the storage have changed.
    for (i, byte) in 5usize.to_ne_bytes().into_iter().enumerate() {
        expected[3 + i] = Some(byte);
    }
    expected[3 + WORD] = Some(200);
    assert_eq!(mem.bytes, expected);
}

#[test]
fn from_mem_needs_room_for_the_header() {
    let mut mem = Mem { addr: 4096, bytes: vec![Some(5); WORD - 1] };
    assert!(BumpSlice::from_mem(mem.as_slice()).is_err());
    assert_eq!(mem.bytes, vec![Some(5); WORD - 1]);
    let mut mem = Mem { addr: 4097, bytes: vec![] };
    assert!(BumpSlice::from_mem(mem.as_slice()).is_err());
    let mut mem = Mem { addr: 4096, bytes: vec![None; WORD] };
    assert_eq!(BumpSlice::from_mem(mem.as_slice()).unwrap().capacity(), 0);
}

#[test]
fn memory_holds_the_allocator() {
    let mut backing = Mem { addr: 4096 - 5, bytes: vec![Some(0); 128] };
    let mut alloc = BumpSlice::from_mem(backing.as_slice()).unwrap();
    let ptr = alloc.alloc_layout(layout(70, 1)).unwrap();
    alloc.write(ptr, Some(77));
    let capacity = alloc.capacity();

    let memory = BumpSlice::into_mem(alloc);
    assert!(memory.bytes.len() <= 128, "Not guaranteed to use all memory");
    assert_eq!(memory.addr, 4096);
    assert_eq!(memory.bytes.len(), capacity + WORD);
    let header: Vec<Byte> = 70usize.to_ne_bytes().into_iter().map(Some).collect();
    assert_eq!(memory.bytes[..WORD], header);

    let mut alloc = BumpSlice::from_mem_unchecked(memory);
    assert_eq!(alloc.capacity(), capacity);
    assert_eq!(alloc.level(), Level(70));
    assert_eq!(alloc.read(ptr), Some(77));
    assert_eq!(alloc.alloc_layout(layout(1, 1)).unwrap().addr(), ptr.addr() + 70);

    // The region is there again when the allocator is not used any more.
    assert_eq!(backing.bytes.len(), 128);
    assert_eq!(backing.bytes[5 + WORD], Some(77));
    let header: Vec<Byte> = 71usize.to_ne_bytes().into_iter().map(Some).collect();
    assert_eq!(backing.bytes[5..5 + WORD], header);
}

#[test]
fn memory_includes_the_padding() {
    let mut owned = BumpSlice::new(300);
    let mut slice = owned.deref_mut();
    slice.alloc_layout(layout(300, 1)).unwrap();
    let memory = BumpSlice::into_mem(slice);
    let size = BumpSlice::layout_from_size(300).unwrap().size();
    assert_eq!(memory.bytes.len(), size);
    let header: Vec<Byte> = 300usize.to_ne_bytes().into_iter().map(Some).collect();
    assert_eq!(memory.bytes[..WORD], header);
    let slice = BumpSlice::from_mem_unchecked(memory);
    assert_eq!(slice.level(), Level(300));
    assert_eq!(slice.capacity(), size - WORD);
    assert_eq!(owned.deref().level(), Level(300));
    assert_eq!(owned.deref().capacity(), 300);
}

#[test]
fn allocators_that_exist_together_do_not_share_memory() {
    let one = Bump::<[u64; 16]>::uninit();
    let two = Bump::<[u64; 16]>::uninit();
    let three = BumpSlice::new(128);
    let mut starts: Vec<usize> =
        vec![one.deref(), two.deref(), three.deref()].iter().map(|b| b.data_ptr().addr()).collect();
    starts.sort();
    assert!(starts[0] + 128 <= starts[1]);
    assert!(starts[1] + 128 <= starts[2]);
    for start in starts {
        assert_eq!(start % core::mem::align_of::<u64>(), 0);
        assert_eq!(start % core::mem::align_of::<usize>(), 0);
    }
}

#[test]
fn layouts() {
    assert!(matches!(Layout::from_size_align(1, 3), Err(LayoutError)));
    assert!(Layout::from_size_align(1, 0).is_err());
    assert!(Layout::from_size_align(isize::MAX as usize, 2).is_err());
    assert!(Layout::from_size_align(isize::MAX as usize, 1).is_ok());
    assert_eq!(layout(12, 8).pad_to_align(), layout(16, 8));
    assert_eq!(layout(5, 1).extend(layout(8, 4)), Ok((layout(16, 4), 8)));
    assert_eq!(layout(8, 8).extend(layout(3, 1)), Ok((layout(11, 8), 8)));
    assert!(layout(8, 8).extend(layout(isize::MAX as usize, 1)).is_err());
    assert_eq!(Layout::new::<u32>(), layout(4, core::mem::align_of::<u32>()));
    assert_eq!(Layout::array::<u16>(3).unwrap().size(), 6);
    assert!(Layout::array::<u16>(isize::MAX as usize).is_err());
    assert_eq!(Layout::array::<()>(usize::MAX).unwrap().size(), 0);
    assert_eq!(BumpSlice::header_layout(), Layout::new::<usize>());
    assert_eq!(BumpSlice::data_layout(7), Ok(layout(7, 1)));
    assert!(BumpSlice::data_layout(usize::MAX).is_err());
    assert!(BumpSlice::layout_from_size(isize::MAX as usize - 3).is_err());
}

#[test]
fn pointers() {
    assert!(NonNull::<u8>::new(0).is_none());
    let ptr = NonNull::<u8>::new(12).unwrap();
    assert_eq!(ptr.cast::<u32>().addr(), 12);
}

#[test]
fn storage_holds_its_type() {
    let mut slab: Bump<[core::cell::Ref<'static, usize>; 1]> = Bump::uninit();
    let base = slab.deref().data_ptr().addr();
    let mut slice = slab.deref_mut();
    let slot = slice.get::<core::cell::Ref<'static, usize>>().unwrap();
    assert_eq!(slot.ptr.addr(), base);
    assert_eq!(slot.level, Level(slice.capacity()));
    assert!(slice.get::<u8>().is_none());

    let mut slab: Bump<[usize; 4]> = Bump::uninit();
    let base = slab.deref().data_ptr().addr();
    assert_eq!(slab.deref_mut().bump_box::<[usize; 4]>().unwrap().as_ptr().addr(), base);
}

#[test]
fn exhaustion_lasts_until_reset() {
    let mut bump = Bump::<[u8; 8]>::uninit();
    let mut slice = bump.deref_mut();
    assert!(slice.alloc_layout(layout(5, 1)).is_some());
    for size in [4, 3, 2, 1] {
        assert!(slice.alloc_layout(layout(4, 1)).is_none());
        slice.alloc_layout(layout(size, 1));
    }
    assert!(slice.alloc_layout(layout(4, 1)).is_none());
    slice.reset();
    assert!(bump.deref_mut().alloc_layout(layout(4, 1)).is_some());
}

#[test]
fn contents_do_not_matter_to_requests() {
    let mut zeroed = Mem { addr: 4096, bytes: vec![Some(0); WORD + 32] };
    let mut uninit = Mem { addr: 4096, bytes: vec![None; WORD + 32] };
    let mut zeroed = BumpSlice::from_mem(zeroed.as_slice()).unwrap();
    let mut written = BumpSlice::from_mem(uninit.as_slice()).unwrap();
    for (size, align) in [(3, 1), (4, 4), (1, 16), (9, 1), (40, 1)] {
        let a = zeroed.alloc_layout(layout(size, align));
        let b = written.alloc_layout(layout(size, align));
        assert_eq!(a.map(|ptr| ptr.addr()), b.map(|ptr| ptr.addr()));
        if let Some(ptr) = b {
            written.write(ptr, Some(1));
        }
    }
}

#[test]
fn moving_by_a_multiple_of_the_alignment_keeps_offsets() {
    let mut bytes: Vec<Byte> = vec![Some(0); WORD + 128];
    for (i, addr) in [4096, 8192, 1 << 30].into_iter().enumerate() {
        let mut slice = BumpSlice::from_mem_unchecked(MemSlice { addr, bytes: &mut bytes });
        assert_eq!(slice.level(), Level(i));
        assert_eq!(slice.data_ptr().addr(), addr + WORD);
        slice.alloc_layout(layout(1, 1)).unwrap();
        slice.write(slice.data_ptr(), Some(i as u8));
    }
    let mut offsets = Vec::new();
    for addr in [4096, 8192, 1 << 30] {
        let mut bytes = bytes.clone();
        let mut slice = BumpSlice::from_mem_unchecked(MemSlice { addr, bytes: &mut bytes });
        assert_eq!(slice.level(), Level(3));
        assert_eq!(slice.read(slice.data_ptr()), Some(2));
        let ptr = slice.alloc_layout(layout(8, 64)).unwrap();
        offsets.push(ptr.addr() - slice.data_ptr().addr());
    }
    assert_eq!(offsets, [64 - WORD; 3]);
}
