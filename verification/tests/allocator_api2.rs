use static_alloc::allocator_api2::AllocError;
use static_alloc::bump::{Bump, BumpSlice};
use static_alloc::layout::Layout;
use static_alloc::mem::Mem;
use static_alloc::ptr::{NonNull, NonNullSlice};
use static_alloc::unsync;

/// An allocator that a vector of bytes can grow in.
trait Source {
    fn allocate(&mut self, layout: Layout) -> Result<NonNullSlice<u8>, AllocError>;
    fn deallocate(&mut self, ptr: NonNull<u8>, layout: Layout);
}

impl Source for Bump<[u8; 128]> {
    fn allocate(&mut self, layout: Layout) -> Result<NonNullSlice<u8>, AllocError> {
        Bump::allocate(self, layout)
    }

    fn deallocate(&mut self, ptr: NonNull<u8>, layout: Layout) {
        Bump::deallocate(self, ptr, layout)
    }
}

impl Source for unsync::Bump<[u8; 128]> {
    fn allocate(&mut self, layout: Layout) -> Result<NonNullSlice<u8>, AllocError> {
        unsync::Bump::allocate(self, layout)
    }

    fn deallocate(&mut self, ptr: NonNull<u8>, layout: Layout) {
        unsync::Bump::deallocate(self, ptr, layout)
    }
}

/// A vector of bytes that makes the requests of a growing vector: it asks for the double of its
/// capacity, or for what it needs if that is more, and gives the block back that it had.
struct Vector<'a, S: Source> {
    source: &'a mut S,
    block: Option<NonNullSlice<u8>>,
    bytes: Vec<u8>,
}

impl<'a, S: Source> Vector<'a, S> {
    fn new_in(source: &'a mut S) -> Self {
        Vector { source, block: None, bytes: Vec::new() }
    }

    fn len(&self) -> usize {
        self.bytes.len()
    }

    fn capacity(&self) -> usize {
        self.block.as_ref().map_or(0, |block| block.len())
    }

    fn try_reserve(&mut self, additional: usize) -> Result<(), AllocError> {
        if additional <= self.capacity() - self.len() {
            return Ok(());
        }
        let cap: usize = (self.len() + additional).max(self.capacity() * 2).max(8);
        let block = self.source.allocate(Layout::array::<u8>(cap).unwrap())?;
        if let Some(old) = &self.block {
            let layout = Layout::array::<u8>(old.len()).unwrap();
            self.source.deallocate(old.as_non_null_ptr(), layout);
        }
        self.block = Some(block);
        Ok(())
    }

    fn push_within_capacity(&mut self, byte: u8) -> Result<(), u8> {
        if self.len() == self.capacity() {
            return Err(byte);
        }
        self.bytes.push(byte);
        Ok(())
    }

    fn extend(&mut self, bytes: core::ops::Range<u8>) {
        self.try_reserve(bytes.len()).unwrap();
        for byte in bytes {
            self.push_within_capacity(byte).unwrap();
        }
    }
}

#[test]
fn local_vector() {
    let mut storage = Bump::<[u8; 128]>::uninit();

    let mut v = Vector::new_in(&mut storage);
    assert_eq!(v.len(), 0);
    v.extend(0..64);
    assert_eq!(v.len(), 64);

    assert!(
        v.try_reserve(64).is_err(),
        "Reserved more space than available"
    );

    let _ = v.push_within_capacity(0);
    assert!(v.capacity() <= 128);
}

#[test]
fn unsync_vector() {
    let mut storage = unsync::Bump::<[u8; 128]>::uninit();

    let mut v = Vector::new_in(&mut storage);
    assert_eq!(v.len(), 0);
    v.extend(0..64);
    assert_eq!(v.len(), 64);

    assert!(
        v.try_reserve(64).is_err(),
        "Reserved more space than available"
    );

    let _ = v.push_within_capacity(0);
    assert!(v.capacity() <= 128);
}

fn layout(size: usize, align: usize) -> Layout {
    Layout::from_size_align(size, align).unwrap()
}

#[test]
fn allocate_returns_the_size_asked_for() {
    let mut storage = unsync::Bump::<[u8; 128]>::uninit();
    let base = storage.deref().data_ptr().addr();
    let block = storage.allocate(layout(3, 1)).unwrap();
    assert_eq!(block.as_non_null_ptr().addr(), base);
    assert_eq!(block.len(), 3);
    let block = storage.allocate(layout(8, 8)).unwrap();
    assert_eq!(block.as_non_null_ptr().addr(), base + 8);
    assert_eq!(block.len(), 8);
    assert!(matches!(storage.allocate(layout(113, 1)), Err(AllocError)));
    assert_eq!(storage.allocate(layout(112, 1)).unwrap().len(), 112);
}

#[test]
fn deallocate_gives_no_room_back() {
    let mut storage = unsync::Bump::<[u8; 128]>::uninit();
    let block = storage.allocate(layout(128, 1)).unwrap();
    storage.deallocate(block.as_non_null_ptr(), layout(128, 1));
    assert!(storage.allocate(layout(1, 1)).is_err());
    storage.deref_mut().reset();
    assert!(storage.allocate(layout(128, 1)).is_ok());
}

/// Memory for an allocator whose storage begins one header behind a multiple of 16.
fn memory() -> Mem {
    Mem { addr: 4096, bytes: vec![None; 72] }
}

fn fill(slice: &mut unsync::BumpSlice<'_>, at: usize, bytes: &[u8]) {
    for (i, byte) in bytes.iter().enumerate() {
        slice.write(NonNull::new(at + i).unwrap(), Some(*byte));
    }
}

fn contents(slice: &unsync::BumpSlice<'_>, at: usize, len: usize) -> Vec<Option<u8>> {
    (0..len).map(|i| slice.read(NonNull::new(at + i).unwrap())).collect()
}

#[test]
fn shrink_in_place_keeps_an_aligned_block() {
    let mut mem = memory();
    let mut slice = unsync::BumpSlice::from_mem(mem.as_slice()).unwrap();
    let block = slice.allocate(layout(16, 8)).unwrap().as_non_null_ptr();
    fill(&mut slice, block.addr(), &[1, 2, 3, 4, 5, 6]);
    let level = slice.level();
    let shrunk = slice.shrink(block, layout(16, 8), layout(6, 2)).unwrap();
    assert_eq!(shrunk.as_non_null_ptr().addr(), block.addr());
    assert_eq!(shrunk.len(), 6);
    assert_eq!(slice.level(), level);
    assert_eq!(
        contents(&slice, block.addr(), 6),
        [Some(1), Some(2), Some(3), Some(4), Some(5), Some(6)]
    );
}

#[test]
fn shrink_moves_the_contents_to_an_aligned_address() {
    let mut mem = memory();
    let mut slice = unsync::BumpSlice::from_mem(mem.as_slice()).unwrap();
    let block = slice.allocate(layout(24, 8)).unwrap().as_non_null_ptr();
    assert_eq!(block.addr() % 16, 8);
    let bytes: Vec<u8> = (0..24).collect();
    fill(&mut slice, block.addr(), &bytes);
    // The old and the new place of the contents overlap.
    let shrunk = slice.shrink(block, layout(24, 8), layout(16, 16)).unwrap();
    let to = shrunk.as_non_null_ptr().addr();
    assert_eq!(to, block.addr() + 8);
    assert_eq!(shrunk.len(), 16);
    let expected: Vec<Option<u8>> = (0..16).map(Some).collect();
    assert_eq!(contents(&slice, to, 16), expected);
    let before: Vec<Option<u8>> = (0..8).map(Some).collect();
    assert_eq!(contents(&slice, block.addr(), 8), before);
}

#[test]
fn shrink_that_has_no_room_changes_nothing() {
    let mut mem = memory();
    let mut slice = unsync::BumpSlice::from_mem(mem.as_slice()).unwrap();
    let block = slice.allocate(layout(24, 8)).unwrap().as_non_null_ptr();
    fill(&mut slice, block.addr(), &[7; 24]);
    assert!(matches!(
        slice.shrink(block, layout(24, 8), layout(17, 16)),
        Err(AllocError)
    ));
    assert!(slice.shrink(block, layout(4, 4), layout(1, 16)).is_err());
    assert_eq!(contents(&slice, block.addr(), 24), [Some(7); 24]);
}

#[test]
fn the_allocators_answer_alike() {
    let mut alone = unsync::Bump::<[u8; 128]>::uninit();
    let mut viewed = Bump::<[u8; 128]>::uninit();
    let mut slice = BumpSlice::new(unsync::BumpSlice::new(128));
    let bases = [
        alone.deref().data_ptr().addr(),
        viewed.as_view().slice.data_ptr().addr(),
        slice.as_view().slice.data_ptr().addr(),
    ];
    let mut end = 0;
    for (size, align) in [(1, 1), (8, 8), (3, 2), (40, 4), (80, 1), (30, 1)] {
        let blocks = [
            alone.allocate(layout(size, align)),
            viewed.allocate(layout(size, align)),
            slice.allocate(layout(size, align)),
        ];
        let start = (end + align - 1) / align * align;
        for (block, base) in blocks.iter().zip(bases) {
            if start + size <= 128 {
                let block = block.as_ref().unwrap();
                assert_eq!(block.as_non_null_ptr().addr(), base + start);
                assert_eq!(block.len(), size);
            } else {
                assert!(block.is_err());
            }
        }
        if start + size <= 128 {
            end = start + size;
        }
    }
    assert_eq!(end, 90);
    let mut view = viewed.as_view();
    assert!(view.allocate(layout(128, 1)).is_err());
    let block = view.allocate(layout(2, 1)).unwrap().as_non_null_ptr();
    view.deallocate(block, layout(2, 1));
    let shrunk = view.shrink(block, layout(2, 1), layout(1, 1)).unwrap();
    assert_eq!(shrunk.as_non_null_ptr().addr(), block.addr());
    assert_eq!(shrunk.len(), 1);
    let shrunk = viewed.shrink(block, layout(2, 1), layout(2, 1)).unwrap();
    assert_eq!(shrunk.len(), 2);
}

#[test]
fn viewed_storage_is_aligned_for_its_type() {
    let align = core::mem::align_of::<u128>();
    let mut storage = Bump::<[u128; 8]>::uninit();
    let base = storage.as_view().slice.data_ptr().addr();
    assert_eq!(base % align, 0);
    let block = storage.allocate(layout(128, align)).unwrap();
    assert_eq!(block.as_non_null_ptr().addr(), base);
    assert!(storage.allocate(layout(1, 1)).is_err());
}
