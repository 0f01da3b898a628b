use static_alloc::same_alloc::boxed::{RawBox, SameBox, TempBox, Wrap};
use static_alloc::same_alloc::same::SameLayout;
use static_alloc::same_alloc::vec::{Buffer, RawVec};
use static_alloc::same_alloc::{SameVec, VecBuffer};

#[test]
fn evidence_of_the_same_layout() {
    assert!(SameLayout::<u32, i32>::new().is_some());
    assert!(SameLayout::<&'static str, &'static [u8]>::new().is_some());
    assert!(SameLayout::<u32, u16>::new().is_none());
    assert!(SameLayout::<[u8; 4], u32>::new().is_none());
}

#[test]
fn buffer_goes_to_the_temporary_vector_and_back() {
    let marker = SameLayout::<u32, i32>::new().unwrap();
    let parts = Buffer { addr: 4096, capacity: 3 };
    let mut buf: VecBuffer<u32> = SameVec::from(RawVec::from_parts(parts, vec![1, 2]));
    assert_eq!(buf.buffer(), parts);

    let mut temp = buf.use_for(marker);
    assert_eq!(temp.deref().buffer(), parts);
    assert!(temp.deref().elements().is_empty());
    for value in [-1, -2, -3] {
        temp.deref_mut().push(value);
    }
    assert_eq!(*temp.deref().elements(), [-1, -2, -3]);
    assert_eq!(temp.deref().buffer(), parts);
    temp.deref_mut().elements_mut()[1] = 7;
    assert_eq!(*temp.deref().elements(), [-1, 7, -3]);
    temp.finish();
    assert_eq!(buf.buffer(), parts);

    // The elements are gone.
    let temp = buf.use_for(SameLayout::<u32, u32>::new().unwrap());
    assert!(temp.deref().elements().is_empty());
    temp.finish();
    assert_eq!(buf.buffer(), parts);
}

#[test]
fn a_vector_that_grew_returns_its_new_allocation() {
    let marker = SameLayout::<u8, i8>::new().unwrap();
    let mut buf: SameVec<u8> = SameVec::new();
    assert_eq!(buf.buffer().capacity, 0);
    let mut temp = buf.use_for(marker);
    for value in 0..100 {
        temp.deref_mut().push(value);
    }
    let grown = temp.deref().buffer();
    assert!(grown.capacity >= 100);
    let expected: Vec<i8> = (0..100).collect();
    assert_eq!(*temp.deref().elements(), expected);
    temp.finish();
    assert_eq!(buf.buffer(), grown);
    assert_eq!(buf.use_for(marker).deref().buffer(), grown);
}

#[test]
fn a_smaller_allocation_is_returned_too() {
    let marker = SameLayout::<u8, i8>::new().unwrap();
    let mut buf: SameVec<u8> = SameVec::with_capacity(64);
    let mut temp = buf.use_for(marker);
    let other = Buffer { addr: 640, capacity: 2 };
    *temp.deref_mut() = RawVec::from_parts(other, vec![1]);
    temp.finish();
    assert_eq!(buf.buffer(), other);
}

#[test]
fn a_leaked_vector_takes_the_allocation_along() {
    let marker = SameLayout::<u8, i8>::new().unwrap();
    let mut buf: SameVec<u8> = SameVec::with_capacity(16);
    core::mem::forget(buf.use_for(marker));
    assert_eq!(buf.buffer().capacity, 0);
    let mut temp = buf.use_for(marker);
    assert_eq!(temp.deref().buffer().capacity, 0);
    temp.deref_mut().push(3);
    assert_eq!(*temp.deref().elements(), [3]);
    temp.finish();
    assert!(buf.buffer().capacity >= 1);
}

/// The name that would be in the middle if they were sorted.
fn median(names: &mut [&'static str]) -> &'static str {
    let idx = names.len() / 2;
    *names.select_nth_unstable(idx).1
}

#[test]
fn earlier_uses_do_not_show() {
    let marker = SameLayout::<&'static [u8], &'static str>::new().unwrap();
    let mut buf: SameVec<&'static [u8]> = SameVec::new();
    for text in ["bob", "zoe ada eve", "kim", "kim lee ann joe max tom amy sue", "a b"] {
        let mut fresh: Vec<&'static str> = text.split(' ').collect();
        let mut names = buf.use_for(marker);
        names.deref_mut().extend(text.split(' ').collect());
        assert_eq!(*names.deref().elements(), fresh);
        assert_eq!(median(names.deref_mut().elements_mut()), median(&mut fresh));
        names.finish();
    }
    assert!(buf.buffer().capacity >= 8);
}

#[test]
fn no_other_allocation_within_the_capacity() {
    let mut buf: SameVec<u64> = SameVec::with_capacity(5);
    let parts = buf.buffer();
    assert!(parts.capacity >= 5);
    assert_eq!(parts.addr % core::mem::align_of::<u64>(), 0);
    let mut temp = buf.use_for(SameLayout::<u64, i64>::new().unwrap());
    for i in 0..2 {
        temp.deref_mut().push(i);
    }
    temp.deref_mut().extend(vec![2, 3, 4]);
    assert_eq!(*temp.deref().elements(), [0, 1, 2, 3, 4]);
    temp.deref_mut().reserve(0);
    assert_eq!(temp.deref().buffer(), parts);
    temp.deref_mut().clear();
    assert!(temp.deref().elements().is_empty());
    temp.finish();
    assert_eq!(buf.buffer(), parts);
}

#[test]
fn elements_without_a_size_need_no_room() {
    assert_eq!(SameVec::<()>::with_capacity(1).buffer().capacity, usize::MAX);
    let mut buf: SameVec<()> = SameVec::new();
    let parts = buf.buffer();
    assert_eq!(parts.capacity, usize::MAX);
    let mut temp = buf.use_for(SameLayout::<(), [u8; 0]>::new().unwrap());
    temp.deref_mut().extend(vec![[]; 9]);
    temp.deref_mut().push([]);
    assert_eq!(temp.deref().elements().len(), 10);
    assert_eq!(temp.deref().buffer(), parts);
    temp.finish();
    assert_eq!(buf.buffer(), parts);
    assert_eq!(SameVec::<u64>::default().buffer().capacity, 0);
}

#[test]
fn buffers_that_exist_together_do_not_share_memory() {
    let one: SameVec<u64> = SameVec::with_capacity(8);
    let two: SameVec<u64> = SameVec::with_capacity(8);
    let (low, high) = if one.buffer().addr < two.buffer().addr {
        (one.buffer().addr, two.buffer().addr)
    } else {
        (two.buffer().addr, one.buffer().addr)
    };
    assert!(low + 64 <= high);
}

#[test]
fn swapping_drops_the_elements_of_both() {
    let marker = SameLayout::<u8, i8>::new().unwrap();
    let mut own = RawVec::from_parts(Buffer { addr: 16, capacity: 2 }, vec![1u8]);
    let mut other = RawVec::from_parts(Buffer { addr: 32, capacity: 9 }, vec![2i8, 3]);
    let mut wrap = static_alloc::same_alloc::vec::Wrap::new(&mut own, marker);
    wrap.swap_internal_with(&mut other);
    assert_eq!(own.buffer(), Buffer { addr: 32, capacity: 9 });
    assert_eq!(other.buffer(), Buffer { addr: 16, capacity: 2 });
    assert!(own.elements().is_empty());
    assert!(other.elements().is_empty());
}

#[test]
fn box_returns_its_allocation() {
    let marker = SameLayout::<u32, i32>::new().unwrap();
    let mut same: SameBox<u32> = SameBox::default();
    assert_ne!(same.element_buffer.addr(), 0);
    assert_eq!(same.element_buffer.addr() % core::mem::align_of::<u32>(), 0);
    assert!(same.element_buffer.value().is_none());
    let mut temp = TempBox {
        from: Wrap::new(&mut same.element_buffer, marker),
        boxed: Some(RawBox::from_parts(640, Some(-7))),
    };
    assert_eq!(*temp.deref().value(), Some(-7));
    *temp.deref_mut().value_mut() = Some(8);
    assert_eq!(*temp.deref().value(), Some(8));
    assert_eq!(temp.deref().addr(), 640);
    temp.finish();
    assert_eq!(same.element_buffer.addr(), 640);
    assert!(same.element_buffer.value().is_none());
}

#[test]
fn a_leaked_box_takes_its_allocation_along() {
    let marker = SameLayout::<u32, i32>::new().unwrap();
    let mut same: SameBox<u32> = SameBox::default();
    let own = same.element_buffer.addr();
    core::mem::forget(TempBox {
        from: Wrap::new(&mut same.element_buffer, marker),
        boxed: Some(RawBox::from_parts(640, Some(-7))),
    });
    assert_eq!(same.element_buffer.addr(), own);
}

#[test]
fn boxes_swap_their_allocations() {
    let marker = SameLayout::<u32, i32>::new().unwrap();
    let mut same: SameBox<u32> = SameBox::default();
    let mut boxed = Some(RawBox::from_parts(16, Some(-1)));
    Wrap::new(&mut same.element_buffer, marker).swap_internal_with(&mut boxed);
    assert!(boxed.is_none());
    assert_eq!(same.element_buffer.addr(), 16);
    assert!(same.element_buffer.value().is_none());
}

#[test]
fn deinitialised_box() {
    let marker = SameLayout::<u32, i32>::new().unwrap();
    let (value, raw) = marker.deinit_box(RawBox::from_parts(8, Some(5u32)));
    assert_eq!(value, 5);
    assert_eq!(raw.addr(), 8);
    assert_eq!(*raw.value(), None);
    let (value, _) = marker.transpose().deinit_box(RawBox::from_parts(8, Some(-5i32)));
    assert_eq!(value, -5);
}

#[test]
fn swapping_twice_changes_nothing() {
    let marker = SameLayout::<u8, i8>::new().unwrap();
    let mut own = RawVec::from_parts(Buffer { addr: 16, capacity: 2 }, vec![1u8]);
    let mut other = RawVec::from_parts(Buffer { addr: 32, capacity: 9 }, vec![2i8, 3]);
    let mut wrap = static_alloc::same_alloc::vec::Wrap::new(&mut own, marker);
    wrap.swap_internal_with(&mut other);
    wrap.swap_internal_with(&mut other);
    assert_eq!(own.buffer(), Buffer { addr: 16, capacity: 2 });
    assert_eq!(other.buffer(), Buffer { addr: 32, capacity: 9 });
}
