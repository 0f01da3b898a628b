//! A buffer for single values of different types.
use crate::layout::Layout;
use crate::mem::Mem;
use crate::same_alloc::same::SameLayout;
use vstd::prelude::*;

verus! {

/// A box: its allocation, and the value in it, if it was initialised.
pub struct RawBox<T> {
    /// The memory of the allocation. If its owner is someone else only its address is here.
    memory: Mem,
    value: Option<T>,
}

impl<T> RawBox<T> {
    /// The address.
    pub closed spec fn spec_addr(&self) -> int {
        self.memory.addr as int
    }

    /// The value.
    pub closed spec fn spec_value(&self) -> Option<T> {
        self.value
    }

    /// The address is one that a value of type `T` can have.
    pub open spec fn wf(&self) -> bool {
        &&& self.spec_addr() > 0
        &&& self.spec_addr() % vstd::layout::align_of::<T>() as int == 0
    }

    /// A box without a value.
    pub fn new_uninit() -> (r: Self)
        ensures
            r.wf(),
            r.spec_value() is None,
    {
        let item: Layout = Layout::new::<T>();
        proof {
            broadcast use vstd::layout::align_properties;

            item.lemma_bounds();
            let size = vstd::layout::size_of::<T>();
            let align = vstd::layout::align_of::<T>();
            if 0 < size < align {
                vstd::arithmetic::div_mod::lemma_small_mod(size, align);
            }
        }
        RawBox { memory: Mem::placed(None, item.size(), item.align(), 0), value: None }
    }

    /// The box at an address.
    pub fn from_parts(addr: usize, value: Option<T>) -> (r: Self)
        requires
            addr > 0,
            addr as int % vstd::layout::align_of::<T>() as int == 0,
        ensures
            r.wf(),
            r.spec_addr() == addr,
            r.spec_value() == value,
    {
        RawBox { memory: Mem { addr, bytes: Vec::new() }, value }
    }

    /// The address.
    pub fn addr(&self) -> (addr: usize)
        ensures
            addr == self.spec_addr(),
    {
        self.memory.addr
    }

    /// The value.
    pub fn value(&self) -> (value: &Option<T>)
        ensures
            *value == self.spec_value(),
    {
        &self.value
    }

    /// The value, which can be changed.
    pub fn value_mut(&mut self) -> (value: &mut Option<T>)
        ensures
            *value == old(self).spec_value(),
            final(self).spec_value() == *final(value),
            final(self).spec_addr() == old(self).spec_addr(),
    {
        &mut self.value
    }
}

impl<A, B> SameLayout<A, B> {
    /// Moves the value out of a box, and uses the allocation for a value of the other type.
    pub fn deinit_box(self, boxed: RawBox<A>) -> (r: (A, RawBox<B>))
        requires
            boxed.wf(),
            boxed.spec_value() is Some,
        ensures
            boxed.spec_value() == Some(r.0),
            r.1.wf(),
            r.1.spec_addr() == boxed.spec_addr(),
            r.1.spec_value() is None,
    {
        proof {
            use_type_invariant(&self);
        }
        (boxed.value.unwrap(), RawBox { memory: boxed.memory, value: None })
    }
}

/// An allocated buffer for types with the same layout.
pub struct SameBox<T> {
    /// The allocation. There is no value in it.
    pub element_buffer: RawBox<T>,
}

/// A temporary view on a [`SameBox`], which holds a value of a different type.
///
/// [`TempBox::finish`] gives its allocation to the buffer; if it ends without that the buffer keeps
/// the one that it has.
pub struct TempBox<'lt, T, U> {
    /// The buffer that the allocation is returned to.
    pub from: Wrap<'lt, T, U>,
    /// The box.
    pub boxed: Option<RawBox<U>>,
}

/// The box inside a [`SameBox`], with the evidence that its allocation suits another type.
pub struct Wrap<'lt, T, U> {
    /// The box.
    pub elements: &'lt mut RawBox<T>,
    /// The evidence.
    pub marker: SameLayout<T, U>,
}

impl<T> Default for SameBox<T> {
    fn default() -> (r: Self)
        ensures
            r.element_buffer.wf(),
            r.element_buffer.spec_value() is None,
    {
        SameBox { element_buffer: RawBox::new_uninit() }
    }
}

impl<'lt, T, U> TempBox<'lt, T, U> {
    /// There is a box, and a value in it.
    pub open spec fn wf(&self) -> bool {
        &&& self.boxed is Some
        &&& self.boxed->Some_0.wf()
        &&& self.boxed->Some_0.spec_value() is Some
    }

    /// Returns the allocation to the buffer. The value is dropped, and so is the allocation that
    /// the buffer had.
    pub fn finish(self)
        requires
            self.wf(),
        ensures
            final(self.from.elements).wf(),
            final(self.from.elements).spec_addr() == self.boxed->Some_0.spec_addr(),
            final(self.from.elements).spec_value() is None,
    {
        let mut this: TempBox<'lt, T, U> = self;
        this.from.swap_internal_with(&mut this.boxed);
    }

    /// The box.
    pub fn deref(&self) -> (boxed: &RawBox<U>)
        requires
            self.wf(),
        ensures
            *boxed == self.boxed->Some_0,
    {
        self.boxed.as_ref().unwrap()
    }

    /// The box, which can be changed.
    pub fn deref_mut(&mut self) -> (boxed: &mut RawBox<U>)
        requires
            old(self).wf(),
        ensures
            *boxed == old(self).boxed->Some_0,
            final(self).boxed == Some(*final(boxed)),
            final(self).from == old(self).from,
    {
        self.boxed.as_mut().unwrap()
    }
}

impl<'lt, T, U> Wrap<'lt, T, U> {
    /// Puts the evidence beside a box.
    pub fn new(elements: &'lt mut RawBox<T>, marker: SameLayout<T, U>) -> (r: Self)
        ensures
            *r.elements == *old(elements),
            *final(elements) == *final(r.elements),
            r.marker == marker,
    {
        Wrap { elements, marker }
    }

    /// Takes the allocation of a box. The value in it is dropped, and so is the allocation that
    /// was there before.
    pub fn swap_internal_with(&mut self, v: &mut Option<RawBox<U>>)
        requires
            *old(v) is Some,
            old(v)->Some_0.wf(),
            old(v)->Some_0.spec_value() is Some,
        ensures
            final(self).marker == old(self).marker,
            *final(final(self).elements) == *final(old(self).elements),
            final(self).elements.wf(),
            final(self).elements.spec_addr() == old(v)->Some_0.spec_addr(),
            final(self).elements.spec_value() is None,
            *final(v) is None,
    {
        let temp: RawBox<U> = v.take().unwrap();
        let (_, mut temp): (U, RawBox<T>) = self.marker.transpose().deinit_box(temp);
        core::mem::swap(&mut temp, self.elements);
    }
}

/// A box can lie at any address that is aligned for its value, and not null.
pub proof fn law_boxes_can_lie_anywhere<T>(boxed: RawBox<T>)
    ensures
        boxed.wf() <==> boxed.spec_addr() >= 1 && boxed.spec_addr() % vstd::layout::align_of::<
            T,
        >() as int == 0,
{
}

/// A view can be finished if it has a box with a value, whatever the buffer has.
pub proof fn law_every_view_with_a_value_can_be_finished<'lt, T, U>(
    temp: TempBox<'lt, T, U>,
    boxed: RawBox<U>,
)
    requires
        temp.boxed == Some(boxed),
        boxed.wf(),
        boxed.spec_value() is Some,
    ensures
        temp.wf(),
{
}

} // verus!
