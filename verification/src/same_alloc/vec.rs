//! A buffer for vectors of different element types.
use crate::layout::Layout;
use crate::mem::Mem;
use crate::same_alloc::same::SameLayout;
use vstd::prelude::*;

verus! {

/// The allocation of a vector: its address, and how many elements it has room for.
#[derive(Clone, Copy, Debug, PartialEq, Eq, Structural)]
pub struct Buffer {
    /// The address.
    pub addr: usize,
    /// The number of elements that fit.
    pub capacity: usize,
}

impl Buffer {
    /// Whether an allocation can belong to a vector of `T`.
    ///
    /// Elements without a size need no room, so that any number of them fits.
    pub open spec fn suits<T>(self) -> bool {
        &&& self.addr > 0
        &&& self.addr as int % vstd::layout::align_of::<T>() as int == 0
        &&& if vstd::layout::size_of::<T>() == 0 {
            self.capacity == usize::MAX
        } else {
            self.capacity * vstd::layout::size_of::<T>() <= isize::MAX
        }
    }
}

/// The allocations of two vectors.
pub struct Loan {
    /// The allocation that one has.
    pub own: Buffer,
    /// The allocation that the other has.
    pub lent: Buffer,
}

impl Loan {
    /// The two allocations, swapped.
    pub open spec fn swapped(self) -> Loan {
        Loan { own: self.lent, lent: self.own }
    }
}

/// What a vector holds, and the allocation that it occupies.
#[verifier::ext_equal]
pub struct Contents<U> {
    /// The allocation.
    pub buffer: Buffer,
    /// The elements.
    pub elements: Seq<U>,
}

/// What is done to a vector.
pub enum Step<U> {
    /// An element is appended.
    Push(U),
    /// Some elements are appended in their order.
    Extend(Seq<U>),
    /// Room is made for a number of further elements.
    Reserve(int),
    /// All elements are removed.
    Clear,
}

impl<U> Contents<U> {
    /// Whether a step can lead from here to `next`.
    ///
    /// A vector gets another allocation only if there is not enough room in the one that it has.
    pub open spec fn leads_to(self, step: Step<U>, next: Contents<U>) -> bool {
        match step {
            Step::Push(value) => {
                &&& next.elements == self.elements.push(value)
                &&& self.elements.len() < self.buffer.capacity ==> next.buffer == self.buffer
            },
            Step::Extend(values) => {
                &&& next.elements == self.elements + values
                &&& self.elements.len() + values.len() <= self.buffer.capacity ==> next.buffer
                    == self.buffer
            },
            Step::Reserve(additional) => {
                &&& next.elements == self.elements
                &&& self.elements.len() + additional <= next.buffer.capacity
                &&& self.elements.len() + additional <= self.buffer.capacity ==> next.buffer
                    == self.buffer
            },
            Step::Clear => {
                &&& next.elements == Seq::<U>::empty()
                &&& next.buffer == self.buffer
            },
        }
    }
}

/// Whether a vector goes through `states` when the steps are done one after the other.
pub open spec fn is_run<U>(states: Seq<Contents<U>>, steps: Seq<Step<U>>) -> bool {
    &&& states.len() == steps.len() + 1
    &&& forall|i: int|
        #![trigger steps[i]]
        0 <= i < steps.len() ==> states[i].leads_to(steps[i], states[i + 1])
}

/// The steps that append some values in their order.
pub open spec fn pushes<U>(values: Seq<U>) -> Seq<Step<U>> {
    Seq::new(values.len(), |i: int| Step::Push(values[i]))
}

/// A vector together with the allocation that it occupies.
///
/// The allocation is on record, by its address and its room. The elements are kept beside the
/// record.
pub struct RawVec<T> {
    /// The memory of the allocation. If its owner is someone else only its address is here.
    memory: Mem,
    capacity: usize,
    elements: Vec<T>,
}

impl<T> View for RawVec<T> {
    type V = Seq<T>;

    closed spec fn view(&self) -> Seq<T> {
        self.elements@
    }
}

impl<T> RawVec<T> {
    /// The allocation.
    pub closed spec fn spec_buffer(&self) -> Buffer {
        Buffer { addr: self.memory.addr, capacity: self.capacity }
    }

    /// The elements with the allocation.
    pub open spec fn contents(&self) -> Contents<T> {
        Contents { buffer: self.spec_buffer(), elements: self@ }
    }

    /// The elements fit in the allocation.
    pub open spec fn wf(&self) -> bool {
        &&& self.spec_buffer().suits::<T>()
        &&& self@.len() <= self.spec_buffer().capacity
    }

    /// A vector without elements, which has no room for any that have a size.
    pub fn new() -> (r: Self)
        ensures
            r.wf(),
            r@ == Seq::<T>::empty(),
            vstd::layout::size_of::<T>() > 0 ==> r.spec_buffer().capacity == 0,
    {
        Self::with_exact_capacity(0)
    }

    /// A vector without elements, with room for `capacity` of them, or more.
    ///
    /// The room must not exceed what one block of memory can hold.
    pub fn with_capacity(capacity: usize) -> (r: Self)
        requires
            capacity * vstd::layout::size_of::<T>() <= isize::MAX,
        ensures
            r.wf(),
            r@ == Seq::<T>::empty(),
            r.spec_buffer().capacity >= capacity,
    {
        Self::with_exact_capacity(capacity)
    }

    fn with_exact_capacity(capacity: usize) -> (r: Self)
        requires
            capacity * vstd::layout::size_of::<T>() <= isize::MAX,
        ensures
            r.wf(),
            r@ == Seq::<T>::empty(),
            vstd::layout::size_of::<T>() > 0 ==> r.spec_buffer().capacity == capacity,
    {
        let item: Layout = Layout::new::<T>();
        proof {
            broadcast use vstd::layout::align_properties;

            item.lemma_bounds();
            let size = vstd::layout::size_of::<T>();
            let align = vstd::layout::align_of::<T>();
            if 0 < size < align {
                vstd::arithmetic::div_mod::lemma_small_mod(size, align);
            }
            assert(capacity * size >= 0) by (nonlinear_arith);
            if size == 0 {
                assert(capacity * size == 0) by (nonlinear_arith)
                    requires
                        size == 0,
                ;
            }
        }
        let room: usize = if item.size() == 0 {
            usize::MAX
        } else {
            capacity
        };
        RawVec {
            memory: Mem::placed(None, capacity * item.size(), item.align(), 0),
            capacity: room,
            elements: Vec::new(),
        }
    }

    /// The vector of some elements in an allocation that holds them.
    pub fn from_parts(buffer: Buffer, elements: Vec<T>) -> (r: Self)
        requires
            buffer.suits::<T>(),
            elements@.len() <= buffer.capacity,
        ensures
            r.wf(),
            r@ == elements@,
            r.spec_buffer() == buffer,
    {
        RawVec {
            memory: Mem { addr: buffer.addr, bytes: Vec::new() },
            capacity: buffer.capacity,
            elements,
        }
    }

    /// The allocation.
    pub fn buffer(&self) -> (buffer: Buffer)
        ensures
            buffer == self.spec_buffer(),
    {
        Buffer { addr: self.memory.addr, capacity: self.capacity }
    }

    /// The elements.
    pub fn elements(&self) -> (elements: &Vec<T>)
        ensures
            elements@ == self@,
    {
        &self.elements
    }

    /// The elements, which can be changed in their places.
    pub fn elements_mut(&mut self) -> (elements: &mut [T])
        ensures
            elements@ == old(self)@,
            final(self)@ == final(elements)@,
            final(self).spec_buffer() == old(self).spec_buffer(),
    {
        self.elements.as_mut_slice()
    }

    /// Makes room for a number of further elements, in another allocation if need be.
    ///
    /// All of them must not exceed what one block of memory can hold.
    pub fn reserve(&mut self, additional: usize)
        requires
            old(self).wf(),
            old(self)@.len() + additional <= usize::MAX,
            (old(self)@.len() + additional) * vstd::layout::size_of::<T>() <= isize::MAX,
        ensures
            final(self).wf(),
            old(self).contents().leads_to(Step::Reserve(additional as int), final(self).contents()),
    {
        let needed: usize = self.elements.len() + additional;
        if needed > self.capacity {
            let size: usize = Layout::new::<T>().size();
            // More than is needed now, so that not every element needs another allocation.
            let most: usize = isize::MAX as usize / size;
            let double: usize = if self.capacity <= most / 2 {
                2 * self.capacity
            } else {
                most
            };
            let capacity: usize = if needed < double {
                double
            } else {
                needed
            };
            proof {
                vstd::arithmetic::div_mod::lemma_fundamental_div_mod(
                    isize::MAX as int,
                    size as int,
                );
                assert(double * size <= most * size) by (nonlinear_arith)
                    requires
                        double <= most,
                ;
                assert(most * size == size * most) by (nonlinear_arith);
            }
            let fresh: RawVec<T> = RawVec::with_capacity(capacity);
            self.memory = fresh.memory;
            self.capacity = fresh.capacity;
        }
    }

    /// Appends an element, in another allocation if there is no room for it.
    ///
    /// All elements must not exceed what one block of memory can hold.
    pub fn push(&mut self, value: T)
        requires
            old(self).wf(),
            old(self)@.len() < usize::MAX,
            (old(self)@.len() + 1) * vstd::layout::size_of::<T>() <= isize::MAX,
        ensures
            final(self).wf(),
            old(self).contents().leads_to(Step::Push(value), final(self).contents()),
    {
        self.reserve(1);
        self.elements.push(value);
    }

    /// Appends some elements in their order, in another allocation if there is no room for them.
    ///
    /// All elements must not exceed what one block of memory can hold.
    pub fn extend(&mut self, values: Vec<T>)
        requires
            old(self).wf(),
            old(self)@.len() + values@.len() <= usize::MAX,
            (old(self)@.len() + values@.len()) * vstd::layout::size_of::<T>() <= isize::MAX,
        ensures
            final(self).wf(),
            old(self).contents().leads_to(Step::Extend(values@), final(self).contents()),
    {
        let mut values: Vec<T> = values;
        self.reserve(values.len());
        self.elements.append(&mut values);
    }

    /// Removes all elements. The allocation stays.
    pub fn clear(&mut self)
        requires
            old(self).wf(),
        ensures
            final(self).wf(),
            old(self).contents().leads_to(Step::Clear, final(self).contents()),
    {
        self.elements.clear();
    }

    /// Leaves a vector that has no room for elements that have a size, and returns what was there.
    fn take(&mut self) -> (r: Self)
        ensures
            r == *old(self),
            final(self).wf(),
            final(self)@ == Seq::<T>::empty(),
            vstd::layout::size_of::<T>() > 0 ==> final(self).spec_buffer().capacity == 0,
    {
        let mut r: RawVec<T> = RawVec::new();
        core::mem::swap(&mut r, self);
        r
    }
}

impl<A, B> SameLayout<A, B> {
    /// Uses the allocation of a vector for elements of the other type.
    ///
    /// The elements that the vector holds are dropped.
    pub fn forget_vec(self, vec: RawVec<A>) -> (r: RawVec<B>)
        requires
            vec.wf(),
        ensures
            r.wf(),
            r@ == Seq::<B>::empty(),
            r.spec_buffer() == vec.spec_buffer(),
    {
        proof {
            use_type_invariant(&self);
        }
        RawVec { memory: vec.memory, capacity: vec.capacity, elements: Vec::new() }
    }
}

/// A dynamically sized buffer for types with the same layout.
pub struct SameVec<T> {
    element_buffer: RawVec<T>,
}

/// Another name of [`SameVec`].
pub type VecBuffer<T> = SameVec<T>;

/// A temporary view on a [`SameVec`], with a different element type.
///
/// It has the allocation of the buffer. [`TempVec::finish`] gives it back; a view that ends without
/// that takes it along, and the buffer is left with no room.
pub struct TempVec<'lt, T, U> {
    /// The buffer that the allocation came from, and that it is returned to.
    pub from: Wrap<'lt, T, U>,
    /// The vector.
    pub vec: RawVec<U>,
}

/// The vector inside a [`SameVec`], with the evidence that its allocation suits another type.
pub struct Wrap<'lt, T, U> {
    /// The vector.
    pub elements: &'lt mut RawVec<T>,
    /// The evidence.
    pub marker: SameLayout<T, U>,
}

impl<T> SameVec<T> {
    /// The vector whose allocation this is.
    pub closed spec fn spec_elements(&self) -> RawVec<T> {
        self.element_buffer
    }

    /// The allocation.
    pub open spec fn spec_buffer(&self) -> Buffer {
        self.spec_elements().spec_buffer()
    }

    /// The allocation is one that a vector can have, and it holds no elements.
    pub open spec fn wf(&self) -> bool {
        &&& self.spec_elements().wf()
        &&& self.spec_elements()@ == Seq::<T>::empty()
    }

    /// Create an empty buffer.
    pub fn new() -> (r: Self)
        ensures
            r.wf(),
            vstd::layout::size_of::<T>() > 0 ==> r.spec_buffer().capacity == 0,
    {
        SameVec::default()
    }

    /// Create a buffer with a pre-defined capacity.
    ///
    /// This buffer will not need to reallocate until the element count required for any temporary
    /// vector exceeds this number of elements. They must not exceed what one block of memory can
    /// hold.
    pub fn with_capacity(cap: usize) -> (r: Self)
        requires
            cap * vstd::layout::size_of::<T>() <= isize::MAX,
        ensures
            r.wf(),
            r.spec_buffer().capacity >= cap,
    {
        SameVec { element_buffer: RawVec::with_capacity(cap) }
    }

    /// Use the allocation of a vector. The elements that it holds are dropped.
    pub fn from(element_buffer: RawVec<T>) -> (r: Self)
        requires
            element_buffer.wf(),
        ensures
            r.wf(),
            r.spec_buffer() == element_buffer.spec_buffer(),
    {
        let mut element_buffer: RawVec<T> = element_buffer;
        element_buffer.clear();
        SameVec { element_buffer }
    }

    /// The allocation.
    pub fn buffer(&self) -> (buffer: Buffer)
        ensures
            buffer == self.spec_buffer(),
    {
        self.element_buffer.buffer()
    }

    /// Use the allocated buffer for a compatible type of elements.
    ///
    /// When the temporary view is finished the allocation is returned to the buffer. This means its
    /// capacity might be automatically increased, or decreased, based on the used of the vector.
    pub fn use_for<U>(&mut self, marker: SameLayout<T, U>) -> (temp: TempVec<'_, T, U>)
        requires
            old(self).wf(),
        ensures
            temp.wf(),
            temp@ == (Contents { buffer: old(self).spec_buffer(), elements: Seq::<U>::empty() }),
            vstd::layout::size_of::<T>() > 0 ==> temp.from.elements.spec_buffer().capacity == 0,
            final(self).spec_elements() == *final(temp.from.elements),
    {
        let from: Wrap<'_, T, U> = Wrap::new(&mut self.element_buffer, marker);
        let elements: RawVec<T> = from.elements.take();
        let vec: RawVec<U> = from.marker.forget_vec(elements);
        TempVec { from, vec }
    }
}

impl<T> Default for SameVec<T> {
    fn default() -> (r: Self)
        ensures
            r.wf(),
            vstd::layout::size_of::<T>() > 0 ==> r.spec_buffer().capacity == 0,
    {
        SameVec { element_buffer: RawVec::new() }
    }
}

impl<'lt, T, U> View for TempVec<'lt, T, U> {
    type V = Contents<U>;

    open spec fn view(&self) -> Contents<U> {
        self.vec.contents()
    }
}

impl<'lt, T, U> TempVec<'lt, T, U> {
    /// Both vectors fit in their allocations, and the one in the buffer has no elements.
    pub open spec fn wf(&self) -> bool {
        &&& self.from.elements.wf()
        &&& self.from.elements@ == Seq::<T>::empty()
        &&& self.vec.wf()
    }

    /// Returns the allocation to the buffer. The elements are dropped.
    pub fn finish(self)
        requires
            self.wf(),
        ensures
            final(self.from.elements).wf(),
            final(self.from.elements)@ == Seq::<T>::empty(),
            final(self.from.elements).spec_buffer() == self@.buffer,
    {
        let mut this: TempVec<'lt, T, U> = self;
        this.from.swap_internal_with(&mut this.vec);
    }

    /// The vector.
    pub fn deref(&self) -> (vec: &RawVec<U>)
        ensures
            *vec == self.vec,
    {
        &self.vec
    }

    /// The vector, which can be changed.
    pub fn deref_mut(&mut self) -> (vec: &mut RawVec<U>)
        ensures
            *vec == old(self).vec,
            final(self).vec == *final(vec),
            final(self).from == old(self).from,
    {
        &mut self.vec
    }
}

impl<'lt, T, U> Wrap<'lt, T, U> {
    /// Puts the evidence beside a vector.
    pub fn new(vec: &'lt mut RawVec<T>, marker: SameLayout<T, U>) -> (r: Self)
        ensures
            *r.elements == *old(vec),
            *final(vec) == *final(r.elements),
            r.marker == marker,
    {
        Wrap { elements: vec, marker }
    }

    /// Swaps the allocations of the two vectors. The elements of both are dropped.
    pub fn swap_internal_with(&mut self, v: &mut RawVec<U>)
        requires
            old(self).elements.wf(),
            old(v).wf(),
        ensures
            final(self).marker == old(self).marker,
            *final(final(self).elements) == *final(old(self).elements),
            final(self).elements.wf(),
            final(self).elements@ == Seq::<T>::empty(),
            final(v).wf(),
            final(v)@ == Seq::<U>::empty(),
            (Loan { own: final(self).elements.spec_buffer(), lent: final(v).spec_buffer() })
                == (Loan {
                own: old(self).elements.spec_buffer(),
                lent: old(v).spec_buffer(),
            }).swapped(),
    {
        let mut temp: RawVec<U> = v.take();

        temp.clear();
        let mut temp: RawVec<T> = self.marker.transpose().forget_vec(temp);
        core::mem::swap(&mut temp, self.elements);

        temp.clear();
        *v = self.marker.forget_vec(temp);
    }
}

/// An allocation that suits one of two types with the same layout suits the other.
pub proof fn law_allocation_suits_both<A, B>(buffer: Buffer)
    requires
        crate::same_alloc::same::same_layout::<A, B>(),
    ensures
        buffer.suits::<A>() <==> buffer.suits::<B>(),
{
}

/// A vector holds exactly the values that are appended to it, in their order, behind those that it
/// held before; and it does not need another allocation before they exceed its capacity.
pub proof fn law_values_are_appended_in_order<U>(states: Seq<Contents<U>>, values: Seq<U>)
    requires
        is_run(states, pushes(values)),
    ensures
        states.last().elements == states[0].elements + values,
        states[0].elements.len() + values.len() <= states[0].buffer.capacity
            ==> states.last().buffer == states[0].buffer,
    decreases values.len(),
{
    if values.len() == 0 {
        assert(states[0].elements + values =~= states[0].elements);
    } else {
        let steps = pushes(values);
        let before = states.drop_last();
        assert(pushes(values.drop_last()) =~= steps.drop_last());
        assert forall|i: int|
            #![trigger steps.drop_last()[i]]
            0 <= i < steps.drop_last().len() implies before[i].leads_to(
            steps.drop_last()[i],
            before[i + 1],
        ) by {
            assert(steps[i] == steps.drop_last()[i]);
        }
        law_values_are_appended_in_order(before, values.drop_last());
        assert(steps[values.len() - 1] == Step::Push(values.last()));
        assert((states[0].elements + values.drop_last()).push(values.last())
            =~= states[0].elements + values);
    }
}

/// What a vector holds follows from what was done to it alone: neither the allocation that it
/// started with, nor those that it got, can be seen in its elements, nor in anything that is
/// computed from them.
pub proof fn law_earlier_uses_do_not_show<U, R>(
    first: Seq<Contents<U>>,
    second: Seq<Contents<U>>,
    steps: Seq<Step<U>>,
    select: spec_fn(Seq<U>) -> R,
)
    requires
        first[0].elements == second[0].elements,
        is_run(first, steps),
        is_run(second, steps),
    ensures
        first.last().elements == second.last().elements,
        select(first.last().elements) == select(second.last().elements),
{
    lemma_same_elements(first, second, steps, steps.len() as int);
}

/// Two vectors that held the same elements do so after the same steps.
proof fn lemma_same_elements<U>(
    first: Seq<Contents<U>>,
    second: Seq<Contents<U>>,
    steps: Seq<Step<U>>,
    n: int,
)
    requires
        first[0].elements == second[0].elements,
        is_run(first, steps),
        is_run(second, steps),
        0 <= n <= steps.len(),
    ensures
        first[n].elements == second[n].elements,
    decreases n,
{
    if n > 0 {
        lemma_same_elements(first, second, steps, n - 1);
        let step = steps[n - 1];
        assert(first[n - 1].leads_to(step, first[n]));
        assert(second[n - 1].leads_to(step, second[n]));
    }
}

/// Swapping allocations twice leaves them where they were.
pub proof fn law_swapping_twice_changes_nothing(loan: Loan)
    ensures
        loan.swapped().swapped() == loan,
{
}

/// An element is appended behind all others, which stay.
pub proof fn law_push_appends_one<U>(before: Contents<U>, value: U, after: Contents<U>)
    requires
        before.leads_to(Step::Push(value), after),
    ensures
        after.elements.len() == before.elements.len() + 1,
        after.elements[before.elements.len() as int] == value,
        forall|i: int|
            0 <= i < before.elements.len() ==> #[trigger] after.elements[i] == before.elements[i],
        before.elements.len() < before.buffer.capacity ==> after.buffer == before.buffer,
{
}

/// Elements are appended in their order behind all others, which stay; and it makes no difference
/// whether they are appended together or one by one.
pub proof fn law_extend_appends_as_pushes_do<U>(
    before: Contents<U>,
    values: Seq<U>,
    after: Contents<U>,
    states: Seq<Contents<U>>,
)
    requires
        before.leads_to(Step::Extend(values), after),
        is_run(states, pushes(values)),
        states[0].elements == before.elements,
    ensures
        after.elements.len() == before.elements.len() + values.len(),
        after.elements.take(before.elements.len() as int) == before.elements,
        after.elements.skip(before.elements.len() as int) == values,
        after.elements == states.last().elements,
        before.elements.len() + values.len() <= before.buffer.capacity ==> after.buffer
            == before.buffer,
{
    law_values_are_appended_in_order(states, values);
}

/// Elements that are appended together are behind all others, in their order.
pub proof fn law_extend_appends_in_order<U>(before: Contents<U>, values: Seq<U>, after: Contents<U>)
    requires
        before.leads_to(Step::Extend(values), after),
    ensures
        after.elements.len() == before.elements.len() + values.len(),
        forall|i: int|
            0 <= i < before.elements.len() ==> #[trigger] after.elements[i] == before.elements[i],
        forall|i: int|
            0 <= i < values.len() ==> after.elements[before.elements.len() + i]
                == #[trigger] values[i],
{
}

/// Appending some values and then others is appending all of them.
pub proof fn law_extending_twice_is_extending_once<U>(
    before: Contents<U>,
    first: Seq<U>,
    between: Contents<U>,
    second: Seq<U>,
    after: Contents<U>,
    at_once: Contents<U>,
)
    requires
        before.leads_to(Step::Extend(first), between),
        between.leads_to(Step::Extend(second), after),
        before.leads_to(Step::Extend(first + second), at_once),
    ensures
        after.elements == at_once.elements,
{
    assert(before.elements + first + second =~= before.elements + (first + second));
}

/// Making room changes no element, gives the room that was asked for, and keeps an allocation that
/// has it.
pub proof fn law_reserve_makes_room<U>(before: Contents<U>, additional: int, after: Contents<U>)
    requires
        before.leads_to(Step::Reserve(additional), after),
    ensures
        after.elements.len() == before.elements.len(),
        forall|i: int|
            0 <= i < before.elements.len() ==> #[trigger] after.elements[i] == before.elements[i],
        before.elements.len() + additional <= after.buffer.capacity,
        before.elements.len() + additional <= before.buffer.capacity ==> after.buffer
            == before.buffer,
{
}

/// Clearing removes all elements and keeps the allocation.
pub proof fn law_clear_leaves_the_allocation<U>(before: Contents<U>, after: Contents<U>)
    requires
        before.leads_to(Step::Clear, after),
    ensures
        after.elements.len() == 0,
        after.buffer.addr == before.buffer.addr,
        after.buffer.capacity == before.buffer.capacity,
{
}

/// Swapping gives each of two vectors the allocation of the other.
pub proof fn law_swapping_exchanges_the_allocations(loan: Loan)
    ensures
        loan.swapped().own == loan.lent,
        loan.swapped().lent == loan.own,
{
}

/// An allocation suits a type exactly if it can lie where it lies, and its elements are no more
/// than fit in one block of memory; any number of elements without a size fits.
pub proof fn law_allocations_of_a_vector<T>(buffer: Buffer)
    ensures
        buffer.suits::<T>() <==> {
            &&& buffer.addr != 0
            &&& buffer.addr as int % vstd::layout::align_of::<T>() as int == 0
            &&& vstd::layout::size_of::<T>() == 0 ==> buffer.capacity == usize::MAX
            &&& vstd::layout::size_of::<T>() > 0 ==> vstd::layout::size_of::<T>() * buffer.capacity
                <= isize::MAX
        },
{
    vstd::arithmetic::mul::lemma_mul_is_commutative(
        vstd::layout::size_of::<T>() as int,
        buffer.capacity as int,
    );
}

/// A vector is its elements and its allocation, and can have any elements that fit.
pub proof fn law_vector_is_elements_and_allocation<T>(vec: RawVec<T>)
    ensures
        vec.contents().elements == vec@,
        vec.contents().buffer == vec.spec_buffer(),
        vec.wf() <==> vec.spec_buffer().suits::<T>() && vec@.len() <= vec.spec_buffer().capacity,
{
}

/// A buffer is the allocation of a vector without elements.
pub proof fn law_buffer_is_an_allocation<T>(buf: SameVec<T>)
    ensures
        buf.spec_buffer() == buf.spec_elements().spec_buffer(),
        buf.wf() <==> buf.spec_elements().wf() && buf.spec_elements()@.len() == 0,
{
    if buf.spec_elements()@.len() == 0 {
        assert(buf.spec_elements()@ =~= Seq::<T>::empty());
    }
}

/// A view can be finished whatever its vector holds, and whichever allocation it has.
pub proof fn law_every_view_can_be_finished<'lt, T, U>(temp: TempVec<'lt, T, U>)
    ensures
        temp@.elements == temp.vec@,
        temp@.buffer == temp.vec.spec_buffer(),
        old(temp.from.elements).wf() && old(temp.from.elements)@.len() == 0 && temp.vec.wf()
            ==> temp.wf(),
{
    if temp.from.elements@.len() == 0 {
        assert(temp.from.elements@ =~= Seq::<T>::empty());
    }
}

} // verus!
