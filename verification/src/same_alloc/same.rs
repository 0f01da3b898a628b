//! The evidence that two types have the same layout.
use crate::layout::Layout;
use core::marker::PhantomData;
use vstd::prelude::*;

verus! {

/// The evidence that `A` and `B` have the same size and the same alignment.
///
/// There is a value of this type only if they have.
pub struct SameLayout<A, B> {
    marker: PhantomData<(A, B)>,
}

/// Whether two types have the same size and the same alignment.
pub open spec fn same_layout<A, B>() -> bool {
    &&& vstd::layout::size_of::<A>() == vstd::layout::size_of::<B>()
    &&& vstd::layout::align_of::<A>() == vstd::layout::align_of::<B>()
}

impl<A, B> Copy for SameLayout<A, B> {

}

impl<A, B> Clone for SameLayout<A, B> {
    fn clone(&self) -> (r: Self)
        ensures
            r == *self,
    {
        *self
    }
}

impl<A, B> SameLayout<A, B> {
    /// The values of this type that exist at run time.
    #[verifier::type_invariant]
    pub open spec fn wf(self) -> bool {
        same_layout::<A, B>()
    }

    /// Compares the layouts of the two types.
    pub fn new() -> (r: Option<Self>)
        ensures
            r is Some <==> same_layout::<A, B>(),
            r is Some <==> vstd::layout::size_of::<A>() == vstd::layout::size_of::<B>()
                && vstd::layout::align_of::<A>() == vstd::layout::align_of::<B>(),
    {
        let a: Layout = Layout::new::<A>();
        let b: Layout = Layout::new::<B>();
        if a.size() == b.size() && a.align() == b.align() {
            Some(SameLayout { marker: PhantomData })
        } else {
            None
        }
    }

    /// What holds of `A` and `B` holds of `B` and `A`.
    pub fn transpose(self) -> (r: SameLayout<B, A>)
        ensures
            same_layout::<A, B>(),
            r.wf(),
    {
        proof {
            use_type_invariant(&self);
        }
        SameLayout { marker: PhantomData }
    }
}

/// Two types can use one allocation in turn exactly if they have the same size and the same
/// alignment, whatever these are.
pub proof fn law_same_layout_is_size_and_alignment<A, B>()
    ensures
        vstd::layout::size_of::<A>() == vstd::layout::size_of::<B>()
            && vstd::layout::align_of::<A>() == vstd::layout::align_of::<B>() ==> same_layout::<
            A,
            B,
        >(),
        vstd::layout::size_of::<A>() != vstd::layout::size_of::<B>() ==> !same_layout::<A, B>(),
        vstd::layout::align_of::<A>() != vstd::layout::align_of::<B>() ==> !same_layout::<A, B>(),
{
}

/// Every type has the layout of itself; and it does not matter in which order, nor over how many
/// types, layouts are compared.
pub proof fn law_same_layout_is_an_equivalence<A, B, C>()
    ensures
        same_layout::<A, A>(),
        same_layout::<A, B>() == same_layout::<B, A>(),
        same_layout::<A, B>() && same_layout::<B, C>() ==> same_layout::<A, C>(),
{
}

} // verus!
