//! Sizes and alignments of blocks of memory.
use crate::align::align_offset;
use vstd::prelude::*;

verus! {

/// The size and the alignment that a block of memory has to have.
///
/// The alignment is a power of two, and the size does not exceed `isize::MAX` when it is rounded
/// up to a multiple of the alignment.
#[derive(Clone, Copy, Debug, PartialEq, Eq, Structural)]
pub struct Layout {
    size: usize,
    align: usize,
}

/// The parameters given do not describe a layout.
#[derive(Clone, Copy, Debug, PartialEq, Eq, Structural)]
pub struct LayoutError;

/// What a size and an alignment have to meet to form a layout.
pub open spec fn describes_layout(size: int, align: int) -> bool {
    &&& vstd::arithmetic::power2::is_pow2(align)
    &&& 0 <= size
    &&& crate::align::round_up(size, align) <= isize::MAX
}

/// The size of a structure that holds `first` and, after it, `second`, before its trailing padding.
pub open spec fn extended_size(first: Layout, second: Layout) -> int {
    crate::align::round_up(first.spec_size(), second.spec_align()) + second.spec_size()
}

/// The larger of two alignments.
pub open spec fn larger(a: int, b: int) -> int {
    if a >= b {
        a
    } else {
        b
    }
}

impl Layout {
    /// The size in bytes.
    pub closed spec fn spec_size(self) -> int {
        self.size as int
    }

    /// The alignment in bytes.
    pub closed spec fn spec_align(self) -> int {
        self.align as int
    }

    /// The layout of a size and an alignment.
    pub closed spec fn from_parts(size: int, align: int) -> Layout {
        Layout { size: size as usize, align: align as usize }
    }

    /// The layout of a value of type `T`.
    pub open spec fn of<T>() -> Layout {
        Layout::of_array::<T>(1)
    }

    /// The layout of `n` values of type `T`, one after the other.
    pub open spec fn of_array<T>(n: int) -> Layout {
        Layout::from_parts(
            n * vstd::layout::size_of::<T>(),
            vstd::layout::align_of::<T>() as int,
        )
    }

    /// The values of this type that exist at run time.
    #[verifier::type_invariant]
    pub open spec fn wf(self) -> bool {
        describes_layout(self.spec_size(), self.spec_align())
    }

    /// Every layout has a positive alignment, and a size that is at most `isize::MAX`.
    pub proof fn lemma_bounds(self)
        requires
            self.wf(),
        ensures
            0 < self.spec_align() <= usize::MAX,
            0 <= self.spec_size() <= isize::MAX,
    {
        crate::align::lemma_pow2_positive(self.spec_align());
        crate::align::lemma_padding(self.spec_size(), self.spec_align());
    }

    /// The layout of a type has the size and the alignment of the type.
    pub proof fn lemma_of<T>()
        requires
            describes_layout(
                vstd::layout::size_of::<T>() as int,
                vstd::layout::align_of::<T>() as int,
            ),
            vstd::layout::align_of::<T>() <= usize::MAX,
        ensures
            Layout::of::<T>().wf(),
            Layout::of::<T>().spec_size() == vstd::layout::size_of::<T>(),
            Layout::of::<T>().spec_align() == vstd::layout::align_of::<T>(),
    {
        crate::align::lemma_pow2_positive(vstd::layout::align_of::<T>() as int);
        crate::align::lemma_padding(
            vstd::layout::size_of::<T>() as int,
            vstd::layout::align_of::<T>() as int,
        );
    }

    /// The size of a block with this layout.
    pub fn size(&self) -> (size: usize)
        ensures
            size == self.spec_size(),
    {
        self.size
    }

    /// The alignment of a block with this layout.
    pub fn align(&self) -> (align: usize)
        ensures
            align == self.spec_align(),
    {
        self.align
    }

    /// Forms a layout of a size and an alignment.
    pub fn from_size_align(size: usize, align: usize) -> (layout: Result<Layout, LayoutError>)
        ensures
            layout is Ok <==> describes_layout(size as int, align as int),
            layout matches Ok(l) ==> l.spec_size() == size && l.spec_align() == align,
    {
        if !is_power_of_two(align) {
            return Err(LayoutError);
        }
        proof {
            crate::align::lemma_pow2_positive(align as int);
            crate::align::lemma_padding(size as int, align as int);
        }
        let limit: usize = isize::MAX as usize;
        if size > limit || align_offset(size, align) > limit - size {
            return Err(LayoutError);
        }
        Ok(Layout { size, align })
    }

    /// The layout of a value of type `T`.
    pub fn new<T>() -> (layout: Layout)
        ensures
            layout.wf(),
            layout == Layout::of::<T>(),
            layout.spec_size() == vstd::layout::size_of::<T>(),
            layout.spec_align() == vstd::layout::align_of::<T>(),
            layout.spec_size() % layout.spec_align() == 0,
    {
        vstd::layout::layout_for_type_is_valid::<T>();
        let size: usize = core::mem::size_of::<T>();
        let align: usize = core::mem::align_of::<T>();
        proof {
            lemma_valid_layout(size, align);
        }
        Layout { size, align }
    }

    /// The layout of `n` values of type `T`, one after the other.
    ///
    /// There is none if together they exceed the size that a layout can have.
    pub fn array<T>(n: usize) -> (layout: Result<Layout, LayoutError>)
        ensures
            layout is Ok <==> n * vstd::layout::size_of::<T>() <= isize::MAX,
            layout matches Ok(l) ==> {
                &&& l.wf()
                &&& l == Layout::of_array::<T>(n as int)
                &&& l.spec_size() == n * vstd::layout::size_of::<T>()
                &&& l.spec_align() == vstd::layout::align_of::<T>()
            },
    {
        let item: Layout = Layout::new::<T>();
        let ghost total: int = n * item.spec_size();
        proof {
            item.lemma_bounds();
            assert(total % item.spec_align() == 0 && total >= 0) by {
                let k = item.spec_size() / item.spec_align();
                vstd::arithmetic::div_mod::lemma_fundamental_div_mod(
                    item.spec_size(),
                    item.spec_align(),
                );
                assert(n * item.spec_size() == (n * k) * item.spec_align()) by (nonlinear_arith)
                    requires
                        item.spec_size() == item.spec_align() * k,
                ;
                vstd::arithmetic::div_mod::lemma_mod_multiples_basic(n * k, item.spec_align());
                vstd::arithmetic::mul::lemma_mul_nonnegative(n as int, item.spec_size());
            }
            crate::align::lemma_padding(total, item.spec_align());
        }
        match n.checked_mul(item.size) {
            None => Err(LayoutError),
            Some(size) => if size > isize::MAX as usize {
                Err(LayoutError)
            } else {
                Ok(Layout { size, align: item.align })
            },
        }
    }

    /// The layout of a structure that holds this and, after it, `next`; and where in it `next` is.
    ///
    /// The structure is not padded at its end.
    pub fn extend(&self, next: Layout) -> (r: Result<(Layout, usize), LayoutError>)
        ensures
            r is Ok <==> describes_layout(
                extended_size(*self, next),
                larger(self.spec_align(), next.spec_align()),
            ),
            r matches Ok((l, offset)) ==> {
                &&& l.wf()
                &&& l.spec_size() == extended_size(*self, next)
                &&& l.spec_align() == larger(self.spec_align(), next.spec_align())
                &&& offset == crate::align::round_up(self.spec_size(), next.spec_align())
            },
    {
        proof {
            use_type_invariant(self);
            use_type_invariant(&next);
            self.lemma_bounds();
            next.lemma_bounds();
            crate::align::lemma_padding(self.spec_size(), next.spec_align());
            crate::align::lemma_padding(
                extended_size(*self, next),
                larger(self.spec_align(), next.spec_align()),
            );
        }
        let align: usize = if self.align >= next.align {
            self.align
        } else {
            next.align
        };
        match self.size.checked_add(align_offset(self.size, next.align)) {
            None => Err(LayoutError),
            Some(offset) => match offset.checked_add(next.size) {
                None => Err(LayoutError),
                Some(size) => match Layout::from_size_align(size, align) {
                    Ok(layout) => {
                        proof {
                            use_type_invariant(&layout);
                        }
                        Ok((layout, offset))
                    },
                    Err(e) => Err(e),
                },
            },
        }
    }

    /// This layout with its size rounded up to a multiple of its alignment.
    pub fn pad_to_align(&self) -> (layout: Layout)
        ensures
            layout.wf(),
            layout.spec_size() == crate::align::round_up(self.spec_size(), self.spec_align()),
            layout.spec_align() == self.spec_align(),
    {
        proof {
            use_type_invariant(self);
            self.lemma_bounds();
            crate::align::lemma_padding(self.spec_size(), self.spec_align());
            crate::align::lemma_padding(
                crate::align::round_up(self.spec_size(), self.spec_align()),
                self.spec_align(),
            );
        }
        Layout { size: self.size + align_offset(self.size, self.align), align: self.align }
    }
}

/// Every type has a size and an alignment that describe a layout.
proof fn lemma_valid_layout(size: usize, align: usize)
    requires
        vstd::layout::valid_layout(size, align),
    ensures
        describes_layout(size as int, align as int),
{
    let (s, a) = (size as int, align as int);
    let limit = isize::MAX as int - isize::MAX as int % a;
    crate::align::lemma_pow2_positive(a);
    crate::align::lemma_padding(s, a);
    vstd::arithmetic::div_mod::lemma_fundamental_div_mod(isize::MAX as int, a);
    vstd::arithmetic::div_mod::lemma_mod_bound(isize::MAX as int, a);
    let q = isize::MAX as int / a;
    assert(limit == q * a) by (nonlinear_arith)
        requires
            isize::MAX as int == a * q + isize::MAX as int % a,
            limit == isize::MAX as int - isize::MAX as int % a,
    ;
    vstd::arithmetic::div_mod::lemma_mod_multiples_basic(q, a);
    let n = limit - s;
    assert((s + n) % a == 0);
}

/// Tells whether a number is a power of two.
pub fn is_power_of_two(n: usize) -> (r: bool)
    ensures
        r == vstd::arithmetic::power2::is_pow2(n as int),
{
    proof {
        reveal(vstd::arithmetic::power2::is_pow2);
    }
    let mut rest: usize = n;
    while rest > 1 && rest % 2 == 0
        invariant
            vstd::arithmetic::power2::is_pow2(rest as int) == vstd::arithmetic::power2::is_pow2(
                n as int,
            ),
        decreases rest,
    {
        proof {
            reveal(vstd::arithmetic::power2::is_pow2);
        }
        rest = rest / 2;
    }
    rest == 1
}

/// A size and a power of two form a layout exactly if some multiple of the power of two is at least
/// the size and at most the size of the largest block.
pub proof fn law_layout_has_a_padded_size(size: int, align: int)
    requires
        vstd::arithmetic::power2::is_pow2(align),
        0 <= size,
    ensures
        describes_layout(size, align) <==> exists|multiple: int|
            size <= multiple <= isize::MAX && #[trigger] (multiple % align) == 0,
{
    crate::align::lemma_pow2_positive(align);
    let next = crate::align::round_up(size, align);
    crate::align::law_round_up_is_the_next_multiple(size, align, next);
    if describes_layout(size, align) {
        assert(next % align == 0);
    }
    assert forall|multiple: int|
        size <= multiple <= isize::MAX && #[trigger] (multiple % align) == 0 implies next
        <= isize::MAX by {
        crate::align::law_round_up_is_the_next_multiple(size, align, multiple);
    }
}

/// Nothing else forms a layout: not a size below zero, nor an alignment that is no power of two.
pub proof fn law_other_sizes_form_no_layout(size: int, align: int)
    requires
        size < 0 || !vstd::arithmetic::power2::is_pow2(align),
    ensures
        !describes_layout(size, align),
{
}

/// A layout is its size and its alignment, and nothing else.
pub proof fn law_size_and_alignment_determine_a_layout(a: Layout, b: Layout)
    requires
        a.spec_size() == b.spec_size(),
        a.spec_align() == b.spec_align(),
    ensures
        a == b,
        a.wf() <==> describes_layout(a.spec_size(), a.spec_align()),
{
}

/// The layout of `n` values has their alignment, and `n` times their size; that of one value has
/// its size.
pub proof fn law_layout_of_values<T>(n: int)
    requires
        0 <= n,
        n * vstd::layout::size_of::<T>() <= usize::MAX,
        vstd::layout::size_of::<T>() <= usize::MAX,
        vstd::layout::align_of::<T>() <= usize::MAX,
    ensures
        Layout::of_array::<T>(n).spec_size() == n * vstd::layout::size_of::<T>(),
        Layout::of_array::<T>(n).spec_align() == vstd::layout::align_of::<T>(),
        Layout::of::<T>().spec_size() == vstd::layout::size_of::<T>(),
        Layout::of::<T>().spec_align() == vstd::layout::align_of::<T>(),
{
    vstd::arithmetic::mul::lemma_mul_nonnegative(n, vstd::layout::size_of::<T>() as int);
}

/// A structure of two parts holds the second one at the first aligned offset behind the first one,
/// and ends with it; its alignment suits both parts, and is that of one of them.
pub proof fn law_second_part_follows_the_first(first: Layout, second: Layout, offset: int)
    requires
        second.spec_align() > 0,
    ensures
        ({
            let at = extended_size(first, second) - second.spec_size();
            &&& first.spec_size() <= at
            &&& at % second.spec_align() == 0
            &&& first.spec_size() <= offset && offset % second.spec_align() == 0 ==> at <= offset
            &&& at == crate::align::round_up(first.spec_size(), second.spec_align())
        }),
        ({
            let align = larger(first.spec_align(), second.spec_align());
            &&& first.spec_align() <= align
            &&& second.spec_align() <= align
            &&& align == first.spec_align() || align == second.spec_align()
        }),
{
    crate::align::law_round_up_is_the_next_multiple(
        first.spec_size(),
        second.spec_align(),
        offset,
    );
}

} // verus!
