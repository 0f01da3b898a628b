//! Arithmetic on addresses and alignments.
use vstd::prelude::*;

verus! {

/// The number of bytes between `addr` and the first multiple of `align` at or above it.
pub open spec fn padding(addr: int, align: int) -> int
    recommends
        align > 0,
{
    (-addr) % align
}

/// The first multiple of `align` at or above `addr`.
pub open spec fn round_up(addr: int, align: int) -> int
    recommends
        align > 0,
{
    addr + padding(addr, align)
}

/// The padding leads to a multiple of the alignment, and no smaller step does.
pub proof fn lemma_padding(addr: int, align: int)
    requires
        align > 0,
    ensures
        0 <= padding(addr, align) < align,
        round_up(addr, align) % align == 0,
        forall|n: int| 0 <= n && #[trigger] ((addr + n) % align) == 0 ==> padding(addr, align) <= n,
        addr % align == 0 ==> padding(addr, align) == 0,
        addr % align != 0 ==> padding(addr, align) == align - addr % align,
{
    let q = addr / align;
    let r = addr % align;
    vstd::arithmetic::div_mod::lemma_fundamental_div_mod(addr, align);
    vstd::arithmetic::div_mod::lemma_mod_bound(addr, align);
    if r == 0 {
        assert(-addr == (-q) * align + 0) by (nonlinear_arith)
            requires
                addr == align * q + r,
                r == 0,
        ;
        vstd::arithmetic::div_mod::lemma_fundamental_div_mod_converse(-addr, align, -q, 0);
    } else {
        assert(-addr == (-q - 1) * align + (align - r)) by (nonlinear_arith)
            requires
                addr == align * q + r,
        ;
        vstd::arithmetic::div_mod::lemma_fundamental_div_mod_converse(
            -addr,
            align,
            -q - 1,
            align - r,
        );
        assert(addr + padding(addr, align) == (q + 1) * align) by (nonlinear_arith)
            requires
                addr == align * q + r,
                padding(addr, align) == align - r,
        ;
        vstd::arithmetic::div_mod::lemma_mod_multiples_basic(q + 1, align);
    }
    assert forall|n: int| 0 <= n && #[trigger] ((addr + n) % align) == 0 implies padding(
        addr,
        align,
    ) <= n by {
        if r != 0 && n < align - r {
            assert(addr + n == q * align + (r + n)) by (nonlinear_arith)
                requires
                    addr == align * q + r,
            ;
            vstd::arithmetic::div_mod::lemma_fundamental_div_mod_converse(
                addr + n,
                align,
                q,
                r + n,
            );
        }
    }
}

/// Rounding up keeps the order of addresses.
pub proof fn lemma_round_up_monotone(low: int, high: int, align: int)
    requires
        align > 0,
        low <= high,
    ensures
        round_up(low, align) <= round_up(high, align),
{
    lemma_padding(low, align);
    lemma_padding(high, align);
    let n = round_up(high, align) - low;
    assert(low + n == round_up(high, align));
    assert((low + n) % align == 0);
}

/// Rounding up commutes with a step by a multiple of the alignment.
pub proof fn lemma_round_up_shifts(addr: int, step: int, align: int)
    requires
        align > 0,
        step % align == 0,
    ensures
        padding(addr + step, align) == padding(addr, align),
        round_up(addr + step, align) == round_up(addr, align) + step,
{
    lemma_padding(addr, align);
    lemma_padding(addr + step, align);
    lemma_sum_of_multiples(round_up(addr, align), step, align);
    lemma_sum_of_multiples(round_up(addr + step, align), step, align);
    let there = padding(addr, align);
    let back = padding(addr + step, align);
    assert(addr + step + there == round_up(addr, align) + step);
    assert((addr + step + there) % align == 0);
    assert(addr + back == round_up(addr + step, align) - step);
    assert((addr + back) % align == 0);
}

/// Of two powers of two the smaller one divides the larger one.
pub proof fn lemma_pow2_divides(small: int, large: int)
    requires
        vstd::arithmetic::power2::is_pow2(small),
        vstd::arithmetic::power2::is_pow2(large),
        small <= large,
    ensures
        small > 0,
        large % small == 0,
    decreases large,
{
    lemma_pow2_positive(small);
    lemma_pow2_positive(large);
    reveal(vstd::arithmetic::power2::is_pow2);
    if small == 1 {
    } else {
        lemma_pow2_divides(small / 2, large / 2);
        let s = small / 2;
        let l = large / 2;
        let q = l / s;
        vstd::arithmetic::div_mod::lemma_fundamental_div_mod(l, s);
        assert(large == q * small) by (nonlinear_arith)
            requires
                l == s * q,
                large == 2 * l,
                small == 2 * s,
        ;
        vstd::arithmetic::div_mod::lemma_mod_multiples_basic(q, small);
    }
}

/// A power of two is positive.
pub proof fn lemma_pow2_positive(n: int)
    requires
        vstd::arithmetic::power2::is_pow2(n),
    ensures
        n > 0,
{
    reveal(vstd::arithmetic::power2::is_pow2);
}

/// A power of two below another one is at most its half.
proof fn lemma_pow2_half(small: int, large: int)
    requires
        vstd::arithmetic::power2::is_pow2(small),
        vstd::arithmetic::power2::is_pow2(large),
        small < large,
    ensures
        2 * small <= large,
{
    lemma_pow2_divides(small, large);
    vstd::arithmetic::div_mod::lemma_fundamental_div_mod(large, small);
    let k = large / small;
    assert(2 * small <= small * k) by (nonlinear_arith)
        requires
            small > 0,
            small < small * k,
    ;
}

/// Twice a power of two that is a `usize` is at most one more than the largest `usize`.
pub proof fn lemma_pow2_half_usize(n: int)
    requires
        vstd::arithmetic::power2::is_pow2(n),
        n <= usize::MAX,
    ensures
        2 * n <= usize::MAX + 1,
{
    lemma_word_sizes();
    lemma_pow2_half(n, usize::MAX + 1);
}

/// Twice a power of two that is an `isize` is at most one more than the largest `isize`.
pub proof fn lemma_pow2_half_isize(n: int)
    requires
        vstd::arithmetic::power2::is_pow2(n),
        n <= isize::MAX,
    ensures
        2 * n <= isize::MAX + 1,
{
    lemma_word_sizes();
    lemma_pow2_half(n, isize::MAX + 1);
}

/// The numbers of values of `usize`, and of values of `isize` that are not negative.
proof fn lemma_word_sizes()
    ensures
        vstd::arithmetic::power2::is_pow2(usize::MAX + 1),
        vstd::arithmetic::power2::is_pow2(isize::MAX + 1),
{
    reveal(vstd::arithmetic::power2::is_pow2);
    reveal_with_fuel(vstd::arithmetic::power2::is_pow2, 66);
}

/// A multiple of a multiple of `small` is a multiple of `small`.
pub proof fn lemma_multiple_of_divisor(addr: int, small: int, large: int)
    requires
        small > 0,
        large > 0,
        large % small == 0,
        addr % large == 0,
    ensures
        addr % small == 0,
{
    let q = addr / large;
    let k = large / small;
    vstd::arithmetic::div_mod::lemma_fundamental_div_mod(addr, large);
    vstd::arithmetic::div_mod::lemma_fundamental_div_mod(large, small);
    assert(addr == (q * k) * small) by (nonlinear_arith)
        requires
            addr == large * q,
            large == small * k,
    ;
    vstd::arithmetic::div_mod::lemma_mod_multiples_basic(q * k, small);
}

/// The sum of two multiples of `align` is a multiple of `align`.
pub proof fn lemma_sum_of_multiples(a: int, b: int, align: int)
    requires
        align > 0,
        a % align == 0,
        b % align == 0,
    ensures
        (a + b) % align == 0,
        (a - b) % align == 0,
{
    vstd::arithmetic::div_mod::lemma_add_mod_noop(a, b, align);
    vstd::arithmetic::div_mod::lemma_sub_mod_noop(a, b, align);
    vstd::arithmetic::div_mod::lemma_small_mod(0, align as nat);
}

/// Computes how many bytes to skip from `addr` to reach a multiple of `align`.
pub fn align_offset(addr: usize, align: usize) -> (offset: usize)
    requires
        align > 0,
    ensures
        offset == padding(addr as int, align as int),
{
    proof {
        lemma_padding(addr as int, align as int);
    }
    let rest: usize = addr % align;
    if rest == 0 {
        0
    } else {
        align - rest
    }
}

/// Rounding up leads to a multiple of the alignment that is not smaller, and no other such multiple
/// is closer. The padding is the way there.
pub proof fn law_round_up_is_the_next_multiple(addr: int, align: int, multiple: int)
    requires
        align > 0,
    ensures
        addr <= round_up(addr, align),
        round_up(addr, align) % align == 0,
        multiple % align == 0 && addr <= multiple ==> round_up(addr, align) <= multiple,
        padding(addr, align) == round_up(addr, align) - addr,
{
    lemma_padding(addr, align);
    if multiple % align == 0 && addr <= multiple {
        assert((addr + (multiple - addr)) % align == 0);
    }
}

} // verus!
