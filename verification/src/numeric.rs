//! Powers of two, masks and rounding.

use vstd::arithmetic::power2::is_pow2;
use vstd::prelude::*;

verus! {

/// The smallest multiple of `align` that is at least `x`.
pub open spec fn round_up(x: int, align: int) -> int {
    ((x + align - 1) / align) * align
}

/// What `round_up` is for: the multiple lies within one `align` of `x`.
pub proof fn lemma_round_up(x: int, align: int)
    requires
        align > 0,
    ensures
        x <= round_up(x, align) < x + align,
        round_up(x, align) % align == 0,
{
    let z = x + align - 1;
    vstd::arithmetic::div_mod::lemma_fundamental_div_mod(z, align);
    vstd::arithmetic::mul::lemma_mul_is_commutative(z / align, align);
    vstd::arithmetic::div_mod::lemma_mod_multiples_basic(z / align, align);
}

/// A multiple of `align` within one `align` of `x` is `round_up(x, align)`.
pub proof fn lemma_round_up_unique(x: int, align: int, y: int)
    requires
        align > 0,
        x <= y < x + align,
        y % align == 0,
    ensures
        y == round_up(x, align),
{
    lemma_round_up(x, align);
    let r = round_up(x, align);
    vstd::arithmetic::div_mod::lemma_fundamental_div_mod(y, align);
    vstd::arithmetic::div_mod::lemma_fundamental_div_mod(r, align);
    let (p, q) = (y / align, r / align);
    assert(p == q) by (nonlinear_arith)
        requires
            y == align * p,
            r == align * q,
            -align < y - r < align,
            align > 0,
    ;
}

/// Whether `n` is one of 1, 2, 4, 8, ...
pub fn is_power_of_two(n: usize) -> (r: bool)
    ensures
        r == is_pow2(n as int),
    decreases n,
{
    reveal(is_pow2);
    if n == 0 {
        false
    } else if n == 1 {
        true
    } else {
        n % 2 == 0 && is_power_of_two(n / 2)
    }
}

/// Masking with one less than a power of two takes the remainder.
pub proof fn lemma_mask_is_mod(x: usize, n: usize)
    requires
        is_pow2(n as int),
    ensures
        x & ((n - 1) as usize) == x % n,
{
    vstd::arithmetic::power2::is_pow2_equiv(n as int);
    assert(vstd::arithmetic::power2::is_pow2_exists(n as int));
    let k = choose|k: nat| vstd::arithmetic::power::pow(2, k) == n as int;
    assert(vstd::arithmetic::power::pow(2, k) == n as int);
    vstd::arithmetic::power2::lemma_pow2_pos(k);
    vstd::layout::unsigned_int_max_values();
    if k > usize::BITS {
        vstd::arithmetic::power2::lemma_pow2_strictly_increases(usize::BITS as nat, k);
    }
    vstd::bits::lemma_usize_low_bits_mask_is_mod(x, k);
}

/// A power of two from eight on, and what is a multiple of it, are multiples of
/// eight.
pub proof fn lemma_multiples_of_eight(align: int, size: int)
    requires
        is_pow2(align),
        align >= 8,
        size >= 0,
        size % align == 0,
    ensures
        align % 8 == 0,
        size % 8 == 0,
        size == 0 || size >= align,
{
    reveal_with_fuel(is_pow2, 4);
    let (a, b) = (size / align, align / 8);
    vstd::arithmetic::div_mod::lemma_fundamental_div_mod(size, align);
    assert(size == 8 * (b * a)) by (nonlinear_arith)
        requires
            size == align * a,
            align == 8 * b,
    ;
    if size < align {
        vstd::arithmetic::div_mod::lemma_small_mod(size as nat, align as nat);
    }
}

} // verus!
