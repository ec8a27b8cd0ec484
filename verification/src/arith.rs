//! Facts about division, remainder and mixed-radix indices that the index
//! arithmetic of the kernels rests on.

use vstd::prelude::*;
use vstd::arithmetic::div_mod::*;
use vstd::arithmetic::mul::*;

verus! {

/// A digit below its base, on top of a higher part, is recovered by division and
/// remainder.
pub proof fn lemma_split_digit(hi: int, lo: int, base: int)
    requires
        0 <= lo < base,
    ensures
        (hi * base + lo) / base == hi,
        (hi * base + lo) % base == lo,
{
    lemma_fundamental_div_mod_converse(hi * base + lo, base, hi, lo);
}

/// An index made of a digit below `base` and a higher part below `count` lies
/// below `count * base`.
pub proof fn lemma_index_bound(hi: int, count: int, lo: int, base: int)
    by (nonlinear_arith)
    requires
        0 <= hi < count,
        0 <= lo < base,
    ensures
        0 <= hi * base <= hi * base + lo < count * base,
{
}

/// For a positive divisor, `c <= a / d` says the same as `c * d <= a`.
pub proof fn lemma_quotient_bound(a: int, d: int, c: int)
    requires
        d > 0,
    ensures
        c <= a / d <==> c * d <= a,
{
    lemma_fundamental_div_mod(a, d);
    lemma_mod_bound(a, d);
    lemma_mul_is_commutative(d, a / d);
    if c <= a / d {
        lemma_mul_inequality(c, a / d, d);
    } else {
        lemma_mul_inequality(a / d + 1, c, d);
        lemma_mul_is_distributive_add_other_way(d, a / d, 1);
    }
}

/// Dividing twice is dividing by the product.
pub proof fn lemma_divide_twice(x: int, c: int, d: int)
    requires
        0 <= x,
        0 < c,
        0 < d,
    ensures
        c * d > 0,
        (x / c) / d == x / (c * d),
{
    lemma_div_denominator(x, c, d);
    lemma_mul_strictly_positive(c, d);
}

/// A product of non-negative factors is non-negative, and of positive factors
/// positive.
pub proof fn lemma_product_sign(a: int, b: int)
    by (nonlinear_arith)
    ensures
        a >= 0 && b >= 0 ==> a * b >= 0,
        a > 0 && b > 0 ==> a * b > 0,
        a == 0 || b == 0 ==> a * b == 0,
{
}

/// A quotient of a non-negative number by a positive one is non-negative and at
/// most the number.
pub proof fn lemma_quotient_range(a: int, d: int)
    requires
        a >= 0,
        d > 0,
    ensures
        0 <= a / d <= a,
        0 <= a % d < d,
{
    lemma_div_pos_is_pos(a, d);
    lemma_div_is_ordered_by_denominator(a, 1, d);
    lemma_div_basics(a);
    lemma_mod_bound(a, d);
}

} // verus!
