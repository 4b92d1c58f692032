//! What holds of the arithmetic across calls and across its variants.
use crate::num::{int_of, raw_from_int};
use crate::unit::{div_raw, mul_raw, of_raw, rem_raw, scale, UnitRanged};
use vstd::arithmetic::div_mod::{
    lemma_div_is_ordered, lemma_fundamental_div_mod, lemma_mod_bound, lemma_div_by_multiple,
};
use vstd::arithmetic::mul::{lemma_mul_inequality, lemma_mul_is_commutative};
use vstd::prelude::*;
use vstd::std_specs::ops::{AddSpec, SubSpec};

verus! {

broadcast use crate::unit::group_unit_ranged;

/// Every value lies between the smallest and the largest value.
pub proof fn law_bounded(x: UnitRanged)
    ensures
        0 <= x@ <= u32::MAX,
{
}

/// A value is determined by its raw numerator, and building a value from a
/// numerator keeps that numerator.
pub proof fn law_raw_round_trip(x: UnitRanged, n: u32)
    ensures
        of_raw(x@) == x,
        of_raw(n)@ == n,
{
    assert(of_raw(x@)@ == x@);
}

/// The fixed-point product is `a * b / 2^32` rounded down: it is at most
/// the exact product and less than one step below it.
pub proof fn law_mul_rounds_down(a: u32, b: u32)
    ensures
        mul_raw(a, b) * scale() <= a * b < (mul_raw(a, b) + 1) * scale(),
{
    lemma_fundamental_div_mod((a * b) as int, scale() as int);
    lemma_mod_bound((a * b) as int, scale() as int);
    lemma_mul_is_commutative(mul_raw(a, b) as int, scale() as int);
}

/// The fixed-point product does not depend on the order of the factors.
pub proof fn law_mul_commutative(a: u32, b: u32)
    ensures
        mul_raw(a, b) == mul_raw(b, a),
{
    lemma_mul_is_commutative(a as int, b as int);
}

/// Zero times anything is zero.
pub proof fn law_mul_zero(a: u32)
    ensures
        mul_raw(0, a) == 0,
        mul_raw(a, 0) == 0,
{
}

/// A product is below each nonzero factor (every value is below one).
pub proof fn law_mul_below_factors(a: u32, b: u32)
    ensures
        mul_raw(a, b) <= a,
        a > 0 ==> mul_raw(a, b) < a,
{
    law_mul_rounds_down(a, b);
    lemma_mul_inequality(b as int, scale() as int, a as int);
    if a > 0 {
        assert(a * b < a * scale()) by (nonlinear_arith)
            requires
                a > 0,
                b < scale(),
        ;
        assert(mul_raw(a, b) < a) by (nonlinear_arith)
            requires
                mul_raw(a, b) * scale() <= a * b,
                a * b < a * scale(),
                scale() > 0,
        ;
    }
}

/// The largest value, one step below one, takes exactly one step off any
/// nonzero factor.
pub proof fn law_mul_by_max(a: u32)
    ensures
        a > 0 ==> mul_raw(u32::MAX, a) == a - 1,
        mul_raw(u32::MAX, u32::MAX) == u32::MAX - 1,
{
    if a > 0 {
        let p = u32::MAX as nat * a as nat;
        assert(p == (a - 1) * scale() + (scale() - a));
        lemma_fundamental_div_mod(p as int, scale() as int);
        lemma_mod_bound(p as int, scale() as int);
        assert(p / scale() == a - 1) by (nonlinear_arith)
            requires
                p == (a - 1) * scale() + (scale() - a),
                p == scale() * (p / scale()) + p % scale(),
                0 <= p % scale() < scale(),
                0 < a < scale(),
        ;
    }
}

/// A larger factor gives a product at least as large.
pub proof fn law_mul_monotone(a: u32, c: u32, b: u32)
    requires
        a <= c,
    ensures
        mul_raw(a, b) <= mul_raw(c, b),
{
    lemma_mul_inequality(a as int, c as int, b as int);
    lemma_div_is_ordered((a * b) as int, (c * b) as int, scale() as int);
}

/// Subtracting what was added gives back the value, for `+` and `-`.
pub proof fn law_sub_undoes_add(a: UnitRanged, b: UnitRanged)
    requires
        a.add_req(b),
    ensures
        a.add_spec(b).sub_req(b),
        a.add_spec(b).sub_spec(b) == a,
{
    assert(a.add_spec(b).sub_spec(b)@ == a@);
}

/// The quotient and remainder of `a * 2^32` by a nonzero `b` split it
/// exactly; when `a < b` the quotient fits in 32 bits, so `/` does not cut it.
pub proof fn law_div_rem(a: u32, b: u32)
    requires
        b != 0,
    ensures
        div_raw(a, b) * b + rem_raw(a, b) == a * scale(),
        rem_raw(a, b) < b,
        a < b ==> div_raw(a, b) < scale(),
{
    let x = a as nat * scale();
    lemma_fundamental_div_mod(x as int, b as int);
    lemma_mod_bound(x as int, b as int);
    lemma_mul_is_commutative(b as int, div_raw(a, b) as int);
    if a < b {
        lemma_mul_inequality(a as int, b as int, scale() as int);
        lemma_div_is_ordered(x as int, (b * scale()) as int, b as int);
        lemma_mul_is_commutative(b as int, scale() as int);
        lemma_div_by_multiple(scale() as int, b as int);
        assert(x / (b as nat) != scale()) by (nonlinear_arith)
            requires
                x == b * (x / (b as nat)) + x % (b as nat),
                x % (b as nat) >= 0,
                x == a * scale(),
                a < b,
                scale() > 0,
        ;
    }
}

/// Where a sum fits, the checked, wrapping and saturating sums are all that
/// sum; where it overflows, the wrapping sum falls below both terms and the
/// saturating sum stops at the largest value.
pub proof fn law_add_variants(a: u32, b: u32)
    ensures
        a + b <= u32::MAX ==> (a + b) % (scale() as int) == a + b,
        a + b > u32::MAX ==> {
            &&& (a + b) % (scale() as int) == a + b - scale()
            &&& (a + b) % (scale() as int) < a
            &&& (a + b) % (scale() as int) < b
        },
{
}

/// Where a difference would go below zero, the wrapping difference comes
/// round from the top: it is `2^32 + a - b`, above `a`.
pub proof fn law_sub_variants(a: u32, b: u32)
    ensures
        a >= b ==> (a - b) % (scale() as int) == a - b,
        a < b ==> (a - b) % (scale() as int) == scale() + a - b,
        a < b ==> (a - b) % (scale() as int) > a,
{
}

/// Only `0` and `1` convert to a value and back, and only the smallest and
/// the largest value convert to an integer and back.
pub proof fn law_int_round_trip(n: int, x: UnitRanged)
    ensures
        raw_from_int(n) is Some <==> (n == 0 || n == 1),
        raw_from_int(n) matches Some(r) ==> int_of(of_raw(r)) == n,
        raw_from_int(int_of(x)) == Some(x@) <==> (x@ == 0 || x@ == u32::MAX),
{
}

} // verus!
