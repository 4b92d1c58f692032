//! Conversions between values and the bit patterns of IEEE 754 binary32
//! (`f32`) and binary64 (`f64`) numbers. A value with raw numerator `n`
//! stands for `n / 2^32`; a float stands for `significand * 2^(exponent - bias)`.
//! The library reads and writes the bit patterns; turning them into floats
//! (`f32::from_bits`, `f32::to_bits`) is left to the caller.
use crate::unit::UnitRanged;
use vstd::arithmetic::div_mod::{
    lemma_basic_div, lemma_div_by_multiple, lemma_div_denominator, lemma_div_is_ordered,
    lemma_fundamental_div_mod, lemma_mod_bound,
};
use vstd::arithmetic::mul::{
    lemma_mul_inequality, lemma_mul_is_associative, lemma_mul_is_commutative,
    lemma_mul_strict_inequality, lemma_mul_strict_inequality_converse,
};
use vstd::arithmetic::power2::{
    lemma2_to64, lemma2_to64_rest, lemma_pow2_adds, lemma_pow2_pos, lemma_pow2_strictly_increases, pow2,
};
use vstd::bits::{
    lemma_u32_pow2_no_overflow, lemma_u32_shl_is_mul, lemma_u32_shr_is_div, lemma_u64_pow2_no_overflow,
    lemma_u64_shl_is_mul,
};
use vstd::std_specs::bits::axiom_u32_leading_zeros;
use vstd::prelude::*;

verus! {

broadcast use crate::unit::group_unit_ranged;

// ---------------------------------------------------------------------------
// The fields of a binary32 bit pattern.

/// The sign bit of an `f32` bit pattern.
pub open spec fn f32_sign(bits: u32) -> nat {
    bits as nat / 0x8000_0000
}

/// The biased exponent field of an `f32` bit pattern.
pub open spec fn f32_exponent(bits: u32) -> nat {
    (bits as nat / 0x80_0000) % 0x100
}

/// The fraction field of an `f32` bit pattern.
pub open spec fn f32_fraction(bits: u32) -> nat {
    bits as nat % 0x80_0000
}

/// The bit pattern is a NaN.
pub open spec fn f32_is_nan(bits: u32) -> bool {
    f32_exponent(bits) == 0xff && f32_fraction(bits) != 0
}

/// The significand as an integer: the fraction, with the implicit leading
/// one of a normal number.
pub open spec fn f32_significand(bits: u32) -> nat {
    if f32_exponent(bits) == 0 {
        f32_fraction(bits)
    } else {
        0x80_0000 + f32_fraction(bits)
    }
}

/// For a finite `f32` of magnitude `x`, `x * 2^32` rounded down. The
/// magnitude is `significand * 2^(max(exponent, 1) - 150)`.
pub open spec fn f32_scaled(bits: u32) -> nat {
    let e = if f32_exponent(bits) == 0 {
        1
    } else {
        f32_exponent(bits)
    };
    (f32_significand(bits) * pow2(e)) / pow2(118)
}

/// The raw numerator that an `f32` is brought to: zero for NaN and for
/// anything with the sign bit set (`-0.0` too); the largest numerator for
/// infinity and for anything at or above one; otherwise `x * 2^32` rounded down.
pub open spec fn f32_clamped(bits: u32) -> nat {
    if f32_is_nan(bits) || f32_sign(bits) == 1 {
        0
    } else if f32_exponent(bits) == 0xff || f32_scaled(bits) > u32::MAX {
        u32::MAX as nat
    } else {
        f32_scaled(bits)
    }
}

// ---------------------------------------------------------------------------
// The fields of a binary64 bit pattern.

/// The sign bit of an `f64` bit pattern.
pub open spec fn f64_sign(bits: u64) -> nat {
    bits as nat / 0x8000_0000_0000_0000
}

/// The biased exponent field of an `f64` bit pattern.
pub open spec fn f64_exponent(bits: u64) -> nat {
    (bits as nat / 0x10_0000_0000_0000) % 0x800
}

/// The fraction field of an `f64` bit pattern.
pub open spec fn f64_fraction(bits: u64) -> nat {
    bits as nat % 0x10_0000_0000_0000
}

/// The bit pattern is a NaN.
pub open spec fn f64_is_nan(bits: u64) -> bool {
    f64_exponent(bits) == 0x7ff && f64_fraction(bits) != 0
}

/// The significand as an integer: the fraction, with the implicit leading
/// one of a normal number.
pub open spec fn f64_significand(bits: u64) -> nat {
    if f64_exponent(bits) == 0 {
        f64_fraction(bits)
    } else {
        0x10_0000_0000_0000 + f64_fraction(bits)
    }
}

/// For a finite `f64` of magnitude `x`, `x * 2^32` rounded down. The
/// magnitude is `significand * 2^(max(exponent, 1) - 1075)`.
pub open spec fn f64_scaled(bits: u64) -> nat {
    let e = if f64_exponent(bits) == 0 {
        1
    } else {
        f64_exponent(bits)
    };
    (f64_significand(bits) * pow2(e)) / pow2(1043)
}

/// The raw numerator that an `f64` is brought to: zero for NaN and for
/// anything with the sign bit set (`-0.0` too); the largest numerator for
/// infinity and for anything at or above one; otherwise `x * 2^32` rounded down.
pub open spec fn f64_clamped(bits: u64) -> nat {
    if f64_is_nan(bits) || f64_sign(bits) == 1 {
        0
    } else if f64_exponent(bits) == 0x7ff || f64_scaled(bits) > u32::MAX {
        u32::MAX as nat
    } else {
        f64_scaled(bits)
    }
}

/// The `f64` lies in `[0, 1]`: NaN is outside, `-0.0` is inside.
pub open spec fn f64_in_unit_interval(bits: u64) -> bool {
    &&& !f64_is_nan(bits)
    &&& if f64_sign(bits) == 1 {
        f64_exponent(bits) == 0 && f64_fraction(bits) == 0
    } else {
        f64_exponent(bits) < 0x3ff || (f64_exponent(bits) == 0x3ff && f64_fraction(bits) == 0)
    }
}

/// `bits` is the pattern of the largest `f32` not above `n / 2^32`: zero for
/// `n == 0`, else a positive normal number `significand * 2^(exponent - 150)`
/// with `n / 2^32` at or above it and below the next `f32`.
pub open spec fn is_f32_below_raw(bits: u32, n: u32) -> bool {
    if n == 0 {
        bits == 0
    } else {
        &&& f32_sign(bits) == 0
        &&& 95 <= f32_exponent(bits) <= 126
        &&& f32_significand(bits) * pow2(f32_exponent(bits)) <= n * pow2(118)
        &&& n * pow2(118) < (f32_significand(bits) + 1) * pow2(f32_exponent(bits))
    }
}

/// `bits` is the pattern of the `f64` equal to `n / 2^32`: zero for `n == 0`,
/// else a positive normal number `significand * 2^(exponent - 1075)`.
pub open spec fn is_f64_of_raw(bits: u64, n: u32) -> bool {
    if n == 0 {
        bits == 0
    } else {
        &&& f64_sign(bits) == 0
        &&& 991 <= f64_exponent(bits) <= 1022
        &&& f64_significand(bits) * pow2(f64_exponent(bits)) == n * pow2(1043)
    }
}

/// `bits` is the pattern that a value with raw numerator `n` reads as in
/// `f64`: `1.0` for the largest value, the exact `n / 2^32` for every other.
pub open spec fn is_f64_pattern_of(bits: u64, n: u32) -> bool {
    if n == u32::MAX {
        bits == 0x3ff0_0000_0000_0000
    } else {
        is_f64_of_raw(bits, n)
    }
}

// ---------------------------------------------------------------------------
// Arithmetic on powers of two.

/// Cancelling a common positive factor leaves a quotient unchanged.
proof fn lemma_div_cancel(x: nat, d: nat, c: nat)
    requires
        d > 0,
        c > 0,
    ensures
        (x * c) / (d * c) == x / d,
{
    lemma_div_denominator((x * c) as int, c as int, d as int);
    lemma_div_by_multiple(x as int, c as int);
    lemma_mul_is_commutative(d as int, c as int);
}

/// Scaling numerator and denominator by the same power of two leaves a
/// quotient unchanged.
proof fn lemma_rescale(x: nat, a: nat, b: nat, c: nat)
    ensures
        (x * pow2(a)) / pow2(b) == (x * pow2(a + c)) / pow2(b + c),
{
    lemma_pow2_adds(a, c);
    lemma_pow2_adds(b, c);
    lemma_pow2_pos(b);
    lemma_pow2_pos(c);
    lemma_mul_is_associative(x as int, pow2(a) as int, pow2(c) as int);
    lemma_div_cancel(x * pow2(a), pow2(b), pow2(c));
}

/// `x * 2^e / 2^d` is zero when `x < 2^s` and `s + e <= d`.
proof fn lemma_scaled_below_one(x: nat, s: nat, e: nat, d: nat)
    requires
        x < pow2(s),
        s + e <= d,
    ensures
        (x * pow2(e)) / pow2(d) == 0,
{
    lemma_pow2_pos(e);
    lemma_mul_strict_inequality(x as int, pow2(s) as int, pow2(e) as int);
    lemma_pow2_adds(s, e);
    if s + e < d {
        lemma_pow2_strictly_increases(s + e, d);
    }
    lemma_basic_div((x * pow2(e)) as int, pow2(d) as int);
}

/// `x * 2^e / 2^d` is at least `2^k` when `x >= 2^s` and `s + e >= d + k`.
proof fn lemma_scaled_at_least(x: nat, s: nat, e: nat, d: nat, k: nat)
    requires
        x >= pow2(s),
        s + e >= d + k,
    ensures
        (x * pow2(e)) / pow2(d) >= pow2(k),
{
    lemma_pow2_pos(e);
    lemma_pow2_pos(d);
    lemma_mul_inequality(pow2(s) as int, x as int, pow2(e) as int);
    lemma_pow2_adds(s, e);
    lemma_pow2_adds(k, d);
    if s + e > d + k {
        lemma_pow2_strictly_increases(d + k, s + e);
    }
    lemma_div_is_ordered((pow2(k) * pow2(d)) as int, (x * pow2(e)) as int, pow2(d) as int);
    lemma_div_by_multiple(pow2(k) as int, pow2(d) as int);
}

/// The leading one of a nonzero `n` sits at bit `31 - lz`.
proof fn lemma_leading_one(n: u32, lz: u32)
    requires
        n != 0,
        lz == n.leading_zeros(),
    ensures
        lz < 32,
        n >> ((31 - lz) as u32) == 1,
{
    axiom_u32_leading_zeros(n);
    let hi = (31 - lz) as u32;
    assert((n >> hi) & 1 != 0);
    assert(n >> ((32 - lz) as u32) == 0);
    assert(n >> hi == 1) by (bit_vector)
        requires
            hi < 32,
            (n >> hi) & 1 != 0,
            n >> (hi + 1) as u32 == 0,
    ;
}

/// The fields of the `f32` pattern built from `n`, whose leading one sits at
/// bit `k`.
proof fn lemma_f32_pattern_fields(n: u32, k: u32, r: u32)
    by (bit_vector)
    requires
        k < 32,
        n >> k == 1,
        r == (((95 + k) as u32) << 23) | (((n ^ (1u32 << k)) << ((31 - k) as u32)) >> 8),
    ensures
        r / 0x8000_0000 == 0,
        (r / 0x80_0000) % 0x100 == 95 + k,
        r % 0x80_0000 == (((n - (1u32 << k)) as u32) << ((31 - k) as u32)) >> 8,
        n >= (1u32 << k),
        n - (1u32 << k) < (1u32 << k),
{
}

/// The fields of the `f64` pattern built from `n`, whose leading one sits at
/// bit `k`.
proof fn lemma_f64_pattern_fields(n: u64, k: u64, r: u64)
    by (bit_vector)
    requires
        n <= 0xffff_ffff,
        k < 32,
        n >> k == 1,
        r == (((991 + k) as u64) << 52) | (((n ^ (1u64 << k)) << ((63 - k) as u64)) >> 11),
    ensures
        r / 0x8000_0000_0000_0000 == 0,
        (r / 0x10_0000_0000_0000) % 0x800 == 991 + k,
        r % 0x10_0000_0000_0000 == ((n - (1u64 << k)) as u64) << ((52 - k) as u64),
        n >= (1u64 << k),
        n - (1u64 << k) < (1u64 << k),
{
}

impl UnitRanged {
    /// The value nearest below an `f32` bit pattern, brought into range: NaN
    /// and anything with the sign bit set give zero, anything at or above one
    /// (infinity too) gives the largest value, anything below `2^-32` gives
    /// zero, and the rest is `x * 2^32` rounded down.
    pub fn from_f32_bits_clamped(bits: u32) -> (r: Self)
        ensures
            r@ == f32_clamped(bits),
    {
        let is_nan = (bits & 0x7fff_ffff) > 0x7f80_0000;
        let is_negative = (bits & 0x8000_0000) != 0;
        // Below the pattern of 2^-32 (exponent 95), for a non-negative float.
        let is_too_small = bits < 0x2f80_0000;
        proof {
            assert(is_nan == ((bits / 0x80_0000) % 0x100 == 0xff && bits % 0x80_0000 != 0))
                by (bit_vector)
                requires
                    is_nan == ((bits & 0x7fff_ffff) > 0x7f80_0000),
            ;
            assert(is_negative == (bits / 0x8000_0000 == 1) && bits / 0x8000_0000 <= 1)
                by (bit_vector)
                requires
                    is_negative == ((bits & 0x8000_0000) != 0),
            ;
            assert(bits / 0x8000_0000 == 0 ==> (is_too_small == ((bits / 0x80_0000) % 0x100
                < 95))) by (bit_vector)
                requires
                    is_too_small == (bits < 0x2f80_0000),
            ;
        }
        if is_nan || is_negative || is_too_small {
            proof {
                if !is_nan && !is_negative {
                    lemma2_to64();
                    let e: nat = if f32_exponent(bits) == 0 {
                        1
                    } else {
                        f32_exponent(bits)
                    };
                    lemma_scaled_below_one(f32_significand(bits), 24, e, 118);
                }
            }
            return Self::min_value();
        }
        // At or above the pattern of 1.0 (exponent 127).
        if bits >= 0x3f80_0000 {
            proof {
                assert((bits / 0x80_0000) % 0x100 >= 127) by (bit_vector)
                    requires
                        bits >= 0x3f80_0000,
                        bits / 0x8000_0000 == 0,
                ;
                lemma2_to64();
                if f32_exponent(bits) != 0xff {
                    lemma_scaled_at_least(f32_significand(bits), 23, f32_exponent(bits), 118, 32);
                }
            }
            return Self::max_value();
        }
        proof {
            assert((bits / 0x80_0000) % 0x100 <= 126) by (bit_vector)
                requires
                    bits < 0x3f80_0000,
            ;
        }
        Self::from_f32_bits_unchecked(bits)
    }

    /// The value of an `f32` bit pattern in `[0, 1)` (`-0.0` included):
    /// `x * 2^32` rounded down, which is zero below `2^-32`.
    pub fn from_f32_bits_unchecked(bits: u32) -> (r: Self)
        requires
            f32_sign(bits) == 0 || bits == 0x8000_0000,
            f32_exponent(bits) <= 126,
        ensures
            r@ == f32_scaled(bits),
    {
        let exp = (bits >> 23) & 0xff;
        let mantissa = bits & 0x007f_ffff;
        proof {
            assert(exp == (bits / 0x80_0000) % 0x100 && mantissa == bits % 0x80_0000)
                by (bit_vector)
                requires
                    exp == (bits >> 23) & 0xff,
                    mantissa == bits & 0x007f_ffff,
            ;
        }
        let normalized = (mantissa | (1 << 23)) << 8;
        proof {
            assert(normalized == (mantissa + 0x80_0000) * 0x100) by (bit_vector)
                requires
                    mantissa < 0x80_0000,
                    normalized == (mantissa | (1u32 << 23)) << 8,
            ;
        }
        let shift = 126 - exp;
        // Below 2^-32 (exponent under 95) every bit is shifted out.
        let result = if shift < 32 {
            normalized >> shift
        } else {
            0
        };
        proof {
            let sig = f32_significand(bits);
            lemma2_to64();
            if shift < 32 {
                lemma_u32_shr_is_div(normalized, shift);
                lemma_rescale(sig, 8, shift as nat, (exp - 8) as nat);
            } else {
                let e: nat = if exp == 0 {
                    1
                } else {
                    exp as nat
                };
                lemma_scaled_below_one(sig, 24, e, 118);
            }
        }
        Self::from_raw(result)
    }
}

impl UnitRanged {
    /// The value nearest below an `f64` bit pattern, brought into range: NaN
    /// and anything with the sign bit set give zero, anything at or above one
    /// (infinity too) gives the largest value, anything below `2^-32` gives
    /// zero, and the rest is `x * 2^32` rounded down.
    pub fn from_f64_bits_clamped(bits: u64) -> (r: Self)
        ensures
            r@ == f64_clamped(bits),
    {
        let is_nan = (bits & 0x7fff_ffff_ffff_ffff) > 0x7ff0_0000_0000_0000;
        let is_negative = (bits & 0x8000_0000_0000_0000) != 0;
        // Below the pattern of 2^-32 (exponent 991), for a non-negative float.
        let is_too_small = bits < 0x3df0_0000_0000_0000;
        proof {
            assert(is_nan == ((bits / 0x10_0000_0000_0000) % 0x800 == 0x7ff && bits
                % 0x10_0000_0000_0000 != 0)) by (bit_vector)
                requires
                    is_nan == ((bits & 0x7fff_ffff_ffff_ffff) > 0x7ff0_0000_0000_0000),
            ;
            assert(is_negative == (bits / 0x8000_0000_0000_0000 == 1) && bits
                / 0x8000_0000_0000_0000 <= 1) by (bit_vector)
                requires
                    is_negative == ((bits & 0x8000_0000_0000_0000) != 0),
            ;
            assert(bits / 0x8000_0000_0000_0000 == 0 ==> (is_too_small == ((bits
                / 0x10_0000_0000_0000) % 0x800 < 991))) by (bit_vector)
                requires
                    is_too_small == (bits < 0x3df0_0000_0000_0000),
            ;
        }
        if is_nan || is_negative || is_too_small {
            proof {
                if !is_nan && !is_negative {
                    lemma2_to64_rest();
                    let e: nat = if f64_exponent(bits) == 0 {
                        1
                    } else {
                        f64_exponent(bits)
                    };
                    lemma_scaled_below_one(f64_significand(bits), 53, e, 1043);
                }
            }
            return Self::min_value();
        }
        // At or above the pattern of 1.0 (exponent 1023).
        if bits >= 0x3ff0_0000_0000_0000 {
            proof {
                assert((bits / 0x10_0000_0000_0000) % 0x800 >= 1023) by (bit_vector)
                    requires
                        bits >= 0x3ff0_0000_0000_0000,
                        bits / 0x8000_0000_0000_0000 == 0,
                ;
                lemma2_to64();
                lemma2_to64_rest();
                if f64_exponent(bits) != 0x7ff {
                    lemma_scaled_at_least(f64_significand(bits), 52, f64_exponent(bits), 1043, 32);
                }
            }
            return Self::max_value();
        }
        proof {
            assert((bits / 0x10_0000_0000_0000) % 0x800 <= 1022) by (bit_vector)
                requires
                    bits < 0x3ff0_0000_0000_0000,
            ;
        }
        Self::from_f64_bits_unchecked(bits)
    }

    /// The bit pattern of the largest `f32` not above this value: `n / 2^32`
    /// for the raw numerator `n`, cut to 24 significant bits.
    pub fn to_f32_bits(&self) -> (r: u32)
        ensures
            is_f32_below_raw(r, self@),
    {
        let n = self.into_raw();
        if n == 0 {
            return 0;
        }
        let lz = n.leading_zeros();
        proof {
            lemma_leading_one(n, lz);
        }
        let implicit_mask = 1u32 << (31 - lz);
        let mantissa = ((n ^ implicit_mask) << lz) >> 8;
        let exp = (126 - lz) << 23;
        let result = exp | mantissa;
        proof {
            let k = (31 - lz) as u32;
            lemma_f32_pattern_fields(n, k, result);
            let t = (n - (1u32 << k)) as u32;
            lemma_u32_pow2_no_overflow(k as nat);
            lemma_u32_shl_is_mul(1, k);
            lemma2_to64();
            lemma_pow2_adds(k as nat, lz as nat);
            lemma_pow2_pos(lz as nat);
            lemma_mul_strict_inequality(t as int, pow2(k as nat) as int, pow2(lz as nat) as int);
            lemma_u32_shl_is_mul(t, lz);
            let w = t << lz;
            lemma_u32_shr_is_div(w, 8);
            let f = f32_fraction(result);
            assert(f * 256 <= w < f * 256 + 256);
            let e = (95 + k) as nat;
            let q = (118 - lz) as nat;
            lemma_pow2_adds(8, q);
            lemma_pow2_adds(lz as nat, q);
            lemma_pow2_adds(23, e);
            lemma_pow2_adds(k as nat, 118);
            lemma_pow2_pos(q);
            let pe = pow2(e);
            let p118 = pow2(118);
            let pk = pow2(k as nat);
            let pl = pow2(lz as nat);
            let pq = pow2(q);
            lemma_mul_inequality((f * 256) as int, w as int, pq as int);
            lemma_mul_strict_inequality(w as int, (f * 256 + 256) as int, pq as int);
            assert(f32_significand(result) * pe <= n * p118 < (f32_significand(result) + 1) * pe)
                by (nonlinear_arith)
                requires
                    f32_significand(result) == 0x80_0000 + f,
                    f * 256 * pq <= w * pq,
                    w * pq < (f * 256 + 256) * pq,
                    w == t * pl,
                    pe == 256 * pq,
                    p118 == pl * pq,
                    0x80_0000 * pe == pk * p118,
                    n == pk + t,
            ;
        }
        result
    }

    /// The bit pattern of this value as an `f64`: the largest value reads as
    /// `1.0`; every other is `n / 2^32` for the raw numerator `n`, which is
    /// exact in binary64.
    pub fn to_f64_bits(&self) -> (r: u64)
        ensures
            is_f64_pattern_of(r, self@),
    {
        let n = self.into_raw();
        if n == u32::MAX {
            // The pattern of 1.0.
            return 0x3ff0_0000_0000_0000;
        }
        let n64 = n as u64;
        if n64 == 0 {
            return 0;
        }
        let lz = n.leading_zeros();
        proof {
            lemma_leading_one(n, lz);
        }
        let implicit_mask = 1u64 << (31 - lz);
        let mantissa = ((n64 ^ implicit_mask) << (lz + 32)) >> 11;
        let exp = (1022 - lz as u64) << 52;
        let result = exp | mantissa;
        proof {
            let k = (31 - lz) as u64;
            assert(n64 >> k == 1) by (bit_vector)
                requires
                    n64 == n as u64,
                    k < 32,
                    n >> (k as u32) == 1,
            ;
            lemma_f64_pattern_fields(n64, k, result);
            let a = (52 - k) as nat;
            let t = (n64 - (1u64 << k)) as u64;
            lemma_u64_pow2_no_overflow(k as nat);
            lemma_u64_shl_is_mul(1, k);
            lemma2_to64();
            lemma2_to64_rest();
            lemma_pow2_adds(k as nat, a);
            lemma_pow2_pos(a);
            lemma_mul_strict_inequality(t as int, pow2(k as nat) as int, pow2(a) as int);
            lemma_u64_shl_is_mul(t, (52 - k) as u64);
            let e = (991 + k) as nat;
            assert(f64_significand(result) == n64 * pow2(a)) by (nonlinear_arith)
                requires
                    f64_significand(result) == 0x10_0000_0000_0000 + t * pow2(a),
                    0x10_0000_0000_0000 == pow2(k as nat) * pow2(a),
                    n64 == pow2(k as nat) + t,
            ;
            lemma_pow2_adds(a, e);
            lemma_mul_is_associative(n64 as int, pow2(a) as int, pow2(e) as int);
        }
        result
    }

    /// The value of an `f64` bit pattern that lies in `[0, 1]` (see
    /// `from_f64_bits_clamped`), or `None` for any other, NaN included.
    pub fn from_f64_bits_checked(bits: u64) -> (r: Option<Self>)
        ensures
            r is Some <==> f64_in_unit_interval(bits),
            r matches Some(x) ==> x@ == f64_clamped(bits),
            f64_is_nan(bits) ==> r is None,
            f64_sign(bits) == 1 && r is Some ==> bits == 0x8000_0000_0000_0000,
            f64_sign(bits) == 0 && bits <= 0x3ff0_0000_0000_0000 ==> r is Some,
            f64_sign(bits) == 0 && bits > 0x3ff0_0000_0000_0000 ==> r is None,
    {
        // -0.0, or a non-negative number not above the pattern of 1.0.
        let in_range = bits == 0x8000_0000_0000_0000 || bits <= 0x3ff0_0000_0000_0000;
        proof {
            let exp = (bits / 0x10_0000_0000_0000) % 0x800;
            let frac = bits % 0x10_0000_0000_0000;
            let sign = bits / 0x8000_0000_0000_0000;
            assert(in_range == (!(exp == 0x7ff && frac != 0) && (sign == 1 ==> (exp == 0 && frac
                == 0)) && (sign != 1 ==> (exp < 0x3ff || (exp == 0x3ff && frac == 0)))))
                by (bit_vector)
                requires
                    in_range == (bits == 0x8000_0000_0000_0000 || bits <= 0x3ff0_0000_0000_0000),
                    exp == (bits / 0x10_0000_0000_0000) % 0x800,
                    frac == bits % 0x10_0000_0000_0000,
                    sign == bits / 0x8000_0000_0000_0000,
            ;
        }
        if in_range {
            Some(Self::from_f64_bits_clamped(bits))
        } else {
            None
        }
    }

    /// The value of an `f64` bit pattern in `[0, 1)` (`-0.0` included):
    /// `x * 2^32` rounded down, which is zero below `2^-32`.
    pub fn from_f64_bits_unchecked(bits: u64) -> (r: Self)
        requires
            f64_sign(bits) == 0 || bits == 0x8000_0000_0000_0000,
            f64_exponent(bits) <= 1022,
        ensures
            r@ == f64_scaled(bits),
    {
        let exp = (bits >> 52) & 0x7ff;
        let mantissa = bits & 0x000f_ffff_ffff_ffff;
        proof {
            assert(exp == (bits / 0x10_0000_0000_0000) % 0x800 && mantissa == bits
                % 0x10_0000_0000_0000) by (bit_vector)
                requires
                    exp == (bits >> 52) & 0x7ff,
                    mantissa == bits & 0x000f_ffff_ffff_ffff,
            ;
            assert((mantissa | (1u64 << 52)) >> 21 == (mantissa + 0x10_0000_0000_0000) / 0x20_0000
                && (mantissa | (1u64 << 52)) >> 21 <= 0xffff_ffff) by (bit_vector)
                requires
                    mantissa < 0x10_0000_0000_0000,
            ;
        }
        let normalized = ((mantissa | 1 << 52) >> 21) as u32;
        let shift = 1022 - exp;
        // Below 2^-32 (exponent under 991) every bit is shifted out.
        let result = if shift < 32 {
            normalized >> (shift as u32)
        } else {
            0
        };
        proof {
            let sig = f64_significand(bits);
            let s = shift as nat;
            lemma2_to64();
            if shift < 32 {
                lemma_pow2_pos(21);
                lemma_pow2_pos(s);
                lemma_pow2_pos(exp as nat);
                lemma_u32_shr_is_div(normalized, shift as u32);
                lemma_div_denominator(sig as int, pow2(21) as int, pow2(s) as int);
                lemma_pow2_adds(21, s);
                lemma_pow2_adds(21 + s, exp as nat);
                lemma_div_cancel(sig, pow2(21 + s), pow2(exp as nat));
            } else {
                lemma2_to64_rest();
                let e: nat = if exp == 0 {
                    1
                } else {
                    exp as nat
                };
                lemma_scaled_below_one(sig, 53, e, 1043);
            }
        }
        Self::from_raw(result)
    }
}

/// The range accepted by the checked `f64` conversion is `[0, 1]` read off the
/// fields: NaN is outside; with the sign bit set only `-0.0` (zero exponent
/// and fraction) is inside; without it, exactly the patterns not above that
/// of `1.0` (exponent below the bias, or the bias with a zero fraction).
pub proof fn law_f64_unit_interval(bits: u64)
    ensures
        f64_is_nan(bits) ==> !f64_in_unit_interval(bits),
        f64_sign(bits) == 1 && f64_in_unit_interval(bits) ==> f64_exponent(bits) == 0
            && f64_fraction(bits) == 0 && bits == 0x8000_0000_0000_0000,
        f64_sign(bits) == 1 && f64_exponent(bits) != 0 ==> !f64_in_unit_interval(bits),
        f64_sign(bits) == 1 && f64_fraction(bits) != 0 ==> !f64_in_unit_interval(bits),
        f64_sign(bits) == 0 ==> (f64_in_unit_interval(bits) <==> bits <= 0x3ff0_0000_0000_0000),
{
    let exp = (bits / 0x10_0000_0000_0000) % 0x800;
    let frac = bits % 0x10_0000_0000_0000;
    let sign = bits / 0x8000_0000_0000_0000;
    assert((sign == 1 && exp == 0 && frac == 0 ==> bits == 0x8000_0000_0000_0000) && (sign == 0
        ==> ((exp < 0x3ff || (exp == 0x3ff && frac == 0)) <==> bits <= 0x3ff0_0000_0000_0000)))
        by (bit_vector)
        requires
            exp == (bits / 0x10_0000_0000_0000) % 0x800,
            frac == bits % 0x10_0000_0000_0000,
            sign == bits / 0x8000_0000_0000_0000,
    ;
}

/// How a float pattern is brought into range, read off its fields: NaN and
/// anything with the sign bit set give zero; a non-negative pattern at or
/// above one (infinity too) gives the largest numerator; and a non-negative
/// pattern below one gives `x * 2^32` rounded down, the numerator `r` with
/// `r * 2^-32 <= x < (r + 1) * 2^-32`.
pub proof fn law_f32_clamped(bits: u32)
    ensures
        f32_is_nan(bits) ==> f32_clamped(bits) == 0,
        f32_sign(bits) == 1 ==> f32_clamped(bits) == 0,
        f32_sign(bits) == 0 && !f32_is_nan(bits) && f32_exponent(bits) >= 127 ==> f32_clamped(
            bits,
        ) == u32::MAX,
        f32_sign(bits) == 0 && 1 <= f32_exponent(bits) <= 126 ==> {
            &&& f32_clamped(bits) * pow2(118) <= f32_significand(bits) * pow2(f32_exponent(bits))
            &&& f32_significand(bits) * pow2(f32_exponent(bits)) < (f32_clamped(bits) + 1) * pow2(
                118,
            )
        },
        f32_sign(bits) == 0 && f32_exponent(bits) == 0 ==> f32_clamped(bits) == 0,
{
    lemma2_to64();
    lemma_pow2_pos(118);
    lemma_pow2_pos(1);
    let e = f32_exponent(bits);
    let sig = f32_significand(bits);
    if f32_sign(bits) == 0 && !f32_is_nan(bits) {
        if e == 0 {
            lemma_scaled_below_one(sig, 24, 1, 118);
        } else if e <= 126 {
            lemma_pow2_pos(e);
            lemma_fundamental_div_mod((sig * pow2(e)) as int, pow2(118) as int);
            lemma_mod_bound((sig * pow2(e)) as int, pow2(118) as int);
            lemma_mul_strict_inequality(sig as int, pow2(24) as int, pow2(e) as int);
            lemma_pow2_adds(24, e);
            if 24 + e < 150 {
                lemma_pow2_strictly_increases(24 + e, 150);
            }
            lemma_pow2_adds(32, 118);
            lemma_mul_is_commutative(pow2(118) as int, f32_scaled(bits) as int);
            lemma_mul_strict_inequality_converse(
                f32_scaled(bits) as int,
                pow2(32) as int,
                pow2(118) as int,
            );
            let x = sig * pow2(e);
            let d = pow2(118);
            let q = f32_scaled(bits);
            assert(q * d <= x < (q + 1) * d) by (nonlinear_arith)
                requires
                    q == x / d,
                    x == d * (x / d) + x % d,
                    0 <= x % d < d,
            ;
        } else if e != 0xff {
            lemma_scaled_at_least(sig, 23, e, 118, 32);
        }
    }
}

/// How a float pattern is brought into range, read off its fields: NaN and
/// anything with the sign bit set give zero; a non-negative pattern at or
/// above one (infinity too) gives the largest numerator; and a non-negative
/// pattern below one gives `x * 2^32` rounded down, the numerator `r` with
/// `r * 2^-32 <= x < (r + 1) * 2^-32`.
pub proof fn law_f64_clamped(bits: u64)
    ensures
        f64_is_nan(bits) ==> f64_clamped(bits) == 0,
        f64_sign(bits) == 1 ==> f64_clamped(bits) == 0,
        f64_sign(bits) == 0 && !f64_is_nan(bits) && f64_exponent(bits) >= 1023 ==> f64_clamped(
            bits,
        ) == u32::MAX,
        f64_sign(bits) == 0 && 1 <= f64_exponent(bits) <= 1022 ==> {
            &&& f64_clamped(bits) * pow2(1043) <= f64_significand(bits) * pow2(f64_exponent(bits))
            &&& f64_significand(bits) * pow2(f64_exponent(bits)) < (f64_clamped(bits) + 1) * pow2(
                1043,
            )
        },
        f64_sign(bits) == 0 && f64_exponent(bits) == 0 ==> f64_clamped(bits) == 0,
{
    lemma2_to64();
    lemma2_to64_rest();
    lemma_pow2_pos(1043);
    lemma_pow2_pos(1);
    let e = f64_exponent(bits);
    let sig = f64_significand(bits);
    if f64_sign(bits) == 0 && !f64_is_nan(bits) {
        if e == 0 {
            lemma_scaled_below_one(sig, 53, 1, 1043);
        } else if e <= 1022 {
            lemma_pow2_pos(e);
            lemma_fundamental_div_mod((sig * pow2(e)) as int, pow2(1043) as int);
            lemma_mod_bound((sig * pow2(e)) as int, pow2(1043) as int);
            lemma_mul_strict_inequality(sig as int, pow2(53) as int, pow2(e) as int);
            lemma_pow2_adds(53, e);
            if 53 + e < 1075 {
                lemma_pow2_strictly_increases(53 + e, 1075);
            }
            lemma_pow2_adds(32, 1043);
            lemma_mul_is_commutative(pow2(1043) as int, f64_scaled(bits) as int);
            lemma_mul_strict_inequality_converse(
                f64_scaled(bits) as int,
                pow2(32) as int,
                pow2(1043) as int,
            );
            let x = sig * pow2(e);
            let d = pow2(1043);
            let q = f64_scaled(bits);
            assert(q * d <= x < (q + 1) * d) by (nonlinear_arith)
                requires
                    q == x / d,
                    x == d * (x / d) + x % d,
                    0 <= x % d < d,
            ;
        } else if e != 0x7ff {
            lemma_scaled_at_least(sig, 52, e, 1043, 32);
        }
    }
}

/// Reading back the `f64` pattern of a value gives the value: the pattern
/// lies in `[0, 1]` and brings back exactly the raw numerator it was made
/// from (the largest value reads as `1.0`, which clamps back to it).
pub proof fn law_f64_round_trip(n: u32, bits: u64)
    requires
        is_f64_pattern_of(bits, n),
    ensures
        f64_in_unit_interval(bits),
        f64_clamped(bits) == n,
{
    lemma_pow2_pos(1);
    lemma_pow2_pos(1043);
    if n == u32::MAX {
        assert(f64_exponent(bits) == 1023 && f64_fraction(bits) == 0 && f64_sign(bits) == 0);
        lemma2_to64();
        lemma2_to64_rest();
        lemma_scaled_at_least(f64_significand(bits), 52, 1023, 1043, 32);
    } else if n == 0 {
        assert(f64_exponent(bits) == 0 && f64_fraction(bits) == 0 && f64_sign(bits) == 0);
        assert(f64_significand(bits) == 0);
        assert(f64_significand(bits) * pow2(1) == 0) by (nonlinear_arith)
            requires
                f64_significand(bits) == 0,
        ;
        lemma_basic_div(0, pow2(1043) as int);
        assert(f64_scaled(bits) == 0);
    } else {
        lemma_div_by_multiple(n as int, pow2(1043) as int);
        assert(f64_scaled(bits) == n);
    }
}

/// Reading back the `f32` pattern of a value gives the value cut to 24
/// significant bits: never above it, less than `256 * 2^-32` below it, and
/// equal to it when the raw numerator is below `2^24`.
pub proof fn law_f32_round_trip(n: u32, bits: u32)
    requires
        is_f32_below_raw(bits, n),
    ensures
        f32_clamped(bits) <= n < f32_clamped(bits) + 256,
        n < 0x100_0000 ==> f32_clamped(bits) == n,
{
    lemma_pow2_pos(1);
    lemma_pow2_pos(118);
    if n == 0 {
        assert(f32_exponent(bits) == 0 && f32_fraction(bits) == 0 && f32_sign(bits) == 0);
        assert(f32_significand(bits) == 0);
        assert(f32_significand(bits) * pow2(1) == 0) by (nonlinear_arith)
            requires
                f32_significand(bits) == 0,
        ;
        lemma_basic_div(0, pow2(118) as int);
        assert(f32_scaled(bits) == 0);
    } else {
        let sig = f32_significand(bits);
        let e = f32_exponent(bits);
        let s = sig * pow2(e);
        let p118 = pow2(118);
        lemma_pow2_pos(e);
        // Never above n.
        lemma_div_is_ordered(s as int, (n * p118) as int, p118 as int);
        lemma_div_by_multiple(n as int, p118 as int);
        if e >= 118 {
            let d = (e - 118) as nat;
            lemma_pow2_adds(d, 118);
            lemma_pow2_pos(d);
            lemma_mul_is_associative(sig as int, pow2(d) as int, p118 as int);
            lemma_div_by_multiple((sig * pow2(d)) as int, p118 as int);
            lemma_mul_is_associative((sig + 1) as int, pow2(d) as int, p118 as int);
            lemma_mul_strict_inequality_converse(n as int, ((sig + 1) * pow2(d)) as int, p118 as int);
            assert((sig + 1) * pow2(d) == sig * pow2(d) + pow2(d)) by (nonlinear_arith);
            lemma2_to64();
            if d < 8 {
                lemma_pow2_strictly_increases(d, 8);
            }
            if n < 0x100_0000 && d > 0 {
                lemma_pow2_strictly_increases(0, d);
                assert(sig * pow2(d) >= 0x80_0000 * 2) by (nonlinear_arith)
                    requires
                        sig >= 0x80_0000,
                        pow2(d) >= 2,
                ;
            }
        } else {
            let d = (118 - e) as nat;
            lemma_pow2_adds(e, d);
            lemma_pow2_pos(d);
            lemma_mul_is_commutative(pow2(e) as int, pow2(d) as int);
            lemma_div_cancel(sig, pow2(d), pow2(e));
            lemma_mul_is_associative(n as int, pow2(d) as int, pow2(e) as int);
            lemma_mul_strict_inequality_converse((n * pow2(d)) as int, (sig + 1) as int, pow2(e) as int);
            lemma_div_is_ordered((n * pow2(d)) as int, sig as int, pow2(d) as int);
            lemma_div_by_multiple(n as int, pow2(d) as int);
        }
    }
}

} // verus!
