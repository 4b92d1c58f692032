use vstd::prelude::*;

verus! {

/// A number in `[0, 1)` with 32 fractional bits: the raw value `n`
/// stands for `n / 2^32`, so the step between neighbours is `2^-32`.
#[derive(Clone, Copy, PartialEq, Eq, Structural, Ord, Hash, Debug)]
pub struct UnitRanged(u32);

/// `2^32`, the denominator of every value.
pub open spec fn scale() -> nat {
    0x1_0000_0000
}

impl View for UnitRanged {
    type V = u32;

    /// The raw 32-bit numerator.
    closed spec fn view(&self) -> u32 {
        self.0
    }
}

/// The value whose raw numerator is `n`.
pub closed spec fn of_raw(n: u32) -> UnitRanged {
    UnitRanged(n)
}

/// The raw numerator of `of_raw(n)` is `n`.
pub broadcast proof fn lemma_of_raw_view(n: u32)
    ensures
        #[trigger] of_raw(n)@ == n,
{
}

/// Two values with the same raw numerator are the same value.
pub broadcast proof fn lemma_view_injective(a: UnitRanged, b: UnitRanged)
    requires
        #[trigger] a@ == #[trigger] b@,
    ensures
        a == b,
{
}

pub broadcast group group_unit_ranged {
    lemma_of_raw_view,
    lemma_view_injective,
}

/// The fixed-point product of two raw numerators: `a * b / 2^32`, rounded down.
pub open spec fn mul_raw(a: u32, b: u32) -> nat {
    (a as nat * b as nat) / scale()
}

/// The fixed-point quotient of two raw numerators, `a * 2^32 / b` rounded down,
/// before it is cut to 32 bits.
pub open spec fn div_raw(a: u32, b: u32) -> nat
    recommends
        b != 0,
{
    (a as nat * scale()) / (b as nat)
}

/// The remainder of `a * 2^32` divided by `b`.
pub open spec fn rem_raw(a: u32, b: u32) -> nat
    recommends
        b != 0,
{
    (a as nat * scale()) % (b as nat)
}

impl UnitRanged {
    /// The smallest value, `0.0`.
    pub fn min_value() -> (r: Self)
        ensures
            r@ == 0,
    {
        UnitRanged(0)
    }

    /// The largest value, `1 - 2^-32`.
    pub fn max_value() -> (r: Self)
        ensures
            r@ == u32::MAX,
    {
        UnitRanged(0xffff_ffff)
    }

    /// One half.
    pub fn half() -> (r: Self)
        ensures
            r@ == 0x8000_0000,
    {
        UnitRanged(0x8000_0000)
    }

    /// The smallest positive value, `2^-32`.
    pub fn epsilon() -> (r: Self)
        ensures
            r@ == 1,
    {
        UnitRanged(1)
    }

    /// Builds a value from its raw numerator.
    pub fn from_raw(x: u32) -> (r: Self)
        ensures
            r@ == x,
    {
        UnitRanged(x)
    }

    /// The fixed-point product, rounded down: `(self * other) / 2^32` on the
    /// raw numerators. The result is never above either factor.
    pub fn _mul(self, other: Self) -> (r: Self)
        ensures
            r@ == mul_raw(self@, other@),
    {
        let a = self.0 as u64;
        let b = other.0 as u64;
        proof {
            assert(a * b <= 0xffff_ffff * 0xffff_ffff) by (nonlinear_arith)
                requires
                    a <= 0xffff_ffff,
                    b <= 0xffff_ffff,
            ;
        }
        let product = a * b;
        let x = (product >> 32) as u32;
        proof {
            assert(product >> 32 == product / 0x1_0000_0000) by (bit_vector);
            assert(product / 0x1_0000_0000 <= 0xffff_ffff) by (bit_vector);
        }
        UnitRanged(x)
    }

    /// The raw numerator.
    pub fn into_raw(&self) -> (r: u32)
        ensures
            r == self@,
    {
        self.0
    }
}

impl Default for UnitRanged {
    /// Zero.
    fn default() -> (r: Self)
        ensures
            r@ == 0,
    {
        UnitRanged(0)
    }
}

impl core::ops::Add for UnitRanged {
    type Output = Self;

    /// The exact sum; it must fit below one.
    fn add(self, rhs: Self) -> (r: Self)
        ensures
            r@ == self@ + rhs@,
    {
        UnitRanged(self.0 + rhs.0)
    }
}

impl vstd::std_specs::ops::AddSpecImpl for UnitRanged {
    open spec fn obeys_add_spec() -> bool {
        true
    }

    open spec fn add_req(self, rhs: Self) -> bool {
        self@ + rhs@ <= u32::MAX
    }

    open spec fn add_spec(self, rhs: Self) -> Self {
        of_raw((self@ + rhs@) as u32)
    }
}

impl core::ops::Sub for UnitRanged {
    type Output = Self;

    /// The exact difference; the right side must not exceed the left.
    fn sub(self, rhs: Self) -> (r: Self)
        ensures
            r@ == self@ - rhs@,
    {
        UnitRanged(self.0 - rhs.0)
    }
}

impl vstd::std_specs::ops::SubSpecImpl for UnitRanged {
    open spec fn obeys_sub_spec() -> bool {
        true
    }

    open spec fn sub_req(self, rhs: Self) -> bool {
        self@ >= rhs@
    }

    open spec fn sub_spec(self, rhs: Self) -> Self {
        of_raw((self@ - rhs@) as u32)
    }
}

impl core::ops::Mul for UnitRanged {
    type Output = Self;

    /// The fixed-point product, rounded down (see `_mul`).
    fn mul(self, rhs: Self) -> (r: Self)
        ensures
            r@ == mul_raw(self@, rhs@),
    {
        self._mul(rhs)
    }
}

impl vstd::std_specs::ops::MulSpecImpl for UnitRanged {
    open spec fn obeys_mul_spec() -> bool {
        true
    }

    open spec fn mul_req(self, rhs: Self) -> bool {
        true
    }

    open spec fn mul_spec(self, rhs: Self) -> Self {
        of_raw(mul_raw(self@, rhs@) as u32)
    }
}

impl core::ops::Div for UnitRanged {
    type Output = Self;

    /// The fixed-point quotient `self * 2^32 / rhs`, rounded down and cut to
    /// its low 32 bits (a quotient of one or more wraps around).
    fn div(self, rhs: Self) -> (r: Self)
        ensures
            r@ == div_raw(self@, rhs@) % scale(),
    {
        let div = (self.0 as u64) << 32;
        proof {
            let a = self.0 as u64;
            assert(a << 32 == a * 0x1_0000_0000) by (bit_vector)
                requires
                    a <= 0xffff_ffff,
            ;
        }
        let q = div / rhs.0 as u64;
        proof {
            assert(q as u32 == q % 0x1_0000_0000) by (bit_vector);
        }
        UnitRanged(q as u32)
    }
}

impl vstd::std_specs::ops::DivSpecImpl for UnitRanged {
    open spec fn obeys_div_spec() -> bool {
        true
    }

    open spec fn div_req(self, rhs: Self) -> bool {
        rhs@ != 0
    }

    open spec fn div_spec(self, rhs: Self) -> Self {
        of_raw((div_raw(self@, rhs@) % scale()) as u32)
    }
}

impl core::ops::Rem for UnitRanged {
    type Output = Self;

    /// The remainder of `self * 2^32` divided by `rhs`, on the raw numerators.
    fn rem(self, rhs: Self) -> (r: Self)
        ensures
            r@ == rem_raw(self@, rhs@),
    {
        let div = (self.0 as u64) << 32;
        proof {
            let a = self.0 as u64;
            assert(a << 32 == a * 0x1_0000_0000) by (bit_vector)
                requires
                    a <= 0xffff_ffff,
            ;
        }
        let m = div % rhs.0 as u64;
        UnitRanged(m as u32)
    }
}

impl vstd::std_specs::ops::RemSpecImpl for UnitRanged {
    open spec fn obeys_rem_spec() -> bool {
        true
    }

    open spec fn rem_req(self, rhs: Self) -> bool {
        rhs@ != 0
    }

    open spec fn rem_spec(self, rhs: Self) -> Self {
        of_raw(rem_raw(self@, rhs@) as u32)
    }
}

impl From<u32> for UnitRanged {
    /// The value with raw numerator `value`.
    fn from(value: u32) -> (r: Self)
        ensures
            r@ == value,
    {
        UnitRanged(value)
    }
}

impl vstd::std_specs::convert::FromSpecImpl<u32> for UnitRanged {
    open spec fn obeys_from_spec() -> bool {
        true
    }

    open spec fn from_spec(v: u32) -> Self {
        of_raw(v)
    }
}

impl From<UnitRanged> for u32 {
    /// The raw numerator of `value`.
    fn from(value: UnitRanged) -> (r: u32)
        ensures
            r == value@,
    {
        value.0
    }
}

impl vstd::std_specs::convert::FromSpecImpl<UnitRanged> for u32 {
    open spec fn obeys_from_spec() -> bool {
        true
    }

    open spec fn from_spec(v: UnitRanged) -> u32 {
        v@
    }
}

} // verus!
