//! Checked, wrapping and saturating arithmetic on the raw numerators, and
//! conversions from and to the primitive integers (only `0` and `1` have a
//! value: `0` is the smallest value and `1` the largest).
use crate::unit::{mul_raw, scale, UnitRanged};
use vstd::prelude::*;

verus! {

broadcast use crate::unit::group_unit_ranged;

/// The raw numerator carried by an optional value.
pub open spec fn raw_of(o: Option<UnitRanged>) -> Option<u32> {
    match o {
        Some(x) => Some(x@),
        None => None,
    }
}

/// The raw numerator that an integer converts to: `0` gives the smallest
/// value, `1` the largest, and no other integer has one.
pub open spec fn raw_from_int(n: int) -> Option<u32> {
    if n == 0 {
        Some(0u32)
    } else if n == 1 {
        Some(u32::MAX)
    } else {
        None
    }
}

/// The integer that a value converts to: `1` for the largest value, `0`
/// for every other.
pub open spec fn int_of(x: UnitRanged) -> int {
    if x@ == u32::MAX {
        1
    } else {
        0
    }
}

impl UnitRanged {
    /// The sum of the raw numerators, or `None` where it overflows.
    pub fn checked_add(&self, v: &Self) -> (r: Option<Self>)
        ensures
            raw_of(r) == if self@ + v@ <= u32::MAX {
                Some((self@ + v@) as u32)
            } else {
                None
            },
    {
        match self.into_raw().checked_add(v.into_raw()) {
            Some(x) => Some(Self::from_raw(x)),
            None => None,
        }
    }

    /// The difference of the raw numerators, or `None` where it underflows.
    pub fn checked_sub(&self, v: &Self) -> (r: Option<Self>)
        ensures
            raw_of(r) == if self@ >= v@ {
                Some((self@ - v@) as u32)
            } else {
                None
            },
    {
        match self.into_raw().checked_sub(v.into_raw()) {
            Some(x) => Some(Self::from_raw(x)),
            None => None,
        }
    }

    /// The integer product of the raw numerators (not the fixed-point
    /// product), or `None` where it overflows.
    pub fn checked_mul(&self, v: &Self) -> (r: Option<Self>)
        ensures
            raw_of(r) == if self@ * v@ <= u32::MAX {
                Some((self@ * v@) as u32)
            } else {
                None
            },
    {
        match self.into_raw().checked_mul(v.into_raw()) {
            Some(x) => Some(Self::from_raw(x)),
            None => None,
        }
    }

    /// The integer quotient of the raw numerators, or `None` for a zero divisor.
    pub fn checked_div(&self, v: &Self) -> (r: Option<Self>)
        ensures
            raw_of(r) == if v@ != 0 {
                Some(self@ / v@)
            } else {
                None
            },
    {
        match self.into_raw().checked_div(v.into_raw()) {
            Some(x) => Some(Self::from_raw(x)),
            None => None,
        }
    }

    /// The remainder of the raw numerators, or `None` for a zero divisor.
    pub fn checked_rem(&self, v: &Self) -> (r: Option<Self>)
        ensures
            raw_of(r) == if v@ != 0 {
                Some(self@ % v@)
            } else {
                None
            },
    {
        match self.into_raw().checked_rem(v.into_raw()) {
            Some(x) => Some(Self::from_raw(x)),
            None => None,
        }
    }

    /// The sum of the raw numerators modulo `2^32`.
    pub fn wrapping_add(&self, v: &Self) -> (r: Self)
        ensures
            r@ == (self@ + v@) % (scale() as int),
    {
        Self::from_raw(self.into_raw().wrapping_add(v.into_raw()))
    }

    /// The difference of the raw numerators modulo `2^32`.
    pub fn wrapping_sub(&self, v: &Self) -> (r: Self)
        ensures
            r@ == (self@ - v@) % (scale() as int),
    {
        Self::from_raw(self.into_raw().wrapping_sub(v.into_raw()))
    }

    /// The fixed-point product, which cannot overflow (see `_mul`).
    pub fn wrapping_mul(&self, v: &Self) -> (r: Self)
        ensures
            r@ == mul_raw(self@, v@),
    {
        self._mul(*v)
    }

    /// The sum of the raw numerators, or the largest value where it overflows.
    pub fn saturating_add(&self, v: &Self) -> (r: Self)
        ensures
            r@ == if self@ + v@ <= u32::MAX {
                self@ + v@
            } else {
                u32::MAX as int
            },
    {
        Self::from_raw(self.into_raw().saturating_add(v.into_raw()))
    }

    /// The difference of the raw numerators, or zero where it underflows.
    pub fn saturating_sub(&self, v: &Self) -> (r: Self)
        ensures
            r@ == if self@ >= v@ {
                self@ - v@
            } else {
                0
            },
    {
        Self::from_raw(self.into_raw().saturating_sub(v.into_raw()))
    }

    /// The fixed-point product, which cannot overflow (see `_mul`).
    pub fn saturating_mul(&self, v: &Self) -> (r: Self)
        ensures
            r@ == mul_raw(self@, v@),
    {
        self._mul(*v)
    }

    /// `0` is the smallest value, `1` the largest; any other `i128` has none.
    pub fn from_i128(n: i128) -> (r: Option<Self>)
        ensures
            raw_of(r) == raw_from_int(n as int),
    {
        match n {
            0 => Some(Self::min_value()),
            1 => Some(Self::max_value()),
            _ => None,
        }
    }

    /// `0` is the smallest value, `1` the largest; any other `i16` has none.
    pub fn from_i16(n: i16) -> (r: Option<Self>)
        ensures
            raw_of(r) == raw_from_int(n as int),
    {
        match n {
            0 => Some(Self::min_value()),
            1 => Some(Self::max_value()),
            _ => None,
        }
    }

    /// `0` is the smallest value, `1` the largest; any other `i32` has none.
    pub fn from_i32(n: i32) -> (r: Option<Self>)
        ensures
            raw_of(r) == raw_from_int(n as int),
    {
        match n {
            0 => Some(Self::min_value()),
            1 => Some(Self::max_value()),
            _ => None,
        }
    }

    /// `0` is the smallest value, `1` the largest; any other `i64` has none.
    pub fn from_i64(n: i64) -> (r: Option<Self>)
        ensures
            raw_of(r) == raw_from_int(n as int),
    {
        match n {
            0 => Some(Self::min_value()),
            1 => Some(Self::max_value()),
            _ => None,
        }
    }

    /// `0` is the smallest value, `1` the largest; any other `i8` has none.
    pub fn from_i8(n: i8) -> (r: Option<Self>)
        ensures
            raw_of(r) == raw_from_int(n as int),
    {
        match n {
            0 => Some(Self::min_value()),
            1 => Some(Self::max_value()),
            _ => None,
        }
    }

    /// `0` is the smallest value, `1` the largest; any other `isize` has none.
    pub fn from_isize(n: isize) -> (r: Option<Self>)
        ensures
            raw_of(r) == raw_from_int(n as int),
    {
        match n {
            0 => Some(Self::min_value()),
            1 => Some(Self::max_value()),
            _ => None,
        }
    }

    /// `0` is the smallest value, `1` the largest; any other `u128` has none.
    pub fn from_u128(n: u128) -> (r: Option<Self>)
        ensures
            raw_of(r) == raw_from_int(n as int),
    {
        match n {
            0 => Some(Self::min_value()),
            1 => Some(Self::max_value()),
            _ => None,
        }
    }

    /// `0` is the smallest value, `1` the largest; any other `u16` has none.
    pub fn from_u16(n: u16) -> (r: Option<Self>)
        ensures
            raw_of(r) == raw_from_int(n as int),
    {
        match n {
            0 => Some(Self::min_value()),
            1 => Some(Self::max_value()),
            _ => None,
        }
    }

    /// `0` is the smallest value, `1` the largest; any other `u32` has none.
    pub fn from_u32(n: u32) -> (r: Option<Self>)
        ensures
            raw_of(r) == raw_from_int(n as int),
    {
        match n {
            0 => Some(Self::min_value()),
            1 => Some(Self::max_value()),
            _ => None,
        }
    }

    /// `0` is the smallest value, `1` the largest; any other `u64` has none.
    pub fn from_u64(n: u64) -> (r: Option<Self>)
        ensures
            raw_of(r) == raw_from_int(n as int),
    {
        match n {
            0 => Some(Self::min_value()),
            1 => Some(Self::max_value()),
            _ => None,
        }
    }

    /// `0` is the smallest value, `1` the largest; any other `u8` has none.
    pub fn from_u8(n: u8) -> (r: Option<Self>)
        ensures
            raw_of(r) == raw_from_int(n as int),
    {
        match n {
            0 => Some(Self::min_value()),
            1 => Some(Self::max_value()),
            _ => None,
        }
    }

    /// `0` is the smallest value, `1` the largest; any other `usize` has none.
    pub fn from_usize(n: usize) -> (r: Option<Self>)
        ensures
            raw_of(r) == raw_from_int(n as int),
    {
        match n {
            0 => Some(Self::min_value()),
            1 => Some(Self::max_value()),
            _ => None,
        }
    }

    /// `1` for the largest value, `0` for any other.
    pub fn to_i128(&self) -> (r: Option<i128>)
        ensures
            r matches Some(k) && k == int_of(*self),
    {
        if self.into_raw() == u32::MAX {
            Some(1)
        } else {
            Some(0)
        }
    }

    /// `1` for the largest value, `0` for any other.
    pub fn to_i16(&self) -> (r: Option<i16>)
        ensures
            r matches Some(k) && k == int_of(*self),
    {
        if self.into_raw() == u32::MAX {
            Some(1)
        } else {
            Some(0)
        }
    }

    /// `1` for the largest value, `0` for any other.
    pub fn to_i32(&self) -> (r: Option<i32>)
        ensures
            r matches Some(k) && k == int_of(*self),
    {
        if self.into_raw() == u32::MAX {
            Some(1)
        } else {
            Some(0)
        }
    }

    /// `1` for the largest value, `0` for any other.
    pub fn to_i64(&self) -> (r: Option<i64>)
        ensures
            r matches Some(k) && k == int_of(*self),
    {
        if self.into_raw() == u32::MAX {
            Some(1)
        } else {
            Some(0)
        }
    }

    /// `1` for the largest value, `0` for any other.
    pub fn to_i8(&self) -> (r: Option<i8>)
        ensures
            r matches Some(k) && k == int_of(*self),
    {
        if self.into_raw() == u32::MAX {
            Some(1)
        } else {
            Some(0)
        }
    }

    /// `1` for the largest value, `0` for any other.
    pub fn to_isize(&self) -> (r: Option<isize>)
        ensures
            r matches Some(k) && k == int_of(*self),
    {
        if self.into_raw() == u32::MAX {
            Some(1)
        } else {
            Some(0)
        }
    }

    /// `1` for the largest value, `0` for any other.
    pub fn to_u128(&self) -> (r: Option<u128>)
        ensures
            r matches Some(k) && k == int_of(*self),
    {
        if self.into_raw() == u32::MAX {
            Some(1)
        } else {
            Some(0)
        }
    }

    /// `1` for the largest value, `0` for any other.
    pub fn to_u16(&self) -> (r: Option<u16>)
        ensures
            r matches Some(k) && k == int_of(*self),
    {
        if self.into_raw() == u32::MAX {
            Some(1)
        } else {
            Some(0)
        }
    }

    /// `1` for the largest value, `0` for any other.
    pub fn to_u32(&self) -> (r: Option<u32>)
        ensures
            r matches Some(k) && k == int_of(*self),
    {
        if self.into_raw() == u32::MAX {
            Some(1)
        } else {
            Some(0)
        }
    }

    /// `1` for the largest value, `0` for any other.
    pub fn to_u64(&self) -> (r: Option<u64>)
        ensures
            r matches Some(k) && k == int_of(*self),
    {
        if self.into_raw() == u32::MAX {
            Some(1)
        } else {
            Some(0)
        }
    }

    /// `1` for the largest value, `0` for any other.
    pub fn to_u8(&self) -> (r: Option<u8>)
        ensures
            r matches Some(k) && k == int_of(*self),
    {
        if self.into_raw() == u32::MAX {
            Some(1)
        } else {
            Some(0)
        }
    }

    /// `1` for the largest value, `0` for any other.
    pub fn to_usize(&self) -> (r: Option<usize>)
        ensures
            r matches Some(k) && k == int_of(*self),
    {
        if self.into_raw() == u32::MAX {
            Some(1)
        } else {
            Some(0)
        }
    }
}

} // verus!
