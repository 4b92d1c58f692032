//! A fixed-point number in `[0, 1)` stored in 32 bits: the raw value `n`
//! stands for `n / 2^32`.
//!
//! `unit` holds the type and its operators, `order` its ordering, `num` the
//! checked, wrapping and saturating arithmetic and the integer conversions,
//! `bytes` the byte encodings, `float_bits` the conversions from and to the
//! bit patterns of `f32` and `f64`, and `laws` what holds across them.

pub mod bytes;
pub mod float_bits;
pub mod laws;
pub mod num;
pub mod order;
pub mod unit;

pub use unit::UnitRanged;
