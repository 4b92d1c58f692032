// Tests for UnitRanged: values are built from raw numerators or from the bit
// patterns of floats (`f32::to_bits`, `f64::to_bits`), and read back the same way.

use unit_ranged::UnitRanged;

/// `UnitRanged::F64_EPSILON` of the float interface: `2^-32`.
const F64_EPSILON: f64 = 1.0 / 4294967296.0;

fn from_f32(x: f32) -> UnitRanged {
    UnitRanged::from_f32_bits_clamped(x.to_bits())
}

fn from_f64(x: f64) -> UnitRanged {
    UnitRanged::from_f64_bits_clamped(x.to_bits())
}

fn to_f32(u: UnitRanged) -> f32 {
    f32::from_bits(u.to_f32_bits())
}

fn to_f64(u: UnitRanged) -> f64 {
    f64::from_bits(u.to_f64_bits())
}

// ============================================================================
// Const Conversion Tests
// ============================================================================

#[test]
fn test_from_f32_clamped_const() {
    assert_eq!(UnitRanged::from_f32_bits_clamped(0.0f32.to_bits()), UnitRanged::min_value());
    assert_eq!(UnitRanged::from_f32_bits_clamped(0.5f32.to_bits()), UnitRanged::half());
    assert_eq!(UnitRanged::from_f32_bits_clamped(1.0f32.to_bits()), UnitRanged::max_value());
    assert_eq!(UnitRanged::from_f32_bits_clamped(1.5f32.to_bits()), UnitRanged::max_value());
    assert_eq!(UnitRanged::from_f32_bits_clamped((-0.5f32).to_bits()), UnitRanged::min_value());
    assert_eq!(UnitRanged::from_f32_bits_clamped(f32::NAN.to_bits()), UnitRanged::min_value());
}

#[test]
fn test_from_f64_clamped_const() {
    assert_eq!(UnitRanged::from_f64_bits_clamped(0.0f64.to_bits()), UnitRanged::min_value());
    assert_eq!(UnitRanged::from_f64_bits_clamped(0.5f64.to_bits()), UnitRanged::half());
    assert_eq!(UnitRanged::from_f64_bits_clamped(1.0f64.to_bits()), UnitRanged::max_value());
    assert_eq!(UnitRanged::from_f64_bits_clamped(1.5f64.to_bits()), UnitRanged::max_value());
    assert_eq!(UnitRanged::from_f64_bits_clamped((-0.5f64).to_bits()), UnitRanged::min_value());
    assert_eq!(UnitRanged::from_f64_bits_clamped(f64::NAN.to_bits()), UnitRanged::min_value());
}

#[test]
fn test_to_f32_const() {
    assert_eq!(to_f32(UnitRanged::min_value()), 0.0);
    assert_eq!(to_f32(UnitRanged::half()), 0.5);

    let ur = from_f32(0.25);
    let result = to_f32(ur);
    assert!((result - 0.25).abs() < f32::EPSILON * 10.0);
}

#[test]
fn test_to_f64_const() {
    assert_eq!(to_f64(UnitRanged::min_value()), 0.0);
    assert_eq!(to_f64(UnitRanged::half()), 0.5);

    let ur = from_f64(0.75);
    let result = to_f64(ur);
    assert!((result - 0.75).abs() < F64_EPSILON * 1000.0);
}

#[test]
fn test_const_conversion_roundtrip() {
    let zero = from_f32(0.0);
    let half = from_f32(0.5);
    let quarter = from_f32(0.25);

    assert_eq!(to_f64(zero), 0.0);
    assert_eq!(to_f64(half), 0.5);
    assert!((to_f64(quarter) - 0.25).abs() < F64_EPSILON * 100.0);
}

#[test]
fn test_from_f32_unchecked_const() {
    let x = UnitRanged::from_f32_bits_unchecked(0.5f32.to_bits());
    let y = UnitRanged::from_f32_bits_unchecked(0.25f32.to_bits());

    assert_eq!(to_f32(x), 0.5);
    assert!((to_f32(y) - 0.25).abs() < f32::EPSILON * 10.0);
}

#[test]
fn test_from_f64_unchecked_const() {
    let x = UnitRanged::from_f64_bits_unchecked(0.5f64.to_bits());
    let y = UnitRanged::from_f64_bits_unchecked(0.75f64.to_bits());

    assert_eq!(to_f64(x), 0.5);
    assert!((to_f64(y) - 0.75).abs() < F64_EPSILON * 1000.0);
}

// ============================================================================
// Conversion Tests
// ============================================================================

#[test]
fn test_from_f32_precision() {
    let quarter = from_f32(0.25);
    let three_quarters = from_f32(0.75);

    assert!(quarter.into_raw() < UnitRanged::half().into_raw());
    assert!(three_quarters.into_raw() > UnitRanged::half().into_raw());

    let original = 0.4f32;
    let converted: f32 = to_f32(from_f32(original));
    assert!((converted - original).abs() < f32::EPSILON * 10.0);
}

// ============================================================================
// Arithmetic Operator Tests
// ============================================================================

#[test]
fn test_addition_operator() {
    let a = from_f32(0.25);
    let b = from_f32(0.25);
    let result = a + b;

    assert_eq!(result, UnitRanged::half());
}

#[test]
fn test_subtraction_operator() {
    let a = from_f32(0.75);
    let b = from_f32(0.25);
    let result = a - b;

    assert_eq!(result, UnitRanged::half());
}

#[test]
fn test_multiplication_operator() {
    let zero = UnitRanged::min_value();
    let one = UnitRanged::max_value();

    assert_eq!(zero * from_f32(0.67), zero);

    let result = one * from_f32(0.44);
    let expected = from_f32(0.44);
    assert!((result.into_raw() as i64 - expected.into_raw() as i64).abs() < 2);

    let result = one * one;
    assert!(result.into_raw() >= UnitRanged::max_value().into_raw() - 1);

    let result = from_f32(0.1) * from_f32(0.2);
    let result_f64: f64 = to_f64(result);
    assert!((result_f64 - 0.02).abs() < F64_EPSILON * 1000.0);
}

#[test]
fn test_internal_mul() {
    let half = UnitRanged::half();
    let quarter = from_f32(0.25);

    let result = half._mul(quarter);
    let expected = from_f32(0.125);

    assert!((to_f64(result) - to_f64(expected)).abs() < F64_EPSILON * 1000.0);
}

#[test]
fn test_division_operator() {
    let eighth = from_f32(0.125);
    let quarter = from_f32(0.25);
    let half = UnitRanged::half();

    let _result1 = eighth / half;
    let _result2 = quarter / half;
    let _result3 = eighth / quarter;

    let _result4 = half / eighth;
}

#[test]
fn test_remainder_operator() {
    let eighth = from_f32(0.125);
    let quarter = from_f32(0.25);
    let half = UnitRanged::half();

    let _result1 = half % quarter;
    let _result2 = quarter % eighth;

    let result = half % quarter;
    assert!(result.into_raw() <= UnitRanged::max_value().into_raw());
}

// ============================================================================
// Comparison Tests
// ============================================================================

#[test]
fn test_ordering() {
    let small = from_f32(0.25);
    let medium = UnitRanged::half();
    let large = from_f32(0.75);

    assert!(small < medium);
    assert!(medium < large);
    assert!(small < large);

    assert_eq!(small.cmp(&medium), std::cmp::Ordering::Less);
    assert_eq!(medium.cmp(&medium), std::cmp::Ordering::Equal);
    assert_eq!(large.cmp(&medium), std::cmp::Ordering::Greater);
}

#[test]
fn test_min_max() {
    let a = from_f32(0.25);
    let b = from_f32(0.75);

    assert_eq!(a.min(b), a);
    assert_eq!(a.max(b), b);
}

#[test]
fn test_clamp() {
    let low = from_f32(0.25);
    let high = from_f32(0.75);

    assert_eq!(UnitRanged::min_value().clamp(low, high), low);
    assert_eq!(UnitRanged::half().clamp(low, high), UnitRanged::half());
    assert_eq!(UnitRanged::max_value().clamp(low, high), high);
}

// ============================================================================
// Num Traits Tests
// ============================================================================

#[test]
fn test_checked_operations() {
    let small = from_f32(0.25);
    let large = from_f32(0.75);

    assert!(small.checked_add(&small).is_some());

    let max_val = UnitRanged::max_value();
    assert!(max_val.checked_add(&max_val).is_none());

    assert!(large.checked_sub(&small).is_some());

    assert!(small.checked_sub(&large).is_none());
}

#[test]
fn test_checked_mul() {
    let half = UnitRanged::half();
    let quarter = from_f32(0.25);

    let result = half.checked_mul(&quarter);
    let _ = result;

    let tiny = UnitRanged::epsilon();
    let result = tiny.checked_mul(&tiny);
    assert_eq!(result, Some(UnitRanged::epsilon()));

    let min_val = UnitRanged::min_value();
    let result = min_val.checked_mul(&min_val);
    assert_eq!(result, Some(UnitRanged::min_value()));
}

#[test]
fn test_checked_div() {
    let half = UnitRanged::half();
    let quarter = from_f32(0.25);

    let result = half.checked_div(&quarter);
    let _ = result;

    let result = quarter.checked_div(&half);
    assert!(result.is_some());
}

#[test]
fn test_checked_rem() {
    let three_quarters = from_f32(0.75);
    let half = UnitRanged::half();
    let quarter = from_f32(0.25);

    let result = three_quarters.checked_rem(&half);
    assert!(result.is_some());

    let result = three_quarters.checked_rem(&quarter);
    assert_eq!(result, Some(UnitRanged::min_value()));
}

#[test]
fn test_wrapping_operations() {
    let max = UnitRanged::max_value();

    let wrapped = max.wrapping_add(&max);
    assert!(wrapped.into_raw() < max.into_raw());
}

#[test]
fn test_wrapping_sub() {
    let half = UnitRanged::half();
    let quarter = from_f32(0.25);

    let wrapped = quarter.wrapping_sub(&half);
    assert!(wrapped.into_raw() > half.into_raw());
}

#[test]
fn test_wrapping_mul() {
    let max = UnitRanged::max_value();
    let half = UnitRanged::half();

    let result = max.wrapping_mul(&half);
    assert!(result.into_raw() > 0);

    let a = from_f32(0.5);
    let b = from_f32(0.25);
    let wrapped = a.wrapping_mul(&b);
    let regular = a * b;
    assert_eq!(wrapped, regular);
}

#[test]
fn test_saturating_operations() {
    let max = UnitRanged::max_value();
    let min = UnitRanged::min_value();
    let half = UnitRanged::half();

    assert_eq!(max.saturating_add(&max), UnitRanged::max_value());
    assert_eq!(half.saturating_add(&half), UnitRanged::max_value());

    assert_eq!(min.saturating_sub(&half), UnitRanged::min_value());
}

#[test]
fn test_saturating_mul() {
    let max = UnitRanged::max_value();
    let three_quarters = from_f32(0.75);

    let result = max.saturating_mul(&three_quarters);
    assert!(result.into_raw() <= UnitRanged::max_value().into_raw());

    let half = UnitRanged::half();
    let quarter = from_f32(0.25);
    let result = half.saturating_mul(&quarter);
    assert!(result.into_raw() < half.into_raw());
}

#[test]
fn test_bounded() {
    assert_eq!(UnitRanged::min_value(), UnitRanged::from_raw(0));
    assert_eq!(UnitRanged::max_value(), UnitRanged::from_raw(u32::MAX));
}

#[test]
fn test_byte_conversions() {
    let original = from_f32(0.5);

    let bytes_le = original.to_le_bytes();
    let restored_le = UnitRanged::from_le_bytes(&bytes_le);
    assert_eq!(original, restored_le);

    let bytes_be = original.to_be_bytes();
    let restored_be = UnitRanged::from_be_bytes(&bytes_be);
    assert_eq!(original, restored_be);

    let bytes_ne = original.to_ne_bytes();
    let restored_ne = UnitRanged::from_ne_bytes(&bytes_ne);
    assert_eq!(original, restored_ne);
}

// ============================================================================
// From/Into Trait Tests
// ============================================================================

#[test]
fn test_from_u32() {
    let ur: UnitRanged = UnitRanged::from(0_u32);
    assert_eq!(ur, UnitRanged::min_value());

    let ur: UnitRanged = UnitRanged::from(u32::MAX);
    assert_eq!(ur, UnitRanged::max_value());

    let raw = 12345_u32;
    let ur: UnitRanged = raw.into();
    assert_eq!(ur.into_raw(), raw);
}

#[test]
fn test_into_u32() {
    let ur = UnitRanged::half();
    let raw: u32 = ur.into();
    assert_eq!(raw, UnitRanged::half().into_raw());

    let ur = UnitRanged::min_value();
    let raw: u32 = ur.into();
    assert_eq!(raw, 0);
}

#[test]
fn test_into_f32() {
    let ur = UnitRanged::half();
    let f: f32 = to_f32(ur);
    assert_eq!(f, 0.5);

    let ur = UnitRanged::min_value();
    let f: f32 = to_f32(ur);
    assert_eq!(f, 0.0);
}

#[test]
fn test_into_f64() {
    let ur = UnitRanged::half();
    let f: f64 = to_f64(ur);
    assert_eq!(f, 0.5);

    let ur = from_f32(0.75);
    let f: f64 = to_f64(ur);
    assert!((f - 0.75).abs() < F64_EPSILON * 1000.0);
}
