// The usage examples of the documentation, on the bit-pattern interface.

use unit_ranged::UnitRanged;

#[test]
fn test_readme_usage() {
    let a = UnitRanged::from_f32_bits_clamped(0.5f32.to_bits());
    let b = UnitRanged::from_f64_bits_clamped(0.75f64.to_bits());

    assert_eq!(f32::from_bits(a.to_f32_bits()), 0.5);
    assert_eq!(f64::from_bits(b.to_f64_bits()), 0.75);

    let c = a * b;
    assert_eq!(f64::from_bits(c.to_f64_bits()), 0.375);
    // 0.5 + 0.75 is past one: the checked sum says so.
    assert_eq!(a.checked_add(&b), None);
    let diff = b - a;
    assert_eq!(f64::from_bits(diff.to_f64_bits()), 0.25);

    let raw = a.into_raw();
    assert_eq!(raw, 2147483648);
    let d = UnitRanged::from_raw(raw);
    assert_eq!(a, d);

    assert_eq!(f64::from_bits(UnitRanged::min_value().to_f64_bits()), 0.0);
    assert_eq!(f64::from_bits(UnitRanged::half().to_f64_bits()), 0.5);
    assert_eq!(f64::from_bits(UnitRanged::epsilon().to_f64_bits()), 2.3283064365386963e-10);
    assert_eq!(f64::from_bits(UnitRanged::max_value().to_f64_bits()), 1.0);
}

#[test]
fn test_readme_num_traits() {
    let x = UnitRanged::from_u32(1);
    assert_eq!(x, Some(UnitRanged::max_value()));
    assert_eq!(UnitRanged::half().to_u32(), Some(0));
    assert_eq!(UnitRanged::max_value().to_u32(), Some(1));

    let a = UnitRanged::from_f32_bits_clamped(0.5f32.to_bits());
    let b = UnitRanged::from_f32_bits_clamped(0.6f32.to_bits());
    assert_eq!(a.checked_add(&b), None);
    assert_eq!(a.checked_add(&a), None);
    let quarter = UnitRanged::from_f32_bits_clamped(0.25f32.to_bits());
    assert_eq!(quarter.checked_add(&quarter), Some(a));
}
