use wasabi::math::mod_group::WrappingValue;
use wasabi::math::NumberConstants;

#[test]
fn test_const_number_literals() {
    assert_eq!(0u8, u8::constant(0));
    assert_eq!(1u16, u16::constant(1));
    assert_eq!(5u8, u8::constant(5));
    assert_eq!(4321u64, u64::constant(4321));
}

#[test]
fn test_wrapping() {
    let mut wrapping = WrappingValue::zero(5u8);

    wrapping.add_assign(4);
    assert_eq!(wrapping.value(), 4);

    wrapping.add_assign(1);
    assert_eq!(wrapping.value(), 0);

    wrapping.add_assign(5);
    assert_eq!(wrapping.value(), 0);

    wrapping.add_assign(7);
    assert_eq!(wrapping.value(), 2);
}

#[test]
fn test_wrapping_overflow() {
    let mut wrapping = WrappingValue::zero(5u8);

    wrapping.add_assign(4);
    assert_eq!(wrapping.value(), 4);

    wrapping.add_assign(255);
    assert_eq!(wrapping.value(), 4);

    wrapping.add_assign(254);
    assert_eq!(wrapping.value(), 3);
}

#[test]
fn wrapping_add_returns_sum_modulo() {
    let value = WrappingValue::new(3u16, 10u16);
    assert_eq!(value.add(9).value(), 2);
    assert_eq!(value.modulo(), 10);
    assert_eq!(value.max(), 9);
}

#[test]
fn wrapping_values_compare() {
    let a = WrappingValue::new(3u16, 10u16);
    let b = WrappingValue::new(7u16, 10u16);
    assert!(a == WrappingValue::new(3u16, 10u16));
    assert!(a != b);
    assert!(a < b);
    assert!(b > a);
    assert_eq!(a.partial_cmp(&b), Some(std::cmp::Ordering::Less));
    // only the values are compared, not the modulos
    let c = WrappingValue::new(3u16, 20u16);
    assert_eq!(a.partial_cmp(&c), Some(std::cmp::Ordering::Equal));
    assert!(a != c);
    assert!(WrappingValue::new(9u16, 10u16) > WrappingValue::new(4u16, 50u16));
    let mut set = std::collections::HashSet::new();
    set.insert(a);
    set.insert(WrappingValue::new(3u16, 10u16));
    assert_eq!(set.len(), 1);
}
