use cybergame::pieces::{CappedValue, CappedValueType};

#[test]
fn change_by_clamps_at_zero() {
    let mut v = CappedValue::new_ram(5, 10);
    v.change_by(-100);
    assert_eq!(v.value, 0);
    assert_eq!(v.upper_limit, 10);
    assert!(v.hit_zero());
}

#[test]
fn change_by_clamps_at_limit() {
    let mut v = CappedValue::new_ram(5, 10);
    v.change_by(100);
    assert_eq!(v.value, 10);
    assert_eq!(v.upper_limit, 10);
    assert!(!v.hit_zero());
}

#[test]
fn change_by_inside_the_range_adds() {
    let mut v = CappedValue::new_ram(5, 10);
    v.change_by(3);
    assert_eq!(v.value, 8);
    v.change_by(-7);
    assert_eq!(v.value, 1);
}

#[test]
fn change_by_takes_the_extreme_amounts() {
    let mut v = CappedValue::new_health(i32::MAX);
    v.change_by(i32::MAX);
    assert_eq!(v.value, i32::MAX);
    v.change_by(i32::MIN);
    assert_eq!(v.value, 0);
}

#[test]
fn new_health_is_full() {
    let v = CappedValue::new_health(30);
    assert_eq!(v.value, 30);
    assert_eq!(v.upper_limit, 30);
    assert_eq!(v.value_type, CappedValueType::Health);
}
