use evm_loader::u256::U256;

#[test]
fn saturating_add_holds_at_the_largest_value() {
    let max = U256::max_value();
    assert_eq!(max.saturating_add(U256::from_u64(127)), max);
    assert_eq!(U256::from_u64(100).saturating_add(U256::from_u64(1)), U256::from_u64(101));
}

#[test]
fn saturating_add_carries_into_the_high_word() {
    let low_full = U256::from_words(0, u128::MAX);
    assert_eq!(low_full.saturating_add(U256::from_u64(1)), U256::from_words(1, 0));
}

#[test]
fn checked_add_gives_nothing_on_overflow() {
    let max = U256::max_value();
    assert_eq!(max.checked_add(U256::from_u64(1)), None);
    assert_eq!(U256::from_u64(2).checked_add(U256::from_u64(3)), Some(U256::from_u64(5)));
}

#[test]
fn saturating_mul_and_sub() {
    assert_eq!(U256::from_u64(2).saturating_mul(U256::from_u64(10)), U256::from_u64(20));
    assert_eq!(U256::max_value().saturating_mul(U256::from_u64(10)), U256::max_value());
    assert_eq!(U256::from_u64(13).saturating_sub(U256::from_u64(127)), U256::zero());
    assert_eq!(U256::from_u64(100).saturating_sub(U256::from_u64(27)), U256::from_u64(73));
}

#[test]
fn order_goes_by_the_high_word_first() {
    let a = U256::from_words(1, 0);
    let b = U256::from_words(0, u128::MAX);
    assert!(b.lt(&a));
    assert!(a.gt(&b));
    assert!(a.ge(&a));
    assert!(a.le(&a));
    assert!(!a.lt(&a));
    assert!(U256::zero().is_zero());
    assert!(!a.is_zero());
    assert_eq!(U256::from_words(7, (1u128 << 64) + 9).as_u64(), 9);
}
