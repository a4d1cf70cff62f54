use evm_loader::rent::{Rent, THRESHOLD_ONE, THRESHOLD_TWO};

#[test]
fn minimum_balance_with_threshold_one_is_the_base_price() {
    let rent = Rent::with_lamports_per_byte(6960);
    assert_eq!(rent.exemption_threshold, THRESHOLD_ONE);
    assert_eq!(rent.minimum_balance(0), 128 * 6960);
    assert_eq!(rent.minimum_balance(1), 129 * 6960);
    assert_eq!(rent.try_minimum_balance(100), Some(228 * 6960));
}

#[test]
fn minimum_balance_with_threshold_two_is_twice_the_base_price() {
    let rent = Rent { lamports_per_byte: 3480, exemption_threshold: THRESHOLD_TWO, burn_percent: 50 };
    assert_eq!(rent.minimum_balance(0), 2 * 128 * 3480);
    assert_eq!(rent.minimum_balance(10240), 2 * (128 + 10240) * 3480);
}

#[test]
fn minimum_balance_with_another_threshold_is_scaled() {
    let one_and_a_half: u64 = 0x3ff8_0000_0000_0000;
    let rent = Rent { lamports_per_byte: 3480, exemption_threshold: one_and_a_half, burn_percent: 50 };
    assert_eq!(rent.minimum_balance(0), 668_160);
}

#[test]
fn data_beyond_the_permitted_length_costs_the_largest_amount() {
    let rent = Rent::with_lamports_per_byte(6960);
    assert_eq!(rent.try_minimum_balance(10 * 1024 * 1024), Some((128 + 10_485_760) * 6960));
    assert_eq!(rent.try_minimum_balance(10 * 1024 * 1024 + 1), None);
    assert_eq!(rent.minimum_balance(10 * 1024 * 1024 + 1), u64::MAX);
}

#[test]
fn a_rate_above_the_limit_is_not_priced() {
    let above_one = Rent { lamports_per_byte: 1_759_197_129_868, exemption_threshold: THRESHOLD_ONE, burn_percent: 50 };
    assert_eq!(above_one.try_minimum_balance(0), None);
    let at_one = Rent { lamports_per_byte: 1_759_197_129_867, exemption_threshold: THRESHOLD_ONE, burn_percent: 50 };
    assert_eq!(at_one.try_minimum_balance(0), Some(128 * 1_759_197_129_867));
    let above_two = Rent { lamports_per_byte: 879_598_564_934, exemption_threshold: THRESHOLD_TWO, burn_percent: 50 };
    assert_eq!(above_two.minimum_balance(0), u64::MAX);
}

#[test]
fn a_base_price_that_overflows_is_not_scaled() {
    let one_and_a_half: u64 = 0x3ff8_0000_0000_0000;
    let rent = Rent { lamports_per_byte: u64::MAX, exemption_threshold: one_and_a_half, burn_percent: 50 };
    assert_eq!(rent.try_minimum_balance(0), None);
    assert_eq!(rent.minimum_balance(0), u64::MAX);
}
