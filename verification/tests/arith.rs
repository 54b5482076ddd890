use staking::arith::{checked_net, saturating_mul, saturating_mul_div, DECIMALS_FACTOR};

#[test]
fn decimals_factor_is_ten_to_the_twentieth() {
    assert_eq!(DECIMALS_FACTOR, 10_u128.pow(20));
}

#[test]
fn saturating_mul_stays_at_the_maximum() {
    assert_eq!(saturating_mul(0, u128::MAX), 0);
    assert_eq!(saturating_mul(6, 7), 42);
    assert_eq!(saturating_mul(1 << 64, 1 << 63), 1 << 127);
    assert_eq!(saturating_mul(1 << 64, 1 << 64), u128::MAX);
    assert_eq!(saturating_mul(u128::MAX, 1), u128::MAX);
    assert_eq!(saturating_mul(u128::MAX, 2), u128::MAX);
    assert_eq!(saturating_mul(u128::MAX, u128::MAX), u128::MAX);
}

#[test]
fn saturating_mul_div_truncates() {
    assert_eq!(saturating_mul_div(1000, 2000, 10000), 200);
    assert_eq!(saturating_mul_div(1000, 2999, 10000), 299);
    assert_eq!(saturating_mul_div(200, DECIMALS_FACTOR, 1500), 13_333_333_333_333_333_333);
    assert_eq!(saturating_mul_div(7, 0, 3), 0);
    assert_eq!(saturating_mul_div(2, 2, 5), 0);
    // The product saturates before the division.
    assert_eq!(saturating_mul_div(u128::MAX, 2, 2), u128::MAX / 2);
    assert_eq!(
        saturating_mul_div(u128::MAX, DECIMALS_FACTOR, DECIMALS_FACTOR),
        3_402_823_669_209_384_634
    );
}

#[test]
fn checked_net_is_exact_where_nothing_overflows() {
    assert_eq!(checked_net(0, 0, 0, 0), Some(0));
    assert_eq!(checked_net(242, 80, 0, 242), Some(80));
    assert_eq!(checked_net(10, 5, 7, 8), Some(0));
    assert_eq!(checked_net(10, 5, 7, 9), None);
    assert_eq!(checked_net(0, 0, 0, 1), None);
    assert_eq!(checked_net(u128::MAX, 0, 0, 0), Some(u128::MAX));
    assert_eq!(checked_net(0, u128::MAX, u128::MAX, 0), Some(0));
}

#[test]
fn checked_net_is_exact_where_the_credits_overflow() {
    // The sum of the credits does not fit, the balance does.
    assert_eq!(checked_net(u128::MAX, 5, 10, 0), Some(u128::MAX - 5));
    assert_eq!(checked_net(5, u128::MAX, 0, 10), Some(u128::MAX - 5));
    assert_eq!(checked_net(u128::MAX, 5, 5, 0), Some(u128::MAX));
    assert_eq!(checked_net(u128::MAX - 1, u128::MAX - 1, u128::MAX, 0), Some(u128::MAX - 2));
    assert_eq!(checked_net(u128::MAX, u128::MAX, u128::MAX, 0), Some(u128::MAX));
    // Neither does the balance: it saturates.
    assert_eq!(checked_net(u128::MAX, 5, 4, 0), Some(u128::MAX));
    assert_eq!(checked_net(u128::MAX, u128::MAX, 0, 0), Some(u128::MAX));
    assert_eq!(checked_net(u128::MAX, u128::MAX, 3, 4), Some(u128::MAX));
}

#[test]
fn checked_net_is_exact_where_the_debits_overflow() {
    assert_eq!(checked_net(u128::MAX, 0, u128::MAX, 1), None);
    assert_eq!(checked_net(0, 0, u128::MAX, u128::MAX), None);
    // Both sums overflow.
    assert_eq!(checked_net(u128::MAX, u128::MAX, u128::MAX, u128::MAX), Some(0));
    assert_eq!(checked_net(u128::MAX, u128::MAX, u128::MAX, 1), Some(u128::MAX - 1));
    assert_eq!(checked_net(u128::MAX, 1, u128::MAX, u128::MAX), None);
    assert_eq!(checked_net(u128::MAX, 9, u128::MAX, 2), Some(7));
    assert_eq!(checked_net(u128::MAX, 2, u128::MAX, 9), None);
}
