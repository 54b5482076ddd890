//! Saturating fixed-point arithmetic on `u128`: every amount of the pool is
//! a `u128`, and every sum or product that does not fit stays at `u128::MAX`.

use vstd::prelude::*;

verus! {

/// The fixed-point scale of the reward-per-share index: 10^20.
pub const DECIMALS_FACTOR: u128 = 100_000_000_000_000_000_000;

/// The largest `u128` that does not exceed `v`, for a `v` that is not negative.
pub open spec fn clamp(v: int) -> u128
    recommends
        v >= 0,
{
    if v > u128::MAX {
        u128::MAX
    } else {
        v as u128
    }
}

/// `x + y`, or `u128::MAX` where the sum does not fit.
pub open spec fn sat_add(x: u128, y: u128) -> u128 {
    clamp(x + y)
}

/// `x - y`, or zero where `y` is the larger.
pub open spec fn sat_sub(x: u128, y: u128) -> u128 {
    if x < y {
        0
    } else {
        (x - y) as u128
    }
}

/// `x * y`, or `u128::MAX` where the product does not fit.
pub open spec fn sat_mul(x: u128, y: u128) -> u128 {
    clamp(x * y)
}

/// `x * y / d`, the product saturating and the quotient truncated.
pub open spec fn mul_div(x: u128, y: u128, d: u128) -> u128
    recommends
        d > 0,
{
    sat_mul(x, y) / d
}

/// `credit_a + credit_b - debit_a - debit_b` over the integers.
pub open spec fn net(credit_a: u128, credit_b: u128, debit_a: u128, debit_b: u128) -> int {
    credit_a + credit_b - debit_a - debit_b
}

/// `x * y`, or `u128::MAX` where the product does not fit.
pub fn saturating_mul(x: u128, y: u128) -> (r: u128)
    ensures
        r == sat_mul(x, y),
{
    match x.checked_mul(y) {
        Some(product) => product,
        None => u128::MAX,
    }
}

/// `x * y / d`, the product saturating and the quotient truncated.
pub fn saturating_mul_div(x: u128, y: u128, d: u128) -> (r: u128)
    requires
        d > 0,
    ensures
        r == mul_div(x, y, d),
{
    saturating_mul(x, y) / d
}

/// The part of `a + b` that lies above `u128::MAX + 1`, where the sum does
/// not fit in a `u128`.
fn excess(a: u128, b: u128) -> (r: u128)
    requires
        a + b > u128::MAX,
    ensures
        r == a + b - u128::MAX - 1,
{
    a - (u128::MAX - b) - 1
}

/// The balance of two credits and two debits, computed without loss:
/// `None` where it is negative, else the balance, saturated.
pub fn checked_net(credit_a: u128, credit_b: u128, debit_a: u128, debit_b: u128) -> (r: Option<
    u128,
>)
    ensures
        net(credit_a, credit_b, debit_a, debit_b) < 0 ==> r is None,
        net(credit_a, credit_b, debit_a, debit_b) >= 0 ==> r == Some(
            clamp(net(credit_a, credit_b, debit_a, debit_b)),
        ),
{
    match (credit_a.checked_add(credit_b), debit_a.checked_add(debit_b)) {
        (Some(credit), Some(debit)) => credit.checked_sub(debit),
        (Some(_), None) => None,
        (None, Some(debit)) => {
            if credit_a >= debit {
                Some((credit_a - debit).saturating_add(credit_b))
            } else if credit_b >= debit {
                Some(credit_a.saturating_add(credit_b - debit))
            } else {
                Some(credit_a - (debit - credit_b))
            }
        },
        (None, None) => excess(credit_a, credit_b).checked_sub(excess(debit_a, debit_b)),
    }
}

/// A product does not shrink when a factor grows.
pub proof fn lemma_sat_mul_monotonic(x1: u128, y1: u128, x2: u128, y2: u128)
    requires
        x1 <= x2,
        y1 <= y2,
    ensures
        sat_mul(x1, y1) <= sat_mul(x2, y2),
{
    assert(x1 * y1 <= x2 * y2) by (nonlinear_arith)
        requires
            0 <= x1 <= x2,
            0 <= y1 <= y2,
    ;
}

/// A truncated quotient does not shrink when the dividend grows.
pub proof fn lemma_div_monotonic(x: int, y: int, d: int)
    by (nonlinear_arith)
    requires
        0 <= x <= y,
        d > 0,
    ensures
        x / d <= y / d,
{
}

/// `x * y / d` does not shrink when a factor grows.
pub proof fn lemma_mul_div_monotonic(x1: u128, y1: u128, x2: u128, y2: u128, d: u128)
    requires
        x1 <= x2,
        y1 <= y2,
        d > 0,
    ensures
        mul_div(x1, y1, d) <= mul_div(x2, y2, d),
{
    lemma_sat_mul_monotonic(x1, y1, x2, y2);
    lemma_div_monotonic(sat_mul(x1, y1) as int, sat_mul(x2, y2) as int, d as int);
}

/// A share `x * y / d` of `x` is none for none of `d`, and all of `x` at most
/// for no more than `d`.
pub proof fn lemma_mul_div_bound(x: u128, y: u128, d: u128)
    requires
        y <= d,
        d > 0,
    ensures
        mul_div(x, y, d) <= x,
        y == 0 ==> mul_div(x, y, d) == 0,
{
    assert(x * y <= x * d) by (nonlinear_arith)
        requires
            0 <= y <= d,
            0 <= x,
    ;
    assert((x * d) / (d as int) == x) by (nonlinear_arith)
        requires
            d > 0,
    ;
    lemma_div_monotonic(sat_mul(x, y) as int, x * d, d as int);
    if y == 0 {
        assert(x * y == 0) by (nonlinear_arith)
            requires
                y == 0,
        ;
    }
}

/// Truncation loses less than one unit per term: the quotient of a sum is
/// the sum of the quotients, or one more.
pub proof fn lemma_div_of_sum(x: int, y: int, d: int)
    by (nonlinear_arith)
    requires
        0 <= x,
        0 <= y,
        d > 0,
    ensures
        x / d + y / d <= (x + y) / d <= x / d + y / d + 1,
{
}

/// Splitting an amount in two splits its share `x * y / d` in two, up to
/// the one unit that truncation may lose, as long as the product fits.
pub proof fn lemma_mul_div_split(a: u128, b: u128, y: u128, d: u128)
    requires
        (a + b) * y <= u128::MAX,
        d > 0,
    ensures
        a + b <= u128::MAX || y == 0,
        mul_div(a, y, d) + mul_div(b, y, d) <= sat_mul(clamp(a + b), y) / d,
        sat_mul(clamp(a + b), y) / d <= mul_div(a, y, d) + mul_div(b, y, d) + 1,
{
    assert((a + b) * y == a * y + b * y) by (nonlinear_arith);
    assert(0 <= a * y && 0 <= b * y) by (nonlinear_arith);
    if y > 0 {
        assert(a + b <= (a + b) * y) by (nonlinear_arith)
            requires
                y >= 1,
                a + b >= 0,
        ;
        assert(clamp(a + b) == a + b);
    } else {
        assert(clamp(a + b) * y == 0) by (nonlinear_arith)
            requires
                y == 0,
        ;
        assert(a * y == 0 && b * y == 0) by (nonlinear_arith)
            requires
                y == 0,
        ;
    }
    lemma_div_of_sum(a * y, b * y, d as int);
}

} // verus!
