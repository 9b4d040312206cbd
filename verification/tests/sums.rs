use sum_of_squares::{
    sum_of_squares, sum_of_squares_checked, sum_of_squares_checked_u64, sum_of_squares_wrapping,
    sum_of_squares_wrapping_u64, OverflowPolicy, SumError,
};

/// The closed form n·(n−1)·(2n−1)/6, evaluated in u128 arithmetic.
fn closed_form(n: u128) -> u128 {
    if n == 0 {
        0
    } else {
        n * (n - 1) * (2 * n - 1) / 6
    }
}

#[test]
fn sum_below_zero_is_zero() {
    assert_eq!(sum_of_squares_wrapping(0), 0);
    assert_eq!(sum_of_squares_checked(0), Ok(0));
    assert_eq!(sum_of_squares_wrapping_u64(0), 0);
    assert_eq!(sum_of_squares_checked_u64(0), Ok(0));
}

#[test]
fn sum_below_one_is_zero() {
    assert_eq!(sum_of_squares_wrapping(1), 0);
    assert_eq!(sum_of_squares_checked(1), Ok(0));
    assert_eq!(sum_of_squares_wrapping_u64(1), 0);
    assert_eq!(sum_of_squares_checked_u64(1), Ok(0));
}

#[test]
fn sum_below_two_is_one() {
    assert_eq!(sum_of_squares_wrapping(2), 1);
    assert_eq!(sum_of_squares_checked(2), Ok(1));
}

#[test]
fn sum_below_ten_is_285() {
    assert_eq!(sum_of_squares_wrapping(10), 285);
    assert_eq!(sum_of_squares_checked(10), Ok(285));
    assert_eq!(sum_of_squares_wrapping_u64(10), 285);
    assert_eq!(sum_of_squares_checked_u64(10), Ok(285));
}

#[test]
fn matches_closed_form_for_small_bounds() {
    for n in 0..200u128 {
        let expected = closed_form(n);
        assert_eq!(sum_of_squares_checked(n), Ok(expected));
        assert_eq!(sum_of_squares_wrapping(n), expected);
    }
}

#[test]
fn checked_u64_reports_overflow() {
    // closed_form(5_000_000) ≈ 4.2·10^19 exceeds u64::MAX ≈ 1.8·10^19.
    assert!(closed_form(5_000_000) > u64::MAX as u128);
    assert_eq!(sum_of_squares_checked_u64(5_000_000), Err(SumError::Overflow));
}

#[test]
fn checked_u64_is_exact_when_the_sum_fits() {
    // closed_form(3_000_000) ≈ 9.0·10^18 still fits in a u64.
    let expected = closed_form(3_000_000);
    assert!(expected <= u64::MAX as u128);
    assert_eq!(sum_of_squares_checked_u64(3_000_000), Ok(expected as u64));
}

#[test]
fn wrapped_u64_value_is_true_sum_mod_2_to_the_64() {
    let n: u64 = 5_000_000;
    let true_sum = sum_of_squares_checked(n as u128).expect("fits in u128");
    let expected = (true_sum % (1u128 << 64)) as u64;
    assert_eq!(sum_of_squares_wrapping_u64(n), expected);
}

#[test]
fn wrapping_equals_checked_when_no_overflow() {
    let n: u128 = 1_000;
    assert_eq!(Ok(sum_of_squares_wrapping(n)), sum_of_squares_checked(n));
}

#[test]
fn policy_entry_dispatches_to_both_variants() {
    assert_eq!(sum_of_squares(10, OverflowPolicy::Wrapping), Ok(285));
    assert_eq!(sum_of_squares(10, OverflowPolicy::Checked), Ok(285));
    assert_eq!(
        sum_of_squares(1_000_000, OverflowPolicy::Checked),
        Ok(closed_form(1_000_000))
    );
}

#[test]
fn repeated_calls_return_the_same_result() {
    let first = sum_of_squares(12345, OverflowPolicy::Checked);
    let second = sum_of_squares(12345, OverflowPolicy::Checked);
    assert_eq!(first, second);
    let w1 = sum_of_squares(12345, OverflowPolicy::Wrapping);
    let w2 = sum_of_squares(12345, OverflowPolicy::Wrapping);
    assert_eq!(w1, w2);
}
