use lyraswap::math::{
    checked_difference, checked_division, checked_product, checked_sum, mul_div,
};
use lyraswap::{integer_sqrt, Error};

#[test]
fn square_roots_are_rounded_down() {
    let cases: [(i128, i128); 12] = [
        (0, 0),
        (1, 1),
        (2, 1),
        (3, 1),
        (4, 2),
        (15, 3),
        (16, 4),
        (17, 4),
        (400_000_000, 20_000),
        (399_999_999, 19_999),
        (i128::MAX, 13_043_817_825_332_782_212),
        (10_000_000_000_000_000_000_000_000_000_000_000_000, 3_162_277_660_168_379_331),
    ];
    for (value, root) in cases {
        assert_eq!(integer_sqrt(value), Ok(root));
    }
}

#[test]
fn negative_numbers_have_no_square_root() {
    assert_eq!(integer_sqrt(-1), Err(Error::ArithmeticOverflow));
    assert_eq!(integer_sqrt(i128::MIN), Err(Error::ArithmeticOverflow));
}

#[test]
fn sums_and_products_refuse_to_overflow() {
    assert_eq!(checked_sum(2, 3), Ok(5));
    assert_eq!(checked_sum(i128::MAX, 1), Err(Error::ArithmeticOverflow));
    assert_eq!(checked_difference(2, 3), Ok(-1));
    assert_eq!(checked_difference(i128::MIN, 1), Err(Error::ArithmeticOverflow));
    assert_eq!(checked_product(-2, 3), Ok(-6));
    assert_eq!(checked_product(i128::MAX, 2), Err(Error::ArithmeticOverflow));
}

#[test]
fn quotients_are_rounded_towards_zero() {
    assert_eq!(checked_division(7, 2), Ok(3));
    assert_eq!(checked_division(-7, 2), Ok(-3));
    assert_eq!(checked_division(7, -2), Ok(-3));
    assert_eq!(checked_division(-7, -2), Ok(3));
    assert_eq!(checked_division(7, 0), Err(Error::ArithmeticOverflow));
    assert_eq!(checked_division(i128::MIN, -1), Err(Error::ArithmeticOverflow));
    assert_eq!(mul_div(10, 7, 4), Ok(17));
    assert_eq!(mul_div(i128::MAX, 2, 4), Err(Error::ArithmeticOverflow));
    assert_eq!(mul_div(1, 1, 0), Err(Error::ArithmeticOverflow));
}

#[test]
fn error_codes() {
    let codes = [
        (Error::AlreadyInitialized, 1),
        (Error::NotInitialized, 2),
        (Error::OwnerNotSet, 3),
        (Error::IdenticalTokens, 4),
        (Error::InvalidFee, 7),
        (Error::InvalidAmount, 8),
        (Error::SlippageExceeded, 9),
        (Error::InsufficientLiquidity, 10),
        (Error::InsufficientLpBalance, 11),
        (Error::ArithmeticOverflow, 12),
        (Error::ZeroLiquidity, 14),
    ];
    for (error, code) in codes {
        assert_eq!(error.code(), code);
    }
}
