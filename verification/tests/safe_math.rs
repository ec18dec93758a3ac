use subscription_vault::error::Error;
use subscription_vault::safe_math::{safe_add, safe_add_balance, safe_mul, safe_sub, safe_sub_balance};

#[test]
fn checked_arithmetic() {
    assert_eq!(safe_add(2, 3), Ok(5));
    assert_eq!(safe_add(i128::MAX, 1), Err(Error::Overflow));
    assert_eq!(safe_sub(2, 3), Ok(-1));
    assert_eq!(safe_sub(i128::MIN, 1), Err(Error::Underflow));
    assert_eq!(safe_mul(-4, 5), Ok(-20));
    assert_eq!(safe_mul(i128::MAX, 2), Err(Error::Overflow));
}

#[test]
fn balance_arithmetic() {
    assert_eq!(safe_add_balance(10, 5), Ok(15));
    assert_eq!(safe_add_balance(10, -5), Err(Error::Underflow));
    assert_eq!(safe_add_balance(i128::MAX, 1), Err(Error::Overflow));
    assert_eq!(safe_sub_balance(10, 10), Ok(0));
    assert_eq!(safe_sub_balance(10, 11), Err(Error::Underflow));
    assert_eq!(safe_sub_balance(10, -1), Err(Error::Underflow));
}
