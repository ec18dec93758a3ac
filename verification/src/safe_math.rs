use crate::error::Error;
use vstd::prelude::*;

verus! {

/// Whether a mathematical integer fits in an `i128`.
pub open spec fn fits_i128(x: int) -> bool {
    i128::MIN <= x <= i128::MAX
}

/// Checked addition. Returns `Error::Overflow` if the sum does not fit.
pub fn safe_add(a: i128, b: i128) -> (r: Result<i128, Error>)
    ensures
        fits_i128(a + b) ==> r == Ok::<i128, Error>((a + b) as i128),
        !fits_i128(a + b) ==> r == Err::<i128, Error>(Error::Overflow),
{
    match a.checked_add(b) {
        Some(v) => Ok(v),
        None => Err(Error::Overflow),
    }
}

/// Checked subtraction. Returns `Error::Underflow` if the difference does not fit.
pub fn safe_sub(a: i128, b: i128) -> (r: Result<i128, Error>)
    ensures
        fits_i128(a - b) ==> r == Ok::<i128, Error>((a - b) as i128),
        !fits_i128(a - b) ==> r == Err::<i128, Error>(Error::Underflow),
{
    match a.checked_sub(b) {
        Some(v) => Ok(v),
        None => Err(Error::Underflow),
    }
}

/// Checked multiplication. Returns `Error::Overflow` if the product does not fit.
pub fn safe_mul(a: i128, b: i128) -> (r: Result<i128, Error>)
    ensures
        fits_i128(a * b) ==> r == Ok::<i128, Error>((a * b) as i128),
        !fits_i128(a * b) ==> r == Err::<i128, Error>(Error::Overflow),
{
    match a.checked_mul(b) {
        Some(v) => Ok(v),
        None => Err(Error::Overflow),
    }
}

/// Adds a non-negative `amount` to a balance. A negative amount is an
/// `Underflow`; a sum that does not fit is an `Overflow`.
pub fn safe_add_balance(balance: i128, amount: i128) -> (r: Result<i128, Error>)
    ensures
        amount < 0 ==> r == Err::<i128, Error>(Error::Underflow),
        amount >= 0 && fits_i128(balance + amount) ==> r == Ok::<i128, Error>(
            (balance + amount) as i128,
        ),
        amount >= 0 && !fits_i128(balance + amount) ==> r == Err::<i128, Error>(Error::Overflow),
{
    if amount < 0 {
        return Err(Error::Underflow);
    }
    safe_add(balance, amount)
}

/// Subtracts a non-negative `amount` from a balance without letting it go
/// below zero; every refusal is an `Underflow`.
pub fn safe_sub_balance(balance: i128, amount: i128) -> (r: Result<i128, Error>)
    ensures
        (amount < 0 || balance < amount) ==> r == Err::<i128, Error>(Error::Underflow),
        (0 <= amount <= balance) ==> r == Ok::<i128, Error>((balance - amount) as i128),
{
    if amount < 0 {
        return Err(Error::Underflow);
    }
    if balance < amount {
        return Err(Error::Underflow);
    }
    safe_sub(balance, amount)
}

} // verus!
