//! Decimal-aware amounts: converting a token's raw units to and from a
//! common 9-decimal base, refusing any conversion that would lose precision
//! or overflow.
use crate::admin::VaultState;
use crate::error::Error;
use crate::safe_math::fits_i128;
use crate::types::Addr;
use vstd::prelude::*;

verus! {

broadcast use vstd::std_specs::hash::group_hash_axioms;

/// Decimals of the common base that amounts are normalised to.
pub const NORMALIZED_DECIMALS: u32 = 9;

/// Ten to the power `k`.
pub open spec fn pow10(k: nat) -> int
    decreases k,
{
    if k == 0 {
        1
    } else {
        10 * pow10((k - 1) as nat)
    }
}

/// Powers of ten grow with the exponent and are positive.
proof fn lemma_pow10_monotone(i: nat, j: nat)
    requires
        i <= j,
    ensures
        1 <= pow10(i) <= pow10(j),
    decreases j,
{
    if j > 0 {
        if i < j {
            lemma_pow10_monotone(i, (j - 1) as nat);
        } else {
            lemma_pow10_monotone(0, (j - 1) as nat);
        }
    }
}

/// A raw amount of a token with `d` decimals, in the common base.
pub open spec fn normalized_spec(d: u32, raw: i128) -> Result<i128, Error> {
    if d == 0 {
        Err(Error::InvalidTokenDecimals)
    } else if d <= NORMALIZED_DECIMALS {
        let v = raw * pow10((NORMALIZED_DECIMALS - d) as nat);
        if fits_i128(v) {
            Ok(v as i128)
        } else {
            Err(Error::Overflow)
        }
    } else {
        let f = pow10((d - NORMALIZED_DECIMALS) as nat);
        if (raw as int) % f == 0 {
            Ok(((raw as int) / f) as i128)
        } else {
            Err(Error::InvalidInput)
        }
    }
}

/// An amount in the common base, in raw units of a token with `d` decimals.
pub open spec fn denormalized_spec(d: u32, normalized: i128) -> Result<i128, Error> {
    if d == 0 {
        Err(Error::InvalidTokenDecimals)
    } else if d <= NORMALIZED_DECIMALS {
        let f = pow10((NORMALIZED_DECIMALS - d) as nat);
        if (normalized as int) % f == 0 {
            Ok(((normalized as int) / f) as i128)
        } else {
            Err(Error::InvalidInput)
        }
    } else {
        let v = normalized * pow10((d - NORMALIZED_DECIMALS) as nat);
        if fits_i128(v) {
            Ok(v as i128)
        } else {
            Err(Error::Overflow)
        }
    }
}

/// Ten to the power `k`, when it fits in an `i128`.
fn checked_pow10(k: u32) -> (r: Option<i128>)
    ensures
        r is Some <==> pow10(k as nat) <= i128::MAX,
        r is Some ==> r->0 == pow10(k as nat),
{
    let mut acc: Option<i128> = Some(1);
    let mut i: u32 = 0;
    proof {
        lemma_pow10_monotone(0, k as nat);
    }
    while i < k && acc.is_some()
        invariant
            0 <= i <= k,
            acc is Some ==> acc->0 == pow10(i as nat) && pow10(i as nat) <= i128::MAX,
            acc is None ==> pow10(i as nat) > i128::MAX,
        decreases k - i,
    {
        let v = acc.unwrap();
        proof {
            lemma_pow10_monotone(0, i as nat);
            assert(pow10((i + 1) as nat) == 10 * pow10(i as nat));
        }
        acc = v.checked_mul(10);
        i = i + 1;
    }
    proof {
        if acc is None {
            lemma_pow10_monotone(i as nat, k as nat);
        }
    }
    acc
}

/// No power of ten is 2^127 (one past the largest `i128`): every power
/// of ten from 10 on is a multiple of 5, and 2^127 is not.
proof fn lemma_pow10_not_i128_bound(k: nat)
    ensures
        pow10(k) != i128::MAX + 1,
        k >= 1 ==> pow10(k) % 5 == 0,
    decreases k,
{
    if k >= 1 {
        lemma_pow10_not_i128_bound((k - 1) as nat);
        let p = pow10((k - 1) as nat);
        assert((10 * p) % 5 == 0) by {
            vstd::arithmetic::div_mod::lemma_mod_multiples_basic(2 * p, 5);
            assert(10 * p == (2 * p) * 5);
        }
        assert((i128::MAX + 1) % 5 == 3);
    }
}

/// An integer whose magnitude is below a positive divisor is a multiple of
/// it only when it is zero.
proof fn lemma_small_multiple_is_zero(x: int, f: int)
    requires
        f > 0,
        -f < x < f,
        x % f == 0,
    ensures
        x == 0,
        x / f == 0,
{
    let q = x / f;
    vstd::arithmetic::div_mod::lemma_fundamental_div_mod(x, f);
    assert(x == f * q);
    if q >= 1 {
        assert(f * q >= f) by (nonlinear_arith)
            requires
                q >= 1,
                f > 0,
        ;
    }
    if q <= -1 {
        assert(f * q <= -f) by (nonlinear_arith)
            requires
                q <= -1,
                f > 0,
        ;
    }
    assert(q == 0);
    assert(f * q == 0) by (nonlinear_arith)
        requires
            q == 0,
    ;
}

/// A non-zero multiple of a number beyond one past the largest `i128` does
/// not fit in an `i128`.
proof fn lemma_large_product_overflows(n: int, f: int)
    requires
        f > i128::MAX + 1,
        n != 0,
    ensures
        !fits_i128(n * f),
{
    if n >= 1 {
        assert(n * f >= f) by (nonlinear_arith)
            requires
                n >= 1,
                f > 0,
        ;
    } else {
        assert(n * f <= -f) by (nonlinear_arith)
            requires
                n <= -1,
                f > 0,
        ;
    }
}

/// Exact division of `x` by a positive `f`: the quotient when `f` divides
/// `x`, else `InvalidInput`.
fn exact_div(x: i128, f: i128) -> (r: Result<i128, Error>)
    requires
        f > 0,
    ensures
        (x as int) % (f as int) == 0 ==> r == Ok::<i128, Error>(((x as int) / (f as int)) as i128),
        (x as int) % (f as int) != 0 ==> r == Err::<i128, Error>(Error::InvalidInput),
{
    let rem = x.checked_rem_euclid(f);
    match rem {
        Some(0) => {
            let q = x.checked_div_euclid(f);
            proof {
                let q = (x as int) / (f as int);
                vstd::arithmetic::div_mod::lemma_fundamental_div_mod(x as int, f as int);
                assert(x as int == (f as int) * q);
                if x >= 0 {
                    assert(0 <= q <= x) by (nonlinear_arith)
                        requires
                            f >= 1,
                            x >= 0,
                            x as int == (f as int) * q,
                    ;
                } else {
                    assert(x <= q <= 0) by (nonlinear_arith)
                        requires
                            f >= 1,
                            x < 0,
                            x as int == (f as int) * q,
                    ;
                }
            }
            match q {
                Some(v) => Ok(v),
                None => Err(Error::InvalidInput),
            }
        },
        _ => Err(Error::InvalidInput),
    }
}

/// Converts a raw amount of `token` into the common 9-decimal base.
/// Unregistered tokens are `InvalidToken`; tokens declared with 0 decimals
/// are `InvalidTokenDecimals`; scaling up may `Overflow`; scaling down must
/// be exact (`InvalidInput` otherwise).
pub fn normalize_amount(vault: &VaultState, token: Addr, raw: i128) -> (r: Result<i128, Error>)
    ensures
        !vault.token_decimals@.contains_key(token.0) ==> r == Err::<i128, Error>(Error::InvalidToken),
        vault.token_decimals@.contains_key(token.0) ==> r == normalized_spec(vault.token_decimals@[token.0], raw),
{
    let d = match vault.token_decimals.get(&token.0) {
        Some(d) => *d,
        None => return Err(Error::InvalidToken),
    };
    if d == 0 {
        return Err(Error::InvalidTokenDecimals);
    }
    if d <= NORMALIZED_DECIMALS {
        let f = checked_pow10(NORMALIZED_DECIMALS - d);
        proof {
            lemma_pow10_monotone((NORMALIZED_DECIMALS - d) as nat, 9);
            reveal_with_fuel(pow10, 10);
            assert(pow10(9) == 1_000_000_000);
        }
        let f = f.unwrap();
        match raw.checked_mul(f) {
            Some(v) => Ok(v),
            None => Err(Error::Overflow),
        }
    } else {
        match checked_pow10(d - NORMALIZED_DECIMALS) {
            Some(f) => {
                proof {
                    lemma_pow10_monotone(0, (d - NORMALIZED_DECIMALS) as nat);
                }
                exact_div(raw, f)
            },
            None => {
                if raw == 0 {
                    proof {
                        let f = pow10((d - NORMALIZED_DECIMALS) as nat);
                        lemma_pow10_not_i128_bound((d - NORMALIZED_DECIMALS) as nat);
                        vstd::arithmetic::div_mod::lemma_mod_multiples_basic(0, f);
                        vstd::arithmetic::div_mod::lemma_div_multiples_vanish(0, f);
                        assert(0int * f == 0 && f * 0int == 0);
                    }
                    Ok(0)
                } else {
                    proof {
                        let f = pow10((d - NORMALIZED_DECIMALS) as nat);
                        lemma_pow10_not_i128_bound((d - NORMALIZED_DECIMALS) as nat);
                        if (raw as int) % f == 0 {
                            lemma_small_multiple_is_zero(raw as int, f);
                        }
                    }
                    Err(Error::InvalidInput)
                }
            },
        }
    }
}

/// Converts an amount in the common 9-decimal base back into raw units of
/// `token`, with the same refusals as `normalize_amount` in reverse.
pub fn denormalize_amount(vault: &VaultState, token: Addr, normalized: i128) -> (r: Result<i128, Error>)
    ensures
        !vault.token_decimals@.contains_key(token.0) ==> r == Err::<i128, Error>(Error::InvalidToken),
        vault.token_decimals@.contains_key(token.0) ==> r == denormalized_spec(vault.token_decimals@[token.0], normalized),
{
    let d = match vault.token_decimals.get(&token.0) {
        Some(d) => *d,
        None => return Err(Error::InvalidToken),
    };
    if d == 0 {
        return Err(Error::InvalidTokenDecimals);
    }
    if d <= NORMALIZED_DECIMALS {
        let f = checked_pow10(NORMALIZED_DECIMALS - d);
        proof {
            lemma_pow10_monotone((NORMALIZED_DECIMALS - d) as nat, 9);
            lemma_pow10_monotone(0, (NORMALIZED_DECIMALS - d) as nat);
            reveal_with_fuel(pow10, 10);
            assert(pow10(9) == 1_000_000_000);
        }
        let f = f.unwrap();
        exact_div(normalized, f)
    } else {
        match checked_pow10(d - NORMALIZED_DECIMALS) {
            Some(f) => match normalized.checked_mul(f) {
                Some(v) => Ok(v),
                None => Err(Error::Overflow),
            },
            None => {
                if normalized == 0 {
                    proof {
                        let f = pow10((d - NORMALIZED_DECIMALS) as nat);
                        assert(0int * f == 0);
                    }
                    Ok(0)
                } else {
                    proof {
                        lemma_pow10_not_i128_bound((d - NORMALIZED_DECIMALS) as nat);
                        lemma_large_product_overflows(normalized as int, pow10((d - NORMALIZED_DECIMALS) as nat));
                    }
                    Err(Error::Overflow)
                }
            },
        }
    }
}

/// Normalising and then denormalising gives back the raw amount whenever
/// normalising succeeds.
pub proof fn lemma_normalize_round_trip(d: u32, raw: i128)
    requires
        normalized_spec(d, raw) is Ok,
    ensures
        denormalized_spec(d, normalized_spec(d, raw)->Ok_0) == Ok::<i128, Error>(raw),
{
    if d <= NORMALIZED_DECIMALS {
        let f = pow10((NORMALIZED_DECIMALS - d) as nat);
        lemma_pow10_monotone(0, (NORMALIZED_DECIMALS - d) as nat);
        let v = raw * f;
        vstd::arithmetic::div_mod::lemma_mod_multiples_basic(raw as int, f);
        vstd::arithmetic::div_mod::lemma_div_multiples_vanish(raw as int, f);
        assert(raw * f == f * raw) by (nonlinear_arith);
        assert(v % f == 0);
        assert(v / f == raw);
    } else {
        let f = pow10((d - NORMALIZED_DECIMALS) as nat);
        lemma_pow10_monotone(0, (d - NORMALIZED_DECIMALS) as nat);
        let q = (raw as int) / f;
        vstd::arithmetic::div_mod::lemma_fundamental_div_mod(raw as int, f);
        assert(q * f == raw) by (nonlinear_arith)
            requires
                raw == f * q,
        ;
        if raw >= 0 {
            assert(0 <= q <= raw) by (nonlinear_arith)
                requires
                    f >= 1,
                    raw >= 0,
                    raw == f * q,
            ;
        } else {
            assert(raw <= q <= 0) by (nonlinear_arith)
                requires
                    f >= 1,
                    raw < 0,
                    raw == f * q,
            ;
        }
    }
}

} // verus!
