use subscription_vault::admin::VaultState;
use subscription_vault::error::Error;
use subscription_vault::normalize::{denormalize_amount, normalize_amount};
use subscription_vault::types::Addr;

const TOKEN: Addr = Addr(5);

fn vault_with_decimals(d: u32) -> VaultState {
    let mut v = VaultState::new();
    v.token_decimals.insert(TOKEN.0, d);
    v
}

#[test]
fn test_6_decimal_token_normalization() {
    let v = vault_with_decimals(6);
    let raw = 1_234_567i128;
    let normalized = normalize_amount(&v, TOKEN, raw).unwrap();
    assert_eq!(normalized, 1_234_567_000);
    let denormalized = denormalize_amount(&v, TOKEN, normalized).unwrap();
    assert_eq!(denormalized, raw);
}

#[test]
fn test_7_decimal_token_normalization() {
    let v = vault_with_decimals(7);
    let raw = 12_345_678i128;
    let normalized = normalize_amount(&v, TOKEN, raw).unwrap();
    assert_eq!(normalized, 1_234_567_800);
    let denormalized = denormalize_amount(&v, TOKEN, normalized).unwrap();
    assert_eq!(denormalized, raw);
}

#[test]
fn test_zero_decimal_token_rejected() {
    let v = vault_with_decimals(0);
    assert_eq!(normalize_amount(&v, TOKEN, 100), Err(Error::InvalidTokenDecimals));
    assert_eq!(denormalize_amount(&v, TOKEN, 100), Err(Error::InvalidTokenDecimals));
}

#[test]
fn test_unregistered_token_rejected() {
    let v = VaultState::new();
    assert_eq!(normalize_amount(&v, TOKEN, 100), Err(Error::InvalidToken));
}

#[test]
fn test_normalization_overflow() {
    let v = vault_with_decimals(6);
    assert_eq!(normalize_amount(&v, TOKEN, i128::MAX), Err(Error::Overflow));
}

#[test]
fn test_denormalization_overflow() {
    let v = vault_with_decimals(12);
    assert_eq!(denormalize_amount(&v, TOKEN, i128::MAX), Err(Error::Overflow));
}

#[test]
fn test_greater_than_9_decimals() {
    let v = vault_with_decimals(12);
    let raw_loss = 1_234_567_890_123i128;
    assert_eq!(normalize_amount(&v, TOKEN, raw_loss), Err(Error::InvalidInput));
    let raw_exact = 1_234_567_890_000i128;
    let normalized = normalize_amount(&v, TOKEN, raw_exact).unwrap();
    assert_eq!(normalized, 1_234_567_890);
    let denormalized = denormalize_amount(&v, TOKEN, normalized).unwrap();
    assert_eq!(denormalized, raw_exact);
}

#[test]
fn test_denormalization_precision_loss() {
    let v = vault_with_decimals(6);
    assert_eq!(denormalize_amount(&v, TOKEN, 1_000_500_500), Err(Error::InvalidInput));
}

#[test]
fn nine_decimals_is_identity_and_negatives_round_trip() {
    let v = vault_with_decimals(9);
    assert_eq!(normalize_amount(&v, TOKEN, -42), Ok(-42));
    let v = vault_with_decimals(11);
    assert_eq!(normalize_amount(&v, TOKEN, -4200), Ok(-42));
    assert_eq!(denormalize_amount(&v, TOKEN, -42), Ok(-4200));
    assert_eq!(normalize_amount(&v, TOKEN, -4201), Err(Error::InvalidInput));
}

#[test]
fn huge_decimals_only_accept_zero() {
    let v = vault_with_decimals(60);
    assert_eq!(normalize_amount(&v, TOKEN, 0), Ok(0));
    assert_eq!(normalize_amount(&v, TOKEN, i128::MIN), Err(Error::InvalidInput));
    assert_eq!(denormalize_amount(&v, TOKEN, 0), Ok(0));
    assert_eq!(denormalize_amount(&v, TOKEN, -1), Err(Error::Overflow));
}
