use subscription_vault::error::Error;
use subscription_vault::subscription::{SubscriptionStatus, SubscriptionVault};
use subscription_vault::types::Addr;

const NOW: u64 = 0;

fn setup() -> (SubscriptionVault, Addr) {
    let mut vault = SubscriptionVault::new();
    let admin = Addr(1);
    let default_token = Addr(2);
    vault.init(admin, default_token);
    (vault, default_token)
}

#[test]
fn version_is_zero() {
    assert_eq!(SubscriptionVault::version(), 0);
}

#[test]
fn test_id_starts_at_zero() {
    let (mut vault, _) = setup();
    let id = vault
        .create_subscription(NOW, Addr(10), Addr(11), 1000, 3600, false, None, 0)
        .unwrap();
    assert_eq!(id, 0);
}

#[test]
fn test_ids_are_monotonically_increasing() {
    let (mut vault, _) = setup();
    for expected in 0..10u32 {
        let id = vault
            .create_subscription(NOW, Addr(10), Addr(11), 1000, 3600, false, None, 0)
            .unwrap();
        assert_eq!(id, expected);
    }
}

#[test]
fn test_ids_are_unique() {
    let (mut vault, _) = setup();
    let mut seen = Vec::new();
    for i in 0..100u32 {
        let id = vault
            .create_subscription(NOW, Addr(10), Addr(11), 1000, 3600, false, None, 0)
            .unwrap();
        assert_eq!(id, i);
        seen.push(id);
    }
    assert_eq!(seen.len(), 100);
}

#[test]
fn test_get_subscription_count_on_empty() {
    let (vault, _) = setup();
    assert_eq!(vault.get_subscription_count(), 0);
}

#[test]
fn test_get_subscription_count_matches_creations() {
    let (mut vault, _) = setup();
    assert_eq!(vault.get_subscription_count(), 0);
    vault.create_subscription(NOW, Addr(10), Addr(11), 1000, 3600, false, None, 0).unwrap();
    assert_eq!(vault.get_subscription_count(), 1);
    vault.create_subscription(NOW, Addr(10), Addr(11), 2000, 7200, false, None, 0).unwrap();
    assert_eq!(vault.get_subscription_count(), 2);
    vault.create_subscription(NOW, Addr(10), Addr(11), 3000, 14400, true, None, 0).unwrap();
    assert_eq!(vault.get_subscription_count(), 3);
}

#[test]
fn test_get_subscription_returns_matching_fields() {
    let (mut vault, _) = setup();
    let sub = Addr(10);
    let merchant = Addr(11);
    let now = NOW;
    let id = vault.create_subscription(now, sub, merchant, 5000, 7200, true, None, 0).unwrap();
    let stored = vault.get_subscription(id).unwrap();
    assert_eq!(stored.subscriber, sub);
    assert_eq!(stored.merchant, merchant);
    assert_eq!(stored.amount, 5000);
    assert_eq!(stored.interval_seconds, 7200);
    assert_eq!(stored.last_payment_timestamp, now);
    assert_eq!(stored.status, SubscriptionStatus::Active);
    assert_eq!(stored.prepaid_balance, 0);
    assert!(stored.usage_enabled);
    assert_eq!(stored.expires_at, None);
}

#[test]
fn test_get_subscription_with_expires_at_round_trip() {
    let (mut vault, _) = setup();
    let now = NOW;
    let future = now + 86400;
    let id = vault
        .create_subscription(now, Addr(10), Addr(11), 1000, 3600, false, Some(future), 0)
        .unwrap();
    let stored = vault.get_subscription(id).unwrap();
    assert_eq!(stored.expires_at, Some(future));
    assert_eq!(stored.last_payment_timestamp, now);
}

#[test]
fn test_get_subscription_stores_token() {
    let (mut vault, default_token) = setup();
    let id = vault.create_subscription(NOW, Addr(10), Addr(11), 1000, 3600, false, None, 0).unwrap();
    let stored = vault.get_subscription(id).unwrap();
    assert_eq!(stored.token, default_token);
}

#[test]
fn test_get_subscription_unknown_id_returns_not_found() {
    let (vault, _) = setup();
    assert_eq!(vault.get_subscription(999), Err(Error::NotFound));
}

#[test]
fn test_get_subscription_after_creation_other_ids_still_not_found() {
    let (mut vault, _) = setup();
    let id = vault.create_subscription(NOW, Addr(10), Addr(11), 1000, 3600, false, None, 0).unwrap();
    assert_eq!(id, 0);
    assert_eq!(vault.get_subscription(1), Err(Error::NotFound));
}

#[test]
fn test_get_subscription_multiple_ids_each_round_trips() {
    let (mut vault, _) = setup();
    let amounts = [1000i128, 2000, 3000, 4000, 5000];
    for &amount in &amounts {
        let id = vault.create_subscription(NOW, Addr(10), Addr(11), amount, 3600, false, None, 0).unwrap();
        let stored = vault.get_subscription(id).unwrap();
        assert_eq!(stored.amount, amount);
    }
}

#[test]
fn test_create_subscription_zero_amount_rejected() {
    let (mut vault, _) = setup();
    let result = vault.create_subscription(NOW, Addr(10), Addr(11), 0, 3600, false, None, 0);
    assert_eq!(result, Err(Error::InvalidArgument));
}

#[test]
fn test_create_subscription_negative_amount_rejected() {
    let (mut vault, _) = setup();
    let result = vault.create_subscription(NOW, Addr(10), Addr(11), -1, 3600, false, None, 0);
    assert_eq!(result, Err(Error::InvalidArgument));
}

#[test]
fn test_create_subscription_zero_interval_rejected() {
    let (mut vault, _) = setup();
    let result = vault.create_subscription(NOW, Addr(10), Addr(11), 1000, 0, false, None, 0);
    assert_eq!(result, Err(Error::InvalidArgument));
}

#[test]
fn test_create_subscription_past_expiration_rejected() {
    let (mut vault, _) = setup();
    let now = NOW;
    let result = vault.create_subscription(now, Addr(10), Addr(11), 1000, 3600, false, Some(now), 0);
    assert_eq!(result, Err(Error::InvalidArgument));
}

#[test]
fn create_without_default_token_is_not_found() {
    let mut vault = SubscriptionVault::new();
    let result = vault.create_subscription(5, Addr(10), Addr(11), 1000, 3600, false, None, 0);
    assert_eq!(result, Err(Error::NotFound));
    assert_eq!(vault.get_subscription_count(), 0);
}

#[test]
fn create_stops_at_the_last_id() {
    let (mut vault, _) = setup();
    vault.next_id = Some(u32::MAX);
    let result = vault.create_subscription(NOW, Addr(10), Addr(11), 1000, 3600, false, None, 0);
    assert_eq!(result, Err(Error::SubscriptionLimitReached));
    assert_eq!(vault.get_subscription_count(), u32::MAX);
}

#[test]
fn reinit_keeps_existing_subscriptions() {
    let (mut vault, _) = setup();
    let id = vault.create_subscription(NOW, Addr(10), Addr(11), 1000, 3600, false, None, 0).unwrap();
    vault.init(Addr(3), Addr(4));
    assert_eq!(vault.get_subscription(id).unwrap().token, Addr(2));
    let id2 = vault.create_subscription(NOW, Addr(10), Addr(11), 1000, 3600, false, None, 0).unwrap();
    assert_eq!(id2, 1);
    assert_eq!(vault.get_subscription(id2).unwrap().token, Addr(4));
}

#[test]
fn credit_limit_refuses_new_liability_beyond_limit() {
    let (mut vault, token) = setup();
    assert_eq!(
        vault.create_subscription(NOW, Addr(10), Addr(11), 1000, 3600, false, None, 500),
        Err(Error::CreditLimitExceeded)
    );
    assert_eq!(vault.get_subscription_count(), 0);
    assert_eq!(vault.create_subscription(NOW, Addr(10), Addr(11), 400, 3600, false, None, 500), Ok(0));
    assert_eq!(vault.compute_subscriber_exposure(Addr(10), token), Ok(400));
    assert_eq!(
        vault.create_subscription(NOW, Addr(10), Addr(11), 101, 3600, false, None, 500),
        Err(Error::CreditLimitExceeded)
    );
    assert_eq!(vault.create_subscription(NOW, Addr(10), Addr(11), 100, 3600, false, None, 500), Ok(1));
    assert_eq!(vault.compute_subscriber_exposure(Addr(10), token), Ok(500));
    // Another subscriber's exposure is separate, and limit 0 means no limit.
    assert_eq!(vault.create_subscription(NOW, Addr(12), Addr(11), 400, 3600, false, None, 500), Ok(2));
    assert_eq!(vault.create_subscription(NOW, Addr(10), Addr(11), 10_000, 3600, false, None, 0), Ok(3));
}

#[test]
fn exposure_counts_prepaid_and_active_amounts() {
    let (mut vault, token) = setup();
    let id = vault.create_subscription(NOW, Addr(10), Addr(11), 300, 3600, false, None, 0).unwrap();
    let mut s = vault.get_subscription(id).unwrap();
    s.prepaid_balance = 50;
    s.status = SubscriptionStatus::Paused;
    vault.subscriptions.insert(id, s);
    assert_eq!(vault.compute_subscriber_exposure(Addr(10), token), Ok(50));
    s.prepaid_balance = i128::MAX;
    s.status = SubscriptionStatus::Active;
    vault.subscriptions.insert(id, s);
    assert_eq!(vault.compute_subscriber_exposure(Addr(10), token), Err(Error::Overflow));
    assert_eq!(
        vault.create_subscription(NOW, Addr(10), Addr(11), 1, 3600, false, None, 5),
        Err(Error::Overflow)
    );
    assert_eq!(vault.compute_subscriber_exposure(Addr(99), token), Ok(0));
}
