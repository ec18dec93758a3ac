use subscription_vault::admin::{do_init, VaultState};
use subscription_vault::error::Error;
use subscription_vault::merchant::{
    credit_merchant_balance, credit_merchant_balance_for_token, get_merchant_balance,
    get_merchant_balance_by_token, get_merchant_config, get_merchant_paused,
    get_merchant_token_earnings, get_merchant_total_earnings, get_reconciliation_snapshot,
    initialize_merchant_config, merchant_refund, pause_merchant, set_merchant_config,
    unpause_merchant, update_merchant_config, withdraw_merchant_funds,
    withdraw_merchant_funds_for_token, BillingChargeKind, MerchantAccount,
};
use subscription_vault::types::Addr;

const CONTRACT: Addr = Addr(1);
const ADMIN: Addr = Addr(2);
const USDC: Addr = Addr(3);
const EURC: Addr = Addr(4);

fn vault() -> VaultState {
    let mut v = VaultState::new();
    do_init(&mut v, CONTRACT, USDC, 6, ADMIN, 1_000_000, 0).unwrap();
    v
}

fn reconciled(account: &MerchantAccount, token: Addr) -> bool {
    let e = get_merchant_token_earnings(account, token);
    get_merchant_balance_by_token(account, token)
        == e.accruals.interval + e.accruals.usage + e.accruals.one_off - e.withdrawals - e.refunds
}

#[test]
fn credit_grows_balance_and_matching_accrual() {
    let mut a = MerchantAccount::new();
    credit_merchant_balance_for_token(&mut a, USDC, 700, BillingChargeKind::Interval).unwrap();
    credit_merchant_balance_for_token(&mut a, USDC, 200, BillingChargeKind::Usage).unwrap();
    credit_merchant_balance_for_token(&mut a, USDC, 100, BillingChargeKind::OneOff).unwrap();
    assert_eq!(get_merchant_balance_by_token(&a, USDC), 1000);
    let e = get_merchant_token_earnings(&a, USDC);
    assert_eq!((e.accruals.interval, e.accruals.usage, e.accruals.one_off), (700, 200, 100));
    assert_eq!(a.tokens, vec![USDC]);
    assert!(reconciled(&a, USDC));
}

#[test]
fn negative_credit_is_rejected() {
    let mut a = MerchantAccount::new();
    assert_eq!(
        credit_merchant_balance_for_token(&mut a, USDC, -1, BillingChargeKind::Interval),
        Err(Error::InvalidAmount)
    );
    assert!(a.tokens.is_empty());
}

#[test]
fn credit_overflow_changes_nothing() {
    let mut a = MerchantAccount::new();
    credit_merchant_balance_for_token(&mut a, USDC, i128::MAX, BillingChargeKind::Interval).unwrap();
    assert_eq!(
        credit_merchant_balance_for_token(&mut a, USDC, 1, BillingChargeKind::Usage),
        Err(Error::Overflow)
    );
    assert_eq!(get_merchant_balance_by_token(&a, USDC), i128::MAX);
    assert_eq!(get_merchant_token_earnings(&a, USDC).accruals.usage, 0);
}

#[test]
fn credit_to_default_token_needs_initialised_vault() {
    let mut a = MerchantAccount::new();
    let empty = VaultState::new();
    assert_eq!(
        credit_merchant_balance(&mut a, &empty, 5, BillingChargeKind::Interval),
        Err(Error::NotFound)
    );
    let v = vault();
    credit_merchant_balance(&mut a, &v, 5, BillingChargeKind::Interval).unwrap();
    assert_eq!(get_merchant_balance(&a, &v), 5);
    assert_eq!(get_merchant_balance(&a, &empty), 0);
}

#[test]
fn withdraw_debits_bucket_and_records_withdrawal() {
    let v = vault();
    let mut a = MerchantAccount::new();
    credit_merchant_balance_for_token(&mut a, USDC, 1000, BillingChargeKind::Interval).unwrap();
    withdraw_merchant_funds_for_token(&mut a, &v, USDC, 300, 10_000, Ok(())).unwrap();
    assert_eq!(get_merchant_balance_by_token(&a, USDC), 700);
    assert_eq!(get_merchant_token_earnings(&a, USDC).withdrawals, 300);
    assert!(reconciled(&a, USDC));
    withdraw_merchant_funds(&mut a, &v, 700, 10_000, Ok(())).unwrap();
    assert_eq!(get_merchant_balance_by_token(&a, USDC), 0);
    assert!(reconciled(&a, USDC));
}

#[test]
fn withdraw_errors() {
    let v = vault();
    let mut a = MerchantAccount::new();
    assert_eq!(withdraw_merchant_funds_for_token(&mut a, &v, USDC, 0, 10, Ok(())), Err(Error::InvalidAmount));
    assert_eq!(withdraw_merchant_funds_for_token(&mut a, &v, EURC, 5, 10, Ok(())), Err(Error::InvalidInput));
    assert_eq!(withdraw_merchant_funds_for_token(&mut a, &v, USDC, 5, 10, Ok(())), Err(Error::NotFound));
    credit_merchant_balance_for_token(&mut a, USDC, 100, BillingChargeKind::Interval).unwrap();
    assert_eq!(
        withdraw_merchant_funds_for_token(&mut a, &v, USDC, 101, 1000, Ok(())),
        Err(Error::InsufficientBalance)
    );
    assert_eq!(
        withdraw_merchant_funds_for_token(&mut a, &v, USDC, 50, 49, Ok(())),
        Err(Error::InsufficientBalance)
    );
    assert_eq!(get_merchant_balance_by_token(&a, USDC), 100);
    assert_eq!(withdraw_merchant_funds(&mut a, &VaultState::new(), 5, 10, Ok(())), Err(Error::NotFound));
}

#[test]
fn buckets_are_isolated_per_token() {
    let mut a = MerchantAccount::new();
    credit_merchant_balance_for_token(&mut a, USDC, 100, BillingChargeKind::Interval).unwrap();
    credit_merchant_balance_for_token(&mut a, EURC, 40, BillingChargeKind::OneOff).unwrap();
    merchant_refund(&mut a, EURC, 15).unwrap();
    assert_eq!(get_merchant_balance_by_token(&a, USDC), 100);
    assert_eq!(get_merchant_balance_by_token(&a, EURC), 25);
    assert_eq!(get_merchant_token_earnings(&a, EURC).refunds, 15);
    assert_eq!(get_merchant_token_earnings(&a, USDC).refunds, 0);
    assert!(reconciled(&a, USDC) && reconciled(&a, EURC));
}

#[test]
fn refund_errors() {
    let mut a = MerchantAccount::new();
    assert_eq!(merchant_refund(&mut a, USDC, -3), Err(Error::InvalidAmount));
    assert_eq!(merchant_refund(&mut a, USDC, 3), Err(Error::NotFound));
    credit_merchant_balance_for_token(&mut a, USDC, 2, BillingChargeKind::Usage).unwrap();
    assert_eq!(merchant_refund(&mut a, USDC, 3), Err(Error::InsufficientBalance));
}

#[test]
fn total_earnings_and_snapshot_follow_token_order() {
    let mut a = MerchantAccount::new();
    credit_merchant_balance_for_token(&mut a, EURC, 40, BillingChargeKind::Interval).unwrap();
    credit_merchant_balance_for_token(&mut a, USDC, 100, BillingChargeKind::Usage).unwrap();
    credit_merchant_balance_for_token(&mut a, EURC, 10, BillingChargeKind::OneOff).unwrap();
    let v = vault();
    withdraw_merchant_funds_for_token(&mut a, &v, USDC, 30, 1000, Ok(())).unwrap();
    merchant_refund(&mut a, USDC, 20).unwrap();

    let totals = get_merchant_total_earnings(&a);
    assert_eq!(totals.len(), 2);
    assert_eq!(totals[0].0, EURC);
    assert_eq!(totals[1].0, USDC);
    assert_eq!(totals[0].1.accruals.one_off, 10);

    let snap = get_reconciliation_snapshot(&a);
    assert_eq!(snap[0].token, EURC);
    assert_eq!(snap[0].total_accruals, 50);
    assert_eq!(snap[0].computed_balance, 50);
    assert_eq!(snap[1].total_accruals, 100);
    assert_eq!(snap[1].total_withdrawals, 30);
    assert_eq!(snap[1].total_refunds, 20);
    assert_eq!(snap[1].computed_balance, 50);
    assert_eq!(snap[1].computed_balance, get_merchant_balance_by_token(&a, USDC));
    assert_eq!(snap[1].stored_balance, 0);
    assert!(!snap[1].matches);
}

#[test]
fn snapshot_reports_overflowing_sum_as_zero() {
    let mut a = MerchantAccount::new();
    credit_merchant_balance_for_token(&mut a, USDC, i128::MAX, BillingChargeKind::Interval).unwrap();
    a.earnings.get_mut(&USDC.0).unwrap().accruals.usage = 5;
    let snap = get_reconciliation_snapshot(&a);
    assert_eq!(snap[0].total_accruals, 0);
    assert_eq!(snap[0].computed_balance, 0);
    assert!(snap[0].matches);
}

#[test]
fn merchant_config_lifecycle() {
    let mut a = MerchantAccount::new();
    assert_eq!(
        initialize_merchant_config(&mut a, Addr(9), 10_001, 1, None, String::new(), 5).map(|c| c.version),
        Err(Error::InvalidFeeBips)
    );
    assert_eq!(
        initialize_merchant_config(&mut a, Addr(9), 0, 0x20, None, String::new(), 5).map(|c| c.version),
        Err(Error::InvalidOperations)
    );
    assert_eq!(
        initialize_merchant_config(&mut a, Addr(9), 0, 0x2, None, String::new(), 5).map(|c| c.version),
        Err(Error::MustAllowChargeOperation)
    );
    assert!(get_merchant_config(&a).is_none());

    let c = initialize_merchant_config(&mut a, Addr(9), 250, 0x3, Some(Addr(8)), "u".to_string(), 5).unwrap();
    assert_eq!(c.version, 1);
    assert!(c.is_active);
    assert!(!c.is_paused);
    assert_eq!(c.last_updated, 5);

    let updated = update_merchant_config(&mut a, Some(Addr(7)), None, Some(0x1F), None, Some(None), None, Some(true), 9).unwrap();
    assert_eq!(updated.payout_address, Addr(7));
    assert_eq!(updated.fee_bips, 250);
    assert_eq!(updated.allowed_operations, 0x1F);
    assert_eq!(updated.fee_address, None);
    assert!(updated.is_paused);
    assert_eq!(updated.last_updated, 9);
    assert_eq!(get_merchant_config(&a).unwrap().payout_address, Addr(7));

    assert_eq!(
        update_merchant_config(&mut a, Some(Addr(6)), Some(20_000), None, None, None, None, None, 10).map(|c| c.version),
        Err(Error::InvalidFeeBips)
    );
    assert_eq!(get_merchant_config(&a).unwrap().payout_address, Addr(7));

    let mut replacement = get_merchant_config(&a).unwrap();
    replacement.allowed_operations = 0x4;
    assert_eq!(set_merchant_config(&mut a, replacement, 11), Err(Error::MustAllowChargeOperation));
    let mut replacement = get_merchant_config(&a).unwrap();
    replacement.redirect_url = "v".to_string();
    set_merchant_config(&mut a, replacement, 11).unwrap();
    assert_eq!(get_merchant_config(&a).unwrap().redirect_url, "v");
    assert_eq!(get_merchant_config(&a).unwrap().last_updated, 11);

    let mut fresh = MerchantAccount::new();
    assert_eq!(
        update_merchant_config(&mut fresh, None, None, None, None, None, None, None, 1).map(|c| c.version),
        Err(Error::NotFound)
    );
}

#[test]
fn pause_and_unpause() {
    let mut a = MerchantAccount::new();
    assert!(!get_merchant_paused(&a));
    assert!(pause_merchant(&mut a));
    assert!(get_merchant_paused(&a));
    assert!(!pause_merchant(&mut a));
    assert!(unpause_merchant(&mut a));
    assert!(!get_merchant_paused(&a));
    assert!(!unpause_merchant(&mut a));

    initialize_merchant_config(&mut a, Addr(9), 0, 1, None, String::new(), 0).unwrap();
    update_merchant_config(&mut a, None, None, None, None, None, None, Some(true), 1).unwrap();
    assert!(get_merchant_paused(&a));
    assert!(unpause_merchant(&mut a));
    // A pause recorded in the configuration stays in force.
    assert!(get_merchant_paused(&a));
}

#[test]
fn blocklisted_merchant_cannot_withdraw() {
    let v = vault();
    let mut a = MerchantAccount::new();
    credit_merchant_balance_for_token(&mut a, USDC, 100, BillingChargeKind::Interval).unwrap();
    assert_eq!(
        withdraw_merchant_funds_for_token(&mut a, &v, USDC, 50, 1000, Err(Error::Blocklisted)),
        Err(Error::Blocklisted)
    );
    assert_eq!(withdraw_merchant_funds(&mut a, &v, 50, 1000, Err(Error::Blocklisted)), Err(Error::Blocklisted));
    assert_eq!(get_merchant_balance_by_token(&a, USDC), 100);
    assert_eq!(withdraw_merchant_funds_for_token(&mut a, &v, USDC, 50, 1000, Ok(())), Ok(()));
    assert_eq!(get_merchant_balance_by_token(&a, USDC), 50);
}
