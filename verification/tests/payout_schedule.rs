use subscription_vault::error::Error;
use subscription_vault::merchant::{
    do_flush_payouts, do_set_payout_schedule, get_merchant_balance_by_token, get_payout_schedule,
    initialize_merchant_config, AccruedTotals, MerchantAccount, TokenEarnings, TokenPayout,
};
use subscription_vault::types::Addr;

fn configured_merchant(payout: Addr) -> MerchantAccount {
    let mut account = MerchantAccount::new();
    initialize_merchant_config(
        &mut account,
        payout,
        0,
        0x1F,
        None,
        "https://example.com".to_string(),
        0,
    )
    .unwrap();
    account
}

fn seed_merchant_balance_and_token(account: &mut MerchantAccount, token: Addr, balance: i128) {
    account.balances.insert(token.0, balance);
    if !account.tokens.contains(&token) {
        account.tokens.push(token);
    }
}

fn seed_merchant_earnings(account: &mut MerchantAccount, token: Addr, amount: i128) {
    account.earnings.insert(
        token.0,
        TokenEarnings {
            accruals: AccruedTotals { interval: amount, usage: 0, one_off: 0 },
            withdrawals: 0,
            refunds: 0,
        },
    );
}

#[test]
fn test_set_and_get_payout_schedule() {
    let mut account = configured_merchant(Addr(50));
    let cadence: u64 = 7 * 24 * 60 * 60;
    let min_payout: i128 = 100_000_000;
    let previous = do_set_payout_schedule(&mut account, cadence, min_payout).unwrap();
    assert_eq!(previous.cadence_seconds, 0);
    assert_eq!(previous.min_payout, 0);
    assert_eq!(previous.last_payout_at, 0);

    let stored = get_payout_schedule(&account);
    assert_eq!(stored.cadence_seconds, cadence);
    assert_eq!(stored.min_payout, min_payout);
    assert_eq!(stored.last_payout_at, 0);
}

#[test]
fn test_set_payout_schedule_returns_previous() {
    let mut account = configured_merchant(Addr(50));
    do_set_payout_schedule(&mut account, 86400, 1_000_000).unwrap();
    let previous = do_set_payout_schedule(&mut account, 172800, 2_000_000).unwrap();
    assert_eq!(previous.cadence_seconds, 86400);
    assert_eq!(previous.min_payout, 1_000_000i128);
}

#[test]
fn test_set_payout_schedule_clears_schedule() {
    let mut account = configured_merchant(Addr(50));
    do_set_payout_schedule(&mut account, 86400, 1_000_000).unwrap();
    do_set_payout_schedule(&mut account, 0, 0).unwrap();
    let stored = get_payout_schedule(&account);
    assert_eq!(stored.cadence_seconds, 0);
    assert_eq!(stored.min_payout, 0);
}

#[test]
fn test_set_payout_schedule_negative_min_payout_rejected() {
    let mut account = configured_merchant(Addr(50));
    let result = do_set_payout_schedule(&mut account, 86400, -1);
    assert!(result.is_err());
    assert_eq!(result.unwrap_err(), Error::InvalidAmount);
}

#[test]
fn test_flush_payouts_no_schedule_returns_zero() {
    let mut account = configured_merchant(Addr(50));
    let token = Addr(7);
    seed_merchant_balance_and_token(&mut account, token, 5_000_000);
    let report = do_flush_payouts(&mut account, 0).unwrap();
    assert_eq!(report.tokens_paid, 0);
    assert!(!report.ran);
    assert_eq!(get_merchant_balance_by_token(&account, token), 5_000_000);
}

#[test]
fn test_flush_payouts_processes_single_token() {
    let payout = Addr(50);
    let mut account = configured_merchant(payout);
    let token = Addr(7);
    do_set_payout_schedule(&mut account, 1, 0).unwrap();
    let balance: i128 = 5_000_000;
    seed_merchant_balance_and_token(&mut account, token, balance);
    seed_merchant_earnings(&mut account, token, balance);

    let report = do_flush_payouts(&mut account, 0).unwrap();
    assert_eq!(report.tokens_paid, 1);
    assert_eq!(get_merchant_balance_by_token(&account, token), 0);
    assert_eq!(report.payout_address, Some(payout));
    assert_eq!(report.payouts, vec![TokenPayout { token, amount: balance }]);
}

#[test]
fn test_flush_payouts_skips_below_min_payout() {
    let mut account = configured_merchant(Addr(50));
    let token = Addr(7);
    do_set_payout_schedule(&mut account, 0, 10_000_000).unwrap();
    let balance: i128 = 5_000_000;
    seed_merchant_balance_and_token(&mut account, token, balance);
    seed_merchant_earnings(&mut account, token, balance);

    let report = do_flush_payouts(&mut account, 0).unwrap();
    assert_eq!(report.tokens_paid, 0);
    assert_eq!(get_merchant_balance_by_token(&account, token), balance);
}

#[test]
fn test_flush_payouts_respects_cadence() {
    let mut account = configured_merchant(Addr(50));
    let token = Addr(7);
    let cadence: u64 = 3600;
    do_set_payout_schedule(&mut account, cadence, 0).unwrap();
    let balance: i128 = 5_000_000;
    seed_merchant_balance_and_token(&mut account, token, balance);
    seed_merchant_earnings(&mut account, token, balance);

    let report = do_flush_payouts(&mut account, 100_000).unwrap();
    assert_eq!(report.tokens_paid, 1);

    seed_merchant_balance_and_token(&mut account, token, balance);
    let result = do_flush_payouts(&mut account, cadence - 1);
    assert_eq!(result.map(|r| r.tokens_paid), Err(Error::IntervalNotElapsed));
}

#[test]
fn test_flush_payouts_multi_token() {
    let payout = Addr(50);
    let mut account = configured_merchant(payout);
    let token_a = Addr(7);
    let token_b = Addr(8);
    do_set_payout_schedule(&mut account, 1, 0).unwrap();
    let bal_a: i128 = 3_000_000;
    let bal_b: i128 = 7_000_000;
    seed_merchant_balance_and_token(&mut account, token_a, bal_a);
    seed_merchant_balance_and_token(&mut account, token_b, bal_b);
    seed_merchant_earnings(&mut account, token_a, bal_a);
    seed_merchant_earnings(&mut account, token_b, bal_b);

    let report = do_flush_payouts(&mut account, 0).unwrap();
    assert_eq!(report.tokens_paid, 2);
    assert_eq!(get_merchant_balance_by_token(&account, token_a), 0);
    assert_eq!(get_merchant_balance_by_token(&account, token_b), 0);
    assert_eq!(
        report.payouts,
        vec![
            TokenPayout { token: token_a, amount: bal_a },
            TokenPayout { token: token_b, amount: bal_b }
        ]
    );
    assert_eq!(report.payout_address, Some(payout));
}

#[test]
fn test_flush_payouts_emits_event() {
    let mut account = configured_merchant(Addr(50));
    let token = Addr(7);
    do_set_payout_schedule(&mut account, 1, 0).unwrap();
    let balance: i128 = 5_000_000;
    seed_merchant_balance_and_token(&mut account, token, balance);
    seed_merchant_earnings(&mut account, token, balance);

    let report = do_flush_payouts(&mut account, 500_000).unwrap();
    assert_eq!(report.tokens_paid, 1);
    assert!(get_payout_schedule(&account).last_payout_at > 0);
}

#[test]
fn test_flush_payouts_no_config_or_schedule_returns_zero() {
    let mut account = MerchantAccount::new();
    let result = do_flush_payouts(&mut account, 0).map(|r| r.tokens_paid);
    assert_eq!(result, Ok(0));
}

#[test]
fn test_flush_payouts_updates_last_payout_at() {
    let mut account = configured_merchant(Addr(50));
    let token = Addr(7);
    let cadence: u64 = 3600;
    do_set_payout_schedule(&mut account, cadence, 0).unwrap();
    let balance: i128 = 5_000_000;
    seed_merchant_balance_and_token(&mut account, token, balance);
    seed_merchant_earnings(&mut account, token, balance);

    let ts: u64 = 1_000_000;
    do_flush_payouts(&mut account, ts).unwrap();
    assert_eq!(get_payout_schedule(&account).last_payout_at, ts);
}

#[test]
fn test_get_payout_schedule_default() {
    let account = MerchantAccount::new();
    let schedule = get_payout_schedule(&account);
    assert_eq!(schedule.cadence_seconds, 0);
    assert_eq!(schedule.min_payout, 0);
    assert_eq!(schedule.last_payout_at, 0);
}

#[test]
fn flush_without_merchant_config_is_not_found_and_changes_nothing() {
    let mut account = MerchantAccount::new();
    let token = Addr(7);
    do_set_payout_schedule(&mut account, 1, 0).unwrap();
    seed_merchant_balance_and_token(&mut account, token, 900);
    let result = do_flush_payouts(&mut account, 10).map(|r| r.tokens_paid);
    assert_eq!(result, Err(Error::NotFound));
    assert_eq!(get_merchant_balance_by_token(&account, token), 900);
    assert_eq!(get_payout_schedule(&account).last_payout_at, 0);
}

#[test]
fn flush_records_payout_as_withdrawal() {
    let mut account = configured_merchant(Addr(50));
    let token = Addr(7);
    do_set_payout_schedule(&mut account, 1, 0).unwrap();
    seed_merchant_balance_and_token(&mut account, token, 400);
    seed_merchant_earnings(&mut account, token, 400);
    do_flush_payouts(&mut account, 10).unwrap();
    let e = account.earnings.get(&token.0).copied().unwrap();
    assert_eq!(e.withdrawals, 400);
    assert_eq!(e.accruals.interval - e.withdrawals - e.refunds, 0);
}
