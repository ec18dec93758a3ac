//! Merchant earnings: per-token balance buckets with a full accrual /
//! withdrawal / refund ledger, merchant configuration, pausing, and
//! scheduled payouts.
//!
//! Every bucket keeps the reconciliation invariant
//! `balance == interval + usage + one_off - withdrawals - refunds`, and an
//! operation on one token's bucket never touches another's.
use crate::admin::{get_token, is_token_accepted, stored_token, VaultState};
use crate::error::Error;
use crate::safe_math::{fits_i128, safe_add, safe_sub};
use crate::types::Addr;
use std::collections::HashMap;
use vstd::prelude::*;

verus! {

broadcast use vstd::std_specs::hash::group_hash_axioms;

/// Largest merchant fee, in basis points.
pub const MAX_FEE_BIPS: i32 = 10_000;

/// Operation bit that every merchant must allow: interval charging.
pub const OP_CHARGE: i32 = 1;

/// All operation bits a merchant configuration may set.
pub const OP_ALL: i32 = 0x1F;

/// Whether `ops` only sets known operation bits.
pub open spec fn valid_operations(ops: i32) -> bool {
    0 <= ops <= OP_ALL
}

/// Whether `ops` only sets known operation bits.
pub fn is_valid_allowed_operations(ops: i32) -> (r: bool)
    ensures
        r == valid_operations(ops),
{
    0 <= ops && ops <= OP_ALL
}

/// Per-kind running totals of what was credited to a bucket.
#[derive(Debug, Clone, Copy, PartialEq, Eq, Structural)]
pub struct AccruedTotals {
    pub interval: i128,
    pub usage: i128,
    pub one_off: i128,
}

/// The full ledger of one (merchant, token) bucket.
#[derive(Debug, Clone, Copy, PartialEq, Eq, Structural)]
pub struct TokenEarnings {
    pub accruals: AccruedTotals,
    pub withdrawals: i128,
    pub refunds: i128,
}

/// Which kind of charge a credit comes from.
#[derive(Debug, Clone, Copy, PartialEq, Eq, Structural)]
pub enum BillingChargeKind {
    Interval,
    Usage,
    OneOff,
}

/// A merchant's own settings.
#[derive(Debug)]
pub struct MerchantConfig {
    pub version: u32,
    pub payout_address: Addr,
    pub fee_bips: i32,
    pub allowed_operations: i32,
    pub is_active: bool,
    pub fee_address: Option<Addr>,
    pub redirect_url: String,
    pub is_paused: bool,
    pub last_updated: u64,
}

impl MerchantConfig {
    /// An identical copy.
    pub fn duplicate(&self) -> (c: Self)
        ensures
            c == *self,
    {
        MerchantConfig {
            version: self.version,
            payout_address: self.payout_address,
            fee_bips: self.fee_bips,
            allowed_operations: self.allowed_operations,
            is_active: self.is_active,
            fee_address: self.fee_address,
            redirect_url: self.redirect_url.clone(),
            is_paused: self.is_paused,
            last_updated: self.last_updated,
        }
    }
}

/// When and above what amount balances are paid out automatically.
#[derive(Debug, Clone, Copy, PartialEq, Eq, Structural)]
pub struct PayoutSchedule {
    pub cadence_seconds: u64,
    pub min_payout: i128,
    pub last_payout_at: u64,
}

/// The reconciliation figures of one token bucket.
#[derive(Debug, Clone, Copy, PartialEq, Eq, Structural)]
pub struct TokenReconciliationSnapshot {
    pub token: Addr,
    pub total_accruals: i128,
    pub total_withdrawals: i128,
    pub total_refunds: i128,
    pub computed_balance: i128,
    pub stored_balance: i128,
    pub matches: bool,
}

/// One payout made by a flush.
#[derive(Debug, Clone, Copy, PartialEq, Eq, Structural)]
pub struct TokenPayout {
    pub token: Addr,
    pub amount: i128,
}

/// What a flush paid out.
#[derive(Debug)]
pub struct FlushReport {
    /// Whether a schedule was in force, so that a payout round took place.
    pub ran: bool,
    /// How many token buckets were paid.
    pub tokens_paid: u32,
    /// The payout address that receives every payout.
    pub payout_address: Option<Addr>,
    /// The payouts, in the order of the merchant's token list.
    pub payouts: Vec<TokenPayout>,
}

/// Everything stored for one merchant.
#[derive(Debug)]
pub struct MerchantAccount {
    /// The merchant's configuration, once initialised.
    pub config: Option<MerchantConfig>,
    /// The stand-alone pause flag.
    pub paused: Option<bool>,
    /// Tokens the merchant has earned in, in order of first credit.
    pub tokens: Vec<Addr>,
    /// Spendable balance per token id.
    pub balances: HashMap<u64, i128>,
    /// Accrual / withdrawal / refund ledger per token id.
    pub earnings: HashMap<u64, TokenEarnings>,
    /// The payout schedule, once set.
    pub payout_schedule: Option<PayoutSchedule>,
}

impl MerchantAccount {
    /// A merchant with nothing stored.
    pub fn new() -> (a: Self)
        ensures
            a.config is None,
            a.paused is None,
            a.tokens@.len() == 0,
            a.balances@ == Map::<u64, i128>::empty(),
            a.earnings@ == Map::<u64, TokenEarnings>::empty(),
            a.payout_schedule is None,
    {
        MerchantAccount {
            config: None,
            paused: None,
            tokens: Vec::new(),
            balances: HashMap::new(),
            earnings: HashMap::new(),
            payout_schedule: None,
        }
    }
}

/// The empty ledger.
pub open spec fn zero_earnings() -> TokenEarnings {
    TokenEarnings {
        accruals: AccruedTotals { interval: 0, usage: 0, one_off: 0 },
        withdrawals: 0,
        refunds: 0,
    }
}

/// The balance stored for a token id (0 when none).
pub open spec fn balance_at(m: Map<u64, i128>, k: u64) -> i128 {
    if m.contains_key(k) {
        m[k]
    } else {
        0
    }
}

/// The ledger stored for a token id (empty when none).
pub open spec fn earnings_at(m: Map<u64, TokenEarnings>, k: u64) -> TokenEarnings {
    if m.contains_key(k) {
        m[k]
    } else {
        zero_earnings()
    }
}

/// Everything credited to a bucket.
pub open spec fn accrued_total(e: TokenEarnings) -> int {
    e.accruals.interval + e.accruals.usage + e.accruals.one_off
}

/// The reconciliation invariant of one bucket.
pub open spec fn bucket_reconciled(balance: i128, e: TokenEarnings) -> bool {
    balance == accrued_total(e) - e.withdrawals - e.refunds
}

/// Every bucket of the merchant satisfies the reconciliation invariant.
pub open spec fn account_reconciled(a: MerchantAccount) -> bool {
    forall|k: u64| #[trigger] bucket_reconciled(balance_at(a.balances@, k), earnings_at(a.earnings@, k))
}

/// The ledger after crediting `amount` of `kind`.
pub open spec fn credited(e: TokenEarnings, kind: BillingChargeKind, amount: i128) -> TokenEarnings {
    match kind {
        BillingChargeKind::Interval => TokenEarnings {
            accruals: AccruedTotals { interval: (e.accruals.interval + amount) as i128, ..e.accruals },
            ..e
        },
        BillingChargeKind::Usage => TokenEarnings {
            accruals: AccruedTotals { usage: (e.accruals.usage + amount) as i128, ..e.accruals },
            ..e
        },
        BillingChargeKind::OneOff => TokenEarnings {
            accruals: AccruedTotals { one_off: (e.accruals.one_off + amount) as i128, ..e.accruals },
            ..e
        },
    }
}

/// The running total of `kind` in a ledger.
pub open spec fn accrual_of(e: TokenEarnings, kind: BillingChargeKind) -> i128 {
    match kind {
        BillingChargeKind::Interval => e.accruals.interval,
        BillingChargeKind::Usage => e.accruals.usage,
        BillingChargeKind::OneOff => e.accruals.one_off,
    }
}

/// Whether the merchant counts as paused: by its configuration or by the
/// stand-alone flag.
pub open spec fn merchant_paused(a: MerchantAccount) -> bool {
    (a.config is Some && a.config.unwrap().is_paused) || a.paused == Some(true)
}

/// Whether the merchant counts as paused.
pub fn get_merchant_paused(account: &MerchantAccount) -> (r: bool)
    ensures
        r == merchant_paused(*account),
{
    if let Some(config) = &account.config {
        if config.is_paused {
            return true;
        }
    }
    match account.paused {
        Some(p) => p,
        None => false,
    }
}

/// Sets the stand-alone pause flag.
pub fn set_merchant_paused(account: &mut MerchantAccount, paused: bool)
    ensures
        final(account).paused == Some(paused),
        final(account).config == old(account).config,
        final(account).tokens@ == old(account).tokens@,
        final(account).balances@ == old(account).balances@,
        final(account).earnings@ == old(account).earnings@,
        final(account).payout_schedule == old(account).payout_schedule,
{
    account.paused = Some(paused);
}

/// Pauses the merchant. Returns whether anything changed (a merchant that
/// is already paused stays as it is).
pub fn pause_merchant(account: &mut MerchantAccount) -> (changed: bool)
    ensures
        changed == !merchant_paused(*old(account)),
        merchant_paused(*final(account)),
        changed ==> final(account).paused == Some(true),
        !changed ==> final(account).paused == old(account).paused,
        final(account).config == old(account).config,
        final(account).tokens@ == old(account).tokens@,
        final(account).balances@ == old(account).balances@,
        final(account).earnings@ == old(account).earnings@,
        final(account).payout_schedule == old(account).payout_schedule,
{
    if get_merchant_paused(account) {
        return false;
    }
    set_merchant_paused(account, true);
    true
}

/// Unpauses the merchant's stand-alone flag. Returns whether anything
/// changed. A pause set in the merchant's configuration stays in force.
pub fn unpause_merchant(account: &mut MerchantAccount) -> (changed: bool)
    ensures
        changed == merchant_paused(*old(account)),
        changed ==> final(account).paused == Some(false),
        !changed ==> final(account).paused == old(account).paused,
        merchant_paused(*final(account)) == (old(account).config is Some && old(account).config.unwrap().is_paused),
        final(account).config == old(account).config,
        final(account).tokens@ == old(account).tokens@,
        final(account).balances@ == old(account).balances@,
        final(account).earnings@ == old(account).earnings@,
        final(account).payout_schedule == old(account).payout_schedule,
{
    if !get_merchant_paused(account) {
        return false;
    }
    set_merchant_paused(account, false);
    true
}

/// The outcome of validating merchant settings.
pub open spec fn config_input_check(fee_bips: i32, allowed_operations: i32) -> Result<(), Error> {
    if fee_bips > MAX_FEE_BIPS {
        Err(Error::InvalidFeeBips)
    } else if !valid_operations(allowed_operations) {
        Err(Error::InvalidOperations)
    } else if allowed_operations & OP_CHARGE == 0 {
        Err(Error::MustAllowChargeOperation)
    } else {
        Ok(())
    }
}

/// Validates merchant settings: the fee cap, known operation bits, and that
/// charging is allowed.
fn validate_merchant_config_input(fee_bips: i32, allowed_operations: i32) -> (r: Result<(), Error>)
    ensures
        r == config_input_check(fee_bips, allowed_operations),
{
    if fee_bips > MAX_FEE_BIPS {
        return Err(Error::InvalidFeeBips);
    }
    if !is_valid_allowed_operations(allowed_operations) {
        return Err(Error::InvalidOperations);
    }
    if allowed_operations & OP_CHARGE == 0 {
        return Err(Error::MustAllowChargeOperation);
    }
    Ok(())
}

/// Creates the merchant's configuration (version 1, active, not paused,
/// stamped with `now`) and returns it.
pub fn initialize_merchant_config(
    account: &mut MerchantAccount,
    payout_address: Addr,
    fee_bips: i32,
    allowed_operations: i32,
    fee_address: Option<Addr>,
    redirect_url: String,
    now: u64,
) -> (r: Result<MerchantConfig, Error>)
    ensures
        config_input_check(fee_bips, allowed_operations) is Err ==> r == Err::<MerchantConfig, Error>(
            config_input_check(fee_bips, allowed_operations)->Err_0,
        ) && final(account).config == old(account).config,
        config_input_check(fee_bips, allowed_operations) is Ok ==> {
            let c = MerchantConfig {
                version: 1,
                payout_address,
                fee_bips,
                allowed_operations,
                is_active: true,
                fee_address,
                redirect_url,
                is_paused: false,
                last_updated: now,
            };
            &&& r == Ok::<MerchantConfig, Error>(c)
            &&& final(account).config == Some(c)
        },
        final(account).paused == old(account).paused,
        final(account).tokens@ == old(account).tokens@,
        final(account).balances@ == old(account).balances@,
        final(account).earnings@ == old(account).earnings@,
        final(account).payout_schedule == old(account).payout_schedule,
{
    validate_merchant_config_input(fee_bips, allowed_operations)?;
    let config = MerchantConfig {
        version: 1,
        payout_address,
        fee_bips,
        allowed_operations,
        is_active: true,
        fee_address,
        redirect_url,
        is_paused: false,
        last_updated: now,
    };
    account.config = Some(config.duplicate());
    Ok(config)
}

/// Replaces the merchant's configuration, stamping it with `now`.
pub fn set_merchant_config(account: &mut MerchantAccount, config: MerchantConfig, now: u64) -> (r: Result<(), Error>)
    ensures
        r == config_input_check(config.fee_bips, config.allowed_operations),
        r is Err ==> final(account).config == old(account).config,
        r is Ok ==> final(account).config == Some(MerchantConfig { last_updated: now, ..config }),
        final(account).paused == old(account).paused,
        final(account).tokens@ == old(account).tokens@,
        final(account).balances@ == old(account).balances@,
        final(account).earnings@ == old(account).earnings@,
        final(account).payout_schedule == old(account).payout_schedule,
{
    validate_merchant_config_input(config.fee_bips, config.allowed_operations)?;
    let mut updated_config = config;
    updated_config.last_updated = now;
    account.config = Some(updated_config);
    Ok(())
}

/// The merchant's configuration, if initialised.
pub fn get_merchant_config(account: &MerchantAccount) -> (r: Option<MerchantConfig>)
    ensures
        r == account.config,
{
    match &account.config {
        Some(c) => Some(c.duplicate()),
        None => None,
    }
}

/// The ledger of the bucket for `token` (empty when none).
pub fn get_merchant_token_earnings(account: &MerchantAccount, token: Addr) -> (e: TokenEarnings)
    ensures
        e == earnings_at(account.earnings@, token.0),
{
    match account.earnings.get(&token.0) {
        Some(e) => *e,
        None => TokenEarnings {
            accruals: AccruedTotals { interval: 0, usage: 0, one_off: 0 },
            withdrawals: 0,
            refunds: 0,
        },
    }
}

/// The spendable balance of the bucket for `token` (0 when none).
pub fn get_merchant_balance_by_token(account: &MerchantAccount, token: Addr) -> (b: i128)
    ensures
        b == balance_at(account.balances@, token.0),
{
    match account.balances.get(&token.0) {
        Some(b) => *b,
        None => 0,
    }
}

/// The spendable balance in the vault's default token (0 when the vault
/// has no default token).
pub fn get_merchant_balance(account: &MerchantAccount, vault: &VaultState) -> (b: i128)
    ensures
        b == match stored_token(vault.config) {
            Some(t) => balance_at(account.balances@, t.0),
            None => 0,
        },
{
    match get_token(vault) {
        Ok(t) => get_merchant_balance_by_token(account, t),
        Err(_) => 0,
    }
}

/// Adds `token` to the merchant's token list unless it is already there.
fn add_merchant_token(tokens: &mut Vec<Addr>, token: Addr)
    ensures
        final(tokens)@ == if old(tokens)@.contains(token) {
            old(tokens)@
        } else {
            old(tokens)@.push(token)
        },
        old(tokens)@.no_duplicates() ==> final(tokens)@.no_duplicates(),
{
    let mut i: usize = 0;
    while i < tokens.len()
        invariant
            0 <= i <= tokens@.len(),
            forall|j: int| 0 <= j < i ==> tokens@[j] != token,
        decreases tokens@.len() - i,
    {
        if tokens[i] == token {
            return;
        }
        i = i + 1;
    }
    let ghost before = tokens@;
    tokens.push(token);
    proof {
        if before.no_duplicates() {
            let l = tokens@;
            assert forall|a: int, b: int| 0 <= a < l.len() && 0 <= b < l.len() && a != b implies l[a] != l[b] by {
                if a == before.len() {
                    assert(l[b] == before[b]);
                } else if b == before.len() {
                    assert(l[a] == before[a]);
                }
            }
        }
    }
}

/// The outcome of crediting `amount` of `kind` to a bucket.
pub open spec fn credit_check(balance: i128, e: TokenEarnings, amount: i128, kind: BillingChargeKind) -> Result<(), Error> {
    if amount < 0 {
        Err(Error::InvalidAmount)
    } else if !fits_i128(balance + amount) {
        Err(Error::Overflow)
    } else if !fits_i128(accrual_of(e, kind) + amount) {
        Err(Error::Overflow)
    } else {
        Ok(())
    }
}

/// Credits a non-negative `amount` of `kind` to the merchant's bucket for
/// `token`: the balance and the matching accrual total both grow by
/// `amount`, and the token joins the merchant's token list. Nothing changes
/// on error.
pub fn credit_merchant_balance_for_token(
    account: &mut MerchantAccount,
    token: Addr,
    amount: i128,
    kind: BillingChargeKind,
) -> (r: Result<(), Error>)
    ensures
        r == credit_check(
            balance_at(old(account).balances@, token.0),
            earnings_at(old(account).earnings@, token.0),
            amount,
            kind,
        ),
        r is Err ==> final(account).tokens@ == old(account).tokens@
            && final(account).balances@ == old(account).balances@
            && final(account).earnings@ == old(account).earnings@,
        r is Ok ==> {
            &&& final(account).balances@ == old(account).balances@.insert(
                token.0,
                (balance_at(old(account).balances@, token.0) + amount) as i128,
            )
            &&& final(account).earnings@ == old(account).earnings@.insert(
                token.0,
                credited(earnings_at(old(account).earnings@, token.0), kind, amount),
            )
            &&& final(account).tokens@ == if old(account).tokens@.contains(token) {
                old(account).tokens@
            } else {
                old(account).tokens@.push(token)
            }
        },
        account_reconciled(*old(account)) ==> account_reconciled(*final(account)),
        old(account).tokens@.no_duplicates() ==> final(account).tokens@.no_duplicates(),
        final(account).config == old(account).config,
        final(account).paused == old(account).paused,
        final(account).payout_schedule == old(account).payout_schedule,
{
    if amount < 0 {
        return Err(Error::InvalidAmount);
    }
    let current = get_merchant_balance_by_token(account, token);
    let new_balance = safe_add(current, amount)?;
    let mut earnings = get_merchant_token_earnings(account, token);
    match kind {
        BillingChargeKind::Interval => {
            earnings.accruals.interval = match earnings.accruals.interval.checked_add(amount) {
                Some(v) => v,
                None => return Err(Error::Overflow),
            };
        },
        BillingChargeKind::Usage => {
            earnings.accruals.usage = match earnings.accruals.usage.checked_add(amount) {
                Some(v) => v,
                None => return Err(Error::Overflow),
            };
        },
        BillingChargeKind::OneOff => {
            earnings.accruals.one_off = match earnings.accruals.one_off.checked_add(amount) {
                Some(v) => v,
                None => return Err(Error::Overflow),
            };
        },
    }
    let ghost old_acct = *account;
    account.balances.insert(token.0, new_balance);
    account.earnings.insert(token.0, earnings);
    add_merchant_token(&mut account.tokens, token);
    proof {
        if account_reconciled(old_acct) {
            assert forall|k: u64| #[trigger] bucket_reconciled(balance_at(account.balances@, k), earnings_at(account.earnings@, k))
                by {
                assert(bucket_reconciled(balance_at(old_acct.balances@, k), earnings_at(old_acct.earnings@, k)));
            }
        }
    }
    Ok(())
}

/// Credits `amount` of `kind` to the bucket of the vault's default token.
pub fn credit_merchant_balance(
    account: &mut MerchantAccount,
    vault: &VaultState,
    amount: i128,
    kind: BillingChargeKind,
) -> (r: Result<(), Error>)
    ensures
        stored_token(vault.config) is None ==> r == Err::<(), Error>(Error::NotFound)
            && final(account).balances@ == old(account).balances@
            && final(account).earnings@ == old(account).earnings@
            && final(account).tokens@ == old(account).tokens@,
        stored_token(vault.config) is Some ==> {
            let token = stored_token(vault.config).unwrap();
            &&& r == credit_check(
                balance_at(old(account).balances@, token.0),
                earnings_at(old(account).earnings@, token.0),
                amount,
                kind,
            )
            &&& r is Ok ==> final(account).balances@ == old(account).balances@.insert(
                token.0,
                (balance_at(old(account).balances@, token.0) + amount) as i128,
            ) && final(account).earnings@ == old(account).earnings@.insert(
                token.0,
                credited(earnings_at(old(account).earnings@, token.0), kind, amount),
            )
        },
        account_reconciled(*old(account)) ==> account_reconciled(*final(account)),
        old(account).tokens@.no_duplicates() ==> final(account).tokens@.no_duplicates(),
        final(account).config == old(account).config,
        final(account).paused == old(account).paused,
        final(account).payout_schedule == old(account).payout_schedule,
{
    let token = get_token(vault)?;
    credit_merchant_balance_for_token(account, token, amount, kind)
}

/// The outcome of a merchant withdrawing `amount` of a token.
pub open spec fn withdraw_check(
    accepted: bool,
    balance: i128,
    e: TokenEarnings,
    amount: i128,
    vault_balance: i128,
) -> Result<(), Error> {
    if amount <= 0 {
        Err(Error::InvalidAmount)
    } else if !accepted {
        Err(Error::InvalidInput)
    } else if balance == 0 {
        Err(Error::NotFound)
    } else if amount > balance {
        Err(Error::InsufficientBalance)
    } else if vault_balance < amount {
        Err(Error::InsufficientBalance)
    } else if !fits_i128(e.withdrawals + amount) {
        Err(Error::Overflow)
    } else {
        Ok(())
    }
}

/// Withdraws `amount` of `token` from the merchant's bucket.
/// `blocklist_check` is the outcome of checking the merchant against the
/// blocklist; a blocklisted merchant is refused before anything else.
/// `vault_balance` is what the vault holds of the token; the caller then
/// transfers `amount` to the merchant. The balance falls by `amount` and
/// the recorded withdrawals grow by it; nothing changes on error.
pub fn withdraw_merchant_funds_for_token(
    account: &mut MerchantAccount,
    vault: &VaultState,
    token: Addr,
    amount: i128,
    vault_balance: i128,
    blocklist_check: Result<(), Error>,
) -> (r: Result<(), Error>)
    ensures
        blocklist_check is Err ==> r == blocklist_check,
        blocklist_check is Ok ==> r == withdraw_check(
            vault.token_decimals@.contains_key(token.0),
            balance_at(old(account).balances@, token.0),
            earnings_at(old(account).earnings@, token.0),
            amount,
            vault_balance,
        ),
        r is Err ==> final(account).balances@ == old(account).balances@
            && final(account).earnings@ == old(account).earnings@,
        r is Ok ==> {
            let e = earnings_at(old(account).earnings@, token.0);
            &&& final(account).balances@ == old(account).balances@.insert(
                token.0,
                (balance_at(old(account).balances@, token.0) - amount) as i128,
            )
            &&& final(account).earnings@ == old(account).earnings@.insert(
                token.0,
                TokenEarnings { withdrawals: (e.withdrawals + amount) as i128, ..e },
            )
        },
        account_reconciled(*old(account)) ==> account_reconciled(*final(account)),
        final(account).tokens@ == old(account).tokens@,
        final(account).config == old(account).config,
        final(account).paused == old(account).paused,
        final(account).payout_schedule == old(account).payout_schedule,
{
    blocklist_check?;
    if amount <= 0 {
        return Err(Error::InvalidAmount);
    }
    if !is_token_accepted(vault, token) {
        return Err(Error::InvalidInput);
    }
    let current = get_merchant_balance_by_token(account, token);
    if current == 0 {
        return Err(Error::NotFound);
    }
    if amount > current {
        return Err(Error::InsufficientBalance);
    }
    if vault_balance < amount {
        return Err(Error::InsufficientBalance);
    }
    let new_balance = safe_sub(current, amount)?;
    let mut earnings = get_merchant_token_earnings(account, token);
    earnings.withdrawals = match earnings.withdrawals.checked_add(amount) {
        Some(v) => v,
        None => return Err(Error::Overflow),
    };
    let ghost old_acct = *account;
    account.balances.insert(token.0, new_balance);
    account.earnings.insert(token.0, earnings);
    proof {
        if account_reconciled(old_acct) {
            assert forall|k: u64| #[trigger] bucket_reconciled(balance_at(account.balances@, k), earnings_at(account.earnings@, k))
                by {
                assert(bucket_reconciled(balance_at(old_acct.balances@, k), earnings_at(old_acct.earnings@, k)));
            }
        }
    }
    Ok(())
}

/// Withdraws `amount` of the vault's default token; `blocklist_check` is
/// the outcome of checking the merchant against the blocklist.
pub fn withdraw_merchant_funds(
    account: &mut MerchantAccount,
    vault: &VaultState,
    amount: i128,
    vault_balance: i128,
    blocklist_check: Result<(), Error>,
) -> (r: Result<(), Error>)
    ensures
        stored_token(vault.config) is None ==> r == Err::<(), Error>(Error::NotFound),
        stored_token(vault.config) is Some && blocklist_check is Err ==> r == blocklist_check,
        stored_token(vault.config) is Some && blocklist_check is Ok ==> r == withdraw_check(
            vault.token_decimals@.contains_key(stored_token(vault.config).unwrap().0),
            balance_at(old(account).balances@, stored_token(vault.config).unwrap().0),
            earnings_at(old(account).earnings@, stored_token(vault.config).unwrap().0),
            amount,
            vault_balance,
        ),
        r is Err ==> final(account).balances@ == old(account).balances@
            && final(account).earnings@ == old(account).earnings@,
        r is Ok ==> {
            let t = stored_token(vault.config).unwrap().0;
            let e = earnings_at(old(account).earnings@, t);
            &&& final(account).balances@ == old(account).balances@.insert(t, (balance_at(old(account).balances@, t) - amount) as i128)
            &&& final(account).earnings@ == old(account).earnings@.insert(
                t,
                TokenEarnings { withdrawals: (e.withdrawals + amount) as i128, ..e },
            )
        },
        account_reconciled(*old(account)) ==> account_reconciled(*final(account)),
        final(account).tokens@ == old(account).tokens@,
        final(account).config == old(account).config,
        final(account).paused == old(account).paused,
        final(account).payout_schedule == old(account).payout_schedule,
{
    let token = get_token(vault)?;
    withdraw_merchant_funds_for_token(account, vault, token, amount, vault_balance, blocklist_check)
}

/// The outcome of a merchant refunding `amount` of a token.
pub open spec fn refund_check(balance: i128, e: TokenEarnings, amount: i128) -> Result<(), Error> {
    if amount <= 0 {
        Err(Error::InvalidAmount)
    } else if balance == 0 {
        Err(Error::NotFound)
    } else if amount > balance {
        Err(Error::InsufficientBalance)
    } else if !fits_i128(balance - amount) {
        Err(Error::Underflow)
    } else if !fits_i128(e.refunds + amount) {
        Err(Error::Overflow)
    } else {
        Ok(())
    }
}

/// A refund of any positive amount up to the whole balance succeeds (when
/// the recorded refunds can grow by it) and leaves the balance minus the
/// amount; an amount above the balance is `InsufficientBalance`.
pub proof fn lemma_refund_within_balance(balance: i128, e: TokenEarnings, amount: i128)
    ensures
        0 < amount <= balance && fits_i128(e.refunds + amount) ==> refund_check(balance, e, amount) == Ok::<(), Error>(())
            && fits_i128(balance - amount) && 0 <= balance - amount < balance,
        0 < amount && 0 < balance < amount ==> refund_check(balance, e, amount) == Err::<(), Error>(Error::InsufficientBalance),
        amount <= 0 ==> refund_check(balance, e, amount) == Err::<(), Error>(Error::InvalidAmount),
{
}

/// Refunds `amount` of `token` from the merchant's bucket to a subscriber
/// (the caller transfers it). The balance falls by `amount` and the
/// recorded refunds grow by it; nothing changes on error.
pub fn merchant_refund(account: &mut MerchantAccount, token: Addr, amount: i128) -> (r: Result<(), Error>)
    ensures
        r == refund_check(
            balance_at(old(account).balances@, token.0),
            earnings_at(old(account).earnings@, token.0),
            amount,
        ),
        r is Err ==> final(account).balances@ == old(account).balances@
            && final(account).earnings@ == old(account).earnings@,
        r is Ok ==> {
            let e = earnings_at(old(account).earnings@, token.0);
            &&& final(account).balances@ == old(account).balances@.insert(
                token.0,
                (balance_at(old(account).balances@, token.0) - amount) as i128,
            )
            &&& final(account).earnings@ == old(account).earnings@.insert(
                token.0,
                TokenEarnings { refunds: (e.refunds + amount) as i128, ..e },
            )
        },
        account_reconciled(*old(account)) ==> account_reconciled(*final(account)),
        final(account).tokens@ == old(account).tokens@,
        final(account).config == old(account).config,
        final(account).paused == old(account).paused,
        final(account).payout_schedule == old(account).payout_schedule,
{
    if amount <= 0 {
        return Err(Error::InvalidAmount);
    }
    let current = get_merchant_balance_by_token(account, token);
    if current == 0 {
        return Err(Error::NotFound);
    }
    if amount > current {
        return Err(Error::InsufficientBalance);
    }
    let new_balance = match current.checked_sub(amount) {
        Some(v) => v,
        None => return Err(Error::Underflow),
    };
    let mut earnings = get_merchant_token_earnings(account, token);
    earnings.refunds = match earnings.refunds.checked_add(amount) {
        Some(v) => v,
        None => return Err(Error::Overflow),
    };
    let ghost old_acct = *account;
    account.balances.insert(token.0, new_balance);
    account.earnings.insert(token.0, earnings);
    proof {
        if account_reconciled(old_acct) {
            assert forall|k: u64| #[trigger] bucket_reconciled(balance_at(account.balances@, k), earnings_at(account.earnings@, k))
                by {
                assert(bucket_reconciled(balance_at(old_acct.balances@, k), earnings_at(old_acct.earnings@, k)));
            }
        }
    }
    Ok(())
}

/// Each token the merchant has earned in, with its ledger, in token-list
/// order.
pub fn get_merchant_total_earnings(account: &MerchantAccount) -> (out: Vec<(Addr, TokenEarnings)>)
    ensures
        out@.len() == account.tokens@.len(),
        forall|i: int| 0 <= i < out@.len() ==> #[trigger] out@[i] == (account.tokens@[i], earnings_at(account.earnings@, account.tokens@[i].0)),
{
    let mut out: Vec<(Addr, TokenEarnings)> = Vec::new();
    let mut i: usize = 0;
    while i < account.tokens.len()
        invariant
            0 <= i <= account.tokens@.len(),
            out@.len() == i,
            forall|j: int| 0 <= j < i ==> #[trigger] out@[j] == (account.tokens@[j], earnings_at(account.earnings@, account.tokens@[j].0)),
        decreases account.tokens@.len() - i,
    {
        let token = account.tokens[i];
        let earnings = get_merchant_token_earnings(account, token);
        out.push((token, earnings));
        i = i + 1;
    }
    out
}

/// `x`, or 0 when it does not fit in an `i128` (sums that overflow are
/// reported as 0).
pub open spec fn or_zero(x: int) -> i128 {
    if fits_i128(x) {
        x as i128
    } else {
        0
    }
}

/// The reconciliation figures of one bucket: total accruals and the
/// balance they imply after withdrawals and refunds.
pub open spec fn snapshot_of(token: Addr, e: TokenEarnings) -> TokenReconciliationSnapshot {
    let total = or_zero(or_zero(e.accruals.interval + e.accruals.usage) + e.accruals.one_off);
    let computed = or_zero(or_zero(total - e.withdrawals) - e.refunds);
    TokenReconciliationSnapshot {
        token,
        total_accruals: total,
        total_withdrawals: e.withdrawals,
        total_refunds: e.refunds,
        computed_balance: computed,
        stored_balance: 0,
        matches: computed == 0,
    }
}

/// `a + b`, or 0 when the sum does not fit.
fn add_or_zero(a: i128, b: i128) -> (r: i128)
    ensures
        r == or_zero(a + b),
{
    match a.checked_add(b) {
        Some(v) => v,
        None => 0,
    }
}

/// `a - b`, or 0 when the difference does not fit.
fn sub_or_zero(a: i128, b: i128) -> (r: i128)
    ensures
        r == or_zero(a - b),
{
    match a.checked_sub(b) {
        Some(v) => v,
        None => 0,
    }
}

/// The reconciliation figures of every bucket, in token-list order.
pub fn get_reconciliation_snapshot(account: &MerchantAccount) -> (out: Vec<TokenReconciliationSnapshot>)
    ensures
        out@.len() == account.tokens@.len(),
        forall|i: int| 0 <= i < out@.len() ==> #[trigger] out@[i] == snapshot_of(account.tokens@[i], earnings_at(account.earnings@, account.tokens@[i].0)),
{
    let mut out: Vec<TokenReconciliationSnapshot> = Vec::new();
    let mut i: usize = 0;
    while i < account.tokens.len()
        invariant
            0 <= i <= account.tokens@.len(),
            out@.len() == i,
            forall|j: int| 0 <= j < i ==> #[trigger] out@[j] == snapshot_of(account.tokens@[j], earnings_at(account.earnings@, account.tokens@[j].0)),
        decreases account.tokens@.len() - i,
    {
        let token = account.tokens[i];
        let earnings = get_merchant_token_earnings(account, token);
        let total_accruals = add_or_zero(add_or_zero(earnings.accruals.interval, earnings.accruals.usage), earnings.accruals.one_off);
        let computed_balance = sub_or_zero(sub_or_zero(total_accruals, earnings.withdrawals), earnings.refunds);
        out.push(TokenReconciliationSnapshot {
            token,
            total_accruals,
            total_withdrawals: earnings.withdrawals,
            total_refunds: earnings.refunds,
            computed_balance,
            stored_balance: 0,
            matches: computed_balance == 0,
        });
        i = i + 1;
    }
    out
}

/// The reconciliation snapshot agrees with the stored balance: for a bucket
/// that satisfies the reconciliation invariant, and whose partial sums all
/// fit in an `i128`, `computed_balance` is exactly the spendable balance.
pub proof fn lemma_snapshot_matches_balance(token: Addr, balance: i128, e: TokenEarnings)
    requires
        bucket_reconciled(balance, e),
        fits_i128(e.accruals.interval + e.accruals.usage),
        fits_i128(accrued_total(e)),
        fits_i128(accrued_total(e) - e.withdrawals),
    ensures
        snapshot_of(token, e).computed_balance == balance,
        snapshot_of(token, e).total_accruals == accrued_total(e),
{
}

/// The stored payout schedule, or the all-zero schedule.
pub open spec fn schedule_or_default(s: Option<PayoutSchedule>) -> PayoutSchedule {
    match s {
        Some(p) => p,
        None => PayoutSchedule { cadence_seconds: 0, min_payout: 0, last_payout_at: 0 },
    }
}

/// The merchant's payout schedule (all zeros when none was set).
pub fn get_payout_schedule(account: &MerchantAccount) -> (s: PayoutSchedule)
    ensures
        s == schedule_or_default(account.payout_schedule),
{
    match account.payout_schedule {
        Some(p) => p,
        None => PayoutSchedule { cadence_seconds: 0, min_payout: 0, last_payout_at: 0 },
    }
}

/// Sets (or, with both values 0, clears) the payout schedule, keeping the
/// time of the last payout; returns the previous schedule.
pub fn do_set_payout_schedule(account: &mut MerchantAccount, cadence_seconds: u64, min_payout: i128) -> (r: Result<PayoutSchedule, Error>)
    ensures
        min_payout < 0 ==> r == Err::<PayoutSchedule, Error>(Error::InvalidAmount)
            && final(account).payout_schedule == old(account).payout_schedule,
        min_payout >= 0 ==> {
            &&& r == Ok::<PayoutSchedule, Error>(schedule_or_default(old(account).payout_schedule))
            &&& final(account).payout_schedule == Some(PayoutSchedule {
                cadence_seconds,
                min_payout,
                last_payout_at: schedule_or_default(old(account).payout_schedule).last_payout_at,
            })
        },
        final(account).config == old(account).config,
        final(account).paused == old(account).paused,
        final(account).tokens@ == old(account).tokens@,
        final(account).balances@ == old(account).balances@,
        final(account).earnings@ == old(account).earnings@,
{
    if min_payout < 0 {
        return Err(Error::InvalidAmount);
    }
    let previous = get_payout_schedule(account);
    let schedule = PayoutSchedule {
        cadence_seconds,
        min_payout,
        last_payout_at: if previous.last_payout_at == 0 {
            0
        } else {
            previous.last_payout_at
        },
    };
    account.payout_schedule = Some(schedule);
    Ok(previous)
}

/// Every bucket of a pair of balance and ledger maps satisfies the
/// reconciliation invariant.
pub open spec fn maps_reconciled(bal: Map<u64, i128>, earn: Map<u64, TokenEarnings>) -> bool {
    forall|k: u64| #[trigger] bucket_reconciled(balance_at(bal, k), earnings_at(earn, k))
}

/// One step of a flush: a bucket whose balance is positive and reaches the
/// minimum payout is emptied, its withdrawals grow by the balance and a
/// payout is recorded; paying needs a configured payout address.
pub open spec fn flush_step(
    bal: Map<u64, i128>,
    earn: Map<u64, TokenEarnings>,
    paid: Seq<TokenPayout>,
    token: Addr,
    min_payout: i128,
    configured: bool,
) -> Result<(Map<u64, i128>, Map<u64, TokenEarnings>, Seq<TokenPayout>), Error> {
    let b = balance_at(bal, token.0);
    let e = earnings_at(earn, token.0);
    if b < min_payout || b <= 0 {
        Ok((bal, earn, paid))
    } else if !configured {
        Err(Error::NotFound)
    } else if !fits_i128(e.withdrawals + b) {
        Err(Error::Overflow)
    } else {
        Ok((
            bal.insert(token.0, 0),
            earn.insert(token.0, TokenEarnings { withdrawals: (e.withdrawals + b) as i128, ..e }),
            paid.push(TokenPayout { token, amount: b }),
        ))
    }
}

/// A flush over `tokens` in order, stopping at the first error.
pub open spec fn flush_all(
    tokens: Seq<Addr>,
    bal: Map<u64, i128>,
    earn: Map<u64, TokenEarnings>,
    min_payout: i128,
    configured: bool,
) -> Result<(Map<u64, i128>, Map<u64, TokenEarnings>, Seq<TokenPayout>), Error>
    decreases tokens.len(),
{
    if tokens.len() == 0 {
        Ok((bal, earn, Seq::empty()))
    } else {
        match flush_all(tokens.drop_last(), bal, earn, min_payout, configured) {
            Err(e) => Err(e),
            Ok(st) => flush_step(st.0, st.1, st.2, tokens.last(), min_payout, configured),
        }
    }
}

/// Once a prefix of the token list fails, the whole flush fails with the
/// same error.
proof fn lemma_flush_error_propagates(
    tokens: Seq<Addr>,
    j: int,
    min_payout: i128,
    configured: bool,
    bal: Map<u64, i128>,
    earn: Map<u64, TokenEarnings>,
)
    requires
        0 <= j <= tokens.len(),
        flush_all(tokens.subrange(0, j), bal, earn, min_payout, configured) is Err,
    ensures
        flush_all(tokens, bal, earn, min_payout, configured) == flush_all(tokens.subrange(0, j), bal, earn, min_payout, configured),
    decreases tokens.len(),
{
    if j == tokens.len() {
        assert(tokens.subrange(0, j) == tokens);
    } else {
        assert(tokens.drop_last().subrange(0, j) == tokens.subrange(0, j));
        lemma_flush_error_propagates(tokens.drop_last(), j, min_payout, configured, bal, earn);
    }
}

/// A flush pays each bucket in full or not at all: over a token list
/// without repeats, every payout is the whole starting balance of its token
/// (positive and at least the minimum), that bucket is left empty, every
/// other bucket keeps its balance, and tokens outside the list are untouched.
pub proof fn lemma_flush_pays_whole_balances(
    tokens: Seq<Addr>,
    bal: Map<u64, i128>,
    earn: Map<u64, TokenEarnings>,
    min_payout: i128,
    configured: bool,
)
    requires
        tokens.no_duplicates(),
        flush_all(tokens, bal, earn, min_payout, configured) is Ok,
    ensures
        ({
            let st = flush_all(tokens, bal, earn, min_payout, configured)->Ok_0;
            &&& forall|i: int| 0 <= i < st.2.len() ==> {
                &&& #[trigger] st.2[i].amount == balance_at(bal, st.2[i].token.0)
                &&& st.2[i].amount > 0
                &&& st.2[i].amount >= min_payout
                &&& tokens.contains(st.2[i].token)
                &&& balance_at(st.0, st.2[i].token.0) == 0
            }
            &&& forall|k: u64| #![trigger balance_at(st.0, k)]
                balance_at(st.0, k) == balance_at(bal, k) || balance_at(st.0, k) == 0
            &&& forall|k: u64| #![trigger balance_at(st.0, k)]
                !tokens.contains(Addr(k)) ==> balance_at(st.0, k) == balance_at(bal, k)
        }),
    decreases tokens.len(),
{
    if tokens.len() > 0 {
        let init = tokens.drop_last();
        let t = tokens.last();
        assert(init.no_duplicates());
        assert(!init.contains(t)) by {
            if init.contains(t) {
                let j = choose|j: int| 0 <= j < init.len() && init[j] == t;
                assert(tokens[j] == tokens[tokens.len() - 1]);
            }
        }
        lemma_flush_pays_whole_balances(init, bal, earn, min_payout, configured);
        let st1 = flush_all(init, bal, earn, min_payout, configured)->Ok_0;
        let st = flush_all(tokens, bal, earn, min_payout, configured)->Ok_0;
        assert(balance_at(st1.0, t.0) == balance_at(bal, t.0));
        assert forall|x: Addr| init.contains(x) implies tokens.contains(x) by {
            let j = choose|j: int| 0 <= j < init.len() && init[j] == x;
            assert(tokens[j] == x);
        }
        assert(tokens.contains(t)) by {
            assert(tokens[tokens.len() - 1] == t);
        }
        assert forall|i: int| 0 <= i < st1.2.len() implies st1.2[i].token.0 != t.0 by {
            assert(st1.2[i].amount == balance_at(bal, st1.2[i].token.0));
            assert(init.contains(st1.2[i].token));
        }
        assert forall|i: int| 0 <= i < st.2.len() implies {
            &&& #[trigger] st.2[i].amount == balance_at(bal, st.2[i].token.0)
            &&& st.2[i].amount > 0
            &&& st.2[i].amount >= min_payout
            &&& tokens.contains(st.2[i].token)
            &&& balance_at(st.0, st.2[i].token.0) == 0
        } by {
            if i < st1.2.len() {
                assert(st.2[i] == st1.2[i]);
                assert(st1.2[i].amount == balance_at(bal, st1.2[i].token.0));
                assert(init.contains(st1.2[i].token));
            }
        }
        assert forall|k: u64| #![trigger balance_at(st.0, k)]
            !tokens.contains(Addr(k)) implies balance_at(st.0, k) == balance_at(bal, k) by {
            if init.contains(Addr(k)) {
                assert(tokens.contains(Addr(k)));
            }
            assert(balance_at(st1.0, k) == balance_at(bal, k));
            assert(k != t.0);
        }
        assert forall|k: u64| #![trigger balance_at(st.0, k)]
            balance_at(st.0, k) == balance_at(bal, k) || balance_at(st.0, k) == 0 by {
            assert(balance_at(st1.0, k) == balance_at(bal, k) || balance_at(st1.0, k) == 0);
        }
    }
}

/// A flush step keeps every bucket reconciled.
proof fn lemma_flush_step_reconciled(
    bal: Map<u64, i128>,
    earn: Map<u64, TokenEarnings>,
    paid: Seq<TokenPayout>,
    token: Addr,
    min_payout: i128,
    configured: bool,
)
    requires
        maps_reconciled(bal, earn),
        flush_step(bal, earn, paid, token, min_payout, configured) is Ok,
    ensures
        ({
            let st = flush_step(bal, earn, paid, token, min_payout, configured)->Ok_0;
            maps_reconciled(st.0, st.1)
        }),
{
    let st = flush_step(bal, earn, paid, token, min_payout, configured)->Ok_0;
    assert forall|k: u64| #[trigger] bucket_reconciled(balance_at(st.0, k), earnings_at(st.1, k)) by {
        assert(bucket_reconciled(balance_at(bal, k), earnings_at(earn, k)));
    }
}

/// Pays out one bucket during a flush; returns the amount paid (0 when the
/// bucket is below the minimum or empty).
fn flush_merchant_token(
    balances: &mut HashMap<u64, i128>,
    earnings: &mut HashMap<u64, TokenEarnings>,
    token: Addr,
    min_payout: i128,
    configured: bool,
) -> (r: Result<i128, Error>)
    ensures
        ({
            let st = flush_step(old(balances)@, old(earnings)@, Seq::<TokenPayout>::empty(), token, min_payout, configured);
            &&& st is Err ==> r == Err::<i128, Error>(st->Err_0)
            &&& st is Ok ==> {
                &&& r is Ok
                &&& final(balances)@ == st->Ok_0.0
                &&& final(earnings)@ == st->Ok_0.1
                &&& r->Ok_0 == (if st->Ok_0.2.len() == 0 { 0 } else { balance_at(old(balances)@, token.0) })
                &&& r->Ok_0 > 0 <==> st->Ok_0.2.len() > 0
            }
        }),
{
    let balance = match balances.get(&token.0) {
        Some(b) => *b,
        None => 0,
    };
    if balance < min_payout || balance <= 0 {
        return Ok(0);
    }
    if !configured {
        return Err(Error::NotFound);
    }
    let mut e = match earnings.get(&token.0) {
        Some(e) => *e,
        None => TokenEarnings {
            accruals: AccruedTotals { interval: 0, usage: 0, one_off: 0 },
            withdrawals: 0,
            refunds: 0,
        },
    };
    e.withdrawals = match e.withdrawals.checked_add(balance) {
        Some(v) => v,
        None => return Err(Error::Overflow),
    };
    balances.insert(token.0, 0);
    earnings.insert(token.0, e);
    Ok(balance)
}

/// Whether the payout cadence has not yet elapsed since the last payout.
pub open spec fn cadence_pending(s: PayoutSchedule, now: u64) -> bool {
    s.last_payout_at > 0 && (if now >= s.last_payout_at { now - s.last_payout_at } else { 0 }) < s.cadence_seconds
}

/// The payout cadence: after a payout at `last_payout_at`, a flush at any
/// time before `last_payout_at + cadence_seconds` is refused as too early
/// (whatever the gap between 0 and the cadence), and from that time on it
/// is allowed; before any payout every flush is allowed.
pub proof fn lemma_flush_waits_for_cadence(s: PayoutSchedule, now: u64)
    ensures
        s.last_payout_at > 0 && s.last_payout_at <= now && now < s.last_payout_at + s.cadence_seconds
            ==> cadence_pending(s, now),
        s.last_payout_at > 0 && now >= s.last_payout_at + s.cadence_seconds ==> !cadence_pending(s, now),
        s.last_payout_at == 0 ==> !cadence_pending(s, now),
{
}

/// Pays out, to the merchant's payout address, every bucket that reaches
/// the scheduled minimum, once the cadence has elapsed since the last
/// payout; records `now` as the time of this payout. With no schedule this
/// does nothing. Nothing changes on error.
pub fn do_flush_payouts(account: &mut MerchantAccount, now: u64) -> (r: Result<FlushReport, Error>)
    ensures
        ({
            let sched = schedule_or_default(old(account).payout_schedule);
            let outcome = flush_all(old(account).tokens@, old(account).balances@, old(account).earnings@, sched.min_payout, old(account).config is Some);
            &&& (sched.cadence_seconds == 0 && sched.min_payout == 0) ==> r is Ok && !r->Ok_0.ran && r->Ok_0.tokens_paid == 0
                && r->Ok_0.payouts@.len() == 0
                && final(account).payout_schedule == old(account).payout_schedule
                && final(account).balances@ == old(account).balances@
                && final(account).earnings@ == old(account).earnings@
            &&& !(sched.cadence_seconds == 0 && sched.min_payout == 0) && cadence_pending(sched, now)
                ==> r == Err::<FlushReport, Error>(Error::IntervalNotElapsed)
            &&& !(sched.cadence_seconds == 0 && sched.min_payout == 0) && !cadence_pending(sched, now) && outcome is Err
                ==> r == Err::<FlushReport, Error>(outcome->Err_0)
            &&& r is Err ==> final(account).payout_schedule == old(account).payout_schedule
                && final(account).balances@ == old(account).balances@
                && final(account).earnings@ == old(account).earnings@
            &&& !(sched.cadence_seconds == 0 && sched.min_payout == 0) && !cadence_pending(sched, now) && outcome is Ok
                ==> {
                &&& r is Ok
                &&& r->Ok_0.ran
                &&& r->Ok_0.payouts@ == outcome->Ok_0.2
                &&& r->Ok_0.tokens_paid == if outcome->Ok_0.2.len() > u32::MAX { u32::MAX as int } else { outcome->Ok_0.2.len() as int }
                &&& r->Ok_0.payout_address == match old(account).config {
                    Some(c) => Some(c.payout_address),
                    None => None::<Addr>,
                }
                &&& final(account).balances@ == outcome->Ok_0.0
                &&& final(account).earnings@ == outcome->Ok_0.1
                &&& final(account).payout_schedule == Some(PayoutSchedule { last_payout_at: now, ..sched })
            }
        }),
        account_reconciled(*old(account)) ==> account_reconciled(*final(account)),
        final(account).config == old(account).config,
        final(account).paused == old(account).paused,
        final(account).tokens@ == old(account).tokens@,
{
    let schedule = get_payout_schedule(account);
    if schedule.cadence_seconds == 0 && schedule.min_payout == 0 {
        return Ok(FlushReport { ran: false, tokens_paid: 0, payout_address: None, payouts: Vec::new() });
    }
    if schedule.last_payout_at > 0 && now.saturating_sub(schedule.last_payout_at) < schedule.cadence_seconds {
        return Err(Error::IntervalNotElapsed);
    }
    let configured = account.config.is_some();
    let mut balances = account.balances.clone();
    let mut earnings = account.earnings.clone();
    let mut payouts: Vec<TokenPayout> = Vec::new();
    let mut tokens_paid: u32 = 0;
    let ghost tokens = account.tokens@;
    let ghost bal0 = account.balances@;
    let ghost earn0 = account.earnings@;
    let mut i: usize = 0;
    while i < account.tokens.len()
        invariant
            tokens == account.tokens@,
            bal0 == account.balances@,
            earn0 == account.earnings@,
            configured == account.config is Some,
            schedule == schedule_or_default(account.payout_schedule),
            !(schedule.cadence_seconds == 0 && schedule.min_payout == 0),
            !cadence_pending(schedule, now),
            0 <= i <= tokens.len(),
            flush_all(tokens.subrange(0, i as int), bal0, earn0, schedule.min_payout, configured) == Ok::<(Map<u64, i128>, Map<u64, TokenEarnings>, Seq<TokenPayout>), Error>((balances@, earnings@, payouts@)),
            tokens_paid == if payouts@.len() > u32::MAX { u32::MAX as int } else { payouts@.len() as int },
            maps_reconciled(bal0, earn0) ==> maps_reconciled(balances@, earnings@),
        decreases tokens.len() - i,
    {
        let token = account.tokens[i];
        proof {
            assert(tokens.subrange(0, i + 1).drop_last() == tokens.subrange(0, i as int));
            if maps_reconciled(bal0, earn0) && flush_step(balances@, earnings@, payouts@, token, schedule.min_payout, configured) is Ok {
                lemma_flush_step_reconciled(balances@, earnings@, payouts@, token, schedule.min_payout, configured);
            }
        }
        let ghost pre_bal = balances@;
        let ghost pre_earn = earnings@;
        let ghost pre_paid = payouts@;
        let amount = match flush_merchant_token(&mut balances, &mut earnings, token, schedule.min_payout, configured) {
            Ok(a) => a,
            Err(e) => {
                proof {
                    assert(tokens.subrange(0, i + 1).last() == token);
                    assert(flush_step(pre_bal, pre_earn, pre_paid, token, schedule.min_payout, configured) is Err);
                    assert(flush_all(tokens.subrange(0, i + 1), bal0, earn0, schedule.min_payout, configured) == Err::<(Map<u64, i128>, Map<u64, TokenEarnings>, Seq<TokenPayout>), Error>(e));
                    lemma_flush_error_propagates(tokens, i + 1, schedule.min_payout, configured, bal0, earn0);
                }
                return Err(e);
            },
        };
        if amount > 0 {
            payouts.push(TokenPayout { token, amount });
            tokens_paid = tokens_paid.saturating_add(1);
        }
        i = i + 1;
    }
    assert(tokens.subrange(0, tokens.len() as int) == tokens);
    let payout_address = match &account.config {
        Some(c) => Some(c.payout_address),
        None => None,
    };
    account.balances = balances;
    account.earnings = earnings;
    let mut updated_schedule = schedule;
    updated_schedule.last_payout_at = now;
    account.payout_schedule = Some(updated_schedule);
    Ok(FlushReport { ran: true, tokens_paid, payout_address, payouts })
}

/// The outcome of validating the optional new fee and operations of a
/// configuration update.
pub open spec fn update_check(new_fee_bips: Option<i32>, new_allowed_operations: Option<i32>) -> Result<(), Error> {
    if new_fee_bips is Some && new_fee_bips.unwrap() > MAX_FEE_BIPS {
        Err(Error::InvalidFeeBips)
    } else if new_allowed_operations is Some && !valid_operations(new_allowed_operations.unwrap()) {
        Err(Error::InvalidOperations)
    } else if new_allowed_operations is Some && new_allowed_operations.unwrap() & OP_CHARGE == 0 {
        Err(Error::MustAllowChargeOperation)
    } else {
        Ok(())
    }
}

/// `new` when given, else `current`.
pub open spec fn or_keep<T>(new: Option<T>, current: T) -> T {
    match new {
        Some(v) => v,
        None => current,
    }
}

/// Changes the given fields of the merchant's configuration (fields given
/// as `None` keep their value), stamps it with `now` and returns it.
pub fn update_merchant_config(
    account: &mut MerchantAccount,
    new_payout_address: Option<Addr>,
    new_fee_bips: Option<i32>,
    new_allowed_operations: Option<i32>,
    new_is_active: Option<bool>,
    new_fee_address: Option<Option<Addr>>,
    new_redirect_url: Option<String>,
    new_is_paused: Option<bool>,
    now: u64,
) -> (r: Result<MerchantConfig, Error>)
    ensures
        old(account).config is None ==> r == Err::<MerchantConfig, Error>(Error::NotFound),
        old(account).config is Some && update_check(new_fee_bips, new_allowed_operations) is Err
            ==> r == Err::<MerchantConfig, Error>(update_check(new_fee_bips, new_allowed_operations)->Err_0),
        r is Err ==> final(account).config == old(account).config,
        old(account).config is Some && update_check(new_fee_bips, new_allowed_operations) is Ok ==> {
            let c = old(account).config.unwrap();
            let updated = MerchantConfig {
                version: c.version,
                payout_address: or_keep(new_payout_address, c.payout_address),
                fee_bips: or_keep(new_fee_bips, c.fee_bips),
                allowed_operations: or_keep(new_allowed_operations, c.allowed_operations),
                is_active: or_keep(new_is_active, c.is_active),
                fee_address: or_keep(new_fee_address, c.fee_address),
                redirect_url: or_keep(new_redirect_url, c.redirect_url),
                is_paused: or_keep(new_is_paused, c.is_paused),
                last_updated: now,
            };
            &&& r == Ok::<MerchantConfig, Error>(updated)
            &&& final(account).config == Some(updated)
        },
        final(account).paused == old(account).paused,
        final(account).tokens@ == old(account).tokens@,
        final(account).balances@ == old(account).balances@,
        final(account).earnings@ == old(account).earnings@,
        final(account).payout_schedule == old(account).payout_schedule,
{
    let mut config = match &account.config {
        Some(c) => c.duplicate(),
        None => return Err(Error::NotFound),
    };
    if let Some(payout) = new_payout_address {
        config.payout_address = payout;
    }
    if let Some(bips) = new_fee_bips {
        if bips > MAX_FEE_BIPS {
            return Err(Error::InvalidFeeBips);
        }
        config.fee_bips = bips;
    }
    if let Some(ops) = new_allowed_operations {
        if !is_valid_allowed_operations(ops) {
            return Err(Error::InvalidOperations);
        }
        if ops & OP_CHARGE == 0 {
            return Err(Error::MustAllowChargeOperation);
        }
        config.allowed_operations = ops;
    }
    if let Some(active) = new_is_active {
        config.is_active = active;
    }
    if let Some(fee_addr) = new_fee_address {
        config.fee_address = fee_addr;
    }
    if let Some(url) = new_redirect_url {
        config.redirect_url = url;
    }
    if let Some(paused) = new_is_paused {
        config.is_paused = paused;
    }
    config.last_updated = now;
    account.config = Some(config.duplicate());
    Ok(config)
}

} // verus!
