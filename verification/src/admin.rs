//! Vault-wide administration: initialisation, the admin key, top-up and
//! grace settings, the accepted-token registry, the protocol fee, stranded
//! fund recovery and schema migration.
use crate::config::{
    config_read, config_written, do_migrate_config_to_persistent_internal, get_schema_version, has_config,
    is_migrated_key, kind_fits, migrated_store_spec, read_config, schema_version_of, write_config,
    ConfigKey, ConfigStore, ConfigValue, STORAGE_VERSION,
};
use crate::error::{error_code, Error};
use crate::types::Addr;
use crate::validation::reject_contract_self;
use std::collections::{HashMap, HashSet};
use vstd::prelude::*;

verus! {

broadcast use vstd::std_specs::hash::group_hash_axioms;

/// Largest protocol fee, in basis points.
pub const MAX_PROTOCOL_FEE_BPS: u32 = 10_000;

/// Largest number of decimals a settlement token may declare.
pub const MAX_TOKEN_DECIMALS: u32 = 19;

/// The vault-wide state that administration reads and writes.
#[derive(Debug)]
pub struct VaultState {
    /// The versioned configuration (token, admin, minimum top-up, fee, ...).
    pub config: ConfigStore,
    /// The grace period in seconds, when one was set.
    pub grace_period: Option<u64>,
    /// The accepted settlement tokens, in registration order.
    pub accepted_tokens: Vec<Addr>,
    /// The declared decimals of each accepted token, keyed by the token's id.
    pub token_decimals: HashMap<u64, u32>,
    /// The ids of the stranded-fund recoveries already executed.
    pub recovered_ids: HashSet<u64>,
}

/// One entry of the accepted-token listing.
#[derive(Debug, Clone, Copy, PartialEq, Eq, Structural)]
pub struct AcceptedToken {
    pub token: Addr,
    pub decimals: u32,
}

/// The result of one interval charge.
#[derive(Debug, Clone, Copy, PartialEq, Eq, Structural)]
pub enum ChargeExecutionResult {
    Charged,
    InsufficientBalance,
    LifetimeCapReached,
}

/// The record of a schema migration.
#[derive(Debug, Clone, Copy, PartialEq, Eq, Structural)]
pub struct SchemaMigratedEvent {
    pub admin: Addr,
    pub from_version: u32,
    pub to_version: u32,
    pub timestamp: u64,
}

/// What a batch charge reports for one subscription.
#[derive(Debug, Clone, Copy, PartialEq, Eq, Structural)]
pub struct BatchChargeResult {
    pub success: bool,
    pub error_code: u32,
}

/// The admin address the configuration holds, if any.
pub open spec fn stored_admin(store: ConfigStore) -> Option<Addr> {
    match config_read(store, ConfigKey::Admin) {
        Some(ConfigValue::Address(a)) => Some(a),
        _ => None,
    }
}

/// The default settlement token the configuration holds, if any.
pub open spec fn stored_token(store: ConfigStore) -> Option<Addr> {
    match config_read(store, ConfigKey::Token) {
        Some(ConfigValue::Address(a)) => Some(a),
        _ => None,
    }
}

/// The outcome of checking that `admin` is the stored admin.
pub open spec fn admin_check(store: ConfigStore, admin: Addr) -> Result<(), Error> {
    match stored_admin(store) {
        None => Err(Error::NotInitialized),
        Some(a) => if a == admin {
            Ok(())
        } else {
            Err(Error::Unauthorized)
        },
    }
}

impl VaultState {
    /// A vault with nothing stored.
    pub fn new() -> (v: Self)
        ensures
            forall|k: ConfigKey| v.config.persistent.lookup(k) is None && v.config.instance.lookup(k) is None,
            v.grace_period is None,
            v.accepted_tokens@.len() == 0,
            v.token_decimals@ == Map::<u64, u32>::empty(),
            v.recovered_ids@ == Set::<u64>::empty(),
    {
        VaultState {
            config: ConfigStore::empty(),
            grace_period: None,
            accepted_tokens: Vec::new(),
            token_decimals: HashMap::new(),
            recovered_ids: HashSet::new(),
        }
    }
}

/// Initialises the vault: records schema version 3, the default token and
/// its decimals, the admin, the minimum top-up and the grace period.
pub fn do_init(
    vault: &mut VaultState,
    current_contract: Addr,
    token: Addr,
    token_decimals: u32,
    admin: Addr,
    min_topup: i128,
    grace_period: u64,
) -> (r: Result<(), Error>)
    ensures
        (config_read(old(vault).config, ConfigKey::Token) is Some || config_read(old(vault).config, ConfigKey::Admin) is Some)
            ==> r == Err::<(), Error>(Error::AlreadyInitialized) && *final(vault) == *old(vault),
        !(config_read(old(vault).config, ConfigKey::Token) is Some || config_read(old(vault).config, ConfigKey::Admin) is Some) ==> {
            &&& min_topup <= 0 ==> r == Err::<(), Error>(Error::InvalidAmount)
            &&& min_topup > 0 && token_decimals > MAX_TOKEN_DECIMALS ==> r == Err::<(), Error>(Error::InvalidTokenDecimals)
            &&& min_topup > 0 && token_decimals <= MAX_TOKEN_DECIMALS && token == current_contract
                ==> r == Err::<(), Error>(Error::InvalidToken)
            &&& r is Err ==> *final(vault) == *old(vault)
            &&& (min_topup > 0 && token_decimals <= MAX_TOKEN_DECIMALS && token != current_contract) ==> {
                &&& r is Ok
                &&& final(vault).config.persistent.schema_version == Some(STORAGE_VERSION)
                &&& final(vault).config.persistent.token == Some(token)
                &&& final(vault).config.persistent.admin == Some(admin)
                &&& final(vault).config.persistent.min_topup == Some(min_topup)
                &&& final(vault).config.instance.token is None
                &&& final(vault).config.instance.admin is None
                &&& final(vault).config.instance.min_topup is None
                &&& final(vault).config.instance.schema_version == old(vault).config.instance.schema_version
                &&& forall|k: ConfigKey|
                    k != ConfigKey::Token && k != ConfigKey::Admin && k != ConfigKey::MinTopup && k != ConfigKey::SchemaVersion
                        ==> final(vault).config.persistent.lookup(k) == old(vault).config.persistent.lookup(k)
                        && final(vault).config.instance.lookup(k) == old(vault).config.instance.lookup(k)
                &&& final(vault).token_decimals@ == old(vault).token_decimals@.insert(token.0, token_decimals)
                &&& final(vault).accepted_tokens@ == seq![token]
                &&& final(vault).grace_period == Some(grace_period)
                &&& final(vault).recovered_ids@ == old(vault).recovered_ids@
                &&& schema_version_of(final(vault).config) == STORAGE_VERSION
                &&& stored_token(final(vault).config) == Some(token)
                &&& stored_admin(final(vault).config) == Some(admin)
                &&& config_read(final(vault).config, ConfigKey::MinTopup) == Some(ConfigValue::Amount(min_topup))
                &&& (forall|k: u64| #[trigger] old(vault).token_decimals@.contains_key(k) ==> k == token.0)
                    ==> registry_wf(final(vault).accepted_tokens@, final(vault).token_decimals@)
            }
        },
{
    if has_config(&vault.config, ConfigKey::Token) || has_config(&vault.config, ConfigKey::Admin) {
        return Err(Error::AlreadyInitialized);
    }
    if min_topup <= 0 {
        return Err(Error::InvalidAmount);
    }
    if token_decimals > MAX_TOKEN_DECIMALS {
        return Err(Error::InvalidTokenDecimals);
    }
    if token == current_contract {
        return Err(Error::InvalidToken);
    }
    vault.config.persistent.set(ConfigKey::SchemaVersion, ConfigValue::Count(STORAGE_VERSION));
    write_config(&mut vault.config, ConfigKey::Token, ConfigValue::Address(token));
    vault.token_decimals.insert(token.0, token_decimals);
    let mut tokens: Vec<Addr> = Vec::new();
    tokens.push(token);
    vault.accepted_tokens = tokens;
    write_config(&mut vault.config, ConfigKey::Admin, ConfigValue::Address(admin));
    write_config(&mut vault.config, ConfigKey::MinTopup, ConfigValue::Amount(min_topup));
    vault.grace_period = Some(grace_period);
    proof {
        let l = vault.accepted_tokens@;
        assert(l[0] == token);
        assert(l.contains(token));
    }
    Ok(())
}

/// The stored admin, or `NotInitialized`.
pub fn require_admin(vault: &VaultState) -> (r: Result<Addr, Error>)
    ensures
        r == match stored_admin(vault.config) {
            Some(a) => Ok::<Addr, Error>(a),
            None => Err::<Addr, Error>(Error::NotInitialized),
        },
{
    match read_config(&vault.config, ConfigKey::Admin) {
        Some(ConfigValue::Address(a)) => Ok(a),
        _ => Err(Error::NotInitialized),
    }
}

/// Checks that `admin` (whose signature the host has verified) is the
/// stored admin.
pub fn require_admin_auth(vault: &VaultState, admin: Addr) -> (r: Result<(), Error>)
    ensures
        r == admin_check(vault.config, admin),
{
    let stored_admin = require_admin(vault)?;
    if admin != stored_admin {
        return Err(Error::Unauthorized);
    }
    Ok(())
}

/// The stored admin, whose signature the host must then require.
pub fn require_stored_admin_auth(vault: &VaultState) -> (r: Result<Addr, Error>)
    ensures
        r == match stored_admin(vault.config) {
            Some(a) => Ok::<Addr, Error>(a),
            None => Err::<Addr, Error>(Error::NotInitialized),
        },
{
    require_admin(vault)
}

/// The stored admin, or `NotInitialized`.
pub fn do_get_admin(vault: &VaultState) -> (r: Result<Addr, Error>)
    ensures
        r == match stored_admin(vault.config) {
            Some(a) => Ok::<Addr, Error>(a),
            None => Err::<Addr, Error>(Error::NotInitialized),
        },
{
    require_admin(vault)
}

/// Sets the minimum top-up. Admin only; the amount must be positive.
pub fn do_set_min_topup(vault: &mut VaultState, admin: Addr, min_topup: i128) -> (r: Result<(), Error>)
    ensures
        admin_check(old(vault).config, admin) is Err ==> r == admin_check(old(vault).config, admin),
        admin_check(old(vault).config, admin) is Ok && min_topup <= 0 ==> r == Err::<(), Error>(Error::InvalidAmount),
        r is Err ==> *final(vault) == *old(vault),
        admin_check(old(vault).config, admin) is Ok && min_topup > 0 ==> {
            &&& r is Ok
            &&& config_written(old(vault).config, final(vault).config, ConfigKey::MinTopup, ConfigValue::Amount(min_topup))
            &&& final(vault).grace_period == old(vault).grace_period
            &&& final(vault).accepted_tokens@ == old(vault).accepted_tokens@
            &&& final(vault).token_decimals@ == old(vault).token_decimals@
            &&& final(vault).recovered_ids@ == old(vault).recovered_ids@
        },
{
    require_admin_auth(vault, admin)?;
    if min_topup <= 0 {
        return Err(Error::InvalidAmount);
    }
    write_config(&mut vault.config, ConfigKey::MinTopup, ConfigValue::Amount(min_topup));
    Ok(())
}

/// The minimum top-up, or `NotInitialized`.
pub fn get_min_topup(vault: &VaultState) -> (r: Result<i128, Error>)
    ensures
        r == match config_read(vault.config, ConfigKey::MinTopup) {
            Some(ConfigValue::Amount(a)) => Ok::<i128, Error>(a),
            _ => Err::<i128, Error>(Error::NotInitialized),
        },
{
    match read_config(&vault.config, ConfigKey::MinTopup) {
        Some(ConfigValue::Amount(a)) => Ok(a),
        _ => Err(Error::NotInitialized),
    }
}

/// Sets the grace period. Admin only.
pub fn do_set_grace_period(vault: &mut VaultState, admin: Addr, grace_period: u64) -> (r: Result<(), Error>)
    ensures
        r == admin_check(old(vault).config, admin),
        r is Err ==> *final(vault) == *old(vault),
        r is Ok ==> *final(vault) == (VaultState { grace_period: Some(grace_period), ..*old(vault) }),
{
    require_admin_auth(vault, admin)?;
    vault.grace_period = Some(grace_period);
    Ok(())
}

/// The grace period, 0 when none was set.
pub fn get_grace_period(vault: &VaultState) -> (r: Result<u64, Error>)
    ensures
        r == Ok::<u64, Error>(
            match vault.grace_period {
                Some(g) => g,
                None => 0,
            },
        ),
{
    match vault.grace_period {
        Some(g) => Ok(g),
        None => Ok(0),
    }
}

/// The default settlement token, or `NotFound`.
pub fn get_token(vault: &VaultState) -> (r: Result<Addr, Error>)
    ensures
        r == match stored_token(vault.config) {
            Some(a) => Ok::<Addr, Error>(a),
            None => Err::<Addr, Error>(Error::NotFound),
        },
{
    match read_config(&vault.config, ConfigKey::Token) {
        Some(ConfigValue::Address(a)) => Ok(a),
        _ => Err(Error::NotFound),
    }
}

/// The decimals declared for `token`, or `NotFound`.
pub fn get_token_decimals(vault: &VaultState, token: Addr) -> (r: Result<u32, Error>)
    ensures
        vault.token_decimals@.contains_key(token.0) ==> r == Ok::<u32, Error>(vault.token_decimals@[token.0]),
        !vault.token_decimals@.contains_key(token.0) ==> r == Err::<u32, Error>(Error::NotFound),
{
    match vault.token_decimals.get(&token.0) {
        Some(d) => Ok(*d),
        None => Err(Error::NotFound),
    }
}

/// Whether `token` is an accepted settlement token.
pub fn is_token_accepted(vault: &VaultState, token: Addr) -> (r: bool)
    ensures
        r == vault.token_decimals@.contains_key(token.0),
{
    vault.token_decimals.contains_key(&token.0)
}

/// The accepted-token registry is consistent: the list has no duplicates,
/// every listed token has declared decimals, and every token with declared
/// decimals is listed.
pub open spec fn registry_wf(list: Seq<Addr>, decimals: Map<u64, u32>) -> bool {
    &&& list.no_duplicates()
    &&& forall|i: int| 0 <= i < list.len() ==> #[trigger] decimals.contains_key(list[i].0)
    &&& forall|k: u64| #[trigger] decimals.contains_key(k) ==> list.contains(Addr(k))
}

/// Removing a token from a list keeps exactly the other entries, and keeps a
/// duplicate-free list duplicate-free.
proof fn lemma_without_token(list: Seq<Addr>, token: Addr)
    ensures
        forall|x: Addr| #[trigger] without_token(list, token).contains(x) <==> (list.contains(x) && x != token),
        list.no_duplicates() ==> without_token(list, token).no_duplicates(),
    decreases list.len(),
{
    if list.len() == 0 {
        reveal(Seq::filter);
        assert(without_token(list, token) =~= Seq::<Addr>::empty());
    } else {
        let init = list.drop_last();
        let last = list.last();
        assert(init.push(last) =~= list);
        init.lemma_filter_push(last, other_than(token));
        lemma_without_token(init, token);
        if list.no_duplicates() {
            assert(init.no_duplicates());
            assert(!init.contains(last));
            let w = without_token(init, token);
            if last != token {
                assert(!w.contains(last));
                let w2 = w.push(last);
                assert forall|i: int, j: int| 0 <= i < w2.len() && 0 <= j < w2.len() && i != j implies w2[i] != w2[j] by {
                    if i == w.len() {
                        assert(w.contains(w2[j]));
                    } else if j == w.len() {
                        assert(w.contains(w2[i]));
                    }
                }
            }
        }
        assert forall|x: Addr| #[trigger] without_token(list, token).contains(x) <==> (list.contains(x) && x != token) by {
            if list.contains(x) && x != token {
                let j = choose|j: int| 0 <= j < list.len() && list[j] == x;
                if j < list.len() - 1 {
                    assert(init[j] == x);
                    assert(init.contains(x));
                }
            }
            if without_token(list, token).contains(x) {
                if x != last {
                    assert(without_token(init, token).contains(x));
                    let j = choose|j: int| 0 <= j < init.len() && init[j] == x;
                    assert(list[j] == x);
                }
            }
        }
    }
}

/// In a consistent registry the listing shows every listed token, in order,
/// with its declared decimals.
pub proof fn lemma_listing_complete(list: Seq<Addr>, decimals: Map<u64, u32>)
    requires
        forall|i: int| 0 <= i < list.len() ==> #[trigger] decimals.contains_key(list[i].0),
    ensures
        accepted_listing(list, decimals).len() == list.len(),
        forall|i: int| 0 <= i < list.len() ==> #[trigger] accepted_listing(list, decimals)[i]
            == (AcceptedToken { token: list[i], decimals: decimals[list[i].0] }),
    decreases list.len(),
{
    if list.len() > 0 {
        let init = list.drop_last();
        assert forall|i: int| 0 <= i < init.len() implies #[trigger] decimals.contains_key(init[i].0) by {
            assert(init[i] == list[i]);
        }
        lemma_listing_complete(init, decimals);
        assert(decimals.contains_key(list[list.len() - 1].0));
    }
}

/// Registers `token` with its decimals (or updates the decimals of an
/// accepted token). Admin only; the contract's own address is refused.
pub fn add_accepted_token(
    vault: &mut VaultState,
    current_contract: Addr,
    admin: Addr,
    token: Addr,
    decimals: u32,
) -> (r: Result<(), Error>)
    ensures
        token == current_contract ==> r == Err::<(), Error>(Error::InvalidInput),
        token != current_contract ==> r == admin_check(old(vault).config, admin),
        r is Err ==> *final(vault) == *old(vault),
        r is Ok ==> {
            &&& final(vault).token_decimals@ == old(vault).token_decimals@.insert(token.0, decimals)
            &&& final(vault).accepted_tokens@ == if old(vault).token_decimals@.contains_key(token.0) {
                old(vault).accepted_tokens@
            } else {
                old(vault).accepted_tokens@.push(token)
            }
            &&& final(vault).config == old(vault).config
            &&& final(vault).grace_period == old(vault).grace_period
            &&& final(vault).recovered_ids@ == old(vault).recovered_ids@
        },
        registry_wf(old(vault).accepted_tokens@, old(vault).token_decimals@)
            ==> registry_wf(final(vault).accepted_tokens@, final(vault).token_decimals@),
{
    reject_contract_self(current_contract, token)?;
    require_admin_auth(vault, admin)?;
    let ghost old_list = vault.accepted_tokens@;
    let ghost old_dec = vault.token_decimals@;
    if !vault.token_decimals.contains_key(&token.0) {
        vault.accepted_tokens.push(token);
    }
    vault.token_decimals.insert(token.0, decimals);
    proof {
        if registry_wf(old_list, old_dec) {
            let l = vault.accepted_tokens@;
            let d = vault.token_decimals@;
            if !old_dec.contains_key(token.0) {
                assert(!old_list.contains(token)) by {
                    if old_list.contains(token) {
                        let j = choose|j: int| 0 <= j < old_list.len() && old_list[j] == token;
                        assert(old_dec.contains_key(old_list[j].0));
                    }
                }
                assert forall|i: int, j: int| 0 <= i < l.len() && 0 <= j < l.len() && i != j implies l[i] != l[j] by {
                    if i == l.len() - 1 {
                        assert(old_list.contains(l[j]));
                    } else if j == l.len() - 1 {
                        assert(old_list.contains(l[i]));
                    }
                }
                assert(l.contains(token)) by {
                    assert(l[l.len() - 1] == token);
                }
            } else {
                assert(old_list.contains(Addr(token.0)));
            }
            assert forall|k: u64| #[trigger] d.contains_key(k) implies l.contains(Addr(k)) by {
                if k != token.0 {
                    assert(old_dec.contains_key(k));
                    let j = choose|j: int| 0 <= j < old_list.len() && old_list[j] == Addr(k);
                    assert(l[j] == Addr(k));
                }
            }
            assert forall|i: int| 0 <= i < l.len() implies #[trigger] d.contains_key(l[i].0) by {
                if i < old_list.len() {
                    assert(old_dec.contains_key(old_list[i].0));
                }
            }
        }
    }
    Ok(())
}

/// `list` without any occurrence of `token`, order kept.
pub open spec fn without_token(list: Seq<Addr>, token: Addr) -> Seq<Addr> {
    list.filter(other_than(token))
}

/// The predicate "is not `token`".
pub open spec fn other_than(token: Addr) -> spec_fn(Addr) -> bool {
    |t: Addr| t != token
}

/// Removes `token` from the accepted tokens. Admin only; the default token
/// cannot be removed.
pub fn remove_accepted_token(vault: &mut VaultState, admin: Addr, token: Addr) -> (r: Result<(), Error>)
    ensures
        admin_check(old(vault).config, admin) is Err ==> r == admin_check(old(vault).config, admin),
        admin_check(old(vault).config, admin) is Ok && stored_token(old(vault).config) is None
            ==> r == Err::<(), Error>(Error::NotFound),
        admin_check(old(vault).config, admin) is Ok && stored_token(old(vault).config) == Some(token)
            ==> r == Err::<(), Error>(Error::InvalidInput),
        r is Err ==> *final(vault) == *old(vault),
        admin_check(old(vault).config, admin) is Ok && stored_token(old(vault).config) is Some
            && stored_token(old(vault).config) != Some(token) ==> {
            &&& r is Ok
            &&& final(vault).token_decimals@ == old(vault).token_decimals@.remove(token.0)
            &&& final(vault).accepted_tokens@ == without_token(old(vault).accepted_tokens@, token)
            &&& final(vault).config == old(vault).config
            &&& final(vault).grace_period == old(vault).grace_period
            &&& final(vault).recovered_ids@ == old(vault).recovered_ids@
        },
        registry_wf(old(vault).accepted_tokens@, old(vault).token_decimals@)
            ==> registry_wf(final(vault).accepted_tokens@, final(vault).token_decimals@),
{
    require_admin_auth(vault, admin)?;
    let default_token = get_token(vault)?;
    if token == default_token {
        return Err(Error::InvalidInput);
    }
    vault.token_decimals.remove(&token.0);
    let mut next: Vec<Addr> = Vec::new();
    let mut i: usize = 0;
    let ghost old_list = vault.accepted_tokens@;
    while i < vault.accepted_tokens.len()
        invariant
            old_list == vault.accepted_tokens@,
            0 <= i <= old_list.len(),
            next@ == without_token(old_list.subrange(0, i as int), token),
        decreases old_list.len() - i,
    {
        let t = vault.accepted_tokens[i];
        proof {
            assert(old_list.subrange(0, i + 1) == old_list.subrange(0, i as int).push(t));
            old_list.subrange(0, i as int).lemma_filter_push(t, other_than(token));
        }
        if t != token {
            next.push(t);
        }
        i = i + 1;
    }
    assert(old_list.subrange(0, old_list.len() as int) == old_list);
    proof {
        lemma_without_token(old_list, token);
        if registry_wf(old_list, old(vault).token_decimals@) {
            let d = vault.token_decimals@;
            assert forall|i: int| 0 <= i < next@.len() implies #[trigger] d.contains_key(next@[i].0) by {
                assert(next@.contains(next@[i]));
                assert(old_list.contains(next@[i]));
                let j = choose|j: int| 0 <= j < old_list.len() && old_list[j] == next@[i];
                assert(old(vault).token_decimals@.contains_key(old_list[j].0));
            }
            assert forall|k: u64| #[trigger] d.contains_key(k) implies next@.contains(Addr(k)) by {
                assert(old(vault).token_decimals@.contains_key(k));
            }
        }
    }
    vault.accepted_tokens = next;
    Ok(())
}

/// The accepted tokens with their decimals, in registration order,
/// skipping listed tokens whose decimals were removed.
pub open spec fn accepted_listing(list: Seq<Addr>, decimals: Map<u64, u32>) -> Seq<AcceptedToken>
    decreases list.len(),
{
    if list.len() == 0 {
        Seq::empty()
    } else {
        let rest = accepted_listing(list.drop_last(), decimals);
        let t = list.last();
        if decimals.contains_key(t.0) {
            rest.push(AcceptedToken { token: t, decimals: decimals[t.0] })
        } else {
            rest
        }
    }
}

/// Lists the accepted tokens with their decimals.
pub fn list_accepted_tokens(vault: &VaultState) -> (out: Vec<AcceptedToken>)
    ensures
        out@ == accepted_listing(vault.accepted_tokens@, vault.token_decimals@),
{
    let mut out: Vec<AcceptedToken> = Vec::new();
    let mut i: usize = 0;
    let ghost list = vault.accepted_tokens@;
    while i < vault.accepted_tokens.len()
        invariant
            list == vault.accepted_tokens@,
            0 <= i <= list.len(),
            out@ == accepted_listing(list.subrange(0, i as int), vault.token_decimals@),
        decreases list.len() - i,
    {
        let t = vault.accepted_tokens[i];
        assert(list.subrange(0, i + 1).drop_last() == list.subrange(0, i as int));
        if let Some(d) = vault.token_decimals.get(&t.0) {
            out.push(AcceptedToken { token: t, decimals: *d });
        }
        i = i + 1;
    }
    assert(list.subrange(0, list.len() as int) == list);
    out
}

/// What a batch charge reports for one charge outcome.
pub open spec fn batch_entry(outcome: Result<ChargeExecutionResult, Error>) -> BatchChargeResult {
    match outcome {
        Ok(ChargeExecutionResult::Charged) => BatchChargeResult { success: true, error_code: 0 },
        Ok(ChargeExecutionResult::InsufficientBalance) => BatchChargeResult {
            success: false,
            error_code: error_code(Error::InsufficientBalance),
        },
        Ok(ChargeExecutionResult::LifetimeCapReached) => BatchChargeResult {
            success: false,
            error_code: error_code(Error::LifetimeCapReached),
        },
        Err(e) => BatchChargeResult { success: false, error_code: error_code(e) },
    }
}

/// Turns the outcomes of charging each subscription of a batch, in order,
/// into the per-subscription report.
pub fn execute_batch_charge(outcomes: &Vec<Result<ChargeExecutionResult, Error>>) -> (results: Vec<BatchChargeResult>)
    ensures
        results@.len() == outcomes@.len(),
        forall|i: int| 0 <= i < outcomes@.len() ==> #[trigger] results@[i] == batch_entry(outcomes@[i]),
{
    let mut results: Vec<BatchChargeResult> = Vec::new();
    let mut i: usize = 0;
    while i < outcomes.len()
        invariant
            0 <= i <= outcomes@.len(),
            results@.len() == i,
            forall|j: int| 0 <= j < i ==> #[trigger] results@[j] == batch_entry(outcomes@[j]),
        decreases outcomes@.len() - i,
    {
        let res = match &outcomes[i] {
            Ok(ChargeExecutionResult::Charged) => BatchChargeResult { success: true, error_code: 0 },
            Ok(ChargeExecutionResult::InsufficientBalance) => BatchChargeResult {
                success: false,
                error_code: Error::InsufficientBalance.to_code(),
            },
            Ok(ChargeExecutionResult::LifetimeCapReached) => BatchChargeResult {
                success: false,
                error_code: Error::LifetimeCapReached.to_code(),
            },
            Err(e) => BatchChargeResult { success: false, error_code: e.to_code() },
        };
        results.push(res);
        i = i + 1;
    }
    results
}

/// Hands the admin role to `new_admin`. Only the current admin may do so;
/// `nonce_check` is the outcome of consuming the caller's admin-rotation
/// nonce. Rotating to oneself or to the contract itself is refused.
pub fn do_rotate_admin(
    vault: &mut VaultState,
    current_contract: Addr,
    current_admin: Addr,
    new_admin: Addr,
    nonce_check: Result<(), Error>,
) -> (r: Result<(), Error>)
    ensures
        admin_check(old(vault).config, current_admin) is Err ==> r == admin_check(old(vault).config, current_admin),
        admin_check(old(vault).config, current_admin) is Ok && nonce_check is Err ==> r == nonce_check,
        admin_check(old(vault).config, current_admin) is Ok && nonce_check is Ok && new_admin == current_admin
            ==> r == Err::<(), Error>(Error::SelfRotation),
        admin_check(old(vault).config, current_admin) is Ok && nonce_check is Ok && new_admin != current_admin
            && new_admin == current_contract ==> r == Err::<(), Error>(Error::InvalidNewAdmin),
        r is Err ==> *final(vault) == *old(vault),
        admin_check(old(vault).config, current_admin) is Ok && nonce_check is Ok && new_admin != current_admin
            && new_admin != current_contract ==> {
            &&& r is Ok
            &&& config_written(old(vault).config, final(vault).config, ConfigKey::Admin, ConfigValue::Address(new_admin))
            &&& final(vault).grace_period == old(vault).grace_period
            &&& final(vault).accepted_tokens@ == old(vault).accepted_tokens@
            &&& final(vault).token_decimals@ == old(vault).token_decimals@
            &&& final(vault).recovered_ids@ == old(vault).recovered_ids@
        },
{
    require_admin_auth(vault, current_admin)?;
    nonce_check?;
    if new_admin == current_admin {
        return Err(Error::SelfRotation);
    }
    if new_admin == current_contract {
        return Err(Error::InvalidNewAdmin);
    }
    write_config(&mut vault.config, ConfigKey::Admin, ConfigValue::Address(new_admin));
    Ok(())
}

/// The outcome of a recovery of stranded funds: tokens the contract holds
/// beyond what its books account for.
pub open spec fn recovery_outcome(
    store: ConfigStore,
    recovered: Set<u64>,
    admin: Addr,
    recovery_id: u64,
    amount: i128,
    contract_balance: i128,
    accounted_balance: i128,
) -> Result<(), Error> {
    if admin_check(store, admin) is Err {
        admin_check(store, admin)
    } else if amount <= 0 {
        Err(Error::InvalidRecoveryAmount)
    } else if recovered.contains(recovery_id) {
        Err(Error::Replay)
    } else if !(i128::MIN <= contract_balance - accounted_balance <= i128::MAX) {
        Err(Error::Underflow)
    } else if amount > contract_balance - accounted_balance {
        Err(Error::InsufficientBalance)
    } else {
        Ok(())
    }
}

/// Executes a recovery of stranded funds under `recovery_id`. Admin only;
/// `contract_balance` is the contract's token balance and
/// `accounted_balance` what the books hold for the token. Each recovery id
/// succeeds at most once: on `Ok` the id is recorded as executed (the
/// caller then transfers `amount`), and a recorded id is refused as a
/// replay. Nothing changes on error.
pub fn do_recover_stranded_funds(
    vault: &mut VaultState,
    admin: Addr,
    recovery_id: u64,
    amount: i128,
    contract_balance: i128,
    accounted_balance: i128,
) -> (r: Result<(), Error>)
    ensures
        r == recovery_outcome(
            old(vault).config,
            old(vault).recovered_ids@,
            admin,
            recovery_id,
            amount,
            contract_balance,
            accounted_balance,
        ),
        r is Err ==> *final(vault) == *old(vault),
        r is Ok ==> {
            &&& final(vault).recovered_ids@ == old(vault).recovered_ids@.insert(recovery_id)
            &&& final(vault).config == old(vault).config
            &&& final(vault).grace_period == old(vault).grace_period
            &&& final(vault).accepted_tokens@ == old(vault).accepted_tokens@
            &&& final(vault).token_decimals@ == old(vault).token_decimals@
        },
{
    require_admin_auth(vault, admin)?;
    if amount <= 0 {
        return Err(Error::InvalidRecoveryAmount);
    }
    if vault.recovered_ids.contains(&recovery_id) {
        return Err(Error::Replay);
    }
    let recoverable = match contract_balance.checked_sub(accounted_balance) {
        Some(v) => v,
        None => return Err(Error::Underflow),
    };
    if amount > recoverable {
        return Err(Error::InsufficientBalance);
    }
    vault.recovered_ids.insert(recovery_id);
    Ok(())
}

/// Each recovery id succeeds at most once: once an id is recorded as
/// executed, every later recovery under it fails, and with a valid admin
/// and a positive amount it fails as a replay.
pub proof fn lemma_recovery_id_used_once(
    store: ConfigStore,
    recovered: Set<u64>,
    admin: Addr,
    recovery_id: u64,
    amount: i128,
    contract_balance: i128,
    accounted_balance: i128,
)
    requires
        recovered.contains(recovery_id),
    ensures
        recovery_outcome(store, recovered, admin, recovery_id, amount, contract_balance, accounted_balance) is Err,
        admin_check(store, admin) is Ok && amount > 0 ==> recovery_outcome(
            store,
            recovered,
            admin,
            recovery_id,
            amount,
            contract_balance,
            accounted_balance,
        ) == Err::<(), Error>(Error::Replay),
{
}

/// Sets the protocol fee (basis points, at most 10 000; 0 disables it) and
/// the treasury that receives it. Admin only; the contract itself cannot be
/// the treasury.
pub fn set_protocol_fee(
    vault: &mut VaultState,
    current_contract: Addr,
    admin: Addr,
    treasury: Addr,
    fee_bps: u32,
) -> (r: Result<(), Error>)
    ensures
        treasury == current_contract ==> r == Err::<(), Error>(Error::InvalidInput),
        treasury != current_contract && admin_check(old(vault).config, admin) is Err
            ==> r == admin_check(old(vault).config, admin),
        treasury != current_contract && admin_check(old(vault).config, admin) is Ok && fee_bps > MAX_PROTOCOL_FEE_BPS
            ==> r == Err::<(), Error>(Error::InvalidInput),
        r is Err ==> *final(vault) == *old(vault),
        treasury != current_contract && admin_check(old(vault).config, admin) is Ok && fee_bps <= MAX_PROTOCOL_FEE_BPS
            ==> {
            &&& r is Ok
            &&& exists|mid: ConfigStore|
                config_written(old(vault).config, mid, ConfigKey::FeeBps, ConfigValue::Count(fee_bps))
                    && config_written(mid, final(vault).config, ConfigKey::Treasury, ConfigValue::Address(treasury))
            &&& final(vault).grace_period == old(vault).grace_period
            &&& final(vault).accepted_tokens@ == old(vault).accepted_tokens@
            &&& final(vault).token_decimals@ == old(vault).token_decimals@
            &&& final(vault).recovered_ids@ == old(vault).recovered_ids@
        },
{
    reject_contract_self(current_contract, treasury)?;
    require_admin_auth(vault, admin)?;
    if fee_bps > MAX_PROTOCOL_FEE_BPS {
        return Err(Error::InvalidInput);
    }
    let ghost before = vault.config;
    write_config(&mut vault.config, ConfigKey::FeeBps, ConfigValue::Count(fee_bps));
    let ghost mid = vault.config;
    write_config(&mut vault.config, ConfigKey::Treasury, ConfigValue::Address(treasury));
    assert(config_written(before, mid, ConfigKey::FeeBps, ConfigValue::Count(fee_bps)));
    Ok(())
}

/// The protocol fee in basis points (0 when disabled or unset).
pub fn get_protocol_fee_bps(vault: &VaultState) -> (r: u32)
    ensures
        r == match config_read(vault.config, ConfigKey::FeeBps) {
            Some(ConfigValue::Count(b)) => b,
            _ => 0,
        },
{
    match read_config(&vault.config, ConfigKey::FeeBps) {
        Some(ConfigValue::Count(b)) => b,
        _ => 0,
    }
}

/// The treasury address, if one was set.
pub fn get_treasury(vault: &VaultState) -> (r: Option<Addr>)
    ensures
        r == match config_read(vault.config, ConfigKey::Treasury) {
            Some(ConfigValue::Address(a)) => Some(a),
            _ => None,
        },
{
    match read_config(&vault.config, ConfigKey::Treasury) {
        Some(ConfigValue::Address(a)) => Some(a),
        _ => None,
    }
}

/// Moves the configuration into the long-lived tier (schema version 3).
/// Admin only; refused when the stored schema is newer than 3.
pub fn migrate_config_to_persistent(vault: &mut VaultState, admin: Addr, now: u64) -> (r: Result<SchemaMigratedEvent, Error>)
    ensures
        admin_check(old(vault).config, admin) is Err ==> r == Err::<SchemaMigratedEvent, Error>(admin_check(old(vault).config, admin)->Err_0),
        admin_check(old(vault).config, admin) is Ok && schema_version_of(old(vault).config) > 3
            ==> r == Err::<SchemaMigratedEvent, Error>(Error::SchemaMigrationDowngrade),
        r is Err ==> *final(vault) == *old(vault),
        admin_check(old(vault).config, admin) is Ok && schema_version_of(old(vault).config) <= 3 ==> {
            &&& r == Ok::<SchemaMigratedEvent, Error>(SchemaMigratedEvent {
                admin,
                from_version: schema_version_of(old(vault).config),
                to_version: 3,
                timestamp: now,
            })
            &&& migrated_store_spec(old(vault).config, final(vault).config)
            &&& final(vault).grace_period == old(vault).grace_period
            &&& final(vault).accepted_tokens@ == old(vault).accepted_tokens@
            &&& final(vault).token_decimals@ == old(vault).token_decimals@
            &&& final(vault).recovered_ids@ == old(vault).recovered_ids@
        },
{
    require_admin_auth(vault, admin)?;
    let stored_version = get_schema_version(&vault.config);
    if stored_version > 3 {
        return Err(Error::SchemaMigrationDowngrade);
    }
    do_migrate_config_to_persistent_internal(&mut vault.config)?;
    Ok(SchemaMigratedEvent { admin, from_version: stored_version, to_version: 3, timestamp: now })
}

/// The configuration after a successful forward migration from the stored
/// schema version to `binary_version`: the key move runs when the upgrade
/// crosses from version 2 to 3, and the new version is then recorded (in
/// the long-lived tier from version 3 on, in the legacy tier before).
pub open spec fn migrated_to_version(before: ConfigStore, after: ConfigStore, binary_version: u32) -> bool {
    let crosses = schema_version_of(before) <= 2 && binary_version > 2;
    &&& forall|k: ConfigKey| #![trigger after.persistent.lookup(k)] #![trigger after.instance.lookup(k)]
        is_migrated_key(k) ==> if crosses {
            &&& after.persistent.lookup(k) == if before.instance.lookup(k) is Some {
                before.instance.lookup(k)
            } else {
                before.persistent.lookup(k)
            }
            &&& after.instance.lookup(k) is None
        } else {
            &&& after.persistent.lookup(k) == before.persistent.lookup(k)
            &&& after.instance.lookup(k) == before.instance.lookup(k)
        }
    &&& binary_version >= 3 ==> after.persistent.schema_version == Some(binary_version)
        && after.instance.schema_version is None
    &&& binary_version < 3 ==> after.instance.schema_version == Some(binary_version)
        && after.persistent.schema_version == before.persistent.schema_version
}

/// Migrates the stored schema forward to `binary_version`. Admin only;
/// refused when the stored version is newer than the binary; a no-op when
/// they are equal.
pub fn do_migrate(vault: &mut VaultState, admin: Addr, binary_version: u32, now: u64) -> (r: Result<
    Option<SchemaMigratedEvent>,
    Error,
>)
    ensures
        admin_check(old(vault).config, admin) is Err ==> r == Err::<Option<SchemaMigratedEvent>, Error>(admin_check(old(vault).config, admin)->Err_0),
        admin_check(old(vault).config, admin) is Ok && schema_version_of(old(vault).config) > binary_version
            ==> r == Err::<Option<SchemaMigratedEvent>, Error>(Error::SchemaMigrationDowngrade),
        r is Err ==> *final(vault) == *old(vault),
        admin_check(old(vault).config, admin) is Ok && schema_version_of(old(vault).config) == binary_version
            ==> r == Ok::<Option<SchemaMigratedEvent>, Error>(None) && *final(vault) == *old(vault),
        admin_check(old(vault).config, admin) is Ok && schema_version_of(old(vault).config) < binary_version ==> {
            &&& r == Ok::<Option<SchemaMigratedEvent>, Error>(Some(SchemaMigratedEvent {
                admin,
                from_version: schema_version_of(old(vault).config),
                to_version: binary_version,
                timestamp: now,
            }))
            &&& migrated_to_version(old(vault).config, final(vault).config, binary_version)
            &&& final(vault).grace_period == old(vault).grace_period
            &&& final(vault).accepted_tokens@ == old(vault).accepted_tokens@
            &&& final(vault).token_decimals@ == old(vault).token_decimals@
            &&& final(vault).recovered_ids@ == old(vault).recovered_ids@
        },
{
    require_admin_auth(vault, admin)?;
    let stored_version = get_schema_version(&vault.config);
    if stored_version > binary_version {
        return Err(Error::SchemaMigrationDowngrade);
    }
    if stored_version == binary_version {
        return Ok(None);
    }
    let ghost before = vault.config;
    let ghost whole = *vault;
    let mut current = stored_version;
    while current < binary_version
        invariant
            vault.grace_period == whole.grace_period,
            vault.accepted_tokens@ == whole.accepted_tokens@,
            vault.token_decimals@ == whole.token_decimals@,
            vault.recovered_ids@ == whole.recovered_ids@,
            stored_version == schema_version_of(before),
            stored_version < binary_version,
            stored_version <= current,
            current <= 2 ==> vault.config == before,
            current > 2 && stored_version <= 2 ==> migrated_store_spec(before, vault.config),
            stored_version > 2 ==> vault.config == before,
            binary_version <= 2 ==> current <= 2,
            current <= binary_version + 2,
        decreases binary_version + 3 - current,
    {
        if current < 2 {
            current = 2;
        } else if current == 2 {
            do_migrate_config_to_persistent_internal(&mut vault.config)?;
            current = 3;
        } else {
            current = current + 1;
        }
    }
    let ghost mid = vault.config;
    assert(stored_version <= 2 && binary_version > 2 ==> migrated_store_spec(before, mid));
    assert(!(stored_version <= 2 && binary_version > 2) ==> mid == before);
    if binary_version >= 3 {
        vault.config.persistent.set(ConfigKey::SchemaVersion, ConfigValue::Count(binary_version));
        vault.config.instance.remove(ConfigKey::SchemaVersion);
    } else {
        vault.config.instance.set(ConfigKey::SchemaVersion, ConfigValue::Count(binary_version));
    }
    assert forall|k: ConfigKey| is_migrated_key(k) implies vault.config.persistent.lookup(k) == mid.persistent.lookup(k)
        && vault.config.instance.lookup(k) == mid.instance.lookup(k) by {}
    assert(migrated_to_version(before, vault.config, binary_version));
    Ok(Some(SchemaMigratedEvent { admin, from_version: stored_version, to_version: binary_version, timestamp: now }))
}

/// A forward migration leaves the stored schema version at the binary's
/// version, so running the same migration again is a no-op. This needs the
/// long-lived tier to hold no version below 3 when the target is below 3
/// (reads would keep preferring that stale entry).
pub proof fn lemma_migration_reaches_binary_version(before: ConfigStore, after: ConfigStore, binary_version: u32)
    requires
        migrated_to_version(before, after, binary_version),
        binary_version >= 3 || before.persistent.schema_version is None,
    ensures
        schema_version_of(after) == binary_version,
{
}

} // verus!
