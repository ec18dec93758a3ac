use subscription_vault::admin::{
    add_accepted_token, do_get_admin, do_init, do_recover_stranded_funds, do_rotate_admin,
    do_set_grace_period, do_set_min_topup, execute_batch_charge, get_grace_period, get_min_topup,
    get_protocol_fee_bps, get_token, get_token_decimals, get_treasury, is_token_accepted,
    list_accepted_tokens, remove_accepted_token, require_admin,
    require_admin_auth, require_stored_admin_auth, set_protocol_fee, AcceptedToken,
    BatchChargeResult, ChargeExecutionResult, VaultState,
};
use subscription_vault::config::{get_schema_version, ConfigKey};
use subscription_vault::error::Error;
use subscription_vault::types::Addr;

const CONTRACT: Addr = Addr(1);
const ADMIN: Addr = Addr(2);
const TOKEN: Addr = Addr(3);

fn vault() -> VaultState {
    let mut v = VaultState::new();
    do_init(&mut v, CONTRACT, TOKEN, 6, ADMIN, 1_000_000, 604_800).unwrap();
    v
}

#[test]
fn test_add_accepted_token_rejects_contract_self() {
    let mut v = VaultState::new();
    assert_eq!(add_accepted_token(&mut v, CONTRACT, ADMIN, CONTRACT, 6), Err(Error::InvalidInput));
}

#[test]
fn test_set_protocol_fee_rejects_contract_self_as_treasury() {
    let mut v = VaultState::new();
    assert_eq!(set_protocol_fee(&mut v, CONTRACT, ADMIN, CONTRACT, 500), Err(Error::InvalidInput));
}

#[test]
fn init_records_configuration() {
    let v = vault();
    assert_eq!(get_schema_version(&v.config), 3);
    assert_eq!(get_token(&v), Ok(TOKEN));
    assert_eq!(do_get_admin(&v), Ok(ADMIN));
    assert_eq!(get_min_topup(&v), Ok(1_000_000));
    assert_eq!(get_grace_period(&v), Ok(604_800));
    assert_eq!(get_token_decimals(&v, TOKEN), Ok(6));
    assert!(is_token_accepted(&v, TOKEN));
    assert_eq!(list_accepted_tokens(&v), vec![AcceptedToken { token: TOKEN, decimals: 6 }]);
}

#[test]
fn init_errors() {
    let mut v = vault();
    assert_eq!(do_init(&mut v, CONTRACT, TOKEN, 6, ADMIN, 1, 0), Err(Error::AlreadyInitialized));
    let mut v = VaultState::new();
    assert_eq!(do_init(&mut v, CONTRACT, TOKEN, 6, ADMIN, 0, 0), Err(Error::InvalidAmount));
    assert_eq!(do_init(&mut v, CONTRACT, TOKEN, 20, ADMIN, 1, 0), Err(Error::InvalidTokenDecimals));
    assert_eq!(do_init(&mut v, CONTRACT, CONTRACT, 19, ADMIN, 1, 0), Err(Error::InvalidToken));
    assert!(!v.config.persistent.has(ConfigKey::SchemaVersion));
}

#[test]
fn admin_checks() {
    let empty = VaultState::new();
    assert_eq!(require_admin(&empty), Err(Error::NotInitialized));
    assert_eq!(require_stored_admin_auth(&empty), Err(Error::NotInitialized));
    let v = vault();
    assert_eq!(require_admin_auth(&v, ADMIN), Ok(()));
    assert_eq!(require_admin_auth(&v, Addr(77)), Err(Error::Unauthorized));
    assert_eq!(require_stored_admin_auth(&v), Ok(ADMIN));
}

#[test]
fn min_topup_and_grace_period() {
    let mut v = vault();
    assert_eq!(do_set_min_topup(&mut v, Addr(77), 5), Err(Error::Unauthorized));
    assert_eq!(do_set_min_topup(&mut v, ADMIN, 0), Err(Error::InvalidAmount));
    do_set_min_topup(&mut v, ADMIN, 5).unwrap();
    assert_eq!(get_min_topup(&v), Ok(5));
    do_set_grace_period(&mut v, ADMIN, 10).unwrap();
    assert_eq!(get_grace_period(&v), Ok(10));
    assert_eq!(get_grace_period(&VaultState::new()), Ok(0));
    assert_eq!(get_min_topup(&VaultState::new()), Err(Error::NotInitialized));
}

#[test]
fn accepted_token_registry() {
    let mut v = vault();
    add_accepted_token(&mut v, CONTRACT, ADMIN, Addr(4), 7).unwrap();
    add_accepted_token(&mut v, CONTRACT, ADMIN, Addr(5), 9).unwrap();
    add_accepted_token(&mut v, CONTRACT, ADMIN, Addr(4), 8).unwrap();
    assert_eq!(
        list_accepted_tokens(&v),
        vec![
            AcceptedToken { token: TOKEN, decimals: 6 },
            AcceptedToken { token: Addr(4), decimals: 8 },
            AcceptedToken { token: Addr(5), decimals: 9 },
        ]
    );
    assert_eq!(remove_accepted_token(&mut v, ADMIN, TOKEN), Err(Error::InvalidInput));
    assert_eq!(remove_accepted_token(&mut v, Addr(77), Addr(4)), Err(Error::Unauthorized));
    remove_accepted_token(&mut v, ADMIN, Addr(4)).unwrap();
    assert!(!is_token_accepted(&v, Addr(4)));
    assert_eq!(get_token_decimals(&v, Addr(4)), Err(Error::NotFound));
    assert_eq!(
        list_accepted_tokens(&v),
        vec![AcceptedToken { token: TOKEN, decimals: 6 }, AcceptedToken { token: Addr(5), decimals: 9 }]
    );
    assert_eq!(v.accepted_tokens, vec![TOKEN, Addr(5)]);
}

#[test]
fn rotate_admin() {
    let mut v = vault();
    assert_eq!(do_rotate_admin(&mut v, CONTRACT, Addr(77), Addr(8), Ok(())), Err(Error::Unauthorized));
    assert_eq!(do_rotate_admin(&mut v, CONTRACT, ADMIN, Addr(8), Err(Error::Replay)), Err(Error::Replay));
    assert_eq!(do_rotate_admin(&mut v, CONTRACT, ADMIN, ADMIN, Ok(())), Err(Error::SelfRotation));
    assert_eq!(do_rotate_admin(&mut v, CONTRACT, ADMIN, CONTRACT, Ok(())), Err(Error::InvalidNewAdmin));
    assert_eq!(do_get_admin(&v), Ok(ADMIN));
    do_rotate_admin(&mut v, CONTRACT, ADMIN, Addr(8), Ok(())).unwrap();
    assert_eq!(do_get_admin(&v), Ok(Addr(8)));
    assert_eq!(require_admin_auth(&v, ADMIN), Err(Error::Unauthorized));
}

#[test]
fn recover_stranded_funds() {
    let mut v = vault();
    assert_eq!(do_recover_stranded_funds(&mut v, Addr(77), 1, 1, 10, 0), Err(Error::Unauthorized));
    assert_eq!(do_recover_stranded_funds(&mut v, ADMIN, 1, 0, 10, 0), Err(Error::InvalidRecoveryAmount));
    assert_eq!(do_recover_stranded_funds(&mut v, ADMIN, 1, 1, i128::MIN, 1), Err(Error::Underflow));
    assert_eq!(do_recover_stranded_funds(&mut v, ADMIN, 1, 6, 10, 5), Err(Error::InsufficientBalance));
    assert!(v.recovered_ids.is_empty());
    assert_eq!(do_recover_stranded_funds(&mut v, ADMIN, 1, 5, 10, 5), Ok(()));
    assert!(v.recovered_ids.contains(&1));
}

#[test]
fn recovery_id_succeeds_at_most_once() {
    let mut v = vault();
    assert_eq!(do_recover_stranded_funds(&mut v, ADMIN, 42, 5, 100, 0), Ok(()));
    assert_eq!(do_recover_stranded_funds(&mut v, ADMIN, 42, 5, 100, 0), Err(Error::Replay));
    assert_eq!(do_recover_stranded_funds(&mut v, ADMIN, 42, 1, 1000, 0), Err(Error::Replay));
    assert_eq!(do_recover_stranded_funds(&mut v, ADMIN, 43, 5, 100, 0), Ok(()));
}

#[test]
fn protocol_fee() {
    let mut v = vault();
    assert_eq!(get_protocol_fee_bps(&v), 0);
    assert_eq!(get_treasury(&v), None);
    assert_eq!(set_protocol_fee(&mut v, CONTRACT, ADMIN, Addr(9), 10_001), Err(Error::InvalidInput));
    assert_eq!(set_protocol_fee(&mut v, CONTRACT, Addr(77), Addr(9), 10), Err(Error::Unauthorized));
    set_protocol_fee(&mut v, CONTRACT, ADMIN, Addr(9), 10_000).unwrap();
    assert_eq!(get_protocol_fee_bps(&v), 10_000);
    assert_eq!(get_treasury(&v), Some(Addr(9)));
}

#[test]
fn batch_charge_report() {
    let outcomes = vec![
        Ok(ChargeExecutionResult::Charged),
        Ok(ChargeExecutionResult::InsufficientBalance),
        Ok(ChargeExecutionResult::LifetimeCapReached),
        Err(Error::NotFound),
    ];
    let results = execute_batch_charge(&outcomes);
    assert_eq!(
        results,
        vec![
            BatchChargeResult { success: true, error_code: 0 },
            BatchChargeResult { success: false, error_code: Error::InsufficientBalance.to_code() },
            BatchChargeResult { success: false, error_code: Error::LifetimeCapReached.to_code() },
            BatchChargeResult { success: false, error_code: 404 },
        ]
    );
}
