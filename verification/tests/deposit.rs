use amm_dex::error::AmmError;
use amm_dex::instructions::deposit::{Deposit, DepositResult};
use amm_dex::state::{Config, Pubkey};

fn open_record() -> Config {
    Config::new(1, None, Pubkey { bytes: [1; 32] }, Pubkey { bytes: [2; 32] }, 30, 255, 254).unwrap()
}

fn pool_holding(vault_x: u64, vault_y: u64, mint_lp: u64) -> Deposit {
    Deposit { config: open_record(), vault_x, vault_y, mint_lp }
}

#[test]
fn first_deposit_sets_the_reserves() {
    let mut pool = pool_holding(0, 0, 0);
    assert_eq!(pool.deposit(500, 500, 500), Ok(DepositResult { x: 500, y: 500, lp: 500 }));
    assert_eq!(pool, pool_holding(500, 500, 500));
}

#[test]
fn first_deposit_sets_any_price() {
    let mut pool = pool_holding(0, 0, 0);
    assert_eq!(pool.deposit(7, u64::MAX, 1), Ok(DepositResult { x: u64::MAX, y: 1, lp: 7 }));
    assert_eq!(pool, pool_holding(u64::MAX, 1, 7));
}

#[test]
fn later_deposit_pays_its_share() {
    let mut pool = pool_holding(1000, 2001, 500);
    assert_eq!(pool.deposit(1, 2, 5), Ok(DepositResult { x: 2, y: 5, lp: 1 }));
    assert_eq!(pool, pool_holding(1002, 2006, 501));
    assert_eq!(pool.deposit(100, 1000, 1000), Ok(DepositResult { x: 200, y: 401, lp: 100 }));
    assert_eq!(pool, pool_holding(1202, 2407, 601));
}

#[test]
fn deposit_into_locked_pool() {
    let mut pool = pool_holding(1000, 2000, 500);
    pool.config.locked = true;
    let before = pool;
    assert_eq!(pool.deposit(1, 10, 10), Err(AmmError::PoolLocked));
    assert_eq!(pool.deposit(0, 10, 10), Err(AmmError::PoolLocked));
    assert_eq!(pool, before);
}

#[test]
fn deposit_of_nothing() {
    let mut pool = pool_holding(1000, 2000, 500);
    assert_eq!(pool.deposit(0, 10, 10), Err(AmmError::InvalidAmount));
    assert_eq!(pool, pool_holding(1000, 2000, 500));
    let mut empty = pool_holding(0, 0, 0);
    assert_eq!(empty.deposit(0, 10, 10), Err(AmmError::InvalidAmount));
    assert_eq!(empty, pool_holding(0, 0, 0));
}

#[test]
fn deposit_above_a_limit() {
    let mut pool = pool_holding(1000, 2001, 500);
    assert_eq!(pool.deposit(1, 1, 5), Err(AmmError::SlippageExceeded));
    assert_eq!(pool.deposit(1, 2, 4), Err(AmmError::SlippageExceeded));
    assert_eq!(pool, pool_holding(1000, 2001, 500));
    assert_eq!(pool.deposit(1, 2, 5), Ok(DepositResult { x: 2, y: 5, lp: 1 }));
}

#[test]
fn deposit_into_a_pool_without_ratio() {
    for (vault_x, vault_y, mint_lp) in [(0u64, 5u64, 5u64), (5, 0, 5), (5, 5, 0), (0, 0, 5), (5, 0, 0), (0, 5, 0)] {
        let mut pool = pool_holding(vault_x, vault_y, mint_lp);
        assert_eq!(pool.deposit(1, u64::MAX, u64::MAX), Err(AmmError::CurveError));
        assert_eq!(pool, pool_holding(vault_x, vault_y, mint_lp));
    }
}

#[test]
fn deposit_beyond_a_balance() {
    let mut share = pool_holding(u64::MAX, 1, 1);
    assert_eq!(share.deposit(2, u64::MAX, u64::MAX), Err(AmmError::Overflow));
    assert_eq!(share, pool_holding(u64::MAX, 1, 1));

    let mut vault = pool_holding(u64::MAX - 1, 1, 1);
    assert_eq!(vault.deposit(1, u64::MAX, u64::MAX), Err(AmmError::Overflow));
    assert_eq!(vault, pool_holding(u64::MAX - 1, 1, 1));

    let mut supply = pool_holding(10, 10, u64::MAX);
    assert_eq!(supply.deposit(1, u64::MAX, u64::MAX), Err(AmmError::Overflow));
    assert_eq!(supply, pool_holding(10, 10, u64::MAX));
}

#[test]
fn deposit_never_takes_out() {
    let mut pool = pool_holding(0, 0, 0);
    assert!(pool.deposit(1_000, 3_000, 5_000).is_ok());
    for amount in [1u64, 2, 3, 999, 12_345] {
        let before = pool;
        let moved = pool.deposit(amount, u64::MAX, u64::MAX).unwrap();
        assert!(moved.x > 0 && moved.y > 0);
        assert_eq!(moved.lp, amount);
        assert_eq!(pool.vault_x, before.vault_x + moved.x);
        assert_eq!(pool.vault_y, before.vault_y + moved.y);
        assert_eq!(pool.mint_lp, before.mint_lp + amount);
        assert_eq!(pool.config, before.config);
        assert!(pool.vault_x as u128 * pool.vault_y as u128 > before.vault_x as u128 * before.vault_y as u128);
    }
}

#[test]
fn deposit_tokens_credits_one_vault() {
    let mut pool = pool_holding(10, 20, 30);
    assert_eq!(pool.deposit_tokens(true, 5), Ok(()));
    assert_eq!(pool, pool_holding(15, 20, 30));
    assert_eq!(pool.deposit_tokens(false, 7), Ok(()));
    assert_eq!(pool, pool_holding(15, 27, 30));
    assert_eq!(pool.deposit_tokens(true, u64::MAX - 15), Ok(()));
    assert_eq!(pool, pool_holding(u64::MAX, 27, 30));
}

#[test]
fn deposit_tokens_beyond_a_balance() {
    let mut pool = pool_holding(10, 20, 30);
    assert_eq!(pool.deposit_tokens(true, u64::MAX - 9), Err(AmmError::Overflow));
    assert_eq!(pool.deposit_tokens(false, u64::MAX - 19), Err(AmmError::Overflow));
    assert_eq!(pool, pool_holding(10, 20, 30));
}

#[test]
fn mint_lp_tokens_adds_to_the_supply() {
    let mut pool = pool_holding(10, 20, 30);
    assert_eq!(pool.mint_lp_tokens(12), Ok(()));
    assert_eq!(pool, pool_holding(10, 20, 42));
    assert_eq!(pool.mint_lp_tokens(u64::MAX - 41), Err(AmmError::Overflow));
    assert_eq!(pool, pool_holding(10, 20, 42));
    assert_eq!(pool.mint_lp_tokens(u64::MAX - 42), Ok(()));
    assert_eq!(pool, pool_holding(10, 20, u64::MAX));
}
