use amm_dex::error::AmmError;
use amm_dex::instructions::deposit::Deposit;
use amm_dex::instructions::update::Update;
use amm_dex::state::{Config, Pubkey};

fn key_of(byte: u8) -> Pubkey {
    Pubkey { bytes: [byte; 32] }
}

fn record_with_authority(authority: Option<Pubkey>) -> Config {
    Config::new(7, authority, key_of(1), key_of(2), 30, 254, 253).unwrap()
}

#[test]
fn keys_compare_byte_by_byte() {
    let mut bytes = [9u8; 32];
    assert!(Pubkey { bytes } == key_of(9));
    bytes[31] = 8;
    assert!(Pubkey { bytes } != key_of(9));
    bytes[31] = 9;
    bytes[0] = 0;
    assert!(Pubkey { bytes } != key_of(9));
}

#[test]
fn new_record_starts_unlocked() {
    let config = Config::new(7, Some(key_of(3)), key_of(1), key_of(2), 30, 254, 253).unwrap();
    assert_eq!(
        config,
        Config {
            seed: 7,
            authority: Some(key_of(3)),
            mint_x: key_of(1),
            mint_y: key_of(2),
            fee: 30,
            locked: false,
            config_bump: 254,
            lp_bump: 253,
        }
    );
    assert!(Config::new(7, None, key_of(1), key_of(2), 0, 0, 0).is_ok());
    assert!(Config::new(7, None, key_of(1), key_of(2), 9_999, 0, 0).is_ok());
}

#[test]
fn new_record_refuses_a_fee_of_the_whole() {
    assert_eq!(Config::new(7, None, key_of(1), key_of(2), 10_000, 0, 0), Err(AmmError::InvalidFee));
    assert_eq!(Config::new(7, None, key_of(1), key_of(2), u16::MAX, 0, 0), Err(AmmError::InvalidFee));
}

#[test]
fn lock_by_authority() {
    let config = record_with_authority(Some(key_of(3)));
    let mut request = Update { user: key_of(3), config };
    assert_eq!(request.lock(), Ok(()));
    assert_eq!(request.config, Config { locked: true, ..config });
    assert_eq!(request.user, key_of(3));
}

#[test]
fn lock_by_another_caller() {
    let config = record_with_authority(Some(key_of(3)));
    let mut request = Update { user: key_of(4), config };
    assert_eq!(request.lock(), Err(AmmError::InvalidAuthority));
    assert_eq!(request.config, config);
    assert_eq!(request.unlock(), Err(AmmError::InvalidAuthority));
    assert_eq!(request.config, config);
}

#[test]
fn lock_without_authority_is_closed_to_all() {
    let config = record_with_authority(None);
    for byte in [0u8, 1, 3, 255] {
        let mut request = Update { user: key_of(byte), config };
        assert_eq!(request.lock(), Err(AmmError::InvalidAuthority));
        assert_eq!(request.unlock(), Err(AmmError::InvalidAuthority));
        assert_eq!(request.config, config);
    }
}

#[test]
fn lock_twice_is_lock_once() {
    let config = record_with_authority(Some(key_of(3)));
    let mut once = Update { user: key_of(3), config };
    assert_eq!(once.lock(), Ok(()));
    let mut twice = once;
    assert_eq!(twice.lock(), Ok(()));
    assert_eq!(twice, once);
}

#[test]
fn unlock_twice_is_unlock_once() {
    let config = Config { locked: true, ..record_with_authority(Some(key_of(3))) };
    let mut once = Update { user: key_of(3), config };
    assert_eq!(once.unlock(), Ok(()));
    assert!(!once.config.locked);
    let mut twice = once;
    assert_eq!(twice.unlock(), Ok(()));
    assert_eq!(twice, once);
}

#[test]
fn unlock_undoes_lock() {
    let config = record_with_authority(Some(key_of(3)));
    let mut request = Update { user: key_of(3), config };
    assert_eq!(request.lock(), Ok(()));
    assert_eq!(request.unlock(), Ok(()));
    assert_eq!(request.config, config);
    assert_eq!(request.lock(), Ok(()));
    assert!(request.config.locked);
}

#[test]
fn lock_then_deposit_is_refused() {
    let config = record_with_authority(Some(key_of(3)));
    let mut stranger = Update { user: key_of(4), config };
    assert_eq!(stranger.lock(), Err(AmmError::InvalidAuthority));
    let mut open = Deposit { config: stranger.config, vault_x: 0, vault_y: 0, mint_lp: 0 };
    assert!(open.deposit(500, 500, 500).is_ok());

    let mut authority = Update { user: key_of(3), config };
    assert_eq!(authority.lock(), Ok(()));
    let mut pool = Deposit { config: authority.config, vault_x: 0, vault_y: 0, mint_lp: 0 };
    assert_eq!(pool.deposit(500, 500, 500), Err(AmmError::PoolLocked));
    assert_eq!(pool, Deposit { config: authority.config, vault_x: 0, vault_y: 0, mint_lp: 0 });
}
