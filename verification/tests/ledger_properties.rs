use erc20::{AccountId, StorageKey, TokenError, ERC20};

fn acct(s: &str) -> AccountId {
    AccountId::new(s.to_string())
}

/// A ledger born with supply zero: every balance starts at zero.
fn empty_ledger() -> ERC20 {
    ERC20::init(
        "FUN COIN".to_string(),
        "FUNC".to_string(),
        18,
        0,
        acct("treasury.testnet"),
    )
}

#[test]
fn metadata_is_fixed_at_creation() {
    let ledger = empty_ledger();
    assert_eq!(ledger.name(), "FUN COIN");
    assert_eq!(ledger.symbol(), "FUNC");
    assert_eq!(ledger.decimals(), 18u8);
    assert_eq!(ledger.total_supply(), 0u128);
}

#[test]
fn init_mints_the_initial_supply_to_the_owner() {
    let ledger = ERC20::init(
        "FUN COIN".to_string(),
        "FUNC".to_string(),
        18,
        500,
        acct("treasury.testnet"),
    );
    assert_eq!(ledger.total_supply(), 500u128);
    assert_eq!(ledger.balance_of(acct("treasury.testnet")), 500u128);
    assert_eq!(ledger.balance_of(acct("alice.testnet")), 0u128);
}

#[test]
fn absent_account_has_zero_balance_and_allowance() {
    let ledger = empty_ledger();
    assert_eq!(ledger.balance_of(acct("nobody.testnet")), 0u128);
    assert_eq!(
        ledger.allowance(acct("nobody.testnet"), acct("alice.testnet")),
        0u128
    );
}

#[test]
fn mint_increases_supply_and_balance_exactly() {
    let mut ledger = empty_ledger();
    ledger.mint(acct("alice.testnet"), 70).expect("supply cap is far away");
    ledger.mint(acct("bob.testnet"), 5).expect("supply cap is far away");
    assert_eq!(ledger.total_supply(), 75u128);
    assert_eq!(ledger.balance_of(acct("alice.testnet")), 70u128);
    assert_eq!(ledger.balance_of(acct("bob.testnet")), 5u128);
}

#[test]
fn mint_overflow_aborts_without_any_write() {
    let mut ledger = empty_ledger();
    ledger.mint(acct("alice.testnet"), u128::MAX).expect("the cap itself still fits");
    let r = ledger.mint(acct("bob.testnet"), 1);
    assert_eq!(r, Err(TokenError::Overflow));
    assert_eq!(ledger.total_supply(), u128::MAX);
    assert_eq!(ledger.balance_of(acct("alice.testnet")), u128::MAX);
    assert_eq!(ledger.balance_of(acct("bob.testnet")), 0u128);
}

#[test]
fn burn_decreases_supply_and_balance_exactly() {
    let mut ledger = empty_ledger();
    ledger.mint(acct("alice.testnet"), 100).expect("supply cap is far away");
    ledger.burn(acct("alice.testnet"), 40).expect("alice holds enough to burn");
    assert_eq!(ledger.total_supply(), 60u128);
    assert_eq!(ledger.balance_of(acct("alice.testnet")), 60u128);
}

#[test]
fn burn_of_zero_aborts() {
    let mut ledger = empty_ledger();
    ledger.mint(acct("alice.testnet"), 10).expect("supply cap is far away");
    let r = ledger.burn(acct("alice.testnet"), 0);
    assert_eq!(r, Err(TokenError::ZeroAmount));
    assert_eq!(ledger.balance_of(acct("alice.testnet")), 10u128);
    assert_eq!(ledger.total_supply(), 10u128);
}

#[test]
fn burn_beyond_balance_aborts_without_any_write() {
    let mut ledger = empty_ledger();
    ledger.mint(acct("alice.testnet"), 10).expect("supply cap is far away");
    let r = ledger.burn(acct("alice.testnet"), 11);
    assert_eq!(r, Err(TokenError::InsufficientBalance));
    assert_eq!(ledger.balance_of(acct("alice.testnet")), 10u128);
    assert_eq!(ledger.total_supply(), 10u128);
}

#[test]
fn failed_transfer_leaves_both_balances_unchanged() {
    let mut ledger = empty_ledger();
    ledger.mint(acct("alice.testnet"), 10).expect("supply cap is far away");
    let r = ledger.transfer(acct("alice.testnet"), acct("bob.testnet"), 11);
    assert_eq!(r, Err(TokenError::InsufficientBalance));
    assert_eq!(ledger.balance_of(acct("alice.testnet")), 10u128);
    assert_eq!(ledger.balance_of(acct("bob.testnet")), 0u128);
}

#[test]
fn self_transfer_is_a_no_op_on_the_balance() {
    let mut ledger = empty_ledger();
    ledger.mint(acct("alice.testnet"), 10).expect("supply cap is far away");
    ledger
        .transfer(acct("alice.testnet"), acct("alice.testnet"), 7)
        .expect("alice holds enough for the self-transfer");
    assert_eq!(ledger.balance_of(acct("alice.testnet")), 10u128);
    assert_eq!(ledger.total_supply(), 10u128);
}

#[test]
fn conservation_across_transfers_and_approvals() {
    let mut ledger = empty_ledger();
    ledger.mint(acct("alice.testnet"), 1000).expect("supply cap is far away");
    ledger
        .transfer(acct("alice.testnet"), acct("bob.testnet"), 400)
        .expect("alice holds enough");
    ledger.approve(acct("bob.testnet"), acct("carol.testnet"), 100);
    ledger
        .transfer_from(acct("carol.testnet"), acct("bob.testnet"), acct("dave.testnet"), 90)
        .expect("balance and allowance both cover the move");
    let sum = ledger.balance_of(acct("alice.testnet"))
        + ledger.balance_of(acct("bob.testnet"))
        + ledger.balance_of(acct("carol.testnet"))
        + ledger.balance_of(acct("dave.testnet"));
    assert_eq!(sum, 1000u128);
    assert_eq!(ledger.total_supply(), 1000u128);
}

#[test]
fn allowance_is_debited_by_exactly_the_moved_amount() {
    let mut ledger = empty_ledger();
    ledger.mint(acct("alice.testnet"), 100).expect("supply cap is far away");
    ledger.approve(acct("alice.testnet"), acct("bob.testnet"), 60);
    ledger
        .transfer_from(acct("bob.testnet"), acct("alice.testnet"), acct("carol.testnet"), 25)
        .expect("balance and allowance both cover the move");
    assert_eq!(
        ledger.allowance(acct("alice.testnet"), acct("bob.testnet")),
        35u128
    );
}

#[test]
fn approve_overwrites_instead_of_adding() {
    let mut ledger = empty_ledger();
    ledger.approve(acct("alice.testnet"), acct("bob.testnet"), 7);
    ledger.approve(acct("alice.testnet"), acct("bob.testnet"), 3);
    assert_eq!(ledger.allowance(acct("alice.testnet"), acct("bob.testnet")), 3u128);
}

#[test]
fn transfer_from_insufficient_balance_reports_the_balance_first() {
    let mut ledger = empty_ledger();
    ledger.mint(acct("alice.testnet"), 10).expect("supply cap is far away");
    ledger.approve(acct("alice.testnet"), acct("bob.testnet"), 100);
    let r = ledger.transfer_from(
        acct("bob.testnet"),
        acct("alice.testnet"),
        acct("carol.testnet"),
        11,
    );
    assert_eq!(r, Err(TokenError::InsufficientBalance));
    assert_eq!(ledger.balance_of(acct("alice.testnet")), 10u128);
    assert_eq!(
        ledger.allowance(acct("alice.testnet"), acct("bob.testnet")),
        100u128
    );
}

#[test]
fn storage_keys_name_the_two_tables() {
    assert_eq!(StorageKey::Balance, StorageKey::Balance);
    assert_ne!(StorageKey::Balance, StorageKey::Allowed);
}

#[test]
fn full_scenario_from_an_empty_ledger() {
    let mut ledger = empty_ledger();

    ledger.mint(acct("alice.testnet"), 100).expect("supply cap is far away");
    assert_eq!(ledger.balance_of(acct("alice.testnet")), 100u128);
    assert_eq!(ledger.total_supply(), 100u128);

    ledger
        .transfer(acct("alice.testnet"), acct("bob.testnet"), 30)
        .expect("alice holds 100");
    assert_eq!(ledger.balance_of(acct("alice.testnet")), 70u128);
    assert_eq!(ledger.balance_of(acct("bob.testnet")), 30u128);

    ledger.approve(acct("alice.testnet"), acct("carol.testnet"), 50);
    ledger
        .transfer_from(acct("carol.testnet"), acct("alice.testnet"), acct("dave.testnet"), 40)
        .expect("alice holds 70 and carol may move 50");
    assert_eq!(ledger.balance_of(acct("alice.testnet")), 30u128);
    assert_eq!(ledger.balance_of(acct("dave.testnet")), 40u128);
    assert_eq!(
        ledger.allowance(acct("alice.testnet"), acct("carol.testnet")),
        10u128
    );

    ledger.burn(acct("bob.testnet"), 30).expect("bob holds exactly 30");
    assert_eq!(ledger.balance_of(acct("bob.testnet")), 0u128);
    assert_eq!(ledger.total_supply(), 70u128);

    let r = ledger.burn(acct("bob.testnet"), 1);
    assert_eq!(r, Err(TokenError::InsufficientBalance));
    assert_eq!(ledger.balance_of(acct("bob.testnet")), 0u128);
    assert_eq!(ledger.total_supply(), 70u128);
}
