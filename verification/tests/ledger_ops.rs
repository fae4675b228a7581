use erc20::{AccountId, TokenError, ERC20};

const DECIMALS: u8 = 18;
const TOTAL_SUPPLY: u128 = 1_000_000_000;

fn acct(s: &str) -> AccountId {
    AccountId::new(s.to_string())
}

/// A fresh ledger whose initial supply is held by a treasury account that the
/// tests never otherwise touch, so every other account starts at zero.
fn new_contract() -> ERC20 {
    ERC20::init(
        "FUN COIN".to_string(),
        "FUNC".to_string(),
        DECIMALS,
        TOTAL_SUPPLY,
        acct("treasury.testnet"),
    )
}

#[test]
fn test_approve() {
    let mut contract = new_contract();

    contract.approve(acct("nutinaguti.testnet"), acct("test.testnet"), 1);
    let allowance = contract.allowance(acct("nutinaguti.testnet"), acct("test.testnet"));
    assert_eq!(1, allowance);

    contract.approve(acct("nutinaguti.testnet"), acct("test.testnet"), 2);
    let allowance = contract.allowance(acct("nutinaguti.testnet"), acct("test.testnet"));
    assert_eq!(2, allowance);
}

#[test]
fn test_transfer_negative() {
    let mut contract = new_contract();
    let r = contract.transfer(acct("nutinaguti.testnet"), acct("test.testnet"), 1);
    assert_eq!(r, Err(TokenError::InsufficientBalance));
}

#[test]
fn test_transfer_positive() {
    let mut contract = new_contract();
    contract
        .mint(acct("nutinaguti.testnet"), 1)
        .expect("mint fits well under the supply cap");
    contract
        .transfer(acct("nutinaguti.testnet"), acct("test.testnet"), 1)
        .expect("the freshly minted token covers the transfer");
    assert_eq!(0u128, contract.balance_of(acct("nutinaguti.testnet")));
    assert_eq!(1u128, contract.balance_of(acct("test.testnet")));
}

#[test]
fn test_transfer_from_negative() {
    let mut contract = new_contract();
    contract
        .mint(acct("test.testnet"), 1)
        .expect("mint fits well under the supply cap");
    let r = contract.transfer_from(
        acct("nutinaguti.testnet"),
        acct("test.testnet"),
        acct("nutinaguti.testnet"),
        1,
    );
    assert_eq!(r, Err(TokenError::InsufficientAllowance));
}

#[test]
fn test_transfer_from_positive() {
    let mut contract = new_contract();
    contract
        .mint(acct("test.testnet"), 1)
        .expect("mint fits well under the supply cap");

    contract.approve(acct("test.testnet"), acct("nutinaguti.testnet"), 1);

    let r = contract.transfer_from(
        acct("nutinaguti.testnet"),
        acct("test.testnet"),
        acct("nutinaguti.testnet"),
        1,
    );
    assert_eq!(r, Ok(()));
    assert_eq!(1u128, contract.balance_of(acct("nutinaguti.testnet")));
    assert_eq!(0u128, contract.balance_of(acct("test.testnet")));
    assert_eq!(
        0u128,
        contract.allowance(acct("test.testnet"), acct("nutinaguti.testnet"))
    );
}
