use hashpower::payment_token::{Error, Module};

fn build_ext() -> Module {
    Module::new(1, 21000000)
}

#[test]
fn issue_token_owner_check_ok() {
    let mut token = build_ext();
    //wrong owner of token system
    let before = token.clone();
    assert_eq!(token.issue_token(5), Err(Error::OnlyOwnerCanOperate));
    assert_eq!(token, before);
    assert_eq!(token.issue_token(1), Ok(()));
}

#[test]
fn issue_token_amount_ok() {
    let mut token = build_ext();
    assert_eq!(token.issue_token(1), Ok(()));
    assert_eq!(token.free_balance(1), 21000000);
}

#[test]
fn set_balance_owner_ok() {
    let mut token = build_ext();
    let before = token.clone();
    assert_eq!(token.set_balance(5, 5, 1000, 2000), Err(Error::OnlyOwnerCanOperate));
    assert_eq!(token, before);
    assert_eq!(token.set_balance(1, 5, 1000, 2000), Ok(()));
}

#[test]
fn set_balance_amount_ok() {
    let mut token = build_ext();
    assert_eq!(token.set_balance(1, 5, 1000, 2000), Ok(()));
    assert_eq!(token.free_balance(5), 1000);
    assert_eq!(token.reserved_balance(5), 2000);
}

#[test]
fn transfer_from_amount_not_enough() {
    let mut token = build_ext();
    assert_eq!(token.set_balance(1, 5, 1000, 2000), Ok(()));
    //not enough balance
    let before = token.clone();
    assert_eq!(token.transfer_from(5, 2, 1001), Err(Error::AmountTooLow));
    assert_eq!(token, before);
    assert_eq!(token.transfer_from(5, 2, 1000), Ok(()));
}

#[test]
fn transfer_from_ok() {
    let mut token = build_ext();
    assert_eq!(token.set_balance(1, 5, 1000, 2000), Ok(()));
    assert_eq!(token.transfer_from(5, 2, 600), Ok(()));
    assert_eq!(token.free_balance(5), 400);
    assert_eq!(token.free_balance(2), 600);
}

#[test]
fn reserve_owner() {
    let mut token = build_ext();
    assert_eq!(token.set_balance(1, 5, 1000, 2000), Ok(()));
    //wrong owner
    let before = token.clone();
    assert_eq!(token.reserve_token(2, 5, 600), Err(Error::OnlyOwnerCanOperate));
    assert_eq!(token, before);
    assert_eq!(token.unreserve_token(3, 5, 600), Err(Error::OnlyOwnerCanOperate));
    assert_eq!(token, before);
    assert_eq!(token.reserve_token(1, 5, 600), Ok(()));
    assert_eq!(token.unreserve_token(1, 5, 600), Ok(()));
}

#[test]
fn reserve_amount() {
    let mut token = build_ext();
    assert_eq!(token.set_balance(1, 5, 1000, 2000), Ok(()));
    //too much
    let before = token.clone();
    assert_eq!(token.reserve_token(1, 5, 1001), Err(Error::AmountTooLow));
    assert_eq!(token, before);
    //check amount correctness of reserve process
    assert_eq!(token.reserved_balance(5), 2000);

    assert_eq!(token.reserve_token(1, 5, 401), Ok(()));
    assert_eq!(token.reserved_balance(5), 2401);
    assert_eq!(token.free_balance(5), 599);

    assert_eq!(token.reserve_token(1, 5, 599), Ok(()));
    assert_eq!(token.reserved_balance(5), 3000);
    assert_eq!(token.free_balance(5), 0);

    let before = token.clone();
    assert_eq!(token.reserve_token(1, 5, 1), Err(Error::AmountTooLow));
    assert_eq!(token, before);
    //not enough to unreserve
    assert_eq!(token.unreserve_token(1, 5, 3001), Err(Error::AmountTooLow));
    assert_eq!(token, before);
    //check amount in unreserve process
    assert_eq!(token.unreserve_token(1, 5, 2000), Ok(()));
    assert_eq!(token.reserved_balance(5), 1000);
    assert_eq!(token.free_balance(5), 2000);

    assert_eq!(token.unreserve_token(1, 5, 1000), Ok(()));
    assert_eq!(token.reserved_balance(5), 0);
    assert_eq!(token.free_balance(5), 3000);

    let before = token.clone();
    assert_eq!(token.unreserve_token(1, 5, 1), Err(Error::AmountTooLow));
    assert_eq!(token, before);
}

#[test]
fn total_supply_ok() {
    let mut token = build_ext();
    assert_eq!(token.total_supply(), 21000000);
    //set a balance to increase total supply
    assert_eq!(token.set_balance(1, 5, 1000000, 2000000), Ok(()));
    assert_eq!(token.total_supply(), 24000000);
    //set another account's to increase total supply
    assert_eq!(token.set_balance(1, 2, 100000, 200000), Ok(()));
    assert_eq!(token.total_supply(), 24300000);

    //reduce free and increase reserved to increase total supply
    assert_eq!(token.set_balance(1, 5, 0, 4000000), Ok(()));
    assert_eq!(token.total_supply(), 25300000);

    //increate free and decrease reserved to decrease total supply
    assert_eq!(token.set_balance(1, 5, 1000000, 2000000), Ok(()));
    assert_eq!(token.total_supply(), 24300000);
}
