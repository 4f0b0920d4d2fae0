use hashpower::payment_token::{Call, Error, Event, Module};

fn held(token: &Module, accounts: &[u64]) -> u128 {
    accounts
        .iter()
        .map(|a| token.free_balance(*a) as u128 + token.reserved_balance(*a) as u128)
        .sum()
}

#[test]
fn movements_conserve_what_the_accounts_hold() {
    let accounts = [1u64, 2, 3, 5];
    let mut token = Module::new(1, 21000000);
    assert_eq!(token.issue_token(1), Ok(()));
    assert_eq!(token.set_balance(1, 5, 1000, 2000), Ok(()));
    let before = held(&token, &accounts);
    let supply = token.total_supply();
    assert_eq!(before, 21003000);
    assert_eq!(token.transfer_from(1, 2, 500), Ok(()));
    assert_eq!(token.transfer_from(5, 3, 1000), Ok(()));
    assert_eq!(token.transfer_from(5, 3, 1), Err(Error::AmountTooLow));
    assert_eq!(token.reserve_token(1, 2, 200), Ok(()));
    assert_eq!(token.reserve_token(1, 2, 301), Err(Error::AmountTooLow));
    assert_eq!(token.unreserve_token(1, 5, 1500), Ok(()));
    assert_eq!(token.unreserve_token(2, 5, 1), Err(Error::OnlyOwnerCanOperate));
    assert_eq!(token.transfer_from(3, 1, 1000), Ok(()));
    assert_eq!(held(&token, &accounts), before);
    assert_eq!(token.total_supply(), supply);
    assert_eq!(token.free_balance(1), 21000000 - 500 + 1000);
    assert_eq!(token.free_balance(2), 300);
    assert_eq!(token.reserved_balance(2), 200);
    assert_eq!(token.free_balance(3), 0);
    assert_eq!(token.free_balance(5), 1500);
    assert_eq!(token.reserved_balance(5), 500);
}

#[test]
fn set_balance_moves_the_supply_by_the_difference() {
    let mut token = Module::new(1, 1000);
    assert_eq!(token.set_balance(1, 7, 30, 12), Ok(()));
    assert_eq!(token.total_supply(), 1042);
    assert_eq!(token.set_balance(1, 7, 2, 0), Ok(()));
    assert_eq!(token.total_supply(), 1002);
    assert_eq!(token.set_balance(1, 7, 1, 1), Ok(()));
    assert_eq!(token.total_supply(), 1002);
    assert_eq!(token.free_balance(7), 1);
    assert_eq!(token.reserved_balance(7), 1);
}

#[test]
fn set_balance_rejects_what_does_not_fit() {
    let mut token = Module::new(1, 10);
    let before = token.clone();
    assert_eq!(token.set_balance(1, 7, u64::MAX, 1), Err(Error::OverFlowHappens));
    assert_eq!(token.set_balance(1, 7, u64::MAX, 0), Err(Error::OverFlowHappens));
    assert_eq!(token, before);
    assert_eq!(token.set_balance(1, 7, u64::MAX - 10, 0), Ok(()));
    assert_eq!(token.total_supply(), u64::MAX);
    assert_eq!(token.set_balance(1, 8, 1, 0), Err(Error::OverFlowHappens));
}

#[test]
fn set_balance_rejects_a_supply_below_zero() {
    let mut token = Module::new(1, 100);
    assert_eq!(token.set_balance(1, 5, 50, 0), Ok(()));
    assert_eq!(token.issue_token(1), Ok(()));
    assert_eq!(token.free_balance(1), 150);
    assert_eq!(token.set_balance(1, 5, 0, 0), Ok(()));
    assert_eq!(token.total_supply(), 100);
    let before = token.clone();
    assert_eq!(token.set_balance(1, 1, 0, 0), Err(Error::UnderFlowHappens));
    assert_eq!(token, before);
    assert_eq!(token.set_balance(1, 1, 50, 0), Ok(()));
    assert_eq!(token.total_supply(), 0);
}

#[test]
fn set_balance_rejects_a_holding_that_does_not_fit() {
    let mut token = Module::new(1, 0);
    assert_eq!(token.set_balance(1, 5, 0, 1), Ok(()));
    assert_eq!(token.set_balance(1, 6, u64::MAX - 1, 0), Ok(()));
    assert_eq!(token.total_supply(), u64::MAX);
    assert_eq!(token.issue_token(1), Ok(()));
    assert_eq!(token.transfer_from(1, 5, u64::MAX), Ok(()));
    assert_eq!(token.free_balance(5), u64::MAX);
    assert_eq!(token.reserved_balance(5), 1);
    let before = token.clone();
    assert_eq!(token.set_balance(1, 5, 0, 0), Err(Error::OverFlowHappens));
    assert_eq!(token, before);
}

#[test]
fn transfer_needs_an_entry_for_the_payer() {
    let mut token = Module::new(1, 100);
    let before = token.clone();
    assert_eq!(token.transfer_from(4, 5, 1), Err(Error::AccountNotExist));
    assert_eq!(token.transfer(4, 5, 1), Err(Error::AccountNotExist));
    assert_eq!(token, before);
    assert_eq!(token.set_balance(1, 4, 0, 9), Ok(()));
    assert_eq!(token.transfer_from(4, 5, 1), Err(Error::AmountTooLow));
}

#[test]
fn transfer_to_oneself_or_of_nothing_changes_nothing() {
    let mut token = Module::new(1, 100);
    let before = token.clone();
    assert_eq!(token.transfer_from(4, 4, 10), Ok(()));
    assert_eq!(token.transfer_from(4, 5, 0), Ok(()));
    assert_eq!(token.transfer(4, 4, 10), Ok(()));
    assert_eq!(token, before);
    assert_eq!(token.reserve_token(1, 4, 0), Ok(()));
    assert_eq!(token.unreserve_token(1, 4, 0), Ok(()));
    assert_eq!(token, before);
    assert_eq!(token.reserve_token(2, 4, 0), Err(Error::OnlyOwnerCanOperate));
}

#[test]
fn transfer_rejects_a_balance_that_does_not_fit() {
    let mut token = Module::new(1, 0);
    assert_eq!(token.set_balance(1, 5, u64::MAX, 0), Ok(()));
    assert_eq!(token.issue_token(1), Ok(()));
    assert_eq!(token.free_balance(1), u64::MAX);
    let before = token.clone();
    assert_eq!(token.transfer_from(1, 5, 1), Err(Error::OverFlowHappens));
    assert_eq!(token, before);
}

#[test]
fn reserve_rejects_a_balance_that_does_not_fit() {
    let mut token = Module::new(1, 0);
    assert_eq!(token.set_balance(1, 5, 0, u64::MAX), Ok(()));
    assert_eq!(token.issue_token(1), Ok(()));
    assert_eq!(token.transfer_from(1, 5, 2), Ok(()));
    let before = token.clone();
    assert_eq!(token.reserve_token(1, 5, 1), Err(Error::OverFlowHappens));
    assert_eq!(token.reserve_token(1, 5, 3), Err(Error::AmountTooLow));
    assert_eq!(token, before);
    assert_eq!(token.unreserve_token(1, 5, u64::MAX - 2), Ok(()));
    assert_eq!(token.free_balance(5), u64::MAX);
    assert_eq!(token.unreserve_token(1, 5, 1), Err(Error::OverFlowHappens));
}

#[test]
fn issue_sets_the_free_balance_to_the_supply_each_time() {
    let mut token = Module::new(1, 21000000);
    assert_eq!(token.token_owner(), 1);
    assert_eq!(token.issue_token(1), Ok(()));
    assert_eq!(token.transfer_from(1, 2, 1000000), Ok(()));
    assert_eq!(token.free_balance(1), 20000000);
    assert_eq!(token.issue_token(1), Ok(()));
    assert_eq!(token.free_balance(1), 21000000);
    assert_eq!(token.free_balance(2), 1000000);
    assert_eq!(token.total_supply(), 21000000);
    assert_eq!(token.reserved_balance(1), 0);
}

#[test]
fn accepted_calls_record_their_events() {
    let mut token = Module::new(1, 100);
    assert_eq!(token.issue_token(1), Ok(()));
    assert_eq!(token.issue_token(2), Err(Error::OnlyOwnerCanOperate));
    assert_eq!(token.set_balance(1, 5, 10, 20), Ok(()));
    assert_eq!(token.transfer_from(5, 6, 4), Ok(()));
    assert_eq!(token.transfer_from(5, 6, 0), Ok(()));
    assert_eq!(token.transfer_from(5, 6, 40), Err(Error::AmountTooLow));
    assert_eq!(token.reserve_token(1, 5, 1), Ok(()));
    assert_eq!(token.unreserve_token(1, 5, 1), Ok(()));
    let events = token.take_events();
    assert_eq!(
        events,
        vec![Event::TokenIssued(1, 100), Event::BalanceSet(5, 10, 20), Event::TokenTransferred(5, 6, 4)]
    );
    assert_eq!(token.take_events(), vec![]);
    assert_eq!(token.free_balance_of(&6), 4);
    assert_eq!(token.reserved_balance_of(&5), 20);
}

#[test]
fn supply_follows_each_overwrite() {
    let mut token = Module::new(1, 21000000);
    assert_eq!(token.issue_token(1), Ok(()));
    assert_eq!(token.free_balance(1), 21000000);
    assert_eq!(token.set_balance(1, 5, 1000, 2000), Ok(()));
    assert_eq!(token.total_supply(), 21003000);
    assert_eq!(token.set_balance(1, 2, 100000, 200000), Ok(()));
    assert_eq!(token.total_supply(), 21303000);
    assert_eq!(token.set_balance(1, 5, 0, 4000000), Ok(()));
    assert_eq!(token.total_supply(), 25300000);
    assert_eq!(token.set_balance(1, 5, 1000000, 2000000), Ok(()));
    assert_eq!(token.total_supply(), 24300000);
}

#[test]
fn ledger_dispatch_makes_the_call() {
    let mut token = Module::new(1, 500);
    assert_eq!(token.dispatch(2, Call::IssueToken), Err(Error::OnlyOwnerCanOperate));
    assert_eq!(token.dispatch(1, Call::IssueToken), Ok(()));
    assert_eq!(
        token.dispatch(1, Call::SetBalance { account: 3, new_free: 7, new_reserve: 8 }),
        Ok(())
    );
    assert_eq!(token.total_supply(), 515);
    assert_eq!(token.dispatch(3, Call::TransferFrom { to: 4, amount: 5 }), Ok(()));
    assert_eq!(token.dispatch(3, Call::TransferFrom { to: 4, amount: 5 }), Err(Error::AmountTooLow));
    assert_eq!(token.dispatch(1, Call::ReserveToken { account: 4, amount: 5 }), Ok(()));
    assert_eq!(token.dispatch(1, Call::UnreserveToken { account: 3, amount: 8 }), Ok(()));
    assert_eq!(token.dispatch(4, Call::UnreserveToken { account: 3, amount: 8 }), Err(Error::OnlyOwnerCanOperate));
    assert_eq!(token.free_balance(3), 10);
    assert_eq!(token.reserved_balance(3), 0);
    assert_eq!(token.free_balance(4), 0);
    assert_eq!(token.reserved_balance(4), 5);
    assert_eq!(token.free_balance(1), 500);
}
