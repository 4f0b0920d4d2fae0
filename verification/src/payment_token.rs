//! A fungible token ledger with free and reserved balances per account and a
//! tracked total supply.

use crate::totals::{lemma_total_empty, lemma_total_insert, total};
use std::collections::BTreeMap;
use vstd::prelude::*;

verus! {

/// The identity of an account.
pub type AccountId = u64;

/// An amount of tokens.
pub type Balance = u64;

/// The reasons for which a call on the ledger is rejected.
#[derive(Clone, Copy, Debug, PartialEq, Eq, Structural)]
pub enum Error {
    /// The account holds less than the amount asked for.
    AmountTooLow,
    /// The caller is not the administrator of the token.
    OnlyOwnerCanOperate,
    /// The paying account has no free balance entry.
    AccountNotExist,
    /// A sum would exceed the largest representable balance.
    OverFlowHappens,
    /// A difference would fall below zero.
    UnderFlowHappens,
}

/// A notification of a change of the ledger.
#[derive(Clone, Copy, Debug, PartialEq, Eq, Structural)]
pub enum Event {
    /// The whole supply was credited to the account.
    TokenIssued(AccountId, Balance),
    /// The free and reserved balances of the account were overwritten.
    BalanceSet(AccountId, Balance, Balance),
    /// An amount moved from the first account to the second.
    TokenTransferred(AccountId, AccountId, Balance),
}

/// The value held for `account` in `balances`; an absent entry counts as zero.
pub open spec fn balance_in(balances: Map<AccountId, Balance>, account: AccountId) -> Balance {
    if balances.contains_key(account) {
        balances[account]
    } else {
        0
    }
}

/// The ledger: its administrator, the total supply and the balance entries.
#[derive(Clone, Debug, PartialEq, Eq)]
pub struct Module {
    owner: AccountId,
    total_supply: Balance,
    balance: BTreeMap<AccountId, Balance>,
    reserved: BTreeMap<AccountId, Balance>,
    events: Vec<Event>,
}

/// The ledger as a mathematical value.
pub struct Ledger {
    pub token_owner: AccountId,
    pub total_supply: Balance,
    pub free: Map<AccountId, Balance>,
    pub reserved: Map<AccountId, Balance>,
    pub events: Seq<Event>,
}

impl Ledger {
    /// The free balance of `account`.
    pub open spec fn free_of(self, account: AccountId) -> Balance {
        balance_in(self.free, account)
    }

    /// The reserved balance of `account`.
    pub open spec fn reserved_of(self, account: AccountId) -> Balance {
        balance_in(self.reserved, account)
    }

    /// Everything the accounts hold: the sum of all free and all reserved balances.
    pub open spec fn held(self) -> int {
        total(self.free) + total(self.reserved)
    }

    /// Both balance maps have finitely many entries.
    pub open spec fn finite(self) -> bool {
        self.free.dom().finite() && self.reserved.dom().finite()
    }

    /// The ledger after the administrator was credited the whole supply.
    pub open spec fn issued(self) -> Ledger {
        Ledger {
            free: self.free.insert(self.token_owner, self.total_supply),
            events: self.events.push(Event::TokenIssued(self.token_owner, self.total_supply)),
            ..self
        }
    }

    /// Why an overwrite of the balances of `account` is rejected, if it is.
    pub open spec fn set_balance_error(
        self,
        sender: AccountId,
        account: AccountId,
        new_free: Balance,
        new_reserve: Balance,
    ) -> Option<Error> {
        let old_total = self.free_of(account) + self.reserved_of(account);
        let new_total = new_free + new_reserve;
        if sender != self.token_owner {
            Some(Error::OnlyOwnerCanOperate)
        } else if old_total > u64::MAX || new_total > u64::MAX {
            Some(Error::OverFlowHappens)
        } else if self.total_supply + new_total - old_total > u64::MAX {
            Some(Error::OverFlowHappens)
        } else if self.total_supply + new_total - old_total < 0 {
            Some(Error::UnderFlowHappens)
        } else {
            None
        }
    }

    /// The ledger after the balances of `account` were overwritten and the
    /// supply moved by the change of what the account holds.
    pub open spec fn balance_set(
        self,
        account: AccountId,
        new_free: Balance,
        new_reserve: Balance,
    ) -> Ledger {
        Ledger {
            total_supply: (self.total_supply + (new_free + new_reserve) - (self.free_of(account)
                + self.reserved_of(account))) as u64,
            free: self.free.insert(account, new_free),
            reserved: self.reserved.insert(account, new_reserve),
            events: self.events.push(Event::BalanceSet(account, new_free, new_reserve)),
            ..self
        }
    }

    /// Whether a transfer changes nothing: the accounts are one, or the amount is zero.
    pub open spec fn transfer_is_noop(from: AccountId, to: AccountId, amount: Balance) -> bool {
        from == to || amount == 0
    }

    /// Why a transfer is rejected, if it is.
    pub open spec fn transfer_error(
        self,
        from: AccountId,
        to: AccountId,
        amount: Balance,
    ) -> Option<Error> {
        if Self::transfer_is_noop(from, to, amount) {
            None
        } else if !self.free.contains_key(from) {
            Some(Error::AccountNotExist)
        } else if self.free[from] < amount {
            Some(Error::AmountTooLow)
        } else if self.free_of(to) + amount > u64::MAX {
            Some(Error::OverFlowHappens)
        } else {
            None
        }
    }

    /// The ledger after `amount` moved from the free balance of `from` to that of `to`.
    pub open spec fn transferred(self, from: AccountId, to: AccountId, amount: Balance) -> Ledger {
        if Self::transfer_is_noop(from, to, amount) {
            self
        } else {
            Ledger {
                free: self.free.insert(to, (self.free_of(to) + amount) as u64).insert(
                    from,
                    (self.free_of(from) - amount) as u64,
                ),
                events: self.events.push(Event::TokenTransferred(from, to, amount)),
                ..self
            }
        }
    }

    /// Why a reservation is rejected, if it is.
    pub open spec fn reserve_error(
        self,
        sender: AccountId,
        account: AccountId,
        amount: Balance,
    ) -> Option<Error> {
        if sender != self.token_owner {
            Some(Error::OnlyOwnerCanOperate)
        } else if amount == 0 {
            None
        } else if self.free_of(account) < amount {
            Some(Error::AmountTooLow)
        } else if self.reserved_of(account) + amount > u64::MAX {
            Some(Error::OverFlowHappens)
        } else {
            None
        }
    }

    /// The ledger after `amount` moved from the free to the reserved balance of `account`.
    pub open spec fn reserved_more(self, account: AccountId, amount: Balance) -> Ledger {
        if amount == 0 {
            self
        } else {
            Ledger {
                free: self.free.insert(account, (self.free_of(account) - amount) as u64),
                reserved: self.reserved.insert(
                    account,
                    (self.reserved_of(account) + amount) as u64,
                ),
                ..self
            }
        }
    }

    /// Why a release of reserved tokens is rejected, if it is.
    pub open spec fn unreserve_error(
        self,
        sender: AccountId,
        account: AccountId,
        amount: Balance,
    ) -> Option<Error> {
        if sender != self.token_owner {
            Some(Error::OnlyOwnerCanOperate)
        } else if amount == 0 {
            None
        } else if self.reserved_of(account) < amount {
            Some(Error::AmountTooLow)
        } else if self.free_of(account) + amount > u64::MAX {
            Some(Error::OverFlowHappens)
        } else {
            None
        }
    }

    /// The ledger after `amount` moved from the reserved to the free balance of `account`.
    pub open spec fn reserved_less(self, account: AccountId, amount: Balance) -> Ledger {
        if amount == 0 {
            self
        } else {
            Ledger {
                free: self.free.insert(account, (self.free_of(account) + amount) as u64),
                reserved: self.reserved.insert(
                    account,
                    (self.reserved_of(account) - amount) as u64,
                ),
                ..self
            }
        }
    }
}

/// A call on the ledger, with what it asks for.
#[derive(Clone, Copy, Debug, PartialEq, Eq, Structural)]
pub enum Call {
    /// Credit the whole supply to the caller.
    IssueToken,
    /// Overwrite both balances of `account`.
    SetBalance { account: AccountId, new_free: Balance, new_reserve: Balance },
    /// Move `amount` from the caller's free balance to that of `to`.
    TransferFrom { to: AccountId, amount: Balance },
    /// Move `amount` from the free to the reserved balance of `account`.
    ReserveToken { account: AccountId, amount: Balance },
    /// Move `amount` from the reserved to the free balance of `account`.
    UnreserveToken { account: AccountId, amount: Balance },
}

impl Call {
    /// Whether the call only moves tokens: between accounts, or between the
    /// two balances of one account.
    pub open spec fn is_movement(self) -> bool {
        self is TransferFrom || self is ReserveToken || self is UnreserveToken
    }
}

impl Ledger {
    /// Why the call of `sender` is rejected, if it is.
    pub open spec fn call_error(self, sender: AccountId, call: Call) -> Option<Error> {
        match call {
            Call::IssueToken => if sender != self.token_owner {
                Some(Error::OnlyOwnerCanOperate)
            } else {
                None
            },
            Call::SetBalance { account, new_free, new_reserve } => self.set_balance_error(
                sender,
                account,
                new_free,
                new_reserve,
            ),
            Call::TransferFrom { to, amount } => self.transfer_error(sender, to, amount),
            Call::ReserveToken { account, amount } => self.reserve_error(sender, account, amount),
            Call::UnreserveToken { account, amount } => self.unreserve_error(
                sender,
                account,
                amount,
            ),
        }
    }

    /// The ledger after the call of `sender`: changed as the call asks where
    /// it is accepted, unchanged where it is rejected.
    pub open spec fn called(self, sender: AccountId, call: Call) -> Ledger {
        if self.call_error(sender, call) is Some {
            self
        } else {
            match call {
                Call::IssueToken => self.issued(),
                Call::SetBalance { account, new_free, new_reserve } => self.balance_set(
                    account,
                    new_free,
                    new_reserve,
                ),
                Call::TransferFrom { to, amount } => self.transferred(sender, to, amount),
                Call::ReserveToken { account, amount } => self.reserved_more(account, amount),
                Call::UnreserveToken { account, amount } => self.reserved_less(account, amount),
            }
        }
    }

    /// The ledger after the calls, each with its sender, made one after the other.
    pub open spec fn called_all(self, calls: Seq<(AccountId, Call)>) -> Ledger
        decreases calls.len(),
    {
        if calls.len() == 0 {
            self
        } else {
            self.called_all(calls.drop_last()).called(calls.last().0, calls.last().1)
        }
    }
}

/// An accepted transfer leaves the sum of all balances and the total supply
/// as they were.
pub proof fn lemma_transfer_conserves(l: Ledger, from: AccountId, to: AccountId, amount: Balance)
    requires
        l.finite(),
        l.transfer_error(from, to, amount) is None,
    ensures
        l.transferred(from, to, amount).finite(),
        l.transferred(from, to, amount).held() == l.held(),
        l.transferred(from, to, amount).total_supply == l.total_supply,
{
    if !Ledger::transfer_is_noop(from, to, amount) {
        let new_to = (l.free_of(to) + amount) as u64;
        let new_from = (l.free_of(from) - amount) as u64;
        lemma_total_insert(l.free, to, new_to);
        lemma_total_insert(l.free.insert(to, new_to), from, new_from);
    }
}

/// An accepted reservation leaves the sum of all balances and the total
/// supply as they were.
pub proof fn lemma_reserve_conserves(l: Ledger, sender: AccountId, account: AccountId, amount: Balance)
    requires
        l.finite(),
        l.reserve_error(sender, account, amount) is None,
    ensures
        l.reserved_more(account, amount).finite(),
        l.reserved_more(account, amount).held() == l.held(),
        l.reserved_more(account, amount).total_supply == l.total_supply,
{
    if amount != 0 {
        lemma_total_insert(l.free, account, (l.free_of(account) - amount) as u64);
        lemma_total_insert(l.reserved, account, (l.reserved_of(account) + amount) as u64);
    }
}

/// An accepted release leaves the sum of all balances and the total supply
/// as they were.
pub proof fn lemma_unreserve_conserves(
    l: Ledger,
    sender: AccountId,
    account: AccountId,
    amount: Balance,
)
    requires
        l.finite(),
        l.unreserve_error(sender, account, amount) is None,
    ensures
        l.reserved_less(account, amount).finite(),
        l.reserved_less(account, amount).held() == l.held(),
        l.reserved_less(account, amount).total_supply == l.total_supply,
{
    if amount != 0 {
        lemma_total_insert(l.free, account, (l.free_of(account) + amount) as u64);
        lemma_total_insert(l.reserved, account, (l.reserved_of(account) - amount) as u64);
    }
}

/// Whatever transfers, reservations and releases are asked for, by whomever
/// and in whatever order, the sum of all balances and the total supply stay as
/// they were.
pub proof fn lemma_movements_conserve(l: Ledger, calls: Seq<(AccountId, Call)>)
    requires
        l.finite(),
        forall|i: int| 0 <= i < calls.len() ==> (#[trigger] calls[i]).1.is_movement(),
    ensures
        l.called_all(calls).finite(),
        l.called_all(calls).held() == l.held(),
        l.called_all(calls).total_supply == l.total_supply,
    decreases calls.len(),
{
    if calls.len() > 0 {
        lemma_movements_conserve(l, calls.drop_last());
        let before = l.called_all(calls.drop_last());
        let (sender, call) = calls.last();
        assert(calls[calls.len() - 1].1.is_movement());
        if before.call_error(sender, call) is None {
            match call {
                Call::TransferFrom { to, amount } => {
                    lemma_transfer_conserves(before, sender, to, amount);
                },
                Call::ReserveToken { account, amount } => {
                    lemma_reserve_conserves(before, sender, account, amount);
                },
                Call::UnreserveToken { account, amount } => {
                    lemma_unreserve_conserves(before, sender, account, amount);
                },
                _ => {},
            }
        }
    }
}

/// An accepted overwrite of an account's balances moves the total supply by
/// the change of what the account holds, and the sum of all balances by the
/// same amount.
pub proof fn lemma_balance_set_supply(
    l: Ledger,
    sender: AccountId,
    account: AccountId,
    new_free: Balance,
    new_reserve: Balance,
)
    requires
        l.finite(),
        l.set_balance_error(sender, account, new_free, new_reserve) is None,
    ensures
        l.balance_set(account, new_free, new_reserve).total_supply == l.total_supply + (new_free
            + new_reserve) - (l.free_of(account) + l.reserved_of(account)),
        l.balance_set(account, new_free, new_reserve).held() == l.held() + (new_free
            + new_reserve) - (l.free_of(account) + l.reserved_of(account)),
{
    lemma_total_insert(l.free, account, new_free);
    lemma_total_insert(l.reserved, account, new_reserve);
}

impl View for Module {
    type V = Ledger;

    closed spec fn view(&self) -> Ledger {
        Ledger {
            token_owner: self.owner,
            total_supply: self.total_supply,
            free: self.balance@,
            reserved: self.reserved@,
            events: self.events@,
        }
    }
}

impl Module {
    /// The ledger at genesis: no balance entries, the given administrator and supply.
    pub fn new(token_owner: AccountId, total_supply: Balance) -> (m: Module)
        ensures
            m@.token_owner == token_owner,
            m@.total_supply == total_supply,
            m@.free == Map::<AccountId, Balance>::empty(),
            m@.reserved == Map::<AccountId, Balance>::empty(),
            m@.events == Seq::<Event>::empty(),
            m@.held() == 0,
    {
        proof {
            lemma_total_empty();
        }
        Module {
            owner: token_owner,
            total_supply,
            balance: BTreeMap::new(),
            reserved: BTreeMap::new(),
            events: Vec::new(),
        }
    }

    /// The administrator of the token.
    pub fn token_owner(&self) -> (a: AccountId)
        ensures
            a == self@.token_owner,
    {
        self.owner
    }

    /// The tracked total supply.
    pub fn total_supply(&self) -> (s: Balance)
        ensures
            s == self@.total_supply,
    {
        self.total_supply
    }

    /// Hands out the notifications recorded so far and empties the record.
    pub fn take_events(&mut self) -> (taken: Vec<Event>)
        ensures
            taken@ == old(self)@.events,
            final(self)@ == (Ledger { events: Seq::<Event>::empty(), ..old(self)@ }),
    {
        let mut taken: Vec<Event> = Vec::new();
        std::mem::swap(&mut taken, &mut self.events);
        taken
    }

    /// Makes the call of `sender`.
    pub fn dispatch(&mut self, sender: AccountId, call: Call) -> (r: Result<(), Error>)
        ensures
            match old(self)@.call_error(sender, call) {
                Some(e) => r == Err::<(), Error>(e),
                None => r == Ok::<(), Error>(()),
            },
            final(self)@ == old(self)@.called(sender, call),
            call.is_movement() ==> final(self)@.held() == old(self)@.held(),
            call.is_movement() ==> final(self)@.total_supply == old(self)@.total_supply,
    {
        match call {
            Call::IssueToken => self.issue_token(sender),
            Call::SetBalance { account, new_free, new_reserve } => self.set_balance(
                sender,
                account,
                new_free,
                new_reserve,
            ),
            Call::TransferFrom { to, amount } => self.transfer_from(sender, to, amount),
            Call::ReserveToken { account, amount } => self.reserve_token(sender, account, amount),
            Call::UnreserveToken { account, amount } => self.unreserve_token(
                sender,
                account,
                amount,
            ),
        }
    }

    /// Credits the whole current supply to the administrator's free balance,
    /// replacing what was there. Only the administrator may call it.
    pub fn issue_token(&mut self, sender: AccountId) -> (r: Result<(), Error>)
        ensures
            sender != old(self)@.token_owner ==> r == Err::<(), Error>(Error::OnlyOwnerCanOperate)
                && final(self)@ == old(self)@,
            sender == old(self)@.token_owner ==> r == Ok::<(), Error>(()) && final(self)@ == old(
                self,
            )@.issued(),
    {
        if sender != self.owner {
            return Err(Error::OnlyOwnerCanOperate);
        }
        let total_supply: Balance = self.total_supply;
        self.balance.insert(sender, total_supply);
        self.events.push(Event::TokenIssued(sender, total_supply));
        Ok(())
    }

    /// Overwrites both balances of `account` and moves the total supply by the
    /// change of what the account holds. Only the administrator may call it.
    pub fn set_balance(
        &mut self,
        sender: AccountId,
        account: AccountId,
        new_free: Balance,
        new_reserve: Balance,
    ) -> (r: Result<(), Error>)
        ensures
            match old(self)@.set_balance_error(sender, account, new_free, new_reserve) {
                Some(e) => r == Err::<(), Error>(e) && final(self)@ == old(self)@,
                None => r == Ok::<(), Error>(()) && final(self)@ == old(self)@.balance_set(
                    account,
                    new_free,
                    new_reserve,
                ),
            },
            r is Ok ==> final(self)@.total_supply == old(self)@.total_supply + (new_free
                + new_reserve) - (old(self)@.free_of(account) + old(self)@.reserved_of(account)),
            final(self)@.total_supply - final(self)@.held() == old(self)@.total_supply - old(
                self,
            )@.held(),
    {
        if sender != self.owner {
            return Err(Error::OnlyOwnerCanOperate);
        }
        let old_free: Balance = self.free_balance_of(&account);
        let old_reserved: Balance = self.reserved_balance_of(&account);
        let old_total: Balance = match old_free.checked_add(old_reserved) {
            Some(t) => t,
            None => { return Err(Error::OverFlowHappens); },
        };
        let new_total: Balance = match new_free.checked_add(new_reserve) {
            Some(t) => t,
            None => { return Err(Error::OverFlowHappens); },
        };
        let supply: Balance = if old_total <= new_total {
            match self.total_supply.checked_add(new_total - old_total) {
                Some(t) => t,
                None => { return Err(Error::OverFlowHappens); },
            }
        } else {
            match self.total_supply.checked_sub(old_total - new_total) {
                Some(t) => t,
                None => { return Err(Error::UnderFlowHappens); },
            }
        };
        proof {
            lemma_balance_set_supply(self@, sender, account, new_free, new_reserve);
        }
        self.total_supply = supply;
        self.balance.insert(account, new_free);
        self.reserved.insert(account, new_reserve);
        self.events.push(Event::BalanceSet(account, new_free, new_reserve));
        Ok(())
    }

    /// Moves `amount` from the caller's free balance to that of `to`.
    pub fn transfer_from(&mut self, sender: AccountId, to: AccountId, amount: Balance) -> (r:
        Result<(), Error>)
        ensures
            match old(self)@.transfer_error(sender, to, amount) {
                Some(e) => r == Err::<(), Error>(e) && final(self)@ == old(self)@,
                None => r == Ok::<(), Error>(()) && final(self)@ == old(self)@.transferred(
                    sender,
                    to,
                    amount,
                ),
            },
            final(self)@.held() == old(self)@.held(),
            final(self)@.total_supply == old(self)@.total_supply,
    {
        self.transfer(sender, to, amount)
    }

    /// Moves `amount` from the free balance of `from` to that of `to`. Nothing
    /// changes where the two accounts are one or the amount is zero.
    pub fn transfer(&mut self, from: AccountId, to: AccountId, amount: Balance) -> (r: Result<
        (),
        Error,
    >)
        ensures
            match old(self)@.transfer_error(from, to, amount) {
                Some(e) => r == Err::<(), Error>(e) && final(self)@ == old(self)@,
                None => r == Ok::<(), Error>(()) && final(self)@ == old(self)@.transferred(
                    from,
                    to,
                    amount,
                ),
            },
            final(self)@.held() == old(self)@.held(),
            final(self)@.total_supply == old(self)@.total_supply,
    {
        if from == to || amount == 0 {
            return Ok(());
        }
        let free_from: Balance = match self.balance.get(&from) {
            Some(v) => *v,
            None => { return Err(Error::AccountNotExist); },
        };
        if free_from < amount {
            return Err(Error::AmountTooLow);
        }
        let free_to: Balance = self.free_balance_of(&to);
        let new_to: Balance = match free_to.checked_add(amount) {
            Some(t) => t,
            None => { return Err(Error::OverFlowHappens); },
        };
        let new_from: Balance = match free_from.checked_sub(amount) {
            Some(t) => t,
            None => { return Err(Error::UnderFlowHappens); },
        };
        proof {
            lemma_transfer_conserves(self@, from, to, amount);
        }
        self.balance.insert(to, new_to);
        self.balance.insert(from, new_from);
        self.events.push(Event::TokenTransferred(from, to, amount));
        Ok(())
    }

    /// Moves `amount` from the free to the reserved balance of `account`.
    /// Only the administrator may call it.
    pub fn reserve_token(&mut self, sender: AccountId, account: AccountId, amount: Balance) -> (r:
        Result<(), Error>)
        ensures
            match old(self)@.reserve_error(sender, account, amount) {
                Some(e) => r == Err::<(), Error>(e) && final(self)@ == old(self)@,
                None => r == Ok::<(), Error>(()) && final(self)@ == old(self)@.reserved_more(
                    account,
                    amount,
                ),
            },
            final(self)@.held() == old(self)@.held(),
            final(self)@.total_supply == old(self)@.total_supply,
    {
        if sender != self.owner {
            return Err(Error::OnlyOwnerCanOperate);
        }
        if amount == 0 {
            return Ok(());
        }
        let free_old: Balance = self.free_balance_of(&account);
        if free_old < amount {
            return Err(Error::AmountTooLow);
        }
        let free_new: Balance = match free_old.checked_sub(amount) {
            Some(t) => t,
            None => { return Err(Error::UnderFlowHappens); },
        };
        let reserved_old: Balance = self.reserved_balance_of(&account);
        let reserved_new: Balance = match reserved_old.checked_add(amount) {
            Some(t) => t,
            None => { return Err(Error::OverFlowHappens); },
        };
        proof {
            lemma_reserve_conserves(self@, sender, account, amount);
        }
        self.balance.insert(account, free_new);
        self.reserved.insert(account, reserved_new);
        Ok(())
    }

    /// Moves `amount` from the reserved back to the free balance of `account`.
    /// Only the administrator may call it.
    pub fn unreserve_token(&mut self, sender: AccountId, account: AccountId, amount: Balance) -> (r:
        Result<(), Error>)
        ensures
            match old(self)@.unreserve_error(sender, account, amount) {
                Some(e) => r == Err::<(), Error>(e) && final(self)@ == old(self)@,
                None => r == Ok::<(), Error>(()) && final(self)@ == old(self)@.reserved_less(
                    account,
                    amount,
                ),
            },
            final(self)@.held() == old(self)@.held(),
            final(self)@.total_supply == old(self)@.total_supply,
    {
        if sender != self.owner {
            return Err(Error::OnlyOwnerCanOperate);
        }
        if amount == 0 {
            return Ok(());
        }
        let reserved_old: Balance = self.reserved_balance_of(&account);
        if reserved_old < amount {
            return Err(Error::AmountTooLow);
        }
        let reserved_new: Balance = match reserved_old.checked_sub(amount) {
            Some(t) => t,
            None => { return Err(Error::UnderFlowHappens); },
        };
        let free_old: Balance = self.free_balance_of(&account);
        let free_new: Balance = match free_old.checked_add(amount) {
            Some(t) => t,
            None => { return Err(Error::OverFlowHappens); },
        };
        proof {
            lemma_unreserve_conserves(self@, sender, account, amount);
        }
        self.balance.insert(account, free_new);
        self.reserved.insert(account, reserved_new);
        Ok(())
    }

    /// The reserved balance of `account`, zero where it has no entry.
    pub fn reserved_balance_of(&self, account: &AccountId) -> (b: Balance)
        ensures
            b == balance_in(self@.reserved, *account),
    {
        match self.reserved.get(account) {
            Some(v) => *v,
            None => 0,
        }
    }

    /// The free balance of `account`.
    pub fn free_balance(&self, account: AccountId) -> (b: Balance)
        ensures
            b == self@.free_of(account),
    {
        self.free_balance_of(&account)
    }

    /// The reserved balance of `account`.
    pub fn reserved_balance(&self, account: AccountId) -> (b: Balance)
        ensures
            b == self@.reserved_of(account),
    {
        self.reserved_balance_of(&account)
    }

    /// The free balance of `account`, zero where it has no entry.
    pub fn free_balance_of(&self, account: &AccountId) -> (b: Balance)
        ensures
            b == balance_in(self@.free, *account),
    {
        match self.balance.get(account) {
            Some(v) => *v,
            None => 0,
        }
    }
}

} // verus!
