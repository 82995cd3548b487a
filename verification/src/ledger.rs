//! The fungible ledger of receipt tokens: balances, allowances and the total
//! supply, with the primitives that move, create and destroy tokens.
//!
//! An account or an allowance that was never written reads as zero. The
//! balances always add up to the total supply.

use vstd::prelude::*;
use crate::address::Address;
use crate::error::Error;
use crate::event::Event;
use crate::table::{distinct_keys, has_key, lemma_position, lemma_put, lookup, position, put};
use crate::u256::{checked_add, checked_sub, pow2_256, U256};

verus! {

/// The sum of the balances in `rows`.
pub open spec fn sum(rows: Seq<(Address, nat)>) -> nat
    decreases rows.len(),
{
    if rows.len() == 0 {
        0
    } else {
        sum(rows.drop_last()) + rows.last().1
    }
}

/// The amount stored under `key`, zero where there is no row.
pub open spec fn amount_at<K>(rows: Seq<(K, nat)>, key: K) -> nat {
    match lookup(rows, key) {
        Some(amount) => amount,
        None => 0,
    }
}

/// The ledger as mathematics: one row per account that was ever written, one
/// row per pair of owner and spender that was ever approved, and the supply.
pub struct LedgerView {
    pub accounts: Seq<(Address, nat)>,
    pub allowances: Seq<((Address, Address), nat)>,
    pub total_supply: nat,
}

impl LedgerView {
    /// The balance of `who`.
    pub open spec fn balance(self, who: Address) -> nat {
        amount_at(self.accounts, who)
    }

    /// What `spender` may still move out of `owner`'s balance.
    pub open spec fn allowance(self, owner: Address, spender: Address) -> nat {
        amount_at(self.allowances, (owner, spender))
    }

    /// The sum of all balances.
    pub open spec fn sum_of_balances(self) -> nat {
        sum(self.accounts)
    }

    /// One row per key, and the balances add up to the supply.
    pub open spec fn wf(self) -> bool {
        &&& distinct_keys(self.accounts)
        &&& distinct_keys(self.allowances)
        &&& self.sum_of_balances() == self.total_supply
        &&& self.total_supply < pow2_256()
    }

    /// The ledger in which nothing was written yet.
    pub open spec fn empty() -> LedgerView {
        LedgerView { accounts: Seq::empty(), allowances: Seq::empty(), total_supply: 0 }
    }

    /// The ledger after `amount` is added to the balance of `to`.
    pub open spec fn credited(self, to: Address, amount: nat) -> LedgerView {
        LedgerView { accounts: put(self.accounts, to, self.balance(to) + amount), ..self }
    }

    /// The ledger after `amount` is taken from the balance of `from`.
    pub open spec fn debited(self, from: Address, amount: nat) -> LedgerView {
        LedgerView {
            accounts: put(self.accounts, from, (self.balance(from) - amount) as nat),
            ..self
        }
    }

    /// The ledger after `amount` new tokens are created for `to`.
    pub open spec fn minted(self, to: Address, amount: nat) -> LedgerView {
        LedgerView { total_supply: self.total_supply + amount, ..self.credited(to, amount) }
    }

    /// The ledger after `amount` tokens of `from` are destroyed.
    pub open spec fn burned(self, from: Address, amount: nat) -> LedgerView {
        LedgerView {
            total_supply: (self.total_supply - amount) as nat,
            ..self.debited(from, amount)
        }
    }

    /// The ledger after `amount` tokens move from `from` to `to`.
    pub open spec fn transferred(self, from: Address, to: Address, amount: nat) -> LedgerView {
        self.debited(from, amount).credited(to, amount)
    }

    /// The ledger after the allowance of `spender` over `owner`'s tokens is
    /// set to `amount`, whatever it was.
    pub open spec fn approved(self, owner: Address, spender: Address, amount: nat) -> LedgerView {
        LedgerView { allowances: put(self.allowances, (owner, spender), amount), ..self }
    }

    /// The ledger after `spender` moves `amount` tokens from `from` to `to`
    /// and its allowance shrinks by as much.
    pub open spec fn spent(self, spender: Address, from: Address, to: Address, amount: nat)
        -> LedgerView {
        self.transferred(from, to, amount).approved(
            from,
            spender,
            (self.allowance(from, spender) - amount) as nat,
        )
    }

    /// Why `mint` is refused, if it is.
    pub open spec fn mint_error(self, to: Address, amount: nat) -> Option<Error> {
        if to == Address::spec_zero() {
            Some(Error::ZeroAddress)
        } else if self.total_supply + amount >= pow2_256() {
            Some(Error::Overflow)
        } else {
            None
        }
    }

    /// Why `burn` is refused, if it is.
    pub open spec fn burn_error(self, from: Address, amount: nat) -> Option<Error> {
        if from == Address::spec_zero() {
            Some(Error::ZeroAddress)
        } else if self.balance(from) < amount {
            Some(Error::InsufficientBalance)
        } else {
            None
        }
    }

    /// Why `transfer` is refused, if it is.
    pub open spec fn transfer_error(self, from: Address, to: Address, amount: nat) -> Option<
        Error,
    > {
        if from == Address::spec_zero() || to == Address::spec_zero() {
            Some(Error::ZeroAddress)
        } else if self.balance(from) < amount {
            Some(Error::InsufficientBalance)
        } else {
            None
        }
    }

    /// Why `approve` is refused, if it is.
    pub open spec fn approve_error(self, owner: Address, spender: Address) -> Option<Error> {
        if owner == Address::spec_zero() || spender == Address::spec_zero() {
            Some(Error::ZeroAddress)
        } else {
            None
        }
    }

    /// Why `transfer_from` is refused, if it is. The allowance is looked at
    /// first.
    pub open spec fn transfer_from_error(
        self,
        spender: Address,
        from: Address,
        to: Address,
        amount: nat,
    ) -> Option<Error> {
        if self.allowance(from, spender) < amount {
            Some(Error::InsufficientAllowance)
        } else if self.transfer_error(from, to, amount) is Some {
            self.transfer_error(from, to, amount)
        } else {
            self.approve_error(from, spender)
        }
    }
}

/// Appending a row adds its balance to the sum.
pub proof fn lemma_sum_push(rows: Seq<(Address, nat)>, row: (Address, nat))
    ensures
        sum(rows.push(row)) == sum(rows) + row.1,
{
    assert(rows.push(row).drop_last() =~= rows);
}

/// Replacing a row changes the sum by the difference of the balances.
pub proof fn lemma_sum_update(rows: Seq<(Address, nat)>, i: int, row: (Address, nat))
    requires
        0 <= i < rows.len(),
    ensures
        sum(rows.update(i, row)) + rows[i].1 == sum(rows) + row.1,
    decreases rows.len(),
{
    if i == rows.len() - 1 {
        assert(rows.update(i, row).drop_last() =~= rows.drop_last());
    } else {
        lemma_sum_update(rows.drop_last(), i, row);
        assert(rows.update(i, row).drop_last() =~= rows.drop_last().update(i, row));
    }
}

/// No row holds more than the sum.
pub proof fn lemma_sum_covers(rows: Seq<(Address, nat)>, i: int)
    requires
        0 <= i < rows.len(),
    ensures
        rows[i].1 <= sum(rows),
    decreases rows.len(),
{
    if i < rows.len() - 1 {
        lemma_sum_covers(rows.drop_last(), i);
    }
}

/// No balance exceeds the sum of all balances.
pub proof fn lemma_balance_le_sum(rows: Seq<(Address, nat)>, who: Address)
    ensures
        amount_at(rows, who) <= sum(rows),
{
    if has_key(rows, who) {
        lemma_sum_covers(rows, position(rows, who));
    }
}

/// Writing a balance changes the sum by the difference to the old balance.
pub proof fn lemma_sum_put(rows: Seq<(Address, nat)>, who: Address, balance: nat)
    ensures
        sum(put(rows, who, balance)) + amount_at(rows, who) == sum(rows) + balance,
{
    if has_key(rows, who) {
        lemma_sum_update(rows, position(rows, who), (who, balance));
    } else {
        lemma_sum_push(rows, (who, balance));
    }
}

/// Minting that is accepted adds the amount to the balance of `to` and to
/// the supply, changes no other balance and no allowance, and keeps the
/// balances adding up to the supply.
pub proof fn lemma_minted(ledger: LedgerView, to: Address, amount: nat)
    requires
        ledger.wf(),
        ledger.mint_error(to, amount) is None,
    ensures
        ledger.minted(to, amount).wf(),
        ledger.minted(to, amount).balance(to) == ledger.balance(to) + amount,
        forall|other: Address|
            other != to ==> #[trigger] ledger.minted(to, amount).balance(other) == ledger.balance(
                other,
            ),
        ledger.minted(to, amount).total_supply == ledger.total_supply + amount,
        ledger.minted(to, amount).allowances == ledger.allowances,
{
    lemma_put(ledger.accounts, to, ledger.balance(to) + amount);
    lemma_sum_put(ledger.accounts, to, ledger.balance(to) + amount);
}

/// Burning that is accepted takes the amount from the balance of `from` and
/// from the supply, changes no other balance and no allowance, and keeps the
/// balances adding up to the supply.
pub proof fn lemma_burned(ledger: LedgerView, from: Address, amount: nat)
    requires
        ledger.wf(),
        ledger.burn_error(from, amount) is None,
    ensures
        ledger.burned(from, amount).wf(),
        ledger.burned(from, amount).balance(from) == ledger.balance(from) - amount,
        forall|other: Address|
            other != from ==> #[trigger] ledger.burned(from, amount).balance(other)
                == ledger.balance(other),
        ledger.burned(from, amount).total_supply == ledger.total_supply - amount,
        ledger.burned(from, amount).allowances == ledger.allowances,
{
    lemma_balance_le_sum(ledger.accounts, from);
    lemma_put(ledger.accounts, from, (ledger.balance(from) - amount) as nat);
    lemma_sum_put(ledger.accounts, from, (ledger.balance(from) - amount) as nat);
}

/// A transfer that is accepted moves the amount from one balance to the
/// other, changes no third balance, and leaves the supply and the sum of the
/// balances as they were.
pub proof fn lemma_transferred(ledger: LedgerView, from: Address, to: Address, amount: nat)
    requires
        ledger.wf(),
        ledger.transfer_error(from, to, amount) is None,
    ensures
        ledger.transferred(from, to, amount).wf(),
        from != to ==> ledger.transferred(from, to, amount).balance(from) == ledger.balance(from)
            - amount,
        from != to ==> ledger.transferred(from, to, amount).balance(to) == ledger.balance(to)
            + amount,
        from == to ==> ledger.transferred(from, to, amount).balance(from) == ledger.balance(from),
        forall|other: Address|
            other != from && other != to ==> #[trigger] ledger.transferred(
                from,
                to,
                amount,
            ).balance(other) == ledger.balance(other),
        ledger.transferred(from, to, amount).total_supply == ledger.total_supply,
        ledger.transferred(from, to, amount).sum_of_balances() == ledger.sum_of_balances(),
{
    let debited = ledger.debited(from, amount);
    lemma_balance_le_sum(ledger.accounts, from);
    lemma_put(ledger.accounts, from, (ledger.balance(from) - amount) as nat);
    lemma_sum_put(ledger.accounts, from, (ledger.balance(from) - amount) as nat);
    lemma_balance_le_sum(debited.accounts, to);
    lemma_put(debited.accounts, to, debited.balance(to) + amount);
    lemma_sum_put(debited.accounts, to, debited.balance(to) + amount);
}

/// The balance of one account.
#[derive(Clone, Copy, Debug)]
pub struct Account {
    pub owner: Address,
    pub balance: U256,
}

/// What one spender may move out of one owner's balance.
#[derive(Clone, Copy, Debug)]
pub struct Allowance {
    pub owner: Address,
    pub spender: Address,
    pub amount: U256,
}

/// Balances, allowances and total supply of the receipt token.
#[derive(Clone, Debug)]
pub struct Ledger {
    accounts: Vec<Account>,
    allowances: Vec<Allowance>,
    total_supply: U256,
}

impl View for Ledger {
    type V = LedgerView;

    closed spec fn view(&self) -> LedgerView {
        LedgerView {
            accounts: Seq::new(
                self.accounts@.len(),
                |i: int| (self.accounts@[i].owner, self.accounts@[i].balance@),
            ),
            allowances: Seq::new(
                self.allowances@.len(),
                |i: int|
                    (
                        (self.allowances@[i].owner, self.allowances@[i].spender),
                        self.allowances@[i].amount@,
                    ),
            ),
            total_supply: self.total_supply@,
        }
    }
}

impl Ledger {
    /// One row per key, and the balances add up to the supply.
    pub open spec fn wf(&self) -> bool {
        self@.wf()
    }

    /// A ledger in which nothing was written yet.
    pub fn new() -> (r: Ledger)
        ensures
            r@ == LedgerView::empty(),
            r.wf(),
    {
        let r = Ledger { accounts: Vec::new(), allowances: Vec::new(), total_supply: U256::zero() };
        assert(r@.accounts =~= Seq::empty());
        assert(r@.allowances =~= Seq::empty());
        r
    }

    fn find_account(&self, who: Address) -> (r: Option<usize>)
        ensures
            match r {
                Some(i) => i < self@.accounts.len() && self@.accounts[i as int].0 == who
                    && self@.accounts[i as int].1 == self.accounts@[i as int].balance@,
                None => !has_key(self@.accounts, who),
            },
    {
        let mut i: usize = 0;
        while i < self.accounts.len()
            invariant
                i <= self.accounts@.len(),
                forall|j: int| 0 <= j < i ==> self.accounts@[j].owner != who,
            decreases self.accounts@.len() - i,
        {
            if self.accounts[i].owner == who {
                return Some(i);
            }
            i += 1;
        }
        None
    }

    fn find_allowance(&self, owner: Address, spender: Address) -> (r: Option<usize>)
        ensures
            match r {
                Some(i) => i < self@.allowances.len() && self@.allowances[i as int].0 == (
                    owner,
                    spender,
                ) && self@.allowances[i as int].1 == self.allowances@[i as int].amount@,
                None => !has_key(self@.allowances, (owner, spender)),
            },
    {
        let mut i: usize = 0;
        while i < self.allowances.len()
            invariant
                i <= self.allowances@.len(),
                forall|j: int|
                    0 <= j < i ==> !(self.allowances@[j].owner == owner
                        && self.allowances@[j].spender == spender),
            decreases self.allowances@.len() - i,
        {
            if self.allowances[i].owner == owner && self.allowances[i].spender == spender {
                return Some(i);
            }
            i += 1;
        }
        None
    }

    fn set_balance(&mut self, who: Address, balance: U256)
        requires
            distinct_keys(old(self)@.accounts),
        ensures
            final(self)@ == (LedgerView {
                accounts: put(old(self)@.accounts, who, balance@),
                ..old(self)@
            }),
    {
        match self.find_account(who) {
            Some(i) => {
                proof {
                    lemma_position(self@.accounts, i as int);
                }
                self.accounts.set(i, Account { owner: who, balance });
                assert(self@.accounts =~= old(self)@.accounts.update(i as int, (who, balance@)));
            },
            None => {
                self.accounts.push(Account { owner: who, balance });
                assert(self@.accounts =~= old(self)@.accounts.push((who, balance@)));
            },
        }
        assert(self@.allowances =~= old(self)@.allowances);
    }

    fn set_allowance(&mut self, owner: Address, spender: Address, amount: U256)
        requires
            distinct_keys(old(self)@.allowances),
        ensures
            final(self)@ == (LedgerView {
                allowances: put(old(self)@.allowances, (owner, spender), amount@),
                ..old(self)@
            }),
    {
        match self.find_allowance(owner, spender) {
            Some(i) => {
                proof {
                    lemma_position(self@.allowances, i as int);
                }
                self.allowances.set(i, Allowance { owner, spender, amount });
                assert(self@.allowances =~= old(self)@.allowances.update(
                    i as int,
                    ((owner, spender), amount@),
                ));
            },
            None => {
                self.allowances.push(Allowance { owner, spender, amount });
                assert(self@.allowances =~= old(self)@.allowances.push(
                    ((owner, spender), amount@),
                ));
            },
        }
        assert(self@.accounts =~= old(self)@.accounts);
    }

    /// The total supply.
    pub fn total_supply(&self) -> (r: U256)
        ensures
            r@ == self@.total_supply,
    {
        self.total_supply
    }

    /// The balance of `who`: zero if it was never written.
    pub fn balance_of(&self, who: Address) -> (r: U256)
        requires
            self.wf(),
        ensures
            r@ == self@.balance(who),
    {
        self.read_balance(who)
    }

    fn read_balance(&self, who: Address) -> (r: U256)
        requires
            distinct_keys(self@.accounts),
        ensures
            r@ == self@.balance(who),
    {
        match self.find_account(who) {
            Some(i) => {
                proof {
                    lemma_position(self@.accounts, i as int);
                }
                self.accounts[i].balance
            },
            None => U256::zero(),
        }
    }

    /// What `spender` may still move out of `owner`'s balance: zero if
    /// nothing was ever approved.
    pub fn allowance(&self, owner: Address, spender: Address) -> (r: U256)
        requires
            self.wf(),
        ensures
            r@ == self@.allowance(owner, spender),
    {
        match self.find_allowance(owner, spender) {
            Some(i) => {
                proof {
                    lemma_position(self@.allowances, i as int);
                }
                self.allowances[i].amount
            },
            None => U256::zero(),
        }
    }

    /// Creates `amount` tokens for `to`. Refused for the null identity, and
    /// where the supply would leave the 256-bit range.
    pub fn mint(&mut self, to: Address, amount: U256) -> (r: Result<Event, Error>)
        requires
            old(self).wf(),
        ensures
            final(self).wf(),
            match old(self)@.mint_error(to, amount@) {
                Some(e) => r == Err::<Event, Error>(e) && final(self)@ == old(self)@,
                None => r == Ok::<Event, Error>(
                    Event::Transfer { from: Address::spec_zero(), to, value: amount },
                ) && final(self)@ == old(self)@.minted(to, amount@),
            },
    {
        if to.is_zero() {
            return Err(Error::ZeroAddress);
        }
        let supply = match checked_add(self.total_supply, amount) {
            Some(s) => s,
            None => {
                return Err(Error::Overflow);
            },
        };
        let balance = self.balance_of(to);
        proof {
            lemma_balance_le_sum(self@.accounts, to);
            lemma_sum_put(self@.accounts, to, balance@ + amount@);
            lemma_put(self@.accounts, to, balance@ + amount@);
        }
        self.set_balance(to, checked_add(balance, amount).unwrap());
        self.total_supply = supply;
        Ok(Event::Transfer { from: Address::zero(), to, value: amount })
    }

    /// Destroys `amount` tokens of `from`. Refused for the null identity, and
    /// where `from` holds less.
    pub fn burn(&mut self, from: Address, amount: U256) -> (r: Result<Event, Error>)
        requires
            old(self).wf(),
        ensures
            final(self).wf(),
            match old(self)@.burn_error(from, amount@) {
                Some(e) => r == Err::<Event, Error>(e) && final(self)@ == old(self)@,
                None => r == Ok::<Event, Error>(
                    Event::Transfer { from, to: Address::spec_zero(), value: amount },
                ) && final(self)@ == old(self)@.burned(from, amount@),
            },
    {
        if from.is_zero() {
            return Err(Error::ZeroAddress);
        }
        let balance = self.balance_of(from);
        if balance.lt(&amount) {
            return Err(Error::InsufficientBalance);
        }
        proof {
            lemma_balance_le_sum(self@.accounts, from);
            lemma_sum_put(self@.accounts, from, (balance@ - amount@) as nat);
            lemma_put(self@.accounts, from, (balance@ - amount@) as nat);
        }
        self.set_balance(from, checked_sub(balance, amount).unwrap());
        self.total_supply = checked_sub(self.total_supply, amount).unwrap();
        Ok(Event::Transfer { from, to: Address::zero(), value: amount })
    }

    /// Moves `amount` tokens from `from` to `to`. Refused where either is the
    /// null identity, and where `from` holds less.
    pub fn transfer(&mut self, from: Address, to: Address, amount: U256) -> (r: Result<
        Event,
        Error,
    >)
        requires
            old(self).wf(),
        ensures
            final(self).wf(),
            match old(self)@.transfer_error(from, to, amount@) {
                Some(e) => r == Err::<Event, Error>(e) && final(self)@ == old(self)@,
                None => r == Ok::<Event, Error>(Event::Transfer { from, to, value: amount })
                    && final(self)@ == old(self)@.transferred(from, to, amount@),
            },
    {
        if from.is_zero() || to.is_zero() {
            return Err(Error::ZeroAddress);
        }
        let from_balance = self.balance_of(from);
        if from_balance.lt(&amount) {
            return Err(Error::InsufficientBalance);
        }
        proof {
            lemma_balance_le_sum(self@.accounts, from);
            lemma_sum_put(self@.accounts, from, (from_balance@ - amount@) as nat);
            lemma_put(self@.accounts, from, (from_balance@ - amount@) as nat);
        }
        self.set_balance(from, checked_sub(from_balance, amount).unwrap());
        assert(self@ == old(self)@.debited(from, amount@));
        let to_balance = self.read_balance(to);
        proof {
            lemma_balance_le_sum(self@.accounts, to);
            lemma_sum_put(self@.accounts, to, to_balance@ + amount@);
            lemma_put(self@.accounts, to, to_balance@ + amount@);
        }
        self.set_balance(to, checked_add(to_balance, amount).unwrap());
        Ok(Event::Transfer { from, to, value: amount })
    }

    /// Sets what `spender` may move out of `owner`'s balance to `amount`,
    /// replacing what was set before. Refused where either is the null
    /// identity.
    pub fn approve(&mut self, owner: Address, spender: Address, amount: U256) -> (r: Result<
        Event,
        Error,
    >)
        requires
            old(self).wf(),
        ensures
            final(self).wf(),
            match old(self)@.approve_error(owner, spender) {
                Some(e) => r == Err::<Event, Error>(e) && final(self)@ == old(self)@,
                None => r == Ok::<Event, Error>(Event::Approval { owner, spender, value: amount })
                    && final(self)@ == old(self)@.approved(owner, spender, amount@),
            },
    {
        if owner.is_zero() || spender.is_zero() {
            return Err(Error::ZeroAddress);
        }
        proof {
            lemma_put(self@.allowances, (owner, spender), amount@);
        }
        self.set_allowance(owner, spender, amount);
        Ok(Event::Approval { owner, spender, value: amount })
    }

    /// Lets `spender` move `amount` tokens from `from` to `to` against its
    /// allowance, which shrinks by `amount`. The allowance is checked before
    /// anything moves. Hands back the transfer and the approval, in this
    /// order.
    pub fn transfer_from(&mut self, spender: Address, from: Address, to: Address, amount: U256) -> (r:
        Result<(Event, Event), Error>)
        requires
            old(self).wf(),
        ensures
            final(self).wf(),
            match old(self)@.transfer_from_error(spender, from, to, amount@) {
                Some(e) => r == Err::<(Event, Event), Error>(e) && final(self)@ == old(self)@,
                None => r == Ok::<(Event, Event), Error>(
                    (
                        Event::Transfer { from, to, value: amount },
                        Event::Approval {
                            owner: from,
                            spender,
                            value: U256::spec_from_nat(
                                (old(self)@.allowance(from, spender) - amount@) as nat,
                            ),
                        },
                    ),
                ) && final(self)@ == old(self)@.spent(spender, from, to, amount@),
            },
    {
        let allowed = self.allowance(from, spender);
        if allowed.lt(&amount) {
            return Err(Error::InsufficientAllowance);
        }
        if from.is_zero() || to.is_zero() {
            return Err(Error::ZeroAddress);
        }
        if self.balance_of(from).lt(&amount) {
            return Err(Error::InsufficientBalance);
        }
        if spender.is_zero() {
            return Err(Error::ZeroAddress);
        }
        let rest = checked_sub(allowed, amount).unwrap();
        proof {
            rest.lemma_from_view();
        }
        let moved = self.transfer(from, to, amount);
        let approved = self.approve(from, spender, rest);
        Ok((moved.unwrap(), approved.unwrap()))
    }
}

} // verus!
