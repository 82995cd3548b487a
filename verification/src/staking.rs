//! The staking pool: one owned state, and the operations on it.
//!
//! Every operation takes what the host knows (who calls, what time it is,
//! what value came with the call, what the pool holds of the base asset) as
//! plain arguments, and hands back what the host has to do: the notifications
//! it appends to `events`, and a `Payout` where the base asset has to move.
//! An operation that is refused changes nothing and appends nothing.
//!
//! User operations first accrue the yield that is due, then convert at the
//! rate that results.

use vstd::prelude::*;
use crate::address::Address;
use crate::error::Error;
use crate::event::{Event, Payout};
use crate::ledger::{lemma_balance_le_sum, lemma_burned, lemma_minted, Ledger, LedgerView};
use crate::params::{DECIMALS, INITIAL_APY, MAX_APY, ONE_ETHER, SEVEN_DAYS, THIRTY_DAYS};
use crate::pool::{
    lemma_rate_after_accrual, lemma_rate_after_deposit, lemma_rate_after_request,
    lemma_rate_after_reward, Pool, PoolView,
};
use crate::u256::{checked_add, checked_sub, pow2_256, U256};
use crate::withdrawal::{owned_ids, QueueView, WithdrawalQueue, WithdrawalRequest};

verus! {

/// The pool's state as mathematics.
pub struct StateView {
    /// Balances, allowances and supply of the receipt token.
    pub ledger: LedgerView,
    /// Supply, pooled value, rate, time of the last accrual, yield counter.
    pub pool: PoolView,
    /// The withdrawal requests.
    pub queue: QueueView,
    /// How long a request waits before it can be claimed, in seconds.
    pub withdrawal_delay: nat,
    /// Who may administer the pool.
    pub owner: Address,
    /// Whether user operations are closed.
    pub paused: bool,
}

impl StateView {
    /// The balances add up to the supply, which is the pool's supply; the
    /// rate and the delay are within their ceilings; the queue lists every
    /// request under its owner.
    pub open spec fn wf(self) -> bool {
        &&& self.ledger.wf()
        &&& self.queue.wf()
        &&& self.pool.supply == self.ledger.total_supply
        &&& self.pool.rate_bps <= MAX_APY
        &&& self.withdrawal_delay <= THIRTY_DAYS
    }

    /// The state of a new pool that `sender` set up at `now`.
    pub open spec fn initial(sender: Address, now: nat) -> StateView {
        StateView {
            ledger: LedgerView::empty(),
            pool: PoolView {
                supply: 0,
                pooled: 0,
                rate_bps: INITIAL_APY as nat,
                last_accrual: now,
                accrued_total: 0,
            },
            queue: QueueView::empty(),
            withdrawal_delay: SEVEN_DAYS as nat,
            owner: sender,
            paused: false,
        }
    }

    /// Why an owner-only operation is refused to `caller`, if it is.
    pub open spec fn owner_error(self, caller: Address) -> Option<Error> {
        if caller != self.owner {
            Some(Error::Unauthorized)
        } else {
            None
        }
    }

    /// What accrual at `now` notifies of: the yield, if any was added.
    pub open spec fn accrual_events(self, now: nat) -> Seq<Event> {
        if self.pool.pending_yield(now) > 0 {
            seq![
                Event::RewardsDistributed {
                    total_rewards: U256::spec_from_nat(self.pool.pending_yield(now)),
                },
            ]
        } else {
            Seq::empty()
        }
    }

    /// The state after accrual at `now`.
    pub open spec fn accrued(self, now: nat) -> StateView {
        StateView { pool: self.pool.accrued(now), ..self }
    }

    /// The state after `caller` moves `amount` receipt tokens to `to`.
    pub open spec fn transferred(self, caller: Address, to: Address, amount: nat) -> StateView {
        StateView { ledger: self.ledger.transferred(caller, to, amount), ..self }
    }

    /// The state after `caller` lets `spender` move `amount` of its tokens.
    pub open spec fn approved(self, caller: Address, spender: Address, amount: nat) -> StateView {
        StateView { ledger: self.ledger.approved(caller, spender, amount), ..self }
    }

    /// The state after `caller` moves `amount` tokens from `from` to `to`
    /// against its allowance.
    pub open spec fn spent(self, caller: Address, from: Address, to: Address, amount: nat)
        -> StateView {
        StateView { ledger: self.ledger.spent(caller, from, to, amount), ..self }
    }

    /// The receipt tokens that a deposit of `value` at `now` creates.
    pub open spec fn stake_minted(self, value: nat, now: nat) -> nat {
        self.pool.accrued(now).to_receipt(value)
    }

    /// Why `stake` is refused, if it is.
    pub open spec fn stake_error(self, caller: Address, value: nat, now: nat) -> Option<Error> {
        let pool = self.pool.accrued(now);
        if self.paused {
            Some(Error::Paused)
        } else if value == 0 {
            Some(Error::InvalidAmount)
        } else if self.pool.accrual_error(now) is Some {
            self.pool.accrual_error(now)
        } else if pool.to_receipt_error(value) is Some {
            pool.to_receipt_error(value)
        } else if pool.pooled + value >= pow2_256() {
            Some(Error::Overflow)
        } else {
            self.ledger.mint_error(caller, pool.to_receipt(value))
        }
    }

    /// The state after `caller` deposits `value` at `now`.
    pub open spec fn staked(self, caller: Address, value: nat, now: nat) -> StateView {
        StateView {
            ledger: self.ledger.minted(caller, self.stake_minted(value, now)),
            pool: self.pool.accrued(now).deposited(value),
            ..self
        }
    }

    /// Why `request_withdrawal` is refused, if it is.
    pub open spec fn request_error(self, caller: Address, amount: nat, now: nat) -> Option<Error> {
        if self.paused {
            Some(Error::Paused)
        } else if self.ledger.balance(caller) < amount {
            Some(Error::InsufficientBalance)
        } else if self.pool.accrual_error(now) is Some {
            self.pool.accrual_error(now)
        } else {
            self.ledger.burn_error(caller, amount)
        }
    }

    /// The request that `request_withdrawal` records.
    pub open spec fn new_request(caller: Address, amount: U256, now: nat) -> WithdrawalRequest {
        WithdrawalRequest {
            user: caller,
            st_eth_amount: amount,
            request_time: U256::spec_from_nat(now),
            claimed: false,
        }
    }

    /// The state after `caller` requests the withdrawal of `amount` at `now`.
    pub open spec fn requested(self, caller: Address, amount: U256, now: nat) -> StateView {
        StateView {
            ledger: self.ledger.burned(caller, amount@),
            pool: self.pool.accrued(now).burned(amount@),
            queue: self.queue.pushed(StateView::new_request(caller, amount, now)),
            ..self
        }
    }

    /// What the request numbered `id` pays at `now`: the tokens that were
    /// destroyed for it, converted at the rate after accrual at `now`.
    pub open spec fn claim_payout(self, id: nat, now: nat) -> nat {
        self.pool.accrued(now).to_base(self.queue.row(id).st_eth_amount@)
    }

    /// Why `claim_withdrawal` is refused, if it is.
    pub open spec fn claim_error(self, caller: Address, id: nat, now: nat, contract_balance: nat)
        -> Option<Error> {
        let request = self.queue.row(id);
        let pool = self.pool.accrued(now);
        if id >= self.queue.requests.len() || request.user != caller {
            Some(Error::NotYourRequest)
        } else if request.claimed {
            Some(Error::AlreadyClaimed)
        } else if !request.matured(self.withdrawal_delay, now) {
            Some(Error::WithdrawalDelayNotMet)
        } else if self.pool.accrual_error(now) is Some {
            self.pool.accrual_error(now)
        } else if pool.to_base_error(request.st_eth_amount@) is Some {
            pool.to_base_error(request.st_eth_amount@)
        } else if contract_balance < self.claim_payout(id, now) {
            Some(Error::InsufficientContractBalance)
        } else if pool.pooled < self.claim_payout(id, now) {
            Some(Error::Overflow)
        } else {
            None
        }
    }

    /// The state after the request numbered `id` is paid out at `now`.
    pub open spec fn claimed(self, id: nat, now: nat) -> StateView {
        StateView {
            pool: self.pool.accrued(now).paid(self.claim_payout(id, now)),
            queue: self.queue.claimed(id as int),
            ..self
        }
    }

    /// Why `set_apy` is refused, if it is.
    pub open spec fn set_apy_error(self, caller: Address, new_apy: nat, now: nat) -> Option<Error> {
        if self.owner_error(caller) is Some {
            self.owner_error(caller)
        } else if new_apy > MAX_APY {
            Some(Error::InvalidAmount)
        } else {
            self.pool.accrual_error(now)
        }
    }

    /// The state after the annual rate is set to `new_apy` at `now`: the
    /// yield up to `now` accrues at the old rate.
    pub open spec fn with_apy(self, new_apy: nat, now: nat) -> StateView {
        StateView { pool: PoolView { rate_bps: new_apy, ..self.pool.accrued(now) }, ..self }
    }

    /// Why `set_withdrawal_delay` is refused, if it is.
    pub open spec fn set_delay_error(self, caller: Address, new_delay: nat) -> Option<Error> {
        if self.owner_error(caller) is Some {
            self.owner_error(caller)
        } else if new_delay > THIRTY_DAYS {
            Some(Error::InvalidAmount)
        } else {
            None
        }
    }

    /// Why `add_rewards` is refused, if it is.
    pub open spec fn add_rewards_error(self, caller: Address, value: nat) -> Option<Error> {
        if self.owner_error(caller) is Some {
            self.owner_error(caller)
        } else if value == 0 {
            Some(Error::InvalidAmount)
        } else if self.pool.pooled + value >= pow2_256() || self.pool.accrued_total + value
            >= pow2_256() {
            Some(Error::Overflow)
        } else {
            None
        }
    }

    /// Why `transfer_ownership` is refused, if it is.
    pub open spec fn transfer_ownership_error(self, caller: Address, new_owner: Address) -> Option<
        Error,
    > {
        if self.owner_error(caller) is Some {
            self.owner_error(caller)
        } else if new_owner == Address::spec_zero() {
            Some(Error::ZeroAddress)
        } else {
            None
        }
    }

    /// Why `emergency_withdraw` is refused, if it is. It is open only while
    /// the pool is paused.
    pub open spec fn emergency_error(self, caller: Address, amount: nat, contract_balance: nat)
        -> Option<Error> {
        if self.owner_error(caller) is Some {
            self.owner_error(caller)
        } else if !self.paused {
            Some(Error::Paused)
        } else if amount > contract_balance {
            Some(Error::InsufficientContractBalance)
        } else {
            None
        }
    }
}

/// In every consistent state the balances add up to the supply of receipt
/// tokens, so that no account holds more than the supply.
pub proof fn lemma_balances_add_up(state: StateView, who: Address)
    requires
        state.wf(),
    ensures
        state.ledger.sum_of_balances() == state.pool.supply,
        state.ledger.balance(who) <= state.pool.supply,
{
    lemma_balance_le_sum(state.ledger.accounts, who);
}

/// A deposit that is accepted adds the new tokens to the caller's balance
/// and to the supply and the deposit to the pooled value, changes no other
/// balance, keeps the balances adding up to the supply, and does not lower
/// the rate.
pub proof fn lemma_stake(state: StateView, caller: Address, value: nat, now: nat)
    requires
        state.wf(),
        state.stake_error(caller, value, now) is None,
    ensures
        ({
            let after = state.staked(caller, value, now);
            let minted = state.stake_minted(value, now);
            &&& after.ledger.balance(caller) == state.ledger.balance(caller) + minted
            &&& forall|other: Address|
                other != caller ==> #[trigger] after.ledger.balance(other) == state.ledger.balance(
                    other,
                )
            &&& after.ledger.total_supply == state.ledger.total_supply + minted
            &&& after.ledger.sum_of_balances() == after.pool.supply
            &&& after.pool.pooled == state.pool.accrued(now).pooled + value
            &&& after.pool.rate() >= state.pool.rate()
        }),
{
    lemma_minted(state.ledger, caller, state.stake_minted(value, now));
    lemma_rate_after_accrual(state.pool, now);
    lemma_rate_after_deposit(state.pool.accrued(now), value);
}

/// A withdrawal request that is accepted takes the amount from the caller's
/// balance and from the supply, changes no other balance and not the pooled
/// value after accrual, and keeps the balances adding up to the supply. It
/// does not lower the rate while tokens remain outstanding.
pub proof fn lemma_request(state: StateView, caller: Address, amount: U256, now: nat)
    requires
        state.wf(),
        state.request_error(caller, amount@, now) is None,
    ensures
        ({
            let after = state.requested(caller, amount, now);
            &&& after.ledger.balance(caller) == state.ledger.balance(caller) - amount@
            &&& forall|other: Address|
                other != caller ==> #[trigger] after.ledger.balance(other) == state.ledger.balance(
                    other,
                )
            &&& after.ledger.total_supply == state.ledger.total_supply - amount@
            &&& after.ledger.sum_of_balances() == after.pool.supply
            &&& after.pool.pooled == state.pool.accrued(now).pooled
            &&& after.pool.supply > 0 ==> after.pool.rate() >= state.pool.rate()
        }),
{
    lemma_burned(state.ledger, caller, amount@);
    lemma_balance_le_sum(state.ledger.accounts, caller);
    lemma_rate_after_request(state.pool, amount@, now);
}

/// The staking pool.
#[derive(Clone, Debug)]
pub struct LiquidStaking {
    ledger: Ledger,
    pool: Pool,
    queue: WithdrawalQueue,
    withdrawal_delay: U256,
    owner: Address,
    paused: bool,
}

impl View for LiquidStaking {
    type V = StateView;

    closed spec fn view(&self) -> StateView {
        StateView {
            ledger: self.ledger@,
            pool: self.pool.with_supply(self.ledger@.total_supply),
            queue: self.queue@,
            withdrawal_delay: self.withdrawal_delay@,
            owner: self.owner,
            paused: self.paused,
        }
    }
}

/// Appends the notification of an accrued yield, if there was one.
fn log_accrual(events: &mut Vec<Event>, rewards: Option<U256>)
    ensures
        final(events)@ == old(events)@ + (match rewards {
            Some(total_rewards) => seq![Event::RewardsDistributed { total_rewards }],
            None => Seq::empty(),
        }),
{
    match rewards {
        Some(total_rewards) => {
            events.push(Event::RewardsDistributed { total_rewards });
            assert(events@ =~= old(events)@ + seq![Event::RewardsDistributed { total_rewards }]);
        },
        None => {
            assert(events@ =~= old(events)@ + Seq::<Event>::empty());
        },
    }
}

impl LiquidStaking {
    /// The state is consistent: see `StateView::wf`.
    pub open spec fn wf(&self) -> bool {
        self@.wf()
    }

    /// Sets up a new pool owned by `sender`: no tokens, no value, the
    /// initial rate and delay, accrual starting at `now`, not paused.
    /// Notifies of the ownership.
    pub fn initialize(sender: Address, now: u64, events: &mut Vec<Event>) -> (r: Result<
        LiquidStaking,
        Error,
    >)
        ensures
            r is Ok,
            r.unwrap().wf(),
            r.unwrap()@ == StateView::initial(sender, now as nat),
            final(events)@ == old(events)@.push(
                Event::OwnershipTransferred {
                    previous_owner: Address::spec_zero(),
                    new_owner: sender,
                },
            ),
    {
        let state = LiquidStaking {
            ledger: Ledger::new(),
            pool: Pool {
                total_staked_eth: U256::zero(),
                rewards_accumulated: U256::zero(),
                apy: U256::from_u64(INITIAL_APY),
                last_reward_update: U256::from_u64(now),
            },
            queue: WithdrawalQueue::new(),
            withdrawal_delay: U256::from_u64(SEVEN_DAYS),
            owner: sender,
            paused: false,
        };
        events.push(
            Event::OwnershipTransferred { previous_owner: Address::zero(), new_owner: sender },
        );
        Ok(state)
    }

    /// Refuses everyone but the owner.
    pub fn only_owner(&self, caller: Address) -> (r: Result<(), Error>)
        ensures
            r == (match self@.owner_error(caller) {
                Some(e) => Err::<(), Error>(e),
                None => Ok::<(), Error>(()),
            }),
    {
        if caller == self.owner {
            Ok(())
        } else {
            Err(Error::Unauthorized)
        }
    }

    /// Refuses while the pool is paused.
    pub fn when_not_paused(&self) -> (r: Result<(), Error>)
        ensures
            r == (if self@.paused {
                Err::<(), Error>(Error::Paused)
            } else {
                Ok::<(), Error>(())
            }),
    {
        if self.paused {
            Err(Error::Paused)
        } else {
            Ok(())
        }
    }

    /// The name of the receipt token.
    pub fn name(&self) -> (r: Result<String, Error>)
        ensures
            r is Ok,
            r.unwrap()@ == "Staked Ether"@,
    {
        Ok("Staked Ether".to_string())
    }

    /// The symbol of the receipt token.
    pub fn symbol(&self) -> (r: Result<String, Error>)
        ensures
            r is Ok,
            r.unwrap()@ == "stEth"@,
    {
        Ok("stEth".to_string())
    }

    /// The decimals of the receipt token.
    pub fn decimals(&self) -> (r: Result<U256, Error>)
        ensures
            r is Ok,
            r.unwrap()@ == DECIMALS,
    {
        Ok(U256::from_u64(DECIMALS))
    }

    /// The receipt tokens outstanding.
    #[allow(non_snake_case)]
    pub fn totalSupply(&self) -> (r: Result<U256, Error>)
        ensures
            r is Ok,
            r.unwrap()@ == self@.ledger.total_supply,
    {
        Ok(self.ledger.total_supply())
    }

    /// The receipt tokens of `account`.
    pub fn balance_of(&self, account: Address) -> (r: Result<U256, Error>)
        requires
            self.wf(),
        ensures
            r is Ok,
            r.unwrap()@ == self@.ledger.balance(account),
    {
        Ok(self.ledger.balance_of(account))
    }

    /// What `spender` may still move out of `owner`'s balance.
    pub fn allowance(&self, owner: Address, spender: Address) -> (r: Result<U256, Error>)
        requires
            self.wf(),
        ensures
            r is Ok,
            r.unwrap()@ == self@.ledger.allowance(owner, spender),
    {
        Ok(self.ledger.allowance(owner, spender))
    }

    /// Moves `amount` receipt tokens of `caller` to `to`.
    pub fn transfer(&mut self, caller: Address, to: Address, amount: U256, events: &mut Vec<Event>)
        -> (r: Result<bool, Error>)
        requires
            old(self).wf(),
        ensures
            final(self).wf(),
            match old(self)@.ledger.transfer_error(caller, to, amount@) {
                Some(e) => r == Err::<bool, Error>(e) && final(self)@ == old(self)@ && final(events)@ == old(events)@,
                None => r == Ok::<bool, Error>(true) && final(self)@ == old(self)@.transferred(
                    caller,
                    to,
                    amount@,
                ) && final(events)@ == old(events)@.push(
                    Event::Transfer { from: caller, to, value: amount },
                ),
            },
            final(self)@.pool.rate() >= old(self)@.pool.rate(),
    {
        match self.ledger.transfer(caller, to, amount) {
            Ok(moved) => {
                events.push(moved);
                Ok(true)
            },
            Err(e) => Err(e),
        }
    }

    /// Sets what `spender` may move out of `caller`'s balance to `amount`.
    pub fn approve(
        &mut self,
        caller: Address,
        spender: Address,
        amount: U256,
        events: &mut Vec<Event>,
    ) -> (r: Result<bool, Error>)
        requires
            old(self).wf(),
        ensures
            final(self).wf(),
            match old(self)@.ledger.approve_error(caller, spender) {
                Some(e) => r == Err::<bool, Error>(e) && final(self)@ == old(self)@ && final(events)@ == old(events)@,
                None => r == Ok::<bool, Error>(true) && final(self)@ == old(self)@.approved(
                    caller,
                    spender,
                    amount@,
                ) && final(events)@ == old(events)@.push(
                    Event::Approval { owner: caller, spender, value: amount },
                ),
            },
            final(self)@.pool.rate() >= old(self)@.pool.rate(),
    {
        match self.ledger.approve(caller, spender, amount) {
            Ok(approved) => {
                events.push(approved);
                Ok(true)
            },
            Err(e) => Err(e),
        }
    }

    /// Moves `amount` receipt tokens from `from` to `to` against the
    /// allowance that `from` gave to `caller`, which shrinks by `amount`.
    pub fn transfer_from(
        &mut self,
        caller: Address,
        from: Address,
        to: Address,
        amount: U256,
        events: &mut Vec<Event>,
    ) -> (r: Result<bool, Error>)
        requires
            old(self).wf(),
        ensures
            final(self).wf(),
            match old(self)@.ledger.transfer_from_error(caller, from, to, amount@) {
                Some(e) => r == Err::<bool, Error>(e) && final(self)@ == old(self)@ && final(events)@ == old(events)@,
                None => r == Ok::<bool, Error>(true) && final(self)@ == old(self)@.spent(
                    caller,
                    from,
                    to,
                    amount@,
                ) && final(events)@ == old(events)@.push(
                    Event::Transfer { from, to, value: amount },
                ).push(
                    Event::Approval {
                        owner: from,
                        spender: caller,
                        value: U256::spec_from_nat(
                            (old(self)@.ledger.allowance(from, caller) - amount@) as nat,
                        ),
                    },
                ),
            },
            final(self)@.pool.rate() >= old(self)@.pool.rate(),
    {
        match self.ledger.transfer_from(caller, from, to, amount) {
            Ok((moved, approved)) => {
                events.push(moved);
                events.push(approved);
                Ok(true)
            },
            Err(e) => Err(e),
        }
    }

    /// Deposits `value` of the base asset for `caller` at `now`: accrues
    /// the yield that is due, creates receipt tokens for `value` at the rate
    /// that results, and adds `value` to the pooled value. Refused while
    /// paused, and for a value of zero.
    pub fn stake(&mut self, caller: Address, value: U256, now: u64, events: &mut Vec<Event>) -> (r:
        Result<(), Error>)
        requires
            old(self).wf(),
        ensures
            final(self).wf(),
            match old(self)@.stake_error(caller, value@, now as nat) {
                Some(e) => r == Err::<(), Error>(e) && final(self)@ == old(self)@ && final(events)@
                    == old(events)@,
                None => r == Ok::<(), Error>(()) && final(self)@ == old(self)@.staked(
                    caller,
                    value@,
                    now as nat,
                ) && final(events)@ == old(events)@ + old(self)@.accrual_events(now as nat)
                    + seq![
                    Event::Transfer {
                        from: Address::spec_zero(),
                        to: caller,
                        value: U256::spec_from_nat(old(self)@.stake_minted(value@, now as nat)),
                    },
                    Event::Staked {
                        user: caller,
                        eth_amount: value,
                        st_eth_minted: U256::spec_from_nat(
                            old(self)@.stake_minted(value@, now as nat),
                        ),
                    },
                ],
            },
            final(self)@.pool.rate() >= old(self)@.pool.rate(),
    {
        if self.paused {
            return Err(Error::Paused);
        }
        if value.is_zero() {
            return Err(Error::InvalidAmount);
        }
        let supply = self.ledger.total_supply();
        let (pool, rewards) = match self.pool.accrue(supply, now) {
            Ok(accrued) => accrued,
            Err(e) => {
                return Err(e);
            },
        };
        let minted = match pool.to_receipt(supply, value) {
            Ok(m) => m,
            Err(e) => {
                return Err(e);
            },
        };
        let pooled = match checked_add(pool.total_staked_eth, value) {
            Some(p) => p,
            None => {
                return Err(Error::Overflow);
            },
        };
        let moved = match self.ledger.mint(caller, minted) {
            Ok(moved) => moved,
            Err(e) => {
                return Err(e);
            },
        };
        self.pool = Pool {
            total_staked_eth: pooled,
            rewards_accumulated: pool.rewards_accumulated,
            apy: pool.apy,
            last_reward_update: pool.last_reward_update,
        };
        proof {
            minted.lemma_from_view();
            if rewards is Some {
                rewards.unwrap().lemma_from_view();
            }
            lemma_rate_after_accrual(old(self)@.pool, now as nat);
            lemma_rate_after_deposit(old(self)@.pool.accrued(now as nat), value@);
        }
        log_accrual(events, rewards);
        events.push(moved);
        events.push(Event::Staked { user: caller, eth_amount: value, st_eth_minted: minted });
        assert(events@ =~= old(events)@ + old(self)@.accrual_events(now as nat) + seq![
            moved,
            Event::Staked { user: caller, eth_amount: value, st_eth_minted: minted },
        ]);
        Ok(())
    }

    /// Requests the withdrawal of `st_eth_amount` receipt tokens of
    /// `caller` at `now`: accrues the yield that is due, destroys the
    /// tokens, and records the request under the next number. Refused while
    /// paused, and where `caller` holds less.
    pub fn request_withdrawal(
        &mut self,
        caller: Address,
        st_eth_amount: U256,
        now: u64,
        events: &mut Vec<Event>,
    ) -> (r: Result<(), Error>)
        requires
            old(self).wf(),
        ensures
            final(self).wf(),
            match old(self)@.request_error(caller, st_eth_amount@, now as nat) {
                Some(e) => r == Err::<(), Error>(e) && final(self)@ == old(self)@ && final(events)@
                    == old(events)@,
                None => r == Ok::<(), Error>(()) && final(self)@ == old(self)@.requested(
                    caller,
                    st_eth_amount,
                    now as nat,
                ) && final(events)@ == old(events)@ + old(self)@.accrual_events(now as nat)
                    + seq![
                    Event::Transfer {
                        from: caller,
                        to: Address::spec_zero(),
                        value: st_eth_amount,
                    },
                    Event::WithdrawalRequested {
                        user: caller,
                        st_eth_amount,
                        request_id: U256::spec_from_nat(old(self)@.queue.requests.len()),
                    },
                ],
            },
            final(self)@.pool.supply > 0 || old(self)@.pool.rate() <= ONE_ETHER ==> final(self)@.pool.rate() >= old(self)@.pool.rate(),
    {
        if self.paused {
            return Err(Error::Paused);
        }
        if self.ledger.balance_of(caller).lt(&st_eth_amount) {
            return Err(Error::InsufficientBalance);
        }
        let supply = self.ledger.total_supply();
        let (pool, rewards) = match self.pool.accrue(supply, now) {
            Ok(accrued) => accrued,
            Err(e) => {
                return Err(e);
            },
        };
        let moved = match self.ledger.burn(caller, st_eth_amount) {
            Ok(moved) => moved,
            Err(e) => {
                return Err(e);
            },
        };
        self.pool = pool;
        let time = U256::from_u64(now);
        let request_id = self.queue.push(
            WithdrawalRequest { user: caller, st_eth_amount, request_time: time, claimed: false },
        );
        proof {
            time.lemma_from_view();
            request_id.lemma_from_view();
            if rewards is Some {
                rewards.unwrap().lemma_from_view();
            }
            lemma_balance_le_sum(old(self)@.ledger.accounts, caller);
            lemma_rate_after_request(old(self)@.pool, st_eth_amount@, now as nat);
        }
        assert(self@.ledger == old(self)@.ledger.burned(caller, st_eth_amount@));
        assert(self@.pool == old(self)@.pool.accrued(now as nat).burned(st_eth_amount@));
        assert(self@.queue == old(self)@.queue.pushed(
            StateView::new_request(caller, st_eth_amount, now as nat),
        ));
        assert(self@ == old(self)@.requested(caller, st_eth_amount, now as nat));
        log_accrual(events, rewards);
        events.push(moved);
        events.push(Event::WithdrawalRequested { user: caller, st_eth_amount, request_id });
        assert(events@ =~= old(events)@ + old(self)@.accrual_events(now as nat) + seq![
            moved,
            Event::WithdrawalRequested { user: caller, st_eth_amount, request_id },
        ]);
        Ok(())
    }

    /// Pays out the request numbered `request_id` to `caller` at `now`:
    /// accrues the yield that is due, converts the tokens that were
    /// destroyed for the request at the rate that results, marks the request
    /// as claimed, takes the amount from the pooled value, and hands back
    /// the order to pay it. Refused to anyone but the request's owner, for a
    /// request claimed before, before the delay has passed, and where
    /// `contract_balance`, what the pool holds of the base asset, is less
    /// than the amount.
    pub fn claim_withdrawal(
        &mut self,
        caller: Address,
        request_id: U256,
        now: u64,
        contract_balance: U256,
        events: &mut Vec<Event>,
    ) -> (r: Result<Payout, Error>)
        requires
            old(self).wf(),
        ensures
            final(self).wf(),
            match old(self)@.claim_error(caller, request_id@, now as nat, contract_balance@) {
                Some(e) => r == Err::<Payout, Error>(e) && final(self)@ == old(self)@ && final(events)@
                    == old(events)@,
                None => r == Ok::<Payout, Error>(
                    Payout {
                        to: caller,
                        amount: U256::spec_from_nat(
                            old(self)@.claim_payout(request_id@, now as nat),
                        ),
                    },
                ) && final(self)@ == old(self)@.claimed(request_id@, now as nat) && final(events)@
                    == old(events)@ + old(self)@.accrual_events(now as nat) + seq![
                    Event::WithdrawalClaimed {
                        user: caller,
                        request_id,
                        eth_amount: U256::spec_from_nat(
                            old(self)@.claim_payout(request_id@, now as nat),
                        ),
                    },
                ],
            },
            old(self)@.pool.supply == 0 ==> final(self)@.pool.rate() == old(self)@.pool.rate(),
    {
        if self.queue.place(request_id).is_none() {
            return Err(Error::NotYourRequest);
        }
        let request = self.queue.get(request_id);
        if !(request.user == caller) {
            return Err(Error::NotYourRequest);
        }
        if request.claimed {
            return Err(Error::AlreadyClaimed);
        }
        let time = U256::from_u64(now);
        match checked_add(request.request_time, self.withdrawal_delay) {
            Some(due) => {
                if time.lt(&due) {
                    return Err(Error::WithdrawalDelayNotMet);
                }
            },
            None => {
                return Err(Error::WithdrawalDelayNotMet);
            },
        }
        let supply = self.ledger.total_supply();
        let (pool, rewards) = match self.pool.accrue(supply, now) {
            Ok(accrued) => accrued,
            Err(e) => {
                return Err(e);
            },
        };
        let amount = match pool.to_base(supply, request.st_eth_amount) {
            Ok(a) => a,
            Err(e) => {
                return Err(e);
            },
        };
        if contract_balance.lt(&amount) {
            return Err(Error::InsufficientContractBalance);
        }
        let pooled = match checked_sub(pool.total_staked_eth, amount) {
            Some(p) => p,
            None => {
                return Err(Error::Overflow);
            },
        };
        self.queue.mark_claimed(request_id);
        self.pool = Pool {
            total_staked_eth: pooled,
            rewards_accumulated: pool.rewards_accumulated,
            apy: pool.apy,
            last_reward_update: pool.last_reward_update,
        };
        proof {
            amount.lemma_from_view();
            if rewards is Some {
                rewards.unwrap().lemma_from_view();
            }
        }
        log_accrual(events, rewards);
        events.push(Event::WithdrawalClaimed { user: caller, request_id, eth_amount: amount });
        assert(events@ =~= old(events)@ + old(self)@.accrual_events(now as nat) + seq![
            Event::WithdrawalClaimed { user: caller, request_id, eth_amount: amount },
        ]);
        Ok(Payout { to: caller, amount })
    }

    /// The exchange rate: base units per receipt token, scaled by
    /// `ONE_ETHER`.
    pub fn get_exchange_rate(&self) -> (r: Result<U256, Error>)
        ensures
            match self@.pool.rate_error() {
                Some(e) => r == Err::<U256, Error>(e),
                None => r is Ok && r.unwrap()@ == self@.pool.rate(),
            },
    {
        self.pool.exchange_rate(self.ledger.total_supply())
    }

    /// The base asset that `st_eth_amount` receipt tokens stand for at the
    /// current rate, rounded down.
    pub fn st_eth_to_eth(&self, st_eth_amount: U256) -> (r: Result<U256, Error>)
        ensures
            match self@.pool.to_base_error(st_eth_amount@) {
                Some(e) => r == Err::<U256, Error>(e),
                None => r is Ok && r.unwrap()@ == self@.pool.to_base(st_eth_amount@),
            },
    {
        self.pool.to_base(self.ledger.total_supply(), st_eth_amount)
    }

    /// The receipt tokens that `eth_amount` of the base asset stands for at
    /// the current rate, rounded down.
    pub fn eth_to_st_eth(&self, eth_amount: U256) -> (r: Result<U256, Error>)
        ensures
            match self@.pool.to_receipt_error(eth_amount@) {
                Some(e) => r == Err::<U256, Error>(e),
                None => r is Ok && r.unwrap()@ == self@.pool.to_receipt(eth_amount@),
            },
    {
        self.pool.to_receipt(self.ledger.total_supply(), eth_amount)
    }

    /// Accrues the yield that is due at `now`, and notifies of it if any was
    /// added.
    pub fn update_rewards(&mut self, now: u64, events: &mut Vec<Event>) -> (r: Result<(), Error>)
        requires
            old(self).wf(),
        ensures
            final(self).wf(),
            match old(self)@.pool.accrual_error(now as nat) {
                Some(e) => r == Err::<(), Error>(e) && final(self)@ == old(self)@ && final(events)@
                    == old(events)@,
                None => r == Ok::<(), Error>(()) && final(self)@ == old(self)@.accrued(now as nat)
                    && final(events)@ == old(events)@ + old(self)@.accrual_events(now as nat),
            },
            final(self)@.pool.rate() >= old(self)@.pool.rate(),
    {
        let (pool, rewards) = match self.pool.accrue(self.ledger.total_supply(), now) {
            Ok(accrued) => accrued,
            Err(e) => {
                return Err(e);
            },
        };
        self.pool = pool;
        proof {
            if rewards is Some {
                rewards.unwrap().lemma_from_view();
            }
            lemma_rate_after_accrual(old(self)@.pool, now as nat);
        }
        log_accrual(events, rewards);
        Ok(())
    }

    /// The numbers of the requests of `user`, in the order of their making.
    pub fn get_user_withdrawal_requests(&self, user: Address) -> (r: Result<Vec<U256>, Error>)
        requires
            self.wf(),
        ensures
            r is Ok,
            r.unwrap()@.len() == owned_ids(self@.queue.requests, user).len(),
            forall|k: int|
                0 <= k < r.unwrap()@.len() ==> r.unwrap()@[k]@ == owned_ids(
                    self@.queue.requests,
                    user,
                )[k],
    {
        Ok(self.queue.ids_of(user))
    }

    /// Whether the request numbered `request_id` is unclaimed and its delay
    /// has passed at `now`.
    pub fn can_claim_withdrawal(&self, request_id: U256, now: u64) -> (r: Result<bool, Error>)
        ensures
            r == Ok::<bool, Error>(
                self@.queue.row(request_id@).claimable(self@.withdrawal_delay, now as nat),
            ),
    {
        let request = self.queue.get(request_id);
        let matured = match checked_add(request.request_time, self.withdrawal_delay) {
            Some(due) => due.le(&U256::from_u64(now)),
            None => false,
        };
        Ok(!request.claimed && matured)
    }

    /// The request numbered `request_id`: its owner, the tokens destroyed
    /// for it, the time of its making, and whether it was claimed.
    pub fn get_withdrawal_request(&self, request_id: U256) -> (r: Result<
        (Address, U256, U256, bool),
        Error,
    >)
        ensures
            r == Ok::<(Address, U256, U256, bool), Error>(
                (
                    self@.queue.row(request_id@).user,
                    self@.queue.row(request_id@).st_eth_amount,
                    self@.queue.row(request_id@).request_time,
                    self@.queue.row(request_id@).claimed,
                ),
            ),
    {
        let request = self.queue.get(request_id);
        Ok((request.user, request.st_eth_amount, request.request_time, request.claimed))
    }

    /// The pooled value.
    pub fn total_staked_eth(&self) -> (r: Result<U256, Error>)
        ensures
            r is Ok,
            r.unwrap()@ == self@.pool.pooled,
    {
        Ok(self.pool.total_staked_eth)
    }

    /// All yield and rewards ever added.
    pub fn rewards_accumulated(&self) -> (r: Result<U256, Error>)
        ensures
            r is Ok,
            r.unwrap()@ == self@.pool.accrued_total,
    {
        Ok(self.pool.rewards_accumulated)
    }

    /// The withdrawal delay, in seconds.
    pub fn withdrawal_delay(&self) -> (r: Result<U256, Error>)
        ensures
            r is Ok,
            r.unwrap()@ == self@.withdrawal_delay,
    {
        Ok(self.withdrawal_delay)
    }

    /// The annual rate, in basis points.
    pub fn apy(&self) -> (r: Result<U256, Error>)
        ensures
            r is Ok,
            r.unwrap()@ == self@.pool.rate_bps,
    {
        Ok(self.pool.apy)
    }

    /// The time up to which yield was accrued.
    pub fn last_reward_update(&self) -> (r: Result<U256, Error>)
        ensures
            r is Ok,
            r.unwrap()@ == self@.pool.last_accrual,
    {
        Ok(self.pool.last_reward_update)
    }

    /// The owner.
    pub fn owner(&self) -> (r: Result<Address, Error>)
        ensures
            r == Ok::<Address, Error>(self@.owner),
    {
        Ok(self.owner)
    }

    /// Whether user operations are closed.
    pub fn paused(&self) -> (r: Result<bool, Error>)
        ensures
            r == Ok::<bool, Error>(self@.paused),
    {
        Ok(self.paused)
    }

    /// Sets the annual rate to `new_apy` basis points at `now`, after the
    /// yield up to `now` has accrued at the old rate. Owner only; refused
    /// above `MAX_APY`.
    pub fn set_apy(&mut self, caller: Address, new_apy: U256, now: u64, events: &mut Vec<Event>)
        -> (r: Result<(), Error>)
        requires
            old(self).wf(),
        ensures
            final(self).wf(),
            match old(self)@.set_apy_error(caller, new_apy@, now as nat) {
                Some(e) => r == Err::<(), Error>(e) && final(self)@ == old(self)@ && final(events)@
                    == old(events)@,
                None => r == Ok::<(), Error>(()) && final(self)@ == old(self)@.with_apy(
                    new_apy@,
                    now as nat,
                ) && final(events)@ == old(events)@ + old(self)@.accrual_events(now as nat),
            },
            final(self)@.pool.rate() >= old(self)@.pool.rate(),
    {
        if !(caller == self.owner) {
            return Err(Error::Unauthorized);
        }
        if U256::from_u64(MAX_APY).lt(&new_apy) {
            return Err(Error::InvalidAmount);
        }
        let (pool, rewards) = match self.pool.accrue(self.ledger.total_supply(), now) {
            Ok(accrued) => accrued,
            Err(e) => {
                return Err(e);
            },
        };
        self.pool = Pool {
            total_staked_eth: pool.total_staked_eth,
            rewards_accumulated: pool.rewards_accumulated,
            apy: new_apy,
            last_reward_update: pool.last_reward_update,
        };
        proof {
            if rewards is Some {
                rewards.unwrap().lemma_from_view();
            }
            lemma_rate_after_accrual(old(self)@.pool, now as nat);
        }
        log_accrual(events, rewards);
        Ok(())
    }

    /// Sets the withdrawal delay to `new_delay` seconds. Owner only;
    /// refused above `THIRTY_DAYS`.
    pub fn set_withdrawal_delay(&mut self, caller: Address, new_delay: U256) -> (r: Result<
        (),
        Error,
    >)
        requires
            old(self).wf(),
        ensures
            final(self).wf(),
            match old(self)@.set_delay_error(caller, new_delay@) {
                Some(e) => r == Err::<(), Error>(e) && final(self)@ == old(self)@,
                None => r == Ok::<(), Error>(()) && final(self)@ == (StateView {
                    withdrawal_delay: new_delay@,
                    ..old(self)@
                }),
            },
            final(self)@.pool.rate() >= old(self)@.pool.rate(),
    {
        if !(caller == self.owner) {
            return Err(Error::Unauthorized);
        }
        if U256::from_u64(THIRTY_DAYS).lt(&new_delay) {
            return Err(Error::InvalidAmount);
        }
        self.withdrawal_delay = new_delay;
        Ok(())
    }

    /// Adds `value` of the base asset to the pooled value as a reward, and
    /// to the yield counter. Owner only; refused for a value of zero. No
    /// yield accrues here.
    pub fn add_rewards(&mut self, caller: Address, value: U256, events: &mut Vec<Event>) -> (r:
        Result<(), Error>)
        requires
            old(self).wf(),
        ensures
            final(self).wf(),
            match old(self)@.add_rewards_error(caller, value@) {
                Some(e) => r == Err::<(), Error>(e) && final(self)@ == old(self)@ && final(events)@
                    == old(events)@,
                None => r == Ok::<(), Error>(()) && final(self)@ == (StateView {
                    pool: old(self)@.pool.rewarded(value@),
                    ..old(self)@
                }) && final(events)@ == old(events)@.push(
                    Event::RewardsDistributed { total_rewards: value },
                ),
            },
            final(self)@.pool.rate() >= old(self)@.pool.rate(),
    {
        if !(caller == self.owner) {
            return Err(Error::Unauthorized);
        }
        if value.is_zero() {
            return Err(Error::InvalidAmount);
        }
        let pooled = match checked_add(self.pool.total_staked_eth, value) {
            Some(p) => p,
            None => {
                return Err(Error::Overflow);
            },
        };
        let accumulated = match checked_add(self.pool.rewards_accumulated, value) {
            Some(a) => a,
            None => {
                return Err(Error::Overflow);
            },
        };
        self.pool = Pool {
            total_staked_eth: pooled,
            rewards_accumulated: accumulated,
            apy: self.pool.apy,
            last_reward_update: self.pool.last_reward_update,
        };
        proof {
            lemma_rate_after_reward(old(self)@.pool, value@);
        }
        events.push(Event::RewardsDistributed { total_rewards: value });
        Ok(())
    }

    /// Closes the user operations. Owner only.
    pub fn pause(&mut self, caller: Address, events: &mut Vec<Event>) -> (r: Result<(), Error>)
        requires
            old(self).wf(),
        ensures
            final(self).wf(),
            match old(self)@.owner_error(caller) {
                Some(e) => r == Err::<(), Error>(e) && final(self)@ == old(self)@ && final(events)@
                    == old(events)@,
                None => r == Ok::<(), Error>(()) && final(self)@ == (StateView {
                    paused: true,
                    ..old(self)@
                }) && final(events)@ == old(events)@.push(Event::Pause),
            },
            final(self)@.pool.rate() >= old(self)@.pool.rate(),
    {
        if !(caller == self.owner) {
            return Err(Error::Unauthorized);
        }
        self.paused = true;
        events.push(Event::Pause);
        Ok(())
    }

    /// Opens the user operations again. Owner only.
    pub fn unpause(&mut self, caller: Address, events: &mut Vec<Event>) -> (r: Result<(), Error>)
        requires
            old(self).wf(),
        ensures
            final(self).wf(),
            match old(self)@.owner_error(caller) {
                Some(e) => r == Err::<(), Error>(e) && final(self)@ == old(self)@ && final(events)@
                    == old(events)@,
                None => r == Ok::<(), Error>(()) && final(self)@ == (StateView {
                    paused: false,
                    ..old(self)@
                }) && final(events)@ == old(events)@.push(Event::Unpaused),
            },
            final(self)@.pool.rate() >= old(self)@.pool.rate(),
    {
        if !(caller == self.owner) {
            return Err(Error::Unauthorized);
        }
        self.paused = false;
        events.push(Event::Unpaused);
        Ok(())
    }

    /// Hands the ownership to `new_owner`. Owner only; refused for the null
    /// identity.
    pub fn transfer_ownership(
        &mut self,
        caller: Address,
        new_owner: Address,
        events: &mut Vec<Event>,
    ) -> (r: Result<(), Error>)
        requires
            old(self).wf(),
        ensures
            final(self).wf(),
            match old(self)@.transfer_ownership_error(caller, new_owner) {
                Some(e) => r == Err::<(), Error>(e) && final(self)@ == old(self)@ && final(events)@
                    == old(events)@,
                None => r == Ok::<(), Error>(()) && final(self)@ == (StateView {
                    owner: new_owner,
                    ..old(self)@
                }) && final(events)@ == old(events)@.push(
                    Event::OwnershipTransferred {
                        previous_owner: old(self)@.owner,
                        new_owner,
                    },
                ),
            },
            final(self)@.pool.rate() >= old(self)@.pool.rate(),
    {
        if !(caller == self.owner) {
            return Err(Error::Unauthorized);
        }
        if new_owner.is_zero() {
            return Err(Error::ZeroAddress);
        }
        let previous_owner = self.owner;
        self.owner = new_owner;
        events.push(Event::OwnershipTransferred { previous_owner, new_owner });
        Ok(())
    }

    /// Orders `amount` of the base asset to be paid to the owner, whatever
    /// the pending requests are owed. Owner only; open only while paused;
    /// refused above `contract_balance`, what the pool holds of the base
    /// asset. The state does not change.
    pub fn emergency_withdraw(&self, caller: Address, amount: U256, contract_balance: U256) -> (r:
        Result<Payout, Error>)
        ensures
            r == (match self@.emergency_error(caller, amount@, contract_balance@) {
                Some(e) => Err::<Payout, Error>(e),
                None => Ok::<Payout, Error>(Payout { to: self@.owner, amount }),
            }),
    {
        if !(caller == self.owner) {
            return Err(Error::Unauthorized);
        }
        if !self.paused {
            return Err(Error::Paused);
        }
        if contract_balance.lt(&amount) {
            return Err(Error::InsufficientContractBalance);
        }
        Ok(Payout { to: self.owner, amount })
    }

    /// Whether the pool takes the base asset that `sender` sends without a
    /// call: only from the owner.
    pub fn receive(&self, sender: Address) -> (r: Result<(), Error>)
        ensures
            r == (match self@.owner_error(sender) {
                Some(e) => Err::<(), Error>(e),
                None => Ok::<(), Error>(()),
            }),
    {
        self.only_owner(sender)
    }
}

} // verus!
