//! The pool: its value, the yield that accrues on it over time, and the
//! exchange rate between the base asset and the receipt token.
//!
//! All divisions round down, so what a conversion loses stays in the pool.

use vstd::prelude::*;
use vstd::arithmetic::div_mod::{lemma_fundamental_div_mod, lemma_mod_bound};
use crate::error::Error;
use crate::params::{BASIS_POINTS, ONE_ETHER, SECONDS_PER_YEAR};
use crate::u256::{checked_add, checked_div, checked_mul, checked_sub, pow2_256, U256};

verus! {

/// The pool as mathematics.
pub struct PoolView {
    /// Receipt tokens outstanding.
    pub supply: nat,
    /// Base asset that backs them, accrued yield included.
    pub pooled: nat,
    /// Annual yield rate, in basis points.
    pub rate_bps: nat,
    /// The time up to which yield was accrued.
    pub last_accrual: nat,
    /// All yield and rewards ever added; never falls.
    pub accrued_total: nat,
}

impl PoolView {
    /// The exchange rate: base units per receipt token, scaled by
    /// `ONE_ETHER`; exactly `ONE_ETHER` while no token is outstanding.
    pub open spec fn rate(self) -> nat {
        if self.supply == 0 {
            ONE_ETHER as nat
        } else {
            self.pooled * (ONE_ETHER as nat) / self.supply
        }
    }

    /// Receipt tokens for `base_amount` of the base asset: one for one while
    /// no token is outstanding, else in proportion, rounded down.
    pub open spec fn to_receipt(self, base_amount: nat) -> nat {
        if self.supply == 0 {
            base_amount
        } else {
            base_amount * self.supply / self.pooled
        }
    }

    /// Base asset for `receipt_amount` receipt tokens: one for one while no
    /// token is outstanding, else in proportion, rounded down.
    pub open spec fn to_base(self, receipt_amount: nat) -> nat {
        if self.supply == 0 {
            receipt_amount
        } else {
            receipt_amount * self.pooled / self.supply
        }
    }

    /// The yield that is due at `now` and not yet accrued: the pooled value
    /// times the annual rate times the share of the year that has passed,
    /// rounded down. Nothing is due on an empty pool, nor when time has not
    /// moved on.
    pub open spec fn pending_yield(self, now: nat) -> nat {
        if self.supply == 0 || now <= self.last_accrual {
            0
        } else {
            self.pooled * self.rate_bps * ((now - self.last_accrual) as nat) / ((SECONDS_PER_YEAR
                * BASIS_POINTS) as nat)
        }
    }

    /// The pool after accrual at `now`. An empty pool only takes the time.
    /// Otherwise a yield above zero is added and the time taken; a yield of
    /// zero changes nothing, so that short intervals add up.
    pub open spec fn accrued(self, now: nat) -> PoolView {
        if self.supply == 0 {
            PoolView { last_accrual: now, ..self }
        } else if self.pending_yield(now) > 0 {
            PoolView {
                pooled: self.pooled + self.pending_yield(now),
                accrued_total: self.accrued_total + self.pending_yield(now),
                last_accrual: now,
                ..self
            }
        } else {
            self
        }
    }

    /// The pool after `amount` of the base asset is deposited and receipt
    /// tokens are created for it at the current rate.
    pub open spec fn deposited(self, amount: nat) -> PoolView {
        PoolView {
            supply: self.supply + self.to_receipt(amount),
            pooled: self.pooled + amount,
            ..self
        }
    }

    /// The pool after `amount` receipt tokens are destroyed.
    pub open spec fn burned(self, amount: nat) -> PoolView {
        PoolView { supply: (self.supply - amount) as nat, ..self }
    }

    /// The pool after the owner adds `amount` of the base asset as a reward.
    pub open spec fn rewarded(self, amount: nat) -> PoolView {
        PoolView {
            pooled: self.pooled + amount,
            accrued_total: self.accrued_total + amount,
            ..self
        }
    }

    /// The pool after `amount` of the base asset is paid out.
    pub open spec fn paid(self, amount: nat) -> PoolView {
        PoolView { pooled: (self.pooled - amount) as nat, ..self }
    }

    /// Why the rate cannot be given, if it cannot.
    pub open spec fn rate_error(self) -> Option<Error> {
        if self.supply > 0 && self.pooled * (ONE_ETHER as nat) >= pow2_256() {
            Some(Error::Overflow)
        } else {
            None
        }
    }

    /// Why `base_amount` cannot be converted, if it cannot.
    pub open spec fn to_receipt_error(self, base_amount: nat) -> Option<Error> {
        if self.supply == 0 {
            None
        } else if base_amount * self.supply >= pow2_256() {
            Some(Error::Overflow)
        } else if self.pooled == 0 {
            Some(Error::DivisionByZero)
        } else {
            None
        }
    }

    /// Why `receipt_amount` cannot be converted, if it cannot.
    pub open spec fn to_base_error(self, receipt_amount: nat) -> Option<Error> {
        if self.supply > 0 && receipt_amount * self.pooled >= pow2_256() {
            Some(Error::Overflow)
        } else {
            None
        }
    }

    /// Why accrual at `now` is refused, if it is: the weighted value, the new
    /// pooled value or the new yield counter would leave the 256-bit range.
    pub open spec fn accrual_error(self, now: nat) -> Option<Error> {
        if self.supply > 0 && now > self.last_accrual && (self.pooled * self.rate_bps * ((now
            - self.last_accrual) as nat) >= pow2_256() || (self.pending_yield(now) > 0 && (
        self.pooled + self.pending_yield(now) >= pow2_256() || self.accrued_total
            + self.pending_yield(now) >= pow2_256()))) {
            Some(Error::Overflow)
        } else {
            None
        }
    }
}

/// A quotient rounded down, times the divisor, is the largest multiple of
/// the divisor that does not exceed the dividend.
pub proof fn lemma_floor(n: nat, d: nat)
    requires
        d > 0,
    ensures
        (n / d) * d <= n < (n / d) * d + d,
{
    lemma_fundamental_div_mod(n as int, d as int);
    lemma_mod_bound(n as int, d as int);
    assert((n / d) * d == d * (n / d)) by (nonlinear_arith);
}

/// Whatever fits `d` times into `n` is at most the quotient.
pub proof fn lemma_floor_greatest(q: nat, n: nat, d: nat)
    requires
        d > 0,
        q * d <= n,
    ensures
        q <= n / d,
{
    lemma_floor(n, d);
    assert(q <= n / d) by (nonlinear_arith)
        requires
            d > 0,
            q * d <= n,
            n < (n / d) * d + d,
    ;
}

/// Of two fractions, the one that is at least as large by cross
/// multiplication has at least as large a scaled quotient.
pub proof fn lemma_scaled_quotients_ordered(a: nat, b: nat, c: nat, d: nat, k: nat)
    requires
        b > 0,
        d > 0,
        a * d >= c * b,
    ensures
        a * k / b >= c * k / d,
{
    let q = c * k / d;
    lemma_floor(c * k, d);
    assert(q * b <= a * k) by (nonlinear_arith)
        requires
            q * d <= c * k,
            a * d >= c * b,
            d > 0,
    {
        assert(q * d * b <= c * k * b);
        assert(c * k * b == (c * b) * k);
        assert((c * b) * k <= (a * d) * k);
        assert((a * d) * k == a * k * d);
        assert(q * d * b == q * b * d);
    }
    lemma_floor_greatest(q, a * k, b);
}

/// Accruing twice at the same time gives what accruing once gives.
pub proof fn lemma_accrual_idempotent(pool: PoolView, now: nat)
    ensures
        pool.accrued(now).accrued(now) == pool.accrued(now),
{
}

/// Accrual never lowers the rate.
pub proof fn lemma_rate_after_accrual(pool: PoolView, now: nat)
    ensures
        pool.accrued(now).rate() >= pool.rate(),
{
    if pool.supply > 0 {
        let after = pool.accrued(now);
        assert(after.pooled * pool.supply >= pool.pooled * pool.supply) by (nonlinear_arith)
            requires
                after.pooled >= pool.pooled,
        ;
        lemma_scaled_quotients_ordered(
            after.pooled,
            pool.supply,
            pool.pooled,
            pool.supply,
            ONE_ETHER as nat,
        );
    }
}

/// A reward never lowers the rate.
pub proof fn lemma_rate_after_reward(pool: PoolView, amount: nat)
    ensures
        pool.rewarded(amount).rate() >= pool.rate(),
{
    if pool.supply > 0 {
        assert((pool.pooled + amount) * pool.supply >= pool.pooled * pool.supply)
            by (nonlinear_arith);
        lemma_scaled_quotients_ordered(
            pool.pooled + amount,
            pool.supply,
            pool.pooled,
            pool.supply,
            ONE_ETHER as nat,
        );
    }
}

/// A deposit converted at the current rate never lowers the rate: rounding
/// the new tokens down can only raise it.
pub proof fn lemma_rate_after_deposit(pool: PoolView, amount: nat)
    requires
        pool.supply > 0 ==> pool.pooled > 0,
    ensures
        pool.deposited(amount).rate() >= pool.rate(),
{
    let after = pool.deposited(amount);
    let e = ONE_ETHER as nat;
    if pool.supply > 0 {
        let minted = amount * pool.supply / pool.pooled;
        lemma_floor(amount * pool.supply, pool.pooled);
        assert((pool.pooled + amount) * pool.supply >= pool.pooled * (pool.supply + minted))
            by (nonlinear_arith)
            requires
                minted * pool.pooled <= amount * pool.supply,
        ;
        lemma_scaled_quotients_ordered(
            pool.pooled + amount,
            pool.supply + minted,
            pool.pooled,
            pool.supply,
            e,
        );
    } else if amount > 0 {
        assert((pool.pooled + amount) * e >= e * amount) by (nonlinear_arith);
        lemma_floor_greatest(e, (pool.pooled + amount) * e, amount);
    }
}

/// Burning receipt tokens never lowers the rate while some remain
/// outstanding.
pub proof fn lemma_rate_after_burn(pool: PoolView, amount: nat)
    requires
        amount < pool.supply,
    ensures
        pool.burned(amount).rate() >= pool.rate(),
{
    let rest = (pool.supply - amount) as nat;
    assert(pool.pooled * pool.supply >= pool.pooled * rest) by (nonlinear_arith)
        requires
            rest <= pool.supply,
    ;
    lemma_scaled_quotients_ordered(pool.pooled, rest, pool.pooled, pool.supply, ONE_ETHER as nat);
}

/// Accrual followed by the burning of receipt tokens never lowers the rate
/// while some tokens remain outstanding, nor where the rate was at most one
/// to one before.
pub proof fn lemma_rate_after_request(pool: PoolView, amount: nat, now: nat)
    requires
        amount <= pool.supply,
    ensures
        pool.accrued(now).burned(amount).supply > 0 || pool.rate() <= ONE_ETHER
            ==> pool.accrued(now).burned(amount).rate() >= pool.rate(),
{
    lemma_rate_after_accrual(pool, now);
    if amount < pool.supply {
        lemma_rate_after_burn(pool.accrued(now), amount);
    }
}

/// Converting the base asset to receipt tokens and back never gives more
/// than was put in. It gives exactly as much while no token is outstanding,
/// and when the amount times the supply is a multiple of the pooled value.
pub proof fn lemma_round_trip(pool: PoolView, amount: nat)
    requires
        pool.supply > 0 ==> pool.pooled > 0,
    ensures
        pool.to_base(pool.to_receipt(amount)) <= amount,
        pool.supply == 0 || (amount * pool.supply) % pool.pooled == 0 ==> pool.to_base(
            pool.to_receipt(amount),
        ) == amount,
{
    if pool.supply > 0 {
        let s = pool.supply;
        let p = pool.pooled;
        let minted = amount * s / p;
        lemma_floor(amount * s, p);
        lemma_floor(minted * p, s);
        let back = minted * p / s;
        assert(back <= amount) by (nonlinear_arith)
            requires
                back * s <= minted * p,
                minted * p <= amount * s,
                s > 0,
        ;
        if (amount * s) % p == 0 {
            lemma_fundamental_div_mod((amount * s) as int, p as int);
            assert(minted * p == amount * s) by (nonlinear_arith)
                requires
                    amount * s == p * minted,
            ;
            lemma_floor_greatest(amount, minted * p, s);
        }
    }
}

/// The part of the pool that is kept beside the ledger: the supply is the
/// ledger's.
#[derive(Clone, Copy, Debug)]
pub struct Pool {
    pub total_staked_eth: U256,
    pub rewards_accumulated: U256,
    pub apy: U256,
    pub last_reward_update: U256,
}

impl Pool {
    /// The pool that these values and a supply of `supply` make up.
    pub open spec fn with_supply(self, supply: nat) -> PoolView {
        PoolView {
            supply,
            pooled: self.total_staked_eth@,
            rate_bps: self.apy@,
            last_accrual: self.last_reward_update@,
            accrued_total: self.rewards_accumulated@,
        }
    }

    /// The exchange rate, scaled by `ONE_ETHER`.
    pub fn exchange_rate(self, supply: U256) -> (r: Result<U256, Error>)
        ensures
            match self.with_supply(supply@).rate_error() {
                Some(e) => r == Err::<U256, Error>(e),
                None => r is Ok && r.unwrap()@ == self.with_supply(supply@).rate(),
            },
    {
        if supply.is_zero() {
            return Ok(U256::from_u64(ONE_ETHER));
        }
        match checked_mul(self.total_staked_eth, U256::from_u64(ONE_ETHER)) {
            Some(scaled) => Ok(checked_div(scaled, supply).unwrap()),
            None => Err(Error::Overflow),
        }
    }

    /// Receipt tokens for `base_amount` of the base asset, rounded down.
    pub fn to_receipt(self, supply: U256, base_amount: U256) -> (r: Result<U256, Error>)
        ensures
            match self.with_supply(supply@).to_receipt_error(base_amount@) {
                Some(e) => r == Err::<U256, Error>(e),
                None => r is Ok && r.unwrap()@ == self.with_supply(supply@).to_receipt(
                    base_amount@,
                ),
            },
    {
        if supply.is_zero() {
            return Ok(base_amount);
        }
        match checked_mul(base_amount, supply) {
            Some(scaled) => match checked_div(scaled, self.total_staked_eth) {
                Some(q) => Ok(q),
                None => Err(Error::DivisionByZero),
            },
            None => Err(Error::Overflow),
        }
    }

    /// Base asset for `receipt_amount` receipt tokens, rounded down.
    pub fn to_base(self, supply: U256, receipt_amount: U256) -> (r: Result<U256, Error>)
        ensures
            match self.with_supply(supply@).to_base_error(receipt_amount@) {
                Some(e) => r == Err::<U256, Error>(e),
                None => r is Ok && r.unwrap()@ == self.with_supply(supply@).to_base(
                    receipt_amount@,
                ),
            },
    {
        if supply.is_zero() {
            return Ok(receipt_amount);
        }
        match checked_mul(receipt_amount, self.total_staked_eth) {
            Some(scaled) => Ok(checked_div(scaled, supply).unwrap()),
            None => Err(Error::Overflow),
        }
    }

    /// Accrues the yield that is due at `now`. Hands back the pool after
    /// accrual and the yield that was added, if any was.
    pub fn accrue(self, supply: U256, now: u64) -> (r: Result<(Pool, Option<U256>), Error>)
        ensures
            match self.with_supply(supply@).accrual_error(now as nat) {
                Some(e) => r == Err::<(Pool, Option<U256>), Error>(e),
                None => r is Ok && r.unwrap().0.with_supply(supply@) == self.with_supply(
                    supply@,
                ).accrued(now as nat) && match r.unwrap().1 {
                    Some(rewards) => rewards@ > 0 && rewards@ == self.with_supply(
                        supply@,
                    ).pending_yield(now as nat),
                    None => self.with_supply(supply@).pending_yield(now as nat) == 0,
                },
            },
    {
        let time = U256::from_u64(now);
        if supply.is_zero() {
            return Ok(
                (
                    Pool {
                        total_staked_eth: self.total_staked_eth,
                        rewards_accumulated: self.rewards_accumulated,
                        apy: self.apy,
                        last_reward_update: time,
                    },
                    None,
                ),
            );
        }
        if time.le(&self.last_reward_update) {
            return Ok((self, None));
        }
        let elapsed = checked_sub(time, self.last_reward_update).unwrap();
        let weighted = match checked_mul(self.total_staked_eth, self.apy) {
            Some(w) => w,
            None => {
                assert(self.total_staked_eth@ * self.apy@ * elapsed@ >= pow2_256())
                    by (nonlinear_arith)
                    requires
                        self.total_staked_eth@ * self.apy@ >= pow2_256(),
                        elapsed@ >= 1,
                ;
                return Err(Error::Overflow);
            },
        };
        let grown = match checked_mul(weighted, elapsed) {
            Some(g) => g,
            None => {
                return Err(Error::Overflow);
            },
        };
        let rewards = checked_div(grown, U256::from_u64(SECONDS_PER_YEAR * BASIS_POINTS)).unwrap();
        if rewards.is_zero() {
            return Ok((self, None));
        }
        let pooled = match checked_add(self.total_staked_eth, rewards) {
            Some(p) => p,
            None => {
                return Err(Error::Overflow);
            },
        };
        let accumulated = match checked_add(self.rewards_accumulated, rewards) {
            Some(a) => a,
            None => {
                return Err(Error::Overflow);
            },
        };
        Ok(
            (
                Pool {
                    total_staked_eth: pooled,
                    rewards_accumulated: accumulated,
                    apy: self.apy,
                    last_reward_update: time,
                },
                Some(rewards),
            ),
        )
    }
}

} // verus!
