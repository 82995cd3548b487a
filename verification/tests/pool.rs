use liquid_staking::address::Address;
use liquid_staking::error::Error;
use liquid_staking::event::Event;
use liquid_staking::staking::LiquidStaking;
use liquid_staking::u256::U256;

const ALICE: Address = Address { hi: 0, lo: 1 };
const BOB: Address = Address { hi: 0, lo: 2 };
const OWNER: Address = Address { hi: 0x1000_0000, lo: 1 };
const NOBODY: Address = Address { hi: 0, lo: 0 };
const YEAR: u64 = 31_536_000;
const DAY: u64 = 86_400;
const T0: u64 = 1_700_000_000;

fn v(x: u128) -> U256 {
    U256::from_limbs([x as u64, (x >> 64) as u64, 0, 0])
}

fn fresh_pool() -> LiquidStaking {
    let mut events = Vec::new();
    LiquidStaking::initialize(OWNER, T0, &mut events).unwrap()
}

/// A pool with 100 receipt tokens of Alice against a pooled value of 105.
fn pool_at_rate_1_05() -> LiquidStaking {
    let mut pool = fresh_pool();
    let mut events = Vec::new();
    pool.stake(ALICE, v(100), T0, &mut events).unwrap();
    pool.update_rewards(T0 + YEAR, &mut events).unwrap();
    pool
}

#[test]
fn a_new_pool_has_its_initial_parameters() {
    let pool = fresh_pool();
    assert_eq!(pool.name().unwrap(), "Staked Ether");
    assert_eq!(pool.symbol().unwrap(), "stEth");
    assert_eq!(pool.decimals(), Ok(v(18)));
    assert_eq!(pool.totalSupply(), Ok(v(0)));
    assert_eq!(pool.total_staked_eth(), Ok(v(0)));
    assert_eq!(pool.rewards_accumulated(), Ok(v(0)));
    assert_eq!(pool.withdrawal_delay(), Ok(v(604_800)));
    assert_eq!(pool.apy(), Ok(v(500)));
    assert_eq!(pool.last_reward_update(), Ok(v(T0 as u128)));
    assert_eq!(pool.owner(), Ok(OWNER));
    assert_eq!(pool.paused(), Ok(false));
}

#[test]
fn first_stake_of_one_unit_mints_one_token() {
    let mut pool = fresh_pool();
    let mut events = Vec::new();
    assert_eq!(pool.stake(ALICE, v(1), T0, &mut events), Ok(()));
    assert_eq!(pool.balance_of(ALICE), Ok(v(1)));
    assert_eq!(pool.totalSupply(), Ok(v(1)));
    assert_eq!(pool.total_staked_eth(), Ok(v(1)));
    assert_eq!(
        events,
        vec![
            Event::Transfer { from: NOBODY, to: ALICE, value: v(1) },
            Event::Staked { user: ALICE, eth_amount: v(1), st_eth_minted: v(1) },
        ]
    );
}

#[test]
fn one_year_at_five_percent_turns_100_into_105() {
    let mut pool = fresh_pool();
    let mut events = Vec::new();
    pool.stake(ALICE, v(100), T0, &mut events).unwrap();
    assert_eq!(pool.get_exchange_rate(), Ok(v(1_000_000_000_000_000_000)));
    events.clear();
    assert_eq!(pool.update_rewards(T0 + YEAR, &mut events), Ok(()));
    assert_eq!(pool.total_staked_eth(), Ok(v(105)));
    assert_eq!(pool.totalSupply(), Ok(v(100)));
    assert_eq!(pool.rewards_accumulated(), Ok(v(5)));
    assert_eq!(pool.last_reward_update(), Ok(v((T0 + YEAR) as u128)));
    assert_eq!(pool.get_exchange_rate(), Ok(v(1_050_000_000_000_000_000)));
    assert_eq!(events, vec![Event::RewardsDistributed { total_rewards: v(5) }]);
}

#[test]
fn stake_of_nothing_is_refused() {
    let mut pool = fresh_pool();
    let mut events = Vec::new();
    assert_eq!(pool.stake(ALICE, v(0), T0, &mut events), Err(Error::InvalidAmount));
    assert_eq!(pool.totalSupply(), Ok(v(0)));
    assert!(events.is_empty());
}

#[test]
fn stake_is_closed_while_paused() {
    let mut pool = fresh_pool();
    let mut events = Vec::new();
    pool.pause(OWNER, &mut events).unwrap();
    events.clear();
    assert_eq!(pool.stake(ALICE, v(10), T0, &mut events), Err(Error::Paused));
    assert_eq!(pool.stake(ALICE, v(0), T0, &mut events), Err(Error::Paused));
    pool.unpause(OWNER, &mut events).unwrap();
    assert_eq!(pool.stake(ALICE, v(10), T0, &mut events), Ok(()));
}

#[test]
fn stake_by_the_null_identity_is_refused() {
    let mut pool = fresh_pool();
    let mut events = Vec::new();
    assert_eq!(pool.stake(NOBODY, v(10), T0, &mut events), Err(Error::ZeroAddress));
    assert_eq!(pool.total_staked_eth(), Ok(v(0)));
    assert!(events.is_empty());
}

#[test]
fn stake_converts_at_the_rate_after_accrual() {
    let mut pool = fresh_pool();
    let mut events = Vec::new();
    pool.stake(ALICE, v(100), T0, &mut events).unwrap();
    events.clear();
    // The year's yield of 5 accrues first; 21 units then buy 21 * 100 / 105 tokens.
    assert_eq!(pool.stake(BOB, v(21), T0 + YEAR, &mut events), Ok(()));
    assert_eq!(pool.balance_of(BOB), Ok(v(20)));
    assert_eq!(pool.totalSupply(), Ok(v(120)));
    assert_eq!(pool.total_staked_eth(), Ok(v(126)));
    assert_eq!(pool.get_exchange_rate(), Ok(v(1_050_000_000_000_000_000)));
    assert_eq!(
        events,
        vec![
            Event::RewardsDistributed { total_rewards: v(5) },
            Event::Transfer { from: NOBODY, to: BOB, value: v(20) },
            Event::Staked { user: BOB, eth_amount: v(21), st_eth_minted: v(20) },
        ]
    );
}

#[test]
fn stake_rounds_the_new_tokens_down() {
    let mut pool = pool_at_rate_1_05();
    let mut events = Vec::new();
    pool.stake(BOB, v(10), T0 + YEAR, &mut events).unwrap();
    assert_eq!(pool.balance_of(BOB), Ok(v(9)));
    assert_eq!(pool.totalSupply(), Ok(v(109)));
    assert_eq!(pool.total_staked_eth(), Ok(v(115)));
}

#[test]
fn conversions_are_one_to_one_on_an_empty_pool() {
    let pool = fresh_pool();
    assert_eq!(pool.eth_to_st_eth(v(12_345)), Ok(v(12_345)));
    assert_eq!(pool.st_eth_to_eth(v(12_345)), Ok(v(12_345)));
    assert_eq!(pool.get_exchange_rate(), Ok(v(1_000_000_000_000_000_000)));
    let max = U256::from_limbs([u64::MAX; 4]);
    assert_eq!(pool.eth_to_st_eth(max), Ok(max));
    assert_eq!(pool.st_eth_to_eth(max), Ok(max));
}

#[test]
fn conversions_round_down() {
    let pool = pool_at_rate_1_05();
    assert_eq!(pool.eth_to_st_eth(v(10)), Ok(v(9)));
    assert_eq!(pool.eth_to_st_eth(v(105)), Ok(v(100)));
    assert_eq!(pool.eth_to_st_eth(v(1)), Ok(v(0)));
    assert_eq!(pool.st_eth_to_eth(v(9)), Ok(v(9)));
    assert_eq!(pool.st_eth_to_eth(v(100)), Ok(v(105)));
    assert_eq!(pool.st_eth_to_eth(v(1)), Ok(v(1)));
    assert_eq!(pool.st_eth_to_eth(v(20)), Ok(v(21)));
}

#[test]
fn round_trip_never_gives_more_than_was_put_in() {
    let pool = pool_at_rate_1_05();
    let mut x: u128 = 0;
    while x <= 250 {
        let tokens = pool.eth_to_st_eth(v(x)).unwrap();
        let back = pool.st_eth_to_eth(tokens).unwrap();
        assert!(back.le(&v(x)));
        if (x * 100) % 105 == 0 {
            assert_eq!(back, v(x));
        }
        x += 1;
    }
    assert_eq!(pool.st_eth_to_eth(pool.eth_to_st_eth(v(10)).unwrap()), Ok(v(9)));
    assert_eq!(pool.st_eth_to_eth(pool.eth_to_st_eth(v(21)).unwrap()), Ok(v(21)));
}

#[test]
fn accrual_twice_at_the_same_time_is_accrual_once() {
    let mut once = fresh_pool();
    let mut twice = fresh_pool();
    let mut events = Vec::new();
    once.stake(ALICE, v(1_000_000), T0, &mut events).unwrap();
    twice.stake(ALICE, v(1_000_000), T0, &mut events).unwrap();
    once.update_rewards(T0 + DAY, &mut events).unwrap();
    twice.update_rewards(T0 + DAY, &mut events).unwrap();
    events.clear();
    twice.update_rewards(T0 + DAY, &mut events).unwrap();
    assert!(events.is_empty());
    assert_eq!(once.total_staked_eth(), Ok(v(1_000_136)));
    assert_eq!(twice.total_staked_eth(), once.total_staked_eth());
    assert_eq!(twice.rewards_accumulated(), once.rewards_accumulated());
    assert_eq!(twice.last_reward_update(), once.last_reward_update());
    assert_eq!(twice.totalSupply(), once.totalSupply());
    assert_eq!(twice.apy(), once.apy());
}

#[test]
fn yield_is_the_share_of_the_year_rounded_down() {
    let mut pool = fresh_pool();
    let mut events = Vec::new();
    let thousand_ether: u128 = 1_000_000_000_000_000_000_000;
    pool.stake(ALICE, v(thousand_ether), T0, &mut events).unwrap();
    events.clear();
    pool.update_rewards(T0 + DAY, &mut events).unwrap();
    let due: u128 = 136_986_301_369_863_013;
    assert_eq!(pool.total_staked_eth(), Ok(v(thousand_ether + due)));
    assert_eq!(pool.rewards_accumulated(), Ok(v(due)));
    assert_eq!(events, vec![Event::RewardsDistributed { total_rewards: v(due) }]);
}

#[test]
fn a_yield_of_zero_leaves_the_time_where_it_was() {
    let mut pool = fresh_pool();
    let mut events = Vec::new();
    pool.stake(ALICE, v(100), T0, &mut events).unwrap();
    events.clear();
    // 100 * 500 * 6_307_199 is just below one unit of yield.
    pool.update_rewards(T0 + 6_307_199, &mut events).unwrap();
    assert_eq!(pool.total_staked_eth(), Ok(v(100)));
    assert_eq!(pool.last_reward_update(), Ok(v(T0 as u128)));
    assert!(events.is_empty());
    pool.update_rewards(T0 + 6_307_200, &mut events).unwrap();
    assert_eq!(pool.total_staked_eth(), Ok(v(101)));
    assert_eq!(pool.last_reward_update(), Ok(v((T0 + 6_307_200) as u128)));
}

#[test]
fn an_empty_pool_only_takes_the_time() {
    let mut pool = fresh_pool();
    let mut events = Vec::new();
    pool.update_rewards(T0 + YEAR, &mut events).unwrap();
    assert_eq!(pool.last_reward_update(), Ok(v((T0 + YEAR) as u128)));
    assert_eq!(pool.total_staked_eth(), Ok(v(0)));
    pool.update_rewards(T0, &mut events).unwrap();
    assert_eq!(pool.last_reward_update(), Ok(v(T0 as u128)));
    assert!(events.is_empty());
}

#[test]
fn time_that_does_not_move_on_accrues_nothing() {
    let mut pool = pool_at_rate_1_05();
    let mut events = Vec::new();
    pool.update_rewards(T0 + YEAR, &mut events).unwrap();
    pool.update_rewards(T0, &mut events).unwrap();
    pool.update_rewards(0, &mut events).unwrap();
    assert_eq!(pool.total_staked_eth(), Ok(v(105)));
    assert_eq!(pool.last_reward_update(), Ok(v((T0 + YEAR) as u128)));
    assert!(events.is_empty());
}

#[test]
fn the_rate_does_not_fall_while_tokens_remain() {
    let mut pool = fresh_pool();
    let mut events = Vec::new();
    let mut last = pool.get_exchange_rate().unwrap();
    pool.stake(ALICE, v(1_000), T0, &mut events).unwrap();
    assert!(last.le(&pool.get_exchange_rate().unwrap()));
    last = pool.get_exchange_rate().unwrap();
    pool.stake(BOB, v(777), T0 + 40 * DAY, &mut events).unwrap();
    assert!(last.le(&pool.get_exchange_rate().unwrap()));
    last = pool.get_exchange_rate().unwrap();
    pool.transfer(ALICE, BOB, v(10), &mut events).unwrap();
    assert_eq!(last, pool.get_exchange_rate().unwrap());
    pool.request_withdrawal(BOB, v(300), T0 + 90 * DAY, &mut events).unwrap();
    assert!(last.le(&pool.get_exchange_rate().unwrap()));
    last = pool.get_exchange_rate().unwrap();
    pool.add_rewards(OWNER, v(55), &mut events).unwrap();
    assert!(last.lt(&pool.get_exchange_rate().unwrap()));
    last = pool.get_exchange_rate().unwrap();
    pool.stake(ALICE, v(3), T0 + 91 * DAY, &mut events).unwrap();
    assert!(last.le(&pool.get_exchange_rate().unwrap()));
}

#[test]
fn add_rewards_raises_the_pooled_value() {
    let mut pool = fresh_pool();
    let mut events = Vec::new();
    pool.stake(ALICE, v(100), T0, &mut events).unwrap();
    events.clear();
    assert_eq!(pool.add_rewards(OWNER, v(5), &mut events), Ok(()));
    assert_eq!(pool.total_staked_eth(), Ok(v(105)));
    assert_eq!(pool.rewards_accumulated(), Ok(v(5)));
    assert_eq!(pool.totalSupply(), Ok(v(100)));
    assert_eq!(pool.last_reward_update(), Ok(v(T0 as u128)));
    assert_eq!(events, vec![Event::RewardsDistributed { total_rewards: v(5) }]);
}

#[test]
fn add_rewards_is_for_the_owner_and_not_for_nothing() {
    let mut pool = fresh_pool();
    let mut events = Vec::new();
    assert_eq!(pool.add_rewards(ALICE, v(5), &mut events), Err(Error::Unauthorized));
    assert_eq!(pool.add_rewards(ALICE, v(0), &mut events), Err(Error::Unauthorized));
    assert_eq!(pool.add_rewards(OWNER, v(0), &mut events), Err(Error::InvalidAmount));
    assert_eq!(pool.total_staked_eth(), Ok(v(0)));
    assert!(events.is_empty());
}

#[test]
fn amounts_beyond_256_bits_are_refused() {
    let max = U256::from_limbs([u64::MAX; 4]);
    let mut pool = fresh_pool();
    let mut events = Vec::new();
    assert_eq!(pool.stake(ALICE, max, T0, &mut events), Ok(()));
    assert_eq!(pool.totalSupply(), Ok(max));
    assert_eq!(pool.total_staked_eth(), Ok(max));
    events.clear();
    assert_eq!(pool.stake(BOB, v(2), T0, &mut events), Err(Error::Overflow));
    assert_eq!(pool.add_rewards(OWNER, v(1), &mut events), Err(Error::Overflow));
    assert_eq!(pool.get_exchange_rate(), Err(Error::Overflow));
    assert_eq!(pool.st_eth_to_eth(v(2)), Err(Error::Overflow));
    assert_eq!(pool.eth_to_st_eth(v(2)), Err(Error::Overflow));
    assert_eq!(pool.st_eth_to_eth(v(1)), Ok(v(1)));
    assert_eq!(pool.update_rewards(T0 + 1, &mut events), Err(Error::Overflow));
    assert_eq!(pool.totalSupply(), Ok(max));
    assert_eq!(pool.total_staked_eth(), Ok(max));
    assert_eq!(pool.last_reward_update(), Ok(v(T0 as u128)));
    assert_eq!(pool.balance_of(BOB), Ok(v(0)));
    assert!(events.is_empty());
}

#[test]
fn conversion_is_exact_across_limbs() {
    let mut pool = fresh_pool();
    let mut events = Vec::new();
    let two_100 = U256::from_limbs([0, 1 << 36, 0, 0]);
    let two_101 = U256::from_limbs([0, 1 << 37, 0, 0]);
    let two_150 = U256::from_limbs([0, 0, 1 << 22, 0]);
    pool.stake(ALICE, two_100, T0, &mut events).unwrap();
    pool.add_rewards(OWNER, two_101, &mut events).unwrap();
    // Pooled value 3 * 2^100 against a supply of 2^100.
    assert_eq!(pool.total_staked_eth(), Ok(U256::from_limbs([0, 3 << 36, 0, 0])));
    assert_eq!(pool.get_exchange_rate(), Ok(v(3_000_000_000_000_000_000)));
    let third = U256::from_limbs([0x5555_5555_5555_5555, 0x5555_5555_5555_5555, 0x15_5555, 0]);
    assert_eq!(pool.eth_to_st_eth(two_150), Ok(third));
    assert_eq!(
        pool.st_eth_to_eth(third),
        Ok(U256::from_limbs([u64::MAX, u64::MAX, 0x3f_ffff, 0]))
    );
    pool.stake(BOB, two_150, T0, &mut events).unwrap();
    assert_eq!(pool.balance_of(BOB), Ok(third));
    assert_eq!(
        pool.totalSupply(),
        Ok(U256::from_limbs([0x5555_5555_5555_5555, 0x5555_5565_5555_5555, 0x15_5555, 0]))
    );
    assert_eq!(
        pool.total_staked_eth(),
        Ok(U256::from_limbs([0, 3 << 36, 1 << 22, 0]))
    );
}

#[test]
fn tokens_against_no_value_cannot_be_bought() {
    let mut pool = fresh_pool();
    let mut events = Vec::new();
    pool.stake(ALICE, v(50), T0, &mut events).unwrap();
    pool.stake(BOB, v(50), T0, &mut events).unwrap();
    pool.request_withdrawal(ALICE, v(50), T0, &mut events).unwrap();
    // Alice's 50 tokens are converted against the 50 that remain: 50 * 100 / 50.
    let paid = pool.claim_withdrawal(ALICE, v(0), T0 + 7 * DAY, v(100), &mut events).unwrap();
    assert_eq!(paid.amount, v(100));
    assert_eq!(pool.total_staked_eth(), Ok(v(0)));
    assert_eq!(pool.totalSupply(), Ok(v(50)));
    assert_eq!(pool.get_exchange_rate(), Ok(v(0)));
    events.clear();
    assert_eq!(pool.eth_to_st_eth(v(10)), Err(Error::DivisionByZero));
    assert_eq!(pool.stake(ALICE, v(10), T0 + 7 * DAY, &mut events), Err(Error::DivisionByZero));
    assert_eq!(pool.st_eth_to_eth(v(10)), Ok(v(0)));
    assert!(events.is_empty());
}
