use liquid_staking::address::Address;
use liquid_staking::error::Error;
use liquid_staking::event::{Event, Payout};
use liquid_staking::staking::LiquidStaking;
use liquid_staking::u256::U256;

const ALICE: Address = Address { hi: 0, lo: 1 };
const BOB: Address = Address { hi: 0, lo: 2 };
const OWNER: Address = Address { hi: 0x1000_0000, lo: 1 };
const NOBODY: Address = Address { hi: 0, lo: 0 };
const YEAR: u64 = 31_536_000;
const T0: u64 = 1_700_000_000;

fn a(x: u64) -> U256 {
    U256::from_u64(x)
}

fn admin_pool() -> LiquidStaking {
    let mut events = Vec::new();
    LiquidStaking::initialize(OWNER, T0, &mut events).unwrap()
}

#[test]
fn set_apy_is_for_the_owner_whatever_the_value() {
    let mut pool = admin_pool();
    let mut events = Vec::new();
    assert_eq!(pool.set_apy(ALICE, a(0), T0, &mut events), Err(Error::Unauthorized));
    assert_eq!(pool.set_apy(ALICE, a(700), T0, &mut events), Err(Error::Unauthorized));
    assert_eq!(pool.set_apy(ALICE, a(2_000), T0, &mut events), Err(Error::Unauthorized));
    assert_eq!(pool.set_apy(ALICE, a(2_001), T0, &mut events), Err(Error::Unauthorized));
    assert_eq!(
        pool.set_apy(ALICE, U256::from_limbs([u64::MAX; 4]), T0, &mut events),
        Err(Error::Unauthorized)
    );
    assert_eq!(pool.set_apy(NOBODY, a(700), T0, &mut events), Err(Error::Unauthorized));
    assert_eq!(pool.apy(), Ok(a(500)));
}

#[test]
fn set_apy_above_the_ceiling_is_refused() {
    let mut pool = admin_pool();
    let mut events = Vec::new();
    assert_eq!(pool.set_apy(OWNER, a(2_001), T0, &mut events), Err(Error::InvalidAmount));
    assert_eq!(
        pool.set_apy(OWNER, U256::from_limbs([0, 1, 0, 0]), T0, &mut events),
        Err(Error::InvalidAmount)
    );
    assert_eq!(pool.apy(), Ok(a(500)));
    assert_eq!(pool.set_apy(OWNER, a(2_000), T0, &mut events), Ok(()));
    assert_eq!(pool.apy(), Ok(a(2_000)));
    assert_eq!(pool.set_apy(OWNER, a(0), T0, &mut events), Ok(()));
    assert_eq!(pool.apy(), Ok(a(0)));
}

#[test]
fn set_apy_accrues_at_the_old_rate_first() {
    let mut pool = admin_pool();
    let mut events = Vec::new();
    pool.stake(ALICE, a(1_000), T0, &mut events).unwrap();
    events.clear();
    assert_eq!(pool.set_apy(OWNER, a(1_000), T0 + YEAR, &mut events), Ok(()));
    assert_eq!(pool.total_staked_eth(), Ok(a(1_050)));
    assert_eq!(pool.last_reward_update(), Ok(a(T0 + YEAR)));
    assert_eq!(events, vec![Event::RewardsDistributed { total_rewards: a(50) }]);
    events.clear();
    pool.update_rewards(T0 + 2 * YEAR, &mut events).unwrap();
    assert_eq!(pool.total_staked_eth(), Ok(a(1_155)));
}

#[test]
fn a_rate_of_zero_accrues_nothing() {
    let mut pool = admin_pool();
    let mut events = Vec::new();
    pool.stake(ALICE, a(1_000), T0, &mut events).unwrap();
    pool.set_apy(OWNER, a(0), T0, &mut events).unwrap();
    events.clear();
    pool.update_rewards(T0 + 10 * YEAR, &mut events).unwrap();
    assert_eq!(pool.total_staked_eth(), Ok(a(1_000)));
    assert!(events.is_empty());
}

#[test]
fn set_withdrawal_delay_has_a_ceiling_of_thirty_days() {
    let mut pool = admin_pool();
    assert_eq!(pool.set_withdrawal_delay(ALICE, a(60)), Err(Error::Unauthorized));
    assert_eq!(pool.set_withdrawal_delay(ALICE, a(2_592_001)), Err(Error::Unauthorized));
    assert_eq!(pool.set_withdrawal_delay(OWNER, a(2_592_001)), Err(Error::InvalidAmount));
    assert_eq!(pool.withdrawal_delay(), Ok(a(604_800)));
    assert_eq!(pool.set_withdrawal_delay(OWNER, a(2_592_000)), Ok(()));
    assert_eq!(pool.withdrawal_delay(), Ok(a(2_592_000)));
    assert_eq!(pool.set_withdrawal_delay(OWNER, a(0)), Ok(()));
    assert_eq!(pool.withdrawal_delay(), Ok(a(0)));
}

#[test]
fn pause_and_unpause_are_for_the_owner() {
    let mut pool = admin_pool();
    let mut events = Vec::new();
    assert_eq!(pool.pause(ALICE, &mut events), Err(Error::Unauthorized));
    assert_eq!(pool.paused(), Ok(false));
    assert_eq!(pool.when_not_paused(), Ok(()));
    assert_eq!(pool.pause(OWNER, &mut events), Ok(()));
    assert_eq!(pool.paused(), Ok(true));
    assert_eq!(pool.when_not_paused(), Err(Error::Paused));
    assert_eq!(pool.unpause(ALICE, &mut events), Err(Error::Unauthorized));
    assert_eq!(pool.paused(), Ok(true));
    assert_eq!(pool.unpause(OWNER, &mut events), Ok(()));
    assert_eq!(pool.paused(), Ok(false));
    assert_eq!(events, vec![Event::Pause, Event::Unpaused]);
}

#[test]
fn transfers_stay_open_while_paused() {
    let mut pool = admin_pool();
    let mut events = Vec::new();
    pool.stake(ALICE, a(10), T0, &mut events).unwrap();
    pool.request_withdrawal(ALICE, a(4), T0, &mut events).unwrap();
    pool.pause(OWNER, &mut events).unwrap();
    assert_eq!(pool.transfer(ALICE, BOB, a(3), &mut events), Ok(true));
    assert_eq!(pool.approve(ALICE, BOB, a(3), &mut events), Ok(true));
    assert_eq!(pool.update_rewards(T0 + 1, &mut events), Ok(()));
    assert!(pool.claim_withdrawal(ALICE, a(0), T0 + 604_800, a(100), &mut events).is_ok());
}

#[test]
fn ownership_passes_to_the_new_owner() {
    let mut pool = admin_pool();
    let mut events = Vec::new();
    assert_eq!(pool.only_owner(OWNER), Ok(()));
    assert_eq!(pool.only_owner(ALICE), Err(Error::Unauthorized));
    assert_eq!(pool.transfer_ownership(ALICE, BOB, &mut events), Err(Error::Unauthorized));
    assert_eq!(pool.transfer_ownership(ALICE, NOBODY, &mut events), Err(Error::Unauthorized));
    assert_eq!(pool.transfer_ownership(OWNER, NOBODY, &mut events), Err(Error::ZeroAddress));
    assert_eq!(pool.owner(), Ok(OWNER));
    assert!(events.is_empty());
    assert_eq!(pool.transfer_ownership(OWNER, ALICE, &mut events), Ok(()));
    assert_eq!(pool.owner(), Ok(ALICE));
    assert_eq!(
        events,
        vec![Event::OwnershipTransferred { previous_owner: OWNER, new_owner: ALICE }]
    );
    assert_eq!(pool.only_owner(OWNER), Err(Error::Unauthorized));
    assert_eq!(pool.pause(OWNER, &mut events), Err(Error::Unauthorized));
    assert_eq!(pool.pause(ALICE, &mut events), Ok(()));
}

#[test]
fn emergency_withdraw_is_open_only_while_paused() {
    let mut pool = admin_pool();
    let mut events = Vec::new();
    assert_eq!(pool.emergency_withdraw(ALICE, a(1), a(10)), Err(Error::Unauthorized));
    assert_eq!(pool.emergency_withdraw(OWNER, a(1), a(10)), Err(Error::Paused));
    assert_eq!(pool.emergency_withdraw(OWNER, a(11), a(10)), Err(Error::Paused));
    pool.pause(OWNER, &mut events).unwrap();
    assert_eq!(pool.emergency_withdraw(ALICE, a(1), a(10)), Err(Error::Unauthorized));
    assert_eq!(
        pool.emergency_withdraw(OWNER, a(11), a(10)),
        Err(Error::InsufficientContractBalance)
    );
    assert_eq!(
        pool.emergency_withdraw(OWNER, a(10), a(10)),
        Ok(Payout { to: OWNER, amount: a(10) })
    );
    assert_eq!(pool.emergency_withdraw(OWNER, a(0), a(0)), Ok(Payout { to: OWNER, amount: a(0) }));
}

#[test]
fn emergency_withdraw_leaves_the_accounts_alone() {
    let mut pool = admin_pool();
    let mut events = Vec::new();
    pool.stake(ALICE, a(100), T0, &mut events).unwrap();
    pool.pause(OWNER, &mut events).unwrap();
    pool.emergency_withdraw(OWNER, a(100), a(100)).unwrap();
    assert_eq!(pool.total_staked_eth(), Ok(a(100)));
    assert_eq!(pool.totalSupply(), Ok(a(100)));
    assert_eq!(pool.balance_of(ALICE), Ok(a(100)));
}

#[test]
fn only_the_owner_may_send_the_base_asset_without_a_call() {
    let mut pool = admin_pool();
    let mut events = Vec::new();
    assert_eq!(pool.receive(OWNER), Ok(()));
    assert_eq!(pool.receive(ALICE), Err(Error::Unauthorized));
    assert_eq!(pool.receive(NOBODY), Err(Error::Unauthorized));
    pool.transfer_ownership(OWNER, ALICE, &mut events).unwrap();
    assert_eq!(pool.receive(ALICE), Ok(()));
    assert_eq!(pool.receive(OWNER), Err(Error::Unauthorized));
}
