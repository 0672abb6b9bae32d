use num_bigint::BigUint;
use odin_stake::error::StakeError;
use odin_stake::event::{Effect, EventKind, EventModule, TransferData};
use odin_stake::logic::LogicModule;
use odin_stake::state::{Address, RewardApr, StakeAccount, TokenId};
use odin_stake::storage::StorageModule;
use odin_stake::OdinStakeV2;

const YEAR: u64 = 31_536_000;

fn addr(b: u8) -> Address {
    Address { bytes: [b; 32] }
}

fn token(s: &str) -> TokenId {
    TokenId { bytes: s.as_bytes().to_vec() }
}

fn big(x: u64) -> BigUint {
    BigUint::from(x)
}

/// A live contract whose staking and reward token are the same, with a 10%
/// rate from time 1000, a minimum stake of 100, no maximum, a lock of 100 s,
/// an undelegation of 50 s and a claim lock of 10 s.
fn contract() -> OdinStakeV2 {
    let mut c = OdinStakeV2::new();
    c.init(
        token("ODIN-1"),
        token("ODIN-1"),
        big(100),
        big(0),
        100,
        50,
        10,
        big(1),
        big(1),
    );
    c.add_reward_apr(1000, 1000, None).unwrap();
    c
}

fn stake(c: &mut OdinStakeV2, who: u8, now: u64, amount: u64) -> Result<Vec<Effect>, StakeError> {
    c.stake(&addr(who), now, token("ODIN-1"), big(amount))
}

fn held_total(c: &OdinStakeV2) -> BigUint {
    let mut sum = big(0);
    for a in c.staker_addresses() {
        sum += c.staked_amount(&a) + c.unstaked_amount(&a) + c.collectable_amount(&a);
    }
    sum
}

#[test]
fn init_sets_the_settings() {
    let mut c = OdinStakeV2::new();
    c.init(
        token("STK-1"),
        token("RWD-2"),
        big(5),
        big(9),
        1,
        2,
        3,
        big(4),
        big(6),
    );
    assert_eq!(c.stake_token_id().bytes, b"STK-1".to_vec());
    assert_eq!(c.reward_token_id().bytes, b"RWD-2".to_vec());
    assert_eq!(c.min_stake_limit(), big(5));
    assert_eq!(c.max_stake_limit(), big(9));
    assert_eq!(c.lock_period(), 1);
    assert_eq!(c.undelegation_period(), 2);
    assert_eq!(c.claim_lock_period(), 3);
    assert_eq!(c.stake_token_price(), big(4));
    assert_eq!(c.reward_token_price(), big(6));
    assert!(!c.paused());
    assert_eq!(c.total_staked_amount(), big(0));
    assert!(c.reward_aprs().is_empty());
    assert!(c.staker_addresses().is_empty());
    assert_eq!(c.get_current_apr(), 0);
}

#[test]
fn init_on_an_existing_storage_keeps_the_stakes() {
    let mut c = contract();
    stake(&mut c, 1, 1000, 5_000).unwrap();
    c.pause();
    c.init(token("NEW-1"), token("NEW-1"), big(1), big(2), 3, 4, 5, big(6), big(7));
    assert!(!c.paused());
    assert_eq!(c.stake_token_id().bytes, b"NEW-1".to_vec());
    assert_eq!(c.lock_period(), 3);
    assert_eq!(c.staked_amount(&addr(1)), big(5_000));
    assert_eq!(c.total_staked_amount(), big(5_000));
    assert_eq!(c.staker_addresses().len(), 1);
    assert_eq!(c.reward_aprs().len(), 1);
}

#[test]
fn restorable_refuses_repeats() {
    let acc = |b: u8| StakeAccount {
        address: addr(b),
        staked_amount: big(1),
        lock_end_timestamp: 0,
        unstaked_amount: big(0),
        undelegation_end_timestamp: 0,
        collectable_amount: big(0),
        reward_amount: big(0),
        last_reward_updated_timestamp: 0,
        last_claim_timestamp: 0,
    };
    assert!(OdinStakeV2::restorable(&vec![addr(1), addr(2)], &vec![acc(1), acc(2)]));
    assert!(!OdinStakeV2::restorable(&vec![addr(1), addr(1)], &vec![acc(1)]));
    assert!(!OdinStakeV2::restorable(&vec![addr(1)], &vec![acc(1), acc(3), acc(1)]));
}

#[test]
fn setters_are_read_back() {
    let mut c = contract();
    c.set_stake_token_id(token("A-1"));
    c.set_reward_token_id(token("B-2"));
    c.set_min_stake_limit(big(7));
    c.set_max_stake_limit(big(70));
    c.set_stake_token_to_reward_token_rate(big(3), big(2));
    c.set_lock_period(11);
    c.set_undelegation_period(12);
    c.set_claim_lock_period(13);
    assert_eq!(c.stake_token_id().bytes, b"A-1".to_vec());
    assert_eq!(c.reward_token_id().bytes, b"B-2".to_vec());
    assert_eq!(c.min_stake_limit(), big(7));
    assert_eq!(c.max_stake_limit(), big(70));
    assert_eq!(c.stake_token_price(), big(3));
    assert_eq!(c.reward_token_price(), big(2));
    assert_eq!(c.lock_period(), 11);
    assert_eq!(c.undelegation_period(), 12);
    assert_eq!(c.claim_lock_period(), 13);
    c.pause();
    assert!(c.paused());
    c.unpause();
    assert!(!c.paused());
}

#[test]
fn add_reward_apr_closes_the_previous_period() {
    let mut c = contract();
    c.add_reward_apr(2000, 500, Some(2500)).unwrap();
    assert_eq!(
        c.reward_aprs(),
        vec![
            RewardApr { id: 1, apr: 1000, start_timestamp: 1000, end_timestamp: 2000 },
            RewardApr { id: 2, apr: 500, start_timestamp: 2500, end_timestamp: 0 },
        ]
    );
    assert_eq!(c.get_current_apr(), 500);
    c.clear_reward_aprs();
    assert!(c.reward_aprs().is_empty());
    assert_eq!(c.get_current_apr(), 0);
    c.add_reward_apr(3000, 42, None).unwrap();
    assert_eq!(
        c.reward_aprs(),
        vec![RewardApr { id: 1, apr: 42, start_timestamp: 3000, end_timestamp: 0 }]
    );
}

#[test]
fn stake_records_the_stake() {
    let mut c = contract();
    let effects = stake(&mut c, 1, 1000, 1_000_000).unwrap();
    assert_eq!(effects.len(), 1);
    match &effects[0] {
        Effect::Emit(e) => {
            assert_eq!(e.kind, EventKind::Stake);
            assert!(e.user_address.same_as(&addr(1)));
            assert_eq!(e.token.bytes, b"ODIN-1".to_vec());
            assert_eq!(e.amount, big(1_000_000));
            assert_eq!(e.timestamp, 1000);
        }
        _ => panic!("expected an event"),
    }
    let a = addr(1);
    assert_eq!(c.staked_amount(&a), big(1_000_000));
    assert_eq!(c.lock_end_timestamp(&a), 1100);
    assert_eq!(c.last_claim_timestamp(&a), 1000);
    assert_eq!(c.last_reward_updated_timestamp(&a), 1000);
    assert_eq!(c.total_staked_amount(), big(1_000_000));
    assert_eq!(c.staker_addresses().len(), 1);
    // A second stake by the same address does not list it twice.
    stake(&mut c, 1, 1000, 10).unwrap();
    assert_eq!(c.staker_addresses().len(), 1);
    assert_eq!(c.staked_amount(&a), big(1_000_010));
}

#[test]
fn reward_follows_the_formula() {
    let mut c = contract();
    stake(&mut c, 1, 1000, 1_000_000).unwrap();
    // A tenth of a year at 10%: 1_000_000 * 1000 * 3_153_600 / 10000 / 31_536_000 = 10_000.
    assert_eq!(c.get_current_reward(&addr(1), 1000 + YEAR / 10).unwrap(), big(10_000));
    // A whole year.
    assert_eq!(c.get_current_reward(&addr(1), 1000 + YEAR).unwrap(), big(100_000));
    // Prices scale the reward: stake price 4, reward price 2.
    c.set_stake_token_to_reward_token_rate(big(4), big(2));
    assert_eq!(c.get_current_reward(&addr(1), 1000 + YEAR).unwrap(), big(50_000));
    // An address without a stake has no reward.
    assert_eq!(c.get_current_reward(&addr(9), 1000 + YEAR).unwrap(), big(0));
}

#[test]
fn reward_spans_closed_periods() {
    let mut c = contract();
    stake(&mut c, 1, 1000, 1_000_000).unwrap();
    // 10% for a tenth of a year, then 20% from then on.
    c.add_reward_apr(1000 + YEAR / 10, 2000, None).unwrap();
    // 10_000 for the first period, 20_000 for a tenth of a year of the second.
    assert_eq!(c.get_current_reward(&addr(1), 1000 + YEAR / 5).unwrap(), big(30_000));
}

#[test]
fn reward_with_large_amounts_is_exact() {
    let mut c = contract();
    let amount = BigUint::parse_bytes(b"1000000000000000000000000000", 10).unwrap();
    c.stake(&addr(1), 1000, token("ODIN-1"), amount.clone()).unwrap();
    c.set_stake_token_to_reward_token_rate(big(1), BigUint::parse_bytes(b"1000000000000000000", 10).unwrap());
    let expected = BigUint::parse_bytes(b"100000000000000000000000000000000000000000000", 10).unwrap();
    assert_eq!(c.get_current_reward(&addr(1), 1000 + YEAR).unwrap(), expected);
}

#[test]
fn claim_sends_the_reward() {
    let mut c = contract();
    stake(&mut c, 1, 1000, 1_000_000).unwrap();
    let now = 1000 + YEAR / 10;
    let effects = c.claim(&addr(1), now, &big(50_000), &big(50_000)).unwrap();
    assert_eq!(effects.len(), 2);
    match &effects[0] {
        Effect::Send(t) => {
            assert!(t.to.same_as(&addr(1)));
            assert_eq!(t.token.bytes, b"ODIN-1".to_vec());
            assert_eq!(t.nonce, 0);
            assert_eq!(t.amount, big(10_000));
            assert_eq!(t.data, TransferData::Reward);
        }
        _ => panic!("expected a transfer"),
    }
    match &effects[1] {
        Effect::Emit(e) => {
            assert_eq!(e.kind, EventKind::Claim);
            assert_eq!(e.amount, big(10_000));
            assert_eq!(e.timestamp, now);
        }
        _ => panic!("expected an event"),
    }
    assert_eq!(c.reward_amount(&addr(1)), big(0));
    assert_eq!(c.last_claim_timestamp(&addr(1)), now);
    assert_eq!(c.last_reward_updated_timestamp(&addr(1)), now);
    assert_eq!(c.total_staked_amount(), big(1_000_000));
}

#[test]
fn unstake_then_collect() {
    let mut c = contract();
    stake(&mut c, 1, 1000, 1_000_000).unwrap();
    let now = 1000 + YEAR / 10;
    let effects = c.unstake(&addr(1), now, Some(big(400_000))).unwrap();
    match &effects[0] {
        Effect::Emit(e) => {
            assert_eq!(e.kind, EventKind::Unstake);
            assert_eq!(e.amount, big(400_000));
        }
        _ => panic!("expected an event"),
    }
    assert_eq!(c.staked_amount(&addr(1)), big(600_000));
    assert_eq!(c.unstaked_amount(&addr(1)), big(400_000));
    assert_eq!(c.undelegation_end_timestamp(&addr(1)), now + 50);
    // The reward accrued so far was stored by the update.
    assert_eq!(c.reward_amount(&addr(1)), big(10_000));
    assert_eq!(c.total_staked_amount(), big(1_000_000));

    // Before the undelegation ends the tokens are not collectable.
    let shown = c.view_stake_account(&addr(1), now + 49).unwrap();
    assert_eq!(shown.unstaked_amount, big(400_000));
    assert_eq!(shown.collectable_amount, big(0));
    // Once it ends, the view shows them as collectable.
    let shown = c.view_stake_account(&addr(1), now + 50).unwrap();
    assert_eq!(shown.unstaked_amount, big(0));
    assert_eq!(shown.collectable_amount, big(400_000));

    // The claim sends the stored reward and the collectable tokens.
    let effects = c.claim(&addr(1), now + 60, &big(1_000_000), &big(1_000_000)).unwrap();
    assert_eq!(effects.len(), 4);
    match &effects[2] {
        Effect::Send(t) => {
            assert_eq!(t.amount, big(400_000));
            assert_eq!(t.data, TransferData::Collect);
        }
        _ => panic!("expected a transfer"),
    }
    match &effects[3] {
        Effect::Emit(e) => assert_eq!(e.kind, EventKind::Collect),
        _ => panic!("expected an event"),
    }
    assert_eq!(c.collectable_amount(&addr(1)), big(0));
    assert_eq!(c.unstaked_amount(&addr(1)), big(0));
    assert_eq!(c.total_staked_amount(), big(600_000));
}

#[test]
fn unstake_without_amount_takes_everything() {
    let mut c = contract();
    stake(&mut c, 1, 1000, 5_000).unwrap();
    c.unstake(&addr(1), 1100, None).unwrap();
    assert_eq!(c.staked_amount(&addr(1)), big(0));
    assert_eq!(c.unstaked_amount(&addr(1)), big(5_000));
    // Asking for more than the stake unstakes the stake.
    let mut c = contract();
    stake(&mut c, 1, 1000, 5_000).unwrap();
    c.unstake(&addr(1), 1100, Some(big(9_000))).unwrap();
    assert_eq!(c.unstaked_amount(&addr(1)), big(5_000));
}

#[test]
fn restake_adds_the_reward_to_the_stake() {
    let mut c = contract();
    stake(&mut c, 1, 1000, 1_000_000).unwrap();
    let now = 1000 + YEAR / 10;
    let effects = c.restake(&addr(1), now).unwrap();
    assert_eq!(effects.len(), 2);
    match (&effects[0], &effects[1]) {
        (Effect::Emit(a), Effect::Emit(b)) => {
            assert_eq!(a.kind, EventKind::Claim);
            assert_eq!(b.kind, EventKind::Stake);
            assert_eq!(a.amount, big(10_000));
            assert_eq!(b.amount, big(10_000));
        }
        _ => panic!("expected two events"),
    }
    assert_eq!(c.staked_amount(&addr(1)), big(1_010_000));
    assert_eq!(c.reward_amount(&addr(1)), big(0));
    assert_eq!(c.total_staked_amount(), big(1_010_000));
    // The lock is not renewed.
    assert_eq!(c.lock_end_timestamp(&addr(1)), 1100);
}

#[test]
fn view_stake_accounts_and_setting() {
    let mut c = contract();
    stake(&mut c, 1, 1000, 1_000).unwrap();
    stake(&mut c, 2, 1000, 2_000).unwrap();
    stake(&mut c, 3, 1000, 3_000).unwrap();
    c.unstake(&addr(2), 1100, None).unwrap();
    let accounts = c.view_stake_accounts(1200).unwrap();
    assert_eq!(accounts.len(), 3);
    assert!(accounts[0].address.same_as(&addr(1)));
    assert!(accounts[1].address.same_as(&addr(2)));
    assert_eq!(accounts[1].staked_amount, big(0));
    assert_eq!(accounts[1].collectable_amount, big(2_000));
    let setting = c.view_stake_setting().unwrap();
    assert_eq!(setting.number_of_stakers, 2);
    assert_eq!(setting.apr, 1000);
    assert_eq!(setting.total_staked_amount, big(6_000));
    assert_eq!(setting.stake_token_id.bytes, b"ODIN-1".to_vec());
    assert_eq!(setting.lock_period, 100);
}

#[test]
fn view_of_an_unknown_address_is_empty() {
    let c = contract();
    let shown = c.view_stake_account(&addr(7), 5000).unwrap();
    assert!(shown.address.same_as(&addr(7)));
    assert_eq!(shown.staked_amount, big(0));
    assert_eq!(shown.reward_amount, big(0));
}

#[test]
fn withdraw_funds_defaults() {
    let c = contract();
    let t = c.withdraw_funds(&addr(5), None, None, None, &big(777));
    assert!(t.token.bytes.is_empty());
    assert_eq!(t.nonce, 0);
    assert_eq!(t.amount, big(777));
    assert!(t.to.same_as(&addr(5)));
    assert_eq!(t.data, TransferData::NoData);
    let t = c.withdraw_funds(&addr(5), Some(token("X-1")), Some(3), Some(big(9)), &big(777));
    assert_eq!(t.token.bytes, b"X-1".to_vec());
    assert_eq!(t.nonce, 3);
    assert_eq!(t.amount, big(9));
}

#[test]
fn events_are_built_from_their_arguments() {
    let c = contract();
    let e = c.collect_event(addr(1), token("T-1"), big(5), 77);
    assert_eq!(e.kind, EventKind::Collect);
    assert_eq!(e.amount, big(5));
    assert_eq!(e.timestamp, 77);
    let e = c.unstake_event(addr(1), token("T-1"), big(5), 77);
    assert_eq!(e.kind, EventKind::Unstake);
}

#[test]
fn refused_when_paused() {
    let mut c = contract();
    stake(&mut c, 1, 1000, 1_000).unwrap();
    c.pause();
    assert_eq!(stake(&mut c, 1, 1200, 1_000).unwrap_err(), StakeError::NotLive);
    assert_eq!(c.unstake(&addr(1), 1200, None).unwrap_err(), StakeError::NotLive);
    assert_eq!(c.claim(&addr(1), 1200, &big(1), &big(1)).unwrap_err(), StakeError::NotLive);
    assert_eq!(c.restake(&addr(1), 1200).unwrap_err(), StakeError::NotLive);
    assert_eq!(c.staked_amount(&addr(1)), big(1_000));
}

#[test]
fn refused_without_reward_apr() {
    let mut c = contract();
    c.clear_reward_aprs();
    assert_eq!(stake(&mut c, 1, 1000, 1_000).unwrap_err(), StakeError::NoRewardApr);
    assert!(c.staker_addresses().is_empty());
}

#[test]
fn refused_with_another_token() {
    let mut c = contract();
    let r = c.stake(&addr(1), 1000, token("OTHER-1"), big(1_000));
    assert_eq!(r.unwrap_err(), StakeError::InvalidStakeTokenId);
}

#[test]
fn refused_outside_the_limits() {
    let mut c = contract();
    assert_eq!(stake(&mut c, 1, 1000, 50).unwrap_err(), StakeError::BelowMinStakeLimit);
    // A refused stake leaves the staker list as it was.
    assert!(c.staker_addresses().is_empty());
    c.set_max_stake_limit(big(1_000));
    assert_eq!(stake(&mut c, 1, 1000, 2_000).unwrap_err(), StakeError::AboveMaxStakeLimit);
    stake(&mut c, 1, 1000, 600).unwrap();
    // The limits apply to the stake in total.
    assert_eq!(stake(&mut c, 1, 1000, 500).unwrap_err(), StakeError::AboveMaxStakeLimit);
    stake(&mut c, 1, 1000, 400).unwrap();
    stake(&mut c, 2, 1000, 150).unwrap();
}

#[test]
fn unstake_refusals() {
    let mut c = contract();
    assert_eq!(c.unstake(&addr(1), 1000, None).unwrap_err(), StakeError::NothingToUnstake);
    stake(&mut c, 1, 1000, 1_000).unwrap();
    assert_eq!(c.unstake(&addr(1), 1099, None).unwrap_err(), StakeError::UnstakeBeforeLockPeriod);
    c.unstake(&addr(1), 1100, None).unwrap();
}

#[test]
fn claim_refusals() {
    let mut c = contract();
    stake(&mut c, 1, 1000, 1_000_000).unwrap();
    assert_eq!(
        c.claim(&addr(1), 1005, &big(1), &big(1)).unwrap_err(),
        StakeError::ClaimBeforeClaimLockPeriod
    );
    let now = 1000 + YEAR / 10;
    assert_eq!(c.claim(&addr(1), now, &big(9_999), &big(0)).unwrap_err(), StakeError::NotEnoughRewardTokens);
    // A small stake earns nothing in a few seconds.
    let mut c = contract();
    stake(&mut c, 2, 1000, 100).unwrap();
    assert_eq!(c.claim(&addr(2), 1011, &big(1), &big(1)).unwrap_err(), StakeError::NothingToClaim);
}

#[test]
fn claim_without_enough_staking_tokens() {
    let mut c = contract();
    stake(&mut c, 1, 1000, 100).unwrap();
    c.unstake(&addr(1), 1100, None).unwrap();
    assert_eq!(
        c.claim(&addr(1), 1200, &big(0), &big(99)).unwrap_err(),
        StakeError::NotEnoughStakeTokens
    );
    assert_eq!(c.unstaked_amount(&addr(1)), big(100));
    c.claim(&addr(1), 1200, &big(0), &big(100)).unwrap();
}

#[test]
fn claim_of_one_token_counts_the_reward_sent_first() {
    let mut c = contract();
    stake(&mut c, 1, 1000, 1_000_000).unwrap();
    let now = 1000 + YEAR / 10;
    c.unstake(&addr(1), now, Some(big(100_000))).unwrap();
    // Reward 10_000 and collectable 100_000 of the same token: 109_999 is too little.
    assert_eq!(
        c.claim(&addr(1), now + 100, &big(109_999), &big(109_999)).unwrap_err(),
        StakeError::NotEnoughStakeTokens
    );
    let effects = c.claim(&addr(1), now + 100, &big(110_001), &big(110_001)).unwrap();
    assert_eq!(effects.len(), 4);
}

#[test]
fn restake_refusals() {
    let mut c = contract();
    stake(&mut c, 1, 1000, 100).unwrap();
    assert_eq!(c.restake(&addr(1), 1005).unwrap_err(), StakeError::RestakeBeforeClaimLockPeriod);
    assert_eq!(c.restake(&addr(1), 1011).unwrap_err(), StakeError::NoRewardsForRestake);
    c.set_reward_token_id(token("RWD-2"));
    assert_eq!(c.restake(&addr(1), 1011).unwrap_err(), StakeError::RestakeTokenMismatch);
}

#[test]
fn arithmetic_overflow_of_the_lock() {
    let mut c = contract();
    c.set_lock_period(u64::MAX);
    assert_eq!(stake(&mut c, 1, 1000, 1_000).unwrap_err(), StakeError::ArithmeticOverflow);
}

#[test]
fn arithmetic_overflow_of_a_future_period() {
    let mut c = contract();
    c.clear_reward_aprs();
    c.add_reward_apr(1000, 1000, Some(5000)).unwrap();
    stake(&mut c, 1, 1000, 1_000).unwrap();
    // The open period starts after now: the duration would go below zero.
    assert_eq!(stake(&mut c, 1, 2000, 1_000).unwrap_err(), StakeError::ArithmeticOverflow);
    assert_eq!(c.get_current_reward(&addr(1), 2000).unwrap_err(), StakeError::ArithmeticOverflow);
}

#[test]
fn division_by_zero_price() {
    let mut c = contract();
    stake(&mut c, 1, 1000, 1_000).unwrap();
    c.set_stake_token_to_reward_token_rate(big(0), big(1));
    assert_eq!(c.get_current_reward(&addr(1), 2000).unwrap_err(), StakeError::DivisionByZero);
    assert_eq!(c.view_stake_account(&addr(1), 2000).unwrap_err(), StakeError::DivisionByZero);
    // Without elapsed time there is nothing to divide.
    assert_eq!(c.get_current_reward(&addr(1), 1000).unwrap(), big(0));
}

#[test]
fn update_stake_account_stores_the_reward() {
    let mut c = contract();
    stake(&mut c, 1, 1000, 1_000_000).unwrap();
    let now = 1000 + YEAR / 10;
    c.update_stake_account(&addr(1), now).unwrap();
    assert_eq!(c.reward_amount(&addr(1)), big(10_000));
    assert_eq!(c.last_reward_updated_timestamp(&addr(1)), now);
    // Updating again at the same time adds nothing.
    assert_eq!(c.get_current_reward(&addr(1), now).unwrap(), big(10_000));
}

#[test]
fn require_activation_and_staker_list() {
    let mut c = contract();
    assert!(c.require_activation().is_ok());
    c.pause();
    assert_eq!(c.require_activation().unwrap_err(), StakeError::NotLive);
    c.check_existance_of_stake_account(&addr(4));
    c.check_existance_of_stake_account(&addr(4));
    assert_eq!(c.staker_addresses().len(), 1);
}

// Laws on concrete values.

#[test]
fn law_total_matches_what_records_hold() {
    let mut c = contract();
    stake(&mut c, 1, 1000, 1_000_000).unwrap();
    stake(&mut c, 2, 1000, 500_000).unwrap();
    assert_eq!(c.total_staked_amount(), held_total(&c));
    c.unstake(&addr(1), 1100, Some(big(250_000))).unwrap();
    assert_eq!(c.total_staked_amount(), held_total(&c));
    c.restake(&addr(2), 1000 + YEAR / 10).unwrap();
    assert_eq!(c.total_staked_amount(), held_total(&c));
    c.claim(&addr(1), 1000 + YEAR / 10, &big(10_000_000), &big(10_000_000)).unwrap();
    assert_eq!(c.total_staked_amount(), held_total(&c));
    c.update_stake_account(&addr(2), 1000 + YEAR / 5).unwrap();
    assert_eq!(c.total_staked_amount(), held_total(&c));
}

#[test]
fn law_total_matches_what_stakers_hold_after_claim() {
    let mut c = contract();
    stake(&mut c, 1, 1000, 1_000_000).unwrap();
    stake(&mut c, 2, 1000, 300).unwrap();
    c.unstake(&addr(1), 1100, Some(big(400_000))).unwrap();
    let before = c.total_staked_amount();
    let effects = c.claim(&addr(1), 1000 + YEAR / 10, &big(10_000_000), &big(10_000_000)).unwrap();
    assert_eq!(effects.len(), 4);
    assert_eq!(before - c.total_staked_amount(), big(400_000));
    assert_eq!(c.total_staked_amount(), held_total(&c));
    // An address that never staked holds nothing.
    assert_eq!(c.staked_amount(&addr(9)), big(0));
}

#[test]
fn law_stake_is_locked_for_the_lock_period() {
    let mut c = contract();
    stake(&mut c, 1, 5000, 1_000).unwrap();
    for t in [5000, 5050, 5099] {
        assert!(c.unstake(&addr(1), t, None).is_err());
    }
    assert!(c.unstake(&addr(1), 5100, None).is_ok());
}

#[test]
fn law_claim_empties_reward_and_collectable() {
    let mut c = contract();
    stake(&mut c, 1, 1000, 1_000_000).unwrap();
    c.unstake(&addr(1), 2000, Some(big(1))).unwrap();
    c.claim(&addr(1), 1000 + YEAR / 10, &big(1_000_000), &big(1_000_000)).unwrap();
    assert_eq!(c.reward_amount(&addr(1)), big(0));
    assert_eq!(c.collectable_amount(&addr(1)), big(0));
}

#[test]
fn law_view_matches_update() {
    let mut c = contract();
    stake(&mut c, 1, 1000, 1_000_000).unwrap();
    c.unstake(&addr(1), 1100, Some(big(300))).unwrap();
    let now = 1000 + YEAR / 10;
    let shown = c.view_stake_account(&addr(1), now).unwrap();
    c.update_stake_account(&addr(1), now).unwrap();
    assert_eq!(shown.reward_amount, c.reward_amount(&addr(1)));
    assert_eq!(shown.collectable_amount, c.collectable_amount(&addr(1)));
    assert_eq!(shown.unstaked_amount, c.unstaked_amount(&addr(1)));
    assert_eq!(shown.staked_amount, c.staked_amount(&addr(1)));
}

#[test]
fn law_refused_calls_change_nothing() {
    let mut c = contract();
    stake(&mut c, 1, 1000, 1_000_000).unwrap();
    c.unstake(&addr(1), 1100, Some(big(100_000))).unwrap();
    let before = c.view_stake_accounts(1100).unwrap();
    assert!(c.claim(&addr(1), 1000 + YEAR / 10, &big(0), &big(0)).is_err());
    let after = c.view_stake_accounts(1100).unwrap();
    assert_eq!(before[0].reward_amount, after[0].reward_amount);
    assert_eq!(c.last_reward_updated_timestamp(&addr(1)), 1100);
    assert_eq!(c.unstaked_amount(&addr(1)), big(100_000));
}

#[test]
fn law_reward_never_falls_with_time() {
    let mut c = contract();
    stake(&mut c, 1, 1000, 1_000_000).unwrap();
    c.add_reward_apr(1000 + YEAR / 10, 2000, None).unwrap();
    let mut previous = big(0);
    for t in [1000 + YEAR / 10, 1000 + YEAR / 10 + 1, 1000 + YEAR / 5, 1000 + YEAR, 1000 + 2 * YEAR] {
        let r = c.get_current_reward(&addr(1), t).unwrap();
        assert!(r >= previous);
        previous = r;
    }
}

#[test]
fn law_unlisted_addresses_stay_empty() {
    let mut c = contract();
    stake(&mut c, 1, 1000, 1_000).unwrap();
    // Calls by an address that never staked are refused and store nothing.
    assert!(c.unstake(&addr(8), 2000, None).is_err());
    assert!(c.claim(&addr(8), 2000, &big(100), &big(100)).is_err());
    assert!(c.restake(&addr(8), 2000).is_err());
    c.update_stake_account(&addr(8), 2000).unwrap();
    assert_eq!(c.reward_amount(&addr(8)), big(0));
    assert_eq!(c.staked_amount(&addr(8)), big(0));
    assert_eq!(c.staker_addresses().len(), 1);
}
