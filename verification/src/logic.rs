//! The staking logic: rewards, and the stake, unstake, claim and restake
//! endpoints.
//!
//! Each endpoint is stated by a spec function from the storage before the
//! call and the call's inputs to either the storage after the call with the
//! effects in order, or the reason for refusing it. A refused call changes
//! nothing.
use crate::amount::{big_add, big_clone, big_div, big_from_u64, big_is_zero, big_le, big_mul, big_sub, big_zero, val};
use crate::error::StakeError;
use crate::event::{effects_view, event_view, transfer_view, Effect, EffectView, EventKind, EventModule, Transfer, TransferData};
use crate::state::{AccountView, Address, RewardApr, StakeAccount, TokenId};
use crate::storage::{ContractView, OdinStakeV2, StorageModule};
use num_bigint::BigUint;
use vstd::prelude::*;

verus! {

/// Hundredths of a percent in a whole.
pub const TOTAL_PERCENTAGE: u64 = 10000;

/// Seconds in a day.
pub const DAY_IN_SECONDS: u64 = 3600 * 24;

/// Days in a year.
pub const YEAR_IN_DAYS: u64 = 365;

/// An amount, or the reason it could not be computed, read as a number.
pub open spec fn amount_result(r: Result<BigUint, StakeError>) -> Result<nat, StakeError> {
    match r {
        Ok(x) => Ok(val(x)),
        Err(e) => Err(e),
    }
}

/// A record, or the reason it could not be computed, read as plain values.
pub open spec fn record_result(r: Result<StakeAccount, StakeError>) -> Result<AccountView, StakeError> {
    match r {
        Ok(x) => Ok(x@),
        Err(e) => Err(e),
    }
}

/// The seconds of the reward period `r` that earn a reward for a record last
/// brought up to date at `last`, at time `now`. Negative where the
/// contract's subtraction of timestamps would go below zero.
pub open spec fn apr_duration(r: RewardApr, last: u64, now: u64) -> int {
    if r.end_timestamp == 0 {
        now - (if r.start_timestamp >= last { r.start_timestamp } else { last })
    } else if last <= r.start_timestamp {
        r.end_timestamp - r.start_timestamp
    } else if last < r.end_timestamp {
        r.end_timestamp - last
    } else {
        0
    }
}

/// The reward that `staked` earns in the period `r`, valued in reward tokens:
/// staked x apr x seconds x reward price / 10000 / seconds per year / stake
/// price, each division rounding down.
pub open spec fn period_reward(
    r: RewardApr,
    staked: nat,
    last: u64,
    now: u64,
    reward_price: nat,
    stake_price: nat,
) -> Result<nat, StakeError> {
    let d = apr_duration(r, last, now);
    if d < 0 {
        Err(StakeError::ArithmeticOverflow)
    } else if d == 0 {
        Ok(0)
    } else if stake_price == 0 {
        Err(StakeError::DivisionByZero)
    } else {
        let seconds_per_year = (DAY_IN_SECONDS * YEAR_IN_DAYS) as nat;
        Ok(staked * (r.apr as nat) * (d as nat) * reward_price / (TOTAL_PERCENTAGE as nat)
            / seconds_per_year / stake_price)
    }
}

/// The reward that `staked` earns over the schedule, period by period; the
/// first period that cannot be computed decides the error.
pub open spec fn rewards_accrued(
    aprs: Seq<RewardApr>,
    staked: nat,
    last: u64,
    now: u64,
    reward_price: nat,
    stake_price: nat,
) -> Result<nat, StakeError>
    decreases aprs.len(),
{
    if aprs.len() == 0 {
        Ok(0)
    } else {
        match rewards_accrued(aprs.drop_last(), staked, last, now, reward_price, stake_price) {
            Err(e) => Err(e),
            Ok(s) => match period_reward(aprs.last(), staked, last, now, reward_price, stake_price) {
                Err(e) => Err(e),
                Ok(t) => Ok(s + t),
            },
        }
    }
}

/// The reward that a record has at `now`: the stored reward, plus what its
/// stake earned since the record was last brought up to date.
pub open spec fn current_reward(c: ContractView, acc: AccountView, now: u64) -> Result<nat, StakeError> {
    if acc.staked_amount != 0 {
        match rewards_accrued(
            c.reward_aprs,
            acc.staked_amount,
            acc.last_reward_updated_timestamp,
            now,
            c.reward_token_price,
            c.stake_token_price,
        ) {
            Ok(s) => Ok(s + acc.reward_amount),
            Err(e) => Err(e),
        }
    } else {
        Ok(acc.reward_amount)
    }
}

/// A record whose undelegation has ended, with its unstaked tokens moved to
/// the collectable ones.
pub open spec fn released(acc: AccountView, now: u64) -> AccountView {
    if acc.undelegation_end_timestamp <= now && acc.unstaked_amount > 0 {
        AccountView {
            collectable_amount: acc.collectable_amount + acc.unstaked_amount,
            unstaked_amount: 0,
            ..acc
        }
    } else {
        acc
    }
}

/// A record brought up to date at `now`: its reward is the current one, it
/// was updated at `now`, and its ended undelegation is released.
pub open spec fn updated_account(c: ContractView, acc: AccountView, now: u64) -> Result<AccountView, StakeError> {
    match current_reward(c, acc, now) {
        Err(e) => Err(e),
        Ok(reward) => Ok(
            released(
                AccountView { reward_amount: reward, last_reward_updated_timestamp: now, ..acc },
                now,
            ),
        ),
    }
}

/// An error of the reward over a prefix of the schedule is the error of
/// every longer prefix.
proof fn lemma_accrued_error_persists(
    aprs: Seq<RewardApr>,
    k: int,
    m: int,
    staked: nat,
    last: u64,
    now: u64,
    reward_price: nat,
    stake_price: nat,
)
    requires
        0 <= k <= m <= aprs.len(),
        rewards_accrued(aprs.take(k), staked, last, now, reward_price, stake_price) is Err,
    ensures
        rewards_accrued(aprs.take(m), staked, last, now, reward_price, stake_price)
            == rewards_accrued(aprs.take(k), staked, last, now, reward_price, stake_price),
    decreases m - k,
{
    if m > k {
        lemma_accrued_error_persists(aprs, k, m - 1, staked, last, now, reward_price, stake_price);
        assert(aprs.take(m).drop_last() =~= aprs.take(m - 1));
    }
}

/// The reward of one period.
fn period_reward_of(
    r: &RewardApr,
    staked: &BigUint,
    last: u64,
    now: u64,
    reward_price: &BigUint,
    stake_price: &BigUint,
) -> (res: Result<BigUint, StakeError>)
    ensures
        amount_result(res) == period_reward(*r, val(*staked), last, now, val(*reward_price), val(*stake_price)),
{
    let duration: u64 = if r.end_timestamp == 0 {
        let from = if r.start_timestamp >= last {
            r.start_timestamp
        } else {
            last
        };
        if now < from {
            return Err(StakeError::ArithmeticOverflow);
        }
        now - from
    } else if last <= r.start_timestamp {
        if r.end_timestamp < r.start_timestamp {
            return Err(StakeError::ArithmeticOverflow);
        }
        r.end_timestamp - r.start_timestamp
    } else if last < r.end_timestamp {
        r.end_timestamp - last
    } else {
        0
    };
    if duration == 0 {
        return Ok(big_zero());
    }
    if big_is_zero(stake_price) {
        return Err(StakeError::DivisionByZero);
    }
    let apr = big_from_u64(r.apr as u64);
    let secs = big_from_u64(duration);
    let percent = big_from_u64(TOTAL_PERCENTAGE);
    let year = big_from_u64(DAY_IN_SECONDS * YEAR_IN_DAYS);
    let x = big_mul(staked, &apr);
    let x = big_mul(&x, &secs);
    let x = big_mul(&x, reward_price);
    let x = big_div(&x, &percent);
    let x = big_div(&x, &year);
    let x = big_div(&x, stake_price);
    Ok(x)
}

/// The reward over the whole schedule.
fn rewards_accrued_of(
    aprs: &Vec<RewardApr>,
    staked: &BigUint,
    last: u64,
    now: u64,
    reward_price: &BigUint,
    stake_price: &BigUint,
) -> (res: Result<BigUint, StakeError>)
    ensures
        amount_result(res) == rewards_accrued(aprs@, val(*staked), last, now, val(*reward_price), val(*stake_price)),
{
    let ghost s = aprs@;
    let ghost st = val(*staked);
    let ghost rp = val(*reward_price);
    let ghost sp = val(*stake_price);
    let mut sum = big_zero();
    let n = aprs.len();
    let mut i: usize = 0;
    assert(s.take(0) =~= Seq::<RewardApr>::empty());
    while i < n
        invariant
            n == aprs.len(),
            s == aprs@,
            st == val(*staked),
            rp == val(*reward_price),
            sp == val(*stake_price),
            0 <= i <= n,
            rewards_accrued(s.take(i as int), st, last, now, rp, sp) == Ok::<nat, StakeError>(val(sum)),
        decreases n - i,
    {
        let r = aprs[i];
        assert(s.take(i + 1).drop_last() =~= s.take(i as int));
        assert(s.take(i + 1).last() == r);
        match period_reward_of(&r, staked, last, now, reward_price, stake_price) {
            Err(e) => {
                proof {
                    lemma_accrued_error_persists(s, i + 1, n as int, st, last, now, rp, sp);
                    assert(s.take(n as int) =~= s);
                }
                return Err(e);
            },
            Ok(t) => {
                sum = big_add(&sum, &t);
            },
        }
        i = i + 1;
    }
    assert(s.take(n as int) =~= s);
    Ok(sum)
}

impl OdinStakeV2 {
    /// The current reward of a record.
    pub(crate) fn reward_of(&self, acc: &StakeAccount, now: u64) -> (r: Result<BigUint, StakeError>)
        ensures
            amount_result(r) == current_reward(self@, acc@, now),
    {
        if !big_is_zero(&acc.staked_amount) {
            let accrued = rewards_accrued_of(
                self.aprs(),
                &acc.staked_amount,
                acc.last_reward_updated_timestamp,
                now,
                self.reward_price(),
                self.stake_price(),
            )?;
            Ok(big_add(&accrued, &acc.reward_amount))
        } else {
            Ok(big_clone(&acc.reward_amount))
        }
    }

    /// A record brought up to date at `now`.
    pub(crate) fn updated_record(&self, acc: StakeAccount, now: u64) -> (r: Result<StakeAccount, StakeError>)
        ensures
            record_result(r) == updated_account(self@, acc@, now),
    {
        let reward = self.reward_of(&acc, now)?;
        let acc = StakeAccount { reward_amount: reward, last_reward_updated_timestamp: now, ..acc };
        if acc.undelegation_end_timestamp <= now && !big_is_zero(&acc.unstaked_amount) {
            let collectable = big_add(&acc.collectable_amount, &acc.unstaked_amount);
            Ok(StakeAccount { collectable_amount: collectable, unstaked_amount: big_zero(), ..acc })
        } else {
            Ok(acc)
        }
    }
}


/// Whether the contract takes calls: it is live and has a reward period.
pub open spec fn activation(c: ContractView) -> Result<(), StakeError> {
    if c.paused {
        Err(StakeError::NotLive)
    } else if c.reward_aprs.len() == 0 {
        Err(StakeError::NoRewardApr)
    } else {
        Ok(())
    }
}

/// The outcome of staking `amount` of `token` by `caller` at `now`.
pub open spec fn stake_outcome(
    c: ContractView,
    caller: Address,
    now: u64,
    token: Seq<u8>,
    amount: nat,
) -> Result<(ContractView, Seq<EffectView>), StakeError> {
    match activation(c) {
        Err(e) => Err(e),
        Ok(_) => if token != c.stake_token_id {
            Err(StakeError::InvalidStakeTokenId)
        } else {
            let c1 = c.with_staker(caller);
            match updated_account(c1, c1.account(caller), now) {
                Err(e) => Err(e),
                Ok(acc) => if amount + acc.staked_amount < c.min_stake_limit {
                    Err(StakeError::BelowMinStakeLimit)
                } else if c.max_stake_limit != 0 && amount + acc.staked_amount > c.max_stake_limit {
                    Err(StakeError::AboveMaxStakeLimit)
                } else if now + c.lock_period > u64::MAX {
                    Err(StakeError::ArithmeticOverflow)
                } else {
                    let acc2 = AccountView {
                        staked_amount: acc.staked_amount + amount,
                        lock_end_timestamp: (now + c.lock_period) as u64,
                        last_claim_timestamp: now,
                        ..acc
                    };
                    Ok(
                        (
                            ContractView {
                                total_staked_amount: c.total_staked_amount + amount,
                                ..c1.with_account(acc2)
                            },
                            seq![event_view(EventKind::Stake, caller, token, amount, now)],
                        ),
                    )
                },
            }
        },
    }
}

/// The amount to unstake: the one asked for, at most the staked amount, or
/// all of it.
pub open spec fn unstake_amount(opt: Option<nat>, staked: nat) -> nat {
    match opt {
        Some(v) => if v <= staked {
            v
        } else {
            staked
        },
        None => staked,
    }
}

/// An optional amount read as a number.
pub open spec fn opt_amount(o: Option<BigUint>) -> Option<nat> {
    match o {
        Some(x) => Some(val(x)),
        None => None,
    }
}

/// The outcome of unstaking by `caller` at `now`.
pub open spec fn unstake_outcome(
    c: ContractView,
    caller: Address,
    now: u64,
    opt: Option<nat>,
) -> Result<(ContractView, Seq<EffectView>), StakeError> {
    match activation(c) {
        Err(e) => Err(e),
        Ok(_) => match updated_account(c, c.account(caller), now) {
            Err(e) => Err(e),
            Ok(acc) => if acc.staked_amount == 0 {
                Err(StakeError::NothingToUnstake)
            } else if now < acc.lock_end_timestamp {
                Err(StakeError::UnstakeBeforeLockPeriod)
            } else if now + c.undelegation_period > u64::MAX {
                Err(StakeError::ArithmeticOverflow)
            } else {
                let amount = unstake_amount(opt, acc.staked_amount);
                let acc2 = AccountView {
                    staked_amount: (acc.staked_amount - amount) as nat,
                    unstaked_amount: acc.unstaked_amount + amount,
                    undelegation_end_timestamp: (now + c.undelegation_period) as u64,
                    ..acc
                };
                Ok(
                    (
                        c.with_account(acc2),
                        seq![event_view(EventKind::Unstake, caller, c.stake_token_id, amount, now)],
                    ),
                )
            },
        },
    }
}

/// What the contract holds of the staking token after it sent `reward` of
/// the reward token, from `stake_balance` before.
pub open spec fn stake_balance_after_reward(c: ContractView, reward: nat, stake_balance: nat) -> nat {
    if reward != 0 && c.reward_token_id == c.stake_token_id {
        if stake_balance >= reward {
            (stake_balance - reward) as nat
        } else {
            0
        }
    } else {
        stake_balance
    }
}

/// A record after a claim of `reward` and of its collectable tokens.
pub open spec fn claimed_account(acc: AccountView, reward: nat, now: u64) -> AccountView {
    if reward != 0 {
        AccountView {
            reward_amount: 0,
            last_reward_updated_timestamp: now,
            last_claim_timestamp: now,
            collectable_amount: 0,
            ..acc
        }
    } else {
        AccountView { collectable_amount: 0, ..acc }
    }
}

/// The effects of a claim: the reward sent and logged, then the collectable
/// tokens sent and logged, each only when it is not zero.
pub open spec fn claim_effects(
    c: ContractView,
    caller: Address,
    now: u64,
    reward: nat,
    collectable: nat,
) -> Seq<EffectView> {
    (if reward != 0 {
        seq![
            transfer_view(caller, c.reward_token_id, reward, TransferData::Reward),
            event_view(EventKind::Claim, caller, c.reward_token_id, reward, now),
        ]
    } else {
        Seq::empty()
    }) + (if collectable != 0 {
        seq![
            transfer_view(caller, c.stake_token_id, collectable, TransferData::Collect),
            event_view(EventKind::Collect, caller, c.stake_token_id, collectable, now),
        ]
    } else {
        Seq::empty()
    })
}

/// The outcome of a claim by `caller` at `now`, where the contract holds
/// `reward_balance` of the reward token and `stake_balance` of the staking
/// token.
pub open spec fn claim_outcome(
    c: ContractView,
    caller: Address,
    now: u64,
    reward_balance: nat,
    stake_balance: nat,
) -> Result<(ContractView, Seq<EffectView>), StakeError> {
    match activation(c) {
        Err(e) => Err(e),
        Ok(_) => match updated_account(c, c.account(caller), now) {
            Err(e) => Err(e),
            Ok(acc) => if acc.last_claim_timestamp + c.claim_lock_period > u64::MAX {
                Err(StakeError::ArithmeticOverflow)
            } else if acc.last_claim_timestamp + c.claim_lock_period > now {
                Err(StakeError::ClaimBeforeClaimLockPeriod)
            } else {
                match current_reward(c, acc, now) {
                    Err(e) => Err(e),
                    Ok(reward) => {
                        let collectable = acc.collectable_amount;
                        if reward == 0 && collectable == 0 {
                            Err(StakeError::NothingToClaim)
                        } else if reward != 0 && reward_balance < reward {
                            Err(StakeError::NotEnoughRewardTokens)
                        } else if collectable != 0 && c.total_staked_amount < collectable {
                            Err(StakeError::ArithmeticOverflow)
                        } else if collectable != 0 && stake_balance_after_reward(c, reward, stake_balance)
                            < collectable {
                            Err(StakeError::NotEnoughStakeTokens)
                        } else {
                            Ok(
                                (
                                    ContractView {
                                        total_staked_amount: (c.total_staked_amount - collectable) as nat,
                                        ..c.with_account(claimed_account(acc, reward, now))
                                    },
                                    claim_effects(c, caller, now, reward, collectable),
                                ),
                            )
                        }
                    },
                }
            },
        },
    }
}

/// The outcome of restaking by `caller` at `now`.
pub open spec fn restake_outcome(c: ContractView, caller: Address, now: u64) -> Result<
    (ContractView, Seq<EffectView>),
    StakeError,
> {
    match activation(c) {
        Err(e) => Err(e),
        Ok(_) => if c.stake_token_id != c.reward_token_id {
            Err(StakeError::RestakeTokenMismatch)
        } else {
            match updated_account(c, c.account(caller), now) {
                Err(e) => Err(e),
                Ok(acc) => if acc.last_claim_timestamp + c.claim_lock_period > u64::MAX {
                    Err(StakeError::ArithmeticOverflow)
                } else if acc.last_claim_timestamp + c.claim_lock_period > now {
                    Err(StakeError::RestakeBeforeClaimLockPeriod)
                } else {
                    match current_reward(c, acc, now) {
                        Err(e) => Err(e),
                        Ok(reward) => if reward == 0 {
                            Err(StakeError::NoRewardsForRestake)
                        } else {
                            let acc2 = AccountView {
                                reward_amount: 0,
                                last_reward_updated_timestamp: now,
                                last_claim_timestamp: now,
                                staked_amount: acc.staked_amount + reward,
                                ..acc
                            };
                            Ok(
                                (
                                    ContractView {
                                        total_staked_amount: c.total_staked_amount + reward,
                                        ..c.with_account(acc2)
                                    },
                                    seq![
                                        event_view(EventKind::Claim, caller, c.reward_token_id, reward, now),
                                        event_view(EventKind::Stake, caller, c.stake_token_id, reward, now),
                                    ],
                                ),
                            )
                        },
                    }
                },
            }
        },
    }
}

/// An endpoint met its outcome: on success the storage and the effects are
/// the stated ones; on refusal the error is the stated one and the storage
/// is unchanged.
pub open spec fn outcome_holds(
    r: Result<Vec<Effect>, StakeError>,
    expected: Result<(ContractView, Seq<EffectView>), StakeError>,
    before: ContractView,
    after: ContractView,
) -> bool {
    match expected {
        Ok((c, effects)) => match r {
            Ok(v) => after == c && effects_view(v@) == effects,
            Err(_) => false,
        },
        Err(e) => r == Err::<Vec<Effect>, StakeError>(e) && after == before,
    }
}

impl EventModule for OdinStakeV2 {}

/// The endpoints of the contract.
pub trait LogicModule {
    /// Stakes a payment.
    fn stake(
        &mut self,
        caller: &Address,
        current_timestamp: u64,
        stake_token_id: TokenId,
        stake_amount: BigUint,
    ) -> Result<Vec<Effect>, StakeError>;

    /// Starts the undelegation of staked tokens.
    fn unstake(
        &mut self,
        caller: &Address,
        current_timestamp: u64,
        opt_unstake_amount: Option<BigUint>,
    ) -> Result<Vec<Effect>, StakeError>;

    /// Pays the reward and the collectable tokens.
    fn claim(
        &mut self,
        caller: &Address,
        current_timestamp: u64,
        reward_token_balance: &BigUint,
        stake_token_balance: &BigUint,
    ) -> Result<Vec<Effect>, StakeError>;

    /// Adds the reward to the stake.
    fn restake(&mut self, caller: &Address, current_timestamp: u64) -> Result<Vec<Effect>, StakeError>;

    /// Brings a record up to date.
    fn update_stake_account(&mut self, caller: &Address, current_timestamp: u64) -> Result<(), StakeError>;

    /// The reward of an address now.
    fn get_current_reward(&self, caller: &Address, current_timestamp: u64) -> Result<BigUint, StakeError>;

    /// Whether the contract takes calls.
    fn require_activation(&self) -> Result<(), StakeError>;

    /// Lists an address among the stakers.
    fn check_existance_of_stake_account(&mut self, caller: &Address);
}

impl LogicModule for OdinStakeV2 {
    /// Stakes `stake_amount` of `stake_token_id`, paid by `caller` at
    /// `current_timestamp`: brings the caller's record up to date, adds the
    /// amount to its stake and to the total, locks the stake for the lock
    /// period and restarts the claim lock.
    fn stake(
        &mut self,
        caller: &Address,
        current_timestamp: u64,
        stake_token_id: TokenId,
        stake_amount: BigUint,
    ) -> (r: Result<Vec<Effect>, StakeError>)
        ensures
            outcome_holds(
                r,
                stake_outcome(old(self)@, *caller, current_timestamp, stake_token_id@, val(stake_amount)),
                old(self)@,
                final(self)@,
            ),
    {
        let ghost amount = val(stake_amount);
        let ghost token = stake_token_id@;
        self.require_activation()?;
        if !stake_token_id.same_as(self.stake_token()) {
            return Err(StakeError::InvalidStakeTokenId);
        }
        let acc = self.account_record(caller);
        let acc = self.updated_record(acc, current_timestamp)?;
        let staked = big_add(&stake_amount, &acc.staked_amount);
        if !big_le(self.min_limit(), &staked) {
            return Err(StakeError::BelowMinStakeLimit);
        }
        if !big_is_zero(self.max_limit()) && !big_le(&staked, self.max_limit()) {
            return Err(StakeError::AboveMaxStakeLimit);
        }
        let lock_end = match current_timestamp.checked_add(self.lock_period()) {
            Some(v) => v,
            None => {
                return Err(StakeError::ArithmeticOverflow);
            },
        };
        let total = big_add(self.total(), &stake_amount);
        let acc = StakeAccount {
            staked_amount: staked,
            lock_end_timestamp: lock_end,
            last_claim_timestamp: current_timestamp,
            ..acc
        };
        self.check_existance_of_stake_account(caller);
        self.store_account(acc);
        self.set_total_staked(total);
        let event = self.stake_event(*caller, stake_token_id, stake_amount, current_timestamp);
        let effects = vec![Effect::Emit(event)];
        assert(effects_view(effects@) =~= seq![event_view(EventKind::Stake, *caller, token, amount, current_timestamp)]);
        Ok(effects)
    }

    /// Unstakes `opt_unstake_amount` (at most the stake; all of it when none
    /// is given) for `caller` at `current_timestamp`: brings the record up to
    /// date, moves the amount from staked to unstaked and starts the
    /// undelegation period.
    fn unstake(
        &mut self,
        caller: &Address,
        current_timestamp: u64,
        opt_unstake_amount: Option<BigUint>,
    ) -> (r: Result<Vec<Effect>, StakeError>)
        ensures
            outcome_holds(
                r,
                unstake_outcome(old(self)@, *caller, current_timestamp, opt_amount(opt_unstake_amount)),
                old(self)@,
                final(self)@,
            ),
    {
        let ghost c = self@;
        self.require_activation()?;
        let acc = self.account_record(caller);
        let acc = self.updated_record(acc, current_timestamp)?;
        if big_is_zero(&acc.staked_amount) {
            return Err(StakeError::NothingToUnstake);
        }
        if current_timestamp < acc.lock_end_timestamp {
            return Err(StakeError::UnstakeBeforeLockPeriod);
        }
        let undelegation_end = match current_timestamp.checked_add(self.undelegation_period()) {
            Some(v) => v,
            None => {
                return Err(StakeError::ArithmeticOverflow);
            },
        };
        let amount = match opt_unstake_amount {
            Some(v) => if big_le(&v, &acc.staked_amount) {
                v
            } else {
                big_clone(&acc.staked_amount)
            },
            None => big_clone(&acc.staked_amount),
        };
        let staked = big_sub(&acc.staked_amount, &amount);
        let unstaked = big_add(&acc.unstaked_amount, &amount);
        let acc = StakeAccount {
            staked_amount: staked,
            unstaked_amount: unstaked,
            undelegation_end_timestamp: undelegation_end,
            ..acc
        };
        let token = self.stake_token().copy();
        self.store_account(acc);
        let ghost amt = val(amount);
        let event = self.unstake_event(*caller, token, amount, current_timestamp);
        let effects = vec![Effect::Emit(event)];
        assert(effects_view(effects@) =~= seq![event_view(EventKind::Unstake, *caller, c.stake_token_id, amt, current_timestamp)]);
        Ok(effects)
    }

    /// Claims for `caller` at `current_timestamp`, where the contract holds
    /// `reward_token_balance` of the reward token and `stake_token_balance`
    /// of the staking token: brings the record up to date, then sends the
    /// current reward, if any, and the collectable tokens, if any, which
    /// leave the total staked amount.
    fn claim(
        &mut self,
        caller: &Address,
        current_timestamp: u64,
        reward_token_balance: &BigUint,
        stake_token_balance: &BigUint,
    ) -> (r: Result<Vec<Effect>, StakeError>)
        ensures
            outcome_holds(
                r,
                claim_outcome(
                    old(self)@,
                    *caller,
                    current_timestamp,
                    val(*reward_token_balance),
                    val(*stake_token_balance),
                ),
                old(self)@,
                final(self)@,
            ),
    {
        let ghost c = self@;
        self.require_activation()?;
        let acc = self.account_record(caller);
        let acc = self.updated_record(acc, current_timestamp)?;
        let claim_end = match acc.last_claim_timestamp.checked_add(self.claim_lock_period()) {
            Some(v) => v,
            None => {
                return Err(StakeError::ArithmeticOverflow);
            },
        };
        if claim_end > current_timestamp {
            return Err(StakeError::ClaimBeforeClaimLockPeriod);
        }
        let reward = self.reward_of(&acc, current_timestamp)?;
        let has_reward = !big_is_zero(&reward);
        let has_collectable = !big_is_zero(&acc.collectable_amount);
        if !has_reward && !has_collectable {
            return Err(StakeError::NothingToClaim);
        }
        if has_reward && !big_le(&reward, reward_token_balance) {
            return Err(StakeError::NotEnoughRewardTokens);
        }
        let collectable = big_clone(&acc.collectable_amount);
        let mut total = big_clone(self.total());
        if has_collectable {
            if !big_le(&collectable, &total) {
                return Err(StakeError::ArithmeticOverflow);
            }
            total = big_sub(&total, &collectable);
            let same_token = self.reward_token().same_as(self.stake_token());
            let left = if has_reward && same_token {
                if big_le(&reward, stake_token_balance) {
                    big_sub(stake_token_balance, &reward)
                } else {
                    big_zero()
                }
            } else {
                big_clone(stake_token_balance)
            };
            if !big_le(&collectable, &left) {
                return Err(StakeError::NotEnoughStakeTokens);
            }
        }
        let ghost rw = val(reward);
        let ghost co = val(collectable);
        let acc = if has_reward {
            StakeAccount {
                reward_amount: big_zero(),
                last_reward_updated_timestamp: current_timestamp,
                last_claim_timestamp: current_timestamp,
                collectable_amount: big_zero(),
                ..acc
            }
        } else {
            StakeAccount { collectable_amount: big_zero(), ..acc }
        };
        let reward_token = self.reward_token().copy();
        let stake_token = self.stake_token().copy();
        self.store_account(acc);
        self.set_total_staked(total);
        let mut effects: Vec<Effect> = Vec::new();
        if has_reward {
            effects.push(
                Effect::Send(
                    Transfer {
                        to: *caller,
                        token: reward_token.copy(),
                        nonce: 0,
                        amount: big_clone(&reward),
                        data: TransferData::Reward,
                    },
                ),
            );
            let event = self.claim_event(*caller, reward_token, reward, current_timestamp);
            effects.push(Effect::Emit(event));
        }
        if has_collectable {
            effects.push(
                Effect::Send(
                    Transfer {
                        to: *caller,
                        token: stake_token.copy(),
                        nonce: 0,
                        amount: big_clone(&collectable),
                        data: TransferData::Collect,
                    },
                ),
            );
            let event = self.collect_event(*caller, stake_token, collectable, current_timestamp);
            effects.push(Effect::Emit(event));
        }
        assert(effects_view(effects@) =~= claim_effects(c, *caller, current_timestamp, rw, co));
        Ok(effects)
    }

    /// Restakes the current reward of `caller` at `current_timestamp`, when
    /// the staking and the reward token are the same: the reward is claimed
    /// and added to the stake and to the total; the lock is not renewed.
    fn restake(&mut self, caller: &Address, current_timestamp: u64) -> (r: Result<Vec<Effect>, StakeError>)
        ensures
            outcome_holds(r, restake_outcome(old(self)@, *caller, current_timestamp), old(self)@, final(self)@),
    {
        let ghost c = self@;
        self.require_activation()?;
        if !self.stake_token().same_as(self.reward_token()) {
            return Err(StakeError::RestakeTokenMismatch);
        }
        let acc = self.account_record(caller);
        let acc = self.updated_record(acc, current_timestamp)?;
        let claim_end = match acc.last_claim_timestamp.checked_add(self.claim_lock_period()) {
            Some(v) => v,
            None => {
                return Err(StakeError::ArithmeticOverflow);
            },
        };
        if claim_end > current_timestamp {
            return Err(StakeError::RestakeBeforeClaimLockPeriod);
        }
        let reward = self.reward_of(&acc, current_timestamp)?;
        if big_is_zero(&reward) {
            return Err(StakeError::NoRewardsForRestake);
        }
        let ghost rw = val(reward);
        let staked = big_add(&acc.staked_amount, &reward);
        let total = big_add(self.total(), &reward);
        let acc = StakeAccount {
            reward_amount: big_zero(),
            last_reward_updated_timestamp: current_timestamp,
            last_claim_timestamp: current_timestamp,
            staked_amount: staked,
            ..acc
        };
        let reward_token = self.reward_token().copy();
        let stake_token = self.stake_token().copy();
        self.store_account(acc);
        self.set_total_staked(total);
        let claim = self.claim_event(*caller, reward_token, big_clone(&reward), current_timestamp);
        let stake = self.stake_event(*caller, stake_token, reward, current_timestamp);
        let effects = vec![Effect::Emit(claim), Effect::Emit(stake)];
        assert(effects_view(effects@) =~= seq![
            event_view(EventKind::Claim, *caller, c.reward_token_id, rw, current_timestamp),
            event_view(EventKind::Stake, *caller, c.stake_token_id, rw, current_timestamp),
        ]);
        Ok(effects)
    }

    /// Brings the record of `caller` up to date at `current_timestamp` and
    /// stores it.
    fn update_stake_account(&mut self, caller: &Address, current_timestamp: u64) -> (r: Result<(), StakeError>)
        ensures
            match updated_account(old(self)@, old(self)@.account(*caller), current_timestamp) {
                Ok(acc) => r is Ok && final(self)@ == old(self)@.with_account(acc),
                Err(e) => r == Err::<(), StakeError>(e) && final(self)@ == old(self)@,
            },
    {
        let acc = self.account_record(caller);
        let acc = self.updated_record(acc, current_timestamp)?;
        self.store_account(acc);
        Ok(())
    }

    /// The reward of `caller` at `current_timestamp`.
    fn get_current_reward(&self, caller: &Address, current_timestamp: u64) -> (r: Result<BigUint, StakeError>)
        ensures
            amount_result(r) == current_reward(self@, self@.account(*caller), current_timestamp),
    {
        let acc = self.account_record(caller);
        self.reward_of(&acc, current_timestamp)
    }

    /// Refuses calls while the contract is paused or has no reward period.
    fn require_activation(&self) -> (r: Result<(), StakeError>)
        ensures
            r == activation(self@),
    {
        if self.paused() {
            return Err(StakeError::NotLive);
        }
        if self.aprs().len() == 0 {
            return Err(StakeError::NoRewardApr);
        }
        Ok(())
    }

    /// Adds `caller` to the stakers unless it is there.
    fn check_existance_of_stake_account(&mut self, caller: &Address)
        ensures
            final(self)@ == old(self)@.with_staker(*caller),
    {
        self.insert_staker(*caller);
    }
}

} // verus!
