//! A staking contract: stakers lock a token for a period, earn a reward at
//! rates that the owner schedules, unstake through an undelegation period and
//! claim their reward and their released tokens.
//!
//! `OdinStakeV2` holds the contract's storage. Its endpoints take what the
//! chain would supply (the caller, the block timestamp, the payment, the
//! contract's balances) as arguments, and return the transfers and events of
//! the call, or the reason the call is refused, in which case the storage is
//! unchanged.
pub mod amount;
pub mod error;
pub mod event;
pub mod laws;
pub mod logic;
pub mod state;
pub mod storage;

use crate::amount::{big_add, big_clone, big_is_zero, big_zero, val};
use crate::error::StakeError;
use crate::event::{Transfer, TransferData, TransferView};
use crate::logic::{current_reward, released};
use crate::state::{AccountView, Address, SettingView, StakeAccount, StakeSetting, TokenId};
pub use crate::storage::OdinStakeV2;
use crate::storage::{ContractView, StorageModule};
use num_bigint::BigUint;
use vstd::prelude::*;

verus! {

/// What `view_stake_account` shows for `a` at `now`: the stored record with
/// the current reward, and with its unstaked tokens counted as collectable
/// once the undelegation has ended.
pub open spec fn shown_account(c: ContractView, a: Address, now: u64) -> Result<AccountView, StakeError> {
    let acc = c.account(a);
    match current_reward(c, acc, now) {
        Err(e) => Err(e),
        Ok(reward) => Ok(released(AccountView { address: a, reward_amount: reward, ..acc }, now)),
    }
}

/// What `view_stake_accounts` shows for the addresses `s`, in order; the
/// first address that cannot be shown decides the error.
pub open spec fn shown_accounts(c: ContractView, s: Seq<Address>, now: u64) -> Result<Seq<AccountView>, StakeError>
    decreases s.len(),
{
    if s.len() == 0 {
        Ok(Seq::empty())
    } else {
        match shown_accounts(c, s.drop_last(), now) {
            Err(e) => Err(e),
            Ok(v) => match shown_account(c, s.last(), now) {
                Err(e) => Err(e),
                Ok(x) => Ok(v.push(x)),
            },
        }
    }
}

/// The rate of the last reward period, or zero when there is none.
pub open spec fn current_apr(c: ContractView) -> u32 {
    if c.reward_aprs.len() > 0 {
        c.reward_aprs.last().apr
    } else {
        0
    }
}

/// How many of the addresses `s` have a stake.
pub open spec fn stakers_with_stake(c: ContractView, s: Seq<Address>) -> nat
    decreases s.len(),
{
    if s.len() == 0 {
        0
    } else {
        stakers_with_stake(c, s.drop_last()) + if c.account(s.last()).staked_amount != 0 {
            1nat
        } else {
            0nat
        }
    }
}

/// The settings summary of the storage.
pub open spec fn setting_of(c: ContractView) -> SettingView {
    SettingView {
        stake_token_id: c.stake_token_id,
        reward_token_id: c.reward_token_id,
        min_stake_limit: c.min_stake_limit,
        max_stake_limit: c.max_stake_limit,
        lock_period: c.lock_period,
        undelegation_period: c.undelegation_period,
        claim_lock_period: c.claim_lock_period,
        stake_token_price: c.stake_token_price,
        reward_token_price: c.reward_token_price,
        apr: current_apr(c),
        total_staked_amount: c.total_staked_amount,
        number_of_stakers: stakers_with_stake(c, c.staker_addresses) as u32,
    }
}

/// The token that `withdraw_funds` sends: the given one, else EGLD.
pub open spec fn withdrawn_token(opt_token_id: Option<TokenId>) -> Seq<u8> {
    match opt_token_id {
        Some(t) => t@,
        None => Seq::empty(),
    }
}

/// A list of records read as plain values.
pub open spec fn records_view(v: Seq<StakeAccount>) -> Seq<AccountView> {
    v.map_values(|a: StakeAccount| a@)
}

/// An error of a prefix of the list is the error of every longer prefix.
proof fn lemma_shown_error_persists(c: ContractView, s: Seq<Address>, k: int, m: int, now: u64)
    requires
        0 <= k <= m <= s.len(),
        shown_accounts(c, s.take(k), now) is Err,
    ensures
        shown_accounts(c, s.take(m), now) == shown_accounts(c, s.take(k), now),
    decreases m - k,
{
    if m > k {
        lemma_shown_error_persists(c, s, k, m - 1, now);
        assert(s.take(m).drop_last() =~= s.take(m - 1));
    }
}

/// The token that `withdraw_funds` sends: `opt_token_id`, else EGLD. A host
/// reads the contract's balance of this token when no amount is given.
pub fn withdraw_token(opt_token_id: &Option<TokenId>) -> (r: TokenId)
    ensures
        r@ == withdrawn_token(*opt_token_id),
{
    match opt_token_id {
        Some(v) => v.copy(),
        None => TokenId::egld(),
    }
}

impl OdinStakeV2 {
    /// The account of `caller` at `current_timestamp`, with its reward and
    /// its collectable tokens brought up to date.
    pub fn view_stake_account(&self, caller: &Address, current_timestamp: u64) -> (r: Result<StakeAccount, StakeError>)
        ensures
            match r {
                Ok(acc) => shown_account(self@, *caller, current_timestamp) == Ok::<AccountView, StakeError>(acc@),
                Err(e) => shown_account(self@, *caller, current_timestamp) == Err::<AccountView, StakeError>(e),
            },
    {
        let acc = self.account_record(caller);
        let reward = self.reward_of(&acc, current_timestamp)?;
        let acc = StakeAccount { reward_amount: reward, ..acc };
        if acc.undelegation_end_timestamp <= current_timestamp && !big_is_zero(&acc.unstaked_amount) {
            let collectable = big_add(&acc.collectable_amount, &acc.unstaked_amount);
            Ok(StakeAccount { collectable_amount: collectable, unstaked_amount: big_zero(), ..acc })
        } else {
            Ok(acc)
        }
    }

    /// The accounts of all stakers at `current_timestamp`, in the order in
    /// which they first staked.
    pub fn view_stake_accounts(&self, current_timestamp: u64) -> (r: Result<Vec<StakeAccount>, StakeError>)
        ensures
            match r {
                Ok(v) => shown_accounts(self@, self@.staker_addresses, current_timestamp) == Ok::<
                    Seq<AccountView>,
                    StakeError,
                >(records_view(v@)),
                Err(e) => shown_accounts(self@, self@.staker_addresses, current_timestamp) == Err::<
                    Seq<AccountView>,
                    StakeError,
                >(e),
            },
    {
        let stakers = self.stakers();
        let ghost s = stakers@;
        let n = stakers.len();
        let mut items: Vec<StakeAccount> = Vec::new();
        let mut i: usize = 0;
        assert(s.take(0) =~= Seq::<Address>::empty());
        assert(records_view(items@) =~= Seq::<AccountView>::empty());
        while i < n
            invariant
                n == stakers.len(),
                s == stakers@,
                s == self@.staker_addresses,
                0 <= i <= n,
                items@.len() == i,
                shown_accounts(self@, s.take(i as int), current_timestamp) == Ok::<Seq<AccountView>, StakeError>(
                    records_view(items@),
                ),
            decreases n - i,
        {
            assert(s.take(i + 1).drop_last() =~= s.take(i as int));
            assert(s.take(i + 1).last() == stakers@[i as int]);
            match self.view_stake_account(&stakers[i], current_timestamp) {
                Err(e) => {
                    proof {
                        lemma_shown_error_persists(self@, s, i + 1, n as int, current_timestamp);
                        assert(s.take(n as int) =~= s);
                    }
                    return Err(e);
                },
                Ok(acc) => {
                    let ghost before = items@;
                    items.push(acc);
                    assert(records_view(items@) =~= records_view(before).push(items@[i as int]@));
                },
            }
            i = i + 1;
        }
        assert(s.take(n as int) =~= s);
        Ok(items)
    }

    /// The rate of the last reward period, or zero when there is none.
    pub fn get_current_apr(&self) -> (r: u32)
        ensures
            r == current_apr(self@),
    {
        let aprs = self.aprs();
        let count = aprs.len();
        if count > 0 {
            aprs[count - 1].apr
        } else {
            0
        }
    }

    /// The settings, the current rate, the total staked amount and the
    /// number of stakers who have a stake. Refused only when that number
    /// exceeds `u32::MAX`.
    pub fn view_stake_setting(&self) -> (r: Result<StakeSetting, StakeError>)
        ensures
            match r {
                Ok(st) => stakers_with_stake(self@, self@.staker_addresses) <= u32::MAX && st@ == setting_of(self@),
                Err(e) => stakers_with_stake(self@, self@.staker_addresses) > u32::MAX && e == StakeError::ArithmeticOverflow,
            },
    {
        let stakers = self.stakers();
        let ghost s = stakers@;
        let n = stakers.len();
        let mut number_of_stakers: u32 = 0;
        let mut i: usize = 0;
        assert(s.take(0) =~= Seq::<Address>::empty());
        while i < n
            invariant
                n == stakers.len(),
                s == stakers@,
                s == self@.staker_addresses,
                0 <= i <= n,
                stakers_with_stake(self@, s.take(i as int)) == number_of_stakers,
            decreases n - i,
        {
            assert(s.take(i + 1).drop_last() =~= s.take(i as int));
            assert(s.take(i + 1).last() == stakers@[i as int]);
            if !big_is_zero(&self.staked_amount(&stakers[i])) {
                if number_of_stakers == u32::MAX {
                    proof {
                        lemma_stakers_with_stake_grows(self@, s, i + 1, n as int);
                        assert(s.take(n as int) =~= s);
                    }
                    return Err(StakeError::ArithmeticOverflow);
                }
                number_of_stakers = number_of_stakers + 1;
            }
            i = i + 1;
        }
        assert(s.take(n as int) =~= s);
        Ok(
            StakeSetting {
                stake_token_id: self.stake_token_id(),
                reward_token_id: self.reward_token_id(),
                min_stake_limit: self.min_stake_limit(),
                max_stake_limit: self.max_stake_limit(),
                lock_period: self.lock_period(),
                undelegation_period: self.undelegation_period(),
                claim_lock_period: self.claim_lock_period(),
                stake_token_price: self.stake_token_price(),
                reward_token_price: self.reward_token_price(),
                apr: self.get_current_apr(),
                total_staked_amount: self.total_staked_amount(),
                number_of_stakers,
            },
        )
    }

    /// The transfer that the owner's withdrawal makes to `caller`: of the
    /// given token (EGLD when none is given), with the given nonce (zero
    /// when none is given), of the given amount, else of `sc_balance`, the
    /// contract's balance of that token.
    pub fn withdraw_funds(
        &self,
        caller: &Address,
        opt_token_id: Option<TokenId>,
        opt_token_nonce: Option<u64>,
        opt_token_amount: Option<BigUint>,
        sc_balance: &BigUint,
    ) -> (r: Transfer)
        ensures
            r@ == (TransferView {
                to: *caller,
                token: withdrawn_token(opt_token_id),
                nonce: match opt_token_nonce {
                    Some(v) => v,
                    None => 0,
                },
                amount: match opt_token_amount {
                    Some(v) => val(v),
                    None => val(*sc_balance),
                },
                data: TransferData::NoData,
            }),
    {
        let token = withdraw_token(&opt_token_id);
        let nonce = match opt_token_nonce {
            Some(v) => v,
            None => 0,
        };
        let amount = match opt_token_amount {
            Some(v) => v,
            None => big_clone(sc_balance),
        };
        Transfer { to: *caller, token, nonce, amount, data: TransferData::NoData }
    }
}

/// The count over a prefix is at most the count over a longer one.
proof fn lemma_stakers_with_stake_grows(c: ContractView, s: Seq<Address>, k: int, m: int)
    requires
        0 <= k <= m <= s.len(),
    ensures
        stakers_with_stake(c, s.take(k)) <= stakers_with_stake(c, s.take(m)),
    decreases m - k,
{
    if m > k {
        lemma_stakers_with_stake_grows(c, s, k, m - 1);
        assert(s.take(m).drop_last() =~= s.take(m - 1));
    }
}

} // verus!
