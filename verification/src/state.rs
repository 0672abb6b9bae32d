//! The values that the contract stores and shows: addresses, token
//! identifiers, reward periods, stake accounts and the settings summary.
use crate::amount::{big_clone, big_zero, val};
use num_bigint::BigUint;
use vstd::prelude::*;

verus! {

broadcast use vstd::array::group_array_axioms;

/// A 32-byte account address.
#[derive(Clone, Copy, Debug)]
pub struct Address {
    pub bytes: [u8; 32],
}

impl Address {
    /// Whether two addresses are the same.
    pub fn same_as(&self, other: &Address) -> (r: bool)
        ensures
            r == (*self == *other),
    {
        let mut i: usize = 0;
        while i < 32
            invariant
                0 <= i <= 32,
                forall|j: int| 0 <= j < i ==> self.bytes[j] == other.bytes[j],
            decreases 32 - i,
        {
            if self.bytes[i] != other.bytes[i] {
                return false;
            }
            i = i + 1;
        }
        assert(self.bytes =~= other.bytes);
        true
    }
}

/// A token identifier, such as `ODIN-a1b2c3`; EGLD, the native token, is
/// the empty identifier.
#[derive(Debug)]
pub struct TokenId {
    pub bytes: Vec<u8>,
}

impl View for TokenId {
    type V = Seq<u8>;

    open spec fn view(&self) -> Seq<u8> {
        self.bytes@
    }
}

impl TokenId {
    /// The identifier of EGLD.
    pub fn egld() -> (r: TokenId)
        ensures
            r@ == Seq::<u8>::empty(),
    {
        TokenId { bytes: Vec::new() }
    }

    /// Whether two identifiers name the same token.
    pub fn same_as(&self, other: &TokenId) -> (r: bool)
        ensures
            r == (self@ == other@),
    {
        let n = self.bytes.len();
        if n != other.bytes.len() {
            return false;
        }
        let mut i: usize = 0;
        while i < n
            invariant
                n == self.bytes.len(),
                n == other.bytes.len(),
                0 <= i <= n,
                forall|j: int| 0 <= j < i ==> self.bytes[j] == other.bytes[j],
            decreases n - i,
        {
            if self.bytes[i] != other.bytes[i] {
                return false;
            }
            i = i + 1;
        }
        assert(self@ =~= other@);
        true
    }

    /// A copy of the identifier.
    pub fn copy(&self) -> (r: TokenId)
        ensures
            r@ == self@,
    {
        let mut bytes: Vec<u8> = Vec::new();
        let n = self.bytes.len();
        let mut i: usize = 0;
        while i < n
            invariant
                n == self.bytes.len(),
                0 <= i <= n,
                bytes@ == self.bytes@.take(i as int),
            decreases n - i,
        {
            bytes.push(self.bytes[i]);
            i = i + 1;
            assert(bytes@ =~= self.bytes@.take(i as int));
        }
        assert(self.bytes@.take(n as int) =~= self.bytes@);
        TokenId { bytes }
    }
}

/// One period of the reward schedule: `apr` (in hundredths of a percent)
/// applies from `start_timestamp` to `end_timestamp`, where an end of zero
/// marks the period that is still open.
#[derive(Clone, Copy, Debug, PartialEq, Eq)]
pub struct RewardApr {
    pub id: usize,
    pub apr: u32,
    pub start_timestamp: u64,
    pub end_timestamp: u64,
}

/// What the contract holds for one address. The storage keeps one such
/// record per address; `view_stake_account` shows it with the reward and the
/// collectable amount brought up to date.
#[derive(Debug)]
pub struct StakeAccount {
    pub address: Address,
    pub staked_amount: BigUint,
    pub lock_end_timestamp: u64,
    pub unstaked_amount: BigUint,
    pub undelegation_end_timestamp: u64,
    pub collectable_amount: BigUint,
    pub reward_amount: BigUint,
    pub last_reward_updated_timestamp: u64,
    pub last_claim_timestamp: u64,
}

/// A stake account with its amounts read as numbers.
pub struct AccountView {
    pub address: Address,
    pub staked_amount: nat,
    pub lock_end_timestamp: u64,
    pub unstaked_amount: nat,
    pub undelegation_end_timestamp: u64,
    pub collectable_amount: nat,
    pub reward_amount: nat,
    pub last_reward_updated_timestamp: u64,
    pub last_claim_timestamp: u64,
}

impl View for StakeAccount {
    type V = AccountView;

    open spec fn view(&self) -> AccountView {
        AccountView {
            address: self.address,
            staked_amount: val(self.staked_amount),
            lock_end_timestamp: self.lock_end_timestamp,
            unstaked_amount: val(self.unstaked_amount),
            undelegation_end_timestamp: self.undelegation_end_timestamp,
            collectable_amount: val(self.collectable_amount),
            reward_amount: val(self.reward_amount),
            last_reward_updated_timestamp: self.last_reward_updated_timestamp,
            last_claim_timestamp: self.last_claim_timestamp,
        }
    }
}

/// The record of an address for which nothing has been stored.
pub open spec fn empty_account(address: Address) -> AccountView {
    AccountView {
        address,
        staked_amount: 0,
        lock_end_timestamp: 0,
        unstaked_amount: 0,
        undelegation_end_timestamp: 0,
        collectable_amount: 0,
        reward_amount: 0,
        last_reward_updated_timestamp: 0,
        last_claim_timestamp: 0,
    }
}

impl StakeAccount {
    /// The record of an address for which nothing has been stored.
    pub fn empty(address: Address) -> (r: StakeAccount)
        ensures
            r@ == empty_account(address),
    {
        StakeAccount {
            address,
            staked_amount: big_zero(),
            lock_end_timestamp: 0,
            unstaked_amount: big_zero(),
            undelegation_end_timestamp: 0,
            collectable_amount: big_zero(),
            reward_amount: big_zero(),
            last_reward_updated_timestamp: 0,
            last_claim_timestamp: 0,
        }
    }

    /// A copy of the record.
    pub fn copy(&self) -> (r: StakeAccount)
        ensures
            r@ == self@,
    {
        StakeAccount {
            address: self.address,
            staked_amount: big_clone(&self.staked_amount),
            lock_end_timestamp: self.lock_end_timestamp,
            unstaked_amount: big_clone(&self.unstaked_amount),
            undelegation_end_timestamp: self.undelegation_end_timestamp,
            collectable_amount: big_clone(&self.collectable_amount),
            reward_amount: big_clone(&self.reward_amount),
            last_reward_updated_timestamp: self.last_reward_updated_timestamp,
            last_claim_timestamp: self.last_claim_timestamp,
        }
    }
}

/// The contract's settings and totals, as `view_stake_setting` shows them.
#[derive(Debug)]
pub struct StakeSetting {
    pub stake_token_id: TokenId,
    pub reward_token_id: TokenId,
    pub min_stake_limit: BigUint,
    /// Zero means that there is no upper limit.
    pub max_stake_limit: BigUint,
    pub lock_period: u64,
    pub undelegation_period: u64,
    pub claim_lock_period: u64,
    pub stake_token_price: BigUint,
    pub reward_token_price: BigUint,
    pub apr: u32,
    pub total_staked_amount: BigUint,
    pub number_of_stakers: u32,
}

/// The settings summary with its amounts read as numbers.
pub struct SettingView {
    pub stake_token_id: Seq<u8>,
    pub reward_token_id: Seq<u8>,
    pub min_stake_limit: nat,
    pub max_stake_limit: nat,
    pub lock_period: u64,
    pub undelegation_period: u64,
    pub claim_lock_period: u64,
    pub stake_token_price: nat,
    pub reward_token_price: nat,
    pub apr: u32,
    pub total_staked_amount: nat,
    pub number_of_stakers: u32,
}

impl View for StakeSetting {
    type V = SettingView;

    open spec fn view(&self) -> SettingView {
        SettingView {
            stake_token_id: self.stake_token_id@,
            reward_token_id: self.reward_token_id@,
            min_stake_limit: val(self.min_stake_limit),
            max_stake_limit: val(self.max_stake_limit),
            lock_period: self.lock_period,
            undelegation_period: self.undelegation_period,
            claim_lock_period: self.claim_lock_period,
            stake_token_price: val(self.stake_token_price),
            reward_token_price: val(self.reward_token_price),
            apr: self.apr,
            total_staked_amount: val(self.total_staked_amount),
            number_of_stakers: self.number_of_stakers,
        }
    }
}

} // verus!
