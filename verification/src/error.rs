//! Why an endpoint refuses a call.
use vstd::prelude::*;

verus! {

/// The reasons for which the contract refuses a call. A refused call
/// changes nothing.
#[derive(Clone, Copy, Debug, PartialEq, Eq, Structural)]
pub enum StakeError {
    /// The contract is paused.
    NotLive,
    /// No reward period has been set.
    NoRewardApr,
    /// The payment is not in the staking token.
    InvalidStakeTokenId,
    /// The caller's stake would stay below the minimum.
    BelowMinStakeLimit,
    /// The caller's stake would exceed the maximum.
    AboveMaxStakeLimit,
    /// The caller has nothing staked.
    NothingToUnstake,
    /// The caller's lock period has not ended.
    UnstakeBeforeLockPeriod,
    /// The caller claimed too recently.
    ClaimBeforeClaimLockPeriod,
    /// The caller has neither a reward nor a collectable amount.
    NothingToClaim,
    /// The contract holds too little of the reward token.
    NotEnoughRewardTokens,
    /// The contract holds too little of the staking token.
    NotEnoughStakeTokens,
    /// Restaking needs the staking and the reward token to be the same.
    RestakeTokenMismatch,
    /// The caller claimed too recently to restake.
    RestakeBeforeClaimLockPeriod,
    /// The caller has no reward to restake.
    NoRewardsForRestake,
    /// An operation left the range of its type: a timestamp sum above
    /// `u64::MAX`, a timestamp or amount difference below zero, or a counter
    /// above `u32::MAX`.
    ArithmeticOverflow,
    /// A reward was computed with a staking token price of zero.
    DivisionByZero,
}

} // verus!
