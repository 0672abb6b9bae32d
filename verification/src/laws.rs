//! Properties of the contract that span its operations.
use crate::error::StakeError;
use crate::event::{EffectView, EventKind, TransferData};
use crate::logic::{
    apr_duration, period_reward, rewards_accrued, DAY_IN_SECONDS, TOTAL_PERCENTAGE, YEAR_IN_DAYS,
    claim_outcome, claimed_account, current_reward, restake_outcome, stake_outcome, unstake_amount,
    unstake_outcome, updated_account,
};
use crate::state::{AccountView, Address, RewardApr};
use crate::storage::{
    account_in, first_match, held_by, lemma_held_put, lemma_listed_put, lemma_put_account,
    lemma_put_keeps_distinct, put_account, schedule_after_add, ContractView,
};
use crate::{current_apr, shown_account, stakers_with_stake};
use vstd::arithmetic::div_mod::lemma_div_is_ordered;
use vstd::prelude::*;

verus! {

/// The record of an address belongs to that address.
pub proof fn lemma_account_address(c: ContractView, a: Address)
    ensures
        c.account(a).address == a,
{
    if exists|i: int| first_match(c.accounts, a, i) {
        let i = choose|i: int| first_match(c.accounts, a, i);
        assert(c.accounts[i].address == a);
    }
}

/// The storage of a fresh deployment, which has no records, no stakers and
/// nothing staked, counts exactly what its records hold.
pub proof fn lemma_fresh_storage_is_consistent(c: ContractView)
    requires
        c.accounts.len() == 0,
        c.staker_addresses.len() == 0,
        c.total_staked_amount == 0,
    ensures
        c.total_is_held(),
        c.total_is_held_by_stakers(),
        c.well_formed(),
        c.unlisted_are_empty(),
{
}

/// Bringing a record up to date keeps its owner, its stake, its lock and the
/// tokens it holds.
proof fn lemma_updated_keeps(c: ContractView, acc: AccountView, now: u64)
    requires
        updated_account(c, acc, now) is Ok,
    ensures
        ({
            let u = updated_account(c, acc, now)->Ok_0;
            &&& u.address == acc.address
            &&& u.staked_amount == acc.staked_amount
            &&& u.lock_end_timestamp == acc.lock_end_timestamp
            &&& u.last_claim_timestamp == acc.last_claim_timestamp
            &&& held_by(u) == held_by(acc)
        }),
{
}

/// Every way a staker list can grow keeps it free of repeats.
proof fn lemma_with_staker_no_duplicates(c: ContractView, a: Address)
    requires
        c.staker_addresses.no_duplicates(),
    ensures
        c.with_staker(a).staker_addresses.no_duplicates(),
        c.with_staker(a).staker_addresses.contains(a),
{
    if !c.staker_addresses.contains(a) {
        let s = c.staker_addresses.push(a);
        assert forall|i: int, j: int| 0 <= i < s.len() && 0 <= j < s.len() && i != j implies s[i] != s[j] by {
            if i == s.len() - 1 {
                assert(c.staker_addresses[j] == s[j]);
            } else if j == s.len() - 1 {
                assert(c.staker_addresses[i] == s[i]);
            }
        }
        assert(s[s.len() - 1] == a);
    }
}

/// After the record of `x` is replaced by `rec`, the addresses that are not
/// stakers still hold nothing, provided `rec` holds nothing when `x` is not
/// a staker.
proof fn lemma_unlisted_after_put(c: ContractView, rec: AccountView, s: Seq<Address>)
    requires
        forall|a: Address| !c.staker_addresses.contains(a) ==> held_by(#[trigger] c.account(a)) == 0,
        !s.contains(rec.address) ==> held_by(rec) == 0,
        forall|a: Address| !s.contains(a) ==> !c.staker_addresses.contains(a),
    ensures
        forall|a: Address| !s.contains(a) ==> held_by(#[trigger] account_in(put_account(c.accounts, rec), a)) == 0,
{
    assert forall|a: Address| !s.contains(a) implies held_by(#[trigger] account_in(put_account(c.accounts, rec), a)) == 0 by {
        lemma_put_account(c.accounts, rec, a);
        if a != rec.address {
            assert(!c.staker_addresses.contains(a));
            assert(held_by(c.account(a)) == 0);
        }
    }
}

/// A record stored for an address outside the staker list that has
/// neither tokens nor a reward leaves the addresses outside the list with
/// nothing stored.
proof fn lemma_unlisted_stay_empty(c: ContractView, rec: AccountView, s: Seq<Address>)
    requires
        c.unlisted_are_empty(),
        !s.contains(rec.address) ==> held_by(rec) == 0 && rec.reward_amount == 0,
        forall|a: Address| !s.contains(a) ==> !c.staker_addresses.contains(a),
    ensures
        forall|a: Address|
            !s.contains(a) ==> held_by(#[trigger] account_in(put_account(c.accounts, rec), a)) == 0
                && account_in(put_account(c.accounts, rec), a).reward_amount == 0,
{
    assert forall|a: Address| !s.contains(a) implies held_by(#[trigger] account_in(put_account(c.accounts, rec), a)) == 0
        && account_in(put_account(c.accounts, rec), a).reward_amount == 0 by {
        lemma_put_account(c.accounts, rec, a);
        if a != rec.address {
            assert(!c.staker_addresses.contains(a));
            assert(held_by(c.account(a)) == 0 && c.account(a).reward_amount == 0);
        }
    }
}

/// An address outside the staker list of a storage whose unlisted addresses
/// have nothing stored is brought up to date with nothing: no tokens, no
/// reward, and no reward after that either.
proof fn lemma_unlisted_caller_is_empty(c: ContractView, caller: Address, now: u64)
    requires
        c.unlisted_are_empty(),
        !c.staker_addresses.contains(caller),
    ensures
        updated_account(c, c.account(caller), now) is Ok,
        ({
            let u = updated_account(c, c.account(caller), now)->Ok_0;
            &&& u.staked_amount == 0
            &&& u.unstaked_amount == 0
            &&& u.collectable_amount == 0
            &&& u.reward_amount == 0
            &&& current_reward(c, u, now) == Ok::<nat, StakeError>(0)
        }),
{
    assert(held_by(c.account(caller)) == 0 && c.account(caller).reward_amount == 0);
}

/// Staking keeps the invariants of the storage: the total staked amount
/// counts exactly what the records hold, and exactly what the stakers'
/// records hold; the staker list has no repeats and no address has two
/// records. It takes only the staking token, lists the caller, adds exactly
/// the amount to its stake and to the total, keeps the stake within the
/// limits, locks it for the lock period from `now` and restarts the claim
/// lock, and logs one stake event.
pub proof fn lemma_stake_keeps_invariants(c: ContractView, caller: Address, now: u64, token: Seq<u8>, amount: nat)
    requires
        stake_outcome(c, caller, now, token, amount) is Ok,
    ensures
        ({
            let after = stake_outcome(c, caller, now, token, amount)->Ok_0.0;
            &&& c.total_is_held() ==> after.total_is_held()
            &&& c.well_formed() ==> after.well_formed()
            &&& c.unlisted_are_empty() ==> after.unlisted_are_empty()
            &&& c.staker_addresses.no_duplicates() && c.total_is_held_by_stakers()
                ==> after.total_is_held_by_stakers()
            &&& after.staker_addresses.contains(caller)
            &&& after.account(caller).staked_amount == c.account(caller).staked_amount + amount
            &&& after.total_staked_amount == c.total_staked_amount + amount
            &&& token == c.stake_token_id
            &&& c.min_stake_limit <= after.account(caller).staked_amount
            &&& c.max_stake_limit != 0 ==> after.account(caller).staked_amount <= c.max_stake_limit
            &&& after.account(caller).lock_end_timestamp == now + c.lock_period
            &&& after.account(caller).last_claim_timestamp == now
            &&& stake_outcome(c, caller, now, token, amount)->Ok_0.1 == seq![
                EffectView::Emit(
                    crate::event::EventView {
                        kind: EventKind::Stake,
                        user_address: caller,
                        token: c.stake_token_id,
                        amount,
                        timestamp: now,
                    },
                ),
            ]
        }),
{
    let c1 = c.with_staker(caller);
    let old_acc = c1.account(caller);
    let acc = updated_account(c1, old_acc, now)->Ok_0;
    lemma_updated_keeps(c1, old_acc, now);
    lemma_account_address(c1, caller);
    let acc2 = AccountView {
        staked_amount: acc.staked_amount + amount,
        lock_end_timestamp: (now + c.lock_period) as u64,
        last_claim_timestamp: now,
        ..acc
    };
    let after = stake_outcome(c, caller, now, token, amount)->Ok_0.0;
    lemma_held_put(c1.accounts, acc2);
    lemma_put_account(c1.accounts, acc2, caller);
    if !c.staker_addresses.contains(caller) {
        assert(c1.staker_addresses[c.staker_addresses.len() as int] == caller);
    }
    if c.well_formed() {
        lemma_with_staker_no_duplicates(c, caller);
        lemma_put_keeps_distinct(c.accounts, acc2);
    }
    if c.staker_addresses.no_duplicates() && c.total_is_held_by_stakers() {
        let s = c.staker_addresses;
        lemma_listed_put(c.accounts, acc2, s);
        if !s.contains(caller) {
            assert(held_by(c.account(caller)) == 0);
            assert(after.staker_addresses == s.push(caller));
            assert(s.push(caller).drop_last() =~= s);
        }
        assert forall|a: Address| !after.staker_addresses.contains(a) implies !c.staker_addresses.contains(a) by {
            if c.staker_addresses.contains(a) {
                let k = choose|k: int| 0 <= k < s.len() && s[k] == a;
                if !s.contains(caller) {
                    assert(after.staker_addresses[k] == a);
                }
            }
        }
        lemma_unlisted_after_put(c, acc2, after.staker_addresses);
    }
    if c.unlisted_are_empty() {
        let s = c.staker_addresses;
        assert forall|a: Address| !after.staker_addresses.contains(a) implies !c.staker_addresses.contains(a) by {
            if c.staker_addresses.contains(a) {
                let k = choose|k: int| 0 <= k < s.len() && s[k] == a;
                if !s.contains(caller) {
                    assert(after.staker_addresses[k] == a);
                }
            }
        }
        lemma_unlisted_stay_empty(c, acc2, after.staker_addresses);
    }
}

/// Unstaking keeps the invariants of the storage (see
/// `lemma_stake_keeps_invariants`) and leaves the staker list as it is.
pub proof fn lemma_unstake_keeps_invariants(c: ContractView, caller: Address, now: u64, opt: Option<nat>)
    requires
        unstake_outcome(c, caller, now, opt) is Ok,
    ensures
        ({
            let after = unstake_outcome(c, caller, now, opt)->Ok_0.0;
            &&& c.total_is_held() ==> after.total_is_held()
            &&& c.well_formed() ==> after.well_formed()
            &&& c.unlisted_are_empty() ==> after.unlisted_are_empty()
            &&& c.staker_addresses.no_duplicates() && c.total_is_held_by_stakers()
                ==> after.total_is_held_by_stakers()
            &&& after.staker_addresses == c.staker_addresses
        }),
{
    let old_acc = c.account(caller);
    let acc = updated_account(c, old_acc, now)->Ok_0;
    lemma_updated_keeps(c, old_acc, now);
    lemma_account_address(c, caller);
    let amount = unstake_amount(opt, acc.staked_amount);
    let acc2 = AccountView {
        staked_amount: (acc.staked_amount - amount) as nat,
        unstaked_amount: acc.unstaked_amount + amount,
        undelegation_end_timestamp: (now + c.undelegation_period) as u64,
        ..acc
    };
    lemma_held_put(c.accounts, acc2);
    if c.well_formed() {
        lemma_put_keeps_distinct(c.accounts, acc2);
    }
    if c.staker_addresses.no_duplicates() && c.total_is_held_by_stakers() {
        lemma_listed_put(c.accounts, acc2, c.staker_addresses);
        lemma_unlisted_after_put(c, acc2, c.staker_addresses);
    }
    if c.unlisted_are_empty() {
        if !c.staker_addresses.contains(caller) {
            lemma_unlisted_caller_is_empty(c, caller, now);
        }
        lemma_unlisted_stay_empty(c, acc2, c.staker_addresses);
    }
}

/// Claiming keeps the invariants of the storage (see
/// `lemma_stake_keeps_invariants`), leaves the staker list as it is, and
/// leaves the caller with neither a reward nor collectable tokens. The total
/// loses exactly the collectable tokens that the claim sends.
pub proof fn lemma_claim_keeps_invariants(
    c: ContractView,
    caller: Address,
    now: u64,
    reward_balance: nat,
    stake_balance: nat,
)
    requires
        claim_outcome(c, caller, now, reward_balance, stake_balance) is Ok,
    ensures
        ({
            let after = claim_outcome(c, caller, now, reward_balance, stake_balance)->Ok_0.0;
            let collectable = updated_account(c, c.account(caller), now)->Ok_0.collectable_amount;
            &&& c.total_is_held() ==> after.total_is_held()
            &&& c.well_formed() ==> after.well_formed()
            &&& c.unlisted_are_empty() ==> after.unlisted_are_empty()
            &&& c.staker_addresses.no_duplicates() && c.total_is_held_by_stakers()
                ==> after.total_is_held_by_stakers()
            &&& after.total_staked_amount + collectable == c.total_staked_amount
            &&& after.staker_addresses == c.staker_addresses
            &&& after.account(caller).reward_amount == 0
            &&& after.account(caller).collectable_amount == 0
        }),
{
    let old_acc = c.account(caller);
    let acc = updated_account(c, old_acc, now)->Ok_0;
    lemma_updated_keeps(c, old_acc, now);
    lemma_account_address(c, caller);
    let reward = current_reward(c, acc, now)->Ok_0;
    let acc2 = claimed_account(acc, reward, now);
    lemma_held_put(c.accounts, acc2);
    lemma_put_account(c.accounts, acc2, caller);
    if c.well_formed() {
        lemma_put_keeps_distinct(c.accounts, acc2);
    }
    if c.staker_addresses.no_duplicates() && c.total_is_held_by_stakers() {
        lemma_listed_put(c.accounts, acc2, c.staker_addresses);
        lemma_unlisted_after_put(c, acc2, c.staker_addresses);
    }
    if c.unlisted_are_empty() {
        if !c.staker_addresses.contains(caller) {
            lemma_unlisted_caller_is_empty(c, caller, now);
        }
        lemma_unlisted_stay_empty(c, acc2, c.staker_addresses);
    }
}

/// Restaking keeps the invariants of the storage (see
/// `lemma_stake_keeps_invariants`), leaves the staker list as it is, and
/// does not renew the caller's lock. That the stakers' records hold the
/// total is kept where, besides, addresses outside the staker list have
/// nothing stored (`unlisted_are_empty`), which every endpoint keeps and a
/// fresh storage has.
pub proof fn lemma_restake_keeps_invariants(c: ContractView, caller: Address, now: u64)
    requires
        restake_outcome(c, caller, now) is Ok,
    ensures
        ({
            let after = restake_outcome(c, caller, now)->Ok_0.0;
            &&& c.total_is_held() ==> after.total_is_held()
            &&& c.well_formed() ==> after.well_formed()
            &&& c.unlisted_are_empty() ==> after.unlisted_are_empty()
            &&& c.staker_addresses.no_duplicates() && c.total_is_held_by_stakers() && c.unlisted_are_empty()
                ==> after.total_is_held_by_stakers()
            &&& after.staker_addresses == c.staker_addresses
            &&& after.account(caller).lock_end_timestamp == c.account(caller).lock_end_timestamp
        }),
{
    let old_acc = c.account(caller);
    let acc = updated_account(c, old_acc, now)->Ok_0;
    lemma_updated_keeps(c, old_acc, now);
    lemma_account_address(c, caller);
    let reward = current_reward(c, acc, now)->Ok_0;
    let acc2 = AccountView {
        reward_amount: 0,
        last_reward_updated_timestamp: now,
        last_claim_timestamp: now,
        staked_amount: acc.staked_amount + reward,
        ..acc
    };
    lemma_held_put(c.accounts, acc2);
    lemma_put_account(c.accounts, acc2, caller);
    if c.well_formed() {
        lemma_put_keeps_distinct(c.accounts, acc2);
    }
    if c.staker_addresses.no_duplicates() && c.total_is_held_by_stakers() && c.unlisted_are_empty() {
        if !c.staker_addresses.contains(caller) {
            assert(held_by(c.account(caller)) == 0);
            assert(c.account(caller).reward_amount == 0);
        }
        lemma_listed_put(c.accounts, acc2, c.staker_addresses);
        lemma_unlisted_after_put(c, acc2, c.staker_addresses);
    }
    if c.unlisted_are_empty() {
        if !c.staker_addresses.contains(caller) {
            lemma_unlisted_caller_is_empty(c, caller, now);
        }
        lemma_unlisted_stay_empty(c, acc2, c.staker_addresses);
    }
}

/// Bringing a record up to date keeps the invariants of the storage (see
/// `lemma_stake_keeps_invariants`).
pub proof fn lemma_update_keeps_invariants(c: ContractView, caller: Address, now: u64)
    requires
        updated_account(c, c.account(caller), now) is Ok,
    ensures
        ({
            let after = c.with_account(updated_account(c, c.account(caller), now)->Ok_0);
            &&& c.total_is_held() ==> after.total_is_held()
            &&& c.well_formed() ==> after.well_formed()
            &&& c.unlisted_are_empty() ==> after.unlisted_are_empty()
            &&& c.staker_addresses.no_duplicates() && c.total_is_held_by_stakers()
                ==> after.total_is_held_by_stakers()
        }),
{
    let old_acc = c.account(caller);
    let acc2 = updated_account(c, old_acc, now)->Ok_0;
    lemma_updated_keeps(c, old_acc, now);
    lemma_account_address(c, caller);
    lemma_held_put(c.accounts, acc2);
    if c.well_formed() {
        lemma_put_keeps_distinct(c.accounts, acc2);
    }
    if c.staker_addresses.no_duplicates() && c.total_is_held_by_stakers() {
        lemma_listed_put(c.accounts, acc2, c.staker_addresses);
        lemma_unlisted_after_put(c, acc2, c.staker_addresses);
    }
    if c.unlisted_are_empty() {
        if !c.staker_addresses.contains(caller) {
            lemma_unlisted_caller_is_empty(c, caller, now);
        }
        lemma_unlisted_stay_empty(c, acc2, c.staker_addresses);
    }
}

/// Tokens staked at `now` cannot be unstaked before the lock period has
/// passed: an unstake by the same caller before then is refused.
pub proof fn lemma_stake_locks(
    c: ContractView,
    caller: Address,
    now: u64,
    token: Seq<u8>,
    amount: nat,
    later: u64,
    opt: Option<nat>,
)
    requires
        stake_outcome(c, caller, now, token, amount) is Ok,
        later < now + c.lock_period,
    ensures
        unstake_outcome(stake_outcome(c, caller, now, token, amount)->Ok_0.0, caller, later, opt) is Err,
{
    let c1 = c.with_staker(caller);
    let old_acc = c1.account(caller);
    let acc = updated_account(c1, old_acc, now)->Ok_0;
    lemma_updated_keeps(c1, old_acc, now);
    lemma_account_address(c1, caller);
    let acc2 = AccountView {
        staked_amount: acc.staked_amount + amount,
        lock_end_timestamp: (now + c.lock_period) as u64,
        last_claim_timestamp: now,
        ..acc
    };
    let after = stake_outcome(c, caller, now, token, amount)->Ok_0.0;
    lemma_put_account(c1.accounts, acc2, caller);
    assert(after.account(caller) == acc2);
    if updated_account(after, acc2, later) is Ok {
        lemma_updated_keeps(after, acc2, later);
    }
}

/// While the contract is paused, every endpoint refuses with `NotLive`.
pub proof fn lemma_paused_refuses(
    c: ContractView,
    caller: Address,
    now: u64,
    token: Seq<u8>,
    amount: nat,
    opt: Option<nat>,
    reward_balance: nat,
    stake_balance: nat,
)
    requires
        c.paused,
    ensures
        stake_outcome(c, caller, now, token, amount) == Err::<(ContractView, Seq<EffectView>), StakeError>(StakeError::NotLive),
        unstake_outcome(c, caller, now, opt) == Err::<(ContractView, Seq<EffectView>), StakeError>(StakeError::NotLive),
        claim_outcome(c, caller, now, reward_balance, stake_balance) == Err::<(ContractView, Seq<EffectView>), StakeError>(StakeError::NotLive),
        restake_outcome(c, caller, now) == Err::<(ContractView, Seq<EffectView>), StakeError>(StakeError::NotLive),
{
}

/// What `view_stake_account` shows is what `update_stake_account` would
/// store at the same time, but for the time of the last update.
pub proof fn lemma_view_matches_update(c: ContractView, a: Address, now: u64)
    ensures
        shown_account(c, a, now) is Ok <==> updated_account(c, c.account(a), now) is Ok,
        shown_account(c, a, now) is Ok ==> shown_account(c, a, now)->Ok_0 == (AccountView {
            last_reward_updated_timestamp: c.account(a).last_reward_updated_timestamp,
            ..updated_account(c, c.account(a), now)->Ok_0
        }),
{
    lemma_account_address(c, a);
}

/// After a reward period is added, the current rate is its rate; it is
/// numbered after the others, is open, the period before it closes at the
/// time it was added and is otherwise unchanged, and every earlier period
/// stays as it was.
pub proof fn lemma_added_apr_is_current(c: ContractView, now: u64, apr: u32, start: u64)
    ensures
        ({
            let s = schedule_after_add(c.reward_aprs, now, apr, start);
            let c2 = ContractView { reward_aprs: s, ..c };
            &&& current_apr(c2) == apr
            &&& s.len() == c.reward_aprs.len() + 1
            &&& s.last() == (RewardApr {
                id: (c.reward_aprs.len() + 1) as usize,
                apr,
                start_timestamp: start,
                end_timestamp: 0,
            })
            &&& c.reward_aprs.len() > 0 ==> s[c.reward_aprs.len() - 1] == (RewardApr {
                end_timestamp: now,
                ..c.reward_aprs[c.reward_aprs.len() - 1]
            })
            &&& forall|i: int| 0 <= i < c.reward_aprs.len() - 1 ==> s[i] == c.reward_aprs[i]
        }),
{
}

/// The reward of one period grows with time, for a nonzero staking price.
proof fn lemma_period_reward_grows(
    r: RewardApr,
    staked: nat,
    last: u64,
    now1: u64,
    now2: u64,
    reward_price: nat,
    stake_price: nat,
)
    requires
        now1 <= now2,
        stake_price != 0,
        period_reward(r, staked, last, now1, reward_price, stake_price) is Ok,
    ensures
        period_reward(r, staked, last, now2, reward_price, stake_price) is Ok,
        period_reward(r, staked, last, now1, reward_price, stake_price)->Ok_0 <= period_reward(
            r,
            staked,
            last,
            now2,
            reward_price,
            stake_price,
        )->Ok_0,
{
    let d1 = apr_duration(r, last, now1);
    let d2 = apr_duration(r, last, now2);
    assert(0 <= d1 <= d2);
    if d1 > 0 {
        let k = staked * (r.apr as nat);
        let e1 = d1 as nat;
        let e2 = d2 as nat;
        assert(k * e1 * reward_price <= k * e2 * reward_price) by (nonlinear_arith)
            requires
                e1 <= e2,
        ;
        let x1 = k * e1 * reward_price;
        let x2 = k * e2 * reward_price;
        let year = (DAY_IN_SECONDS * YEAR_IN_DAYS) as nat;
        lemma_div_is_ordered(x1 as int, x2 as int, TOTAL_PERCENTAGE as int);
        let y1 = x1 / (TOTAL_PERCENTAGE as nat);
        let y2 = x2 / (TOTAL_PERCENTAGE as nat);
        lemma_div_is_ordered(y1 as int, y2 as int, year as int);
        let z1 = y1 / year;
        let z2 = y2 / year;
        lemma_div_is_ordered(z1 as int, z2 as int, stake_price as int);
    }
}

/// The reward over the schedule grows with time, for a nonzero staking
/// price.
proof fn lemma_accrued_grows(
    aprs: Seq<RewardApr>,
    staked: nat,
    last: u64,
    now1: u64,
    now2: u64,
    reward_price: nat,
    stake_price: nat,
)
    requires
        now1 <= now2,
        stake_price != 0,
        rewards_accrued(aprs, staked, last, now1, reward_price, stake_price) is Ok,
    ensures
        rewards_accrued(aprs, staked, last, now2, reward_price, stake_price) is Ok,
        rewards_accrued(aprs, staked, last, now1, reward_price, stake_price)->Ok_0 <= rewards_accrued(
            aprs,
            staked,
            last,
            now2,
            reward_price,
            stake_price,
        )->Ok_0,
    decreases aprs.len(),
{
    if aprs.len() > 0 {
        lemma_accrued_grows(aprs.drop_last(), staked, last, now1, now2, reward_price, stake_price);
        lemma_period_reward_grows(aprs.last(), staked, last, now1, now2, reward_price, stake_price);
    }
}

/// The current reward of an address never falls as time passes, while the
/// storage stays the same and the staking token's price is not zero: a
/// reward that can be computed at one time can be computed later, and is at
/// least as large.
pub proof fn lemma_reward_grows_with_time(c: ContractView, a: Address, now1: u64, now2: u64)
    requires
        now1 <= now2,
        c.stake_token_price != 0,
        current_reward(c, c.account(a), now1) is Ok,
    ensures
        current_reward(c, c.account(a), now2) is Ok,
        current_reward(c, c.account(a), now1)->Ok_0 <= current_reward(c, c.account(a), now2)->Ok_0,
{
    let acc = c.account(a);
    if acc.staked_amount != 0 {
        lemma_accrued_grows(
            c.reward_aprs,
            acc.staked_amount,
            acc.last_reward_updated_timestamp,
            now1,
            now2,
            c.reward_token_price,
            c.stake_token_price,
        );
    }
}

/// A reward period earns for the seconds of it that come after the record's
/// last update `last`: a closed period `[s, e]` (with `s <= e`) for
/// `e - max(s, last)` seconds when `last < e`, else none; the open period
/// from `s` for `now - max(s, last)` seconds. The reward is then staked x
/// apr x seconds x reward price / 10000 / 31_536_000 / stake price, each
/// division rounding down.
pub proof fn lemma_period_reward_counts_seconds_after_update(
    r: RewardApr,
    staked: nat,
    last: u64,
    now: u64,
    reward_price: nat,
    stake_price: nat,
)
    requires
        stake_price != 0,
    ensures
        r.end_timestamp != 0 && r.start_timestamp <= r.end_timestamp ==> ({
            let from: int = if r.start_timestamp >= last { r.start_timestamp as int } else { last as int };
            let secs: int = if (last as int) < (r.end_timestamp as int) { r.end_timestamp - from } else { 0 };
            period_reward(r, staked, last, now, reward_price, stake_price) == Ok::<nat, StakeError>(
                staked * (r.apr as nat) * (secs as nat) * reward_price / 10000 / 31_536_000 / stake_price,
            )
        }),
        r.end_timestamp == 0 && r.start_timestamp <= now && last <= now ==> ({
            let from: int = if r.start_timestamp >= last { r.start_timestamp as int } else { last as int };
            let secs: int = now - from;
            period_reward(r, staked, last, now, reward_price, stake_price) == Ok::<nat, StakeError>(
                staked * (r.apr as nat) * (secs as nat) * reward_price / 10000 / 31_536_000 / stake_price,
            )
        }),
{
    assert(DAY_IN_SECONDS * YEAR_IN_DAYS == 31_536_000);
    assert(TOTAL_PERCENTAGE == 10000);
    assert(staked * (r.apr as nat) * 0 * reward_price == 0) by (nonlinear_arith);
}

/// No second is counted twice: for the open period, the seconds counted
/// from `last` to `t2` are those from `last` to `t1` and those from `t1` to
/// `t2`; a period closed by `t1` counts nothing more after an update at `t1`.
pub proof fn lemma_no_second_counted_twice(r: RewardApr, last: u64, t1: u64, t2: u64)
    requires
        last <= t1 <= t2,
        r.start_timestamp <= t1,
    ensures
        r.end_timestamp == 0 ==> apr_duration(r, last, t2) == apr_duration(r, last, t1) + apr_duration(r, t1, t2),
        r.end_timestamp != 0 && r.start_timestamp <= r.end_timestamp <= t1 ==> apr_duration(r, t1, t2) == 0
            && apr_duration(r, last, t2) == apr_duration(r, last, t1),
{
}

/// Every period a schedule holds that has closed, closed by `now`.
pub open spec fn periods_closed_by(aprs: Seq<RewardApr>, now: u64) -> bool {
    forall|i: int| 0 <= i < aprs.len() && aprs[i].end_timestamp != 0 ==> aprs[i].end_timestamp <= now
}

/// After an update at `now`, a period earns nothing more at `now`.
proof fn lemma_period_second_pass(
    r: RewardApr,
    staked: nat,
    last: u64,
    now: u64,
    reward_price: nat,
    stake_price: nat,
)
    requires
        last <= now,
        r.end_timestamp != 0 ==> r.end_timestamp <= now,
        period_reward(r, staked, last, now, reward_price, stake_price) is Ok,
    ensures
        period_reward(r, staked, now, now, reward_price, stake_price) == Ok::<nat, StakeError>(0),
{
}

/// After an update at `now`, the schedule earns nothing more at `now`.
proof fn lemma_accrued_second_pass(
    aprs: Seq<RewardApr>,
    staked: nat,
    last: u64,
    now: u64,
    reward_price: nat,
    stake_price: nat,
)
    requires
        last <= now,
        periods_closed_by(aprs, now),
        rewards_accrued(aprs, staked, last, now, reward_price, stake_price) is Ok,
    ensures
        rewards_accrued(aprs, staked, now, now, reward_price, stake_price) == Ok::<nat, StakeError>(0),
    decreases aprs.len(),
{
    if aprs.len() > 0 {
        let t = aprs.drop_last();
        assert forall|i: int| 0 <= i < t.len() && t[i].end_timestamp != 0 implies t[i].end_timestamp <= now by {
            assert(t[i] == aprs[i]);
        }
        lemma_accrued_second_pass(t, staked, last, now, reward_price, stake_price);
        assert(aprs.last() == aprs[aprs.len() - 1]);
        lemma_period_second_pass(aprs.last(), staked, last, now, reward_price, stake_price);
    }
}

/// Bringing a record up to date at `now` stores its current reward, and the
/// current reward at `now` is then the same: nothing is counted twice,
/// where the record was last updated by `now` and every closed period closed
/// by `now`.
pub proof fn lemma_update_keeps_current_reward(c: ContractView, acc: AccountView, now: u64)
    requires
        acc.last_reward_updated_timestamp <= now,
        periods_closed_by(c.reward_aprs, now),
        current_reward(c, acc, now) is Ok,
    ensures
        updated_account(c, acc, now) is Ok,
        updated_account(c, acc, now)->Ok_0.reward_amount == current_reward(c, acc, now)->Ok_0,
        current_reward(c, updated_account(c, acc, now)->Ok_0, now) == current_reward(c, acc, now),
{
    if acc.staked_amount != 0 {
        lemma_accrued_second_pass(
            c.reward_aprs,
            acc.staked_amount,
            acc.last_reward_updated_timestamp,
            now,
            c.reward_token_price,
            c.stake_token_price,
        );
    }
}

/// The current reward includes the stored reward; without a stake it is
/// the stored reward.
pub proof fn lemma_current_reward_includes_stored(c: ContractView, acc: AccountView, now: u64)
    requires
        current_reward(c, acc, now) is Ok,
    ensures
        current_reward(c, acc, now)->Ok_0 >= acc.reward_amount,
        acc.staked_amount == 0 ==> current_reward(c, acc, now)->Ok_0 == acc.reward_amount,
{
}

/// A restake adds to the caller's stake and to the total exactly the
/// caller's current reward at that time (the stored reward included), and
/// leaves no reward stored; it is refused for want of a reward only when
/// that reward is zero, and it is refused whenever it is zero. This holds
/// where the caller's record was last updated by `now` and every closed
/// period closed by `now`.
pub proof fn lemma_restake_adds_current_reward(c: ContractView, caller: Address, now: u64)
    requires
        c.account(caller).last_reward_updated_timestamp <= now,
        periods_closed_by(c.reward_aprs, now),
        current_reward(c, c.account(caller), now) is Ok,
    ensures
        ({
            let reward = current_reward(c, c.account(caller), now)->Ok_0;
            let outcome = restake_outcome(c, caller, now);
            &&& outcome is Ok ==> ({
                let after = outcome->Ok_0.0;
                &&& after.account(caller).staked_amount == c.account(caller).staked_amount + reward
                &&& after.total_staked_amount == c.total_staked_amount + reward
                &&& after.account(caller).reward_amount == 0
                &&& outcome->Ok_0.1.len() == 2
                &&& outcome->Ok_0.1[0] == EffectView::Emit(
                    crate::event::EventView {
                        kind: EventKind::Claim,
                        user_address: caller,
                        token: c.reward_token_id,
                        amount: reward,
                        timestamp: now,
                    },
                )
                &&& outcome->Ok_0.1[1] == EffectView::Emit(
                    crate::event::EventView {
                        kind: EventKind::Stake,
                        user_address: caller,
                        token: c.stake_token_id,
                        amount: reward,
                        timestamp: now,
                    },
                )
            })
            &&& outcome == Err::<(ContractView, Seq<EffectView>), StakeError>(StakeError::NoRewardsForRestake)
                ==> reward == 0
            &&& reward == 0 ==> outcome is Err
        }),
{
    let old_acc = c.account(caller);
    lemma_update_keeps_current_reward(c, old_acc, now);
    lemma_updated_keeps(c, old_acc, now);
    lemma_account_address(c, caller);
    let acc = updated_account(c, old_acc, now)->Ok_0;
    let reward = current_reward(c, acc, now)->Ok_0;
    let acc2 = AccountView {
        reward_amount: 0,
        last_reward_updated_timestamp: now,
        last_claim_timestamp: now,
        staked_amount: acc.staked_amount + reward,
        ..acc
    };
    lemma_put_account(c.accounts, acc2, caller);
}

/// A successful unstake at `now` moves the asked amount (at most the stake;
/// all of it when none is asked) out of the caller's stake into undelegation,
/// which ends at `now` plus the undelegation period; until then the caller's
/// account shows those tokens as still unstaked, not collectable.
pub proof fn lemma_unstake_starts_undelegation(c: ContractView, caller: Address, now: u64, opt: Option<nat>)
    requires
        unstake_outcome(c, caller, now, opt) is Ok,
    ensures
        ({
            let after = unstake_outcome(c, caller, now, opt)->Ok_0.0;
            let effects = unstake_outcome(c, caller, now, opt)->Ok_0.1;
            let before = c.account(caller);
            let a = after.account(caller);
            let moved: nat = match opt {
                Some(v) => if v <= before.staked_amount {
                    v
                } else {
                    before.staked_amount
                },
                None => before.staked_amount,
            };
            &&& a.undelegation_end_timestamp == now + c.undelegation_period
            &&& a.staked_amount + moved == before.staked_amount
            &&& a.unstaked_amount >= moved
            &&& a.unstaked_amount + a.collectable_amount == before.unstaked_amount + before.collectable_amount
                + moved
            &&& after.total_staked_amount == c.total_staked_amount
            &&& effects == seq![
                EffectView::Emit(
                    crate::event::EventView {
                        kind: EventKind::Unstake,
                        user_address: caller,
                        token: c.stake_token_id,
                        amount: moved,
                        timestamp: now,
                    },
                ),
            ]
            &&& forall|t: u64|
                t < now + c.undelegation_period && (#[trigger] shown_account(after, caller, t)) is Ok ==> {
                    &&& shown_account(after, caller, t)->Ok_0.unstaked_amount == a.unstaked_amount
                    &&& shown_account(after, caller, t)->Ok_0.collectable_amount == a.collectable_amount
                }
        }),
{
    let old_acc = c.account(caller);
    lemma_updated_keeps(c, old_acc, now);
    lemma_account_address(c, caller);
    let acc = updated_account(c, old_acc, now)->Ok_0;
    let amount = unstake_amount(opt, acc.staked_amount);
    let acc2 = AccountView {
        staked_amount: (acc.staked_amount - amount) as nat,
        unstaked_amount: acc.unstaked_amount + amount,
        undelegation_end_timestamp: (now + c.undelegation_period) as u64,
        ..acc
    };
    lemma_put_account(c.accounts, acc2, caller);
    let after = unstake_outcome(c, caller, now, opt)->Ok_0.0;
    assert(after.account(caller) == acc2);
}

/// A claim sends the collectable tokens in the staking token, for exactly
/// what leaves the total, and the reward in the reward token, all to the
/// caller at nonce zero, each no more than the contract holds of its token;
/// its events name the same tokens and amounts. The total falls exactly when
/// collectable tokens are sent.
pub proof fn lemma_claim_pays_in_the_right_tokens(
    c: ContractView,
    caller: Address,
    now: u64,
    reward_balance: nat,
    stake_balance: nat,
)
    requires
        claim_outcome(c, caller, now, reward_balance, stake_balance) is Ok,
    ensures
        ({
            let after = claim_outcome(c, caller, now, reward_balance, stake_balance)->Ok_0.0;
            let effects = claim_outcome(c, caller, now, reward_balance, stake_balance)->Ok_0.1;
            let collected: int = c.total_staked_amount - after.total_staked_amount;
            &&& collected >= 0
            &&& after.account(caller).collectable_amount == 0
            &&& forall|i: int|
                0 <= i < effects.len() ==> match #[trigger] effects[i] {
                    EffectView::Send(t) => (t.data == TransferData::Reward ==> t.amount <= reward_balance) && (
                    t.data == TransferData::Collect && t.token != c.reward_token_id ==> t.amount
                        <= stake_balance),
                    EffectView::Emit(_) => true,
                }
            &&& forall|i: int|
                0 <= i < effects.len() ==> match #[trigger] effects[i] {
                    EffectView::Send(t) => {
                        &&& t.to == caller
                        &&& t.nonce == 0
                        &&& t.data != TransferData::NoData
                        &&& t.data == TransferData::Collect ==> t.token == c.stake_token_id && t.amount
                            == collected
                        &&& t.data == TransferData::Reward ==> t.token == c.reward_token_id
                    },
                    EffectView::Emit(e) => {
                        &&& e.user_address == caller
                        &&& e.timestamp == now
                        &&& e.kind == EventKind::Claim || e.kind == EventKind::Collect
                        &&& e.kind == EventKind::Collect ==> e.token == c.stake_token_id && e.amount == collected
                        &&& e.kind == EventKind::Claim ==> e.token == c.reward_token_id
                    },
                }
            &&& collected > 0 <==> exists|i: int|
                0 <= i < effects.len() && (#[trigger] effects[i] matches EffectView::Send(t) && t.data
                    == TransferData::Collect)
        }),
{
    let old_acc = c.account(caller);
    lemma_updated_keeps(c, old_acc, now);
    lemma_account_address(c, caller);
    let acc = updated_account(c, old_acc, now)->Ok_0;
    let reward = current_reward(c, acc, now)->Ok_0;
    let acc2 = claimed_account(acc, reward, now);
    lemma_put_account(c.accounts, acc2, caller);
    let effects = claim_outcome(c, caller, now, reward_balance, stake_balance)->Ok_0.1;
    let collectable = acc.collectable_amount;
    if collectable != 0 {
        let k = if reward != 0 { 2int } else { 0int };
        assert(effects[k] matches EffectView::Send(t) && t.data == TransferData::Collect);
    }
}

/// A claim pays as reward exactly the caller's current reward at that time
/// (the stored reward included), where the caller's record was last updated
/// by `now` and every closed period closed by `now`.
pub proof fn lemma_claim_pays_current_reward(
    c: ContractView,
    caller: Address,
    now: u64,
    reward_balance: nat,
    stake_balance: nat,
)
    requires
        c.account(caller).last_reward_updated_timestamp <= now,
        periods_closed_by(c.reward_aprs, now),
        current_reward(c, c.account(caller), now) is Ok,
        claim_outcome(c, caller, now, reward_balance, stake_balance) is Ok,
    ensures
        ({
            let effects = claim_outcome(c, caller, now, reward_balance, stake_balance)->Ok_0.1;
            let reward = current_reward(c, c.account(caller), now)->Ok_0;
            forall|i: int|
                0 <= i < effects.len() ==> match #[trigger] effects[i] {
                    EffectView::Send(t) => t.data == TransferData::Reward ==> t.amount == reward,
                    EffectView::Emit(e) => e.kind == EventKind::Claim ==> e.amount == reward,
                }
        }),
{
    lemma_update_keeps_current_reward(c, c.account(caller), now);
}

/// The staker count counts each listed address with a stake once: it is at
/// most the number of addresses, all of them when all have a stake, and none
/// when none has.
pub proof fn lemma_staker_count(c: ContractView, s: Seq<Address>)
    ensures
        stakers_with_stake(c, s) <= s.len(),
        (forall|i: int| 0 <= i < s.len() ==> c.account(#[trigger] s[i]).staked_amount != 0) ==> stakers_with_stake(c, s)
            == s.len(),
        (forall|i: int| 0 <= i < s.len() ==> c.account(#[trigger] s[i]).staked_amount == 0) ==> stakers_with_stake(c, s)
            == 0,
    decreases s.len(),
{
    if s.len() > 0 {
        let t = s.drop_last();
        lemma_staker_count(c, t);
        if forall|i: int| 0 <= i < s.len() ==> c.account(#[trigger] s[i]).staked_amount != 0 {
            assert forall|i: int| 0 <= i < t.len() implies c.account(#[trigger] t[i]).staked_amount != 0 by {
                assert(t[i] == s[i]);
            }
            assert(c.account(s[s.len() - 1]).staked_amount != 0);
        }
        if forall|i: int| 0 <= i < s.len() ==> c.account(#[trigger] s[i]).staked_amount == 0 {
            assert forall|i: int| 0 <= i < t.len() implies c.account(#[trigger] t[i]).staked_amount == 0 by {
                assert(t[i] == s[i]);
            }
            assert(c.account(s[s.len() - 1]).staked_amount == 0);
        }
    }
}

} // verus!
