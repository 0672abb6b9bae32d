//! The contract's storage: its settings, the reward schedule, the staker
//! list and one record per address, with the owner's setters and the
//! getters.
use crate::amount::{big_clone, big_zero, val};
use crate::error::StakeError;
use crate::state::{empty_account, AccountView, Address, RewardApr, StakeAccount, StakeSetting, TokenId};
use num_bigint::BigUint;
use vstd::prelude::*;

verus! {

/// The staking contract: everything it keeps between calls.
pub struct OdinStakeV2 {
    pub(crate) stake_token_id: TokenId,
    pub(crate) reward_token_id: TokenId,
    pub(crate) min_stake_limit: BigUint,
    pub(crate) max_stake_limit: BigUint,
    pub(crate) lock_period: u64,
    pub(crate) undelegation_period: u64,
    pub(crate) claim_lock_period: u64,
    pub(crate) stake_token_price: BigUint,
    pub(crate) reward_token_price: BigUint,
    pub(crate) reward_aprs: Vec<RewardApr>,
    pub(crate) paused: bool,
    pub(crate) total_staked_amount: BigUint,
    pub(crate) staker_addresses: Vec<Address>,
    pub(crate) accounts: Vec<StakeAccount>,
}

/// The contract's storage read as plain values.
pub struct ContractView {
    pub stake_token_id: Seq<u8>,
    pub reward_token_id: Seq<u8>,
    pub min_stake_limit: nat,
    /// Zero means that there is no upper limit.
    pub max_stake_limit: nat,
    pub lock_period: u64,
    pub undelegation_period: u64,
    pub claim_lock_period: u64,
    pub stake_token_price: nat,
    pub reward_token_price: nat,
    pub reward_aprs: Seq<RewardApr>,
    pub paused: bool,
    pub total_staked_amount: nat,
    /// The addresses that have staked, in the order they first did.
    pub staker_addresses: Seq<Address>,
    /// The stored records; an address without one has the empty record.
    pub accounts: Seq<AccountView>,
}

impl View for OdinStakeV2 {
    type V = ContractView;

    closed spec fn view(&self) -> ContractView {
        ContractView {
            stake_token_id: self.stake_token_id@,
            reward_token_id: self.reward_token_id@,
            min_stake_limit: val(self.min_stake_limit),
            max_stake_limit: val(self.max_stake_limit),
            lock_period: self.lock_period,
            undelegation_period: self.undelegation_period,
            claim_lock_period: self.claim_lock_period,
            stake_token_price: val(self.stake_token_price),
            reward_token_price: val(self.reward_token_price),
            reward_aprs: self.reward_aprs@,
            paused: self.paused,
            total_staked_amount: val(self.total_staked_amount),
            staker_addresses: self.staker_addresses@,
            accounts: self.accounts@.map_values(|a: StakeAccount| a@),
        }
    }
}

/// `i` is the first position of a record for `a`.
pub open spec fn first_match(s: Seq<AccountView>, a: Address, i: int) -> bool {
    &&& 0 <= i < s.len()
    &&& s[i].address == a
    &&& forall|j: int| 0 <= j < i ==> s[j].address != a
}

/// The record of `a`: the first one stored for it, else the empty record.
pub open spec fn account_in(s: Seq<AccountView>, a: Address) -> AccountView {
    if exists|i: int| first_match(s, a, i) {
        s[choose|i: int| first_match(s, a, i)]
    } else {
        empty_account(a)
    }
}

/// The records after storing `rec` for its address: it replaces the record
/// stored for that address, or is added after the others.
pub open spec fn put_account(s: Seq<AccountView>, rec: AccountView) -> Seq<AccountView> {
    if exists|i: int| first_match(s, rec.address, i) {
        s.update(choose|i: int| first_match(s, rec.address, i), rec)
    } else {
        s.push(rec)
    }
}

/// The tokens that a record holds for its owner: staked, unstaked and
/// collectable.
pub open spec fn held_by(a: AccountView) -> nat {
    a.staked_amount + a.unstaked_amount + a.collectable_amount
}

/// The tokens that all records hold.
pub open spec fn held_in(s: Seq<AccountView>) -> nat
    decreases s.len(),
{
    if s.len() == 0 {
        0
    } else {
        held_in(s.drop_last()) + held_by(s.last())
    }
}

/// The tokens that the records of the addresses `s` hold.
pub open spec fn held_by_listed(accounts: Seq<AccountView>, s: Seq<Address>) -> nat
    decreases s.len(),
{
    if s.len() == 0 {
        0
    } else {
        held_by_listed(accounts, s.drop_last()) + held_by(account_in(accounts, s.last()))
    }
}

/// No two records belong to the same address.
pub open spec fn records_distinct(s: Seq<AccountView>) -> bool {
    forall|i: int, j: int| 0 <= i < s.len() && 0 <= j < s.len() && i != j ==> s[i].address != s[j].address
}

impl ContractView {
    /// The record of an address.
    pub open spec fn account(self, a: Address) -> AccountView {
        account_in(self.accounts, a)
    }

    /// The storage after storing `rec` for its address.
    pub open spec fn with_account(self, rec: AccountView) -> ContractView {
        ContractView { accounts: put_account(self.accounts, rec), ..self }
    }

    /// The storage after adding `a` to the stakers, unless it is there.
    pub open spec fn with_staker(self, a: Address) -> ContractView {
        if self.staker_addresses.contains(a) {
            self
        } else {
            ContractView { staker_addresses: self.staker_addresses.push(a), ..self }
        }
    }

    /// The staker list, like the set it stands for, has no repeats, and no
    /// address has two records.
    pub open spec fn well_formed(self) -> bool {
        &&& self.staker_addresses.no_duplicates()
        &&& records_distinct(self.accounts)
    }

    /// The total staked amount counts exactly the tokens that the stakers'
    /// records hold, and an address that is not a staker holds nothing.
    pub open spec fn total_is_held_by_stakers(self) -> bool {
        &&& self.total_staked_amount == held_by_listed(self.accounts, self.staker_addresses)
        &&& forall|a: Address| !self.staker_addresses.contains(a) ==> held_by(#[trigger] self.account(a)) == 0
    }

    /// Every address that is not a staker has neither tokens nor a stored
    /// reward.
    pub open spec fn unlisted_are_empty(self) -> bool {
        forall|a: Address|
            !self.staker_addresses.contains(a) ==> held_by(#[trigger] self.account(a)) == 0
                && self.account(a).reward_amount == 0
    }

    /// The total staked amount counts exactly the tokens that the records
    /// hold.
    pub open spec fn total_is_held(self) -> bool {
        self.total_staked_amount == held_in(self.accounts)
    }
}

/// There is at most one first match.
pub proof fn lemma_first_match_unique(s: Seq<AccountView>, a: Address, i: int, k: int)
    requires
        first_match(s, a, i),
        first_match(s, a, k),
    ensures
        i == k,
{
    if i < k {
        assert(s[i].address != a);
    } else if k < i {
        assert(s[k].address != a);
    }
}

/// Looking up a record after storing one.
pub proof fn lemma_put_account(s: Seq<AccountView>, rec: AccountView, b: Address)
    ensures
        account_in(put_account(s, rec), b) == if b == rec.address {
            rec
        } else {
            account_in(s, b)
        },
{
    let t = put_account(s, rec);
    let a = rec.address;
    if exists|i: int| first_match(s, a, i) {
        let i = choose|i: int| first_match(s, a, i);
        assert(t == s.update(i, rec));
        assert forall|k: int| first_match(t, b, k) <==> (if b == a { k == i } else { first_match(s, b, k) }) by {
            if b == a {
                if first_match(t, b, k) {
                    if k < i {
                        assert(t[k].address == s[k].address);
                    } else if i < k {
                        assert(t[i].address == a);
                    }
                }
                if k == i {
                    assert forall|j: int| 0 <= j < k implies t[j].address != b by {
                        assert(t[j] == s[j]);
                    }
                }
            } else {
                assert forall|j: int| 0 <= j < t.len() implies (t[j].address == b <==> s[j].address == b) by {
                    if j == i {
                        assert(t[j].address == a);
                    }
                }
            }
        }
        if b == a {
            assert(first_match(t, b, i));
        } else {
            if exists|k: int| first_match(s, b, k) {
                let k = choose|k: int| first_match(s, b, k);
                assert(first_match(t, b, k));
                let k2 = choose|k2: int| first_match(t, b, k2);
                lemma_first_match_unique(s, b, k, k2);
                assert(k != i);
            }
        }
    } else {
        assert(t == s.push(rec));
        let n = s.len() as int;
        assert forall|k: int| first_match(t, b, k) <==> (if b == a { k == n } else { first_match(s, b, k) }) by {
            if b == a {
                if first_match(t, b, k) && k < n {
                    assert(t[k] == s[k]);
                    assert forall|j: int| 0 <= j < k implies s[j].address != a by {
                        assert(t[j] == s[j]);
                    }
                    assert(first_match(s, a, k));
                }
                if k == n {
                    assert forall|j: int| 0 <= j < k implies t[j].address != b by {
                        assert(t[j] == s[j]);
                        if s[j].address == a {
                            // the first such j would be a first match in s
                            lemma_some_match_has_first(s, a, j);
                        }
                    }
                }
            } else {
                if first_match(t, b, k) {
                    assert(k != n);
                    assert forall|j: int| 0 <= j < k implies s[j].address != b by {
                        assert(t[j] == s[j]);
                    }
                    assert(t[k] == s[k]);
                }
                if first_match(s, b, k) {
                    assert forall|j: int| 0 <= j < k implies t[j].address != b by {
                        assert(t[j] == s[j]);
                    }
                    assert(t[k] == s[k]);
                }
            }
        }
        if b == a {
            assert(first_match(t, b, n));
        } else {
            if exists|k: int| first_match(s, b, k) {
                let k = choose|k: int| first_match(s, b, k);
                assert(first_match(t, b, k));
                let k2 = choose|k2: int| first_match(t, b, k2);
                lemma_first_match_unique(t, b, k, k2);
            }
        }
    }
}

/// If some record is stored for `a`, a first one is.
pub proof fn lemma_some_match_has_first(s: Seq<AccountView>, a: Address, j: int)
    requires
        0 <= j < s.len(),
        s[j].address == a,
    ensures
        exists|i: int| first_match(s, a, i),
    decreases j,
{
    if forall|k: int| 0 <= k < j ==> s[k].address != a {
        assert(first_match(s, a, j));
    } else {
        let k = choose|k: int| 0 <= k < j && s[k].address == a;
        lemma_some_match_has_first(s, a, k);
    }
}


/// Storing a record keeps records of different addresses.
pub proof fn lemma_put_keeps_distinct(s: Seq<AccountView>, rec: AccountView)
    requires
        records_distinct(s),
    ensures
        records_distinct(put_account(s, rec)),
{
    let t = put_account(s, rec);
    if exists|i: int| first_match(s, rec.address, i) {
        let i = choose|i: int| first_match(s, rec.address, i);
        assert forall|j: int| 0 <= j < s.len() implies t[j].address == s[j].address by {}
    } else {
        assert forall|j: int| 0 <= j < s.len() implies s[j].address != rec.address by {
            if s[j].address == rec.address {
                lemma_some_match_has_first(s, rec.address, j);
            }
        }
        assert forall|j: int| 0 <= j < s.len() implies t[j] == s[j] by {}
    }
}

/// Storing a record for `x` changes what the records of the addresses `s`
/// hold by the difference for `x`, if `s` lists it.
pub proof fn lemma_listed_put(accounts: Seq<AccountView>, rec: AccountView, s: Seq<Address>)
    requires
        s.no_duplicates(),
    ensures
        held_by_listed(put_account(accounts, rec), s) + (if s.contains(rec.address) {
            held_by(account_in(accounts, rec.address))
        } else {
            0
        }) == held_by_listed(accounts, s) + (if s.contains(rec.address) {
            held_by(rec)
        } else {
            0
        }),
    decreases s.len(),
{
    if s.len() > 0 {
        let t = s.drop_last();
        let n = s.len() - 1;
        assert forall|i: int, j: int| 0 <= i < t.len() && 0 <= j < t.len() && i != j implies t[i] != t[j] by {
            assert(t[i] == s[i] && t[j] == s[j]);
        }
        lemma_listed_put(accounts, rec, t);
        lemma_put_account(accounts, rec, s.last());
        let x = rec.address;
        if s.last() == x {
            assert(s[n] == x);
            assert(s.contains(x));
            if t.contains(x) {
                let k = choose|k: int| 0 <= k < t.len() && t[k] == x;
                assert(s[k] == x);
            }
        } else {
            if s.contains(x) {
                let k = choose|k: int| 0 <= k < s.len() && s[k] == x;
                assert(k != n);
                assert(t[k] == x);
            }
            if t.contains(x) {
                let k = choose|k: int| 0 <= k < t.len() && t[k] == x;
                assert(s[k] == x);
            }
        }
    }
}

/// Replacing one record changes the held total by the difference.
pub proof fn lemma_held_update(s: Seq<AccountView>, i: int, x: AccountView)
    requires
        0 <= i < s.len(),
    ensures
        held_in(s.update(i, x)) + held_by(s[i]) == held_in(s) + held_by(x),
    decreases s.len(),
{
    let t = s.update(i, x);
    if i == s.len() - 1 {
        assert(t.drop_last() =~= s.drop_last());
    } else {
        lemma_held_update(s.drop_last(), i, x);
        assert(t.drop_last() =~= s.drop_last().update(i, x));
    }
}

/// Storing a record changes the held total by the difference between the
/// new record and the one it replaces.
pub proof fn lemma_held_put(s: Seq<AccountView>, rec: AccountView)
    ensures
        held_in(put_account(s, rec)) + held_by(account_in(s, rec.address)) == held_in(s) + held_by(rec),
{
    if exists|i: int| first_match(s, rec.address, i) {
        let i = choose|i: int| first_match(s, rec.address, i);
        lemma_held_update(s, i, rec);
    } else {
        assert(s.push(rec).drop_last() =~= s);
    }
}

impl OdinStakeV2 {
    /// The position of the record stored for `a`, if any.
    fn find_account(&self, a: &Address) -> (r: Option<usize>)
        ensures
            match r {
                Some(i) => first_match(self@.accounts, *a, i as int),
                None => !exists|i: int| first_match(self@.accounts, *a, i),
            },
    {
        let n = self.accounts.len();
        let ghost s = self@.accounts;
        let mut i: usize = 0;
        while i < n
            invariant
                n == self.accounts.len(),
                s == self@.accounts,
                s == self.accounts@.map_values(|x: StakeAccount| x@),
                0 <= i <= n,
                forall|j: int| 0 <= j < i ==> s[j].address != *a,
            decreases n - i,
        {
            if self.accounts[i].address.same_as(a) {
                assert(s[i as int] == self.accounts@[i as int]@);
                return Some(i);
            }
            assert(s[i as int] == self.accounts@[i as int]@);
            i = i + 1;
        }
        assert forall|i: int| !first_match(s, *a, i) by {}
        None
    }

    /// A copy of the record of `a`.
    pub(crate) fn account_record(&self, a: &Address) -> (r: StakeAccount)
        ensures
            r@ == self@.account(*a),
            r.address == *a,
    {
        match self.find_account(a) {
            Some(i) => {
                let ghost s = self@.accounts;
                assert(s[i as int] == self.accounts@[i as int]@);
                self.accounts[i].copy()
            },
            None => StakeAccount::empty(*a),
        }
    }

    /// Stores `rec` as the record of its address.
    pub(crate) fn store_account(&mut self, rec: StakeAccount)
        ensures
            final(self)@ == old(self)@.with_account(rec@),
    {
        let ghost s = old(self)@.accounts;
        let ghost r = rec@;
        match self.find_account(&rec.address) {
            Some(i) => {
                proof {
                    let k = choose|k: int| first_match(s, r.address, k);
                    lemma_first_match_unique(s, r.address, i as int, k);
                }
                self.accounts.set(i, rec);
                assert(self.accounts@.map_values(|x: StakeAccount| x@) =~= s.update(i as int, r));
            },
            None => {
                self.accounts.push(rec);
                assert(self.accounts@.map_values(|x: StakeAccount| x@) =~= s.push(r));
            },
        }
        assert(self@.accounts =~= put_account(s, r));
        assert(self@ =~= old(self)@.with_account(r));
    }
}


impl OdinStakeV2 {
    /// The storage of a freshly deployed contract before `init`: every
    /// value is empty or zero, and the contract is live.
    pub fn new() -> (r: OdinStakeV2)
        ensures
            r@ == (ContractView {
                stake_token_id: Seq::empty(),
                reward_token_id: Seq::empty(),
                min_stake_limit: 0,
                max_stake_limit: 0,
                lock_period: 0,
                undelegation_period: 0,
                claim_lock_period: 0,
                stake_token_price: 0,
                reward_token_price: 0,
                reward_aprs: Seq::empty(),
                paused: false,
                total_staked_amount: 0,
                staker_addresses: Seq::empty(),
                accounts: Seq::empty(),
            }),
    {
        let r = OdinStakeV2 {
            stake_token_id: TokenId::egld(),
            reward_token_id: TokenId::egld(),
            min_stake_limit: big_zero(),
            max_stake_limit: big_zero(),
            lock_period: 0,
            undelegation_period: 0,
            claim_lock_period: 0,
            stake_token_price: big_zero(),
            reward_token_price: big_zero(),
            reward_aprs: Vec::new(),
            paused: false,
            total_staked_amount: big_zero(),
            staker_addresses: Vec::new(),
            accounts: Vec::new(),
        };
        assert(r@.accounts =~= Seq::<AccountView>::empty());
        assert(r@.reward_aprs =~= Seq::<RewardApr>::empty());
        assert(r@.staker_addresses =~= Seq::<Address>::empty());
        r
    }

    /// Sets the nine settings and makes the contract live. The reward
    /// schedule, the stakers, their records and the total staked amount stay
    /// as they are, as on an upgrade; on a fresh deployment they are empty.
    pub fn init(
        &mut self,
        stake_token_id: TokenId,
        reward_token_id: TokenId,
        min_stake_limit: BigUint,
        max_stake_limit: BigUint,
        lock_period: u64,
        undelegation_period: u64,
        claim_lock_period: u64,
        stake_token_price: BigUint,
        reward_token_price: BigUint,
    )
        ensures
            final(self)@ == (ContractView {
                stake_token_id: stake_token_id@,
                reward_token_id: reward_token_id@,
                min_stake_limit: val(min_stake_limit),
                max_stake_limit: val(max_stake_limit),
                lock_period,
                undelegation_period,
                claim_lock_period,
                stake_token_price: val(stake_token_price),
                reward_token_price: val(reward_token_price),
                paused: false,
                ..old(self)@
            }),
    {
        self.stake_token_id = stake_token_id;
        self.reward_token_id = reward_token_id;
        self.min_stake_limit = min_stake_limit;
        self.max_stake_limit = max_stake_limit;
        self.lock_period = lock_period;
        self.undelegation_period = undelegation_period;
        self.claim_lock_period = claim_lock_period;
        self.stake_token_price = stake_token_price;
        self.reward_token_price = reward_token_price;
        self.paused = false;
    }

    /// Whether `restore` takes these parts: no staker is listed twice and no
    /// address has two records.
    pub fn restorable(staker_addresses: &Vec<Address>, accounts: &Vec<StakeAccount>) -> (r: bool)
        ensures
            r == (staker_addresses@.no_duplicates() && records_distinct(
                accounts@.map_values(|a: StakeAccount| a@),
            )),
    {
        let ghost s = staker_addresses@;
        let n = staker_addresses.len();
        let mut i: usize = 0;
        while i < n
            invariant
                n == staker_addresses.len(),
                s == staker_addresses@,
                0 <= i <= n,
                forall|p: int, q: int| 0 <= p < i && 0 <= q < i && p != q ==> s[p] != s[q],
            decreases n - i,
        {
            let mut j: usize = 0;
            while j < i
                invariant
                    n == staker_addresses.len(),
                    s == staker_addresses@,
                    0 <= j <= i < n,
                    forall|q: int| 0 <= q < j ==> s[q] != s[i as int],
                decreases i - j,
            {
                if staker_addresses[j].same_as(&staker_addresses[i]) {
                    return false;
                }
                j = j + 1;
            }
            i = i + 1;
        }
        let ghost v = accounts@.map_values(|a: StakeAccount| a@);
        let m = accounts.len();
        let mut i: usize = 0;
        while i < m
            invariant
                m == accounts.len(),
                v == accounts@.map_values(|a: StakeAccount| a@),
                s.no_duplicates(),
                0 <= i <= m,
                forall|p: int, q: int| 0 <= p < i && 0 <= q < i && p != q ==> v[p].address != v[q].address,
            decreases m - i,
        {
            let mut j: usize = 0;
            while j < i
                invariant
                    m == accounts.len(),
                    v == accounts@.map_values(|a: StakeAccount| a@),
                    0 <= j <= i < m,
                    forall|q: int| 0 <= q < j ==> v[q].address != v[i as int].address,
                decreases i - j,
            {
                if accounts[j].address.same_as(&accounts[i].address) {
                    assert(v[j as int].address == v[i as int].address);
                    return false;
                }
                j = j + 1;
            }
            i = i + 1;
        }
        true
    }

    /// Rebuilds the storage from parts that a host kept: the settings and the
    /// total staked amount (the summary's rate and staker count are not
    /// read), the reward schedule, whether it is paused, the stakers and the
    /// records it loaded, where no staker is listed twice and no address has
    /// two records (`restorable` tells).
    pub fn restore(
        settings: StakeSetting,
        reward_aprs: Vec<RewardApr>,
        paused: bool,
        staker_addresses: Vec<Address>,
        accounts: Vec<StakeAccount>,
    ) -> (r: OdinStakeV2)
        requires
            staker_addresses@.no_duplicates(),
            records_distinct(accounts@.map_values(|a: StakeAccount| a@)),
        ensures
            r@ == (ContractView {
                stake_token_id: settings.stake_token_id@,
                reward_token_id: settings.reward_token_id@,
                min_stake_limit: val(settings.min_stake_limit),
                max_stake_limit: val(settings.max_stake_limit),
                lock_period: settings.lock_period,
                undelegation_period: settings.undelegation_period,
                claim_lock_period: settings.claim_lock_period,
                stake_token_price: val(settings.stake_token_price),
                reward_token_price: val(settings.reward_token_price),
                reward_aprs: reward_aprs@,
                paused,
                total_staked_amount: val(settings.total_staked_amount),
                staker_addresses: staker_addresses@,
                accounts: accounts@.map_values(|a: StakeAccount| a@),
            }),
    {
        OdinStakeV2 {
            stake_token_id: settings.stake_token_id,
            reward_token_id: settings.reward_token_id,
            min_stake_limit: settings.min_stake_limit,
            max_stake_limit: settings.max_stake_limit,
            lock_period: settings.lock_period,
            undelegation_period: settings.undelegation_period,
            claim_lock_period: settings.claim_lock_period,
            stake_token_price: settings.stake_token_price,
            reward_token_price: settings.reward_token_price,
            reward_aprs,
            paused,
            total_staked_amount: settings.total_staked_amount,
            staker_addresses,
            accounts,
        }
    }

    /// A copy of the stored record of `a`, if there is one.
    pub fn stored_account(&self, a: &Address) -> (r: Option<StakeAccount>)
        ensures
            match r {
                Some(acc) => (exists|i: int| first_match(self@.accounts, *a, i)) && acc@ == self@.account(*a),
                None => !exists|i: int| first_match(self@.accounts, *a, i),
            },
    {
        match self.find_account(a) {
            Some(_) => Some(self.account_record(a)),
            None => None,
        }
    }

    /// Sets the total staked amount.
    pub(crate) fn set_total_staked(&mut self, total: BigUint)
        ensures
            final(self)@ == (ContractView { total_staked_amount: val(total), ..old(self)@ }),
    {
        self.total_staked_amount = total;
    }

    /// The staking token.
    pub(crate) fn stake_token(&self) -> (r: &TokenId)
        ensures
            r@ == self@.stake_token_id,
    {
        &self.stake_token_id
    }

    /// The reward token.
    pub(crate) fn reward_token(&self) -> (r: &TokenId)
        ensures
            r@ == self@.reward_token_id,
    {
        &self.reward_token_id
    }

    /// The minimum stake.
    pub(crate) fn min_limit(&self) -> (r: &BigUint)
        ensures
            val(*r) == self@.min_stake_limit,
    {
        &self.min_stake_limit
    }

    /// The maximum stake.
    pub(crate) fn max_limit(&self) -> (r: &BigUint)
        ensures
            val(*r) == self@.max_stake_limit,
    {
        &self.max_stake_limit
    }

    /// The price of the staking token.
    pub(crate) fn stake_price(&self) -> (r: &BigUint)
        ensures
            val(*r) == self@.stake_token_price,
    {
        &self.stake_token_price
    }

    /// The price of the reward token.
    pub(crate) fn reward_price(&self) -> (r: &BigUint)
        ensures
            val(*r) == self@.reward_token_price,
    {
        &self.reward_token_price
    }

    /// The total staked amount.
    pub(crate) fn total(&self) -> (r: &BigUint)
        ensures
            val(*r) == self@.total_staked_amount,
    {
        &self.total_staked_amount
    }

    /// The reward schedule.
    pub(crate) fn aprs(&self) -> (r: &Vec<RewardApr>)
        ensures
            r@ == self@.reward_aprs,
    {
        &self.reward_aprs
    }

    /// The stakers.
    pub(crate) fn stakers(&self) -> (r: &Vec<Address>)
        ensures
            r@ == self@.staker_addresses,
    {
        &self.staker_addresses
    }

    /// Adds `a` to the stakers unless it is there.
    pub(crate) fn insert_staker(&mut self, a: Address)
        ensures
            final(self)@ == old(self)@.with_staker(a),
    {
        let n = self.staker_addresses.len();
        let mut i: usize = 0;
        while i < n
            invariant
                n == self.staker_addresses.len(),
                0 <= i <= n,
                forall|j: int| 0 <= j < i ==> self.staker_addresses@[j] != a,
            decreases n - i,
        {
            if self.staker_addresses[i].same_as(&a) {
                assert(self@.staker_addresses[i as int] == a);
                return;
            }
            i = i + 1;
        }
        assert(!self@.staker_addresses.contains(a));
        self.staker_addresses.push(a);
        assert(self@ =~= old(self)@.with_staker(a));
    }
}

/// The storage of the contract: the owner's setters and the getters.
pub trait StorageModule {
    /// The token that stakers stake.
    fn stake_token_id(&self) -> TokenId;

    /// Sets the staking token.
    fn set_stake_token_id(&mut self, stake_token_id: TokenId);

    /// The token in which rewards are paid.
    fn reward_token_id(&self) -> TokenId;

    /// Sets the reward token.
    fn set_reward_token_id(&mut self, reward_token_id: TokenId);

    /// The least that a staker's stake may be.
    fn min_stake_limit(&self) -> BigUint;

    /// Sets the minimum stake.
    fn set_min_stake_limit(&mut self, min_stake_limit: BigUint);

    /// The most that a staker's stake may be; zero for no limit.
    fn max_stake_limit(&self) -> BigUint;

    /// Sets the maximum stake.
    fn set_max_stake_limit(&mut self, max_stake_limit: BigUint);

    /// The price of the staking token.
    fn stake_token_price(&self) -> BigUint;

    /// The price of the reward token.
    fn reward_token_price(&self) -> BigUint;

    /// Sets the prices of the staking and the reward token.
    fn set_stake_token_to_reward_token_rate(
        &mut self,
        stake_token_price: BigUint,
        reward_token_price: BigUint,
    );

    /// The seconds for which a stake is locked.
    fn lock_period(&self) -> u64;

    /// Sets the lock period.
    fn set_lock_period(&mut self, lock_period: u64);

    /// The seconds between unstaking and collecting.
    fn undelegation_period(&self) -> u64;

    /// Sets the undelegation period.
    fn set_undelegation_period(&mut self, undelegation_period: u64);

    /// The seconds between two claims.
    fn claim_lock_period(&self) -> u64;

    /// Sets the claim lock period.
    fn set_claim_lock_period(&mut self, claim_lock_period: u64);

    /// The reward schedule, oldest period first.
    fn reward_aprs(&self) -> Vec<RewardApr>;

    /// Adds a reward period at `current_timestamp`.
    fn add_reward_apr(
        &mut self,
        current_timestamp: u64,
        apr: u32,
        opt_start_timestamp: Option<u64>,
    ) -> Result<(), StakeError>;

    /// Empties the reward schedule.
    fn clear_reward_aprs(&mut self);

    /// Whether the contract is paused.
    fn paused(&self) -> bool;

    /// Pauses the contract.
    fn pause(&mut self);

    /// Makes the contract live.
    fn unpause(&mut self);

    /// The tokens that all stakers have staked, unstaked or not yet collected.
    fn total_staked_amount(&self) -> BigUint;

    /// The addresses that have staked, in the order they first did.
    fn staker_addresses(&self) -> Vec<Address>;

    /// The stake of an address.
    fn staked_amount(&self, staker_address: &Address) -> BigUint;

    /// When the stake of an address unlocks.
    fn lock_end_timestamp(&self, staker_address: &Address) -> u64;

    /// The tokens of an address in undelegation.
    fn unstaked_amount(&self, staker_address: &Address) -> BigUint;

    /// When the undelegation of an address ends.
    fn undelegation_end_timestamp(&self, staker_address: &Address) -> u64;

    /// The tokens that an address can collect.
    fn collectable_amount(&self, staker_address: &Address) -> BigUint;

    /// The stored reward of an address.
    fn reward_amount(&self, staker_address: &Address) -> BigUint;

    /// When the record of an address was last brought up to date.
    fn last_reward_updated_timestamp(&self, staker_address: &Address) -> u64;

    /// When an address last claimed or staked.
    fn last_claim_timestamp(&self, staker_address: &Address) -> u64;
}

/// The reward schedule after adding a period at `now`: the open period, if
/// any, closes at `now`, and the new one is numbered after the others.
pub open spec fn schedule_after_add(aprs: Seq<RewardApr>, now: u64, apr: u32, start: u64) -> Seq<RewardApr> {
    let closed = if aprs.len() > 0 {
        aprs.update(aprs.len() - 1, RewardApr { end_timestamp: now, ..aprs.last() })
    } else {
        aprs
    };
    closed.push(RewardApr { id: (aprs.len() + 1) as usize, apr, start_timestamp: start, end_timestamp: 0 })
}

impl StorageModule for OdinStakeV2 {
    fn stake_token_id(&self) -> (r: TokenId)
        ensures
            r@ == self@.stake_token_id,
    {
        self.stake_token_id.copy()
    }

    fn set_stake_token_id(&mut self, stake_token_id: TokenId)
        ensures
            final(self)@ == (ContractView { stake_token_id: stake_token_id@, ..old(self)@ }),
    {
        self.stake_token_id = stake_token_id;
    }

    fn reward_token_id(&self) -> (r: TokenId)
        ensures
            r@ == self@.reward_token_id,
    {
        self.reward_token_id.copy()
    }

    fn set_reward_token_id(&mut self, reward_token_id: TokenId)
        ensures
            final(self)@ == (ContractView { reward_token_id: reward_token_id@, ..old(self)@ }),
    {
        self.reward_token_id = reward_token_id;
    }

    fn min_stake_limit(&self) -> (r: BigUint)
        ensures
            val(r) == self@.min_stake_limit,
    {
        big_clone(&self.min_stake_limit)
    }

    fn set_min_stake_limit(&mut self, min_stake_limit: BigUint)
        ensures
            final(self)@ == (ContractView { min_stake_limit: val(min_stake_limit), ..old(self)@ }),
    {
        self.min_stake_limit = min_stake_limit;
    }

    fn max_stake_limit(&self) -> (r: BigUint)
        ensures
            val(r) == self@.max_stake_limit,
    {
        big_clone(&self.max_stake_limit)
    }

    fn set_max_stake_limit(&mut self, max_stake_limit: BigUint)
        ensures
            final(self)@ == (ContractView { max_stake_limit: val(max_stake_limit), ..old(self)@ }),
    {
        self.max_stake_limit = max_stake_limit;
    }

    fn stake_token_price(&self) -> (r: BigUint)
        ensures
            val(r) == self@.stake_token_price,
    {
        big_clone(&self.stake_token_price)
    }

    fn reward_token_price(&self) -> (r: BigUint)
        ensures
            val(r) == self@.reward_token_price,
    {
        big_clone(&self.reward_token_price)
    }

    fn set_stake_token_to_reward_token_rate(
        &mut self,
        stake_token_price: BigUint,
        reward_token_price: BigUint,
    )
        ensures
            final(self)@ == (ContractView {
                stake_token_price: val(stake_token_price),
                reward_token_price: val(reward_token_price),
                ..old(self)@
            }),
    {
        self.stake_token_price = stake_token_price;
        self.reward_token_price = reward_token_price;
    }

    fn lock_period(&self) -> (r: u64)
        ensures
            r == self@.lock_period,
    {
        self.lock_period
    }

    fn set_lock_period(&mut self, lock_period: u64)
        ensures
            final(self)@ == (ContractView { lock_period, ..old(self)@ }),
    {
        self.lock_period = lock_period;
    }

    fn undelegation_period(&self) -> (r: u64)
        ensures
            r == self@.undelegation_period,
    {
        self.undelegation_period
    }

    fn set_undelegation_period(&mut self, undelegation_period: u64)
        ensures
            final(self)@ == (ContractView { undelegation_period, ..old(self)@ }),
    {
        self.undelegation_period = undelegation_period;
    }

    fn claim_lock_period(&self) -> (r: u64)
        ensures
            r == self@.claim_lock_period,
    {
        self.claim_lock_period
    }

    fn set_claim_lock_period(&mut self, claim_lock_period: u64)
        ensures
            final(self)@ == (ContractView { claim_lock_period, ..old(self)@ }),
    {
        self.claim_lock_period = claim_lock_period;
    }

    fn reward_aprs(&self) -> (r: Vec<RewardApr>)
        ensures
            r@ == self@.reward_aprs,
    {
        let mut r: Vec<RewardApr> = Vec::new();
        let n = self.reward_aprs.len();
        let mut i: usize = 0;
        while i < n
            invariant
                n == self.reward_aprs.len(),
                0 <= i <= n,
                r@ == self.reward_aprs@.take(i as int),
            decreases n - i,
        {
            r.push(self.reward_aprs[i]);
            i = i + 1;
            assert(r@ =~= self.reward_aprs@.take(i as int));
        }
        assert(self.reward_aprs@.take(n as int) =~= self.reward_aprs@);
        r
    }

    /// Adds a reward period with rate `apr` that starts at
    /// `opt_start_timestamp`, or at `current_timestamp` if none is given; the
    /// period open until now closes at `current_timestamp`. Refused only when
    /// the schedule already holds `usize::MAX` periods.
    fn add_reward_apr(
        &mut self,
        current_timestamp: u64,
        apr: u32,
        opt_start_timestamp: Option<u64>,
    ) -> (r: Result<(), StakeError>)
        ensures
            old(self)@.reward_aprs.len() < usize::MAX ==> r is Ok,
            r is Ok ==> final(self)@ == (ContractView {
                reward_aprs: schedule_after_add(
                    old(self)@.reward_aprs,
                    current_timestamp,
                    apr,
                    match opt_start_timestamp {
                        Some(v) => v,
                        None => current_timestamp,
                    },
                ),
                ..old(self)@
            }),
            r is Err ==> r == Err::<(), StakeError>(StakeError::ArithmeticOverflow) && final(self)@ == old(self)@,
    {
        let len = self.reward_aprs.len();
        if len == usize::MAX {
            return Err(StakeError::ArithmeticOverflow);
        }
        let new_id = len + 1;
        let start_timestamp = match opt_start_timestamp {
            Some(v) => v,
            None => current_timestamp,
        };
        if new_id > 1 {
            let mut previous = self.reward_aprs[new_id - 2];
            previous.end_timestamp = current_timestamp;
            self.reward_aprs.set(new_id - 2, previous);
        }
        self.reward_aprs.push(RewardApr { id: new_id, apr, start_timestamp, end_timestamp: 0 });
        assert(self@.reward_aprs =~= schedule_after_add(old(self)@.reward_aprs, current_timestamp, apr, start_timestamp));
        Ok(())
    }

    fn clear_reward_aprs(&mut self)
        ensures
            final(self)@ == (ContractView { reward_aprs: Seq::empty(), ..old(self)@ }),
    {
        self.reward_aprs = Vec::new();
        assert(self@.reward_aprs =~= Seq::<RewardApr>::empty());
    }

    fn paused(&self) -> (r: bool)
        ensures
            r == self@.paused,
    {
        self.paused
    }

    fn pause(&mut self)
        ensures
            final(self)@ == (ContractView { paused: true, ..old(self)@ }),
    {
        self.paused = true;
    }

    fn unpause(&mut self)
        ensures
            final(self)@ == (ContractView { paused: false, ..old(self)@ }),
    {
        self.paused = false;
    }

    fn total_staked_amount(&self) -> (r: BigUint)
        ensures
            val(r) == self@.total_staked_amount,
    {
        big_clone(&self.total_staked_amount)
    }

    fn staker_addresses(&self) -> (r: Vec<Address>)
        ensures
            r@ == self@.staker_addresses,
    {
        let mut r: Vec<Address> = Vec::new();
        let n = self.staker_addresses.len();
        let mut i: usize = 0;
        while i < n
            invariant
                n == self.staker_addresses.len(),
                0 <= i <= n,
                r@ == self.staker_addresses@.take(i as int),
            decreases n - i,
        {
            r.push(self.staker_addresses[i]);
            i = i + 1;
            assert(r@ =~= self.staker_addresses@.take(i as int));
        }
        assert(self.staker_addresses@.take(n as int) =~= self.staker_addresses@);
        r
    }

    fn staked_amount(&self, staker_address: &Address) -> (r: BigUint)
        ensures
            val(r) == self@.account(*staker_address).staked_amount,
    {
        self.account_record(staker_address).staked_amount
    }

    fn lock_end_timestamp(&self, staker_address: &Address) -> (r: u64)
        ensures
            r == self@.account(*staker_address).lock_end_timestamp,
    {
        self.account_record(staker_address).lock_end_timestamp
    }

    fn unstaked_amount(&self, staker_address: &Address) -> (r: BigUint)
        ensures
            val(r) == self@.account(*staker_address).unstaked_amount,
    {
        self.account_record(staker_address).unstaked_amount
    }

    fn undelegation_end_timestamp(&self, staker_address: &Address) -> (r: u64)
        ensures
            r == self@.account(*staker_address).undelegation_end_timestamp,
    {
        self.account_record(staker_address).undelegation_end_timestamp
    }

    fn collectable_amount(&self, staker_address: &Address) -> (r: BigUint)
        ensures
            val(r) == self@.account(*staker_address).collectable_amount,
    {
        self.account_record(staker_address).collectable_amount
    }

    fn reward_amount(&self, staker_address: &Address) -> (r: BigUint)
        ensures
            val(r) == self@.account(*staker_address).reward_amount,
    {
        self.account_record(staker_address).reward_amount
    }

    fn last_reward_updated_timestamp(&self, staker_address: &Address) -> (r: u64)
        ensures
            r == self@.account(*staker_address).last_reward_updated_timestamp,
    {
        self.account_record(staker_address).last_reward_updated_timestamp
    }

    fn last_claim_timestamp(&self, staker_address: &Address) -> (r: u64)
        ensures
            r == self@.account(*staker_address).last_claim_timestamp,
    {
        self.account_record(staker_address).last_claim_timestamp
    }
}

} // verus!
