# odin_stake

A staking contract as a verified library. Stakers lock a token for a period,
earn a reward at rates that the owner schedules, unstake through an
undelegation period, and claim their reward and their released tokens.

- `src/storage.rs`: `OdinStakeV2`, the contract's storage, its model
  `ContractView` (with `new` for a fresh deployment and `init` for the
  settings), and `StorageModule` (the owner's setters and the getters).
- `src/logic.rs`: the reward computation and `LogicModule` (stake, unstake,
  claim, restake). Each endpoint is stated by a spec function from the
  storage and the inputs to the new storage and the effects, or the error.
- `src/lib.rs`: the views (`view_stake_account`, `view_stake_setting`, ...)
  and the owner's withdrawal.
- `src/event.rs`: events, transfers and `EventModule`.
- `src/laws.rs`: properties across operations, such as that every endpoint
  keeps the total staked amount equal to what the stakers' records hold, and
  that the current reward never falls as time passes.
- `src/amount.rs`: amounts as `num_bigint::BigUint`.
- `app/`: the contract on the chain, which supplies the caller, the time, the
  payment and the balances, keeps the storage and performs the effects.
