//! What an endpoint does besides changing the storage: the events it logs
//! and the tokens it sends.
use crate::amount::val;
use crate::state::{Address, TokenId};
use num_bigint::BigUint;
use vstd::prelude::*;

verus! {

/// The four events of the contract.
#[derive(Clone, Copy, Debug, PartialEq, Eq, Structural)]
pub enum EventKind {
    Stake,
    Unstake,
    Claim,
    Collect,
}

/// A logged event: who moved how much of which token, and when.
#[derive(Debug)]
pub struct Event {
    pub kind: EventKind,
    pub user_address: Address,
    pub token: TokenId,
    pub amount: BigUint,
    pub timestamp: u64,
}

/// An event with its token and amount read as plain values.
pub struct EventView {
    pub kind: EventKind,
    pub user_address: Address,
    pub token: Seq<u8>,
    pub amount: nat,
    pub timestamp: u64,
}

impl View for Event {
    type V = EventView;

    open spec fn view(&self) -> EventView {
        EventView {
            kind: self.kind,
            user_address: self.user_address,
            token: self.token@,
            amount: val(self.amount),
            timestamp: self.timestamp,
        }
    }
}

/// The data that goes with a transfer.
#[derive(Clone, Copy, Debug, PartialEq, Eq, Structural)]
pub enum TransferData {
    /// No data.
    NoData,
    /// The bytes `reward`.
    Reward,
    /// The bytes `collect`.
    Collect,
}

/// A transfer of tokens from the contract.
#[derive(Debug)]
pub struct Transfer {
    pub to: Address,
    pub token: TokenId,
    pub nonce: u64,
    pub amount: BigUint,
    pub data: TransferData,
}

/// A transfer with its token and amount read as plain values.
pub struct TransferView {
    pub to: Address,
    pub token: Seq<u8>,
    pub nonce: u64,
    pub amount: nat,
    pub data: TransferData,
}

impl View for Transfer {
    type V = TransferView;

    open spec fn view(&self) -> TransferView {
        TransferView {
            to: self.to,
            token: self.token@,
            nonce: self.nonce,
            amount: val(self.amount),
            data: self.data,
        }
    }
}

/// One thing that an endpoint does outside the storage, in the order it
/// does them.
#[derive(Debug)]
pub enum Effect {
    Send(Transfer),
    Emit(Event),
}

/// An effect read as plain values.
pub enum EffectView {
    Send(TransferView),
    Emit(EventView),
}

impl View for Effect {
    type V = EffectView;

    open spec fn view(&self) -> EffectView {
        match self {
            Effect::Send(t) => EffectView::Send(t@),
            Effect::Emit(e) => EffectView::Emit(e@),
        }
    }
}

/// The effects of a sequence read as plain values.
pub open spec fn effects_view(effects: Seq<Effect>) -> Seq<EffectView> {
    effects.map_values(|e: Effect| e@)
}

/// The event of the given kind.
pub open spec fn event_view(
    kind: EventKind,
    user_address: Address,
    token: Seq<u8>,
    amount: nat,
    timestamp: u64,
) -> EffectView {
    EffectView::Emit(EventView { kind, user_address, token, amount, timestamp })
}

/// A transfer of a fungible token (nonce zero).
pub open spec fn transfer_view(to: Address, token: Seq<u8>, amount: nat, data: TransferData) -> EffectView {
    EffectView::Send(TransferView { to, token, nonce: 0, amount, data })
}

/// The events that the contract logs. Each method builds the event record.
pub trait EventModule {
    /// A stake of `stake_amount` tokens.
    fn stake_event(
        &self,
        user_address: Address,
        stake_token: TokenId,
        stake_amount: BigUint,
        stake_timestamp: u64,
    ) -> (e: Event)
        ensures
            e@ == (EventView {
                kind: EventKind::Stake,
                user_address,
                token: stake_token@,
                amount: val(stake_amount),
                timestamp: stake_timestamp,
            }),
    {
        Event {
            kind: EventKind::Stake,
            user_address,
            token: stake_token,
            amount: stake_amount,
            timestamp: stake_timestamp,
        }
    }

    /// An unstake of `unstake_amount` tokens.
    fn unstake_event(
        &self,
        user_address: Address,
        unstake_token: TokenId,
        unstake_amount: BigUint,
        unstake_timestamp: u64,
    ) -> (e: Event)
        ensures
            e@ == (EventView {
                kind: EventKind::Unstake,
                user_address,
                token: unstake_token@,
                amount: val(unstake_amount),
                timestamp: unstake_timestamp,
            }),
    {
        Event {
            kind: EventKind::Unstake,
            user_address,
            token: unstake_token,
            amount: unstake_amount,
            timestamp: unstake_timestamp,
        }
    }

    /// A claim of `claim_amount` reward tokens.
    fn claim_event(
        &self,
        user_address: Address,
        claim_token: TokenId,
        claim_amount: BigUint,
        claim_timestamp: u64,
    ) -> (e: Event)
        ensures
            e@ == (EventView {
                kind: EventKind::Claim,
                user_address,
                token: claim_token@,
                amount: val(claim_amount),
                timestamp: claim_timestamp,
            }),
    {
        Event {
            kind: EventKind::Claim,
            user_address,
            token: claim_token,
            amount: claim_amount,
            timestamp: claim_timestamp,
        }
    }

    /// A collection of `collect_amount` unstaked tokens.
    fn collect_event(
        &self,
        user_address: Address,
        collect_token: TokenId,
        collect_amount: BigUint,
        collect_timestamp: u64,
    ) -> (e: Event)
        ensures
            e@ == (EventView {
                kind: EventKind::Collect,
                user_address,
                token: collect_token@,
                amount: val(collect_amount),
                timestamp: collect_timestamp,
            }),
    {
        Event {
            kind: EventKind::Collect,
            user_address,
            token: collect_token,
            amount: collect_amount,
            timestamp: collect_timestamp,
        }
    }
}

} // verus!
