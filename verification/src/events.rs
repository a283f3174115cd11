//! What a request asks of the outside: token transfers, a code upgrade, and the
//! events that tell observers what happened.
use crate::types::Address;
use vstd::prelude::*;

verus! {

/// A record of one accepted request. Every request that changes state publishes one.
#[derive(Clone, Copy, PartialEq, Eq, Debug)]
pub enum Event {
    Init { admin: Address, treasury: Address },
    Paused { caller: Address },
    Unpaused { caller: Address },
    Upgraded { caller: Address, wasm_hash: [u8; 32] },
    Created { market_id: u32, creator: Address, oracle: Address },
    Seeded { market_id: u32, caller: Address, amount: i128 },
    Closed { market_id: u32, caller: Address },
    Reported { market_id: u32, caller: Address, outcome: bool },
    Disputed { market_id: u32, disputer: Address, bond: i128 },
    Upheld { market_id: u32, caller: Address, outcome: bool },
    Rejected { market_id: u32, caller: Address, slashed: i128 },
    Resolved { market_id: u32, winner: Option<bool> },
    Cancelled { market_id: u32, caller: Address },
    TimedOut { market_id: u32 },
    Drained { market_id: u32, caller: Address },
    Traded { market_id: u32, buyer: Address, yes: bool, amount: i128, shares: i128 },
    Redeemed { market_id: u32, redeemer: Address, payout: i128 },
    Refunded { market_id: u32, redeemer: Address, refund: i128 },
    Split { market_id: u32, caller: Address, amount: i128 },
    Merged { market_id: u32, caller: Address, amount: i128 },
    Added { market_id: u32, provider: Address, amount: i128, lp_shares: i128 },
    Removed { market_id: u32, provider: Address, lp_shares: i128, payout: i128 },
    Claimed { market_id: u32, provider: Address, fee_share: i128 },
}

impl Event {
    /// The first topic of the event: the part of the contract it concerns.
    pub open spec fn category_text(self) -> Seq<char> {
        match self {
            Event::Init { .. } | Event::Paused { .. } | Event::Unpaused { .. }
            | Event::Upgraded { .. } => "admin"@,
            Event::Added { .. } | Event::Removed { .. } | Event::Claimed { .. } => "liquidity"@,
            _ => "market"@,
        }
    }

    /// The second topic of the event: what was done.
    pub open spec fn action_text(self) -> Seq<char> {
        match self {
            Event::Init { .. } => "init"@,
            Event::Paused { .. } => "paused"@,
            Event::Unpaused { .. } => "unpaused"@,
            Event::Upgraded { .. } => "upgraded"@,
            Event::Created { .. } => "created"@,
            Event::Seeded { .. } => "seeded"@,
            Event::Closed { .. } => "closed"@,
            Event::Reported { .. } => "reported"@,
            Event::Disputed { .. } => "disputed"@,
            Event::Upheld { .. } => "upheld"@,
            Event::Rejected { .. } => "rejected"@,
            Event::Resolved { .. } => "resolved"@,
            Event::Cancelled { .. } => "cancelled"@,
            Event::TimedOut { .. } => "timeout"@,
            Event::Drained { .. } => "drained"@,
            Event::Traded { .. } => "traded"@,
            Event::Redeemed { .. } => "redeemed"@,
            Event::Refunded { .. } => "refunded"@,
            Event::Split { .. } => "split"@,
            Event::Merged { .. } => "merged"@,
            Event::Added { .. } => "added"@,
            Event::Removed { .. } => "removed"@,
            Event::Claimed { .. } => "claimed"@,
        }
    }

    /// The two topics under which the event is published.
    pub fn topics(&self) -> (topics: (&'static str, &'static str))
        ensures
            topics.0@ == self.category_text(),
            topics.1@ == self.action_text(),
    {
        match self {
            Event::Init { .. } => ("admin", "init"),
            Event::Paused { .. } => ("admin", "paused"),
            Event::Unpaused { .. } => ("admin", "unpaused"),
            Event::Upgraded { .. } => ("admin", "upgraded"),
            Event::Created { .. } => ("market", "created"),
            Event::Seeded { .. } => ("market", "seeded"),
            Event::Closed { .. } => ("market", "closed"),
            Event::Reported { .. } => ("market", "reported"),
            Event::Disputed { .. } => ("market", "disputed"),
            Event::Upheld { .. } => ("market", "upheld"),
            Event::Rejected { .. } => ("market", "rejected"),
            Event::Resolved { .. } => ("market", "resolved"),
            Event::Cancelled { .. } => ("market", "cancelled"),
            Event::TimedOut { .. } => ("market", "timeout"),
            Event::Drained { .. } => ("market", "drained"),
            Event::Traded { .. } => ("market", "traded"),
            Event::Redeemed { .. } => ("market", "redeemed"),
            Event::Refunded { .. } => ("market", "refunded"),
            Event::Split { .. } => ("market", "split"),
            Event::Merged { .. } => ("market", "merged"),
            Event::Added { .. } => ("liquidity", "added"),
            Event::Removed { .. } => ("liquidity", "removed"),
            Event::Claimed { .. } => ("liquidity", "claimed"),
        }
    }
}

/// Something the host has to carry out for an accepted request, in order. If one
/// of them fails, the whole request fails and leaves no trace.
#[derive(Clone, Copy, PartialEq, Eq, Debug)]
pub enum Effect {
    /// Move tokens from a party into the contract's custody.
    TransferIn { from: Address, amount: i128 },
    /// Pay tokens out of the contract's custody.
    TransferOut { to: Address, amount: i128 },
    /// Replace the contract's code.
    Upgrade { wasm_hash: [u8; 32] },
    /// Publish an event.
    Publish { event: Event },
}

/// The tokens that an effect brings into the contract's custody; negative when
/// it pays them out.
pub open spec fn custody_change(effect: Effect) -> int {
    match effect {
        Effect::TransferIn { amount, .. } => amount as int,
        Effect::TransferOut { amount, .. } => -amount,
        _ => 0,
    }
}

/// The tokens that a series of effects brings into the contract's custody.
pub open spec fn custody(effects: Seq<Effect>) -> int
    decreases effects.len(),
{
    if effects.len() == 0 {
        0
    } else {
        custody(effects.drop_last()) + custody_change(effects.last())
    }
}

} // verus!
