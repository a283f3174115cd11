//! The requests that the contract answers, as values, so that it can be said of
//! all of them what every request does.
use crate::model::State;
use crate::types::{Address, Error};
use vstd::prelude::*;

verus! {

/// One request and its arguments.
pub enum Request {
    Init { admin: Address, treasury: Address, token: Address },
    Pause { caller: Address },
    Unpause { caller: Address },
    Upgrade { caller: Address, wasm_hash: [u8; 32] },
    CreateMarket {
        now: u64,
        creator: Address,
        question: Seq<u8>,
        oracle: Address,
        close_time: u64,
        resolution_deadline: u64,
    },
    SeedMarket { now: u64, caller: Address, market_id: u32, amount: i128 },
    CloseMarket { now: u64, caller: Address, market_id: u32 },
    OracleReport { now: u64, caller: Address, market_id: u32, outcome: bool },
    Dispute { disputer: Address, market_id: u32, bond: i128 },
    AdminUpholdDispute { caller: Address, market_id: u32, new_outcome: bool },
    AdminRejectDispute { caller: Address, market_id: u32 },
    Finalize { market_id: u32 },
    CancelMarket { caller: Address, market_id: u32 },
    EmergencyTimeoutRefund { now: u64, market_id: u32 },
    EmergencyDrainMarket { caller: Address, market_id: u32 },
    /// `buy_yes`, or `buy_no` unless `yes`.
    Buy {
        yes: bool,
        now: u64,
        buyer: Address,
        market_id: u32,
        amount: i128,
        min_shares_out: i128,
    },
    Split { caller: Address, market_id: u32, amount: i128 },
    Merge { caller: Address, market_id: u32, amount: i128 },
    Redeem { redeemer: Address, market_id: u32 },
    BatchRedeem { redeemer: Address, market_ids: Seq<u32> },
    AddLiquidity { now: u64, provider: Address, market_id: u32, amount: i128 },
    RemoveLiquidity { provider: Address, market_id: u32, lp_shares: i128 },
    ClaimLpFees { provider: Address, market_id: u32 },
}

impl Request {
    /// The party that has to be the admin for the request to be accepted, if there is
    /// such a party.
    pub open spec fn admin_caller(self) -> Option<Address> {
        match self {
            Request::Pause { caller } => Some(caller),
            Request::Unpause { caller } => Some(caller),
            Request::Upgrade { caller, .. } => Some(caller),
            Request::AdminUpholdDispute { caller, .. } => Some(caller),
            Request::AdminRejectDispute { caller, .. } => Some(caller),
            Request::EmergencyDrainMarket { caller, .. } => Some(caller),
            _ => None,
        }
    }

    /// The part of the contract that the request concerns.
    pub open spec fn category(self) -> Seq<char> {
        match self {
            Request::Init { .. } | Request::Pause { .. } | Request::Unpause { .. }
            | Request::Upgrade { .. } => "admin"@,
            Request::AddLiquidity { .. } | Request::RemoveLiquidity { .. }
            | Request::ClaimLpFees { .. } => "liquidity"@,
            _ => "market"@,
        }
    }

    /// The one market that the request names, if it names one.
    pub open spec fn market(self) -> Option<u32> {
        match self {
            Request::SeedMarket { market_id, .. } => Some(market_id),
            Request::CloseMarket { market_id, .. } => Some(market_id),
            Request::OracleReport { market_id, .. } => Some(market_id),
            Request::Dispute { market_id, .. } => Some(market_id),
            Request::AdminUpholdDispute { market_id, .. } => Some(market_id),
            Request::AdminRejectDispute { market_id, .. } => Some(market_id),
            Request::Finalize { market_id } => Some(market_id),
            Request::CancelMarket { market_id, .. } => Some(market_id),
            Request::EmergencyTimeoutRefund { market_id, .. } => Some(market_id),
            Request::EmergencyDrainMarket { market_id, .. } => Some(market_id),
            Request::Buy { market_id, .. } => Some(market_id),
            Request::Split { market_id, .. } => Some(market_id),
            Request::Merge { market_id, .. } => Some(market_id),
            Request::Redeem { market_id, .. } => Some(market_id),
            Request::AddLiquidity { market_id, .. } => Some(market_id),
            Request::RemoveLiquidity { market_id, .. } => Some(market_id),
            Request::ClaimLpFees { market_id, .. } => Some(market_id),
            _ => None,
        }
    }

    /// The party whose position the request may change, if it may change one.
    pub open spec fn holder(self) -> Option<Address> {
        match self {
            Request::Buy { buyer, .. } => Some(buyer),
            Request::Split { caller, .. } => Some(caller),
            Request::Merge { caller, .. } => Some(caller),
            Request::Redeem { redeemer, .. } => Some(redeemer),
            Request::BatchRedeem { redeemer, .. } => Some(redeemer),
            Request::AddLiquidity { provider, .. } => Some(provider),
            Request::RemoveLiquidity { provider, .. } => Some(provider),
            Request::ClaimLpFees { provider, .. } => Some(provider),
            _ => None,
        }
    }
}

impl State {
    /// Why a request is refused; a batch never is.
    pub open spec fn refusal(self, request: Request) -> Option<Error> {
        match request {
            Request::Init { .. } => self.init_refusal(),
            Request::Pause { caller } => self.admin_refusal(caller),
            Request::Unpause { caller } => self.admin_refusal(caller),
            Request::Upgrade { caller, .. } => self.admin_refusal(caller),
            Request::CreateMarket { now, close_time, resolution_deadline, .. } =>
                self.create_refusal(now, close_time, resolution_deadline),
            Request::SeedMarket { now, market_id, amount, .. } => self.deposit_refusal(
                now,
                market_id,
                amount as int,
            ),
            Request::CloseMarket { now, caller, market_id } => self.close_refusal(
                now,
                caller,
                market_id,
            ),
            Request::OracleReport { now, caller, market_id, .. } => self.report_refusal(
                now,
                caller,
                market_id,
            ),
            Request::Dispute { market_id, bond, .. } => self.dispute_refusal(
                market_id,
                bond as int,
            ),
            Request::AdminUpholdDispute { caller, market_id, .. } => self.ruling_refusal(
                caller,
                market_id,
            ),
            Request::AdminRejectDispute { caller, market_id } => self.reject_refusal(
                caller,
                market_id,
            ),
            Request::Finalize { market_id } => self.finalize_refusal(market_id),
            Request::CancelMarket { caller, market_id } => self.cancel_refusal(caller, market_id),
            Request::EmergencyTimeoutRefund { now, market_id } => self.timeout_refusal(
                now,
                market_id,
            ),
            Request::EmergencyDrainMarket { caller, market_id } => self.drain_refusal(
                caller,
                market_id,
            ),
            Request::Buy { yes, now, market_id, amount, min_shares_out, .. } => self.buy_refusal(
                yes,
                now,
                market_id,
                amount as int,
                min_shares_out as int,
            ),
            Request::Split { market_id, amount, .. } => self.split_refusal(
                market_id,
                amount as int,
            ),
            Request::Merge { caller, market_id, amount } => self.merge_refusal(
                caller,
                market_id,
                amount as int,
            ),
            Request::Redeem { redeemer, market_id } => self.redeem_refusal(redeemer, market_id),
            Request::BatchRedeem { .. } => None,
            Request::AddLiquidity { now, market_id, amount, .. } => self.deposit_refusal(
                now,
                market_id,
                amount as int,
            ),
            Request::RemoveLiquidity { provider, market_id, lp_shares } => self.remove_refusal(
                provider,
                market_id,
                lp_shares as int,
            ),
            Request::ClaimLpFees { provider, market_id } => self.claim_refusal(
                provider,
                market_id,
            ),
        }
    }

    /// Every amount that answering the request computes can be represented.
    pub open spec fn fits(self, request: Request) -> bool {
        match request {
            Request::CreateMarket { now, close_time, resolution_deadline, .. } => self.create_fits(
                now,
                close_time,
                resolution_deadline,
            ),
            Request::SeedMarket { now, market_id, amount, .. } => self.seed_fits(
                now,
                market_id,
                amount as int,
            ),
            Request::AdminRejectDispute { caller, market_id } => self.reject_fits(
                caller,
                market_id,
            ),
            Request::Buy { yes, now, buyer, market_id, amount, min_shares_out } => self.buy_fits(
                yes,
                now,
                buyer,
                market_id,
                amount as int,
                min_shares_out as int,
            ),
            Request::Split { caller, market_id, amount } => self.split_fits(
                caller,
                market_id,
                amount as int,
            ),
            Request::Redeem { redeemer, market_id } => self.redeem_fits(redeemer, market_id),
            Request::BatchRedeem { redeemer, market_ids } => self.batch_fits(redeemer, market_ids),
            Request::AddLiquidity { now, provider, market_id, amount } => self.add_fits(
                now,
                provider,
                market_id,
                amount as int,
            ),
            Request::RemoveLiquidity { provider, market_id, lp_shares } => self.remove_fits(
                provider,
                market_id,
                lp_shares as int,
            ),
            Request::ClaimLpFees { provider, market_id } => self.claim_fits(provider, market_id),
            _ => true,
        }
    }

    /// The state that an accepted request leads to.
    pub open spec fn accepted(self, request: Request) -> State {
        match request {
            Request::Init { admin, treasury, token } => self.after_init(admin, treasury, token),
            Request::Pause { caller } => self.after_pause(caller),
            Request::Unpause { caller } => self.after_unpause(caller),
            Request::Upgrade { caller, wasm_hash } => self.after_upgrade(caller, wasm_hash),
            Request::CreateMarket {
                creator,
                question,
                oracle,
                close_time,
                resolution_deadline,
                ..
            } => self.after_create(creator, question, oracle, close_time, resolution_deadline),
            Request::SeedMarket { caller, market_id, amount, .. } => self.after_seed(
                caller,
                market_id,
                amount,
            ),
            Request::CloseMarket { caller, market_id, .. } => self.after_close(caller, market_id),
            Request::OracleReport { caller, market_id, outcome, .. } => self.after_report(
                caller,
                market_id,
                outcome,
            ),
            Request::Dispute { disputer, market_id, bond } => self.after_dispute(
                disputer,
                market_id,
                bond,
            ),
            Request::AdminUpholdDispute { caller, market_id, new_outcome } => self.after_uphold(
                caller,
                market_id,
                new_outcome,
            ),
            Request::AdminRejectDispute { caller, market_id } => self.after_reject(
                caller,
                market_id,
            ),
            Request::Finalize { market_id } => self.after_finalize(market_id),
            Request::CancelMarket { caller, market_id } => self.after_cancel(caller, market_id),
            Request::EmergencyTimeoutRefund { market_id, .. } => self.after_timeout(market_id),
            Request::EmergencyDrainMarket { caller, market_id } => self.after_drain(
                caller,
                market_id,
            ),
            Request::Buy { yes, buyer, market_id, amount, .. } => self.after_buy(
                yes,
                buyer,
                market_id,
                amount,
            ),
            Request::Split { caller, market_id, amount } => self.after_split(
                caller,
                market_id,
                amount,
            ),
            Request::Merge { caller, market_id, amount } => self.after_merge(
                caller,
                market_id,
                amount,
            ),
            Request::Redeem { redeemer, market_id } => self.after_redeem(redeemer, market_id),
            Request::BatchRedeem { redeemer, market_ids } => self.after_batch(
                redeemer,
                market_ids,
            ),
            Request::AddLiquidity { provider, market_id, amount, .. } => self.after_add(
                provider,
                market_id,
                amount,
            ),
            Request::RemoveLiquidity { provider, market_id, lp_shares } => self.after_remove(
                provider,
                market_id,
                lp_shares,
            ),
            Request::ClaimLpFees { provider, market_id } => self.after_claim(provider, market_id),
        }
    }

    /// The state after a request, whether it was accepted or refused.
    pub open spec fn apply(self, request: Request) -> State {
        if self.refusal(request) is None {
            self.accepted(request)
        } else {
            self
        }
    }
}

} // verus!
