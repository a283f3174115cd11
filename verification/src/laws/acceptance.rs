//! When a request is accepted, and which refusal it meets otherwise.
use crate::model::State;
use crate::requests::Request;
use crate::types::{Address, Error, MarketStatus};
use vstd::prelude::*;

verus! {

/// Initialization is accepted exactly while the contract has no admin.
pub proof fn law_initialization_needs_a_new_contract(
    s: State,
    admin: Address,
    treasury: Address,
    token: Address,
)
    ensures
        ({
            let answer = s.refusal(Request::Init { admin, treasury, token });
            &&& answer is None <==> s.admin is None
            &&& answer == Some(Error::AlreadyInitialized) <==> s.admin is Some
        }),
{
}

/// Pausing, unpausing and upgrading are accepted exactly from the admin, at any time.
pub proof fn law_administration_needs_the_admin(s: State, request: Request)
    requires
        request is Pause || request is Unpause || request is Upgrade,
    ensures
        s.refusal(request) is None <==> s.admin is Some && s.admin == request.admin_caller(),
        s.refusal(request) == Some(Error::NotInitialized) <==> s.admin is None,
        s.refusal(request) == Some(Error::Unauthorized) <==> s.admin is Some && s.admin
            != request.admin_caller(),
        request matches Request::Pause { caller } ==> request.admin_caller() == Some(caller),
        request matches Request::Unpause { caller } ==> request.admin_caller() == Some(caller),
        request matches Request::Upgrade { caller, .. } ==> request.admin_caller() == Some(caller),
{
}

/// A market can be created by anyone whenever the contract is not paused and the market
/// closes after now and is due after it closes.
pub proof fn law_creation_needs_ordered_deadlines(
    s: State,
    now: u64,
    creator: Address,
    question: Seq<u8>,
    oracle: Address,
    close_time: u64,
    resolution_deadline: u64,
)
    ensures
        ({
            let answer = s.refusal(
                Request::CreateMarket {
                    now,
                    creator,
                    question,
                    oracle,
                    close_time,
                    resolution_deadline,
                },
            );
            &&& answer is None <==> !s.paused && now < close_time < resolution_deadline
            &&& answer == Some(Error::ContractPaused) <==> s.paused
            &&& answer == Some(Error::InvalidDeadline) <==> !s.paused && !(now < close_time
                < resolution_deadline)
        }),
{
}

/// What every deposit into a market has to meet, check by check. A deposit that meets
/// all of it has the answer `otherwise`.
pub open spec fn deposit_answer(
    s: State,
    now: u64,
    market_id: u32,
    amount: i128,
    answer: Option<Error>,
    otherwise: Option<Error>,
) -> bool {
    let market = s.markets[market_id];
    &&& s.paused ==> answer == Some(Error::ContractPaused)
    &&& !s.paused && !s.markets.contains_key(market_id) ==> answer == Some(Error::MarketNotFound)
    &&& !s.paused && s.markets.contains_key(market_id) ==> {
        &&& market.status != MarketStatus::Open ==> answer == Some(Error::MarketNotOpen)
        &&& market.status == MarketStatus::Open && now >= market.close_time ==> answer == Some(
            Error::TradingClosed,
        )
        &&& market.status == MarketStatus::Open && now < market.close_time ==> {
            &&& amount <= 0 ==> answer == Some(Error::InvalidAmount)
            &&& amount > 0 ==> answer == otherwise
        }
    }
}

/// Anyone can seed a market or add liquidity to it, with any positive amount, exactly
/// while the contract is not paused, the market is open and its close time has not come.
pub proof fn law_deposits_need_an_open_market(
    s: State,
    now: u64,
    party: Address,
    market_id: u32,
    amount: i128,
)
    ensures
        deposit_answer(
            s,
            now,
            market_id,
            amount,
            s.refusal(Request::SeedMarket { now, caller: party, market_id, amount }),
            None,
        ),
        deposit_answer(
            s,
            now,
            market_id,
            amount,
            s.refusal(Request::AddLiquidity { now, provider: party, market_id, amount }),
            None,
        ),
{
}

/// Anyone can buy shares of either side under the same conditions, as long as the shares
/// that the amount buys are at least those insisted on.
pub proof fn law_purchases_need_an_open_market(
    s: State,
    yes: bool,
    now: u64,
    buyer: Address,
    market_id: u32,
    amount: i128,
    min_shares_out: i128,
)
    ensures
        deposit_answer(
            s,
            now,
            market_id,
            amount,
            s.refusal(Request::Buy { yes, now, buyer, market_id, amount, min_shares_out }),
            if s.markets[market_id].quote(yes, amount as int) < min_shares_out {
                Some(Error::SlippageExceeded)
            } else {
                None
            },
        ),
{
}

/// The contract is not paused and the market exists.
pub open spec fn reachable(s: State, market_id: u32) -> bool {
    !s.paused && s.markets.contains_key(market_id)
}

/// A request that names a market is refused for a pause before all else, and next for a
/// market that does not exist. Draining is not refused for a pause, and rulings are
/// refused for their caller before the market is looked up.
pub proof fn law_markets_have_to_be_reachable(s: State, request: Request)
    requires
        request.market() is Some,
        !(request is EmergencyDrainMarket),
    ensures
        s.paused <==> s.refusal(request) == Some(Error::ContractPaused),
        !s.paused && !s.markets.contains_key(request.market()->0) && !(
        request is AdminUpholdDispute) && !(request is AdminRejectDispute) ==> s.refusal(request)
            == Some(Error::MarketNotFound),
        s.markets.contains_key(request.market()->0) ==> s.refusal(request) != Some(
            Error::MarketNotFound,
        ),
{
}

/// A market is closed exactly while it is open: by the admin at any time, by its creator
/// from the close time on.
pub proof fn law_closing_needs_an_open_market(
    s: State,
    now: u64,
    caller: Address,
    market_id: u32,
)
    requires
        reachable(s, market_id),
    ensures
        ({
            let market = s.markets[market_id];
            let answer = s.refusal(Request::CloseMarket { now, caller, market_id });
            let admin = s.admin == Some(caller);
            let creator = market.creator == caller;
            let open = market.status == MarketStatus::Open;
            &&& answer is None <==> open && (admin || creator && now >= market.close_time)
            &&& answer == Some(Error::MarketNotOpen) <==> !open
            &&& answer == Some(Error::NotInitialized) <==> open && creator && now
                < market.close_time && s.admin is None
            &&& answer == Some(Error::Unauthorized) <==> open && !admin && (!creator || now
                < market.close_time && s.admin is Some)
        }),
{
}

/// A report is refused for the status first, then for the reporter, then for the time.
pub proof fn law_refused_reports_say_why(
    s: State,
    now: u64,
    caller: Address,
    market_id: u32,
    outcome: bool,
)
    requires
        reachable(s, market_id),
    ensures
        ({
            let market = s.markets[market_id];
            let answer = s.refusal(Request::OracleReport { now, caller, market_id, outcome });
            let closed = market.status == MarketStatus::Closed;
            let oracle = market.oracle == Some(caller);
            &&& answer is None <==> closed && oracle && now >= market.close_time
            &&& answer == Some(Error::MarketNotClosed) <==> !closed
            &&& answer == Some(Error::Unauthorized) <==> closed && !oracle
            &&& answer == Some(Error::MarketNotExpired) <==> closed && oracle && now
                < market.close_time
        }),
{
}

/// Anyone can dispute the reported outcome of a closed market, with a bond of at least
/// ten million.
pub proof fn law_disputes_need_a_report_and_a_bond(
    s: State,
    disputer: Address,
    market_id: u32,
    bond: i128,
)
    requires
        reachable(s, market_id),
    ensures
        ({
            let market = s.markets[market_id];
            let answer = s.refusal(Request::Dispute { disputer, market_id, bond });
            let closed = market.status == MarketStatus::Closed;
            let reported = market.outcome is Some;
            let enough = bond >= 10_000_000;
            &&& answer is None <==> closed && reported && enough && s.token is Some
            &&& answer == Some(Error::MarketNotClosed) <==> !closed
            &&& answer == Some(Error::InvalidOutcome) <==> closed && !reported
            &&& answer == Some(Error::InvalidAmount) <==> closed && reported && !enough
            &&& answer == Some(Error::NotInitialized) <==> closed && reported && enough
                && s.token is None
        }),
{
}

/// The admin rules on a dispute exactly while it waits; to reject it takes a treasury.
pub proof fn law_rulings_need_a_dispute(
    s: State,
    caller: Address,
    market_id: u32,
    new_outcome: bool,
)
    requires
        !s.paused,
    ensures
        ({
            let uphold = s.refusal(Request::AdminUpholdDispute { caller, market_id, new_outcome });
            let reject = s.refusal(Request::AdminRejectDispute { caller, market_id });
            let admin = s.admin == Some(caller);
            let exists_market = s.markets.contains_key(market_id);
            let disputed = s.markets[market_id].status == MarketStatus::Disputed;
            &&& uphold is None <==> admin && exists_market && disputed
            &&& uphold == Some(Error::NotInitialized) <==> s.admin is None
            &&& uphold == Some(Error::Unauthorized) <==> s.admin is Some && !admin
            &&& uphold == Some(Error::MarketNotFound) <==> admin && !exists_market
            &&& uphold == Some(Error::MarketNotOpen) <==> admin && exists_market && !disputed
            &&& reject is None <==> uphold is None && s.treasury is Some
            &&& uphold is Some ==> reject == uphold
            &&& uphold is None && s.treasury is None ==> reject == Some(Error::NotInitialized)
        }),
{
}

/// Anyone can finalize a market exactly when it is closed or its dispute was upheld, and
/// an outcome is known.
pub proof fn law_finalizing_needs_an_outcome(s: State, market_id: u32)
    requires
        reachable(s, market_id),
    ensures
        ({
            let market = s.markets[market_id];
            let answer = s.refusal(Request::Finalize { market_id });
            let ready = market.status == MarketStatus::Closed || market.status
                == MarketStatus::EmergencyResolved;
            &&& answer is None <==> ready && market.outcome is Some
            &&& answer == Some(Error::MarketNotClosed) <==> !ready
            &&& answer == Some(Error::InvalidOutcome) <==> ready && market.outcome is None
        }),
{
}

/// The admin and the creator can cancel a market whatever its status, but once.
pub proof fn law_cancelling_needs_the_admin_or_the_creator(
    s: State,
    caller: Address,
    market_id: u32,
)
    requires
        reachable(s, market_id),
    ensures
        ({
            let market = s.markets[market_id];
            let answer = s.refusal(Request::CancelMarket { caller, market_id });
            let entitled = s.admin == Some(caller) || market.creator == caller;
            let cancelled = market.status == MarketStatus::Cancelled;
            &&& answer is None <==> entitled && !cancelled
            &&& answer == Some(Error::Unauthorized) <==> !entitled
            &&& answer == Some(Error::MarketAlreadyCancelled) <==> entitled && cancelled
        }),
{
}

/// Anyone can cancel a market that is open or closed, has no outcome, and whose
/// resolution deadline has passed.
pub proof fn law_timeouts_need_a_passed_deadline(s: State, now: u64, market_id: u32)
    requires
        reachable(s, market_id),
    ensures
        ({
            let market = s.markets[market_id];
            let answer = s.refusal(Request::EmergencyTimeoutRefund { now, market_id });
            let running = market.status == MarketStatus::Open || market.status
                == MarketStatus::Closed;
            let silent = market.outcome is None;
            let late = now > market.resolution_deadline;
            &&& answer is None <==> running && silent && late
            &&& answer == Some(Error::MarketNotOpen) <==> !running
            &&& answer == Some(Error::InvalidOutcome) <==> running && !silent
            &&& answer == Some(Error::ResolutionDeadlineNotReached) <==> running && silent && !late
        }),
{
}

/// The admin can drain any market that is not cancelled, also while the contract is
/// paused.
pub proof fn law_draining_needs_the_admin(s: State, caller: Address, market_id: u32)
    ensures
        ({
            let answer = s.refusal(Request::EmergencyDrainMarket { caller, market_id });
            let admin = s.admin == Some(caller);
            let known = s.markets.contains_key(market_id);
            let cancelled = s.markets[market_id].status == MarketStatus::Cancelled;
            &&& answer is None <==> admin && known && !cancelled
            &&& answer == Some(Error::NotInitialized) <==> s.admin is None
            &&& answer == Some(Error::Unauthorized) <==> s.admin is Some && !admin
            &&& answer == Some(Error::MarketNotFound) <==> admin && !known
            &&& answer == Some(Error::MarketAlreadyCancelled) <==> admin && known && cancelled
        }),
{
}

/// Anyone can split a positive amount of collateral exactly while the market is open,
/// also after its close time, and there is a token to take.
pub proof fn law_splits_need_an_open_market(
    s: State,
    caller: Address,
    market_id: u32,
    amount: i128,
)
    requires
        reachable(s, market_id),
    ensures
        ({
            let answer = s.refusal(Request::Split { caller, market_id, amount });
            let open = s.markets[market_id].status == MarketStatus::Open;
            &&& answer is None <==> open && amount > 0 && s.token is Some
            &&& answer == Some(Error::MarketNotOpen) <==> !open
            &&& answer == Some(Error::InvalidAmount) <==> open && amount <= 0
            &&& answer == Some(Error::NotInitialized) <==> open && amount > 0 && s.token is None
        }),
{
}

/// Whoever holds enough shares of both sides can merge them exactly while the market is
/// open; where collateral is to be released there has to be a token to pay.
pub proof fn law_merges_need_pairs(s: State, caller: Address, market_id: u32, amount: i128)
    requires
        reachable(s, market_id),
    ensures
        ({
            let answer = s.refusal(Request::Merge { caller, market_id, amount });
            let open = s.markets[market_id].status == MarketStatus::Open;
            let held = s.position(market_id, caller);
            let enough = held.yes_shares >= amount && held.no_shares >= amount;
            let payable = s.token is Some || amount == 0 || held.split_tokens <= 0;
            &&& answer is None <==> open && amount >= 0 && enough && payable
            &&& answer == Some(Error::MarketNotOpen) <==> !open
            &&& answer == Some(Error::InvalidAmount) <==> open && amount < 0
            &&& answer == Some(Error::InsufficientFunds) <==> open && amount >= 0 && !enough
            &&& answer == Some(Error::NotInitialized) <==> open && amount >= 0 && enough
                && !payable
        }),
{
}

/// Whoever holds shares of the side that won can redeem them once the market is resolved
/// or a dispute was upheld; whoever holds any shares, once it is cancelled.
pub proof fn law_redemptions_need_winning_or_cancelled_shares(
    s: State,
    redeemer: Address,
    market_id: u32,
)
    requires
        reachable(s, market_id),
    ensures
        ({
            let market = s.markets[market_id];
            let held = s.position(market_id, redeemer);
            let answer = s.refusal(Request::Redeem { redeemer, market_id });
            let cancelled = market.status == MarketStatus::Cancelled;
            let resolved = market.status == MarketStatus::Resolved || market.status
                == MarketStatus::EmergencyResolved;
            &&& cancelled ==> {
                let any = held.yes_shares + held.no_shares > 0;
                let payable = s.token is Some || held.split_tokens <= 0;
                &&& answer is None <==> any && payable
                &&& answer == Some(Error::NothingToRedeem) <==> !any
                &&& answer == Some(Error::NotInitialized) <==> any && !payable
            }
            &&& !cancelled && !resolved ==> answer == Some(Error::MarketNotResolved)
            &&& resolved ==> {
                &&& market.outcome is None <==> answer == Some(Error::InvalidOutcome)
                &&& market.outcome == Some(true) ==> {
                    &&& answer is None <==> held.yes_shares != 0
                    &&& answer == Some(Error::NothingToRedeem) <==> held.yes_shares == 0
                }
                &&& market.outcome == Some(false) ==> {
                    &&& answer is None <==> held.no_shares != 0
                    &&& answer == Some(Error::NothingToRedeem) <==> held.no_shares == 0
                }
            }
        }),
{
}

/// A withdrawal is accepted exactly when the provider holds at least the shares given up,
/// and fees can be claimed exactly while the provider holds shares, both whatever the
/// market's status; so liquidity can be withdrawn from a market that is settled.
pub proof fn law_providers_can_always_leave(
    s: State,
    provider: Address,
    market_id: u32,
    lp_shares: i128,
)
    requires
        reachable(s, market_id),
    ensures
        ({
            let held = s.position(market_id, provider).lp_shares;
            let removal = s.refusal(Request::RemoveLiquidity { provider, market_id, lp_shares });
            let claim = s.refusal(Request::ClaimLpFees { provider, market_id });
            &&& removal is None <==> lp_shares <= held
            &&& removal == Some(Error::InsufficientFunds) <==> lp_shares > held
            &&& claim is None <==> held != 0
            &&& claim == Some(Error::NothingToRedeem) <==> held == 0
        }),
{
}

} // verus!
