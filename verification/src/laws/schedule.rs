//! The schedule of a market: when trading stops, who reports and when, and where an
//! outcome comes from.
use crate::laws::access::lemma_requests_keep_markets;
use crate::model::State;
use crate::requests::Request;
use crate::types::{Address, Error, MarketStatus};
use vstd::prelude::*;

verus! {

/// The request puts value into a market's pools.
pub open spec fn is_trade(request: Request, now: u64, market_id: u32) -> bool {
    ||| request matches Request::SeedMarket { now: at, market_id: id, .. } && at == now && id
        == market_id
    ||| request matches Request::Buy { now: at, market_id: id, .. } && at == now && id == market_id
    ||| request matches Request::AddLiquidity { now: at, market_id: id, .. } && at == now && id
        == market_id
}

/// From its close time on nothing can be seeded, bought or provided in a market, and a
/// market that is still open is refused for that reason.
pub proof fn law_trading_stops_at_the_close_time(
    s: State,
    request: Request,
    now: u64,
    market_id: u32,
)
    requires
        is_trade(request, now, market_id),
        s.markets.contains_key(market_id),
        now >= s.markets[market_id].close_time,
    ensures
        s.refusal(request) is Some,
        s.apply(request) == s,
        !s.paused && s.markets[market_id].status == MarketStatus::Open ==> s.refusal(request)
            == Some(Error::TradingClosed),
{
}

/// Only the admin may close a market before its close time; from then on its creator
/// may, too, and nobody else.
pub proof fn law_only_the_admin_closes_early(
    s: State,
    now: u64,
    caller: Address,
    market_id: u32,
)
    requires
        s.refusal(Request::CloseMarket { now, caller, market_id }) is None,
    ensures
        now < s.markets[market_id].close_time ==> s.admin == Some(caller),
        s.admin == Some(caller) || s.markets[market_id].creator == caller,
{
}

/// A report is accepted from the market's oracle alone, not before the close time, and
/// only while the market is closed; then it sets the outcome.
pub proof fn law_only_the_oracle_reports(
    s: State,
    now: u64,
    caller: Address,
    market_id: u32,
    outcome: bool,
)
    ensures
        ({
            let request = Request::OracleReport { now, caller, market_id, outcome };
            let market = s.markets[market_id];
            &&& s.refusal(request) is None <==> {
                &&& !s.paused
                &&& s.markets.contains_key(market_id)
                &&& market.status == MarketStatus::Closed
                &&& market.oracle == Some(caller)
                &&& now >= market.close_time
            }
            &&& s.refusal(request) is None ==> s.apply(request).markets[market_id].outcome == Some(
                outcome,
            )
        }),
{
}

/// The outcome of a market changes by its oracle's report or the admin's ruling on a
/// dispute, and by nothing else. This leaves out a request that gives the market's
/// number to a new market.
pub proof fn law_outcomes_come_from_the_oracle_or_the_admin(
    s: State,
    request: Request,
    market_id: u32,
)
    requires
        s.markets.contains_key(market_id),
        !(request is CreateMarket && s.market_count == market_id),
        !(request is OracleReport),
        !(request is AdminUpholdDispute),
    ensures
        s.apply(request).markets[market_id].outcome == s.markets[market_id].outcome,
{
    if s.refusal(request) is None {
        lemma_requests_keep_markets(s, request, market_id);
    }
}

/// When the admin upholds a dispute, the outcome is the admin's, whoever holds shares of
/// that side can redeem them at once, and the market can be finalized without changing
/// the outcome again.
pub proof fn law_upheld_disputes_set_the_outcome(
    s: State,
    admin: Address,
    market_id: u32,
    new_outcome: bool,
    holder: Address,
)
    requires
        !s.paused,
        s.admin == Some(admin),
        s.markets.contains_key(market_id),
        s.markets[market_id].status == MarketStatus::Disputed,
    ensures
        ({
            let ruling = Request::AdminUpholdDispute { caller: admin, market_id, new_outcome };
            let upheld = s.apply(ruling);
            let resolved = upheld.apply(Request::Finalize { market_id });
            &&& s.refusal(ruling) is None
            &&& upheld.markets[market_id].outcome == Some(new_outcome)
            &&& s.position(market_id, holder).side_shares(new_outcome) != 0 ==> upheld.refusal(
                Request::Redeem { redeemer: holder, market_id },
            ) is None
            &&& upheld.refusal(Request::Finalize { market_id }) is None
            &&& resolved.markets[market_id].status == MarketStatus::Resolved
            &&& resolved.markets[market_id].outcome == Some(new_outcome)
        }),
{
}

/// Whoever holds shares of a cancelled market can redeem them for one each.
pub proof fn law_cancelled_markets_refund(s: State, market_id: u32, holder: Address)
    requires
        !s.paused,
        s.markets.contains_key(market_id),
        s.markets[market_id].status == MarketStatus::Cancelled,
        s.position(market_id, holder).refund() > 0,
        s.position(market_id, holder).split_tokens > 0 ==> s.token is Some,
    ensures
        ({
            let request = Request::Redeem { redeemer: holder, market_id };
            let position = s.position(market_id, holder);
            let after = s.apply(request);
            &&& s.refusal(request) is None
            &&& s.redeem_value(holder, market_id) == position.yes_shares + position.no_shares
            &&& after.position(market_id, holder) == position.refunded()
            &&& after.markets == s.markets
        }),
{
}

} // verus!
