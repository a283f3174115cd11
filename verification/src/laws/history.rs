//! Whole histories: what holds of a contract after any series of requests.
use crate::contract::PredictionMarket;
use crate::events::custody;
use crate::laws::access::{law_markets_are_numbered, numbered};
use crate::laws::books::{consistent, law_books_start_in_order, law_books_stay_in_order};
use crate::laws::custody::{bond_weight, law_collateral_is_accounted_for, owed, split_weight};
use crate::model::State;
use crate::requests::Request;
use crate::sums::lemma_weigh_empty;
use crate::types::{MarketView, PositionKey, PositionView};
use vstd::prelude::*;

verus! {

/// The state of a contract that has not been asked anything.
pub open spec fn blank() -> State {
    State {
        admin: None,
        treasury: None,
        token: None,
        paused: false,
        market_count: 0,
        treasury_balance: 0,
        markets: Map::empty(),
        positions: Map::empty(),
        effects: Seq::empty(),
    }
}

/// The state after a series of requests, in order.
pub open spec fn after_all(s: State, requests: Seq<Request>) -> State
    decreases requests.len(),
{
    if requests.len() == 0 {
        s
    } else {
        after_all(s, requests.drop_last()).apply(requests.last())
    }
}

/// Every amount that the requests compute can be represented, and the contract is not
/// initialized after markets have been created.
pub open spec fn orderly(s: State, requests: Seq<Request>) -> bool
    decreases requests.len(),
{
    requests.len() > 0 ==> {
        let before = after_all(s, requests.drop_last());
        &&& orderly(s, requests.drop_last())
        &&& before.fits(requests.last())
        &&& requests.last() is Init && before.admin is None ==> before.market_count == 0
    }
}

/// A contract keeps finitely many records.
pub proof fn law_records_are_finite(contract: PredictionMarket)
    ensures
        contract@.markets.dom().finite(),
        contract@.positions.dom().finite(),
{
    contract.markets.lemma_finite();
    contract.positions.lemma_finite();
}

/// After any orderly history of a new contract its books are in order and its markets
/// are numbered without a gap.
pub proof fn law_histories_keep_the_books(requests: Seq<Request>)
    requires
        orderly(blank(), requests),
    ensures
        consistent(after_all(blank(), requests)),
        numbered(after_all(blank(), requests)),
    decreases requests.len(),
{
    if requests.len() == 0 {
        law_books_start_in_order(blank());
    } else {
        let before = after_all(blank(), requests.drop_last());
        law_histories_keep_the_books(requests.drop_last());
        assert(before.markets.contains_key(before.market_count) <==> before.market_count
            < before.market_count);
        law_books_stay_in_order(before, requests.last());
        law_markets_are_numbered(before, requests.last());
    }
}

/// After any orderly history of a new contract the tokens in its custody are exactly
/// those it owes: the collateral of split pairs, the bonds of disputes, and the balance
/// of the treasury.
pub proof fn law_histories_keep_collateral(requests: Seq<Request>)
    requires
        orderly(blank(), requests),
    ensures
        custody(after_all(blank(), requests).effects) == owed(after_all(blank(), requests)),
    decreases requests.len(),
{
    if requests.len() == 0 {
        lemma_weigh_empty::<PositionKey, PositionView>(split_weight());
        lemma_weigh_empty::<u32, MarketView>(bond_weight());
    } else {
        let fewer = requests.drop_last();
        let before = after_all(blank(), fewer);
        law_histories_keep_collateral(fewer);
        law_histories_keep_the_books(fewer);
        assert(before.markets.contains_key(before.market_count) <==> before.market_count
            < before.market_count);
        law_collateral_is_accounted_for(before, requests.last());
    }
}

} // verus!
