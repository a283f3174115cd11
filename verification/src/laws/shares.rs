//! Shares: what positions hold of a side is what the market has issued and what
//! splitting has made.
use crate::laws::books::{consistent, lemma_position_weight, replaces_nothing};
use crate::laws::settlement::{
    after_redeeming, fee_parts, law_redemptions_stay_within_the_pools, paid_to, settled,
    winning_held, winning_held_by,
};
use crate::model::State;
use crate::requests::Request;
use crate::sums::{lemma_sum_bounds, lemma_sum_remove, sum_over, weigh};
use crate::types::{Address, MarketView, PositionKey, PositionView, PRECISION};
use vstd::prelude::*;

verus! {

/// What a position counts for among the shares of one side of a market.
pub open spec fn side_weight(market_id: u32, yes: bool) -> spec_fn(
    PositionKey,
    PositionView,
) -> int {
    |key: PositionKey, position: PositionView|
        if key.market_id == market_id {
            position.side_shares(yes)
        } else {
            0
        }
}

/// The shares of one side of a market that positions hold, all together.
pub open spec fn side_held(
    positions: Map<PositionKey, PositionView>,
    market_id: u32,
    yes: bool,
) -> int {
    weigh(positions, side_weight(market_id, yes))
}

/// The shares of one side that a market has issued.
pub open spec fn side_issued(markets: Map<u32, MarketView>, market_id: u32, yes: bool) -> int {
    if markets.contains_key(market_id) {
        markets[market_id].side_shares(yes)
    } else {
        0
    }
}

/// The shares of one side that positions hold beyond those that the market has issued.
pub open spec fn unissued(s: State, market_id: u32, yes: bool) -> int {
    side_held(s.positions, market_id, yes) - side_issued(s.markets, market_id, yes)
}

/// The pairs of shares that a request makes by splitting in a market; negative when it
/// merges them.
pub open spec fn pairs_made(s: State, request: Request, market_id: u32) -> int {
    if s.refusal(request) is Some {
        0
    } else {
        match request {
            Request::Split { market_id: id, amount, .. } if id == market_id => amount as int,
            Request::Merge { market_id: id, amount, .. } if id == market_id => -amount,
            _ => 0,
        }
    }
}

/// Purchases hand out exactly the shares that the market issues, splitting makes as
/// many of either side, merging takes as many of either side away, and no other
/// request but a redemption makes or takes shares.
pub proof fn law_shares_are_issued_or_split(
    s: State,
    request: Request,
    market_id: u32,
    yes: bool,
)
    requires
        consistent(s),
        replaces_nothing(s, request),
        !(request is Redeem),
        !(request is BatchRedeem),
    ensures
        unissued(s.apply(request), market_id, yes) == unissued(s, market_id, yes) + pairs_made(
            s,
            request,
            market_id,
        ),
{
    if s.refusal(request) is None {
        let after = s.accepted(request);
        let weight = side_weight(market_id, yes);
        if request.holder() is Some {
            let key = PositionKey { market_id: request.market()->0, user: request.holder()->0 };
            lemma_position_weight(s, weight, key, after.positions[key]);
        } else {
            assert(after.positions == s.positions);
        }
    }
}

/// What is left of a set of positions without those of some parties in a market.
spec fn without(dom: Set<PositionKey>, market_id: u32, holders: Seq<Address>) -> Set<PositionKey>
    decreases holders.len(),
{
    if holders.len() == 0 {
        dom
    } else {
        without(dom, market_id, holders.drop_last()).remove(
            PositionKey { market_id, user: holders.last() },
        )
    }
}

/// Different parties' holdings are separate parts of what all positions hold.
proof fn lemma_holdings_are_parts(s: State, market_id: u32, holders: Seq<Address>)
    requires
        consistent(s),
        holders.no_duplicates(),
    ensures
        ({
            let yes = s.markets[market_id].outcome == Some(true);
            let weight = side_weight(market_id, yes);
            let f = |k: PositionKey| weight(k, s.positions[k]);
            let rest = without(s.positions.dom(), market_id, holders);
            &&& rest.finite()
            &&& rest.subset_of(s.positions.dom())
            &&& forall|user: Address|
                !holders.contains(user) ==> rest.contains(PositionKey { market_id, user })
                    == #[trigger] s.positions.contains_key(PositionKey { market_id, user })
            &&& winning_held_by(s, market_id, holders) + sum_over(rest, f) == sum_over(
                s.positions.dom(),
                f,
            )
        }),
    decreases holders.len(),
{
    if holders.len() > 0 {
        let yes = s.markets[market_id].outcome == Some(true);
        let weight = side_weight(market_id, yes);
        let f = |k: PositionKey| weight(k, s.positions[k]);
        let fewer = holders.drop_last();
        let last = holders.last();
        let key = PositionKey { market_id, user: last };
        assert(fewer.no_duplicates());
        lemma_holdings_are_parts(s, market_id, fewer);
        let before = without(s.positions.dom(), market_id, fewer);
        let rest = without(s.positions.dom(), market_id, holders);
        assert(!fewer.contains(last)) by {
            if fewer.contains(last) {
                let i = choose|i: int| 0 <= i < fewer.len() && fewer[i] == last;
                assert(holders[i] == holders[holders.len() - 1]);
            }
        }
        assert(before.contains(key) == s.positions.contains_key(key));
        if before.contains(key) {
            lemma_sum_remove(before, f, key);
        } else {
            assert(rest =~= before);
        }
        assert forall|user: Address| !holders.contains(user) implies rest.contains(
            PositionKey { market_id, user },
        ) == #[trigger] s.positions.contains_key(PositionKey { market_id, user }) by {
            if fewer.contains(user) {
                let i = choose|i: int| 0 <= i < fewer.len() && fewer[i] == user;
                assert(holders[i] == user);
            }
            assert(holders[holders.len() - 1] == last);
            assert(user != last);
        }
    }
}

/// Where all winning shares were issued by the market, different parties hold no more
/// of them than it has issued.
proof fn lemma_holdings_within_issue(s: State, market_id: u32, holders: Seq<Address>)
    requires
        consistent(s),
        s.markets.contains_key(market_id),
        holders.no_duplicates(),
        unissued(s, market_id, s.markets[market_id].outcome == Some(true)) <= 0,
    ensures
        winning_held_by(s, market_id, holders) <= s.markets[market_id].total_winning(),
{
    let yes = s.markets[market_id].outcome == Some(true);
    let weight = side_weight(market_id, yes);
    let f = |k: PositionKey| weight(k, s.positions[k]);
    lemma_holdings_are_parts(s, market_id, holders);
    let rest = without(s.positions.dom(), market_id, holders);
    assert forall|k: PositionKey| #[trigger] rest.contains(k) implies f(k) >= 0 by {
        assert(s.positions.contains_key(k));
    }
    lemma_sum_bounds(rest, f);
}

/// Where no pair made by splitting is outstanding, redemptions never exceed the pools:
/// whoever redeems, what they are paid and what the liquidity providers gain is no more
/// than the pools hold.
pub proof fn law_issued_shares_are_covered(s: State, market_id: u32, holders: Seq<Address>)
    requires
        consistent(s),
        settled(s, market_id),
        unissued(s, market_id, s.markets[market_id].outcome == Some(true)) <= 0,
        holders.no_duplicates(),
        forall|i: int|
            0 <= i < holders.len() ==> winning_held(s, market_id, #[trigger] holders[i]) != 0,
    ensures
        ({
            let m = s.markets[market_id];
            let after = after_redeeming(s, market_id, holders).markets[market_id];
            PRECISION * paid_to(s, market_id, holders) + fee_parts(after) - fee_parts(m)
                <= PRECISION * m.total_pool()
        }),
{
    lemma_holdings_within_issue(s, market_id, holders);
    law_redemptions_stay_within_the_pools(s, market_id, holders);
}

} // verus!
