//! The books: amounts that stay within bounds, and liquidity shares that add up.
use crate::math::lemma_quotient_floors;
use crate::model::{no_position, shares_bought, State};
use crate::requests::Request;
use crate::sums::{lemma_sum_bounds, lemma_weigh_empty, lemma_weigh_insert, weigh};
use crate::types::{
    Address, MarketStatus, MarketView, PositionKey, PositionView, MIN_DISPUTE_BOND, PRECISION,
};
use vstd::prelude::*;

verus! {

/// What holds of every market: no amount is negative, dust is less than a unit, the
/// liquidity pool holds value exactly while there are shares in it, an outcome is
/// known whenever the market is past reporting, and a bond is held while a dispute
/// waits or was upheld, and not while the market is open or closed. While it is open
/// there are no fees.
pub open spec fn sound(market: MarketView) -> bool {
    &&& market.yes_shares >= 0
    &&& market.no_shares >= 0
    &&& market.yes_pool >= 0
    &&& market.no_pool >= 0
    &&& market.lp_pool >= 0
    &&& market.total_lp_shares >= 0
    &&& market.lp_pool == 0 <==> market.total_lp_shares == 0
    &&& market.lp_fees >= 0
    &&& market.fees_paid >= 0
    &&& 0 <= market.dust < PRECISION
    &&& market.close_time < market.resolution_deadline
    &&& market.dispute_bond >= 0
    &&& market.status == MarketStatus::Open ==> {
        &&& market.outcome is None
        &&& market.lp_fees == 0
        &&& market.fees_paid == 0
    }
    &&& market.status == MarketStatus::Open || market.status == MarketStatus::Closed ==> {
        &&& market.dispute_bond == 0
        &&& market.disputer is None
    }
    &&& market.status == MarketStatus::Disputed || market.status
        == MarketStatus::EmergencyResolved ==> {
        &&& market.dispute_bond >= MIN_DISPUTE_BOND
        &&& market.disputer is Some
        &&& market.outcome is Some
    }
    &&& market.status == MarketStatus::Resolved ==> market.outcome is Some
}

/// What holds of every position: it holds no negative amount.
pub open spec fn fair(position: PositionView) -> bool {
    &&& position.yes_shares >= 0
    &&& position.no_shares >= 0
    &&& position.lp_shares >= 0
    &&& 0 <= position.split_tokens <= i128::MAX
    &&& position.fee_taken >= 0
}

/// What a position counts for among the liquidity shares of a market.
pub open spec fn lp_weight(market_id: u32) -> spec_fn(PositionKey, PositionView) -> int {
    |key: PositionKey, position: PositionView|
        if key.market_id == market_id {
            position.lp_shares
        } else {
            0
        }
}

/// The liquidity shares of a market that positions hold, all together.
pub open spec fn lp_held(positions: Map<PositionKey, PositionView>, market_id: u32) -> int {
    weigh(positions, lp_weight(market_id))
}

/// The liquidity shares that a market has issued.
pub open spec fn lp_issued(markets: Map<u32, MarketView>, market_id: u32) -> int {
    if markets.contains_key(market_id) {
        markets[market_id].total_lp_shares
    } else {
        0
    }
}

/// What a position counts for among the fees that were paid in a market.
pub open spec fn taken_weight(market_id: u32) -> spec_fn(PositionKey, PositionView) -> int {
    |key: PositionKey, position: PositionView|
        if key.market_id == market_id {
            position.fee_taken
        } else {
            0
        }
}

/// The fees that positions in a market were paid for their shares, all together.
pub open spec fn fees_taken(positions: Map<PositionKey, PositionView>, market_id: u32) -> int {
    weigh(positions, taken_weight(market_id))
}

/// The fees that a market has paid for the shares that are outstanding.
pub open spec fn fees_given(markets: Map<u32, MarketView>, market_id: u32) -> int {
    if markets.contains_key(market_id) {
        markets[market_id].fees_paid
    } else {
        0
    }
}

/// What holds of the state as a whole: every market is sound, every position is fair,
/// the liquidity shares of each market are exactly those that positions hold, and the
/// fees that it has paid for them exactly those that positions were paid.
pub open spec fn consistent(s: State) -> bool {
    &&& s.markets.dom().finite()
    &&& s.positions.dom().finite()
    &&& forall|id: u32| #[trigger] s.markets.contains_key(id) ==> sound(s.markets[id])
    &&& forall|key: PositionKey| #[trigger]
        s.positions.contains_key(key) ==> fair(s.positions[key])
    &&& forall|id: u32| #[trigger] lp_held(s.positions, id) == lp_issued(s.markets, id)
    &&& forall|id: u32| #[trigger] fees_taken(s.positions, id) == fees_given(s.markets, id)
}

/// What a request must respect for the books to be kept: a new market does not take
/// the place of an old one.
pub open spec fn replaces_nothing(s: State, request: Request) -> bool {
    request is CreateMarket ==> !s.markets.contains_key(s.market_count)
}

/// A position is fair, and has no more than all of a market's liquidity shares and paid
/// fees.
pub proof fn lemma_position_fair(s: State, market_id: u32, user: Address)
    requires
        consistent(s),
    ensures
        fair(s.position(market_id, user)),
        s.markets.contains_key(market_id) ==> {
            &&& s.position(market_id, user).lp_shares <= s.markets[market_id].total_lp_shares
            &&& s.position(market_id, user).fee_taken <= s.markets[market_id].fees_paid
        },
{
    let key = PositionKey { market_id, user };
    let lp = lp_weight(market_id);
    let taken = taken_weight(market_id);
    let f = |k: PositionKey| lp(k, s.positions[k]);
    let g = |k: PositionKey| taken(k, s.positions[k]);
    assert forall|k: PositionKey| #[trigger] s.positions.dom().contains(k) implies f(k) >= 0
        && g(k) >= 0 by {
        assert(s.positions.contains_key(k));
    }
    lemma_sum_bounds(s.positions.dom(), f);
    lemma_sum_bounds(s.positions.dom(), g);
    assert(lp_held(s.positions, market_id) == lp_issued(s.markets, market_id));
    assert(fees_taken(s.positions, market_id) == fees_given(s.markets, market_id));
    if s.positions.contains_key(key) {
        assert(s.positions.dom().contains(key));
        assert(f(key) == s.positions[key].lp_shares);
        assert(g(key) == s.positions[key].fee_taken);
    }
}

/// Writing a sound market that counts as many liquidity shares and paid fees keeps the
/// books.
proof fn lemma_market_written(s: State, after: State, market_id: u32, market: MarketView)
    requires
        consistent(s),
        sound(market),
        market.total_lp_shares == lp_issued(s.markets, market_id),
        market.fees_paid == fees_given(s.markets, market_id),
        after.markets == s.markets.insert(market_id, market),
        after.positions == s.positions,
    ensures
        consistent(after),
{
    assert forall|id: u32| #[trigger] lp_held(after.positions, id) == lp_issued(
        after.markets,
        id,
    ) by {
        assert(lp_held(s.positions, id) == lp_issued(s.markets, id));
    }
    assert forall|id: u32| #[trigger] fees_taken(after.positions, id) == fees_given(
        after.markets,
        id,
    ) by {
        assert(fees_taken(s.positions, id) == fees_given(s.markets, id));
    }
    assert forall|id: u32| #[trigger] after.markets.contains_key(id) implies sound(
        after.markets[id],
    ) by {
        if id != market_id {
            assert(s.markets.contains_key(id));
        }
    }
}

/// What writing a position does to a sum over positions in which an empty position
/// counts for nothing.
pub proof fn lemma_position_weight(
    s: State,
    weight: spec_fn(PositionKey, PositionView) -> int,
    key: PositionKey,
    position: PositionView,
)
    requires
        s.positions.dom().finite(),
        weight(key, no_position()) == 0,
    ensures
        s.positions.insert(key, position).dom().finite(),
        weigh(s.positions.insert(key, position), weight) == weigh(s.positions, weight) - weight(
            key,
            s.position(key.market_id, key.user),
        ) + weight(key, position),
{
    lemma_weigh_insert(s.positions, weight, key, position);
    assert(key == PositionKey { market_id: key.market_id, user: key.user });
}

/// Writing a fair position and a sound market whose liquidity shares and paid fees
/// change together keeps the books.
proof fn lemma_position_written(
    s: State,
    after: State,
    market_id: u32,
    user: Address,
    market: MarketView,
    position: PositionView,
)
    requires
        consistent(s),
        s.markets.contains_key(market_id),
        sound(market),
        fair(position),
        market.total_lp_shares - s.markets[market_id].total_lp_shares == position.lp_shares
            - s.position(market_id, user).lp_shares,
        market.fees_paid - s.markets[market_id].fees_paid == position.fee_taken - s.position(
            market_id,
            user,
        ).fee_taken,
        after.markets == s.markets.insert(market_id, market),
        after.positions == s.positions.insert(PositionKey { market_id, user }, position),
    ensures
        consistent(after),
{
    let key = PositionKey { market_id, user };
    assert forall|id: u32| #[trigger] lp_held(after.positions, id) == lp_issued(
        after.markets,
        id,
    ) by {
        assert(lp_held(s.positions, id) == lp_issued(s.markets, id));
        lemma_position_weight(s, lp_weight(id), key, position);
    }
    assert forall|id: u32| #[trigger] fees_taken(after.positions, id) == fees_given(
        after.markets,
        id,
    ) by {
        assert(fees_taken(s.positions, id) == fees_given(s.markets, id));
        lemma_position_weight(s, taken_weight(id), key, position);
    }
    lemma_position_weight(s, lp_weight(market_id), key, position);
    assert forall|id: u32| #[trigger] after.markets.contains_key(id) implies sound(
        after.markets[id],
    ) by {
        if id != market_id {
            assert(s.markets.contains_key(id));
        }
    }
    assert forall|k: PositionKey| #[trigger] after.positions.contains_key(k) implies fair(
        after.positions[k],
    ) by {
        if k != key {
            assert(s.positions.contains_key(k));
        }
    }
}

/// An empty contract's books are in order.
pub proof fn law_books_start_in_order(s: State)
    requires
        s.markets == Map::<u32, MarketView>::empty(),
        s.positions == Map::<PositionKey, PositionView>::empty(),
    ensures
        consistent(s),
{
    assert forall|id: u32| #[trigger] lp_held(s.positions, id) == lp_issued(s.markets, id) by {
        lemma_weigh_empty(lp_weight(id));
    }
    assert forall|id: u32| #[trigger] fees_taken(s.positions, id) == fees_given(
        s.markets,
        id,
    ) by {
        lemma_weigh_empty(taken_weight(id));
    }
}

/// What a buyer gets from pools that hold no negative amount is not negative.
proof fn lemma_shares_not_negative(amount: int, own_pool: int, other_pool: int)
    requires
        amount > 0,
        own_pool >= 0,
        other_pool >= 0,
    ensures
        shares_bought(amount, own_pool, other_pool) >= 0,
{
    vstd::arithmetic::mul::lemma_mul_nonnegative(amount, other_pool + own_pool);
    lemma_quotient_floors(amount * (other_pool + own_pool), own_pool + amount);
}

/// A redemption keeps a market sound and takes none of its fees.
pub proof fn lemma_redeemed_sound(market: MarketView, held: int)
    requires
        sound(market),
        held >= 0,
    ensures
        market.status != MarketStatus::Open ==> sound(market.redeemed(held)),
        market.redeemed(held).lp_fees >= market.lp_fees,
        market.payout_parts(held) >= 0,
        market.payout(held) >= 0,
{
    if market.total_winning() > 0 {
        vstd::arithmetic::mul::lemma_mul_nonnegative(held * PRECISION, market.total_pool());
        lemma_quotient_floors(
            held * PRECISION * market.total_pool(),
            market.total_winning(),
        );
    }
    lemma_quotient_floors(market.payout_parts(held), PRECISION as int);
    lemma_quotient_floors(market.collected_dust(held), PRECISION as int);
}

/// A deposit of liquidity keeps a market sound and mints no negative number of shares.
proof fn lemma_added_sound(market: MarketView, amount: int)
    requires
        sound(market),
        amount > 0,
    ensures
        market.lp_minted(amount) >= 0,
        sound(
            MarketView {
                lp_pool: market.lp_pool + amount,
                total_lp_shares: market.total_lp_shares + market.lp_minted(amount),
                yes_pool: market.yes_pool + amount / 2,
                no_pool: market.no_pool + amount / 2,
                ..market
            },
        ),
{
    if market.lp_pool != 0 {
        vstd::arithmetic::mul::lemma_mul_nonnegative(amount, market.total_lp_shares);
        lemma_quotient_floors(amount * market.total_lp_shares, market.lp_pool);
    }
}

/// A withdrawal of liquidity that holds no more than all shares keeps a market sound.
pub proof fn lemma_removed_sound(market: MarketView, lp_shares: int)
    requires
        sound(market),
        lp_shares <= market.total_lp_shares,
    ensures
        sound(
            MarketView {
                lp_pool: market.lp_pool - market.lp_value(lp_shares),
                total_lp_shares: market.total_lp_shares - lp_shares,
                ..market
            },
        ),
        lp_shares == market.total_lp_shares ==> market.lp_value(lp_shares) == market.lp_pool,
        0 <= lp_shares < market.total_lp_shares ==> 0 <= market.lp_value(lp_shares)
            < market.lp_pool,
        lp_shares < 0 ==> market.lp_value(lp_shares) <= 0,
{
    let all = market.total_lp_shares;
    let pool = market.lp_pool;
    if all > 0 {
        if lp_shares >= 0 {
            vstd::arithmetic::mul::lemma_mul_nonnegative(lp_shares, pool);
            lemma_quotient_floors(lp_shares * pool, all);
            if lp_shares == all {
                vstd::arithmetic::div_mod::lemma_div_multiples_vanish(pool, all);
            } else {
                let value = market.lp_value(lp_shares);
                assert(value < pool) by (nonlinear_arith)
                    requires
                        all * value <= lp_shares * pool,
                        lp_shares < all,
                        pool > 0,
                        all > 0,
                ;
            }
        } else {
            assert(lp_shares * pool == -(-lp_shares * pool)) by (nonlinear_arith);
            vstd::arithmetic::mul::lemma_mul_nonnegative(-lp_shares, pool);
            lemma_quotient_floors(-lp_shares * pool, all);
        }
    }
}

/// The fees that were paid for shares that are given up are no more than all that the
/// position was paid.
pub proof fn lemma_taken_bounds(position: PositionView, lp_shares: int)
    requires
        fair(position),
        lp_shares <= position.lp_shares,
    ensures
        position.taken_for(lp_shares) <= position.fee_taken,
        lp_shares >= 0 ==> position.taken_for(lp_shares) >= 0,
        lp_shares == position.lp_shares && lp_shares > 0 ==> position.taken_for(lp_shares)
            == position.fee_taken,
        position.fee_taken == 0 ==> position.taken_for(lp_shares) == 0,
{
    let taken = position.fee_taken;
    let all = position.lp_shares;
    if all > 0 {
        if lp_shares >= 0 {
            vstd::arithmetic::mul::lemma_mul_nonnegative(taken, lp_shares);
            lemma_quotient_floors(taken * lp_shares, all);
            let part = position.taken_for(lp_shares);
            assert(part <= taken) by (nonlinear_arith)
                requires
                    all * part <= taken * lp_shares,
                    lp_shares <= all,
                    taken >= 0,
                    all > 0,
            ;
            if lp_shares == all {
                vstd::arithmetic::div_mod::lemma_div_multiples_vanish(taken, all);
                vstd::arithmetic::mul::lemma_mul_is_commutative(taken, all);
            }
        } else {
            assert(taken * lp_shares == -(taken * -lp_shares)) by (nonlinear_arith);
            vstd::arithmetic::mul::lemma_mul_nonnegative(taken, -lp_shares);
            lemma_quotient_floors(taken * -lp_shares, all);
        }
    }
}

/// A single redemption keeps the books.
pub proof fn lemma_redeem_keeps_books(s: State, redeemer: Address, market_id: u32)
    requires
        consistent(s),
        s.redeem_refusal(redeemer, market_id) is None,
    ensures
        consistent(s.after_redeem(redeemer, market_id)),
{
    let after = s.after_redeem(redeemer, market_id);
    let market = s.markets[market_id];
    let position = s.position(market_id, redeemer);
    lemma_position_fair(s, market_id, redeemer);
    assert(s.markets.contains_key(market_id));
    if market.status == MarketStatus::Cancelled {
        assert(s.markets.insert(market_id, market) =~= s.markets);
        lemma_position_written(s, after, market_id, redeemer, market, position.refunded());
    } else {
        let yes = market.outcome == Some(true);
        lemma_redeemed_sound(market, position.side_shares(yes));
        lemma_position_written(
            s,
            after,
            market_id,
            redeemer,
            market.redeemed(position.side_shares(yes)),
            position.with_side(yes, 0),
        );
    }
}

proof fn lemma_batch_keeps_books(s: State, redeemer: Address, market_ids: Seq<u32>)
    requires
        consistent(s),
    ensures
        consistent(s.after_batch(redeemer, market_ids)),
    decreases market_ids.len(),
{
    if market_ids.len() > 0 {
        let before = s.after_batch(redeemer, market_ids.drop_last());
        lemma_batch_keeps_books(s, redeemer, market_ids.drop_last());
        if before.redeem_refusal(redeemer, market_ids.last()) is None {
            lemma_redeem_keeps_books(before, redeemer, market_ids.last());
        }
    }
}

/// Every request that does not put a new market in the place of an old one keeps the
/// books in order.
pub proof fn law_books_stay_in_order(s: State, request: Request)
    requires
        consistent(s),
        s.fits(request),
        replaces_nothing(s, request),
    ensures
        consistent(s.apply(request)),
{
    if s.refusal(request) is None {
        lemma_accepted_keeps_books(s, request);
    }
}

proof fn lemma_trade_keeps_books(s: State, request: Request)
    requires
        consistent(s),
        s.fits(request),
        s.refusal(request) is None,
        request is Buy || request is Split || request is Merge,
    ensures
        consistent(s.accepted(request)),
{
    let after = s.accepted(request);
    match request {
        Request::Buy { yes, buyer, market_id, amount, .. } => {
            let market = s.markets[market_id];
            lemma_position_fair(s, market_id, buyer);
            assert(s.markets.contains_key(market_id));
            lemma_shares_not_negative(
                amount as int,
                market.own_pool(yes),
                market.own_pool(!yes),
            );
            let shares = market.quote(yes, amount as int);
            let position = s.position(market_id, buyer);
            lemma_position_written(
                s,
                after,
                market_id,
                buyer,
                market.traded(yes, amount as int, shares),
                position.with_side(yes, position.side_shares(yes) + shares),
            );
        },
        Request::Split { caller, market_id, amount } => {
            let market = s.markets[market_id];
            lemma_position_fair(s, market_id, caller);
            assert(s.markets.contains_key(market_id));
            assert(s.markets.insert(market_id, market) =~= s.markets);
            lemma_position_written(
                s,
                after,
                market_id,
                caller,
                market,
                s.position(market_id, caller).split(amount as int),
            );
        },
        Request::Merge { caller, market_id, amount } => {
            let market = s.markets[market_id];
            lemma_position_fair(s, market_id, caller);
            assert(s.markets.contains_key(market_id));
            assert(s.markets.insert(market_id, market) =~= s.markets);
            lemma_position_written(
                s,
                after,
                market_id,
                caller,
                market,
                s.position(market_id, caller).merged(amount as int),
            );
        },
        _ => {},
    }
}

proof fn lemma_liquidity_keeps_books(s: State, request: Request)
    requires
        consistent(s),
        s.fits(request),
        s.refusal(request) is None,
        request is AddLiquidity || request is RemoveLiquidity || request is ClaimLpFees,
    ensures
        consistent(s.accepted(request)),
{
    let after = s.accepted(request);
    match request {
        Request::AddLiquidity { provider, market_id, amount, .. } => {
            let market = s.markets[market_id];
            lemma_position_fair(s, market_id, provider);
            assert(s.markets.contains_key(market_id));
            lemma_added_sound(market, amount as int);
            lemma_position_written(
                s,
                after,
                market_id,
                provider,
                after.markets[market_id],
                after.position(market_id, provider),
            );
        },
        Request::RemoveLiquidity { provider, market_id, lp_shares } => {
            let market = s.markets[market_id];
            lemma_position_fair(s, market_id, provider);
            assert(s.markets.contains_key(market_id));
            lemma_removed_sound(market, lp_shares as int);
            lemma_taken_bounds(s.position(market_id, provider), lp_shares as int);
            lemma_position_written(
                s,
                after,
                market_id,
                provider,
                after.markets[market_id],
                after.position(market_id, provider),
            );
        },
        Request::ClaimLpFees { provider, market_id } => {
            lemma_position_fair(s, market_id, provider);
            assert(s.markets.contains_key(market_id));
            lemma_position_written(
                s,
                after,
                market_id,
                provider,
                after.markets[market_id],
                after.position(market_id, provider),
            );
        },
        _ => {},
    }
}

proof fn lemma_lifecycle_keeps_books(s: State, request: Request)
    requires
        consistent(s),
        s.fits(request),
        s.refusal(request) is None,
        request.market() is Some,
        request.holder() is None,
    ensures
        consistent(s.accepted(request)),
{
    let after = s.accepted(request);
    let market_id = request.market()->0;
    assert(s.markets.contains_key(market_id));
    assert(sound(after.markets[market_id]));
    lemma_market_written(s, after, market_id, after.markets[market_id]);
}

proof fn lemma_accepted_keeps_books(s: State, request: Request)
    requires
        consistent(s),
        s.fits(request),
        replaces_nothing(s, request),
        s.refusal(request) is None,
    ensures
        consistent(s.accepted(request)),
{
    let after = s.accepted(request);
    match request {
        Request::BatchRedeem { redeemer, market_ids } => {
            lemma_batch_keeps_books(s, redeemer, market_ids);
        },
        Request::Redeem { redeemer, market_id } => {
            lemma_redeem_keeps_books(s, redeemer, market_id);
        },
        Request::CreateMarket { .. } => {
            let id = s.market_count;
            assert(lp_held(s.positions, id) == lp_issued(s.markets, id));
            lemma_market_written(s, after, id, after.markets[id]);
        },
        Request::Buy { .. } | Request::Split { .. } | Request::Merge { .. } => {
            lemma_trade_keeps_books(s, request);
        },
        Request::AddLiquidity { .. } | Request::RemoveLiquidity { .. }
        | Request::ClaimLpFees { .. } => {
            lemma_liquidity_keeps_books(s, request);
        },
        Request::Init { .. } | Request::Pause { .. } | Request::Unpause { .. }
        | Request::Upgrade { .. } => {
            assert(after.markets == s.markets && after.positions == s.positions);
        },
        _ => {
            lemma_lifecycle_keeps_books(s, request);
        },
    }
}

} // verus!
