//! Amounts of ordinary size can be computed with.
use crate::laws::books::{consistent, lemma_position_fair, sound};
use crate::math::{lemma_quotient_floors, lemma_remainder_bounds, remainder};
use crate::model::State;
use crate::requests::Request;
use crate::types::{Address, MarketStatus, MarketView, PositionView};
use vstd::prelude::*;

verus! {

/// The amount is no more than a million million million, on either side of zero.
pub open spec fn ordinary(amount: int) -> bool {
    -1_000_000_000_000_000_000 <= amount <= 1_000_000_000_000_000_000
}

/// Every amount of the market is of ordinary size.
pub open spec fn ordinary_market(market: MarketView) -> bool {
    &&& ordinary(market.yes_shares)
    &&& ordinary(market.no_shares)
    &&& ordinary(market.yes_pool)
    &&& ordinary(market.no_pool)
    &&& ordinary(market.lp_pool)
    &&& ordinary(market.total_lp_shares)
    &&& ordinary(market.lp_fees)
    &&& ordinary(market.fees_paid)
    &&& ordinary(market.dispute_bond)
}

/// Every amount of the position is of ordinary size.
pub open spec fn ordinary_position(position: PositionView) -> bool {
    &&& ordinary(position.yes_shares)
    &&& ordinary(position.no_shares)
    &&& ordinary(position.lp_shares)
    &&& ordinary(position.split_tokens)
    &&& ordinary(position.fee_taken)
}

/// Every amount that the request names is of ordinary size.
pub open spec fn ordinary_request(request: Request) -> bool {
    match request {
        Request::SeedMarket { amount, .. } => ordinary(amount as int),
        Request::Buy { amount, .. } => ordinary(amount as int),
        Request::Split { amount, .. } => ordinary(amount as int),
        Request::AddLiquidity { amount, .. } => ordinary(amount as int),
        Request::RemoveLiquidity { lp_shares, .. } => ordinary(lp_shares as int),
        _ => true,
    }
}

/// A product of two amounts of at most twice ordinary size is far from the limits.
proof fn lemma_product_bounds(a: int, b: int)
    requires
        -2_000_000_000_000_000_000 <= a <= 2_000_000_000_000_000_000,
        -2_000_000_000_000_000_000 <= b <= 2_000_000_000_000_000_000,
    ensures
        -4_000_000_000_000_000_000_000_000_000_000_000_000 <= a * b
            <= 4_000_000_000_000_000_000_000_000_000_000_000_000,
{
    let m: int = 2_000_000_000_000_000_000;
    assert(-(m * m) <= a * b <= m * m) by (nonlinear_arith)
        requires
            -m <= a <= m,
            -m <= b <= m,
    ;
    assert(m * m == 4_000_000_000_000_000_000_000_000_000_000_000_000) by (nonlinear_arith)
        requires
            m == 2_000_000_000_000_000_000,
    ;
}

/// A quotient is no farther from zero than what was divided.
proof fn lemma_quotient_bounds(a: int, b: int)
    requires
        b > 0,
    ensures
        a >= 0 ==> 0 <= crate::math::quotient(a, b) <= a,
        a <= 0 ==> a <= crate::math::quotient(a, b) <= 0,
{
    if a >= 0 {
        lemma_quotient_floors(a, b);
    }
    if a <= 0 {
        lemma_quotient_floors(-a, b);
    }
    if a == 0 {
        lemma_quotient_floors(0, b);
    }
}

proof fn lemma_purchases_fit(s: State, request: Request)
    requires
        consistent(s),
        request is Buy,
        s.markets.contains_key(request.market()->0),
        ordinary_market(s.markets[request.market()->0]),
        ordinary_position(s.position(request.market()->0, request.holder()->0)),
        ordinary_request(request),
    ensures
        s.fits(request),
{
    match request {
        Request::Buy { yes, buyer, market_id, amount, .. } => {
            let m = s.markets[market_id];
            let own = m.own_pool(yes);
            let both = m.own_pool(!yes) + own;
            assert(sound(m));
            if amount > 0 {
                lemma_product_bounds(amount as int, both);
                lemma_quotient_bounds(amount * both, own + amount);
            }
        },
        _ => {},
    }
}

proof fn lemma_redemptions_fit(s: State, redeemer: Address, market_id: u32)
    requires
        consistent(s),
        s.markets.contains_key(market_id),
        ordinary_market(s.markets[market_id]),
        ordinary_position(s.position(market_id, redeemer)),
    ensures
        s.redeem_fits(redeemer, market_id),
{
    let m = s.markets[market_id];
    let p = s.position(market_id, redeemer);
    assert(sound(m));
    lemma_position_fair(s, market_id, redeemer);
    if m.status != MarketStatus::Cancelled {
        let yes = m.outcome == Some(true);
        let h = p.side_shares(yes);
        let all = m.total_winning();
        let pool = m.total_pool();
        lemma_product_bounds(h, pool);
        if all > 0 {
            lemma_remainder_bounds(h * pool, all);
            vstd::arithmetic::mul::lemma_mul_nonnegative(h, pool);
            assert(0 <= remainder(h * pool, all) < all);
        }
        crate::laws::books::lemma_redeemed_sound(m, h);
        lemma_quotient_floors(m.payout_parts(h), crate::types::PRECISION as int);
        lemma_quotient_bounds(m.collected_dust(h), crate::types::PRECISION as int);
    }
}

proof fn lemma_liquidity_fits(s: State, request: Request)
    requires
        consistent(s),
        request is AddLiquidity || request is RemoveLiquidity || request is ClaimLpFees,
        s.markets.contains_key(request.market()->0),
        ordinary_market(s.markets[request.market()->0]),
        ordinary_position(s.position(request.market()->0, request.holder()->0)),
        ordinary_request(request),
    ensures
        s.fits(request),
{
    let id = request.market()->0;
    let m = s.markets[id];
    let p = s.position(id, request.holder()->0);
    assert(sound(m));
    lemma_position_fair(s, id, request.holder()->0);
    match request {
        Request::AddLiquidity { amount, .. } => {
            lemma_product_bounds(amount as int, m.total_lp_shares);
            if m.lp_pool > 0 {
                lemma_quotient_bounds(amount * m.total_lp_shares, m.lp_pool);
            }
        },
        Request::RemoveLiquidity { lp_shares, .. } => {
            lemma_product_bounds(lp_shares as int, m.lp_pool);
            lemma_product_bounds(p.fee_taken, lp_shares as int);
            if m.total_lp_shares > 0 {
                lemma_quotient_bounds(lp_shares * m.lp_pool, m.total_lp_shares);
            }
            if p.lp_shares > 0 {
                lemma_quotient_bounds(p.fee_taken * lp_shares, p.lp_shares);
            }
        },
        _ => {
            let base = crate::math::greatest(m.total_lp_shares, 1);
            lemma_product_bounds(p.lp_shares, m.credited());
            lemma_quotient_bounds(p.lp_shares * m.credited(), base);
        },
    }
}

/// Where every amount of the market, of the position and of the request itself is of
/// ordinary size, no computation leaves its range, and the request gets its answer.
pub proof fn law_ordinary_amounts_fit(s: State, request: Request)
    requires
        consistent(s),
        request.market() is Some,
        s.markets.contains_key(request.market()->0),
        ordinary_market(s.markets[request.market()->0]),
        request.holder() is Some ==> ordinary_position(
            s.position(request.market()->0, request.holder()->0),
        ),
        ordinary(s.treasury_balance),
        ordinary_request(request),
    ensures
        s.fits(request),
{
    match request {
        Request::Buy { .. } => {
            lemma_purchases_fit(s, request);
        },
        Request::Redeem { redeemer, market_id } => {
            lemma_redemptions_fit(s, redeemer, market_id);
        },
        Request::AddLiquidity { .. } | Request::RemoveLiquidity { .. }
        | Request::ClaimLpFees { .. } => {
            lemma_liquidity_fits(s, request);
        },
        _ => {},
    }
}

/// The sums and products that the request is about do not exceed the largest amount.
pub open spec fn within_limits(s: State, request: Request) -> bool {
    let m = s.markets[request.market()->0];
    let p = s.position(request.market()->0, request.holder()->0);
    match request {
        Request::SeedMarket { amount, .. } => {
            &&& m.yes_pool + amount <= i128::MAX
            &&& m.no_pool + amount <= i128::MAX
        },
        Request::AdminRejectDispute { .. } => i128::MIN <= s.treasury_balance + m.dispute_bond
            <= i128::MAX,
        Request::Buy { yes, amount, .. } => {
            let q = m.quote(yes, amount as int);
            &&& amount * (m.yes_pool + m.no_pool) <= i128::MAX
            &&& m.yes_pool + m.no_pool <= i128::MAX
            &&& yes ==> {
                &&& m.yes_pool + amount <= i128::MAX
                &&& m.yes_shares + q <= i128::MAX
                &&& p.yes_shares + q <= i128::MAX
            }
            &&& !yes ==> {
                &&& m.no_pool + amount <= i128::MAX
                &&& m.no_shares + q <= i128::MAX
                &&& p.no_shares + q <= i128::MAX
            }
        },
        Request::Split { amount, .. } => {
            &&& p.yes_shares + amount <= i128::MAX
            &&& p.no_shares + amount <= i128::MAX
            &&& p.split_tokens + amount <= i128::MAX
        },
        Request::Redeem { .. } => {
            let pools = m.yes_pool + m.no_pool;
            &&& p.yes_shares + p.no_shares <= i128::MAX
            &&& pools <= i128::MAX
            &&& m.lp_fees < i128::MAX - 1
            &&& m.outcome == Some(true) ==> p.yes_shares * pools <= i128::MAX && 10_000_000
                * m.yes_shares <= i128::MAX
            &&& m.outcome != Some(true) ==> p.no_shares * pools <= i128::MAX && 10_000_000
                * m.no_shares <= i128::MAX
        },
        Request::AddLiquidity { amount, .. } => {
            let minted = m.lp_minted(amount as int);
            &&& amount * m.total_lp_shares <= i128::MAX
            &&& m.lp_pool + amount <= i128::MAX
            &&& m.yes_pool + amount as int / 2 <= i128::MAX
            &&& m.no_pool + amount as int / 2 <= i128::MAX
            &&& m.total_lp_shares + minted <= i128::MAX
            &&& p.lp_shares + minted <= i128::MAX
        },
        Request::RemoveLiquidity { lp_shares, .. } => {
            &&& lp_shares >= 0
            &&& lp_shares * m.lp_pool <= i128::MAX
            &&& p.fee_taken * lp_shares <= i128::MAX
            &&& m.lp_pool <= i128::MAX
            &&& m.total_lp_shares <= i128::MAX
            &&& m.fees_paid <= i128::MAX
        },
        Request::ClaimLpFees { .. } => {
            &&& m.lp_fees + m.fees_paid <= i128::MAX
            &&& p.lp_shares * (m.lp_fees + m.fees_paid) <= i128::MAX
        },
        _ => true,
    }
}

proof fn lemma_purchases_fit_up_to_the_limits(s: State, request: Request)
    requires
        consistent(s),
        request is Buy,
        s.markets.contains_key(request.market()->0),
        within_limits(s, request),
    ensures
        s.fits(request),
{
    match request {
        Request::Buy { yes, buyer, market_id, amount, .. } => {
            let m = s.markets[market_id];
            let own = m.own_pool(yes);
            let both = m.own_pool(!yes) + own;
            assert(sound(m));
            lemma_position_fair(s, market_id, buyer);
            if amount > 0 {
                vstd::arithmetic::mul::lemma_mul_nonnegative(amount as int, both);
                lemma_quotient_bounds(amount * both, own + amount);
            }
        },
        _ => {},
    }
}

proof fn lemma_redemptions_fit_up_to_the_limits(s: State, redeemer: Address, market_id: u32)
    requires
        consistent(s),
        s.markets.contains_key(market_id),
        within_limits(s, Request::Redeem { redeemer, market_id }),
    ensures
        s.redeem_fits(redeemer, market_id),
{
    let m = s.markets[market_id];
    let p = s.position(market_id, redeemer);
    assert(sound(m));
    lemma_position_fair(s, market_id, redeemer);
    if m.status != MarketStatus::Cancelled {
        let yes = m.outcome == Some(true);
        let h = p.side_shares(yes);
        let all = m.total_winning();
        let pool = m.total_pool();
        vstd::arithmetic::mul::lemma_mul_nonnegative(h, pool);
        if all > 0 {
            lemma_remainder_bounds(h * pool, all);
        }
        crate::laws::books::lemma_redeemed_sound(m, h);
        lemma_quotient_floors(m.payout_parts(h), crate::types::PRECISION as int);
        lemma_quotient_floors(m.collected_dust(h), crate::types::PRECISION as int);
    }
}

proof fn lemma_liquidity_fits_up_to_the_limits(s: State, request: Request)
    requires
        consistent(s),
        request is AddLiquidity || request is RemoveLiquidity || request is ClaimLpFees,
        s.markets.contains_key(request.market()->0),
        within_limits(s, request),
    ensures
        s.fits(request),
{
    let id = request.market()->0;
    let m = s.markets[id];
    let p = s.position(id, request.holder()->0);
    assert(sound(m));
    lemma_position_fair(s, id, request.holder()->0);
    match request {
        Request::AddLiquidity { amount, .. } => {
            if amount > 0 {
                vstd::arithmetic::mul::lemma_mul_nonnegative(amount as int, m.total_lp_shares);
                if m.lp_pool > 0 {
                    lemma_quotient_bounds(amount * m.total_lp_shares, m.lp_pool);
                }
            }
        },
        Request::RemoveLiquidity { lp_shares, .. } => {
            let x = lp_shares as int;
            vstd::arithmetic::mul::lemma_mul_nonnegative(x, m.lp_pool);
            vstd::arithmetic::mul::lemma_mul_nonnegative(p.fee_taken, x);
            if x <= p.lp_shares {
                crate::laws::books::lemma_removed_sound(m, x);
                crate::laws::books::lemma_taken_bounds(p, x);
            }
            if p.lp_shares > 0 {
                lemma_quotient_bounds(p.fee_taken * lp_shares, p.lp_shares);
            }
        },
        _ => {
            let base = crate::math::greatest(m.total_lp_shares, 1);
            vstd::arithmetic::mul::lemma_mul_nonnegative(p.lp_shares, m.credited());
            lemma_quotient_bounds(p.lp_shares * m.credited(), base);
        },
    }
}

/// A request gets its answer up to the limits of what can be represented: it is enough
/// that the sums and products that it is about do not exceed the largest amount.
pub proof fn law_requests_fit_up_to_the_limits(s: State, request: Request)
    requires
        consistent(s),
        request.market() is Some,
        s.markets.contains_key(request.market()->0),
        within_limits(s, request),
    ensures
        s.fits(request),
{
    let id = request.market()->0;
    assert(sound(s.markets[id]));
    match request {
        Request::Buy { .. } => {
            lemma_purchases_fit_up_to_the_limits(s, request);
        },
        Request::Redeem { redeemer, market_id } => {
            lemma_redemptions_fit_up_to_the_limits(s, redeemer, market_id);
        },
        Request::AddLiquidity { .. } | Request::RemoveLiquidity { .. }
        | Request::ClaimLpFees { .. } => {
            lemma_liquidity_fits_up_to_the_limits(s, request);
        },
        Request::Split { caller, .. } => {
            lemma_position_fair(s, id, caller);
        },
        _ => {},
    }
}

/// Markets can be created until all but the last of the 32-bit numbers are given out.
pub proof fn law_creation_fits(
    s: State,
    now: u64,
    creator: Address,
    question: Seq<u8>,
    oracle: Address,
    close_time: u64,
    resolution_deadline: u64,
)
    requires
        s.market_count < 0xffff_ffff,
    ensures
        s.fits(
            Request::CreateMarket {
                now,
                creator,
                question,
                oracle,
                close_time,
                resolution_deadline,
            },
        ),
{
}

} // verus!
