//! Prices: what a purchase, a deposit of liquidity, a withdrawal and a claim are
//! worth.
use crate::laws::books::{consistent, lemma_position_fair, lemma_removed_sound, sound};
use crate::math::{lemma_quotient_floors, lemma_quotient_ordered, quotient};
use crate::model::{shares_bought, State};
use crate::requests::Request;
use crate::types::{Address, MarketView};
use vstd::prelude::*;

verus! {

/// The first purchase in a market without any pool gets one share for each unit.
pub proof fn law_first_buyer_pays_one_for_one(amount: int)
    ensures
        shares_bought(amount, 0, 0) == amount,
{
}

/// A purchase gets no more shares than both pools hold together, and a larger
/// purchase gets at least as many as a smaller one.
pub proof fn law_purchases_are_bounded_and_ordered(
    smaller: int,
    larger: int,
    own_pool: int,
    other_pool: int,
)
    requires
        0 < smaller <= larger,
        own_pool >= 0,
        other_pool >= 0,
    ensures
        own_pool + other_pool > 0 ==> 0 <= shares_bought(larger, own_pool, other_pool) <= own_pool
            + other_pool,
        shares_bought(smaller, own_pool, other_pool) <= shares_bought(
            larger,
            own_pool,
            other_pool,
        ),
{
    let both = other_pool + own_pool;
    if both > 0 {
        vstd::arithmetic::mul::lemma_mul_nonnegative(smaller, both);
        vstd::arithmetic::mul::lemma_mul_nonnegative(larger, both);
        lemma_quotient_floors(larger * both, own_pool + larger);
        let shares = quotient(larger * both, own_pool + larger);
        assert(shares <= both) by (nonlinear_arith)
            requires
                (own_pool + larger) * shares <= larger * both,
                own_pool >= 0,
                larger > 0,
                both > 0,
        ;
        let less = smaller * both;
        let more = larger * both;
        assert(less <= more) by (nonlinear_arith)
            requires
                less == smaller * both,
                more == larger * both,
                smaller <= larger,
                both > 0,
        ;
        assert(less * larger == more * smaller) by (nonlinear_arith)
            requires
                less == smaller * both,
                more == larger * both,
        ;
        assert(less * own_pool <= more * own_pool) by (nonlinear_arith)
            requires
                less <= more,
                own_pool >= 0,
        ;
        vstd::arithmetic::mul::lemma_mul_is_distributive_add(less, own_pool, larger);
        vstd::arithmetic::mul::lemma_mul_is_distributive_add(more, own_pool, smaller);
        lemma_quotient_ordered(
            smaller * both,
            own_pool + smaller,
            larger * both,
            own_pool + larger,
        );
    }
}

/// An accepted purchase gives at least the shares that the buyer insisted on, and the
/// market issues exactly the shares that the buyer gets.
pub proof fn law_buyers_get_what_they_insist_on(
    s: State,
    yes: bool,
    now: u64,
    buyer: Address,
    market_id: u32,
    amount: i128,
    min_shares_out: i128,
)
    requires
        s.refusal(
            Request::Buy { yes, now, buyer, market_id, amount, min_shares_out },
        ) is None,
    ensures
        ({
            let after = s.apply(Request::Buy { yes, now, buyer, market_id, amount, min_shares_out });
            let got = after.position(market_id, buyer).side_shares(yes) - s.position(
                market_id,
                buyer,
            ).side_shares(yes);
            &&& got >= min_shares_out
            &&& after.markets[market_id].side_shares(yes) - s.markets[market_id].side_shares(yes)
                == got
            &&& after.markets[market_id].own_pool(yes) == s.markets[market_id].own_pool(yes)
                + amount
            &&& after.markets[market_id].own_pool(!yes) == s.markets[market_id].own_pool(!yes)
            &&& after.position(market_id, buyer).side_shares(!yes) == s.position(
                market_id,
                buyer,
            ).side_shares(!yes)
        }),
{
}

/// The first provider of liquidity gets one share for each unit.
pub proof fn law_first_provider_mints_one_for_one(market: MarketView, amount: int)
    requires
        market.lp_pool == 0,
    ensures
        market.lp_minted(amount) == amount,
{
}

/// For the same deposit, a pool that is worth more for the same shares mints no more
/// of them.
pub proof fn law_valuable_pools_mint_fewer_shares(
    cheaper: MarketView,
    dearer: MarketView,
    amount: int,
)
    requires
        amount > 0,
        0 < cheaper.lp_pool <= dearer.lp_pool,
        cheaper.total_lp_shares == dearer.total_lp_shares > 0,
    ensures
        dearer.lp_minted(amount) <= cheaper.lp_minted(amount),
{
    let value = amount * cheaper.total_lp_shares;
    vstd::arithmetic::mul::lemma_mul_nonnegative(amount, cheaper.total_lp_shares);
    assert(value * cheaper.lp_pool <= value * dearer.lp_pool) by (nonlinear_arith)
        requires
            value >= 0,
            cheaper.lp_pool <= dearer.lp_pool,
    ;
    lemma_quotient_ordered(value, dearer.lp_pool, value, cheaper.lp_pool);
}

/// Who deposits liquidity and withdraws the shares it minted at once gets back no more
/// than was deposited.
pub proof fn law_deposits_do_not_gain(
    s: State,
    now: u64,
    provider: Address,
    market_id: u32,
    amount: i128,
)
    requires
        consistent(s),
        s.refusal(Request::AddLiquidity { now, provider, market_id, amount }) is None,
    ensures
        ({
            let after = s.apply(Request::AddLiquidity { now, provider, market_id, amount });
            let minted = s.markets[market_id].lp_minted(amount as int);
            &&& after.remove_refusal(provider, market_id, minted) is None
            &&& after.markets[market_id].lp_value(minted) <= amount
        }),
{
    let m = s.markets[market_id];
    assert(s.markets.contains_key(market_id));
    assert(sound(m));
    lemma_position_fair(s, market_id, provider);
    let after = s.apply(Request::AddLiquidity { now, provider, market_id, amount });
    let n = after.markets[market_id];
    let a = amount as int;
    let x = m.lp_minted(a);
    if m.lp_pool == 0 {
        vstd::arithmetic::mul::lemma_mul_nonnegative(a, a);
        lemma_quotient_floors(a * a, a);
        vstd::arithmetic::div_mod::lemma_div_multiples_vanish(a, a);
    } else {
        vstd::arithmetic::mul::lemma_mul_nonnegative(a, m.total_lp_shares);
        lemma_quotient_floors(a * m.total_lp_shares, m.lp_pool);
        vstd::arithmetic::mul::lemma_mul_nonnegative(x, n.lp_pool);
        lemma_quotient_floors(x * n.lp_pool, n.total_lp_shares);
        let v = n.lp_value(x);
        assert(x * (m.lp_pool + a) <= a * (m.total_lp_shares + x)) by (nonlinear_arith)
            requires
                m.lp_pool * x <= a * m.total_lp_shares,
        ;
        assert(v <= a) by (nonlinear_arith)
            requires
                n.total_lp_shares * v <= x * n.lp_pool,
                x * n.lp_pool <= a * n.total_lp_shares,
                n.total_lp_shares > 0,
        ;
    }
}

/// Who withdraws all liquidity shares gets all of the liquidity pool, and leaves it
/// empty.
pub proof fn law_the_last_provider_takes_the_pool(
    s: State,
    provider: Address,
    market_id: u32,
    lp_shares: i128,
)
    requires
        consistent(s),
        s.refusal(Request::RemoveLiquidity { provider, market_id, lp_shares }) is None,
        lp_shares == s.markets[market_id].total_lp_shares,
    ensures
        s.markets[market_id].lp_value(lp_shares as int) == s.markets[market_id].lp_pool,
        ({
            let after = s.apply(Request::RemoveLiquidity { provider, market_id, lp_shares });
            &&& after.markets[market_id].lp_pool == 0
            &&& after.markets[market_id].total_lp_shares == 0
        }),
{
    assert(s.markets.contains_key(market_id));
    assert(sound(s.markets[market_id]));
    lemma_removed_sound(s.markets[market_id], lp_shares as int);
}

/// A withdrawal does not lower what the shares that stay are worth.
pub proof fn law_withdrawals_do_not_dilute(
    s: State,
    provider: Address,
    market_id: u32,
    lp_shares: i128,
    staying: int,
)
    requires
        consistent(s),
        s.refusal(Request::RemoveLiquidity { provider, market_id, lp_shares }) is None,
        lp_shares >= 0,
        0 <= staying <= s.markets[market_id].total_lp_shares - lp_shares,
    ensures
        ({
            let after = s.apply(Request::RemoveLiquidity { provider, market_id, lp_shares });
            after.markets[market_id].lp_value(staying) >= s.markets[market_id].lp_value(staying)
        }),
{
    let m = s.markets[market_id];
    assert(s.markets.contains_key(market_id));
    assert(sound(m));
    lemma_removed_sound(m, lp_shares as int);
    let after = s.apply(Request::RemoveLiquidity { provider, market_id, lp_shares });
    let n = after.markets[market_id];
    let pool = m.lp_pool;
    let all = m.total_lp_shares;
    let x = lp_shares as int;
    let v = m.lp_value(x);
    if n.total_lp_shares > 0 {
        vstd::arithmetic::mul::lemma_mul_nonnegative(x, pool);
        lemma_quotient_floors(x * pool, all);
        vstd::arithmetic::mul::lemma_mul_nonnegative(staying, pool);
        vstd::arithmetic::mul::lemma_mul_nonnegative(staying, pool - v);
        let more = staying * (x * pool - all * v);
        assert((staying * (pool - v)) * all - (staying * pool) * (all - x) == more)
            by (nonlinear_arith)
            requires
                more == staying * (x * pool - all * v),
        ;
        vstd::arithmetic::mul::lemma_mul_nonnegative(staying, x * pool - all * v);
        lemma_quotient_ordered(staying * pool, all, staying * (pool - v), all - x);
    } else {
        assert(staying == 0);
        if all > 0 {
            lemma_quotient_floors(0, all);
        }
    }
}

} // verus!
