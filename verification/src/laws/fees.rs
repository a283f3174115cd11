//! Fees: what providers of liquidity are paid, in proportion to their shares.
use crate::laws::access::law_others_are_left_alone;
use crate::laws::books::{
    consistent, fees_taken, lemma_position_fair, lemma_redeem_keeps_books, lemma_redeemed_sound,
    lemma_taken_bounds, lp_held, lp_weight, replaces_nothing, sound, taken_weight,
};
use crate::math::{greatest, lemma_quotient_floors, lemma_quotient_ordered};
use crate::model::State;
use crate::requests::Request;
use crate::sums::{
    lemma_sum_added, lemma_sum_bounds, lemma_sum_ordered, lemma_sum_remove, lemma_sum_scaled,
    weigh,
};
use crate::types::{Address, Error, MarketView, PositionKey, PositionView};
use vstd::prelude::*;

verus! {

/// What a provider would be paid by a claim.
pub open spec fn due_to(s: State, market_id: u32, provider: Address) -> int {
    s.position(market_id, provider).fees_due(s.markets[market_id])
}

/// Nobody was paid more than the part of the credited fees that belongs to their shares.
pub open spec fn evenly_paid(s: State, market_id: u32) -> bool {
    forall|key: PositionKey| #[trigger]
        s.positions.contains_key(key) && key.market_id == market_id ==> s.positions[key].fee_taken
            <= s.markets[market_id].fee_share(s.positions[key].lp_shares)
}

/// What a position counts for among the parts of the credited fees.
pub open spec fn share_weight(market_id: u32, market: MarketView) -> spec_fn(
    PositionKey,
    PositionView,
) -> int {
    |key: PositionKey, position: PositionView|
        if key.market_id == market_id {
            market.fee_share(position.lp_shares)
        } else {
            0
        }
}

/// What a position counts for among the parts of the credited fees that were not paid.
pub open spec fn unpaid_weight(market_id: u32, market: MarketView) -> spec_fn(
    PositionKey,
    PositionView,
) -> int {
    |key: PositionKey, position: PositionView|
        if key.market_id == market_id {
            market.fee_share(position.lp_shares) - position.fee_taken
        } else {
            0
        }
}

/// A part of the credited fees is rounded down, and shares that are none have no part.
proof fn lemma_share_bounds(market: MarketView, lp_shares: int)
    requires
        sound(market),
        lp_shares >= 0,
    ensures
        0 <= market.fee_share(lp_shares),
        greatest(market.total_lp_shares, 1) * market.fee_share(lp_shares) <= lp_shares
            * market.credited(),
        lp_shares * market.credited() < greatest(market.total_lp_shares, 1) * market.fee_share(
            lp_shares,
        ) + greatest(market.total_lp_shares, 1),
        lp_shares == 0 ==> market.fee_share(lp_shares) == 0,
        market.total_lp_shares > 0 ==> market.fee_share(lp_shares) == (lp_shares
            * market.credited()) / market.total_lp_shares,
{
    vstd::arithmetic::mul::lemma_mul_nonnegative(lp_shares, market.credited());
    lemma_quotient_floors(
        lp_shares * market.credited(),
        greatest(market.total_lp_shares, 1),
    );
}

/// The parts that all positions have in the credited fees are together no more than
/// these.
proof fn lemma_parts_within_credit(s: State, market_id: u32)
    requires
        consistent(s),
        s.markets.contains_key(market_id),
    ensures
        weigh(s.positions, share_weight(market_id, s.markets[market_id]))
            <= s.markets[market_id].credited(),
{
    let market = s.markets[market_id];
    let dom = s.positions.dom();
    let credited = market.credited();
    let all = market.total_lp_shares;
    let base = greatest(all, 1);
    let lp = lp_weight(market_id);
    let share = share_weight(market_id, market);
    let a = |k: PositionKey| lp(k, s.positions[k]);
    let x = |k: PositionKey| share(k, s.positions[k]);
    let scaled_a = |k: PositionKey| credited * lp(k, s.positions[k]);
    let scaled_x = |k: PositionKey| base * share(k, s.positions[k]);
    assert(sound(market));
    assert(lp_held(s.positions, market_id) == all);
    assert forall|k: PositionKey| #[trigger] dom.contains(k) implies scaled_x(k) <= scaled_a(k) by {
        assert(s.positions.contains_key(k));
        if k.market_id == market_id {
            lemma_share_bounds(market, s.positions[k].lp_shares);
            vstd::arithmetic::mul::lemma_mul_is_commutative(s.positions[k].lp_shares, credited);
        } else {
            assert(base * 0 == 0 && credited * 0 == 0) by (nonlinear_arith);
        }
    }
    lemma_sum_scaled(dom, x, scaled_x, base);
    lemma_sum_scaled(dom, a, scaled_a, credited);
    lemma_sum_ordered(dom, scaled_x, scaled_a);
    let sum = weigh(s.positions, share);
    assert(sum <= credited) by (nonlinear_arith)
        requires
            base * sum <= credited * all,
            all <= base,
            base > 0,
            credited >= 0,
    ;
}

/// What all positions were not paid of their parts is together no more than the fees
/// that have not been claimed.
proof fn lemma_unpaid_within_fees(s: State, market_id: u32)
    requires
        consistent(s),
        s.markets.contains_key(market_id),
    ensures
        weigh(s.positions, unpaid_weight(market_id, s.markets[market_id]))
            <= s.markets[market_id].lp_fees,
{
    let market = s.markets[market_id];
    let share = share_weight(market_id, market);
    let taken = taken_weight(market_id);
    let unpaid = unpaid_weight(market_id, market);
    let x = |k: PositionKey| share(k, s.positions[k]);
    let t = |k: PositionKey| taken(k, s.positions[k]);
    let u = |k: PositionKey| unpaid(k, s.positions[k]);
    lemma_sum_added(s.positions.dom(), t, u, x);
    lemma_parts_within_credit(s, market_id);
    assert(fees_taken(s.positions, market_id) == market.fees_paid);
}

/// Where nobody was paid more than their part, the fees that are left cover what any
/// two providers were not paid.
proof fn lemma_two_are_covered(s: State, market_id: u32, one: Address, other: Address)
    requires
        consistent(s),
        s.markets.contains_key(market_id),
        evenly_paid(s, market_id),
        one != other,
        s.position(market_id, one).lp_shares > 0,
        s.position(market_id, other).lp_shares > 0,
    ensures
        ({
            let market = s.markets[market_id];
            let p = s.position(market_id, one);
            let q = s.position(market_id, other);
            &&& p.fee_taken <= market.fee_share(p.lp_shares)
            &&& q.fee_taken <= market.fee_share(q.lp_shares)
            &&& market.fee_share(p.lp_shares) - p.fee_taken + market.fee_share(q.lp_shares)
                - q.fee_taken <= market.lp_fees
        }),
{
    let market = s.markets[market_id];
    let dom = s.positions.dom();
    let unpaid = unpaid_weight(market_id, market);
    let u = |k: PositionKey| unpaid(k, s.positions[k]);
    let k1 = PositionKey { market_id, user: one };
    let k2 = PositionKey { market_id, user: other };
    assert(s.positions.contains_key(k1) && s.positions.contains_key(k2));
    assert(dom.contains(k1) && dom.contains(k2));
    lemma_unpaid_within_fees(s, market_id);
    lemma_sum_remove(dom, u, k1);
    lemma_sum_remove(dom.remove(k1), u, k2);
    let rest = dom.remove(k1).remove(k2);
    assert forall|k: PositionKey| #[trigger] rest.contains(k) implies u(k) >= 0 by {
        assert(s.positions.contains_key(k));
    }
    lemma_sum_bounds(rest, u);
}

/// A claim is refused for want of shares exactly when the provider has none.
pub proof fn law_claims_need_shares(s: State, provider: Address, market_id: u32)
    requires
        !s.paused,
        s.markets.contains_key(market_id),
    ensures
        ({
            let request = Request::ClaimLpFees { provider, market_id };
            &&& s.refusal(request) == Some(Error::NothingToRedeem) <==> s.position(
                market_id,
                provider,
            ).lp_shares == 0
            &&& s.refusal(request) is Some ==> s.refusal(request) == Some(Error::NothingToRedeem)
        }),
{
}

/// A claim pays no less than nothing and no more than the fees that have not been
/// claimed, and takes exactly what it pays from them. Without fees it pays nothing.
pub proof fn law_claims_stay_within_the_fees(s: State, provider: Address, market_id: u32)
    requires
        consistent(s),
        s.refusal(Request::ClaimLpFees { provider, market_id }) is None,
    ensures
        ({
            let due = due_to(s, market_id, provider);
            let before = s.markets[market_id];
            let after = s.apply(Request::ClaimLpFees { provider, market_id }).markets[market_id];
            &&& 0 <= due <= before.lp_fees
            &&& after == (MarketView {
                lp_fees: before.lp_fees - due,
                fees_paid: before.fees_paid + due,
                ..before
            })
        }),
{
    assert(sound(s.markets[market_id]));
}

/// Once a provider has claimed, another claim pays nothing until fees are credited, and
/// is not refused.
pub proof fn law_a_second_claim_pays_nothing(s: State, provider: Address, market_id: u32)
    requires
        consistent(s),
        s.refusal(Request::ClaimLpFees { provider, market_id }) is None,
    ensures
        ({
            let after = s.apply(Request::ClaimLpFees { provider, market_id });
            &&& after.refusal(Request::ClaimLpFees { provider, market_id }) is None
            &&& due_to(after, market_id, provider) == 0
        }),
{
    let after = s.apply(Request::ClaimLpFees { provider, market_id });
    assert(sound(s.markets[market_id]));
    assert(after.markets[market_id].credited() == s.markets[market_id].credited());
}

/// Fees are paid in proportion to the shares, whoever claims first and whatever was
/// claimed before: once two providers have claimed, each has been paid in all the part
/// of the credited fees that belongs to the shares held, rounded down.
pub proof fn law_fees_follow_shares(s: State, one: Address, other: Address, market_id: u32)
    requires
        consistent(s),
        !s.paused,
        s.markets.contains_key(market_id),
        evenly_paid(s, market_id),
        one != other,
        s.position(market_id, one).lp_shares > 0,
        s.position(market_id, other).lp_shares > 0,
    ensures
        ({
            let credited = s.markets[market_id].credited();
            let all = s.markets[market_id].total_lp_shares;
            let a = s.position(market_id, one).lp_shares;
            let b = s.position(market_id, other).lp_shares;
            let first = Request::ClaimLpFees { provider: one, market_id };
            let second = Request::ClaimLpFees { provider: other, market_id };
            let claimed = s.apply(first);
            let settled = claimed.apply(second);
            let x = settled.position(market_id, one).fee_taken;
            let y = settled.position(market_id, other).fee_taken;
            &&& all > 0
            &&& s.refusal(first) is None
            &&& claimed.refusal(second) is None
            &&& x == (a * credited) / all
            &&& y == (b * credited) / all
            &&& due_to(s, market_id, one) == x - s.position(market_id, one).fee_taken
            &&& due_to(claimed, market_id, other) == y - s.position(market_id, other).fee_taken
            &&& (a * credited) % all == 0 && (b * credited) % all == 0 ==> x * b == y * a
        }),
{
    let market = s.markets[market_id];
    let credited = market.credited();
    let all = market.total_lp_shares;
    let a = s.position(market_id, one).lp_shares;
    let b = s.position(market_id, other).lp_shares;
    let first = Request::ClaimLpFees { provider: one, market_id };
    let claimed = s.apply(first);
    assert(sound(market));
    lemma_position_fair(s, market_id, one);
    lemma_share_bounds(market, a);
    lemma_share_bounds(market, b);
    lemma_two_are_covered(s, market_id, one, other);
    assert(claimed.markets[market_id].credited() == credited);
    assert(claimed.position(market_id, other) == s.position(market_id, other));
    let x = (a * credited) / all;
    let y = (b * credited) / all;
    if (a * credited) % all == 0 && (b * credited) % all == 0 {
        vstd::arithmetic::div_mod::lemma_fundamental_div_mod(a * credited, all);
        vstd::arithmetic::div_mod::lemma_fundamental_div_mod(b * credited, all);
        assert(x * b == y * a) by (nonlinear_arith)
            requires
                a * credited == all * x,
                b * credited == all * y,
                all > 0,
        ;
    }
}

/// Whoever holds all liquidity shares gets all fees that are left, those of providers
/// who left without claiming among them.
pub proof fn law_the_last_provider_takes_the_fees(s: State, provider: Address, market_id: u32)
    requires
        consistent(s),
        s.markets.contains_key(market_id),
        evenly_paid(s, market_id),
        s.position(market_id, provider).lp_shares == s.markets[market_id].total_lp_shares,
        s.markets[market_id].total_lp_shares > 0,
    ensures
        due_to(s, market_id, provider) == s.markets[market_id].lp_fees,
{
    let market = s.markets[market_id];
    let all = market.total_lp_shares;
    let dom = s.positions.dom();
    let key = PositionKey { market_id, user: provider };
    let lp = lp_weight(market_id);
    let taken = taken_weight(market_id);
    let a = |k: PositionKey| lp(k, s.positions[k]);
    let t = |k: PositionKey| taken(k, s.positions[k]);
    let rest = dom.remove(key);
    assert(sound(market));
    assert(s.positions.contains_key(key));
    assert(dom.contains(key));
    assert(lp_held(s.positions, market_id) == all);
    assert(fees_taken(s.positions, market_id) == market.fees_paid);
    lemma_sum_remove(dom, a, key);
    lemma_sum_remove(dom, t, key);
    assert forall|k: PositionKey| #[trigger] rest.contains(k) implies a(k) >= 0 by {
        assert(s.positions.contains_key(k));
    }
    lemma_sum_bounds(rest, a);
    assert forall|k: PositionKey| #[trigger] rest.contains(k) implies t(k) == 0 * t(k) by {
        assert(s.positions.contains_key(k));
        assert(a(k) <= 0);
        if k.market_id == market_id {
            lemma_share_bounds(market, s.positions[k].lp_shares);
        }
    }
    lemma_sum_scaled(rest, t, t, 0);
    lemma_share_bounds(market, all);
    vstd::arithmetic::div_mod::lemma_div_multiples_vanish(market.credited(), all);
}

/// A withdrawal is not negative, and a whole number of fees was paid for the shares that
/// it gives up.
pub open spec fn divides_evenly(s: State, request: Request) -> bool {
    request matches Request::RemoveLiquidity { provider, market_id, lp_shares } ==> {
        let position = s.position(market_id, provider);
        &&& lp_shares >= 0
        &&& position.lp_shares > 0 ==> (position.fee_taken * lp_shares) % position.lp_shares == 0
    }
}

/// More credited fees do not make a part smaller.
proof fn lemma_share_grows(before: MarketView, after: MarketView, lp_shares: int)
    requires
        sound(before),
        after.total_lp_shares == before.total_lp_shares,
        after.credited() >= before.credited(),
        lp_shares >= 0,
    ensures
        after.fee_share(lp_shares) >= before.fee_share(lp_shares),
{
    let base = greatest(before.total_lp_shares, 1);
    let x = before.credited();
    let y = after.credited();
    vstd::arithmetic::mul::lemma_mul_nonnegative(lp_shares, x);
    vstd::arithmetic::mul::lemma_mul_nonnegative(lp_shares, y);
    assert((lp_shares * x) * base <= (lp_shares * y) * base) by (nonlinear_arith)
        requires
            lp_shares >= 0,
            0 <= x <= y,
            base > 0,
    ;
    lemma_quotient_ordered(lp_shares * x, base, lp_shares * y, base);
}

/// A redemption leaves everyone evenly paid.
proof fn lemma_redeem_stays_even(s: State, redeemer: Address, redeemed: u32, market_id: u32)
    requires
        consistent(s),
        s.markets.contains_key(market_id),
        evenly_paid(s, market_id),
        s.redeem_refusal(redeemer, redeemed) is None,
    ensures
        s.after_redeem(redeemer, redeemed).markets.contains_key(market_id),
        evenly_paid(s.after_redeem(redeemer, redeemed), market_id),
{
    let after = s.after_redeem(redeemer, redeemed);
    let market = s.markets[market_id];
    let now = after.markets[market_id];
    let yes = s.markets[redeemed].outcome == Some(true);
    assert(sound(market));
    assert(sound(s.markets[redeemed]));
    lemma_position_fair(s, redeemed, redeemer);
    lemma_redeemed_sound(s.markets[redeemed], s.position(redeemed, redeemer).side_shares(yes));
    assert forall|key: PositionKey| #[trigger]
        after.positions.contains_key(key) && key.market_id
            == market_id implies after.positions[key].fee_taken <= now.fee_share(
        after.positions[key].lp_shares,
    ) by {
        let p = s.position(market_id, key.user);
        assert(key == PositionKey { market_id, user: key.user });
        lemma_position_fair(s, market_id, key.user);
        lemma_share_bounds(market, p.lp_shares);
        lemma_share_grows(market, now, p.lp_shares);
    }
}

proof fn lemma_batch_stays_even(
    s: State,
    redeemer: Address,
    market_ids: Seq<u32>,
    market_id: u32,
)
    requires
        consistent(s),
        s.markets.contains_key(market_id),
        evenly_paid(s, market_id),
    ensures
        consistent(s.after_batch(redeemer, market_ids)),
        s.after_batch(redeemer, market_ids).markets.contains_key(market_id),
        evenly_paid(s.after_batch(redeemer, market_ids), market_id),
    decreases market_ids.len(),
{
    if market_ids.len() > 0 {
        let before = s.after_batch(redeemer, market_ids.drop_last());
        lemma_batch_stays_even(s, redeemer, market_ids.drop_last(), market_id);
        if before.redeem_refusal(redeemer, market_ids.last()) is None {
            lemma_redeem_stays_even(before, redeemer, market_ids.last(), market_id);
            lemma_redeem_keeps_books(before, redeemer, market_ids.last());
        }
    }
}

/// Giving up shares lowers nobody's part below what was paid for it: with `all` shares
/// outstanding and `credited` fees, `given` of the `held` shares are given up, for which
/// `released` of `taken` was paid; someone else was paid `paid` for `shares`.
proof fn lemma_parts_outlast_withdrawal(
    all: int,
    credited: int,
    held: int,
    taken: int,
    given: int,
    released: int,
    shares: int,
    paid: int,
)
    requires
        0 <= given <= held <= all,
        0 < held,
        0 <= taken,
        0 <= paid,
        0 <= shares,
        0 <= credited,
        held * released == taken * given,
        all * taken <= held * credited,
        all * paid <= shares * credited,
    ensures
        (all - given) * (taken - released) <= (held - given) * (credited - released),
        (all - given) * paid <= shares * (credited - released),
        released <= credited,
{
    let stay = held - given;
    let left = all - given;
    let l = left * (taken - released);
    let r = stay * (credited - released);
    let gap = held * credited - all * taken;
    let kept = taken * stay;
    let owed = held * credited - taken * given;
    assert(held * (taken - released) == kept) by (nonlinear_arith)
        requires
            held * released == taken * given,
            kept == taken * stay,
            stay == held - given,
    ;
    assert(held * (credited - released) == owed) by (nonlinear_arith)
        requires
            held * released == taken * given,
            owed == held * credited - taken * given,
    ;
    assert(held * l == left * kept) by (nonlinear_arith)
        requires
            l == left * (taken - released),
            held * (taken - released) == kept,
    ;
    assert(held * r == stay * owed) by (nonlinear_arith)
        requires
            r == stay * (credited - released),
            held * (credited - released) == owed,
    ;
    assert(left * kept == stay * (left * taken)) by (nonlinear_arith)
        requires
            kept == taken * stay,
    ;
    assert(owed - left * taken == gap) by (nonlinear_arith)
        requires
            owed == held * credited - taken * given,
            gap == held * credited - all * taken,
            left == all - given,
    ;
    vstd::arithmetic::mul::lemma_mul_is_distributive_sub(stay, owed, left * taken);
    vstd::arithmetic::mul::lemma_mul_is_distributive_sub(held, r, l);
    assert(held * (r - l) == stay * gap);
    vstd::arithmetic::mul::lemma_mul_nonnegative(stay, gap);
    assert(r >= l) by (nonlinear_arith)
        requires
            held * (r - l) >= 0,
            held > 0,
    ;
    assert(held * (given * credited - all * released) == given * gap) by (nonlinear_arith)
        requires
            gap == held * credited - all * taken,
            held * released == taken * given,
    ;
    vstd::arithmetic::mul::lemma_mul_nonnegative(given, gap);
    let slack = given * credited - all * released;
    assert(slack >= 0) by (nonlinear_arith)
        requires
            held * slack >= 0,
            held > 0,
    ;
    let m = shares * credited - all * paid;
    let now = credited - released;
    let d = shares * now - left * paid;
    assert(all * now == left * credited + slack) by (nonlinear_arith)
        requires
            now == credited - released,
            left == all - given,
            slack == given * credited - all * released,
    ;
    assert(all * (shares * now) == shares * (left * credited + slack)) by (nonlinear_arith)
        requires
            all * now == left * credited + slack,
    ;
    vstd::arithmetic::mul::lemma_mul_is_distributive_add(shares, left * credited, slack);
    assert(shares * (left * credited) == left * (shares * credited)) by (nonlinear_arith);
    assert(all * (left * paid) == left * (all * paid)) by (nonlinear_arith);
    vstd::arithmetic::mul::lemma_mul_is_distributive_sub(left, shares * credited, all * paid);
    vstd::arithmetic::mul::lemma_mul_is_distributive_sub(all, shares * now, left * paid);
    assert(all * d == left * m + shares * slack);
    vstd::arithmetic::mul::lemma_mul_nonnegative(left, m);
    vstd::arithmetic::mul::lemma_mul_nonnegative(shares, slack);
    assert(d >= 0) by (nonlinear_arith)
        requires
            all * d >= 0,
            all > 0,
    ;
    assert(released <= credited) by (nonlinear_arith)
        requires
            given * credited - all * released >= 0,
            0 <= given <= all,
            all > 0,
            credited >= 0,
    ;
}

/// An amount that is no more than a fraction is no more than the fraction rounded down.
proof fn lemma_within_share(market: MarketView, lp_shares: int, paid: int)
    requires
        lp_shares >= 0,
        market.credited() >= 0,
        market.total_lp_shares * paid <= lp_shares * market.credited(),
        market.total_lp_shares > 0 || paid == 0,
    ensures
        paid <= market.fee_share(lp_shares),
{
    let base = greatest(market.total_lp_shares, 1);
    let worth = lp_shares * market.credited();
    vstd::arithmetic::mul::lemma_mul_nonnegative(lp_shares, market.credited());
    lemma_quotient_floors(worth, base);
    let share = market.fee_share(lp_shares);
    if market.total_lp_shares > 0 {
        assert(paid <= share) by (nonlinear_arith)
            requires
                base * paid <= worth,
                worth < base * share + base,
                base > 0,
        ;
    }
}

/// A withdrawal leaves everyone evenly paid.
proof fn lemma_remove_stays_even(
    s: State,
    provider: Address,
    market_id: u32,
    lp_shares: i128,
    user: Address,
)
    requires
        consistent(s),
        evenly_paid(s, market_id),
        s.remove_refusal(provider, market_id, lp_shares as int) is None,
        divides_evenly(s, Request::RemoveLiquidity { provider, market_id, lp_shares }),
    ensures
        ({
            let after = s.after_remove(provider, market_id, lp_shares);
            let p = after.position(market_id, user);
            p.fee_taken <= after.markets[market_id].fee_share(p.lp_shares)
        }),
{
    let after = s.after_remove(provider, market_id, lp_shares);
    let market = s.markets[market_id];
    let now = after.markets[market_id];
    let mine = s.position(market_id, provider);
    let p = s.position(market_id, user);
    let given = lp_shares as int;
    assert(s.markets.contains_key(market_id));
    assert(sound(market));
    lemma_position_fair(s, market_id, provider);
    lemma_position_fair(s, market_id, user);
    lemma_share_bounds(market, mine.lp_shares);
    lemma_share_bounds(market, p.lp_shares);
    let released = mine.taken_for(given);
    if mine.lp_shares > 0 {
        let all = market.total_lp_shares;
        vstd::arithmetic::mul::lemma_mul_nonnegative(mine.fee_taken, given);
        lemma_quotient_floors(mine.fee_taken * given, mine.lp_shares);
        lemma_taken_bounds(mine, given);
        assert(all * mine.fee_taken <= mine.lp_shares * market.credited()) by (nonlinear_arith)
            requires
                all * market.fee_share(mine.lp_shares) <= mine.lp_shares * market.credited(),
                mine.fee_taken <= market.fee_share(mine.lp_shares),
                all > 0,
        ;
        assert(all * p.fee_taken <= p.lp_shares * market.credited()) by (nonlinear_arith)
            requires
                all * market.fee_share(p.lp_shares) <= p.lp_shares * market.credited(),
                p.fee_taken <= market.fee_share(p.lp_shares),
                all > 0,
        ;
        lemma_parts_outlast_withdrawal(
            all,
            market.credited(),
            mine.lp_shares,
            mine.fee_taken,
            given,
            released,
            p.lp_shares,
            p.fee_taken,
        );
        assert(now.credited() == market.credited() - released);
        if user == provider {
            lemma_within_share(now, mine.lp_shares - given, mine.fee_taken - released);
        } else {
            if now.total_lp_shares == 0 {
                lemma_two_hold_no_more(s, market_id, provider, user);
            }
            lemma_within_share(now, p.lp_shares, p.fee_taken);
        }
    }
}

/// Two providers hold no more than all liquidity shares.
proof fn lemma_two_hold_no_more(s: State, market_id: u32, one: Address, other: Address)
    requires
        consistent(s),
        s.markets.contains_key(market_id),
        one != other,
    ensures
        s.position(market_id, one).lp_shares + s.position(market_id, other).lp_shares
            <= s.markets[market_id].total_lp_shares,
{
    let dom = s.positions.dom();
    let lp = lp_weight(market_id);
    let a = |k: PositionKey| lp(k, s.positions[k]);
    let k1 = PositionKey { market_id, user: one };
    let k2 = PositionKey { market_id, user: other };
    assert(lp_held(s.positions, market_id) == s.markets[market_id].total_lp_shares);
    lemma_position_fair(s, market_id, one);
    lemma_position_fair(s, market_id, other);
    if s.positions.contains_key(k1) && s.positions.contains_key(k2) {
        assert(dom.contains(k1) && dom.contains(k2));
        lemma_sum_remove(dom, a, k1);
        lemma_sum_remove(dom.remove(k1), a, k2);
        let rest = dom.remove(k1).remove(k2);
        assert forall|k: PositionKey| #[trigger] rest.contains(k) implies a(k) >= 0 by {
            assert(s.positions.contains_key(k));
        }
        lemma_sum_bounds(rest, a);
    }
}

/// Nobody comes to have been paid more than their part. This leaves out a negative
/// withdrawal, a withdrawal of some of a provider's shares for which no whole number of
/// fees was paid, and a new market in the place of an old one. A withdrawal of all of a
/// provider's shares is not left out.
pub proof fn law_providers_stay_evenly_paid(s: State, request: Request, market_id: u32)
    requires
        consistent(s),
        replaces_nothing(s, request),
        s.markets.contains_key(market_id),
        evenly_paid(s, market_id),
        divides_evenly(s, request),
    ensures
        evenly_paid(s.apply(request), market_id),
{
    if s.refusal(request) is None {
        let market = s.markets[market_id];
        let after = s.accepted(request);
        let now = after.markets[market_id];
        assert(sound(market));
        match request {
            Request::BatchRedeem { redeemer, market_ids } => {
                lemma_batch_stays_even(s, redeemer, market_ids, market_id);
            },
            Request::Redeem { redeemer, market_id: redeemed } => {
                lemma_redeem_stays_even(s, redeemer, redeemed, market_id);
            },
            _ => {
                assert forall|key: PositionKey| #[trigger]
                    after.positions.contains_key(key) && key.market_id
                        == market_id implies after.positions[key].fee_taken <= now.fee_share(
                    after.positions[key].lp_shares,
                ) by {
                    assert(key == PositionKey { market_id, user: key.user });
                    lemma_part_keeps_up(s, request, market_id, key.user);
                }
            },
        }
    }
}

/// The shares that fees are divided by, the fees, and what a party has of both are the
/// same in two states.
spec fn same_division(s: State, after: State, market_id: u32, user: Address) -> bool {
    &&& after.markets[market_id].total_lp_shares == s.markets[market_id].total_lp_shares
    &&& after.markets[market_id].lp_fees == s.markets[market_id].lp_fees
    &&& after.markets[market_id].fees_paid == s.markets[market_id].fees_paid
    &&& after.position(market_id, user).lp_shares == s.position(market_id, user).lp_shares
    &&& after.position(market_id, user).fee_taken == s.position(market_id, user).fee_taken
}

/// Purchases, splits and merges leave the division of fees alone.
proof fn lemma_trades_keep_division(s: State, request: Request, user: Address)
    requires
        request is Buy || request is Split || request is Merge,
    ensures
        same_division(s, s.accepted(request), request.market()->0, user),
{
}

/// The life of a market leaves the division of its fees alone.
proof fn lemma_lifecycle_keeps_division(s: State, request: Request, user: Address)
    requires
        request.market() is Some,
        request.holder() is None,
    ensures
        same_division(s, s.accepted(request), request.market()->0, user),
{
}

/// What one party was paid stays within their part.
proof fn lemma_part_keeps_up(s: State, request: Request, market_id: u32, user: Address)
    requires
        consistent(s),
        replaces_nothing(s, request),
        s.markets.contains_key(market_id),
        evenly_paid(s, market_id),
        divides_evenly(s, request),
        s.refusal(request) is None,
        !(request is Redeem),
        !(request is BatchRedeem),
    ensures
        ({
            let after = s.accepted(request);
            let p = after.position(market_id, user);
            p.fee_taken <= after.markets[market_id].fee_share(p.lp_shares)
        }),
{
    let market = s.markets[market_id];
    let after = s.accepted(request);
    let p = s.position(market_id, user);
    assert(sound(market));
    lemma_position_fair(s, market_id, user);
    lemma_share_bounds(market, p.lp_shares);
    if request.market() is None {
        assert(same_division(s, after, market_id, user));
    } else if request.market() != Some(market_id) {
        law_others_are_left_alone(s, request, market_id, PositionKey { market_id, user });
        assert(same_division(s, after, market_id, user));
    } else if request.holder() is None {
        lemma_lifecycle_keeps_division(s, request, user);
    } else if request is Buy || request is Split || request is Merge {
        lemma_trades_keep_division(s, request, user);
    } else {
        lemma_provider_stays_even(s, request, user);
    }
}

/// A provider's own requests leave everyone evenly paid.
proof fn lemma_provider_stays_even(s: State, request: Request, user: Address)
    requires
        consistent(s),
        request is AddLiquidity || request is RemoveLiquidity || request is ClaimLpFees,
        evenly_paid(s, request.market()->0),
        divides_evenly(s, request),
        s.refusal(request) is None,
    ensures
        ({
            let after = s.accepted(request);
            let p = after.position(request.market()->0, user);
            p.fee_taken <= after.markets[request.market()->0].fee_share(p.lp_shares)
        }),
{
    let market_id = request.market()->0;
    let market = s.markets[market_id];
    let after = s.accepted(request);
    let now = after.markets[market_id];
    let p = s.position(market_id, user);
    assert(s.markets.contains_key(market_id));
    assert(sound(market));
    lemma_position_fair(s, market_id, user);
    lemma_share_bounds(market, p.lp_shares);
    match request {
        Request::RemoveLiquidity { provider, lp_shares, .. } => {
            lemma_remove_stays_even(s, provider, market_id, lp_shares, user);
        },
        Request::AddLiquidity { .. } => {
            let held = after.position(market_id, user).lp_shares;
            assert(now.credited() == 0);
            assert(held * 0 == 0 && p.lp_shares * 0 == 0) by (nonlinear_arith);
            lemma_quotient_floors(0, greatest(now.total_lp_shares, 1));
            lemma_quotient_floors(0, greatest(market.total_lp_shares, 1));
        },
        _ => {
            assert(now.credited() == market.credited());
        },
    }
}

/// Until a claim pays fees, everyone is evenly paid.
pub proof fn law_markets_start_evenly_paid(s: State, market_id: u32)
    requires
        consistent(s),
        s.markets.contains_key(market_id),
        s.markets[market_id].fees_paid == 0,
    ensures
        evenly_paid(s, market_id),
{
    assert(sound(s.markets[market_id]));
    assert forall|key: PositionKey| #[trigger]
        s.positions.contains_key(key) && key.market_id
            == market_id implies s.positions[key].fee_taken <= s.markets[market_id].fee_share(
        s.positions[key].lp_shares,
    ) by {
        assert(key == PositionKey { market_id, user: key.user });
        lemma_position_fair(s, market_id, key.user);
        lemma_share_bounds(s.markets[market_id], s.positions[key].lp_shares);
    }
}

} // verus!
