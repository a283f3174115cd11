//! Redemption: what the winners are paid, and that the pools are neither lost nor
//! exceeded.
use crate::laws::books::{consistent, lemma_position_fair, sound};
use crate::math::lemma_quotient_floors;
use crate::model::State;
use crate::requests::Request;
use crate::types::{
    Address, Error, MarketStatus, MarketView, RedeemFailure, RedeemOutcome, PRECISION,
};
use vstd::prelude::*;

verus! {

/// A position is redeemed once: after a redemption there is nothing left to redeem.
pub proof fn law_redeemed_once(s: State, redeemer: Address, market_id: u32)
    requires
        s.refusal(Request::Redeem { redeemer, market_id }) is None,
    ensures
        ({
            let after = s.apply(Request::Redeem { redeemer, market_id });
            after.refusal(Request::Redeem { redeemer, market_id }) == Some(Error::NothingToRedeem)
        }),
{
}

/// Who holds no share of the side that won is refused, and so is who holds no share
/// at all of a cancelled market.
pub proof fn law_losers_redeem_nothing(s: State, redeemer: Address, market_id: u32)
    requires
        !s.paused,
        s.markets.contains_key(market_id),
        ({
            let market = s.markets[market_id];
            let position = s.position(market_id, redeemer);
            ||| market.status == MarketStatus::Cancelled && position.refund() <= 0
            ||| {
                &&& market.status == MarketStatus::Resolved || market.status
                    == MarketStatus::EmergencyResolved
                &&& market.outcome is Some
                &&& position.side_shares(market.outcome == Some(true)) == 0
            }
        }),
    ensures
        s.refusal(Request::Redeem { redeemer, market_id }) == Some(Error::NothingToRedeem),
        s.apply(Request::Redeem { redeemer, market_id }) == s,
{
}

/// The market is resolved, running, and some shares have won.
pub open spec fn settled(s: State, market_id: u32) -> bool {
    &&& !s.paused
    &&& s.markets.contains_key(market_id)
    &&& s.markets[market_id].status == MarketStatus::Resolved || s.markets[market_id].status
        == MarketStatus::EmergencyResolved
    &&& s.markets[market_id].outcome is Some
    &&& s.markets[market_id].total_winning() > 0
}

/// The winning shares that a party holds.
pub open spec fn winning_held(s: State, market_id: u32, holder: Address) -> int {
    s.position(market_id, holder).side_shares(s.markets[market_id].outcome == Some(true))
}

/// The winning shares that several parties hold together.
pub open spec fn winning_held_by(s: State, market_id: u32, holders: Seq<Address>) -> int
    decreases holders.len(),
{
    if holders.len() == 0 {
        0
    } else {
        winning_held_by(s, market_id, holders.drop_last()) + winning_held(
            s,
            market_id,
            holders.last(),
        )
    }
}

/// The state after several parties have redeemed, one after the other.
pub open spec fn after_redeeming(s: State, market_id: u32, holders: Seq<Address>) -> State
    decreases holders.len(),
{
    if holders.len() == 0 {
        s
    } else {
        after_redeeming(s, market_id, holders.drop_last()).apply(
            Request::Redeem { redeemer: holders.last(), market_id },
        )
    }
}

/// What several parties are paid when they redeem, one after the other.
pub open spec fn paid_to(s: State, market_id: u32, holders: Seq<Address>) -> int
    decreases holders.len(),
{
    if holders.len() == 0 {
        0
    } else {
        let before = after_redeeming(s, market_id, holders.drop_last());
        paid_to(s, market_id, holders.drop_last()) + if before.redeem_refusal(
            holders.last(),
            market_id,
        ) is None {
            before.redeem_value(holders.last(), market_id)
        } else {
            0
        }
    }
}

/// What a market owes its liquidity providers, in parts of `PRECISION`, counting what
/// has not yet made up a whole unit.
pub open spec fn fee_parts(market: MarketView) -> int {
    PRECISION * market.lp_fees + market.dust
}

/// What several parties' winning shares are worth, in parts of `PRECISION`, each
/// rounded down once.
pub open spec fn parts_of(s: State, market_id: u32, holders: Seq<Address>) -> int
    decreases holders.len(),
{
    if holders.len() == 0 {
        0
    } else {
        parts_of(s, market_id, holders.drop_last()) + s.markets[market_id].payout_parts(
            winning_held(s, market_id, holders.last()),
        )
    }
}

/// A redemption divides what the shares are worth between the redeemer and the
/// liquidity providers, and drops nothing.
pub proof fn law_a_redemption_drops_nothing(s: State, redeemer: Address, market_id: u32)
    requires
        settled(s, market_id),
        s.refusal(Request::Redeem { redeemer, market_id }) is None,
    ensures
        ({
            let market = s.markets[market_id];
            let after = s.apply(Request::Redeem { redeemer, market_id }).markets[market_id];
            PRECISION * s.redeem_value(redeemer, market_id) + fee_parts(after) - fee_parts(market)
                == market.payout_parts(winning_held(s, market_id, redeemer))
        }),
{
}

/// What several redemptions leave as it is.
proof fn lemma_redeeming(s: State, market_id: u32, holders: Seq<Address>)
    requires
        settled(s, market_id),
        holders.no_duplicates(),
        forall|i: int|
            0 <= i < holders.len() ==> winning_held(s, market_id, #[trigger] holders[i]) != 0,
    ensures
        ({
            let after = after_redeeming(s, market_id, holders);
            let m = s.markets[market_id];
            let n = after.markets[market_id];
            &&& settled(after, market_id)
            &&& n == (MarketView { lp_fees: n.lp_fees, dust: n.dust, ..m })
            &&& forall|other: Address|
                !holders.contains(other) ==> #[trigger] after.position(market_id, other)
                    == s.position(market_id, other)
            &&& PRECISION * paid_to(s, market_id, holders) + fee_parts(n) - fee_parts(m)
                == parts_of(s, market_id, holders)
        }),
    decreases holders.len(),
{
    if holders.len() > 0 {
        let fewer = holders.drop_last();
        let last = holders.last();
        assert forall|i: int| 0 <= i < fewer.len() implies winning_held(
            s,
            market_id,
            #[trigger] fewer[i],
        ) != 0 by {
            assert(fewer[i] == holders[i]);
        }
        assert(fewer.no_duplicates());
        lemma_redeeming(s, market_id, fewer);
        let before = after_redeeming(s, market_id, fewer);
        assert(!fewer.contains(last)) by {
            if fewer.contains(last) {
                let i = choose|i: int| 0 <= i < fewer.len() && fewer[i] == last;
                assert(holders[i] == holders[holders.len() - 1]);
            }
        }
        assert(before.position(market_id, last) == s.position(market_id, last));
        assert(holders[holders.len() - 1] == last);
        assert(winning_held(s, market_id, last) != 0);
        assert(before.redeem_refusal(last, market_id) is None);
        law_a_redemption_drops_nothing(before, last, market_id);
        let after = after_redeeming(s, market_id, holders);
        assert(after == before.after_redeem(last, market_id));
        assert forall|other: Address| !holders.contains(other) implies #[trigger] after.position(
            market_id,
            other,
        ) == s.position(market_id, other) by {
            if fewer.contains(other) {
                let i = choose|i: int| 0 <= i < fewer.len() && fewer[i] == other;
                assert(holders[i] == other);
            }
            assert(before.position(market_id, other) == s.position(market_id, other));
        }
        assert(before.markets[market_id].payout_parts(winning_held(s, market_id, last))
            == s.markets[market_id].payout_parts(winning_held(s, market_id, last)));
    }
}

/// Rounding each of several holdings down once takes less than one part for each.
proof fn lemma_parts_bounds(s: State, market_id: u32, holders: Seq<Address>)
    requires
        consistent(s),
        settled(s, market_id),
    ensures
        ({
            let m = s.markets[market_id];
            let worth = PRECISION * m.total_pool();
            let held = winning_held_by(s, market_id, holders);
            let parts = parts_of(s, market_id, holders);
            &&& m.total_winning() * parts <= held * worth
            &&& held * worth <= m.total_winning() * parts + holders.len() * m.total_winning()
            &&& holders.len() > 0 ==> held * worth < m.total_winning() * parts + holders.len()
                * m.total_winning()
            &&& (forall|i: int|
                0 <= i < holders.len() ==> (winning_held(s, market_id, #[trigger] holders[i])
                    * worth) % m.total_winning() == 0) ==> m.total_winning() * parts == held
                * worth
        }),
    decreases holders.len(),
{
    let m = s.markets[market_id];
    let all = m.total_winning();
    let worth = PRECISION * m.total_pool();
    if holders.len() > 0 {
        let fewer = holders.drop_last();
        let last = holders.last();
        lemma_parts_bounds(s, market_id, fewer);
        lemma_position_fair(s, market_id, last);
        assert(sound(m));
        let h = winning_held(s, market_id, last);
        let p = m.payout_parts(h);
        assert(h * PRECISION * m.total_pool() == h * worth) by (nonlinear_arith)
            requires
                worth == PRECISION * m.total_pool(),
        ;
        vstd::arithmetic::mul::lemma_mul_nonnegative(h, worth);
        lemma_quotient_floors(h * worth, all);
        let held = winning_held_by(s, market_id, fewer);
        let parts = parts_of(s, market_id, fewer);
        assert((held + h) * worth == held * worth + h * worth) by (nonlinear_arith);
        assert(all * (parts + p) == all * parts + all * p) by (nonlinear_arith);
        assert(holders.len() * all == fewer.len() * all + all) by (nonlinear_arith)
            requires
                holders.len() == fewer.len() + 1,
        ;
        if forall|i: int|
            0 <= i < holders.len() ==> (winning_held(s, market_id, #[trigger] holders[i]) * worth)
                % all == 0 {
            assert forall|i: int| 0 <= i < fewer.len() implies (winning_held(
                s,
                market_id,
                #[trigger] fewer[i],
            ) * worth) % all == 0 by {
                assert(fewer[i] == holders[i]);
            }
            assert(holders[holders.len() - 1] == last);
            assert((h * worth) % all == 0);
        }
    }
}

/// Nothing is fabricated: however many different parties redeem, as long as they hold
/// no more than the market's winning shares, what they are paid and what the
/// liquidity providers gain is no more than the pools.
pub proof fn law_redemptions_stay_within_the_pools(
    s: State,
    market_id: u32,
    holders: Seq<Address>,
)
    requires
        consistent(s),
        settled(s, market_id),
        holders.no_duplicates(),
        forall|i: int|
            0 <= i < holders.len() ==> winning_held(s, market_id, #[trigger] holders[i]) != 0,
        winning_held_by(s, market_id, holders) <= s.markets[market_id].total_winning(),
    ensures
        ({
            let m = s.markets[market_id];
            let after = after_redeeming(s, market_id, holders).markets[market_id];
            PRECISION * paid_to(s, market_id, holders) + fee_parts(after) - fee_parts(m)
                <= PRECISION * m.total_pool()
        }),
{
    let m = s.markets[market_id];
    lemma_redeeming(s, market_id, holders);
    lemma_parts_bounds(s, market_id, holders);
    assert(sound(m));
    let all = m.total_winning();
    let held = winning_held_by(s, market_id, holders);
    let parts = parts_of(s, market_id, holders);
    let worth = PRECISION * m.total_pool();
    assert(parts <= worth) by (nonlinear_arith)
        requires
            all * parts <= held * worth,
            held <= all,
            all > 0,
            worth >= 0,
    ;
}

/// Nothing vanishes: once all winning shares have been redeemed by different parties,
/// what they were paid and what the liquidity providers gained make up the pools but
/// for less than one part in `PRECISION` for each redemption.
pub proof fn law_redemptions_use_up_the_pools(s: State, market_id: u32, holders: Seq<Address>)
    requires
        consistent(s),
        settled(s, market_id),
        holders.no_duplicates(),
        forall|i: int|
            0 <= i < holders.len() ==> winning_held(s, market_id, #[trigger] holders[i]) != 0,
        winning_held_by(s, market_id, holders) == s.markets[market_id].total_winning(),
    ensures
        ({
            let m = s.markets[market_id];
            let after = after_redeeming(s, market_id, holders).markets[market_id];
            let accounted = PRECISION * paid_to(s, market_id, holders) + fee_parts(after)
                - fee_parts(m);
            PRECISION * m.total_pool() - holders.len() < accounted <= PRECISION * m.total_pool()
        }),
{
    let m = s.markets[market_id];
    law_redemptions_stay_within_the_pools(s, market_id, holders);
    lemma_redeeming(s, market_id, holders);
    lemma_parts_bounds(s, market_id, holders);
    let all = m.total_winning();
    let parts = parts_of(s, market_id, holders);
    let worth = PRECISION * m.total_pool();
    let n = holders.len() as int;
    assert(holders.len() > 0);
    assert(worth - n < parts) by (nonlinear_arith)
        requires
            all * worth < all * parts + n * all,
            all > 0,
    ;
}

/// Where no holding's worth has to be rounded and no dust was pending, the payouts and
/// the fees that the liquidity providers gain are together exactly the pools, and no
/// dust is pending.
pub proof fn law_exact_redemptions_conserve_the_pools(
    s: State,
    market_id: u32,
    holders: Seq<Address>,
)
    requires
        consistent(s),
        settled(s, market_id),
        holders.no_duplicates(),
        s.markets[market_id].dust == 0,
        forall|i: int|
            0 <= i < holders.len() ==> winning_held(s, market_id, #[trigger] holders[i]) != 0,
        forall|i: int|
            0 <= i < holders.len() ==> (winning_held(s, market_id, #[trigger] holders[i]) * (
            PRECISION * s.markets[market_id].total_pool())) % s.markets[market_id].total_winning()
                == 0,
        winning_held_by(s, market_id, holders) == s.markets[market_id].total_winning(),
    ensures
        ({
            let m = s.markets[market_id];
            let after = after_redeeming(s, market_id, holders).markets[market_id];
            &&& paid_to(s, market_id, holders) + (after.lp_fees - m.lp_fees) == m.total_pool()
            &&& after.dust == 0
        }),
{
    let m = s.markets[market_id];
    lemma_redeeming(s, market_id, holders);
    lemma_parts_bounds(s, market_id, holders);
    lemma_redeeming_sound(s, market_id, holders);
    let all = m.total_winning();
    let parts = parts_of(s, market_id, holders);
    let worth = PRECISION * m.total_pool();
    assert(parts == worth) by (nonlinear_arith)
        requires
            all * parts == all * worth,
            all > 0,
    ;
}

proof fn lemma_redeeming_sound(s: State, market_id: u32, holders: Seq<Address>)
    requires
        consistent(s),
        s.markets.contains_key(market_id),
    ensures
        consistent(after_redeeming(s, market_id, holders)),
        after_redeeming(s, market_id, holders).markets.contains_key(market_id),
        sound(after_redeeming(s, market_id, holders).markets[market_id]),
    decreases holders.len(),
{
    if holders.len() > 0 {
        let before = after_redeeming(s, market_id, holders.drop_last());
        lemma_redeeming_sound(s, market_id, holders.drop_last());
        if before.redeem_refusal(holders.last(), market_id) is None {
            crate::laws::books::lemma_redeem_keeps_books(before, holders.last(), market_id);
        }
    }
    assert(after_redeeming(s, market_id, holders).markets.contains_key(market_id));
}

/// Who holds all winning shares is paid the whole of the pools.
pub proof fn law_a_sole_winner_takes_the_pools(s: State, redeemer: Address, market_id: u32)
    requires
        consistent(s),
        settled(s, market_id),
        winning_held(s, market_id, redeemer) == s.markets[market_id].total_winning(),
    ensures
        s.refusal(Request::Redeem { redeemer, market_id }) is None,
        s.redeem_value(redeemer, market_id) == s.markets[market_id].total_pool(),
{
    let m = s.markets[market_id];
    let all = m.total_winning();
    assert(sound(m));
    let worth = PRECISION * m.total_pool();
    assert(all * PRECISION * m.total_pool() == all * worth) by (nonlinear_arith)
        requires
            worth == PRECISION * m.total_pool(),
    ;
    vstd::arithmetic::mul::lemma_mul_nonnegative(all, worth);
    lemma_quotient_floors(all * worth, all);
    vstd::arithmetic::div_mod::lemma_div_multiples_vanish(worth, all);
    lemma_quotient_floors(worth, PRECISION as int);
    vstd::arithmetic::div_mod::lemma_div_multiples_vanish(m.total_pool(), PRECISION as int);
}

/// A batch reports every one of its markets once, in order, as redeemed or as
/// refused, and the payouts that it reports add up to its total.
pub proof fn law_batches_account_for_every_market(
    s: State,
    redeemer: Address,
    market_ids: Seq<u32>,
)
    requires
        s.batch_fits(redeemer, market_ids),
    ensures
        ({
            let report = s.batch_report(redeemer, market_ids);
            &&& report.successes.len() + report.failures.len() == market_ids.len()
            &&& report.total_payout == payouts(report.successes)
            &&& forall|id: u32|
                market_ids.contains(id) <==> #[trigger] reported(
                    report.successes,
                    report.failures,
                    id,
                )
        }),
    decreases market_ids.len(),
{
    let report = s.batch_report(redeemer, market_ids);
    if market_ids.len() > 0 {
        let fewer = market_ids.drop_last();
        let last = market_ids.last();
        let before = s.after_batch(redeemer, fewer);
        let sub = s.batch_report(redeemer, fewer);
        law_batches_account_for_every_market(s, redeemer, fewer);
        if before.redeem_refusal(redeemer, last) is None {
            lemma_value_in_range(before, redeemer, last);
            assert(report.successes.drop_last() =~= sub.successes);
        }
        assert forall|id: u32|
            market_ids.contains(id) <==> #[trigger] reported(
                report.successes,
                report.failures,
                id,
            ) by {
            assert(fewer.contains(id) <==> reported(sub.successes, sub.failures, id));
            lemma_reported_step(s, redeemer, market_ids, id);
        }
    } else {
        assert forall|id: u32|
            market_ids.contains(id) <==> #[trigger] reported(
                report.successes,
                report.failures,
                id,
            ) by {}
    }
}

/// The sum of the payouts of several redemptions.
pub open spec fn payouts(successes: Seq<RedeemOutcome>) -> int
    decreases successes.len(),
{
    if successes.len() == 0 {
        0
    } else {
        payouts(successes.drop_last()) + successes.last().payout
    }
}

/// Whether a market is among those that were redeemed or refused.
pub open spec fn reported(
    successes: Seq<RedeemOutcome>,
    failures: Seq<RedeemFailure>,
    id: u32,
) -> bool {
    ||| exists|i: int| 0 <= i < successes.len() && (#[trigger] successes[i]).market_id == id
    ||| exists|i: int| 0 <= i < failures.len() && (#[trigger] failures[i]).market_id == id
}

proof fn lemma_value_in_range(s: State, redeemer: Address, market_id: u32)
    requires
        s.redeem_fits(redeemer, market_id),
        s.redeem_refusal(redeemer, market_id) is None,
    ensures
        crate::math::in_range(s.redeem_value(redeemer, market_id)),
{
    let market = s.markets[market_id];
    let held = winning_held(s, market_id, redeemer);
    if market.status != MarketStatus::Cancelled {
        if market.total_winning() > 0 {
            crate::redeem::lemma_parts(held, market.total_pool(), market.total_winning());
            crate::math::lemma_quotient_in_range(
                held * market.total_pool(),
                market.total_winning(),
            );
        }
    }
}

proof fn lemma_reported_step(s: State, redeemer: Address, market_ids: Seq<u32>, id: u32)
    requires
        market_ids.len() > 0,
    ensures
        ({
            let sub = s.batch_report(redeemer, market_ids.drop_last());
            let report = s.batch_report(redeemer, market_ids);
            &&& reported(report.successes, report.failures, id) <==> reported(
                sub.successes,
                sub.failures,
                id,
            ) || id == market_ids.last()
            &&& market_ids.contains(id) <==> market_ids.drop_last().contains(id) || id
                == market_ids.last()
        }),
{
    let fewer = market_ids.drop_last();
    let last = market_ids.last();
    let sub = s.batch_report(redeemer, fewer);
    let report = s.batch_report(redeemer, market_ids);
    assert(market_ids =~= fewer.push(last));
    assert(market_ids[fewer.len() as int] == last);
    assert forall|i: int| 0 <= i < fewer.len() implies #[trigger] fewer[i] == market_ids[i] by {}
    if market_ids.contains(id) && id != last {
        let i = choose|i: int| 0 <= i < market_ids.len() && market_ids[i] == id;
        assert(fewer[i] == id);
    }
    if fewer.contains(id) {
        let i = choose|i: int| 0 <= i < fewer.len() && fewer[i] == id;
        assert(market_ids[i] == id);
    }
    assert forall|i: int| 0 <= i < sub.successes.len() implies (#[trigger] sub.successes[i])
        == report.successes[i] by {}
    assert forall|i: int| 0 <= i < sub.failures.len() implies (#[trigger] sub.failures[i])
        == report.failures[i] by {}
    let before = s.after_batch(redeemer, fewer);
    if before.redeem_refusal(redeemer, last) is None {
        assert(report.successes[sub.successes.len() as int].market_id == last);
        assert(report.failures == sub.failures);
        if reported(report.successes, report.failures, id) && id != last {
            if exists|i: int|
                0 <= i < report.successes.len() && (#[trigger] report.successes[i]).market_id
                    == id {
                let i = choose|i: int|
                    0 <= i < report.successes.len() && (#[trigger] report.successes[i]).market_id
                        == id;
                assert(sub.successes[i].market_id == id);
            }
        }
    } else {
        assert(report.failures[sub.failures.len() as int].market_id == last);
        assert(report.successes == sub.successes);
        if reported(report.successes, report.failures, id) && id != last {
            if exists|i: int|
                0 <= i < report.failures.len() && (#[trigger] report.failures[i]).market_id == id {
                let i = choose|i: int|
                    0 <= i < report.failures.len() && (#[trigger] report.failures[i]).market_id
                        == id;
                assert(sub.failures[i].market_id == id);
            }
        }
    }
    if exists|i: int| 0 <= i < sub.successes.len() && (#[trigger] sub.successes[i]).market_id == id {
        let i = choose|i: int|
            0 <= i < sub.successes.len() && (#[trigger] sub.successes[i]).market_id == id;
        assert(report.successes[i].market_id == id);
    }
    if exists|i: int| 0 <= i < sub.failures.len() && (#[trigger] sub.failures[i]).market_id == id {
        let i = choose|i: int|
            0 <= i < sub.failures.len() && (#[trigger] sub.failures[i]).market_id == id;
        assert(report.failures[i].market_id == id);
    }
}

} // verus!
