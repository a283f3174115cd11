//! Redeeming positions: payouts of resolved markets and refunds of cancelled ones.
use crate::contract::{as_int, PredictionMarket};
use crate::events::Event;
use crate::listing::{all_numbers, numbers, read_numbers};
use crate::math::{divide, divide_with_rest, in_range, quotient, remainder, scaled, sum_fits};
use crate::model::State;
use crate::types::{
    Address, BatchRedeemResult, Error, Market, MarketStatus, RedeemFailure, RedeemOutcome,
    PRECISION,
};
use vstd::prelude::*;

verus! {

impl PredictionMarket {
    /// Pays what a position in a settled market is worth: its part of the pools if the
    /// market was resolved, each share at one if it was cancelled. The shares that
    /// were paid for are gone.
    pub fn redeem(&mut self, redeemer: Address, market_id: u32) -> (result: Result<i128, Error>)
        requires
            old(self)@.redeem_fits(redeemer, market_id),
        ensures
            match old(self)@.redeem_refusal(redeemer, market_id) {
                Some(e) => result == Err::<i128, Error>(e),
                None => as_int(result) == Ok::<int, Error>(
                    old(self)@.redeem_value(redeemer, market_id),
                ),
            },
            result is Ok ==> final(self)@ == old(self)@.after_redeem(redeemer, market_id),
            result is Err ==> final(self)@ == old(self)@,
    {
        self.require_not_paused()?;
        let mut market = self.load_market(market_id)?;
        if market.status == MarketStatus::Cancelled {
            return self.refund_cancelled(redeemer, market_id);
        }
        if market.status != MarketStatus::Resolved && market.status
            != MarketStatus::EmergencyResolved {
            return Err(Error::MarketNotResolved);
        }
        let mut position = self.load_position(market_id, redeemer);
        let held: i128 = match market.outcome {
            Some(true) => position.yes_shares,
            Some(false) => position.no_shares,
            None => return Err(Error::InvalidOutcome),
        };
        if held == 0 {
            return Err(Error::NothingToRedeem);
        }
        let total_pool: i128 = market.yes_pool + market.no_pool;
        let total_winning: i128 = if market.outcome == Some(true) {
            market.yes_shares
        } else {
            market.no_shares
        };
        let (payout, rest): (i128, i128) = if total_winning > 0 {
            let (payout, left): (i128, i128) = divide_with_rest(held * total_pool, total_winning);
            proof {
                lemma_parts(held as int, total_pool as int, total_winning as int);
                crate::math::lemma_quotient_in_range(PRECISION * left, total_winning as int);
            }
            (payout, divide(PRECISION * left, total_winning))
        } else {
            (0, 0)
        };
        let (fees, dust): (i128, i128) = divide_with_rest(market.dust + rest, PRECISION);
        market.lp_fees = market.lp_fees + fees;
        market.dust = dust;
        if market.outcome == Some(true) {
            position.yes_shares = 0;
        } else {
            position.no_shares = 0;
        }
        self.save_market(market_id, market);
        self.save_position(market_id, redeemer, position);
        self.emit(Event::Redeemed { market_id, redeemer, payout });
        Ok(payout)
    }

    /// Refunds a position in a cancelled market: each share counts for one, and the
    /// collateral that splitting put in is paid back.
    fn refund_cancelled(&mut self, redeemer: Address, market_id: u32) -> (result: Result<
        i128,
        Error,
    >)
        requires
            in_range(old(self)@.position(market_id, redeemer).refund()),
        ensures
            ({
                let position = old(self)@.position(market_id, redeemer);
                if position.refund() <= 0 {
                    result == Err::<i128, Error>(Error::NothingToRedeem)
                } else {
                    match old(self)@.transfer_refusal(position.split_tokens) {
                        Some(e) => result == Err::<i128, Error>(e),
                        None => as_int(result) == Ok::<int, Error>(position.refund()),
                    }
                }
            }),
            ({
                let position = old(self)@.position(market_id, redeemer);
                result is Ok ==> final(self)@ == old(self)@.with_transfer_out(
                    redeemer,
                    position.split_tokens,
                ).with_position(market_id, redeemer, position.refunded()).with_event(
                    Event::Refunded { market_id, redeemer, refund: position.refund() as i128 },
                )
            }),
            result is Err ==> final(self)@ == old(self)@,
    {
        let mut position = self.load_position(market_id, redeemer);
        let refund: i128 = position.yes_shares + position.no_shares;
        if refund <= 0 {
            return Err(Error::NothingToRedeem);
        }
        self.transfer_out(redeemer, position.split_tokens)?;
        position.yes_shares = 0;
        position.no_shares = 0;
        position.split_tokens = 0;
        self.save_position(market_id, redeemer, position);
        self.emit(Event::Refunded { market_id, redeemer, refund });
        Ok(refund)
    }

    /// Whether every amount that `redeem` computes can be represented.
    pub fn redeem_in_range(&self, redeemer: Address, market_id: u32) -> (fits: bool)
        ensures
            fits == self@.redeem_fits(redeemer, market_id),
    {
        let market = match self.load_market(market_id) {
            Ok(market) => market,
            Err(_) => return true,
        };
        if self.paused {
            return true;
        }
        let position = self.load_position(market_id, redeemer);
        if market.status == MarketStatus::Cancelled {
            return sum_fits(position.yes_shares, position.no_shares);
        }
        if market.status != MarketStatus::Resolved && market.status
            != MarketStatus::EmergencyResolved {
            return true;
        }
        let (held, total_winning): (i128, i128) = match market.outcome {
            Some(true) => (position.yes_shares, market.yes_shares),
            Some(false) => (position.no_shares, market.no_shares),
            None => return true,
        };
        held == 0 || Self::payout_in_range(&market, held, total_winning)
    }

    /// Whether every amount on the way to a payout can be represented.
    fn payout_in_range(market: &Market, held: i128, total_winning: i128) -> (fits: bool)
        requires
            total_winning == market@.total_winning(),
        ensures
            fits == {
                &&& in_range(market@.total_pool())
                &&& market@.total_winning() > 0 ==> {
                    &&& in_range(held * market@.total_pool())
                    &&& in_range(
                        PRECISION * remainder(
                            held * market@.total_pool(),
                            market@.total_winning(),
                        ),
                    )
                }
                &&& in_range(market@.collected_dust(held as int))
                &&& in_range(market@.redeemed(held as int).lp_fees)
            },
    {
        let total_pool: i128 = match market.yes_pool.checked_add(market.no_pool) {
            Some(total) => total,
            None => return false,
        };
        let rest: i128 = if total_winning > 0 {
            let worth: i128 = match held.checked_mul(total_pool) {
                Some(worth) => worth,
                None => return false,
            };
            let (_payout, left): (i128, i128) = divide_with_rest(worth, total_winning);
            proof {
                lemma_parts(held as int, total_pool as int, total_winning as int);
                if in_range(PRECISION * left) {
                    crate::math::lemma_quotient_in_range(PRECISION * left, total_winning as int);
                }
            }
            match scaled(PRECISION, left, total_winning) {
                Some(rest) => rest,
                None => return false,
            }
        } else {
            0
        };
        match market.dust.checked_add(rest) {
            Some(collected) => {
                let (fees, _dust): (i128, i128) = divide_with_rest(collected, PRECISION);
                sum_fits(market.lp_fees, fees)
            },
            None => false,
        }
    }

    /// Redeems in several markets, in order. A market that cannot be redeemed is
    /// reported and does not stop the others.
    pub fn batch_redeem(
        &mut self,
        redeemer: Address,
        market_ids: soroban_sdk::Vec<u32>,
    ) -> (result: Result<BatchRedeemResult, Error>)
        requires
            all_numbers(market_ids),
            old(self)@.batch_fits(redeemer, numbers(market_ids)),
        ensures
            result is Ok,
            result->Ok_0@ == old(self)@.batch_report(redeemer, numbers(market_ids)),
            final(self)@ == old(self)@.after_batch(redeemer, numbers(market_ids)),
    {
        let read: Vec<u32> = read_numbers(&market_ids).unwrap();
        Ok(self.redeem_each(redeemer, read))
    }

    /// Redeems in several markets as `batch_redeem` does, and stops where the list or
    /// an amount cannot be represented. What came before is then already redeemed, and
    /// whoever runs the contract has to discard this state.
    pub fn try_batch_redeem(
        &mut self,
        redeemer: Address,
        market_ids: soroban_sdk::Vec<u32>,
    ) -> (result: Option<BatchRedeemResult>)
        ensures
            result is Some <==> all_numbers(market_ids) && old(self)@.batch_fits(
                redeemer,
                numbers(market_ids),
            ),
            match result {
                Some(report) => {
                    &&& report@ == old(self)@.batch_report(redeemer, numbers(market_ids))
                    &&& final(self)@ == old(self)@.after_batch(redeemer, numbers(market_ids))
                },
                None => exists|n: int|
                    0 <= n <= numbers(market_ids).len() && final(self)@ == #[trigger] old(
                        self,
                    )@.after_batch(redeemer, numbers(market_ids).take(n)),
            },
    {
        match read_numbers(&market_ids) {
            Some(read) => self.try_redeem_each(redeemer, read),
            None => {
                assert(self@ == self@.after_batch(redeemer, numbers(market_ids).take(0)));
                None
            },
        }
    }

    /// Redeems in each of `market_ids`, in order.
    pub fn redeem_each(&mut self, redeemer: Address, market_ids: Vec<u32>) -> (report:
        BatchRedeemResult)
        requires
            old(self)@.batch_fits(redeemer, market_ids@),
        ensures
            report@ == old(self)@.batch_report(redeemer, market_ids@),
            final(self)@ == old(self)@.after_batch(redeemer, market_ids@),
    {
        let mut successes: Vec<RedeemOutcome> = Vec::new();
        let mut failures: Vec<RedeemFailure> = Vec::new();
        let mut total_payout: i128 = 0;
        let ghost start = self@;
        let mut i: usize = 0;
        proof {
            lemma_batch_fits_prefix(start, redeemer, market_ids@, 0);
        }
        while i < market_ids.len()
            invariant
                i <= market_ids@.len(),
                start.batch_fits(redeemer, market_ids@),
                self@ == start.after_batch(redeemer, market_ids@.take(i as int)),
                successes@ == start.batch_report(redeemer, market_ids@.take(i as int)).successes,
                failures@ == start.batch_report(redeemer, market_ids@.take(i as int)).failures,
                total_payout == start.batch_report(
                    redeemer,
                    market_ids@.take(i as int),
                ).total_payout,
            decreases market_ids@.len() - i,
        {
            let id: u32 = market_ids[i];
            proof {
                let next = market_ids@.take(i + 1);
                assert(next.drop_last() =~= market_ids@.take(i as int));
                assert(next.last() == id);
                lemma_batch_fits_prefix(start, redeemer, market_ids@, i + 1);
            }
            match self.redeem(redeemer, id) {
                Ok(payout) => {
                    total_payout = total_payout + payout;
                    successes.push(RedeemOutcome { market_id: id, payout });
                },
                Err(error) => {
                    failures.push(RedeemFailure { market_id: id, error });
                },
            }
            i = i + 1;
        }
        assert(market_ids@.take(i as int) =~= market_ids@);
        BatchRedeemResult { successes, failures, total_payout }
    }

    /// Redeems in each of `market_ids`, in order, and stops where an amount cannot be
    /// represented.
    pub fn try_redeem_each(&mut self, redeemer: Address, market_ids: Vec<u32>) -> (result: Option<
        BatchRedeemResult,
    >)
        ensures
            result is Some <==> old(self)@.batch_fits(redeemer, market_ids@),
            match result {
                Some(report) => {
                    &&& report@ == old(self)@.batch_report(redeemer, market_ids@)
                    &&& final(self)@ == old(self)@.after_batch(redeemer, market_ids@)
                },
                None => exists|n: int|
                    0 <= n <= market_ids@.len() && final(self)@ == #[trigger] old(
                        self,
                    )@.after_batch(redeemer, market_ids@.take(n)),
            },
    {
        let mut successes: Vec<RedeemOutcome> = Vec::new();
        let mut failures: Vec<RedeemFailure> = Vec::new();
        let mut total_payout: i128 = 0;
        let ghost start = self@;
        let mut i: usize = 0;
        while i < market_ids.len()
            invariant
                i <= market_ids@.len(),
                start == old(self)@,
                start.batch_fits(redeemer, market_ids@.take(i as int)),
                self@ == start.after_batch(redeemer, market_ids@.take(i as int)),
                successes@ == start.batch_report(redeemer, market_ids@.take(i as int)).successes,
                failures@ == start.batch_report(redeemer, market_ids@.take(i as int)).failures,
                total_payout == start.batch_report(
                    redeemer,
                    market_ids@.take(i as int),
                ).total_payout,
            decreases market_ids@.len() - i,
        {
            let id: u32 = market_ids[i];
            let ghost next = market_ids@.take(i + 1);
            proof {
                assert(next.drop_last() =~= market_ids@.take(i as int));
                assert(next.last() == id);
                if start.batch_fits(redeemer, market_ids@) {
                    lemma_batch_fits_prefix(start, redeemer, market_ids@, i + 1);
                }
            }
            if !self.redeem_in_range(redeemer, id) {
                return None;
            }
            match self.redeem(redeemer, id) {
                Ok(payout) => {
                    match total_payout.checked_add(payout) {
                        Some(total) => {
                            total_payout = total;
                        },
                        None => {
                            assert(self@ == start.after_batch(redeemer, next));
                            return None;
                        },
                    }
                    successes.push(RedeemOutcome { market_id: id, payout });
                },
                Err(error) => {
                    failures.push(RedeemFailure { market_id: id, error });
                },
            }
            i = i + 1;
        }
        assert(market_ids@.take(i as int) =~= market_ids@);
        Some(BatchRedeemResult { successes, failures, total_payout })
    }
}

/// A payout in parts of `PRECISION` is the whole units that `held` of `total` shares get
/// from a pool, and the parts that are left of the next unit.
pub proof fn lemma_parts(held: int, pool: int, total: int)
    requires
        total > 0,
    ensures
        ({
            let parts = quotient(held * PRECISION * pool, total);
            let whole = quotient(held * pool, total);
            let left = remainder(held * pool, total);
            &&& quotient(parts, PRECISION as int) == whole
            &&& remainder(parts, PRECISION as int) == quotient(PRECISION * left, total)
        }),
{
    let worth = held * pool;
    assert(held * PRECISION * pool == PRECISION * worth) by (nonlinear_arith)
        requires
            worth == held * pool,
    ;
    if worth >= 0 {
        lemma_parts_of_worth(worth, total);
    } else {
        lemma_parts_of_worth(-worth, total);
        assert(PRECISION * worth == -(PRECISION * -worth));
        lemma_quotient_negated(worth, total);
        lemma_quotient_negated(PRECISION * worth, total);
        lemma_quotient_negated(quotient(PRECISION * worth, total), PRECISION as int);
        let left = remainder(worth, total);
        assert(left == -remainder(-worth, total)) by {
            vstd::arithmetic::mul::lemma_mul_unary_negation(total, quotient(-worth, total));
        }
        lemma_quotient_negated(PRECISION * left, total);
    }
}

/// Rounding towards zero treats both sides of zero alike.
proof fn lemma_quotient_negated(a: int, b: int)
    requires
        b > 0,
    ensures
        quotient(a, b) == -quotient(-a, b),
{
}

proof fn lemma_parts_of_worth(worth: int, total: int)
    requires
        worth >= 0,
        total > 0,
    ensures
        ({
            let parts = quotient(PRECISION * worth, total);
            let whole = quotient(worth, total);
            let left = remainder(worth, total);
            &&& parts >= 0
            &&& whole >= 0
            &&& quotient(parts, PRECISION as int) == whole
            &&& remainder(parts, PRECISION as int) == quotient(PRECISION * left, total)
        }),
{
    let p = PRECISION as int;
    let whole = quotient(worth, total);
    let left = remainder(worth, total);
    crate::math::lemma_quotient_floors(worth, total);
    crate::math::lemma_quotient_floors(p * worth, total);
    crate::math::lemma_quotient_floors(p * left, total);
    let rest = quotient(p * left, total);
    assert(p * worth == p * left + (p * whole) * total) by (nonlinear_arith)
        requires
            left == worth - total * whole,
    ;
    vstd::arithmetic::div_mod::lemma_hoist_over_denominator(
        p * left,
        p * whole,
        total as nat,
    );
    let parts = quotient(p * worth, total);
    assert(parts == rest + p * whole);
    assert(rest < p) by (nonlinear_arith)
        requires
            total * rest <= p * left,
            left < total,
            p > 0,
            total > 0,
    ;
    crate::math::lemma_quotient_floors(parts, p);
    vstd::arithmetic::div_mod::lemma_fundamental_div_mod_converse(parts, p, whole, rest);
}

/// If a batch fits, so does every part of it that comes first.
proof fn lemma_batch_fits_prefix(state: State, redeemer: Address, market_ids: Seq<u32>, n: int)
    requires
        state.batch_fits(redeemer, market_ids),
        0 <= n <= market_ids.len(),
    ensures
        state.batch_fits(redeemer, market_ids.take(n)),
    decreases market_ids.len(),
{
    if n == market_ids.len() {
        assert(market_ids.take(n) =~= market_ids);
    } else {
        lemma_batch_fits_prefix(state, redeemer, market_ids.drop_last(), n);
        assert(market_ids.drop_last().take(n) =~= market_ids.take(n));
    }
}

} // verus!
