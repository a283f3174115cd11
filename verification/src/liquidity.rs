//! Providing liquidity: depositing into a market's pools, withdrawing, and
//! claiming fees.
use crate::contract::{as_int, PredictionMarket};
use crate::events::Event;
use crate::math::{difference_fits, divide, in_range, scaled, sum_fits};
use crate::types::{Address, Error, Market, Position};
use vstd::prelude::*;

verus! {

impl PredictionMarket {
    /// Deposits `amount` into the pools of an open market and mints liquidity shares
    /// for it.
    pub fn add_liquidity(&mut self, now: u64, provider: Address, market_id: u32, amount: i128) -> (result:
        Result<i128, Error>)
        requires
            old(self)@.add_fits(now, provider, market_id, amount as int),
        ensures
            match old(self)@.deposit_refusal(now, market_id, amount as int) {
                Some(e) => result == Err::<i128, Error>(e),
                None => as_int(result) == Ok::<int, Error>(
                    old(self)@.markets[market_id].lp_minted(amount as int),
                ),
            },
            result is Ok ==> final(self)@ == old(self)@.after_add(provider, market_id, amount),
            result is Err ==> final(self)@ == old(self)@,
    {
        let mut market = self.require_deposit(now, market_id, amount)?;
        let lp_shares: i128 = if market.lp_pool == 0 || market.total_lp_shares == 0 {
            amount
        } else {
            divide(amount * market.total_lp_shares, market.lp_pool)
        };
        let mut position = self.load_position(market_id, provider);
        market.lp_pool = market.lp_pool + amount;
        market.total_lp_shares = market.total_lp_shares + lp_shares;
        market.yes_pool = market.yes_pool + amount / 2;
        market.no_pool = market.no_pool + amount / 2;
        position.lp_shares = position.lp_shares + lp_shares;
        self.save_market(market_id, market);
        self.save_position(market_id, provider, position);
        self.emit(Event::Added { market_id, provider, amount, lp_shares });
        Ok(lp_shares)
    }

    /// Whether every amount that `add_liquidity` computes can be represented.
    pub fn add_in_range(&self, now: u64, provider: Address, market_id: u32, amount: i128) -> (fits:
        bool)
        ensures
            fits == self@.add_fits(now, provider, market_id, amount as int),
    {
        let market = match self.require_deposit(now, market_id, amount) {
            Ok(market) => market,
            Err(_) => return true,
        };
        let minted: Option<i128> = if market.lp_pool == 0 || market.total_lp_shares == 0 {
            Some(amount)
        } else {
            scaled(amount, market.total_lp_shares, market.lp_pool)
        };
        let position = self.load_position(market_id, provider);
        match minted {
            None => false,
            Some(lp_shares) => sum_fits(market.lp_pool, amount) && sum_fits(
                market.total_lp_shares,
                lp_shares,
            ) && sum_fits(market.yes_pool, amount / 2) && sum_fits(market.no_pool, amount / 2)
                && sum_fits(position.lp_shares, lp_shares),
        }
    }

    /// Gives up liquidity shares for their part of the pool's current value.
    pub fn remove_liquidity(&mut self, provider: Address, market_id: u32, lp_shares: i128) -> (result:
        Result<i128, Error>)
        requires
            old(self)@.remove_fits(provider, market_id, lp_shares as int),
        ensures
            match old(self)@.remove_refusal(provider, market_id, lp_shares as int) {
                Some(e) => result == Err::<i128, Error>(e),
                None => as_int(result) == Ok::<int, Error>(
                    old(self)@.markets[market_id].lp_value(lp_shares as int),
                ),
            },
            result is Ok ==> final(self)@ == old(self)@.after_remove(
                provider,
                market_id,
                lp_shares,
            ),
            result is Err ==> final(self)@ == old(self)@,
    {
        self.require_not_paused()?;
        let mut market = self.load_market(market_id)?;
        let mut position = self.load_position(market_id, provider);
        if position.lp_shares < lp_shares {
            return Err(Error::InsufficientFunds);
        }
        let payout: i128 = if market.total_lp_shares > 0 {
            proof {
                crate::math::lemma_quotient_in_range(
                    lp_shares * market.lp_pool,
                    market.total_lp_shares as int,
                );
            }
            divide(lp_shares * market.lp_pool, market.total_lp_shares)
        } else {
            lp_shares
        };
        let taken: i128 = Self::taken_for(&position, lp_shares).unwrap();
        market.fees_paid = market.fees_paid - taken;
        position.fee_taken = position.fee_taken - taken;
        market.lp_pool = market.lp_pool - payout;
        market.total_lp_shares = market.total_lp_shares - lp_shares;
        position.lp_shares = position.lp_shares - lp_shares;
        self.save_market(market_id, market);
        self.save_position(market_id, provider, position);
        self.emit(Event::Removed { market_id, provider, lp_shares, payout });
        Ok(payout)
    }

    /// Whether every amount that `remove_liquidity` computes can be represented.
    pub fn remove_in_range(&self, provider: Address, market_id: u32, lp_shares: i128) -> (fits:
        bool)
        ensures
            fits == self@.remove_fits(provider, market_id, lp_shares as int),
    {
        let position = self.load_position(market_id, provider);
        if self.paused || position.lp_shares < lp_shares {
            return true;
        }
        let market = match self.load_market(market_id) {
            Ok(market) => market,
            Err(_) => return true,
        };
        let payout: Option<i128> = if market.total_lp_shares > 0 {
            proof {
                if in_range(lp_shares * market.lp_pool) {
                    crate::math::lemma_quotient_in_range(
                        lp_shares * market.lp_pool,
                        market.total_lp_shares as int,
                    );
                }
            }
            scaled(lp_shares, market.lp_pool, market.total_lp_shares)
        } else {
            Some(lp_shares)
        };
        let taken: i128 = match Self::taken_for(&position, lp_shares) {
            Some(taken) => taken,
            None => return false,
        };
        match payout {
            None => false,
            Some(payout) => difference_fits(market.lp_pool, payout) && difference_fits(
                market.total_lp_shares,
                lp_shares,
            ) && difference_fits(position.lp_shares, lp_shares) && difference_fits(
                market.fees_paid,
                taken,
            ) && difference_fits(position.fee_taken, taken),
        }
    }

    /// The part of what a position was paid in fees that goes with `lp_shares` of its
    /// shares, if every amount on the way there can be represented.
    fn taken_for(position: &Position, lp_shares: i128) -> (taken: Option<i128>)
        ensures
            taken is Some <==> {
                &&& position@.lp_shares > 0 ==> in_range(position@.fee_taken * lp_shares)
                &&& in_range(position@.taken_for(lp_shares as int))
            },
            taken is Some ==> taken->0 == position@.taken_for(lp_shares as int),
    {
        if position.lp_shares > 0 {
            scaled(position.fee_taken, lp_shares, position.lp_shares)
        } else {
            Some(0)
        }
    }

    /// The fees that a position can claim, if every amount on the way there can be
    /// represented.
    fn fees_due(market: &Market, position: &Position) -> (due: Option<i128>)
        ensures
            due is Some <==> position@.fees_due_fit(market@),
            due is Some ==> due->0 == position@.fees_due(market@),
    {
        let base: i128 = if market.total_lp_shares >= 1 {
            market.total_lp_shares
        } else {
            1
        };
        let credited: i128 = market.lp_fees.checked_add(market.fees_paid)?;
        proof {
            if in_range(position.lp_shares * credited) {
                crate::math::lemma_quotient_in_range(position.lp_shares * credited, base as int);
            }
        }
        let share: i128 = scaled(position.lp_shares, credited, base)?;
        let unpaid: i128 = share.checked_sub(position.fee_taken)?;
        let left: i128 = if unpaid <= market.lp_fees {
            unpaid
        } else {
            market.lp_fees
        };
        Some(
            if left >= 0 {
                left
            } else {
                0
            },
        )
    }

    /// Takes the fees that a provider's shares are due.
    pub fn claim_lp_fees(&mut self, provider: Address, market_id: u32) -> (result: Result<
        i128,
        Error,
    >)
        requires
            old(self)@.claim_fits(provider, market_id),
        ensures
            match old(self)@.claim_refusal(provider, market_id) {
                Some(e) => result == Err::<i128, Error>(e),
                None => as_int(result) == Ok::<int, Error>(
                    old(self)@.position(market_id, provider).fees_due(
                        old(self)@.markets[market_id],
                    ),
                ),
            },
            result is Ok ==> final(self)@ == old(self)@.after_claim(provider, market_id),
            result is Err ==> final(self)@ == old(self)@,
    {
        self.require_not_paused()?;
        let mut market = self.load_market(market_id)?;
        let mut position = self.load_position(market_id, provider);
        if position.lp_shares == 0 {
            return Err(Error::NothingToRedeem);
        }
        let due: i128 = Self::fees_due(&market, &position).unwrap();
        proof {
            crate::math::lemma_quotient_in_range(
                position@.lp_shares * market@.credited(),
                crate::math::greatest(market@.total_lp_shares, 1),
            );
        }
        market.lp_fees = market.lp_fees - due;
        market.fees_paid = market.fees_paid + due;
        position.fee_taken = position.fee_taken + due;
        self.save_market(market_id, market);
        self.save_position(market_id, provider, position);
        self.emit(Event::Claimed { market_id, provider, fee_share: due });
        Ok(due)
    }

    /// Whether every amount that `claim_lp_fees` computes can be represented.
    pub fn claim_in_range(&self, provider: Address, market_id: u32) -> (fits: bool)
        ensures
            fits == self@.claim_fits(provider, market_id),
    {
        let position = self.load_position(market_id, provider);
        if self.paused || position.lp_shares == 0 {
            return true;
        }
        match self.load_market(market_id) {
            Ok(market) => Self::fees_due(&market, &position).is_some(),
            Err(_) => true,
        }
    }
}

} // verus!
