//! Buying shares from the pools, and turning collateral into pairs of shares and
//! back.
use crate::contract::{as_int, verdict, PredictionMarket};
use crate::events::Event;
use crate::math::{divide, scaled, sum_fits};
use crate::model::{shares_bought, shares_bought_fits};
use crate::types::{Address, Error, MarketStatus};
use vstd::prelude::*;

verus! {

impl PredictionMarket {
    /// The shares that `amount` buys from a pool.
    pub fn calc_shares(amount: i128, own_pool: i128, other_pool: i128) -> (shares: i128)
        requires
            shares_bought_fits(amount as int, own_pool as int, other_pool as int),
        ensures
            shares == shares_bought(amount as int, own_pool as int, other_pool as int),
    {
        if own_pool == 0 && other_pool == 0 {
            return amount;
        }
        let denom: i128 = own_pool + amount;
        if denom == 0 {
            return 0;
        }
        divide(amount * (other_pool + own_pool), denom)
    }

    /// The shares that `amount` buys from a pool, if every amount on the way there can
    /// be represented.
    pub fn checked_shares(amount: i128, own_pool: i128, other_pool: i128) -> (shares: Option<i128>)
        ensures
            shares is Some <==> shares_bought_fits(
                amount as int,
                own_pool as int,
                other_pool as int,
            ),
            shares is Some ==> shares->0 == shares_bought(
                amount as int,
                own_pool as int,
                other_pool as int,
            ),
    {
        if own_pool == 0 && other_pool == 0 {
            return Some(amount);
        }
        match own_pool.checked_add(amount) {
            None => None,
            Some(denom) => if denom == 0 {
                Some(0)
            } else {
                match other_pool.checked_add(own_pool) {
                    None => None,
                    Some(both) => scaled(amount, both, denom),
                }
            },
        }
    }

    /// Buys YES shares for `amount`, or none at all if that would give fewer than
    /// `min_shares_out`.
    pub fn buy_yes(
        &mut self,
        now: u64,
        buyer: Address,
        market_id: u32,
        amount: i128,
        min_shares_out: i128,
    ) -> (result: Result<i128, Error>)
        requires
            old(self)@.buy_fits(
                true,
                now,
                buyer,
                market_id,
                amount as int,
                min_shares_out as int,
            ),
        ensures
            match old(self)@.buy_refusal(
                true,
                now,
                market_id,
                amount as int,
                min_shares_out as int,
            ) {
                Some(e) => result == Err::<i128, Error>(e),
                None => as_int(result) == Ok::<int, Error>(
                    old(self)@.markets[market_id].quote(true, amount as int),
                ),
            },
            result is Ok ==> final(self)@ == old(self)@.after_buy(true, buyer, market_id, amount),
            result is Err ==> final(self)@ == old(self)@,
    {
        let mut market = self.require_deposit(now, market_id, amount)?;
        let shares: i128 = Self::calc_shares(amount, market.yes_pool, market.no_pool);
        if shares < min_shares_out {
            return Err(Error::SlippageExceeded);
        }
        market.yes_pool = market.yes_pool + amount;
        market.yes_shares = market.yes_shares + shares;
        self.save_market(market_id, market);
        let mut position = self.load_position(market_id, buyer);
        position.yes_shares = position.yes_shares + shares;
        self.save_position(market_id, buyer, position);
        self.emit(Event::Traded { market_id, buyer, yes: true, amount, shares });
        Ok(shares)
    }

    /// Buys NO shares for `amount`, or none at all if that would give fewer than
    /// `min_shares_out`.
    pub fn buy_no(
        &mut self,
        now: u64,
        buyer: Address,
        market_id: u32,
        amount: i128,
        min_shares_out: i128,
    ) -> (result: Result<i128, Error>)
        requires
            old(self)@.buy_fits(
                false,
                now,
                buyer,
                market_id,
                amount as int,
                min_shares_out as int,
            ),
        ensures
            match old(self)@.buy_refusal(
                false,
                now,
                market_id,
                amount as int,
                min_shares_out as int,
            ) {
                Some(e) => result == Err::<i128, Error>(e),
                None => as_int(result) == Ok::<int, Error>(
                    old(self)@.markets[market_id].quote(false, amount as int),
                ),
            },
            result is Ok ==> final(self)@ == old(self)@.after_buy(false, buyer, market_id, amount),
            result is Err ==> final(self)@ == old(self)@,
    {
        let mut market = self.require_deposit(now, market_id, amount)?;
        let shares: i128 = Self::calc_shares(amount, market.no_pool, market.yes_pool);
        if shares < min_shares_out {
            return Err(Error::SlippageExceeded);
        }
        market.no_pool = market.no_pool + amount;
        market.no_shares = market.no_shares + shares;
        self.save_market(market_id, market);
        let mut position = self.load_position(market_id, buyer);
        position.no_shares = position.no_shares + shares;
        self.save_position(market_id, buyer, position);
        self.emit(Event::Traded { market_id, buyer, yes: false, amount, shares });
        Ok(shares)
    }

    /// Whether every amount that `buy_yes` (or, unless `yes`, `buy_no`) computes can be
    /// represented.
    pub fn buy_in_range(
        &self,
        yes: bool,
        now: u64,
        buyer: Address,
        market_id: u32,
        amount: i128,
        min_shares_out: i128,
    ) -> (fits: bool)
        ensures
            fits == self@.buy_fits(
                yes,
                now,
                buyer,
                market_id,
                amount as int,
                min_shares_out as int,
            ),
    {
        let market = match self.require_deposit(now, market_id, amount) {
            Ok(market) => market,
            Err(_) => return true,
        };
        let position = self.load_position(market_id, buyer);
        let (own_pool, other_pool, outstanding, held): (i128, i128, i128, i128) = if yes {
            (market.yes_pool, market.no_pool, market.yes_shares, position.yes_shares)
        } else {
            (market.no_pool, market.yes_pool, market.no_shares, position.no_shares)
        };
        match Self::checked_shares(amount, own_pool, other_pool) {
            None => false,
            Some(shares) => shares < min_shares_out || (sum_fits(own_pool, amount) && sum_fits(
                outstanding,
                shares,
            ) && sum_fits(held, shares)),
        }
    }

    /// Turns `amount` of collateral into as many YES and NO shares.
    pub fn split(&mut self, caller: Address, market_id: u32, amount: i128) -> (result: Result<
        (),
        Error,
    >)
        requires
            old(self)@.split_fits(caller, market_id, amount as int),
        ensures
            result == verdict(old(self)@.split_refusal(market_id, amount as int)),
            result is Ok ==> final(self)@ == old(self)@.after_split(caller, market_id, amount),
            result is Err ==> final(self)@ == old(self)@,
    {
        self.require_not_paused()?;
        let market = self.load_market(market_id)?;
        Self::require_status(&market, MarketStatus::Open)?;
        Self::require_positive(amount)?;
        self.transfer_in(caller, amount)?;
        let mut position = self.load_position(market_id, caller);
        position.yes_shares = position.yes_shares + amount;
        position.no_shares = position.no_shares + amount;
        position.split_tokens = position.split_tokens + amount;
        self.save_position(market_id, caller, position);
        self.emit(Event::Split { market_id, caller, amount });
        Ok(())
    }

    /// Whether every amount that `split` computes can be represented.
    pub fn split_in_range(&self, caller: Address, market_id: u32, amount: i128) -> (fits: bool)
        ensures
            fits == self@.split_fits(caller, market_id, amount as int),
    {
        if self.paused || amount <= 0 || self.token.is_none() {
            return true;
        }
        let position = self.load_position(market_id, caller);
        match self.load_market(market_id) {
            Ok(market) => market.status != MarketStatus::Open || (sum_fits(
                position.yes_shares,
                amount,
            ) && sum_fits(position.no_shares, amount) && sum_fits(position.split_tokens, amount)),
            Err(_) => true,
        }
    }

    /// Gives up `amount` pairs of YES and NO shares for the collateral that splitting
    /// put in for them.
    pub fn merge(&mut self, caller: Address, market_id: u32, amount: i128) -> (result: Result<
        (),
        Error,
    >)
        ensures
            result == verdict(old(self)@.merge_refusal(caller, market_id, amount as int)),
            result is Ok ==> final(self)@ == old(self)@.after_merge(caller, market_id, amount),
            result is Err ==> final(self)@ == old(self)@,
    {
        self.require_not_paused()?;
        let market = self.load_market(market_id)?;
        Self::require_status(&market, MarketStatus::Open)?;
        if amount < 0 {
            return Err(Error::InvalidAmount);
        }
        let mut position = self.load_position(market_id, caller);
        if position.yes_shares < amount || position.no_shares < amount {
            return Err(Error::InsufficientFunds);
        }
        let released: i128 = if amount <= position.split_tokens {
            amount
        } else {
            position.split_tokens
        };
        self.transfer_out(caller, released)?;
        position.yes_shares = position.yes_shares - amount;
        position.no_shares = position.no_shares - amount;
        position.split_tokens = position.split_tokens - released;
        self.save_position(market_id, caller, position);
        self.emit(Event::Merged { market_id, caller, amount });
        Ok(())
    }
}

} // verus!
