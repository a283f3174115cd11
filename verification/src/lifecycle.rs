//! The life of a market: creation, seeding, closing, reporting, disputes, and
//! the ways it is settled or cancelled.
use crate::contract::{verdict, PredictionMarket};
use crate::events::Event;
use crate::math::sum_fits;
use crate::types::{Address, Error, Market, MarketStatus, MIN_DISPUTE_BOND};
use vstd::prelude::*;

verus! {

impl PredictionMarket {
    /// Opens a market for trading until `close_time` and gives it the next number.
    pub fn create_market(
        &mut self,
        now: u64,
        creator: Address,
        question: Vec<u8>,
        oracle: Address,
        close_time: u64,
        resolution_deadline: u64,
    ) -> (result: Result<u32, Error>)
        requires
            old(self)@.create_fits(now, close_time, resolution_deadline),
        ensures
            match old(self)@.create_refusal(now, close_time, resolution_deadline) {
                Some(e) => result == Err::<u32, Error>(e),
                None => result == Ok::<u32, Error>(old(self)@.market_count),
            },
            result is Ok ==> final(self)@ == old(self)@.after_create(
                creator,
                question@,
                oracle,
                close_time,
                resolution_deadline,
            ),
            result is Err ==> final(self)@ == old(self)@,
    {
        self.require_not_paused()?;
        if close_time <= now || resolution_deadline <= close_time {
            return Err(Error::InvalidDeadline);
        }
        let id: u32 = self.market_count;
        let market = Market {
            creator,
            question,
            yes_shares: 0,
            no_shares: 0,
            yes_pool: 0,
            no_pool: 0,
            lp_pool: 0,
            lp_fees: 0,
            status: MarketStatus::Open,
            outcome: None,
            dispute_bond: 0,
            disputer: None,
            oracle: Some(oracle),
            total_lp_shares: 0,
            dust: 0,
            fees_paid: 0,
            close_time,
            resolution_deadline,
        };
        self.save_market(id, market);
        self.market_count = id + 1;
        self.emit(Event::Created { market_id: id, creator, oracle });
        Ok(id)
    }

    /// Whether `create_market` can count the new market.
    pub fn create_in_range(&self, now: u64, close_time: u64, resolution_deadline: u64) -> (fits:
        bool)
        ensures
            fits == self@.create_fits(now, close_time, resolution_deadline),
    {
        self.paused || close_time <= now || resolution_deadline <= close_time || self.market_count
            < u32::MAX
    }

    /// Adds `amount` to both pools of an open market.
    pub fn seed_market(&mut self, now: u64, caller: Address, market_id: u32, amount: i128) -> (result:
        Result<(), Error>)
        requires
            old(self)@.seed_fits(now, market_id, amount as int),
        ensures
            result == verdict(old(self)@.deposit_refusal(now, market_id, amount as int)),
            result is Ok ==> final(self)@ == old(self)@.after_seed(caller, market_id, amount),
            result is Err ==> final(self)@ == old(self)@,
    {
        let mut market = self.require_deposit(now, market_id, amount)?;
        market.yes_pool = market.yes_pool + amount;
        market.no_pool = market.no_pool + amount;
        self.save_market(market_id, market);
        self.emit(Event::Seeded { market_id, caller, amount });
        Ok(())
    }

    /// Whether every amount that `seed_market` computes can be represented.
    pub fn seed_in_range(&self, now: u64, market_id: u32, amount: i128) -> (fits: bool)
        ensures
            fits == self@.seed_fits(now, market_id, amount as int),
    {
        match self.require_deposit(now, market_id, amount) {
            Ok(market) => sum_fits(market.yes_pool, amount) && sum_fits(market.no_pool, amount),
            Err(_) => true,
        }
    }

    /// Stops trading in a market. Before its close time only the admin may do so.
    pub fn close_market(&mut self, now: u64, caller: Address, market_id: u32) -> (result: Result<
        (),
        Error,
    >)
        ensures
            result == verdict(old(self)@.close_refusal(now, caller, market_id)),
            result is Ok ==> final(self)@ == old(self)@.after_close(caller, market_id),
            result is Err ==> final(self)@ == old(self)@,
    {
        self.require_not_paused()?;
        let mut market = self.load_market(market_id)?;
        Self::require_status(&market, MarketStatus::Open)?;
        self.require_admin_or_creator(caller, market.creator)?;
        if now < market.close_time {
            self.require_admin(caller)?;
        }
        market.status = MarketStatus::Closed;
        self.save_market(market_id, market);
        self.emit(Event::Closed { market_id, caller });
        Ok(())
    }

    /// The oracle says how the question of a closed market was answered. The market
    /// stays closed until it is finalized.
    pub fn oracle_report(&mut self, now: u64, caller: Address, market_id: u32, outcome: bool) -> (result:
        Result<(), Error>)
        ensures
            result == verdict(old(self)@.report_refusal(now, caller, market_id)),
            result is Ok ==> final(self)@ == old(self)@.after_report(caller, market_id, outcome),
            result is Err ==> final(self)@ == old(self)@,
    {
        self.require_not_paused()?;
        let mut market = self.load_market(market_id)?;
        Self::require_status(&market, MarketStatus::Closed)?;
        if market.oracle != Some(caller) {
            return Err(Error::Unauthorized);
        }
        if now < market.close_time {
            return Err(Error::MarketNotExpired);
        }
        market.outcome = Some(outcome);
        self.save_market(market_id, market);
        self.emit(Event::Reported { market_id, caller, outcome });
        Ok(())
    }

    /// Contests the reported outcome of a closed market and puts up a bond for it.
    pub fn dispute(&mut self, disputer: Address, market_id: u32, bond: i128) -> (result: Result<
        (),
        Error,
    >)
        ensures
            result == verdict(old(self)@.dispute_refusal(market_id, bond as int)),
            result is Ok ==> final(self)@ == old(self)@.after_dispute(disputer, market_id, bond),
            result is Err ==> final(self)@ == old(self)@,
    {
        self.require_not_paused()?;
        let mut market = self.load_market(market_id)?;
        Self::require_status(&market, MarketStatus::Closed)?;
        if market.outcome.is_none() {
            return Err(Error::InvalidOutcome);
        }
        if bond < MIN_DISPUTE_BOND {
            return Err(Error::InvalidAmount);
        }
        self.transfer_in(disputer, bond)?;
        market.status = MarketStatus::Disputed;
        market.disputer = Some(disputer);
        market.dispute_bond = bond;
        self.save_market(market_id, market);
        self.emit(Event::Disputed { market_id, disputer, bond });
        Ok(())
    }

    /// The admin agrees with a dispute and sets the outcome.
    pub fn admin_uphold_dispute(&mut self, caller: Address, market_id: u32, new_outcome: bool) -> (result:
        Result<(), Error>)
        ensures
            result == verdict(old(self)@.ruling_refusal(caller, market_id)),
            result is Ok ==> final(self)@ == old(self)@.after_uphold(
                caller,
                market_id,
                new_outcome,
            ),
            result is Err ==> final(self)@ == old(self)@,
    {
        self.require_not_paused()?;
        self.require_admin(caller)?;
        let mut market = self.load_market(market_id)?;
        Self::require_status(&market, MarketStatus::Disputed)?;
        market.outcome = Some(new_outcome);
        market.status = MarketStatus::EmergencyResolved;
        self.save_market(market_id, market);
        self.emit(Event::Upheld { market_id, caller, outcome: new_outcome });
        Ok(())
    }

    /// The admin turns a dispute down: its bond is forfeited to the treasury and the
    /// market is closed again, so that it can be finalized.
    pub fn admin_reject_dispute(&mut self, caller: Address, market_id: u32) -> (result: Result<
        (),
        Error,
    >)
        requires
            old(self)@.reject_fits(caller, market_id),
        ensures
            result == verdict(old(self)@.reject_refusal(caller, market_id)),
            result is Ok ==> final(self)@ == old(self)@.after_reject(caller, market_id),
            result is Err ==> final(self)@ == old(self)@,
    {
        self.require_not_paused()?;
        self.require_admin(caller)?;
        let mut market = self.load_market(market_id)?;
        Self::require_status(&market, MarketStatus::Disputed)?;
        if self.treasury.is_none() {
            return Err(Error::NotInitialized);
        }
        let slashed: i128 = market.dispute_bond;
        self.treasury_balance = self.treasury_balance + slashed;
        market.dispute_bond = 0;
        market.disputer = None;
        market.status = MarketStatus::Closed;
        self.save_market(market_id, market);
        self.emit(Event::Rejected { market_id, caller, slashed });
        Ok(())
    }

    /// Whether the treasury's balance can take the bond that `admin_reject_dispute`
    /// adds to it.
    pub fn reject_in_range(&self, caller: Address, market_id: u32) -> (fits: bool)
        ensures
            fits == self@.reject_fits(caller, market_id),
    {
        if self.paused || self.require_admin(caller).is_err() || self.treasury.is_none() {
            return true;
        }
        match self.load_market(market_id) {
            Ok(market) => market.status != MarketStatus::Disputed || sum_fits(
                self.treasury_balance,
                market.dispute_bond,
            ),
            Err(_) => true,
        }
    }

    /// Settles a market on its reported outcome.
    pub fn finalize(&mut self, market_id: u32) -> (result: Result<(), Error>)
        ensures
            result == verdict(old(self)@.finalize_refusal(market_id)),
            result is Ok ==> final(self)@ == old(self)@.after_finalize(market_id),
            result is Err ==> final(self)@ == old(self)@,
    {
        self.require_not_paused()?;
        let mut market = self.load_market(market_id)?;
        if market.status != MarketStatus::Closed && market.status
            != MarketStatus::EmergencyResolved {
            return Err(Error::MarketNotClosed);
        }
        if market.outcome.is_none() {
            return Err(Error::InvalidOutcome);
        }
        let winner = market.outcome;
        market.status = MarketStatus::Resolved;
        self.save_market(market_id, market);
        self.emit(Event::Resolved { market_id, winner });
        Ok(())
    }

    /// Calls a market off.
    pub fn cancel_market(&mut self, caller: Address, market_id: u32) -> (result: Result<(), Error>)
        ensures
            result == verdict(old(self)@.cancel_refusal(caller, market_id)),
            result is Ok ==> final(self)@ == old(self)@.after_cancel(caller, market_id),
            result is Err ==> final(self)@ == old(self)@,
    {
        self.require_not_paused()?;
        let mut market = self.load_market(market_id)?;
        self.require_admin_or_creator(caller, market.creator)?;
        if market.status == MarketStatus::Cancelled {
            return Err(Error::MarketAlreadyCancelled);
        }
        market.status = MarketStatus::Cancelled;
        self.save_market(market_id, market);
        self.emit(Event::Cancelled { market_id, caller });
        Ok(())
    }

    /// If the oracle has not reported by the resolution deadline, anyone may call the
    /// market off, so that its participants can reclaim what they hold.
    pub fn emergency_timeout_refund(&mut self, now: u64, market_id: u32) -> (result: Result<
        (),
        Error,
    >)
        ensures
            result == verdict(old(self)@.timeout_refusal(now, market_id)),
            result is Ok ==> final(self)@ == old(self)@.after_timeout(market_id),
            result is Err ==> final(self)@ == old(self)@,
    {
        self.require_not_paused()?;
        let mut market = self.load_market(market_id)?;
        if market.status != MarketStatus::Open && market.status != MarketStatus::Closed {
            return Err(Error::MarketNotOpen);
        }
        if market.outcome.is_some() {
            return Err(Error::InvalidOutcome);
        }
        if now <= market.resolution_deadline {
            return Err(Error::ResolutionDeadlineNotReached);
        }
        market.status = MarketStatus::Cancelled;
        self.save_market(market_id, market);
        self.emit(Event::TimedOut { market_id });
        Ok(())
    }

    /// The admin calls a market off in an emergency. Nothing but its status changes.
    pub fn emergency_drain_market(&mut self, caller: Address, market_id: u32) -> (result: Result<
        (),
        Error,
    >)
        ensures
            result == verdict(old(self)@.drain_refusal(caller, market_id)),
            result is Ok ==> final(self)@ == old(self)@.after_drain(caller, market_id),
            result is Err ==> final(self)@ == old(self)@,
    {
        self.require_admin(caller)?;
        let mut market = self.load_market(market_id)?;
        if market.status == MarketStatus::Cancelled {
            return Err(Error::MarketAlreadyCancelled);
        }
        market.status = MarketStatus::Cancelled;
        self.save_market(market_id, market);
        self.emit(Event::Drained { market_id, caller });
        Ok(())
    }
}

} // verus!
