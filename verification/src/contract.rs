//! The contract's stored state, its administration, and the checks and stored
//! records that all requests share.
//!
//! Whoever runs the contract has already made sure that the party named first in
//! a request has authorized it, passes the ledger's timestamp where a request
//! depends on the time, and carries out the effects that an accepted request asks
//! for. A refused request changes nothing.
use crate::events::{Effect, Event};
use crate::model::{amount_refusal, wrong_status, State};
use crate::table::Table;
use crate::types::{Address, Error, Market, MarketStatus, Position, PositionKey};
use vstd::prelude::*;

verus! {

/// Everything that the contract remembers between requests.
pub struct PredictionMarket {
    /// `None` until the contract is initialized, as are `treasury` and `token`.
    pub admin: Option<Address>,
    pub treasury: Option<Address>,
    pub token: Option<Address>,
    pub paused: bool,
    /// The number that the next market gets.
    pub market_count: u32,
    /// Bonds that rejected disputes have forfeited.
    pub treasury_balance: i128,
    pub markets: Table<u32, Market>,
    pub positions: Table<PositionKey, Position>,
    /// What the host has been asked to do and has not yet been handed.
    pub effects: Vec<Effect>,
}

impl View for PredictionMarket {
    type V = State;

    open spec fn view(&self) -> State {
        State {
            admin: self.admin,
            treasury: self.treasury,
            token: self.token,
            paused: self.paused,
            market_count: self.market_count,
            treasury_balance: self.treasury_balance as int,
            markets: self.markets@,
            positions: self.positions@,
            effects: self.effects@,
        }
    }
}

/// A refusal as a result.
pub open spec fn verdict(refusal: Option<Error>) -> Result<(), Error> {
    match refusal {
        Some(e) => Err(e),
        None => Ok(()),
    }
}

/// A result over integers.
pub open spec fn as_int(result: Result<i128, Error>) -> Result<int, Error> {
    match result {
        Ok(v) => Ok(v as int),
        Err(e) => Err(e),
    }
}

impl PredictionMarket {
    /// A contract that has not been initialized.
    pub fn new() -> (contract: Self)
        ensures
            contract@ == (State {
                admin: None,
                treasury: None,
                token: None,
                paused: false,
                market_count: 0,
                treasury_balance: 0,
                markets: Map::empty(),
                positions: Map::empty(),
                effects: Seq::empty(),
            }),
    {
        PredictionMarket {
            admin: None,
            treasury: None,
            token: None,
            paused: false,
            market_count: 0,
            treasury_balance: 0,
            markets: Table::new(),
            positions: Table::new(),
            effects: Vec::new(),
        }
    }

    /// Hands out what the host has to do, in order, and forgets it.
    pub fn take_effects(&mut self) -> (effects: Vec<Effect>)
        ensures
            effects@ == old(self)@.effects,
            final(self)@ == (State { effects: Seq::empty(), ..old(self)@ }),
    {
        let mut effects: Vec<Effect> = Vec::new();
        std::mem::swap(&mut effects, &mut self.effects);
        effects
    }
}

// Administration.
impl PredictionMarket {
    /// Names the admin, the treasury and the collateral token, once.
    pub fn init(&mut self, admin: Address, treasury: Address, token: Address) -> (result: Result<
        (),
        Error,
    >)
        ensures
            result == verdict(old(self)@.init_refusal()),
            result is Ok ==> final(self)@ == old(self)@.after_init(admin, treasury, token),
            result is Err ==> final(self)@ == old(self)@,
    {
        if self.admin.is_some() {
            return Err(Error::AlreadyInitialized);
        }
        self.admin = Some(admin);
        self.treasury = Some(treasury);
        self.token = Some(token);
        self.paused = false;
        self.market_count = 0;
        self.emit(Event::Init { admin, treasury });
        Ok(())
    }

    /// Stops every request but those by which the admin pauses, unpauses, upgrades and
    /// drains.
    pub fn pause(&mut self, caller: Address) -> (result: Result<(), Error>)
        ensures
            result == verdict(old(self)@.admin_refusal(caller)),
            result is Ok ==> final(self)@ == old(self)@.after_pause(caller),
            result is Err ==> final(self)@ == old(self)@,
    {
        self.require_admin(caller)?;
        self.paused = true;
        self.emit(Event::Paused { caller });
        Ok(())
    }

    /// Lets requests through again.
    pub fn unpause(&mut self, caller: Address) -> (result: Result<(), Error>)
        ensures
            result == verdict(old(self)@.admin_refusal(caller)),
            result is Ok ==> final(self)@ == old(self)@.after_unpause(caller),
            result is Err ==> final(self)@ == old(self)@,
    {
        self.require_admin(caller)?;
        self.paused = false;
        self.emit(Event::Unpaused { caller });
        Ok(())
    }

    /// Asks the host to replace the contract's code.
    pub fn upgrade(&mut self, caller: Address, wasm_hash: [u8; 32]) -> (result: Result<(), Error>)
        ensures
            result == verdict(old(self)@.admin_refusal(caller)),
            result is Ok ==> final(self)@ == old(self)@.after_upgrade(caller, wasm_hash),
            result is Err ==> final(self)@ == old(self)@,
    {
        self.require_admin(caller)?;
        self.effects.push(Effect::Upgrade { wasm_hash });
        self.emit(Event::Upgraded { caller, wasm_hash });
        Ok(())
    }
}

// Reading.
impl PredictionMarket {
    /// The record of a market.
    pub fn get_market(&self, market_id: u32) -> (result: Result<Market, Error>)
        ensures
            match result {
                Ok(market) => self@.markets.contains_key(market_id) && market@
                    == self@.markets[market_id],
                Err(e) => !self@.markets.contains_key(market_id) && e == Error::MarketNotFound,
            },
    {
        self.load_market(market_id)
    }

    /// What a party holds in a market.
    pub fn get_position(&self, market_id: u32, user: Address) -> (position: Position)
        ensures
            position@ == self@.position(market_id, user),
    {
        self.load_position(market_id, user)
    }

    /// The bonds that rejected disputes have forfeited.
    pub fn get_treasury_balance(&self) -> (balance: i128)
        ensures
            balance == self@.treasury_balance,
    {
        self.treasury_balance
    }

    /// The collateral token.
    pub fn get_token(&self) -> (result: Result<Address, Error>)
        ensures
            match self@.token {
                Some(token) => result == Ok::<Address, Error>(token),
                None => result == Err::<Address, Error>(Error::NotInitialized),
            },
    {
        match self.token {
            Some(token) => Ok(token),
            None => Err(Error::NotInitialized),
        }
    }
}

// Checks.
impl PredictionMarket {
    pub(crate) fn require_admin(&self, caller: Address) -> (result: Result<(), Error>)
        ensures
            result == verdict(self@.admin_refusal(caller)),
    {
        match self.admin {
            None => Err(Error::NotInitialized),
            Some(admin) => if caller != admin {
                Err(Error::Unauthorized)
            } else {
                Ok(())
            },
        }
    }

    pub(crate) fn require_admin_or_creator(&self, caller: Address, creator: Address) -> (result:
        Result<(), Error>)
        ensures
            result == verdict(self@.admin_or_creator_refusal(caller, creator)),
    {
        if self.require_admin(caller).is_ok() || caller == creator {
            return Ok(());
        }
        Err(Error::Unauthorized)
    }

    pub(crate) fn require_not_paused(&self) -> (result: Result<(), Error>)
        ensures
            self@.paused ==> result == Err::<(), Error>(Error::ContractPaused),
            !self@.paused ==> result == Ok::<(), Error>(()),
    {
        if self.paused {
            return Err(Error::ContractPaused);
        }
        Ok(())
    }

    pub(crate) fn require_status(market: &Market, expected: MarketStatus) -> (result: Result<
        (),
        Error,
    >)
        ensures
            result == verdict(wrong_status(market@.status, expected)),
    {
        if market.status != expected {
            return Err(
                match expected {
                    MarketStatus::Open => Error::MarketNotOpen,
                    MarketStatus::Closed => Error::MarketNotClosed,
                    MarketStatus::Resolved => Error::MarketNotResolved,
                    _ => Error::MarketNotOpen,
                },
            );
        }
        Ok(())
    }

    pub(crate) fn require_trading_open(now: u64, market: &Market) -> (result: Result<(), Error>)
        ensures
            now >= market@.close_time ==> result == Err::<(), Error>(Error::TradingClosed),
            now < market@.close_time ==> result == Ok::<(), Error>(()),
    {
        if now >= market.close_time {
            return Err(Error::TradingClosed);
        }
        Ok(())
    }

    /// Refuses an amount that is not positive.
    pub fn require_positive(amount: i128) -> (result: Result<(), Error>)
        ensures
            result == verdict(amount_refusal(amount as int)),
    {
        if amount <= 0 {
            return Err(Error::InvalidAmount);
        }
        Ok(())
    }

    /// The record of a market that can be traded, for a deposit of `amount`.
    pub(crate) fn require_deposit(&self, now: u64, market_id: u32, amount: i128) -> (result: Result<
        Market,
        Error,
    >)
        ensures
            match result {
                Ok(market) => {
                    &&& self@.deposit_refusal(now, market_id, amount as int) is None
                    &&& market@ == self@.markets[market_id]
                },
                Err(e) => self@.deposit_refusal(now, market_id, amount as int) == Some(e),
            },
    {
        self.require_not_paused()?;
        let market = self.load_market(market_id)?;
        Self::require_status(&market, MarketStatus::Open)?;
        Self::require_trading_open(now, &market)?;
        Self::require_positive(amount)?;
        Ok(market)
    }
}

// Stored records and effects.
impl PredictionMarket {
    /// Asks the host to take `amount` into custody, if it is positive.
    pub(crate) fn transfer_in(&mut self, from: Address, amount: i128) -> (result: Result<
        (),
        Error,
    >)
        ensures
            result == verdict(old(self)@.transfer_refusal(amount as int)),
            result is Ok ==> final(self)@ == old(self)@.with_transfer_in(from, amount as int),
            result is Err ==> final(self)@ == old(self)@,
    {
        if amount > 0 {
            self.get_token()?;
            self.effects.push(Effect::TransferIn { from, amount });
        }
        Ok(())
    }

    /// Asks the host to pay `amount` out of custody, if it is positive.
    pub(crate) fn transfer_out(&mut self, to: Address, amount: i128) -> (result: Result<
        (),
        Error,
    >)
        ensures
            result == verdict(old(self)@.transfer_refusal(amount as int)),
            result is Ok ==> final(self)@ == old(self)@.with_transfer_out(to, amount as int),
            result is Err ==> final(self)@ == old(self)@,
    {
        if amount > 0 {
            self.get_token()?;
            self.effects.push(Effect::TransferOut { to, amount });
        }
        Ok(())
    }

    pub(crate) fn emit(&mut self, event: Event)
        ensures
            final(self)@ == old(self)@.with_event(event),
    {
        self.effects.push(Effect::Publish { event });
    }

    pub(crate) fn load_market(&self, market_id: u32) -> (result: Result<Market, Error>)
        ensures
            match result {
                Ok(market) => {
                    &&& self@.lookup_refusal(market_id) is None
                    &&& market@ == self@.markets[market_id]
                },
                Err(e) => self@.lookup_refusal(market_id) == Some(e),
            },
    {
        match self.markets.get(&market_id) {
            Some(market) => Ok(market.clone()),
            None => Err(Error::MarketNotFound),
        }
    }

    pub(crate) fn save_market(&mut self, market_id: u32, market: Market)
        ensures
            final(self)@ == old(self)@.with_market(market_id, market@),
    {
        self.markets.set(market_id, market);
    }

    pub(crate) fn load_position(&self, market_id: u32, user: Address) -> (position: Position)
        ensures
            position@ == self@.position(market_id, user),
    {
        match self.positions.get(&PositionKey { market_id, user }) {
            Some(position) => *position,
            None => Position {
                yes_shares: 0,
                no_shares: 0,
                lp_shares: 0,
                split_tokens: 0,
                fee_taken: 0,
            },
        }
    }

    pub(crate) fn save_position(&mut self, market_id: u32, user: Address, position: Position)
        ensures
            final(self)@ == old(self)@.with_position(market_id, user, position@),
    {
        self.positions.set(PositionKey { market_id, user }, position);
    }
}

} // verus!
