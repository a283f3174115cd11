//! The contract as a mathematical state: which requests are refused, why, and
//! what an accepted request leads to.
//!
//! For each request, `.._refusal` names the first check that it fails,
//! `after_..` is the state that it leads to when no check fails, and `.._fits`
//! says that every amount that it computes can be represented.
use crate::events::{Effect, Event};
use crate::math::{greatest, in_range, least, quotient, remainder};
use crate::types::{
    Address, BatchRedeemView, Error, MarketStatus, MarketView, PositionKey, PositionView,
    RedeemFailure, RedeemOutcome, MIN_DISPUTE_BOND, PRECISION,
};
use vstd::prelude::*;

verus! {

/// Everything that the contract remembers, and what it has asked the host to do.
#[verifier::ext_equal]
pub struct State {
    pub admin: Option<Address>,
    pub treasury: Option<Address>,
    pub token: Option<Address>,
    pub paused: bool,
    pub market_count: u32,
    pub treasury_balance: int,
    pub markets: Map<u32, MarketView>,
    pub positions: Map<PositionKey, PositionView>,
    pub effects: Seq<Effect>,
}

/// A position that holds nothing.
pub open spec fn no_position() -> PositionView {
    PositionView { yes_shares: 0, no_shares: 0, lp_shares: 0, split_tokens: 0, fee_taken: 0 }
}

/// The shares that `amount` buys from a pool: all of `amount` while both pools
/// are empty, and otherwise its part of the own pool's new size, times the value
/// of both pools.
pub open spec fn shares_bought(amount: int, own_pool: int, other_pool: int) -> int {
    if own_pool == 0 && other_pool == 0 {
        amount
    } else if own_pool + amount == 0 {
        0
    } else {
        quotient(amount * (other_pool + own_pool), own_pool + amount)
    }
}

/// Every amount on the way to `shares_bought` can be represented.
pub open spec fn shares_bought_fits(amount: int, own_pool: int, other_pool: int) -> bool {
    ||| own_pool == 0 && other_pool == 0
    ||| {
        &&& in_range(own_pool + amount)
        &&& own_pool + amount != 0 ==> {
            &&& in_range(other_pool + own_pool)
            &&& in_range(amount * (other_pool + own_pool))
            &&& in_range(shares_bought(amount, own_pool, other_pool))
        }
    }
}

impl MarketView {
    /// A market that has just been created.
    pub open spec fn fresh(
        creator: Address,
        question: Seq<u8>,
        oracle: Address,
        close_time: u64,
        resolution_deadline: u64,
    ) -> MarketView {
        MarketView {
            creator,
            question,
            yes_shares: 0,
            no_shares: 0,
            yes_pool: 0,
            no_pool: 0,
            lp_pool: 0,
            lp_fees: 0,
            status: MarketStatus::Open,
            outcome: None,
            dispute_bond: 0,
            disputer: None,
            oracle: Some(oracle),
            total_lp_shares: 0,
            dust: 0,
            fees_paid: 0,
            close_time,
            resolution_deadline,
        }
    }

    /// The pool of the side that is bought.
    pub open spec fn own_pool(self, yes: bool) -> int {
        if yes {
            self.yes_pool
        } else {
            self.no_pool
        }
    }

    /// The shares that `amount` buys on one side.
    pub open spec fn quote(self, yes: bool, amount: int) -> int {
        shares_bought(amount, self.own_pool(yes), self.own_pool(!yes))
    }

    /// The shares outstanding on one side.
    pub open spec fn side_shares(self, yes: bool) -> int {
        if yes {
            self.yes_shares
        } else {
            self.no_shares
        }
    }

    /// The market after `amount` has bought `shares` on one side.
    pub open spec fn traded(self, yes: bool, amount: int, shares: int) -> MarketView {
        if yes {
            MarketView {
                yes_pool: self.yes_pool + amount,
                yes_shares: self.yes_shares + shares,
                ..self
            }
        } else {
            MarketView {
                no_pool: self.no_pool + amount,
                no_shares: self.no_shares + shares,
                ..self
            }
        }
    }

    /// What both pools hold together.
    pub open spec fn total_pool(self) -> int {
        self.yes_pool + self.no_pool
    }

    /// The shares outstanding on the side that won.
    pub open spec fn total_winning(self) -> int {
        self.side_shares(self.outcome == Some(true))
    }

    /// What `held` winning shares are worth, in parts of `PRECISION`: their part of
    /// the pools, rounded once.
    pub open spec fn payout_parts(self, held: int) -> int {
        if self.total_winning() > 0 {
            quotient(held * PRECISION * self.total_pool(), self.total_winning())
        } else {
            0
        }
    }

    /// What `held` winning shares are paid, in whole units.
    pub open spec fn payout(self, held: int) -> int {
        quotient(self.payout_parts(held), PRECISION as int)
    }

    /// The market's dust once the fraction that `payout` drops is collected, before
    /// whole units of it are turned into fees.
    pub open spec fn collected_dust(self, held: int) -> int {
        self.dust + remainder(self.payout_parts(held), PRECISION as int)
    }

    /// The market after `held` winning shares have been redeemed: the fraction that
    /// was not paid is collected as dust, and whole units of dust become fees of the
    /// liquidity providers.
    pub open spec fn redeemed(self, held: int) -> MarketView {
        MarketView {
            lp_fees: self.lp_fees + quotient(self.collected_dust(held), PRECISION as int),
            dust: remainder(self.collected_dust(held), PRECISION as int),
            ..self
        }
    }

    /// The liquidity shares that a deposit of `amount` mints: as many as `amount` for
    /// the first provider, and otherwise in proportion to the value of the pool.
    pub open spec fn lp_minted(self, amount: int) -> int {
        if self.lp_pool == 0 || self.total_lp_shares == 0 {
            amount
        } else {
            quotient(amount * self.total_lp_shares, self.lp_pool)
        }
    }

    /// The value that `lp_shares` are withdrawn for: their part of the pool.
    pub open spec fn lp_value(self, lp_shares: int) -> int {
        if self.total_lp_shares > 0 {
            quotient(lp_shares * self.lp_pool, self.total_lp_shares)
        } else {
            lp_shares
        }
    }

    /// The fees that were credited to the liquidity shares that are outstanding, paid or
    /// not.
    pub open spec fn credited(self) -> int {
        self.lp_fees + self.fees_paid
    }

    /// The part of the credited fees that belongs to `lp_shares`.
    pub open spec fn fee_share(self, lp_shares: int) -> int {
        quotient(lp_shares * self.credited(), greatest(self.total_lp_shares, 1))
    }

    /// The market after `fees` have been paid to a provider.
    pub open spec fn fees_claimed(self, fees: int) -> MarketView {
        MarketView { lp_fees: self.lp_fees - fees, fees_paid: self.fees_paid + fees, ..self }
    }

    /// The market once its status is `status`.
    pub open spec fn with_status(self, status: MarketStatus) -> MarketView {
        MarketView { status, ..self }
    }
}

impl PositionView {
    /// The shares held on one side.
    pub open spec fn side_shares(self, yes: bool) -> int {
        if yes {
            self.yes_shares
        } else {
            self.no_shares
        }
    }

    /// The position with `shares` on one side.
    pub open spec fn with_side(self, yes: bool, shares: int) -> PositionView {
        if yes {
            PositionView { yes_shares: shares, ..self }
        } else {
            PositionView { no_shares: shares, ..self }
        }
    }

    /// What the position is refunded when its market is cancelled: each share at one.
    pub open spec fn refund(self) -> int {
        self.yes_shares + self.no_shares
    }

    /// The collateral that merging `amount` pairs releases: no more than splitting
    /// put in.
    pub open spec fn released(self, amount: int) -> int {
        least(amount, self.split_tokens)
    }

    /// The position after `amount` of collateral has been split into pairs.
    pub open spec fn split(self, amount: int) -> PositionView {
        PositionView {
            yes_shares: self.yes_shares + amount,
            no_shares: self.no_shares + amount,
            split_tokens: self.split_tokens + amount,
            ..self
        }
    }

    /// The position after `amount` pairs have been merged.
    pub open spec fn merged(self, amount: int) -> PositionView {
        PositionView {
            yes_shares: self.yes_shares - amount,
            no_shares: self.no_shares - amount,
            split_tokens: self.split_tokens - self.released(amount),
            ..self
        }
    }

    /// The fees that the position can claim: what its part of the credited fees is beyond
    /// what it was paid, and no more than is left.
    pub open spec fn fees_due(self, market: MarketView) -> int {
        greatest(0, least(market.fee_share(self.lp_shares) - self.fee_taken, market.lp_fees))
    }

    /// Every amount on the way to `fees_due` can be represented.
    pub open spec fn fees_due_fit(self, market: MarketView) -> bool {
        &&& in_range(market.credited())
        &&& in_range(self.lp_shares * market.credited())
        &&& in_range(market.fee_share(self.lp_shares) - self.fee_taken)
    }

    /// The part of what the position was paid in fees that goes with `lp_shares` of its
    /// shares.
    pub open spec fn taken_for(self, lp_shares: int) -> int {
        if self.lp_shares > 0 {
            quotient(self.fee_taken * lp_shares, self.lp_shares)
        } else {
            0
        }
    }

    /// The position after its shares have been refunded.
    pub open spec fn refunded(self) -> PositionView {
        PositionView { yes_shares: 0, no_shares: 0, split_tokens: 0, ..self }
    }
}

// Reading and writing the state.
impl State {
    /// The position of `user` in a market; one that was never written holds nothing.
    pub open spec fn position(self, market_id: u32, user: Address) -> PositionView {
        let key = PositionKey { market_id, user };
        if self.positions.contains_key(key) {
            self.positions[key]
        } else {
            no_position()
        }
    }

    pub open spec fn with_market(self, market_id: u32, market: MarketView) -> State {
        State { markets: self.markets.insert(market_id, market), ..self }
    }

    pub open spec fn with_position(
        self,
        market_id: u32,
        user: Address,
        position: PositionView,
    ) -> State {
        State {
            positions: self.positions.insert(PositionKey { market_id, user }, position),
            ..self
        }
    }

    pub open spec fn with_effect(self, effect: Effect) -> State {
        State { effects: self.effects.push(effect), ..self }
    }

    pub open spec fn with_event(self, event: Event) -> State {
        self.with_effect(Effect::Publish { event })
    }

    /// The host is asked to take `amount` from a party; nothing is asked for an
    /// amount that is not positive.
    pub open spec fn with_transfer_in(self, from: Address, amount: int) -> State {
        if amount > 0 {
            self.with_effect(Effect::TransferIn { from, amount: amount as i128 })
        } else {
            self
        }
    }

    /// The host is asked to pay `amount` to a party; nothing is asked for an amount
    /// that is not positive.
    pub open spec fn with_transfer_out(self, to: Address, amount: int) -> State {
        if amount > 0 {
            self.with_effect(Effect::TransferOut { to, amount: amount as i128 })
        } else {
            self
        }
    }
}

// Checks that several requests share.
impl State {
    pub open spec fn admin_refusal(self, caller: Address) -> Option<Error> {
        match self.admin {
            None => Some(Error::NotInitialized),
            Some(admin) => if caller != admin {
                Some(Error::Unauthorized)
            } else {
                None
            },
        }
    }

    pub open spec fn admin_or_creator_refusal(
        self,
        caller: Address,
        creator: Address,
    ) -> Option<Error> {
        if self.admin_refusal(caller) is None || caller == creator {
            None
        } else {
            Some(Error::Unauthorized)
        }
    }

    /// Moving tokens takes a token to move.
    pub open spec fn transfer_refusal(self, amount: int) -> Option<Error> {
        if amount > 0 && self.token is None {
            Some(Error::NotInitialized)
        } else {
            None
        }
    }

    pub open spec fn lookup_refusal(self, market_id: u32) -> Option<Error> {
        if self.markets.contains_key(market_id) {
            None
        } else {
            Some(Error::MarketNotFound)
        }
    }

    /// The contract is not paused and the market exists.
    pub open spec fn market_refusal(self, market_id: u32) -> Option<Error> {
        if self.paused {
            Some(Error::ContractPaused)
        } else {
            self.lookup_refusal(market_id)
        }
    }

    /// The market can be reached and its status is `expected`.
    pub open spec fn status_refusal(
        self,
        market_id: u32,
        expected: MarketStatus,
    ) -> Option<Error> {
        match self.market_refusal(market_id) {
            Some(e) => Some(e),
            None => wrong_status(self.markets[market_id].status, expected),
        }
    }

    /// The market is open and its close time has not come.
    pub open spec fn trading_refusal(self, now: u64, market_id: u32) -> Option<Error> {
        match self.status_refusal(market_id, MarketStatus::Open) {
            Some(e) => Some(e),
            None => if now >= self.markets[market_id].close_time {
                Some(Error::TradingClosed)
            } else {
                None
            },
        }
    }

    /// The market can be traded and the amount is positive.
    pub open spec fn deposit_refusal(self, now: u64, market_id: u32, amount: int) -> Option<
        Error,
    > {
        match self.trading_refusal(now, market_id) {
            Some(e) => Some(e),
            None => amount_refusal(amount),
        }
    }
}

/// An amount has to be positive.
pub open spec fn amount_refusal(amount: int) -> Option<Error> {
    if amount <= 0 {
        Some(Error::InvalidAmount)
    } else {
        None
    }
}

/// What a market is refused for when its status is not the expected one.
pub open spec fn wrong_status(status: MarketStatus, expected: MarketStatus) -> Option<Error> {
    if status == expected {
        None
    } else {
        match expected {
            MarketStatus::Closed => Some(Error::MarketNotClosed),
            MarketStatus::Resolved => Some(Error::MarketNotResolved),
            _ => Some(Error::MarketNotOpen),
        }
    }
}

// Administration.
impl State {
    pub open spec fn init_refusal(self) -> Option<Error> {
        if self.admin is Some {
            Some(Error::AlreadyInitialized)
        } else {
            None
        }
    }

    pub open spec fn after_init(self, admin: Address, treasury: Address, token: Address) -> State {
        State {
            admin: Some(admin),
            treasury: Some(treasury),
            token: Some(token),
            paused: false,
            market_count: 0,
            ..self
        }.with_event(Event::Init { admin, treasury })
    }

    pub open spec fn after_pause(self, caller: Address) -> State {
        State { paused: true, ..self }.with_event(Event::Paused { caller })
    }

    pub open spec fn after_unpause(self, caller: Address) -> State {
        State { paused: false, ..self }.with_event(Event::Unpaused { caller })
    }

    pub open spec fn after_upgrade(self, caller: Address, wasm_hash: [u8; 32]) -> State {
        self.with_effect(Effect::Upgrade { wasm_hash }).with_event(
            Event::Upgraded { caller, wasm_hash },
        )
    }
}

// The life of a market.
impl State {
    pub open spec fn create_refusal(
        self,
        now: u64,
        close_time: u64,
        resolution_deadline: u64,
    ) -> Option<Error> {
        if self.paused {
            Some(Error::ContractPaused)
        } else if close_time <= now || resolution_deadline <= close_time {
            Some(Error::InvalidDeadline)
        } else {
            None
        }
    }

    pub open spec fn create_fits(
        self,
        now: u64,
        close_time: u64,
        resolution_deadline: u64,
    ) -> bool {
        self.create_refusal(now, close_time, resolution_deadline) is None ==> self.market_count
            < u32::MAX
    }

    pub open spec fn after_create(
        self,
        creator: Address,
        question: Seq<u8>,
        oracle: Address,
        close_time: u64,
        resolution_deadline: u64,
    ) -> State {
        let market_id = self.market_count;
        State { market_count: (market_id + 1) as u32, ..self }.with_market(
            market_id,
            MarketView::fresh(creator, question, oracle, close_time, resolution_deadline),
        ).with_event(Event::Created { market_id, creator, oracle })
    }

    pub open spec fn seed_fits(self, now: u64, market_id: u32, amount: int) -> bool {
        self.deposit_refusal(now, market_id, amount) is None ==> {
            &&& in_range(self.markets[market_id].yes_pool + amount)
            &&& in_range(self.markets[market_id].no_pool + amount)
        }
    }

    pub open spec fn after_seed(self, caller: Address, market_id: u32, amount: i128) -> State {
        let market = self.markets[market_id];
        self.with_market(
            market_id,
            MarketView {
                yes_pool: market.yes_pool + amount,
                no_pool: market.no_pool + amount,
                ..market
            },
        ).with_event(Event::Seeded { market_id, caller, amount })
    }

    /// The admin may close a market at any time, its creator once its close time has
    /// come.
    pub open spec fn close_refusal(self, now: u64, caller: Address, market_id: u32) -> Option<
        Error,
    > {
        let market = self.markets[market_id];
        match self.status_refusal(market_id, MarketStatus::Open) {
            Some(e) => Some(e),
            None => match self.admin_or_creator_refusal(caller, market.creator) {
                Some(e) => Some(e),
                None => if now < market.close_time {
                    self.admin_refusal(caller)
                } else {
                    None
                },
            },
        }
    }

    pub open spec fn after_close(self, caller: Address, market_id: u32) -> State {
        self.with_market(
            market_id,
            self.markets[market_id].with_status(MarketStatus::Closed),
        ).with_event(Event::Closed { market_id, caller })
    }

    pub open spec fn report_refusal(self, now: u64, caller: Address, market_id: u32) -> Option<
        Error,
    > {
        let market = self.markets[market_id];
        match self.status_refusal(market_id, MarketStatus::Closed) {
            Some(e) => Some(e),
            None => if market.oracle != Some(caller) {
                Some(Error::Unauthorized)
            } else if now < market.close_time {
                Some(Error::MarketNotExpired)
            } else {
                None
            },
        }
    }

    pub open spec fn after_report(self, caller: Address, market_id: u32, outcome: bool) -> State {
        let market = self.markets[market_id];
        self.with_market(
            market_id,
            MarketView { outcome: Some(outcome), ..market },
        ).with_event(Event::Reported { market_id, caller, outcome })
    }

    /// A dispute needs a reported outcome and a bond that is large enough.
    pub open spec fn dispute_refusal(self, market_id: u32, bond: int) -> Option<Error> {
        match self.status_refusal(market_id, MarketStatus::Closed) {
            Some(e) => Some(e),
            None => if self.markets[market_id].outcome is None {
                Some(Error::InvalidOutcome)
            } else if bond < MIN_DISPUTE_BOND {
                Some(Error::InvalidAmount)
            } else {
                self.transfer_refusal(bond)
            },
        }
    }

    pub open spec fn after_dispute(self, disputer: Address, market_id: u32, bond: i128) -> State {
        let market = self.markets[market_id];
        self.with_transfer_in(disputer, bond as int).with_market(
            market_id,
            MarketView {
                status: MarketStatus::Disputed,
                disputer: Some(disputer),
                dispute_bond: bond as int,
                ..market
            },
        ).with_event(Event::Disputed { market_id, disputer, bond })
    }

    /// Only the admin decides a dispute, and not while the contract is paused.
    pub open spec fn ruling_refusal(self, caller: Address, market_id: u32) -> Option<Error> {
        if self.paused {
            Some(Error::ContractPaused)
        } else {
            match self.admin_refusal(caller) {
                Some(e) => Some(e),
                None => self.status_refusal(market_id, MarketStatus::Disputed),
            }
        }
    }

    pub open spec fn after_uphold(self, caller: Address, market_id: u32, outcome: bool) -> State {
        let market = self.markets[market_id];
        self.with_market(
            market_id,
            MarketView {
                outcome: Some(outcome),
                status: MarketStatus::EmergencyResolved,
                ..market
            },
        ).with_event(Event::Upheld { market_id, caller, outcome })
    }

    pub open spec fn reject_refusal(self, caller: Address, market_id: u32) -> Option<Error> {
        match self.ruling_refusal(caller, market_id) {
            Some(e) => Some(e),
            None => if self.treasury is None {
                Some(Error::NotInitialized)
            } else {
                None
            },
        }
    }

    pub open spec fn reject_fits(self, caller: Address, market_id: u32) -> bool {
        self.reject_refusal(caller, market_id) is None ==> in_range(
            self.treasury_balance + self.markets[market_id].dispute_bond,
        )
    }

    /// The bond goes to the treasury and the market is closed again.
    pub open spec fn after_reject(self, caller: Address, market_id: u32) -> State {
        let market = self.markets[market_id];
        State { treasury_balance: self.treasury_balance + market.dispute_bond, ..self }.with_market(
            market_id,
            MarketView {
                dispute_bond: 0,
                disputer: None,
                status: MarketStatus::Closed,
                ..market
            },
        ).with_event(Event::Rejected { market_id, caller, slashed: market.dispute_bond as i128 })
    }

    pub open spec fn finalize_refusal(self, market_id: u32) -> Option<Error> {
        let market = self.markets[market_id];
        match self.market_refusal(market_id) {
            Some(e) => Some(e),
            None => if market.status != MarketStatus::Closed && market.status
                != MarketStatus::EmergencyResolved {
                Some(Error::MarketNotClosed)
            } else if market.outcome is None {
                Some(Error::InvalidOutcome)
            } else {
                None
            },
        }
    }

    pub open spec fn after_finalize(self, market_id: u32) -> State {
        let market = self.markets[market_id];
        self.with_market(market_id, market.with_status(MarketStatus::Resolved)).with_event(
            Event::Resolved { market_id, winner: market.outcome },
        )
    }

    pub open spec fn cancel_refusal(self, caller: Address, market_id: u32) -> Option<Error> {
        let market = self.markets[market_id];
        match self.market_refusal(market_id) {
            Some(e) => Some(e),
            None => match self.admin_or_creator_refusal(caller, market.creator) {
                Some(e) => Some(e),
                None => if market.status == MarketStatus::Cancelled {
                    Some(Error::MarketAlreadyCancelled)
                } else {
                    None
                },
            },
        }
    }

    pub open spec fn after_cancel(self, caller: Address, market_id: u32) -> State {
        self.with_market(
            market_id,
            self.markets[market_id].with_status(MarketStatus::Cancelled),
        ).with_event(Event::Cancelled { market_id, caller })
    }

    /// An unreported market can be cancelled by anyone once its resolution deadline
    /// has passed.
    pub open spec fn timeout_refusal(self, now: u64, market_id: u32) -> Option<Error> {
        let market = self.markets[market_id];
        match self.market_refusal(market_id) {
            Some(e) => Some(e),
            None => if market.status != MarketStatus::Open && market.status
                != MarketStatus::Closed {
                Some(Error::MarketNotOpen)
            } else if market.outcome is Some {
                Some(Error::InvalidOutcome)
            } else if now <= market.resolution_deadline {
                Some(Error::ResolutionDeadlineNotReached)
            } else {
                None
            },
        }
    }

    pub open spec fn after_timeout(self, market_id: u32) -> State {
        self.with_market(
            market_id,
            self.markets[market_id].with_status(MarketStatus::Cancelled),
        ).with_event(Event::TimedOut { market_id })
    }

    /// Only the admin contains a market, and also while the contract is paused.
    pub open spec fn drain_refusal(self, caller: Address, market_id: u32) -> Option<Error> {
        match self.admin_refusal(caller) {
            Some(e) => Some(e),
            None => match self.lookup_refusal(market_id) {
                Some(e) => Some(e),
                None => if self.markets[market_id].status == MarketStatus::Cancelled {
                    Some(Error::MarketAlreadyCancelled)
                } else {
                    None
                },
            },
        }
    }

    pub open spec fn after_drain(self, caller: Address, market_id: u32) -> State {
        self.with_market(
            market_id,
            self.markets[market_id].with_status(MarketStatus::Cancelled),
        ).with_event(Event::Drained { market_id, caller })
    }
}

// Trading.
impl State {
    pub open spec fn buy_refusal(
        self,
        yes: bool,
        now: u64,
        market_id: u32,
        amount: int,
        min_shares_out: int,
    ) -> Option<Error> {
        match self.deposit_refusal(now, market_id, amount) {
            Some(e) => Some(e),
            None => if self.markets[market_id].quote(yes, amount) < min_shares_out {
                Some(Error::SlippageExceeded)
            } else {
                None
            },
        }
    }

    pub open spec fn buy_fits(
        self,
        yes: bool,
        now: u64,
        buyer: Address,
        market_id: u32,
        amount: int,
        min_shares_out: int,
    ) -> bool {
        let market = self.markets[market_id];
        let shares = market.quote(yes, amount);
        &&& self.deposit_refusal(now, market_id, amount) is None ==> shares_bought_fits(
            amount,
            market.own_pool(yes),
            market.own_pool(!yes),
        )
        &&& self.buy_refusal(yes, now, market_id, amount, min_shares_out) is None ==> {
            &&& in_range(market.own_pool(yes) + amount)
            &&& in_range(market.side_shares(yes) + shares)
            &&& in_range(self.position(market_id, buyer).side_shares(yes) + shares)
        }
    }

    pub open spec fn after_buy(
        self,
        yes: bool,
        buyer: Address,
        market_id: u32,
        amount: i128,
    ) -> State {
        let market = self.markets[market_id];
        let shares = market.quote(yes, amount as int);
        let position = self.position(market_id, buyer);
        self.with_market(market_id, market.traded(yes, amount as int, shares)).with_position(
            market_id,
            buyer,
            position.with_side(yes, position.side_shares(yes) + shares),
        ).with_event(Event::Traded { market_id, buyer, yes, amount, shares: shares as i128 })
    }

    pub open spec fn split_refusal(self, market_id: u32, amount: int) -> Option<Error> {
        match self.status_refusal(market_id, MarketStatus::Open) {
            Some(e) => Some(e),
            None => match amount_refusal(amount) {
                Some(e) => Some(e),
                None => self.transfer_refusal(amount),
            },
        }
    }

    pub open spec fn split_fits(self, caller: Address, market_id: u32, amount: int) -> bool {
        let position = self.position(market_id, caller);
        self.split_refusal(market_id, amount) is None ==> {
            &&& in_range(position.yes_shares + amount)
            &&& in_range(position.no_shares + amount)
            &&& in_range(position.split_tokens + amount)
        }
    }

    pub open spec fn after_split(self, caller: Address, market_id: u32, amount: i128) -> State {
        self.with_transfer_in(caller, amount as int).with_position(
            market_id,
            caller,
            self.position(market_id, caller).split(amount as int),
        ).with_event(Event::Split { market_id, caller, amount })
    }

    pub open spec fn merge_refusal(self, caller: Address, market_id: u32, amount: int) -> Option<
        Error,
    > {
        let position = self.position(market_id, caller);
        match self.status_refusal(market_id, MarketStatus::Open) {
            Some(e) => Some(e),
            None => if amount < 0 {
                Some(Error::InvalidAmount)
            } else if position.yes_shares < amount || position.no_shares < amount {
                Some(Error::InsufficientFunds)
            } else {
                self.transfer_refusal(position.released(amount))
            },
        }
    }

    pub open spec fn after_merge(self, caller: Address, market_id: u32, amount: i128) -> State {
        let position = self.position(market_id, caller);
        self.with_transfer_out(caller, position.released(amount as int)).with_position(
            market_id,
            caller,
            position.merged(amount as int),
        ).with_event(Event::Merged { market_id, caller, amount })
    }
}

// Redemption.
impl State {
    pub open spec fn redeem_refusal(self, redeemer: Address, market_id: u32) -> Option<Error> {
        let market = self.markets[market_id];
        let position = self.position(market_id, redeemer);
        match self.market_refusal(market_id) {
            Some(e) => Some(e),
            None => if market.status == MarketStatus::Cancelled {
                if position.refund() <= 0 {
                    Some(Error::NothingToRedeem)
                } else {
                    self.transfer_refusal(position.split_tokens)
                }
            } else if market.status != MarketStatus::Resolved && market.status
                != MarketStatus::EmergencyResolved {
                Some(Error::MarketNotResolved)
            } else if market.outcome is None {
                Some(Error::InvalidOutcome)
            } else if position.side_shares(market.outcome == Some(true)) == 0 {
                Some(Error::NothingToRedeem)
            } else {
                None
            },
        }
    }

    /// What an accepted redemption is worth: the refund of a cancelled market, and
    /// the payout of a resolved one.
    pub open spec fn redeem_value(self, redeemer: Address, market_id: u32) -> int {
        let market = self.markets[market_id];
        let position = self.position(market_id, redeemer);
        if market.status == MarketStatus::Cancelled {
            position.refund()
        } else {
            market.payout(position.side_shares(market.outcome == Some(true)))
        }
    }

    pub open spec fn redeem_fits(self, redeemer: Address, market_id: u32) -> bool {
        let market = self.markets[market_id];
        let position = self.position(market_id, redeemer);
        let held = position.side_shares(market.outcome == Some(true));
        &&& self.market_refusal(market_id) is None && market.status == MarketStatus::Cancelled
            ==> in_range(position.refund())
        &&& self.redeem_refusal(redeemer, market_id) is None && market.status
            != MarketStatus::Cancelled ==> {
            &&& in_range(market.total_pool())
            &&& market.total_winning() > 0 ==> {
                &&& in_range(held * market.total_pool())
                &&& in_range(
                    PRECISION * remainder(held * market.total_pool(), market.total_winning()),
                )
            }
            &&& in_range(market.collected_dust(held))
            &&& in_range(market.redeemed(held).lp_fees)
        }
    }

    pub open spec fn after_redeem(self, redeemer: Address, market_id: u32) -> State {
        let market = self.markets[market_id];
        let position = self.position(market_id, redeemer);
        let value = self.redeem_value(redeemer, market_id);
        if market.status == MarketStatus::Cancelled {
            self.with_transfer_out(redeemer, position.split_tokens).with_position(
                market_id,
                redeemer,
                position.refunded(),
            ).with_event(Event::Refunded { market_id, redeemer, refund: value as i128 })
        } else {
            let yes = market.outcome == Some(true);
            self.with_market(market_id, market.redeemed(position.side_shares(yes))).with_position(
                market_id,
                redeemer,
                position.with_side(yes, 0),
            ).with_event(Event::Redeemed { market_id, redeemer, payout: value as i128 })
        }
    }

    /// The state after redeeming in one market, whether that is accepted or not.
    pub open spec fn redeem_step(self, redeemer: Address, market_id: u32) -> State {
        if self.redeem_refusal(redeemer, market_id) is None {
            self.after_redeem(redeemer, market_id)
        } else {
            self
        }
    }

    /// The state after redeeming in each of `market_ids`, in order.
    pub open spec fn after_batch(self, redeemer: Address, market_ids: Seq<u32>) -> State
        decreases market_ids.len(),
    {
        if market_ids.len() == 0 {
            self
        } else {
            self.after_batch(redeemer, market_ids.drop_last()).redeem_step(
                redeemer,
                market_ids.last(),
            )
        }
    }

    /// What redeeming in each of `market_ids`, in order, reports.
    pub open spec fn batch_report(self, redeemer: Address, market_ids: Seq<u32>) -> BatchRedeemView
        decreases market_ids.len(),
    {
        if market_ids.len() == 0 {
            BatchRedeemView { successes: Seq::empty(), failures: Seq::empty(), total_payout: 0 }
        } else {
            let market_id = market_ids.last();
            let before = self.after_batch(redeemer, market_ids.drop_last());
            let report = self.batch_report(redeemer, market_ids.drop_last());
            let payout = before.redeem_value(redeemer, market_id);
            match before.redeem_refusal(redeemer, market_id) {
                None => BatchRedeemView {
                    successes: report.successes.push(
                        RedeemOutcome { market_id, payout: payout as i128 },
                    ),
                    total_payout: report.total_payout + payout,
                    ..report
                },
                Some(error) => BatchRedeemView {
                    failures: report.failures.push(RedeemFailure { market_id, error }),
                    ..report
                },
            }
        }
    }

    pub open spec fn batch_fits(self, redeemer: Address, market_ids: Seq<u32>) -> bool
        decreases market_ids.len(),
    {
        market_ids.len() > 0 ==> {
            &&& self.batch_fits(redeemer, market_ids.drop_last())
            &&& self.after_batch(redeemer, market_ids.drop_last()).redeem_fits(
                redeemer,
                market_ids.last(),
            )
            &&& in_range(self.batch_report(redeemer, market_ids).total_payout)
        }
    }
}

// Liquidity.
impl State {
    pub open spec fn add_fits(
        self,
        now: u64,
        provider: Address,
        market_id: u32,
        amount: int,
    ) -> bool {
        let market = self.markets[market_id];
        let minted = market.lp_minted(amount);
        self.deposit_refusal(now, market_id, amount) is None ==> {
            &&& market.lp_pool != 0 && market.total_lp_shares != 0 ==> in_range(
                amount * market.total_lp_shares,
            )
            &&& in_range(minted)
            &&& in_range(market.lp_pool + amount)
            &&& in_range(market.total_lp_shares + minted)
            &&& in_range(market.yes_pool + amount / 2)
            &&& in_range(market.no_pool + amount / 2)
            &&& in_range(self.position(market_id, provider).lp_shares + minted)
        }
    }

    pub open spec fn after_add(self, provider: Address, market_id: u32, amount: i128) -> State {
        let market = self.markets[market_id];
        let minted = market.lp_minted(amount as int);
        let position = self.position(market_id, provider);
        self.with_market(
            market_id,
            MarketView {
                lp_pool: market.lp_pool + amount,
                total_lp_shares: market.total_lp_shares + minted,
                yes_pool: market.yes_pool + amount as int / 2,
                no_pool: market.no_pool + amount as int / 2,
                ..market
            },
        ).with_position(
            market_id,
            provider,
            PositionView { lp_shares: position.lp_shares + minted, ..position },
        ).with_event(Event::Added { market_id, provider, amount, lp_shares: minted as i128 })
    }

    pub open spec fn remove_refusal(
        self,
        provider: Address,
        market_id: u32,
        lp_shares: int,
    ) -> Option<Error> {
        match self.market_refusal(market_id) {
            Some(e) => Some(e),
            None => if self.position(market_id, provider).lp_shares < lp_shares {
                Some(Error::InsufficientFunds)
            } else {
                None
            },
        }
    }

    pub open spec fn remove_fits(
        self,
        provider: Address,
        market_id: u32,
        lp_shares: int,
    ) -> bool {
        let market = self.markets[market_id];
        let position = self.position(market_id, provider);
        self.remove_refusal(provider, market_id, lp_shares) is None ==> {
            &&& market.total_lp_shares > 0 ==> in_range(lp_shares * market.lp_pool)
            &&& in_range(market.lp_pool - market.lp_value(lp_shares))
            &&& in_range(market.total_lp_shares - lp_shares)
            &&& in_range(position.lp_shares - lp_shares)
            &&& position.lp_shares > 0 ==> in_range(position.fee_taken * lp_shares)
            &&& in_range(position.taken_for(lp_shares))
            &&& in_range(market.fees_paid - position.taken_for(lp_shares))
            &&& in_range(position.fee_taken - position.taken_for(lp_shares))
        }
    }

    /// The value of the shares is paid out, and the fees that were paid for them are no
    /// longer counted.
    pub open spec fn after_remove(
        self,
        provider: Address,
        market_id: u32,
        lp_shares: i128,
    ) -> State {
        let market = self.markets[market_id];
        let payout = market.lp_value(lp_shares as int);
        let position = self.position(market_id, provider);
        let taken = position.taken_for(lp_shares as int);
        self.with_market(
            market_id,
            MarketView {
                lp_pool: market.lp_pool - payout,
                total_lp_shares: market.total_lp_shares - lp_shares,
                fees_paid: market.fees_paid - taken,
                ..market
            },
        ).with_position(
            market_id,
            provider,
            PositionView {
                lp_shares: position.lp_shares - lp_shares,
                fee_taken: position.fee_taken - taken,
                ..position
            },
        ).with_event(Event::Removed { market_id, provider, lp_shares, payout: payout as i128 })
    }

    pub open spec fn claim_refusal(self, provider: Address, market_id: u32) -> Option<Error> {
        match self.market_refusal(market_id) {
            Some(e) => Some(e),
            None => if self.position(market_id, provider).lp_shares == 0 {
                Some(Error::NothingToRedeem)
            } else {
                None
            },
        }
    }

    pub open spec fn claim_fits(self, provider: Address, market_id: u32) -> bool {
        self.claim_refusal(provider, market_id) is None ==> self.position(
            market_id,
            provider,
        ).fees_due_fit(self.markets[market_id])
    }

    pub open spec fn after_claim(self, provider: Address, market_id: u32) -> State {
        let market = self.markets[market_id];
        let position = self.position(market_id, provider);
        let due = position.fees_due(market);
        self.with_market(market_id, market.fees_claimed(due)).with_position(
            market_id,
            provider,
            PositionView { fee_taken: position.fee_taken + due, ..position },
        ).with_event(Event::Claimed { market_id, provider, fee_share: due as i128 })
    }
}

} // verus!
