//! The records the market keeps, the errors it reports and its constants.
use crate::table::Key;
use vstd::prelude::*;

verus! {

/// Ledgers close about every five seconds.
pub const DAY_IN_LEDGERS: u32 = 17_280;

/// Instance storage is extended once its time to live falls below this many ledgers.
pub const INSTANCE_BUMP_THRESHOLD: u32 = 7 * DAY_IN_LEDGERS;

/// The time to live of instance storage after an extension.
pub const INSTANCE_EXTEND_TO: u32 = 30 * DAY_IN_LEDGERS;

/// Market and position entries are extended once their time to live falls below this many
/// ledgers.
pub const PERSISTENT_BUMP_THRESHOLD: u32 = 30 * DAY_IN_LEDGERS;

/// The time to live of market and position entries after an extension.
pub const PERSISTENT_EXTEND_TO: u32 = 120 * DAY_IN_LEDGERS;

/// Payouts are computed in units of one part in this many, so that what rounding
/// takes from a redemption can be collected.
pub const PRECISION: i128 = 10_000_000;

/// The smallest bond that opens a dispute.
pub const MIN_DISPUTE_BOND: i128 = 10_000_000;

/// A party: an account or a contract. Two parties are the same exactly when
/// their numbers are.
#[derive(Clone, Copy, PartialEq, Eq, Structural, Debug)]
pub struct Address {
    pub id: u64,
}

/// Where a market stands between being created and being settled.
#[derive(Clone, Copy, PartialEq, Eq, Structural, Debug)]
pub enum MarketStatus {
    Open,
    Closed,
    Disputed,
    Resolved,
    Cancelled,
    EmergencyResolved,
}

/// Why a request was refused.
#[derive(Clone, Copy, PartialEq, Eq, Structural, Debug)]
pub enum Error {
    NotInitialized,
    AlreadyInitialized,
    Unauthorized,
    MarketNotFound,
    MarketNotOpen,
    MarketNotClosed,
    MarketNotResolved,
    MarketAlreadyCancelled,
    SlippageExceeded,
    InsufficientFunds,
    ContractPaused,
    InvalidOutcome,
    DisputeWindowOpen,
    NothingToRedeem,
    InvalidAmount,
    TradingClosed,
    MarketNotExpired,
    InvalidDeadline,
    ResolutionDeadlineNotReached,
}

impl Error {
    /// The number under which the error is reported to callers.
    pub open spec fn number(self) -> int {
        match self {
            Error::NotInitialized => 1,
            Error::AlreadyInitialized => 2,
            Error::Unauthorized => 3,
            Error::MarketNotFound => 4,
            Error::MarketNotOpen => 5,
            Error::MarketNotClosed => 6,
            Error::MarketNotResolved => 7,
            Error::MarketAlreadyCancelled => 8,
            Error::SlippageExceeded => 9,
            Error::InsufficientFunds => 10,
            Error::ContractPaused => 11,
            Error::InvalidOutcome => 12,
            Error::DisputeWindowOpen => 13,
            Error::NothingToRedeem => 14,
            Error::InvalidAmount => 15,
            Error::TradingClosed => 16,
            Error::MarketNotExpired => 17,
            Error::InvalidDeadline => 18,
            Error::ResolutionDeadlineNotReached => 19,
        }
    }

    /// The number under which the error is reported to callers.
    pub fn code(&self) -> (code: u32)
        ensures
            code == self.number(),
    {
        match self {
            Error::NotInitialized => 1,
            Error::AlreadyInitialized => 2,
            Error::Unauthorized => 3,
            Error::MarketNotFound => 4,
            Error::MarketNotOpen => 5,
            Error::MarketNotClosed => 6,
            Error::MarketNotResolved => 7,
            Error::MarketAlreadyCancelled => 8,
            Error::SlippageExceeded => 9,
            Error::InsufficientFunds => 10,
            Error::ContractPaused => 11,
            Error::InvalidOutcome => 12,
            Error::DisputeWindowOpen => 13,
            Error::NothingToRedeem => 14,
            Error::InvalidAmount => 15,
            Error::TradingClosed => 16,
            Error::MarketNotExpired => 17,
            Error::InvalidDeadline => 18,
            Error::ResolutionDeadlineNotReached => 19,
        }
    }
}

/// One question, its pools and its settlement.
#[derive(Debug)]
pub struct Market {
    pub creator: Address,
    /// The text of the question, as bytes.
    pub question: Vec<u8>,
    pub yes_shares: i128,
    pub no_shares: i128,
    pub yes_pool: i128,
    pub no_pool: i128,
    /// Total asset value deposited into the liquidity pool.
    pub lp_pool: i128,
    /// Fees of liquidity providers that have not been claimed.
    pub lp_fees: i128,
    pub status: MarketStatus,
    /// `Some(true)` once YES has won, `Some(false)` once NO has.
    pub outcome: Option<bool>,
    pub dispute_bond: i128,
    pub disputer: Option<Address>,
    pub oracle: Option<Address>,
    /// Total liquidity shares outstanding. Kept apart from `lp_pool`, so that the
    /// value of a share can change.
    pub total_lp_shares: i128,
    /// What rounding has taken from redemptions and has not yet made up a whole
    /// unit of `lp_fees`, in parts of `PRECISION`.
    pub dust: i128,
    /// Fees that have been paid for the liquidity shares that are outstanding.
    pub fees_paid: i128,
    /// Ledger timestamp after which trading stops and the oracle may report.
    pub close_time: u64,
    /// Ledger timestamp after which an unreported market can be cancelled by anyone.
    pub resolution_deadline: u64,
}

/// A market as mathematical values.
#[verifier::ext_equal]
pub struct MarketView {
    pub creator: Address,
    pub question: Seq<u8>,
    pub yes_shares: int,
    pub no_shares: int,
    pub yes_pool: int,
    pub no_pool: int,
    pub lp_pool: int,
    pub lp_fees: int,
    pub status: MarketStatus,
    pub outcome: Option<bool>,
    pub dispute_bond: int,
    pub disputer: Option<Address>,
    pub oracle: Option<Address>,
    pub total_lp_shares: int,
    pub dust: int,
    pub fees_paid: int,
    pub close_time: u64,
    pub resolution_deadline: u64,
}

impl View for Market {
    type V = MarketView;

    open spec fn view(&self) -> MarketView {
        MarketView {
            creator: self.creator,
            question: self.question@,
            yes_shares: self.yes_shares as int,
            no_shares: self.no_shares as int,
            yes_pool: self.yes_pool as int,
            no_pool: self.no_pool as int,
            lp_pool: self.lp_pool as int,
            lp_fees: self.lp_fees as int,
            status: self.status,
            outcome: self.outcome,
            dispute_bond: self.dispute_bond as int,
            disputer: self.disputer,
            oracle: self.oracle,
            total_lp_shares: self.total_lp_shares as int,
            dust: self.dust as int,
            fees_paid: self.fees_paid as int,
            close_time: self.close_time,
            resolution_deadline: self.resolution_deadline,
        }
    }
}

impl Clone for Market {
    fn clone(&self) -> (copy: Self)
        ensures
            copy@ == self@,
    {
        let question = self.question.clone();
        assert(question@ =~= self.question@);
        Market {
            creator: self.creator,
            question,
            yes_shares: self.yes_shares,
            no_shares: self.no_shares,
            yes_pool: self.yes_pool,
            no_pool: self.no_pool,
            lp_pool: self.lp_pool,
            lp_fees: self.lp_fees,
            status: self.status,
            outcome: self.outcome,
            dispute_bond: self.dispute_bond,
            disputer: self.disputer,
            oracle: self.oracle,
            total_lp_shares: self.total_lp_shares,
            dust: self.dust,
            fees_paid: self.fees_paid,
            close_time: self.close_time,
            resolution_deadline: self.resolution_deadline,
        }
    }
}

/// What one party holds in one market.
#[derive(Clone, Copy, PartialEq, Eq, Structural, Debug)]
pub struct Position {
    pub yes_shares: i128,
    pub no_shares: i128,
    pub lp_shares: i128,
    /// Collateral held for share pairs that were made by splitting.
    pub split_tokens: i128,
    /// Fees that have been paid for the position's liquidity shares.
    pub fee_taken: i128,
}

/// A position as mathematical values.
pub struct PositionView {
    pub yes_shares: int,
    pub no_shares: int,
    pub lp_shares: int,
    pub split_tokens: int,
    pub fee_taken: int,
}

impl View for Position {
    type V = PositionView;

    open spec fn view(&self) -> PositionView {
        PositionView {
            yes_shares: self.yes_shares as int,
            no_shares: self.no_shares as int,
            lp_shares: self.lp_shares as int,
            split_tokens: self.split_tokens as int,
            fee_taken: self.fee_taken as int,
        }
    }
}

/// Names the position of one party in one market.
#[derive(Clone, Copy, PartialEq, Eq, Structural, Debug)]
pub struct PositionKey {
    pub market_id: u32,
    pub user: Address,
}

impl Key for PositionKey {
    fn same(&self, other: &Self) -> (equal: bool) {
        *self == *other
    }
}

/// One market that a batch redeemed.
#[derive(Clone, Copy, PartialEq, Eq, Structural, Debug)]
pub struct RedeemOutcome {
    pub market_id: u32,
    pub payout: i128,
}

/// One market that a batch could not redeem.
#[derive(Clone, Copy, PartialEq, Eq, Structural, Debug)]
pub struct RedeemFailure {
    pub market_id: u32,
    pub error: Error,
}

/// What a batch redeemed, what it could not redeem, and the sum of the payouts.
#[derive(Debug)]
pub struct BatchRedeemResult {
    pub successes: Vec<RedeemOutcome>,
    pub failures: Vec<RedeemFailure>,
    pub total_payout: i128,
}

impl Clone for BatchRedeemResult {
    fn clone(&self) -> (copy: Self)
        ensures
            copy@ == self@,
    {
        let successes = self.successes.clone();
        let failures = self.failures.clone();
        assert(successes@ =~= self.successes@);
        assert(failures@ =~= self.failures@);
        BatchRedeemResult { successes, failures, total_payout: self.total_payout }
    }
}

/// A batch result as mathematical values.
#[verifier::ext_equal]
pub struct BatchRedeemView {
    pub successes: Seq<RedeemOutcome>,
    pub failures: Seq<RedeemFailure>,
    pub total_payout: int,
}

impl View for BatchRedeemResult {
    type V = BatchRedeemView;

    open spec fn view(&self) -> BatchRedeemView {
        BatchRedeemView {
            successes: self.successes@,
            failures: self.failures@,
            total_payout: self.total_payout as int,
        }
    }
}

} // verus!
