//! A binary prediction market: creating and resolving markets, trading YES and NO
//! shares against a pool, providing liquidity, splitting collateral into pairs of
//! shares, and redeeming positions.
//!
//! `contract` holds the stored state and what all requests share; `lifecycle`,
//! `trading`, `liquidity` and `redeem` answer the requests. `model` says what each
//! request does, `requests` gathers the requests, and `laws` proves what holds of all
//! of them. `listing` reads the lists that the host hands in.
pub mod contract;
pub mod events;
pub mod laws;
pub mod lifecycle;
pub mod liquidity;
pub mod listing;
pub mod math;
pub mod model;
pub mod redeem;
pub mod requests;
pub mod sums;
pub mod table;
pub mod trading;
pub mod types;

pub use contract::PredictionMarket;
pub use events::{Effect, Event};
pub use types::{
    Address, BatchRedeemResult, Error, Market, MarketStatus, Position, RedeemFailure,
    RedeemOutcome, INSTANCE_BUMP_THRESHOLD, INSTANCE_EXTEND_TO, MIN_DISPUTE_BOND,
    PERSISTENT_BUMP_THRESHOLD, PERSISTENT_EXTEND_TO, PRECISION,
};
