//! One request at a time: results, errors, effects and edge cases.

use prediction_market::math::{difference_fits, divide, divide_with_rest, scaled, sum_fits};
use prediction_market::table::Table;
use prediction_market::{
    Address, Effect, Error, Event, Market, MarketStatus, Position, PredictionMarket,
    RedeemFailure, RedeemOutcome, INSTANCE_BUMP_THRESHOLD, INSTANCE_EXTEND_TO, MIN_DISPUTE_BOND,
    PERSISTENT_BUMP_THRESHOLD, PERSISTENT_EXTEND_TO, PRECISION,
};
use soroban_sdk::{Env, TryFromVal};

const ADMIN: Address = Address { id: 1 };
const TREASURY: Address = Address { id: 2 };
const TOKEN: Address = Address { id: 3 };
const ORACLE: Address = Address { id: 4 };
const CREATOR: Address = Address { id: 5 };
const ALICE: Address = Address { id: 6 };
const BOB: Address = Address { id: 7 };

const NOW: u64 = 100;
const CLOSE: u64 = 200;
const DUE: u64 = 300;

fn running() -> PredictionMarket {
    let mut c = PredictionMarket::new();
    assert_eq!(c.init(ADMIN, TREASURY, TOKEN), Ok(()));
    c.take_effects();
    c
}

/// A contract with one open market, number 0.
fn open() -> PredictionMarket {
    let mut c = running();
    assert_eq!(c.create_market(NOW, CREATOR, b"Rain?".to_vec(), ORACLE, CLOSE, DUE), Ok(0));
    c.take_effects();
    c
}

fn report(c: &mut PredictionMarket, outcome: bool) {
    assert_eq!(c.close_market(NOW, ADMIN, 0), Ok(()));
    assert_eq!(c.oracle_report(CLOSE, ORACLE, 0, outcome), Ok(()));
    c.take_effects();
}

fn resolve(c: &mut PredictionMarket, outcome: bool) {
    report(c, outcome);
    assert_eq!(c.finalize(0), Ok(()));
    c.take_effects();
}

fn market(c: &PredictionMarket) -> Market {
    c.get_market(0).unwrap()
}

fn publish(event: Event) -> Effect {
    Effect::Publish { event }
}

fn holding(yes_shares: i128, no_shares: i128, lp_shares: i128, split_tokens: i128) -> Position {
    Position { yes_shares, no_shares, lp_shares, split_tokens, fee_taken: 0 }
}

fn list(env: &Env, ids: &[u32]) -> soroban_sdk::Vec<u32> {
    soroban_sdk::Vec::from_slice(env, ids)
}

// ── Constants, errors and topics ─────────────────────────────────────────────

#[test]
fn constants_have_their_values() {
    assert_eq!(INSTANCE_BUMP_THRESHOLD, 120_960);
    assert_eq!(INSTANCE_EXTEND_TO, 518_400);
    assert_eq!(PERSISTENT_BUMP_THRESHOLD, 518_400);
    assert_eq!(PERSISTENT_EXTEND_TO, 2_073_600);
    assert_eq!(PRECISION, 10_000_000);
    assert_eq!(MIN_DISPUTE_BOND, 10_000_000);
}

#[test]
fn errors_have_their_numbers() {
    let all = [
        Error::NotInitialized,
        Error::AlreadyInitialized,
        Error::Unauthorized,
        Error::MarketNotFound,
        Error::MarketNotOpen,
        Error::MarketNotClosed,
        Error::MarketNotResolved,
        Error::MarketAlreadyCancelled,
        Error::SlippageExceeded,
        Error::InsufficientFunds,
        Error::ContractPaused,
        Error::InvalidOutcome,
        Error::DisputeWindowOpen,
        Error::NothingToRedeem,
        Error::InvalidAmount,
        Error::TradingClosed,
        Error::MarketNotExpired,
        Error::InvalidDeadline,
        Error::ResolutionDeadlineNotReached,
    ];
    for (i, e) in all.iter().enumerate() {
        assert_eq!(e.code() as usize, i + 1);
    }
}

#[test]
fn every_event_has_its_topics() {
    let h = [1u8; 32];
    let all = [
        (Event::Init { admin: ADMIN, treasury: TREASURY }, "admin", "init"),
        (Event::Paused { caller: ADMIN }, "admin", "paused"),
        (Event::Unpaused { caller: ADMIN }, "admin", "unpaused"),
        (Event::Upgraded { caller: ADMIN, wasm_hash: h }, "admin", "upgraded"),
        (Event::Created { market_id: 0, creator: CREATOR, oracle: ORACLE }, "market", "created"),
        (Event::Seeded { market_id: 0, caller: ALICE, amount: 1 }, "market", "seeded"),
        (Event::Closed { market_id: 0, caller: ADMIN }, "market", "closed"),
        (Event::Reported { market_id: 0, caller: ORACLE, outcome: true }, "market", "reported"),
        (Event::Disputed { market_id: 0, disputer: BOB, bond: 1 }, "market", "disputed"),
        (Event::Upheld { market_id: 0, caller: ADMIN, outcome: true }, "market", "upheld"),
        (Event::Rejected { market_id: 0, caller: ADMIN, slashed: 1 }, "market", "rejected"),
        (Event::Resolved { market_id: 0, winner: Some(true) }, "market", "resolved"),
        (Event::Cancelled { market_id: 0, caller: ADMIN }, "market", "cancelled"),
        (Event::TimedOut { market_id: 0 }, "market", "timeout"),
        (Event::Drained { market_id: 0, caller: ADMIN }, "market", "drained"),
        (
            Event::Traded { market_id: 0, buyer: BOB, yes: true, amount: 1, shares: 1 },
            "market",
            "traded",
        ),
        (Event::Redeemed { market_id: 0, redeemer: BOB, payout: 1 }, "market", "redeemed"),
        (Event::Refunded { market_id: 0, redeemer: BOB, refund: 1 }, "market", "refunded"),
        (Event::Split { market_id: 0, caller: BOB, amount: 1 }, "market", "split"),
        (Event::Merged { market_id: 0, caller: BOB, amount: 1 }, "market", "merged"),
        (
            Event::Added { market_id: 0, provider: BOB, amount: 1, lp_shares: 1 },
            "liquidity",
            "added",
        ),
        (
            Event::Removed { market_id: 0, provider: BOB, lp_shares: 1, payout: 1 },
            "liquidity",
            "removed",
        ),
        (Event::Claimed { market_id: 0, provider: BOB, fee_share: 1 }, "liquidity", "claimed"),
    ];
    for (event, category, action) in all {
        assert_eq!(event.topics(), (category, action));
    }
}

// ── Arithmetic and tables ────────────────────────────────────────────────────

#[test]
fn division_rounds_towards_zero() {
    assert_eq!(divide(7, 2), 3);
    assert_eq!(divide(-7, 2), -3);
    assert_eq!(divide(7, -2), -3);
    assert_eq!(divide(-7, -2), 3);
    assert_eq!(divide_with_rest(7, 2), (3, 1));
    assert_eq!(divide_with_rest(-7, 2), (-3, -1));
    assert_eq!(divide_with_rest(i128::MIN, 1), (i128::MIN, 0));
}

#[test]
fn range_checks_stop_at_the_limits() {
    assert!(sum_fits(i128::MAX, 0));
    assert!(!sum_fits(i128::MAX, 1));
    assert!(!sum_fits(i128::MIN, -1));
    assert!(difference_fits(i128::MIN, 0));
    assert!(!difference_fits(i128::MIN, 1));
    assert!(!difference_fits(0, i128::MIN));
    assert_eq!(scaled(6, 7, 4), Some(10));
    assert_eq!(scaled(i128::MAX, 2, 4), None);
    assert_eq!(scaled(i128::MIN, 1, -1), None);
}

#[test]
fn a_table_keeps_the_last_value() {
    let mut t: Table<u32, Position> = Table::new();
    let p = holding(1, 2, 3, 4);
    let q = Position { yes_shares: 5, ..p };
    assert!(t.get(&1).is_none());
    t.set(1, p);
    t.set(2, p);
    t.set(1, q);
    assert_eq!(t.get(&1), Some(&q));
    assert_eq!(t.get(&2), Some(&p));
    assert!(t.get(&3).is_none());
}

#[test]
fn prices_follow_the_formula() {
    assert_eq!(PredictionMarket::calc_shares(5, 0, 0), 5);
    assert_eq!(PredictionMarket::calc_shares(100_000, 1_000_000, 1_000_000), 181_818);
    assert_eq!(PredictionMarket::calc_shares(4, 3, 0), 1);
    assert_eq!(PredictionMarket::calc_shares(-3, 3, 7), 0);
    assert_eq!(PredictionMarket::calc_shares(-2, 3, 7), -20);
    assert_eq!(PredictionMarket::checked_shares(4, 3, 0), Some(1));
    assert_eq!(PredictionMarket::checked_shares(i128::MAX, 1, 1), None);
    assert_eq!(PredictionMarket::checked_shares(-1, i128::MIN, 0), None);
    assert_eq!(PredictionMarket::checked_shares(5, 0, 0), Some(5));
}

#[test]
fn only_positive_amounts_pass() {
    assert_eq!(PredictionMarket::require_positive(1), Ok(()));
    assert_eq!(PredictionMarket::require_positive(0), Err(Error::InvalidAmount));
    assert_eq!(PredictionMarket::require_positive(-1), Err(Error::InvalidAmount));
}

// ── Administration ───────────────────────────────────────────────────────────

#[test]
fn init_happens_once() {
    let mut c = PredictionMarket::new();
    assert_eq!(c.get_token(), Err(Error::NotInitialized));
    assert_eq!(c.pause(ADMIN), Err(Error::NotInitialized));
    assert_eq!(c.init(ADMIN, TREASURY, TOKEN), Ok(()));
    assert_eq!(
        c.take_effects(),
        vec![publish(Event::Init { admin: ADMIN, treasury: TREASURY })]
    );
    assert_eq!(c.get_token(), Ok(TOKEN));
    assert_eq!(c.init(ALICE, ALICE, ALICE), Err(Error::AlreadyInitialized));
    assert_eq!(c.admin, Some(ADMIN));
    assert_eq!(c.treasury, Some(TREASURY));
    assert_eq!(c.token, Some(TOKEN));
}

#[test]
fn only_the_admin_pauses_and_upgrades() {
    let mut c = running();
    assert_eq!(c.pause(ALICE), Err(Error::Unauthorized));
    assert_eq!(c.unpause(ALICE), Err(Error::Unauthorized));
    assert!(!c.paused);
    assert_eq!(c.pause(ADMIN), Ok(()));
    assert!(c.paused);
    assert_eq!(c.upgrade(ADMIN, [9; 32]), Ok(()));
    assert_eq!(c.unpause(ADMIN), Ok(()));
    assert!(!c.paused);
    assert_eq!(
        c.take_effects(),
        vec![
            publish(Event::Paused { caller: ADMIN }),
            Effect::Upgrade { wasm_hash: [9; 32] },
            publish(Event::Upgraded { caller: ADMIN, wasm_hash: [9; 32] }),
            publish(Event::Unpaused { caller: ADMIN }),
        ]
    );
}

#[test]
fn a_pause_stops_everything_but_administration() {
    let mut c = open();
    assert_eq!(c.pause(ADMIN), Ok(()));
    c.take_effects();
    let p = Err(Error::ContractPaused);
    assert_eq!(c.create_market(NOW, CREATOR, Vec::new(), ORACLE, CLOSE, DUE), Err(Error::ContractPaused));
    assert_eq!(c.seed_market(NOW, ALICE, 0, 10), p);
    assert_eq!(c.close_market(NOW, ADMIN, 0), p);
    assert_eq!(c.oracle_report(CLOSE, ORACLE, 0, true), p);
    assert_eq!(c.dispute(ALICE, 0, MIN_DISPUTE_BOND), p);
    assert_eq!(c.admin_uphold_dispute(ADMIN, 0, true), p);
    assert_eq!(c.admin_reject_dispute(ADMIN, 0), p);
    assert_eq!(c.admin_reject_dispute(ALICE, 0), p);
    assert_eq!(c.finalize(0), p);
    assert_eq!(c.cancel_market(ADMIN, 0), p);
    assert_eq!(c.emergency_timeout_refund(DUE + 1, 0), p);
    assert_eq!(c.split(ALICE, 0, 10), p);
    assert_eq!(c.merge(ALICE, 0, 10), p);
    let p = Err(Error::ContractPaused);
    assert_eq!(c.buy_yes(NOW, ALICE, 0, 10, 0), p);
    assert_eq!(c.buy_no(NOW, ALICE, 0, 10, 0), p);
    assert_eq!(c.redeem(ALICE, 0), p);
    assert_eq!(c.add_liquidity(NOW, ALICE, 0, 10), p);
    assert_eq!(c.remove_liquidity(ALICE, 0, 0), p);
    assert_eq!(c.claim_lp_fees(ALICE, 0), p);
    let report = c.batch_redeem(ALICE, list(&Env::default(), &[0, 9])).unwrap();
    assert!(report.successes.is_empty());
    assert_eq!(
        report.failures,
        vec![
            RedeemFailure { market_id: 0, error: Error::ContractPaused },
            RedeemFailure { market_id: 9, error: Error::ContractPaused },
        ]
    );
    assert_eq!(report.total_payout, 0);
    assert_eq!(c.emergency_drain_market(ADMIN, 0), Ok(()));
    assert_eq!(c.take_effects(), vec![publish(Event::Drained { market_id: 0, caller: ADMIN })]);
}

#[test]
fn unknown_markets_are_refused() {
    let mut c = running();
    let e = Err(Error::MarketNotFound);
    assert_eq!(c.seed_market(NOW, ALICE, 0, 10), e);
    assert_eq!(c.close_market(NOW, ADMIN, 0), e);
    assert_eq!(c.oracle_report(CLOSE, ORACLE, 0, true), e);
    assert_eq!(c.dispute(ALICE, 0, MIN_DISPUTE_BOND), e);
    assert_eq!(c.admin_uphold_dispute(ADMIN, 0, true), e);
    assert_eq!(c.admin_reject_dispute(ADMIN, 0), e);
    assert_eq!(c.finalize(0), e);
    assert_eq!(c.cancel_market(ADMIN, 0), e);
    assert_eq!(c.emergency_timeout_refund(DUE + 1, 0), e);
    assert_eq!(c.emergency_drain_market(ADMIN, 0), e);
    assert_eq!(c.split(ALICE, 0, 10), e);
    assert_eq!(c.merge(ALICE, 0, 10), e);
    assert_eq!(c.redeem(ALICE, 0), Err(Error::MarketNotFound));
    assert_eq!(c.get_market(0).unwrap_err(), Error::MarketNotFound);
    assert_eq!(c.get_position(0, ALICE).yes_shares, 0);
}

// ── The life of a market ─────────────────────────────────────────────────────

#[test]
fn markets_are_numbered_in_order() {
    let mut c = running();
    for i in 0..3u32 {
        assert_eq!(c.create_market(NOW, CREATOR, vec![i as u8], ORACLE, CLOSE, DUE), Ok(i));
    }
    assert_eq!(c.market_count, 3);
    assert_eq!(c.get_market(1).unwrap().question, vec![1]);
    let m = c.get_market(2).unwrap();
    assert_eq!(m.creator, CREATOR);
    assert_eq!(m.oracle, Some(ORACLE));
    assert_eq!(m.status, MarketStatus::Open);
    assert_eq!(m.outcome, None);
    assert_eq!((m.close_time, m.resolution_deadline), (CLOSE, DUE));
    assert_eq!((m.yes_pool, m.no_pool, m.lp_pool, m.lp_fees, m.dust), (0, 0, 0, 0, 0));
}

#[test]
fn deadlines_have_to_be_in_order() {
    let mut c = running();
    let e = Err(Error::InvalidDeadline);
    assert_eq!(c.create_market(CLOSE, CREATOR, Vec::new(), ORACLE, CLOSE, DUE), e);
    assert_eq!(c.create_market(NOW, CREATOR, Vec::new(), ORACLE, DUE, DUE), e);
    assert_eq!(c.create_market(NOW, CREATOR, Vec::new(), ORACLE, NOW + 1, NOW + 2), Ok(0));
}

#[test]
fn the_last_number_cannot_be_counted() {
    let mut c = running();
    c.market_count = u32::MAX;
    assert!(!c.create_in_range(NOW, CLOSE, DUE));
    assert!(c.create_in_range(NOW, DUE, CLOSE));
    c.market_count = u32::MAX - 1;
    assert!(c.create_in_range(NOW, CLOSE, DUE));
}

#[test]
fn seeding_adds_to_both_pools() {
    let mut c = open();
    assert_eq!(c.seed_market(NOW, ALICE, 0, 0), Err(Error::InvalidAmount));
    assert_eq!(c.seed_market(NOW, ALICE, 0, 40), Ok(()));
    let m = market(&c);
    assert_eq!((m.yes_pool, m.no_pool), (40, 40));
    assert_eq!((m.yes_shares, m.no_shares), (0, 0));
    assert_eq!(
        c.take_effects(),
        vec![publish(Event::Seeded { market_id: 0, caller: ALICE, amount: 40 })]
    );
    assert!(!c.seed_in_range(NOW, 0, i128::MAX));
    assert!(c.seed_in_range(CLOSE, 0, i128::MAX));
}

#[test]
fn trading_stops_at_the_close_time() {
    let mut c = open();
    assert_eq!(c.seed_market(CLOSE - 1, ALICE, 0, 10), Ok(()));
    let e = Err(Error::TradingClosed);
    assert_eq!(c.seed_market(CLOSE, ALICE, 0, 10), Err(Error::TradingClosed));
    assert_eq!(c.buy_yes(CLOSE, ALICE, 0, 10, 0), e);
    assert_eq!(c.buy_no(CLOSE, ALICE, 0, 10, 0), e);
    assert_eq!(c.add_liquidity(CLOSE, ALICE, 0, 10), e);
    assert_eq!(c.split(ALICE, 0, 10), Ok(()));
}

#[test]
fn only_the_admin_closes_early() {
    let mut c = open();
    assert_eq!(c.close_market(NOW, ALICE, 0), Err(Error::Unauthorized));
    assert_eq!(c.close_market(CLOSE - 1, CREATOR, 0), Err(Error::Unauthorized));
    assert_eq!(c.close_market(CLOSE, ALICE, 0), Err(Error::Unauthorized));
    assert_eq!(c.close_market(CLOSE, CREATOR, 0), Ok(()));
    assert_eq!(market(&c).status, MarketStatus::Closed);
    assert_eq!(c.close_market(CLOSE, CREATOR, 0), Err(Error::MarketNotOpen));
    let mut d = open();
    assert_eq!(d.close_market(NOW, ADMIN, 0), Ok(()));
    assert_eq!(d.take_effects(), vec![publish(Event::Closed { market_id: 0, caller: ADMIN })]);
}

#[test]
fn a_creator_cannot_close_early_without_an_admin() {
    let mut c = PredictionMarket::new();
    assert_eq!(c.create_market(NOW, CREATOR, Vec::new(), ORACLE, CLOSE, DUE), Ok(0));
    assert_eq!(c.close_market(NOW, CREATOR, 0), Err(Error::NotInitialized));
    assert_eq!(c.close_market(CLOSE, CREATOR, 0), Ok(()));
}

#[test]
fn only_the_oracle_reports_after_the_close_time() {
    let mut c = open();
    assert_eq!(c.oracle_report(CLOSE, ORACLE, 0, true), Err(Error::MarketNotClosed));
    assert_eq!(c.close_market(NOW, ADMIN, 0), Ok(()));
    assert_eq!(c.oracle_report(CLOSE, ALICE, 0, true), Err(Error::Unauthorized));
    assert_eq!(c.oracle_report(CLOSE - 1, ORACLE, 0, true), Err(Error::MarketNotExpired));
    assert_eq!(c.finalize(0), Err(Error::InvalidOutcome));
    assert_eq!(c.dispute(BOB, 0, MIN_DISPUTE_BOND), Err(Error::InvalidOutcome));
    assert_eq!(c.oracle_report(CLOSE, ORACLE, 0, false), Ok(()));
    assert_eq!(market(&c).outcome, Some(false));
    assert_eq!(market(&c).status, MarketStatus::Closed);
    assert_eq!(c.oracle_report(CLOSE, ORACLE, 0, true), Ok(()));
    assert_eq!(market(&c).outcome, Some(true));
}

#[test]
fn a_dispute_escrows_its_bond() {
    let mut c = open();
    report(&mut c, true);
    assert_eq!(c.dispute(BOB, 0, MIN_DISPUTE_BOND - 1), Err(Error::InvalidAmount));
    assert_eq!(c.dispute(BOB, 0, MIN_DISPUTE_BOND + 5), Ok(()));
    let m = market(&c);
    assert_eq!(m.status, MarketStatus::Disputed);
    assert_eq!(m.disputer, Some(BOB));
    assert_eq!(m.dispute_bond, MIN_DISPUTE_BOND + 5);
    assert_eq!(
        c.take_effects(),
        vec![
            Effect::TransferIn { from: BOB, amount: MIN_DISPUTE_BOND + 5 },
            publish(Event::Disputed { market_id: 0, disputer: BOB, bond: MIN_DISPUTE_BOND + 5 }),
        ]
    );
    assert_eq!(c.finalize(0), Err(Error::MarketNotClosed));
    assert_eq!(c.dispute(BOB, 0, MIN_DISPUTE_BOND), Err(Error::MarketNotClosed));
}

#[test]
fn rejected_disputes_forfeit_their_bond() {
    let mut c = open();
    report(&mut c, true);
    assert_eq!(c.admin_reject_dispute(ADMIN, 0), Err(Error::MarketNotOpen));
    assert_eq!(c.dispute(BOB, 0, MIN_DISPUTE_BOND), Ok(()));
    assert_eq!(c.admin_reject_dispute(ALICE, 0), Err(Error::Unauthorized));
    c.take_effects();
    assert_eq!(c.admin_reject_dispute(ADMIN, 0), Ok(()));
    let m = market(&c);
    assert_eq!((m.status, m.disputer, m.dispute_bond), (MarketStatus::Closed, None, 0));
    assert_eq!(m.outcome, Some(true));
    assert_eq!(c.get_treasury_balance(), MIN_DISPUTE_BOND);
    assert_eq!(
        c.take_effects(),
        vec![publish(Event::Rejected { market_id: 0, caller: ADMIN, slashed: MIN_DISPUTE_BOND })]
    );
    assert_eq!(c.dispute(BOB, 0, MIN_DISPUTE_BOND), Ok(()));
    assert!(c.reject_in_range(ADMIN, 0));
    c.treasury_balance = i128::MAX;
    assert!(!c.reject_in_range(ADMIN, 0));
    assert!(c.reject_in_range(ALICE, 0));
}

#[test]
fn a_forfeited_bond_needs_a_treasury() {
    let mut c = open();
    report(&mut c, true);
    assert_eq!(c.dispute(BOB, 0, MIN_DISPUTE_BOND), Ok(()));
    c.treasury = None;
    assert_eq!(c.admin_reject_dispute(ADMIN, 0), Err(Error::NotInitialized));
    assert_eq!(c.get_treasury_balance(), 0);
}

#[test]
fn upheld_disputes_set_the_outcome() {
    let mut c = open();
    assert_eq!(c.buy_no(NOW, ALICE, 0, 10, 0), Ok(10));
    report(&mut c, true);
    assert_eq!(c.admin_uphold_dispute(ADMIN, 0, false), Err(Error::MarketNotOpen));
    assert_eq!(c.dispute(BOB, 0, MIN_DISPUTE_BOND), Ok(()));
    assert_eq!(c.admin_uphold_dispute(BOB, 0, false), Err(Error::Unauthorized));
    c.take_effects();
    assert_eq!(c.admin_uphold_dispute(ADMIN, 0, false), Ok(()));
    assert_eq!(
        c.take_effects(),
        vec![publish(Event::Upheld { market_id: 0, caller: ADMIN, outcome: false })]
    );
    let m = market(&c);
    assert_eq!((m.status, m.outcome), (MarketStatus::EmergencyResolved, Some(false)));
    assert_eq!(c.redeem(ALICE, 0), Ok(10));
    assert_eq!(c.finalize(0), Ok(()));
    assert_eq!(market(&c).status, MarketStatus::Resolved);
    assert_eq!(c.finalize(0), Err(Error::MarketNotClosed));
}

#[test]
fn cancelling_is_for_the_admin_and_the_creator() {
    let mut c = open();
    assert_eq!(c.cancel_market(ALICE, 0), Err(Error::Unauthorized));
    assert_eq!(c.cancel_market(CREATOR, 0), Ok(()));
    assert_eq!(c.take_effects(), vec![publish(Event::Cancelled { market_id: 0, caller: CREATOR })]);
    assert_eq!(c.cancel_market(ADMIN, 0), Err(Error::MarketAlreadyCancelled));
    let mut d = open();
    resolve(&mut d, true);
    assert_eq!(d.cancel_market(ADMIN, 0), Ok(()));
    assert_eq!(market(&d).status, MarketStatus::Cancelled);
}

#[test]
fn anyone_cancels_an_unreported_market_after_the_deadline() {
    let mut c = open();
    assert_eq!(c.buy_yes(NOW, ALICE, 0, 10, 0), Ok(10));
    assert_eq!(
        c.emergency_timeout_refund(DUE, 0),
        Err(Error::ResolutionDeadlineNotReached)
    );
    c.take_effects();
    assert_eq!(c.emergency_timeout_refund(DUE + 1, 0), Ok(()));
    assert_eq!(c.take_effects(), vec![publish(Event::TimedOut { market_id: 0 })]);
    assert_eq!(c.redeem(ALICE, 0), Ok(10));
    assert_eq!(c.emergency_timeout_refund(DUE + 1, 0), Err(Error::MarketNotOpen));
    let mut d = open();
    report(&mut d, true);
    assert_eq!(d.emergency_timeout_refund(DUE + 1, 0), Err(Error::InvalidOutcome));
}

#[test]
fn draining_changes_nothing_but_the_status() {
    let mut c = open();
    assert_eq!(c.seed_market(NOW, ALICE, 0, 10), Ok(()));
    assert_eq!(c.emergency_drain_market(CREATOR, 0), Err(Error::Unauthorized));
    assert_eq!(c.emergency_drain_market(ADMIN, 0), Ok(()));
    let m = market(&c);
    assert_eq!(m.status, MarketStatus::Cancelled);
    assert_eq!((m.yes_pool, m.no_pool), (10, 10));
    assert_eq!(c.emergency_drain_market(ADMIN, 0), Err(Error::MarketAlreadyCancelled));
}

// ── Trading ──────────────────────────────────────────────────────────────────

#[test]
fn purchases_fill_one_pool() {
    let mut c = open();
    assert_eq!(c.seed_market(NOW, ALICE, 0, 1_000_000), Ok(()));
    c.take_effects();
    assert_eq!(c.buy_yes(NOW, ALICE, 0, 100_000, 181_818), Ok(181_818));
    assert_eq!(
        c.take_effects(),
        vec![publish(Event::Traded {
            market_id: 0,
            buyer: ALICE,
            yes: true,
            amount: 100_000,
            shares: 181_818,
        })]
    );
    // 100_000 * (1_100_000 + 1_000_000) / (1_000_000 + 100_000)
    assert_eq!(c.buy_no(NOW, BOB, 0, 100_000, 0), Ok(190_909));
    let m = market(&c);
    assert_eq!((m.yes_pool, m.no_pool), (1_100_000, 1_100_000));
    assert_eq!((m.yes_shares, m.no_shares), (181_818, 190_909));
    assert_eq!(c.get_position(0, ALICE).yes_shares, 181_818);
    assert_eq!(c.get_position(0, ALICE).no_shares, 0);
    assert_eq!(c.get_position(0, BOB).no_shares, 190_909);
}

#[test]
fn a_refused_purchase_leaves_no_trace() {
    let mut c = open();
    assert_eq!(c.seed_market(NOW, ALICE, 0, 1_000_000), Ok(()));
    c.take_effects();
    assert_eq!(c.buy_yes(NOW, ALICE, 0, 100_000, 181_819), Err(Error::SlippageExceeded));
    assert_eq!(c.buy_no(NOW, ALICE, 0, 0, 0), Err(Error::InvalidAmount));
    assert_eq!(market(&c).yes_pool, 1_000_000);
    assert_eq!(c.get_position(0, ALICE).yes_shares, 0);
    assert!(c.take_effects().is_empty());
}

#[test]
fn purchases_have_to_be_representable() {
    let mut c = open();
    assert_eq!(c.seed_market(NOW, ALICE, 0, 1 << 100), Ok(()));
    assert!(!c.buy_in_range(true, NOW, ALICE, 0, 1 << 100, 0));
    assert!(!c.buy_in_range(false, NOW, ALICE, 0, 1 << 100, i128::MAX));
    assert!(c.buy_in_range(true, NOW, ALICE, 0, 1 << 20, 0));
    assert!(c.buy_in_range(true, CLOSE, ALICE, 0, 1 << 100, 0));
    let mut d = open();
    assert!(d.buy_in_range(true, NOW, ALICE, 0, i128::MAX, 0));
    assert_eq!(d.buy_yes(NOW, ALICE, 0, i128::MAX, 0), Ok(i128::MAX));
    assert!(!d.buy_in_range(true, NOW, ALICE, 0, 1, 0));
}

#[test]
fn splitting_and_merging_cancel_out() {
    let mut c = open();
    let before = c.get_position(0, ALICE);
    assert_eq!(c.split(ALICE, 0, 30), Ok(()));
    assert_eq!(
        c.get_position(0, ALICE),
        holding(30, 30, 0, 30)
    );
    assert_eq!(c.merge(ALICE, 0, 30), Ok(()));
    assert_eq!(c.get_position(0, ALICE), before);
    assert_eq!(
        c.take_effects(),
        vec![
            Effect::TransferIn { from: ALICE, amount: 30 },
            publish(Event::Split { market_id: 0, caller: ALICE, amount: 30 }),
            Effect::TransferOut { to: ALICE, amount: 30 },
            publish(Event::Merged { market_id: 0, caller: ALICE, amount: 30 }),
        ]
    );
}

#[test]
fn merging_pays_no_more_than_was_split() {
    let mut c = open();
    assert_eq!(c.buy_yes(NOW, ALICE, 0, 10, 0), Ok(10));
    assert_eq!(c.buy_no(NOW, ALICE, 0, 10, 0), Ok(10));
    assert_eq!(c.split(ALICE, 0, 4), Ok(()));
    c.take_effects();
    assert_eq!(c.merge(ALICE, 0, -1), Err(Error::InvalidAmount));
    assert_eq!(c.merge(BOB, 0, -100), Err(Error::InvalidAmount));
    assert_eq!(c.merge(BOB, 0, 0), Ok(()));
    assert_eq!(
        c.take_effects(),
        vec![publish(Event::Merged { market_id: 0, caller: BOB, amount: 0 })]
    );
    assert_eq!(c.merge(ALICE, 0, 15), Err(Error::InsufficientFunds));
    assert_eq!(c.merge(ALICE, 0, 9), Ok(()));
    assert_eq!(
        c.get_position(0, ALICE),
        holding(5, 5, 0, 0)
    );
    assert_eq!(
        c.take_effects(),
        vec![
            Effect::TransferOut { to: ALICE, amount: 4 },
            publish(Event::Merged { market_id: 0, caller: ALICE, amount: 9 }),
        ]
    );
    assert_eq!(c.merge(ALICE, 0, 5), Ok(()));
    assert_eq!(
        c.take_effects(),
        vec![publish(Event::Merged { market_id: 0, caller: ALICE, amount: 5 })]
    );
}

#[test]
fn collateral_needs_a_token() {
    let mut c = PredictionMarket::new();
    assert_eq!(c.create_market(NOW, CREATOR, Vec::new(), ORACLE, CLOSE, DUE), Ok(0));
    assert_eq!(c.split(ALICE, 0, 4), Err(Error::NotInitialized));
    assert_eq!(c.buy_yes(NOW, ALICE, 0, 4, 0), Ok(4));
    assert_eq!(c.get_position(0, ALICE).split_tokens, 0);
}

#[test]
fn splits_have_to_be_representable() {
    let mut c = open();
    assert!(c.split_in_range(ALICE, 0, i128::MAX));
    assert_eq!(c.split(ALICE, 0, i128::MAX), Ok(()));
    assert!(!c.split_in_range(ALICE, 0, 1));
    assert!(c.split_in_range(ALICE, 0, 0));
    assert_eq!(c.merge(ALICE, 0, i128::MAX), Ok(()));
}

// ── Liquidity ────────────────────────────────────────────────────────────────

#[test]
fn liquidity_shares_follow_the_pool() {
    let mut c = open();
    assert_eq!(c.add_liquidity(NOW, ALICE, 0, 1_001), Ok(1_001));
    assert_eq!(
        c.take_effects(),
        vec![publish(Event::Added { market_id: 0, provider: ALICE, amount: 1_001, lp_shares: 1_001 })]
    );
    let m = market(&c);
    assert_eq!((m.lp_pool, m.total_lp_shares), (1_001, 1_001));
    assert_eq!((m.yes_pool, m.no_pool), (500, 500));
    // A pool that has doubled in value mints half the shares.
    let mut richer = m;
    richer.lp_pool = 2_002;
    c.markets.set(0, richer);
    assert_eq!(c.add_liquidity(NOW, BOB, 0, 1_001), Ok(500));
    assert_eq!(market(&c).total_lp_shares, 1_501);
    // 500 * 3_003 / 1_501
    assert_eq!(c.remove_liquidity(BOB, 0, 500), Ok(1_000));
    assert_eq!(c.remove_liquidity(ALICE, 0, 1_001), Ok(2_003));
    let m = market(&c);
    assert_eq!((m.lp_pool, m.total_lp_shares), (0, 0));
}

#[test]
fn liquidity_that_is_not_there_cannot_be_withdrawn() {
    let mut c = open();
    assert_eq!(c.add_liquidity(NOW, ALICE, 0, -5), Err(Error::InvalidAmount));
    assert_eq!(c.add_liquidity(NOW, ALICE, 0, 10), Ok(10));
    c.take_effects();
    assert_eq!(c.remove_liquidity(ALICE, 0, 11), Err(Error::InsufficientFunds));
    assert_eq!(c.remove_liquidity(BOB, 0, 1), Err(Error::InsufficientFunds));
    assert!(c.take_effects().is_empty());
    assert_eq!(c.remove_liquidity(ALICE, 0, 4), Ok(4));
    assert_eq!(
        c.take_effects(),
        vec![publish(Event::Removed { market_id: 0, provider: ALICE, lp_shares: 4, payout: 4 })]
    );
    assert_eq!(c.get_position(0, ALICE).lp_shares, 6);
}

/// Credits fees to a market.
fn credit(c: &mut PredictionMarket, fees: i128) {
    let mut m = market(c);
    m.lp_fees += fees;
    c.markets.set(0, m);
}

#[test]
fn fees_are_divided_by_shares() {
    let mut c = open();
    assert_eq!(c.claim_lp_fees(ALICE, 0), Err(Error::NothingToRedeem));
    assert_eq!(c.add_liquidity(NOW, ALICE, 0, 2_000), Ok(2_000));
    assert_eq!(c.add_liquidity(NOW, BOB, 0, 1_000), Ok(1_000));
    credit(&mut c, 300);
    let mut d = open();
    d.add_liquidity(NOW, ALICE, 0, 2_000).unwrap();
    d.add_liquidity(NOW, BOB, 0, 1_000).unwrap();
    credit(&mut d, 300);
    c.take_effects();
    assert_eq!(c.claim_lp_fees(ALICE, 0), Ok(200));
    assert_eq!(market(&c).lp_fees, 100);
    assert_eq!(
        c.take_effects(),
        vec![publish(Event::Claimed { market_id: 0, provider: ALICE, fee_share: 200 })]
    );
    assert_eq!(c.claim_lp_fees(ALICE, 0), Ok(0));
    assert_eq!(c.claim_lp_fees(BOB, 0), Ok(100));
    assert_eq!(c.claim_lp_fees(BOB, 0), Ok(0));
    assert_eq!(market(&c).lp_fees, 0);
    // The other way round the parts are the same.
    assert_eq!(d.claim_lp_fees(BOB, 0), Ok(100));
    assert_eq!(d.claim_lp_fees(ALICE, 0), Ok(200));
}

#[test]
fn claiming_often_costs_nothing() {
    let mut c = open();
    c.add_liquidity(NOW, ALICE, 0, 2_000).unwrap();
    c.add_liquidity(NOW, BOB, 0, 1_000).unwrap();
    let mut paid = 0;
    for _ in 0..10 {
        credit(&mut c, 10);
        paid += c.claim_lp_fees(ALICE, 0).unwrap();
    }
    assert_eq!(paid, 66);
    assert_eq!(c.claim_lp_fees(BOB, 0), Ok(33));
    assert_eq!(market(&c).lp_fees, 1);
}

#[test]
fn fees_are_divided_by_the_shares_at_the_claim() {
    let mut c = open();
    c.add_liquidity(NOW, CREATOR, 0, 1_500).unwrap();
    c.add_liquidity(NOW, ALICE, 0, 2_000).unwrap();
    c.add_liquidity(NOW, BOB, 0, 1_000).unwrap();
    credit(&mut c, 450);
    // CREATOR leaves with what was claimed, and the others keep their ratio.
    assert_eq!(c.claim_lp_fees(CREATOR, 0), Ok(150));
    assert_eq!(market(&c).fees_paid, 150);
    assert_eq!(c.remove_liquidity(CREATOR, 0, 1_500), Ok(1_500));
    assert_eq!((market(&c).lp_fees, market(&c).fees_paid), (300, 0));
    assert_eq!(c.claim_lp_fees(CREATOR, 0), Err(Error::NothingToRedeem));
    assert_eq!(c.claim_lp_fees(ALICE, 0), Ok(200));
    assert_eq!(c.claim_lp_fees(BOB, 0), Ok(100));
    assert_eq!(market(&c).lp_fees, 0);
}

#[test]
fn unclaimed_fees_go_to_those_who_stay() {
    let mut c = open();
    c.add_liquidity(NOW, ALICE, 0, 2_000).unwrap();
    c.add_liquidity(NOW, BOB, 0, 1_000).unwrap();
    credit(&mut c, 300);
    assert_eq!(c.claim_lp_fees(ALICE, 0), Ok(200));
    assert_eq!(c.remove_liquidity(BOB, 0, 1_000), Ok(1_000));
    assert_eq!(c.claim_lp_fees(BOB, 0), Err(Error::NothingToRedeem));
    assert_eq!(c.claim_lp_fees(ALICE, 0), Ok(100));
    assert_eq!((market(&c).lp_fees, market(&c).fees_paid), (0, 300));
    assert_eq!(c.get_position(0, ALICE).fee_taken, 300);
}

#[test]
fn giving_up_some_shares_gives_up_what_was_paid_for_them() {
    let mut c = open();
    c.add_liquidity(NOW, ALICE, 0, 2_000).unwrap();
    c.add_liquidity(NOW, BOB, 0, 1_000).unwrap();
    credit(&mut c, 300);
    assert_eq!(c.claim_lp_fees(ALICE, 0), Ok(200));
    assert_eq!(c.remove_liquidity(ALICE, 0, 500), Ok(500));
    assert_eq!(c.get_position(0, ALICE).fee_taken, 150);
    assert_eq!(market(&c).fees_paid, 150);
    assert_eq!(c.claim_lp_fees(ALICE, 0), Ok(0));
    assert_eq!(c.claim_lp_fees(BOB, 0), Ok(100));
}

#[test]
fn a_claim_stays_between_nothing_and_what_is_left() {
    let mut c = open();
    c.add_liquidity(NOW, ALICE, 0, 100).unwrap();
    credit(&mut c, 100);
    assert_eq!(c.claim_lp_fees(ALICE, 0), Ok(100));
    // A newcomer's part is not there any more, and ALICE was paid more than hers.
    assert_eq!(c.add_liquidity(NOW, BOB, 0, 100), Ok(100));
    assert_eq!(c.claim_lp_fees(BOB, 0), Ok(0));
    assert_eq!(c.claim_lp_fees(ALICE, 0), Ok(0));
    credit(&mut c, 30);
    assert_eq!(c.claim_lp_fees(BOB, 0), Ok(30));
    assert_eq!(c.claim_lp_fees(ALICE, 0), Ok(0));
}

#[test]
fn fees_without_providers_wait_for_the_first() {
    let mut c = open();
    credit(&mut c, 9);
    assert_eq!(c.add_liquidity(NOW, ALICE, 0, 4), Ok(4));
    assert_eq!(c.claim_lp_fees(ALICE, 0), Ok(9));
}

#[test]
fn redemptions_credit_fees_to_providers() {
    let mut c = open();
    c.add_liquidity(NOW, CREATOR, 0, 2).unwrap();
    let mut m = market(&c);
    (m.yes_pool, m.no_pool) = (0, 0);
    c.markets.set(0, m);
    assert_eq!(c.buy_yes(NOW, ALICE, 0, 3, 0), Ok(3));
    assert_eq!(c.buy_yes(NOW, BOB, 0, 4, 0), Ok(1));
    resolve(&mut c, true);
    assert_eq!(c.redeem(ALICE, 0), Ok(5));
    assert_eq!(c.claim_lp_fees(CREATOR, 0), Ok(0));
    assert_eq!(c.redeem(BOB, 0), Ok(1));
    assert_eq!(c.claim_lp_fees(CREATOR, 0), Ok(1));
}

#[test]
fn liquidity_has_to_be_representable() {
    let mut c = open();
    assert!(c.add_in_range(NOW, ALICE, 0, i128::MAX));
    assert_eq!(c.add_liquidity(NOW, ALICE, 0, 1 << 100), Ok(1 << 100));
    assert!(!c.add_in_range(NOW, ALICE, 0, 1 << 100));
    assert!(!c.remove_in_range(ALICE, 0, 1 << 100));
    assert!(c.remove_in_range(ALICE, 0, 1));
    assert!(c.remove_in_range(BOB, 0, 1));
    assert!(c.claim_in_range(ALICE, 0));
    let mut m = market(&c);
    m.lp_fees = 1 << 100;
    c.markets.set(0, m);
    assert!(!c.claim_in_range(ALICE, 0));
    assert!(c.claim_in_range(BOB, 0));
}

// ── Redemption ───────────────────────────────────────────────────────────────

#[test]
fn a_sole_winner_takes_the_pools() {
    let mut c = open();
    assert_eq!(c.buy_yes(NOW, ALICE, 0, 7, 0), Ok(7));
    assert_eq!(c.buy_no(NOW, BOB, 0, 5, 0), Ok(7));
    resolve(&mut c, true);
    assert_eq!(c.redeem(ALICE, 0), Ok(12));
    assert_eq!(
        c.take_effects(),
        vec![publish(Event::Redeemed { market_id: 0, redeemer: ALICE, payout: 12 })]
    );
    assert_eq!(c.redeem(ALICE, 0), Err(Error::NothingToRedeem));
    assert_eq!(c.redeem(BOB, 0), Err(Error::NothingToRedeem));
    assert_eq!(c.get_position(0, BOB).no_shares, 7);
    let m = market(&c);
    assert_eq!((m.lp_fees, m.dust), (0, 0));
}

#[test]
fn fractions_wait_as_dust() {
    let mut c = open();
    assert_eq!(c.buy_yes(NOW, ALICE, 0, 3, 0), Ok(3));
    assert_eq!(c.buy_yes(NOW, BOB, 0, 4, 0), Ok(1));
    resolve(&mut c, true);
    assert_eq!(c.redeem(ALICE, 0), Ok(5));
    let m = market(&c);
    assert_eq!((m.lp_fees, m.dust), (0, 2_500_000));
    assert_eq!(c.redeem(BOB, 0), Ok(1));
    let m = market(&c);
    assert_eq!((m.lp_fees, m.dust), (1, 0));
}

#[test]
fn thirds_leave_less_than_a_part_each() {
    let mut c = open();
    for user in [ALICE, BOB, CREATOR] {
        c.positions.set(
            prediction_market::types::PositionKey { market_id: 0, user },
            holding(1, 0, 0, 0),
        );
    }
    let mut m = market(&c);
    m.yes_shares = 3;
    m.yes_pool = 10;
    c.markets.set(0, m);
    resolve(&mut c, true);
    for user in [ALICE, BOB, CREATOR] {
        assert_eq!(c.redeem(user, 0), Ok(3));
    }
    // Each is worth 33_333_333 parts; the last part of 100_000_000 is not given out.
    let m = market(&c);
    assert_eq!((m.lp_fees, m.dust), (0, 9_999_999));
}

#[test]
fn redeeming_needs_a_settled_market() {
    let mut c = open();
    assert_eq!(c.buy_yes(NOW, ALICE, 0, 3, 0), Ok(3));
    assert_eq!(c.redeem(ALICE, 0), Err(Error::MarketNotResolved));
    report(&mut c, true);
    assert_eq!(c.redeem(ALICE, 0), Err(Error::MarketNotResolved));
    let mut m = market(&c);
    m.status = MarketStatus::Resolved;
    m.outcome = None;
    c.markets.set(0, m);
    assert_eq!(c.redeem(ALICE, 0), Err(Error::InvalidOutcome));
}

#[test]
fn split_shares_without_a_winner_pay_nothing() {
    let mut c = open();
    assert_eq!(c.split(ALICE, 0, 8), Ok(()));
    resolve(&mut c, false);
    assert_eq!(c.redeem(ALICE, 0), Ok(0));
    assert_eq!(
        c.get_position(0, ALICE),
        holding(8, 0, 0, 8)
    );
}

#[test]
fn refunds_pay_back_collateral_once() {
    let mut c = open();
    assert_eq!(c.buy_yes(NOW, ALICE, 0, 5, 0), Ok(5));
    assert_eq!(c.split(ALICE, 0, 8), Ok(()));
    assert_eq!(c.add_liquidity(NOW, ALICE, 0, 6), Ok(6));
    assert_eq!(c.cancel_market(ADMIN, 0), Ok(()));
    c.take_effects();
    assert_eq!(c.redeem(ALICE, 0), Ok(21));
    assert_eq!(
        c.take_effects(),
        vec![
            Effect::TransferOut { to: ALICE, amount: 8 },
            publish(Event::Refunded { market_id: 0, redeemer: ALICE, refund: 21 }),
        ]
    );
    assert_eq!(
        c.get_position(0, ALICE),
        holding(0, 0, 6, 0)
    );
    assert_eq!(c.redeem(ALICE, 0), Err(Error::NothingToRedeem));
    assert_eq!(c.remove_liquidity(ALICE, 0, 6), Ok(6));
}

#[test]
fn large_holdings_can_be_redeemed() {
    let mut c = open();
    let amount = 4_000_000_000_000_000_000;
    assert_eq!(c.buy_yes(NOW, ALICE, 0, amount, 0), Ok(amount));
    assert_eq!(c.buy_no(NOW, BOB, 0, amount, 0), Ok(amount));
    resolve(&mut c, true);
    assert!(c.redeem_in_range(ALICE, 0));
    assert_eq!(c.redeem(ALICE, 0), Ok(2 * amount));
}

#[test]
fn redemptions_have_to_be_representable() {
    let mut c = open();
    assert_eq!(c.buy_yes(NOW, ALICE, 0, 1 << 100, 0), Ok(1 << 100));
    assert!(c.redeem_in_range(ALICE, 0));
    resolve(&mut c, true);
    assert!(!c.redeem_in_range(ALICE, 0));
    assert!(c.redeem_in_range(BOB, 0));
    assert!(c.redeem_in_range(ALICE, 7));
    assert_eq!(c.cancel_market(ADMIN, 0), Ok(()));
    assert!(c.redeem_in_range(ALICE, 0));
}

// ── Batches ──────────────────────────────────────────────────────────────────

/// Two markets that YES won, one that NO won; `ALICE` holds YES in all of them.
fn three_settled() -> PredictionMarket {
    let mut c = running();
    for id in 0..3u32 {
        assert_eq!(c.create_market(NOW, CREATOR, Vec::new(), ORACLE, CLOSE, DUE), Ok(id));
        assert_eq!(c.buy_yes(NOW, ALICE, id, 10 + id as i128, 0), Ok(10 + id as i128));
        assert_eq!(c.close_market(NOW, ADMIN, id), Ok(()));
        assert_eq!(c.oracle_report(CLOSE, ORACLE, id, id != 1), Ok(()));
        assert_eq!(c.finalize(id), Ok(()));
    }
    c.take_effects();
    c
}

#[test]
fn a_batch_reports_every_market_in_order() {
    let mut c = three_settled();
    let env = Env::default();
    let report = c.batch_redeem(ALICE, list(&env, &[2, 1, 0, 2, 9])).unwrap();
    assert_eq!(
        report.successes,
        vec![
            RedeemOutcome { market_id: 2, payout: 12 },
            RedeemOutcome { market_id: 0, payout: 10 },
        ]
    );
    assert_eq!(
        report.failures,
        vec![
            RedeemFailure { market_id: 1, error: Error::NothingToRedeem },
            RedeemFailure { market_id: 2, error: Error::NothingToRedeem },
            RedeemFailure { market_id: 9, error: Error::MarketNotFound },
        ]
    );
    assert_eq!(report.total_payout, 22);
    assert_eq!(
        c.take_effects(),
        vec![
            publish(Event::Redeemed { market_id: 2, redeemer: ALICE, payout: 12 }),
            publish(Event::Redeemed { market_id: 0, redeemer: ALICE, payout: 10 }),
        ]
    );
    let copy = report.clone();
    assert_eq!(copy.successes, report.successes);
    assert_eq!(copy.failures, report.failures);
    assert_eq!(copy.total_payout, report.total_payout);
}

#[test]
fn batches_over_plain_and_host_lists_agree() {
    let env = Env::default();
    let mut c = three_settled();
    let mut d = three_settled();
    let mut e = three_settled();
    let mut f = three_settled();
    let a = c.batch_redeem(ALICE, list(&env, &[0, 1])).unwrap();
    let b = d.redeem_each(ALICE, vec![0, 1]);
    let x = e.try_batch_redeem(ALICE, list(&env, &[0, 1])).unwrap();
    let y = f.try_redeem_each(ALICE, vec![0, 1]).unwrap();
    for r in [b, x, y] {
        assert_eq!(a.successes, r.successes);
        assert_eq!(a.failures, r.failures);
        assert_eq!(a.total_payout, r.total_payout);
    }
    assert_eq!(c.take_effects(), d.take_effects());
}

#[test]
fn an_empty_batch_redeems_nothing() {
    let mut c = three_settled();
    let report = c.batch_redeem(ALICE, list(&Env::default(), &[])).unwrap();
    assert!(report.successes.is_empty());
    assert!(report.failures.is_empty());
    assert_eq!(report.total_payout, 0);
    assert!(c.take_effects().is_empty());
}

#[test]
fn lists_are_read_in_order() {
    let env = Env::default();
    let read = prediction_market::listing::read_numbers(&list(&env, &[5, 3, 5, u32::MAX]));
    assert_eq!(read, Some(vec![5, 3, 5, u32::MAX]));
    assert_eq!(prediction_market::listing::read_numbers(&list(&env, &[])), Some(Vec::new()));
}

#[test]
fn a_list_of_other_values_is_not_read() {
    let env = Env::default();
    let mut mixed: soroban_sdk::Vec<soroban_sdk::Val> = soroban_sdk::Vec::new(&env);
    mixed.push_back(soroban_sdk::Val::from(1u32));
    mixed.push_back(soroban_sdk::Val::from(true));
    let ids = soroban_sdk::Vec::<u32>::try_from_val(&env, &mixed.to_val()).unwrap();
    assert_eq!(prediction_market::listing::read_numbers(&ids), None);
    let mut c = three_settled();
    assert!(c.try_batch_redeem(ALICE, ids).is_none());
    assert!(c.take_effects().is_empty());
}

#[test]
fn a_batch_that_cannot_be_represented_stops() {
    let mut c = open();
    assert_eq!(c.buy_yes(NOW, ALICE, 0, 1 << 100, 0), Ok(1 << 100));
    resolve(&mut c, true);
    assert!(c.try_batch_redeem(ALICE, list(&Env::default(), &[5, 0])).is_none());
    assert!(c.try_redeem_each(ALICE, vec![0]).is_none());
    assert!(c.try_redeem_each(ALICE, vec![5]).is_some());
}
