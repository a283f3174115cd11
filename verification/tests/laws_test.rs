//! What holds across several requests, on concrete values.

use prediction_market::{
    Address, Effect, Market, MarketStatus, Position, PredictionMarket, MIN_DISPUTE_BOND,
};

const ADMIN: Address = Address { id: 10 };
const ORACLE: Address = Address { id: 11 };
const ALICE: Address = Address { id: 12 };
const BOB: Address = Address { id: 13 };

fn with_markets(n: u32) -> PredictionMarket {
    let mut c = PredictionMarket::new();
    c.init(ADMIN, ADMIN, ADMIN).unwrap();
    for i in 0..n {
        assert_eq!(c.create_market(0, ADMIN, Vec::new(), ORACLE, 10, 20), Ok(i));
    }
    c
}

fn holding(yes_shares: i128, no_shares: i128, lp_shares: i128, split_tokens: i128) -> Position {
    Position { yes_shares, no_shares, lp_shares, split_tokens, fee_taken: 0 }
}

fn custody(effects: &[Effect]) -> i128 {
    let mut sum = 0i128;
    for e in effects {
        match e {
            Effect::TransferIn { amount, .. } => sum += amount,
            Effect::TransferOut { amount, .. } => sum -= amount,
            _ => {}
        }
    }
    sum
}

fn same_pools(a: &Market, b: &Market) -> bool {
    (a.yes_pool, a.no_pool, a.yes_shares, a.no_shares, a.lp_pool, a.total_lp_shares)
        == (b.yes_pool, b.no_pool, b.yes_shares, b.no_shares, b.lp_pool, b.total_lp_shares)
}

#[test]
fn others_are_left_alone() {
    let mut c = with_markets(2);
    c.buy_yes(0, ALICE, 1, 100, 0).unwrap();
    c.add_liquidity(0, BOB, 1, 50).unwrap();
    let market = c.get_market(1).unwrap();
    let alice = c.get_position(1, ALICE);
    let bob = c.get_position(1, BOB);
    c.seed_market(0, ALICE, 0, 10).unwrap();
    c.buy_no(0, ALICE, 0, 10, 0).unwrap();
    c.split(BOB, 0, 10).unwrap();
    c.merge(BOB, 0, 5).unwrap();
    c.add_liquidity(0, ALICE, 0, 10).unwrap();
    c.cancel_market(ADMIN, 0).unwrap();
    c.redeem(BOB, 0).unwrap();
    let after = c.get_market(1).unwrap();
    assert!(same_pools(&market, &after));
    assert_eq!(after.status, MarketStatus::Open);
    assert_eq!(c.get_position(1, ALICE), alice);
    assert_eq!(c.get_position(1, BOB), bob);
    assert_eq!(c.get_position(0, ALICE).lp_shares, 10);
}

#[test]
fn a_batch_changes_only_the_redeemer() {
    let mut c = with_markets(2);
    c.buy_yes(0, ALICE, 0, 100, 0).unwrap();
    c.buy_yes(0, BOB, 0, 100, 0).unwrap();
    c.cancel_market(ADMIN, 0).unwrap();
    let bob = c.get_position(0, BOB);
    let report = c.redeem_each(ALICE, vec![0, 1]);
    assert_eq!(report.total_payout, 100);
    assert_eq!(c.get_position(0, BOB), bob);
    assert_eq!(c.get_position(0, ALICE).yes_shares, 0);
}

#[test]
fn custody_is_what_is_owed() {
    let mut c = with_markets(2);
    c.seed_market(0, ALICE, 0, 1_000).unwrap();
    c.buy_yes(0, ALICE, 0, 70, 0).unwrap();
    c.split(ALICE, 0, 40).unwrap();
    c.split(BOB, 1, 25).unwrap();
    c.merge(ALICE, 0, 15).unwrap();
    c.close_market(0, ADMIN, 0).unwrap();
    c.oracle_report(10, ORACLE, 0, true).unwrap();
    c.dispute(BOB, 0, MIN_DISPUTE_BOND).unwrap();
    let split = c.get_position(0, ALICE).split_tokens + c.get_position(1, BOB).split_tokens;
    assert_eq!(split, 50);
    assert_eq!(custody(&c.effects), split + c.get_market(0).unwrap().dispute_bond);
    c.admin_reject_dispute(ADMIN, 0).unwrap();
    c.cancel_market(ADMIN, 1).unwrap();
    assert_eq!(c.redeem(BOB, 1), Ok(50));
    assert_eq!(c.get_position(1, BOB).split_tokens, 0);
    assert_eq!(custody(&c.effects), 25 + c.get_treasury_balance());
}

#[test]
fn liquidity_shares_add_up() {
    let mut c = with_markets(1);
    c.add_liquidity(0, ALICE, 0, 100).unwrap();
    c.add_liquidity(0, BOB, 0, 33).unwrap();
    c.add_liquidity(0, ALICE, 0, 7).unwrap();
    c.remove_liquidity(BOB, 0, 13).unwrap();
    let held = c.get_position(0, ALICE).lp_shares + c.get_position(0, BOB).lp_shares;
    assert_eq!(c.get_market(0).unwrap().total_lp_shares, held);
    assert_eq!(held, 127);
}

#[test]
fn larger_purchases_get_no_fewer_shares() {
    let mut last = 0;
    for amount in [1, 2, 10, 1_000, 1_000_000] {
        let shares = PredictionMarket::calc_shares(amount, 500, 300);
        assert!(last <= shares && shares <= 800);
        last = shares;
    }
    assert_eq!(last, 799);
}

#[test]
fn deposits_do_not_gain() {
    let mut c = with_markets(1);
    c.add_liquidity(0, ALICE, 0, 10).unwrap();
    let mut m = c.get_market(0).unwrap();
    m.lp_pool = 17;
    c.markets.set(0, m);
    // 9 * 10 / 17, and then 5 * 26 / 15
    assert_eq!(c.add_liquidity(0, BOB, 0, 9), Ok(5));
    assert_eq!(c.remove_liquidity(BOB, 0, 5), Ok(8));
}

#[test]
fn withdrawals_do_not_dilute() {
    let mut c = with_markets(1);
    c.add_liquidity(0, ALICE, 0, 10).unwrap();
    c.add_liquidity(0, BOB, 0, 7).unwrap();
    let mut m = c.get_market(0).unwrap();
    m.lp_pool = 40;
    c.markets.set(0, m);
    // 7 shares are worth 7 * 40 / 17 = 16 before and 7 * 17 / 7 = 17 after.
    assert_eq!(c.remove_liquidity(ALICE, 0, 10), Ok(23));
    assert_eq!(c.remove_liquidity(BOB, 0, 7), Ok(17));
}

#[test]
fn a_settled_market_never_opens_again() {
    let mut c = with_markets(1);
    c.close_market(0, ADMIN, 0).unwrap();
    c.oracle_report(10, ORACLE, 0, true).unwrap();
    c.finalize(0).unwrap();
    assert!(c.close_market(10, ADMIN, 0).is_err());
    assert!(c.oracle_report(10, ORACLE, 0, false).is_err());
    assert!(c.dispute(BOB, 0, MIN_DISPUTE_BOND).is_err());
    assert!(c.admin_uphold_dispute(ADMIN, 0, false).is_err());
    assert!(c.emergency_timeout_refund(21, 0).is_err());
    let m = c.get_market(0).unwrap();
    assert_eq!((m.status, m.outcome), (MarketStatus::Resolved, Some(true)));
    c.cancel_market(ADMIN, 0).unwrap();
    assert!(c.finalize(0).is_err());
    assert_eq!(c.get_market(0).unwrap().status, MarketStatus::Cancelled);
}

#[test]
fn terms_stay_as_they_were() {
    let mut c = with_markets(1);
    c.seed_market(0, ALICE, 0, 5).unwrap();
    c.close_market(0, ADMIN, 0).unwrap();
    c.oracle_report(10, ORACLE, 0, false).unwrap();
    c.finalize(0).unwrap();
    let m = c.get_market(0).unwrap();
    assert_eq!((m.creator, m.oracle), (ADMIN, Some(ORACLE)));
    assert_eq!((m.close_time, m.resolution_deadline), (10, 20));
}

#[test]
fn an_empty_position_holds_nothing() {
    let c = with_markets(1);
    assert_eq!(
        c.get_position(0, ALICE),
        holding(0, 0, 0, 0)
    );
}

#[test]
fn shares_are_issued_or_split() {
    let mut c = with_markets(1);
    c.seed_market(0, ALICE, 0, 100).unwrap();
    c.buy_yes(0, ALICE, 0, 40, 0).unwrap();
    c.buy_yes(0, BOB, 0, 10, 0).unwrap();
    c.buy_no(0, BOB, 0, 30, 0).unwrap();
    c.split(ALICE, 0, 12).unwrap();
    c.merge(ALICE, 0, 5).unwrap();
    let m = c.get_market(0).unwrap();
    let (a, b) = (c.get_position(0, ALICE), c.get_position(0, BOB));
    assert_eq!(a.yes_shares + b.yes_shares - m.yes_shares, 7);
    assert_eq!(a.no_shares + b.no_shares - m.no_shares, 7);
}

#[test]
fn issued_shares_are_covered_by_the_pools() {
    let mut c = with_markets(1);
    c.seed_market(0, ALICE, 0, 100).unwrap();
    c.buy_yes(0, ALICE, 0, 40, 0).unwrap();
    c.buy_yes(0, BOB, 0, 13, 0).unwrap();
    c.buy_no(0, BOB, 0, 30, 0).unwrap();
    c.close_market(0, ADMIN, 0).unwrap();
    c.oracle_report(10, ORACLE, 0, true).unwrap();
    c.finalize(0).unwrap();
    let m = c.get_market(0).unwrap();
    assert_eq!(m.yes_pool + m.no_pool, 283);
    let paid = c.redeem(ALICE, 0).unwrap() + c.redeem(BOB, 0).unwrap();
    let m = c.get_market(0).unwrap();
    assert_eq!(paid + m.lp_fees, 282);
    assert_eq!(m.dust, 9_999_999);
}

#[test]
fn split_shares_are_paid_like_bought_ones() {
    let mut c = with_markets(1);
    c.buy_yes(0, ALICE, 0, 3, 0).unwrap();
    c.split(BOB, 0, 100).unwrap();
    c.close_market(0, ADMIN, 0).unwrap();
    c.oracle_report(10, ORACLE, 0, true).unwrap();
    c.finalize(0).unwrap();
    assert_eq!(c.redeem(BOB, 0), Ok(100));
    assert_eq!(c.redeem(ALICE, 0), Ok(3));
}
