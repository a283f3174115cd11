//! Scenarios that run the contract against a collateral token.

use prediction_market::{
    Address, BatchRedeemResult, Effect, Error, Event, Market, MarketStatus, Position,
    PredictionMarket,
};
use soroban_sdk::Env;
use std::collections::HashMap;

// ── Helpers ──────────────────────────────────────────────────────────────────

const OPEN_FOR: u64 = 1_000;
const DUE_AFTER: u64 = 5_000;

/// A contract that runs: a clock, a token whose transfers fail without balance, and
/// the events that were published.
struct Client {
    contract: PredictionMarket,
    address: Address,
    now: u64,
    parties: u64,
    balances: HashMap<u64, i128>,
    events: Vec<Event>,
    upgrades: Vec<[u8; 32]>,
}

impl Client {
    fn generate(&mut self) -> Address {
        self.parties += 1;
        Address { id: self.parties }
    }

    fn mint(&mut self, to: Address, amount: i128) {
        *self.balances.entry(to.id).or_insert(0) += amount;
    }

    fn balance(&self, of: Address) -> i128 {
        *self.balances.get(&of.id).unwrap_or(&0)
    }

    fn transfer(&mut self, from: Address, to: Address, amount: i128) {
        if self.balance(from) < amount {
            panic!("balance is not sufficient to spend");
        }
        *self.balances.entry(from.id).or_insert(0) -= amount;
        *self.balances.entry(to.id).or_insert(0) += amount;
    }

    /// Carries out what an accepted request asks for.
    fn settle(&mut self) {
        let contract = self.address;
        for effect in self.contract.take_effects() {
            match effect {
                Effect::TransferIn { from, amount } => self.transfer(from, contract, amount),
                Effect::TransferOut { to, amount } => self.transfer(contract, to, amount),
                Effect::Upgrade { wasm_hash } => self.upgrades.push(wasm_hash),
                Effect::Publish { event } => self.events.push(event),
            }
        }
    }

    fn pass_close_time(&mut self) {
        self.now += OPEN_FOR;
    }

    fn pause(&mut self, caller: Address) -> Result<(), Error> {
        let r = self.contract.pause(caller);
        self.settle();
        r
    }

    fn unpause(&mut self, caller: Address) -> Result<(), Error> {
        let r = self.contract.unpause(caller);
        self.settle();
        r
    }

    fn upgrade(&mut self, caller: Address, wasm_hash: [u8; 32]) -> Result<(), Error> {
        let r = self.contract.upgrade(caller, wasm_hash);
        self.settle();
        r
    }

    fn create_market(
        &mut self,
        creator: Address,
        question: Vec<u8>,
        oracle: Address,
    ) -> Result<u32, Error> {
        let now = self.now;
        let (close, due) = (now + OPEN_FOR, now + DUE_AFTER);
        assert!(self.contract.create_in_range(now, close, due));
        let r = self.contract.create_market(now, creator, question, oracle, close, due);
        self.settle();
        r
    }

    fn seed_market(&mut self, caller: Address, id: u32, amount: i128) -> Result<(), Error> {
        assert!(self.contract.seed_in_range(self.now, id, amount));
        let r = self.contract.seed_market(self.now, caller, id, amount);
        self.settle();
        r
    }

    fn close_market(&mut self, caller: Address, id: u32) -> Result<(), Error> {
        let r = self.contract.close_market(self.now, caller, id);
        self.settle();
        r
    }

    fn oracle_report(&mut self, caller: Address, id: u32, outcome: bool) -> Result<(), Error> {
        let r = self.contract.oracle_report(self.now, caller, id, outcome);
        self.settle();
        r
    }

    fn dispute(&mut self, disputer: Address, id: u32, bond: i128) -> Result<(), Error> {
        let r = self.contract.dispute(disputer, id, bond);
        self.settle();
        r
    }

    fn admin_uphold_dispute(
        &mut self,
        caller: Address,
        id: u32,
        outcome: bool,
    ) -> Result<(), Error> {
        let r = self.contract.admin_uphold_dispute(caller, id, outcome);
        self.settle();
        r
    }

    fn admin_reject_dispute(&mut self, caller: Address, id: u32) -> Result<(), Error> {
        assert!(self.contract.reject_in_range(caller, id));
        let r = self.contract.admin_reject_dispute(caller, id);
        self.settle();
        r
    }

    fn finalize(&mut self, id: u32) -> Result<(), Error> {
        let r = self.contract.finalize(id);
        self.settle();
        r
    }

    fn cancel_market(&mut self, caller: Address, id: u32) -> Result<(), Error> {
        let r = self.contract.cancel_market(caller, id);
        self.settle();
        r
    }

    fn emergency_drain_market(&mut self, caller: Address, id: u32) -> Result<(), Error> {
        let r = self.contract.emergency_drain_market(caller, id);
        self.settle();
        r
    }

    fn buy_yes(&mut self, buyer: Address, id: u32, amount: i128, min: i128) -> Result<i128, Error> {
        assert!(self.contract.buy_in_range(true, self.now, buyer, id, amount, min));
        let r = self.contract.buy_yes(self.now, buyer, id, amount, min);
        self.settle();
        r
    }

    fn buy_no(&mut self, buyer: Address, id: u32, amount: i128, min: i128) -> Result<i128, Error> {
        assert!(self.contract.buy_in_range(false, self.now, buyer, id, amount, min));
        let r = self.contract.buy_no(self.now, buyer, id, amount, min);
        self.settle();
        r
    }

    fn redeem(&mut self, redeemer: Address, id: u32) -> Result<i128, Error> {
        assert!(self.contract.redeem_in_range(redeemer, id));
        let r = self.contract.redeem(redeemer, id);
        self.settle();
        r
    }

    fn batch_redeem(&mut self, redeemer: Address, ids: Vec<u32>) -> BatchRedeemResult {
        let list = soroban_sdk::Vec::from_slice(&Env::default(), &ids);
        let r = self.contract.batch_redeem(redeemer, list).unwrap();
        self.settle();
        r
    }

    fn add_liquidity(&mut self, provider: Address, id: u32, amount: i128) -> Result<i128, Error> {
        assert!(self.contract.add_in_range(self.now, provider, id, amount));
        let r = self.contract.add_liquidity(self.now, provider, id, amount);
        self.settle();
        r
    }

    fn remove_liquidity(&mut self, provider: Address, id: u32, shares: i128) -> Result<i128, Error> {
        assert!(self.contract.remove_in_range(provider, id, shares));
        let r = self.contract.remove_liquidity(provider, id, shares);
        self.settle();
        r
    }

    fn claim_lp_fees(&mut self, provider: Address, id: u32) -> Result<i128, Error> {
        assert!(self.contract.claim_in_range(provider, id));
        let r = self.contract.claim_lp_fees(provider, id);
        self.settle();
        r
    }

    fn split(&mut self, caller: Address, id: u32, amount: i128) -> Result<(), Error> {
        assert!(self.contract.split_in_range(caller, id, amount));
        let r = self.contract.split(caller, id, amount);
        self.settle();
        r
    }

    fn merge(&mut self, caller: Address, id: u32, amount: i128) -> Result<(), Error> {
        let r = self.contract.merge(caller, id, amount);
        self.settle();
        r
    }

    fn get_market(&self, id: u32) -> Market {
        self.contract.get_market(id).unwrap()
    }

    fn get_position(&self, id: u32, user: Address) -> Position {
        self.contract.get_position(id, user)
    }

    fn get_treasury_balance(&self) -> i128 {
        self.contract.get_treasury_balance()
    }
}

/// An initialized contract, its admin, its treasury and an oracle.
fn setup() -> (Client, Address, Address, Address) {
    let mut client = Client {
        contract: PredictionMarket::new(),
        address: Address { id: 0 },
        now: 50,
        parties: 0,
        balances: HashMap::new(),
        events: Vec::new(),
        upgrades: Vec::new(),
    };
    let admin = client.generate();
    let treasury = client.generate();
    let oracle = client.generate();
    let token = client.generate();
    client.contract.init(admin, treasury, token).unwrap();
    client.settle();
    (client, admin, treasury, oracle)
}

fn question() -> Vec<u8> {
    b"Will BTC hit 100k?".to_vec()
}

// ── 1. Happy path ─────────────────────────────────────────────────────────────

#[test]
fn test_happy_path_full_lifecycle() {
    let (mut client, admin, _treasury, oracle) = setup();
    let user_yes = client.generate();
    let user_no = client.generate();

    let mid = client.create_market(admin, question(), oracle).unwrap();
    client.seed_market(admin, mid, 1_000_000).unwrap();

    let yes_shares = client.buy_yes(user_yes, mid, 100_000, 1).unwrap();
    assert!(yes_shares > 0);

    let no_shares = client.buy_no(user_no, mid, 100_000, 1).unwrap();
    assert!(no_shares > 0);

    client.close_market(admin, mid).unwrap();
    client.pass_close_time();
    client.oracle_report(oracle, mid, true).unwrap();
    client.finalize(mid).unwrap();

    let payout = client.redeem(user_yes, mid).unwrap();
    assert!(payout > 0);

    // The NO holder gets nothing.
    let err = client.redeem(user_no, mid).unwrap_err();
    assert_eq!(err, Error::NothingToRedeem);
}

// ── 2. Dispute flow ───────────────────────────────────────────────────────────

#[test]
fn test_dispute_admin_upholds_emergency_resolve() {
    let (mut client, admin, _treasury, oracle) = setup();
    let user = client.generate();
    let disputer = client.generate();
    let bond = 10_000_000i128;
    client.mint(disputer, bond);

    let mid = client.create_market(admin, question(), oracle).unwrap();
    client.seed_market(admin, mid, 1_000_000).unwrap();
    client.buy_yes(user, mid, 100_000, 1).unwrap();
    client.close_market(admin, mid).unwrap();
    client.pass_close_time();
    client.oracle_report(oracle, mid, false).unwrap();

    // The bond is escrowed into the contract.
    client.dispute(disputer, mid, bond).unwrap();
    assert_eq!(client.balance(disputer), 0);

    // The admin upholds the dispute and flips the outcome.
    client.admin_uphold_dispute(admin, mid, true).unwrap();
    client.finalize(mid).unwrap();

    let payout = client.redeem(user, mid).unwrap();
    assert!(payout > 0);
}

// ── 3. Dispute rejected — bond slashed ───────────────────────────────────────

#[test]
fn test_dispute_rejected_bond_slashed_to_treasury() {
    let (mut client, admin, _treasury, oracle) = setup();
    let disputer = client.generate();
    let bond = 10_000_000i128;
    client.mint(disputer, bond);

    let mid = client.create_market(admin, question(), oracle).unwrap();
    client.seed_market(admin, mid, 1_000_000).unwrap();
    client.close_market(admin, mid).unwrap();
    client.pass_close_time();
    client.oracle_report(oracle, mid, true).unwrap();
    client.dispute(disputer, mid, bond).unwrap();

    client.admin_reject_dispute(admin, mid).unwrap();

    let treasury_bal = client.get_treasury_balance();
    assert_eq!(treasury_bal, bond);

    // The market is closed again and can be finalized.
    client.finalize(mid).unwrap();
    let market = client.get_market(mid);
    assert_eq!(market.status, MarketStatus::Resolved);
}

// ── 4. Cancel flow ────────────────────────────────────────────────────────────

#[test]
fn test_cancel_and_refund_all_positions() {
    let (mut client, admin, _treasury, oracle) = setup();
    let user_a = client.generate();
    let user_b = client.generate();

    let mid = client.create_market(admin, question(), oracle).unwrap();
    client.seed_market(admin, mid, 1_000_000).unwrap();
    client.buy_yes(user_a, mid, 100_000, 1).unwrap();
    client.buy_no(user_b, mid, 100_000, 1).unwrap();

    client.cancel_market(admin, mid).unwrap();

    let refund_a = client.redeem(user_a, mid).unwrap();
    let refund_b = client.redeem(user_b, mid).unwrap();
    assert!(refund_a > 0);
    assert!(refund_b > 0);
}

// ── 5. LP flow ────────────────────────────────────────────────────────────────

#[test]
fn test_lp_add_trade_claim_fees_remove() {
    let (mut client, admin, _treasury, oracle) = setup();
    let lp = client.generate();
    let trader = client.generate();

    let mid = client.create_market(admin, question(), oracle).unwrap();

    let lp_shares = client.add_liquidity(lp, mid, 1_000_000).unwrap();
    assert!(lp_shares > 0);

    client.buy_yes(trader, mid, 100_000, 1).unwrap();

    // There may be no fees yet, but claiming them is not refused.
    let _fees = client.claim_lp_fees(lp, mid).unwrap();

    let returned = client.remove_liquidity(lp, mid, lp_shares).unwrap();
    assert!(returned > 0);
}

// ── 5b. LP proportional share minting ────────────────────────────────────────

#[test]
fn test_lp_proportional_share_minting() {
    let (mut client, admin, _treasury, oracle) = setup();
    let lp_a = client.generate();
    let lp_b = client.generate();
    let trader = client.generate();

    let mid = client.create_market(admin, question(), oracle).unwrap();
    client.seed_market(admin, mid, 1_000_000).unwrap();

    let shares_a = client.add_liquidity(lp_a, mid, 500_000).unwrap();
    assert_eq!(shares_a, 500_000, "first LP should receive 1:1 shares on bootstrap");

    client.add_liquidity(lp_a, mid, 500_000).unwrap();

    // 500_000 * 1_000_000 / 1_000_000
    let shares_b = client.add_liquidity(lp_b, mid, 500_000).unwrap();
    assert_eq!(shares_b, 500_000);

    client.buy_yes(trader, mid, 1_000_000, 1).unwrap();

    let market = client.get_market(mid);
    assert_eq!(
        market.total_lp_shares,
        shares_a + 500_000 + shares_b,
        "total_lp_shares must equal sum of all minted shares"
    );
    assert!(market.total_lp_shares > 0);
}

// ── 5c. LP redemption reflects pool value ────────────────────────────────────

#[test]
fn test_lp_remove_liquidity_proportional_payout() {
    let (mut client, admin, _treasury, oracle) = setup();
    let lp_a = client.generate();
    let lp_b = client.generate();

    let mid = client.create_market(admin, question(), oracle).unwrap();

    let shares_a = client.add_liquidity(lp_a, mid, 1_000_000).unwrap();
    assert_eq!(shares_a, 1_000_000);

    let shares_b = client.add_liquidity(lp_b, mid, 500_000).unwrap();
    assert_eq!(shares_b, 500_000);

    let payout_a = client.remove_liquidity(lp_a, mid, shares_a).unwrap();
    assert_eq!(payout_a, 1_000_000, "LP-A should recover their proportional share of pool value");

    let payout_b = client.remove_liquidity(lp_b, mid, shares_b).unwrap();
    assert_eq!(payout_b, 500_000, "LP-B should recover their proportional share of pool value");

    let market = client.get_market(mid);
    assert_eq!(market.lp_pool, 0);
    assert_eq!(market.total_lp_shares, 0);
}

// ── 5d. claim_lp_fees uses share units ───────────────────────────────────────

#[test]
fn test_claim_lp_fees_proportional_to_shares() {
    let (mut client, admin, _treasury, oracle) = setup();
    let lp_a = client.generate();
    let lp_b = client.generate();

    let mid = client.create_market(admin, question(), oracle).unwrap();

    client.add_liquidity(lp_a, mid, 2_000).unwrap();
    client.add_liquidity(lp_b, mid, 1_000).unwrap();

    // With no accumulated fees both get nothing, and neither is refused.
    let fees_a = client.claim_lp_fees(lp_a, mid).unwrap();
    let fees_b = client.claim_lp_fees(lp_b, mid).unwrap();
    assert_eq!(fees_a, 0);
    assert_eq!(fees_b, 0);
}

// ── 6. Batch redeem ───────────────────────────────────────────────────────────

#[test]
fn test_batch_redeem_across_three_markets() {
    let (mut client, admin, _treasury, oracle) = setup();
    let user = client.generate();

    let mut ids = Vec::new();
    for _ in 0..3 {
        let mid = client.create_market(admin, question(), oracle).unwrap();
        client.seed_market(admin, mid, 1_000_000).unwrap();
        client.buy_yes(user, mid, 100_000, 1).unwrap();
        client.close_market(admin, mid).unwrap();
        client.pass_close_time();
        client.oracle_report(oracle, mid, true).unwrap();
        client.finalize(mid).unwrap();
        ids.push(mid);
    }

    let result = client.batch_redeem(user, ids);
    assert_eq!(result.successes.len(), 3);
    assert_eq!(result.failures.len(), 0);
    assert!(result.total_payout > 0);
}

#[test]
fn test_batch_redeem_partial_failure() {
    let (mut client, admin, _treasury, oracle) = setup();
    let user = client.generate();

    let mut ids = Vec::new();
    let mid1 = client.create_market(admin, question(), oracle).unwrap();
    client.seed_market(admin, mid1, 1_000_000).unwrap();
    client.buy_yes(user, mid1, 100_000, 1).unwrap();
    client.close_market(admin, mid1).unwrap();
    client.pass_close_time();
    client.oracle_report(oracle, mid1, true).unwrap();
    client.finalize(mid1).unwrap();
    ids.push(mid1);

    // The second market resolves against the user.
    let mid2 = client.create_market(admin, question(), oracle).unwrap();
    client.seed_market(admin, mid2, 1_000_000).unwrap();
    client.buy_yes(user, mid2, 100_000, 1).unwrap();
    client.close_market(admin, mid2).unwrap();
    client.pass_close_time();
    client.oracle_report(oracle, mid2, false).unwrap();
    client.finalize(mid2).unwrap();
    ids.push(mid2);

    let result = client.batch_redeem(user, ids);
    assert_eq!(result.successes.len(), 1);
    assert_eq!(result.failures.len(), 1);
    assert!(result.total_payout > 0);
    assert_eq!(result.failures[0].error, Error::NothingToRedeem);
}

// ── 7. Split / Merge ──────────────────────────────────────────────────────────

#[test]
fn test_split_sell_half_merge_remaining() {
    let (mut client, admin, _treasury, oracle) = setup();
    let user = client.generate();
    client.mint(user, 200_000);

    let mid = client.create_market(admin, question(), oracle).unwrap();
    client.seed_market(admin, mid, 1_000_000).unwrap();

    // Collateral is pulled one for one into the contract.
    client.split(user, mid, 200_000).unwrap();
    assert_eq!(client.balance(user), 0);
    assert_eq!(client.balance(client.address), 200_000);
    let pos = client.get_position(mid, user);
    assert_eq!(pos.yes_shares, 200_000);
    assert_eq!(pos.no_shares, 200_000);

    // Merging half returns half of it.
    client.merge(user, mid, 100_000).unwrap();
    assert_eq!(client.balance(user), 100_000);
    assert_eq!(client.balance(client.address), 100_000);
    let pos2 = client.get_position(mid, user);
    assert_eq!(pos2.yes_shares, 100_000);
    assert_eq!(pos2.no_shares, 100_000);
}

// ── 7b. Split/merge collateral enforcement ───────────────────────────────────

#[test]
fn test_split_requires_positive_amount() {
    let (mut client, admin, _treasury, oracle) = setup();
    let user = client.generate();
    let mid = client.create_market(admin, question(), oracle).unwrap();

    let err = client.split(user, mid, 0).unwrap_err();
    assert_eq!(err, Error::InvalidAmount);

    let err = client.split(user, mid, -1).unwrap_err();
    assert_eq!(err, Error::InvalidAmount);
}

#[test]
#[should_panic]
fn test_split_fails_without_sufficient_collateral() {
    let (mut client, admin, _treasury, oracle) = setup();
    let user = client.generate();
    client.mint(user, 100);
    let mid = client.create_market(admin, question(), oracle).unwrap();

    client.split(user, mid, 1_000).unwrap();
}

#[test]
fn test_merge_returns_collateral_only_up_to_split_tokens() {
    let (mut client, admin, _treasury, oracle) = setup();
    let user = client.generate();
    client.mint(user, 500_000);
    let mid = client.create_market(admin, question(), oracle).unwrap();
    client.seed_market(admin, mid, 1_000_000).unwrap();

    client.split(user, mid, 500_000).unwrap();
    assert_eq!(client.balance(client.address), 500_000);

    client.merge(user, mid, 500_000).unwrap();
    assert_eq!(client.balance(user), 500_000, "full collateral returned 1:1");
    assert_eq!(client.balance(client.address), 0);
}

// ── 8. Slippage exceeded ──────────────────────────────────────────────────────

#[test]
fn test_buy_yes_slippage_exceeded() {
    let (mut client, admin, _treasury, oracle) = setup();
    let user = client.generate();

    let mid = client.create_market(admin, question(), oracle).unwrap();
    client.seed_market(admin, mid, 1_000_000).unwrap();

    let err = client.buy_yes(user, mid, 100_000, 999_999_999).unwrap_err();
    assert_eq!(err, Error::SlippageExceeded);
}

// ── 9. Emergency pause ────────────────────────────────────────────────────────

#[test]
fn test_emergency_pause_blocks_mutations_unpause_succeeds() {
    let (mut client, admin, _treasury, oracle) = setup();
    let user = client.generate();

    let mid = client.create_market(admin, question(), oracle).unwrap();
    client.seed_market(admin, mid, 1_000_000).unwrap();

    client.pause(admin).unwrap();

    let err = client.buy_yes(user, mid, 100_000, 1).unwrap_err();
    assert_eq!(err, Error::ContractPaused);

    let err = client.buy_no(user, mid, 100_000, 1).unwrap_err();
    assert_eq!(err, Error::ContractPaused);

    let err = client.close_market(admin, mid).unwrap_err();
    assert_eq!(err, Error::ContractPaused);

    let err = client.create_market(admin, question(), oracle).unwrap_err();
    assert_eq!(err, Error::ContractPaused);

    client.unpause(admin).unwrap();

    let shares = client.buy_yes(user, mid, 100_000, 1).unwrap();
    assert!(shares > 0);
}

// ── 10. Events ───────────────────────────────────────────────────────────────

#[test]
fn test_create_market_emits_created_event() {
    let (mut client, admin, _treasury, oracle) = setup();

    let mid = client.create_market(admin, question(), oracle).unwrap();

    let event = *client.events.last().unwrap();
    assert_eq!(event.topics(), ("market", "created"));
    assert_eq!(event, Event::Created { market_id: mid, creator: admin, oracle });
}

#[test]
fn test_buy_yes_emits_traded_event() {
    let (mut client, admin, _treasury, oracle) = setup();
    let user = client.generate();

    let mid = client.create_market(admin, question(), oracle).unwrap();
    client.seed_market(admin, mid, 1_000_000).unwrap();
    let shares = client.buy_yes(user, mid, 100_000, 1).unwrap();

    let event = *client.events.last().unwrap();
    assert_eq!(event.topics(), ("market", "traded"));
    assert_eq!(
        event,
        Event::Traded { market_id: mid, buyer: user, yes: true, amount: 100_000i128, shares }
    );
}

#[test]
fn test_finalize_emits_resolved_event() {
    let (mut client, admin, _treasury, oracle) = setup();
    let user = client.generate();

    let mid = client.create_market(admin, question(), oracle).unwrap();
    client.seed_market(admin, mid, 1_000_000).unwrap();
    client.buy_yes(user, mid, 100_000, 1).unwrap();
    client.close_market(admin, mid).unwrap();
    client.pass_close_time();
    client.oracle_report(oracle, mid, true).unwrap();
    client.finalize(mid).unwrap();

    let event = *client.events.last().unwrap();
    assert_eq!(event.topics(), ("market", "resolved"));
    assert_eq!(event, Event::Resolved { market_id: mid, winner: Some(true) });
}

// ── 11. Emergency upgrade & market containment ───────────────────────────────

#[test]
fn test_upgrade_rejects_non_admin() {
    let (mut client, _admin, _treasury, _oracle) = setup();
    let attacker = client.generate();
    let fake_hash = [7u8; 32];

    let err = client.upgrade(attacker, fake_hash).unwrap_err();
    assert_eq!(err, Error::Unauthorized);
    assert!(client.upgrades.is_empty());
}

#[test]
fn test_emergency_drain_market_rejects_non_admin() {
    let (mut client, admin, _treasury, oracle) = setup();
    let attacker = client.generate();
    let mid = client.create_market(admin, question(), oracle).unwrap();

    let err = client.emergency_drain_market(attacker, mid).unwrap_err();
    assert_eq!(err, Error::Unauthorized);

    let market = client.get_market(mid);
    assert_eq!(market.status, MarketStatus::Open);
}

#[test]
fn test_emergency_drain_market_cancels_and_preserves_storage() {
    let (mut client, admin, _treasury, oracle) = setup();
    let user = client.generate();
    client.mint(user, 300_000);

    let mid = client.create_market(admin, question(), oracle).unwrap();
    client.seed_market(admin, mid, 1_000_000).unwrap();
    client.split(user, mid, 300_000).unwrap();

    client.emergency_drain_market(admin, mid).unwrap();
    let market = client.get_market(mid);
    assert_eq!(market.status, MarketStatus::Cancelled);
    assert_eq!(market.creator, admin);
    assert_eq!(market.question, question());

    // The refund counts every share, and pays back the collateral that was split.
    let refund = client.redeem(user, mid).unwrap();
    assert_eq!(refund, 600_000);
    assert_eq!(client.balance(user), 300_000);
    assert_eq!(client.balance(client.address), 0);

    let err = client.emergency_drain_market(admin, mid).unwrap_err();
    assert_eq!(err, Error::MarketAlreadyCancelled);
}

// ── 12. Redeem payout precision & dust routing ────────────────────────────────

#[test]
fn test_redeem_precision_dust_flushes_to_lp_fees_with_exact_conservation() {
    let (mut client, admin, _treasury, oracle) = setup();
    let buyer_a = client.generate();
    let buyer_b = client.generate();

    let mid = client.create_market(admin, question(), oracle).unwrap();
    let shares_a = client.buy_yes(buyer_a, mid, 3, 1).unwrap();
    assert_eq!(shares_a, 3);
    // 4 * (0 + 3) / (3 + 4) = 12 / 7
    let shares_b = client.buy_yes(buyer_b, mid, 4, 1).unwrap();
    assert_eq!(shares_b, 1);

    client.close_market(admin, mid).unwrap();
    client.pass_close_time();
    client.oracle_report(oracle, mid, true).unwrap();
    client.finalize(mid).unwrap();

    let market = client.get_market(mid);
    let total_pool = market.yes_pool + market.no_pool;
    let total_winning = market.yes_shares;
    assert_eq!(total_pool, 7);
    assert_eq!(total_winning, 4);

    let payout_a = client.redeem(buyer_a, mid).unwrap();
    let payout_b = client.redeem(buyer_b, mid).unwrap();

    assert_eq!(payout_a, 5); // (3 * 10_000_000 * 7) / 4 / 10_000_000
    assert_eq!(payout_b, 1); // (1 * 10_000_000 * 7) / 4 / 10_000_000

    // The fractions, 2_500_000 and 7_500_000, make up exactly one unit of fees.
    let market_after = client.get_market(mid);
    assert_eq!(market_after.lp_fees, 1);
    assert_eq!(market_after.dust, 0);

    assert_eq!(payout_a + payout_b + market_after.lp_fees, total_pool);
}

// ── 13. Dispute bond escrow ───────────────────────────────────────────────────

#[test]
fn test_dispute_rejects_bond_below_minimum() {
    let (mut client, admin, _treasury, oracle) = setup();
    let disputer = client.generate();
    client.mint(disputer, 10_000_000);

    let mid = client.create_market(admin, question(), oracle).unwrap();
    client.seed_market(admin, mid, 1_000_000).unwrap();
    client.close_market(admin, mid).unwrap();
    client.pass_close_time();
    client.oracle_report(oracle, mid, true).unwrap();

    let err = client.dispute(disputer, mid, 9_999_999).unwrap_err();
    assert_eq!(err, Error::InvalidAmount);
    assert_eq!(client.balance(disputer), 10_000_000);

    let market = client.get_market(mid);
    assert_eq!(market.status, MarketStatus::Closed);
}

#[test]
#[should_panic]
fn test_dispute_fails_without_sufficient_balance() {
    let (mut client, admin, _treasury, oracle) = setup();
    let disputer = client.generate();
    client.mint(disputer, 5_000_000);

    let mid = client.create_market(admin, question(), oracle).unwrap();
    client.seed_market(admin, mid, 1_000_000).unwrap();
    client.close_market(admin, mid).unwrap();
    client.pass_close_time();
    client.oracle_report(oracle, mid, true).unwrap();

    client.dispute(disputer, mid, 10_000_000).unwrap();
}
