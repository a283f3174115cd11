//! What an accepted request changes, amount by amount, and what it leaves alone.
use crate::contract::{as_int, verdict, PredictionMarket};
use crate::events::{Effect, Event};
use crate::laws::books::{consistent, lemma_position_fair, lemma_redeemed_sound, sound};
use crate::listing::{entries, numbers};
use crate::math::{in_range, lemma_quotient_floors, quotient, remainder};
use crate::model::{shares_bought, State};
use crate::requests::Request;
use crate::types::{
    Address, Error, Market, MarketStatus, MarketView, Position, PositionKey, PositionView,
    RedeemFailure, RedeemOutcome, PRECISION,
};
use vstd::prelude::*;

verus! {

/// The settings and the treasury's balance are as before, and so are all markets and
/// positions but those named. The host is asked for `asked` and nothing else.
pub open spec fn changes_only(
    s: State,
    after: State,
    market_id: u32,
    user: Option<Address>,
    asked: Seq<Effect>,
) -> bool {
    &&& after.admin == s.admin
    &&& after.treasury == s.treasury
    &&& after.token == s.token
    &&& after.paused == s.paused
    &&& after.market_count == s.market_count
    &&& after.treasury_balance == s.treasury_balance
    &&& after.markets == s.markets.insert(market_id, after.markets[market_id])
    &&& user is None ==> after.positions == s.positions
    &&& user is Some ==> after.positions == s.positions.insert(
        PositionKey { market_id, user: user->0 },
        after.positions[PositionKey { market_id, user: user->0 }],
    )
    &&& after.effects == s.effects + asked
}

/// The two markets differ in nothing but their status.
pub open spec fn moves_to(before: MarketView, after: MarketView, status: MarketStatus) -> bool {
    &&& after.status == status
    &&& after == (MarketView { status: after.status, ..before })
}

/// What a party holds in a market is what was last written, and nothing at first.
pub proof fn law_positions_hold_what_was_written(s: State, market_id: u32, user: Address)
    ensures
        ({
            let key = PositionKey { market_id, user };
            let held = s.position(market_id, user);
            &&& s.positions.contains_key(key) ==> held == s.positions[key]
            &&& !s.positions.contains_key(key) ==> {
                &&& held.yes_shares == 0
                &&& held.no_shares == 0
                &&& held.lp_shares == 0
                &&& held.split_tokens == 0
                &&& held.fee_taken == 0
            }
        }),
{
}

/// Initialization sets the three parties, starts the count of markets at nothing and
/// leaves records alone.
pub proof fn law_initialization_names_the_parties(
    s: State,
    admin: Address,
    treasury: Address,
    token: Address,
)
    requires
        s.admin is None,
    ensures
        ({
            let after = s.apply(Request::Init { admin, treasury, token });
            &&& after.admin == Some(admin)
            &&& after.treasury == Some(treasury)
            &&& after.token == Some(token)
            &&& !after.paused
            &&& after.market_count == 0
            &&& after.treasury_balance == s.treasury_balance
            &&& after.markets == s.markets
            &&& after.positions == s.positions
            &&& after.effects == s.effects + seq![
                Effect::Publish { event: Event::Init { admin, treasury } },
            ]
        }),
{
}

/// The admin's pause and its end change whether the contract is paused and nothing
/// else; an upgrade changes nothing and asks the host for the new code.
pub proof fn law_administration_changes_no_record(s: State, admin: Address, wasm_hash: [u8; 32])
    requires
        s.admin == Some(admin),
    ensures
        ({
            let paused = s.apply(Request::Pause { caller: admin });
            let unpaused = s.apply(Request::Unpause { caller: admin });
            let upgraded = s.apply(Request::Upgrade { caller: admin, wasm_hash });
            &&& paused == (State {
                paused: true,
                effects: s.effects + seq![
                    Effect::Publish { event: Event::Paused { caller: admin } },
                ],
                ..s
            })
            &&& unpaused == (State {
                paused: false,
                effects: s.effects + seq![
                    Effect::Publish { event: Event::Unpaused { caller: admin } },
                ],
                ..s
            })
            &&& upgraded == (State {
                effects: s.effects + seq![
                    Effect::Upgrade { wasm_hash },
                    Effect::Publish { event: Event::Upgraded { caller: admin, wasm_hash } },
                ],
                ..s
            })
        }),
{
    let paused = s.apply(Request::Pause { caller: admin });
    let unpaused = s.apply(Request::Unpause { caller: admin });
    let upgraded = s.apply(Request::Upgrade { caller: admin, wasm_hash });
    assert(paused.effects =~= s.effects + seq![
        Effect::Publish { event: Event::Paused { caller: admin } },
    ]);
    assert(unpaused.effects =~= s.effects + seq![
        Effect::Publish { event: Event::Unpaused { caller: admin } },
    ]);
    assert(upgraded.effects =~= s.effects + seq![
        Effect::Upgrade { wasm_hash },
        Effect::Publish { event: Event::Upgraded { caller: admin, wasm_hash } },
    ]);
}

/// A new market is open, has the terms that were asked for and no amounts, and gets the
/// next number; no other market and no position changes.
pub proof fn law_new_markets_start_empty(
    s: State,
    now: u64,
    creator: Address,
    question: Seq<u8>,
    oracle: Address,
    close_time: u64,
    resolution_deadline: u64,
)
    requires
        !s.paused,
        now < close_time < resolution_deadline,
        s.market_count < u32::MAX,
    ensures
        ({
            let request = Request::CreateMarket {
                now,
                creator,
                question,
                oracle,
                close_time,
                resolution_deadline,
            };
            let after = s.apply(request);
            let id = s.market_count;
            let market = after.markets[id];
            &&& after.market_count == id + 1
            &&& changes_only(
                State { market_count: after.market_count, ..s },
                after,
                id,
                None,
                seq![Effect::Publish { event: Event::Created { market_id: id, creator, oracle } }],
            )
            &&& market.creator == creator
            &&& market.question == question
            &&& market.oracle == Some(oracle)
            &&& market.close_time == close_time
            &&& market.resolution_deadline == resolution_deadline
            &&& market.status == MarketStatus::Open
            &&& market.outcome is None
            &&& market.disputer is None
            &&& market.yes_shares == 0 && market.no_shares == 0
            &&& market.yes_pool == 0 && market.no_pool == 0
            &&& market.lp_pool == 0 && market.total_lp_shares == 0
            &&& market.lp_fees == 0 && market.fees_paid == 0 && market.dust == 0
            &&& market.dispute_bond == 0
        }),
{
    let request = Request::CreateMarket {
        now,
        creator,
        question,
        oracle,
        close_time,
        resolution_deadline,
    };
    let after = s.apply(request);
    assert(after.effects =~= s.effects + seq![
        Effect::Publish {
            event: Event::Created { market_id: s.market_count, creator, oracle },
        },
    ]);
}

/// Seeding adds the amount to what each of the two pools held, and changes no other
/// amount.
pub proof fn law_seeding_adds_to_both_pools(
    s: State,
    now: u64,
    caller: Address,
    market_id: u32,
    amount: i128,
)
    requires
        s.refusal(Request::SeedMarket { now, caller, market_id, amount }) is None,
    ensures
        ({
            let after = s.apply(Request::SeedMarket { now, caller, market_id, amount });
            let m = s.markets[market_id];
            let n = after.markets[market_id];
            &&& changes_only(
                s,
                after,
                market_id,
                None,
                seq![Effect::Publish { event: Event::Seeded { market_id, caller, amount } }],
            )
            &&& n.yes_pool - m.yes_pool == amount
            &&& n.no_pool - m.no_pool == amount
            &&& n == (MarketView { yes_pool: n.yes_pool, no_pool: n.no_pool, ..m })
        }),
{
    let after = s.apply(Request::SeedMarket { now, caller, market_id, amount });
    assert(after.effects =~= s.effects + seq![
        Effect::Publish { event: Event::Seeded { market_id, caller, amount } },
    ]);
}

/// Closing, cancelling, timing out and draining change the market's status and nothing
/// else.
pub proof fn law_stopping_a_market_changes_its_status(s: State, request: Request)
    requires
        s.refusal(request) is None,
        request is CloseMarket || request is CancelMarket || request is EmergencyTimeoutRefund
            || request is EmergencyDrainMarket,
    ensures
        ({
            let after = s.apply(request);
            match request {
                Request::CloseMarket { caller, market_id, .. } => {
                    &&& moves_to(
                        s.markets[market_id],
                        after.markets[market_id],
                        MarketStatus::Closed,
                    )
                    &&& changes_only(
                        s,
                        after,
                        market_id,
                        None,
                        seq![Effect::Publish { event: Event::Closed { market_id, caller } }],
                    )
                },
                Request::CancelMarket { caller, market_id } => {
                    &&& moves_to(
                        s.markets[market_id],
                        after.markets[market_id],
                        MarketStatus::Cancelled,
                    )
                    &&& changes_only(
                        s,
                        after,
                        market_id,
                        None,
                        seq![Effect::Publish { event: Event::Cancelled { market_id, caller } }],
                    )
                },
                Request::EmergencyTimeoutRefund { market_id, .. } => {
                    &&& moves_to(
                        s.markets[market_id],
                        after.markets[market_id],
                        MarketStatus::Cancelled,
                    )
                    &&& changes_only(
                        s,
                        after,
                        market_id,
                        None,
                        seq![Effect::Publish { event: Event::TimedOut { market_id } }],
                    )
                },
                Request::EmergencyDrainMarket { caller, market_id } => {
                    &&& moves_to(
                        s.markets[market_id],
                        after.markets[market_id],
                        MarketStatus::Cancelled,
                    )
                    &&& changes_only(
                        s,
                        after,
                        market_id,
                        None,
                        seq![Effect::Publish { event: Event::Drained { market_id, caller } }],
                    )
                },
                _ => true,
            }
        }),
{
    let after = s.apply(request);
    assert(after.effects =~= s.effects + seq![after.effects.last()]);
}

/// A report sets the outcome, finalizing sets the status to resolved, and neither
/// changes anything else.
pub proof fn law_settling_keeps_amounts(
    s: State,
    now: u64,
    caller: Address,
    market_id: u32,
    outcome: bool,
)
    ensures
        ({
            let request = Request::OracleReport { now, caller, market_id, outcome };
            let after = s.apply(request);
            s.refusal(request) is None ==> {
                &&& after.markets[market_id].outcome == Some(outcome)
                &&& after.markets[market_id] == (MarketView {
                    outcome: after.markets[market_id].outcome,
                    ..s.markets[market_id]
                })
                &&& changes_only(
                    s,
                    after,
                    market_id,
                    None,
                    seq![Effect::Publish { event: Event::Reported { market_id, caller, outcome } }],
                )
            }
        }),
        ({
            let request = Request::Finalize { market_id };
            let after = s.apply(request);
            s.refusal(request) is None ==> {
                &&& moves_to(
                    s.markets[market_id],
                    after.markets[market_id],
                    MarketStatus::Resolved,
                )
                &&& changes_only(
                    s,
                    after,
                    market_id,
                    None,
                    seq![
                        Effect::Publish {
                            event: Event::Resolved {
                                market_id,
                                winner: s.markets[market_id].outcome,
                            },
                        },
                    ],
                )
            }
        }),
{
    let one = s.apply(Request::OracleReport { now, caller, market_id, outcome });
    let two = s.apply(Request::Finalize { market_id });
    if s.refusal(Request::OracleReport { now, caller, market_id, outcome }) is None {
        assert(one.effects =~= s.effects + seq![one.effects.last()]);
    }
    if s.refusal(Request::Finalize { market_id }) is None {
        assert(two.effects =~= s.effects + seq![two.effects.last()]);
    }
}

/// A dispute takes in exactly the bond, and the market remembers it and who put it up.
pub proof fn law_disputes_escrow_the_bond(
    s: State,
    disputer: Address,
    market_id: u32,
    bond: i128,
)
    requires
        s.refusal(Request::Dispute { disputer, market_id, bond }) is None,
    ensures
        ({
            let after = s.apply(Request::Dispute { disputer, market_id, bond });
            let m = s.markets[market_id];
            let n = after.markets[market_id];
            &&& changes_only(
                s,
                after,
                market_id,
                None,
                seq![
                    Effect::TransferIn { from: disputer, amount: bond },
                    Effect::Publish { event: Event::Disputed { market_id, disputer, bond } },
                ],
            )
            &&& n.status == MarketStatus::Disputed
            &&& n.disputer == Some(disputer)
            &&& n.dispute_bond == bond
            &&& n == (MarketView {
                status: n.status,
                disputer: n.disputer,
                dispute_bond: n.dispute_bond,
                ..m
            })
        }),
{
    let after = s.apply(Request::Dispute { disputer, market_id, bond });
    assert(after.effects =~= s.effects + seq![
        Effect::TransferIn { from: disputer, amount: bond },
        Effect::Publish { event: Event::Disputed { market_id, disputer, bond } },
    ]);
}

/// An upheld dispute sets the outcome and the status; a rejected one hands the bond to
/// the treasury and takes the market back to closed. Neither moves tokens.
pub proof fn law_rulings_end_a_dispute(
    s: State,
    caller: Address,
    market_id: u32,
    new_outcome: bool,
)
    requires
        consistent(s),
        s.fits(Request::AdminRejectDispute { caller, market_id }),
        s.refusal(Request::AdminRejectDispute { caller, market_id }) is None,
    ensures
        ({
            let after = s.apply(Request::AdminUpholdDispute { caller, market_id, new_outcome });
            let m = s.markets[market_id];
            let n = after.markets[market_id];
            &&& changes_only(
                s,
                after,
                market_id,
                None,
                seq![
                    Effect::Publish {
                        event: Event::Upheld { market_id, caller, outcome: new_outcome },
                    },
                ],
            )
            &&& n.status == MarketStatus::EmergencyResolved
            &&& n.outcome == Some(new_outcome)
            &&& n == (MarketView { status: n.status, outcome: n.outcome, ..m })
        }),
        ({
            let after = s.apply(Request::AdminRejectDispute { caller, market_id });
            let m = s.markets[market_id];
            let n = after.markets[market_id];
            let forfeited = after.treasury_balance - s.treasury_balance;
            &&& forfeited == m.dispute_bond
            &&& in_range(m.dispute_bond) ==> changes_only(
                State { treasury_balance: after.treasury_balance, ..s },
                after,
                market_id,
                None,
                seq![
                    Effect::Publish {
                        event: Event::Rejected {
                            market_id,
                            caller,
                            slashed: m.dispute_bond as i128,
                        },
                    },
                ],
            )
            &&& n.status == MarketStatus::Closed
            &&& n.disputer is None
            &&& n.dispute_bond == 0
            &&& n == (MarketView {
                status: n.status,
                disputer: n.disputer,
                dispute_bond: n.dispute_bond,
                ..m
            })
        }),
{
    let one = s.apply(Request::AdminUpholdDispute { caller, market_id, new_outcome });
    let two = s.apply(Request::AdminRejectDispute { caller, market_id });
    assert(one.effects =~= s.effects + seq![one.effects.last()]);
    assert(two.effects =~= s.effects + seq![two.effects.last()]);
}

/// A purchase from empty pools gets one share for each unit. From other pools it gets
/// the shares `q` for which `q` times the own pool's new size is at most the amount times
/// both pools, and for which one more share would be too many.
pub proof fn law_purchases_get_their_part_of_the_pools(
    s: State,
    yes: bool,
    market_id: u32,
    amount: int,
)
    requires
        consistent(s),
        s.markets.contains_key(market_id),
        amount > 0,
    ensures
        ({
            let m = s.markets[market_id];
            let own = if yes { m.yes_pool } else { m.no_pool };
            let both = m.yes_pool + m.no_pool;
            let q = m.quote(yes, amount);
            &&& both == 0 ==> q == amount
            &&& both > 0 ==> q * (own + amount) <= amount * both < (q + 1) * (own + amount)
        }),
{
    let m = s.markets[market_id];
    assert(sound(m));
    let own = if yes { m.yes_pool } else { m.no_pool };
    let both = m.yes_pool + m.no_pool;
    if both > 0 {
        let q = m.quote(yes, amount);
        let d = own + amount;
        vstd::arithmetic::mul::lemma_mul_nonnegative(amount, both);
        lemma_quotient_floors(amount * both, d);
        vstd::arithmetic::mul::lemma_mul_is_commutative(q, d);
        vstd::arithmetic::mul::lemma_mul_is_distributive_add_other_way(d, q, 1);
    }
}

/// A purchase puts the amount into the pool of the side that is bought, and the market
/// issues the shares that the buyer gets on that side. Nothing else changes, and no
/// tokens move.
pub proof fn law_purchases_move_one_side(
    s: State,
    yes: bool,
    now: u64,
    buyer: Address,
    market_id: u32,
    amount: i128,
    min_shares_out: i128,
)
    requires
        s.fits(Request::Buy { yes, now, buyer, market_id, amount, min_shares_out }),
        s.refusal(Request::Buy { yes, now, buyer, market_id, amount, min_shares_out }) is None,
    ensures
        ({
            let after = s.apply(Request::Buy { yes, now, buyer, market_id, amount, min_shares_out });
            let m = s.markets[market_id];
            let n = after.markets[market_id];
            let p = s.position(market_id, buyer);
            let r = after.position(market_id, buyer);
            let got = m.quote(yes, amount as int);
            &&& got >= min_shares_out
            &&& in_range(got)
            &&& changes_only(
                s,
                after,
                market_id,
                Some(buyer),
                seq![
                    Effect::Publish {
                        event: Event::Traded {
                            market_id,
                            buyer,
                            yes,
                            amount,
                            shares: got as i128,
                        },
                    },
                ],
            )
            &&& yes ==> {
                &&& n.yes_pool - m.yes_pool == amount
                &&& n.yes_shares - m.yes_shares == got
                &&& r.yes_shares - p.yes_shares == got
                &&& n == (MarketView { yes_pool: n.yes_pool, yes_shares: n.yes_shares, ..m })
                &&& r == (PositionView { yes_shares: r.yes_shares, ..p })
            }
            &&& !yes ==> {
                &&& n.no_pool - m.no_pool == amount
                &&& n.no_shares - m.no_shares == got
                &&& r.no_shares - p.no_shares == got
                &&& n == (MarketView { no_pool: n.no_pool, no_shares: n.no_shares, ..m })
                &&& r == (PositionView { no_shares: r.no_shares, ..p })
            }
        }),
{
    let after = s.apply(Request::Buy { yes, now, buyer, market_id, amount, min_shares_out });
    assert(after.effects =~= s.effects + seq![after.effects.last()]);
}

/// Splitting takes in the amount and makes as many shares of either side; merging takes
/// as many away and pays out the smaller of the amount and the collateral put in.
pub proof fn law_splits_and_merges_exchange_pairs(
    s: State,
    caller: Address,
    market_id: u32,
    amount: i128,
)
    requires
        consistent(s),
    ensures
        s.refusal(Request::Split { caller, market_id, amount }) is None ==> {
            let after = s.apply(Request::Split { caller, market_id, amount });
            let p = s.position(market_id, caller);
            let r = after.position(market_id, caller);
            &&& after.markets == s.markets
            &&& changes_only(
                s,
                after,
                market_id,
                Some(caller),
                seq![
                    Effect::TransferIn { from: caller, amount },
                    Effect::Publish { event: Event::Split { market_id, caller, amount } },
                ],
            )
            &&& r.yes_shares - p.yes_shares == amount
            &&& r.no_shares - p.no_shares == amount
            &&& r.split_tokens - p.split_tokens == amount
            &&& r == (PositionView {
                yes_shares: r.yes_shares,
                no_shares: r.no_shares,
                split_tokens: r.split_tokens,
                ..p
            })
        },
        s.refusal(Request::Merge { caller, market_id, amount }) is None ==> {
            let after = s.apply(Request::Merge { caller, market_id, amount });
            let p = s.position(market_id, caller);
            let r = after.position(market_id, caller);
            let paid = p.split_tokens - r.split_tokens;
            let told = Effect::Publish { event: Event::Merged { market_id, caller, amount } };
            &&& after.markets == s.markets
            &&& 0 <= paid <= amount && paid <= p.split_tokens
            &&& paid == amount || paid == p.split_tokens
            &&& paid == 0 ==> changes_only(s, after, market_id, Some(caller), seq![told])
            &&& paid > 0 ==> changes_only(
                s,
                after,
                market_id,
                Some(caller),
                seq![Effect::TransferOut { to: caller, amount: paid as i128 }, told],
            )
            &&& p.yes_shares - r.yes_shares == amount
            &&& p.no_shares - r.no_shares == amount
            &&& r == (PositionView {
                yes_shares: r.yes_shares,
                no_shares: r.no_shares,
                split_tokens: r.split_tokens,
                ..p
            })
        },
{
    lemma_position_fair(s, market_id, caller);
    if s.refusal(Request::Split { caller, market_id, amount }) is None {
        let after = s.apply(Request::Split { caller, market_id, amount });
        assert(after.effects =~= s.effects + seq![
            Effect::TransferIn { from: caller, amount },
            Effect::Publish { event: Event::Split { market_id, caller, amount } },
        ]);
        assert(s.markets.insert(market_id, s.markets[market_id]) =~= s.markets);
    }
    if s.refusal(Request::Merge { caller, market_id, amount }) is None {
        let after = s.apply(Request::Merge { caller, market_id, amount });
        let paid = s.position(market_id, caller).split_tokens - after.position(
            market_id,
            caller,
        ).split_tokens;
        let told = Effect::Publish { event: Event::Merged { market_id, caller, amount } };
        assert(s.markets.insert(market_id, s.markets[market_id]) =~= s.markets);
        if paid > 0 {
            assert(after.effects =~= s.effects + seq![
                Effect::TransferOut { to: caller, amount: paid as i128 },
                told,
            ]);
        } else {
            assert(after.effects =~= s.effects + seq![told]);
        }
    }
}

/// A redemption of a resolved market pays the winning shares their part of both pools,
/// whichever side won: the payout `p` for which `p` times all winning shares is at most
/// the shares held times what both pools hold, and for which one more would be too much.
/// Who holds all winning shares is paid both pools.
pub proof fn law_winners_share_both_pools(s: State, redeemer: Address, market_id: u32)
    requires
        consistent(s),
        s.markets.contains_key(market_id),
        s.markets[market_id].status == MarketStatus::Resolved || s.markets[market_id].status
            == MarketStatus::EmergencyResolved,
    ensures
        ({
            let m = s.markets[market_id];
            let held = s.position(market_id, redeemer);
            let h = if m.outcome == Some(true) { held.yes_shares } else { held.no_shares };
            let all = if m.outcome == Some(true) { m.yes_shares } else { m.no_shares };
            let p = s.redeem_value(redeemer, market_id);
            &&& all > 0 ==> p * all <= h * (m.yes_pool + m.no_pool) < (p + 1) * all
            &&& all > 0 && h == all ==> p == m.yes_pool + m.no_pool
            &&& all == 0 ==> p == 0
        }),
{
    let m = s.markets[market_id];
    let held = s.position(market_id, redeemer);
    let h = if m.outcome == Some(true) { held.yes_shares } else { held.no_shares };
    let all = if m.outcome == Some(true) { m.yes_shares } else { m.no_shares };
    let pool = m.yes_pool + m.no_pool;
    let p = s.redeem_value(redeemer, market_id);
    assert(sound(m));
    lemma_position_fair(s, market_id, redeemer);
    if all > 0 {
        crate::redeem::lemma_parts(h, pool, all);
        vstd::arithmetic::mul::lemma_mul_nonnegative(h, pool);
        lemma_quotient_floors(h * pool, all);
        assert(p == quotient(h * pool, all));
        vstd::arithmetic::mul::lemma_mul_is_commutative(p, all);
        vstd::arithmetic::mul::lemma_mul_is_distributive_add_other_way(all, p, 1);
        if h == all {
            vstd::arithmetic::div_mod::lemma_div_multiples_vanish(pool, all);
        }
    }
}

/// The payout is all that a redemption of a resolved market reports. The shares that won
/// are gone and those that lost stay. The pools stay, and what the payout dropped of the
/// shares' part is collected, in parts of a ten-millionth of a unit: whole units of it
/// become fees, and less than a unit waits as dust. No tokens move.
pub proof fn law_redemptions_use_up_winning_shares(s: State, redeemer: Address, market_id: u32)
    requires
        consistent(s),
        s.fits(Request::Redeem { redeemer, market_id }),
        s.refusal(Request::Redeem { redeemer, market_id }) is None,
        s.markets[market_id].status != MarketStatus::Cancelled,
    ensures
        ({
            let after = s.apply(Request::Redeem { redeemer, market_id });
            let m = s.markets[market_id];
            let n = after.markets[market_id];
            let held = s.position(market_id, redeemer);
            let left = after.position(market_id, redeemer);
            let h = if m.outcome == Some(true) { held.yes_shares } else { held.no_shares };
            let all = if m.outcome == Some(true) { m.yes_shares } else { m.no_shares };
            let p = s.redeem_value(redeemer, market_id);
            let dropped = 10_000_000 * (n.lp_fees - m.lp_fees) + n.dust - m.dust;
            let parts = 10_000_000 * p + dropped;
            &&& in_range(p)
            &&& changes_only(
                s,
                after,
                market_id,
                Some(redeemer),
                seq![
                    Effect::Publish {
                        event: Event::Redeemed { market_id, redeemer, payout: p as i128 },
                    },
                ],
            )
            &&& m.outcome == Some(true) ==> left == (PositionView { yes_shares: 0, ..held })
            &&& m.outcome == Some(false) ==> left == (PositionView { no_shares: 0, ..held })
            &&& n == (MarketView { lp_fees: n.lp_fees, dust: n.dust, ..m })
            &&& 0 <= dropped < 10_000_000
            &&& 0 <= n.dust < 10_000_000
            &&& all > 0 ==> parts * all <= 10_000_000 * (h * (m.yes_pool + m.no_pool)) < (parts
                + 1) * all
            &&& all == 0 ==> parts == 0
        }),
{
    let after = s.apply(Request::Redeem { redeemer, market_id });
    let m = s.markets[market_id];
    let n = after.markets[market_id];
    let held = s.position(market_id, redeemer);
    let h = if m.outcome == Some(true) { held.yes_shares } else { held.no_shares };
    let all = if m.outcome == Some(true) { m.yes_shares } else { m.no_shares };
    let pool = m.yes_pool + m.no_pool;
    let parts = m.payout_parts(h);
    assert(sound(m));
    lemma_position_fair(s, market_id, redeemer);
    lemma_redeemed_sound(m, h);
    lemma_quotient_floors(parts, PRECISION as int);
    assert(after.effects =~= s.effects + seq![after.effects.last()]);
    if all > 0 {
        let worth = h * pool;
        vstd::arithmetic::mul::lemma_mul_nonnegative(h, pool);
        assert(h * PRECISION * pool == PRECISION * worth) by (nonlinear_arith)
            requires
                worth == h * pool,
        ;
        lemma_quotient_floors(PRECISION * worth, all);
        vstd::arithmetic::mul::lemma_mul_is_commutative(parts, all);
        vstd::arithmetic::mul::lemma_mul_is_distributive_add_other_way(all, parts, 1);
        crate::redeem::lemma_parts(h, pool, all);
        crate::math::lemma_quotient_in_range(worth, all);
    }
}

/// A redemption of a cancelled market refunds one unit for each share of either side,
/// takes the shares away, and pays out the collateral that splitting put in.
pub proof fn law_cancelled_shares_are_refunded(s: State, redeemer: Address, market_id: u32)
    requires
        consistent(s),
        s.fits(Request::Redeem { redeemer, market_id }),
        s.refusal(Request::Redeem { redeemer, market_id }) is None,
        s.markets[market_id].status == MarketStatus::Cancelled,
    ensures
        ({
            let after = s.apply(Request::Redeem { redeemer, market_id });
            let held = s.position(market_id, redeemer);
            let left = after.position(market_id, redeemer);
            let refund = s.redeem_value(redeemer, market_id);
            let told = Effect::Publish {
                event: Event::Refunded { market_id, redeemer, refund: refund as i128 },
            };
            &&& refund == held.yes_shares + held.no_shares
            &&& in_range(refund)
            &&& after.markets == s.markets
            &&& left == (PositionView { yes_shares: 0, no_shares: 0, split_tokens: 0, ..held })
            &&& held.split_tokens == 0 ==> changes_only(
                s,
                after,
                market_id,
                Some(redeemer),
                seq![told],
            )
            &&& held.split_tokens > 0 ==> changes_only(
                s,
                after,
                market_id,
                Some(redeemer),
                seq![
                    Effect::TransferOut { to: redeemer, amount: held.split_tokens as i128 },
                    told,
                ],
            )
        }),
{
    let after = s.apply(Request::Redeem { redeemer, market_id });
    let held = s.position(market_id, redeemer);
    lemma_position_fair(s, market_id, redeemer);
    let told = after.effects.last();
    assert(s.markets.insert(market_id, s.markets[market_id]) =~= s.markets);
    if held.split_tokens > 0 {
        assert(after.effects =~= s.effects + seq![
            Effect::TransferOut { to: redeemer, amount: held.split_tokens as i128 },
            told,
        ]);
    } else {
        assert(after.effects =~= s.effects + seq![told]);
    }
}

/// A batch of no markets does nothing. A batch of one more market does what the batch
/// without it does, then redeems in that market, and reports the payout if that was
/// accepted and the refusal if it was not.
pub proof fn law_batches_redeem_one_after_another(
    s: State,
    redeemer: Address,
    market_ids: Seq<u32>,
    next: u32,
)
    ensures
        s.after_batch(redeemer, Seq::empty()) == s,
        s.batch_report(redeemer, Seq::empty()).successes.len() == 0,
        s.batch_report(redeemer, Seq::empty()).failures.len() == 0,
        s.batch_report(redeemer, Seq::empty()).total_payout == 0,
        ({
            let before = s.after_batch(redeemer, market_ids);
            let told = s.batch_report(redeemer, market_ids);
            let report = s.batch_report(redeemer, market_ids.push(next));
            let request = Request::Redeem { redeemer, market_id: next };
            let value = before.redeem_value(redeemer, next);
            &&& s.after_batch(redeemer, market_ids.push(next)) == before.apply(request)
            &&& before.refusal(request) is None ==> {
                &&& report.successes == told.successes.push(
                    RedeemOutcome { market_id: next, payout: value as i128 },
                )
                &&& report.failures == told.failures
                &&& report.total_payout == told.total_payout + value
            }
            &&& before.refusal(request) matches Some(error) ==> {
                &&& report.successes == told.successes
                &&& report.failures == told.failures.push(
                    RedeemFailure { market_id: next, error },
                )
                &&& report.total_payout == told.total_payout
            }
            &&& s.batch_fits(redeemer, market_ids.push(next)) <==> {
                &&& s.batch_fits(redeemer, market_ids)
                &&& before.fits(request)
                &&& i128::MIN <= report.total_payout <= i128::MAX
            }
        }),
{
    let longer = market_ids.push(next);
    assert(longer.drop_last() =~= market_ids);
    assert(longer.last() == next);
}

/// The first provider gets one liquidity share for each unit. A later one gets the shares
/// `q` for which `q` times the pool's value is at most the deposit times all shares, and
/// for which one more share would be too many.
pub proof fn law_deposits_mint_their_part_of_the_pool(s: State, market_id: u32, amount: int)
    requires
        consistent(s),
        s.markets.contains_key(market_id),
        amount > 0,
    ensures
        ({
            let m = s.markets[market_id];
            let q = m.lp_minted(amount);
            &&& m.lp_pool == 0 ==> q == amount
            &&& m.lp_pool > 0 ==> q * m.lp_pool <= amount * m.total_lp_shares < (q + 1)
                * m.lp_pool
        }),
{
    let m = s.markets[market_id];
    assert(sound(m));
    if m.lp_pool > 0 {
        let q = m.lp_minted(amount);
        vstd::arithmetic::mul::lemma_mul_nonnegative(amount, m.total_lp_shares);
        lemma_quotient_floors(amount * m.total_lp_shares, m.lp_pool);
        vstd::arithmetic::mul::lemma_mul_is_commutative(q, m.lp_pool);
        vstd::arithmetic::mul::lemma_mul_is_distributive_add_other_way(m.lp_pool, q, 1);
    }
}

/// A deposit adds the amount to the liquidity pool, half of it, rounded down, to each of
/// the two other pools, and the shares that it mints to the provider's and to all shares.
/// Nothing else changes, and no tokens move.
pub proof fn law_deposits_fill_the_pools(
    s: State,
    now: u64,
    provider: Address,
    market_id: u32,
    amount: i128,
)
    requires
        s.fits(Request::AddLiquidity { now, provider, market_id, amount }),
        s.refusal(Request::AddLiquidity { now, provider, market_id, amount }) is None,
    ensures
        ({
            let after = s.apply(Request::AddLiquidity { now, provider, market_id, amount });
            let m = s.markets[market_id];
            let n = after.markets[market_id];
            let p = s.position(market_id, provider);
            let r = after.position(market_id, provider);
            let minted = m.lp_minted(amount as int);
            let half = n.yes_pool - m.yes_pool;
            &&& in_range(minted)
            &&& changes_only(
                s,
                after,
                market_id,
                Some(provider),
                seq![
                    Effect::Publish {
                        event: Event::Added {
                            market_id,
                            provider,
                            amount,
                            lp_shares: minted as i128,
                        },
                    },
                ],
            )
            &&& n.lp_pool - m.lp_pool == amount
            &&& 2 * half <= amount < 2 * half + 2
            &&& n.no_pool - m.no_pool == half
            &&& n.total_lp_shares - m.total_lp_shares == minted
            &&& r.lp_shares - p.lp_shares == minted
            &&& n == (MarketView {
                lp_pool: n.lp_pool,
                yes_pool: n.yes_pool,
                no_pool: n.no_pool,
                total_lp_shares: n.total_lp_shares,
                ..m
            })
            &&& r == (PositionView { lp_shares: r.lp_shares, ..p })
        }),
{
    let after = s.apply(Request::AddLiquidity { now, provider, market_id, amount });
    assert(after.effects =~= s.effects + seq![after.effects.last()]);
}

/// Liquidity shares are worth their part of the pool: the value `v` for which `v` times
/// all shares is at most the shares times the pool's value, and for which one more would
/// be too much. All shares are worth the whole pool.
pub proof fn law_shares_are_worth_their_part_of_the_pool(
    s: State,
    market_id: u32,
    lp_shares: int,
)
    requires
        consistent(s),
        s.markets.contains_key(market_id),
    ensures
        ({
            let m = s.markets[market_id];
            let all = m.total_lp_shares;
            let v = m.lp_value(lp_shares);
            &&& all > 0 && lp_shares >= 0 ==> v * all <= lp_shares * m.lp_pool < (v + 1) * all
            &&& all > 0 && lp_shares < 0 ==> (v - 1) * all < lp_shares * m.lp_pool <= v * all
            &&& all == 0 ==> v == lp_shares
            &&& lp_shares == all ==> v == m.lp_pool
        }),
{
    let m = s.markets[market_id];
    let all = m.total_lp_shares;
    let v = m.lp_value(lp_shares);
    assert(sound(m));
    if all > 0 {
        if lp_shares >= 0 {
            vstd::arithmetic::mul::lemma_mul_nonnegative(lp_shares, m.lp_pool);
            lemma_quotient_floors(lp_shares * m.lp_pool, all);
            if lp_shares == all {
                vstd::arithmetic::div_mod::lemma_div_multiples_vanish(m.lp_pool, all);
            }
        } else {
            assert(lp_shares * m.lp_pool == -(-lp_shares * m.lp_pool)) by (nonlinear_arith);
            vstd::arithmetic::mul::lemma_mul_nonnegative(-lp_shares, m.lp_pool);
            if m.lp_pool == 0 {
                lemma_quotient_floors(0, all);
            }
            lemma_quotient_floors(-lp_shares * m.lp_pool, all);
            vstd::arithmetic::mul::lemma_mul_unary_negation(all, v);
        }
        vstd::arithmetic::mul::lemma_mul_is_commutative(v, all);
        vstd::arithmetic::mul::lemma_mul_is_distributive_add_other_way(all, v, 1);
        vstd::arithmetic::mul::lemma_mul_is_distributive_sub_other_way(all, v, 1);
    }
}

/// A withdrawal takes the value of the shares from the liquidity pool and the shares from
/// the provider's and from all shares; the fees that were paid for them, in proportion to
/// the provider's shares and rounded down, are no longer counted. Nothing else changes,
/// and no tokens move.
pub proof fn law_withdrawals_empty_the_pool(
    s: State,
    provider: Address,
    market_id: u32,
    lp_shares: i128,
)
    requires
        consistent(s),
        s.fits(Request::RemoveLiquidity { provider, market_id, lp_shares }),
        s.refusal(Request::RemoveLiquidity { provider, market_id, lp_shares }) is None,
    ensures
        ({
            let after = s.apply(Request::RemoveLiquidity { provider, market_id, lp_shares });
            let m = s.markets[market_id];
            let n = after.markets[market_id];
            let p = s.position(market_id, provider);
            let r = after.position(market_id, provider);
            let value = m.lp_value(lp_shares as int);
            let taken = p.fee_taken - r.fee_taken;
            &&& in_range(value)
            &&& changes_only(
                s,
                after,
                market_id,
                Some(provider),
                seq![
                    Effect::Publish {
                        event: Event::Removed {
                            market_id,
                            provider,
                            lp_shares,
                            payout: value as i128,
                        },
                    },
                ],
            )
            &&& m.lp_pool - n.lp_pool == value
            &&& m.total_lp_shares - n.total_lp_shares == lp_shares
            &&& p.lp_shares - r.lp_shares == lp_shares
            &&& m.fees_paid - n.fees_paid == taken
            &&& p.lp_shares == 0 ==> taken == 0
            &&& p.lp_shares > 0 && lp_shares >= 0 ==> taken * p.lp_shares <= p.fee_taken
                * lp_shares < (taken + 1) * p.lp_shares
            &&& p.lp_shares > 0 && lp_shares < 0 ==> (taken - 1) * p.lp_shares < p.fee_taken
                * lp_shares <= taken * p.lp_shares
            &&& n == (MarketView {
                lp_pool: n.lp_pool,
                total_lp_shares: n.total_lp_shares,
                fees_paid: n.fees_paid,
                ..m
            })
            &&& r == (PositionView { lp_shares: r.lp_shares, fee_taken: r.fee_taken, ..p })
        }),
{
    let after = s.apply(Request::RemoveLiquidity { provider, market_id, lp_shares });
    let m = s.markets[market_id];
    let p = s.position(market_id, provider);
    let taken = p.taken_for(lp_shares as int);
    lemma_position_fair(s, market_id, provider);
    assert(sound(m));
    assert(after.effects =~= s.effects + seq![after.effects.last()]);
    if m.total_lp_shares > 0 {
        crate::math::lemma_quotient_in_range(lp_shares * m.lp_pool, m.total_lp_shares);
    }
    if p.lp_shares > 0 {
        let x = p.fee_taken * lp_shares;
        if lp_shares >= 0 {
            vstd::arithmetic::mul::lemma_mul_nonnegative(p.fee_taken, lp_shares as int);
        } else {
            assert(x <= 0) by (nonlinear_arith)
                requires
                    x == p.fee_taken * lp_shares,
                    p.fee_taken >= 0,
                    lp_shares < 0,
            ;
        }
        law_division_rounds_towards_zero(x, p.lp_shares);
        vstd::arithmetic::mul::lemma_mul_is_commutative(taken, p.lp_shares);
        vstd::arithmetic::mul::lemma_mul_is_distributive_add_other_way(p.lp_shares, taken, 1);
        vstd::arithmetic::mul::lemma_mul_is_distributive_sub_other_way(p.lp_shares, taken, 1);
    }
}

/// A claim pays what the part of all credited fees that belongs to the provider's shares
/// is beyond what the provider was paid, as long as that much is left, and no less than
/// nothing. It moves that from the unclaimed fees to the paid ones. Nothing else changes,
/// and no tokens move.
pub proof fn law_claims_pay_up_to_the_part(s: State, provider: Address, market_id: u32)
    requires
        consistent(s),
        s.fits(Request::ClaimLpFees { provider, market_id }),
        s.refusal(Request::ClaimLpFees { provider, market_id }) is None,
    ensures
        ({
            let after = s.apply(Request::ClaimLpFees { provider, market_id });
            let m = s.markets[market_id];
            let n = after.markets[market_id];
            let p = s.position(market_id, provider);
            let r = after.position(market_id, provider);
            let fee = p.fees_due(m);
            let part = (p.lp_shares * (m.lp_fees + m.fees_paid)) / m.total_lp_shares;
            &&& m.total_lp_shares > 0
            &&& 0 <= fee <= m.lp_fees
            &&& part <= p.fee_taken ==> fee == 0
            &&& part > p.fee_taken ==> fee == part - p.fee_taken || fee == m.lp_fees && fee < part
                - p.fee_taken
            &&& in_range(fee)
            &&& changes_only(
                s,
                after,
                market_id,
                Some(provider),
                seq![
                    Effect::Publish {
                        event: Event::Claimed { market_id, provider, fee_share: fee as i128 },
                    },
                ],
            )
            &&& m.lp_fees - n.lp_fees == fee
            &&& n.fees_paid - m.fees_paid == fee
            &&& r.fee_taken - p.fee_taken == fee
            &&& n == (MarketView { lp_fees: n.lp_fees, fees_paid: n.fees_paid, ..m })
            &&& r == (PositionView { fee_taken: r.fee_taken, ..p })
        }),
{
    let after = s.apply(Request::ClaimLpFees { provider, market_id });
    let m = s.markets[market_id];
    let p = s.position(market_id, provider);
    lemma_position_fair(s, market_id, provider);
    assert(sound(m));
    assert(after.effects =~= s.effects + seq![after.effects.last()]);
    vstd::arithmetic::mul::lemma_mul_nonnegative(p.lp_shares, m.lp_fees + m.fees_paid);
    lemma_quotient_floors(p.lp_shares * (m.lp_fees + m.fees_paid), m.total_lp_shares);
}

/// A refusal is returned as it is, and so is a value.
pub proof fn law_answers_are_handed_on(error: Error, value: i128)
    ensures
        verdict(Some(error)) == Err::<(), Error>(error),
        verdict(None) == Ok::<(), Error>(()),
        as_int(Ok(value)) == Ok::<int, Error>(value as int),
        as_int(Err(error)) == Err::<int, Error>(error),
{
}

/// What a contract, a market and a position are said to hold is what their fields hold.
pub proof fn law_views_show_every_field(
    contract: PredictionMarket,
    market: Market,
    position: Position,
)
    ensures
        contract@.admin == contract.admin,
        contract@.treasury == contract.treasury,
        contract@.token == contract.token,
        contract@.paused == contract.paused,
        contract@.market_count == contract.market_count,
        contract@.treasury_balance == contract.treasury_balance,
        contract@.markets == contract.markets@,
        contract@.positions == contract.positions@,
        contract@.effects == contract.effects@,
        market@.creator == market.creator,
        market@.question == market.question@,
        market@.yes_shares == market.yes_shares,
        market@.no_shares == market.no_shares,
        market@.yes_pool == market.yes_pool,
        market@.no_pool == market.no_pool,
        market@.lp_pool == market.lp_pool,
        market@.lp_fees == market.lp_fees,
        market@.status == market.status,
        market@.outcome == market.outcome,
        market@.dispute_bond == market.dispute_bond,
        market@.disputer == market.disputer,
        market@.oracle == market.oracle,
        market@.total_lp_shares == market.total_lp_shares,
        market@.dust == market.dust,
        market@.fees_paid == market.fees_paid,
        market@.close_time == market.close_time,
        market@.resolution_deadline == market.resolution_deadline,
        position@.yes_shares == position.yes_shares,
        position@.no_shares == position.no_shares,
        position@.lp_shares == position.lp_shares,
        position@.split_tokens == position.split_tokens,
        position@.fee_taken == position.fee_taken,
{
}

/// The numbers of a list are its entries, place by place.
pub proof fn law_lists_are_read_in_order(list: soroban_sdk::Vec<u32>, i: int)
    requires
        crate::listing::all_numbers(list),
        0 <= i < entries(list).len(),
    ensures
        numbers(list).len() == entries(list).len(),
        Some(numbers(list)[i]) == entries(list)[i],
{
    assert(entries(list)[i] is Some);
}

/// Division rounds towards zero: what is left is smaller than the divisor and not on the
/// other side of zero than what was divided. A number is in range exactly if an `i128`
/// can hold it.
pub proof fn law_division_rounds_towards_zero(a: int, b: int)
    requires
        b != 0,
    ensures
        a == b * quotient(a, b) + remainder(a, b),
        a >= 0 ==> 0 <= remainder(a, b) < b || 0 <= remainder(a, b) < -b,
        a <= 0 ==> -b < remainder(a, b) <= 0 || b < remainder(a, b) <= 0,
        in_range(a) <==> -0x8000_0000_0000_0000_0000_0000_0000_0000 <= a
            <= 0x7fff_ffff_ffff_ffff_ffff_ffff_ffff_ffff,
{
    if b > 0 {
        crate::math::lemma_remainder_bounds(a, b);
    } else {
        crate::math::lemma_remainder_bounds(a, -b);
        let q = quotient(a, -b);
        assert(quotient(a, b) == -q);
        assert(b * -q == -b * q) by (nonlinear_arith);
    }
}

/// The price of shares, for amounts on either side of zero: everything from empty pools,
/// nothing where the own pool would be emptied, and otherwise the amount times both pools,
/// divided by the own pool's new size and rounded towards zero.
pub proof fn law_prices_divide_by_the_new_pool(amount: int, own_pool: int, other_pool: int)
    ensures
        ({
            let q = shares_bought(amount, own_pool, other_pool);
            let size = own_pool + amount;
            let left = amount * (own_pool + other_pool) - size * q;
            &&& own_pool == 0 && other_pool == 0 ==> q == amount
            &&& !(own_pool == 0 && other_pool == 0) && size == 0 ==> q == 0
            &&& !(own_pool == 0 && other_pool == 0) && size != 0 ==> {
                &&& -size < left < size || size < left < -size
                &&& amount * (own_pool + other_pool) >= 0 ==> left >= 0
                &&& amount * (own_pool + other_pool) <= 0 ==> left <= 0
            }
        }),
{
    let size = own_pool + amount;
    if size != 0 {
        law_division_rounds_towards_zero(amount * (other_pool + own_pool), size);
    }
}

} // verus!
