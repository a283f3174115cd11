//! Collateral: the tokens in the contract's custody are exactly those it owes.
use crate::events::{custody, custody_change, Effect, Event};
use crate::laws::books::{
    consistent, lemma_position_fair, lemma_position_weight, replaces_nothing, sound,
};
use crate::model::State;
use crate::requests::Request;
use crate::sums::{lemma_weigh_insert, weigh};
use crate::types::{
    Address, Error, MarketStatus, MarketView, PositionKey, PositionView, MIN_DISPUTE_BOND,
};
use vstd::prelude::*;

verus! {

/// The collateral that a position can claim back.
pub open spec fn split_weight() -> spec_fn(PositionKey, PositionView) -> int {
    |key: PositionKey, position: PositionView| position.split_tokens
}

/// The bond that a market holds.
pub open spec fn bond_weight() -> spec_fn(u32, MarketView) -> int {
    |id: u32, market: MarketView| market.dispute_bond
}

/// The tokens that the contract owes: the collateral of all split pairs, the bonds of
/// all disputes, and what the treasury has been credited with.
pub open spec fn owed(s: State) -> int {
    weigh(s.positions, split_weight()) + weigh(s.markets, bond_weight()) + s.treasury_balance
}

/// The tokens that the contract has been asked to take in beyond those it owes.
pub open spec fn surplus(s: State) -> int {
    custody(s.effects) - owed(s)
}

/// Asking for one more effect changes custody by that effect.
proof fn lemma_custody_push(effects: Seq<Effect>, effect: Effect)
    ensures
        custody(effects.push(effect)) == custody(effects) + custody_change(effect),
{
    assert(effects.push(effect).drop_last() =~= effects);
}

proof fn lemma_bond_written(s: State, market_id: u32, market: MarketView)
    requires
        s.markets.dom().finite(),
        s.markets.contains_key(market_id),
    ensures
        weigh(s.markets.insert(market_id, market), bond_weight()) == weigh(
            s.markets,
            bond_weight(),
        ) - s.markets[market_id].dispute_bond + market.dispute_bond,
{
    lemma_weigh_insert(s.markets, bond_weight(), market_id, market);
}

proof fn lemma_split_written(s: State, market_id: u32, user: Address, position: PositionView)
    requires
        s.positions.dom().finite(),
    ensures
        weigh(
            s.positions.insert(PositionKey { market_id, user }, position),
            split_weight(),
        ) == weigh(s.positions, split_weight()) - s.position(market_id, user).split_tokens
            + position.split_tokens,
{
    lemma_position_weight(s, split_weight(), PositionKey { market_id, user }, position);
}

proof fn lemma_redeem_keeps_surplus(s: State, redeemer: Address, market_id: u32)
    requires
        consistent(s),
        s.redeem_refusal(redeemer, market_id) is None,
    ensures
        surplus(s.after_redeem(redeemer, market_id)) == surplus(s),
{
    let after = s.after_redeem(redeemer, market_id);
    let market = s.markets[market_id];
    let position = s.position(market_id, redeemer);
    let value = s.redeem_value(redeemer, market_id);
    lemma_position_fair(s, market_id, redeemer);
    if market.status == MarketStatus::Cancelled {
        let paid = s.with_transfer_out(redeemer, position.split_tokens);
        lemma_split_written(s, market_id, redeemer, position.refunded());
        if position.split_tokens > 0 {
            lemma_custody_push(
                s.effects,
                Effect::TransferOut { to: redeemer, amount: position.split_tokens as i128 },
            );
        }
        lemma_custody_push(
            paid.effects,
            Effect::Publish {
                event: Event::Refunded { market_id, redeemer, refund: value as i128 },
            },
        );
    } else {
        let yes = market.outcome == Some(true);
        lemma_bond_written(s, market_id, market.redeemed(position.side_shares(yes)));
        lemma_split_written(s, market_id, redeemer, position.with_side(yes, 0));
        lemma_custody_push(
            s.effects,
            Effect::Publish {
                event: Event::Redeemed { market_id, redeemer, payout: value as i128 },
            },
        );
    }
}

proof fn lemma_batch_keeps_surplus(s: State, redeemer: Address, market_ids: Seq<u32>)
    requires
        consistent(s),
    ensures
        consistent(s.after_batch(redeemer, market_ids)),
        surplus(s.after_batch(redeemer, market_ids)) == surplus(s),
    decreases market_ids.len(),
{
    if market_ids.len() > 0 {
        let before = s.after_batch(redeemer, market_ids.drop_last());
        lemma_batch_keeps_surplus(s, redeemer, market_ids.drop_last());
        if before.redeem_refusal(redeemer, market_ids.last()) is None {
            lemma_redeem_keeps_surplus(before, redeemer, market_ids.last());
            crate::laws::books::lemma_redeem_keeps_books(before, redeemer, market_ids.last());
        }
    }
}

/// The last effect of an accepted request is an event, which moves no tokens.
proof fn lemma_event_last(effects: Seq<Effect>)
    requires
        effects.len() > 0,
        effects.last() is Publish,
    ensures
        custody(effects) == custody(effects.drop_last()),
{
}

/// Requests in a market that change no position: a dispute takes its bond in, a
/// rejection hands the bond to the treasury, and the others move no tokens.
proof fn lemma_lifecycle_keeps_surplus(s: State, request: Request)
    requires
        consistent(s),
        s.refusal(request) is None,
        request.market() is Some,
        request.holder() is None,
    ensures
        surplus(s.accepted(request)) == surplus(s),
{
    let after = s.accepted(request);
    let market_id = request.market()->0;
    assert(s.markets.contains_key(market_id));
    assert(sound(s.markets[market_id]));
    lemma_bond_written(s, market_id, after.markets[market_id]);
    lemma_event_last(after.effects);
    if request is Dispute {
        let taken = Effect::TransferIn {
            from: request->Dispute_disputer,
            amount: request->Dispute_bond,
        };
        lemma_custody_push(s.effects, taken);
        assert(after.effects.drop_last() =~= s.effects.push(taken));
    } else {
        assert(after.effects.drop_last() =~= s.effects);
    }
}

/// Requests of those who hold a position, other than redemptions.
proof fn lemma_holding_keeps_surplus(s: State, request: Request)
    requires
        consistent(s),
        s.refusal(request) is None,
        request.market() is Some,
        request.holder() is Some,
        !(request is Redeem),
    ensures
        surplus(s.accepted(request)) == surplus(s),
{
    let after = s.accepted(request);
    let market_id = request.market()->0;
    let user = request.holder()->0;
    let position = s.position(market_id, user);
    assert(s.markets.contains_key(market_id));
    lemma_position_fair(s, market_id, user);
    lemma_split_written(s, market_id, user, after.position(market_id, user));
    lemma_event_last(after.effects);
    match request {
        Request::Split { caller, amount, .. } => {
            let taken = Effect::TransferIn { from: caller, amount };
            lemma_custody_push(s.effects, taken);
            assert(after.effects.drop_last() =~= s.effects.push(taken));
        },
        Request::Merge { caller, amount, .. } => {
            let released = position.released(amount as int);
            let paid = Effect::TransferOut { to: caller, amount: released as i128 };
            if released > 0 {
                lemma_custody_push(s.effects, paid);
                assert(after.effects.drop_last() =~= s.effects.push(paid));
            } else {
                assert(after.effects.drop_last() =~= s.effects);
            }
        },
        _ => {
            lemma_bond_written(s, market_id, after.markets[market_id]);
            assert(after.effects.drop_last() =~= s.effects);
        },
    }
}

/// Every token that is taken in is owed to someone, and every token that is paid out
/// was: no request changes the difference between custody and what is owed. This
/// leaves out a new market in the place of an old one.
pub proof fn law_collateral_is_accounted_for(s: State, request: Request)
    requires
        consistent(s),
        replaces_nothing(s, request),
    ensures
        surplus(s.apply(request)) == surplus(s),
{
    if s.refusal(request) is None {
        let after = s.accepted(request);
        match request {
            Request::BatchRedeem { redeemer, market_ids } => {
                lemma_batch_keeps_surplus(s, redeemer, market_ids);
            },
            Request::Redeem { redeemer, market_id } => {
                lemma_redeem_keeps_surplus(s, redeemer, market_id);
            },
            Request::Buy { .. } | Request::Split { .. } | Request::Merge { .. }
            | Request::AddLiquidity { .. } | Request::RemoveLiquidity { .. }
            | Request::ClaimLpFees { .. } => {
                lemma_holding_keeps_surplus(s, request);
            },
            Request::CreateMarket { .. } => {
                lemma_weigh_insert(
                    s.markets,
                    bond_weight(),
                    s.market_count,
                    after.markets[s.market_count],
                );
                lemma_event_last(after.effects);
                assert(after.effects.drop_last() =~= s.effects);
            },
            Request::Upgrade { wasm_hash, .. } => {
                lemma_event_last(after.effects);
                lemma_custody_push(s.effects, Effect::Upgrade { wasm_hash });
                assert(after.effects.drop_last() =~= s.effects.push(
                    Effect::Upgrade { wasm_hash },
                ));
            },
            Request::Init { .. } | Request::Pause { .. } | Request::Unpause { .. } => {
                lemma_event_last(after.effects);
                assert(after.effects.drop_last() =~= s.effects);
            },
            _ => {
                lemma_lifecycle_keeps_surplus(s, request);
            },
        }
    }
}

/// Merging the pairs that were made by splitting undoes it: everyone holds what they
/// held before, and the same collateral that was taken in is paid out.
pub proof fn law_merge_undoes_split(
    s: State,
    caller: Address,
    market_id: u32,
    amount: i128,
    other_market: u32,
    other: Address,
)
    requires
        consistent(s),
        s.refusal(Request::Split { caller, market_id, amount }) is None,
    ensures
        ({
            let after = s.apply(Request::Split { caller, market_id, amount });
            let back = after.apply(Request::Merge { caller, market_id, amount });
            &&& after.refusal(Request::Merge { caller, market_id, amount }) is None
            &&& back.markets == s.markets
            &&& back.position(other_market, other) == s.position(other_market, other)
            &&& back.effects == s.effects + seq![
                Effect::TransferIn { from: caller, amount },
                Effect::Publish { event: Event::Split { market_id, caller, amount } },
                Effect::TransferOut { to: caller, amount },
                Effect::Publish { event: Event::Merged { market_id, caller, amount } },
            ]
        }),
{
    lemma_position_fair(s, market_id, caller);
    let after = s.apply(Request::Split { caller, market_id, amount });
    let back = after.apply(Request::Merge { caller, market_id, amount });
    assert(after.position(market_id, caller) == s.position(market_id, caller).split(
        amount as int,
    ));
    assert(back.effects =~= s.effects + seq![
        Effect::TransferIn { from: caller, amount },
        Effect::Publish { event: Event::Split { market_id, caller, amount } },
        Effect::TransferOut { to: caller, amount },
        Effect::Publish { event: Event::Merged { market_id, caller, amount } },
    ]);
}

/// Shares cannot be made by splitting without collateral: an accepted split takes in
/// exactly as much as it makes pairs, and one of no positive amount is refused.
pub proof fn law_splits_are_collateralized(
    s: State,
    caller: Address,
    market_id: u32,
    amount: i128,
)
    ensures
        ({
            let request = Request::Split { caller, market_id, amount };
            let after = s.apply(request);
            &&& amount <= 0 ==> s.refusal(request) is Some
            &&& custody(after.effects) - custody(s.effects) == after.position(
                market_id,
                caller,
            ).split_tokens - s.position(market_id, caller).split_tokens
            &&& after.position(market_id, caller).yes_shares - s.position(
                market_id,
                caller,
            ).yes_shares == custody(after.effects) - custody(s.effects)
            &&& after.position(market_id, caller).no_shares - s.position(
                market_id,
                caller,
            ).no_shares == custody(after.effects) - custody(s.effects)
        }),
{
    let request = Request::Split { caller, market_id, amount };
    if s.refusal(request) is None {
        let taken = Effect::TransferIn { from: caller, amount };
        lemma_custody_push(s.effects, taken);
        lemma_custody_push(
            s.effects.push(taken),
            Effect::Publish { event: Event::Split { market_id, caller, amount } },
        );
    }
}

/// A dispute takes its bond in at once. If the admin rejects it, the bond goes to the
/// treasury, the market is closed again with the outcome it had, and can be finalized.
pub proof fn law_rejected_bonds_go_to_the_treasury(
    s: State,
    disputer: Address,
    admin: Address,
    market_id: u32,
    bond: i128,
)
    requires
        consistent(s),
        s.admin == Some(admin),
        s.treasury is Some,
        s.refusal(Request::Dispute { disputer, market_id, bond }) is None,
    ensures
        ({
            let disputed = s.apply(Request::Dispute { disputer, market_id, bond });
            let rejected = disputed.apply(Request::AdminRejectDispute { caller: admin, market_id });
            &&& custody(disputed.effects) == custody(s.effects) + bond
            &&& disputed.refusal(Request::AdminRejectDispute { caller: admin, market_id }) is None
            &&& rejected.treasury_balance == s.treasury_balance + bond
            &&& rejected.markets == s.markets
            &&& rejected.refusal(Request::Finalize { market_id }) is None
        }),
{
    let disputed = s.apply(Request::Dispute { disputer, market_id, bond });
    let rejected = disputed.apply(Request::AdminRejectDispute { caller: admin, market_id });
    assert(s.markets.contains_key(market_id));
    assert(sound(s.markets[market_id]));
    let taken = Effect::TransferIn { from: disputer, amount: bond };
    lemma_custody_push(s.effects, taken);
    lemma_custody_push(
        s.effects.push(taken),
        Effect::Publish { event: Event::Disputed { market_id, disputer, bond } },
    );
    assert(rejected.markets[market_id] =~= s.markets[market_id]);
    assert(rejected.markets =~= s.markets);
}

/// A bond that is too small is refused before anything is asked of the disputer, and
/// for that reason wherever the smallest bond would have been accepted.
pub proof fn law_small_bonds_are_refused(
    s: State,
    disputer: Address,
    market_id: u32,
    bond: i128,
)
    requires
        bond < MIN_DISPUTE_BOND,
    ensures
        s.refusal(Request::Dispute { disputer, market_id, bond }) is Some,
        s.dispute_refusal(market_id, MIN_DISPUTE_BOND as int) is None ==> s.refusal(
            Request::Dispute { disputer, market_id, bond },
        ) == Some(Error::InvalidAmount),
        s.apply(Request::Dispute { disputer, market_id, bond }) == s,
{
}

} // verus!
