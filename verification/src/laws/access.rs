//! Who may do what and when: pausing, the admin, the life of a market, and what a
//! request leaves alone.
use crate::events::{Effect, Event};
use crate::model::State;
use crate::requests::Request;
use crate::types::{Address, Error, MarketStatus, MarketView, PositionKey, RedeemFailure};
use vstd::prelude::*;

verus! {

/// A refused request leaves no trace.
pub proof fn law_refused_requests_change_nothing(s: State, request: Request)
    requires
        s.refusal(request) is Some,
    ensures
        s.apply(request) == s,
{
}

/// While the contract is paused, every request is refused for that reason, but for
/// initialization, pausing, unpausing, upgrading, draining a market, and batches.
pub proof fn law_pause_refuses_requests(s: State, request: Request)
    requires
        s.paused,
        !(request is Init),
        !(request is Pause),
        !(request is Unpause),
        !(request is Upgrade),
        !(request is EmergencyDrainMarket),
        !(request is BatchRedeem),
    ensures
        s.refusal(request) == Some(Error::ContractPaused),
        s.apply(request) == s,
{
}

/// While the contract is paused, a batch redeems nothing and reports the pause for
/// each of its markets.
pub proof fn law_pause_refuses_batches(s: State, redeemer: Address, market_ids: Seq<u32>)
    requires
        s.paused,
    ensures
        s.after_batch(redeemer, market_ids) == s,
        s.batch_report(redeemer, market_ids).successes == Seq::<
            crate::types::RedeemOutcome,
        >::empty(),
        s.batch_report(redeemer, market_ids).failures == Seq::new(
            market_ids.len(),
            |i: int|
                RedeemFailure { market_id: market_ids[i], error: Error::ContractPaused },
        ),
        s.batch_report(redeemer, market_ids).total_payout == 0,
    decreases market_ids.len(),
{
    if market_ids.len() > 0 {
        law_pause_refuses_batches(s, redeemer, market_ids.drop_last());
    }
    assert(s.batch_report(redeemer, market_ids).failures =~= Seq::new(
        market_ids.len(),
        |i: int|
            RedeemFailure { market_id: market_ids[i], error: Error::ContractPaused },
    ));
}

/// Once the admin has paused and unpaused a contract that was running, all that is
/// left of it are the two events.
pub proof fn law_unpause_undoes_pause(s: State, admin: Address)
    requires
        s.admin == Some(admin),
        !s.paused,
    ensures
        s.apply(Request::Pause { caller: admin }).apply(Request::Unpause { caller: admin })
            == (State {
            effects: s.effects.push(
                Effect::Publish { event: Event::Paused { caller: admin } },
            ).push(Effect::Publish { event: Event::Unpaused { caller: admin } }),
            ..s
        }),
{
}

/// Requests reserved for the admin are refused for anyone else; a ruling on a dispute is
/// first refused for a pause.
pub proof fn law_only_the_admin_administers(s: State, request: Request)
    requires
        request.admin_caller() is Some,
        s.admin != request.admin_caller(),
    ensures
        s.refusal(request) == Some(
            if s.paused && (request is AdminUpholdDispute || request is AdminRejectDispute) {
                Error::ContractPaused
            } else if s.admin is None {
                Error::NotInitialized
            } else {
                Error::Unauthorized
            },
        ),
        s.apply(request) == s,
{
}

/// A contract is initialized once: afterwards no request changes its admin, its
/// treasury or its token.
#[verifier::rlimit(40)]
pub proof fn law_initialized_once(s: State, request: Request)
    requires
        s.admin is Some,
    ensures
        s.apply(request).admin == s.admin,
        s.apply(request).treasury == s.treasury,
        s.apply(request).token == s.token,
        request is Init ==> s.refusal(request) == Some(Error::AlreadyInitialized),
{
    if request is BatchRedeem {
        lemma_batch_keeps_settings(s, request->BatchRedeem_redeemer, request->BatchRedeem_market_ids);
    }
}

proof fn lemma_batch_keeps_settings(s: State, redeemer: Address, market_ids: Seq<u32>)
    ensures
        s.after_batch(redeemer, market_ids).admin == s.admin,
        s.after_batch(redeemer, market_ids).treasury == s.treasury,
        s.after_batch(redeemer, market_ids).token == s.token,
        s.after_batch(redeemer, market_ids).paused == s.paused,
        s.after_batch(redeemer, market_ids).market_count == s.market_count,
        s.after_batch(redeemer, market_ids).treasury_balance == s.treasury_balance,
        s.after_batch(redeemer, market_ids).markets.dom() == s.markets.dom(),
    decreases market_ids.len(),
{
    if market_ids.len() > 0 {
        let before = s.after_batch(redeemer, market_ids.drop_last());
        lemma_batch_keeps_settings(s, redeemer, market_ids.drop_last());
        assert(before.redeem_step(redeemer, market_ids.last()).markets.dom()
            =~= before.markets.dom());
    }
}

/// The ways in which one request may move a market's status.
pub open spec fn may_become(from: MarketStatus, to: MarketStatus) -> bool {
    ||| to == from
    ||| to == MarketStatus::Cancelled
    ||| from == MarketStatus::Open && to == MarketStatus::Closed
    ||| from == MarketStatus::Closed && to == MarketStatus::Disputed
    ||| from == MarketStatus::Disputed && to == MarketStatus::Closed
    ||| from == MarketStatus::Disputed && to == MarketStatus::EmergencyResolved
    ||| from == MarketStatus::Closed && to == MarketStatus::Resolved
    ||| from == MarketStatus::EmergencyResolved && to == MarketStatus::Resolved
}

/// What a request leaves as it is in a market, and how its status may move. Only a
/// request that decides on the outcome changes that.
pub open spec fn kept(before: MarketView, after: MarketView, decides: bool) -> bool {
    &&& may_become(before.status, after.status)
    &&& after.creator == before.creator
    &&& after.question == before.question
    &&& after.oracle == before.oracle
    &&& after.close_time == before.close_time
    &&& after.resolution_deadline == before.resolution_deadline
    &&& decides || after.outcome == before.outcome
}

/// Requests that create no market and name none leave every market's terms alone.
proof fn lemma_unnamed_keep_markets(s: State, request: Request, market_id: u32)
    requires
        s.markets.contains_key(market_id),
        request.market() is None,
        !(request is CreateMarket && s.market_count == market_id),
    ensures
        s.accepted(request).markets.contains_key(market_id),
        kept(s.markets[market_id], s.accepted(request).markets[market_id], false),
{
    if request is BatchRedeem {
        lemma_batch_keeps_terms(
            s,
            request->BatchRedeem_redeemer,
            request->BatchRedeem_market_ids,
            market_id,
        );
    }
}

/// Requests by which a party trades in a market leave its terms alone.
proof fn lemma_trades_keep_markets(s: State, request: Request)
    requires
        request.market() is Some,
        request.holder() is Some,
    ensures
        ({
            let id = request.market()->0;
            s.markets.contains_key(id) ==> kept(
                s.markets[id],
                s.accepted(request).markets[id],
                false,
            )
        }),
{
}

/// Requests that move a market's life on leave its terms alone.
proof fn lemma_lifecycle_keeps_terms(s: State, request: Request)
    requires
        request.market() is Some,
        request.holder() is None,
        s.refusal(request) is None,
    ensures
        ({
            let id = request.market()->0;
            s.markets.contains_key(id) ==> kept(
                s.markets[id],
                s.accepted(request).markets[id],
                request is OracleReport || request is AdminUpholdDispute,
            )
        }),
{
}

pub proof fn lemma_requests_keep_markets(s: State, request: Request, market_id: u32)
    requires
        s.markets.contains_key(market_id),
        !(request is CreateMarket && s.market_count == market_id),
        s.refusal(request) is None,
    ensures
        s.accepted(request).markets.contains_key(market_id),
        kept(
            s.markets[market_id],
            s.accepted(request).markets[market_id],
            request is OracleReport || request is AdminUpholdDispute,
        ),
{
    if request.market() is None {
        lemma_unnamed_keep_markets(s, request, market_id);
    } else {
        let user = s.admin->0;
        law_others_are_left_alone(s, request, market_id, PositionKey { market_id, user });
        if request.holder() is Some {
            lemma_trades_keep_markets(s, request);
        } else {
            lemma_lifecycle_keeps_terms(s, request);
        }
        assert(s.accepted(request).markets.contains_key(request.market()->0));
    }
}

/// A market goes from open to closed, from there to resolved, possibly by way of a
/// dispute, and can be cancelled from anywhere. It never opens again, it never
/// leaves cancellation, and no request makes it disappear. This leaves out a request
/// that gives the market's number to a new market.
pub proof fn law_markets_move_forward(s: State, request: Request, market_id: u32)
    requires
        s.markets.contains_key(market_id),
        !(request is CreateMarket && s.market_count == market_id),
    ensures
        s.apply(request).markets.contains_key(market_id),
        may_become(
            s.markets[market_id].status,
            s.apply(request).markets[market_id].status,
        ),
{
    if s.refusal(request) is None {
        lemma_requests_keep_markets(s, request, market_id);
    }
}

proof fn lemma_batch_keeps_terms(
    s: State,
    redeemer: Address,
    market_ids: Seq<u32>,
    market_id: u32,
)
    ensures
        ({
            let after = s.after_batch(redeemer, market_ids);
            &&& after.markets.contains_key(market_id) == s.markets.contains_key(market_id)
            &&& s.markets.contains_key(market_id) ==> {
                let a = after.markets[market_id];
                let b = s.markets[market_id];
                &&& a == (MarketView { lp_fees: a.lp_fees, dust: a.dust, ..b })
            }
        }),
    decreases market_ids.len(),
{
    if market_ids.len() > 0 {
        lemma_batch_keeps_terms(s, redeemer, market_ids.drop_last(), market_id);
    }
}

/// No request changes who created a market, what it asks, who its oracle is, or when
/// it closes and is due. This leaves out a request that gives the market's number to
/// a new market.
pub proof fn law_terms_are_fixed(s: State, request: Request, market_id: u32)
    requires
        s.markets.contains_key(market_id),
        !(request is CreateMarket && s.market_count == market_id),
    ensures
        ({
            let before = s.markets[market_id];
            let after = s.apply(request).markets[market_id];
            &&& after.creator == before.creator
            &&& after.question == before.question
            &&& after.oracle == before.oracle
            &&& after.close_time == before.close_time
            &&& after.resolution_deadline == before.resolution_deadline
        }),
{
    if s.refusal(request) is None {
        lemma_requests_keep_markets(s, request, market_id);
    }
}

/// A market that has been reported on and is not disputed can be finalized, and
/// then is resolved with that outcome.
pub proof fn law_reported_markets_finalize(s: State, market_id: u32)
    requires
        !s.paused,
        s.markets.contains_key(market_id),
        s.markets[market_id].status == MarketStatus::Closed,
        s.markets[market_id].outcome is Some,
    ensures
        ({
            let after = s.apply(Request::Finalize { market_id }).markets[market_id];
            &&& after.status == MarketStatus::Resolved
            &&& after.outcome == s.markets[market_id].outcome
        }),
{
}

/// If the oracle has not reported by the resolution deadline, anyone can cancel the
/// market, and then everyone who holds shares in it can redeem them.
pub proof fn law_unreported_markets_can_be_reclaimed(
    s: State,
    now: u64,
    market_id: u32,
    holder: Address,
)
    requires
        !s.paused,
        s.markets.contains_key(market_id),
        s.markets[market_id].status == MarketStatus::Open || s.markets[market_id].status
            == MarketStatus::Closed,
        s.markets[market_id].outcome is None,
        now > s.markets[market_id].resolution_deadline,
        s.position(market_id, holder).refund() > 0,
        s.position(market_id, holder).split_tokens > 0 ==> s.token is Some,
    ensures
        s.refusal(Request::EmergencyTimeoutRefund { now, market_id }) is None,
        ({
            let after = s.apply(Request::EmergencyTimeoutRefund { now, market_id });
            &&& after.refusal(Request::Redeem { redeemer: holder, market_id }) is None
            &&& after.redeem_value(holder, market_id) == s.position(market_id, holder).refund()
        }),
{
}

/// The admin can cancel any market that is not cancelled yet, also while the contract
/// is paused. Nothing but its status changes, a second attempt is refused, and once
/// the contract runs, those who hold shares in the market are refunded.
pub proof fn law_drained_markets_refund(
    s: State,
    admin: Address,
    market_id: u32,
    holder: Address,
)
    requires
        s.admin == Some(admin),
        s.markets.contains_key(market_id),
        s.markets[market_id].status != MarketStatus::Cancelled,
    ensures
        ({
            let request = Request::EmergencyDrainMarket { caller: admin, market_id };
            let after = s.apply(request);
            &&& s.refusal(request) is None
            &&& after.markets == s.markets.insert(
                market_id,
                s.markets[market_id].with_status(MarketStatus::Cancelled),
            )
            &&& after.positions == s.positions
            &&& after.refusal(request) == Some(Error::MarketAlreadyCancelled)
            &&& !s.paused && s.position(market_id, holder).refund() > 0 && (s.position(
                market_id,
                holder,
            ).split_tokens > 0 ==> s.token is Some) ==> {
                &&& after.refusal(Request::Redeem { redeemer: holder, market_id }) is None
                &&& after.redeem_value(holder, market_id) == s.position(
                    market_id,
                    holder,
                ).refund()
            }
        }),
{
}

/// A request that names a market leaves every other market alone, and changes no
/// position but that of the party who makes it, in that market.
pub proof fn law_others_are_left_alone(s: State, request: Request, other: u32, key: PositionKey)
    requires
        request.market() is Some,
    ensures
        ({
            let after = s.apply(request);
            &&& other != request.market()->0 ==> {
                &&& after.markets.contains_key(other) == s.markets.contains_key(other)
                &&& after.markets[other] == s.markets[other]
            }
            &&& key.market_id != request.market()->0 || Some(key.user) != request.holder() ==> {
                &&& after.positions.contains_key(key) == s.positions.contains_key(key)
                &&& after.positions[key] == s.positions[key]
            }
        }),
{
}

/// A batch changes no position but those of the party who makes it.
pub proof fn law_batches_leave_others_alone(
    s: State,
    redeemer: Address,
    market_ids: Seq<u32>,
    key: PositionKey,
)
    requires
        key.user != redeemer,
    ensures
        s.after_batch(redeemer, market_ids).positions.contains_key(key)
            == s.positions.contains_key(key),
        s.after_batch(redeemer, market_ids).positions[key] == s.positions[key],
    decreases market_ids.len(),
{
    if market_ids.len() > 0 {
        law_batches_leave_others_alone(s, redeemer, market_ids.drop_last(), key);
    }
}

/// Every number below the count of markets, and no other, has been given out.
pub open spec fn numbered(s: State) -> bool {
    forall|id: u32| #[trigger] s.markets.contains_key(id) <==> id < s.market_count
}

/// Markets are numbered in the order in which they are created, and none is
/// forgotten. This leaves out the initialization of a contract that already has
/// markets, which starts counting again.
pub proof fn law_markets_are_numbered(s: State, request: Request)
    requires
        numbered(s),
        s.fits(request),
        request is Init && s.admin is None ==> s.market_count == 0,
    ensures
        numbered(s.apply(request)),
        request is CreateMarket && s.refusal(request) is None ==> {
            &&& !s.markets.contains_key(s.market_count)
            &&& s.apply(request).markets.contains_key(s.market_count)
            &&& s.apply(request).market_count == s.market_count + 1
        },
        forall|id: u32|
            request is CreateMarket && s.markets.contains_key(id)
                ==> #[trigger] s.apply(request).markets[id] == s.markets[id],
{
    let after = s.apply(request);
    if request is BatchRedeem {
        lemma_batch_keeps_settings(s, request->BatchRedeem_redeemer, request->BatchRedeem_market_ids);
    }
    assert forall|id: u32| #[trigger]
        after.markets.contains_key(id) <==> id < after.market_count by {
        assert(s.markets.contains_key(id) <==> id < s.market_count);
        assert(after.markets.dom().contains(id) == after.markets.contains_key(id));
        assert(s.markets.dom().contains(id) == s.markets.contains_key(id));
    }
}

/// `after` is `before`, at most one effect that is no event, and an event of the given
/// category.
pub open spec fn ends_in_event(
    before: Seq<Effect>,
    after: Seq<Effect>,
    category: Seq<char>,
) -> bool {
    &&& before.len() < after.len() <= before.len() + 2
    &&& after.take(before.len() as int) == before
    &&& after.last() is Publish
    &&& after.last()->event.category_text() == category
    &&& after.len() == before.len() + 2 ==> !(after[before.len() as int] is Publish)
}

proof fn lemma_administration_is_reported(s: State, request: Request)
    requires
        request.market() is None,
        request.holder() is None,
    ensures
        ends_in_event(s.effects, s.accepted(request).effects, request.category()),
{
    assert(s.accepted(request).effects.take(s.effects.len() as int) =~= s.effects);
}

#[verifier::rlimit(40)]
proof fn lemma_lifecycle_is_reported(s: State, request: Request)
    requires
        request.market() is Some,
        request.holder() is None,
    ensures
        ends_in_event(s.effects, s.accepted(request).effects, request.category()),
{
    assert(s.accepted(request).effects.take(s.effects.len() as int) =~= s.effects);
}

#[verifier::rlimit(40)]
proof fn lemma_trades_are_reported(s: State, request: Request)
    requires
        request.holder() is Some,
        !(request is BatchRedeem),
    ensures
        ends_in_event(s.effects, s.accepted(request).effects, request.category()),
{
    assert(s.accepted(request).effects.take(s.effects.len() as int) =~= s.effects);
}

/// What an accepted request asks the host to do comes after all that was asked
/// before, and ends with the one event that it publishes. The event's first topic says
/// which part of the contract the request concerns.
pub proof fn law_accepted_requests_are_reported(s: State, request: Request)
    requires
        s.refusal(request) is None,
        !(request is BatchRedeem),
    ensures
        ends_in_event(s.effects, s.apply(request).effects, request.category()),
{
    if request.holder() is None {
        if request.market() is None {
            lemma_administration_is_reported(s, request);
        } else {
            lemma_lifecycle_is_reported(s, request);
        }
    } else {
        lemma_trades_are_reported(s, request);
    }
}

/// The number of events among a series of effects.
pub open spec fn published(effects: Seq<Effect>) -> nat
    decreases effects.len(),
{
    if effects.len() == 0 {
        0
    } else if effects.last() is Publish {
        published(effects.drop_last()) + 1
    } else {
        published(effects.drop_last())
    }
}

/// Asking for one more effect adds an event exactly if that effect is one.
proof fn lemma_published_push(effects: Seq<Effect>, effect: Effect)
    ensures
        published(effects.push(effect)) == published(effects) + if effect is Publish {
            1nat
        } else {
            0nat
        },
{
    assert(effects.push(effect).drop_last() =~= effects);
}

/// A batch publishes one event for each market that it redeemed.
pub proof fn law_batches_report_each_redemption(
    s: State,
    redeemer: Address,
    market_ids: Seq<u32>,
)
    ensures
        published(s.after_batch(redeemer, market_ids).effects) == published(s.effects)
            + s.batch_report(redeemer, market_ids).successes.len(),
    decreases market_ids.len(),
{
    if market_ids.len() > 0 {
        let before = s.after_batch(redeemer, market_ids.drop_last());
        law_batches_report_each_redemption(s, redeemer, market_ids.drop_last());
        if before.redeem_refusal(redeemer, market_ids.last()) is None {
            let paid = before.with_transfer_out(
                redeemer,
                before.position(market_ids.last(), redeemer).split_tokens,
            );
            let after = before.after_redeem(redeemer, market_ids.last());
            lemma_published_push(before.effects, paid.effects.last());
            lemma_published_push(before.effects, after.effects.last());
            lemma_published_push(paid.effects, after.effects.last());
        }
    }
}

} // verus!
