//! What the bridge makes of a signal, in numbers: when an order comes of it, on which side,
//! at which price, of which size, and at which venue.

use crate::decimal::{
    divides_exactly, lemma_units_of_signed, lemma_units_order, lemma_units_sign, magnitude,
    multiplies_exactly, num, num_abs, num_div, num_le, num_lt, num_mul, num_sub, num_text,
    subtracts_exactly, units, units_in_one, Num, MAX_SCALE,
};
use crate::gateway::{
    answers, bridged, candidate_at, candidates, preferred, richest, routed, state_at, venues_of,
    Candidate, GatewayError, GatewayFault, Listing, Market, SignalOrderBridgeConfig,
    SignalRoutingPolicy, VenueRouteState,
};
use crate::limits::AgentRiskLimits;
use crate::pipeline::{Draft, OrderCore, PipelineOrder};
use crate::pnl::PriceSnapshot;
use crate::portfolio::{AgentStatus, FirmBook};
use crate::signal::Signal;
use crate::text::blank;
use crate::time::Timestamp;
use vstd::prelude::*;

verus! {

/// What a bridge is asked: its configuration and listings, the signal, what the firm holds,
/// the agent's limits, the quote, whether it is stale, the venues, and the time.
pub struct Question<'a> {
    pub config: SignalOrderBridgeConfig,
    pub listings: Seq<Listing>,
    pub signal: Signal,
    pub book: FirmBook,
    pub limits: Option<&'a AgentRiskLimits>,
    pub quote: Option<PriceSnapshot>,
    pub stale: bool,
    pub states: Seq<VenueRouteState>,
    pub now: Timestamp,
}

/// What comes of the signal; nothing where a number exceeds its range.
pub open spec fn outcome(q: Question<'_>) -> Option<
    Result<Option<crate::gateway::DraftPlan>, GatewayFault>,
> {
    bridged(q.config, q.listings, q.signal, q.book, q.limits, q.quote, q.stale, q.states)
}

/// Whether a bridge that is asked answers so.
pub open spec fn answered(q: Question<'_>, r: Result<Vec<PipelineOrder<Draft>>, GatewayError>) -> bool {
    outcome(q) is Some && answers(r, outcome(q)->0, q.config, q.signal, q.now)
}

/// The order that comes of a signal, where one does.
pub open spec fn only_order(r: Result<Vec<PipelineOrder<Draft>>, GatewayError>) -> OrderCore {
    r->Ok_0@[0].order()
}

/// At most one order comes of a signal; none without conviction, and none of a signal that is
/// not sound, for an agent that is not active, or without a fresh quote.
pub proof fn law_order_needs(q: Question<'_>, r: Result<Vec<PipelineOrder<Draft>>, GatewayError>)
    requires
        answered(q, r),
        r is Ok,
    ensures
        r->Ok_0@.len() <= 1,
        r->Ok_0@.len() == 0 <==> q.signal.conviction@.m == 0,
        q.signal.conviction@.m >= 0,
        num_le(q.signal.conviction@, num(1, 0)),
        q.signal.stop_loss@.m > 0,
        !blank(q.signal.thesis@),
        q.signal.sizing_hint matches Some(hint) ==> hint@.m > 0 && r->Ok_0@.len() == 1,
        q.book.agent_allocations@.contains_key(q.signal.agent@),
        q.book.agent_allocations@[q.signal.agent@].status is Active,
        r->Ok_0@.len() == 1 ==> q.quote is Some && !q.stale,
{
}

/// The order is on the signal's side, for its agent and instrument, with its exits, at the
/// price that the side trades at: the ask to buy, the bid to sell.
pub proof fn law_order_is_the_signals(
    q: Question<'_>,
    r: Result<Vec<PipelineOrder<Draft>>, GatewayError>,
)
    requires
        answered(q, r),
        r is Ok,
        r->Ok_0@.len() == 1,
    ensures
        ({
            let (o, signal) = (only_order(r), q.signal);
            &&& o.side == signal.direction
            &&& o.agent_id@ == signal.agent@
            &&& o.instrument_id@ == signal.instrument@
            &&& o.basket_id == signal.basket_id
            &&& o.id@ == "ord-"@ + signal.id@
            &&& o.order_type == q.config.default_order_type
            &&& o.time_in_force == q.config.default_time_in_force
            &&& o.dry_run == q.config.dry_run
            &&& !o.reduce_only
            &&& !o.post_only
            &&& o.trigger_price is None
            &&& o.stop_loss == Some(signal.stop_loss)
            &&& o.take_profit == signal.take_profit
            &&& o.created_at == q.now
            &&& !o.exec_hint.allow_emulation
            &&& routed(q.config.routing_policy, q.listings, signal, q.limits, q.states) matches Ok(
                market,
            ) && o.venue_id@ == market.venue && o.market_id@ == market.symbol
            &&& o.qty@.m > 0
            &&& o.price is Some
            &&& o.price->0@.m > 0
            &&& signal.direction is Buy ==> o.price->0 == q.quote->0.ask
            &&& signal.direction is Sell ==> o.price->0 == q.quote->0.bid
            &&& signal.direction is Buy ==> num_lt(signal.stop_loss@, o.price->0@)
            &&& signal.direction is Sell ==> num_lt(o.price->0@, signal.stop_loss@)
            &&& signal.take_profit matches Some(target) ==> {
                &&& signal.direction is Buy ==> num_lt(o.price->0@, target@)
                &&& signal.direction is Sell ==> num_lt(target@, o.price->0@)
            }
        }),
{
}

/// Without a hint, what is lost at the stop is the conviction's part of the agent's capital,
/// for both directions: the quantity times the distance between price and stop loss is the
/// conviction times the capital, where nothing is rounded; so it is never more than the
/// capital.
pub proof fn law_loss_at_the_stop(
    q: Question<'_>,
    r: Result<Vec<PipelineOrder<Draft>>, GatewayError>,
)
    requires
        answered(q, r),
        r is Ok,
        r->Ok_0@.len() == 1,
        q.signal.sizing_hint is None,
        ({
            let capital = q.book.agent_allocations@[q.signal.agent@].allocated_capital@;
            let (price, stop) = (only_order(r).price->0@, q.signal.stop_loss@);
            &&& subtracts_exactly(price, stop)
            &&& multiplies_exactly(q.signal.conviction@, capital)
            &&& divides_exactly(
                num_mul(q.signal.conviction@, capital)->0,
                num_abs(num_sub(price, stop)->0),
            )
            &&& capital.m >= 0
            &&& q.signal.conviction@.s <= MAX_SCALE
        }),
    ensures
        ({
            let capital = units(q.book.agent_allocations@[q.signal.agent@].allocated_capital@);
            let distance = magnitude(units(only_order(r).price->0@) - units(q.signal.stop_loss@));
            let lost = units(only_order(r).qty@) * distance;
            &&& lost == units(q.signal.conviction@) * capital
            &&& lost <= units_in_one() * capital
        }),
{
    let capital = q.book.agent_allocations@[q.signal.agent@].allocated_capital@;
    let (price, stop) = (only_order(r).price->0@, q.signal.stop_loss@);
    lemma_units_of_signed(num_sub(price, stop)->0);
    lemma_units_sign(capital);
    lemma_units_order(q.signal.conviction@, num(1, 0));
    assert(units(num(1, 0)) == units_in_one());
    let (c, u, k) = (units(q.signal.conviction@), units(capital), units_in_one());
    assert(c * u <= k * u) by (nonlinear_arith)
        requires
            c <= k,
            u >= 0,
    ;
}

/// With a hint, the order is worth the hint at its price, where nothing is rounded, and the
/// hint is within the agent's capital.
pub proof fn law_hinted_size(
    q: Question<'_>,
    r: Result<Vec<PipelineOrder<Draft>>, GatewayError>,
    hint: Num,
)
    requires
        answered(q, r),
        r is Ok,
        r->Ok_0@.len() == 1,
        q.signal.sizing_hint matches Some(h) && h@ == hint,
    ensures
        num_le(hint, q.book.agent_allocations@[q.signal.agent@].allocated_capital@),
        divides_exactly(hint, only_order(r).price->0@) ==> units(only_order(r).qty@) * units(
            only_order(r).price->0@,
        ) == units(hint) * units_in_one(),
{
}

/// What is wrong is said: without a quote, that there is no price; with a stale one, that it
/// is stale; without an allocation, that there is none.
pub proof fn law_refusals_name_their_reason(
    q: Question<'_>,
    r: Result<Vec<PipelineOrder<Draft>>, GatewayError>,
)
    requires
        answered(q, r),
    ensures
        ({
            let signal = q.signal;
            let sound = num_le(signal.conviction@, num(1, 0)) && signal.conviction@.m > 0
                && signal.stop_loss@.m > 0 && !blank(signal.thesis@) && (
            signal.sizing_hint matches Some(h) ==> h@.m > 0);
            let known = q.book.agent_allocations@.contains_key(signal.agent@);
            let active = known && q.book.agent_allocations@[signal.agent@].status is Active;
            &&& signal.conviction@.m < 0 || num_lt(num(1, 0), signal.conviction@)
                || signal.stop_loss@.m <= 0 || blank(signal.thesis@) ==> (r matches Err(e)
                && e@ is Validation)
            &&& sound && !known ==> (r matches Err(e) && e@ == (
            GatewayFault::AgentAllocationNotFound { agent_id: signal.agent@ }))
            &&& sound && known && !active ==> (r matches Err(e) && e@ is Validation)
            &&& sound && active && q.quote is None ==> (r matches Err(e) && e@ == (
            GatewayFault::PriceUnavailable { instrument_id: signal.instrument@ }))
            &&& sound && active && q.quote is Some && q.stale ==> (r matches Err(e) && e@ == (
            GatewayFault::StalePrice {
                instrument_id: signal.instrument@,
                max_age: q.config.max_price_age,
            }))
        }),
{
}

/// The price that a signal is traded at, where there is a quote: the ask to buy, the bid to
/// sell.
pub open spec fn traded_at(q: Question<'_>) -> Num {
    if q.signal.direction is Buy {
        q.quote->0.ask@
    } else {
        q.quote->0.bid@
    }
}

/// Whether nothing is wrong with a signal in itself, its agent is active, and there is a fresh
/// quote for it.
pub open spec fn is_tradable(q: Question<'_>) -> bool {
    &&& q.signal.conviction@.m > 0
    &&& num_le(q.signal.conviction@, num(1, 0))
    &&& q.signal.stop_loss@.m > 0
    &&& !blank(q.signal.thesis@)
    &&& q.signal.sizing_hint matches Some(hint) ==> hint@.m > 0
    &&& q.book.agent_allocations@.contains_key(q.signal.agent@)
    &&& q.book.agent_allocations@[q.signal.agent@].status is Active
    &&& q.quote is Some
    &&& !q.stale
}

/// Whether the exits of a signal are on their sides of the price: the stop loss on the losing
/// one and the take profit, if there is one, on the winning one.
pub open spec fn exits_fit(q: Question<'_>) -> bool {
    let (price, stop) = (traded_at(q), q.signal.stop_loss@);
    if q.signal.direction is Buy {
        num_lt(stop, price) && (q.signal.take_profit matches Some(t) ==> num_lt(price, t@))
    } else {
        num_lt(price, stop) && (q.signal.take_profit matches Some(t) ==> num_lt(t@, price))
    }
}

/// A tradable signal is refused as not valid where its price is not positive, its exits are on
/// the wrong sides, or its hint exceeds the agent's capital.
pub proof fn law_misplaced_exits_are_refused(
    q: Question<'_>,
    r: Result<Vec<PipelineOrder<Draft>>, GatewayError>,
)
    requires
        answered(q, r),
        is_tradable(q),
    ensures
        traded_at(q).m <= 0 || !exits_fit(q) ==> (r matches Err(e) && e@ is Validation),
        traded_at(q).m > 0 && exits_fit(q) ==> (q.signal.sizing_hint matches Some(hint) ==> num_lt(
            q.book.agent_allocations@[q.signal.agent@].allocated_capital@,
            hint@,
        ) ==> (r matches Err(e) && e@ is Validation)),
{
}

/// Every question is answered whose numbers stay in their range: the quotient of the hint and
/// the price, or the distance to the stop and the quotient of the conviction's part of the
/// capital by it.
pub proof fn law_answer_is_owed(q: Question<'_>)
    requires
        is_tradable(q) && traded_at(q).m > 0 && exits_fit(q) ==> {
            let capital = q.book.agent_allocations@[q.signal.agent@].allocated_capital@;
            match q.signal.sizing_hint {
                Some(hint) => num_lt(capital, hint@) || num_div(hint@, traded_at(q)) is Some,
                None => {
                    &&& num_sub(traded_at(q), q.signal.stop_loss@) matches Some(d) && (d.m == 0 || (
                    num_mul(q.signal.conviction@, capital) matches Some(risked) && num_div(
                        risked,
                        num_abs(d),
                    ) is Some))
                },
            }
        },
    ensures
        outcome(q) is Some,
{
}

/// What a refusal of a signal says: the agent that is not active and how it stands; the price
/// that is not positive; the exit that is on the wrong side, of which price and for which
/// side; or by how much the hint exceeds the capital.
pub proof fn law_refusals_say_why(
    q: Question<'_>,
    r: Result<Vec<PipelineOrder<Draft>>, GatewayError>,
)
    requires
        answered(q, r),
        is_tradable(q),
    ensures
        ({
            let (price, stop) = (traded_at(q), q.signal.stop_loss@);
            let capital = q.book.agent_allocations@[q.signal.agent@].allocated_capital@;
            let side = if q.signal.direction is Buy {
                "Buy"@
            } else {
                "Sell"@
            };
            let loses = if q.signal.direction is Buy {
                num_lt(stop, price)
            } else {
                num_lt(price, stop)
            };
            &&& price.m <= 0 ==> (r matches Err(e) && e@ == GatewayFault::Validation(
                "reference price must be positive, got "@ + num_text(price),
            ))
            &&& price.m > 0 && !loses ==> (r matches Err(e) && e@ == GatewayFault::Validation(
                "stop_loss "@ + num_text(stop)
                    + " is not on the losing side of reference price "@ + num_text(price) + " for "@
                    + side,
            ))
            &&& price.m > 0 && loses && !exits_fit(q) ==> (r matches Err(e) && e@
                == GatewayFault::Validation(
                "take_profit "@ + num_text(q.signal.take_profit->0@)
                    + " is not on the profitable side of reference price "@ + num_text(price)
                    + " for "@ + side,
            ))
            &&& price.m > 0 && exits_fit(q) ==> (q.signal.sizing_hint matches Some(hint)
                ==> num_lt(capital, hint@) ==> (r matches Err(e) && e@ == GatewayFault::Validation(
                "sizing_hint "@ + num_text(hint@) + " exceeds agent allocated_capital "@
                    + num_text(capital),
            )))
        }),
{
}

/// What the refusal of a signal in itself says, or of one whose agent is not active.
pub proof fn law_unsound_signals_say_why(
    q: Question<'_>,
    r: Result<Vec<PipelineOrder<Draft>>, GatewayError>,
)
    requires
        answered(q, r),
    ensures
        ({
            let (signal, conviction) = (q.signal, q.signal.conviction@);
            let held = 0 <= conviction.m && num_le(conviction, num(1, 0));
            let clear = held && !(conviction.m == 0 && signal.sizing_hint is Some);
            let stopped = clear && signal.stop_loss@.m > 0;
            let told = stopped && !blank(signal.thesis@);
            let sound = told && (signal.sizing_hint matches Some(hint) ==> hint@.m > 0);
            let status = q.book.agent_allocations@[signal.agent@].status;
            &&& !held ==> (r matches Err(e) && e@ == GatewayFault::Validation(
                "signal conviction must be within 0.0..=1.0, got "@ + num_text(conviction),
            ))
            &&& held && !clear ==> (r matches Err(e) && e@ == GatewayFault::Validation(
                "sizing_hint provided with zero conviction; intent is ambiguous"@,
            ))
            &&& clear && !stopped ==> (r matches Err(e) && e@ == GatewayFault::Validation(
                "signal stop_loss must be positive, got "@ + num_text(signal.stop_loss@),
            ))
            &&& stopped && !told ==> (r matches Err(e) && e@ == GatewayFault::Validation(
                "signal thesis must be non-empty"@,
            ))
            &&& told && !sound ==> (r matches Err(e) && e@ == GatewayFault::Validation(
                "signal sizing_hint must be positive, got "@ + num_text(signal.sizing_hint->0@),
            ))
            &&& sound && q.book.agent_allocations@.contains_key(signal.agent@) && !(
            status is Active) ==> (r matches Err(e) && e@ == GatewayFault::Validation(
                "agent "@ + signal.agent@ + " is not active: "@ + (match status {
                    AgentStatus::Active => "active"@,
                    AgentStatus::Paused { .. } => "paused"@,
                    AgentStatus::DrawdownBreached => "drawdown_breached"@,
                    AgentStatus::Halted => "halted"@,
                }),
            ))
        }),
{
}

/// A sound signal of an active agent, at a fresh quote whose exits are on their sides, with a
/// positive size within the capital and a market to go to, becomes an order.
pub proof fn law_order_is_owed(
    q: Question<'_>,
    r: Result<Vec<PipelineOrder<Draft>>, GatewayError>,
    price: Num,
    qty: Num,
    market: Market,
)
    requires
        answered(q, r),
        q.signal.conviction@.m > 0,
        num_le(q.signal.conviction@, num(1, 0)),
        q.signal.stop_loss@.m > 0,
        !blank(q.signal.thesis@),
        q.book.agent_allocations@.contains_key(q.signal.agent@),
        q.book.agent_allocations@[q.signal.agent@].status is Active,
        q.quote is Some,
        !q.stale,
        price == (if q.signal.direction is Buy {
            q.quote->0.ask@
        } else {
            q.quote->0.bid@
        }),
        price.m > 0,
        q.signal.direction is Buy ==> num_lt(q.signal.stop_loss@, price) && (
        q.signal.take_profit matches Some(t) ==> num_lt(price, t@)),
        q.signal.direction is Sell ==> num_lt(price, q.signal.stop_loss@) && (
        q.signal.take_profit matches Some(t) ==> num_lt(t@, price)),
        qty.m > 0,
        ({
            let capital = q.book.agent_allocations@[q.signal.agent@].allocated_capital@;
            match q.signal.sizing_hint {
                Some(hint) => hint@.m > 0 && num_le(hint@, capital) && num_div(hint@, price)
                    == Some(qty),
                None => {
                    &&& num_sub(price, q.signal.stop_loss@) matches Some(d) && d.m != 0
                    &&& num_mul(q.signal.conviction@, capital) is Some
                    &&& num_div(
                        num_mul(q.signal.conviction@, capital)->0,
                        num_abs(num_sub(price, q.signal.stop_loss@)->0),
                    ) == Some(qty)
                },
            }
        }),
        routed(q.config.routing_policy, q.listings, q.signal, q.limits, q.states) == Ok::<
            Market,
            GatewayFault,
        >(market),
    ensures
        r is Ok,
        r->Ok_0@.len() == 1,
        only_order(r).qty@ == qty,
        only_order(r).price->0@ == price,
        only_order(r).venue_id@ == market.venue,
        only_order(r).market_id@ == market.symbol,
{
}

// ─── Routing ───

/// Whether a state is the first one of a venue.
pub open spec fn is_first_state(states: Seq<VenueRouteState>, venue: Seq<char>, i: int) -> bool {
    &&& 0 <= i < states.len()
    &&& states[i].connection_health.venue_id@ == venue
    &&& forall|j: int|
        0 <= j < i ==> (#[trigger] states[j]).connection_health.venue_id@ != venue
}

/// Whether a venue may take orders of an agent: its state says that it is connected, and it
/// is not left out of the agent's list.
pub open spec fn may_take(
    limits: Option<&AgentRiskLimits>,
    states: Seq<VenueRouteState>,
    venue: Seq<char>,
    i: int,
) -> bool {
    &&& is_first_state(states, venue, i)
    &&& states[i].connection_health.state is Connected
    &&& limits matches Some(l) ==> (l.allowed_venues matches Some(list) ==> exists|k: int|
        0 <= k < list@.len() && (#[trigger] list@[k])@ == venue)
}

/// The state that a venue is looked up at is its first one.
proof fn lemma_state_at(states: Seq<VenueRouteState>, venue: Seq<char>, from: int)
    requires
        0 <= from <= states.len(),
    ensures
        match state_at(states, venue, from) {
            Some(i) => {
                &&& from <= i < states.len()
                &&& states[i].connection_health.venue_id@ == venue
                &&& forall|j: int|
                    from <= j < i ==> (#[trigger] states[j]).connection_health.venue_id@ != venue
            },
            None => forall|j: int|
                from <= j < states.len() ==> (#[trigger] states[j]).connection_health.venue_id@
                    != venue,
        },
    decreases states.len() - from,
{
    if from < states.len() && states[from].connection_health.venue_id@ != venue {
        lemma_state_at(states, venue, from + 1);
    }
}

/// A market is a candidate exactly where its venue may take orders.
proof fn lemma_candidate(
    market: Market,
    limits: Option<&AgentRiskLimits>,
    states: Seq<VenueRouteState>,
)
    ensures
        candidate_at(market, limits, states) matches Some(c) ==> {
            let i = state_at(states, market.venue, 0)->0;
            &&& c.market == market
            &&& may_take(limits, states, market.venue, i)
            &&& c.balance == states[i].available_balance@
        },
        forall|i: int| #[trigger]
            may_take(limits, states, market.venue, i) ==> candidate_at(market, limits, states)
                == Some(Candidate { market, balance: states[i].available_balance@ }),
{
    lemma_state_at(states, market.venue, 0);
    assert forall|i: int| #[trigger] may_take(limits, states, market.venue, i) implies candidate_at(
        market,
        limits,
        states,
    ) == Some(Candidate { market, balance: states[i].available_balance@ }) by {
        let at = state_at(states, market.venue, 0);
        assert(states[i].connection_health.venue_id@ == market.venue);
        assert(at is Some);
        if at->0 < i {
            assert(states[at->0].connection_health.venue_id@ != market.venue);
        }
        if i < at->0 {
            assert(states[i].connection_health.venue_id@ != market.venue);
        }
    }
}

/// Which listing a candidate comes from: it is one of the instrument's, and a candidate comes
/// of every such listing that has one; the first comes from the first such listing.
proof fn lemma_candidates_of_listings(
    listings: Seq<Listing>,
    id: Seq<char>,
    limits: Option<&AgentRiskLimits>,
    states: Seq<VenueRouteState>,
)
    ensures
        ({
            let all = candidates(venues_of(listings, id), limits, states);
            &&& forall|k: int|
                0 <= k < all.len() ==> exists|i: int|
                    0 <= i < listings.len() && (#[trigger] listings[i]).instrument == id
                        && candidate_at(listings[i].market, limits, states) == Some(
                        #[trigger] all[k],
                    )
            &&& forall|i: int|
                0 <= i < listings.len() && (#[trigger] listings[i]).instrument == id
                    && candidate_at(listings[i].market, limits, states) is Some ==> all.contains(
                    candidate_at(listings[i].market, limits, states)->0,
                )
            &&& all.len() > 0 ==> exists|i: int|
                {
                    &&& 0 <= i < listings.len()
                    &&& (#[trigger] listings[i]).instrument == id
                    &&& candidate_at(listings[i].market, limits, states) == Some(all[0])
                    &&& forall|j: int|
                        0 <= j < i && (#[trigger] listings[j]).instrument == id ==> candidate_at(
                            listings[j].market,
                            limits,
                            states,
                        ) is None
                }
        }),
    decreases listings.len(),
{
    let all = candidates(venues_of(listings, id), limits, states);
    if listings.len() > 0 {
        let n = listings.len() - 1;
        let (rest, last) = (listings.drop_last(), listings[n]);
        lemma_candidates_of_listings(rest, id, limits, states);
        let before = candidates(venues_of(rest, id), limits, states);
        if last.instrument == id {
            let list = venues_of(listings, id);
            assert(list.drop_last() =~= venues_of(rest, id));
            assert(list.last() == last.market);
        }
        let found = last.instrument == id && candidate_at(last.market, limits, states) is Some;
        assert(found ==> all == before.push(candidate_at(last.market, limits, states)->0));
        assert(!found ==> all == before);
        assert forall|k: int| 0 <= k < all.len() implies exists|i: int|
            0 <= i < listings.len() && (#[trigger] listings[i]).instrument == id && candidate_at(
                listings[i].market,
                limits,
                states,
            ) == Some(#[trigger] all[k]) by {
            if k < before.len() {
                assert(all[k] == before[k]);
                let i = choose|i: int|
                    0 <= i < rest.len() && (#[trigger] rest[i]).instrument == id && candidate_at(
                        rest[i].market,
                        limits,
                        states,
                    ) == Some(before[k]);
                assert(listings[i] == rest[i]);
            } else {
                assert(listings[n].instrument == id);
            }
        }
        assert forall|i: int|
            0 <= i < listings.len() && (#[trigger] listings[i]).instrument == id && candidate_at(
                listings[i].market,
                limits,
                states,
            ) is Some implies all.contains(
            candidate_at(listings[i].market, limits, states)->0,
        ) by {
            if i < n {
                assert(rest[i] == listings[i]);
                let c = candidate_at(rest[i].market, limits, states)->0;
                let k = choose|k: int| 0 <= k < before.len() && before[k] == c;
                assert(all[k] == c);
            } else {
                assert(all[all.len() - 1] == candidate_at(last.market, limits, states)->0);
            }
        }
        if all.len() > 0 {
            if before.len() > 0 {
                let i = choose|i: int|
                    {
                        &&& 0 <= i < rest.len()
                        &&& (#[trigger] rest[i]).instrument == id
                        &&& candidate_at(rest[i].market, limits, states) == Some(before[0])
                        &&& forall|j: int|
                            0 <= j < i && (#[trigger] rest[j]).instrument == id ==> candidate_at(
                                rest[j].market,
                                limits,
                                states,
                            ) is None
                    };
                assert(all[0] == before[0]);
                assert(listings[i] == rest[i]);
                assert forall|j: int| 0 <= j < i && (#[trigger] listings[j]).instrument == id implies
                    candidate_at(listings[j].market, limits, states) is None by {
                    assert(rest[j] == listings[j]);
                }
            } else {
                assert(listings[n].instrument == id);
                assert forall|j: int| 0 <= j < n && (#[trigger] listings[j]).instrument == id implies
                    candidate_at(listings[j].market, limits, states) is None by {
                    assert(rest[j] == listings[j]);
                }
            }
        }
    }
}

/// A signal goes to a market that is listed for its instrument and may take orders of its
/// agent, who may trade the instrument: to the first such listing, or to one whose venue has
/// the highest available balance of all of them, as the policy asks.
pub proof fn law_route(
    policy: SignalRoutingPolicy,
    listings: Seq<Listing>,
    signal: Signal,
    limits: Option<&AgentRiskLimits>,
    states: Seq<VenueRouteState>,
    market: Market,
)
    requires
        routed(policy, listings, signal, limits, states) == Ok::<Market, GatewayFault>(market),
    ensures
        limits matches Some(l) ==> (l.allowed_instruments matches Some(list) ==> exists|k: int|
            0 <= k < list@.len() && (#[trigger] list@[k])@ == signal.instrument@),
        exists|i: int, at: int|
            {
                &&& 0 <= i < listings.len()
                &&& (#[trigger] listings[i]).market == market
                &&& listings[i].instrument == signal.instrument@
                &&& #[trigger] may_take(limits, states, market.venue, at)
                &&& policy is FirstListed ==> forall|j: int, other: int|
                    0 <= j < i && (#[trigger] listings[j]).instrument == signal.instrument@
                        ==> !#[trigger] may_take(limits, states, listings[j].market.venue, other)
                &&& policy is HighestAvailableBalance ==> forall|j: int, other: int|
                    0 <= j < listings.len() && (#[trigger] listings[j]).instrument
                        == signal.instrument@ && #[trigger] may_take(
                        limits,
                        states,
                        listings[j].market.venue,
                        other,
                    ) ==> num_le(
                        states[other].available_balance@,
                        states[at].available_balance@,
                    )
            },
{
    let id = signal.instrument@;
    let all = candidates(venues_of(listings, id), limits, states);
    let c = preferred(policy, all);
    lemma_candidates_of_listings(listings, id, limits, states);
    if policy is FirstListed {
        let i = choose|i: int|
            {
                &&& 0 <= i < listings.len()
                &&& (#[trigger] listings[i]).instrument == id
                &&& candidate_at(listings[i].market, limits, states) == Some(all[0])
                &&& forall|j: int|
                    0 <= j < i && (#[trigger] listings[j]).instrument == id ==> candidate_at(
                        listings[j].market,
                        limits,
                        states,
                    ) is None
            };
        lemma_candidate(listings[i].market, limits, states);
        let at = state_at(states, market.venue, 0)->0;
        assert(may_take(limits, states, market.venue, at));
        assert forall|j: int, other: int|
            0 <= j < i && (#[trigger] listings[j]).instrument == id implies !#[trigger] may_take(
            limits,
            states,
            listings[j].market.venue,
            other,
        ) by {
            lemma_candidate(listings[j].market, limits, states);
        }
    } else {
        lemma_richest_is_listed(all);
        let k = choose|k: int| 0 <= k < all.len() && all[k] == c;
        assert(all[k] == c);
        let i = choose|i: int|
            0 <= i < listings.len() && (#[trigger] listings[i]).instrument == id && candidate_at(
                listings[i].market,
                limits,
                states,
            ) == Some(all[k]);
        lemma_candidate(listings[i].market, limits, states);
        let at = state_at(states, market.venue, 0)->0;
        assert(may_take(limits, states, market.venue, at));
        assert forall|j: int, other: int|
            0 <= j < listings.len() && (#[trigger] listings[j]).instrument == id
                && #[trigger] may_take(limits, states, listings[j].market.venue, other) implies num_le(
            states[other].available_balance@,
            states[at].available_balance@,
        ) by {
            lemma_candidate(listings[j].market, limits, states);
            let d = candidate_at(listings[j].market, limits, states)->0;
            let m = choose|m: int| 0 <= m < all.len() && all[m] == d;
            crate::gateway::law_preferred_market_has_highest_balance(all, m);
        }
    }
}

/// The richest of candidates is one of them.
proof fn lemma_richest_is_listed(list: Seq<Candidate>)
    requires
        list.len() > 0,
    ensures
        list.contains(richest(list)),
{
    crate::gateway::law_preferred_market_has_highest_balance(list, 0);
}

/// A route is found wherever the agent may trade the instrument and some market that is
/// listed for it may take orders; where there is none, that is the error.
pub proof fn law_route_is_owed(
    policy: SignalRoutingPolicy,
    listings: Seq<Listing>,
    signal: Signal,
    limits: Option<&AgentRiskLimits>,
    states: Seq<VenueRouteState>,
)
    ensures
        ({
            let permitted = limits matches Some(l) ==> (l.allowed_instruments matches Some(list)
                ==> exists|k: int|
                0 <= k < list@.len() && (#[trigger] list@[k])@ == signal.instrument@);
            let reachable = exists|i: int, at: int|
                0 <= i < listings.len() && (#[trigger] listings[i]).instrument
                    == signal.instrument@ && #[trigger] may_take(
                    limits,
                    states,
                    listings[i].market.venue,
                    at,
                );
            &&& routed(policy, listings, signal, limits, states) is Ok <==> permitted && reachable
            &&& routed(policy, listings, signal, limits, states) matches Err(f) ==> (
            f matches GatewayFault::RoutingUnavailable { instrument_id, reason } && instrument_id
                == signal.instrument@ && (!permitted ==> reason == "instrument "@
                + signal.instrument@ + " is not allowed for agent "@ + signal.agent@) && (permitted
                && (forall|i: int|
                0 <= i < listings.len() ==> (#[trigger] listings[i]).instrument
                    != signal.instrument@) ==> reason
                == "instrument is missing from the symbol map"@) && (permitted && (exists|i: int|
                0 <= i < listings.len() && (#[trigger] listings[i]).instrument
                    == signal.instrument@) ==> reason
                == "no mapped venue is simultaneously allowed and connected for "@
                + signal.instrument@))
        }),
{
    let id = signal.instrument@;
    let all = candidates(venues_of(listings, id), limits, states);
    lemma_candidates_of_listings(listings, id, limits, states);
    if all.len() > 0 {
        let i = choose|i: int|
            0 <= i < listings.len() && (#[trigger] listings[i]).instrument == id && candidate_at(
                listings[i].market,
                limits,
                states,
            ) == Some(all[0]);
        lemma_candidate(listings[i].market, limits, states);
        let at = state_at(states, listings[i].market.venue, 0)->0;
        assert(may_take(limits, states, listings[i].market.venue, at));
        lemma_listed_venues(listings, id, i);
    }
    if exists|i: int, at: int|
        0 <= i < listings.len() && (#[trigger] listings[i]).instrument == id && #[trigger] may_take(
            limits,
            states,
            listings[i].market.venue,
            at,
        ) {
        let (i, at) = choose|i: int, at: int|
            0 <= i < listings.len() && (#[trigger] listings[i]).instrument == id
                && #[trigger] may_take(limits, states, listings[i].market.venue, at);
        lemma_candidate(listings[i].market, limits, states);
        assert(all.contains(candidate_at(listings[i].market, limits, states)->0));
        lemma_listed_venues(listings, id, i);
    }
    if exists|i: int| 0 <= i < listings.len() && (#[trigger] listings[i]).instrument == id {
        let i = choose|i: int| 0 <= i < listings.len() && (#[trigger] listings[i]).instrument == id;
        lemma_listed_venues(listings, id, i);
    } else {
        lemma_no_listed_venues(listings, id);
    }
}

/// An instrument without a listing has no venue.
proof fn lemma_no_listed_venues(listings: Seq<Listing>, id: Seq<char>)
    requires
        forall|i: int| 0 <= i < listings.len() ==> (#[trigger] listings[i]).instrument != id,
    ensures
        venues_of(listings, id).len() == 0,
    decreases listings.len(),
{
    if listings.len() > 0 {
        let rest = listings.drop_last();
        assert(listings[listings.len() - 1].instrument != id);
        assert forall|i: int| 0 <= i < rest.len() implies (#[trigger] rest[i]).instrument != id by {
            assert(rest[i] == listings[i]);
        }
        lemma_no_listed_venues(rest, id);
    }
}

/// Of several candidates with the highest balance the last is preferred.
pub proof fn law_last_of_equals_is_preferred(list: Seq<Candidate>, k: int)
    requires
        0 <= k < list.len(),
        forall|i: int|
            0 <= i < list.len() ==> num_le((#[trigger] list[i]).balance, list[k].balance),
        forall|i: int| k < i < list.len() ==> num_lt((#[trigger] list[i]).balance, list[k].balance),
    ensures
        preferred(SignalRoutingPolicy::HighestAvailableBalance, list) == list[k],
    decreases list.len(),
{
    let rest = list.drop_last();
    let n = list.len() - 1;
    if list.len() > 1 {
        if k < n {
            assert(num_lt(list[n].balance, list[k].balance));
            assert forall|i: int| 0 <= i < rest.len() implies num_le(
                (#[trigger] rest[i]).balance,
                rest[k].balance,
            ) by {
                assert(rest[i] == list[i]);
            }
            assert forall|i: int| k < i < rest.len() implies num_lt(
                (#[trigger] rest[i]).balance,
                rest[k].balance,
            ) by {
                assert(rest[i] == list[i]);
            }
            law_last_of_equals_is_preferred(rest, k);
        } else {
            lemma_richest_is_listed(rest);
            let j = choose|j: int| 0 <= j < rest.len() && rest[j] == richest(rest);
            assert(list[j] == rest[j]);
        }
    }
}

/// An instrument with a listing has a venue.
proof fn lemma_listed_venues(listings: Seq<Listing>, id: Seq<char>, i: int)
    requires
        0 <= i < listings.len(),
        listings[i].instrument == id,
    ensures
        venues_of(listings, id).len() > 0,
    decreases listings.len(),
{
    if i < listings.len() - 1 {
        assert(listings.drop_last()[i] == listings[i]);
        lemma_listed_venues(listings.drop_last(), id, i);
    }
}

} // verus!
