//! What the pre-trade checks are for, in numbers: which orders are rejected and why, which are
//! made smaller and to what, and what the books are taken to hold once an order is filled.

use crate::agent_risk::{
    account_risk, all_resizes, all_violations, budget_violations, cash_violations,
    drawdown_violations, evaluation, instrument_forbidden, instrument_violations,
    leverage_violations, permission_violations, position_resize, projection, signal_violations,
    tightest, venue_forbidden, venue_violations, AgentRiskManager, OrderLimits, Projection, Resize,
};
use crate::decimal::{
    divides_exactly, multiplies_exactly, num, num_abs, num_div, num_le, num_lt, num_mul, num_neg,
    num_sub, num_text, num_zero, o_add, pow10, units, units_in_one, Num, MAX_SCALE,
};
use crate::limits::{
    AgentRiskLimits, InstrumentRiskLimits, RiskViolationView, VenueRiskLimits,
};
use crate::pipeline::OrderCore;
use crate::portfolio::{AgentAllocation, FirmBook, InstrumentExposure};
use crate::risk::{
    agent_at, instrument_at, projected, venue_at, venue_notional, venue_positions, EvaluationPath,
    RiskOutcomeView,
};
use crate::signal::Side;
use vstd::prelude::*;

verus! {

/// An order with what it is judged by.
pub struct Case {
    pub manager: AgentRiskManager,
    pub core: OrderCore,
    pub book: FirmBook,
    pub path: EvaluationPath,
}

/// What an order comes to; nothing where a number exceeds its range.
pub open spec fn judged(c: Case) -> Option<RiskOutcomeView> {
    evaluation(c.manager, c.core, c.book, c.path)
}

/// The limits of the order's agent.
pub open spec fn agent_limits(c: Case) -> AgentRiskLimits {
    c.manager.agent_limits@[c.core.agent_id@]
}

/// The limits of the order's instrument.
pub open spec fn instrument_limits(c: Case) -> InstrumentRiskLimits {
    c.manager.instrument_limits@[c.core.instrument_id@]
}

/// The limits of the order's venue.
pub open spec fn venue_limits(c: Case) -> VenueRiskLimits {
    c.manager.venue_limits@[c.core.venue_id@]
}

/// The allocation of the order's agent.
pub open spec fn allocation(c: Case) -> AgentAllocation {
    c.book.agent_allocations@[c.core.agent_id@]
}

/// Whether all that an order is judged by is there: a positive price and quantity, a positive
/// NAV on both sides, limits for its agent, instrument and venue, and an allocation.
pub open spec fn is_complete(c: Case) -> bool {
    &&& c.core.price matches Some(price) && price@.m > 0
    &&& c.core.qty@.m > 0
    &&& c.manager.nav@.m > 0
    &&& c.book.nav@.m > 0
    &&& c.manager.agent_limits@.contains_key(c.core.agent_id@)
    &&& c.manager.instrument_limits@.contains_key(c.core.instrument_id@)
    &&& c.manager.venue_limits@.contains_key(c.core.venue_id@)
    &&& c.book.agent_allocations@.contains_key(c.core.agent_id@)
}

/// The NAV that limits are taken of: the smaller of the two.
pub open spec fn smaller_nav(c: Case) -> Num {
    if num_lt(c.book.nav@, c.manager.nav@) {
        c.book.nav@
    } else {
        c.manager.nav@
    }
}

/// Without all that it is judged by, an order is rejected on every path.
pub proof fn law_incomplete_is_rejected(c: Case)
    requires
        !is_complete(c),
    ensures
        judged(c) matches Some(outcome) && outcome is Rejected,
{
}

/// What is missing is named, the first of: the price, a positive price, a positive quantity, a
/// positive NAV of the manager and of the firm, the agent's limits, its allocation, the
/// instrument's limits and the venue's.
pub proof fn law_what_is_missing_is_named(c: Case)
    requires
        !is_complete(c),
    ensures
        judged(c)->0 matches RiskOutcomeView::Rejected { violations } && violations.len() == 1 && {
            let name = violations[0].check_name;
            let priced = c.core.price is Some && c.core.price->0@.m > 0;
            let sized = priced && c.core.qty@.m > 0;
            let valued = sized && c.manager.nav@.m > 0 && c.book.nav@.m > 0;
            let known = valued && c.manager.agent_limits@.contains_key(c.core.agent_id@);
            let allocated = known && c.book.agent_allocations@.contains_key(c.core.agent_id@);
            let limited = allocated && c.manager.instrument_limits@.contains_key(
                c.core.instrument_id@,
            );
            &&& c.core.price is None ==> name == "order_price_required"@
            &&& c.core.price is Some && !priced ==> name == "order_price_positive"@
            &&& priced && !sized ==> name == "order_qty_positive"@
            &&& sized && c.manager.nav@.m <= 0 ==> name == "manager_nav_positive"@
            &&& sized && c.manager.nav@.m > 0 && c.book.nav@.m <= 0 ==> name
                == "firm_nav_positive"@
            &&& valued && !known ==> name == "agent_limits_present"@
            &&& known && !allocated ==> name == "agent_allocation_present"@
            &&& allocated && !limited ==> name == "instrument_limits_present"@
            &&& limited ==> name == "venue_limits_present"@
        },
{
}

/// Where an agent's limits list instruments, an order in another one is rejected on every
/// path, whatever else holds of it.
pub proof fn law_instrument_list_binds(c: Case, list: Seq<Seq<char>>)
    requires
        agent_limits(c).allowed_instruments matches Some(v) && v@.len() == list.len() && forall|
            i: int,
        |
            0 <= i < list.len() ==> (#[trigger] v@[i])@ == list[i],
        !list.contains(c.core.instrument_id@),
    ensures
        judged(c) matches Some(outcome) ==> outcome is Rejected,
{
    if is_complete(c) && judged(c) is Some {
        let v = agent_limits(c).allowed_instruments->0@;
        assert forall|i: int| 0 <= i < v.len() implies (#[trigger] v[i])@
            != c.core.instrument_id@ by {
            assert(v[i]@ == list[i]);
            assert(list.contains(list[i]));
        }
        law_rejected_exactly_where(c);
    }
}

/// Where an agent's limits list venues, an order at another one is rejected on every path,
/// whatever else holds of it.
pub proof fn law_venue_list_binds(c: Case, list: Seq<Seq<char>>)
    requires
        agent_limits(c).allowed_venues matches Some(v) && v@.len() == list.len() && forall|i: int|
            0 <= i < list.len() ==> (#[trigger] v@[i])@ == list[i],
        !list.contains(c.core.venue_id@),
    ensures
        judged(c) matches Some(outcome) ==> outcome is Rejected,
{
    if is_complete(c) && judged(c) is Some {
        let v = agent_limits(c).allowed_venues->0@;
        assert forall|i: int| 0 <= i < v.len() implies (#[trigger] v[i])@ != c.core.venue_id@ by {
            assert(v[i]@ == list[i]);
            assert(list.contains(list[i]));
        }
        law_rejected_exactly_where(c);
    }
}

// ─── What is held to the limits ───

/// Whether the agent may not trade the instrument.
pub open spec fn breaks_instrument_list(c: Case) -> bool {
    agent_limits(c).allowed_instruments matches Some(list) && forall|i: int|
        0 <= i < list@.len() ==> (#[trigger] list@[i])@ != c.core.instrument_id@
}

/// Whether the agent may not trade at the venue.
pub open spec fn breaks_venue_list(c: Case) -> bool {
    agent_limits(c).allowed_venues matches Some(list) && forall|i: int|
        0 <= i < list@.len() ==> (#[trigger] list@[i])@ != c.core.venue_id@
}

/// What an order may lose by the unit: the distance to its stop loss, or without one its
/// whole price.
pub open spec fn lost_by_unit(c: Case) -> Num {
    match c.core.stop_loss {
        Some(stop) => num_abs(num_sub(c.core.price->0@, stop@)->0),
        None => c.core.price->0@,
    }
}

/// What an order would gain by the unit at its take profit.
pub open spec fn won_by_unit(c: Case) -> Num {
    num_abs(num_sub(c.core.take_profit->0@, c.core.price->0@)->0)
}

/// The part of NAV that is cash once an order is paid.
pub open spec fn cash_part(c: Case, p: Projection) -> Num {
    num_div(num_sub(c.book.cash_available@, p.signed_notional)->0, smaller_nav(c))->0
}

/// Whether a signal has a stop loss and a take profit at some distance from the price whose
/// gain is less than twice what may be lost.
pub open spec fn gains_too_little(c: Case) -> bool {
    &&& c.path is SubmitSignal
    &&& c.core.stop_loss is Some
    &&& c.core.take_profit is Some
    &&& lost_by_unit(c).m > 0
    &&& num_lt(num_div(won_by_unit(c), lost_by_unit(c))->0, num(2, 0))
}

/// Whether an order breaks a hard limit, given what the books hold once it is filled.
pub open spec fn breaks_a_limit(c: Case, p: Projection) -> bool {
    let nav = smaller_nav(c);
    let (agent, instrument, venue) = (agent_limits(c), instrument_limits(c), venue_limits(c));
    // The agent's own lists, capital and limits.
    ||| breaks_instrument_list(c)
    ||| breaks_venue_list(c)
    ||| p.agent_free.m < 0
    ||| num_lt(agent.max_position_notional@, p.agent_instrument_gross)
    ||| num_lt(agent.max_gross_notional@, p.agent_gross)
    // Something must be lost at the stop.
    ||| lost_by_unit(c).m <= 0
    // Leverage is gross over free capital.
    ||| instrument.max_leverage@.m <= 0
    ||| p.agent_free.m <= 0
    ||| num_lt(instrument.max_leverage@, num_div(p.agent_gross, p.agent_free)->0)
    // The firm's drawdown and cash.
    ||| num_lt(c.book.current_drawdown_pct@, num(-15, 2))
    ||| num_lt(cash_part(c, p), num(20, 2))
    // The instrument's limits.
    ||| num_lt(instrument.max_net_qty@, num_abs(p.instrument_net_qty))
    ||| num_lt(instrument.max_gross_qty@, p.instrument_gross_qty)
    ||| num_lt(instrument.max_concentration_pct@, num_div(p.instrument_gross_notional, nav)->0)
    // The venue's limits.
    ||| num_lt(venue.max_notional@, p.venue_notional)
    ||| num_lt(venue.max_pct_of_nav@, num_div(p.venue_notional, nav)->0)
    ||| p.venue_positions > venue.max_positions
    // What a signal must define.
    ||| c.path is SubmitSignal && c.core.stop_loss is None
    ||| gains_too_little(c)
}

/// An order with all that it is judged by is rejected exactly where it breaks a hard limit.
#[verifier::rlimit(40)]
pub proof fn law_rejected_exactly_where(c: Case)
    requires
        is_complete(c),
        judged(c) is Some,
    ensures
        projection(c.core, c.core.price->0@, c.book, allocation(c)) matches Some(p) && (judged(
            c,
        )->0 is Rejected <==> breaks_a_limit(c, p)),
{
    let p = projection(c.core, c.core.price->0@, c.book, allocation(c))->0;
    let (price, nav) = (c.core.price->0@, smaller_nav(c));
    let limits = OrderLimits {
        agent: agent_limits(c),
        instrument: instrument_limits(c),
        venue: venue_limits(c),
    };
    let all = all_violations(c.core, price, nav, c.book, limits, c.path, p)->0;
    let agent = permission_violations(c.core, limits.agent) + budget_violations(p, limits.agent);
    let (risk, _) = account_risk(c.core, price, nav)->0;
    let leverage = leverage_violations(p, limits.instrument)->0;
    let firm = drawdown_violations(c.book) + cash_violations(p.signed_notional, nav, c.book)->0;
    let by_instrument = instrument_violations(p, nav, limits.instrument)->0;
    let by_venue = venue_violations(p, nav, limits.venue)->0;
    let by_signal = if c.path is SubmitSignal {
        signal_violations(c.core, price)->0
    } else {
        seq![]
    };
    assert(all.len() == agent.len() + risk.len() + leverage.len() + firm.len()
        + by_instrument.len() + by_venue.len() + by_signal.len());
    assert(agent.len() > 0 <==> breaks_instrument_list(c) || breaks_venue_list(c)
        || p.agent_free.m < 0 || num_lt(
        limits.agent.max_position_notional@,
        p.agent_instrument_gross,
    ) || num_lt(limits.agent.max_gross_notional@, p.agent_gross));
    assert(risk.len() > 0 <==> lost_by_unit(c).m <= 0);
    assert(by_signal.len() > 0 ==> c.path is SubmitSignal);
    assert(c.path is SubmitSignal && c.core.stop_loss is None ==> by_signal.len() > 0);
}

// ─── Sizes ───

/// An order that breaks no hard limit is approved as it is where it amounts to at most five
/// percent of NAV and may lose at most one percent of it. Otherwise it is made smaller: to
/// what the cap that it exceeds allows, and where it exceeds both, to the smaller of the two.
pub proof fn law_size(c: Case, by_price: Num, by_loss: Num)
    requires
        is_complete(c),
        judged(c) is Some,
        !(judged(c)->0 is Rejected),
        num_mul(smaller_nav(c), num(5, 2)) is Some,
        num_mul(smaller_nav(c), num(1, 2)) is Some,
        num_div(num_mul(smaller_nav(c), num(5, 2))->0, c.core.price->0@) == Some(by_price),
        num_div(num_mul(smaller_nav(c), num(1, 2))->0, lost_by_unit(c)) == Some(by_loss),
    ensures
        ({
            let amounts_to_more = num_lt(
                num_mul(smaller_nav(c), num(5, 2))->0,
                num_mul(c.core.qty@, c.core.price->0@)->0,
            );
            let may_lose_more = num_lt(
                num_mul(smaller_nav(c), num(1, 2))->0,
                num_mul(c.core.qty@, lost_by_unit(c))->0,
            );
            &&& judged(c)->0 is Approved <==> !amounts_to_more && !may_lose_more
            &&& judged(c)->0 matches RiskOutcomeView::Resized { new_qty, reason, warnings } ==> {
                &&& warnings.len() == 1
                &&& {
                    ||| new_qty == by_price && reason
                        == "position notional exceeds 5% NAV; resize to the 5% cap"@
                        && warnings[0].check_name == "position_notional_pct"@
                    ||| new_qty == by_loss && reason
                        == "projected account risk exceeds 1% NAV; resize to the max-loss cap"@
                        && warnings[0].check_name == "account_risk_pct"@
                }
                &&& !may_lose_more ==> new_qty == by_price
                &&& !amounts_to_more ==> new_qty == by_loss
                &&& amounts_to_more ==> num_le(new_qty, by_price)
                &&& may_lose_more ==> num_le(new_qty, by_loss)
            }
        }),
{
    law_rejected_exactly_where(c);
    let p = projection(c.core, c.core.price->0@, c.book, allocation(c))->0;
    let (price, nav) = (c.core.price->0@, smaller_nav(c));
    let by_position = position_resize(p.order_notional, price, nav)->0;
    let (_, by_risk) = account_risk(c.core, price, nav)->0;
    let all = all_resizes(c.core, price, nav, p)->0;
    assert(all == by_position + by_risk);
    assert(by_position.len() <= 1 && by_risk.len() <= 1);
    lemma_tightest_of_two(by_position, by_risk);
}

/// Of at most one size from each of two rules the smaller is taken.
proof fn lemma_tightest_of_two(a: Seq<Resize>, b: Seq<Resize>)
    requires
        a.len() <= 1,
        b.len() <= 1,
    ensures
        tightest(a + b) is None <==> a.len() == 0 && b.len() == 0,
        tightest(a + b) matches Some(t) ==> {
            &&& a.len() == 0 ==> t == b[0]
            &&& b.len() == 0 ==> t == a[0]
            &&& t == a[0] || t == b[0]
            &&& a.len() == 1 ==> num_le(t.new_qty, a[0].new_qty)
            &&& b.len() == 1 ==> num_le(t.new_qty, b[0].new_qty)
        },
{
    reveal_with_fuel(tightest, 3);
    let all = a + b;
    if a.len() == 1 && b.len() == 1 {
        assert(all.drop_last() =~= a);
        assert(a.drop_last() =~= Seq::<Resize>::empty());
    } else if a.len() == 1 {
        assert(all =~= a);
        assert(a.drop_last() =~= Seq::<Resize>::empty());
    } else {
        assert(all =~= b);
        if b.len() == 1 {
            assert(b.drop_last() =~= Seq::<Resize>::empty());
        }
    }
}

/// Where nothing is rounded, what an order is made smaller to amounts to at most a twentieth
/// of NAV, or may lose at most a hundredth of it, as the cap that it exceeded asks.
pub proof fn law_size_is_a_part_of_nav(c: Case, by_price: Num, by_loss: Num)
    requires
        is_complete(c),
        judged(c) is Some,
        !(judged(c)->0 is Rejected),
        multiplies_exactly(smaller_nav(c), num(5, 2)),
        multiplies_exactly(smaller_nav(c), num(1, 2)),
        divides_exactly(num_mul(smaller_nav(c), num(5, 2))->0, c.core.price->0@),
        divides_exactly(num_mul(smaller_nav(c), num(1, 2))->0, lost_by_unit(c)),
        num_div(num_mul(smaller_nav(c), num(5, 2))->0, c.core.price->0@) == Some(by_price),
        num_div(num_mul(smaller_nav(c), num(1, 2))->0, lost_by_unit(c)) == Some(by_loss),
    ensures
        ({
            let nav = units(smaller_nav(c)) * units_in_one();
            &&& 20 * (units(by_price) * units(c.core.price->0@)) == nav
            &&& 100 * (units(by_loss) * units(lost_by_unit(c))) == nav
            &&& judged(c)->0 matches RiskOutcomeView::Resized { new_qty, .. } ==> {
                ||| 20 * (units(new_qty) * units(c.core.price->0@)) == nav
                ||| 100 * (units(new_qty) * units(lost_by_unit(c))) == nav
            }
        }),
{
    law_size(c, by_price, by_loss);
    let (n, k) = (units(smaller_nav(c)), units_in_one());
    let (cap5, cap1) = (
        units(num_mul(smaller_nav(c), num(5, 2))->0),
        units(num_mul(smaller_nav(c), num(1, 2))->0),
    );
    let h = pow10((MAX_SCALE - 2) as nat) as int;
    assert(k == 100 * h && h > 0) by {
        crate::decimal::lemma_pow10_positive((MAX_SCALE - 2) as nat);
        reveal_with_fuel(pow10, 3);
    }
    assert(20 * cap5 == n) by (nonlinear_arith)
        requires
            cap5 * k == n * (5 * h),
            k == 100 * h,
            h > 0,
    ;
    assert(100 * cap1 == n) by (nonlinear_arith)
        requires
            cap1 * k == n * (1 * h),
            k == 100 * h,
            h > 0,
    ;
    assert(20 * (cap5 * k) == n * k) by (nonlinear_arith)
        requires
            20 * cap5 == n,
    ;
    assert(100 * (cap1 * k) == n * k) by (nonlinear_arith)
        requires
            100 * cap1 == n,
    ;
}

/// An order with all that it is judged by is judged wherever the numbers that it is held to
/// stay in their range.
pub proof fn law_judgement_is_owed(c: Case, p: Projection)
    requires
        is_complete(c),
        projection(c.core, c.core.price->0@, c.book, allocation(c)) == Some(p),
        num_mul(smaller_nav(c), num(5, 2)) matches Some(cap) && num_div(
            cap,
            c.core.price->0@,
        ) is Some,
        c.core.stop_loss matches Some(stop) ==> num_sub(c.core.price->0@, stop@) is Some,
        num_mul(smaller_nav(c), num(1, 2)) matches Some(cap) && (lost_by_unit(c).m > 0 ==> num_mul(
            c.core.qty@,
            lost_by_unit(c),
        ) is Some && num_div(cap, lost_by_unit(c)) is Some),
        p.agent_free.m > 0 ==> num_div(p.agent_gross, p.agent_free) is Some,
        num_sub(c.book.cash_available@, p.signed_notional) matches Some(cash) && num_div(
            cash,
            smaller_nav(c),
        ) is Some,
        num_div(p.instrument_gross_notional, smaller_nav(c)) is Some,
        num_div(p.venue_notional, smaller_nav(c)) is Some,
        c.core.stop_loss is Some && lost_by_unit(c).m > 0 ==> (
        c.core.take_profit matches Some(target) ==> (num_sub(
            target@,
            c.core.price->0@,
        ) matches Some(way) && num_div(num_abs(way), lost_by_unit(c)) is Some)),
    ensures
        judged(c) is Some,
{
    let (price, nav) = (c.core.price->0@, smaller_nav(c));
    let limits = OrderLimits {
        agent: agent_limits(c),
        instrument: instrument_limits(c),
        venue: venue_limits(c),
    };
    assert(account_risk(c.core, price, nav) is Some);
    assert(position_resize(p.order_notional, price, nav) is Some);
    assert(leverage_violations(p, limits.instrument) is Some);
    assert(cash_violations(p.signed_notional, nav, c.book) is Some);
    assert(instrument_violations(p, nav, limits.instrument) is Some);
    assert(venue_violations(p, nav, limits.venue) is Some);
    assert(c.path is SubmitSignal ==> signal_violations(c.core, price) is Some);
    assert(all_violations(c.core, price, nav, c.book, limits, c.path, p) is Some);
}

// ─── What a rejection says ───

/// Whether a list of violations names a check, with a value, the limit it was held to, and what
/// to do about it.
pub open spec fn names(
    violations: Seq<RiskViolationView>,
    check: Seq<char>,
    value: Seq<char>,
    limit: Seq<char>,
    advice: Seq<char>,
) -> bool {
    exists|k: int|
        {
            &&& 0 <= k < violations.len()
            &&& (#[trigger] violations[k]).check_name == check
            &&& violations[k].current_value == value
            &&& violations[k].limit == limit
            &&& violations[k].suggested_action == advice
        }
}

/// What a list of violations names, a longer one names too.
proof fn lemma_joined_names(a: Seq<RiskViolationView>, b: Seq<RiskViolationView>)
    ensures
        forall|n: Seq<char>, v: Seq<char>, l: Seq<char>, t: Seq<char>| #[trigger]
            names(a, n, v, l, t) ==> names(a + b, n, v, l, t),
        forall|n: Seq<char>, v: Seq<char>, l: Seq<char>, t: Seq<char>| #[trigger]
            names(b, n, v, l, t) ==> names(a + b, n, v, l, t),
{
    assert forall|n: Seq<char>, v: Seq<char>, l: Seq<char>, t: Seq<char>| #[trigger]
        names(a, n, v, l, t) implies names(a + b, n, v, l, t) by {
        let k = choose|k: int|
            {
                &&& 0 <= k < a.len()
                &&& (#[trigger] a[k]).check_name == n
                &&& a[k].current_value == v
                &&& a[k].limit == l
                &&& a[k].suggested_action == t
            };
        assert((a + b)[k] == a[k]);
    }
    assert forall|n: Seq<char>, v: Seq<char>, l: Seq<char>, t: Seq<char>| #[trigger]
        names(b, n, v, l, t) implies names(a + b, n, v, l, t) by {
        let k = choose|k: int|
            {
                &&& 0 <= k < b.len()
                &&& (#[trigger] b[k]).check_name == n
                &&& b[k].current_value == v
                &&& b[k].limit == l
                &&& b[k].suggested_action == t
            };
        assert((a + b)[a.len() + k] == b[k]);
    }
}

/// One violation names its check.
proof fn lemma_one_names(v: RiskViolationView)
    ensures
        names(seq![v], v.check_name, v.current_value, v.limit, v.suggested_action),
{
    assert(seq![v][0] == v);
}

/// What the agent's permissions and budget name.
proof fn lemma_agent_names(core: OrderCore, limits: AgentRiskLimits, p: Projection)
    ensures
        ({
            let all = permission_violations(core, limits) + budget_violations(p, limits);
            &&& (limits.allowed_instruments matches Some(list) && forall|i: int|
                0 <= i < list@.len() ==> (#[trigger] list@[i])@ != core.instrument_id@) ==> names(
                all,
                "agent_allowed_instruments"@,
                core.instrument_id@,
                "instrument in agent whitelist"@,
                "reject"@ + ": "@ + "agent is not permitted to trade this instrument"@,
            )
            &&& (limits.allowed_venues matches Some(list) && forall|i: int|
                0 <= i < list@.len() ==> (#[trigger] list@[i])@ != core.venue_id@) ==> names(
                all,
                "agent_allowed_venues"@,
                core.venue_id@,
                "venue in agent whitelist"@,
                "reject"@ + ": "@ + "agent is not permitted to trade this venue"@,
            )
            &&& p.agent_free.m < 0 ==> names(
                all,
                "agent_free_capital"@,
                num_text(p.agent_free),
                num_text(num_zero()),
                "reject"@ + ": "@ + "order exceeds the agent's free capital"@,
            )
            &&& num_lt(limits.max_position_notional@, p.agent_instrument_gross) ==> names(
                all,
                "agent_max_position_notional"@,
                num_text(p.agent_instrument_gross),
                num_text(limits.max_position_notional@),
                "reject"@ + ": "@ + "order exceeds the agent's max single-position notional"@,
            )
            &&& num_lt(limits.max_gross_notional@, p.agent_gross) ==> names(
                all,
                "agent_max_gross_notional"@,
                num_text(p.agent_gross),
                num_text(limits.max_gross_notional@),
                "reject"@ + ": "@ + "projected agent gross notional exceeds the configured cap"@,
            )
        }),
{
    let permissions = permission_violations(core, limits);
    let budget = budget_violations(p, limits);
    lemma_joined_names(permissions, budget);
    let no_instrument = instrument_forbidden(limits, core.instrument_id@);
    let no_venue = venue_forbidden(limits, core.venue_id@);
    let at: int = if no_instrument {
        1
    } else {
        0
    };
    assert(no_instrument ==> permissions[0].check_name == "agent_allowed_instruments"@);
    assert(no_instrument ==> names(
        permissions,
        "agent_allowed_instruments"@,
        core.instrument_id@,
        "instrument in agent whitelist"@,
        "reject"@ + ": "@ + "agent is not permitted to trade this instrument"@,
    ));
    assert(no_venue ==> permissions[at].check_name == "agent_allowed_venues"@);
    assert(no_venue ==> names(
        permissions,
        "agent_allowed_venues"@,
        core.venue_id@,
        "venue in agent whitelist"@,
        "reject"@ + ": "@ + "agent is not permitted to trade this venue"@,
    ));
    let over_free: int = if p.agent_free.m < 0 {
        1
    } else {
        0
    };
    let over_position = num_lt(limits.max_position_notional@, p.agent_instrument_gross);
    let next: int = over_free + (if over_position {
        1int
    } else {
        0int
    });
    assert(p.agent_free.m < 0 ==> budget[0].check_name == "agent_free_capital"@);
    assert(p.agent_free.m < 0 ==> names(
        budget,
        "agent_free_capital"@,
        num_text(p.agent_free),
        num_text(num_zero()),
        "reject"@ + ": "@ + "order exceeds the agent's free capital"@,
    ));
    assert(over_position ==> budget[over_free].check_name == "agent_max_position_notional"@);
    assert(over_position ==> names(
        budget,
        "agent_max_position_notional"@,
        num_text(p.agent_instrument_gross),
        num_text(limits.max_position_notional@),
        "reject"@ + ": "@ + "order exceeds the agent's max single-position notional"@,
    ));
    let over_gross = num_lt(limits.max_gross_notional@, p.agent_gross);
    assert(over_gross ==> budget[next].check_name == "agent_max_gross_notional"@);
    assert(over_gross ==> names(
        budget,
        "agent_max_gross_notional"@,
        num_text(p.agent_gross),
        num_text(limits.max_gross_notional@),
        "reject"@ + ": "@ + "projected agent gross notional exceeds the configured cap"@,
    ));
}

/// What an instrument's and a venue's limits name.
proof fn lemma_exposure_names(
    p: Projection,
    nav: Num,
    instrument: InstrumentRiskLimits,
    venue: VenueRiskLimits,
)
    requires
        instrument_violations(p, nav, instrument) is Some,
        venue_violations(p, nav, venue) is Some,
    ensures
        ({
            let a = instrument_violations(p, nav, instrument)->0;
            let b = venue_violations(p, nav, venue)->0;
            &&& num_lt(instrument.max_net_qty@, num_abs(p.instrument_net_qty)) ==> names(
                a,
                "instrument_max_net_qty"@,
                num_text(num_abs(p.instrument_net_qty)),
                num_text(instrument.max_net_qty@),
                "reject"@ + ": "@ + "projected instrument net quantity exceeds the configured cap"@,
            )
            &&& num_lt(instrument.max_gross_qty@, p.instrument_gross_qty) ==> names(
                a,
                "instrument_max_gross_qty"@,
                num_text(p.instrument_gross_qty),
                num_text(instrument.max_gross_qty@),
                "reject"@ + ": "@ + "projected instrument gross quantity exceeds the configured cap"@,
            )
            &&& num_lt(
                instrument.max_concentration_pct@,
                num_div(p.instrument_gross_notional, nav)->0,
            ) ==> names(
                a,
                "instrument_max_concentration_pct"@,
                num_text(num_div(p.instrument_gross_notional, nav)->0),
                num_text(instrument.max_concentration_pct@),
                "reject"@ + ": "@ + "projected instrument exposure exceeds the concentration cap"@,
            )
            &&& num_lt(venue.max_notional@, p.venue_notional) ==> names(
                b,
                "venue_max_notional"@,
                num_text(p.venue_notional),
                num_text(venue.max_notional@),
                "reject"@ + ": "@ + "projected venue notional exceeds the configured cap"@,
            )
            &&& num_lt(venue.max_pct_of_nav@, num_div(p.venue_notional, nav)->0) ==> names(
                b,
                "venue_max_pct_of_nav"@,
                num_text(num_div(p.venue_notional, nav)->0),
                num_text(venue.max_pct_of_nav@),
                "reject"@ + ": "@ + "projected venue concentration exceeds the NAV cap"@,
            )
            &&& p.venue_positions > venue.max_positions ==> names(
                b,
                "venue_max_positions"@,
                num_text(num(p.venue_positions as int, 0)),
                num_text(num(venue.max_positions as int, 0)),
                "reject"@ + ": "@ + "projected venue position count exceeds the configured cap"@,
            )
        }),
{
    let a = instrument_violations(p, nav, instrument)->0;
    let b = venue_violations(p, nav, venue)->0;
    assert(a.len() > 0 ==> a[0].check_name == a[0].check_name);
    assert(a.len() > 1 ==> a[1].check_name == a[1].check_name);
    assert(a.len() > 2 ==> a[2].check_name == a[2].check_name);
    assert(b.len() > 0 ==> b[0].check_name == b[0].check_name);
    assert(b.len() > 1 ==> b[1].check_name == b[1].check_name);
    assert(b.len() > 2 ==> b[2].check_name == b[2].check_name);
}

/// Whether what one list of violations names, another does.
spec fn passes_on(part: Seq<RiskViolationView>, all: Seq<RiskViolationView>) -> bool {
    forall|n: Seq<char>, v: Seq<char>, l: Seq<char>, t: Seq<char>| #[trigger]
        names(part, n, v, l, t) ==> names(all, n, v, l, t)
}

/// What is passed on is passed on with more after it.
proof fn lemma_passed_on(
    part: Seq<RiskViolationView>,
    all: Seq<RiskViolationView>,
    more: Seq<RiskViolationView>,
)
    requires
        passes_on(part, all),
    ensures
        passes_on(part, all + more),
{
    lemma_joined_names(all, more);
    assert forall|n: Seq<char>, v: Seq<char>, l: Seq<char>, t: Seq<char>| #[trigger]
        names(part, n, v, l, t) implies names(all + more, n, v, l, t) by {
        assert(names(all, n, v, l, t));
    }
}

/// A list and what follows it are both passed on.
proof fn lemma_both_passed_on(a: Seq<RiskViolationView>, b: Seq<RiskViolationView>)
    ensures
        passes_on(a, a + b),
        passes_on(b, a + b),
{
    lemma_joined_names(a, b);
}

/// What an order is rejected for; nothing where it is not rejected.
pub open spec fn broken(c: Case) -> Seq<RiskViolationView> {
    match judged(c) {
        Some(RiskOutcomeView::Rejected { violations }) => violations,
        _ => seq![],
    }
}

/// Everything that a check names is named by what the order is rejected for.
proof fn lemma_parts_are_named(c: Case, p: Projection)
    requires
        is_complete(c),
        judged(c) is Some,
        projection(c.core, c.core.price->0@, c.book, allocation(c)) == Some(p),
    ensures
        ({
            let (price, nav) = (c.core.price->0@, smaller_nav(c));
            let all = broken(c);
            let agent = agent_limits(c);
            &&& passes_on(
                permission_violations(c.core, agent) + budget_violations(p, agent),
                all,
            )
            &&& account_risk(c.core, price, nav) matches Some((risk, _)) && passes_on(risk, all)
            &&& leverage_violations(p, instrument_limits(c)) matches Some(v) && passes_on(v, all)
            &&& passes_on(drawdown_violations(c.book), all)
            &&& cash_violations(p.signed_notional, nav, c.book) matches Some(v) && passes_on(v, all)
            &&& instrument_violations(p, nav, instrument_limits(c)) matches Some(v) && passes_on(
                v,
                all,
            )
            &&& venue_violations(p, nav, venue_limits(c)) matches Some(v) && passes_on(v, all)
            &&& c.path is SubmitSignal ==> (signal_violations(c.core, price) matches Some(v)
                && passes_on(v, all))
        }),
{
    let (price, nav) = (c.core.price->0@, smaller_nav(c));
    let limits = OrderLimits {
        agent: agent_limits(c),
        instrument: instrument_limits(c),
        venue: venue_limits(c),
    };
    let all = all_violations(c.core, price, nav, c.book, limits, c.path, p)->0;
    let agent = permission_violations(c.core, limits.agent) + budget_violations(p, limits.agent);
    let (risk, _) = account_risk(c.core, price, nav)->0;
    let leverage = leverage_violations(p, limits.instrument)->0;
    let drawdown = drawdown_violations(c.book);
    let cash = cash_violations(p.signed_notional, nav, c.book)->0;
    let by_instrument = instrument_violations(p, nav, limits.instrument)->0;
    let by_venue = venue_violations(p, nav, limits.venue)->0;
    let by_signal = if c.path is SubmitSignal {
        signal_violations(c.core, price)->0
    } else {
        seq![]
    };
    let s1 = agent + risk;
    let s2 = s1 + leverage;
    let s3 = s2 + drawdown;
    let s4 = s3 + cash;
    let s5 = s4 + by_instrument;
    let s6 = s5 + by_venue;
    let s7 = s6 + by_signal;
    assert(s7 =~= all);
    lemma_both_passed_on(agent, risk);
    lemma_both_passed_on(s1, leverage);
    lemma_both_passed_on(s2, drawdown);
    lemma_both_passed_on(s3, cash);
    lemma_both_passed_on(s4, by_instrument);
    lemma_both_passed_on(s5, by_venue);
    lemma_both_passed_on(s6, by_signal);
    lemma_passed_on(agent, s1, leverage);
    lemma_passed_on(agent, s2, drawdown);
    lemma_passed_on(agent, s3, cash);
    lemma_passed_on(agent, s4, by_instrument);
    lemma_passed_on(agent, s5, by_venue);
    lemma_passed_on(agent, s6, by_signal);
    lemma_passed_on(risk, s1, leverage);
    lemma_passed_on(risk, s2, drawdown);
    lemma_passed_on(risk, s3, cash);
    lemma_passed_on(risk, s4, by_instrument);
    lemma_passed_on(risk, s5, by_venue);
    lemma_passed_on(risk, s6, by_signal);
    lemma_passed_on(leverage, s2, drawdown);
    lemma_passed_on(leverage, s3, cash);
    lemma_passed_on(leverage, s4, by_instrument);
    lemma_passed_on(leverage, s5, by_venue);
    lemma_passed_on(leverage, s6, by_signal);
    lemma_passed_on(drawdown, s3, cash);
    lemma_passed_on(drawdown, s4, by_instrument);
    lemma_passed_on(drawdown, s5, by_venue);
    lemma_passed_on(drawdown, s6, by_signal);
    lemma_passed_on(cash, s4, by_instrument);
    lemma_passed_on(cash, s5, by_venue);
    lemma_passed_on(cash, s6, by_signal);
    lemma_passed_on(by_instrument, s5, by_venue);
    lemma_passed_on(by_instrument, s6, by_signal);
    lemma_passed_on(by_venue, s6, by_signal);
    assert(all.len() == 0 ==> broken(c) =~= all);
}

/// What of the agent's own limits an order breaks is named, with the value and the limit.
pub proof fn law_agent_limits_are_named(c: Case, p: Projection)
    requires
        is_complete(c),
        judged(c) is Some,
        projection(c.core, c.core.price->0@, c.book, allocation(c)) == Some(p),
    ensures
        ({
            let violations = broken(c);
            let agent = agent_limits(c);
            &&& breaks_instrument_list(c) ==> names(
                violations,
                "agent_allowed_instruments"@,
                c.core.instrument_id@,
                "instrument in agent whitelist"@,
                "reject"@ + ": "@ + "agent is not permitted to trade this instrument"@,
            )
            &&& breaks_venue_list(c) ==> names(
                violations,
                "agent_allowed_venues"@,
                c.core.venue_id@,
                "venue in agent whitelist"@,
                "reject"@ + ": "@ + "agent is not permitted to trade this venue"@,
            )
            &&& p.agent_free.m < 0 ==> names(
                violations,
                "agent_free_capital"@,
                num_text(p.agent_free),
                num_text(num_zero()),
                "reject"@ + ": "@ + "order exceeds the agent's free capital"@,
            )
            &&& num_lt(agent.max_position_notional@, p.agent_instrument_gross) ==> names(
                violations,
                "agent_max_position_notional"@,
                num_text(p.agent_instrument_gross),
                num_text(agent.max_position_notional@),
                "reject"@ + ": "@ + "order exceeds the agent's max single-position notional"@,
            )
            &&& num_lt(agent.max_gross_notional@, p.agent_gross) ==> names(
                violations,
                "agent_max_gross_notional"@,
                num_text(p.agent_gross),
                num_text(agent.max_gross_notional@),
                "reject"@ + ": "@ + "projected agent gross notional exceeds the configured cap"@,
            )
        }),
{
    lemma_parts_are_named(c, p);
    lemma_agent_names(c.core, agent_limits(c), p);
}

/// That an order has nothing to lose at its stop, and what of the leverage it breaks, is named.
pub proof fn law_risk_and_leverage_are_named(c: Case, p: Projection)
    requires
        is_complete(c),
        judged(c) is Some,
        projection(c.core, c.core.price->0@, c.book, allocation(c)) == Some(p),
    ensures
        ({
            let violations = broken(c);
            let instrument = instrument_limits(c);
            &&& lost_by_unit(c).m <= 0 ==> names(
                violations,
                "account_risk_distance_positive"@,
                num_text(lost_by_unit(c)),
                num_text(num_zero()),
                "reject"@ + ": "@ + "entry price and stop loss must define a positive loss distance"@,
            )
            &&& instrument.max_leverage@.m <= 0 ==> names(
                violations,
                "instrument_max_leverage_positive"@,
                num_text(instrument.max_leverage@),
                num_text(num_zero()),
                "reject"@ + ": "@ + "instrument max leverage must be positive"@,
            )
            &&& instrument.max_leverage@.m > 0 && p.agent_free.m <= 0 ==> names(
                violations,
                "agent_free_capital_positive"@,
                num_text(p.agent_free),
                num_text(num_zero()),
                "reject"@ + ": "@ + "agent free capital must be positive to evaluate leverage"@,
            )
            &&& instrument.max_leverage@.m > 0 && p.agent_free.m > 0 && num_lt(
                instrument.max_leverage@,
                num_div(p.agent_gross, p.agent_free)->0,
            ) ==> names(
                violations,
                "instrument_max_leverage"@,
                num_text(num_div(p.agent_gross, p.agent_free)->0),
                num_text(instrument.max_leverage@),
                "reject"@ + ": "@ + "projected leverage exceeds the instrument leverage cap"@,
            )
        }),
{
    lemma_parts_are_named(c, p);
    let (price, nav) = (c.core.price->0@, smaller_nav(c));
    let (risk, _) = account_risk(c.core, price, nav)->0;
    let leverage = leverage_violations(p, instrument_limits(c))->0;
    if risk.len() > 0 {
        lemma_one_names(risk[0]);
        assert(risk =~= seq![risk[0]]);
    }
    if leverage.len() > 0 {
        lemma_one_names(leverage[0]);
        assert(leverage =~= seq![leverage[0]]);
    }
}

/// A drawdown beyond the halt and a cash reserve below its part of NAV are named.
pub proof fn law_firm_limits_are_named(c: Case, p: Projection)
    requires
        is_complete(c),
        judged(c) is Some,
        projection(c.core, c.core.price->0@, c.book, allocation(c)) == Some(p),
    ensures
        ({
            let violations = broken(c);
            &&& num_lt(c.book.current_drawdown_pct@, num(-15, 2)) ==> names(
                violations,
                "firm_drawdown_pct"@,
                num_text(c.book.current_drawdown_pct@),
                num_text(num(-15, 2)),
                "halt_all"@ + ": "@ + "firm drawdown breached the 15% halt threshold"@,
            )
            &&& num_lt(cash_part(c, p), num(20, 2)) ==> names(
                violations,
                "cash_reserve_pct"@,
                num_text(cash_part(c, p)),
                num_text(num(20, 2)),
                "reject"@ + ": "@ + "projected cash reserve falls below the 20% NAV minimum"@,
            )
        }),
{
    lemma_parts_are_named(c, p);
    let drawdown = drawdown_violations(c.book);
    let cash = cash_violations(p.signed_notional, smaller_nav(c), c.book)->0;
    if drawdown.len() > 0 {
        lemma_one_names(drawdown[0]);
        assert(drawdown =~= seq![drawdown[0]]);
    }
    if cash.len() > 0 {
        lemma_one_names(cash[0]);
        assert(cash =~= seq![cash[0]]);
    }
}

/// What of the instrument's and the venue's limits an order breaks is named.
pub proof fn law_exposure_limits_are_named(c: Case, p: Projection)
    requires
        is_complete(c),
        judged(c) is Some,
        projection(c.core, c.core.price->0@, c.book, allocation(c)) == Some(p),
    ensures
        ({
            let violations = broken(c);
            let nav = smaller_nav(c);
            let (instrument, venue) = (instrument_limits(c), venue_limits(c));
            &&& num_lt(instrument.max_net_qty@, num_abs(p.instrument_net_qty)) ==> names(
                violations,
                "instrument_max_net_qty"@,
                num_text(num_abs(p.instrument_net_qty)),
                num_text(instrument.max_net_qty@),
                "reject"@ + ": "@ + "projected instrument net quantity exceeds the configured cap"@,
            )
            &&& num_lt(instrument.max_gross_qty@, p.instrument_gross_qty) ==> names(
                violations,
                "instrument_max_gross_qty"@,
                num_text(p.instrument_gross_qty),
                num_text(instrument.max_gross_qty@),
                "reject"@ + ": "@ + "projected instrument gross quantity exceeds the configured cap"@,
            )
            &&& num_lt(
                instrument.max_concentration_pct@,
                num_div(p.instrument_gross_notional, nav)->0,
            ) ==> names(
                violations,
                "instrument_max_concentration_pct"@,
                num_text(num_div(p.instrument_gross_notional, nav)->0),
                num_text(instrument.max_concentration_pct@),
                "reject"@ + ": "@ + "projected instrument exposure exceeds the concentration cap"@,
            )
            &&& num_lt(venue.max_notional@, p.venue_notional) ==> names(
                violations,
                "venue_max_notional"@,
                num_text(p.venue_notional),
                num_text(venue.max_notional@),
                "reject"@ + ": "@ + "projected venue notional exceeds the configured cap"@,
            )
            &&& num_lt(venue.max_pct_of_nav@, num_div(p.venue_notional, nav)->0) ==> names(
                violations,
                "venue_max_pct_of_nav"@,
                num_text(num_div(p.venue_notional, nav)->0),
                num_text(venue.max_pct_of_nav@),
                "reject"@ + ": "@ + "projected venue concentration exceeds the NAV cap"@,
            )
            &&& p.venue_positions > venue.max_positions ==> names(
                violations,
                "venue_max_positions"@,
                num_text(num(p.venue_positions as int, 0)),
                num_text(num(venue.max_positions as int, 0)),
                "reject"@ + ": "@ + "projected venue position count exceeds the configured cap"@,
            )
        }),
{
    lemma_parts_are_named(c, p);
    lemma_exposure_names(p, smaller_nav(c), instrument_limits(c), venue_limits(c));
}

/// That a signal has no stop loss, or gains too little for what it may lose, is named.
pub proof fn law_signal_rules_are_named(c: Case, p: Projection)
    requires
        is_complete(c),
        judged(c) is Some,
        projection(c.core, c.core.price->0@, c.book, allocation(c)) == Some(p),
    ensures
        ({
            let violations = broken(c);
            &&& c.path is SubmitSignal && c.core.stop_loss is None ==> names(
                violations,
                "signal_stop_loss_required"@,
                "missing"@,
                "present"@,
                "reject"@ + ": "@ + "SubmitSignal orders must define a stop loss"@,
            )
            &&& gains_too_little(c) ==> names(
                violations,
                "signal_risk_reward_ratio"@,
                num_text(num_div(won_by_unit(c), lost_by_unit(c))->0),
                num_text(num(2, 0)),
                "reject"@ + ": "@ + "signal risk/reward ratio is below 2:1"@,
            )
        }),
{
    lemma_parts_are_named(c, p);
    if c.path is SubmitSignal {
        let by_signal = signal_violations(c.core, c.core.price->0@)->0;
        if by_signal.len() > 0 {
            lemma_one_names(by_signal[0]);
            assert(by_signal =~= seq![by_signal[0]]);
        }
    }
}

// ─── What the books are taken to hold ───

/// Whether an exposure is the first one in the order's instrument.
pub open spec fn is_first_in(s: Seq<InstrumentExposure>, id: Seq<char>, i: int) -> bool {
    &&& 0 <= i < s.len()
    &&& s[i].instrument@ == id
    &&& forall|j: int| 0 <= j < i ==> (#[trigger] s[j]).instrument@ != id
}

/// A number as it is to buy, and with its sign turned to sell.
pub open spec fn by_side(side: Side, n: Num) -> Num {
    if side is Buy {
        n
    } else {
        num_neg(n)
    }
}

/// The exposure that is looked up is the first one in the instrument.
proof fn lemma_first_in(s: Seq<InstrumentExposure>, id: Seq<char>, from: int)
    requires
        0 <= from <= s.len(),
    ensures
        match instrument_at(s, id, from) {
            Some(i) => {
                &&& from <= i < s.len()
                &&& s[i].instrument@ == id
                &&& forall|j: int| from <= j < i ==> (#[trigger] s[j]).instrument@ != id
            },
            None => forall|j: int| from <= j < s.len() ==> (#[trigger] s[j]).instrument@ != id,
        },
    decreases s.len() - from,
{
    if from < s.len() && s[from].instrument@ != id {
        lemma_first_in(s, id, from + 1);
    }
}

/// What an order does to the books: it amounts to its quantity times its price, with the
/// sign of its side. In the instrument the firm's quantity and notional move by it. The
/// agent's gross moves by as much as its notional in the instrument does, and so does what
/// is held at the venue; what is free is what is allocated less the agent's gross. A position
/// is added at the venue where the instrument is not held there yet.
pub proof fn law_projection(
    core: OrderCore,
    price: Num,
    book: FirmBook,
    allocation: AgentAllocation,
    p: Projection,
    i: int,
)
    requires
        projection(core, price, book, allocation) == Some(p),
        is_first_in(book.instruments@, core.instrument_id@, i),
    ensures
        ({
            let e = book.instruments@[i];
            let notional = by_side(core.side, p.order_notional);
            let agent = agent_at(e.by_agent@, core.agent_id@, 0);
            let venue = venue_at(e.by_venue@, core.venue_id@, 0);
            let held = num_abs(e.by_agent@[agent->0].notional_usd@);
            let there = num_abs(e.by_venue@[venue->0].notional_usd@);
            let total = venue_notional(book.instruments@, core.venue_id@)->0;
            let positions = venue_positions(book.instruments@, core.venue_id@);
            &&& num_mul(core.qty@, price) == Some(p.order_notional)
            &&& p.signed_notional == notional
            &&& num_sub(allocation.allocated_capital@, p.agent_gross) == Some(p.agent_free)
            &&& projected(e.net_qty@, e.gross_qty@, by_side(core.side, core.qty@)) == Some(
                (p.instrument_net_qty, p.instrument_gross_qty),
            )
            &&& projected(e.net_notional_usd@, e.gross_notional_usd@, notional) matches Some(
                (_, gross),
            ) && gross == p.instrument_gross_notional
            &&& agent is Some ==> {
                let signed = if e.by_agent@[agent->0].net_qty@.m >= 0 {
                    held
                } else {
                    num_neg(held)
                };
                &&& projected(signed, held, notional) matches Some((_, gross)) && gross
                    == p.agent_instrument_gross
                &&& o_add(num_sub(allocation.used_capital@, held), Some(p.agent_instrument_gross))
                    == Some(p.agent_gross)
            }
            &&& agent is None ==> {
                &&& projected(num_zero(), num_zero(), notional) matches Some((_, gross)) && gross
                    == p.agent_instrument_gross
                &&& o_add(
                    num_sub(allocation.used_capital@, num_zero()),
                    Some(p.agent_instrument_gross),
                ) == Some(p.agent_gross)
            }
            &&& venue is Some ==> {
                let signed = if e.by_venue@[venue->0].net_qty@.m >= 0 {
                    there
                } else {
                    num_neg(there)
                };
                &&& p.venue_positions == positions
                &&& projected(signed, there, notional) matches Some((_, gross)) && o_add(
                    num_sub(total, there),
                    Some(gross),
                ) == Some(p.venue_notional)
            }
            &&& venue is None ==> {
                &&& p.venue_positions == positions + 1
                &&& projected(num_zero(), num_zero(), notional) matches Some((_, gross)) && o_add(
                    num_sub(total, num_zero()),
                    Some(gross),
                ) == Some(p.venue_notional)
            }
        }),
{
    lemma_first_in(book.instruments@, core.instrument_id@, 0);
    let found = instrument_at(book.instruments@, core.instrument_id@, 0);
    assert(book.instruments@[i].instrument@ == core.instrument_id@);
    assert(found is Some);
    if found->0 < i {
        assert(book.instruments@[found->0].instrument@ != core.instrument_id@);
    }
    assert(found->0 == i);
}

/// What the books hold after an order is foreseen wherever the exposures that it moves stay
/// in their range: those of the firm in the instrument, of the agent and at the venue, and
/// the totals of the agent and of the venue.
pub proof fn law_projection_is_owed(
    core: OrderCore,
    price: Num,
    book: FirmBook,
    allocation: AgentAllocation,
    i: int,
)
    requires
        is_first_in(book.instruments@, core.instrument_id@, i),
        num_mul(core.qty@, price) is Some,
        ({
            let e = book.instruments@[i];
            let notional = by_side(core.side, num_mul(core.qty@, price)->0);
            let agent = agent_at(e.by_agent@, core.agent_id@, 0);
            let venue = venue_at(e.by_venue@, core.venue_id@, 0);
            let held = match agent {
                Some(j) => num_abs(e.by_agent@[j].notional_usd@),
                None => num_zero(),
            };
            let there = match venue {
                Some(j) => num_abs(e.by_venue@[j].notional_usd@),
                None => num_zero(),
            };
            let signed = if agent is Some && e.by_agent@[agent->0].net_qty@.m < 0 {
                num_neg(held)
            } else {
                held
            };
            let signed_there = if venue is Some && e.by_venue@[venue->0].net_qty@.m < 0 {
                num_neg(there)
            } else {
                there
            };
            &&& projected(e.net_qty@, e.gross_qty@, by_side(core.side, core.qty@)) is Some
            &&& projected(e.net_notional_usd@, e.gross_notional_usd@, notional) is Some
            &&& projected(signed, held, notional) matches Some((_, of_agent)) && (o_add(
                num_sub(allocation.used_capital@, held),
                Some(of_agent),
            ) matches Some(total) && num_sub(allocation.allocated_capital@, total) is Some)
            &&& projected(signed_there, there, notional) matches Some((_, at_venue)) && (
            venue_notional(book.instruments@, core.venue_id@) matches Some(total) && o_add(
                num_sub(total, there),
                Some(at_venue),
            ) is Some)
        }),
    ensures
        projection(core, price, book, allocation) is Some,
{
    lemma_first_in(book.instruments@, core.instrument_id@, 0);
    let found = instrument_at(book.instruments@, core.instrument_id@, 0);
    assert(book.instruments@[i].instrument@ == core.instrument_id@);
    assert(found is Some);
    if found->0 < i {
        assert(book.instruments@[found->0].instrument@ != core.instrument_id@);
    }
    assert(found->0 == i);
}

/// What an order does to the books where the firm holds nothing in its instrument: all of it
/// is new.
pub proof fn law_projection_of_new_exposure(
    core: OrderCore,
    price: Num,
    book: FirmBook,
    allocation: AgentAllocation,
    p: Projection,
)
    requires
        projection(core, price, book, allocation) == Some(p),
        forall|i: int|
            0 <= i < book.instruments@.len() ==> (#[trigger] book.instruments@[i]).instrument@
                != core.instrument_id@,
    ensures
        ({
            let notional = by_side(core.side, p.order_notional);
            let total = venue_notional(book.instruments@, core.venue_id@)->0;
            &&& num_mul(core.qty@, price) == Some(p.order_notional)
            &&& p.signed_notional == notional
            &&& num_sub(allocation.allocated_capital@, p.agent_gross) == Some(p.agent_free)
            &&& projected(num_zero(), num_zero(), by_side(core.side, core.qty@)) == Some(
                (p.instrument_net_qty, p.instrument_gross_qty),
            )
            &&& projected(num_zero(), num_zero(), notional) matches Some((_, gross)) && {
                &&& gross == p.instrument_gross_notional
                &&& gross == p.agent_instrument_gross
                &&& o_add(num_sub(allocation.used_capital@, num_zero()), Some(gross)) == Some(
                    p.agent_gross,
                )
                &&& o_add(num_sub(total, num_zero()), Some(gross)) == Some(p.venue_notional)
            }
            &&& p.venue_positions == venue_positions(book.instruments@, core.venue_id@) + 1
        }),
{
    lemma_first_in(book.instruments@, core.instrument_id@, 0);
}

} // verus!
