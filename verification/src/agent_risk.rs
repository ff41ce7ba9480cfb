//! The layer 1 risk manager: deterministic, path-aware evaluation of one order against
//! agent, instrument, venue and firm limits.

use crate::decimal::{
    in_range, is_exact_product, is_rounding, lemma_positive_factor, lemma_pow10_positive,
    lemma_rounding_at, lemma_rounding_sign, lemma_smaller_product, lemma_units_order,
    lemma_units_sign, magnitude, num, num_abs, num_div, num_eq, num_le, num_lt, num_min, num_mul,
    num_sub, num_text, num_zero, o_add, o_div, pow10, product_units, quotient_units, units,
    units_in_one, Decimal, Num, MAX_SCALE,
};
use crate::ids::{InstrumentId, VenueId};
use crate::limits::{
    violation_views, AgentRiskLimits, InstrumentRiskLimits, RiskOutcome, RiskViolation,
    RiskViolationView, VenueRiskLimits, ViolationType,
};
use crate::pipeline::{OrderCore, PipelineOrder, Validated};
use crate::portfolio::{AgentAllocation, FirmBook};
use crate::risk::{
    agent_at, count_venue_positions, find_agent, find_instrument, find_venue, instrument_at,
    project_net_and_gross, projected, signed_by_net, signed_by_side, signed_delta,
    signed_value_from_net, total_venue_notional, venue_at, venue_notional, venue_positions,
    EvaluationPath, RiskOutcomeView,
};
use crate::table::Table;
use crate::text::joined3;
use vstd::prelude::*;

verus! {

// ─── Fixed thresholds ───

/// The largest part of NAV that one order may amount to: five percent.
pub open spec fn position_nav_cap_num() -> Num {
    num(5, 2)
}

/// The largest part of NAV that one order may lose: one percent.
pub open spec fn account_risk_nav_cap_num() -> Num {
    num(1, 2)
}

/// The drawdown below which nothing is traded: minus fifteen percent.
pub open spec fn drawdown_halt_num() -> Num {
    num(-15, 2)
}

/// The smallest part of NAV to be kept in cash: twenty percent.
pub open spec fn cash_reserve_num() -> Num {
    num(20, 2)
}

/// The smallest ratio of reward to risk that a signal may have: two to one.
pub open spec fn min_risk_reward_num() -> Num {
    num(2, 0)
}

// ─── Violations ───

/// A violation with its parts given as text.
pub open spec fn violation_of(
    kind: ViolationType,
    check_name: Seq<char>,
    current: Seq<char>,
    limit: Seq<char>,
    action: Seq<char>,
    reason: Seq<char>,
) -> RiskViolationView {
    RiskViolationView {
        check_name,
        violation_type: kind,
        current_value: current,
        limit,
        suggested_action: action + ": "@ + reason,
    }
}

/// A hard violation of a numeric limit.
pub open spec fn hard(
    check_name: Seq<char>,
    current: Num,
    limit: Num,
    action: Seq<char>,
    reason: Seq<char>,
) -> RiskViolationView {
    violation_of(
        ViolationType::Hard,
        check_name,
        num_text(current),
        num_text(limit),
        action,
        reason,
    )
}

/// A soft violation of a numeric limit.
pub open spec fn soft(
    check_name: Seq<char>,
    current: Num,
    limit: Num,
    action: Seq<char>,
    reason: Seq<char>,
) -> RiskViolationView {
    violation_of(
        ViolationType::Soft,
        check_name,
        num_text(current),
        num_text(limit),
        action,
        reason,
    )
}

/// A hard violation described in words.
pub open spec fn hard_text(
    check_name: Seq<char>,
    current: Seq<char>,
    limit: Seq<char>,
    reason: Seq<char>,
) -> RiskViolationView {
    violation_of(ViolationType::Hard, check_name, current, limit, "reject"@, reason)
}

/// One violation where a condition holds, none otherwise.
pub open spec fn when(condition: bool, v: RiskViolationView) -> Seq<RiskViolationView> {
    if condition {
        seq![v]
    } else {
        seq![]
    }
}

/// A reduced order size with its explanation.
pub struct Resize {
    pub new_qty: Num,
    pub reason: Seq<char>,
    pub warning: RiskViolationView,
}

// ─── The checks ───

/// Whether an agent's list of instruments, if it has one, leaves an instrument out.
pub open spec fn instrument_forbidden(limits: AgentRiskLimits, id: Seq<char>) -> bool {
    limits.allowed_instruments matches Some(list) && forall|i: int|
        0 <= i < list@.len() ==> (#[trigger] list@[i])@ != id
}

/// Whether an agent's list of venues, if it has one, leaves a venue out.
pub open spec fn venue_forbidden(limits: AgentRiskLimits, id: Seq<char>) -> bool {
    limits.allowed_venues matches Some(list) && forall|i: int|
        0 <= i < list@.len() ==> (#[trigger] list@[i])@ != id
}

/// Violations of an agent's permissions.
pub open spec fn permission_violations(core: OrderCore, limits: AgentRiskLimits) -> Seq<
    RiskViolationView,
> {
    when(
        instrument_forbidden(limits, core.instrument_id@),
        hard_text(
            "agent_allowed_instruments"@,
            core.instrument_id@,
            "instrument in agent whitelist"@,
            "agent is not permitted to trade this instrument"@,
        ),
    ) + when(
        venue_forbidden(limits, core.venue_id@),
        hard_text(
            "agent_allowed_venues"@,
            core.venue_id@,
            "venue in agent whitelist"@,
            "agent is not permitted to trade this venue"@,
        ),
    )
}

/// Violations of an agent's budget.
pub open spec fn budget_violations(p: Projection, limits: AgentRiskLimits) -> Seq<
    RiskViolationView,
> {
    when(
        p.agent_free.m < 0,
        hard(
            "agent_free_capital"@,
            p.agent_free,
            num_zero(),
            "reject"@,
            "order exceeds the agent's free capital"@,
        ),
    ) + when(
        num_lt(limits.max_position_notional@, p.agent_instrument_gross),
        hard(
            "agent_max_position_notional"@,
            p.agent_instrument_gross,
            limits.max_position_notional@,
            "reject"@,
            "order exceeds the agent's max single-position notional"@,
        ),
    ) + when(
        num_lt(limits.max_gross_notional@, p.agent_gross),
        hard(
            "agent_max_gross_notional"@,
            p.agent_gross,
            limits.max_gross_notional@,
            "reject"@,
            "projected agent gross notional exceeds the configured cap"@,
        ),
    )
}

/// The resize to five percent of NAV, where the order amounts to more. The outer `None`
/// stands for a number out of range.
pub open spec fn position_resize(notional: Num, price: Num, nav: Num) -> Option<Seq<Resize>> {
    match num_mul(nav, position_nav_cap_num()) {
        Some(cap) => if num_lt(cap, notional) {
            match num_div(cap, price) {
                Some(new_qty) => Some(
                    seq![
                        Resize {
                            new_qty,
                            reason: "position notional exceeds 5% NAV; resize to the 5% cap"@,
                            warning: soft(
                                "position_notional_pct"@,
                                notional,
                                cap,
                                "resize"@,
                                "order exceeds the 5% NAV single-position cap"@,
                            ),
                        },
                    ],
                ),
                None => None,
            }
        } else {
            Some(seq![])
        },
        None => None,
    }
}

/// The loss per unit: the distance to the stop loss, or the whole price without one.
pub open spec fn risk_per_unit(core: OrderCore, price: Num) -> Option<Num> {
    match core.stop_loss {
        Some(stop) => match num_sub(price, stop@) {
            Some(d) => Some(num_abs(d)),
            None => None,
        },
        None => Some(price),
    }
}

/// Violations and resizes from the loss that an order risks.
pub open spec fn account_risk(core: OrderCore, price: Num, nav: Num) -> Option<
    (Seq<RiskViolationView>, Seq<Resize>),
> {
    match (risk_per_unit(core, price), num_mul(nav, account_risk_nav_cap_num())) {
        (Some(risk), Some(cap)) => if risk.m <= 0 {
            Some(
                (
                    seq![
                        hard(
                            "account_risk_distance_positive"@,
                            risk,
                            num_zero(),
                            "reject"@,
                            "entry price and stop loss must define a positive loss distance"@,
                        ),
                    ],
                    seq![],
                ),
            )
        } else {
            match num_mul(core.qty@, risk) {
                Some(loss) => if num_lt(cap, loss) {
                    match num_div(cap, risk) {
                        Some(new_qty) => Some(
                            (
                                seq![],
                                seq![
                                    Resize {
                                        new_qty,
                                        reason:
                                            "projected account risk exceeds 1% NAV; resize to the max-loss cap"@,
                                        warning: soft(
                                            "account_risk_pct"@,
                                            loss,
                                            cap,
                                            "resize"@,
                                            "projected max loss exceeds the 1% NAV cap"@,
                                        ),
                                    },
                                ],
                            ),
                        ),
                        None => None,
                    }
                } else {
                    Some((seq![], seq![]))
                },
                None => None,
            }
        },
        _ => None,
    }
}

/// Violations of the leverage cap.
pub open spec fn leverage_violations(p: Projection, limits: InstrumentRiskLimits) -> Option<
    Seq<RiskViolationView>,
> {
    if limits.max_leverage@.m <= 0 {
        Some(
            seq![
                hard(
                    "instrument_max_leverage_positive"@,
                    limits.max_leverage@,
                    num_zero(),
                    "reject"@,
                    "instrument max leverage must be positive"@,
                ),
            ],
        )
    } else if p.agent_free.m <= 0 {
        Some(
            seq![
                hard(
                    "agent_free_capital_positive"@,
                    p.agent_free,
                    num_zero(),
                    "reject"@,
                    "agent free capital must be positive to evaluate leverage"@,
                ),
            ],
        )
    } else {
        match num_div(p.agent_gross, p.agent_free) {
            Some(leverage) => Some(
                when(
                    num_lt(limits.max_leverage@, leverage),
                    hard(
                        "instrument_max_leverage"@,
                        leverage,
                        limits.max_leverage@,
                        "reject"@,
                        "projected leverage exceeds the instrument leverage cap"@,
                    ),
                ),
            ),
            None => None,
        }
    }
}

/// Violations of the firm's drawdown halt.
pub open spec fn drawdown_violations(book: FirmBook) -> Seq<RiskViolationView> {
    when(
        num_lt(book.current_drawdown_pct@, drawdown_halt_num()),
        hard(
            "firm_drawdown_pct"@,
            book.current_drawdown_pct@,
            drawdown_halt_num(),
            "halt_all"@,
            "firm drawdown breached the 15% halt threshold"@,
        ),
    )
}

/// Violations of the cash reserve.
pub open spec fn cash_violations(signed_notional: Num, nav: Num, book: FirmBook) -> Option<
    Seq<RiskViolationView>,
> {
    match o_div(num_sub(book.cash_available@, signed_notional), Some(nav)) {
        Some(pct) => Some(
            when(
                num_lt(pct, cash_reserve_num()),
                hard(
                    "cash_reserve_pct"@,
                    pct,
                    cash_reserve_num(),
                    "reject"@,
                    "projected cash reserve falls below the 20% NAV minimum"@,
                ),
            ),
        ),
        None => None,
    }
}

/// Violations of an instrument's limits.
pub open spec fn instrument_violations(p: Projection, nav: Num, limits: InstrumentRiskLimits) -> Option<
    Seq<RiskViolationView>,
> {
    match num_div(p.instrument_gross_notional, nav) {
        Some(pct) => Some(
            when(
                num_lt(limits.max_net_qty@, num_abs(p.instrument_net_qty)),
                hard(
                    "instrument_max_net_qty"@,
                    num_abs(p.instrument_net_qty),
                    limits.max_net_qty@,
                    "reject"@,
                    "projected instrument net quantity exceeds the configured cap"@,
                ),
            ) + when(
                num_lt(limits.max_gross_qty@, p.instrument_gross_qty),
                hard(
                    "instrument_max_gross_qty"@,
                    p.instrument_gross_qty,
                    limits.max_gross_qty@,
                    "reject"@,
                    "projected instrument gross quantity exceeds the configured cap"@,
                ),
            ) + when(
                num_lt(limits.max_concentration_pct@, pct),
                hard(
                    "instrument_max_concentration_pct"@,
                    pct,
                    limits.max_concentration_pct@,
                    "reject"@,
                    "projected instrument exposure exceeds the concentration cap"@,
                ),
            ),
        ),
        None => None,
    }
}

/// Violations of a venue's limits.
pub open spec fn venue_violations(p: Projection, nav: Num, limits: VenueRiskLimits) -> Option<
    Seq<RiskViolationView>,
> {
    match num_div(p.venue_notional, nav) {
        Some(pct) => Some(
            when(
                num_lt(limits.max_notional@, p.venue_notional),
                hard(
                    "venue_max_notional"@,
                    p.venue_notional,
                    limits.max_notional@,
                    "reject"@,
                    "projected venue notional exceeds the configured cap"@,
                ),
            ) + when(
                num_lt(limits.max_pct_of_nav@, pct),
                hard(
                    "venue_max_pct_of_nav"@,
                    pct,
                    limits.max_pct_of_nav@,
                    "reject"@,
                    "projected venue concentration exceeds the NAV cap"@,
                ),
            ) + when(
                p.venue_positions > limits.max_positions,
                hard(
                    "venue_max_positions"@,
                    num(p.venue_positions as int, 0),
                    num(limits.max_positions as int, 0),
                    "reject"@,
                    "projected venue position count exceeds the configured cap"@,
                ),
            ),
        ),
        None => None,
    }
}

/// Violations of what a signal must define: a stop loss, and with a take profit a ratio of
/// reward to risk of at least two.
pub open spec fn signal_violations(core: OrderCore, price: Num) -> Option<Seq<RiskViolationView>> {
    match (core.stop_loss, core.take_profit) {
        (None, _) => Some(
            seq![
                hard_text(
                    "signal_stop_loss_required"@,
                    "missing"@,
                    "present"@,
                    "SubmitSignal orders must define a stop loss"@,
                ),
            ],
        ),
        (Some(_), None) => Some(seq![]),
        (Some(stop), Some(target)) => match num_sub(price, stop@) {
            Some(d) => {
                let risk = num_abs(d);
                if risk.m <= 0 {
                    Some(
                        seq![
                            hard(
                                "signal_risk_distance_positive"@,
                                risk,
                                num_zero(),
                                "reject"@,
                                "risk/reward evaluation requires a positive stop distance"@,
                            ),
                        ],
                    )
                } else {
                    match num_sub(target@, price) {
                        Some(e) => match num_div(num_abs(e), risk) {
                            Some(ratio) => Some(
                                when(
                                    num_lt(ratio, min_risk_reward_num()),
                                    hard(
                                        "signal_risk_reward_ratio"@,
                                        ratio,
                                        min_risk_reward_num(),
                                        "reject"@,
                                        "signal risk/reward ratio is below 2:1"@,
                                    ),
                                ),
                            ),
                            None => None,
                        },
                        None => None,
                    }
                }
            },
            None => None,
        },
    }
}

/// The smallest of the resizes; the first of several equal ones.
pub open spec fn tightest(candidates: Seq<Resize>) -> Option<Resize>
    decreases candidates.len(),
{
    if candidates.len() == 0 {
        None
    } else {
        match tightest(candidates.drop_last()) {
            Some(best) => if num_lt(candidates.last().new_qty, best.new_qty) {
                Some(candidates.last())
            } else {
                Some(best)
            },
            None => Some(candidates.last()),
        }
    }
}

// ─── Projection of the books ───

/// What the books hold after an order is filled.
pub struct Projection {
    pub order_notional: Num,
    pub signed_notional: Num,
    pub agent_gross: Num,
    pub agent_free: Num,
    pub agent_instrument_gross: Num,
    pub instrument_net_qty: Num,
    pub instrument_gross_qty: Num,
    pub instrument_gross_notional: Num,
    pub venue_notional: Num,
    pub venue_positions: nat,
}

/// Amounts held in an instrument: net and gross quantity, net and gross notional.
pub struct Held {
    pub net_qty: Num,
    pub gross_qty: Num,
    pub net_notional: Num,
    pub gross_notional: Num,
}

/// What the firm holds in the order's instrument.
pub open spec fn held_by_firm(book: FirmBook, core: OrderCore) -> Held {
    match instrument_at(book.instruments@, core.instrument_id@, 0) {
        Some(i) => Held {
            net_qty: book.instruments@[i].net_qty@,
            gross_qty: book.instruments@[i].gross_qty@,
            net_notional: book.instruments@[i].net_notional_usd@,
            gross_notional: book.instruments@[i].gross_notional_usd@,
        },
        None => Held {
            net_qty: num_zero(),
            gross_qty: num_zero(),
            net_notional: num_zero(),
            gross_notional: num_zero(),
        },
    }
}

/// Net and gross notional of the order's agent in the order's instrument.
pub open spec fn held_by_agent(book: FirmBook, core: OrderCore) -> (Num, Num) {
    match instrument_at(book.instruments@, core.instrument_id@, 0) {
        Some(i) => match agent_at(book.instruments@[i].by_agent@, core.agent_id@, 0) {
            Some(j) => {
                let e = book.instruments@[i].by_agent@[j];
                (signed_by_net(e.net_qty@, num_abs(e.notional_usd@)), num_abs(e.notional_usd@))
            },
            None => (num_zero(), num_zero()),
        },
        None => (num_zero(), num_zero()),
    }
}

/// Whether the order's instrument is already held at the order's venue.
pub open spec fn held_at_venue(book: FirmBook, core: OrderCore) -> bool {
    match instrument_at(book.instruments@, core.instrument_id@, 0) {
        Some(i) => venue_at(book.instruments@[i].by_venue@, core.venue_id@, 0) is Some,
        None => false,
    }
}

/// Net and gross notional of the order's instrument at the order's venue.
pub open spec fn amounts_at_venue(book: FirmBook, core: OrderCore) -> (Num, Num) {
    match instrument_at(book.instruments@, core.instrument_id@, 0) {
        Some(i) => match venue_at(book.instruments@[i].by_venue@, core.venue_id@, 0) {
            Some(j) => {
                let e = book.instruments@[i].by_venue@[j];
                (signed_by_net(e.net_qty@, num_abs(e.notional_usd@)), num_abs(e.notional_usd@))
            },
            None => (num_zero(), num_zero()),
        },
        None => (num_zero(), num_zero()),
    }
}

/// What the books hold after the order is filled; `None` where a number exceeds its range.
pub open spec fn projection(
    core: OrderCore,
    price: Num,
    book: FirmBook,
    allocation: AgentAllocation,
) -> Option<Projection> {
    match num_mul(core.qty@, price) {
        Some(notional) => {
            let signed = signed_by_side(core.side, notional);
            let held = held_by_firm(book, core);
            let (agent_net, agent_gross) = held_by_agent(book, core);
            let (venue_net, venue_gross) = amounts_at_venue(book, core);
            match (
                projected(held.net_qty, held.gross_qty, signed_by_side(core.side, core.qty@)),
                projected(held.net_notional, held.gross_notional, signed),
                projected(agent_net, agent_gross, signed),
                projected(venue_net, venue_gross, signed),
                venue_notional(book.instruments@, core.venue_id@),
            ) {
                (
                    Some((net_qty, gross_qty)),
                    Some((_, gross_notional)),
                    Some((_, agent_instrument)),
                    Some((_, venue_instrument)),
                    Some(venue_total),
                ) => match (
                    o_add(
                        num_sub(allocation.used_capital@, agent_gross),
                        Some(agent_instrument),
                    ),
                    o_add(num_sub(venue_total, venue_gross), Some(venue_instrument)),
                ) {
                    (Some(agent_total), Some(venue_after)) => match num_sub(
                        allocation.allocated_capital@,
                        agent_total,
                    ) {
                        Some(free) => Some(
                            Projection {
                                order_notional: notional,
                                signed_notional: signed,
                                agent_gross: agent_total,
                                agent_free: free,
                                agent_instrument_gross: agent_instrument,
                                instrument_net_qty: net_qty,
                                instrument_gross_qty: gross_qty,
                                instrument_gross_notional: gross_notional,
                                venue_notional: venue_after,
                                venue_positions: venue_positions(
                                    book.instruments@,
                                    core.venue_id@,
                                ) + (if held_at_venue(book, core) {
                                    0nat
                                } else {
                                    1nat
                                }),
                            },
                        ),
                        None => None,
                    },
                    _ => None,
                },
                _ => None,
            }
        },
        None => None,
    }
}

/// Two lists of violations, one after the other; `None` where one is missing.
pub open spec fn both(
    a: Option<Seq<RiskViolationView>>,
    b: Option<Seq<RiskViolationView>>,
) -> Option<Seq<RiskViolationView>> {
    match (a, b) {
        (Some(x), Some(y)) => Some(x + y),
        _ => None,
    }
}

/// Everything that is configured for the checks of one order.
pub struct OrderLimits {
    pub agent: AgentRiskLimits,
    pub instrument: InstrumentRiskLimits,
    pub venue: VenueRiskLimits,
}

/// All hard violations of an order, in the order of the checks.
pub open spec fn all_violations(
    core: OrderCore,
    price: Num,
    nav: Num,
    book: FirmBook,
    limits: OrderLimits,
    path: EvaluationPath,
    p: Projection,
) -> Option<Seq<RiskViolationView>> {
    let agent = permission_violations(core, limits.agent) + budget_violations(p, limits.agent);
    let risk = match account_risk(core, price, nav) {
        Some((v, _)) => Some(v),
        None => None,
    };
    let leverage = both(both(Some(agent), risk), leverage_violations(p, limits.instrument));
    let firm = both(
        both(leverage, Some(drawdown_violations(book))),
        cash_violations(p.signed_notional, nav, book),
    );
    let checked = both(
        both(firm, instrument_violations(p, nav, limits.instrument)),
        venue_violations(p, nav, limits.venue),
    );
    if path is SubmitSignal {
        both(checked, signal_violations(core, price))
    } else {
        checked
    }
}

/// All resizes of an order, in the order of the checks.
pub open spec fn all_resizes(core: OrderCore, price: Num, nav: Num, p: Projection) -> Option<
    Seq<Resize>,
> {
    match (position_resize(p.order_notional, price, nav), account_risk(core, price, nav)) {
        (Some(a), Some((_, b))) => Some(a + b),
        _ => None,
    }
}

/// What the checks amount to: a rejection with all hard violations, else the tightest
/// resize, else an approval.
pub open spec fn verdict(violations: Seq<RiskViolationView>, resizes: Seq<Resize>) -> RiskOutcomeView {
    if violations.len() > 0 {
        RiskOutcomeView::Rejected { violations }
    } else {
        match tightest(resizes) {
            Some(t) => RiskOutcomeView::Resized {
                new_qty: t.new_qty,
                reason: t.reason,
                warnings: seq![t.warning],
            },
            None => RiskOutcomeView::Approved { warnings: seq![] },
        }
    }
}

/// A rejection for one reason.
pub open spec fn rejected_for(v: RiskViolationView) -> RiskOutcomeView {
    RiskOutcomeView::Rejected { violations: seq![v] }
}

/// The NAV that limits are taken of: the smaller of the manager's and the book's, both of
/// which must be positive.
pub open spec fn usable_nav(manager_nav: Num, book_nav: Num) -> Result<Num, RiskViolationView> {
    if manager_nav.m <= 0 {
        Err(
            hard(
                "manager_nav_positive"@,
                manager_nav,
                num_zero(),
                "reject"@,
                "configured risk-manager NAV must be positive"@,
            ),
        )
    } else if book_nav.m <= 0 {
        Err(
            hard(
                "firm_nav_positive"@,
                book_nav,
                num_zero(),
                "reject"@,
                "firm-book NAV must be positive"@,
            ),
        )
    } else {
        Ok(num_min(manager_nav, book_nav))
    }
}

// ─── The manager ───

/// Layer 1 risk manager for path-aware deterministic checks.
#[derive(Debug, Clone)]
pub struct AgentRiskManager {
    pub nav: Decimal,
    /// Limits by agent.
    pub agent_limits: Table<AgentRiskLimits>,
    /// Limits by instrument.
    pub instrument_limits: Table<InstrumentRiskLimits>,
    /// Limits by venue.
    pub venue_limits: Table<VenueRiskLimits>,
}

/// What the evaluation of an order comes to; `None` where a number exceeds its range.
pub open spec fn evaluation(
    manager: AgentRiskManager,
    core: OrderCore,
    book: FirmBook,
    path: EvaluationPath,
) -> Option<RiskOutcomeView> {
    match core.price {
        None => Some(
            rejected_for(
                hard_text(
                    "order_price_required"@,
                    "missing"@,
                    "present"@,
                    "order price is required for deterministic risk evaluation"@,
                ),
            ),
        ),
        Some(price) => if price@.m <= 0 {
            Some(
                rejected_for(
                    hard(
                        "order_price_positive"@,
                        price@,
                        num_zero(),
                        "reject"@,
                        "order price must be positive for risk evaluation"@,
                    ),
                ),
            )
        } else if core.qty@.m <= 0 {
            Some(
                rejected_for(
                    hard(
                        "order_qty_positive"@,
                        core.qty@,
                        num_zero(),
                        "reject"@,
                        "order quantity must be positive"@,
                    ),
                ),
            )
        } else {
            match usable_nav(manager.nav@, book.nav@) {
                Err(v) => Some(rejected_for(v)),
                Ok(nav) => if !manager.agent_limits@.contains_key(core.agent_id@) {
                    Some(
                        rejected_for(
                            hard_text(
                                "agent_limits_present"@,
                                core.agent_id@,
                                "configured agent limits"@,
                                "agent risk limits are not configured"@,
                            ),
                        ),
                    )
                } else if !book.agent_allocations@.contains_key(core.agent_id@) {
                    Some(
                        rejected_for(
                            hard_text(
                                "agent_allocation_present"@,
                                core.agent_id@,
                                "active agent allocation"@,
                                "agent allocation is not present in the firm book"@,
                            ),
                        ),
                    )
                } else if !manager.instrument_limits@.contains_key(core.instrument_id@) {
                    Some(
                        rejected_for(
                            hard_text(
                                "instrument_limits_present"@,
                                core.instrument_id@,
                                "configured instrument limits"@,
                                "instrument risk limits are not configured"@,
                            ),
                        ),
                    )
                } else if !manager.venue_limits@.contains_key(core.venue_id@) {
                    Some(
                        rejected_for(
                            hard_text(
                                "venue_limits_present"@,
                                core.venue_id@,
                                "configured venue limits"@,
                                "venue risk limits are not configured"@,
                            ),
                        ),
                    )
                } else {
                    checked_evaluation(
                        core,
                        price@,
                        nav,
                        book,
                        book.agent_allocations@[core.agent_id@],
                        OrderLimits {
                            agent: manager.agent_limits@[core.agent_id@],
                            instrument: manager.instrument_limits@[core.instrument_id@],
                            venue: manager.venue_limits@[core.venue_id@],
                        },
                        path,
                    )
                },
            }
        },
    }
}

/// The verdict of all checks on an order whose limits are configured.
pub open spec fn checked_evaluation(
    core: OrderCore,
    price: Num,
    nav: Num,
    book: FirmBook,
    allocation: AgentAllocation,
    limits: OrderLimits,
    path: EvaluationPath,
) -> Option<RiskOutcomeView> {
    match projection(core, price, book, allocation) {
        Some(p) => match (
            all_violations(core, price, nav, book, limits, path, p),
            all_resizes(core, price, nav, p),
        ) {
            (Some(violations), Some(resizes)) => Some(verdict(violations, resizes)),
            _ => None,
        },
        None => None,
    }
}

/// The two rules that size orders.
pub enum SizingRule {
    /// An order may amount to five percent of NAV, by its price.
    PositionNotional,
    /// An order may lose one percent of NAV, by its loss per unit.
    AccountRisk,
}

/// What a sizing rule allows an order to amount to.
pub open spec fn rule_cap(rule: SizingRule, nav: Num) -> Option<Num> {
    match rule {
        SizingRule::PositionNotional => num_mul(nav, position_nav_cap_num()),
        SizingRule::AccountRisk => num_mul(nav, account_risk_nav_cap_num()),
    }
}

/// What a sizing rule counts for each unit of an order.
pub open spec fn rule_unit(rule: SizingRule, core: OrderCore, price: Num) -> Option<Num> {
    match rule {
        SizingRule::PositionNotional => Some(price),
        SizingRule::AccountRisk => risk_per_unit(core, price),
    }
}

/// The reason that a sizing rule gives.
pub open spec fn rule_reason(rule: SizingRule) -> Seq<char> {
    match rule {
        SizingRule::PositionNotional => "position notional exceeds 5% NAV; resize to the 5% cap"@,
        SizingRule::AccountRisk =>
            "projected account risk exceeds 1% NAV; resize to the max-loss cap"@,
    }
}

/// Whether a sizing rule gave a size: the order amounts to more than the rule allows, the
/// size is what it allows, and the reason is its own.
pub open spec fn sized_by(
    rule: SizingRule,
    core: OrderCore,
    price: Num,
    nav: Num,
    new_qty: Num,
    reason: Seq<char>,
) -> bool {
    match (rule_cap(rule, nav), rule_unit(rule, core, price)) {
        (Some(cap), Some(unit)) => {
            &&& num_mul(core.qty@, unit) matches Some(amount) && num_lt(cap, amount)
            &&& num_div(cap, unit) == Some(new_qty)
            &&& reason == rule_reason(rule)
        },
        _ => false,
    }
}

/// Whether a size for a cap keeps within what an order asks: it is neither negative nor
/// above it. It is zero only where the cap allows less than the smallest number, and all
/// that is asked only where no smaller number reaches the cap.
pub open spec fn shrinks(cap: Num, unit: Num, qty: Num, new_qty: Num) -> bool {
    &&& new_qty.m >= 0
    &&& num_le(new_qty, qty)
    &&& new_qty.m == 0 ==> units(cap) * units_in_one() < units(unit)
    &&& num_eq(new_qty, qty) ==> forall|c: Num|
        #[trigger] in_range(c.m, c.s) && num_lt(c, qty) ==> units(c) * units(unit) < units(cap)
            * units_in_one()
}

/// Whether a resize of an order shrinks it as the sizing rule that gave it asks.
#[verifier::opaque]
pub open spec fn resize_shrinks(
    core: OrderCore,
    price: Num,
    nav: Num,
    new_qty: Num,
    reason: Seq<char>,
) -> bool {
    exists|rule: SizingRule|
        {
            &&& #[trigger] sized_by(rule, core, price, nav, new_qty, reason)
            &&& shrinks(
                rule_cap(rule, nav)->0,
                rule_unit(rule, core, price)->0,
                core.qty@,
                new_qty,
            )
        }
}

/// Whether what an order comes to, if it is resized, shrinks it as the sizing rule that gave
/// the size asks.
pub open spec fn outcome_shrinks(
    core: OrderCore,
    price: Num,
    nav: Num,
    outcome: RiskOutcomeView,
) -> bool {
    outcome matches RiskOutcomeView::Resized { new_qty, reason, .. } ==> resize_shrinks(
        core,
        price,
        nav,
        new_qty,
        reason,
    )
}

/// Whether `c` is what the product of `a` and `b` rounds to.
spec fn multiplied(a: Num, b: Num, c: Num) -> bool {
    &&& in_range(a.m, a.s)
    &&& in_range(b.m, b.s)
    &&& in_range(c.m, c.s)
    &&& is_rounding(product_units(a, b), units_in_one(), c)
}

/// Whether `c` is what the quotient of a cap `a` by `b` rounds to.
spec fn divided(a: Num, b: Num, c: Num) -> bool {
    &&& a.m >= 0
    &&& in_range(a.m, a.s)
    &&& in_range(c.m, c.s)
    &&& is_rounding(quotient_units(a, b), magnitude(units(b)), c)
}

/// What a cap allows of an order that amounts to more is a smaller order.
proof fn lemma_capped_shrinks(cap: Num, unit: Num, qty: Num, amount: Num, new_qty: Num)
    requires
        unit.m > 0,
        multiplied(qty, unit, amount),
        num_lt(cap, amount),
        divided(cap, unit, new_qty),
    ensures
        shrinks(cap, unit, qty, new_qty),
{
    let smallest = num(1, MAX_SCALE as nat);
    let (n, d) = (quotient_units(cap, unit), magnitude(units(unit)));
    lemma_units_sign(unit);
    lemma_units_sign(cap);
    lemma_units_sign(new_qty);
    lemma_units_order(cap, amount);
    lemma_rounding_at(product_units(qty, unit), units_in_one(), amount, cap);
    lemma_rounding_at(n, d, new_qty, qty);
    lemma_rounding_sign(n, d, new_qty);
    lemma_units_order(new_qty, qty);
    assert(pow10(0) == 1);
    assert(units(smallest) == 1);
    lemma_rounding_at(n, d, new_qty, smallest);
    let (u, k) = (units(cap), units_in_one());
    lemma_pow10_positive(MAX_SCALE as nat);
    assert(u * k >= 0) by (nonlinear_arith)
        requires
            u >= 0,
            k > 0,
    ;
    if num_eq(new_qty, qty) {
        assert forall|c: Num| #[trigger] in_range(c.m, c.s) && num_lt(c, qty) implies units(c)
            * units(unit) < units(cap) * units_in_one() by {
            lemma_rounding_at(n, d, new_qty, c);
            lemma_units_order(c, qty);
        }
    }
}

/// Whether every resize of a list shrinks the order.
spec fn all_shrink(core: OrderCore, price: Num, nav: Num, resizes: Seq<Resize>) -> bool {
    forall|i: int|
        0 <= i < resizes.len() ==> resize_shrinks(
            core,
            price,
            nav,
            (#[trigger] resizes[i]).new_qty,
            resizes[i].reason,
        )
}

/// Every resize shrinks the order, whatever the sizing rules round.
proof fn lemma_all_shrink(core: OrderCore, price: Num, nav: Num, p: Projection)
    requires
        price.m > 0,
        all_resizes(core, price, nav, p) is Some,
        num_mul(core.qty@, price) == Some(p.order_notional),
        multiplied(core.qty@, price, p.order_notional),
        ({
            let more = position_resize(p.order_notional, price, nav)->0;
            more.len() > 0 ==> divided(
                num_mul(nav, position_nav_cap_num())->0,
                price,
                more[0].new_qty,
            )
        }),
        ({
            let (_, more) = account_risk(core, price, nav)->0;
            let risk = risk_per_unit(core, price)->0;
            more.len() > 0 ==> multiplied(core.qty@, risk, num_mul(core.qty@, risk)->0) && divided(
                num_mul(nav, account_risk_nav_cap_num())->0,
                risk,
                more[0].new_qty,
            )
        }),
    ensures
        all_shrink(core, price, nav, all_resizes(core, price, nav, p)->0),
{
    let qty = core.qty@;
    let by_position = position_resize(p.order_notional, price, nav)->0;
    let (_, by_risk) = account_risk(core, price, nav)->0;
    if by_position.len() > 0 {
        let cap = num_mul(nav, position_nav_cap_num())->0;
        lemma_capped_shrinks(cap, price, qty, p.order_notional, by_position[0].new_qty);
        let resize = by_position[0];
        let rule = SizingRule::PositionNotional;
        assert(sized_by(rule, core, price, nav, resize.new_qty, resize.reason));
    }
    if by_risk.len() > 0 {
        let cap = num_mul(nav, account_risk_nav_cap_num())->0;
        let risk = risk_per_unit(core, price)->0;
        lemma_capped_shrinks(cap, risk, qty, num_mul(qty, risk)->0, by_risk[0].new_qty);
        let resize = by_risk[0];
        let rule = SizingRule::AccountRisk;
        assert(sized_by(rule, core, price, nav, resize.new_qty, resize.reason));
    }
    let all = by_position + by_risk;
    reveal(resize_shrinks);
    assert forall|i: int| 0 <= i < all.len() implies resize_shrinks(
        core,
        price,
        nav,
        (#[trigger] all[i]).new_qty,
        all[i].reason,
    ) by {
        if i < by_position.len() {
            assert(all[i] == by_position[0]);
        } else {
            assert(all[i] == by_risk[0]);
        }
    }
}

/// A proposed order size with its explanation.
struct ResizeCandidate {
    new_qty: Decimal,
    reason: String,
    warning: RiskViolation,
}

spec fn resize_view(c: ResizeCandidate) -> Resize {
    Resize { new_qty: c.new_qty@, reason: c.reason@, warning: c.warning@ }
}

spec fn resize_views(s: Seq<ResizeCandidate>) -> Seq<Resize> {
    s.map_values(|c: ResizeCandidate| resize_view(c))
}

/// Appends a violation to a list.
fn note(list: &mut Vec<RiskViolation>, v: RiskViolation)
    ensures
        violation_views(final(list)@) == violation_views(old(list)@).push(v@),
{
    list.push(v);
    assert(violation_views(list@) =~= violation_views(old(list)@).push(v@));
}

/// A hard violation of a numeric limit.
fn violation(
    check_name: &str,
    current_value: Decimal,
    limit: Decimal,
    suggested_action: &str,
    reason: &str,
) -> (r: RiskViolation)
    ensures
        r@ == hard(check_name@, current_value@, limit@, suggested_action@, reason@),
{
    RiskViolation {
        check_name: check_name.to_owned(),
        violation_type: ViolationType::Hard,
        current_value: current_value.text(),
        limit: limit.text(),
        suggested_action: joined3(suggested_action, ": ", reason),
    }
}

/// A soft violation of a numeric limit.
fn soft_violation(
    check_name: &str,
    current_value: Decimal,
    limit: Decimal,
    suggested_action: &str,
    reason: &str,
) -> (r: RiskViolation)
    ensures
        r@ == soft(check_name@, current_value@, limit@, suggested_action@, reason@),
{
    RiskViolation {
        check_name: check_name.to_owned(),
        violation_type: ViolationType::Soft,
        current_value: current_value.text(),
        limit: limit.text(),
        suggested_action: joined3(suggested_action, ": ", reason),
    }
}

/// A hard violation described in words.
fn string_violation(check_name: &str, current_value: &str, limit: &str, reason: &str) -> (r:
    RiskViolation)
    ensures
        r@ == hard_text(check_name@, current_value@, limit@, reason@),
{
    RiskViolation {
        check_name: check_name.to_owned(),
        violation_type: ViolationType::Hard,
        current_value: current_value.to_owned(),
        limit: limit.to_owned(),
        suggested_action: joined3("reject", ": ", reason),
    }
}

/// A rejection for one reason.
fn rejected(v: RiskViolation) -> (r: RiskOutcome)
    ensures
        r@ == rejected_for(v@),
{
    let mut violations: Vec<RiskViolation> = Vec::new();
    note(&mut violations, v);
    assert(violation_views(violations@) =~= seq![v@]);
    RiskOutcome::Rejected { violations }
}

/// Whether a list of instruments lacks one.
pub fn lacks_instrument(list: &Vec<InstrumentId>, id: &InstrumentId) -> (r: bool)
    ensures
        r == forall|i: int| 0 <= i < list@.len() ==> (#[trigger] list@[i])@ != id@,
{
    let mut i: usize = 0;
    while i < list.len()
        invariant
            i <= list.len(),
            forall|j: int| 0 <= j < i ==> (#[trigger] list@[j])@ != id@,
        decreases list.len() - i,
    {
        if list[i].same(id) {
            assert(list@[i as int]@ == id@);
            return false;
        }
        i = i + 1;
    }
    true
}

/// Whether a list of venues lacks one.
pub fn lacks_venue(list: &Vec<VenueId>, id: &VenueId) -> (r: bool)
    ensures
        r == forall|i: int| 0 <= i < list@.len() ==> (#[trigger] list@[i])@ != id@,
{
    let mut i: usize = 0;
    while i < list.len()
        invariant
            i <= list.len(),
            forall|j: int| 0 <= j < i ==> (#[trigger] list@[j])@ != id@,
        decreases list.len() - i,
    {
        if list[i].same(id) {
            assert(list@[i as int]@ == id@);
            return false;
        }
        i = i + 1;
    }
    true
}

/// The numbers of a [`Projection`].
struct ProjectedBooks {
    order_notional: Decimal,
    signed_notional: Decimal,
    agent_gross: Decimal,
    agent_free: Decimal,
    agent_instrument_gross: Decimal,
    instrument_net_qty: Decimal,
    instrument_gross_qty: Decimal,
    instrument_gross_notional: Decimal,
    venue_notional: Decimal,
    venue_positions: u32,
}

spec fn books_view(b: ProjectedBooks) -> Projection {
    Projection {
        order_notional: b.order_notional@,
        signed_notional: b.signed_notional@,
        agent_gross: b.agent_gross@,
        agent_free: b.agent_free@,
        agent_instrument_gross: b.agent_instrument_gross@,
        instrument_net_qty: b.instrument_net_qty@,
        instrument_gross_qty: b.instrument_gross_qty@,
        instrument_gross_notional: b.instrument_gross_notional@,
        venue_notional: b.venue_notional@,
        venue_positions: b.venue_positions as nat,
    }
}

/// The books after an order is filled, if every number stays in range.
fn project_books(
    core: &OrderCore,
    price: Decimal,
    firm_book: &FirmBook,
    allocation: &AgentAllocation,
) -> (r: Option<ProjectedBooks>)
    requires
        firm_book.instruments@.len() < u32::MAX,
    ensures
        match r {
            Some(b) => projection(*core, price@, *firm_book, *allocation) == Some(books_view(b))
                && multiplied(core.qty@, price@, b.order_notional@),
            None => projection(*core, price@, *firm_book, *allocation) is None,
        },
{
    let order_notional = core.qty.checked_mul(price)?;
    let zero = Decimal::zero();
    let mut net_qty = zero;
    let mut gross_qty = zero;
    let mut net_notional = zero;
    let mut gross_notional = zero;
    let mut agent_net = zero;
    let mut agent_gross = zero;
    let mut venue_net = zero;
    let mut venue_gross = zero;
    let mut at_venue = false;
    match find_instrument(&firm_book.instruments, &core.instrument_id) {
        Some(i) => {
            let exposure = &firm_book.instruments[i];
            net_qty = exposure.net_qty;
            gross_qty = exposure.gross_qty;
            net_notional = exposure.net_notional_usd;
            gross_notional = exposure.gross_notional_usd;
            match find_agent(&exposure.by_agent, &core.agent_id) {
                Some(j) => {
                    agent_gross = exposure.by_agent[j].notional_usd.abs();
                    agent_net = signed_value_from_net(exposure.by_agent[j].net_qty, agent_gross);
                },
                None => {},
            }
            match find_venue(&exposure.by_venue, &core.venue_id) {
                Some(j) => {
                    at_venue = true;
                    venue_gross = exposure.by_venue[j].notional_usd.abs();
                    venue_net = signed_value_from_net(exposure.by_venue[j].net_qty, venue_gross);
                },
                None => {},
            }
        },
        None => {},
    }
    let signed_qty = signed_delta(core.side, core.qty);
    let signed_notional = signed_delta(core.side, order_notional);
    let (instrument_net_qty, instrument_gross_qty) = project_net_and_gross(
        net_qty,
        gross_qty,
        signed_qty,
    )?;
    let (_, instrument_gross_notional) = project_net_and_gross(
        net_notional,
        gross_notional,
        signed_notional,
    )?;
    let (_, agent_instrument_gross) = project_net_and_gross(
        agent_net,
        agent_gross,
        signed_notional,
    )?;
    let agent_total = allocation.used_capital.checked_sub(agent_gross)?.checked_add(
        agent_instrument_gross,
    )?;
    let agent_free = allocation.allocated_capital.checked_sub(agent_total)?;
    let current_venue_notional = total_venue_notional(&firm_book.instruments, &core.venue_id)?;
    let current_venue_positions: u32 = count_venue_positions(
        &firm_book.instruments,
        &core.venue_id,
    );
    let (_, venue_instrument_gross) = project_net_and_gross(
        venue_net,
        venue_gross,
        signed_notional,
    )?;
    let venue_after = current_venue_notional.checked_sub(venue_gross)?.checked_add(
        venue_instrument_gross,
    )?;
    let venue_positions: u32 = if at_venue {
        current_venue_positions
    } else {
        current_venue_positions + 1
    };
    Some(
        ProjectedBooks {
            order_notional,
            signed_notional,
            agent_gross: agent_total,
            agent_free,
            agent_instrument_gross,
            instrument_net_qty,
            instrument_gross_qty,
            instrument_gross_notional,
            venue_notional: venue_after,
            venue_positions,
        },
    )
}

impl AgentRiskManager {
    /// A manager with the given NAV and limits.
    pub fn new(
        nav: Decimal,
        agent_limits: Table<AgentRiskLimits>,
        instrument_limits: Table<InstrumentRiskLimits>,
        venue_limits: Table<VenueRiskLimits>,
    ) -> (r: AgentRiskManager)
        ensures
            r == (AgentRiskManager { nav, agent_limits, instrument_limits, venue_limits }),
    {
        AgentRiskManager { nav, agent_limits, instrument_limits, venue_limits }
    }

    /// The largest part of NAV that one order may amount to.
    fn position_nav_cap() -> (r: Decimal)
        ensures
            r@ == position_nav_cap_num(),
    {
        Decimal::new(5, 2)
    }

    /// The largest part of NAV that one order may lose.
    fn account_risk_nav_cap() -> (r: Decimal)
        ensures
            r@ == account_risk_nav_cap_num(),
    {
        Decimal::new(1, 2)
    }

    /// The drawdown below which nothing is traded.
    fn drawdown_halt_pct() -> (r: Decimal)
        ensures
            r@ == drawdown_halt_num(),
    {
        Decimal::new(-15, 2)
    }

    /// The smallest part of NAV to be kept in cash.
    fn cash_reserve_min_pct() -> (r: Decimal)
        ensures
            r@ == cash_reserve_num(),
    {
        Decimal::new(20, 2)
    }

    /// The smallest ratio of reward to risk that a signal may have.
    fn min_risk_reward_ratio() -> (r: Decimal)
        ensures
            r@ == min_risk_reward_num(),
    {
        Decimal::new(2, 0)
    }

    /// The NAV that limits are taken of.
    fn effective_nav(&self, firm_book: &FirmBook) -> (r: Result<Decimal, RiskViolation>)
        ensures
            match r {
                Ok(nav) => usable_nav(self.nav@, firm_book.nav@) == Ok::<Num, RiskViolationView>(
                    nav@,
                ),
                Err(v) => usable_nav(self.nav@, firm_book.nav@) == Err::<Num, RiskViolationView>(
                    v@,
                ),
            },
    {
        if !self.nav.is_positive() {
            return Err(
                violation(
                    "manager_nav_positive",
                    self.nav,
                    Decimal::zero(),
                    "reject",
                    "configured risk-manager NAV must be positive",
                ),
            );
        }
        if !firm_book.nav.is_positive() {
            return Err(
                violation(
                    "firm_nav_positive",
                    firm_book.nav,
                    Decimal::zero(),
                    "reject",
                    "firm-book NAV must be positive",
                ),
            );
        }
        Ok(self.nav.min(firm_book.nav))
    }

    /// Checks an agent's permissions.
    fn check_agent_permissions(
        core: &OrderCore,
        agent_limits: &AgentRiskLimits,
        hard_violations: &mut Vec<RiskViolation>,
    )
        ensures
            violation_views(final(hard_violations)@) == violation_views(old(hard_violations)@)
                + permission_violations(*core, *agent_limits),
    {
        match &agent_limits.allowed_instruments {
            Some(allowed) => {
                if lacks_instrument(allowed, &core.instrument_id) {
                    note(
                        hard_violations,
                        string_violation(
                            "agent_allowed_instruments",
                            core.instrument_id.as_str(),
                            "instrument in agent whitelist",
                            "agent is not permitted to trade this instrument",
                        ),
                    );
                }
            },
            None => {},
        }
        match &agent_limits.allowed_venues {
            Some(allowed) => {
                if lacks_venue(allowed, &core.venue_id) {
                    note(
                        hard_violations,
                        string_violation(
                            "agent_allowed_venues",
                            core.venue_id.as_str(),
                            "venue in agent whitelist",
                            "agent is not permitted to trade this venue",
                        ),
                    );
                }
            },
            None => {},
        }
        assert(violation_views(hard_violations@) =~= violation_views(old(hard_violations)@)
            + permission_violations(*core, *agent_limits));
    }

    /// Checks an agent's budget.
    fn check_agent_budget(
        books: &ProjectedBooks,
        agent_limits: &AgentRiskLimits,
        hard_violations: &mut Vec<RiskViolation>,
    )
        ensures
            violation_views(final(hard_violations)@) == violation_views(old(hard_violations)@)
                + budget_violations(books_view(*books), *agent_limits),
    {
        if books.agent_free.is_negative() {
            note(
                hard_violations,
                violation(
                    "agent_free_capital",
                    books.agent_free,
                    Decimal::zero(),
                    "reject",
                    "order exceeds the agent's free capital",
                ),
            );
        }
        if agent_limits.max_position_notional.is_less(books.agent_instrument_gross) {
            note(
                hard_violations,
                violation(
                    "agent_max_position_notional",
                    books.agent_instrument_gross,
                    agent_limits.max_position_notional,
                    "reject",
                    "order exceeds the agent's max single-position notional",
                ),
            );
        }
        if agent_limits.max_gross_notional.is_less(books.agent_gross) {
            note(
                hard_violations,
                violation(
                    "agent_max_gross_notional",
                    books.agent_gross,
                    agent_limits.max_gross_notional,
                    "reject",
                    "projected agent gross notional exceeds the configured cap",
                ),
            );
        }
        assert(violation_views(hard_violations@) =~= violation_views(old(hard_violations)@)
            + budget_violations(books_view(*books), *agent_limits));
    }

    /// Checks the order's size against NAV.
    fn check_position_limit(
        order_notional: Decimal,
        price: Decimal,
        nav: Decimal,
        resize_candidates: &mut Vec<ResizeCandidate>,
    ) -> (r: Option<()>)
        ensures
            match position_resize(order_notional@, price@, nav@) {
                Some(more) => {
                    &&& r is Some
                    &&& resize_views(final(resize_candidates)@) == resize_views(
                        old(resize_candidates)@,
                    ) + more
                    &&& more.len() > 0 && price@.m > 0 && nav@.m > 0 ==> divided(
                        num_mul(nav@, position_nav_cap_num())->0,
                        price@,
                        more[0].new_qty,
                    )
                },
                None => r is None,
            },
    {
        let max_position_notional = nav.checked_mul(Self::position_nav_cap())?;
        if max_position_notional.is_less(order_notional) {
            let new_qty = max_position_notional.checked_div(price)?;
            resize_candidates.push(
                ResizeCandidate {
                    new_qty,
                    reason: "position notional exceeds 5% NAV; resize to the 5% cap".to_owned(),
                    warning: soft_violation(
                        "position_notional_pct",
                        order_notional,
                        max_position_notional,
                        "resize",
                        "order exceeds the 5% NAV single-position cap",
                    ),
                },
            );
        }
        assert(resize_views(resize_candidates@) =~= resize_views(old(resize_candidates)@)
            + position_resize(order_notional@, price@, nav@)->0);
        Some(())
    }

    /// Checks the loss that the order risks against NAV.
    fn check_account_risk(
        core: &OrderCore,
        price: Decimal,
        nav: Decimal,
        resize_candidates: &mut Vec<ResizeCandidate>,
        hard_violations: &mut Vec<RiskViolation>,
    ) -> (r: Option<()>)
        ensures
            match account_risk(*core, price@, nav@) {
                Some((violations, resizes)) => {
                    &&& r is Some
                    &&& resize_views(final(resize_candidates)@) == resize_views(
                        old(resize_candidates)@,
                    ) + resizes
                    &&& violation_views(final(hard_violations)@) == violation_views(
                        old(hard_violations)@,
                    ) + violations
                    &&& resizes.len() > 0 && nav@.m > 0 ==> {
                        let risk = risk_per_unit(*core, price@)->0;
                        &&& multiplied(core.qty@, risk, num_mul(core.qty@, risk)->0)
                        &&& divided(
                            num_mul(nav@, account_risk_nav_cap_num())->0,
                            risk,
                            resizes[0].new_qty,
                        )
                    }
                },
                None => r is None,
            },
    {
        let risk_per_unit = match core.stop_loss {
            Some(stop_loss) => price.checked_sub(stop_loss)?.abs(),
            None => price,
        };
        let max_loss_cap = nav.checked_mul(Self::account_risk_nav_cap())?;
        let ghost (expected_violations, expected_resizes) = account_risk(*core, price@, nav@)->0;
        if !risk_per_unit.is_positive() {
            note(
                hard_violations,
                violation(
                    "account_risk_distance_positive",
                    risk_per_unit,
                    Decimal::zero(),
                    "reject",
                    "entry price and stop loss must define a positive loss distance",
                ),
            );
            assert(violation_views(hard_violations@) =~= violation_views(old(hard_violations)@)
                + expected_violations);
            assert(resize_views(resize_candidates@) =~= resize_views(old(resize_candidates)@)
                + expected_resizes);
            return Some(());
        }
        let projected_max_loss = core.qty.checked_mul(risk_per_unit)?;
        if max_loss_cap.is_less(projected_max_loss) {
            let new_qty = max_loss_cap.checked_div(risk_per_unit)?;
            resize_candidates.push(
                ResizeCandidate {
                    new_qty,
                    reason:
                        "projected account risk exceeds 1% NAV; resize to the max-loss cap".to_owned(),
                    warning: soft_violation(
                        "account_risk_pct",
                        projected_max_loss,
                        max_loss_cap,
                        "resize",
                        "projected max loss exceeds the 1% NAV cap",
                    ),
                },
            );
        }
        assert(violation_views(hard_violations@) =~= violation_views(old(hard_violations)@)
            + expected_violations);
        assert(resize_views(resize_candidates@) =~= resize_views(old(resize_candidates)@)
            + expected_resizes);
        Some(())
    }

    /// Checks the leverage that the order leads to.
    fn check_leverage(
        books: &ProjectedBooks,
        instrument_limits: &InstrumentRiskLimits,
        hard_violations: &mut Vec<RiskViolation>,
    ) -> (r: Option<()>)
        ensures
            match leverage_violations(books_view(*books), *instrument_limits) {
                Some(more) => r is Some && violation_views(final(hard_violations)@)
                    == violation_views(old(hard_violations)@) + more,
                None => r is None,
            },
    {
        let ghost expected = leverage_violations(books_view(*books), *instrument_limits);
        if !instrument_limits.max_leverage.is_positive() {
            note(
                hard_violations,
                violation(
                    "instrument_max_leverage_positive",
                    instrument_limits.max_leverage,
                    Decimal::zero(),
                    "reject",
                    "instrument max leverage must be positive",
                ),
            );
        } else if !books.agent_free.is_positive() {
            note(
                hard_violations,
                violation(
                    "agent_free_capital_positive",
                    books.agent_free,
                    Decimal::zero(),
                    "reject",
                    "agent free capital must be positive to evaluate leverage",
                ),
            );
        } else {
            let projected_leverage = books.agent_gross.checked_div(books.agent_free)?;
            if instrument_limits.max_leverage.is_less(projected_leverage) {
                note(
                    hard_violations,
                    violation(
                        "instrument_max_leverage",
                        projected_leverage,
                        instrument_limits.max_leverage,
                        "reject",
                        "projected leverage exceeds the instrument leverage cap",
                    ),
                );
            }
        }
        assert(violation_views(hard_violations@) =~= violation_views(old(hard_violations)@)
            + expected->0);
        Some(())
    }

    /// Checks the firm's drawdown.
    fn check_drawdown(firm_book: &FirmBook, hard_violations: &mut Vec<RiskViolation>)
        ensures
            violation_views(final(hard_violations)@) == violation_views(old(hard_violations)@)
                + drawdown_violations(*firm_book),
    {
        if firm_book.current_drawdown_pct.is_less(Self::drawdown_halt_pct()) {
            note(
                hard_violations,
                violation(
                    "firm_drawdown_pct",
                    firm_book.current_drawdown_pct,
                    Self::drawdown_halt_pct(),
                    "halt_all",
                    "firm drawdown breached the 15% halt threshold",
                ),
            );
        }
        assert(violation_views(hard_violations@) =~= violation_views(old(hard_violations)@)
            + drawdown_violations(*firm_book));
    }

    /// Checks the cash that is left after the order.
    fn check_cash_reserve(
        signed_order_notional: Decimal,
        nav: Decimal,
        firm_book: &FirmBook,
        hard_violations: &mut Vec<RiskViolation>,
    ) -> (r: Option<()>)
        ensures
            match cash_violations(signed_order_notional@, nav@, *firm_book) {
                Some(more) => r is Some && violation_views(final(hard_violations)@)
                    == violation_views(old(hard_violations)@) + more,
                None => r is None,
            },
    {
        let projected_cash_available = firm_book.cash_available.checked_sub(
            signed_order_notional,
        )?;
        let projected_cash_pct = projected_cash_available.checked_div(nav)?;
        if projected_cash_pct.is_less(Self::cash_reserve_min_pct()) {
            note(
                hard_violations,
                violation(
                    "cash_reserve_pct",
                    projected_cash_pct,
                    Self::cash_reserve_min_pct(),
                    "reject",
                    "projected cash reserve falls below the 20% NAV minimum",
                ),
            );
        }
        assert(violation_views(hard_violations@) =~= violation_views(old(hard_violations)@)
            + cash_violations(signed_order_notional@, nav@, *firm_book)->0);
        Some(())
    }

    /// Checks an instrument's limits.
    fn check_instrument_limits(
        nav: Decimal,
        instrument_limits: &InstrumentRiskLimits,
        books: &ProjectedBooks,
        hard_violations: &mut Vec<RiskViolation>,
    ) -> (r: Option<()>)
        ensures
            match instrument_violations(books_view(*books), nav@, *instrument_limits) {
                Some(more) => r is Some && violation_views(final(hard_violations)@)
                    == violation_views(old(hard_violations)@) + more,
                None => r is None,
            },
    {
        let projected_concentration_pct = books.instrument_gross_notional.checked_div(nav)?;
        let net_qty = books.instrument_net_qty.abs();
        if instrument_limits.max_net_qty.is_less(net_qty) {
            note(
                hard_violations,
                violation(
                    "instrument_max_net_qty",
                    net_qty,
                    instrument_limits.max_net_qty,
                    "reject",
                    "projected instrument net quantity exceeds the configured cap",
                ),
            );
        }
        if instrument_limits.max_gross_qty.is_less(books.instrument_gross_qty) {
            note(
                hard_violations,
                violation(
                    "instrument_max_gross_qty",
                    books.instrument_gross_qty,
                    instrument_limits.max_gross_qty,
                    "reject",
                    "projected instrument gross quantity exceeds the configured cap",
                ),
            );
        }
        if instrument_limits.max_concentration_pct.is_less(projected_concentration_pct) {
            note(
                hard_violations,
                violation(
                    "instrument_max_concentration_pct",
                    projected_concentration_pct,
                    instrument_limits.max_concentration_pct,
                    "reject",
                    "projected instrument exposure exceeds the concentration cap",
                ),
            );
        }
        assert(violation_views(hard_violations@) =~= violation_views(old(hard_violations)@)
            + instrument_violations(books_view(*books), nav@, *instrument_limits)->0);
        Some(())
    }

    /// Checks a venue's limits.
    fn check_venue_limits(
        books: &ProjectedBooks,
        nav: Decimal,
        venue_limits: &VenueRiskLimits,
        hard_violations: &mut Vec<RiskViolation>,
    ) -> (r: Option<()>)
        ensures
            match venue_violations(books_view(*books), nav@, *venue_limits) {
                Some(more) => r is Some && violation_views(final(hard_violations)@)
                    == violation_views(old(hard_violations)@) + more,
                None => r is None,
            },
    {
        let projected_pct_of_nav = books.venue_notional.checked_div(nav)?;
        if venue_limits.max_notional.is_less(books.venue_notional) {
            note(
                hard_violations,
                violation(
                    "venue_max_notional",
                    books.venue_notional,
                    venue_limits.max_notional,
                    "reject",
                    "projected venue notional exceeds the configured cap",
                ),
            );
        }
        if venue_limits.max_pct_of_nav.is_less(projected_pct_of_nav) {
            note(
                hard_violations,
                violation(
                    "venue_max_pct_of_nav",
                    projected_pct_of_nav,
                    venue_limits.max_pct_of_nav,
                    "reject",
                    "projected venue concentration exceeds the NAV cap",
                ),
            );
        }
        if books.venue_positions > venue_limits.max_positions {
            note(
                hard_violations,
                violation(
                    "venue_max_positions",
                    Decimal::from_u32(books.venue_positions),
                    Decimal::from_u32(venue_limits.max_positions),
                    "reject",
                    "projected venue position count exceeds the configured cap",
                ),
            );
        }
        assert(violation_views(hard_violations@) =~= violation_views(old(hard_violations)@)
            + venue_violations(books_view(*books), nav@, *venue_limits)->0);
        Some(())
    }

    /// Checks what a signal must define.
    fn check_signal_requirements(
        core: &OrderCore,
        price: Decimal,
        hard_violations: &mut Vec<RiskViolation>,
    ) -> (r: Option<()>)
        ensures
            match signal_violations(*core, price@) {
                Some(more) => r is Some && violation_views(final(hard_violations)@)
                    == violation_views(old(hard_violations)@) + more,
                None => r is None,
            },
    {
        let ghost expected = signal_violations(*core, price@);
        match core.stop_loss {
            None => {
                note(
                    hard_violations,
                    string_violation(
                        "signal_stop_loss_required",
                        "missing",
                        "present",
                        "SubmitSignal orders must define a stop loss",
                    ),
                );
            },
            Some(stop_loss) => {
                if let Some(take_profit) = core.take_profit {
                    let risk_distance = price.checked_sub(stop_loss)?.abs();
                    if !risk_distance.is_positive() {
                        note(
                            hard_violations,
                            violation(
                                "signal_risk_distance_positive",
                                risk_distance,
                                Decimal::zero(),
                                "reject",
                                "risk/reward evaluation requires a positive stop distance",
                            ),
                        );
                    } else {
                        let reward_distance = take_profit.checked_sub(price)?.abs();
                        let risk_reward_ratio = reward_distance.checked_div(risk_distance)?;
                        if risk_reward_ratio.is_less(Self::min_risk_reward_ratio()) {
                            note(
                                hard_violations,
                                violation(
                                    "signal_risk_reward_ratio",
                                    risk_reward_ratio,
                                    Self::min_risk_reward_ratio(),
                                    "reject",
                                    "signal risk/reward ratio is below 2:1",
                                ),
                            );
                        }
                    }
                }
            },
        }
        assert(violation_views(hard_violations@) =~= violation_views(old(hard_violations)@)
            + expected->0);
        Some(())
    }

    /// The position of the smallest resize.
    fn tightest_resize(candidates: &Vec<ResizeCandidate>) -> (r: Option<usize>)
        ensures
            match r {
                Some(i) => i < candidates@.len() && tightest(resize_views(candidates@)) == Some(
                    resize_view(candidates@[i as int]),
                ),
                None => tightest(resize_views(candidates@)) is None,
            },
    {
        let mut best: Option<usize> = None;
        let mut i: usize = 0;
        while i < candidates.len()
            invariant
                i <= candidates.len(),
                match best {
                    Some(b) => b < i && tightest(resize_views(candidates@.take(i as int))) == Some(
                        resize_view(candidates@[b as int]),
                    ),
                    None => tightest(resize_views(candidates@.take(i as int))) is None,
                },
            decreases candidates.len() - i,
        {
            let ghost longer = resize_views(candidates@.take(i + 1));
            assert(longer.drop_last() =~= resize_views(candidates@.take(i as int)));
            assert(longer.last() == resize_view(candidates@[i as int]));
            best = match best {
                Some(b) => if candidates[i].new_qty.is_less(candidates[b].new_qty) {
                    Some(i)
                } else {
                    Some(b)
                },
                None => Some(i),
            };
            i = i + 1;
        }
        assert(candidates@.take(i as int) =~= candidates@);
        best
    }

    /// Runs all checks on an order whose limits are configured.
    fn run_checks(
        core: &OrderCore,
        price: Decimal,
        nav: Decimal,
        firm_book: &FirmBook,
        books: &ProjectedBooks,
        agent_limits: &AgentRiskLimits,
        instrument_limits: &InstrumentRiskLimits,
        venue_limits: &VenueRiskLimits,
        path: EvaluationPath,
        hard_violations: &mut Vec<RiskViolation>,
        resize_candidates: &mut Vec<ResizeCandidate>,
    ) -> (r: Option<()>)
        requires
            old(hard_violations)@.len() == 0,
            old(resize_candidates)@.len() == 0,
            price@.m > 0,
            nav@.m > 0,
            num_mul(core.qty@, price@) == Some(books.order_notional@),
            multiplied(core.qty@, price@, books.order_notional@),
        ensures
            ({
                let limits = OrderLimits {
                    agent: *agent_limits,
                    instrument: *instrument_limits,
                    venue: *venue_limits,
                };
                let p = books_view(*books);
                match (
                    all_violations(*core, price@, nav@, *firm_book, limits, path, p),
                    all_resizes(*core, price@, nav@, p),
                ) {
                    (Some(violations), Some(resizes)) => {
                        &&& r is Some
                        &&& violation_views(final(hard_violations)@) == violations
                        &&& resize_views(final(resize_candidates)@) == resizes
                        &&& all_shrink(*core, price@, nav@, resizes)
                    },
                    _ => r is None,
                }
            }),
    {
        let ghost no_violations = violation_views(hard_violations@);
        let ghost no_resizes = resize_views(resize_candidates@);
        proof {
            assert forall|x: Seq<RiskViolationView>| #[trigger] (no_violations + x) == x by {
                assert(no_violations + x =~= x);
            }
            assert forall|x: Seq<Resize>| #[trigger] (no_resizes + x) == x by {
                assert(no_resizes + x =~= x);
            }
        }
        Self::check_agent_permissions(core, agent_limits, hard_violations);
        Self::check_agent_budget(books, agent_limits, hard_violations);
        Self::check_position_limit(books.order_notional, price, nav, resize_candidates)?;
        Self::check_account_risk(core, price, nav, resize_candidates, hard_violations)?;
        Self::check_leverage(books, instrument_limits, hard_violations)?;
        Self::check_drawdown(firm_book, hard_violations);
        Self::check_cash_reserve(books.signed_notional, nav, firm_book, hard_violations)?;
        Self::check_instrument_limits(nav, instrument_limits, books, hard_violations)?;
        Self::check_venue_limits(books, nav, venue_limits, hard_violations)?;
        if path == EvaluationPath::SubmitSignal {
            Self::check_signal_requirements(core, price, hard_violations)?;
        }
        proof {
            lemma_all_shrink(*core, price@, nav@, books_view(*books));
        }
        Some(())
    }

    /// What the violations and the resizes that were found amount to.
    fn concluded(
        hard_violations: Vec<RiskViolation>,
        resize_candidates: Vec<ResizeCandidate>,
    ) -> (r: RiskOutcome)
        ensures
            r@ == verdict(violation_views(hard_violations@), resize_views(resize_candidates@)),
    {
        if hard_violations.len() > 0 {
            return RiskOutcome::Rejected { violations: hard_violations };
        }
        match Self::tightest_resize(&resize_candidates) {
            Some(i) => {
                let mut candidates = resize_candidates;
                let candidate = candidates.swap_remove(i);
                let mut warnings: Vec<RiskViolation> = Vec::new();
                note(&mut warnings, candidate.warning);
                assert(violation_views(warnings@) =~= seq![candidate.warning@]);
                RiskOutcome::Resized {
                    new_qty: candidate.new_qty,
                    reason: candidate.reason,
                    warnings,
                }
            },
            None => {
                let warnings: Vec<RiskViolation> = Vec::new();
                assert(violation_views(warnings@) =~= seq![]);
                RiskOutcome::Approved { warnings }
            },
        }
    }

    /// Evaluates an order whose limits are configured, if every number stays in range.
    fn evaluate_configured(
        core: &OrderCore,
        price: Decimal,
        nav: Decimal,
        firm_book: &FirmBook,
        allocation: &AgentAllocation,
        agent_limits: &AgentRiskLimits,
        instrument_limits: &InstrumentRiskLimits,
        venue_limits: &VenueRiskLimits,
        path: EvaluationPath,
    ) -> (r: Option<RiskOutcome>)
        requires
            firm_book.instruments@.len() < u32::MAX,
            price@.m > 0,
            nav@.m > 0,
        ensures
            r matches Some(outcome) ==> outcome_shrinks(*core, price@, nav@, outcome@),
            ({
                let limits = OrderLimits {
                    agent: *agent_limits,
                    instrument: *instrument_limits,
                    venue: *venue_limits,
                };
                let expected = checked_evaluation(
                    *core,
                    price@,
                    nav@,
                    *firm_book,
                    *allocation,
                    limits,
                    path,
                );
                match r {
                    Some(outcome) => expected == Some(outcome@),
                    None => expected is None,
                }
            }),
    {
        let books = project_books(core, price, firm_book, allocation)?;
        let mut hard_violations: Vec<RiskViolation> = Vec::new();
        let mut resize_candidates: Vec<ResizeCandidate> = Vec::new();
        Self::run_checks(
            core,
            price,
            nav,
            firm_book,
            &books,
            agent_limits,
            instrument_limits,
            venue_limits,
            path,
            &mut hard_violations,
            &mut resize_candidates,
        )?;
        proof {
            lemma_verdict_shrinks(
                *core,
                price@,
                nav@,
                violation_views(hard_violations@),
                resize_views(resize_candidates@),
            );
        }
        Some(Self::concluded(hard_violations, resize_candidates))
    }

    /// Evaluates an order, if every number stays in range.
    fn evaluate_within(&self, core: &OrderCore, firm_book: &FirmBook, path: EvaluationPath) -> (r:
        Option<RiskOutcome>)
        requires
            firm_book.instruments@.len() < u32::MAX,
        ensures
            match r {
                Some(outcome) => {
                    &&& evaluation(*self, *core, *firm_book, path) == Some(outcome@)
                    &&& outcome_shrinks(
                        *core,
                        core.price->0@,
                        usable_nav(self.nav@, firm_book.nav@)->Ok_0,
                        outcome@,
                    )
                },
                None => evaluation(*self, *core, *firm_book, path) is None,
            },
    {
        let price = match core.price {
            Some(price) => price,
            None => {
                return Some(
                    rejected(
                        string_violation(
                            "order_price_required",
                            "missing",
                            "present",
                            "order price is required for deterministic risk evaluation",
                        ),
                    ),
                );
            },
        };
        if !price.is_positive() {
            return Some(
                rejected(
                    violation(
                        "order_price_positive",
                        price,
                        Decimal::zero(),
                        "reject",
                        "order price must be positive for risk evaluation",
                    ),
                ),
            );
        }
        if !core.qty.is_positive() {
            return Some(
                rejected(
                    violation(
                        "order_qty_positive",
                        core.qty,
                        Decimal::zero(),
                        "reject",
                        "order quantity must be positive",
                    ),
                ),
            );
        }
        let nav = match self.effective_nav(firm_book) {
            Ok(nav) => nav,
            Err(v) => {
                return Some(rejected(v));
            },
        };
        let agent_limits = match self.agent_limits.get(core.agent_id.as_str()) {
            Some(limits) => limits,
            None => {
                return Some(
                    rejected(
                        string_violation(
                            "agent_limits_present",
                            core.agent_id.as_str(),
                            "configured agent limits",
                            "agent risk limits are not configured",
                        ),
                    ),
                );
            },
        };
        let allocation = match firm_book.agent_allocations.get(core.agent_id.as_str()) {
            Some(allocation) => allocation,
            None => {
                return Some(
                    rejected(
                        string_violation(
                            "agent_allocation_present",
                            core.agent_id.as_str(),
                            "active agent allocation",
                            "agent allocation is not present in the firm book",
                        ),
                    ),
                );
            },
        };
        let instrument_limits = match self.instrument_limits.get(core.instrument_id.as_str()) {
            Some(limits) => limits,
            None => {
                return Some(
                    rejected(
                        string_violation(
                            "instrument_limits_present",
                            core.instrument_id.as_str(),
                            "configured instrument limits",
                            "instrument risk limits are not configured",
                        ),
                    ),
                );
            },
        };
        let venue_limits = match self.venue_limits.get(core.venue_id.as_str()) {
            Some(limits) => limits,
            None => {
                return Some(
                    rejected(
                        string_violation(
                            "venue_limits_present",
                            core.venue_id.as_str(),
                            "configured venue limits",
                            "venue risk limits are not configured",
                        ),
                    ),
                );
            },
        };
        Self::evaluate_configured(
            core,
            price,
            nav,
            firm_book,
            allocation,
            agent_limits,
            instrument_limits,
            venue_limits,
            path,
        )
    }

    /// Evaluate an order against all limits.
    pub fn evaluate(
        &self,
        order: &PipelineOrder<Validated>,
        firm_book: &FirmBook,
        path: EvaluationPath,
    ) -> (r: RiskOutcome)
        requires
            firm_book.instruments@.len() < u32::MAX,
            evaluation(*self, order.order(), *firm_book, path) is Some,
        ensures
            evaluation(*self, order.order(), *firm_book, path) == Some(r@),
            outcome_shrinks(
                order.order(),
                order.order().price->0@,
                usable_nav(self.nav@, firm_book.nav@)->Ok_0,
                r@,
            ),
    {
        self.evaluate_within(order.order_core(), firm_book, path).unwrap()
    }

    /// Evaluate an order against all limits; `None` where a number exceeds its range.
    pub fn checked_evaluate(
        &self,
        order: &PipelineOrder<Validated>,
        firm_book: &FirmBook,
        path: EvaluationPath,
    ) -> (r: Option<RiskOutcome>)
        requires
            firm_book.instruments@.len() < u32::MAX,
        ensures
            match r {
                Some(outcome) => {
                    &&& evaluation(*self, order.order(), *firm_book, path) == Some(outcome@)
                    &&& outcome_shrinks(
                        order.order(),
                        order.order().price->0@,
                        usable_nav(self.nav@, firm_book.nav@)->Ok_0,
                        outcome@,
                    )
                },
                None => evaluation(*self, order.order(), *firm_book, path) is None,
            },
    {
        if self.evaluate_within(order.order_core(), firm_book, path).is_some() {
            Some(self.evaluate(order, firm_book, path))
        } else {
            None
        }
    }
}

// ─── Laws ───

/// Whether all violations of a list are hard.
pub open spec fn all_hard(violations: Seq<RiskViolationView>) -> bool {
    forall|i: int| 0 <= i < violations.len() ==> (#[trigger] violations[i]).violation_type is Hard
}

/// Whether all violations of a list that may be missing are hard.
spec fn hard_or_missing(violations: Option<Seq<RiskViolationView>>) -> bool {
    violations matches Some(v) ==> all_hard(v)
}

/// Two lists of hard violations are one together.
proof fn lemma_both_hard(a: Option<Seq<RiskViolationView>>, b: Option<Seq<RiskViolationView>>)
    requires
        hard_or_missing(a),
        hard_or_missing(b),
    ensures
        hard_or_missing(both(a, b)),
{
}

/// What the checks of an agent and of the order's risk find is hard.
proof fn lemma_agent_violations_hard(
    core: OrderCore,
    price: Num,
    nav: Num,
    limits: AgentRiskLimits,
    p: Projection,
)
    ensures
        all_hard(permission_violations(core, limits) + budget_violations(p, limits)),
        account_risk(core, price, nav) matches Some((v, _)) ==> all_hard(v),
{
}

/// What the checks of the firm's books find is hard.
proof fn lemma_book_violations_hard(
    nav: Num,
    book: FirmBook,
    limits: OrderLimits,
    p: Projection,
)
    ensures
        hard_or_missing(leverage_violations(p, limits.instrument)),
        all_hard(drawdown_violations(book)),
        hard_or_missing(cash_violations(p.signed_notional, nav, book)),
        hard_or_missing(instrument_violations(p, nav, limits.instrument)),
        hard_or_missing(venue_violations(p, nav, limits.venue)),
{
}

/// What the checks of a signal find is hard.
proof fn lemma_signal_violations_hard(core: OrderCore, price: Num)
    ensures
        hard_or_missing(signal_violations(core, price)),
{
}

/// Lists of hard violations are one together.
proof fn lemma_joined_hard(
    agent: Option<Seq<RiskViolationView>>,
    risk: Option<Seq<RiskViolationView>>,
    leverage: Option<Seq<RiskViolationView>>,
    drawdown: Option<Seq<RiskViolationView>>,
    cash: Option<Seq<RiskViolationView>>,
    instrument: Option<Seq<RiskViolationView>>,
    venue: Option<Seq<RiskViolationView>>,
    signal: Option<Seq<RiskViolationView>>,
)
    requires
        hard_or_missing(agent),
        hard_or_missing(risk),
        hard_or_missing(leverage),
        hard_or_missing(drawdown),
        hard_or_missing(cash),
        hard_or_missing(instrument),
        hard_or_missing(venue),
        hard_or_missing(signal),
    ensures
        ({
            let firm = both(both(both(both(agent, risk), leverage), drawdown), cash);
            let checked = both(both(firm, instrument), venue);
            hard_or_missing(checked) && hard_or_missing(both(checked, signal))
        }),
{
    let at_risk = both(agent, risk);
    let levered = both(at_risk, leverage);
    let drawn = both(levered, drawdown);
    let firm = both(drawn, cash);
    let held = both(firm, instrument);
    lemma_both_hard(agent, risk);
    lemma_both_hard(at_risk, leverage);
    lemma_both_hard(levered, drawdown);
    lemma_both_hard(drawn, cash);
    lemma_both_hard(firm, instrument);
    lemma_both_hard(held, venue);
    lemma_both_hard(both(held, venue), signal);
}

/// All violations that the checks find are hard.
proof fn lemma_all_violations_hard(
    core: OrderCore,
    price: Num,
    nav: Num,
    book: FirmBook,
    limits: OrderLimits,
    path: EvaluationPath,
    p: Projection,
)
    ensures
        all_violations(core, price, nav, book, limits, path, p) matches Some(v) ==> all_hard(v),
{
    lemma_agent_violations_hard(core, price, nav, limits.agent, p);
    lemma_book_violations_hard(nav, book, limits, p);
    lemma_signal_violations_hard(core, price);
    lemma_joined_hard(
        Some(permission_violations(core, limits.agent) + budget_violations(p, limits.agent)),
        match account_risk(core, price, nav) {
            Some((v, _)) => Some(v),
            None => None,
        },
        leverage_violations(p, limits.instrument),
        Some(drawdown_violations(book)),
        cash_violations(p.signed_notional, nav, book),
        instrument_violations(p, nav, limits.instrument),
        venue_violations(p, nav, limits.venue),
        signal_violations(core, price),
    );
}

proof fn lemma_tightest_is_soft(resizes: Seq<Resize>)
    requires
        forall|i: int| 0 <= i < resizes.len() ==> (#[trigger] resizes[i]).warning.violation_type
            is Soft,
    ensures
        tightest(resizes) matches Some(t) ==> t.warning.violation_type is Soft,
    decreases resizes.len(),
{
    if resizes.len() > 0 {
        assert forall|i: int| 0 <= i < resizes.drop_last().len() implies (
        #[trigger] resizes.drop_last()[i]).warning.violation_type is Soft by {
            assert(resizes.drop_last()[i] == resizes[i]);
        }
        lemma_tightest_is_soft(resizes.drop_last());
    }
}

/// Whether an outcome is as severe as its violations.
pub open spec fn severity_fits(outcome: RiskOutcomeView) -> bool {
    match outcome {
        RiskOutcomeView::Rejected { violations } => violations.len() > 0 && all_hard(violations),
        RiskOutcomeView::Resized { warnings, .. } => warnings.len() == 1
            && warnings[0].violation_type is Soft,
        RiskOutcomeView::Approved { warnings } => warnings.len() == 0,
    }
}

proof fn lemma_resizes_are_soft(core: OrderCore, price: Num, nav: Num, p: Projection)
    ensures
        all_resizes(core, price, nav, p) matches Some(resizes) ==> forall|i: int|
            0 <= i < resizes.len() ==> (#[trigger] resizes[i]).warning.violation_type is Soft,
{
}

proof fn lemma_checked_severity(
    core: OrderCore,
    price: Num,
    nav: Num,
    book: FirmBook,
    allocation: AgentAllocation,
    limits: OrderLimits,
    path: EvaluationPath,
)
    ensures
        checked_evaluation(core, price, nav, book, allocation, limits, path) matches Some(outcome)
            ==> severity_fits(outcome),
{
    let projected_books = projection(core, price, book, allocation);
    if projected_books is Some {
        let p = projected_books->0;
        lemma_all_violations_hard(core, price, nav, book, limits, path, p);
        lemma_resizes_are_soft(core, price, nav, p);
        if all_resizes(core, price, nav, p) is Some {
            lemma_tightest_is_soft(all_resizes(core, price, nav, p)->0);
        }
    }
}

/// A rejection names at least one violation, and all that it names are hard. A resize
/// carries exactly one warning, which is soft. An approval carries none.
pub proof fn law_outcome_severity(
    manager: AgentRiskManager,
    core: OrderCore,
    book: FirmBook,
    path: EvaluationPath,
)
    ensures
        evaluation(manager, core, book, path) matches Some(outcome) ==> severity_fits(outcome),
{
    if core.price is Some && usable_nav(manager.nav@, book.nav@) is Ok {
        lemma_checked_severity(
            core,
            core.price->0@,
            usable_nav(manager.nav@, book.nav@)->Ok_0,
            book,
            book.agent_allocations@[core.agent_id@],
            OrderLimits {
                agent: manager.agent_limits@[core.agent_id@],
                instrument: manager.instrument_limits@[core.instrument_id@],
                venue: manager.venue_limits@[core.venue_id@],
            },
            path,
        );
    }
}

/// What passes as a signal passes as an order, with the same outcome, and has a stop loss:
/// the signal path adds checks to those of the other paths and drops none.
pub proof fn law_signal_path_is_stricter(manager: AgentRiskManager, core: OrderCore, book: FirmBook)
    requires
        evaluation(manager, core, book, EvaluationPath::SubmitSignal) is Some,
        !(evaluation(manager, core, book, EvaluationPath::SubmitSignal)->0 is Rejected),
    ensures
        core.stop_loss is Some,
        evaluation(manager, core, book, EvaluationPath::SubmitOrder) == evaluation(
            manager,
            core,
            book,
            EvaluationPath::SubmitSignal,
        ),
{
    let price = core.price->0@;
    let nav = usable_nav(manager.nav@, book.nav@)->Ok_0;
    let limits = OrderLimits {
        agent: manager.agent_limits@[core.agent_id@],
        instrument: manager.instrument_limits@[core.instrument_id@],
        venue: manager.venue_limits@[core.venue_id@],
    };
    let p = projection(core, price, book, book.agent_allocations@[core.agent_id@])->0;
    let as_signal = all_violations(
        core,
        price,
        nav,
        book,
        limits,
        EvaluationPath::SubmitSignal,
        p,
    )->0;
    let as_order = all_violations(core, price, nav, book, limits, EvaluationPath::SubmitOrder, p)->0;
    let added = signal_violations(core, price)->0;
    assert(as_signal == as_order + added);
    assert(as_signal.len() == as_order.len() + added.len());
    assert(as_order =~= as_signal);
}

/// A batch is judged like single orders.
pub proof fn law_batch_is_judged_like_orders(
    manager: AgentRiskManager,
    core: OrderCore,
    book: FirmBook,
)
    ensures
        evaluation(manager, core, book, EvaluationPath::SubmitBatch) == evaluation(
            manager,
            core,
            book,
            EvaluationPath::SubmitOrder,
        ),
{
}

/// Beyond the drawdown halt nothing passes.
pub proof fn law_drawdown_halts(
    manager: AgentRiskManager,
    core: OrderCore,
    book: FirmBook,
    path: EvaluationPath,
)
    requires
        num_lt(book.current_drawdown_pct@, drawdown_halt_num()),
    ensures
        evaluation(manager, core, book, path) matches Some(outcome) ==> outcome is Rejected,
{
    if core.price is Some && usable_nav(manager.nav@, book.nav@) is Ok {
        let price = core.price->0@;
        let nav = usable_nav(manager.nav@, book.nav@)->Ok_0;
        let limits = OrderLimits {
            agent: manager.agent_limits@[core.agent_id@],
            instrument: manager.instrument_limits@[core.instrument_id@],
            venue: manager.venue_limits@[core.venue_id@],
        };
        let projected_books = projection(
            core,
            price,
            book,
            book.agent_allocations@[core.agent_id@],
        );
        if projected_books is Some {
            let p = projected_books->0;
            let all = all_violations(core, price, nav, book, limits, path, p);
            assert(drawdown_violations(book).len() == 1);
            assert(all matches Some(v) ==> v.len() >= 1);
        }
    }
}

/// Risk isolation: limits and allocations of other agents play no part in the evaluation
/// of an agent's order.
pub proof fn law_other_agents_play_no_part(
    manager: AgentRiskManager,
    other_manager: AgentRiskManager,
    core: OrderCore,
    book: FirmBook,
    other_book: FirmBook,
    path: EvaluationPath,
)
    requires
        other_manager == (AgentRiskManager {
            agent_limits: other_manager.agent_limits,
            ..manager
        }),
        other_book == (FirmBook { agent_allocations: other_book.agent_allocations, ..book }),
        manager.agent_limits@.contains_key(core.agent_id@)
            == other_manager.agent_limits@.contains_key(core.agent_id@),
        manager.agent_limits@[core.agent_id@] == other_manager.agent_limits@[core.agent_id@],
        book.agent_allocations@.contains_key(core.agent_id@)
            == other_book.agent_allocations@.contains_key(core.agent_id@),
        book.agent_allocations@[core.agent_id@] == other_book.agent_allocations@[core.agent_id@],
    ensures
        evaluation(other_manager, core, other_book, path) == evaluation(manager, core, book, path),
{
    let price = core.price->0@;
    assert(projection(core, price, other_book, other_book.agent_allocations@[core.agent_id@])
        == projection(core, price, book, book.agent_allocations@[core.agent_id@]));
}

/// Whether the two sizing rules round nothing for an order: neither what the order amounts
/// to and risks, nor the sizes that the caps allow.
pub open spec fn sizing_is_exact(core: OrderCore, price: Num, nav: Num) -> bool {
    &&& num_mul(nav, position_nav_cap_num()) matches Some(cap) ==> {
        &&& cap.m > 0
        &&& num_mul(core.qty@, price) matches Some(notional) ==> is_exact_product(
            core.qty@,
            price,
            notional,
        )
        &&& num_div(cap, price) matches Some(qty) ==> is_exact_product(qty, price, cap)
    }
    &&& num_mul(nav, account_risk_nav_cap_num()) matches Some(cap) ==> {
        &&& cap.m > 0
        &&& risk_per_unit(core, price) matches Some(risk) ==> {
            &&& num_mul(core.qty@, risk) matches Some(loss) ==> is_exact_product(
                core.qty@,
                risk,
                loss,
            )
            &&& num_div(cap, risk) matches Some(qty) ==> is_exact_product(qty, risk, cap)
        }
    }
}

/// The tightest resize is one of the resizes.
proof fn lemma_tightest_is_listed(resizes: Seq<Resize>) -> (at: int)
    requires
        resizes.len() > 0,
    ensures
        0 <= at < resizes.len(),
        tightest(resizes) == Some(resizes[at]),
    decreases resizes.len(),
{
    let rest = resizes.drop_last();
    if rest.len() == 0 {
        assert(tightest(rest) is None);
        0
    } else {
        let at = lemma_tightest_is_listed(rest);
        if num_lt(resizes.last().new_qty, rest[at].new_qty) {
            resizes.len() - 1
        } else {
            at
        }
    }
}

/// The verdict on an order that only shrinking resizes were found for shrinks it.
proof fn lemma_verdict_shrinks(
    core: OrderCore,
    price: Num,
    nav: Num,
    violations: Seq<RiskViolationView>,
    resizes: Seq<Resize>,
)
    requires
        all_shrink(core, price, nav, resizes),
    ensures
        outcome_shrinks(core, price, nav, verdict(violations, resizes)),
{
    if resizes.len() > 0 {
        let at = lemma_tightest_is_listed(resizes);
        assert(resize_shrinks(core, price, nav, resizes[at].new_qty, resizes[at].reason));
    } else {
        assert(tightest(resizes) is None);
    }
}

/// Where the sizing rules round nothing, every resize is a positive size below the order's.
proof fn lemma_resizes_shrink(core: OrderCore, price: Num, nav: Num, p: Projection)
    requires
        price.m > 0,
        num_mul(core.qty@, price) == Some(p.order_notional),
        sizing_is_exact(core, price, nav),
        all_resizes(core, price, nav, p) is Some,
    ensures
        forall|i: int|
            0 <= i < all_resizes(core, price, nav, p)->0.len() ==> {
                let new_qty = (#[trigger] all_resizes(core, price, nav, p)->0[i]).new_qty;
                new_qty.m > 0 && num_lt(new_qty, core.qty@)
            },
{
    let qty = core.qty@;
    let by_position = position_resize(p.order_notional, price, nav)->0;
    let (_, by_risk) = account_risk(core, price, nav)->0;
    if by_position.len() > 0 {
        let cap = num_mul(nav, position_nav_cap_num())->0;
        let new_qty = num_div(cap, price)->0;
        lemma_smaller_product(new_qty, qty, price, cap, p.order_notional);
        lemma_positive_factor(new_qty, price, cap);
        assert(by_position.len() == 1 && by_position[0].new_qty == new_qty);
    }
    if by_risk.len() > 0 {
        let cap = num_mul(nav, account_risk_nav_cap_num())->0;
        let risk = risk_per_unit(core, price)->0;
        let loss = num_mul(qty, risk)->0;
        let new_qty = num_div(cap, risk)->0;
        lemma_smaller_product(new_qty, qty, risk, cap, loss);
        lemma_positive_factor(new_qty, risk, cap);
        assert(by_risk.len() == 1 && by_risk[0].new_qty == new_qty);
    }
    let all = by_position + by_risk;
    assert forall|i: int| 0 <= i < all.len() implies (#[trigger] all[i]).new_qty.m > 0 && num_lt(
        all[i].new_qty,
        qty,
    ) by {
        if i < by_position.len() {
            assert(all[i] == by_position[i]);
        } else {
            assert(all[i] == by_risk[i - by_position.len()]);
        }
    }
}

/// A resize shrinks the order and leaves something of it, where the sizing rules round
/// nothing.
pub proof fn law_exact_resize_shrinks(
    manager: AgentRiskManager,
    core: OrderCore,
    book: FirmBook,
    path: EvaluationPath,
)
    requires
        evaluation(manager, core, book, path) is Some,
        evaluation(manager, core, book, path)->0 is Resized,
        sizing_is_exact(core, core.price->0@, usable_nav(manager.nav@, book.nav@)->Ok_0),
    ensures
        evaluation(manager, core, book, path)->0 matches RiskOutcomeView::Resized { new_qty, .. }
            && new_qty.m > 0 && num_lt(new_qty, core.qty@),
{
    let price = core.price->0@;
    let nav = usable_nav(manager.nav@, book.nav@)->Ok_0;
    let p = projection(core, price, book, book.agent_allocations@[core.agent_id@])->0;
    lemma_resizes_shrink(core, price, nav, p);
    let resizes = all_resizes(core, price, nav, p)->0;
    if resizes.len() > 0 {
        let at = lemma_tightest_is_listed(resizes);
        assert(resizes[at].new_qty.m > 0);
    } else {
        assert(tightest(resizes) is None);
    }
}

/// Whether what a cap allows of an order can be told from nothing and from all of it: it is
/// at least the smallest number, and some number below the order's size reaches it.
pub open spec fn leaves_room(cap: Num, unit: Num, qty: Num) -> bool {
    &&& units(unit) <= units(cap) * units_in_one()
    &&& exists|c: Num|
        #[trigger] in_range(c.m, c.s) && num_lt(c, qty) && units(cap) * units_in_one() <= units(c)
            * units(unit)
}

/// A resize shrinks the order and leaves something of it, whatever is rounded, where what
/// the cap of the rule that gave it allows can be told from nothing and from the whole
/// order.
pub proof fn law_resize_is_between(core: OrderCore, price: Num, nav: Num, outcome: RiskOutcomeView)
    requires
        outcome_shrinks(core, price, nav, outcome),
        outcome is Resized,
        forall|rule: SizingRule| #[trigger]
            sized_by(rule, core, price, nav, outcome->new_qty, outcome->reason) ==> leaves_room(
                rule_cap(rule, nav)->0,
                rule_unit(rule, core, price)->0,
                core.qty@,
            ),
    ensures
        outcome matches RiskOutcomeView::Resized { new_qty, .. } && new_qty.m > 0 && num_lt(
            new_qty,
            core.qty@,
        ),
{
    reveal(resize_shrinks);
    let (new_qty, reason) = (outcome->new_qty, outcome->reason);
    let rule = choose|rule: SizingRule|
        {
            &&& #[trigger] sized_by(rule, core, price, nav, new_qty, reason)
            &&& shrinks(
                rule_cap(rule, nav)->0,
                rule_unit(rule, core, price)->0,
                core.qty@,
                new_qty,
            )
        };
    assert(sized_by(rule, core, price, nav, new_qty, reason));
}

/// One rule alone gives a size: the reason tells which.
pub proof fn law_one_rule_gives_a_size(
    core: OrderCore,
    price: Num,
    nav: Num,
    new_qty: Num,
    reason: Seq<char>,
    a: SizingRule,
    b: SizingRule,
)
    requires
        sized_by(a, core, price, nav, new_qty, reason),
        sized_by(b, core, price, nav, new_qty, reason),
    ensures
        a == b,
{
    reveal_strlit("position notional exceeds 5% NAV; resize to the 5% cap");
    reveal_strlit("projected account risk exceeds 1% NAV; resize to the max-loss cap");
    assert("position notional exceeds 5% NAV; resize to the 5% cap"@.len()
        != "projected account risk exceeds 1% NAV; resize to the max-loss cap"@.len());
}

} // verus!
