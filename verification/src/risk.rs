//! Risk — shared types of the circuit breakers (layer 0) and the risk gate (layer 1), and
//! the layer 1 evaluation of orders.
//!
//! Path-aware checks: universal (all order paths) + signal-specific (`SubmitSignal` only).
//! `AgentRiskManager` provides deterministic layer 1 evaluation.

use crate::decimal::{
    in_range, is_writable, least, lemma_pow10_positive, lemma_units_sign, magnitude, num, num_abs,
    num_add, num_min, num_neg, num_sub, num_zero, o_add, o_div, o_sub, opt_num, quotient_units,
    units, units_in_one, Decimal, Num, MAX_SCALE,
};
use crate::ids::{AgentId, InstrumentId, VenueId};
use crate::limits::{
    violation_views, RiskCheckResult, RiskLimits, RiskOutcome, RiskViolation, RiskViolationView,
};
use crate::pipeline::{Fill, PipelineOrder, Validated};
use crate::pnl::PriceSource;
use crate::portfolio::{AgentExposure, FirmBook, InstrumentExposure, VenueExposure};
use crate::signal::Side;
use crate::text::{joined, joined3, joined4};
use crate::time::Timestamp;
use vstd::prelude::*;

verus! {

/// Typed errors for risk operations.
#[derive(Debug)]
pub enum RiskError {
    CircuitBreakerTripped { breaker: String, reason: String },
    Rejected(String),
    StalePriceData { instrument: String },
    AgentNotFound(String),
}

/// The text of a risk error.
pub open spec fn risk_error_text(e: RiskError) -> Seq<char> {
    match e {
        RiskError::CircuitBreakerTripped { breaker, reason } => "circuit breaker tripped: ["@
            + breaker@ + "] "@ + reason@,
        RiskError::Rejected(why) => "risk gate rejected: "@ + why@,
        RiskError::StalePriceData { instrument } => "price data stale for "@ + instrument@
            + ": cannot evaluate risk"@,
        RiskError::AgentNotFound(agent) => "agent not found: "@ + agent@,
    }
}

impl RiskError {
    /// The error as text.
    pub fn text(&self) -> (r: String)
        ensures
            r@ == risk_error_text(*self),
    {
        match self {
            RiskError::CircuitBreakerTripped { breaker, reason } => joined4(
                "circuit breaker tripped: [",
                breaker.as_str(),
                "] ",
                reason.as_str(),
            ),
            RiskError::Rejected(why) => joined("risk gate rejected: ", why.as_str()),
            RiskError::StalePriceData { instrument } => joined3(
                "price data stale for ",
                instrument.as_str(),
                ": cannot evaluate risk",
            ),
            RiskError::AgentNotFound(agent) => joined("agent not found: ", agent.as_str()),
        }
    }
}

/// Stateful risk evaluation. Knows current firm book. Configurable limits (hot-reloadable).
///
/// Accepts `&PipelineOrder<Validated>` — the type system guarantees the order
/// has passed structural validation and circuit breaker checks.
///
/// All time-dependent checks receive `now` from the sequencer's clock.
/// Mark-to-market checks use a price source for current prices.
pub trait RiskGate {
    /// Evaluate order against all risk limits.
    /// `now` from `Clock::now()`, `prices` for mark-to-market checks.
    fn evaluate(
        &self,
        order: &PipelineOrder<Validated>,
        prices: &dyn PriceSource,
        now: Timestamp,
    ) -> Result<RiskApproval, Vec<RiskViolation>>;

    /// Current firm book snapshot (positions, allocations, P&L).
    fn firm_book(&self) -> &FirmBook;

    /// Hot-reload risk limits.
    fn update_limits(&mut self, limits: RiskLimits);

    /// Update internal state when a fill is processed.
    fn on_fill(&mut self, fill: &Fill, now: Timestamp);

    /// Update internal state during reconciliation.
    fn on_position_corrected(&mut self, instrument: &InstrumentId, new_qty: Decimal, now: Timestamp);

    /// Get current limits (for display/monitoring).
    fn current_limits(&self) -> &RiskLimits;
}

/// Approval from `RiskGate` after successful evaluation.
#[must_use]
#[derive(Debug, Clone)]
pub struct RiskApproval {
    pub approved_at: Timestamp,
    pub warnings: Vec<RiskViolation>,
    pub checks_performed: Vec<RiskCheckResult>,
}

/// Order ingress path determines which risk checks run.
#[derive(Debug, Clone, Copy, PartialEq, Eq, Structural)]
pub enum EvaluationPath {
    SubmitSignal,
    SubmitOrder,
    SubmitBatch,
}

/// The content of a [`RiskOutcome`].
pub enum RiskOutcomeView {
    Approved { warnings: Seq<RiskViolationView> },
    Resized { new_qty: Num, reason: Seq<char>, warnings: Seq<RiskViolationView> },
    Rejected { violations: Seq<RiskViolationView> },
}

impl View for RiskOutcome {
    type V = RiskOutcomeView;

    open spec fn view(&self) -> RiskOutcomeView {
        match *self {
            RiskOutcome::Approved { warnings } => RiskOutcomeView::Approved {
                warnings: violation_views(warnings@),
            },
            RiskOutcome::Resized { new_qty, reason, warnings } => RiskOutcomeView::Resized {
                new_qty: new_qty@,
                reason: reason@,
                warnings: violation_views(warnings@),
            },
            RiskOutcome::Rejected { violations } => RiskOutcomeView::Rejected {
                violations: violation_views(violations@),
            },
        }
    }
}

// ─── Exposure projection ───

/// Net and gross exposure after a signed change; `None` where a number exceeds its range.
///
/// The long side is half of gross plus net, the short side half of gross less net. A buy
/// covers the short side first, a sell reduces the long side first.
pub open spec fn projected(net: Num, gross: Num, delta: Num) -> Option<(Num, Num)> {
    let long = o_div(num_add(gross, net), Some(num(2, 0)));
    let short = o_div(num_sub(gross, net), Some(num(2, 0)));
    match (long, short) {
        (Some(long), Some(short)) => {
            let (long2, short2) = if delta.m >= 0 {
                let reduction = num_min(delta, short);
                (o_add(Some(long), num_sub(delta, reduction)), num_sub(short, reduction))
            } else {
                let sold = num_abs(delta);
                let reduction = num_min(sold, long);
                (num_sub(long, reduction), o_add(Some(short), num_sub(sold, reduction)))
            };
            match (o_sub(long2, short2), o_add(long2, short2)) {
                (Some(n), Some(g)) => Some((n, g)),
                _ => None,
            }
        },
        _ => None,
    }
}

/// Twice what a change of `delta` units takes off the side that it meets, of a book with
/// `net` and `gross` units: the short side where it buys, the long side where it sells.
pub open spec fn twice_offset(net: int, gross: int, delta: int) -> int {
    least(
        2 * magnitude(delta),
        if delta >= 0 {
            gross - net
        } else {
            gross + net
        },
    )
}

/// Whether half of a number of units can be written.
pub open spec fn half_is_writable(n: int) -> bool {
    exists|c: Num| #[trigger] in_range(c.m, c.s) && 2 * units(c) == n
}

/// Whether no step of a projection is rounded: the two sides of a book with `net` and
/// `gross` units, what a change of `delta` units makes of them, and the result.
pub open spec fn projects_exactly(net: int, gross: int, delta: int) -> bool {
    let offset = twice_offset(net, gross, delta);
    let (met, other) = if delta >= 0 {
        (gross - net, gross + net)
    } else {
        (gross + net, gross - net)
    };
    let rest = 2 * magnitude(delta) - offset;
    &&& is_writable(gross + net, 1) && half_is_writable(gross + net)
    &&& is_writable(gross - net, 1) && half_is_writable(gross - net)
    &&& half_is_writable(met - offset)
    &&& half_is_writable(rest)
    &&& half_is_writable(other + rest)
    &&& is_writable(net + delta, 1)
    &&& is_writable(gross + magnitude(delta) - offset, 1)
}

/// Half of a number of units that can be written is what it is divided by two to.
proof fn lemma_halved(a: Num)
    requires
        half_is_writable(units(a)),
    ensures
        ({
            let two = magnitude(units(num(2, 0)));
            &&& two > 0
            &&& is_writable(quotient_units(a, num(2, 0)), two)
            &&& forall|h: Num|
                (#[trigger] units(h)) * two == quotient_units(a, num(2, 0)) ==> 2 * units(h)
                    == units(a)
        }),
{
    let (u, k, two) = (units(a), units_in_one(), magnitude(units(num(2, 0))));
    lemma_pow10_positive(MAX_SCALE as nat);
    assert(two == 2 * k);
    let c = choose|c: Num| #[trigger] in_range(c.m, c.s) && 2 * units(c) == u;
    let v = units(c);
    assert(v * (2 * k) == u * k) by (nonlinear_arith)
        requires
            2 * v == u,
    ;
    assert forall|h: Num| (#[trigger] units(h)) * two == quotient_units(a, num(2, 0)) implies 2
        * units(h) == u by {
        let w = units(h);
        assert(2 * w == u) by (nonlinear_arith)
            requires
                w * (2 * k) == u * k,
                k > 0,
        ;
    }
}

/// What half of a number of units is can be written.
proof fn lemma_half_is_writable(n: int, half: int)
    requires
        half_is_writable(n),
        2 * half == n,
    ensures
        is_writable(half, 1),
{
    let c = choose|c: Num| #[trigger] in_range(c.m, c.s) && 2 * units(c) == n;
    assert(units(c) * 1 == half);
}

/// The long and the short side of a book, if both stay in range. Where nothing is rounded,
/// twice a side is gross with net added or taken off.
fn sides_of(net: Decimal, gross: Decimal) -> (r: Option<(Decimal, Decimal)>)
    ensures
        ({
            let long = o_div(num_add(gross@, net@), Some(num(2, 0)));
            let short = o_div(num_sub(gross@, net@), Some(num(2, 0)));
            match r {
                Some((l, s)) => long == Some(l@) && short == Some(s@),
                None => long is None || short is None,
            }
        }),
        ({
            let (n, g) = (units(net@), units(gross@));
            is_writable(g + n, 1) && half_is_writable(g + n) && is_writable(g - n, 1)
                && half_is_writable(g - n) ==> (r matches Some((l, s)) && 2 * units(l@) == g + n && 2
                * units(s@) == g - n)
        }),
{
    let ghost (n, g) = (units(net@), units(gross@));
    let ghost exact = is_writable(g + n, 1) && half_is_writable(g + n) && is_writable(g - n, 1)
        && half_is_writable(g - n);
    let two = Decimal::new(2, 0);
    let total = gross.checked_add(net)?;
    let difference = gross.checked_sub(net)?;
    proof {
        if exact {
            lemma_halved(total@);
            lemma_halved(difference@);
        }
    }
    let long = total.checked_div(two)?;
    let short = difference.checked_div(two)?;
    Some((long, short))
}

/// The side that a change meets and the other side after the change, if both stay in range:
/// the change comes off the side that it meets, and what is left of it goes to the other.
fn shifted(met: Decimal, other: Decimal, change: Decimal) -> (r: Option<(Decimal, Decimal)>)
    ensures
        ({
            let reduction = num_min(change@, met@);
            let less = num_sub(met@, reduction);
            let more = o_add(Some(other@), num_sub(change@, reduction));
            match r {
                Some((m, o)) => less == Some(m@) && more == Some(o@),
                None => less is None || more is None,
            }
        }),
        ({
            let (m, o, c) = (2 * units(met@), 2 * units(other@), 2 * units(change@));
            let offset = least(c, m);
            half_is_writable(m - offset) && half_is_writable(c - offset) && half_is_writable(
                o + c - offset,
            ) ==> (r matches Some((m2, o2)) && 2 * units(m2@) == m - offset && 2 * units(o2@) == o
                + c - offset)
        }),
{
    let reduction = change.min(met);
    proof {
        let (m, o, c) = (2 * units(met@), 2 * units(other@), 2 * units(change@));
        let offset = least(c, m);
        if half_is_writable(m - offset) && half_is_writable(c - offset) && half_is_writable(
            o + c - offset,
        ) {
            lemma_half_is_writable(m - offset, units(met@) - units(reduction@));
            lemma_half_is_writable(c - offset, units(change@) - units(reduction@));
            lemma_half_is_writable(
                o + c - offset,
                units(other@) + (units(change@) - units(reduction@)),
            );
        }
    }
    let less = met.checked_sub(reduction)?;
    let more = other.checked_add(change.checked_sub(reduction)?)?;
    Some((less, more))
}

/// Project (net, gross) after applying a signed delta, if every number stays in range.
///
/// Where nothing is rounded, net changes by the delta, and gross grows by its size less
/// twice what it offsets; a book whose net is within its gross stays so.
///
/// Handles paired long/short book entries: a sell against a long reduces
/// gross rather than inflating it; a buy against a short covers rather than adds.
pub fn project_net_and_gross(
    current_net: Decimal,
    current_gross: Decimal,
    signed_delta: Decimal,
) -> (r: Option<(Decimal, Decimal)>)
    ensures
        match r {
            Some((n, g)) => projected(current_net@, current_gross@, signed_delta@) == Some(
                (n@, g@),
            ),
            None => projected(current_net@, current_gross@, signed_delta@) is None,
        },
        ({
            let (net, gross, delta) = (
                units(current_net@),
                units(current_gross@),
                units(signed_delta@),
            );
            projects_exactly(net, gross, delta) ==> (r matches Some((n, g)) && {
                &&& units(n@) == net + delta
                &&& units(g@) == gross + magnitude(delta) - twice_offset(net, gross, delta)
                &&& magnitude(net) <= gross ==> magnitude(units(n@)) <= units(g@)
            })
        }),
{
    proof {
        lemma_units_sign(signed_delta@);
    }
    let (long, short) = sides_of(current_net, current_gross)?;
    let (long, short) = if !signed_delta.is_negative() {
        let (short, long) = shifted(short, long, signed_delta)?;
        (long, short)
    } else {
        shifted(long, short, signed_delta.abs())?
    };
    let net = long.checked_sub(short)?;
    let gross = long.checked_add(short)?;
    Some((net, gross))
}

/// A quantity with the sign of a side: positive to buy, negative to sell.
pub open spec fn signed_by_side(side: Side, qty: Num) -> Num {
    match side {
        Side::Buy => qty,
        Side::Sell => num_neg(qty),
    }
}

/// A quantity with the sign of a side.
pub fn signed_delta(side: Side, qty: Decimal) -> (r: Decimal)
    ensures
        r@ == signed_by_side(side, qty@),
{
    match side {
        Side::Buy => qty,
        Side::Sell => qty.negated(),
    }
}

/// A magnitude with the sign of a net quantity.
pub open spec fn signed_by_net(net_qty: Num, size: Num) -> Num {
    if net_qty.m >= 0 {
        size
    } else {
        num_neg(size)
    }
}

/// A magnitude with the sign of a net quantity.
pub fn signed_value_from_net(net_qty: Decimal, absolute_value: Decimal) -> (r: Decimal)
    ensures
        r@ == signed_by_net(net_qty@, absolute_value@),
{
    if net_qty.is_negative() {
        absolute_value.negated()
    } else {
        absolute_value
    }
}

// ─── Looking up exposures ───

/// The position of the first exposure in an instrument, from an index on.
pub open spec fn instrument_at(s: Seq<InstrumentExposure>, id: Seq<char>, from: int) -> Option<int>
    decreases s.len() - from,
{
    if from < 0 || from >= s.len() {
        None
    } else if s[from].instrument@ == id {
        Some(from)
    } else {
        instrument_at(s, id, from + 1)
    }
}

/// The position of the first exposure of an agent, from an index on.
pub open spec fn agent_at(s: Seq<AgentExposure>, id: Seq<char>, from: int) -> Option<int>
    decreases s.len() - from,
{
    if from < 0 || from >= s.len() {
        None
    } else if s[from].agent@ == id {
        Some(from)
    } else {
        agent_at(s, id, from + 1)
    }
}

/// The position of the first exposure at a venue, from an index on.
pub open spec fn venue_at(s: Seq<VenueExposure>, id: Seq<char>, from: int) -> Option<int>
    decreases s.len() - from,
{
    if from < 0 || from >= s.len() {
        None
    } else if s[from].venue@ == id {
        Some(from)
    } else {
        venue_at(s, id, from + 1)
    }
}

/// The first exposure in an instrument.
pub fn find_instrument(s: &Vec<InstrumentExposure>, id: &InstrumentId) -> (r: Option<usize>)
    ensures
        match r {
            Some(i) => instrument_at(s@, id@, 0) == Some(i as int) && i < s.len(),
            None => instrument_at(s@, id@, 0) is None,
        },
{
    let mut i: usize = 0;
    while i < s.len()
        invariant
            i <= s.len(),
            instrument_at(s@, id@, 0) == instrument_at(s@, id@, i as int),
        decreases s.len() - i,
    {
        if s[i].instrument.same(id) {
            return Some(i);
        }
        i = i + 1;
    }
    None
}

/// The first exposure of an agent.
pub fn find_agent(s: &Vec<AgentExposure>, id: &AgentId) -> (r: Option<usize>)
    ensures
        match r {
            Some(i) => agent_at(s@, id@, 0) == Some(i as int) && i < s.len(),
            None => agent_at(s@, id@, 0) is None,
        },
{
    let mut i: usize = 0;
    while i < s.len()
        invariant
            i <= s.len(),
            agent_at(s@, id@, 0) == agent_at(s@, id@, i as int),
        decreases s.len() - i,
    {
        if s[i].agent.same(id) {
            return Some(i);
        }
        i = i + 1;
    }
    None
}

/// The first exposure at a venue.
pub fn find_venue(s: &Vec<VenueExposure>, id: &VenueId) -> (r: Option<usize>)
    ensures
        match r {
            Some(i) => venue_at(s@, id@, 0) == Some(i as int) && i < s.len(),
            None => venue_at(s@, id@, 0) is None,
        },
{
    let mut i: usize = 0;
    while i < s.len()
        invariant
            i <= s.len(),
            venue_at(s@, id@, 0) == venue_at(s@, id@, i as int),
        decreases s.len() - i,
    {
        if s[i].venue.same(id) {
            return Some(i);
        }
        i = i + 1;
    }
    None
}

/// A running total with the magnitudes of all exposures at a venue added, in order.
pub open spec fn with_venue_notional(
    total: Option<Num>,
    by_venue: Seq<VenueExposure>,
    venue: Seq<char>,
) -> Option<Num>
    decreases by_venue.len(),
{
    if by_venue.len() == 0 {
        total
    } else {
        let before = with_venue_notional(total, by_venue.drop_last(), venue);
        if by_venue.last().venue@ == venue {
            o_add(before, Some(num_abs(by_venue.last().notional_usd@)))
        } else {
            before
        }
    }
}

/// The notional held at a venue over all instruments.
pub open spec fn venue_notional(instruments: Seq<InstrumentExposure>, venue: Seq<char>) -> Option<
    Num,
>
    decreases instruments.len(),
{
    if instruments.len() == 0 {
        Some(num_zero())
    } else {
        with_venue_notional(
            venue_notional(instruments.drop_last(), venue),
            instruments.last().by_venue@,
            venue,
        )
    }
}

/// The number of instruments with an exposure at a venue.
pub open spec fn venue_positions(instruments: Seq<InstrumentExposure>, venue: Seq<char>) -> nat
    decreases instruments.len(),
{
    if instruments.len() == 0 {
        0
    } else {
        venue_positions(instruments.drop_last(), venue) + (if venue_at(
            instruments.last().by_venue@,
            venue,
            0,
        ) is Some {
            1nat
        } else {
            0nat
        })
    }
}

/// A missing total stays missing.
proof fn lemma_missing_total(by_venue: Seq<VenueExposure>, venue: Seq<char>)
    ensures
        with_venue_notional(None, by_venue, venue) is None,
    decreases by_venue.len(),
{
    if by_venue.len() > 0 {
        lemma_missing_total(by_venue.drop_last(), venue);
    }
}

/// A total that is missing for a leading part is missing for the whole.
proof fn lemma_missing_prefix(
    total: Option<Num>,
    by_venue: Seq<VenueExposure>,
    venue: Seq<char>,
    n: int,
)
    requires
        0 <= n <= by_venue.len(),
        with_venue_notional(total, by_venue.take(n), venue) is None,
    ensures
        with_venue_notional(total, by_venue, venue) is None,
    decreases by_venue.len(),
{
    if n < by_venue.len() {
        assert(by_venue.drop_last().take(n) =~= by_venue.take(n));
        lemma_missing_prefix(total, by_venue.drop_last(), venue, n);
    } else {
        assert(by_venue.take(n) =~= by_venue);
    }
}

/// A venue total that is missing for the leading instruments is missing for all.
proof fn lemma_missing_notional(instruments: Seq<InstrumentExposure>, venue: Seq<char>, n: int)
    requires
        0 <= n <= instruments.len(),
        venue_notional(instruments.take(n), venue) is None,
    ensures
        venue_notional(instruments, venue) is None,
    decreases instruments.len(),
{
    if n < instruments.len() {
        assert(instruments.drop_last().take(n) =~= instruments.take(n));
        lemma_missing_notional(instruments.drop_last(), venue, n);
        lemma_missing_total(instruments.last().by_venue@, venue);
    } else {
        assert(instruments.take(n) =~= instruments);
    }
}

/// Adds the magnitudes of all exposures at a venue to a total.
fn add_venue_notional(total: Decimal, by_venue: &Vec<VenueExposure>, venue: &VenueId) -> (r: Option<
    Decimal,
>)
    ensures
        opt_num(r) == with_venue_notional(Some(total@), by_venue@, venue@),
{
    let mut acc = total;
    let mut i: usize = 0;
    while i < by_venue.len()
        invariant
            i <= by_venue.len(),
            Some(acc@) == with_venue_notional(Some(total@), by_venue@.take(i as int), venue@),
        decreases by_venue.len() - i,
    {
        assert(by_venue@.take(i + 1).drop_last() =~= by_venue@.take(i as int));
        if by_venue[i].venue.same(venue) {
            match acc.checked_add(by_venue[i].notional_usd.abs()) {
                Some(next) => {
                    acc = next;
                },
                None => {
                    proof {
                        lemma_missing_prefix(Some(total@), by_venue@, venue@, i + 1);
                    }
                    return None;
                },
            }
        }
        i = i + 1;
    }
    assert(by_venue@.take(i as int) =~= by_venue@);
    Some(acc)
}

/// The notional held at a venue over all instruments.
pub fn total_venue_notional(instruments: &Vec<InstrumentExposure>, venue: &VenueId) -> (r: Option<
    Decimal,
>)
    ensures
        opt_num(r) == venue_notional(instruments@, venue@),
{
    let mut acc = Decimal::zero();
    let mut i: usize = 0;
    while i < instruments.len()
        invariant
            i <= instruments.len(),
            Some(acc@) == venue_notional(instruments@.take(i as int), venue@),
        decreases instruments.len() - i,
    {
        assert(instruments@.take(i + 1).drop_last() =~= instruments@.take(i as int));
        match add_venue_notional(acc, &instruments[i].by_venue, venue) {
            Some(next) => {
                acc = next;
            },
            None => {
                proof {
                    lemma_missing_notional(instruments@, venue@, i + 1);
                }
                return None;
            },
        }
        i = i + 1;
    }
    assert(instruments@.take(i as int) =~= instruments@);
    Some(acc)
}

/// The number of instruments with an exposure at a venue.
pub fn count_venue_positions(instruments: &Vec<InstrumentExposure>, venue: &VenueId) -> (r: u32)
    requires
        instruments@.len() < u32::MAX,
    ensures
        r == venue_positions(instruments@, venue@),
        r <= instruments@.len(),
{
    let mut count: u32 = 0;
    let mut i: usize = 0;
    while i < instruments.len()
        invariant
            i <= instruments.len(),
            instruments@.len() < u32::MAX,
            count <= i,
            count == venue_positions(instruments@.take(i as int), venue@),
        decreases instruments.len() - i,
    {
        assert(instruments@.take(i + 1).drop_last() =~= instruments@.take(i as int));
        if find_venue(&instruments[i].by_venue, venue).is_some() {
            count = count + 1;
        }
        i = i + 1;
    }
    assert(instruments@.take(i as int) =~= instruments@);
    count
}

} // verus!
