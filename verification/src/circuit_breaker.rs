//! Circuit breakers CB-1 through CB-11 (layer 0).
//!
//! All breakers are compiled in and immutable. They run synchronously in the sequencer's
//! path before the layer 1 risk gate, without I/O.
//!
//! **Hierarchy:**
//! - CB-4 / CB-5 (loss-based) → `HaltAll`
//! - CB-3 → `Reject` with latch (manual reset required)
//! - All others → `Reject` per order (re-evaluated each call)
//!
//! Entry point: [`CircuitBreakerBank::check_all`].

use crate::clock::Clock;
use crate::decimal::{num, num_div, num_lt, num_mul, num_neg, num_text, num_text_to, Decimal, Num};
use crate::pipeline::{OrderCore, PipelineOrder, Validated};
use crate::portfolio::FirmBook;
use crate::risk::{
    find_instrument, instrument_at, project_net_and_gross, projected, signed_by_side, signed_delta,
    RiskError,
};
use crate::sealed::Sealed;
use crate::table::Table;
use crate::text::{digits, digits_text, joined, joined3, joined4, joined5, same_text};
use crate::time::{whole_seconds, Timestamp};
use crate::venue::{connection_state_text, VenueConnectionHealth};
use vstd::prelude::*;

verus! {

/// Engine execution mode — determines which circuit breaker checks apply (CB-10).
#[derive(Debug, Clone, Copy, PartialEq, Eq, Structural)]
pub enum ExecutionMode {
    Live,
    Paper,
    Backtest,
}

/// The name of an execution mode.
pub open spec fn mode_text(mode: ExecutionMode) -> Seq<char> {
    match mode {
        ExecutionMode::Live => "Live"@,
        ExecutionMode::Paper => "Paper"@,
        ExecutionMode::Backtest => "Backtest"@,
    }
}

impl ExecutionMode {
    /// The mode as debugging text.
    pub fn debug_text(self) -> (r: &'static str)
        ensures
            r@ == mode_text(self),
    {
        match self {
            ExecutionMode::Live => "Live",
            ExecutionMode::Paper => "Paper",
            ExecutionMode::Backtest => "Backtest",
        }
    }
}

/// The kind of operation being evaluated by the circuit breaker bank.
///
/// `Cancel` operations bypass all circuit breakers — they never increase exposure.
/// `NewOrder` operations are subject to all checks, including latched halts.
/// `ReduceOnly` is allowed through CB-3/4/5, latched or not, so that resting positions
/// can be flattened during a halt.
#[derive(Debug, Clone, Copy, PartialEq, Eq, Structural)]
pub enum OperationKind {
    /// A new order that may increase exposure.
    NewOrder,
    /// A cancel request — never increases exposure, always allowed through.
    Cancel,
    /// A reduce-only order — allowed through the halts and the gross notional check.
    ReduceOnly,
}

/// Thresholds for all compiled-in circuit breakers.
#[derive(Debug, Clone, Copy)]
pub struct CircuitBreakerConfig {
    /// CB-1: Max notional for a single order (USD).
    pub max_single_order_notional: Decimal,
    /// CB-2: Max gross notional per instrument across the firm (USD).
    pub max_instrument_position_notional: Decimal,
    /// CB-3: Max firm gross notional across all instruments (USD).
    pub max_firm_gross_notional: Decimal,
    /// CB-4: Max daily loss as a fraction of NAV (e.g. `0.05` = 5%).
    pub max_daily_loss_pct: Decimal,
    /// CB-5: Max hourly loss as a fraction of NAV (e.g. `0.02` = 2%).
    pub max_hourly_loss_pct: Decimal,
    /// CB-6: Max firm-wide new orders in the last 60 seconds.
    pub max_firm_orders_per_min: u32,
    /// CB-7: Max per-agent new orders in the last 60 seconds.
    pub max_agent_orders_per_min: u32,
    /// CB-8: Max venue error rate (errors / total) over the last 5 minutes.
    pub max_venue_error_rate: Decimal,
    /// CB-9: Max seconds since last venue heartbeat before rejecting orders to that venue.
    pub max_venue_disconnect_secs: u64,
    /// CB-11: Max sequencer command queue depth before rejecting new orders.
    pub max_sequencer_queue_depth: usize,
}

/// Venue error counts over the last 5-minute window for CB-8.
#[derive(Debug, Clone, Copy)]
pub struct VenueErrorStats {
    pub errors_last_5min: u32,
    pub total_last_5min: u32,
}

impl Default for VenueErrorStats {
    fn default() -> (r: VenueErrorStats)
        ensures
            r.errors_last_5min == 0,
            r.total_last_5min == 0,
    {
        VenueErrorStats { errors_last_5min: 0, total_last_5min: 0 }
    }
}

/// Inputs to every circuit breaker check call.
pub struct CircuitBreakerContext<'a> {
    /// The order being evaluated. `None` for latch-state pre-checks and cancels.
    pub order: Option<&'a PipelineOrder<Validated>>,
    pub firm_book: &'a FirmBook,
    /// Current connection health per venue.
    pub venue_health: &'a Table<VenueConnectionHealth>,
    /// Error stats per venue for CB-8.
    pub venue_error_stats: &'a Table<VenueErrorStats>,
    /// Firm-wide orders submitted in the last 60 seconds for CB-6.
    pub firm_orders_last_60s: u32,
    /// Per-agent orders submitted in the last 60 seconds for CB-7.
    pub agent_orders_last_60s: &'a Table<u32>,
    /// Current sequencer command queue depth for CB-11.
    pub sequencer_queue_depth: usize,
    /// Current engine execution mode for CB-10.
    pub execution_mode: ExecutionMode,
    /// Kind of operation being evaluated — determines which circuit breakers apply.
    pub operation_kind: OperationKind,
    pub config: &'a CircuitBreakerConfig,
    pub clock: &'a dyn Clock,
}

/// Result of a single circuit breaker check.
#[must_use]
#[derive(Debug, Clone, PartialEq)]
pub enum CircuitBreakerResult {
    Pass,
    /// Order rejected by this breaker — fills and cancels still processed.
    Reject { breaker: &'static str, reason: String },
    /// Full trading halt — new orders blocked until manually reset.
    /// Cancels and `ReduceOnly` orders are allowed through so resting positions
    /// can be flattened.
    HaltAll { breaker: &'static str, reason: String },
}

/// The content of a [`CircuitBreakerResult`].
pub enum Verdict {
    Pass,
    Reject { breaker: Seq<char>, reason: Seq<char> },
    HaltAll { breaker: Seq<char>, reason: Seq<char> },
}

impl View for CircuitBreakerResult {
    type V = Verdict;

    open spec fn view(&self) -> Verdict {
        match *self {
            CircuitBreakerResult::Pass => Verdict::Pass,
            CircuitBreakerResult::Reject { breaker, reason } => Verdict::Reject {
                breaker: breaker@,
                reason: reason@,
            },
            CircuitBreakerResult::HaltAll { breaker, reason } => Verdict::HaltAll {
                breaker: breaker@,
                reason: reason@,
            },
        }
    }
}

/// Reason a stateful circuit breaker was manually reset.
#[derive(Debug, Clone)]
pub enum ResetReason {
    ManualOperator { operator: String },
    CioApproval { approver: String },
}

// ─── What each breaker decides ───

/// A rejection.
pub open spec fn rejected(breaker: Seq<char>, reason: Seq<char>) -> Verdict {
    Verdict::Reject { breaker, reason }
}

/// A halt.
pub open spec fn halted(breaker: Seq<char>, reason: Seq<char>) -> Verdict {
    Verdict::HaltAll { breaker, reason }
}

/// The order and its price, where there is an order with a positive price.
pub open spec fn priced_order(ctx: CircuitBreakerContext<'_>) -> Option<(OrderCore, Num)> {
    match ctx.order {
        Some(o) => match o.order().price {
            Some(p) => if p@.m > 0 {
                Some((o.order(), p@))
            } else {
                None
            },
            None => None,
        },
        None => None,
    }
}

/// Whether CB-1 stays within the range of numbers.
pub open spec fn cb1_fits(ctx: CircuitBreakerContext<'_>) -> bool {
    priced_order(ctx) matches Some((core, price)) ==> num_mul(core.qty@, price) is Some
}

/// CB-1: the order's notional exceeds the single order cap. An order without a positive
/// price passes.
pub open spec fn cb1_verdict(ctx: CircuitBreakerContext<'_>) -> Verdict {
    match priced_order(ctx) {
        Some((core, price)) => {
            let notional = num_mul(core.qty@, price)->0;
            if num_lt(ctx.config.max_single_order_notional@, notional) {
                rejected(
                    "CB-1"@,
                    "order notional "@ + num_text(notional)
                        + " exceeds max single order notional "@ + num_text(
                        ctx.config.max_single_order_notional@,
                    ),
                )
            } else {
                Verdict::Pass
            }
        },
        None => Verdict::Pass,
    }
}

/// The net and gross notional that the firm holds in an instrument.
pub open spec fn held_notional(book: FirmBook, instrument: Seq<char>) -> (Num, Num) {
    match instrument_at(book.instruments@, instrument, 0) {
        Some(i) => (
            book.instruments@[i].net_notional_usd@,
            book.instruments@[i].gross_notional_usd@,
        ),
        None => (num(0, 0), num(0, 0)),
    }
}

/// The instrument's net and gross notional after the order, if in range.
pub open spec fn projected_exposure(
    ctx: CircuitBreakerContext<'_>,
    core: OrderCore,
    price: Num,
) -> Option<(Num, Num)> {
    match num_mul(core.qty@, price) {
        Some(notional) => {
            let (net, gross) = held_notional(*ctx.firm_book, core.instrument_id@);
            projected(net, gross, signed_by_side(core.side, notional))
        },
        None => None,
    }
}

/// Whether CB-2 stays within the range of numbers.
pub open spec fn cb2_fits(ctx: CircuitBreakerContext<'_>) -> bool {
    priced_order(ctx) matches Some((core, price)) ==> projected_exposure(ctx, core, price) is Some
}

/// CB-2: the instrument's gross notional after the order exceeds the cap.
pub open spec fn cb2_verdict(ctx: CircuitBreakerContext<'_>) -> Verdict {
    match priced_order(ctx) {
        Some((core, price)) => {
            let (_, gross) = projected_exposure(ctx, core, price)->0;
            if num_lt(ctx.config.max_instrument_position_notional@, gross) {
                rejected(
                    "CB-2"@,
                    "projected instrument gross exposure "@ + num_text(gross) + " exceeds max "@
                        + num_text(ctx.config.max_instrument_position_notional@),
                )
            } else {
                Verdict::Pass
            }
        },
        None => Verdict::Pass,
    }
}

/// The verdict of CB-3 once it has latched.
pub open spec fn cb3_latched() -> Verdict {
    rejected("CB-3"@, "firm gross notional limit latched — manual reset required"@)
}

/// CB-3, not latched: the firm's gross notional exceeds the cap.
pub open spec fn cb3_fresh(ctx: CircuitBreakerContext<'_>) -> Verdict {
    if num_lt(ctx.config.max_firm_gross_notional@, ctx.firm_book.gross_notional@) {
        rejected(
            "CB-3"@,
            "firm gross notional "@ + num_text(ctx.firm_book.gross_notional@) + " exceeds max "@
                + num_text(ctx.config.max_firm_gross_notional@),
        )
    } else {
        Verdict::Pass
    }
}

/// Whether a loss is beyond a fraction of a positive NAV.
pub open spec fn loss_breached(pnl: Num, pct: Num, nav: Num) -> bool {
    nav.m > 0 && num_lt(pnl, num_neg(num_mul(pct, nav)->0))
}

/// Whether the check of a loss stays within the range of numbers.
pub open spec fn loss_fits(pnl: Num, pct: Num, nav: Num) -> bool {
    nav.m > 0 ==> num_mul(pct, nav) is Some && (loss_breached(pnl, pct, nav) ==> num_mul(
        pct,
        num(100, 0),
    ) is Some)
}

/// How a loss that is beyond its cap is reported.
pub open spec fn loss_text(period: Seq<char>, pnl: Num, pct: Num, nav: Num) -> Seq<char> {
    period + " P&L "@ + num_text(pnl) + " breached -"@ + num_text_to(
        num_mul(pct, num(100, 0))->0,
        1,
    ) + "% NAV loss cap (limit: -"@ + num_text(num_mul(pct, nav)->0) + ")"@
}

/// The verdict of CB-4 once it has latched.
pub open spec fn cb4_latched() -> Verdict {
    halted("CB-4"@, "daily loss halt latched — manual reset + CIO approval required"@)
}

/// Whether CB-4, not latched, stays within the range of numbers.
pub open spec fn cb4_fits(ctx: CircuitBreakerContext<'_>) -> bool {
    loss_fits(ctx.firm_book.daily_pnl@, ctx.config.max_daily_loss_pct@, ctx.firm_book.nav@)
}

/// CB-4, not latched: the firm's daily loss exceeds the cap. A NAV that is not positive
/// passes.
pub open spec fn cb4_fresh(ctx: CircuitBreakerContext<'_>) -> Verdict {
    let pnl = ctx.firm_book.daily_pnl@;
    let pct = ctx.config.max_daily_loss_pct@;
    if loss_breached(pnl, pct, ctx.firm_book.nav@) {
        halted("CB-4"@, loss_text("daily"@, pnl, pct, ctx.firm_book.nav@))
    } else {
        Verdict::Pass
    }
}

/// The verdict of CB-5 once it has latched.
pub open spec fn cb5_latched() -> Verdict {
    halted("CB-5"@, "hourly loss halt latched — manual reset required"@)
}

/// Whether CB-5, not latched, stays within the range of numbers.
pub open spec fn cb5_fits(ctx: CircuitBreakerContext<'_>) -> bool {
    loss_fits(ctx.firm_book.hourly_pnl@, ctx.config.max_hourly_loss_pct@, ctx.firm_book.nav@)
}

/// CB-5, not latched: the firm's hourly loss exceeds the cap. A NAV that is not positive
/// passes.
pub open spec fn cb5_fresh(ctx: CircuitBreakerContext<'_>) -> Verdict {
    let pnl = ctx.firm_book.hourly_pnl@;
    let pct = ctx.config.max_hourly_loss_pct@;
    if loss_breached(pnl, pct, ctx.firm_book.nav@) {
        halted("CB-5"@, loss_text("hourly"@, pnl, pct, ctx.firm_book.nav@))
    } else {
        Verdict::Pass
    }
}

/// CB-6: the firm's order rate exceeds the cap.
pub open spec fn cb6_verdict(ctx: CircuitBreakerContext<'_>) -> Verdict {
    if ctx.firm_orders_last_60s > ctx.config.max_firm_orders_per_min {
        rejected(
            "CB-6"@,
            "firm order rate "@ + digits(ctx.firm_orders_last_60s as nat) + "/min exceeds max "@
                + digits(ctx.config.max_firm_orders_per_min as nat) + "/min"@,
        )
    } else {
        Verdict::Pass
    }
}

/// The order rate of an agent; none recorded is none.
pub open spec fn agent_rate(ctx: CircuitBreakerContext<'_>, agent: Seq<char>) -> u32 {
    if ctx.agent_orders_last_60s@.contains_key(agent) {
        ctx.agent_orders_last_60s@[agent]
    } else {
        0
    }
}

/// CB-7: the order rate of the order's agent exceeds the cap.
pub open spec fn cb7_verdict(ctx: CircuitBreakerContext<'_>) -> Verdict {
    match ctx.order {
        Some(o) => {
            let agent = o.order().agent_id@;
            if agent_rate(ctx, agent) > ctx.config.max_agent_orders_per_min {
                rejected(
                    "CB-7"@,
                    "agent "@ + agent + " order rate "@ + digits(agent_rate(ctx, agent) as nat)
                        + "/min exceeds max "@ + digits(
                        ctx.config.max_agent_orders_per_min as nat,
                    ) + "/min"@,
                )
            } else {
                Verdict::Pass
            }
        },
        None => Verdict::Pass,
    }
}

/// The error rate of a venue, where requests to it are recorded.
pub open spec fn error_rate(ctx: CircuitBreakerContext<'_>, venue: Seq<char>) -> Option<Num> {
    let stats = ctx.venue_error_stats@[venue];
    num_div(num(stats.errors_last_5min as int, 0), num(stats.total_last_5min as int, 0))
}

/// Whether requests to a venue are recorded.
pub open spec fn has_requests(ctx: CircuitBreakerContext<'_>, venue: Seq<char>) -> bool {
    ctx.venue_error_stats@.contains_key(venue) && ctx.venue_error_stats@[venue].total_last_5min > 0
}

/// Whether CB-8 stays within the range of numbers.
pub open spec fn cb8_fits(ctx: CircuitBreakerContext<'_>) -> bool {
    ctx.order matches Some(o) ==> (has_requests(ctx, o.order().venue_id@) ==> error_rate(
        ctx,
        o.order().venue_id@,
    ) is Some)
}

/// CB-8: the error rate of the order's venue exceeds the cap.
pub open spec fn cb8_verdict(ctx: CircuitBreakerContext<'_>) -> Verdict {
    match ctx.order {
        Some(o) => {
            let venue = o.order().venue_id@;
            let rate = error_rate(ctx, venue)->0;
            if has_requests(ctx, venue) && num_lt(ctx.config.max_venue_error_rate@, rate) {
                rejected(
                    "CB-8"@,
                    "venue "@ + venue + " error rate "@ + num_text_to(rate, 2) + " exceeds max "@
                        + num_text(ctx.config.max_venue_error_rate@),
                )
            } else {
                Verdict::Pass
            }
        },
        None => Verdict::Pass,
    }
}

/// CB-9 for a venue at a time.
pub open spec fn connectivity(ctx: CircuitBreakerContext<'_>, venue: Seq<char>, now: int) -> Verdict {
    if !ctx.venue_health@.contains_key(venue) {
        rejected(
            "CB-9"@,
            "no health record for venue "@ + venue + " — cannot verify connectivity"@,
        )
    } else {
        let health = ctx.venue_health@[venue];
        if !(health.state is Connected) {
            rejected(
                "CB-9"@,
                "venue "@ + venue + " is not in Connected state ("@ + connection_state_text(
                    health.state,
                ) + ") — submission blocked"@,
            )
        } else {
            match health.last_heartbeat_at {
                None => rejected("CB-9"@, "venue "@ + venue + " has never sent a heartbeat"@),
                Some(last) => {
                    let elapsed = whole_seconds(now - last@);
                    if last@ > now {
                        rejected(
                            "CB-9"@,
                            "venue "@ + venue + " heartbeat timestamp is "@ + digits(
                                (-elapsed) as nat,
                            ) + "s in the future — clock skew detected"@,
                        )
                    } else if elapsed > ctx.config.max_venue_disconnect_secs {
                        rejected(
                            "CB-9"@,
                            "venue "@ + venue + " last heartbeat "@ + digits(elapsed as nat)
                                + "s ago exceeds "@ + digits(
                                ctx.config.max_venue_disconnect_secs as nat,
                            ) + "-second disconnect limit"@,
                        )
                    } else {
                        Verdict::Pass
                    }
                },
            }
        }
    }
}

/// CB-9: the order's venue is not known to be connected. It fails closed: no record, no
/// heartbeat, a state other than `Connected`, and a heartbeat in the future are all
/// rejected.
pub open spec fn cb9_verdict(ctx: CircuitBreakerContext<'_>, now: int) -> Verdict {
    match ctx.order {
        Some(o) => connectivity(ctx, o.order().venue_id@, now),
        None => Verdict::Pass,
    }
}

/// CB-10: the order is for real and the engine is not in live mode.
pub open spec fn cb10_verdict(ctx: CircuitBreakerContext<'_>) -> Verdict {
    match ctx.order {
        Some(o) => if !o.order().dry_run && !(ctx.execution_mode is Live) {
            rejected(
                "CB-10"@,
                "order has dry_run=false but engine is in "@ + mode_text(ctx.execution_mode)
                    + " mode — live submission blocked"@,
            )
        } else {
            Verdict::Pass
        },
        None => Verdict::Pass,
    }
}

/// CB-11: the sequencer's queue is deeper than the cap.
pub open spec fn cb11_verdict(ctx: CircuitBreakerContext<'_>) -> Verdict {
    if ctx.sequencer_queue_depth > ctx.config.max_sequencer_queue_depth {
        rejected(
            "CB-11"@,
            "sequencer queue depth "@ + digits(ctx.sequencer_queue_depth as nat)
                + " exceeds max "@ + digits(ctx.config.max_sequencer_queue_depth as nat),
        )
    } else {
        Verdict::Pass
    }
}

// ─── The breakers ───

/// Hardcoded, compiled-in safety checks. Not configurable at runtime.
/// Sealed — other crates cannot add new circuit breakers.
pub trait CircuitBreaker: Sealed {
    /// Whether the check of a context stays within the range of numbers.
    spec fn fits(&self, ctx: CircuitBreakerContext<'_>) -> bool;

    /// What the breaker decides on a context at a time.
    spec fn verdict(&self, ctx: CircuitBreakerContext<'_>, now: int) -> Verdict;

    /// Whether the breaker is latched.
    spec fn latched(&self) -> bool;

    /// Identifier for this breaker (e.g. `"CB-4"`).
    fn id(&self) -> &'static str;

    /// Evaluate the breaker against a context at a given time; `None` where a number
    /// exceeds its range.
    fn check_at(&self, ctx: &CircuitBreakerContext<'_>, now: Timestamp) -> (r: Option<
        CircuitBreakerResult,
    >)
        ensures
            r is Some <==> self.fits(*ctx),
            r matches Some(v) ==> v@ == self.verdict(*ctx, now@),
    ;

    /// Evaluate the breaker against the current context, at a time that the context's clock
    /// shows. Always re-evaluates;
    /// does not cache or latch state — the bank handles latching for CB-3/4/5.
    fn check(&self, ctx: &CircuitBreakerContext<'_>) -> (r: CircuitBreakerResult)
        requires
            self.fits(*ctx),
        ensures
            exists|now: Timestamp| #[trigger]
                ctx.clock.may_show(now) && r@ == self.verdict(*ctx, now@),
    {
        let now = ctx.clock.now();
        self.check_at(ctx, now).unwrap()
    }

    /// Reset a latched stateful breaker. No-op for stateless breakers.
    fn reset(&mut self, reason: ResetReason)
        ensures
            !final(self).latched(),
    ;

    /// Whether this breaker is currently latched (stateful breakers only).
    fn is_tripped(&self) -> (r: bool)
        ensures
            r == self.latched(),
    ;
}

fn reject(breaker: &'static str, reason: String) -> (r: CircuitBreakerResult)
    ensures
        r@ == rejected(breaker@, reason@),
{
    CircuitBreakerResult::Reject { breaker, reason }
}

fn halt(breaker: &'static str, reason: String) -> (r: CircuitBreakerResult)
    ensures
        r@ == halted(breaker@, reason@),
{
    CircuitBreakerResult::HaltAll { breaker, reason }
}

/// Rejects any single order whose notional exceeds the compiled-in cap.
#[derive(Debug, Clone, Copy)]
pub struct Cb1MaxSingleOrderNotional;

impl Sealed for Cb1MaxSingleOrderNotional {

}

impl CircuitBreaker for Cb1MaxSingleOrderNotional {
    open spec fn fits(&self, ctx: CircuitBreakerContext<'_>) -> bool {
        cb1_fits(ctx)
    }

    open spec fn verdict(&self, ctx: CircuitBreakerContext<'_>, now: int) -> Verdict {
        cb1_verdict(ctx)
    }

    open spec fn latched(&self) -> bool {
        false
    }

    fn id(&self) -> (r: &'static str)
        ensures
            r@ == "CB-1"@,
    {
        "CB-1"
    }

    fn check_at(&self, ctx: &CircuitBreakerContext<'_>, now: Timestamp) -> (r: Option<
        CircuitBreakerResult,
    >) {
        let core = match ctx.order {
            Some(o) => o.order_core(),
            None => {
                return Some(CircuitBreakerResult::Pass);
            },
        };
        let price = match core.price {
            Some(p) => p,
            None => {
                return Some(CircuitBreakerResult::Pass);
            },
        };
        if !price.is_positive() {
            return Some(CircuitBreakerResult::Pass);
        }
        let notional = core.qty.checked_mul(price)?;
        if ctx.config.max_single_order_notional.is_less(notional) {
            return Some(
                reject(
                    "CB-1",
                    joined4(
                        "order notional ",
                        notional.text().as_str(),
                        " exceeds max single order notional ",
                        ctx.config.max_single_order_notional.text().as_str(),
                    ),
                ),
            );
        }
        Some(CircuitBreakerResult::Pass)
    }

    fn reset(&mut self, _reason: ResetReason) {
    }

    fn is_tripped(&self) -> (r: bool) {
        false
    }
}

/// Rejects orders that would push gross instrument exposure past the cap.
///
/// Uses a signed notional delta (positive for buys, negative for sells) so that
/// risk-reducing trades — a sell against a long, a buy to cover a short — are
/// not rejected when the book is near the limit.
#[derive(Debug, Clone, Copy)]
pub struct Cb2MaxInstrumentPosition;

impl Sealed for Cb2MaxInstrumentPosition {

}

impl CircuitBreaker for Cb2MaxInstrumentPosition {
    open spec fn fits(&self, ctx: CircuitBreakerContext<'_>) -> bool {
        cb2_fits(ctx)
    }

    open spec fn verdict(&self, ctx: CircuitBreakerContext<'_>, now: int) -> Verdict {
        cb2_verdict(ctx)
    }

    open spec fn latched(&self) -> bool {
        false
    }

    fn id(&self) -> (r: &'static str)
        ensures
            r@ == "CB-2"@,
    {
        "CB-2"
    }

    fn check_at(&self, ctx: &CircuitBreakerContext<'_>, now: Timestamp) -> (r: Option<
        CircuitBreakerResult,
    >) {
        let core = match ctx.order {
            Some(o) => o.order_core(),
            None => {
                return Some(CircuitBreakerResult::Pass);
            },
        };
        let price = match core.price {
            Some(p) => p,
            None => {
                return Some(CircuitBreakerResult::Pass);
            },
        };
        if !price.is_positive() {
            return Some(CircuitBreakerResult::Pass);
        }
        let order_notional = core.qty.checked_mul(price)?;
        let delta = signed_delta(core.side, order_notional);
        let (current_net, current_gross) = match find_instrument(
            &ctx.firm_book.instruments,
            &core.instrument_id,
        ) {
            Some(i) => (
                ctx.firm_book.instruments[i].net_notional_usd,
                ctx.firm_book.instruments[i].gross_notional_usd,
            ),
            None => (Decimal::zero(), Decimal::zero()),
        };
        let (_, projected_gross) = project_net_and_gross(current_net, current_gross, delta)?;
        if ctx.config.max_instrument_position_notional.is_less(projected_gross) {
            return Some(
                reject(
                    "CB-2",
                    joined4(
                        "projected instrument gross exposure ",
                        projected_gross.text().as_str(),
                        " exceeds max ",
                        ctx.config.max_instrument_position_notional.text().as_str(),
                    ),
                ),
            );
        }
        Some(CircuitBreakerResult::Pass)
    }

    fn reset(&mut self, _reason: ResetReason) {
    }

    fn is_tripped(&self) -> (r: bool) {
        false
    }
}

/// Rejects new orders when firm gross notional exceeds the cap.
/// Latches on trip — manual reset required.
#[derive(Debug)]
pub struct Cb3MaxFirmGrossNotional {
    pub tripped: bool,
}

impl Sealed for Cb3MaxFirmGrossNotional {

}

impl Cb3MaxFirmGrossNotional {
    /// The breaker, not latched.
    pub fn new() -> (r: Cb3MaxFirmGrossNotional)
        ensures
            !r.tripped,
    {
        Cb3MaxFirmGrossNotional { tripped: false }
    }

    /// Latches the breaker.
    pub fn latch(&mut self)
        ensures
            final(self).tripped,
    {
        self.tripped = true;
    }
}

impl CircuitBreaker for Cb3MaxFirmGrossNotional {
    open spec fn fits(&self, ctx: CircuitBreakerContext<'_>) -> bool {
        true
    }

    open spec fn verdict(&self, ctx: CircuitBreakerContext<'_>, now: int) -> Verdict {
        if self.tripped {
            cb3_latched()
        } else {
            cb3_fresh(ctx)
        }
    }

    open spec fn latched(&self) -> bool {
        self.tripped
    }

    fn id(&self) -> (r: &'static str)
        ensures
            r@ == "CB-3"@,
    {
        "CB-3"
    }

    fn check_at(&self, ctx: &CircuitBreakerContext<'_>, now: Timestamp) -> (r: Option<
        CircuitBreakerResult,
    >) {
        if self.tripped {
            return Some(
                reject(
                    "CB-3",
                    "firm gross notional limit latched — manual reset required".to_owned(),
                ),
            );
        }
        if ctx.config.max_firm_gross_notional.is_less(ctx.firm_book.gross_notional) {
            return Some(
                reject(
                    "CB-3",
                    joined4(
                        "firm gross notional ",
                        ctx.firm_book.gross_notional.text().as_str(),
                        " exceeds max ",
                        ctx.config.max_firm_gross_notional.text().as_str(),
                    ),
                ),
            );
        }
        Some(CircuitBreakerResult::Pass)
    }

    fn reset(&mut self, _reason: ResetReason) {
        self.tripped = false;
    }

    fn is_tripped(&self) -> (r: bool) {
        self.tripped
    }
}

/// How a loss that is beyond its cap is reported.
fn loss_report(period: &str, pnl: Decimal, pct: Decimal, max_loss: Decimal) -> (r: Option<String>)
    ensures
        match r {
            Some(text) => num_mul(pct@, num(100, 0)) is Some && forall|nav: Num| #[trigger]
                num_mul(pct@, nav) == Some(max_loss@) ==> text@ == loss_text(
                    period@,
                    pnl@,
                    pct@,
                    nav,
                ),
            None => num_mul(pct@, num(100, 0)) is None,
        },
{
    let percent = pct.checked_mul(Decimal::new(100, 0))?;
    Some(
        joined4(
            joined5(
                period,
                " P&L ",
                pnl.text().as_str(),
                " breached -",
                percent.text_to(1).as_str(),
            ).as_str(),
            "% NAV loss cap (limit: -",
            max_loss.text().as_str(),
            ")",
        ),
    )
}

/// `HaltAll` when firm daily P&L breaches the loss cap. Latches — manual reset + CIO approval.
#[derive(Debug)]
pub struct Cb4FirmDailyLoss {
    pub tripped: bool,
}

impl Sealed for Cb4FirmDailyLoss {

}

impl Cb4FirmDailyLoss {
    /// The breaker, not latched.
    pub fn new() -> (r: Cb4FirmDailyLoss)
        ensures
            !r.tripped,
    {
        Cb4FirmDailyLoss { tripped: false }
    }

    /// Latches the breaker.
    pub fn latch(&mut self)
        ensures
            final(self).tripped,
    {
        self.tripped = true;
    }
}

impl CircuitBreaker for Cb4FirmDailyLoss {
    open spec fn fits(&self, ctx: CircuitBreakerContext<'_>) -> bool {
        self.tripped || cb4_fits(ctx)
    }

    open spec fn verdict(&self, ctx: CircuitBreakerContext<'_>, now: int) -> Verdict {
        if self.tripped {
            cb4_latched()
        } else {
            cb4_fresh(ctx)
        }
    }

    open spec fn latched(&self) -> bool {
        self.tripped
    }

    fn id(&self) -> (r: &'static str)
        ensures
            r@ == "CB-4"@,
    {
        "CB-4"
    }

    fn check_at(&self, ctx: &CircuitBreakerContext<'_>, now: Timestamp) -> (r: Option<
        CircuitBreakerResult,
    >) {
        if self.tripped {
            return Some(
                halt(
                    "CB-4",
                    "daily loss halt latched — manual reset + CIO approval required".to_owned(),
                ),
            );
        }
        if !ctx.firm_book.nav.is_positive() {
            return Some(CircuitBreakerResult::Pass);
        }
        let pct = ctx.config.max_daily_loss_pct;
        let max_loss = pct.checked_mul(ctx.firm_book.nav)?;
        if ctx.firm_book.daily_pnl.is_less(max_loss.negated()) {
            let report = loss_report("daily", ctx.firm_book.daily_pnl, pct, max_loss)?;
            return Some(halt("CB-4", report));
        }
        Some(CircuitBreakerResult::Pass)
    }

    fn reset(&mut self, _reason: ResetReason) {
        self.tripped = false;
    }

    fn is_tripped(&self) -> (r: bool) {
        self.tripped
    }
}

/// `HaltAll` when firm hourly P&L breaches the loss cap. Latches — manual reset.
#[derive(Debug)]
pub struct Cb5FirmHourlyLoss {
    pub tripped: bool,
}

impl Sealed for Cb5FirmHourlyLoss {

}

impl Cb5FirmHourlyLoss {
    /// The breaker, not latched.
    pub fn new() -> (r: Cb5FirmHourlyLoss)
        ensures
            !r.tripped,
    {
        Cb5FirmHourlyLoss { tripped: false }
    }

    /// Latches the breaker.
    pub fn latch(&mut self)
        ensures
            final(self).tripped,
    {
        self.tripped = true;
    }
}

impl CircuitBreaker for Cb5FirmHourlyLoss {
    open spec fn fits(&self, ctx: CircuitBreakerContext<'_>) -> bool {
        self.tripped || cb5_fits(ctx)
    }

    open spec fn verdict(&self, ctx: CircuitBreakerContext<'_>, now: int) -> Verdict {
        if self.tripped {
            cb5_latched()
        } else {
            cb5_fresh(ctx)
        }
    }

    open spec fn latched(&self) -> bool {
        self.tripped
    }

    fn id(&self) -> (r: &'static str)
        ensures
            r@ == "CB-5"@,
    {
        "CB-5"
    }

    fn check_at(&self, ctx: &CircuitBreakerContext<'_>, now: Timestamp) -> (r: Option<
        CircuitBreakerResult,
    >) {
        if self.tripped {
            return Some(
                halt(
                    "CB-5",
                    "hourly loss halt latched — manual reset required".to_owned(),
                ),
            );
        }
        if !ctx.firm_book.nav.is_positive() {
            return Some(CircuitBreakerResult::Pass);
        }
        let pct = ctx.config.max_hourly_loss_pct;
        let max_loss = pct.checked_mul(ctx.firm_book.nav)?;
        if ctx.firm_book.hourly_pnl.is_less(max_loss.negated()) {
            let report = loss_report("hourly", ctx.firm_book.hourly_pnl, pct, max_loss)?;
            return Some(halt("CB-5", report));
        }
        Some(CircuitBreakerResult::Pass)
    }

    fn reset(&mut self, _reason: ResetReason) {
        self.tripped = false;
    }

    fn is_tripped(&self) -> (r: bool) {
        self.tripped
    }
}

/// Rejects new orders when firm-wide order rate exceeds the cap.
/// Re-evaluated each call against the context window.
#[derive(Debug, Clone, Copy)]
pub struct Cb6FirmOrdersPerMinute;

impl Sealed for Cb6FirmOrdersPerMinute {

}

impl CircuitBreaker for Cb6FirmOrdersPerMinute {
    open spec fn fits(&self, ctx: CircuitBreakerContext<'_>) -> bool {
        true
    }

    open spec fn verdict(&self, ctx: CircuitBreakerContext<'_>, now: int) -> Verdict {
        cb6_verdict(ctx)
    }

    open spec fn latched(&self) -> bool {
        false
    }

    fn id(&self) -> (r: &'static str)
        ensures
            r@ == "CB-6"@,
    {
        "CB-6"
    }

    fn check_at(&self, ctx: &CircuitBreakerContext<'_>, now: Timestamp) -> (r: Option<
        CircuitBreakerResult,
    >) {
        if ctx.firm_orders_last_60s > ctx.config.max_firm_orders_per_min {
            return Some(
                reject(
                    "CB-6",
                    joined5(
                        "firm order rate ",
                        digits_text(ctx.firm_orders_last_60s as u128).as_str(),
                        "/min exceeds max ",
                        digits_text(ctx.config.max_firm_orders_per_min as u128).as_str(),
                        "/min",
                    ),
                ),
            );
        }
        Some(CircuitBreakerResult::Pass)
    }

    fn reset(&mut self, _reason: ResetReason) {
    }

    fn is_tripped(&self) -> (r: bool) {
        false
    }
}

/// Rejects orders from an agent when that agent's order rate exceeds the cap.
/// Re-evaluated each call against the context window.
#[derive(Debug, Clone, Copy)]
pub struct Cb7AgentOrdersPerMinute;

impl Sealed for Cb7AgentOrdersPerMinute {

}

impl CircuitBreaker for Cb7AgentOrdersPerMinute {
    open spec fn fits(&self, ctx: CircuitBreakerContext<'_>) -> bool {
        true
    }

    open spec fn verdict(&self, ctx: CircuitBreakerContext<'_>, now: int) -> Verdict {
        cb7_verdict(ctx)
    }

    open spec fn latched(&self) -> bool {
        false
    }

    fn id(&self) -> (r: &'static str)
        ensures
            r@ == "CB-7"@,
    {
        "CB-7"
    }

    fn check_at(&self, ctx: &CircuitBreakerContext<'_>, now: Timestamp) -> (r: Option<
        CircuitBreakerResult,
    >) {
        let core = match ctx.order {
            Some(o) => o.order_core(),
            None => {
                return Some(CircuitBreakerResult::Pass);
            },
        };
        let agent_id = &core.agent_id;
        let agent_rate: u32 = match ctx.agent_orders_last_60s.get(agent_id.as_str()) {
            Some(rate) => *rate,
            None => 0,
        };
        if agent_rate > ctx.config.max_agent_orders_per_min {
            return Some(
                reject(
                    "CB-7",
                    joined3(
                        joined5(
                            "agent ",
                            agent_id.as_str(),
                            " order rate ",
                            digits_text(agent_rate as u128).as_str(),
                            "/min exceeds max ",
                        ).as_str(),
                        digits_text(ctx.config.max_agent_orders_per_min as u128).as_str(),
                        "/min",
                    ),
                ),
            );
        }
        Some(CircuitBreakerResult::Pass)
    }

    fn reset(&mut self, _reason: ResetReason) {
    }

    fn is_tripped(&self) -> (r: bool) {
        false
    }
}

/// Rejects orders to a venue when its error rate over the last 5 minutes is too high.
/// Re-evaluated each call against the context window.
#[derive(Debug, Clone, Copy)]
pub struct Cb8VenueErrorRate;

impl Sealed for Cb8VenueErrorRate {

}

impl CircuitBreaker for Cb8VenueErrorRate {
    open spec fn fits(&self, ctx: CircuitBreakerContext<'_>) -> bool {
        cb8_fits(ctx)
    }

    open spec fn verdict(&self, ctx: CircuitBreakerContext<'_>, now: int) -> Verdict {
        cb8_verdict(ctx)
    }

    open spec fn latched(&self) -> bool {
        false
    }

    fn id(&self) -> (r: &'static str)
        ensures
            r@ == "CB-8"@,
    {
        "CB-8"
    }

    fn check_at(&self, ctx: &CircuitBreakerContext<'_>, now: Timestamp) -> (r: Option<
        CircuitBreakerResult,
    >) {
        let core = match ctx.order {
            Some(o) => o.order_core(),
            None => {
                return Some(CircuitBreakerResult::Pass);
            },
        };
        let venue_id = &core.venue_id;
        if let Some(stats) = ctx.venue_error_stats.get(venue_id.as_str()) {
            if stats.total_last_5min > 0 {
                let error_rate = Decimal::from_u32(stats.errors_last_5min).checked_div(
                    Decimal::from_u32(stats.total_last_5min),
                )?;
                if ctx.config.max_venue_error_rate.is_less(error_rate) {
                    return Some(
                        reject(
                            "CB-8",
                            joined(
                                joined5(
                                    "venue ",
                                    venue_id.as_str(),
                                    " error rate ",
                                    error_rate.text_to(2).as_str(),
                                    " exceeds max ",
                                ).as_str(),
                                ctx.config.max_venue_error_rate.text().as_str(),
                            ),
                        ),
                    );
                }
            }
        }
        Some(CircuitBreakerResult::Pass)
    }

    fn reset(&mut self, _reason: ResetReason) {
    }

    fn is_tripped(&self) -> (r: bool) {
        false
    }
}

/// Rejects orders to a venue that has not sent a heartbeat within the disconnect window.
/// Re-evaluated each call against the current heartbeat timestamp.
#[derive(Debug, Clone, Copy)]
pub struct Cb9VenueDisconnected;

impl Sealed for Cb9VenueDisconnected {

}

impl CircuitBreaker for Cb9VenueDisconnected {
    open spec fn fits(&self, ctx: CircuitBreakerContext<'_>) -> bool {
        true
    }

    open spec fn verdict(&self, ctx: CircuitBreakerContext<'_>, now: int) -> Verdict {
        cb9_verdict(ctx, now)
    }

    open spec fn latched(&self) -> bool {
        false
    }

    fn id(&self) -> (r: &'static str)
        ensures
            r@ == "CB-9"@,
    {
        "CB-9"
    }

    fn check_at(&self, ctx: &CircuitBreakerContext<'_>, now: Timestamp) -> (r: Option<
        CircuitBreakerResult,
    >) {
        let core = match ctx.order {
            Some(o) => o.order_core(),
            None => {
                return Some(CircuitBreakerResult::Pass);
            },
        };
        let venue_id = &core.venue_id;
        let health = match ctx.venue_health.get(venue_id.as_str()) {
            Some(health) => health,
            None => {
                return Some(
                    reject(
                        "CB-9",
                        joined3(
                            "no health record for venue ",
                            venue_id.as_str(),
                            " — cannot verify connectivity",
                        ),
                    ),
                );
            },
        };
        // Fail closed: the venue must be in the `Connected` state before the heartbeat age
        // counts, because the state machine tracks transitions that age does not capture.
        if !health.is_submittable() {
            return Some(
                reject(
                    "CB-9",
                    joined5(
                        "venue ",
                        venue_id.as_str(),
                        " is not in Connected state (",
                        health.state.debug_text().as_str(),
                        ") — submission blocked",
                    ),
                ),
            );
        }
        let last_hb = match health.last_heartbeat_at {
            Some(t) => t,
            None => {
                return Some(
                    reject(
                        "CB-9",
                        joined3("venue ", venue_id.as_str(), " has never sent a heartbeat"),
                    ),
                );
            },
        };
        // Fail closed on future timestamps: the heartbeat record cannot be trusted.
        let elapsed: i64 = now.seconds_since(last_hb);
        if now.is_before(last_hb) {
            return Some(
                reject(
                    "CB-9",
                    joined5(
                        "venue ",
                        venue_id.as_str(),
                        " heartbeat timestamp is ",
                        digits_text((-(elapsed as i128)) as u128).as_str(),
                        "s in the future — clock skew detected",
                    ),
                ),
            );
        }
        let elapsed_secs: u64 = elapsed as u64;
        if elapsed_secs > ctx.config.max_venue_disconnect_secs {
            return Some(
                reject(
                    "CB-9",
                    joined3(
                        joined5(
                            "venue ",
                            venue_id.as_str(),
                            " last heartbeat ",
                            digits_text(elapsed_secs as u128).as_str(),
                            "s ago exceeds ",
                        ).as_str(),
                        digits_text(ctx.config.max_venue_disconnect_secs as u128).as_str(),
                        "-second disconnect limit",
                    ),
                ),
            );
        }
        Some(CircuitBreakerResult::Pass)
    }

    fn reset(&mut self, _reason: ResetReason) {
    }

    fn is_tripped(&self) -> (r: bool) {
        false
    }
}

/// Hard-rejects any order where `dry_run == false` and the engine is not in live mode.
/// Prevents paper/backtest orders from reaching real venues.
#[derive(Debug, Clone, Copy)]
pub struct Cb10DryRunBypass;

impl Sealed for Cb10DryRunBypass {

}

impl CircuitBreaker for Cb10DryRunBypass {
    open spec fn fits(&self, ctx: CircuitBreakerContext<'_>) -> bool {
        true
    }

    open spec fn verdict(&self, ctx: CircuitBreakerContext<'_>, now: int) -> Verdict {
        cb10_verdict(ctx)
    }

    open spec fn latched(&self) -> bool {
        false
    }

    fn id(&self) -> (r: &'static str)
        ensures
            r@ == "CB-10"@,
    {
        "CB-10"
    }

    fn check_at(&self, ctx: &CircuitBreakerContext<'_>, now: Timestamp) -> (r: Option<
        CircuitBreakerResult,
    >) {
        let core = match ctx.order {
            Some(o) => o.order_core(),
            None => {
                return Some(CircuitBreakerResult::Pass);
            },
        };
        if !core.dry_run && ctx.execution_mode != ExecutionMode::Live {
            return Some(
                reject(
                    "CB-10",
                    joined3(
                        "order has dry_run=false but engine is in ",
                        ctx.execution_mode.debug_text(),
                        " mode — live submission blocked",
                    ),
                ),
            );
        }
        Some(CircuitBreakerResult::Pass)
    }

    fn reset(&mut self, _reason: ResetReason) {
    }

    fn is_tripped(&self) -> (r: bool) {
        false
    }
}

/// Rejects new orders when the sequencer command queue is above the depth cap
/// (backpressure).
#[derive(Debug, Clone, Copy)]
pub struct Cb11SequencerQueueDepth;

impl Sealed for Cb11SequencerQueueDepth {

}

impl CircuitBreaker for Cb11SequencerQueueDepth {
    open spec fn fits(&self, ctx: CircuitBreakerContext<'_>) -> bool {
        true
    }

    open spec fn verdict(&self, ctx: CircuitBreakerContext<'_>, now: int) -> Verdict {
        cb11_verdict(ctx)
    }

    open spec fn latched(&self) -> bool {
        false
    }

    fn id(&self) -> (r: &'static str)
        ensures
            r@ == "CB-11"@,
    {
        "CB-11"
    }

    fn check_at(&self, ctx: &CircuitBreakerContext<'_>, now: Timestamp) -> (r: Option<
        CircuitBreakerResult,
    >) {
        if ctx.sequencer_queue_depth > ctx.config.max_sequencer_queue_depth {
            return Some(
                reject(
                    "CB-11",
                    joined4(
                        "sequencer queue depth ",
                        digits_text(ctx.sequencer_queue_depth as u128).as_str(),
                        " exceeds max ",
                        digits_text(ctx.config.max_sequencer_queue_depth as u128).as_str(),
                    ),
                ),
            );
        }
        Some(CircuitBreakerResult::Pass)
    }

    fn reset(&mut self, _reason: ResetReason) {
    }

    fn is_tripped(&self) -> (r: bool) {
        false
    }
}

// ─── The bank ───

/// Which of the stateful breakers are latched.
pub struct Latches {
    /// CB-3: firm gross notional.
    pub gross: bool,
    /// CB-4: daily loss.
    pub daily: bool,
    /// CB-5: hourly loss.
    pub hourly: bool,
}

/// The first verdict, unless it is a pass.
pub open spec fn or_next(first: Verdict, next: Verdict) -> Verdict {
    if first is Pass {
        next
    } else {
        first
    }
}

/// The checks that every order undergoes last: CB-2, CB-6, CB-7, CB-8, CB-9.
pub open spec fn common_verdict(ctx: CircuitBreakerContext<'_>, now: int) -> Verdict {
    or_next(
        cb2_verdict(ctx),
        or_next(
            cb6_verdict(ctx),
            or_next(cb7_verdict(ctx), or_next(cb8_verdict(ctx), cb9_verdict(ctx, now))),
        ),
    )
}

/// Whether the checks of [`common_verdict`] stay within the range of numbers, as far as
/// they are reached.
pub open spec fn common_fits(ctx: CircuitBreakerContext<'_>) -> bool {
    cb2_fits(ctx) && (cb2_verdict(ctx) is Pass && cb6_verdict(ctx) is Pass && cb7_verdict(
        ctx,
    ) is Pass ==> cb8_fits(ctx))
}

/// The checks of a new order where no breaker is latched: CB-10, CB-4, CB-5, CB-3, CB-11,
/// CB-1, and those that every order undergoes.
pub open spec fn fresh_verdict(ctx: CircuitBreakerContext<'_>, now: int) -> Verdict {
    or_next(
        cb10_verdict(ctx),
        or_next(
            cb4_fresh(ctx),
            or_next(
                cb5_fresh(ctx),
                or_next(
                    cb3_fresh(ctx),
                    or_next(
                        cb11_verdict(ctx),
                        or_next(cb1_verdict(ctx), common_verdict(ctx, now)),
                    ),
                ),
            ),
        ),
    )
}

/// Whether the checks of [`fresh_verdict`] stay within the range of numbers, as far as
/// they are reached.
pub open spec fn fresh_fits(ctx: CircuitBreakerContext<'_>) -> bool {
    cb10_verdict(ctx) is Pass ==> {
        &&& cb4_fits(ctx)
        &&& cb4_fresh(ctx) is Pass ==> {
            &&& cb5_fits(ctx)
            &&& cb5_fresh(ctx) is Pass && cb3_fresh(ctx) is Pass && cb11_verdict(ctx) is Pass ==> {
                &&& cb1_fits(ctx)
                &&& cb1_verdict(ctx) is Pass ==> common_fits(ctx)
            }
        }
    }
}

/// The checks of a reduce-only order: CB-10, CB-11, and those that every order undergoes.
pub open spec fn reducing_verdict(ctx: CircuitBreakerContext<'_>, now: int) -> Verdict {
    or_next(cb10_verdict(ctx), or_next(cb11_verdict(ctx), common_verdict(ctx, now)))
}

/// Whether the checks of [`reducing_verdict`] stay within the range of numbers, as far as
/// they are reached.
pub open spec fn reducing_fits(ctx: CircuitBreakerContext<'_>) -> bool {
    cb10_verdict(ctx) is Pass && cb11_verdict(ctx) is Pass ==> common_fits(ctx)
}

/// What the bank decides on an operation at a time.
///
/// A cancel passes. A new order is stopped by a latched halt (CB-4 before CB-5), then by
/// a latched CB-3, then by the first breaker that stops it. A reduce-only order passes
/// the latches and CB-3, CB-4, CB-5 and CB-1.
pub open spec fn bank_verdict(latches: Latches, ctx: CircuitBreakerContext<'_>, now: int) -> Verdict {
    match ctx.operation_kind {
        OperationKind::Cancel => Verdict::Pass,
        OperationKind::ReduceOnly => reducing_verdict(ctx, now),
        OperationKind::NewOrder => if latches.daily {
            cb4_latched()
        } else if latches.hourly {
            cb5_latched()
        } else if latches.gross {
            cb3_latched()
        } else {
            fresh_verdict(ctx, now)
        },
    }
}

/// Whether the bank's checks stay within the range of numbers, as far as they are reached.
pub open spec fn bank_fits(latches: Latches, ctx: CircuitBreakerContext<'_>) -> bool {
    match ctx.operation_kind {
        OperationKind::Cancel => true,
        OperationKind::ReduceOnly => reducing_fits(ctx),
        OperationKind::NewOrder => latches.daily || latches.hourly || latches.gross || fresh_fits(
            ctx,
        ),
    }
}

/// The latches after a check: the breaker among CB-4, CB-5 and CB-3 that stops a new order
/// is latched.
pub open spec fn latches_after(latches: Latches, ctx: CircuitBreakerContext<'_>) -> Latches {
    if !(ctx.operation_kind is NewOrder) || latches.daily || latches.hourly || latches.gross || !(
    cb10_verdict(ctx) is Pass) {
        latches
    } else if !(cb4_fresh(ctx) is Pass) {
        Latches { daily: true, ..latches }
    } else if !(cb5_fresh(ctx) is Pass) {
        Latches { hourly: true, ..latches }
    } else if !(cb3_fresh(ctx) is Pass) {
        Latches { gross: true, ..latches }
    } else {
        latches
    }
}

/// The latches after a reset, and whether it is accepted. Only CB-3, CB-4 and CB-5 can be
/// reset, and CB-4 only with CIO approval.
pub open spec fn reset_outcome(latches: Latches, breaker: Seq<char>, reason: ResetReason) -> Result<
    Latches,
    Seq<char>,
> {
    if breaker == "CB-3"@ {
        Ok(Latches { gross: false, ..latches })
    } else if breaker == "CB-4"@ {
        if reason is CioApproval {
            Ok(Latches { daily: false, ..latches })
        } else {
            Err(
                "CB-4 (daily loss halt) requires CIO approval to reset — use ResetReason::CioApproval"@,
            )
        }
    } else if breaker == "CB-5"@ {
        Ok(Latches { hourly: false, ..latches })
    } else {
        Err("circuit breaker "@ + breaker + " is not resettable or does not exist"@)
    }
}

/// Runs all compiled-in circuit breakers in a single call.
///
/// The bank owns all breaker state. No other crate can register new breakers (sealed
/// trait).
#[derive(Debug)]
pub struct CircuitBreakerBank {
    cb1: Cb1MaxSingleOrderNotional,
    cb2: Cb2MaxInstrumentPosition,
    cb3: Cb3MaxFirmGrossNotional,
    cb4: Cb4FirmDailyLoss,
    cb5: Cb5FirmHourlyLoss,
    cb6: Cb6FirmOrdersPerMinute,
    cb7: Cb7AgentOrdersPerMinute,
    cb8: Cb8VenueErrorRate,
    cb9: Cb9VenueDisconnected,
    cb10: Cb10DryRunBypass,
    cb11: Cb11SequencerQueueDepth,
}

/// Whether a result lets the operation through.
fn passes(r: &CircuitBreakerResult) -> (b: bool)
    ensures
        b == (r@ is Pass),
{
    matches!(r, CircuitBreakerResult::Pass)
}

impl CircuitBreakerBank {
    /// Which of the stateful breakers are latched.
    pub closed spec fn latches(&self) -> Latches {
        Latches { gross: self.cb3.tripped, daily: self.cb4.tripped, hourly: self.cb5.tripped }
    }

    /// A bank with nothing latched.
    #[must_use]
    pub fn new() -> (r: CircuitBreakerBank)
        ensures
            r.latches() == (Latches { gross: false, daily: false, hourly: false }),
    {
        CircuitBreakerBank {
            cb1: Cb1MaxSingleOrderNotional,
            cb2: Cb2MaxInstrumentPosition,
            cb3: Cb3MaxFirmGrossNotional::new(),
            cb4: Cb4FirmDailyLoss::new(),
            cb5: Cb5FirmHourlyLoss::new(),
            cb6: Cb6FirmOrdersPerMinute,
            cb7: Cb7AgentOrdersPerMinute,
            cb8: Cb8VenueErrorRate,
            cb9: Cb9VenueDisconnected,
            cb10: Cb10DryRunBypass,
            cb11: Cb11SequencerQueueDepth,
        }
    }

    /// The checks that every order undergoes last.
    fn check_common(&self, ctx: &CircuitBreakerContext<'_>, now: Timestamp) -> (r: Option<
        CircuitBreakerResult,
    >)
        ensures
            r is Some <==> common_fits(*ctx),
            r matches Some(v) ==> v@ == common_verdict(*ctx, now@),
    {
        let r = self.cb2.check_at(ctx, now)?;
        if !passes(&r) {
            return Some(r);
        }
        let r = self.cb6.check_at(ctx, now)?;
        if !passes(&r) {
            return Some(r);
        }
        let r = self.cb7.check_at(ctx, now)?;
        if !passes(&r) {
            return Some(r);
        }
        let r = self.cb8.check_at(ctx, now)?;
        if !passes(&r) {
            return Some(r);
        }
        self.cb9.check_at(ctx, now)
    }

    /// Run all circuit breakers in order at a given time; `None` where a number exceeds
    /// its range, with nothing latched.
    pub fn check_all_at(&mut self, ctx: &CircuitBreakerContext<'_>, now: Timestamp) -> (r: Option<
        CircuitBreakerResult,
    >)
        ensures
            match r {
                Some(v) => {
                    &&& bank_fits(old(self).latches(), *ctx)
                    &&& v@ == bank_verdict(old(self).latches(), *ctx, now@)
                    &&& final(self).latches() == latches_after(old(self).latches(), *ctx)
                },
                None => {
                    &&& !bank_fits(old(self).latches(), *ctx)
                    &&& final(self).latches() == old(self).latches()
                },
            },
    {
        // Cancels never increase exposure — they bypass all circuit breakers.
        if ctx.operation_kind == OperationKind::Cancel {
            return Some(CircuitBreakerResult::Pass);
        }
        let is_reduce_only = ctx.operation_kind == OperationKind::ReduceOnly;
        // Latched halts, daily loss before hourly loss, then the latched gross notional.
        // Reduce-only operations are let through so that positions can be flattened.
        if self.cb4.is_tripped() && !is_reduce_only {
            return Some(
                halt(
                    "CB-4",
                    "daily loss halt latched — manual reset + CIO approval required".to_owned(),
                ),
            );
        }
        if self.cb5.is_tripped() && !is_reduce_only {
            return Some(
                halt("CB-5", "hourly loss halt latched — manual reset required".to_owned()),
            );
        }
        if self.cb3.is_tripped() && !is_reduce_only {
            return Some(
                reject(
                    "CB-3",
                    "firm gross notional limit latched — manual reset required".to_owned(),
                ),
            );
        }
        let r = self.cb10.check_at(ctx, now)?;
        if !passes(&r) {
            return Some(r);
        }
        if !is_reduce_only {
            let r = self.cb4.check_at(ctx, now)?;
            if !passes(&r) {
                self.cb4.latch();
                return Some(r);
            }
            let r = self.cb5.check_at(ctx, now)?;
            if !passes(&r) {
                self.cb5.latch();
                return Some(r);
            }
            let r = self.cb3.check_at(ctx, now)?;
            if !passes(&r) {
                self.cb3.latch();
                return Some(r);
            }
        }
        let r = self.cb11.check_at(ctx, now)?;
        if !passes(&r) {
            return Some(r);
        }
        // A flatten order may exceed the single order cap: the engine must not be stuck
        // holding risk during a halt.
        if !is_reduce_only {
            let r = self.cb1.check_at(ctx, now)?;
            if !passes(&r) {
                return Some(r);
            }
        }
        self.check_common(ctx, now)
    }

    /// Run all circuit breakers in order. Returns on the first non-`Pass` result.
    ///
    /// Stateful breakers (CB-3, CB-4, CB-5) are latched inside this method when
    /// their fresh check triggers.
    pub fn check_all(&mut self, ctx: &CircuitBreakerContext<'_>) -> (r: CircuitBreakerResult)
        requires
            bank_fits(old(self).latches(), *ctx),
        ensures
            exists|now: Timestamp| #[trigger]
                ctx.clock.may_show(now) && r@ == bank_verdict(old(self).latches(), *ctx, now@),
            final(self).latches() == latches_after(old(self).latches(), *ctx),
    {
        let now = ctx.clock.now();
        self.check_all_at(ctx, now).unwrap()
    }

    /// Run all circuit breakers in order; `None` where a number exceeds its range, with
    /// nothing latched.
    pub fn checked_check_all(&mut self, ctx: &CircuitBreakerContext<'_>) -> (r: Option<
        CircuitBreakerResult,
    >)
        ensures
            match r {
                Some(v) => {
                    &&& bank_fits(old(self).latches(), *ctx)
                    &&& exists|now: Timestamp| #[trigger]
                        ctx.clock.may_show(now) && v@ == bank_verdict(
                            old(self).latches(),
                            *ctx,
                            now@,
                        )
                    &&& final(self).latches() == latches_after(old(self).latches(), *ctx)
                },
                None => {
                    &&& !bank_fits(old(self).latches(), *ctx)
                    &&& final(self).latches() == old(self).latches()
                },
            },
    {
        if self.stays_in_range(ctx) {
            Some(self.check_all(ctx))
        } else {
            None
        }
    }

    /// Whether the checks of a context stay within the range of numbers.
    pub fn stays_in_range(&self, ctx: &CircuitBreakerContext<'_>) -> (r: bool)
        ensures
            r == bank_fits(self.latches(), *ctx),
    {
        let mut copy = CircuitBreakerBank::new();
        copy.cb3.tripped = self.cb3.tripped;
        copy.cb4.tripped = self.cb4.tripped;
        copy.cb5.tripped = self.cb5.tripped;
        let now = ctx.clock.now();
        copy.check_all_at(ctx, now).is_some()
    }

    /// Reset a stateful circuit breaker by ID.
    ///
    /// Only CB-3, CB-4, and CB-5 are resettable (they are the only latching breakers).
    /// Returns `Err` if the breaker ID is unrecognized or not resettable.
    pub fn reset(&mut self, breaker_id: &str, reason: ResetReason) -> (r: Result<(), RiskError>)
        ensures
            match reset_outcome(old(self).latches(), breaker_id@, reason) {
                Ok(latches) => r == Ok::<(), RiskError>(()) && final(self).latches() == latches,
                Err(why) => final(self).latches() == old(self).latches() && (r matches Err(
                    RiskError::Rejected(text),
                ) && text@ == why),
            },
    {
        if same_text(breaker_id, "CB-3") {
            self.cb3.reset(reason);
            Ok(())
        } else if same_text(breaker_id, "CB-4") {
            match reason {
                ResetReason::CioApproval { .. } => {
                    self.cb4.reset(reason);
                    Ok(())
                },
                _ => Err(
                    RiskError::Rejected(
                        "CB-4 (daily loss halt) requires CIO approval to reset — use ResetReason::CioApproval".to_owned(),
                    ),
                ),
            }
        } else if same_text(breaker_id, "CB-5") {
            self.cb5.reset(reason);
            Ok(())
        } else {
            Err(
                RiskError::Rejected(
                    joined3(
                        "circuit breaker ",
                        breaker_id,
                        " is not resettable or does not exist",
                    ),
                ),
            )
        }
    }

    /// Whether any `HaltAll` breaker is currently latched.
    #[must_use]
    pub fn is_halt_active(&self) -> (r: bool)
        ensures
            r == (self.latches().daily || self.latches().hourly),
    {
        self.cb4.is_tripped() || self.cb5.is_tripped()
    }

    /// Whether any stateful breaker is currently tripped.
    #[must_use]
    pub fn any_tripped(&self) -> (r: bool)
        ensures
            r == (self.latches().gross || self.latches().daily || self.latches().hourly),
    {
        self.cb3.is_tripped() || self.cb4.is_tripped() || self.cb5.is_tripped()
    }
}

impl Default for CircuitBreakerBank {
    fn default() -> (r: CircuitBreakerBank)
        ensures
            r.latches() == (Latches { gross: false, daily: false, hourly: false }),
    {
        CircuitBreakerBank::new()
    }
}

// ─── Laws ───

/// A cancel passes whatever is latched, and latches nothing.
pub proof fn law_cancel_always_passes(
    latches: Latches,
    ctx: CircuitBreakerContext<'_>,
    now: int,
)
    requires
        ctx.operation_kind is Cancel,
    ensures
        bank_fits(latches, ctx),
        bank_verdict(latches, ctx, now) is Pass,
        latches_after(latches, ctx) == latches,
{
}

/// A check never clears a latch.
pub proof fn law_latches_persist(latches: Latches, ctx: CircuitBreakerContext<'_>)
    ensures
        latches.gross ==> latches_after(latches, ctx).gross,
        latches.daily ==> latches_after(latches, ctx).daily,
        latches.hourly ==> latches_after(latches, ctx).hourly,
{
}

/// While anything is latched, no new order passes; while a halt is latched, every new
/// order is answered with the halt.
pub proof fn law_latch_blocks_new_orders(
    latches: Latches,
    ctx: CircuitBreakerContext<'_>,
    now: int,
)
    requires
        ctx.operation_kind is NewOrder,
        latches.gross || latches.daily || latches.hourly,
    ensures
        !(bank_verdict(latches, ctx, now) is Pass),
        latches.daily || latches.hourly ==> bank_verdict(latches, ctx, now) is HaltAll,
{
}

/// A halt is latched by the check that reports it, so the next new order is halted too.
pub proof fn law_halt_is_latched(
    latches: Latches,
    ctx: CircuitBreakerContext<'_>,
    now: int,
    next: CircuitBreakerContext<'_>,
    later: int,
)
    requires
        bank_verdict(latches, ctx, now) is HaltAll,
        next.operation_kind is NewOrder,
    ensures
        latches_after(latches, ctx).daily || latches_after(latches, ctx).hourly,
        bank_verdict(latches_after(latches, ctx), next, later) is HaltAll,
{
}

/// A reduce-only order is judged alike whatever is latched, is never halted, and latches
/// nothing.
pub proof fn law_reduce_only_ignores_latches(
    one: Latches,
    other: Latches,
    ctx: CircuitBreakerContext<'_>,
    now: int,
)
    requires
        ctx.operation_kind is ReduceOnly,
    ensures
        bank_verdict(one, ctx, now) == bank_verdict(other, ctx, now),
        !(bank_verdict(one, ctx, now) is HaltAll),
        latches_after(one, ctx) == one,
{
}

/// An order that is for real never passes outside live mode, unless it is a cancel.
pub proof fn law_real_order_needs_live_mode(
    latches: Latches,
    ctx: CircuitBreakerContext<'_>,
    order: PipelineOrder<Validated>,
    now: int,
)
    requires
        ctx.order == Some(&order),
        !order.order().dry_run,
        !(ctx.execution_mode is Live),
        !(ctx.operation_kind is Cancel),
    ensures
        !(bank_verdict(latches, ctx, now) is Pass),
{
}

/// A new order passes exactly where nothing is latched and every breaker lets it pass.
pub proof fn law_pass_needs_every_breaker(
    latches: Latches,
    ctx: CircuitBreakerContext<'_>,
    now: int,
)
    requires
        ctx.operation_kind is NewOrder,
    ensures
        bank_verdict(latches, ctx, now) is Pass <==> {
            &&& !latches.gross && !latches.daily && !latches.hourly
            &&& cb1_verdict(ctx) is Pass
            &&& cb2_verdict(ctx) is Pass
            &&& cb3_fresh(ctx) is Pass
            &&& cb4_fresh(ctx) is Pass
            &&& cb5_fresh(ctx) is Pass
            &&& cb6_verdict(ctx) is Pass
            &&& cb7_verdict(ctx) is Pass
            &&& cb8_verdict(ctx) is Pass
            &&& cb9_verdict(ctx, now) is Pass
            &&& cb10_verdict(ctx) is Pass
            &&& cb11_verdict(ctx) is Pass
        },
{
}

/// A manual operator cannot lift the daily loss halt.
pub proof fn law_daily_halt_needs_approval(
    latches: Latches,
    breaker: Seq<char>,
    reason: ResetReason,
)
    requires
        latches.daily,
        reason is ManualOperator,
    ensures
        reset_outcome(latches, breaker, reason) matches Ok(after) ==> after.daily,
{
}

/// A reset clears one latch at most and sets none.
pub proof fn law_reset_clears_one_latch(
    latches: Latches,
    breaker: Seq<char>,
    reason: ResetReason,
)
    ensures
        reset_outcome(latches, breaker, reason) matches Ok(after) ==> {
            ||| after == (Latches { gross: false, ..latches })
            ||| after == (Latches { daily: false, ..latches })
            ||| after == (Latches { hourly: false, ..latches })
        },
{
}

} // verus!
