//! Type-state pipeline — compile-time enforcement of order processing stages.
//!
//! An order must pass through stages in order: `Draft → Validated → RiskChecked → Routed`.
//! Each transition consumes the previous stage, making it impossible to submit
//! an un-risk-checked order to a venue. A submitted order then follows the runtime
//! state machine of [`VenueState`].

use crate::decimal::{
    difference_units, is_writable, num_add, num_div, num_mul, num_sub, num_zero, o_add, opt_num,
    sum_units, units, Decimal, Num,
};
use crate::ids::{
    AgentId, BasketId, ClientOrderId, InstrumentId, MarketId, OrderId, VenueId, VenueOrderId,
};
use crate::limits::{RiskCheckResult, RiskViolation};
use crate::sealed::Stage;
use crate::signal::Side;
use crate::text::{joined3, joined4};
use crate::time::{utc_display_text, Timestamp};
use vstd::prelude::*;

verus! {

/// Order type determines execution semantics at the venue.
#[derive(Debug, Clone, Copy, PartialEq, Eq, Hash, Structural)]
pub enum OrderType {
    /// Execute immediately at best available price.
    Market,
    /// Execute at specified price or better.
    Limit,
    /// Becomes a market order when trigger price is reached.
    StopMarket,
    /// Becomes a limit order when trigger price is reached.
    StopLimit,
    /// Trailing stop with dynamic trigger.
    TrailingStop,
}

/// The text of an order type.
pub open spec fn order_type_text(t: OrderType) -> Seq<char> {
    match t {
        OrderType::Market => "market"@,
        OrderType::Limit => "limit"@,
        OrderType::StopMarket => "stop_market"@,
        OrderType::StopLimit => "stop_limit"@,
        OrderType::TrailingStop => "trailing_stop"@,
    }
}

impl OrderType {
    /// The order type as text.
    pub fn text(self) -> (r: &'static str)
        ensures
            r@ == order_type_text(self),
    {
        match self {
            OrderType::Market => "market",
            OrderType::Limit => "limit",
            OrderType::StopMarket => "stop_market",
            OrderType::StopLimit => "stop_limit",
            OrderType::TrailingStop => "trailing_stop",
        }
    }
}

/// Time-in-force determines how long an order remains active.
#[derive(Debug, Clone, Copy, PartialEq, Eq, Hash)]
pub enum TimeInForce {
    /// Good 'til cancelled (persists until filled or manually cancelled).
    GTC,
    /// Immediate-or-cancel (fill what you can, cancel the rest).
    IOC,
    /// Fill-or-kill (fill entirely or cancel entirely).
    FOK,
    /// Good 'til date (expires at the specified time).
    GTD { expire_at: Timestamp },
}

/// The text of a time-in-force.
pub open spec fn time_in_force_text(t: TimeInForce) -> Seq<char> {
    match t {
        TimeInForce::GTC => "GTC"@,
        TimeInForce::IOC => "IOC"@,
        TimeInForce::FOK => "FOK"@,
        TimeInForce::GTD { expire_at } => "GTD("@ + utc_display_text(expire_at@) + ")"@,
    }
}

impl TimeInForce {
    /// The time-in-force as text.
    pub fn text(self) -> (r: String)
        ensures
            r@ == time_in_force_text(self),
    {
        match self {
            TimeInForce::GTC => "GTC".to_owned(),
            TimeInForce::IOC => "IOC".to_owned(),
            TimeInForce::FOK => "FOK".to_owned(),
            TimeInForce::GTD { expire_at } => joined3("GTD(", expire_at.display_text().as_str(), ")"),
        }
    }
}

/// Execution hints — controls how the engine handles order submission.
///
/// These flags are opt-in. `ExecHint::default()` is the safe, conservative default.
#[derive(Debug, Clone, Copy)]
pub struct ExecHint {
    /// Allow the engine to emulate unsupported order types.
    /// When `false` (default), submission fails if the venue doesn't natively support the
    /// order type. When `true`, the engine may emulate (e.g., synthetic stop via polling).
    pub allow_emulation: bool,
}

impl Default for ExecHint {
    fn default() -> (r: ExecHint)
        ensures
            !r.allow_emulation,
    {
        ExecHint { allow_emulation: false }
    }
}

/// Trait bound for generic code that accepts any pipeline stage.
pub trait PipelineStage: Stage {

}

/// Order has been constructed but not yet validated.
#[derive(Debug, Clone)]
pub struct Draft;

/// Order has passed structural validation (fields, precision, venue support).
#[derive(Debug, Clone)]
pub struct Validated {
    validated_at: Timestamp,
}

/// Order has passed circuit breaker and risk gate checks.
#[derive(Debug, Clone)]
pub struct RiskChecked {
    validated_at: Timestamp,
    approval: RiskApprovalStamp,
}

/// Order has been assigned a venue route and is ready for submission.
#[derive(Debug, Clone)]
pub struct Routed {
    validated_at: Timestamp,
    approval: RiskApprovalStamp,
    routing: RoutingAssignment,
}

impl Stage for Draft {

}

impl Stage for Validated {

}

impl Stage for RiskChecked {

}

impl Stage for Routed {

}

impl PipelineStage for Draft {

}

impl PipelineStage for Validated {

}

impl PipelineStage for RiskChecked {

}

impl PipelineStage for Routed {

}

/// Immutable core fields present at every pipeline stage.
#[derive(Debug)]
pub struct OrderCore {
    pub id: OrderId,
    /// The basket that the order belongs to, if it is one leg of several.
    pub basket_id: Option<BasketId>,
    pub agent_id: AgentId,
    pub instrument_id: InstrumentId,
    /// The venue's symbol for the instrument.
    pub market_id: MarketId,
    pub venue_id: VenueId,
    pub side: Side,
    pub order_type: OrderType,
    pub time_in_force: TimeInForce,
    pub qty: Decimal,
    pub price: Option<Decimal>,
    /// Trigger price for stop orders. Required when `order_type` is `StopMarket` or `StopLimit`.
    pub trigger_price: Option<Decimal>,
    pub stop_loss: Option<Decimal>,
    pub take_profit: Option<Decimal>,
    /// Post-only flag: reject if order would take liquidity.
    pub post_only: bool,
    /// Reduce-only flag: order can only reduce an existing position.
    pub reduce_only: bool,
    pub dry_run: bool,
    pub exec_hint: ExecHint,
    pub created_at: Timestamp,
}

impl Clone for OrderCore {
    fn clone(&self) -> (r: OrderCore)
        ensures
            r == *self,
    {
        OrderCore {
            id: self.id.clone(),
            basket_id: match &self.basket_id {
                Some(b) => Some(b.clone()),
                None => None,
            },
            agent_id: self.agent_id.clone(),
            instrument_id: self.instrument_id.clone(),
            market_id: self.market_id.clone(),
            venue_id: self.venue_id.clone(),
            side: self.side,
            order_type: self.order_type,
            time_in_force: self.time_in_force,
            qty: self.qty,
            price: self.price,
            trigger_price: self.trigger_price,
            stop_loss: self.stop_loss,
            take_profit: self.take_profit,
            post_only: self.post_only,
            reduce_only: self.reduce_only,
            dry_run: self.dry_run,
            exec_hint: self.exec_hint,
            created_at: self.created_at,
        }
    }
}

/// An order at a specific stage in the processing pipeline.
///
/// The stage parameter `S` carries data accumulated during processing.
/// Transitions consume `self` and produce the next stage, making it
/// impossible to skip stages at compile time.
///
/// Not `Clone` — transitions are consuming. Extract `core` if you need
/// to store order data before consuming.
#[derive(Debug)]
pub struct PipelineOrder<S: PipelineStage> {
    /// Core order fields (immutable across stages).
    pub core: OrderCore,
    stage: S,
}

/// Proof that risk checks passed. Carried forward through subsequent stages.
#[derive(Debug, Clone)]
pub struct RiskApprovalStamp {
    pub approved_at: Timestamp,
    pub checks_performed: Vec<RiskCheckResult>,
    pub warnings: Vec<RiskViolation>,
}

/// Venue assignment and client order ID for submission.
#[derive(Debug, Clone)]
pub struct RoutingAssignment {
    pub venue_id: VenueId,
    pub client_order_id: ClientOrderId,
    pub routed_at: Timestamp,
}

impl Validated {
    /// When the order was validated.
    pub closed spec fn at(&self) -> Timestamp {
        self.validated_at
    }
}

impl RiskChecked {
    /// When the order was validated.
    pub closed spec fn at(&self) -> Timestamp {
        self.validated_at
    }

    /// The approval of the risk checks.
    pub closed spec fn stamp(&self) -> RiskApprovalStamp {
        self.approval
    }
}

impl Routed {
    /// When the order was validated.
    pub closed spec fn at(&self) -> Timestamp {
        self.validated_at
    }

    /// The approval of the risk checks.
    pub closed spec fn stamp(&self) -> RiskApprovalStamp {
        self.approval
    }

    /// The venue assignment.
    pub closed spec fn route(&self) -> RoutingAssignment {
        self.routing
    }
}

impl<S: PipelineStage> PipelineOrder<S> {
    /// What the stages so far have added to the order.
    pub closed spec fn reached(&self) -> S {
        self.stage
    }

    /// The order itself, which is the field `core`, the same at every stage. The stage beside
    /// it is private, so contracts of other modules can speak of neither field by its name.
    pub closed spec fn order(&self) -> OrderCore {
        self.core
    }

    /// The immutable core order data.
    pub fn order_core(&self) -> (r: &OrderCore)
        ensures
            *r == self.order(),
    {
        &self.core
    }

    /// The core order data, taken out of the pipeline.
    pub fn into_core(self) -> (r: OrderCore)
        ensures
            r == self.order(),
    {
        self.core
    }
}

impl PipelineOrder<Draft> {
    /// Create a new draft order. This is the only entry point into the pipeline.
    pub fn new(core: OrderCore) -> (r: PipelineOrder<Draft>)
        ensures
            r.order() == core,
    {
        PipelineOrder { core, stage: Draft }
    }

    /// Transition: Draft → Validated.
    ///
    /// Called after structural validation passes (fields, precision, venue support).
    pub fn into_validated(self, now: Timestamp) -> (r: PipelineOrder<Validated>)
        ensures
            r.order() == self.order(),
            r.reached().at() == now,
    {
        PipelineOrder { core: self.core, stage: Validated { validated_at: now } }
    }
}

impl PipelineOrder<Validated> {
    /// When this order was validated.
    pub fn validated_at(&self) -> (r: Timestamp)
        ensures
            r == self.reached().at(),
    {
        self.stage.validated_at
    }

    /// Transition: Validated → RiskChecked.
    ///
    /// Called after circuit breaker and risk gate both approve.
    pub fn into_risk_checked(self, approval: RiskApprovalStamp) -> (r: PipelineOrder<RiskChecked>)
        ensures
            r.order() == self.order(),
            r.reached().at() == self.reached().at(),
            r.reached().stamp() == approval,
    {
        PipelineOrder {
            core: self.core,
            stage: RiskChecked { validated_at: self.stage.validated_at, approval },
        }
    }
}

impl PipelineOrder<RiskChecked> {
    /// When this order was validated.
    pub fn validated_at(&self) -> (r: Timestamp)
        ensures
            r == self.reached().at(),
    {
        self.stage.validated_at
    }

    /// Access the risk approval stamp.
    pub fn risk_approval(&self) -> (r: &RiskApprovalStamp)
        ensures
            *r == self.reached().stamp(),
    {
        &self.stage.approval
    }

    /// Transition: RiskChecked → Routed.
    ///
    /// Called after venue selection confirms availability and client order ID is generated.
    pub fn into_routed(self, routing: RoutingAssignment) -> (r: PipelineOrder<Routed>)
        ensures
            r.order() == self.order(),
            r.reached().at() == self.reached().at(),
            r.reached().stamp() == self.reached().stamp(),
            r.reached().route() == routing,
    {
        PipelineOrder {
            core: self.core,
            stage: Routed {
                validated_at: self.stage.validated_at,
                approval: self.stage.approval,
                routing,
            },
        }
    }
}

impl PipelineOrder<Routed> {
    /// When this order was validated.
    pub fn validated_at(&self) -> (r: Timestamp)
        ensures
            r == self.reached().at(),
    {
        self.stage.validated_at
    }

    /// Access the risk approval stamp.
    pub fn risk_approval(&self) -> (r: &RiskApprovalStamp)
        ensures
            *r == self.reached().stamp(),
    {
        &self.stage.approval
    }

    /// Access routing assignment (venue, client order ID).
    pub fn routing(&self) -> (r: &RoutingAssignment)
        ensures
            *r == self.reached().route(),
    {
        &self.stage.routing
    }

    /// Venue this order is routed to.
    pub fn venue_id(&self) -> (r: &VenueId)
        ensures
            *r == self.reached().route().venue_id,
    {
        &self.stage.routing.venue_id
    }

    /// Client order ID for venue submission.
    pub fn client_order_id(&self) -> (r: &ClientOrderId)
        ensures
            *r == self.reached().route().client_order_id,
    {
        &self.stage.routing.client_order_id
    }
}

/// Runtime state of an order after it enters the engine.
///
/// Unlike the pipeline stages (compile-time), the post-submission lifecycle is
/// runtime because transitions depend on external venue responses.
#[derive(Debug, Clone, Copy, PartialEq, Eq, Hash, Structural)]
pub enum OrderState {
    /// Accepted by engine, pending risk check.
    Pending,
    /// Sent to venue, awaiting acknowledgment.
    Submitted,
    /// Venue acknowledged receipt.
    Accepted,
    /// Partially filled (some quantity executed).
    PartiallyFilled,
    /// Fully filled.
    Filled,
    /// Cancelled (by engine, agent, or venue).
    Cancelled,
    /// Rejected by venue or risk gate.
    Rejected,
    /// Expired (TIF expired on venue).
    Expired,
}

/// The states after which nothing more happens to an order.
pub open spec fn order_is_over(s: OrderState) -> bool {
    s is Filled || s is Cancelled || s is Rejected || s is Expired
}

/// The states in which a venue may still fill an order.
pub open spec fn order_is_at_venue(s: OrderState) -> bool {
    s is Submitted || s is Accepted || s is PartiallyFilled
}

/// The text of an order state.
pub open spec fn order_state_text(s: OrderState) -> Seq<char> {
    match s {
        OrderState::Pending => "pending"@,
        OrderState::Submitted => "submitted"@,
        OrderState::Accepted => "accepted"@,
        OrderState::PartiallyFilled => "partially_filled"@,
        OrderState::Filled => "filled"@,
        OrderState::Cancelled => "cancelled"@,
        OrderState::Rejected => "rejected"@,
        OrderState::Expired => "expired"@,
    }
}

impl OrderState {
    /// Is this a terminal state (no further transitions possible)?
    pub fn is_terminal(self) -> (r: bool)
        ensures
            r == order_is_over(self),
    {
        match self {
            OrderState::Pending => false,
            OrderState::Submitted => false,
            OrderState::Accepted => false,
            OrderState::PartiallyFilled => false,
            OrderState::Filled => true,
            OrderState::Cancelled => true,
            OrderState::Rejected => true,
            OrderState::Expired => true,
        }
    }

    /// Is the order active on a venue (may receive fills)?
    pub fn is_active(self) -> (r: bool)
        ensures
            r == order_is_at_venue(self),
    {
        match self {
            OrderState::Pending => false,
            OrderState::Submitted => true,
            OrderState::Accepted => true,
            OrderState::PartiallyFilled => true,
            OrderState::Filled => false,
            OrderState::Cancelled => false,
            OrderState::Rejected => false,
            OrderState::Expired => false,
        }
    }

    /// The state as text.
    pub fn text(self) -> (r: &'static str)
        ensures
            r@ == order_state_text(self),
    {
        match self {
            OrderState::Pending => "pending",
            OrderState::Submitted => "submitted",
            OrderState::Accepted => "accepted",
            OrderState::PartiallyFilled => "partially_filled",
            OrderState::Filled => "filled",
            OrderState::Cancelled => "cancelled",
            OrderState::Rejected => "rejected",
            OrderState::Expired => "expired",
        }
    }
}

/// No order state is both terminal and active.
pub proof fn law_terminal_orders_are_not_active(s: OrderState)
    ensures
        !(order_is_over(s) && order_is_at_venue(s)),
{
}

/// A fill received from a venue, enriched with engine-side metadata.
#[derive(Debug)]
pub struct Fill {
    pub order_id: OrderId,
    pub venue_order_id: VenueOrderId,
    pub instrument_id: InstrumentId,
    pub side: Side,
    pub qty: Decimal,
    pub price: Decimal,
    pub fee: Decimal,
    pub filled_at: Timestamp,
    pub is_maker: bool,
}

impl Clone for Fill {
    fn clone(&self) -> (r: Fill)
        ensures
            r == *self,
    {
        Fill {
            order_id: self.order_id.clone(),
            venue_order_id: self.venue_order_id.clone(),
            instrument_id: self.instrument_id.clone(),
            side: self.side,
            qty: self.qty,
            price: self.price,
            fee: self.fee,
            filled_at: self.filled_at,
            is_maker: self.is_maker,
        }
    }
}

/// Runtime state machine for post-submission order lifecycle.
///
/// Transitions are validated — invalid transitions return [`VenueStateError`].
#[derive(Debug, Clone, Copy, PartialEq, Eq, Hash, Structural)]
pub enum VenueState {
    /// Sent to venue, awaiting acknowledgment.
    Submitted,
    /// Venue acknowledged receipt.
    Accepted,
    /// Partially filled.
    PartiallyFilled,
    /// Fully filled (terminal).
    Filled,
    /// Cancelled (terminal).
    Cancelled,
    /// Rejected by venue (terminal).
    Rejected,
    /// Expired on venue (terminal).
    Expired,
}

/// The terminal venue states.
pub open spec fn venue_is_over(s: VenueState) -> bool {
    s is Filled || s is Cancelled || s is Rejected || s is Expired
}

/// Whether an order at the venue may pass from one state to another. Some venues fill
/// without an explicit acknowledgment.
pub open spec fn venue_may_pass(from: VenueState, to: VenueState) -> bool {
    match from {
        VenueState::Submitted => to is Accepted || to is Rejected || to is Cancelled
            || to is PartiallyFilled || to is Filled,
        VenueState::Accepted => to is PartiallyFilled || to is Filled || to is Cancelled
            || to is Expired,
        VenueState::PartiallyFilled => to is PartiallyFilled || to is Filled || to is Cancelled,
        _ => false,
    }
}

/// The text of a venue state.
pub open spec fn venue_state_text(s: VenueState) -> Seq<char> {
    match s {
        VenueState::Submitted => "submitted"@,
        VenueState::Accepted => "accepted"@,
        VenueState::PartiallyFilled => "partially_filled"@,
        VenueState::Filled => "filled"@,
        VenueState::Cancelled => "cancelled"@,
        VenueState::Rejected => "rejected"@,
        VenueState::Expired => "expired"@,
    }
}

impl VenueState {
    /// Is this a terminal state?
    pub fn is_terminal(self) -> (r: bool)
        ensures
            r == venue_is_over(self),
    {
        match self {
            VenueState::Submitted => false,
            VenueState::Accepted => false,
            VenueState::PartiallyFilled => false,
            VenueState::Filled => true,
            VenueState::Cancelled => true,
            VenueState::Rejected => true,
            VenueState::Expired => true,
        }
    }

    /// Validate and execute a state transition.
    ///
    /// Returns the new state if the transition is valid, or an error describing
    /// why the transition is illegal.
    pub fn try_transition(self, to: VenueState) -> (r: Result<VenueState, VenueStateError>)
        ensures
            r == (if venue_may_pass(self, to) {
                Ok::<VenueState, VenueStateError>(to)
            } else {
                Err(VenueStateError::InvalidTransition { from: self, to })
            }),
    {
        let valid = match (self, to) {
            // From Submitted
            (VenueState::Submitted, VenueState::Accepted) => true,
            (VenueState::Submitted, VenueState::Rejected) => true,
            (VenueState::Submitted, VenueState::Cancelled) => true,
            // Some venues fill without explicit accept
            (VenueState::Submitted, VenueState::PartiallyFilled) => true,
            (VenueState::Submitted, VenueState::Filled) => true,
            // From Accepted
            (VenueState::Accepted, VenueState::PartiallyFilled) => true,
            (VenueState::Accepted, VenueState::Filled) => true,
            (VenueState::Accepted, VenueState::Cancelled) => true,
            (VenueState::Accepted, VenueState::Expired) => true,
            // From PartiallyFilled
            (VenueState::PartiallyFilled, VenueState::PartiallyFilled) => true,
            (VenueState::PartiallyFilled, VenueState::Filled) => true,
            (VenueState::PartiallyFilled, VenueState::Cancelled) => true,
            // Terminal states and all other transitions
            _ => false,
        };
        if valid {
            Ok(to)
        } else {
            Err(VenueStateError::InvalidTransition { from: self, to })
        }
    }

    /// The state as text.
    pub fn text(self) -> (r: &'static str)
        ensures
            r@ == venue_state_text(self),
    {
        match self {
            VenueState::Submitted => "submitted",
            VenueState::Accepted => "accepted",
            VenueState::PartiallyFilled => "partially_filled",
            VenueState::Filled => "filled",
            VenueState::Cancelled => "cancelled",
            VenueState::Rejected => "rejected",
            VenueState::Expired => "expired",
        }
    }
}

/// No transition leaves a terminal state, and every other state can still be left.
pub proof fn law_terminal_states_are_final(s: VenueState)
    ensures
        venue_is_over(s) <==> forall|to: VenueState| !venue_may_pass(s, to),
{
    if !venue_is_over(s) {
        assert(venue_may_pass(s, VenueState::Cancelled));
    }
}

/// An order never returns to the submitted state, nor to the accepted state once filled
/// in part.
pub proof fn law_no_way_back(from: VenueState, to: VenueState)
    requires
        venue_may_pass(from, to),
    ensures
        !(to is Submitted),
        to is Accepted ==> from is Submitted,
{
}

/// Error for invalid venue state transitions.
#[derive(Debug, Clone, Copy, PartialEq, Eq, Structural)]
pub enum VenueStateError {
    InvalidTransition { from: VenueState, to: VenueState },
}

impl VenueStateError {
    /// The error as text.
    pub fn text(self) -> (r: String)
        ensures
            r@ == (match self {
                VenueStateError::InvalidTransition { from, to } =>
                    "invalid venue state transition: "@ + venue_state_text(from) + " → "@
                        + venue_state_text(to),
            }),
    {
        match self {
            VenueStateError::InvalidTransition { from, to } => joined4(
                "invalid venue state transition: ",
                from.text(),
                " → ",
                to.text(),
            ),
        }
    }
}

/// An order that has been submitted to a venue.
///
/// Bridges the compile-time type-state pipeline to the runtime venue lifecycle.
/// Created by consuming a `PipelineOrder<Routed>` — the type system guarantees
/// the order passed validation, risk checks, and routing before reaching this point.
#[derive(Debug, Clone)]
pub struct LiveOrder {
    pub core: OrderCore,
    pub client_order_id: ClientOrderId,
    pub venue_order_id: Option<VenueOrderId>,
    pub venue_state: VenueState,
    pub filled_qty: Decimal,
    pub remaining_qty: Decimal,
    pub avg_fill_price: Option<Decimal>,
    pub fills: Vec<Fill>,
    pub submitted_at: Timestamp,
    pub last_updated: Timestamp,
}

/// Filled quantity, remaining quantity and average price of an order.
pub struct FillTotals {
    pub filled: Num,
    pub remaining: Num,
    pub average: Option<Num>,
}

/// The notional of all fills so far and one more: the old average times the old quantity,
/// plus the new price times the new quantity.
pub open spec fn filled_notional(order: LiveOrder, fill: Fill) -> Option<Num> {
    let before = match order.avg_fill_price {
        Some(p) => p@,
        None => num_zero(),
    };
    o_add(num_mul(before, order.filled_qty@), num_mul(fill.price@, fill.qty@))
}

/// The totals of an order after one more fill; `None` where a number exceeds its range.
pub open spec fn totals_after(order: LiveOrder, fill: Fill) -> Option<FillTotals> {
    match (
        filled_notional(order, fill),
        num_add(order.filled_qty@, fill.qty@),
        num_sub(order.remaining_qty@, fill.qty@),
    ) {
        (Some(notional), Some(filled), Some(remaining)) => if filled.m > 0 {
            match num_div(notional, filled) {
                Some(average) => Some(FillTotals { filled, remaining, average: Some(average) }),
                None => None,
            }
        } else {
            Some(FillTotals { filled, remaining, average: opt_num(order.avg_fill_price) })
        },
        _ => None,
    }
}

/// The venue state that a fill leads to: filled once nothing remains.
pub open spec fn state_after_fill(totals: FillTotals) -> VenueState {
    if totals.remaining.m <= 0 {
        VenueState::Filled
    } else {
        VenueState::PartiallyFilled
    }
}

/// Whether the quantities of an order take a fill with nothing rounded.
pub open spec fn fill_is_exact(order: LiveOrder, fill: Fill) -> bool {
    &&& is_writable(sum_units(order.filled_qty@, fill.qty@), 1)
    &&& is_writable(difference_units(order.remaining_qty@, fill.qty@), 1)
}

/// An order after a fill: the quantities and the average price follow the fill in any
/// case, and nothing of the quantity is lost where nothing is rounded; the fill is
/// recorded only where the state machine allows the state it leads to.
pub open spec fn filled_with(
    before: LiveOrder,
    after: LiveOrder,
    fill: Fill,
    totals: FillTotals,
    now: Timestamp,
    r: Result<(), VenueStateError>,
) -> bool {
    let to = state_after_fill(totals);
    &&& after.core == before.core
    &&& after.client_order_id == before.client_order_id
    &&& after.venue_order_id == before.venue_order_id
    &&& after.submitted_at == before.submitted_at
    &&& after.filled_qty@ == totals.filled
    &&& after.remaining_qty@ == totals.remaining
    &&& opt_num(after.avg_fill_price) == totals.average
    &&& fill_is_exact(before, fill) ==> units(after.filled_qty@) + units(after.remaining_qty@)
        == units(before.filled_qty@) + units(before.remaining_qty@)
    &&& if venue_may_pass(before.venue_state, to) {
        &&& r == Ok::<(), VenueStateError>(())
        &&& after.venue_state == to
        &&& after.fills@ == before.fills@.push(fill)
        &&& after.last_updated == now
    } else {
        &&& r == Err::<(), VenueStateError>(
            VenueStateError::InvalidTransition { from: before.venue_state, to },
        )
        &&& after.venue_state == before.venue_state
        &&& after.fills@ == before.fills@
        &&& after.last_updated == before.last_updated
    }
}

/// Whether two orders differ at most in their venue state and the time of the last update.
pub open spec fn same_but_state(a: LiveOrder, b: LiveOrder) -> bool {
    &&& a.core == b.core
    &&& a.client_order_id == b.client_order_id
    &&& a.venue_order_id == b.venue_order_id
    &&& a.filled_qty == b.filled_qty
    &&& a.remaining_qty == b.remaining_qty
    &&& a.avg_fill_price == b.avg_fill_price
    &&& a.fills@ == b.fills@
    &&& a.submitted_at == b.submitted_at
}

/// An order after a request to pass to a state: moved and stamped where the state machine
/// allows it, untouched otherwise.
pub open spec fn moved_to(
    before: LiveOrder,
    after: LiveOrder,
    to: VenueState,
    now: Timestamp,
    r: Result<(), VenueStateError>,
) -> bool {
    &&& same_but_state(before, after)
    &&& if venue_may_pass(before.venue_state, to) {
        r is Ok && after.venue_state == to && after.last_updated == now
    } else {
        &&& r == Err::<(), VenueStateError>(
            VenueStateError::InvalidTransition { from: before.venue_state, to },
        )
        &&& after.venue_state == before.venue_state
        &&& after.last_updated == before.last_updated
    }
}

impl LiveOrder {
    /// Create a `LiveOrder` from a routed pipeline order at submission time.
    pub fn from_routed(order: PipelineOrder<Routed>, now: Timestamp) -> (r: LiveOrder)
        ensures
            r.core == order.order(),
            r.client_order_id == order.reached().route().client_order_id,
            r.venue_order_id is None,
            r.venue_state is Submitted,
            r.filled_qty@ == num_zero(),
            r.remaining_qty == order.order().qty,
            r.avg_fill_price is None,
            r.fills@.len() == 0,
            r.submitted_at == now,
            r.last_updated == now,
    {
        let qty = order.core.qty;
        let client_order_id = order.client_order_id().clone();
        LiveOrder {
            core: order.core,
            client_order_id,
            venue_order_id: None,
            venue_state: VenueState::Submitted,
            filled_qty: Decimal::zero(),
            remaining_qty: qty,
            avg_fill_price: None,
            fills: Vec::new(),
            submitted_at: now,
            last_updated: now,
        }
    }

    /// Venue acknowledged the order.
    pub fn on_accepted(&mut self, venue_order_id: VenueOrderId, now: Timestamp) -> (r: Result<
        (),
        VenueStateError,
    >)
        ensures
            if venue_may_pass(old(self).venue_state, VenueState::Accepted) {
                &&& r is Ok
                &&& *final(self) == (LiveOrder {
                    venue_state: VenueState::Accepted,
                    venue_order_id: Some(venue_order_id),
                    last_updated: now,
                    ..*old(self)
                })
            } else {
                &&& r == Err::<(), VenueStateError>(
                    VenueStateError::InvalidTransition {
                        from: old(self).venue_state,
                        to: VenueState::Accepted,
                    },
                )
                &&& *final(self) == *old(self)
            },
    {
        match self.venue_state.try_transition(VenueState::Accepted) {
            Ok(state) => {
                self.venue_state = state;
                self.venue_order_id = Some(venue_order_id);
                self.last_updated = now;
                Ok(())
            },
            Err(e) => Err(e),
        }
    }

    /// The totals after one more fill, if every number stays in range.
    fn totals(&self, fill: &Fill) -> (r: Option<(Decimal, Decimal, Option<Decimal>)>)
        ensures
            match r {
                Some((filled, remaining, average)) => totals_after(*self, *fill) == Some(
                    FillTotals {
                        filled: filled@,
                        remaining: remaining@,
                        average: opt_num(average),
                    },
                ),
                None => totals_after(*self, *fill) is None,
            },
            r matches Some((filled, remaining, _)) ==> fill_is_exact(*self, *fill) ==> units(filled@)
                + units(remaining@) == units(self.filled_qty@) + units(self.remaining_qty@),
    {
        let before = match self.avg_fill_price {
            Some(p) => p,
            None => Decimal::zero(),
        };
        let old_notional = before.checked_mul(self.filled_qty)?;
        let new_notional = fill.price.checked_mul(fill.qty)?;
        let notional = old_notional.checked_add(new_notional)?;
        let filled = self.filled_qty.checked_add(fill.qty)?;
        let remaining = self.remaining_qty.checked_sub(fill.qty)?;
        if filled.is_positive() {
            let average = notional.checked_div(filled)?;
            Some((filled, remaining, Some(average)))
        } else {
            Some((filled, remaining, self.avg_fill_price))
        }
    }

    /// Process a fill from the venue.
    ///
    /// The quantities and the average price follow the fill in any case; the fill is
    /// recorded only where the state machine allows the state it leads to.
    pub fn on_fill(&mut self, fill: Fill, now: Timestamp) -> (r: Result<(), VenueStateError>)
        requires
            totals_after(*old(self), fill) is Some,
        ensures
            filled_with(
                *old(self),
                *final(self),
                fill,
                totals_after(*old(self), fill)->0,
                now,
                r,
            ),
    {
        match self.totals(&fill) {
            Some((filled, remaining, average)) => {
                self.filled_qty = filled;
                self.remaining_qty = remaining;
                self.avg_fill_price = average;
            },
            None => {},
        }
        let next_state = if self.remaining_qty.is_positive() {
            VenueState::PartiallyFilled
        } else {
            VenueState::Filled
        };
        match self.venue_state.try_transition(next_state) {
            Ok(state) => {
                self.venue_state = state;
                self.fills.push(fill);
                self.last_updated = now;
                Ok(())
            },
            Err(e) => Err(e),
        }
    }

    /// Process a fill from the venue, if its totals stay in range; `None`, with the order
    /// unchanged, where they do not.
    pub fn checked_on_fill(&mut self, fill: Fill, now: Timestamp) -> (r: Option<
        Result<(), VenueStateError>,
    >)
        ensures
            match totals_after(*old(self), fill) {
                Some(totals) => r is Some && filled_with(
                    *old(self),
                    *final(self),
                    fill,
                    totals,
                    now,
                    r->0,
                ),
                None => r is None && *final(self) == *old(self),
            },
    {
        match self.totals(&fill) {
            Some(_) => Some(self.on_fill(fill, now)),
            None => None,
        }
    }

    /// Order was cancelled.
    pub fn on_cancel(&mut self, now: Timestamp) -> (r: Result<(), VenueStateError>)
        ensures
            moved_to(*old(self), *final(self), VenueState::Cancelled, now, r),
    {
        match self.venue_state.try_transition(VenueState::Cancelled) {
            Ok(state) => {
                self.venue_state = state;
                self.last_updated = now;
                Ok(())
            },
            Err(e) => Err(e),
        }
    }

    /// Order was rejected by venue.
    pub fn on_reject(&mut self, now: Timestamp) -> (r: Result<(), VenueStateError>)
        ensures
            moved_to(*old(self), *final(self), VenueState::Rejected, now, r),
    {
        match self.venue_state.try_transition(VenueState::Rejected) {
            Ok(state) => {
                self.venue_state = state;
                self.last_updated = now;
                Ok(())
            },
            Err(e) => Err(e),
        }
    }

    /// Order expired on venue.
    pub fn on_expire(&mut self, now: Timestamp) -> (r: Result<(), VenueStateError>)
        ensures
            moved_to(*old(self), *final(self), VenueState::Expired, now, r),
    {
        match self.venue_state.try_transition(VenueState::Expired) {
            Ok(state) => {
                self.venue_state = state;
                self.last_updated = now;
                Ok(())
            },
            Err(e) => Err(e),
        }
    }
}

} // verus!
