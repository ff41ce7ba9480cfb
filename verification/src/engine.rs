//! Engine core — the sequencer's command protocol, engine state, and the traits that the
//! sequencer works through.
//!
//! The sequencer is the single owner of all mutable business state. All methods are
//! synchronous. All timestamps come from a clock that is handed in.

use crate::decimal::Decimal;
use crate::ids::{AgentId, ClientOrderId, OrderId, SequenceId};
use crate::limits::{same_risk_limits, AgentRiskLimits, RiskCheckResult, RiskLimits, RiskViolation};
use crate::pipeline::{
    Fill, OrderCore, OrderState, PipelineOrder, RiskApprovalStamp, RiskChecked, Validated,
};
use crate::pnl::PriceSource;
use crate::portfolio::{
    same_book, same_positions, AgentAllocation, AgentStatus, FirmBook, Positions,
};
use crate::reconciliation::ReconciliationReport;
use crate::signal::Signal;
use crate::table::Table;
use crate::text::{joined, joined3, joined4};
use crate::time::Timestamp;
use vstd::prelude::*;

verus! {

/// Typed errors of the engine core.
#[derive(Debug)]
pub enum EngineError {
    RiskRejected { reason: String },
    AgentPaused { agent_id: String, reason: String },
    EngineHalted { reason: String },
    AgentNotFound(String),
    OrderNotFound(String),
    InvalidTransition(String),
    DuplicateOrder(ClientOrderId),
    Journal(String),
    Reconciliation(String),
    UnsupportedCommand { command: &'static str },
    /// Any other failure, as text.
    Internal(String),
}

/// The content of an [`EngineError`].
pub enum EngineFault {
    RiskRejected { reason: Seq<char> },
    AgentPaused { agent_id: Seq<char>, reason: Seq<char> },
    EngineHalted { reason: Seq<char> },
    AgentNotFound(Seq<char>),
    OrderNotFound(Seq<char>),
    InvalidTransition(Seq<char>),
    DuplicateOrder(Seq<char>),
    Journal(Seq<char>),
    Reconciliation(Seq<char>),
    UnsupportedCommand { command: Seq<char> },
    Internal(Seq<char>),
}

impl View for EngineError {
    type V = EngineFault;

    open spec fn view(&self) -> EngineFault {
        match *self {
            EngineError::RiskRejected { reason } => EngineFault::RiskRejected { reason: reason@ },
            EngineError::AgentPaused { agent_id, reason } => EngineFault::AgentPaused {
                agent_id: agent_id@,
                reason: reason@,
            },
            EngineError::EngineHalted { reason } => EngineFault::EngineHalted { reason: reason@ },
            EngineError::AgentNotFound(id) => EngineFault::AgentNotFound(id@),
            EngineError::OrderNotFound(id) => EngineFault::OrderNotFound(id@),
            EngineError::InvalidTransition(why) => EngineFault::InvalidTransition(why@),
            EngineError::DuplicateOrder(id) => EngineFault::DuplicateOrder(id@),
            EngineError::Journal(why) => EngineFault::Journal(why@),
            EngineError::Reconciliation(why) => EngineFault::Reconciliation(why@),
            EngineError::UnsupportedCommand { command } => EngineFault::UnsupportedCommand {
                command: command@,
            },
            EngineError::Internal(why) => EngineFault::Internal(why@),
        }
    }
}

/// The text of an engine error.
pub open spec fn engine_fault_text(f: EngineFault) -> Seq<char> {
    match f {
        EngineFault::RiskRejected { reason } => "risk check failed: "@ + reason,
        EngineFault::AgentPaused { agent_id, reason } => "agent "@ + agent_id + " is paused: "@
            + reason,
        EngineFault::EngineHalted { reason } => "engine is halted: "@ + reason,
        EngineFault::AgentNotFound(id) => "agent not found: "@ + id,
        EngineFault::OrderNotFound(id) => "order not found: "@ + id,
        EngineFault::InvalidTransition(why) => "invalid state transition: "@ + why,
        EngineFault::DuplicateOrder(id) => "duplicate order: client_order_id "@ + id
            + " already submitted"@,
        EngineFault::Journal(why) => "journal error: "@ + why,
        EngineFault::Reconciliation(why) => "reconciliation error: "@ + why,
        EngineFault::UnsupportedCommand { command } => "unsupported command: "@ + command,
        EngineFault::Internal(why) => why,
    }
}

impl EngineError {
    /// The error as text.
    pub fn text(&self) -> (r: String)
        ensures
            r@ == engine_fault_text(self@),
    {
        match self {
            EngineError::RiskRejected { reason } => joined("risk check failed: ", reason.as_str()),
            EngineError::AgentPaused { agent_id, reason } => joined4(
                "agent ",
                agent_id.as_str(),
                " is paused: ",
                reason.as_str(),
            ),
            EngineError::EngineHalted { reason } => joined("engine is halted: ", reason.as_str()),
            EngineError::AgentNotFound(id) => joined("agent not found: ", id.as_str()),
            EngineError::OrderNotFound(id) => joined("order not found: ", id.as_str()),
            EngineError::InvalidTransition(why) => joined(
                "invalid state transition: ",
                why.as_str(),
            ),
            EngineError::DuplicateOrder(id) => joined3(
                "duplicate order: client_order_id ",
                id.as_str(),
                " already submitted",
            ),
            EngineError::Journal(why) => joined("journal error: ", why.as_str()),
            EngineError::Reconciliation(why) => joined("reconciliation error: ", why.as_str()),
            EngineError::UnsupportedCommand { command } => joined(
                "unsupported command: ",
                command,
            ),
            EngineError::Internal(why) => why.clone(),
        }
    }
}

/// What the sequencer asks of the core, with everything that is handed to it.
pub enum CoreRequest {
    /// To restore a snapshot.
    Restore { snapshot: EngineStateSnapshot },
    /// To take in a fill.
    Fill { fill: Fill, now: Timestamp },
    /// To take in a reconciliation.
    Reconcile { report: ReconciliationReport, now: Timestamp },
    /// To pause an agent.
    Pause { agent: AgentId, reason: String, now: Timestamp },
    /// To resume an agent.
    Resume { agent: AgentId, now: Timestamp },
    /// To change an agent's limits.
    Adjust { agent: AgentId, limits: AgentRiskLimits },
    /// To halt all trading.
    Halt { reason: String, now: Timestamp },
    /// To reset the circuit breaker.
    ResetBreaker { now: Timestamp },
}

/// Synchronous decision logic and state mutations.
///
/// All methods take the core exclusively — no locking needed.
/// All timestamps are handed in.
///
/// The core is owned exclusively by the sequencer.
pub trait EngineCore: Sized {
    /// The state that the core holds.
    spec fn held(&self) -> EngineState;

    /// Whether the core may answer a request so, and become `after` by it.
    spec fn may_answer(
        &self,
        request: CoreRequest,
        said: Result<(), EngineError>,
        after: Self,
    ) -> bool;

    /// Whether the core may judge an order so, and become `after` by it.
    spec fn may_judge(
        &self,
        order: PipelineOrder<Validated>,
        now: Timestamp,
        verdict: Result<PipelineOrder<RiskChecked>, EngineError>,
        after: Self,
    ) -> bool;

    /// Whether the core may answer so when asked to mark to the market of a price source,
    /// and become `after` by it.
    spec fn may_mark<P: PriceSource>(
        &self,
        prices: P,
        now: Timestamp,
        said: Result<(), EngineError>,
        after: Self,
    ) -> bool;

    /// Current state (for reading without mutation).
    fn state(&self) -> (r: &EngineState)
        ensures
            *r == self.held(),
    ;

    /// Mutable access to engine state. Only the sequencer should call this.
    fn state_mut(&mut self) -> (r: &mut EngineState)
        ensures
            *r == old(self).held(),
            final(self).held() == *final(r),
    ;

    /// A copy of the state, for read-only consumers.
    #[must_use]
    fn snapshot(&self, sequence_id: SequenceId, snapshot_at: Timestamp) -> (r: EngineStateSnapshot)
        ensures
            same_state(self.held(), r.state),
            r.sequence_id == sequence_id,
            r.snapshot_at == snapshot_at,
    {
        EngineStateSnapshot { state: self.state().clone(), sequence_id, snapshot_at }
    }

    /// Restore the state from a snapshot.
    fn restore_snapshot(&mut self, snapshot: &EngineStateSnapshot) -> (r: Result<(), EngineError>)
        ensures
            old(self).may_answer((CoreRequest::Restore { snapshot: *snapshot }), r, *final(self)),
    ;

    /// Evaluate a validated order through circuit breaker and risk gate.
    ///
    /// Accepts `PipelineOrder<Validated>` — the type system guarantees the
    /// order has passed structural validation before reaching this point.
    /// Returns `PipelineOrder<RiskChecked>` on approval (consuming the input).
    fn evaluate_order(&mut self, order: PipelineOrder<Validated>, now: Timestamp) -> (r: Result<
        PipelineOrder<RiskChecked>,
        EngineError,
    >)
        ensures
            old(self).may_judge(order, now, r, *final(self)),
    ;

    /// Update state on fill confirmation from venue.
    fn on_fill(&mut self, fill: &Fill, now: Timestamp) -> (r: Result<(), EngineError>)
        ensures
            old(self).may_answer((CoreRequest::Fill { fill: *fill, now }), r, *final(self)),
    ;

    /// Update positions based on reconciliation result.
    fn on_reconciliation(&mut self, report: &ReconciliationReport, now: Timestamp) -> (r: Result<
        (),
        EngineError,
    >)
        ensures
            old(self).may_answer(
                (CoreRequest::Reconcile { report: *report, now }),
                r,
                *final(self),
            ),
    ;

    /// Mark-to-market: update unrealized P&L from current prices.
    fn mark_to_market<P: PriceSource>(&mut self, prices: &P, now: Timestamp) -> (r: Result<
        (),
        EngineError,
    >)
        ensures
            old(self).may_mark(*prices, now, r, *final(self)),
    ;

    /// Pause an agent (prevent new orders, allow fill processing).
    fn pause_agent(&mut self, agent: &AgentId, reason: String, now: Timestamp) -> (r: Result<
        (),
        EngineError,
    >)
        ensures
            old(self).may_answer(
                (CoreRequest::Pause { agent: *agent, reason, now }),
                r,
                *final(self),
            ),
    ;

    /// Resume a paused agent.
    fn resume_agent(&mut self, agent: &AgentId, now: Timestamp) -> (r: Result<(), EngineError>)
        ensures
            old(self).may_answer((CoreRequest::Resume { agent: *agent, now }), r, *final(self)),
    ;

    /// Update per-agent risk limits (hot-reload).
    fn adjust_limits(&mut self, agent: &AgentId, limits: AgentRiskLimits) -> (r: Result<
        (),
        EngineError,
    >)
        ensures
            old(self).may_answer(
                (CoreRequest::Adjust { agent: *agent, limits }),
                r,
                *final(self),
            ),
    ;

    /// Halt all trading (emergency response to loss breaker).
    fn halt_all(&mut self, reason: String, now: Timestamp) -> (r: Result<(), EngineError>)
        ensures
            old(self).may_answer((CoreRequest::Halt { reason, now }), r, *final(self)),
    ;

    /// Reset circuit breaker after investigation.
    fn reset_circuit_breaker(&mut self, now: Timestamp) -> (r: Result<(), EngineError>)
        ensures
            old(self).may_answer((CoreRequest::ResetBreaker { now }), r, *final(self)),
    ;
}

/// Commands sent to the sequencer from other tasks.
#[derive(Debug)]
pub enum SequencerCommand {
    SubmitOrder { order: PipelineOrder<Validated> },
    SubmitSignal { signal: Signal },
    OnFill { fill: Fill },
    OnReconciliation { report: ReconciliationReport },
    MarkToMarket,
    AdjustLimits { agent: AgentId, limits: AgentRiskLimits },
    PauseAgent { agent: AgentId, reason: String },
    ResumeAgent { agent: AgentId },
    HaltAll { reason: String },
    ResetCircuitBreaker { breaker_id: String },
    Snapshot,
    Shutdown,
}

impl SequencerCommand {
    /// Whether the command goes before others: fills, reconciliation, halts and shutdown.
    #[must_use]
    pub fn is_high_priority(&self) -> (r: bool)
        ensures
            r == (self is OnFill || self is OnReconciliation || self is HaltAll
                || self is ResetCircuitBreaker || self is Shutdown),
    {
        match self {
            SequencerCommand::OnFill { .. } => true,
            SequencerCommand::OnReconciliation { .. } => true,
            SequencerCommand::HaltAll { .. } => true,
            SequencerCommand::ResetCircuitBreaker { .. } => true,
            SequencerCommand::Shutdown => true,
            SequencerCommand::SubmitOrder { .. } => false,
            SequencerCommand::SubmitSignal { .. } => false,
            SequencerCommand::MarkToMarket => false,
            SequencerCommand::AdjustLimits { .. } => false,
            SequencerCommand::PauseAgent { .. } => false,
            SequencerCommand::ResumeAgent { .. } => false,
            SequencerCommand::Snapshot => false,
        }
    }
}

/// Monotonic sequence number generator owned by the sequencer.
#[derive(Debug)]
pub struct SequenceGenerator {
    next: SequenceId,
}

impl SequenceGenerator {
    /// The number that is given out next.
    pub closed spec fn upcoming(&self) -> u64 {
        self.next.0
    }

    /// A generator that starts at a number.
    #[must_use]
    pub fn new(start_from: SequenceId) -> (r: SequenceGenerator)
        ensures
            r.upcoming() == start_from.0,
    {
        SequenceGenerator { next: start_from }
    }

    /// A generator that starts at zero.
    #[must_use]
    pub fn from_zero() -> (r: SequenceGenerator)
        ensures
            r.upcoming() == 0,
    {
        SequenceGenerator { next: SequenceId::zero() }
    }

    /// Gives out the next number.
    pub fn next_id(&mut self) -> (r: SequenceId)
        requires
            old(self).upcoming() < u64::MAX,
        ensures
            r.0 == old(self).upcoming(),
            final(self).upcoming() == old(self).upcoming() + 1,
    {
        let current = self.next;
        self.next = current.next();
        current
    }

    /// The number that is given out next.
    #[must_use]
    pub fn current(&self) -> (r: SequenceId)
        ensures
            r.0 == self.upcoming(),
    {
        self.next
    }
}

/// Current state of the engine (positions, P&L, risk utilization).
#[derive(Debug)]
pub struct EngineState {
    /// Orders by order identifier.
    pub orders: Table<OrderRecord>,
    pub positions: Positions,
    /// Signals by signal identifier.
    pub pending_signals: Table<Signal>,
    pub firm_book: FirmBook,
    /// Allocations by agent.
    pub agent_allocations: Table<AgentAllocation>,
    pub risk_limits: RiskLimits,
    /// Statuses by agent.
    pub agent_statuses: Table<AgentStatus>,
    /// Acknowledgments by client order identifier.
    pub idempotency_cache: Table<OrderAck>,
    pub last_sequence_id: SequenceId,
    pub last_updated: Timestamp,
}

/// Whether two states are the same but for when they were last updated.
pub open spec fn same_business(a: EngineState, b: EngineState) -> bool {
    &&& a.orders@.dom() == b.orders@.dom()
    &&& forall|k: Seq<char>| #[trigger]
        b.orders@.contains_key(k) ==> same_record(a.orders@[k], b.orders@[k])
    &&& same_positions(a.positions.listed(), b.positions.listed())
    &&& a.pending_signals@ == b.pending_signals@
    &&& same_book(a.firm_book, b.firm_book)
    &&& a.agent_allocations@ == b.agent_allocations@
    &&& same_risk_limits(a.risk_limits, b.risk_limits)
    &&& a.agent_statuses@ == b.agent_statuses@
    &&& a.idempotency_cache@ == b.idempotency_cache@
}

/// Whether two states are the same.
pub open spec fn same_state(a: EngineState, b: EngineState) -> bool {
    &&& same_business(a, b)
    &&& a.last_sequence_id == b.last_sequence_id
    &&& a.last_updated == b.last_updated
}

impl Clone for EngineState {
    fn clone(&self) -> (r: EngineState)
        ensures
            same_state(*self, r),
    {
        let r = EngineState {
            orders: self.orders.clone(),
            positions: self.positions.clone(),
            pending_signals: self.pending_signals.clone(),
            firm_book: self.firm_book.clone(),
            agent_allocations: self.agent_allocations.clone(),
            risk_limits: self.risk_limits.clone(),
            agent_statuses: self.agent_statuses.clone(),
            idempotency_cache: self.idempotency_cache.clone(),
            last_sequence_id: self.last_sequence_id,
            last_updated: self.last_updated,
        };
        assert(r.pending_signals@ =~= self.pending_signals@);
        assert(r.agent_allocations@ =~= self.agent_allocations@);
        assert(r.agent_statuses@ =~= self.agent_statuses@);
        assert(r.idempotency_cache@ =~= self.idempotency_cache@);
        r
    }
}

/// Acknowledgment of an order.
#[must_use]
#[derive(Debug)]
pub struct OrderAck {
    pub order_id: OrderId,
    pub client_order_id: ClientOrderId,
    pub accepted_at: Timestamp,
}

impl Clone for OrderAck {
    fn clone(&self) -> (r: OrderAck)
        ensures
            r == *self,
    {
        OrderAck {
            order_id: self.order_id.clone(),
            client_order_id: self.client_order_id.clone(),
            accepted_at: self.accepted_at,
        }
    }
}

/// Acknowledgment of a signal.
#[must_use]
#[derive(Debug, Clone)]
pub struct SignalAck {
    pub order_id: OrderId,
    pub client_order_id: ClientOrderId,
    pub position_size: Decimal,
    pub accepted_at: Timestamp,
}

/// The engine's state at a point of the sequence.
#[derive(Debug)]
pub struct EngineStateSnapshot {
    pub state: EngineState,
    pub sequence_id: SequenceId,
    pub snapshot_at: Timestamp,
}

/// Whether two snapshots are the same.
pub open spec fn same_snapshot(a: EngineStateSnapshot, b: EngineStateSnapshot) -> bool {
    &&& same_state(a.state, b.state)
    &&& a.sequence_id == b.sequence_id
    &&& a.snapshot_at == b.snapshot_at
}

impl Clone for EngineStateSnapshot {
    fn clone(&self) -> (r: EngineStateSnapshot)
        ensures
            same_snapshot(*self, r),
    {
        EngineStateSnapshot {
            state: self.state.clone(),
            sequence_id: self.sequence_id,
            snapshot_at: self.snapshot_at,
        }
    }
}

/// What the engine knows of an order.
#[derive(Debug)]
pub struct OrderRecord {
    pub core: OrderCore,
    pub state: OrderState,
    pub client_order_id: ClientOrderId,
    pub fills: Vec<Fill>,
    pub created_at: Timestamp,
    pub last_updated: Timestamp,
}

/// Whether two order records are the same.
pub open spec fn same_record(a: OrderRecord, b: OrderRecord) -> bool {
    &&& a.core == b.core
    &&& a.state == b.state
    &&& a.client_order_id == b.client_order_id
    &&& a.fills@ == b.fills@
    &&& a.created_at == b.created_at
    &&& a.last_updated == b.last_updated
}

impl Clone for OrderRecord {
    fn clone(&self) -> (r: OrderRecord)
        ensures
            same_record(*self, r),
    {
        let fills = self.fills.clone();
        assert(fills@ =~= self.fills@);
        OrderRecord {
            core: self.core.clone(),
            state: self.state,
            client_order_id: self.client_order_id.clone(),
            fills,
            created_at: self.created_at,
            last_updated: self.last_updated,
        }
    }
}

/// Approval of an order by the risk checks.
#[must_use]
#[derive(Debug, Clone)]
pub struct RiskApproval {
    pub approved_at: Timestamp,
    pub checks_performed: Vec<RiskCheckResult>,
    pub warnings: Vec<RiskViolation>,
}

impl RiskApproval {
    /// The stamp that the order carries on.
    #[must_use]
    pub fn into_stamp(self) -> (r: RiskApprovalStamp)
        ensures
            r.approved_at == self.approved_at,
            r.checks_performed == self.checks_performed,
            r.warnings == self.warnings,
    {
        RiskApprovalStamp {
            approved_at: self.approved_at,
            checks_performed: self.checks_performed,
            warnings: self.warnings,
        }
    }
}

} // verus!
