//! Deterministic event sequencing — every state change is numbered and journaled.
//!
//! The sequencer assigns a monotonic `SequenceId` to every command before processing.
//! Events produced during processing carry that sequence ID. This enables:
//! - **Replay:** reconstruct engine state from any snapshot by replaying events
//! - **Debugging:** "what happened at seq:4281?" → instant lookup
//! - **Backtest fidelity:** same code path for live and replay

use crate::decimal::Decimal;
use crate::health::SubsystemId;
use crate::ids::{AgentId, InstrumentId, OrderId, SequenceId, VenueId, VenueOrderId};
use crate::time::Timestamp;
use vstd::prelude::*;

verus! {

/// An event wrapped with sequencing metadata.
///
/// Every event emitted by the engine is wrapped in this envelope.
/// The `sequence_id` provides total ordering across all events.
/// The `timestamp` comes from `Clock::now()` — never wall time directly.
#[derive(Debug, Clone)]
pub struct SequencedEvent<T> {
    /// Monotonic sequence number (assigned by the sequencer).
    pub sequence_id: SequenceId,
    /// Timestamp from the engine's clock (deterministic in backtest/replay).
    pub timestamp: Timestamp,
    /// The event payload.
    pub event: T,
}

/// All events the engine can produce.
///
/// Each variant carries only identifier references and `Decimal` values.
/// Full objects (orders, positions) are looked up from state by ID.
#[derive(Debug, Clone)]
pub enum EngineEvent {
    OrderReceived {
        order_id: OrderId,
        agent_id: AgentId,
        instrument_id: InstrumentId,
        venue_id: VenueId,
    },
    OrderValidated { order_id: OrderId },
    OrderRiskChecked { order_id: OrderId, outcome: RiskOutcomeKind },
    OrderRouted { order_id: OrderId, venue_id: VenueId },
    OrderSubmitted { order_id: OrderId, venue_order_id: VenueOrderId },
    OrderFilled { order_id: OrderId, filled_qty: Decimal, price: Decimal, fee: Decimal },
    OrderPartiallyFilled {
        order_id: OrderId,
        filled_qty: Decimal,
        remaining_qty: Decimal,
        price: Decimal,
        fee: Decimal,
    },
    OrderCancelled { order_id: OrderId, reason: String },
    OrderRejected { order_id: OrderId, stage: String, reason: String },
    OrderAmended { order_id: OrderId, new_price: Option<Decimal>, new_qty: Option<Decimal> },
    RiskBreached { agent_id: AgentId, check_name: String, detail: String },
    CircuitBreakerTripped { breaker_id: String, reason: String },
    CircuitBreakerReset { breaker_id: String },
    PositionCorrected {
        instrument_id: InstrumentId,
        venue_id: VenueId,
        old_qty: Decimal,
        new_qty: Decimal,
    },
    ReconciliationCompleted { venue_id: VenueId, divergences_found: u32 },
    AgentPaused { agent_id: AgentId, reason: String },
    AgentResumed { agent_id: AgentId },
    EngineStarted { mode: String },
    EngineHalted { reason: String },
    SnapshotCreated { at_sequence: SequenceId },
    VenueConnected { venue_id: VenueId },
    VenueDisconnected { venue_id: VenueId, reason: String },
    SubsystemDegraded { subsystem: SubsystemId, reason: String },
    SubsystemRecovered { subsystem: SubsystemId },
}

/// Discriminant for risk check outcome (without full violation details).
/// Full details live in the order record; the event just logs the outcome kind.
#[derive(Debug, Clone, Copy, PartialEq, Eq, Structural)]
pub enum RiskOutcomeKind {
    Approved,
    Resized,
    Rejected,
}

} // verus!
