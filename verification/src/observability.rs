//! Observability — metrics, dashboard updates and trace spans.
//!
//! All financial values are decimals. A backend that needs floating-point numbers converts
//! at its own boundary.

use crate::decimal::Decimal;
use crate::health::{EngineHealth, SubsystemHealth, SubsystemId};
use crate::ids::{AgentId, OrderId, VenueId};
use crate::time::Timestamp;
use crate::venue::ConnectionState;
use vstd::prelude::*;

verus! {

// ─── Metrics Collector ───

/// Records metrics for monitoring and alerting.
pub trait MetricsCollector {
    /// Record order submission.
    fn record_order_submitted(&self, venue: &VenueId, agent: &AgentId);

    /// Record order fill.
    fn record_order_filled(&self, venue: &VenueId, agent: &AgentId, slippage_bps: Decimal);

    /// Record order rejection.
    fn record_order_rejected(&self, venue: &VenueId, agent: &AgentId, reason: &str);

    /// Record latency from submission to fill (milliseconds).
    fn record_fill_latency(&self, venue: &VenueId, latency_ms: u64);

    /// Record time spent in risk gate evaluation (microseconds).
    fn record_risk_check_latency(&self, latency_us: u64);

    /// Set gauge: current position quantity.
    fn set_position(&self, venue: &VenueId, instrument: &str, agent: &AgentId, qty: Decimal);

    /// Set gauge: agent P&L.
    fn set_pnl(&self, agent: &AgentId, pnl_type: PnlType, value: Decimal);

    /// Set gauge: firm net asset value.
    fn set_nav(&self, value: Decimal);

    /// Record reconciliation divergence detected.
    fn record_reconciliation_divergence(&self, venue: &VenueId, instrument: &str);

    /// Set venue connection status.
    fn set_venue_connection(&self, venue: &VenueId, state: &ConnectionState);

    /// Record message bus activity.
    fn record_bus_message(&self, topic: &str, direction: BusDirection);

    /// Set gauge: pending messages in bus topic/group.
    fn set_bus_pending(&self, topic: &str, group: &str, count: u64);

    /// Record circuit breaker trip.
    fn record_circuit_breaker_trip(&self, breaker: &str);

    /// Record subsystem health change.
    fn record_subsystem_health(&self, subsystem: SubsystemId, health: &SubsystemHealth);

    /// Record mark-to-market update.
    fn record_mtm_update(&self, instrument: &str, unrealized_pnl: Decimal);
}

/// P&L metric type.
#[derive(Debug, Clone, Copy, PartialEq, Eq, Structural)]
pub enum PnlType {
    Realized,
    Unrealized,
    Daily,
}

/// Bus message direction.
#[derive(Debug, Clone, Copy, PartialEq, Eq, Structural)]
pub enum BusDirection {
    Published,
    Received,
}

// ─── Dashboard ───

/// Dashboard update event.
#[derive(Debug, Clone)]
pub enum DashboardUpdate {
    FirmBookChanged(FirmBookSummary),
    PositionChanged(InstrumentExposureSummary),
    OrderEvent(DashboardEvent),
    VenueStatusChanged(VenueStatus),
    RiskAlert(RiskAlert),
    AgentStatusChanged { agent: AgentId, status: AgentStatusUpdate },
    HealthChanged(EngineHealth),
}

/// Firm-level summary for dashboard.
#[derive(Debug, Clone, Copy)]
pub struct FirmBookSummary {
    pub nav: Decimal,
    pub realized_pnl: Decimal,
    pub unrealized_pnl: Decimal,
    pub gross_notional: Decimal,
    pub net_notional: Decimal,
    pub daily_pnl: Decimal,
    pub current_drawdown_pct: Decimal,
}

/// Instrument exposure summary for dashboard.
#[derive(Debug, Clone)]
pub struct InstrumentExposureSummary {
    pub instrument: String,
    pub net_qty: Decimal,
    pub notional: Decimal,
    pub unrealized_pnl: Decimal,
}

/// Dashboard audit event.
#[derive(Debug, Clone)]
pub struct DashboardEvent {
    pub event_type: String,
    pub message: String,
    pub timestamp: Timestamp,
    pub order_id: Option<OrderId>,
    pub agent: Option<AgentId>,
}

/// Venue connection and latency status for dashboard.
#[derive(Debug, Clone)]
pub struct VenueStatus {
    pub venue: VenueId,
    pub state: ConnectionState,
    pub heartbeat_latency_ms: Option<u32>,
    pub open_orders: u32,
    pub balance_usd: Option<Decimal>,
    pub last_heartbeat: Option<Timestamp>,
}

/// Risk alert for dashboard.
#[derive(Debug, Clone)]
pub struct RiskAlert {
    pub limit_name: String,
    pub severity: RiskSeverity,
    pub message: String,
    pub agent: Option<AgentId>,
}

/// Risk severity level.
#[derive(Debug, Clone, Copy, PartialEq, Eq, PartialOrd, Ord, Structural)]
pub enum RiskSeverity {
    Warning,
    Critical,
    Emergency,
}

/// Agent status update for dashboard.
#[derive(Debug, Clone)]
pub struct AgentStatusUpdate {
    pub is_active: bool,
    pub reason: Option<String>,
}

// ─── Tracing ───

/// Span context for tracing.
#[derive(Debug, Clone)]
pub struct SpanContext {
    pub trace_id: String,
    pub span_id: String,
    pub parent_span_id: Option<String>,
}

/// Helper trait for span recording.
pub trait TraceRecorder {
    fn record_span(&self, name: &str, context: &SpanContext, duration_us: u64);

    fn record_attribute(&self, key: &str, value: &str);

    fn record_event(&self, event: &str);
}

} // verus!
