//! Reconciliation types — detect and report divergence between engine and venue state.
//!
//! The reconciliation loop periodically queries each venue for positions, orders,
//! and balances, then compares against the engine's internal state. Divergences
//! are reported to the sequencer for correction.

use crate::decimal::{num, Decimal};
use crate::ids::{AccountId, InstrumentId, OrderId, VenueId, VenueOrderId};
use crate::time::{Duration, Timestamp, NANOS_PER_SECOND};
use vstd::prelude::*;

verus! {

/// Full report from a single reconciliation cycle for one venue.
#[derive(Debug, Clone)]
pub struct ReconciliationReport {
    pub venue_id: VenueId,
    pub account_id: AccountId,
    pub started_at: Timestamp,
    pub completed_at: Timestamp,
    pub position_divergences: Vec<PositionDivergence>,
    pub order_divergences: Vec<OrderDivergence>,
    pub balance_divergence: Option<BalanceDivergence>,
}

/// The number of divergences in a report.
pub open spec fn divergences(report: ReconciliationReport) -> int {
    report.position_divergences@.len() + report.order_divergences@.len() + (
    if report.balance_divergence is Some {
        1int
    } else {
        0int
    })
}

impl ReconciliationReport {
    /// True if no divergences were found.
    pub fn is_clean(&self) -> (r: bool)
        ensures
            r == (divergences(*self) == 0),
    {
        self.position_divergences.len() == 0 && self.order_divergences.len() == 0
            && self.balance_divergence.is_none()
    }

    /// Total number of divergences.
    pub fn divergence_count(&self) -> (r: usize)
        requires
            divergences(*self) <= usize::MAX,
        ensures
            r == divergences(*self),
    {
        self.position_divergences.len() + self.order_divergences.len() + (
        if self.balance_divergence.is_some() {
            1
        } else {
            0
        })
    }
}

/// Position quantity mismatch between engine and venue.
#[derive(Debug, Clone)]
pub struct PositionDivergence {
    pub instrument: InstrumentId,
    /// What the engine thinks the position is.
    pub engine_qty: Decimal,
    /// What the venue reports the position is.
    pub venue_qty: Decimal,
    /// Absolute difference.
    pub delta: Decimal,
    /// Recommended action.
    pub action: ReconciliationAction,
}

/// Order state mismatch between engine and venue.
#[derive(Debug, Clone)]
pub enum OrderDivergence {
    /// Order exists in engine but not on venue (ghost order).
    MissingOnVenue { order_id: OrderId, engine_state: String },
    /// Order exists on venue but not in engine (orphan order).
    OrphanOnVenue { venue_order_id: VenueOrderId, venue_state: String },
    /// Order exists on both but states disagree.
    StateMismatch {
        order_id: OrderId,
        venue_order_id: VenueOrderId,
        engine_state: String,
        venue_state: String,
    },
}

/// Balance mismatch between engine tracking and venue-reported balance.
#[derive(Debug, Clone, Copy)]
pub struct BalanceDivergence {
    /// Engine's tracked available balance.
    pub engine_balance: Decimal,
    /// Venue-reported available balance.
    pub venue_balance: Decimal,
    pub delta: Decimal,
}

/// What to do about a divergence.
#[derive(Debug, Clone, Copy, PartialEq, Eq, Structural)]
pub enum ReconciliationAction {
    /// Accept venue's value as truth and correct engine state.
    AcceptVenue,
    /// Log and alert, but don't auto-correct (needs human review).
    AlertOnly,
    /// Cancel the orphan order on the venue.
    CancelOrphan,
}

/// Configuration for the reconciliation loop.
#[derive(Debug, Clone, Copy)]
pub struct ReconciliationConfig {
    /// How often to run reconciliation (per venue).
    pub interval: Duration,
    /// Run immediately on reconnect after stale/disconnect.
    pub on_reconnect: bool,
    /// Maximum position divergence before alerting (in base units).
    /// Divergences smaller than this are auto-corrected silently.
    pub auto_correct_threshold: Decimal,
    /// Divergences larger than this trigger a halt.
    pub halt_threshold: Decimal,
}

impl Default for ReconciliationConfig {
    fn default() -> (r: ReconciliationConfig)
        ensures
            r.interval@ == 60 * NANOS_PER_SECOND,
            r.on_reconnect,
            r.auto_correct_threshold@ == num(1, 4),
            r.halt_threshold@ == num(10, 0),
    {
        ReconciliationConfig {
            interval: Duration::from_secs(60),
            on_reconnect: true,
            auto_correct_threshold: Decimal::new(1, 4),
            halt_threshold: Decimal::new(10, 0),
        }
    }
}

} // verus!
