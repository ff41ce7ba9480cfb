//! Graceful degradation model — subsystem health tracking and degradation policies.
//!
//! The engine is composed of subsystems (venue connections, bus, price feed, journal).
//! Each subsystem can independently fail. The engine continues operating in a
//! degraded mode when non-critical subsystems fail, rather than halting entirely.

use crate::time::Timestamp;
use vstd::prelude::*;

verus! {

/// Identifies a subsystem within the engine.
#[derive(Debug, Clone, Copy, PartialEq, Eq, Hash, Structural)]
pub enum SubsystemId {
    /// Venue WebSocket/REST connection.
    VenueConnection,
    /// Message bus (Redis Streams).
    MessageBus,
    /// Event journal (persistence).
    EventJournal,
    /// Price feed (market data cache).
    PriceFeed,
    /// Dashboard/observability.
    Dashboard,
    /// Reconciliation loop.
    Reconciler,
}

/// Health status of a single subsystem.
#[derive(Debug, Clone, PartialEq, Eq)]
pub enum SubsystemHealth {
    /// Operating normally.
    Healthy,
    /// Degraded — operating with reduced capability.
    /// Orders may still flow but with restrictions.
    Degraded { reason: String, since: Timestamp },
    /// Failed — subsystem is non-functional.
    /// Engine behavior depends on `DegradationPolicy`.
    Failed { reason: String, since: Timestamp },
}

impl SubsystemHealth {
    /// Whether the subsystem operates normally.
    pub fn is_healthy(&self) -> (r: bool)
        ensures
            r == (self is Healthy),
    {
        matches!(self, SubsystemHealth::Healthy)
    }

    /// Whether the subsystem is non-functional.
    pub fn is_failed(&self) -> (r: bool)
        ensures
            r == (self is Failed),
    {
        matches!(self, SubsystemHealth::Failed { .. })
    }
}

/// What the engine does when a subsystem fails.
///
/// Each subsystem has a configured policy. Critical subsystems halt trading;
/// non-critical subsystems degrade gracefully.
#[derive(Debug, Clone, Copy, PartialEq, Eq, Structural)]
pub enum DegradationPolicy {
    /// Halt all trading (venue connections, risk gate).
    /// Used for critical subsystems where operating blind is dangerous.
    HaltTrading,
    /// Pause new orders but continue processing fills and cancels.
    /// Used for price feed (can't size new orders without prices).
    PauseNewOrders,
    /// Continue trading but buffer operations for later replay.
    /// Used for bus and journal (data can be replayed on recovery).
    BufferAndContinue,
    /// Continue trading, log the failure, alert operator.
    /// Used for dashboard and non-critical observability.
    LogAndContinue,
}

/// The degradation policy of each subsystem.
pub open spec fn policy_of(id: SubsystemId) -> DegradationPolicy {
    match id {
        SubsystemId::VenueConnection => DegradationPolicy::HaltTrading,
        SubsystemId::MessageBus => DegradationPolicy::BufferAndContinue,
        SubsystemId::EventJournal => DegradationPolicy::BufferAndContinue,
        SubsystemId::PriceFeed => DegradationPolicy::PauseNewOrders,
        SubsystemId::Dashboard => DegradationPolicy::LogAndContinue,
        SubsystemId::Reconciler => DegradationPolicy::LogAndContinue,
    }
}

impl SubsystemId {
    /// The degradation policy for this subsystem when it fails.
    pub fn default_policy(self) -> (r: DegradationPolicy)
        ensures
            r == policy_of(self),
    {
        match self {
            // Critical: can't trade without venue connection
            SubsystemId::VenueConnection => DegradationPolicy::HaltTrading,
            // Can buffer messages, replay on recovery
            SubsystemId::MessageBus => DegradationPolicy::BufferAndContinue,
            // Critical for state recovery, but can buffer events in memory
            SubsystemId::EventJournal => DegradationPolicy::BufferAndContinue,
            // Can't size new orders without prices
            SubsystemId::PriceFeed => DegradationPolicy::PauseNewOrders,
            // Non-critical: operator loses visibility but trading continues
            SubsystemId::Dashboard => DegradationPolicy::LogAndContinue,
            // Non-critical for short periods, but drift accumulates
            SubsystemId::Reconciler => DegradationPolicy::LogAndContinue,
        }
    }
}

/// Aggregate health of the entire engine.
#[derive(Debug, Clone)]
pub struct EngineHealth {
    /// Per-subsystem health status.
    pub subsystems: Vec<(SubsystemId, SubsystemHealth)>,
    /// Overall engine status (derived from subsystem health + policies).
    pub overall: OverallHealth,
    /// Last time health was evaluated.
    pub evaluated_at: Timestamp,
}

/// Derived overall engine status.
#[derive(Debug, Clone, Copy, PartialEq, Eq, Structural)]
pub enum OverallHealth {
    /// All subsystems healthy. Normal operation.
    Healthy,
    /// Some non-critical subsystems degraded. Trading continues with restrictions.
    Degraded,
    /// A critical subsystem failed. Trading is paused or halted.
    Halted,
}

/// Whether every subsystem is healthy.
pub open spec fn all_healthy(subsystems: Seq<(SubsystemId, SubsystemHealth)>) -> bool {
    forall|i: int| 0 <= i < subsystems.len() ==> (#[trigger] subsystems[i]).1 is Healthy
}

/// Whether a subsystem has failed that trading cannot go on without.
pub open spec fn critical_failure(subsystems: Seq<(SubsystemId, SubsystemHealth)>) -> bool {
    exists|i: int|
        0 <= i < subsystems.len() && (#[trigger] subsystems[i]).1 is Failed && policy_of(
            subsystems[i].0,
        ) is HaltTrading
}

/// The overall status: healthy where all is healthy, halted on a critical failure,
/// degraded otherwise.
pub open spec fn overall_of(subsystems: Seq<(SubsystemId, SubsystemHealth)>) -> OverallHealth {
    if all_healthy(subsystems) {
        OverallHealth::Healthy
    } else if critical_failure(subsystems) {
        OverallHealth::Halted
    } else {
        OverallHealth::Degraded
    }
}

impl EngineHealth {
    /// Compute overall health from subsystem states and their policies.
    pub fn evaluate(subsystems: Vec<(SubsystemId, SubsystemHealth)>, now: Timestamp) -> (r:
        EngineHealth)
        ensures
            r.subsystems == subsystems,
            r.overall == overall_of(subsystems@),
            r.evaluated_at == now,
    {
        let mut healthy = true;
        let mut halted = false;
        let mut i: usize = 0;
        while i < subsystems.len()
            invariant
                i <= subsystems.len(),
                healthy == all_healthy(subsystems@.take(i as int)),
                halted == critical_failure(subsystems@.take(i as int)),
            decreases subsystems.len() - i,
        {
            let ghost before = subsystems@.take(i as int);
            let ghost after = subsystems@.take(i + 1);
            let is_healthy = subsystems[i].1.is_healthy();
            let is_critical = subsystems[i].1.is_failed() && subsystems[i].0.default_policy()
                == DegradationPolicy::HaltTrading;
            proof {
                assert(after[i as int] == subsystems@[i as int]);
                assert forall|j: int| 0 <= j < i implies before[j] == after[j] by {}
                if all_healthy(after) {
                    assert forall|j: int| 0 <= j < before.len() implies (
                    #[trigger] before[j]).1 is Healthy by {
                        assert(after[j].1 is Healthy);
                    }
                }
                if critical_failure(after) {
                    let j = choose|j: int|
                        0 <= j < after.len() && (#[trigger] after[j]).1 is Failed && policy_of(
                            after[j].0,
                        ) is HaltTrading;
                    if j < i {
                        assert(before[j] == after[j]);
                    }
                }
                if critical_failure(before) {
                    let j = choose|j: int|
                        0 <= j < before.len() && (#[trigger] before[j]).1 is Failed && policy_of(
                            before[j].0,
                        ) is HaltTrading;
                    assert(before[j] == after[j]);
                }
            }
            healthy = healthy && is_healthy;
            halted = halted || is_critical;
            i = i + 1;
        }
        assert(subsystems@.take(i as int) =~= subsystems@);
        let overall = if healthy {
            OverallHealth::Healthy
        } else if halted {
            OverallHealth::Halted
        } else {
            OverallHealth::Degraded
        };
        EngineHealth { subsystems, overall, evaluated_at: now }
    }
}

/// Only the loss of the venue connection halts trading; the failure of any other
/// subsystem merely degrades it.
pub proof fn law_only_venue_failure_halts(subsystems: Seq<(SubsystemId, SubsystemHealth)>)
    ensures
        overall_of(subsystems) is Halted <==> exists|i: int|
            0 <= i < subsystems.len() && (#[trigger] subsystems[i]).1 is Failed
                && subsystems[i].0 is VenueConnection,
{
    if exists|i: int|
        0 <= i < subsystems.len() && (#[trigger] subsystems[i]).1 is Failed
            && subsystems[i].0 is VenueConnection {
        let i = choose|i: int|
            0 <= i < subsystems.len() && (#[trigger] subsystems[i]).1 is Failed
                && subsystems[i].0 is VenueConnection;
        assert(!(subsystems[i].1 is Healthy));
        assert(policy_of(subsystems[i].0) is HaltTrading);
    }
}

} // verus!
