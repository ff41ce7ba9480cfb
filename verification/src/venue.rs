//! Venue connection health, heartbeat tracking, and timeout policies.
//!
//! Every venue connection has a health model. The engine knows when it's
//! flying blind (no heartbeat) and can act accordingly (pause new orders,
//! trigger reconciliation, alert).

use crate::ids::VenueId;
use crate::text::{digits, digits_text, joined3, joined5};
use crate::time::{utc_debug_text, Duration, Timestamp, NANOS_PER_SECOND};
use vstd::prelude::*;

verus! {

/// Current state of a venue connection.
#[derive(Debug, Clone, Copy, PartialEq, Eq)]
pub enum ConnectionState {
    /// Not yet connected (initial state or after explicit disconnect).
    Disconnected,
    /// Connection attempt in progress.
    Connecting,
    /// Connected and receiving heartbeats.
    Connected,
    /// Connected but heartbeat is late (between warning and stale thresholds).
    HeartbeatLate { last_heartbeat: Timestamp, missed_count: u32 },
    /// No heartbeat for longer than stale threshold. Assume connection is dead.
    /// Engine should pause new orders and trigger reconciliation when reconnected.
    Stale { last_heartbeat: Timestamp, stale_since: Timestamp },
    /// Reconnecting after disconnect or stale detection.
    Reconnecting { attempt: u32 },
}

/// The debugging text of a connection state.
pub open spec fn connection_state_text(s: ConnectionState) -> Seq<char> {
    match s {
        ConnectionState::Disconnected => "Disconnected"@,
        ConnectionState::Connecting => "Connecting"@,
        ConnectionState::Connected => "Connected"@,
        ConnectionState::HeartbeatLate { last_heartbeat, missed_count } =>
            "HeartbeatLate { last_heartbeat: "@ + utc_debug_text(last_heartbeat@)
                + ", missed_count: "@ + digits(missed_count as nat) + " }"@,
        ConnectionState::Stale { last_heartbeat, stale_since } => "Stale { last_heartbeat: "@
            + utc_debug_text(last_heartbeat@) + ", stale_since: "@ + utc_debug_text(stale_since@)
            + " }"@,
        ConnectionState::Reconnecting { attempt } => "Reconnecting { attempt: "@ + digits(
            attempt as nat,
        ) + " }"@,
    }
}

impl ConnectionState {
    /// The state as debugging text.
    pub fn debug_text(&self) -> (r: String)
        ensures
            r@ == connection_state_text(*self),
    {
        match self {
            ConnectionState::Disconnected => "Disconnected".to_owned(),
            ConnectionState::Connecting => "Connecting".to_owned(),
            ConnectionState::Connected => "Connected".to_owned(),
            ConnectionState::HeartbeatLate { last_heartbeat, missed_count } => joined5(
                "HeartbeatLate { last_heartbeat: ",
                last_heartbeat.debug_text().as_str(),
                ", missed_count: ",
                digits_text(*missed_count as u128).as_str(),
                " }",
            ),
            ConnectionState::Stale { last_heartbeat, stale_since } => joined5(
                "Stale { last_heartbeat: ",
                last_heartbeat.debug_text().as_str(),
                ", stale_since: ",
                stale_since.debug_text().as_str(),
                " }",
            ),
            ConnectionState::Reconnecting { attempt } => joined3(
                "Reconnecting { attempt: ",
                digits_text(*attempt as u128).as_str(),
                " }",
            ),
        }
    }
}

/// Full health status for a venue connection.
#[derive(Debug)]
pub struct VenueConnectionHealth {
    pub venue_id: VenueId,
    pub state: ConnectionState,
    /// Last time we received any message from the venue (heartbeat, fill, etc).
    pub last_message_at: Option<Timestamp>,
    /// Last explicit heartbeat/pong received.
    pub last_heartbeat_at: Option<Timestamp>,
    /// Round-trip latency of last heartbeat (ping→pong).
    pub heartbeat_latency_ms: Option<u32>,
    /// Number of successful reconnections since engine start.
    pub reconnect_count: u32,
    /// Time of last successful connection.
    pub connected_since: Option<Timestamp>,
}

impl Clone for VenueConnectionHealth {
    fn clone(&self) -> (r: VenueConnectionHealth)
        ensures
            r == *self,
    {
        VenueConnectionHealth {
            venue_id: self.venue_id.clone(),
            state: self.state,
            last_message_at: self.last_message_at,
            last_heartbeat_at: self.last_heartbeat_at,
            heartbeat_latency_ms: self.heartbeat_latency_ms,
            reconnect_count: self.reconnect_count,
            connected_since: self.connected_since,
        }
    }
}

impl VenueConnectionHealth {
    /// Create initial health state for a venue (not yet connected).
    pub fn new(venue_id: VenueId) -> (r: VenueConnectionHealth)
        ensures
            r == (VenueConnectionHealth {
                venue_id,
                state: ConnectionState::Disconnected,
                last_message_at: None,
                last_heartbeat_at: None,
                heartbeat_latency_ms: None,
                reconnect_count: 0,
                connected_since: None,
            }),
    {
        VenueConnectionHealth {
            venue_id,
            state: ConnectionState::Disconnected,
            last_message_at: None,
            last_heartbeat_at: None,
            heartbeat_latency_ms: None,
            reconnect_count: 0,
            connected_since: None,
        }
    }

    /// Whether the connection takes orders: it is up.
    pub open spec fn submittable(&self) -> bool {
        self.state is Connected
    }

    /// Whether the connection is up only in part: its heartbeat is late or has gone stale,
    /// or it is being made again.
    pub open spec fn degraded(&self) -> bool {
        self.state is HeartbeatLate || self.state is Stale || self.state is Reconnecting
    }

    /// Check if the venue is in a state where order submission is safe.
    pub fn is_submittable(&self) -> (r: bool)
        ensures
            r == self.submittable(),
    {
        matches!(self.state, ConnectionState::Connected)
    }

    /// Check if the connection is degraded (late heartbeat or reconnecting).
    pub fn is_degraded(&self) -> (r: bool)
        ensures
            r == self.degraded(),
    {
        match &self.state {
            ConnectionState::HeartbeatLate { .. } => true,
            ConnectionState::Stale { .. } => true,
            ConnectionState::Reconnecting { .. } => true,
            _ => false,
        }
    }
}

/// A degraded connection takes no orders.
pub proof fn law_degraded_is_not_submittable(health: VenueConnectionHealth)
    requires
        health.degraded(),
    ensures
        !health.submittable(),
{
}

/// Heartbeat thresholds for a venue connection.
#[derive(Debug, Clone, Copy)]
pub struct HeartbeatConfig {
    /// How often to send heartbeat pings.
    pub interval: Duration,
    /// After this many missed heartbeats, mark as `HeartbeatLate`.
    pub warning_threshold: u32,
    /// After this duration without heartbeat, mark as `Stale`.
    pub stale_threshold: Duration,
    /// Maximum reconnection attempts before giving up.
    pub max_reconnect_attempts: u32,
    /// Delay between reconnection attempts (with exponential backoff).
    pub reconnect_base_delay: Duration,
}

impl Default for HeartbeatConfig {
    fn default() -> (r: HeartbeatConfig)
        ensures
            r.interval@ == 5 * NANOS_PER_SECOND,
            r.warning_threshold == 2,
            r.stale_threshold@ == 30 * NANOS_PER_SECOND,
            r.max_reconnect_attempts == 10,
            r.reconnect_base_delay@ == 1 * NANOS_PER_SECOND,
    {
        HeartbeatConfig {
            interval: Duration::from_secs(5),
            warning_threshold: 2,
            stale_threshold: Duration::from_secs(30),
            max_reconnect_attempts: 10,
            reconnect_base_delay: Duration::from_secs(1),
        }
    }
}

/// Timeout budgets for venue operations. Every async venue call has a deadline.
///
/// If an operation exceeds its timeout, the engine:
/// 1. Assumes the operation may or may not have succeeded
/// 2. Triggers reconciliation for that venue
/// 3. Does NOT retry blindly (would cause duplicates)
#[derive(Debug, Clone, Copy)]
pub struct TimeoutPolicy {
    /// Max time to wait for order submission acknowledgment.
    pub submit_order: Duration,
    /// Max time to wait for cancel acknowledgment.
    pub cancel_order: Duration,
    /// Max time to wait for amend acknowledgment.
    pub amend_order: Duration,
    /// Max time to wait for position query response.
    pub query_positions: Duration,
    /// Max time to wait for balance query response.
    pub query_balance: Duration,
    /// Max time to wait for open orders query.
    pub query_orders: Duration,
    /// If no fill arrives within this duration after submission,
    /// trigger a status check (not a cancel — order may have filled).
    pub fill_watchdog: Duration,
}

impl Default for TimeoutPolicy {
    fn default() -> (r: TimeoutPolicy)
        ensures
            r.submit_order@ == 10 * NANOS_PER_SECOND,
            r.cancel_order@ == 10 * NANOS_PER_SECOND,
            r.amend_order@ == 10 * NANOS_PER_SECOND,
            r.query_positions@ == 15 * NANOS_PER_SECOND,
            r.query_balance@ == 15 * NANOS_PER_SECOND,
            r.query_orders@ == 15 * NANOS_PER_SECOND,
            r.fill_watchdog@ == 60 * NANOS_PER_SECOND,
    {
        TimeoutPolicy {
            submit_order: Duration::from_secs(10),
            cancel_order: Duration::from_secs(10),
            amend_order: Duration::from_secs(10),
            query_positions: Duration::from_secs(15),
            query_balance: Duration::from_secs(15),
            query_orders: Duration::from_secs(15),
            fill_watchdog: Duration::from_secs(60),
        }
    }
}

/// What to do when an operation times out.
#[derive(Debug, Clone, Copy, PartialEq, Eq, Structural)]
pub enum TimeoutAction {
    /// Trigger reconciliation for this venue, then decide.
    Reconcile,
    /// Log and alert, but take no automatic action.
    AlertOnly,
    /// Attempt to cancel the order (if submission timed out).
    CancelAndReconcile,
}

} // verus!
