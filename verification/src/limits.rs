//! Risk limit types — per-agent, per-instrument, per-venue, and firm-level.

use crate::decimal::Decimal;
use crate::ids::{InstrumentId, VenueId};
use crate::table::Table;
use vstd::prelude::*;

verus! {

/// Risk limits enforced at agent level.
#[derive(Debug)]
pub struct AgentRiskLimits {
    pub allocated_capital: Decimal,
    pub max_position_notional: Decimal,
    pub max_gross_notional: Decimal,
    pub max_drawdown_pct: Decimal,
    pub max_daily_loss: Decimal,
    pub max_open_orders: u32,
    pub allowed_instruments: Option<Vec<InstrumentId>>,
    pub allowed_venues: Option<Vec<VenueId>>,
}

/// Whether two optional lists of instruments hold the same.
pub open spec fn same_instruments(a: Option<Vec<InstrumentId>>, b: Option<Vec<InstrumentId>>) -> bool {
    match (a, b) {
        (Some(x), Some(y)) => x@ == y@,
        (None, None) => true,
        _ => false,
    }
}

/// Whether two optional lists of venues hold the same.
pub open spec fn same_venues(a: Option<Vec<VenueId>>, b: Option<Vec<VenueId>>) -> bool {
    match (a, b) {
        (Some(x), Some(y)) => x@ == y@,
        (None, None) => true,
        _ => false,
    }
}

/// Whether two agent limits are the same.
pub open spec fn same_agent_limits(a: AgentRiskLimits, b: AgentRiskLimits) -> bool {
    &&& a.allocated_capital == b.allocated_capital
    &&& a.max_position_notional == b.max_position_notional
    &&& a.max_gross_notional == b.max_gross_notional
    &&& a.max_drawdown_pct == b.max_drawdown_pct
    &&& a.max_daily_loss == b.max_daily_loss
    &&& a.max_open_orders == b.max_open_orders
    &&& same_instruments(a.allowed_instruments, b.allowed_instruments)
    &&& same_venues(a.allowed_venues, b.allowed_venues)
}

impl Clone for AgentRiskLimits {
    fn clone(&self) -> (r: AgentRiskLimits)
        ensures
            same_agent_limits(*self, r),
    {
        let allowed_instruments = match &self.allowed_instruments {
            Some(list) => {
                let copy = list.clone();
                assert(copy@ =~= list@);
                Some(copy)
            },
            None => None,
        };
        let allowed_venues = match &self.allowed_venues {
            Some(list) => {
                let copy = list.clone();
                assert(copy@ =~= list@);
                Some(copy)
            },
            None => None,
        };
        AgentRiskLimits {
            allocated_capital: self.allocated_capital,
            max_position_notional: self.max_position_notional,
            max_gross_notional: self.max_gross_notional,
            max_drawdown_pct: self.max_drawdown_pct,
            max_daily_loss: self.max_daily_loss,
            max_open_orders: self.max_open_orders,
            allowed_instruments,
            allowed_venues,
        }
    }
}

/// Per-instrument concentration, leverage and net directional limits.
#[derive(Debug)]
pub struct InstrumentRiskLimits {
    pub instrument: InstrumentId,
    pub max_net_qty: Decimal,
    pub max_gross_qty: Decimal,
    pub max_concentration_pct: Decimal,
    pub max_leverage: Decimal,
}

impl Clone for InstrumentRiskLimits {
    fn clone(&self) -> (r: InstrumentRiskLimits)
        ensures
            r == *self,
    {
        InstrumentRiskLimits {
            instrument: self.instrument.clone(),
            max_net_qty: self.max_net_qty,
            max_gross_qty: self.max_gross_qty,
            max_concentration_pct: self.max_concentration_pct,
            max_leverage: self.max_leverage,
        }
    }
}

/// Per-venue counterparty risk.
#[derive(Debug)]
pub struct VenueRiskLimits {
    pub venue: VenueId,
    pub max_notional: Decimal,
    pub max_positions: u32,
    /// Max percentage of firm NAV on this venue (concentration risk).
    pub max_pct_of_nav: Decimal,
}

impl Clone for VenueRiskLimits {
    fn clone(&self) -> (r: VenueRiskLimits)
        ensures
            r == *self,
    {
        VenueRiskLimits {
            venue: self.venue.clone(),
            max_notional: self.max_notional,
            max_positions: self.max_positions,
            max_pct_of_nav: self.max_pct_of_nav,
        }
    }
}

/// Prediction market exposure caps.
#[derive(Debug, Clone, Copy)]
pub struct PredictionMarketLimits {
    pub max_total_notional: Decimal,
    pub max_per_market_notional: Decimal,
    pub max_pct_of_nav: Decimal,
    pub max_unresolved_markets: u32,
}

/// One limit that an order breaches or approaches.
#[derive(Debug, PartialEq)]
pub struct RiskViolation {
    pub check_name: String,
    pub violation_type: ViolationType,
    pub current_value: String,
    pub limit: String,
    pub suggested_action: String,
}

/// The content of a [`RiskViolation`].
pub struct RiskViolationView {
    pub check_name: Seq<char>,
    pub violation_type: ViolationType,
    pub current_value: Seq<char>,
    pub limit: Seq<char>,
    pub suggested_action: Seq<char>,
}

impl View for RiskViolation {
    type V = RiskViolationView;

    open spec fn view(&self) -> RiskViolationView {
        RiskViolationView {
            check_name: self.check_name@,
            violation_type: self.violation_type,
            current_value: self.current_value@,
            limit: self.limit@,
            suggested_action: self.suggested_action@,
        }
    }
}

impl Clone for RiskViolation {
    fn clone(&self) -> (r: RiskViolation)
        ensures
            r == *self,
    {
        RiskViolation {
            check_name: self.check_name.clone(),
            violation_type: self.violation_type,
            current_value: self.current_value.clone(),
            limit: self.limit.clone(),
            suggested_action: self.suggested_action.clone(),
        }
    }
}

/// The contents of a list of violations.
pub open spec fn violation_views(v: Seq<RiskViolation>) -> Seq<RiskViolationView> {
    v.map_values(|x: RiskViolation| x@)
}

/// How binding a violation is.
#[derive(Debug, Clone, Copy, PartialEq, Eq, Structural)]
pub enum ViolationType {
    /// Order rejected unconditionally.
    Hard,
    /// Warning — approaching limit but order allowed.
    Soft,
}

/// Result of risk evaluation on an order.
#[must_use]
#[derive(Debug, Clone)]
pub enum RiskOutcome {
    /// Order approved, possibly with soft warnings.
    Approved { warnings: Vec<RiskViolation> },
    /// Order resized — original qty was too large.
    Resized { new_qty: Decimal, reason: String, warnings: Vec<RiskViolation> },
    /// Order rejected — hard violation(s).
    Rejected { violations: Vec<RiskViolation> },
}

/// Full risk limits configuration (firm + per-agent + per-instrument + per-venue).
#[derive(Debug)]
pub struct RiskLimits {
    pub firm: FirmRiskLimits,
    pub per_agent: Table<AgentRiskLimits>,
    pub per_instrument: Table<InstrumentRiskLimits>,
    pub per_venue: Table<VenueRiskLimits>,
    pub prediction_market: PredictionMarketLimits,
}

/// Whether two configurations of limits are the same.
pub open spec fn same_risk_limits(a: RiskLimits, b: RiskLimits) -> bool {
    &&& a.firm == b.firm
    &&& a.per_agent@.dom() == b.per_agent@.dom()
    &&& forall|k: Seq<char>| #[trigger]
        b.per_agent@.contains_key(k) ==> same_agent_limits(a.per_agent@[k], b.per_agent@[k])
    &&& a.per_instrument@ == b.per_instrument@
    &&& a.per_venue@ == b.per_venue@
    &&& a.prediction_market == b.prediction_market
}

impl Clone for RiskLimits {
    fn clone(&self) -> (r: RiskLimits)
        ensures
            same_risk_limits(*self, r),
    {
        let r = RiskLimits {
            firm: self.firm,
            per_agent: self.per_agent.clone(),
            per_instrument: self.per_instrument.clone(),
            per_venue: self.per_venue.clone(),
            prediction_market: self.prediction_market,
        };
        assert(r.per_instrument@ =~= self.per_instrument@);
        assert(r.per_venue@ =~= self.per_venue@);
        r
    }
}

/// Firm-wide risk limits.
#[derive(Debug, Clone, Copy)]
pub struct FirmRiskLimits {
    pub max_gross_notional: Decimal,
    pub max_net_notional: Decimal,
    pub max_drawdown_pct: Decimal,
    pub max_daily_loss: Decimal,
    pub max_open_orders: u32,
}

/// Result of a single risk check (pass/fail with message).
#[derive(Debug)]
pub struct RiskCheckResult {
    pub check_name: String,
    pub passed: bool,
    pub message: Option<String>,
}

impl Clone for RiskCheckResult {
    fn clone(&self) -> (r: RiskCheckResult)
        ensures
            r == *self,
    {
        RiskCheckResult {
            check_name: self.check_name.clone(),
            passed: self.passed,
            message: match &self.message {
                Some(m) => Some(m.clone()),
                None => None,
            },
        }
    }
}

} // verus!
