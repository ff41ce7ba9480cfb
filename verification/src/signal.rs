//! Signal types — market signals from strategy agents.

use crate::decimal::Decimal;
use crate::ids::{AgentId, BasketId, InstrumentId, SignalId};
use crate::time::Timestamp;
use vstd::prelude::*;

verus! {

/// Market signal from an LLM trader agent.
#[derive(Debug)]
pub struct Signal {
    pub id: SignalId,
    /// Groups related legs when a signal expands into a multi-leg structure.
    pub basket_id: Option<BasketId>,
    pub agent: AgentId,
    pub instrument: InstrumentId,
    pub direction: Side,
    /// Conviction strength: 0.0 (no conviction) to 1.0 (maximum).
    pub conviction: Decimal,
    /// Optional notional target (engine sizes if absent).
    pub sizing_hint: Option<Decimal>,
    /// Arbitrage type classification.
    pub arb_type: String,
    /// Required for signal submission — signals without a stop loss are rejected.
    pub stop_loss: Decimal,
    pub take_profit: Option<Decimal>,
    pub thesis: String,
    pub urgency: Urgency,
    /// Free-form metadata, as JSON text.
    pub metadata: String,
    pub created_at: Timestamp,
}

impl Clone for Signal {
    fn clone(&self) -> (r: Signal)
        ensures
            r == *self,
    {
        Signal {
            id: self.id.clone(),
            basket_id: match &self.basket_id {
                Some(b) => Some(b.clone()),
                None => None,
            },
            agent: self.agent.clone(),
            instrument: self.instrument.clone(),
            direction: self.direction,
            conviction: self.conviction,
            sizing_hint: self.sizing_hint,
            arb_type: self.arb_type.clone(),
            stop_loss: self.stop_loss,
            take_profit: self.take_profit,
            thesis: self.thesis.clone(),
            urgency: self.urgency,
            metadata: self.metadata.clone(),
            created_at: self.created_at,
        }
    }
}

/// The side of a trade.
#[derive(Debug, Clone, Copy, PartialEq, Eq, Structural)]
pub enum Side {
    Buy,
    Sell,
}

/// How soon a signal wants to be acted upon, from least to most.
#[derive(Debug, Clone, Copy, PartialEq, Eq, PartialOrd, Ord, Structural)]
pub enum Urgency {
    Low,
    Normal,
    High,
    Immediate,
}

} // verus!
