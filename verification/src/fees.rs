//! Fee model — trait and types for fee estimation, calculation, and scheduling.
//!
//! Fees determine whether a trade has edge. The fee model is identical
//! in backtest and live.
//!
//! Fee estimates inform execution strategy selection: if the maker rebate
//! exceeds the urgency cost of waiting, prefer limit orders.

use crate::decimal::Decimal;
use crate::ids::{InstrumentId, VenueId};
use crate::pipeline::{Fill, OrderCore};
use crate::text::{joined, joined4};
use vstd::prelude::*;

verus! {

/// Typed errors for fee operations.
#[derive(Debug)]
pub enum FeeError {
    NoSchedule(VenueId),
    NoInstrumentSchedule(InstrumentId, VenueId),
    Calculation(String),
}

impl FeeError {
    /// The error as text.
    pub fn text(&self) -> (r: String)
        ensures
            r@ == (match *self {
                FeeError::NoSchedule(venue) => "no fee schedule for venue "@ + venue@,
                FeeError::NoInstrumentSchedule(instrument, venue) =>
                    "no fee schedule for instrument "@ + instrument@ + " on venue "@ + venue@,
                FeeError::Calculation(why) => "fee calculation failed: "@ + why@,
            }),
    {
        match self {
            FeeError::NoSchedule(venue) => joined("no fee schedule for venue ", venue.as_str()),
            FeeError::NoInstrumentSchedule(instrument, venue) => joined4(
                "no fee schedule for instrument ",
                instrument.as_str(),
                " on venue ",
                venue.as_str(),
            ),
            FeeError::Calculation(why) => joined("fee calculation failed: ", why.as_str()),
        }
    }
}

/// Fee model for a trading venue.
///
/// Synchronous — called in the sequencer hot path during sizing and risk checks.
pub trait FeeModel {
    /// Estimate fees for a prospective order (before submission).
    ///
    /// Returns both maker and taker estimates so the sizing engine can
    /// decide whether to use limit or market orders.
    fn estimate(&self, order: &OrderCore) -> Result<FeeEstimate, FeeError>;

    /// Calculate actual fees for a confirmed fill.
    ///
    /// Uses the fill's `is_maker` flag to select the correct rate.
    fn calculate(&self, fill: &Fill) -> Result<Fee, FeeError>;

    /// Current fee schedule for a venue.
    fn schedule(&self, venue_id: &VenueId) -> Result<&FeeSchedule, FeeError>;

    /// Hot-reload fee schedule (e.g., tier upgrade, new fee structure).
    fn update_schedule(&mut self, venue_id: VenueId, schedule: FeeSchedule);
}

/// Pre-trade fee estimate for maker and taker scenarios.
///
/// Used by the sizing engine to compute net expected value:
/// `edge = gross_alpha - worst_case_fee`.
#[derive(Debug, Clone, Copy)]
pub struct FeeEstimate {
    /// Fee if filled as maker (limit order, typically lower or negative/rebate).
    pub as_maker: Decimal,
    /// Fee if filled as taker (market order, typically higher).
    pub as_taker: Decimal,
    /// Worst-case fee (max of maker/taker, used for conservative sizing).
    pub worst_case: Decimal,
    /// Expected gas/network fee (for on-chain venues).
    pub gas_estimate: Decimal,
}

/// Actual fee computed from a confirmed fill.
#[derive(Debug, Clone, Copy)]
pub struct Fee {
    /// Trading fee (positive = cost, negative = rebate).
    pub trading_fee: Decimal,
    /// Gas/network fee (zero for centralized venues).
    pub gas_fee: Decimal,
    /// Rebate earned (zero or negative trading fee decomposed).
    pub rebate: Decimal,
    /// Funding fee (for perpetual contracts, if applicable at fill time).
    pub funding_fee: Decimal,
    /// Net total: trading_fee + gas_fee - rebate + funding_fee.
    pub net: Decimal,
}

/// Fee schedule for a venue/instrument pair.
#[derive(Debug, Clone)]
pub struct FeeSchedule {
    pub venue_id: VenueId,
    /// Current fee tier (e.g., "VIP-1", "maker-tier-3").
    pub tier: String,
    /// Maker fee rate (e.g., 0.0001 for 1bp). Negative means rebate.
    pub maker_rate: Decimal,
    /// Taker fee rate (e.g., 0.0006 for 6bp).
    pub taker_rate: Decimal,
    /// Gas model for on-chain venues.
    pub gas_model: GasModel,
    /// Per-instrument overrides (some instruments have different rates).
    pub instrument_overrides: Vec<InstrumentFeeOverride>,
}

/// Gas fee model for on-chain venues.
#[derive(Debug, Clone, Copy)]
pub enum GasModel {
    /// No gas fees (centralized exchange).
    NoGas,
    /// Fixed gas fee per transaction.
    Fixed { fee_per_tx: Decimal },
    /// Dynamic gas (estimated from recent blocks).
    Dynamic { base_fee: Decimal, priority_fee: Decimal },
}

/// Per-instrument fee rate override.
#[derive(Debug, Clone)]
pub struct InstrumentFeeOverride {
    pub instrument_id: InstrumentId,
    pub maker_rate: Decimal,
    pub taker_rate: Decimal,
}

} // verus!
