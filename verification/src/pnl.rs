//! Mark-to-market P&L and price source abstraction.
//!
//! The sequencer queries `PriceSource` synchronously against a cache.
//! An async task (outside the sequencer) updates the cache from venue feeds.

use crate::decimal::{num, num_abs, num_mul, num_sub, o_div, o_mul, opt_num, Decimal, Num};
use crate::ids::InstrumentId;
use crate::time::{Duration, Timestamp};
use vstd::prelude::*;

verus! {

/// Synchronous price lookup — backed by an in-memory cache.
///
/// In backtest mode, the harness pre-loads prices before each tick.
pub trait PriceSource {
    /// Whether the source may quote a price for an instrument, or have none. Asking twice may
    /// give two prices.
    spec fn may_quote(&self, instrument: InstrumentId, quote: Option<PriceSnapshot>) -> bool;

    /// Whether the source may call an instrument's price stale, or fresh, at an age.
    spec fn may_be_stale(&self, instrument: InstrumentId, max_age: Duration, stale: bool) -> bool;

    /// Get the latest cached price for an instrument.
    /// Returns `None` if no price has been received yet (data gap).
    fn latest_price(&self, instrument: &InstrumentId) -> (r: Option<PriceSnapshot>)
        ensures
            self.may_quote(*instrument, r),
    ;

    /// Check if price data is considered stale (older than threshold).
    /// Used by risk checks to reject orders when market data is unreliable.
    fn is_stale(&self, instrument: &InstrumentId, max_age: Duration) -> (r: bool)
        ensures
            self.may_be_stale(*instrument, max_age, r),
    ;
}

/// A single price observation.
#[derive(Debug)]
pub struct PriceSnapshot {
    pub instrument: InstrumentId,
    /// Best bid price.
    pub bid: Decimal,
    /// Best ask price.
    pub ask: Decimal,
    /// Mid price: (bid + ask) / 2.
    pub mid: Decimal,
    /// Last traded price.
    pub last: Decimal,
    /// When this price was observed (from venue timestamp, not local clock).
    pub observed_at: Timestamp,
    /// When this price was received locally (from `Clock::now()`).
    pub received_at: Timestamp,
}

impl Clone for PriceSnapshot {
    fn clone(&self) -> (r: PriceSnapshot)
        ensures
            r == *self,
    {
        PriceSnapshot {
            instrument: self.instrument.clone(),
            bid: self.bid,
            ask: self.ask,
            mid: self.mid,
            last: self.last,
            observed_at: self.observed_at,
            received_at: self.received_at,
        }
    }
}

/// The spread in basis points of the mid price: ask less bid, divided by mid, times ten
/// thousand.
pub open spec fn spread_in_bps(bid: Num, ask: Num, mid: Num) -> Option<Num> {
    o_mul(o_div(num_sub(ask, bid), Some(mid)), Some(num(10_000, 0)))
}

impl PriceSnapshot {
    /// Spread in absolute terms.
    pub fn spread(&self) -> (r: Decimal)
        requires
            num_sub(self.ask@, self.bid@) is Some,
        ensures
            Some(r@) == num_sub(self.ask@, self.bid@),
    {
        self.ask.checked_sub(self.bid).unwrap()
    }

    /// Spread in absolute terms, if it is in range.
    pub fn checked_spread(&self) -> (r: Option<Decimal>)
        ensures
            opt_num(r) == num_sub(self.ask@, self.bid@),
    {
        match self.ask.checked_sub(self.bid) {
            Some(_) => Some(self.spread()),
            None => None,
        }
    }

    /// Spread as basis points of mid price.
    /// Returns `None` if mid is zero (should not happen in practice).
    pub fn spread_bps(&self) -> (r: Option<Decimal>)
        requires
            self.mid@.m != 0 ==> spread_in_bps(self.bid@, self.ask@, self.mid@) is Some,
        ensures
            opt_num(r) == (if self.mid@.m == 0 {
                None
            } else {
                spread_in_bps(self.bid@, self.ask@, self.mid@)
            }),
    {
        if self.mid.is_zero() {
            return None;
        }
        self.spread().checked_div(self.mid)?.checked_mul(Decimal::new(10_000, 0))
    }

    /// Spread as basis points of mid price: `None` where a number exceeds its range,
    /// `Some(None)` where mid is zero.
    pub fn checked_spread_bps(&self) -> (r: Option<Option<Decimal>>)
        ensures
            if self.mid@.m == 0 {
                r == Some(None::<Decimal>)
            } else {
                match spread_in_bps(self.bid@, self.ask@, self.mid@) {
                    Some(bps) => r matches Some(Some(d)) && d@ == bps,
                    None => r is None,
                }
            },
    {
        if !self.mid.is_zero() {
            let spread = self.checked_spread()?;
            let _ = spread.checked_div(self.mid)?.checked_mul(Decimal::new(10_000, 0))?;
        }
        Some(self.spread_bps())
    }
}

/// Mark-to-market snapshot for a position.
#[derive(Debug, Clone)]
pub struct MarkToMarketSnapshot {
    pub instrument: InstrumentId,
    /// Current position quantity (signed: positive = long, negative = short).
    pub qty: Decimal,
    /// Average entry price.
    pub avg_entry_price: Decimal,
    /// Current mark price (mid price from `PriceSource`).
    pub mark_price: Decimal,
    /// Unrealized P&L: (mark_price - avg_entry) * qty.
    pub unrealized_pnl: Decimal,
    /// Notional value at current mark: |qty| * mark_price.
    pub notional_value: Decimal,
    /// When this snapshot was computed.
    pub computed_at: Timestamp,
}

/// Unrealized P&L of a position: the mark less the entry price, times the quantity.
pub open spec fn unrealized(qty: Num, entry: Num, mark: Num) -> Option<Num> {
    o_mul(num_sub(mark, entry), Some(qty))
}

/// Notional value of a position at a mark price.
pub open spec fn marked_notional(qty: Num, mark: Num) -> Option<Num> {
    num_mul(num_abs(qty), mark)
}

impl MarkToMarketSnapshot {
    /// Compute mark-to-market from position data and current price.
    ///
    /// This is the canonical P&L formula. No other code should compute
    /// unrealized P&L differently.
    pub fn compute(
        instrument: InstrumentId,
        qty: Decimal,
        avg_entry_price: Decimal,
        mark_price: Decimal,
        now: Timestamp,
    ) -> (r: MarkToMarketSnapshot)
        requires
            unrealized(qty@, avg_entry_price@, mark_price@) is Some,
            marked_notional(qty@, mark_price@) is Some,
        ensures
            r.instrument == instrument,
            r.qty == qty,
            r.avg_entry_price == avg_entry_price,
            r.mark_price == mark_price,
            Some(r.unrealized_pnl@) == unrealized(qty@, avg_entry_price@, mark_price@),
            Some(r.notional_value@) == marked_notional(qty@, mark_price@),
            r.computed_at == now,
    {
        let move_per_unit = mark_price.checked_sub(avg_entry_price).unwrap();
        let unrealized_pnl = move_per_unit.checked_mul(qty).unwrap();
        let notional_value = qty.abs().checked_mul(mark_price).unwrap();
        MarkToMarketSnapshot {
            instrument,
            qty,
            avg_entry_price,
            mark_price,
            unrealized_pnl,
            notional_value,
            computed_at: now,
        }
    }

    /// Compute mark-to-market, if every number stays in range.
    pub fn checked_compute(
        instrument: InstrumentId,
        qty: Decimal,
        avg_entry_price: Decimal,
        mark_price: Decimal,
        now: Timestamp,
    ) -> (r: Option<MarkToMarketSnapshot>)
        ensures
            match r {
                Some(s) => {
                    &&& s.instrument == instrument && s.qty == qty && s.computed_at == now
                    &&& s.avg_entry_price == avg_entry_price && s.mark_price == mark_price
                    &&& Some(s.unrealized_pnl@) == unrealized(
                        qty@,
                        avg_entry_price@,
                        mark_price@,
                    )
                    &&& Some(s.notional_value@) == marked_notional(qty@, mark_price@)
                },
                None => unrealized(qty@, avg_entry_price@, mark_price@) is None
                    || marked_notional(qty@, mark_price@) is None,
            },
    {
        let move_per_unit = mark_price.checked_sub(avg_entry_price)?;
        let _ = move_per_unit.checked_mul(qty)?;
        let _ = qty.abs().checked_mul(mark_price)?;
        Some(MarkToMarketSnapshot::compute(instrument, qty, avg_entry_price, mark_price, now))
    }
}

} // verus!
