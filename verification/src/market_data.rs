//! Orderbook and market-data snapshot types used by venue adapters and paper fills.

use crate::decimal::{
    num, num_add, num_le, num_lt, num_mul, num_text, o_div, opt_num, Decimal, Num,
};
use crate::ids::{InstrumentId, MarketId, VenueId};
use crate::text::{digits, digits_text, joined4, joined5};
use crate::time::Timestamp;
use vstd::prelude::*;

verus! {

/// Typed errors for invalid market data.
#[derive(Debug)]
pub enum MarketDataError {
    NonPositivePrice { side: &'static str, level: usize, price: Decimal },
    NonPositiveQty { side: &'static str, level: usize, qty: Decimal },
    BidsUnsorted { level: usize, previous: Decimal, current: Decimal },
    AsksUnsorted { level: usize, previous: Decimal, current: Decimal },
    CrossedBook { best_bid: Decimal, best_ask: Decimal },
}

/// What is wrong with an orderbook.
pub enum BookFault {
    NonPositivePrice { side: Seq<char>, level: int, price: Decimal },
    NonPositiveQty { side: Seq<char>, level: int, qty: Decimal },
    BidsUnsorted { level: int, previous: Decimal, current: Decimal },
    AsksUnsorted { level: int, previous: Decimal, current: Decimal },
    CrossedBook { best_bid: Decimal, best_ask: Decimal },
}

impl View for MarketDataError {
    type V = BookFault;

    open spec fn view(&self) -> BookFault {
        match *self {
            MarketDataError::NonPositivePrice { side, level, price } =>
                BookFault::NonPositivePrice { side: side@, level: level as int, price },
            MarketDataError::NonPositiveQty { side, level, qty } => BookFault::NonPositiveQty {
                side: side@,
                level: level as int,
                qty,
            },
            MarketDataError::BidsUnsorted { level, previous, current } => BookFault::BidsUnsorted {
                level: level as int,
                previous,
                current,
            },
            MarketDataError::AsksUnsorted { level, previous, current } => BookFault::AsksUnsorted {
                level: level as int,
                previous,
                current,
            },
            MarketDataError::CrossedBook { best_bid, best_ask } => BookFault::CrossedBook {
                best_bid,
                best_ask,
            },
        }
    }
}

/// The text of a fault.
pub open spec fn fault_text(f: BookFault) -> Seq<char> {
    match f {
        BookFault::NonPositivePrice { side, level, price } => "non-positive price on "@ + side
            + " side at level "@ + digits(level as nat) + ": "@ + num_text(price@),
        BookFault::NonPositiveQty { side, level, qty } => "non-positive quantity on "@ + side
            + " side at level "@ + digits(level as nat) + ": "@ + num_text(qty@),
        BookFault::BidsUnsorted { level, previous, current } =>
            "bids must be sorted descending; level "@ + digits(level as nat) + " is "@ + num_text(
                current@,
            ) + " after "@ + num_text(previous@),
        BookFault::AsksUnsorted { level, previous, current } =>
            "asks must be sorted ascending; level "@ + digits(level as nat) + " is "@ + num_text(
                current@,
            ) + " after "@ + num_text(previous@),
        BookFault::CrossedBook { best_bid, best_ask } => "crossed book: best bid "@ + num_text(
            best_bid@,
        ) + " > best ask "@ + num_text(best_ask@),
    }
}

impl MarketDataError {
    /// The error as text.
    pub fn text(&self) -> (r: String)
        ensures
            r@ == fault_text(self@),
    {
        match self {
            MarketDataError::NonPositivePrice { side, level, price } => {
                let mut s = joined4(
                    "non-positive price on ",
                    side,
                    " side at level ",
                    digits_text(*level as u128).as_str(),
                );
                s.append(": ");
                s.append(price.text().as_str());
                s
            },
            MarketDataError::NonPositiveQty { side, level, qty } => {
                let mut s = joined4(
                    "non-positive quantity on ",
                    side,
                    " side at level ",
                    digits_text(*level as u128).as_str(),
                );
                s.append(": ");
                s.append(qty.text().as_str());
                s
            },
            MarketDataError::BidsUnsorted { level, previous, current } => {
                let mut s = joined5(
                    "bids must be sorted descending; level ",
                    digits_text(*level as u128).as_str(),
                    " is ",
                    current.text().as_str(),
                    " after ",
                );
                s.append(previous.text().as_str());
                s
            },
            MarketDataError::AsksUnsorted { level, previous, current } => {
                let mut s = joined5(
                    "asks must be sorted ascending; level ",
                    digits_text(*level as u128).as_str(),
                    " is ",
                    current.text().as_str(),
                    " after ",
                );
                s.append(previous.text().as_str());
                s
            },
            MarketDataError::CrossedBook { best_bid, best_ask } => joined4(
                "crossed book: best bid ",
                best_bid.text().as_str(),
                " > best ask ",
                best_ask.text().as_str(),
            ),
        }
    }
}

/// One orderbook level.
#[derive(Debug, Clone, Copy, PartialEq)]
pub struct PriceLevel {
    pub price: Decimal,
    pub qty: Decimal,
}

impl PriceLevel {
    /// Total notional resting at this level.
    pub fn notional(&self) -> (r: Decimal)
        requires
            num_mul(self.price@, self.qty@) is Some,
        ensures
            Some(r@) == num_mul(self.price@, self.qty@),
    {
        self.price.checked_mul(self.qty).unwrap()
    }

    /// Total notional resting at this level, if it is in range.
    pub fn checked_notional(&self) -> (r: Option<Decimal>)
        ensures
            opt_num(r) == num_mul(self.price@, self.qty@),
    {
        match self.price.checked_mul(self.qty) {
            Some(_) => Some(self.notional()),
            None => None,
        }
    }
}

/// Full depth snapshot used by paper fill simulation.
#[derive(Debug, Clone)]
pub struct OrderbookSnapshot {
    pub venue_id: VenueId,
    pub instrument_id: InstrumentId,
    pub market_id: MarketId,
    /// Highest bid first.
    pub bids: Vec<PriceLevel>,
    /// Lowest ask first.
    pub asks: Vec<PriceLevel>,
    /// Venue timestamp for the snapshot.
    pub observed_at: Timestamp,
    /// Local receipt time.
    pub received_at: Timestamp,
}

/// Half of the sum of two prices.
pub open spec fn midpoint(bid: Num, ask: Num) -> Option<Num> {
    o_div(num_add(bid, ask), Some(num(2, 0)))
}

/// What is wrong with one level of a book side, taken with the level before it.
pub open spec fn level_fault(
    levels: Seq<PriceLevel>,
    i: int,
    side: Seq<char>,
    descending: bool,
) -> Option<BookFault> {
    let level = levels[i];
    if level.price@.m <= 0 {
        Some(BookFault::NonPositivePrice { side, level: i, price: level.price })
    } else if level.qty@.m <= 0 {
        Some(BookFault::NonPositiveQty { side, level: i, qty: level.qty })
    } else if i > 0 && descending && num_lt(levels[i - 1].price@, level.price@) {
        Some(
            BookFault::BidsUnsorted {
                level: i,
                previous: levels[i - 1].price,
                current: level.price,
            },
        )
    } else if i > 0 && !descending && num_lt(level.price@, levels[i - 1].price@) {
        Some(
            BookFault::AsksUnsorted {
                level: i,
                previous: levels[i - 1].price,
                current: level.price,
            },
        )
    } else {
        None
    }
}

/// The first fault of a book side, from a level on.
pub open spec fn side_fault(
    levels: Seq<PriceLevel>,
    side: Seq<char>,
    descending: bool,
    from: int,
) -> Option<BookFault>
    decreases levels.len() - from,
{
    if from < 0 || from >= levels.len() {
        None
    } else {
        match level_fault(levels, from, side, descending) {
            Some(f) => Some(f),
            None => side_fault(levels, side, descending, from + 1),
        }
    }
}

/// The first fault of a book: of the bids, of the asks, or that the best bid is above the
/// best ask.
pub open spec fn book_fault(bids: Seq<PriceLevel>, asks: Seq<PriceLevel>) -> Option<BookFault> {
    match side_fault(bids, "bid"@, true, 0) {
        Some(f) => Some(f),
        None => match side_fault(asks, "ask"@, false, 0) {
            Some(f) => Some(f),
            None => if bids.len() > 0 && asks.len() > 0 && num_lt(
                asks[0].price@,
                bids[0].price@,
            ) {
                Some(
                    BookFault::CrossedBook { best_bid: bids[0].price, best_ask: asks[0].price },
                )
            } else {
                None
            },
        },
    }
}

impl OrderbookSnapshot {
    /// Best bid, if any.
    pub fn best_bid(&self) -> (r: Option<&PriceLevel>)
        ensures
            match r {
                Some(level) => self.bids@.len() > 0 && *level == self.bids@[0],
                None => self.bids@.len() == 0,
            },
    {
        if self.bids.len() > 0 {
            Some(&self.bids[0])
        } else {
            None
        }
    }

    /// Best ask, if any.
    pub fn best_ask(&self) -> (r: Option<&PriceLevel>)
        ensures
            match r {
                Some(level) => self.asks@.len() > 0 && *level == self.asks@[0],
                None => self.asks@.len() == 0,
            },
    {
        if self.asks.len() > 0 {
            Some(&self.asks[0])
        } else {
            None
        }
    }

    /// Mid price derived from top-of-book.
    pub fn mid_price(&self) -> (r: Option<Decimal>)
        requires
            self.bids@.len() > 0 && self.asks@.len() > 0 ==> midpoint(
                self.bids@[0].price@,
                self.asks@[0].price@,
            ) is Some,
        ensures
            opt_num(r) == (if self.bids@.len() > 0 && self.asks@.len() > 0 {
                midpoint(self.bids@[0].price@, self.asks@[0].price@)
            } else {
                None
            }),
    {
        let best_bid = self.best_bid()?;
        let best_ask = self.best_ask()?;
        best_bid.price.checked_add(best_ask.price)?.checked_div(Decimal::new(2, 0))
    }

    /// Mid price derived from top-of-book: `None` where the prices' sum exceeds the range,
    /// `Some(None)` where a side is empty.
    pub fn checked_mid_price(&self) -> (r: Option<Option<Decimal>>)
        ensures
            if self.bids@.len() > 0 && self.asks@.len() > 0 {
                match midpoint(self.bids@[0].price@, self.asks@[0].price@) {
                    Some(mid) => r matches Some(Some(d)) && d@ == mid,
                    None => r is None,
                }
            } else {
                r == Some(None::<Decimal>)
            },
    {
        if self.bids.len() > 0 && self.asks.len() > 0 {
            let sum = self.bids[0].price.checked_add(self.asks[0].price)?;
            let _ = sum.checked_div(Decimal::new(2, 0))?;
        }
        Some(self.mid_price())
    }

    /// Validate depth ordering and positive values before using the snapshot for fills.
    pub fn validate(&self) -> (r: Result<(), MarketDataError>)
        ensures
            match r {
                Ok(_) => book_fault(self.bids@, self.asks@) is None,
                Err(e) => book_fault(self.bids@, self.asks@) == Some(e@),
            },
    {
        match validate_side(&self.bids, "bid", true) {
            Ok(_) => {},
            Err(e) => {
                return Err(e);
            },
        }
        match validate_side(&self.asks, "ask", false) {
            Ok(_) => {},
            Err(e) => {
                return Err(e);
            },
        }
        match (self.best_bid(), self.best_ask()) {
            (Some(best_bid), Some(best_ask)) => {
                if best_ask.price.is_less(best_bid.price) {
                    return Err(
                        MarketDataError::CrossedBook {
                            best_bid: best_bid.price,
                            best_ask: best_ask.price,
                        },
                    );
                }
            },
            _ => {},
        }
        Ok(())
    }
}

/// Checks one side of a book: positive values, in order.
fn validate_side(levels: &Vec<PriceLevel>, side: &'static str, descending: bool) -> (r: Result<
    (),
    MarketDataError,
>)
    ensures
        match r {
            Ok(_) => side_fault(levels@, side@, descending, 0) is None,
            Err(e) => side_fault(levels@, side@, descending, 0) == Some(e@),
        },
{
    let mut previous_price: Option<Decimal> = None;
    let mut index: usize = 0;
    while index < levels.len()
        invariant
            index <= levels.len(),
            side_fault(levels@, side@, descending, 0) == side_fault(
                levels@,
                side@,
                descending,
                index as int,
            ),
            match previous_price {
                Some(p) => index > 0 && p == levels@[index - 1].price,
                None => index == 0,
            },
        decreases levels.len() - index,
    {
        let level = levels[index];
        if !level.price.is_positive() {
            return Err(
                MarketDataError::NonPositivePrice { side, level: index, price: level.price },
            );
        }
        if !level.qty.is_positive() {
            return Err(MarketDataError::NonPositiveQty { side, level: index, qty: level.qty });
        }
        if let Some(previous) = previous_price {
            if descending {
                if previous.is_less(level.price) {
                    return Err(
                        MarketDataError::BidsUnsorted {
                            level: index,
                            previous,
                            current: level.price,
                        },
                    );
                }
            } else {
                if level.price.is_less(previous) {
                    return Err(
                        MarketDataError::AsksUnsorted {
                            level: index,
                            previous,
                            current: level.price,
                        },
                    );
                }
            }
        }
        previous_price = Some(level.price);
        index = index + 1;
    }
    Ok(())
}

/// Whether every level has a positive price and quantity.
pub open spec fn positive_levels(levels: Seq<PriceLevel>) -> bool {
    forall|i: int|
        0 <= i < levels.len() ==> (#[trigger] levels[i]).price@.m > 0 && levels[i].qty@.m > 0
}

/// Whether each price is at most the one before it (descending) or at least it.
pub open spec fn ordered_levels(levels: Seq<PriceLevel>, descending: bool) -> bool {
    forall|i: int|
        0 < i < levels.len() ==> if descending {
            num_le((#[trigger] levels[i]).price@, levels[i - 1].price@)
        } else {
            num_le(levels[i - 1].price@, levels[i].price@)
        }
}

/// A side without a fault from a level on is sound from there on, and conversely.
proof fn lemma_side_fault(levels: Seq<PriceLevel>, side: Seq<char>, descending: bool, from: int)
    requires
        0 <= from <= levels.len(),
    ensures
        side_fault(levels, side, descending, from) is None <==> forall|i: int|
            from <= i < levels.len() ==> #[trigger] level_fault(
                levels,
                i,
                side,
                descending,
            ) is None,
    decreases levels.len() - from,
{
    if from < levels.len() {
        lemma_side_fault(levels, side, descending, from + 1);
        assert(level_fault(levels, from, side, descending) is None
            || level_fault(levels, from, side, descending) is Some);
    }
}

/// A book passes validation exactly if both sides are positive and in order and the best
/// bid is not above the best ask.
pub proof fn law_valid_book(bids: Seq<PriceLevel>, asks: Seq<PriceLevel>)
    ensures
        book_fault(bids, asks) is None <==> {
            &&& positive_levels(bids)
            &&& positive_levels(asks)
            &&& ordered_levels(bids, true)
            &&& ordered_levels(asks, false)
            &&& bids.len() > 0 && asks.len() > 0 ==> num_le(bids[0].price@, asks[0].price@)
        },
{
    lemma_side_fault(bids, "bid"@, true, 0);
    lemma_side_fault(asks, "ask"@, false, 0);
    if side_fault(bids, "bid"@, true, 0) is None {
        assert forall|i: int| 0 <= i < bids.len() implies (#[trigger] bids[i]).price@.m > 0
            && bids[i].qty@.m > 0 && (i > 0 ==> num_le(bids[i].price@, bids[i - 1].price@)) by {
            assert(level_fault(bids, i, "bid"@, true) is None);
        }
    }
    if side_fault(asks, "ask"@, false, 0) is None {
        assert forall|i: int| 0 <= i < asks.len() implies (#[trigger] asks[i]).price@.m > 0
            && asks[i].qty@.m > 0 && (i > 0 ==> num_le(asks[i - 1].price@, asks[i].price@)) by {
            assert(level_fault(asks, i, "ask"@, false) is None);
        }
    }
    if positive_levels(bids) && ordered_levels(bids, true) {
        assert forall|i: int| 0 <= i < bids.len() implies #[trigger] level_fault(
            bids,
            i,
            "bid"@,
            true,
        ) is None by {
            assert(bids[i].price@.m > 0);
        }
    }
    if positive_levels(asks) && ordered_levels(asks, false) {
        assert forall|i: int| 0 <= i < asks.len() implies #[trigger] level_fault(
            asks,
            i,
            "ask"@,
            false,
        ) is None by {
            assert(asks[i].price@.m > 0);
        }
    }
}

} // verus!
