//! The orders and decisions of a smoke run against a venue's test network.
//!
//! The run rests a limit order below the best bid, sees it appear among the open orders,
//! cancels it, and may then fill a market order.

use crate::decimal::{
    aligned, decimal_parsed, exact_difference, in_range, lemma_pow10_positive, lemma_units_sign,
    num, num_div, num_le, num_lt, num_rounded, num_sub, num_zero, o_mul, opt_num, pow10, Decimal,
    Num,
};
use crate::gateway::{
    gateway_fault_text, GatewayError, OrderSubmission, VenueFill, VenueOpenOrder, VenueOrderAck,
};
use crate::ids::{
    AgentId, ClientOrderId, InstrumentId, MarketId, OrderId, VenueId, VenueOrderId,
};
use crate::market_data::{OrderbookSnapshot, PriceLevel};
use crate::pipeline::{ExecHint, OrderType, TimeInForce};
use crate::signal::Side;
use crate::text::{
    digits, digits_text, joined, joined3, joined5, parse_number, parsed_number, same_text,
};
use vstd::prelude::*;

verus! {

// ─── Settings ───

/// The text of a setting, or a default where it is not set.
pub open spec fn setting(raw: Option<String>, default: Seq<char>) -> Seq<char> {
    match raw {
        Some(s) => s@,
        None => default,
    }
}

/// A decimal setting.
pub fn parse_decimal_env(key: &str, raw: Option<String>, default: &str) -> (r: Result<
    Decimal,
    String,
>)
    ensures
        match (r, decimal_parsed(setting(raw, default@))) {
            (Ok(d), Ok((m, s))) => d@ == num(m, s),
            (Err(e), Err(_)) => e@ == key@ + " must be a decimal, got "@ + setting(raw, default@),
            _ => false,
        },
{
    let text = match raw {
        Some(s) => s,
        None => default.to_owned(),
    };
    match Decimal::parse(text.as_str()) {
        Ok(d) => Ok(d),
        Err(_) => Err(joined3(key, " must be a decimal, got ", text.as_str())),
    }
}

/// A whole number setting.
pub fn parse_u32_env(key: &str, raw: Option<String>, default: u32) -> (r: Result<u32, String>)
    ensures
        match raw {
            None => r == Ok::<u32, String>(default),
            Some(text) => match (r, parsed_number(text@, u32::MAX as nat)) {
                (Ok(n), Some(m)) => n == m,
                (Err(e), None) => e@ == key@ + " must be an integer, got "@ + text@,
                _ => false,
            },
        },
{
    let text = match raw {
        Some(text) => text,
        None => {
            return Ok(default);
        },
    };
    match parse_number(text.as_str(), u32::MAX as u64) {
        Some(n) => Ok(n as u32),
        None => Err(joined3(key, " must be an integer, got ", text.as_str())),
    }
}

/// Whether a text says yes or no.
pub open spec fn yes_or_no(s: Seq<char>) -> Option<bool> {
    if s == "1"@ || s == "true"@ || s == "TRUE"@ || s == "yes"@ || s == "YES"@ {
        Some(true)
    } else if s == "0"@ || s == "false"@ || s == "FALSE"@ || s == "no"@ || s == "NO"@ {
        Some(false)
    } else {
        None
    }
}

/// A setting that says yes or no.
pub fn parse_bool_env(key: &str, raw: Option<String>, default: bool) -> (r: Result<bool, String>)
    ensures
        match raw {
            None => r == Ok::<bool, String>(default),
            Some(text) => match (r, yes_or_no(text@)) {
                (Ok(b), Some(expected)) => b == expected,
                (Err(e), None) => e@ == key@ + " must be one of 1/0/true/false/yes/no, got "@
                    + text@,
                _ => false,
            },
        },
{
    let text = match raw {
        Some(text) => text,
        None => {
            return Ok(default);
        },
    };
    let s = text.as_str();
    if same_text(s, "1") || same_text(s, "true") || same_text(s, "TRUE") || same_text(s, "yes")
        || same_text(s, "YES") {
        Ok(true)
    } else if same_text(s, "0") || same_text(s, "false") || same_text(s, "FALSE") || same_text(
        s,
        "no",
    ) || same_text(s, "NO") {
        Ok(false)
    } else {
        Err(joined3(key, " must be one of 1/0/true/false/yes/no, got ", s))
    }
}

/// The suffix of a run's identifiers.
pub fn unique_suffix(prefix: &str, millis: u128) -> (r: String)
    ensures
        r@ == prefix@ + "-"@ + digits(millis as nat),
{
    joined3(prefix, "-", digits_text(millis).as_str())
}

// ─── Orders ───

/// What a resting limit order is priced at, below the best bid by an offset in basis
/// points; or why it cannot be priced. `None` where a number is out of range.
pub open spec fn resting_price(bids: Seq<PriceLevel>, offset_bps: u32) -> Option<
    Result<Num, Seq<char>>,
> {
    if bids.len() == 0 {
        Some(Err("orderbook has no bids; cannot price resting limit"@))
    } else {
        let bid = bids[0].price@;
        match num_div(num(offset_bps as int, 0), num(10_000, 0)) {
            None => None,
            Some(offset) => if num_lt(num_zero(), offset) && num_lt(offset, num(1, 0)) {
                match o_mul(Some(bid), num_sub(num(1, 0), offset)) {
                    None => None,
                    Some(scaled) => {
                        let rounded = num_rounded(scaled, bid.s);
                        let below = if num_le(bid, rounded) {
                            num_sub(bid, num(1, bid.s))
                        } else {
                            Some(rounded)
                        };
                        match below {
                            None => None,
                            Some(price) => if price.m > 0 {
                                Some(Ok(price))
                            } else {
                                Some(Err("computed resting limit price must be positive"@))
                            },
                        }
                    },
                }
            } else {
                Some(
                    Err(
                        "BYBIT_TESTNET_LIMIT_OFFSET_BPS must be between 1 and 9999, got "@ + digits(
                            offset_bps as nat,
                        ),
                    ),
                )
            },
        }
    }
}

/// Whether a price, or the reason why there is none, is the expected one.
pub open spec fn is_priced(
    r: Option<Result<Decimal, String>>,
    expected: Option<Result<Num, Seq<char>>>,
) -> bool {
    match (r, expected) {
        (None, None) => true,
        (Some(Ok(d)), Some(Ok(n))) => d@ == n,
        (Some(Err(e)), Some(Err(why))) => e@ == why,
        _ => false,
    }
}

/// A positive price less one at its last place is exact, and below the price.
proof fn lemma_tick_below(price: Num)
    requires
        in_range(price.m, price.s),
        price.m > 0,
    ensures
        exact_difference(price, num(1, price.s)) == Some(num(price.m - 1, price.s)),
        num_lt(num(price.m - 1, price.s), price),
{
    let (m, p) = (price.m, pow10(price.s) as int);
    lemma_pow10_positive(price.s);
    let one = pow10((price.s - price.s) as nat) as int;
    assert(one == 1);
    assert(m * one == m && -1 * one == -1) by (nonlinear_arith)
        requires
            one == 1,
    ;
    assert(aligned(m, price.s, price.s) == m);
    assert((m - 1) * p < m * p) by (nonlinear_arith)
        requires
            p > 0,
    ;
}

/// What a resting limit order is priced at.
fn price_below_bid(bids: &Vec<PriceLevel>, offset_bps: u32) -> (r: Option<Result<Decimal, String>>)
    ensures
        is_priced(r, resting_price(bids@, offset_bps)),
        r matches Some(Ok(price)) ==> price@.m > 0 && num_lt(price@, bids@[0].price@),
{
    if bids.len() == 0 {
        return Some(Err("orderbook has no bids; cannot price resting limit".to_owned()));
    }
    let best_bid = bids[0].price;
    let offset = Decimal::from_u32(offset_bps).checked_div(Decimal::from_u32(10_000))?;
    if !(Decimal::zero().is_less(offset) && offset.is_less(Decimal::one())) {
        return Some(
            Err(
                joined(
                    "BYBIT_TESTNET_LIMIT_OFFSET_BPS must be between 1 and 9999, got ",
                    digits_text(offset_bps as u128).as_str(),
                ),
            ),
        );
    }
    let scale: u32 = best_bid.scale();
    let tick = Decimal::new(1, scale);
    let rest = Decimal::one().checked_sub(offset)?;
    let mut price = best_bid.checked_mul(rest)?.round_dp(scale);
    if best_bid.is_at_most(price) {
        price = best_bid.checked_sub(tick)?;
        proof {
            lemma_units_sign(best_bid@);
            lemma_units_sign(tick@);
            if best_bid@.m > 0 {
                lemma_tick_below(best_bid@);
            }
        }
    }
    if price.is_positive() {
        Some(Ok(price))
    } else {
        Some(Err("computed resting limit price must be positive".to_owned()))
    }
}

/// Whether a submission is an order of the run.
pub open spec fn is_smoke_order(
    o: OrderSubmission,
    market: Seq<char>,
    qty: Decimal,
    suffix: Seq<char>,
    price: Option<Num>,
) -> bool {
    &&& o.order_id@ == "ord-"@ + suffix
    &&& o.client_order_id@ == "smoke-"@ + suffix
    &&& o.agent_id@ == "smoke"@
    &&& o.instrument_id@ == market
    &&& o.market_id@ == market
    &&& o.venue_id@ == "bybit"@
    &&& o.side is Buy
    &&& o.order_type == (if price is Some {
        OrderType::Limit
    } else {
        OrderType::Market
    })
    &&& o.time_in_force == (if price is Some {
        TimeInForce::GTC
    } else {
        TimeInForce::IOC
    })
    &&& o.qty == qty
    &&& opt_num(o.price) == price
    &&& o.trigger_price is None
    &&& o.stop_loss is None
    &&& o.take_profit is None
    &&& !o.post_only
    &&& !o.reduce_only
    &&& !o.dry_run
    &&& !o.exec_hint.allow_emulation
}

/// An order of the run: a limit order that rests where a price is given, else a market
/// order that fills at once.
fn smoke_order(market: &str, qty: Decimal, suffix: &str, price: Option<Decimal>) -> (r:
    OrderSubmission)
    ensures
        is_smoke_order(r, market@, qty, suffix@, opt_num(price)),
{
    let (order_type, time_in_force) = match price {
        Some(_) => (OrderType::Limit, TimeInForce::GTC),
        None => (OrderType::Market, TimeInForce::IOC),
    };
    OrderSubmission {
        order_id: OrderId(joined("ord-", suffix)),
        client_order_id: ClientOrderId(joined("smoke-", suffix)),
        agent_id: AgentId("smoke".to_owned()),
        instrument_id: InstrumentId(market.to_owned()),
        market_id: MarketId(market.to_owned()),
        venue_id: VenueId("bybit".to_owned()),
        side: Side::Buy,
        order_type,
        time_in_force,
        qty,
        price,
        trigger_price: None,
        stop_loss: None,
        take_profit: None,
        post_only: false,
        reduce_only: false,
        dry_run: false,
        exec_hint: ExecHint::default(),
    }
}

/// Whether a submission, or the reason why there is none, is that of a limit order that
/// rests: it is priced above zero and below the best bid.
pub open spec fn is_resting_order(
    r: Result<OrderSubmission, String>,
    market: Seq<char>,
    qty: Decimal,
    suffix: Seq<char>,
    bids: Seq<PriceLevel>,
    priced: Result<Num, Seq<char>>,
) -> bool {
    match (r, priced) {
        (Ok(o), Ok(price)) => {
            &&& is_smoke_order(o, market, qty, suffix, Some(price))
            &&& price.m > 0
            &&& num_lt(price, bids[0].price@)
        },
        (Err(e), Err(why)) => e@ == why,
        _ => false,
    }
}

/// A limit order that rests below the best bid.
pub fn build_resting_limit_submission(
    market: &str,
    qty: Decimal,
    limit_offset_bps: u32,
    orderbook: &OrderbookSnapshot,
    suffix: &str,
) -> (r: Result<OrderSubmission, String>)
    requires
        resting_price(orderbook.bids@, limit_offset_bps) is Some,
    ensures
        is_resting_order(
            r,
            market@,
            qty,
            suffix@,
            orderbook.bids@,
            resting_price(orderbook.bids@, limit_offset_bps)->Some_0,
        ),
{
    match price_below_bid(&orderbook.bids, limit_offset_bps) {
        Some(Ok(price)) => Ok(smoke_order(market, qty, suffix, Some(price))),
        Some(Err(why)) => Err(why),
        None => Err("".to_owned()),
    }
}

/// A limit order that rests below the best bid; `None` where its price is out of range.
pub fn checked_resting_limit_submission(
    market: &str,
    qty: Decimal,
    limit_offset_bps: u32,
    orderbook: &OrderbookSnapshot,
    suffix: &str,
) -> (r: Option<Result<OrderSubmission, String>>)
    ensures
        match (r, resting_price(orderbook.bids@, limit_offset_bps)) {
            (None, None) => true,
            (Some(built), Some(priced)) => is_resting_order(
                built,
                market@,
                qty,
                suffix@,
                orderbook.bids@,
                priced,
            ),
            _ => false,
        },
{
    match price_below_bid(&orderbook.bids, limit_offset_bps) {
        Some(_) => Some(
            build_resting_limit_submission(market, qty, limit_offset_bps, orderbook, suffix),
        ),
        None => None,
    }
}

/// A market order that fills at once.
pub fn build_market_submission(market: &str, qty: Decimal, suffix: &str) -> (r: OrderSubmission)
    ensures
        is_smoke_order(r, market@, qty, suffix@, None),
{
    smoke_order(market, qty, suffix, None)
}

// ─── Waiting ───

/// What a wait does after a look.
pub enum Wait<T> {
    /// What was waited for has come.
    Done(T),
    /// Look again after a pause.
    Again,
    /// Give up.
    Failed(String),
}

/// What the wait for an order book does after a look. A book that is there counts though the
/// time is up.
pub fn orderbook_wait(found: Option<OrderbookSnapshot>, market_id: &MarketId, expired: bool) -> (r:
    Wait<OrderbookSnapshot>)
    ensures
        match (found, r) {
            (Some(book), Wait::Done(b)) => b == book,
            (None, Wait::Failed(why)) => expired && why@
                == "timed out waiting for public orderbook snapshot for "@ + market_id@,
            (None, Wait::Again) => !expired,
            _ => false,
        },
{
    match found {
        Some(book) => Wait::Done(book),
        None => if expired {
            Wait::Failed(
                joined(
                    "timed out waiting for public orderbook snapshot for ",
                    market_id.0.as_str(),
                ),
            )
        } else {
            Wait::Again
        },
    }
}

/// What a submission does after a try: it is tried again while the venue is not connected
/// and there is time.
pub fn submit_wait(tried: Result<VenueOrderAck, GatewayError>, expired: bool) -> (r: Wait<
    VenueOrderAck,
>)
    ensures
        match tried {
            Ok(ack) => r == Wait::Done(ack),
            Err(e) => if e is VenueNotConnected && !expired {
                r is Again
            } else {
                r matches Wait::Failed(why) && why@ == gateway_fault_text(e@)
            },
        },
{
    match tried {
        Ok(ack) => Wait::Done(ack),
        Err(e) => {
            if matches!(e, GatewayError::VenueNotConnected { .. }) && !expired {
                Wait::Again
            } else {
                Wait::Failed(e.text())
            }
        },
    }
}

/// Whether an order is among the open ones.
pub open spec fn is_open(orders: Seq<VenueOpenOrder>, id: Seq<char>) -> bool {
    exists|i: int| 0 <= i < orders.len() && (#[trigger] orders[i]).venue_order_id@ == id
}

/// Whether an order is among the open ones.
fn order_is_open(orders: &[VenueOpenOrder], id: &VenueOrderId) -> (r: bool)
    ensures
        r == is_open(orders@, id@),
{
    let mut i: usize = 0;
    while i < orders.len()
        invariant
            i <= orders@.len(),
            forall|j: int| 0 <= j < i ==> (#[trigger] orders@[j]).venue_order_id@ != id@,
        decreases orders@.len() - i,
    {
        if orders[i].venue_order_id.same(id) {
            return true;
        }
        i = i + 1;
    }
    false
}

/// What the wait for an order to appear among the open ones, or to disappear from them,
/// does after a look.
pub fn presence_wait(
    orders: &[VenueOpenOrder],
    venue_order_id: &VenueOrderId,
    should_exist: bool,
    expired: bool,
) -> (r: Wait<()>)
    ensures
        if is_open(orders@, venue_order_id@) == should_exist {
            r is Done
        } else if expired {
            r matches Wait::Failed(why) && why@ == "timed out waiting for "@ + venue_order_id@
                + " to "@ + (if should_exist {
                "appear in"@
            } else {
                "disappear from"@
            }) + " open orders"@
        } else {
            r is Again
        },
{
    if order_is_open(orders, venue_order_id) == should_exist {
        return Wait::Done(());
    }
    if !expired {
        return Wait::Again;
    }
    let expectation = if should_exist {
        "appear in"
    } else {
        "disappear from"
    };
    Wait::Failed(
        joined5(
            "timed out waiting for ",
            venue_order_id.0.as_str(),
            " to ",
            expectation,
            " open orders",
        ),
    )
}

/// What the wait for a fill does with what the channel gave: a fill of another order is
/// passed over, and `None` says that the channel is closed.
pub fn fill_wait(received: Option<VenueFill>, client_order_id: &ClientOrderId) -> (r: Wait<
    VenueFill,
>)
    ensures
        match received {
            None => r matches Wait::Failed(why) && why@ == "fill channel closed while waiting for "@
                + client_order_id@,
            Some(fill) => if fill.client_order_id@ == client_order_id@ {
                r == Wait::Done(fill)
            } else {
                r is Again
            },
        },
{
    match received {
        None => Wait::Failed(
            joined("fill channel closed while waiting for ", client_order_id.0.as_str()),
        ),
        Some(fill) => if fill.client_order_id.same(client_order_id) {
            Wait::Done(fill)
        } else {
            Wait::Again
        },
    }
}

} // verus!
