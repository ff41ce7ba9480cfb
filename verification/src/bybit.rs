//! The Bybit adapter: translation between the engine and the exchange, and the decisions
//! that the connection tasks follow.
//!
//! Requests, replies and stream messages arrive as plain records; sending and receiving
//! them is left to the caller.

use crate::decimal::{
    decimal_parsed, num, num_neg, num_normalized, num_sub, num_text, num_zero, Decimal, Num,
};
use crate::gateway::{
    side_text, GatewayError, GatewayFault, OrderSubmission, VenueBalance, VenueCapabilities,
    VenueFill, VenueOpenOrder, VenueOrderAck, VenuePosition,
};
use crate::ids::{ClientOrderId, InstrumentId, MarketId, VenueId, VenueOrderId};
use crate::market_data::{book_fault, fault_text, OrderbookSnapshot, PriceLevel};
use crate::pipeline::{order_type_text, OrderState, OrderType, TimeInForce};
use crate::sealed::Sealed;
use crate::signal::Side;
use crate::signing::{sign_hmac, signature, ApiSecret};
use crate::table::Table;
use crate::text::{
    begins_with, int_text, joined, joined3, joined4, lowered, lowered_text, occurs, contains_text,
    same_text, signed_text, starts_with_text,
};
use crate::time::{Duration, Timestamp, MAX_UTC_MILLIS, MIN_UTC_MILLIS, NANOS_PER_MILLI, NANOS_PER_SECOND};
use crate::venue::{connection_state_text, ConnectionState, TimeoutPolicy, VenueConnectionHealth};
use vstd::prelude::*;

verus! {

/// Fills that may wait for a subscriber.
pub const DEFAULT_FILL_CHANNEL_CAPACITY: usize = 64;

/// How long a signed request stays valid, in milliseconds.
pub const DEFAULT_RECV_WINDOW_MS: u64 = 5_000;

/// Credentials for the exchange.
#[derive(Clone)]
pub struct BybitAuth {
    pub api_key: String,
    pub api_secret: ApiSecret,
}

/// Configuration of the adapter.
#[derive(Clone)]
pub struct BybitConfig {
    pub venue_id: VenueId,
    pub testnet: bool,
    pub auth: BybitAuth,
    pub timeout_policy: TimeoutPolicy,
    pub rest_timeout: Duration,
    pub recv_window_ms: u64,
    pub fill_channel_capacity: usize,
    pub orderbook_markets: Vec<MarketId>,
    pub enable_private_stream: bool,
    pub enable_public_stream: bool,
}

impl BybitConfig {
    /// The default configuration for an environment.
    #[must_use]
    pub fn new(testnet: bool, auth: BybitAuth) -> (r: BybitConfig)
        ensures
            r.venue_id@ == "bybit"@,
            r.testnet == testnet,
            r.auth == auth,
            r.timeout_policy.submit_order@ == 5 * NANOS_PER_SECOND,
            r.timeout_policy.cancel_order@ == 5 * NANOS_PER_SECOND,
            r.timeout_policy.amend_order@ == 5 * NANOS_PER_SECOND,
            r.timeout_policy.query_positions@ == 5 * NANOS_PER_SECOND,
            r.timeout_policy.query_balance@ == 5 * NANOS_PER_SECOND,
            r.timeout_policy.query_orders@ == 5 * NANOS_PER_SECOND,
            r.timeout_policy.fill_watchdog@ == 60 * NANOS_PER_SECOND,
            r.rest_timeout@ == 5 * NANOS_PER_SECOND,
            r.recv_window_ms == DEFAULT_RECV_WINDOW_MS,
            r.fill_channel_capacity == DEFAULT_FILL_CHANNEL_CAPACITY,
            r.orderbook_markets@.len() == 0,
            r.enable_private_stream,
            r.enable_public_stream,
    {
        BybitConfig {
            venue_id: VenueId("bybit".to_owned()),
            testnet,
            auth,
            timeout_policy: TimeoutPolicy {
                submit_order: Duration::from_secs(5),
                cancel_order: Duration::from_secs(5),
                amend_order: Duration::from_secs(5),
                query_positions: Duration::from_secs(5),
                query_balance: Duration::from_secs(5),
                query_orders: Duration::from_secs(5),
                fill_watchdog: Duration::from_secs(60),
            },
            rest_timeout: Duration::from_secs(5),
            recv_window_ms: DEFAULT_RECV_WINDOW_MS,
            fill_channel_capacity: DEFAULT_FILL_CHANNEL_CAPACITY,
            orderbook_markets: Vec::new(),
            enable_private_stream: true,
            enable_public_stream: true,
        }
    }

    /// The base address of requests.
    #[must_use]
    pub fn rest_base_url(&self) -> (r: &'static str)
        ensures
            r@ == (if self.testnet {
                "https://api-testnet.bybit.com"@
            } else {
                "https://api.bybit.com"@
            }),
    {
        if self.testnet {
            "https://api-testnet.bybit.com"
        } else {
            "https://api.bybit.com"
        }
    }

    /// The address of the private stream.
    #[must_use]
    pub fn private_ws_url(&self) -> (r: &'static str)
        ensures
            r@ == (if self.testnet {
                "wss://stream-testnet.bybit.com/v5/private"@
            } else {
                "wss://stream.bybit.com/v5/private"@
            }),
    {
        if self.testnet {
            "wss://stream-testnet.bybit.com/v5/private"
        } else {
            "wss://stream.bybit.com/v5/private"
        }
    }

    /// The address of the public stream.
    #[must_use]
    pub fn public_linear_ws_url(&self) -> (r: &'static str)
        ensures
            r@ == (if self.testnet {
                "wss://stream-testnet.bybit.com/v5/public/linear"@
            } else {
                "wss://stream.bybit.com/v5/public/linear"@
            }),
    {
        if self.testnet {
            "wss://stream-testnet.bybit.com/v5/public/linear"
        } else {
            "wss://stream.bybit.com/v5/public/linear"
        }
    }
}

// ─── Errors of requests ───

/// Why a request failed.
#[derive(Debug)]
pub enum BybitRestError {
    DuplicateClientOrderId,
    OrderNotFound,
    Validation(String),
    VenueRejected(String),
    /// The request or its reply did not get through, with the reason.
    Transport(String),
}

/// The content of a [`BybitRestError`].
pub enum RestFault {
    DuplicateClientOrderId,
    OrderNotFound,
    Validation(Seq<char>),
    VenueRejected(Seq<char>),
    Transport(Seq<char>),
}

impl View for BybitRestError {
    type V = RestFault;

    open spec fn view(&self) -> RestFault {
        match *self {
            BybitRestError::DuplicateClientOrderId => RestFault::DuplicateClientOrderId,
            BybitRestError::OrderNotFound => RestFault::OrderNotFound,
            BybitRestError::Validation(why) => RestFault::Validation(why@),
            BybitRestError::VenueRejected(why) => RestFault::VenueRejected(why@),
            BybitRestError::Transport(why) => RestFault::Transport(why@),
        }
    }
}

/// The text of a failed request.
pub open spec fn rest_fault_text(f: RestFault) -> Seq<char> {
    match f {
        RestFault::DuplicateClientOrderId => "duplicate client order id"@,
        RestFault::OrderNotFound => "order not found"@,
        RestFault::Validation(why) => "validation failed: "@ + why,
        RestFault::VenueRejected(why) => "venue rejected request: "@ + why,
        RestFault::Transport(why) => why,
    }
}

/// The gateway's view of a failed request.
pub open spec fn gateway_fault(f: RestFault) -> GatewayFault {
    match f {
        RestFault::DuplicateClientOrderId => GatewayFault::VenueRejected {
            reason: "duplicate client order id rejected by bybit"@,
        },
        RestFault::OrderNotFound => GatewayFault::OrderNotFound("bybit order"@),
        RestFault::Validation(why) => GatewayFault::Validation(why),
        RestFault::VenueRejected(reason) => GatewayFault::VenueRejected { reason },
        RestFault::Transport(why) => GatewayFault::Internal(why),
    }
}

/// What an error code and message of the exchange mean.
pub open spec fn classified(code: i32, message: Seq<char>) -> RestFault {
    if code == 10001 {
        RestFault::Validation("bybit rejected the request parameters"@)
    } else if code == 10014 || code == 110072 {
        RestFault::DuplicateClientOrderId
    } else if code == 110001 {
        RestFault::OrderNotFound
    } else if code == 110003 {
        RestFault::Validation("bybit rejected the order price"@)
    } else if code == 10006 {
        RestFault::VenueRejected("bybit rate limit exceeded"@)
    } else if occurs(lowered(message), "duplicate"@) {
        RestFault::DuplicateClientOrderId
    } else {
        RestFault::VenueRejected(
            "bybit api error "@ + int_text(code as int) + ": request was rejected"@,
        )
    }
}

impl BybitRestError {
    /// The error as text.
    pub fn text(&self) -> (r: String)
        ensures
            r@ == rest_fault_text(self@),
    {
        match self {
            BybitRestError::DuplicateClientOrderId => "duplicate client order id".to_owned(),
            BybitRestError::OrderNotFound => "order not found".to_owned(),
            BybitRestError::Validation(why) => joined("validation failed: ", why.as_str()),
            BybitRestError::VenueRejected(why) => joined("venue rejected request: ", why.as_str()),
            BybitRestError::Transport(why) => why.clone(),
        }
    }

    /// The gateway's view of the error.
    pub fn into_gateway(self) -> (r: GatewayError)
        ensures
            r@ == gateway_fault(self@),
    {
        match self {
            BybitRestError::DuplicateClientOrderId => GatewayError::VenueRejected {
                reason: "duplicate client order id rejected by bybit".to_owned(),
            },
            BybitRestError::OrderNotFound => GatewayError::OrderNotFound("bybit order".to_owned()),
            BybitRestError::Validation(reason) => GatewayError::Validation(reason),
            BybitRestError::VenueRejected(reason) => GatewayError::VenueRejected { reason },
            BybitRestError::Transport(why) => GatewayError::Internal(why),
        }
    }
}

/// What an error code and message of the exchange mean.
pub fn classify_bybit_error(code: i32, message: &str) -> (r: BybitRestError)
    ensures
        r@ == classified(code, message@),
{
    if code == 10001 {
        return BybitRestError::Validation("bybit rejected the request parameters".to_owned());
    }
    if code == 10014 || code == 110072 {
        return BybitRestError::DuplicateClientOrderId;
    }
    if code == 110001 {
        return BybitRestError::OrderNotFound;
    }
    if code == 110003 {
        return BybitRestError::Validation("bybit rejected the order price".to_owned());
    }
    if code == 10006 {
        return BybitRestError::VenueRejected("bybit rate limit exceeded".to_owned());
    }
    if contains_text(lowered_text(message).as_str(), "duplicate") {
        return BybitRestError::DuplicateClientOrderId;
    }
    BybitRestError::VenueRejected(
        joined3(
            "bybit api error ",
            signed_text(code as i64).as_str(),
            ": request was rejected",
        ),
    )
}

// ─── Records ───

/// A request to create an order.
#[derive(Debug)]
pub struct BybitCreateOrderRequest {
    pub category: String,
    pub symbol: String,
    pub side: String,
    pub order_type: String,
    pub qty: String,
    pub price: Option<String>,
    pub trigger_price: Option<String>,
    pub time_in_force: String,
    pub order_link_id: String,
    pub reduce_only: bool,
}

/// The content of a [`BybitCreateOrderRequest`].
pub struct OrderRequest {
    pub category: Seq<char>,
    pub symbol: Seq<char>,
    pub side: Seq<char>,
    pub order_type: Seq<char>,
    pub qty: Seq<char>,
    pub price: Option<Seq<char>>,
    pub trigger_price: Option<Seq<char>>,
    pub time_in_force: Seq<char>,
    pub order_link_id: Seq<char>,
    pub reduce_only: bool,
}

/// The text held by an optional string.
pub open spec fn opt_text(s: Option<String>) -> Option<Seq<char>> {
    match s {
        Some(x) => Some(x@),
        None => None,
    }
}

impl View for BybitCreateOrderRequest {
    type V = OrderRequest;

    open spec fn view(&self) -> OrderRequest {
        OrderRequest {
            category: self.category@,
            symbol: self.symbol@,
            side: self.side@,
            order_type: self.order_type@,
            qty: self.qty@,
            price: opt_text(self.price),
            trigger_price: opt_text(self.trigger_price),
            time_in_force: self.time_in_force@,
            order_link_id: self.order_link_id@,
            reduce_only: self.reduce_only,
        }
    }
}

/// The reply to a request to create an order.
#[derive(Debug)]
pub struct BybitCreateOrderResult {
    pub order_id: String,
}

/// A request to cancel an order.
#[derive(Debug)]
pub struct BybitCancelOrderRequest {
    pub category: String,
    pub symbol: String,
    pub order_id: String,
    pub order_link_id: Option<String>,
}

/// An order as the exchange reports it.
#[derive(Debug)]
pub struct BybitOrderRecord {
    pub order_id: String,
    pub order_link_id: Option<String>,
    pub symbol: String,
    pub price: Decimal,
    pub qty: Decimal,
    pub side: String,
    pub order_status: String,
    pub cum_exec_qty: Decimal,
    pub created_time: i64,
}

/// A position as the exchange reports it.
#[derive(Debug)]
pub struct BybitPositionRecord {
    pub symbol: String,
    pub side: String,
    pub size: Decimal,
    pub avg_price: Decimal,
    pub position_value: Decimal,
    pub unrealised_pnl: Decimal,
}

/// An account balance as the exchange reports it.
#[derive(Debug, Clone, Copy)]
pub struct BybitBalanceRecord {
    pub total_equity: Decimal,
    pub total_available_balance: Decimal,
    pub total_margin_balance: Decimal,
    pub total_perp_upl: Decimal,
}

/// What every stream message may carry.
#[derive(Debug)]
pub struct BybitWsControlEnvelope {
    pub topic: Option<String>,
    pub op: Option<String>,
    pub success: Option<bool>,
    pub ret_msg: Option<String>,
}

/// One execution of the private stream.
#[derive(Debug)]
pub struct BybitExecutionRecord {
    pub symbol: String,
    pub order_id: String,
    pub order_link_id: String,
    pub side: String,
    pub exec_qty: Decimal,
    pub exec_price: Decimal,
    pub exec_fee: Decimal,
    pub exec_time: i64,
    pub is_maker: bool,
}

/// One orderbook of the public stream, with prices and quantities as text.
#[derive(Debug)]
pub struct BybitOrderbookData {
    pub symbol: String,
    pub bids: Vec<(String, String)>,
    pub asks: Vec<(String, String)>,
    pub ts: i64,
}

// ─── Translation ───

/// What is wrong with a submission to the adapter of a venue.
pub open spec fn submission_fault(venue: Seq<char>, submission: OrderSubmission) -> Option<
    GatewayFault,
> {
    if submission.venue_id@ != venue {
        Some(
            GatewayFault::Validation(
                "bybit adapter "@ + venue + " cannot accept order for venue "@
                    + submission.venue_id@,
            ),
        )
    } else if submission.order_type is TrailingStop {
        Some(
            GatewayFault::Unsupported(
                "bybit adapter does not support order type "@ + order_type_text(
                    submission.order_type,
                ),
            ),
        )
    } else if submission.time_in_force is GTD {
        Some(GatewayFault::Unsupported("bybit adapter does not support GTD orders"@))
    } else if (submission.order_type is Limit || submission.order_type is StopLimit)
        && submission.price is None {
        Some(GatewayFault::Validation("limit-style bybit orders require price"@))
    } else if (submission.order_type is StopMarket || submission.order_type is StopLimit)
        && submission.trigger_price is None {
        Some(GatewayFault::Validation("conditional bybit orders require trigger_price"@))
    } else {
        None
    }
}

/// A number as the exchange takes it: without trailing zeros.
pub open spec fn plain_text(n: Num) -> Seq<char> {
    num_text(num_normalized(n))
}

/// An optional number as the exchange takes it.
pub open spec fn opt_plain_text(d: Option<Decimal>) -> Option<Seq<char>> {
    match d {
        Some(x) => Some(plain_text(x@)),
        None => None,
    }
}

/// The exchange's request for a submission.
pub open spec fn translated(submission: OrderSubmission) -> Result<OrderRequest, GatewayFault> {
    if submission.order_type is TrailingStop {
        Err(
            GatewayFault::Unsupported(
                "bybit adapter does not support order type "@ + order_type_text(
                    submission.order_type,
                ),
            ),
        )
    } else if !submission.post_only && submission.time_in_force is GTD {
        Err(GatewayFault::Unsupported("bybit adapter does not support GTD orders"@))
    } else {
        Ok(
            OrderRequest {
                category: "linear"@,
                symbol: submission.market_id@,
                side: side_text(submission.side),
                order_type: if submission.order_type is Market
                    || submission.order_type is StopMarket {
                    "Market"@
                } else {
                    "Limit"@
                },
                qty: plain_text(submission.qty@),
                price: opt_plain_text(submission.price),
                trigger_price: opt_plain_text(submission.trigger_price),
                time_in_force: if submission.post_only {
                    "PostOnly"@
                } else {
                    match submission.time_in_force {
                        TimeInForce::GTC => "GTC"@,
                        TimeInForce::IOC => "IOC"@,
                        _ => "FOK"@,
                    }
                },
                order_link_id: submission.client_order_id@,
                reduce_only: submission.reduce_only,
            },
        )
    }
}

fn unsupported_order_type(order_type: OrderType) -> (r: GatewayError)
    ensures
        r@ == GatewayFault::Unsupported(
            "bybit adapter does not support order type "@ + order_type_text(order_type),
        ),
{
    GatewayError::Unsupported(
        joined("bybit adapter does not support order type ", order_type.text()),
    )
}

fn unsupported_gtd() -> (r: GatewayError)
    ensures
        r@ == GatewayFault::Unsupported("bybit adapter does not support GTD orders"@),
{
    GatewayError::Unsupported("bybit adapter does not support GTD orders".to_owned())
}

fn plain_opt(value: Option<Decimal>) -> (r: Option<String>)
    ensures
        opt_text(r) == opt_plain_text(value),
{
    match value {
        Some(d) => Some(d.normalize().text()),
        None => None,
    }
}

/// The exchange's request for a submission.
pub fn translate_submission(submission: &OrderSubmission) -> (r: Result<
    BybitCreateOrderRequest,
    GatewayError,
>)
    ensures
        match (r, translated(*submission)) {
            (Ok(request), Ok(expected)) => request@ == expected,
            (Err(e), Err(f)) => e@ == f,
            _ => false,
        },
{
    let order_type = match submission.order_type {
        OrderType::Market | OrderType::StopMarket => "Market",
        OrderType::Limit | OrderType::StopLimit => "Limit",
        OrderType::TrailingStop => {
            return Err(unsupported_order_type(submission.order_type));
        },
    };
    let time_in_force = if submission.post_only {
        "PostOnly"
    } else {
        match submission.time_in_force {
            TimeInForce::GTC => "GTC",
            TimeInForce::IOC => "IOC",
            TimeInForce::FOK => "FOK",
            TimeInForce::GTD { .. } => {
                return Err(unsupported_gtd());
            },
        }
    };
    Ok(
        BybitCreateOrderRequest {
            category: "linear".to_owned(),
            symbol: submission.market_id.text(),
            side: bybit_side(submission.side).to_owned(),
            order_type: order_type.to_owned(),
            qty: submission.qty.normalize().text(),
            price: plain_opt(submission.price),
            trigger_price: plain_opt(submission.trigger_price),
            time_in_force: time_in_force.to_owned(),
            order_link_id: submission.client_order_id.text(),
            reduce_only: submission.reduce_only,
        },
    )
}

/// The exchange's name of a side.
pub fn bybit_side(side: Side) -> (r: &'static str)
    ensures
        r@ == side_text(side),
{
    match side {
        Side::Buy => "Buy",
        Side::Sell => "Sell",
    }
}

/// The side that the exchange names.
pub open spec fn side_of(text: Seq<char>) -> Result<Side, GatewayFault> {
    if text == "Buy"@ {
        Ok(Side::Buy)
    } else if text == "Sell"@ {
        Ok(Side::Sell)
    } else {
        Err(GatewayFault::Validation("unknown bybit side "@ + text))
    }
}

/// The side that the exchange names.
pub fn parse_bybit_side(side: &str) -> (r: Result<Side, GatewayError>)
    ensures
        match (r, side_of(side@)) {
            (Ok(s), Ok(expected)) => s == expected,
            (Err(e), Err(f)) => e@ == f,
            _ => false,
        },
{
    if same_text(side, "Buy") {
        Ok(Side::Buy)
    } else if same_text(side, "Sell") {
        Ok(Side::Sell)
    } else {
        Err(GatewayError::Validation(joined("unknown bybit side ", side)))
    }
}

/// A position's size with the sign of its side; an empty side is no position.
pub open spec fn signed_size(side: Seq<char>, size: Num) -> Result<Num, GatewayFault> {
    if side == "Buy"@ {
        Ok(size)
    } else if side == "Sell"@ {
        Ok(num_neg(size))
    } else if side == ""@ {
        Ok(num_zero())
    } else {
        Err(GatewayFault::Validation("unknown bybit position side "@ + side))
    }
}

/// A position's size with the sign of its side.
pub fn signed_position_qty(side: &str, size: Decimal) -> (r: Result<Decimal, GatewayError>)
    ensures
        match (r, signed_size(side@, size@)) {
            (Ok(d), Ok(n)) => d@ == n,
            (Err(e), Err(f)) => e@ == f,
            _ => false,
        },
{
    if same_text(side, "Buy") {
        Ok(size)
    } else if same_text(side, "Sell") {
        Ok(size.negated())
    } else if same_text(side, "") {
        Ok(Decimal::zero())
    } else {
        Err(GatewayError::Validation(joined("unknown bybit position side ", side)))
    }
}

/// The state that the exchange's order status stands for.
pub open spec fn order_state_of(status: Seq<char>) -> OrderState {
    if status == "New"@ || status == "Untriggered"@ {
        OrderState::Accepted
    } else if status == "PartiallyFilled"@ {
        OrderState::PartiallyFilled
    } else if status == "Filled"@ {
        OrderState::Filled
    } else if status == "Cancelled"@ || status == "PartiallyFilledCanceled"@ || status
        == "Deactivated"@ {
        OrderState::Cancelled
    } else if status == "Rejected"@ {
        OrderState::Rejected
    } else {
        OrderState::Submitted
    }
}

/// The state that the exchange's order status stands for.
pub fn parse_bybit_order_state(status: &str) -> (r: OrderState)
    ensures
        r == order_state_of(status@),
{
    if same_text(status, "New") || same_text(status, "Untriggered") {
        OrderState::Accepted
    } else if same_text(status, "PartiallyFilled") {
        OrderState::PartiallyFilled
    } else if same_text(status, "Filled") {
        OrderState::Filled
    } else if same_text(status, "Cancelled") || same_text(status, "PartiallyFilledCanceled")
        || same_text(status, "Deactivated") {
        OrderState::Cancelled
    } else if same_text(status, "Rejected") {
        OrderState::Rejected
    } else {
        OrderState::Submitted
    }
}

/// The number that a text of the exchange denotes.
pub open spec fn parsed_decimal(value: Seq<char>) -> Result<Num, GatewayFault> {
    match decimal_parsed(value) {
        Ok((m, s)) => Ok(num(m, s)),
        Err(why) => Err(
            GatewayFault::Validation("invalid bybit decimal "@ + value + ": "@ + why),
        ),
    }
}

/// The number that a text of the exchange denotes.
pub fn parse_decimal(value: &str) -> (r: Result<Decimal, GatewayError>)
    ensures
        match (r, parsed_decimal(value@)) {
            (Ok(d), Ok(n)) => d@ == n,
            (Err(e), Err(f)) => e@ == f,
            _ => false,
        },
{
    match Decimal::parse(value) {
        Ok(d) => Ok(d),
        Err(why) => Err(
            GatewayError::Validation(
                joined4("invalid bybit decimal ", value, ": ", why.as_str()),
            ),
        ),
    }
}

/// The time that a count of milliseconds stands for, as nanoseconds.
pub open spec fn time_of_millis(value: i64) -> Result<int, GatewayFault> {
    if MIN_UTC_MILLIS <= value <= MAX_UTC_MILLIS {
        Ok(value * NANOS_PER_MILLI)
    } else {
        Err(
            GatewayFault::Validation("invalid millisecond timestamp "@ + int_text(value as int)),
        )
    }
}

/// The time that a count of milliseconds stands for.
pub fn millis_to_datetime(value: i64) -> (r: Result<Timestamp, GatewayError>)
    ensures
        match (r, time_of_millis(value)) {
            (Ok(t), Ok(n)) => t@ == n,
            (Err(e), Err(f)) => e@ == f,
            _ => false,
        },
{
    match Timestamp::from_utc_millis(value) {
        Some(t) => Ok(t),
        None => Err(
            GatewayError::Validation(
                joined("invalid millisecond timestamp ", signed_text(value).as_str()),
            ),
        ),
    }
}

/// One level of a book: price and quantity.
pub struct Level {
    pub price: Num,
    pub qty: Num,
}

/// A level of a book from its two texts.
pub open spec fn parsed_level(texts: (String, String)) -> Result<Level, GatewayFault> {
    match parsed_decimal(texts.0@) {
        Ok(price) => match parsed_decimal(texts.1@) {
            Ok(qty) => Ok(Level { price, qty }),
            Err(f) => Err(f),
        },
        Err(f) => Err(f),
    }
}

/// The levels of a book side; the fault of the first level that has one.
pub open spec fn parsed_levels(texts: Seq<(String, String)>) -> Result<Seq<Level>, GatewayFault>
    decreases texts.len(),
{
    if texts.len() == 0 {
        Ok(seq![])
    } else {
        match parsed_levels(texts.drop_last()) {
            Ok(before) => match parsed_level(texts.last()) {
                Ok(level) => Ok(before.push(level)),
                Err(f) => Err(f),
            },
            Err(f) => Err(f),
        }
    }
}

/// The levels of a list of book levels.
pub open spec fn level_views(s: Seq<PriceLevel>) -> Seq<Level> {
    s.map_values(|l: PriceLevel| Level { price: l.price@, qty: l.qty@ })
}

/// A fault among the leading levels is the fault of all.
proof fn lemma_leading_level_fault(texts: Seq<(String, String)>, n: int)
    requires
        0 <= n <= texts.len(),
        parsed_levels(texts.take(n)) is Err,
    ensures
        parsed_levels(texts) == parsed_levels(texts.take(n)),
    decreases texts.len(),
{
    if n < texts.len() {
        assert(texts.drop_last().take(n) =~= texts.take(n));
        lemma_leading_level_fault(texts.drop_last(), n);
    } else {
        assert(texts.take(n) =~= texts);
    }
}

/// The levels of a book side.
pub fn parse_price_levels(levels: &Vec<(String, String)>) -> (r: Result<
    Vec<PriceLevel>,
    GatewayError,
>)
    ensures
        match (r, parsed_levels(levels@)) {
            (Ok(list), Ok(expected)) => level_views(list@) == expected,
            (Err(e), Err(f)) => e@ == f,
            _ => false,
        },
{
    let mut list: Vec<PriceLevel> = Vec::new();
    let mut i: usize = 0;
    assert(level_views(list@) =~= seq![]);
    while i < levels.len()
        invariant
            i <= levels@.len(),
            parsed_levels(levels@.take(i as int)) == Ok::<Seq<Level>, GatewayFault>(
                level_views(list@),
            ),
        decreases levels@.len() - i,
    {
        assert(levels@.take(i + 1).drop_last() =~= levels@.take(i as int));
        let price = match parse_decimal(levels[i].0.as_str()) {
            Ok(d) => d,
            Err(e) => {
                proof {
                    lemma_leading_level_fault(levels@, i + 1);
                }
                return Err(e);
            },
        };
        let qty = match parse_decimal(levels[i].1.as_str()) {
            Ok(d) => d,
            Err(e) => {
                proof {
                    lemma_leading_level_fault(levels@, i + 1);
                }
                return Err(e);
            },
        };
        let ghost before = list@;
        list.push(PriceLevel { price, qty });
        assert(level_views(list@) =~= level_views(before).push(
            Level { price: price@, qty: qty@ },
        ));
        i = i + 1;
    }
    assert(levels@.take(i as int) =~= levels@);
    Ok(list)
}

// ─── Requests ───

/// The parameters of a query, each as `key=value`, joined by ampersands.
pub open spec fn query_text(query: Seq<(&str, String)>) -> Seq<char>
    decreases query.len(),
{
    if query.len() == 0 {
        seq![]
    } else {
        let last = query.last().0@ + "="@ + query.last().1@;
        if query.len() == 1 {
            last
        } else {
            query_text(query.drop_last()) + "&"@ + last
        }
    }
}

/// The parameters of a query as text.
pub fn query_string(query: &Vec<(&str, String)>) -> (r: String)
    ensures
        r@ == query_text(query@),
{
    let mut s = String::new();
    let mut i: usize = 0;
    assert(s@ =~= query_text(query@.take(0)));
    while i < query.len()
        invariant
            i <= query@.len(),
            s@ == query_text(query@.take(i as int)),
        decreases query@.len() - i,
    {
        let ghost part = query@.take(i + 1);
        assert(part.drop_last() =~= query@.take(i as int));
        let pair = joined3(query[i].0, "=", query[i].1.as_str());
        if i == 0 {
            s = pair;
        } else {
            s = joined3(s.as_str(), "&", pair.as_str());
        }
        i = i + 1;
    }
    assert(query@.take(i as int) =~= query@);
    s
}

/// What the exchange answered: the result where the code is zero, the classified error
/// otherwise.
pub fn unwrap_envelope<T>(ret_code: i32, ret_msg: &str, result: T) -> (r: Result<T, BybitRestError>)
    ensures
        if ret_code == 0 {
            r == Ok::<T, BybitRestError>(result)
        } else {
            r matches Err(e) && e@ == classified(ret_code, ret_msg@)
        },
{
    if ret_code != 0 {
        return Err(classify_bybit_error(ret_code, ret_msg));
    }
    Ok(result)
}

/// Where orders are created.
pub fn create_order_path() -> (r: &'static str)
    ensures
        r@ == "/v5/order/create"@,
{
    "/v5/order/create"
}

/// Where orders are cancelled.
pub fn cancel_order_path() -> (r: &'static str)
    ensures
        r@ == "/v5/order/cancel"@,
{
    "/v5/order/cancel"
}

/// A question to the exchange: where it goes, and its parameters.
#[derive(Debug)]
pub struct RestQuery {
    pub path: &'static str,
    pub parameters: Vec<(&'static str, String)>,
}

/// The parameters of a question as text.
pub open spec fn parameter_texts(q: RestQuery) -> Seq<(Seq<char>, Seq<char>)> {
    Seq::new(q.parameters@.len(), |i: int| (q.parameters@[i].0@, q.parameters@[i].1@))
}

/// Asks for an order by the identifier that it was sent with.
pub fn order_by_link_id_query(market_id: &MarketId, client_order_id: &ClientOrderId) -> (r:
    RestQuery)
    ensures
        r.path@ == "/v5/order/realtime"@,
        parameter_texts(r) == seq![
            ("category"@, "linear"@),
            ("symbol"@, market_id@),
            ("orderLinkId"@, client_order_id@),
            ("openOnly"@, "0"@),
            ("limit"@, "1"@),
        ],
{
    let r = RestQuery {
        path: "/v5/order/realtime",
        parameters: vec![
            ("category", "linear".to_owned()),
            ("symbol", market_id.text()),
            ("orderLinkId", client_order_id.text()),
            ("openOnly", "0".to_owned()),
            ("limit", "1".to_owned()),
        ],
    };
    assert(parameter_texts(r) =~= seq![
        ("category"@, "linear"@),
        ("symbol"@, market_id@),
        ("orderLinkId"@, client_order_id@),
        ("openOnly"@, "0"@),
        ("limit"@, "1"@),
    ]);
    r
}

/// Asks for the positions that settle in USDT.
pub fn positions_query() -> (r: RestQuery)
    ensures
        r.path@ == "/v5/position/list"@,
        parameter_texts(r) == seq![("category"@, "linear"@), ("settleCoin"@, "USDT"@)],
{
    let r = RestQuery {
        path: "/v5/position/list",
        parameters: vec![("category", "linear".to_owned()), ("settleCoin", "USDT".to_owned())],
    };
    assert(parameter_texts(r) =~= seq![("category"@, "linear"@), ("settleCoin"@, "USDT"@)]);
    r
}

/// Asks for the open orders, fifty at most.
pub fn open_orders_query() -> (r: RestQuery)
    ensures
        r.path@ == "/v5/order/realtime"@,
        parameter_texts(r) == seq![
            ("category"@, "linear"@),
            ("openOnly"@, "0"@),
            ("limit"@, "50"@),
        ],
{
    let r = RestQuery {
        path: "/v5/order/realtime",
        parameters: vec![
            ("category", "linear".to_owned()),
            ("openOnly", "0".to_owned()),
            ("limit", "50".to_owned()),
        ],
    };
    assert(parameter_texts(r) =~= seq![
        ("category"@, "linear"@),
        ("openOnly"@, "0"@),
        ("limit"@, "50"@),
    ]);
    r
}

/// Asks for the balance of the unified account.
pub fn balance_query() -> (r: RestQuery)
    ensures
        r.path@ == "/v5/account/wallet-balance"@,
        parameter_texts(r) == seq![("accountType"@, "UNIFIED"@)],
{
    let r = RestQuery {
        path: "/v5/account/wallet-balance",
        parameters: vec![("accountType", "UNIFIED".to_owned())],
    };
    assert(parameter_texts(r) =~= seq![("accountType"@, "UNIFIED"@)]);
    r
}

/// The first order of an answer, if there is any.
pub fn first_order(list: Vec<BybitOrderRecord>) -> (r: Option<BybitOrderRecord>)
    ensures
        r == (if list@.len() > 0 {
            Some(list@[0])
        } else {
            None
        }),
{
    let mut list = list;
    if list.len() > 0 {
        Some(list.remove(0))
    } else {
        None
    }
}

/// The topics of the private stream: executions, orders and positions.
pub fn private_topics() -> (r: Vec<String>)
    ensures
        r@.len() == 3,
        r@[0]@ == "execution.linear"@,
        r@[1]@ == "order.linear"@,
        r@[2]@ == "position.linear"@,
{
    vec!["execution.linear".to_owned(), "order.linear".to_owned(), "position.linear".to_owned()]
}

/// The request that cancels an order.
pub fn cancel_request(market_id: &MarketId, venue_order_id: &VenueOrderId) -> (r:
    BybitCancelOrderRequest)
    ensures
        r.category@ == "linear"@,
        r.symbol@ == market_id@,
        r.order_id@ == venue_order_id@,
        r.order_link_id is None,
{
    BybitCancelOrderRequest {
        category: "linear".to_owned(),
        symbol: market_id.text(),
        order_id: venue_order_id.text(),
        order_link_id: None,
    }
}

/// The first account of a balance reply.
pub fn first_balance(list: &Vec<BybitBalanceRecord>) -> (r: Result<
    BybitBalanceRecord,
    BybitRestError,
>)
    ensures
        if list@.len() > 0 {
            r == Ok::<BybitBalanceRecord, BybitRestError>(list@[0])
        } else {
            r matches Err(e) && e@ == RestFault::Validation(
                "bybit wallet balance returned no accounts"@,
            )
        },
{
    if list.len() > 0 {
        Ok(list[0])
    } else {
        Err(BybitRestError::Validation("bybit wallet balance returned no accounts".to_owned()))
    }
}

/// When a stream's credentials expire: the window after a time, in milliseconds.
pub open spec fn expiry_millis(now: int, recv_window_ms: u64) -> int {
    now / NANOS_PER_MILLI as int + recv_window_ms
}

/// The credentials that authenticate a private stream: when they expire, and the
/// signature.
pub fn stream_credentials(config: &BybitConfig, now: Timestamp) -> (r: (i64, String))
    requires
        expiry_millis(now@, config.recv_window_ms) <= i64::MAX,
    ensures
        r.0 == expiry_millis(now@, config.recv_window_ms),
        r.1@ == signature(
            config.auth.api_secret@,
            "GET/realtime"@ + int_text(expiry_millis(now@, config.recv_window_ms)),
        ),
{
    let expires: i64 = (now.timestamp_millis() as i128 + config.recv_window_ms as i128) as i64;
    let payload = joined("GET/realtime", signed_text(expires).as_str());
    (expires, sign_hmac(&config.auth.api_secret, payload.as_str()))
}

/// The orderbook topics of a list of markets.
pub open spec fn book_topics(markets: Seq<MarketId>) -> Seq<Seq<char>> {
    markets.map_values(|m: MarketId| "orderbook.1."@ + m@)
}

/// The texts of a list of strings.
pub open spec fn texts(list: Seq<String>) -> Seq<Seq<char>> {
    list.map_values(|s: String| s@)
}

/// The orderbook topics of a list of markets.
pub fn public_topics(markets: &Vec<MarketId>) -> (r: Vec<String>)
    ensures
        texts(r@) == book_topics(markets@),
{
    let mut list: Vec<String> = Vec::new();
    let mut i: usize = 0;
    assert(texts(list@) =~= book_topics(markets@.take(0)));
    while i < markets.len()
        invariant
            i <= markets@.len(),
            texts(list@) == book_topics(markets@.take(i as int)),
        decreases markets@.len() - i,
    {
        let ghost before = list@;
        list.push(joined("orderbook.1.", markets[i].as_str()));
        assert(texts(list@) =~= texts(before).push("orderbook.1."@ + markets@[i as int]@));
        assert(book_topics(markets@.take(i + 1)) =~= book_topics(markets@.take(i as int)).push(
            "orderbook.1."@ + markets@[i as int]@,
        ));
        i = i + 1;
    }
    assert(markets@.take(i as int) =~= markets@);
    list
}

// ─── Rate limit ───

/// A token bucket: a request takes a token; tokens are replenished up to the capacity.
#[derive(Debug)]
pub struct TokenBucket {
    pub capacity: u32,
    pub available_tokens: u32,
}

impl TokenBucket {
    /// A full bucket.
    pub fn new(capacity: u32) -> (r: TokenBucket)
        ensures
            r.capacity == capacity,
            r.available_tokens == capacity,
    {
        TokenBucket { capacity, available_tokens: capacity }
    }

    /// Replenishes the bucket and takes a token, if there is one.
    pub fn acquire(&mut self, replenished: u32) -> (r: bool)
        requires
            old(self).available_tokens + replenished <= u32::MAX,
        ensures
            ({
                let sum = old(self).available_tokens + replenished;
                let filled = if replenished > 0 && sum > old(self).capacity {
                    old(self).capacity as int
                } else {
                    sum
                };
                &&& r == (filled > 0)
                &&& final(self).available_tokens == (if filled > 0 {
                    filled - 1
                } else {
                    0
                })
                &&& final(self).capacity == old(self).capacity
            }),
    {
        if replenished > 0 {
            let sum: u32 = self.available_tokens + replenished;
            self.available_tokens = if sum > self.capacity {
                self.capacity
            } else {
                sum
            };
        }
        if self.available_tokens > 0 {
            self.available_tokens = self.available_tokens - 1;
            true
        } else {
            false
        }
    }
}

// ─── The adapter ───

/// What the adapter remembers.
#[derive(Debug)]
pub struct BybitAdapterState {
    /// Acknowledgments by client order identifier.
    pub idempotency_cache: Table<VenueOrderAck>,
    /// Markets by venue order identifier.
    pub venue_order_markets: Table<MarketId>,
    /// Orderbooks by market.
    pub latest_orderbooks: Table<OrderbookSnapshot>,
}

/// The adapter: its configuration, the health of its connection, and what it remembers.
pub struct BybitAdapter {
    pub config: BybitConfig,
    pub connection_health: VenueConnectionHealth,
    pub capabilities: VenueCapabilities,
    pub state: BybitAdapterState,
    pub private_stream_ready: bool,
}

impl Sealed for BybitAdapter {

}

/// What to do about a submission.
#[derive(Debug)]
pub enum SubmitStep {
    /// Nothing is to be sent; this is the answer.
    Done(Result<VenueOrderAck, GatewayError>),
    /// Send this request.
    Send(BybitCreateOrderRequest),
}

/// What to do about the reply to a request to create an order.
#[derive(Debug)]
pub enum CreatedStep {
    /// This is the answer.
    Done(Result<VenueOrderAck, GatewayError>),
    /// The exchange knows the client order identifier: look the order up.
    LookUp,
}

/// What a private stream message means for the connection.
#[derive(Debug, Clone, Copy, PartialEq, Eq, Structural)]
pub enum PrivateStreamControl {
    Authenticated,
    Subscribed,
    Ignore,
}

/// What kind of private stream message has arrived.
#[derive(Debug)]
pub enum PrivateMessage {
    /// It carries executions.
    Executions,
    /// It carries none; this is what it means for the connection.
    Control(Result<PrivateStreamControl, GatewayError>),
}

/// Whether the adapter is the same but for what it remembers of orders.
pub open spec fn same_setting(a: BybitAdapter, b: BybitAdapter) -> bool {
    &&& a.config == b.config
    &&& a.connection_health == b.connection_health
    &&& a.capabilities == b.capabilities
    &&& a.private_stream_ready == b.private_stream_ready
    &&& a.state.latest_orderbooks == b.state.latest_orderbooks
}

/// Whether an acknowledgment has been recorded for a submission.
pub open spec fn recorded(
    before: BybitAdapter,
    after: BybitAdapter,
    submission: OrderSubmission,
    ack: VenueOrderAck,
) -> bool {
    &&& same_setting(before, after)
    &&& after.state.idempotency_cache@ == before.state.idempotency_cache@.insert(
        submission.client_order_id@,
        ack,
    )
    &&& after.state.venue_order_markets@ == before.state.venue_order_markets@.insert(
        ack.venue_order_id@,
        submission.market_id,
    )
}

/// Whether an acknowledgment is that of a submission accepted under a venue order
/// identifier at a time.
pub open spec fn acknowledges(
    ack: VenueOrderAck,
    submission: OrderSubmission,
    venue_order_id: Seq<char>,
    now: Timestamp,
) -> bool {
    &&& ack.venue_order_id@ == venue_order_id
    &&& ack.client_order_id == submission.client_order_id
    &&& ack.accepted_at == now
}

/// What the adapter decides on a submission.
pub enum SubmitDecision {
    /// Refuse it.
    Refuse(GatewayFault),
    /// Answer with the acknowledgment of the same client order identifier.
    Repeat(VenueOrderAck),
    /// Acknowledge it under a made-up identifier, without sending it.
    Pretend(Seq<char>),
    /// Send it.
    Send(OrderRequest),
}

/// What the adapter decides on a submission: refuse one that is not valid, repeat an
/// earlier answer, pretend for a dry run, refuse while not connected, and send otherwise.
pub open spec fn submit_decision(adapter: BybitAdapter, submission: OrderSubmission) -> SubmitDecision {
    let venue_id = adapter.config.venue_id@;
    let known = adapter.state.idempotency_cache@;
    let client = submission.client_order_id@;
    match submission_fault(venue_id, submission) {
        Some(f) => SubmitDecision::Refuse(f),
        None => if known.contains_key(client) {
            SubmitDecision::Repeat(known[client])
        } else if submission.dry_run {
            SubmitDecision::Pretend("bybit-dryrun-"@ + client)
        } else if !(adapter.connection_health.state is Connected) {
            SubmitDecision::Refuse(
                GatewayFault::VenueNotConnected {
                    venue_id,
                    state: connection_state_text(adapter.connection_health.state),
                },
            )
        } else if adapter.config.enable_private_stream && !adapter.private_stream_ready {
            SubmitDecision::Refuse(
                GatewayFault::VenueNotConnected { venue_id, state: "private stream not ready"@ },
            )
        } else {
            SubmitDecision::Send(translated(submission)->Ok_0)
        },
    }
}

/// The execution as a fill.
pub open spec fn is_fill_of(fill: VenueFill, e: BybitExecutionRecord) -> bool {
    &&& fill.venue_order_id@ == e.order_id@
    &&& fill.client_order_id@ == e.order_link_id@
    &&& fill.instrument_id@ == e.symbol@
    &&& side_of(e.side@) == Ok::<Side, GatewayFault>(fill.side)
    &&& fill.qty == e.exec_qty
    &&& fill.price == e.exec_price
    &&& fill.fee == e.exec_fee
    &&& fill.is_maker == e.is_maker
    &&& time_of_millis(e.exec_time) == Ok::<int, GatewayFault>(fill.filled_at@)
}

/// What is wrong with an execution: its side, else its time.
pub open spec fn execution_fault(e: BybitExecutionRecord) -> Option<GatewayFault> {
    match side_of(e.side@) {
        Err(f) => Some(f),
        Ok(_) => match time_of_millis(e.exec_time) {
            Err(f) => Some(f),
            Ok(_) => None,
        },
    }
}

/// The executions with a quantity.
pub open spec fn real_executions(records: Seq<BybitExecutionRecord>) -> Seq<BybitExecutionRecord>
    decreases records.len(),
{
    if records.len() == 0 {
        seq![]
    } else {
        let before = real_executions(records.drop_last());
        if records.last().exec_qty@.m != 0 {
            before.push(records.last())
        } else {
            before
        }
    }
}

/// The fault of the first execution that has one.
pub open spec fn first_execution_fault(records: Seq<BybitExecutionRecord>) -> Option<GatewayFault>
    decreases records.len(),
{
    if records.len() == 0 {
        None
    } else {
        match first_execution_fault(records.drop_last()) {
            Some(f) => Some(f),
            None => execution_fault(records.last()),
        }
    }
}

/// The markets with those of fills added.
pub open spec fn with_fill_markets(
    markets: Map<Seq<char>, MarketId>,
    records: Seq<BybitExecutionRecord>,
) -> Map<Seq<char>, MarketId>
    decreases records.len(),
{
    if records.len() == 0 {
        markets
    } else {
        with_fill_markets(markets, records.drop_last()).insert(
            records.last().order_id@,
            MarketId(records.last().symbol),
        )
    }
}

/// What a control message means.
pub open spec fn control_meaning(control: BybitWsControlEnvelope) -> Result<
    PrivateStreamControl,
    GatewayFault,
> {
    let message = match control.ret_msg {
        Some(m) => m@,
        None => "request was rejected"@,
    };
    match (control.op, control.success) {
        (Some(op), Some(success)) => if op@ == "auth"@ {
            if success {
                Ok(PrivateStreamControl::Authenticated)
            } else {
                Err(
                    GatewayFault::VenueRejected {
                        reason: "bybit private stream auth failed: "@ + message,
                    },
                )
            }
        } else if op@ == "subscribe"@ {
            if success {
                Ok(PrivateStreamControl::Subscribed)
            } else {
                Err(
                    GatewayFault::VenueRejected {
                        reason: "bybit private stream subscribe failed: "@ + message,
                    },
                )
            }
        } else {
            Ok(PrivateStreamControl::Ignore)
        },
        _ => Ok(PrivateStreamControl::Ignore),
    }
}

/// What a private stream message is: executions, or a control message. A message of
/// another topic is ignored.
pub fn private_message(control: &BybitWsControlEnvelope) -> (r: PrivateMessage)
    ensures
        match control.topic {
            Some(topic) => if begins_with(topic@, "execution"@) {
                r is Executions
            } else {
                r matches PrivateMessage::Control(Ok(c)) && c is Ignore
            },
            None => match (r, control_meaning(*control)) {
                (PrivateMessage::Control(Ok(c)), Ok(expected)) => c == expected,
                (PrivateMessage::Control(Err(e)), Err(f)) => e@ == f,
                _ => false,
            },
        },
{
    if let Some(topic) = &control.topic {
        if starts_with_text(topic.as_str(), "execution") {
            return PrivateMessage::Executions;
        }
        return PrivateMessage::Control(Ok(PrivateStreamControl::Ignore));
    }
    let message = match &control.ret_msg {
        Some(m) => m.clone(),
        None => "request was rejected".to_owned(),
    };
    if let Some(op) = &control.op {
        if let Some(success) = control.success {
            if same_text(op.as_str(), "auth") {
                return PrivateMessage::Control(
                    if success {
                        Ok(PrivateStreamControl::Authenticated)
                    } else {
                        Err(
                            GatewayError::VenueRejected {
                                reason: joined(
                                    "bybit private stream auth failed: ",
                                    message.as_str(),
                                ),
                            },
                        )
                    },
                );
            }
            if same_text(op.as_str(), "subscribe") {
                return PrivateMessage::Control(
                    if success {
                        Ok(PrivateStreamControl::Subscribed)
                    } else {
                        Err(
                            GatewayError::VenueRejected {
                                reason: joined(
                                    "bybit private stream subscribe failed: ",
                                    message.as_str(),
                                ),
                            },
                        )
                    },
                );
            }
        }
    }
    PrivateMessage::Control(Ok(PrivateStreamControl::Ignore))
}

/// Whether a public stream message carries an orderbook; an error where it refuses the
/// subscription.
pub fn public_message(control: &BybitWsControlEnvelope) -> (r: Result<bool, GatewayError>)
    ensures
        match control.topic {
            Some(topic) => r == Ok::<bool, GatewayError>(begins_with(topic@, "orderbook."@)),
            None => if control.op is Some && control.op->0@ == "subscribe"@ && control.success
                == Some(false) {
                r matches Err(e) && e@ == (GatewayFault::VenueRejected {
                    reason: "bybit public stream subscribe failed: "@ + (match control.ret_msg {
                        Some(m) => m@,
                        None => "request was rejected"@,
                    }),
                })
            } else {
                r == Ok::<bool, GatewayError>(false)
            },
        },
{
    if let Some(topic) = &control.topic {
        return Ok(starts_with_text(topic.as_str(), "orderbook."));
    }
    if let Some(op) = &control.op {
        if let Some(success) = control.success {
            if same_text(op.as_str(), "subscribe") && !success {
                let message = match &control.ret_msg {
                    Some(m) => m.clone(),
                    None => "request was rejected".to_owned(),
                };
                return Err(
                    GatewayError::VenueRejected {
                        reason: joined("bybit public stream subscribe failed: ", message.as_str()),
                    },
                );
            }
        }
    }
    Ok(false)
}

/// The error for a private stream message that cannot be read.
pub fn private_payload_error(why: &str) -> (r: GatewayError)
    ensures
        r@ == GatewayFault::Validation("invalid bybit private ws payload: "@ + why@),
{
    GatewayError::Validation(joined("invalid bybit private ws payload: ", why))
}

/// The error for a public stream message that cannot be read.
pub fn public_payload_error(why: &str) -> (r: GatewayError)
    ensures
        r@ == GatewayFault::Validation("invalid bybit public ws payload: "@ + why@),
{
    GatewayError::Validation(joined("invalid bybit public ws payload: ", why))
}

impl BybitAdapter {
    /// An adapter that is not connected and remembers nothing.
    pub fn new(config: BybitConfig) -> (r: BybitAdapter)
        ensures
            r.config == config,
            r.connection_health == (VenueConnectionHealth {
                venue_id: config.venue_id,
                state: ConnectionState::Disconnected,
                last_message_at: None,
                last_heartbeat_at: None,
                heartbeat_latency_ms: None,
                reconnect_count: 0,
                connected_since: None,
            }),
            r.capabilities == (VenueCapabilities {
                venue_id: config.venue_id,
                supports_market_orders: true,
                supports_limit_orders: true,
                supports_stop_market: true,
                supports_stop_limit: true,
                supports_trailing_stop: false,
                supports_oco: false,
                supports_amendment: false,
                supports_reduce_only: true,
                supports_post_only: true,
                max_batch_size: Some(1),
            }),
            r.state.idempotency_cache@ == Map::<Seq<char>, VenueOrderAck>::empty(),
            r.state.venue_order_markets@ == Map::<Seq<char>, MarketId>::empty(),
            r.state.latest_orderbooks@ == Map::<Seq<char>, OrderbookSnapshot>::empty(),
            !r.private_stream_ready,
    {
        let venue_id = config.venue_id.clone();
        BybitAdapter {
            connection_health: VenueConnectionHealth::new(venue_id.clone()),
            capabilities: VenueCapabilities {
                venue_id,
                supports_market_orders: true,
                supports_limit_orders: true,
                supports_stop_market: true,
                supports_stop_limit: true,
                supports_trailing_stop: false,
                supports_oco: false,
                supports_amendment: false,
                supports_reduce_only: true,
                supports_post_only: true,
                max_batch_size: Some(1),
            },
            config,
            state: BybitAdapterState {
                idempotency_cache: Table::new(),
                venue_order_markets: Table::new(),
                latest_orderbooks: Table::new(),
            },
            private_stream_ready: false,
        }
    }

    /// The latest orderbook of a market.
    pub fn latest_orderbook(&self, market_id: &MarketId) -> (r: Option<&OrderbookSnapshot>)
        ensures
            match r {
                Some(book) => self.state.latest_orderbooks@.contains_key(market_id@)
                    && self.state.latest_orderbooks@[market_id@] == *book,
                None => !self.state.latest_orderbooks@.contains_key(market_id@),
            },
    {
        self.state.latest_orderbooks.get(market_id.as_str())
    }

    /// Checks that a submission is one that this adapter can send.
    pub fn validate_submission(&self, submission: &OrderSubmission) -> (r: Result<(), GatewayError>)
        ensures
            match submission_fault(self.config.venue_id@, *submission) {
                Some(f) => r matches Err(e) && e@ == f,
                None => r is Ok,
            },
    {
        if !submission.venue_id.same(&self.config.venue_id) {
            return Err(
                GatewayError::Validation(
                    joined4(
                        "bybit adapter ",
                        self.config.venue_id.as_str(),
                        " cannot accept order for venue ",
                        submission.venue_id.as_str(),
                    ),
                ),
            );
        }
        if submission.order_type == OrderType::TrailingStop {
            return Err(unsupported_order_type(submission.order_type));
        }
        if matches!(submission.time_in_force, TimeInForce::GTD { .. }) {
            return Err(unsupported_gtd());
        }
        if (submission.order_type == OrderType::Limit || submission.order_type
            == OrderType::StopLimit) && submission.price.is_none() {
            return Err(
                GatewayError::Validation("limit-style bybit orders require price".to_owned()),
            );
        }
        if (submission.order_type == OrderType::StopMarket || submission.order_type
            == OrderType::StopLimit) && submission.trigger_price.is_none() {
            return Err(
                GatewayError::Validation(
                    "conditional bybit orders require trigger_price".to_owned(),
                ),
            );
        }
        Ok(())
    }

    /// Records the acknowledgment of a submission.
    fn record(&mut self, submission: &OrderSubmission, ack: &VenueOrderAck)
        ensures
            recorded(*old(self), *final(self), *submission, *ack),
    {
        self.state.venue_order_markets.insert(
            ack.venue_order_id.text(),
            submission.market_id.clone(),
        );
        self.state.idempotency_cache.insert(submission.client_order_id.text(), ack.clone());
    }

    /// First step of a submission: answer it, or send a request.
    pub fn begin_submit(&mut self, submission: &OrderSubmission, now: Timestamp) -> (r: SubmitStep)
        ensures
            match submit_decision(*old(self), *submission) {
                SubmitDecision::Refuse(f) => {
                    &&& r matches SubmitStep::Done(Err(e)) && e@ == f
                    &&& *final(self) == *old(self)
                },
                SubmitDecision::Repeat(known) => {
                    &&& r matches SubmitStep::Done(Ok(ack)) && ack == known
                    &&& *final(self) == *old(self)
                },
                SubmitDecision::Pretend(id) => r matches SubmitStep::Done(Ok(ack))
                    && acknowledges(ack, *submission, id, now) && recorded(
                    *old(self),
                    *final(self),
                    *submission,
                    ack,
                ),
                SubmitDecision::Send(expected) => {
                    &&& r matches SubmitStep::Send(request) && request@ == expected
                    &&& *final(self) == *old(self)
                },
            },
    {
        if let Err(e) = self.validate_submission(submission) {
            return SubmitStep::Done(Err(e));
        }
        if let Some(existing) = self.state.idempotency_cache.get(
            submission.client_order_id.as_str(),
        ) {
            return SubmitStep::Done(Ok(existing.clone()));
        }
        if submission.dry_run {
            let ack = VenueOrderAck {
                venue_order_id: VenueOrderId(
                    joined("bybit-dryrun-", submission.client_order_id.as_str()),
                ),
                client_order_id: submission.client_order_id.clone(),
                accepted_at: now,
            };
            self.record(submission, &ack);
            return SubmitStep::Done(Ok(ack));
        }
        if !self.connection_health.is_submittable() {
            return SubmitStep::Done(
                Err(
                    GatewayError::VenueNotConnected {
                        venue_id: self.config.venue_id.text(),
                        state: self.connection_health.state.debug_text(),
                    },
                ),
            );
        }
        if self.config.enable_private_stream && !self.private_stream_ready {
            return SubmitStep::Done(
                Err(
                    GatewayError::VenueNotConnected {
                        venue_id: self.config.venue_id.text(),
                        state: "private stream not ready".to_owned(),
                    },
                ),
            );
        }
        match translate_submission(submission) {
            Ok(request) => SubmitStep::Send(request),
            Err(e) => SubmitStep::Done(Err(e)),
        }
    }

    /// Records that the exchange accepted a submission.
    fn accept(&mut self, submission: &OrderSubmission, order_id: String, now: Timestamp) -> (r:
        VenueOrderAck)
        ensures
            acknowledges(r, *submission, order_id@, now),
            recorded(*old(self), *final(self), *submission, r),
    {
        let ack = VenueOrderAck {
            venue_order_id: VenueOrderId(order_id),
            client_order_id: submission.client_order_id.clone(),
            accepted_at: now,
        };
        self.record(submission, &ack);
        ack
    }

    /// Second step of a submission: the reply to the request.
    pub fn on_created(
        &mut self,
        submission: &OrderSubmission,
        reply: Result<BybitCreateOrderResult, BybitRestError>,
        now: Timestamp,
    ) -> (r: CreatedStep)
        ensures
            match reply {
                Ok(result) => r matches CreatedStep::Done(Ok(ack)) && acknowledges(
                    ack,
                    *submission,
                    result.order_id@,
                    now,
                ) && recorded(*old(self), *final(self), *submission, ack),
                Err(BybitRestError::DuplicateClientOrderId) => r is LookUp && *final(self)
                    == *old(self),
                Err(e) => {
                    &&& r matches CreatedStep::Done(Err(g)) && g@ == gateway_fault(e@)
                    &&& *final(self) == *old(self)
                },
            },
    {
        match reply {
            Ok(result) => CreatedStep::Done(Ok(self.accept(submission, result.order_id, now))),
            Err(BybitRestError::DuplicateClientOrderId) => CreatedStep::LookUp,
            Err(e) => CreatedStep::Done(Err(e.into_gateway())),
        }
    }

    /// Third step of a submission: the order that the exchange already has.
    pub fn on_looked_up(
        &mut self,
        submission: &OrderSubmission,
        reply: Result<Option<BybitOrderRecord>, BybitRestError>,
        now: Timestamp,
    ) -> (r: Result<VenueOrderAck, GatewayError>)
        ensures
            match reply {
                Ok(Some(order)) => r matches Ok(ack) && acknowledges(
                    ack,
                    *submission,
                    order.order_id@,
                    now,
                ) && recorded(*old(self), *final(self), *submission, ack),
                Ok(None) => {
                    &&& r matches Err(e) && e@ == (GatewayFault::VenueRejected {
                        reason:
                            "bybit reported duplicate client order id but no existing order was returned"@,
                    })
                    &&& *final(self) == *old(self)
                },
                Err(f) => {
                    &&& r matches Err(e) && e@ == gateway_fault(f@)
                    &&& *final(self) == *old(self)
                },
            },
    {
        match reply {
            Ok(Some(order)) => Ok(self.accept(submission, order.order_id, now)),
            Ok(None) => Err(
                GatewayError::VenueRejected {
                    reason:
                        "bybit reported duplicate client order id but no existing order was returned".to_owned(),
                },
            ),
            Err(e) => Err(e.into_gateway()),
        }
    }

    /// The remembered market of a venue order.
    pub fn known_market(&self, venue_order_id: &VenueOrderId) -> (r: Option<MarketId>)
        ensures
            match r {
                Some(m) => self.state.venue_order_markets@.contains_key(venue_order_id@)
                    && self.state.venue_order_markets@[venue_order_id@] == m,
                None => !self.state.venue_order_markets@.contains_key(venue_order_id@),
            },
    {
        match self.state.venue_order_markets.get(venue_order_id.as_str()) {
            Some(m) => Some(m.clone()),
            None => None,
        }
    }

    /// Amendment is not offered.
    pub fn amend_order(
        &self,
        _venue_order_id: &VenueOrderId,
        _new_price: Option<Decimal>,
        _new_qty: Option<Decimal>,
    ) -> (r: Result<VenueOrderAck, GatewayError>)
        ensures
            r matches Err(e) && e@ == GatewayFault::Unsupported(
                "bybit adapter amend_order is not implemented yet"@,
            ),
    {
        Err(
            GatewayError::Unsupported(
                "bybit adapter amend_order is not implemented yet".to_owned(),
            ),
        )
    }

    /// Marks the connection as being set up.
    pub fn begin_connect(&mut self, now: Timestamp)
        ensures
            final(self).config == old(self).config,
            final(self).capabilities == old(self).capabilities,
            final(self).state == old(self).state,
            final(self).connection_health == (VenueConnectionHealth {
                state: ConnectionState::Connecting,
                last_message_at: Some(now),
                ..old(self).connection_health
            }),
            final(self).private_stream_ready == !old(self).config.enable_private_stream,
    {
        self.connection_health.state = ConnectionState::Connecting;
        self.connection_health.last_message_at = Some(now);
        self.private_stream_ready = !self.config.enable_private_stream;
    }

    /// Marks the connection as set up.
    pub fn finish_connect(&mut self, now: Timestamp)
        ensures
            final(self).config == old(self).config,
            final(self).capabilities == old(self).capabilities,
            final(self).state == old(self).state,
            final(self).private_stream_ready == old(self).private_stream_ready,
            final(self).connection_health == (VenueConnectionHealth {
                state: ConnectionState::Connected,
                last_message_at: Some(now),
                last_heartbeat_at: Some(now),
                connected_since: Some(now),
                ..old(self).connection_health
            }),
    {
        self.connection_health.state = ConnectionState::Connected;
        self.connection_health.last_message_at = Some(now);
        self.connection_health.last_heartbeat_at = Some(now);
        self.connection_health.connected_since = Some(now);
    }

    /// Marks the connection as closed.
    pub fn disconnect(&mut self)
        ensures
            final(self).config == old(self).config,
            final(self).capabilities == old(self).capabilities,
            final(self).state == old(self).state,
            !final(self).private_stream_ready,
            final(self).connection_health == (VenueConnectionHealth {
                state: ConnectionState::Disconnected,
                connected_since: None,
                ..old(self).connection_health
            }),
    {
        self.private_stream_ready = false;
        self.connection_health.state = ConnectionState::Disconnected;
        self.connection_health.connected_since = None;
    }
}

// ─── Reports of the exchange ───

/// The positions with a size.
pub open spec fn real_positions(records: Seq<BybitPositionRecord>) -> Seq<BybitPositionRecord>
    decreases records.len(),
{
    if records.len() == 0 {
        seq![]
    } else {
        let before = real_positions(records.drop_last());
        if records.last().size@.m != 0 {
            before.push(records.last())
        } else {
            before
        }
    }
}

/// The fault of the first position that has one.
pub open spec fn first_position_fault(records: Seq<BybitPositionRecord>) -> Option<GatewayFault>
    decreases records.len(),
{
    if records.len() == 0 {
        None
    } else {
        match first_position_fault(records.drop_last()) {
            Some(f) => Some(f),
            None => match signed_size(records.last().side@, records.last().size@) {
                Err(f) => Some(f),
                Ok(_) => None,
            },
        }
    }
}

/// Whether a position is the one that a record reports.
pub open spec fn is_position_of(p: VenuePosition, r: BybitPositionRecord) -> bool {
    &&& p.instrument_id@ == r.symbol@
    &&& signed_size(r.side@, r.size@) == Ok::<Num, GatewayFault>(p.qty@)
    &&& p.avg_entry_price == r.avg_price
    &&& p.unrealized_pnl == r.unrealised_pnl
    &&& p.margin_used == r.position_value
}

/// A fault among the leading positions is the fault of all.
proof fn lemma_leading_position_fault(records: Seq<BybitPositionRecord>, n: int)
    requires
        0 <= n <= records.len(),
        first_position_fault(real_positions(records.take(n))) is Some,
    ensures
        first_position_fault(real_positions(records)) == first_position_fault(
            real_positions(records.take(n)),
        ),
    decreases records.len(),
{
    if n < records.len() {
        assert(records.drop_last().take(n) =~= records.take(n));
        lemma_leading_position_fault(records.drop_last(), n);
        let before = real_positions(records.drop_last());
        assert(before.push(records.last()).drop_last() =~= before);
    } else {
        assert(records.take(n) =~= records);
    }
}

/// The positions that the exchange reports; those without a size are left out.
pub fn positions_from(records: &Vec<BybitPositionRecord>) -> (r: Result<
    Vec<VenuePosition>,
    GatewayError,
>)
    ensures
        ({
            let kept = real_positions(records@);
            match first_position_fault(kept) {
                Some(f) => r matches Err(e) && e@ == f,
                None => r matches Ok(list) && list@.len() == kept.len() && forall|i: int|
                    0 <= i < list@.len() ==> is_position_of(#[trigger] list@[i], kept[i]),
            }
        }),
{
    let mut list: Vec<VenuePosition> = Vec::new();
    let mut i: usize = 0;
    while i < records.len()
        invariant
            i <= records@.len(),
            first_position_fault(real_positions(records@.take(i as int))) is None,
            list@.len() == real_positions(records@.take(i as int)).len(),
            forall|k: int|
                0 <= k < list@.len() ==> is_position_of(
                    #[trigger] list@[k],
                    real_positions(records@.take(i as int))[k],
                ),
        decreases records@.len() - i,
    {
        let ghost before = real_positions(records@.take(i as int));
        assert(records@.take(i + 1).drop_last() =~= records@.take(i as int));
        assert(before.push(records@[i as int]).drop_last() =~= before);
        if !records[i].size.is_zero() {
            let qty = match signed_position_qty(records[i].side.as_str(), records[i].size) {
                Ok(qty) => qty,
                Err(e) => {
                    proof {
                        lemma_leading_position_fault(records@, i + 1);
                    }
                    return Err(e);
                },
            };
            list.push(
                VenuePosition {
                    instrument_id: InstrumentId(records[i].symbol.clone()),
                    qty,
                    avg_entry_price: records[i].avg_price,
                    unrealized_pnl: records[i].unrealised_pnl,
                    margin_used: records[i].position_value,
                },
            );
        }
        i = i + 1;
    }
    assert(records@.take(i as int) =~= records@);
    Ok(list)
}

/// The balance that the exchange reports; what is not available is margin in use.
pub fn balance_from(record: &BybitBalanceRecord, now: Timestamp) -> (r: VenueBalance)
    requires
        num_sub(record.total_margin_balance@, record.total_available_balance@) is Some,
    ensures
        r.total_equity == record.total_equity,
        r.available_balance == record.total_available_balance,
        Some(r.margin_used@) == num_sub(
            record.total_margin_balance@,
            record.total_available_balance@,
        ),
        r.unrealized_pnl == record.total_perp_upl,
        r.as_of == now,
{
    VenueBalance {
        total_equity: record.total_equity,
        available_balance: record.total_available_balance,
        margin_used: record.total_margin_balance.checked_sub(
            record.total_available_balance,
        ).unwrap(),
        unrealized_pnl: record.total_perp_upl,
        as_of: now,
    }
}

/// The balance that the exchange reports, if the margin in use is in range.
pub fn checked_balance_from(record: &BybitBalanceRecord, now: Timestamp) -> (r: Option<
    VenueBalance,
>)
    ensures
        match r {
            Some(b) => {
                &&& b.total_equity == record.total_equity
                &&& b.available_balance == record.total_available_balance
                &&& Some(b.margin_used@) == num_sub(
                    record.total_margin_balance@,
                    record.total_available_balance@,
                )
                &&& b.unrealized_pnl == record.total_perp_upl
                &&& b.as_of == now
            },
            None => num_sub(
                record.total_margin_balance@,
                record.total_available_balance@,
            ) is None,
        },
{
    match record.total_margin_balance.checked_sub(record.total_available_balance) {
        Some(_) => Some(balance_from(record, now)),
        None => None,
    }
}

/// What is wrong with a reported order: its side, else its time.
pub open spec fn order_fault(r: BybitOrderRecord) -> Option<GatewayFault> {
    match side_of(r.side@) {
        Err(f) => Some(f),
        Ok(_) => match time_of_millis(r.created_time) {
            Err(f) => Some(f),
            Ok(_) => None,
        },
    }
}

/// The position of the first faulty order, from an index on; the number of orders where
/// there is none.
pub open spec fn faulty_at(records: Seq<BybitOrderRecord>, from: int) -> int
    decreases records.len() - from,
{
    if from < 0 || from >= records.len() || order_fault(records[from]) is Some {
        from
    } else {
        faulty_at(records, from + 1)
    }
}

/// The markets with those of reported orders added.
pub open spec fn with_order_markets(
    markets: Map<Seq<char>, MarketId>,
    records: Seq<BybitOrderRecord>,
) -> Map<Seq<char>, MarketId>
    decreases records.len(),
{
    if records.len() == 0 {
        markets
    } else {
        with_order_markets(markets, records.drop_last()).insert(
            records.last().order_id@,
            MarketId(records.last().symbol),
        )
    }
}

/// Whether an open order is the one that a record reports.
pub open spec fn is_open_order_of(o: VenueOpenOrder, r: BybitOrderRecord) -> bool {
    &&& o.venue_order_id@ == r.order_id@
    &&& match (o.client_order_id, r.order_link_id) {
        (Some(c), Some(l)) => c@ == l@,
        (None, None) => true,
        _ => false,
    }
    &&& o.instrument_id@ == r.symbol@
    &&& side_of(r.side@) == Ok::<Side, GatewayFault>(o.side)
    &&& o.qty == r.qty
    &&& o.filled_qty == r.cum_exec_qty
    &&& o.price == Some(r.price)
    &&& o.state == order_state_of(r.order_status@)
    &&& time_of_millis(r.created_time) == Ok::<int, GatewayFault>(o.created_at@)
}

/// The market of a venue order among reported open orders.
pub open spec fn open_market(orders: Seq<VenueOpenOrder>, id: Seq<char>, from: int) -> Option<
    Seq<char>,
>
    decreases orders.len() - from,
{
    if from < 0 || from >= orders.len() {
        None
    } else if orders[from].venue_order_id@ == id {
        Some(orders[from].instrument_id@)
    } else {
        open_market(orders, id, from + 1)
    }
}

/// The market of a venue order among reported open orders.
pub fn market_for_venue_order_id(orders: &Vec<VenueOpenOrder>, venue_order_id: &VenueOrderId) -> (r:
    Result<MarketId, GatewayError>)
    ensures
        match open_market(orders@, venue_order_id@, 0) {
            Some(market) => r matches Ok(m) && m@ == market,
            None => r matches Err(e) && e@ == GatewayFault::OrderNotFound(venue_order_id@),
        },
{
    let mut i: usize = 0;
    while i < orders.len()
        invariant
            i <= orders@.len(),
            open_market(orders@, venue_order_id@, 0) == open_market(
                orders@,
                venue_order_id@,
                i as int,
            ),
        decreases orders@.len() - i,
    {
        if orders[i].venue_order_id.same(venue_order_id) {
            return Ok(MarketId(orders[i].instrument_id.text()));
        }
        i = i + 1;
    }
    Err(GatewayError::OrderNotFound(venue_order_id.text()))
}

/// Whether a stored orderbook is the one that a message carries.
pub open spec fn is_book_of(
    book: OrderbookSnapshot,
    data: BybitOrderbookData,
    venue_id: VenueId,
    now: Timestamp,
) -> bool {
    &&& book.venue_id == venue_id
    &&& book.instrument_id@ == data.symbol@
    &&& book.market_id@ == data.symbol@
    &&& parsed_levels(data.bids@) == Ok::<Seq<Level>, GatewayFault>(level_views(book.bids@))
    &&& parsed_levels(data.asks@) == Ok::<Seq<Level>, GatewayFault>(level_views(book.asks@))
    &&& time_of_millis(data.ts) == Ok::<int, GatewayFault>(book.observed_at@)
    &&& book.received_at == now
}

/// What keeps an orderbook message from being read: its bids, its asks, or its time.
pub open spec fn book_data_fault(data: BybitOrderbookData) -> Option<GatewayFault> {
    match parsed_levels(data.bids@) {
        Err(f) => Some(f),
        Ok(_) => match parsed_levels(data.asks@) {
            Err(f) => Some(f),
            Ok(_) => match time_of_millis(data.ts) {
                Err(f) => Some(f),
                Ok(_) => None,
            },
        },
    }
}

/// Whether the adapter is the same but for its orderbooks.
pub open spec fn same_but_books(a: BybitAdapter, b: BybitAdapter) -> bool {
    &&& a.config == b.config
    &&& a.connection_health == b.connection_health
    &&& a.capabilities == b.capabilities
    &&& a.private_stream_ready == b.private_stream_ready
    &&& a.state.idempotency_cache == b.state.idempotency_cache
    &&& a.state.venue_order_markets == b.state.venue_order_markets
}

impl BybitAdapter {
    /// The open orders that the exchange reports. Their markets are remembered, that of a
    /// faulty order and those before it too.
    pub fn open_orders_from(&mut self, records: &Vec<BybitOrderRecord>) -> (r: Result<
        Vec<VenueOpenOrder>,
        GatewayError,
    >)
        ensures
            same_setting(*old(self), *final(self)),
            final(self).state.idempotency_cache == old(self).state.idempotency_cache,
            ({
                let bad = faulty_at(records@, 0);
                let before = old(self).state.venue_order_markets@;
                let after = final(self).state.venue_order_markets@;
                if bad < records@.len() {
                    &&& r matches Err(e) && Some(e@) == order_fault(records@[bad])
                    &&& after == with_order_markets(before, records@.take(bad + 1))
                } else {
                    &&& r matches Ok(list) && list@.len() == records@.len() && forall|i: int|
                        0 <= i < list@.len() ==> is_open_order_of(
                            #[trigger] list@[i],
                            records@[i],
                        )
                    &&& after == with_order_markets(before, records@)
                }
            }),
    {
        let ghost before = self.state.venue_order_markets@;
        let mut list: Vec<VenueOpenOrder> = Vec::new();
        let mut i: usize = 0;
        assert(with_order_markets(before, records@.take(0)) =~= before);
        while i < records.len()
            invariant
                i <= records@.len(),
                before == old(self).state.venue_order_markets@,
                same_setting(*old(self), *self),
                self.state.idempotency_cache == old(self).state.idempotency_cache,
                self.state.venue_order_markets@ == with_order_markets(
                    before,
                    records@.take(i as int),
                ),
                faulty_at(records@, 0) == faulty_at(records@, i as int),
                list@.len() == i,
                forall|k: int|
                    0 <= k < list@.len() ==> is_open_order_of(#[trigger] list@[k], records@[k]),
            decreases records@.len() - i,
        {
            assert(records@.take(i + 1).drop_last() =~= records@.take(i as int));
            let record = &records[i];
            self.state.venue_order_markets.insert(
                record.order_id.clone(),
                MarketId(record.symbol.clone()),
            );
            let side = match parse_bybit_side(record.side.as_str()) {
                Ok(side) => side,
                Err(e) => {
                    return Err(e);
                },
            };
            let created_at = match millis_to_datetime(record.created_time) {
                Ok(t) => t,
                Err(e) => {
                    return Err(e);
                },
            };
            list.push(
                VenueOpenOrder {
                    venue_order_id: VenueOrderId(record.order_id.clone()),
                    client_order_id: match &record.order_link_id {
                        Some(l) => Some(ClientOrderId(l.clone())),
                        None => None,
                    },
                    instrument_id: InstrumentId(record.symbol.clone()),
                    side,
                    qty: record.qty,
                    filled_qty: record.cum_exec_qty,
                    price: Some(record.price),
                    state: parse_bybit_order_state(record.order_status.as_str()),
                    created_at,
                },
            );
            i = i + 1;
        }
        assert(records@.take(i as int) =~= records@);
        Ok(list)
    }

    /// The fills that a private stream message carries; executions without a quantity are
    /// left out. The fills' markets are remembered, unless one of the executions is
    /// faulty.
    pub fn on_executions(&mut self, records: &Vec<BybitExecutionRecord>) -> (r: Result<
        Vec<VenueFill>,
        GatewayError,
    >)
        ensures
            ({
                let kept = real_executions(records@);
                match first_execution_fault(kept) {
                    Some(f) => {
                        &&& r matches Err(e) && e@ == f
                        &&& *final(self) == *old(self)
                    },
                    None => {
                        &&& r matches Ok(fills) && fills@.len() == kept.len() && forall|i: int|
                            0 <= i < fills@.len() ==> is_fill_of(#[trigger] fills@[i], kept[i])
                        &&& same_setting(*old(self), *final(self))
                        &&& final(self).state.idempotency_cache
                            == old(self).state.idempotency_cache
                        &&& final(self).state.venue_order_markets@ == with_fill_markets(
                            old(self).state.venue_order_markets@,
                            kept,
                        )
                    },
                }
            }),
    {
        let fills = match fills_from(records) {
            Ok(fills) => fills,
            Err(e) => {
                return Err(e);
            },
        };
        let ghost before = self.state.venue_order_markets@;
        let mut i: usize = 0;
        assert(with_fill_markets(before, real_executions(records@.take(0))) =~= before);
        while i < records.len()
            invariant
                i <= records@.len(),
                before == old(self).state.venue_order_markets@,
                same_setting(*old(self), *self),
                self.state.idempotency_cache == old(self).state.idempotency_cache,
                self.state.venue_order_markets@ == with_fill_markets(
                    before,
                    real_executions(records@.take(i as int)),
                ),
            decreases records@.len() - i,
        {
            let ghost part = real_executions(records@.take(i as int));
            assert(records@.take(i + 1).drop_last() =~= records@.take(i as int));
            assert(part.push(records@[i as int]).drop_last() =~= part);
            let record = &records[i];
            if !record.exec_qty.is_zero() {
                self.state.venue_order_markets.insert(
                    record.order_id.clone(),
                    MarketId(record.symbol.clone()),
                );
            }
            i = i + 1;
        }
        assert(records@.take(i as int) =~= records@);
        Ok(fills)
    }

    /// Stores the orderbook that a public stream message carries, if it is sound. A
    /// message without one changes nothing.
    pub fn on_orderbook(&mut self, data: &Vec<BybitOrderbookData>, now: Timestamp) -> (r: Result<
        (),
        GatewayError,
    >)
        ensures
            if data@.len() == 0 {
                r == Ok::<(), GatewayError>(()) && *final(self) == *old(self)
            } else {
                match book_data_fault(data@[0]) {
                    Some(f) => {
                        &&& r matches Err(e) && e@ == f
                        &&& *final(self) == *old(self)
                    },
                    None => exists|book: OrderbookSnapshot|
                        {
                            &&& #[trigger] is_book_of(book, data@[0], old(self).config.venue_id, now)
                            &&& match book_fault(book.bids@, book.asks@) {
                                Some(f) => {
                                    &&& r matches Err(e) && e@ == GatewayFault::Validation(
                                        fault_text(f),
                                    )
                                    &&& *final(self) == *old(self)
                                },
                                None => {
                                    &&& r == Ok::<(), GatewayError>(())
                                    &&& same_but_books(*old(self), *final(self))
                                    &&& final(self).state.latest_orderbooks@ == old(
                                        self,
                                    ).state.latest_orderbooks@.insert(data@[0].symbol@, book)
                                },
                            }
                        },
                }
            },
    {
        if data.len() == 0 {
            return Ok(());
        }
        let first = &data[0];
        let bids = match parse_price_levels(&first.bids) {
            Ok(levels) => levels,
            Err(e) => {
                return Err(e);
            },
        };
        let asks = match parse_price_levels(&first.asks) {
            Ok(levels) => levels,
            Err(e) => {
                return Err(e);
            },
        };
        let observed_at = match millis_to_datetime(first.ts) {
            Ok(t) => t,
            Err(e) => {
                return Err(e);
            },
        };
        let snapshot = OrderbookSnapshot {
            venue_id: self.config.venue_id.clone(),
            instrument_id: InstrumentId(first.symbol.clone()),
            market_id: MarketId(first.symbol.clone()),
            bids,
            asks,
            observed_at,
            received_at: now,
        };
        assert(is_book_of(snapshot, data@[0], old(self).config.venue_id, now));
        match snapshot.validate() {
            Err(e) => Err(GatewayError::Validation(e.text())),
            Ok(_) => {
                self.state.latest_orderbooks.insert(first.symbol.clone(), snapshot);
                Ok(())
            },
        }
    }
}

/// A fault among the leading executions is the fault of all.
proof fn lemma_leading_execution_fault(records: Seq<BybitExecutionRecord>, n: int)
    requires
        0 <= n <= records.len(),
        first_execution_fault(real_executions(records.take(n))) is Some,
    ensures
        first_execution_fault(real_executions(records)) == first_execution_fault(
            real_executions(records.take(n)),
        ),
    decreases records.len(),
{
    if n < records.len() {
        assert(records.drop_last().take(n) =~= records.take(n));
        lemma_leading_execution_fault(records.drop_last(), n);
        let before = real_executions(records.drop_last());
        assert(before.push(records.last()).drop_last() =~= before);
    } else {
        assert(records.take(n) =~= records);
    }
}

/// The fills of a list of executions.
fn fills_from(records: &Vec<BybitExecutionRecord>) -> (r: Result<Vec<VenueFill>, GatewayError>)
    ensures
        ({
            let kept = real_executions(records@);
            match first_execution_fault(kept) {
                Some(f) => r matches Err(e) && e@ == f,
                None => r matches Ok(fills) && fills@.len() == kept.len() && forall|i: int|
                    0 <= i < fills@.len() ==> is_fill_of(#[trigger] fills@[i], kept[i]),
            }
        }),
{
    let mut fills: Vec<VenueFill> = Vec::new();
    let mut i: usize = 0;
    while i < records.len()
        invariant
            i <= records@.len(),
            first_execution_fault(real_executions(records@.take(i as int))) is None,
            fills@.len() == real_executions(records@.take(i as int)).len(),
            forall|k: int|
                0 <= k < fills@.len() ==> is_fill_of(
                    #[trigger] fills@[k],
                    real_executions(records@.take(i as int))[k],
                ),
        decreases records@.len() - i,
    {
        let ghost before = real_executions(records@.take(i as int));
        assert(records@.take(i + 1).drop_last() =~= records@.take(i as int));
        assert(before.push(records@[i as int]).drop_last() =~= before);
        let record = &records[i];
        if !record.exec_qty.is_zero() {
            let side = match parse_bybit_side(record.side.as_str()) {
                Ok(side) => side,
                Err(e) => {
                    proof {
                        lemma_leading_execution_fault(records@, i + 1);
                    }
                    return Err(e);
                },
            };
            let filled_at = match millis_to_datetime(record.exec_time) {
                Ok(t) => t,
                Err(e) => {
                    proof {
                        lemma_leading_execution_fault(records@, i + 1);
                    }
                    return Err(e);
                },
            };
            fills.push(
                VenueFill {
                    venue_order_id: VenueOrderId(record.order_id.clone()),
                    client_order_id: ClientOrderId(record.order_link_id.clone()),
                    instrument_id: InstrumentId(record.symbol.clone()),
                    side,
                    qty: record.exec_qty,
                    price: record.exec_price,
                    fee: record.exec_fee,
                    is_maker: record.is_maker,
                    filled_at,
                },
            );
        }
        i = i + 1;
    }
    assert(records@.take(i as int) =~= records@);
    Ok(fills)
}

// ─── Stream connections ───

/// Which stream a session keeps up.
#[derive(Debug, Clone, Copy, PartialEq, Eq, Structural)]
pub enum StreamKind {
    /// Orders and executions; needs authentication and a confirmed subscription.
    Private,
    /// Orderbooks.
    Public,
}

/// Where a session stands.
#[derive(Debug, Clone, Copy, PartialEq, Eq, Structural)]
pub enum StreamPhase {
    /// Between connections.
    Resting,
    /// Connecting.
    Connecting,
    /// Sending credentials.
    Authenticating,
    /// Waiting for the exchange to confirm.
    Handshaking,
    /// Sending the subscription.
    Subscribing,
    /// Receiving, with a heartbeat.
    Live,
}

/// What happened to a session.
#[derive(Debug, Clone, Copy, PartialEq, Eq, Structural)]
pub enum StreamEvent {
    /// It is time to connect: at the start, and after a rest.
    Rested,
    Connected,
    ConnectFailed,
    /// What was to be sent has been sent.
    Sent,
    SendFailed,
    /// A text message arrived and means this.
    Text(PrivateStreamControl),
    /// A text message arrived that could not be handled.
    TextFailed,
    PingReceived,
    OtherReceived,
    /// The other side closed the connection.
    Closed,
    ReadFailed,
    HeartbeatDue,
}

/// What a session wants done.
#[derive(Debug, Clone, Copy, PartialEq, Eq, Structural)]
pub enum StreamAction {
    Connect,
    SendCredentials,
    SendSubscription,
    SendPing,
    SendPong,
    /// Wait for the next message; while live, for the heartbeat too.
    Receive,
    /// Wait this many seconds.
    Rest(u64),
}

/// The longest rest between connections, in seconds.
pub const MAX_BACKOFF_SECS: u64 = 30;

/// A session that keeps a stream connected.
#[derive(Debug, Clone, Copy, PartialEq, Eq, Structural)]
pub struct StreamSession {
    pub kind: StreamKind,
    pub phase: StreamPhase,
    /// The next rest, in seconds.
    pub backoff: u64,
    /// Whether the private stream has been confirmed since it last connected.
    pub ready: bool,
}

/// The rest after the next: twice as long, up to the longest.
pub open spec fn doubled(backoff: u64) -> u64 {
    if 2 * backoff > MAX_BACKOFF_SECS {
        MAX_BACKOFF_SECS
    } else {
        (2 * backoff) as u64
    }
}

/// A session that gives a connection up: it rests, and the next rest is longer.
pub open spec fn resting(s: StreamSession) -> (StreamSession, StreamAction) {
    (
        StreamSession { phase: StreamPhase::Resting, backoff: doubled(s.backoff), ..s },
        StreamAction::Rest(s.backoff),
    )
}

/// A session in a phase, with what it wants done.
pub open spec fn entering(s: StreamSession, phase: StreamPhase, action: StreamAction) -> (
    StreamSession,
    StreamAction,
) {
    (StreamSession { phase, ..s }, action)
}

/// A session that has become live: the rests start over.
pub open spec fn going_live(s: StreamSession) -> (StreamSession, StreamAction) {
    (
        StreamSession {
            phase: StreamPhase::Live,
            backoff: 1,
            ready: s.ready || s.kind is Private,
            ..s
        },
        StreamAction::Receive,
    )
}

/// What a session does on an event. Events that do not belong to the phase are ignored.
pub open spec fn session_step(s: StreamSession, event: StreamEvent) -> (StreamSession, StreamAction) {
    match (s.phase, event) {
        (StreamPhase::Resting, _) => (
            StreamSession { phase: StreamPhase::Connecting, ready: false, ..s },
            StreamAction::Connect,
        ),
        (StreamPhase::Connecting, StreamEvent::Connected) => match s.kind {
            StreamKind::Private => entering(
                s,
                StreamPhase::Authenticating,
                StreamAction::SendCredentials,
            ),
            StreamKind::Public => entering(
                s,
                StreamPhase::Subscribing,
                StreamAction::SendSubscription,
            ),
        },
        (StreamPhase::Connecting, _) => resting(s),
        (StreamPhase::Authenticating, StreamEvent::Sent) => entering(
            s,
            StreamPhase::Handshaking,
            StreamAction::Receive,
        ),
        (StreamPhase::Authenticating, _) => resting(s),
        (StreamPhase::Subscribing, StreamEvent::Sent) => match s.kind {
            StreamKind::Private => entering(s, StreamPhase::Handshaking, StreamAction::Receive),
            StreamKind::Public => going_live(s),
        },
        (StreamPhase::Subscribing, _) => resting(s),
        (
            StreamPhase::Handshaking,
            StreamEvent::Text(PrivateStreamControl::Authenticated),
        ) => entering(s, StreamPhase::Subscribing, StreamAction::SendSubscription),
        (StreamPhase::Handshaking, StreamEvent::Text(PrivateStreamControl::Subscribed)) =>
            going_live(s),
        (StreamPhase::Handshaking, StreamEvent::TextFailed) => resting(s),
        (_, StreamEvent::PingReceived) => (s, StreamAction::SendPong),
        (_, StreamEvent::SendFailed) => resting(s),
        (_, StreamEvent::Closed) => resting(s),
        (_, StreamEvent::ReadFailed) => resting(s),
        (StreamPhase::Live, StreamEvent::HeartbeatDue) => (s, StreamAction::SendPing),
        _ => (s, StreamAction::Receive),
    }
}

impl StreamSession {
    /// A session that has not connected yet.
    pub fn new(kind: StreamKind) -> (r: StreamSession)
        ensures
            r == (StreamSession { kind, phase: StreamPhase::Resting, backoff: 1, ready: false }),
    {
        StreamSession { kind, phase: StreamPhase::Resting, backoff: 1, ready: false }
    }

    /// Gives the connection up.
    fn rest(&mut self) -> (r: StreamAction)
        requires
            old(self).backoff <= MAX_BACKOFF_SECS,
        ensures
            (*final(self), r) == resting(*old(self)),
    {
        let seconds: u64 = self.backoff;
        self.backoff = if 2 * seconds > MAX_BACKOFF_SECS {
            MAX_BACKOFF_SECS
        } else {
            2 * seconds
        };
        self.phase = StreamPhase::Resting;
        StreamAction::Rest(seconds)
    }

    /// Enters the live phase.
    fn go_live(&mut self) -> (r: StreamAction)
        ensures
            (*final(self), r) == going_live(*old(self)),
    {
        self.phase = StreamPhase::Live;
        self.backoff = 1;
        if self.kind == StreamKind::Private {
            self.ready = true;
        }
        StreamAction::Receive
    }

    /// Takes an event and says what to do next.
    pub fn step(&mut self, event: StreamEvent) -> (r: StreamAction)
        requires
            old(self).backoff <= MAX_BACKOFF_SECS,
        ensures
            (*final(self), r) == session_step(*old(self), event),
            final(self).backoff <= MAX_BACKOFF_SECS,
    {
        match (self.phase, event) {
            (StreamPhase::Resting, _) => {
                self.phase = StreamPhase::Connecting;
                self.ready = false;
                StreamAction::Connect
            },
            (StreamPhase::Connecting, StreamEvent::Connected) => match self.kind {
                StreamKind::Private => {
                    self.phase = StreamPhase::Authenticating;
                    StreamAction::SendCredentials
                },
                StreamKind::Public => {
                    self.phase = StreamPhase::Subscribing;
                    StreamAction::SendSubscription
                },
            },
            (StreamPhase::Connecting, _) => self.rest(),
            (StreamPhase::Authenticating, StreamEvent::Sent) => {
                self.phase = StreamPhase::Handshaking;
                StreamAction::Receive
            },
            (StreamPhase::Authenticating, _) => self.rest(),
            (StreamPhase::Subscribing, StreamEvent::Sent) => match self.kind {
                StreamKind::Private => {
                    self.phase = StreamPhase::Handshaking;
                    StreamAction::Receive
                },
                StreamKind::Public => self.go_live(),
            },
            (StreamPhase::Subscribing, _) => self.rest(),
            (
                StreamPhase::Handshaking,
                StreamEvent::Text(PrivateStreamControl::Authenticated),
            ) => {
                self.phase = StreamPhase::Subscribing;
                StreamAction::SendSubscription
            },
            (StreamPhase::Handshaking, StreamEvent::Text(PrivateStreamControl::Subscribed)) =>
                self.go_live(),
            (StreamPhase::Handshaking, StreamEvent::TextFailed) => self.rest(),
            (_, StreamEvent::PingReceived) => StreamAction::SendPong,
            (_, StreamEvent::SendFailed) => self.rest(),
            (_, StreamEvent::Closed) => self.rest(),
            (_, StreamEvent::ReadFailed) => self.rest(),
            (StreamPhase::Live, StreamEvent::HeartbeatDue) => StreamAction::SendPing,
            _ => StreamAction::Receive,
        }
    }
}

// ─── Laws ───

/// A client order identifier that has been acknowledged is answered with the same
/// acknowledgment again, and nothing is sent.
pub proof fn law_submission_is_idempotent(
    before: BybitAdapter,
    after: BybitAdapter,
    submission: OrderSubmission,
    ack: VenueOrderAck,
    again: OrderSubmission,
)
    requires
        recorded(before, after, submission, ack),
        again.client_order_id@ == submission.client_order_id@,
        submission_fault(after.config.venue_id@, again) is None,
    ensures
        submit_decision(after, again) == SubmitDecision::Repeat(ack),
{
}

/// The market of an acknowledged order is remembered, so that it can be cancelled.
pub proof fn law_acknowledged_market_is_known(
    before: BybitAdapter,
    after: BybitAdapter,
    submission: OrderSubmission,
    ack: VenueOrderAck,
)
    requires
        recorded(before, after, submission, ack),
    ensures
        after.state.venue_order_markets@.contains_key(ack.venue_order_id@),
        after.state.venue_order_markets@[ack.venue_order_id@] == submission.market_id,
{
}

/// A dry run is never sent.
pub proof fn law_dry_run_is_never_sent(adapter: BybitAdapter, submission: OrderSubmission)
    requires
        submission.dry_run,
    ensures
        !(submit_decision(adapter, submission) is Send),
{
}

/// Nothing is sent unless the venue is connected, and the private stream is ready where
/// it is in use. What is sent is a valid submission, and always has a translation.
pub proof fn law_sent_only_while_connected(adapter: BybitAdapter, submission: OrderSubmission)
    requires
        submit_decision(adapter, submission) is Send,
    ensures
        adapter.connection_health.state is Connected,
        adapter.config.enable_private_stream ==> adapter.private_stream_ready,
        submission_fault(adapter.config.venue_id@, submission) is None,
        translated(submission) == Ok::<OrderRequest, GatewayFault>(
            submit_decision(adapter, submission)->Send_0,
        ),
{
}

/// The rest between connections starts at one second and stays between one second and the
/// longest.
pub proof fn law_backoff_is_bounded(s: StreamSession, event: StreamEvent)
    requires
        1 <= s.backoff <= MAX_BACKOFF_SECS,
    ensures
        1 <= session_step(s, event).0.backoff <= MAX_BACKOFF_SECS,
        session_step(s, event).1 matches StreamAction::Rest(seconds) ==> seconds == s.backoff,
{
}

/// A private stream becomes ready only by a confirmed subscription, and connecting anew
/// takes the readiness back.
pub proof fn law_ready_needs_confirmation(s: StreamSession, event: StreamEvent)
    requires
        !s.ready,
        session_step(s, event).0.ready,
        s.kind is Private,
    ensures
        s.phase is Handshaking,
        event == StreamEvent::Text(PrivateStreamControl::Subscribed),
{
}

/// A session connects anew only without readiness.
pub proof fn law_connecting_is_not_ready(s: StreamSession, event: StreamEvent)
    requires
        session_step(s, event).1 is Connect,
    ensures
        !session_step(s, event).0.ready,
{
}

} // verus!
