use feynman::decimal::Decimal;
use feynman::gateway::{
    GatewayError, SignalOrderBridge, SignalOrderBridgeConfig, SymbolMap, ValidationError,
    VenueRouteState,
};
use feynman::ids::{AgentId, BasketId, InstrumentId, MarketId, OrderId, SignalId, VenueId};
use feynman::limits::AgentRiskLimits;
use feynman::pipeline::{Draft, OrderType, PipelineOrder, TimeInForce};
use feynman::pnl::{PriceSnapshot, PriceSource};
use feynman::portfolio::{
    AgentAllocation, AgentStatus, FirmBook, PredictionExposureSummary,
};
use feynman::signal::{Side, Signal, Urgency};
use feynman::table::Table;
use feynman::time::{Duration, Timestamp};
use feynman::venue::{ConnectionState, VenueConnectionHealth};

struct StaticPriceSource {
    price: PriceSnapshot,
    stale: bool,
}

impl PriceSource for StaticPriceSource {
    fn may_quote(&self, _: InstrumentId, _: Option<PriceSnapshot>) -> bool {
        true
    }

    fn may_be_stale(&self, _: InstrumentId, _: Duration, _: bool) -> bool {
        true
    }

    fn latest_price(&self, instrument: &InstrumentId) -> Option<PriceSnapshot> {
        if *instrument == self.price.instrument {
            Some(self.price.clone())
        } else {
            None
        }
    }

    fn is_stale(&self, _instrument: &InstrumentId, _max_age: Duration) -> bool {
        self.stale
    }
}

fn connected_health(venue_id: &str, now: Timestamp) -> VenueConnectionHealth {
    VenueConnectionHealth {
        venue_id: VenueId(venue_id.to_owned()),
        state: ConnectionState::Connected,
        last_message_at: Some(now),
        last_heartbeat_at: Some(now),
        heartbeat_latency_ms: Some(25),
        reconnect_count: 0,
        connected_since: Some(now),
    }
}

fn route_state(venue_id: &str, available_balance: Decimal, now: Timestamp) -> VenueRouteState {
    VenueRouteState { connection_health: connected_health(venue_id, now), available_balance }
}

fn sample_signal(now: Timestamp) -> Signal {
    Signal {
        id: SignalId("sig-1".into()),
        basket_id: Some(BasketId("basket-1".into())),
        agent: AgentId("athena".into()),
        instrument: InstrumentId("BTC".into()),
        direction: Side::Buy,
        conviction: Decimal::new(50, 2),
        sizing_hint: None,
        arb_type: "directional".into(),
        stop_loss: Decimal::new(9900, 0),
        take_profit: Some(Decimal::new(10250, 0)),
        thesis: "follow breakout".into(),
        urgency: Urgency::High,
        metadata: "{}".into(),
        created_at: now,
    }
}

fn sample_firm_book(now: Timestamp) -> FirmBook {
    let mut agent_allocations = Table::new();
    agent_allocations.insert(
        "athena".to_owned(),
        AgentAllocation {
            allocated_capital: Decimal::new(20_000, 0),
            used_capital: Decimal::zero(),
            free_capital: Decimal::new(20_000, 0),
            realized_pnl: Decimal::zero(),
            unrealized_pnl: Decimal::zero(),
            current_drawdown: Decimal::zero(),
            max_drawdown_limit: Decimal::new(15, 2),
            status: AgentStatus::Active,
        },
    );
    FirmBook {
        nav: Decimal::new(100_000, 0),
        gross_notional: Decimal::zero(),
        net_notional: Decimal::zero(),
        realized_pnl: Decimal::zero(),
        unrealized_pnl: Decimal::zero(),
        daily_pnl: Decimal::zero(),
        hourly_pnl: Decimal::zero(),
        current_drawdown_pct: Decimal::zero(),
        allocated_capital: Decimal::new(40_000, 0),
        cash_available: Decimal::new(60_000, 0),
        total_fees_paid: Decimal::zero(),
        agent_allocations,
        instruments: Vec::new(),
        prediction_exposure: PredictionExposureSummary {
            total_notional: Decimal::zero(),
            pct_of_nav: Decimal::zero(),
            unresolved_markets: 0,
        },
        as_of: now,
    }
}

fn sample_limits() -> AgentRiskLimits {
    AgentRiskLimits {
        allocated_capital: Decimal::new(20_000, 0),
        max_position_notional: Decimal::new(50_000, 0),
        max_gross_notional: Decimal::new(75_000, 0),
        max_drawdown_pct: Decimal::new(15, 2),
        max_daily_loss: Decimal::new(5_000, 0),
        max_open_orders: 20,
        allowed_instruments: None,
        allowed_venues: Some(vec![VenueId("bybit".into()), VenueId("binance".into())]),
    }
}

fn sample_prices(now: Timestamp) -> StaticPriceSource {
    StaticPriceSource {
        price: PriceSnapshot {
            instrument: InstrumentId("BTC".into()),
            bid: Decimal::new(9995, 0),
            ask: Decimal::new(10005, 0),
            mid: Decimal::new(10000, 0),
            last: Decimal::new(10001, 0),
            observed_at: now,
            received_at: now,
        },
        stale: false,
    }
}

fn sample_symbol_map() -> SymbolMap {
    let mut symbol_map = SymbolMap::default();
    symbol_map.insert(VenueId("bybit".into()), "BTCUSDT", InstrumentId("BTC".into())).unwrap();
    symbol_map.insert(VenueId("binance".into()), "BTCUSDT", InstrumentId("BTC".into())).unwrap();
    symbol_map
}

fn bridge() -> SignalOrderBridge {
    SignalOrderBridge::new(SignalOrderBridgeConfig::default(), sample_symbol_map())
}

fn orders_for(
    signal: &Signal,
    limits: &AgentRiskLimits,
    prices: &StaticPriceSource,
    states: &[VenueRouteState],
    now: Timestamp,
) -> Result<Vec<PipelineOrder<Draft>>, GatewayError> {
    bridge()
        .signal_to_orders(signal, &sample_firm_book(now), Some(limits), prices, states, now)
        .expect("numbers in range")
}

fn orders_on_bybit(
    signal: &Signal,
    limits: &AgentRiskLimits,
    prices: &StaticPriceSource,
    now: Timestamp,
) -> Result<Vec<PipelineOrder<Draft>>, GatewayError> {
    orders_for(
        signal,
        limits,
        prices,
        &[route_state("bybit", Decimal::new(30_000, 0), now)],
        now,
    )
}

fn now() -> Timestamp {
    Timestamp::system_now()
}

#[test]
fn signal_bridge_sizes_from_conviction_and_stop_distance() {
    let now = now();
    let signal = sample_signal(now);
    let orders = orders_for(
        &signal,
        &sample_limits(),
        &sample_prices(now),
        &[
            route_state("bybit", Decimal::new(30_000, 0), now),
            route_state("binance", Decimal::new(15_000, 0), now),
        ],
        now,
    )
    .unwrap();

    assert_eq!(orders.len(), 1);
    let order = orders.first().unwrap().order_core();
    let expected_qty = Decimal::new(10_000, 0).checked_div(Decimal::new(105, 0)).unwrap();
    assert_eq!(order.venue_id, VenueId("bybit".into()));
    assert_eq!(order.market_id, MarketId("BTCUSDT".into()));
    assert_eq!(order.basket_id, signal.basket_id);
    assert_eq!(order.price, Some(Decimal::new(10005, 0)));
    assert_eq!(order.qty, expected_qty);
}

#[test]
fn signal_bridge_uses_sizing_hint_and_routes_to_funded_allowed_venue() {
    let now = now();
    let mut signal = sample_signal(now);
    signal.sizing_hint = Some(Decimal::new(12_000, 0));
    let mut limits = sample_limits();
    limits.allowed_venues = Some(vec![VenueId("binance".into())]);

    let orders = orders_for(
        &signal,
        &limits,
        &sample_prices(now),
        &[
            route_state("bybit", Decimal::new(50_000, 0), now),
            route_state("binance", Decimal::new(20_000, 0), now),
        ],
        now,
    )
    .unwrap();

    let order = orders.first().unwrap().order_core();
    let expected_qty = Decimal::new(12_000, 0).checked_div(Decimal::new(10_005, 0)).unwrap();
    assert_eq!(order.venue_id, VenueId("binance".into()));
    assert_eq!(order.market_id, MarketId("BTCUSDT".into()));
    assert_eq!(order.qty, expected_qty);
}

#[test]
fn signal_bridge_returns_empty_for_zero_conviction_without_hint() {
    let now = now();
    let mut signal = sample_signal(now);
    signal.conviction = Decimal::zero();
    let orders =
        orders_on_bybit(&signal, &sample_limits(), &sample_prices(now), now).unwrap();
    assert!(orders.is_empty());
}

#[test]
fn signal_bridge_rejects_invalid_conviction() {
    let now = now();
    let mut signal = sample_signal(now);
    signal.conviction = Decimal::new(101, 2);
    let err = orders_on_bybit(&signal, &sample_limits(), &sample_prices(now), now).unwrap_err();
    assert!(matches!(err, GatewayError::Validation(_)));
}

#[test]
fn signal_bridge_rejects_zero_conviction_with_sizing_hint() {
    let now = now();
    let mut signal = sample_signal(now);
    signal.conviction = Decimal::zero();
    signal.sizing_hint = Some(Decimal::new(1_000, 0));
    let err = orders_on_bybit(&signal, &sample_limits(), &sample_prices(now), now).unwrap_err();
    assert!(matches!(err, GatewayError::Validation(_)));
}

#[test]
fn signal_bridge_rejects_sizing_hint_above_allocation() {
    let now = now();
    let mut signal = sample_signal(now);
    signal.sizing_hint = Some(Decimal::new(25_000, 0));
    let err = orders_on_bybit(&signal, &sample_limits(), &sample_prices(now), now).unwrap_err();
    assert!(matches!(err, GatewayError::Validation(_)));
}

#[test]
fn signal_bridge_rejects_instrument_outside_agent_scope() {
    let now = now();
    let signal = sample_signal(now);
    let mut limits = sample_limits();
    limits.allowed_instruments = Some(vec![InstrumentId("ETH".into())]);
    let err = orders_on_bybit(&signal, &limits, &sample_prices(now), now).unwrap_err();
    assert!(matches!(err, GatewayError::RoutingUnavailable { .. }));
}

#[test]
fn signal_bridge_rejects_take_profit_on_wrong_side_of_entry() {
    let now = now();
    let mut signal = sample_signal(now);
    signal.take_profit = Some(Decimal::new(9_900, 0));
    let err = orders_on_bybit(&signal, &sample_limits(), &sample_prices(now), now).unwrap_err();
    assert!(matches!(err, GatewayError::Validation(_)));
}

#[test]
fn signal_bridge_rejects_stop_loss_on_wrong_side_of_entry() {
    let now = now();
    let mut signal = sample_signal(now);
    signal.stop_loss = Decimal::new(10_100, 0);
    let err = orders_on_bybit(&signal, &sample_limits(), &sample_prices(now), now).unwrap_err();
    assert!(matches!(err, GatewayError::Validation(_)));
}

#[test]
fn signal_bridge_rejects_stale_prices() {
    let now = now();
    let signal = sample_signal(now);
    let mut prices = sample_prices(now);
    prices.stale = true;
    let err = orders_on_bybit(&signal, &sample_limits(), &prices, now).unwrap_err();
    assert!(matches!(err, GatewayError::StalePrice { .. }));
    assert_eq!(err.text(), "price for instrument BTC is stale (max age 30s)");
}

#[test]
fn signal_bridge_order_ids_are_deterministic_for_signal_replays() {
    let now = now();
    let signal = sample_signal(now);
    let order_a = orders_on_bybit(&signal, &sample_limits(), &sample_prices(now), now)
        .unwrap()
        .pop()
        .unwrap();
    let order_b = orders_on_bybit(&signal, &sample_limits(), &sample_prices(now), now)
        .unwrap()
        .pop()
        .unwrap();

    assert_eq!(order_a.order_core().id, OrderId("ord-sig-1".into()));
    assert_eq!(order_a.order_core().id, order_b.order_core().id);
}

// ─── Further inputs ───

#[test]
fn signal_without_quote_is_unpriced() {
    let now = now();
    let bridge = bridge();
    let book = sample_firm_book(now);
    let signal = sample_signal(now);
    let states = [route_state("bybit", Decimal::new(30_000, 0), now)];
    let err = bridge
        .checked_orders_at_quote(&signal, &book, Some(&sample_limits()), None, false, &states, now)
        .unwrap()
        .unwrap_err();
    assert!(matches!(err, GatewayError::PriceUnavailable { .. }), "{err:?}");
}

#[test]
fn disconnected_venues_are_passed_over() {
    let now = now();
    let signal = sample_signal(now);
    let mut states = [
        route_state("bybit", Decimal::new(30_000, 0), now),
        route_state("binance", Decimal::new(15_000, 0), now),
    ];
    states[0].connection_health.state = ConnectionState::Disconnected;
    let orders =
        orders_for(&signal, &sample_limits(), &sample_prices(now), &states, now).unwrap();
    assert_eq!(orders[0].order_core().venue_id, VenueId("binance".into()));

    states[1].connection_health.state = ConnectionState::Reconnecting { attempt: 1 };
    let err =
        orders_for(&signal, &sample_limits(), &sample_prices(now), &states, now).unwrap_err();
    assert!(matches!(err, GatewayError::RoutingUnavailable { .. }));
}

#[test]
fn symbol_map_answers_both_ways_and_refuses_a_second_instrument() {
    let mut map = sample_symbol_map();
    assert_eq!(
        map.instrument_for(&VenueId("bybit".into()), "BTCUSDT"),
        Some(&InstrumentId("BTC".into()))
    );
    assert!(map.instrument_for(&VenueId("bybit".into()), "ETHUSDT").is_none());
    let venues = map.venues_for(&InstrumentId("BTC".into())).unwrap();
    assert_eq!(venues.len(), 2);
    assert_eq!(venues[0].venue_id, VenueId("bybit".into()));
    assert!(map.venues_for(&InstrumentId("ETH".into())).is_none());

    assert!(map.insert(VenueId("bybit".into()), "BTCUSDT", InstrumentId("BTC".into())).is_ok());
    assert_eq!(map.venues_for(&InstrumentId("BTC".into())).unwrap().len(), 2);
    assert!(map.insert(VenueId("bybit".into()), "BTCUSDT", InstrumentId("ETH".into())).is_err());
}

#[test]
fn validation_errors_have_texts() {
    let venue = VenueId("bybit".into());
    assert_eq!(
        ValidationError::InvalidQty { reason: "zero".into() }.text(),
        "Invalid quantity: zero"
    );
    assert_eq!(
        ValidationError::InvalidPrice { reason: "zero".into() }.text(),
        "Invalid price: zero"
    );
    assert_eq!(
        ValidationError::UnsupportedOrderType {
            requested: OrderType::TrailingStop,
            venue: venue.clone()
        }
        .text(),
        "Order type trailing_stop not supported on bybit"
    );
    assert_eq!(
        ValidationError::UnsupportedTIF { requested: TimeInForce::FOK, venue }.text(),
        "TIF FOK not supported on bybit"
    );
    assert_eq!(
        ValidationError::MissingRequiredField { field: "price".into() }.text(),
        "Missing required field: price"
    );
    assert_eq!(
        ValidationError::IncompatibleConstraints { reason: "both".into() }.text(),
        "Incompatible constraints: both"
    );
    assert_eq!(
        ValidationError::PrecisionExceeded { field: "qty".into(), max_decimals: 3, actual: 5 }
            .text(),
        "Field qty precision exceeded: max 3, got 5"
    );
}
