use feynman::bybit::{
    balance_query, bybit_side, cancel_order_path, cancel_request, checked_balance_from,
    classify_bybit_error, create_order_path, first_balance, first_order,
    market_for_venue_order_id, millis_to_datetime, open_orders_query, order_by_link_id_query,
    parse_bybit_order_state, parse_bybit_side, positions_query, private_topics, unwrap_envelope,
    parse_decimal, parse_price_levels, positions_from, private_message, private_payload_error,
    public_message, public_topics, query_string, signed_position_qty, stream_credentials,
    translate_submission, BybitAdapter, BybitAuth, BybitBalanceRecord, BybitConfig,
    BybitCreateOrderResult, BybitExecutionRecord, BybitOrderRecord, BybitOrderbookData,
    BybitPositionRecord, BybitRestError, BybitWsControlEnvelope, CreatedStep, PrivateMessage,
    PrivateStreamControl, StreamAction, StreamEvent, StreamKind, StreamPhase, StreamSession,
    SubmitStep, TokenBucket,
};
use feynman::decimal::Decimal;
use feynman::gateway::{GatewayError, OrderSubmission, VenueOrderAck};
use feynman::ids::{AgentId, ClientOrderId, InstrumentId, MarketId, OrderId, VenueId, VenueOrderId};
use feynman::pipeline::{ExecHint, OrderState, OrderType, TimeInForce};
use feynman::signal::Side;
use feynman::signing::{sign_hmac, sign_rest_payload, ApiSecret};
use feynman::time::Timestamp;
use feynman::venue::ConnectionState;

fn dec(text: &str) -> Decimal {
    Decimal::parse(text).unwrap()
}

fn now() -> Timestamp {
    Timestamp::system_now()
}

fn sample_config() -> BybitConfig {
    let mut config = BybitConfig::new(
        true,
        BybitAuth {
            api_key: "test-key".to_owned(),
            api_secret: ApiSecret::new("test-secret".to_owned()),
        },
    );
    config.enable_private_stream = false;
    config.enable_public_stream = false;
    config
}

fn sample_submission(
    client_order_id: &str,
    order_type: OrderType,
    tif: TimeInForce,
    dry_run: bool,
) -> OrderSubmission {
    OrderSubmission {
        order_id: OrderId(format!("ord-{client_order_id}")),
        client_order_id: ClientOrderId(client_order_id.to_owned()),
        agent_id: AgentId("athena".into()),
        instrument_id: InstrumentId("BTCUSDT".into()),
        market_id: MarketId("BTCUSDT".into()),
        venue_id: VenueId("bybit".into()),
        side: Side::Buy,
        order_type,
        time_in_force: tif,
        qty: Decimal::new(1, 0),
        price: Some(Decimal::new(60_000, 0)),
        trigger_price: Some(Decimal::new(59_500, 0)),
        stop_loss: None,
        take_profit: None,
        post_only: false,
        reduce_only: false,
        dry_run,
        exec_hint: ExecHint::default(),
    }
}

fn limit(client_order_id: &str) -> OrderSubmission {
    sample_submission(client_order_id, OrderType::Limit, TimeInForce::GTC, false)
}

fn connected() -> BybitAdapter {
    let mut adapter = BybitAdapter::new(sample_config());
    adapter.begin_connect(now());
    adapter.finish_connect(now());
    adapter
}

/// Submits an order to an exchange that answers the creation and the look-up as given, and
/// counts the creations.
fn submit(
    adapter: &mut BybitAdapter,
    submission: &OrderSubmission,
    created: Result<BybitCreateOrderResult, BybitRestError>,
    looked_up: Result<Option<BybitOrderRecord>, BybitRestError>,
    calls: &mut usize,
) -> Result<VenueOrderAck, GatewayError> {
    match adapter.begin_submit(submission, now()) {
        SubmitStep::Done(answer) => answer,
        SubmitStep::Send(_) => {
            *calls += 1;
            match adapter.on_created(submission, created, now()) {
                CreatedStep::Done(answer) => answer,
                CreatedStep::LookUp => adapter.on_looked_up(submission, looked_up, now()),
            }
        }
    }
}

fn order_one() -> Result<BybitCreateOrderResult, BybitRestError> {
    Ok(BybitCreateOrderResult { order_id: "bybit-order-1".to_owned() })
}

fn order_record(order_id: &str, link: &str) -> BybitOrderRecord {
    BybitOrderRecord {
        order_id: order_id.to_owned(),
        order_link_id: Some(link.to_owned()),
        symbol: "BTCUSDT".to_owned(),
        price: Decimal::new(60_000, 0),
        qty: Decimal::new(1, 0),
        side: "Buy".to_owned(),
        order_status: "New".to_owned(),
        cum_exec_qty: Decimal::zero(),
        created_time: 1_711_234_567_890,
    }
}

fn control(topic: Option<&str>, op: Option<&str>, success: Option<bool>, msg: &str)
    -> BybitWsControlEnvelope
{
    BybitWsControlEnvelope {
        topic: topic.map(|t| t.to_owned()),
        op: op.map(|o| o.to_owned()),
        success,
        ret_msg: Some(msg.to_owned()),
    }
}

#[test]
fn bybit_adapter_dry_run_returns_synthetic_ack_without_rest_call() {
    let mut adapter = BybitAdapter::new(sample_config());
    let mut calls = 0;
    let submission = sample_submission("dry-run-1", OrderType::Limit, TimeInForce::GTC, true);
    let ack = submit(&mut adapter, &submission, order_one(), Ok(None), &mut calls).unwrap();
    assert!(ack.venue_order_id.text().starts_with("bybit-dryrun-"));
    assert_eq!(calls, 0);
}

#[test]
fn bybit_adapter_rejects_unsupported_order_type() {
    let mut adapter = BybitAdapter::new(sample_config());
    let mut calls = 0;
    let submission = sample_submission("trail-1", OrderType::TrailingStop, TimeInForce::GTC, false);
    let err = submit(&mut adapter, &submission, order_one(), Ok(None), &mut calls).unwrap_err();
    assert!(matches!(err, GatewayError::Unsupported(_)));
}

#[test]
fn bybit_adapter_duplicate_client_order_id_uses_cache() {
    let mut adapter = connected();
    let mut calls = 0;
    let submission = limit("cached-1");
    let first = submit(&mut adapter, &submission, order_one(), Ok(None), &mut calls).unwrap();
    let second = submit(&mut adapter, &submission, order_one(), Ok(None), &mut calls).unwrap();
    assert_eq!(first.venue_order_id, second.venue_order_id);
    assert_eq!(calls, 1);
}

#[test]
fn bybit_adapter_duplicate_from_venue_falls_back_to_lookup() {
    let mut adapter = connected();
    let mut calls = 0;
    let ack = submit(
        &mut adapter,
        &limit("lookup-1"),
        Err(BybitRestError::DuplicateClientOrderId),
        Ok(Some(order_record("existing-order", "lookup-1"))),
        &mut calls,
    )
    .unwrap();
    assert_eq!(ack.venue_order_id, VenueOrderId("existing-order".into()));
}

#[test]
fn unknown_duplicate_is_rejected() {
    let mut adapter = connected();
    let mut calls = 0;
    let duplicate = Err(BybitRestError::DuplicateClientOrderId);
    let err = submit(&mut adapter, &limit("lookup-2"), duplicate, Ok(None), &mut calls)
        .unwrap_err();
    assert!(matches!(err, GatewayError::VenueRejected { .. }), "{err:?}");
}

#[test]
fn bybit_adapter_private_execution_message_emits_fill() {
    let mut adapter = BybitAdapter::new(sample_config());
    let message = control(Some("execution.linear"), None, None, "");
    assert!(matches!(private_message(&message), PrivateMessage::Executions));
    let fills = adapter
        .on_executions(&vec![BybitExecutionRecord {
            symbol: "BTCUSDT".to_owned(),
            order_id: "order-1".to_owned(),
            order_link_id: "client-1".to_owned(),
            side: "Buy".to_owned(),
            exec_qty: dec("0.5"),
            exec_price: dec("60001.5"),
            exec_fee: dec("0.01"),
            exec_time: 1_711_234_567_890,
            is_maker: false,
        }])
        .unwrap();
    assert_eq!(fills.len(), 1);
    assert_eq!(fills[0].venue_order_id, VenueOrderId("order-1".into()));
    assert_eq!(fills[0].client_order_id, ClientOrderId("client-1".into()));
    assert_eq!(fills[0].qty, Decimal::new(5, 1));
    assert_eq!(fills[0].price, Decimal::new(600_015, 1));
    assert_eq!(
        adapter.known_market(&VenueOrderId("order-1".into())),
        Some(MarketId("BTCUSDT".into()))
    );
}

#[test]
fn bybit_adapter_private_stream_control_messages_do_not_emit_fill() {
    assert!(matches!(
        private_message(&control(None, Some("auth"), Some(true), "")),
        PrivateMessage::Control(Ok(PrivateStreamControl::Authenticated))
    ));
    assert!(matches!(
        private_message(&control(None, Some("subscribe"), Some(true), "")),
        PrivateMessage::Control(Ok(PrivateStreamControl::Subscribed))
    ));
    assert!(matches!(
        private_message(&control(Some("wallet"), None, None, "")),
        PrivateMessage::Control(Ok(PrivateStreamControl::Ignore))
    ));
}

#[test]
fn bybit_adapter_private_stream_auth_rejection_returns_error() {
    match private_message(&control(None, Some("auth"), Some(false), "bad api key")) {
        PrivateMessage::Control(Err(GatewayError::VenueRejected { reason })) => {
            assert!(reason.contains("bad api key"))
        }
        other => panic!("expected a rejection, got {other:?}"),
    }
}

fn book() -> BybitOrderbookData {
    BybitOrderbookData {
        symbol: "BTCUSDT".to_owned(),
        bids: vec![("60000.5".to_owned(), "1.2".to_owned())],
        asks: vec![("60001.0".to_owned(), "0.9".to_owned())],
        ts: 1_711_234_567_890,
    }
}

#[test]
fn bybit_adapter_public_orderbook_message_updates_snapshot() {
    let mut adapter = BybitAdapter::new(sample_config());
    assert!(public_message(&control(Some("orderbook.1.BTCUSDT"), None, None, "")).unwrap());
    adapter.on_orderbook(&vec![book()], now()).unwrap();
    let snapshot = adapter.latest_orderbook(&MarketId("BTCUSDT".into())).expect("snapshot");
    assert_eq!(snapshot.bids[0].price, Decimal::new(600_005, 1));
    assert_eq!(snapshot.asks[0].qty, Decimal::new(9, 1));
    assert_eq!(snapshot.observed_at.timestamp_millis(), 1_711_234_567_890);
}

#[test]
fn crossed_or_unreadable_books_are_refused() {
    let mut adapter = BybitAdapter::new(sample_config());
    let mut crossed = book();
    crossed.bids[0].0 = "60002".to_owned();
    assert!(matches!(
        adapter.on_orderbook(&vec![crossed], now()).unwrap_err(),
        GatewayError::Validation(_)
    ));
    let mut unreadable = book();
    unreadable.asks[0].1 = "many".to_owned();
    assert!(matches!(
        adapter.on_orderbook(&vec![unreadable], now()).unwrap_err(),
        GatewayError::Validation(_)
    ));
    assert!(adapter.latest_orderbook(&MarketId("BTCUSDT".into())).is_none());
}

#[test]
fn bybit_adapter_public_stream_subscribe_ack_is_ignored() {
    let adapter = BybitAdapter::new(sample_config());
    assert!(!public_message(&control(None, Some("subscribe"), Some(true), "")).unwrap());
    assert!(public_message(&control(None, Some("subscribe"), Some(false), "no")).is_err());
    assert!(adapter.latest_orderbook(&MarketId("BTCUSDT".into())).is_none());
}

#[test]
fn bybit_adapter_duplicate_resting_cancel_uses_cached_market_id() {
    let mut adapter = connected();
    let mut calls = 0;
    let ack = submit(&mut adapter, &limit("cancel-1"), order_one(), Ok(None), &mut calls).unwrap();
    let market = adapter.known_market(&ack.venue_order_id).unwrap();
    let request = cancel_request(&market, &ack.venue_order_id);
    assert_eq!(request.symbol, "BTCUSDT");
    assert_eq!(request.order_id, "bybit-order-1");
    assert_eq!(request.category, "linear");
}

#[test]
fn bybit_adapter_connect_disconnect_updates_health() {
    let mut adapter = connected();
    assert!(adapter.connection_health.is_submittable());
    adapter.disconnect();
    assert!(matches!(adapter.connection_health.state, ConnectionState::Disconnected));
    let err = submit(&mut adapter, &limit("late-1"), order_one(), Ok(None), &mut 0).unwrap_err();
    assert!(matches!(err, GatewayError::VenueNotConnected { .. }));
}

#[test]
fn bybit_adapter_requires_private_stream_readiness_for_live_submit() {
    let mut config = sample_config();
    config.enable_private_stream = true;
    let mut adapter = BybitAdapter::new(config);
    adapter.connection_health.state = ConnectionState::Connected;
    match submit(&mut adapter, &limit("stream-gate-1"), order_one(), Ok(None), &mut 0) {
        Err(GatewayError::VenueNotConnected { state, .. }) => {
            assert_eq!(state, "private stream not ready")
        }
        other => panic!("expected a refusal, got {other:?}"),
    }
}

// ─── Requests and replies ───

#[test]
fn configuration_chooses_the_network() {
    let mut config = sample_config();
    assert_eq!(config.rest_base_url(), "https://api-testnet.bybit.com");
    assert_eq!(config.private_ws_url(), "wss://stream-testnet.bybit.com/v5/private");
    assert_eq!(config.public_linear_ws_url(), "wss://stream-testnet.bybit.com/v5/public/linear");
    config.testnet = false;
    assert_eq!(config.rest_base_url(), "https://api.bybit.com");
}

#[test]
fn submissions_translate_into_requests() {
    let request = translate_submission(&limit("c-1")).unwrap();
    assert_eq!(request.category, "linear");
    assert_eq!(request.symbol, "BTCUSDT");
    assert_eq!(request.side, "Buy");
    assert_eq!(request.order_type, "Limit");
    assert_eq!(request.qty, "1");
    assert_eq!(request.price, Some("60000".to_owned()));
    assert_eq!(request.time_in_force, "GTC");
    assert_eq!(request.order_link_id, "c-1");
    assert!(!request.reduce_only);
    assert!(translate_submission(&sample_submission(
        "c-2",
        OrderType::TrailingStop,
        TimeInForce::GTC,
        false
    ))
    .is_err());
}

#[test]
fn error_codes_are_classified() {
    assert!(matches!(classify_bybit_error(10001, ""), BybitRestError::Validation(_)));
    assert!(matches!(classify_bybit_error(10014, ""), BybitRestError::DuplicateClientOrderId));
    assert!(matches!(classify_bybit_error(110072, ""), BybitRestError::DuplicateClientOrderId));
    assert!(matches!(classify_bybit_error(110001, ""), BybitRestError::OrderNotFound));
    assert!(matches!(classify_bybit_error(110003, ""), BybitRestError::Validation(_)));
    assert!(matches!(classify_bybit_error(10006, ""), BybitRestError::VenueRejected(_)));
    assert!(matches!(
        classify_bybit_error(1, "Duplicate link"),
        BybitRestError::DuplicateClientOrderId
    ));
    match classify_bybit_error(-7, "odd") {
        BybitRestError::VenueRejected(why) => {
            assert_eq!(why, "bybit api error -7: request was rejected")
        }
        other => panic!("unexpected class {other:?}"),
    }
    assert!(matches!(
        BybitRestError::OrderNotFound.into_gateway(),
        GatewayError::OrderNotFound(_)
    ));
    assert!(matches!(
        BybitRestError::Transport("down".into()).into_gateway(),
        GatewayError::Internal(_)
    ));
}

#[test]
fn words_of_the_exchange_are_read() {
    assert_eq!(bybit_side(Side::Sell), "Sell");
    assert_eq!(parse_bybit_side("Buy").unwrap(), Side::Buy);
    assert!(parse_bybit_side("Hold").is_err());
    assert_eq!(signed_position_qty("Sell", dec("2")).unwrap(), dec("-2"));
    assert_eq!(parse_bybit_order_state("PartiallyFilled"), OrderState::PartiallyFilled);
    assert_eq!(parse_bybit_order_state("New"), OrderState::Accepted);
    assert_eq!(parse_decimal("60001.50").unwrap().text(), "60001.50");
    assert!(parse_decimal("x").is_err());
    assert_eq!(millis_to_datetime(1_711_234_567_890).unwrap().timestamp_millis(), 1_711_234_567_890);
    assert!(millis_to_datetime(i64::MAX).is_err());
    let levels = parse_price_levels(&vec![("1.5".to_owned(), "2".to_owned())]).unwrap();
    assert_eq!(levels[0].price, dec("1.5"));
    assert_eq!(
        query_string(&vec![("category", "linear".to_owned()), ("symbol", "BTCUSDT".to_owned())]),
        "category=linear&symbol=BTCUSDT"
    );
    assert_eq!(public_topics(&vec![MarketId("BTCUSDT".into())]), vec!["orderbook.1.BTCUSDT"]);
    assert!(private_payload_error("eof").text().contains("eof"));
}

#[test]
fn positions_orders_and_balances_are_taken_over() {
    let position = |size: &str| BybitPositionRecord {
        symbol: "BTCUSDT".to_owned(),
        side: "Sell".to_owned(),
        size: dec(size),
        avg_price: dec("60000"),
        position_value: dec("120000"),
        unrealised_pnl: dec("-5"),
    };
    let positions = positions_from(&vec![position("0"), position("2")]).unwrap();
    assert_eq!(positions.len(), 1);
    assert_eq!(positions[0].qty, dec("-2"));

    let mut adapter = BybitAdapter::new(sample_config());
    let orders = adapter.open_orders_from(&vec![order_record("o-1", "c-1")]).unwrap();
    assert_eq!(orders[0].state, OrderState::Accepted);
    assert_eq!(
        market_for_venue_order_id(&orders, &VenueOrderId("o-1".into())).unwrap(),
        MarketId("BTCUSDT".into())
    );
    assert!(market_for_venue_order_id(&orders, &VenueOrderId("o-2".into())).is_err());
    let mut odd = order_record("o-3", "c-3");
    odd.side = "Hold".to_owned();
    assert!(adapter.open_orders_from(&vec![odd]).is_err());

    let record = BybitBalanceRecord {
        total_equity: dec("100"),
        total_available_balance: dec("60"),
        total_margin_balance: dec("90"),
        total_perp_upl: dec("1"),
    };
    assert!(first_balance(&vec![]).is_err());
    let balance = checked_balance_from(&first_balance(&vec![record]).unwrap(), now()).unwrap();
    assert_eq!(balance.margin_used, dec("30"));
    assert_eq!(balance.available_balance, dec("60"));
    assert!(matches!(
        adapter.amend_order(&VenueOrderId("o-1".into()), None, None),
        Err(GatewayError::Unsupported(_))
    ));
}

// ─── Signatures ───

#[test]
fn signature_is_the_known_code() {
    let secret = ApiSecret::new("key".to_owned());
    assert_eq!(
        sign_hmac(&secret, "The quick brown fox jumps over the lazy dog"),
        "f7bc83f430538424b13298e6aa6fb143ef4d59a14946175997479dbc2d1a3cd8"
    );
    assert_eq!(
        sign_rest_payload(&secret, "The quick", " brown fox ", 5, "!"),
        sign_hmac(&secret, "The quick brown fox 5!")
    );
}

#[test]
fn stream_credentials_expire_after_the_window() {
    let config = sample_config();
    let (expires, code) = stream_credentials(&config, Timestamp::from_millis(1_000));
    assert_eq!(expires, 6_000);
    assert_eq!(code, sign_hmac(&config.auth.api_secret, "GET/realtime6000"));
}

// ─── Rate limit and streams ───

#[test]
fn tokens_run_out_and_come_back() {
    let mut bucket = TokenBucket::new(2);
    assert!(bucket.acquire(0));
    assert!(bucket.acquire(0));
    assert!(!bucket.acquire(0));
    assert!(bucket.acquire(5));
    assert_eq!(bucket.available_tokens, 1);
}

#[test]
fn private_session_authenticates_and_subscribes() {
    let mut session = StreamSession::new(StreamKind::Private);
    assert_eq!(session.step(StreamEvent::Rested), StreamAction::Connect);
    assert_eq!(session.step(StreamEvent::Connected), StreamAction::SendCredentials);
    assert_eq!(session.step(StreamEvent::Sent), StreamAction::Receive);
    let authenticated = StreamEvent::Text(PrivateStreamControl::Authenticated);
    assert_eq!(session.step(authenticated), StreamAction::SendSubscription);
    assert_eq!(session.step(StreamEvent::Sent), StreamAction::Receive);
    assert!(!session.ready);
    let subscribed = StreamEvent::Text(PrivateStreamControl::Subscribed);
    assert_eq!(session.step(subscribed), StreamAction::Receive);
    assert!(session.ready);
    assert_eq!(session.phase, StreamPhase::Live);
    assert_eq!(session.step(StreamEvent::HeartbeatDue), StreamAction::SendPing);
    assert_eq!(session.step(StreamEvent::PingReceived), StreamAction::SendPong);
    assert_eq!(session.step(StreamEvent::Closed), StreamAction::Rest(1));
    assert_eq!(session.step(StreamEvent::Rested), StreamAction::Connect);
    assert!(!session.ready);
}

#[test]
fn rests_double_up_to_the_longest() {
    let mut session = StreamSession::new(StreamKind::Public);
    let mut rests = Vec::new();
    for _ in 0..7 {
        assert_eq!(session.step(StreamEvent::Rested), StreamAction::Connect);
        match session.step(StreamEvent::ConnectFailed) {
            StreamAction::Rest(seconds) => rests.push(seconds),
            other => panic!("expected a rest, got {other:?}"),
        }
    }
    assert_eq!(rests, vec![1, 2, 4, 8, 16, 30, 30]);
    session.step(StreamEvent::Rested);
    assert_eq!(session.step(StreamEvent::Connected), StreamAction::SendSubscription);
    assert_eq!(session.step(StreamEvent::Sent), StreamAction::Receive);
    assert_eq!(session.backoff, 1);
}

#[test]
fn rest_queries_are_what_the_exchange_expects() {
    let query = order_by_link_id_query(
        &MarketId("BTCUSDT".to_owned()),
        &ClientOrderId("agent-1".to_owned()),
    );
    assert_eq!(query.path, "/v5/order/realtime");
    assert_eq!(
        query_string(&query.parameters),
        "category=linear&symbol=BTCUSDT&orderLinkId=agent-1&openOnly=0&limit=1"
    );
    let query = open_orders_query();
    assert_eq!(query.path, "/v5/order/realtime");
    assert_eq!(query_string(&query.parameters), "category=linear&openOnly=0&limit=50");
    let query = positions_query();
    assert_eq!(query.path, "/v5/position/list");
    assert_eq!(query_string(&query.parameters), "category=linear&settleCoin=USDT");
    let query = balance_query();
    assert_eq!(query.path, "/v5/account/wallet-balance");
    assert_eq!(query_string(&query.parameters), "accountType=UNIFIED");
    assert_eq!(create_order_path(), "/v5/order/create");
    assert_eq!(cancel_order_path(), "/v5/order/cancel");
    assert_eq!(
        private_topics(),
        vec!["execution.linear", "order.linear", "position.linear"]
    );
}

#[test]
fn envelope_code_zero_gives_the_result() {
    assert!(matches!(unwrap_envelope(0, "OK", 7u8), Ok(7)));
    assert!(matches!(
        unwrap_envelope(110001, "order not exists", 7u8),
        Err(BybitRestError::OrderNotFound)
    ));
    assert!(first_order(Vec::new()).is_none());
}
