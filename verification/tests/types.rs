use chrono::{DateTime, Utc};
use feynman::clock::{Clock, SimulatedClock, WallClock};
use feynman::decimal::Decimal;
use feynman::engine::{RiskApproval, SequenceGenerator};
use feynman::fees::{Fee, FeeError, FeeEstimate, FeeSchedule, GasModel};
use feynman::health::{
    DegradationPolicy, EngineHealth, OverallHealth, SubsystemHealth, SubsystemId,
};
use feynman::ids::{
    AccountId, AgentId, ClientOrderId, ClientOrderIdGenerator, InstrumentId, MarketId, OrderId,
    SequenceId, VenueId, VenueOrderId,
};
use feynman::limits::{RiskCheckResult, RiskViolation, ViolationType};
use feynman::market_data::{MarketDataError, OrderbookSnapshot, PriceLevel};
use feynman::pipeline::{
    ExecHint, Fill, LiveOrder, OrderCore, OrderState, OrderType, PipelineOrder, RiskApprovalStamp,
    Routed, RoutingAssignment, TimeInForce, VenueState,
};
use feynman::pnl::{MarkToMarketSnapshot, PriceSnapshot};
use feynman::portfolio::{AgentAllocation, AgentStatus};
use feynman::reconciliation::{
    PositionDivergence, ReconciliationAction, ReconciliationConfig, ReconciliationReport,
};
use feynman::signal::{Side, Urgency};
use feynman::time::{Duration, Timestamp};
use feynman::venue::{ConnectionState, HeartbeatConfig, TimeoutPolicy, VenueConnectionHealth};

fn at(text: &str) -> Timestamp {
    let t = DateTime::parse_from_rfc3339(text).unwrap().with_timezone(&Utc);
    Timestamp::from_utc_millis(t.timestamp_millis()).unwrap()
}

fn now() -> Timestamp {
    Timestamp::system_now()
}

// ─── Clocks ───

#[test]
fn test_wall_clock_returns_recent_time() {
    let clock = WallClock;
    let before = Timestamp::system_now();
    let now = clock.now();
    let after = Timestamp::system_now();
    assert!(now >= before);
    assert!(now <= after);
}

#[test]
fn wall_clock_agrees_with_utc_time() {
    let before = Utc::now().timestamp_millis();
    let now = WallClock.now().timestamp_millis();
    let after = Utc::now().timestamp_millis();
    assert!(before <= now && now <= after);
}

#[test]
fn test_simulated_clock_starts_at_given_time() {
    let start = at("2026-03-19T12:00:00Z");
    let clock = SimulatedClock::new(start);
    assert_eq!(clock.now(), start);
}

#[test]
fn test_simulated_clock_advance() {
    let start = at("2026-03-19T12:00:00Z");
    let mut clock = SimulatedClock::new(start);
    clock.advance_millis(5000);
    let expected = at("2026-03-19T12:00:05Z");
    assert_eq!(clock.now(), expected);
}

#[test]
fn test_simulated_clock_set() {
    let start = at("2026-01-01T00:00:00Z");
    let target = at("2026-06-15T10:30:00Z");
    let mut clock = SimulatedClock::new(start);
    clock.set(target);
    assert_eq!(clock.now(), target);
}

#[test]
fn simulated_clock_advances_by_durations() {
    let mut clock = SimulatedClock::at_epoch();
    assert_eq!(clock.epoch_millis(), 0);
    clock.advance(Duration::from_millis(1500));
    assert_eq!(clock.epoch_millis(), 1500);
}

/// The clock shows the same or a later time after every call.
#[test]
fn simulated_clock_never_goes_back() {
    let mut clock = SimulatedClock::new(at("2026-03-19T12:00:00Z"));
    let mut readings = vec![clock.now()];
    clock.advance_millis(0);
    readings.push(clock.now());
    clock.advance(Duration::from_millis(250));
    readings.push(clock.now());
    clock.set(at("2026-03-19T12:00:01Z"));
    readings.push(clock.now());
    clock.set(at("2026-03-19T12:00:01Z"));
    readings.push(clock.now());
    for pair in readings.windows(2) {
        assert!(pair[0] <= pair[1]);
    }
    assert_eq!(readings[4], at("2026-03-19T12:00:01Z"));
}

// ─── Fees ───

#[test]
fn test_fee_estimate_worst_case() {
    let estimate = FeeEstimate {
        as_maker: Decimal::new(-1, 4),
        as_taker: Decimal::new(6, 4),
        worst_case: Decimal::new(6, 4),
        gas_estimate: Decimal::zero(),
    };
    assert!(estimate.as_maker.is_less(estimate.worst_case));
}

#[test]
fn test_fee_net_calculation() {
    let fee = Fee {
        trading_fee: Decimal::new(6, 2),
        gas_fee: Decimal::zero(),
        rebate: Decimal::zero(),
        funding_fee: Decimal::new(-1, 2),
        net: Decimal::new(5, 2),
    };
    let net = fee
        .trading_fee
        .checked_add(fee.gas_fee)
        .and_then(|sum| sum.checked_sub(fee.rebate))
        .and_then(|sum| sum.checked_add(fee.funding_fee))
        .unwrap();
    assert_eq!(fee.net, net);
}

#[test]
fn test_gas_model_none() {
    let schedule = FeeSchedule {
        venue_id: VenueId("bybit".into()),
        tier: "VIP-0".into(),
        maker_rate: Decimal::new(1, 4),
        taker_rate: Decimal::new(6, 4),
        gas_model: GasModel::NoGas,
        instrument_overrides: vec![],
    };
    assert!(matches!(schedule.gas_model, GasModel::NoGas));
}

// ─── Health ───

#[test]
fn test_all_healthy() {
    let health = EngineHealth::evaluate(
        vec![
            (SubsystemId::VenueConnection, SubsystemHealth::Healthy),
            (SubsystemId::MessageBus, SubsystemHealth::Healthy),
            (SubsystemId::PriceFeed, SubsystemHealth::Healthy),
        ],
        now(),
    );
    assert_eq!(health.overall, OverallHealth::Healthy);
}

#[test]
fn test_venue_failure_halts() {
    let health = EngineHealth::evaluate(
        vec![
            (
                SubsystemId::VenueConnection,
                SubsystemHealth::Failed { reason: "WebSocket disconnected".into(), since: now() },
            ),
            (SubsystemId::MessageBus, SubsystemHealth::Healthy),
        ],
        now(),
    );
    assert_eq!(health.overall, OverallHealth::Halted);
}

#[test]
fn test_bus_failure_degrades() {
    let health = EngineHealth::evaluate(
        vec![
            (SubsystemId::VenueConnection, SubsystemHealth::Healthy),
            (
                SubsystemId::MessageBus,
                SubsystemHealth::Failed { reason: "Redis connection refused".into(), since: now() },
            ),
        ],
        now(),
    );
    assert_eq!(health.overall, OverallHealth::Degraded);
}

#[test]
fn test_dashboard_failure_degrades_not_halts() {
    let health = EngineHealth::evaluate(
        vec![
            (SubsystemId::VenueConnection, SubsystemHealth::Healthy),
            (
                SubsystemId::Dashboard,
                SubsystemHealth::Failed { reason: "Port in use".into(), since: now() },
            ),
        ],
        now(),
    );
    assert_eq!(health.overall, OverallHealth::Degraded);
}

#[test]
fn test_default_policies() {
    assert_eq!(SubsystemId::VenueConnection.default_policy(), DegradationPolicy::HaltTrading);
    assert_eq!(SubsystemId::PriceFeed.default_policy(), DegradationPolicy::PauseNewOrders);
    assert_eq!(SubsystemId::Dashboard.default_policy(), DegradationPolicy::LogAndContinue);
}

#[test]
fn degraded_subsystem_degrades_the_engine() {
    let health = EngineHealth::evaluate(
        vec![(
            SubsystemId::VenueConnection,
            SubsystemHealth::Degraded { reason: "slow".into(), since: now() },
        )],
        now(),
    );
    assert_eq!(health.overall, OverallHealth::Degraded);
    assert_eq!(EngineHealth::evaluate(vec![], now()).overall, OverallHealth::Healthy);
}

// ─── Identifiers ───

#[test]
fn test_client_order_id_format_and_parse() {
    let mut gen = ClientOrderIdGenerator::new(&AgentId("satoshi".into()), 3);
    let id = gen.next(now());

    assert!(id.0.starts_with("satoshi-"));
    assert!(id.0.ends_with("-r03"));
    assert_eq!(id.parse_agent(), Some(AgentId("satoshi".into())));
    assert_eq!(id.parse_restart_epoch(), Some(3));
}

#[test]
fn client_order_id_reads_back_its_sequence() {
    let mut gen = ClientOrderIdGenerator::with_start_seq(&AgentId("satoshi".into()), 7, 41);
    let id = gen.next(at("2026-03-19T12:00:00Z"));
    assert_eq!(id.0, "satoshi-1773921600000-000041-r07");
    assert_eq!(id.parse_sequence(), Some(41));
    assert_eq!(gen.current_seq(), 42);
    assert_eq!(ClientOrderId("free form".into()).parse_restart_epoch(), None);
}

/// The agent is given back whole, though its name holds dashes.
#[test]
fn client_order_id_gives_back_a_name_with_dashes() {
    for name in ["deep-blue", "a-1-000001-r01", "x-", "", "satoshi"] {
        let mut gen = ClientOrderIdGenerator::with_start_seq(&AgentId(name.into()), 7, 41);
        let id = gen.next(at("2026-03-19T12:00:00Z"));
        assert_eq!(id.0, format!("{name}-1773921600000-000041-r07"));
        assert_eq!(id.parse_agent(), Some(AgentId(name.into())));
        assert_eq!(id.parse_sequence(), Some(41));
    }
}

#[test]
fn unrecognized_client_order_id_names_no_agent() {
    for text in [
        "garbage",
        "",
        "satoshi",
        "satoshi-1773921600000-000041",
        "satoshi-1773921600000-41-r07",
        "satoshi-1773921600000-000041-07",
        "satoshi-1773921600000-000041-r7",
        "satoshi-noon-000041-r07",
        "satoshi-000041-r07",
    ] {
        assert_eq!(ClientOrderId(text.into()).parse_agent(), None, "{text}");
    }
    assert_eq!(
        ClientOrderId("satoshi-1773921600000-000041-r07".into()).parse_agent(),
        Some(AgentId("satoshi".into()))
    );
}

#[test]
fn test_client_order_id_uniqueness() {
    let mut gen = ClientOrderIdGenerator::new(&AgentId("test".into()), 0);
    let now = now();
    let id1 = gen.next(now);
    let id2 = gen.next(now);
    assert_ne!(id1, id2);
}

#[test]
fn test_sequence_id_ordering() {
    let a = SequenceId(1);
    let b = SequenceId(2);
    assert!(a < b);
    assert_eq!(a.next(), b);
    assert_eq!(SequenceId(4281).text(), "seq:4281");
}

#[test]
fn test_newtype_id_display() {
    let id = OrderId("ord-123".into());
    assert_eq!(id.text(), "ord-123");
}

#[test]
fn test_newtype_id_from_str() {
    let id: AgentId = "satoshi".into();
    assert_eq!(id.0, "satoshi");
}

#[test]
fn test_sequence_generator() {
    let mut gen = SequenceGenerator::from_zero();
    assert_eq!(gen.next_id(), SequenceId(0));
    assert_eq!(gen.next_id(), SequenceId(1));
    assert_eq!(gen.next_id(), SequenceId(2));
    assert_eq!(gen.current(), SequenceId(3));
}

#[test]
fn test_sequence_generator_resume() {
    let mut gen = SequenceGenerator::new(SequenceId(1000));
    assert_eq!(gen.next_id(), SequenceId(1000));
    assert_eq!(gen.next_id(), SequenceId(1001));
}

#[test]
fn test_risk_approval_into_stamp() {
    let approval = RiskApproval {
        approved_at: now(),
        checks_performed: vec![
            RiskCheckResult { check_name: "CB-all".into(), passed: true, message: None },
            RiskCheckResult { check_name: "RG-notional".into(), passed: true, message: None },
        ],
        warnings: vec![RiskViolation {
            check_name: "near_limit".into(),
            violation_type: ViolationType::Soft,
            current_value: "0.89".into(),
            limit: "0.90".into(),
            suggested_action: "monitor".into(),
        }],
    };
    let stamp = approval.into_stamp();
    assert_eq!(stamp.checks_performed.len(), 2);
    assert_eq!(stamp.warnings.len(), 1);
}

// ─── Market data ───

fn level(price: i64, qty: i64) -> PriceLevel {
    PriceLevel { price: Decimal::new(price, 0), qty: Decimal::new(qty, 0) }
}

fn snapshot() -> OrderbookSnapshot {
    let now = now();
    OrderbookSnapshot {
        venue_id: VenueId("paper".into()),
        instrument_id: InstrumentId("BTC".into()),
        market_id: MarketId("BTCUSDT".into()),
        bids: vec![level(10_000, 2), level(9_990, 3)],
        asks: vec![level(10_010, 1), level(10_020, 4)],
        observed_at: now,
        received_at: now,
    }
}

#[test]
fn orderbook_snapshot_mid_price_uses_top_of_book() {
    let book = snapshot();
    assert_eq!(book.checked_mid_price(), Some(Some(Decimal::new(10_005, 0))));
    assert_eq!(book.mid_price(), Some(Decimal::new(10_005, 0)));
}

#[test]
fn orderbook_snapshot_validation_rejects_unsorted_bids() {
    let mut book = snapshot();
    book.bids.swap(0, 1);
    let err = book.validate().unwrap_err();
    assert!(matches!(err, MarketDataError::BidsUnsorted { .. }));
}

#[test]
fn orderbook_snapshot_validation_rejects_crossed_book() {
    let mut book = snapshot();
    book.bids[0].price = Decimal::new(10_015, 0);
    let err = book.validate().unwrap_err();
    assert!(matches!(err, MarketDataError::CrossedBook { .. }));
}

#[test]
fn orderbook_snapshot_validation_gives_each_error() {
    assert!(snapshot().validate().is_ok());

    let mut book = snapshot();
    book.asks.swap(0, 1);
    assert!(matches!(book.validate().unwrap_err(), MarketDataError::AsksUnsorted { .. }));

    let mut book = snapshot();
    book.bids[1].qty = Decimal::zero();
    let err = book.validate().unwrap_err();
    assert!(matches!(err, MarketDataError::NonPositiveQty { level: 1, .. }));
    assert_eq!(err.text(), "non-positive quantity on bid side at level 1: 0");

    let mut book = snapshot();
    book.asks[0].price = Decimal::new(-1, 0);
    let err = book.validate().unwrap_err();
    assert!(matches!(err, MarketDataError::NonPositivePrice { level: 0, .. }));
    assert_eq!(err.text(), "non-positive price on ask side at level 0: -1");

    let mut book = snapshot();
    book.asks.clear();
    assert!(book.validate().is_ok());
    assert_eq!(book.mid_price(), None);
    assert!(book.best_ask().is_none());
    assert_eq!(book.best_bid().unwrap().price, Decimal::new(10_000, 0));
}

#[test]
fn price_level_notional_is_the_product() {
    let level = PriceLevel { price: Decimal::new(105, 1), qty: Decimal::new(3, 0) };
    assert_eq!(level.notional(), Decimal::new(315, 1));
    let huge = PriceLevel {
        price: Decimal::from_parts(79_228_162_514_264_337_593_543_950_335, 0).unwrap(),
        qty: Decimal::new(2, 0),
    };
    assert!(huge.checked_notional().is_none());
}

// ─── Orders ───

fn sample_core() -> OrderCore {
    OrderCore {
        id: OrderId("ord-1".into()),
        basket_id: None,
        agent_id: AgentId("satoshi".into()),
        instrument_id: InstrumentId("BTCUSDT".into()),
        market_id: MarketId("BTCUSDT".into()),
        venue_id: VenueId("bybit".into()),
        side: Side::Buy,
        order_type: OrderType::Limit,
        time_in_force: TimeInForce::GTC,
        qty: Decimal::new(1, 0),
        price: Some(Decimal::new(65000, 0)),
        trigger_price: None,
        stop_loss: Some(Decimal::new(60000, 0)),
        take_profit: Some(Decimal::new(70000, 0)),
        post_only: false,
        reduce_only: false,
        dry_run: true,
        exec_hint: ExecHint::default(),
        created_at: now(),
    }
}

fn routed(now: Timestamp) -> PipelineOrder<Routed> {
    let approval = RiskApprovalStamp {
        approved_at: now,
        checks_performed: vec![RiskCheckResult {
            check_name: "CB-all".into(),
            passed: true,
            message: None,
        }],
        warnings: vec![],
    };
    let routing = RoutingAssignment {
        venue_id: VenueId("bybit".into()),
        client_order_id: ClientOrderId("satoshi-123-000000-r00".into()),
        routed_at: now,
    };
    PipelineOrder::new(sample_core())
        .into_validated(now)
        .into_risk_checked(approval)
        .into_routed(routing)
}

#[test]
fn test_pipeline_transitions_compile() {
    let now = now();
    let draft = PipelineOrder::new(sample_core());

    let validated = draft.into_validated(now);
    assert_eq!(validated.validated_at(), now);

    let approval = RiskApprovalStamp {
        approved_at: now,
        checks_performed: vec![
            RiskCheckResult { check_name: "CB-all".into(), passed: true, message: None },
            RiskCheckResult { check_name: "RG-notional".into(), passed: true, message: None },
        ],
        warnings: vec![],
    };
    let risk_checked = validated.into_risk_checked(approval);
    assert_eq!(risk_checked.risk_approval().checks_performed.len(), 2);

    let routing = RoutingAssignment {
        venue_id: VenueId("bybit".into()),
        client_order_id: ClientOrderId("satoshi-123-000000-r00".into()),
        routed_at: now,
    };
    let routed = risk_checked.into_routed(routing);
    assert_eq!(routed.venue_id(), &VenueId("bybit".into()));
    assert_eq!(routed.order_core().side, Side::Buy);
    assert_eq!(routed.validated_at(), now);
    assert_eq!(routed.client_order_id().0, "satoshi-123-000000-r00");
}

#[test]
fn test_order_state_terminal() {
    assert!(!OrderState::Pending.is_terminal());
    assert!(!OrderState::Submitted.is_terminal());
    assert!(!OrderState::Accepted.is_terminal());
    assert!(!OrderState::PartiallyFilled.is_terminal());
    assert!(OrderState::Filled.is_terminal());
    assert!(OrderState::Cancelled.is_terminal());
    assert!(OrderState::Rejected.is_terminal());
    assert!(OrderState::Expired.is_terminal());
}

#[test]
fn test_order_state_active() {
    assert!(!OrderState::Pending.is_active());
    assert!(OrderState::Submitted.is_active());
    assert!(OrderState::Accepted.is_active());
    assert!(OrderState::PartiallyFilled.is_active());
    assert!(!OrderState::Filled.is_active());
}

#[test]
fn test_order_state_display() {
    assert_eq!(OrderState::PartiallyFilled.text(), "partially_filled");
    assert_eq!(OrderState::Filled.text(), "filled");
}

#[test]
fn test_venue_state_valid_transitions() {
    let s = VenueState::Submitted;
    let s = s.try_transition(VenueState::Accepted).unwrap();
    let s = s.try_transition(VenueState::PartiallyFilled).unwrap();
    let s = s.try_transition(VenueState::Filled).unwrap();
    assert!(s.is_terminal());
}

#[test]
fn test_venue_state_invalid_transition() {
    let s = VenueState::Filled;
    let err = s.try_transition(VenueState::Accepted).unwrap_err();
    assert_eq!(err.text(), "invalid venue state transition: filled → accepted");
}

#[test]
fn test_venue_state_submit_to_reject() {
    let s = VenueState::Submitted;
    let s = s.try_transition(VenueState::Rejected).unwrap();
    assert!(s.is_terminal());
}

#[test]
fn test_venue_state_partial_to_cancel() {
    let s = VenueState::PartiallyFilled;
    let s = s.try_transition(VenueState::Cancelled).unwrap();
    assert!(s.is_terminal());
}

fn half_fill(price: i64, now: Timestamp, is_maker: bool) -> Fill {
    Fill {
        order_id: OrderId("ord-1".into()),
        venue_order_id: VenueOrderId("v-ord-1".into()),
        instrument_id: InstrumentId("BTCUSDT".into()),
        side: Side::Buy,
        qty: Decimal::new(5, 1),
        price: Decimal::new(price, 0),
        fee: Decimal::new(13, 2),
        filled_at: now,
        is_maker,
    }
}

#[test]
fn test_live_order_lifecycle() {
    let now = now();
    let mut live = LiveOrder::from_routed(routed(now), now);
    assert_eq!(live.venue_state, VenueState::Submitted);
    assert_eq!(live.filled_qty, Decimal::zero());

    live.on_accepted(VenueOrderId("v-ord-1".into()), now).unwrap();
    assert_eq!(live.venue_state, VenueState::Accepted);

    live.checked_on_fill(half_fill(65000, now, true), now).unwrap().unwrap();
    assert_eq!(live.venue_state, VenueState::PartiallyFilled);
    assert_eq!(live.filled_qty, Decimal::new(5, 1));

    live.checked_on_fill(half_fill(65100, now, false), now).unwrap().unwrap();
    assert_eq!(live.venue_state, VenueState::Filled);
    assert!(live.venue_state.is_terminal());
    assert_eq!(live.fills.len(), 2);
    assert_eq!(live.remaining_qty, Decimal::zero());
    assert_eq!(live.avg_fill_price, Some(Decimal::new(65050, 0)));
}

#[test]
fn finished_order_takes_no_fill() {
    let now = now();
    let mut live = LiveOrder::from_routed(routed(now), now);
    live.on_reject(now).unwrap();
    assert!(live.on_cancel(now).is_err());
    assert!(live.on_expire(now).is_err());
    assert!(live.checked_on_fill(half_fill(65000, now, true), now).unwrap().is_err());
    assert_eq!(live.venue_state, VenueState::Rejected);
}

#[test]
fn order_words_are_fixed() {
    assert_eq!(OrderType::StopMarket.text(), "stop_market");
    assert_eq!(TimeInForce::IOC.text(), "IOC");
    assert_eq!(
        TimeInForce::GTD { expire_at: at("2026-03-19T12:00:00Z") }.text(),
        "GTD(2026-03-19 12:00:00 UTC)"
    );
    assert_eq!(VenueState::PartiallyFilled.text(), "partially_filled");
}

// ─── Profit and loss ───

#[test]
fn test_mark_to_market_long_profit() {
    let mtm = MarkToMarketSnapshot::checked_compute(
        InstrumentId("BTC".into()),
        Decimal::new(1, 0),
        Decimal::new(60000, 0),
        Decimal::new(65000, 0),
        now(),
    )
    .unwrap();
    assert_eq!(mtm.unrealized_pnl, Decimal::new(5000, 0));
    assert_eq!(mtm.notional_value, Decimal::new(65000, 0));
}

#[test]
fn test_mark_to_market_short_profit() {
    let mtm = MarkToMarketSnapshot::compute(
        InstrumentId("ETH".into()),
        Decimal::new(-10, 0),
        Decimal::new(3000, 0),
        Decimal::new(2800, 0),
        now(),
    );
    assert_eq!(mtm.unrealized_pnl, Decimal::new(2000, 0));
}

#[test]
fn test_mark_to_market_loss() {
    let mtm = MarkToMarketSnapshot::compute(
        InstrumentId("BTC".into()),
        Decimal::new(1, 0),
        Decimal::new(60000, 0),
        Decimal::new(55000, 0),
        now(),
    );
    assert_eq!(mtm.unrealized_pnl, Decimal::new(-5000, 0));
}

fn price_snapshot(bid: i64, ask: i64, mid: i64) -> PriceSnapshot {
    PriceSnapshot {
        instrument: InstrumentId("BTC".into()),
        bid: Decimal::new(bid, 0),
        ask: Decimal::new(ask, 0),
        mid: Decimal::new(mid, 0),
        last: Decimal::new(65005, 0),
        observed_at: now(),
        received_at: now(),
    }
}

#[test]
fn test_price_snapshot_spread() {
    let snap = price_snapshot(64990, 65010, 65000);
    assert_eq!(snap.checked_spread(), Some(Decimal::new(20, 0)));
    assert_eq!(snap.spread(), Decimal::new(20, 0));
}

#[test]
fn spread_in_basis_points_needs_a_mid_price() {
    assert_eq!(
        price_snapshot(99, 101, 100).checked_spread_bps(),
        Some(Some(Decimal::new(200, 0)))
    );
    assert_eq!(price_snapshot(99, 101, 100).spread_bps(), Some(Decimal::new(200, 0)));
    assert_eq!(price_snapshot(0, 0, 0).spread_bps(), None);
}

#[test]
fn test_allocation_arithmetic() {
    let alloc = AgentAllocation {
        allocated_capital: Decimal::new(50000, 0),
        used_capital: Decimal::new(32100, 0),
        free_capital: Decimal::new(17900, 0),
        realized_pnl: Decimal::new(890, 0),
        unrealized_pnl: Decimal::new(500, 0),
        current_drawdown: Decimal::new(-120, 3),
        max_drawdown_limit: Decimal::new(-30, 3),
        status: AgentStatus::Active,
    };
    assert_eq!(
        Some(alloc.allocated_capital),
        alloc.used_capital.checked_add(alloc.free_capital)
    );
    assert_eq!(alloc.status.text(), "active");
}

// ─── Reconciliation ───

#[test]
fn test_clean_report() {
    let report = ReconciliationReport {
        venue_id: VenueId("bybit".into()),
        account_id: AccountId("main".into()),
        started_at: now(),
        completed_at: now(),
        position_divergences: vec![],
        order_divergences: vec![],
        balance_divergence: None,
    };
    assert!(report.is_clean());
    assert_eq!(report.divergence_count(), 0);
}

#[test]
fn test_report_with_divergences() {
    let report = ReconciliationReport {
        venue_id: VenueId("bybit".into()),
        account_id: AccountId("main".into()),
        started_at: now(),
        completed_at: now(),
        position_divergences: vec![PositionDivergence {
            instrument: InstrumentId("BTC".into()),
            engine_qty: Decimal::new(1, 0),
            venue_qty: Decimal::new(105, 2),
            delta: Decimal::new(5, 2),
            action: ReconciliationAction::AcceptVenue,
        }],
        order_divergences: vec![],
        balance_divergence: None,
    };
    assert!(!report.is_clean());
    assert_eq!(report.divergence_count(), 1);
}

#[test]
fn reconciliation_defaults() {
    let config = ReconciliationConfig::default();
    assert_eq!(config.halt_threshold, Decimal::new(10, 0));
    assert!(config.on_reconnect);
}

// ─── Signals and venues ───

#[test]
fn test_urgency_ordering() {
    assert!(Urgency::Low < Urgency::Immediate);
    assert!(Urgency::Normal < Urgency::High);
}

#[test]
fn test_connection_health_initial_state() {
    let health = VenueConnectionHealth::new(VenueId("bybit".into()));
    assert!(!health.is_submittable());
    assert!(!health.is_degraded());
    assert_eq!(health.state, ConnectionState::Disconnected);
}

#[test]
fn degraded_connection_takes_no_orders() {
    let mut health = VenueConnectionHealth::new(VenueId("bybit".into()));
    health.state = ConnectionState::Connected;
    assert!(health.is_submittable() && !health.is_degraded());
    for state in [
        ConnectionState::HeartbeatLate { last_heartbeat: now(), missed_count: 2 },
        ConnectionState::Stale { last_heartbeat: now(), stale_since: now() },
        ConnectionState::Reconnecting { attempt: 1 },
    ] {
        health.state = state;
        assert!(health.is_degraded() && !health.is_submittable());
    }
}

#[test]
fn test_timeout_policy_defaults() {
    let policy = TimeoutPolicy::default();
    assert_eq!(policy.submit_order, Duration::from_secs(10));
    assert_eq!(policy.fill_watchdog, Duration::from_secs(60));
}

#[test]
fn test_heartbeat_config_defaults() {
    let config = HeartbeatConfig::default();
    assert_eq!(config.interval, Duration::from_secs(5));
    assert_eq!(config.stale_threshold, Duration::from_secs(30));
}

#[test]
fn connection_states_have_debug_texts() {
    assert_eq!(ConnectionState::Connected.debug_text(), "Connected");
    assert_eq!(
        ConnectionState::Reconnecting { attempt: 3 }.debug_text(),
        "Reconnecting { attempt: 3 }"
    );
    let t = at("2026-03-19T12:00:00Z");
    assert_eq!(
        ConnectionState::HeartbeatLate { last_heartbeat: t, missed_count: 2 }.debug_text(),
        "HeartbeatLate { last_heartbeat: 2026-03-19T12:00:00Z, missed_count: 2 }"
    );
}

#[test]
fn fee_errors_have_texts() {
    let err = FeeError::NoSchedule(VenueId("kraken".into()));
    assert_eq!(err.text(), "no fee schedule for venue kraken");
    let err =
        FeeError::NoInstrumentSchedule(InstrumentId("BTC".into()), VenueId("kraken".into()));
    assert_eq!(err.text(), "no fee schedule for instrument BTC on venue kraken");
    let err = FeeError::Calculation("overflow".into());
    assert_eq!(err.text(), "fee calculation failed: overflow");
}

#[test]
fn a_fill_moves_quantity_from_remaining_to_filled() {
    let now = now();
    let mut live = LiveOrder::from_routed(routed(now), now);
    let whole = live.filled_qty.checked_add(live.remaining_qty).unwrap();
    for (mantissa, scale) in [(1, 1), (25, 2), (125, 3)] {
        let mut fill = half_fill(65000, now, true);
        fill.qty = Decimal::new(mantissa, scale);
        live.checked_on_fill(fill, now).unwrap().unwrap();
        assert_eq!(live.filled_qty.checked_add(live.remaining_qty), Some(whole));
    }
    assert_eq!(live.filled_qty, Decimal::new(475, 3));
}
