use feynman::circuit_breaker::{
    Cb10DryRunBypass, Cb11SequencerQueueDepth, Cb1MaxSingleOrderNotional, Cb2MaxInstrumentPosition,
    Cb3MaxFirmGrossNotional, Cb4FirmDailyLoss, Cb5FirmHourlyLoss, Cb6FirmOrdersPerMinute,
    Cb7AgentOrdersPerMinute, Cb8VenueErrorRate, Cb9VenueDisconnected, CircuitBreaker,
    CircuitBreakerBank, CircuitBreakerConfig, CircuitBreakerContext, CircuitBreakerResult,
    ExecutionMode, OperationKind, ResetReason, VenueErrorStats,
};
use feynman::clock::{Clock, SimulatedClock, WallClock};
use feynman::decimal::Decimal;
use feynman::ids::{AgentId, InstrumentId, MarketId, OrderId, VenueId};
use feynman::pipeline::{
    ExecHint, OrderCore, OrderType, PipelineOrder, TimeInForce, Validated,
};
use feynman::portfolio::{
    AgentAllocation, AgentStatus, FirmBook, InstrumentExposure, PredictionExposureSummary,
};
use feynman::signal::Side;
use feynman::table::Table;
use feynman::time::{Duration, Timestamp};
use feynman::venue::{ConnectionState, VenueConnectionHealth};

// ── Fixture builders ──

fn dec(text: &str) -> Decimal {
    Decimal::parse(text).unwrap()
}

fn test_config() -> CircuitBreakerConfig {
    CircuitBreakerConfig {
        max_single_order_notional: dec("100000"),
        max_instrument_position_notional: dec("500000"),
        max_firm_gross_notional: dec("1000000"),
        max_daily_loss_pct: dec("0.05"),
        max_hourly_loss_pct: dec("0.02"),
        max_firm_orders_per_min: 100,
        max_agent_orders_per_min: 20,
        max_venue_error_rate: dec("0.5"),
        max_venue_disconnect_secs: 30,
        max_sequencer_queue_depth: 1000,
    }
}

fn test_firm_book() -> FirmBook {
    let mut agent_allocations = Table::new();
    agent_allocations.insert(
        "satoshi".to_owned(),
        AgentAllocation {
            allocated_capital: dec("100000"),
            used_capital: Decimal::zero(),
            free_capital: dec("100000"),
            realized_pnl: Decimal::zero(),
            unrealized_pnl: Decimal::zero(),
            current_drawdown: Decimal::zero(),
            max_drawdown_limit: dec("-0.15"),
            status: AgentStatus::Active,
        },
    );
    FirmBook {
        nav: dec("1000000"),
        gross_notional: dec("200000"),
        net_notional: dec("100000"),
        realized_pnl: Decimal::zero(),
        unrealized_pnl: Decimal::zero(),
        daily_pnl: Decimal::zero(),
        hourly_pnl: Decimal::zero(),
        current_drawdown_pct: Decimal::zero(),
        allocated_capital: dec("500000"),
        cash_available: dec("800000"),
        total_fees_paid: Decimal::zero(),
        agent_allocations,
        instruments: Vec::new(),
        prediction_exposure: PredictionExposureSummary {
            total_notional: Decimal::zero(),
            pct_of_nav: Decimal::zero(),
            unresolved_markets: 0,
        },
        as_of: Timestamp::system_now(),
    }
}

fn order_core(qty: &str, price: &str) -> OrderCore {
    OrderCore {
        id: OrderId("ord-1".into()),
        basket_id: None,
        agent_id: AgentId("satoshi".into()),
        instrument_id: InstrumentId("BTC-USD".into()),
        market_id: MarketId("BTC-USD".into()),
        venue_id: VenueId("bybit".into()),
        side: Side::Buy,
        order_type: OrderType::Limit,
        time_in_force: TimeInForce::GTC,
        qty: dec(qty),
        price: Some(dec(price)),
        trigger_price: None,
        stop_loss: dec(price).checked_sub(dec("5")),
        take_profit: None,
        post_only: false,
        reduce_only: false,
        dry_run: true,
        exec_hint: ExecHint::default(),
        created_at: Timestamp::system_now(),
    }
}

fn validated(core: OrderCore) -> PipelineOrder<Validated> {
    PipelineOrder::new(core).into_validated(Timestamp::system_now())
}

fn test_order(qty: &str, price: &str) -> PipelineOrder<Validated> {
    validated(order_core(qty, price))
}

fn long_four(book: &mut FirmBook) {
    book.instruments.push(InstrumentExposure {
        instrument: InstrumentId("BTC-USD".into()),
        net_qty: dec("4"),
        gross_qty: dec("4"),
        net_notional_usd: dec("400000"),
        gross_notional_usd: dec("400000"),
        by_venue: Vec::new(),
        by_agent: Vec::new(),
    });
}

fn connected_venue_health() -> VenueConnectionHealth {
    let mut h = VenueConnectionHealth::new(VenueId("bybit".into()));
    h.state = ConnectionState::Connected;
    h.last_heartbeat_at = Some(Timestamp::system_now());
    h
}

struct Fixture {
    config: CircuitBreakerConfig,
    book: FirmBook,
    order: Option<PipelineOrder<Validated>>,
    health: Table<VenueConnectionHealth>,
    stats: Table<VenueErrorStats>,
    agent_orders: Table<u32>,
}

impl Fixture {
    fn new() -> Fixture {
        Fixture {
            config: test_config(),
            book: test_firm_book(),
            order: None,
            health: Table::new(),
            stats: Table::new(),
            agent_orders: Table::new(),
        }
    }

    fn with_order(order: PipelineOrder<Validated>) -> Fixture {
        let mut f = Fixture::new();
        f.order = Some(order);
        f
    }

    fn with_health(mut self, health: VenueConnectionHealth) -> Fixture {
        self.health.insert("bybit".to_owned(), health);
        self
    }

    fn ctx<'a>(&'a self, clock: &'a dyn Clock) -> CircuitBreakerContext<'a> {
        CircuitBreakerContext {
            order: self.order.as_ref(),
            firm_book: &self.book,
            venue_health: &self.health,
            venue_error_stats: &self.stats,
            firm_orders_last_60s: 0,
            agent_orders_last_60s: &self.agent_orders,
            sequencer_queue_depth: 0,
            execution_mode: ExecutionMode::Paper,
            operation_kind: OperationKind::NewOrder,
            config: &self.config,
            clock,
        }
    }
}

fn rejected_by(r: CircuitBreakerResult, id: &str) -> bool {
    matches!(r, CircuitBreakerResult::Reject { breaker, .. } if breaker == id)
}

fn halted_by(r: CircuitBreakerResult, id: &str) -> bool {
    matches!(r, CircuitBreakerResult::HaltAll { breaker, .. } if breaker == id)
}

fn manual() -> ResetReason {
    ResetReason::ManualOperator { operator: "ops".into() }
}

// ── CB-1: Max single order notional ──

#[test]
fn cb1_below_limit_passes() {
    let clock = SimulatedClock::at_epoch();
    let f = Fixture::with_order(test_order("1", "99999")).with_health(connected_venue_health());
    assert_eq!(Cb1MaxSingleOrderNotional.check(&f.ctx(&clock)), CircuitBreakerResult::Pass);
}

#[test]
fn cb1_exactly_at_limit_passes() {
    let clock = SimulatedClock::at_epoch();
    let f = Fixture::with_order(test_order("1", "100000")).with_health(connected_venue_health());
    assert_eq!(Cb1MaxSingleOrderNotional.check(&f.ctx(&clock)), CircuitBreakerResult::Pass);
}

#[test]
fn cb1_above_limit_rejects() {
    let clock = SimulatedClock::at_epoch();
    let f = Fixture::with_order(test_order("1", "100001")).with_health(connected_venue_health());
    assert!(rejected_by(Cb1MaxSingleOrderNotional.check(&f.ctx(&clock)), "CB-1"));
    assert_eq!(Cb1MaxSingleOrderNotional.id(), "CB-1");
}

#[test]
fn cb1_does_not_decide_out_of_range() {
    let mut huge = order_core("2", "6");
    huge.price = Decimal::from_parts(79_228_162_514_264_337_593_543_950_335, 0);
    let f = Fixture::with_order(validated(huge));
    let clock = SimulatedClock::at_epoch();
    assert!(Cb1MaxSingleOrderNotional.check_at(&f.ctx(&clock), clock.now()).is_none());
    let mut bank = CircuitBreakerBank::new();
    assert!(!bank.stays_in_range(&f.ctx(&clock)));
    assert!(bank.checked_check_all(&f.ctx(&clock)).is_none());
}

// ── CB-2: Max position per instrument ──

#[test]
fn cb2_no_existing_exposure_below_limit_passes() {
    let clock = SimulatedClock::at_epoch();
    let f = Fixture::with_order(test_order("4", "100000")).with_health(connected_venue_health());
    assert_eq!(Cb2MaxInstrumentPosition.check(&f.ctx(&clock)), CircuitBreakerResult::Pass);
}

#[test]
fn cb2_existing_exposure_pushes_over_limit_rejects() {
    let clock = SimulatedClock::at_epoch();
    let mut f =
        Fixture::with_order(test_order("2", "100000")).with_health(connected_venue_health());
    long_four(&mut f.book);
    assert!(rejected_by(Cb2MaxInstrumentPosition.check(&f.ctx(&clock)), "CB-2"));
}

#[test]
fn cb2_sell_against_long_reduces_exposure_and_passes() {
    let clock = SimulatedClock::at_epoch();
    let mut sell = order_core("1", "100000");
    sell.id = OrderId("ord-sell".into());
    sell.side = Side::Sell;
    sell.stop_loss = None;
    sell.reduce_only = true;
    let mut f = Fixture::with_order(validated(sell));
    long_four(&mut f.book);
    assert_eq!(
        Cb2MaxInstrumentPosition.check(&f.ctx(&clock)),
        CircuitBreakerResult::Pass,
        "sell against long should pass CB-2"
    );
}

// ── CB-3: Max firm gross notional ──

#[test]
fn cb3_below_limit_passes() {
    let clock = SimulatedClock::at_epoch();
    let f = Fixture::new();
    assert_eq!(Cb3MaxFirmGrossNotional::new().check(&f.ctx(&clock)), CircuitBreakerResult::Pass);
}

#[test]
fn cb3_above_limit_rejects() {
    let clock = SimulatedClock::at_epoch();
    let mut f = Fixture::new();
    f.book.gross_notional = dec("1000001");
    assert!(rejected_by(Cb3MaxFirmGrossNotional::new().check(&f.ctx(&clock)), "CB-3"));
}

#[test]
fn cb3_latches_and_stays_rejected_after_reset_removes_latch() {
    let clock = SimulatedClock::at_epoch();
    let mut f = Fixture::new();
    f.book.gross_notional = dec("1000001");
    let mut bank = CircuitBreakerBank::new();

    assert!(rejected_by(bank.check_all(&f.ctx(&clock)), "CB-3"));
    assert!(bank.any_tripped());
    assert!(!bank.is_halt_active());

    f.book.gross_notional = dec("100000");
    assert!(rejected_by(bank.check_all(&f.ctx(&clock)), "CB-3"), "latch should hold");

    bank.reset("CB-3", manual()).unwrap();
    assert!(!bank.any_tripped());
    assert_eq!(bank.check_all(&f.ctx(&clock)), CircuitBreakerResult::Pass);
}

// ── CB-4: Firm daily loss ──

#[test]
fn cb4_below_daily_loss_cap_passes() {
    let clock = SimulatedClock::at_epoch();
    let mut f = Fixture::new();
    f.book.daily_pnl = dec("-49999");
    assert_eq!(Cb4FirmDailyLoss::new().check(&f.ctx(&clock)), CircuitBreakerResult::Pass);
}

#[test]
fn cb4_at_daily_loss_cap_passes() {
    let clock = SimulatedClock::at_epoch();
    let mut f = Fixture::new();
    f.book.daily_pnl = dec("-50000");
    assert_eq!(Cb4FirmDailyLoss::new().check(&f.ctx(&clock)), CircuitBreakerResult::Pass);
}

#[test]
fn cb4_exceeds_daily_loss_cap_halts_all() {
    let clock = SimulatedClock::at_epoch();
    let mut f = Fixture::new();
    f.book.daily_pnl = dec("-50001");
    match Cb4FirmDailyLoss::new().check(&f.ctx(&clock)) {
        CircuitBreakerResult::HaltAll { breaker, reason } => {
            assert_eq!(breaker, "CB-4");
            assert_eq!(reason, "daily P&L -50001 breached -5.0% NAV loss cap (limit: -50000.00)");
        }
        other => panic!("expected a halt, got {other:?}"),
    }
}

#[test]
fn cb4_haltall_latches_via_bank() {
    let clock = SimulatedClock::at_epoch();
    let mut f = Fixture::new();
    f.book.daily_pnl = dec("-50001");
    let mut bank = CircuitBreakerBank::new();

    assert!(halted_by(bank.check_all(&f.ctx(&clock)), "CB-4"));
    assert!(bank.is_halt_active());

    f.book.daily_pnl = Decimal::zero();
    assert!(halted_by(bank.check_all(&f.ctx(&clock)), "CB-4"));

    assert!(bank.reset("CB-4", manual()).is_err());
    assert!(bank.is_halt_active(), "latch must hold after rejected reset");

    bank.reset("CB-4", ResetReason::CioApproval { approver: "cio".into() }).unwrap();
    assert!(!bank.is_halt_active());
}

// ── CB-5: Firm hourly loss ──

#[test]
fn cb5_below_hourly_loss_cap_passes() {
    let clock = SimulatedClock::at_epoch();
    let mut f = Fixture::new();
    f.book.hourly_pnl = dec("-19999");
    assert_eq!(Cb5FirmHourlyLoss::new().check(&f.ctx(&clock)), CircuitBreakerResult::Pass);
}

#[test]
fn cb5_exceeds_hourly_loss_cap_halts_all() {
    let clock = SimulatedClock::at_epoch();
    let mut f = Fixture::new();
    f.book.hourly_pnl = dec("-20001");
    assert!(halted_by(Cb5FirmHourlyLoss::new().check(&f.ctx(&clock)), "CB-5"));
}

// ── CB-6: Firm order rate ──

#[test]
fn cb6_below_rate_limit_passes() {
    let clock = SimulatedClock::at_epoch();
    let f = Fixture::new();
    let mut ctx = f.ctx(&clock);
    ctx.firm_orders_last_60s = 100;
    assert_eq!(Cb6FirmOrdersPerMinute.check(&ctx), CircuitBreakerResult::Pass);
}

#[test]
fn cb6_above_rate_limit_rejects() {
    let clock = SimulatedClock::at_epoch();
    let f = Fixture::new();
    let mut ctx = f.ctx(&clock);
    ctx.firm_orders_last_60s = 101;
    assert!(rejected_by(Cb6FirmOrdersPerMinute.check(&ctx), "CB-6"));
}

// ── CB-7: Agent order rate ──

#[test]
fn cb7_below_agent_rate_limit_passes() {
    let clock = SimulatedClock::at_epoch();
    let mut f = Fixture::with_order(test_order("1", "100"));
    f.agent_orders.insert("satoshi".to_owned(), 20);
    assert_eq!(Cb7AgentOrdersPerMinute.check(&f.ctx(&clock)), CircuitBreakerResult::Pass);
}

#[test]
fn cb7_above_agent_rate_limit_rejects() {
    let clock = SimulatedClock::at_epoch();
    let mut f = Fixture::with_order(test_order("1", "100"));
    f.agent_orders.insert("satoshi".to_owned(), 21);
    assert!(rejected_by(Cb7AgentOrdersPerMinute.check(&f.ctx(&clock)), "CB-7"));
}

// ── CB-8: Venue error rate ──

#[test]
fn cb8_below_error_rate_passes() {
    let clock = SimulatedClock::at_epoch();
    let mut f = Fixture::with_order(test_order("1", "100"));
    f.stats.insert(
        "bybit".to_owned(),
        VenueErrorStats { errors_last_5min: 4, total_last_5min: 10 },
    );
    assert_eq!(Cb8VenueErrorRate.check(&f.ctx(&clock)), CircuitBreakerResult::Pass);
}

#[test]
fn cb8_above_error_rate_rejects() {
    let clock = SimulatedClock::at_epoch();
    let mut f = Fixture::with_order(test_order("1", "100"));
    f.stats.insert(
        "bybit".to_owned(),
        VenueErrorStats { errors_last_5min: 6, total_last_5min: 10 },
    );
    let r = Cb8VenueErrorRate.check(&f.ctx(&clock));
    match r {
        CircuitBreakerResult::Reject { breaker, reason } => {
            assert_eq!(breaker, "CB-8");
            assert_eq!(reason, "venue bybit error rate 0.60 exceeds max 0.5");
        }
        other => panic!("expected a rejection, got {other:?}"),
    }
}

// ── CB-9: Venue disconnected ──

#[test]
fn cb9_connected_recently_passes() {
    let f = Fixture::with_order(test_order("1", "100")).with_health(connected_venue_health());
    assert_eq!(Cb9VenueDisconnected.check(&f.ctx(&WallClock)), CircuitBreakerResult::Pass);
}

#[test]
fn cb9_stale_heartbeat_rejects() {
    let hb_time = Timestamp::system_now();
    let mut clock = SimulatedClock::new(hb_time);
    clock.advance(Duration::from_secs(60));
    let mut health = VenueConnectionHealth::new(VenueId("bybit".into()));
    health.last_heartbeat_at = Some(hb_time);
    let f = Fixture::with_order(test_order("1", "100")).with_health(health);
    assert!(rejected_by(Cb9VenueDisconnected.check(&f.ctx(&clock)), "CB-9"));
}

#[test]
fn cb9_no_health_record_rejects() {
    let clock = SimulatedClock::at_epoch();
    let f = Fixture::with_order(test_order("1", "100"));
    assert!(rejected_by(Cb9VenueDisconnected.check(&f.ctx(&clock)), "CB-9"));
}

#[test]
fn cb9_disconnected_state_rejects_even_with_recent_heartbeat() {
    let mut health = VenueConnectionHealth::new(VenueId("bybit".into()));
    health.last_heartbeat_at = Some(Timestamp::system_now());
    health.state = ConnectionState::Disconnected;
    let f = Fixture::with_order(test_order("1", "100")).with_health(health);
    assert!(
        rejected_by(Cb9VenueDisconnected.check(&f.ctx(&WallClock)), "CB-9"),
        "disconnected venue must be rejected even with a fresh heartbeat"
    );
}

#[test]
fn cb9_future_heartbeat_rejects() {
    let clock = SimulatedClock::at_epoch();
    let mut health = VenueConnectionHealth::new(VenueId("bybit".into()));
    health.state = ConnectionState::Connected;
    health.last_heartbeat_at = Some(Timestamp::from_millis(30_000));
    let f = Fixture::with_order(test_order("1", "100")).with_health(health);
    assert!(
        rejected_by(Cb9VenueDisconnected.check(&f.ctx(&clock)), "CB-9"),
        "future heartbeat timestamp must be rejected (fail closed)"
    );
}

/// A heartbeat ahead of the clock is rejected however little ahead it is.
#[test]
fn cb9_heartbeat_a_moment_ahead_rejects() {
    let mut clock = SimulatedClock::at_epoch();
    clock.advance(Duration::from_secs(10));
    let check = |heartbeat: Timestamp| {
        let mut health = VenueConnectionHealth::new(VenueId("bybit".into()));
        health.state = ConnectionState::Connected;
        health.last_heartbeat_at = Some(heartbeat);
        let f = Fixture::with_order(test_order("1", "100")).with_health(health);
        Cb9VenueDisconnected.check(&f.ctx(&clock))
    };
    assert!(rejected_by(check(Timestamp::from_millis(10_001)), "CB-9"));
    assert!(rejected_by(check(Timestamp::from_millis(10_999)), "CB-9"));
    assert_eq!(check(Timestamp::from_millis(10_000)), CircuitBreakerResult::Pass);
}

#[test]
fn cb9_connected_but_silent_rejects() {
    let mut clock = SimulatedClock::at_epoch();
    clock.advance(Duration::from_secs(31));
    let mut health = VenueConnectionHealth::new(VenueId("bybit".into()));
    health.state = ConnectionState::Connected;
    health.last_heartbeat_at = Some(Timestamp::from_millis(0));
    let f = Fixture::with_order(test_order("1", "100")).with_health(health);
    assert!(rejected_by(Cb9VenueDisconnected.check(&f.ctx(&clock)), "CB-9"));

    let mut health = VenueConnectionHealth::new(VenueId("bybit".into()));
    health.state = ConnectionState::Connected;
    let f = Fixture::with_order(test_order("1", "100")).with_health(health);
    assert!(rejected_by(Cb9VenueDisconnected.check(&f.ctx(&clock)), "CB-9"));
}

// ── CB-10: Dry-run bypass ──

#[test]
fn cb10_dry_run_true_in_paper_mode_passes() {
    let clock = SimulatedClock::at_epoch();
    let f = Fixture::with_order(test_order("1", "100"));
    assert_eq!(Cb10DryRunBypass.check(&f.ctx(&clock)), CircuitBreakerResult::Pass);
}

fn not_dry() -> PipelineOrder<Validated> {
    let mut core = order_core("1", "100");
    core.stop_loss = None;
    core.dry_run = false;
    validated(core)
}

#[test]
fn cb10_dry_run_false_in_paper_mode_rejects() {
    let clock = SimulatedClock::at_epoch();
    let f = Fixture::with_order(not_dry());
    assert!(rejected_by(Cb10DryRunBypass.check(&f.ctx(&clock)), "CB-10"));
}

#[test]
fn cb10_dry_run_false_in_live_mode_passes() {
    let clock = SimulatedClock::at_epoch();
    let f = Fixture::with_order(not_dry());
    let mut ctx = f.ctx(&clock);
    ctx.execution_mode = ExecutionMode::Live;
    assert_eq!(Cb10DryRunBypass.check(&ctx), CircuitBreakerResult::Pass);
}

// ── CB-11: Sequencer queue depth ──

#[test]
fn cb11_below_queue_depth_passes() {
    let clock = SimulatedClock::at_epoch();
    let f = Fixture::new();
    let mut ctx = f.ctx(&clock);
    ctx.sequencer_queue_depth = 1000;
    assert_eq!(Cb11SequencerQueueDepth.check(&ctx), CircuitBreakerResult::Pass);
}

#[test]
fn cb11_above_queue_depth_rejects() {
    let clock = SimulatedClock::at_epoch();
    let f = Fixture::new();
    let mut ctx = f.ctx(&clock);
    ctx.sequencer_queue_depth = 1001;
    assert!(rejected_by(Cb11SequencerQueueDepth.check(&ctx), "CB-11"));
}

// ── Bank ──

#[test]
fn cancel_bypasses_latched_cb4_halt() {
    let clock = SimulatedClock::at_epoch();
    let mut f = Fixture::new();
    f.book.daily_pnl = dec("-50001");
    let mut bank = CircuitBreakerBank::new();

    assert!(halted_by(bank.check_all(&f.ctx(&clock)), "CB-4"));
    assert!(bank.is_halt_active());

    let mut cancel_ctx = f.ctx(&clock);
    cancel_ctx.operation_kind = OperationKind::Cancel;
    assert_eq!(
        bank.check_all(&cancel_ctx),
        CircuitBreakerResult::Pass,
        "Cancel must bypass latched CB-4 halt"
    );
}

#[test]
fn reduce_only_bypasses_latched_cb4_halt() {
    let mut f = Fixture::new().with_health(connected_venue_health());
    f.book.daily_pnl = dec("-50001");
    let mut bank = CircuitBreakerBank::new();

    let _ = bank.check_all(&f.ctx(&WallClock));
    assert!(bank.is_halt_active());

    f.order = Some(test_order("1", "100"));
    let mut reduce_ctx = f.ctx(&WallClock);
    reduce_ctx.operation_kind = OperationKind::ReduceOnly;
    assert_eq!(
        bank.check_all(&reduce_ctx),
        CircuitBreakerResult::Pass,
        "ReduceOnly must bypass latched CB-4 halt"
    );
}

#[test]
fn reduce_only_skips_cb1_notional_cap() {
    let f = Fixture::with_order(test_order("1", "200000")).with_health(connected_venue_health());
    assert!(
        rejected_by(Cb1MaxSingleOrderNotional.check(&f.ctx(&WallClock)), "CB-1"),
        "sanity: CB-1 must reject 200_000 notional order"
    );

    let mut bank = CircuitBreakerBank::new();
    let mut reduce_ctx = f.ctx(&WallClock);
    reduce_ctx.operation_kind = OperationKind::ReduceOnly;
    assert_eq!(
        bank.check_all(&reduce_ctx),
        CircuitBreakerResult::Pass,
        "ReduceOnly must skip CB-1 notional cap in check_all"
    );
}

#[test]
fn bank_reset_non_resettable_breaker_returns_err() {
    let mut bank = CircuitBreakerBank::new();
    let err = bank.reset("CB-1", manual()).unwrap_err();
    assert!(err.text().contains("circuit breaker CB-1 is not resettable or does not exist"));
}

#[test]
fn bank_reset_unknown_breaker_returns_err() {
    let mut bank = CircuitBreakerBank::new();
    assert!(bank.reset("CB-99", manual()).is_err());
}

#[test]
fn hourly_halt_is_cleared_by_an_operator() {
    let clock = SimulatedClock::at_epoch();
    let mut f = Fixture::new();
    f.book.hourly_pnl = dec("-20001");
    let mut bank = CircuitBreakerBank::default();
    assert!(halted_by(bank.check_all(&f.ctx(&clock)), "CB-5"));
    assert!(bank.is_halt_active());
    f.book.hourly_pnl = Decimal::zero();
    assert!(halted_by(bank.check_all(&f.ctx(&clock)), "CB-5"));
    bank.reset("CB-5", manual()).unwrap();
    assert_eq!(bank.check_all(&f.ctx(&clock)), CircuitBreakerResult::Pass);
}

#[test]
fn loss_breakers_pass_without_net_asset_value() {
    let clock = SimulatedClock::at_epoch();
    let mut f = Fixture::new();
    f.book.nav = Decimal::zero();
    f.book.daily_pnl = dec("-50001");
    f.book.hourly_pnl = dec("-50001");
    assert_eq!(Cb4FirmDailyLoss::new().check(&f.ctx(&clock)), CircuitBreakerResult::Pass);
    assert_eq!(Cb5FirmHourlyLoss::new().check(&f.ctx(&clock)), CircuitBreakerResult::Pass);
}

#[test]
fn bank_rejects_by_the_first_failing_breaker() {
    let f = Fixture::with_order(not_dry()).with_health(connected_venue_health());
    let mut bank = CircuitBreakerBank::new();
    let mut ctx = f.ctx(&WallClock);
    ctx.firm_orders_last_60s = 101;
    ctx.sequencer_queue_depth = 1001;
    assert!(rejected_by(bank.check_all(&ctx), "CB-10"));
    ctx.execution_mode = ExecutionMode::Live;
    assert!(rejected_by(bank.check_all(&ctx), "CB-11"));
    ctx.sequencer_queue_depth = 0;
    assert!(rejected_by(bank.check_all(&ctx), "CB-6"));
    ctx.firm_orders_last_60s = 100;
    assert_eq!(bank.checked_check_all(&ctx), Some(CircuitBreakerResult::Pass));
}
