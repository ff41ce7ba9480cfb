use feynman::agent_risk::AgentRiskManager;
use feynman::decimal::Decimal;
use feynman::ids::{AccountId, AgentId, InstrumentId, MarketId, OrderId, VenueId};
use feynman::limits::{
    AgentRiskLimits, InstrumentRiskLimits, RiskOutcome, RiskViolation, VenueRiskLimits,
    ViolationType,
};
use feynman::pipeline::{
    ExecHint, OrderCore, OrderType, PipelineOrder, TimeInForce, Validated,
};
use feynman::portfolio::{
    AgentAllocation, AgentExposure, AgentStatus, FirmBook, InstrumentExposure,
    PredictionExposureSummary, VenueExposure,
};
use feynman::risk::EvaluationPath;
use feynman::signal::Side;
use feynman::table::Table;
use feynman::time::Timestamp;

fn dec(text: &str) -> Decimal {
    Decimal::parse(text).unwrap()
}

fn some(text: &str) -> Option<Decimal> {
    Some(dec(text))
}

fn table<V>(entries: Vec<(&str, V)>) -> Table<V> {
    let mut t = Table::new();
    for (key, value) in entries {
        t.insert(key.to_owned(), value);
    }
    t
}

fn evaluate(
    manager: &AgentRiskManager,
    order: &PipelineOrder<Validated>,
    book: &FirmBook,
    path: EvaluationPath,
) -> RiskOutcome {
    manager.checked_evaluate(order, book, path).expect("numbers in range")
}

fn approved(outcome: RiskOutcome) {
    match outcome {
        RiskOutcome::Approved { warnings } => assert!(warnings.is_empty()),
        other => panic!("expected approved outcome, got {other:?}"),
    }
}

fn resized(outcome: RiskOutcome, qty: &str) -> Vec<RiskViolation> {
    match outcome {
        RiskOutcome::Resized { new_qty, warnings, .. } => {
            assert_eq!(new_qty, dec(qty));
            assert!(warnings.iter().all(|w| w.violation_type == ViolationType::Soft));
            warnings
        }
        other => panic!("expected resized outcome, got {other:?}"),
    }
}

fn rejected(outcome: RiskOutcome, check: &str) -> Vec<RiskViolation> {
    match outcome {
        RiskOutcome::Rejected { violations } => {
            assert!(violations.iter().any(|v| v.check_name == check), "{violations:?}");
            assert!(violations.iter().all(|v| v.violation_type == ViolationType::Hard));
            violations
        }
        other => panic!("expected rejected outcome, got {other:?}"),
    }
}

// ─── One agent with a position ───

fn allocation(allocated: &str, used: &str, free: &str) -> AgentAllocation {
    AgentAllocation {
        allocated_capital: dec(allocated),
        used_capital: dec(used),
        free_capital: dec(free),
        realized_pnl: Decimal::zero(),
        unrealized_pnl: Decimal::zero(),
        current_drawdown: Decimal::zero(),
        max_drawdown_limit: dec("-0.15"),
        status: AgentStatus::Active,
    }
}

fn agent_limits(max_gross: &str) -> AgentRiskLimits {
    AgentRiskLimits {
        allocated_capital: dec("10000"),
        max_position_notional: dec("10000"),
        max_gross_notional: dec(max_gross),
        max_drawdown_pct: dec("0.15"),
        max_daily_loss: dec("2000"),
        max_open_orders: 10,
        allowed_instruments: Some(vec![InstrumentId("BTC-USD".into())]),
        allowed_venues: Some(vec![VenueId("bybit".into())]),
    }
}

fn instrument_limits(concentration: &str, leverage: &str) -> InstrumentRiskLimits {
    InstrumentRiskLimits {
        instrument: InstrumentId("BTC-USD".into()),
        max_net_qty: dec("1000"),
        max_gross_qty: dec("1000"),
        max_concentration_pct: dec(concentration),
        max_leverage: dec(leverage),
    }
}

fn test_manager() -> AgentRiskManager {
    AgentRiskManager::new(
        dec("100000"),
        table(vec![("satoshi", agent_limits("10000"))]),
        table(vec![("BTC-USD", instrument_limits("0.10", "10"))]),
        table(vec![(
            "bybit",
            VenueRiskLimits {
                venue: VenueId("bybit".into()),
                max_notional: dec("10000"),
                max_positions: 5,
                max_pct_of_nav: dec("0.10"),
            },
        )]),
    )
}

fn test_firm_book() -> FirmBook {
    FirmBook {
        nav: dec("100000"),
        gross_notional: dec("2500"),
        net_notional: dec("2500"),
        realized_pnl: Decimal::zero(),
        unrealized_pnl: Decimal::zero(),
        daily_pnl: Decimal::zero(),
        hourly_pnl: Decimal::zero(),
        current_drawdown_pct: Decimal::zero(),
        allocated_capital: dec("10000"),
        cash_available: dec("50000"),
        total_fees_paid: Decimal::zero(),
        agent_allocations: table(vec![("satoshi", allocation("10000", "2500", "7500"))]),
        instruments: vec![InstrumentExposure {
            instrument: InstrumentId("BTC-USD".into()),
            net_qty: dec("25"),
            gross_qty: dec("25"),
            net_notional_usd: dec("2500"),
            gross_notional_usd: dec("2500"),
            by_venue: vec![VenueExposure {
                venue: VenueId("bybit".into()),
                account: AccountId("acct-1".into()),
                net_qty: dec("25"),
                notional_usd: dec("2500"),
            }],
            by_agent: vec![AgentExposure {
                agent: AgentId("satoshi".into()),
                net_qty: dec("25"),
                notional_usd: dec("2500"),
                pnl: Decimal::zero(),
            }],
        }],
        prediction_exposure: PredictionExposureSummary {
            total_notional: Decimal::zero(),
            pct_of_nav: Decimal::zero(),
            unresolved_markets: 0,
        },
        as_of: Timestamp::system_now(),
    }
}

fn order_core(
    side: Side,
    qty: &str,
    stop_loss: Option<Decimal>,
    take_profit: Option<Decimal>,
) -> OrderCore {
    OrderCore {
        id: OrderId("ord-1".into()),
        basket_id: None,
        agent_id: AgentId("satoshi".into()),
        instrument_id: InstrumentId("BTC-USD".into()),
        market_id: MarketId("BTC-USD".into()),
        venue_id: VenueId("bybit".into()),
        side,
        order_type: OrderType::Limit,
        time_in_force: TimeInForce::GTC,
        qty: dec(qty),
        price: some("100"),
        trigger_price: None,
        stop_loss,
        take_profit,
        post_only: false,
        reduce_only: false,
        dry_run: true,
        exec_hint: ExecHint::default(),
        created_at: Timestamp::system_now(),
    }
}

fn validated(core: OrderCore) -> PipelineOrder<Validated> {
    PipelineOrder::new(core).into_validated(Timestamp::system_now())
}

fn test_order(
    qty: &str,
    stop_loss: Option<Decimal>,
    take_profit: Option<Decimal>,
) -> PipelineOrder<Validated> {
    validated(order_core(Side::Buy, qty, stop_loss, take_profit))
}

#[test]
fn test_evaluate_position_exceeding_nav_resized() {
    let order = test_order("60", some("95"), some("110"));
    let outcome =
        evaluate(&test_manager(), &order, &test_firm_book(), EvaluationPath::SubmitOrder);
    resized(outcome, "50");
}

#[test]
fn test_evaluate_account_risk_exceeding_cap_resized() {
    let order = test_order("30", some("50"), some("150"));
    let outcome =
        evaluate(&test_manager(), &order, &test_firm_book(), EvaluationPath::SubmitOrder);
    resized(outcome, "20");
}

#[test]
fn test_evaluate_leverage_limit_rejected() {
    let mut manager = test_manager();
    manager.instrument_limits.insert("BTC-USD".to_owned(), instrument_limits("0.50", "1.4"));
    let mut book = test_firm_book();
    book.agent_allocations.insert("satoshi".to_owned(), allocation("12000", "5000", "7000"));
    let order = test_order("50", some("95"), some("110"));
    let outcome = evaluate(&manager, &order, &book, EvaluationPath::SubmitOrder);
    rejected(outcome, "instrument_max_leverage");
}

#[test]
fn test_evaluate_drawdown_breach_rejected() {
    let mut book = test_firm_book();
    book.current_drawdown_pct = dec("-0.16");
    let order = test_order("5", some("95"), some("110"));
    let outcome = evaluate(&test_manager(), &order, &book, EvaluationPath::SubmitOrder);
    rejected(outcome, "firm_drawdown_pct");
}

#[test]
fn test_evaluate_cash_reserve_breach_rejected() {
    let mut book = test_firm_book();
    book.cash_available = dec("21000");
    let order = test_order("20", some("95"), some("110"));
    let outcome = evaluate(&test_manager(), &order, &book, EvaluationPath::SubmitOrder);
    rejected(outcome, "cash_reserve_pct");
}

#[test]
fn test_evaluate_signal_without_stop_loss_rejected() {
    let order = test_order("5", None, some("110"));
    let outcome =
        evaluate(&test_manager(), &order, &test_firm_book(), EvaluationPath::SubmitSignal);
    rejected(outcome, "signal_stop_loss_required");
}

#[test]
fn test_evaluate_signal_bad_risk_reward_rejected() {
    let order = test_order("5", some("90"), some("115"));
    let outcome =
        evaluate(&test_manager(), &order, &test_firm_book(), EvaluationPath::SubmitSignal);
    rejected(outcome, "signal_risk_reward_ratio");
}

#[test]
fn test_evaluate_submit_order_without_stop_loss_approved() {
    let order = test_order("5", None, None);
    approved(evaluate(&test_manager(), &order, &test_firm_book(), EvaluationPath::SubmitOrder));
}

#[test]
fn test_evaluate_submit_batch_without_stop_loss_approved() {
    let order = test_order("5", None, None);
    approved(evaluate(&test_manager(), &order, &test_firm_book(), EvaluationPath::SubmitBatch));
}

#[test]
fn test_evaluate_agent_budget_isolated_rejected() {
    let mut book = test_firm_book();
    book.agent_allocations.insert("satoshi".to_owned(), allocation("10000", "9750", "250"));
    let order = test_order("5", some("95"), some("110"));
    let outcome = evaluate(&test_manager(), &order, &book, EvaluationPath::SubmitOrder);
    rejected(outcome, "agent_free_capital");
}

#[test]
fn test_evaluate_reducing_sell_frees_capital_and_cash() {
    let mut book = test_firm_book();
    book.cash_available = dec("20500");
    book.agent_allocations.insert("satoshi".to_owned(), allocation("3000", "2500", "500"));
    let order = validated(order_core(Side::Sell, "10", some("105"), None));
    approved(evaluate(&test_manager(), &order, &book, EvaluationPath::SubmitOrder));
}

#[test]
fn test_evaluate_leverage_is_agent_scoped() {
    let mut book = test_firm_book();
    book.gross_notional = dec("100000");
    let order = test_order("5", some("95"), some("110"));
    approved(evaluate(&test_manager(), &order, &book, EvaluationPath::SubmitOrder));
}

#[test]
fn test_evaluate_instrument_concentration_rejected() {
    let mut manager = test_manager();
    manager.instrument_limits.insert("BTC-USD".to_owned(), instrument_limits("0.05", "3"));
    let mut book = test_firm_book();
    book.instruments[0].gross_notional_usd = dec("4500");
    book.instruments[0].net_notional_usd = dec("4500");
    let order = test_order("10", some("95"), some("110"));
    let outcome = evaluate(&manager, &order, &book, EvaluationPath::SubmitOrder);
    rejected(outcome, "instrument_max_concentration_pct");
}

#[test]
fn test_evaluate_venue_limit_rejected() {
    let mut book = test_firm_book();
    book.instruments[0].by_venue[0].notional_usd = dec("9500");
    let order = test_order("10", some("95"), some("110"));
    let outcome = evaluate(&test_manager(), &order, &book, EvaluationPath::SubmitOrder);
    rejected(outcome, "venue_max_notional");
}

#[test]
fn test_evaluate_all_checks_pass_approved() {
    let order = test_order("5", some("95"), some("120"));
    approved(evaluate(&test_manager(), &order, &test_firm_book(), EvaluationPath::SubmitSignal));
}

// ─── Two agents, no positions ───

fn make_firm_book(nav: &str, cash: &str, drawdown_pct: &str) -> FirmBook {
    let mut book = test_firm_book();
    book.nav = dec(nav);
    book.gross_notional = Decimal::zero();
    book.net_notional = Decimal::zero();
    book.current_drawdown_pct = dec(drawdown_pct);
    book.allocated_capital = dec("20000");
    book.cash_available = dec(cash);
    book.agent_allocations = table(vec![
        ("satoshi", allocation("10000", "0", "10000")),
        ("graham", allocation("10000", "0", "10000")),
    ]);
    book.instruments = Vec::new();
    book
}

fn make_risk_manager_with_caps(nav: &str, satoshi: &str, graham: &str) -> AgentRiskManager {
    AgentRiskManager::new(
        dec(nav),
        table(vec![("satoshi", agent_limits(satoshi)), ("graham", agent_limits(graham))]),
        table(vec![("BTC-USD", instrument_limits("0.50", "10"))]),
        table(vec![(
            "bybit",
            VenueRiskLimits {
                venue: VenueId("bybit".into()),
                max_notional: dec(nav),
                max_positions: 10,
                max_pct_of_nav: dec("0.50"),
            },
        )]),
    )
}

fn make_risk_manager() -> AgentRiskManager {
    make_risk_manager_with_caps("100000", "10000", "10000")
}

fn empty_book() -> FirmBook {
    make_firm_book("100000", "50000", "0")
}

fn order_of(agent: &str, qty: &str, stop: Option<Decimal>) -> PipelineOrder<Validated> {
    let mut core = order_core(Side::Buy, qty, stop, None);
    core.agent_id = AgentId(agent.into());
    validated(core)
}

#[test]
fn test_signal_without_stop_loss_rejected() {
    let order = test_order("5", None, some("130"));
    let outcome = evaluate(&make_risk_manager(), &order, &empty_book(), EvaluationPath::SubmitSignal);
    rejected(outcome, "signal_stop_loss_required");
}

#[test]
fn test_order_without_stop_loss_uses_full_notional() {
    let order = order_of("satoshi", "11", None);
    let outcome = evaluate(&make_risk_manager(), &order, &empty_book(), EvaluationPath::SubmitOrder);
    let warnings = resized(outcome, "10");
    assert!(warnings.iter().any(|w| w.check_name == "account_risk_pct"));
}

#[test]
fn test_signal_risk_reward_below_threshold_rejected() {
    let order = test_order("5", some("90"), some("115"));
    let outcome = evaluate(&make_risk_manager(), &order, &empty_book(), EvaluationPath::SubmitSignal);
    rejected(outcome, "signal_risk_reward_ratio");
}

#[test]
fn test_position_sizing_cap_triggers_resize() {
    let order = order_of("satoshi", "60", some("99"));
    let outcome = evaluate(&make_risk_manager(), &order, &empty_book(), EvaluationPath::SubmitOrder);
    let warnings = resized(outcome, "50");
    assert!(warnings.iter().any(|w| w.check_name == "position_notional_pct"));
}

#[test]
fn test_drawdown_halt_rejects_all() {
    let book = make_firm_book("100000", "50000", "-0.16");
    let order = order_of("satoshi", "5", some("95"));
    let outcome = evaluate(&make_risk_manager(), &order, &book, EvaluationPath::SubmitOrder);
    let violations = rejected(outcome, "firm_drawdown_pct");
    let drawdown = violations.iter().find(|v| v.check_name == "firm_drawdown_pct").unwrap();
    assert!(drawdown.suggested_action.starts_with("halt_all:"));
}

#[test]
fn test_per_agent_budget_isolation() {
    let manager = make_risk_manager_with_caps("100000", "400", "10000");
    let book = empty_book();
    let satoshi = order_of("satoshi", "5", some("95"));
    let graham = order_of("graham", "5", some("95"));
    rejected(
        evaluate(&manager, &satoshi, &book, EvaluationPath::SubmitOrder),
        "agent_max_gross_notional",
    );
    approved(evaluate(&manager, &graham, &book, EvaluationPath::SubmitOrder));
}

#[test]
fn test_valid_order_approved() {
    let order = test_order("5", some("95"), some("110"));
    approved(evaluate(&make_risk_manager(), &order, &empty_book(), EvaluationPath::SubmitSignal));
}

// ─── Further inputs ───

#[test]
fn unknown_agent_instrument_and_venue_are_rejected() {
    let manager = test_manager();
    let book = test_firm_book();
    let mut other = order_core(Side::Buy, "5", some("95"), None);
    other.agent_id = AgentId("nobody".into());
    assert!(matches!(
        evaluate(&manager, &validated(other), &book, EvaluationPath::SubmitOrder),
        RiskOutcome::Rejected { .. }
    ));
    let mut other = order_core(Side::Buy, "5", some("95"), None);
    other.instrument_id = InstrumentId("ETH-USD".into());
    assert!(matches!(
        evaluate(&manager, &validated(other), &book, EvaluationPath::SubmitOrder),
        RiskOutcome::Rejected { .. }
    ));
    let mut other = order_core(Side::Buy, "5", some("95"), None);
    other.venue_id = VenueId("kraken".into());
    assert!(matches!(
        evaluate(&manager, &validated(other), &book, EvaluationPath::SubmitOrder),
        RiskOutcome::Rejected { .. }
    ));
}

#[test]
fn order_without_usable_price_is_rejected() {
    let mut unpriced = order_core(Side::Buy, "5", some("95"), None);
    unpriced.price = None;
    let outcome = evaluate(
        &test_manager(),
        &validated(unpriced),
        &test_firm_book(),
        EvaluationPath::SubmitOrder,
    );
    assert!(matches!(outcome, RiskOutcome::Rejected { .. }));
}

#[test]
fn number_out_of_range_is_no_outcome() {
    let mut huge = order_core(Side::Buy, "5", some("95"), None);
    huge.price = Decimal::from_parts(79_228_162_514_264_337_593_543_950_335, 0);
    assert!(test_manager()
        .checked_evaluate(&validated(huge), &test_firm_book(), EvaluationPath::SubmitOrder)
        .is_none());
}

#[test]
fn a_grid_of_valid_inputs_gives_well_formed_outcomes() {
    for nav in ["50000", "123457", "499999"] {
        let manager = make_risk_manager_with_caps(nav, "10000", "10000");
        let cash = dec(nav).checked_div(dec("2")).unwrap().text();
        let book = make_firm_book(nav, &cash, "0");
        for qty in ["1", "7", "60", "199"] {
            for (price, stop, take) in [(50, 49, 52), (100, 93, 130), (1999, 1980, 2098)] {
                let mut c = order_core(
                    Side::Buy,
                    qty,
                    Some(Decimal::new(stop, 0)),
                    Some(Decimal::new(take, 0)),
                );
                c.price = Some(Decimal::new(price, 0));
                match evaluate(&manager, &validated(c), &book, EvaluationPath::SubmitSignal) {
                    RiskOutcome::Approved { warnings } => assert!(warnings.is_empty()),
                    RiskOutcome::Resized { new_qty, warnings, .. } => {
                        assert!(new_qty.is_positive());
                        assert!(new_qty.is_less(dec(qty)));
                        assert!(!warnings.is_empty());
                        assert!(warnings.iter().all(|w| w.violation_type == ViolationType::Soft));
                    }
                    RiskOutcome::Rejected { violations } => {
                        assert!(!violations.is_empty());
                        assert!(violations
                            .iter()
                            .all(|v| v.violation_type == ViolationType::Hard));
                    }
                }
            }
        }
    }
}

/// The rule that binds gives the size, rounded, and its reason; the other one lets the order
/// pass.
#[test]
fn a_rounded_resize_is_that_of_the_binding_rule() {
    let mut core = order_core(Side::Buy, "30", None, None);
    core.price = some("97");
    match evaluate(&test_manager(), &validated(core), &test_firm_book(), EvaluationPath::SubmitOrder)
    {
        RiskOutcome::Resized { new_qty, reason, .. } => {
            assert_eq!(new_qty.text(), "10.309278350515463917525773196");
            assert!(new_qty.is_positive() && new_qty.is_less(dec("30")));
            assert_eq!(reason, "projected account risk exceeds 1% NAV; resize to the max-loss cap");
        }
        other => panic!("expected resized outcome, got {other:?}"),
    }
}

#[test]
fn a_resize_is_smaller_than_the_order_and_not_nothing() {
    for qty in ["51", "55", "60"] {
        let order = test_order(qty, some("95"), some("110"));
        let outcome =
            evaluate(&test_manager(), &order, &test_firm_book(), EvaluationPath::SubmitOrder);
        match outcome {
            RiskOutcome::Resized { new_qty, .. } => {
                assert!(new_qty.is_positive());
                assert!(new_qty.is_less(dec(qty)));
            }
            other => panic!("expected resized outcome, got {other:?}"),
        }
    }
}
