use std::collections::VecDeque;

use feynman::decimal::Decimal;
use feynman::engine::{
    CoreRequest, EngineCore, EngineError, EngineState, EngineStateSnapshot, OrderAck, OrderRecord,
    SequencerCommand,
};
use feynman::event::{EngineEvent, SequencedEvent};
use feynman::ids::{
    AccountId, AgentId, ClientOrderId, InstrumentId, MarketId, OrderId, SequenceId, SignalId,
    VenueId, VenueOrderId,
};
use feynman::journal::event_kind;
use feynman::limits::{AgentRiskLimits, FirmRiskLimits, PredictionMarketLimits, RiskLimits};
use feynman::pipeline::{
    ExecHint, Fill, OrderCore, OrderState, OrderType, PipelineOrder, RiskApprovalStamp,
    RiskChecked, TimeInForce, Validated,
};
use feynman::pnl::{PriceSnapshot, PriceSource};
use feynman::portfolio::{
    AgentStatus, FirmBook, Positions, PredictionExposureSummary, TrackedPosition,
};
use feynman::reconciliation::{
    PositionDivergence, ReconciliationAction, ReconciliationReport,
};
use feynman::sequencer::{
    checked_remaining_qty, commit_error, lane_for, next_lane, remaining_qty, CommandLane, Commit,
    Reply, Sequencer,
};
use feynman::signal::{Side, Signal, Urgency};
use feynman::table::Table;
use feynman::time::{Duration, Timestamp};

struct NoPrices;

impl PriceSource for NoPrices {
    fn may_quote(&self, _: InstrumentId, _: Option<PriceSnapshot>) -> bool {
        true
    }

    fn may_be_stale(&self, _: InstrumentId, _: Duration, _: bool) -> bool {
        true
    }

    fn latest_price(&self, _: &InstrumentId) -> Option<PriceSnapshot> {
        None
    }

    fn is_stale(&self, _: &InstrumentId, _: Duration) -> bool {
        false
    }
}

struct TestCore {
    state: EngineState,
    reject_orders: bool,
}

impl TestCore {
    fn new(now: Timestamp) -> TestCore {
        TestCore { state: empty_state(now), reject_orders: false }
    }

    fn with_order(mut self, record: OrderRecord) -> TestCore {
        self.state.orders.insert(record.core.id.text(), record);
        self
    }

    fn rejecting_orders(mut self) -> TestCore {
        self.reject_orders = true;
        self
    }
}

impl EngineCore for TestCore {
    fn held(&self) -> EngineState {
        self.state.clone()
    }

    fn may_answer(&self, _: CoreRequest, _: Result<(), EngineError>, _: TestCore) -> bool {
        true
    }

    fn may_judge(
        &self,
        _: PipelineOrder<Validated>,
        _: Timestamp,
        _: Result<PipelineOrder<RiskChecked>, EngineError>,
        _: TestCore,
    ) -> bool {
        true
    }

    fn may_mark<P: PriceSource>(
        &self,
        _: P,
        _: Timestamp,
        _: Result<(), EngineError>,
        _: TestCore,
    ) -> bool {
        true
    }

    fn state(&self) -> &EngineState {
        &self.state
    }

    fn state_mut(&mut self) -> &mut EngineState {
        &mut self.state
    }

    fn restore_snapshot(&mut self, snapshot: &EngineStateSnapshot) -> Result<(), EngineError> {
        self.state = snapshot.state.clone();
        Ok(())
    }

    fn evaluate_order(
        &mut self,
        order: PipelineOrder<Validated>,
        now: Timestamp,
    ) -> Result<PipelineOrder<RiskChecked>, EngineError> {
        if self.reject_orders {
            return Err(EngineError::RiskRejected { reason: "test rejection".to_owned() });
        }
        Ok(order.into_risk_checked(RiskApprovalStamp {
            approved_at: now,
            checks_performed: Vec::new(),
            warnings: Vec::new(),
        }))
    }

    fn on_fill(&mut self, fill: &Fill, now: Timestamp) -> Result<(), EngineError> {
        let mut record = match self.state.orders.get(fill.order_id.as_str()) {
            Some(record) => record.clone(),
            None => return Err(EngineError::OrderNotFound(fill.order_id.text())),
        };
        if !fill.qty.is_positive() {
            return Err(EngineError::InvalidTransition(
                "fill quantity must be positive".to_owned(),
            ));
        }
        record.fills.push(fill.clone());
        record.last_updated = now;
        let filled = record
            .fills
            .iter()
            .fold(Decimal::zero(), |sum, seen| sum.checked_add(seen.qty).unwrap());
        if record.core.qty.is_less(filled) {
            return Err(EngineError::InvalidTransition("overfilled".to_owned()));
        }
        record.state = if filled == record.core.qty {
            OrderState::Filled
        } else {
            OrderState::PartiallyFilled
        };
        self.state.orders.insert(record.core.id.text(), record);
        Ok(())
    }

    fn on_reconciliation(
        &mut self,
        report: &ReconciliationReport,
        _: Timestamp,
    ) -> Result<(), EngineError> {
        for divergence in &report.position_divergences {
            if divergence.action == ReconciliationAction::AcceptVenue {
                self.state.positions.insert(TrackedPosition {
                    agent: AgentId("reconciler".to_owned()),
                    venue: report.venue_id.clone(),
                    account: report.account_id.clone(),
                    instrument: divergence.instrument.clone(),
                    qty: divergence.venue_qty,
                    avg_entry_price: Decimal::zero(),
                    unrealized_pnl: Decimal::zero(),
                    realized_pnl: Decimal::zero(),
                    total_fees_paid: Decimal::zero(),
                    accumulated_funding: Decimal::zero(),
                    fill_ids: Vec::new(),
                    signal_ids: Vec::new(),
                    opened_at: report.started_at,
                    last_fill_at: report.completed_at,
                });
            }
        }
        Ok(())
    }

    fn mark_to_market<P: PriceSource>(
        &mut self,
        _: &P,
        _: Timestamp,
    ) -> Result<(), EngineError> {
        Ok(())
    }

    fn pause_agent(
        &mut self,
        agent: &AgentId,
        reason: String,
        now: Timestamp,
    ) -> Result<(), EngineError> {
        self.state
            .agent_statuses
            .insert(agent.text(), AgentStatus::Paused { reason, since: now });
        Ok(())
    }

    fn resume_agent(&mut self, agent: &AgentId, _: Timestamp) -> Result<(), EngineError> {
        self.state.agent_statuses.insert(agent.text(), AgentStatus::Active);
        Ok(())
    }

    fn adjust_limits(
        &mut self,
        agent: &AgentId,
        limits: AgentRiskLimits,
    ) -> Result<(), EngineError> {
        self.state.risk_limits.per_agent.insert(agent.text(), limits);
        Ok(())
    }

    fn halt_all(&mut self, _: String, _: Timestamp) -> Result<(), EngineError> {
        let agents: Vec<String> =
            self.state.agent_statuses.entries().iter().map(|entry| entry.0.clone()).collect();
        for agent in agents {
            self.state.agent_statuses.insert(agent, AgentStatus::Halted);
        }
        Ok(())
    }

    fn reset_circuit_breaker(&mut self, _: Timestamp) -> Result<(), EngineError> {
        Ok(())
    }
}

/// A journal that keeps what is committed.
struct RecordingJournal {
    events: Vec<SequencedEvent<EngineEvent>>,
    snapshot: Option<(SequenceId, EngineStateSnapshot)>,
    fails: bool,
}

impl RecordingJournal {
    fn new() -> RecordingJournal {
        RecordingJournal { events: Vec::new(), snapshot: None, fails: false }
    }

    fn persist(&mut self, commit: &mut Commit) -> Result<(), EngineError> {
        if self.fails {
            return Err(EngineError::Journal("simulated persist_commit failure".to_owned()));
        }
        self.events.append(&mut commit.events);
        self.snapshot = Some((commit.snapshot.sequence_id, commit.snapshot.clone()));
        Ok(())
    }

    fn latest_sequence_id(&self) -> SequenceId {
        self.events.last().map(|event| event.sequence_id).unwrap_or(SequenceId::zero())
    }

    fn kinds(&self) -> Vec<&'static str> {
        self.events.iter().map(|event| event_kind(&event.event)).collect()
    }
}

/// The commands that wait, and the sequencer that takes them.
struct Run {
    sequencer: Sequencer<TestCore, NoPrices>,
    high: VecDeque<SequencerCommand>,
    normal: VecDeque<SequencerCommand>,
    replies: Vec<Reply>,
}

impl Run {
    fn start(core: TestCore, journal: &RecordingJournal) -> Result<Run, EngineError> {
        let sequencer = Sequencer::bootstrap(
            core,
            NoPrices,
            journal.snapshot.clone(),
            journal.latest_sequence_id(),
            journal.events.is_empty(),
            7,
        )?;
        Ok(Run {
            sequencer,
            high: VecDeque::new(),
            normal: VecDeque::new(),
            replies: Vec::new(),
        })
    }

    fn send(&mut self, command: SequencerCommand) {
        match lane_for(&command) {
            CommandLane::HighPriority => self.high.push_back(command),
            CommandLane::Normal => self.normal.push_back(command),
        }
    }

    fn next(&mut self) -> Option<SequencerCommand> {
        match next_lane(!self.high.is_empty(), !self.normal.is_empty())? {
            CommandLane::HighPriority => self.high.pop_front(),
            CommandLane::Normal => self.normal.pop_front(),
        }
    }

    fn drain(
        &mut self,
        journal: &mut RecordingJournal,
        now: Timestamp,
    ) -> Result<EngineStateSnapshot, EngineError> {
        while let Some(command) = self.next() {
            let processed = self.sequencer.process(command, now)?;
            if let Some(mut commit) = processed.commit {
                journal
                    .persist(&mut commit)
                    .map_err(|why| commit_error(processed.sequence_id, &why))?;
                self.sequencer.committed(commit);
            }
            self.replies.push(processed.reply);
        }
        Ok(self.sequencer.snapshot_cache.clone())
    }
}

fn fixed_time() -> Timestamp {
    Timestamp::from_millis(1_774_008_000_000)
}

fn empty_state(now: Timestamp) -> EngineState {
    let mut agent_statuses = Table::new();
    agent_statuses.insert("athena".to_owned(), AgentStatus::Active);
    EngineState {
        orders: Table::new(),
        positions: Positions::new(),
        pending_signals: Table::new(),
        firm_book: FirmBook {
            nav: Decimal::new(100_000, 0),
            gross_notional: Decimal::zero(),
            net_notional: Decimal::zero(),
            realized_pnl: Decimal::zero(),
            unrealized_pnl: Decimal::zero(),
            daily_pnl: Decimal::zero(),
            hourly_pnl: Decimal::zero(),
            current_drawdown_pct: Decimal::zero(),
            allocated_capital: Decimal::new(25_000, 0),
            cash_available: Decimal::new(75_000, 0),
            total_fees_paid: Decimal::zero(),
            agent_allocations: Table::new(),
            instruments: Vec::new(),
            prediction_exposure: PredictionExposureSummary {
                total_notional: Decimal::zero(),
                pct_of_nav: Decimal::zero(),
                unresolved_markets: 0,
            },
            as_of: now,
        },
        agent_allocations: Table::new(),
        risk_limits: RiskLimits {
            firm: FirmRiskLimits {
                max_gross_notional: Decimal::new(250_000, 0),
                max_net_notional: Decimal::new(250_000, 0),
                max_drawdown_pct: Decimal::new(15, 2),
                max_daily_loss: Decimal::new(5_000, 0),
                max_open_orders: 100,
            },
            per_agent: Table::new(),
            per_instrument: Table::new(),
            per_venue: Table::new(),
            prediction_market: PredictionMarketLimits {
                max_total_notional: Decimal::new(10_000, 0),
                max_per_market_notional: Decimal::new(2_500, 0),
                max_pct_of_nav: Decimal::new(5, 2),
                max_unresolved_markets: 10,
            },
        },
        agent_statuses,
        idempotency_cache: Table::new(),
        last_sequence_id: SequenceId::zero(),
        last_updated: now,
    }
}

fn sample_order(order_id: &str, now: Timestamp) -> OrderCore {
    OrderCore {
        id: OrderId(order_id.to_owned()),
        basket_id: None,
        agent_id: AgentId("athena".to_owned()),
        instrument_id: InstrumentId("BTCUSDT".to_owned()),
        market_id: MarketId("BTCUSDT".to_owned()),
        venue_id: VenueId("bybit".to_owned()),
        side: Side::Buy,
        order_type: OrderType::Limit,
        time_in_force: TimeInForce::GTC,
        qty: Decimal::new(10, 0),
        price: Some(Decimal::new(50_000, 0)),
        trigger_price: None,
        stop_loss: Some(Decimal::new(49_000, 0)),
        take_profit: Some(Decimal::new(52_000, 0)),
        post_only: false,
        reduce_only: false,
        dry_run: true,
        exec_hint: ExecHint::default(),
        created_at: now,
    }
}

fn submit(order_id: &str, now: Timestamp) -> SequencerCommand {
    SequencerCommand::SubmitOrder {
        order: PipelineOrder::new(sample_order(order_id, now)).into_validated(now),
    }
}

fn pause(agent: &str, reason: &str) -> SequencerCommand {
    SequencerCommand::PauseAgent { agent: AgentId(agent.to_owned()), reason: reason.to_owned() }
}

fn record(order_id: &str, now: Timestamp) -> OrderRecord {
    OrderRecord {
        core: sample_order(order_id, now),
        state: OrderState::Accepted,
        client_order_id: ClientOrderId("athena-1-000000-r07".to_owned()),
        fills: Vec::new(),
        created_at: now,
        last_updated: now,
    }
}

fn fill(order_id: &str, qty: i64, now: Timestamp) -> Fill {
    Fill {
        order_id: OrderId(order_id.to_owned()),
        venue_order_id: VenueOrderId("venue-1".to_owned()),
        instrument_id: InstrumentId("BTCUSDT".to_owned()),
        side: Side::Buy,
        qty: Decimal::new(qty, 0),
        price: Decimal::new(50_100, 0),
        fee: Decimal::new(2, 0),
        filled_at: now,
        is_maker: true,
    }
}

fn is_paused(snapshot: &EngineStateSnapshot, agent: &str) -> bool {
    matches!(snapshot.state.agent_statuses.get(agent), Some(AgentStatus::Paused { .. }))
}

#[test]
fn test_priority_commands_preempt_normal_queue() {
    let now = fixed_time();
    let mut journal = RecordingJournal::new();
    let mut run = Run::start(TestCore::new(now), &journal).unwrap();
    run.send(pause("taleb", "manual pause"));
    run.send(SequencerCommand::HaltAll { reason: "breaker".to_owned() });
    run.send(SequencerCommand::Shutdown);

    let snapshot = run.drain(&mut journal, now).unwrap();
    assert_eq!(journal.kinds(), vec!["EngineHalted", "AgentPaused"]);
    assert!(is_paused(&snapshot, "taleb"));
    assert!(matches!(snapshot.state.agent_statuses.get("athena"), Some(AgentStatus::Halted)));
    assert!(matches!(run.replies[1], Reply::Stop));
}

#[test]
fn test_submit_signal_returns_explicitly_unsupported() {
    let now = fixed_time();
    let mut journal = RecordingJournal::new();
    let mut run = Run::start(TestCore::new(now), &journal).unwrap();
    run.send(SequencerCommand::SubmitSignal {
        signal: Signal {
            id: SignalId("sig-unsupported".to_owned()),
            basket_id: None,
            agent: AgentId("athena".to_owned()),
            instrument: InstrumentId("BTCUSDT".to_owned()),
            direction: Side::Buy,
            conviction: Decimal::new(75, 2),
            sizing_hint: None,
            arb_type: "momentum".to_owned(),
            stop_loss: Decimal::new(49_000, 0),
            take_profit: Some(Decimal::new(52_000, 0)),
            thesis: "unsupported path".to_owned(),
            urgency: Urgency::Normal,
            metadata: "{}".to_owned(),
            created_at: now,
        },
    });
    let snapshot = run.drain(&mut journal, now).unwrap();
    assert!(matches!(
        run.replies[0],
        Reply::Signal(Err(EngineError::UnsupportedCommand { command: "SubmitSignal" }))
    ));
    assert_eq!(snapshot.sequence_id, SequenceId::zero());
    assert!(journal.events.is_empty());
}

#[test]
fn test_on_fill_updates_order_state_and_journals_fill() {
    let now = fixed_time();
    let mut journal = RecordingJournal::new();
    let core = TestCore::new(now).with_order(record("ord-fill", now));
    let mut run = Run::start(core, &journal).unwrap();
    run.send(SequencerCommand::OnFill { fill: fill("ord-fill", 4, now) });
    run.send(SequencerCommand::Shutdown);

    let snapshot = run.drain(&mut journal, now).unwrap();
    let updated = snapshot.state.orders.get("ord-fill").unwrap();
    assert_eq!(updated.state, OrderState::PartiallyFilled);
    assert_eq!(updated.fills.len(), 1);
    assert_eq!(journal.kinds(), vec!["OrderPartiallyFilled"]);
    match &journal.events[0].event {
        EngineEvent::OrderPartiallyFilled { filled_qty, remaining_qty, .. } => {
            assert_eq!(*filled_qty, Decimal::new(4, 0));
            assert_eq!(*remaining_qty, Decimal::new(6, 0));
        }
        other => panic!("expected a partial fill, got {other:?}"),
    }
}

#[test]
fn complete_fill_is_journaled_as_filled() {
    let now = fixed_time();
    let mut journal = RecordingJournal::new();
    let core = TestCore::new(now).with_order(record("ord-fill", now));
    let mut run = Run::start(core, &journal).unwrap();
    run.send(SequencerCommand::OnFill { fill: fill("ord-fill", 10, now) });
    run.drain(&mut journal, now).unwrap();
    assert_eq!(journal.kinds(), vec!["OrderFilled"]);
}

#[test]
fn fill_of_unknown_order_stops_the_sequencer() {
    let now = fixed_time();
    let mut journal = RecordingJournal::new();
    let mut run = Run::start(TestCore::new(now), &journal).unwrap();
    run.send(SequencerCommand::OnFill { fill: fill("ord-none", 4, now) });
    let err = run.drain(&mut journal, now).unwrap_err();
    assert!(matches!(err, EngineError::OrderNotFound(_)));
    assert_eq!(err.text(), "order not found: ord-none");
}

#[test]
fn test_shutdown_drains_pending_commands_before_exit() {
    let now = fixed_time();
    let mut journal = RecordingJournal::new();
    let mut run = Run::start(TestCore::new(now), &journal).unwrap();
    run.send(pause("satoshi", "operator"));
    run.send(SequencerCommand::Shutdown);
    let snapshot = run.drain(&mut journal, now).unwrap();
    assert!(is_paused(&snapshot, "satoshi"));
    assert_eq!(journal.kinds(), vec!["AgentPaused"]);
}

#[test]
fn test_command_processing_is_deterministic() {
    let first = run_deterministic_sequence();
    let second = run_deterministic_sequence();
    assert_eq!(first, second);
}

fn run_deterministic_sequence() -> (OrderState, ClientOrderId, Vec<&'static str>, SequenceId, usize)
{
    let now = fixed_time();
    let mut journal = RecordingJournal::new();
    let mut run = Run::start(TestCore::new(now), &journal).unwrap();
    run.send(submit("ord-seq", now));
    run.drain(&mut journal, now).unwrap();
    let ack = match &run.replies[0] {
        Reply::Order(Ok(ack)) => ack.clone(),
        other => panic!("order refused: {other:?}"),
    };
    run.send(SequencerCommand::OnFill { fill: fill("ord-seq", 3, now) });
    run.send(pause("athena", "risk"));
    run.send(SequencerCommand::Shutdown);
    let snapshot = run.drain(&mut journal, now).unwrap();
    let order = snapshot.state.orders.get("ord-seq").unwrap();
    (order.state, ack.client_order_id, journal.kinds(), snapshot.sequence_id, order.fills.len())
}

#[test]
fn accepted_order_is_acknowledged_once() {
    let now = fixed_time();
    let mut journal = RecordingJournal::new();
    let mut run = Run::start(TestCore::new(now), &journal).unwrap();
    run.send(submit("ord-seq", now));
    run.send(submit("ord-seq", now));
    let snapshot = run.drain(&mut journal, now).unwrap();
    let acks: Vec<&OrderAck> = run
        .replies
        .iter()
        .map(|reply| match reply {
            Reply::Order(Ok(ack)) => ack,
            other => panic!("order refused: {other:?}"),
        })
        .collect();
    assert_eq!(acks[0].client_order_id, acks[1].client_order_id);
    assert_eq!(acks[0].client_order_id.0, "athena-1774008000000-000000-r07");
    assert_eq!(journal.kinds(), vec!["OrderReceived", "OrderValidated", "OrderRiskChecked"]);
    assert_eq!(snapshot.sequence_id, SequenceId(1));
    assert_eq!(snapshot.state.orders.len(), 1);
}

#[test]
fn test_journal_append_failure_stops_sequencer() {
    let now = fixed_time();
    let mut journal = RecordingJournal::new();
    journal.fails = true;
    let mut run = Run::start(TestCore::new(now), &journal).unwrap();
    run.send(submit("ord-journal-fail", now));
    let err = run.drain(&mut journal, now).unwrap_err();
    assert!(matches!(err, EngineError::Journal(_)));
    assert!(err.text().contains("failed to persist sequencer commit at seq:1"));
}

#[test]
fn test_snapshot_persistence_failure_stops_sequencer() {
    let now = fixed_time();
    let mut journal = RecordingJournal::new();
    journal.fails = true;
    let mut run = Run::start(TestCore::new(now), &journal).unwrap();
    run.send(pause("athena", "snapshot fail"));
    let err = run.drain(&mut journal, now).unwrap_err();
    assert!(matches!(err, EngineError::Journal(_)));
    assert_eq!(run.sequencer.snapshot_cache.sequence_id, SequenceId::zero());
}

#[test]
fn test_bootstrap_restores_snapshot_and_avoids_sequence_reuse_after_rejection() {
    let now = fixed_time();
    let mut journal = RecordingJournal::new();
    let mut run = Run::start(TestCore::new(now).rejecting_orders(), &journal).unwrap();
    run.send(submit("ord-reject", now));
    run.send(SequencerCommand::Shutdown);
    let first_snapshot = run.drain(&mut journal, now).unwrap();
    assert!(matches!(run.replies[1], Reply::Order(Err(_))));
    assert_eq!(first_snapshot.sequence_id, SequenceId(2));

    let mut restored = Run::start(TestCore::new(now), &journal).unwrap();
    restored.send(SequencerCommand::Snapshot);
    restored.send(pause("athena", "post-restore"));
    restored.send(SequencerCommand::Shutdown);
    let final_snapshot = restored.drain(&mut journal, now).unwrap();

    match &restored.replies[1] {
        Reply::Snapshot(snapshot) => assert_eq!(snapshot.sequence_id, SequenceId(2)),
        other => panic!("expected a snapshot, got {other:?}"),
    }
    assert_eq!(final_snapshot.sequence_id, SequenceId(5));
    let sequences: Vec<u64> = journal.events.iter().map(|event| event.sequence_id.0).collect();
    assert_eq!(sequences, vec![2, 5]);
}

#[test]
fn restored_agents_continue_their_sequences() {
    let now = fixed_time();
    let mut journal = RecordingJournal::new();
    let mut run = Run::start(TestCore::new(now), &journal).unwrap();
    run.send(submit("ord-1", now));
    run.send(submit("ord-2", now));
    run.drain(&mut journal, now).unwrap();

    let mut restored = Run::start(TestCore::new(now), &journal).unwrap();
    restored.send(submit("ord-3", now));
    restored.drain(&mut journal, now).unwrap();
    match &restored.replies[0] {
        Reply::Order(Ok(ack)) => {
            assert_eq!(ack.client_order_id.0, "athena-1774008000000-000002-r07")
        }
        other => panic!("order refused: {other:?}"),
    }
}

#[test]
fn test_bootstrap_rejects_journal_tail_without_replay_support() {
    let now = fixed_time();
    let mut journal = RecordingJournal::new();
    journal.events.push(SequencedEvent {
        sequence_id: SequenceId(1),
        timestamp: now,
        event: EngineEvent::OrderRejected {
            order_id: OrderId("ord-tail".to_owned()),
            stage: "risk".to_owned(),
            reason: "tail".to_owned(),
        },
    });
    let result = Run::start(TestCore::new(now), &journal);
    assert!(matches!(result, Err(EngineError::Journal(_))));
}

#[test]
fn malformed_client_order_id_stops_the_bootstrap() {
    let now = fixed_time();
    let journal = RecordingJournal::new();
    let mut core = TestCore::new(now);
    core.state.idempotency_cache.insert(
        "athena".to_owned(),
        OrderAck {
            order_id: OrderId("ord-1".to_owned()),
            client_order_id: ClientOrderId("athena".to_owned()),
            accepted_at: now,
        },
    );
    let err = match Run::start(core, &journal) {
        Ok(_) => panic!("bootstrap must fail"),
        Err(err) => err,
    };
    assert!(err.text().contains("persisted client_order_id athena is malformed"), "{}", err.text());
}

#[test]
fn persisted_id_without_agent_or_sequence_is_named() {
    let now = fixed_time();
    for (text, fault) in [
        ("garbage", "missing agent prefix"),
        ("athena-1774008000000-7-r07", "missing agent prefix"),
        ("athena-1774008000000-99999999999999999999-r07", "missing or overflowing sequence"),
    ] {
        let mut core = TestCore::new(now);
        core.state.idempotency_cache.insert(
            "ord-1".to_owned(),
            OrderAck {
                order_id: OrderId("ord-1".to_owned()),
                client_order_id: ClientOrderId(text.to_owned()),
                accepted_at: now,
            },
        );
        let err = match Run::start(core, &RecordingJournal::new()) {
            Ok(_) => panic!("bootstrap must fail"),
            Err(err) => err,
        };
        let expected = format!("persisted client_order_id {text} is malformed: {fault}");
        assert!(err.text().contains(&expected), "{}", err.text());
    }
}

/// Agents whose names begin alike up to a dash keep sequences of their own.
#[test]
fn restored_sequences_are_kept_by_the_whole_name() {
    let now = fixed_time();
    let mut core = TestCore::new(now);
    for (order, text) in [
        ("ord-1", "deep-1774008000000-000003-r07"),
        ("ord-2", "deep-blue-1774008000000-000008-r07"),
        ("ord-3", "deep-blue-1774008000000-000005-r07"),
    ] {
        core.state.idempotency_cache.insert(
            order.to_owned(),
            OrderAck {
                order_id: OrderId(order.to_owned()),
                client_order_id: ClientOrderId(text.to_owned()),
                accepted_at: now,
            },
        );
    }
    let run = Run::start(core, &RecordingJournal::new()).unwrap();
    let generators = &run.sequencer.client_order_id_generators;
    assert_eq!(generators.len(), 2);
    assert_eq!(generators.get("deep").unwrap().current_seq(), 4);
    assert_eq!(generators.get("deep-blue").unwrap().current_seq(), 9);
}

/// A core that refuses every snapshot and every other request, and counts what it is asked.
struct RefusingCore {
    state: EngineState,
    asked: Vec<String>,
}

impl RefusingCore {
    fn refuse(&mut self, what: &str) -> Result<(), EngineError> {
        self.asked.push(what.to_owned());
        Err(EngineError::Internal(what.to_owned()))
    }
}

impl EngineCore for RefusingCore {
    fn held(&self) -> EngineState {
        self.state.clone()
    }

    fn may_answer(&self, _: CoreRequest, said: Result<(), EngineError>, _: RefusingCore) -> bool {
        said.is_err()
    }

    fn may_judge(
        &self,
        _: PipelineOrder<Validated>,
        _: Timestamp,
        verdict: Result<PipelineOrder<RiskChecked>, EngineError>,
        _: RefusingCore,
    ) -> bool {
        verdict.is_err()
    }

    fn may_mark<P: PriceSource>(
        &self,
        _: P,
        _: Timestamp,
        said: Result<(), EngineError>,
        _: RefusingCore,
    ) -> bool {
        said.is_err()
    }

    fn state(&self) -> &EngineState {
        &self.state
    }

    fn state_mut(&mut self) -> &mut EngineState {
        &mut self.state
    }

    fn restore_snapshot(&mut self, snapshot: &EngineStateSnapshot) -> Result<(), EngineError> {
        self.refuse(&format!("restore {}", snapshot.sequence_id.0))
    }

    fn evaluate_order(
        &mut self,
        order: PipelineOrder<Validated>,
        _: Timestamp,
    ) -> Result<PipelineOrder<RiskChecked>, EngineError> {
        self.asked.push(format!("evaluate {}", order.order_core().id.0));
        Err(EngineError::RiskRejected { reason: "refused".to_owned() })
    }

    fn on_fill(&mut self, fill: &Fill, _: Timestamp) -> Result<(), EngineError> {
        self.refuse(&format!("fill {}", fill.order_id.0))
    }

    fn on_reconciliation(
        &mut self,
        report: &ReconciliationReport,
        _: Timestamp,
    ) -> Result<(), EngineError> {
        self.refuse(&format!("reconcile {}", report.venue_id.0))
    }

    fn mark_to_market<P: PriceSource>(
        &mut self,
        _: &P,
        _: Timestamp,
    ) -> Result<(), EngineError> {
        self.refuse("mark")
    }

    fn pause_agent(
        &mut self,
        agent: &AgentId,
        reason: String,
        _: Timestamp,
    ) -> Result<(), EngineError> {
        self.refuse(&format!("pause {} {reason}", agent.0))
    }

    fn resume_agent(&mut self, agent: &AgentId, _: Timestamp) -> Result<(), EngineError> {
        self.refuse(&format!("resume {}", agent.0))
    }

    fn adjust_limits(
        &mut self,
        agent: &AgentId,
        _: AgentRiskLimits,
    ) -> Result<(), EngineError> {
        self.refuse(&format!("adjust {}", agent.0))
    }

    fn halt_all(&mut self, reason: String, now: Timestamp) -> Result<(), EngineError> {
        self.refuse(&format!("halt {reason} at {}", now.timestamp_millis()))
    }

    fn reset_circuit_breaker(&mut self, _: Timestamp) -> Result<(), EngineError> {
        self.refuse("reset")
    }
}

fn refusing(now: Timestamp) -> RefusingCore {
    RefusingCore { state: empty_state(now), asked: Vec::new() }
}

/// The core is asked what the command says, and its refusal is the outcome.
#[test]
fn what_the_core_refuses_is_refused() {
    let now = fixed_time();
    let mut sequencer =
        Sequencer::bootstrap(refusing(now), NoPrices, None, SequenceId(0), true, 7).unwrap();
    let agent = || AgentId("athena".to_owned());
    for (command, asked) in [
        (
            SequencerCommand::HaltAll { reason: "stop".to_owned() },
            "halt stop at 1774008000000",
        ),
        (
            SequencerCommand::PauseAgent { agent: agent(), reason: "rest".to_owned() },
            "pause athena rest",
        ),
        (SequencerCommand::ResumeAgent { agent: agent() }, "resume athena"),
        (SequencerCommand::MarkToMarket, "mark"),
        (SequencerCommand::OnFill { fill: fill("ord-1", 1, now) }, "fill ord-1"),
    ] {
        match sequencer.process(command, now) {
            Err(EngineError::Internal(said)) => assert_eq!(said, asked),
            _ => panic!("{asked} must be refused"),
        }
        assert_eq!(sequencer.core.asked.last().unwrap(), asked);
    }
    let processed = sequencer.process(submit("ord-1", now), now).unwrap();
    assert!(matches!(processed.reply, Reply::Order(Err(EngineError::RiskRejected { .. }))));
    assert_eq!(sequencer.core.asked.last().unwrap(), "evaluate ord-1");
}

/// A snapshot without later events is restored, and the next number follows it; a core that
/// does not take it stops the start.
#[test]
fn bootstrap_goes_by_the_answer_of_the_core() {
    let now = fixed_time();
    let snapshot = || EngineStateSnapshot {
        state: empty_state(now),
        sequence_id: SequenceId(41),
        snapshot_at: now,
    };
    let mut sequencer = Sequencer::bootstrap(
        TestCore::new(now),
        NoPrices,
        Some((SequenceId(41), snapshot())),
        SequenceId(41),
        false,
        7,
    )
    .unwrap();
    let processed = sequencer.process(submit("ord-1", now), now).unwrap();
    assert_eq!(processed.sequence_id, SequenceId(42));

    let refused = Sequencer::bootstrap(
        refusing(now),
        NoPrices,
        Some((SequenceId(41), snapshot())),
        SequenceId(41),
        false,
        7,
    );
    assert!(matches!(refused, Err(EngineError::Internal(said)) if said == "restore 41"));

    let started = Sequencer::start(
        TestCore::new(now),
        Err(EngineError::Internal("no".to_owned())),
        NoPrices,
        None,
        SequenceId(0),
        true,
        7,
    );
    assert!(matches!(started, Err(EngineError::Internal(said)) if said == "no"));
    let tail = Sequencer::start(
        TestCore::new(now),
        Ok(()),
        NoPrices,
        Some((SequenceId(41), snapshot())),
        SequenceId(42),
        false,
        7,
    );
    assert!(matches!(tail, Err(EngineError::Journal(_))));
}

#[test]
fn reconciliation_reports_accepted_corrections() {
    let now = fixed_time();
    let mut journal = RecordingJournal::new();
    let mut run = Run::start(TestCore::new(now), &journal).unwrap();
    let divergence = |instrument: &str, action: ReconciliationAction| PositionDivergence {
        instrument: InstrumentId(instrument.to_owned()),
        engine_qty: Decimal::new(1, 0),
        venue_qty: Decimal::new(2, 0),
        delta: Decimal::new(1, 0),
        action,
    };
    run.send(SequencerCommand::OnReconciliation {
        report: ReconciliationReport {
            venue_id: VenueId("bybit".to_owned()),
            account_id: AccountId("main".to_owned()),
            started_at: now,
            completed_at: now,
            position_divergences: vec![
                divergence("BTC", ReconciliationAction::AcceptVenue),
                divergence("ETH", ReconciliationAction::AlertOnly),
            ],
            order_divergences: Vec::new(),
            balance_divergence: None,
        },
    });
    run.drain(&mut journal, now).unwrap();
    assert_eq!(journal.kinds(), vec!["PositionCorrected", "ReconciliationCompleted"]);
    assert!(matches!(
        journal.events[1].event,
        EngineEvent::ReconciliationCompleted { divergences_found: 2, .. }
    ));
}

#[test]
fn remaining_quantity_is_what_is_not_filled() {
    let now = fixed_time();
    let mut order = record("ord-1", now);
    assert_eq!(remaining_qty(&order).unwrap(), Decimal::new(10, 0));
    order.fills.push(fill("ord-1", 4, now));
    order.fills.push(fill("ord-1", 5, now));
    assert_eq!(checked_remaining_qty(&order).unwrap().unwrap(), Decimal::new(1, 0));
    order.fills.push(fill("ord-1", 3, now));
    let err = remaining_qty(&order).unwrap_err();
    assert_eq!(err.text(), "invalid state transition: order ord-1 overfilled by 2");
}

#[test]
fn limits_are_adjusted_and_answered() {
    let now = fixed_time();
    let mut journal = RecordingJournal::new();
    let mut run = Run::start(TestCore::new(now), &journal).unwrap();
    run.send(SequencerCommand::AdjustLimits {
        agent: AgentId("athena".to_owned()),
        limits: AgentRiskLimits {
            allocated_capital: Decimal::new(1, 0),
            max_position_notional: Decimal::new(1, 0),
            max_gross_notional: Decimal::new(1, 0),
            max_drawdown_pct: Decimal::new(1, 1),
            max_daily_loss: Decimal::new(1, 0),
            max_open_orders: 1,
            allowed_instruments: None,
            allowed_venues: None,
        },
    });
    run.send(SequencerCommand::MarkToMarket);
    run.send(SequencerCommand::ResumeAgent { agent: AgentId("athena".to_owned()) });
    run.send(SequencerCommand::ResetCircuitBreaker { breaker_id: "CB-4".to_owned() });
    let snapshot = run.drain(&mut journal, now).unwrap();
    assert!(run.replies.iter().any(|reply| matches!(reply, Reply::Limits(Ok(())))));
    assert!(snapshot.state.risk_limits.per_agent.contains_key("athena"));
    assert_eq!(journal.kinds(), vec!["CircuitBreakerReset", "AgentResumed"]);
    assert_eq!(snapshot.sequence_id, SequenceId(4));
}
