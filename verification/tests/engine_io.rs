use feynman::circuit_breaker::ExecutionMode;
use feynman::cli::CliArgs;
use feynman::decimal::Decimal;
use feynman::engine::EngineError;
use feynman::event::{EngineEvent, RiskOutcomeKind, SequencedEvent};
use feynman::gateway::{GatewayError, VenueOrderAck};
use feynman::health::SubsystemId;
use feynman::ids::{
    AgentId, ClientOrderId, InstrumentId, MarketId, OrderId, SequenceId, VenueId, VenueOrderId,
};
use feynman::journal::{
    encode_event_row, encode_event_rows, ensure_supported_schema_version, event_kind,
    events_migration, lacks_schema_version, latest_sequence_id, latest_snapshot, persist_steps,
    replayed_events, seq_as_i64, step_outcome, EncodedEventRow, EncodedSnapshotRow,
    EventsMigration, JournalStep, StoredEvent, StoredSnapshot,
};
use feynman::market_data::{OrderbookSnapshot, PriceLevel};
use feynman::pipeline::{OrderType, TimeInForce};
use feynman::settings::{configure, expand_variables, FileSettings, Overrides};
use feynman::smoke::{
    build_market_submission, build_resting_limit_submission, checked_resting_limit_submission,
    fill_wait, orderbook_wait, parse_bool_env, parse_decimal_env, parse_u32_env, presence_wait,
    submit_wait, unique_suffix, Wait,
};
use feynman::table::Table;
use feynman::time::Timestamp;

// ─── Command line ───

#[test]
fn parse_uses_default_config_path_when_flag_is_absent() {
    let cli_args = CliArgs::parse(Vec::<String>::new()).expect("default config path");
    assert_eq!(cli_args.config_path, "config/default.toml");
}

#[test]
fn parse_accepts_explicit_config_path() {
    let cli_args = CliArgs::parse(vec!["--config".to_owned(), "/tmp/custom.toml".to_owned()])
        .expect("explicit config path");
    assert_eq!(cli_args.config_path, "/tmp/custom.toml");
}

#[test]
fn parse_rejects_unknown_arguments() {
    let error = CliArgs::parse(vec!["--verbose".to_owned()]).expect_err("unknown arguments fail");
    assert!(error.text().contains("unknown argument"));
}

#[test]
fn parse_takes_the_last_path_and_needs_one() {
    let args = ["--config", "a", "--config", "b"].iter().map(|s| (*s).to_owned()).collect();
    assert_eq!(CliArgs::parse(args).unwrap().config_path, "b");
    let error = CliArgs::parse(vec!["--config".to_owned()]).unwrap_err();
    assert_eq!(error.text(), "missing value for --config");
}

// ─── Journal ───

fn fixed_time() -> Timestamp {
    Timestamp::from_millis(1_774_008_000_000)
}

fn sample_event(seq: u64) -> SequencedEvent<EngineEvent> {
    SequencedEvent {
        sequence_id: SequenceId(seq),
        timestamp: fixed_time(),
        event: EngineEvent::AgentPaused {
            agent_id: AgentId(format!("agent-{seq}")),
            reason: "test".to_owned(),
        },
    }
}

#[test]
fn test_event_kind_covers_all_variants() {
    let events = vec![
        EngineEvent::OrderReceived {
            order_id: OrderId("o1".into()),
            agent_id: AgentId("a1".into()),
            instrument_id: InstrumentId("BTC".into()),
            venue_id: VenueId("bybit".into()),
        },
        EngineEvent::OrderValidated { order_id: OrderId("o1".into()) },
        EngineEvent::OrderRiskChecked {
            order_id: OrderId("o1".into()),
            outcome: RiskOutcomeKind::Approved,
        },
        EngineEvent::EngineHalted { reason: "test".into() },
        EngineEvent::SubsystemDegraded {
            subsystem: SubsystemId::EventJournal,
            reason: "test".into(),
        },
    ];
    for ev in &events {
        let kind = event_kind(ev);
        assert!(!kind.is_empty());
    }
    assert_eq!(event_kind(&events[4]), "SubsystemDegraded");
}

#[test]
fn rows_carry_key_time_kind_and_version() {
    let events = vec![sample_event(7), sample_event(7)];
    let payloads = vec![Ok(vec![1u8]), Ok(vec![2u8])];
    let rows = encode_event_rows(&events, &payloads).unwrap();
    assert_eq!(rows.len(), 2);
    assert_eq!((rows[0].sequence_id, rows[0].event_index), (7, 0));
    assert_eq!((rows[1].sequence_id, rows[1].event_index), (7, 1));
    assert_eq!(rows[1].timestamp, "2026-03-20T12:00:00+00:00");
    assert_eq!(rows[1].kind, "AgentPaused");
    assert_eq!(rows[1].schema_version, 1);
    assert_eq!(rows[1].payload, vec![2]);

    let err = encode_event_rows(&events, &[Ok(vec![]), Err("too deep".to_owned())]).unwrap_err();
    assert!(err.text().contains("failed to encode event seq:7: too deep"));
    let err = encode_event_row(usize::MAX, &sample_event(1), &Ok(vec![])).unwrap_err();
    assert!(err.text().contains("event_index 18446744073709551615 overflows i64"));
    assert_eq!(seq_as_i64(SequenceId(5)), 5);
}

fn event_row(seq: i64, index: i64) -> EncodedEventRow {
    EncodedEventRow {
        sequence_id: seq,
        event_index: index,
        timestamp: String::new(),
        kind: "AgentPaused",
        schema_version: 1,
        payload: vec![],
    }
}

#[test]
fn commits_are_written_in_one_transaction() {
    let rows = vec![event_row(7, 0), event_row(7, 1)];
    let snapshot = EncodedSnapshotRow {
        sequence_id: 7,
        timestamp: String::new(),
        schema_version: 1,
        payload: vec![],
    };
    assert!(persist_steps(&[], None).is_empty());
    assert_eq!(
        persist_steps(&rows, None),
        vec![
            JournalStep::Begin,
            JournalStep::InsertEvent(0),
            JournalStep::InsertEvent(1),
            JournalStep::Commit
        ]
    );
    assert_eq!(
        persist_steps(&[], Some(&snapshot)),
        vec![
            JournalStep::Begin,
            JournalStep::SaveSnapshot,
            JournalStep::PruneSnapshots,
            JournalStep::Commit,
            JournalStep::Checkpoint
        ]
    );
    let failure = |step| step_outcome(step, &rows, Some(&snapshot), "disk full");
    assert!(failure(JournalStep::Checkpoint).is_ok());
    assert!(failure(JournalStep::InsertEvent(1))
        .unwrap_err()
        .text()
        .contains("batch insert at seq:7/event:1: disk full"));
    assert!(failure(JournalStep::PruneSnapshots)
        .unwrap_err()
        .text()
        .contains("prune old snapshots at seq:7: disk full"));
    assert!(failure(JournalStep::SaveSnapshot).unwrap_err().text().contains("save_snapshot"));
    assert!(failure(JournalStep::Begin).unwrap_err().text().contains("begin transaction"));
    assert!(failure(JournalStep::Commit).unwrap_err().text().contains("commit transaction"));
}

#[test]
fn replay_gives_back_events_and_rejects_unknown_versions() {
    let stored = |seq: i64, version: i64| StoredEvent {
        sequence_id: seq,
        schema_version: version,
        event: Ok(sample_event(seq as u64)),
    };
    let events = replayed_events(vec![stored(5, 1), stored(6, 1)]).unwrap();
    assert_eq!(events.len(), 2);
    assert_eq!(events[1].sequence_id, SequenceId(6));

    let err = replayed_events(vec![stored(5, 1), stored(7, 99)]).unwrap_err();
    assert!(err.text().contains("unsupported event schema_version 99 at seq:7; expected 1"));
    let unreadable = StoredEvent {
        sequence_id: 8,
        schema_version: 1,
        event: Err("eof".to_owned()),
    };
    let err = replayed_events(vec![unreadable]).unwrap_err();
    assert!(err.text().contains("failed to decode event: eof"));
    assert!(ensure_supported_schema_version("snapshot", 1, 3).is_ok());
}

#[test]
fn snapshots_are_restored_by_version() {
    assert!(latest_snapshot(None).unwrap().is_none());
    let err = latest_snapshot(Some(StoredSnapshot {
        sequence_id: 42,
        schema_version: 99,
        snapshot: Err("eof".to_owned()),
    }))
    .unwrap_err();
    assert!(err.text().contains("unsupported snapshot schema_version 99"));
    let err = latest_snapshot(Some(StoredSnapshot {
        sequence_id: 42,
        schema_version: 1,
        snapshot: Err("eof".to_owned()),
    }))
    .unwrap_err();
    assert!(matches!(err, EngineError::Journal(_)));
}

#[test]
fn latest_sequence_number_is_zero_for_an_empty_journal() {
    assert_eq!(latest_sequence_id(None), SequenceId::zero());
    assert_eq!(latest_sequence_id(Some(4)), SequenceId(4));
    assert_eq!(latest_sequence_id(Some(-1)), SequenceId(u64::MAX));
}

#[test]
fn earlier_layouts_are_migrated() {
    let columns = |names: &[&str]| -> Vec<String> { names.iter().map(|n| (*n).to_owned()).collect() };
    let current = columns(&["sequence_id", "event_index", "schema_version", "payload"]);
    assert_eq!(events_migration(&current), EventsMigration::UpToDate);
    let versioned = columns(&["sequence_id", "schema_version", "payload"]);
    assert_eq!(events_migration(&versioned), EventsMigration::CopyVersioned);
    let legacy = columns(&["sequence_id", "payload"]);
    assert_eq!(events_migration(&legacy), EventsMigration::CopyUnversioned);
    assert!(lacks_schema_version(&legacy));
    assert!(!lacks_schema_version(&versioned));
}

// ─── Smoke run ───

fn dec(text: &str) -> Decimal {
    Decimal::parse(text).unwrap()
}

fn book(bid: Option<&str>) -> OrderbookSnapshot {
    OrderbookSnapshot {
        venue_id: VenueId("bybit".into()),
        instrument_id: InstrumentId("BTCUSDT".into()),
        market_id: MarketId("BTCUSDT".into()),
        bids: bid.map(|b| PriceLevel { price: dec(b), qty: dec("1") }).into_iter().collect(),
        asks: Vec::new(),
        observed_at: fixed_time(),
        received_at: fixed_time(),
    }
}

#[test]
fn resting_orders_are_priced_below_the_bid() {
    let order =
        build_resting_limit_submission("BTCUSDT", dec("0.001"), 500, &book(Some("60000.50")), "x-1")
            .unwrap();
    assert_eq!(order.price.unwrap().text(), "57000.48");
    assert_eq!(order.order_type, OrderType::Limit);
    assert_eq!(order.time_in_force, TimeInForce::GTC);
    assert_eq!(order.order_id.0, "ord-x-1");
    assert_eq!(order.client_order_id.0, "smoke-x-1");
    assert_eq!(order.qty, dec("0.001"));

    let tick_below = checked_resting_limit_submission("BTCUSDT", dec("1"), 1, &book(Some("3")), "x");
    assert_eq!(tick_below.unwrap().unwrap().price.unwrap().text(), "2");
}

#[test]
fn orders_that_cannot_rest_are_refused() {
    let build = |bps: u32, bid: Option<&str>| {
        checked_resting_limit_submission("BTCUSDT", dec("1"), bps, &book(bid), "x")
            .expect("numbers in range")
            .unwrap_err()
    };
    assert_eq!(build(500, None), "orderbook has no bids; cannot price resting limit");
    assert_eq!(
        build(0, Some("10")),
        "BYBIT_TESTNET_LIMIT_OFFSET_BPS must be between 1 and 9999, got 0"
    );
    assert_eq!(
        build(10_000, Some("10")),
        "BYBIT_TESTNET_LIMIT_OFFSET_BPS must be between 1 and 9999, got 10000"
    );
    assert_eq!(build(1, Some("1")), "computed resting limit price must be positive");
}

#[test]
fn market_orders_fill_at_once() {
    let order = build_market_submission("BTCUSDT", dec("0.001"), &unique_suffix("market", 17));
    assert_eq!(order.order_id.0, "ord-market-17");
    assert_eq!(order.order_type, OrderType::Market);
    assert_eq!(order.time_in_force, TimeInForce::IOC);
    assert!(order.price.is_none());
}

#[test]
fn settings_are_read_or_refused() {
    assert_eq!(parse_decimal_env("QTY", None, "0.001").unwrap(), dec("0.001"));
    assert_eq!(parse_decimal_env("QTY", Some("2.5".to_owned()), "0.001").unwrap(), dec("2.5"));
    assert_eq!(
        parse_decimal_env("QTY", Some("two".to_owned()), "0.001").unwrap_err(),
        "QTY must be a decimal, got two"
    );
    assert_eq!(parse_u32_env("BPS", None, 500).unwrap(), 500);
    assert_eq!(parse_u32_env("BPS", Some("4294967295".to_owned()), 500).unwrap(), u32::MAX);
    assert_eq!(
        parse_u32_env("BPS", Some("4294967296".to_owned()), 500).unwrap_err(),
        "BPS must be an integer, got 4294967296"
    );
    assert!(parse_bool_env("FILL", Some("yes".to_owned()), false).unwrap());
    assert!(!parse_bool_env("FILL", Some("FALSE".to_owned()), true).unwrap());
    assert!(parse_bool_env("FILL", None, true).unwrap());
    assert_eq!(
        parse_bool_env("FILL", Some("maybe".to_owned()), true).unwrap_err(),
        "FILL must be one of 1/0/true/false/yes/no, got maybe"
    );
}

#[test]
fn waits_end_look_again_or_fail() {
    let market = MarketId("BTCUSDT".into());
    assert!(matches!(orderbook_wait(Some(book(Some("1"))), &market, true), Wait::Done(_)));
    assert!(matches!(orderbook_wait(None, &market, false), Wait::Again));
    assert!(matches!(orderbook_wait(None, &market, true), Wait::Failed(_)));

    let offline = || {
        Err::<VenueOrderAck, GatewayError>(GatewayError::VenueNotConnected {
            venue_id: "bybit".into(),
            state: "down".into(),
        })
    };
    assert!(matches!(submit_wait(offline(), false), Wait::Again));
    match submit_wait(offline(), true) {
        Wait::Failed(why) => assert_eq!(why, "venue bybit is not connected (state: down)"),
        _ => panic!("expected a failure"),
    }

    let id = VenueOrderId("o-1".into());
    assert!(matches!(presence_wait(&[], &id, false, true), Wait::Done(())));
    assert!(matches!(presence_wait(&[], &id, true, false), Wait::Again));
    match presence_wait(&[], &id, true, true) {
        Wait::Failed(why) => {
            assert_eq!(why, "timed out waiting for o-1 to appear in open orders")
        }
        _ => panic!("expected a failure"),
    }
    match fill_wait(None, &ClientOrderId("c-1".into())) {
        Wait::Failed(why) => assert_eq!(why, "fill channel closed while waiting for c-1"),
        _ => panic!("expected a failure"),
    }
}

// ─── Settings ───

fn file_settings() -> FileSettings {
    FileSettings {
        mode: Some("${MODE}".to_owned()),
        dry_run: None,
        grpc_port: 50051,
        redis_url: "redis://${HOST}:6379".to_owned(),
    }
}

fn no_overrides() -> Overrides {
    Overrides {
        feynman_mode: None,
        engine_mode: None,
        dry_run: None,
        grpc_port: None,
        redis_url: None,
    }
}

fn variables() -> Table<String> {
    let mut t = Table::new();
    t.insert("MODE".to_owned(), "paper".to_owned());
    t.insert("HOST".to_owned(), "cache".to_owned());
    t
}

#[test]
fn variables_are_expanded() {
    let v = variables();
    assert_eq!(expand_variables("redis://${HOST}:6379", &v), "redis://cache:6379");
    assert_eq!(expand_variables("${HOST}${HOST}", &v), "cachecache");
    assert_eq!(expand_variables("${UNSET} $HOST ${HOST", &v), "${UNSET} $HOST ${HOST");
    assert_eq!(expand_variables("plain", &v), "plain");
}

#[test]
fn file_settings_count_where_nothing_overrides_them() {
    let config = configure(&file_settings(), &no_overrides(), &variables()).unwrap();
    assert_eq!(config.engine.mode, Some(ExecutionMode::Paper));
    assert!(config.engine.dry_run);
    assert_eq!(config.engine.grpc_port, 50051);
    assert_eq!(config.redis.url, "redis://cache:6379");
}

#[test]
fn overrides_count_before_the_file() {
    let overrides = Overrides {
        feynman_mode: Some("live".to_owned()),
        engine_mode: Some("backtest".to_owned()),
        dry_run: Some("false".to_owned()),
        grpc_port: Some("6000".to_owned()),
        redis_url: Some("redis://other".to_owned()),
    };
    let config = configure(&file_settings(), &overrides, &variables()).unwrap();
    assert_eq!(config.engine.mode, Some(ExecutionMode::Live));
    assert!(!config.engine.dry_run);
    assert_eq!(config.engine.grpc_port, 6000);
    assert_eq!(config.redis.url, "redis://other");
}

#[test]
fn unreadable_settings_are_refused() {
    let mut overrides = no_overrides();
    overrides.engine_mode = Some("fast".to_owned());
    assert_eq!(
        configure(&file_settings(), &overrides, &variables()).unwrap_err(),
        "engine mode must be one of live/paper/backtest, got fast"
    );
    let mut overrides = no_overrides();
    overrides.dry_run = Some("maybe".to_owned());
    assert_eq!(
        configure(&file_settings(), &overrides, &variables()).unwrap_err(),
        "ENGINE_DRY_RUN must be one of 1/0/true/false/yes/no, got maybe"
    );
    let mut overrides = no_overrides();
    overrides.grpc_port = Some("65536".to_owned());
    assert_eq!(
        configure(&file_settings(), &overrides, &variables()).unwrap_err(),
        "ENGINE_GRPC_PORT must be a port number, got 65536"
    );
}
