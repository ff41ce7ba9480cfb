//! The journal's decisions, carried out on an SQLite database in memory. A payload is a
//! number under which the harness keeps the value itself.

use feynman::decimal::Decimal;
use feynman::engine::{EngineError, EngineState, EngineStateSnapshot};
use feynman::event::{EngineEvent, RiskOutcomeKind, SequencedEvent};
use feynman::ids::{AgentId, InstrumentId, OrderId, SequenceId, VenueId};
use feynman::journal::{
    encode_event_rows, encode_snapshot_row, event_kind, events_migration, has_column,
    lacks_schema_version, latest_sequence_id, latest_snapshot, persist_steps, replayed_events,
    seq_as_i64, step_outcome, EncodedEventRow, EncodedSnapshotRow, EventsMigration, JournalStep,
    StoredEvent, StoredSnapshot, PERSISTED_SCHEMA_VERSION,
};
use feynman::limits::{FirmRiskLimits, PredictionMarketLimits, RiskLimits};
use feynman::portfolio::{AgentStatus, FirmBook, Positions, PredictionExposureSummary};
use feynman::table::Table;
use feynman::time::Timestamp;
use rusqlite::Connection;

const CREATE_EVENTS: &str = "CREATE TABLE IF NOT EXISTS events (
    sequence_id INTEGER NOT NULL,
    event_index INTEGER NOT NULL,
    timestamp TEXT NOT NULL,
    event_kind TEXT NOT NULL,
    schema_version INTEGER NOT NULL,
    payload BLOB NOT NULL,
    PRIMARY KEY (sequence_id, event_index)
)";

const CREATE_SNAPSHOTS: &str = "CREATE TABLE IF NOT EXISTS snapshots (
    sequence_id INTEGER PRIMARY KEY,
    timestamp TEXT NOT NULL,
    schema_version INTEGER NOT NULL,
    state BLOB NOT NULL
)";

const CREATE_EVENTS_V2: &str = "CREATE TABLE events_v2 (
    sequence_id INTEGER NOT NULL,
    event_index INTEGER NOT NULL,
    timestamp TEXT NOT NULL,
    event_kind TEXT NOT NULL,
    schema_version INTEGER NOT NULL,
    payload BLOB NOT NULL,
    PRIMARY KEY (sequence_id, event_index)
)";

/// The values that payloads stand for.
struct Kept {
    events: Vec<SequencedEvent<EngineEvent>>,
    snapshots: Vec<EngineStateSnapshot>,
}

impl Kept {
    fn keep_event(&mut self, event: &SequencedEvent<EngineEvent>) -> Vec<u8> {
        self.events.push(event.clone());
        vec![((self.events.len() - 1) / 256) as u8, ((self.events.len() - 1) % 256) as u8]
    }

    fn keep_snapshot(&mut self, snapshot: &EngineStateSnapshot) -> Vec<u8> {
        self.snapshots.push(snapshot.clone());
        vec![0, (self.snapshots.len() - 1) as u8]
    }
}

fn number(payload: &[u8]) -> usize {
    usize::from(payload[0]) * 256 + usize::from(payload[1])
}

struct Journal {
    conn: Connection,
    kept: Kept,
}

fn columns(conn: &Connection, table: &str) -> Vec<String> {
    let mut stmt = conn.prepare(&format!("PRAGMA table_info({table})")).unwrap();
    let rows = stmt.query_map([], |row| row.get::<_, String>(1)).unwrap();
    rows.map(|row| row.unwrap()).collect()
}

impl Journal {
    fn in_memory() -> Journal {
        let kept = Kept { events: Vec::new(), snapshots: Vec::new() };
        Journal::open(Connection::open_in_memory().unwrap(), kept)
    }

    fn open(conn: Connection, kept: Kept) -> Journal {
        conn.execute_batch(CREATE_EVENTS).unwrap();
        conn.execute_batch(CREATE_SNAPSHOTS).unwrap();
        let version = match events_migration(&columns(&conn, "events")) {
            EventsMigration::UpToDate => None,
            EventsMigration::CopyVersioned => Some("schema_version"),
            EventsMigration::CopyUnversioned => Some("1"),
        };
        if let Some(version) = version {
            conn.execute_batch(CREATE_EVENTS_V2).unwrap();
            conn.execute_batch(&format!(
                "INSERT INTO events_v2 SELECT sequence_id, 0, timestamp, event_kind, {version}, payload FROM events; DROP TABLE events; ALTER TABLE events_v2 RENAME TO events;"
            ))
            .unwrap();
        }
        if lacks_schema_version(&columns(&conn, "snapshots")) {
            conn.execute_batch(&format!(
                "ALTER TABLE snapshots ADD COLUMN schema_version INTEGER NOT NULL DEFAULT {PERSISTED_SCHEMA_VERSION}"
            ))
            .unwrap();
        }
        Journal { conn, kept }
    }

    fn run_step(
        &self,
        step: JournalStep,
        events: &[EncodedEventRow],
        snapshot: Option<&EncodedSnapshotRow>,
    ) -> rusqlite::Result<()> {
        match step {
            JournalStep::Begin => self.conn.execute_batch("BEGIN"),
            JournalStep::Commit => self.conn.execute_batch("COMMIT"),
            JournalStep::Checkpoint => self.conn.execute_batch("PRAGMA wal_checkpoint(PASSIVE)"),
            JournalStep::InsertEvent(index) => {
                let row = &events[index];
                self.conn
                    .execute(
                        "INSERT OR IGNORE INTO events (sequence_id, event_index, timestamp, event_kind, schema_version, payload) VALUES (?1, ?2, ?3, ?4, ?5, ?6)",
                        (
                            row.sequence_id,
                            row.event_index,
                            &row.timestamp,
                            row.kind,
                            row.schema_version,
                            &row.payload,
                        ),
                    )
                    .map(|_| ())
            }
            JournalStep::SaveSnapshot => {
                let row = snapshot.unwrap();
                self.conn
                    .execute(
                        "INSERT OR REPLACE INTO snapshots (sequence_id, timestamp, schema_version, state) VALUES (?1, ?2, ?3, ?4)",
                        (row.sequence_id, &row.timestamp, row.schema_version, &row.payload),
                    )
                    .map(|_| ())
            }
            JournalStep::PruneSnapshots => self
                .conn
                .execute(
                    "DELETE FROM snapshots WHERE sequence_id < ?1",
                    (snapshot.unwrap().sequence_id,),
                )
                .map(|_| ()),
        }
    }

    fn persist_commit(
        &mut self,
        events: &[SequencedEvent<EngineEvent>],
        snapshot: Option<&EngineStateSnapshot>,
    ) -> Result<(), EngineError> {
        let payloads: Vec<Result<Vec<u8>, String>> =
            events.iter().map(|event| Ok(self.kept.keep_event(event))).collect();
        let rows = encode_event_rows(events, &payloads)?;
        let snapshot_row = match snapshot {
            Some(held) => Some(encode_snapshot_row(held, Ok(self.kept.keep_snapshot(held)))?),
            None => None,
        };
        for step in persist_steps(&rows, snapshot_row.as_ref()) {
            if let Err(failure) = self.run_step(step, &rows, snapshot_row.as_ref()) {
                step_outcome(step, &rows, snapshot_row.as_ref(), &failure.to_string())?;
            }
        }
        Ok(())
    }

    fn append(&mut self, event: &SequencedEvent<EngineEvent>) -> Result<(), EngineError> {
        self.persist_commit(std::slice::from_ref(event), None)
    }

    fn append_batch(
        &mut self,
        events: &[SequencedEvent<EngineEvent>],
    ) -> Result<(), EngineError> {
        self.persist_commit(events, None)
    }

    fn save_snapshot(&mut self, snapshot: &EngineStateSnapshot) -> Result<(), EngineError> {
        self.persist_commit(&[], Some(snapshot))
    }

    fn replay_range(
        &self,
        from: SequenceId,
        to: i64,
    ) -> Result<Vec<SequencedEvent<EngineEvent>>, EngineError> {
        let mut stmt = self
            .conn
            .prepare("SELECT sequence_id, schema_version, payload FROM events WHERE sequence_id >= ?1 AND sequence_id <= ?2 ORDER BY sequence_id ASC, event_index ASC")
            .unwrap();
        let rows = stmt
            .query_map((seq_as_i64(from), to), |row| {
                Ok((
                    row.get::<_, i64>(0)?,
                    row.get::<_, i64>(1)?,
                    row.get::<_, Vec<u8>>(2)?,
                ))
            })
            .unwrap();
        let mut stored = Vec::new();
        for row in rows {
            let (sequence_id, schema_version, payload) = row.unwrap();
            let event = Ok(self.kept.events[number(&payload)].clone());
            stored.push(StoredEvent { sequence_id, schema_version, event });
        }
        replayed_events(stored)
    }

    fn replay_from(
        &self,
        from: SequenceId,
    ) -> Result<Vec<SequencedEvent<EngineEvent>>, EngineError> {
        self.replay_range(from, i64::MAX)
    }

    fn load_latest_snapshot(
        &self,
    ) -> Result<Option<(SequenceId, EngineStateSnapshot)>, EngineError> {
        let mut stmt = self
            .conn
            .prepare("SELECT sequence_id, schema_version, state FROM snapshots ORDER BY sequence_id DESC LIMIT 1")
            .unwrap();
        let mut rows = stmt
            .query_map([], |row| {
                Ok((
                    row.get::<_, i64>(0)?,
                    row.get::<_, i64>(1)?,
                    row.get::<_, Vec<u8>>(2)?,
                ))
            })
            .unwrap();
        latest_snapshot(rows.next().map(|row| {
            let (sequence_id, schema_version, payload) = row.unwrap();
            let snapshot = Ok(self.kept.snapshots[number(&payload)].clone());
            StoredSnapshot { sequence_id, schema_version, snapshot }
        }))
    }

    fn latest_sequence_id(&self) -> SequenceId {
        let max: Option<i64> = self
            .conn
            .query_row("SELECT MAX(sequence_id) FROM events", [], |row| row.get(0))
            .unwrap();
        latest_sequence_id(max)
    }

    fn count(&self, table: &str) -> i64 {
        self.conn
            .query_row(&format!("SELECT COUNT(*) FROM {table}"), [], |row| row.get(0))
            .unwrap()
    }
}

fn fixed_time() -> Timestamp {
    // 2026-03-20 12:00:00 UTC
    Timestamp::from_millis(1_774_008_000_000)
}

fn sample_event(seq: u64) -> SequencedEvent<EngineEvent> {
    SequencedEvent {
        sequence_id: SequenceId(seq),
        timestamp: fixed_time(),
        event: EngineEvent::AgentPaused {
            agent_id: AgentId(format!("agent-{seq}")),
            reason: "test".to_owned(),
        },
    }
}

fn minimal_snapshot(seq: u64) -> EngineStateSnapshot {
    let now = fixed_time();
    let mut agent_statuses = Table::new();
    agent_statuses.insert("athena".to_owned(), AgentStatus::Active);
    EngineStateSnapshot {
        state: EngineState {
            orders: Table::new(),
            positions: Positions::new(),
            pending_signals: Table::new(),
            firm_book: FirmBook {
                nav: Decimal::new(100_000, 0),
                gross_notional: Decimal::zero(),
                net_notional: Decimal::zero(),
                realized_pnl: Decimal::zero(),
                unrealized_pnl: Decimal::zero(),
                daily_pnl: Decimal::zero(),
                hourly_pnl: Decimal::zero(),
                current_drawdown_pct: Decimal::zero(),
                allocated_capital: Decimal::new(25_000, 0),
                cash_available: Decimal::new(75_000, 0),
                total_fees_paid: Decimal::zero(),
                agent_allocations: Table::new(),
                instruments: Vec::new(),
                prediction_exposure: PredictionExposureSummary {
                    total_notional: Decimal::zero(),
                    pct_of_nav: Decimal::zero(),
                    unresolved_markets: 0,
                },
                as_of: now,
            },
            agent_allocations: Table::new(),
            risk_limits: RiskLimits {
                firm: FirmRiskLimits {
                    max_gross_notional: Decimal::new(250_000, 0),
                    max_net_notional: Decimal::new(250_000, 0),
                    max_drawdown_pct: Decimal::new(15, 2),
                    max_daily_loss: Decimal::new(5_000, 0),
                    max_open_orders: 100,
                },
                per_agent: Table::new(),
                per_instrument: Table::new(),
                per_venue: Table::new(),
                prediction_market: PredictionMarketLimits {
                    max_total_notional: Decimal::new(10_000, 0),
                    max_per_market_notional: Decimal::new(2_500, 0),
                    max_pct_of_nav: Decimal::new(5, 2),
                    max_unresolved_markets: 10,
                },
            },
            agent_statuses,
            idempotency_cache: Table::new(),
            last_sequence_id: SequenceId(seq),
            last_updated: now,
        },
        sequence_id: SequenceId(seq),
        snapshot_at: now,
    }
}

#[test]
fn test_append_and_replay_from() {
    let mut journal = Journal::in_memory();
    for seq in 0..10u64 {
        journal.append(&sample_event(seq)).unwrap();
    }
    let all = journal.replay_from(SequenceId::zero()).unwrap();
    assert_eq!(all.len(), 10);
    assert_eq!(all[0].sequence_id, SequenceId(0));
    assert_eq!(all[9].sequence_id, SequenceId(9));

    let tail = journal.replay_from(SequenceId(5)).unwrap();
    assert_eq!(tail.len(), 5);
    assert_eq!(tail[0].sequence_id, SequenceId(5));
}

#[test]
fn test_append_batch_and_replay_range() {
    let mut journal = Journal::in_memory();
    let batch: Vec<SequencedEvent<EngineEvent>> = (0..20u64).map(sample_event).collect();
    journal.append_batch(&batch).unwrap();

    let range = journal.replay_range(SequenceId(5), 10).unwrap();
    assert_eq!(range.len(), 6);
    assert_eq!(range[0].sequence_id, SequenceId(5));
    assert_eq!(range[5].sequence_id, SequenceId(10));
}

/// A replay of a range gives the events of all commits in it, in order and once each.
#[test]
fn replay_of_a_range_goes_across_commits() {
    let mut journal = Journal::in_memory();
    let marked = |seq: u64, mark: u64| SequencedEvent {
        sequence_id: SequenceId(seq),
        timestamp: fixed_time(),
        event: EngineEvent::OrderValidated { order_id: OrderId(format!("ord-{seq}-{mark}")) },
    };
    let commits = [
        vec![marked(1, 0), marked(1, 1), marked(2, 2)],
        vec![marked(3, 0), marked(3, 1)],
        vec![marked(5, 0), marked(8, 1), marked(8, 2)],
    ];
    for commit in &commits {
        journal.append_batch(commit).unwrap();
    }
    journal.append_batch(&commits[1]).unwrap();
    let named = |events: Vec<SequencedEvent<EngineEvent>>| -> Vec<String> {
        events
            .into_iter()
            .map(|event| match event.event {
                EngineEvent::OrderValidated { order_id } => order_id.0,
                other => panic!("unexpected {other:?}"),
            })
            .collect()
    };
    assert_eq!(
        named(journal.replay_range(SequenceId(2), 5).unwrap()),
        vec!["ord-2-2", "ord-3-0", "ord-3-1", "ord-5-0"]
    );
    assert_eq!(
        named(journal.replay_from(SequenceId(4)).unwrap()),
        vec!["ord-5-0", "ord-8-1", "ord-8-2"]
    );
    assert!(journal.replay_range(SequenceId(6), 7).unwrap().is_empty());
}

#[test]
fn test_append_batch_preserves_multiple_events_per_sequence() {
    let mut journal = Journal::in_memory();
    let sequenced = |event: EngineEvent| SequencedEvent {
        sequence_id: SequenceId(7),
        timestamp: fixed_time(),
        event,
    };
    let events = vec![
        sequenced(EngineEvent::OrderReceived {
            order_id: OrderId("ord-7".to_owned()),
            agent_id: AgentId("athena".to_owned()),
            instrument_id: InstrumentId("BTC".to_owned()),
            venue_id: VenueId("bybit".to_owned()),
        }),
        sequenced(EngineEvent::OrderValidated { order_id: OrderId("ord-7".to_owned()) }),
        sequenced(EngineEvent::OrderRiskChecked {
            order_id: OrderId("ord-7".to_owned()),
            outcome: RiskOutcomeKind::Approved,
        }),
    ];
    journal.append_batch(&events).unwrap();

    let replayed = journal.replay_from(SequenceId(7)).unwrap();
    assert_eq!(replayed.len(), 3);
    assert!(matches!(replayed[0].event, EngineEvent::OrderReceived { .. }));
    assert!(matches!(replayed[1].event, EngineEvent::OrderValidated { .. }));
    assert!(matches!(replayed[2].event, EngineEvent::OrderRiskChecked { .. }));
}

#[test]
fn test_write_1000_crash_replay_recovers_identical_sequence() {
    let mut journal = Journal::in_memory();
    let batch: Vec<SequencedEvent<EngineEvent>> = (0..1000u64).map(sample_event).collect();
    journal.append_batch(&batch).unwrap();

    let journal = Journal::open(journal.conn, journal.kept);
    let events = journal.replay_from(SequenceId::zero()).unwrap();
    assert_eq!(events.len(), 1000);
    for (i, event) in events.iter().enumerate() {
        assert_eq!(event.sequence_id, SequenceId(i as u64));
    }
}

#[test]
fn test_snapshot_then_tail_only_replays_tail() {
    let mut journal = Journal::in_memory();
    let before: Vec<SequencedEvent<EngineEvent>> = (0..50u64).map(sample_event).collect();
    journal.append_batch(&before).unwrap();
    journal.save_snapshot(&minimal_snapshot(49)).unwrap();
    let after: Vec<SequencedEvent<EngineEvent>> = (50..100u64).map(sample_event).collect();
    journal.append_batch(&after).unwrap();

    let (at, _restored) = journal.load_latest_snapshot().unwrap().unwrap();
    assert_eq!(at, SequenceId(49));
    let tail = journal.replay_from(at.next()).unwrap();
    assert_eq!(tail.len(), 50);
    assert_eq!(tail[0].sequence_id, SequenceId(50));
    assert_eq!(tail[49].sequence_id, SequenceId(99));
}

#[test]
fn test_latest_sequence_id_empty_returns_zero() {
    let journal = Journal::in_memory();
    assert_eq!(journal.latest_sequence_id(), SequenceId::zero());
}

#[test]
fn test_latest_sequence_id_after_appends() {
    let mut journal = Journal::in_memory();
    let batch: Vec<SequencedEvent<EngineEvent>> = (0..5u64).map(sample_event).collect();
    journal.append_batch(&batch).unwrap();
    assert_eq!(journal.latest_sequence_id(), SequenceId(4));
}

#[test]
fn test_latest_sequence_id_after_snapshot_only() {
    let mut journal = Journal::in_memory();
    journal.save_snapshot(&minimal_snapshot(100)).unwrap();
    assert_eq!(journal.latest_sequence_id(), SequenceId::zero());
}

#[test]
fn test_snapshot_round_trip() {
    let mut journal = Journal::in_memory();
    assert!(journal.load_latest_snapshot().unwrap().is_none());

    let saved = minimal_snapshot(42);
    journal.save_snapshot(&saved).unwrap();
    let (at, loaded) = journal.load_latest_snapshot().unwrap().unwrap();
    assert_eq!(at, SequenceId(42));
    assert_eq!(loaded.state.last_sequence_id, saved.state.last_sequence_id);
    assert_eq!(loaded.state.firm_book.nav, saved.state.firm_book.nav);
    assert_eq!(
        loaded.state.risk_limits.firm.max_daily_loss,
        saved.state.risk_limits.firm.max_daily_loss
    );
    assert_eq!(
        loaded.state.risk_limits.firm.max_gross_notional,
        saved.state.risk_limits.firm.max_gross_notional
    );
}

#[test]
fn test_replay_rejects_unknown_event_schema_version() {
    let mut journal = Journal::in_memory();
    journal.append(&sample_event(7)).unwrap();
    journal
        .conn
        .execute_batch("UPDATE events SET schema_version = 99 WHERE sequence_id = 7")
        .unwrap();
    let failure = journal.replay_from(SequenceId::zero()).unwrap_err();
    assert!(failure.text().contains("unsupported event schema_version 99"));
}

#[test]
fn test_load_snapshot_rejects_unknown_schema_version() {
    let mut journal = Journal::in_memory();
    journal.save_snapshot(&minimal_snapshot(42)).unwrap();
    journal
        .conn
        .execute_batch("UPDATE snapshots SET schema_version = 99 WHERE sequence_id = 42")
        .unwrap();
    let failure = journal.load_latest_snapshot().unwrap_err();
    assert!(failure.text().contains("unsupported snapshot schema_version 99"));
}

#[test]
fn test_open_migrates_pre_versioned_schema() {
    let conn = Connection::open_in_memory().unwrap();
    conn.execute_batch(
        "CREATE TABLE events (
            sequence_id INTEGER PRIMARY KEY,
            timestamp TEXT NOT NULL,
            event_kind TEXT NOT NULL,
            payload BLOB NOT NULL
        );
        CREATE TABLE snapshots (
            sequence_id INTEGER PRIMARY KEY,
            timestamp TEXT NOT NULL,
            state BLOB NOT NULL
        );",
    )
    .unwrap();
    let mut kept = Kept { events: Vec::new(), snapshots: Vec::new() };
    let event = sample_event(3);
    conn.execute(
        "INSERT INTO events (sequence_id, timestamp, event_kind, payload) VALUES (?1, ?2, ?3, ?4)",
        (
            seq_as_i64(event.sequence_id),
            event.timestamp.rfc3339_text(),
            event_kind(&event.event),
            kept.keep_event(&event),
        ),
    )
    .unwrap();
    let held = minimal_snapshot(11);
    conn.execute(
        "INSERT INTO snapshots (sequence_id, timestamp, state) VALUES (?1, ?2, ?3)",
        (
            seq_as_i64(held.sequence_id),
            held.snapshot_at.rfc3339_text(),
            kept.keep_snapshot(&held),
        ),
    )
    .unwrap();

    let journal = Journal::open(conn, kept);
    let (at, _) = journal.load_latest_snapshot().unwrap().unwrap();
    assert_eq!(at, SequenceId(11));
    assert_eq!(journal.replay_from(SequenceId::zero()).unwrap().len(), 1);
    assert!(has_column(&columns(&journal.conn, "events"), "schema_version"));
    assert!(has_column(&columns(&journal.conn, "snapshots"), "schema_version"));
    assert!(has_column(&columns(&journal.conn, "events"), "event_index"));
}

#[test]
fn test_open_migrates_schema_versioned_events_without_event_index() {
    let conn = Connection::open_in_memory().unwrap();
    conn.execute_batch(
        "CREATE TABLE events (
            sequence_id INTEGER PRIMARY KEY,
            timestamp TEXT NOT NULL,
            event_kind TEXT NOT NULL,
            schema_version INTEGER NOT NULL,
            payload BLOB NOT NULL
        );
        CREATE TABLE snapshots (
            sequence_id INTEGER PRIMARY KEY,
            timestamp TEXT NOT NULL,
            schema_version INTEGER NOT NULL,
            state BLOB NOT NULL
        );",
    )
    .unwrap();
    let mut kept = Kept { events: Vec::new(), snapshots: Vec::new() };
    let event = sample_event(5);
    conn.execute(
        "INSERT INTO events (sequence_id, timestamp, event_kind, schema_version, payload) VALUES (?1, ?2, ?3, ?4, ?5)",
        (
            seq_as_i64(event.sequence_id),
            event.timestamp.rfc3339_text(),
            event_kind(&event.event),
            PERSISTED_SCHEMA_VERSION,
            kept.keep_event(&event),
        ),
    )
    .unwrap();

    let journal = Journal::open(conn, kept);
    assert_eq!(journal.replay_from(SequenceId::zero()).unwrap().len(), 1);
    assert!(has_column(&columns(&journal.conn, "events"), "event_index"));
}

#[test]
fn test_save_snapshot_prunes_older_rows() {
    let mut journal = Journal::in_memory();
    for seq in [10u64, 20, 30] {
        journal.save_snapshot(&minimal_snapshot(seq)).unwrap();
    }
    let (at, _) = journal.load_latest_snapshot().unwrap().unwrap();
    assert_eq!(at, SequenceId(30));
    assert_eq!(journal.count("snapshots"), 1);

    journal.save_snapshot(&minimal_snapshot(40)).unwrap();
    let (at, _) = journal.load_latest_snapshot().unwrap().unwrap();
    assert_eq!(at, SequenceId(40));
    assert_eq!(journal.count("snapshots"), 1);
}

#[test]
fn test_duplicate_append_is_idempotent() {
    let mut journal = Journal::in_memory();
    let event = sample_event(1);
    journal.append(&event).unwrap();
    journal.append(&event).unwrap();
    assert_eq!(journal.replay_from(SequenceId::zero()).unwrap().len(), 1);
}

#[test]
fn commit_with_snapshot_is_stored_as_a_whole() {
    let mut journal = Journal::in_memory();
    let events = vec![sample_event(8), sample_event(8)];
    journal.persist_commit(&events, Some(&minimal_snapshot(8))).unwrap();
    journal.persist_commit(&events, Some(&minimal_snapshot(8))).unwrap();
    assert_eq!(journal.count("events"), 2);
    assert_eq!(journal.count("snapshots"), 1);
}
