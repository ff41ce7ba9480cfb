//! Event journal — what is written for a commit and what is made of what is read back.
//!
//! The journal is two tables. Events are an append-only log, keyed by sequence number and
//! by position within a commit. Snapshots are keyed by sequence number, and a new one
//! replaces the older ones. Payloads are encoded and decoded by the caller, who also runs
//! the steps and the queries; [`is_selection`] says what a query for a range is to give.

use crate::engine::{EngineError, EngineFault, EngineStateSnapshot};
use crate::event::{EngineEvent, SequencedEvent};
use crate::ids::SequenceId;
use crate::text::{digits, digits_text, int_text, joined, joined3, joined4, joined5, same_text, signed_text};
use crate::time::utc_rfc3339_text;
use vstd::prelude::*;

verus! {

/// The version of the layout that payloads are written in.
pub const PERSISTED_SCHEMA_VERSION: i64 = 1;

/// The name of an event's kind.
pub open spec fn kind_name(event: EngineEvent) -> Seq<char> {
    match event {
        EngineEvent::OrderReceived { .. } => "OrderReceived"@,
        EngineEvent::OrderValidated { .. } => "OrderValidated"@,
        EngineEvent::OrderRiskChecked { .. } => "OrderRiskChecked"@,
        EngineEvent::OrderRouted { .. } => "OrderRouted"@,
        EngineEvent::OrderSubmitted { .. } => "OrderSubmitted"@,
        EngineEvent::OrderFilled { .. } => "OrderFilled"@,
        EngineEvent::OrderPartiallyFilled { .. } => "OrderPartiallyFilled"@,
        EngineEvent::OrderCancelled { .. } => "OrderCancelled"@,
        EngineEvent::OrderRejected { .. } => "OrderRejected"@,
        EngineEvent::OrderAmended { .. } => "OrderAmended"@,
        EngineEvent::RiskBreached { .. } => "RiskBreached"@,
        EngineEvent::CircuitBreakerTripped { .. } => "CircuitBreakerTripped"@,
        EngineEvent::CircuitBreakerReset { .. } => "CircuitBreakerReset"@,
        EngineEvent::PositionCorrected { .. } => "PositionCorrected"@,
        EngineEvent::ReconciliationCompleted { .. } => "ReconciliationCompleted"@,
        EngineEvent::AgentPaused { .. } => "AgentPaused"@,
        EngineEvent::AgentResumed { .. } => "AgentResumed"@,
        EngineEvent::EngineStarted { .. } => "EngineStarted"@,
        EngineEvent::EngineHalted { .. } => "EngineHalted"@,
        EngineEvent::SnapshotCreated { .. } => "SnapshotCreated"@,
        EngineEvent::VenueConnected { .. } => "VenueConnected"@,
        EngineEvent::VenueDisconnected { .. } => "VenueDisconnected"@,
        EngineEvent::SubsystemDegraded { .. } => "SubsystemDegraded"@,
        EngineEvent::SubsystemRecovered { .. } => "SubsystemRecovered"@,
    }
}

/// The name of an event's kind, for indexing.
pub fn event_kind(event: &EngineEvent) -> (r: &'static str)
    ensures
        r@ == kind_name(*event),
{
    match event {
        EngineEvent::OrderReceived { .. } => "OrderReceived",
        EngineEvent::OrderValidated { .. } => "OrderValidated",
        EngineEvent::OrderRiskChecked { .. } => "OrderRiskChecked",
        EngineEvent::OrderRouted { .. } => "OrderRouted",
        EngineEvent::OrderSubmitted { .. } => "OrderSubmitted",
        EngineEvent::OrderFilled { .. } => "OrderFilled",
        EngineEvent::OrderPartiallyFilled { .. } => "OrderPartiallyFilled",
        EngineEvent::OrderCancelled { .. } => "OrderCancelled",
        EngineEvent::OrderRejected { .. } => "OrderRejected",
        EngineEvent::OrderAmended { .. } => "OrderAmended",
        EngineEvent::RiskBreached { .. } => "RiskBreached",
        EngineEvent::CircuitBreakerTripped { .. } => "CircuitBreakerTripped",
        EngineEvent::CircuitBreakerReset { .. } => "CircuitBreakerReset",
        EngineEvent::PositionCorrected { .. } => "PositionCorrected",
        EngineEvent::ReconciliationCompleted { .. } => "ReconciliationCompleted",
        EngineEvent::AgentPaused { .. } => "AgentPaused",
        EngineEvent::AgentResumed { .. } => "AgentResumed",
        EngineEvent::EngineStarted { .. } => "EngineStarted",
        EngineEvent::EngineHalted { .. } => "EngineHalted",
        EngineEvent::SnapshotCreated { .. } => "SnapshotCreated",
        EngineEvent::VenueConnected { .. } => "VenueConnected",
        EngineEvent::VenueDisconnected { .. } => "VenueDisconnected",
        EngineEvent::SubsystemDegraded { .. } => "SubsystemDegraded",
        EngineEvent::SubsystemRecovered { .. } => "SubsystemRecovered",
    }
}

/// A sequence number as the signed integer that is stored. Larger ones would break the
/// order of the rows.
pub fn seq_as_i64(seq: SequenceId) -> (r: i64)
    requires
        seq.0 <= i64::MAX,
    ensures
        r == seq.0,
{
    seq.0 as i64
}

/// The sequence number of a stored integer. A negative one stands for the number with the
/// same bits.
pub open spec fn sequence_of(stored: int) -> int {
    if stored >= 0 {
        stored
    } else {
        stored + 0x1_0000_0000_0000_0000
    }
}

/// The sequence number of a stored integer.
pub fn i64_as_seq(stored: i64) -> (r: SequenceId)
    ensures
        r.0 == sequence_of(stored as int),
{
    if stored >= 0 {
        SequenceId(stored as u64)
    } else {
        SequenceId((stored as i128 + 0x1_0000_0000_0000_0000) as u64)
    }
}

/// The latest sequence number, from the largest stored one; zero where nothing is stored.
pub fn latest_sequence_id(max: Option<i64>) -> (r: SequenceId)
    ensures
        r.0 == (match max {
            Some(v) => sequence_of(v as int),
            None => 0,
        }),
{
    match max {
        Some(v) => i64_as_seq(v),
        None => SequenceId::zero(),
    }
}

// ─── Rows ───

/// A row of the event table.
#[derive(Debug)]
pub struct EncodedEventRow {
    pub sequence_id: i64,
    pub event_index: i64,
    pub timestamp: String,
    pub kind: &'static str,
    pub schema_version: i64,
    pub payload: Vec<u8>,
}

/// A row of the snapshot table.
#[derive(Debug)]
pub struct EncodedSnapshotRow {
    pub sequence_id: i64,
    pub timestamp: String,
    pub schema_version: i64,
    pub payload: Vec<u8>,
}

/// Whether a row is that of an event at a position of a commit, with its encoded payload.
pub open spec fn is_event_row(
    row: EncodedEventRow,
    index: int,
    event: SequencedEvent<EngineEvent>,
    payload: Seq<u8>,
) -> bool {
    &&& row.sequence_id == event.sequence_id.0
    &&& row.event_index == index
    &&& row.timestamp@ == utc_rfc3339_text(event.timestamp@)
    &&& row.kind@ == kind_name(event.event)
    &&& row.schema_version == PERSISTED_SCHEMA_VERSION
    &&& row.payload@ == payload
}

/// Why an event has no row.
pub open spec fn event_row_fault(
    index: int,
    event: SequencedEvent<EngineEvent>,
    payload: Result<Vec<u8>, String>,
) -> Option<Seq<char>> {
    if index > i64::MAX {
        Some("event_index "@ + digits(index as nat) + " overflows i64"@)
    } else {
        match payload {
            Ok(_) => None,
            Err(why) => Some(
                "failed to encode event seq:"@ + digits(event.sequence_id.0 as nat) + ": "@ + why@,
            ),
        }
    }
}

/// The row of an event at a position of a commit. `payload` is the encoded event.
pub fn encode_event_row(
    event_index: usize,
    event: &SequencedEvent<EngineEvent>,
    payload: &Result<Vec<u8>, String>,
) -> (r: Result<EncodedEventRow, EngineError>)
    requires
        event.sequence_id.0 <= i64::MAX,
    ensures
        match (r, event_row_fault(event_index as int, *event, *payload)) {
            (Ok(row), None) => is_event_row(row, event_index as int, *event, payload->Ok_0@),
            (Err(e), Some(why)) => e@ == EngineFault::Journal(why),
            _ => false,
        },
{
    let sequence_id: i64 = seq_as_i64(event.sequence_id);
    if event_index as u128 > i64::MAX as u128 {
        return Err(
            EngineError::Journal(
                joined3(
                    "event_index ",
                    digits_text(event_index as u128).as_str(),
                    " overflows i64",
                ),
            ),
        );
    }
    match payload {
        Ok(bytes) => Ok(
            EncodedEventRow {
                sequence_id,
                event_index: event_index as i64,
                timestamp: event.timestamp.rfc3339_text(),
                kind: event_kind(&event.event),
                schema_version: PERSISTED_SCHEMA_VERSION,
                payload: bytes.clone(),
            },
        ),
        Err(why) => Err(
            EngineError::Journal(
                joined4(
                    "failed to encode event seq:",
                    digits_text(event.sequence_id.0 as u128).as_str(),
                    ": ",
                    why.as_str(),
                ),
            ),
        ),
    }
}

/// Whether the row at a position is that of the event there.
pub open spec fn row_matches(
    rows: Seq<EncodedEventRow>,
    events: Seq<SequencedEvent<EngineEvent>>,
    payloads: Seq<Result<Vec<u8>, String>>,
    i: int,
) -> bool {
    &&& event_row_fault(i, events[i], payloads[i]) is None
    &&& is_event_row(rows[i], i, events[i], payloads[i]->Ok_0@)
}

/// Whether rows are those of the events of a commit, in order.
pub open spec fn are_event_rows(
    rows: Seq<EncodedEventRow>,
    events: Seq<SequencedEvent<EngineEvent>>,
    payloads: Seq<Result<Vec<u8>, String>>,
) -> bool {
    &&& rows.len() == events.len()
    &&& forall|i: int| 0 <= i < events.len() ==> #[trigger] row_matches(rows, events, payloads, i)
}

/// Whether the first event without row is the one at `at`.
pub open spec fn first_row_fault_at(
    events: Seq<SequencedEvent<EngineEvent>>,
    payloads: Seq<Result<Vec<u8>, String>>,
    why: Seq<char>,
    at: int,
) -> bool {
    &&& 0 <= at < events.len()
    &&& event_row_fault(at, events[at], payloads[at]) == Some(why)
    &&& forall|j: int| 0 <= j < at ==> event_row_fault(j, #[trigger] events[j], payloads[j]) is None
}

/// The rows of the events of a commit, or the error of the first event that has none.
/// `payloads` are the encoded events.
pub fn encode_event_rows(
    events: &[SequencedEvent<EngineEvent>],
    payloads: &[Result<Vec<u8>, String>],
) -> (r: Result<Vec<EncodedEventRow>, EngineError>)
    requires
        payloads@.len() == events@.len(),
        forall|i: int| 0 <= i < events@.len() ==> (#[trigger] events@[i]).sequence_id.0 <= i64::MAX,
    ensures
        match r {
            Ok(rows) => are_event_rows(rows@, events@, payloads@),
            Err(e) => exists|why: Seq<char>, i: int|
                {
                    &&& #[trigger] first_row_fault_at(events@, payloads@, why, i)
                    &&& e@ == EngineFault::Journal(why)
                },
        },
{
    let mut rows: Vec<EncodedEventRow> = Vec::new();
    let mut i: usize = 0;
    while i < events.len()
        invariant
            i <= events@.len(),
            payloads@.len() == events@.len(),
            forall|j: int|
                0 <= j < events@.len() ==> (#[trigger] events@[j]).sequence_id.0 <= i64::MAX,
            rows@.len() == i,
            forall|j: int| 0 <= j < i ==> #[trigger] row_matches(rows@, events@, payloads@, j),
        decreases events@.len() - i,
    {
        match encode_event_row(i, &events[i], &payloads[i]) {
            Ok(row) => {
                let ghost before = rows@;
                rows.push(row);
                proof {
                    assert forall|j: int| 0 <= j < i implies #[trigger] row_matches(
                        rows@,
                        events@,
                        payloads@,
                        j,
                    ) by {
                        assert(row_matches(before, events@, payloads@, j));
                    }
                    assert(row_matches(rows@, events@, payloads@, i as int));
                }
            },
            Err(e) => {
                proof {
                    let why = event_row_fault(i as int, events@[i as int], payloads@[i as int])->Some_0;
                    assert forall|j: int| 0 <= j < i implies event_row_fault(
                        j,
                        #[trigger] events@[j],
                        payloads@[j],
                    ) is None by {
                        assert(row_matches(rows@, events@, payloads@, j));
                    }
                    assert(first_row_fault_at(events@, payloads@, why, i as int));
                }
                return Err(e);
            },
        }
        i = i + 1;
    }
    Ok(rows)
}

/// Whether a row is that of a snapshot, with its encoded payload.
pub open spec fn is_snapshot_row(
    row: EncodedSnapshotRow,
    snapshot: EngineStateSnapshot,
    payload: Seq<u8>,
) -> bool {
    &&& row.sequence_id == snapshot.sequence_id.0
    &&& row.timestamp@ == utc_rfc3339_text(snapshot.snapshot_at@)
    &&& row.schema_version == PERSISTED_SCHEMA_VERSION
    &&& row.payload@ == payload
}

/// The row of a snapshot. `payload` is the encoded snapshot.
pub fn encode_snapshot_row(snapshot: &EngineStateSnapshot, payload: Result<Vec<u8>, String>) -> (r:
    Result<EncodedSnapshotRow, EngineError>)
    requires
        snapshot.sequence_id.0 <= i64::MAX,
    ensures
        match (r, payload) {
            (Ok(row), Ok(bytes)) => is_snapshot_row(row, *snapshot, bytes@),
            (Err(e), Err(why)) => e@ == EngineFault::Journal(
                "failed to encode snapshot: "@ + why@,
            ),
            _ => false,
        },
{
    match payload {
        Ok(bytes) => Ok(
            EncodedSnapshotRow {
                sequence_id: seq_as_i64(snapshot.sequence_id),
                timestamp: snapshot.snapshot_at.rfc3339_text(),
                schema_version: PERSISTED_SCHEMA_VERSION,
                payload: bytes,
            },
        ),
        Err(why) => Err(
            EngineError::Journal(joined("failed to encode snapshot: ", why.as_str())),
        ),
    }
}

// ─── Writing a commit ───

/// A step of writing a commit.
#[derive(Debug, Clone, Copy, PartialEq, Eq)]
pub enum JournalStep {
    /// Begin a transaction.
    Begin,
    /// Insert the event row at a position of the commit, unless a row with its key is
    /// there.
    InsertEvent(usize),
    /// Insert the snapshot row, in place of one with its key.
    SaveSnapshot,
    /// Delete the snapshots before the one of the commit.
    PruneSnapshots,
    /// Commit the transaction.
    Commit,
    /// Fold the write-ahead log into the database. A failure is no failure of the commit.
    Checkpoint,
}

/// The steps that insert the first event rows.
pub open spec fn insert_steps(count: nat) -> Seq<JournalStep> {
    Seq::new(count, |i: int| JournalStep::InsertEvent(i as usize))
}

/// The steps that write a commit of `count` events: nothing at all for an empty one.
pub open spec fn commit_steps(count: nat, snapshot: bool) -> Seq<JournalStep> {
    if count == 0 && !snapshot {
        seq![]
    } else if snapshot {
        seq![JournalStep::Begin] + insert_steps(count) + seq![
            JournalStep::SaveSnapshot,
            JournalStep::PruneSnapshots,
            JournalStep::Commit,
            JournalStep::Checkpoint,
        ]
    } else {
        seq![JournalStep::Begin] + insert_steps(count) + seq![JournalStep::Commit]
    }
}

/// The steps that write a commit.
pub fn persist_steps(events: &[EncodedEventRow], snapshot: Option<&EncodedSnapshotRow>) -> (r: Vec<
    JournalStep,
>)
    ensures
        r@ == commit_steps(events@.len(), snapshot is Some),
{
    let mut steps: Vec<JournalStep> = Vec::new();
    if events.len() == 0 && snapshot.is_none() {
        assert(steps@ =~= commit_steps(0, false));
        return steps;
    }
    steps.push(JournalStep::Begin);
    let mut i: usize = 0;
    assert(insert_steps(0) =~= Seq::<JournalStep>::empty());
    assert(steps@ =~= seq![JournalStep::Begin] + insert_steps(0));
    while i < events.len()
        invariant
            i <= events@.len(),
            steps@ == seq![JournalStep::Begin] + insert_steps(i as nat),
        decreases events@.len() - i,
    {
        steps.push(JournalStep::InsertEvent(i));
        assert(insert_steps((i + 1) as nat) =~= insert_steps(i as nat).push(
            JournalStep::InsertEvent(i),
        ));
        i = i + 1;
        assert(steps@ =~= seq![JournalStep::Begin] + insert_steps(i as nat));
    }
    if snapshot.is_some() {
        steps.push(JournalStep::SaveSnapshot);
        steps.push(JournalStep::PruneSnapshots);
        steps.push(JournalStep::Commit);
        steps.push(JournalStep::Checkpoint);
    } else {
        steps.push(JournalStep::Commit);
    }
    assert(steps@ =~= commit_steps(events@.len(), snapshot is Some));
    steps
}

/// The text of a step's failure before the reason, and whether the failure fails the
/// commit. `row` gives the key of the event row concerned, `snapshot` that of the snapshot.
pub open spec fn step_failure(
    step: JournalStep,
    events: Seq<EncodedEventRow>,
    snapshot: Option<EncodedSnapshotRow>,
    why: Seq<char>,
) -> Option<Seq<char>> {
    let at = match snapshot {
        Some(s) => int_text(s.sequence_id as int),
        None => ""@,
    };
    match step {
        JournalStep::Begin => Some("begin transaction: "@ + why),
        JournalStep::InsertEvent(i) => Some(
            "batch insert at seq:"@ + int_text(events[i as int].sequence_id as int) + "/event:"@
                + int_text(events[i as int].event_index as int) + ": "@ + why,
        ),
        JournalStep::SaveSnapshot => Some("save_snapshot at seq:"@ + at + ": "@ + why),
        JournalStep::PruneSnapshots => Some("prune old snapshots at seq:"@ + at + ": "@ + why),
        JournalStep::Commit => Some("commit transaction: "@ + why),
        JournalStep::Checkpoint => None,
    }
}

/// What a failure of a step makes of the commit: an error, or nothing where the commit has
/// been made already.
pub fn step_outcome(
    step: JournalStep,
    events: &[EncodedEventRow],
    snapshot: Option<&EncodedSnapshotRow>,
    why: &str,
) -> (r: Result<(), EngineError>)
    requires
        step matches JournalStep::InsertEvent(i) ==> i < events@.len(),
    ensures
        match (
            r,
            step_failure(
                step,
                events@,
                match snapshot {
                    Some(s) => Some(*s),
                    None => None,
                },
                why@,
            ),
        ) {
            (Ok(_), None) => true,
            (Err(e), Some(text)) => e@ == EngineFault::Journal(text),
            _ => false,
        },
{
    let at = match snapshot {
        Some(s) => signed_text(s.sequence_id),
        None => "".to_owned(),
    };
    match step {
        JournalStep::Begin => Err(EngineError::Journal(joined("begin transaction: ", why))),
        JournalStep::InsertEvent(i) => {
            let row = joined4(
                "batch insert at seq:",
                signed_text(events[i].sequence_id).as_str(),
                "/event:",
                signed_text(events[i].event_index).as_str(),
            );
            Err(EngineError::Journal(joined3(row.as_str(), ": ", why)))
        },
        JournalStep::SaveSnapshot => Err(
            EngineError::Journal(joined4("save_snapshot at seq:", at.as_str(), ": ", why)),
        ),
        JournalStep::PruneSnapshots => Err(
            EngineError::Journal(joined4("prune old snapshots at seq:", at.as_str(), ": ", why)),
        ),
        JournalStep::Commit => Err(EngineError::Journal(joined("commit transaction: ", why))),
        JournalStep::Checkpoint => Ok(()),
    }
}

/// The two tables of a journal, by the keys of their rows.
pub struct JournalTables {
    pub events: Map<(int, int), EncodedEventRow>,
    pub snapshots: Map<int, EncodedSnapshotRow>,
}

/// The key of an event row.
pub open spec fn event_key(row: EncodedEventRow) -> (int, int) {
    (row.sequence_id as int, row.event_index as int)
}

/// What a step makes of the tables.
pub open spec fn after_step(
    t: JournalTables,
    step: JournalStep,
    events: Seq<EncodedEventRow>,
    snapshot: Option<EncodedSnapshotRow>,
) -> JournalTables {
    match step {
        JournalStep::InsertEvent(i) => if t.events.contains_key(event_key(events[i as int])) {
            t
        } else {
            JournalTables {
                events: t.events.insert(event_key(events[i as int]), events[i as int]),
                snapshots: t.snapshots,
            }
        },
        JournalStep::SaveSnapshot => match snapshot {
            Some(s) => JournalTables {
                events: t.events,
                snapshots: t.snapshots.insert(s.sequence_id as int, s),
            },
            None => t,
        },
        JournalStep::PruneSnapshots => match snapshot {
            Some(s) => JournalTables {
                events: t.events,
                snapshots: t.snapshots.restrict(Set::new(|k: int| k >= s.sequence_id)),
            },
            None => t,
        },
        _ => t,
    }
}

/// What steps make of the tables, one after the other.
pub open spec fn after_steps(
    t: JournalTables,
    steps: Seq<JournalStep>,
    events: Seq<EncodedEventRow>,
    snapshot: Option<EncodedSnapshotRow>,
) -> JournalTables
    decreases steps.len(),
{
    if steps.len() == 0 {
        t
    } else {
        after_step(
            after_steps(t, steps.drop_last(), events, snapshot),
            steps.last(),
            events,
            snapshot,
        )
    }
}

/// What a commit makes of the tables.
pub open spec fn after_commit(
    t: JournalTables,
    events: Seq<EncodedEventRow>,
    snapshot: Option<EncodedSnapshotRow>,
) -> JournalTables {
    after_steps(t, commit_steps(events.len(), snapshot is Some), events, snapshot)
}

// ─── Reading back ───

/// The error of a row whose layout is not the supported one.
pub open spec fn version_fault(entity: Seq<char>, version: int, sequence_id: int) -> Option<
    Seq<char>,
> {
    if version == PERSISTED_SCHEMA_VERSION {
        None
    } else {
        Some(
            "unsupported "@ + entity + " schema_version "@ + int_text(version) + " at seq:"@
                + int_text(sequence_id) + "; expected "@ + int_text(
                PERSISTED_SCHEMA_VERSION as int,
            ),
        )
    }
}

/// Whether a row's layout is the supported one.
pub fn ensure_supported_schema_version(entity: &str, schema_version: i64, sequence_id: i64) -> (r:
    Result<(), EngineError>)
    ensures
        match (r, version_fault(entity@, schema_version as int, sequence_id as int)) {
            (Ok(_), None) => true,
            (Err(e), Some(why)) => e@ == EngineFault::Journal(why),
            _ => false,
        },
{
    if schema_version == PERSISTED_SCHEMA_VERSION {
        return Ok(());
    }
    let what = joined5(
        "unsupported ",
        entity,
        " schema_version ",
        signed_text(schema_version).as_str(),
        " at seq:",
    );
    Err(
        EngineError::Journal(
            joined4(
                what.as_str(),
                signed_text(sequence_id).as_str(),
                "; expected ",
                signed_text(PERSISTED_SCHEMA_VERSION).as_str(),
            ),
        ),
    )
}

/// An event row that was read, with what its payload decodes to.
pub struct StoredEvent {
    pub sequence_id: i64,
    pub schema_version: i64,
    pub event: Result<SequencedEvent<EngineEvent>, String>,
}

/// Why a stored event cannot be replayed: its layout is looked at before its payload.
pub open spec fn replay_fault(stored: StoredEvent) -> Option<Seq<char>> {
    match version_fault("event"@, stored.schema_version as int, stored.sequence_id as int) {
        Some(why) => Some(why),
        None => match stored.event {
            Ok(_) => None,
            Err(why) => Some("failed to decode event: "@ + why@),
        },
    }
}

/// The event of a stored row.
pub fn replayed_event(stored: StoredEvent) -> (r: Result<SequencedEvent<EngineEvent>, EngineError>)
    ensures
        match (r, replay_fault(stored)) {
            (Ok(event), None) => stored.event == Ok::<SequencedEvent<EngineEvent>, String>(event),
            (Err(e), Some(why)) => e@ == EngineFault::Journal(why),
            _ => false,
        },
{
    match ensure_supported_schema_version("event", stored.schema_version, stored.sequence_id) {
        Ok(_) => {},
        Err(e) => {
            return Err(e);
        },
    }
    match stored.event {
        Ok(event) => Ok(event),
        Err(why) => Err(EngineError::Journal(joined("failed to decode event: ", why.as_str()))),
    }
}

/// Whether events are those of stored rows, in order.
pub open spec fn are_replayed(
    events: Seq<SequencedEvent<EngineEvent>>,
    stored: Seq<StoredEvent>,
) -> bool {
    &&& events.len() == stored.len()
    &&& forall|i: int|
        0 <= i < stored.len() ==> {
            &&& replay_fault(#[trigger] stored[i]) is None
            &&& stored[i].event == Ok::<SequencedEvent<EngineEvent>, String>(events[i])
        }
}

/// Whether the first row that cannot be replayed is the one at `at`.
pub open spec fn first_replay_fault_at(stored: Seq<StoredEvent>, why: Seq<char>, at: int) -> bool {
    &&& 0 <= at < stored.len()
    &&& replay_fault(stored[at]) == Some(why)
    &&& forall|j: int| 0 <= j < at ==> replay_fault(#[trigger] stored[j]) is None
}

/// The events of stored rows, or the error of the first that cannot be replayed.
pub fn replayed_events(stored: Vec<StoredEvent>) -> (r: Result<
    Vec<SequencedEvent<EngineEvent>>,
    EngineError,
>)
    ensures
        match r {
            Ok(events) => are_replayed(events@, stored@),
            Err(e) => exists|why: Seq<char>, i: int|
                {
                    &&& #[trigger] first_replay_fault_at(stored@, why, i)
                    &&& e@ == EngineFault::Journal(why)
                },
        },
{
    let ghost rows = stored@;
    let mut events: Vec<SequencedEvent<EngineEvent>> = Vec::new();
    for row in it: stored
        invariant
            rows == stored@,
            it.seq() == rows,
            are_replayed(events@, rows.take(it.index())),
    {
        let ghost i = it.index();
        let ghost done = rows.take(i);
        let ghost taken = rows.take(i + 1);
        assert forall|k: int| 0 <= k < done.len() implies taken[k] == #[trigger] done[k] by {}
        match replayed_event(row) {
            Ok(event) => {
                let ghost before = events@;
                events.push(event);
                proof {
                    assert forall|k: int| 0 <= k < taken.len() implies {
                        &&& replay_fault(#[trigger] taken[k]) is None
                        &&& taken[k].event == Ok::<SequencedEvent<EngineEvent>, String>(events@[k])
                    } by {
                        if k < i {
                            assert(taken[k] == done[k]);
                            assert(events@[k] == before[k]);
                        }
                    }
                }
            },
            Err(e) => {
                proof {
                    let why = replay_fault(rows[i])->Some_0;
                    assert forall|k: int| 0 <= k < i implies replay_fault(#[trigger] rows[k]) is None by {
                        assert(done[k] == rows[k]);
                    }
                    assert(first_replay_fault_at(rows, why, i));
                }
                return Err(e);
            },
        }
    }
    assert(rows.take(rows.len() as int) =~= rows);
    Ok(events)
}

/// A snapshot row that was read, with what its payload decodes to.
pub struct StoredSnapshot {
    pub sequence_id: i64,
    pub schema_version: i64,
    pub snapshot: Result<EngineStateSnapshot, String>,
}

/// Why a stored snapshot cannot be restored.
pub open spec fn restore_fault(stored: StoredSnapshot) -> Option<Seq<char>> {
    match version_fault("snapshot"@, stored.schema_version as int, stored.sequence_id as int) {
        Some(why) => Some(why),
        None => match stored.snapshot {
            Ok(_) => None,
            Err(why) => Some("failed to decode snapshot: "@ + why@),
        },
    }
}

/// The latest snapshot, from the last row of the table if there is one.
pub fn latest_snapshot(stored: Option<StoredSnapshot>) -> (r: Result<
    Option<(SequenceId, EngineStateSnapshot)>,
    EngineError,
>)
    ensures
        match stored {
            None => r == Ok::<Option<(SequenceId, EngineStateSnapshot)>, EngineError>(None),
            Some(row) => match (r, restore_fault(row)) {
                (Ok(Some((seq, snapshot))), None) => {
                    &&& seq.0 == sequence_of(row.sequence_id as int)
                    &&& row.snapshot == Ok::<EngineStateSnapshot, String>(snapshot)
                },
                (Err(e), Some(why)) => e@ == EngineFault::Journal(why),
                _ => false,
            },
        },
{
    let row = match stored {
        Some(row) => row,
        None => {
            return Ok(None);
        },
    };
    match ensure_supported_schema_version("snapshot", row.schema_version, row.sequence_id) {
        Ok(_) => {},
        Err(e) => {
            return Err(e);
        },
    }
    match row.snapshot {
        Ok(snapshot) => Ok(Some((i64_as_seq(row.sequence_id), snapshot))),
        Err(why) => Err(EngineError::Journal(joined("failed to decode snapshot: ", why.as_str()))),
    }
}

// ─── Layouts of earlier versions ───

/// Whether a table has a column.
pub open spec fn names_column(columns: Seq<String>, name: Seq<char>) -> bool {
    exists|i: int| 0 <= i < columns.len() && (#[trigger] columns[i])@ == name
}

/// Whether a table has a column.
pub fn has_column(columns: &[String], name: &str) -> (r: bool)
    ensures
        r == names_column(columns@, name@),
{
    let mut i: usize = 0;
    while i < columns.len()
        invariant
            i <= columns@.len(),
            forall|j: int| 0 <= j < i ==> (#[trigger] columns@[j])@ != name@,
        decreases columns@.len() - i,
    {
        if same_text(columns[i].as_str(), name) {
            return true;
        }
        i = i + 1;
    }
    false
}

/// What is to be done to an event table of an earlier layout.
#[derive(Debug, Clone, Copy, PartialEq, Eq, Structural)]
pub enum EventsMigration {
    /// Nothing.
    UpToDate,
    /// Copy the rows, each as the first event of its commit, with the versions that they
    /// carry.
    CopyVersioned,
    /// Copy the rows, each as the first event of its commit, as rows of the first version.
    CopyUnversioned,
}

/// What is to be done to an event table with the given columns.
pub fn events_migration(columns: &[String]) -> (r: EventsMigration)
    ensures
        r == (if !names_column(columns@, "schema_version"@) {
            EventsMigration::CopyUnversioned
        } else if !names_column(columns@, "event_index"@) {
            EventsMigration::CopyVersioned
        } else {
            EventsMigration::UpToDate
        }),
{
    let has_event_index = has_column(columns, "event_index");
    let has_schema_version = has_column(columns, "schema_version");
    if has_event_index && has_schema_version {
        EventsMigration::UpToDate
    } else if has_schema_version {
        EventsMigration::CopyVersioned
    } else {
        EventsMigration::CopyUnversioned
    }
}

/// Whether a snapshot table with the given columns lacks the layout version.
pub fn lacks_schema_version(columns: &[String]) -> (r: bool)
    ensures
        r == !names_column(columns@, "schema_version"@),
{
    !has_column(columns, "schema_version")
}

// ─── Laws ───

/// Whether one of the first rows has a key.
pub open spec fn has_key(events: Seq<EncodedEventRow>, count: nat, key: (int, int)) -> bool {
    exists|i: int| 0 <= i < count && event_key(#[trigger] events[i]) == key
}

/// What the tables hold after the first event rows of a commit.
pub open spec fn holds_rows(
    before: JournalTables,
    after: JournalTables,
    events: Seq<EncodedEventRow>,
    count: nat,
) -> bool {
    &&& after.snapshots == before.snapshots
    &&& forall|k: (int, int)| #[trigger]
        before.events.contains_key(k) ==> after.events.contains_key(k) && after.events[k]
            == before.events[k]
    &&& forall|k: (int, int)| #[trigger]
        after.events.contains_key(k) ==> before.events.contains_key(k) || has_key(events, count, k)
    &&& forall|i: int|
        0 <= i < count && !before.events.contains_key(event_key(#[trigger] events[i]))
            ==> after.events.contains_key(event_key(events[i]))
            && after.events[event_key(events[i])] == events[i]
}

/// Whether the rows of a commit have different keys.
pub open spec fn distinct_rows(events: Seq<EncodedEventRow>) -> bool {
    forall|i: int, j: int|
        #![trigger events[i], events[j]]
        0 <= i < j < events.len() ==> event_key(events[i]) != event_key(events[j])
}

/// Running steps and one more is running the steps and then the one.
proof fn lemma_one_more_step(
    t: JournalTables,
    steps: Seq<JournalStep>,
    step: JournalStep,
    events: Seq<EncodedEventRow>,
    snapshot: Option<EncodedSnapshotRow>,
)
    ensures
        after_steps(t, steps.push(step), events, snapshot) == after_step(
            after_steps(t, steps, events, snapshot),
            step,
            events,
            snapshot,
        ),
{
    assert(steps.push(step).drop_last() =~= steps);
}

/// The leading steps of a commit insert the leading event rows.
proof fn lemma_insert_steps(
    t: JournalTables,
    events: Seq<EncodedEventRow>,
    snapshot: Option<EncodedSnapshotRow>,
    count: nat,
)
    requires
        count <= events.len() <= usize::MAX,
        distinct_rows(events),
    ensures
        holds_rows(
            t,
            after_steps(
                t,
                seq![JournalStep::Begin] + insert_steps(count),
                events,
                snapshot,
            ),
            events,
            count,
        ),
    decreases count,
{
    let steps = seq![JournalStep::Begin] + insert_steps(count);
    if count == 0 {
        assert(steps =~= Seq::<JournalStep>::empty().push(JournalStep::Begin));
        lemma_one_more_step(t, Seq::empty(), JournalStep::Begin, events, snapshot);
        assert(after_steps(t, Seq::empty(), events, snapshot) == t);
    } else {
        let i = count - 1;
        lemma_insert_steps(t, events, snapshot, i as nat);
        let before_steps = seq![JournalStep::Begin] + insert_steps(i as nat);
        let step = JournalStep::InsertEvent(i as usize);
        assert(steps =~= before_steps.push(step));
        lemma_one_more_step(t, before_steps, step, events, snapshot);
        let mid = after_steps(t, before_steps, events, snapshot);
        let after = after_steps(t, steps, events, snapshot);
        let key = event_key(events[i]);
        assert forall|k: (int, int)| #[trigger]
            after.events.contains_key(k) implies t.events.contains_key(k) || has_key(
            events,
            count,
            k,
        ) by {
            if k == key {
                assert(event_key(events[i]) == k);
            } else {
                assert(mid.events.contains_key(k));
                if !t.events.contains_key(k) {
                    let j = choose|j: int| 0 <= j < i && event_key(#[trigger] events[j]) == k;
                    assert(0 <= j < count && event_key(events[j]) == k);
                }
            }
        }
        assert forall|j: int|
            0 <= j < count && !t.events.contains_key(
                event_key(#[trigger] events[j]),
            ) implies after.events.contains_key(event_key(events[j]))
            && after.events[event_key(events[j])] == events[j] by {
            if j == i {
                if mid.events.contains_key(key) {
                    let other = choose|o: int| 0 <= o < i && event_key(#[trigger] events[o]) == key;
                    assert(event_key(events[other]) != event_key(events[i]));
                }
            } else {
                assert(mid.events.contains_key(event_key(events[j])));
                assert(event_key(events[j]) != key);
            }
        }
    }
}

/// What a commit makes of the two tables: the event rows are those of [`holds_rows`], and
/// the snapshots are pruned.
proof fn lemma_after_commit(
    t: JournalTables,
    events: Seq<EncodedEventRow>,
    snapshot: Option<EncodedSnapshotRow>,
)
    requires
        events.len() <= usize::MAX,
        distinct_rows(events),
    ensures
        ({
            let after = after_commit(t, events, snapshot);
            let kept = JournalTables { events: after.events, snapshots: t.snapshots };
            &&& holds_rows(t, kept, events, events.len())
            &&& after.snapshots == (match snapshot {
                Some(s) => t.snapshots.insert(s.sequence_id as int, s).restrict(
                    Set::new(|k: int| k >= s.sequence_id),
                ),
                None => t.snapshots,
            })
        }),
{
    let lead = seq![JournalStep::Begin] + insert_steps(events.len());
    lemma_insert_steps(t, events, snapshot, events.len());
    let mid = after_steps(t, lead, events, snapshot);
    let all = commit_steps(events.len(), snapshot is Some);
    if events.len() == 0 && snapshot is None {
        assert(after_commit(t, events, snapshot) == t);
    } else if snapshot is Some {
        let s1 = lead.push(JournalStep::SaveSnapshot);
        let s2 = s1.push(JournalStep::PruneSnapshots);
        let s3 = s2.push(JournalStep::Commit);
        let s4 = s3.push(JournalStep::Checkpoint);
        lemma_one_more_step(t, lead, JournalStep::SaveSnapshot, events, snapshot);
        lemma_one_more_step(t, s1, JournalStep::PruneSnapshots, events, snapshot);
        lemma_one_more_step(t, s2, JournalStep::Commit, events, snapshot);
        lemma_one_more_step(t, s3, JournalStep::Checkpoint, events, snapshot);
        assert(s4 =~= all);
    } else {
        lemma_one_more_step(t, lead, JournalStep::Commit, events, snapshot);
        assert(lead.push(JournalStep::Commit) =~= all);
    }
}

/// The rows of the events of a commit have different keys, so none displaces another.
pub proof fn law_rows_of_a_commit_are_distinct(
    rows: Seq<EncodedEventRow>,
    events: Seq<SequencedEvent<EngineEvent>>,
    payloads: Seq<Result<Vec<u8>, String>>,
)
    requires
        are_event_rows(rows, events, payloads),
    ensures
        distinct_rows(rows),
{
    assert forall|i: int, j: int|
        #![trigger rows[i], rows[j]]
        0 <= i < j < rows.len() implies event_key(rows[i]) != event_key(rows[j]) by {
        assert(row_matches(rows, events, payloads, i));
        assert(row_matches(rows, events, payloads, j));
    }
}

/// The event log is append-only: a commit changes and removes no stored event.
pub proof fn law_journal_is_append_only(
    t: JournalTables,
    events: Seq<EncodedEventRow>,
    snapshot: Option<EncodedSnapshotRow>,
    key: (int, int),
)
    requires
        events.len() <= usize::MAX,
        distinct_rows(events),
        t.events.contains_key(key),
    ensures
        after_commit(t, events, snapshot).events.contains_key(key),
        after_commit(t, events, snapshot).events[key] == t.events[key],
{
    lemma_after_commit(t, events, snapshot);
}

/// Every event of a commit is stored, unless one with its key was stored before; and
/// nothing else is.
pub proof fn law_commit_stores_its_events(
    t: JournalTables,
    events: Seq<EncodedEventRow>,
    snapshot: Option<EncodedSnapshotRow>,
)
    requires
        events.len() <= usize::MAX,
        distinct_rows(events),
    ensures
        ({
            let after = after_commit(t, events, snapshot).events;
            &&& forall|i: int|
                0 <= i < events.len() ==> after.contains_key(event_key(#[trigger] events[i]))
            &&& forall|i: int|
                0 <= i < events.len() && !t.events.contains_key(event_key(#[trigger] events[i]))
                    ==> after[event_key(events[i])] == events[i]
            &&& forall|k: (int, int)| #[trigger]
                after.contains_key(k) ==> t.events.contains_key(k) || has_key(
                    events,
                    events.len(),
                    k,
                )
        }),
{
    lemma_after_commit(t, events, snapshot);
    let after = after_commit(t, events, snapshot).events;
    assert forall|i: int| 0 <= i < events.len() implies after.contains_key(
        event_key(#[trigger] events[i]),
    ) by {
        if t.events.contains_key(event_key(events[i])) {
            assert(after.contains_key(event_key(events[i])));
        }
    }
    let kept = JournalTables { events: after, snapshots: t.snapshots };
    assert forall|k: (int, int)| #[trigger] after.contains_key(k) implies t.events.contains_key(k)
        || has_key(events, events.len(), k) by {
        assert(kept.events.contains_key(k));
    }
}

/// A commit that is written a second time changes nothing.
pub proof fn law_repeated_commit_changes_nothing(
    t: JournalTables,
    events: Seq<EncodedEventRow>,
    snapshot: Option<EncodedSnapshotRow>,
)
    requires
        events.len() <= usize::MAX,
        distinct_rows(events),
    ensures
        ({
            let once = after_commit(t, events, snapshot);
            let twice = after_commit(once, events, snapshot);
            twice.events == once.events && twice.snapshots == once.snapshots
        }),
{
    let once = after_commit(t, events, snapshot);
    let twice = after_commit(once, events, snapshot);
    law_commit_stores_its_events(t, events, snapshot);
    law_commit_stores_its_events(once, events, snapshot);
    lemma_after_commit(t, events, snapshot);
    lemma_after_commit(once, events, snapshot);
    assert forall|k: (int, int)| #[trigger]
        twice.events.contains_key(k) implies once.events.contains_key(k) by {
        if !once.events.contains_key(k) {
            let i = choose|i: int|
                0 <= i < events.len() && event_key(#[trigger] events[i]) == k;
            assert(once.events.contains_key(event_key(events[i])));
        }
    }
    assert(twice.events =~= once.events);
    assert(twice.snapshots =~= once.snapshots);
}

/// After a commit with a snapshot, that snapshot is stored, and none of an earlier
/// sequence number is.
pub proof fn law_snapshot_replaces_earlier_ones(
    t: JournalTables,
    events: Seq<EncodedEventRow>,
    snapshot: EncodedSnapshotRow,
)
    requires
        events.len() <= usize::MAX,
        distinct_rows(events),
    ensures
        ({
            let after = after_commit(t, events, Some(snapshot)).snapshots;
            &&& after.contains_key(snapshot.sequence_id as int)
            &&& after[snapshot.sequence_id as int] == snapshot
            &&& forall|k: int| #[trigger] after.contains_key(k) ==> k >= snapshot.sequence_id
            &&& forall|k: int| #[trigger]
                t.snapshots.contains_key(k) && k > snapshot.sequence_id ==> after.contains_key(k)
                    && after[k] == t.snapshots[k]
            &&& forall|k: int| #[trigger]
                after.contains_key(k) && k != snapshot.sequence_id ==> t.snapshots.contains_key(k)
        }),
{
    lemma_after_commit(t, events, Some(snapshot));
}

/// A commit without a snapshot leaves the snapshots as they are.
pub proof fn law_commit_without_snapshot_keeps_all(t: JournalTables, events: Seq<EncodedEventRow>)
    requires
        events.len() <= usize::MAX,
        distinct_rows(events),
    ensures
        after_commit(t, events, None).snapshots == t.snapshots,
{
    lemma_after_commit(t, events, None);
}

/// Rows that were written can be replayed: where every payload decodes to the event that it
/// was encoded from, the events come back as they were committed, in order.
pub proof fn law_replay_gives_back_what_was_written(
    rows: Seq<EncodedEventRow>,
    events: Seq<SequencedEvent<EngineEvent>>,
    payloads: Seq<Result<Vec<u8>, String>>,
    stored: Seq<StoredEvent>,
)
    requires
        are_event_rows(rows, events, payloads),
        stored.len() == rows.len(),
        forall|i: int|
            0 <= i < rows.len() ==> {
                &&& (#[trigger] stored[i]).sequence_id == rows[i].sequence_id
                &&& stored[i].schema_version == rows[i].schema_version
                &&& stored[i].event == Ok::<SequencedEvent<EngineEvent>, String>(events[i])
            },
    ensures
        are_replayed(events, stored),
{
    assert forall|i: int| 0 <= i < stored.len() implies {
        &&& replay_fault(#[trigger] stored[i]) is None
        &&& stored[i].event == Ok::<SequencedEvent<EngineEvent>, String>(events[i])
    } by {
        assert(row_matches(rows, events, payloads, i));
    }
}

// ─── Replaying a range ───

/// Whether a sequence number lies in a range; a range without end goes on to the last.
pub open spec fn within(sequence_id: int, from: int, to: Option<int>) -> bool {
    from <= sequence_id && (to matches Some(end) ==> sequence_id <= end)
}

/// Whether an event row lies in a range.
pub open spec fn row_within(from: int, to: Option<int>) -> spec_fn(EncodedEventRow) -> bool {
    |row: EncodedEventRow| within(row.sequence_id as int, from, to)
}

/// Whether an event lies in a range.
pub open spec fn event_within(from: int, to: Option<int>) -> spec_fn(
    SequencedEvent<EngineEvent>,
) -> bool {
    |event: SequencedEvent<EngineEvent>| within(event.sequence_id.0 as int, from, to)
}

/// The order of event rows: by sequence number, then by position within a commit.
pub open spec fn key_before(a: (int, int), b: (int, int)) -> bool {
    a.0 < b.0 || (a.0 == b.0 && a.1 < b.1)
}

/// Whether rows are in the order of their keys, each once.
pub open spec fn in_key_order(rows: Seq<EncodedEventRow>) -> bool {
    forall|i: int, j: int|
        #![trigger rows[i], rows[j]]
        0 <= i < j < rows.len() ==> key_before(event_key(rows[i]), event_key(rows[j]))
}

/// Whether rows are what a query for a range gives: all event rows in the range, in the
/// order of their keys.
pub open spec fn is_selection(
    t: JournalTables,
    from: int,
    to: Option<int>,
    rows: Seq<EncodedEventRow>,
) -> bool {
    &&& in_key_order(rows)
    &&& forall|i: int|
        0 <= i < rows.len() ==> {
            &&& t.events.contains_key(event_key(#[trigger] rows[i]))
            &&& t.events[event_key(rows[i])] == rows[i]
            &&& within(rows[i].sequence_id as int, from, to)
        }
    &&& forall|k: (int, int)| #[trigger]
        t.events.contains_key(k) && within(k.0, from, to) ==> has_key(rows, rows.len(), k)
}

/// Whether the event table holds the rows of a log, which are in the order of their keys, and
/// no others.
pub open spec fn holds_log(t: JournalTables, log: Seq<EncodedEventRow>) -> bool {
    &&& in_key_order(log)
    &&& forall|i: int|
        0 <= i < log.len() ==> {
            &&& t.events.contains_key(event_key(#[trigger] log[i]))
            &&& t.events[event_key(log[i])] == log[i]
        }
    &&& forall|k: (int, int)| #[trigger]
        t.events.contains_key(k) ==> has_key(log, log.len(), k)
}

/// Whether events are in the order of their sequence numbers, of which several may be the
/// same.
pub open spec fn in_sequence(events: Seq<SequencedEvent<EngineEvent>>) -> bool {
    forall|i: int, j: int|
        #![trigger events[i], events[j]]
        0 <= i < j < events.len() ==> events[i].sequence_id.0 <= events[j].sequence_id.0
}

/// Whether a log records events: row by row their sequence numbers, in the supported layout.
pub open spec fn records(
    log: Seq<EncodedEventRow>,
    events: Seq<SequencedEvent<EngineEvent>>,
) -> bool {
    &&& log.len() == events.len()
    &&& forall|i: int|
        0 <= i < log.len() ==> {
            &&& (#[trigger] log[i]).sequence_id == events[i].sequence_id.0
            &&& log[i].schema_version == PERSISTED_SCHEMA_VERSION
        }
}

/// Whether stored events are what reading selected rows of a log gives, where the payload of
/// every row decodes to the event that it was encoded from.
pub open spec fn are_read(
    stored: Seq<StoredEvent>,
    rows: Seq<EncodedEventRow>,
    log: Seq<EncodedEventRow>,
    events: Seq<SequencedEvent<EngineEvent>>,
) -> bool {
    &&& stored.len() == rows.len()
    &&& forall|i: int|
        0 <= i < rows.len() ==> {
            &&& (#[trigger] stored[i]).sequence_id == rows[i].sequence_id
            &&& stored[i].schema_version == rows[i].schema_version
        }
    &&& forall|i: int, j: int|
        #![trigger stored[i], log[j]]
        0 <= i < rows.len() && 0 <= j < log.len() && rows[i] == log[j] ==> stored[i].event == Ok::<
            SequencedEvent<EngineEvent>,
            String,
        >(events[j])
}

/// Rows in key order that are all those of a log in a range are the log's rows in that range.
proof fn lemma_selected_rows(
    log: Seq<EncodedEventRow>,
    rows: Seq<EncodedEventRow>,
    from: int,
    to: Option<int>,
)
    requires
        in_key_order(log),
        in_key_order(rows),
        forall|i: int|
            0 <= i < rows.len() ==> within((#[trigger] rows[i]).sequence_id as int, from, to)
                && log.contains(rows[i]),
        forall|j: int|
            0 <= j < log.len() && within((#[trigger] log[j]).sequence_id as int, from, to)
                ==> rows.contains(log[j]),
    ensures
        rows == log.filter(row_within(from, to)),
    decreases log.len(),
{
    reveal(Seq::filter);
    let pred = row_within(from, to);
    if log.len() == 0 {
        if rows.len() > 0 {
            assert(log.contains(rows[0]));
        }
        assert(rows =~= log.filter(pred));
    } else {
        let n = log.len() - 1;
        let (rest, last) = (log.drop_last(), log[n]);
        assert(in_key_order(rest)) by {
            assert forall|i: int, j: int|
                #![trigger rest[i], rest[j]]
                0 <= i < j < rest.len() implies key_before(
                event_key(rest[i]),
                event_key(rest[j]),
            ) by {
                assert(rest[i] == log[i] && rest[j] == log[j]);
            }
        }
        if pred(last) {
            let m = rows.len() - 1;
            let at = choose|at: int| 0 <= at < rows.len() && rows[at] == last;
            if at < m {
                let j = choose|j: int| 0 <= j < log.len() && log[j] == rows[m];
                assert(key_before(event_key(rows[at]), event_key(rows[m])));
                if j < n {
                    assert(key_before(event_key(log[j]), event_key(log[n])));
                }
            }
            let head = rows.drop_last();
            assert forall|i: int| 0 <= i < head.len() implies within(
                (#[trigger] head[i]).sequence_id as int,
                from,
                to,
            ) && rest.contains(head[i]) by {
                assert(head[i] == rows[i]);
                let j = choose|j: int| 0 <= j < log.len() && log[j] == rows[i];
                assert(key_before(event_key(rows[i]), event_key(rows[m])));
                assert(rest[j] == head[i]);
            }
            assert forall|j: int|
                0 <= j < rest.len() && within(
                    (#[trigger] rest[j]).sequence_id as int,
                    from,
                    to,
                ) implies head.contains(rest[j]) by {
                assert(rest[j] == log[j]);
                let i = choose|i: int| 0 <= i < rows.len() && rows[i] == log[j];
                assert(key_before(event_key(log[j]), event_key(log[n])));
                assert(head[i] == rest[j]);
            }
            assert(in_key_order(head)) by {
                assert forall|i: int, j: int|
                    #![trigger head[i], head[j]]
                    0 <= i < j < head.len() implies key_before(
                    event_key(head[i]),
                    event_key(head[j]),
                ) by {
                    assert(head[i] == rows[i] && head[j] == rows[j]);
                }
            }
            lemma_selected_rows(rest, head, from, to);
            assert(rows =~= head.push(last));
        } else {
            assert forall|i: int| 0 <= i < rows.len() implies within(
                (#[trigger] rows[i]).sequence_id as int,
                from,
                to,
            ) && rest.contains(rows[i]) by {
                let j = choose|j: int| 0 <= j < log.len() && log[j] == rows[i];
                assert(rest[j] == rows[i]);
            }
            assert forall|j: int|
                0 <= j < rest.len() && within(
                    (#[trigger] rest[j]).sequence_id as int,
                    from,
                    to,
                ) implies rows.contains(rest[j]) by {
                assert(rest[j] == log[j]);
            }
            lemma_selected_rows(rest, rows, from, to);
        }
    }
}

/// The rows of a log in a range are rows of the log, in key order, and all that lie in it.
proof fn lemma_rows_in_range(log: Seq<EncodedEventRow>, from: int, to: Option<int>)
    requires
        in_key_order(log),
    ensures
        ({
            let rows = log.filter(row_within(from, to));
            &&& in_key_order(rows)
            &&& forall|i: int|
                0 <= i < rows.len() ==> within((#[trigger] rows[i]).sequence_id as int, from, to)
                    && log.contains(rows[i])
            &&& forall|j: int|
                0 <= j < log.len() && within((#[trigger] log[j]).sequence_id as int, from, to)
                    ==> rows.contains(log[j])
        }),
    decreases log.len(),
{
    reveal(Seq::filter);
    let rows = log.filter(row_within(from, to));
    if log.len() > 0 {
        let n = log.len() - 1;
        let rest = log.drop_last();
        assert forall|i: int, j: int|
            #![trigger rest[i], rest[j]]
            0 <= i < j < rest.len() implies key_before(event_key(rest[i]), event_key(rest[j])) by {
            assert(rest[i] == log[i] && rest[j] == log[j]);
        }
        lemma_rows_in_range(rest, from, to);
        let before = rest.filter(row_within(from, to));
        assert forall|i: int| 0 <= i < rows.len() implies within(
            (#[trigger] rows[i]).sequence_id as int,
            from,
            to,
        ) && log.contains(rows[i]) by {
            if i < before.len() {
                assert(rows[i] == before[i]);
                let j = choose|j: int| 0 <= j < rest.len() && rest[j] == before[i];
                assert(log[j] == rows[i]);
            } else {
                assert(log[n] == rows[i]);
            }
        }
        assert forall|j: int|
            0 <= j < log.len() && within(
                (#[trigger] log[j]).sequence_id as int,
                from,
                to,
            ) implies rows.contains(log[j]) by {
            if j < n {
                assert(rest[j] == log[j]);
                let i = choose|i: int| 0 <= i < before.len() && before[i] == rest[j];
                assert(rows[i] == log[j]);
            } else {
                assert(rows[rows.len() - 1] == log[j]);
            }
        }
        assert forall|i: int, j: int|
            #![trigger rows[i], rows[j]]
            0 <= i < j < rows.len() implies key_before(event_key(rows[i]), event_key(rows[j])) by {
            if j < before.len() {
                assert(rows[i] == before[i] && rows[j] == before[j]);
            } else {
                assert(rows[i] == before[i] && rows[j] == log[n]);
                let k = choose|k: int| 0 <= k < rest.len() && rest[k] == before[i];
                assert(rest[k] == log[k]);
                assert(key_before(event_key(log[k]), event_key(log[n])));
            }
        }
    }
}

/// Whether a row and an event are those at a position of a log and of the events that it
/// records.
spec fn recorded_at(
    log: Seq<EncodedEventRow>,
    events: Seq<SequencedEvent<EngineEvent>>,
    row: EncodedEventRow,
    event: SequencedEvent<EngineEvent>,
    at: int,
) -> bool {
    0 <= at < log.len() && log[at] == row && events[at] == event
}

/// Whether a row is recorded in a log for an event.
spec fn is_recorded(
    log: Seq<EncodedEventRow>,
    events: Seq<SequencedEvent<EngineEvent>>,
    row: EncodedEventRow,
    event: SequencedEvent<EngineEvent>,
) -> bool {
    exists|at: int| recorded_at(log, events, row, event, at)
}

/// What is left of a log in a range stands beside what is left of its events, row by row.
proof fn lemma_filtered_log(
    log: Seq<EncodedEventRow>,
    events: Seq<SequencedEvent<EngineEvent>>,
    from: int,
    to: Option<int>,
)
    requires
        records(log, events),
    ensures
        ({
            let rows = log.filter(row_within(from, to));
            let kept = events.filter(event_within(from, to));
            &&& rows.len() == kept.len()
            &&& forall|i: int|
                0 <= i < rows.len() ==> is_recorded(log, events, #[trigger] rows[i], kept[i])
        }),
    decreases log.len(),
{
    reveal(Seq::filter);
    if log.len() > 0 {
        let n = log.len() - 1;
        let (short_log, short_events) = (log.drop_last(), events.drop_last());
        assert forall|i: int| 0 <= i < short_log.len() implies {
            &&& (#[trigger] short_log[i]).sequence_id == short_events[i].sequence_id.0
            &&& short_log[i].schema_version == PERSISTED_SCHEMA_VERSION
        } by {
            assert(short_log[i] == log[i] && short_events[i] == events[i]);
        }
        lemma_filtered_log(short_log, short_events, from, to);
        let (before, rows) = (
            short_log.filter(row_within(from, to)),
            log.filter(row_within(from, to)),
        );
        let (left, kept) = (
            short_events.filter(event_within(from, to)),
            events.filter(event_within(from, to)),
        );
        assert(log[n].sequence_id == events[n].sequence_id.0);
        assert(row_within(from, to)(log.last()) == event_within(from, to)(events.last()));
        assert forall|i: int| 0 <= i < rows.len() implies is_recorded(
            log,
            events,
            #[trigger] rows[i],
            kept[i],
        ) by {
            if i < before.len() {
                assert(rows[i] == before[i] && kept[i] == left[i]);
                let j = choose|j: int| recorded_at(short_log, short_events, before[i], left[i], j);
                assert(recorded_at(log, events, rows[i], kept[i], j));
            } else {
                assert(recorded_at(log, events, rows[i], kept[i], n));
            }
        }
    }
}

/// What a query for a range gives of a table that holds a log is the log's rows in that
/// range.
proof fn lemma_selection_of_log(
    t: JournalTables,
    log: Seq<EncodedEventRow>,
    from: int,
    to: Option<int>,
    rows: Seq<EncodedEventRow>,
)
    requires
        holds_log(t, log),
        is_selection(t, from, to, rows),
    ensures
        rows == log.filter(row_within(from, to)),
{
    assert forall|i: int| 0 <= i < rows.len() implies within(
        (#[trigger] rows[i]).sequence_id as int,
        from,
        to,
    ) && log.contains(rows[i]) by {
        let k = event_key(rows[i]);
        assert(t.events.contains_key(k));
        let j = choose|j: int| 0 <= j < log.len() && event_key(#[trigger] log[j]) == k;
        assert(log[j] == rows[i]);
    }
    assert forall|j: int|
        0 <= j < log.len() && within(
            (#[trigger] log[j]).sequence_id as int,
            from,
            to,
        ) implies rows.contains(log[j]) by {
        let k = event_key(log[j]);
        assert(t.events.contains_key(k));
        let i = choose|i: int| 0 <= i < rows.len() && event_key(#[trigger] rows[i]) == k;
        assert(rows[i] == log[j]);
    }
    lemma_selected_rows(log, rows, from, to);
}

/// What a query for a range gives of a table that holds a log is the log's rows in that
/// range, in order.
pub proof fn law_selection_is_the_log_in_range(
    t: JournalTables,
    log: Seq<EncodedEventRow>,
    from: int,
    to: Option<int>,
    rows: Seq<EncodedEventRow>,
)
    requires
        holds_log(t, log),
    ensures
        is_selection(t, from, to, rows) <==> rows == log.filter(row_within(from, to)),
{
    if is_selection(t, from, to, rows) {
        lemma_selection_of_log(t, log, from, to, rows);
    }
    lemma_rows_in_range(log, from, to);
    let kept = log.filter(row_within(from, to));
    assert forall|i: int| 0 <= i < kept.len() implies {
        &&& t.events.contains_key(event_key(#[trigger] kept[i]))
        &&& t.events[event_key(kept[i])] == kept[i]
        &&& within(kept[i].sequence_id as int, from, to)
    } by {
        let j = choose|j: int| 0 <= j < log.len() && log[j] == kept[i];
        assert(t.events.contains_key(event_key(log[j])));
    }
    assert forall|k: (int, int)| #[trigger]
        t.events.contains_key(k) && within(k.0, from, to) implies has_key(
        kept,
        kept.len(),
        k,
    ) by {
        let j = choose|j: int| 0 <= j < log.len() && event_key(#[trigger] log[j]) == k;
        let i = choose|i: int| 0 <= i < kept.len() && kept[i] == log[j];
        assert(event_key(kept[i]) == k);
    }
}

/// A commit whose rows come after those of the log makes the log longer by them.
pub proof fn law_commit_extends_the_log(
    t: JournalTables,
    log: Seq<EncodedEventRow>,
    rows: Seq<EncodedEventRow>,
    snapshot: Option<EncodedSnapshotRow>,
)
    requires
        holds_log(t, log),
        in_key_order(log + rows),
        rows.len() <= usize::MAX,
    ensures
        holds_log(after_commit(t, rows, snapshot), log + rows),
{
    let all = log + rows;
    let n = log.len() as int;
    assert forall|i: int, j: int|
        #![trigger rows[i], rows[j]]
        0 <= i < j < rows.len() implies event_key(rows[i]) != event_key(rows[j]) by {
        assert(all[n + i] == rows[i] && all[n + j] == rows[j]);
        assert(key_before(event_key(all[n + i]), event_key(all[n + j])));
    }
    law_commit_stores_its_events(t, rows, snapshot);
    let after = after_commit(t, rows, snapshot);
    assert forall|i: int| 0 <= i < all.len() implies {
        &&& after.events.contains_key(event_key(#[trigger] all[i]))
        &&& after.events[event_key(all[i])] == all[i]
    } by {
        if i < n {
            assert(all[i] == log[i]);
            law_journal_is_append_only(t, rows, snapshot, event_key(log[i]));
        } else {
            assert(all[i] == rows[i - n]);
            if t.events.contains_key(event_key(rows[i - n])) {
                let k = event_key(rows[i - n]);
                let j = choose|j: int| 0 <= j < log.len() && event_key(#[trigger] log[j]) == k;
                assert(all[j] == log[j]);
                assert(key_before(event_key(all[j]), event_key(all[i])));
            }
        }
    }
    assert forall|k: (int, int)| #[trigger] after.events.contains_key(k) implies has_key(
        all,
        all.len(),
        k,
    ) by {
        if t.events.contains_key(k) {
            let j = choose|j: int| 0 <= j < log.len() && event_key(#[trigger] log[j]) == k;
            assert(event_key(all[j]) == k);
        } else {
            let j = choose|j: int| 0 <= j < rows.len() && event_key(#[trigger] rows[j]) == k;
            assert(event_key(all[n + j]) == k);
        }
    }
}

/// The rows of events that follow one another come in the order of their keys, after the
/// rows of a log with lower sequence numbers, and record the events.
pub proof fn law_rows_follow_the_log(
    log: Seq<EncodedEventRow>,
    past: Seq<SequencedEvent<EngineEvent>>,
    rows: Seq<EncodedEventRow>,
    events: Seq<SequencedEvent<EngineEvent>>,
    payloads: Seq<Result<Vec<u8>, String>>,
)
    requires
        in_key_order(log),
        records(log, past),
        are_event_rows(rows, events, payloads),
        in_sequence(events),
        forall|i: int, j: int|
            #![trigger past[i], events[j]]
            0 <= i < past.len() && 0 <= j < events.len() ==> past[i].sequence_id.0
                < events[j].sequence_id.0,
    ensures
        in_key_order(log + rows),
        records(log + rows, past + events),
{
    let (all, whole) = (log + rows, past + events);
    let n = log.len() as int;
    assert forall|i: int| 0 <= i < all.len() implies {
        &&& (#[trigger] all[i]).sequence_id == whole[i].sequence_id.0
        &&& all[i].schema_version == PERSISTED_SCHEMA_VERSION
    } by {
        if i < n {
            assert(all[i] == log[i] && whole[i] == past[i]);
        } else {
            assert(all[i] == rows[i - n] && whole[i] == events[i - n]);
            assert(row_matches(rows, events, payloads, i - n));
        }
    }
    assert forall|i: int, j: int|
        #![trigger all[i], all[j]]
        0 <= i < j < all.len() implies key_before(event_key(all[i]), event_key(all[j])) by {
        if j < n {
            assert(all[i] == log[i] && all[j] == log[j]);
        } else if i < n {
            assert(whole[i] == past[i] && whole[j] == events[j - n]);
            assert(past[i].sequence_id.0 < events[j - n].sequence_id.0);
        } else {
            assert(all[i] == rows[i - n] && all[j] == rows[j - n]);
            assert(row_matches(rows, events, payloads, i - n));
            assert(row_matches(rows, events, payloads, j - n));
            assert(events[i - n].sequence_id.0 <= events[j - n].sequence_id.0);
        }
    }
}

/// A replay of a range gives back the recorded events of that range, all of them, once each
/// and in order.
pub proof fn law_replay_of_a_range(
    t: JournalTables,
    log: Seq<EncodedEventRow>,
    events: Seq<SequencedEvent<EngineEvent>>,
    from: int,
    to: Option<int>,
    rows: Seq<EncodedEventRow>,
    stored: Seq<StoredEvent>,
)
    requires
        holds_log(t, log),
        records(log, events),
        is_selection(t, from, to, rows),
        are_read(stored, rows, log, events),
    ensures
        are_replayed(events.filter(event_within(from, to)), stored),
{
    law_selection_is_the_log_in_range(t, log, from, to, rows);
    lemma_filtered_log(log, events, from, to);
    let kept = events.filter(event_within(from, to));
    assert forall|i: int| 0 <= i < stored.len() implies {
        &&& replay_fault(#[trigger] stored[i]) is None
        &&& stored[i].event == Ok::<SequencedEvent<EngineEvent>, String>(kept[i])
    } by {
        assert(is_recorded(log, events, rows[i], kept[i]));
        let j = choose|j: int| recorded_at(log, events, rows[i], kept[i], j);
        assert(log[j] == rows[i]);
        assert(stored[i].event == Ok::<SequencedEvent<EngineEvent>, String>(events[j]));
    }
}

/// A batch that is written to an empty journal is given back by a replay of a range: the
/// events of the range, all of them, once each and in the order they had in the batch.
pub proof fn law_batch_is_replayed(
    t: JournalTables,
    events: Seq<SequencedEvent<EngineEvent>>,
    payloads: Seq<Result<Vec<u8>, String>>,
    batch: Seq<EncodedEventRow>,
    snapshot: Option<EncodedSnapshotRow>,
    from: int,
    to: Option<int>,
    rows: Seq<EncodedEventRow>,
    stored: Seq<StoredEvent>,
)
    requires
        t.events == Map::<(int, int), EncodedEventRow>::empty(),
        are_event_rows(batch, events, payloads),
        in_sequence(events),
        batch.len() <= usize::MAX,
        is_selection(after_commit(t, batch, snapshot), from, to, rows),
        are_read(stored, rows, batch, events),
    ensures
        are_replayed(events.filter(event_within(from, to)), stored),
{
    let log = Seq::<EncodedEventRow>::empty();
    let past = Seq::<SequencedEvent<EngineEvent>>::empty();
    law_rows_follow_the_log(log, past, batch, events, payloads);
    law_commit_extends_the_log(t, log, batch, snapshot);
    assert(log + batch =~= batch);
    assert(past + events =~= events);
    law_replay_of_a_range(
        after_commit(t, batch, snapshot),
        batch,
        events,
        from,
        to,
        rows,
        stored,
    );
}

} // verus!
