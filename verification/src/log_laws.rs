//! What the journal and the message bus keep and hand on.

use crate::bus::{
    ack_fault, content_of, decoded_payload, entry_content, fault_positions, group_fault,
    group_outcome, is_group, is_read_step, message_positions, number_field, pair_bytes,
    pending_fault, publishes, sorted_out, text_field, topic_info_fault, value_number, BusError,
    BusFault, BusMessage, ConsumerGroupInfo, Content, ReadStep, StreamEntry, StreamValue,
};
use crate::engine::EngineStateSnapshot;
use crate::event::{EngineEvent, SequencedEvent};
use crate::hexadecimal::hex_text;
use crate::journal::{
    are_event_rows, commit_steps, event_row_fault, is_event_row, is_snapshot_row, kind_name,
    replay_fault, restore_fault, row_matches, sequence_of, step_failure, version_fault, EncodedEventRow, EncodedSnapshotRow, JournalStep,
    StoredEvent, StoredSnapshot,
};
use crate::text::{digits, int_text, occurs, parsed_integer, parsed_number};
use crate::time::{utc_rfc3339_text, MAX_UTC_MILLIS, MIN_UTC_MILLIS};
use vstd::prelude::*;
use vstd::utf8::encode_utf8;

verus! {

// ─── The journal ───

/// The kind of an event is stored under the event's own name.
pub proof fn law_kinds_of_events(event: EngineEvent)
    ensures
        event is OrderReceived ==> kind_name(event) == "OrderReceived"@,
        event is OrderValidated ==> kind_name(event) == "OrderValidated"@,
        event is OrderRiskChecked ==> kind_name(event) == "OrderRiskChecked"@,
        event is OrderRouted ==> kind_name(event) == "OrderRouted"@,
        event is OrderSubmitted ==> kind_name(event) == "OrderSubmitted"@,
        event is OrderFilled ==> kind_name(event) == "OrderFilled"@,
        event is OrderPartiallyFilled ==> kind_name(event) == "OrderPartiallyFilled"@,
        event is OrderCancelled ==> kind_name(event) == "OrderCancelled"@,
        event is OrderRejected ==> kind_name(event) == "OrderRejected"@,
        event is OrderAmended ==> kind_name(event) == "OrderAmended"@,
        event is RiskBreached ==> kind_name(event) == "RiskBreached"@,
        event is CircuitBreakerTripped ==> kind_name(event) == "CircuitBreakerTripped"@,
        event is CircuitBreakerReset ==> kind_name(event) == "CircuitBreakerReset"@,
        event is PositionCorrected ==> kind_name(event) == "PositionCorrected"@,
        event is ReconciliationCompleted ==> kind_name(event) == "ReconciliationCompleted"@,
        event is AgentPaused ==> kind_name(event) == "AgentPaused"@,
        event is AgentResumed ==> kind_name(event) == "AgentResumed"@,
        event is EngineStarted ==> kind_name(event) == "EngineStarted"@,
        event is EngineHalted ==> kind_name(event) == "EngineHalted"@,
        event is SnapshotCreated ==> kind_name(event) == "SnapshotCreated"@,
        event is VenueConnected ==> kind_name(event) == "VenueConnected"@,
        event is VenueDisconnected ==> kind_name(event) == "VenueDisconnected"@,
        event is SubsystemDegraded ==> kind_name(event) == "SubsystemDegraded"@,
        event is SubsystemRecovered ==> kind_name(event) == "SubsystemRecovered"@,
{
}

/// A stored integer and the sequence number that is read from it have the same sixty-four
/// bits: they are equal, or the number is the integer with two to the power sixty-four added.
pub proof fn law_stored_sequence(stored: i64)
    ensures
        0 <= sequence_of(stored as int) < 0x1_0000_0000_0000_0000,
        stored >= 0 ==> sequence_of(stored as int) == stored,
        stored < 0 ==> sequence_of(stored as int) == stored + 0x1_0000_0000_0000_0000,
{
}

/// An event row holds the event's own number, time and kind, where it stands in its commit,
/// and its payload.
pub proof fn law_event_row(
    row: EncodedEventRow,
    index: int,
    event: SequencedEvent<EngineEvent>,
    payload: Seq<u8>,
)
    requires
        is_event_row(row, index, event, payload),
    ensures
        row.sequence_id == event.sequence_id.0,
        row.event_index == index,
        row.timestamp@ == utc_rfc3339_text(event.timestamp@),
        row.payload@ == payload,
        row.schema_version == 1,
        event.event is OrderFilled ==> row.kind@ == "OrderFilled"@,
{
}

/// The rows of a commit are one for each event, in order, with the number of the event, where
/// it stands, and what its payload was encoded to.
pub proof fn law_rows_of_a_commit(
    rows: Seq<EncodedEventRow>,
    events: Seq<SequencedEvent<EngineEvent>>,
    payloads: Seq<Result<Vec<u8>, String>>,
    i: int,
)
    requires
        are_event_rows(rows, events, payloads),
        0 <= i < events.len(),
    ensures
        rows.len() == events.len(),
        rows[i].sequence_id == events[i].sequence_id.0,
        rows[i].event_index == i,
        payloads[i] matches Ok(bytes) && rows[i].payload@ == bytes@,
{
    assert(row_matches(rows, events, payloads, i));
}

/// An event has a row exactly where its payload could be encoded and its place can be counted.
pub proof fn law_events_with_a_row(
    index: int,
    event: SequencedEvent<EngineEvent>,
    payload: Result<Vec<u8>, String>,
)
    ensures
        event_row_fault(index, event, payload) is None <==> index <= i64::MAX && payload is Ok,
        index <= i64::MAX ==> (payload matches Err(why) ==> event_row_fault(index, event, payload)
            == Some(
            "failed to encode event seq:"@ + digits(event.sequence_id.0 as nat) + ": "@ + why@,
        )),
{
}

/// A snapshot row holds the snapshot's own number and time, and its payload.
pub proof fn law_snapshot_row(
    row: EncodedSnapshotRow,
    snapshot: EngineStateSnapshot,
    payload: Seq<u8>,
)
    requires
        is_snapshot_row(row, snapshot, payload),
    ensures
        row.sequence_id == snapshot.sequence_id.0,
        row.timestamp@ == utc_rfc3339_text(snapshot.snapshot_at@),
        row.payload@ == payload,
        row.schema_version == 1,
{
}

/// The steps of a commit: a transaction is begun, every event is inserted in order, the
/// snapshot is saved before older ones are pruned, and then the transaction is committed; the
/// log is folded in only after that. There are no steps for nothing.
pub proof fn law_steps_of_a_commit(count: nat, snapshot: bool, i: int)
    requires
        0 <= i < count <= usize::MAX,
    ensures
        ({
            let steps = commit_steps(count, snapshot);
            &&& steps[0] is Begin
            &&& steps[i + 1] matches JournalStep::InsertEvent(at) && at == i
            &&& snapshot ==> {
                &&& steps.len() == count + 5
                &&& steps[count as int + 1] is SaveSnapshot
                &&& steps[count as int + 2] is PruneSnapshots
                &&& steps[count as int + 3] is Commit
                &&& steps[count as int + 4] is Checkpoint
            }
            &&& !snapshot ==> steps.len() == count + 2 && steps[count as int + 1] is Commit
        }),
        commit_steps(0, false).len() == 0,
        commit_steps(0, true).len() == 5,
{
}

/// The failure of a step is one of the commit, unless the commit has been made already.
pub proof fn law_step_failures(
    step: JournalStep,
    events: Seq<EncodedEventRow>,
    snapshot: Option<EncodedSnapshotRow>,
    why: Seq<char>,
)
    ensures
        step_failure(step, events, snapshot, why) is None <==> step is Checkpoint,
        step is Begin ==> step_failure(step, events, snapshot, why) == Some(
            "begin transaction: "@ + why,
        ),
        step is Commit ==> step_failure(step, events, snapshot, why) == Some(
            "commit transaction: "@ + why,
        ),
        step matches JournalStep::InsertEvent(i) ==> step_failure(step, events, snapshot, why)
            == Some(
            "batch insert at seq:"@ + int_text(events[i as int].sequence_id as int) + "/event:"@
                + int_text(events[i as int].event_index as int) + ": "@ + why,
        ),
        step is SaveSnapshot && snapshot is Some ==> step_failure(step, events, snapshot, why)
            == Some(
            "save_snapshot at seq:"@ + int_text(snapshot->0.sequence_id as int) + ": "@ + why,
        ),
        step is PruneSnapshots && snapshot is Some ==> step_failure(step, events, snapshot, why)
            == Some(
            "prune old snapshots at seq:"@ + int_text(snapshot->0.sequence_id as int) + ": "@
                + why,
        ),
{
}

/// Rows of the first layout alone are read; a row is replayed or restored exactly where its
/// layout is that one and its payload decodes.
pub proof fn law_what_is_read(
    entity: Seq<char>,
    version: int,
    at: int,
    event: StoredEvent,
    snapshot: StoredSnapshot,
)
    ensures
        version_fault(entity, version, at) is None <==> version == 1,
        replay_fault(event) is None <==> event.schema_version == 1 && event.event is Ok,
        restore_fault(snapshot) is None <==> snapshot.schema_version == 1
            && snapshot.snapshot is Ok,
{
}

// ─── The bus ───

/// A payload is published in hexadecimal with the milliseconds of its publication, and nothing
/// else is.
pub proof fn law_what_is_published(fields: Map<Seq<char>, String>, payload: Seq<u8>, now: int)
    requires
        publishes(fields, payload, now),
    ensures
        fields.contains_key("payload_hex"@),
        fields["payload_hex"@]@ == hex_text(payload),
        fields.contains_key("published_at_ms"@),
        fields["published_at_ms"@]@ == int_text(now / 1_000_000),
        forall|k: Seq<char>| #[trigger]
            fields.contains_key(k) ==> k == "payload_hex"@ || k == "published_at_ms"@,
{
    assert(fields.dom().contains("payload_hex"@));
    assert(fields.dom().contains("published_at_ms"@));
}

/// A payload of a byte is read from two bytes of text; text of odd length is none.
pub proof fn law_payload_length(text: Seq<char>)
    ensures
        decoded_payload(text) matches Ok(payload) ==> encode_utf8(text).len() == 2
            * payload.len(),
        encode_utf8(text).len() % 2 != 0 ==> decoded_payload(text) is Err,
{
    lemma_pairs(encode_utf8(text), (encode_utf8(text).len() / 2) as nat);
}

/// As many bytes are read as there are pairs.
proof fn lemma_pairs(bytes: Seq<u8>, pairs: nat)
    ensures
        pair_bytes(bytes, pairs) matches Ok(payload) ==> payload.len() == pairs,
    decreases pairs,
{
    if pairs > 0 {
        lemma_pairs(bytes, (pairs - 1) as nat);
    }
}

/// An entry is a message exactly where it has a payload that decodes and milliseconds of its
/// publication within the calendar's range; what it holds is that payload and that time.
pub proof fn law_what_is_a_message(topic: Seq<char>, id: Seq<char>, fields: Map<Seq<char>, String>)
    ensures
        ({
            let millis = parsed_integer(fields["published_at_ms"@]@);
            &&& entry_content(topic, id, fields) is Ok <==> {
                &&& fields.contains_key("payload_hex"@)
                &&& decoded_payload(fields["payload_hex"@]@) is Ok
                &&& fields.contains_key("published_at_ms"@)
                &&& millis matches Some(n) && MIN_UTC_MILLIS <= n <= MAX_UTC_MILLIS
            }
            &&& entry_content(topic, id, fields) matches Ok(c) ==> decoded_payload(
                fields["payload_hex"@]@,
            ) == Ok::<Seq<u8>, Seq<char>>(c.payload) && c.published_at == millis->0 * 1_000_000
            &&& !fields.contains_key("payload_hex"@) ==> entry_content(topic, id, fields) == Err::<
                Content,
                BusFault,
            >(
                (BusFault::MissingField { topic, message_id: id, field: "payload_hex"@ }),
            )
        }),
{
}

/// What is handed on of a read are its messages in order, and what is rejected are the other
/// entries in order: an entry is at a place among the messages exactly where it is one.
pub proof fn law_messages_are_handed_on(topic: Seq<char>, entries: Seq<StreamEntry>, i: int)
    requires
        0 <= i < entries.len(),
    ensures
        message_positions(topic, entries).contains(i) <==> content_of(topic, entries[i]) is Ok,
        fault_positions(topic, entries).contains(i) <==> content_of(topic, entries[i]) is Err,
        forall|a: int, b: int|
            #![trigger message_positions(topic, entries)[a], message_positions(topic, entries)[b]]
            0 <= a < b < message_positions(topic, entries).len() ==> message_positions(
                topic,
                entries,
            )[a] < message_positions(topic, entries)[b],
        forall|a: int, b: int|
            #![trigger fault_positions(topic, entries)[a], fault_positions(topic, entries)[b]]
            0 <= a < b < fault_positions(topic, entries).len() ==> fault_positions(
                topic,
                entries,
            )[a] < fault_positions(topic, entries)[b],
{
    lemma_positions(topic, entries);
    let (good, bad) = (message_positions(topic, entries), fault_positions(topic, entries));
    if good.contains(i) {
        let k = choose|k: int| 0 <= k < good.len() && good[k] == i;
        assert(content_of(topic, entries[good[k]]) is Ok);
    }
    if bad.contains(i) {
        let k = choose|k: int| 0 <= k < bad.len() && bad[k] == i;
        assert(content_of(topic, entries[bad[k]]) is Err);
    }
    crate::bus::law_every_entry_is_accounted_for(topic, entries);
}

/// The places of messages and of other entries go up, and are what they are called.
proof fn lemma_positions(topic: Seq<char>, entries: Seq<StreamEntry>)
    ensures
        ({
            let (good, bad) = (message_positions(topic, entries), fault_positions(topic, entries));
            &&& forall|k: int|
                0 <= k < good.len() ==> 0 <= #[trigger] good[k] < entries.len() && content_of(
                    topic,
                    entries[good[k]],
                ) is Ok
            &&& forall|k: int|
                0 <= k < bad.len() ==> 0 <= #[trigger] bad[k] < entries.len() && content_of(
                    topic,
                    entries[bad[k]],
                ) is Err
            &&& forall|a: int, b: int|
                #![trigger good[a], good[b]]
                0 <= a < b < good.len() ==> good[a] < good[b]
            &&& forall|a: int, b: int|
                #![trigger bad[a], bad[b]]
                0 <= a < b < bad.len() ==> bad[a] < bad[b]
        }),
    decreases entries.len(),
{
    if entries.len() > 0 {
        let rest = entries.drop_last();
        lemma_positions(topic, rest);
        let (good, bad) = (message_positions(topic, entries), fault_positions(topic, entries));
        let (good_rest, bad_rest) = (message_positions(topic, rest), fault_positions(topic, rest));
        assert forall|k: int| 0 <= k < good.len() implies 0 <= #[trigger] good[k] < entries.len()
            && content_of(topic, entries[good[k]]) is Ok by {
            if k < good_rest.len() {
                assert(good[k] == good_rest[k]);
                assert(rest[good_rest[k]] == entries[good[k]]);
            }
        }
        assert forall|k: int| 0 <= k < bad.len() implies 0 <= #[trigger] bad[k] < entries.len()
            && content_of(topic, entries[bad[k]]) is Err by {
            if k < bad_rest.len() {
                assert(bad[k] == bad_rest[k]);
                assert(rest[bad_rest[k]] == entries[bad[k]]);
            }
        }
        assert forall|a: int, b: int|
            #![trigger good[a], good[b]]
            0 <= a < b < good.len() implies good[a] < good[b] by {
            assert(good[a] == good_rest[a]);
            if b < good_rest.len() {
                assert(good[b] == good_rest[b]);
            }
        }
        assert forall|a: int, b: int|
            #![trigger bad[a], bad[b]]
            0 <= a < b < bad.len() implies bad[a] < bad[b] by {
            assert(bad[a] == bad_rest[a]);
            if b < bad_rest.len() {
                assert(bad[b] == bad_rest[b]);
            }
        }
    }
}

/// A read that fails ends the subscription exactly where the group is gone, and is otherwise
/// made again after a quarter of a second; a read without entries hands on nothing.
pub proof fn law_failed_reads(
    step: ReadStep,
    topic: Seq<char>,
    reply: Result<Option<Vec<StreamEntry>>, String>,
)
    requires
        is_read_step(step, topic, reply),
    ensures
        reply is Ok <==> step is Deliver,
        reply matches Err(why) ==> (step is Stop <==> occurs(why@, "NOGROUP"@)),
        step matches ReadStep::Retry { after, error } ==> after@ == 250_000_000 && error@
            == reply->Err_0@,
        reply == Ok::<Option<Vec<StreamEntry>>, String>(None) ==> step->messages@.len() == 0
            && step->rejected@.len() == 0,
{
}

/// A message that is handed on is that of its entry: its identifier, topic and payload.
pub proof fn law_message_of_its_entry(
    messages: Seq<BusMessage>,
    rejected: Seq<BusError>,
    topic: Seq<char>,
    entries: Seq<StreamEntry>,
    k: int,
)
    requires
        sorted_out(messages, rejected, topic, entries),
        0 <= k < messages.len(),
    ensures
        ({
            let at = message_positions(topic, entries)[k];
            &&& 0 <= at < entries.len()
            &&& messages[k].id@ == entries[at].id@
            &&& messages[k].topic@ == topic
            &&& decoded_payload(entries[at].fields@["payload_hex"@]@) == Ok::<Seq<u8>, Seq<char>>(
                messages[k].payload@,
            )
        }),
{
    let at = message_positions(topic, entries)[k];
    law_what_is_a_message(topic, entries[at].id@, entries[at].fields@);
}

/// What the server's refusals mean: a missing group or topic is told by name, a group that is
/// there already will do, and anything else is passed on with its reason.
pub proof fn law_server_refusals(
    topic: Seq<char>,
    group: Seq<char>,
    consumer: Seq<char>,
    id: Seq<char>,
    why: Seq<char>,
)
    ensures
        occurs(why, "NOGROUP"@) ==> ack_fault(topic, group, id, why) == (
        BusFault::GroupNotFound { topic, group }) && pending_fault(topic, group, why) == (
        BusFault::GroupNotFound { topic, group }),
        !occurs(why, "NOGROUP"@) ==> ack_fault(topic, group, id, why) == (BusFault::AckFailed {
            topic,
            group,
            message_id: id,
            reason: why,
        }) && pending_fault(topic, group, why) == (BusFault::PendingFailed {
            topic,
            group,
            reason: why,
        }),
        occurs(why, "no such key"@) ==> topic_info_fault(topic, why) == BusFault::TopicNotFound(
            topic,
        ),
        !occurs(why, "no such key"@) ==> topic_info_fault(topic, why) == (
        BusFault::TopicInfoFailed { topic, reason: why }),
        group_outcome(topic, group, consumer, None) is Ok,
        group_outcome(topic, group, consumer, Some(why)) is Ok <==> occurs(why, "BUSYGROUP"@),
        !occurs(why, "BUSYGROUP"@) && occurs(why, "no such key"@) ==> group_outcome(
            topic,
            group,
            consumer,
            Some(why),
        ) == Err::<(), BusFault>(BusFault::TopicNotFound(topic)),
        !occurs(why, "BUSYGROUP"@) && !occurs(why, "no such key"@) ==> group_outcome(
            topic,
            group,
            consumer,
            Some(why),
        ) == Err::<(), BusFault>(
            (BusFault::SubscribeFailed { topic, group, consumer, reason: why }),
        ),
{
}

/// A reply describes a group exactly where it names it and counts its consumers, in the range
/// of the count, and what is pending; the group is as it describes it.
pub proof fn law_groups_are_read(values: Map<Seq<char>, StreamValue>, g: ConsumerGroupInfo)
    ensures
        group_fault(values) is None <==> {
            &&& text_field(values, "name"@) is Some
            &&& number_field(values, "consumers"@) matches Some(n) && n <= u32::MAX
            &&& number_field(values, "pending"@) is Some
        },
        is_group(g, values) ==> {
            &&& Some(g.name@) == text_field(values, "name"@)
            &&& Some(g.consumers as nat) == number_field(values, "consumers"@)
            &&& Some(g.pending as nat) == number_field(values, "pending"@)
            &&& g.last_delivered is Some <==> text_field(values, "last-delivered-id"@) is Some
        },
{
}

/// A number is read from an integer that is not negative or from digits, and from nothing
/// else.
pub proof fn law_numbers_of_replies(v: StreamValue)
    ensures
        v matches StreamValue::Integer(n) ==> (n >= 0 ==> value_number(v) == Some(n as nat)) && (n
            < 0 ==> value_number(v) is None),
        v matches StreamValue::Text(s) ==> value_number(v) == parsed_number(
            s@,
            u64::MAX as nat,
        ),
        v is Boolean || v is Other || v is Number ==> value_number(v) is None,
{
}

} // verus!
