//! What becomes of commands: what is answered, what is reported, and what changes.

use crate::decimal::{adds_exactly, num_abs, num_text, subtracts_exactly, units, Num};
use crate::engine::{
    CoreRequest, EngineCore, EngineError, EngineFault, EngineState, EngineStateSnapshot, OrderAck,
    OrderRecord, SequencerCommand,
};
use crate::event::{EngineEvent, SequencedEvent};
use crate::ids::{
    client_order_text, embedded_agent, embedded_sequence, is_client_order_id,
    ClientOrderIdGenerator, SequenceId,
};
use crate::order_laws::amount;
use crate::pipeline::{Fill, OrderCore, PipelineOrder, RiskChecked};
use crate::pnl::PriceSource;
use crate::reconciliation::{PositionDivergence, ReconciliationReport};
use crate::sequencer::{
    existing_ack, fill_concluded, filled_total, follows, handled, has_tail, next_sequences,
    order_concluded, reconciliation_report, corrections, remaining_of, stamped, started,
    CommandOutcome, Reply, Sequencer,
};
use crate::time::{Timestamp, NANOS_PER_MILLI};
use vstd::prelude::*;

verus! {

// ─── Orders ───

/// An order that the core passes is acknowledged under a client identifier of its agent, which
/// counts on by one while other agents' counts stay. It is held as pending, with nothing
/// filled, as the core passed it; no other order, acknowledgment or part of the state changes.
/// What is reported is that it was received, validated and approved.
pub proof fn law_passed_order_is_accepted(
    before: EngineState,
    after: EngineState,
    generators: Map<Seq<char>, ClientOrderIdGenerator>,
    generators_after: Map<Seq<char>, ClientOrderIdGenerator>,
    restart_epoch: u16,
    request: OrderCore,
    checked: PipelineOrder<RiskChecked>,
    now: Timestamp,
    o: CommandOutcome,
    other: Seq<char>,
)
    requires
        order_concluded(
            before,
            after,
            generators,
            generators_after,
            restart_epoch,
            request,
            Ok(checked),
            now,
            o,
        ),
    ensures
        o.state_mutated,
        ({
            let agent = request.agent_id@;
            let given: int = if generators.contains_key(agent) {
                generators[agent].upcoming() as int
            } else {
                0
            };
            let record = after.orders@[request.id@];
            &&& o.reply matches Reply::Order(Ok(ack)) && {
                &&& ack.order_id@ == request.id@
                &&& ack.accepted_at == now
                &&& ack.client_order_id@ == client_order_text(
                    agent,
                    now@ / NANOS_PER_MILLI as int,
                    given as nat,
                    restart_epoch as nat,
                )
                &&& after.idempotency_cache@.contains_key(ack.client_order_id@)
                &&& after.idempotency_cache@[ack.client_order_id@] == ack
                &&& record.client_order_id@ == ack.client_order_id@
                &&& other != ack.client_order_id@ ==> after.idempotency_cache@.contains_key(other)
                    == before.idempotency_cache@.contains_key(other)
                    && after.idempotency_cache@[other] == before.idempotency_cache@[other]
            }
            &&& after.orders@.contains_key(request.id@)
            &&& record.core == checked.order()
            &&& record.state is Pending
            &&& record.fills@.len() == 0
            &&& record.created_at == now && record.last_updated == now
            &&& other != request.id@ ==> after.orders@.contains_key(other)
                == before.orders@.contains_key(other) && after.orders@[other]
                == before.orders@[other]
            &&& after.positions == before.positions
            &&& after.firm_book == before.firm_book
            &&& after.agent_allocations == before.agent_allocations
            &&& after.risk_limits == before.risk_limits
            &&& after.agent_statuses == before.agent_statuses
            &&& after.pending_signals == before.pending_signals
            &&& given < u64::MAX ==> generators_after[agent].upcoming() == given + 1
            &&& generators_after[agent].agent() == agent
            &&& other != agent ==> generators_after.contains_key(other)
                == generators.contains_key(other) && generators_after[other] == generators[other]
            &&& o.events@.len() == 3
            &&& o.events@[0] matches EngineEvent::OrderReceived {
                order_id,
                agent_id,
                instrument_id,
                venue_id,
            } && order_id == request.id && agent_id == request.agent_id && instrument_id
                == request.instrument_id && venue_id == request.venue_id
            &&& o.events@[1] matches EngineEvent::OrderValidated { order_id } && order_id
                == request.id
            &&& o.events@[2] matches EngineEvent::OrderRiskChecked { order_id, outcome }
                && order_id == request.id && outcome is Approved
        }),
{
}

/// An order that the core refuses changes nothing: it is answered with the core's error, and
/// what is reported is that it was rejected.
pub proof fn law_refused_order_changes_nothing(
    before: EngineState,
    after: EngineState,
    generators: Map<Seq<char>, ClientOrderIdGenerator>,
    generators_after: Map<Seq<char>, ClientOrderIdGenerator>,
    restart_epoch: u16,
    request: OrderCore,
    why: EngineError,
    now: Timestamp,
    o: CommandOutcome,
)
    requires
        order_concluded(
            before,
            after,
            generators,
            generators_after,
            restart_epoch,
            request,
            Err(why),
            now,
            o,
        ),
    ensures
        after == before,
        generators_after == generators,
        !o.state_mutated,
        o.reply == Reply::Order(Err(why)),
        o.events@.len() == 1,
        o.events@[0] matches EngineEvent::OrderRejected { order_id, stage, .. } && order_id
            == request.id && stage@ == "risk"@,
{
}

/// An order is known exactly where it is held and its client identifier was acknowledged,
/// and what it is known by is that acknowledgment.
pub proof fn law_known_order(state: EngineState, id: Seq<char>)
    ensures
        existing_ack(state, id) is Some <==> state.orders@.contains_key(id)
            && state.idempotency_cache@.contains_key(state.orders@[id].client_order_id@),
        existing_ack(state, id) matches Some(ack) ==> ack
            == state.idempotency_cache@[state.orders@[id].client_order_id@],
{
}

// ─── Fills ───

/// Whether the quantities of fills add up with nothing rounded, one after the other.
pub open spec fn adds_up_exactly(fills: Seq<Fill>) -> bool
    decreases fills.len(),
{
    fills.len() > 0 ==> {
        &&& adds_up_exactly(fills.drop_last())
        &&& filled_total(fills.drop_last()) is Some
        &&& adds_exactly(filled_total(fills.drop_last())->0, fills.last().qty@)
    }
}

/// What is filled is the sum of all fills.
pub proof fn law_filled_is_the_sum_of_fills(fills: Seq<Fill>)
    requires
        adds_up_exactly(fills),
    ensures
        filled_total(fills) matches Some(total) && units(total) == amount(fills),
    decreases fills.len(),
{
    if fills.len() > 0 {
        law_filled_is_the_sum_of_fills(fills.drop_last());
    }
}

/// What remains of an order is its quantity less all of its fills; an order that more is
/// filled of than it asks for is an error.
pub proof fn law_remaining_is_what_is_not_filled(record: OrderRecord)
    requires
        adds_up_exactly(record.fills@),
        subtracts_exactly(record.core.qty@, filled_total(record.fills@)->0),
    ensures
        ({
            let left = units(record.core.qty@) - amount(record.fills@);
            &&& left >= 0 ==> (remaining_of(record) matches Some(Ok(n)) && units(n) == left)
            &&& left < 0 ==> (remaining_of(record) matches Some(Err(f)) && (
            f matches EngineFault::InvalidTransition(why) && exists|over: Num|
                units(over) == -left && why == "order "@ + record.core.id@ + " overfilled by "@
                    + #[trigger] num_text(over)))
        }),
{
    law_filled_is_the_sum_of_fills(record.fills@);
    let rest = crate::decimal::num_sub(record.core.qty@, filled_total(record.fills@)->0)->0;
    crate::decimal::lemma_units_sign(rest);
    crate::decimal::lemma_units_of_signed(rest);
    assert(num_text(num_abs(rest)) == num_text(num_abs(rest)));
}

/// A fill that the core takes in is reported once, with its own order, quantity, price and
/// fee: as partial with what remains of the order where that is what the core holds of it, as
/// full where the order is filled. Of an order that is not held, or in any other state, it is
/// an error; and the core's error is passed on.
pub proof fn law_fill_is_reported(
    state: EngineState,
    fill: Fill,
    said: Result<(), EngineError>,
    sequence_id: SequenceId,
    r: Result<CommandOutcome, EngineError>,
)
    requires
        fill_concluded(state, fill, said, sequence_id, r),
    ensures
        said matches Err(e) ==> r == Err::<CommandOutcome, EngineError>(e),
        said is Ok && !state.orders@.contains_key(fill.order_id@) ==> (r matches Err(e) && e@
            == EngineFault::OrderNotFound(fill.order_id@)),
        said is Ok && state.orders@.contains_key(fill.order_id@) ==> {
            let record = state.orders@[fill.order_id@];
            let remaining = remaining_of(record);
            &&& r is Ok <==> (remaining matches Some(Ok(_))) && (record.state is PartiallyFilled
                || record.state is Filled)
            &&& r matches Ok(o) ==> {
                &&& o.state_mutated
                &&& o.reply is Nothing
                &&& o.events@.len() == 1
                &&& record.state is PartiallyFilled ==> (
                o.events@[0] matches EngineEvent::OrderPartiallyFilled {
                    order_id,
                    filled_qty,
                    remaining_qty,
                    price,
                    fee,
                } && order_id == fill.order_id && filled_qty == fill.qty && price == fill.price
                    && fee == fill.fee && remaining == Some(
                    Ok::<Num, EngineFault>(remaining_qty@),
                ))
                &&& record.state is Filled ==> (o.events@[0] matches EngineEvent::OrderFilled {
                    order_id,
                    filled_qty,
                    price,
                    fee,
                } && order_id == fill.order_id && filled_qty == fill.qty && price == fill.price
                    && fee == fill.fee)
            }
        },
{
}

// ─── Reconciliation ───

/// The event that corrects a divergent position.
pub open spec fn correction(report: ReconciliationReport, d: PositionDivergence) -> EngineEvent {
    EngineEvent::PositionCorrected {
        instrument_id: d.instrument,
        venue_id: report.venue_id,
        old_qty: d.engine_qty,
        new_qty: d.venue_qty,
    }
}

/// A reconciliation corrects each position whose venue is to be believed, in order, from what
/// the engine held to what the venue says, and no other; then it reports that it is done and
/// how many divergences it found, positions, orders and balance together.
pub proof fn law_reconciliation_is_reported(report: ReconciliationReport)
    ensures
        ({
            let events = reconciliation_report(report);
            let believed = report.position_divergences@.filter(
                |d: PositionDivergence| d.action is AcceptVenue,
            );
            let found = report.position_divergences@.len() + report.order_divergences@.len() + (
            if report.balance_divergence is Some {
                1nat
            } else {
                0nat
            });
            &&& events.len() == believed.len() + 1
            &&& forall|i: int|
                0 <= i < believed.len() ==> #[trigger] events[i] == correction(report, believed[i])
            &&& events.last() matches EngineEvent::ReconciliationCompleted {
                venue_id,
                divergences_found,
            } && venue_id == report.venue_id && (found <= u32::MAX ==> divergences_found == found)
                && (found > u32::MAX ==> divergences_found == u32::MAX)
        }),
{
    lemma_corrections(report, report.position_divergences@);
}

/// The corrections are those of the believed divergences.
proof fn lemma_corrections(report: ReconciliationReport, found: Seq<PositionDivergence>)
    ensures
        ({
            let believed = found.filter(|d: PositionDivergence| d.action is AcceptVenue);
            &&& corrections(report, found).len() == believed.len()
            &&& forall|i: int|
                0 <= i < believed.len() ==> #[trigger] corrections(report, found)[i] == correction(
                    report,
                    believed[i],
                )
        }),
    decreases found.len(),
{
    reveal(Seq::filter);
    if found.len() > 0 {
        lemma_corrections(report, found.drop_last());
    }
}

// ─── Commands to the core ───

/// What comes of a request to the core follows from its answer: where it agrees, the state
/// has changed and the events are reported, without a reply; where it does not, its error is
/// passed on.
pub proof fn law_core_decides(
    said: Result<(), EngineError>,
    events: Seq<EngineEvent>,
    r: Result<CommandOutcome, EngineError>,
)
    requires
        follows(said, events, r),
    ensures
        r is Ok <==> said is Ok,
        r matches Err(e) ==> said == Err::<(), EngineError>(e),
        r matches Ok(o) ==> o.events@ == events && o.state_mutated && o.reply is Nothing,
{
}

/// What came of a command: all that was there before and after.
pub struct Handling<C: EngineCore, P: PriceSource> {
    pub command: SequencerCommand,
    pub before: C,
    pub after: C,
    pub prices: P,
    pub cached: EngineStateSnapshot,
    pub generators: Map<Seq<char>, ClientOrderIdGenerator>,
    pub generators_after: Map<Seq<char>, ClientOrderIdGenerator>,
    pub restart_epoch: u16,
    pub sequence_id: SequenceId,
    pub now: Timestamp,
    pub r: Result<CommandOutcome, EngineError>,
}

/// Whether this is how the command is to be handled.
pub open spec fn is_right<C: EngineCore, P: PriceSource>(h: Handling<C, P>) -> bool {
    handled(
        h.command,
        h.before,
        h.after,
        h.prices,
        h.cached,
        h.generators,
        h.generators_after,
        h.restart_epoch,
        h.sequence_id,
        h.now,
        h.r,
    )
}

/// Whether the core was asked this, changed as it may, and what is reported is one event; or
/// it refused, and its error is passed on.
pub open spec fn asked_and_reported<C: EngineCore, P: PriceSource>(
    h: Handling<C, P>,
    request: CoreRequest,
    event: EngineEvent,
) -> bool {
    exists|said: Result<(), EngineError>|
        {
            &&& #[trigger] h.before.may_answer(request, said, h.after)
            &&& said matches Err(e) ==> h.r == Err::<CommandOutcome, EngineError>(e)
            &&& said is Ok ==> (h.r matches Ok(o) && o.state_mutated && o.events@.len() == 1
                && o.events@[0] == event && o.reply is Nothing)
        }
}

/// Pausing and resuming an agent, halting all and resetting a breaker ask the core exactly
/// that, of the agent and for the reason that the command names, and report it.
pub proof fn law_orders_to_the_core<C: EngineCore, P: PriceSource>(h: Handling<C, P>)
    requires
        is_right(h),
    ensures
        h.command matches SequencerCommand::PauseAgent { agent, reason } ==> asked_and_reported(
            h,
            (CoreRequest::Pause { agent, reason, now: h.now }),
            (EngineEvent::AgentPaused { agent_id: agent, reason }),
        ),
        h.command matches SequencerCommand::ResumeAgent { agent } ==> asked_and_reported(
            h,
            (CoreRequest::Resume { agent, now: h.now }),
            (EngineEvent::AgentResumed { agent_id: agent }),
        ),
        h.command matches SequencerCommand::HaltAll { reason } ==> asked_and_reported(
            h,
            (CoreRequest::Halt { reason, now: h.now }),
            (EngineEvent::EngineHalted { reason }),
        ),
        h.command matches SequencerCommand::ResetCircuitBreaker { breaker_id }
            ==> asked_and_reported(
            h,
            (CoreRequest::ResetBreaker { now: h.now }),
            (EngineEvent::CircuitBreakerReset { breaker_id }),
        ),
{
}

/// New limits are the core's to take: it is asked with the command's agent and limits, what
/// it says is the answer, and the state has changed exactly where it agrees.
pub proof fn law_limits_are_the_cores<C: EngineCore, P: PriceSource>(h: Handling<C, P>)
    requires
        is_right(h),
        h.command is AdjustLimits,
    ensures
        h.command matches SequencerCommand::AdjustLimits { agent, limits } && exists|
            said: Result<(), EngineError>,
        |
            {
                &&& #[trigger] h.before.may_answer(
                    (CoreRequest::Adjust { agent, limits }),
                    said,
                    h.after,
                )
                &&& h.r matches Ok(o) && o.reply == Reply::Limits(said) && o.events@.len() == 0
                    && (o.state_mutated <==> said is Ok)
            },
{
}

/// Looking at the snapshot, stopping and sending a signal change nothing and report nothing.
/// A signal is answered with an error: it has to come as an order.
pub proof fn law_questions_change_nothing<C: EngineCore, P: PriceSource>(h: Handling<C, P>)
    requires
        is_right(h),
        h.command is Snapshot || h.command is Shutdown || h.command is SubmitSignal,
    ensures
        h.after == h.before,
        h.generators_after == h.generators,
        h.r matches Ok(o) && {
            &&& o.events@.len() == 0
            &&& !o.state_mutated
            &&& h.command is Snapshot ==> (o.reply matches Reply::Snapshot(copy)
                && copy.sequence_id == h.cached.sequence_id && copy.snapshot_at
                == h.cached.snapshot_at && copy.state.orders@.dom() == h.cached.state.orders@.dom()
                && copy.state.idempotency_cache@ == h.cached.state.idempotency_cache@)
            &&& h.command is Shutdown ==> o.reply is Stop
            &&& h.command is SubmitSignal ==> (o.reply matches Reply::Signal(Err(e))
                && e is UnsupportedCommand)
        },
{
}

/// Every event is persisted in order, under the number and at the time of its command.
pub proof fn law_events_are_stamped(
    events: Seq<SequencedEvent<EngineEvent>>,
    plain: Seq<EngineEvent>,
    sequence_id: SequenceId,
    now: Timestamp,
    i: int,
)
    requires
        stamped(events, plain, sequence_id, now),
        0 <= i < plain.len(),
    ensures
        events.len() == plain.len(),
        events[i].event == plain[i],
        events[i].sequence_id == sequence_id,
        events[i].timestamp == now,
{
    assert(events[i].event == plain[i]);
}

// ─── Starting ───

/// There is something to replay exactly where the journal goes beyond the latest snapshot, or
/// holds anything while there is none.
pub proof fn law_tail(latest: Option<SequenceId>, journal: SequenceId, empty: bool)
    ensures
        latest matches Some(at) ==> (has_tail(latest, journal, empty) <==> at.0 < journal.0),
        latest is None ==> (has_tail(latest, journal, empty) <==> !empty),
{
}

/// A sequencer starts only where the core agrees, nothing is left to replay, and every
/// acknowledgment names its agent and sequence. It counts on from the snapshot, or without
/// one from the core's own number, and holds the core as it is.
pub proof fn law_start<C: EngineCore, P: PriceSource>(
    core: C,
    said: Result<(), EngineError>,
    prices: P,
    latest: Option<(SequenceId, EngineStateSnapshot)>,
    journal_sequence: SequenceId,
    journal_is_empty: bool,
    restart_epoch: u16,
    r: Result<Sequencer<C, P>, EngineError>,
)
    requires
        started(
            core,
            said,
            prices,
            latest,
            journal_sequence,
            journal_is_empty,
            restart_epoch,
            r,
        ),
    ensures
        said matches Err(e) ==> r == Err::<Sequencer<C, P>, EngineError>(e),
        ({
            let behind = match latest {
                Some((at, _)) => at.0 < journal_sequence.0,
                None => !journal_is_empty,
            };
            &&& said is Ok && behind ==> (r matches Err(e) && e@ is Journal)
            &&& r is Ok <==> said is Ok && !behind && next_sequences(
                core.held().idempotency_cache.listed(),
            ) is Ok
        }),
        r matches Ok(s) ==> {
            &&& s.core == core
            &&& s.prices == prices
            &&& s.restart_epoch == restart_epoch
            &&& latest matches Some((at, snapshot)) ==> s.sequence_gen.upcoming() == at.0 + 1
                && s.snapshot_cache == snapshot
            &&& latest is None ==> s.sequence_gen.upcoming() == core.held().last_sequence_id.0 + 1
                && s.snapshot_cache.sequence_id == core.held().last_sequence_id
                && s.snapshot_cache.snapshot_at == core.held().last_updated
            &&& forall|agent: Seq<char>| #[trigger]
                s.client_order_id_generators@.contains_key(agent) ==> {
                    let g = s.client_order_id_generators@[agent];
                    let counts = next_sequences(core.held().idempotency_cache.listed())->Ok_0;
                    g.agent() == agent && g.epoch() == restart_epoch && counts.contains_key(agent)
                        && g.upcoming() == counts[agent]
                }
            &&& forall|agent: Seq<char>| #[trigger]
                next_sequences(core.held().idempotency_cache.listed())->Ok_0.contains_key(agent)
                    ==> s.client_order_id_generators@.contains_key(agent)
        },
{
    if let Ok(s) = r {
        let counts = next_sequences(core.held().idempotency_cache.listed())->Ok_0;
        assert forall|agent: Seq<char>| #[trigger]
            s.client_order_id_generators@.contains_key(agent) implies counts.contains_key(agent) by {
            assert(counts.dom().contains(agent));
        }
        assert forall|agent: Seq<char>| #[trigger] counts.contains_key(agent) implies
            s.client_order_id_generators@.contains_key(agent) by {
            assert(s.client_order_id_generators@.dom().contains(agent));
        }
    }
}

/// The restored count of an agent is one above the highest sequence that it has used: it is
/// the count after one of its identifiers, and only agents with an identifier have one.
pub proof fn law_restored_sequence_is_the_next(acks: Seq<(String, OrderAck)>, agent: Seq<char>)
    requires
        next_sequences(acks) is Ok,
        next_sequences(acks)->Ok_0.contains_key(agent),
    ensures
        exists|i: int|
            {
                &&& 0 <= i < acks.len()
                &&& embedded_agent((#[trigger] acks[i]).1.client_order_id@) == agent
                &&& embedded_sequence(acks[i].1.client_order_id@) matches Some(n)
                    && next_sequences(acks)->Ok_0[agent] == n + 1
            },
    decreases acks.len(),
{
    let (rest, n) = (acks.drop_last(), acks.len() - 1);
    let before = next_sequences(rest)->Ok_0;
    let client = acks[n].1.client_order_id@;
    if before.contains_key(agent) && before[agent] == next_sequences(acks)->Ok_0[agent] {
        law_restored_sequence_is_the_next(rest, agent);
        let i = choose|i: int|
            {
                &&& 0 <= i < rest.len()
                &&& embedded_agent((#[trigger] rest[i]).1.client_order_id@) == agent
                &&& embedded_sequence(rest[i].1.client_order_id@) matches Some(n) && before[agent]
                    == n + 1
            };
        assert(acks[i] == rest[i]);
    } else {
        assert(embedded_agent(acks[n].1.client_order_id@) == agent);
    }
}

/// Counts are restored exactly where every acknowledged identifier has the form of one and a
/// sequence that can be counted on from.
pub proof fn law_what_can_be_restored(acks: Seq<(String, OrderAck)>)
    ensures
        next_sequences(acks) is Ok <==> forall|i: int|
            0 <= i < acks.len() ==> is_client_order_id((#[trigger] acks[i]).1.client_order_id@) && (
            embedded_sequence(acks[i].1.client_order_id@) matches Some(n) && n < u64::MAX),
    decreases acks.len(),
{
    if acks.len() > 0 {
        let (rest, n) = (acks.drop_last(), acks.len() - 1);
        law_what_can_be_restored(rest);
        assert(forall|i: int| 0 <= i < n ==> #[trigger] rest[i] == acks[i]);
        assert(acks.last() == acks[n]);
        if next_sequences(rest) is Ok {
            assert forall|i: int| 0 <= i < n implies is_client_order_id(
                (#[trigger] acks[i]).1.client_order_id@,
            ) && (embedded_sequence(acks[i].1.client_order_id@) matches Some(n) && n < u64::MAX) by {
                assert(rest[i] == acks[i]);
            }
        } else {
            let i = choose|i: int|
                0 <= i < rest.len() && !(is_client_order_id(
                    (#[trigger] rest[i]).1.client_order_id@,
                ) && (embedded_sequence(rest[i].1.client_order_id@) matches Some(n) && n
                    < u64::MAX));
            assert(acks[i] == rest[i]);
        }
    }
}

} // verus!
