//! The sequencer: one command at a time, each under its own sequence number.
//!
//! A command is handled by [`Sequencer::process`], which says what to answer and what to
//! persist. Once that has been persisted, [`Sequencer::committed`] makes it the current
//! state. Receiving commands, answering them and persisting is left to the caller.

use crate::decimal::{num_text, num_abs, num_zero, o_add, o_sub, Decimal, Num};
use crate::engine::{
    engine_fault_text, same_business, same_snapshot, same_state, CoreRequest, EngineCore, EngineError,
    EngineFault, EngineState, EngineStateSnapshot, OrderAck, OrderRecord, SequenceGenerator,
    SequencerCommand, SignalAck,
};
use crate::event::{EngineEvent, RiskOutcomeKind, SequencedEvent};
use crate::ids::{
    client_order_text, embedded_agent, embedded_sequence, is_client_order_id,
    law_client_order_id_agent, law_client_order_id_round_trip, sequence_text, AgentId,
    ClientOrderId, ClientOrderIdGenerator, OrderId, SequenceId,
};
use crate::pipeline::{
    order_state_text, Fill, OrderCore, OrderState, PipelineOrder, RiskChecked, Validated,
};
use crate::pnl::PriceSource;
use crate::reconciliation::{
    divergences, PositionDivergence, ReconciliationAction, ReconciliationReport,
};
use crate::table::Table;
use crate::text::{joined3, joined4};
use crate::time::{Timestamp, NANOS_PER_MILLI};
use vstd::prelude::*;

verus! {

/// Commands that go before others may wait in this number.
pub const HIGH_PRIORITY_CHANNEL_CAPACITY: usize = 64;

/// Other commands may wait in this number.
pub const COMMAND_CHANNEL_CAPACITY: usize = 1024;

/// The channel that a command waits in.
#[derive(Debug, Clone, Copy, PartialEq, Eq, Structural)]
pub enum CommandLane {
    HighPriority,
    Normal,
}

/// The channel that a command is sent to.
pub fn lane_for(command: &SequencerCommand) -> (r: CommandLane)
    ensures
        r is HighPriority <==> (command is OnFill || command is OnReconciliation
            || command is HaltAll || command is ResetCircuitBreaker || command is Shutdown),
{
    if command.is_high_priority() {
        CommandLane::HighPriority
    } else {
        CommandLane::Normal
    }
}

/// The channel that the next command is taken from: other commands wait while one of high
/// priority does.
pub fn next_lane(high_priority_waits: bool, normal_waits: bool) -> (r: Option<CommandLane>)
    ensures
        r == (if high_priority_waits {
            Some(CommandLane::HighPriority)
        } else if normal_waits {
            Some(CommandLane::Normal)
        } else {
            None
        }),
{
    if high_priority_waits {
        Some(CommandLane::HighPriority)
    } else if normal_waits {
        Some(CommandLane::Normal)
    } else {
        None
    }
}

// ─── Orders ───

/// The acknowledgment of an order that has been accepted before.
pub open spec fn existing_ack(state: EngineState, order_id: Seq<char>) -> Option<OrderAck> {
    if state.orders@.contains_key(order_id) {
        let client = state.orders@[order_id].client_order_id@;
        if state.idempotency_cache@.contains_key(client) {
            Some(state.idempotency_cache@[client])
        } else {
            None
        }
    } else {
        None
    }
}

/// The acknowledgment of an order that has been accepted before.
pub fn find_existing_ack(state: &EngineState, order_id: &OrderId) -> (r: Option<OrderAck>)
    ensures
        r == existing_ack(*state, order_id@),
{
    match state.orders.get(order_id.as_str()) {
        Some(record) => match state.idempotency_cache.get(record.client_order_id.as_str()) {
            Some(ack) => Some(ack.clone()),
            None => None,
        },
        None => None,
    }
}

/// The sequence of the next client order identifier of an agent.
pub open spec fn upcoming_for(
    generators: Map<Seq<char>, ClientOrderIdGenerator>,
    agent: Seq<char>,
) -> u64 {
    if generators.contains_key(agent) {
        generators[agent].upcoming()
    } else {
        0
    }
}

/// Whether generators are kept under their own agents and count under an epoch.
pub open spec fn generators_fit(
    generators: Map<Seq<char>, ClientOrderIdGenerator>,
    restart_epoch: u16,
) -> bool {
    forall|k: Seq<char>| #[trigger]
        generators.contains_key(k) ==> generators[k].agent() == k && generators[k].epoch()
            == restart_epoch
}

/// Whether generators have moved on by one identifier of an agent.
pub open spec fn moved_on(
    before: Map<Seq<char>, ClientOrderIdGenerator>,
    after: Map<Seq<char>, ClientOrderIdGenerator>,
    agent: Seq<char>,
    restart_epoch: u16,
) -> bool {
    let given = upcoming_for(before, agent);
    &&& after == before.insert(agent, after[agent])
    &&& after[agent].agent() == agent
    &&& after[agent].epoch() == restart_epoch
    &&& after[agent].upcoming() == (if given == u64::MAX {
        0
    } else {
        (given + 1) as u64
    })
}

/// The next client order identifier of an agent.
pub fn next_client_order_id(
    generators: &mut Table<ClientOrderIdGenerator>,
    agent: &AgentId,
    restart_epoch: u16,
    now: Timestamp,
) -> (r: ClientOrderId)
    ensures
        r@ == client_order_text(
            agent@,
            now@ / NANOS_PER_MILLI as int,
            upcoming_for(old(generators)@, agent@) as nat,
            restart_epoch as nat,
        ),
        moved_on(old(generators)@, final(generators)@, agent@, restart_epoch),
{
    let start: u64 = match generators.get(agent.as_str()) {
        Some(g) => g.current_seq(),
        None => 0,
    };
    let mut generator = ClientOrderIdGenerator::with_start_seq(agent, restart_epoch, start);
    let id = generator.next(now);
    generators.insert(agent.text(), generator);
    id
}

// ─── Outcomes ───

/// What a command is answered with.
#[derive(Debug)]
pub enum Reply {
    /// Nobody waits for an answer.
    Nothing,
    Order(Result<OrderAck, EngineError>),
    Signal(Result<SignalAck, EngineError>),
    Limits(Result<(), EngineError>),
    Snapshot(EngineStateSnapshot),
    /// The sequencer is to stop once what waits has been handled.
    Stop,
}

/// What came of a command.
#[derive(Debug)]
pub struct CommandOutcome {
    pub events: Vec<EngineEvent>,
    pub state_mutated: bool,
    pub reply: Reply,
}

impl CommandOutcome {
    /// An answer, and nothing else.
    pub fn answer(reply: Reply) -> (r: CommandOutcome)
        ensures
            r.events@.len() == 0,
            !r.state_mutated,
            r.reply == reply,
    {
        CommandOutcome { events: Vec::new(), state_mutated: false, reply }
    }

    /// A change of state with its events.
    pub fn mutated(events: Vec<EngineEvent>) -> (r: CommandOutcome)
        ensures
            r.events == events,
            r.state_mutated,
            r.reply is Nothing,
    {
        CommandOutcome { events, state_mutated: true, reply: Reply::Nothing }
    }
}

/// What came of a command to the core that has one event: the event, if the core carried
/// it out, or the core's error.
pub fn after_core(result: Result<(), EngineError>, event: EngineEvent) -> (r: Result<
    CommandOutcome,
    EngineError,
>)
    ensures
        follows(result, seq![event], r),
{
    match result {
        Ok(_) => {
            let mut events: Vec<EngineEvent> = Vec::new();
            events.push(event);
            assert(events@ =~= seq![event]);
            Ok(CommandOutcome::mutated(events))
        },
        Err(e) => Err(e),
    }
}

/// Whether an outcome and a change of state are those of an accepted order.
pub open spec fn accepted(
    before: EngineState,
    after: EngineState,
    generators: Map<Seq<char>, ClientOrderIdGenerator>,
    generators_after: Map<Seq<char>, ClientOrderIdGenerator>,
    restart_epoch: u16,
    request: OrderCore,
    checked: OrderCore,
    now: Timestamp,
    o: CommandOutcome,
) -> bool {
    let id = request.id@;
    let client = client_order_text(
        request.agent_id@,
        now@ / NANOS_PER_MILLI as int,
        upcoming_for(generators, request.agent_id@) as nat,
        restart_epoch as nat,
    );
    &&& o.reply matches Reply::Order(Ok(ack)) && {
        &&& ack.order_id == request.id
        &&& ack.client_order_id@ == client
        &&& ack.accepted_at == now
        &&& after.idempotency_cache@ == before.idempotency_cache@.insert(client, ack)
        &&& after.orders@[id].client_order_id == ack.client_order_id
    }
    &&& after.orders@ == before.orders@.insert(id, after.orders@[id])
    &&& after.orders@[id].core == checked
    &&& after.orders@[id].state is Pending
    &&& after.orders@[id].fills@.len() == 0
    &&& after.orders@[id].created_at == now
    &&& after.orders@[id].last_updated == now
    &&& after == (EngineState {
        orders: after.orders,
        idempotency_cache: after.idempotency_cache,
        ..before
    })
    &&& moved_on(generators, generators_after, request.agent_id@, restart_epoch)
    &&& o.state_mutated
    &&& o.events@ == seq![
        EngineEvent::OrderReceived {
            order_id: request.id,
            agent_id: request.agent_id,
            instrument_id: request.instrument_id,
            venue_id: request.venue_id,
        },
        EngineEvent::OrderValidated { order_id: request.id },
        EngineEvent::OrderRiskChecked {
            order_id: request.id,
            outcome: RiskOutcomeKind::Approved,
        },
    ]
}

/// Whether an outcome is that of an order that the core refused.
pub open spec fn refused(request: OrderCore, why: EngineError, o: CommandOutcome) -> bool {
    &&& o.reply == Reply::Order(Err(why))
    &&& !o.state_mutated
    &&& o.events@.len() == 1
    &&& o.events@[0] matches EngineEvent::OrderRejected { order_id, stage, reason } && order_id
        == request.id && stage@ == "risk"@ && reason@ == engine_fault_text(why@)
}

/// Whether an outcome and a change of state follow from how the core judged an order:
/// accepted, or refused with nothing changed.
pub open spec fn order_concluded(
    judged: EngineState,
    after: EngineState,
    generators: Map<Seq<char>, ClientOrderIdGenerator>,
    generators_after: Map<Seq<char>, ClientOrderIdGenerator>,
    restart_epoch: u16,
    request: OrderCore,
    verdict: Result<PipelineOrder<RiskChecked>, EngineError>,
    now: Timestamp,
    o: CommandOutcome,
) -> bool {
    match verdict {
        Ok(checked) => accepted(
            judged,
            after,
            generators,
            generators_after,
            restart_epoch,
            request,
            checked.order(),
            now,
            o,
        ),
        Err(why) => {
            &&& after == judged
            &&& generators_after == generators
            &&& refused(request, why, o)
        },
    }
}

/// What comes of an order once the core has judged it: an accepted order is recorded under
/// a fresh client order identifier and acknowledged, a refused one is reported.
pub fn conclude_order(
    state: &mut EngineState,
    generators: &mut Table<ClientOrderIdGenerator>,
    restart_epoch: u16,
    request: &OrderCore,
    verdict: Result<PipelineOrder<RiskChecked>, EngineError>,
    now: Timestamp,
) -> (o: CommandOutcome)
    ensures
        order_concluded(
            *old(state),
            *final(state),
            old(generators)@,
            final(generators)@,
            restart_epoch,
            *request,
            verdict,
            now,
            o,
        ),
{
    match verdict {
        Ok(checked) => {
            let client_order_id = next_client_order_id(
                generators,
                &request.agent_id,
                restart_epoch,
                now,
            );
            let ack = OrderAck {
                order_id: request.id.clone(),
                client_order_id: client_order_id.clone(),
                accepted_at: now,
            };
            let record = OrderRecord {
                core: checked.into_core(),
                state: OrderState::Pending,
                client_order_id: client_order_id.clone(),
                fills: Vec::new(),
                created_at: now,
                last_updated: now,
            };
            state.orders.insert(request.id.text(), record);
            state.idempotency_cache.insert(client_order_id.text(), ack.clone());
            let mut events: Vec<EngineEvent> = Vec::new();
            events.push(
                EngineEvent::OrderReceived {
                    order_id: request.id.clone(),
                    agent_id: request.agent_id.clone(),
                    instrument_id: request.instrument_id.clone(),
                    venue_id: request.venue_id.clone(),
                },
            );
            events.push(EngineEvent::OrderValidated { order_id: request.id.clone() });
            events.push(
                EngineEvent::OrderRiskChecked {
                    order_id: request.id.clone(),
                    outcome: RiskOutcomeKind::Approved,
                },
            );
            assert(events@ =~= seq![
                EngineEvent::OrderReceived {
                    order_id: request.id,
                    agent_id: request.agent_id,
                    instrument_id: request.instrument_id,
                    venue_id: request.venue_id,
                },
                EngineEvent::OrderValidated { order_id: request.id },
                EngineEvent::OrderRiskChecked {
                    order_id: request.id,
                    outcome: RiskOutcomeKind::Approved,
                },
            ]);
            CommandOutcome { events, state_mutated: true, reply: Reply::Order(Ok(ack)) }
        },
        Err(why) => {
            let mut events: Vec<EngineEvent> = Vec::new();
            events.push(
                EngineEvent::OrderRejected {
                    order_id: request.id.clone(),
                    stage: "risk".to_owned(),
                    reason: why.text(),
                },
            );
            CommandOutcome { events, state_mutated: false, reply: Reply::Order(Err(why)) }
        },
    }
}

/// An accepted order is known from then on: handing it in again gives the same
/// acknowledgment.
pub proof fn law_accepted_order_is_known(
    before: EngineState,
    after: EngineState,
    generators: Map<Seq<char>, ClientOrderIdGenerator>,
    generators_after: Map<Seq<char>, ClientOrderIdGenerator>,
    restart_epoch: u16,
    request: OrderCore,
    checked: OrderCore,
    now: Timestamp,
    o: CommandOutcome,
)
    requires
        accepted(
            before,
            after,
            generators,
            generators_after,
            restart_epoch,
            request,
            checked,
            now,
            o,
        ),
    ensures
        existing_ack(after, request.id@) is Some,
        o.reply == Reply::Order(Ok(existing_ack(after, request.id@)->0)),
{
}

// ─── Fills ───

/// The quantity of all fills; `None` where it exceeds the range.
pub open spec fn filled_total(fills: Seq<Fill>) -> Option<Num>
    decreases fills.len(),
{
    if fills.len() == 0 {
        Some(num_zero())
    } else {
        o_add(filled_total(fills.drop_last()), Some(fills.last().qty@))
    }
}

/// What remains of an order, or by how much it is overfilled. `None` where a number
/// exceeds its range.
pub open spec fn remaining_of(record: OrderRecord) -> Option<Result<Num, EngineFault>> {
    match o_sub(Some(record.core.qty@), filled_total(record.fills@)) {
        Some(remaining) => if remaining.m < 0 {
            Some(
                Err(
                    EngineFault::InvalidTransition(
                        "order "@ + record.core.id@ + " overfilled by "@ + num_text(
                            num_abs(remaining),
                        ),
                    ),
                ),
            )
        } else {
            Some(Ok(remaining))
        },
        None => None,
    }
}

/// A total that is missing for the leading fills is missing for all.
proof fn lemma_missing_fills(fills: Seq<Fill>, n: int)
    requires
        0 <= n <= fills.len(),
        filled_total(fills.take(n)) is None,
    ensures
        filled_total(fills) is None,
    decreases fills.len(),
{
    if n < fills.len() {
        assert(fills.drop_last().take(n) =~= fills.take(n));
        lemma_missing_fills(fills.drop_last(), n);
    } else {
        assert(fills.take(n) =~= fills);
    }
}

/// What remains of an order, if every number stays in range.
pub fn checked_remaining_qty(record: &OrderRecord) -> (r: Option<Result<Decimal, EngineError>>)
    ensures
        match (r, remaining_of(*record)) {
            (None, None) => true,
            (Some(Ok(d)), Some(Ok(n))) => d@ == n,
            (Some(Err(e)), Some(Err(f))) => e@ == f,
            _ => false,
        },
{
    let mut filled = Decimal::zero();
    let mut i: usize = 0;
    while i < record.fills.len()
        invariant
            i <= record.fills@.len(),
            filled_total(record.fills@.take(i as int)) == Some(filled@),
        decreases record.fills@.len() - i,
    {
        assert(record.fills@.take(i + 1).drop_last() =~= record.fills@.take(i as int));
        match filled.checked_add(record.fills[i].qty) {
            Some(next) => {
                filled = next;
            },
            None => {
                proof {
                    lemma_missing_fills(record.fills@, i + 1);
                }
                return None;
            },
        }
        i = i + 1;
    }
    assert(record.fills@.take(i as int) =~= record.fills@);
    let remaining = record.core.qty.checked_sub(filled)?;
    if remaining.is_negative() {
        return Some(
            Err(
                EngineError::InvalidTransition(
                    joined4(
                        "order ",
                        record.core.id.as_str(),
                        " overfilled by ",
                        remaining.abs().text().as_str(),
                    ),
                ),
            ),
        );
    }
    Some(Ok(remaining))
}

/// What remains of an order.
pub fn remaining_qty(record: &OrderRecord) -> (r: Result<Decimal, EngineError>)
    requires
        remaining_of(*record) is Some,
    ensures
        match (r, remaining_of(*record)->0) {
            (Ok(d), Ok(n)) => d@ == n,
            (Err(e), Err(f)) => e@ == f,
            _ => false,
        },
{
    checked_remaining_qty(record).unwrap()
}

/// What is reported of a fill.
pub enum FillReport {
    Partial { remaining: Num },
    Full,
}

/// What is reported of a fill once the core has taken it in, from the order's record.
/// `None` where a number exceeds its range.
pub open spec fn fill_report(state: EngineState, fill: Fill) -> Option<
    Result<FillReport, EngineFault>,
> {
    if !state.orders@.contains_key(fill.order_id@) {
        Some(Err(EngineFault::OrderNotFound(fill.order_id@)))
    } else {
        let record = state.orders@[fill.order_id@];
        match remaining_of(record) {
            None => None,
            Some(Err(f)) => Some(Err(f)),
            Some(Ok(remaining)) => match record.state {
                OrderState::PartiallyFilled => Some(Ok(FillReport::Partial { remaining })),
                OrderState::Filled => Some(Ok(FillReport::Full)),
                _ => Some(
                    Err(
                        EngineFault::InvalidTransition(
                            "fill for order "@ + fill.order_id@ + " left state "@
                                + order_state_text(record.state),
                        ),
                    ),
                ),
            },
        }
    }
}

/// Whether an event reports a fill.
pub open spec fn reports_fill(event: EngineEvent, fill: Fill, report: FillReport) -> bool {
    match report {
        FillReport::Partial { remaining } => event matches EngineEvent::OrderPartiallyFilled {
            order_id,
            filled_qty,
            remaining_qty,
            price,
            fee,
        } && order_id == fill.order_id && filled_qty == fill.qty && remaining_qty@ == remaining
            && price == fill.price && fee == fill.fee,
        FillReport::Full => event == EngineEvent::OrderFilled {
            order_id: fill.order_id,
            filled_qty: fill.qty,
            price: fill.price,
            fee: fill.fee,
        },
    }
}

/// What is reported of a fill once the core has taken it in.
pub fn fill_event(state: &EngineState, fill: &Fill) -> (r: Option<Result<EngineEvent, EngineError>>)
    ensures
        match (r, fill_report(*state, *fill)) {
            (None, None) => true,
            (Some(Ok(event)), Some(Ok(report))) => reports_fill(event, *fill, report),
            (Some(Err(e)), Some(Err(f))) => e@ == f,
            _ => false,
        },
{
    let record = match state.orders.get(fill.order_id.as_str()) {
        Some(record) => record,
        None => {
            return Some(Err(EngineError::OrderNotFound(fill.order_id.text())));
        },
    };
    let remaining_qty = match checked_remaining_qty(record)? {
        Ok(q) => q,
        Err(e) => {
            return Some(Err(e));
        },
    };
    match record.state {
        OrderState::PartiallyFilled => Some(
            Ok(
                EngineEvent::OrderPartiallyFilled {
                    order_id: fill.order_id.clone(),
                    filled_qty: fill.qty,
                    remaining_qty,
                    price: fill.price,
                    fee: fill.fee,
                },
            ),
        ),
        OrderState::Filled => Some(
            Ok(
                EngineEvent::OrderFilled {
                    order_id: fill.order_id.clone(),
                    filled_qty: fill.qty,
                    price: fill.price,
                    fee: fill.fee,
                },
            ),
        ),
        _ => Some(
            Err(
                EngineError::InvalidTransition(
                    joined4(
                        "fill for order ",
                        fill.order_id.as_str(),
                        " left state ",
                        record.state.text(),
                    ),
                ),
            ),
        ),
    }
}

// ─── Reconciliation ───

/// The corrections among position divergences: those where the venue is to be believed.
pub open spec fn corrections(report: ReconciliationReport, found: Seq<PositionDivergence>) -> Seq<
    EngineEvent,
>
    decreases found.len(),
{
    if found.len() == 0 {
        seq![]
    } else {
        let before = corrections(report, found.drop_last());
        if found.last().action is AcceptVenue {
            before.push(
                EngineEvent::PositionCorrected {
                    instrument_id: found.last().instrument,
                    venue_id: report.venue_id,
                    old_qty: found.last().engine_qty,
                    new_qty: found.last().venue_qty,
                },
            )
        } else {
            before
        }
    }
}

/// What is reported of a reconciliation: the corrections, then that it is done and how
/// many divergences it found.
pub open spec fn reconciliation_report(report: ReconciliationReport) -> Seq<EngineEvent> {
    corrections(report, report.position_divergences@).push(
        EngineEvent::ReconciliationCompleted {
            venue_id: report.venue_id,
            divergences_found: if divergences(report) > u32::MAX {
                u32::MAX
            } else {
                divergences(report) as u32
            },
        },
    )
}

/// What is reported of a reconciliation.
pub fn reconciliation_events(report: &ReconciliationReport) -> (r: Vec<EngineEvent>)
    ensures
        r@ == reconciliation_report(*report),
{
    let mut events: Vec<EngineEvent> = Vec::new();
    let mut i: usize = 0;
    while i < report.position_divergences.len()
        invariant
            i <= report.position_divergences@.len(),
            events@ == corrections(*report, report.position_divergences@.take(i as int)),
        decreases report.position_divergences@.len() - i,
    {
        let found = &report.position_divergences[i];
        assert(report.position_divergences@.take(i + 1).drop_last()
            =~= report.position_divergences@.take(i as int));
        if found.action == ReconciliationAction::AcceptVenue {
            events.push(
                EngineEvent::PositionCorrected {
                    instrument_id: found.instrument.clone(),
                    venue_id: report.venue_id.clone(),
                    old_qty: found.engine_qty,
                    new_qty: found.venue_qty,
                },
            );
        }
        i = i + 1;
    }
    assert(report.position_divergences@.take(i as int) =~= report.position_divergences@);
    let count: u128 = report.position_divergences.len() as u128
        + report.order_divergences.len() as u128 + (if report.balance_divergence.is_some() {
        1u128
    } else {
        0u128
    });
    let divergences_found: u32 = if count > u32::MAX as u128 {
        u32::MAX
    } else {
        count as u32
    };
    events.push(
        EngineEvent::ReconciliationCompleted {
            venue_id: report.venue_id.clone(),
            divergences_found,
        },
    );
    events
}

// ─── Restart ───

/// The sequence after the one that a client order identifier holds.
pub open spec fn sequence_after(client: Seq<char>) -> Option<nat> {
    match embedded_sequence(client) {
        Some(n) => if n < u64::MAX {
            Some(n + 1)
        } else {
            None
        },
        None => None,
    }
}

/// For each agent the sequence after the highest that it has used, or what is wrong with
/// the first identifier from which no agent or no sequence can be read.
pub open spec fn next_sequences(acks: Seq<(String, OrderAck)>) -> Result<
    Map<Seq<char>, nat>,
    EngineFault,
>
    decreases acks.len(),
{
    if acks.len() == 0 {
        Ok(Map::empty())
    } else {
        let client = acks.last().1.client_order_id@;
        let agent = embedded_agent(client);
        match next_sequences(acks.drop_last()) {
            Err(f) => Err(f),
            Ok(before) => if !is_client_order_id(client) {
                Err(
                    EngineFault::Internal(
                        "persisted client_order_id "@ + client
                            + " is malformed: missing agent prefix"@,
                    ),
                )
            } else {
                match sequence_after(client) {
                    None => Err(
                        EngineFault::Internal(
                            "persisted client_order_id "@ + client
                                + " is malformed: missing or overflowing sequence"@,
                        ),
                    ),
                    Some(n) => if before.contains_key(agent) && before[agent] >= n {
                        Ok(before)
                    } else {
                        Ok(before.insert(agent, n))
                    },
                }
            },
        }
    }
}

/// Whether generators continue each agent's sequence under an epoch.
pub open spec fn continues(
    generators: Map<Seq<char>, ClientOrderIdGenerator>,
    sequences: Map<Seq<char>, nat>,
    restart_epoch: u16,
) -> bool {
    &&& generators.dom() == sequences.dom()
    &&& forall|k: Seq<char>| #[trigger]
        generators.contains_key(k) ==> generators[k].upcoming() == sequences[k]
            && generators[k].agent() == k && generators[k].epoch() == restart_epoch
}

/// A fault among the leading acknowledgments is the fault of all.
proof fn lemma_leading_ack_fault(acks: Seq<(String, OrderAck)>, n: int)
    requires
        0 <= n <= acks.len(),
        next_sequences(acks.take(n)) is Err,
    ensures
        next_sequences(acks) == next_sequences(acks.take(n)),
    decreases acks.len(),
{
    if n < acks.len() {
        assert(acks.drop_last().take(n) =~= acks.take(n));
        lemma_leading_ack_fault(acks.drop_last(), n);
    } else {
        assert(acks.take(n) =~= acks);
    }
}

/// The generators that continue the sequences of a state's acknowledgments.
pub fn restore_client_order_generators(state: &EngineState, restart_epoch: u16) -> (r: Result<
    Table<ClientOrderIdGenerator>,
    EngineError,
>)
    ensures
        match (r, next_sequences(state.idempotency_cache.listed())) {
            (Ok(generators), Ok(sequences)) => continues(generators@, sequences, restart_epoch),
            (Err(e), Err(f)) => e@ == f,
            _ => false,
        },
{
    let acks = state.idempotency_cache.entries();
    let mut generators: Table<ClientOrderIdGenerator> = Table::new();
    let ghost mut sequences: Map<Seq<char>, nat> = Map::empty();
    let mut i: usize = 0;
    assert(generators@.dom() =~= sequences.dom());
    while i < acks.len()
        invariant
            i <= acks@.len(),
            acks@ == state.idempotency_cache.listed(),
            next_sequences(acks@.take(i as int)) == Ok::<Map<Seq<char>, nat>, EngineFault>(
                sequences,
            ),
            continues(generators@, sequences, restart_epoch),
        decreases acks@.len() - i,
    {
        let client_order_id = &acks[i].1.client_order_id;
        assert(acks@.take(i + 1).drop_last() =~= acks@.take(i as int));
        let agent = match client_order_id.parse_agent() {
            Some(agent) => agent,
            None => {
                proof {
                    lemma_leading_ack_fault(acks@, i + 1);
                }
                return Err(
                    EngineError::Internal(
                        joined3(
                            "persisted client_order_id ",
                            client_order_id.as_str(),
                            " is malformed: missing agent prefix",
                        ),
                    ),
                );
            },
        };
        let next: u64 = match client_order_id.parse_sequence() {
            Some(n) if n < u64::MAX => n + 1,
            _ => {
                proof {
                    lemma_leading_ack_fault(acks@, i + 1);
                }
                return Err(
                    EngineError::Internal(
                        joined3(
                            "persisted client_order_id ",
                            client_order_id.as_str(),
                            " is malformed: missing or overflowing sequence",
                        ),
                    ),
                );
            },
        };
        let higher = match generators.get(agent.as_str()) {
            Some(g) => g.current_seq() < next,
            None => true,
        };
        if higher {
            let ghost before = generators@;
            let generator = ClientOrderIdGenerator::with_start_seq(&agent, restart_epoch, next);
            generators.insert(agent.text(), generator);
            proof {
                sequences = sequences.insert(agent@, next as nat);
                assert(generators@.dom() =~= sequences.dom());
                assert forall|k: Seq<char>| #[trigger] generators@.contains_key(k) implies
                    generators@[k].upcoming() == sequences[k] && generators@[k].agent() == k
                    && generators@[k].epoch() == restart_epoch by {
                    if k != agent@ {
                        assert(before.contains_key(k));
                    }
                }
            }
        }
        i = i + 1;
    }
    assert(acks@.take(i as int) =~= acks@);
    Ok(generators)
}

/// An agent's restored sequence is above every sequence that it has used, so no identifier
/// is given out twice.
pub proof fn law_restored_sequence_is_fresh(acks: Seq<(String, OrderAck)>, i: int)
    requires
        next_sequences(acks) is Ok,
        0 <= i < acks.len(),
    ensures
        ({
            let client = acks[i].1.client_order_id@;
            let sequences = next_sequences(acks)->Ok_0;
            &&& embedded_sequence(client) is Some
            &&& sequences.contains_key(embedded_agent(client))
            &&& sequences[embedded_agent(client)] > embedded_sequence(client)->0
        }),
    decreases acks.len(),
{
    if i < acks.len() - 1 {
        assert(acks.drop_last()[i] == acks[i]);
        law_restored_sequence_is_fresh(acks.drop_last(), i);
    }
}

/// An agent whose identifier was acknowledged, at a time not before 1970, goes on above its
/// sequence, whatever the agent's name holds.
pub proof fn law_agent_continues_its_sequence(
    acks: Seq<(String, OrderAck)>,
    i: int,
    agent: Seq<char>,
    millis: int,
    seq: u64,
    restart_epoch: u16,
)
    requires
        next_sequences(acks) is Ok,
        0 <= i < acks.len(),
        millis >= 0,
        acks[i].1.client_order_id@ == client_order_text(
            agent,
            millis,
            seq as nat,
            restart_epoch as nat,
        ),
    ensures
        next_sequences(acks)->Ok_0.contains_key(agent),
        next_sequences(acks)->Ok_0[agent] > seq,
{
    law_restored_sequence_is_fresh(acks, i);
    law_client_order_id_agent(agent, millis, seq, restart_epoch);
    law_client_order_id_round_trip(agent, millis, seq, restart_epoch);
}

/// Whether the journal holds events that the latest snapshot does not.
pub open spec fn has_tail(
    latest: Option<SequenceId>,
    journal_sequence: SequenceId,
    journal_is_empty: bool,
) -> bool {
    match latest {
        Some(at) => journal_sequence.0 > at.0,
        None => !journal_is_empty,
    }
}

/// The sequencer: the core with its state, the current snapshot, and the counters.
pub struct Sequencer<C: EngineCore, P: PriceSource> {
    pub core: C,
    pub prices: P,
    pub sequence_gen: SequenceGenerator,
    pub snapshot_cache: EngineStateSnapshot,
    /// Generators by agent.
    pub client_order_id_generators: Table<ClientOrderIdGenerator>,
    pub restart_epoch: u16,
}

/// Events and snapshot that are to be persisted together.
#[derive(Debug)]
pub struct Commit {
    pub events: Vec<SequencedEvent<EngineEvent>>,
    pub snapshot: EngineStateSnapshot,
}

/// A command that has been handled.
#[derive(Debug)]
pub struct Processed {
    pub sequence_id: SequenceId,
    pub reply: Reply,
    /// What is to be persisted, if anything.
    pub commit: Option<Commit>,
}

/// Whether events are a list of events under a sequence number and a time.
pub open spec fn stamped(
    events: Seq<SequencedEvent<EngineEvent>>,
    plain: Seq<EngineEvent>,
    sequence_id: SequenceId,
    now: Timestamp,
) -> bool {
    &&& events.len() == plain.len()
    &&& forall|i: int|
        0 <= i < events.len() ==> #[trigger] events[i] == (SequencedEvent {
            sequence_id,
            timestamp: now,
            event: plain[i],
        })
}

/// Puts events under a sequence number and a time.
fn stamp(events: Vec<EngineEvent>, sequence_id: SequenceId, now: Timestamp) -> (r: Vec<
    SequencedEvent<EngineEvent>,
>)
    ensures
        stamped(r@, events@, sequence_id, now),
{
    let mut rest = events;
    let ghost all = rest@;
    let mut r: Vec<SequencedEvent<EngineEvent>> = Vec::new();
    let n: usize = rest.len();
    let mut i: usize = 0;
    while i < n
        invariant
            i <= n,
            n == all.len(),
            rest@ == all.skip(i as int),
            r@.len() == i,
            forall|k: int|
                0 <= k < i ==> #[trigger] r@[k] == (SequencedEvent {
                    sequence_id,
                    timestamp: now,
                    event: all[k],
                }),
        decreases n - i,
    {
        let event = rest.remove(0);
        assert(rest@ =~= all.skip(i + 1));
        r.push(SequencedEvent { sequence_id, timestamp: now, event });
        i = i + 1;
    }
    r
}

/// The error for a fill whose quantities exceed their range.
fn out_of_range(sequence_id: SequenceId) -> (r: EngineError)
    ensures
        r@ == EngineFault::Internal(
            "sequencer panic at "@ + sequence_text(sequence_id) + ": Any { .. }"@,
        ),
{
    EngineError::Internal(
        joined3("sequencer panic at ", sequence_id.text().as_str(), ": Any { .. }"),
    )
}

/// The error for a commit that could not be persisted.
pub fn commit_error(sequence_id: SequenceId, why: &EngineError) -> (r: EngineError)
    ensures
        r@ == EngineFault::Journal(
            "failed to persist sequencer commit at "@ + sequence_text(sequence_id) + ": "@
                + engine_fault_text(why@),
        ),
{
    EngineError::Journal(
        joined4(
            "failed to persist sequencer commit at ",
            sequence_id.text().as_str(),
            ": ",
            why.text().as_str(),
        ),
    )
}

/// Whether what came of a request to the core follows from its answer: a change of state
/// with events, or the core's error.
pub open spec fn follows(
    said: Result<(), EngineError>,
    events: Seq<EngineEvent>,
    r: Result<CommandOutcome, EngineError>,
) -> bool {
    match said {
        Ok(_) => r matches Ok(o) && o.events@ == events && o.state_mutated && o.reply is Nothing,
        Err(e) => r == Err::<CommandOutcome, EngineError>(e),
    }
}

/// Whether what came of a fill follows from the core's answer: the core's error, or what is
/// reported of the fill in the state that the core then holds.
pub open spec fn fill_concluded(
    state: EngineState,
    fill: Fill,
    said: Result<(), EngineError>,
    sequence_id: SequenceId,
    r: Result<CommandOutcome, EngineError>,
) -> bool {
    match said {
        Err(e) => r == Err::<CommandOutcome, EngineError>(e),
        Ok(_) => match fill_report(state, fill) {
            None => r matches Err(e) && e@ == EngineFault::Internal(
                "sequencer panic at "@ + sequence_text(sequence_id) + ": Any { .. }"@,
            ),
            Some(Err(f)) => r matches Err(e) && e@ == f,
            Some(Ok(report)) => r matches Ok(o) && o.state_mutated && o.reply is Nothing
                && o.events@.len() == 1 && reports_fill(o.events@[0], fill, report),
        },
    }
}

/// Whether what came of a command is what the command asks. Where the core is asked, it is
/// asked exactly that, and the outcome follows from an answer that it may give. `old_core`
/// and `new_core` are the core before and after.
pub open spec fn handled<C: EngineCore, P: PriceSource>(
    command: SequencerCommand,
    old_core: C,
    new_core: C,
    prices: P,
    cached: EngineStateSnapshot,
    generators: Map<Seq<char>, ClientOrderIdGenerator>,
    generators_after: Map<Seq<char>, ClientOrderIdGenerator>,
    restart_epoch: u16,
    sequence_id: SequenceId,
    now: Timestamp,
    r: Result<CommandOutcome, EngineError>,
) -> bool {
    match command {
        SequencerCommand::SubmitOrder { order } => match existing_ack(
            old_core.held(),
            order.order().id@,
        ) {
            Some(ack) => {
                &&& r matches Ok(o) && o.reply == Reply::Order(Ok(ack)) && o.events@.len() == 0
                    && !o.state_mutated
                &&& new_core == old_core
                &&& generators_after == generators
            },
            None => r matches Ok(o) && exists|
                verdict: Result<PipelineOrder<RiskChecked>, EngineError>,
                judged: C,
            | #[trigger]
                old_core.may_judge(order, now, verdict, judged) && order_concluded(
                    judged.held(),
                    new_core.held(),
                    generators,
                    generators_after,
                    restart_epoch,
                    order.order(),
                    verdict,
                    now,
                    o,
                ),
        },
        SequencerCommand::SubmitSignal { .. } => {
            &&& r matches Ok(o) && o.reply == Reply::Signal(
                Err(EngineError::UnsupportedCommand { command: "SubmitSignal" }),
            ) && o.events@.len() == 0 && !o.state_mutated
            &&& new_core == old_core
            &&& generators_after == generators
        },
        SequencerCommand::OnFill { fill } => {
            &&& generators_after == generators
            &&& exists|said: Result<(), EngineError>| #[trigger]
                old_core.may_answer(CoreRequest::Fill { fill, now }, said, new_core)
                    && fill_concluded(new_core.held(), fill, said, sequence_id, r)
        },
        SequencerCommand::OnReconciliation { report } => {
            &&& generators_after == generators
            &&& exists|said: Result<(), EngineError>| #[trigger]
                old_core.may_answer(CoreRequest::Reconcile { report, now }, said, new_core)
                    && follows(said, reconciliation_report(report), r)
        },
        SequencerCommand::MarkToMarket => {
            &&& generators_after == generators
            &&& exists|said: Result<(), EngineError>| #[trigger]
                old_core.may_mark(prices, now, said, new_core) && follows(said, seq![], r)
        },
        SequencerCommand::AdjustLimits { agent, limits } => {
            &&& generators_after == generators
            &&& exists|said: Result<(), EngineError>| #[trigger]
                old_core.may_answer(CoreRequest::Adjust { agent, limits }, said, new_core) && (
                r matches Ok(o) && o.events@.len() == 0 && o.reply == Reply::Limits(said)
                    && o.state_mutated == (said is Ok))
        },
        SequencerCommand::PauseAgent { agent, reason } => {
            &&& generators_after == generators
            &&& exists|said: Result<(), EngineError>| #[trigger]
                old_core.may_answer(CoreRequest::Pause { agent, reason, now }, said, new_core)
                    && follows(said, seq![EngineEvent::AgentPaused { agent_id: agent, reason }], r)
        },
        SequencerCommand::ResumeAgent { agent } => {
            &&& generators_after == generators
            &&& exists|said: Result<(), EngineError>| #[trigger]
                old_core.may_answer(CoreRequest::Resume { agent, now }, said, new_core) && follows(
                    said,
                    seq![EngineEvent::AgentResumed { agent_id: agent }],
                    r,
                )
        },
        SequencerCommand::HaltAll { reason } => {
            &&& generators_after == generators
            &&& exists|said: Result<(), EngineError>| #[trigger]
                old_core.may_answer(CoreRequest::Halt { reason, now }, said, new_core) && follows(
                    said,
                    seq![EngineEvent::EngineHalted { reason }],
                    r,
                )
        },
        SequencerCommand::ResetCircuitBreaker { breaker_id } => {
            &&& generators_after == generators
            &&& exists|said: Result<(), EngineError>| #[trigger]
                old_core.may_answer(CoreRequest::ResetBreaker { now }, said, new_core) && follows(
                    said,
                    seq![EngineEvent::CircuitBreakerReset { breaker_id }],
                    r,
                )
        },
        SequencerCommand::Snapshot => {
            &&& r matches Ok(o) && o.events@.len() == 0 && !o.state_mutated && (
            o.reply matches Reply::Snapshot(copy) && same_snapshot(cached, copy))
            &&& new_core == old_core
            &&& generators_after == generators
        },
        SequencerCommand::Shutdown => {
            &&& r matches Ok(o) && o.reply is Stop && o.events@.len() == 0 && !o.state_mutated
            &&& new_core == old_core
            &&& generators_after == generators
        },
    }
}

/// Whether a sequencer starts as it should from a core that answered `said` when asked to
/// restore the latest snapshot, if there is one.
pub open spec fn started<C: EngineCore, P: PriceSource>(
    core: C,
    said: Result<(), EngineError>,
    prices: P,
    latest_snapshot: Option<(SequenceId, EngineStateSnapshot)>,
    journal_sequence: SequenceId,
    journal_is_empty: bool,
    restart_epoch: u16,
    r: Result<Sequencer<C, P>, EngineError>,
) -> bool {
    let latest = match latest_snapshot {
        Some((at, _)) => Some(at),
        None => None,
    };
    if said is Err {
        r == Err::<Sequencer<C, P>, EngineError>(said->Err_0)
    } else if has_tail(latest, journal_sequence, journal_is_empty) {
        r matches Err(e) && e@ == EngineFault::Journal(
            "journal contains unapplied events beyond the latest persisted snapshot; replay bootstrap is not implemented yet"@,
        )
    } else {
        match next_sequences(core.held().idempotency_cache.listed()) {
            Err(f) => r matches Err(e) && e@ == f,
            Ok(sequences) => r matches Ok(s) && {
                &&& s.core == core
                &&& s.prices == prices
                &&& s.restart_epoch == restart_epoch
                &&& continues(s.client_order_id_generators@, sequences, restart_epoch)
                &&& generators_fit(s.client_order_id_generators@, restart_epoch)
                &&& match latest_snapshot {
                    Some((at, snapshot)) => {
                        &&& s.sequence_gen.upcoming() == at.0 + 1
                        &&& s.snapshot_cache == snapshot
                    },
                    None => {
                        &&& s.sequence_gen.upcoming() == core.held().last_sequence_id.0 + 1
                        &&& same_state(core.held(), s.snapshot_cache.state)
                        &&& s.snapshot_cache.sequence_id == core.held().last_sequence_id
                        &&& s.snapshot_cache.snapshot_at == core.held().last_updated
                    },
                }
            },
        }
    }
}

impl<C: EngineCore, P: PriceSource> Sequencer<C, P> {
    /// Starts the sequencer with a core that answered `said` when asked to restore the latest
    /// snapshot, if there is one. The core's error is passed on, and a journal that holds
    /// later events is refused.
    pub fn start(
        core: C,
        said: Result<(), EngineError>,
        prices: P,
        latest_snapshot: Option<(SequenceId, EngineStateSnapshot)>,
        journal_sequence: SequenceId,
        journal_is_empty: bool,
        restart_epoch: u16,
    ) -> (r: Result<Sequencer<C, P>, EngineError>)
        requires
            latest_snapshot matches Some((at, _)) ==> at.0 < u64::MAX,
            latest_snapshot is None ==> core.held().last_sequence_id.0 < u64::MAX,
        ensures
            started(
                core,
                said,
                prices,
                latest_snapshot,
                journal_sequence,
                journal_is_empty,
                restart_epoch,
                r,
            ),
    {
        match said {
            Ok(_) => {},
            Err(e) => {
                return Err(e);
            },
        }
        let has_unapplied_tail = match &latest_snapshot {
            Some((at, _)) => journal_sequence.0 > at.0,
            None => !journal_is_empty,
        };
        if has_unapplied_tail {
            return Err(
                EngineError::Journal(
                    "journal contains unapplied events beyond the latest persisted snapshot; replay bootstrap is not implemented yet".to_owned(),
                ),
            );
        }
        let generators = match restore_client_order_generators(core.state(), restart_epoch) {
            Ok(generators) => generators,
            Err(e) => {
                return Err(e);
            },
        };
        let (current, snapshot_cache) = match latest_snapshot {
            Some((at, snapshot)) => (at, snapshot),
            None => {
                let at = core.state().last_sequence_id;
                let updated = core.state().last_updated;
                let snapshot = core.snapshot(at, updated);
                (at, snapshot)
            },
        };
        Ok(
            Sequencer {
                core,
                prices,
                sequence_gen: SequenceGenerator::new(current.next()),
                snapshot_cache,
                client_order_id_generators: generators,
                restart_epoch,
            },
        )
    }

    /// Starts the sequencer from the latest snapshot, if there is one, or from the core as
    /// it is.
    ///
    /// The core is asked to restore exactly that snapshot; whether it takes it is up to the
    /// core.
    pub fn bootstrap(
        core: C,
        prices: P,
        latest_snapshot: Option<(SequenceId, EngineStateSnapshot)>,
        journal_sequence: SequenceId,
        journal_is_empty: bool,
        restart_epoch: u16,
    ) -> (r: Result<Sequencer<C, P>, EngineError>)
        requires
            latest_snapshot matches Some((at, _)) ==> at.0 < u64::MAX,
            latest_snapshot is None ==> core.held().last_sequence_id.0 < u64::MAX,
        ensures
            match latest_snapshot {
                None => started(
                    core,
                    Ok(()),
                    prices,
                    latest_snapshot,
                    journal_sequence,
                    journal_is_empty,
                    restart_epoch,
                    r,
                ),
                Some((_, snapshot)) => exists|said: Result<(), EngineError>, restored: C|
                    #[trigger]
                    core.may_answer((CoreRequest::Restore { snapshot }), said, restored) && started(
                        restored,
                        said,
                        prices,
                        latest_snapshot,
                        journal_sequence,
                        journal_is_empty,
                        restart_epoch,
                        r,
                    ),
            },
    {
        let mut core = core;
        let said = match &latest_snapshot {
            Some((_, snapshot)) => core.restore_snapshot(snapshot),
            None => Ok(()),
        };
        Sequencer::start(
            core,
            said,
            prices,
            latest_snapshot,
            journal_sequence,
            journal_is_empty,
            restart_epoch,
        )
    }

    /// Handles an order.
    fn handle_submit_order(&mut self, order: PipelineOrder<Validated>, now: Timestamp) -> (o:
        CommandOutcome)
        ensures
            final(self).prices == old(self).prices,
            final(self).sequence_gen == old(self).sequence_gen,
            final(self).snapshot_cache == old(self).snapshot_cache,
            final(self).restart_epoch == old(self).restart_epoch,
            match existing_ack(old(self).core.held(), order.order().id@) {
                Some(ack) => {
                    &&& o.reply == Reply::Order(Ok(ack))
                    &&& o.events@.len() == 0
                    &&& !o.state_mutated
                    &&& *final(self) == *old(self)
                },
                None => exists|
                    verdict: Result<PipelineOrder<RiskChecked>, EngineError>,
                    judged: C,
                | #[trigger]
                    old(self).core.may_judge(order, now, verdict, judged) && order_concluded(
                        judged.held(),
                        final(self).core.held(),
                        old(self).client_order_id_generators@,
                        final(self).client_order_id_generators@,
                        old(self).restart_epoch,
                        order.order(),
                        verdict,
                        now,
                        o,
                    ),
            },
    {
        if let Some(existing) = find_existing_ack(self.core.state(), &order.order_core().id) {
            return CommandOutcome::answer(Reply::Order(Ok(existing)));
        }
        let request = order.order_core().clone();
        let verdict = self.core.evaluate_order(order, now);
        let ghost judged = self.core;
        let ghost answer = verdict;
        let o = conclude_order(
            self.core.state_mut(),
            &mut self.client_order_id_generators,
            self.restart_epoch,
            &request,
            verdict,
            now,
        );
        assert(old(self).core.may_judge(order, now, answer, judged));
        o
    }
}

/// What comes of a fill once the core has answered: the core's error, or what is reported
/// of the fill.
pub fn conclude_fill(
    state: &EngineState,
    fill: &Fill,
    said: Result<(), EngineError>,
    sequence_id: SequenceId,
) -> (r: Result<CommandOutcome, EngineError>)
    ensures
        fill_concluded(*state, *fill, said, sequence_id, r),
{
    match said {
        Err(e) => {
            return Err(e);
        },
        Ok(_) => {},
    }
    match fill_event(state, fill) {
        None => Err(out_of_range(sequence_id)),
        Some(Err(e)) => Err(e),
        Some(Ok(event)) => {
            let mut events: Vec<EngineEvent> = Vec::new();
            events.push(event);
            Ok(CommandOutcome::mutated(events))
        },
    }
}

/// What comes of a reconciliation once the core has answered.
pub fn conclude_reconciliation(report: &ReconciliationReport, said: Result<(), EngineError>) -> (r:
    Result<CommandOutcome, EngineError>)
    ensures
        follows(said, reconciliation_report(*report), r),
{
    match said {
        Err(e) => Err(e),
        Ok(_) => Ok(CommandOutcome::mutated(reconciliation_events(report))),
    }
}

impl<C: EngineCore, P: PriceSource> Sequencer<C, P> {
    /// Handles a command under a sequence number at a time.
    pub fn handle_command(
        &mut self,
        command: SequencerCommand,
        sequence_id: SequenceId,
        now: Timestamp,
    ) -> (r: Result<CommandOutcome, EngineError>)
        ensures
            final(self).prices == old(self).prices,
            final(self).sequence_gen == old(self).sequence_gen,
            final(self).snapshot_cache == old(self).snapshot_cache,
            final(self).restart_epoch == old(self).restart_epoch,
            handled(
                command,
                old(self).core,
                final(self).core,
                old(self).prices,
                old(self).snapshot_cache,
                old(self).client_order_id_generators@,
                final(self).client_order_id_generators@,
                old(self).restart_epoch,
                sequence_id,
                now,
                r,
            ),
    {
        match command {
            SequencerCommand::SubmitOrder { order } => Ok(self.handle_submit_order(order, now)),
            SequencerCommand::SubmitSignal { .. } => Ok(
                CommandOutcome::answer(
                    Reply::Signal(
                        Err(EngineError::UnsupportedCommand { command: "SubmitSignal" }),
                    ),
                ),
            ),
            SequencerCommand::OnFill { fill } => {
                let said = self.core.on_fill(&fill, now);
                conclude_fill(self.core.state(), &fill, said, sequence_id)
            },
            SequencerCommand::OnReconciliation { report } => {
                let said = self.core.on_reconciliation(&report, now);
                conclude_reconciliation(&report, said)
            },
            SequencerCommand::MarkToMarket => match self.core.mark_to_market(&self.prices, now) {
                Ok(_) => Ok(CommandOutcome::mutated(Vec::new())),
                Err(e) => Err(e),
            },
            SequencerCommand::AdjustLimits { agent, limits } => {
                let said = self.core.adjust_limits(&agent, limits);
                let state_mutated = said.is_ok();
                Ok(
                    CommandOutcome {
                        events: Vec::new(),
                        state_mutated,
                        reply: Reply::Limits(said),
                    },
                )
            },
            SequencerCommand::PauseAgent { agent, reason } => {
                let said = self.core.pause_agent(&agent, reason.clone(), now);
                after_core(said, EngineEvent::AgentPaused { agent_id: agent, reason })
            },
            SequencerCommand::ResumeAgent { agent } => {
                let said = self.core.resume_agent(&agent, now);
                after_core(said, EngineEvent::AgentResumed { agent_id: agent })
            },
            SequencerCommand::HaltAll { reason } => {
                let said = self.core.halt_all(reason.clone(), now);
                after_core(said, EngineEvent::EngineHalted { reason })
            },
            SequencerCommand::ResetCircuitBreaker { breaker_id } => {
                let said = self.core.reset_circuit_breaker(now);
                after_core(said, EngineEvent::CircuitBreakerReset { breaker_id })
            },
            SequencerCommand::Snapshot => Ok(
                CommandOutcome::answer(Reply::Snapshot(self.snapshot_cache.clone())),
            ),
            SequencerCommand::Shutdown => Ok(CommandOutcome::answer(Reply::Stop)),
        }
    }

    /// The snapshot that is committed with a command: the state as the core holds it,
    /// marked with the command's sequence number and time.
    fn snapshot_for_commit(&self, sequence_id: SequenceId, now: Timestamp) -> (r:
        EngineStateSnapshot)
        ensures
            same_business(self.core.held(), r.state),
            r.state.last_sequence_id == sequence_id,
            r.state.last_updated == now,
            r.sequence_id == sequence_id,
            r.snapshot_at == now,
    {
        let mut state = self.core.state().clone();
        state.last_sequence_id = sequence_id;
        state.last_updated = now;
        EngineStateSnapshot { state, sequence_id, snapshot_at: now }
    }

    /// Processes one command under the next sequence number.
    ///
    /// What is to be persisted is the events and a snapshot of the state, for a command
    /// that changed the state or has events. The current snapshot stays as it is until
    /// [`Sequencer::committed`].
    pub fn process(&mut self, command: SequencerCommand, now: Timestamp) -> (r: Result<
        Processed,
        EngineError,
    >)
        requires
            old(self).sequence_gen.upcoming() < u64::MAX,
        ensures
            final(self).sequence_gen.upcoming() == old(self).sequence_gen.upcoming() + 1,
            final(self).snapshot_cache == old(self).snapshot_cache,
            final(self).prices == old(self).prices,
            final(self).restart_epoch == old(self).restart_epoch,
            exists|outcome: Result<CommandOutcome, EngineError>|
                {
                    &&& #[trigger] handled(
                        command,
                        old(self).core,
                        final(self).core,
                        old(self).prices,
                        old(self).snapshot_cache,
                        old(self).client_order_id_generators@,
                        final(self).client_order_id_generators@,
                        old(self).restart_epoch,
                        SequenceId(old(self).sequence_gen.upcoming()),
                        now,
                        outcome,
                    )
                    &&& match outcome {
                        Err(e) => r == Err::<Processed, EngineError>(e),
                        Ok(o) => r matches Ok(p) && {
                            &&& p.sequence_id.0 == old(self).sequence_gen.upcoming()
                            &&& p.reply == o.reply
                            &&& p.commit is Some <==> o.state_mutated || o.events@.len() > 0
                            &&& p.commit matches Some(c) ==> {
                                &&& stamped(c.events@, o.events@, p.sequence_id, now)
                                &&& same_business(final(self).core.held(), c.snapshot.state)
                                &&& c.snapshot.state.last_sequence_id == p.sequence_id
                                &&& c.snapshot.state.last_updated == now
                                &&& c.snapshot.sequence_id == p.sequence_id
                                &&& c.snapshot.snapshot_at == now
                            }
                        },
                    }
                },
    {
        let sequence_id = self.sequence_gen.next_id();
        let outcome = self.handle_command(command, sequence_id, now);
        let ghost result = outcome;
        assert(sequence_id == SequenceId(old(self).sequence_gen.upcoming()));
        assert(handled(
            command,
            old(self).core,
            self.core,
            old(self).prices,
            old(self).snapshot_cache,
            old(self).client_order_id_generators@,
            self.client_order_id_generators@,
            old(self).restart_epoch,
            SequenceId(old(self).sequence_gen.upcoming()),
            now,
            result,
        ));
        match outcome {
            Err(e) => Err(e),
            Ok(o) => {
                let commit = if o.state_mutated || o.events.len() > 0 {
                    let snapshot = self.snapshot_for_commit(sequence_id, now);
                    Some(Commit { events: stamp(o.events, sequence_id, now), snapshot })
                } else {
                    None
                };
                Ok(Processed { sequence_id, reply: o.reply, commit })
            },
        }
    }

    /// Makes a commit that has been persisted the current state: the state is marked with
    /// its sequence number and time, and its snapshot is the current one.
    pub fn committed(&mut self, commit: Commit)
        ensures
            final(self).core.held() == (EngineState {
                last_sequence_id: commit.snapshot.sequence_id,
                last_updated: commit.snapshot.snapshot_at,
                ..old(self).core.held()
            }),
            final(self).snapshot_cache == commit.snapshot,
            final(self).sequence_gen == old(self).sequence_gen,
            final(self).client_order_id_generators == old(self).client_order_id_generators,
            final(self).prices == old(self).prices,
            final(self).restart_epoch == old(self).restart_epoch,
    {
        let state = self.core.state_mut();
        state.last_sequence_id = commit.snapshot.sequence_id;
        state.last_updated = commit.snapshot.snapshot_at;
        self.snapshot_cache = commit.snapshot;
    }
}

// ─── Laws ───

/// After a commit the current snapshot is the state that the core holds.
pub proof fn law_snapshot_is_current(
    held: EngineState,
    after: EngineState,
    snapshot: EngineStateSnapshot,
)
    requires
        same_business(held, snapshot.state),
        snapshot.state.last_sequence_id == snapshot.sequence_id,
        snapshot.state.last_updated == snapshot.snapshot_at,
        after == (EngineState {
            last_sequence_id: snapshot.sequence_id,
            last_updated: snapshot.snapshot_at,
            ..held
        }),
    ensures
        same_state(after, snapshot.state),
{
}

/// A command that is answered from what is known changes nothing: neither the state nor
/// the counters, and there is nothing to persist.
pub proof fn law_known_order_changes_nothing<C: EngineCore, P: PriceSource>(
    order: PipelineOrder<Validated>,
    old_core: C,
    new_core: C,
    prices: P,
    cached: EngineStateSnapshot,
    generators: Map<Seq<char>, ClientOrderIdGenerator>,
    generators_after: Map<Seq<char>, ClientOrderIdGenerator>,
    restart_epoch: u16,
    sequence_id: SequenceId,
    now: Timestamp,
    r: Result<CommandOutcome, EngineError>,
)
    requires
        existing_ack(old_core.held(), order.order().id@) is Some,
        handled(
            SequencerCommand::SubmitOrder { order },
            old_core,
            new_core,
            prices,
            cached,
            generators,
            generators_after,
            restart_epoch,
            sequence_id,
            now,
            r,
        ),
    ensures
        new_core == old_core,
        generators_after == generators,
        r matches Ok(o) && !o.state_mutated && o.events@.len() == 0 && o.reply == Reply::Order(
            Ok(existing_ack(old_core.held(), order.order().id@)->0),
        ),
{
}

/// Only orders give out client order identifiers, and generators stay under their own
/// agents.
pub proof fn law_generators_stay_fit<C: EngineCore, P: PriceSource>(
    command: SequencerCommand,
    old_core: C,
    new_core: C,
    prices: P,
    cached: EngineStateSnapshot,
    generators: Map<Seq<char>, ClientOrderIdGenerator>,
    generators_after: Map<Seq<char>, ClientOrderIdGenerator>,
    restart_epoch: u16,
    sequence_id: SequenceId,
    now: Timestamp,
    r: Result<CommandOutcome, EngineError>,
)
    requires
        generators_fit(generators, restart_epoch),
        handled(
            command,
            old_core,
            new_core,
            prices,
            cached,
            generators,
            generators_after,
            restart_epoch,
            sequence_id,
            now,
            r,
        ),
    ensures
        generators_fit(generators_after, restart_epoch),
        !(command is SubmitOrder) ==> generators_after == generators,
{
    if generators_after != generators {
        let order = command->order;
        let o = r->Ok_0;
        let (verdict, judged) = choose|
            verdict: Result<PipelineOrder<RiskChecked>, EngineError>,
            judged: C,
        | #[trigger]
            old_core.may_judge(order, now, verdict, judged) && order_concluded(
                judged.held(),
                new_core.held(),
                generators,
                generators_after,
                restart_epoch,
                order.order(),
                verdict,
                now,
                o,
            );
        let agent = order.order().agent_id@;
        assert(moved_on(generators, generators_after, agent, restart_epoch));
        assert forall|k: Seq<char>| #[trigger] generators_after.contains_key(k) implies
            generators_after[k].agent() == k && generators_after[k].epoch() == restart_epoch by {
            if k != agent {
                assert(generators.contains_key(k));
            }
        }
    }
}

} // verus!
