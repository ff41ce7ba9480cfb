//! Portfolio & position tracking — firm-wide, per-agent, per-instrument, per-venue.
//!
//! There is one `FirmBook` and one `AgentAllocation`, shared by the engine, the risk
//! checks and the gateway.

use crate::decimal::Decimal;
use crate::ids::{AccountId, AgentId, InstrumentId, OrderId, SignalId, VenueId};
use crate::table::Table;
use crate::time::Timestamp;
use vstd::prelude::*;

verus! {

/// Agent's capital allocation and current utilization.
#[derive(Debug)]
pub struct AgentAllocation {
    pub allocated_capital: Decimal,
    pub used_capital: Decimal,
    pub free_capital: Decimal,
    pub realized_pnl: Decimal,
    pub unrealized_pnl: Decimal,
    pub current_drawdown: Decimal,
    pub max_drawdown_limit: Decimal,
    pub status: AgentStatus,
}

impl Clone for AgentAllocation {
    fn clone(&self) -> (r: AgentAllocation)
        ensures
            r == *self,
    {
        AgentAllocation {
            allocated_capital: self.allocated_capital,
            used_capital: self.used_capital,
            free_capital: self.free_capital,
            realized_pnl: self.realized_pnl,
            unrealized_pnl: self.unrealized_pnl,
            current_drawdown: self.current_drawdown,
            max_drawdown_limit: self.max_drawdown_limit,
            status: self.status.clone(),
        }
    }
}

/// Agent activity status.
#[derive(Debug, PartialEq, Eq)]
pub enum AgentStatus {
    Active,
    Paused { reason: String, since: Timestamp },
    /// Agent breached drawdown limit — orders blocked until reset.
    DrawdownBreached,
    /// Emergency halt — all agents halted.
    Halted,
}

impl Clone for AgentStatus {
    fn clone(&self) -> (r: AgentStatus)
        ensures
            r == *self,
    {
        match self {
            AgentStatus::Active => AgentStatus::Active,
            AgentStatus::Paused { reason, since } => AgentStatus::Paused {
                reason: reason.clone(),
                since: *since,
            },
            AgentStatus::DrawdownBreached => AgentStatus::DrawdownBreached,
            AgentStatus::Halted => AgentStatus::Halted,
        }
    }
}

/// The text of an agent's status.
pub open spec fn agent_status_text(s: AgentStatus) -> Seq<char> {
    match s {
        AgentStatus::Active => "active"@,
        AgentStatus::Paused { .. } => "paused"@,
        AgentStatus::DrawdownBreached => "drawdown_breached"@,
        AgentStatus::Halted => "halted"@,
    }
}

impl AgentStatus {
    /// The status as text.
    pub fn text(&self) -> (r: &'static str)
        ensures
            r@ == agent_status_text(*self),
    {
        match self {
            AgentStatus::Active => "active",
            AgentStatus::Paused { .. } => "paused",
            AgentStatus::DrawdownBreached => "drawdown_breached",
            AgentStatus::Halted => "halted",
        }
    }
}

/// Firm-wide portfolio view with agent attribution: the single source of truth for firm
/// state.
#[derive(Debug)]
pub struct FirmBook {
    pub nav: Decimal,
    pub gross_notional: Decimal,
    pub net_notional: Decimal,
    pub realized_pnl: Decimal,
    pub unrealized_pnl: Decimal,
    pub daily_pnl: Decimal,
    pub hourly_pnl: Decimal,
    pub current_drawdown_pct: Decimal,
    pub allocated_capital: Decimal,
    pub cash_available: Decimal,
    pub total_fees_paid: Decimal,
    /// Allocations by agent.
    pub agent_allocations: Table<AgentAllocation>,
    pub instruments: Vec<InstrumentExposure>,
    pub prediction_exposure: PredictionExposureSummary,
    pub as_of: Timestamp,
}

/// Whether two books are the same.
pub open spec fn same_book(a: FirmBook, b: FirmBook) -> bool {
    &&& a.nav == b.nav
    &&& a.gross_notional == b.gross_notional
    &&& a.net_notional == b.net_notional
    &&& a.realized_pnl == b.realized_pnl
    &&& a.unrealized_pnl == b.unrealized_pnl
    &&& a.daily_pnl == b.daily_pnl
    &&& a.hourly_pnl == b.hourly_pnl
    &&& a.current_drawdown_pct == b.current_drawdown_pct
    &&& a.allocated_capital == b.allocated_capital
    &&& a.cash_available == b.cash_available
    &&& a.total_fees_paid == b.total_fees_paid
    &&& a.agent_allocations@ == b.agent_allocations@
    &&& a.instruments@.len() == b.instruments@.len()
    &&& forall|i: int|
        0 <= i < a.instruments@.len() ==> same_exposure(
            #[trigger] a.instruments@[i],
            b.instruments@[i],
        )
    &&& a.prediction_exposure == b.prediction_exposure
    &&& a.as_of == b.as_of
}

impl Clone for FirmBook {
    fn clone(&self) -> (r: FirmBook)
        ensures
            same_book(*self, r),
    {
        let r = FirmBook {
            nav: self.nav,
            gross_notional: self.gross_notional,
            net_notional: self.net_notional,
            realized_pnl: self.realized_pnl,
            unrealized_pnl: self.unrealized_pnl,
            daily_pnl: self.daily_pnl,
            hourly_pnl: self.hourly_pnl,
            current_drawdown_pct: self.current_drawdown_pct,
            allocated_capital: self.allocated_capital,
            cash_available: self.cash_available,
            total_fees_paid: self.total_fees_paid,
            agent_allocations: self.agent_allocations.clone(),
            instruments: self.instruments.clone(),
            prediction_exposure: self.prediction_exposure,
            as_of: self.as_of,
        };
        assert(r.agent_allocations@ =~= self.agent_allocations@);
        r
    }
}

/// Position exposure for a single instrument across all venues/agents.
#[derive(Debug)]
pub struct InstrumentExposure {
    pub instrument: InstrumentId,
    pub net_qty: Decimal,
    pub gross_qty: Decimal,
    pub net_notional_usd: Decimal,
    pub gross_notional_usd: Decimal,
    pub by_venue: Vec<VenueExposure>,
    pub by_agent: Vec<AgentExposure>,
}

/// Whether two exposures are the same.
pub open spec fn same_exposure(a: InstrumentExposure, b: InstrumentExposure) -> bool {
    &&& a.instrument == b.instrument
    &&& a.net_qty == b.net_qty
    &&& a.gross_qty == b.gross_qty
    &&& a.net_notional_usd == b.net_notional_usd
    &&& a.gross_notional_usd == b.gross_notional_usd
    &&& a.by_venue@ == b.by_venue@
    &&& a.by_agent@ == b.by_agent@
}

impl Clone for InstrumentExposure {
    fn clone(&self) -> (r: InstrumentExposure)
        ensures
            same_exposure(*self, r),
    {
        let r = InstrumentExposure {
            instrument: self.instrument.clone(),
            net_qty: self.net_qty,
            gross_qty: self.gross_qty,
            net_notional_usd: self.net_notional_usd,
            gross_notional_usd: self.gross_notional_usd,
            by_venue: self.by_venue.clone(),
            by_agent: self.by_agent.clone(),
        };
        assert(r.by_venue@ =~= self.by_venue@);
        assert(r.by_agent@ =~= self.by_agent@);
        r
    }
}

/// The part of an exposure that is held at one venue.
#[derive(Debug)]
pub struct VenueExposure {
    pub venue: VenueId,
    pub account: AccountId,
    pub net_qty: Decimal,
    pub notional_usd: Decimal,
}

impl Clone for VenueExposure {
    fn clone(&self) -> (r: VenueExposure)
        ensures
            r == *self,
    {
        VenueExposure {
            venue: self.venue.clone(),
            account: self.account.clone(),
            net_qty: self.net_qty,
            notional_usd: self.notional_usd,
        }
    }
}

/// The part of an exposure that belongs to one agent.
#[derive(Debug)]
pub struct AgentExposure {
    pub agent: AgentId,
    pub net_qty: Decimal,
    pub notional_usd: Decimal,
    pub pnl: Decimal,
}

impl Clone for AgentExposure {
    fn clone(&self) -> (r: AgentExposure)
        ensures
            r == *self,
    {
        AgentExposure {
            agent: self.agent.clone(),
            net_qty: self.net_qty,
            notional_usd: self.notional_usd,
            pnl: self.pnl,
        }
    }
}

/// Exposure to prediction markets.
#[derive(Debug, Clone, Copy)]
pub struct PredictionExposureSummary {
    pub total_notional: Decimal,
    pub pct_of_nav: Decimal,
    pub unresolved_markets: u32,
}

/// Per-agent, per-venue, per-market position with full attribution.
#[derive(Debug)]
pub struct TrackedPosition {
    pub agent: AgentId,
    pub venue: VenueId,
    pub account: AccountId,
    pub instrument: InstrumentId,
    pub qty: Decimal,
    pub avg_entry_price: Decimal,
    pub unrealized_pnl: Decimal,
    pub realized_pnl: Decimal,
    pub total_fees_paid: Decimal,
    pub accumulated_funding: Decimal,
    pub fill_ids: Vec<(OrderId, u64)>,
    pub signal_ids: Vec<SignalId>,
    pub opened_at: Timestamp,
    pub last_fill_at: Timestamp,
}

/// Whether two positions are the same.
pub open spec fn same_position(a: TrackedPosition, b: TrackedPosition) -> bool {
    &&& a.agent == b.agent
    &&& a.venue == b.venue
    &&& a.account == b.account
    &&& a.instrument == b.instrument
    &&& a.qty == b.qty
    &&& a.avg_entry_price == b.avg_entry_price
    &&& a.unrealized_pnl == b.unrealized_pnl
    &&& a.realized_pnl == b.realized_pnl
    &&& a.total_fees_paid == b.total_fees_paid
    &&& a.accumulated_funding == b.accumulated_funding
    &&& a.fill_ids@ == b.fill_ids@
    &&& a.signal_ids@ == b.signal_ids@
    &&& a.opened_at == b.opened_at
    &&& a.last_fill_at == b.last_fill_at
}

impl Clone for TrackedPosition {
    fn clone(&self) -> (r: TrackedPosition)
        ensures
            same_position(*self, r),
    {
        let mut fill_ids: Vec<(OrderId, u64)> = Vec::new();
        let mut i: usize = 0;
        while i < self.fill_ids.len()
            invariant
                i <= self.fill_ids@.len(),
                fill_ids@ == self.fill_ids@.take(i as int),
            decreases self.fill_ids@.len() - i,
        {
            fill_ids.push((self.fill_ids[i].0.clone(), self.fill_ids[i].1));
            assert(fill_ids@ =~= self.fill_ids@.take(i + 1));
            i = i + 1;
        }
        assert(fill_ids@ =~= self.fill_ids@);
        let signal_ids = self.signal_ids.clone();
        assert(signal_ids@ =~= self.signal_ids@);
        TrackedPosition {
            agent: self.agent.clone(),
            venue: self.venue.clone(),
            account: self.account.clone(),
            instrument: self.instrument.clone(),
            qty: self.qty,
            avg_entry_price: self.avg_entry_price,
            unrealized_pnl: self.unrealized_pnl,
            realized_pnl: self.realized_pnl,
            total_fees_paid: self.total_fees_paid,
            accumulated_funding: self.accumulated_funding,
            fill_ids,
            signal_ids,
            opened_at: self.opened_at,
            last_fill_at: self.last_fill_at,
        }
    }
}

/// What tells positions apart: agent, venue and instrument.
pub struct PositionKey {
    pub agent: Seq<char>,
    pub venue: Seq<char>,
    pub instrument: Seq<char>,
}

/// The key of a position.
pub open spec fn position_key(p: TrackedPosition) -> PositionKey {
    PositionKey { agent: p.agent@, venue: p.venue@, instrument: p.instrument@ }
}

/// The position under a key, the first from an index on.
pub open spec fn position_at(s: Seq<TrackedPosition>, key: PositionKey, from: int) -> Option<
    TrackedPosition,
>
    decreases s.len() - from,
{
    if from < 0 || from >= s.len() {
        None
    } else if position_key(s[from]) == key {
        Some(s[from])
    } else {
        position_at(s, key, from + 1)
    }
}

/// Whether a key is that of a position.
pub open spec fn has_position(s: Seq<TrackedPosition>, key: PositionKey) -> bool {
    exists|i: int| 0 <= i < s.len() && position_key(#[trigger] s[i]) == key
}

/// A list of positions after one is put in: in place of the one with its key, or at the end
/// where there is none.
pub open spec fn with_position(s: Seq<TrackedPosition>, p: TrackedPosition) -> Seq<
    TrackedPosition,
> {
    if has_position(s, position_key(p)) {
        Seq::new(
            s.len(),
            |i: int|
                if position_key(s[i]) == position_key(p) {
                    p
                } else {
                    s[i]
                },
        )
    } else {
        s.push(p)
    }
}

/// The positions of all agents. There is at most one for an agent, a venue and an
/// instrument.
#[derive(Debug)]
pub struct Positions {
    entries: Vec<TrackedPosition>,
}

impl Positions {
    /// The positions in the order in which their keys were first inserted.
    pub closed spec fn listed(&self) -> Seq<TrackedPosition> {
        self.entries@
    }

    /// The position under a key.
    pub open spec fn at(&self, key: PositionKey) -> Option<TrackedPosition> {
        position_at(self.listed(), key, 0)
    }

    #[verifier::type_invariant]
    closed spec fn well_formed(self) -> bool {
        distinct_positions(self.entries@)
    }

    /// No positions.
    pub fn new() -> (r: Positions)
        ensures
            r.listed() == Seq::<TrackedPosition>::empty(),
    {
        Positions { entries: Vec::new() }
    }

    /// The positions.
    pub fn entries(&self) -> (r: &Vec<TrackedPosition>)
        ensures
            r@ == self.listed(),
            distinct_positions(r@),
    {
        proof {
            use_type_invariant(self);
        }
        &self.entries
    }

    /// The index of a position.
    fn index_of(
        entries: &Vec<TrackedPosition>,
        agent: &AgentId,
        venue: &VenueId,
        instrument: &InstrumentId,
    ) -> (r: Option<usize>)
        ensures
            ({
                let key = PositionKey { agent: agent@, venue: venue@, instrument: instrument@ };
                match r {
                    Some(i) => i < entries@.len() && position_key(entries@[i as int]) == key
                        && position_at(entries@, key, 0) == Some(entries@[i as int]),
                    None => position_at(entries@, key, 0) is None && forall|i: int|
                        0 <= i < entries@.len() ==> position_key(#[trigger] entries@[i]) != key,
                }
            }),
    {
        let ghost key = PositionKey { agent: agent@, venue: venue@, instrument: instrument@ };
        let mut i: usize = 0;
        while i < entries.len()
            invariant
                i <= entries@.len(),
                key == (PositionKey { agent: agent@, venue: venue@, instrument: instrument@ }),
                position_at(entries@, key, 0) == position_at(entries@, key, i as int),
                forall|k: int| 0 <= k < i ==> position_key(#[trigger] entries@[k]) != key,
            decreases entries@.len() - i,
        {
            if entries[i].agent.same(agent) && entries[i].venue.same(venue)
                && entries[i].instrument.same(instrument) {
                return Some(i);
            }
            i = i + 1;
        }
        None
    }

    /// The position of an agent in an instrument at a venue.
    pub fn get(&self, agent: &AgentId, venue: &VenueId, instrument: &InstrumentId) -> (r: Option<
        &TrackedPosition,
    >)
        ensures
            match r {
                Some(p) => self.at(
                    PositionKey { agent: agent@, venue: venue@, instrument: instrument@ },
                ) == Some(*p),
                None => self.at(
                    PositionKey { agent: agent@, venue: venue@, instrument: instrument@ },
                ) is None,
            },
    {
        match Self::index_of(&self.entries, agent, venue, instrument) {
            Some(i) => Some(&self.entries[i]),
            None => None,
        }
    }

    /// Puts a position under its key, replacing the one that was there.
    pub fn insert(&mut self, position: TrackedPosition)
        ensures
            final(self).listed() == with_position(old(self).listed(), position),
            forall|key: PositionKey| #[trigger]
                final(self).at(key) == (if key == position_key(position) {
                    Some(position)
                } else {
                    old(self).at(key)
                }),
    {
        proof {
            use_type_invariant(&*self);
        }
        let mut entries: Vec<TrackedPosition> = Vec::new();
        std::mem::swap(&mut entries, &mut self.entries);
        let ghost before = entries@;
        match Self::index_of(
            &entries,
            &position.agent,
            &position.venue,
            &position.instrument,
        ) {
            Some(i) => {
                entries.set(i, position);
                proof {
                    assert forall|j: int| 0 <= j < before.len() && j != i implies position_key(
                        #[trigger] before[j],
                    ) != position_key(position) by {
                        assert(position_key(before[i as int]) == position_key(position));
                    }
                    assert(entries@ =~= with_position(before, position));
                    assert(distinct_positions(entries@)) by {
                        assert forall|a: int, b: int| 0 <= a < b < entries@.len() implies
                            position_key(#[trigger] entries@[a]) != position_key(
                            #[trigger] entries@[b],
                        ) by {
                            assert(position_key(before[a]) != position_key(before[b]));
                        }
                    }
                    assert forall|key: PositionKey| #[trigger]
                        position_at(entries@, key, 0) == (if key == position_key(position) {
                            Some(position)
                        } else {
                            position_at(before, key, 0)
                        }) by {
                        lemma_set_position(before, i as int, position, key, 0);
                    }
                }
            },
            None => {
                entries.push(position);
                proof {
                    assert(!has_position(before, position_key(position)));
                    assert(distinct_positions(entries@)) by {
                        assert forall|a: int, b: int| 0 <= a < b < entries@.len() implies
                            position_key(#[trigger] entries@[a]) != position_key(
                            #[trigger] entries@[b],
                        ) by {
                            assert(entries@[a] == before[a]);
                            if b < before.len() {
                                assert(position_key(before[a]) != position_key(before[b]));
                            }
                        }
                    }
                    assert forall|key: PositionKey| #[trigger]
                        position_at(entries@, key, 0) == (if key == position_key(position) {
                            Some(position)
                        } else {
                            position_at(before, key, 0)
                        }) by {
                        lemma_push_position(before, position, key, 0);
                    }
                }
            },
        }
        self.entries = entries;
    }
}

/// Whether no two positions have the same key.
pub open spec fn distinct_positions(s: Seq<TrackedPosition>) -> bool {
    forall|i: int, j: int|
        0 <= i < j < s.len() ==> position_key(#[trigger] s[i]) != position_key(#[trigger] s[j])
}

proof fn lemma_set_position(
    s: Seq<TrackedPosition>,
    at: int,
    p: TrackedPosition,
    key: PositionKey,
    from: int,
)
    requires
        0 <= at < s.len(),
        position_key(s[at]) == position_key(p),
        distinct_positions(s),
        0 <= from,
    ensures
        position_at(s.update(at, p), key, from) == (if key == position_key(p) && from <= at {
            Some(p)
        } else {
            position_at(s, key, from)
        }),
    decreases s.len() - from,
{
    if from < s.len() {
        lemma_set_position(s, at, p, key, from + 1);
        if from < at {
            assert(position_key(s[from]) != position_key(s[at]));
        } else if from > at {
            assert(s.update(at, p)[from] == s[from]);
        }
    }
}

proof fn lemma_push_position(
    s: Seq<TrackedPosition>,
    p: TrackedPosition,
    key: PositionKey,
    from: int,
)
    requires
        forall|i: int| 0 <= i < s.len() ==> position_key(#[trigger] s[i]) != position_key(p),
        0 <= from <= s.len(),
    ensures
        position_at(s.push(p), key, from) == (if key == position_key(p) {
            Some(p)
        } else {
            position_at(s, key, from)
        }),
    decreases s.len() - from,
{
    if from < s.len() {
        assert(s.push(p)[from] == s[from]);
        lemma_push_position(s, p, key, from + 1);
    } else {
        assert(s.push(p)[from] == p);
        assert(position_at(s.push(p), key, from + 1) is None);
    }
}

/// Whether two lists hold the same positions in the same order.
pub open spec fn same_positions(a: Seq<TrackedPosition>, b: Seq<TrackedPosition>) -> bool {
    &&& a.len() == b.len()
    &&& forall|i: int| 0 <= i < a.len() ==> same_position(#[trigger] a[i], b[i])
}

impl Clone for Positions {
    fn clone(&self) -> (r: Positions)
        ensures
            same_positions(self.listed(), r.listed()),
    {
        proof {
            use_type_invariant(self);
        }
        let entries = self.entries.clone();
        proof {
            assert forall|i: int| 0 <= i < entries@.len() implies same_position(
                #[trigger] self.entries@[i],
                entries@[i],
            ) by {
                assert(cloned(self.entries@[i], entries@[i]));
            }
            assert forall|a: int, b: int| 0 <= a < b < entries@.len() implies position_key(
                #[trigger] entries@[a],
            ) != position_key(#[trigger] entries@[b]) by {
                assert(same_position(self.entries@[a], entries@[a]));
                assert(same_position(self.entries@[b], entries@[b]));
            }
        }
        Positions { entries }
    }
}

/// A position in a prediction market.
#[derive(Debug, Clone)]
pub struct PredictionTracker {
    pub market_id: String,
    pub position_qty: Decimal,
    pub entry_price: Decimal,
    pub resolution_status: ResolutionStatus,
    pub pnl: Option<Decimal>,
}

/// Whether a prediction market has been decided.
#[derive(Debug, Clone, PartialEq, Eq)]
pub enum ResolutionStatus {
    Open,
    Resolved { outcome: String, resolved_at: Timestamp },
    Disputed,
    Voided,
}

} // verus!
