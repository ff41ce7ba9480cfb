//! Gateway — the signal → order bridge, venue routing, and the types that pass between the
//! engine and venue adapters.
//!
//! Orchestrates order processing: Validate → CircuitBreaker → RiskGate → Route → Submit.

use crate::agent_risk::{instrument_forbidden, lacks_instrument, lacks_venue, venue_forbidden};
use crate::decimal::{
    lemma_le_transitive, num, num_abs, num_div, num_le, num_lt, num_mul, num_sub, num_text, o_div,
    Decimal, Num,
};
use crate::ids::{
    AgentId, ClientOrderId, InstrumentId, MarketId, OrderId, SignalId, VenueId, VenueOrderId,
};
use crate::limits::AgentRiskLimits;
use crate::pipeline::{
    order_type_text, time_in_force_text, Draft, ExecHint, OrderCore, OrderState, OrderType,
    PipelineOrder, RiskChecked, Routed, TimeInForce,
};
use crate::pnl::{PriceSnapshot, PriceSource};
use crate::portfolio::{agent_status_text, AgentStatus, FirmBook};
use crate::signal::{Side, Signal};
use crate::text::{blank, digits, digits_text, is_blank, joined, joined4, joined5, same_text};
use crate::time::{duration_debug_text, Duration, Timestamp, NANOS_PER_SECOND};
use crate::venue::VenueConnectionHealth;
use vstd::prelude::*;

verus! {

/// Typed errors for gateway operations.
#[derive(Debug)]
pub enum GatewayError {
    VenueNotConnected { venue_id: String, state: String },
    AgentAllocationNotFound { agent_id: String },
    PriceUnavailable { instrument_id: String },
    StalePrice { instrument_id: String, max_age: Duration },
    RoutingUnavailable { instrument_id: String, reason: String },
    Timeout { operation: String, elapsed: Duration },
    VenueRejected { reason: String },
    OrderNotFound(String),
    Unsupported(String),
    Validation(String),
    /// Any other failure, as text.
    Internal(String),
}

/// The content of a [`GatewayError`].
pub enum GatewayFault {
    VenueNotConnected { venue_id: Seq<char>, state: Seq<char> },
    AgentAllocationNotFound { agent_id: Seq<char> },
    PriceUnavailable { instrument_id: Seq<char> },
    StalePrice { instrument_id: Seq<char>, max_age: Duration },
    RoutingUnavailable { instrument_id: Seq<char>, reason: Seq<char> },
    Timeout { operation: Seq<char>, elapsed: Duration },
    VenueRejected { reason: Seq<char> },
    OrderNotFound(Seq<char>),
    Unsupported(Seq<char>),
    Validation(Seq<char>),
    Internal(Seq<char>),
}

impl View for GatewayError {
    type V = GatewayFault;

    open spec fn view(&self) -> GatewayFault {
        match *self {
            GatewayError::VenueNotConnected { venue_id, state } =>
                GatewayFault::VenueNotConnected { venue_id: venue_id@, state: state@ },
            GatewayError::AgentAllocationNotFound { agent_id } =>
                GatewayFault::AgentAllocationNotFound { agent_id: agent_id@ },
            GatewayError::PriceUnavailable { instrument_id } => GatewayFault::PriceUnavailable {
                instrument_id: instrument_id@,
            },
            GatewayError::StalePrice { instrument_id, max_age } => GatewayFault::StalePrice {
                instrument_id: instrument_id@,
                max_age,
            },
            GatewayError::RoutingUnavailable { instrument_id, reason } =>
                GatewayFault::RoutingUnavailable {
                    instrument_id: instrument_id@,
                    reason: reason@,
                },
            GatewayError::Timeout { operation, elapsed } => GatewayFault::Timeout {
                operation: operation@,
                elapsed,
            },
            GatewayError::VenueRejected { reason } => GatewayFault::VenueRejected {
                reason: reason@,
            },
            GatewayError::OrderNotFound(id) => GatewayFault::OrderNotFound(id@),
            GatewayError::Unsupported(what) => GatewayFault::Unsupported(what@),
            GatewayError::Validation(why) => GatewayFault::Validation(why@),
            GatewayError::Internal(why) => GatewayFault::Internal(why@),
        }
    }
}

/// The text of a gateway error.
pub open spec fn gateway_fault_text(f: GatewayFault) -> Seq<char> {
    match f {
        GatewayFault::VenueNotConnected { venue_id, state } => "venue "@ + venue_id
            + " is not connected (state: "@ + state + ")"@,
        GatewayFault::AgentAllocationNotFound { agent_id } => "agent allocation not found for "@
            + agent_id,
        GatewayFault::PriceUnavailable { instrument_id } => "price unavailable for instrument "@
            + instrument_id,
        GatewayFault::StalePrice { instrument_id, max_age } => "price for instrument "@
            + instrument_id + " is stale (max age "@ + duration_debug_text(max_age@ as int)
            + ")"@,
        GatewayFault::RoutingUnavailable { instrument_id, reason } =>
            "no route available for instrument "@ + instrument_id + ": "@ + reason,
        GatewayFault::Timeout { operation, elapsed } => "operation timed out after "@
            + duration_debug_text(elapsed@ as int) + ": "@ + operation,
        GatewayFault::VenueRejected { reason } => "venue rejected order: "@ + reason,
        GatewayFault::OrderNotFound(id) => "order not found: "@ + id,
        GatewayFault::Unsupported(what) => "venue does not support: "@ + what,
        GatewayFault::Validation(why) => "validation failed: "@ + why,
        GatewayFault::Internal(why) => why,
    }
}

impl GatewayError {
    /// The error as text.
    pub fn text(&self) -> (r: String)
        ensures
            r@ == gateway_fault_text(self@),
    {
        match self {
            GatewayError::VenueNotConnected { venue_id, state } => joined5(
                "venue ",
                venue_id.as_str(),
                " is not connected (state: ",
                state.as_str(),
                ")",
            ),
            GatewayError::AgentAllocationNotFound { agent_id } => joined(
                "agent allocation not found for ",
                agent_id.as_str(),
            ),
            GatewayError::PriceUnavailable { instrument_id } => joined(
                "price unavailable for instrument ",
                instrument_id.as_str(),
            ),
            GatewayError::StalePrice { instrument_id, max_age } => joined5(
                "price for instrument ",
                instrument_id.as_str(),
                " is stale (max age ",
                max_age.debug_text().as_str(),
                ")",
            ),
            GatewayError::RoutingUnavailable { instrument_id, reason } => joined4(
                "no route available for instrument ",
                instrument_id.as_str(),
                ": ",
                reason.as_str(),
            ),
            GatewayError::Timeout { operation, elapsed } => joined4(
                "operation timed out after ",
                elapsed.debug_text().as_str(),
                ": ",
                operation.as_str(),
            ),
            GatewayError::VenueRejected { reason } => joined(
                "venue rejected order: ",
                reason.as_str(),
            ),
            GatewayError::OrderNotFound(id) => joined("order not found: ", id.as_str()),
            GatewayError::Unsupported(what) => joined("venue does not support: ", what.as_str()),
            GatewayError::Validation(why) => joined("validation failed: ", why.as_str()),
            GatewayError::Internal(why) => why.clone(),
        }
    }
}

// ─── Symbol map ───

/// One venue-native listing for an instrument.
#[derive(Debug, PartialEq, Eq, Hash)]
pub struct VenueSymbol {
    pub venue_id: VenueId,
    pub symbol: String,
}

impl Clone for VenueSymbol {
    fn clone(&self) -> (r: VenueSymbol)
        ensures
            r == *self,
    {
        VenueSymbol { venue_id: self.venue_id.clone(), symbol: self.symbol.clone() }
    }
}

/// The content of a [`VenueSymbol`].
pub struct Market {
    pub venue: Seq<char>,
    pub symbol: Seq<char>,
}

impl View for VenueSymbol {
    type V = Market;

    open spec fn view(&self) -> Market {
        Market { venue: self.venue_id@, symbol: self.symbol@ }
    }
}

/// The contents of a list of venue symbols.
pub open spec fn markets(s: Seq<VenueSymbol>) -> Seq<Market> {
    s.map_values(|v: VenueSymbol| v@)
}

/// A venue symbol and the instrument that it stands for.
pub struct Listing {
    pub market: Market,
    pub instrument: Seq<char>,
}

/// The instrument that a venue symbol stands for.
pub open spec fn instrument_of(listings: Seq<Listing>, market: Market) -> Option<Seq<char>>
    decreases listings.len(),
{
    if listings.len() == 0 {
        None
    } else if listings.last().market == market {
        Some(listings.last().instrument)
    } else {
        instrument_of(listings.drop_last(), market)
    }
}

/// The venue symbols of an instrument, in the order in which they were listed.
pub open spec fn venues_of(listings: Seq<Listing>, instrument: Seq<char>) -> Seq<Market>
    decreases listings.len(),
{
    if listings.len() == 0 {
        seq![]
    } else {
        let before = venues_of(listings.drop_last(), instrument);
        if listings.last().instrument == instrument {
            before.push(listings.last().market)
        } else {
            before
        }
    }
}

/// Whether no venue symbol is listed twice.
pub open spec fn listed_once(listings: Seq<Listing>) -> bool {
    forall|i: int, j: int|
        0 <= i < j < listings.len() ==> (#[trigger] listings[i]).market != (
        #[trigger] listings[j]).market
}

/// A venue symbol stands for an instrument exactly where it is among the instrument's
/// venue symbols: the two lookups of a symbol map agree.
pub proof fn law_lookups_agree(listings: Seq<Listing>, market: Market, instrument: Seq<char>)
    requires
        listed_once(listings),
    ensures
        venues_of(listings, instrument).contains(market) <==> instrument_of(listings, market)
            == Some(instrument),
    decreases listings.len(),
{
    if listings.len() > 0 {
        let rest = listings.drop_last();
        assert(listed_once(rest)) by {
            assert forall|i: int, j: int| 0 <= i < j < rest.len() implies (
            #[trigger] rest[i]).market != (#[trigger] rest[j]).market by {
                assert(rest[i] == listings[i] && rest[j] == listings[j]);
            }
        }
        law_lookups_agree(rest, market, instrument);
        let before = venues_of(rest, instrument);
        let last = listings.last();
        if last.instrument == instrument {
            let all = venues_of(listings, instrument);
            assert(all == before.push(last.market));
            if last.market == market {
                assert(all[all.len() - 1] == market);
            } else {
                if all.contains(market) {
                    let k = choose|k: int| 0 <= k < all.len() && all[k] == market;
                    assert(before[k] == market);
                }
                if before.contains(market) {
                    let k = choose|k: int| 0 <= k < before.len() && before[k] == market;
                    assert(all[k] == market);
                }
            }
        } else if last.market == market {
            if before.contains(market) {
                lemma_listed(rest, market, instrument);
                let k = choose|k: int|
                    0 <= k < rest.len() && (#[trigger] rest[k]).market == market;
                assert(listings[k].market == listings[listings.len() - 1].market);
                assert(false);
            }
        }
    }
}

/// A venue symbol among an instrument's is listed.
proof fn lemma_listed(listings: Seq<Listing>, market: Market, instrument: Seq<char>)
    requires
        venues_of(listings, instrument).contains(market),
    ensures
        exists|k: int| 0 <= k < listings.len() && (#[trigger] listings[k]).market == market,
    decreases listings.len(),
{
    if listings.len() > 0 {
        let rest = listings.drop_last();
        let before = venues_of(rest, instrument);
        if listings.last().market == market {
            assert(listings[listings.len() - 1].market == market);
        } else {
            let all = venues_of(listings, instrument);
            let k = choose|k: int| 0 <= k < all.len() && all[k] == market;
            assert(before.contains(market)) by {
                assert(before[k] == market);
            }
            lemma_listed(rest, market, instrument);
            let i = choose|i: int| 0 <= i < rest.len() && (#[trigger] rest[i]).market == market;
            assert(listings[i].market == market);
        }
    }
}

/// A stored listing.
#[derive(Debug)]
struct StoredListing {
    venue: VenueSymbol,
    instrument_id: InstrumentId,
}

impl Clone for StoredListing {
    fn clone(&self) -> (r: StoredListing)
        ensures
            r == *self,
    {
        StoredListing { venue: self.venue.clone(), instrument_id: self.instrument_id.clone() }
    }
}

spec fn listing_of(l: StoredListing) -> Listing {
    Listing { market: l.venue@, instrument: l.instrument_id@ }
}

spec fn listings_of(s: Seq<StoredListing>) -> Seq<Listing> {
    s.map_values(|l: StoredListing| listing_of(l))
}

/// Mapping between venue-native symbols and unified instrument identifiers.
#[derive(Debug)]
pub struct SymbolMap {
    entries: Vec<StoredListing>,
}

impl Clone for SymbolMap {
    fn clone(&self) -> (r: SymbolMap)
        ensures
            r.listings() == self.listings(),
    {
        proof {
            use_type_invariant(self);
        }
        let entries = self.entries.clone();
        assert(entries@ =~= self.entries@);
        SymbolMap { entries }
    }
}

impl Default for SymbolMap {
    fn default() -> (r: SymbolMap)
        ensures
            r.listings() == Seq::<Listing>::empty(),
    {
        let r = SymbolMap { entries: Vec::new() };
        assert(listings_of(r.entries@) =~= Seq::<Listing>::empty());
        r
    }
}

impl SymbolMap {
    #[verifier::type_invariant]
    closed spec fn well_formed(self) -> bool {
        listed_once(listings_of(self.entries@))
    }

    /// The listings, in the order in which they were inserted.
    pub closed spec fn listings(&self) -> Seq<Listing> {
        listings_of(self.entries@)
    }

    /// The position of a venue symbol.
    fn position(entries: &Vec<StoredListing>, venue_id: &VenueId, symbol: &str) -> (r: Option<
        usize,
    >)
        ensures
            ({
                let market = Market { venue: venue_id@, symbol: symbol@ };
                match r {
                    Some(i) => {
                        &&& i < entries@.len()
                        &&& entries@[i as int].venue@ == market
                        &&& instrument_of(listings_of(entries@), market) == Some(
                            entries@[i as int].instrument_id@,
                        )
                    },
                    None => {
                        &&& instrument_of(listings_of(entries@), market) is None
                        &&& forall|i: int|
                            0 <= i < entries@.len() ==> (#[trigger] entries@[i]).venue@ != market
                    },
                }
            }),
    {
        let ghost market = Market { venue: venue_id@, symbol: symbol@ };
        let ghost all = listings_of(entries@);
        let mut n: usize = entries.len();
        assert(all.take(n as int) =~= all);
        while n > 0
            invariant
                n <= entries@.len(),
                market == (Market { venue: venue_id@, symbol: symbol@ }),
                all == listings_of(entries@),
                instrument_of(all, market) == instrument_of(all.take(n as int), market),
                forall|i: int| n <= i < entries@.len() ==> (#[trigger] entries@[i]).venue@ != market,
            decreases n,
        {
            let ghost part = all.take(n as int);
            assert(part.drop_last() =~= all.take(n - 1));
            assert(part.last() == listing_of(entries@[n - 1]));
            n = n - 1;
            if entries[n].venue.venue_id.same(venue_id) && same_text(
                entries[n].venue.symbol.as_str(),
                symbol,
            ) {
                return Some(n);
            }
        }
        None
    }

    /// Insert a new `(venue, symbol) → instrument` mapping.
    pub fn insert(&mut self, venue_id: VenueId, symbol: &str, instrument_id: InstrumentId) -> (r:
        Result<(), GatewayError>)
        ensures
            ({
                let market = Market { venue: venue_id@, symbol: symbol@ };
                match instrument_of(old(self).listings(), market) {
                    Some(existing) => {
                        &&& final(self).listings() == old(self).listings()
                        &&& if existing == instrument_id@ {
                            r == Ok::<(), GatewayError>(())
                        } else {
                            r matches Err(e) && e@ == GatewayFault::Validation(
                                "symbol map conflict for "@ + venue_id@ + ":"@ + symbol@
                                    + ": already mapped to "@ + existing,
                            )
                        }
                    },
                    None => {
                        &&& r == Ok::<(), GatewayError>(())
                        &&& final(self).listings() == old(self).listings().push(
                            Listing { market, instrument: instrument_id@ },
                        )
                    },
                }
            }),
    {
        proof {
            use_type_invariant(&*self);
        }
        match Self::position(&self.entries, &venue_id, symbol) {
            Some(i) => {
                let existing = &self.entries[i].instrument_id;
                if existing.same(&instrument_id) {
                    Ok(())
                } else {
                    Err(
                        GatewayError::Validation(
                            joined(
                                joined5(
                                    "symbol map conflict for ",
                                    venue_id.as_str(),
                                    ":",
                                    symbol,
                                    ": already mapped to ",
                                ).as_str(),
                                existing.as_str(),
                            ),
                        ),
                    )
                }
            },
            None => {
                let mut entries: Vec<StoredListing> = Vec::new();
                std::mem::swap(&mut entries, &mut self.entries);
                let ghost before = entries@;
                let added = StoredListing {
                    venue: VenueSymbol { venue_id, symbol: symbol.to_owned() },
                    instrument_id,
                };
                let ghost listing = listing_of(added);
                entries.push(added);
                proof {
                    let after = listings_of(entries@);
                    assert(after =~= listings_of(before).push(listing));
                    assert forall|i: int, j: int| 0 <= i < j < after.len() implies (
                    #[trigger] after[i]).market != (#[trigger] after[j]).market by {
                        assert(after[i] == listing_of(before[i]));
                        assert(before[i].venue@ != listing.market);
                        if j < before.len() {
                            assert(listings_of(before)[i].market != listings_of(before)[j].market);
                        }
                    }
                }
                self.entries = entries;
                Ok(())
            },
        }
    }

    /// Resolve the unified instrument for a venue-native symbol.
    #[must_use]
    pub fn instrument_for(&self, venue_id: &VenueId, symbol: &str) -> (r: Option<&InstrumentId>)
        ensures
            listed_once(self.listings()),
            match r {
                Some(id) => instrument_of(
                    self.listings(),
                    Market { venue: venue_id@, symbol: symbol@ },
                ) == Some(id@),
                None => instrument_of(
                    self.listings(),
                    Market { venue: venue_id@, symbol: symbol@ },
                ) is None,
            },
    {
        proof {
            use_type_invariant(self);
        }
        match Self::position(&self.entries, venue_id, symbol) {
            Some(i) => Some(&self.entries[i].instrument_id),
            None => None,
        }
    }

    /// Resolve all venue-native listings for a unified instrument.
    #[must_use]
    pub fn venues_for(&self, instrument_id: &InstrumentId) -> (r: Option<Vec<VenueSymbol>>)
        ensures
            listed_once(self.listings()),
            match r {
                Some(list) => list@.len() > 0 && markets(list@) == venues_of(
                    self.listings(),
                    instrument_id@,
                ),
                None => venues_of(self.listings(), instrument_id@).len() == 0,
            },
    {
        proof {
            use_type_invariant(self);
        }
        let ghost all = listings_of(self.entries@);
        let mut list: Vec<VenueSymbol> = Vec::new();
        let mut i: usize = 0;
        assert(markets(list@) =~= venues_of(all.take(0), instrument_id@));
        while i < self.entries.len()
            invariant
                i <= self.entries@.len(),
                all == listings_of(self.entries@),
                markets(list@) == venues_of(all.take(i as int), instrument_id@),
            decreases self.entries@.len() - i,
        {
            let ghost part = all.take(i + 1);
            assert(part.drop_last() =~= all.take(i as int));
            assert(part.last() == listing_of(self.entries@[i as int]));
            if self.entries[i].instrument_id.same(instrument_id) {
                let ghost before = list@;
                list.push(self.entries[i].venue.clone());
                assert(markets(list@) =~= markets(before).push(self.entries@[i as int].venue@));
            }
            i = i + 1;
        }
        assert(all.take(i as int) =~= all);
        assert(markets(list@).len() == list@.len());
        if list.len() > 0 {
            Some(list)
        } else {
            None
        }
    }
}

// ─── Routing ───

/// Current routing inputs for one venue.
#[derive(Debug)]
pub struct VenueRouteState {
    pub connection_health: VenueConnectionHealth,
    pub available_balance: Decimal,
}

impl Clone for VenueRouteState {
    fn clone(&self) -> (r: VenueRouteState)
        ensures
            r == *self,
    {
        VenueRouteState {
            connection_health: self.connection_health.clone(),
            available_balance: self.available_balance,
        }
    }
}

impl VenueRouteState {
    /// The venue.
    #[must_use]
    pub fn venue_id(&self) -> (r: &VenueId)
        ensures
            *r == self.connection_health.venue_id,
    {
        &self.connection_health.venue_id
    }
}

/// Deterministic routing policy for signals.
#[derive(Debug, Clone, Copy, PartialEq, Eq, Structural)]
pub enum SignalRoutingPolicy {
    /// Use the first venue listed in the symbol map after filters are applied.
    FirstListed,
    /// Prefer the eligible venue with the most available balance.
    HighestAvailableBalance,
}

impl Default for SignalRoutingPolicy {
    fn default() -> (r: SignalRoutingPolicy)
        ensures
            r is HighestAvailableBalance,
    {
        SignalRoutingPolicy::HighestAvailableBalance
    }
}

/// Static bridge configuration for constructing draft orders from signals.
#[derive(Debug, Clone, Copy)]
pub struct SignalOrderBridgeConfig {
    pub default_order_type: OrderType,
    pub default_time_in_force: TimeInForce,
    pub dry_run: bool,
    pub routing_policy: SignalRoutingPolicy,
    pub max_price_age: Duration,
}

impl Default for SignalOrderBridgeConfig {
    fn default() -> (r: SignalOrderBridgeConfig)
        ensures
            r.default_order_type is Market,
            r.default_time_in_force is IOC,
            r.dry_run,
            r.routing_policy is HighestAvailableBalance,
            r.max_price_age@ == 30 * NANOS_PER_SECOND,
    {
        SignalOrderBridgeConfig {
            default_order_type: OrderType::Market,
            default_time_in_force: TimeInForce::IOC,
            dry_run: true,
            routing_policy: SignalRoutingPolicy::HighestAvailableBalance,
            max_price_age: Duration::from_secs(30),
        }
    }
}

/// The position of the first state of a venue, from an index on.
pub open spec fn state_at(states: Seq<VenueRouteState>, venue: Seq<char>, from: int) -> Option<int>
    decreases states.len() - from,
{
    if from < 0 || from >= states.len() {
        None
    } else if states[from].connection_health.venue_id@ == venue {
        Some(from)
    } else {
        state_at(states, venue, from + 1)
    }
}

/// A venue that an order may go to, with its available balance.
pub struct Candidate {
    pub market: Market,
    pub balance: Num,
}

/// Whether a venue is allowed by an agent's limits. No limits allow every venue.
pub open spec fn venue_allowed(limits: Option<&AgentRiskLimits>, venue: Seq<char>) -> bool {
    limits matches Some(l) ==> !venue_forbidden(*l, venue)
}

/// A venue as a candidate, where its state is known, it is allowed, and it is connected.
pub open spec fn candidate_at(
    market: Market,
    limits: Option<&AgentRiskLimits>,
    states: Seq<VenueRouteState>,
) -> Option<Candidate> {
    match state_at(states, market.venue, 0) {
        Some(i) => if venue_allowed(limits, market.venue)
            && states[i].connection_health.state is Connected {
            Some(Candidate { market, balance: states[i].available_balance@ })
        } else {
            None
        },
        None => None,
    }
}

/// The candidates among listed venues, in listing order.
pub open spec fn candidates(
    listed: Seq<Market>,
    limits: Option<&AgentRiskLimits>,
    states: Seq<VenueRouteState>,
) -> Seq<Candidate>
    decreases listed.len(),
{
    if listed.len() == 0 {
        seq![]
    } else {
        let before = candidates(listed.drop_last(), limits, states);
        match candidate_at(listed.last(), limits, states) {
            Some(c) => before.push(c),
            None => before,
        }
    }
}

/// The candidate with the highest balance; the last of several equal ones.
pub open spec fn richest(list: Seq<Candidate>) -> Candidate
    decreases list.len(),
{
    if list.len() <= 1 {
        list[0]
    } else {
        let best = richest(list.drop_last());
        if num_lt(list.last().balance, best.balance) {
            best
        } else {
            list.last()
        }
    }
}

/// The candidate that a policy prefers.
pub open spec fn preferred(policy: SignalRoutingPolicy, list: Seq<Candidate>) -> Candidate {
    match policy {
        SignalRoutingPolicy::FirstListed => list[0],
        SignalRoutingPolicy::HighestAvailableBalance => richest(list),
    }
}

/// The venue that a signal is routed to, or why there is none.
pub open spec fn routed(
    policy: SignalRoutingPolicy,
    listings: Seq<Listing>,
    signal: Signal,
    limits: Option<&AgentRiskLimits>,
    states: Seq<VenueRouteState>,
) -> Result<Market, GatewayFault> {
    let instrument_id = signal.instrument@;
    let listed = venues_of(listings, instrument_id);
    let eligible = candidates(listed, limits, states);
    if limits matches Some(l) && instrument_forbidden(*l, instrument_id) {
        Err(
            GatewayFault::RoutingUnavailable {
                instrument_id,
                reason: "instrument "@ + instrument_id + " is not allowed for agent "@
                    + signal.agent@,
            },
        )
    } else if listed.len() == 0 {
        Err(
            GatewayFault::RoutingUnavailable {
                instrument_id,
                reason: "instrument is missing from the symbol map"@,
            },
        )
    } else if eligible.len() == 0 {
        Err(
            GatewayFault::RoutingUnavailable {
                instrument_id,
                reason: "no mapped venue is simultaneously allowed and connected for "@
                    + instrument_id,
            },
        )
    } else {
        Ok(preferred(policy, eligible).market)
    }
}

/// Finds the first state of a venue.
fn find_state(states: &[VenueRouteState], venue: &VenueId) -> (r: Option<usize>)
    ensures
        match r {
            Some(i) => i < states@.len() && state_at(states@, venue@, 0) == Some(i as int),
            None => state_at(states@, venue@, 0) is None,
        },
{
    let mut i: usize = 0;
    while i < states.len()
        invariant
            i <= states@.len(),
            state_at(states@, venue@, 0) == state_at(states@, venue@, i as int),
        decreases states@.len() - i,
    {
        if states[i].venue_id().same(venue) {
            return Some(i);
        }
        i = i + 1;
    }
    None
}

/// A venue's available balance, where it is a candidate.
fn candidate_balance(
    mapping: &VenueSymbol,
    agent_limits: Option<&AgentRiskLimits>,
    states: &[VenueRouteState],
) -> (r: Option<Decimal>)
    ensures
        match r {
            Some(balance) => candidate_at(mapping@, agent_limits, states@) == Some(
                Candidate { market: mapping@, balance: balance@ },
            ),
            None => candidate_at(mapping@, agent_limits, states@) is None,
        },
{
    let i: usize = find_state(states, &mapping.venue_id)?;
    let state = &states[i];
    if let Some(limits) = agent_limits {
        if let Some(allowed) = &limits.allowed_venues {
            if lacks_venue(allowed, &mapping.venue_id) {
                return None;
            }
        }
    }
    if !state.connection_health.is_submittable() {
        return None;
    }
    Some(state.available_balance)
}

// ─── Signal → order ───

/// The name of a side.
pub open spec fn side_text(side: Side) -> Seq<char> {
    match side {
        Side::Buy => "Buy"@,
        Side::Sell => "Sell"@,
    }
}

/// The name of a side.
pub fn side_name(side: Side) -> (r: &'static str)
    ensures
        r@ == side_text(side),
{
    match side {
        Side::Buy => "Buy",
        Side::Sell => "Sell",
    }
}

/// What is wrong with a signal in itself.
pub open spec fn signal_fault(signal: Signal) -> Option<Seq<char>> {
    if signal.conviction@.m < 0 || num_lt(num(1, 0), signal.conviction@) {
        Some("signal conviction must be within 0.0..=1.0, got "@ + num_text(signal.conviction@))
    } else if signal.conviction@.m == 0 && signal.sizing_hint is Some {
        Some("sizing_hint provided with zero conviction; intent is ambiguous"@)
    } else if signal.stop_loss@.m <= 0 {
        Some("signal stop_loss must be positive, got "@ + num_text(signal.stop_loss@))
    } else if blank(signal.thesis@) {
        Some("signal thesis must be non-empty"@)
    } else {
        match signal.sizing_hint {
            Some(hint) => if hint@.m <= 0 {
                Some("signal sizing_hint must be positive, got "@ + num_text(hint@))
            } else {
                None
            },
            None => None,
        }
    }
}

/// Whether a price lies beyond another on the losing side of a trade.
pub open spec fn losing(side: Side, exit: Num, price: Num) -> bool {
    match side {
        Side::Buy => num_lt(exit, price),
        Side::Sell => num_lt(price, exit),
    }
}

/// Whether a price lies beyond another on the profitable side of a trade.
pub open spec fn winning(side: Side, exit: Num, price: Num) -> bool {
    match side {
        Side::Buy => num_lt(price, exit),
        Side::Sell => num_lt(exit, price),
    }
}

/// What is wrong with a signal's exits at a price.
pub open spec fn exit_fault(signal: Signal, price: Num) -> Option<Seq<char>> {
    if !losing(signal.direction, signal.stop_loss@, price) {
        Some(
            "stop_loss "@ + num_text(signal.stop_loss@)
                + " is not on the losing side of reference price "@ + num_text(price) + " for "@
                + side_text(signal.direction),
        )
    } else {
        match signal.take_profit {
            Some(target) => if !winning(signal.direction, target@, price) {
                Some(
                    "take_profit "@ + num_text(target@)
                        + " is not on the profitable side of reference price "@ + num_text(price)
                        + " for "@ + side_text(signal.direction),
                )
            } else {
                None
            },
            None => None,
        }
    }
}

/// The price at which a signal is traded, from what the price source says.
pub open spec fn reference_price(
    signal: Signal,
    quote: Option<PriceSnapshot>,
    stale: bool,
    max_age: Duration,
) -> Result<Decimal, GatewayFault> {
    match quote {
        None => Err(GatewayFault::PriceUnavailable { instrument_id: signal.instrument@ }),
        Some(snapshot) => {
            let price = match signal.direction {
                Side::Buy => snapshot.ask,
                Side::Sell => snapshot.bid,
            };
            if stale {
                Err(GatewayFault::StalePrice { instrument_id: signal.instrument@, max_age })
            } else if price@.m <= 0 {
                Err(
                    GatewayFault::Validation(
                        "reference price must be positive, got "@ + num_text(price@),
                    ),
                )
            } else {
                Ok(price)
            }
        },
    }
}

/// The quantity to trade: the hinted notional at the price, or else as much that the loss
/// at the stop is the conviction's part of the agent's capital. `None` where a number
/// exceeds its range.
pub open spec fn sized(signal: Signal, capital: Num, price: Num) -> Option<
    Result<Num, GatewayFault>,
> {
    match signal.sizing_hint {
        Some(hint) => if num_lt(capital, hint@) {
            Some(
                Err(
                    GatewayFault::Validation(
                        "sizing_hint "@ + num_text(hint@)
                            + " exceeds agent allocated_capital "@ + num_text(capital),
                    ),
                ),
            )
        } else {
            positive_qty(num_div(hint@, price))
        },
        None => match num_sub(price, signal.stop_loss@) {
            Some(distance) => if num_abs(distance).m <= 0 {
                Some(
                    Err(
                        GatewayFault::Validation(
                            "signal stop_loss must differ from the reference price"@,
                        ),
                    ),
                )
            } else {
                positive_qty(
                    o_div(num_mul(signal.conviction@, capital), Some(num_abs(distance))),
                )
            },
            None => None,
        },
    }
}

/// A quantity, which must be positive.
pub open spec fn positive_qty(qty: Option<Num>) -> Option<Result<Num, GatewayFault>> {
    match qty {
        Some(q) => if q.m <= 0 {
            Some(
                Err(
                    GatewayFault::Validation(
                        "signal sizing produced a non-positive quantity: "@ + num_text(q),
                    ),
                ),
            )
        } else {
            Some(Ok(q))
        },
        None => None,
    }
}

/// What a signal is turned into.
pub struct DraftPlan {
    pub market: Market,
    pub qty: Num,
    pub price: Decimal,
}

/// What comes of a signal before its price is looked up: an error, nothing to do, or the
/// agent's capital.
pub open spec fn screened(signal: Signal, book: FirmBook) -> Result<Option<Num>, GatewayFault> {
    match signal_fault(signal) {
        Some(why) => Err(GatewayFault::Validation(why)),
        None => if !book.agent_allocations@.contains_key(signal.agent@) {
            Err(GatewayFault::AgentAllocationNotFound { agent_id: signal.agent@ })
        } else {
            let allocation = book.agent_allocations@[signal.agent@];
            if !(allocation.status is Active) {
                Err(
                    GatewayFault::Validation(
                        "agent "@ + signal.agent@ + " is not active: "@ + agent_status_text(
                            allocation.status,
                        ),
                    ),
                )
            } else if signal.conviction@.m == 0 {
                Ok(None)
            } else {
                Ok(Some(allocation.allocated_capital@))
            }
        },
    }
}

/// What comes of a screened signal at a quote. `None` where a number exceeds its range.
pub open spec fn planned(
    config: SignalOrderBridgeConfig,
    listings: Seq<Listing>,
    signal: Signal,
    capital: Num,
    limits: Option<&AgentRiskLimits>,
    quote: Option<PriceSnapshot>,
    stale: bool,
    states: Seq<VenueRouteState>,
) -> Option<Result<DraftPlan, GatewayFault>> {
    match reference_price(signal, quote, stale, config.max_price_age) {
        Err(f) => Some(Err(f)),
        Ok(price) => match exit_fault(signal, price@) {
            Some(why) => Some(Err(GatewayFault::Validation(why))),
            None => match sized(signal, capital, price@) {
                None => None,
                Some(Err(f)) => Some(Err(f)),
                Some(Ok(qty)) => match routed(
                    config.routing_policy,
                    listings,
                    signal,
                    limits,
                    states,
                ) {
                    Err(f) => Some(Err(f)),
                    Ok(market) => Some(Ok(DraftPlan { market, qty, price })),
                },
            },
        },
    }
}

/// What comes of a signal: an error, no order, or one. `None` where a number exceeds its
/// range.
pub open spec fn bridged(
    config: SignalOrderBridgeConfig,
    listings: Seq<Listing>,
    signal: Signal,
    book: FirmBook,
    limits: Option<&AgentRiskLimits>,
    quote: Option<PriceSnapshot>,
    stale: bool,
    states: Seq<VenueRouteState>,
) -> Option<Result<Option<DraftPlan>, GatewayFault>> {
    match screened(signal, book) {
        Err(f) => Some(Err(f)),
        Ok(None) => Some(Ok(None)),
        Ok(Some(capital)) => match planned(
            config,
            listings,
            signal,
            capital,
            limits,
            quote,
            stale,
            states,
        ) {
            None => None,
            Some(Err(f)) => Some(Err(f)),
            Some(Ok(plan)) => Some(Ok(Some(plan))),
        },
    }
}

/// Whether an order is the draft that a plan calls for.
pub open spec fn drafted(
    core: OrderCore,
    config: SignalOrderBridgeConfig,
    signal: Signal,
    plan: DraftPlan,
    now: Timestamp,
) -> bool {
    &&& core.id@ == "ord-"@ + signal.id@
    &&& core.basket_id == signal.basket_id
    &&& core.agent_id == signal.agent
    &&& core.instrument_id == signal.instrument
    &&& core.market_id@ == plan.market.symbol
    &&& core.venue_id@ == plan.market.venue
    &&& core.side == signal.direction
    &&& core.order_type == config.default_order_type
    &&& core.time_in_force == config.default_time_in_force
    &&& core.qty@ == plan.qty
    &&& core.price == Some(plan.price)
    &&& core.trigger_price is None
    &&& core.stop_loss == Some(signal.stop_loss)
    &&& core.take_profit == signal.take_profit
    &&& !core.post_only && !core.reduce_only
    &&& core.dry_run == config.dry_run
    &&& !core.exec_hint.allow_emulation
    &&& core.created_at == now
}

/// Whether the bridge's answer is what comes of a signal.
pub open spec fn answers(
    r: Result<Vec<PipelineOrder<Draft>>, GatewayError>,
    outcome: Result<Option<DraftPlan>, GatewayFault>,
    config: SignalOrderBridgeConfig,
    signal: Signal,
    now: Timestamp,
) -> bool {
    match (r, outcome) {
        (Ok(orders), Ok(None)) => orders@.len() == 0,
        (Ok(orders), Ok(Some(plan))) => orders@.len() == 1 && drafted(
            orders@[0].order(),
            config,
            signal,
            plan,
            now,
        ),
        (Err(e), Err(f)) => e@ == f,
        _ => false,
    }
}

/// Pure signal bridge: conviction sizing, explicit routing, draft construction.
#[derive(Debug)]
pub struct SignalOrderBridge {
    pub config: SignalOrderBridgeConfig,
    pub symbol_map: SymbolMap,
}

impl SignalOrderBridge {
    /// A bridge with the given configuration and listings.
    #[must_use]
    pub fn new(config: SignalOrderBridgeConfig, symbol_map: SymbolMap) -> (r: SignalOrderBridge)
        ensures
            r.config == config,
            r.symbol_map == symbol_map,
    {
        SignalOrderBridge { config, symbol_map }
    }

    /// Translate one signal into zero or more draft orders. `None` where a number exceeds
    /// its range.
    ///
    /// The bridge emits a single draft order for single-leg signals, and none for a
    /// signal without conviction. The answer follows from a price that the source may quote
    /// for the signal's instrument and from whether it may call that price stale at the
    /// configured age; [`SignalOrderBridge::orders_at_quote`] says what each reply leads to.
    #[must_use]
    pub fn signal_to_orders(
        &self,
        signal: &Signal,
        firm_book: &FirmBook,
        agent_limits: Option<&AgentRiskLimits>,
        price_source: &dyn PriceSource,
        venue_states: &[VenueRouteState],
        now: Timestamp,
    ) -> (r: Option<Result<Vec<PipelineOrder<Draft>>, GatewayError>>)
        ensures
            exists|quote: Option<PriceSnapshot>, stale: bool|
                {
                    let outcome = #[trigger] bridged(
                        self.config,
                        self.symbol_map.listings(),
                        *signal,
                        *firm_book,
                        agent_limits,
                        quote,
                        stale,
                        venue_states@,
                    );
                    &&& screened(*signal, *firm_book) matches Ok(Some(_)) ==> {
                        &&& price_source.may_quote(signal.instrument, quote)
                        &&& quote is Some ==> price_source.may_be_stale(
                            signal.instrument,
                            self.config.max_price_age,
                            stale,
                        )
                    }
                    &&& match r {
                        Some(answer) => outcome is Some && answers(
                            answer,
                            outcome->0,
                            self.config,
                            *signal,
                            now,
                        ),
                        None => outcome is None,
                    }
                },
    {
        let quote: Option<PriceSnapshot>;
        let mut stale = false;
        match self.screen(signal, firm_book) {
            Ok(Some(_)) => {
                quote = price_source.latest_price(&signal.instrument);
                if quote.is_some() {
                    stale = price_source.is_stale(&signal.instrument, self.config.max_price_age);
                }
            },
            _ => {
                quote = None;
            },
        }
        self.checked_orders_at_quote(
            signal,
            firm_book,
            agent_limits,
            quote,
            stale,
            venue_states,
            now,
        )
    }

    /// Translate one signal into zero or more draft orders, at a quote.
    pub fn orders_at_quote(
        &self,
        signal: &Signal,
        firm_book: &FirmBook,
        agent_limits: Option<&AgentRiskLimits>,
        quote: Option<PriceSnapshot>,
        stale: bool,
        venue_states: &[VenueRouteState],
        now: Timestamp,
    ) -> (r: Result<Vec<PipelineOrder<Draft>>, GatewayError>)
        requires
            bridged(
                self.config,
                self.symbol_map.listings(),
                *signal,
                *firm_book,
                agent_limits,
                quote,
                stale,
                venue_states@,
            ) is Some,
        ensures
            answers(
                r,
                bridged(
                    self.config,
                    self.symbol_map.listings(),
                    *signal,
                    *firm_book,
                    agent_limits,
                    quote,
                    stale,
                    venue_states@,
                )->0,
                self.config,
                *signal,
                now,
            ),
    {
        let capital = match self.screen(signal, firm_book) {
            Ok(Some(capital)) => capital,
            Ok(None) => {
                return Ok(Vec::new());
            },
            Err(e) => {
                return Err(e);
            },
        };
        let (venue, qty, price) = match self.plan(
            signal,
            capital,
            agent_limits,
            &quote,
            stale,
            venue_states,
        ).unwrap() {
            Ok(plan) => plan,
            Err(e) => {
                return Err(e);
            },
        };
        let order = OrderCore {
            id: Self::order_id_for_signal(&signal.id),
            basket_id: match &signal.basket_id {
                Some(b) => Some(b.clone()),
                None => None,
            },
            agent_id: signal.agent.clone(),
            instrument_id: signal.instrument.clone(),
            market_id: MarketId(venue.symbol),
            venue_id: venue.venue_id,
            side: signal.direction,
            order_type: self.config.default_order_type,
            time_in_force: self.config.default_time_in_force,
            qty,
            // Market orders still carry a reference price so downstream risk checks
            // can size and evaluate them deterministically.
            price: Some(price),
            trigger_price: None,
            stop_loss: Some(signal.stop_loss),
            take_profit: signal.take_profit,
            post_only: false,
            reduce_only: false,
            dry_run: self.config.dry_run,
            exec_hint: ExecHint::default(),
            created_at: now,
        };
        let mut orders: Vec<PipelineOrder<Draft>> = Vec::new();
        orders.push(PipelineOrder::new(order));
        Ok(orders)
    }

    /// Translate one signal into zero or more draft orders, at a quote; `None` where a
    /// number exceeds its range.
    pub fn checked_orders_at_quote(
        &self,
        signal: &Signal,
        firm_book: &FirmBook,
        agent_limits: Option<&AgentRiskLimits>,
        quote: Option<PriceSnapshot>,
        stale: bool,
        venue_states: &[VenueRouteState],
        now: Timestamp,
    ) -> (r: Option<Result<Vec<PipelineOrder<Draft>>, GatewayError>>)
        ensures
            ({
                let outcome = bridged(
                    self.config,
                    self.symbol_map.listings(),
                    *signal,
                    *firm_book,
                    agent_limits,
                    quote,
                    stale,
                    venue_states@,
                );
                match r {
                    Some(answer) => outcome is Some && answers(
                        answer,
                        outcome->0,
                        self.config,
                        *signal,
                        now,
                    ),
                    None => outcome is None,
                }
            }),
    {
        if let Ok(Some(capital)) = self.screen(signal, firm_book) {
            let _ = self.plan(signal, capital, agent_limits, &quote, stale, venue_states)?;
        }
        Some(
            self.orders_at_quote(
                signal,
                firm_book,
                agent_limits,
                quote,
                stale,
                venue_states,
                now,
            ),
        )
    }

    /// What comes of a signal before its price is looked up.
    fn screen(&self, signal: &Signal, firm_book: &FirmBook) -> (r: Result<
        Option<Decimal>,
        GatewayError,
    >)
        ensures
            match (r, screened(*signal, *firm_book)) {
                (Ok(Some(d)), Ok(Some(n))) => d@ == n,
                (Ok(None), Ok(None)) => true,
                (Err(e), Err(f)) => e@ == f,
                _ => false,
            },
    {
        match self.validate_signal(signal) {
            Err(e) => {
                return Err(e);
            },
            Ok(_) => {},
        }
        let allocation = match firm_book.agent_allocations.get(signal.agent.as_str()) {
            Some(allocation) => allocation,
            None => {
                return Err(
                    GatewayError::AgentAllocationNotFound { agent_id: signal.agent.text() },
                );
            },
        };
        if !matches!(allocation.status, AgentStatus::Active) {
            return Err(
                GatewayError::Validation(
                    joined4(
                        "agent ",
                        signal.agent.as_str(),
                        " is not active: ",
                        allocation.status.text(),
                    ),
                ),
            );
        }
        if signal.conviction.is_zero() {
            return Ok(None);
        }
        Ok(Some(allocation.allocated_capital))
    }

    /// Venue, quantity and price of a screened signal at a quote.
    fn plan(
        &self,
        signal: &Signal,
        capital: Decimal,
        agent_limits: Option<&AgentRiskLimits>,
        quote: &Option<PriceSnapshot>,
        stale: bool,
        venue_states: &[VenueRouteState],
    ) -> (r: Option<Result<(VenueSymbol, Decimal, Decimal), GatewayError>>)
        ensures
            match (
                r,
                planned(
                    self.config,
                    self.symbol_map.listings(),
                    *signal,
                    capital@,
                    agent_limits,
                    *quote,
                    stale,
                    venue_states@,
                ),
            ) {
                (None, None) => true,
                (Some(Ok((venue, qty, price))), Some(Ok(plan))) => plan == (DraftPlan {
                    market: venue@,
                    qty: qty@,
                    price,
                }),
                (Some(Err(e)), Some(Err(f))) => e@ == f,
                _ => false,
            },
    {
        let price = match self.reference_price_for(signal, quote, stale) {
            Ok(price) => price,
            Err(e) => {
                return Some(Err(e));
            },
        };
        match self.validate_exit_targets(signal, price) {
            Err(e) => {
                return Some(Err(e));
            },
            Ok(_) => {},
        }
        let qty = match self.size_signal(signal, capital, price)? {
            Ok(qty) => qty,
            Err(e) => {
                return Some(Err(e));
            },
        };
        match self.select_venue(signal, agent_limits, venue_states) {
            Ok(venue) => Some(Ok((venue, qty, price))),
            Err(e) => Some(Err(e)),
        }
    }

    /// Checks a signal in itself.
    fn validate_signal(&self, signal: &Signal) -> (r: Result<(), GatewayError>)
        ensures
            match signal_fault(*signal) {
                Some(why) => r matches Err(e) && e@ == GatewayFault::Validation(why),
                None => r is Ok,
            },
    {
        if signal.conviction.is_negative() || Decimal::one().is_less(signal.conviction) {
            return Err(
                GatewayError::Validation(
                    joined(
                        "signal conviction must be within 0.0..=1.0, got ",
                        signal.conviction.text().as_str(),
                    ),
                ),
            );
        }
        if signal.conviction.is_zero() && signal.sizing_hint.is_some() {
            return Err(
                GatewayError::Validation(
                    "sizing_hint provided with zero conviction; intent is ambiguous".to_owned(),
                ),
            );
        }
        if !signal.stop_loss.is_positive() {
            return Err(
                GatewayError::Validation(
                    joined(
                        "signal stop_loss must be positive, got ",
                        signal.stop_loss.text().as_str(),
                    ),
                ),
            );
        }
        if is_blank(signal.thesis.as_str()) {
            return Err(GatewayError::Validation("signal thesis must be non-empty".to_owned()));
        }
        if let Some(sizing_hint) = signal.sizing_hint {
            if !sizing_hint.is_positive() {
                return Err(
                    GatewayError::Validation(
                        joined(
                            "signal sizing_hint must be positive, got ",
                            sizing_hint.text().as_str(),
                        ),
                    ),
                );
            }
        }
        Ok(())
    }

    /// Checks a signal's exits against the price.
    fn validate_exit_targets(&self, signal: &Signal, price: Decimal) -> (r: Result<
        (),
        GatewayError,
    >)
        ensures
            match exit_fault(*signal, price@) {
                Some(why) => r matches Err(e) && e@ == GatewayFault::Validation(why),
                None => r is Ok,
            },
    {
        let valid_stop_loss = match signal.direction {
            Side::Buy => signal.stop_loss.is_less(price),
            Side::Sell => price.is_less(signal.stop_loss),
        };
        if !valid_stop_loss {
            return Err(
                GatewayError::Validation(
                    joined(
                        joined5(
                            "stop_loss ",
                            signal.stop_loss.text().as_str(),
                            " is not on the losing side of reference price ",
                            price.text().as_str(),
                            " for ",
                        ).as_str(),
                        side_name(signal.direction),
                    ),
                ),
            );
        }
        if let Some(take_profit) = signal.take_profit {
            let valid_take_profit = match signal.direction {
                Side::Buy => price.is_less(take_profit),
                Side::Sell => take_profit.is_less(price),
            };
            if !valid_take_profit {
                return Err(
                    GatewayError::Validation(
                        joined(
                            joined5(
                                "take_profit ",
                                take_profit.text().as_str(),
                                " is not on the profitable side of reference price ",
                                price.text().as_str(),
                                " for ",
                            ).as_str(),
                            side_name(signal.direction),
                        ),
                    ),
                );
            }
        }
        Ok(())
    }

    /// The price at which a signal is traded.
    fn reference_price_for(&self, signal: &Signal, quote: &Option<PriceSnapshot>, stale: bool) -> (r:
        Result<Decimal, GatewayError>)
        ensures
            match (r, reference_price(*signal, *quote, stale, self.config.max_price_age)) {
                (Ok(price), Ok(expected)) => price == expected,
                (Err(e), Err(f)) => e@ == f,
                _ => false,
            },
    {
        let snapshot = match quote {
            Some(snapshot) => snapshot,
            None => {
                return Err(
                    GatewayError::PriceUnavailable { instrument_id: signal.instrument.text() },
                );
            },
        };
        if stale {
            return Err(
                GatewayError::StalePrice {
                    instrument_id: signal.instrument.text(),
                    max_age: self.config.max_price_age,
                },
            );
        }
        let price = match signal.direction {
            Side::Buy => snapshot.ask,
            Side::Sell => snapshot.bid,
        };
        if !price.is_positive() {
            return Err(
                GatewayError::Validation(
                    joined("reference price must be positive, got ", price.text().as_str()),
                ),
            );
        }
        Ok(price)
    }

    /// The quantity to trade, if every number stays in range.
    fn size_signal(&self, signal: &Signal, capital: Decimal, price: Decimal) -> (r: Option<
        Result<Decimal, GatewayError>,
    >)
        ensures
            match (r, sized(*signal, capital@, price@)) {
                (None, None) => true,
                (Some(Ok(qty)), Some(Ok(n))) => qty@ == n,
                (Some(Err(e)), Some(Err(f))) => e@ == f,
                _ => false,
            },
    {
        let qty = match signal.sizing_hint {
            Some(sizing_hint) => {
                if capital.is_less(sizing_hint) {
                    return Some(
                        Err(
                            GatewayError::Validation(
                                joined4(
                                    "sizing_hint ",
                                    sizing_hint.text().as_str(),
                                    " exceeds agent allocated_capital ",
                                    capital.text().as_str(),
                                ),
                            ),
                        ),
                    );
                }
                sizing_hint.checked_div(price)?
            },
            None => {
                let max_loss_per_unit = price.checked_sub(signal.stop_loss)?.abs();
                if !max_loss_per_unit.is_positive() {
                    return Some(
                        Err(
                            GatewayError::Validation(
                                "signal stop_loss must differ from the reference price".to_owned(),
                            ),
                        ),
                    );
                }
                signal.conviction.checked_mul(capital)?.checked_div(max_loss_per_unit)?
            },
        };
        if !qty.is_positive() {
            return Some(
                Err(
                    GatewayError::Validation(
                        joined(
                            "signal sizing produced a non-positive quantity: ",
                            qty.text().as_str(),
                        ),
                    ),
                ),
            );
        }
        Some(Ok(qty))
    }

    /// The venue that a signal is routed to.
    fn select_venue(
        &self,
        signal: &Signal,
        agent_limits: Option<&AgentRiskLimits>,
        venue_states: &[VenueRouteState],
    ) -> (r: Result<VenueSymbol, GatewayError>)
        ensures
            match (
                r,
                routed(
                    self.config.routing_policy,
                    self.symbol_map.listings(),
                    *signal,
                    agent_limits,
                    venue_states@,
                ),
            ) {
                (Ok(venue), Ok(market)) => venue@ == market,
                (Err(e), Err(f)) => e@ == f,
                _ => false,
            },
    {
        if let Some(limits) = agent_limits {
            if let Some(allowed) = &limits.allowed_instruments {
                if lacks_instrument(allowed, &signal.instrument) {
                    return Err(
                        GatewayError::RoutingUnavailable {
                            instrument_id: signal.instrument.text(),
                            reason: joined4(
                                "instrument ",
                                signal.instrument.as_str(),
                                " is not allowed for agent ",
                                signal.agent.as_str(),
                            ),
                        },
                    );
                }
            }
        }
        let mapped_venues = match self.symbol_map.venues_for(&signal.instrument) {
            Some(list) => list,
            None => {
                return Err(
                    GatewayError::RoutingUnavailable {
                        instrument_id: signal.instrument.text(),
                        reason: "instrument is missing from the symbol map".to_owned(),
                    },
                );
            },
        };
        let ghost listed = markets(mapped_venues@);
        let mut eligible: Vec<(usize, Decimal)> = Vec::new();
        let ghost mut found: Seq<Candidate> = seq![];
        let mut i: usize = 0;
        while i < mapped_venues.len()
            invariant
                i <= mapped_venues@.len(),
                listed == markets(mapped_venues@),
                found == candidates(listed.take(i as int), agent_limits, venue_states@),
                found.len() == eligible@.len(),
                forall|k: int|
                    0 <= k < eligible@.len() ==> (#[trigger] eligible@[k]).0 < mapped_venues@.len()
                        && found[k] == (Candidate {
                        market: mapped_venues@[eligible@[k].0 as int]@,
                        balance: eligible@[k].1@,
                    }),
            decreases mapped_venues@.len() - i,
        {
            assert(listed.take(i + 1).drop_last() =~= listed.take(i as int));
            assert(listed.take(i + 1).last() == mapped_venues@[i as int]@);
            if let Some(balance) = candidate_balance(&mapped_venues[i], agent_limits, venue_states) {
                proof {
                    found =
                    found.push(Candidate { market: mapped_venues@[i as int]@, balance: balance@ });
                }
                eligible.push((i, balance));
            }
            i = i + 1;
        }
        assert(listed.take(i as int) =~= listed);
        if eligible.len() == 0 {
            return Err(
                GatewayError::RoutingUnavailable {
                    instrument_id: signal.instrument.text(),
                    reason: joined(
                        "no mapped venue is simultaneously allowed and connected for ",
                        signal.instrument.as_str(),
                    ),
                },
            );
        }
        let chosen: usize = match self.config.routing_policy {
            SignalRoutingPolicy::FirstListed => 0,
            SignalRoutingPolicy::HighestAvailableBalance => {
                let mut best: usize = 0;
                let mut k: usize = 1;
                assert(found.take(1)[0] == found[0]);
                while k < eligible.len()
                    invariant
                        1 <= k <= eligible@.len(),
                        best < k,
                        found.len() == eligible@.len(),
                        forall|n: int|
                            0 <= n < eligible@.len() ==> found[n].balance == (
                            #[trigger] eligible@[n]).1@,
                        richest(found.take(k as int)) == found[best as int],
                    decreases eligible@.len() - k,
                {
                    assert(found.take(k + 1).drop_last() =~= found.take(k as int));
                    assert(found.take(k + 1).last() == found[k as int]);
                    if !eligible[k].1.is_less(eligible[best].1) {
                        best = k;
                    }
                    k = k + 1;
                }
                assert(found.take(k as int) =~= found);
                best
            },
        };
        Ok(mapped_venues[eligible[chosen].0].clone())
    }

    /// The order identifier of a signal.
    fn order_id_for_signal(signal_id: &SignalId) -> (r: OrderId)
        ensures
            r@ == "ord-"@ + signal_id@,
    {
        OrderId(joined("ord-", signal_id.as_str()))
    }
}

// ─── Laws of the bridge ───

/// A candidate is a listed market that is allowed and connected.
proof fn lemma_candidates(
    listed: Seq<Market>,
    limits: Option<&AgentRiskLimits>,
    states: Seq<VenueRouteState>,
    c: Candidate,
)
    requires
        candidates(listed, limits, states).contains(c),
    ensures
        listed.contains(c.market),
        candidate_at(c.market, limits, states) == Some(c),
    decreases listed.len(),
{
    if listed.len() > 0 {
        let rest = listed.drop_last();
        let before = candidates(rest, limits, states);
        let all = candidates(listed, limits, states);
        if candidate_at(listed.last(), limits, states) == Some(c) {
            assert(listed[listed.len() - 1] == c.market);
        } else {
            let k = choose|k: int| 0 <= k < all.len() && all[k] == c;
            assert(before.contains(c)) by {
                assert(before[k] == c);
            }
            lemma_candidates(rest, limits, states, c);
            let i = choose|i: int| 0 <= i < rest.len() && rest[i] == c.market;
            assert(listed[i] == c.market);
        }
    }
}

/// The richest candidate is one of them, and none of them has a higher balance.
proof fn lemma_richest(list: Seq<Candidate>)
    requires
        list.len() > 0,
    ensures
        list.contains(richest(list)),
        forall|i: int|
            0 <= i < list.len() ==> num_le((#[trigger] list[i]).balance, richest(list).balance),
    decreases list.len(),
{
    if list.len() == 1 {
        assert(list[0] == richest(list));
    } else {
        let rest = list.drop_last();
        lemma_richest(rest);
        let best = richest(rest);
        let k = choose|k: int| 0 <= k < rest.len() && rest[k] == best;
        assert(list[k] == best);
        assert(list[list.len() - 1] == list.last());
        assert forall|i: int| 0 <= i < list.len() implies num_le(
            (#[trigger] list[i]).balance,
            richest(list).balance,
        ) by {
            if i < rest.len() {
                assert(rest[i] == list[i]);
                if !num_lt(list.last().balance, best.balance) {
                    lemma_le_transitive(list[i].balance, best.balance, list.last().balance);
                }
            }
        }
    }
}

/// A signal is only ever routed to a market that is listed for its instrument, allowed to
/// its agent, and connected.
pub proof fn law_routed_market_is_eligible(
    policy: SignalRoutingPolicy,
    listings: Seq<Listing>,
    signal: Signal,
    limits: Option<&AgentRiskLimits>,
    states: Seq<VenueRouteState>,
)
    requires
        routed(policy, listings, signal, limits, states) is Ok,
    ensures
        ({
            let market = routed(policy, listings, signal, limits, states)->Ok_0;
            let at = state_at(states, market.venue, 0);
            &&& venues_of(listings, signal.instrument@).contains(market)
            &&& venue_allowed(limits, market.venue)
            &&& at is Some
            &&& states[at->0].connection_health.state is Connected
        }),
{
    let listed = venues_of(listings, signal.instrument@);
    let eligible = candidates(listed, limits, states);
    let c = preferred(policy, eligible);
    if policy is FirstListed {
        assert(eligible[0] == c);
    } else {
        lemma_richest(eligible);
    }
    lemma_candidates(listed, limits, states, c);
}

/// Under the balance policy no eligible market has a higher balance than the one that is
/// preferred.
pub proof fn law_preferred_market_has_highest_balance(list: Seq<Candidate>, i: int)
    requires
        0 <= i < list.len(),
    ensures
        list.contains(preferred(SignalRoutingPolicy::HighestAvailableBalance, list)),
        num_le(
            list[i].balance,
            preferred(SignalRoutingPolicy::HighestAvailableBalance, list).balance,
        ),
{
    lemma_richest(list);
}

/// A planned order has a positive quantity and price, its stop loss lies on the losing
/// side of the price, and its take profit, if any, on the profitable side.
pub proof fn law_planned_order_is_sound(
    config: SignalOrderBridgeConfig,
    listings: Seq<Listing>,
    signal: Signal,
    capital: Num,
    limits: Option<&AgentRiskLimits>,
    quote: Option<PriceSnapshot>,
    stale: bool,
    states: Seq<VenueRouteState>,
)
    ensures
        planned(config, listings, signal, capital, limits, quote, stale, states) matches Some(
            Ok(plan),
        ) ==> {
            &&& plan.qty.m > 0
            &&& plan.price@.m > 0
            &&& losing(signal.direction, signal.stop_loss@, plan.price@)
            &&& signal.take_profit matches Some(target) ==> winning(
                signal.direction,
                target@,
                plan.price@,
            )
            &&& !stale
        },
{
}

/// Without conviction no order comes of a signal, whatever the price.
pub proof fn law_no_conviction_no_order(
    config: SignalOrderBridgeConfig,
    listings: Seq<Listing>,
    signal: Signal,
    book: FirmBook,
    limits: Option<&AgentRiskLimits>,
    quote: Option<PriceSnapshot>,
    stale: bool,
    states: Seq<VenueRouteState>,
)
    requires
        signal.conviction@.m == 0,
    ensures
        ({
            let outcome = bridged(
                config,
                listings,
                signal,
                book,
                limits,
                quote,
                stale,
                states,
            );
            outcome is Some && (outcome->0 is Err || outcome->0 == Ok::<
                Option<DraftPlan>,
                GatewayFault,
            >(None))
        }),
{
}

// ─── Router and validator ───

/// Routes a risk-checked order to a venue, producing the `RiskChecked → Routed` transition.
///
/// Responsible for:
/// 1. Selecting the target venue (may differ from the requested venue).
/// 2. Generating a `ClientOrderId` for idempotent submission.
/// 3. Checking venue connection health before committing.
///
/// The router does not submit the order — it only produces the routing assignment.
pub trait Router {
    /// Route a risk-checked order, producing a `PipelineOrder<Routed>`.
    ///
    /// Returns `GatewayError::VenueNotConnected` if the selected venue is unavailable.
    fn route(&self, order: PipelineOrder<RiskChecked>, now: Timestamp) -> Result<
        PipelineOrder<Routed>,
        GatewayError,
    >;
}

/// Fast, stateless validation before order enters the pipeline.
pub trait OrderValidator {
    /// Validates an order against a venue's capabilities.
    fn validate(&self, order: &OrderSubmission, caps: &VenueCapabilities) -> Result<
        (),
        Vec<ValidationError>,
    >;
}

// ─── Types ───

/// Order submission request (sent to venue adapter).
///
/// This is the flattened, venue-ready form extracted from `PipelineOrder<Routed>`.
/// The adapter receives this — it doesn't know about pipeline stages.
#[derive(Debug)]
pub struct OrderSubmission {
    pub order_id: OrderId,
    pub client_order_id: ClientOrderId,
    pub agent_id: AgentId,
    pub instrument_id: InstrumentId,
    pub market_id: MarketId,
    pub venue_id: VenueId,
    pub side: Side,
    pub order_type: OrderType,
    pub time_in_force: TimeInForce,
    pub qty: Decimal,
    pub price: Option<Decimal>,
    pub trigger_price: Option<Decimal>,
    pub stop_loss: Option<Decimal>,
    pub take_profit: Option<Decimal>,
    pub post_only: bool,
    pub reduce_only: bool,
    pub dry_run: bool,
    pub exec_hint: ExecHint,
}

impl Clone for OrderSubmission {
    fn clone(&self) -> (r: OrderSubmission)
        ensures
            r == *self,
    {
        OrderSubmission {
            order_id: self.order_id.clone(),
            client_order_id: self.client_order_id.clone(),
            agent_id: self.agent_id.clone(),
            instrument_id: self.instrument_id.clone(),
            market_id: self.market_id.clone(),
            venue_id: self.venue_id.clone(),
            side: self.side,
            order_type: self.order_type,
            time_in_force: self.time_in_force,
            qty: self.qty,
            price: self.price,
            trigger_price: self.trigger_price,
            stop_loss: self.stop_loss,
            take_profit: self.take_profit,
            post_only: self.post_only,
            reduce_only: self.reduce_only,
            dry_run: self.dry_run,
            exec_hint: self.exec_hint,
        }
    }
}

/// The submission of an order with its routing: the order's own fields, with the venue and
/// the client order identifier of the routing.
pub open spec fn submission_of(
    core: OrderCore,
    venue_id: VenueId,
    client_order_id: ClientOrderId,
) -> OrderSubmission {
    OrderSubmission {
        order_id: core.id,
        client_order_id,
        agent_id: core.agent_id,
        instrument_id: core.instrument_id,
        market_id: core.market_id,
        venue_id,
        side: core.side,
        order_type: core.order_type,
        time_in_force: core.time_in_force,
        qty: core.qty,
        price: core.price,
        trigger_price: core.trigger_price,
        stop_loss: core.stop_loss,
        take_profit: core.take_profit,
        post_only: core.post_only,
        reduce_only: core.reduce_only,
        dry_run: core.dry_run,
        exec_hint: core.exec_hint,
    }
}

impl OrderSubmission {
    /// Create an `OrderSubmission` from a routed pipeline order.
    #[must_use]
    pub fn from_routed(order: &PipelineOrder<Routed>) -> (r: OrderSubmission)
        ensures
            r == submission_of(
                order.order(),
                order.reached().route().venue_id,
                order.reached().route().client_order_id,
            ),
    {
        let core = order.order_core();
        let routing = order.routing();
        OrderSubmission {
            order_id: core.id.clone(),
            client_order_id: routing.client_order_id.clone(),
            agent_id: core.agent_id.clone(),
            instrument_id: core.instrument_id.clone(),
            market_id: core.market_id.clone(),
            venue_id: routing.venue_id.clone(),
            side: core.side,
            order_type: core.order_type,
            time_in_force: core.time_in_force,
            qty: core.qty,
            price: core.price,
            trigger_price: core.trigger_price,
            stop_loss: core.stop_loss,
            take_profit: core.take_profit,
            post_only: core.post_only,
            reduce_only: core.reduce_only,
            dry_run: core.dry_run,
            exec_hint: core.exec_hint,
        }
    }
}

/// Acknowledgment from venue after order submission.
#[must_use]
#[derive(Debug)]
pub struct VenueOrderAck {
    pub venue_order_id: VenueOrderId,
    pub client_order_id: ClientOrderId,
    pub accepted_at: Timestamp,
}

impl Clone for VenueOrderAck {
    fn clone(&self) -> (r: VenueOrderAck)
        ensures
            r == *self,
    {
        VenueOrderAck {
            venue_order_id: self.venue_order_id.clone(),
            client_order_id: self.client_order_id.clone(),
            accepted_at: self.accepted_at,
        }
    }
}

/// Fill received from venue.
#[derive(Debug)]
pub struct VenueFill {
    pub venue_order_id: VenueOrderId,
    pub client_order_id: ClientOrderId,
    pub instrument_id: InstrumentId,
    pub side: Side,
    pub qty: Decimal,
    pub price: Decimal,
    pub fee: Decimal,
    pub is_maker: bool,
    pub filled_at: Timestamp,
}

impl Clone for VenueFill {
    fn clone(&self) -> (r: VenueFill)
        ensures
            r == *self,
    {
        VenueFill {
            venue_order_id: self.venue_order_id.clone(),
            client_order_id: self.client_order_id.clone(),
            instrument_id: self.instrument_id.clone(),
            side: self.side,
            qty: self.qty,
            price: self.price,
            fee: self.fee,
            is_maker: self.is_maker,
            filled_at: self.filled_at,
        }
    }
}

/// Position as reported by venue.
#[derive(Debug, Clone)]
pub struct VenuePosition {
    pub instrument_id: InstrumentId,
    pub qty: Decimal,
    pub avg_entry_price: Decimal,
    pub unrealized_pnl: Decimal,
    pub margin_used: Decimal,
}

/// Open order as reported by venue.
#[derive(Debug, Clone)]
pub struct VenueOpenOrder {
    pub venue_order_id: VenueOrderId,
    pub client_order_id: Option<ClientOrderId>,
    pub instrument_id: InstrumentId,
    pub side: Side,
    pub qty: Decimal,
    pub filled_qty: Decimal,
    pub price: Option<Decimal>,
    pub state: OrderState,
    pub created_at: Timestamp,
}

/// Account balance as reported by venue.
#[derive(Debug, Clone, Copy)]
pub struct VenueBalance {
    pub total_equity: Decimal,
    pub available_balance: Decimal,
    pub margin_used: Decimal,
    pub unrealized_pnl: Decimal,
    pub as_of: Timestamp,
}

/// Gateway-level order acknowledgment.
#[must_use]
#[derive(Debug, Clone)]
pub struct OrderAck {
    pub order_id: OrderId,
    pub client_order_id: ClientOrderId,
    pub venue_order_id: VenueOrderId,
    pub accepted_at: Timestamp,
}

/// What a venue supports.
#[derive(Debug, Clone)]
pub struct VenueCapabilities {
    pub venue_id: VenueId,
    pub supports_market_orders: bool,
    pub supports_limit_orders: bool,
    pub supports_stop_market: bool,
    pub supports_stop_limit: bool,
    pub supports_trailing_stop: bool,
    pub supports_oco: bool,
    pub supports_amendment: bool,
    pub supports_reduce_only: bool,
    pub supports_post_only: bool,
    pub max_batch_size: Option<u32>,
}

/// Why an order is not valid for a venue.
#[derive(Debug, Clone)]
pub enum ValidationError {
    InvalidQty { reason: String },
    InvalidPrice { reason: String },
    UnsupportedOrderType { requested: OrderType, venue: VenueId },
    UnsupportedTIF { requested: TimeInForce, venue: VenueId },
    MissingRequiredField { field: String },
    IncompatibleConstraints { reason: String },
    PrecisionExceeded { field: String, max_decimals: u32, actual: u32 },
}

/// The text of a validation error.
pub open spec fn validation_error_text(e: ValidationError) -> Seq<char> {
    match e {
        ValidationError::InvalidQty { reason } => "Invalid quantity: "@ + reason@,
        ValidationError::InvalidPrice { reason } => "Invalid price: "@ + reason@,
        ValidationError::UnsupportedOrderType { requested, venue } => "Order type "@
            + order_type_text(requested) + " not supported on "@ + venue@,
        ValidationError::UnsupportedTIF { requested, venue } => "TIF "@ + time_in_force_text(
            requested,
        ) + " not supported on "@ + venue@,
        ValidationError::MissingRequiredField { field } => "Missing required field: "@ + field@,
        ValidationError::IncompatibleConstraints { reason } => "Incompatible constraints: "@
            + reason@,
        ValidationError::PrecisionExceeded { field, max_decimals, actual } => "Field "@ + field@
            + " precision exceeded: max "@ + digits(max_decimals as nat) + ", got "@ + digits(
            actual as nat,
        ),
    }
}

impl ValidationError {
    /// The error as text.
    pub fn text(&self) -> (r: String)
        ensures
            r@ == validation_error_text(*self),
    {
        match self {
            ValidationError::InvalidQty { reason } => joined(
                "Invalid quantity: ",
                reason.as_str(),
            ),
            ValidationError::InvalidPrice { reason } => joined("Invalid price: ", reason.as_str()),
            ValidationError::UnsupportedOrderType { requested, venue } => joined4(
                "Order type ",
                requested.text(),
                " not supported on ",
                venue.as_str(),
            ),
            ValidationError::UnsupportedTIF { requested, venue } => joined4(
                "TIF ",
                requested.text().as_str(),
                " not supported on ",
                venue.as_str(),
            ),
            ValidationError::MissingRequiredField { field } => joined(
                "Missing required field: ",
                field.as_str(),
            ),
            ValidationError::IncompatibleConstraints { reason } => joined(
                "Incompatible constraints: ",
                reason.as_str(),
            ),
            ValidationError::PrecisionExceeded { field, max_decimals, actual } => joined(
                joined5(
                    "Field ",
                    field.as_str(),
                    " precision exceeded: max ",
                    digits_text(*max_decimals as u128).as_str(),
                    ", got ",
                ).as_str(),
                digits_text(*actual as u128).as_str(),
            ),
        }
    }
}

} // verus!
