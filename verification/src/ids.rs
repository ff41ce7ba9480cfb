//! Identifier newtypes — type-safe wrappers for all domain IDs.
//!
//! Never pass a raw `String` where a domain ID is expected.

use crate::text::{
    all_digits, digits, digits_text, has_digits, int_text, joined, last_part, last_part_text,
    padded, padded_text, parse_number, parsed_number, signed_text, stripped, stripped_text,
    without_last_part, without_last_part_text,
};
use crate::time::{Timestamp, NANOS_PER_MILLI};
use vstd::prelude::*;
use vstd::std_specs::convert::FromSpecImpl;

verus! {

/// Internal order identifier (engine-assigned, globally unique).
#[derive(Debug, PartialEq, Eq, Hash)]
pub struct OrderId(pub String);

impl View for OrderId {
    type V = Seq<char>;

    open spec fn view(&self) -> Seq<char> {
        self.0@
    }
}

impl Clone for OrderId {
    fn clone(&self) -> (r: OrderId)
        ensures
            r == *self,
    {
        OrderId(self.0.clone())
    }
}

impl From<&str> for OrderId {
    fn from(s: &str) -> (r: OrderId)
        ensures
            r@ == s@,
    {
        OrderId(s.to_owned())
    }
}

impl FromSpecImpl<&str> for OrderId {
    open spec fn obeys_from_spec() -> bool {
        false
    }

    open spec fn from_spec(s: &str) -> OrderId {
        arbitrary()
    }
}

impl From<String> for OrderId {
    fn from(s: String) -> (r: OrderId) {
        OrderId(s)
    }
}

impl FromSpecImpl<String> for OrderId {
    open spec fn obeys_from_spec() -> bool {
        true
    }

    open spec fn from_spec(s: String) -> OrderId {
        OrderId(s)
    }
}

impl OrderId {
    /// The identifier's text.
    pub fn text(&self) -> (r: String)
        ensures
            r@ == self@,
    {
        self.0.clone()
    }

    /// The identifier's text, borrowed.
    pub fn as_str(&self) -> (r: &str)
        ensures
            r@ == self@,
    {
        self.0.as_str()
    }

    /// Whether two identifiers have the same text.
    pub fn same(&self, other: &OrderId) -> (r: bool)
        ensures
            r == (self@ == other@),
    {
        self.0 == other.0
    }
}

/// Venue-assigned order identifier (exchange side).
#[derive(Debug, PartialEq, Eq, Hash)]
pub struct VenueOrderId(pub String);

impl View for VenueOrderId {
    type V = Seq<char>;

    open spec fn view(&self) -> Seq<char> {
        self.0@
    }
}

impl Clone for VenueOrderId {
    fn clone(&self) -> (r: VenueOrderId)
        ensures
            r == *self,
    {
        VenueOrderId(self.0.clone())
    }
}

impl From<&str> for VenueOrderId {
    fn from(s: &str) -> (r: VenueOrderId)
        ensures
            r@ == s@,
    {
        VenueOrderId(s.to_owned())
    }
}

impl FromSpecImpl<&str> for VenueOrderId {
    open spec fn obeys_from_spec() -> bool {
        false
    }

    open spec fn from_spec(s: &str) -> VenueOrderId {
        arbitrary()
    }
}

impl From<String> for VenueOrderId {
    fn from(s: String) -> (r: VenueOrderId) {
        VenueOrderId(s)
    }
}

impl FromSpecImpl<String> for VenueOrderId {
    open spec fn obeys_from_spec() -> bool {
        true
    }

    open spec fn from_spec(s: String) -> VenueOrderId {
        VenueOrderId(s)
    }
}

impl VenueOrderId {
    /// The identifier's text.
    pub fn text(&self) -> (r: String)
        ensures
            r@ == self@,
    {
        self.0.clone()
    }

    /// The identifier's text, borrowed.
    pub fn as_str(&self) -> (r: &str)
        ensures
            r@ == self@,
    {
        self.0.as_str()
    }

    /// Whether two identifiers have the same text.
    pub fn same(&self, other: &VenueOrderId) -> (r: bool)
        ensures
            r == (self@ == other@),
    {
        self.0 == other.0
    }
}

/// Identifies a trading agent (LLM, algo, ML model).
#[derive(Debug, PartialEq, Eq, Hash)]
pub struct AgentId(pub String);

impl View for AgentId {
    type V = Seq<char>;

    open spec fn view(&self) -> Seq<char> {
        self.0@
    }
}

impl Clone for AgentId {
    fn clone(&self) -> (r: AgentId)
        ensures
            r == *self,
    {
        AgentId(self.0.clone())
    }
}

impl From<&str> for AgentId {
    fn from(s: &str) -> (r: AgentId)
        ensures
            r@ == s@,
    {
        AgentId(s.to_owned())
    }
}

impl FromSpecImpl<&str> for AgentId {
    open spec fn obeys_from_spec() -> bool {
        false
    }

    open spec fn from_spec(s: &str) -> AgentId {
        arbitrary()
    }
}

impl From<String> for AgentId {
    fn from(s: String) -> (r: AgentId) {
        AgentId(s)
    }
}

impl FromSpecImpl<String> for AgentId {
    open spec fn obeys_from_spec() -> bool {
        true
    }

    open spec fn from_spec(s: String) -> AgentId {
        AgentId(s)
    }
}

impl AgentId {
    /// The identifier's text.
    pub fn text(&self) -> (r: String)
        ensures
            r@ == self@,
    {
        self.0.clone()
    }

    /// The identifier's text, borrowed.
    pub fn as_str(&self) -> (r: &str)
        ensures
            r@ == self@,
    {
        self.0.as_str()
    }

    /// Whether two identifiers have the same text.
    pub fn same(&self, other: &AgentId) -> (r: bool)
        ensures
            r == (self@ == other@),
    {
        self.0 == other.0
    }
}

/// Identifies a trading venue (exchange).
#[derive(Debug, PartialEq, Eq, Hash)]
pub struct VenueId(pub String);

impl View for VenueId {
    type V = Seq<char>;

    open spec fn view(&self) -> Seq<char> {
        self.0@
    }
}

impl Clone for VenueId {
    fn clone(&self) -> (r: VenueId)
        ensures
            r == *self,
    {
        VenueId(self.0.clone())
    }
}

impl From<&str> for VenueId {
    fn from(s: &str) -> (r: VenueId)
        ensures
            r@ == s@,
    {
        VenueId(s.to_owned())
    }
}

impl FromSpecImpl<&str> for VenueId {
    open spec fn obeys_from_spec() -> bool {
        false
    }

    open spec fn from_spec(s: &str) -> VenueId {
        arbitrary()
    }
}

impl From<String> for VenueId {
    fn from(s: String) -> (r: VenueId) {
        VenueId(s)
    }
}

impl FromSpecImpl<String> for VenueId {
    open spec fn obeys_from_spec() -> bool {
        true
    }

    open spec fn from_spec(s: String) -> VenueId {
        VenueId(s)
    }
}

impl VenueId {
    /// The identifier's text.
    pub fn text(&self) -> (r: String)
        ensures
            r@ == self@,
    {
        self.0.clone()
    }

    /// The identifier's text, borrowed.
    pub fn as_str(&self) -> (r: &str)
        ensures
            r@ == self@,
    {
        self.0.as_str()
    }

    /// Whether two identifiers have the same text.
    pub fn same(&self, other: &VenueId) -> (r: bool)
        ensures
            r == (self@ == other@),
    {
        self.0 == other.0
    }
}

/// Identifies a venue trading account.
#[derive(Debug, PartialEq, Eq, Hash)]
pub struct AccountId(pub String);

impl View for AccountId {
    type V = Seq<char>;

    open spec fn view(&self) -> Seq<char> {
        self.0@
    }
}

impl Clone for AccountId {
    fn clone(&self) -> (r: AccountId)
        ensures
            r == *self,
    {
        AccountId(self.0.clone())
    }
}

impl From<&str> for AccountId {
    fn from(s: &str) -> (r: AccountId)
        ensures
            r@ == s@,
    {
        AccountId(s.to_owned())
    }
}

impl FromSpecImpl<&str> for AccountId {
    open spec fn obeys_from_spec() -> bool {
        false
    }

    open spec fn from_spec(s: &str) -> AccountId {
        arbitrary()
    }
}

impl From<String> for AccountId {
    fn from(s: String) -> (r: AccountId) {
        AccountId(s)
    }
}

impl FromSpecImpl<String> for AccountId {
    open spec fn obeys_from_spec() -> bool {
        true
    }

    open spec fn from_spec(s: String) -> AccountId {
        AccountId(s)
    }
}

impl AccountId {
    /// The identifier's text.
    pub fn text(&self) -> (r: String)
        ensures
            r@ == self@,
    {
        self.0.clone()
    }

    /// The identifier's text, borrowed.
    pub fn as_str(&self) -> (r: &str)
        ensures
            r@ == self@,
    {
        self.0.as_str()
    }

    /// Whether two identifiers have the same text.
    pub fn same(&self, other: &AccountId) -> (r: bool)
        ensures
            r == (self@ == other@),
    {
        self.0 == other.0
    }
}

/// Identifies a tradeable instrument.
#[derive(Debug, PartialEq, Eq, Hash)]
pub struct InstrumentId(pub String);

impl View for InstrumentId {
    type V = Seq<char>;

    open spec fn view(&self) -> Seq<char> {
        self.0@
    }
}

impl Clone for InstrumentId {
    fn clone(&self) -> (r: InstrumentId)
        ensures
            r == *self,
    {
        InstrumentId(self.0.clone())
    }
}

impl From<&str> for InstrumentId {
    fn from(s: &str) -> (r: InstrumentId)
        ensures
            r@ == s@,
    {
        InstrumentId(s.to_owned())
    }
}

impl FromSpecImpl<&str> for InstrumentId {
    open spec fn obeys_from_spec() -> bool {
        false
    }

    open spec fn from_spec(s: &str) -> InstrumentId {
        arbitrary()
    }
}

impl From<String> for InstrumentId {
    fn from(s: String) -> (r: InstrumentId) {
        InstrumentId(s)
    }
}

impl FromSpecImpl<String> for InstrumentId {
    open spec fn obeys_from_spec() -> bool {
        true
    }

    open spec fn from_spec(s: String) -> InstrumentId {
        InstrumentId(s)
    }
}

impl InstrumentId {
    /// The identifier's text.
    pub fn text(&self) -> (r: String)
        ensures
            r@ == self@,
    {
        self.0.clone()
    }

    /// The identifier's text, borrowed.
    pub fn as_str(&self) -> (r: &str)
        ensures
            r@ == self@,
    {
        self.0.as_str()
    }

    /// Whether two identifiers have the same text.
    pub fn same(&self, other: &InstrumentId) -> (r: bool)
        ensures
            r == (self@ == other@),
    {
        self.0 == other.0
    }
}

/// Identifies a market by the symbol that its venue uses.
#[derive(Debug, PartialEq, Eq, Hash)]
pub struct MarketId(pub String);

impl View for MarketId {
    type V = Seq<char>;

    open spec fn view(&self) -> Seq<char> {
        self.0@
    }
}

impl Clone for MarketId {
    fn clone(&self) -> (r: MarketId)
        ensures
            r == *self,
    {
        MarketId(self.0.clone())
    }
}

impl From<&str> for MarketId {
    fn from(s: &str) -> (r: MarketId)
        ensures
            r@ == s@,
    {
        MarketId(s.to_owned())
    }
}

impl FromSpecImpl<&str> for MarketId {
    open spec fn obeys_from_spec() -> bool {
        false
    }

    open spec fn from_spec(s: &str) -> MarketId {
        arbitrary()
    }
}

impl From<String> for MarketId {
    fn from(s: String) -> (r: MarketId) {
        MarketId(s)
    }
}

impl FromSpecImpl<String> for MarketId {
    open spec fn obeys_from_spec() -> bool {
        true
    }

    open spec fn from_spec(s: String) -> MarketId {
        MarketId(s)
    }
}

impl MarketId {
    /// The identifier's text.
    pub fn text(&self) -> (r: String)
        ensures
            r@ == self@,
    {
        self.0.clone()
    }

    /// The identifier's text, borrowed.
    pub fn as_str(&self) -> (r: &str)
        ensures
            r@ == self@,
    {
        self.0.as_str()
    }

    /// Whether two identifiers have the same text.
    pub fn same(&self, other: &MarketId) -> (r: bool)
        ensures
            r == (self@ == other@),
    {
        self.0 == other.0
    }
}

/// Identifies a signal from a strategy agent.
#[derive(Debug, PartialEq, Eq, Hash)]
pub struct SignalId(pub String);

impl View for SignalId {
    type V = Seq<char>;

    open spec fn view(&self) -> Seq<char> {
        self.0@
    }
}

impl Clone for SignalId {
    fn clone(&self) -> (r: SignalId)
        ensures
            r == *self,
    {
        SignalId(self.0.clone())
    }
}

impl From<&str> for SignalId {
    fn from(s: &str) -> (r: SignalId)
        ensures
            r@ == s@,
    {
        SignalId(s.to_owned())
    }
}

impl FromSpecImpl<&str> for SignalId {
    open spec fn obeys_from_spec() -> bool {
        false
    }

    open spec fn from_spec(s: &str) -> SignalId {
        arbitrary()
    }
}

impl From<String> for SignalId {
    fn from(s: String) -> (r: SignalId) {
        SignalId(s)
    }
}

impl FromSpecImpl<String> for SignalId {
    open spec fn obeys_from_spec() -> bool {
        true
    }

    open spec fn from_spec(s: String) -> SignalId {
        SignalId(s)
    }
}

impl SignalId {
    /// The identifier's text.
    pub fn text(&self) -> (r: String)
        ensures
            r@ == self@,
    {
        self.0.clone()
    }

    /// The identifier's text, borrowed.
    pub fn as_str(&self) -> (r: &str)
        ensures
            r@ == self@,
    {
        self.0.as_str()
    }

    /// Whether two identifiers have the same text.
    pub fn same(&self, other: &SignalId) -> (r: bool)
        ensures
            r == (self@ == other@),
    {
        self.0 == other.0
    }
}

/// Identifies a message on the bus.
#[derive(Debug, PartialEq, Eq, Hash)]
pub struct MessageId(pub String);

impl View for MessageId {
    type V = Seq<char>;

    open spec fn view(&self) -> Seq<char> {
        self.0@
    }
}

impl Clone for MessageId {
    fn clone(&self) -> (r: MessageId)
        ensures
            r == *self,
    {
        MessageId(self.0.clone())
    }
}

impl From<&str> for MessageId {
    fn from(s: &str) -> (r: MessageId)
        ensures
            r@ == s@,
    {
        MessageId(s.to_owned())
    }
}

impl FromSpecImpl<&str> for MessageId {
    open spec fn obeys_from_spec() -> bool {
        false
    }

    open spec fn from_spec(s: &str) -> MessageId {
        arbitrary()
    }
}

impl From<String> for MessageId {
    fn from(s: String) -> (r: MessageId) {
        MessageId(s)
    }
}

impl FromSpecImpl<String> for MessageId {
    open spec fn obeys_from_spec() -> bool {
        true
    }

    open spec fn from_spec(s: String) -> MessageId {
        MessageId(s)
    }
}

impl MessageId {
    /// The identifier's text.
    pub fn text(&self) -> (r: String)
        ensures
            r@ == self@,
    {
        self.0.clone()
    }

    /// The identifier's text, borrowed.
    pub fn as_str(&self) -> (r: &str)
        ensures
            r@ == self@,
    {
        self.0.as_str()
    }

    /// Whether two identifiers have the same text.
    pub fn same(&self, other: &MessageId) -> (r: bool)
        ensures
            r == (self@ == other@),
    {
        self.0 == other.0
    }
}

/// Identifies a basket of related orders.
#[derive(Debug, PartialEq, Eq, Hash)]
pub struct BasketId(pub String);

impl View for BasketId {
    type V = Seq<char>;

    open spec fn view(&self) -> Seq<char> {
        self.0@
    }
}

impl Clone for BasketId {
    fn clone(&self) -> (r: BasketId)
        ensures
            r == *self,
    {
        BasketId(self.0.clone())
    }
}

impl From<&str> for BasketId {
    fn from(s: &str) -> (r: BasketId)
        ensures
            r@ == s@,
    {
        BasketId(s.to_owned())
    }
}

impl FromSpecImpl<&str> for BasketId {
    open spec fn obeys_from_spec() -> bool {
        false
    }

    open spec fn from_spec(s: &str) -> BasketId {
        arbitrary()
    }
}

impl From<String> for BasketId {
    fn from(s: String) -> (r: BasketId) {
        BasketId(s)
    }
}

impl FromSpecImpl<String> for BasketId {
    open spec fn obeys_from_spec() -> bool {
        true
    }

    open spec fn from_spec(s: String) -> BasketId {
        BasketId(s)
    }
}

impl BasketId {
    /// The identifier's text.
    pub fn text(&self) -> (r: String)
        ensures
            r@ == self@,
    {
        self.0.clone()
    }

    /// The identifier's text, borrowed.
    pub fn as_str(&self) -> (r: &str)
        ensures
            r@ == self@,
    {
        self.0.as_str()
    }

    /// Whether two identifiers have the same text.
    pub fn same(&self, other: &BasketId) -> (r: bool)
        ensures
            r == (self@ == other@),
    {
        self.0 == other.0
    }
}

/// Client-side order ID sent to venues. Structured format embeds debugging
/// context and guarantees uniqueness across process restarts.
///
/// Format: `{agent}-{epoch_ms}-{seq:06}-r{restart_epoch:02}`
///
/// - `agent`: short agent identifier
/// - `epoch_ms`: millisecond timestamp (from a clock, not wall time)
/// - `seq`: monotonic counter (per generator instance)
/// - `restart_epoch`: increments each process restart (mod 100)
#[derive(Debug, PartialEq, Eq, Hash)]
pub struct ClientOrderId(pub String);

impl View for ClientOrderId {
    type V = Seq<char>;

    open spec fn view(&self) -> Seq<char> {
        self.0@
    }
}

impl Clone for ClientOrderId {
    fn clone(&self) -> (r: ClientOrderId)
        ensures
            r == *self,
    {
        ClientOrderId(self.0.clone())
    }
}

impl ClientOrderId {
    /// The identifier's text.
    pub fn text(&self) -> (r: String)
        ensures
            r@ == self@,
    {
        self.0.clone()
    }

    /// The identifier's text, borrowed.
    pub fn as_str(&self) -> (r: &str)
        ensures
            r@ == self@,
    {
        self.0.as_str()
    }

    /// Whether two identifiers have the same text.
    pub fn same(&self, other: &ClientOrderId) -> (r: bool)
        ensures
            r == (self@ == other@),
    {
        self.0 == other.0
    }
}

/// The text of a generated client order ID.
pub open spec fn client_order_text(
    agent: Seq<char>,
    millis: int,
    seq: nat,
    restart_epoch: nat,
) -> Seq<char> {
    (agent.push('-') + int_text(millis)).push('-') + padded(seq, 6) + seq!['-'] + seq!['r'] + padded(
        restart_epoch,
        2,
    )
}

/// Whether a text is one of at least `width` decimal digits.
pub open spec fn is_number(s: Seq<char>, width: nat) -> bool {
    s.len() >= width && all_digits(s)
}

/// Whether a text ends in dash and milliseconds: what stands before a sequence.
pub open spec fn ends_in_millis(s: Seq<char>) -> bool {
    without_last_part(s, '-') is Some && is_number(last_part(s, '-'), 1)
}

/// Whether a text ends in dash and a sequence of at least six digits, after an agent and
/// milliseconds: what stands before a restart epoch.
pub open spec fn ends_in_sequence(s: Seq<char>) -> bool {
    match without_last_part(s, '-') {
        Some(before) => is_number(last_part(s, '-'), 6) && ends_in_millis(before),
        None => false,
    }
}

/// Whether a text has the form of a client order ID: an agent, milliseconds, a sequence of
/// at least six digits, and a restart epoch of at least two digits after an `r`, with
/// dashes between them.
pub open spec fn is_client_order_id(s: Seq<char>) -> bool {
    match (without_last_part(s, '-'), stripped(last_part(s, '-'), 'r')) {
        (Some(before), Some(epoch)) => is_number(epoch, 2) && ends_in_sequence(before),
        _ => false,
    }
}

/// The text before the last part; nothing where there is one part only.
pub open spec fn shortened(s: Seq<char>) -> Seq<char> {
    match without_last_part(s, '-') {
        Some(before) => before,
        None => seq![],
    }
}

/// The agent named in a client order ID: the text before the last three parts, which are
/// the milliseconds, the sequence and the restart epoch.
pub open spec fn embedded_agent(id: Seq<char>) -> Seq<char> {
    shortened(shortened(shortened(id)))
}

/// The restart epoch in a client order ID: the number after an `r` in the last part.
pub open spec fn embedded_restart_epoch(id: Seq<char>) -> Option<nat> {
    match stripped(last_part(id, '-'), 'r') {
        Some(t) => parsed_number(t, u16::MAX as nat),
        None => None,
    }
}

/// The sequence in a client order ID: the number in the part before the last.
pub open spec fn embedded_sequence(id: Seq<char>) -> Option<nat> {
    match without_last_part(id, '-') {
        Some(t) => parsed_number(last_part(t, '-'), u64::MAX as nat),
        None => None,
    }
}

impl ClientOrderId {
    /// The agent ID embedded in this client order ID.
    /// Returns `None` if the format is unrecognized.
    pub fn parse_agent(&self) -> (r: Option<AgentId>)
        ensures
            r is None <==> !is_client_order_id(self@),
            r matches Some(agent) ==> agent@ == embedded_agent(self@),
    {
        let last = last_part_text(self.0.as_str(), '-');
        let epoch = stripped_text(last.as_str(), 'r')?;
        let numbered = without_last_part_text(self.0.as_str(), '-')?;
        let timed = without_last_part_text(numbered.as_str(), '-')?;
        let agent = without_last_part_text(timed.as_str(), '-')?;
        let sequence = last_part_text(numbered.as_str(), '-');
        let millis = last_part_text(timed.as_str(), '-');
        if has_digits(epoch.as_str(), 2) && has_digits(sequence.as_str(), 6) && has_digits(
            millis.as_str(),
            1,
        ) {
            Some(AgentId(agent))
        } else {
            None
        }
    }

    /// The restart epoch embedded in this client order ID.
    pub fn parse_restart_epoch(&self) -> (r: Option<u16>)
        ensures
            match r {
                Some(n) => embedded_restart_epoch(self@) == Some(n as nat),
                None => embedded_restart_epoch(self@) is None,
            },
    {
        let last = last_part_text(self.0.as_str(), '-');
        match stripped_text(last.as_str(), 'r') {
            Some(t) => match parse_number(t.as_str(), 65_535) {
                Some(n) => Some(n as u16),
                None => None,
            },
            None => None,
        }
    }

    /// The sequence embedded in this client order ID.
    pub fn parse_sequence(&self) -> (r: Option<u64>)
        ensures
            match r {
                Some(n) => embedded_sequence(self@) == Some(n as nat),
                None => embedded_sequence(self@) is None,
            },
    {
        match without_last_part_text(self.0.as_str(), '-') {
            Some(t) => {
                let part = last_part_text(t.as_str(), '-');
                parse_number(part.as_str(), 18_446_744_073_709_551_615)
            },
            None => None,
        }
    }
}

/// Generates unique [`ClientOrderId`] values with embedded metadata.
///
/// One generator per agent. The sequencer owns the generators of all active agents.
#[derive(Debug)]
pub struct ClientOrderIdGenerator {
    agent_prefix: String,
    restart_epoch: u16,
    counter: u64,
}

impl ClientOrderIdGenerator {
    /// The agent text that every ID begins with.
    pub closed spec fn agent(&self) -> Seq<char> {
        self.agent_prefix@
    }

    /// The restart epoch that every ID ends with.
    pub closed spec fn epoch(&self) -> nat {
        self.restart_epoch as nat
    }

    /// The sequence of the next ID.
    pub closed spec fn upcoming(&self) -> u64 {
        self.counter
    }

    /// A new generator for the given agent, counting from zero.
    ///
    /// `restart_epoch` should increment each time the process starts.
    pub fn new(agent: &AgentId, restart_epoch: u16) -> (r: ClientOrderIdGenerator)
        ensures
            r.agent() == agent@,
            r.epoch() == restart_epoch,
            r.upcoming() == 0,
    {
        ClientOrderIdGenerator { agent_prefix: agent.0.clone(), restart_epoch, counter: 0 }
    }

    /// A new generator for the given agent, counting from `start`.
    pub fn with_start_seq(agent: &AgentId, restart_epoch: u16, start: u64) -> (r:
        ClientOrderIdGenerator)
        ensures
            r.agent() == agent@,
            r.epoch() == restart_epoch,
            r.upcoming() == start,
    {
        ClientOrderIdGenerator { agent_prefix: agent.0.clone(), restart_epoch, counter: start }
    }

    /// The next client order ID.
    ///
    /// `now` must come from a clock of the engine, so that a replay gives the same IDs.
    pub fn next(&mut self, now: Timestamp) -> (r: ClientOrderId)
        ensures
            r@ == client_order_text(
                old(self).agent(),
                now@ / NANOS_PER_MILLI as int,
                old(self).upcoming() as nat,
                old(self).epoch(),
            ),
            final(self).agent() == old(self).agent(),
            final(self).epoch() == old(self).epoch(),
            final(self).upcoming() == (if old(self).upcoming() == u64::MAX {
                0
            } else {
                (old(self).upcoming() + 1) as u64
            }),
    {
        let seq: u64 = self.counter;
        self.counter = seq.wrapping_add(1);
        let mut s = self.agent_prefix.clone();
        s.push('-');
        s.append(signed_text(now.timestamp_millis()).as_str());
        s.push('-');
        s.append(padded_text(seq as u128, 6).as_str());
        s.push('-');
        s.push('r');
        s.append(padded_text(self.restart_epoch as u128, 2).as_str());
        assert(s@ =~= client_order_text(
            self.agent_prefix@,
            now@ / NANOS_PER_MILLI as int,
            seq as nat,
            self.restart_epoch as nat,
        ));
        ClientOrderId(s)
    }

    /// The sequence of the next ID (for diagnostics only).
    pub fn current_seq(&self) -> (r: u64)
        ensures
            r == self.upcoming(),
    {
        self.counter
    }
}

/// A client order ID gives back the restart epoch and the sequence it was made with.
pub proof fn law_client_order_id_round_trip(
    agent: Seq<char>,
    millis: int,
    seq: u64,
    restart_epoch: u16,
)
    ensures
        embedded_restart_epoch(
            client_order_text(agent, millis, seq as nat, restart_epoch as nat),
        ) == Some(restart_epoch as nat),
        embedded_sequence(client_order_text(agent, millis, seq as nat, restart_epoch as nat))
            == Some(seq as nat),
{
    let id = client_order_text(agent, millis, seq as nat, restart_epoch as nat);
    let head = (agent.push('-') + int_text(millis)).push('-') + padded(seq as nat, 6);
    let tail = seq!['r'] + padded(restart_epoch as nat, 2);
    assert(id =~= head.push('-') + tail);
    lemma_padded_without_dash(restart_epoch as nat, 2);
    assert(!tail.contains('-')) by {
        if tail.contains('-') {
            let i = choose|i: int| 0 <= i < tail.len() && tail[i] == '-';
            assert(padded(restart_epoch as nat, 2)[i - 1] == '-');
        }
    }
    crate::text::lemma_last_part_of_join(head, '-', tail);
    assert(tail.drop_first() =~= padded(restart_epoch as nat, 2));
    crate::text::lemma_parse_padded(restart_epoch as nat, 2, u16::MAX as nat);
    lemma_padded_without_dash(seq as nat, 6);
    crate::text::lemma_last_part_of_join(
        agent.push('-') + int_text(millis),
        '-',
        padded(seq as nat, 6),
    );
    crate::text::lemma_parse_padded(seq as nat, 6, u64::MAX as nat);
}

/// Every client order ID that is made has the form of one.
pub proof fn law_client_order_id_is_recognized(
    agent: Seq<char>,
    millis: int,
    seq: u64,
    restart_epoch: u16,
)
    ensures
        is_client_order_id(client_order_text(agent, millis, seq as nat, restart_epoch as nat)),
{
    lemma_client_order_id_parts(agent, millis, seq, restart_epoch);
}

/// A client order ID gives back the agent it was made for, whatever the agent's name holds,
/// where its time is not before 1970.
pub proof fn law_client_order_id_agent(
    agent: Seq<char>,
    millis: int,
    seq: u64,
    restart_epoch: u16,
)
    requires
        millis >= 0,
    ensures
        embedded_agent(client_order_text(agent, millis, seq as nat, restart_epoch as nat))
            == agent,
{
    lemma_client_order_id_parts(agent, millis, seq, restart_epoch);
}

/// The parts of a client order ID that is made. The minus of a time before 1970 counts as
/// the end of the agent's name.
proof fn lemma_client_order_id_parts(
    agent: Seq<char>,
    millis: int,
    seq: u64,
    restart_epoch: u16,
)
    ensures
        is_client_order_id(client_order_text(agent, millis, seq as nat, restart_epoch as nat)),
        embedded_agent(client_order_text(agent, millis, seq as nat, restart_epoch as nat)) == (
        if millis < 0 {
            agent.push('-')
        } else {
            agent
        }),
{
    let id = client_order_text(agent, millis, seq as nat, restart_epoch as nat);
    let timed = agent.push('-') + int_text(millis);
    let numbered = timed.push('-') + padded(seq as nat, 6);
    let tail = seq!['r'] + padded(restart_epoch as nat, 2);
    assert(id =~= numbered.push('-') + tail);
    lemma_padded_without_dash(restart_epoch as nat, 2);
    assert(!tail.contains('-')) by {
        if tail.contains('-') {
            let i = choose|i: int| 0 <= i < tail.len() && tail[i] == '-';
            assert(padded(restart_epoch as nat, 2)[i - 1] == '-');
        }
    }
    crate::text::lemma_last_part_of_join(numbered, '-', tail);
    assert(tail.drop_first() =~= padded(restart_epoch as nat, 2));
    crate::text::lemma_padded(restart_epoch as nat, 2);
    lemma_padded_without_dash(seq as nat, 6);
    crate::text::lemma_last_part_of_join(timed, '-', padded(seq as nat, 6));
    crate::text::lemma_padded(seq as nat, 6);
    let size = if millis < 0 {
        (-millis) as nat
    } else {
        millis as nat
    };
    let before = if millis < 0 {
        agent.push('-')
    } else {
        agent
    };
    assert(timed =~= before.push('-') + digits(size));
    crate::text::lemma_digits(size);
    assert(padded(size, 1) == digits(size));
    lemma_padded_without_dash(size, 1);
    crate::text::lemma_last_part_of_join(before, '-', digits(size));
}

/// Two client order IDs of different sequences, or of different restart epochs, differ.
pub proof fn law_client_order_ids_unique(
    agent1: Seq<char>,
    millis1: int,
    seq1: u64,
    epoch1: u16,
    agent2: Seq<char>,
    millis2: int,
    seq2: u64,
    epoch2: u16,
)
    requires
        seq1 != seq2 || epoch1 != epoch2,
    ensures
        client_order_text(agent1, millis1, seq1 as nat, epoch1 as nat) != client_order_text(
            agent2,
            millis2,
            seq2 as nat,
            epoch2 as nat,
        ),
{
    law_client_order_id_round_trip(agent1, millis1, seq1, epoch1);
    law_client_order_id_round_trip(agent2, millis2, seq2, epoch2);
}

/// Padded digits hold no dash.
proof fn lemma_padded_without_dash(n: nat, width: nat)
    ensures
        !padded(n, width).contains('-'),
{
    crate::text::lemma_padded(n, width);
    let p = padded(n, width);
    if p.contains('-') {
        let i = choose|i: int| 0 <= i < p.len() && p[i] == '-';
        assert(crate::text::is_digit(p[i]));
    }
}

/// Monotonically increasing event sequence number.
///
/// Assigned by the sequencer before processing any command.
/// Total ordering: if `a.0 < b.0`, event `a` happened before `b`.
#[derive(Debug, Clone, Copy, PartialEq, Eq, PartialOrd, Ord, Hash, Structural)]
pub struct SequenceId(pub u64);

impl SequenceId {
    /// The sequence number before any event.
    pub fn zero() -> (r: SequenceId)
        ensures
            r.0 == 0,
    {
        SequenceId(0)
    }

    /// The sequence number after this one.
    pub fn next(self) -> (r: SequenceId)
        requires
            self.0 < u64::MAX,
        ensures
            r.0 == self.0 + 1,
    {
        SequenceId(self.0 + 1)
    }

    /// The sequence number as text.
    pub fn text(self) -> (r: String)
        ensures
            r@ == sequence_text(self),
    {
        joined("seq:", digits_text(self.0 as u128).as_str())
    }
}

/// The text of a sequence number.
pub open spec fn sequence_text(id: SequenceId) -> Seq<char> {
    "seq:"@ + digits(id.0 as nat)
}

} // verus!
