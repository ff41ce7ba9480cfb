//! Message bus — messages on streams with consumer group semantics.
//!
//! A message is stored as two text fields, its payload in hexadecimal and the time of
//! publication. This module turns messages into fields and back, and decides what follows
//! from the replies of the stream server; sending and receiving is left to the caller.
//!
//! **Invariant:** all channels are bounded.

use crate::hexadecimal::{hex_char, hex_of, hex_text, hex_value};
use crate::ids::MessageId;
use crate::table::Table;
use crate::text::{
    chars_of, contains_text, digits, int_text, is_digit, joined, joined3, joined4, joined5,
    lemma_digits, occurs, parse_integer, parse_number, parsed_integer, parsed_number, signed_text,
};
use crate::time::{timestamp_range, Duration, Timestamp, MAX_UTC_MILLIS, MIN_UTC_MILLIS, NANOS_PER_MILLI};
use vstd::prelude::*;
use vstd::utf8::{
    decode_utf8, encode_utf8, encode_utf8_decode_utf8, encode_utf8_valid_utf8, is_ascii_chars,
    is_ascii_chars_encode_utf8, valid_utf8,
};

verus! {

/// Messages that may wait for a subscriber.
pub const SUBSCRIPTION_CHANNEL_CAPACITY: usize = 1_024;

/// Messages that are read at a time.
pub const STREAM_READ_COUNT: u64 = 128;

/// How long a read waits for messages, in milliseconds.
pub const STREAM_BLOCK_MS: u64 = 1_000;

/// Pending messages that are listed at a time.
pub const PENDING_PAGE_SIZE: usize = 256;

/// How long a subscription waits after a failed read, in milliseconds.
pub const SUBSCRIBE_RETRY_DELAY_MS: u64 = 250;

// ─── Errors ───

/// Typed errors for bus operations.
#[derive(Debug)]
pub enum BusError {
    ConnectionFailed(String),
    TopicNotFound(String),
    PublishFailed { topic: String, reason: String },
    GroupNotFound { topic: String, group: String },
    SubscribeFailed { topic: String, group: String, consumer: String, reason: String },
    PendingFailed { topic: String, group: String, reason: String },
    AckFailed { topic: String, group: String, message_id: MessageId, reason: String },
    ClaimFailed { topic: String, group: String, consumer: String, reason: String },
    TopicInfoFailed { topic: String, reason: String },
    HealthCheckFailed(String),
    InvalidMessage { topic: String, message_id: MessageId, reason: String },
    MissingField { topic: String, message_id: MessageId, field: &'static str },
    /// Any other failure, as text.
    Internal(String),
}

/// The content of a [`BusError`].
pub enum BusFault {
    ConnectionFailed(Seq<char>),
    TopicNotFound(Seq<char>),
    PublishFailed { topic: Seq<char>, reason: Seq<char> },
    GroupNotFound { topic: Seq<char>, group: Seq<char> },
    SubscribeFailed { topic: Seq<char>, group: Seq<char>, consumer: Seq<char>, reason: Seq<char> },
    PendingFailed { topic: Seq<char>, group: Seq<char>, reason: Seq<char> },
    AckFailed { topic: Seq<char>, group: Seq<char>, message_id: Seq<char>, reason: Seq<char> },
    ClaimFailed { topic: Seq<char>, group: Seq<char>, consumer: Seq<char>, reason: Seq<char> },
    TopicInfoFailed { topic: Seq<char>, reason: Seq<char> },
    HealthCheckFailed(Seq<char>),
    InvalidMessage { topic: Seq<char>, message_id: Seq<char>, reason: Seq<char> },
    MissingField { topic: Seq<char>, message_id: Seq<char>, field: Seq<char> },
    Internal(Seq<char>),
}

impl View for BusError {
    type V = BusFault;

    open spec fn view(&self) -> BusFault {
        match *self {
            BusError::ConnectionFailed(why) => BusFault::ConnectionFailed(why@),
            BusError::TopicNotFound(topic) => BusFault::TopicNotFound(topic@),
            BusError::PublishFailed { topic, reason } => BusFault::PublishFailed {
                topic: topic@,
                reason: reason@,
            },
            BusError::GroupNotFound { topic, group } => BusFault::GroupNotFound {
                topic: topic@,
                group: group@,
            },
            BusError::SubscribeFailed { topic, group, consumer, reason } =>
                BusFault::SubscribeFailed {
                    topic: topic@,
                    group: group@,
                    consumer: consumer@,
                    reason: reason@,
                },
            BusError::PendingFailed { topic, group, reason } => BusFault::PendingFailed {
                topic: topic@,
                group: group@,
                reason: reason@,
            },
            BusError::AckFailed { topic, group, message_id, reason } => BusFault::AckFailed {
                topic: topic@,
                group: group@,
                message_id: message_id@,
                reason: reason@,
            },
            BusError::ClaimFailed { topic, group, consumer, reason } => BusFault::ClaimFailed {
                topic: topic@,
                group: group@,
                consumer: consumer@,
                reason: reason@,
            },
            BusError::TopicInfoFailed { topic, reason } => BusFault::TopicInfoFailed {
                topic: topic@,
                reason: reason@,
            },
            BusError::HealthCheckFailed(why) => BusFault::HealthCheckFailed(why@),
            BusError::InvalidMessage { topic, message_id, reason } => BusFault::InvalidMessage {
                topic: topic@,
                message_id: message_id@,
                reason: reason@,
            },
            BusError::MissingField { topic, message_id, field } => BusFault::MissingField {
                topic: topic@,
                message_id: message_id@,
                field: field@,
            },
            BusError::Internal(why) => BusFault::Internal(why@),
        }
    }
}

/// The text of a bus error.
pub open spec fn bus_fault_text(f: BusFault) -> Seq<char> {
    match f {
        BusFault::ConnectionFailed(why) => "bus connection failed: "@ + why,
        BusFault::TopicNotFound(topic) => "topic not found: "@ + topic,
        BusFault::PublishFailed { topic, reason } => "publish failed on topic "@ + topic + ": "@
            + reason,
        BusFault::GroupNotFound { topic, group } => "consumer group "@ + group
            + " not found on topic "@ + topic,
        BusFault::SubscribeFailed { topic, group, consumer, reason } =>
            "subscribe failed on topic "@ + topic + " for group "@ + group + " and consumer "@
                + consumer + ": "@ + reason,
        BusFault::PendingFailed { topic, group, reason } => "pending failed on topic "@ + topic
            + " for group "@ + group + ": "@ + reason,
        BusFault::AckFailed { topic, group, message_id, reason } => "ack of "@ + message_id
            + " failed on topic "@ + topic + " for group "@ + group + ": "@ + reason,
        BusFault::ClaimFailed { topic, group, consumer, reason } => "claim failed on topic "@
            + topic + " for group "@ + group + " and consumer "@ + consumer + ": "@ + reason,
        BusFault::TopicInfoFailed { topic, reason } => "topic info failed on topic "@ + topic
            + ": "@ + reason,
        BusFault::HealthCheckFailed(why) => "bus health check failed: "@ + why,
        BusFault::InvalidMessage { topic, message_id, reason } => "invalid message "@ + message_id
            + " on topic "@ + topic + ": "@ + reason,
        BusFault::MissingField { topic, message_id, field } => "message "@ + message_id
            + " on topic "@ + topic + " has no field "@ + field,
        BusFault::Internal(why) => why,
    }
}

impl BusError {
    /// The error as text.
    pub fn text(&self) -> (r: String)
        ensures
            r@ == bus_fault_text(self@),
    {
        match self {
            BusError::ConnectionFailed(why) => joined("bus connection failed: ", why.as_str()),
            BusError::TopicNotFound(topic) => joined("topic not found: ", topic.as_str()),
            BusError::PublishFailed { topic, reason } => joined4(
                "publish failed on topic ",
                topic.as_str(),
                ": ",
                reason.as_str(),
            ),
            BusError::GroupNotFound { topic, group } => joined4(
                "consumer group ",
                group.as_str(),
                " not found on topic ",
                topic.as_str(),
            ),
            BusError::SubscribeFailed { topic, group, consumer, reason } => {
                let who = joined4(
                    "subscribe failed on topic ",
                    topic.as_str(),
                    " for group ",
                    group.as_str(),
                );
                joined5(
                    who.as_str(),
                    " and consumer ",
                    consumer.as_str(),
                    ": ",
                    reason.as_str(),
                )
            },
            BusError::PendingFailed { topic, group, reason } => {
                let who = joined4(
                    "pending failed on topic ",
                    topic.as_str(),
                    " for group ",
                    group.as_str(),
                );
                joined3(who.as_str(), ": ", reason.as_str())
            },
            BusError::AckFailed { topic, group, message_id, reason } => {
                let who = joined4(
                    "ack of ",
                    message_id.0.as_str(),
                    " failed on topic ",
                    topic.as_str(),
                );
                joined5(who.as_str(), " for group ", group.as_str(), ": ", reason.as_str())
            },
            BusError::ClaimFailed { topic, group, consumer, reason } => {
                let who = joined4(
                    "claim failed on topic ",
                    topic.as_str(),
                    " for group ",
                    group.as_str(),
                );
                joined5(
                    who.as_str(),
                    " and consumer ",
                    consumer.as_str(),
                    ": ",
                    reason.as_str(),
                )
            },
            BusError::TopicInfoFailed { topic, reason } => joined4(
                "topic info failed on topic ",
                topic.as_str(),
                ": ",
                reason.as_str(),
            ),
            BusError::HealthCheckFailed(why) => joined("bus health check failed: ", why.as_str()),
            BusError::InvalidMessage { topic, message_id, reason } => {
                let who = joined4(
                    "invalid message ",
                    message_id.0.as_str(),
                    " on topic ",
                    topic.as_str(),
                );
                joined3(who.as_str(), ": ", reason.as_str())
            },
            BusError::MissingField { topic, message_id, field } => {
                let who = joined4(
                    "message ",
                    message_id.0.as_str(),
                    " on topic ",
                    topic.as_str(),
                );
                joined3(who.as_str(), " has no field ", field)
            },
            BusError::Internal(why) => why.clone(),
        }
    }
}

// ─── Messages ───

/// Single message received from bus.
#[derive(Debug, Clone)]
pub struct BusMessage {
    pub id: MessageId,
    pub topic: String,
    pub payload: Vec<u8>,
    pub published_at: Timestamp,
}

/// Metadata about a topic.
#[derive(Debug, Clone)]
pub struct TopicInfo {
    pub length: u64,
    pub consumer_groups: Vec<ConsumerGroupInfo>,
    pub oldest_message: Option<Timestamp>,
    pub newest_message: Option<Timestamp>,
}

/// Metadata about a consumer group.
#[derive(Debug, Clone)]
pub struct ConsumerGroupInfo {
    pub name: String,
    pub consumers: u32,
    pub pending: u64,
    pub last_delivered: Option<MessageId>,
}

/// The text of the error of `std::str::from_utf8` for bytes that are not UTF-8.
pub uninterp spec fn utf8_error_text(bytes: Seq<u8>) -> Seq<char>;

/// The text of the error of `u8::from_str_radix` with radix sixteen.
pub uninterp spec fn byte_error_text(text: Seq<char>) -> Seq<char>;

/// The text of the error of parsing a text as `i64`.
pub uninterp spec fn integer_error_text(text: Seq<char>) -> Seq<char>;

/// The text of the error of converting a `u64` that is too large into a `u32`.
pub uninterp spec fn count_error_text(n: int) -> Seq<char>;

/// `std::str::from_utf8`: the text of bytes that are UTF-8, or the text of its error.
#[verifier::external_body]
fn utf8_text(bytes: &[u8]) -> (r: Result<String, String>)
    ensures
        match r {
            Ok(s) => valid_utf8(bytes@) && s@ == decode_utf8(bytes@),
            Err(e) => !valid_utf8(bytes@) && e@ == utf8_error_text(bytes@),
        },
{
    match std::str::from_utf8(bytes) {
        Ok(s) => Ok(s.to_owned()),
        Err(e) => Err(e.to_string()),
    }
}

/// The text of the error of `u8::from_str_radix` with radix sixteen. The call has no error
/// for a text that it takes as a number, and the result is then empty.
#[verifier::external_body]
fn byte_error(text: &str) -> (r: String)
    requires
        radix16(text@) is None,
    ensures
        r@ == byte_error_text(text@),
{
    match u8::from_str_radix(text, 16) {
        Ok(_) => String::new(),
        Err(e) => e.to_string(),
    }
}

/// The text of the error of `str::parse::<i64>`. The call has no error for a text that it
/// takes as a number, and the result is then empty.
#[verifier::external_body]
fn integer_error(text: &str) -> (r: String)
    requires
        parsed_integer(text@) is None,
    ensures
        r@ == integer_error_text(text@),
{
    match text.parse::<i64>() {
        Ok(_) => String::new(),
        Err(e) => e.to_string(),
    }
}

/// `u32::try_from` on a `u64`: the same number where it is in range, or the text of its
/// error.
#[verifier::external_body]
fn small_count(n: u64) -> (r: Result<u32, String>)
    ensures
        match r {
            Ok(v) => v == n,
            Err(e) => n > u32::MAX && e@ == count_error_text(n as int),
        },
{
    match u32::try_from(n) {
        Ok(v) => Ok(v),
        Err(e) => Err(e.to_string()),
    }
}

/// The number that one or two hexadecimal digits denote, after an optional plus sign.
pub open spec fn radix16(s: Seq<char>) -> Option<int> {
    let body = if s.len() > 0 && s[0] == '+' {
        s.drop_first()
    } else {
        s
    };
    if body.len() == 1 {
        hex_value(body[0])
    } else if body.len() == 2 {
        match (hex_value(body[0]), hex_value(body[1])) {
            (Some(a), Some(b)) => Some(16 * a + b),
            _ => None,
        }
    } else {
        None
    }
}

/// The byte that two bytes of a hexadecimal text denote, or why they denote none.
pub open spec fn pair_byte(high: u8, low: u8) -> Result<int, Seq<char>> {
    let bytes = seq![high, low];
    if !valid_utf8(bytes) {
        Err("hex payload was not valid UTF-8: "@ + utf8_error_text(bytes))
    } else {
        match radix16(decode_utf8(bytes)) {
            Some(v) => Ok(v),
            None => Err(
                "hex payload contained invalid byte "@ + decode_utf8(bytes) + ": "@
                    + byte_error_text(decode_utf8(bytes)),
            ),
        }
    }
}

/// The bytes that the first pairs of a hexadecimal text denote; why the first one that
/// denotes none does not.
pub open spec fn pair_bytes(bytes: Seq<u8>, pairs: nat) -> Result<Seq<u8>, Seq<char>>
    decreases pairs,
{
    if pairs == 0 {
        Ok(seq![])
    } else {
        match pair_bytes(bytes, (pairs - 1) as nat) {
            Err(why) => Err(why),
            Ok(before) => match pair_byte(bytes[2 * pairs - 2], bytes[2 * pairs - 1]) {
                Err(why) => Err(why),
                Ok(v) => Ok(before.push(v as u8)),
            },
        }
    }
}

/// The payload that a hexadecimal text denotes, or why it denotes none.
pub open spec fn decoded_payload(text: Seq<char>) -> Result<Seq<u8>, Seq<char>> {
    let bytes = encode_utf8(text);
    if bytes.len() % 2 != 0 {
        Err("hex payload had odd length"@)
    } else {
        pair_bytes(bytes, (bytes.len() / 2) as nat)
    }
}

/// The value of a hexadecimal digit.
fn hex_digit_value(c: char) -> (r: Option<u8>)
    ensures
        match r {
            Some(v) => hex_value(c) == Some(v as int) && v < 16,
            None => hex_value(c) is None,
        },
{
    if '0' <= c && c <= '9' {
        Some((c as u32 - 48) as u8)
    } else if 'a' <= c && c <= 'f' {
        Some((c as u32 - 87) as u8)
    } else if 'A' <= c && c <= 'F' {
        Some((c as u32 - 55) as u8)
    } else {
        None
    }
}

/// The number that one or two hexadecimal digits denote.
fn byte_of(text: &str) -> (r: Option<u8>)
    ensures
        match r {
            Some(v) => radix16(text@) == Some(v as int),
            None => radix16(text@) is None,
        },
{
    let v = chars_of(text);
    let from: usize = if v.len() > 0 && v[0] == '+' {
        1
    } else {
        0
    };
    if v.len() - from == 1 {
        hex_digit_value(v[from])
    } else if v.len() - from == 2 {
        let high: u8 = hex_digit_value(v[from])?;
        let low: u8 = hex_digit_value(v[from + 1])?;
        Some(high * 16 + low)
    } else {
        None
    }
}

/// A payload in hexadecimal.
pub fn encode_hex(payload: &[u8]) -> (r: String)
    ensures
        r@ == hex_text(payload@),
{
    hex_of(payload)
}

/// The error for a message that cannot be read.
fn invalid_message(topic: &str, message_id: &MessageId, reason: String) -> (r: BusError)
    ensures
        r@ == (BusFault::InvalidMessage {
            topic: topic@,
            message_id: message_id@,
            reason: reason@,
        }),
{
    BusError::InvalidMessage { topic: topic.to_owned(), message_id: message_id.clone(), reason }
}

/// A fault among the leading pairs is the fault of all.
proof fn lemma_leading_pair_fault(bytes: Seq<u8>, n: nat, pairs: nat)
    requires
        n <= pairs,
        pair_bytes(bytes, n) is Err,
    ensures
        pair_bytes(bytes, pairs) == pair_bytes(bytes, n),
    decreases pairs,
{
    if n < pairs {
        lemma_leading_pair_fault(bytes, n, (pairs - 1) as nat);
    }
}

/// The payload that a hexadecimal text denotes.
pub fn decode_hex(topic: &str, message_id: &MessageId, encoded: &str) -> (r: Result<
    Vec<u8>,
    BusError,
>)
    ensures
        match (r, decoded_payload(encoded@)) {
            (Ok(payload), Ok(expected)) => payload@ == expected,
            (Err(e), Err(reason)) => e@ == (BusFault::InvalidMessage {
                topic: topic@,
                message_id: message_id@,
                reason,
            }),
            _ => false,
        },
{
    let bytes = encoded.as_bytes();
    if bytes.len() % 2 != 0 {
        return Err(invalid_message(topic, message_id, "hex payload had odd length".to_owned()));
    }
    let count: usize = bytes.len();
    let pairs: usize = count / 2;
    let mut decoded: Vec<u8> = Vec::new();
    let mut i: usize = 0;
    while i < pairs
        invariant
            i <= pairs,
            2 * pairs == count,
            bytes@.len() == count,
            bytes@ == encode_utf8(encoded@),
            pair_bytes(bytes@, i as nat) == Ok::<Seq<u8>, Seq<char>>(decoded@),
        decreases pairs - i,
    {
        let mut pair: Vec<u8> = Vec::new();
        pair.push(bytes[2 * i]);
        pair.push(bytes[2 * i + 1]);
        assert(pair@ =~= seq![bytes@[2 * i], bytes@[2 * i + 1]]);
        let text = match utf8_text(pair.as_slice()) {
            Ok(text) => text,
            Err(e) => {
                proof {
                    lemma_leading_pair_fault(bytes@, (i + 1) as nat, pairs as nat);
                }
                return Err(
                    invalid_message(
                        topic,
                        message_id,
                        joined("hex payload was not valid UTF-8: ", e.as_str()),
                    ),
                );
            },
        };
        match byte_of(text.as_str()) {
            Some(b) => {
                decoded.push(b);
            },
            None => {
                proof {
                    lemma_leading_pair_fault(bytes@, (i + 1) as nat, pairs as nat);
                }
                let why = byte_error(text.as_str());
                return Err(
                    invalid_message(
                        topic,
                        message_id,
                        joined4(
                            "hex payload contained invalid byte ",
                            text.as_str(),
                            ": ",
                            why.as_str(),
                        ),
                    ),
                );
            },
        }
        i = i + 1;
    }
    Ok(decoded)
}

/// The field that a message must have.
pub open spec fn field_of(
    fields: Map<Seq<char>, String>,
    topic: Seq<char>,
    message_id: Seq<char>,
    field: Seq<char>,
) -> Result<Seq<char>, BusFault> {
    if fields.contains_key(field) {
        Ok(fields[field]@)
    } else {
        Err(BusFault::MissingField { topic, message_id, field })
    }
}

/// The field that a message must have.
pub fn required_field<'a>(
    topic: &str,
    message_id: &MessageId,
    fields: &'a Table<String>,
    field: &'static str,
) -> (r: Result<&'a str, BusError>)
    ensures
        match (r, field_of(fields@, topic@, message_id@, field@)) {
            (Ok(text), Ok(expected)) => text@ == expected,
            (Err(e), Err(f)) => e@ == f,
            _ => false,
        },
{
    match fields.get(field) {
        Some(value) => Ok(value.as_str()),
        None => Err(
            BusError::MissingField {
                topic: topic.to_owned(),
                message_id: message_id.clone(),
                field,
            },
        ),
    }
}

/// When a message was published, as nanoseconds since 1970, from its fields. A message
/// without identifier is called unknown.
pub open spec fn publication(
    fields: Map<Seq<char>, String>,
    topic: Seq<char>,
    message_id: Option<Seq<char>>,
) -> Result<int, BusFault> {
    let id = match message_id {
        Some(id) => id,
        None => "unknown"@,
    };
    match field_of(fields, topic, id, "published_at_ms"@) {
        Err(f) => Err(f),
        Ok(text) => match parsed_integer(text) {
            None => Err(
                BusFault::InvalidMessage {
                    topic,
                    message_id: id,
                    reason: "invalid published_at_ms field: "@ + integer_error_text(text),
                },
            ),
            Some(millis) => if MIN_UTC_MILLIS <= millis <= MAX_UTC_MILLIS {
                Ok(millis * NANOS_PER_MILLI)
            } else {
                Err(
                    BusFault::InvalidMessage {
                        topic,
                        message_id: id,
                        reason: "published_at_ms "@ + int_text(millis)
                            + " is outside the valid UTC range"@,
                    },
                )
            },
        },
    }
}

/// The text of an optional message identifier.
pub open spec fn opt_id(id: Option<&MessageId>) -> Option<Seq<char>> {
    match id {
        Some(x) => Some(x@),
        None => None,
    }
}

/// When a message was published.
pub fn published_at_from_fields(
    topic: &str,
    message_id: Option<&MessageId>,
    fields: &Table<String>,
) -> (r: Result<Timestamp, BusError>)
    ensures
        match (r, publication(fields@, topic@, opt_id(message_id))) {
            (Ok(t), Ok(n)) => t@ == n,
            (Err(e), Err(f)) => e@ == f,
            _ => false,
        },
{
    let field_id = match message_id {
        Some(id) => id.clone(),
        None => MessageId("unknown".to_owned()),
    };
    let text = match required_field(topic, &field_id, fields, "published_at_ms") {
        Ok(text) => text,
        Err(e) => {
            return Err(e);
        },
    };
    let millis: i64 = match parse_integer(text) {
        Some(n) => n,
        None => {
            let why = integer_error(text);
            return Err(
                invalid_message(
                    topic,
                    &field_id,
                    joined("invalid published_at_ms field: ", why.as_str()),
                ),
            );
        },
    };
    match Timestamp::from_utc_millis(millis) {
        Some(t) => Ok(t),
        None => Err(
            invalid_message(
                topic,
                &field_id,
                joined3(
                    "published_at_ms ",
                    signed_text(millis).as_str(),
                    " is outside the valid UTC range",
                ),
            ),
        ),
    }
}

/// What a message holds.
pub struct Content {
    pub payload: Seq<u8>,
    pub published_at: int,
}

/// What a stream entry holds, or why it is no message: its payload is read before its time
/// of publication.
pub open spec fn entry_content(
    topic: Seq<char>,
    id: Seq<char>,
    fields: Map<Seq<char>, String>,
) -> Result<Content, BusFault> {
    match field_of(fields, topic, id, "payload_hex"@) {
        Err(f) => Err(f),
        Ok(text) => match decoded_payload(text) {
            Err(reason) => Err(BusFault::InvalidMessage { topic, message_id: id, reason }),
            Ok(payload) => match publication(fields, topic, Some(id)) {
                Err(f) => Err(f),
                Ok(published_at) => Ok(Content { payload, published_at }),
            },
        },
    }
}

/// Whether a message is the one of a stream entry.
pub open spec fn is_message(m: BusMessage, topic: Seq<char>, id: Seq<char>, c: Content) -> bool {
    &&& m.id@ == id
    &&& m.topic@ == topic
    &&& m.payload@ == c.payload
    &&& m.published_at@ == c.published_at
}

/// The message of a stream entry.
pub fn stream_entry_to_message(topic: &str, id: String, fields: &Table<String>) -> (r: Result<
    BusMessage,
    BusError,
>)
    ensures
        match (r, entry_content(topic@, id@, fields@)) {
            (Ok(m), Ok(c)) => is_message(m, topic@, id@, c),
            (Err(e), Err(f)) => e@ == f,
            _ => false,
        },
{
    let message_id = MessageId(id);
    let payload_hex = match required_field(topic, &message_id, fields, "payload_hex") {
        Ok(text) => text,
        Err(e) => {
            return Err(e);
        },
    };
    let payload = match decode_hex(topic, &message_id, payload_hex) {
        Ok(payload) => payload,
        Err(e) => {
            return Err(e);
        },
    };
    let published_at = match published_at_from_fields(topic, Some(&message_id), fields) {
        Ok(t) => t,
        Err(e) => {
            return Err(e);
        },
    };
    Ok(BusMessage { id: message_id, topic: topic.to_owned(), payload, published_at })
}

/// Whether fields are those that a payload is published with at a time.
pub open spec fn publishes(fields: Map<Seq<char>, String>, payload: Seq<u8>, now: int) -> bool {
    &&& fields.dom() == set!["payload_hex"@, "published_at_ms"@]
    &&& fields["payload_hex"@]@ == hex_text(payload)
    &&& fields["published_at_ms"@]@ == int_text(now / NANOS_PER_MILLI as int)
}

/// The fields that a payload is published with.
pub fn message_fields(payload: &[u8], now: Timestamp) -> (r: Table<String>)
    ensures
        publishes(r@, payload@, now@),
{
    let mut fields: Table<String> = Table::new();
    fields.insert("payload_hex".to_owned(), encode_hex(payload));
    fields.insert("published_at_ms".to_owned(), signed_text(now.timestamp_millis()));
    proof {
        reveal_strlit("payload_hex");
        reveal_strlit("published_at_ms");
        assert("payload_hex"@.len() != "published_at_ms"@.len());
        assert(fields@.dom() =~= set!["payload_hex"@, "published_at_ms"@]);
    }
    fields
}

/// A message reads back as it was published: the same payload, and the time of publication
/// in whole milliseconds.
pub proof fn law_message_round_trip(
    topic: Seq<char>,
    id: Seq<char>,
    fields: Map<Seq<char>, String>,
    payload: Seq<u8>,
    now: int,
)
    requires
        publishes(fields, payload, now),
        timestamp_range(now),
    ensures
        entry_content(topic, id, fields) == Ok::<Content, BusFault>(
            Content {
                payload,
                published_at: now / NANOS_PER_MILLI as int * NANOS_PER_MILLI,
            },
        ),
{
    law_hex_round_trip(payload);
    let millis = now / NANOS_PER_MILLI as int;
    assert(MIN_UTC_MILLIS <= millis <= MAX_UTC_MILLIS);
    lemma_parse_integer(millis);
    assert(fields.contains_key("payload_hex"@));
    assert(fields.contains_key("published_at_ms"@));
}

/// Every payload reads back from its hexadecimal text.
pub proof fn law_hex_round_trip(payload: Seq<u8>)
    ensures
        decoded_payload(hex_text(payload)) == Ok::<Seq<u8>, Seq<char>>(payload),
{
    lemma_hex_text(payload);
    let text = hex_text(payload);
    is_ascii_chars_encode_utf8(text);
    lemma_hex_pairs(payload, payload.len());
    assert(payload.take(payload.len() as int) =~= payload);
}

/// A hexadecimal text has two ASCII characters for each byte.
proof fn lemma_hex_text(payload: Seq<u8>)
    ensures
        hex_text(payload).len() == 2 * payload.len(),
        is_ascii_chars(hex_text(payload)),
        forall|i: int|
            0 <= i < payload.len() ==> {
                &&& #[trigger] hex_text(payload)[2 * i] == hex_char(payload[i] as int / 16)
                &&& hex_text(payload)[2 * i + 1] == hex_char(payload[i] as int % 16)
            },
    decreases payload.len(),
{
    if payload.len() > 0 {
        let before = payload.drop_last();
        lemma_hex_text(before);
        let text = hex_text(payload);
        assert forall|i: int| 0 <= i < payload.len() implies {
            &&& #[trigger] text[2 * i] == hex_char(payload[i] as int / 16)
            &&& text[2 * i + 1] == hex_char(payload[i] as int % 16)
        } by {
            if i < before.len() {
                assert(text[2 * i] == hex_text(before)[2 * i]);
                assert(text[2 * i + 1] == hex_text(before)[2 * i + 1]);
            }
        }
        assert forall|i: int| 0 <= i < text.len() implies '\0' <= #[trigger] text[i]
            <= '\u{7f}' by {
            if i < hex_text(before).len() {
                assert(text[i] == hex_text(before)[i]);
            }
        }
    }
}

/// The leading pairs of a hexadecimal text denote the leading bytes.
proof fn lemma_hex_pairs(payload: Seq<u8>, pairs: nat)
    requires
        pairs <= payload.len(),
    ensures
        pair_bytes(encode_utf8(hex_text(payload)), pairs) == Ok::<Seq<u8>, Seq<char>>(
            payload.take(pairs as int),
        ),
    decreases pairs,
{
    let text = hex_text(payload);
    let bytes = encode_utf8(text);
    if pairs > 0 {
        let i = pairs - 1;
        lemma_hex_pairs(payload, i as nat);
        lemma_hex_text(payload);
        is_ascii_chars_encode_utf8(text);
        assert(text[2 * i] == hex_char(payload[i] as int / 16));
        let two = seq![text[2 * i], text[2 * i + 1]];
        assert(is_ascii_chars(two));
        is_ascii_chars_encode_utf8(two);
        assert(two[0] as u8 == encode_utf8(two)[0]);
        assert(two[1] as u8 == encode_utf8(two)[1]);
        assert(bytes[2 * i] == text[2 * i] as u8);
        assert(bytes[2 * i + 1] == text[2 * i + 1] as u8);
        assert(seq![bytes[2 * i], bytes[2 * i + 1]] =~= encode_utf8(two));
        encode_utf8_valid_utf8(two);
        encode_utf8_decode_utf8(two);
        assert(radix16(two) == Some(payload[i] as int));
        assert(payload.take(pairs as int) =~= payload.take(i).push(payload[i]));
    } else {
        assert(payload.take(0) =~= Seq::<u8>::empty());
    }
}

/// The text of an integer of sixty-four bits reads back as the integer.
proof fn lemma_parse_integer(n: int)
    requires
        i64::MIN <= n <= i64::MAX,
    ensures
        parsed_integer(int_text(n)) == Some(n),
{
    let s = int_text(n);
    if n < 0 {
        lemma_digits((-n) as nat);
        assert(s.drop_first() =~= digits((-n) as nat));
    } else {
        lemma_digits(n as nat);
        assert(is_digit(s[0]));
    }
}

// ─── What the stream server replies ───

/// Whether the server refuses a consumer group because it is there already.
pub fn is_busy_group_error(error: &str) -> (r: bool)
    ensures
        r == occurs(error@, "BUSYGROUP"@),
{
    contains_text(error, "BUSYGROUP")
}

/// Whether the server knows no such consumer group.
pub fn is_no_group_error(error: &str) -> (r: bool)
    ensures
        r == occurs(error@, "NOGROUP"@),
{
    contains_text(error, "NOGROUP")
}

/// Whether the server knows no such stream.
pub fn is_no_such_key_error(error: &str) -> (r: bool)
    ensures
        r == occurs(error@, "no such key"@),
{
    contains_text(error, "no such key")
}

/// The error of an acknowledgement that the server refused.
pub open spec fn ack_fault(
    topic: Seq<char>,
    group: Seq<char>,
    message_id: Seq<char>,
    error: Seq<char>,
) -> BusFault {
    if occurs(error, "NOGROUP"@) {
        BusFault::GroupNotFound { topic, group }
    } else {
        BusFault::AckFailed { topic, group, message_id, reason: error }
    }
}

/// The error of an acknowledgement that the server refused.
pub fn map_group_or_ack_error(topic: &str, group: &str, message_id: &MessageId, error: String) -> (r:
    BusError)
    ensures
        r@ == ack_fault(topic@, group@, message_id@, error@),
{
    if is_no_group_error(error.as_str()) {
        BusError::GroupNotFound { topic: topic.to_owned(), group: group.to_owned() }
    } else {
        BusError::AckFailed {
            topic: topic.to_owned(),
            group: group.to_owned(),
            message_id: message_id.clone(),
            reason: error,
        }
    }
}

/// The error of a listing of pending messages that the server refused.
pub open spec fn pending_fault(topic: Seq<char>, group: Seq<char>, error: Seq<char>) -> BusFault {
    if occurs(error, "NOGROUP"@) {
        BusFault::GroupNotFound { topic, group }
    } else {
        BusFault::PendingFailed { topic, group, reason: error }
    }
}

/// The error of a listing of pending messages that the server refused.
pub fn map_group_or_pending_error(topic: &str, group: &str, error: String) -> (r: BusError)
    ensures
        r@ == pending_fault(topic@, group@, error@),
{
    if is_no_group_error(error.as_str()) {
        BusError::GroupNotFound { topic: topic.to_owned(), group: group.to_owned() }
    } else {
        BusError::PendingFailed {
            topic: topic.to_owned(),
            group: group.to_owned(),
            reason: error,
        }
    }
}

/// The error of a question about a topic that the server refused.
pub open spec fn topic_info_fault(topic: Seq<char>, error: Seq<char>) -> BusFault {
    if occurs(error, "no such key"@) {
        BusFault::TopicNotFound(topic)
    } else {
        BusFault::TopicInfoFailed { topic, reason: error }
    }
}

/// The error of a question about a topic that the server refused.
pub fn map_topic_info_error(topic: &str, error: String) -> (r: BusError)
    ensures
        r@ == topic_info_fault(topic@, error@),
{
    if is_no_such_key_error(error.as_str()) {
        BusError::TopicNotFound(topic.to_owned())
    } else {
        BusError::TopicInfoFailed { topic: topic.to_owned(), reason: error }
    }
}

/// What follows from the server's reply to the creation of a consumer group that a consumer
/// subscribes with. A group that is there already will do.
pub open spec fn group_outcome(
    topic: Seq<char>,
    group: Seq<char>,
    consumer: Seq<char>,
    error: Option<Seq<char>>,
) -> Result<(), BusFault> {
    match error {
        None => Ok(()),
        Some(why) => if occurs(why, "BUSYGROUP"@) {
            Ok(())
        } else if occurs(why, "no such key"@) {
            Err(BusFault::TopicNotFound(topic))
        } else {
            Err(BusFault::SubscribeFailed { topic, group, consumer, reason: why })
        },
    }
}

/// What follows from the server's reply to the creation of a consumer group.
pub fn ensure_group(topic: &str, group: &str, consumer: &str, reply: Result<(), String>) -> (r:
    Result<(), BusError>)
    ensures
        match (
            r,
            group_outcome(
                topic@,
                group@,
                consumer@,
                match reply {
                    Ok(_) => None,
                    Err(e) => Some(e@),
                },
            ),
        ) {
            (Ok(_), Ok(_)) => true,
            (Err(e), Err(f)) => e@ == f,
            _ => false,
        },
{
    match reply {
        Ok(_) => Ok(()),
        Err(error) => if is_busy_group_error(error.as_str()) {
            Ok(())
        } else if is_no_such_key_error(error.as_str()) {
            Err(BusError::TopicNotFound(topic.to_owned()))
        } else {
            Err(
                BusError::SubscribeFailed {
                    topic: topic.to_owned(),
                    group: group.to_owned(),
                    consumer: consumer.to_owned(),
                    reason: error,
                },
            )
        },
    }
}

/// What follows from the server's reply to a publication.
pub fn publish_outcome(topic: &str, reply: Result<String, String>) -> (r: Result<
    MessageId,
    BusError,
>)
    ensures
        match (r, reply) {
            (Ok(id), Ok(given)) => id@ == given@,
            (Err(e), Err(why)) => e@ == (BusFault::PublishFailed { topic: topic@, reason: why@ }),
            _ => false,
        },
{
    match reply {
        Ok(id) => Ok(MessageId(id)),
        Err(reason) => Err(BusError::PublishFailed { topic: topic.to_owned(), reason }),
    }
}

/// What follows from the server's reply to an acknowledgement: it must have found the
/// message pending.
pub fn ack_outcome(topic: &str, group: &str, msg_id: &MessageId, reply: Result<u64, String>) -> (r:
    Result<(), BusError>)
    ensures
        match reply {
            Ok(acked) => if acked == 0 {
                r matches Err(e) && e@ == (BusFault::AckFailed {
                    topic: topic@,
                    group: group@,
                    message_id: msg_id@,
                    reason: "message was not pending in the consumer group"@,
                })
            } else {
                r is Ok
            },
            Err(why) => r matches Err(e) && e@ == ack_fault(topic@, group@, msg_id@, why@),
        },
{
    let acked: u64 = match reply {
        Ok(n) => n,
        Err(error) => {
            return Err(map_group_or_ack_error(topic, group, msg_id, error));
        },
    };
    if acked == 0 {
        return Err(
            BusError::AckFailed {
                topic: topic.to_owned(),
                group: group.to_owned(),
                message_id: msg_id.clone(),
                reason: "message was not pending in the consumer group".to_owned(),
            },
        );
    }
    Ok(())
}

/// The whole milliseconds of an idle time, if the server can be asked for them.
pub fn duration_millis(min_idle: Duration, topic: &str, group: &str) -> (r: Result<u64, BusError>)
    ensures
        match r {
            Ok(millis) => millis == min_idle@ / 1_000_000,
            Err(e) => min_idle@ / 1_000_000 > u64::MAX && e@ == (BusFault::PendingFailed {
                topic: topic@,
                group: group@,
                reason: "idle duration exceeds Redis millisecond range"@,
            }),
        },
{
    let millis: u128 = min_idle.as_millis();
    if millis <= u64::MAX as u128 {
        Ok(millis as u64)
    } else {
        Err(
            BusError::PendingFailed {
                topic: topic.to_owned(),
                group: group.to_owned(),
                reason: "idle duration exceeds Redis millisecond range".to_owned(),
            },
        )
    }
}

/// The texts of message identifiers.
pub fn ids_to_strings(ids: &[MessageId]) -> (r: Vec<String>)
    ensures
        r@.len() == ids@.len(),
        forall|i: int| 0 <= i < ids@.len() ==> (#[trigger] r@[i])@ == ids@[i]@,
{
    let mut texts: Vec<String> = Vec::new();
    let mut i: usize = 0;
    while i < ids.len()
        invariant
            i <= ids@.len(),
            texts@.len() == i,
            forall|j: int| 0 <= j < i ==> (#[trigger] texts@[j])@ == ids@[j]@,
        decreases ids@.len() - i,
    {
        texts.push(ids[i].0.clone());
        i = i + 1;
    }
    texts
}

/// What a consumer asks for to take over messages.
pub struct ClaimRequest {
    pub min_idle_ms: u64,
    pub ids: Vec<String>,
}

/// What to ask the server for to take over messages; nothing where there are none.
pub fn begin_claim(topic: &str, group: &str, min_idle: Duration, msg_ids: &[MessageId]) -> (r:
    Result<Option<ClaimRequest>, BusError>)
    ensures
        match r {
            Ok(None) => msg_ids@.len() == 0,
            Ok(Some(c)) => {
                &&& msg_ids@.len() > 0
                &&& c.min_idle_ms == min_idle@ / 1_000_000
                &&& c.ids@.len() == msg_ids@.len()
                &&& forall|i: int|
                    0 <= i < msg_ids@.len() ==> (#[trigger] c.ids@[i])@ == msg_ids@[i]@
            },
            Err(e) => {
                &&& msg_ids@.len() > 0
                &&& min_idle@ / 1_000_000 > u64::MAX
                &&& e@ == (BusFault::PendingFailed {
                    topic: topic@,
                    group: group@,
                    reason: "idle duration exceeds Redis millisecond range"@,
                })
            },
        },
{
    if msg_ids.len() == 0 {
        return Ok(None);
    }
    match duration_millis(min_idle, topic, group) {
        Ok(min_idle_ms) => Ok(Some(ClaimRequest { min_idle_ms, ids: ids_to_strings(msg_ids) })),
        Err(e) => Err(e),
    }
}

/// An entry of a stream.
pub struct StreamEntry {
    pub id: String,
    pub fields: Table<String>,
}

/// What an entry of a topic's stream holds.
pub open spec fn content_of(topic: Seq<char>, entry: StreamEntry) -> Result<Content, BusFault> {
    entry_content(topic, entry.id@, entry.fields@)
}

/// Whether the messages are those of the entries, in order.
pub open spec fn all_messages(
    messages: Seq<BusMessage>,
    topic: Seq<char>,
    entries: Seq<StreamEntry>,
) -> bool {
    &&& messages.len() == entries.len()
    &&& forall|i: int|
        0 <= i < entries.len() ==> {
            &&& content_of(topic, #[trigger] entries[i]) is Ok
            &&& is_message(messages[i], topic, entries[i].id@, content_of(topic, entries[i])->Ok_0)
        }
}

/// Whether the first entry that is no message is the one at `at`, for the given reason.
pub open spec fn first_fault_at(
    topic: Seq<char>,
    entries: Seq<StreamEntry>,
    fault: BusFault,
    at: int,
) -> bool {
    &&& 0 <= at < entries.len()
    &&& content_of(topic, entries[at]) == Err::<Content, BusFault>(fault)
    &&& forall|j: int| 0 <= j < at ==> content_of(topic, #[trigger] entries[j]) is Ok
}

/// The messages that a consumer has taken over: those of all entries, or the error of the
/// first entry that is none.
pub fn claim_outcome(
    topic: &str,
    group: &str,
    consumer: &str,
    reply: Result<Vec<StreamEntry>, String>,
) -> (r: Result<Vec<BusMessage>, BusError>)
    ensures
        match reply {
            Err(why) => r matches Err(e) && e@ == (BusFault::ClaimFailed {
                topic: topic@,
                group: group@,
                consumer: consumer@,
                reason: why@,
            }),
            Ok(entries) => match r {
                Ok(messages) => all_messages(messages@, topic@, entries@),
                Err(e) => exists|i: int| first_fault_at(topic@, entries@, e@, i),
            },
        },
{
    let entries = match reply {
        Ok(entries) => entries,
        Err(reason) => {
            return Err(
                BusError::ClaimFailed {
                    topic: topic.to_owned(),
                    group: group.to_owned(),
                    consumer: consumer.to_owned(),
                    reason,
                },
            );
        },
    };
    let mut messages: Vec<BusMessage> = Vec::new();
    let mut i: usize = 0;
    while i < entries.len()
        invariant
            i <= entries@.len(),
            all_messages(messages@, topic@, entries@.take(i as int)),
            reply == Ok::<Vec<StreamEntry>, String>(entries),
        decreases entries@.len() - i,
    {
        let entry = &entries[i];
        assert(entries@.take(i + 1)[i as int] == *entry);
        match stream_entry_to_message(topic, entry.id.clone(), &entry.fields) {
            Ok(message) => {
                let ghost before = messages@;
                messages.push(message);
                proof {
                    let taken = entries@.take(i + 1);
                    assert forall|j: int| 0 <= j < taken.len() implies {
                        &&& content_of(topic@, #[trigger] taken[j]) is Ok
                        &&& is_message(
                            messages@[j],
                            topic@,
                            taken[j].id@,
                            content_of(topic@, taken[j])->Ok_0,
                        )
                    } by {
                        if j < i {
                            assert(taken[j] == entries@.take(i as int)[j]);
                            assert(messages@[j] == before[j]);
                        }
                    }
                }
            },
            Err(e) => {
                proof {
                    assert forall|j: int| 0 <= j < i implies content_of(
                        topic@,
                        #[trigger] entries@[j],
                    ) is Ok by {
                        assert(entries@.take(i as int)[j] == entries@[j]);
                    }
                    assert(first_fault_at(topic@, reply->Ok_0@, e@, i as int));
                }
                return Err(e);
            },
        }
        i = i + 1;
    }
    assert(entries@.take(i as int) =~= entries@);
    Ok(messages)
}

/// The message that a look-up of an identifier gave.
pub fn lookup_outcome(topic: &str, reply: Result<Vec<StreamEntry>, String>) -> (r: Result<
    Option<BusMessage>,
    BusError,
>)
    ensures
        match reply {
            Err(why) => r matches Err(e) && e@ == (BusFault::PendingFailed {
                topic: topic@,
                group: "<lookup>"@,
                reason: why@,
            }),
            Ok(entries) => if entries@.len() == 0 {
                r == Ok::<Option<BusMessage>, BusError>(None)
            } else {
                match content_of(topic@, entries@[0]) {
                    Ok(c) => r matches Ok(Some(m)) && is_message(m, topic@, entries@[0].id@, c),
                    Err(f) => r matches Err(e) && e@ == f,
                }
            },
        },
{
    let entries = match reply {
        Ok(entries) => entries,
        Err(reason) => {
            return Err(
                BusError::PendingFailed {
                    topic: topic.to_owned(),
                    group: "<lookup>".to_owned(),
                    reason,
                },
            );
        },
    };
    if entries.len() == 0 {
        return Ok(None);
    }
    match stream_entry_to_message(topic, entries[0].id.clone(), &entries[0].fields) {
        Ok(message) => Ok(Some(message)),
        Err(e) => Err(e),
    }
}

/// The messages among entries, by their positions in order.
pub open spec fn message_positions(topic: Seq<char>, entries: Seq<StreamEntry>) -> Seq<int>
    decreases entries.len(),
{
    if entries.len() == 0 {
        seq![]
    } else {
        let before = message_positions(topic, entries.drop_last());
        if content_of(topic, entries.last()) is Ok {
            before.push(entries.len() - 1)
        } else {
            before
        }
    }
}

/// The entries that are no messages, by their positions in order.
pub open spec fn fault_positions(topic: Seq<char>, entries: Seq<StreamEntry>) -> Seq<int>
    decreases entries.len(),
{
    if entries.len() == 0 {
        seq![]
    } else {
        let before = fault_positions(topic, entries.drop_last());
        if content_of(topic, entries.last()) is Err {
            before.push(entries.len() - 1)
        } else {
            before
        }
    }
}

/// Every entry of a read is handed on as a message or rejected, never both and never lost.
pub proof fn law_every_entry_is_accounted_for(topic: Seq<char>, entries: Seq<StreamEntry>)
    ensures
        message_positions(topic, entries).len() + fault_positions(topic, entries).len()
            == entries.len(),
        forall|i: int|
            0 <= i < entries.len() ==> (#[trigger] message_positions(topic, entries).contains(i)
                <==> !fault_positions(topic, entries).contains(i)),
    decreases entries.len(),
{
    if entries.len() > 0 {
        let rest = entries.drop_last();
        let last = entries.len() - 1;
        law_every_entry_is_accounted_for(topic, rest);
        lemma_positions_are_before_the_end(topic, rest);
        let good = message_positions(topic, entries);
        let bad = fault_positions(topic, entries);
        let good_rest = message_positions(topic, rest);
        let bad_rest = fault_positions(topic, rest);
        assert forall|i: int| 0 <= i < entries.len() implies (#[trigger] good.contains(i)
            <==> !bad.contains(i)) by {
            if i < last {
                if good_rest.contains(i) {
                    let k = choose|k: int| 0 <= k < good_rest.len() && good_rest[k] == i;
                    assert(good[k] == i);
                }
                if bad_rest.contains(i) {
                    let k = choose|k: int| 0 <= k < bad_rest.len() && bad_rest[k] == i;
                    assert(bad[k] == i);
                }
                if good.contains(i) {
                    let k = choose|k: int| 0 <= k < good.len() && good[k] == i;
                    assert(good_rest[k] == i);
                }
                if bad.contains(i) {
                    let k = choose|k: int| 0 <= k < bad.len() && bad[k] == i;
                    assert(bad_rest[k] == i);
                }
            } else if content_of(topic, entries.last()) is Ok {
                assert(good[good.len() - 1] == i);
            } else {
                assert(bad[bad.len() - 1] == i);
            }
        }
    }
}

/// The positions of messages and of other entries lie among the entries.
proof fn lemma_positions_are_before_the_end(topic: Seq<char>, entries: Seq<StreamEntry>)
    ensures
        forall|i: int| #[trigger]
            message_positions(topic, entries).contains(i) ==> i < entries.len(),
        forall|i: int| #[trigger] fault_positions(topic, entries).contains(i) ==> i < entries.len(),
    decreases entries.len(),
{
    if entries.len() > 0 {
        let rest = entries.drop_last();
        lemma_positions_are_before_the_end(topic, rest);
        let good = message_positions(topic, entries);
        let bad = fault_positions(topic, entries);
        assert forall|i: int| #[trigger] good.contains(i) implies i < entries.len() by {
            let k = choose|k: int| 0 <= k < good.len() && good[k] == i;
            if k < message_positions(topic, rest).len() {
                assert(message_positions(topic, rest)[k] == i);
                assert(message_positions(topic, rest).contains(i));
            }
        }
        assert forall|i: int| #[trigger] bad.contains(i) implies i < entries.len() by {
            let k = choose|k: int| 0 <= k < bad.len() && bad[k] == i;
            if k < fault_positions(topic, rest).len() {
                assert(fault_positions(topic, rest)[k] == i);
                assert(fault_positions(topic, rest).contains(i));
            }
        }
    }
}

/// What a subscription does after a read.
pub enum ReadStep {
    /// Hand on the messages, in order, and read on. What else was read are no messages.
    Deliver { messages: Vec<BusMessage>, rejected: Vec<BusError> },
    /// End: the consumer group is gone.
    Stop(String),
    /// Read again after a delay.
    Retry { after: Duration, error: String },
}

/// Whether messages and errors are those of the entries.
pub open spec fn sorted_out(
    messages: Seq<BusMessage>,
    rejected: Seq<BusError>,
    topic: Seq<char>,
    entries: Seq<StreamEntry>,
) -> bool {
    let good = message_positions(topic, entries);
    let bad = fault_positions(topic, entries);
    &&& messages.len() == good.len()
    &&& rejected.len() == bad.len()
    &&& forall|k: int|
        0 <= k < good.len() ==> {
            &&& 0 <= #[trigger] good[k] < entries.len()
            &&& content_of(topic, entries[good[k]]) is Ok
            &&& is_message(
                messages[k],
                topic,
                entries[good[k]].id@,
                content_of(topic, entries[good[k]])->Ok_0,
            )
        }
    &&& forall|k: int|
        0 <= k < bad.len() ==> {
            &&& 0 <= #[trigger] bad[k] < entries.len()
            &&& content_of(topic, entries[bad[k]]) == Err::<Content, BusFault>(rejected[k]@)
        }
}

/// Whether a step is the one that follows a read of a topic's stream. A read may give no
/// entries of the topic.
pub open spec fn is_read_step(
    step: ReadStep,
    topic: Seq<char>,
    reply: Result<Option<Vec<StreamEntry>>, String>,
) -> bool {
    match reply {
        Ok(None) => step matches ReadStep::Deliver { messages, rejected } && messages@.len() == 0
            && rejected@.len() == 0,
        Ok(Some(entries)) => step matches ReadStep::Deliver { messages, rejected } && sorted_out(
            messages@,
            rejected@,
            topic,
            entries@,
        ),
        Err(why) => if occurs(why@, "NOGROUP"@) {
            step matches ReadStep::Stop(error) && error@ == why@
        } else {
            step matches ReadStep::Retry { after, error } && after@ == SUBSCRIBE_RETRY_DELAY_MS
                * NANOS_PER_MILLI && error@ == why@
        },
    }
}

/// What a subscription does after a read.
pub fn on_read(topic: &str, reply: Result<Option<Vec<StreamEntry>>, String>) -> (r: ReadStep)
    ensures
        is_read_step(r, topic@, reply),
{
    let entries = match reply {
        Ok(Some(entries)) => entries,
        Ok(None) => {
            return ReadStep::Deliver { messages: Vec::new(), rejected: Vec::new() };
        },
        Err(error) => {
            if is_no_group_error(error.as_str()) {
                return ReadStep::Stop(error);
            }
            return ReadStep::Retry {
                after: Duration::from_millis(SUBSCRIBE_RETRY_DELAY_MS),
                error,
            };
        },
    };
    let mut messages: Vec<BusMessage> = Vec::new();
    let mut rejected: Vec<BusError> = Vec::new();
    let mut i: usize = 0;
    while i < entries.len()
        invariant
            i <= entries@.len(),
            sorted_out(messages@, rejected@, topic@, entries@.take(i as int)),
        decreases entries@.len() - i,
    {
        let entry = &entries[i];
        let ghost done = entries@.take(i as int);
        let ghost taken = entries@.take(i + 1);
        assert(taken.drop_last() =~= done);
        assert(taken.last() == *entry);
        assert forall|k: int| 0 <= k < done.len() implies taken[k] == #[trigger] done[k] by {}
        match stream_entry_to_message(topic, entry.id.clone(), &entry.fields) {
            Ok(message) => {
                messages.push(message);
            },
            Err(e) => {
                rejected.push(e);
            },
        }
        i = i + 1;
    }
    assert(entries@.take(i as int) =~= entries@);
    ReadStep::Deliver { messages, rejected }
}

/// Lists the pending messages of a group page by page.
pub struct PendingPager {
    /// Where the next page starts.
    pub start: String,
    /// The messages so far.
    pub ids: Vec<MessageId>,
}

/// The identifiers of a run of messages.
pub open spec fn id_texts(ids: Seq<MessageId>) -> Seq<Seq<char>> {
    Seq::new(ids.len(), |i: int| ids[i]@)
}

/// The texts of a run of strings.
pub open spec fn string_texts(s: Seq<String>) -> Seq<Seq<char>> {
    Seq::new(s.len(), |i: int| s[i]@)
}

impl PendingPager {
    /// Nothing listed, from the oldest message on.
    pub fn new() -> (r: PendingPager)
        ensures
            r.start@ == "-"@,
            r.ids@.len() == 0,
    {
        PendingPager { start: "-".to_owned(), ids: Vec::new() }
    }

    /// Takes a page in. The next one starts behind its last message. There is a next one
    /// exactly if this one was full.
    pub fn on_page(&mut self, page: Vec<String>) -> (more: bool)
        ensures
            more == (page@.len() >= PENDING_PAGE_SIZE),
            id_texts(final(self).ids@) == id_texts(old(self).ids@) + string_texts(page@),
            final(self).start@ == (if page@.len() == 0 {
                old(self).start@
            } else {
                "("@ + page@.last()@
            }),
    {
        let mut i: usize = 0;
        while i < page.len()
            invariant
                i <= page@.len(),
                id_texts(self.ids@) == id_texts(old(self).ids@) + string_texts(
                    page@.take(i as int),
                ),
                self.start@ == (if i == 0 {
                    old(self).start@
                } else {
                    "("@ + page@[i - 1]@
                }),
            decreases page@.len() - i,
        {
            self.start = joined("(", page[i].as_str());
            let ghost before = self.ids@;
            self.ids.push(MessageId(page[i].clone()));
            proof {
                assert(id_texts(self.ids@) =~= id_texts(before).push(page@[i as int]@));
                assert(string_texts(page@.take(i + 1)) =~= string_texts(page@.take(i as int)).push(
                    page@[i as int]@,
                ));
            }
            i = i + 1;
        }
        assert(page@.take(i as int) =~= page@);
        page.len() >= PENDING_PAGE_SIZE
    }
}

impl Default for PendingPager {
    fn default() -> (r: PendingPager)
        ensures
            r.start@ == "-"@,
            r.ids@.len() == 0,
    {
        PendingPager::new()
    }
}

// ─── Topic metadata ───

/// A value of the server's reply to a question about consumer groups.
pub enum StreamValue {
    Text(String),
    Bytes(Vec<u8>),
    Integer(i64),
    /// A floating-point number, as text.
    Number(String),
    Boolean(bool),
    /// A value that is neither text nor number.
    Other,
}

/// The text of a value.
pub open spec fn value_text(v: StreamValue) -> Option<Seq<char>> {
    match v {
        StreamValue::Text(s) => Some(s@),
        StreamValue::Bytes(b) => if valid_utf8(b@) {
            Some(decode_utf8(b@))
        } else {
            None
        },
        StreamValue::Integer(n) => Some(int_text(n as int)),
        StreamValue::Number(s) => Some(s@),
        StreamValue::Boolean(b) => Some(
            if b {
                "true"@
            } else {
                "false"@
            },
        ),
        StreamValue::Other => None,
    }
}

/// The number that a value denotes, without sign and of sixty-four bits.
pub open spec fn value_number(v: StreamValue) -> Option<nat> {
    match v {
        StreamValue::Integer(n) => if n >= 0 {
            Some(n as nat)
        } else {
            None
        },
        StreamValue::Text(s) => parsed_number(s@, u64::MAX as nat),
        StreamValue::Bytes(b) => if valid_utf8(b@) {
            parsed_number(decode_utf8(b@), u64::MAX as nat)
        } else {
            None
        },
        _ => None,
    }
}

/// The text of a value.
pub fn value_as_string(value: Option<&StreamValue>) -> (r: Option<String>)
    ensures
        match (
            r,
            match value {
                Some(v) => value_text(*v),
                None => None,
            },
        ) {
            (Some(s), Some(t)) => s@ == t,
            (None, None) => true,
            _ => false,
        },
{
    match value? {
        StreamValue::Text(s) => Some(s.clone()),
        StreamValue::Bytes(b) => match utf8_text(b.as_slice()) {
            Ok(s) => Some(s),
            Err(_) => None,
        },
        StreamValue::Integer(n) => Some(signed_text(*n)),
        StreamValue::Number(s) => Some(s.clone()),
        StreamValue::Boolean(b) => if *b {
            Some("true".to_owned())
        } else {
            Some("false".to_owned())
        },
        StreamValue::Other => None,
    }
}

/// The number that a value denotes.
pub fn value_as_u64(value: Option<&StreamValue>) -> (r: Option<u64>)
    ensures
        match (
            r,
            match value {
                Some(v) => value_number(*v),
                None => None,
            },
        ) {
            (Some(n), Some(m)) => n == m,
            (None, None) => true,
            _ => false,
        },
{
    match value? {
        StreamValue::Integer(n) => if *n >= 0 {
            Some(*n as u64)
        } else {
            None
        },
        StreamValue::Text(s) => parse_number(s.as_str(), u64::MAX),
        StreamValue::Bytes(b) => match utf8_text(b.as_slice()) {
            Ok(s) => parse_number(s.as_str(), u64::MAX),
            Err(_) => None,
        },
        _ => None,
    }
}

/// A field of a reply as text.
pub open spec fn text_field(values: Map<Seq<char>, StreamValue>, field: Seq<char>) -> Option<
    Seq<char>,
> {
    if values.contains_key(field) {
        value_text(values[field])
    } else {
        None
    }
}

/// A field of a reply as a number.
pub open spec fn number_field(values: Map<Seq<char>, StreamValue>, field: Seq<char>) -> Option<
    nat,
> {
    if values.contains_key(field) {
        value_number(values[field])
    } else {
        None
    }
}

/// Why a reply describes no consumer group; the fields are looked at in the order name,
/// consumers, pending.
pub open spec fn group_fault(values: Map<Seq<char>, StreamValue>) -> Option<Seq<char>> {
    let name = text_field(values, "name"@);
    let consumers = number_field(values, "consumers"@);
    if name is None {
        Some("xinfo_groups missing name field"@)
    } else if consumers is None {
        Some("xinfo_groups missing consumers field for group "@ + name->Some_0)
    } else if number_field(values, "pending"@) is None {
        Some("xinfo_groups missing pending field"@)
    } else if consumers->Some_0 > u32::MAX {
        Some(
            "consumer count exceeds u32 range: "@ + count_error_text(consumers->Some_0 as int),
        )
    } else {
        None
    }
}

/// Whether a consumer group is the one that a reply describes.
pub open spec fn is_group(g: ConsumerGroupInfo, values: Map<Seq<char>, StreamValue>) -> bool {
    &&& text_field(values, "name"@) == Some(g.name@)
    &&& number_field(values, "consumers"@) == Some(g.consumers as nat)
    &&& number_field(values, "pending"@) == Some(g.pending as nat)
    &&& match g.last_delivered {
        Some(id) => text_field(values, "last-delivered-id"@) == Some(id@),
        None => text_field(values, "last-delivered-id"@) is None,
    }
}

/// The error of a reply that describes no consumer group.
fn topic_info_error(topic: &str, reason: String) -> (r: BusError)
    ensures
        r@ == (BusFault::TopicInfoFailed { topic: topic@, reason: reason@ }),
{
    BusError::TopicInfoFailed { topic: topic.to_owned(), reason }
}

/// The consumer group that a reply describes.
pub fn consumer_group_from_value_map(topic: &str, values: &Table<StreamValue>) -> (r: Result<
    ConsumerGroupInfo,
    BusError,
>)
    ensures
        match (r, group_fault(values@)) {
            (Ok(g), None) => is_group(g, values@),
            (Err(e), Some(reason)) => e@ == (BusFault::TopicInfoFailed { topic: topic@, reason }),
            _ => false,
        },
{
    let name = match value_as_string(values.get("name")) {
        Some(name) => name,
        None => {
            return Err(topic_info_error(topic, "xinfo_groups missing name field".to_owned()));
        },
    };
    let consumers: u64 = match value_as_u64(values.get("consumers")) {
        Some(n) => n,
        None => {
            return Err(
                topic_info_error(
                    topic,
                    joined("xinfo_groups missing consumers field for group ", name.as_str()),
                ),
            );
        },
    };
    let pending: u64 = match value_as_u64(values.get("pending")) {
        Some(n) => n,
        None => {
            return Err(topic_info_error(topic, "xinfo_groups missing pending field".to_owned()));
        },
    };
    let last_delivered = match value_as_string(values.get("last-delivered-id")) {
        Some(id) => Some(MessageId(id)),
        None => None,
    };
    match small_count(consumers) {
        Ok(consumers) => Ok(ConsumerGroupInfo { name, consumers, pending, last_delivered }),
        Err(why) => Err(
            topic_info_error(topic, joined("consumer count exceeds u32 range: ", why.as_str())),
        ),
    }
}

/// Whether the first reply that describes no consumer group is the one at `at`.
pub open spec fn first_group_fault_at(
    groups: Seq<Table<StreamValue>>,
    reason: Seq<char>,
    at: int,
) -> bool {
    &&& 0 <= at < groups.len()
    &&& group_fault(groups[at]@) == Some(reason)
    &&& forall|j: int| 0 <= j < at ==> group_fault((#[trigger] groups[j])@) is None
}

/// Whether the consumer groups are those that the replies describe, in order.
pub open spec fn all_groups(infos: Seq<ConsumerGroupInfo>, groups: Seq<Table<StreamValue>>) -> bool {
    &&& infos.len() == groups.len()
    &&& forall|i: int|
        0 <= i < groups.len() ==> {
            &&& group_fault((#[trigger] groups[i])@) is None
            &&& is_group(infos[i], groups[i]@)
        }
}

/// The consumer groups of a topic, or the error of the first reply that describes none.
pub fn consumer_groups(topic: &str, reply: Result<Vec<Table<StreamValue>>, String>) -> (r: Result<
    Vec<ConsumerGroupInfo>,
    BusError,
>)
    ensures
        match reply {
            Err(why) => r matches Err(e) && e@ == topic_info_fault(topic@, why@),
            Ok(groups) => match r {
                Ok(infos) => all_groups(infos@, groups@),
                Err(e) => exists|reason: Seq<char>, i: int|
                    {
                        &&& #[trigger] first_group_fault_at(groups@, reason, i)
                        &&& e@ == (BusFault::TopicInfoFailed { topic: topic@, reason })
                    },
            },
        },
{
    let groups = match reply {
        Ok(groups) => groups,
        Err(error) => {
            return Err(map_topic_info_error(topic, error));
        },
    };
    let mut infos: Vec<ConsumerGroupInfo> = Vec::new();
    let mut i: usize = 0;
    while i < groups.len()
        invariant
            i <= groups@.len(),
            all_groups(infos@, groups@.take(i as int)),
            reply == Ok::<Vec<Table<StreamValue>>, String>(groups),
        decreases groups@.len() - i,
    {
        let ghost done = groups@.take(i as int);
        let ghost taken = groups@.take(i + 1);
        assert forall|k: int| 0 <= k < done.len() implies taken[k] == #[trigger] done[k] by {}
        match consumer_group_from_value_map(topic, &groups[i]) {
            Ok(info) => {
                let ghost before = infos@;
                infos.push(info);
                proof {
                    assert forall|k: int| 0 <= k < taken.len() implies {
                        &&& group_fault((#[trigger] taken[k])@) is None
                        &&& is_group(infos@[k], taken[k]@)
                    } by {
                        if k < i {
                            assert(taken[k] == done[k]);
                            assert(infos@[k] == before[k]);
                        }
                    }
                }
            },
            Err(e) => {
                proof {
                    let reason = group_fault(groups@[i as int]@)->Some_0;
                    assert forall|k: int| 0 <= k < i implies group_fault(
                        (#[trigger] groups@[k])@,
                    ) is None by {
                        assert(done[k] == groups@[k]);
                    }
                    assert(first_group_fault_at(reply->Ok_0@, reason, i as int));
                }
                return Err(e);
            },
        }
        i = i + 1;
    }
    assert(groups@.take(i as int) =~= groups@);
    Ok(infos)
}

/// When the message at an end of a topic was published, if there is one.
pub fn end_published_at(topic: &str, reply: Result<Vec<StreamEntry>, String>) -> (r: Result<
    Option<Timestamp>,
    BusError,
>)
    ensures
        match reply {
            Err(why) => r matches Err(e) && e@ == topic_info_fault(topic@, why@),
            Ok(entries) => if entries@.len() == 0 {
                r == Ok::<Option<Timestamp>, BusError>(None)
            } else {
                match publication(entries@[0].fields@, topic@, None) {
                    Ok(n) => r matches Ok(Some(t)) && t@ == n,
                    Err(f) => r matches Err(e) && e@ == f,
                }
            },
        },
{
    let entries = match reply {
        Ok(entries) => entries,
        Err(error) => {
            return Err(map_topic_info_error(topic, error));
        },
    };
    if entries.len() == 0 {
        return Ok(None);
    }
    match published_at_from_fields(topic, None, &entries[0].fields) {
        Ok(t) => Ok(Some(t)),
        Err(e) => Err(e),
    }
}

} // verus!
