//! Points in time.
//!
//! A [`Timestamp`] is a number of nanoseconds since 1970-01-01 00:00:00 UTC, within
//! the range that a UTC calendar date of the `chrono` crate can express. Leap seconds are
//! not told apart.

use vstd::prelude::*;

verus! {

/// Nanoseconds in a millisecond.
pub const NANOS_PER_MILLI: i128 = 1_000_000;

/// Nanoseconds in a second.
pub const NANOS_PER_SECOND: i128 = 1_000_000_000;

/// The earliest millisecond that a UTC calendar date can express.
pub const MIN_UTC_MILLIS: i64 = -8_334_601_228_800_000;

/// The latest millisecond that a UTC calendar date can express.
pub const MAX_UTC_MILLIS: i64 = 8_210_266_876_799_999;

/// Whether a count of nanoseconds is that of a timestamp.
pub open spec fn timestamp_range(nanos: int) -> bool {
    MIN_UTC_MILLIS * NANOS_PER_MILLI <= nanos < (MAX_UTC_MILLIS + 1) * NANOS_PER_MILLI
}

/// The whole seconds of a span of nanoseconds, cut towards zero.
pub open spec fn whole_seconds(nanos: int) -> int {
    if nanos >= 0 {
        nanos / NANOS_PER_SECOND as int
    } else {
        -((-nanos) / NANOS_PER_SECOND as int)
    }
}

/// The `Debug` text of `chrono::DateTime<Utc>` at a count of nanoseconds since 1970.
pub uninterp spec fn utc_debug_text(nanos: int) -> Seq<char>;

/// The `Display` text of `chrono::DateTime<Utc>` at a count of nanoseconds since 1970.
pub uninterp spec fn utc_display_text(nanos: int) -> Seq<char>;

/// What `chrono::DateTime::<Utc>::to_rfc3339` returns at a count of nanoseconds since
/// 1970.
pub uninterp spec fn utc_rfc3339_text(nanos: int) -> Seq<char>;

/// The `Debug` text of `std::time::Duration` at a length in nanoseconds.
pub uninterp spec fn duration_debug_text(nanos: int) -> Seq<char>;

/// A point in time: nanoseconds since 1970-01-01 00:00:00 UTC.
#[derive(Clone, Copy, Debug, PartialEq, Eq, PartialOrd, Ord, Hash)]
pub struct Timestamp {
    nanos: i128,
}

impl View for Timestamp {
    type V = int;

    closed spec fn view(&self) -> int {
        self.nanos as int
    }
}

impl Timestamp {
    #[verifier::type_invariant]
    closed spec fn well_formed(self) -> bool {
        timestamp_range(self.nanos as int)
    }

    /// The point `nanos` nanoseconds after 1970, if it is in range.
    pub fn from_nanos(nanos: i128) -> (r: Option<Timestamp>)
        ensures
            r is Some <==> timestamp_range(nanos as int),
            r matches Some(t) ==> t@ == nanos,
    {
        if nanos >= -8_334_601_228_800_000_000_000 && nanos < 8_210_266_876_800_000_000_000 {
            Some(Timestamp { nanos })
        } else {
            None
        }
    }

    /// The point `millis` milliseconds after 1970.
    pub fn from_millis(millis: i64) -> (r: Timestamp)
        requires
            MIN_UTC_MILLIS <= millis <= MAX_UTC_MILLIS,
        ensures
            r@ == millis * NANOS_PER_MILLI,
    {
        Timestamp { nanos: millis as i128 * NANOS_PER_MILLI }
    }

    /// Nanoseconds since 1970.
    pub fn nanos(self) -> (r: i128)
        ensures
            r == self@,
            timestamp_range(r as int),
    {
        proof {
            use_type_invariant(&self);
        }
        self.nanos
    }

    /// Whole milliseconds since 1970, rounded down.
    pub fn timestamp_millis(self) -> (r: i64)
        ensures
            r == self@ / NANOS_PER_MILLI as int,
            MIN_UTC_MILLIS <= r <= MAX_UTC_MILLIS,
    {
        proof {
            use_type_invariant(&self);
        }
        let n: i128 = self.nanos;
        if n >= 0 {
            (n / NANOS_PER_MILLI) as i64
        } else {
            let up: i128 = (-n + (NANOS_PER_MILLI - 1)) / NANOS_PER_MILLI;
            assert(-(up as int) == n as int / 1_000_000);
            (-up) as i64
        }
    }

    /// Whether this point is before `other`.
    pub fn is_before(self, other: Timestamp) -> (r: bool)
        ensures
            r == (self@ < other@),
    {
        self.nanos < other.nanos
    }

    /// The whole seconds from `earlier` to this point, cut towards zero.
    pub fn seconds_since(self, earlier: Timestamp) -> (r: i64)
        ensures
            r == whole_seconds(self@ - earlier@),
    {
        proof {
            use_type_invariant(&self);
            use_type_invariant(&earlier);
        }
        let d: i128 = self.nanos - earlier.nanos;
        if d >= 0 {
            (d / NANOS_PER_SECOND) as i64
        } else {
            let m: i128 = (-d) / NANOS_PER_SECOND;
            (-m) as i64
        }
    }

    /// The current time of the system clock, read through `chrono::Utc::now`. Which time it
    /// is depends on the machine; it is never before 1970.
    pub fn system_now() -> (r: Timestamp)
        ensures
            r@ >= 0,
            timestamp_range(r@),
    {
        let (secs, nanos) = utc_now();
        Timestamp { nanos: secs as i128 * NANOS_PER_SECOND + nanos as i128 }
    }

    /// The point `millis` milliseconds after 1970, if a UTC calendar date can express it.
    pub fn from_utc_millis(millis: i64) -> (r: Option<Timestamp>)
        ensures
            r is Some <==> MIN_UTC_MILLIS <= millis <= MAX_UTC_MILLIS,
            r matches Some(t) ==> t@ == millis * NANOS_PER_MILLI,
    {
        match utc_millis(millis) {
            Some(accepted) => Some(Timestamp::from_millis(accepted)),
            None => None,
        }
    }

    /// Seconds since 1970, rounded down, and the nanoseconds beyond them.
    fn split(self) -> (r: (i64, u32))
        ensures
            r.0 == self@ / NANOS_PER_SECOND as int,
            r.1 == self@ % NANOS_PER_SECOND as int,
            timestamp_range(self@),
    {
        proof {
            use_type_invariant(&self);
        }
        let n: i128 = self.nanos;
        if n >= 0 {
            ((n / NANOS_PER_SECOND) as i64, (n % NANOS_PER_SECOND) as u32)
        } else {
            let up: i128 = (-n + (NANOS_PER_SECOND - 1)) / NANOS_PER_SECOND;
            assert(-(up as int) == n as int / 1_000_000_000);
            ((-up) as i64, (n + up * NANOS_PER_SECOND) as u32)
        }
    }

    /// The debugging text of the calendar date.
    pub fn debug_text(self) -> (r: String)
        ensures
            r@ == utc_debug_text(self@),
    {
        let (secs, nanos) = self.split();
        utc_debug(secs, nanos)
    }

    /// The display text of the calendar date.
    pub fn display_text(self) -> (r: String)
        ensures
            r@ == utc_display_text(self@),
    {
        let (secs, nanos) = self.split();
        utc_display(secs, nanos)
    }

    /// The RFC 3339 text of the calendar date.
    pub fn rfc3339_text(self) -> (r: String)
        ensures
            r@ == utc_rfc3339_text(self@),
    {
        let (secs, nanos) = self.split();
        utc_rfc3339(secs, nanos)
    }
}

/// A length of time, in seconds and nanoseconds beyond them.
#[derive(Clone, Copy, Debug, PartialEq, Eq, PartialOrd, Ord, Hash)]
pub struct Duration {
    secs: u64,
    nanos: u32,
}

impl View for Duration {
    type V = nat;

    /// The length in nanoseconds.
    closed spec fn view(&self) -> nat {
        (self.secs * NANOS_PER_SECOND + self.nanos) as nat
    }
}

impl Duration {
    #[verifier::type_invariant]
    closed spec fn well_formed(self) -> bool {
        self.nanos < 1_000_000_000
    }

    /// A length of whole seconds.
    pub fn from_secs(secs: u64) -> (r: Duration)
        ensures
            r@ == secs * NANOS_PER_SECOND,
    {
        Duration { secs, nanos: 0 }
    }

    /// A length of whole milliseconds.
    pub fn from_millis(millis: u64) -> (r: Duration)
        ensures
            r@ == millis * NANOS_PER_MILLI,
    {
        Duration { secs: millis / 1000, nanos: ((millis % 1000) * 1_000_000) as u32 }
    }

    /// The whole milliseconds in this length.
    pub fn as_millis(self) -> (r: u128)
        ensures
            r == self@ / 1_000_000,
    {
        proof {
            use_type_invariant(&self);
        }
        self.secs as u128 * 1000 + (self.nanos / 1_000_000) as u128
    }

    /// The debugging text of the length.
    pub fn debug_text(self) -> (r: String)
        ensures
            r@ == duration_debug_text(self@ as int),
    {
        proof {
            use_type_invariant(&self);
        }
        duration_debug(self.secs, self.nanos)
    }
}

/// The `Debug` text of `std::time::Duration`. How it chooses units and places is left to
/// the name.
#[verifier::external_body]
fn duration_debug(secs: u64, nanos: u32) -> (r: String)
    requires
        nanos < 1_000_000_000,
    ensures
        r@ == duration_debug_text(secs * NANOS_PER_SECOND + nanos),
{
    format!("{:?}", std::time::Duration::new(secs, nanos))
}

/// `chrono::Utc::now`: seconds since 1970 and the nanoseconds beyond them. Nothing is
/// said of which time it is. The call panics where the system clock stands before 1970.
#[verifier::external_body]
fn utc_now() -> (r: (i64, u32))
    ensures
        0 <= r.0 <= 8_210_266_876_799,
        r.1 < 1_000_000_000,
{
    let now = chrono::Utc::now();
    (now.timestamp(), now.timestamp_subsec_nanos())
}

/// `chrono::DateTime::<Utc>::from_timestamp_millis`: accepts exactly the milliseconds of
/// the calendar's range, and hands the same milliseconds back.
#[verifier::external_body]
fn utc_millis(millis: i64) -> (r: Option<i64>)
    ensures
        r == (if MIN_UTC_MILLIS <= millis <= MAX_UTC_MILLIS {
            Some(millis)
        } else {
            None
        }),
{
    chrono::DateTime::from_timestamp_millis(millis).map(|t| t.timestamp_millis())
}

/// The `Debug` text of `chrono::DateTime<Utc>`.
#[verifier::external_body]
fn utc_debug(secs: i64, nanos: u32) -> (r: String)
    requires
        nanos < 1_000_000_000,
        timestamp_range(secs * NANOS_PER_SECOND + nanos),
    ensures
        r@ == utc_debug_text(secs * NANOS_PER_SECOND + nanos),
{
    format!("{:?}", chrono::DateTime::from_timestamp(secs, nanos).unwrap())
}

/// The `Display` text of `chrono::DateTime<Utc>`.
#[verifier::external_body]
fn utc_display(secs: i64, nanos: u32) -> (r: String)
    requires
        nanos < 1_000_000_000,
        timestamp_range(secs * NANOS_PER_SECOND + nanos),
    ensures
        r@ == utc_display_text(secs * NANOS_PER_SECOND + nanos),
{
    chrono::DateTime::from_timestamp(secs, nanos).unwrap().to_string()
}

/// `chrono::DateTime::<Utc>::to_rfc3339`.
#[verifier::external_body]
fn utc_rfc3339(secs: i64, nanos: u32) -> (r: String)
    requires
        nanos < 1_000_000_000,
        timestamp_range(secs * NANOS_PER_SECOND + nanos),
    ensures
        r@ == utc_rfc3339_text(secs * NANOS_PER_SECOND + nanos),
{
    chrono::DateTime::from_timestamp(secs, nanos).unwrap().to_rfc3339()
}

} // verus!
