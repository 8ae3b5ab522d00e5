//! Instants in UTC.
use chrono::{DateTime, Utc};
use vstd::prelude::*;

verus! {

/// The first second that an instant can hold: the year -262143 begins.
pub const MIN_SECONDS: i64 = -8_334_601_228_800;

/// The last second that an instant can hold: the year 262142 ends.
pub const MAX_SECONDS: i64 = 8_210_266_876_799;

/// The second at which the year 0 begins.
pub const YEAR_0: i64 = -62_167_219_200;

/// The last second of the year 9999.
pub const YEAR_9999_END: i64 = 253_402_300_799;

pub const NANOS_PER_SECOND: u32 = 1_000_000_000;

/// An instant: whole seconds since the Unix epoch, and the nanoseconds into that second.
#[derive(Debug, Clone, Copy, PartialEq, Eq, Hash, Structural)]
pub struct Timestamp {
    pub seconds: i64,
    pub nanos: u32,
}

/// The text that `chrono` writes for an instant after RFC 3339.
pub uninterp spec fn rfc3339_text(seconds: i64, nanos: u32) -> Seq<char>;

/// The instant that `chrono` reads from a text after RFC 3339, or what it says of another text.
pub uninterp spec fn rfc3339_parse(text: Seq<char>) -> Result<(i64, u32), Seq<char>>;

/// `DateTime::from_timestamp_millis` of `chrono`: the second and the nanoseconds into it, unless
/// the instant lies outside the years that `chrono` holds.
#[verifier::external_body]
fn instant_of_millis(millis: i64) -> (r: Option<(i64, u32)>)
    ensures
        r is Some <==> MIN_SECONDS <= millis as int / 1000 <= MAX_SECONDS,
        r matches Some(t) ==> t.0 == millis as int / 1000 && t.1 == (millis as int % 1000) * 1_000_000,
{
    match DateTime::<Utc>::from_timestamp_millis(millis) {
        Some(t) => Some((t.timestamp(), t.timestamp_subsec_nanos())),
        None => None,
    }
}

/// `DateTime::to_rfc3339` of `chrono`.
#[verifier::external_body]
fn instant_text(seconds: i64, nanos: u32) -> (r: String)
    requires
        MIN_SECONDS <= seconds <= MAX_SECONDS,
        nanos < NANOS_PER_SECOND,
    ensures
        r@ == rfc3339_text(seconds, nanos),
{
    DateTime::<Utc>::from_timestamp(seconds, nanos).unwrap().to_rfc3339()
}

/// `DateTime::parse_from_rfc3339` of `chrono`, brought to UTC. An instant within the years 0 to 9999
/// that `to_rfc3339` wrote is read back.
#[verifier::external_body]
fn instant_of_text(text: &str) -> (r: Result<(i64, u32), String>)
    ensures
        match r {
            Ok(t) => rfc3339_parse(text@) == Ok::<(i64, u32), Seq<char>>(t),
            Err(e) => rfc3339_parse(text@) == Err::<(i64, u32), Seq<char>>(e@),
        },
        r matches Ok(t) ==> MIN_SECONDS <= t.0 <= MAX_SECONDS,
        forall|seconds: i64, nanos: u32|
            text@ == #[trigger] rfc3339_text(seconds, nanos) && YEAR_0 <= seconds <= YEAR_9999_END
                && nanos < NANOS_PER_SECOND ==> r is Ok && r->Ok_0 == (seconds, nanos),
{
    match DateTime::parse_from_rfc3339(text) {
        Ok(t) => Ok((t.timestamp(), t.timestamp_subsec_nanos())),
        Err(e) => Err(e.to_string()),
    }
}

impl Timestamp {
    /// Nanoseconds since the Unix epoch.
    pub open spec fn total(self) -> int {
        self.seconds * 1_000_000_000 + self.nanos
    }

    pub open spec fn is_valid(self) -> bool {
        &&& MIN_SECONDS <= self.seconds <= MAX_SECONDS
        &&& self.nanos < NANOS_PER_SECOND
    }

    /// Milliseconds since the Unix epoch, rounded down.
    pub open spec fn spec_millis(self) -> int {
        self.seconds * 1000 + self.nanos as int / 1_000_000
    }

    /// The instant of a number of milliseconds since the Unix epoch.
    pub fn from_millis(millis: i64) -> (r: Option<Timestamp>)
        ensures
            r is Some <==> MIN_SECONDS <= millis as int / 1000 <= MAX_SECONDS,
            r matches Some(t) ==> t.is_valid() && t.spec_millis() == millis && t.total() == millis
                * 1_000_000,
    {
        match instant_of_millis(millis) {
            Some(t) => Some(Timestamp { seconds: t.0, nanos: t.1 }),
            None => None,
        }
    }

    /// Milliseconds since the Unix epoch, rounded down.
    pub fn millis(&self) -> (r: i64)
        requires
            self.is_valid(),
        ensures
            r == self.spec_millis(),
    {
        self.seconds * 1000 + (self.nanos / 1_000_000) as i64
    }

    /// Nanoseconds since the Unix epoch.
    pub fn nanoseconds(&self) -> (r: i128)
        requires
            self.is_valid(),
        ensures
            r == self.total(),
    {
        self.seconds as i128 * 1_000_000_000 + self.nanos as i128
    }

    /// The instant of a number of nanoseconds since the Unix epoch.
    pub fn from_nanoseconds(total: i128) -> (r: Timestamp)
        requires
            MIN_SECONDS * 1_000_000_000 <= total < (MAX_SECONDS + 1) * 1_000_000_000,
        ensures
            r.is_valid(),
            r.total() == total,
    {
        let second: i128 = 1_000_000_000;
        let shift: i128 = 8_334_601_228_800 * 1_000_000_000;
        let shifted: i128 = total + shift;
        let seconds: i128 = shifted / second;
        let nanos: i128 = shifted % second;
        Timestamp { seconds: (seconds - 8_334_601_228_800) as i64, nanos: nanos as u32 }
    }

    /// Whether the instant is earlier than the other.
    pub fn before(&self, other: &Timestamp) -> (r: bool)
        requires
            self.is_valid(),
            other.is_valid(),
        ensures
            r == (self.total() < other.total()),
    {
        self.seconds < other.seconds || (self.seconds == other.seconds && self.nanos < other.nanos)
    }

    /// The earlier of two instants.
    pub fn earlier(self, other: Timestamp) -> (r: Timestamp)
        requires
            self.is_valid(),
            other.is_valid(),
        ensures
            r == if other.total() < self.total() {
                other
            } else {
                self
            },
    {
        if other.before(&self) {
            other
        } else {
            self
        }
    }

    /// The later of two instants.
    pub fn later(self, other: Timestamp) -> (r: Timestamp)
        requires
            self.is_valid(),
            other.is_valid(),
        ensures
            r == if self.total() < other.total() {
                other
            } else {
                self
            },
    {
        if self.before(&other) {
            other
        } else {
            self
        }
    }

    /// The text of the instant after RFC 3339.
    pub fn rfc3339(&self) -> (r: String)
        requires
            self.is_valid(),
        ensures
            r@ == rfc3339_text(self.seconds, self.nanos),
    {
        instant_text(self.seconds, self.nanos)
    }

    /// The instant of a text after RFC 3339, or the text of the error.
    pub fn parse_rfc3339(text: &str) -> (r: Result<Timestamp, String>)
        ensures
            match r {
                Ok(t) => rfc3339_parse(text@) == Ok::<(i64, u32), Seq<char>>((t.seconds, t.nanos)),
                Err(e) => rfc3339_parse(text@) == Err::<(i64, u32), Seq<char>>(e@),
            },
            forall|seconds: i64, nanos: u32|
                text@ == #[trigger] rfc3339_text(seconds, nanos) && YEAR_0 <= seconds
                    <= YEAR_9999_END && nanos < NANOS_PER_SECOND ==> r is Ok && r->Ok_0 == (
                    Timestamp { seconds, nanos }),
    {
        match instant_of_text(text) {
            Ok(t) => Ok(Timestamp { seconds: t.0, nanos: t.1 }),
            Err(e) => Err(e),
        }
    }
}

}
