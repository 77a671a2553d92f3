//! Wall-clock instants as plain numbers.
//!
//! The registry orders its watched sockets by the instant each was added and
//! reports instants as RFC 3339 text.  An instant is held as the time passed
//! since the Unix epoch, so that it can be compared and subtracted in
//! verified code; reading the clock and formatting are the only trusted steps.

use vstd::prelude::*;

verus! {

/// An instant: whole seconds since 1970-01-01T00:00:00Z and the nanoseconds
/// past that second.
#[derive(Clone, Copy, Debug, PartialEq, Eq, Structural)]
pub struct Timestamp {
    pub secs: u64,
    pub nanos: u32,
}

impl Timestamp {
    /// Whether `self` is the same instant as `other` or a later one.
    pub open spec fn at_or_after(self, other: Timestamp) -> bool {
        self.secs > other.secs || (self.secs == other.secs && self.nanos >= other.nanos)
    }

    /// The whole seconds that pass from `self` until `later`; zero where
    /// `later` is in fact the earlier of the two.
    pub open spec fn secs_until(self, later: Timestamp) -> int {
        if !later.at_or_after(self) {
            0
        } else if later.nanos >= self.nanos {
            later.secs - self.secs
        } else {
            later.secs - self.secs - 1
        }
    }

    /// Whether the instant lies in the years 1970 to 9999 and its nanoseconds
    /// stay below one second.  Every such instant has an RFC 3339 text.
    pub open spec fn in_calendar(self) -> bool {
        self.secs <= 253_402_300_799 && self.nanos < 1_000_000_000
    }

    /// The RFC 3339 text of this instant in UTC, where the calendar can
    /// express it.
    pub open spec fn rfc3339(self) -> Option<Seq<char>> {
        if self.secs <= i64::MAX {
            rfc3339_text(self.secs as int, self.nanos as int)
        } else {
            None
        }
    }

    /// Compares two instants.
    pub fn is_at_or_after(&self, other: &Timestamp) -> (yes: bool)
        ensures
            yes == self.at_or_after(*other),
    {
        self.secs > other.secs || (self.secs == other.secs && self.nanos >= other.nanos)
    }

    /// The whole seconds from `self` until `later`, zero if `later` is earlier.
    pub fn whole_secs_until(&self, later: &Timestamp) -> (secs: u64)
        ensures
            secs == self.secs_until(*later),
    {
        if !later.is_at_or_after(self) {
            0
        } else if later.nanos >= self.nanos {
            later.secs - self.secs
        } else {
            later.secs - self.secs - 1
        }
    }

    /// Formats the instant as RFC 3339 text in UTC, such as
    /// `2024-12-05T13:28:10+00:00`.  Instants beyond the range of the calendar
    /// have no text.
    pub fn to_rfc3339(&self) -> (text: Option<String>)
        ensures
            text.deep_view() == self.rfc3339(),
            self.in_calendar() ==> text is Some,
    {
        if self.secs <= i64::MAX as u64 {
            rfc3339_from_unix(self.secs as i64, self.nanos)
        } else {
            None
        }
    }
}

/// The text that `chrono` gives for the instant `secs` seconds and `nanos`
/// nanoseconds after the Unix epoch when asked for RFC 3339 in UTC, or `None`
/// where it cannot represent that instant.
pub uninterp spec fn rfc3339_text(secs: int, nanos: int) -> Option<Seq<char>>;

/// Reads the system clock.
///
/// Trusted: `SystemTime::now`, taken as the time since `UNIX_EPOCH`; a clock
/// set before the epoch reads as the epoch.  The contract claims only that the
/// nanoseconds stay below one second, as `Duration::subsec_nanos` documents.
#[verifier::external_body]
pub(crate) fn now() -> (instant: Timestamp)
    ensures
        instant.nanos < 1_000_000_000,
{
    let since = std::time::SystemTime::now().duration_since(
        std::time::UNIX_EPOCH,
    ).unwrap_or_default();
    Timestamp { secs: since.as_secs(), nanos: since.subsec_nanos() }
}

/// Formats an instant through `chrono`.
///
/// Trusted: `chrono::DateTime::from_timestamp` followed by
/// `DateTime::<Utc>::to_rfc3339`.  The contract names the outcome
/// [`rfc3339_text`] and claims of it only that there is a text for every
/// instant from 1970 to the end of the year 9999 with nanoseconds below one
/// second: `from_timestamp` takes every day of the years -262142 to 262142
/// and every second of the day with such nanoseconds.
#[verifier::external_body]
fn rfc3339_from_unix(secs: i64, nanos: u32) -> (text: Option<String>)
    ensures
        text.deep_view() == rfc3339_text(secs as int, nanos as int),
        0 <= secs <= 253_402_300_799 && nanos < 1_000_000_000 ==> text is Some,
{
    chrono::DateTime::from_timestamp(secs, nanos).map(|instant| instant.to_rfc3339())
}

/// The text `chrono` gives for the RFC 3339 timestamp `stamp` when asked to
/// format it by the `strftime` pattern `pattern`, or `None` where it cannot
/// read `stamp` as such a timestamp or cannot format by `pattern`.
pub uninterp spec fn display_time_text(stamp: Seq<char>, pattern: Seq<char>) -> Option<Seq<char>>;

/// Reads an RFC 3339 timestamp and formats it by a `strftime` pattern.
///
/// Trusted: `chrono::DateTime::parse_from_rfc3339` followed by
/// `DateTime::format` and `DelayedFormat::write_to`.  The contract names the
/// outcome [`display_time_text`] and claims nothing else about it.
#[verifier::external_body]
pub(crate) fn display_time(stamp: &str, pattern: &str) -> (text: Option<String>)
    ensures
        text.deep_view() == display_time_text(stamp@, pattern@),
{
    let at = chrono::DateTime::parse_from_rfc3339(stamp).ok()?;
    let mut text = String::new();
    at.format(pattern).write_to(&mut text).ok()?;
    Some(text)
}

} // verus!
