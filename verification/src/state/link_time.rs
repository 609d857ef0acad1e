//! How a link's creation time is shown.

use vstd::prelude::*;

use super::{Link, Timestamp};

verus! {

/// The text of an optional string.
pub open spec fn opt_text(r: Option<String>) -> Option<Seq<char>> {
    match r {
        Some(s) => Some(s@),
        None => None,
    }
}

/// What chrono writes, with the format `%+` (RFC 3339 with the nanoseconds
/// that are set), for the UTC time `secs` and `nanos` past the epoch; `None`
/// where chrono holds no such time.
pub uninterp spec fn rfc3339_text(secs: i64, nanos: u32) -> Option<Seq<char>>;

/// What `timeago`'s English formatter writes for the span from the first UTC
/// time to the second; `None` where chrono holds no such times.
pub uninterp spec fn timeago_text(from_secs: i64, from_nanos: u32, to_secs: i64, to_nanos: u32) -> Option<Seq<char>>;

/// Calls `chrono::DateTime::<Utc>::from_timestamp` and, on the time it gives,
/// `format("%+")`. The text depends on the two numbers alone.
#[verifier::external_body]
fn format_rfc3339(secs: i64, nanos: u32) -> (r: Option<String>)
    ensures
        opt_text(r) == rfc3339_text(secs, nanos),
{
    match chrono::DateTime::<chrono::Utc>::from_timestamp(secs, nanos) {
        Some(t) => Some(t.format("%+").to_string()),
        None => None,
    }
}

/// Calls `timeago::Formatter::new().convert_chrono` on the two times, each
/// made by `chrono::DateTime::<Utc>::from_timestamp`. The text depends on the
/// four numbers alone.
#[verifier::external_body]
fn format_timeago(from: Timestamp, to: Timestamp) -> (r: Option<String>)
    ensures
        opt_text(r) == timeago_text(from.secs, from.nanos, to.secs, to.nanos),
{
    match (
        chrono::DateTime::<chrono::Utc>::from_timestamp(from.secs, from.nanos),
        chrono::DateTime::<chrono::Utc>::from_timestamp(to.secs, to.nanos),
    ) {
        (Some(f), Some(t)) => Some(timeago::Formatter::new().convert_chrono(f, t)),
        _ => None,
    }
}

#[verifier::external_type_specification]
#[verifier::external_body]
pub struct ExSystemTime(std::time::SystemTime);

#[verifier::external_type_specification]
#[verifier::external_body]
pub struct ExSystemTimeError(std::time::SystemTimeError);

/// Calls `std::time::SystemTime::now()`. The clock decides what it returns.
#[verifier::external_body]
fn system_now() -> (t: std::time::SystemTime) {
    std::time::SystemTime::now()
}

/// Calls `SystemTime::duration_since(UNIX_EPOCH)`, which fails when the
/// time is before the Unix epoch.
#[verifier::external_body]
fn since_epoch(t: std::time::SystemTime) -> (r: Result<std::time::Duration, std::time::SystemTimeError>) {
    t.duration_since(std::time::UNIX_EPOCH)
}

/// Calls `Duration::as_secs`: the whole seconds of the span.
#[verifier::external_body]
fn whole_secs(d: &std::time::Duration) -> (secs: u64) {
    d.as_secs()
}

/// Calls `Duration::subsec_nanos`, which is documented to be less than one
/// billion.
#[verifier::external_body]
fn subsec_nanos(d: &std::time::Duration) -> (nanos: u32)
    ensures
        nanos < 1_000_000_000,
{
    d.subsec_nanos()
}

/// The current time, read from the system clock; `None` when the clock is
/// before the Unix epoch or too far past it for whole seconds to fit an `i64`.
pub fn now() -> (r: Option<Timestamp>)
    ensures
        r matches Some(t) ==> 0 <= t.secs && t.nanos < 1_000_000_000,
{
    let t = system_now();
    match since_epoch(t) {
        Ok(d) => {
            let secs = whole_secs(&d);
            if secs <= 9_223_372_036_854_775_807u64 {
                Some(Timestamp { secs: secs as i64, nanos: subsec_nanos(&d) })
            } else {
                None
            }
        },
        Err(_) => None,
    }
}

impl Link {
    /// The creation time, written as RFC 3339.
    pub fn created_at_iso8601(&self) -> (r: Option<String>)
        ensures
            opt_text(r) == rfc3339_text(self.created_at.secs, self.created_at.nanos),
    {
        format_rfc3339(self.created_at.secs, self.created_at.nanos)
    }

    /// How long before `now` the link was created, in words.
    pub fn created_at_timeago_at(&self, now: Timestamp) -> (r: Option<String>)
        ensures
            opt_text(r) == timeago_text(self.created_at.secs, self.created_at.nanos, now.secs, now.nanos),
    {
        format_timeago(self.created_at, now)
    }

    /// How long ago the link was created, in words, as of the current time;
    /// `None` when the system clock cannot be read as a time after the epoch.
    pub fn created_at_timeago(&self) -> (r: Option<String>)
        ensures
            r is Some ==> exists|t: Timestamp|
                0 <= t.secs && t.nanos < 1_000_000_000 && opt_text(r) == #[trigger] timeago_text(
                    self.created_at.secs,
                    self.created_at.nanos,
                    t.secs,
                    t.nanos,
                ),
    {
        match now() {
            Some(t) => self.created_at_timeago_at(t),
            None => None,
        }
    }
}

} // verus!
