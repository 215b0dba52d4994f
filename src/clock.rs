//! Timeout and expiry policy. Instants are nanoseconds since the Unix epoch,
//! in UTC; timeouts are milliseconds, with zero meaning "never expires".
use vstd::prelude::*;
use time::format_description::well_known::Rfc3339;
use time::OffsetDateTime;
use crate::text::opt_text;

verus! {

pub const NANOS_PER_MILLI: i128 = 1_000_000;

/// Grace period after expiry during which a late answer still lands before
/// the sweep removes the session (thirty seconds).
pub const RETENTION_WINDOW_NANOS: i128 = 30_000_000_000;

/// The instant that an RFC 3339 timestamp denotes, if the text is one.
pub uninterp spec fn rfc3339_instant(text: Seq<char>) -> Option<i128>;

/// The RFC 3339 text of a UTC instant, if the instant can be written as one.
pub uninterp spec fn rfc3339_text(nanos: i128) -> Option<Seq<char>>;

/// Relies on `time::OffsetDateTime::parse` with the `Rfc3339` description,
/// read back with `unix_timestamp_nanos`: the instant depends on the text alone.
#[verifier::external_body]
pub(crate) fn parse_rfc3339(text: &str) -> (r: Option<i128>)
    ensures
        r == rfc3339_instant(text@),
{
    match OffsetDateTime::parse(text, &Rfc3339) {
        Ok(t) => Some(t.unix_timestamp_nanos()),
        Err(_) => None,
    }
}

/// Relies on `time::OffsetDateTime::format` with the `Rfc3339` description,
/// applied to `OffsetDateTime::from_unix_timestamp_nanos`: the text depends
/// on the instant alone, and is absent where either call fails.
#[verifier::external_body]
pub(crate) fn write_rfc3339(nanos: i128) -> (r: Option<String>)
    ensures
        opt_text(r) == rfc3339_text(nanos),
{
    match OffsetDateTime::from_unix_timestamp_nanos(nanos) {
        Ok(t) => t.format(&Rfc3339).ok(),
        Err(_) => None,
    }
}

/// The text written for an instant: its RFC 3339 form, or the epoch where
/// the instant cannot be written.
pub open spec fn iso_or_epoch(nanos: i128) -> Seq<char> {
    match rfc3339_text(nanos) {
        Some(t) => t,
        None => "1970-01-01T00:00:00Z"@,
    }
}

/// Length of a nonzero timeout in nanoseconds; milliseconds beyond the range
/// of `i64` count as `i64::MAX`.
pub open spec fn timeout_span(timeout_ms: u64) -> int {
    if timeout_ms > i64::MAX {
        i64::MAX * NANOS_PER_MILLI
    } else {
        timeout_ms * NANOS_PER_MILLI
    }
}

/// When a session expires: never for a zero timeout, otherwise the request
/// instant plus the timeout (never, too, past the last representable instant).
pub open spec fn expiry_instant(requested_at: i128, timeout_ms: u64) -> Option<i128> {
    if timeout_ms == 0 {
        None
    } else if requested_at + timeout_span(timeout_ms) > i128::MAX {
        None
    } else {
        Some((requested_at + timeout_span(timeout_ms)) as i128)
    }
}

/// A session is expired once the current instant reaches its expiry.
pub open spec fn expired_at(requested_at: i128, timeout_ms: u64, now: i128) -> bool {
    match expiry_instant(requested_at, timeout_ms) {
        Some(e) => now >= e,
        None => false,
    }
}

/// A session may be swept once more than the retention window has passed
/// since its expiry.
pub open spec fn past_retention(requested_at: i128, timeout_ms: u64, now: i128) -> bool {
    match expiry_instant(requested_at, timeout_ms) {
        Some(e) => now - e > RETENTION_WINDOW_NANOS,
        None => false,
    }
}

/// The written expiry of a session, if it expires at all.
pub open spec fn expiry_text(requested_at: i128, timeout_ms: u64) -> Option<Seq<char>> {
    match expiry_instant(requested_at, timeout_ms) {
        Some(e) => Some(iso_or_epoch(e)),
        None => None,
    }
}

/// A session past its retention window is expired.
pub proof fn lemma_retention_implies_expired(requested_at: i128, timeout_ms: u64, now: i128)
    requires
        past_retention(requested_at, timeout_ms, now),
    ensures
        expired_at(requested_at, timeout_ms, now),
{
}

/// The timeout as a span in nanoseconds, or `None` for a zero timeout.
pub fn session_timeout_duration(timeout_ms: u64) -> (r: Option<i128>)
    ensures
        r == (if timeout_ms == 0 {
            None
        } else {
            Some(timeout_span(timeout_ms) as i128)
        }),
{
    if timeout_ms == 0 {
        return None;
    }
    let capped: i128 = if timeout_ms > i64::MAX as u64 {
        i64::MAX as i128
    } else {
        timeout_ms as i128
    };
    Some(capped * NANOS_PER_MILLI)
}

/// The instant at which a session requested at `requested_at` expires.
pub fn session_expiry_time(requested_at: i128, timeout_ms: u64) -> (r: Option<i128>)
    ensures
        r == expiry_instant(requested_at, timeout_ms),
{
    match session_timeout_duration(timeout_ms) {
        None => None,
        Some(span) => {
            if requested_at > i128::MAX - span {
                None
            } else {
                Some(requested_at + span)
            }
        },
    }
}

/// Whether the session has expired at `now`.
pub fn is_session_expired(requested_at: i128, timeout_ms: u64, now: i128) -> (r: bool)
    ensures
        r == expired_at(requested_at, timeout_ms, now),
{
    match session_expiry_time(requested_at, timeout_ms) {
        Some(expiry) => now >= expiry,
        None => false,
    }
}

/// Whether more than the retention window has passed since the session
/// expired.
pub fn is_past_retention(requested_at: i128, timeout_ms: u64, now: i128) -> (r: bool)
    ensures
        r == past_retention(requested_at, timeout_ms, now),
{
    match session_expiry_time(requested_at, timeout_ms) {
        Some(expiry) => {
            if now < i128::MIN + RETENTION_WINDOW_NANOS {
                false
            } else {
                expiry < now - RETENTION_WINDOW_NANOS
            }
        },
        None => false,
    }
}

/// The RFC 3339 text of an instant, falling back to the epoch.
pub fn format_iso_utc(nanos: i128) -> (r: String)
    ensures
        r@ == iso_or_epoch(nanos),
{
    match write_rfc3339(nanos) {
        Some(t) => t,
        None => String::from_str("1970-01-01T00:00:00Z"),
    }
}

/// The written expiry of a session, if it expires at all.
pub fn session_expiry_iso(requested_at: i128, timeout_ms: u64) -> (r: Option<String>)
    ensures
        opt_text(r) == expiry_text(requested_at, timeout_ms),
{
    match session_expiry_time(requested_at, timeout_ms) {
        Some(expiry) => Some(format_iso_utc(expiry)),
        None => None,
    }
}

/// The instant a request names, or `now` where its timestamp does not parse.
pub fn parse_requested_at_iso(raw_requested_at: &str, now: i128) -> (r: i128)
    ensures
        r == match rfc3339_instant(raw_requested_at@) {
            Some(t) => t,
            None => now,
        },
{
    match parse_rfc3339(raw_requested_at) {
        Some(t) => t,
        None => now,
    }
}

} // verus!
