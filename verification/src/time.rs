//! Dates as they are written in feeds and by Mastodon, read as instants: the
//! Unix timestamp (whole seconds, UTC) and the nanoseconds past it.
use vstd::prelude::*;

verus! {

/// An instant: whole seconds since the Unix epoch (UTC) and the nanoseconds
/// past them, as chrono's `DateTime::timestamp` and
/// `DateTime::timestamp_subsec_nanos` give them.
#[derive(Debug, Clone, Copy, PartialEq, Eq, Structural)]
pub struct Instant {
    pub secs: i64,
    pub nanos: u32,
}

/// Whether instant `a` is no later than instant `b`.
pub open spec fn instant_le(a: Instant, b: Instant) -> bool {
    a.secs < b.secs || (a.secs == b.secs && a.nanos <= b.nanos)
}

/// Whether instant `a` is no later than instant `b`.
pub fn instant_before_or_same(a: Instant, b: Instant) -> (r: bool)
    ensures
        r == instant_le(a, b),
{
    a.secs < b.secs || (a.secs == b.secs && a.nanos <= b.nanos)
}

/// The instant of an RFC 2822 date, as `chrono::DateTime::parse_from_rfc2822`
/// reads it; `None` if it does not.
pub uninterp spec fn rfc2822_instant(text: Seq<char>) -> Option<Instant>;

/// The instant of an RFC 3339 date, as `chrono::DateTime::parse_from_rfc3339`
/// reads it; `None` if it does not.
pub uninterp spec fn rfc3339_instant(text: Seq<char>) -> Option<Instant>;

/// `chrono::DateTime::parse_from_rfc2822(text)`, then its timestamp and
/// nanoseconds: the result named `rfc2822_instant`.
#[verifier::external_body]
fn chrono_parse_rfc2822(text: &str) -> (r: Option<Instant>)
    ensures
        r == rfc2822_instant(text@),
{
    chrono::DateTime::parse_from_rfc2822(text).ok().map(|d| Instant { secs: d.timestamp(), nanos: d.timestamp_subsec_nanos() })
}

/// `chrono::DateTime::parse_from_rfc3339(text)`, then its timestamp and
/// nanoseconds: the result named `rfc3339_instant`.
#[verifier::external_body]
fn chrono_parse_rfc3339(text: &str) -> (r: Option<Instant>)
    ensures
        r == rfc3339_instant(text@),
{
    chrono::DateTime::parse_from_rfc3339(text).ok().map(|d| Instant { secs: d.timestamp(), nanos: d.timestamp_subsec_nanos() })
}

/// Reads an RFC 2822 date as an instant.
pub fn parse_rfc2822(text: &str) -> (r: Option<Instant>)
    ensures
        r == rfc2822_instant(text@),
{
    chrono_parse_rfc2822(text)
}

/// Reads an RFC 3339 date as an instant.
pub fn parse_rfc3339(text: &str) -> (r: Option<Instant>)
    ensures
        r == rfc3339_instant(text@),
{
    chrono_parse_rfc3339(text)
}

/// How chrono's `Debug` writes the `DateTime<Utc>` of an instant (such as
/// `2015-02-18T23:16:09Z`); `None` if `DateTime::from_timestamp` refuses the
/// instant.
pub uninterp spec fn utc_debug_text(instant: Instant) -> Option<Seq<char>>;

/// `DateTime::from_timestamp(secs, nanos)` written with `format!("{:?}", ..)`:
/// the text named `utc_debug_text`.
#[verifier::external_body]
pub(crate) fn utc_debug(instant: Instant) -> (r: Option<String>)
    ensures
        match r {
            Some(t) => utc_debug_text(instant) == Some(t@),
            None => utc_debug_text(instant) is None,
        },
{
    chrono::DateTime::from_timestamp(instant.secs, instant.nanos).map(|d| format!("{:?}", d))
}

} // verus!
