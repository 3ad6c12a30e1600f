use vstd::prelude::*;

verus! {

/// An instant in UTC: whole seconds since the Unix epoch and the nanoseconds
/// past that second (above 999,999,999 only within a leap second).
#[derive(Clone, Copy, Debug, PartialEq, Eq, Structural)]
pub struct UtcTime {
    pub secs: i64,
    pub nanos: u32,
}

/// Strict chronological order of instants.
pub open spec fn time_lt(a: UtcTime, b: UtcTime) -> bool {
    a.secs < b.secs || (a.secs == b.secs && a.nanos < b.nanos)
}

/// Whether `a` is strictly earlier than `b`.
pub fn is_before(a: &UtcTime, b: &UtcTime) -> (r: bool)
    ensures
        r == time_lt(*a, *b),
{
    a.secs < b.secs || (a.secs == b.secs && a.nanos < b.nanos)
}

/// The instant that chrono's RFC 3339 parser reads from a string, as
/// (Unix seconds, nanoseconds).
pub uninterp spec fn rfc3339_of(s: Seq<char>) -> Option<(i64, u32)>;

/// The instant that chrono's `FromStr` for `DateTime<Utc>` reads from a string.
pub uninterp spec fn utc_str_of(s: Seq<char>) -> Option<(i64, u32)>;

/// The text chrono's `format` gives for an instant in UTC and a format
/// string, none where chrono cannot represent the instant.
pub uninterp spec fn utc_format_of(secs: i64, nanos: u32, fmt: Seq<char>) -> Option<Seq<char>>;

/// The calendar-date format under which hits are counted per day.
pub const DATE_FORMAT: &'static str = "%Y-%m-%d";

/// The `YYYY-MM-DD` UTC date of an instant, none where chrono cannot
/// represent the instant.
pub open spec fn utc_date_of(secs: i64, nanos: u32) -> Option<Seq<char>> {
    utc_format_of(secs, nanos, DATE_FORMAT@)
}

/// The instant of a parse result.
pub open spec fn instant_of(p: Option<(i64, u32)>) -> Option<UtcTime> {
    match p {
        Some((secs, nanos)) => Some(UtcTime { secs, nanos }),
        None => None,
    }
}

/// Relies on chrono::DateTime::parse_from_rfc3339: the instant an RFC 3339
/// string denotes, whatever its offset, or none.
#[verifier::external_body]
pub(crate) fn parse_rfc3339(s: &str) -> (r: Option<UtcTime>)
    ensures
        r == instant_of(rfc3339_of(s@)),
{
    match chrono::DateTime::parse_from_rfc3339(s) {
        Ok(d) => Some(UtcTime { secs: d.timestamp(), nanos: d.timestamp_subsec_nanos() }),
        Err(_) => None,
    }
}

/// Relies on chrono's `FromStr` for `DateTime<Utc>`: the instant a date-time
/// string denotes, or none.
#[verifier::external_body]
pub(crate) fn parse_utc(s: &str) -> (r: Option<UtcTime>)
    ensures
        r == instant_of(utc_str_of(s@)),
{
    match s.parse::<chrono::DateTime<chrono::Utc>>() {
        Ok(d) => Some(UtcTime { secs: d.timestamp(), nanos: d.timestamp_subsec_nanos() }),
        Err(_) => None,
    }
}

/// Relies on chrono::DateTime::from_timestamp and DateTime::format: an
/// instant formatted in UTC, none where chrono cannot represent the instant.
/// Only the date format is admitted: chrono panics on a malformed format.
#[verifier::external_body]
fn utc_format(t: UtcTime, fmt: &str) -> (r: Option<String>)
    requires
        fmt@ == DATE_FORMAT@,
    ensures
        crate::rule::opt_str(r) == utc_format_of(t.secs, t.nanos, fmt@),
{
    match chrono::DateTime::from_timestamp(t.secs, t.nanos) {
        Some(d) => Some(d.format(fmt).to_string()),
        None => None,
    }
}

/// The UTC calendar date of an instant, `YYYY-MM-DD`.
pub fn utc_date(t: UtcTime) -> (r: Option<String>)
    ensures
        crate::rule::opt_str(r) == utc_date_of(t.secs, t.nanos),
{
    utc_format(t, DATE_FORMAT)
}

/// Relies on chrono::Utc::now: the current instant (nothing is known of it).
#[verifier::external_body]
pub(crate) fn now_utc() -> (r: UtcTime) {
    let d = chrono::Utc::now();
    UtcTime { secs: d.timestamp(), nanos: d.timestamp_subsec_nanos() }
}

/// How an event's timestamp field is read: RFC 3339 for `eventTime`,
/// chrono's general UTC form for `time`; other fields give no instant.
pub open spec fn event_time_spec(ts_key: Seq<char>, s: Seq<char>) -> Option<UtcTime> {
    if ts_key == "eventTime"@ {
        instant_of(rfc3339_of(s))
    } else if ts_key == "time"@ {
        instant_of(utc_str_of(s))
    } else {
        None
    }
}

/// Parses the text of an event's timestamp field.
pub fn event_time_of(ts_key: &str, s: &str) -> (r: Option<UtcTime>)
    ensures
        r == event_time_spec(ts_key@, s@),
{
    proof {
        reveal_strlit("eventTime");
        reveal_strlit("time");
    }
    if crate::text::eq_str(ts_key, "eventTime") {
        parse_rfc3339(s)
    } else if crate::text::eq_str(ts_key, "time") {
        parse_utc(s)
    } else {
        None
    }
}

} // verus!
