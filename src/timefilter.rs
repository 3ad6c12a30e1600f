use vstd::prelude::*;
use crate::text::{char_slice, parse_i64, parse_i64_spec, trim_spec, trim_str};
use crate::time::{event_time_of, event_time_spec, instant_of, now_utc, parse_rfc3339, rfc3339_of, time_lt, UtcTime};

verus! {

/// The time options of a scan, as given on the command line.
pub struct TimeOption {
    /// Earliest instant to include, RFC 3339.
    pub timeline_start: Option<String>,
    /// Latest instant to include, RFC 3339.
    pub timeline_end: Option<String>,
    /// Recency window such as `30d` (units y, M, d, h, m).
    pub time_offset: Option<String>,
}

/// A configured instant bound.
#[derive(Clone, Copy, Debug, PartialEq, Eq, Structural)]
pub enum TimeBound {
    Unset,
    /// Configured, but the text did not parse: nothing passes.
    Invalid,
    At(UtcTime),
}

/// A configured recency window, in seconds.
#[derive(Clone, Copy, Debug, PartialEq, Eq, Structural)]
pub enum OffsetBound {
    Unset,
    /// Configured, but the text did not parse: nothing passes.
    Invalid,
    Secs(i64),
}

/// The parsed time filter of a scan.
#[derive(Clone, Copy, Debug, PartialEq, Eq, Structural)]
pub struct TimeWindow {
    pub start: TimeBound,
    pub end: TimeBound,
    pub offset: OffsetBound,
}

/// Seconds per unit of a recency offset; years count 365 days and months 30.
pub open spec fn unit_secs(c: char) -> Option<int> {
    if c == 'y' {
        Some(31536000int)
    } else if c == 'M' {
        Some(2592000int)
    } else if c == 'd' {
        Some(86400int)
    } else if c == 'h' {
        Some(3600int)
    } else if c == 'm' {
        Some(60int)
    } else {
        None
    }
}

/// A recency offset in seconds: an integer followed by one unit letter,
/// white space around it ignored; none if malformed or out of range.
pub open spec fn offset_spec(s: Seq<char>) -> Option<i64> {
    let t = trim_spec(s);
    if t.len() == 0 {
        None
    } else {
        match (parse_i64_spec(t.drop_last()), unit_secs(t.last())) {
            (Some(n), Some(u)) => if i64::MIN <= n * u <= i64::MAX {
                Some((n * u) as i64)
            } else {
                None
            },
            _ => None,
        }
    }
}

pub fn parse_offset(offset: &str) -> (r: Option<i64>)
    ensures
        r == offset_spec(offset@),
{
    let t = trim_str(offset);
    let n = t.unicode_len();
    if n == 0 {
        return None;
    }
    let unit = t.get_char(n - 1);
    let num = char_slice(t, 0, n - 1);
    assert(num@ =~= t@.drop_last());
    let u: i64 = if unit == 'y' {
        365 * 86400
    } else if unit == 'M' {
        30 * 86400
    } else if unit == 'd' {
        86400
    } else if unit == 'h' {
        3600
    } else if unit == 'm' {
        60
    } else {
        return None;
    };
    match parse_i64(num.as_str()) {
        Some(v) => v.checked_mul(u),
        None => None,
    }
}

/// The bound that an optional RFC 3339 text gives.
pub open spec fn bound_spec(o: Option<String>) -> TimeBound {
    match o {
        None => TimeBound::Unset,
        Some(s) => match instant_of(rfc3339_of(s@)) {
            Some(t) => TimeBound::At(t),
            None => TimeBound::Invalid,
        },
    }
}

pub open spec fn offset_bound_spec(o: Option<String>) -> OffsetBound {
    match o {
        None => OffsetBound::Unset,
        Some(s) => match offset_spec(s@) {
            Some(n) => OffsetBound::Secs(n),
            None => OffsetBound::Invalid,
        },
    }
}

pub open spec fn window_spec(opt: TimeOption) -> TimeWindow {
    TimeWindow {
        start: bound_spec(opt.timeline_start),
        end: bound_spec(opt.timeline_end),
        offset: offset_bound_spec(opt.time_offset),
    }
}

pub open spec fn window_configured(w: TimeWindow) -> bool {
    w.start != TimeBound::Unset || w.end != TimeBound::Unset || w.offset != OffsetBound::Unset
}

/// Whether `t` is earlier than `now` less `off` seconds.
pub open spec fn before_cutoff(t: UtcTime, now: UtcTime, off: i64) -> bool {
    let c = now.secs - off;
    t.secs < c || (t.secs == c && t.nanos < now.nanos)
}

/// Whether an event passes the window. With nothing configured every event
/// passes; otherwise an event needs a parsed instant within every configured
/// bound, both ends included, and any bound that did not parse rejects it.
pub open spec fn passes_spec(w: TimeWindow, event: Option<UtcTime>, now: UtcTime) -> bool {
    if !window_configured(w) {
        true
    } else {
        match event {
            None => false,
            Some(t) => {
                &&& match w.start {
                    TimeBound::Unset => true,
                    TimeBound::Invalid => false,
                    TimeBound::At(s) => !time_lt(t, s),
                }
                &&& match w.end {
                    TimeBound::Unset => true,
                    TimeBound::Invalid => false,
                    TimeBound::At(e) => !time_lt(e, t),
                }
                &&& match w.offset {
                    OffsetBound::Unset => true,
                    OffsetBound::Invalid => false,
                    OffsetBound::Secs(o) => !before_cutoff(t, now, o),
                }
            },
        }
    }
}

/// Whether an event whose timestamp field (named `ts_key`) holds `field`
/// passes the window at instant `now`.
pub open spec fn admits_spec(w: TimeWindow, ts_key: Seq<char>, field: Option<Seq<char>>, now: UtcTime) -> bool {
    passes_spec(
        w,
        match field {
            Some(s) => event_time_spec(ts_key, s),
            None => None,
        },
        now,
    )
}

/// Law: with both ends configured, an event exactly at the start or exactly
/// at the end passes (the range is inclusive).
pub proof fn lemma_boundaries_inclusive(s: UtcTime, e: UtcTime, now: UtcTime)
    requires
        !time_lt(e, s),
    ensures
        passes_spec(TimeWindow { start: TimeBound::At(s), end: TimeBound::At(e), offset: OffsetBound::Unset }, Some(s), now),
        passes_spec(TimeWindow { start: TimeBound::At(s), end: TimeBound::At(e), offset: OffsetBound::Unset }, Some(e), now),
{
}

impl TimeWindow {
    /// Parses the time options once, for every record of the scan.
    pub fn from_option(opt: &TimeOption) -> (r: TimeWindow)
        ensures
            r == window_spec(*opt),
    {
        TimeWindow {
            start: bound_of(&opt.timeline_start),
            end: bound_of(&opt.timeline_end),
            offset: match &opt.time_offset {
                None => OffsetBound::Unset,
                Some(s) => match parse_offset(s.as_str()) {
                    Some(n) => OffsetBound::Secs(n),
                    None => OffsetBound::Invalid,
                },
            },
        }
    }

    pub fn is_configured(&self) -> (r: bool)
        ensures
            r == window_configured(*self),
    {
        !(self.start == TimeBound::Unset && self.end == TimeBound::Unset && self.offset == OffsetBound::Unset)
    }

    /// Whether an event with the given instant passes; see [`passes_spec`].
    pub fn passes(&self, event: Option<UtcTime>, now: UtcTime) -> (r: bool)
        ensures
            r == passes_spec(*self, event, now),
    {
        if !self.is_configured() {
            return true;
        }
        let t = match event {
            None => return false,
            Some(t) => t,
        };
        let start_ok = match self.start {
            TimeBound::Unset => true,
            TimeBound::Invalid => false,
            TimeBound::At(s) => !crate::time::is_before(&t, &s),
        };
        let end_ok = match self.end {
            TimeBound::Unset => true,
            TimeBound::Invalid => false,
            TimeBound::At(e) => !crate::time::is_before(&e, &t),
        };
        let offset_ok = match self.offset {
            OffsetBound::Unset => true,
            OffsetBound::Invalid => false,
            OffsetBound::Secs(o) => {
                let c: i128 = now.secs as i128 - o as i128;
                let ts = t.secs as i128;
                !(ts < c || (ts == c && t.nanos < now.nanos))
            },
        };
        start_ok && end_ok && offset_ok
    }

    /// Whether an event whose timestamp field (named `ts_key`) holds `field`
    /// passes at instant `now`.
    pub fn admits(&self, field: &Option<String>, ts_key: &str, now: UtcTime) -> (r: bool)
        ensures
            r == passes_spec(
                *self,
                match field {
                    Some(s) => event_time_spec(ts_key@, s@),
                    None => None,
                },
                now,
            ),
    {
        let t = match field {
            Some(s) => event_time_of(ts_key, s.as_str()),
            None => None,
        };
        self.passes(t, now)
    }
}

fn bound_of(o: &Option<String>) -> (r: TimeBound)
    ensures
        r == bound_spec(*o),
{
    match o {
        None => TimeBound::Unset,
        Some(s) => match parse_rfc3339(s.as_str()) {
            Some(t) => TimeBound::At(t),
            None => TimeBound::Invalid,
        },
    }
}

/// Relies on serde_json::Value::get: the text of a string member of a JSON
/// object, if there is one.
#[verifier::external_body]
pub(crate) fn json_str_field(value: &serde_json::Value, key: &str) -> (r: Option<String>) {
    match value.get(key) {
        Some(serde_json::Value::String(s)) => Some(s.clone()),
        _ => None,
    }
}

/// The time filter on one raw record: `ts_key` names the log source's
/// timestamp member. With no time option set every record passes; a time
/// option that does not parse rejects every record.
pub fn filter_by_time(opt: &TimeOption, value: &serde_json::Value, ts_key: &str) -> (r: bool)
    ensures
        !window_configured(window_spec(*opt)) ==> r,
        window_spec(*opt).start == TimeBound::Invalid ==> !r,
        window_spec(*opt).end == TimeBound::Invalid ==> !r,
        window_spec(*opt).offset == OffsetBound::Invalid ==> !r,
{
    let w = TimeWindow::from_option(opt);
    if !w.is_configured() {
        return true;
    }
    let field = json_str_field(value, ts_key);
    let now = now_utc();
    w.admits(&field, ts_key, now)
}

} // verus!
