use vstd::prelude::*;
use crate::rule::opt_str;
use crate::rules::{match_flags, event_field, hit_positions, match_event, rule_hits, LoadedRule};
use crate::summary::EventOutcome;
use crate::time::{instant_of, parse_rfc3339, parse_utc, rfc3339_of, utc_date, utc_date_of, utc_str_of, UtcTime};
use crate::timefilter::{admits_spec, json_str_field, window_configured, TimeWindow};

verus! {

/// Relies on sigma_rust::event_from_json: the normalized event of a JSON
/// text, none where it cannot be normalized.
#[verifier::external_body]
fn event_from_text(text: &str) -> Option<sigma_rust::Event> {
    match sigma_rust::event_from_json(text) {
        Ok(e) => Some(e),
        Err(_) => None,
    }
}

/// What is fixed for every record of a scan.
pub struct ScanSettings {
    pub window: TimeWindow,
    /// The member holding a record's timestamp.
    pub ts_key: String,
    /// The instant the recency window is measured from.
    pub now: UtcTime,
}

/// A record that passed the time filter and normalization, with its matches.
pub struct PreparedEvent {
    pub event: sigma_rust::Event,
    pub outcome: EventOutcome,
}

/// The normalized event of a raw record, if it can be normalized.
pub fn normalize_record(value: &serde_json::Value) -> Option<sigma_rust::Event> {
    let text = crate::json::json_text(value);
    event_from_text(text.as_str())
}

/// The instant a timestamp field's text denotes (chrono's general UTC form)
/// and its UTC calendar date.
pub open spec fn instant_spec(field: Option<Seq<char>>) -> (Option<UtcTime>, Option<Seq<char>>) {
    let time = match field {
        Some(s) => instant_of(utc_str_of(s)),
        None => None,
    };
    (time, match time {
        Some(t) => utc_date_of(t.secs, t.nanos),
        None => None,
    })
}

/// See [`instant_spec`].
pub fn instant_of_field(field: &Option<String>) -> (r: (Option<UtcTime>, Option<String>))
    ensures
        (r.0, opt_str(r.1)) == instant_spec(opt_str(*field)),
{
    let time = match field {
        Some(s) => parse_utc(s.as_str()),
        None => None,
    };
    let date = match time {
        Some(t) => utc_date(t),
        None => None,
    };
    (time, date)
}

/// The instant and UTC date of an event, read from its timestamp field.
pub fn event_instant(event: &sigma_rust::Event, ts_key: &str) -> (r: (Option<UtcTime>, Option<String>))
    ensures
        exists|f: Option<Seq<char>>| (r.0, opt_str(r.1)) == instant_spec(f),
{
    let field = event_field(event, ts_key);
    instant_of_field(&field)
}

/// Steps one to three of the matcher for one raw record: the time filter,
/// normalization, then every rule's predicate. Records that are filtered out
/// or cannot be normalized give none. The work touches no shared state, so
/// records may be prepared in parallel.
pub fn prepare_record(settings: &ScanSettings, rules: &Vec<LoadedRule>, value: &serde_json::Value) -> (r: Option<
    PreparedEvent,
>)
    ensures
        r matches Some(p) ==> {
            &&& forall|j: int| 0 <= j < p.outcome.matched@.len() ==> #[trigger] p.outcome.matched@[j] < rules@.len()
            &&& forall|j: int, k: int|
                0 <= j < k < p.outcome.matched@.len() ==> p.outcome.matched@[j] < p.outcome.matched@[k]
            &&& exists|f: Option<Seq<char>>| (p.outcome.time, opt_str(p.outcome.date)) == instant_spec(f)
            &&& exists|c: Option<Seq<char>>, h: Seq<bool>|
                h.len() == rules@.len() && p.outcome.matched@ == hit_positions(match_flags(rules@, c, h), rules@.len())
        },
        r is Some && window_configured(settings.window) ==> exists|f: Option<Seq<char>>|
            #[trigger] admits_spec(settings.window, settings.ts_key@, f, settings.now),
{
    if settings.window.is_configured() {
        let field = json_str_field(value, settings.ts_key.as_str());
        if !settings.window.admits(&field, settings.ts_key.as_str(), settings.now) {
            return None;
        }
        assert(admits_spec(settings.window, settings.ts_key@, opt_str(field), settings.now));
    }
    let event = match normalize_record(value) {
        Some(e) => e,
        None => return None,
    };
    let category = event_field(&event, "category");
    let matched = match_event(rules, &event, &category);
    let (time, date) = event_instant(&event, settings.ts_key.as_str());
    Some(PreparedEvent { event, outcome: EventOutcome { time, date, matched } })
}

/// A base-rule match kept for the correlation pass.
#[derive(Clone, Copy, Debug, PartialEq, Eq, Structural)]
pub struct BaseMatch {
    /// Position of the base rule in its list.
    pub rule: usize,
    pub time: UtcTime,
}

/// The base matches of an event: every flagged base rule, in order, with the
/// instant of the event's RFC 3339 timestamp field; none where that field is
/// absent or not RFC 3339, since correlation needs the instant.
pub open spec fn base_matches_spec(hits: Seq<bool>, field: Option<Seq<char>>) -> Seq<BaseMatch> {
    match field {
        None => seq![],
        Some(s) => match instant_of(rfc3339_of(s)) {
            None => seq![],
            Some(t) => hit_positions(hits, hits.len()).map_values(|j: usize| BaseMatch { rule: j, time: t }),
        },
    }
}

/// See [`base_matches_spec`]; `hits[j]` says whether base rule `j` matched.
pub fn base_matches(hits: &Vec<bool>, field: &Option<String>) -> (r: Vec<BaseMatch>)
    ensures
        r@ == base_matches_spec(hits@, opt_str(*field)),
{
    let mut out: Vec<BaseMatch> = Vec::new();
    let time = match field {
        Some(s) => parse_rfc3339(s.as_str()),
        None => None,
    };
    let t = match time {
        Some(t) => t,
        None => {
            assert(out@ =~= base_matches_spec(hits@, opt_str(*field)));
            return out;
        },
    };
    let mut i: usize = 0;
    while i < hits.len()
        invariant
            0 <= i <= hits@.len(),
            out@ == hit_positions(hits@, i as nat).map_values(|j: usize| BaseMatch { rule: j, time: t }),
        decreases hits@.len() - i,
    {
        if hits[i] {
            out.push(BaseMatch { rule: i, time: t });
        }
        assert(out@ =~= hit_positions(hits@, (i + 1) as nat).map_values(|j: usize| BaseMatch { rule: j, time: t }));
        i = i + 1;
    }
    out
}

/// Step five of the matcher: the base rules of correlation rules that an
/// event satisfies, independently of the single-event rules; see
/// [`base_matches_spec`].
pub fn base_rule_matches(base_rules: &Vec<LoadedRule>, event: &sigma_rust::Event, ts_key: &str) -> (r: Vec<BaseMatch>)
    ensures
        exists|hits: Seq<bool>, f: Option<Seq<char>>|
            hits.len() == base_rules@.len() && r@ == base_matches_spec(hits, f),
{
    let hits = rule_hits(base_rules, event);
    let field = event_field(event, ts_key);
    base_matches(&hits, &field)
}

/// The (event, rule) pairs of a chunk's output rows: for each event in
/// order, one pair per matched rule in match order.
pub open spec fn output_pairs_spec(outs: Seq<EventOutcome>) -> Seq<(usize, usize)>
    decreases outs.len(),
{
    if outs.len() == 0 {
        seq![]
    } else {
        let k = (outs.len() - 1) as usize;
        output_pairs_spec(outs.drop_last()) + outs.last().matched@.map_values(|r: usize| (k, r))
    }
}

/// Which output rows the serialized reduction of a chunk emits; see
/// [`output_pairs_spec`].
pub fn output_pairs(outcomes: &Vec<EventOutcome>) -> (r: Vec<(usize, usize)>)
    ensures
        r@ == output_pairs_spec(outcomes@),
{
    let mut out: Vec<(usize, usize)> = Vec::new();
    let mut i: usize = 0;
    while i < outcomes.len()
        invariant
            0 <= i <= outcomes@.len(),
            out@ == output_pairs_spec(outcomes@.subrange(0, i as int)),
        decreases outcomes@.len() - i,
    {
        let m = &outcomes[i].matched;
        let ghost before = out@;
        let mut j: usize = 0;
        while j < m.len()
            invariant
                0 <= j <= m@.len(),
                0 <= i < outcomes@.len(),
                m == outcomes@[i as int].matched,
                out@ == before + m@.subrange(0, j as int).map_values(|r: usize| (i, r)),
            decreases m@.len() - j,
        {
            out.push((i, m[j]));
            assert(m@.subrange(0, j + 1).map_values(|r: usize| (i, r)) =~= m@.subrange(0, j as int).map_values(
                |r: usize| (i, r),
            ).push((i, m@[j as int])));
            assert(out@ =~= before + m@.subrange(0, j + 1).map_values(|r: usize| (i, r)));
            j = j + 1;
        }
        let ghost sub = outcomes@.subrange(0, i + 1);
        assert(sub.drop_last() =~= outcomes@.subrange(0, i as int));
        assert(m@.subrange(0, m@.len() as int) =~= m@);
        assert(((sub.len() - 1) as usize) == i);
        assert(out@ =~= output_pairs_spec(sub));
        i = i + 1;
    }
    assert(outcomes@.subrange(0, outcomes@.len() as int) =~= outcomes@);
    out
}

} // verus!
