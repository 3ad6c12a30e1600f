use vstd::prelude::*;
use crate::counter::{bumped, PairKey};
use crate::rule::{opt_str, RuleMeta};
use crate::summary::{append_spec, DetectionSummary, SummaryModel};
use crate::time::UtcTime;

verus! {

/// One event that contributed to a correlation group.
pub struct CorrelationEvent {
    pub time: Option<UtcTime>,
    /// The event's UTC calendar date, `YYYY-MM-DD`.
    pub date: Option<String>,
    /// The base rule that the event satisfied.
    pub base_rule: RuleMeta,
    /// The event's position among all events counted by the scan.
    pub ordinal: usize,
    /// Whether the event already matched a single-event rule, and so already
    /// counts as an event with hits.
    pub already_hit: bool,
}

/// One result of the correlation evaluator: a group of contributing events
/// and whether the correlation rule's condition held for it.
pub struct CorrelationOutcome {
    pub rule: RuleMeta,
    /// Whether contributing events also produce ordinary per-event output.
    pub generate: bool,
    pub matched: bool,
    pub events: Vec<CorrelationEvent>,
}

/// How many output rows a correlation result calls for.
#[derive(Clone, Copy, Debug, PartialEq, Eq, Structural)]
pub struct CorrelationRows {
    /// Ordinary rows, one per contributing event.
    pub event_rows: usize,
    /// Aggregated correlation rows.
    pub aggregate_rows: usize,
}

/// Whether a contributing event becomes a new event with hits: only with
/// `generate`, only once per event (by ordinal) over all results, never for
/// an event already counted by a single-event rule, and never beyond the
/// number of events seen.
pub open spec fn newly_hit(m: SummaryModel, e: CorrelationEvent, generate: bool) -> bool {
    generate && !e.already_hit && !m.correlated_events.contains(e.ordinal) && m.event_with_hits
        < m.total_events
}

/// The summary after the contributing events of a matched group: each is
/// recorded under its base rule; see [`newly_hit`] for when it counts as an
/// event with hits.
pub open spec fn apply_group_events(m: SummaryModel, evs: Seq<CorrelationEvent>, generate: bool) -> SummaryModel
    decreases evs.len(),
{
    if evs.len() == 0 {
        m
    } else {
        let e = evs.last();
        let m1 = apply_group_events(m, evs.drop_last(), generate);
        let m2 = if newly_hit(m1, e, generate) {
            SummaryModel {
                event_with_hits: m1.event_with_hits + 1,
                correlated_events: m1.correlated_events.insert(e.ordinal),
                ..m1
            }
        } else {
            m1
        };
        append_spec(m2, e.time, opt_str(e.date), e.base_rule.title@, opt_str(e.base_rule.author), opt_str(e.base_rule.level), generate)
    }
}

/// The date under which a matched group is counted: that of its last event.
pub open spec fn group_date(evs: Seq<CorrelationEvent>) -> Option<Seq<char>> {
    if evs.len() == 0 {
        None
    } else {
        opt_str(evs.last().date)
    }
}

/// The summary after one correlation result. An unmatched result changes
/// nothing; a matched one records its events, then counts the correlation
/// rule itself under its own author, level and title.
pub open spec fn correlation_spec(m: SummaryModel, o: CorrelationOutcome) -> SummaryModel {
    if !o.matched {
        m
    } else {
        let m1 = apply_group_events(m, o.events@, o.generate);
        let title = o.rule.title@;
        let authors = match opt_str(o.rule.author) {
            Some(a) => m1.author_titles.insert((a, title)),
            None => m1.author_titles,
        };
        match opt_str(o.rule.level) {
            Some(l) => SummaryModel {
                author_titles: authors,
                level_with_hits: bumped(m1.level_with_hits, (l, title)),
                dates_with_hits: match group_date(o.events@) {
                    Some(d) => bumped(m1.dates_with_hits, (l, d)),
                    None => m1.dates_with_hits,
                },
                ..m1
            },
            None => SummaryModel { author_titles: authors, ..m1 },
        }
    }
}

/// The rows a correlation result calls for: one aggregated row per matched
/// group whatever `generate` says, and one row per event only with it.
pub open spec fn rows_spec(o: CorrelationOutcome) -> CorrelationRows {
    CorrelationRows {
        event_rows: if o.matched && o.generate { o.events@.len() as usize } else { 0 },
        aggregate_rows: if o.matched { 1 } else { 0 },
    }
}

proof fn lemma_group_keeps_counts(m: SummaryModel, evs: Seq<CorrelationEvent>, generate: bool)
    ensures
        apply_group_events(m, evs, false).event_with_hits == m.event_with_hits,
        apply_group_events(m, evs, generate).total_events == m.total_events,
        m.event_with_hits <= m.total_events ==> apply_group_events(m, evs, generate).event_with_hits
            <= apply_group_events(m, evs, generate).total_events,
    decreases evs.len(),
{
    if evs.len() > 0 {
        lemma_group_keeps_counts(m, evs.drop_last(), generate);
    }
}

/// Law: a correlation rule without `generate` leaves `event_with_hits` (and
/// `total_events`) as they were, and calls for exactly one aggregated row per
/// matched group.
pub proof fn lemma_no_generate_keeps_hits(m: SummaryModel, o: CorrelationOutcome)
    requires
        !o.generate,
    ensures
        correlation_spec(m, o).event_with_hits == m.event_with_hits,
        correlation_spec(m, o).total_events == m.total_events,
        rows_spec(o).aggregate_rows == (if o.matched { 1usize } else { 0usize }),
        rows_spec(o).event_rows == 0,
{
    lemma_group_keeps_counts(m, o.events@, false);
}

/// Law: applying any correlation result keeps `event_with_hits <=
/// total_events`.
pub proof fn lemma_correlation_hits_bounded(m: SummaryModel, o: CorrelationOutcome)
    requires
        m.event_with_hits <= m.total_events,
    ensures
        correlation_spec(m, o).event_with_hits <= correlation_spec(m, o).total_events,
{
    lemma_group_keeps_counts(m, o.events@, o.generate);
}

fn contains_ordinal(v: &Vec<usize>, x: usize) -> (r: bool)
    ensures
        r == v@.contains(x),
{
    let mut i: usize = 0;
    while i < v.len()
        invariant
            0 <= i <= v@.len(),
            forall|j: int| 0 <= j < i ==> v@[j] != x,
        decreases v@.len() - i,
    {
        if v[i] == x {
            return true;
        }
        i = i + 1;
    }
    false
}

impl DetectionSummary {
    /// Applies one correlation result; see [`correlation_spec`] and [`rows_spec`].
    pub fn apply_correlation(&mut self, o: &CorrelationOutcome) -> (r: CorrelationRows)
        requires
            old(self).wf(),
        ensures
            final(self).wf(),
            final(self).view() == correlation_spec(old(self).view(), *o),
            r == rows_spec(*o),
    {
        if !o.matched {
            return CorrelationRows { event_rows: 0, aggregate_rows: 0 };
        }
        let ghost m0 = self.view();
        let mut i: usize = 0;
        while i < o.events.len()
            invariant
                0 <= i <= o.events@.len(),
                self.wf(),
                self.view() == apply_group_events(m0, o.events@.subrange(0, i as int), o.generate),
            decreases o.events@.len() - i,
        {
            assert(o.events@.subrange(0, i + 1).drop_last() =~= o.events@.subrange(0, i as int));
            let e = &o.events[i];
            let ghost before = self.view();
            if o.generate && !e.already_hit && self.event_with_hits < self.total_events && !contains_ordinal(
                &self.correlated_events,
                e.ordinal,
            ) {
                self.event_with_hits = self.event_with_hits + 1;
                let ghost old_v = self.correlated_events@;
                self.correlated_events.push(e.ordinal);
                proof {
                    old_v.lemma_push_to_set_commute(e.ordinal);
                }
                assert(self.correlated_events@ == old_v.push(e.ordinal));
                assert(self.correlated_events@.to_set() =~= before.correlated_events.insert(e.ordinal));
            }
            self.append_summary_data(e.time, &e.date, &e.base_rule, o.generate);
            i = i + 1;
        }
        assert(o.events@.subrange(0, o.events@.len() as int) =~= o.events@);
        let ghost m1 = self.view();
        if let Some(a) = &o.rule.author {
            self.author_titles.increment(a.as_str(), o.rule.title.as_str());
        }
        if let Some(l) = &o.rule.level {
            self.level_with_hits.increment(l.as_str(), o.rule.title.as_str());
            let n = o.events.len();
            if n > 0 {
                if let Some(d) = &o.events[n - 1].date {
                    self.dates_with_hits.increment(l.as_str(), d.as_str());
                }
            }
        }
        assert(self.view() =~= correlation_spec(m0, *o));
        CorrelationRows { event_rows: if o.generate { o.events.len() } else { 0 }, aggregate_rows: 1 }
    }
}

} // verus!
