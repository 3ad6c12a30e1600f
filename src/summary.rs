use vstd::prelude::*;
use crate::counter::{bumped, sat_add, PairCounter, PairKey};
use crate::rule::{opt_str, RuleMeta};
use crate::rules::LoadedRule;
use crate::time::{is_before, time_lt, UtcTime};

verus! {

/// The mathematical content of a [`DetectionSummary`].
pub struct SummaryModel {
    /// (author, rule title) pairs of rules that produced hits.
    pub author_titles: Set<PairKey>,
    /// Unix seconds of every recorded hit, in order.
    pub timestamps: Seq<i64>,
    pub total_events: nat,
    pub event_with_hits: nat,
    /// Hits per (level, `YYYY-MM-DD` date).
    pub dates_with_hits: Map<PairKey, nat>,
    /// Hits per (level, rule title).
    pub level_with_hits: Map<PairKey, nat>,
    pub first_event_time: Option<UtcTime>,
    pub last_event_time: Option<UtcTime>,
    /// Ordinals of the events that correlation results made events with hits.
    pub correlated_events: Set<usize>,
}

/// The earlier of an optional instant and an instant.
pub open spec fn earliest(cur: Option<UtcTime>, t: UtcTime) -> Option<UtcTime> {
    match cur {
        Some(c) => if time_lt(t, c) { Some(t) } else { Some(c) },
        None => Some(t),
    }
}

/// The later of an optional instant and an instant.
pub open spec fn latest(cur: Option<UtcTime>, t: UtcTime) -> Option<UtcTime> {
    match cur {
        Some(c) => if time_lt(c, t) { Some(t) } else { Some(c) },
        None => Some(t),
    }
}

/// The summary after one (event, rule) hit. `time` is the event's instant
/// and `date` its UTC calendar date; with `generate` unset only the time
/// series and the first/last instants change.
pub open spec fn append_spec(
    m: SummaryModel,
    time: Option<UtcTime>,
    date: Option<Seq<char>>,
    title: Seq<char>,
    author: Option<Seq<char>>,
    level: Option<Seq<char>>,
    generate: bool,
) -> SummaryModel {
    let authors = match author {
        Some(a) if generate => m.author_titles.insert((a, title)),
        _ => m.author_titles,
    };
    let levels = match level {
        Some(l) if generate => bumped(m.level_with_hits, (l, title)),
        _ => m.level_with_hits,
    };
    match time {
        Some(t) => SummaryModel {
            author_titles: authors,
            level_with_hits: levels,
            timestamps: m.timestamps.push(t.secs),
            first_event_time: earliest(m.first_event_time, t),
            last_event_time: latest(m.last_event_time, t),
            dates_with_hits: match (level, date) {
                (Some(l), Some(d)) if generate => bumped(m.dates_with_hits, (l, d)),
                _ => m.dates_with_hits,
            },
            ..m
        },
        None => SummaryModel { author_titles: authors, level_with_hits: levels, ..m },
    }
}

/// What the matcher found for one normalized event of a chunk.
pub struct EventOutcome {
    /// The event's instant, where its timestamp field parsed.
    pub time: Option<UtcTime>,
    /// The event's UTC calendar date, `YYYY-MM-DD`.
    pub date: Option<String>,
    /// Positions, in the active rule list, of the rules that matched.
    pub matched: Vec<usize>,
}

/// The summary after the hits of one event, rule by rule in match order.
pub open spec fn apply_hits(
    m: SummaryModel,
    time: Option<UtcTime>,
    date: Option<Seq<char>>,
    rules: Seq<LoadedRule>,
    matched: Seq<usize>,
) -> SummaryModel
    decreases matched.len(),
{
    if matched.len() == 0 {
        m
    } else {
        let r = rules[matched.last() as int].meta;
        append_spec(
            apply_hits(m, time, date, rules, matched.drop_last()),
            time,
            date,
            r.title@,
            opt_str(r.author),
            opt_str(r.level),
            true,
        )
    }
}

/// The summary after the hits of a sequence of events, in order.
pub open spec fn apply_outcomes(m: SummaryModel, rules: Seq<LoadedRule>, outs: Seq<EventOutcome>) -> SummaryModel
    decreases outs.len(),
{
    if outs.len() == 0 {
        m
    } else {
        let o = outs.last();
        apply_hits(apply_outcomes(m, rules, outs.drop_last()), o.time, opt_str(o.date), rules, o.matched@)
    }
}

/// How many of the events matched at least one rule.
pub open spec fn hit_events(outs: Seq<EventOutcome>) -> nat
    decreases outs.len(),
{
    if outs.len() == 0 {
        0
    } else {
        hit_events(outs.drop_last()) + if outs.last().matched@.len() > 0 { 1nat } else { 0nat }
    }
}

/// The summary after the serialized reduction of one chunk: every event
/// counts once toward `total_events`, every event with a match once toward
/// `event_with_hits`, and each (event, rule) hit is recorded in order.
pub open spec fn reduce_spec(m: SummaryModel, rules: Seq<LoadedRule>, outs: Seq<EventOutcome>) -> SummaryModel {
    let counted = SummaryModel {
        total_events: sat_add(m.total_events, outs.len()),
        event_with_hits: sat_add(m.event_with_hits, hit_events(outs)),
        ..m
    };
    apply_outcomes(counted, rules, outs)
}

/// Every match position of every outcome names a rule of the list.
pub open spec fn outcomes_in_range(outs: Seq<EventOutcome>, n_rules: nat) -> bool {
    forall|i: int, j: int|
        0 <= i < outs.len() && 0 <= j < outs[i].matched@.len() ==> #[trigger] outs[i].matched@[j] < n_rules
}

proof fn lemma_hit_events_bound(outs: Seq<EventOutcome>)
    ensures
        hit_events(outs) <= outs.len(),
    decreases outs.len(),
{
    if outs.len() > 0 {
        lemma_hit_events_bound(outs.drop_last());
    }
}

/// The event counters are left alone by recorded hits.
proof fn lemma_apply_keeps_counts(m: SummaryModel, rules: Seq<LoadedRule>, outs: Seq<EventOutcome>)
    ensures
        apply_outcomes(m, rules, outs).total_events == m.total_events,
        apply_outcomes(m, rules, outs).event_with_hits == m.event_with_hits,
    decreases outs.len(),
{
    if outs.len() > 0 {
        lemma_apply_keeps_counts(m, rules, outs.drop_last());
        let o = outs.last();
        lemma_hits_keep_counts(apply_outcomes(m, rules, outs.drop_last()), o.time, opt_str(o.date), rules, o.matched@);
    }
}

proof fn lemma_hits_keep_counts(
    m: SummaryModel,
    time: Option<UtcTime>,
    date: Option<Seq<char>>,
    rules: Seq<LoadedRule>,
    matched: Seq<usize>,
)
    ensures
        apply_hits(m, time, date, rules, matched).total_events == m.total_events,
        apply_hits(m, time, date, rules, matched).event_with_hits == m.event_with_hits,
    decreases matched.len(),
{
    if matched.len() > 0 {
        lemma_hits_keep_counts(m, time, date, rules, matched.drop_last());
    }
}

/// Whether every match position of every outcome names one of `n_rules` rules.
pub fn check_outcomes(outcomes: &Vec<EventOutcome>, n_rules: usize) -> (r: bool)
    ensures
        r == outcomes_in_range(outcomes@, n_rules as nat),
{
    let mut i: usize = 0;
    while i < outcomes.len()
        invariant
            0 <= i <= outcomes@.len(),
            forall|a: int, b: int|
                0 <= a < i && 0 <= b < outcomes@[a].matched@.len() ==> #[trigger] outcomes@[a].matched@[b] < n_rules,
        decreases outcomes@.len() - i,
    {
        let m = &outcomes[i].matched;
        let mut j: usize = 0;
        while j < m.len()
            invariant
                0 <= j <= m@.len(),
                0 <= i < outcomes@.len(),
                m == outcomes@[i as int].matched,
                forall|a: int, b: int|
                    0 <= a < i && 0 <= b < outcomes@[a].matched@.len() ==> #[trigger] outcomes@[a].matched@[b] < n_rules,
                forall|b: int| 0 <= b < j ==> #[trigger] m@[b] < n_rules,
            decreases m@.len() - j,
        {
            if m[j] >= n_rules {
                return false;
            }
            j = j + 1;
        }
        i = i + 1;
    }
    true
}

/// Law: after any chunk reduction the events with hits never outnumber the
/// events seen, given that this held before.
pub proof fn lemma_reduce_hits_bounded(m: SummaryModel, rules: Seq<LoadedRule>, outs: Seq<EventOutcome>)
    requires
        m.event_with_hits <= m.total_events,
    ensures
        reduce_spec(m, rules, outs).event_with_hits <= reduce_spec(m, rules, outs).total_events,
{
    lemma_hit_events_bound(outs);
    let counted = SummaryModel {
        total_events: sat_add(m.total_events, outs.len()),
        event_with_hits: sat_add(m.event_with_hits, hit_events(outs)),
        ..m
    };
    lemma_apply_keeps_counts(counted, rules, outs);
}

/// Law: a chunk adds exactly its number of normalized events to
/// `total_events` (below the counter's ceiling).
pub proof fn lemma_reduce_counts_events(m: SummaryModel, rules: Seq<LoadedRule>, outs: Seq<EventOutcome>)
    requires
        m.total_events + outs.len() <= usize::MAX,
    ensures
        reduce_spec(m, rules, outs).total_events == m.total_events + outs.len(),
{
    let counted = SummaryModel {
        total_events: sat_add(m.total_events, outs.len()),
        event_with_hits: sat_add(m.event_with_hits, hit_events(outs)),
        ..m
    };
    lemma_apply_keeps_counts(counted, rules, outs);
}

/// The summary after a sequence of chunks, reduced in order.
pub open spec fn run_spec(m: SummaryModel, rules: Seq<LoadedRule>, chunks: Seq<Seq<EventOutcome>>) -> SummaryModel
    decreases chunks.len(),
{
    if chunks.len() == 0 {
        m
    } else {
        reduce_spec(run_spec(m, rules, chunks.drop_last()), rules, chunks.last())
    }
}

/// Law: over a whole scan, starting from an empty summary, the events with
/// hits never outnumber the events seen.
pub proof fn lemma_run_hits_bounded(m: SummaryModel, rules: Seq<LoadedRule>, chunks: Seq<Seq<EventOutcome>>)
    requires
        m.event_with_hits <= m.total_events,
    ensures
        run_spec(m, rules, chunks).event_with_hits <= run_spec(m, rules, chunks).total_events,
    decreases chunks.len(),
{
    if chunks.len() > 0 {
        lemma_run_hits_bounded(m, rules, chunks.drop_last());
        lemma_reduce_hits_bounded(run_spec(m, rules, chunks.drop_last()), rules, chunks.last());
    }
}

/// The running accumulator of a scan. It has one owner and is changed only
/// between the parallel phases of the scan.
pub struct DetectionSummary {
    pub author_titles: PairCounter,
    pub timestamps: Vec<i64>,
    pub total_events: usize,
    pub event_with_hits: usize,
    pub dates_with_hits: PairCounter,
    pub level_with_hits: PairCounter,
    pub first_event_time: Option<UtcTime>,
    pub last_event_time: Option<UtcTime>,
    /// Ordinals (positions among all counted events) of the events that
    /// correlation results turned into events with hits.
    pub correlated_events: Vec<usize>,
}

impl DetectionSummary {
    pub open spec fn wf(&self) -> bool {
        &&& self.author_titles.wf()
        &&& self.dates_with_hits.wf()
        &&& self.level_with_hits.wf()
    }

    pub open spec fn view(&self) -> SummaryModel {
        SummaryModel {
            author_titles: self.author_titles.view().dom(),
            timestamps: self.timestamps@,
            total_events: self.total_events as nat,
            event_with_hits: self.event_with_hits as nat,
            dates_with_hits: self.dates_with_hits.view(),
            level_with_hits: self.level_with_hits.view(),
            first_event_time: self.first_event_time,
            last_event_time: self.last_event_time,
            correlated_events: self.correlated_events@.to_set(),
        }
    }

    /// An empty summary.
    pub fn new() -> (r: Self)
        ensures
            r.wf(),
            r.view().total_events == 0,
            r.view().event_with_hits == 0,
            r.view().timestamps.len() == 0,
            r.view().author_titles == Set::<PairKey>::empty(),
            r.view().dates_with_hits == Map::<PairKey, nat>::empty(),
            r.view().level_with_hits == Map::<PairKey, nat>::empty(),
            r.view().first_event_time is None,
            r.view().last_event_time is None,
            r.view().correlated_events == Set::<usize>::empty(),
    {
        let r = DetectionSummary {
            author_titles: PairCounter::new(),
            timestamps: Vec::new(),
            total_events: 0,
            event_with_hits: 0,
            dates_with_hits: PairCounter::new(),
            level_with_hits: PairCounter::new(),
            first_event_time: None,
            last_event_time: None,
            correlated_events: Vec::new(),
        };
        assert(r.view().correlated_events =~= Set::<usize>::empty());
        assert(r.view().author_titles =~= Set::<PairKey>::empty());
        r
    }

    /// Records one (event, rule) hit; see [`append_spec`].
    pub fn append_summary_data(
        &mut self,
        time: Option<UtcTime>,
        date: &Option<String>,
        rule: &RuleMeta,
        generate: bool,
    )
        requires
            old(self).wf(),
        ensures
            final(self).wf(),
            final(self).view() == append_spec(
                old(self).view(),
                time,
                opt_str(*date),
                rule.title@,
                opt_str(rule.author),
                opt_str(rule.level),
                generate,
            ),
    {
        let ghost m0 = self.view();
        if generate {
            if let Some(a) = &rule.author {
                self.author_titles.increment(a.as_str(), rule.title.as_str());
            }
            if let Some(l) = &rule.level {
                self.level_with_hits.increment(l.as_str(), rule.title.as_str());
            }
        }
        if let Some(t) = time {
            self.timestamps.push(t.secs);
            let replace_first = match &self.first_event_time {
                Some(c) => is_before(&t, c),
                None => true,
            };
            if replace_first {
                self.first_event_time = Some(t);
            }
            let replace_last = match &self.last_event_time {
                Some(c) => is_before(c, &t),
                None => true,
            };
            if replace_last {
                self.last_event_time = Some(t);
            }
            if generate {
                if let (Some(l), Some(d)) = (&rule.level, date) {
                    self.dates_with_hits.increment(l.as_str(), d.as_str());
                }
            }
        }
        assert(self.view() =~= append_spec(
            m0,
            time,
            opt_str(*date),
            rule.title@,
            opt_str(rule.author),
            opt_str(rule.level),
            generate,
        ));
    }

    /// The serialized reduction of one chunk; see [`reduce_spec`].
    pub fn reduce_chunk(&mut self, rules: &Vec<LoadedRule>, outcomes: &Vec<EventOutcome>)
        requires
            old(self).wf(),
            outcomes_in_range(outcomes@, rules@.len()),
        ensures
            final(self).wf(),
            final(self).view() == reduce_spec(old(self).view(), rules@, outcomes@),
    {
        let ghost m0 = self.view();
        let mut hits: usize = 0;
        let mut i: usize = 0;
        while i < outcomes.len()
            invariant
                0 <= i <= outcomes@.len(),
                hits == hit_events(outcomes@.subrange(0, i as int)),
                hits <= i,
            decreases outcomes@.len() - i,
        {
            assert(outcomes@.subrange(0, i + 1).drop_last() =~= outcomes@.subrange(0, i as int));
            if outcomes[i].matched.len() > 0 {
                hits = hits + 1;
            }
            i = i + 1;
        }
        assert(outcomes@.subrange(0, outcomes@.len() as int) =~= outcomes@);
        self.total_events = self.total_events.saturating_add(outcomes.len());
        self.event_with_hits = self.event_with_hits.saturating_add(hits);
        let ghost counted = self.view();
        assert(counted == SummaryModel {
            total_events: sat_add(m0.total_events, outcomes@.len()),
            event_with_hits: sat_add(m0.event_with_hits, hit_events(outcomes@)),
            ..m0
        });
        let mut i: usize = 0;
        while i < outcomes.len()
            invariant
                0 <= i <= outcomes@.len(),
                self.wf(),
                outcomes_in_range(outcomes@, rules@.len()),
                self.view() == apply_outcomes(counted, rules@, outcomes@.subrange(0, i as int)),
            decreases outcomes@.len() - i,
        {
            let o = &outcomes[i];
            let ghost before = self.view();
            let mut j: usize = 0;
            while j < o.matched.len()
                invariant
                    0 <= j <= o.matched@.len(),
                    o == outcomes@[i as int],
                    0 <= i < outcomes@.len(),
                    self.wf(),
                    outcomes_in_range(outcomes@, rules@.len()),
                    self.view() == apply_hits(before, o.time, opt_str(o.date), rules@, o.matched@.subrange(0, j as int)),
                decreases o.matched@.len() - j,
            {
                assert(o.matched@.subrange(0, j + 1).drop_last() =~= o.matched@.subrange(0, j as int));
                let k = o.matched[j];
                assert(outcomes@[i as int].matched@[j as int] < rules@.len());
                self.append_summary_data(o.time, &o.date, &rules[k].meta, true);
                j = j + 1;
            }
            assert(o.matched@.subrange(0, o.matched@.len() as int) =~= o.matched@);
            assert(outcomes@.subrange(0, i + 1).drop_last() =~= outcomes@.subrange(0, i as int));
            i = i + 1;
        }
        assert(outcomes@.subrange(0, outcomes@.len() as int) =~= outcomes@);
    }
}

} // verus!
