use vstd::prelude::*;
use crate::counter::{PairCounter, PairKey};
use crate::text::eq_str;

verus! {

/// The events that produced no detection: their count and their share of
/// all events in hundredths of a percent (none when there were no events).
#[derive(Clone, Copy, Debug, PartialEq, Eq, Structural)]
pub struct Reduction {
    pub reduced: usize,
    pub percent_x100: Option<u64>,
}

pub open spec fn reduced_spec(total: nat, hits: nat) -> nat {
    if total >= hits {
        (total - hits) as nat
    } else {
        0
    }
}

/// `reduced / total` in hundredths of a percent, rounded half up.
pub open spec fn reduction_spec(total: nat, hits: nat) -> Reduction {
    let reduced = reduced_spec(total, hits);
    Reduction {
        reduced: reduced as usize,
        percent_x100: if total == 0 {
            None
        } else {
            Some(((20000 * reduced + total) / (2 * total)) as u64)
        },
    }
}

/// The data reduction of a scan; see [`reduction_spec`].
pub fn data_reduction(total: usize, hits: usize) -> (r: Reduction)
    ensures
        r == reduction_spec(total as nat, hits as nat),
        r.percent_x100 matches Some(p) ==> p <= 10000,
{
    let reduced = total.saturating_sub(hits);
    if total == 0 {
        return Reduction { reduced, percent_x100: None };
    }
    let num: u128 = 20000 * (reduced as u128) + total as u128;
    let den: u128 = 2 * (total as u128);
    let p = num / den;
    assert(p <= 10000) by (nonlinear_arith)
        requires
            p == num / den,
            num == 20000 * reduced + total,
            den == 2 * total,
            reduced <= total,
            total > 0,
    {
        assert(num <= 20001 * total);
        assert(num / den <= 10000) by {
            assert(num < 10001 * den);
        }
    }
    Reduction { reduced, percent_x100: Some(p as u64) }
}

/// Law: zero events give no percentage rather than a division by zero.
pub proof fn lemma_reduction_of_nothing(hits: nat)
    ensures
        reduction_spec(0, hits).percent_x100 is None,
        reduction_spec(0, hits).reduced == 0,
{
}

/// What the detection-frequency chart shows.
#[derive(Clone, Copy, Debug, PartialEq, Eq, Structural)]
pub enum HistogramPlan {
    /// Too few timestamps to chart (fewer than five).
    InsufficientData,
    /// A chart `width` columns wide with `marker_count` time markers.
    Chart { marker_count: usize, width: usize },
}

/// The least number of timestamps that can be charted.
pub const MIN_HISTOGRAM_POINTS: usize = 5;

/// The most time markers a chart carries.
pub const MAX_TIME_MARKERS: usize = 18;

pub open spec fn histogram_spec(n: nat, terminal_width: nat, side_margin: nat) -> HistogramPlan {
    if n < MIN_HISTOGRAM_POINTS {
        HistogramPlan::InsufficientData
    } else {
        HistogramPlan::Chart {
            marker_count: if n - 2 < MAX_TIME_MARKERS { (n - 2) as usize } else { MAX_TIME_MARKERS },
            width: if terminal_width >= 2 * side_margin { (terminal_width - 2 * side_margin) as usize } else { 0 },
        }
    }
}

/// Plans the frequency chart of the recorded hit timestamps.
pub fn histogram_plan(n_timestamps: usize, terminal_width: usize, side_margin: usize) -> (r: HistogramPlan)
    requires
        side_margin <= usize::MAX / 2,
    ensures
        r == histogram_spec(n_timestamps as nat, terminal_width as nat, side_margin as nat),
{
    if n_timestamps < MIN_HISTOGRAM_POINTS {
        return HistogramPlan::InsufficientData;
    }
    let m = n_timestamps - 2;
    let marker_count = if m < MAX_TIME_MARKERS { m } else { MAX_TIME_MARKERS };
    let width = terminal_width.saturating_sub(2 * side_margin);
    HistogramPlan::Chart { marker_count, width }
}

/// Law: with fewer than five timestamps the chart reports insufficient data
/// instead of rendering.
pub proof fn lemma_few_points_insufficient(n: nat, w: nat, m: nat)
    requires
        n < 5,
    ensures
        histogram_spec(n, w, m) == HistogramPlan::InsufficientData,
{
}

/// The (name, count) entries of one group, in first-occurrence order.
pub open spec fn group_entries(entries: Seq<(PairKey, nat)>, group: Seq<char>) -> Seq<(Seq<char>, nat)>
    decreases entries.len(),
{
    if entries.len() == 0 {
        seq![]
    } else {
        let e = entries.last();
        let prev = group_entries(entries.drop_last(), group);
        if e.0.0 == group {
            prev.push((e.0.1, e.1))
        } else {
            prev
        }
    }
}

pub open spec fn count_views(v: Seq<(String, usize)>) -> Seq<(Seq<char>, nat)> {
    v.map_values(|p: (String, usize)| (p.0@, p.1 as nat))
}

/// The names counted under one group (a level, an author) with their counts,
/// in the order each was first counted.
pub fn group_counts(counter: &PairCounter, group: &str) -> (r: Vec<(String, usize)>)
    requires
        counter.wf(),
    ensures
        count_views(r@) == group_entries(counter.entries(), group@),
{
    let mut out: Vec<(String, usize)> = Vec::new();
    let mut i: usize = 0;
    while i < counter.len()
        invariant
            counter.wf(),
            0 <= i <= counter.entries().len(),
            count_views(out@) == group_entries(counter.entries().subrange(0, i as int), group@),
        decreases counter.entries().len() - i,
    {
        let (g, k, c) = counter.entry(i);
        let ghost before = count_views(out@);
        assert(counter.entries().subrange(0, i + 1).drop_last() =~= counter.entries().subrange(0, i as int));
        if eq_str(g.as_str(), group) {
            out.push((k.clone(), c));
            assert(count_views(out@) =~= before.push((k@, c as nat)));
        }
        i = i + 1;
    }
    assert(counter.entries().subrange(0, counter.entries().len() as int) =~= counter.entries());
    out
}

/// Entry `i` comes before entry `j` in descending count order, ties going to
/// the entry counted first.
pub open spec fn better(e: Seq<(Seq<char>, nat)>, i: int, j: int) -> bool {
    e[i].1 > e[j].1 || (e[i].1 == e[j].1 && i < j)
}

/// `idx` lists the positions of the `idx.len()` best entries of `e`, best first.
pub open spec fn is_top(e: Seq<(Seq<char>, nat)>, idx: Seq<int>) -> bool {
    &&& forall|p: int| 0 <= p < idx.len() ==> 0 <= #[trigger] idx[p] < e.len()
    &&& forall|p: int, q: int| 0 <= p < q < idx.len() ==> better(e, #[trigger] idx[p], #[trigger] idx[q])
    &&& forall|u: int, p: int|
        0 <= u < e.len() && !idx.contains(u) && 0 <= p < idx.len() ==> #[trigger] better(e, idx[p], u)
}

pub open spec fn min_nat(a: nat, b: nat) -> nat {
    if a < b {
        a
    } else {
        b
    }
}

proof fn lemma_untaken_exists(idx: Seq<int>, len: int)
    requires
        forall|p: int| 0 <= p < idx.len() ==> 0 <= #[trigger] idx[p] < len,
        idx.no_duplicates(),
        idx.len() < len,
    ensures
        exists|u: int| 0 <= u < len && !idx.contains(u),
{
    if forall|u: int| 0 <= u < len ==> idx.contains(u) {
        vstd::set_lib::lemma_int_range(0, len);
        idx.unique_seq_to_set();
        assert(vstd::set_lib::set_int_range(0, len).subset_of(idx.to_set())) by {
            assert forall|u: int| #[trigger] vstd::set_lib::set_int_range(0, len).contains(u) implies idx.to_set().contains(u) by {
                assert(idx.contains(u));
            }
        }
        vstd::set_lib::lemma_len_subset(vstd::set_lib::set_int_range(0, len), idx.to_set());
    }
}

/// The `n` entries with the highest counts, highest first; among equal
/// counts the entry counted first comes first.
pub fn top_hits(entries: &Vec<(String, usize)>, n: usize) -> (r: Vec<(String, usize)>)
    ensures
        r@.len() == min_nat(n as nat, entries@.len()),
        exists|idx: Seq<int>|
            #![trigger is_top(count_views(entries@), idx)]
            is_top(count_views(entries@), idx) && idx.len() == r@.len() && forall|p: int|
                0 <= p < idx.len() ==> count_views(r@)[p] == #[trigger] count_views(entries@)[idx[p]],
{
    let ghost e = count_views(entries@);
    let len = entries.len();
    let k = if n < len { n } else { len };
    let mut taken: Vec<bool> = Vec::new();
    let mut i: usize = 0;
    while i < len
        invariant
            0 <= i <= len,
            taken@.len() == i,
            forall|j: int| 0 <= j < i ==> !taken@[j],
        decreases len - i,
    {
        taken.push(false);
        i = i + 1;
    }
    let ghost mut idx: Seq<int> = seq![];
    let mut out: Vec<(String, usize)> = Vec::new();
    let mut p: usize = 0;
    while p < k
        invariant
            k <= len,
            len == entries@.len(),
            e == count_views(entries@),
            0 <= p <= k,
            taken@.len() == len,
            idx.len() == p,
            out@.len() == p,
            is_top(e, idx),
            forall|u: int| 0 <= u < len ==> (taken@[u] <==> idx.contains(u)),
            forall|q: int| 0 <= q < p ==> count_views(out@)[q] == #[trigger] e[idx[q]],
        decreases k - p,
    {
        assert(idx.no_duplicates()) by {
            assert forall|a: int, b: int| 0 <= a < idx.len() && 0 <= b < idx.len() && a != b implies idx[a] != idx[b] by {
                if a < b {
                    assert(better(e, idx[a], idx[b]));
                } else {
                    assert(better(e, idx[b], idx[a]));
                }
            }
        }
        proof {
            lemma_untaken_exists(idx, len as int);
        }
        let mut best: usize = len;
        let mut j: usize = 0;
        while j < len
            invariant
                len == entries@.len(),
                e == count_views(entries@),
                taken@.len() == len,
                0 <= j <= len,
                best == len || (best < j && !taken@[best as int]),
                best == len ==> forall|u: int| 0 <= u < j ==> taken@[u],
                best < len ==> forall|u: int| 0 <= u < j && !taken@[u] && u != best ==> better(e, best as int, u),
            decreases len - j,
        {
            if !taken[j] {
                if best == len || entries[j].1 > entries[best].1 {
                    best = j;
                }
            }
            j = j + 1;
        }
        assert(best < len) by {
            let u = choose|u: int| 0 <= u < len && !idx.contains(u);
            assert(!taken@[u]);
        }
        let ghost old_idx = idx;
        let ghost old_taken = taken@;
        taken.set(best, true);
        proof {
            idx = idx.push(best as int);
            assert forall|u: int| 0 <= u < len implies (taken@[u] <==> idx.contains(u)) by {
                if u == best {
                    assert(idx[p as int] == u);
                } else {
                    assert(taken@[u] == old_taken[u]);
                    assert(old_taken[u] <==> old_idx.contains(u));
                    if idx.contains(u) {
                        let q = choose|q: int| 0 <= q < idx.len() && idx[q] == u;
                        assert(q < p);
                        assert(old_idx[q] == u);
                    }
                    if old_idx.contains(u) {
                        let q = choose|q: int| 0 <= q < old_idx.len() && old_idx[q] == u;
                        assert(idx[q] == u);
                    }
                }
            }
            assert forall|u: int, q: int|
                0 <= u < e.len() && !idx.contains(u) && 0 <= q < idx.len() implies #[trigger] better(e, idx[q], u) by {
                assert(!old_idx.contains(u)) by {
                    if old_idx.contains(u) {
                        let w = choose|w: int| 0 <= w < old_idx.len() && old_idx[w] == u;
                        assert(idx[w] == u);
                    }
                }
                assert(u != best) by {
                    assert(idx[p as int] == best);
                }
                if q == p {
                    assert(old_taken[u] <==> old_idx.contains(u));
                    assert(!old_taken[u]);
                }
            }
            assert forall|a: int, b: int| 0 <= a < b < idx.len() implies better(e, #[trigger] idx[a], #[trigger] idx[b]) by {
                if b == p {
                    assert(!old_idx.contains(best as int));
                }
            }
        }
        out.push((entries[best].0.clone(), entries[best].1));
        assert(count_views(out@)[p as int] == e[idx[p as int]]);
        p = p + 1;
    }
    out
}

/// The top entries of one group of a counter; see [`top_hits`].
pub fn top_group_hits(counter: &PairCounter, group: &str, n: usize) -> (r: Vec<(String, usize)>)
    requires
        counter.wf(),
    ensures
        r@.len() == min_nat(n as nat, group_entries(counter.entries(), group@).len()),
        exists|idx: Seq<int>|
            #![trigger is_top(group_entries(counter.entries(), group@), idx)]
            is_top(group_entries(counter.entries(), group@), idx) && idx.len() == r@.len() && forall|p: int|
                0 <= p < idx.len() ==> count_views(r@)[p] == #[trigger] group_entries(counter.entries(), group@)[idx[p]],
{
    let entries = group_counts(counter, group);
    top_hits(&entries, n)
}

/// The first position of a name in a list of (name, count) entries.
pub open spec fn name_index(s: Seq<(Seq<char>, nat)>, name: Seq<char>) -> Option<int> {
    if exists|i: int| 0 <= i < s.len() && s[i].0 == name {
        Some(choose|i: int| 0 <= i < s.len() && s[i].0 == name && forall|j: int| 0 <= j < i ==> s[j].0 != name)
    } else {
        None
    }
}

/// Each group of a counter with the number of distinct names counted under
/// it, groups in order of first occurrence.
pub open spec fn group_sizes_spec(entries: Seq<(PairKey, nat)>) -> Seq<(Seq<char>, nat)>
    decreases entries.len(),
{
    if entries.len() == 0 {
        seq![]
    } else {
        let prev = group_sizes_spec(entries.drop_last());
        let g = entries.last().0.0;
        match name_index(prev, g) {
            Some(i) => prev.update(i, (g, prev[i].1 + 1)),
            None => prev.push((g, 1nat)),
        }
    }
}

proof fn lemma_group_sizes_bounded(entries: Seq<(PairKey, nat)>)
    ensures
        forall|j: int| 0 <= j < group_sizes_spec(entries).len() ==> #[trigger] group_sizes_spec(entries)[j].1 <= entries.len(),
    decreases entries.len(),
{
    if entries.len() > 0 {
        lemma_group_sizes_bounded(entries.drop_last());
        let prev = group_sizes_spec(entries.drop_last());
        let g = entries.last().0.0;
        if exists|i: int| 0 <= i < prev.len() && prev[i].0 == g {
            let i0 = choose|i: int| 0 <= i < prev.len() && prev[i].0 == g;
            let i = choose|i: int| 0 <= i < prev.len() && prev[i].0 == g && forall|j: int| 0 <= j < i ==> prev[j].0 != g;
            assert(exists|i: int| 0 <= i < prev.len() && prev[i].0 == g && forall|j: int| 0 <= j < i ==> prev[j].0 != g) by {
                lemma_first_match(prev, g, i0);
            }
            assert(name_index(prev, g) == Some(i));
            assert(prev[i].1 <= entries.drop_last().len());
        }
    }
}

proof fn lemma_first_match(s: Seq<(Seq<char>, nat)>, name: Seq<char>, k: int)
    requires
        0 <= k < s.len(),
        s[k].0 == name,
    ensures
        exists|i: int| 0 <= i < s.len() && s[i].0 == name && forall|j: int| 0 <= j < i ==> s[j].0 != name,
    decreases k,
{
    if exists|j: int| 0 <= j < k && s[j].0 == name {
        let j = choose|j: int| 0 <= j < k && s[j].0 == name;
        lemma_first_match(s, name, j);
    } else {
        assert(0 <= k < s.len() && s[k].0 == name && forall|j: int| 0 <= j < k ==> s[j].0 != name);
    }
}

/// For each author (group) of a counter, how many distinct titles it holds.
pub fn group_sizes(counter: &PairCounter) -> (r: Vec<(String, usize)>)
    requires
        counter.wf(),
    ensures
        count_views(r@) == group_sizes_spec(counter.entries()),
{
    let mut out: Vec<(String, usize)> = Vec::new();
    let mut i: usize = 0;
    while i < counter.len()
        invariant
            counter.wf(),
            0 <= i <= counter.entries().len(),
            count_views(out@) == group_sizes_spec(counter.entries().subrange(0, i as int)),
        decreases counter.entries().len() - i,
    {
        let (g, _, _) = counter.entry(i);
        let ghost prev = count_views(out@);
        let ghost es = counter.entries().subrange(0, i + 1);
        assert(es.drop_last() =~= counter.entries().subrange(0, i as int));
        assert(es.last().0.0 == g@);
        proof {
            lemma_group_sizes_bounded(counter.entries().subrange(0, i as int));
        }
        let mut j: usize = 0;
        while j < out.len() && !eq_str(out[j].0.as_str(), g.as_str())
            invariant
                prev == count_views(out@),
                0 <= j <= out@.len(),
                forall|q: int| 0 <= q < j ==> prev[q].0 != g@,
            decreases out@.len() - j,
        {
            j = j + 1;
        }
        if j < out.len() {
            assert(prev[j as int].0 == g@);
            let ghost c = choose|c: int| 0 <= c < prev.len() && prev[c].0 == g@ && forall|x: int| 0 <= x < c ==> prev[x].0 != g@;
            assert(c == j) by {
                if c < j {
                    assert(prev[c].0 != g@);
                }
                if j < c {
                    assert(prev[j as int].0 != g@);
                }
            }
            assert(prev[j as int].1 <= i);
            let (name, n) = out.remove(j);
            out.insert(j, (name, n + 1));
            assert(count_views(out@) =~= prev.update(j as int, (g@, prev[j as int].1 + 1)));
        } else {
            out.push((g.clone(), 1));
            assert(count_views(out@) =~= prev.push((g@, 1nat)));
        }
        i = i + 1;
    }
    assert(counter.entries().subrange(0, counter.entries().len() as int) =~= counter.entries());
    out
}

} // verus!
