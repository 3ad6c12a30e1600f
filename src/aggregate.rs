use vstd::prelude::*;
use crate::profile::{join, join_spec};
use crate::text::eq_str;

verus! {

pub open spec fn strs(v: Seq<String>) -> Seq<Seq<char>> {
    v.map_values(|s: String| s@)
}

/// Lexicographic order of character sequences by code point, which is the
/// order of `String`.
pub open spec fn lex_le(a: Seq<char>, b: Seq<char>) -> bool
    decreases a.len(),
{
    if a.len() == 0 {
        true
    } else if b.len() == 0 {
        false
    } else if a[0] != b[0] {
        (a[0] as u32) < (b[0] as u32)
    } else {
        lex_le(a.drop_first(), b.drop_first())
    }
}

pub open spec fn sorted_strs(s: Seq<Seq<char>>) -> bool {
    forall|i: int, j: int| 0 <= i < j < s.len() ==> lex_le(#[trigger] s[i], #[trigger] s[j])
}

/// Relies on itertools::Itertools::sorted over `String`: the same strings,
/// in ascending order.
#[verifier::external_body]
fn sorted_strings(v: Vec<String>) -> (r: Vec<String>)
    ensures
        strs(r@).to_multiset() == strs(v@).to_multiset(),
        sorted_strs(strs(r@)),
{
    itertools::Itertools::sorted(v.into_iter()).collect()
}

/// The distinct strings of a list, in first-occurrence order.
pub fn dedup_strings(values: &Vec<String>) -> (r: Vec<String>)
    ensures
        strs(r@).no_duplicates(),
        forall|x: Seq<char>| strs(r@).contains(x) <==> strs(values@).contains(x),
{
    let mut out: Vec<String> = Vec::new();
    let mut i: usize = 0;
    while i < values.len()
        invariant
            0 <= i <= values@.len(),
            strs(out@).no_duplicates(),
            forall|x: Seq<char>| strs(out@).contains(x) <==> strs(values@.subrange(0, i as int)).contains(x),
        decreases values@.len() - i,
    {
        let mut j: usize = 0;
        let mut seen = false;
        while j < out.len()
            invariant
                0 <= j <= out@.len(),
                seen ==> strs(out@).contains(values@[i as int]@),
                !seen ==> forall|q: int| 0 <= q < j ==> out@[q]@ != values@[i as int]@,
                0 <= i < values@.len(),
                strs(out@).no_duplicates(),
                forall|x: Seq<char>| strs(out@).contains(x) <==> strs(values@.subrange(0, i as int)).contains(x),
            decreases out@.len() - j,
        {
            if !seen && eq_str(out[j].as_str(), values[i].as_str()) {
                seen = true;
                assert(strs(out@)[j as int] == values@[i as int]@);
            }
            j = j + 1;
        }
        let ghost before = strs(out@);
        if !seen {
            assert(!before.contains(values@[i as int]@)) by {
                if before.contains(values@[i as int]@) {
                    let q = choose|q: int| 0 <= q < before.len() && before[q] == values@[i as int]@;
                    assert(out@[q]@ == values@[i as int]@);
                }
            }
            out.push(values[i].clone());
            assert(strs(out@) =~= before.push(values@[i as int]@));
        }
        let ghost pre = strs(values@.subrange(0, i as int));
        assert(strs(values@.subrange(0, i + 1)) =~= pre.push(values@[i as int]@));
        let ghost v = values@[i as int]@;
        let ghost now_ = strs(out@);
        assert(seen ==> now_ == before);
        assert(!seen ==> now_ =~= before.push(v));
        assert(before.contains(v) || !seen);
        assert forall|x: Seq<char>| #[trigger] pre.push(v).contains(x) implies now_.contains(x) by {
            let q = choose|q: int| 0 <= q < pre.len() + 1 && pre.push(v)[q] == x;
            if q < pre.len() {
                assert(pre[q] == x);
                assert(pre.contains(x));
                assert(before.contains(x));
                let w = choose|w: int| 0 <= w < before.len() && before[w] == x;
                if !seen {
                    assert(now_[w] == x);
                }
            } else {
                assert(x == v);
                if !seen {
                    assert(now_[before.len() as int] == x);
                }
            }
        }
        assert forall|x: Seq<char>| #[trigger] now_.contains(x) implies pre.push(v).contains(x) by {
            let q = choose|q: int| 0 <= q < now_.len() && now_[q] == x;
            if q < before.len() {
                assert(before[q] == x);
                assert(before.contains(x));
                assert(pre.contains(x));
                let w = choose|w: int| 0 <= w < pre.len() && pre[w] == x;
                assert(pre.push(v)[w] == x);
            } else {
                assert(pre.push(v)[pre.len() as int] == x);
            }
        }
        i = i + 1;
    }
    assert(values@.subrange(0, values@.len() as int) =~= values@);
    out
}

/// The separator between the distinct values of an aggregated column.
pub const VALUE_SEPARATOR: &'static str = " ¦ ";

/// `out` lists the distinct strings of `vals` in ascending order, joined by
/// the value separator.
pub open spec fn aggregated(vals: Seq<Seq<char>>, out: Seq<char>) -> bool {
    exists|s: Seq<Seq<char>>|
        #![trigger join_spec(s, VALUE_SEPARATOR@)]
        sorted_strs(s) && s.no_duplicates() && (forall|x: Seq<char>| s.contains(x) <==> vals.contains(x))
            && out == join_spec(s, VALUE_SEPARATOR@)
}

/// The distinct values of a column across the events of a group, sorted and
/// joined.
pub fn aggregate_values(values: &Vec<String>) -> (r: String)
    ensures
        aggregated(strs(values@), r@),
{
    let d = dedup_strings(values);
    let ghost dv = strs(d@);
    let s = sorted_strings(d);
    proof {
        let sv = strs(s@);
        dv.lemma_multiset_has_no_duplicates();
        assert forall|x: Seq<char>| sv.to_multiset().contains(x) implies sv.to_multiset().count(x) == 1 by {}
        sv.lemma_multiset_has_no_duplicates_conv();
        assert forall|x: Seq<char>| sv.contains(x) <==> strs(values@).contains(x) by {
            vstd::seq_lib::to_multiset_contains(sv, x);
            vstd::seq_lib::to_multiset_contains(dv, x);
        }
    }
    let r = join(&s, VALUE_SEPARATOR);
    assert(strs(s@) == s@.map_values(|s: String| s@));
    r
}

/// The values of column `c` that a group contributes: every event's, or only
/// the last event's for the timestamp column.
pub open spec fn column_values(rows: Seq<Vec<String>>, c: int, last_only: bool) -> Seq<Seq<char>> {
    if last_only {
        if rows.len() == 0 {
            seq![]
        } else {
            seq![rows.last()@[c]@]
        }
    } else {
        Seq::new(rows.len(), |e: int| rows[e]@[c]@)
    }
}

/// The expression of the timestamp column: `.` and the log source's
/// timestamp field.
pub open spec fn timestamp_expr(ts_key: Seq<char>) -> Seq<char> {
    seq!['.'] + ts_key
}

/// The aggregated output row of a correlation group. `rows` holds one
/// projected row per contributing event, in event order; the timestamp
/// column (expression `.` + `ts_key`) shows only the last event's time.
pub fn correlation_record(profile: &Vec<(String, String)>, rows: &Vec<Vec<String>>, ts_key: &str) -> (r: Vec<String>)
    requires
        forall|e: int| 0 <= e < rows@.len() ==> #[trigger] rows@[e]@.len() == profile@.len(),
    ensures
        r@.len() == profile@.len(),
        forall|c: int|
            0 <= c < profile@.len() ==> aggregated(
                column_values(rows@, c, profile@[c].1@ == timestamp_expr(ts_key@)),
                #[trigger] r@[c]@,
            ),
{
    proof {
        reveal_strlit(".");
    }
    let mut ts_expr = crate::text::to_owned_string(".");
    crate::text::append_str(&mut ts_expr, ts_key);
    assert(ts_expr@ =~= timestamp_expr(ts_key@));
    let mut out: Vec<String> = Vec::new();
    let mut c: usize = 0;
    while c < profile.len()
        invariant
            0 <= c <= profile@.len(),
            out@.len() == c,
            forall|e: int| 0 <= e < rows@.len() ==> #[trigger] rows@[e]@.len() == profile@.len(),
            forall|q: int|
                0 <= q < c ==> aggregated(column_values(rows@, q, profile@[q].1@ == timestamp_expr(ts_key@)), #[trigger] out@[q]@),
            ts_expr@ == timestamp_expr(ts_key@),
        decreases profile@.len() - c,
    {
        let last_only = eq_str(profile[c].1.as_str(), ts_expr.as_str());
        let mut vals: Vec<String> = Vec::new();
        if last_only {
            if rows.len() > 0 {
                vals.push(rows[rows.len() - 1][c].clone());
            }
        } else {
            let mut e: usize = 0;
            while e < rows.len()
                invariant
                    0 <= e <= rows@.len(),
                    0 <= c < profile@.len(),
                    forall|x: int| 0 <= x < rows@.len() ==> #[trigger] rows@[x]@.len() == profile@.len(),
                    strs(vals@) == Seq::new(e as nat, |x: int| rows@[x]@[c as int]@),
                decreases rows@.len() - e,
            {
                let ghost prev = strs(vals@);
                let v = rows[e][c].clone();
                assert(v@ == rows@[e as int]@[c as int]@);
                vals.push(v);
                assert(strs(vals@) =~= prev.push(rows@[e as int]@[c as int]@));
                assert(strs(vals@) =~= Seq::new((e + 1) as nat, |x: int| rows@[x]@[c as int]@));
                e = e + 1;
            }
        }
        assert(strs(vals@) =~= column_values(rows@, c as int, profile@[c as int].1@ == timestamp_expr(ts_key@)));
        out.push(aggregate_values(&vals));
        c = c + 1;
    }
    out
}

} // verus!
