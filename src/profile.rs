use vstd::prelude::*;
use crate::rule::RuleMeta;
use crate::text::{append_str, char_slice, eq_str, replace_spec, replace_str, starts_with_str, to_owned_string, trim_spec, trim_str};

verus! {

/// Position of the first `:` of a line, if any.
pub open spec fn first_colon(s: Seq<char>) -> Option<int> {
    if exists|p: int| 0 <= p < s.len() && s[p] == ':' {
        Some(choose|p: int| 0 <= p < s.len() && s[p] == ':' && forall|q: int| 0 <= q < p ==> s[q] != ':')
    } else {
        None
    }
}

pub open spec fn strip_start_spec(s: Seq<char>) -> Seq<char>
    decreases s.len(),
{
    if s.len() > 0 && s[0] == '\'' {
        strip_start_spec(s.drop_first())
    } else {
        s
    }
}

pub open spec fn strip_end_spec(s: Seq<char>) -> Seq<char>
    decreases s.len(),
{
    if s.len() > 0 && s.last() == '\'' {
        strip_end_spec(s.drop_last())
    } else {
        s
    }
}

/// `s` without leading and trailing single quotes.
pub open spec fn strip_quotes_spec(s: Seq<char>) -> Seq<char> {
    strip_end_spec(strip_start_spec(s))
}

/// A profile line `Name: 'expression'` as (name, expression); a line without
/// a colon defines no column.
pub open spec fn profile_line_spec(line: Seq<char>) -> Option<(Seq<char>, Seq<char>)> {
    match first_colon(line) {
        Some(p) => Some(
            (trim_spec(line.subrange(0, p)), strip_quotes_spec(trim_spec(line.subrange(p + 1, line.len() as int)))),
        ),
        None => None,
    }
}

/// The columns one profile line adds: its own, followed by the three GeoIP
/// columns after the `SrcIP` column when enrichment is active.
pub open spec fn line_columns(line: Seq<char>, geo: bool) -> Seq<(Seq<char>, Seq<char>)> {
    match profile_line_spec(line) {
        None => seq![],
        Some((k, v)) => if k == "SrcIP"@ && geo {
            seq![(k, v), ("SrcASN"@, "SrcASN"@), ("SrcCity"@, "SrcCity"@), ("SrcCountry"@, "SrcCountry"@)]
        } else {
            seq![(k, v)]
        },
    }
}

/// The ordered columns of a profile file given by its lines.
pub open spec fn profile_spec(lines: Seq<Seq<char>>, geo: bool) -> Seq<(Seq<char>, Seq<char>)>
    decreases lines.len(),
{
    if lines.len() == 0 {
        seq![]
    } else {
        profile_spec(lines.drop_last(), geo) + line_columns(lines.last(), geo)
    }
}

pub open spec fn column_views(v: Seq<(String, String)>) -> Seq<(Seq<char>, Seq<char>)> {
    v.map_values(|p: (String, String)| (p.0@, p.1@))
}

fn strip_start(s: &str) -> (r: &str)
    ensures
        r@ == strip_start_spec(s@),
    decreases s@.len(),
{
    let n = s.unicode_len();
    if n > 0 && s.get_char(0) == '\'' {
        let rest = s.substring_char(1, n);
        assert(rest@ =~= s@.drop_first());
        strip_start(rest)
    } else {
        s
    }
}

fn strip_end(s: &str) -> (r: &str)
    ensures
        r@ == strip_end_spec(s@),
    decreases s@.len(),
{
    let n = s.unicode_len();
    if n > 0 && s.get_char(n - 1) == '\'' {
        let rest = s.substring_char(0, n - 1);
        assert(rest@ =~= s@.drop_last());
        strip_end(rest)
    } else {
        s
    }
}

/// Reads one profile line; see [`profile_line_spec`].
pub fn parse_profile_line(line: &str) -> (r: Option<(String, String)>)
    ensures
        match r {
            Some((k, v)) => profile_line_spec(line@) == Some((k@, v@)),
            None => profile_line_spec(line@) is None,
        },
{
    let n = line.unicode_len();
    let mut p: usize = 0;
    while p < n && line.get_char(p) != ':'
        invariant
            n == line@.len(),
            0 <= p <= n,
            forall|q: int| 0 <= q < p ==> line@[q] != ':',
        decreases n - p,
    {
        p = p + 1;
    }
    if p == n {
        return None;
    }
    let ghost pp = choose|q: int| 0 <= q < line@.len() && line@[q] == ':' && forall|x: int| 0 <= x < q ==> line@[x] != ':';
    assert(0 <= p < line@.len() && line@[p as int] == ':' && forall|x: int| 0 <= x < p ==> line@[x] != ':');
    assert(pp == p) by {
        if pp < p {
            assert(line@[pp] != ':');
        }
        if p < pp {
            assert(line@[p as int] != ':');
        }
    }
    let head = char_slice(line, 0, p);
    let tail = char_slice(line, p + 1, n);
    let key = to_owned_string(trim_str(head.as_str()));
    let val = to_owned_string(strip_end(strip_start(trim_str(tail.as_str()))));
    Some((key, val))
}

/// The ordered output columns defined by the lines of a profile file.
pub fn load_profile(lines: &Vec<String>, geo: bool) -> (r: Vec<(String, String)>)
    ensures
        column_views(r@) == profile_spec(lines@.map_values(|s: String| s@), geo),
{
    let ghost ls = lines@.map_values(|s: String| s@);
    let mut out: Vec<(String, String)> = Vec::new();
    let mut i: usize = 0;
    while i < lines.len()
        invariant
            0 <= i <= lines@.len(),
            ls == lines@.map_values(|s: String| s@),
            column_views(out@) == profile_spec(ls.subrange(0, i as int), geo),
        decreases lines@.len() - i,
    {
        proof {
            reveal_strlit("SrcIP");
            reveal_strlit("SrcASN");
            reveal_strlit("SrcCity");
            reveal_strlit("SrcCountry");
        }
        let ghost before = column_views(out@);
        assert(ls.subrange(0, i + 1).drop_last() =~= ls.subrange(0, i as int));
        assert(ls.subrange(0, i + 1).last() == lines@[i as int]@);
        match parse_profile_line(lines[i].as_str()) {
            Some((k, v)) => {
                let is_src = eq_str(k.as_str(), "SrcIP");
                out.push((k, v));
                if is_src && geo {
                    out.push((to_owned_string("SrcASN"), to_owned_string("SrcASN")));
                    out.push((to_owned_string("SrcCity"), to_owned_string("SrcCity")));
                    out.push((to_owned_string("SrcCountry"), to_owned_string("SrcCountry")));
                }
                assert(column_views(out@) =~= before + line_columns(lines@[i as int]@, geo));
            },
            None => {
                assert(column_views(out@) =~= before + line_columns(lines@[i as int]@, geo));
            },
        }
        i = i + 1;
    }
    assert(ls.subrange(0, lines@.len() as int) =~= ls);
    out
}

/// Parts joined with a separator between each two.
pub open spec fn join_spec(parts: Seq<Seq<char>>, sep: Seq<char>) -> Seq<char>
    decreases parts.len(),
{
    if parts.len() == 0 {
        seq![]
    } else if parts.len() == 1 {
        parts[0]
    } else {
        join_spec(parts.drop_last(), sep) + sep + parts.last()
    }
}

pub fn join(parts: &Vec<String>, sep: &str) -> (r: String)
    ensures
        r@ == join_spec(parts@.map_values(|s: String| s@), sep@),
{
    let ghost ps = parts@.map_values(|s: String| s@);
    let mut out = String::new();
    let mut i: usize = 0;
    while i < parts.len()
        invariant
            0 <= i <= parts@.len(),
            ps == parts@.map_values(|s: String| s@),
            out@ == join_spec(ps.subrange(0, i as int), sep@),
        decreases parts@.len() - i,
    {
        assert(ps.subrange(0, i + 1).drop_last() =~= ps.subrange(0, i as int));
        if i > 0 {
            append_str(&mut out, sep);
        } else {
            assert(out@ =~= seq![]);
        }
        append_str(&mut out, parts[i].as_str());
        i = i + 1;
    }
    assert(ps.subrange(0, parts@.len() as int) =~= ps);
    out
}

pub open spec fn or_dash(o: Option<String>) -> Seq<char> {
    match o {
        Some(s) => s@,
        None => "-"@,
    }
}

pub open spec fn list_or_dash(o: Option<Vec<String>>) -> Seq<char> {
    match o {
        Some(v) => join_spec(v@.map_values(|s: String| s@), ", "@),
        None => "-"@,
    }
}

/// The value of a rule-metadata field by name; `-` for an absent value or
/// an unknown name. Lists are joined with `, `.
pub open spec fn rule_field_spec(meta: RuleMeta, name: Seq<char>) -> Seq<char> {
    if name == "title"@ {
        meta.title@
    } else if name == "id"@ {
        or_dash(meta.id)
    } else if name == "status"@ {
        or_dash(meta.status)
    } else if name == "author"@ {
        or_dash(meta.author)
    } else if name == "description"@ {
        or_dash(meta.description)
    } else if name == "references"@ {
        list_or_dash(meta.references)
    } else if name == "date"@ {
        or_dash(meta.date)
    } else if name == "modified"@ {
        or_dash(meta.modified)
    } else if name == "tags"@ {
        list_or_dash(meta.tags)
    } else if name == "falsepositives"@ {
        list_or_dash(meta.falsepositives)
    } else if name == "level"@ {
        or_dash(meta.level)
    } else {
        "-"@
    }
}

fn clone_or_dash(o: &Option<String>) -> (r: String)
    ensures
        r@ == or_dash(*o),
{
    proof {
        reveal_strlit("-");
    }
    match o {
        Some(s) => s.clone(),
        None => to_owned_string("-"),
    }
}

fn join_or_dash(o: &Option<Vec<String>>) -> (r: String)
    ensures
        r@ == list_or_dash(*o),
{
    proof {
        reveal_strlit("-");
        reveal_strlit(", ");
    }
    match o {
        Some(v) => join(v, ", "),
        None => to_owned_string("-"),
    }
}

/// See [`rule_field_spec`].
pub fn rule_field(meta: &RuleMeta, name: &str) -> (r: String)
    ensures
        r@ == rule_field_spec(*meta, name@),
{
    proof {
        reveal_strlit("title");
        reveal_strlit("id");
        reveal_strlit("status");
        reveal_strlit("author");
        reveal_strlit("description");
        reveal_strlit("references");
        reveal_strlit("date");
        reveal_strlit("modified");
        reveal_strlit("tags");
        reveal_strlit("falsepositives");
        reveal_strlit("level");
        reveal_strlit("-");
    }
    if eq_str(name, "title") {
        meta.title.clone()
    } else if eq_str(name, "id") {
        clone_or_dash(&meta.id)
    } else if eq_str(name, "status") {
        clone_or_dash(&meta.status)
    } else if eq_str(name, "author") {
        clone_or_dash(&meta.author)
    } else if eq_str(name, "description") {
        clone_or_dash(&meta.description)
    } else if eq_str(name, "references") {
        join_or_dash(&meta.references)
    } else if eq_str(name, "date") {
        clone_or_dash(&meta.date)
    } else if eq_str(name, "modified") {
        clone_or_dash(&meta.modified)
    } else if eq_str(name, "tags") {
        join_or_dash(&meta.tags)
    } else if eq_str(name, "falsepositives") {
        join_or_dash(&meta.falsepositives)
    } else if eq_str(name, "level") {
        clone_or_dash(&meta.level)
    } else {
        to_owned_string("-")
    }
}

/// What GeoIP enrichment found for an event's source address.
pub enum GeoLookup {
    /// Enrichment is off, or the event has no source address.
    Off,
    /// The source address text is not an IP address; the three GeoIP columns
    /// then show that text.
    Unresolved(String),
    Found { asn: String, city: String, country: String },
}

/// How a timestamp is shown: `T` becomes a space and `Z` is dropped.
pub open spec fn display_time_spec(v: Seq<char>) -> Seq<char> {
    replace_spec(replace_spec(v, "T"@, " "@), "Z"@, ""@)
}

/// The three columns that GeoIP enrichment fills.
pub open spec fn is_geo_column(expr: Seq<char>) -> bool {
    expr == "SrcASN"@ || expr == "SrcCity"@ || expr == "SrcCountry"@
}

/// The value of an output column. `expr` is the column's expression and
/// `field` the event's value at the path that follows the expression's
/// leading dot: a `.path` column shows that value (`-` if absent, timestamp
/// form for `eventTime`), a `sigma.` column a rule-metadata field, any
/// other column `-`; with GeoIP results the three GeoIP columns show them.
pub open spec fn column_spec(expr: Seq<char>, field: Option<Seq<char>>, meta: RuleMeta, geo: GeoLookup) -> Seq<char> {
    match geo {
        GeoLookup::Unresolved(ip) if is_geo_column(expr) => ip@,
        GeoLookup::Found { asn, city, country } if expr == "SrcASN"@ => asn@,
        GeoLookup::Found { asn, city, country } if expr == "SrcCity"@ => city@,
        GeoLookup::Found { asn, city, country } if expr == "SrcCountry"@ => country@,
        _ => if expr.len() > 0 && expr[0] == '.' {
            match field {
                None => "-"@,
                Some(v) => if expr.drop_first() == "eventTime"@ {
                    display_time_spec(v)
                } else {
                    v
                },
            }
        } else if expr.len() >= 6 && expr.subrange(0, 6) == "sigma."@ {
            rule_field_spec(meta, replace_spec(expr, "sigma."@, ""@))
        } else {
            "-"@
        },
    }
}

/// `v` is what column `expr` shows for the rule and GeoIP result, for some
/// value of the event field it reads.
pub open spec fn shows_column(v: Seq<char>, expr: Seq<char>, meta: RuleMeta, geo: GeoLookup) -> bool {
    exists|f: Option<Seq<char>>| v == #[trigger] column_spec(expr, f, meta, geo)
}

/// See [`column_spec`].
pub fn render_column(expr: &str, field: &Option<String>, meta: &RuleMeta, geo: &GeoLookup) -> (r: String)
    ensures
        r@ == column_spec(expr@, crate::rule::opt_str(*field), *meta, *geo),
{
    proof {
        reveal_strlit("SrcASN");
        reveal_strlit("SrcCity");
        reveal_strlit("SrcCountry");
        reveal_strlit("eventTime");
        reveal_strlit("sigma.");
        reveal_strlit("-");
        reveal_strlit("T");
        reveal_strlit("Z");
        reveal_strlit(" ");
        reveal_strlit("");
    }
    match geo {
        GeoLookup::Unresolved(ip) => {
            if eq_str(expr, "SrcASN") || eq_str(expr, "SrcCity") || eq_str(expr, "SrcCountry") {
                return ip.clone();
            }
        },
        GeoLookup::Found { asn, city, country } => {
            if eq_str(expr, "SrcASN") {
                return asn.clone();
            } else if eq_str(expr, "SrcCity") {
                return city.clone();
            } else if eq_str(expr, "SrcCountry") {
                return country.clone();
            }
        },
        GeoLookup::Off => {},
    }
    let n = expr.unicode_len();
    if n > 0 && expr.get_char(0) == '.' {
        match field {
            None => to_owned_string("-"),
            Some(v) => {
                let path = expr.substring_char(1, n);
                assert(path@ =~= expr@.drop_first());
                if eq_str(path, "eventTime") {
                    let t = replace_str(v.as_str(), "T", " ");
                    replace_str(t.as_str(), "Z", "")
                } else {
                    v.clone()
                }
            },
        }
    } else if starts_with_str(expr, "sigma.") {
        let name = replace_str(expr, "sigma.", "");
        rule_field(meta, name.as_str())
    } else {
        to_owned_string("-")
    }
}

/// The value of an output column for an event and the rule it matched,
/// reading the event's field when the expression is a `.path`.
pub fn column_value(expr: &str, event: &sigma_rust::Event, meta: &RuleMeta, geo: &GeoLookup) -> (r: String)
    ensures
        shows_column(r@, expr@, *meta, *geo),
{
    let n = expr.unicode_len();
    let field = if n > 0 && expr.get_char(0) == '.' {
        crate::rules::event_field(event, expr.substring_char(1, n))
    } else {
        None
    };
    let r = render_column(expr, &field, meta, geo);
    assert(r@ == column_spec(expr@, crate::rule::opt_str(field), *meta, *geo));
    assert(shows_column(r@, expr@, *meta, *geo));
    r
}

/// One output row: a value per profile column, in profile order.
pub fn project_record(
    profile: &Vec<(String, String)>,
    event: &sigma_rust::Event,
    meta: &RuleMeta,
    geo: &GeoLookup,
) -> (r: Vec<String>)
    ensures
        r@.len() == profile@.len(),
        forall|i: int| 0 <= i < profile@.len() ==> #[trigger] shows_column(r@[i]@, profile@[i].1@, *meta, *geo),
{
    let mut out: Vec<String> = Vec::new();
    let mut i: usize = 0;
    while i < profile.len()
        invariant
            0 <= i <= profile@.len(),
            out@.len() == i,
            forall|q: int| 0 <= q < i ==> #[trigger] shows_column(out@[q]@, profile@[q].1@, *meta, *geo),
        decreases profile@.len() - i,
    {
        let v = column_value(profile[i].1.as_str(), event, meta, geo);
        assert(shows_column(v@, profile@[i as int].1@, *meta, *geo));
        out.push(v);
        i = i + 1;
    }
    out
}

/// Whether a column expression reads rule metadata.
pub open spec fn is_sigma_expr(e: Seq<char>) -> bool {
    e.len() >= 6 && e.subrange(0, 6) == "sigma."@
}

pub open spec fn sigma_pred() -> spec_fn((Seq<char>, Seq<char>)) -> bool {
    |c: (Seq<char>, Seq<char>)| is_sigma_expr(c.1)
}

/// The profile columns whose expression reads rule metadata, in order; raw
/// output adds these to the input document.
pub fn sigma_columns(profile: &Vec<(String, String)>) -> (r: Vec<(String, String)>)
    ensures
        column_views(r@) == column_views(profile@).filter(sigma_pred()),
{
    let ghost cv = column_views(profile@);
    let mut out: Vec<(String, String)> = Vec::new();
    let mut i: usize = 0;
    while i < profile.len()
        invariant
            0 <= i <= profile@.len(),
            cv == column_views(profile@),
            column_views(out@) == cv.subrange(0, i as int).filter(sigma_pred()),
        decreases profile@.len() - i,
    {
        proof {
            reveal_strlit("sigma.");
        }
        let keep = starts_with_str(profile[i].1.as_str(), "sigma.");
        let ghost before = column_views(out@);
        if keep {
            out.push((profile[i].0.clone(), profile[i].1.clone()));
        }
        assert(column_views(out@) == cv.subrange(0, i + 1).filter(sigma_pred())) by {
            reveal(Seq::filter);
            assert(cv.subrange(0, i + 1).drop_last() =~= cv.subrange(0, i as int));
            assert(cv.subrange(0, i + 1).last() == cv[i as int]);
            if keep {
                assert(column_views(out@) =~= before.push(cv[i as int]));
            } else {
                assert(column_views(out@) =~= before);
            }
        }
        i = i + 1;
    }
    assert(cv.subrange(0, profile@.len() as int) =~= cv);
    out
}

} // verus!
