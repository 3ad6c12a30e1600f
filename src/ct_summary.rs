use vstd::prelude::*;
use crate::aggregate::lex_le;
use crate::text::{append_str, eq_str};

verus! {

/// Strict lexicographic order of character sequences by code point.
pub open spec fn lex_lt(a: Seq<char>, b: Seq<char>) -> bool {
    lex_le(a, b) && a != b
}

proof fn lemma_lex_suffix(a: Seq<char>, b: Seq<char>, i: int)
    requires
        0 <= i <= a.len(),
        i <= b.len(),
        forall|j: int| 0 <= j < i ==> a[j] == b[j],
    ensures
        lex_le(a, b) == lex_le(a.subrange(i, a.len() as int), b.subrange(i, b.len() as int)),
    decreases i,
{
    if i > 0 {
        assert(a[0] == b[0]);
        lemma_lex_suffix(a.drop_first(), b.drop_first(), i - 1);
        assert(a.drop_first().subrange(i - 1, a.len() - 1) =~= a.subrange(i, a.len() as int));
        assert(b.drop_first().subrange(i - 1, b.len() - 1) =~= b.subrange(i, b.len() as int));
    } else {
        assert(a.subrange(0, a.len() as int) =~= a);
        assert(b.subrange(0, b.len() as int) =~= b);
    }
}

/// Whether `a` comes strictly before `b` in code-point order, which is the
/// order of `str`.
fn str_lt(a: &str, b: &str) -> (r: bool)
    ensures
        r == lex_lt(a@, b@),
{
    let n = a.unicode_len();
    let m = b.unicode_len();
    let mut i: usize = 0;
    while i < n && i < m && a.get_char(i) == b.get_char(i)
        invariant
            n == a@.len(),
            m == b@.len(),
            0 <= i <= n,
            i <= m,
            forall|j: int| 0 <= j < i ==> a@[j] == b@[j],
        decreases n - i,
    {
        i = i + 1;
    }
    proof {
        lemma_lex_suffix(a@, b@, i as int);
    }
    let ghost sa = a@.subrange(i as int, n as int);
    let ghost sb = b@.subrange(i as int, m as int);
    if i == n {
        assert(sa.len() == 0);
        if i == m {
            assert(a@ =~= b@);
        } else {
            assert(a@.len() != b@.len());
        }
        i < m
    } else if i == m {
        assert(sb.len() == 0 && sa.len() > 0);
        false
    } else {
        let ca = a.get_char(i);
        let cb = b.get_char(i);
        assert(sa[0] == ca && sb[0] == cb && ca != cb);
        assert(a@[i as int] != b@[i as int]);
        (ca as u32) < (cb as u32)
    }
}

/// How often a value was seen, with the account's first and last instants
/// as they stood when the value was first seen.
pub struct KeyStats {
    pub key: String,
    pub count: usize,
    pub first: String,
    pub last: String,
}

/// The view of a [`KeyStats`]: (key, count, first, last).
pub type KeyStatsView = (Seq<char>, nat, Seq<char>, Seq<char>);

/// Tallies of values, in order of first occurrence.
pub struct KeyTally {
    entries: Vec<KeyStats>,
}

/// The first position holding `key`, if any.
pub open spec fn first_index(s: Seq<KeyStatsView>, key: Seq<char>) -> Option<int> {
    if exists|i: int| 0 <= i < s.len() && s[i].0 == key {
        Some(choose|i: int| 0 <= i < s.len() && s[i].0 == key && forall|j: int| 0 <= j < i ==> s[j].0 != key)
    } else {
        None
    }
}

/// The tallies after one more occurrence of `key`: its count goes up by one
/// (held at the largest `usize`), or it is added with count 1 and the given
/// instants.
pub open spec fn tally_spec(s: Seq<KeyStatsView>, key: Seq<char>, first: Seq<char>, last: Seq<char>) -> Seq<
    KeyStatsView,
> {
    match first_index(s, key) {
        Some(i) => s.update(i, (key, crate::counter::sat_inc(s[i].1), s[i].2, s[i].3)),
        None => s.push((key, 1, first, last)),
    }
}

impl KeyTally {
    pub closed spec fn view(&self) -> Seq<KeyStatsView> {
        self.entries@.map_values(|e: KeyStats| (e.key@, e.count as nat, e.first@, e.last@))
    }

    pub fn new() -> (r: Self)
        ensures
            r.view() == Seq::<KeyStatsView>::empty(),
    {
        let r = KeyTally { entries: Vec::new() };
        assert(r.view() =~= Seq::<KeyStatsView>::empty());
        r
    }

    pub fn len(&self) -> (r: usize)
        ensures
            r == self.view().len(),
    {
        self.entries.len()
    }

    pub fn entry(&self, i: usize) -> (r: &KeyStats)
        requires
            i < self.view().len(),
        ensures
            (r.key@, r.count as nat, r.first@, r.last@) == self.view()[i as int],
    {
        &self.entries[i]
    }

    /// Counts one more occurrence of `key`; see [`tally_spec`].
    pub fn tally(&mut self, key: &str, first: &String, last: &String)
        ensures
            final(self).view() == tally_spec(old(self).view(), key@, first@, last@),
    {
        let ghost s = self.view();
        let mut i: usize = 0;
        while i < self.entries.len() && !eq_str(self.entries[i].key.as_str(), key)
            invariant
                s == self.view(),
                0 <= i <= s.len(),
                forall|j: int| 0 <= j < i ==> s[j].0 != key@,
            decreases s.len() - i,
        {
            i = i + 1;
        }
        if i < self.entries.len() {
            assert(s[i as int].0 == key@);
            let ghost c = choose|c: int| 0 <= c < s.len() && s[c].0 == key@ && forall|j: int| 0 <= j < c ==> s[j].0 != key@;
            assert(c == i) by {
                if c < i {
                    assert(s[c].0 != key@);
                }
                if i < c {
                    assert(s[i as int].0 != key@);
                }
            }
            let mut e = self.entries.remove(i);
            if e.count < usize::MAX {
                e.count = e.count + 1;
            }
            self.entries.insert(i, e);
            assert(self.view() =~= tally_spec(s, key@, first@, last@));
        } else {
            self.entries.push(
                KeyStats { key: crate::text::to_owned_string(key), count: 1, first: first.clone(), last: last.clone() },
            );
            assert(self.view() =~= tally_spec(s, key@, first@, last@));
        }
    }
}

/// The mathematical content of a [`CTSummary`].
pub struct CTSummaryModel {
    pub num_of_events: nat,
    pub first_timestamp: Seq<char>,
    pub last_timestamp: Seq<char>,
    pub abused_api_success: Seq<KeyStatsView>,
    pub abused_api_failed: Seq<KeyStatsView>,
    pub other_api_success: Seq<KeyStatsView>,
    pub other_api_failed: Seq<KeyStatsView>,
    pub aws_regions: Seq<KeyStatsView>,
    pub src_ips: Seq<KeyStatsView>,
    pub user_types: Seq<char>,
    pub access_key_ids: Seq<KeyStatsView>,
    pub user_agents: Seq<KeyStatsView>,
}

/// What one CloudTrail event of an account contributes to its summary.
pub struct AccountEvent {
    pub event_time: String,
    pub aws_region: String,
    pub source_ip: String,
    pub user_type: String,
    pub access_key_id: String,
    pub user_agent: String,
    /// `name (source) - description` of an abused API call that succeeded, or empty.
    pub abused_api_success: String,
    pub abused_api_failed: String,
    /// `name (source)` of another API call that succeeded, or empty.
    pub other_api_success: String,
    pub other_api_failed: String,
}

/// A tally that is left alone for an empty value.
pub open spec fn tally_nonempty(s: Seq<KeyStatsView>, key: Seq<char>, first: Seq<char>, last: Seq<char>) -> Seq<
    KeyStatsView,
> {
    if key.len() == 0 {
        s
    } else {
        tally_spec(s, key, first, last)
    }
}

/// The summary after one event: the event count goes up, the first and
/// last instants widen (an empty one is replaced), every value is tallied
/// with the widened instants, the API tallies only for non-empty values, and
/// the user type becomes the event's.
pub open spec fn add_event_spec(m: CTSummaryModel, e: AccountEvent) -> CTSummaryModel {
    let t = e.event_time@;
    let first = if m.first_timestamp.len() == 0 || lex_lt(t, m.first_timestamp) { t } else { m.first_timestamp };
    let last = if m.last_timestamp.len() == 0 || lex_lt(m.last_timestamp, t) { t } else { m.last_timestamp };
    CTSummaryModel {
        num_of_events: crate::counter::sat_inc(m.num_of_events),
        first_timestamp: first,
        last_timestamp: last,
        aws_regions: tally_spec(m.aws_regions, e.aws_region@, first, last),
        src_ips: tally_spec(m.src_ips, e.source_ip@, first, last),
        user_types: e.user_type@,
        access_key_ids: tally_spec(m.access_key_ids, e.access_key_id@, first, last),
        user_agents: tally_spec(m.user_agents, e.user_agent@, first, last),
        abused_api_success: tally_nonempty(m.abused_api_success, e.abused_api_success@, first, last),
        abused_api_failed: tally_nonempty(m.abused_api_failed, e.abused_api_failed@, first, last),
        other_api_success: tally_nonempty(m.other_api_success, e.other_api_success@, first, last),
        other_api_failed: tally_nonempty(m.other_api_failed, e.other_api_failed@, first, last),
    }
}

/// The activity summary of one account (user ARN) in CloudTrail logs.
pub struct CTSummary {
    pub num_of_events: usize,
    pub first_timestamp: String,
    pub last_timestamp: String,
    pub abused_api_success: KeyTally,
    pub abused_api_failed: KeyTally,
    pub other_api_success: KeyTally,
    pub other_api_failed: KeyTally,
    pub aws_regions: KeyTally,
    pub src_ips: KeyTally,
    pub user_types: String,
    pub access_key_ids: KeyTally,
    pub user_agents: KeyTally,
}

impl CTSummary {
    pub open spec fn view(&self) -> CTSummaryModel {
        CTSummaryModel {
            num_of_events: self.num_of_events as nat,
            first_timestamp: self.first_timestamp@,
            last_timestamp: self.last_timestamp@,
            abused_api_success: self.abused_api_success.view(),
            abused_api_failed: self.abused_api_failed.view(),
            other_api_success: self.other_api_success.view(),
            other_api_failed: self.other_api_failed.view(),
            aws_regions: self.aws_regions.view(),
            src_ips: self.src_ips.view(),
            user_types: self.user_types@,
            access_key_ids: self.access_key_ids.view(),
            user_agents: self.user_agents.view(),
        }
    }

    pub fn new() -> (r: Self)
        ensures
            r.view().num_of_events == 0,
            r.view().first_timestamp.len() == 0,
            r.view().last_timestamp.len() == 0,
            r.view().aws_regions.len() == 0,
            r.view().src_ips.len() == 0,
            r.view().access_key_ids.len() == 0,
            r.view().user_agents.len() == 0,
            r.view().abused_api_success.len() == 0,
            r.view().abused_api_failed.len() == 0,
            r.view().other_api_success.len() == 0,
            r.view().other_api_failed.len() == 0,
    {
        CTSummary {
            num_of_events: 0,
            first_timestamp: String::new(),
            last_timestamp: String::new(),
            abused_api_success: KeyTally::new(),
            abused_api_failed: KeyTally::new(),
            other_api_success: KeyTally::new(),
            other_api_failed: KeyTally::new(),
            aws_regions: KeyTally::new(),
            src_ips: KeyTally::new(),
            user_types: String::new(),
            access_key_ids: KeyTally::new(),
            user_agents: KeyTally::new(),
        }
    }

    /// Records one event of the account; see [`add_event_spec`].
    pub fn add_event(&mut self, e: AccountEvent)
        ensures
            final(self).view() == add_event_spec(old(self).view(), e),
    {
        let ghost m0 = self.view();
        let ghost e0 = e;
        if self.num_of_events < usize::MAX {
            self.num_of_events = self.num_of_events + 1;
        }
        if self.first_timestamp.unicode_len() == 0 || str_lt(e.event_time.as_str(), self.first_timestamp.as_str()) {
            self.first_timestamp = e.event_time.clone();
        }
        if self.last_timestamp.unicode_len() == 0 || str_lt(self.last_timestamp.as_str(), e.event_time.as_str()) {
            self.last_timestamp = e.event_time.clone();
        }
        self.aws_regions.tally(e.aws_region.as_str(), &self.first_timestamp, &self.last_timestamp);
        self.src_ips.tally(e.source_ip.as_str(), &self.first_timestamp, &self.last_timestamp);
        self.user_types = e.user_type;
        self.access_key_ids.tally(e.access_key_id.as_str(), &self.first_timestamp, &self.last_timestamp);
        self.user_agents.tally(e.user_agent.as_str(), &self.first_timestamp, &self.last_timestamp);
        if e.abused_api_success.unicode_len() > 0 {
            self.abused_api_success.tally(e.abused_api_success.as_str(), &self.first_timestamp, &self.last_timestamp);
        }
        if e.abused_api_failed.unicode_len() > 0 {
            self.abused_api_failed.tally(e.abused_api_failed.as_str(), &self.first_timestamp, &self.last_timestamp);
        }
        if e.other_api_success.unicode_len() > 0 {
            self.other_api_success.tally(e.other_api_success.as_str(), &self.first_timestamp, &self.last_timestamp);
        }
        if e.other_api_failed.unicode_len() > 0 {
            self.other_api_failed.tally(e.other_api_failed.as_str(), &self.first_timestamp, &self.last_timestamp);
        }
        assert(self.view() =~= add_event_spec(m0, e0));
    }
}

/// `name (source)`.
pub open spec fn api_label_spec(name: Seq<char>, source: Seq<char>) -> Seq<char> {
    name + " ("@ + source + ")"@
}

pub fn api_label(name: &str, source: &str) -> (r: String)
    ensures
        r@ == api_label_spec(name@, source@),
{
    let mut r = crate::text::to_owned_string(name);
    append_str(&mut r, " (");
    append_str(&mut r, source);
    append_str(&mut r, ")");
    r
}

/// The four API columns of an event: an API call listed as commonly abused
/// (it has a description) goes to the abused pair as `name (source) -
/// description`, any other to the other pair as `name (source)`; the
/// `AccessDenied` error code makes it a failure. The three others are empty.
pub open spec fn classify_spec(
    name: Seq<char>,
    source: Seq<char>,
    error_code: Seq<char>,
    abused: Option<Seq<char>>,
) -> (Seq<char>, Seq<char>, Seq<char>, Seq<char>) {
    let denied = error_code == "AccessDenied"@;
    let label = api_label_spec(name, source);
    match abused {
        Some(d) => {
            let l = label + " - "@ + d;
            if denied { (seq![], l, seq![], seq![]) } else { (l, seq![], seq![], seq![]) }
        },
        None => if denied { (seq![], seq![], seq![], label) } else { (seq![], seq![], label, seq![]) },
    }
}

pub fn classify_api_call(name: &str, source: &str, error_code: &str, abused: &Option<String>) -> (r: (
    String,
    String,
    String,
    String,
))
    ensures
        (r.0@, r.1@, r.2@, r.3@) == classify_spec(name@, source@, error_code@, crate::rule::opt_str(*abused)),
{
    proof {
        reveal_strlit("AccessDenied");
    }
    let denied = eq_str(error_code, "AccessDenied");
    let mut label = api_label(name, source);
    match abused {
        Some(d) => {
            append_str(&mut label, " - ");
            append_str(&mut label, d.as_str());
            if denied {
                (String::new(), label, String::new(), String::new())
            } else {
                (label, String::new(), String::new(), String::new())
            }
        },
        None => if denied {
            (String::new(), String::new(), String::new(), label)
        } else {
            (String::new(), String::new(), label, String::new())
        },
    }
}

/// Temporary STS access keys (prefix `ASIA`) are left out unless asked for.
pub fn skips_access_key(key: &str, include_sts: bool) -> (r: bool)
    ensures
        r == (!include_sts && key@.len() >= 4 && key@.subrange(0, 4) == "ASIA"@),
{
    proof {
        reveal_strlit("ASIA");
    }
    !include_sts && crate::text::starts_with_str(key, "ASIA")
}

} // verus!
