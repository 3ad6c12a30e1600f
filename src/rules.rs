use vstd::prelude::*;
use crate::level::{level_rank_spec, level_to_int};
use crate::rule::{opt_str, RuleMeta};
use crate::text::lower_of;

verus! {

#[verifier::external_type_specification]
#[verifier::external_body]
pub struct ExRule(sigma_rust::Rule);

#[verifier::external_type_specification]
#[verifier::external_body]
pub struct ExEvent(sigma_rust::Event);

/// Relies on sigma_rust::Rule::is_match: whether the rule's detection holds
/// for the event.
#[verifier::external_body]
fn rule_is_match(rule: &sigma_rust::Rule, event: &sigma_rust::Event) -> bool {
    rule.is_match(event)
}

/// Relies on sigma_rust::Event::get and EventValue::value_to_string: the
/// text of a field, addressed by a dot-separated path.
#[verifier::external_body]
pub(crate) fn event_field(event: &sigma_rust::Event, path: &str) -> Option<String> {
    match event.get(path) {
        Some(v) => Some(v.value_to_string()),
        None => None,
    }
}

/// Relies on the public fields of sigma_rust::Rule: copies its title, id,
/// author, description, date and modified.
#[verifier::external_body]
fn rule_text_fields(
    rule: &sigma_rust::Rule,
) -> (String, Option<String>, Option<String>, Option<String>, Option<String>, Option<String>) {
    (
        rule.title.clone(),
        rule.id.clone(),
        rule.author.clone(),
        rule.description.clone(),
        rule.date.clone(),
        rule.modified.clone(),
    )
}

/// Relies on the public fields of sigma_rust::Rule: copies its references,
/// tags and false positives.
#[verifier::external_body]
fn rule_list_fields(rule: &sigma_rust::Rule) -> (Option<Vec<String>>, Option<Vec<String>>, Option<Vec<String>>) {
    (rule.references.clone(), rule.tags.clone(), rule.falsepositives.clone())
}

/// Relies on sigma_rust::rule::Status's `Debug`: the rule's status by the
/// name of its variant, such as `Stable`.
#[verifier::external_body]
fn rule_status(rule: &sigma_rust::Rule) -> Option<String> {
    match &rule.status {
        Some(s) => Some(format!("{s:?}")),
        None => None,
    }
}

/// Relies on sigma_rust::rule::Level's `Debug`: the rule's level by the name
/// of its variant, such as `High`.
#[verifier::external_body]
fn rule_level(rule: &sigma_rust::Rule) -> Option<String> {
    match &rule.level {
        Some(l) => Some(format!("{l:?}")),
        None => None,
    }
}

/// Relies on the public field sigma_rust::Rule::logsource: copies its
/// `service`.
#[verifier::external_body]
pub(crate) fn rule_service(rule: &sigma_rust::Rule) -> Option<String> {
    rule.logsource.service.clone()
}

/// Whether a rule document defines a correlation: some line holds
/// `correlation:` (at any indentation, so anywhere in the text).
pub fn contains_correlation_key(yaml_content: &str) -> (r: bool)
    ensures
        r == crate::text::seq_contains(yaml_content@, "correlation:"@),
{
    crate::text::contains_str(yaml_content, "correlation:")
}

/// A loaded detection rule: its metadata and its match predicate.
pub struct LoadedRule {
    pub meta: RuleMeta,
    /// The rule's `logsource.service`.
    pub service: Option<String>,
    pub rule: sigma_rust::Rule,
}

impl LoadedRule {
    /// Takes a parsed sigma rule, reading its metadata once.
    pub fn from_rule(rule: sigma_rust::Rule) -> LoadedRule {
        let (title, id, author, description, date, modified) = rule_text_fields(&rule);
        let (references, tags, falsepositives) = rule_list_fields(&rule);
        let status = rule_status(&rule);
        let level = match rule_level(&rule) {
            Some(l) => Some(crate::text::to_lower(l.as_str())),
            None => None,
        };
        let meta = RuleMeta {
            title,
            id,
            status,
            author,
            description,
            references,
            date,
            modified,
            tags,
            falsepositives,
            level,
        };
        let service = rule_service(&rule);
        LoadedRule { meta, service, rule }
    }

    /// Whether the rule matches an event.
    pub fn is_match(&self, event: &sigma_rust::Event) -> bool {
        rule_is_match(&self.rule, event)
    }
}

/// Whether a rule's level reaches a minimum level given by name (both in
/// any letter case). A rule without a level never does; a minimum that names no
/// level ranks 0, which every level reaches.
pub open spec fn keeps_level(meta: RuleMeta, min_level: Seq<char>) -> bool {
    match opt_str(meta.level) {
        Some(l) => level_rank_spec(lower_of(l)) >= level_rank_spec(lower_of(min_level)),
        None => false,
    }
}

/// [`keeps_level`] as a predicate on loaded rules.
pub open spec fn level_pred(min_level: Seq<char>) -> spec_fn(LoadedRule) -> bool {
    |x: LoadedRule| keeps_level(x.meta, min_level)
}

/// The rules whose level reaches the minimum, in their order.
pub fn filter_rules_by_level(rules: Vec<LoadedRule>, min_level: &str) -> (r: Vec<LoadedRule>)
    ensures
        r@ == rules@.filter(level_pred(min_level@)),
{
    let min = level_to_int(min_level);
    let ghost orig = rules@;
    let ghost pred = level_pred(min_level@);
    let mut rules = rules;
    let n0 = rules.len();
    let mut out: Vec<LoadedRule> = Vec::new();
    let mut i: usize = 0;
    while rules.len() > 0
        invariant
            0 <= i <= orig.len(),
            rules@ == orig.subrange(i as int, orig.len() as int),
            out@ == orig.subrange(0, i as int).filter(pred),
            min == level_rank_spec(lower_of(min_level@)),
            orig.len() == n0,
            pred == level_pred(min_level@),
        decreases rules@.len(),
    {
        assert(i < orig.len());
        let r = rules.remove(0);
        assert(r == orig[i as int]);
        let keep = match &r.meta.level {
            Some(l) => level_to_int(l.as_str()) >= min,
            None => false,
        };
        assert(keep == keeps_level(r.meta, min_level@));
        assert(pred(r) == keeps_level(r.meta, min_level@));
        let ghost prev = out@;
        if keep {
            out.push(r);
        }
        assert(out@ == orig.subrange(0, i + 1).filter(pred)) by {
            reveal(Seq::filter);
            assert(orig.subrange(0, i + 1).drop_last() =~= orig.subrange(0, i as int));
            assert(orig.subrange(0, i + 1).last() == r);
        }
        i = i + 1;
        assert(orig.subrange(i as int, orig.len() as int) =~= rules@);
    }
    assert(orig.subrange(0, i as int) =~= orig);
    out
}

/// The positions `j < n` with `flags[j]`, in increasing order.
pub open spec fn hit_positions(flags: Seq<bool>, n: nat) -> Seq<usize>
    decreases n,
{
    if n == 0 {
        seq![]
    } else {
        hit_positions(flags, (n - 1) as nat) + if flags[n - 1] {
            seq![(n - 1) as usize]
        } else {
            seq![]
        }
    }
}

/// The positions are below `n` and increasing.
pub proof fn lemma_hit_positions(flags: Seq<bool>, n: nat)
    requires
        n <= flags.len(),
        n <= usize::MAX,
    ensures
        forall|j: int| 0 <= j < hit_positions(flags, n).len() ==> #[trigger] hit_positions(flags, n)[j] < n,
        forall|j: int, k: int|
            0 <= j < k < hit_positions(flags, n).len() ==> hit_positions(flags, n)[j] < hit_positions(flags, n)[k],
    decreases n,
{
    if n > 0 {
        let m = (n - 1) as nat;
        lemma_hit_positions(flags, m);
        let prev = hit_positions(flags, m);
        let tail: Seq<usize> = if flags[m as int] { seq![m as usize] } else { seq![] };
        assert(hit_positions(flags, n) == prev + tail);
        assert forall|j: int| 0 <= j < hit_positions(flags, n).len() implies #[trigger] hit_positions(flags, n)[j] < n by {
            if j < prev.len() {
                assert(hit_positions(flags, n)[j] == prev[j]);
            } else {
                assert(hit_positions(flags, n)[j] == tail[j - prev.len()]);
            }
        }
        assert forall|j: int, k: int|
            0 <= j < k < hit_positions(flags, n).len() implies hit_positions(flags, n)[j] < hit_positions(flags, n)[k] by {
            if k < prev.len() {
                assert(hit_positions(flags, n)[j] == prev[j]);
                assert(hit_positions(flags, n)[k] == prev[k]);
            } else {
                assert(hit_positions(flags, n)[j] == prev[j]);
                assert(hit_positions(flags, n)[k] == tail[k - prev.len()]);
                assert(prev[j] < m);
            }
        }
    }
}

/// Rule `j` matches when it applies to the event's service and its
/// predicate held (`hits[j]`).
pub open spec fn match_flags(rules: Seq<LoadedRule>, category: Option<Seq<char>>, hits: Seq<bool>) -> Seq<bool> {
    Seq::new(
        rules.len(),
        |j: int| crate::log_source::service_matches_spec(opt_str(rules[j].service), category) && hits[j],
    )
}

/// Whether each rule's predicate holds for the event.
pub(crate) fn rule_hits(rules: &Vec<LoadedRule>, event: &sigma_rust::Event) -> (r: Vec<bool>)
    ensures
        r@.len() == rules@.len(),
{
    let mut out: Vec<bool> = Vec::new();
    let mut i: usize = 0;
    while i < rules.len()
        invariant
            0 <= i <= rules@.len(),
            out@.len() == i,
        decreases rules@.len() - i,
    {
        out.push(rules[i].is_match(event));
        i = i + 1;
    }
    out
}

/// The positions of the matching rules, in increasing order; see
/// [`match_flags`].
pub fn select_matches(rules: &Vec<LoadedRule>, category: &Option<String>, hits: &Vec<bool>) -> (r: Vec<usize>)
    requires
        hits@.len() == rules@.len(),
    ensures
        r@ == hit_positions(match_flags(rules@, opt_str(*category), hits@), rules@.len()),
{
    let ghost flags = match_flags(rules@, opt_str(*category), hits@);
    let mut out: Vec<usize> = Vec::new();
    let mut i: usize = 0;
    while i < rules.len()
        invariant
            0 <= i <= rules@.len(),
            hits@.len() == rules@.len(),
            flags == match_flags(rules@, opt_str(*category), hits@),
            out@ == hit_positions(flags, i as nat),
        decreases rules@.len() - i,
    {
        if crate::log_source::service_matches(&rules[i].service, category) && hits[i] {
            out.push(i);
        }
        assert(out@ =~= hit_positions(flags, (i + 1) as nat));
        i = i + 1;
    }
    out
}

/// Positions of the rules that match an event, in increasing order. A rule
/// matches only an event of its service, judged by the event's `category`
/// value; see [`select_matches`].
pub fn match_event(rules: &Vec<LoadedRule>, event: &sigma_rust::Event, category: &Option<String>) -> (r: Vec<usize>)
    ensures
        exists|hits: Seq<bool>|
            hits.len() == rules@.len() && r@ == hit_positions(match_flags(rules@, opt_str(*category), hits), rules@.len()),
        forall|j: int| 0 <= j < r@.len() ==> #[trigger] r@[j] < rules@.len(),
        forall|j: int, k: int| 0 <= j < k < r@.len() ==> r@[j] < r@[k],
{
    let hits = rule_hits(rules, event);
    let n = rules.len();
    let r = select_matches(rules, category, &hits);
    proof {
        lemma_hit_positions(match_flags(rules@, opt_str(*category), hits@), rules@.len());
    }
    r
}

} // verus!
