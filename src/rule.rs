use vstd::prelude::*;

verus! {

/// The view of an optional string.
pub open spec fn opt_str(o: Option<String>) -> Option<Seq<char>> {
    match o {
        Some(s) => Some(s@),
        None => None,
    }
}

/// What the pipeline reads of a rule besides its match predicate: the
/// metadata shown in output columns and counted in the summary.
pub struct RuleMeta {
    pub title: String,
    pub id: Option<String>,
    pub status: Option<String>,
    pub author: Option<String>,
    pub description: Option<String>,
    pub references: Option<Vec<String>>,
    pub date: Option<String>,
    pub modified: Option<String>,
    pub tags: Option<Vec<String>>,
    pub falsepositives: Option<Vec<String>>,
    /// Lower-case level name, such as `high`.
    pub level: Option<String>,
}

} // verus!
