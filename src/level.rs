use vstd::prelude::*;
use crate::color::SuzakuColor;
use crate::text::{eq_str, lower_of, to_lower};

verus! {

/// Rank of a level name: 1 (informational) to 5 (critical), 0 for an unknown name.
/// Full names and their short forms are both accepted; the name is compared as given.
pub open spec fn level_rank_spec(s: Seq<char>) -> u8 {
    if s == "info"@ || s == "informational"@ {
        1
    } else if s == "low"@ {
        2
    } else if s == "med"@ || s == "medium"@ {
        3
    } else if s == "high"@ {
        4
    } else if s == "crit"@ || s == "critical"@ {
        5
    } else {
        0
    }
}

/// Rank of a level name that is already in lower case.
pub fn level_rank_lowered(s: &str) -> (r: u8)
    ensures
        r == level_rank_spec(s@),
{
    proof {
        reveal_strlit("info");
        reveal_strlit("informational");
        reveal_strlit("low");
        reveal_strlit("med");
        reveal_strlit("medium");
        reveal_strlit("high");
        reveal_strlit("crit");
        reveal_strlit("critical");
    }
    if eq_str(s, "info") || eq_str(s, "informational") {
        1
    } else if eq_str(s, "low") {
        2
    } else if eq_str(s, "med") || eq_str(s, "medium") {
        3
    } else if eq_str(s, "high") {
        4
    } else if eq_str(s, "crit") || eq_str(s, "critical") {
        5
    } else {
        0
    }
}

/// Rank of a level name in any letter case (0 for an unknown name).
pub fn level_to_int(level: &str) -> (r: u8)
    ensures
        r == level_rank_spec(lower_of(level@)),
{
    let lowered = to_lower(level);
    level_rank_lowered(lowered.as_str())
}

/// The level names accepted as a minimum level, compared as given.
pub open spec fn is_valid_level_name(s: Seq<char>) -> bool {
    level_rank_spec(s) != 0
}

/// Whether a minimum-level option names a level.
pub fn validate_min_level(min_level: &str) -> (r: bool)
    ensures
        r == is_valid_level_name(min_level@),
{
    level_rank_lowered(min_level) != 0
}

/// Short form of a lower-case level name, as shown in console columns.
pub open spec fn abbreviate_spec(s: Seq<char>) -> Seq<char> {
    if s == "critical"@ {
        "crit"@
    } else if s == "medium"@ {
        "med"@
    } else if s == "informational"@ {
        "info"@
    } else {
        s
    }
}

pub fn abbreviate_level<'a>(level: &'a str) -> (r: &'a str)
    ensures
        r@ == abbreviate_spec(level@),
{
    proof {
        reveal_strlit("critical");
        reveal_strlit("crit");
        reveal_strlit("medium");
        reveal_strlit("med");
        reveal_strlit("informational");
        reveal_strlit("info");
    }
    if eq_str(level, "critical") {
        "crit"
    } else if eq_str(level, "medium") {
        "med"
    } else if eq_str(level, "informational") {
        "info"
    } else {
        level
    }
}

/// Console color of an abbreviated level name.
pub open spec fn level_color_spec(s: Seq<char>) -> SuzakuColor {
    if s == "crit"@ {
        SuzakuColor::Red
    } else if s == "high"@ {
        SuzakuColor::Orange
    } else if s == "med"@ {
        SuzakuColor::Yellow
    } else if s == "low"@ {
        SuzakuColor::Green
    } else {
        SuzakuColor::White
    }
}

pub fn get_level_color(level: &str) -> (r: SuzakuColor)
    ensures
        r == level_color_spec(level@),
{
    proof {
        reveal_strlit("crit");
        reveal_strlit("high");
        reveal_strlit("med");
        reveal_strlit("low");
    }
    if eq_str(level, "crit") {
        SuzakuColor::Red
    } else if eq_str(level, "high") {
        SuzakuColor::Orange
    } else if eq_str(level, "med") {
        SuzakuColor::Yellow
    } else if eq_str(level, "low") {
        SuzakuColor::Green
    } else {
        SuzakuColor::White
    }
}

} // verus!
