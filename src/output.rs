use vstd::prelude::*;
use crate::text::{replace_spec, replace_str};

verus! {

/// How results are saved: which of the CSV, JSON and JSON-lines sinks are on.
#[derive(Clone, Copy, Debug, PartialEq, Eq, Structural)]
pub enum OutputType {
    Csv,
    Json,
    Jsonl,
    CsvAndJson,
    CsvAndJsonl,
}

/// The sinks a saved scan writes to.
#[derive(Clone, Copy, Debug, PartialEq, Eq, Structural)]
pub struct Sinks {
    pub csv: bool,
    pub json: bool,
    pub jsonl: bool,
}

impl OutputType {
    pub open spec fn from_u8_spec(value: u8) -> Option<OutputType> {
        if value == 1 {
            Some(OutputType::Csv)
        } else if value == 2 {
            Some(OutputType::Json)
        } else if value == 3 {
            Some(OutputType::Jsonl)
        } else if value == 4 {
            Some(OutputType::CsvAndJson)
        } else if value == 5 {
            Some(OutputType::CsvAndJsonl)
        } else {
            None
        }
    }

    /// The output type of a command-line code: 1 CSV, 2 JSON, 3 JSONL,
    /// 4 CSV and JSON, 5 CSV and JSONL; none for another code.
    pub fn from_u8(value: u8) -> (r: Option<OutputType>)
        ensures
            r == Self::from_u8_spec(value),
    {
        match value {
            1 => Some(OutputType::Csv),
            2 => Some(OutputType::Json),
            3 => Some(OutputType::Jsonl),
            4 => Some(OutputType::CsvAndJson),
            5 => Some(OutputType::CsvAndJsonl),
            _ => None,
        }
    }

    pub open spec fn sinks_spec(self) -> Sinks {
        Sinks {
            csv: self is Csv || self is CsvAndJson || self is CsvAndJsonl,
            json: self is Json || self is CsvAndJson,
            jsonl: self is Jsonl || self is CsvAndJsonl,
        }
    }

    /// The independent sinks this output type turns on.
    pub fn sinks(&self) -> (r: Sinks)
        ensures
            r == self.sinks_spec(),
    {
        match self {
            OutputType::Csv => Sinks { csv: true, json: false, jsonl: false },
            OutputType::Json => Sinks { csv: false, json: true, jsonl: false },
            OutputType::Jsonl => Sinks { csv: false, json: false, jsonl: true },
            OutputType::CsvAndJson => Sinks { csv: true, json: true, jsonl: false },
            OutputType::CsvAndJsonl => Sinks { csv: true, json: false, jsonl: true },
        }
    }
}

/// The sinks for a saved scan's output-type code; an unknown code saves CSV.
pub fn sinks_for_code(code: u8) -> (r: Sinks)
    ensures
        r == match OutputType::from_u8_spec(code) {
            Some(t) => t.sinks_spec(),
            None => OutputType::Csv.sinks_spec(),
        },
{
    match OutputType::from_u8(code) {
        Some(t) => t.sinks(),
        None => OutputType::Csv.sinks(),
    }
}

/// Display settings of the output sinks.
#[derive(Clone, Copy, Debug, PartialEq, Eq, Structural)]
pub struct OutputConfig {
    pub no_color: bool,
    /// Emit the input documents with rule metadata instead of profile columns.
    pub raw_output: bool,
}

impl OutputConfig {
    pub fn new(no_color: bool, raw_output: bool) -> (r: Self)
        ensures
            r.no_color == no_color,
            r.raw_output == raw_output,
    {
        OutputConfig { no_color, raw_output }
    }
}

/// Raw output is only meaningful for the JSON sinks: saving with code 1
/// (CSV only) and raw output is refused.
pub fn raw_output_allowed(raw_output: bool, output_type: u8, saving: bool) -> (r: bool)
    ensures
        r == !(raw_output && output_type == 1 && saving),
{
    !(raw_output && output_type == 1 && saving)
}

/// The text of a value's debug form, `Value(String("x"))`, reduced to `x`.
pub open spec fn unwrap_debug_spec(input: Seq<char>) -> Seq<char> {
    replace_spec(replace_spec(input, "Value(String(\""@, ""@), "\"))"@, ""@)
}

pub fn s(input: String) -> (r: String)
    ensures
        r@ == unwrap_debug_spec(input@),
{
    proof {
        reveal_strlit("Value(String(\"");
        reveal_strlit("\"))");
    }
    let t = replace_str(input.as_str(), "Value(String(\"", "");
    replace_str(t.as_str(), "\"))", "")
}

} // verus!
