use vstd::prelude::*;

verus! {

#[verifier::external_type_specification]
#[verifier::external_body]
pub struct ExValue(serde_json::Value);

#[verifier::external_type_specification]
#[verifier::external_body]
#[verifier::reject_recursive_types(K)]
#[verifier::reject_recursive_types(V)]
pub struct ExMap<K, V>(serde_json::Map<K, V>);

/// The top-level shape of a JSON document, as far as intake needs it.
pub enum JsonShape {
    Array(Vec<serde_json::Value>),
    Object(serde_json::Map<String, serde_json::Value>),
    Other,
}

/// Why a log document yields no records.
#[derive(Clone, Copy, Debug, PartialEq, Eq, Structural)]
pub enum IntakeError {
    /// The text is not JSON.
    InvalidJson,
}

/// Whether serde_json reads a text as one JSON value.
pub uninterp spec fn json_ok(text: Seq<char>) -> bool;

/// Relies on serde_json::from_str: the JSON value a text holds, if it is JSON.
#[verifier::external_body]
fn parse_json(text: &str) -> (r: Option<serde_json::Value>)
    ensures
        r is Some <==> json_ok(text@),
{
    match serde_json::from_str::<serde_json::Value>(text) {
        Ok(v) => Some(v),
        Err(_) => None,
    }
}

/// Relies on serde_json::Value's variants: tells an array and an object
/// apart from the other values.
#[verifier::external_body]
fn json_shape(v: serde_json::Value) -> JsonShape {
    match v {
        serde_json::Value::Array(a) => JsonShape::Array(a),
        serde_json::Value::Object(m) => JsonShape::Object(m),
        _ => JsonShape::Other,
    }
}

/// Relies on serde_json::Map::remove: takes a member out of an object.
#[verifier::external_body]
fn take_member(m: &mut serde_json::Map<String, serde_json::Value>, key: &str) -> Option<serde_json::Value> {
    m.remove(key)
}

/// The member of a log document's top-level object that holds its records.
pub const RECORDS_KEY: &'static str = "Records";

/// The records a document of the given shape carries: a top-level array is
/// itself the record list; an object carries its list as an array under
/// [`RECORDS_KEY`]; any other shape carries none.
pub fn records_from_shape(shape: JsonShape) -> (r: Vec<serde_json::Value>)
    ensures
        shape matches JsonShape::Array(a) ==> r@ == a@,
        shape matches JsonShape::Other ==> r@.len() == 0,
{
    match shape {
        JsonShape::Array(a) => a,
        JsonShape::Object(mut m) => match take_member(&mut m, RECORDS_KEY) {
            Some(member) => match json_shape(member) {
                JsonShape::Array(a) => a,
                _ => Vec::new(),
            },
            None => Vec::new(),
        },
        JsonShape::Other => Vec::new(),
    }
}

/// The records of a log document, or an error where the text is not JSON.
/// A document of another shape gives no records and no error.
pub fn load_json_from_file(log_contents: &str) -> (r: Result<Vec<serde_json::Value>, IntakeError>)
    ensures
        r is Err <==> !json_ok(log_contents@),
        r matches Err(e) ==> e == IntakeError::InvalidJson,
{
    match parse_json(log_contents) {
        Some(v) => Ok(records_from_shape(json_shape(v))),
        None => Err(IntakeError::InvalidJson),
    }
}

/// The records of a log document; a document that is not JSON, or of another
/// shape, gives none. A malformed file is thereby skipped, never fatal.
pub fn log_contents_to_events(log_contents: &str) -> (r: Vec<serde_json::Value>)
    ensures
        !json_ok(log_contents@) ==> r@.len() == 0,
{
    match load_json_from_file(log_contents) {
        Ok(v) => v,
        Err(_) => Vec::new(),
    }
}

/// Relies on serde_json's `Display` for Value: the compact JSON text.
#[verifier::external_body]
pub(crate) fn json_text(v: &serde_json::Value) -> String {
    v.to_string()
}

/// Whether a file name has a log extension: `.json` or `.gz`.
pub open spec fn is_log_file_spec(name: Seq<char>) -> bool {
    (name.len() >= 5 && name.subrange(name.len() - 5, name.len() as int) == ".json"@)
        || (name.len() >= 3 && name.subrange(name.len() - 3, name.len() as int) == ".gz"@)
}

pub fn is_log_file(name: &str) -> (r: bool)
    ensures
        r == is_log_file_spec(name@),
{
    proof {
        reveal_strlit(".json");
        reveal_strlit(".gz");
    }
    let n = name.unicode_len();
    let json = n >= 5 && crate::text::eq_str(name.substring_char(n - 5, n), ".json");
    let gz = n >= 3 && crate::text::eq_str(name.substring_char(n - 3, n), ".gz");
    json || gz
}

/// The number of records a chunk holds at most, bounding peak memory.
pub const CHUNK_SIZE: usize = 1000;

/// The end of the chunk that starts at `start` in a list of `len` records.
pub fn chunk_end(start: usize, len: usize) -> (r: usize)
    requires
        start < len,
    ensures
        start < r <= len,
        r == if len - start <= CHUNK_SIZE { len as int } else { start + CHUNK_SIZE },
{
    if len - start <= CHUNK_SIZE {
        len
    } else {
        start + CHUNK_SIZE
    }
}

} // verus!
