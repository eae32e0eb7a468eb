//! JSON helpers backed by `serde_json` and `schemars`.

use vstd::prelude::*;

verus! {

/// Whether a string is a complete JSON document, as `serde_json` parses one.
pub uninterp spec fn is_valid_json_text(s: Seq<char>) -> bool;

/// Parses a string with `serde_json::from_str::<serde_json::Value>` and reports success.
///
/// Trusted: the result tells whether `s` parses as a JSON value, a function of `s`
/// alone, named [`is_valid_json_text`].
#[verifier::external_body]
pub(crate) fn json_value_parses(s: &str) -> (res: bool)
    ensures
        res == is_valid_json_text(s@),
{
    serde_json::from_str::<serde_json::Value>(s).is_ok()
}

/// The text `serde_json` writes for the JSON object that `s` holds, or `None` when
/// `s` is not a JSON object.
pub uninterp spec fn json_object_normal_form(s: Seq<char>) -> Option<Seq<char>>;

/// Parses a string as a JSON object with `serde_json::from_str::<serde_json::Map<String,
/// serde_json::Value>>` and writes the object back with `serde_json::to_string`.
///
/// Trusted: the result is `None` exactly when parsing fails, and otherwise the text
/// that `serde_json` writes for the parsed object; both depend on `s` alone and are
/// named [`json_object_normal_form`]. Writing a map with string keys does not fail.
/// The name stands for the parse and the write-back together: they turn the
/// arguments' text into `serde_json`'s object and back, and no single outside
/// function computes the pair.
#[verifier::external_body]
pub(crate) fn normalize_json_object(s: &str) -> (res: Option<String>)
    ensures
        res is Some <==> json_object_normal_form(s@) is Some,
        res matches Some(t) ==> json_object_normal_form(s@) == Some(t@),
{
    match serde_json::from_str::<serde_json::Map<String, serde_json::Value>>(s) {
        Ok(m) => serde_json::to_string(&m).ok(),
        Err(_) => None,
    }
}

/// What `schemars::Schema::get` finds under `key` in the schema written as `json`:
/// `None` when the key is absent (or `json` is not an object schema), otherwise the
/// entry's `as_bool()`.
pub uninterp spec fn schema_entry_as_bool(json: Seq<char>, key: Seq<char>) -> Option<Option<bool>>;

/// Looks up `key` with `schemars::Schema::get` in the schema written as `json`.
///
/// Trusted: the result is `schema.get(key).map(|v| v.as_bool())` for the schema that
/// `json` holds (`None` when `json` is not a schema), a function of `json` and `key`
/// alone, named [`schema_entry_as_bool`]. The name stands for the parse, the lookup
/// and `as_bool` together: the parse only turns the JSON text the library keeps into
/// the `schemars::Schema` that `get` reads.
#[verifier::external_body]
pub(crate) fn schema_get_as_bool(json: &str, key: &str) -> (res: Option<Option<bool>>)
    ensures
        res == schema_entry_as_bool(json@, key@),
{
    match serde_json::from_str::<schemars::Schema>(json) {
        Ok(schema) => match schema.get(key) {
            Some(v) => Some(v.as_bool()),
            None => None,
        },
        Err(_) => None,
    }
}

/// The text of the schema written as `json` after `schemars::Schema::insert(key, value)`.
pub uninterp spec fn schema_with_bool_entry(json: Seq<char>, key: Seq<char>, value: bool) -> Seq<char>;

/// Inserts a boolean entry with `schemars::Schema::insert` into the schema written as
/// `json`, and writes the schema back with `serde_json::to_string`.
///
/// Trusted: the result is the text of the updated schema (`json` itself when it is not
/// a schema), a function of the arguments alone, named [`schema_with_bool_entry`].
/// The name stands for the parse, `insert` and the write-back together: the parse
/// and the write only convert between the JSON text the library keeps and
/// `schemars::Schema`.
#[verifier::external_body]
pub(crate) fn schema_insert_bool(json: &str, key: &str, value: bool) -> (res: String)
    ensures
        res@ == schema_with_bool_entry(json@, key@, value),
{
    match serde_json::from_str::<schemars::Schema>(json) {
        Ok(mut schema) => {
            schema.insert(key.to_owned(), serde_json::Value::Bool(value));
            match serde_json::to_string(&schema) {
                Ok(t) => t,
                Err(_) => json.to_owned(),
            }
        }
        Err(_) => json.to_owned(),
    }
}

} // verus!
