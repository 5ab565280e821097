//! A parsed JSON text (one JSONL line) and the member lookups the classifier
//! makes on it, through `serde_json`.

use vstd::prelude::*;

verus! {

/// `serde_json::Value`, carried through as an opaque value.
#[verifier::external_type_specification]
#[verifier::external_body]
pub struct ExJsonValue(serde_json::Value);

/// `serde_json` accepts `text` as a JSON value.
pub uninterp spec fn json_accepts(text: Seq<char>) -> bool;

/// The boolean member `key` of the JSON value `text` parses to (None when the
/// value is not an object, has no such member, or the member is no boolean).
pub uninterp spec fn json_bool_member(text: Seq<char>, key: Seq<char>) -> Option<bool>;

/// The string member `key` of the JSON value `text` parses to (None when the
/// value is not an object, has no such member, or the member is no string).
pub uninterp spec fn json_str_member(text: Seq<char>, key: Seq<char>) -> Option<Seq<char>>;

/// The integer member `key` of the JSON value `text` parses to, when it is a
/// number that fits an `i64`.
pub uninterp spec fn json_i64_member(text: Seq<char>, key: Seq<char>) -> Option<i64>;

/// A JSON value together with the text it was parsed from.
pub struct JsonDoc {
    value: serde_json::Value,
    source: String,
}

impl JsonDoc {
    /// The text this value was parsed from.
    pub closed spec fn text(&self) -> Seq<char> {
        self.source@
    }

    /// Parses `text` with `serde_json::from_str::<serde_json::Value>`; None
    /// where serde_json reports an error.
    #[verifier::external_body]
    pub(crate) fn parse(text: &str) -> (res: Option<JsonDoc>)
        ensures
            res is Some <==> json_accepts(text@),
            res matches Some(d) ==> d.text() == text@,
    {
        match serde_json::from_str::<serde_json::Value>(text) {
            Ok(value) => Some(JsonDoc { value, source: text.to_owned() }),
            Err(_) => None,
        }
    }

    /// `Value::get(key)` followed by `Value::as_bool`.
    #[verifier::external_body]
    pub(crate) fn bool_member(&self, key: &str) -> (res: Option<bool>)
        ensures
            res == json_bool_member(self.text(), key@),
    {
        self.value.get(key).and_then(serde_json::Value::as_bool)
    }

    /// `Value::get(key)` followed by `Value::as_str`, copied to a `String`.
    #[verifier::external_body]
    pub(crate) fn str_member(&self, key: &str) -> (res: Option<String>)
        ensures
            match res {
                Some(s) => json_str_member(self.text(), key@) == Some(s@),
                None => json_str_member(self.text(), key@) is None,
            },
    {
        self.value.get(key).and_then(serde_json::Value::as_str).map(str::to_owned)
    }

    /// `Value::get(key)` followed by `Value::as_i64`.
    #[verifier::external_body]
    pub(crate) fn i64_member(&self, key: &str) -> (res: Option<i64>)
        ensures
            res == json_i64_member(self.text(), key@),
    {
        self.value.get(key).and_then(serde_json::Value::as_i64)
    }
}

} // verus!
