use vstd::prelude::*;

verus! {

/// The error message with which `serde_json` refuses `text` as a JSON
/// document, or `None` where it parses.
pub uninterp spec fn json_error(text: Seq<char>) -> Option<Seq<char>>;

/// Whether the value reached from the document `text` by the object keys
/// `path` has a member named by the last key of `path`.
pub uninterp spec fn json_member_present(text: Seq<char>, path: Seq<Seq<char>>) -> bool;

/// The text of the value at `path` in `text`, where that value is a string.
pub uninterp spec fn json_string_at(text: Seq<char>, path: Seq<Seq<char>>) -> Option<Seq<char>>;

/// The length of the value at `path` in `text`, where that value is an array.
pub uninterp spec fn json_array_len_at(text: Seq<char>, path: Seq<Seq<char>>) -> Option<nat>;

/// The value at `path` in `text`, where it is a number that fits an `i64`.
pub uninterp spec fn json_i64_at(text: Seq<char>, path: Seq<Seq<char>>) -> Option<i64>;

#[verifier::external_type_specification]
#[verifier::external_body]
pub struct ExJsonValue(serde_json::Value);

/// A parsed JSON document, with the text it was parsed from.
pub struct JsonDoc {
    value: serde_json::Value,
    source: Ghost<Seq<char>>,
}

/// A value inside a parsed document, with the document's text and the
/// object keys that lead to it.
pub struct JsonRef<'a> {
    value: &'a serde_json::Value,
    source: Ghost<Seq<char>>,
    path: Ghost<Seq<Seq<char>>>,
}

impl JsonDoc {
    pub closed spec fn source(&self) -> Seq<char> {
        self.source@
    }
}

impl<'a> JsonRef<'a> {
    pub closed spec fn source(&self) -> Seq<char> {
        self.source@
    }

    pub closed spec fn path(&self) -> Seq<Seq<char>> {
        self.path@
    }
}

/// Relies on `serde_json::from_str` into a `Value`: parses `text`, or gives
/// the parser's error message.
#[verifier::external_body]
pub(crate) fn parse_json(text: &str) -> (r: Result<JsonDoc, String>)
    ensures
        r is Ok <==> json_error(text@) is None,
        r matches Ok(d) ==> d.source() == text@,
        r matches Err(e) ==> json_error(text@) == Some(e@),
{
    match serde_json::from_str::<serde_json::Value>(text) {
        Ok(value) => Ok(JsonDoc { value, source: Ghost(text@) }),
        Err(e) => Err(e.to_string()),
    }
}

/// The whole document.
pub(crate) fn json_root<'a>(doc: &'a JsonDoc) -> (r: JsonRef<'a>)
    ensures
        r.source() == doc.source(),
        r.path() == Seq::<Seq<char>>::empty(),
{
    JsonRef { value: &doc.value, source: doc.source, path: Ghost(Seq::empty()) }
}

/// Relies on `serde_json::Value::get` with a string key: the member `key`
/// of an object, `None` for any other value or a missing member.
#[verifier::external_body]
pub(crate) fn json_member<'a>(v: &JsonRef<'a>, key: &str) -> (r: Option<JsonRef<'a>>)
    ensures
        r is Some <==> json_member_present(v.source(), v.path().push(key@)),
        r matches Some(c) ==> c.source() == v.source() && c.path() == v.path().push(key@),
{
    match v.value.get(key) {
        Some(c) => Some(JsonRef { value: c, source: v.source, path: Ghost(v.path@.push(key@)) }),
        None => None,
    }
}

/// Relies on `serde_json::Value::as_str`: the text of a JSON string.
#[verifier::external_body]
pub(crate) fn json_text(v: &JsonRef) -> (r: Option<String>)
    ensures
        r is Some <==> json_string_at(v.source(), v.path()) is Some,
        r matches Some(s) ==> json_string_at(v.source(), v.path()) == Some(s@),
{
    v.value.as_str().map(|s| s.to_string())
}

/// Relies on `serde_json::Value::as_array`: the length of a JSON array.
#[verifier::external_body]
pub(crate) fn json_array_len(v: &JsonRef) -> (r: Option<usize>)
    ensures
        r is Some <==> json_array_len_at(v.source(), v.path()) is Some,
        r matches Some(n) ==> json_array_len_at(v.source(), v.path()) == Some(n as nat),
{
    v.value.as_array().map(|a| a.len())
}

/// Relies on `serde_json::Value::as_i64`: a JSON number that is an `i64`.
#[verifier::external_body]
pub(crate) fn json_i64(v: &JsonRef) -> (r: Option<i64>)
    ensures
        r == json_i64_at(v.source(), v.path()),
{
    v.value.as_i64()
}

} // verus!
