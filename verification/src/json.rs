//! Reading JSON documents: one value at a time, addressed by a JSON pointer
//! (`/a/b`, with `~` and `/` in a key written `~0` and `~1`).
use vstd::prelude::*;

use crate::text::{chars_of, owned};

verus! {

/// One value of a JSON document as the library reads it: missing, a
/// string, a whole number that fits in a `u64`, a boolean, an array (its
/// length), an object (its keys in the map's order), or anything else.
#[derive(Debug, Clone)]
pub enum JsonField {
    Missing,
    Str(String),
    U64(u64),
    Bool(bool),
    Array(usize),
    Object(Vec<String>),
    Other,
}

/// A [`JsonField`] as plain values.
pub enum JsonFieldView {
    Missing,
    Str(Seq<char>),
    U64(u64),
    Bool(bool),
    Array(usize),
    Object(Seq<Seq<char>>),
    Other,
}

/// `f` as plain values.
pub open spec fn field_view(f: JsonField) -> JsonFieldView {
    match f {
        JsonField::Missing => JsonFieldView::Missing,
        JsonField::Str(s) => JsonFieldView::Str(s@),
        JsonField::U64(n) => JsonFieldView::U64(n),
        JsonField::Bool(b) => JsonFieldView::Bool(b),
        JsonField::Array(n) => JsonFieldView::Array(n),
        JsonField::Object(keys) => JsonFieldView::Object(crate::text::string_views(keys@)),
        JsonField::Other => JsonFieldView::Other,
    }
}

/// The value that `serde_json` finds at a JSON pointer in a document; none
/// when the text is not JSON.
pub uninterp spec fn json_at(text: Seq<char>, pointer: Seq<char>) -> Option<JsonFieldView>;

/// Reads the value at `pointer` in the JSON document `text`.
///
/// Trusted: parses with `serde_json::from_str` into `serde_json::Value`,
/// looks the pointer up with `Value::pointer` and reads the value's kind;
/// the result is only named.
#[verifier::external_body]
pub(crate) fn json_field(text: &str, pointer: &str) -> (r: Option<JsonField>)
    ensures
        match r {
            Some(f) => json_at(text@, pointer@) == Some(field_view(f)),
            None => json_at(text@, pointer@) is None,
        },
{
    let v: serde_json::Value = serde_json::from_str(text).ok()?;
    Some(match v.pointer(pointer) {
        None => JsonField::Missing,
        Some(serde_json::Value::String(s)) => JsonField::Str(s.clone()),
        Some(serde_json::Value::Bool(b)) => JsonField::Bool(*b),
        Some(serde_json::Value::Array(a)) => JsonField::Array(a.len()),
        Some(serde_json::Value::Object(m)) => JsonField::Object(m.keys().cloned().collect()),
        Some(n) => n.as_u64().map_or(JsonField::Other, JsonField::U64),
    })
}

/// The string at `pointer`, if the value there is a string.
pub open spec fn str_at(text: Seq<char>, pointer: Seq<char>) -> Option<Seq<char>> {
    match json_at(text, pointer) {
        Some(JsonFieldView::Str(s)) => Some(s),
        _ => None,
    }
}

/// The number at `pointer`, if the value there is a whole number that fits
/// in a `u64`.
pub open spec fn u64_at(text: Seq<char>, pointer: Seq<char>) -> Option<u64> {
    match json_at(text, pointer) {
        Some(JsonFieldView::U64(n)) => Some(n),
        _ => None,
    }
}

/// The boolean at `pointer`, if the value there is one.
pub open spec fn bool_at(text: Seq<char>, pointer: Seq<char>) -> Option<bool> {
    match json_at(text, pointer) {
        Some(JsonFieldView::Bool(b)) => Some(b),
        _ => None,
    }
}

/// The string at `pointer`, if the value there is a string.
pub fn string_at(text: &str, pointer: &str) -> (r: Option<String>)
    ensures
        crate::market::opt_view(r) == str_at(text@, pointer@),
{
    match json_field(text, pointer) {
        Some(JsonField::Str(s)) => Some(s),
        _ => None,
    }
}

/// The number at `pointer`, if the value there is a whole number that fits
/// in a `u64`.
pub fn number_at(text: &str, pointer: &str) -> (r: Option<u64>)
    ensures
        r == u64_at(text@, pointer@),
{
    match json_field(text, pointer) {
        Some(JsonField::U64(n)) => Some(n),
        _ => None,
    }
}

/// The boolean at `pointer`, if the value there is one.
pub fn flag_at(text: &str, pointer: &str) -> (r: Option<bool>)
    ensures
        r == bool_at(text@, pointer@),
{
    match json_field(text, pointer) {
        Some(JsonField::Bool(b)) => Some(b),
        _ => None,
    }
}

/// Whether the value at `pointer` is an object.
pub fn is_object_at(text: &str, pointer: &str) -> (r: bool)
    ensures
        r == (json_at(text@, pointer@) matches Some(JsonFieldView::Object(_))),
{
    match json_field(text, pointer) {
        Some(JsonField::Object(_)) => true,
        _ => false,
    }
}

/// Whether `text` is a JSON document.
pub fn is_json(text: &str) -> (r: bool)
    ensures
        r == (json_at(text@, seq![]) is Some),
{
    let empty = owned("");
    proof {
        reveal_strlit("");
    }
    assert(empty@ =~= Seq::<char>::empty());
    match json_field(text, empty.as_str()) {
        Some(_) => true,
        None => false,
    }
}

/// A key written as one pointer step: `~` becomes `~0` and `/` becomes `~1`.
pub open spec fn pointer_token(key: Seq<char>) -> Seq<char>
    decreases key.len(),
{
    if key.len() == 0 {
        seq![]
    } else {
        pointer_token(key.drop_last()) + if key.last() == '~' {
            seq!['~', '0']
        } else if key.last() == '/' {
            seq!['~', '1']
        } else {
            seq![key.last()]
        }
    }
}

/// A key written as one pointer step.
pub fn escape_key(key: &str) -> (r: Vec<char>)
    ensures
        r@ == pointer_token(key@),
{
    let k = chars_of(key);
    let mut out: Vec<char> = Vec::new();
    let mut i: usize = 0;
    while i < k.len()
        invariant
            i <= k@.len(),
            k@ == key@,
            out@ == pointer_token(k@.take(i as int)),
        decreases k@.len() - i,
    {
        assert(k@.take(i + 1).drop_last() =~= k@.take(i as int));
        let c = k[i];
        if c == '~' {
            out.push('~');
            out.push('0');
        } else if c == '/' {
            out.push('~');
            out.push('1');
        } else {
            out.push(c);
        }
        i += 1;
    }
    assert(k@.take(k@.len() as int) =~= k@);
    out
}

} // verus!
