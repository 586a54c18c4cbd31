//! JSON documents as the library reads them: a tree of values, parsed by
//! `serde_json`.
use vstd::prelude::*;

use crate::text::{ascii_lower, ascii_lower_chars, chars_eq, chars_of};

verus! {

/// A parsed JSON value.  An object holds its members in the order the parser
/// hands them out, one member per key; a number is kept as its text.
pub enum JsonValue {
    Null,
    Bool(bool),
    Number(String),
    Str(String),
    Array(Vec<JsonValue>),
    Object(Vec<JsonMember>),
}

/// One member of a JSON object.
pub struct JsonMember {
    pub key: String,
    pub value: JsonValue,
}

/// The mathematical form of a JSON value.
pub enum JsonView {
    Null,
    Bool(bool),
    Number(Seq<char>),
    Str(Seq<char>),
    Array(Seq<JsonView>),
    Object(Seq<(Seq<char>, JsonView)>),
}

pub open spec fn json_view(v: JsonValue) -> JsonView
    decreases v,
{
    match v {
        JsonValue::Null => JsonView::Null,
        JsonValue::Bool(b) => JsonView::Bool(b),
        JsonValue::Number(n) => JsonView::Number(n@),
        JsonValue::Str(s) => JsonView::Str(s@),
        JsonValue::Array(items) => JsonView::Array(
            Seq::new(
                items@.len(),
                |i: int|
                    if 0 <= i < items@.len() {
                        json_view(items@[i])
                    } else {
                        JsonView::Null
                    },
            ),
        ),
        JsonValue::Object(members) => JsonView::Object(
            Seq::new(
                members@.len(),
                |i: int|
                    if 0 <= i < members@.len() {
                        (members@[i].key@, json_view(members@[i].value))
                    } else {
                        (Seq::empty(), JsonView::Null)
                    },
            ),
        ),
    }
}

impl View for JsonValue {
    type V = JsonView;

    open spec fn view(&self) -> JsonView {
        json_view(*self)
    }
}

pub open spec fn opt_json_view(o: Option<JsonValue>) -> Option<JsonView> {
    match o {
        Some(v) => Some(v@),
        None => None,
    }
}

/// A name for what `serde_json::from_str::<serde_json::Value>` makes of a text:
/// the document's value, or nothing when the text is no JSON document.
pub uninterp spec fn parsed_json(text: Seq<char>) -> Option<JsonView>;

/// A parsed `serde_json::Value`, carried only from the parser to its conversion.
#[verifier::external_type_specification]
#[verifier::external_body]
pub struct ExSerdeJsonValue(serde_json::Value);

/// Turns a `serde_json::Value` into a `JsonValue`, variant for variant: members in
/// the order the map hands them out, numbers by their text.  Nothing is stated of
/// it here: `parse_json` states what the two together return.
#[verifier::external_body]
fn json_from_value(v: serde_json::Value) -> JsonValue {
    match v {
        serde_json::Value::Null => JsonValue::Null,
        serde_json::Value::Bool(b) => JsonValue::Bool(b),
        serde_json::Value::Number(n) => JsonValue::Number(n.to_string()),
        serde_json::Value::String(s) => JsonValue::Str(s),
        serde_json::Value::Array(a) => JsonValue::Array(a.into_iter().map(json_from_value).collect()),
        serde_json::Value::Object(m) => JsonValue::Object(
            m.into_iter().map(|(key, value)| JsonMember { key, value: json_from_value(value) }).collect(),
        ),
    }
}

/// `serde_json::from_str::<serde_json::Value>`, the value converted: the result is
/// the named parse of `text`, a function of the text alone.
#[verifier::external_body]
pub(crate) fn parse_json(text: &str) -> (r: Option<JsonValue>)
    ensures
        opt_json_view(r) == parsed_json(text@),
{
    match serde_json::from_str::<serde_json::Value>(text) {
        Ok(v) => Some(json_from_value(v)),
        Err(_) => None,
    }
}

// ---------------------------------------------------------------------------
// Reading values
// ---------------------------------------------------------------------------

/// Index of the first member of `m` with the key `k`.
pub open spec fn member_index(m: Seq<(Seq<char>, JsonView)>, k: Seq<char>) -> Option<int>
    decreases m.len(),
{
    if m.len() == 0 {
        None
    } else if m.last().0 == k && member_index(m.drop_last(), k) is None {
        Some(m.len() - 1)
    } else {
        member_index(m.drop_last(), k)
    }
}

pub proof fn lemma_member_index(m: Seq<(Seq<char>, JsonView)>, k: Seq<char>)
    ensures
        match member_index(m, k) {
            Some(i) => 0 <= i < m.len() && m[i].0 == k && forall|j: int| 0 <= j < i ==> m[j].0 != k,
            None => forall|j: int| 0 <= j < m.len() ==> m[j].0 != k,
        },
    decreases m.len(),
{
    if m.len() > 0 {
        lemma_member_index(m.drop_last(), k);
        assert(forall|j: int| 0 <= j < m.len() - 1 ==> m.drop_last()[j] == m[j]);
    }
}

/// `Map::get`: the value of the member with key `k`.
pub open spec fn member(m: Seq<(Seq<char>, JsonView)>, k: Seq<char>) -> Option<JsonView> {
    match member_index(m, k) {
        Some(i) => Some(m[i].1),
        None => None,
    }
}

/// `Value::get`: the member `k` of an object; nothing for any other value.
pub open spec fn field(v: JsonView, k: Seq<char>) -> Option<JsonView> {
    match v {
        JsonView::Object(m) => member(m, k),
        _ => None,
    }
}

/// `Value::as_str`.
pub open spec fn as_text(v: JsonView) -> Option<Seq<char>> {
    match v {
        JsonView::Str(s) => Some(s),
        _ => None,
    }
}

/// The text of the member `k`, when it is a string.
pub open spec fn member_text(m: Seq<(Seq<char>, JsonView)>, k: Seq<char>) -> Option<Seq<char>> {
    match member(m, k) {
        Some(v) => as_text(v),
        None => None,
    }
}

/// A boolean written as JSON `true`/`false`, or as one of the strings `true`, `1`,
/// `false`, `0` in any letter case.
pub open spec fn json_bool(v: JsonView) -> Option<bool> {
    match v {
        JsonView::Bool(b) => Some(b),
        JsonView::Str(s) => {
            let l = ascii_lower(s);
            if l == "true"@ || l == "1"@ {
                Some(true)
            } else if l == "false"@ || l == "0"@ {
                Some(false)
            } else {
                None
            }
        },
        _ => None,
    }
}

/// `json_bool` of an optional value.
pub open spec fn opt_json_bool(o: Option<JsonView>) -> Option<bool> {
    match o {
        Some(v) => json_bool(v),
        None => None,
    }
}

/// Position of the member with key `k` in `members`.
pub fn find_member(members: &Vec<JsonMember>, k: &str) -> (r: Option<usize>)
    ensures
        ({
            let m = members@.map_values(|x: JsonMember| (x.key@, x.value@));
            match r {
                Some(i) => member_index(m, k@) == Some(i as int) && i < members@.len(),
                None => member_index(m, k@) is None,
            }
        }),
{
    let ghost m = members@.map_values(|x: JsonMember| (x.key@, x.value@));
    let kc = chars_of(k);
    let mut i: usize = 0;
    proof {
        lemma_member_index(m, k@);
    }
    while i < members.len()
        invariant
            i <= members@.len(),
            kc@ == k@,
            m == members@.map_values(|x: JsonMember| (x.key@, x.value@)),
            forall|j: int| 0 <= j < i ==> m[j].0 != k@,
            match member_index(m, k@) {
                Some(a) => 0 <= a < m.len() && m[a].0 == k@ && forall|j: int|
                    0 <= j < a ==> m[j].0 != k@,
                None => forall|j: int| 0 <= j < m.len() ==> m[j].0 != k@,
            },
        decreases members@.len() - i,
    {
        if chars_eq(chars_of(members[i].key.as_str()).as_slice(), kc.as_slice()) {
            assert(m[i as int].0 == k@);
            return Some(i);
        }
        i += 1;
    }
    None
}

/// The string `s` read as a JSON boolean (see `json_bool`).
fn text_bool(s: &str) -> (r: Option<bool>)
    ensures
        r == json_bool(JsonView::Str(s@)),
{
    let l = ascii_lower_chars(chars_of(s).as_slice());
    if chars_eq(l.as_slice(), chars_of("true").as_slice()) || chars_eq(
        l.as_slice(),
        chars_of("1").as_slice(),
    ) {
        Some(true)
    } else if chars_eq(l.as_slice(), chars_of("false").as_slice()) || chars_eq(
        l.as_slice(),
        chars_of("0").as_slice(),
    ) {
        Some(false)
    } else {
        None
    }
}

/// A JSON value read as a boolean (see `json_bool`).
pub fn parse_json_bool(value: &JsonValue) -> (r: Option<bool>)
    ensures
        r == json_bool(value@),
{
    match value {
        JsonValue::Bool(b) => Some(*b),
        JsonValue::Str(s) => text_bool(s.as_str()),
        _ => None,
    }
}

} // verus!
