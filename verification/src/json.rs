//! JSON values as the library holds them: what the model sends in a tool
//! block is read with `serde_json` and handed on as a plain value whose
//! fields the library can look up.
use vstd::prelude::*;

use crate::text::{chars_eq, str_to_string, to_chars};

verus! {

broadcast use vstd::string::group_string_axioms;

#[verifier::external_type_specification]
#[verifier::external_body]
pub struct ExJsonValue(serde_json::Value);

/// A JSON value. A number is held by its text (as `serde_json` prints it),
/// an object by its entries.
pub enum JsonValue {
    Null,
    Bool(bool),
    Number(String),
    Str(String),
    Array(Vec<JsonValue>),
    Object(Vec<(String, JsonValue)>),
}

/// A JSON value as plain values.
pub enum JsonView {
    Null,
    Bool(bool),
    Number(Seq<char>),
    Str(Seq<char>),
    Array(Seq<JsonView>),
    Object(Seq<(Seq<char>, JsonView)>),
}

pub open spec fn jview(v: JsonValue) -> JsonView
    decreases v,
{
    match v {
        JsonValue::Null => JsonView::Null,
        JsonValue::Bool(b) => JsonView::Bool(b),
        JsonValue::Number(n) => JsonView::Number(n@),
        JsonValue::Str(s) => JsonView::Str(s@),
        JsonValue::Array(a) => JsonView::Array(
            Seq::new(
                a@.len(),
                |i: int|
                    if 0 <= i < a@.len() {
                        jview(a@[i])
                    } else {
                        JsonView::Null
                    },
            ),
        ),
        JsonValue::Object(es) => JsonView::Object(
            Seq::new(
                es@.len(),
                |i: int|
                    (
                        es@[i].0@,
                        if 0 <= i < es@.len() {
                            jview(es@[i].1)
                        } else {
                            JsonView::Null
                        },
                    ),
            ),
        ),
    }
}

pub open spec fn json_entries_view(es: Seq<(String, JsonValue)>) -> Seq<(Seq<char>, JsonView)> {
    Seq::new(es.len(), |i: int| (es[i].0@, jview(es[i].1)))
}

pub proof fn lemma_jview_object(es: Vec<(String, JsonValue)>)
    ensures
        jview(JsonValue::Object(es)) == JsonView::Object(json_entries_view(es@)),
{
    match jview(JsonValue::Object(es)) {
        JsonView::Object(s1) => {
            assert forall|i: int| 0 <= i < es@.len() implies s1[i] == json_entries_view(es@)[i] by {}
            assert(s1 =~= json_entries_view(es@));
        },
        _ => {},
    }
}

/// The value of the first entry named `key`.
pub open spec fn entry_value(es: Seq<(Seq<char>, JsonView)>, key: Seq<char>) -> Option<JsonView>
    decreases es.len(),
{
    if es.len() == 0 {
        None
    } else if es[0].0 == key {
        Some(es[0].1)
    } else {
        entry_value(es.drop_first(), key)
    }
}

/// What `serde_json::Value::get` gives for a key: the field of an object,
/// nothing for any other value.
pub open spec fn json_field(v: JsonView, key: Seq<char>) -> Option<JsonView> {
    match v {
        JsonView::Object(es) => entry_value(es, key),
        _ => None,
    }
}

/// What `serde_json::from_str::<serde_json::Value>` reads from a text:
/// `None` where the text is no JSON document.
pub uninterp spec fn json_document(text: Seq<char>) -> Option<JsonView>;

/// `serde_json::from_str::<serde_json::Value>`: the JSON document a text
/// holds, converted variant by variant into a `JsonValue`; `None` where
/// `serde_json` refuses the text. What it reads is named `json_document`.
#[verifier::external_body]
pub(crate) fn parse_json(text: &str) -> (r: Option<JsonValue>)
    ensures
        r is Some <==> json_document(text@) is Some,
        r matches Some(v) ==> json_document(text@) == Some(jview(v)),
{
    serde_json::from_str::<serde_json::Value>(text).ok().map(|v| from_serde(&v))
}

/// Converts a `serde_json::Value` into a `JsonValue`, one variant for one
/// variant (a number by its printed text, an object by its entries in the
/// map's order). Only `parse_json` calls it; nothing is stated of it alone.
#[verifier::external_body]
fn from_serde(v: &serde_json::Value) -> JsonValue {
    match v {
        serde_json::Value::Null => JsonValue::Null,
        serde_json::Value::Bool(b) => JsonValue::Bool(*b),
        serde_json::Value::Number(n) => JsonValue::Number(n.to_string()),
        serde_json::Value::String(s) => JsonValue::Str(s.clone()),
        serde_json::Value::Array(a) => JsonValue::Array(a.iter().map(from_serde).collect()),
        serde_json::Value::Object(m) => JsonValue::Object(
            m.iter().map(|(k, x)| (k.clone(), from_serde(x))).collect(),
        ),
    }
}

/// The field `key` of `v`, taken out of it (`Value::get` followed by a
/// clone in `serde_json`'s terms).
pub fn take_field(v: JsonValue, key: &str) -> (r: Option<JsonValue>)
    ensures
        match json_field(jview(v), key@) {
            Some(a) => r matches Some(x) && jview(x) == a,
            None => r is None,
        },
{
    let ghost whole = jview(v);
    match v {
        JsonValue::Object(es) => {
            proof {
                lemma_jview_object(es);
            }
            let ghost all = json_entries_view(es@);
            assert(whole == JsonView::Object(all));
            let mut es = es;
            let k = to_chars(key);
            let mut i: usize = 0;
            assert(all.skip(0) =~= all);
            while i < es.len()
                invariant
                    i <= es@.len(),
                    k@ == key@,
                    json_entries_view(es@) == all,
                    whole == JsonView::Object(all),
                    whole == jview(v),
                    entry_value(all, key@) == entry_value(all.skip(i as int), key@),
                decreases es.len() - i,
            {
                let ghost rest = all.skip(i as int);
                assert(rest[0] == all[i as int]);
                assert(rest.drop_first() =~= all.skip(i as int + 1));
                if chars_eq(&to_chars(es[i].0.as_str()), &k) {
                    assert(all[i as int] == (es@[i as int].0@, jview(es@[i as int].1)));
                    assert(entry_value(rest, key@) == Some(rest[0].1));
                    let ghost vi = jview(es@[i as int].1);
                    let (_, a) = es.remove(i);
                    assert(jview(a) == vi);
                    return Some(a);
                }
                i = i + 1;
            }
            assert(all.skip(i as int) =~= Seq::<(Seq<char>, JsonView)>::empty());
            None
        },
        _ => None,
    }
}

/// The text of the field `key` of `v`, where that field is a string.
pub fn field_str(v: &JsonValue, key: &str) -> (r: Option<String>)
    ensures
        match json_field(jview(*v), key@) {
            Some(JsonView::Str(s)) => r matches Some(x) && x@ == s,
            _ => r is None,
        },
{
    let ghost whole = jview(*v);
    match v {
        JsonValue::Object(es) => {
            proof {
                lemma_jview_object(*es);
            }
            let ghost all = json_entries_view(es@);
            assert(whole == JsonView::Object(all));
            let k = to_chars(key);
            let mut i: usize = 0;
            assert(all.skip(0) =~= all);
            while i < es.len()
                invariant
                    i <= es@.len(),
                    k@ == key@,
                    json_entries_view(es@) == all,
                    whole == JsonView::Object(all),
                    whole == jview(*v),
                    entry_value(all, key@) == entry_value(all.skip(i as int), key@),
                decreases es.len() - i,
            {
                let ghost rest = all.skip(i as int);
                assert(rest[0] == all[i as int]);
                assert(rest.drop_first() =~= all.skip(i as int + 1));
                if chars_eq(&to_chars(es[i].0.as_str()), &k) {
                    assert(all[i as int] == (es@[i as int].0@, jview(es@[i as int].1)));
                    assert(entry_value(rest, key@) == Some(rest[0].1));
                    return match &es[i].1 {
                        JsonValue::Str(s) => {
                            assert(jview(es@[i as int].1) == JsonView::Str(s@));
                            Some(str_to_string(s.as_str()))
                        },
                        _ => None,
                    };
                }
                i = i + 1;
            }
            assert(all.skip(i as int) =~= Seq::<(Seq<char>, JsonView)>::empty());
            None
        },
        _ => None,
    }
}

} // verus!
