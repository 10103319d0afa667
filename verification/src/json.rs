//! JSON documents as plain values, decoded by `serde_json`.

use vstd::prelude::*;

verus! {

/// The content of a JSON value. Numbers keep the text `serde_json` prints for them; object
/// members keep the order `serde_json` gives them.
pub enum JsonView {
    Null,
    Bool(bool),
    Number(Seq<char>),
    Text(Seq<char>),
    Array(Seq<JsonView>),
    Object(Seq<(Seq<char>, JsonView)>),
}

/// A decoded JSON value.
pub enum JsonValue {
    Null,
    Bool(bool),
    Number(String),
    Text(String),
    Array(Vec<JsonValue>),
    Object(Vec<JsonMember>),
}

/// One member of a JSON object.
pub struct JsonMember {
    pub key: String,
    pub value: JsonValue,
}

/// The content of a JSON value.
pub open spec fn json_view(v: JsonValue) -> JsonView
    decreases v,
{
    match v {
        JsonValue::Null => JsonView::Null,
        JsonValue::Bool(b) => JsonView::Bool(b),
        JsonValue::Number(n) => JsonView::Number(n@),
        JsonValue::Text(t) => JsonView::Text(t@),
        JsonValue::Array(items) => JsonView::Array(json_views(items@)),
        JsonValue::Object(members) => JsonView::Object(member_views(members@)),
    }
}

/// The contents of a sequence of JSON values.
pub open spec fn json_views(items: Seq<JsonValue>) -> Seq<JsonView>
    decreases items,
{
    if items.len() == 0 {
        Seq::empty()
    } else {
        json_views(items.drop_last()).push(json_view(items.last()))
    }
}

/// The contents of a sequence of object members.
pub open spec fn member_views(members: Seq<JsonMember>) -> Seq<(Seq<char>, JsonView)>
    decreases members,
{
    if members.len() == 0 {
        Seq::empty()
    } else {
        member_views(members.drop_last()).push((members.last().key@, json_view(members.last().value)))
    }
}

/// The member named `key`, the first one when several are.
pub open spec fn json_get(members: Seq<(Seq<char>, JsonView)>, key: Seq<char>) -> Option<JsonView>
    decreases members.len(),
{
    if members.len() == 0 {
        None
    } else if members[0].0 == key {
        Some(members[0].1)
    } else {
        json_get(members.drop_first(), key)
    }
}

/// The value `serde_json` decodes from `bytes`, or `None` when it rejects them.
pub uninterp spec fn json_document(bytes: Seq<u8>) -> Option<JsonView>;

/// Decodes `bytes` with `serde_json::from_slice` into a `serde_json::Value` and copies it into
/// plain values; the result is whatever `serde_json` decodes from these bytes, named
/// `json_document`.
#[verifier::external_body]
pub fn parse_json(bytes: &[u8]) -> (r: Option<JsonValue>)
    ensures
        match r {
            Some(v) => json_document(bytes@) == Some(json_view(v)),
            None => json_document(bytes@) is None,
        },
{
    serde_json::from_slice::<serde_json::Value>(bytes).ok().map(from_serde)
}

/// The `serde_json` value type, carried opaquely.
#[verifier::external_type_specification]
#[verifier::external_body]
pub struct ExSerdeJsonValue(serde_json::Value);

/// Copies a `serde_json::Value` variant by variant; numbers keep their printed text.
#[verifier::external_body]
fn from_serde(value: serde_json::Value) -> JsonValue {
    match value {
        serde_json::Value::Null => JsonValue::Null,
        serde_json::Value::Bool(b) => JsonValue::Bool(b),
        serde_json::Value::Number(n) => JsonValue::Number(n.to_string()),
        serde_json::Value::String(s) => JsonValue::Text(s),
        serde_json::Value::Array(items) => JsonValue::Array(items.into_iter().map(from_serde).collect()),
        serde_json::Value::Object(members) => JsonValue::Object(
            members.into_iter().map(|(key, value)| JsonMember { key, value: from_serde(value) }).collect(),
        ),
    }
}

/// Looks up the first member named `key`.
pub fn get<'a>(members: &'a Vec<JsonMember>, key: &str) -> (r: Option<&'a JsonValue>)
    ensures
        match r {
            Some(v) => json_get(member_views(members@), key@) == Some(json_view(*v)),
            None => json_get(member_views(members@), key@) is None,
        },
{
    let ghost all = member_views(members@);
    let mut i: usize = 0;
    proof {
        lemma_member_views_len(members@);
        assert(all.skip(0) =~= all);
    }
    while i < members.len()
        invariant
            i <= members.len(),
            all == member_views(members@),
            all.len() == members.len(),
            json_get(all, key@) == json_get(all.skip(i as int), key@),
        decreases members.len() - i,
    {
        proof {
            lemma_member_view_at(members@, i as int);
        }
        assert(all.skip(i as int)[0] == all[i as int]);
        if crate::text::str_eq(members[i].key.as_str(), key) {
            return Some(&members[i].value);
        }
        assert(all.skip(i as int).drop_first() =~= all.skip(i + 1));
        i = i + 1;
    }
    None
}

/// A copy of a JSON value with the same content.
pub fn copy_json(v: &JsonValue) -> (r: JsonValue)
    ensures
        json_view(r) == json_view(*v),
    decreases v,
{
    match v {
        JsonValue::Null => JsonValue::Null,
        JsonValue::Bool(b) => JsonValue::Bool(*b),
        JsonValue::Number(n) => JsonValue::Number(n.clone()),
        JsonValue::Text(t) => JsonValue::Text(t.clone()),
        JsonValue::Array(items) => {
            let mut out: Vec<JsonValue> = Vec::new();
            let mut i: usize = 0;
            assert(decreases_to!(*v => items@));
            while i < items.len()
                invariant
                    i <= items.len(),
                    json_views(out@) == json_views(items@.take(i as int)),
                    decreases_to!(*v => items@),
                decreases items.len() - i,
            {
                assert(decreases_to!(items@ => items@[i as int]));
                let c = copy_json(&items[i]);
                let ghost before = out@;
                out.push(c);
                proof {
                    assert(items@.take(i + 1).drop_last() =~= items@.take(i as int));
                    assert(out@.drop_last() =~= before);
                }
                i = i + 1;
            }
            assert(items@.take(items.len() as int) =~= items@);
            JsonValue::Array(out)
        },
        JsonValue::Object(members) => {
            let mut out: Vec<JsonMember> = Vec::new();
            let mut i: usize = 0;
            assert(decreases_to!(*v => members@));
            while i < members.len()
                invariant
                    i <= members.len(),
                    member_views(out@) == member_views(members@.take(i as int)),
                    decreases_to!(*v => members@),
                decreases members.len() - i,
            {
                assert(decreases_to!(members@ => members@[i as int]));
                assert(decreases_to!(members@[i as int] => members@[i as int].value));
                let value = copy_json(&members[i].value);
                let ghost before = out@;
                out.push(JsonMember { key: members[i].key.clone(), value });
                proof {
                    assert(members@.take(i + 1).drop_last() =~= members@.take(i as int));
                    assert(out@.drop_last() =~= before);
                }
                i = i + 1;
            }
            assert(members@.take(members.len() as int) =~= members@);
            JsonValue::Object(out)
        },
    }
}

pub proof fn lemma_member_views_len(members: Seq<JsonMember>)
    ensures
        member_views(members).len() == members.len(),
    decreases members.len(),
{
    if members.len() > 0 {
        lemma_member_views_len(members.drop_last());
    }
}

pub proof fn lemma_member_view_at(members: Seq<JsonMember>, i: int)
    requires
        0 <= i < members.len(),
    ensures
        member_views(members)[i] == (members[i].key@, json_view(members[i].value)),
    decreases members.len(),
{
    lemma_member_views_len(members.drop_last());
    if i < members.len() - 1 {
        lemma_member_view_at(members.drop_last(), i);
    }
}

pub proof fn lemma_json_views_len(items: Seq<JsonValue>)
    ensures
        json_views(items).len() == items.len(),
    decreases items.len(),
{
    if items.len() > 0 {
        lemma_json_views_len(items.drop_last());
    }
}

pub proof fn lemma_json_view_at(items: Seq<JsonValue>, i: int)
    requires
        0 <= i < items.len(),
    ensures
        json_views(items)[i] == json_view(items[i]),
    decreases items.len(),
{
    lemma_json_views_len(items.drop_last());
    if i < items.len() - 1 {
        lemma_json_view_at(items.drop_last(), i);
    }
}

} // verus!
