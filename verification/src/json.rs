//! A self-contained JSON document tree, with a trusted text codec backed by
//! `serde_json`. All structural reasoning happens on this tree; the outside
//! crate only turns text into trees and trees back into text.
use vstd::prelude::*;

verus! {

/// An owned JSON value. Numbers are carried as their decimal token so that no
/// floating-point value enters the library.
pub enum Json {
    Null,
    Bool(bool),
    Num(String),
    Str(String),
    Arr(Vec<Json>),
    Obj(Vec<(String, Json)>),
}

/// The mathematical shape of a [`Json`] value.
pub enum JsonModel {
    Null,
    Bool(bool),
    Num(Seq<char>),
    Str(Seq<char>),
    Arr(Seq<JsonModel>),
    Obj(Seq<(Seq<char>, JsonModel)>),
}

impl Json {
    /// The shape of this value, element by element and field by field.
    pub open spec fn model(self) -> JsonModel
        decreases self,
    {
        match self {
            Json::Null => JsonModel::Null,
            Json::Bool(b) => JsonModel::Bool(b),
            Json::Num(n) => JsonModel::Num(n@),
            Json::Str(s) => JsonModel::Str(s@),
            Json::Arr(items) => JsonModel::Arr(items_model(items@)),
            Json::Obj(fields) => JsonModel::Obj(fields_model(fields@)),
        }
    }
}

/// The shapes of a sequence of JSON values, in order.
pub open spec fn items_model(items: Seq<Json>) -> Seq<JsonModel>
    decreases items,
{
    if items.len() == 0 {
        Seq::empty()
    } else {
        items_model(items.drop_last()).push(items.last().model())
    }
}

/// The shapes of an object's field list, in order.
pub open spec fn fields_model(fields: Seq<(String, Json)>) -> Seq<(Seq<char>, JsonModel)>
    decreases fields,
{
    if fields.len() == 0 {
        Seq::empty()
    } else {
        fields_model(fields.drop_last()).push((fields.last().0@, fields.last().1.model()))
    }
}

pub broadcast proof fn lemma_items_model_index(items: Seq<Json>)
    ensures
        (#[trigger] items_model(items)).len() == items.len(),
        forall|i: int| 0 <= i < items.len() ==> items_model(items)[i] == items[i].model(),
    decreases items.len(),
{
    if items.len() > 0 {
        lemma_items_model_index(items.drop_last());
    }
}

pub broadcast proof fn lemma_fields_model_index(fields: Seq<(String, Json)>)
    ensures
        (#[trigger] fields_model(fields)).len() == fields.len(),
        forall|i: int|
            0 <= i < fields.len() ==> fields_model(fields)[i] == (fields[i].0@, fields[i].1.model()),
    decreases fields.len(),
{
    if fields.len() > 0 {
        lemma_fields_model_index(fields.drop_last());
    }
}

/// The value under `key` in an object's field list: the first binding wins.
pub open spec fn obj_get_model(fields: Seq<(Seq<char>, JsonModel)>, key: Seq<char>) -> Option<
    JsonModel,
>
    decreases fields.len(),
{
    if fields.len() == 0 {
        None
    } else if fields[0].0 == key {
        Some(fields[0].1)
    } else {
        obj_get_model(fields.drop_first(), key)
    }
}

/// Strict lexicographic order on character sequences, by Unicode scalar value.
/// On UTF-8 encoded text this coincides with byte-wise order, which is the
/// order `serde_json`'s default object map keeps its keys in.
pub open spec fn lex_lt(a: Seq<char>, b: Seq<char>) -> bool
    decreases a.len(),
{
    if b.len() == 0 {
        false
    } else if a.len() == 0 {
        true
    } else if a[0] != b[0] {
        (a[0] as u32) < (b[0] as u32)
    } else {
        lex_lt(a.drop_first(), b.drop_first())
    }
}

/// A tree that the trusted printer reproduces exactly: every object keeps its
/// keys strictly sorted (so no duplicates, and re-parsing returns the same
/// field order), and no number occurs (the library's schema never emits one).
pub open spec fn printable(j: JsonModel) -> bool
    decreases j,
{
    match j {
        JsonModel::Null => true,
        JsonModel::Bool(_) => true,
        JsonModel::Num(_) => false,
        JsonModel::Str(_) => true,
        JsonModel::Arr(items) => forall|i: int|
            0 <= i < items.len() ==> printable(#[trigger] items[i]),
        JsonModel::Obj(fields) => (forall|i: int|
            0 <= i < fields.len() ==> printable(#[trigger] (fields[i].1))) && (forall|i: int, k: int|
            0 <= i < k < fields.len() ==> lex_lt(fields[i].0, fields[k].0)),
    }
}

/// Whether a tree nests no deeper than `d` levels of arrays and objects.
pub open spec fn depth_at_most(j: JsonModel, d: int) -> bool
    decreases j,
{
    match j {
        JsonModel::Arr(items) => d >= 1 && forall|i: int|
            0 <= i < items.len() ==> depth_at_most(#[trigger] items[i], d - 1),
        JsonModel::Obj(fields) => d >= 1 && forall|i: int|
            0 <= i < fields.len() ==> depth_at_most(#[trigger] (fields[i].1), d - 1),
        _ => d >= 0,
    }
}

/// A depth bound loosens upward.
pub proof fn lemma_depth_monotone(j: JsonModel, d1: int, d2: int)
    requires
        depth_at_most(j, d1),
        d1 <= d2,
    ensures
        depth_at_most(j, d2),
    decreases j,
{
    match j {
        JsonModel::Arr(items) => {
            assert forall|i: int| 0 <= i < items.len() implies depth_at_most(
                #[trigger] items[i],
                d2 - 1,
            ) by {
                lemma_depth_monotone(items[i], d1 - 1, d2 - 1);
            }
        },
        JsonModel::Obj(fields) => {
            assert forall|i: int| 0 <= i < fields.len() implies depth_at_most(
                #[trigger] (fields[i].1),
                d2 - 1,
            ) by {
                lemma_depth_monotone(fields[i].1, d1 - 1, d2 - 1);
            }
        },
        _ => {},
    }
}

/// Looks a key up in an object's field list: the first binding wins.
pub fn obj_get<'a>(fields: &'a Vec<(String, Json)>, key: &String) -> (r: Option<&'a Json>)
    ensures
        match r {
            Some(v) => obj_get_model(fields_model(fields@), key@) == Some(v.model()),
            None => obj_get_model(fields_model(fields@), key@) is None,
        },
{
    broadcast use lemma_fields_model_index;

    let ghost m = fields_model(fields@);
    let n = fields.len();
    let mut i: usize = 0;
    proof {
        assert(m.skip(0) =~= m);
    }
    while i < n
        invariant
            n == fields.len(),
            0 <= i <= n,
            m == fields_model(fields@),
            m.len() == n,
            obj_get_model(m, key@) == obj_get_model(m.skip(i as int), key@),
        decreases n - i,
    {
        proof {
            lemma_fields_model_index(fields@);
            assert(m[i as int] == (fields@[i as int].0@, fields@[i as int].1.model()));
            assert(m.skip(i as int).drop_first() =~= m.skip(i + 1));
            assert(m.skip(i as int)[0] == m[i as int]);
        }
        if fields[i].0.eq(key) {
            return Some(&fields[i].1);
        }
        i = i + 1;
    }
    proof {
        assert(m.skip(n as int) =~= Seq::<(Seq<char>, JsonModel)>::empty());
    }
    None
}

/// The JSON document denoted by a text, if any: the tree that
/// `serde_json::from_str::<serde_json::Value>` builds from it, with object
/// fields in that parser's (key-sorted, last-duplicate-wins) order.
pub uninterp spec fn json_parse(text: Seq<char>) -> Option<JsonModel>;

#[verifier::external_type_specification]
#[verifier::external_body]
pub struct ExValue(serde_json::Value);

/// Rebuilds a `serde_json` tree from a [`Json`] tree, shape for shape. A
/// number token is re-read through `serde_json`; an unreadable one falls back
/// to null (the library itself never constructs a number).
#[verifier::external_body]
fn json_to_value(j: Json) -> serde_json::Value {
    match j {
        Json::Null => serde_json::Value::Null,
        Json::Bool(b) => serde_json::Value::Bool(b),
        Json::Num(n) => match serde_json::from_str::<serde_json::Number>(&n) {
            Ok(num) => serde_json::Value::Number(num),
            Err(_) => serde_json::Value::Null,
        },
        Json::Str(s) => serde_json::Value::String(s),
        Json::Arr(items) => serde_json::Value::Array(
            items.into_iter().map(json_to_value).collect(),
        ),
        Json::Obj(fields) => serde_json::Value::Object(
            fields.into_iter().map(|(k, v)| (k, json_to_value(v))).collect(),
        ),
    }
}

/// Rebuilds a [`Json`] tree from a `serde_json` tree, shape for shape.
#[verifier::external_body]
fn value_to_json(v: serde_json::Value) -> Json {
    match v {
        serde_json::Value::Null => Json::Null,
        serde_json::Value::Bool(b) => Json::Bool(b),
        serde_json::Value::Number(n) => Json::Num(n.to_string()),
        serde_json::Value::String(s) => Json::Str(s),
        serde_json::Value::Array(items) => Json::Arr(
            items.into_iter().map(value_to_json).collect(),
        ),
        serde_json::Value::Object(fields) => Json::Obj(
            fields.into_iter().map(|(k, v)| (k, value_to_json(v))).collect(),
        ),
    }
}

/// Relies on `serde_json::from_str::<serde_json::Value>`: it accepts exactly
/// the texts it can read as a JSON document (well-formed, within its nesting
/// limit) and returns that document's tree — which is what [`json_parse`]
/// names; on failure its error describes the malformation.
#[verifier::external_body]
pub(crate) fn parse_json_text(text: &str) -> (r: Result<Json, String>)
    ensures
        r is Ok <==> json_parse(text@) is Some,
        r matches Ok(j) ==> Some(j.model()) == json_parse(text@),
{
    match serde_json::from_str::<serde_json::Value>(text) {
        Ok(v) => Ok(value_to_json(v)),
        Err(e) => Err(e.to_string()),
    }
}

/// Relies on `Display for serde_json::Value`: it prints a tree as compact
/// JSON text that `serde_json::from_str` reads back as the same tree. The
/// claim is made only for a [`printable`] tree (keys sorted, no numbers) that
/// stays under the parser's nesting limit, where the reread tree is the one
/// printed.
#[verifier::external_body]
pub(crate) fn json_to_text(j: Json) -> (r: String)
    ensures
        printable(j.model()) && depth_at_most(j.model(), 100) ==> json_parse(r@) == Some(
            j.model(),
        ),
{
    json_to_value(j).to_string()
}

} // verus!
