//! Reading and writing JSON through `serde_json`, and the step between its
//! values and those of this library.

use crate::entries::{
    distinct_keys, find_last, last_for, lemma_map_of_finite, lemma_map_of_last, lemma_map_of_push,
    lemma_map_of_update, map_of,
};
use crate::json::{
    entries_view, group_json_view, items_view, Json, JsonNumber, JsonView, NumberView,
};
use vstd::prelude::*;

verus! {

/// A value of `serde_json`, carried through without looking inside.
#[verifier::external_type_specification]
#[verifier::external_body]
pub struct ExSerdeValue(serde_json::Value);

/// A number of `serde_json`, carried through without looking inside.
#[verifier::external_type_specification]
#[verifier::external_body]
pub struct ExSerdeNumber(serde_json::Number);

/// The number that a `serde_json::Number` is.
pub uninterp spec fn number_of(n: serde_json::Number) -> NumberView;

/// The value that a `serde_json::Value` holds.
pub uninterp spec fn contents(value: serde_json::Value) -> JsonView;

/// What `serde_json` reads from a text: the value, or the text of the error.
pub uninterp spec fn json_parsed(text: Seq<char>) -> Result<JsonView, Seq<char>>;

/// How `serde_json` writes a value, in its compact form and with the fields of an
/// object in the order of their keys.
pub uninterp spec fn json_text(value: JsonView) -> Seq<char>;

/// `serde_json::Number::as_u64`: the number as an unsigned integer, where it is one.
#[verifier::external_body]
pub(crate) fn number_u64(n: &serde_json::Number) -> (r: Option<u64>)
    ensures
        r == number_of(*n).as_u64(),
{
    n.as_u64()
}

/// `serde_json::Number::as_i64`: the number as a signed integer, where it is one
/// in range. It is then the number that stands for that integer.
#[verifier::external_body]
pub(crate) fn number_i64(n: &serde_json::Number) -> (r: Option<i64>)
    ensures
        r == number_of(*n).as_i64(),
        r matches Some(i) ==> number_of(*n) == NumberView::integer(i),
{
    n.as_i64()
}

/// `serde_json::Number::to_string`: an integer in decimal notation, any other
/// number as `serde_json` writes it.
#[verifier::external_body]
pub(crate) fn number_text(n: &serde_json::Number) -> (r: String)
    ensures
        r@ == number_of(*n).text(),
{
    n.to_string()
}

/// `serde_json::Number::from(u64)`: the number with that value.
#[verifier::external_body]
pub(crate) fn number_from_u64(n: u64) -> (r: serde_json::Number)
    ensures
        number_of(r) == NumberView::PosInt(n),
{
    serde_json::Number::from(n)
}

/// `serde_json::Number::from(i64)`: the number with that value.
#[verifier::external_body]
pub(crate) fn number_from_i64(n: i64) -> (r: serde_json::Number)
    ensures
        number_of(r) == NumberView::integer(n),
{
    serde_json::Number::from(n)
}

/// The outermost layer of a `serde_json::Value`.
enum Layer {
    Null,
    Bool(bool),
    Number(serde_json::Number),
    String(String),
    Array(Vec<serde_json::Value>),
    Object(Vec<(String, serde_json::Value)>),
}

/// The value that a layer makes up together with what is below it.
spec fn layer_view(layer: Layer) -> JsonView {
    match layer {
        Layer::Null => JsonView::Null,
        Layer::Bool(b) => JsonView::Bool(b),
        Layer::Number(n) => JsonView::Number(number_of(n)),
        Layer::String(s) => JsonView::String(s@),
        Layer::Array(items) => JsonView::Array(
            items@.map_values(|v: serde_json::Value| contents(v)),
        ),
        Layer::Object(entries) => JsonView::Object(map_of(fields_view(entries@))),
    }
}

/// The views of the entries of a layer.
spec fn fields_view(entries: Seq<(String, serde_json::Value)>) -> Seq<(Seq<char>, JsonView)> {
    entries.map_values(|e: (String, serde_json::Value)| (e.0@, contents(e.1)))
}

/// The variants of `serde_json::Value` told apart. An object hands out its
/// entries by `serde_json::Map::into_iter`, each key once.
#[verifier::external_body]
fn open_value(value: serde_json::Value) -> (r: Layer)
    ensures
        layer_view(r) == contents(value),
        r matches Layer::Object(entries) ==> distinct_keys(fields_view(entries@)),
{
    match value {
        serde_json::Value::Null => Layer::Null,
        serde_json::Value::Bool(b) => Layer::Bool(b),
        serde_json::Value::Number(n) => Layer::Number(n),
        serde_json::Value::String(s) => Layer::String(s),
        serde_json::Value::Array(items) => Layer::Array(items),
        serde_json::Value::Object(entries) => Layer::Object(entries.into_iter().collect()),
    }
}

/// The variants of `serde_json::Value` put together. An object is collected into
/// a `serde_json::Map` from its entries, in which no key may occur twice.
#[verifier::external_body]
fn close_layer(layer: Layer) -> (r: serde_json::Value)
    requires
        layer matches Layer::Object(entries) ==> distinct_keys(fields_view(entries@)),
    ensures
        contents(r) == layer_view(layer),
{
    match layer {
        Layer::Null => serde_json::Value::Null,
        Layer::Bool(b) => serde_json::Value::Bool(b),
        Layer::Number(n) => serde_json::Value::Number(n),
        Layer::String(s) => serde_json::Value::String(s),
        Layer::Array(items) => serde_json::Value::Array(items),
        Layer::Object(entries) => serde_json::Value::Object(entries.into_iter().collect()),
    }
}

/// `serde_json::from_str` on a `serde_json::Value`: the value that the text
/// denotes, or the message of the error that says why it is not JSON.
#[verifier::external_body]
fn read_value(text: &str) -> (r: Result<serde_json::Value, String>)
    ensures
        match r {
            Ok(value) => json_parsed(text@) == Ok::<JsonView, Seq<char>>(contents(value)),
            Err(message) => json_parsed(text@) == Err::<JsonView, Seq<char>>(message@),
        },
{
    match serde_json::from_str(text) {
        Ok(value) => Ok(value),
        Err(err) => Err(err.to_string()),
    }
}

/// `serde_json::Value::to_string`: the value as text, in its compact form.
#[verifier::external_body]
fn write_value(value: &serde_json::Value) -> (r: String)
    ensures
        r@ == json_text(contents(*value)),
{
    value.to_string()
}

/// The value of this library for a value of `serde_json`.
fn from_serde(value: serde_json::Value) -> (r: Json)
    ensures
        r@ == contents(value),
    decreases contents(value),
{
    broadcast use group_json_view;

    let layer = open_value(value);
    match layer {
        Layer::Null => Json::Null,
        Layer::Bool(b) => Json::Bool(b),
        Layer::Number(n) => {
            match number_u64(&n) {
                Some(u) => Json::Number(JsonNumber::Unsigned(u)),
                None => match number_i64(&n) {
                    Some(i) => Json::Number(JsonNumber::Signed(i)),
                    None => Json::Number(JsonNumber::Other(n)),
                },
            }
        },
        Layer::String(s) => Json::String(s),
        Layer::Array(items) => {
            let mut list: Vec<Json> = Vec::new();
            for item in it: items
                invariant
                    it.seq() == items@,
                    list@.len() == it.index(),
                    contents(value) == JsonView::Array(
                        items@.map_values(|v: serde_json::Value| contents(v)),
                    ),
                    forall|j: int| 0 <= j < list@.len() ==> (#[trigger] list@[j])@ == contents(items@[j]),
            {
                proof {
                    let seen = contents(value)->Array_0;
                    assert(seen[it.index()] == contents(item));
                }
                list.push(from_serde(item));
            }
            assert(items_view(list@) =~= contents(value)->Array_0);
            Json::Array(list)
        },
        Layer::Object(entries) => {
            let mut list: Vec<(String, Json)> = Vec::new();
            let ghost fields = fields_view(entries@);
            assert(entries_view(list@) =~= fields.take(0));
            for entry in it: entries
                invariant
                    it.seq() == entries@,
                    list@.len() == it.index(),
                    fields == fields_view(entries@),
                    distinct_keys(fields),
                    contents(value) == JsonView::Object(map_of(fields)),
                    entries_view(list@) == fields.take(it.index()),
            {
                let ghost i = it.index();
                proof {
                    assert(fields[i] == (entry.0@, contents(entry.1)));
                    assert(last_for(fields, entry.0@, i));
                    lemma_map_of_last(fields, entry.0@, i);
                    lemma_map_of_finite(fields);
                    assert(decreases_to!(contents(value) => contents(value)->Object_0));
                    assert(decreases_to!(contents(value)->Object_0 => contents(value)->Object_0[entry.0@]));
                }
                let (key, item) = entry;
                list.push((key, from_serde(item)));
                assert(entries_view(list@) =~= fields.take(i + 1));
            }
            assert(fields.take(fields.len() as int) =~= fields);
            Json::Object(list)
        },
    }
}

/// The entries with `key` set to `value`, in place where it has an entry.
fn set_field(
    entries: &mut Vec<(String, serde_json::Value)>,
    key: String,
    value: serde_json::Value,
)
    requires
        distinct_keys(fields_view(old(entries)@)),
    ensures
        distinct_keys(fields_view(final(entries)@)),
        map_of(fields_view(final(entries)@)) == map_of(fields_view(old(entries)@)).insert(
            key@,
            contents(value),
        ),
{
    let ghost before = fields_view(entries@);
    match find_last(entries, key.as_str()) {
        Some(at) => {
            proof {
                assert forall|j: int| at < j < before.len() implies before[j].0 != key@ by {
                    assert(entries@[j].0@ != key@);
                }
                assert(last_for(before, key@, at as int));
                lemma_map_of_update(before, key@, contents(value), at as int);
            }
            entries.set(at, (key, value));
            assert(fields_view(entries@) =~= before.update(at as int, (key@, contents(value))));
        },
        None => {
            proof {
                assert forall|j: int| 0 <= j < before.len() implies before[j].0 != key@ by {
                    assert(entries@[j].0@ != key@);
                }
                lemma_map_of_push(before, key@, contents(value));
            }
            entries.push((key, value));
            assert(fields_view(entries@) =~= before.push((key@, contents(value))));
        },
    }
}

/// The value of `serde_json` for a value of this library.
fn to_serde(value: Json) -> (r: serde_json::Value)
    ensures
        contents(r) == value@,
    decreases value,
{
    broadcast use group_json_view;

    match value {
        Json::Null => close_layer(Layer::Null),
        Json::Bool(b) => close_layer(Layer::Bool(b)),
        Json::Number(n) => {
            match n {
                JsonNumber::Unsigned(u) => close_layer(Layer::Number(number_from_u64(u))),
                JsonNumber::Signed(i) => close_layer(Layer::Number(number_from_i64(i))),
                JsonNumber::Other(f) => close_layer(Layer::Number(f)),
            }
        },
        Json::String(s) => close_layer(Layer::String(s)),
        Json::Array(items) => {
            let mut list: Vec<serde_json::Value> = Vec::new();
            for item in it: items
                invariant
                    it.seq() == items@,
                    value == Json::Array(items),
                    list@.len() == it.index(),
                    forall|j: int| 0 <= j < list@.len() ==> contents(#[trigger] list@[j]) == items@[j]@,
            {
                proof {
                    assert(item == items@[it.index()]);
                    assert(decreases_to!(value => value->Array_0));
                    assert(decreases_to!(items => items@));
                    assert(decreases_to!(items@ => items@[it.index()]));
                }
                list.push(to_serde(item));
            }
            assert(list@.map_values(|v: serde_json::Value| contents(v)) =~= items_view(items@));
            close_layer(Layer::Array(list))
        },
        Json::Object(entries) => {
            let mut list: Vec<(String, serde_json::Value)> = Vec::new();
            let ghost fields = entries_view(entries@);
            assert(fields_view(list@) =~= Seq::empty());
            assert(fields.take(0) =~= Seq::empty());
            for entry in it: entries
                invariant
                    it.seq() == entries@,
                    value == Json::Object(entries),
                    fields == entries_view(entries@),
                    distinct_keys(fields_view(list@)),
                    map_of(fields_view(list@)) == map_of(fields.take(it.index())),
            {
                let ghost i = it.index();
                proof {
                    assert(entry == entries@[i]);
                    assert(decreases_to!(value => value->Object_0));
                    assert(decreases_to!(entries => entries@));
                    assert(decreases_to!(entries@ => entries@[i]));
                    assert(decreases_to!(entry => entry.1));
                }
                let (key, item) = entry;
                set_field(&mut list, key, to_serde(item));
                assert(fields.take(i + 1).drop_last() =~= fields.take(i));
            }
            assert(fields.take(fields.len() as int) =~= fields);
            close_layer(Layer::Object(list))
        },
    }
}

/// What was read from a text, seen from outside.
pub open spec fn read_view(read: Result<Json, String>) -> Result<JsonView, Seq<char>> {
    match read {
        Ok(value) => Ok(value@),
        Err(message) => Err(message@),
    }
}

/// The value that `text` denotes, or the message that says why it is not JSON.
pub fn parse_json(text: &str) -> (r: Result<Json, String>)
    ensures
        match r {
            Ok(value) => json_parsed(text@) == Ok::<JsonView, Seq<char>>(value@),
            Err(message) => json_parsed(text@) == Err::<JsonView, Seq<char>>(message@),
        },
{
    match read_value(text) {
        Ok(value) => Ok(from_serde(value)),
        Err(message) => Err(message),
    }
}

/// `value` as text, in its compact form.
pub fn render_json(value: Json) -> (r: String)
    ensures
        r@ == json_text(value@),
{
    let value = to_serde(value);
    write_value(&value)
}

} // verus!
