//! JSON values. Reading a text into a value and writing a value as text is the
//! work of `serde_json`; what the connector reads of a value is here.

use crate::codec::{
    number_from_i64, number_from_u64, number_i64, number_of, number_text, number_u64,
};
use crate::entries::{
    find_last, last_for, lemma_map_of_absent, lemma_map_of_last, lemma_map_of_push, map_of,
};
use crate::text::slice_of;
use vstd::prelude::*;

verus! {

/// A JSON number: an integer by its value, any other by the text it is written as.
#[verifier::ext_equal]
pub enum NumberView {
    PosInt(u64),
    NegInt(i64),
    Float(Seq<char>),
}

/// A JSON value.
#[verifier::ext_equal]
pub enum JsonView {
    Null,
    Bool(bool),
    Number(NumberView),
    String(Seq<char>),
    Array(Seq<JsonView>),
    Object(Map<Seq<char>, JsonView>),
}

/// The digit for `n` below ten.
pub open spec fn digit(n: nat) -> char {
    ('0' as nat + n) as char
}

/// `n` in decimal notation.
pub open spec fn decimal(n: nat) -> Seq<char>
    decreases n,
{
    if n < 10 {
        seq![digit(n)]
    } else {
        decimal(n / 10).push(digit(n % 10))
    }
}

impl NumberView {
    /// The number that stands for the integer `n`.
    pub open spec fn integer(n: i64) -> NumberView {
        if n < 0 {
            NumberView::NegInt(n)
        } else {
            NumberView::PosInt(n as u64)
        }
    }

    pub open spec fn as_u64(self) -> Option<u64> {
        match self {
            NumberView::PosInt(n) => Some(n),
            _ => None,
        }
    }

    pub open spec fn as_i64(self) -> Option<i64> {
        match self {
            NumberView::PosInt(n) => if n <= i64::MAX {
                Some(n as i64)
            } else {
                None
            },
            NumberView::NegInt(n) => Some(n),
            NumberView::Float(_) => None,
        }
    }

    /// How the number is written.
    pub open spec fn text(self) -> Seq<char> {
        match self {
            NumberView::PosInt(n) => decimal(n as nat),
            NumberView::NegInt(n) => seq!['-'] + decimal((-n) as nat),
            NumberView::Float(text) => text,
        }
    }
}

impl JsonView {
    /// What an object holds under `field`; nothing else holds anything.
    pub open spec fn get(self, field: Seq<char>) -> Option<JsonView> {
        match self {
            JsonView::Object(fields) => if fields.contains_key(field) {
                Some(fields[field])
            } else {
                None
            },
            _ => None,
        }
    }

    pub open spec fn as_str(self) -> Option<Seq<char>> {
        match self {
            JsonView::String(text) => Some(text),
            _ => None,
        }
    }

    pub open spec fn as_bool(self) -> Option<bool> {
        match self {
            JsonView::Bool(b) => Some(b),
            _ => None,
        }
    }

    pub open spec fn as_u64(self) -> Option<u64> {
        match self {
            JsonView::Number(n) => n.as_u64(),
            _ => None,
        }
    }

    pub open spec fn as_i64(self) -> Option<i64> {
        match self {
            JsonView::Number(n) => n.as_i64(),
            _ => None,
        }
    }

    pub open spec fn as_array(self) -> Option<Seq<JsonView>> {
        match self {
            JsonView::Array(items) => Some(items),
            _ => None,
        }
    }
}

/// A JSON number. What is no integer stays as `serde_json` has it.
#[derive(Debug, PartialEq)]
pub enum JsonNumber {
    Unsigned(u64),
    Signed(i64),
    Other(serde_json::Number),
}

/// A JSON value. An object is a list of entries, of which the last for a key
/// counts.
#[derive(Debug, PartialEq)]
pub enum Json {
    Null,
    Bool(bool),
    Number(JsonNumber),
    String(String),
    Array(Vec<Json>),
    Object(Vec<(String, Json)>),
}

impl View for JsonNumber {
    type V = NumberView;

    open spec fn view(&self) -> NumberView {
        match self {
            JsonNumber::Unsigned(n) => NumberView::PosInt(*n),
            JsonNumber::Signed(n) => NumberView::integer(*n),
            JsonNumber::Other(n) => number_of(*n),
        }
    }
}

impl View for Json {
    type V = JsonView;

    open spec fn view(&self) -> JsonView
        decreases self,
    {
        match self {
            Json::Null => JsonView::Null,
            Json::Bool(b) => JsonView::Bool(*b),
            Json::Number(n) => JsonView::Number(n@),
            Json::String(s) => JsonView::String(s@),
            Json::Array(items) => JsonView::Array(items_view(items@)),
            Json::Object(entries) => JsonView::Object(map_of(entries_view(entries@))),
        }
    }
}

/// The views of a list of values.
pub open spec fn items_view(items: Seq<Json>) -> Seq<JsonView>
    decreases items,
{
    Seq::new(
        items.len(),
        |i: int|
            if 0 <= i < items.len() {
                items[i].view()
            } else {
                JsonView::Null
            },
    )
}

/// The views of a list of entries.
pub open spec fn entries_view(entries: Seq<(String, Json)>) -> Seq<(Seq<char>, JsonView)>
    decreases entries,
{
    Seq::new(
        entries.len(),
        |i: int|
            if 0 <= i < entries.len() {
                (entries[i].0@, entries[i].1.view())
            } else {
                (Seq::empty(), JsonView::Null)
            },
    )
}

/// The view of an optional value.
pub open spec fn json_of(o: Option<&Json>) -> Option<JsonView> {
    match o {
        Some(v) => Some(v@),
        None => None,
    }
}

/// The views of the parts of an array and of an object, one by one.
pub broadcast proof fn lemma_items_view(items: Seq<Json>, i: int)
    requires
        0 <= i < items.len(),
    ensures
        #[trigger] items_view(items)[i] == items[i]@,
{
    reveal_with_fuel(items_view, 2);
}

pub broadcast proof fn lemma_items_view_len(items: Seq<Json>)
    ensures
        #[trigger] items_view(items).len() == items.len(),
{
    reveal_with_fuel(items_view, 2);
}

pub broadcast proof fn lemma_entries_view(entries: Seq<(String, Json)>, i: int)
    requires
        0 <= i < entries.len(),
    ensures
        #[trigger] entries_view(entries)[i] == (entries[i].0@, entries[i].1@),
{
    reveal_with_fuel(entries_view, 2);
}

pub broadcast proof fn lemma_entries_view_len(entries: Seq<(String, Json)>)
    ensures
        #[trigger] entries_view(entries).len() == entries.len(),
{
    reveal_with_fuel(entries_view, 2);
}

pub broadcast proof fn lemma_json_view(v: Json)
    ensures
        #![trigger v@]
        v matches Json::Array(items) ==> v@ == JsonView::Array(items_view(items@)),
        v matches Json::Object(entries) ==> v@ == JsonView::Object(map_of(entries_view(entries@))),
{
    reveal_with_fuel(<Json as View>::view, 2);
}

/// How the view of a value is made up of those of its parts.
pub broadcast group group_json_view {
    lemma_items_view,
    lemma_items_view_len,
    lemma_entries_view,
    lemma_entries_view_len,
    lemma_json_view,
}

impl JsonNumber {
    pub fn as_u64(&self) -> (r: Option<u64>)
        ensures
            r == self@.as_u64(),
    {
        match self {
            JsonNumber::Unsigned(n) => Some(*n),
            JsonNumber::Signed(n) => if *n < 0 {
                None
            } else {
                Some(*n as u64)
            },
            JsonNumber::Other(n) => number_u64(n),
        }
    }

    pub fn as_i64(&self) -> (r: Option<i64>)
        ensures
            r == self@.as_i64(),
    {
        match self {
            JsonNumber::Unsigned(n) => if *n <= i64::MAX as u64 {
                Some(*n as i64)
            } else {
                None
            },
            JsonNumber::Signed(n) => Some(*n),
            JsonNumber::Other(n) => number_i64(n),
        }
    }

    /// How the number is written.
    pub fn text(&self) -> (r: String)
        ensures
            r@ == self@.text(),
    {
        match self {
            JsonNumber::Unsigned(n) => number_text(&number_from_u64(*n)),
            JsonNumber::Signed(n) => number_text(&number_from_i64(*n)),
            JsonNumber::Other(n) => number_text(n),
        }
    }
}

impl Json {
    /// What an object holds under `field`; nothing else holds anything.
    pub fn get(&self, field: &str) -> (r: Option<&Json>)
        ensures
            json_of(r) == self@.get(field@),
    {
        broadcast use group_json_view;

        match self {
            Json::Object(entries) => {
                let ghost seen = entries_view(entries@);
                match find_last(entries, field) {
                    Some(at) => {
                        proof {
                            assert forall|j: int| at < j < seen.len() implies seen[j].0 != field@ by {
                                assert(entries@[j].0@ != field@);
                            }
                            assert(last_for(seen, field@, at as int));
                            lemma_map_of_last(seen, field@, at as int);
                        }
                        Some(&entries[at].1)
                    },
                    None => {
                        proof {
                            assert forall|j: int| 0 <= j < seen.len() implies seen[j].0 != field@ by {
                                assert(entries@[j].0@ != field@);
                            }
                            lemma_map_of_absent(seen, field@);
                        }
                        None
                    },
                }
            },
            _ => None,
        }
    }

    pub fn as_str(&self) -> (r: Option<&str>)
        ensures
            slice_of(r) == self@.as_str(),
    {
        match self {
            Json::String(text) => Some(text.as_str()),
            _ => None,
        }
    }

    pub fn as_bool(&self) -> (r: Option<bool>)
        ensures
            r == self@.as_bool(),
    {
        match self {
            Json::Bool(b) => Some(*b),
            _ => None,
        }
    }

    pub fn as_u64(&self) -> (r: Option<u64>)
        ensures
            r == self@.as_u64(),
    {
        match self {
            Json::Number(n) => n.as_u64(),
            _ => None,
        }
    }

    pub fn as_i64(&self) -> (r: Option<i64>)
        ensures
            r == self@.as_i64(),
    {
        match self {
            Json::Number(n) => n.as_i64(),
            _ => None,
        }
    }

    pub fn as_array(&self) -> (r: Option<&Vec<Json>>)
        ensures
            match r {
                Some(items) => self@.as_array() == Some(items_view(items@)),
                None => self@.as_array() is None,
            },
    {
        broadcast use group_json_view;

        match self {
            Json::Array(items) => Some(items),
            _ => None,
        }
    }
}

/// An object without fields.
pub fn no_fields() -> (fields: Vec<(String, Json)>)
    ensures
        map_of(entries_view(fields@)) == Map::<Seq<char>, JsonView>::empty(),
{
    broadcast use group_json_view;

    let fields: Vec<(String, Json)> = Vec::new();
    assert(entries_view(fields@) =~= Seq::empty());
    fields
}

/// Sets a field of an object.
pub fn put_field(fields: &mut Vec<(String, Json)>, name: &str, value: Json)
    ensures
        map_of(entries_view(final(fields)@)) == map_of(entries_view(old(fields)@)).insert(
            name@,
            value@,
        ),
{
    broadcast use group_json_view;

    let ghost before = entries_view(fields@);
    fields.push((name.to_owned(), value));
    proof {
        assert(entries_view(fields@) =~= before.push((name@, value@)));
        lemma_map_of_push(before, name@, value@);
    }
}

/// A value is seen as what it is: scalars as they are, an array item by item, and
/// an object by the last entry for each key.
pub proof fn values_are_seen_as_they_are(value: Json)
    ensures
        match value {
            Json::Null => value@ == JsonView::Null,
            Json::Bool(b) => value@ == JsonView::Bool(b),
            Json::Number(n) => value@ == JsonView::Number(n@),
            Json::String(s) => value@ == JsonView::String(s@),
            Json::Array(items) => value@ is Array && value@->Array_0.len() == items@.len() && (
            forall|i: int|
                0 <= i < items@.len() ==> #[trigger] value@->Array_0[i] == items@[i]@),
            Json::Object(entries) => value@ is Object && (forall|i: int|
                0 <= i < entries@.len() && (forall|j: int|
                    i < j < entries@.len() ==> (#[trigger] entries@[j]).0@ != entries@[i].0@)
                    ==> value@.get((#[trigger] entries@[i]).0@) == Some(entries@[i].1@)) && (
            forall|field: Seq<char>|
                (forall|j: int| 0 <= j < entries@.len() ==> (#[trigger] entries@[j]).0@ != field)
                    ==> #[trigger] value@.get(field) is None),
        },
{
    broadcast use group_json_view;

    if let Json::Object(entries) = value {
        let seen = entries_view(entries@);
        assert forall|i: int|
            0 <= i < entries@.len() && (forall|j: int|
                i < j < entries@.len() ==> (#[trigger] entries@[j]).0@
                    != entries@[i].0@) implies value@.get((#[trigger] entries@[i]).0@) == Some(
            entries@[i].1@,
        ) by {
            assert forall|j: int| i < j < seen.len() implies seen[j].0 != entries@[i].0@ by {
                assert(entries@[j].0@ != entries@[i].0@);
            }
            assert(last_for(seen, entries@[i].0@, i));
            lemma_map_of_last(seen, entries@[i].0@, i);
        }
        assert forall|field: Seq<char>|
            (forall|j: int|
                0 <= j < entries@.len() ==> (#[trigger] entries@[j]).0@
                    != field) implies #[trigger] value@.get(field) is None by {
            assert forall|j: int| 0 <= j < seen.len() implies seen[j].0 != field by {
                assert(entries@[j].0@ != field);
            }
            lemma_map_of_absent(seen, field);
        }
    }
}

/// An object holds what its map holds, nothing else holds fields, and each kind
/// of value reads as that kind alone.
pub proof fn values_read_by_their_kind(value: JsonView, field: Seq<char>)
    ensures
        match value {
            JsonView::Object(fields) => value.get(field) == (if fields.contains_key(field) {
                Some(fields[field])
            } else {
                None
            }),
            _ => value.get(field) is None,
        },
        match value {
            JsonView::String(text) => value.as_str() == Some(text),
            _ => value.as_str() is None,
        },
        match value {
            JsonView::Bool(b) => value.as_bool() == Some(b),
            _ => value.as_bool() is None,
        },
        match value {
            JsonView::Array(items) => value.as_array() == Some(items),
            _ => value.as_array() is None,
        },
        match value {
            JsonView::Number(n) => value.as_u64() == n.as_u64() && value.as_i64() == n.as_i64(),
            _ => value.as_u64() is None && value.as_i64() is None,
        },
{
}

/// An integer reads as itself, as far as the type it is read as reaches.
pub proof fn integers_read_as_themselves(n: i64, u: u64)
    ensures
        NumberView::integer(n).as_i64() == Some(n),
        n >= 0 ==> NumberView::integer(n).as_u64() == Some(n as u64),
        n < 0 ==> NumberView::integer(n).as_u64() is None,
        NumberView::PosInt(u).as_u64() == Some(u),
        u > i64::MAX ==> NumberView::PosInt(u).as_i64() is None,
        u <= i64::MAX ==> NumberView::PosInt(u) == NumberView::integer(u as i64),
        JsonNumber::Unsigned(u)@ == NumberView::PosInt(u),
        JsonNumber::Signed(n)@ == NumberView::integer(n),
{
}

/// The number that decimal digits denote.
pub open spec fn denoted(digits: Seq<char>) -> int
    decreases digits.len(),
{
    if digits.len() == 0 {
        0
    } else {
        10 * denoted(digits.drop_last()) + (digits.last() as int - '0' as int)
    }
}

/// The decimal notation of a number is made of digits, denotes the number, and
/// begins with a zero only for zero itself.
pub proof fn decimal_denotes_the_number(n: nat)
    ensures
        decimal(n).len() > 0,
        denoted(decimal(n)) == n,
        forall|i: int| 0 <= i < decimal(n).len() ==> '0' <= #[trigger] decimal(n)[i] <= '9',
        decimal(n)[0] == '0' ==> n == 0 && decimal(n).len() == 1,
    decreases n,
{
    reveal_with_fuel(denoted, 2);
    if n < 10 {
        assert(decimal(n).drop_last() =~= Seq::empty());
    } else {
        decimal_denotes_the_number(n / 10);
        let head = decimal(n / 10);
        assert(decimal(n).drop_last() =~= head);
        assert(decimal(n)[0] == head[0]);
        assert forall|i: int| 0 <= i < decimal(n).len() implies '0' <= #[trigger] decimal(n)[i]
            <= '9' by {
            if i < head.len() {
                assert(decimal(n)[i] == head[i]);
            }
        }
    }
}

/// An integer is written in decimal notation, with a sign where it is negative.
pub proof fn integers_are_written_in_decimal(n: i64, u: u64)
    ensures
        denoted(NumberView::PosInt(u).text()) == u,
        NumberView::PosInt(u).text() == decimal(u as nat),
        n < 0 ==> NumberView::integer(n).text()[0] == '-' && denoted(
            NumberView::integer(n).text().skip(1),
        ) == -n,
        n >= 0 ==> NumberView::integer(n).text() == decimal(n as nat),
{
    decimal_denotes_the_number(u as nat);
    if n < 0 {
        decimal_denotes_the_number((-n) as nat);
        assert(NumberView::integer(n).text().skip(1) =~= decimal((-n) as nat));
    }
}

} // verus!
