//! The JSON document model that the messages are written to and read from.

use crate::decimal::{decimal_value, is_decimal_i64, parse_decimal};
use crate::text::same_text;
use vstd::prelude::*;

verus! {

/// A JSON document as the message rules see it. A number is held as its
/// literal text, an object as its members in document order.
#[derive(Debug, PartialEq)]
pub enum Json {
    Null,
    Bool(bool),
    Number(String),
    String(String),
    Array(Vec<Json>),
    Object(Vec<(String, Json)>),
}

/// The mathematical value of a [`Json`] document.
pub ghost enum JsonValue {
    Null,
    Bool(bool),
    Number(Seq<char>),
    String(Seq<char>),
    Array(Seq<JsonValue>),
    Object(Seq<(Seq<char>, JsonValue)>),
}

/// The value of a document: numbers and strings by their characters, arrays
/// and objects part by part.
pub open spec fn value_of(json: Json) -> JsonValue
    decreases json,
{
    match json {
        Json::Null => JsonValue::Null,
        Json::Bool(b) => JsonValue::Bool(b),
        Json::Number(text) => JsonValue::Number(text@),
        Json::String(text) => JsonValue::String(text@),
        Json::Array(items) => JsonValue::Array(
            Seq::new(
                items@.len(),
                |i: int|
                    if 0 <= i < items@.len() {
                        value_of(items@[i])
                    } else {
                        JsonValue::Null
                    },
            ),
        ),
        Json::Object(members) => JsonValue::Object(
            Seq::new(
                members@.len(),
                |i: int|
                    if 0 <= i < members@.len() {
                        (members@[i].0@, value_of(members@[i].1))
                    } else {
                        (Seq::<char>::empty(), JsonValue::Null)
                    },
            ),
        ),
    }
}

impl View for Json {
    type V = JsonValue;

    open spec fn view(&self) -> JsonValue {
        value_of(*self)
    }
}

/// The values of a sequence of documents.
pub open spec fn items_view(items: Seq<Json>) -> Seq<JsonValue> {
    Seq::new(items.len(), |i: int| items[i]@)
}

/// The values of a sequence of named documents.
pub open spec fn members_view(members: Seq<(String, Json)>) -> Seq<(Seq<char>, JsonValue)> {
    Seq::new(members.len(), |i: int| (members[i].0@, members[i].1@))
}

/// The value of an array is the values of its items, that of an object the
/// values of its members.
pub proof fn lemma_view_of_parts(json: Json)
    ensures
        json matches Json::Array(items) ==> json@ == JsonValue::Array(items_view(items@)),
        json matches Json::Object(members) ==> json@ == JsonValue::Object(members_view(members@)),
{
    match json {
        Json::Array(items) => {
            assert(json@->Array_0 =~= items_view(items@));
        },
        Json::Object(members) => {
            assert(json@->Object_0 =~= members_view(members@));
        },
        _ => {},
    }
}

/// The value that an object's members give a name: that of the last member
/// of that name, as in a map that is filled in document order.
pub open spec fn member(members: Seq<(Seq<char>, JsonValue)>, name: Seq<char>) -> Option<
    JsonValue,
>
    decreases members.len(),
{
    if members.len() == 0 {
        None
    } else if members.last().0 == name {
        Some(members.last().1)
    } else {
        member(members.drop_last(), name)
    }
}

/// The value that a document gives a name: none unless it is an object.
pub open spec fn field(document: JsonValue, name: Seq<char>) -> Option<JsonValue> {
    match document {
        JsonValue::Object(members) => member(members, name),
        _ => None,
    }
}

/// The 64-bit integer that a document stands for: none unless it is a number
/// whose literal is the decimal text of one.
pub open spec fn integer_of(document: JsonValue) -> Option<int> {
    match document {
        JsonValue::Number(text) => if is_decimal_i64(text) {
            Some(decimal_value(text))
        } else {
            None
        },
        _ => None,
    }
}

/// Whether an optional member counts as left out: it is missing or `null`.
pub open spec fn left_out(value: Option<JsonValue>) -> bool {
    value is None || value == Some(JsonValue::Null)
}

/// Finds the value that the members give a name.
pub fn find_member<'a>(members: &'a Vec<(String, Json)>, name: &str) -> (r: Option<&'a Json>)
    ensures
        match r {
            Some(found) => member(members_view(members@), name@) == Some(found@),
            None => member(members_view(members@), name@) is None,
        },
{
    let ghost all = members_view(members@);
    let mut i: usize = members.len();
    assert(all.subrange(0, i as int) =~= all);
    while i > 0
        invariant
            i <= members.len(),
            all == members_view(members@),
            member(all, name@) == member(all.subrange(0, i as int), name@),
        decreases i,
    {
        i = i - 1;
        let ghost upto = all.subrange(0, i + 1);
        assert(upto.last() == all[i as int]);
        assert(upto.drop_last() =~= all.subrange(0, i as int));
        if same_text(members[i].0.as_str(), name) {
            return Some(&members[i].1);
        }
    }
    None
}

impl Json {
    /// The 64-bit integer that this document stands for.
    pub fn as_i64(&self) -> (r: Option<i64>)
        ensures
            match r {
                Some(n) => integer_of(self@) == Some(n as int),
                None => integer_of(self@) is None,
            },
    {
        match self {
            Json::Number(text) => parse_decimal(text.as_str()),
            _ => None,
        }
    }

    /// The value that this document gives a name: none unless it is an
    /// object with a member of that name.
    pub fn get(&self, name: &str) -> (r: Option<&Json>)
        ensures
            match r {
                Some(found) => field(self@, name@) == Some(found@),
                None => field(self@, name@) is None,
            },
    {
        proof {
            lemma_view_of_parts(*self);
        }
        match self {
            Json::Object(members) => find_member(members, name),
            _ => None,
        }
    }
}

/// Copies a sequence of documents.
pub fn clone_items(items: &Vec<Json>) -> (r: Vec<Json>)
    ensures
        items_view(r@) == items_view(items@),
    decreases items,
{
    let mut out: Vec<Json> = Vec::new();
    let mut i: usize = 0;
    while i < items.len()
        invariant
            i <= items.len(),
            out@.len() == i,
            forall|k: int| 0 <= k < i ==> out@[k]@ == items@[k]@,
        decreases items.len() - i,
    {
        let item = items[i].clone();
        out.push(item);
        i = i + 1;
    }
    assert(items_view(out@) =~= items_view(items@));
    out
}

/// Copies a sequence of named documents.
pub fn clone_members(members: &Vec<(String, Json)>) -> (r: Vec<(String, Json)>)
    ensures
        members_view(r@) == members_view(members@),
    decreases members,
{
    let mut out: Vec<(String, Json)> = Vec::new();
    let mut i: usize = 0;
    while i < members.len()
        invariant
            i <= members.len(),
            out@.len() == i,
            forall|k: int|
                0 <= k < i ==> out@[k].0@ == members@[k].0@ && out@[k].1@ == members@[k].1@,
        decreases members.len() - i,
    {
        let name = members[i].0.clone();
        let value = members[i].1.clone();
        out.push((name, value));
        i = i + 1;
    }
    assert(members_view(out@) =~= members_view(members@));
    out
}

impl Clone for Json {
    /// A copy with the same value.
    fn clone(&self) -> (r: Json)
        ensures
            r@ == self@,
        decreases self,
    {
        proof {
            lemma_view_of_parts(*self);
        }
        let r = match self {
            Json::Null => Json::Null,
            Json::Bool(b) => Json::Bool(*b),
            Json::Number(text) => Json::Number(text.clone()),
            Json::String(text) => Json::String(text.clone()),
            Json::Array(items) => Json::Array(clone_items(items)),
            Json::Object(members) => Json::Object(clone_members(members)),
        };
        proof {
            lemma_view_of_parts(r);
        }
        r
    }
}

} // verus!
