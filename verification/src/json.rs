//! A JSON document as plain values.
//!
//! A number carries each reading that the metadata rules ask for: as a
//! signed and as an unsigned 64-bit integer where it is one, and as a
//! floating-point bit pattern at double, single and half precision.

use crate::text::same_text;
use vstd::prelude::*;

verus! {

/// A JSON number in the readings that the library uses.
#[derive(Debug, Clone, Copy, PartialEq, Eq, Structural)]
pub struct JsonNumber {
    /// The number as a signed integer, if it is an integer that fits.
    pub int: Option<i64>,
    /// The number as an unsigned integer, if it is an integer that fits.
    pub uint: Option<u64>,
    /// Double-precision bit pattern of the number, if it has one.
    pub double: Option<u64>,
    /// Single-precision bit pattern of the double rounded to that precision.
    pub single: u32,
    /// Half-precision bit pattern of the double rounded to that precision.
    pub half: u16,
}

/// Mathematical model of a JSON document.
pub ghost enum Json {
    Null,
    Bool(bool),
    Number(JsonNumber),
    String(Seq<char>),
    Array(Seq<Json>),
    Object(Seq<(Seq<char>, Json)>),
}

/// The value of the first member named `key`, if there is one.
pub open spec fn lookup(members: Seq<(Seq<char>, Json)>, key: Seq<char>) -> Option<Json>
    decreases members.len(),
{
    if members.len() == 0 {
        None
    } else if members[0].0 == key {
        Some(members[0].1)
    } else {
        lookup(members.drop_first(), key)
    }
}

/// Whether no name occurs twice among the members of an object, as it is
/// in every object that was read from a document.
pub open spec fn distinct_names(members: Seq<(Seq<char>, Json)>) -> bool {
    forall|i: int, j: int|
        0 <= i < j < members.len() ==> (#[trigger] members[i]).0 != (#[trigger] members[j]).0
}

/// Among members with distinct names each member is the one that is found
/// under its name.
pub proof fn lemma_lookup_member(members: Seq<(Seq<char>, Json)>, i: int)
    requires
        distinct_names(members),
        0 <= i < members.len(),
    ensures
        lookup(members, members[i].0) == Some(members[i].1),
    decreases i,
{
    if i > 0 {
        let rest = members.drop_first();
        assert forall|a: int, b: int| 0 <= a < b < rest.len() implies (#[trigger] rest[a]).0 != (
        #[trigger] rest[b]).0 by {
            assert(rest[a] == members[a + 1]);
            assert(rest[b] == members[b + 1]);
        }
        assert(rest[i - 1] == members[i]);
        lemma_lookup_member(rest, i - 1);
        assert(members[0].0 != members[i].0);
    }
}

impl Json {
    /// The member `key` of an object; `None` for a missing member and for
    /// anything that is not an object.
    pub open spec fn get(self, key: Seq<char>) -> Option<Json> {
        match self {
            Json::Object(members) => lookup(members, key),
            _ => None,
        }
    }

    /// The text of a string value.
    pub open spec fn as_str(self) -> Option<Seq<char>> {
        match self {
            Json::String(text) => Some(text),
            _ => None,
        }
    }

    /// The signed-integer reading of a number.
    pub open spec fn as_i64(self) -> Option<i64> {
        match self {
            Json::Number(n) => n.int,
            _ => None,
        }
    }

    /// The unsigned-integer reading of a number.
    pub open spec fn as_u64(self) -> Option<u64> {
        match self {
            Json::Number(n) => n.uint,
            _ => None,
        }
    }
}

/// A JSON document.
#[derive(Debug, PartialEq, Eq)]
pub enum JsonValue {
    Null,
    Bool(bool),
    Number(JsonNumber),
    String(String),
    Array(Vec<JsonValue>),
    /// The members in document order; names do not repeat.
    Object(Vec<(String, JsonValue)>),
}

impl JsonValue {
    /// The document as a mathematical value.
    pub open spec fn model(self) -> Json
        decreases self,
    {
        match self {
            JsonValue::Null => Json::Null,
            JsonValue::Bool(b) => Json::Bool(b),
            JsonValue::Number(n) => Json::Number(n),
            JsonValue::String(s) => Json::String(s@),
            JsonValue::Array(items) => Json::Array(
                Seq::new(
                    items@.len(),
                    |i: int|
                        if 0 <= i < items@.len() {
                            items@[i].model()
                        } else {
                            Json::Null
                        },
                ),
            ),
            JsonValue::Object(members) => Json::Object(
                Seq::new(
                    members@.len(),
                    |i: int|
                        if 0 <= i < members@.len() {
                            (members@[i].0@, members@[i].1.model())
                        } else {
                            (Seq::empty(), Json::Null)
                        },
                ),
            ),
        }
    }
}

impl View for JsonValue {
    type V = Json;

    open spec fn view(&self) -> Json {
        self.model()
    }
}

impl JsonValue {
    /// The member `key` of an object.
    pub fn get<'a>(&'a self, key: &str) -> (found: Option<&'a JsonValue>)
        ensures
            match found {
                Some(value) => self@.get(key@) == Some(value@),
                None => self@.get(key@) is None,
            },
    {
        match self {
            JsonValue::Object(members) => {
                let ghost model = self@->Object_0;
                let mut i: usize = 0;
                proof {
                    assert(model.skip(0) =~= model);
                }
                while i < members.len()
                    invariant
                        i <= members@.len(),
                        self@ == Json::Object(model),
                        model.len() == members@.len(),
                        forall|j: int|
                            0 <= j < members@.len() ==> #[trigger] model[j] == (
                                members@[j].0@,
                                members@[j].1@,
                            ),
                        lookup(model, key@) == lookup(model.skip(i as int), key@),
                    decreases members@.len() - i,
                {
                    proof {
                        let rest = model.skip(i as int);
                        assert(rest[0] == model[i as int]);
                        assert(rest.drop_first() =~= model.skip(i + 1));
                    }
                    if same_text(members[i].0.as_str(), key) {
                        return Some(&members[i].1);
                    }
                    i += 1;
                }
                proof {
                    assert(model.skip(i as int).len() == 0);
                }
                None
            },
            _ => None,
        }
    }

    /// The text of a string value.
    pub fn as_str<'a>(&'a self) -> (text: Option<&'a str>)
        ensures
            match text {
                Some(t) => self@.as_str() == Some(t@),
                None => self@.as_str() is None,
            },
    {
        match self {
            JsonValue::String(s) => Some(s.as_str()),
            _ => None,
        }
    }

    /// The signed-integer reading of a number.
    pub fn as_i64(&self) -> (value: Option<i64>)
        ensures
            value == self@.as_i64(),
    {
        match self {
            JsonValue::Number(n) => n.int,
            _ => None,
        }
    }

    /// The unsigned-integer reading of a number.
    pub fn as_u64(&self) -> (value: Option<u64>)
        ensures
            value == self@.as_u64(),
    {
        match self {
            JsonValue::Number(n) => n.uint,
            _ => None,
        }
    }
}

impl Clone for JsonValue {
    #[verifier::loop_isolation(false)]
    fn clone(&self) -> (copy: JsonValue)
        ensures
            copy@ == self@,
        decreases self,
    {
        match self {
            JsonValue::Null => JsonValue::Null,
            JsonValue::Bool(b) => JsonValue::Bool(*b),
            JsonValue::Number(n) => JsonValue::Number(*n),
            JsonValue::String(s) => JsonValue::String(s.clone()),
            JsonValue::Array(items) => {
                let mut out: Vec<JsonValue> = Vec::new();
                let mut i: usize = 0;
                while i < items.len()
                    invariant
                        i <= items@.len(),
                        out@.len() == i,
                        forall|j: int| 0 <= j < i ==> (#[trigger] out@[j])@ == items@[j]@,
                    decreases items@.len() - i,
                {
                    out.push(items[i].clone());
                    i += 1;
                }
                let copy = JsonValue::Array(out);
                proof {
                    assert(copy@->Array_0 =~= self@->Array_0);
                }
                copy
            },
            JsonValue::Object(members) => {
                let mut out: Vec<(String, JsonValue)> = Vec::new();
                let mut i: usize = 0;
                while i < members.len()
                    invariant
                        i <= members@.len(),
                        out@.len() == i,
                        forall|j: int|
                            0 <= j < i ==> (#[trigger] out@[j]).0@ == members@[j].0@ && out@[j].1@
                                == members@[j].1@,
                    decreases members@.len() - i,
                {
                    out.push((members[i].0.clone(), members[i].1.clone()));
                    i += 1;
                }
                let copy = JsonValue::Object(out);
                proof {
                    assert(copy@->Object_0 =~= self@->Object_0);
                }
                copy
            },
        }
    }
}

/// Model of the members of an object.
pub open spec fn members_model(members: Seq<(String, JsonValue)>) -> Seq<(Seq<char>, Json)> {
    Seq::new(members.len(), |i: int| (members[i].0@, members[i].1@))
}

/// Model of an optional document.
pub open spec fn opt_json(value: Option<JsonValue>) -> Option<Json> {
    match value {
        Some(v) => Some(v@),
        None => None,
    }
}

/// The members whose name is not `key`, in their order.
pub open spec fn without_member(members: Seq<(Seq<char>, Json)>, key: Seq<char>) -> Seq<
    (Seq<char>, Json),
>
    decreases members.len(),
{
    if members.len() == 0 {
        Seq::empty()
    } else {
        let rest = without_member(members.drop_last(), key);
        if members.last().0 == key {
            rest
        } else {
            rest.push(members.last())
        }
    }
}

/// The model of an object is the model of its members.
pub proof fn lemma_object_model(members: Vec<(String, JsonValue)>)
    ensures
        JsonValue::Object(members)@ == Json::Object(members_model(members@)),
{
    assert(JsonValue::Object(members)@->Object_0 =~= members_model(members@));
}

/// The value of the first member named `key`.
pub fn find_member<'a>(members: &'a Vec<(String, JsonValue)>, key: &str) -> (found: Option<
    &'a JsonValue,
>)
    ensures
        match found {
            Some(value) => lookup(members_model(members@), key@) == Some(value@),
            None => lookup(members_model(members@), key@) is None,
        },
{
    let ghost model = members_model(members@);
    let mut i: usize = 0;
    proof {
        assert(model.skip(0) =~= model);
    }
    while i < members.len()
        invariant
            i <= members@.len(),
            model == members_model(members@),
            lookup(model, key@) == lookup(model.skip(i as int), key@),
        decreases members@.len() - i,
    {
        proof {
            let rest = model.skip(i as int);
            assert(rest[0] == model[i as int]);
            assert(rest.drop_first() =~= model.skip(i + 1));
        }
        if same_text(members[i].0.as_str(), key) {
            return Some(&members[i].1);
        }
        i += 1;
    }
    proof {
        assert(model.skip(i as int).len() == 0);
    }
    None
}

/// Copies of the members whose name is not `key`.
pub fn members_without(members: &Vec<(String, JsonValue)>, key: &str) -> (out: Vec<
    (String, JsonValue),
>)
    ensures
        members_model(out@) == without_member(members_model(members@), key@),
{
    let mut out: Vec<(String, JsonValue)> = Vec::new();
    let mut i: usize = 0;
    let ghost model = members_model(members@);
    proof {
        assert(model.take(0).len() == 0);
        assert(members_model(out@) =~= Seq::empty());
    }
    while i < members.len()
        invariant
            i <= members@.len(),
            model == members_model(members@),
            members_model(out@) == without_member(model.take(i as int), key@),
        decreases members@.len() - i,
    {
        let ghost before = members_model(out@);
        proof {
            assert(model.take(i + 1).drop_last() =~= model.take(i as int));
            assert(model.take(i + 1).last() == model[i as int]);
        }
        if !same_text(members[i].0.as_str(), key) {
            out.push((members[i].0.clone(), members[i].1.clone()));
            proof {
                assert(members_model(out@) =~= before.push(model[i as int]));
            }
        }
        i += 1;
    }
    proof {
        assert(model.take(members@.len() as int) =~= model);
    }
    out
}

} // verus!
