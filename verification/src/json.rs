//! The JSON values the library reads and builds. Numbers keep what the logic
//! reads of them: an integer when one fits `i64`, one above `i64::MAX` as `u64`,
//! and any other number by its text.
use vstd::prelude::*;

verus! {

#[derive(Debug, PartialEq)]
pub enum Json {
    Null,
    Bool(bool),
    Int(i64),
    UInt(u64),
    Float(String),
    Str(String),
    Array(Vec<Json>),
    Object(Vec<(String, Json)>),
}

/// The mathematical value of a `Json`.
pub enum JsonV {
    Null,
    Bool(bool),
    Int(int),
    UInt(int),
    Float(Seq<char>),
    Str(Seq<char>),
    Array(Seq<JsonV>),
    Object(Seq<(Seq<char>, JsonV)>),
}

pub open spec fn json_view(j: Json) -> JsonV
    decreases j,
{
    match j {
        Json::Null => JsonV::Null,
        Json::Bool(b) => JsonV::Bool(b),
        Json::Int(i) => JsonV::Int(i as int),
        Json::UInt(u) => JsonV::UInt(u as int),
        Json::Float(t) => JsonV::Float(t@),
        Json::Str(t) => JsonV::Str(t@),
        Json::Array(items) => JsonV::Array(
            Seq::new(
                items@.len(),
                |i: int|
                    if 0 <= i < items@.len() {
                        json_view(items@[i])
                    } else {
                        JsonV::Null
                    },
            ),
        ),
        Json::Object(fields) => JsonV::Object(
            Seq::new(
                fields@.len(),
                |i: int|
                    if 0 <= i < fields@.len() {
                        (fields@[i].0@, json_view(fields@[i].1))
                    } else {
                        (Seq::empty(), JsonV::Null)
                    },
            ),
        ),
    }
}

pub proof fn lemma_array_view(items: Vec<Json>)
    ensures
        json_view(Json::Array(items)) is Array,
        json_view(Json::Array(items))->Array_0.len() == items@.len(),
        forall|k: int|
            0 <= k < items@.len() ==> #[trigger] json_view(Json::Array(items))->Array_0[k]
                == json_view(items@[k]),
{
}

pub proof fn lemma_object_view(fields: Vec<(String, Json)>)
    ensures
        json_view(Json::Object(fields)) is Object,
        json_view(Json::Object(fields))->Object_0.len() == fields@.len(),
        forall|k: int|
            0 <= k < fields@.len() ==> #[trigger] json_view(Json::Object(fields))->Object_0[k]
                == (fields@[k].0@, json_view(fields@[k].1)),
{
}

impl View for Json {
    type V = JsonV;

    open spec fn view(&self) -> JsonV {
        json_view(*self)
    }
}

impl Clone for Json {
    fn clone(&self) -> (r: Self)
        ensures
            r@ == self@,
        decreases self,
    {
        match self {
            Json::Null => Json::Null,
            Json::Bool(b) => Json::Bool(*b),
            Json::Int(i) => Json::Int(*i),
            Json::UInt(u) => Json::UInt(*u),
            Json::Float(t) => Json::Float(t.clone()),
            Json::Str(t) => Json::Str(t.clone()),
            Json::Array(items) => {
                let mut out: Vec<Json> = Vec::new();
                let mut i: usize = 0;
                while i < items.len()
                    invariant
                        *self == Json::Array(*items),
                        i <= items@.len(),
                        out@.len() == i,
                        forall|k: int| 0 <= k < i ==> json_view(#[trigger] out@[k]) == json_view(items@[k]),
                    decreases items@.len() - i,
                {
                    proof {
                        assert(decreases_to!(*self => (*self)->Array_0));
                        assert((*self)->Array_0 == *items);
                        assert(decreases_to!(*items => items[i as int]));
                    }
                    let c = items[i].clone();
                    out.push(c);
                    i += 1;
                }
                let r = Json::Array(out);
                assert(r@ == self@) by {
                    lemma_array_view(out);
                    lemma_array_view(*items);
                    assert(json_view(r)->Array_0 =~= json_view(*self)->Array_0);
                }
                r
            },
            Json::Object(fields) => {
                let mut out: Vec<(String, Json)> = Vec::new();
                let mut i: usize = 0;
                while i < fields.len()
                    invariant
                        *self == Json::Object(*fields),
                        i <= fields@.len(),
                        out@.len() == i,
                        forall|k: int| 0 <= k < i ==> (#[trigger] out@[k]).0@ == fields@[k].0@
                            && out@[k].1@ == fields@[k].1@,
                    decreases fields@.len() - i,
                {
                    let k = fields[i].0.clone();
                    proof {
                        assert(decreases_to!(*self => (*self)->Object_0));
                        assert((*self)->Object_0 == *fields);
                        assert(decreases_to!(*fields => fields[i as int]));
                        assert(decreases_to!(fields[i as int] => fields[i as int].1));
                    }
                    let v = fields[i].1.clone();
                    out.push((k, v));
                    i += 1;
                }
                let r = Json::Object(out);
                assert(r@ == self@) by {
                    lemma_object_view(out);
                    lemma_object_view(*fields);
                    assert(json_view(r)->Object_0 =~= json_view(*self)->Object_0);
                }
                r
            },
        }
    }
}


/// A count as a JSON number: an integer when it fits `i64`.
pub open spec fn num_json(n: int) -> JsonV {
    if n <= i64::MAX {
        JsonV::Int(n)
    } else {
        JsonV::UInt(n)
    }
}

pub fn usize_json(n: usize) -> (r: Json)
    ensures
        r@ == num_json(n as int),
{
    if n as u64 <= 9223372036854775807u64 {
        Json::Int(n as i64)
    } else {
        Json::UInt(n as u64)
    }
}

} // verus!
