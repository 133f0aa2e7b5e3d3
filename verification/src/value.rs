//! The JSON value tree: the in-memory representation of one parsed
//! document, and its mathematical model.
//!
//! A number keeps the literal text it was written with, so that a value
//! serializes back to the numeral it was parsed from and the
//! integer-versus-decimal distinction of the source survives.

use vstd::prelude::*;

verus! {

/// Mathematical model of a JSON value. Strings are character sequences,
/// arrays are sequences of models, objects are sequences of
/// key/model pairs in insertion order.
pub enum Json {
    Null,
    Bool(bool),
    /// The literal text of the numeral, e.g. `-12`, `0.5`, `1e9`.
    Num(Seq<char>),
    Str(Seq<char>),
    Arr(Seq<Json>),
    Obj(Seq<(Seq<char>, Json)>),
}

/// In-memory node of a parsed JSON document.
#[derive(Debug, PartialEq, Eq)]
pub enum Value {
    Null,
    Bool(bool),
    /// The literal text of the numeral.
    Num(String),
    Str(String),
    Arr(Vec<Value>),
    Obj(Vec<Member>),
}

/// One key/value entry of an object, in insertion order.
#[derive(Debug, PartialEq, Eq)]
pub struct Member {
    pub key: String,
    pub value: Value,
}

/// The model of a value tree.
pub open spec fn json_of(v: Value) -> Json
    decreases v, 1int,
{
    match v {
        Value::Null => Json::Null,
        Value::Bool(b) => Json::Bool(b),
        Value::Num(t) => Json::Num(t@),
        Value::Str(t) => Json::Str(t@),
        Value::Arr(items) => Json::Arr(json_of_seq(items@)),
        Value::Obj(members) => Json::Obj(json_of_members(members@)),
    }
}

/// The models of the elements of an array, in order.
pub open spec fn json_of_seq(s: Seq<Value>) -> Seq<Json>
    decreases s, 0int,
{
    if s.len() == 0 {
        Seq::empty()
    } else {
        seq![json_of(s[0])] + json_of_seq(s.drop_first())
    }
}

/// The models of the members of an object, in order.
pub open spec fn json_of_members(ms: Seq<Member>) -> Seq<(Seq<char>, Json)>
    decreases ms, 0int,
{
    if ms.len() == 0 {
        Seq::empty()
    } else {
        seq![(ms[0].key@, json_of(ms[0].value))] + json_of_members(ms.drop_first())
    }
}

/// Pointwise reading of `json_of_seq`.
pub proof fn lemma_json_of_seq(s: Seq<Value>)
    ensures
        json_of_seq(s).len() == s.len(),
        forall|i: int| 0 <= i < s.len() ==> #[trigger] json_of_seq(s)[i] == json_of(s[i]),
    decreases s.len(),
{
    if s.len() > 0 {
        lemma_json_of_seq(s.drop_first());
        assert forall|i: int| 0 <= i < s.len() implies #[trigger] json_of_seq(s)[i] == json_of(s[i]) by {
            if i > 0 {
                assert(json_of_seq(s)[i] == json_of_seq(s.drop_first())[i - 1]);
                assert(s.drop_first()[i - 1] == s[i]);
            }
        }
    }
}

/// Pointwise reading of `json_of_members`.
pub proof fn lemma_json_of_members(ms: Seq<Member>)
    ensures
        json_of_members(ms).len() == ms.len(),
        forall|i: int| 0 <= i < ms.len() ==> #[trigger] json_of_members(ms)[i] == (
        ms[i].key@,
        json_of(ms[i].value),
        ),
    decreases ms.len(),
{
    if ms.len() > 0 {
        lemma_json_of_members(ms.drop_first());
        assert forall|i: int| 0 <= i < ms.len() implies #[trigger] json_of_members(ms)[i] == ((
        ms[i].key@,
        json_of(ms[i].value),
        )) by {
            if i > 0 {
                assert(json_of_members(ms)[i] == json_of_members(ms.drop_first())[i - 1]);
                assert(ms.drop_first()[i - 1] == ms[i]);
            }
        }
    }
}

impl View for Value {
    type V = Json;

    open spec fn view(&self) -> Json {
        json_of(*self)
    }
}

impl View for Member {
    type V = (Seq<char>, Json);

    open spec fn view(&self) -> (Seq<char>, Json) {
        (self.key@, json_of(self.value))
    }
}

/// The kinds a value can have, used to report a type mismatch.
#[derive(Clone, Copy, PartialEq, Eq, Structural, Debug)]
pub enum Kind {
    Null,
    Bool,
    Num,
    Str,
    Arr,
    Obj,
}

/// The kind of a model value.
pub open spec fn kind_of(j: Json) -> Kind {
    match j {
        Json::Null => Kind::Null,
        Json::Bool(_) => Kind::Bool,
        Json::Num(_) => Kind::Num,
        Json::Str(_) => Kind::Str,
        Json::Arr(_) => Kind::Arr,
        Json::Obj(_) => Kind::Obj,
    }
}

impl Value {
    /// The kind of this value.
    pub fn kind(&self) -> (k: Kind)
        ensures
            k == kind_of(self@),
    {
        match self {
            Value::Null => Kind::Null,
            Value::Bool(_) => Kind::Bool,
            Value::Num(_) => Kind::Num,
            Value::Str(_) => Kind::Str,
            Value::Arr(_) => Kind::Arr,
            Value::Obj(_) => Kind::Obj,
        }
    }
}

/// Index of the first pair in `members` whose key is `key`, or -1 when
/// no pair has that key.
pub open spec fn find_key(members: Seq<(Seq<char>, Json)>, key: Seq<char>) -> int
    decreases members.len(),
{
    if members.len() == 0 {
        -1
    } else if members[0].0 == key {
        0
    } else {
        let rest = find_key(members.drop_first(), key);
        if rest == -1 {
            -1
        } else {
            rest + 1
        }
    }
}

/// Whether some pair of `members` has key `key`.
pub open spec fn has_key(members: Seq<(Seq<char>, Json)>, key: Seq<char>) -> bool {
    find_key(members, key) >= 0
}

/// `find_key` is either -1 or the index of the first pair carrying `key`.
pub proof fn lemma_find_key(members: Seq<(Seq<char>, Json)>, key: Seq<char>)
    ensures
        -1 <= find_key(members, key) < members.len(),
        find_key(members, key) == -1 ==> forall|i: int|
            0 <= i < members.len() ==> members[i].0 != key,
        find_key(members, key) >= 0 ==> {
            &&& find_key(members, key) < members.len()
            &&& members[find_key(members, key)].0 == key
            &&& forall|i: int| 0 <= i < find_key(members, key) ==> members[i].0 != key
        },
    decreases members.len(),
{
    if members.len() > 0 && members[0].0 != key {
        lemma_find_key(members.drop_first(), key);
        let rest = find_key(members.drop_first(), key);
        if rest == -1 {
            assert forall|i: int| 0 <= i < members.len() implies members[i].0 != key by {
                if i >= 1 {
                    assert(members.drop_first()[i - 1] == members[i]);
                }
            }
        } else {
            assert(members[rest + 1] == members.drop_first()[rest]);
            assert forall|i: int| 0 <= i < rest + 1 implies members[i].0 != key by {
                if i >= 1 {
                    assert(members.drop_first()[i - 1] == members[i]);
                }
            }
        }
    }
}

/// Object keys are pairwise distinct.
pub open spec fn unique_keys(members: Seq<(Seq<char>, Json)>) -> bool {
    forall|i: int, j: int|
        0 <= i < j < members.len() ==> members[i].0 != members[j].0
}

/// Well-formedness of a model value: every numeral is a valid JSON
/// number literal and every object has pairwise distinct keys.
pub open spec fn json_wf(j: Json) -> bool
    decreases j,
{
    match j {
        Json::Null => true,
        Json::Bool(_) => true,
        Json::Num(t) => crate::numscan::is_number_lit(t),
        Json::Str(_) => true,
        Json::Arr(items) => forall|i: int| 0 <= i < items.len() ==> json_wf(#[trigger] items[i]),
        Json::Obj(members) => {
            &&& unique_keys(members)
            &&& forall|i: int| 0 <= i < members.len() ==> json_wf(#[trigger] members[i].1)
        },
    }
}

} // verus!
