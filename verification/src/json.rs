//! A JSON value model that the protocol logic reads and builds.
//!
//! The library works on `JsonValue`, whose view is the mathematical `Json`;
//! `json_text` reads such values from bytes and writes them as bytes.

use vstd::prelude::*;

use crate::text::str_eq;
use vstd::string::StringExecFns;

verus! {

/// A JSON number as the JSON library distinguishes it: a non-negative
/// integer, a negative integer, or any other number kept as its text.
#[derive(Debug)]
pub enum JsonNumber {
    PosInt(u64),
    NegInt(i64),
    Float(String),
}

/// One `"key": value` member of a JSON object.
#[derive(Debug)]
pub struct JsonMember {
    pub key: String,
    pub value: JsonValue,
}

/// A JSON value.
#[derive(Debug)]
pub enum JsonValue {
    Null,
    Bool(bool),
    Number(JsonNumber),
    String(String),
    Array(Vec<JsonValue>),
    Object(Vec<JsonMember>),
}

/// Mathematical view of a JSON number.
pub enum NumberView {
    PosInt(u64),
    NegInt(i64),
    Float(Seq<char>),
}

/// Mathematical view of a JSON value.
pub enum Json {
    Null,
    Bool(bool),
    Number(NumberView),
    String(Seq<char>),
    Array(Seq<Json>),
    Object(Seq<(Seq<char>, Json)>),
}

impl View for JsonNumber {
    type V = NumberView;

    open spec fn view(&self) -> NumberView {
        match self {
            JsonNumber::PosInt(n) => NumberView::PosInt(*n),
            JsonNumber::NegInt(n) => NumberView::NegInt(*n),
            JsonNumber::Float(t) => NumberView::Float(t@),
        }
    }
}

/// The view of a JSON value.
pub open spec fn json_of(v: JsonValue) -> Json
    decreases v,
{
    match v {
        JsonValue::Null => Json::Null,
        JsonValue::Bool(b) => Json::Bool(b),
        JsonValue::Number(n) => Json::Number(n@),
        JsonValue::String(s) => Json::String(s@),
        JsonValue::Array(items) => Json::Array(items_of(items@)),
        JsonValue::Object(members) => Json::Object(members_of(members@)),
    }
}

/// The views of the items of an array, in order.
pub open spec fn items_of(items: Seq<JsonValue>) -> Seq<Json>
    decreases items,
{
    if items.len() == 0 {
        Seq::empty()
    } else {
        items_of(items.drop_last()).push(json_of(items.last()))
    }
}

/// The views of the members of an object, in order.
pub open spec fn members_of(members: Seq<JsonMember>) -> Seq<(Seq<char>, Json)>
    decreases members,
{
    if members.len() == 0 {
        Seq::empty()
    } else {
        members_of(members.drop_last()).push((members.last().key@, json_of(members.last().value)))
    }
}

impl View for JsonValue {
    type V = Json;

    open spec fn view(&self) -> Json {
        json_of(*self)
    }
}

/// The view of an array is item by item the view of its items.
pub proof fn lemma_items_of(items: Seq<JsonValue>)
    ensures
        items_of(items).len() == items.len(),
        forall|i: int| 0 <= i < items.len() ==> #[trigger] items_of(items)[i] == json_of(items[i]),
    decreases items.len(),
{
    if items.len() > 0 {
        lemma_items_of(items.drop_last());
    }
}

/// The view of an object is member by member the view of its members.
pub proof fn lemma_members_of(members: Seq<JsonMember>)
    ensures
        members_of(members).len() == members.len(),
        forall|i: int| 0 <= i < members.len() ==> #[trigger] members_of(members)[i] == (members[i].key@, json_of(members[i].value)),
    decreases members.len(),
{
    if members.len() > 0 {
        lemma_members_of(members.drop_last());
    }
}

/// The value of the last member named `key`, as a later member replaces an
/// earlier one of the same name.
pub open spec fn lookup(members: Seq<(Seq<char>, Json)>, key: Seq<char>) -> Option<Json>
    decreases members.len(),
{
    if members.len() == 0 {
        None
    } else if members.last().0 == key {
        Some(members.last().1)
    } else {
        lookup(members.drop_last(), key)
    }
}

impl Json {
    /// The member `key` of an object; `None` for a missing member or a non-object.
    pub open spec fn get(self, key: Seq<char>) -> Option<Json> {
        match self {
            Json::Object(members) => lookup(members, key),
            _ => None,
        }
    }

    pub open spec fn as_str(self) -> Option<Seq<char>> {
        match self {
            Json::String(s) => Some(s),
            _ => None,
        }
    }

    /// The number as a `u64`, if it is a non-negative integer.
    pub open spec fn as_u64(self) -> Option<u64> {
        match self {
            Json::Number(NumberView::PosInt(n)) => Some(n),
            _ => None,
        }
    }

    /// The number as an `i64`, if it is an integer in range.
    pub open spec fn as_i64(self) -> Option<i64> {
        match self {
            Json::Number(NumberView::PosInt(n)) => if n <= i64::MAX {
                Some(n as i64)
            } else {
                None
            },
            Json::Number(NumberView::NegInt(n)) => Some(n),
            _ => None,
        }
    }

    pub open spec fn is_object(self) -> bool {
        self is Object
    }
}

/// Looking a key up among the first `i` members gives the whole lookup when no
/// later member carries that key.
proof fn lemma_lookup_prefix(members: Seq<(Seq<char>, Json)>, key: Seq<char>, i: int)
    requires
        0 <= i <= members.len(),
        forall|j: int| i <= j < members.len() ==> members[j].0 != key,
    ensures
        lookup(members, key) == lookup(members.take(i), key),
    decreases members.len() - i,
{
    if i < members.len() {
        lemma_lookup_prefix(members.drop_last(), key, i);
        assert(members.drop_last().take(i) =~= members.take(i));
    } else {
        assert(members.take(i) =~= members);
    }
}

/// The member at `i` is the one that a lookup of its key finds when no
/// later member carries the same key; a key that no member carries is not
/// found.
pub proof fn lemma_lookup_member(members: Seq<(Seq<char>, Json)>, key: Seq<char>, i: int)
    requires
        -1 <= i < members.len(),
        i >= 0 ==> members[i].0 == key,
        forall|j: int| i < j < members.len() ==> members[j].0 != key,
    ensures
        i >= 0 ==> lookup(members, key) == Some(members[i].1),
        i < 0 ==> lookup(members, key) is None,
{
    lemma_lookup_prefix(members, key, i + 1);
    if i >= 0 {
        assert(members.take(i + 1).last() == members[i]);
    } else {
        assert(members.take(0).len() == 0);
    }
}

impl JsonValue {
    /// The member named `key` of an object value (the last one, should the
    /// name repeat); `None` when there is none or the value is not an object.
    pub fn get(&self, key: &str) -> (res: Option<&JsonValue>)
        ensures
            match res {
                Some(v) => self@.get(key@) == Some(v@),
                None => self@.get(key@) is None,
            },
    {
        match self {
            JsonValue::Object(members) => {
                let ghost ms = self@->Object_0;
                proof {
                    lemma_members_of(members@);
                }
                assert(ms.take(members.len() as int) =~= ms);
                let mut i = members.len();
                while i > 0
                    invariant
                        i <= members.len(),
                        self@ == Json::Object(ms),
                        ms.len() == members.len(),
                        forall|j: int| 0 <= j < members.len() ==> #[trigger] ms[j] == (members[j].key@, members[j].value@),
                        lookup(ms, key@) == lookup(ms.take(i as int), key@),
                    decreases i,
                {
                    if str_eq(members[i - 1].key.as_str(), key) {
                        assert(ms[i - 1] == (members[i - 1].key@, members[i - 1].value@));
                        assert(ms.take(i as int).last() == ms[i - 1]);
                        assert(lookup(ms.take(i as int), key@) == Some(ms[i - 1].1));
                        return Some(&members[i - 1].value);
                    }
                    assert(ms.take(i as int).drop_last() =~= ms.take(i - 1));
                    i = i - 1;
                }
                assert(ms.take(0) =~= Seq::<(Seq<char>, Json)>::empty());
                None
            },
            _ => None,
        }
    }

    /// Whether the value is an object with a member named `key`.
    pub fn contains_key(&self, key: &str) -> (res: bool)
        ensures
            res == (self@.get(key@) is Some),
    {
        self.get(key).is_some()
    }

    pub fn as_str(&self) -> (res: Option<&String>)
        ensures
            match res {
                Some(s) => self@.as_str() == Some(s@),
                None => self@.as_str() is None,
            },
    {
        match self {
            JsonValue::String(s) => Some(s),
            _ => None,
        }
    }

    pub fn as_u64(&self) -> (res: Option<u64>)
        ensures
            res == self@.as_u64(),
    {
        match self {
            JsonValue::Number(JsonNumber::PosInt(n)) => Some(*n),
            _ => None,
        }
    }

    pub fn as_i64(&self) -> (res: Option<i64>)
        ensures
            res == self@.as_i64(),
    {
        match self {
            JsonValue::Number(JsonNumber::PosInt(n)) => if *n <= i64::MAX as u64 {
                Some(*n as i64)
            } else {
                None
            },
            JsonValue::Number(JsonNumber::NegInt(n)) => Some(*n),
            _ => None,
        }
    }

    pub fn is_object(&self) -> (res: bool)
        ensures
            res == self@.is_object(),
    {
        match self {
            JsonValue::Object(_) => true,
            _ => false,
        }
    }

    /// A copy of the value.
    pub fn deep_clone(&self) -> (res: JsonValue)
        ensures
            res@ == self@,
        decreases self,
    {
        match self {
            JsonValue::Null => JsonValue::Null,
            JsonValue::Bool(b) => JsonValue::Bool(*b),
            JsonValue::Number(JsonNumber::PosInt(n)) => JsonValue::Number(JsonNumber::PosInt(*n)),
            JsonValue::Number(JsonNumber::NegInt(n)) => JsonValue::Number(JsonNumber::NegInt(*n)),
            JsonValue::Number(JsonNumber::Float(t)) => JsonValue::Number(JsonNumber::Float(t.clone())),
            JsonValue::String(s) => JsonValue::String(s.clone()),
            JsonValue::Array(items) => {
                let mut out: Vec<JsonValue> = Vec::new();
                let mut i: usize = 0;
                #[verifier::loop_isolation(false)]
                while i < items.len()
                    invariant
                        i <= items.len(),
                        out.len() == i,
                        forall|j: int| 0 <= j < i ==> json_of(#[trigger] out@[j]) == json_of(items@[j]),
                    decreases items.len() - i,
                {
                    proof {
                        assert(decreases_to!(self => items[i as int]));
                    }
                    out.push(items[i].deep_clone());
                    i = i + 1;
                }
                let res = JsonValue::Array(out);
                proof {
                    lemma_items_of(out@);
                    lemma_items_of(items@);
                }
                assert(res@->Array_0 =~= self@->Array_0);
                res
            },
            JsonValue::Object(members) => {
                let mut out: Vec<JsonMember> = Vec::new();
                let mut i: usize = 0;
                #[verifier::loop_isolation(false)]
                while i < members.len()
                    invariant
                        i <= members.len(),
                        out.len() == i,
                        forall|j: int| 0 <= j < i ==> #[trigger] out[j].key@ == members[j].key@ && out[j].value@ == members[j].value@,
                    decreases members.len() - i,
                {
                    proof {
                        assert(decreases_to!(self => members[i as int].value));
                    }
                    out.push(JsonMember { key: members[i].key.clone(), value: members[i].value.deep_clone() });
                    i = i + 1;
                }
                let res = JsonValue::Object(out);
                proof {
                    lemma_members_of(out@);
                    lemma_members_of(members@);
                }
                assert(res@->Object_0 =~= self@->Object_0);
                res
            },
        }
    }
}

/// The view of an integer as the JSON library stores it: negative integers
/// as `NegInt`, the others as `PosInt`.
pub open spec fn int_json(n: i64) -> Json {
    if n < 0 {
        Json::Number(NumberView::NegInt(n))
    } else {
        Json::Number(NumberView::PosInt(n as u64))
    }
}

/// A JSON string holding `s`.
pub fn json_string(s: &str) -> (res: JsonValue)
    ensures
        res@ == Json::String(s@),
{
    JsonValue::String(String::from_str(s))
}

/// A JSON number holding the integer `n`.
pub fn json_int(n: i64) -> (res: JsonValue)
    ensures
        res@ == int_json(n),
{
    if n < 0 {
        JsonValue::Number(JsonNumber::NegInt(n))
    } else {
        JsonValue::Number(JsonNumber::PosInt(n as u64))
    }
}

/// A JSON number holding the non-negative integer `n`.
pub fn json_uint(n: u64) -> (res: JsonValue)
    ensures
        res@ == Json::Number(NumberView::PosInt(n)),
{
    JsonValue::Number(JsonNumber::PosInt(n))
}

/// An object member `key: value`.
pub fn member(key: &str, value: JsonValue) -> (res: JsonMember)
    ensures
        res.key@ == key@,
        res.value@ == value@,
{
    JsonMember { key: String::from_str(key), value }
}

/// An object with the given members, in order.
pub fn object(members: Vec<JsonMember>) -> (res: JsonValue)
    ensures
        res@ == Json::Object(members_of(members@)),
{
    JsonValue::Object(members)
}

/// An array with the given items, in order.
pub fn array(items: Vec<JsonValue>) -> (res: JsonValue)
    ensures
        res@ == Json::Array(items_of(items@)),
{
    JsonValue::Array(items)
}

/// A JSON object from literal members.
pub open spec fn obj(members: Seq<(Seq<char>, Json)>) -> Json {
    Json::Object(members)
}

pub open spec fn str_json(s: Seq<char>) -> Json {
    Json::String(s)
}

/// A two-member object.
pub fn object2(k1: &str, v1: JsonValue, k2: &str, v2: JsonValue) -> (res: JsonValue)
    ensures
        res@ == obj(seq![(k1@, v1@), (k2@, v2@)]),
{
    let members: Vec<JsonMember> = vec![member(k1, v1), member(k2, v2)];
    proof {
        lemma_members_of(members@);
    }
    let res = object(members);
    assert(res@->Object_0 =~= seq![(k1@, v1@), (k2@, v2@)]);
    res
}

/// A one-member object.
pub fn object1(k1: &str, v1: JsonValue) -> (res: JsonValue)
    ensures
        res@ == obj(seq![(k1@, v1@)]),
{
    let members: Vec<JsonMember> = vec![member(k1, v1)];
    proof {
        lemma_members_of(members@);
    }
    let res = object(members);
    assert(res@->Object_0 =~= seq![(k1@, v1@)]);
    res
}

/// A three-member object.
pub fn object3(k1: &str, v1: JsonValue, k2: &str, v2: JsonValue, k3: &str, v3: JsonValue) -> (res: JsonValue)
    ensures
        res@ == obj(seq![(k1@, v1@), (k2@, v2@), (k3@, v3@)]),
{
    let members: Vec<JsonMember> = vec![member(k1, v1), member(k2, v2), member(k3, v3)];
    proof {
        lemma_members_of(members@);
    }
    let res = object(members);
    assert(res@->Object_0 =~= seq![(k1@, v1@), (k2@, v2@), (k3@, v3@)]);
    res
}

/// A four-member object.
pub fn object4(k1: &str, v1: JsonValue, k2: &str, v2: JsonValue, k3: &str, v3: JsonValue, k4: &str, v4: JsonValue) -> (res: JsonValue)
    ensures
        res@ == obj(seq![(k1@, v1@), (k2@, v2@), (k3@, v3@), (k4@, v4@)]),
{
    let members: Vec<JsonMember> = vec![member(k1, v1), member(k2, v2), member(k3, v3), member(k4, v4)];
    proof {
        lemma_members_of(members@);
    }
    let res = object(members);
    assert(res@->Object_0 =~= seq![(k1@, v1@), (k2@, v2@), (k3@, v3@), (k4@, v4@)]);
    res
}

/// A one-item array.
pub fn array1(v1: JsonValue) -> (res: JsonValue)
    ensures
        res@ == Json::Array(seq![v1@]),
{
    let items: Vec<JsonValue> = vec![v1];
    proof {
        lemma_items_of(items@);
    }
    let res = array(items);
    assert(res@->Array_0 =~= seq![v1@]);
    res
}

} // verus!
