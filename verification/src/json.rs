//! JSON values as this library reads them: parsed by `serde_json`, then held
//! as plain data that the decoder can inspect.

use vstd::prelude::*;

verus! {

/// A JSON value held as plain data.
#[derive(Debug, PartialEq, Eq)]
pub enum Json {
    Null,
    Bool(bool),
    /// A number; the payload is its value where it is an integer that fits `i64`.
    Number(Option<i64>),
    Text(String),
    Array(Vec<Json>),
    /// The members of an object, each a key with its value.
    Object(Vec<(String, Json)>),
}

/// `serde_json::Value`, whose variants the verifier does not see.
#[verifier::external_type_specification]
#[verifier::external_body]
pub struct ExValue(serde_json::Value);

/// The plain data that a `serde_json::Value` holds.
pub uninterp spec fn value_json(value: serde_json::Value) -> Json;

/// The JSON value that a text denotes, as `serde_json::from_str` reads it;
/// `None` where it reports an error.
pub uninterp spec fn json_of(text: Seq<char>) -> Option<Json>;

/// Calls `serde_json::from_str` at the type `serde_json::Value` and drops the
/// error. The contract only names the result: the same text always parses to
/// a value with the same data, or never parses.
#[verifier::external_body]
fn parse_value(text: &str) -> (r: Option<serde_json::Value>)
    ensures
        match r {
            Some(value) => json_of(text@) == Some(value_json(value)),
            None => json_of(text@) is None,
        },
{
    serde_json::from_str::<serde_json::Value>(text).ok()
}

/// Copies a `serde_json::Value` into a `Json`, variant by variant; a number is
/// read with `serde_json::Number::as_i64`, the members of an object in the
/// order in which `serde_json::Map::iter` yields them. The contract only names
/// the result.
#[verifier::external_body]
fn lift(value: &serde_json::Value) -> (j: Json)
    ensures
        j == value_json(*value),
{
    match value {
        serde_json::Value::Null => Json::Null,
        serde_json::Value::Bool(b) => Json::Bool(*b),
        serde_json::Value::Number(n) => Json::Number(n.as_i64()),
        serde_json::Value::String(s) => Json::Text(s.clone()),
        serde_json::Value::Array(a) => Json::Array(a.iter().map(lift).collect()),
        serde_json::Value::Object(m) => Json::Object(
            m.iter().map(|(k, v)| (k.clone(), lift(v))).collect(),
        ),
    }
}

/// What `serde_json::to_string_pretty` writes for an object with the one
/// member `key`, whose value is the string `value`.
pub uninterp spec fn pretty_entry_text(key: Seq<char>, value: Seq<char>) -> Seq<char>;

/// Makes a `serde_json::Value` that is an object with the one member and
/// writes it with `serde_json::to_string_pretty`, which reports no error for
/// such a value. The contract only names the result.
#[verifier::external_body]
pub(crate) fn pretty_entry(key: &str, value: &str) -> (text: String)
    ensures
        text@ == pretty_entry_text(key@, value@),
{
    let mut object = serde_json::Map::new();
    object.insert(key.to_string(), serde_json::Value::String(value.to_string()));
    serde_json::to_string_pretty(&serde_json::Value::Object(object)).unwrap_or_default()
}

/// Parses one JSON text.
pub fn read_json(text: &str) -> (r: Option<Json>)
    ensures
        r == json_of(text@),
{
    match parse_value(text) {
        Some(v) => Some(lift(&v)),
        None => None,
    }
}

/// The value of the first member named `key` among `members`.
pub open spec fn first_named(members: Seq<(String, Json)>, key: Seq<char>) -> Option<Json>
    decreases members.len(),
{
    if members.len() == 0 {
        None
    } else if members.first().0@ == key {
        Some(members.first().1)
    } else {
        first_named(members.drop_first(), key)
    }
}

/// The integers that `items` hold, where each of them is an integer.
pub open spec fn ints_of(items: Seq<Json>) -> Option<Seq<int>> {
    if forall|i: int| 0 <= i < items.len() ==> (#[trigger] items[i]).integer() is Some {
        Some(Seq::new(items.len(), |i: int| items[i].integer()->0))
    } else {
        None
    }
}

impl Json {
    /// The value of the member `key`, where `self` is an object that has one.
    pub open spec fn member(self, key: Seq<char>) -> Option<Json> {
        match self {
            Json::Object(members) => first_named(members@, key),
            _ => None,
        }
    }

    /// The integer that `self` is, where it is one.
    pub open spec fn integer(self) -> Option<int> {
        match self {
            Json::Number(Some(n)) => Some(n as int),
            _ => None,
        }
    }

    /// The string that `self` is, where it is one.
    pub open spec fn text(self) -> Option<Seq<char>> {
        match self {
            Json::Text(s) => Some(s@),
            _ => None,
        }
    }

    /// Looks up the member `key` of an object.
    pub fn get(&self, key: &str) -> (r: Option<&Json>)
        ensures
            match r {
                Some(j) => self.member(key@) == Some(*j),
                None => self.member(key@) is None,
            },
    {
        match self {
            Json::Object(members) => {
                let wanted = key.to_owned();
                let mut i: usize = 0;
                proof {
                    assert(members@.skip(0) =~= members@);
                }
                while i < members.len()
                    invariant
                        i <= members.len(),
                        wanted@ == key@,
                        self.member(key@) == first_named(members@, key@),
                        first_named(members@, key@) == first_named(members@.skip(i as int), key@),
                    decreases members.len() - i,
                {
                    if members[i].0 == wanted {
                        return Some(&members[i].1);
                    }
                    proof {
                        assert(members@.skip(i as int).drop_first() =~= members@.skip(i + 1));
                    }
                    i += 1;
                }
                None
            },
            _ => None,
        }
    }

    /// The integer that `self` is, if it is one.
    pub fn as_int(&self) -> (r: Option<i64>)
        ensures
            match r {
                Some(n) => self.integer() == Some(n as int),
                None => self.integer() is None,
            },
    {
        match self {
            Json::Number(Some(n)) => Some(*n),
            _ => None,
        }
    }

    /// The string that `self` is, if it is one.
    pub fn as_text(&self) -> (r: Option<&String>)
        ensures
            match r {
                Some(s) => self.text() == Some(s@),
                None => self.text() is None,
            },
    {
        match self {
            Json::Text(s) => Some(s),
            _ => None,
        }
    }

    /// The integers of an array of integers.
    pub fn as_ints(&self) -> (r: Option<Vec<i64>>)
        ensures
            match r {
                Some(v) => self is Array && ints_of(self->Array_0@) == Some(
                    v@.map_values(|n: i64| n as int),
                ),
                None => !(self is Array) || ints_of(self->Array_0@) is None,
            },
    {
        match self {
            Json::Array(items) => {
                let mut v: Vec<i64> = Vec::new();
                let mut i: usize = 0;
                while i < items.len()
                    invariant
                        i <= items.len(),
                        v.len() == i,
                        self is Array,
                        self->Array_0 == items,
                        forall|k: int| 0 <= k < i ==> (#[trigger] items@[k]).integer() == Some(v@[k] as int),
                    decreases items.len() - i,
                {
                    match items[i].as_int() {
                        Some(n) => {
                            v.push(n);
                        },
                        None => {
                            return None;
                        },
                    }
                    i += 1;
                }
                proof {
                    assert(v@.map_values(|n: i64| n as int) =~= Seq::new(
                        items@.len(),
                        |i: int| items@[i].integer()->0,
                    ));
                }
                Some(v)
            },
            _ => None,
        }
    }
}

} // verus!
