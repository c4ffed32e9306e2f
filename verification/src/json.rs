//! A JSON value held as plain data, and the lookups the logic performs on it.
use vstd::prelude::*;
use crate::decimal::{decimal, decimal_chars, padded_decimal, zero_pad};
use crate::text::string_from_chars;

verus! {

/// A JSON number: its text, and its value where it is an integer that fits.
#[derive(Debug, Clone, PartialEq)]
pub struct JsonNumber {
    /// The number as JSON writes it.
    pub text: String,
    /// The value, when it is a non-negative integer that fits in `u64`.
    pub as_u64: Option<u64>,
    /// The value, when it is an integer that fits in `i64`.
    pub as_i64: Option<i64>,
}

/// An exact copy of a number.
pub fn copy_number(n: &JsonNumber) -> (r: JsonNumber)
    ensures
        r == *n,
{
    JsonNumber { text: n.text.clone(), as_u64: n.as_u64, as_i64: n.as_i64 }
}

/// A JSON value. Object members keep their order; keys are unique.
#[derive(Debug, PartialEq)]
pub enum JsonValue {
    Null,
    Bool(bool),
    Number(JsonNumber),
    String(String),
    Array(Vec<JsonValue>),
    Object(Vec<(String, JsonValue)>),
}

/// `a` and `b` are the same JSON value: the same variant, with equal
/// scalars and texts, and arrays and objects of the same length whose items
/// (members with the same keys) are the same values, position by position.
pub open spec fn same_json(a: JsonValue, b: JsonValue) -> bool
    decreases a,
{
    match (a, b) {
        (JsonValue::Null, JsonValue::Null) => true,
        (JsonValue::Bool(x), JsonValue::Bool(y)) => x == y,
        (JsonValue::Number(x), JsonValue::Number(y)) => x == y,
        (JsonValue::String(x), JsonValue::String(y)) => x@ == y@,
        (JsonValue::Array(x), JsonValue::Array(y)) => {
            &&& x@.len() == y@.len()
            &&& forall|k: int| 0 <= k < x@.len() ==> same_json(#[trigger] x@[k], y@[k])
        },
        (JsonValue::Object(x), JsonValue::Object(y)) => {
            &&& x@.len() == y@.len()
            &&& forall|k: int|
                0 <= k < x@.len() ==> (#[trigger] x@[k]).0@ == y@[k].0@ && same_json(x@[k].1, y@[k].1)
        },
        _ => false,
    }
}

/// A copy of a value: the same variant, with copies of its parts.
fn copy_value(v: &JsonValue) -> (r: JsonValue)
    ensures
        same_json(r, *v),
    decreases v,
{
    match v {
        JsonValue::Null => JsonValue::Null,
        JsonValue::Bool(b) => JsonValue::Bool(*b),
        JsonValue::Number(n) => JsonValue::Number(copy_number(n)),
        JsonValue::String(s) => JsonValue::String(s.clone()),
        JsonValue::Array(items) => {
            let mut out: Vec<JsonValue> = Vec::new();
            let mut i: usize = 0;
            while i < items.len()
                invariant
                    i <= items.len(),
                    *v == JsonValue::Array(*items),
                    out@.len() == i,
                    forall|k: int| 0 <= k < i ==> same_json(#[trigger] out@[k], items@[k]),
                decreases items.len() - i,
            {
                proof {
                    assert(decreases_to!(*v => (*v)->Array_0));
                    assert(decreases_to!((*v)->Array_0 => (*v)->Array_0@));
                    assert(decreases_to!((*v)->Array_0@ => items@[i as int]));
                }
                out.push(copy_value(&items[i]));
                i = i + 1;
            }
            JsonValue::Array(out)
        },
        JsonValue::Object(members) => {
            let mut out: Vec<(String, JsonValue)> = Vec::new();
            let mut i: usize = 0;
            while i < members.len()
                invariant
                    i <= members.len(),
                    *v == JsonValue::Object(*members),
                    out@.len() == i,
                    forall|k: int|
                        0 <= k < i ==> (#[trigger] out@[k]).0@ == members@[k].0@ && same_json(
                            out@[k].1,
                            members@[k].1,
                        ),
                decreases members.len() - i,
            {
                proof {
                    assert(decreases_to!(*v => (*v)->Object_0));
                    assert(decreases_to!((*v)->Object_0 => (*v)->Object_0@));
                    assert(decreases_to!((*v)->Object_0@ => members@[i as int]));
                    assert(decreases_to!(members@[i as int] => members@[i as int].1));
                }
                let value = copy_value(&members[i].1);
                out.push((members[i].0.clone(), value));
                i = i + 1;
            }
            JsonValue::Object(out)
        },
    }
}

impl Clone for JsonValue {
    fn clone(&self) -> Self {
        copy_value(self)
    }
}

/// Index of the first member of `members` named `key`, if any.
pub open spec fn member_index(members: Seq<(String, JsonValue)>, key: Seq<char>) -> Option<int> {
    if exists|i: int| 0 <= i < members.len() && (#[trigger] members[i]).0@ == key {
        Some(
            choose|i: int|
                0 <= i < members.len() && (#[trigger] members[i]).0@ == key && forall|j: int|
                    0 <= j < i ==> (#[trigger] members[j]).0@ != key,
        )
    } else {
        None
    }
}

/// The member `key` of an object (`Value::get` with a string key).
pub open spec fn spec_get(v: JsonValue, key: Seq<char>) -> Option<JsonValue> {
    match v {
        JsonValue::Object(members) => match member_index(members@, key) {
            Some(i) => Some(members@[i].1),
            None => None,
        },
        _ => None,
    }
}

/// The text of a JSON string (`Value::as_str`).
pub open spec fn spec_as_str(v: Option<JsonValue>) -> Option<Seq<char>> {
    match v {
        Some(JsonValue::String(s)) => Some(s@),
        _ => None,
    }
}

/// A JSON boolean (`Value::as_bool`).
pub open spec fn spec_as_bool(v: Option<JsonValue>) -> Option<bool> {
    match v {
        Some(JsonValue::Bool(b)) => Some(b),
        _ => None,
    }
}

/// A JSON number that is a non-negative integer (`Value::as_u64`).
pub open spec fn spec_as_u64(v: Option<JsonValue>) -> Option<u64> {
    match v {
        Some(JsonValue::Number(n)) => n.as_u64,
        _ => None,
    }
}

/// The elements of a JSON array (`Value::as_array`).
pub open spec fn spec_as_array(v: Option<JsonValue>) -> Option<Seq<JsonValue>> {
    match v {
        Some(JsonValue::Array(items)) => Some(items@),
        _ => None,
    }
}

proof fn lemma_member_index(members: Seq<(String, JsonValue)>, key: Seq<char>, i: int)
    requires
        0 <= i < members.len(),
        members[i].0@ == key,
        forall|j: int| 0 <= j < i ==> (#[trigger] members[j]).0@ != key,
    ensures
        member_index(members, key) == Some(i),
{
    let k = choose|k: int|
        0 <= k < members.len() && (#[trigger] members[k]).0@ == key && forall|j: int|
            0 <= j < k ==> (#[trigger] members[j]).0@ != key;
    if k < i {
        assert(members[k].0@ != key);
    }
    if i < k {
        assert(members[i].0@ != key);
    }
}

/// Whether the text of `a` equals the text of `b`.
fn str_eq(a: &str, b: &str) -> (r: bool)
    ensures
        r == (a@ == b@),
{
    crate::text::chars_equal(&crate::text::chars_of(a), &crate::text::chars_of(b))
}

/// The member `key` of an object.
pub fn get<'a>(v: &'a JsonValue, key: &str) -> (r: Option<&'a JsonValue>)
    ensures
        match r {
            Some(x) => spec_get(*v, key@) == Some(*x),
            None => spec_get(*v, key@) is None,
        },
{
    match v {
        JsonValue::Object(members) => {
            let mut i: usize = 0;
            while i < members.len()
                invariant
                    i <= members.len(),
                    *v == JsonValue::Object(*members),
                    forall|j: int| 0 <= j < i ==> (#[trigger] members@[j]).0@ != key@,
                decreases members.len() - i,
            {
                if str_eq(members[i].0.as_str(), key) {
                    proof {
                        lemma_member_index(members@, key@, i as int);
                    }
                    let r = &members[i].1;
                    assert(*r == members@[i as int].1);

                    return Some(r);
                }
                i = i + 1;
            }
            assert(!(exists|j: int| 0 <= j < members@.len() && (#[trigger] members@[j]).0@ == key@));
            None
        },
        _ => None,
    }
}

/// The text of a JSON string.
pub fn as_str(v: Option<&JsonValue>) -> (r: Option<&str>)
    ensures
        match r {
            Some(s) => spec_as_str(match v { Some(x) => Some(*x), None => None }) == Some(s@),
            None => spec_as_str(match v { Some(x) => Some(*x), None => None }) is None,
        },
{
    match v {
        Some(JsonValue::String(s)) => Some(s.as_str()),
        _ => None,
    }
}

/// A JSON boolean.
pub fn as_bool(v: Option<&JsonValue>) -> (r: Option<bool>)
    ensures
        r == spec_as_bool(match v { Some(x) => Some(*x), None => None }),
{
    match v {
        Some(JsonValue::Bool(b)) => Some(*b),
        _ => None,
    }
}

/// A JSON number that is a non-negative integer.
pub fn as_u64(v: Option<&JsonValue>) -> (r: Option<u64>)
    ensures
        r == spec_as_u64(match v { Some(x) => Some(*x), None => None }),
{
    match v {
        Some(JsonValue::Number(n)) => n.as_u64,
        _ => None,
    }
}

/// `{ key: value }`.
pub fn object1(key: &str, value: JsonValue) -> (r: JsonValue)
    ensures
        r matches JsonValue::Object(m) && m@.len() == 1 && m@[0].0@ == key@ && m@[0].1 == value,
{
    let mut m: Vec<(String, JsonValue)> = Vec::new();
    m.push((key.to_owned(), value));
    JsonValue::Object(m)
}

/// A JSON string holding `s`.
pub fn string_value(s: &str) -> (r: JsonValue)
    ensures
        r matches JsonValue::String(t) && t@ == s@,
{
    JsonValue::String(s.to_owned())
}

/// Object `members` with member `key` set to `value`, as inserting into a
/// JSON map does: the value of an existing member is replaced in place,
/// otherwise the member is added at the end.
pub fn set_member(members: Vec<(String, JsonValue)>, key: &str, value: JsonValue) -> (r: Vec<(String, JsonValue)>)
    ensures
        match member_index(members@, key@) {
            Some(i) => r@.len() == members@.len() && r@[i].0@ == key@ && r@[i].1 == value && forall|j: int|
                0 <= j < r@.len() && j != i ==> #[trigger] r@[j] == members@[j],
            None => r@.len() == members@.len() + 1 && r@.subrange(0, members@.len() as int) == members@
                && r@[members@.len() as int].0@ == key@ && r@[members@.len() as int].1 == value,
        },
{
    let ghost orig = members@;
    let mut out = members;
    let mut i: usize = 0;
    while i < out.len()
        invariant
            i <= out.len(),
            out@ == orig,
            orig == members@,
            forall|j: int| 0 <= j < i ==> (#[trigger] out@[j]).0@ != key@,
        decreases out.len() - i,
    {
        if str_eq(out[i].0.as_str(), key) {
            proof {
                lemma_member_index(out@, key@, i as int);
            }
            let name = out[i].0.clone();
            out.set(i, (name, value));
            return out;
        }
        i = i + 1;
    }
    out.push((key.to_owned(), value));
    assert(out@.subrange(0, orig.len() as int) == orig);
    out
}

/// The JSON number holding integer `n`, written as JSON writes it.
pub fn int_number(n: i64) -> (r: JsonNumber)
    ensures
        r.text@ == padded_decimal(n as int, 0),
        r.as_i64 == Some(n),
        r.as_u64 == if n >= 0 { Some(n as u64) } else { None::<u64> },
{
    if n >= 0 {
        let digits = decimal_chars(n as u64);
        assert(zero_pad(decimal(n as nat), 0) == decimal(n as nat));
        JsonNumber { text: string_from_chars(&digits), as_u64: Some(n as u64), as_i64: Some(n) }
    } else {
        let mag: u64 = (-(n as i128)) as u64;
        let digits = decimal_chars(mag);
        let mut out: Vec<char> = Vec::new();
        out.push('-');
        let mut k: usize = 0;
        while k < digits.len()
            invariant
                k <= digits.len(),
                out@ == seq!['-'] + digits@.take(k as int),
            decreases digits.len() - k,
        {
            out.push(digits[k]);
            k = k + 1;
        }
        assert(digits@.take(digits.len() as int) == digits@);
        assert(zero_pad(decimal(mag as nat), 0) == decimal(mag as nat));
        JsonNumber { text: string_from_chars(&out), as_u64: None, as_i64: Some(n) }
    }
}

} // verus!
