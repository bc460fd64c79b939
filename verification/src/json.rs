//! JSON documents as plain values.
//!
//! Text is parsed by `serde_json`; the parsed tree is handed to the library as a
//! [`JsonValue`], whose contents the verified message logic reads.
use vstd::prelude::*;
use vstd::string::*;
use vstd::arithmetic::power2::pow2;

verus! {

#[verifier::external_type_specification]
#[verifier::external_body]
pub struct ExSerdeJsonValue(serde_json::Value);

/// A JSON number, as the JSON library reads it back in each representation.
#[derive(Debug, PartialEq)]
pub struct JsonNumber {
    /// The number as an unsigned integer, where it is one.
    pub as_u64: Option<u64>,
    /// The number as a signed integer, where it fits one.
    pub as_i64: Option<i64>,
    /// The bits of the IEEE-754 double that the number reads as.
    pub as_f64_bits: Option<u64>,
}

/// A JSON value; an object keeps its members in the order the parser gives them.
#[derive(Debug, PartialEq)]
pub enum JsonValue {
    Null,
    Bool(bool),
    Number(JsonNumber),
    String(String),
    Array(Vec<JsonValue>),
    Object(Vec<(String, JsonValue)>),
}

/// The value that `serde_json` parses from `text`, or `None` where the text is no JSON.
pub uninterp spec fn json_document(text: Seq<char>) -> Option<JsonValue>;

/// Parses `text` with `serde_json::from_str` into a `serde_json::Value` and hands the
/// tree over as a [`JsonValue`]. Claimed: the result is the one value that `serde_json`
/// gives for this text (`None` where it reports an error); nothing is said of which
/// texts it accepts.
#[verifier::external_body]
pub(crate) fn parse_json_document(text: &str) -> (r: Option<JsonValue>)
    ensures
        r == json_document(text@),
{
    match serde_json::from_str::<serde_json::Value>(text) {
        Ok(v) => Some(json_tree(&v)),
        Err(_) => None,
    }
}

/// Moves a `serde_json::Value` over into a [`JsonValue`], one variant per arm;
/// a number is read back with `as_u64`, `as_i64` and `as_f64`. It is the part of
/// [`parse_json_document`] that walks the tree.
#[verifier::external_body]
fn json_tree(v: &serde_json::Value) -> JsonValue {
    match v {
        serde_json::Value::Null => JsonValue::Null,
        serde_json::Value::Bool(b) => JsonValue::Bool(*b),
        serde_json::Value::Number(n) => JsonValue::Number(
            JsonNumber { as_u64: n.as_u64(), as_i64: n.as_i64(), as_f64_bits: n.as_f64().map(|x| x.to_bits()) },
        ),
        serde_json::Value::String(s) => JsonValue::String(s.clone()),
        serde_json::Value::Array(a) => JsonValue::Array(a.iter().map(json_tree).collect()),
        serde_json::Value::Object(m) => JsonValue::Object(
            m.iter().map(|(k, x)| (k.clone(), json_tree(x))).collect(),
        ),
    }
}

/// The position of the highest set bit of a positive integer.
pub open spec fn floor_log2(a: nat) -> nat
    decreases a,
{
    if a < 2 {
        0
    } else {
        1 + floor_log2(a / 2)
    }
}

/// The bits of the IEEE-754 double equal to `x`, which every `i32` has exactly:
/// the sign bit, the biased exponent of the highest set bit, and the bits below it
/// as the fraction; zero is positive zero.
pub open spec fn i32_double_bits(x: i32) -> u64 {
    if x == 0 {
        0
    } else {
        let sign: nat = if x < 0 { 1 } else { 0 };
        let a: nat = (if x < 0 { -(x as int) } else { x as int }) as nat;
        let e: nat = floor_log2(a);
        (sign * pow2(63) + (1023 + e) * pow2(52) + (a - pow2(e)) * pow2((52 - e) as nat)) as u64
    }
}

/// Builds `serde_json::Number::from(x)`. Claimed, as serde_json's source shows: an `i32`
/// is kept as a signed or unsigned integer, so it reads back as that integer, as an
/// unsigned integer exactly when it is not negative, and as the double `x as f64`,
/// which equals `x`.
#[verifier::external_body]
pub(crate) fn json_number_from_i32(x: i32) -> (r: JsonNumber)
    ensures
        r.as_i64 == Some(x as i64),
        r.as_u64 == (if x >= 0 {
            Some(x as u64)
        } else {
            None
        }),
        r.as_f64_bits == Some(i32_double_bits(x)),
{
    let n = serde_json::Number::from(x);
    JsonNumber { as_u64: n.as_u64(), as_i64: n.as_i64(), as_f64_bits: n.as_f64().map(|x| x.to_bits()) }
}

/// The first member of `fields` named `key`.
pub closed spec fn first_field(fields: Seq<(String, JsonValue)>, key: Seq<char>) -> Option<
    JsonValue,
> {
    if exists|i: int| 0 <= i < fields.len() && #[trigger] fields[i].0@ == key {
        let i = choose|i: int|
            0 <= i < fields.len() && #[trigger] fields[i].0@ == key && forall|j: int|
                0 <= j < i ==> fields[j].0@ != key;
        Some(fields[i].1)
    } else {
        None
    }
}

/// The member `key` of an object; `None` for anything that is no object.
pub closed spec fn json_get(v: JsonValue, key: Seq<char>) -> Option<JsonValue> {
    match v {
        JsonValue::Object(fields) => first_field(fields@, key),
        _ => None,
    }
}

/// What a member lookup gives: in an object, the value of the first member named
/// `key`, and nothing where no member has that name; nothing in any other value.
pub proof fn lemma_json_get(v: JsonValue, key: Seq<char>)
    ensures
        !(v is Object) ==> json_get(v, key) is None,
        v matches JsonValue::Object(fields) ==> ((forall|j: int|
            0 <= j < fields@.len() ==> #[trigger] fields@[j].0@ != key) ==> json_get(v, key) is None),
        v matches JsonValue::Object(fields) ==> (forall|i: int|
            0 <= i < fields@.len() && #[trigger] fields@[i].0@ == key && (forall|j: int|
                0 <= j < i ==> #[trigger] fields@[j].0@ != key) ==> json_get(v, key) == Some(
                fields@[i].1,
            )),
{
    if let JsonValue::Object(fields) = v {
        let fs = fields@;
        assert forall|i: int|
            0 <= i < fs.len() && #[trigger] fs[i].0@ == key && (forall|j: int|
                0 <= j < i ==> #[trigger] fs[j].0@ != key) implies json_get(v, key) == Some(
            fs[i].1,
        ) by {
            let c = choose|c: int|
                0 <= c < fs.len() && #[trigger] fs[c].0@ == key && forall|j: int|
                    0 <= j < c ==> fs[j].0@ != key;
            assert(0 <= c < fs.len() && fs[c].0@ == key && forall|j: int|
                0 <= j < c ==> fs[j].0@ != key);
            if c < i {
                assert(fs[c].0@ != key);
            }
            if i < c {
                assert(fs[i].0@ != key);
            }
        }
    }
}

/// The text of a string value.
pub open spec fn json_as_str(v: Option<JsonValue>) -> Option<Seq<char>> {
    match v {
        Some(JsonValue::String(s)) => Some(s@),
        _ => None,
    }
}

/// A number as an unsigned integer.
pub open spec fn json_as_u64(v: Option<JsonValue>) -> Option<u64> {
    match v {
        Some(JsonValue::Number(n)) => n.as_u64,
        _ => None,
    }
}

/// A number as the bits of a double.
pub open spec fn json_as_f64_bits(v: Option<JsonValue>) -> Option<u64> {
    match v {
        Some(JsonValue::Number(n)) => n.as_f64_bits,
        _ => None,
    }
}

/// The elements of an array.
pub open spec fn json_as_array(v: Option<JsonValue>) -> Option<Seq<JsonValue>> {
    match v {
        Some(JsonValue::Array(a)) => Some(a@),
        _ => None,
    }
}

impl JsonValue {
    /// A JSON number made from an `i32`, as `serde_json::Value::Number(x.into())`.
    pub fn from_i32(x: i32) -> (r: JsonValue)
        ensures
            r matches JsonValue::Number(n) && n.as_i64 == Some(x as i64) && n.as_u64 == (if x >= 0 {
                Some(x as u64)
            } else {
                None
            }) && n.as_f64_bits == Some(i32_double_bits(x)),
    {
        JsonValue::Number(json_number_from_i32(x))
    }

    /// The member `key` of an object, as `serde_json::Value::get`.
    pub fn get(&self, key: &str) -> (r: Option<&JsonValue>)
        ensures
            match r {
                Some(x) => json_get(*self, key@) == Some(*x),
                None => json_get(*self, key@) is None,
            },
    {
        match self {
            JsonValue::Object(fields) => {
                let k = String::from_str(key);
                let mut i: usize = 0;
                while i < fields.len()
                    invariant
                        0 <= i <= fields.len(),
                        k@ == key@,
                        json_get(*self, key@) == first_field(fields@, key@),
                        forall|j: int| 0 <= j < i ==> fields@[j].0@ != key@,
                    decreases fields.len() - i,
                {
                    if fields[i].0 == k {
                        let ghost fs = fields@;
                        assert(fs[i as int].0@ == key@);
                        let ghost c = choose|c: int|
                            0 <= c < fs.len() && #[trigger] fs[c].0@ == key@ && forall|j: int|
                                0 <= j < c ==> fs[j].0@ != key@;
                        assert(0 <= c < fs.len() && fs[c].0@ == key@ && forall|j: int|
                            0 <= j < c ==> fs[j].0@ != key@);
                        assert(c == i);
                        assert(exists|j: int| 0 <= j < fs.len() && #[trigger] fs[j].0@ == key@);
                        assert(first_field(fs, key@) == Some(fs[i as int].1));
                        return Some(&fields[i].1);
                    }
                    i = i + 1;
                }
                None
            },
            _ => None,
        }
    }

    /// The text of a string value, as `serde_json::Value::as_str`.
    pub fn as_str(&self) -> (r: Option<&String>)
        ensures
            match r {
                Some(s) => json_as_str(Some(*self)) == Some(s@),
                None => json_as_str(Some(*self)) is None,
            },
    {
        match self {
            JsonValue::String(s) => Some(s),
            _ => None,
        }
    }

    /// A number as an unsigned integer, as `serde_json::Value::as_u64`.
    pub fn as_u64(&self) -> (r: Option<u64>)
        ensures
            r == json_as_u64(Some(*self)),
    {
        match self {
            JsonValue::Number(n) => n.as_u64,
            _ => None,
        }
    }

    /// A number as the bits of the double `serde_json::Value::as_f64` gives.
    pub fn as_f64_bits(&self) -> (r: Option<u64>)
        ensures
            r == json_as_f64_bits(Some(*self)),
    {
        match self {
            JsonValue::Number(n) => n.as_f64_bits,
            _ => None,
        }
    }

    /// The elements of an array, as `serde_json::Value::as_array`.
    pub fn as_array(&self) -> (r: Option<&Vec<JsonValue>>)
        ensures
            match r {
                Some(a) => json_as_array(Some(*self)) == Some(a@),
                None => json_as_array(Some(*self)) is None,
            },
    {
        match self {
            JsonValue::Array(a) => Some(a),
            _ => None,
        }
    }
}

} // verus!
