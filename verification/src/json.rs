//! A JSON document as plain values, with the accessors of `serde_json::Value`
//! that the client uses (`get`, `as_str`, `as_i64`, `as_u64`, `as_array`).

use vstd::prelude::*;

use crate::text;

verus! {

broadcast use vstd::string::group_string_axioms;

/// A JSON number, by the two readings the client makes of it: as a signed
/// and as an unsigned 64-bit integer (each absent when the number is not
/// such an integer).
#[derive(Debug, Clone, Copy, PartialEq, Eq)]
pub struct JsonNumber {
    pub int: Option<i64>,
    pub uint: Option<u64>,
}

/// A JSON value. Object members keep their order; a lookup finds the first
/// member with the key (documents parsed from text have unique keys).
#[derive(Debug)]
pub enum Json {
    Null,
    Bool(bool),
    Number(JsonNumber),
    Str(String),
    Array(Vec<Json>),
    Object(Vec<(String, Json)>),
}

/// Index of the first member named `k`, or -1.
pub open spec fn member_index(m: Seq<(String, Json)>, k: Seq<char>) -> int
    decreases m.len(),
{
    if m.len() == 0 {
        -1
    } else if m[0].0@ == k {
        0
    } else {
        let r = member_index(m.drop_first(), k);
        if r < 0 {
            -1
        } else {
            r + 1
        }
    }
}

proof fn lemma_member_index(m: Seq<(String, Json)>, k: Seq<char>, i: int)
    requires
        0 <= i <= m.len(),
        forall|j: int| 0 <= j < i ==> m[j].0@ != k,
        i == m.len() || m[i].0@ == k,
    ensures
        member_index(m, k) == if i < m.len() {
            i
        } else {
            -1
        },
    decreases m.len(),
{
    if m.len() > 0 && m[0].0@ != k {
        lemma_member_index(m.drop_first(), k, i - 1);
    }
}

/// `Value::get(key)`: the member `k` of an object; `None` for a missing
/// member or a value that is not an object.
pub open spec fn field(j: Json, k: Seq<char>) -> Option<Json> {
    match j {
        Json::Object(m) => {
            let i = member_index(m@, k);
            if i < 0 {
                None
            } else {
                Some(m@[i].1)
            }
        },
        _ => None,
    }
}

/// `Value::as_str` of an optional value.
pub open spec fn str_of(j: Option<Json>) -> Option<Seq<char>> {
    match j {
        Some(Json::Str(s)) => Some(s@),
        _ => None,
    }
}

/// `Value::as_i64` of an optional value.
pub open spec fn i64_of(j: Option<Json>) -> Option<i64> {
    match j {
        Some(Json::Number(n)) => n.int,
        _ => None,
    }
}

/// `Value::as_u64` of an optional value.
pub open spec fn u64_of(j: Option<Json>) -> Option<u64> {
    match j {
        Some(Json::Number(n)) => n.uint,
        _ => None,
    }
}

/// `Value::as_array` of an optional value.
pub open spec fn array_of(j: Option<Json>) -> Option<Seq<Json>> {
    match j {
        Some(Json::Array(a)) => Some(a@),
        _ => None,
    }
}

/// `first` if it is present, else `second` (`Option::or_else`).
pub open spec fn either(first: Option<Json>, second: Option<Json>) -> Option<Json> {
    match first {
        Some(_) => first,
        None => second,
    }
}

/// Members `k1` then `k2` (`get(k1).and_then(|v| v.get(k2))`).
pub open spec fn path2(j: Json, k1: Seq<char>, k2: Seq<char>) -> Option<Json> {
    match field(j, k1) {
        Some(v) => field(v, k2),
        None => None,
    }
}

/// Compares a key with a text.
fn same_text(a: &String, b: &str) -> (r: bool)
    ensures
        r == (a@ == b@),
{
    let t = b.to_string();
    *a == t
}

impl Json {
    /// `Value::get(key)`.
    pub fn get(&self, k: &str) -> (r: Option<&Json>)
        ensures
            match field(*self, k@) {
                Some(v) => r matches Some(rv) && *rv == v,
                None => r is None,
            },
    {
        match self {
            Json::Object(m) => {
                let ghost f = field(*self, k@);
                assert(f == (if member_index(m@, k@) < 0 { None } else { Some(m@[member_index(m@, k@)].1) }));
                let mut i: usize = 0;
                while i < m.len()
                    invariant
                        0 <= i <= m@.len(),
                        f == field(*self, k@),
                        f == (if member_index(m@, k@) < 0 { None } else { Some(m@[member_index(m@, k@)].1) }),
                        forall|j: int| 0 <= j < i ==> m@[j].0@ != k@,
                    decreases m.len() - i,
                {
                    if same_text(&m[i].0, k) {
                        proof {
                            lemma_member_index(m@, k@, i as int);
                        }
                        return Some(&m[i].1);
                    }
                    i = i + 1;
                }
                proof {
                    lemma_member_index(m@, k@, i as int);
                }
                None
            },
            _ => None,
        }
    }

    /// `Value::as_str`.
    pub fn as_str(&self) -> (r: Option<&String>)
        ensures
            r.deep_view() == str_of(Some(*self)),
    {
        match self {
            Json::Str(s) => Some(s),
            _ => None,
        }
    }

    /// `Value::as_i64`.
    pub fn as_i64(&self) -> (r: Option<i64>)
        ensures
            r == i64_of(Some(*self)),
    {
        match self {
            Json::Number(n) => n.int,
            _ => None,
        }
    }

    /// `Value::as_u64`.
    pub fn as_u64(&self) -> (r: Option<u64>)
        ensures
            r == u64_of(Some(*self)),
    {
        match self {
            Json::Number(n) => n.uint,
            _ => None,
        }
    }

    /// `Value::as_array`.
    pub fn as_array(&self) -> (r: Option<&Vec<Json>>)
        ensures
            match array_of(Some(*self)) {
                Some(a) => r matches Some(v) && v@ == a,
                None => r is None,
            },
    {
        match self {
            Json::Array(a) => Some(a),
            _ => None,
        }
    }
}

/// `as_str` of an optional value, as an owned string.
pub fn str_opt(j: Option<&Json>) -> (r: Option<String>)
    ensures
        r.deep_view() == str_of(
            match j {
                Some(v) => Some(*v),
                None => None,
            },
        ),
{
    match j {
        Some(Json::Str(s)) => Some(s.clone()),
        _ => None,
    }
}

/// `as_i64` of an optional value.
pub fn i64_opt(j: Option<&Json>) -> (r: Option<i64>)
    ensures
        r == i64_of(
            match j {
                Some(v) => Some(*v),
                None => None,
            },
        ),
{
    match j {
        Some(v) => v.as_i64(),
        None => None,
    }
}

/// `as_u64` of an optional value.
pub fn u64_opt(j: Option<&Json>) -> (r: Option<u64>)
    ensures
        r == u64_of(
            match j {
                Some(v) => Some(*v),
                None => None,
            },
        ),
{
    match j {
        Some(v) => v.as_u64(),
        None => None,
    }
}

/// The value of an optional reference.
pub open spec fn deref_opt(j: Option<&Json>) -> Option<Json> {
    match j {
        Some(v) => Some(*v),
        None => None,
    }
}

/// `s`, or `default` when `s` is `None`.
pub fn text_or(s: Option<String>, default: &str) -> (r: String)
    ensures
        r@ == match s.deep_view() {
            Some(t) => t,
            None => default@,
        },
{
    match s {
        Some(t) => t,
        None => default.to_string(),
    }
}


/// Takes the member `k` out of `j` (the value that `get(k)` would give).
pub fn take_member(j: Json, k: &str) -> (r: Option<Json>)
    ensures
        r == field(j, k@),
{
    match j {
        Json::Object(m) => {
            let ghost m0 = m@;
            let ghost f = field(j, k@);
            assert(f == (if member_index(m0, k@) < 0 { None } else { Some(m0[member_index(m0, k@)].1) }));
            let mut m = m;
            let mut i: usize = 0;
            while i < m.len()
                invariant
                    0 <= i <= m@.len(),
                    m@ == m0,
                    f == field(j, k@),
                    f == (if member_index(m0, k@) < 0 { None } else { Some(m0[member_index(m0, k@)].1) }),
                    forall|q: int| 0 <= q < i ==> m@[q].0@ != k@,
                decreases m.len() - i,
            {
                if same_text(&m[i].0, k) {
                    proof {
                        lemma_member_index(m@, k@, i as int);
                    }
                    let (_, v) = m.remove(i);
                    return Some(v);
                }
                i = i + 1;
            }
            proof {
                lemma_member_index(m@, k@, i as int);
            }
            None
        },
        _ => None,
    }
}

/// `get(k1).or_else(|| get(k2))`.
pub fn get_either<'a>(j: &'a Json, k1: &str, k2: &str) -> (r: Option<&'a Json>)
    ensures
        deref_opt(r) == either(field(*j, k1@), field(*j, k2@)),
{
    let a = j.get(k1);
    match a {
        Some(_) => a,
        None => j.get(k2),
    }
}

/// `get(k1).and_then(|v| v.get(k2))`.
pub fn get_path<'a>(j: &'a Json, k1: &str, k2: &str) -> (r: Option<&'a Json>)
    ensures
        deref_opt(r) == path2(*j, k1@, k2@),
{
    match j.get(k1) {
        Some(v) => v.get(k2),
        None => None,
    }
}

/// `get(k1).and_then(|v| v.get(k2)).or_else(|| get(k3))`.
pub fn get_either_path<'a>(j: &'a Json, k1: &str, k2: &str, k3: &str) -> (r: Option<&'a Json>)
    ensures
        deref_opt(r) == either(path2(*j, k1@, k2@), field(*j, k3@)),
{
    let a = get_path(j, k1, k2);
    match a {
        Some(_) => a,
        None => j.get(k3),
    }
}

// ---------------------------------------------------------------------------
// JSON text
// ---------------------------------------------------------------------------

/// `serde_json::Value`, read from text or written to text.
#[verifier::external_type_specification]
#[verifier::external_body]
pub struct ExJsonValue(serde_json::Value);

/// Names the document that `serde_json::from_str::<serde_json::Value>`
/// reads from a text, as a `Json` (`None` when the text is not JSON).
pub uninterp spec fn json_of_text(text: Seq<char>) -> Option<Json>;

/// Names the text that `serde_json::Value::to_string` writes for the
/// `serde_json::Value` that a `Json` stands for.
pub uninterp spec fn text_of_json(j: Json) -> Seq<char>;

/// The `Json` of a `serde_json::Value`, one variant for the other: a
/// number as its `as_i64` and `as_u64` readings, members in the map's
/// order. Used by `parse_json` on what `serde_json` read.
#[verifier::external_body]
fn json_from_value(v: &serde_json::Value) -> Json {
    match v {
        serde_json::Value::Null => Json::Null,
        serde_json::Value::Bool(b) => Json::Bool(*b),
        serde_json::Value::Number(n) => Json::Number(JsonNumber { int: n.as_i64(), uint: n.as_u64() }),
        serde_json::Value::String(s) => Json::Str(s.clone()),
        serde_json::Value::Array(a) => Json::Array(a.iter().map(json_from_value).collect()),
        serde_json::Value::Object(m) => Json::Object(m.iter().map(|(k, x)| (k.clone(), json_from_value(x))).collect()),
    }
}

/// The `serde_json::Value` of a `Json`, one variant for the other: a
/// number by its signed reading, else its unsigned one (`null` when it has
/// neither). Used by `json_text` before `serde_json` writes it.
#[verifier::external_body]
fn value_from_json(j: &Json) -> serde_json::Value {
    match j {
        Json::Null => serde_json::Value::Null,
        Json::Bool(b) => serde_json::Value::Bool(*b),
        Json::Number(n) => match (n.int, n.uint) {
            (Some(i), _) => serde_json::Value::from(i),
            (None, Some(u)) => serde_json::Value::from(u),
            (None, None) => serde_json::Value::Null,
        },
        Json::Str(s) => serde_json::Value::String(s.clone()),
        Json::Array(a) => serde_json::Value::Array(a.iter().map(value_from_json).collect()),
        Json::Object(m) => serde_json::Value::Object(m.iter().map(|(k, x)| (k.clone(), value_from_json(x))).collect()),
    }
}

/// Calls `serde_json::from_str::<serde_json::Value>` on the text. Claimed:
/// the document read, as a `Json`, is named `json_of_text` of the text.
#[verifier::external_body]
pub(crate) fn parse_json(text: &str) -> (r: Option<Json>)
    ensures
        r == json_of_text(text@),
{
    serde_json::from_str::<serde_json::Value>(text).ok().map(|v| json_from_value(&v))
}

/// Calls `serde_json::Value::to_string` on the value that the document
/// stands for. Claimed: the text is named `text_of_json` of the document.
#[verifier::external_body]
pub(crate) fn json_text(j: &Json) -> (r: String)
    ensures
        r@ == text_of_json(*j),
{
    value_from_json(j).to_string()
}

} // verus!
