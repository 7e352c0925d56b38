//! Values as they appear in a project document: a JSON-shaped tree whose
//! numbers are kept as exact decimals.
use vstd::prelude::*;

verus! {

/// An exact decimal number: `mantissa * 10^exponent`.
#[derive(Clone, Copy, Debug, PartialEq, Eq, Structural)]
pub struct Decimal {
    pub mantissa: i64,
    pub exponent: i32,
}

/// A factor written as a percentage: the same number times one hundred, with
/// two more decimal places when the exponent has room, else with the mantissa
/// times one hundred. Only when neither fits does the scale fall back to
/// 100%, the default of a cosmetic field.
pub open spec fn percent_of(d: Decimal) -> Decimal {
    if d.exponent <= i32::MAX - 2 {
        Decimal { mantissa: d.mantissa, exponent: (d.exponent + 2) as i32 }
    } else if i64::MIN <= d.mantissa * 100 <= i64::MAX {
        Decimal { mantissa: (d.mantissa * 100) as i64, exponent: d.exponent }
    } else {
        Decimal { mantissa: 100, exponent: 0 }
    }
}

impl Decimal {
    /// The whole number `n`.
    pub fn integer(n: i64) -> (r: Decimal)
        ensures
            r.mantissa == n,
            r.exponent == 0,
    {
        Decimal { mantissa: n, exponent: 0 }
    }

    /// This number times one hundred, as `percent_of` says.
    pub fn as_percent(&self) -> (r: Decimal)
        ensures
            r == percent_of(*self),
    {
        if self.exponent <= i32::MAX - 2 {
            Decimal { mantissa: self.mantissa, exponent: self.exponent + 2 }
        } else if -92233720368547758 <= self.mantissa && self.mantissa <= 92233720368547758 {
            Decimal { mantissa: self.mantissa * 100, exponent: self.exponent }
        } else {
            Decimal { mantissa: 100, exponent: 0 }
        }
    }

    /// The number `mantissa * 10^exponent`.
    pub fn new(mantissa: i64, exponent: i32) -> (r: Decimal)
        ensures
            r.mantissa == mantissa,
            r.exponent == exponent,
    {
        Decimal { mantissa, exponent }
    }
}

/// A document value.
#[derive(Debug, PartialEq)]
pub enum Json {
    Null,
    Boolean(bool),
    Number(Decimal),
    String(String),
    Array(Vec<Json>),
    Object(Vec<Member>),
}

/// One `key: value` entry of an object. An object's members keep the order
/// in which the tree was built.
#[derive(Debug, PartialEq)]
pub struct Member {
    pub key: String,
    pub value: Json,
}

/// Deep equality of two documents: same shape, same text, same numbers.
pub open spec fn json_same(a: Json, b: Json) -> bool
    decreases a,
{
    match a {
        Json::Null => b is Null,
        Json::Boolean(x) => b matches Json::Boolean(y) && y == x,
        Json::Number(x) => b matches Json::Number(y) && y == x,
        Json::String(s) => b matches Json::String(t) && t@ == s@,
        Json::Array(v) => match b {
            Json::Array(w) => v.len() == w.len() && forall|i: int|
                0 <= i < v.len() ==> json_same(#[trigger] v@[i], w@[i]),
            _ => false,
        },
        Json::Object(m) => match b {
            Json::Object(n) => m.len() == n.len() && forall|i: int|
                0 <= i < m.len() ==> n@[i].key@ == (#[trigger] m@[i]).key@ && json_same(
                    m@[i].value,
                    n@[i].value,
                ),
            _ => false,
        },
    }
}

/// An element of an array is smaller than the array.
pub proof fn lemma_element_decreases(j: Json, i: int)
    requires
        j matches Json::Array(v) && 0 <= i < v.len(),
    ensures
        j matches Json::Array(v) && decreases_to!(j => v[i]),
{
    broadcast use vstd::std_specs::vec::axiom_vec_index_decreases;

    if let Json::Array(v) = j {
        assert(decreases_to!(j => v));
        assert(decreases_to!(v => v[i]));
    }
}

/// A deep copy of `j`.
pub fn copy_json(j: &Json) -> (r: Json)
    ensures
        json_same(*j, r),
    decreases j,
{
    match j {
        Json::Null => Json::Null,
        Json::Boolean(b) => Json::Boolean(*b),
        Json::Number(n) => Json::Number(*n),
        Json::String(s) => Json::String(s.clone()),
        Json::Array(v) => {
            let mut out: Vec<Json> = Vec::new();
            let mut i: usize = 0;
            while i < v.len()
                invariant
                    *j == Json::Array(*v),
                    0 <= i <= v@.len(),
                    out@.len() == i,
                    forall|t: int| 0 <= t < i ==> json_same(#[trigger] v@[t], out@[t]),
                decreases v@.len() - i,
            {
                proof {
                    lemma_element_decreases(*j, i as int);
                }
                out.push(copy_json(&v[i]));
                i += 1;
            }
            Json::Array(out)
        },
        Json::Object(m) => {
            let out = copy_members(m);
            Json::Object(out)
        },
    }
}

/// A deep copy of the members `m`, in order.
pub fn copy_members(m: &Vec<Member>) -> (r: Vec<Member>)
    ensures
        r@.len() == m@.len(),
        forall|i: int| 0 <= i < m@.len() ==> (#[trigger] r@[i]).key@ == m@[i].key@ && json_same(m@[i].value, r@[i].value),
    decreases m,
{
    let mut out: Vec<Member> = Vec::new();
    let mut i: usize = 0;
    while i < m.len()
        invariant
            0 <= i <= m@.len(),
            out@.len() == i,
            forall|t: int| 0 <= t < i ==> (#[trigger] out@[t]).key@ == m@[t].key@ && json_same(m@[t].value, out@[t].value),
        decreases m@.len() - i,
    {
        proof {
            broadcast use vstd::std_specs::vec::axiom_vec_index_decreases;
            assert(decreases_to!(*m => m[i as int]));
            assert(decreases_to!(m[i as int] => m[i as int].value));
        }
        out.push(Member { key: m[i].key.clone(), value: copy_json(&m[i].value) });
        i += 1;
    }
    out
}

} // verus!
