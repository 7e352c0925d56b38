//! Reading the members of a document object by key.
use vstd::prelude::*;

use crate::json::{Decimal, Json, Member};

verus! {

/// The value of the first member of `m` named `key`.
pub open spec fn field_in(m: Seq<Member>, key: Seq<char>) -> Option<Json>
    decreases m.len(),
{
    if m.len() == 0 {
        None
    } else if m[0].key@ == key {
        Some(m[0].value)
    } else {
        field_in(m.drop_first(), key)
    }
}

/// The member `key` of the object `j`; nothing when `j` is not an object.
pub open spec fn field(j: Json, key: Seq<char>) -> Option<Json> {
    match j {
        Json::Object(m) => field_in(m@, key),
        _ => None,
    }
}

pub open spec fn text_at(j: Json, key: Seq<char>, s: Seq<char>) -> bool {
    field(j, key) matches Some(Json::String(t)) && t@ == s
}

pub open spec fn has_text(j: Json, key: Seq<char>) -> bool {
    field(j, key) matches Some(Json::String(_))
}

pub open spec fn bool_at(j: Json, key: Seq<char>, b: bool) -> bool {
    field(j, key) matches Some(Json::Boolean(x)) && x == b
}

pub open spec fn has_bool(j: Json, key: Seq<char>) -> bool {
    field(j, key) matches Some(Json::Boolean(_))
}

pub open spec fn number_at(j: Json, key: Seq<char>, d: Decimal) -> bool {
    field(j, key) matches Some(Json::Number(x)) && x == d
}

pub open spec fn has_number(j: Json, key: Seq<char>) -> bool {
    field(j, key) matches Some(Json::Number(_))
}

/// A number that is a whole number within the range of `i32`.
pub open spec fn is_i32(d: Decimal) -> bool {
    d.exponent == 0 && i32::MIN <= d.mantissa <= i32::MAX
}

/// A number that is a whole number within the range of `usize`.
pub open spec fn is_usize(d: Decimal) -> bool {
    d.exponent == 0 && 0 <= d.mantissa <= usize::MAX
}

pub open spec fn has_i32(j: Json, key: Seq<char>) -> bool {
    field(j, key) matches Some(Json::Number(x)) && is_i32(x)
}

pub open spec fn i32_at(j: Json, key: Seq<char>, n: i32) -> bool {
    field(j, key) matches Some(Json::Number(x)) && is_i32(x) && x.mantissa == n
}

pub open spec fn has_usize(j: Json, key: Seq<char>) -> bool {
    field(j, key) matches Some(Json::Number(x)) && is_usize(x)
}

pub open spec fn usize_at(j: Json, key: Seq<char>, n: usize) -> bool {
    field(j, key) matches Some(Json::Number(x)) && is_usize(x) && x.mantissa == n
}

/// Finds the first member of the object `j` named `key`.
pub fn get_field<'a>(j: &'a Json, key: &str) -> (r: Option<&'a Json>)
    ensures
        r is Some <==> field(*j, key@) is Some,
        r matches Some(x) ==> field(*j, key@) == Some(*x),
{
    match j {
        Json::Object(m) => {
            let k = String::from_str(key);
            let mut i: usize = 0;
            assert(m@.subrange(0, m@.len() as int) =~= m@);
            while i < m.len()
                invariant
                    *j == Json::Object(*m),
                    k@ == key@,
                    0 <= i <= m@.len(),
                    field_in(m@, key@) == field_in(m@.subrange(i as int, m@.len() as int), key@),
                decreases m@.len() - i,
            {
                proof {
                    let rest = m@.subrange(i as int, m@.len() as int);
                    assert(rest.drop_first() =~= m@.subrange(i + 1, m@.len() as int));
                }
                if m[i].key == k {
                    return Some(&m[i].value);
                }
                i += 1;
            }
            proof {
                assert(m@.subrange(i as int, m@.len() as int).len() == 0);
            }
            None
        },
        _ => None,
    }
}

pub fn get_text(j: &Json, key: &str) -> (r: Option<String>)
    ensures
        r is Some <==> has_text(*j, key@),
        r matches Some(s) ==> text_at(*j, key@, s@),
{
    match get_field(j, key) {
        Some(Json::String(s)) => Some(s.clone()),
        _ => None,
    }
}

pub fn get_bool(j: &Json, key: &str) -> (r: Option<bool>)
    ensures
        r is Some <==> has_bool(*j, key@),
        r matches Some(b) ==> bool_at(*j, key@, b),
{
    match get_field(j, key) {
        Some(Json::Boolean(b)) => Some(*b),
        _ => None,
    }
}

pub fn get_number(j: &Json, key: &str) -> (r: Option<Decimal>)
    ensures
        r is Some <==> has_number(*j, key@),
        r matches Some(d) ==> number_at(*j, key@, d),
{
    match get_field(j, key) {
        Some(Json::Number(d)) => Some(*d),
        _ => None,
    }
}

pub fn get_i32(j: &Json, key: &str) -> (r: Option<i32>)
    ensures
        r is Some <==> has_i32(*j, key@),
        r matches Some(n) ==> i32_at(*j, key@, n),
{
    match get_field(j, key) {
        Some(Json::Number(d)) => if d.exponent == 0 && i32::MIN as i64 <= d.mantissa && d.mantissa
            <= i32::MAX as i64 {
            Some(d.mantissa as i32)
        } else {
            None
        },
        _ => None,
    }
}

pub fn get_usize(j: &Json, key: &str) -> (r: Option<usize>)
    ensures
        r is Some <==> has_usize(*j, key@),
        r matches Some(n) ==> usize_at(*j, key@, n),
{
    match get_field(j, key) {
        Some(Json::Number(d)) => if d.exponent == 0 && 0 <= d.mantissa && d.mantissa as u64
            <= usize::MAX as u64 {
            Some(d.mantissa as usize)
        } else {
            None
        },
        _ => None,
    }
}

} // verus!

verus! {

/// The member `key` is absent, or an array whose every element satisfies `ok`.
pub open spec fn array_field_ok(j: Json, key: Seq<char>, ok: spec_fn(Json) -> bool) -> bool {
    match field(j, key) {
        None => true,
        Some(Json::Array(v)) => forall|i: int| 0 <= i < v.len() ==> #[trigger] ok(v[i]),
        _ => false,
    }
}

/// `xs` were read, element by element, from the array member `key`; an absent
/// member reads as no elements.
pub open spec fn array_field_read<T>(
    j: Json,
    key: Seq<char>,
    xs: Seq<T>,
    read: spec_fn(T, Json) -> bool,
) -> bool {
    match field(j, key) {
        None => xs.len() == 0,
        Some(Json::Array(v)) => xs.len() == v.len() && forall|i: int|
            0 <= i < v.len() ==> #[trigger] read(xs[i], v[i]),
        _ => false,
    }
}

/// Reads each element of the array member `key` with `f`; an absent member
/// gives no elements.
pub(crate) fn get_array<T, F: Fn(&Json) -> Result<T, E>, E>(
    j: &Json,
    key: &str,
    f: F,
    missing: E,
    Ghost(ok): Ghost<spec_fn(Json) -> bool>,
    Ghost(read): Ghost<spec_fn(T, Json) -> bool>,
) -> (r: Result<Vec<T>, E>)
    requires
        forall|x: &Json| #[trigger] f.requires((x,)),
        forall|x: &Json, y: Result<T, E>| #[trigger] f.ensures((x,), y) ==> (y is Ok <==> ok(*x)) && (
        y matches Ok(t) ==> read(t, *x)),
    ensures
        r is Ok <==> array_field_ok(*j, key@, ok),
        r matches Ok(xs) ==> array_field_read(*j, key@, xs@, read),
{
    match get_field(j, key) {
        None => Ok(Vec::new()),
        Some(Json::Array(v)) => {
            let mut xs: Vec<T> = Vec::new();
            let mut i: usize = 0;
            while i < v.len()
                invariant
                    field(*j, key@) == Some(Json::Array(*v)),
                    forall|x: &Json| #[trigger] f.requires((x,)),
                    forall|x: &Json, y: Result<T, E>| #[trigger] f.ensures((x,), y) ==> (y is Ok <==> ok(*x))
                        && (y matches Ok(t) ==> read(t, *x)),
                    0 <= i <= v@.len(),
                    xs@.len() == i,
                    forall|t: int| 0 <= t < i ==> #[trigger] read(xs@[t], v@[t]),
                    forall|t: int| 0 <= t < i ==> #[trigger] ok(v@[t]),
                decreases v@.len() - i,
            {
                match f(&v[i]) {
                    Ok(x) => xs.push(x),
                    Err(e) => {
                        let ghost w = field(*j, key@)->Some_0->Array_0;
                        assert(w == *v);
                        assert(!ok(w[i as int]));
                        return Err(e);
                    },
                }
                i += 1;
            }
            Ok(xs)
        },
        Some(_) => Err(missing),
    }
}

} // verus!
