use vstd::prelude::*;
use crate::json::Json;

verus! {

/// An optional borrowed value, read as an optional value.
pub open spec fn deref_opt(o: Option<&Json>) -> Option<Json> {
    match o {
        Some(x) => Some(*x),
        None => None,
    }
}

/// The member `key` of an optional value.
pub open spec fn member_at(o: Option<Json>, key: Seq<char>) -> Option<Json> {
    match o {
        Some(j) => j.field(key),
        None => None,
    }
}

/// The elements of an optional array; empty for anything else.
pub open spec fn items(o: Option<Json>) -> Seq<Json> {
    match o {
        Some(Json::Arr(a)) => a@,
        _ => Seq::empty(),
    }
}

/// Element `i` of a sequence, if it has one.
pub open spec fn nth(s: Seq<Json>, i: int) -> Option<Json> {
    if 0 <= i < s.len() {
        Some(s[i])
    } else {
        None
    }
}

/// A number times `num / den`, rounded half away from zero; `default` for a value
/// that is absent or not a number.
pub open spec fn rounded_or(o: Option<Json>, num: int, den: int, default: int) -> int {
    match o {
        Some(Json::Num(d)) => d.spec_round_ratio(num, den),
        _ => default,
    }
}

/// A number truncated toward zero; `default` for a value that is absent or not a
/// number.
pub open spec fn truncated_or(o: Option<Json>, default: int) -> int {
    match o {
        Some(Json::Num(d)) => d.spec_trunc_ratio(1, 1),
        _ => default,
    }
}

/// The member `key` of an optional borrowed value.
pub fn sub_of<'a>(o: Option<&'a Json>, key: &str) -> (r: Option<&'a Json>)
    ensures
        deref_opt(r) == member_at(deref_opt(o), key@),
{
    match o {
        Some(j) => j.get(key),
        None => None,
    }
}

/// The number rounded to the nearest integer, halves away from zero; `default_` for
/// anything that is not a number.
pub fn safe_round(v: &Json, default_: i64) -> (r: i64)
    ensures
        r == rounded_or(Some(*v), 1, 1, default_ as int),
{
    scaled_round(Some(v), 1, 1, default_)
}

/// The number truncated toward zero; `default_` for anything that is not a number.
pub fn safe_number(v: &Json, default_: i64) -> (r: i64)
    ensures
        r == truncated_or(Some(*v), default_ as int),
{
    match v {
        Json::Num(d) => d.trunc_ratio(1, 1),
        _ => default_,
    }
}

/// An optional number times `num / den`, rounded half away from zero, or `default_`.
pub fn scaled_round(v: Option<&Json>, num: u32, den: u32, default_: i64) -> (r: i64)
    requires
        den > 0,
    ensures
        r == rounded_or(deref_opt(v), num as int, den as int, default_ as int),
{
    match v {
        Some(Json::Num(d)) => d.round_ratio(num, den),
        _ => default_,
    }
}

/// A value that is absent or not a number gives exactly the default, whichever
/// conversion is asked of it.
pub proof fn absent_gives_default(o: Option<Json>, num: int, den: int, default: int)
    requires
        !(o matches Some(Json::Num(_))),
    ensures
        rounded_or(o, num, den, default) == default,
        truncated_or(o, default) == default,
{
}

} // verus!
