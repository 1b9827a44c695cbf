//! A JSON document as the service reads it: what Square sends back and what
//! its webhooks carry. Only the shape the logic inspects is kept — numbers are
//! held as the 64-bit integer they denote, if they denote one.

use vstd::prelude::*;

verus! {

#[derive(Debug)]
pub enum Json {
    Null,
    Bool(bool),
    /// A number, and the `i64` it denotes when it is an integer in range.
    Number(Option<i64>),
    String(String),
    Array(Vec<Json>),
    /// Members in document order. A parsed object has distinct keys; where a
    /// hand-built one repeats a key, the first occurrence is the one read.
    Object(Vec<(String, Json)>),
}

/// The index of the first member named `key`, or -1.
pub open spec fn member_index(members: Seq<(String, Json)>, key: Seq<char>) -> int
    decreases members.len(),
{
    if members.len() == 0 {
        -1
    } else if members[0].0@ == key {
        0
    } else {
        let rest = member_index(members.drop_first(), key);
        if rest < 0 { -1 } else { rest + 1 }
    }
}

/// A borrowed optional value, read as the value itself.
pub open spec fn opt_val(o: Option<&Json>) -> Option<Json> {
    match o {
        Some(j) => Some(*j),
        None => None,
    }
}

/// `value.get(key)`: the member named `key` of an object, nothing otherwise.
pub open spec fn spec_get(v: Json, key: Seq<char>) -> Option<Json> {
    match v {
        Json::Object(members) => {
            let i = member_index(members@, key);
            if i >= 0 { Some(members@[i].1) } else { None }
        },
        _ => None,
    }
}

/// `get` on an optional value.
pub open spec fn spec_get_opt(v: Option<Json>, key: Seq<char>) -> Option<Json> {
    match v {
        Some(j) => spec_get(j, key),
        None => None,
    }
}

/// The text of a string value.
pub open spec fn spec_as_str(v: Option<Json>) -> Option<Seq<char>> {
    match v {
        Some(Json::String(s)) => Some(s@),
        _ => None,
    }
}

/// The integer of a number value that denotes an `i64`.
pub open spec fn spec_as_i64(v: Option<Json>) -> Option<i64> {
    match v {
        Some(Json::Number(n)) => n,
        _ => None,
    }
}

/// The elements of an array value.
pub open spec fn spec_as_array(v: Option<Json>) -> Option<Seq<Json>> {
    match v {
        Some(Json::Array(items)) => Some(items@),
        _ => None,
    }
}

proof fn lemma_member_index_bounds(members: Seq<(String, Json)>, key: Seq<char>)
    ensures
        -1 <= member_index(members, key) < members.len(),
        member_index(members, key) >= 0 ==> members[member_index(members, key)].0@ == key,
        member_index(members, key) >= 0 ==> forall|j: int|
            0 <= j < member_index(members, key) ==> (#[trigger] members[j]).0@ != key,
        member_index(members, key) < 0 ==> forall|j: int| 0 <= j < members.len() ==> (#[trigger] members[j]).0@ != key,
    decreases members.len(),
{
    if members.len() > 0 && members[0].0@ != key {
        lemma_member_index_bounds(members.drop_first(), key);
        assert forall|j: int| 1 <= j < members.len() implies members[j] == members.drop_first()[j - 1] by {}
    }
}

/// `value.get(key)`.
pub fn get<'a>(v: &'a Json, key: &str) -> (r: Option<&'a Json>)
    ensures
        opt_val(r) == spec_get(*v, key@),
{
    match v {
        Json::Object(members) => {
            proof {
                lemma_member_index_bounds(members@, key@);
            }
            let mut i: usize = 0;
            while i < members.len()
                invariant
                    i <= members@.len(),
                    *v == Json::Object(*members),
                    forall|j: int| 0 <= j < i ==> (#[trigger] members@[j]).0@ != key@,
                    -1 <= member_index(members@, key@) < members@.len(),
                    member_index(members@, key@) >= 0 ==> members@[member_index(members@, key@)].0@ == key@,
                    member_index(members@, key@) >= 0 ==> forall|j: int|
                        0 <= j < member_index(members@, key@) ==> (#[trigger] members@[j]).0@ != key@,
                    member_index(members@, key@) < 0 ==> forall|j: int|
                        0 <= j < members@.len() ==> (#[trigger] members@[j]).0@ != key@,
                decreases members@.len() - i,
            {
                let (k, value) = &members[i];
                if crate::text::str_eq(k.as_str(), key) {
                    proof {
                        let m = member_index(members@, key@);
                        assert(members@[i as int].0@ == key@);
                        if m < 0 {
                            assert(members@[i as int].0@ != key@);
                        } else if m < i {
                            assert(members@[m].0@ != key@);
                        } else if m > i {
                            assert(members@[i as int].0@ != key@);
                        }
                        assert(m == i);
                    }
                    return Some(value);
                }
                i = i + 1;
            }
            None
        },
        _ => None,
    }
}

/// `get` on an optional value.
pub fn get_opt<'a>(v: Option<&'a Json>, key: &str) -> (r: Option<&'a Json>)
    ensures
        opt_val(r) == spec_get_opt(opt_val(v), key@),
{
    match v {
        Some(j) => get(j, key),
        None => None,
    }
}

/// `as_str`: the text of a string value.
pub fn as_str<'a>(v: Option<&'a Json>) -> (r: Option<&'a String>)
    ensures
        match r {
            Some(s) => spec_as_str(opt_val(v)) == Some(s@),
            None => spec_as_str(opt_val(v)) is None,
        },
{
    match v {
        Some(Json::String(s)) => Some(s),
        _ => None,
    }
}

/// `as_i64`.
pub fn as_i64(v: Option<&Json>) -> (r: Option<i64>)
    ensures
        r == spec_as_i64(opt_val(v)),
{
    match v {
        Some(Json::Number(n)) => *n,
        _ => None,
    }
}

/// `as_array`.
pub fn as_array<'a>(v: Option<&'a Json>) -> (r: Option<&'a Vec<Json>>)
    ensures
        match r {
            Some(items) => spec_as_array(opt_val(v)) == Some(items@),
            None => spec_as_array(opt_val(v)) is None,
        },
{
    match v {
        Some(Json::Array(items)) => Some(items),
        _ => None,
    }
}

} // verus!
