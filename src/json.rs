//! A plain model of a parsed JSON value, and the lookups the decoder needs.

use vstd::prelude::*;

verus! {

/// A parsed JSON value. Integers keep their value; a number with a fraction
/// or an exponent is kept only as the fact that it was such a number.
#[derive(Debug)]
pub enum Json {
    Null,
    Bool(bool),
    UInt(u64),
    NegInt(i64),
    Fractional,
    Str(String),
    Array(Vec<Json>),
    Object(Vec<(String, Json)>),
}

/// The value stored under the first entry named `key`.
pub open spec fn first_field(fields: Seq<(String, Json)>, key: Seq<char>) -> Option<Json>
    decreases fields.len(),
{
    if fields.len() == 0 {
        None
    } else if fields[0].0@ == key {
        Some(fields[0].1)
    } else {
        first_field(fields.drop_first(), key)
    }
}

/// The member `key` of `v`, if `v` is an object that has one.
pub open spec fn member_spec(v: Json, key: Seq<char>) -> Option<Json> {
    match v {
        Json::Object(fields) => first_field(fields@, key),
        _ => None,
    }
}

proof fn lemma_first_field_step(fields: Seq<(String, Json)>, key: Seq<char>, i: int)
    requires
        0 <= i < fields.len(),
        fields[i].0@ != key,
    ensures
        first_field(fields.subrange(i, fields.len() as int), key) == first_field(
            fields.subrange(i + 1, fields.len() as int),
            key,
        ),
{
    assert(fields.subrange(i, fields.len() as int).drop_first() =~= fields.subrange(
        i + 1,
        fields.len() as int,
    ));
}

/// The value that an optional reference points to.
pub open spec fn opt_ref(v: Option<&Json>) -> Option<Json> {
    match v {
        Some(x) => Some(*x),
        None => None,
    }
}

/// The member `key` of `v`, if `v` is an object that has one.
pub fn member<'a>(v: &'a Json, key: &str) -> (r: Option<&'a Json>)
    ensures
        opt_ref(r) == member_spec(*v, key@),
{
    match v {
        Json::Object(fields) => {
            let k = key.to_string();
            let n = fields.len();
            assert(member_spec(*v, key@) == first_field(fields@, key@));
            let mut i: usize = 0;
            assert(fields@.subrange(0, n as int) =~= fields@);
            while i < n
                invariant
                    n == fields@.len(),
                    i <= n,
                    k@ == key@,
                    member_spec(*v, key@) == first_field(fields@, key@),
                    first_field(fields@.subrange(i as int, n as int), key@) == first_field(
                        fields@,
                        key@,
                    ),
                decreases n - i,
            {
                if fields[i].0 == k {
                    let ghost rest = fields@.subrange(i as int, n as int);
                    assert(rest[0] == fields@[i as int]);
                    assert(rest[0].0@ == key@);
                    assert(first_field(rest, key@) == Some(rest[0].1));
                    return Some(&fields[i].1);
                }
                proof {
                    lemma_first_field_step(fields@, key@, i as int);
                }
                i = i + 1;
            }
            None
        },
        _ => None,
    }
}

} // verus!
