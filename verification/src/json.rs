use vstd::prelude::*;

verus! {

/// Makes `serde_json::Value` known as a type. Nothing is seen inside a
/// value of it: what it holds is read through the functions below.
#[verifier::external_type_specification]
#[verifier::external_body]
pub struct ExValue(serde_json::Value);

/// The JSON value that `bytes` are the text of; none where they are no JSON
/// text.
pub uninterp spec fn json_of(bytes: Seq<u8>) -> Option<serde_json::Value>;

/// The member of the object `v` under `key`; none where `v` is no object or
/// has no such member.
pub uninterp spec fn member_of(v: serde_json::Value, key: Seq<char>) -> Option<serde_json::Value>;

/// The elements of the array `v`; none where `v` is no array.
pub uninterp spec fn elements_of(v: serde_json::Value) -> Option<Seq<serde_json::Value>>;

/// The number `v` as an unsigned integer of 64 bits; none where `v` is no
/// number, is negative or has a fraction.
pub uninterp spec fn u64_of(v: serde_json::Value) -> Option<u64>;

/// The truth value `v`; none where `v` is no truth value.
pub uninterp spec fn bool_of(v: serde_json::Value) -> Option<bool>;

/// `serde_json::from_slice` for a `serde_json::Value`, with a parse error
/// turned into `None`. Nothing is proved of the parser: the contract only
/// gives its result a name.
#[verifier::external_body]
pub(crate) fn parse(bytes: &[u8]) -> (r: Option<serde_json::Value>)
    ensures
        r == json_of(bytes@),
{
    serde_json::from_slice(bytes).ok()
}

/// `serde_json::Value::get` with a string index: the member of an object
/// under a key.
#[verifier::external_body]
pub(crate) fn member<'a>(v: &'a serde_json::Value, key: &str) -> (r: Option<&'a serde_json::Value>)
    ensures
        match r {
            Some(m) => member_of(*v, key@) == Some(*m),
            None => member_of(*v, key@) is None,
        },
{
    v.get(key)
}

/// `serde_json::Value::as_array`: the elements of an array.
#[verifier::external_body]
pub(crate) fn elements<'a>(v: &'a serde_json::Value) -> (r: Option<&'a Vec<serde_json::Value>>)
    ensures
        match r {
            Some(a) => elements_of(*v) == Some(a@),
            None => elements_of(*v) is None,
        },
{
    v.as_array()
}

/// `serde_json::Value::as_u64`: a number that is an unsigned integer.
#[verifier::external_body]
pub(crate) fn as_u64(v: &serde_json::Value) -> (r: Option<u64>)
    ensures
        r == u64_of(*v),
{
    v.as_u64()
}

/// `serde_json::Value::as_bool`: a truth value.
#[verifier::external_body]
pub(crate) fn as_bool(v: &serde_json::Value) -> (r: Option<bool>)
    ensures
        r == bool_of(*v),
{
    v.as_bool()
}

/// The unsigned integer under `key` in the object `v`.
pub open spec fn u64_member_of(v: serde_json::Value, key: Seq<char>) -> Option<u64> {
    match member_of(v, key) {
        Some(m) => u64_of(m),
        None => None,
    }
}

/// The unsigned integer under `key` in the object `v`.
pub(crate) fn u64_member(v: &serde_json::Value, key: &str) -> (r: Option<u64>)
    ensures
        r == u64_member_of(*v, key@),
{
    match member(v, key) {
        Some(m) => as_u64(m),
        None => None,
    }
}

} // verus!
