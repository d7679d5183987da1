//! JSON documents, read with `serde_json`, and the two lookups that lead
//! from the fingerprint of a program to the platform it was written for.

use serde_json::Value;
use vstd::prelude::*;

verus! {

/// A parsed JSON document of `serde_json`, carried as an opaque value.
#[verifier::external_type_specification]
#[verifier::external_body]
pub struct ExValue(Value);

/// The error of `serde_json`, carried as an opaque value.
#[verifier::external_type_specification]
#[verifier::external_body]
pub struct ExJsonError(serde_json::Error);

/// What a JSON document holds.
pub enum Json {
    Null,
    Bool(bool),
    /// A number written as a plain integer from 0 to 2^64 - 1, without
    /// sign, fraction or exponent.
    Natural(u64),
    /// Any other number.
    Number,
    Text(Seq<char>),
    Array(Seq<Json>),
    Object(Map<Seq<char>, Json>),
}

/// What a parsed document holds.
pub uninterp spec fn json_of(value: Value) -> Json;

/// What `text` holds when read as JSON, or `None` where it is not JSON.
pub uninterp spec fn parsed_json(text: Seq<char>) -> Option<Json>;

/// The member `key` of an object; `None` for a missing key and for
/// anything that is no object.
pub open spec fn member(json: Json, key: Seq<char>) -> Option<Json> {
    match json {
        Json::Object(members) => if members.contains_key(key) {
            Some(members[key])
        } else {
            None
        },
        _ => None,
    }
}

/// The element at `index` of an array; `None` for an index past the end
/// and for anything that is no array.
pub open spec fn element(json: Json, index: int) -> Option<Json> {
    match json {
        Json::Array(elements) => if 0 <= index < elements.len() {
            Some(elements[index])
        } else {
            None
        },
        _ => None,
    }
}

/// `serde_json::from_str` at `Value`: reads `text` as one JSON document.
/// The contract names the outcome: the document on success, and an error
/// exactly where the text is not JSON.
#[verifier::external_body]
pub(crate) fn parse_json(text: &str) -> (outcome: Result<Value, serde_json::Error>)
    ensures
        match outcome {
            Ok(value) => parsed_json(text@) == Some(json_of(value)),
            Err(_) => parsed_json(text@) is None,
        },
{
    serde_json::from_str::<Value>(text)
}

/// `Value::get` with a string: the member `key` where `value` is an object
/// that has it, `None` otherwise.
#[verifier::external_body]
pub(crate) fn json_member<'a>(value: &'a Value, key: &str) -> (found: Option<&'a Value>)
    ensures
        match found {
            Some(inner) => member(json_of(*value), key@) == Some(json_of(*inner)),
            None => member(json_of(*value), key@) is None,
        },
{
    value.get(key)
}

/// `Value::get` with a number: the element at `index` where `value` is an
/// array that long, `None` otherwise.
#[verifier::external_body]
pub(crate) fn json_element<'a>(value: &'a Value, index: usize) -> (found: Option<&'a Value>)
    ensures
        match found {
            Some(inner) => element(json_of(*value), index as int) == Some(json_of(*inner)),
            None => element(json_of(*value), index as int) is None,
        },
{
    value.get(index)
}

/// `Value::as_u64`: the number where `value` is a number that was written
/// as a plain integer from 0 to 2^64 - 1, `None` otherwise (`1.0` and `1e2`
/// are no such numbers).
#[verifier::external_body]
pub(crate) fn json_as_u64(value: &Value) -> (number: Option<u64>)
    ensures
        number == match json_of(*value) {
            Json::Natural(n) => Some(n),
            _ => None,
        },
{
    value.as_u64()
}

/// `Value::as_str`: the text where `value` is a string, `None` otherwise.
#[verifier::external_body]
pub(crate) fn json_as_str<'a>(value: &'a Value) -> (text: Option<&'a str>)
    ensures
        match text {
            Some(s) => json_of(*value) == Json::Text(s@),
            None => !(json_of(*value) is Text),
        },
{
    value.as_str()
}

/// The number under which the table of fingerprints lists `digest`.
pub open spec fn index_in(hashes: Json, digest: Seq<char>) -> Option<u64> {
    match member(hashes, digest) {
        Some(Json::Natural(index)) => Some(index),
        _ => None,
    }
}

/// The first platform that entry `index` of the list of programs names for
/// the image with fingerprint `digest`:
/// `programs[index].roms[digest].platforms[0]`, where that is a string. An
/// index beyond what the machine can address finds nothing.
pub open spec fn platform_at(programs: Json, index: u64, digest: Seq<char>) -> Option<Seq<char>> {
    match (if index <= usize::MAX {
        element(programs, index as int)
    } else {
        None
    }) {
        Some(program) => match member(program, "roms"@) {
            Some(roms) => match member(roms, digest) {
                Some(rom) => match member(rom, "platforms"@) {
                    Some(platforms) => match element(platforms, 0) {
                        Some(Json::Text(platform)) => Some(platform),
                        _ => None,
                    },
                    None => None,
                },
                None => None,
            },
            None => None,
        },
        None => None,
    }
}

/// Looks `digest` up in the table of fingerprints.
pub fn lookup_index(hashes: &Value, digest: &str) -> (index: Option<u64>)
    ensures
        index == index_in(json_of(*hashes), digest@),
{
    match json_member(hashes, digest) {
        Some(entry) => json_as_u64(entry),
        None => None,
    }
}

/// Looks up the first platform that entry `index` of the list of programs
/// names for the image with fingerprint `digest`.
pub fn lookup_platform(programs: &Value, index: u64, digest: &str) -> (platform: Option<String>)
    ensures
        platform is Some == platform_at(json_of(*programs), index, digest@) is Some,
        platform matches Some(name) ==> platform_at(json_of(*programs), index, digest@) == Some(
            name@,
        ),
{
    if index > usize::MAX as u64 {
        return None;
    }
    let program = match json_element(programs, index as usize) {
        Some(program) => program,
        None => { return None; },
    };
    let roms = match json_member(program, "roms") {
        Some(roms) => roms,
        None => { return None; },
    };
    let rom = match json_member(roms, digest) {
        Some(rom) => rom,
        None => { return None; },
    };
    let platforms = match json_member(rom, "platforms") {
        Some(platforms) => platforms,
        None => { return None; },
    };
    let first = match json_element(platforms, 0) {
        Some(first) => first,
        None => { return None; },
    };
    match json_as_str(first) {
        Some(platform) => Some(platform.to_owned()),
        None => None,
    }
}

} // verus!
