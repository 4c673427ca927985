//! A small closed variant type for generic YAML-like data, and the trusted
//! boundary to the outside parsers that produce it from text.
//!
//! The lenient parser and the pack loader work over [`Yaml`] values; only the
//! step from raw text to a `Yaml` value is delegated to `serde_yaml` and
//! `serde_json` behind the wrappers below.

use vstd::prelude::*;

verus! {

/// A generic dynamically-typed YAML-like value.
///
/// Scalars the schema has no use for (floats, integers outside `i64`, tagged
/// values) are carried as `Other`; they coerce like any unrecognized value.
#[derive(Debug, PartialEq)]
pub enum Yaml {
    Null,
    Bool(bool),
    Int(i64),
    Str(String),
    Sequence(Vec<Yaml>),
    Mapping(Vec<(Yaml, Yaml)>),
    Other,
}

#[verifier::external_type_specification]
#[verifier::external_body]
pub struct ExYamlValue(serde_yaml::Value);

#[verifier::external_type_specification]
#[verifier::external_body]
pub struct ExJsonValue(serde_json::Value);

/// The value that `serde_yaml` reads from the text, `None` where the text is
/// malformed. The result depends on the text alone.
pub uninterp spec fn yaml_of(s: Seq<char>) -> Option<Yaml>;

/// The value that `serde_json` reads from the text, `None` where the text is
/// not JSON. The result depends on the text alone.
pub uninterp spec fn json_of(s: Seq<char>) -> Option<Yaml>;

/// The value that `serde_json` reads from the bytes, `None` where the bytes
/// are not JSON. The result depends on the bytes alone.
pub uninterp spec fn json_of_bytes(b: Seq<u8>) -> Option<Yaml>;


/// First-match lookup of a string key in a mapping's entries.
pub open spec fn yaml_get(entries: Seq<(Yaml, Yaml)>, k: Seq<char>) -> Option<Yaml>
    decreases entries.len(),
{
    if entries.len() == 0 {
        None
    } else if entries[0].0 matches Yaml::Str(ks) && ks@ == k {
        Some(entries[0].1)
    } else {
        yaml_get(entries.drop_first(), k)
    }
}

/// First-match lookup of a string key, returning the entry's index.
pub fn yaml_find(entries: &Vec<(Yaml, Yaml)>, k: &str) -> (r: Option<usize>)
    ensures
        r matches Some(i) ==> i < entries@.len() && yaml_get(entries@, k@) == Some(
            entries@[i as int].1,
        ),
        r is None ==> yaml_get(entries@, k@) is None,
{
    let mut i: usize = 0;
    proof {
        assert(entries@.skip(0) =~= entries@);
    }
    while i < entries.len()
        invariant
            i <= entries@.len(),
            yaml_get(entries@, k@) == yaml_get(entries@.skip(i as int), k@),
        decreases entries@.len() - i,
    {
        proof {
            assert(entries@.skip(i as int).drop_first() =~= entries@.skip(i + 1 as int));
        }
        match &entries[i].0 {
            Yaml::Str(s) => {
                if crate::chars::str_eq(s.as_str(), k) {
                    return Some(i);
                }
            },
            _ => {},
        }
        i = i + 1;
    }
    None
}

/// Converts an owned `serde_yaml` value into the closed variant type, one
/// variant arm each; numbers outside `i64` and tagged values become `Other`.
/// Only the trusted parse wrappers call it.
#[verifier::external_body]
fn yaml_from_outside(v: serde_yaml::Value) -> Yaml {
    match v {
        serde_yaml::Value::Null => Yaml::Null,
        serde_yaml::Value::Bool(b) => Yaml::Bool(b),
        serde_yaml::Value::Number(n) => n.as_i64().map_or(Yaml::Other, Yaml::Int),
        serde_yaml::Value::String(t) => Yaml::Str(t),
        serde_yaml::Value::Sequence(xs) => Yaml::Sequence(
            xs.into_iter().map(yaml_from_outside).collect(),
        ),
        serde_yaml::Value::Mapping(m) => Yaml::Mapping(
            m.into_iter().map(|kv| (yaml_from_outside(kv.0), yaml_from_outside(kv.1))).collect(),
        ),
        serde_yaml::Value::Tagged(_) => Yaml::Other,
    }
}

/// Converts an owned `serde_json` value into the closed variant type, one
/// variant arm each; numbers outside `i64` become `Other`. Only the trusted
/// parse wrappers call it.
#[verifier::external_body]
fn json_from_outside(v: serde_json::Value) -> Yaml {
    match v {
        serde_json::Value::Null => Yaml::Null,
        serde_json::Value::Bool(b) => Yaml::Bool(b),
        serde_json::Value::Number(n) => n.as_i64().map_or(Yaml::Other, Yaml::Int),
        serde_json::Value::String(t) => Yaml::Str(t),
        serde_json::Value::Array(xs) => Yaml::Sequence(
            xs.into_iter().map(json_from_outside).collect(),
        ),
        serde_json::Value::Object(m) => Yaml::Mapping(
            m.into_iter().map(|kv| (Yaml::Str(kv.0), json_from_outside(kv.1))).collect(),
        ),
    }
}

/// Relies on `serde_yaml::from_str::<Value>`: well-formed YAML text yields its
/// generic value, malformed text an error, deterministically in the text.
#[verifier::external_body]
pub fn parse_yaml_text(s: &str) -> (r: Result<Yaml, String>)
    ensures
        r matches Ok(v) ==> yaml_of(s@) == Some(v),
        r is Err ==> yaml_of(s@) is None,
{
    match serde_yaml::from_str::<serde_yaml::Value>(s) {
        Ok(v) => Ok(yaml_from_outside(v)),
        Err(e) => Err(e.to_string()),
    }
}

/// Relies on `serde_json::from_str::<Value>`: well-formed JSON text yields its
/// generic value, malformed text an error, deterministically in the text.
#[verifier::external_body]
pub fn parse_json_text(s: &str) -> (r: Result<Yaml, String>)
    ensures
        r matches Ok(v) ==> json_of(s@) == Some(v),
        r is Err ==> json_of(s@) is None,
{
    match serde_json::from_str::<serde_json::Value>(s) {
        Ok(v) => Ok(json_from_outside(v)),
        Err(e) => Err(e.to_string()),
    }
}

/// Relies on `serde_json::from_slice::<Value>`: well-formed JSON bytes yield
/// their generic value, malformed bytes an error, deterministically in the
/// bytes.
#[verifier::external_body]
pub fn parse_json_bytes(b: &[u8]) -> (r: Result<Yaml, String>)
    ensures
        r matches Ok(v) ==> json_of_bytes(b@) == Some(v),
        r is Err ==> json_of_bytes(b@) is None,
{
    match serde_json::from_slice::<serde_json::Value>(b) {
        Ok(v) => Ok(json_from_outside(v)),
        Err(e) => Err(e.to_string()),
    }
}

} // verus!
