//! The trusted boundary to the YAML and timestamp parsers. Each function
//! here re-reads the frontmatter block, so every contract is a function
//! of the block's text alone.

use vstd::prelude::*;

verus! {

/// Whether serde_yaml parses this text as a YAML document.
pub uninterp spec fn yaml_ok(s: Seq<char>) -> bool;

/// The string value at a top-level key of the YAML document `s`, when
/// the document parses, has that key, and the value is a string.
pub uninterp spec fn yaml_field(s: Seq<char>, key: Seq<char>) -> Option<Seq<char>>;

/// The list of strings at a top-level key of the YAML document `s`, when
/// the value there is a sequence; entries that are not strings are kept
/// as empty strings.
pub uninterp spec fn yaml_list_field(s: Seq<char>, key: Seq<char>) -> Option<Seq<Seq<char>>>;

/// The top-level keys of the YAML document `s` in document order, when
/// the document parses to a mapping; keys that are not strings are kept
/// as empty strings.
pub uninterp spec fn yaml_top_keys_of(s: Seq<char>) -> Option<Seq<Seq<char>>>;

/// The timestamp an RFC 3339 string denotes, in seconds since the Unix
/// epoch, when it parses.
pub uninterp spec fn rfc3339_secs(s: Seq<char>) -> Option<i64>;

/// Relies on `serde_yaml::from_str::<serde_yaml::Value>`: checks that
/// the text is well-formed YAML, handing back the parser's message when
/// it is not.
#[verifier::external_body]
pub(crate) fn yaml_scan(s: &str) -> (r: Result<(), String>)
    ensures
        r is Ok <==> yaml_ok(s@),
{
    match serde_yaml::from_str::<serde_yaml::Value>(s) {
        Ok(_) => Ok(()),
        Err(e) => Err(e.to_string()),
    }
}

/// Relies on `serde_yaml::from_str::<serde_yaml::Value>`,
/// `serde_yaml::Value::get` and `serde_yaml::Value::as_str`: reads the
/// string value at a top-level key.
#[verifier::external_body]
pub(crate) fn yaml_str_field(s: &str, key: &str) -> (r: Option<String>)
    ensures
        match r {
            Some(v) => yaml_field(s@, key@) == Some(v@),
            None => yaml_field(s@, key@) is None,
        },
{
    let v: serde_yaml::Value = serde_yaml::from_str(s).ok()?;
    Some(v.get(key)?.as_str()?.to_string())
}

/// Relies on `serde_yaml::from_str::<serde_yaml::Value>`,
/// `serde_yaml::Value::get`, `serde_yaml::Value::as_sequence` and
/// `serde_yaml::Value::as_str`: reads the list of strings at a top-level
/// key.
#[verifier::external_body]
pub(crate) fn yaml_str_list_field(s: &str, key: &str) -> (r: Option<Vec<String>>)
    ensures
        match r {
            Some(l) => yaml_list_field(s@, key@) == Some(l.deep_view()),
            None => yaml_list_field(s@, key@) is None,
        },
{
    let v: serde_yaml::Value = serde_yaml::from_str(s).ok()?;
    let items = v.get(key)?.as_sequence()?;
    Some(items.iter().map(|x| x.as_str().unwrap_or("").to_string()).collect())
}

/// Relies on `serde_yaml::from_str::<serde_yaml::Value>`,
/// `serde_yaml::Value::as_mapping`, `serde_yaml::Mapping::keys` and
/// `serde_yaml::Value::as_str`: reads the top-level keys in document
/// order (serde_yaml mappings preserve it).
#[verifier::external_body]
pub(crate) fn yaml_mapping_keys(s: &str) -> (r: Option<Vec<String>>)
    ensures
        match r {
            Some(ks) => yaml_top_keys_of(s@) == Some(ks.deep_view()),
            None => yaml_top_keys_of(s@) is None,
        },
{
    let v: serde_yaml::Value = serde_yaml::from_str(s).ok()?;
    let m = v.as_mapping()?;
    Some(m.keys().map(|k| k.as_str().unwrap_or("").to_string()).collect())
}

/// Relies on `chrono::DateTime::parse_from_rfc3339` and
/// `chrono::DateTime::timestamp`: turns an RFC 3339 string into epoch
/// seconds.
#[verifier::external_body]
pub(crate) fn parse_rfc3339_epoch(s: &str) -> (r: Option<i64>)
    ensures
        r == rfc3339_secs(s@),
{
    chrono::DateTime::parse_from_rfc3339(s).ok().map(|d| d.timestamp())
}

} // verus!
