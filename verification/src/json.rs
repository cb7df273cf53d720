//! Reading a string member out of a JSON object text.

use vstd::prelude::*;
use crate::paths::opt_view;
use crate::text::string_of;

verus! {

/// The string value of the member `key` of the JSON object `text`, if
/// `text` parses as a JSON object whose member `key` is a string.
pub uninterp spec fn json_string_member(text: Seq<char>, key: Seq<char>) -> Option<Seq<char>>;

/// `serde_json::from_str::<serde_json::Value>`, then the string held by
/// member `key` of the object, if any. What it returns is named, not
/// spelled out: it is a function of the two texts alone.
#[verifier::external_body]
fn parse_string_member(text: &str, key: &str) -> (r: Option<String>)
    ensures
        opt_view(r) == json_string_member(text@, key@),
{
    match serde_json::from_str::<serde_json::Value>(text) {
        Ok(serde_json::Value::Object(map)) => match map.get(key) {
            Some(serde_json::Value::String(s)) => Some(s.clone()),
            _ => None,
        },
        _ => None,
    }
}

pub open spec fn member_of(text: Option<Seq<char>>, key: Seq<char>) -> Option<Seq<char>> {
    match text {
        Some(t) => json_string_member(t, key),
        None => None,
    }
}

/// The string member `key` of an optional JSON object text.
pub fn json_string_field(text: Option<&str>, key: &str) -> (r: Option<String>)
    ensures
        opt_view(r) == member_of(
            match text {
                Some(t) => Some(t@),
                None => None,
            },
            key@,
        ),
{
    match text {
        Some(t) => parse_string_member(t, key),
        None => None,
    }
}

/// The `source_id` a task payload names.
pub fn extract_source_id_from_payload(payload_json: Option<&str>) -> (r: Option<String>)
    ensures
        opt_view(r) == member_of(
            match payload_json {
                Some(t) => Some(t@),
                None => None,
            },
            "source_id"@,
        ),
{
    json_string_field(payload_json, "source_id")
}

/// The JSON text of an object with the given string members, inserted in
/// order into a `serde_json::Map`.
pub uninterp spec fn json_object_text(pairs: Seq<(Seq<char>, Seq<char>)>) -> Seq<char>;

/// `serde_json::Value::Object(map).to_string()` of a map filled with the
/// pairs in order.
#[verifier::external_body]
pub(crate) fn json_object(pairs: &Vec<(String, String)>) -> (r: String)
    ensures
        r@ == json_object_text(pairs@.map_values(|p: (String, String)| (p.0@, p.1@))),
{
    let mut map = serde_json::Map::new();
    for (k, v) in pairs.iter() {
        map.insert(k.clone(), serde_json::Value::String(v.clone()));
    }
    serde_json::Value::Object(map).to_string()
}

/// The checkpoint a scan task records of the scan job it follows:
/// `{"scan_job_id": <id>, "scan_status": <status>}`.
pub fn scan_checkpoint_json(scan_job_id: &str, scan_status: &str) -> (r: String)
    ensures
        r@ == json_object_text(seq![("scan_job_id"@, scan_job_id@), ("scan_status"@, scan_status@)]),
{
    let mut pairs: Vec<(String, String)> = Vec::new();
    pairs.push((string_of("scan_job_id"), string_of(scan_job_id)));
    pairs.push((string_of("scan_status"), string_of(scan_status)));
    proof {
        assert(pairs@.map_values(|p: (String, String)| (p.0@, p.1@)) =~= seq![
            ("scan_job_id"@, scan_job_id@),
            ("scan_status"@, scan_status@),
        ]);
    }
    json_object(&pairs)
}

} // verus!
