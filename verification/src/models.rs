//! Records of the photo library and how their identifiers are derived.

use vstd::prelude::*;
use crate::digest::{sha256_hex, sha256_hex_text};
use crate::text::{append_str, string_of};

verus! {

/// A place photos are scanned from.
#[derive(Debug, Clone)]
pub struct Source {
    pub id: String,
    pub name: String,
    pub root_path: String,
    pub source_type: String,
    pub enabled: bool,
    pub created_at: String,
    pub updated_at: String,
}

/// An album, made by hand or from a directory name.
#[derive(Debug, Clone)]
pub struct Album {
    pub id: String,
    pub name: String,
    pub remark: Option<String>,
    pub cover_photo_id: Option<String>,
    pub auto_created: bool,
    pub album_date: Option<String>,
    pub rule_key: Option<String>,
    pub created_at: String,
    pub updated_at: String,
}

/// Membership of a photo in an album.
#[derive(Debug, Clone)]
pub struct PhotoAlbum {
    pub photo_id: String,
    pub album_id: String,
    pub seq_no: Option<i32>,
    pub created_at: String,
}

/// One scan of a source.
#[derive(Debug, Clone)]
pub struct ScanJob {
    pub id: String,
    pub source_id: String,
    pub status: String,
    pub started_at: Option<String>,
    pub finished_at: Option<String>,
    pub total_count: Option<i32>,
    pub new_count: Option<i32>,
    pub updated_count: Option<i32>,
    pub failed_count: Option<i32>,
    pub error_message: Option<String>,
}

/// Features extracted from a photo.
#[derive(Debug, Clone)]
pub struct PhotoFeature {
    pub photo_id: String,
    pub version: i32,
    pub features_json: String,
    pub updated_at: String,
}

pub open spec fn text_of(o: Option<&str>) -> Seq<char> {
    match o {
        Some(s) => s@,
        None => Seq::empty(),
    }
}

/// The identifier of a photo: the digest of `<source id>:<storage file id>`.
pub fn build_photo_id(source_id: &str, storage_file_id: &str) -> (r: String)
    ensures
        r@ == sha256_hex_text(source_id@ + ":"@ + storage_file_id@),
        r@.len() == 64,
{
    let mut input = string_of(source_id);
    append_str(&mut input, ":");
    append_str(&mut input, storage_file_id);
    sha256_hex(input.as_str())
}

/// The identifier of an album: the digest of
/// `<name>:<date or nothing>:<salt>`.
pub fn build_album_id(normalized_name: &str, album_date: Option<&str>, random_salt: &str) -> (r:
    String)
    ensures
        r@ == sha256_hex_text(
            normalized_name@ + ":"@ + text_of(album_date) + ":"@ + random_salt@,
        ),
        r@.len() == 64,
{
    let mut input = string_of(normalized_name);
    append_str(&mut input, ":");
    match album_date {
        Some(d) => append_str(&mut input, d),
        None => {},
    }
    append_str(&mut input, ":");
    append_str(&mut input, random_salt);
    proof {
        if album_date is None {
            assert(normalized_name@ + ":"@ + Seq::<char>::empty() =~= normalized_name@ + ":"@);
        }
    }
    sha256_hex(input.as_str())
}

/// The identifier of a source: the digest of its root path as given.
pub fn source_id_for(root_path: &str) -> (r: String)
    ensures
        r@ == sha256_hex_text(root_path@),
{
    sha256_hex(root_path)
}

/// The identifier of a scan job: the digest of `<source id>:<time>`.
pub fn scan_job_id_for(source_id: &str, now: &str) -> (r: String)
    ensures
        r@ == sha256_hex_text(source_id@ + ":"@ + now@),
{
    let mut input = string_of(source_id);
    append_str(&mut input, ":");
    append_str(&mut input, now);
    sha256_hex(input.as_str())
}

/// The identifier of a scan task: the digest of
/// `task:<trigger>:<source id>:<time>`.
pub fn task_job_id_for(trigger_type: &str, source_id: &str, now: &str) -> (r: String)
    ensures
        r@ == sha256_hex_text("task:"@ + trigger_type@ + ":"@ + source_id@ + ":"@ + now@),
{
    let mut input = string_of("task:");
    append_str(&mut input, trigger_type);
    append_str(&mut input, ":");
    append_str(&mut input, source_id);
    append_str(&mut input, ":");
    append_str(&mut input, now);
    sha256_hex(input.as_str())
}

} // verus!
