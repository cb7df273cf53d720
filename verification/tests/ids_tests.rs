use xphoto::digest::sha256_hex;
use xphoto::json::{extract_source_id_from_payload, json_string_field};
use xphoto::models::{build_album_id, build_photo_id, scan_job_id_for, source_id_for, task_job_id_for};

#[test]
fn digest_is_lower_hex_sha256() {
    assert_eq!(
        sha256_hex("abc"),
        "ba7816bf8f01cfea414140de5dae2223b00361a396177a9cb410ff61f20015ad"
    );
    assert_eq!(
        sha256_hex(""),
        "e3b0c44298fc1c149afbf4c8996fb92427ae41e4649b934ca495991b7852b855"
    );
}

#[test]
fn ids_are_digests_of_joined_parts() {
    assert_eq!(build_photo_id("s", "f"), sha256_hex("s:f"));
    assert_eq!(build_album_id("Trip", Some("2020-02-01"), "x"), sha256_hex("Trip:2020-02-01:x"));
    assert_eq!(build_album_id("Trip", None, "x"), sha256_hex("Trip::x"));
    assert_eq!(source_id_for("/photos"), sha256_hex("/photos"));
    assert_eq!(scan_job_id_for("s", "t"), sha256_hex("s:t"));
    assert_eq!(task_job_id_for("manual", "s", "t"), sha256_hex("task:manual:s:t"));
    assert_eq!(build_photo_id("a", "b").len(), 64);
}

#[test]
fn source_id_from_task_payload() {
    assert_eq!(
        extract_source_id_from_payload(Some("{\"source_id\":\"abc\",\"n\":1}")),
        Some("abc".to_string())
    );
    assert_eq!(extract_source_id_from_payload(Some("{\"source_id\":5}")), None);
    assert_eq!(extract_source_id_from_payload(Some("not json")), None);
    assert_eq!(extract_source_id_from_payload(None), None);
    assert_eq!(json_string_field(Some("{\"k\":\"v\"}"), "k"), Some("v".to_string()));
    assert_eq!(json_string_field(Some("[1,2]"), "k"), None);
}

#[test]
fn file_content_digest() {
    assert_eq!(
        xphoto::digest::sha256_hex_bytes(&b"abc".to_vec()),
        "ba7816bf8f01cfea414140de5dae2223b00361a396177a9cb410ff61f20015ad"
    );
    assert_eq!(xphoto::digest::sha256_hex_bytes(&vec![0xFF, 0xD8]).len(), 64);
    assert_eq!(xphoto::digest::sha256_hex_bytes(&b"x".to_vec()), sha256_hex("x"));
}

#[test]
fn scan_checkpoints_name_the_job_and_its_status() {
    let text = xphoto::json::scan_checkpoint_json("job-1", "pending");
    assert_eq!(json_string_field(Some(&text), "scan_job_id"), Some("job-1".to_string()));
    assert_eq!(json_string_field(Some(&text), "scan_status"), Some("pending".to_string()));
}
