use xphoto::scan::{
    cancel_message, file_ext_lowercase, file_name_text, is_photo_file, list_failure_message,
    mime_from_ext, photos_to_soft_delete, resume_cursor_for, scan_should_start,
    scan_total_count, select_scan_targets, source_state_for, CancelPoint, FileProbe,
    PhotoCandidate, ScanCollector, ScanOutcome, ScanTally, StoredPhoto, StoredRef,
    UpsertDecision,
};
use xphoto::storage::StorageEntry;

fn file(path: &str) -> StorageEntry {
    StorageEntry {
        path: path.to_string(),
        is_dir: false,
        size: 10,
        created_at: None,
        modified_at: Some("2024-01-01T00:00:00+00:00".to_string()),
    }
}

fn dir(path: &str) -> StorageEntry {
    StorageEntry { path: path.to_string(), is_dir: true, size: 0, created_at: None, modified_at: None }
}

fn candidate(id: &str, path: &str, hash: &str) -> PhotoCandidate {
    PhotoCandidate {
        storage_file_id: id.to_string(),
        file_path: path.to_string(),
        file_name: "x.jpg".to_string(),
        file_ext: Some("jpg".to_string()),
        file_size: 10,
        mime_type: Some("image/jpeg".to_string()),
        content_hash: hash.to_string(),
        shot_at: None,
        created_at_fs: None,
        modified_at_fs: Some("t1".to_string()),
        sort_time: "t1".to_string(),
        exif_json: None,
        gps: None,
    }
}

#[test]
fn photo_files_by_extension() {
    assert!(is_photo_file("/a/b/IMG_1.JPG"));
    assert!(is_photo_file("x.heic"));
    assert!(!is_photo_file("/a/notes.txt"));
    assert!(!is_photo_file("/a/.jpg"));
    assert!(!is_photo_file("/a/jpg"));
    assert_eq!(file_ext_lowercase("/a/b.TiF"), Some("tif".to_string()));
    assert_eq!(file_ext_lowercase("/a/b"), None);
    assert_eq!(file_name_text("/a/b/c.png"), Some("c.png".to_string()));
    assert_eq!(file_name_text("/"), None);
}

#[test]
fn mime_types() {
    assert_eq!(mime_from_ext(Some("jpeg")), Some("image/jpeg".to_string()));
    assert_eq!(mime_from_ext(Some("tif")), Some("image/tiff".to_string()));
    assert_eq!(mime_from_ext(Some("webp")), Some("image/webp".to_string()));
    assert_eq!(mime_from_ext(Some("txt")), None);
    assert_eq!(mime_from_ext(None), None);
}

#[test]
fn targets_skip_directories_and_others() {
    let entries = vec![dir("/r/a"), file("/r/a/1.jpg"), file("/r/a/n.txt"), file("/r/b.png")];
    assert_eq!(select_scan_targets(&entries, &None), vec![1, 3]);
}

#[test]
fn targets_resume_after_cursor() {
    let entries = vec![file("/r/1.jpg"), file("/r/2.jpg"), file("/r/3.jpg")];
    assert_eq!(select_scan_targets(&entries, &Some("/r/1.jpg".to_string())), vec![1, 2]);
    assert_eq!(select_scan_targets(&entries, &Some("/r/3.jpg".to_string())), Vec::<usize>::new());
    assert_eq!(select_scan_targets(&entries, &Some("/r/zz.jpg".to_string())), Vec::<usize>::new());
}

#[test]
fn collector_counts_failures_and_keeps_first_error() {
    let mut c = ScanCollector::new();
    let e = file("/r/a.jpg");
    c.record(&e, FileProbe::HashFailed("denied".to_string()), "now");
    c.record(&e, FileProbe::CanonicalFailed("gone".to_string()), "now");
    assert_eq!(c.failed_count, 2);
    assert_eq!(
        c.first_error,
        Some("failed to calculate sha256 for /r/a.jpg: denied".to_string())
    );
    c.record(
        &e,
        FileProbe::Read {
            storage_file_id: "id1".to_string(),
            content_hash: "h".to_string(),
            shot_at: None,
            exif_json: None,
            gps: None,
        },
        "now",
    );
    assert_eq!(c.candidates.len(), 1);
    let k = &c.candidates[0];
    assert_eq!(k.file_name, "a.jpg");
    assert_eq!(k.file_ext, Some("jpg".to_string()));
    assert_eq!(k.mime_type, Some("image/jpeg".to_string()));
    assert_eq!(k.sort_time, "2024-01-01T00:00:00+00:00");
}

#[test]
fn sort_time_prefers_capture_time() {
    let mut c = ScanCollector::new();
    c.record(
        &file("/r/a.jpg"),
        FileProbe::Read {
            storage_file_id: "id".to_string(),
            content_hash: "h".to_string(),
            shot_at: Some("2020-02-01T10:11:12+00:00".to_string()),
            exif_json: Some("{}".to_string()),
            gps: None,
        },
        "now",
    );
    assert_eq!(c.candidates[0].sort_time, "2020-02-01T10:11:12+00:00");
    let mut d = ScanCollector::new();
    d.record(
        &dir("/r/x.jpg"),
        FileProbe::Read {
            storage_file_id: "id".to_string(),
            content_hash: "h".to_string(),
            shot_at: None,
            exif_json: None,
            gps: None,
        },
        "now",
    );
    assert_eq!(d.candidates[0].sort_time, "now");
}

#[test]
fn tally_decides_and_counts() {
    let mut t = ScanTally::start(1);
    let c = candidate("id1", "/r/1.jpg", "h1");
    assert!(!t.begin(&c, 2));
    assert_eq!(t.decide(&c, &None), UpsertDecision::Insert);
    assert!(t.begin(&c, 2));
    let same = StoredPhoto { modified_at_fs: Some("t1".to_string()), content_hash: Some("h1".to_string()) };
    assert_eq!(t.decide(&c, &Some(same)), UpsertDecision::Skip);
    let other = StoredPhoto { modified_at_fs: Some("t0".to_string()), content_hash: Some("h1".to_string()) };
    t.begin(&c, 2);
    assert_eq!(t.decide(&c, &Some(other)), UpsertDecision::Update);
    t.note_album_link();
    t.note_failure();
    assert_eq!(t.processed_count, 3);
    assert_eq!((t.new_count, t.updated_count, t.skipped_count), (1, 1, 1));
    assert_eq!(t.failed_count, 2);
    assert_eq!(t.auto_album_link_count, 1);
    assert_eq!(t.last_scanned_path, Some("/r/1.jpg".to_string()));
    assert_eq!(scan_total_count(3, 1), 4);
}

#[test]
fn successful_scan_leaves_no_resume_cursor() {
    let mut t = ScanTally::start(0);
    t.begin(&candidate("id9", "/r/9.jpg", "h9"), 50);
    let ok = source_state_for(
        &ScanOutcome::Succeeded(None),
        &Some("s".to_string()),
        &Some("f".to_string()),
        &t,
    );
    assert_eq!(ok.status, "success");
    assert_eq!(ok.last_scanned_path, None);
    assert_eq!(ok.last_scanned_storage_file_id, Some("id9".to_string()));
    let cut = source_state_for(&ScanOutcome::Cancelled(CancelPoint::DuringRun), &None, &None, &t);
    assert_eq!(cut.status, "cancelled");
    assert_eq!(cut.last_scanned_path, Some("/r/9.jpg".to_string()));
    assert_eq!(cut.last_error_message, Some("cancel requested during running".to_string()));
    let failed = source_state_for(&ScanOutcome::Failed("boom".to_string()), &None, &None, &t);
    assert_eq!(failed.status, "failed");
    assert_eq!(failed.last_scanned_storage_file_id, None);
    assert_eq!(failed.last_error_message, Some("boom".to_string()));
    let before = source_state_for(
        &ScanOutcome::CancelledBeforeStart("cancelled by task api".to_string()),
        &None,
        &Some("f".to_string()),
        &t,
    );
    assert_eq!(before.status, "cancelled");
    assert_eq!(before.last_scanned_path, None);
    assert_eq!(before.last_scan_finished_at, Some("f".to_string()));
    assert_eq!(before.last_error_message, Some("cancelled by task api".to_string()));
    let running = source_state_for(&ScanOutcome::Running, &Some("s".to_string()), &None, &t);
    assert_eq!(running.status, "running");
    assert_eq!(running.last_error_message, None);
}

#[test]
fn resume_and_start_rules() {
    assert_eq!(resume_cursor_for(true, Some("/a".to_string())), Some("/a".to_string()));
    assert_eq!(resume_cursor_for(false, Some("/a".to_string())), None);
    assert!(!scan_should_start(&Some("cancelled".to_string())));
    assert!(scan_should_start(&Some("pending".to_string())));
    assert!(scan_should_start(&None));
    assert_eq!(cancel_message(CancelPoint::BeforeUpsert), "cancel requested before photo upsert");
    assert_eq!(
        list_failure_message("/r", "no such dir"),
        "failed to list source entries at /r: no such dir"
    );
}

#[test]
fn rescan_soft_deletes_missing_files() {
    let stored = vec![
        StoredRef { photo_id: "p1".to_string(), storage_file_id: "f1".to_string() },
        StoredRef { photo_id: "p2".to_string(), storage_file_id: "f2".to_string() },
        StoredRef { photo_id: "p3".to_string(), storage_file_id: "f3".to_string() },
    ];
    let seen = vec![candidate("f2", "/r/2.jpg", "h")];
    assert_eq!(photos_to_soft_delete(false, &stored, &seen), vec!["p1".to_string(), "p3".to_string()]);
    assert!(photos_to_soft_delete(true, &stored, &seen).is_empty());
}
