use xphoto::api::{
    check_add_to_album, check_album_update, check_changed_paths, check_cover_photo_id,
    check_photo_ids, final_album_name, include_all_daemon_or_default, normalize_pagination,
    order_is_desc, pagination_fits, photo_search_filters, plan_create_album, plan_create_source,
    task_job_filters, total_affected, trimmed_or_empty, ApiError, ApiResponse, CreateAlbumRequest,
    CreateSourceRequest, FsWatchPlan, SqlPiece, fs_watch_plan,
};
use xphoto::digest::sha256_hex;

fn texts(v: &[SqlPiece]) -> Vec<String> {
    v.iter()
        .map(|p| match p {
            SqlPiece::Text(t) => format!("T:{}", t),
            SqlPiece::Bind(b) => format!("B:{}", b),
        })
        .collect()
}

#[test]
fn responses_and_errors() {
    let r = ApiResponse::ok(5);
    assert_eq!(r.code, 0);
    assert_eq!(r.message, "ok");
    assert_eq!(r.data, 5);
    let e = ApiError::bad_request("bad");
    assert_eq!(e.status, 400);
    assert_eq!(e.message, "bad");
}

#[test]
fn pages_are_clamped() {
    let p = normalize_pagination(None, None);
    assert_eq!((p.page, p.page_size, p.offset), (1, 100, 0));
    let p = normalize_pagination(Some(3), Some(20));
    assert_eq!((p.page, p.page_size, p.offset), (3, 20, 40));
    let p = normalize_pagination(Some(-4), Some(9999));
    assert_eq!((p.page, p.page_size, p.offset), (1, 500, 0));
    let p = normalize_pagination(Some(2), Some(0));
    assert_eq!((p.page, p.page_size, p.offset), (2, 1, 1));
    assert!(pagination_fits(Some(5), Some(10)));
    assert!(!pagination_fits(Some(i64::MAX), Some(500)));
}

#[test]
fn search_filters_only_for_given_values() {
    assert!(photo_search_filters("", "", "", "", "").is_empty());
    let v = photo_search_filters("cat", "", "s1", "", "2024");
    assert_eq!(
        texts(&v),
        vec![
            "T: AND (p.file_name LIKE ",
            "B:%cat%",
            "T: OR p.file_path LIKE ",
            "B:%cat%",
            "T: OR IFNULL(p.remark, '') LIKE ",
            "B:%cat%",
            "T: OR IFNULL(p.exif_json, '') LIKE ",
            "B:%cat%",
            "T:)",
            "T: AND p.source_id = ",
            "B:s1",
            "T: AND p.sort_time <= ",
            "B:2024",
        ]
    );
    assert_eq!(
        texts(&task_job_filters("", "failed")),
        vec!["T: AND tj.status = ", "B:failed"]
    );
    assert_eq!(trimmed_or_empty(&Some("  x ".to_string())), "x");
    assert_eq!(trimmed_or_empty(&None), "");
    assert!(order_is_desc(&None));
    assert!(!order_is_desc(&Some("ASC".to_string())));
    assert!(order_is_desc(&Some("up".to_string())));
}

#[test]
fn new_source_is_validated_and_identified() {
    let req = CreateSourceRequest {
        name: "  Home ".to_string(),
        root_path: " /photos ".to_string(),
        source_type: None,
    };
    let s = plan_create_source(&req, "now").unwrap();
    assert_eq!(s.id, sha256_hex(" /photos "));
    assert_eq!(s.name, "Home");
    assert_eq!(s.root_path, "/photos");
    assert_eq!(s.source_type, "local_fs");
    assert!(s.enabled);
    let bad = CreateSourceRequest { name: " ".to_string(), root_path: "/p".to_string(), source_type: None };
    let e = plan_create_source(&bad, "now").unwrap_err();
    assert_eq!((e.status, e.message.as_str()), (400, "name/root_path 不能为空"));
}

#[test]
fn new_album_is_validated_and_identified() {
    let req = CreateAlbumRequest {
        name: " Trip ".to_string(),
        remark: None,
        auto_created: None,
        album_date: Some("2024-01-01".to_string()),
        rule_key: None,
    };
    let a = plan_create_album(&req, "t0").unwrap();
    assert_eq!(a.name, "Trip");
    assert_eq!(a.id, sha256_hex("Trip:2024-01-01:t0:Trip"));
    assert!(!a.auto_created);
    assert_eq!(a.cover_photo_id, None);
    let e = plan_create_album(
        &CreateAlbumRequest { name: "".to_string(), remark: None, auto_created: None, album_date: None, rule_key: None },
        "t0",
    )
    .unwrap_err();
    assert_eq!(e.message, "album name 不能为空");
}

#[test]
fn request_checks() {
    assert_eq!(check_album_update(&None, &None).unwrap_err().message, "name/remark 至少一个字段需要更新");
    assert_eq!(check_album_update(&None, &Some("r".to_string())).unwrap(), true);
    assert_eq!(final_album_name(&Some(" New ".to_string()), &None).unwrap(), "New");
    assert_eq!(final_album_name(&None, &None).unwrap_err().message, "album 不存在");
    assert_eq!(check_photo_ids(&vec![]).unwrap_err().message, "photo_ids 不能为空");
    assert!(check_photo_ids(&vec!["p".to_string()]).is_ok());
    assert_eq!(
        check_add_to_album(&vec!["p".to_string()], "  ").unwrap_err().message,
        "album_id 不能为空"
    );
    assert_eq!(check_cover_photo_id(" c1 ").unwrap(), "c1");
    assert_eq!(check_cover_photo_id("").unwrap_err().message, "cover_photo_id 不能为空");
    assert_eq!(check_changed_paths(&vec![]).unwrap_err().message, "changed_paths 不能为空");
    assert_eq!(total_affected(&vec![1, 0, 2]), 3);
    assert!(include_all_daemon_or_default(None));
    assert!(!include_all_daemon_or_default(Some(false)));
}

#[test]
fn album_keyword_searches_album_names() {
    let v = photo_search_filters("album:Renamed", "", "", "", "");
    assert_eq!(
        texts(&v),
        vec![
            "T: AND EXISTS (SELECT 1 FROM photo_albums pk INNER JOIN albums ak ON ak.id = pk.album_id WHERE pk.photo_id = p.id AND ak.name LIKE ",
            "B:%Renamed%",
            "T:)",
        ]
    );
    // a bare prefix is an ordinary keyword
    let v = photo_search_filters("album:", "", "", "", "");
    assert_eq!(texts(&v)[1], "B:%album:%");
}

#[test]
fn exif_keyword_searches_exif_data() {
    let v = photo_search_filters("exif:SearchableLens777", "", "", "", "");
    assert_eq!(
        texts(&v),
        vec!["T: AND IFNULL(p.exif_json, '') LIKE ", "B:%SearchableLens777%"]
    );
    let v = photo_search_filters("SearchableLens777", "", "", "", "");
    assert!(texts(&v).contains(&"T: OR IFNULL(p.exif_json, '') LIKE ".to_string()));
    let v = photo_search_filters("album: Test.Album", "", "", "", "");
    assert_eq!(texts(&v)[1], "B:%Test.Album%");
}

#[test]
fn file_watch_triggers_reuse_an_active_job() {
    let paths = vec!["/p/a.jpg".to_string()];
    let e = fs_watch_plan(&vec![], Some(true), None).unwrap_err();
    assert_eq!(e.message, "changed_paths 不能为空");
    assert_eq!(fs_watch_plan(&paths, None, None).unwrap_err().message, "source 不存在");
    assert_eq!(fs_watch_plan(&paths, Some(false), None).unwrap_err().message, "source 已禁用，无法扫描");
    assert!(matches!(fs_watch_plan(&paths, Some(true), Some("j1".to_string())), Ok(FsWatchPlan::Reuse(j)) if j == "j1"));
    assert!(matches!(fs_watch_plan(&paths, Some(true), None), Ok(FsWatchPlan::Start)));
}
