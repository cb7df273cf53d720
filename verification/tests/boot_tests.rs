use xphoto::boot::{
    collect_boot_env_snapshot, schema_statements, snapshot_value, split_env_snapshot,
    sqlite_file_path, BOOT_ENV_KEYS,
};

#[test]
fn sqlite_urls_name_their_file() {
    assert_eq!(sqlite_file_path("sqlite://data/x.db"), "data/x.db");
    assert_eq!(sqlite_file_path("sqlite:///abs/x.db"), "/abs/x.db");
    assert_eq!(sqlite_file_path("postgres://h/db"), "<non-sqlite-url>");
    assert_eq!(sqlite_file_path("sqlite:/"), "<non-sqlite-url>");
}

#[test]
fn snapshot_splits_into_set_and_unset() {
    let snap = vec![
        ("HOME".to_string(), "/root".to_string()),
        ("USER".to_string(), "<unset>".to_string()),
        ("LOG_DIR".to_string(), "logs".to_string()),
        ("BIND_ADDR".to_string(), "<unset>".to_string()),
    ];
    let (set, unset) = split_env_snapshot(&snap);
    assert_eq!(
        set,
        vec![
            ("HOME".to_string(), "/root".to_string()),
            ("LOG_DIR".to_string(), "logs".to_string())
        ]
    );
    assert_eq!(unset, vec!["USER".to_string(), "BIND_ADDR".to_string()]);
}

#[test]
fn snapshot_marks_missing_values() {
    assert_eq!(snapshot_value(None), "<unset>");
    assert_eq!(snapshot_value(Some("x".to_string())), "x");
    let mut values: Vec<Option<String>> = vec![None; 25];
    values[0] = Some("/home/a".to_string());
    let snap = collect_boot_env_snapshot(values);
    assert_eq!(snap.len(), BOOT_ENV_KEYS.len());
    assert_eq!(snap[0], ("HOME".to_string(), "/home/a".to_string()));
    assert_eq!(snap[24].0, "SCAN_SOURCE_CHANGE_DETECT_INTERVAL_MS");
    assert_eq!(snap[24].1, "<unset>");
}

#[test]
fn schema_script_statements() {
    let sql = "CREATE TABLE a (x INT);\n\n  ;\nCREATE INDEX i ON a(x) ;  \n";
    assert_eq!(
        schema_statements(sql),
        vec!["CREATE TABLE a (x INT)".to_string(), "CREATE INDEX i ON a(x)".to_string()]
    );
    assert!(schema_statements("  ").is_empty());
    assert_eq!(schema_statements("SELECT 1"), vec!["SELECT 1".to_string()]);
}
