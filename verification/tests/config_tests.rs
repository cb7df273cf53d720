use xphoto::config::{
    apply_env_overrides, default_config_step, default_root_dir_for, parse_duration_seconds,
    parse_size_bytes, resolve_config_path, resolve_loaded_config, resolve_root_dir,
    size_setting_bytes, AppConfig, ConfigEnv, DefaultConfigStep, PreviewCacheConfig, ScanConfig,
    SizeSetting, DEFAULT_CONFIG_TEXT,
};

fn empty_env() -> ConfigEnv {
    ConfigEnv {
        bind_addr: None,
        database_url: None,
        log_dir: None,
        log_level: None,
        preview_cache_enabled: None,
        preview_cache_dir: None,
        preview_cache_ttl: None,
        preview_cache_ttl_hours: None,
        preview_cache_max_bytes: None,
        preview_cache_cleanup_interval_seconds: None,
        preview_cache_cleanup_interval: None,
        preview_cache_warmup_on_scan: None,
        preview_cache_warmup_concurrency: None,
        scan_max_concurrent_jobs: None,
        scan_checkpoint_every: None,
        scan_search_index_sync_every: None,
        scan_hash_parallelism: None,
        scan_hash_batch_size: None,
        scan_resume_enabled: None,
        scan_task_dispatch_interval_ms: None,
        scan_task_stale_seconds: None,
        scan_source_change_detect_enabled: None,
        scan_source_change_detect_interval_ms: None,
    }
}

fn home() -> Option<String> {
    Some("/home/alice".to_string())
}

#[test]
fn source_change_detect_should_be_opt_in_by_default() {
    assert!(!AppConfig::default().scan.source_change_detect_enabled);
    assert!(!ScanConfig::default().source_change_detect_enabled);
}

#[test]
fn generated_default_config_should_keep_source_change_detect_disabled() {
    // a missing default configuration file is written with DEFAULT_CONFIG_TEXT
    let path = "/tmp/xphoto-home/.xphoto/config.toml";
    assert_eq!(default_config_step(false, path, path), DefaultConfigStep::WriteDefault);
    let content = DEFAULT_CONFIG_TEXT;
    assert!(content.contains("source_change_detect_enabled = false"));
    let parsed: toml::Value = toml::from_str(content).expect("parse default config");
    let enabled = parsed
        .get("scan")
        .and_then(|s| s.get("source_change_detect_enabled"))
        .and_then(|v| v.as_bool());
    assert_eq!(enabled, Some(false));
}

#[test]
fn default_config_text_matches_default_settings() {
    let parsed: toml::Value = toml::from_str(DEFAULT_CONFIG_TEXT).expect("parse default config");
    let d = AppConfig::default_for_home(&home());
    assert_eq!(
        parsed["server"]["bind_addr"].as_str(),
        Some(d.server.bind_addr.as_str())
    );
    assert_eq!(parsed["database"]["url"].as_str(), Some(d.database.url.as_str()));
    assert_eq!(
        parsed["scan"]["checkpoint_every"].as_integer(),
        Some(d.scan.checkpoint_every as i64)
    );
}

#[test]
fn default_settings_of_the_original() {
    let c = AppConfig::default_for_home(&home());
    assert_eq!(c.root, "/home/alice/.xphoto");
    assert_eq!(c.server.bind_addr, "127.0.0.1:8080");
    assert_eq!(c.database.url, "sqlite://data/xphoto.db");
    assert_eq!(c.logging.dir, "logs");
    assert_eq!(c.logging.level, "info");
    assert!(c.preview_cache.enabled);
    assert_eq!(c.preview_cache.ttl, "7d");
    assert_eq!(c.preview_cache.ttl_hours, 168);
    assert_eq!(c.preview_cache.max_bytes, 8 * 1024 * 1024 * 1024);
    assert_eq!(c.preview_cache.cleanup_interval_seconds, 300);
    assert_eq!(c.scan.max_concurrent_jobs, 2);
    assert_eq!(c.scan.checkpoint_every, 50);
    assert_eq!(c.scan.task_stale_seconds, 120);
    assert_eq!(c.album_rules.date_delimiters, vec![".", "_", "-"]);
    assert!(!c.storage.allow_delete);
}

#[test]
fn size_values_with_units() {
    assert_eq!(parse_size_bytes("8GB"), Ok(8 * 1024 * 1024 * 1024));
    assert_eq!(parse_size_bytes(" 512k "), Ok(512 * 1024));
    assert_eq!(parse_size_bytes("1.5MB"), Ok(1_572_864));
    assert_eq!(parse_size_bytes("100"), Ok(100));
    assert_eq!(parse_size_bytes("0.5b"), Ok(1));
}

#[test]
fn size_errors_name_the_input() {
    assert_eq!(parse_size_bytes("   "), Err("empty size value".to_string()));
    assert_eq!(
        parse_size_bytes("GB"),
        Err("invalid size 'GB': missing number".to_string())
    );
    assert_eq!(
        parse_size_bytes("1.2.3MB"),
        Err("invalid size '1.2.3MB': invalid float literal".to_string())
    );
    assert_eq!(
        parse_size_bytes("12 XB"),
        Err("invalid size unit 'XB' in '12 XB', use B/KB/MB/GB/TB".to_string())
    );
}

#[test]
fn duration_values_with_units() {
    assert_eq!(parse_duration_seconds("7d"), Ok(604_800));
    assert_eq!(parse_duration_seconds("5m"), Ok(300));
    assert_eq!(parse_duration_seconds("1.5h"), Ok(5400));
    assert_eq!(parse_duration_seconds("42"), Ok(42));
    assert_eq!(parse_duration_seconds("2 Minutes"), Ok(120));
    assert_eq!(
        parse_duration_seconds("3 weeks"),
        Err("invalid duration unit 'weeks' in '3 weeks', use s/m/h/d".to_string())
    );
    assert_eq!(parse_duration_seconds(""), Err("empty duration value".to_string()));
}

#[test]
fn max_bytes_setting_accepts_numbers_and_text() {
    assert_eq!(size_setting_bytes(&SizeSetting::Bytes(77)), Ok(77));
    assert_eq!(
        size_setting_bytes(&SizeSetting::Text("2KB".to_string())),
        Ok(2048)
    );
    assert!(size_setting_bytes(&SizeSetting::Text("lots".to_string())).is_err());
}

#[test]
fn ttl_prefers_text_then_hours() {
    let mut p = PreviewCacheConfig::default();
    assert_eq!(p.ttl_seconds(), 604_800);
    p.ttl = "bogus".to_string();
    p.ttl_hours = 2;
    assert_eq!(p.ttl_seconds(), 7200);
    p.ttl_hours = u64::MAX;
    assert_eq!(p.ttl_seconds(), u64::MAX);
}

#[test]
fn cleanup_interval_is_at_least_one_second() {
    let mut p = PreviewCacheConfig::default();
    assert_eq!(p.cleanup_interval_seconds_effective(), 300);
    p.cleanup_interval = "0s".to_string();
    assert_eq!(p.cleanup_interval_seconds_effective(), 1);
    p.cleanup_interval = "nope".to_string();
    p.cleanup_interval_seconds = 45;
    assert_eq!(p.cleanup_interval_seconds_effective(), 45);
}

#[test]
fn env_overrides_ttl_hours_read_back() {
    let mut c = AppConfig::default_for_home(&home());
    let mut env = empty_env();
    env.preview_cache_ttl_hours = Some("3".to_string());
    env.preview_cache_cleanup_interval_seconds = Some("90".to_string());
    env.bind_addr = Some("0.0.0.0:9000".to_string());
    env.scan_resume_enabled = Some("false".to_string());
    env.scan_checkpoint_every = Some("not-a-number".to_string());
    apply_env_overrides(&mut c, &env);
    assert_eq!(c.preview_cache.ttl_hours, 3);
    assert_eq!(c.preview_cache.ttl, "3h");
    assert_eq!(c.preview_cache.ttl_seconds(), 10_800);
    assert_eq!(c.preview_cache.cleanup_interval, "90s");
    assert_eq!(c.preview_cache.cleanup_interval_seconds_effective(), 90);
    assert_eq!(c.server.bind_addr, "0.0.0.0:9000");
    assert!(!c.scan.resume_enabled);
    assert_eq!(c.scan.checkpoint_every, 50);
}

#[test]
fn env_ttl_text_only_when_valid() {
    let mut c = AppConfig::default_for_home(&home());
    let mut env = empty_env();
    env.preview_cache_ttl = Some("soon".to_string());
    env.preview_cache_max_bytes = Some("1MB".to_string());
    apply_env_overrides(&mut c, &env);
    assert_eq!(c.preview_cache.ttl, "7d");
    assert_eq!(c.preview_cache.max_bytes, 1_048_576);
    let mut env2 = empty_env();
    env2.preview_cache_ttl = Some("2h".to_string());
    apply_env_overrides(&mut c, &env2);
    assert_eq!(c.preview_cache.ttl, "2h");
}

#[test]
fn roots_resolve_against_home() {
    assert_eq!(default_root_dir_for(&home()), "/home/alice/.xphoto");
    assert_eq!(default_root_dir_for(&None), ".xphoto");
    assert_eq!(resolve_root_dir("~/photos", &home()), "/home/alice/photos");
    assert_eq!(resolve_root_dir("/srv/x", &home()), "/srv/x");
    assert_eq!(resolve_root_dir("lib", &home()), "/home/alice/.xphoto/lib");
}

#[test]
fn config_path_from_flag_env_or_default() {
    let args = vec![
        "svc".to_string(),
        "--config".to_string(),
        "~/c.toml".to_string(),
    ];
    assert_eq!(
        resolve_config_path(&args, &Some("/etc/x.toml".to_string()), &home()),
        "/home/alice/c.toml"
    );
    let none: Vec<String> = vec!["svc".to_string()];
    assert_eq!(
        resolve_config_path(&none, &Some("/etc/x.toml".to_string()), &home()),
        "/etc/x.toml"
    );
    assert_eq!(
        resolve_config_path(&none, &None, &home()),
        "/home/alice/.xphoto/config.toml"
    );
}

#[test]
fn missing_config_is_created_only_at_default() {
    assert_eq!(
        default_config_step(true, "/a/c.toml", "/b/c.toml"),
        DefaultConfigStep::UseExisting
    );
    assert_eq!(
        default_config_step(false, "/b/c.toml", "/b/c.toml"),
        DefaultConfigStep::WriteDefault
    );
    match default_config_step(false, "/a/c.toml", "/b/c.toml") {
        DefaultConfigStep::Missing(m) => assert!(m.starts_with("Config file not found at /a/c.toml.")),
        other => panic!("unexpected {:?}", other),
    }
}

#[test]
fn loaded_paths_are_rooted() {
    let c = AppConfig::default_for_home(&home());
    let r = resolve_loaded_config(c, "/home/alice/.xphoto/config.toml".to_string(), &home());
    assert_eq!(r.loaded.root, "/home/alice/.xphoto");
    assert_eq!(r.loaded.config.database.url, "sqlite:///home/alice/.xphoto/data/xphoto.db");
    assert_eq!(
        r.database_file,
        Some("/home/alice/.xphoto/data/xphoto.db".to_string())
    );
    assert_eq!(r.loaded.config.logging.dir, "/home/alice/.xphoto/logs");
    assert_eq!(r.loaded.config.preview_cache.dir, "/home/alice/.xphoto/cache/previews");
    assert_eq!(r.loaded.path, "/home/alice/.xphoto/config.toml");
}
