//! Service configuration: the settings, their defaults, environment
//! overrides and the resolution of relative paths against the root.

use vstd::prelude::*;
use crate::paths::{
    expand_home, expand_user_home_path, is_relative_path, join, join_path, opt_view,
    path_is_relative, paths_equal, same_path, starts_with_slash, strip_tilde_prefix, tilde_rest,
};
use crate::quantity::{Quantity, lemma_whole_duration, outcome_matches, parse_quantity, quantity_outcome};
use crate::text::{
    append_str, chars_of, decimal_string, decimal_text, parse_bool_spec, parse_bool_str,
    parse_i64_spec, parse_i64_str, parse_u64_spec, parse_u64_str, parse_usize_spec,
    parse_usize_str, push_char, same_text, string_from_range, string_of,
};

verus! {

#[derive(Debug, Clone)]
pub struct AppConfig {
    pub root: String,
    pub server: ServerConfig,
    pub database: DatabaseConfig,
    pub logging: LoggingConfig,
    pub preview_cache: PreviewCacheConfig,
    pub storage: StorageConfig,
    pub scan: ScanConfig,
    pub album_rules: AlbumRulesConfig,
}

#[derive(Debug, Clone)]
pub struct ServerConfig {
    pub bind_addr: String,
}

#[derive(Debug, Clone)]
pub struct DatabaseConfig {
    pub url: String,
}

#[derive(Debug, Clone)]
pub struct LoggingConfig {
    pub dir: String,
    pub level: String,
}

#[derive(Debug, Clone)]
pub struct PreviewCacheConfig {
    pub enabled: bool,
    pub dir: String,
    pub ttl: String,
    pub ttl_hours: u64,
    pub max_bytes: u64,
    pub cleanup_interval: String,
    pub cleanup_interval_seconds: u64,
    pub warmup_on_scan: bool,
    pub warmup_concurrency: usize,
}

#[derive(Debug, Clone)]
pub struct StorageConfig {
    pub allow_delete: bool,
}

#[derive(Debug, Clone)]
pub struct ScanConfig {
    pub max_concurrent_jobs: usize,
    pub checkpoint_every: usize,
    pub search_index_sync_every: usize,
    pub hash_parallelism: usize,
    pub hash_batch_size: usize,
    pub resume_enabled: bool,
    pub task_dispatch_interval_ms: u64,
    pub task_stale_seconds: i64,
    pub source_change_detect_enabled: bool,
    pub source_change_detect_interval_ms: u64,
}

#[derive(Debug, Clone)]
pub struct AlbumRulesConfig {
    pub enabled: bool,
    pub date_delimiters: Vec<String>,
    pub regex_patterns: Vec<AlbumRegexRuleConfig>,
}

#[derive(Debug, Clone)]
pub struct AlbumRegexRuleConfig {
    pub key: String,
    pub regex: String,
    pub date_capture: String,
    pub name_capture: String,
    pub date_input_format: String,
}

/// A configuration once its file is read and its paths are resolved.
#[derive(Debug, Clone)]
pub struct LoadedConfig {
    pub path: String,
    pub root: String,
    pub config: AppConfig,
}

// ---------------------------------------------------------------------------
// Quantities
// ---------------------------------------------------------------------------

/// Reads a size such as `8GB` or `512k` as a number of bytes.
pub fn parse_size_bytes(raw: &str) -> (r: Result<u64, String>)
    ensures
        outcome_matches(r, quantity_outcome(Quantity::Size, raw@)),
{
    parse_quantity(Quantity::Size, raw)
}

/// Reads a duration such as `7d`, `5m` or `1.5h` as a number of seconds.
pub fn parse_duration_seconds(raw: &str) -> (r: Result<u64, String>)
    ensures
        outcome_matches(r, quantity_outcome(Quantity::Duration, raw@)),
{
    parse_quantity(Quantity::Duration, raw)
}

/// `max_bytes` as a configuration file may write it: a number of bytes,
/// or a size in text such as `8GB`.
#[derive(Debug, Clone)]
pub enum SizeSetting {
    Bytes(u64),
    Text(String),
}

/// The number of bytes a `max_bytes` setting stands for.
pub fn size_setting_bytes(setting: &SizeSetting) -> (r: Result<u64, String>)
    ensures
        match setting {
            SizeSetting::Bytes(v) => r == Ok::<u64, String>(*v),
            SizeSetting::Text(t) => outcome_matches(r, quantity_outcome(Quantity::Size, t@)),
        },
{
    match setting {
        SizeSetting::Bytes(v) => Ok(*v),
        SizeSetting::Text(t) => parse_size_bytes(t.as_str()),
    }
}

pub open spec fn duration_or(raw: Seq<char>, fallback: int) -> int {
    match quantity_outcome(Quantity::Duration, raw) {
        Ok(n) => n,
        Err(_) => fallback,
    }
}

pub open spec fn saturating_hours(h: u64) -> int {
    if h * 3600 > u64::MAX {
        u64::MAX as int
    } else {
        h * 3600
    }
}

impl PreviewCacheConfig {
    /// The time to live of a preview: `ttl` when it reads as a duration,
    /// otherwise `ttl_hours` hours (saturated).
    pub fn ttl_seconds(&self) -> (r: u64)
        ensures
            r == duration_or(self.ttl@, saturating_hours(self.ttl_hours)),
    {
        match parse_duration_seconds(self.ttl.as_str()) {
            Ok(n) => n,
            Err(_) => match self.ttl_hours.checked_mul(3600) {
                Some(s) => s,
                None => u64::MAX,
            },
        }
    }

    /// The cleanup interval: `cleanup_interval` when it reads as a
    /// duration, otherwise `cleanup_interval_seconds`; at least one second.
    pub fn cleanup_interval_seconds_effective(&self) -> (r: u64)
        ensures
            r == if duration_or(self.cleanup_interval@, self.cleanup_interval_seconds as int) < 1 {
                1
            } else {
                duration_or(self.cleanup_interval@, self.cleanup_interval_seconds as int)
            },
    {
        let secs = match parse_duration_seconds(self.cleanup_interval.as_str()) {
            Ok(n) => n,
            Err(_) => self.cleanup_interval_seconds,
        };
        if secs < 1 {
            1
        } else {
            secs
        }
    }
}

// ---------------------------------------------------------------------------
// Defaults
// ---------------------------------------------------------------------------

pub open spec fn default_server(s: ServerConfig) -> bool {
    s.bind_addr@ == "127.0.0.1:8080"@
}

pub open spec fn default_logging(l: LoggingConfig) -> bool {
    l.dir@ == "logs"@ && l.level@ == "info"@
}

pub open spec fn default_preview_cache(p: PreviewCacheConfig) -> bool {
    &&& p.enabled
    &&& p.dir@ == "cache/previews"@
    &&& p.ttl@ == "7d"@
    &&& p.ttl_hours == 168
    &&& p.max_bytes == 8 * 1024 * 1024 * 1024
    &&& p.cleanup_interval@ == "5m"@
    &&& p.cleanup_interval_seconds == 300
    &&& !p.warmup_on_scan
    &&& p.warmup_concurrency == 2
}

pub open spec fn default_scan(s: ScanConfig) -> bool {
    &&& s.max_concurrent_jobs == 2
    &&& s.checkpoint_every == 50
    &&& s.search_index_sync_every == 100
    &&& s.hash_parallelism == 0
    &&& s.hash_batch_size == 32
    &&& s.resume_enabled
    &&& s.task_dispatch_interval_ms == 2000
    &&& s.task_stale_seconds == 120
    &&& !s.source_change_detect_enabled
    &&& s.source_change_detect_interval_ms == 30000
}

pub open spec fn default_album_rules(a: AlbumRulesConfig) -> bool {
    &&& a.enabled
    &&& a.date_delimiters@.len() == 3
    &&& a.date_delimiters@[0]@ == "."@
    &&& a.date_delimiters@[1]@ == "_"@
    &&& a.date_delimiters@[2]@ == "-"@
    &&& a.regex_patterns@.len() == 0
}

/// The root directory when none is configured: `.xphoto` in the home
/// directory, or relative to the working directory without one.
pub open spec fn default_root_text(home: Option<Seq<char>>) -> Seq<char> {
    match home {
        Some(h) => join_path(h, ".xphoto"@),
        None => ".xphoto"@,
    }
}

/// The root directory a configured root resolves to.
pub open spec fn resolve_root_text(raw: Seq<char>, home: Option<Seq<char>>) -> Seq<char> {
    match tilde_rest(raw) {
        Some(rest) => match home {
            Some(h) => join_path(h, rest),
            None => rest,
        },
        None => if is_relative_path(raw) {
            join_path(default_root_text(home), raw)
        } else {
            raw
        },
    }
}

/// `dirs::home_dir`: the current user's home directory, as text. It
/// depends on the environment and the user database, so nothing is
/// promised of what it returns.
#[verifier::external_body]
fn home_dir_text() -> Option<String> {
    match dirs::home_dir() {
        Some(p) => Some(p.to_string_lossy().into_owned()),
        None => None,
    }
}

/// The home directory of the current user, if one is known.
pub fn detect_home_dir() -> Option<String> {
    home_dir_text()
}

/// The default root for a given home directory.
pub fn default_root_dir_for(home: &Option<String>) -> (r: String)
    ensures
        r@ == default_root_text(opt_view(*home)),
{
    match home {
        Some(h) => join(h.as_str(), ".xphoto"),
        None => string_of(".xphoto"),
    }
}

/// The default root of the current user.
pub fn default_root_dir() -> (r: String)
    ensures
        exists|h: Option<Seq<char>>| r@ == default_root_text(h),
{
    let home = detect_home_dir();
    default_root_dir_for(&home)
}

/// The directory a configured root names, for a given home directory.
pub fn resolve_root_dir(raw_root: &str, home: &Option<String>) -> (r: String)
    ensures
        r@ == resolve_root_text(raw_root@, opt_view(*home)),
{
    match strip_tilde_prefix(raw_root) {
        Some(rest) => match home {
            Some(h) => join(h.as_str(), rest.as_str()),
            None => rest,
        },
        None => {
            if path_is_relative(raw_root) {
                let base = default_root_dir_for(home);
                join(base.as_str(), raw_root)
            } else {
                string_of(raw_root)
            }
        },
    }
}

impl Default for ServerConfig {
    fn default() -> (r: Self)
        ensures
            default_server(r),
    {
        ServerConfig { bind_addr: string_of("127.0.0.1:8080") }
    }
}

impl Default for DatabaseConfig {
    fn default() -> (r: Self)
        ensures
            r.url@ == "sqlite://xphoto.db"@,
    {
        DatabaseConfig { url: string_of("sqlite://xphoto.db") }
    }
}

impl Default for LoggingConfig {
    fn default() -> (r: Self)
        ensures
            default_logging(r),
    {
        LoggingConfig { dir: string_of("logs"), level: string_of("info") }
    }
}

impl Default for PreviewCacheConfig {
    fn default() -> (r: Self)
        ensures
            default_preview_cache(r),
    {
        PreviewCacheConfig {
            enabled: true,
            dir: string_of("cache/previews"),
            ttl: string_of("7d"),
            ttl_hours: 168,
            max_bytes: 8 * 1024 * 1024 * 1024,
            cleanup_interval: string_of("5m"),
            cleanup_interval_seconds: 300,
            warmup_on_scan: false,
            warmup_concurrency: 2,
        }
    }
}

impl Default for StorageConfig {
    fn default() -> (r: Self)
        ensures
            !r.allow_delete,
    {
        StorageConfig { allow_delete: false }
    }
}

impl Default for ScanConfig {
    fn default() -> (r: Self)
        ensures
            default_scan(r),
    {
        ScanConfig {
            max_concurrent_jobs: 2,
            checkpoint_every: 50,
            search_index_sync_every: 100,
            hash_parallelism: 0,
            hash_batch_size: 32,
            resume_enabled: true,
            task_dispatch_interval_ms: 2000,
            task_stale_seconds: 120,
            source_change_detect_enabled: false,
            source_change_detect_interval_ms: 30000,
        }
    }
}

impl Default for AlbumRulesConfig {
    fn default() -> (r: Self)
        ensures
            default_album_rules(r),
    {
        let mut d: Vec<String> = Vec::new();
        d.push(string_of("."));
        d.push(string_of("_"));
        d.push(string_of("-"));
        AlbumRulesConfig { enabled: true, date_delimiters: d, regex_patterns: Vec::new() }
    }
}

impl Default for AlbumRegexRuleConfig {
    fn default() -> (r: Self)
        ensures
            r.key@ == "custom_regex"@,
            r.regex@ == ""@,
            r.date_capture@ == "date"@,
            r.name_capture@ == "name"@,
            r.date_input_format@ == "%Y.%m.%d"@,
    {
        AlbumRegexRuleConfig {
            key: string_of("custom_regex"),
            regex: string_of(""),
            date_capture: string_of("date"),
            name_capture: string_of("name"),
            date_input_format: string_of("%Y.%m.%d"),
        }
    }
}

/// Every setting of the default configuration but the root.
pub open spec fn default_settings(c: AppConfig) -> bool {
    &&& default_server(c.server)
    &&& c.database.url@ == "sqlite://data/xphoto.db"@
    &&& default_logging(c.logging)
    &&& default_preview_cache(c.preview_cache)
    &&& !c.storage.allow_delete
    &&& default_scan(c.scan)
    &&& default_album_rules(c.album_rules)
}

impl AppConfig {
    /// The default configuration for a given home directory.
    pub fn default_for_home(home: &Option<String>) -> (r: Self)
        ensures
            r.root@ == default_root_text(opt_view(*home)),
            default_settings(r),
    {
        AppConfig {
            root: default_root_dir_for(home),
            server: ServerConfig::default(),
            database: DatabaseConfig { url: string_of("sqlite://data/xphoto.db") },
            logging: LoggingConfig::default(),
            preview_cache: PreviewCacheConfig::default(),
            storage: StorageConfig::default(),
            scan: ScanConfig::default(),
            album_rules: AlbumRulesConfig::default(),
        }
    }
}

impl Default for AppConfig {
    fn default() -> (r: Self)
        ensures
            exists|h: Option<Seq<char>>| r.root@ == default_root_text(h),
            default_settings(r),
    {
        let home = detect_home_dir();
        AppConfig::default_for_home(&home)
    }
}

/// The configuration file written when none exists yet.
pub const DEFAULT_CONFIG_TEXT: &'static str = "root = \"~/.xphoto\"

[server]
bind_addr = \"127.0.0.1:8080\"

[database]
url = \"sqlite://data/xphoto.db\"

[logging]
dir = \"logs\"
level = \"info\"

[preview_cache]
enabled = true
dir = \"cache/previews\"
ttl = \"7d\"
ttl_hours = 168
max_bytes = \"8GB\"
cleanup_interval = \"5m\"
cleanup_interval_seconds = 300
warmup_on_scan = false
warmup_concurrency = 2

[storage]
allow_delete = false

[scan]
max_concurrent_jobs = 2
checkpoint_every = 50
search_index_sync_every = 100
hash_parallelism = 0
hash_batch_size = 32
resume_enabled = true
task_dispatch_interval_ms = 2000
task_stale_seconds = 120
source_change_detect_enabled = false
source_change_detect_interval_ms = 30000

[album_rules]
enabled = true
date_delimiters = [\".\", \"_\", \"-\"]
";

// ---------------------------------------------------------------------------
// Locating the configuration file
// ---------------------------------------------------------------------------

/// The first `i` with `args[i] == "--config"` that has a value after it.
pub open spec fn config_flag_index(args: Seq<String>, i: int) -> int
    decreases args.len() - i,
{
    if i < 0 || i + 1 >= args.len() {
        -1
    } else if args[i]@ == "--config"@ {
        i
    } else {
        config_flag_index(args, i + 1)
    }
}

/// Where the configuration file is: the value of `--config` on the command
/// line, otherwise `CONFIG_PATH`, otherwise `config.toml` in the default
/// root; a leading `~` is expanded.
pub open spec fn config_path_text(
    args: Seq<String>,
    env_path: Option<Seq<char>>,
    home: Option<Seq<char>>,
) -> Seq<char> {
    let i = config_flag_index(args, 0);
    if i >= 0 {
        expand_home(args[i + 1]@, home)
    } else {
        match env_path {
            Some(p) => expand_home(p, home),
            None => join_path(default_root_text(home), "config.toml"@),
        }
    }
}

pub fn resolve_config_path(args: &Vec<String>, env_path: &Option<String>, home: &Option<String>) -> (r:
    String)
    ensures
        r@ == config_path_text(args@, opt_view(*env_path), opt_view(*home)),
{
    let mut i: usize = 0;
    while i < args.len()
        invariant
            config_flag_index(args@, 0) == config_flag_index(args@, i as int),
        decreases args.len() - i,
    {
        if i + 1 < args.len() && same_text(args[i].as_str(), "--config") {
            return expand_user_home_path(args[i + 1].as_str(), home);
        }
        i += 1;
    }
    match env_path {
        Some(p) => expand_user_home_path(p.as_str(), home),
        None => {
            let base = default_root_dir_for(home);
            join(base.as_str(), "config.toml")
        },
    }
}

/// What to do about the configuration file before reading it.
#[derive(Debug, Clone, PartialEq, Eq)]
pub enum DefaultConfigStep {
    /// The file exists: read it.
    UseExisting,
    /// The default file is missing: write `DEFAULT_CONFIG_TEXT` there.
    WriteDefault,
    /// A file named elsewhere is missing: fail with this message.
    Missing(String),
}

pub open spec fn missing_config_message(path: Seq<char>, default_path: Seq<char>) -> Seq<char> {
    "Config file not found at "@ + path
        + ". Use --config with an existing file, or start once without --config to initialize default config at "@
        + default_path
}

/// A missing file is created only where it is the default file.
pub fn default_config_step(exists: bool, path: &str, default_path: &str) -> (r: DefaultConfigStep)
    ensures
        exists ==> r == DefaultConfigStep::UseExisting,
        !exists && same_path(path@, default_path@) ==> r == DefaultConfigStep::WriteDefault,
        !exists && !same_path(path@, default_path@) ==> (r matches DefaultConfigStep::Missing(m)
            && m@ == missing_config_message(path@, default_path@)),
{
    if exists {
        return DefaultConfigStep::UseExisting;
    }
    if paths_equal(path, default_path) {
        return DefaultConfigStep::WriteDefault;
    }
    let mut m = string_of("Config file not found at ");
    append_str(&mut m, path);
    append_str(
        &mut m,
        ". Use --config with an existing file, or start once without --config to initialize default config at ",
    );
    append_str(&mut m, default_path);
    DefaultConfigStep::Missing(m)
}

// ---------------------------------------------------------------------------
// Environment overrides
// ---------------------------------------------------------------------------

/// The environment variables that override settings, as read (a variable
/// that is unset or not Unicode is `None`).
#[derive(Debug, Clone)]
pub struct ConfigEnv {
    pub bind_addr: Option<String>,
    pub database_url: Option<String>,
    pub log_dir: Option<String>,
    pub log_level: Option<String>,
    pub preview_cache_enabled: Option<String>,
    pub preview_cache_dir: Option<String>,
    pub preview_cache_ttl: Option<String>,
    pub preview_cache_ttl_hours: Option<String>,
    pub preview_cache_max_bytes: Option<String>,
    pub preview_cache_cleanup_interval_seconds: Option<String>,
    pub preview_cache_cleanup_interval: Option<String>,
    pub preview_cache_warmup_on_scan: Option<String>,
    pub preview_cache_warmup_concurrency: Option<String>,
    pub scan_max_concurrent_jobs: Option<String>,
    pub scan_checkpoint_every: Option<String>,
    pub scan_search_index_sync_every: Option<String>,
    pub scan_hash_parallelism: Option<String>,
    pub scan_hash_batch_size: Option<String>,
    pub scan_resume_enabled: Option<String>,
    pub scan_task_dispatch_interval_ms: Option<String>,
    pub scan_task_stale_seconds: Option<String>,
    pub scan_source_change_detect_enabled: Option<String>,
    pub scan_source_change_detect_interval_ms: Option<String>,
}

pub open spec fn text_or(v: Option<String>, old: Seq<char>) -> Seq<char> {
    match v {
        Some(s) => s@,
        None => old,
    }
}

pub open spec fn bool_or(v: Option<String>, old: bool) -> bool {
    match v {
        Some(s) => match parse_bool_spec(s@) {
            Some(b) => b,
            None => old,
        },
        None => old,
    }
}

pub open spec fn u64_env(v: Option<String>) -> Option<int> {
    match v {
        Some(s) => parse_u64_spec(s@),
        None => None,
    }
}

pub open spec fn usize_or(v: Option<String>, old: int) -> int {
    match v {
        Some(s) => match parse_usize_spec(s@) {
            Some(n) => n,
            None => old,
        },
        None => old,
    }
}

pub open spec fn u64_or(v: Option<String>, old: int) -> int {
    match u64_env(v) {
        Some(n) => n,
        None => old,
    }
}

pub open spec fn i64_or(v: Option<String>, old: int) -> int {
    match v {
        Some(s) => match parse_i64_spec(s@) {
            Some(n) => n,
            None => old,
        },
        None => old,
    }
}

/// A duration text from the environment, kept only when it reads as one.
pub open spec fn duration_text_or(v: Option<String>, old: Seq<char>) -> Seq<char> {
    match v {
        Some(s) => if quantity_outcome(Quantity::Duration, s@) is Ok {
            s@
        } else {
            old
        },
        None => old,
    }
}

pub open spec fn size_or(v: Option<String>, old: int) -> int {
    match v {
        Some(s) => match quantity_outcome(Quantity::Size, s@) {
            Ok(n) => n,
            Err(_) => old,
        },
        None => old,
    }
}

/// The preview time to live text after the `_TTL` and `_TTL_HOURS`
/// variables: hours, when given, win and are written as `<n>h`.
pub open spec fn ttl_text_after(env: ConfigEnv, old: Seq<char>) -> Seq<char> {
    match u64_env(env.preview_cache_ttl_hours) {
        Some(n) => decimal_text(n as nat) + "h"@,
        None => duration_text_or(env.preview_cache_ttl, old),
    }
}

/// The cleanup interval text after `_CLEANUP_INTERVAL_SECONDS` (written as
/// `<n>s`) and then `_CLEANUP_INTERVAL`.
pub open spec fn cleanup_text_after(env: ConfigEnv, old: Seq<char>) -> Seq<char> {
    let after_seconds = match u64_env(env.preview_cache_cleanup_interval_seconds) {
        Some(n) => decimal_text(n as nat) + "s"@,
        None => old,
    };
    duration_text_or(env.preview_cache_cleanup_interval, after_seconds)
}

/// `new` is `old` with the environment overrides applied.
pub open spec fn env_applied(old: AppConfig, new: AppConfig, env: ConfigEnv) -> bool {
    &&& new.root == old.root
    &&& new.storage == old.storage
    &&& new.album_rules == old.album_rules
    &&& new.server.bind_addr@ == text_or(env.bind_addr, old.server.bind_addr@)
    &&& new.database.url@ == text_or(env.database_url, old.database.url@)
    &&& new.logging.dir@ == text_or(env.log_dir, old.logging.dir@)
    &&& new.logging.level@ == text_or(env.log_level, old.logging.level@)
    &&& new.preview_cache.enabled == bool_or(env.preview_cache_enabled, old.preview_cache.enabled)
    &&& new.preview_cache.dir@ == text_or(env.preview_cache_dir, old.preview_cache.dir@)
    &&& new.preview_cache.ttl@ == ttl_text_after(env, old.preview_cache.ttl@)
    &&& new.preview_cache.ttl_hours == u64_or(
        env.preview_cache_ttl_hours,
        old.preview_cache.ttl_hours as int,
    )
    &&& new.preview_cache.max_bytes == size_or(
        env.preview_cache_max_bytes,
        old.preview_cache.max_bytes as int,
    )
    &&& new.preview_cache.cleanup_interval_seconds == u64_or(
        env.preview_cache_cleanup_interval_seconds,
        old.preview_cache.cleanup_interval_seconds as int,
    )
    &&& new.preview_cache.cleanup_interval@ == cleanup_text_after(
        env,
        old.preview_cache.cleanup_interval@,
    )
    &&& new.preview_cache.warmup_on_scan == bool_or(
        env.preview_cache_warmup_on_scan,
        old.preview_cache.warmup_on_scan,
    )
    &&& new.preview_cache.warmup_concurrency == usize_or(
        env.preview_cache_warmup_concurrency,
        old.preview_cache.warmup_concurrency as int,
    )
    &&& new.scan.max_concurrent_jobs == usize_or(
        env.scan_max_concurrent_jobs,
        old.scan.max_concurrent_jobs as int,
    )
    &&& new.scan.checkpoint_every == usize_or(
        env.scan_checkpoint_every,
        old.scan.checkpoint_every as int,
    )
    &&& new.scan.search_index_sync_every == usize_or(
        env.scan_search_index_sync_every,
        old.scan.search_index_sync_every as int,
    )
    &&& new.scan.hash_parallelism == usize_or(
        env.scan_hash_parallelism,
        old.scan.hash_parallelism as int,
    )
    &&& new.scan.hash_batch_size == usize_or(
        env.scan_hash_batch_size,
        old.scan.hash_batch_size as int,
    )
    &&& new.scan.resume_enabled == bool_or(env.scan_resume_enabled, old.scan.resume_enabled)
    &&& new.scan.task_dispatch_interval_ms == u64_or(
        env.scan_task_dispatch_interval_ms,
        old.scan.task_dispatch_interval_ms as int,
    )
    &&& new.scan.task_stale_seconds == i64_or(
        env.scan_task_stale_seconds,
        old.scan.task_stale_seconds as int,
    )
    &&& new.scan.source_change_detect_enabled == bool_or(
        env.scan_source_change_detect_enabled,
        old.scan.source_change_detect_enabled,
    )
    &&& new.scan.source_change_detect_interval_ms == u64_or(
        env.scan_source_change_detect_interval_ms,
        old.scan.source_change_detect_interval_ms as int,
    )
}

fn env_text(v: &Option<String>, old: &String) -> (r: String)
    ensures
        r@ == text_or(*v, old@),
{
    match v {
        Some(s) => s.clone(),
        None => old.clone(),
    }
}

fn env_bool(v: &Option<String>, old: bool) -> (r: bool)
    ensures
        r == bool_or(*v, old),
{
    match v {
        Some(s) => match parse_bool_str(s.as_str()) {
            Some(b) => b,
            None => old,
        },
        None => old,
    }
}

fn env_u64(v: &Option<String>) -> (r: Option<u64>)
    ensures
        match r {
            Some(n) => u64_env(*v) == Some(n as int),
            None => u64_env(*v) is None,
        },
{
    match v {
        Some(s) => parse_u64_str(s.as_str()),
        None => None,
    }
}

fn env_usize(v: &Option<String>, old: usize) -> (r: usize)
    ensures
        r == usize_or(*v, old as int),
{
    match v {
        Some(s) => match parse_usize_str(s.as_str()) {
            Some(n) => n,
            None => old,
        },
        None => old,
    }
}

fn env_i64(v: &Option<String>, old: i64) -> (r: i64)
    ensures
        r == i64_or(*v, old as int),
{
    match v {
        Some(s) => match parse_i64_str(s.as_str()) {
            Some(n) => n,
            None => old,
        },
        None => old,
    }
}

fn env_duration_text(v: &Option<String>, old: String) -> (r: String)
    ensures
        r@ == duration_text_or(*v, old@),
{
    match v {
        Some(s) => match parse_duration_seconds(s.as_str()) {
            Ok(_) => s.clone(),
            Err(_) => old,
        },
        None => old,
    }
}

fn number_with_unit(n: u64, unit: char) -> (r: String)
    ensures
        r@ == decimal_text(n as nat).push(unit),
{
    let mut t = decimal_string(n);
    push_char(&mut t, unit);
    t
}

/// An hours override reads back: once `PREVIEW_CACHE_TTL_HOURS` holds a
/// number `n`, the time to live is `n` hours (saturated at `u64::MAX`
/// seconds), whatever `ttl` said before.
pub proof fn law_ttl_hours_override_reads_back(old: AppConfig, new: AppConfig, env: ConfigEnv)
    requires
        env_applied(old, new, env),
        u64_env(env.preview_cache_ttl_hours) is Some,
    ensures
        duration_or(new.preview_cache.ttl@, saturating_hours(new.preview_cache.ttl_hours))
            == saturating_hours(new.preview_cache.ttl_hours),
        new.preview_cache.ttl_hours as int == u64_env(env.preview_cache_ttl_hours)->0,
{
    let n = u64_env(env.preview_cache_ttl_hours)->0;
    assert(n >= 0) by {
        assert(crate::text::parse_u64_spec(env.preview_cache_ttl_hours->0@) == Some(n));
    }
    lemma_whole_duration(n as nat, 'h', 3600);
    assert(decimal_text(n as nat) + "h"@ == decimal_text(n as nat).push('h')) by {
        reveal_strlit("h");
        assert(decimal_text(n as nat) + "h"@ =~= decimal_text(n as nat).push('h'));
    }
}

/// A seconds override of the cleanup interval reads back: once
/// `PREVIEW_CACHE_CLEANUP_INTERVAL_SECONDS` holds a number `n` (and no
/// `PREVIEW_CACHE_CLEANUP_INTERVAL` replaces it), cleanup runs every `n`
/// seconds.
pub proof fn law_cleanup_seconds_override_reads_back(old: AppConfig, new: AppConfig, env: ConfigEnv)
    requires
        env_applied(old, new, env),
        u64_env(env.preview_cache_cleanup_interval_seconds) is Some,
        env.preview_cache_cleanup_interval is None,
    ensures
        duration_or(new.preview_cache.cleanup_interval@, new.preview_cache.cleanup_interval_seconds as int)
            == new.preview_cache.cleanup_interval_seconds,
        new.preview_cache.cleanup_interval_seconds as int == u64_env(
            env.preview_cache_cleanup_interval_seconds,
        )->0,
{
    let n = u64_env(env.preview_cache_cleanup_interval_seconds)->0;
    assert(0 <= n <= u64::MAX) by {
        assert(crate::text::parse_u64_spec(env.preview_cache_cleanup_interval_seconds->0@) == Some(n));
    }
    lemma_whole_duration(n as nat, 's', 1);
    assert(decimal_text(n as nat) + "s"@ == decimal_text(n as nat).push('s')) by {
        reveal_strlit("s");
        assert(decimal_text(n as nat) + "s"@ =~= decimal_text(n as nat).push('s'));
    }
}

/// Each environment variable that is set replaces the setting it names:
/// a text variable by its text, a switch by `true` or `false`, a number by
/// the number it reads as. A variable that is unset leaves its setting as
/// it was, and the root is never changed by the environment.
pub proof fn law_env_overrides_replace_settings(old: AppConfig, new: AppConfig, env: ConfigEnv)
    requires
        env_applied(old, new, env),
    ensures
        (env.bind_addr matches Some(v) ==> new.server.bind_addr@ == v@),
        (env.bind_addr is None ==> new.server.bind_addr@ == old.server.bind_addr@),
        (env.database_url matches Some(v) ==> new.database.url@ == v@),
        (env.database_url is None ==> new.database.url@ == old.database.url@),
        (env.log_dir matches Some(v) ==> new.logging.dir@ == v@),
        (env.log_dir is None ==> new.logging.dir@ == old.logging.dir@),
        (env.log_level matches Some(v) ==> new.logging.level@ == v@),
        (env.log_level is None ==> new.logging.level@ == old.logging.level@),
        (env.preview_cache_dir matches Some(v) ==> new.preview_cache.dir@ == v@),
        (env.preview_cache_dir is None ==> new.preview_cache.dir@ == old.preview_cache.dir@),
        (env.preview_cache_enabled matches Some(v) && v@ == "true"@ ==> new.preview_cache.enabled),
        (env.preview_cache_enabled matches Some(v) && v@ == "false"@ ==> !new.preview_cache.enabled),
        (env.preview_cache_enabled is None ==> new.preview_cache.enabled == old.preview_cache.enabled),
        (env.preview_cache_warmup_on_scan matches Some(v) && v@ == "true"@ ==> new.preview_cache.warmup_on_scan),
        (env.preview_cache_warmup_on_scan matches Some(v) && v@ == "false"@ ==> !new.preview_cache.warmup_on_scan),
        (env.preview_cache_warmup_on_scan is None ==> new.preview_cache.warmup_on_scan == old.preview_cache.warmup_on_scan),
        (env.scan_resume_enabled matches Some(v) && v@ == "true"@ ==> new.scan.resume_enabled),
        (env.scan_resume_enabled matches Some(v) && v@ == "false"@ ==> !new.scan.resume_enabled),
        (env.scan_resume_enabled is None ==> new.scan.resume_enabled == old.scan.resume_enabled),
        (env.scan_source_change_detect_enabled matches Some(v) && v@ == "true"@ ==> new.scan.source_change_detect_enabled),
        (env.scan_source_change_detect_enabled matches Some(v) && v@ == "false"@ ==> !new.scan.source_change_detect_enabled),
        (env.scan_source_change_detect_enabled is None ==> new.scan.source_change_detect_enabled == old.scan.source_change_detect_enabled),
        (env.preview_cache_warmup_concurrency matches Some(v) ==> (parse_usize_spec(v@) is Some ==> new.preview_cache.warmup_concurrency as int
            == parse_usize_spec(v@)->0)),
        (env.preview_cache_warmup_concurrency is None ==> new.preview_cache.warmup_concurrency == old.preview_cache.warmup_concurrency),
        (env.scan_max_concurrent_jobs matches Some(v) ==> (parse_usize_spec(v@) is Some ==> new.scan.max_concurrent_jobs as int
            == parse_usize_spec(v@)->0)),
        (env.scan_max_concurrent_jobs is None ==> new.scan.max_concurrent_jobs == old.scan.max_concurrent_jobs),
        (env.scan_checkpoint_every matches Some(v) ==> (parse_usize_spec(v@) is Some ==> new.scan.checkpoint_every as int
            == parse_usize_spec(v@)->0)),
        (env.scan_checkpoint_every is None ==> new.scan.checkpoint_every == old.scan.checkpoint_every),
        (env.scan_search_index_sync_every matches Some(v) ==> (parse_usize_spec(v@) is Some ==> new.scan.search_index_sync_every as int
            == parse_usize_spec(v@)->0)),
        (env.scan_search_index_sync_every is None ==> new.scan.search_index_sync_every == old.scan.search_index_sync_every),
        (env.scan_hash_parallelism matches Some(v) ==> (parse_usize_spec(v@) is Some ==> new.scan.hash_parallelism as int
            == parse_usize_spec(v@)->0)),
        (env.scan_hash_parallelism is None ==> new.scan.hash_parallelism == old.scan.hash_parallelism),
        (env.scan_hash_batch_size matches Some(v) ==> (parse_usize_spec(v@) is Some ==> new.scan.hash_batch_size as int
            == parse_usize_spec(v@)->0)),
        (env.scan_hash_batch_size is None ==> new.scan.hash_batch_size == old.scan.hash_batch_size),
        (env.preview_cache_ttl_hours matches Some(v) ==> (parse_u64_spec(v@) is Some ==> new.preview_cache.ttl_hours as int
            == parse_u64_spec(v@)->0)),
        (env.preview_cache_ttl_hours is None ==> new.preview_cache.ttl_hours == old.preview_cache.ttl_hours),
        (env.preview_cache_cleanup_interval_seconds matches Some(v) ==> (parse_u64_spec(v@) is Some ==> new.preview_cache.cleanup_interval_seconds as int
            == parse_u64_spec(v@)->0)),
        (env.preview_cache_cleanup_interval_seconds is None ==> new.preview_cache.cleanup_interval_seconds == old.preview_cache.cleanup_interval_seconds),
        (env.scan_task_dispatch_interval_ms matches Some(v) ==> (parse_u64_spec(v@) is Some ==> new.scan.task_dispatch_interval_ms as int
            == parse_u64_spec(v@)->0)),
        (env.scan_task_dispatch_interval_ms is None ==> new.scan.task_dispatch_interval_ms == old.scan.task_dispatch_interval_ms),
        (env.scan_source_change_detect_interval_ms matches Some(v) ==> (parse_u64_spec(v@) is Some ==> new.scan.source_change_detect_interval_ms as int
            == parse_u64_spec(v@)->0)),
        (env.scan_source_change_detect_interval_ms is None ==> new.scan.source_change_detect_interval_ms == old.scan.source_change_detect_interval_ms),
        (env.scan_task_stale_seconds matches Some(v) ==> (parse_i64_spec(v@) is Some ==> new.scan.task_stale_seconds as int
            == parse_i64_spec(v@)->0)),
        (env.scan_task_stale_seconds is None ==> new.scan.task_stale_seconds == old.scan.task_stale_seconds),
        (env.preview_cache_max_bytes matches Some(v) ==> (quantity_outcome(Quantity::Size, v@) is Ok
            ==> new.preview_cache.max_bytes as int == quantity_outcome(Quantity::Size, v@)->Ok_0)),
        (env.preview_cache_max_bytes is None ==> new.preview_cache.max_bytes == old.preview_cache.max_bytes),
        new.root@ == old.root@,
{
    reveal_strlit("true");
    reveal_strlit("false");
    assert("true"@ =~= seq!['t', 'r', 'u', 'e']);
    assert("false"@ =~= seq!['f', 'a', 'l', 's', 'e']);
}

/// Sets each overridden setting in place.
fn override_settings(config: &mut AppConfig, env: &ConfigEnv)
    ensures
        env_applied(*old(config), *final(config), *env),
{
    config.server.bind_addr = env_text(&env.bind_addr, &config.server.bind_addr);
    config.database.url = env_text(&env.database_url, &config.database.url);
    config.logging.dir = env_text(&env.log_dir, &config.logging.dir);
    config.logging.level = env_text(&env.log_level, &config.logging.level);
    config.preview_cache.enabled = env_bool(&env.preview_cache_enabled, config.preview_cache.enabled);
    config.preview_cache.dir = env_text(&env.preview_cache_dir, &config.preview_cache.dir);

    let ttl = env_duration_text(&env.preview_cache_ttl, config.preview_cache.ttl.clone());
    match env_u64(&env.preview_cache_ttl_hours) {
        Some(n) => {
            config.preview_cache.ttl_hours = n;
            config.preview_cache.ttl = number_with_unit(n, 'h');
            proof {
                assert(decimal_text(n as nat).push('h') =~= decimal_text(n as nat) + "h"@) by {
                    reveal_strlit("h");
                }
            }
        },
        None => {
            config.preview_cache.ttl = ttl;
        },
    }
    match &env.preview_cache_max_bytes {
        Some(v) => match parse_size_bytes(v.as_str()) {
            Ok(n) => {
                config.preview_cache.max_bytes = n;
            },
            Err(_) => {},
        },
        None => {},
    }
    match env_u64(&env.preview_cache_cleanup_interval_seconds) {
        Some(n) => {
            config.preview_cache.cleanup_interval_seconds = n;
            config.preview_cache.cleanup_interval = number_with_unit(n, 's');
            proof {
                assert(decimal_text(n as nat).push('s') =~= decimal_text(n as nat) + "s"@) by {
                    reveal_strlit("s");
                }
            }
        },
        None => {},
    }
    let cleanup = env_duration_text(
        &env.preview_cache_cleanup_interval,
        config.preview_cache.cleanup_interval.clone(),
    );
    config.preview_cache.cleanup_interval = cleanup;
    config.preview_cache.warmup_on_scan = env_bool(
        &env.preview_cache_warmup_on_scan,
        config.preview_cache.warmup_on_scan,
    );
    config.preview_cache.warmup_concurrency = env_usize(
        &env.preview_cache_warmup_concurrency,
        config.preview_cache.warmup_concurrency,
    );
    config.scan.max_concurrent_jobs = env_usize(
        &env.scan_max_concurrent_jobs,
        config.scan.max_concurrent_jobs,
    );
    config.scan.checkpoint_every = env_usize(&env.scan_checkpoint_every, config.scan.checkpoint_every);
    config.scan.search_index_sync_every = env_usize(
        &env.scan_search_index_sync_every,
        config.scan.search_index_sync_every,
    );
    config.scan.hash_parallelism = env_usize(&env.scan_hash_parallelism, config.scan.hash_parallelism);
    config.scan.hash_batch_size = env_usize(&env.scan_hash_batch_size, config.scan.hash_batch_size);
    config.scan.resume_enabled = env_bool(&env.scan_resume_enabled, config.scan.resume_enabled);
    match env_u64(&env.scan_task_dispatch_interval_ms) {
        Some(n) => {
            config.scan.task_dispatch_interval_ms = n;
        },
        None => {},
    }
    config.scan.task_stale_seconds = env_i64(
        &env.scan_task_stale_seconds,
        config.scan.task_stale_seconds,
    );
    config.scan.source_change_detect_enabled = env_bool(
        &env.scan_source_change_detect_enabled,
        config.scan.source_change_detect_enabled,
    );
    match env_u64(&env.scan_source_change_detect_interval_ms) {
        Some(n) => {
            config.scan.source_change_detect_interval_ms = n;
        },
        None => {},
    }
}

/// Applies the environment overrides to a configuration.
pub fn apply_env_overrides(config: &mut AppConfig, env: &ConfigEnv)
    ensures
        env_applied(*old(config), *final(config), *env),
        (env.bind_addr matches Some(v) ==> final(config).server.bind_addr@ == v@),
        (env.bind_addr is None ==> final(config).server.bind_addr@ == old(config).server.bind_addr@),
        (env.database_url matches Some(v) ==> final(config).database.url@ == v@),
        (env.database_url is None ==> final(config).database.url@ == old(config).database.url@),
        (env.log_dir matches Some(v) ==> final(config).logging.dir@ == v@),
        (env.log_dir is None ==> final(config).logging.dir@ == old(config).logging.dir@),
        (env.log_level matches Some(v) ==> final(config).logging.level@ == v@),
        (env.log_level is None ==> final(config).logging.level@ == old(config).logging.level@),
        (env.preview_cache_dir matches Some(v) ==> final(config).preview_cache.dir@ == v@),
        (env.preview_cache_dir is None ==> final(config).preview_cache.dir@ == old(config).preview_cache.dir@),
        (env.preview_cache_enabled matches Some(v) && v@ == "true"@ ==> final(config).preview_cache.enabled),
        (env.preview_cache_enabled matches Some(v) && v@ == "false"@ ==> !final(config).preview_cache.enabled),
        (env.preview_cache_enabled is None ==> final(config).preview_cache.enabled == old(config).preview_cache.enabled),
        (env.preview_cache_warmup_on_scan matches Some(v) && v@ == "true"@ ==> final(config).preview_cache.warmup_on_scan),
        (env.preview_cache_warmup_on_scan matches Some(v) && v@ == "false"@ ==> !final(config).preview_cache.warmup_on_scan),
        (env.preview_cache_warmup_on_scan is None ==> final(config).preview_cache.warmup_on_scan == old(config).preview_cache.warmup_on_scan),
        (env.scan_resume_enabled matches Some(v) && v@ == "true"@ ==> final(config).scan.resume_enabled),
        (env.scan_resume_enabled matches Some(v) && v@ == "false"@ ==> !final(config).scan.resume_enabled),
        (env.scan_resume_enabled is None ==> final(config).scan.resume_enabled == old(config).scan.resume_enabled),
        (env.scan_source_change_detect_enabled matches Some(v) && v@ == "true"@ ==> final(config).scan.source_change_detect_enabled),
        (env.scan_source_change_detect_enabled matches Some(v) && v@ == "false"@ ==> !final(config).scan.source_change_detect_enabled),
        (env.scan_source_change_detect_enabled is None ==> final(config).scan.source_change_detect_enabled == old(config).scan.source_change_detect_enabled),
        (env.preview_cache_warmup_concurrency matches Some(v) ==> (parse_usize_spec(v@) is Some ==> final(config).preview_cache.warmup_concurrency as int
            == parse_usize_spec(v@)->0)),
        (env.preview_cache_warmup_concurrency is None ==> final(config).preview_cache.warmup_concurrency == old(config).preview_cache.warmup_concurrency),
        (env.scan_max_concurrent_jobs matches Some(v) ==> (parse_usize_spec(v@) is Some ==> final(config).scan.max_concurrent_jobs as int
            == parse_usize_spec(v@)->0)),
        (env.scan_max_concurrent_jobs is None ==> final(config).scan.max_concurrent_jobs == old(config).scan.max_concurrent_jobs),
        (env.scan_checkpoint_every matches Some(v) ==> (parse_usize_spec(v@) is Some ==> final(config).scan.checkpoint_every as int
            == parse_usize_spec(v@)->0)),
        (env.scan_checkpoint_every is None ==> final(config).scan.checkpoint_every == old(config).scan.checkpoint_every),
        (env.scan_search_index_sync_every matches Some(v) ==> (parse_usize_spec(v@) is Some ==> final(config).scan.search_index_sync_every as int
            == parse_usize_spec(v@)->0)),
        (env.scan_search_index_sync_every is None ==> final(config).scan.search_index_sync_every == old(config).scan.search_index_sync_every),
        (env.scan_hash_parallelism matches Some(v) ==> (parse_usize_spec(v@) is Some ==> final(config).scan.hash_parallelism as int
            == parse_usize_spec(v@)->0)),
        (env.scan_hash_parallelism is None ==> final(config).scan.hash_parallelism == old(config).scan.hash_parallelism),
        (env.scan_hash_batch_size matches Some(v) ==> (parse_usize_spec(v@) is Some ==> final(config).scan.hash_batch_size as int
            == parse_usize_spec(v@)->0)),
        (env.scan_hash_batch_size is None ==> final(config).scan.hash_batch_size == old(config).scan.hash_batch_size),
        (env.preview_cache_ttl_hours matches Some(v) ==> (parse_u64_spec(v@) is Some ==> final(config).preview_cache.ttl_hours as int
            == parse_u64_spec(v@)->0)),
        (env.preview_cache_ttl_hours is None ==> final(config).preview_cache.ttl_hours == old(config).preview_cache.ttl_hours),
        (env.preview_cache_cleanup_interval_seconds matches Some(v) ==> (parse_u64_spec(v@) is Some ==> final(config).preview_cache.cleanup_interval_seconds as int
            == parse_u64_spec(v@)->0)),
        (env.preview_cache_cleanup_interval_seconds is None ==> final(config).preview_cache.cleanup_interval_seconds == old(config).preview_cache.cleanup_interval_seconds),
        (env.scan_task_dispatch_interval_ms matches Some(v) ==> (parse_u64_spec(v@) is Some ==> final(config).scan.task_dispatch_interval_ms as int
            == parse_u64_spec(v@)->0)),
        (env.scan_task_dispatch_interval_ms is None ==> final(config).scan.task_dispatch_interval_ms == old(config).scan.task_dispatch_interval_ms),
        (env.scan_source_change_detect_interval_ms matches Some(v) ==> (parse_u64_spec(v@) is Some ==> final(config).scan.source_change_detect_interval_ms as int
            == parse_u64_spec(v@)->0)),
        (env.scan_source_change_detect_interval_ms is None ==> final(config).scan.source_change_detect_interval_ms == old(config).scan.source_change_detect_interval_ms),
        (env.scan_task_stale_seconds matches Some(v) ==> (parse_i64_spec(v@) is Some ==> final(config).scan.task_stale_seconds as int
            == parse_i64_spec(v@)->0)),
        (env.scan_task_stale_seconds is None ==> final(config).scan.task_stale_seconds == old(config).scan.task_stale_seconds),
        (env.preview_cache_max_bytes matches Some(v) ==> (quantity_outcome(Quantity::Size, v@) is Ok
            ==> final(config).preview_cache.max_bytes as int == quantity_outcome(Quantity::Size, v@)->Ok_0)),
        (env.preview_cache_max_bytes is None ==> final(config).preview_cache.max_bytes == old(config).preview_cache.max_bytes),
        final(config).root@ == old(config).root@,
{
    let ghost before = *config;
    override_settings(config, env);
    proof {
        law_env_overrides_replace_settings(before, *config, *env);
    }
}

// ---------------------------------------------------------------------------
// Resolving paths
// ---------------------------------------------------------------------------

/// A loaded configuration and the database file whose directory has to
/// exist, if the database is a relative SQLite file.
#[derive(Debug, Clone)]
pub struct ResolvedConfig {
    pub loaded: LoadedConfig,
    pub database_file: Option<String>,
}

/// The file of a `sqlite://` URL that names a relative path.
pub open spec fn relative_sqlite_file(url: Seq<char>) -> Option<Seq<char>> {
    if url.len() >= 9 && url.subrange(0, 9) == "sqlite://"@ && !starts_with_slash(url.skip(9)) {
        Some(url.skip(9))
    } else {
        None
    }
}

pub open spec fn rooted(root: Seq<char>, p: Seq<char>) -> Seq<char> {
    if is_relative_path(p) {
        join_path(root, p)
    } else {
        p
    }
}

/// `r` is `c` with its root resolved, a relative SQLite file placed in the
/// root, and relative log and preview directories placed in the root.
pub open spec fn paths_resolved(c: AppConfig, config_path: Seq<char>, home: Option<Seq<char>>, r: ResolvedConfig) -> bool {
    let root = resolve_root_text(c.root@, home);
    let n = r.loaded.config;
    &&& r.loaded.path@ == config_path
    &&& r.loaded.root@ == root
    &&& n.root@ == root
    &&& match relative_sqlite_file(c.database.url@) {
        Some(f) => {
            &&& r.database_file matches Some(df)
            &&& df@ == join_path(root, f)
            &&& n.database.url@ == "sqlite://"@ + join_path(root, f)
        },
        None => r.database_file is None && n.database.url@ == c.database.url@,
    }
    &&& n.logging.dir@ == rooted(root, c.logging.dir@)
    &&& n.logging.level == c.logging.level
    &&& n.preview_cache.dir@ == rooted(root, c.preview_cache.dir@)
    &&& n.preview_cache.enabled == c.preview_cache.enabled
    &&& n.preview_cache.ttl == c.preview_cache.ttl
    &&& n.preview_cache.ttl_hours == c.preview_cache.ttl_hours
    &&& n.preview_cache.max_bytes == c.preview_cache.max_bytes
    &&& n.preview_cache.cleanup_interval == c.preview_cache.cleanup_interval
    &&& n.preview_cache.cleanup_interval_seconds == c.preview_cache.cleanup_interval_seconds
    &&& n.preview_cache.warmup_on_scan == c.preview_cache.warmup_on_scan
    &&& n.preview_cache.warmup_concurrency == c.preview_cache.warmup_concurrency
    &&& n.server == c.server
    &&& n.storage == c.storage
    &&& n.scan == c.scan
    &&& n.album_rules == c.album_rules
}

fn sqlite_relative_file(url: &str) -> (r: Option<String>)
    ensures
        opt_view(r) == relative_sqlite_file(url@),
{
    let v = chars_of(url);
    let prefix = chars_of("sqlite://");
    proof {
        reveal_strlit("sqlite://");
    }
    if v.len() < 9 {
        return None;
    }
    let mut i: usize = 0;
    while i < 9
        invariant
            v@ == url@,
            prefix@ == "sqlite://"@,
            prefix@.len() == 9,
            v.len() >= 9,
            i <= 9,
            forall|k: int| 0 <= k < i ==> v@[k] == prefix@[k],
        decreases 9 - i,
    {
        if v[i] != prefix[i] {
            proof {
                assert(v@.subrange(0, 9)[i as int] != "sqlite://"@[i as int]);
            }
            return None;
        }
        i += 1;
    }
    proof {
        assert(v@.subrange(0, 9) =~= "sqlite://"@);
    }
    if v.len() > 9 && v[9] == '/' {
        proof {
            assert(url@.skip(9)[0] == '/');
        }
        return None;
    }
    proof {
        assert(v@.subrange(9, v@.len() as int) =~= url@.skip(9));
    }
    Some(string_from_range(&v, 9, v.len()))
}

fn rooted_dir(root: &str, p: &String) -> (r: String)
    ensures
        r@ == rooted(root@, p@),
{
    if path_is_relative(p.as_str()) {
        join(root, p.as_str())
    } else {
        p.clone()
    }
}

/// Resolves the root of a configuration and the paths that are relative
/// to it.
pub fn resolve_loaded_config(config: AppConfig, config_path: String, home: &Option<String>) -> (r:
    ResolvedConfig)
    ensures
        paths_resolved(config, config_path@, opt_view(*home), r),
{
    let c = config;
    let root = resolve_root_dir(c.root.as_str(), home);
    let (url, database_file) = match sqlite_relative_file(c.database.url.as_str()) {
        Some(f) => {
            let db_path = join(root.as_str(), f.as_str());
            let mut u = string_of("sqlite://");
            append_str(&mut u, db_path.as_str());
            (u, Some(db_path))
        },
        None => (c.database.url.clone(), None),
    };
    let log_dir = rooted_dir(root.as_str(), &c.logging.dir);
    let preview_dir = rooted_dir(root.as_str(), &c.preview_cache.dir);
    let n = AppConfig {
        root: root.clone(),
        server: c.server,
        database: DatabaseConfig { url },
        logging: LoggingConfig { dir: log_dir, level: c.logging.level },
        preview_cache: PreviewCacheConfig {
            enabled: c.preview_cache.enabled,
            dir: preview_dir,
            ttl: c.preview_cache.ttl,
            ttl_hours: c.preview_cache.ttl_hours,
            max_bytes: c.preview_cache.max_bytes,
            cleanup_interval: c.preview_cache.cleanup_interval,
            cleanup_interval_seconds: c.preview_cache.cleanup_interval_seconds,
            warmup_on_scan: c.preview_cache.warmup_on_scan,
            warmup_concurrency: c.preview_cache.warmup_concurrency,
        },
        storage: c.storage,
        scan: c.scan,
        album_rules: c.album_rules,
    };
    ResolvedConfig { loaded: LoadedConfig { path: config_path, root, config: n }, database_file }
}

} // verus!
