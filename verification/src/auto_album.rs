//! Albums made from directory names during a scan: which rules apply,
//! which album a photo's directory names, and the per-scan album cache.

use vstd::prelude::*;
use crate::album_rules::{album_match, match_view, parse_by_delimiter, AlbumRuleMatch};
use crate::config::AppConfig;
use crate::digest::{sha256_hex, sha256_hex_text};
use crate::models::build_album_id;
use crate::paths::{opt_view, parent_dir_name, parent_dir_name_of};
use crate::text::{append_str, is_blank, same_text, string_of, trim_seq};

verus! {

/// A rule that splits a directory name at a delimiter.
#[derive(Debug, Clone)]
pub struct DelimiterRule {
    pub key: String,
    pub delimiter: char,
}

/// A rule that reads a directory name with a regular expression.
#[derive(Debug, Clone)]
pub struct RegexRulePattern {
    pub key: String,
    pub regex: String,
    pub date_capture: String,
    pub name_capture: String,
    pub date_input_format: String,
}

#[derive(Debug, Clone)]
pub enum AlbumRulePattern {
    Delimiter(DelimiterRule),
    Regex(RegexRulePattern),
}

/// The rule a configured delimiter stands for: `.`, `_` and `-` have
/// built-in rules; any other delimiter has none.
pub open spec fn delimiter_rule(d: Seq<char>) -> Option<(Seq<char>, char)> {
    if d == "."@ {
        Some(("date_dot"@, '.'))
    } else if d == "_"@ {
        Some(("date_underscore"@, '_'))
    } else if d == "-"@ {
        Some(("date_hyphen"@, '-'))
    } else {
        None
    }
}

pub open spec fn delimiter_rules(ds: Seq<String>) -> Seq<(Seq<char>, char)>
    decreases ds.len(),
{
    if ds.len() == 0 {
        Seq::empty()
    } else {
        match delimiter_rule(ds.last()@) {
            Some(r) => delimiter_rules(ds.drop_last()).push(r),
            None => delimiter_rules(ds.drop_last()),
        }
    }
}

pub open spec fn rule_view(r: DelimiterRule) -> (Seq<char>, char) {
    (r.key@, r.delimiter)
}

fn rule_for(d: &String) -> (r: Option<DelimiterRule>)
    ensures
        match r {
            Some(x) => delimiter_rule(d@) == Some(rule_view(x)),
            None => delimiter_rule(d@) is None,
        },
{
    if same_text(d.as_str(), ".") {
        Some(DelimiterRule { key: string_of("date_dot"), delimiter: '.' })
    } else if same_text(d.as_str(), "_") {
        Some(DelimiterRule { key: string_of("date_underscore"), delimiter: '_' })
    } else if same_text(d.as_str(), "-") {
        Some(DelimiterRule { key: string_of("date_hyphen"), delimiter: '-' })
    } else {
        None
    }
}

/// The delimiter rules of the configured delimiters, in order.
pub fn patterns_from_delimiters(delimiters: &Vec<String>) -> (r: Vec<DelimiterRule>)
    ensures
        r@.len() == delimiter_rules(delimiters@).len(),
        forall|i: int| 0 <= i < r@.len() ==> rule_view(#[trigger] r@[i]) == delimiter_rules(delimiters@)[i],
{
    let mut out: Vec<DelimiterRule> = Vec::new();
    let mut i: usize = 0;
    while i < delimiters.len()
        invariant
            i <= delimiters.len(),
            out@.len() == delimiter_rules(delimiters@.subrange(0, i as int)).len(),
            forall|k: int|
                0 <= k < out@.len() ==> rule_view(#[trigger] out@[k]) == delimiter_rules(
                    delimiters@.subrange(0, i as int),
                )[k],
        decreases delimiters.len() - i,
    {
        proof {
            assert(delimiters@.subrange(0, i + 1).drop_last() =~= delimiters@.subrange(0, i as int));
        }
        let ghost before = out@;
        match rule_for(&delimiters[i]) {
            Some(r) => out.push(r),
            None => {},
        }
        i += 1;
        proof {
            assert forall|k: int| 0 <= k < out@.len() implies rule_view(#[trigger] out@[k])
                == delimiter_rules(delimiters@.subrange(0, i as int))[k] by {
                if k < before.len() {
                    assert(out@[k] == before[k]);
                }
            }
        }
    }
    proof {
        assert(delimiters@.subrange(0, delimiters@.len() as int) =~= delimiters@);
    }
    out
}

/// The album rules a scan uses: the delimiter rules, then every regular
/// expression rule that has an expression.
pub fn build_album_rule_patterns(config: &AppConfig) -> (r: Vec<AlbumRulePattern>)
    ensures
        forall|i: int|
            0 <= i < r@.len() ==> (#[trigger] r@[i] matches AlbumRulePattern::Delimiter(d) ==> i
                < delimiter_rules(config.album_rules.date_delimiters@).len() && rule_view(d)
                == delimiter_rules(config.album_rules.date_delimiters@)[i]),
        forall|i: int|
            0 <= i < delimiter_rules(config.album_rules.date_delimiters@).len() ==> (
            #[trigger] r@[i] matches AlbumRulePattern::Delimiter(d) && rule_view(d)
                == delimiter_rules(config.album_rules.date_delimiters@)[i]),
        r@.len() >= delimiter_rules(config.album_rules.date_delimiters@).len(),
        forall|i: int|
            delimiter_rules(config.album_rules.date_delimiters@).len() <= i < r@.len() ==> (
            #[trigger] r@[i] matches AlbumRulePattern::Regex(x) && !(trim_seq(x.regex@).len()
                == 0)),
{
    let delims = patterns_from_delimiters(&config.album_rules.date_delimiters);
    let ghost n = delims@.len();
    let mut out: Vec<AlbumRulePattern> = Vec::new();
    let mut i: usize = 0;
    while i < delims.len()
        invariant
            i <= delims.len(),
            n == delims@.len(),
            n == delimiter_rules(config.album_rules.date_delimiters@).len(),
            forall|k: int| 0 <= k < n ==> rule_view(#[trigger] delims@[k]) == delimiter_rules(
                config.album_rules.date_delimiters@,
            )[k],
            out@.len() == i,
            forall|k: int|
                0 <= k < i ==> (#[trigger] out@[k] matches AlbumRulePattern::Delimiter(d)
                    && rule_view(d) == rule_view(delims@[k])),
        decreases delims.len() - i,
    {
        let d = DelimiterRule { key: delims[i].key.clone(), delimiter: delims[i].delimiter };
        out.push(AlbumRulePattern::Delimiter(d));
        i += 1;
    }
    let regexes = &config.album_rules.regex_patterns;
    let mut j: usize = 0;
    while j < regexes.len()
        invariant
            j <= regexes.len(),
            n == delimiter_rules(config.album_rules.date_delimiters@).len(),
            forall|k: int| 0 <= k < n ==> rule_view(#[trigger] delims@[k]) == delimiter_rules(
                config.album_rules.date_delimiters@,
            )[k],
            n == delims@.len(),
            out@.len() >= n,
            forall|k: int|
                0 <= k < n ==> (#[trigger] out@[k] matches AlbumRulePattern::Delimiter(d)
                    && rule_view(d) == rule_view(delims@[k])),
            forall|k: int|
                n <= k < out@.len() ==> (#[trigger] out@[k] matches AlbumRulePattern::Regex(x)
                    && !(trim_seq(x.regex@).len() == 0)),
        decreases regexes.len() - j,
    {
        let p = &regexes[j];
        if !is_blank(p.regex.as_str()) {
            out.push(
                AlbumRulePattern::Regex(
                    RegexRulePattern {
                        key: p.key.clone(),
                        regex: p.regex.clone(),
                        date_capture: p.date_capture.clone(),
                        name_capture: p.name_capture.clone(),
                        date_input_format: p.date_input_format.clone(),
                    },
                ),
            );
        }
        j += 1;
    }
    out
}

/// The album the first matching delimiter rule reads from `dir`. Regular
/// expression rules are carried in the configuration but match nothing.
pub open spec fn album_by_patterns(dir: Seq<char>, ps: Seq<AlbumRulePattern>, i: int) -> Option<
    (Seq<char>, Seq<char>, Seq<char>),
>
    decreases ps.len() - i,
{
    if i < 0 || i >= ps.len() {
        None
    } else {
        match ps[i] {
            AlbumRulePattern::Delimiter(d) => match album_match(d.key@, dir, d.delimiter) {
                Some(m) => Some(m),
                None => album_by_patterns(dir, ps, i + 1),
            },
            AlbumRulePattern::Regex(_) => album_by_patterns(dir, ps, i + 1),
        }
    }
}

pub fn parse_album_from_dir_name_with_patterns(dir_name: &str, patterns: &Vec<AlbumRulePattern>) -> (r:
    Option<AlbumRuleMatch>)
    ensures
        match_view(r) == album_by_patterns(dir_name@, patterns@, 0),
{
    let mut i: usize = 0;
    while i < patterns.len()
        invariant
            i <= patterns.len(),
            album_by_patterns(dir_name@, patterns@, 0) == album_by_patterns(
                dir_name@,
                patterns@,
                i as int,
            ),
        decreases patterns.len() - i,
    {
        match &patterns[i] {
            AlbumRulePattern::Delimiter(d) => {
                let m = parse_by_delimiter(d.key.as_str(), dir_name, d.delimiter);
                if m.is_some() {
                    return m;
                }
            },
            AlbumRulePattern::Regex(_) => {},
        }
        i += 1;
    }
    None
}

/// The album a scanned photo belongs to by the name of its directory.
#[derive(Debug, Clone)]
pub struct AutoAlbum {
    /// `<source id>|<rule>|<date>|<name>`: the same album within one scan.
    pub cache_key: String,
    pub rule_name: String,
    pub album_date: String,
    pub album_name: String,
    /// The identifier an album made for it gets, when none exists yet.
    pub album_id: String,
}

pub open spec fn auto_album_spec(
    source_id: Seq<char>,
    file_path: Seq<char>,
    ps: Seq<AlbumRulePattern>,
) -> Option<(Seq<char>, Seq<char>, Seq<char>)> {
    match parent_dir_name(file_path) {
        None => None,
        Some(dir) => album_by_patterns(dir, ps, 0),
    }
}

/// Which album (if any) the directory of `file_path` names.
pub fn plan_auto_album(source_id: &str, file_path: &str, patterns: &Vec<AlbumRulePattern>) -> (r:
    Option<AutoAlbum>)
    ensures
        match auto_album_spec(source_id@, file_path@, patterns@) {
            None => r is None,
            Some(m) => r matches Some(a) && a.rule_name@ == m.0 && a.album_date@ == m.1
                && a.album_name@ == m.2 && a.cache_key@ == source_id@ + "|"@ + m.0 + "|"@ + m.1
                + "|"@ + m.2 && a.album_id@ == sha256_hex_text(
                m.2 + ":"@ + m.1 + ":"@ + sha256_hex_text(source_id@ + ":"@ + m.0),
            ),
        },
{
    let dir = match parent_dir_name_of(file_path) {
        Some(d) => d,
        None => return None,
    };
    let m = match parse_album_from_dir_name_with_patterns(dir.as_str(), patterns) {
        Some(m) => m,
        None => return None,
    };
    let mut key = string_of(source_id);
    append_str(&mut key, "|");
    append_str(&mut key, m.rule_name.as_str());
    append_str(&mut key, "|");
    append_str(&mut key, m.album_date.as_str());
    append_str(&mut key, "|");
    append_str(&mut key, m.album_name.as_str());
    let mut salt_input = string_of(source_id);
    append_str(&mut salt_input, ":");
    append_str(&mut salt_input, m.rule_name.as_str());
    let salt = sha256_hex(salt_input.as_str());
    let album_id = build_album_id(m.album_name.as_str(), Some(m.album_date.as_str()), salt.as_str());
    Some(
        AutoAlbum {
            cache_key: key,
            rule_name: m.rule_name,
            album_date: m.album_date,
            album_name: m.album_name,
            album_id,
        },
    )
}

/// The albums already resolved during one scan, by cache key.
#[derive(Debug, Clone)]
pub struct AlbumCache {
    entries: Vec<(String, String)>,
}

/// The value last stored under `key` among the first `n` entries.
pub open spec fn cache_lookup(entries: Seq<(String, String)>, key: Seq<char>, n: int) -> Option<
    Seq<char>,
>
    decreases n,
{
    if n <= 0 || n > entries.len() {
        None
    } else if entries[n - 1].0@ == key {
        Some(entries[n - 1].1@)
    } else {
        cache_lookup(entries, key, n - 1)
    }
}

impl AlbumCache {
    pub closed spec fn lookup(self, key: Seq<char>) -> Option<Seq<char>> {
        cache_lookup(self.entries@, key, self.entries@.len() as int)
    }

    pub fn new() -> (r: Self)
        ensures
            forall|k: Seq<char>| r.lookup(k) is None,
    {
        AlbumCache { entries: Vec::new() }
    }

    pub fn get(&self, key: &str) -> (r: Option<String>)
        ensures
            opt_view(r) == self.lookup(key@),
    {
        let mut n = self.entries.len();
        while n > 0
            invariant
                n <= self.entries@.len(),
                cache_lookup(self.entries@, key@, self.entries@.len() as int) == cache_lookup(
                    self.entries@,
                    key@,
                    n as int,
                ),
            decreases n,
        {
            if same_text(self.entries[n - 1].0.as_str(), key) {
                return Some(self.entries[n - 1].1.clone());
            }
            n -= 1;
        }
        None
    }

    pub fn insert(&mut self, key: String, album_id: String)
        ensures
            final(self).lookup(key@) == Some(album_id@),
            forall|k: Seq<char>| k != key@ ==> final(self).lookup(k) == old(self).lookup(k),
    {
        let ghost kv = key@;
        let ghost av = album_id@;
        self.entries.push((key, album_id));
        proof {
            let e = self.entries@;
            assert(e[e.len() - 1].0@ == kv);
            assert forall|k: Seq<char>| k != kv implies cache_lookup(e, k, e.len() as int)
                == cache_lookup(old(self).entries@, k, old(self).entries@.len() as int) by {
                lemma_cache_lookup_prefix(e, k, e.len() - 1);
                assert(e.subrange(0, e.len() - 1) =~= old(self).entries@);
            }
        }
    }
}

proof fn lemma_cache_lookup_prefix(e: Seq<(String, String)>, k: Seq<char>, n: int)
    requires
        0 <= n < e.len(),
    ensures
        cache_lookup(e, k, n) == cache_lookup(e.subrange(0, n), k, n),
    decreases n,
{
    if n > 0 {
        lemma_cache_lookup_prefix(e, k, n - 1);
        lemma_cache_lookup_sub(e, k, n - 1, n);
    }
}

proof fn lemma_cache_lookup_sub(e: Seq<(String, String)>, k: Seq<char>, n: int, m: int)
    requires
        0 <= n <= m <= e.len(),
    ensures
        cache_lookup(e.subrange(0, m), k, n) == cache_lookup(e, k, n),
    decreases n,
{
    if n > 0 {
        assert(e.subrange(0, m)[n - 1] == e[n - 1]);
        lemma_cache_lookup_sub(e, k, n - 1, m);
    }
}

} // verus!
