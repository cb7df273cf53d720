//! Start-up helpers: the environment snapshot that is logged, the SQLite
//! file a database URL names, and the statements of the schema script.

use vstd::prelude::*;
use crate::paths::{lemma_split_last, lemma_split_on_pieces, lemma_split_step, split_on};
use crate::text::{lemma_skip_spaces_from, lemma_trimmed_end, chars_of, same_text, string_from_range, string_of, trim_bounds, trim_seq};

verus! {

/// The environment variables whose values are logged at start-up.
pub const BOOT_ENV_KEYS: [&'static str; 25] = [
    "HOME",
    "USER",
    "HOSTNAME",
    "CONFIG_PATH",
    "BIND_ADDR",
    "DATABASE_URL",
    "LOG_DIR",
    "LOG_LEVEL",
    "PREVIEW_CACHE_ENABLED",
    "PREVIEW_CACHE_DIR",
    "PREVIEW_CACHE_TTL_HOURS",
    "PREVIEW_CACHE_MAX_BYTES",
    "PREVIEW_CACHE_CLEANUP_INTERVAL_SECONDS",
    "PREVIEW_CACHE_WARMUP_ON_SCAN",
    "PREVIEW_CACHE_WARMUP_CONCURRENCY",
    "SCAN_MAX_CONCURRENT_JOBS",
    "SCAN_CHECKPOINT_EVERY",
    "SCAN_SEARCH_INDEX_SYNC_EVERY",
    "SCAN_HASH_PARALLELISM",
    "SCAN_HASH_BATCH_SIZE",
    "SCAN_RESUME_ENABLED",
    "SCAN_TASK_DISPATCH_INTERVAL_MS",
    "SCAN_TASK_STALE_SECONDS",
    "SCAN_SOURCE_CHANGE_DETECT_ENABLED",
    "SCAN_SOURCE_CHANGE_DETECT_INTERVAL_MS",
];

/// The value a snapshot records for a variable: its value, or `<unset>`.
pub fn snapshot_value(value: Option<String>) -> (r: String)
    ensures
        r@ == match value {
            Some(v) => v@,
            None => "<unset>"@,
        },
{
    match value {
        Some(v) => v,
        None => string_of("<unset>"),
    }
}

/// The snapshot of the start-up environment: each variable of
/// `BOOT_ENV_KEYS` with the value read for it (`values` in the same order),
/// or `<unset>`.
pub fn collect_boot_env_snapshot(values: Vec<Option<String>>) -> (r: Vec<(String, String)>)
    requires
        values@.len() == 25,
    ensures
        r@.len() == 25,
        forall|i: int|
            0 <= i < 25 ==> (#[trigger] r@[i]).0@ == BOOT_ENV_KEYS@[i]@ && r@[i].1@ == match values@[i] {
                Some(v) => v@,
                None => "<unset>"@,
            },
{
    let keys = BOOT_ENV_KEYS;
    let mut out: Vec<(String, String)> = Vec::new();
    let mut rest = values;
    let mut i: usize = 0;
    let ghost vals = rest@;
    while i < 25
        invariant
            i <= 25,
            keys@ == BOOT_ENV_KEYS@,
            vals.len() == 25,
            rest@.len() == 25 - i,
            forall|k: int| 0 <= k < 25 - i ==> #[trigger] rest@[k] == vals[k + i],
            out@.len() == i,
            forall|k: int|
                0 <= k < i ==> (#[trigger] out@[k]).0@ == BOOT_ENV_KEYS@[k]@ && out@[k].1@ == match vals[k] {
                    Some(v) => v@,
                    None => "<unset>"@,
                },
        decreases 25 - i,
    {
        let v = rest.remove(0);
        let key = string_of(keys[i]);
        out.push((key, snapshot_value(v)));
        i += 1;
    }
    out
}

pub open spec fn is_unset(p: (String, String)) -> bool {
    p.1@ == "<unset>"@
}

/// The variables that are set, with their values, in order.
pub open spec fn set_pairs(s: Seq<(String, String)>) -> Seq<(String, String)>
    decreases s.len(),
{
    if s.len() == 0 {
        Seq::empty()
    } else if is_unset(s.last()) {
        set_pairs(s.drop_last())
    } else {
        set_pairs(s.drop_last()).push(s.last())
    }
}

/// The names of the variables that are unset, in order.
pub open spec fn unset_keys(s: Seq<(String, String)>) -> Seq<String>
    decreases s.len(),
{
    if s.len() == 0 {
        Seq::empty()
    } else if is_unset(s.last()) {
        unset_keys(s.drop_last()).push(s.last().0)
    } else {
        unset_keys(s.drop_last())
    }
}

/// Splitting a snapshot loses no variable and invents none: every entry is
/// either set (kept with its value) or unset (kept by name).
pub proof fn law_snapshot_split_is_a_partition(s: Seq<(String, String)>)
    ensures
        set_pairs(s).len() + unset_keys(s).len() == s.len(),
        forall|i: int| 0 <= i < set_pairs(s).len() ==> !is_unset(#[trigger] set_pairs(s)[i]),
    decreases s.len(),
{
    if s.len() > 0 {
        law_snapshot_split_is_a_partition(s.drop_last());
        let prev = set_pairs(s.drop_last());
        let cur = set_pairs(s);
        assert forall|i: int| 0 <= i < cur.len() implies !is_unset(#[trigger] cur[i]) by {
            if i < prev.len() {
                assert(cur[i] == prev[i]);
            }
        }
    }
}

/// Splits a snapshot into the variables that are set and those unset.
pub fn split_env_snapshot(snapshot: &Vec<(String, String)>) -> (r: (Vec<(String, String)>, Vec<String>))
    ensures
        r.0@.len() == set_pairs(snapshot@).len(),
        forall|i: int|
            0 <= i < r.0@.len() ==> (#[trigger] r.0@[i]).0@ == set_pairs(snapshot@)[i].0@ && r.0@[i].1@
                == set_pairs(snapshot@)[i].1@,
        r.1@.len() == unset_keys(snapshot@).len(),
        forall|i: int| 0 <= i < r.1@.len() ==> #[trigger] r.1@[i]@ == unset_keys(snapshot@)[i]@,
{
    let mut overrides: Vec<(String, String)> = Vec::new();
    let mut unset: Vec<String> = Vec::new();
    let mut i: usize = 0;
    while i < snapshot.len()
        invariant
            i <= snapshot.len(),
            overrides@.len() == set_pairs(snapshot@.subrange(0, i as int)).len(),
            forall|k: int|
                0 <= k < overrides@.len() ==> (#[trigger] overrides@[k]).0@ == set_pairs(
                    snapshot@.subrange(0, i as int),
                )[k].0@ && overrides@[k].1@ == set_pairs(snapshot@.subrange(0, i as int))[k].1@,
            unset@.len() == unset_keys(snapshot@.subrange(0, i as int)).len(),
            forall|k: int|
                0 <= k < unset@.len() ==> #[trigger] unset@[k]@ == unset_keys(
                    snapshot@.subrange(0, i as int),
                )[k]@,
        decreases snapshot.len() - i,
    {
        proof {
            assert(snapshot@.subrange(0, i + 1).drop_last() =~= snapshot@.subrange(0, i as int));
        }
        let ghost before_o = overrides@;
        let ghost before_u = unset@;
        let (k, v) = &snapshot[i];
        if same_text(v.as_str(), "<unset>") {
            unset.push(k.clone());
        } else {
            overrides.push((k.clone(), v.clone()));
        }
        i += 1;
        proof {
            assert forall|j: int| 0 <= j < overrides@.len() implies (#[trigger] overrides@[j]).0@
                == set_pairs(snapshot@.subrange(0, i as int))[j].0@ && overrides@[j].1@ == set_pairs(
                snapshot@.subrange(0, i as int),
            )[j].1@ by {
                if j < before_o.len() {
                    assert(overrides@[j] == before_o[j]);
                }
            }
            assert forall|j: int| 0 <= j < unset@.len() implies #[trigger] unset@[j]@ == unset_keys(
                snapshot@.subrange(0, i as int),
            )[j]@ by {
                if j < before_u.len() {
                    assert(unset@[j] == before_u[j]);
                }
            }
        }
    }
    proof {
        assert(snapshot@.subrange(0, snapshot@.len() as int) =~= snapshot@);
    }
    (overrides, unset)
}

/// The file a `sqlite://` URL names, or `<non-sqlite-url>`.
pub fn sqlite_file_path(database_url: &str) -> (r: String)
    ensures
        r@ == if database_url@.len() >= 9 && database_url@.subrange(0, 9) == "sqlite://"@ {
            database_url@.skip(9)
        } else {
            "<non-sqlite-url>"@
        },
{
    let v = chars_of(database_url);
    let prefix = chars_of("sqlite://");
    proof {
        reveal_strlit("sqlite://");
    }
    if v.len() >= 9 {
        let mut i: usize = 0;
        let mut same = true;
        while i < 9
            invariant
                v@ == database_url@,
                prefix@ == "sqlite://"@,
                prefix@.len() == 9,
                v.len() >= 9,
                i <= 9,
                same == forall|k: int| 0 <= k < i ==> v@[k] == prefix@[k],
            decreases 9 - i,
        {
            if v[i] != prefix[i] {
                same = false;
            }
            i += 1;
        }
        if same {
            proof {
                assert(v@.subrange(0, 9) =~= "sqlite://"@);
                assert(v@.subrange(9, v@.len() as int) =~= database_url@.skip(9));
            }
            return string_from_range(&v, 9, v.len());
        } else {
            proof {
                let k = choose|k: int| 0 <= k < 9 && v@[k] != prefix@[k];
                assert(v@.subrange(0, 9)[k] != "sqlite://"@[k]);
            }
        }
    }
    string_of("<non-sqlite-url>")
}

/// The statements of a SQL script: the text between semicolons, trimmed,
/// with the blank ones left out.
pub open spec fn kept_statements(segs: Seq<Seq<char>>) -> Seq<Seq<char>>
    decreases segs.len(),
{
    if segs.len() == 0 {
        Seq::empty()
    } else if trim_seq(segs.last()).len() == 0 {
        kept_statements(segs.drop_last())
    } else {
        kept_statements(segs.drop_last()).push(trim_seq(segs.last()))
    }
}

pub open spec fn sql_statements(sql: Seq<char>) -> Seq<Seq<char>> {
    kept_statements(split_on(sql, ';'))
}

proof fn lemma_kept_statements(segs: Seq<Seq<char>>, c: char)
    requires
        forall|i: int, k: int| 0 <= i < segs.len() && 0 <= k < segs[i].len() ==> #[trigger] segs[i][k] != c,
    ensures
        forall|i: int| 0 <= i < kept_statements(segs).len() ==> (#[trigger] kept_statements(segs)[i]).len() > 0,
        forall|i: int, k: int|
            0 <= i < kept_statements(segs).len() && 0 <= k < kept_statements(segs)[i].len()
                ==> #[trigger] kept_statements(segs)[i][k] != c,
    decreases segs.len(),
{
    if segs.len() > 0 {
        let prev_segs = segs.drop_last();
        assert forall|i: int, k: int| 0 <= i < prev_segs.len() && 0 <= k < prev_segs[i].len() implies #[trigger] prev_segs[i][k]
            != c by {
            assert(prev_segs[i] == segs[i]);
        }
        lemma_kept_statements(prev_segs, c);
        let last = segs.last();
        let t = trim_seq(last);
        lemma_skip_spaces_from(last, 0);
        lemma_trimmed_end(last, last.len() as int);
        let prev = kept_statements(prev_segs);
        let cur = kept_statements(segs);
        assert forall|i: int| 0 <= i < cur.len() implies (#[trigger] cur[i]).len() > 0 by {
            if i < prev.len() {
                assert(cur[i] == prev[i]);
            }
        }
        assert forall|i: int, k: int| 0 <= i < cur.len() && 0 <= k < cur[i].len() implies #[trigger] cur[i][k]
            != c by {
            if i < prev.len() {
                assert(cur[i] == prev[i]);
            } else {
                assert(cur[i] == t);
                let a = crate::text::skip_spaces_from(last, 0);
                assert(t[k] == last[a + k]);
                assert(segs[segs.len() - 1] == last);
            }
        }
    }
}

/// The statements run from a schema script are never blank and never hold
/// a `;`: each is exactly one statement of the script.
pub proof fn law_schema_statements(sql: Seq<char>)
    ensures
        forall|i: int| 0 <= i < sql_statements(sql).len() ==> (#[trigger] sql_statements(sql)[i]).len() > 0,
        forall|i: int, k: int|
            0 <= i < sql_statements(sql).len() && 0 <= k < sql_statements(sql)[i].len()
                ==> #[trigger] sql_statements(sql)[i][k] != ';',
{
    lemma_split_on_pieces(sql, ';');
    lemma_kept_statements(split_on(sql, ';'), ';');
}

proof fn lemma_kept_push(prior: Seq<Seq<char>>, seg: Seq<char>)
    ensures
        kept_statements(prior.push(seg)) == if trim_seq(seg).len() == 0 {
            kept_statements(prior)
        } else {
            kept_statements(prior).push(trim_seq(seg))
        },
{
    assert(prior.push(seg).drop_last() =~= prior);
}

/// Appends the trimmed text of `v[from..to]` to `out` unless it is blank.
fn keep_statement(out: &mut Vec<String>, v: &Vec<char>, from: usize, to: usize)
    requires
        from <= to <= v.len(),
    ensures
        trim_seq(v@.subrange(from as int, to as int)).len() == 0 ==> final(out)@ == old(out)@,
        trim_seq(v@.subrange(from as int, to as int)).len() > 0 ==> {
            &&& final(out)@.len() == old(out)@.len() + 1
            &&& forall|k: int| 0 <= k < old(out)@.len() ==> #[trigger] final(out)@[k] == old(out)@[k]
            &&& final(out)@.last()@ == trim_seq(v@.subrange(from as int, to as int))
        },
{
    let seg = string_from_range(v, from, to);
    let sv = chars_of(seg.as_str());
    let (a, b) = trim_bounds(&sv);
    if a < b {
        out.push(string_from_range(&sv, a, b));
    }
}

/// The statements of a schema script, in order.
pub fn schema_statements(sql: &str) -> (r: Vec<String>)
    ensures
        r@.len() == sql_statements(sql@).len(),
        forall|i: int| 0 <= i < r@.len() ==> #[trigger] r@[i]@ == sql_statements(sql@)[i],
{
    let v = chars_of(sql);
    let ghost t = v@;
    let mut out: Vec<String> = Vec::new();
    let mut start: usize = 0;
    let mut i: usize = 0;
    let ghost mut prior: Seq<Seq<char>> = Seq::empty();
    while i < v.len()
        invariant
            t == v@,
            t == sql@,
            start <= i <= v.len(),
            start > 0 ==> t[start - 1] == ';',
            forall|k: int| start <= k < i ==> t[k] != ';',
            start > 0 ==> prior == split_on(t.subrange(0, start - 1), ';'),
            start == 0 ==> prior == Seq::<Seq<char>>::empty(),
            out@.len() == kept_statements(prior).len(),
            forall|j: int| 0 <= j < out@.len() ==> #[trigger] out@[j]@ == kept_statements(prior)[j],
        decreases v.len() - i,
    {
        if v[i] == ';' {
            let ghost seg = t.subrange(start as int, i as int);
            proof {
                lemma_split_step(t, ';', start as int, i as int);
                lemma_kept_push(prior, seg);
                if start == 0 {
                    assert(t.subrange(0, i as int) == seg);
                    assert(seq![seg] =~= prior.push(seg));
                }
            }
            let ghost before = out@;
            keep_statement(&mut out, &v, start, i);
            proof {
                assert forall|j: int| 0 <= j < out@.len() implies #[trigger] out@[j]@
                    == kept_statements(prior.push(seg))[j] by {
                    if j < before.len() {
                        assert(out@[j] == before[j]);
                    }
                }
                prior = prior.push(seg);
            }
            start = i + 1;
        }
        i += 1;
    }
    let ghost seg = t.subrange(start as int, t.len() as int);
    proof {
        lemma_split_last(t, ';', start as int);
        lemma_kept_push(prior, seg);
        if start == 0 {
            assert(t.subrange(0, t.len() as int) =~= t);
            assert(seq![seg] =~= prior.push(seg));
        }
        assert(split_on(t, ';') == prior.push(seg));
    }
    let ghost before = out@;
    keep_statement(&mut out, &v, start, v.len());
    proof {
        assert forall|j: int| 0 <= j < out@.len() implies #[trigger] out@[j]@ == sql_statements(sql@)[j] by {
            if j < before.len() {
                assert(out@[j] == before[j]);
            }
        }
    }
    out
}

} // verus!
