//! Scanning a source: which files of a listing are photos to look at,
//! what is recorded of each, and the counts a scan job reports.
//!
//! A scan runs in two phases. The collect phase walks the sorted listing,
//! skips what the resume cursor says was already seen, and turns each photo
//! file into a candidate (or a failure). The store phase visits the
//! candidates in order: each is counted as processed, compared with what is
//! stored, and then skipped, updated or inserted.

use vstd::prelude::*;
use crate::paths::{opt_view, path_name_list, path_names};
use crate::exif_writer::GpsFix;
use crate::storage::StorageEntry;
use crate::text::{
    append_str, chars_of, lower_seq, seq_eq, string_from_range, string_of, to_lower_chars,
    range_eq_str, same_text,
};

verus! {

// ---------------------------------------------------------------------------
// File names and types
// ---------------------------------------------------------------------------

/// `Path::file_name`: the last component, unless it is `..` or missing.
pub open spec fn file_name_of(p: Seq<char>) -> Option<Seq<char>> {
    let c = path_names(p);
    if c.len() > 0 && c.last() != seq!['.', '.'] {
        Some(c.last())
    } else {
        None
    }
}

/// Index of the last `.` in `f`, or -1.
pub open spec fn last_dot(f: Seq<char>, j: int) -> int
    decreases j,
{
    if j <= 0 || j > f.len() {
        -1
    } else if f[j - 1] == '.' {
        j - 1
    } else {
        last_dot(f, j - 1)
    }
}

/// `Path::extension` of a file name: what follows the last `.`, unless
/// that dot starts the name.
pub open spec fn extension_of(f: Seq<char>) -> Option<Seq<char>> {
    let k = last_dot(f, f.len() as int);
    if k > 0 {
        Some(f.subrange(k + 1, f.len() as int))
    } else {
        None
    }
}

/// The lower-cased extension of the file at `p`.
pub open spec fn ext_lower(p: Seq<char>) -> Option<Seq<char>> {
    match file_name_of(p) {
        Some(f) => match extension_of(f) {
            Some(e) => Some(lower_seq(e)),
            None => None,
        },
        None => None,
    }
}

pub open spec fn is_photo_ext(e: Seq<char>) -> bool {
    ||| e == "jpg"@
    ||| e == "jpeg"@
    ||| e == "png"@
    ||| e == "gif"@
    ||| e == "webp"@
    ||| e == "heic"@
    ||| e == "heif"@
    ||| e == "bmp"@
    ||| e == "tiff"@
    ||| e == "tif"@
}

pub open spec fn is_photo_path(p: Seq<char>) -> bool {
    match ext_lower(p) {
        Some(e) => is_photo_ext(e),
        None => false,
    }
}

pub open spec fn mime_of(e: Seq<char>) -> Option<Seq<char>> {
    if e == "jpg"@ || e == "jpeg"@ {
        Some("image/jpeg"@)
    } else if e == "png"@ {
        Some("image/png"@)
    } else if e == "gif"@ {
        Some("image/gif"@)
    } else if e == "webp"@ {
        Some("image/webp"@)
    } else if e == "heic"@ {
        Some("image/heic"@)
    } else if e == "heif"@ {
        Some("image/heif"@)
    } else if e == "bmp"@ {
        Some("image/bmp"@)
    } else if e == "tiff"@ || e == "tif"@ {
        Some("image/tiff"@)
    } else {
        None
    }
}

pub open spec fn mime_of_ext(e: Option<Seq<char>>) -> Option<Seq<char>> {
    match e {
        Some(x) => mime_of(x),
        None => None,
    }
}

/// The name of the file at `path`, if it has one.
pub fn file_name_text(path: &str) -> (r: Option<String>)
    ensures
        opt_view(r) == file_name_of(path@),
{
    let v = chars_of(path);
    let names = path_name_list(&v);
    let n = names.len();
    if n == 0 {
        return None;
    }
    let last = &names[n - 1];
    proof {
        assert(names@[n - 1]@ == path_names(path@)[n - 1]);
    }
    if last.len() == 2 && last[0] == '.' && last[1] == '.' {
        proof {
            assert(last@ =~= seq!['.', '.']);
        }
        return None;
    }
    proof {
        if last@ == seq!['.', '.'] {
            assert(last@.len() == 2);
        }
    }
    Some(string_from_range(last, 0, last.len()))
}

fn last_dot_index(f: &Vec<char>) -> (r: Option<usize>)
    ensures
        match r {
            Some(k) => k as int == last_dot(f@, f@.len() as int) && k < f.len(),
            None => last_dot(f@, f@.len() as int) == -1,
        },
{
    let mut j = f.len();
    while j > 0
        invariant
            j <= f.len(),
            last_dot(f@, f@.len() as int) == last_dot(f@, j as int),
        decreases j,
    {
        if f[j - 1] == '.' {
            return Some(j - 1);
        }
        j -= 1;
    }
    None
}

/// The extension of the file at `path`, lower-cased.
pub fn file_ext_lowercase(path: &str) -> (r: Option<String>)
    ensures
        opt_view(r) == ext_lower(path@),
{
    match file_name_text(path) {
        None => None,
        Some(name) => {
            let f = chars_of(name.as_str());
            match last_dot_index(&f) {
                Some(k) => {
                    if k > 0 {
                        let ext: Vec<char> = sub_chars(&f, k + 1, f.len());
                        let low = to_lower_chars(&ext);
                        Some(string_from_range(&low, 0, low.len()))
                    } else {
                        None
                    }
                },
                None => None,
            }
        },
    }
}

fn sub_chars(v: &Vec<char>, from: usize, to: usize) -> (r: Vec<char>)
    requires
        from <= to <= v.len(),
    ensures
        r@ == v@.subrange(from as int, to as int),
{
    let mut r: Vec<char> = Vec::new();
    let mut i = from;
    while i < to
        invariant
            from <= i <= to <= v.len(),
            r@ == v@.subrange(from as int, i as int),
        decreases to - i,
    {
        r.push(v[i]);
        i += 1;
        proof {
            assert(r@ =~= v@.subrange(from as int, i as int));
        }
    }
    r
}

/// Whether the file at `path` is a photo, by its extension.
pub fn is_photo_file(path: &str) -> (r: bool)
    ensures
        r == is_photo_path(path@),
{
    match file_ext_lowercase(path) {
        Some(e) => {
            let s = e.as_str();
            same_text(s, "jpg") || same_text(s, "jpeg") || same_text(s, "png") || same_text(
                s,
                "gif",
            ) || same_text(s, "webp") || same_text(s, "heic") || same_text(s, "heif")
                || same_text(s, "bmp") || same_text(s, "tiff") || same_text(s, "tif")
        },
        None => false,
    }
}

/// The MIME type of a photo extension.
pub fn mime_from_ext(ext: Option<&str>) -> (r: Option<String>)
    ensures
        opt_view(r) == mime_of_ext(match ext {
            Some(e) => Some(e@),
            None => None,
        }),
{
    match ext {
        None => None,
        Some(e) => {
            if same_text(e, "jpg") || same_text(e, "jpeg") {
                Some(string_of("image/jpeg"))
            } else if same_text(e, "png") {
                Some(string_of("image/png"))
            } else if same_text(e, "gif") {
                Some(string_of("image/gif"))
            } else if same_text(e, "webp") {
                Some(string_of("image/webp"))
            } else if same_text(e, "heic") {
                Some(string_of("image/heic"))
            } else if same_text(e, "heif") {
                Some(string_of("image/heif"))
            } else if same_text(e, "bmp") {
                Some(string_of("image/bmp"))
            } else if same_text(e, "tiff") || same_text(e, "tif") {
                Some(string_of("image/tiff"))
            } else {
                None
            }
        },
    }
}

// ---------------------------------------------------------------------------
// Which files a scan looks at
// ---------------------------------------------------------------------------

pub open spec fn is_scan_file(e: StorageEntry) -> bool {
    !e.is_dir && is_photo_path(e.path@)
}

/// Whether the resume cursor has been passed within the first `n` entries
/// (it is passed from the start when there is none).
pub open spec fn cursor_passed(s: Seq<StorageEntry>, cursor: Option<Seq<char>>, n: int) -> bool
    decreases n,
{
    if n <= 0 {
        cursor is None
    } else {
        cursor_passed(s, cursor, n - 1) || (is_scan_file(s[n - 1]) && cursor == Some(
            s[n - 1].path@,
        ))
    }
}

/// The indices, among the first `n` entries, of the photo files after the
/// resume cursor.
pub open spec fn scan_targets(s: Seq<StorageEntry>, cursor: Option<Seq<char>>, n: int) -> Seq<int>
    decreases n,
{
    if n <= 0 {
        Seq::empty()
    } else if is_scan_file(s[n - 1]) && cursor_passed(s, cursor, n - 1) {
        scan_targets(s, cursor, n - 1).push(n - 1)
    } else {
        scan_targets(s, cursor, n - 1)
    }
}

/// The positions of the entries a scan turns into candidates: photo files
/// (not directories) that come after the resume cursor. With a cursor, the
/// file it names and everything before it are left out; a cursor that
/// names no file of the listing leaves everything out.
pub fn select_scan_targets(entries: &Vec<StorageEntry>, resume_cursor: &Option<String>) -> (r: Vec<
    usize,
>)
    ensures
        r@.len() == scan_targets(entries@, opt_view(*resume_cursor), entries@.len() as int).len(),
        forall|i: int|
            0 <= i < r@.len() ==> #[trigger] r@[i] as int == scan_targets(
                entries@,
                opt_view(*resume_cursor),
                entries@.len() as int,
            )[i],
{
    let ghost cur = opt_view(*resume_cursor);
    let mut out: Vec<usize> = Vec::new();
    let mut reached = resume_cursor.is_none();
    let mut i: usize = 0;
    while i < entries.len()
        invariant
            i <= entries.len(),
            cur == opt_view(*resume_cursor),
            reached == cursor_passed(entries@, cur, i as int),
            out@.len() == scan_targets(entries@, cur, i as int).len(),
            forall|k: int|
                0 <= k < out@.len() ==> #[trigger] out@[k] as int == scan_targets(
                    entries@,
                    cur,
                    i as int,
                )[k],
        decreases entries.len() - i,
    {
        let e = &entries[i];
        let photo = !e.is_dir && is_photo_file(e.path.as_str());
        if photo {
            if reached {
                let ghost before = out@;
                out.push(i);
                proof {
                    assert forall|k: int| 0 <= k < out@.len() implies #[trigger] out@[k] as int
                        == scan_targets(entries@, cur, i + 1)[k] by {
                        if k < before.len() {
                            assert(out@[k] == before[k]);
                        }
                    }
                }
            } else {
                let hit = match resume_cursor {
                    Some(c) => same_text(e.path.as_str(), c.as_str()),
                    None => false,
                };
                if hit {
                    reached = true;
                }
            }
        }
        i += 1;
    }
    out
}

// ---------------------------------------------------------------------------
// Collecting candidates
// ---------------------------------------------------------------------------

/// What is recorded of a photo file before it is stored.
#[derive(Debug, Clone)]
pub struct PhotoCandidate {
    pub storage_file_id: String,
    pub file_path: String,
    pub file_name: String,
    pub file_ext: Option<String>,
    pub file_size: i64,
    pub mime_type: Option<String>,
    pub content_hash: String,
    pub shot_at: Option<String>,
    pub created_at_fs: Option<String>,
    pub modified_at_fs: Option<String>,
    pub sort_time: String,
    pub exif_json: Option<String>,
    pub gps: Option<GpsFix>,
}

/// What reading one photo file gave.
#[derive(Debug, Clone)]
pub enum FileProbe {
    /// Its canonical identifier could not be had (with the error text).
    CanonicalFailed(String),
    /// Its content could not be hashed (with the error text).
    HashFailed(String),
    /// It was read: identifier, content hash, and what its EXIF data says
    /// (capture time, all fields as JSON, position).
    Read {
        storage_file_id: String,
        content_hash: String,
        shot_at: Option<String>,
        exif_json: Option<String>,
        gps: Option<GpsFix>,
    },
}

/// The outcome of the collect phase.
#[derive(Debug, Clone)]
pub struct ScanCollector {
    pub candidates: Vec<PhotoCandidate>,
    pub failed_count: i64,
    pub first_error: Option<String>,
}

pub open spec fn first_of(a: Option<Seq<char>>, b: Option<Seq<char>>, c: Option<Seq<char>>, d: Seq<char>) -> Seq<char> {
    match a {
        Some(x) => x,
        None => match b {
            Some(x) => x,
            None => match c {
                Some(x) => x,
                None => d,
            },
        },
    }
}

/// `c` is the candidate made of `entry` and what reading it gave.
pub open spec fn candidate_of(
    c: PhotoCandidate,
    entry: StorageEntry,
    storage_file_id: Seq<char>,
    content_hash: Seq<char>,
    shot_at: Option<Seq<char>>,
    exif_json: Option<Seq<char>>,
    gps: Option<GpsFix>,
    now: Seq<char>,
) -> bool {
    &&& c.storage_file_id@ == storage_file_id
    &&& c.file_path@ == entry.path@
    &&& c.file_name@ == match file_name_of(entry.path@) {
        Some(f) => f,
        None => entry.path@,
    }
    &&& opt_view(c.file_ext) == ext_lower(entry.path@)
    &&& c.file_size == if entry.size > i64::MAX {
        i64::MAX as int
    } else {
        entry.size as int
    }
    &&& opt_view(c.mime_type) == mime_of_ext(ext_lower(entry.path@))
    &&& c.content_hash@ == content_hash
    &&& opt_view(c.shot_at) == shot_at
    &&& opt_view(c.created_at_fs) == opt_view(entry.created_at)
    &&& opt_view(c.modified_at_fs) == opt_view(entry.modified_at)
    &&& c.sort_time@ == first_of(shot_at, opt_view(entry.created_at), opt_view(entry.modified_at), now)
    &&& opt_view(c.exif_json) == exif_json
    &&& c.gps == gps
}

pub open spec fn canonical_failure_text(path: Seq<char>, err: Seq<char>) -> Seq<char> {
    "failed to get canonical_id for "@ + path + ": "@ + err
}

pub open spec fn hash_failure_text(path: Seq<char>, err: Seq<char>) -> Seq<char> {
    "failed to calculate sha256 for "@ + path + ": "@ + err
}

fn opt_clone(o: &Option<String>) -> (r: Option<String>)
    ensures
        opt_view(r) == opt_view(*o),
{
    match o {
        Some(s) => Some(s.clone()),
        None => None,
    }
}

impl ScanCollector {
    pub fn new() -> (r: Self)
        ensures
            r.candidates@.len() == 0,
            r.failed_count == 0,
            r.first_error is None,
    {
        ScanCollector { candidates: Vec::new(), failed_count: 0, first_error: None }
    }

    fn note_failure(&mut self, msg: String)
        requires
            old(self).failed_count < i64::MAX,
        ensures
            final(self).candidates == old(self).candidates,
            final(self).failed_count == old(self).failed_count + 1,
            opt_view(final(self).first_error) == match old(self).first_error {
                Some(e) => Some(e@),
                None => Some(msg@),
            },
    {
        self.failed_count = self.failed_count + 1;
        if self.first_error.is_none() {
            self.first_error = Some(msg);
        }
    }

    /// Records one photo file: a failure to read it is counted (and its
    /// message kept if it is the first), otherwise a candidate is added.
    pub fn record(&mut self, entry: &StorageEntry, probe: FileProbe, now: &str)
        requires
            old(self).failed_count < i64::MAX,
        ensures
            match probe {
                FileProbe::CanonicalFailed(err) => {
                    &&& final(self).candidates == old(self).candidates
                    &&& final(self).failed_count == old(self).failed_count + 1
                    &&& opt_view(final(self).first_error) == match old(self).first_error {
                        Some(e) => Some(e@),
                        None => Some(canonical_failure_text(entry.path@, err@)),
                    }
                },
                FileProbe::HashFailed(err) => {
                    &&& final(self).candidates == old(self).candidates
                    &&& final(self).failed_count == old(self).failed_count + 1
                    &&& opt_view(final(self).first_error) == match old(self).first_error {
                        Some(e) => Some(e@),
                        None => Some(hash_failure_text(entry.path@, err@)),
                    }
                },
                FileProbe::Read { storage_file_id, content_hash, shot_at, exif_json, gps } => {
                    &&& final(self).failed_count == old(self).failed_count
                    &&& final(self).first_error == old(self).first_error
                    &&& final(self).candidates@.len() == old(self).candidates@.len() + 1
                    &&& final(self).candidates@.drop_last() == old(self).candidates@
                    &&& candidate_of(
                        final(self).candidates@.last(),
                        *entry,
                        storage_file_id@,
                        content_hash@,
                        opt_view(shot_at),
                        opt_view(exif_json),
                        gps,
                        now@,
                    )
                },
            },
    {
        match probe {
            FileProbe::CanonicalFailed(err) => {
                let mut m = string_of("failed to get canonical_id for ");
                append_str(&mut m, entry.path.as_str());
                append_str(&mut m, ": ");
                append_str(&mut m, err.as_str());
                self.note_failure(m);
            },
            FileProbe::HashFailed(err) => {
                let mut m = string_of("failed to calculate sha256 for ");
                append_str(&mut m, entry.path.as_str());
                append_str(&mut m, ": ");
                append_str(&mut m, err.as_str());
                self.note_failure(m);
            },
            FileProbe::Read { storage_file_id, content_hash, shot_at, exif_json, gps } => {
                let c = make_candidate(entry, storage_file_id, content_hash, shot_at, exif_json, gps, now);
                let ghost before = self.candidates@;
                self.candidates.push(c);
                proof {
                    assert(self.candidates@.drop_last() =~= before);
                }
            },
        }
    }
}

fn make_candidate(
    entry: &StorageEntry,
    storage_file_id: String,
    content_hash: String,
    shot_at: Option<String>,
    exif_json: Option<String>,
    gps: Option<GpsFix>,
    now: &str,
) -> (c: PhotoCandidate)
    ensures
        candidate_of(
            c,
            *entry,
            storage_file_id@,
            content_hash@,
            opt_view(shot_at),
            opt_view(exif_json),
            gps,
            now@,
        ),
{
    let file_path = entry.path.clone();
    let file_name = match file_name_text(file_path.as_str()) {
        Some(n) => n,
        None => file_path.clone(),
    };
    let file_ext = file_ext_lowercase(file_path.as_str());
    let mime_type = match &file_ext {
        Some(e) => mime_from_ext(Some(e.as_str())),
        None => mime_from_ext(None),
    };
    let file_size: i64 = if entry.size > i64::MAX as u64 {
        i64::MAX
    } else {
        entry.size as i64
    };
    let sort_time = match &shot_at {
        Some(s) => s.clone(),
        None => match &entry.created_at {
            Some(s) => s.clone(),
            None => match &entry.modified_at {
                Some(s) => s.clone(),
                None => string_of(now),
            },
        },
    };
    PhotoCandidate {
        storage_file_id,
        file_path,
        file_name,
        file_ext,
        file_size,
        mime_type,
        content_hash,
        shot_at,
        created_at_fs: opt_clone(&entry.created_at),
        modified_at_fs: opt_clone(&entry.modified_at),
        sort_time,
        exif_json,
        gps,
    }
}

// ---------------------------------------------------------------------------
// Storing candidates
// ---------------------------------------------------------------------------

/// What to do with a candidate once the stored photo (if any) is known.
#[derive(Debug, Clone, Copy, PartialEq, Eq)]
pub enum UpsertDecision {
    /// Stored with the same modification time and content: nothing to do.
    Skip,
    /// Stored but changed: write it again.
    Update,
    /// Not stored yet: write it.
    Insert,
}

/// What is stored of a photo that a candidate is compared with.
#[derive(Debug, Clone)]
pub struct StoredPhoto {
    pub modified_at_fs: Option<String>,
    pub content_hash: Option<String>,
}

pub open spec fn unchanged(stored: StoredPhoto, c: PhotoCandidate) -> bool {
    opt_view(stored.modified_at_fs) == opt_view(c.modified_at_fs) && opt_view(stored.content_hash)
        == Some(c.content_hash@)
}

pub open spec fn decision_for(existing: Option<StoredPhoto>, c: PhotoCandidate) -> UpsertDecision {
    match existing {
        None => UpsertDecision::Insert,
        Some(s) => if unchanged(s, c) {
            UpsertDecision::Skip
        } else {
            UpsertDecision::Update
        },
    }
}

/// The running counts of the store phase.
#[derive(Debug, Clone)]
pub struct ScanTally {
    pub processed_count: i64,
    pub new_count: i64,
    pub updated_count: i64,
    pub skipped_count: i64,
    pub failed_count: i64,
    pub auto_album_link_count: i64,
    pub last_scanned_path: Option<String>,
    pub last_scanned_storage_file_id: Option<String>,
    pub last_scanned_modified_at: Option<String>,
    pub last_scanned_content_hash: Option<String>,
}

/// The divisor by which `processed % checkpoint_every` is taken once
/// `checkpoint_every` is seen as an `i64`.
pub open spec fn checkpoint_divisor(every: int) -> int {
    if every <= i64::MAX {
        every
    } else {
        0x1_0000_0000_0000_0000 - every
    }
}

/// The counts add up: every processed candidate is skipped, updated or
/// inserted (an upsert that fails is still counted as one of these).
pub open spec fn tally_consistent(t: ScanTally, collect_failed: int) -> bool {
    &&& 0 <= t.new_count
    &&& 0 <= t.updated_count
    &&& 0 <= t.skipped_count
    &&& 0 <= t.auto_album_link_count
    &&& t.new_count + t.updated_count + t.skipped_count == t.processed_count
    &&& collect_failed <= t.failed_count
    &&& t.auto_album_link_count <= t.new_count + t.updated_count
}

/// The counts after a file is taken up: one more processed, nothing
/// decided yet.
pub open spec fn begin_counts(t0: ScanTally, t1: ScanTally) -> bool {
    &&& t1.processed_count == t0.processed_count + 1
    &&& t1.new_count == t0.new_count
    &&& t1.updated_count == t0.updated_count
    &&& t1.skipped_count == t0.skipped_count
    &&& t1.failed_count == t0.failed_count
    &&& t1.auto_album_link_count == t0.auto_album_link_count
}

/// The counts after deciding what to do with the file taken up.
pub open spec fn decide_counts(t1: ScanTally, t2: ScanTally, d: UpsertDecision) -> bool {
    &&& t2.processed_count == t1.processed_count
    &&& t2.failed_count == t1.failed_count
    &&& t2.auto_album_link_count == t1.auto_album_link_count
    &&& t2.new_count == t1.new_count + if d == UpsertDecision::Insert {
        1int
    } else {
        0
    }
    &&& t2.updated_count == t1.updated_count + if d == UpsertDecision::Update {
        1int
    } else {
        0
    }
    &&& t2.skipped_count == t1.skipped_count + if d == UpsertDecision::Skip {
        1int
    } else {
        0
    }
}

/// The counts after a stored photo is linked to its album.
pub open spec fn link_counts(t2: ScanTally, t3: ScanTally) -> bool {
    &&& t3.auto_album_link_count == t2.auto_album_link_count + 1
    &&& t3.failed_count == t2.failed_count
    &&& t3.processed_count == t2.processed_count
    &&& t3.new_count == t2.new_count
    &&& t3.updated_count == t2.updated_count
    &&& t3.skipped_count == t2.skipped_count
}

/// Taking up a file and deciding about it keeps the tally consistent:
/// every processed file is new, updated or skipped; and a file that was
/// stored may still be linked to its album once.
pub proof fn law_scan_step_keeps_tally(
    t0: ScanTally,
    t1: ScanTally,
    t2: ScanTally,
    d: UpsertDecision,
    collect_failed: int,
)
    requires
        tally_consistent(t0, collect_failed),
        begin_counts(t0, t1),
        decide_counts(t1, t2, d),
    ensures
        tally_consistent(t2, collect_failed),
        d != UpsertDecision::Skip ==> t2.auto_album_link_count < t2.new_count + t2.updated_count,
{
}

/// Linking a file that was just stored keeps the tally consistent.
pub proof fn law_album_link_keeps_tally(t2: ScanTally, t3: ScanTally, collect_failed: int)
    requires
        tally_consistent(t2, collect_failed),
        t2.auto_album_link_count < t2.new_count + t2.updated_count,
        link_counts(t2, t3),
    ensures
        tally_consistent(t3, collect_failed),
{
}

fn opt_text_eq(a: &Option<String>, b: &Option<String>) -> (r: bool)
    ensures
        r == (opt_view(*a) == opt_view(*b)),
{
    match (a, b) {
        (None, None) => true,
        (Some(x), Some(y)) => same_text(x.as_str(), y.as_str()),
        _ => false,
    }
}

/// A stored file is skipped only when both its modification time and its
/// content hash are the ones stored: a file not stored is inserted, and a
/// stored one whose content hash or modification time differs (say,
/// content replaced with the time kept) is updated.
pub proof fn law_skip_needs_same_time_and_hash(existing: Option<StoredPhoto>, c: PhotoCandidate)
    ensures
        existing is None ==> decision_for(existing, c) == UpsertDecision::Insert,
        existing matches Some(s) && opt_view(s.content_hash) != Some(c.content_hash@) ==> decision_for(
            existing,
            c,
        ) == UpsertDecision::Update,
        existing matches Some(s) && opt_view(s.modified_at_fs) != opt_view(c.modified_at_fs)
            ==> decision_for(existing, c) == UpsertDecision::Update,
        existing matches Some(s) && opt_view(s.modified_at_fs) == opt_view(c.modified_at_fs) && opt_view(
            s.content_hash,
        ) == Some(c.content_hash@) ==> decision_for(existing, c) == UpsertDecision::Skip,
{
}

impl ScanTally {
    /// The counts before any candidate is stored; failures of the collect
    /// phase are carried over.
    pub fn start(collect_failed: i64) -> (r: Self)
        requires
            collect_failed >= 0,
        ensures
            r.processed_count == 0,
            r.failed_count == collect_failed,
            r.last_scanned_path is None,
            tally_consistent(r, collect_failed as int),
    {
        ScanTally {
            processed_count: 0,
            new_count: 0,
            updated_count: 0,
            skipped_count: 0,
            failed_count: collect_failed,
            auto_album_link_count: 0,
            last_scanned_path: None,
            last_scanned_storage_file_id: None,
            last_scanned_modified_at: None,
            last_scanned_content_hash: None,
        }
    }

    /// Starts on a candidate: it is counted as processed and becomes the
    /// last scanned file. Returns whether a checkpoint is due (every
    /// `checkpoint_every` candidates).
    pub fn begin(&mut self, c: &PhotoCandidate, checkpoint_every: usize) -> (due: bool)
        requires
            0 <= old(self).processed_count < i64::MAX,
            checkpoint_every >= 1,
        ensures
            begin_counts(*old(self), *final(self)),
            final(self).processed_count == old(self).processed_count + 1,
            final(self).new_count == old(self).new_count,
            final(self).updated_count == old(self).updated_count,
            final(self).skipped_count == old(self).skipped_count,
            final(self).failed_count == old(self).failed_count,
            final(self).auto_album_link_count == old(self).auto_album_link_count,
            opt_view(final(self).last_scanned_path) == Some(c.file_path@),
            opt_view(final(self).last_scanned_storage_file_id) == Some(c.storage_file_id@),
            opt_view(final(self).last_scanned_modified_at) == opt_view(c.modified_at_fs),
            opt_view(final(self).last_scanned_content_hash) == Some(c.content_hash@),
            due == ((old(self).processed_count + 1) % checkpoint_divisor(checkpoint_every as int)
                == 0),
    {
        self.processed_count = self.processed_count + 1;
        self.last_scanned_path = Some(c.file_path.clone());
        self.last_scanned_storage_file_id = Some(c.storage_file_id.clone());
        self.last_scanned_modified_at = opt_clone(&c.modified_at_fs);
        self.last_scanned_content_hash = Some(c.content_hash.clone());
        let every = checkpoint_every as u64;
        let d: u64 = if every <= i64::MAX as u64 {
            every
        } else {
            (u64::MAX - every) + 1
        };
        proof {
            assert(d == checkpoint_divisor(checkpoint_every as int));
            assert(self.processed_count as u64 == self.processed_count);
        }
        (self.processed_count as u64) % d == 0
    }

    /// Compares a candidate with what is stored and counts the outcome.
    pub fn decide(&mut self, c: &PhotoCandidate, existing: &Option<StoredPhoto>) -> (d: UpsertDecision)
        requires
            old(self).new_count < i64::MAX,
            old(self).updated_count < i64::MAX,
            old(self).skipped_count < i64::MAX,
        ensures
            d == decision_for(*existing, *c),
            *existing is None ==> d == UpsertDecision::Insert,
            *existing matches Some(s) && opt_view(s.content_hash) != Some(c.content_hash@) ==> d
                == UpsertDecision::Update,
            *existing matches Some(s) && opt_view(s.modified_at_fs) != opt_view(c.modified_at_fs)
                ==> d == UpsertDecision::Update,
            decide_counts(*old(self), *final(self), d),
            final(self).processed_count == old(self).processed_count,
            final(self).failed_count == old(self).failed_count,
            final(self).auto_album_link_count == old(self).auto_album_link_count,
            final(self).last_scanned_path == old(self).last_scanned_path,
            final(self).last_scanned_storage_file_id == old(self).last_scanned_storage_file_id,
            final(self).last_scanned_modified_at == old(self).last_scanned_modified_at,
            final(self).last_scanned_content_hash == old(self).last_scanned_content_hash,
            final(self).new_count == old(self).new_count + if d == UpsertDecision::Insert {
                1int
            } else {
                0
            },
            final(self).updated_count == old(self).updated_count + if d == UpsertDecision::Update {
                1int
            } else {
                0
            },
            final(self).skipped_count == old(self).skipped_count + if d == UpsertDecision::Skip {
                1int
            } else {
                0
            },
    {
        match existing {
            None => {
                self.new_count = self.new_count + 1;
                UpsertDecision::Insert
            },
            Some(s) => {
                let same_time = opt_text_eq(&s.modified_at_fs, &c.modified_at_fs);
                let same_hash = match &s.content_hash {
                    Some(h) => same_text(h.as_str(), c.content_hash.as_str()),
                    None => false,
                };
                if same_time && same_hash {
                    self.skipped_count = self.skipped_count + 1;
                    UpsertDecision::Skip
                } else {
                    self.updated_count = self.updated_count + 1;
                    UpsertDecision::Update
                }
            },
        }
    }

    /// Counts a failure to write a candidate, or to link it to its album.
    pub fn note_failure(&mut self)
        requires
            old(self).failed_count < i64::MAX,
        ensures
            final(self).failed_count == old(self).failed_count + 1,
            final(self).processed_count == old(self).processed_count,
            final(self).new_count == old(self).new_count,
            final(self).updated_count == old(self).updated_count,
            final(self).skipped_count == old(self).skipped_count,
            final(self).auto_album_link_count == old(self).auto_album_link_count,
            final(self).last_scanned_path == old(self).last_scanned_path,
    {
        self.failed_count = self.failed_count + 1;
    }

    /// Counts a candidate linked to an album read from its directory.
    pub fn note_album_link(&mut self)
        requires
            old(self).auto_album_link_count < i64::MAX,
        ensures
            link_counts(*old(self), *final(self)),
            final(self).auto_album_link_count == old(self).auto_album_link_count + 1,
            final(self).failed_count == old(self).failed_count,
            final(self).processed_count == old(self).processed_count,
            final(self).new_count == old(self).new_count,
            final(self).updated_count == old(self).updated_count,
            final(self).skipped_count == old(self).skipped_count,
            final(self).last_scanned_path == old(self).last_scanned_path,
    {
        self.auto_album_link_count = self.auto_album_link_count + 1;
    }
}

/// The updated count a finished scan reports: the files stored again, and
/// the photos whose files were found missing and soft-deleted.
pub fn reported_updated_count(tally: &ScanTally, soft_deleted: u64) -> (r: i64)
    requires
        0 <= tally.updated_count,
        tally.updated_count + soft_deleted <= i64::MAX,
    ensures
        r == tally.updated_count + soft_deleted,
{
    tally.updated_count + soft_deleted as i64
}

/// The total a finished scan reports: every candidate and every file that
/// could not be read.
pub fn scan_total_count(candidates: usize, collect_failed: i64) -> (r: i64)
    requires
        0 <= collect_failed,
        candidates + collect_failed <= i64::MAX,
    ensures
        r == candidates + collect_failed,
{
    candidates as i64 + collect_failed
}

/// Why a scan stopped early.
#[derive(Debug, Clone, Copy, PartialEq, Eq, Structural)]
pub enum CancelPoint {
    /// Cancelled before any candidate was stored.
    BeforeUpsert,
    /// Cancelled while candidates were being stored.
    DuringRun,
}

pub open spec fn cancel_text(p: CancelPoint) -> Seq<char> {
    match p {
        CancelPoint::BeforeUpsert => "cancel requested before photo upsert"@,
        CancelPoint::DuringRun => "cancel requested during running"@,
    }
}

/// The message a cancelled scan job is closed with.
pub fn cancel_message(p: CancelPoint) -> (r: String)
    ensures
        r@ == cancel_text(p),
{
    match p {
        CancelPoint::BeforeUpsert => string_of("cancel requested before photo upsert"),
        CancelPoint::DuringRun => string_of("cancel requested during running"),
    }
}

pub open spec fn list_failure_text(root: Seq<char>, err: Seq<char>) -> Seq<char> {
    "failed to list source entries at "@ + root + ": "@ + err
}

/// The message a scan fails with when its source cannot be listed.
pub fn list_failure_message(root: &str, err: &str) -> (r: String)
    ensures
        r@ == list_failure_text(root@, err@),
{
    let mut m = string_of("failed to list source entries at ");
    append_str(&mut m, root);
    append_str(&mut m, ": ");
    append_str(&mut m, err);
    m
}

/// A scan job runs unless it was cancelled before it started.
pub fn scan_should_start(current_status: &Option<String>) -> (r: bool)
    ensures
        r == !(opt_view(*current_status) == Some("cancelled"@)),
{
    match current_status {
        Some(s) => !same_text(s.as_str(), "cancelled"),
        None => true,
    }
}


// ---------------------------------------------------------------------------
// What a source's scan state records
// ---------------------------------------------------------------------------

/// The scan state kept per source: the last scan's status and times, the
/// last file it reached, and its error.
#[derive(Debug, Clone)]
pub struct SourceScanState {
    pub status: String,
    pub last_scan_started_at: Option<String>,
    pub last_scan_finished_at: Option<String>,
    /// Where a later scan resumes; only an interrupted scan leaves one.
    pub last_scanned_path: Option<String>,
    pub last_scanned_storage_file_id: Option<String>,
    pub last_scanned_modified_at: Option<String>,
    pub last_scanned_content_hash: Option<String>,
    pub last_error_message: Option<String>,
}

/// How a scan of a source ended (or that it started).
#[derive(Debug, Clone)]
pub enum ScanOutcome {
    /// The scan started.
    Running,
    /// A pending job was cancelled before it started, for the reason given.
    CancelledBeforeStart(String),
    /// Cancelled before or while storing candidates.
    Cancelled(CancelPoint),
    /// Every candidate was visited; the first collect error, if any.
    Succeeded(Option<String>),
    /// The source could not be listed.
    Failed(String),
}

pub open spec fn outcome_status(o: ScanOutcome) -> Seq<char> {
    match o {
        ScanOutcome::Running => "running"@,
        ScanOutcome::CancelledBeforeStart(_) => "cancelled"@,
        ScanOutcome::Cancelled(_) => "cancelled"@,
        ScanOutcome::Succeeded(_) => "success"@,
        ScanOutcome::Failed(_) => "failed"@,
    }
}

pub open spec fn outcome_error(o: ScanOutcome) -> Option<Seq<char>> {
    match o {
        ScanOutcome::Running => None,
        ScanOutcome::CancelledBeforeStart(reason) => Some(reason@),
        ScanOutcome::Cancelled(p) => Some(cancel_text(p)),
        ScanOutcome::Succeeded(e) => opt_view(e),
        ScanOutcome::Failed(e) => Some(e@),
    }
}

/// The scan state to store: the tally's last file is kept only by a scan
/// cancelled while storing (a successful scan leaves no resume cursor).
pub fn source_state_for(
    outcome: &ScanOutcome,
    started_at: &Option<String>,
    finished_at: &Option<String>,
    tally: &ScanTally,
) -> (r: SourceScanState)
    ensures
        r.status@ == outcome_status(*outcome),
        opt_view(r.last_error_message) == outcome_error(*outcome),
        opt_view(r.last_scan_started_at) == opt_view(*started_at),
        opt_view(r.last_scan_finished_at) == opt_view(*finished_at),
        (*outcome matches ScanOutcome::Cancelled(CancelPoint::DuringRun)) ==> (opt_view(
            r.last_scanned_path,
        ) == opt_view(tally.last_scanned_path) && opt_view(r.last_scanned_storage_file_id)
            == opt_view(tally.last_scanned_storage_file_id) && opt_view(r.last_scanned_modified_at)
            == opt_view(tally.last_scanned_modified_at) && opt_view(r.last_scanned_content_hash)
            == opt_view(tally.last_scanned_content_hash)),
        (*outcome matches ScanOutcome::Succeeded(_)) ==> (r.last_scanned_path is None && opt_view(
            r.last_scanned_storage_file_id,
        ) == opt_view(tally.last_scanned_storage_file_id) && opt_view(r.last_scanned_modified_at)
            == opt_view(tally.last_scanned_modified_at) && opt_view(r.last_scanned_content_hash)
            == opt_view(tally.last_scanned_content_hash)),
        !(*outcome matches ScanOutcome::Cancelled(CancelPoint::DuringRun)) && !(
        *outcome matches ScanOutcome::Succeeded(_)) ==> (r.last_scanned_path is None
            && r.last_scanned_storage_file_id is None && r.last_scanned_modified_at is None
            && r.last_scanned_content_hash is None),
{
    let (status, error) = match outcome {
        ScanOutcome::Running => (string_of("running"), None),
        ScanOutcome::CancelledBeforeStart(reason) => (string_of("cancelled"), Some(reason.clone())),
        ScanOutcome::Cancelled(p) => (string_of("cancelled"), Some(cancel_message(*p))),
        ScanOutcome::Succeeded(e) => (string_of("success"), opt_clone(e)),
        ScanOutcome::Failed(e) => (string_of("failed"), Some(e.clone())),
    };
    let keep_all = match outcome {
        ScanOutcome::Cancelled(CancelPoint::DuringRun) => true,
        _ => false,
    };
    let keep_details = match outcome {
        ScanOutcome::Cancelled(CancelPoint::DuringRun) => true,
        ScanOutcome::Succeeded(_) => true,
        _ => false,
    };
    SourceScanState {
        status,
        last_scan_started_at: opt_clone(started_at),
        last_scan_finished_at: opt_clone(finished_at),
        last_scanned_path: if keep_all {
            opt_clone(&tally.last_scanned_path)
        } else {
            None
        },
        last_scanned_storage_file_id: if keep_details {
            opt_clone(&tally.last_scanned_storage_file_id)
        } else {
            None
        },
        last_scanned_modified_at: if keep_details {
            opt_clone(&tally.last_scanned_modified_at)
        } else {
            None
        },
        last_scanned_content_hash: if keep_details {
            opt_clone(&tally.last_scanned_content_hash)
        } else {
            None
        },
        last_error_message: error,
    }
}

/// The resume cursor a scan starts from: the stored one, when resuming is
/// enabled.
pub fn resume_cursor_for(resume_enabled: bool, stored: Option<String>) -> (r: Option<String>)
    ensures
        opt_view(r) == if resume_enabled {
            opt_view(stored)
        } else {
            None
        },
{
    if resume_enabled {
        stored
    } else {
        None
    }
}

// ---------------------------------------------------------------------------
// Files that disappeared
// ---------------------------------------------------------------------------

/// A photo of the source as stored, not yet deleted.
#[derive(Debug, Clone)]
pub struct StoredRef {
    pub photo_id: String,
    pub storage_file_id: String,
}

pub open spec fn seen_in(candidates: Seq<PhotoCandidate>, storage_file_id: Seq<char>) -> bool {
    exists|j: int| 0 <= j < candidates.len() && candidates[j].storage_file_id@ == storage_file_id
}

/// The stored photos that a complete scan no longer found, in order.
pub open spec fn missing_refs(stored: Seq<StoredRef>, candidates: Seq<PhotoCandidate>) -> Seq<StoredRef>
    decreases stored.len(),
{
    if stored.len() == 0 {
        Seq::empty()
    } else {
        let rest = missing_refs(stored.drop_last(), candidates);
        if seen_in(candidates, stored.last().storage_file_id@) {
            rest
        } else {
            rest.push(stored.last())
        }
    }
}

/// After a complete scan, a stored photo is marked deleted exactly when no
/// file that the scan found has its storage identifier: the photos left
/// are those of the files found.
pub proof fn law_missing_refs_exact(stored: Seq<StoredRef>, candidates: Seq<PhotoCandidate>, r: StoredRef)
    ensures
        missing_refs(stored, candidates).contains(r) <==> (stored.contains(r) && !seen_in(
            candidates,
            r.storage_file_id@,
        )),
    decreases stored.len(),
{
    if stored.len() > 0 {
        let rest = stored.drop_last();
        law_missing_refs_exact(rest, candidates, r);
        assert(stored =~= rest.push(stored.last()));
        if stored.contains(r) && r != stored.last() {
            let k = choose|k: int| 0 <= k < stored.len() && stored[k] == r;
            assert(k < rest.len());
            assert(rest[k] == r);
        }
        if rest.contains(r) {
            let k = choose|k: int| 0 <= k < rest.len() && rest[k] == r;
            assert(stored[k] == r);
        }
        if r == stored.last() {
            assert(stored[stored.len() - 1] == r);
        }
        let m = missing_refs(stored, candidates);
        let mr = missing_refs(rest, candidates);
        if !seen_in(candidates, stored.last().storage_file_id@) {
            assert(m == mr.push(stored.last()));
            assert(m[mr.len() as int] == stored.last());
            if mr.contains(r) {
                let k = choose|k: int| 0 <= k < mr.len() && mr[k] == r;
                assert(m[k] == r);
            }
            if m.contains(r) && r != stored.last() {
                let k = choose|k: int| 0 <= k < m.len() && m[k] == r;
                assert(k < mr.len());
                assert(mr[k] == r);
            }
        }
    }
}

/// A rescan of an unchanged source changes nothing: when every file found
/// is stored unchanged and every stored photo's file is found again, every
/// file is skipped and no photo is marked deleted.
pub proof fn law_unchanged_rescan_changes_nothing(
    stored: Seq<StoredRef>,
    candidates: Seq<PhotoCandidate>,
    existing: Seq<Option<StoredPhoto>>,
)
    requires
        existing.len() == candidates.len(),
        forall|i: int|
            0 <= i < candidates.len() ==> (#[trigger] existing[i] matches Some(s) && unchanged(
                s,
                candidates[i],
            )),
        forall|k: int| 0 <= k < stored.len() ==> seen_in(candidates, #[trigger] stored[k].storage_file_id@),
    ensures
        forall|i: int|
            0 <= i < candidates.len() ==> #[trigger] decision_for(existing[i], candidates[i])
                == UpsertDecision::Skip,
        missing_refs(stored, candidates).len() == 0,
    decreases stored.len(),
{
    assert forall|i: int| 0 <= i < candidates.len() implies #[trigger] decision_for(
        existing[i],
        candidates[i],
    ) == UpsertDecision::Skip by {
        assert(existing[i] matches Some(s) && unchanged(s, candidates[i]));
    }
    if stored.len() > 0 {
        let rest = stored.drop_last();
        assert forall|k: int| 0 <= k < rest.len() implies seen_in(
            candidates,
            #[trigger] rest[k].storage_file_id@,
        ) by {
            assert(rest[k] == stored[k]);
        }
        law_unchanged_rescan_changes_nothing(rest, candidates, existing);
        assert(seen_in(candidates, stored[stored.len() - 1].storage_file_id@));
    }
}

/// The counts of a rescan in which every file is skipped: starting from
/// nothing counted, after `n` files taken up and found unchanged, no file
/// is new or updated and all `n` are skipped and processed (so the job
/// reports the same processed count as the scan before it, and no update).
pub proof fn law_unchanged_rescan_counts(ts: Seq<ScanTally>, begun: Seq<ScanTally>)
    requires
        ts.len() == begun.len() + 1,
        ts[0].processed_count == 0,
        ts[0].new_count == 0,
        ts[0].updated_count == 0,
        ts[0].skipped_count == 0,
        forall|i: int|
            0 <= i < begun.len() ==> begin_counts(ts[i], #[trigger] begun[i]) && decide_counts(
                begun[i],
                ts[i + 1],
                UpsertDecision::Skip,
            ),
    ensures
        ts.last().new_count == 0,
        ts.last().updated_count == 0,
        ts.last().skipped_count == begun.len(),
        ts.last().processed_count == begun.len(),
    decreases begun.len(),
{
    if begun.len() > 0 {
        let k = begun.len() - 1;
        let ts0 = ts.drop_last();
        let b0 = begun.drop_last();
        assert forall|i: int| 0 <= i < b0.len() implies begin_counts(ts0[i], #[trigger] b0[i])
            && decide_counts(b0[i], ts0[i + 1], UpsertDecision::Skip) by {
            assert(b0[i] == begun[i]);
            assert(ts0[i] == ts[i]);
            assert(ts0[i + 1] == ts[i + 1]);
        }
        law_unchanged_rescan_counts(ts0, b0);
        assert(ts0.last() == ts[k]);
        assert(begin_counts(ts[k], begun[k]));
        assert(decide_counts(begun[k], ts[k + 1], UpsertDecision::Skip));
    }
}

fn seen_exec(candidates: &Vec<PhotoCandidate>, id: &String) -> (r: bool)
    ensures
        r == seen_in(candidates@, id@),
{
    let mut j: usize = 0;
    while j < candidates.len()
        invariant
            j <= candidates.len(),
            forall|k: int| 0 <= k < j ==> candidates@[k].storage_file_id@ != id@,
        decreases candidates.len() - j,
    {
        if same_text(candidates[j].storage_file_id.as_str(), id.as_str()) {
            return true;
        }
        j += 1;
    }
    false
}

/// The photos to mark deleted after a scan: none after a resumed scan
/// (it saw only part of the source); after a complete scan, the stored
/// photos whose files were not found. Each is counted as an update.
pub fn photos_to_soft_delete(
    resumed: bool,
    stored: &Vec<StoredRef>,
    candidates: &Vec<PhotoCandidate>,
) -> (r: Vec<String>)
    ensures
        resumed ==> r@.len() == 0,
        !resumed ==> r@.len() == missing_refs(stored@, candidates@).len(),
        !resumed ==> forall|i: int|
            0 <= i < r@.len() ==> #[trigger] r@[i]@ == missing_refs(stored@, candidates@)[i].photo_id@,
{
    let mut out: Vec<String> = Vec::new();
    if resumed {
        return out;
    }
    let mut i: usize = 0;
    while i < stored.len()
        invariant
            i <= stored.len(),
            out@.len() == missing_refs(stored@.subrange(0, i as int), candidates@).len(),
            forall|k: int|
                0 <= k < out@.len() ==> #[trigger] out@[k]@ == missing_refs(
                    stored@.subrange(0, i as int),
                    candidates@,
                )[k].photo_id@,
        decreases stored.len() - i,
    {
        proof {
            assert(stored@.subrange(0, i + 1).drop_last() =~= stored@.subrange(0, i as int));
        }
        let ghost before = out@;
        if !seen_exec(candidates, &stored[i].storage_file_id) {
            out.push(stored[i].photo_id.clone());
        }
        i += 1;
        proof {
            assert forall|k: int| 0 <= k < out@.len() implies #[trigger] out@[k]@ == missing_refs(
                stored@.subrange(0, i as int),
                candidates@,
            )[k].photo_id@ by {
                if k < before.len() {
                    assert(out@[k] == before[k]);
                }
            }
        }
    }
    proof {
        assert(stored@.subrange(0, stored@.len() as int) =~= stored@);
    }
    out
}

} // verus!
