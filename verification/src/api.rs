//! The RPC surface: response envelopes, requests, their validation, and
//! the filters that searches and listings apply.

use vstd::prelude::*;
use crate::digest::sha256_hex_text;
use crate::models::{build_album_id, source_id_for, text_of, Album, Source};
use crate::paths::opt_view;
use crate::text::{
    append_str, chars_of, lower_seq, range_eq_str, string_from_range, string_of, to_lower_chars, trim_seq,
    trimmed, is_blank, seq_eq,
};

verus! {

/// The envelope of every answer: `code` 0 and message `ok` on success.
#[derive(Debug)]
pub struct ApiResponse<T> {
    pub code: i32,
    pub message: String,
    pub data: T,
}

impl<T> ApiResponse<T> {
    pub fn ok(data: T) -> (r: Self)
        ensures
            r.code == 0,
            r.message@ == "ok"@,
            r.data == data,
    {
        ApiResponse { code: 0, message: string_of("ok"), data }
    }
}

/// A refused or failed request: the HTTP status and the envelope code are
/// equal (400 or 500).
#[derive(Debug, Clone)]
pub struct ApiError {
    pub status: u16,
    pub code: i32,
    pub message: String,
}

impl ApiError {
    pub fn bad_request(message: &str) -> (r: Self)
        ensures
            r.status == 400,
            r.code == 400,
            r.message@ == message@,
    {
        ApiError { status: 400, code: 400, message: string_of(message) }
    }

    pub fn internal(message: String) -> (r: Self)
        ensures
            r.status == 500,
            r.code == 500,
            r.message == message,
    {
        ApiError { status: 500, code: 500, message }
    }

    /// A failed database operation.
    pub fn db_error(operation: &str, error: &str) -> (r: Self)
        ensures
            r.status == 500,
            r.code == 500,
            r.message@ == "db error at "@ + operation@ + ": "@ + error@,
    {
        let mut m = string_of("db error at ");
        append_str(&mut m, operation);
        append_str(&mut m, ": ");
        append_str(&mut m, error);
        ApiError { status: 500, code: 500, message: m }
    }
}

#[derive(Debug, Clone)]
pub struct CreateSourceRequest {
    pub name: String,
    pub root_path: String,
    pub source_type: Option<String>,
}

#[derive(Debug, Clone)]
pub struct PhotoSearchRequest {
    pub keyword: Option<String>,
    pub page: Option<i64>,
    pub page_size: Option<i64>,
    pub album_id: Option<String>,
    pub source_id: Option<String>,
    pub start_time: Option<String>,
    pub end_time: Option<String>,
    pub order: Option<String>,
}

#[derive(Debug, Clone)]
pub struct PagedData<T> {
    pub total: i64,
    pub page: i64,
    pub page_size: i64,
    pub items: Vec<T>,
}

#[derive(Debug, Clone)]
pub struct CreateAlbumRequest {
    pub name: String,
    pub remark: Option<String>,
    pub auto_created: Option<bool>,
    pub album_date: Option<String>,
    pub rule_key: Option<String>,
}

#[derive(Debug, Clone)]
pub struct ScanTriggerResponse {
    pub job_id: String,
}

// ---------------------------------------------------------------------------
// Paging
// ---------------------------------------------------------------------------

/// A page of a listing: pages count from one, sizes from 1 to 500.
#[derive(Debug, Clone, Copy, PartialEq, Eq)]
pub struct Pagination {
    pub page: i64,
    pub page_size: i64,
    pub offset: i64,
}

pub open spec fn page_of(page: Option<i64>) -> int {
    match page {
        Some(p) => if p < 1 {
            1
        } else {
            p as int
        },
        None => 1,
    }
}

pub open spec fn page_size_of(size: Option<i64>) -> int {
    match size {
        Some(s) => if s < 1 {
            1
        } else if s > 500 {
            500
        } else {
            s as int
        },
        None => 100,
    }
}

/// The offset of the page fits an `i64`.
pub open spec fn page_offset_fits(page: Option<i64>, size: Option<i64>) -> bool {
    (page_of(page) - 1) * page_size_of(size) <= i64::MAX
}

/// Whether the offset of a page fits an `i64`.
pub fn pagination_fits(page: Option<i64>, page_size: Option<i64>) -> (r: bool)
    ensures
        r == page_offset_fits(page, page_size),
{
    let p: i64 = match page {
        Some(p) => if p < 1 {
            1
        } else {
            p
        },
        None => 1,
    };
    let s: i64 = match page_size {
        Some(s) => if s < 1 {
            1
        } else if s > 500 {
            500
        } else {
            s
        },
        None => 100,
    };
    proof {
        let q = i64::MAX / s;
        vstd::arithmetic::div_mod::lemma_fundamental_div_mod(i64::MAX as int, s as int);
        let rm = (i64::MAX as int) % (s as int);
        assert(((p - 1) <= q) == ((p - 1) * s <= i64::MAX)) by (nonlinear_arith)
            requires
                s >= 1,
                p >= 1,
                i64::MAX == s * q + rm,
                0 <= rm < s,
        ;
    }
    (p - 1) <= i64::MAX / s
}

/// Page 1 and 100 items unless asked otherwise; the offset skips the pages
/// before.
pub fn normalize_pagination(page: Option<i64>, page_size: Option<i64>) -> (r: Pagination)
    requires
        page_offset_fits(page, page_size),
    ensures
        r.page == page_of(page),
        r.page_size == page_size_of(page_size),
        r.offset == (page_of(page) - 1) * page_size_of(page_size),
{
    let p: i64 = match page {
        Some(p) => if p < 1 {
            1
        } else {
            p
        },
        None => 1,
    };
    let s: i64 = match page_size {
        Some(s) => if s < 1 {
            1
        } else if s > 500 {
            500
        } else {
            s
        },
        None => 100,
    };
    Pagination { page: p, page_size: s, offset: (p - 1) * s }
}

// ---------------------------------------------------------------------------
// Query filters
// ---------------------------------------------------------------------------

/// A piece of a query: SQL text, or a value bound to a parameter.
#[derive(Debug, Clone)]
pub enum SqlPiece {
    Text(String),
    Bind(String),
}

/// The view of a query piece.
pub enum PieceView {
    Text(Seq<char>),
    Bind(Seq<char>),
}

pub open spec fn piece_view(p: SqlPiece) -> PieceView {
    match p {
        SqlPiece::Text(t) => PieceView::Text(t@),
        SqlPiece::Bind(b) => PieceView::Bind(b@),
    }
}

pub open spec fn pieces_view(v: Seq<SqlPiece>) -> Seq<PieceView> {
    v.map_values(|p: SqlPiece| piece_view(p))
}

/// The text after `prefix` in a keyword, trimmed, where the keyword starts
/// with `prefix` and the rest is not blank.
pub open spec fn prefixed_value(k: Seq<char>, prefix: Seq<char>) -> Option<Seq<char>> {
    if k.len() >= prefix.len() && k.take(prefix.len() as int) == prefix && trim_seq(
        k.skip(prefix.len() as int),
    ).len() > 0 {
        Some(trim_seq(k.skip(prefix.len() as int)))
    } else {
        None
    }
}

/// The album name a keyword `album:<name>` asks for (trimmed, not empty).
pub open spec fn album_keyword(k: Seq<char>) -> Option<Seq<char>> {
    prefixed_value(k, "album:"@)
}

/// The EXIF text a keyword `exif:<text>` asks for (trimmed, not empty).
pub open spec fn exif_keyword(k: Seq<char>) -> Option<Seq<char>> {
    prefixed_value(k, "exif:"@)
}

/// A keyword matches the file name, path, remark or EXIF data of a photo;
/// the keyword `album:<name>` matches the photos of the albums whose name
/// holds `name`, and `exif:<text>` the photos whose EXIF data holds `text`.
pub open spec fn keyword_pieces(k: Seq<char>) -> Seq<PieceView> {
    if k.len() == 0 {
        Seq::empty()
    } else if album_keyword(k) is Some {
        seq![
            PieceView::Text(
                " AND EXISTS (SELECT 1 FROM photo_albums pk INNER JOIN albums ak ON ak.id = pk.album_id WHERE pk.photo_id = p.id AND ak.name LIKE "@,
            ),
            PieceView::Bind("%"@ + album_keyword(k)->0 + "%"@),
            PieceView::Text(")"@),
        ]
    } else if exif_keyword(k) is Some {
        seq![
            PieceView::Text(" AND IFNULL(p.exif_json, '') LIKE "@),
            PieceView::Bind("%"@ + exif_keyword(k)->0 + "%"@),
        ]
    } else {
        let like = "%"@ + k + "%"@;
        seq![
            PieceView::Text(" AND (p.file_name LIKE "@),
            PieceView::Bind(like),
            PieceView::Text(" OR p.file_path LIKE "@),
            PieceView::Bind(like),
            PieceView::Text(" OR IFNULL(p.remark, '') LIKE "@),
            PieceView::Bind(like),
            PieceView::Text(" OR IFNULL(p.exif_json, '') LIKE "@),
            PieceView::Bind(like),
            PieceView::Text(")"@),
        ]
    }
}

pub open spec fn album_pieces(a: Seq<char>) -> Seq<PieceView> {
    if a.len() == 0 {
        Seq::empty()
    } else {
        seq![
            PieceView::Text(
                " AND EXISTS (SELECT 1 FROM photo_albums pa WHERE pa.photo_id = p.id AND pa.album_id = "@,
            ),
            PieceView::Bind(a),
            PieceView::Text(")"@),
        ]
    }
}

pub open spec fn clause_pieces(value: Seq<char>, text: Seq<char>) -> Seq<PieceView> {
    if value.len() == 0 {
        Seq::empty()
    } else {
        seq![PieceView::Text(text), PieceView::Bind(value)]
    }
}

/// The conditions a photo search adds, for the given (trimmed) filters;
/// an empty filter adds nothing.
pub open spec fn photo_filter_pieces(
    keyword: Seq<char>,
    album_id: Seq<char>,
    source_id: Seq<char>,
    start_time: Seq<char>,
    end_time: Seq<char>,
) -> Seq<PieceView> {
    keyword_pieces(keyword) + album_pieces(album_id) + clause_pieces(
        source_id,
        " AND p.source_id = "@,
    ) + clause_pieces(start_time, " AND p.sort_time >= "@) + clause_pieces(
        end_time,
        " AND p.sort_time <= "@,
    )
}

/// The pieces hold the text `text` directly followed by the bound value
/// `value`.
pub open spec fn binds_after(pieces: Seq<PieceView>, text: Seq<char>, value: Seq<char>) -> bool {
    exists|i: int|
        0 <= i && i + 1 < pieces.len() && #[trigger] pieces[i] == PieceView::Text(text) && pieces[i
            + 1] == PieceView::Bind(value)
}

/// Each filter that is set narrows the search by its own condition, which
/// binds exactly the value given: an album id to the photos of that album,
/// a source id to the photos of that source, and the two times to the
/// bounds of the photos' time. With no filter set, nothing is added.
pub proof fn law_photo_filters_bind_each_filter(
    keyword: Seq<char>,
    album_id: Seq<char>,
    source_id: Seq<char>,
    start_time: Seq<char>,
    end_time: Seq<char>,
)
    ensures
        album_id.len() > 0 ==> binds_after(
            photo_filter_pieces(keyword, album_id, source_id, start_time, end_time),
            " AND EXISTS (SELECT 1 FROM photo_albums pa WHERE pa.photo_id = p.id AND pa.album_id = "@,
            album_id,
        ),
        source_id.len() > 0 ==> binds_after(
            photo_filter_pieces(keyword, album_id, source_id, start_time, end_time),
            " AND p.source_id = "@,
            source_id,
        ),
        start_time.len() > 0 ==> binds_after(
            photo_filter_pieces(keyword, album_id, source_id, start_time, end_time),
            " AND p.sort_time >= "@,
            start_time,
        ),
        end_time.len() > 0 ==> binds_after(
            photo_filter_pieces(keyword, album_id, source_id, start_time, end_time),
            " AND p.sort_time <= "@,
            end_time,
        ),
        keyword.len() == 0 && album_id.len() == 0 && source_id.len() == 0 && start_time.len() == 0
            && end_time.len() == 0 ==> photo_filter_pieces(
            keyword,
            album_id,
            source_id,
            start_time,
            end_time,
        ).len() == 0,
{
    let kp = keyword_pieces(keyword);
    let ap = album_pieces(album_id);
    let sp = clause_pieces(source_id, " AND p.source_id = "@);
    let tp = clause_pieces(start_time, " AND p.sort_time >= "@);
    let ep = clause_pieces(end_time, " AND p.sort_time <= "@);
    let all = photo_filter_pieces(keyword, album_id, source_id, start_time, end_time);
    assert(all == kp + ap + sp + tp + ep);
    if album_id.len() > 0 {
        let i: int = kp.len() as int;
        assert(all[i] == ap[0]);
        assert(all[i + 1] == ap[1]);
    }
    if source_id.len() > 0 {
        let i: int = (kp.len() + ap.len()) as int;
        assert(all[i] == sp[0]);
        assert(all[i + 1] == sp[1]);
    }
    if start_time.len() > 0 {
        let i: int = (kp.len() + ap.len() + sp.len()) as int;
        assert(all[i] == tp[0]);
        assert(all[i + 1] == tp[1]);
    }
    if end_time.len() > 0 {
        let i: int = (kp.len() + ap.len() + sp.len() + tp.len()) as int;
        assert(all[i] == ep[0]);
        assert(all[i + 1] == ep[1]);
    }
}

fn push_text(v: &mut Vec<SqlPiece>, t: &str)
    ensures
        pieces_view(final(v)@) == pieces_view(old(v)@).push(PieceView::Text(t@)),
{
    v.push(SqlPiece::Text(string_of(t)));
    proof {
        assert(pieces_view(v@) =~= pieces_view(old(v)@).push(PieceView::Text(t@)));
    }
}

fn push_bind(v: &mut Vec<SqlPiece>, b: String)
    ensures
        pieces_view(final(v)@) == pieces_view(old(v)@).push(PieceView::Bind(b@)),
{
    let ghost bv = b@;
    v.push(SqlPiece::Bind(b));
    proof {
        assert(pieces_view(v@) =~= pieces_view(old(v)@).push(PieceView::Bind(bv)));
    }
}

fn push_clause(v: &mut Vec<SqlPiece>, value: &str, text: &str)
    ensures
        pieces_view(final(v)@) == pieces_view(old(v)@) + clause_pieces(value@, text@),
{
    if value.unicode_len() > 0 {
        push_text(v, text);
        push_bind(v, string_of(value));
        proof {
            assert(pieces_view(v@) =~= pieces_view(old(v)@) + clause_pieces(value@, text@));
        }
    } else {
        proof {
            assert(pieces_view(v@) =~= pieces_view(old(v)@) + clause_pieces(value@, text@));
        }
    }
}

/// The text after `prefix` in a keyword (see `prefixed_value`).
fn prefixed_value_of(keyword: &str, prefix: &str) -> (r: Option<String>)
    ensures
        opt_view(r) == prefixed_value(keyword@, prefix@),
{
    let v = chars_of(keyword);
    let p = chars_of(prefix);
    let n = p.len();
    if v.len() < n || !range_eq_str(&v, 0, n, prefix) {
        proof {
            assert(v@.len() >= n ==> v@.take(n as int) =~= v@.subrange(0, n as int));
        }
        return None;
    }
    let rest = string_from_range(&v, n, v.len());
    let name = trimmed(rest.as_str());
    proof {
        assert(v@.take(n as int) =~= v@.subrange(0, n as int));
        assert(rest@ =~= keyword@.skip(n as int));
    }
    if name.unicode_len() == 0 {
        None
    } else {
        Some(name)
    }
}

/// The conditions of a photo search.
pub fn photo_search_filters(
    keyword: &str,
    album_id: &str,
    source_id: &str,
    start_time: &str,
    end_time: &str,
) -> (r: Vec<SqlPiece>)
    ensures
        pieces_view(r@) == photo_filter_pieces(keyword@, album_id@, source_id@, start_time@, end_time@),
        album_id@.len() > 0 ==> binds_after(
            pieces_view(r@),
            " AND EXISTS (SELECT 1 FROM photo_albums pa WHERE pa.photo_id = p.id AND pa.album_id = "@,
            album_id@,
        ),
        source_id@.len() > 0 ==> binds_after(pieces_view(r@), " AND p.source_id = "@, source_id@),
        start_time@.len() > 0 ==> binds_after(
            pieces_view(r@),
            " AND p.sort_time >= "@,
            start_time@,
        ),
        end_time@.len() > 0 ==> binds_after(pieces_view(r@), " AND p.sort_time <= "@, end_time@),
{
    let mut v: Vec<SqlPiece> = Vec::new();
    let album_name = prefixed_value_of(keyword, "album:");
    let exif_text = prefixed_value_of(keyword, "exif:");
    if let Some(name) = album_name {
        let mut like = string_of("%");
        append_str(&mut like, name.as_str());
        append_str(&mut like, "%");
        push_text(
            &mut v,
            " AND EXISTS (SELECT 1 FROM photo_albums pk INNER JOIN albums ak ON ak.id = pk.album_id WHERE pk.photo_id = p.id AND ak.name LIKE ",
        );
        push_bind(&mut v, like);
        push_text(&mut v, ")");
    } else if let Some(text) = exif_text {
        let mut like = string_of("%");
        append_str(&mut like, text.as_str());
        append_str(&mut like, "%");
        push_text(&mut v, " AND IFNULL(p.exif_json, '') LIKE ");
        push_bind(&mut v, like);
    } else if keyword.unicode_len() > 0 {
        let mut like = string_of("%");
        append_str(&mut like, keyword);
        append_str(&mut like, "%");
        push_text(&mut v, " AND (p.file_name LIKE ");
        push_bind(&mut v, like.clone());
        push_text(&mut v, " OR p.file_path LIKE ");
        push_bind(&mut v, like.clone());
        push_text(&mut v, " OR IFNULL(p.remark, '') LIKE ");
        push_bind(&mut v, like.clone());
        push_text(&mut v, " OR IFNULL(p.exif_json, '') LIKE ");
        push_bind(&mut v, like);
        push_text(&mut v, ")");
    }
    proof {
        assert(pieces_view(v@) =~= keyword_pieces(keyword@));
    }
    let ghost after_keyword = pieces_view(v@);
    if album_id.unicode_len() > 0 {
        push_text(
            &mut v,
            " AND EXISTS (SELECT 1 FROM photo_albums pa WHERE pa.photo_id = p.id AND pa.album_id = ",
        );
        push_bind(&mut v, string_of(album_id));
        push_text(&mut v, ")");
    }
    proof {
        assert(pieces_view(v@) =~= after_keyword + album_pieces(album_id@));
    }
    push_clause(&mut v, source_id, " AND p.source_id = ");
    push_clause(&mut v, start_time, " AND p.sort_time >= ");
    push_clause(&mut v, end_time, " AND p.sort_time <= ");
    proof {
        law_photo_filters_bind_each_filter(keyword@, album_id@, source_id@, start_time@, end_time@);
        assert(pieces_view(v@) =~= photo_filter_pieces(
            keyword@,
            album_id@,
            source_id@,
            start_time@,
            end_time@,
        ));
    }
    v
}

/// The conditions of a task listing, for the given (trimmed) filters.
pub fn task_job_filters(job_type: &str, status: &str) -> (r: Vec<SqlPiece>)
    ensures
        pieces_view(r@) == clause_pieces(job_type@, " AND tj.job_type = "@) + clause_pieces(
            status@,
            " AND tj.status = "@,
        ),
{
    let mut v: Vec<SqlPiece> = Vec::new();
    push_clause(&mut v, job_type, " AND tj.job_type = ");
    push_clause(&mut v, status, " AND tj.status = ");
    proof {
        assert(pieces_view(v@) =~= Seq::<PieceView>::empty() + clause_pieces(
            job_type@,
            " AND tj.job_type = "@,
        ) + clause_pieces(status@, " AND tj.status = "@));
    }
    v
}

/// The trimmed text of an optional filter (missing is empty).
pub fn trimmed_or_empty(v: &Option<String>) -> (r: String)
    ensures
        r@ == match v {
            Some(s) => trim_seq(s@),
            None => Seq::empty(),
        },
{
    match v {
        Some(s) => trimmed(s.as_str()),
        None => String::new(),
    }
}

/// The order of a photo search is newest first unless `asc` is asked for
/// (in any case).
pub fn order_is_desc(order: &Option<String>) -> (r: bool)
    ensures
        r == match order {
            Some(o) => lower_seq(o@) != "asc"@,
            None => true,
        },
{
    match order {
        None => true,
        Some(o) => {
            let v = chars_of(o.as_str());
            let low = to_lower_chars(&v);
            let asc = chars_of("asc");
            !seq_eq(&low, &asc)
        },
    }
}

// ---------------------------------------------------------------------------
// Validating requests
// ---------------------------------------------------------------------------

pub open spec fn blank(s: Seq<char>) -> bool {
    trim_seq(s).len() == 0
}

/// A new source: its name and root path trimmed, `local_fs` unless a type
/// is given, enabled, identified by the digest of the root path as given.
pub fn plan_create_source(req: &CreateSourceRequest, now: &str) -> (r: Result<Source, ApiError>)
    ensures
        blank(req.name@) || blank(req.root_path@) ==> (r matches Err(e) && e.status == 400 && e.code == 400
            && e.message@ == "name/root_path 不能为空"@),
        !blank(req.name@) && !blank(req.root_path@) ==> (r matches Ok(s) && s.id@
            == sha256_hex_text(req.root_path@) && s.name@ == trim_seq(req.name@) && s.root_path@
            == trim_seq(req.root_path@) && s.source_type@ == match req.source_type {
            Some(t) => t@,
            None => "local_fs"@,
        } && s.enabled && s.created_at@ == now@ && s.updated_at@ == now@),
{
    if is_blank(req.name.as_str()) || is_blank(req.root_path.as_str()) {
        return Err(ApiError::bad_request("name/root_path 不能为空"));
    }
    let source_type = match &req.source_type {
        Some(t) => t.clone(),
        None => string_of("local_fs"),
    };
    Ok(
        Source {
            id: source_id_for(req.root_path.as_str()),
            name: trimmed(req.name.as_str()),
            root_path: trimmed(req.root_path.as_str()),
            source_type,
            enabled: true,
            created_at: string_of(now),
            updated_at: string_of(now),
        },
    )
}

pub open spec fn opt_str_view(o: Option<String>) -> Option<Seq<char>> {
    opt_view(o)
}

/// A new album: its name trimmed, identified by the digest of its name,
/// date and `<time>:<name>`; no cover yet.
pub fn plan_create_album(req: &CreateAlbumRequest, now: &str) -> (r: Result<Album, ApiError>)
    ensures
        blank(req.name@) ==> (r matches Err(e) && e.status == 400 && e.code == 400 && e.message@
            == "album name 不能为空"@),
        !blank(req.name@) ==> (r matches Ok(a) && a.id@ == sha256_hex_text(
            trim_seq(req.name@) + ":"@ + match req.album_date {
                Some(d) => d@,
                None => Seq::empty(),
            } + ":"@ + (now@ + ":"@ + trim_seq(req.name@)),
        ) && a.name@ == trim_seq(req.name@) && opt_view(a.remark) == opt_view(req.remark)
            && a.cover_photo_id is None && a.auto_created == match req.auto_created {
            Some(b) => b,
            None => false,
        } && opt_view(a.album_date) == opt_view(req.album_date) && opt_view(a.rule_key)
            == opt_view(req.rule_key) && a.created_at@ == now@ && a.updated_at@ == now@),
{
    if is_blank(req.name.as_str()) {
        return Err(ApiError::bad_request("album name 不能为空"));
    }
    let name = trimmed(req.name.as_str());
    let mut salt = string_of(now);
    append_str(&mut salt, ":");
    append_str(&mut salt, name.as_str());
    let id = match &req.album_date {
        Some(d) => build_album_id(name.as_str(), Some(d.as_str()), salt.as_str()),
        None => build_album_id(name.as_str(), None, salt.as_str()),
    };
    let auto_created = match req.auto_created {
        Some(b) => b,
        None => false,
    };
    Ok(
        Album {
            id,
            name,
            remark: clone_opt(&req.remark),
            cover_photo_id: None,
            auto_created,
            album_date: clone_opt(&req.album_date),
            rule_key: clone_opt(&req.rule_key),
            created_at: string_of(now),
            updated_at: string_of(now),
        },
    )
}

fn clone_opt(o: &Option<String>) -> (r: Option<String>)
    ensures
        opt_view(r) == opt_view(*o),
{
    match o {
        Some(s) => Some(s.clone()),
        None => None,
    }
}

/// The first check of an album update: something must change. Returns
/// whether the current name has to be looked up (no new name is given).
pub fn check_album_update(name: &Option<String>, remark: &Option<String>) -> (r: Result<bool, ApiError>)
    ensures
        name is None && remark is None ==> (r matches Err(e) && e.status == 400 && e.code == 400 && e.message@
            == "name/remark 至少一个字段需要更新"@),
        !(name is None && remark is None) ==> r == Ok::<bool, ApiError>(name is None),
{
    if name.is_none() && remark.is_none() {
        return Err(ApiError::bad_request("name/remark 至少一个字段需要更新"));
    }
    Ok(name.is_none())
}

/// The name an album update writes: the new name, else the current one
/// (the album must exist); trimmed and not blank.
pub fn final_album_name(name: &Option<String>, current_name: &Option<String>) -> (r: Result<String, ApiError>)
    ensures
        name is None && current_name is None ==> (r matches Err(e) && e.status == 400 && e.code == 400 && e.message@
            == "album 不存在"@),
        match name {
            Some(n) => Some(n@),
            None => opt_view(*current_name),
        } matches Some(f) ==> (if blank(f) {
            r matches Err(e) && e.status == 400 && e.code == 400 && e.message@ == "album name 不能为空"@
        } else {
            r matches Ok(t) && t@ == trim_seq(f)
        }),
{
    let chosen = match name {
        Some(n) => n,
        None => match current_name {
            Some(c) => c,
            None => return Err(ApiError::bad_request("album 不存在")),
        },
    };
    if is_blank(chosen.as_str()) {
        return Err(ApiError::bad_request("album name 不能为空"));
    }
    Ok(trimmed(chosen.as_str()))
}

/// A batch needs at least one photo.
pub fn check_photo_ids(photo_ids: &Vec<String>) -> (r: Result<(), ApiError>)
    ensures
        photo_ids@.len() == 0 ==> (r matches Err(e) && e.status == 400 && e.code == 400 && e.message@
            == "photo_ids 不能为空"@),
        photo_ids@.len() > 0 ==> r is Ok,
{
    if photo_ids.len() == 0 {
        Err(ApiError::bad_request("photo_ids 不能为空"))
    } else {
        Ok(())
    }
}

/// A batch added to an album needs photos and an album.
pub fn check_add_to_album(photo_ids: &Vec<String>, album_id: &str) -> (r: Result<(), ApiError>)
    ensures
        photo_ids@.len() == 0 ==> (r matches Err(e) && e.status == 400 && e.code == 400 && e.message@ == "photo_ids 不能为空"@),
        photo_ids@.len() > 0 && blank(album_id@) ==> (r matches Err(e) && e.status == 400 && e.code == 400
            && e.message@ == "album_id 不能为空"@),
        photo_ids@.len() > 0 && !blank(album_id@) ==> r is Ok,
{
    check_photo_ids(photo_ids)?;
    if is_blank(album_id) {
        return Err(ApiError::bad_request("album_id 不能为空"));
    }
    Ok(())
}

/// A cover must name a photo.
pub fn check_cover_photo_id(cover_photo_id: &str) -> (r: Result<String, ApiError>)
    ensures
        blank(cover_photo_id@) ==> (r matches Err(e) && e.status == 400 && e.code == 400 && e.message@
            == "cover_photo_id 不能为空"@),
        !blank(cover_photo_id@) ==> (r matches Ok(t) && t@ == trim_seq(cover_photo_id@)),
{
    if is_blank(cover_photo_id) {
        return Err(ApiError::bad_request("cover_photo_id 不能为空"));
    }
    Ok(trimmed(cover_photo_id))
}

/// A file-system watch trigger needs changed paths.
pub fn check_changed_paths(changed_paths: &Vec<String>) -> (r: Result<(), ApiError>)
    ensures
        changed_paths@.len() == 0 ==> (r matches Err(e) && e.status == 400 && e.code == 400 && e.message@
            == "changed_paths 不能为空"@),
        changed_paths@.len() > 0 ==> r is Ok,
{
    if changed_paths.len() == 0 {
        Err(ApiError::bad_request("changed_paths 不能为空"))
    } else {
        Ok(())
    }
}

/// What a file-system watch trigger does once it is accepted.
#[derive(Debug, Clone)]
pub enum FsWatchPlan {
    /// A file-watch scan of the source is already pending or running: its
    /// job answers the trigger.
    Reuse(String),
    /// Queue and start a new file-watch scan.
    Start,
}

/// The answer to a file-system watch trigger: refused without changed
/// paths, for a missing source and for a disabled one; otherwise the
/// active file-watch scan job of the source, if there is one, is reused,
/// and else a new scan is started.
pub fn fs_watch_plan(
    changed_paths: &Vec<String>,
    source_enabled: Option<bool>,
    active_fs_watch_job: Option<String>,
) -> (r: Result<FsWatchPlan, ApiError>)
    ensures
        changed_paths@.len() == 0 ==> (r matches Err(e) && e.status == 400 && e.code == 400
            && e.message@ == "changed_paths 不能为空"@),
        changed_paths@.len() > 0 && source_enabled is None ==> (r matches Err(e) && e.status == 400
            && e.code == 400 && e.message@ == "source 不存在"@),
        changed_paths@.len() > 0 && source_enabled == Some(false) ==> (r matches Err(e) && e.status
            == 400 && e.code == 400 && e.message@ == "source 已禁用，无法扫描"@),
        changed_paths@.len() > 0 && source_enabled == Some(true) ==> match active_fs_watch_job {
            Some(id) => r matches Ok(FsWatchPlan::Reuse(j)) && j@ == id@,
            None => r matches Ok(FsWatchPlan::Start),
        },
{
    check_changed_paths(changed_paths)?;
    match source_enabled {
        None => Err(ApiError::bad_request("source 不存在")),
        Some(false) => Err(ApiError::bad_request("source 已禁用，无法扫描")),
        Some(true) => match active_fs_watch_job {
            Some(id) => Ok(FsWatchPlan::Reuse(id)),
            None => Ok(FsWatchPlan::Start),
        },
    }
}

/// The sum of the rows each statement of a batch affected.
pub open spec fn sum_affected(rows: Seq<u64>) -> int
    decreases rows.len(),
{
    if rows.len() == 0 {
        0
    } else {
        sum_affected(rows.drop_last()) + rows.last()
    }
}

pub fn total_affected(rows: &Vec<u64>) -> (r: i64)
    requires
        sum_affected(rows@) <= i64::MAX,
        forall|i: int| 0 <= i < rows@.len() ==> #[trigger] rows@[i] <= i64::MAX,
    ensures
        r == sum_affected(rows@),
{
    let mut total: i64 = 0;
    let mut i: usize = 0;
    while i < rows.len()
        invariant
            i <= rows.len(),
            sum_affected(rows@) <= i64::MAX,
            forall|k: int| 0 <= k < rows@.len() ==> #[trigger] rows@[k] <= i64::MAX,
            total == sum_affected(rows@.subrange(0, i as int)),
        decreases rows.len() - i,
    {
        proof {
            assert(rows@.subrange(0, i + 1).drop_last() =~= rows@.subrange(0, i as int));
            lemma_sum_affected_prefix(rows@, i + 1);
        }
        total = total + rows[i] as i64;
        i += 1;
    }
    proof {
        assert(rows@.subrange(0, rows@.len() as int) =~= rows@);
    }
    total
}

proof fn lemma_sum_affected_prefix(rows: Seq<u64>, k: int)
    requires
        0 <= k <= rows.len(),
    ensures
        sum_affected(rows.subrange(0, k)) <= sum_affected(rows),
    decreases rows.len() - k,
{
    if k < rows.len() {
        lemma_sum_affected_prefix(rows, k + 1);
        assert(rows.subrange(0, k + 1).drop_last() =~= rows.subrange(0, k));
    } else {
        assert(rows.subrange(0, k) =~= rows);
    }
}

/// Whether a listing of active tasks includes every daemon (the default).
pub fn include_all_daemon_or_default(v: Option<bool>) -> (r: bool)
    ensures
        r == match v {
            Some(b) => b,
            None => true,
        },
{
    match v {
        Some(b) => b,
        None => true,
    }
}

} // verus!
