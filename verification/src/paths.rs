//! Unix path text: joining, relativity, `~` expansion, components.

use vstd::prelude::*;
use crate::text::{append_str, chars_of, push_char, seq_eq, string_from_range, string_of};

verus! {

pub open spec fn starts_with_slash(p: Seq<char>) -> bool {
    p.len() > 0 && p[0] == '/'
}

/// `Path::is_relative`.
pub open spec fn is_relative_path(p: Seq<char>) -> bool {
    !starts_with_slash(p)
}

/// `Path::join`: an absolute `p` replaces `base`; otherwise `p` is added
/// after a separator, unless `base` is empty or already ends in one.
pub open spec fn join_path(base: Seq<char>, p: Seq<char>) -> Seq<char> {
    if starts_with_slash(p) {
        p
    } else if base.len() == 0 || base.last() == '/' {
        base + p
    } else {
        base + seq!['/'] + p
    }
}

pub fn path_is_relative(p: &str) -> (r: bool)
    ensures
        r == is_relative_path(p@),
{
    let v = chars_of(p);
    !(v.len() > 0 && v[0] == '/')
}

pub fn join(base: &str, p: &str) -> (r: String)
    ensures
        r@ == join_path(base@, p@),
{
    let vb = chars_of(base);
    let vp = chars_of(p);
    if vp.len() > 0 && vp[0] == '/' {
        return string_of(p);
    }
    let mut r = string_of(base);
    if !(vb.len() == 0 || vb[vb.len() - 1] == '/') {
        push_char(&mut r, '/');
    }
    append_str(&mut r, p);
    r
}

/// `~`, `~/rest` or `~\rest`: the part after the tilde and separator.
pub open spec fn tilde_rest(raw: Seq<char>) -> Option<Seq<char>> {
    if raw == seq!['~'] {
        Some(Seq::empty())
    } else if raw.len() >= 2 && raw[0] == '~' && (raw[1] == '/' || raw[1] == '\\') {
        Some(raw.skip(2))
    } else {
        None
    }
}

pub fn strip_tilde_prefix(raw: &str) -> (r: Option<String>)
    ensures
        match r {
            Some(s) => tilde_rest(raw@) == Some(s@),
            None => tilde_rest(raw@) is None,
        },
{
    let v = chars_of(raw);
    if v.len() == 1 && v[0] == '~' {
        proof {
            assert(raw@ =~= seq!['~']);
        }
        return Some(String::new());
    }
    if v.len() >= 2 && v[0] == '~' && (v[1] == '/' || v[1] == '\\') {
        let s = string_from_range(&v, 2, v.len());
        proof {
            assert(v@.subrange(2, v@.len() as int) =~= raw@.skip(2));
        }
        return Some(s);
    }
    proof {
        if raw@ == seq!['~'] {
            assert(v@.len() == 1);
        }
    }
    None
}

/// A path with a leading `~` resolved against `home` (or left relative
/// when there is no home directory).
pub open spec fn expand_home(raw: Seq<char>, home: Option<Seq<char>>) -> Seq<char> {
    match tilde_rest(raw) {
        Some(rest) => match home {
            Some(h) => join_path(h, rest),
            None => rest,
        },
        None => raw,
    }
}

pub open spec fn opt_view(o: Option<String>) -> Option<Seq<char>> {
    match o {
        Some(s) => Some(s@),
        None => None,
    }
}

pub fn expand_user_home_path(raw: &str, home: &Option<String>) -> (r: String)
    ensures
        r@ == expand_home(raw@, opt_view(*home)),
{
    match strip_tilde_prefix(raw) {
        Some(rest) => match home {
            Some(h) => join(h.as_str(), rest.as_str()),
            None => rest,
        },
        None => string_of(raw),
    }
}

// ---------------------------------------------------------------------------
// Components
// ---------------------------------------------------------------------------

/// Index of the last `c` in `t[..j]`, or -1.
pub open spec fn last_index_before(t: Seq<char>, c: char, j: int) -> int
    decreases j,
{
    if j <= 0 || j > t.len() {
        -1
    } else if t[j - 1] == c {
        j - 1
    } else {
        last_index_before(t, c, j - 1)
    }
}

pub proof fn lemma_last_index_before(t: Seq<char>, c: char, j: int)
    requires
        0 <= j <= t.len(),
    ensures
        -1 <= last_index_before(t, c, j) < j,
        last_index_before(t, c, j) >= 0 ==> t[last_index_before(t, c, j)] == c,
        forall|k: int| last_index_before(t, c, j) < k < j ==> t[k] != c,
    decreases j,
{
    if j > 0 && t[j - 1] != c {
        lemma_last_index_before(t, c, j - 1);
    }
}

/// `t.split(c)`.
pub open spec fn split_on(t: Seq<char>, c: char) -> Seq<Seq<char>>
    decreases t.len(),
{
    let k = last_index_before(t, c, t.len() as int);
    if k < 0 || k >= t.len() {
        seq![t]
    } else {
        split_on(t.subrange(0, k), c).push(t.subrange(k + 1, t.len() as int))
    }
}

/// No piece of `t.split(c)` holds `c`.
pub proof fn lemma_split_on_pieces(t: Seq<char>, c: char)
    ensures
        forall|i: int, k: int|
            0 <= i < split_on(t, c).len() && 0 <= k < split_on(t, c)[i].len() ==> #[trigger] split_on(
                t,
                c,
            )[i][k] != c,
    decreases t.len(),
{
    lemma_last_index_before(t, c, t.len() as int);
    let k = last_index_before(t, c, t.len() as int);
    if k >= 0 && k < t.len() {
        let head = t.subrange(0, k);
        lemma_split_on_pieces(head, c);
        let prev = split_on(head, c);
        let tail = t.subrange(k + 1, t.len() as int);
        let cur = split_on(t, c);
        assert(cur == prev.push(tail));
        assert forall|i: int, m: int| 0 <= i < cur.len() && 0 <= m < cur[i].len() implies #[trigger] cur[i][m]
            != c by {
            if i < prev.len() {
                assert(cur[i] == prev[i]);
            } else {
                assert(cur[i] == tail);
                assert(tail[m] == t[k + 1 + m]);
            }
        }
    }
}

/// `t.split('/')`.
pub open spec fn split_slash(t: Seq<char>) -> Seq<Seq<char>> {
    split_on(t, '/')
}

/// A segment that `Path::components` keeps (empty segments and `.` are
/// normalized away).
pub open spec fn kept_segment(seg: Seq<char>) -> bool {
    seg.len() > 0 && seg != seq!['.']
}

pub open spec fn keep_segments(segs: Seq<Seq<char>>) -> Seq<Seq<char>>
    decreases segs.len(),
{
    if segs.len() == 0 {
        Seq::empty()
    } else if kept_segment(segs.last()) {
        keep_segments(segs.drop_last()).push(segs.last())
    } else {
        keep_segments(segs.drop_last())
    }
}

/// The named components of a path (normal names and `..`), in order.
pub open spec fn path_names(p: Seq<char>) -> Seq<Seq<char>> {
    keep_segments(split_slash(p))
}

/// Whether a relative path starts with a `.` component.
pub open spec fn leading_cur_dir(p: Seq<char>) -> bool {
    !starts_with_slash(p) && (p == seq!['.'] || (p.len() >= 2 && p[0] == '.' && p[1] == '/'))
}

/// `Path == Path`: equal component by component.
pub open spec fn same_path(a: Seq<char>, b: Seq<char>) -> bool {
    &&& starts_with_slash(a) == starts_with_slash(b)
    &&& leading_cur_dir(a) == leading_cur_dir(b)
    &&& path_names(a) == path_names(b)
}

/// `Path::parent` then `Path::file_name`: the name of the directory that
/// holds the last component, when that is a normal name.
pub open spec fn parent_dir_name(p: Seq<char>) -> Option<Seq<char>> {
    let c = path_names(p);
    if c.len() >= 2 && c[c.len() - 2] != seq!['.', '.'] {
        Some(c[c.len() - 2])
    } else {
        None
    }
}

pub proof fn lemma_split_step(t: Seq<char>, c: char, start: int, i: int)
    requires
        0 <= start <= i < t.len(),
        t[i] == c,
        forall|k: int| start <= k < i ==> t[k] != c,
        start > 0 ==> t[start - 1] == c,
    ensures
        split_on(t.subrange(0, i), c) == if start > 0 {
            split_on(t.subrange(0, start - 1), c).push(t.subrange(start, i))
        } else {
            seq![t.subrange(0, i)]
        },
{
    let u = t.subrange(0, i);
    lemma_last_index_before(u, c, i);
    let k = last_index_before(u, c, i);
    if start > 0 {
        assert(u[start - 1] == c);
        if k < start - 1 {
            assert(u[start - 1] != c);
        }
        if k > start - 1 {
            assert(u[k] == t[k]);
        }
        assert(k == start - 1);
        assert(u.subrange(0, k) =~= t.subrange(0, start - 1));
        assert(u.subrange(k + 1, u.len() as int) =~= t.subrange(start, i));
    } else {
        if k >= 0 {
            assert(u[k] == t[k]);
        }
        assert(k == -1);
    }
}

pub proof fn lemma_split_last(t: Seq<char>, c: char, start: int)
    requires
        0 <= start <= t.len(),
        forall|k: int| start <= k < t.len() ==> t[k] != c,
        start > 0 ==> t[start - 1] == c,
    ensures
        split_on(t, c) == if start > 0 {
            split_on(t.subrange(0, start - 1), c).push(t.subrange(start, t.len() as int))
        } else {
            seq![t]
        },
{
    lemma_last_index_before(t, c, t.len() as int);
    let k = last_index_before(t, c, t.len() as int);
    if start > 0 {
        if k < start - 1 {
            assert(t[start - 1] != c);
        }
        if k > start - 1 {
            assert(t[k] != c);
        }
    } else {
        if k >= 0 {
            assert(t[k] != c);
        }
    }
}

/// The named components of `p`, each as a character vector.
pub fn path_name_list(p: &Vec<char>) -> (r: Vec<Vec<char>>)
    ensures
        r@.len() == path_names(p@).len(),
        forall|i: int| 0 <= i < r@.len() ==> #[trigger] r@[i]@ == path_names(p@)[i],
{
    let ghost t = p@;
    let mut out: Vec<Vec<char>> = Vec::new();
    let mut cur: Vec<char> = Vec::new();
    let mut start: usize = 0;
    let mut i: usize = 0;
    while i < p.len()
        invariant
            t == p@,
            start <= i <= p.len(),
            start > 0 ==> t[start - 1] == '/',
            forall|k: int| start <= k < i ==> t[k] != '/',
            cur@ == t.subrange(start as int, i as int),
            start > 0 ==> out@.len() == keep_segments(split_slash(t.subrange(0, start - 1))).len(),
            start > 0 ==> forall|j: int|
                0 <= j < out@.len() ==> #[trigger] out@[j]@ == keep_segments(
                    split_slash(t.subrange(0, start - 1)),
                )[j],
            start == 0 ==> out@.len() == 0,
        decreases p.len() - i,
    {
        if p[i] == '/' {
            proof {
                lemma_split_step(t, '/', start as int, i as int);
                let segs = split_slash(t.subrange(0, i as int));
                assert(segs.drop_last() == (if start > 0 {
                    split_slash(t.subrange(0, start - 1))
                } else {
                    seq![t.subrange(0, i as int)].drop_last()
                }));
                if start == 0 {
                    assert(seq![t.subrange(0, i as int)].drop_last() =~= Seq::<Seq<char>>::empty());
                }
            }
            let keep = segment_kept(&cur);
            let ghost before = out@;
            if keep {
                let seg = cur.clone();
                out.push(seg);
            }
            proof {
                let segs = split_slash(t.subrange(0, i as int));
                assert(segs.last() == t.subrange(start as int, i as int));
                assert(keep_segments(Seq::<Seq<char>>::empty()) =~= Seq::<Seq<char>>::empty());
                assert forall|j: int| 0 <= j < out@.len() implies #[trigger] out@[j]@
                    == keep_segments(split_slash(t.subrange(0, i as int)))[j] by {
                    if j < before.len() {
                        assert(out@[j] == before[j]);
                    }
                }
            }
            cur = Vec::new();
            start = i + 1;
        } else {
            cur.push(p[i]);
            proof {
                assert(cur@ =~= t.subrange(start as int, i + 1));
            }
        }
        i += 1;
    }
    proof {
        lemma_split_last(t, '/', start as int);
        if start == 0 {
            assert(seq![t].drop_last() =~= Seq::<Seq<char>>::empty());
            assert(t.subrange(0, t.len() as int) =~= t);
        }
        assert(keep_segments(Seq::<Seq<char>>::empty()) =~= Seq::<Seq<char>>::empty());
    }
    let keep = segment_kept(&cur);
    let ghost before = out@;
    proof {
        let segs = split_slash(t);
        let prior = if start > 0 {
            split_slash(t.subrange(0, start - 1))
        } else {
            Seq::<Seq<char>>::empty()
        };
        assert(segs =~= prior.push(t.subrange(start as int, t.len() as int)));
        assert(segs.drop_last() =~= prior);
        assert(segs.last() == cur@);
        assert(path_names(t) == keep_segments(segs));
    }
    if keep {
        out.push(cur);
    }
    proof {
        assert forall|j: int| 0 <= j < out@.len() implies #[trigger] out@[j]@ == path_names(t)[j] by {
            if j < before.len() {
                assert(out@[j] == before[j]);
            }
        }
    }
    out
}

fn segment_kept(seg: &Vec<char>) -> (r: bool)
    ensures
        r == kept_segment(seg@),
{
    if seg.len() == 0 {
        return false;
    }
    if seg.len() == 1 && seg[0] == '.' {
        proof {
            assert(seg@ =~= seq!['.']);
        }
        return false;
    }
    proof {
        if seg@ == seq!['.'] {
            assert(seg@.len() == 1);
        }
    }
    true
}

fn leading_cur_dir_exec(v: &Vec<char>) -> (r: bool)
    ensures
        r == leading_cur_dir(v@),
{
    if v.len() == 1 && v[0] == '.' {
        proof {
            assert(v@ =~= seq!['.']);
        }
        return true;
    }
    proof {
        if v@ == seq!['.'] {
            assert(v@.len() == 1);
        }
    }
    v.len() >= 2 && v[0] == '.' && v[1] == '/'
}

/// `Path::new(a) == Path::new(b)`.
pub fn paths_equal(a: &str, b: &str) -> (r: bool)
    ensures
        r == same_path(a@, b@),
{
    let va = chars_of(a);
    let vb = chars_of(b);
    let ra = va.len() > 0 && va[0] == '/';
    let rb = vb.len() > 0 && vb[0] == '/';
    if ra != rb {
        return false;
    }
    if leading_cur_dir_exec(&va) != leading_cur_dir_exec(&vb) {
        return false;
    }
    let na = path_name_list(&va);
    let nb = path_name_list(&vb);
    if na.len() != nb.len() {
        return false;
    }
    let mut i: usize = 0;
    while i < na.len()
        invariant
            na@.len() == nb@.len(),
            na@.len() == path_names(a@).len(),
            nb@.len() == path_names(b@).len(),
            forall|j: int| 0 <= j < na@.len() ==> #[trigger] na@[j]@ == path_names(a@)[j],
            forall|j: int| 0 <= j < nb@.len() ==> #[trigger] nb@[j]@ == path_names(b@)[j],
            i <= na.len(),
            forall|j: int| 0 <= j < i ==> path_names(a@)[j] == path_names(b@)[j],
        decreases na.len() - i,
    {
        if !seq_eq(&na[i], &nb[i]) {
            proof {
                assert(na@[i as int]@ == path_names(a@)[i as int]);
                assert(nb@[i as int]@ == path_names(b@)[i as int]);
            }
            return false;
        }
        proof {
            assert(na@[i as int]@ == path_names(a@)[i as int]);
            assert(nb@[i as int]@ == path_names(b@)[i as int]);
        }
        i += 1;
    }
    proof {
        assert(path_names(a@) =~= path_names(b@));
    }
    true
}

/// The name of the directory that holds the file at `path`, if any.
pub fn parent_dir_name_of(path: &str) -> (r: Option<String>)
    ensures
        opt_view(r) == parent_dir_name(path@),
{
    let v = chars_of(path);
    let names = path_name_list(&v);
    let n = names.len();
    if n < 2 {
        return None;
    }
    let dir = &names[n - 2];
    proof {
        assert(names@[n - 2]@ == path_names(path@)[n - 2]);
    }
    if dir.len() == 2 && dir[0] == '.' && dir[1] == '.' {
        proof {
            assert(dir@ =~= seq!['.', '.']);
        }
        return None;
    }
    proof {
        if dir@ == seq!['.', '.'] {
            assert(dir@.len() == 2);
        }
    }
    Some(string_from_range(dir, 0, dir.len()))
}

} // verus!
