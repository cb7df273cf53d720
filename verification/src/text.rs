//! Character-level text helpers: whitespace trimming, ASCII case mapping,
//! and the decimal integer grammar that `str::parse` accepts.

use vstd::prelude::*;

verus! {

// ---------------------------------------------------------------------------
// Characters
// ---------------------------------------------------------------------------

/// The Unicode `White_Space` property, which `char::is_whitespace` and
/// `str::trim` use.
pub open spec fn is_space(c: char) -> bool {
    let u = c as u32;
    ||| 0x9 <= u <= 0xD
    ||| u == 0x20
    ||| u == 0x85
    ||| u == 0xA0
    ||| u == 0x1680
    ||| 0x2000 <= u <= 0x200A
    ||| u == 0x2028
    ||| u == 0x2029
    ||| u == 0x202F
    ||| u == 0x205F
    ||| u == 0x3000
}

pub open spec fn is_digit(c: char) -> bool {
    0x30 <= (c as u32) <= 0x39
}

pub open spec fn digit_val(c: char) -> int {
    (c as u32) - 0x30
}

pub open spec fn digit_char(n: int) -> char
    recommends
        0 <= n < 10,
{
    ((n + 0x30) as u32) as char
}

pub open spec fn is_ascii_upper(c: char) -> bool {
    0x41 <= (c as u32) <= 0x5A
}

pub open spec fn is_ascii_lower(c: char) -> bool {
    0x61 <= (c as u32) <= 0x7A
}

/// `char::to_ascii_lowercase`.
pub open spec fn lower_char(c: char) -> char {
    if is_ascii_upper(c) {
        (((c as u32) + 32) as u32) as char
    } else {
        c
    }
}

/// `char::to_ascii_uppercase`.
pub open spec fn upper_char(c: char) -> char {
    if is_ascii_lower(c) {
        (((c as u32) - 32) as u32) as char
    } else {
        c
    }
}

pub open spec fn lower_seq(s: Seq<char>) -> Seq<char> {
    s.map_values(|c: char| lower_char(c))
}

pub open spec fn upper_seq(s: Seq<char>) -> Seq<char> {
    s.map_values(|c: char| upper_char(c))
}

pub fn char_is_space(c: char) -> (r: bool)
    ensures
        r == is_space(c),
{
    let u = c as u32;
    (0x9 <= u && u <= 0xD) || u == 0x20 || u == 0x85 || u == 0xA0 || u == 0x1680 || (0x2000 <= u
        && u <= 0x200A) || u == 0x2028 || u == 0x2029 || u == 0x202F || u == 0x205F || u == 0x3000
}

pub fn char_is_digit(c: char) -> (r: bool)
    ensures
        r == is_digit(c),
{
    let u = c as u32;
    0x30 <= u && u <= 0x39
}

pub fn char_lower(c: char) -> (r: char)
    ensures
        r == lower_char(c),
{
    let u = c as u32;
    if 0x41 <= u && u <= 0x5A {
        let l: u32 = u + 32;
        proof {
            assert(0x61 <= l <= 0x7A);
        }
        char_from_ascii(l)
    } else {
        c
    }
}

pub fn char_upper(c: char) -> (r: char)
    ensures
        r == upper_char(c),
{
    let u = c as u32;
    if 0x61 <= u && u <= 0x7A {
        let l: u32 = u - 32;
        char_from_ascii(l)
    } else {
        c
    }
}

fn char_from_ascii(u: u32) -> (r: char)
    requires
        u < 0x80,
    ensures
        r == (u as char),
        r as u32 == u,
{
    let b: u8 = u as u8;
    b as char
}

pub fn digit_to_char(n: u64) -> (r: char)
    requires
        n < 10,
    ensures
        r == digit_char(n as int),
        is_digit(r),
        digit_val(r) == n,
{
    let u: u32 = (n as u32) + 0x30;
    char_from_ascii(u)
}

// ---------------------------------------------------------------------------
// Strings as character sequences
// ---------------------------------------------------------------------------

/// `String::push`: appends one character.
#[verifier::external_body]
pub(crate) fn push_char(s: &mut String, c: char)
    ensures
        final(s)@ == old(s)@.push(c),
{
    s.push(c)
}

/// The characters of `s`, in order.
pub fn chars_of(s: &str) -> (v: Vec<char>)
    ensures
        v@ == s@,
{
    let n = s.unicode_len();
    let mut v: Vec<char> = Vec::new();
    let mut i: usize = 0;
    while i < n
        invariant
            n == s@.len(),
            i <= n,
            v@ == s@.subrange(0, i as int),
        decreases n - i,
    {
        let c = s.get_char(i);
        v.push(c);
        i += 1;
        proof {
            assert(v@ =~= s@.subrange(0, i as int));
        }
    }
    proof {
        assert(v@ =~= s@);
    }
    v
}

/// A new `String` holding `v[from..to]`.
pub fn string_from_range(v: &Vec<char>, from: usize, to: usize) -> (r: String)
    requires
        from <= to <= v.len(),
    ensures
        r@ == v@.subrange(from as int, to as int),
{
    let mut r = String::new();
    let mut i = from;
    while i < to
        invariant
            from <= i <= to,
            to <= v.len(),
            r@ == v@.subrange(from as int, i as int),
        decreases to - i,
    {
        push_char(&mut r, v[i]);
        i += 1;
        proof {
            assert(r@ =~= v@.subrange(from as int, i as int));
        }
    }
    r
}

pub fn string_from_chars(v: &Vec<char>) -> (r: String)
    ensures
        r@ == v@,
{
    let r = string_from_range(v, 0, v.len());
    proof {
        assert(v@.subrange(0, v@.len() as int) =~= v@);
    }
    r
}

pub fn string_of(s: &str) -> (r: String)
    ensures
        r@ == s@,
{
    String::from_str(s)
}

/// Appends `t` to `s`.
pub fn append_str(s: &mut String, t: &str)
    ensures
        final(s)@ == old(s)@ + t@,
{
    s.append(t);
}

/// Text equality, character by character.
pub fn same_text(a: &str, b: &str) -> (r: bool)
    ensures
        r == (a@ == b@),
{
    let va = chars_of(a);
    let vb = chars_of(b);
    seq_eq(&va, &vb)
}

pub fn seq_eq(va: &Vec<char>, vb: &Vec<char>) -> (r: bool)
    ensures
        r == (va@ == vb@),
{
    if va.len() != vb.len() {
        return false;
    }
    let mut i: usize = 0;
    while i < va.len()
        invariant
            va.len() == vb.len(),
            i <= va.len(),
            forall|k: int| 0 <= k < i ==> va@[k] == vb@[k],
        decreases va.len() - i,
    {
        if va[i] != vb[i] {
            return false;
        }
        i += 1;
    }
    proof {
        assert(va@ =~= vb@);
    }
    true
}

/// Equality of a range of `v` with a text.
pub fn range_eq_str(v: &Vec<char>, from: usize, to: usize, t: &str) -> (r: bool)
    requires
        from <= to <= v.len(),
    ensures
        r == (v@.subrange(from as int, to as int) == t@),
{
    let vt = chars_of(t);
    if to - from != vt.len() {
        return false;
    }
    let mut i: usize = 0;
    while i < vt.len()
        invariant
            from <= to <= v.len(),
            to - from == vt.len(),
            vt@ == t@,
            i <= vt.len(),
            forall|k: int| 0 <= k < i ==> v@[from + k] == vt@[k],
        decreases vt.len() - i,
    {
        if v[from + i] != vt[i] {
            assert(v@.subrange(from as int, to as int)[i as int] != t@[i as int]);
            return false;
        }
        i += 1;
    }
    proof {
        assert(v@.subrange(from as int, to as int) =~= t@);
    }
    true
}

pub fn to_lower_chars(v: &Vec<char>) -> (r: Vec<char>)
    ensures
        r@ == lower_seq(v@),
{
    let mut r: Vec<char> = Vec::new();
    let mut i: usize = 0;
    while i < v.len()
        invariant
            i <= v.len(),
            r@ == lower_seq(v@.subrange(0, i as int)),
        decreases v.len() - i,
    {
        let c = char_lower(v[i]);
        r.push(c);
        i += 1;
        proof {
            assert(r@ =~= lower_seq(v@.subrange(0, i as int)));
        }
    }
    proof {
        assert(v@.subrange(0, v@.len() as int) =~= v@);
    }
    r
}

pub fn to_upper_chars(v: &Vec<char>) -> (r: Vec<char>)
    ensures
        r@ == upper_seq(v@),
{
    let mut r: Vec<char> = Vec::new();
    let mut i: usize = 0;
    while i < v.len()
        invariant
            i <= v.len(),
            r@ == upper_seq(v@.subrange(0, i as int)),
        decreases v.len() - i,
    {
        let c = char_upper(v[i]);
        r.push(c);
        i += 1;
        proof {
            assert(r@ =~= upper_seq(v@.subrange(0, i as int)));
        }
    }
    proof {
        assert(v@.subrange(0, v@.len() as int) =~= v@);
    }
    r
}

// ---------------------------------------------------------------------------
// Searching
// ---------------------------------------------------------------------------

/// Index of the first `c` in `s` at or after `start`, or -1.
pub open spec fn first_index_from(s: Seq<char>, c: char, start: int) -> int
    decreases s.len() - start,
{
    if start < 0 || start >= s.len() {
        -1
    } else if s[start] == c {
        start
    } else {
        first_index_from(s, c, start + 1)
    }
}

pub proof fn lemma_first_index_from(s: Seq<char>, c: char, start: int)
    requires
        0 <= start,
    ensures
        first_index_from(s, c, start) == -1 || (start <= first_index_from(s, c, start) < s.len()
            && s[first_index_from(s, c, start)] == c),
        first_index_from(s, c, start) == -1 ==> forall|k: int|
            start <= k < s.len() ==> s[k] != c,
        first_index_from(s, c, start) != -1 ==> forall|k: int|
            start <= k < first_index_from(s, c, start) ==> s[k] != c,
    decreases s.len() - start,
{
    if start < s.len() && s[start] != c {
        lemma_first_index_from(s, c, start + 1);
    }
}

pub fn find_char_from(v: &Vec<char>, c: char, start: usize) -> (r: Option<usize>)
    ensures
        match r {
            Some(i) => i as int == first_index_from(v@, c, start as int),
            None => first_index_from(v@, c, start as int) == -1,
        },
{
    proof {
        lemma_first_index_from(v@, c, start as int);
    }
    let mut i = start;
    while i < v.len()
        invariant
            start <= i,
            first_index_from(v@, c, start as int) == first_index_from(v@, c, i as int),
        decreases v.len() - i,
    {
        if v[i] == c {
            return Some(i);
        }
        i += 1;
    }
    None
}

// ---------------------------------------------------------------------------
// Trimming
// ---------------------------------------------------------------------------

/// Index of the first non-space character at or after `i`, or the length.
pub open spec fn skip_spaces_from(s: Seq<char>, i: int) -> int
    decreases s.len() - i,
{
    if i < 0 || i >= s.len() {
        s.len() as int
    } else if is_space(s[i]) {
        skip_spaces_from(s, i + 1)
    } else {
        i
    }
}

/// Length of the prefix `s[..j]` once trailing spaces are dropped.
pub open spec fn trimmed_end(s: Seq<char>, j: int) -> int
    decreases j,
{
    if j <= 0 || j > s.len() {
        0
    } else if is_space(s[j - 1]) {
        trimmed_end(s, j - 1)
    } else {
        j
    }
}

/// `str::trim`: leading and trailing Unicode whitespace removed.
pub open spec fn trim_seq(s: Seq<char>) -> Seq<char> {
    let a = skip_spaces_from(s, 0);
    let b = trimmed_end(s, s.len() as int);
    if a >= b {
        Seq::empty()
    } else {
        s.subrange(a, b)
    }
}

pub proof fn lemma_skip_spaces_from(s: Seq<char>, i: int)
    requires
        0 <= i <= s.len(),
    ensures
        i <= skip_spaces_from(s, i) <= s.len(),
        forall|k: int| i <= k < skip_spaces_from(s, i) ==> is_space(s[k]),
        skip_spaces_from(s, i) < s.len() ==> !is_space(s[skip_spaces_from(s, i)]),
    decreases s.len() - i,
{
    if i < s.len() && is_space(s[i]) {
        lemma_skip_spaces_from(s, i + 1);
    }
}

pub proof fn lemma_trimmed_end(s: Seq<char>, j: int)
    requires
        0 <= j <= s.len(),
    ensures
        0 <= trimmed_end(s, j) <= j,
        forall|k: int| trimmed_end(s, j) <= k < j ==> is_space(s[k]),
        trimmed_end(s, j) > 0 ==> !is_space(s[trimmed_end(s, j) - 1]),
    decreases j,
{
    if j > 0 && is_space(s[j - 1]) {
        lemma_trimmed_end(s, j - 1);
    }
}

/// The bounds `(a, b)` such that `trim_seq(v) == v[a..b]`.
pub fn trim_bounds(v: &Vec<char>) -> (r: (usize, usize))
    ensures
        r.0 <= r.1 <= v.len(),
        trim_seq(v@) == v@.subrange(r.0 as int, r.1 as int),
        r.0 == r.1 <==> trim_seq(v@).len() == 0,
{
    proof {
        lemma_skip_spaces_from(v@, 0);
        lemma_trimmed_end(v@, v@.len() as int);
    }
    let mut a: usize = 0;
    while a < v.len() && char_is_space(v[a])
        invariant
            a <= v.len(),
            skip_spaces_from(v@, 0) == skip_spaces_from(v@, a as int),
        decreases v.len() - a,
    {
        a += 1;
    }
    let mut b: usize = v.len();
    while b > 0 && char_is_space(v[b - 1])
        invariant
            b <= v.len(),
            trimmed_end(v@, v@.len() as int) == trimmed_end(v@, b as int),
        decreases b,
    {
        b -= 1;
    }
    if a >= b {
        proof {
            assert(v@.subrange(b as int, b as int) =~= Seq::<char>::empty());
        }
        (b, b)
    } else {
        (a, b)
    }
}

/// `str::trim`, as a new `String`.
pub fn trimmed(s: &str) -> (r: String)
    ensures
        r@ == trim_seq(s@),
{
    let v = chars_of(s);
    let (a, b) = trim_bounds(&v);
    string_from_range(&v, a, b)
}

/// Whether `s.trim().is_empty()`.
pub fn is_blank(s: &str) -> (r: bool)
    ensures
        r == (trim_seq(s@).len() == 0),
{
    let v = chars_of(s);
    let (a, b) = trim_bounds(&v);
    a == b
}

// ---------------------------------------------------------------------------
// Decimal integers
// ---------------------------------------------------------------------------

pub open spec fn all_digits(s: Seq<char>) -> bool {
    forall|i: int| 0 <= i < s.len() ==> is_digit(#[trigger] s[i])
}

/// The value of a string of decimal digits.
pub open spec fn digits_value(s: Seq<char>) -> int
    decreases s.len(),
{
    if s.len() == 0 {
        0
    } else {
        digits_value(s.drop_last()) * 10 + digit_val(s.last())
    }
}

/// The integer grammar of `str::parse` for integer types: an optional
/// `+` (or `-` where the type is signed) followed by one or more digits.
pub open spec fn std_int_value(s: Seq<char>, signed: bool) -> Option<int> {
    if s.len() == 0 {
        None
    } else if s[0] == '+' {
        if s.len() > 1 && all_digits(s.skip(1)) {
            Some(digits_value(s.skip(1)))
        } else {
            None
        }
    } else if s[0] == '-' && signed {
        if s.len() > 1 && all_digits(s.skip(1)) {
            Some(-digits_value(s.skip(1)))
        } else {
            None
        }
    } else if all_digits(s) {
        Some(digits_value(s))
    } else {
        None
    }
}

/// `str::parse::<T>()` for an integer type with the given bounds.
pub open spec fn parse_int_in(s: Seq<char>, signed: bool, lo: int, hi: int) -> Option<int> {
    match std_int_value(s, signed) {
        Some(v) => if lo <= v <= hi {
            Some(v)
        } else {
            None
        },
        None => None,
    }
}

pub open spec fn parse_i32_spec(s: Seq<char>) -> Option<int> {
    parse_int_in(s, true, i32::MIN as int, i32::MAX as int)
}

pub open spec fn parse_u32_spec(s: Seq<char>) -> Option<int> {
    parse_int_in(s, false, 0, u32::MAX as int)
}

pub open spec fn parse_u64_spec(s: Seq<char>) -> Option<int> {
    parse_int_in(s, false, 0, u64::MAX as int)
}

pub open spec fn parse_i64_spec(s: Seq<char>) -> Option<int> {
    parse_int_in(s, true, i64::MIN as int, i64::MAX as int)
}

pub open spec fn parse_usize_spec(s: Seq<char>) -> Option<int> {
    parse_int_in(s, false, 0, usize::MAX as int)
}

/// `str::parse::<bool>()`: exactly `true` or `false`.
pub open spec fn parse_bool_spec(s: Seq<char>) -> Option<bool> {
    if s == seq!['t', 'r', 'u', 'e'] {
        Some(true)
    } else if s == seq!['f', 'a', 'l', 's', 'e'] {
        Some(false)
    } else {
        None
    }
}

pub proof fn lemma_digits_value_nonneg(s: Seq<char>)
    requires
        all_digits(s),
    ensures
        digits_value(s) >= 0,
    decreases s.len(),
{
    if s.len() > 0 {
        assert(all_digits(s.drop_last())) by {
            assert forall|i: int| 0 <= i < s.drop_last().len() implies is_digit(
                #[trigger] s.drop_last()[i],
            ) by {
                assert(s.drop_last()[i] == s[i]);
            }
        }
        lemma_digits_value_nonneg(s.drop_last());
        assert(is_digit(s[s.len() - 1]));
    }
}

/// A longer digit string is worth at least as much as its prefixes.
pub proof fn lemma_digits_value_prefix(s: Seq<char>, k: int)
    requires
        all_digits(s),
        0 <= k <= s.len(),
    ensures
        digits_value(s.take(k)) <= digits_value(s),
    decreases s.len(),
{
    if k < s.len() {
        let t = s.drop_last();
        assert(all_digits(t)) by {
            assert forall|i: int| 0 <= i < t.len() implies is_digit(#[trigger] t[i]) by {
                assert(t[i] == s[i]);
            }
        }
        lemma_digits_value_prefix(t, k);
        assert(t.take(k) =~= s.take(k));
        lemma_digits_value_nonneg(t);
        assert(is_digit(s[s.len() - 1]));
    } else {
        assert(s.take(k) =~= s);
    }
}

pub proof fn lemma_digits_value_step(s: Seq<char>, from: int, i: int)
    requires
        0 <= from <= i < s.len(),
    ensures
        digits_value(s.subrange(from, i + 1)) == digits_value(s.subrange(from, i)) * 10
            + digit_val(s[i]),
{
    assert(s.subrange(from, i + 1).drop_last() =~= s.subrange(from, i));
}

/// Parses `v[from..to]` as a string of digits whose value fits a `u64`.
pub fn parse_digits_u64(v: &Vec<char>, from: usize, to: usize) -> (r: Option<u64>)
    requires
        from <= to <= v.len(),
    ensures
        match r {
            Some(x) => all_digits(v@.subrange(from as int, to as int)) && x == digits_value(
                v@.subrange(from as int, to as int),
            ),
            None => !all_digits(v@.subrange(from as int, to as int)) || digits_value(
                v@.subrange(from as int, to as int),
            ) > u64::MAX,
        },
{
    let ghost full = v@.subrange(from as int, to as int);
    let mut acc: u64 = 0;
    let mut i = from;
    while i < to
        invariant
            from <= i <= to <= v.len(),
            full == v@.subrange(from as int, to as int),
            all_digits(v@.subrange(from as int, i as int)),
            acc == digits_value(v@.subrange(from as int, i as int)),
        decreases to - i,
    {
        let c = v[i];
        if !char_is_digit(c) {
            proof {
                assert(full[i - from] == c);
            }
            return None;
        }
        let d = (c as u32 - 0x30) as u64;
        proof {
            lemma_digits_value_step(v@, from as int, i as int);
        }
        if acc > (u64::MAX - d) / 10 {
            proof {
                assert(acc * 10 + d > u64::MAX) by (nonlinear_arith)
                    requires
                        acc > (u64::MAX - d) / 10,
                        d <= 9,
                ;
                if all_digits(full) {
                    assert(full.take(i + 1 - from) =~= v@.subrange(from as int, i + 1));
                    lemma_digits_value_prefix(full, i + 1 - from);
                }
            }
            return None;
        }
        proof {
            assert(acc * 10 + d <= u64::MAX) by (nonlinear_arith)
                requires
                    acc <= (u64::MAX - d) / 10,
                    d <= 9,
            ;
        }
        acc = acc * 10 + d;
        i += 1;
        proof {
            assert forall|k: int| 0 <= k < v@.subrange(from as int, i as int).len() implies is_digit(
                #[trigger] v@.subrange(from as int, i as int)[k],
            ) by {
                if k < i - 1 - from {
                    assert(v@.subrange(from as int, i as int)[k] == v@.subrange(
                        from as int,
                        i - 1,
                    )[k]);
                }
            }
        }
    }
    Some(acc)
}

/// `str::parse` for an integer type whose bounds are `lo..=hi`, over
/// `v[from..to]`, with the magnitude limited to `u64`.
fn parse_int_range(v: &Vec<char>, from: usize, to: usize, signed: bool, lo: i128, hi: i128) -> (r:
    Option<i128>)
    requires
        from <= to <= v.len(),
        -(u64::MAX as int) <= lo <= 0 <= hi <= u64::MAX,
    ensures
        match r {
            Some(x) => parse_int_in(v@.subrange(from as int, to as int), signed, lo as int, hi as int)
                == Some(x as int),
            None => parse_int_in(v@.subrange(from as int, to as int), signed, lo as int, hi as int)
                is None,
        },
{
    let ghost s = v@.subrange(from as int, to as int);
    if from == to {
        return None;
    }
    let first = v[from];
    let mut start = from;
    let mut negative = false;
    if first == '+' {
        start = from + 1;
    } else if first == '-' && signed {
        start = from + 1;
        negative = true;
    }
    proof {
        assert(s[0] == first);
    }
    if start > from && start == to {
        return None;
    }
    proof {
        assert(v@.subrange(start as int, to as int) =~= if start > from {
            s.skip(1)
        } else {
            s
        });
    }
    match parse_digits_u64(v, start, to) {
        None => None,
        Some(m) => {
            let val: i128 = if negative {
                -(m as i128)
            } else {
                m as i128
            };
            if lo <= val && val <= hi {
                Some(val)
            } else {
                None
            }
        },
    }
}

pub fn parse_i32_text(v: &Vec<char>, from: usize, to: usize) -> (r: Option<i32>)
    requires
        from <= to <= v.len(),
    ensures
        match r {
            Some(x) => parse_i32_spec(v@.subrange(from as int, to as int)) == Some(x as int),
            None => parse_i32_spec(v@.subrange(from as int, to as int)) is None,
        },
{
    match parse_int_range(v, from, to, true, i32::MIN as i128, i32::MAX as i128) {
        Some(x) => Some(x as i32),
        None => None,
    }
}

pub fn parse_u32_text(v: &Vec<char>, from: usize, to: usize) -> (r: Option<u32>)
    requires
        from <= to <= v.len(),
    ensures
        match r {
            Some(x) => parse_u32_spec(v@.subrange(from as int, to as int)) == Some(x as int),
            None => parse_u32_spec(v@.subrange(from as int, to as int)) is None,
        },
{
    match parse_int_range(v, from, to, false, 0, u32::MAX as i128) {
        Some(x) => Some(x as u32),
        None => None,
    }
}

pub fn parse_u64_str(s: &str) -> (r: Option<u64>)
    ensures
        match r {
            Some(x) => parse_u64_spec(s@) == Some(x as int),
            None => parse_u64_spec(s@) is None,
        },
{
    let v = chars_of(s);
    proof {
        assert(v@.subrange(0, v@.len() as int) =~= s@);
    }
    match parse_int_range(&v, 0, v.len(), false, 0, u64::MAX as i128) {
        Some(x) => Some(x as u64),
        None => None,
    }
}

pub fn parse_usize_str(s: &str) -> (r: Option<usize>)
    ensures
        match r {
            Some(x) => parse_usize_spec(s@) == Some(x as int),
            None => parse_usize_spec(s@) is None,
        },
{
    let v = chars_of(s);
    proof {
        assert(v@.subrange(0, v@.len() as int) =~= s@);
    }
    match parse_int_range(&v, 0, v.len(), false, 0, usize::MAX as i128) {
        Some(x) => Some(x as usize),
        None => None,
    }
}

pub fn parse_i64_str(s: &str) -> (r: Option<i64>)
    ensures
        match r {
            Some(x) => parse_i64_spec(s@) == Some(x as int),
            None => parse_i64_spec(s@) is None,
        },
{
    let v = chars_of(s);
    proof {
        assert(v@.subrange(0, v@.len() as int) =~= s@);
    }
    match parse_int_range(&v, 0, v.len(), true, i64::MIN as i128, i64::MAX as i128) {
        Some(x) => Some(x as i64),
        None => None,
    }
}

pub fn parse_bool_str(s: &str) -> (r: Option<bool>)
    ensures
        r == parse_bool_spec(s@),
{
    if same_text(s, "true") {
        proof {
            reveal_strlit("true");
            assert("true"@ =~= seq!['t', 'r', 'u', 'e']);
        }
        Some(true)
    } else if same_text(s, "false") {
        proof {
            reveal_strlit("false");
            reveal_strlit("true");
            assert("false"@ =~= seq!['f', 'a', 'l', 's', 'e']);
            assert("true"@ =~= seq!['t', 'r', 'u', 'e']);
        }
        Some(false)
    } else {
        proof {
            reveal_strlit("false");
            reveal_strlit("true");
            assert("false"@ =~= seq!['f', 'a', 'l', 's', 'e']);
            assert("true"@ =~= seq!['t', 'r', 'u', 'e']);
        }
        None
    }
}

// ---------------------------------------------------------------------------
// Decimal formatting
// ---------------------------------------------------------------------------

/// The decimal digits of `n`, zero-padded on the left to at least `width`
/// digits (no digits at all for zero with width zero).
pub open spec fn padded_decimal(n: nat, width: nat) -> Seq<char>
    decreases n, width,
{
    if n == 0 && width == 0 {
        Seq::empty()
    } else {
        padded_decimal(
            n / 10,
            if width > 0 {
                (width - 1) as nat
            } else {
                0
            },
        ).push(digit_char((n % 10) as int))
    }
}

/// The decimal text of `n` as `{}` prints it.
pub open spec fn decimal_text(n: nat) -> Seq<char> {
    padded_decimal(n, 1)
}

/// `10^w`.
pub open spec fn ten_pow(w: nat) -> nat
    decreases w,
{
    if w == 0 {
        1
    } else {
        10 * ten_pow((w - 1) as nat)
    }
}

/// Padded decimal text is made of digits, reads back as its number, and
/// has exactly the width asked for when the number fits in it.
pub proof fn lemma_padded_decimal(n: nat, w: nat)
    ensures
        all_digits(padded_decimal(n, w)),
        digits_value(padded_decimal(n, w)) == n,
        n < ten_pow(w) ==> padded_decimal(n, w).len() == w,
    decreases n, w,
{
    if n == 0 && w == 0 {
    } else {
        let w2: nat = if w > 0 {
            (w - 1) as nat
        } else {
            0
        };
        lemma_padded_decimal(n / 10, w2);
        let prev = padded_decimal(n / 10, w2);
        let c = digit_char((n % 10) as int);
        let s = padded_decimal(n, w);
        assert(s == prev.push(c));
        assert((c as u32) == (n % 10) + 0x30);
        assert(is_digit(c));
        assert(digit_val(c) == n % 10);
        assert(s.drop_last() =~= prev);
        assert forall|i: int| 0 <= i < s.len() implies is_digit(#[trigger] s[i]) by {
            if i < prev.len() {
                assert(s[i] == prev[i]);
            }
        }
        if n < ten_pow(w) {
            if w == 0 {
                assert(ten_pow(0) == 1);
            } else {
                assert(ten_pow(w) == 10 * ten_pow(w2));
                assert(n / 10 < ten_pow(w2));
            }
        }
    }
}

pub fn push_padded_decimal(s: &mut String, n: u64, width: u64)
    ensures
        final(s)@ == old(s)@ + padded_decimal(n as nat, width as nat),
    decreases n, width,
{
    if n == 0 && width == 0 {
        proof {
            assert(old(s)@ + padded_decimal(0, 0) =~= old(s)@);
        }
        return ;
    }
    let w = if width > 0 {
        width - 1
    } else {
        0
    };
    push_padded_decimal(s, n / 10, w);
    let c = digit_to_char(n % 10);
    push_char(s, c);
    proof {
        assert(old(s)@ + padded_decimal(n as nat, width as nat) =~= old(s)@ + padded_decimal(
            (n / 10) as nat,
            w as nat,
        ) + seq![c]);
    }
}

pub fn decimal_string(n: u64) -> (r: String)
    ensures
        r@ == decimal_text(n as nat),
{
    let mut r = String::new();
    push_padded_decimal(&mut r, n, 1);
    proof {
        assert(r@ =~= decimal_text(n as nat));
    }
    r
}

// ---------------------------------------------------------------------------
// Integer parsing with the reason of a failure
// ---------------------------------------------------------------------------

/// Why `str::parse` refused a text as an integer.
#[derive(Clone, Copy, Debug, PartialEq, Eq, Structural)]
pub enum IntErrorKind {
    Empty,
    InvalidDigit,
    PosOverflow,
    NegOverflow,
}

/// Reads the digits of `d` from position `i` on, stopping at the first
/// one that is not a digit or that takes the value out of `lo..=hi`.
pub open spec fn scan_digits(d: Seq<char>, neg: bool, lo: int, hi: int, i: int) -> Result<
    int,
    IntErrorKind,
>
    decreases d.len() - i,
{
    if i < 0 || i >= d.len() {
        Ok(
            if neg {
                -digits_value(d)
            } else {
                digits_value(d)
            },
        )
    } else if !is_digit(d[i]) {
        Err(IntErrorKind::InvalidDigit)
    } else if neg && -digits_value(d.take(i + 1)) < lo {
        Err(IntErrorKind::NegOverflow)
    } else if !neg && digits_value(d.take(i + 1)) > hi {
        Err(IntErrorKind::PosOverflow)
    } else {
        scan_digits(d, neg, lo, hi, i + 1)
    }
}

/// `str::parse` for an integer type with the bounds `lo..=hi`: the value,
/// or the reason it was refused.
pub open spec fn int_parse_outcome(s: Seq<char>, signed: bool, lo: int, hi: int) -> Result<
    int,
    IntErrorKind,
> {
    if s.len() == 0 {
        Err(IntErrorKind::Empty)
    } else if (s[0] == '+' || s[0] == '-') && s.len() == 1 {
        Err(IntErrorKind::InvalidDigit)
    } else if s[0] == '+' {
        scan_digits(s.skip(1), false, lo, hi, 0)
    } else if s[0] == '-' && signed {
        scan_digits(s.skip(1), true, lo, hi, 0)
    } else {
        scan_digits(s, false, lo, hi, 0)
    }
}

/// The text `ParseIntError` displays for each reason.
pub open spec fn int_error_text(k: IntErrorKind) -> Seq<char> {
    match k {
        IntErrorKind::Empty => "cannot parse integer from empty string"@,
        IntErrorKind::InvalidDigit => "invalid digit found in string"@,
        IntErrorKind::PosOverflow => "number too large to fit in target type"@,
        IntErrorKind::NegOverflow => "number too small to fit in target type"@,
    }
}

impl IntErrorKind {
    pub fn message(&self) -> (r: &'static str)
        ensures
            r@ == int_error_text(*self),
    {
        match self {
            IntErrorKind::Empty => "cannot parse integer from empty string",
            IntErrorKind::InvalidDigit => "invalid digit found in string",
            IntErrorKind::PosOverflow => "number too large to fit in target type",
            IntErrorKind::NegOverflow => "number too small to fit in target type",
        }
    }
}

proof fn lemma_scan_step(d: Seq<char>, neg: bool, lo: int, hi: int, i: int)
    requires
        0 <= i < d.len(),
        is_digit(d[i]),
        !(neg && -digits_value(d.take(i + 1)) < lo),
        !(!neg && digits_value(d.take(i + 1)) > hi),
    ensures
        scan_digits(d, neg, lo, hi, i) == scan_digits(d, neg, lo, hi, i + 1),
{
}

pub open spec fn within(v: int, neg: bool, lo: int, hi: int) -> bool {
    if neg {
        -v >= lo
    } else {
        v <= hi
    }
}

/// Scanning digits from `i` on, with the digits before `i` read and within
/// the bounds, succeeds exactly when every character is a digit and the
/// whole value is within the bounds.
proof fn lemma_scan_digits_ok(d: Seq<char>, neg: bool, lo: int, hi: int, i: int)
    requires
        0 <= i <= d.len(),
        all_digits(d.take(i)),
        within(digits_value(d.take(i)), neg, lo, hi),
    ensures
        (scan_digits(d, neg, lo, hi, i) is Ok) == (all_digits(d) && within(digits_value(d), neg, lo, hi)),
        scan_digits(d, neg, lo, hi, i) is Ok ==> scan_digits(d, neg, lo, hi, i)->Ok_0 == if neg {
            -digits_value(d)
        } else {
            digits_value(d)
        },
    decreases d.len() - i,
{
    if i >= d.len() {
        assert(d.take(i) =~= d);
    } else if !is_digit(d[i]) {
        assert(!all_digits(d));
    } else {
        assert(all_digits(d.take(i + 1))) by {
            assert forall|k: int| 0 <= k < i + 1 implies is_digit(#[trigger] d.take(i + 1)[k]) by {
                if k < i {
                    assert(d.take(i + 1)[k] == d.take(i)[k]);
                }
            }
        }
        if all_digits(d) {
            lemma_digits_value_prefix(d, i + 1);
            lemma_digits_value_nonneg(d.take(i + 1));
        }
        if !within(digits_value(d.take(i + 1)), neg, lo, hi) {
            assert(!(all_digits(d) && within(digits_value(d), neg, lo, hi)));
        } else {
            lemma_scan_digits_ok(d, neg, lo, hi, i + 1);
        }
    }
}

/// The integer parse that tells why a text is refused accepts exactly the
/// texts that `str::parse` accepts, with the same value, for any bounds
/// around zero.
pub proof fn law_detailed_parse_agrees(s: Seq<char>, signed: bool, lo: int, hi: int)
    requires
        lo <= 0 <= hi,
    ensures
        (int_parse_outcome(s, signed, lo, hi) is Ok) == (parse_int_in(s, signed, lo, hi) is Some),
        int_parse_outcome(s, signed, lo, hi) is Ok ==> int_parse_outcome(s, signed, lo, hi)->Ok_0
            == parse_int_in(s, signed, lo, hi)->Some_0,
{
    if s.len() == 0 {
    } else if (s[0] == '+' || s[0] == '-') && s.len() == 1 {
        if s[0] == '-' && !signed {
            assert(!is_digit(s[0]));
        }
    } else {
        let neg = s[0] == '-' && signed;
        let d = if s[0] == '+' || neg {
            s.skip(1)
        } else {
            s
        };
        assert(d.take(0) =~= Seq::<char>::empty());
        lemma_scan_digits_ok(d, neg, lo, hi, 0);
        if all_digits(d) {
            lemma_digits_value_nonneg(d);
        }
        if s[0] == '-' && !signed {
            assert(!is_digit(s[0]));
            assert(!all_digits(s));
        }
    }
}

/// `str::parse` for an integer type whose bounds are `lo..=hi`, telling
/// why a text is refused.
pub fn parse_int_detailed(s: &str, signed: bool, lo: i128, hi: i128) -> (r: Result<i128, IntErrorKind>)
    requires
        -(u64::MAX as int) <= lo <= 0 <= hi <= u64::MAX,
    ensures
        match r {
            Ok(x) => int_parse_outcome(s@, signed, lo as int, hi as int) == Ok::<int, IntErrorKind>(
                x as int,
            ) && lo <= x <= hi,
            Err(k) => int_parse_outcome(s@, signed, lo as int, hi as int) == Err::<int, IntErrorKind>(k),
        },
{
    let v = chars_of(s);
    if v.len() == 0 {
        return Err(IntErrorKind::Empty);
    }
    let first = v[0];
    if (first == '+' || first == '-') && v.len() == 1 {
        return Err(IntErrorKind::InvalidDigit);
    }
    let mut start: usize = 0;
    let mut neg = false;
    if first == '+' {
        start = 1;
    } else if first == '-' && signed {
        start = 1;
        neg = true;
    }
    let ghost d = v@.skip(start as int);
    proof {
        assert(start == 0 ==> d =~= s@);
    }
    let ghost goal = scan_digits(d, neg, lo as int, hi as int, 0);
    proof {
        assert(goal == int_parse_outcome(s@, signed, lo as int, hi as int));
    }
    let mut acc: i128 = 0;
    let mut i: usize = start;
    while i < v.len()
        invariant
            start <= i <= v.len(),
            start <= 1,
            d == v@.skip(start as int),
            goal == int_parse_outcome(s@, signed, lo as int, hi as int),
            goal == scan_digits(d, neg, lo as int, hi as int, i - start),
            -(u64::MAX as int) <= lo <= 0 <= hi <= u64::MAX,
            acc == digits_value(d.take(i - start)),
            0 <= acc <= u64::MAX,
            start < v.len(),
            i > start ==> (neg ==> -acc >= lo) && (!neg ==> acc <= hi),
        decreases v.len() - i,
    {
        let c = v[i];
        let ghost j = i - start;
        proof {
            assert(d[j] == c);
        }
        if !char_is_digit(c) {
            proof {
                assert(0 <= j < d.len());
                assert(scan_digits(d, neg, lo as int, hi as int, j) == Err::<int, IntErrorKind>(
                    IntErrorKind::InvalidDigit,
                ));
            }
            return Err(IntErrorKind::InvalidDigit);
        }
        let dig = (c as u32 - 0x30) as i128;
        proof {
            assert(d.take(j + 1).drop_last() =~= d.take(j));
            assert(digits_value(d.take(j + 1)) == acc * 10 + dig);
        }
        let next = acc * 10 + dig;
        if neg && -next < lo {
            return Err(IntErrorKind::NegOverflow);
        }
        if !neg && next > hi {
            proof {
                assert(scan_digits(d, neg, lo as int, hi as int, j) == Err::<int, IntErrorKind>(
                    IntErrorKind::PosOverflow,
                ));
            }
            return Err(IntErrorKind::PosOverflow);
        }
        proof {
            lemma_scan_step(d, neg, lo as int, hi as int, j);
        }
        acc = next;
        i += 1;
    }
    proof {
        assert(d.take(d.len() as int) =~= d);
    }
    if neg {
        Ok(-acc)
    } else {
        Ok(acc)
    }
}

} // verus!
