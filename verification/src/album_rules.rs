//! Album rules: a directory named `<year><d><month><d><day><d><name>`
//! (with `d` one of `.`, `_`, `-`) names an album on that date.

use vstd::prelude::*;
use crate::calendar::{iso_date, iso_date_text, valid_civil_date};
use crate::text::{
    chars_of, find_char_from, first_index_from, is_blank, is_space, lemma_first_index_from,
    lemma_skip_spaces_from, lemma_trimmed_end, parse_i32_spec, parse_i32_text, parse_u32_spec,
    parse_u32_text, skip_spaces_from, string_from_range, string_of, trim_seq, trimmed, trimmed_end,
};

verus! {

/// An album that a directory name describes.
#[derive(Debug, Clone)]
pub struct AlbumRuleMatch {
    pub rule_name: String,
    pub album_date: String,
    pub album_name: String,
}

impl AlbumRuleMatch {
    pub open spec fn view_fields(self) -> (Seq<char>, Seq<char>, Seq<char>) {
        (self.rule_name@, self.album_date@, self.album_name@)
    }
}

pub open spec fn match_view(r: Option<AlbumRuleMatch>) -> Option<(Seq<char>, Seq<char>, Seq<char>)> {
    match r {
        Some(m) => Some(m.view_fields()),
        None => None,
    }
}

/// `s.split(d)` has at least four fields: the first three, and everything
/// after the third delimiter.
pub open spec fn delimited_fields(s: Seq<char>, d: char) -> Option<
    (Seq<char>, Seq<char>, Seq<char>, Seq<char>),
> {
    let p1 = first_index_from(s, d, 0);
    let p2 = first_index_from(s, d, p1 + 1);
    let p3 = first_index_from(s, d, p2 + 1);
    if p1 < 0 || p2 < 0 || p3 < 0 {
        None
    } else {
        Some(
            (
                s.subrange(0, p1),
                s.subrange(p1 + 1, p2),
                s.subrange(p2 + 1, p3),
                s.subrange(p3 + 1, s.len() as int),
            ),
        )
    }
}

/// The album that the rule named `rule` with delimiter `d` reads from the
/// directory name `dir`: `(rule name, %Y-%m-%d date, trimmed album name)`.
pub open spec fn album_match(rule: Seq<char>, dir: Seq<char>, d: char) -> Option<
    (Seq<char>, Seq<char>, Seq<char>),
> {
    match delimited_fields(dir, d) {
        None => None,
        Some(f) => {
            let (ys, ms, ds, rest) = f;
            match (parse_i32_spec(ys), parse_u32_spec(ms), parse_u32_spec(ds)) {
                (Some(y), Some(m), Some(dd)) => {
                    if valid_civil_date(y, m, dd) && trim_seq(rest).len() > 0 {
                        Some((rule, iso_date_text(y, m, dd), trim_seq(rest)))
                    } else {
                        None
                    }
                },
                _ => None,
            }
        },
    }
}

pub open spec fn dot_key() -> Seq<char> {
    seq!['d', 'a', 't', 'e', '_', 'd', 'o', 't']
}

pub open spec fn underscore_key() -> Seq<char> {
    seq!['d', 'a', 't', 'e', '_', 'u', 'n', 'd', 'e', 'r', 's', 'c', 'o', 'r', 'e']
}

pub open spec fn hyphen_key() -> Seq<char> {
    seq!['d', 'a', 't', 'e', '_', 'h', 'y', 'p', 'h', 'e', 'n']
}

/// The rules in the order in which they are tried: dot, underscore, hyphen.
pub open spec fn album_from_dir_spec(dir: Seq<char>) -> Option<(Seq<char>, Seq<char>, Seq<char>)> {
    if album_match(dot_key(), dir, '.') is Some {
        album_match(dot_key(), dir, '.')
    } else if album_match(underscore_key(), dir, '_') is Some {
        album_match(underscore_key(), dir, '_')
    } else {
        album_match(hyphen_key(), dir, '-')
    }
}

/// A rule that reads an album from a directory name.
pub trait AlbumRule {
    spec fn rule_key(&self) -> Seq<char>;

    spec fn delimiter(&self) -> char;

    fn key(&self) -> (r: &'static str)
        ensures
            r@ == self.rule_key(),
    ;

    fn parse(&self, dir_name: &str) -> (r: Option<AlbumRuleMatch>)
        ensures
            match_view(r) == album_match(self.rule_key(), dir_name@, self.delimiter()),
    ;
}

pub struct DotDateRule;

pub struct UnderscoreDateRule;

pub struct HyphenDateRule;

impl AlbumRule for DotDateRule {
    open spec fn rule_key(&self) -> Seq<char> {
        dot_key()
    }

    open spec fn delimiter(&self) -> char {
        '.'
    }

    fn key(&self) -> (r: &'static str) {
        proof {
            reveal_strlit("date_dot");
        }
        "date_dot"
    }

    fn parse(&self, dir_name: &str) -> (r: Option<AlbumRuleMatch>) {
        parse_by_delimiter(self.key(), dir_name, '.')
    }
}

impl AlbumRule for UnderscoreDateRule {
    open spec fn rule_key(&self) -> Seq<char> {
        underscore_key()
    }

    open spec fn delimiter(&self) -> char {
        '_'
    }

    fn key(&self) -> (r: &'static str) {
        proof {
            reveal_strlit("date_underscore");
        }
        "date_underscore"
    }

    fn parse(&self, dir_name: &str) -> (r: Option<AlbumRuleMatch>) {
        parse_by_delimiter(self.key(), dir_name, '_')
    }
}

impl AlbumRule for HyphenDateRule {
    open spec fn rule_key(&self) -> Seq<char> {
        hyphen_key()
    }

    open spec fn delimiter(&self) -> char {
        '-'
    }

    fn key(&self) -> (r: &'static str) {
        proof {
            reveal_strlit("date_hyphen");
        }
        "date_hyphen"
    }

    fn parse(&self, dir_name: &str) -> (r: Option<AlbumRuleMatch>) {
        parse_by_delimiter(self.key(), dir_name, '-')
    }
}

/// Reads an album from a directory name with the built-in rules, trying
/// the dot, underscore and hyphen rules in turn.
pub fn parse_album_from_dir_name(dir_name: &str) -> (r: Option<AlbumRuleMatch>)
    ensures
        match_view(r) == album_from_dir_spec(dir_name@),
{
    let m = DotDateRule.parse(dir_name);
    if m.is_some() {
        return m;
    }
    let m = UnderscoreDateRule.parse(dir_name);
    if m.is_some() {
        return m;
    }
    HyphenDateRule.parse(dir_name)
}

/// Reads an album from `dir_name` with delimiter `delim`, under the rule
/// name `rule_name`.
pub fn parse_by_delimiter(rule_name: &str, dir_name: &str, delim: char) -> (r: Option<
    AlbumRuleMatch,
>)
    ensures
        match_view(r) == album_match(rule_name@, dir_name@, delim),
{
    let v = chars_of(dir_name);
    let ghost s = v@;
    let p1 = match find_char_from(&v, delim, 0) {
        Some(p) => p,
        None => return None,
    };
    proof {
        lemma_first_index_from(s, delim, 0);
    }
    let p2 = match find_char_from(&v, delim, p1 + 1) {
        Some(p) => p,
        None => return None,
    };
    proof {
        lemma_first_index_from(s, delim, p1 + 1);
    }
    let p3 = match find_char_from(&v, delim, p2 + 1) {
        Some(p) => p,
        None => return None,
    };
    proof {
        lemma_first_index_from(s, delim, p2 + 1);
    }
    let year = match parse_i32_text(&v, 0, p1) {
        Some(y) => y,
        None => return None,
    };
    let month = match parse_u32_text(&v, p1 + 1, p2) {
        Some(m) => m,
        None => return None,
    };
    let day = match parse_u32_text(&v, p2 + 1, p3) {
        Some(d) => d,
        None => return None,
    };
    let date = match iso_date(year, month, day) {
        Some(t) => t,
        None => return None,
    };
    let rest = string_from_range(&v, p3 + 1, v.len());
    let name = trimmed(rest.as_str());
    if is_blank(name.as_str()) {
        proof {
            lemma_trim_idempotent_len(rest@);
        }
        return None;
    }
    proof {
        lemma_trim_idempotent_len(rest@);
    }
    Some(AlbumRuleMatch { rule_name: string_of(rule_name), album_date: date, album_name: name })
}

/// A trimmed text is empty exactly when trimming it again gives an empty text.
proof fn lemma_trim_idempotent_len(s: Seq<char>)
    ensures
        (trim_seq(trim_seq(s)).len() == 0) <==> (trim_seq(s).len() == 0),
{
    let t = trim_seq(s);
    lemma_skip_spaces_from(s, 0);
    lemma_trimmed_end(s, s.len() as int);
    if t.len() > 0 {
        // the first character of `t` is not a space
        lemma_skip_spaces_from(t, 0);
        assert(!is_space(t[0]));
        assert(skip_spaces_from(t, 0) == 0);
        lemma_trimmed_end(t, t.len() as int);
        assert(!is_space(t[t.len() - 1]));
        assert(trimmed_end(t, t.len() as int) == t.len());
    } else {
        assert(t.len() == 0);
    }
}

} // verus!
