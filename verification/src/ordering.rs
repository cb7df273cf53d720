//! Text order (`String`'s `Ord`: lexicographic by code point, which is
//! the byte order of UTF-8) and sorting listings by path.

use vstd::prelude::*;
use crate::storage::StorageEntry;
use crate::text::chars_of;

verus! {

broadcast use vstd::seq_lib::group_to_multiset_ensures;

/// `a < b` in text order.
pub open spec fn text_lt(a: Seq<char>, b: Seq<char>) -> bool
    decreases a.len(),
{
    if a.len() == 0 {
        b.len() > 0
    } else if b.len() == 0 {
        false
    } else if a[0] != b[0] {
        (a[0] as u32) < (b[0] as u32)
    } else {
        text_lt(a.drop_first(), b.drop_first())
    }
}

pub open spec fn text_le(a: Seq<char>, b: Seq<char>) -> bool {
    a == b || text_lt(a, b)
}

proof fn lemma_char_code_injective(c: char, d: char)
    ensures
        c != d ==> (c as u32) != (d as u32),
{
}

/// No text is before itself.
pub proof fn lemma_text_lt_irreflexive(a: Seq<char>)
    ensures
        !text_lt(a, a),
    decreases a.len(),
{
    if a.len() > 0 {
        lemma_text_lt_irreflexive(a.drop_first());
    }
}

/// Of two different texts, one is before the other.
pub proof fn lemma_text_trichotomy(a: Seq<char>, b: Seq<char>)
    ensures
        a == b || text_lt(a, b) || text_lt(b, a),
    decreases a.len(),
{
    if a.len() > 0 && b.len() > 0 && a[0] == b[0] {
        lemma_text_trichotomy(a.drop_first(), b.drop_first());
        if a.drop_first() == b.drop_first() {
            assert(a =~= seq![a[0]] + a.drop_first());
            assert(b =~= seq![b[0]] + b.drop_first());
        }
    } else if a.len() > 0 && b.len() > 0 {
        // the first characters differ and decide
        lemma_char_code_injective(a[0], b[0]);
    } else if a.len() == 0 && b.len() == 0 {
        assert(a =~= b);
    }
}

/// Text order is transitive.
pub proof fn lemma_text_lt_transitive(a: Seq<char>, b: Seq<char>, c: Seq<char>)
    requires
        text_lt(a, b),
        text_lt(b, c),
    ensures
        text_lt(a, c),
    decreases a.len(),
{
    if a.len() > 0 && b.len() > 0 && c.len() > 0 {
        if a[0] == b[0] && b[0] == c[0] {
            lemma_text_lt_transitive(a.drop_first(), b.drop_first(), c.drop_first());
        }
    }
}

/// A text before another is not after it.
pub proof fn lemma_text_lt_asymmetric(a: Seq<char>, b: Seq<char>)
    requires
        text_lt(a, b),
    ensures
        !text_lt(b, a),
{
    if text_lt(b, a) {
        lemma_text_lt_transitive(a, b, a);
        lemma_text_lt_irreflexive(a);
    }
}

/// `a < b` in text order.
pub fn text_less(a: &Vec<char>, b: &Vec<char>) -> (r: bool)
    ensures
        r == text_lt(a@, b@),
{
    let mut i: usize = 0;
    proof {
        assert(a@.skip(0) =~= a@);
        assert(b@.skip(0) =~= b@);
    }
    while i < a.len() && i < b.len() && a[i] == b[i]
        invariant
            i <= a.len(),
            i <= b.len(),
            forall|k: int| 0 <= k < i ==> a@[k] == b@[k],
            text_lt(a@, b@) == text_lt(a@.skip(i as int), b@.skip(i as int)),
        decreases a.len() - i,
    {
        proof {
            assert(a@.skip(i as int).drop_first() =~= a@.skip(i + 1));
            assert(b@.skip(i as int).drop_first() =~= b@.skip(i + 1));
        }
        i += 1;
    }
    if i == a.len() {
        i < b.len()
    } else if i == b.len() {
        false
    } else {
        (a[i] as u32) < (b[i] as u32)
    }
}

pub open spec fn sorted_by_path(s: Seq<StorageEntry>) -> bool {
    forall|i: int, j: int| 0 <= i < j < s.len() ==> text_le(#[trigger] s[i].path@, #[trigger] s[j].path@)
}

/// The listing in path order (the same entries, each path no greater than
/// the next).
pub fn sort_entries_by_path(entries: Vec<StorageEntry>) -> (r: Vec<StorageEntry>)
    ensures
        r@.to_multiset() == entries@.to_multiset(),
        r@.len() == entries@.len(),
        sorted_by_path(r@),
{
    let mut input = entries;
    let ghost original = input@;
    let mut out: Vec<StorageEntry> = Vec::new();
    proof {
        assert(original.subrange(0, original.len() as int) =~= original);
    }
    while input.len() > 0
        invariant
            input@ == original.subrange(0, input@.len() as int),
            input@.len() <= original.len(),
            out@.to_multiset() == original.subrange(input@.len() as int, original.len() as int).to_multiset(),
            out@.len() + input@.len() == original.len(),
            sorted_by_path(out@),
        decreases input.len(),
    {
        let ghost n = input@.len();
        let e = input.pop().unwrap();
        let key = chars_of(e.path.as_str());
        // first position whose path is greater than the new one
        let mut p: usize = 0;
        let mut found = false;
        while p < out.len() && !found
            invariant
                p <= out@.len(),
                sorted_by_path(out@),
                key@ == e.path@,
                forall|k: int| 0 <= k < p ==> text_le(#[trigger] out@[k].path@, e.path@),
                found ==> p < out@.len() && text_lt(e.path@, out@[p as int].path@),
            decreases out@.len() - p, if found { 0int } else { 1int },
        {
            let other = chars_of(out[p].path.as_str());
            if text_less(&key, &other) {
                found = true;
            } else {
                proof {
                    lemma_text_trichotomy(e.path@, out@[p as int].path@);
                }
                p += 1;
            }
        }
        proof {
            // everything from `p` on is greater than the new path
            assert forall|k: int| p <= k < out@.len() implies text_lt(e.path@, #[trigger] out@[k].path@) by {
                if k > p {
                    assert(text_le(out@[p as int].path@, out@[k].path@));
                    if out@[p as int].path@ != out@[k].path@ {
                        lemma_text_lt_transitive(e.path@, out@[p as int].path@, out@[k].path@);
                    }
                }
            }
        }
        let ghost before = out@;
        out.insert(p, e);
        proof {
            assert(original.subrange(n - 1, original.len() as int) =~= seq![original[n - 1]]
                + original.subrange(n as int, original.len() as int));
            assert(input@ =~= original.subrange(0, n - 1));
            vstd::seq_lib::lemma_multiset_commutative(
                seq![original[n - 1]],
                original.subrange(n as int, original.len() as int),
            );
            vstd::seq_lib::to_multiset_insert(before, p as int, e);
            assert(seq![e].to_multiset() =~= vstd::multiset::Multiset::empty().insert(e)) by {
                vstd::seq_lib::to_multiset_build(Seq::<StorageEntry>::empty(), e);
                assert(Seq::<StorageEntry>::empty().push(e) =~= seq![e]);
            }
            assert(out@.to_multiset() =~= original.subrange(n - 1, original.len() as int).to_multiset());
            assert forall|i: int, j: int| 0 <= i < j < out@.len() implies text_le(
                #[trigger] out@[i].path@,
                #[trigger] out@[j].path@,
            ) by {
                if i < p && j == p {
                } else if i == p && j > p {
                    assert(out@[j] == before[j - 1]);
                } else if i < p && j > p {
                    assert(out@[j] == before[j - 1]);
                    assert(out@[i] == before[i]);
                } else if j < p {
                    assert(out@[j] == before[j]);
                    assert(out@[i] == before[i]);
                } else {
                    assert(out@[j] == before[j - 1]);
                    assert(out@[i] == before[i - 1]);
                }
            }
        }
    }
    proof {
        assert(original.subrange(0, original.len() as int) =~= original);
    }
    out
}

} // verus!
