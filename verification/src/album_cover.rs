//! The cover of an album: one of its photos, or none.

use vstd::prelude::*;
use crate::paths::opt_view;
use crate::text::same_text;

verus! {

/// The texts of a list of strings.
pub open spec fn texts_view(v: Seq<String>) -> Seq<Seq<char>> {
    v.map_values(|s: String| s@)
}

/// The first photo of an album, if it has any.
pub open spec fn first_member(members: Seq<Seq<char>>) -> Option<Seq<char>> {
    if members.len() > 0 {
        Some(members[0])
    } else {
        None
    }
}

/// The cover an album keeps after its photos changed: its cover while that
/// photo is still one of them, else its first photo, else none.
pub open spec fn repaired_cover_spec(current: Option<Seq<char>>, members: Seq<Seq<char>>) -> Option<
    Seq<char>,
> {
    match current {
        Some(c) => if members.contains(c) {
            Some(c)
        } else {
            first_member(members)
        },
        None => first_member(members),
    }
}

/// The cover of an album whose photos are now `members` (in the order in
/// which they were added) and whose cover was `current`.
pub fn repaired_cover(current: &Option<String>, members: &Vec<String>) -> (r: Option<String>)
    ensures
        opt_view(r) == repaired_cover_spec(opt_view(*current), texts_view(members@)),
{
    if let Some(c) = current {
        let mut i: usize = 0;
        while i < members.len()
            invariant
                i <= members.len(),
                opt_view(*current) == Some(c@),
                forall|k: int| 0 <= k < i ==> (#[trigger] members@[k])@ != c@,
            decreases members.len() - i,
        {
            if same_text(members[i].as_str(), c.as_str()) {
                let r = c.clone();
                proof {
                    assert(texts_view(members@)[i as int] == c@);
                    assert(texts_view(members@).contains(c@));
                }
                return Some(r);
            }
            i += 1;
        }
        proof {
            assert forall|k: int| 0 <= k < texts_view(members@).len() implies #[trigger] texts_view(
                members@,
            )[k] != c@ by {
                assert(texts_view(members@)[k] == members@[k]@);
            }
        }
    }
    if members.len() > 0 {
        proof {
            assert(texts_view(members@)[0] == members@[0]@);
        }
        Some(members[0].clone())
    } else {
        None
    }
}

/// After a change of its photos, an album's cover is one of its photos, an
/// album without photos has no cover, a cover still among its photos is
/// kept, and repairing again changes nothing.
pub proof fn law_repaired_cover(current: Option<Seq<char>>, members: Seq<Seq<char>>)
    ensures
        repaired_cover_spec(current, members) matches Some(c) ==> members.contains(c),
        members.len() == 0 ==> repaired_cover_spec(current, members) is None,
        (current matches Some(c) && members.contains(c)) ==> repaired_cover_spec(current, members)
            == current,
        repaired_cover_spec(repaired_cover_spec(current, members), members)
            == repaired_cover_spec(current, members),
{
    if members.len() > 0 {
        assert(members[0] == members[0]);
        assert(members.contains(members[0]));
    }
}

} // verus!
