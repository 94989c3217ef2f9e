//! Most-recently-used lists of files and folders.

use vstd::prelude::*;
use crate::palette::text_views;
use crate::query::at_most;
use crate::symbols::same_text;

verus! {

/// How many recent paths are kept.
pub const MAX_RECENT: usize = 10;

/// The items of `s` other than `p`, in order.
pub open spec fn without(s: Seq<Seq<char>>, p: Seq<char>) -> Seq<Seq<char>>
    decreases s.len(),
{
    if s.len() == 0 {
        seq![]
    } else if s.last() == p {
        without(s.drop_last(), p)
    } else {
        without(s.drop_last(), p).push(s.last())
    }
}

/// Puts `path` first in the recent list `list`, removing its earlier
/// occurrences and keeping at most `MAX_RECENT` paths.
pub fn add_recent(list: &mut Vec<String>, path: String)
    ensures
        text_views(final(list)@) == at_most(seq![path@] + without(text_views(old(list)@), path@), MAX_RECENT as nat),
{
    let ghost s = text_views(list@);
    let mut kept: Vec<String> = Vec::new();
    kept.push(path);
    let mut i: usize = 0;
    while i < list.len()
        invariant
            i <= list@.len(),
            s == text_views(list@),
            text_views(kept@) == seq![path@] + without(s.take(i as int), path@),
            kept@.len() > 0,
            kept@[0]@ == path@,
        decreases list@.len() - i,
    {
        assert(s.take(i + 1).drop_last() =~= s.take(i as int));
        assert(s.take(i + 1).last() == list@[i as int]@);
        let ghost w = without(s.take(i as int), path@);
        if !same_text(list[i].as_str(), kept[0].as_str()) {
            let ghost before = kept@;
            kept.push(list[i].clone());
            assert(text_views(kept@) =~= text_views(before).push(list@[i as int]@));
            assert(seq![path@] + w.push(list@[i as int]@) =~= (seq![path@] + w).push(list@[i as int]@));
        }
        i = i + 1;
    }
    assert(s.take(list@.len() as int) =~= s);
    let ghost all = kept@;
    kept.truncate(MAX_RECENT);
    assert(text_views(kept@) =~= at_most(text_views(all), MAX_RECENT as nat));
    *list = kept;
}

} // verus!
