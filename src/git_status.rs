//! The summary of a working tree's state shown in the status bar.

use vstd::prelude::*;

verus! {

/// The state of one path in the repository: what the index and the working
/// tree hold of it relative to the last commit.
#[derive(Clone, Copy, PartialEq, Eq, Structural)]
pub struct PathState {
    pub index_new: bool,
    pub index_modified: bool,
    pub index_deleted: bool,
    pub wt_new: bool,
    pub wt_modified: bool,
    pub wt_deleted: bool,
}

/// The path has staged changes.
pub open spec fn is_staged(p: PathState) -> bool {
    p.index_new || p.index_modified || p.index_deleted
}

/// The path has unstaged changes to a tracked file.
pub open spec fn is_changed(p: PathState) -> bool {
    p.wt_modified || p.wt_deleted
}

/// The path is not tracked.
pub open spec fn is_untracked(p: PathState) -> bool {
    p.wt_new
}

/// The number of paths among `s` with unstaged changes to tracked files.
pub open spec fn changed_count(s: Seq<PathState>) -> nat
    decreases s.len(),
{
    if s.len() == 0 {
        0
    } else {
        changed_count(s.drop_last()) + if is_changed(s.last()) { 1nat } else { 0nat }
    }
}

/// The number of paths among `s` with staged changes.
pub open spec fn staged_count(s: Seq<PathState>) -> nat
    decreases s.len(),
{
    if s.len() == 0 {
        0
    } else {
        staged_count(s.drop_last()) + if is_staged(s.last()) { 1nat } else { 0nat }
    }
}

/// The number of paths among `s` that are not tracked.
pub open spec fn untracked_count(s: Seq<PathState>) -> nat
    decreases s.len(),
{
    if s.len() == 0 {
        0
    } else {
        untracked_count(s.drop_last()) + if is_untracked(s.last()) { 1nat } else { 0nat }
    }
}

/// A repository's branch and how many paths are changed, staged and untracked.
pub struct GitStatus {
    pub branch: String,
    pub changed_files: usize,
    pub staged_files: usize,
    pub untracked_files: usize,
}

impl GitStatus {
    /// The summary of branch `branch` with the given path states; a path may
    /// count in several groups.
    pub fn from_states(branch: String, states: &Vec<PathState>) -> (r: GitStatus)
        ensures
            r.branch@ == branch@,
            r.changed_files == changed_count(states@),
            r.staged_files == staged_count(states@),
            r.untracked_files == untracked_count(states@),
    {
        let mut c: usize = 0;
        let mut s: usize = 0;
        let mut u: usize = 0;
        let mut i: usize = 0;
        while i < states.len()
            invariant
                i <= states@.len(),
                c == changed_count(states@.take(i as int)),
                s == staged_count(states@.take(i as int)),
                u == untracked_count(states@.take(i as int)),
                c <= i && s <= i && u <= i,
            decreases states@.len() - i,
        {
            assert(states@.take(i + 1).drop_last() =~= states@.take(i as int));
            let st = states[i];
            assert(states@.take(i + 1).last() == st);
            if st.index_new || st.index_modified || st.index_deleted {
                s = s + 1;
            }
            if st.wt_modified || st.wt_deleted {
                c = c + 1;
            }
            if st.wt_new {
                u = u + 1;
            }
            i = i + 1;
        }
        assert(states@.take(states@.len() as int) =~= states@);
        GitStatus { branch, changed_files: c, staged_files: s, untracked_files: u }
    }
}

} // verus!
