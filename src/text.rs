//! Character-level helpers over strings: subsequence, prefix and substring
//! tests, and the lowercase form used by case-insensitive comparisons.

use vstd::prelude::*;
use vstd::string::*;

verus! {

/// `q` occurs in `t` in order, not necessarily contiguously.
pub open spec fn is_subsequence(q: Seq<char>, t: Seq<char>) -> bool
    decreases t.len(),
{
    if q.len() == 0 {
        true
    } else if t.len() == 0 {
        false
    } else if t[0] == q[0] {
        is_subsequence(q.drop_first(), t.drop_first())
    } else {
        is_subsequence(q, t.drop_first())
    }
}

/// Whether `q` is a subsequence of `t`, by one greedy pass over `t`.
pub fn fuzzy_match(t: &str, q: &str) -> (r: bool)
    ensures
        r == is_subsequence(q@, t@),
{
    let tn = t.unicode_len();
    let qn = q.unicode_len();
    let mut i: usize = 0;
    let mut j: usize = 0;
    assert(q@.skip(0) =~= q@);
    assert(t@.skip(0) =~= t@);
    while i < tn && j < qn
        invariant
            tn == t@.len(),
            qn == q@.len(),
            i <= tn,
            j <= qn,
            is_subsequence(q@, t@) == is_subsequence(q@.skip(j as int), t@.skip(i as int)),
        decreases tn - i,
    {
        assert(t@.skip(i as int).drop_first() =~= t@.skip(i + 1));
        assert(q@.skip(j as int).drop_first() =~= q@.skip(j + 1));
        if t.get_char(i) == q.get_char(j) {
            j = j + 1;
        }
        i = i + 1;
    }
    assert(q@.skip(j as int).len() == qn - j);
    assert(t@.skip(i as int).len() == tn - i);
    j == qn
}

/// A path separator: `/` or `\`.
pub open spec fn is_separator(c: char) -> bool {
    c == '/' || c == '\\'
}

/// Whether `c` is a path separator, as `is_separator` states it.
pub fn is_separator_char(c: char) -> (r: bool)
    ensures
        r == is_separator(c),
{
    c == '/' || c == '\\'
}

/// `p` without the separators at its end.
pub open spec fn trim_trailing_slashes(p: Seq<char>) -> Seq<char>
    decreases p.len(),
{
    if p.len() > 0 && is_separator(p.last()) {
        trim_trailing_slashes(p.drop_last())
    } else {
        p
    }
}

/// Index just past the last separator of `p`, or 0 when `p` holds none.
pub open spec fn component_start(p: Seq<char>) -> int
    decreases p.len(),
{
    if p.len() == 0 {
        0
    } else if is_separator(p.last()) {
        p.len() as int
    } else {
        component_start(p.drop_last())
    }
}

/// The last component of a path split at `/` and `\`, trailing separators ignored;
/// none when that component is empty or `..`.
pub open spec fn file_name_of(p: Seq<char>) -> Option<Seq<char>> {
    let t = trim_trailing_slashes(p);
    let n = t.skip(component_start(t));
    if n.len() == 0 || n == seq!['.', '.'] {
        None
    } else {
        Some(n)
    }
}

proof fn lemma_component_start_bounds(p: Seq<char>)
    ensures
        0 <= component_start(p) <= p.len(),
    decreases p.len(),
{
    if p.len() > 0 && !is_separator(p.last()) {
        lemma_component_start_bounds(p.drop_last());
    }
}

/// The file name of a path, as `file_name_of` states it.
pub fn file_name(p: &str) -> (r: Option<String>)
    ensures
        match r {
            Some(n) => file_name_of(p@) == Some(n@),
            None => file_name_of(p@) is None,
        },
{
    let n = p.unicode_len();
    let mut end: usize = n;
    assert(p@.take(n as int) =~= p@);
    while end > 0 && is_separator_char(p.get_char(end - 1))
        invariant
            n == p@.len(),
            end <= n,
            trim_trailing_slashes(p@) == trim_trailing_slashes(p@.take(end as int)),
        decreases end,
    {
        assert(p@.take(end as int).drop_last() =~= p@.take(end - 1));
        end = end - 1;
    }
    let ghost t = p@.take(end as int);
    assert(trim_trailing_slashes(t) == t);
    let mut start: usize = end;
    assert(t.take(end as int) =~= t);
    while start > 0 && !is_separator_char(p.get_char(start - 1))
        invariant
            n == p@.len(),
            start <= end <= n,
            t == p@.take(end as int),
            component_start(t) == component_start(t.take(start as int)),
        decreases start,
    {
        assert(t.take(start as int).drop_last() =~= t.take(start - 1));
        start = start - 1;
    }
    proof {
        lemma_component_start_bounds(t);
    }
    assert(component_start(t) == start);
    let name = p.substring_char(start, end);
    assert(name@ =~= t.skip(start as int));
    let nl = end - start;
    if nl == 0 {
        None
    } else if nl == 2 && name.get_char(0) == '.' && name.get_char(1) == '.' {
        assert(name@ =~= seq!['.', '.']);
        None
    } else {
        proof {
            if name@ == seq!['.', '.'] {
                assert(name@[0] == '.' && name@[1] == '.');
            }
        }
        Some(name.to_owned())
    }
}

/// What `str::to_lowercase` returns for `s`.
pub uninterp spec fn lower_of(s: Seq<char>) -> Seq<char>;

/// Relies on `str::to_lowercase`: the lowercase form of `s`, a function of its
/// characters alone.
#[verifier::external_body]
pub(crate) fn lowercase(s: &str) -> (r: String)
    ensures
        r@ == lower_of(s@),
{
    s.to_lowercase()
}

/// `q` is a prefix of `t`.
pub open spec fn has_prefix(t: Seq<char>, q: Seq<char>) -> bool {
    q.len() <= t.len() && t.take(q.len() as int) == q
}

/// `q` occurs contiguously in `t`.
pub open spec fn has_infix(t: Seq<char>, q: Seq<char>) -> bool {
    exists|i: int| 0 <= i <= t.len() - q.len() && #[trigger] t.subrange(i, i + q.len()) == q
}

/// Whether `q` occurs in `t` starting at character `at`.
fn occurs_at(t: &str, q: &str, at: usize) -> (r: bool)
    requires
        at + q@.len() <= t@.len(),
        t@.len() <= usize::MAX,
    ensures
        r == (t@.subrange(at as int, at + q@.len()) == q@),
{
    let qn = q.unicode_len();
    let mut k: usize = 0;
    while k < qn
        invariant
            qn == q@.len(),
            at + qn <= t@.len(),
            t@.len() <= usize::MAX,
            k <= qn,
            forall|m: int| 0 <= m < k ==> t@[at + m] == q@[m],
        decreases qn - k,
    {
        if t.get_char(at + k) != q.get_char(k) {
            assert(t@.subrange(at as int, at + q@.len())[k as int] != q@[k as int]);
            return false;
        }
        k = k + 1;
    }
    assert(t@.subrange(at as int, at + q@.len()) =~= q@);
    true
}

/// Whether `q` is a prefix of `t`.
pub fn starts_with(t: &str, q: &str) -> (r: bool)
    ensures
        r == has_prefix(t@, q@),
{
    if q.unicode_len() > t.unicode_len() {
        return false;
    }
    assert(t@.len() <= usize::MAX);
    let r = occurs_at(t, q, 0);
    assert(t@.subrange(0, q@.len() as int) =~= t@.take(q@.len() as int));
    r
}

/// Whether `q` occurs contiguously in `t`.
pub fn contains(t: &str, q: &str) -> (r: bool)
    ensures
        r == has_infix(t@, q@),
{
    let tn = t.unicode_len();
    let qn = q.unicode_len();
    if qn > tn {
        return false;
    }
    let last = tn - qn;
    let mut i: usize = 0;
    loop
        invariant
            tn == t@.len(),
            qn == q@.len(),
            last == tn - qn,
            i <= last,
            forall|j: int| 0 <= j < i ==> #[trigger] t@.subrange(j, j + qn) != q@,
        decreases last - i,
    {
        if occurs_at(t, q, i) {
            return true;
        }
        if i == last {
            return false;
        }
        i = i + 1;
    }
}

} // verus!
