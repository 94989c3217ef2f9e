//! Scoring and ranking of lookups: filename matches, symbol matches and the
//! extension filter, stated over a listing of the index's entries.

use vstd::prelude::*;
use crate::entry::{EntryView, IndexEntry};
use crate::text::{contains, fuzzy_match, has_infix, has_prefix, is_subsequence, lower_of, starts_with};
use crate::symbols::same_text;

verus! {

/// A match of a lookup: the file's path, the name that matched (file name or
/// symbol), its relevance in hundredths (100, 90, 70 or 50) and the file's
/// extension.
pub struct FileMatch {
    pub path: String,
    pub name: String,
    pub score: u32,
    pub extension: Option<String>,
}

/// The mathematical value of a `FileMatch`.
pub struct MatchView {
    pub path: Seq<char>,
    pub name: Seq<char>,
    pub score: u32,
    pub extension: Option<Seq<char>>,
}

impl View for FileMatch {
    type V = MatchView;

    open spec fn view(&self) -> MatchView {
        MatchView {
            path: self.path@,
            name: self.name@,
            score: self.score,
            extension: crate::entry::opt_text(self.extension),
        }
    }
}

/// The views of a sequence of matches.
pub open spec fn match_views(v: Seq<FileMatch>) -> Seq<MatchView> {
    v.map_values(|m: FileMatch| m@)
}

/// The score of lowercase file name `n` for lowercase query `q`: 100 when
/// equal, 90 when `q` begins `n`, 70 when `q` occurs in `n`, 50 when the
/// characters of `q` occur in `n` in order; none otherwise.
pub open spec fn name_score(n: Seq<char>, q: Seq<char>) -> Option<u32> {
    if n == q {
        Some(100)
    } else if has_prefix(n, q) {
        Some(90)
    } else if has_infix(n, q) {
        Some(70)
    } else if is_subsequence(q, n) {
        Some(50)
    } else {
        None
    }
}

/// The score of a lowercase file name against a lowercase query, as
/// `name_score` states it.
pub fn score_name(name_lower: &str, query_lower: &str) -> (r: Option<u32>)
    ensures
        r == name_score(name_lower@, query_lower@),
{
    if same_text(name_lower, query_lower) {
        Some(100)
    } else if starts_with(name_lower, query_lower) {
        Some(90)
    } else if contains(name_lower, query_lower) {
        Some(70)
    } else if fuzzy_match(name_lower, query_lower) {
        Some(50)
    } else {
        None
    }
}

/// The filename matches of score `s` among `es`, in the order of `es`.
pub open spec fn file_bucket(es: Seq<EntryView>, q: Seq<char>, s: u32) -> Seq<MatchView>
    decreases es.len(),
{
    if es.len() == 0 {
        seq![]
    } else {
        let rest = file_bucket(es.drop_last(), q, s);
        let e = es.last();
        if name_score(lower_of(e.name), q) == Some(s) {
            rest.push(MatchView { path: e.path, name: e.name, score: s, extension: e.extension })
        } else {
            rest
        }
    }
}

/// The filename matches among `es` for lowercase query `q`, best score first.
pub open spec fn ranked_files(es: Seq<EntryView>, q: Seq<char>) -> Seq<MatchView> {
    file_bucket(es, q, 100) + file_bucket(es, q, 90) + file_bucket(es, q, 70) + file_bucket(es, q, 50)
}

/// The first of `syms` whose lowercase form contains lowercase query `q`.
pub open spec fn first_symbol(syms: Seq<Seq<char>>, q: Seq<char>) -> Option<Seq<char>>
    decreases syms.len(),
{
    if syms.len() == 0 {
        None
    } else if has_infix(lower_of(syms[0]), q) {
        Some(syms[0])
    } else {
        first_symbol(syms.drop_first(), q)
    }
}

/// The score of a matching symbol: 100 when its lowercase form is the query.
pub open spec fn symbol_score(sym: Seq<char>, q: Seq<char>) -> u32 {
    if lower_of(sym) == q {
        100
    } else {
        70
    }
}

/// The symbol matches of score `s` among `es`, in the order of `es`.
pub open spec fn symbol_bucket(es: Seq<EntryView>, q: Seq<char>, s: u32) -> Seq<MatchView>
    decreases es.len(),
{
    if es.len() == 0 {
        seq![]
    } else {
        let rest = symbol_bucket(es.drop_last(), q, s);
        let e = es.last();
        match first_symbol(e.symbols, q) {
            Some(sym) => if symbol_score(sym, q) == s {
                rest.push(MatchView { path: e.path, name: sym, score: s, extension: e.extension })
            } else {
                rest
            },
            None => rest,
        }
    }
}

/// The symbol matches among `es` for lowercase query `q`, best score first.
pub open spec fn ranked_symbols(es: Seq<EntryView>, q: Seq<char>) -> Seq<MatchView> {
    symbol_bucket(es, q, 100) + symbol_bucket(es, q, 70)
}

/// The entries among `es` whose extension, lowercased, is `q`.
pub open spec fn with_extension(es: Seq<EntryView>, q: Seq<char>) -> Seq<EntryView>
    decreases es.len(),
{
    if es.len() == 0 {
        seq![]
    } else {
        let rest = with_extension(es.drop_last(), q);
        match es.last().extension {
            Some(x) => if lower_of(x) == q {
                rest.push(es.last())
            } else {
                rest
            },
            None => rest,
        }
    }
}

/// The number of results a lookup may return: `max`, or 50 when unset.
pub open spec fn result_limit(max: Option<u32>) -> nat {
    match max {
        Some(m) => m as nat,
        None => 50,
    }
}

/// At most the first `n` items of `s`.
pub open spec fn at_most<A>(s: Seq<A>, n: nat) -> Seq<A> {
    if n < s.len() {
        s.take(n as int)
    } else {
        s
    }
}

/// The views of a sequence with one match added.
pub proof fn lemma_match_views_push(v: Seq<FileMatch>, m: FileMatch)
    ensures
        match_views(v.push(m)) == match_views(v).push(m@),
{
    assert(match_views(v.push(m)) =~= match_views(v).push(m@));
}

/// The views of two sequences of matches joined.
pub proof fn lemma_match_views_add(a: Seq<FileMatch>, b: Seq<FileMatch>)
    ensures
        match_views(a + b) == match_views(a) + match_views(b),
{
    assert(match_views(a + b) =~= match_views(a) + match_views(b));
}

/// Every filename match of score `s` has score `s`.
pub proof fn lemma_file_bucket_scores(es: Seq<EntryView>, q: Seq<char>, s: u32)
    ensures
        forall|i: int| 0 <= i < file_bucket(es, q, s).len() ==> #[trigger] file_bucket(es, q, s)[i].score == s,
    decreases es.len(),
{
    if es.len() > 0 {
        lemma_file_bucket_scores(es.drop_last(), q, s);
    }
}

/// Every symbol match of score `s` has score `s`.
pub proof fn lemma_symbol_bucket_scores(es: Seq<EntryView>, q: Seq<char>, s: u32)
    ensures
        forall|i: int| 0 <= i < symbol_bucket(es, q, s).len() ==> #[trigger] symbol_bucket(es, q, s)[i].score == s,
    decreases es.len(),
{
    if es.len() > 0 {
        lemma_symbol_bucket_scores(es.drop_last(), q, s);
    }
}

/// Ranked filename matches, cut to any length, come best score first.
pub proof fn lemma_ranked_files_descending(es: Seq<EntryView>, q: Seq<char>, n: nat)
    ensures
        forall|i: int, j: int|
            0 <= i < j < at_most(ranked_files(es, q), n).len() ==> #[trigger] at_most(ranked_files(es, q), n)[i].score
                >= #[trigger] at_most(ranked_files(es, q), n)[j].score,
{
    let a = file_bucket(es, q, 100);
    let b = file_bucket(es, q, 90);
    let c = file_bucket(es, q, 70);
    let d = file_bucket(es, q, 50);
    lemma_file_bucket_scores(es, q, 100);
    lemma_file_bucket_scores(es, q, 90);
    lemma_file_bucket_scores(es, q, 70);
    lemma_file_bucket_scores(es, q, 50);
    let r = ranked_files(es, q);
    assert forall|i: int| 0 <= i < r.len() implies #[trigger] r[i].score == if i < a.len() {
        100u32
    } else if i < a.len() + b.len() {
        90u32
    } else if i < a.len() + b.len() + c.len() {
        70u32
    } else {
        50u32
    } by {
        if i < a.len() {
            assert(r[i] == a[i]);
        } else if i < a.len() + b.len() {
            assert(r[i] == b[i - a.len()]);
        } else if i < a.len() + b.len() + c.len() {
            assert(r[i] == c[i - a.len() - b.len()]);
        } else {
            assert(r[i] == d[i - a.len() - b.len() - c.len()]);
        }
    }
    let t = at_most(r, n);
    assert forall|i: int| 0 <= i < t.len() implies #[trigger] t[i] == r[i] by {}
}

/// Ranked symbol matches, cut to any length, come best score first.
pub proof fn lemma_ranked_symbols_descending(es: Seq<EntryView>, q: Seq<char>, n: nat)
    ensures
        forall|i: int, j: int|
            0 <= i < j < at_most(ranked_symbols(es, q), n).len() ==> #[trigger] at_most(ranked_symbols(es, q), n)[i].score
                >= #[trigger] at_most(ranked_symbols(es, q), n)[j].score,
{
    let a = symbol_bucket(es, q, 100);
    let b = symbol_bucket(es, q, 70);
    lemma_symbol_bucket_scores(es, q, 100);
    lemma_symbol_bucket_scores(es, q, 70);
    let r = ranked_symbols(es, q);
    assert forall|i: int| 0 <= i < r.len() implies #[trigger] r[i].score == if i < a.len() {
        100u32
    } else {
        70u32
    } by {
        if i < a.len() {
            assert(r[i] == a[i]);
        } else {
            assert(r[i] == b[i - a.len()]);
        }
    }
    let t = at_most(r, n);
    assert forall|i: int| 0 <= i < t.len() implies #[trigger] t[i] == r[i] by {}
}

/// A copy of a match built from an entry, with the given name and score.
pub fn match_of(e: &IndexEntry, name: String, score: u32) -> (r: FileMatch)
    ensures
        r@ == (MatchView { path: e@.path, name: name@, score, extension: e@.extension }),
{
    FileMatch { path: e.path.clone(), name, score, extension: crate::entry::copy_text(&e.extension) }
}

} // verus!
