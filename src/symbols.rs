//! Pattern-based extraction of declared names (functions, classes, structs,
//! impls) from source text.

use vstd::prelude::*;
use crate::text::{lower_of, lowercase};

verus! {

pub const JS_FUNCTION: &'static str = r"(?m)^(?:export\s+)?(?:async\s+)?function\s+(\w+)";
pub const JS_CLASS: &'static str = r"(?m)^(?:export\s+)?class\s+(\w+)";
pub const PY_DEF: &'static str = r"(?m)^def\s+(\w+)";
pub const PY_CLASS: &'static str = r"(?m)^class\s+(\w+)";
pub const RS_FN: &'static str = r"(?m)^fn\s+(\w+)";
pub const RS_STRUCT: &'static str = r"(?m)^struct\s+(\w+)";
pub const RS_IMPL: &'static str = r"(?m)^impl\s+(\w+)";

/// The declaration patterns, in the order in which they are run.
pub open spec fn symbol_patterns() -> Seq<Seq<char>> {
    seq![JS_FUNCTION@, JS_CLASS@, PY_DEF@, PY_CLASS@, RS_FN@, RS_STRUCT@, RS_IMPL@]
}

/// The extensions (lowercase) of the files that are scanned for symbols.
pub open spec fn code_extensions() -> Seq<Seq<char>> {
    seq![
        "js"@, "ts"@, "py"@, "rs"@, "go"@, "java"@, "c"@, "cpp"@, "h"@, "hpp"@, "rb"@, "php"@,
    ]
}

/// The views of a sequence of strings.
pub open spec fn string_views(v: Seq<String>) -> Seq<Seq<char>> {
    v.map_values(|s: String| s@)
}

/// The views of a sequence of optional strings.
pub open spec fn opt_string_views(v: Seq<Option<String>>) -> Seq<Option<Seq<char>>> {
    v.map_values(|o: Option<String>| match o {
        Some(s) => Some(s@),
        None => None,
    })
}

/// For the regular expression `pattern` over `text`: none when `pattern` does
/// not compile, else the first capture group of each match, in order.
pub uninterp spec fn first_groups(pattern: Seq<char>, text: Seq<char>) -> Option<Seq<Option<Seq<char>>>>;

/// Relies on `regex::Regex::new`, which compiles `pattern` (an error when it is
/// not a valid expression), and on `Regex::captures_iter`, which yields the
/// successive non-overlapping matches over `text`; of each, group 1 is kept.
#[verifier::external_body]
fn first_group_captures(pattern: &str, text: &str) -> (r: Option<Vec<Option<String>>>)
    ensures
        match r {
            Some(v) => first_groups(pattern@, text@) == Some(opt_string_views(v@)),
            None => first_groups(pattern@, text@) is None,
        },
{
    regex::Regex::new(pattern).ok().map(
        |re| re.captures_iter(text).map(|c| c.get(1).map(|m| m.as_str().to_string())).collect(),
    )
}

/// The groups that took part in a match, in order.
pub open spec fn present(groups: Seq<Option<Seq<char>>>) -> Seq<Seq<char>>
    decreases groups.len(),
{
    if groups.len() == 0 {
        seq![]
    } else {
        let rest = present(groups.drop_last());
        match groups.last() {
            Some(g) => rest.push(g),
            None => rest,
        }
    }
}

/// The names that `pattern` captures in `text`; none when it does not compile.
pub open spec fn pattern_symbols(pattern: Seq<char>, text: Seq<char>) -> Seq<Seq<char>> {
    match first_groups(pattern, text) {
        Some(g) => present(g),
        None => seq![],
    }
}

/// The names that the first `n` patterns capture in `text`, pattern by pattern.
pub open spec fn symbols_upto(text: Seq<char>, n: nat) -> Seq<Seq<char>>
    decreases n,
{
    if n == 0 {
        seq![]
    } else {
        symbols_upto(text, (n - 1) as nat) + pattern_symbols(symbol_patterns()[n - 1], text)
    }
}

/// The symbols of a source file with lowercase extension `ext` and contents `text`.
pub open spec fn file_symbols(ext: Seq<char>, text: Option<Seq<char>>) -> Seq<Seq<char>> {
    match text {
        Some(t) => if code_extensions().contains(ext) {
            symbols_upto(t, 7)
        } else {
            seq![]
        },
        None => seq![],
    }
}

/// Whether `a` and `b` hold the same characters.
pub fn same_text(a: &str, b: &str) -> (r: bool)
    ensures
        r == (a@ == b@),
{
    let n = a.unicode_len();
    if n != b.unicode_len() {
        return false;
    }
    let mut i: usize = 0;
    while i < n
        invariant
            n == a@.len(),
            n == b@.len(),
            i <= n,
            forall|k: int| 0 <= k < i ==> a@[k] == b@[k],
        decreases n - i,
    {
        if a.get_char(i) != b.get_char(i) {
            return false;
        }
        i = i + 1;
    }
    assert(a@ =~= b@);
    true
}

/// Whether the lowercase extension `ext` names a scanned source type.
pub fn is_code_extension(ext: &str) -> (r: bool)
    ensures
        r == code_extensions().contains(ext@),
{
    let names: [&str; 12] = ["js", "ts", "py", "rs", "go", "java", "c", "cpp", "h", "hpp", "rb", "php"];
    assert(names@.map_values(|s: &str| s@) =~= code_extensions());
    let mut i: usize = 0;
    while i < 12
        invariant
            i <= 12,
            names@.map_values(|s: &str| s@) == code_extensions(),
            forall|k: int| 0 <= k < i ==> code_extensions()[k] != ext@,
        decreases 12 - i,
    {
        if same_text(ext, names[i]) {
            assert(code_extensions()[i as int] == ext@);
            return true;
        }
        i = i + 1;
    }
    false
}

/// The captured names among `groups`, in order; groups that did not take part
/// in their match are left out.
pub fn symbols_from_groups(groups: &Vec<Option<String>>) -> (r: Vec<String>)
    ensures
        string_views(r@) == present(opt_string_views(groups@)),
{
    let mut r: Vec<String> = Vec::new();
    let mut i: usize = 0;
    assert(opt_string_views(groups@.take(0)) =~= seq![]);
    while i < groups.len()
        invariant
            i <= groups@.len(),
            string_views(r@) == present(opt_string_views(groups@.take(i as int))),
        decreases groups@.len() - i,
    {
        let ghost before = opt_string_views(groups@.take(i as int));
        let ghost after = opt_string_views(groups@.take(i + 1));
        assert(after.drop_last() =~= before);
        match &groups[i] {
            Some(s) => {
                r.push(s.clone());
                assert(string_views(r@) =~= present(before).push(s@));
            },
            None => {},
        }
        i = i + 1;
    }
    assert(groups@.take(groups@.len() as int) =~= groups@);
    r
}

/// The symbols of a file whose lowercase extension is `ext`, with the given
/// contents (none when they could not be read).
pub fn symbols_in(ext: &str, contents: Option<&str>) -> (r: Vec<String>)
    ensures
        string_views(r@) == file_symbols(ext@, match contents {
            Some(t) => Some(t@),
            None => None,
        }),
{
    let mut r: Vec<String> = Vec::new();
    let text = match contents {
        Some(t) => t,
        None => {
            return r;
        },
    };
    if !is_code_extension(ext) {
        return r;
    }
    let patterns: [&str; 7] = [JS_FUNCTION, JS_CLASS, PY_DEF, PY_CLASS, RS_FN, RS_STRUCT, RS_IMPL];
    assert(patterns@.map_values(|s: &str| s@) =~= symbol_patterns());
    let mut i: usize = 0;
    while i < 7
        invariant
            i <= 7,
            patterns@.map_values(|s: &str| s@) == symbol_patterns(),
            string_views(r@) == symbols_upto(text@, i as nat),
        decreases 7 - i,
    {
        assert(patterns@[i as int]@ == symbol_patterns()[i as int]);
        match first_group_captures(patterns[i], text) {
            Some(groups) => {
                let found = symbols_from_groups(&groups);
                let ghost old_r = string_views(r@);
                let mut found = found;
                r.append(&mut found);
                assert(string_views(r@) =~= old_r + pattern_symbols(symbol_patterns()[i as int], text@));
            },
            None => {
                assert(pattern_symbols(symbol_patterns()[i as int], text@) =~= seq![]);
                assert(symbols_upto(text@, (i + 1) as nat) =~= symbols_upto(text@, i as nat));
            },
        }
        i = i + 1;
    }
    r
}

/// The symbols declared in a file with extension `extension` (of any case) and
/// the given contents: the names that the declaration patterns capture, pattern
/// by pattern and in text order within each, duplicates kept; none for a file
/// that is not source code or could not be read.
pub fn extract_symbols(extension: &str, contents: Option<&str>) -> (r: Vec<String>)
    ensures
        string_views(r@) == file_symbols(lower_of(extension@), match contents {
            Some(t) => Some(t@),
            None => None,
        }),
{
    let ext = lowercase(extension);
    symbols_in(ext.as_str(), contents)
}

} // verus!
