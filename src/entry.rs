//! Index entries: what the index records of one file, and how an entry is
//! built from what a metadata read and a content read gave.

use vstd::prelude::*;
use crate::text::{file_name, file_name_of};
use crate::symbols::{code_extensions, extract_symbols, file_symbols, is_code_extension, string_views};
use crate::text::lowercase;
use crate::text::lower_of;

verus! {

/// The mathematical value of an `IndexEntry`.
pub struct EntryView {
    pub path: Seq<char>,
    pub name: Seq<char>,
    pub extension: Option<Seq<char>>,
    pub size: i64,
    pub modified: i64,
    pub symbols: Seq<Seq<char>>,
}

/// One indexed file: its path, file name, extension (without the dot), size
/// in bytes, modification time in seconds since the epoch, and the symbols
/// declared in it.
#[derive(Clone)]
pub struct IndexEntry {
    pub path: String,
    pub name: String,
    pub extension: Option<String>,
    pub size: i64,
    pub modified: i64,
    pub symbols: Vec<String>,
}

/// The view of an optional string.
pub open spec fn opt_text(o: Option<String>) -> Option<Seq<char>> {
    match o {
        Some(s) => Some(s@),
        None => None,
    }
}

/// The view of an optional string slice.
pub open spec fn opt_str(o: Option<&str>) -> Option<Seq<char>> {
    match o {
        Some(s) => Some(s@),
        None => None,
    }
}

impl View for IndexEntry {
    type V = EntryView;

    open spec fn view(&self) -> EntryView {
        EntryView {
            path: self.path@,
            name: self.name@,
            extension: opt_text(self.extension),
            size: self.size,
            modified: self.modified,
            symbols: string_views(self.symbols@),
        }
    }
}

/// A copy of an optional string.
pub fn copy_text(o: &Option<String>) -> (r: Option<String>)
    ensures
        opt_text(r) == opt_text(*o),
{
    match o {
        Some(s) => Some(s.clone()),
        None => None,
    }
}

/// A copy of a list of strings.
pub fn copy_strings(v: &Vec<String>) -> (r: Vec<String>)
    ensures
        string_views(r@) == string_views(v@),
{
    let mut r: Vec<String> = Vec::new();
    let mut i: usize = 0;
    while i < v.len()
        invariant
            i <= v@.len(),
            string_views(r@) == string_views(v@.take(i as int)),
        decreases v@.len() - i,
    {
        let s = v[i].clone();
        assert(s@ == v@[i as int]@);
        let ghost before = r@;
        assert(string_views(before).len() == before.len());
        assert(string_views(v@.take(i as int)).len() == i);
        assert(before.len() == i);
        r.push(s);
        assert(r@ == before.push(s));
        assert forall|j: int| 0 <= j < i + 1 implies #[trigger] string_views(r@)[j] == string_views(v@.take(i + 1))[j] by {
            assert(v@.take(i + 1)[j] == v@[j]);
            if j < i {
                assert(string_views(before)[j] == string_views(v@.take(i as int))[j]);
                assert(v@.take(i as int)[j] == v@[j]);
                assert(r@[j] == before[j]);
            } else {
                assert(r@[j] == s);
            }
        }
        assert(string_views(r@) =~= string_views(v@.take(i + 1)));
        i = i + 1;
    }
    assert(v@.take(v@.len() as int) =~= v@);
    r
}

impl IndexEntry {
    /// A copy of this entry.
    pub fn duplicate(&self) -> (r: IndexEntry)
        ensures
            r@ == self@,
    {
        IndexEntry {
            path: self.path.clone(),
            name: self.name.clone(),
            extension: copy_text(&self.extension),
            size: self.size,
            modified: self.modified,
            symbols: copy_strings(&self.symbols),
        }
    }
}

/// Index just past the last `.` of `n`, or 0 when `n` holds none.
pub open spec fn dot_end(n: Seq<char>) -> int
    decreases n.len(),
{
    if n.len() == 0 {
        0
    } else if n.last() == '.' {
        n.len() as int
    } else {
        dot_end(n.drop_last())
    }
}

/// The extension of a file name: what follows its last `.`; none without a `.`.
pub open spec fn extension_of(name: Seq<char>) -> Option<Seq<char>> {
    if dot_end(name) == 0 {
        None
    } else {
        Some(name.skip(dot_end(name)))
    }
}

proof fn lemma_dot_end_bounds(n: Seq<char>)
    ensures
        0 <= dot_end(n) <= n.len(),
        dot_end(n) > 0 ==> n[dot_end(n) - 1] == '.',
    decreases n.len(),
{
    if n.len() > 0 && n.last() != '.' {
        lemma_dot_end_bounds(n.drop_last());
    }
}

/// The extension of the file name `name`, as `extension_of` states it.
pub fn extension(name: &str) -> (r: Option<String>)
    ensures
        opt_text(r) == extension_of(name@),
{
    let n = name.unicode_len();
    let mut k: usize = n;
    assert(name@.take(n as int) =~= name@);
    while k > 0 && name.get_char(k - 1) != '.'
        invariant
            n == name@.len(),
            k <= n,
            dot_end(name@) == dot_end(name@.take(k as int)),
        decreases k,
    {
        assert(name@.take(k as int).drop_last() =~= name@.take(k - 1));
        k = k - 1;
    }
    proof {
        lemma_dot_end_bounds(name@);
    }
    assert(dot_end(name@) == k);
    if k == 0 {
        None
    } else {
        Some(name.substring_char(k, n).to_owned())
    }
}

/// The name recorded for a file at `path`: its file name, else empty.
pub open spec fn name_of_path(path: Seq<char>) -> Seq<char> {
    match file_name_of(path) {
        Some(n) => n,
        None => seq![],
    }
}

/// The symbols recorded for a file with extension `ext` and the given contents.
pub open spec fn entry_symbols(ext: Option<Seq<char>>, contents: Option<Seq<char>>) -> Seq<Seq<char>> {
    match ext {
        Some(e) => file_symbols(lower_of(e), contents),
        None => seq![],
    }
}

/// The entry for the file at `path` with the given size, modification time and
/// contents (none when they could not be read).
pub open spec fn entry_of(path: Seq<char>, size: u64, modified: i64, contents: Option<Seq<char>>) -> EntryView {
    let name = name_of_path(path);
    let ext = extension_of(name);
    EntryView {
        path,
        name,
        extension: ext,
        size: size as i64,
        modified,
        symbols: entry_symbols(ext, contents),
    }
}

/// Builds the entry of the file at `path` from its size in bytes, its
/// modification time in seconds since the epoch, and its contents (none when
/// they could not be read as text).
pub fn build_entry(path: String, size: u64, modified: i64, contents: Option<&str>) -> (r: IndexEntry)
    ensures
        r@ == entry_of(path@, size, modified, opt_str(contents)),
        r@.extension == extension_of(r@.name),
{
    let name = match file_name(path.as_str()) {
        Some(n) => n,
        None => String::new(),
    };
    let ext = extension(name.as_str());
    let symbols = match &ext {
        Some(e) => extract_symbols(e.as_str(), contents),
        None => Vec::new(),
    };
    let r = IndexEntry { path, name, extension: ext, size: size as i64, modified, symbols };
    assert(string_views(r.symbols@) =~= entry_symbols(opt_text(r.extension), opt_str(contents)));
    r
}

/// Whether symbols are extracted from the file at `path`, so that its contents
/// are worth reading: its extension, lowercased, names a scanned source type.
pub fn reads_contents(path: &str) -> (r: bool)
    ensures
        r == match extension_of(name_of_path(path@)) {
            Some(e) => code_extensions().contains(lower_of(e)),
            None => false,
        },
{
    let name = match file_name(path) {
        Some(n) => n,
        None => String::new(),
    };
    match extension(name.as_str()) {
        Some(e) => {
            let low = lowercase(e.as_str());
            is_code_extension(low.as_str())
        },
        None => false,
    }
}

/// What a scan gave for one file: its path, size, modification time and
/// contents (none when they could not be read as text).
pub struct ScannedFile {
    pub path: String,
    pub size: u64,
    pub modified: i64,
    pub contents: Option<String>,
}

/// The entry that a scanned file gives.
pub open spec fn scanned_entry(f: ScannedFile) -> EntryView {
    entry_of(f.path@, f.size, f.modified, opt_text(f.contents))
}

/// Builds the entry of a scanned file.
pub fn entry_from_scan(f: &ScannedFile) -> (r: IndexEntry)
    ensures
        r@ == scanned_entry(*f),
{
    let contents = match &f.contents {
        Some(c) => Some(c.as_str()),
        None => None,
    };
    build_entry(f.path.clone(), f.size, f.modified, contents)
}

} // verus!
