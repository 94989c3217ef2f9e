//! The file index: a store of entries keyed by path, rebuilt whole from a scan
//! of a root directory, and the read-only queries over it.

use vstd::prelude::*;
use dashmap::DashMap;
use crate::entry::{
    entry_from_scan, extension_of, opt_text, scanned_entry, EntryView, IndexEntry, ScannedFile,
};
use crate::query::{
    at_most, file_bucket, first_symbol, lemma_match_views_add, lemma_match_views_push, match_of,
    match_views, ranked_files, ranked_symbols, result_limit, score_name, symbol_bucket,
    symbol_score, with_extension, FileMatch,
};
use crate::text::{contains, has_infix, lower_of, lowercase};

verus! {

/// Relies on `dashmap::DashMap`, held as an opaque value; what it holds is
/// `stored`, which the wrappers below speak of.
#[verifier::external_type_specification]
#[verifier::external_body]
#[verifier::reject_recursive_types(K)]
#[verifier::reject_recursive_types(V)]
#[verifier::reject_recursive_types(S)]
pub struct ExDashMap<K, V, S>(DashMap<K, V, S>);

/// A map with no entries.
pub open spec fn no_entries() -> Map<Seq<char>, EntryView> {
    Map::empty()
}

/// What a map of entries holds: the entry (as its view) under each path.
pub uninterp spec fn stored(m: DashMap<String, IndexEntry>) -> Map<Seq<char>, EntryView>;

/// Relies on `DashMap::new`: a map that holds nothing.
#[verifier::external_body]
fn new_map() -> (r: DashMap<String, IndexEntry>)
    ensures
        stored(r) == no_entries(),
{
    DashMap::new()
}

/// Relies on `DashMap::clear`: every entry is removed.
#[verifier::external_body]
fn clear_map(m: &mut DashMap<String, IndexEntry>)
    ensures
        stored(*final(m)) == no_entries(),
{
    m.clear();
}

/// Relies on `DashMap::insert`: `value` is stored under `key`, replacing what
/// was there.
#[verifier::external_body]
fn insert_into(m: &mut DashMap<String, IndexEntry>, key: String, value: IndexEntry)
    ensures
        stored(*final(m)) == stored(*old(m)).insert(key@, value@),
{
    m.insert(key, value);
}

/// Relies on `DashMap::len`: the number of entries stored.
#[verifier::external_body]
fn map_len(m: &DashMap<String, IndexEntry>) -> (r: usize)
    ensures
        r as nat == stored(*m).len(),
{
    m.len()
}

/// Relies on `DashMap::iter`, which visits each stored entry once, in no
/// particular order: each key with a copy of its value.
#[verifier::external_body]
fn map_pairs(m: &DashMap<String, IndexEntry>) -> (r: Vec<(String, IndexEntry)>)
    ensures
        r@.len() == stored(*m).len(),
        forall|i: int|
            0 <= i < r@.len() ==> stored(*m).contains_key(#[trigger] r@[i].0@)
                && stored(*m)[r@[i].0@] == r@[i].1@,
        forall|i: int, j: int| 0 <= i < j < r@.len() ==> r@[i].0@ != r@[j].0@,
        forall|k: Seq<char>|
            #[trigger] stored(*m).contains_key(k) ==> exists|i: int| 0 <= i < r@.len() && r@[i].0@ == k,
{
    m.iter().map(|e| (e.key().clone(), e.value().clone())).collect()
}

/// Why a rebuild or a refresh was refused.
pub enum IndexError {
    /// The root directory does not exist; carries its path.
    NotFound(String),
    /// The operation needs a root and none was ever set.
    Config(String),
}

/// A summary of the index.
pub struct IndexStats {
    pub total_files: u32,
    pub total_size: i64,
    pub indexed_at: i64,
    pub root_path: String,
    pub is_indexing: bool,
}

/// The index: the root it was built from, the entries keyed by path, whether a
/// rebuild is under way, the bytes counted by the last rebuild and when it ended.
pub struct FileIndex {
    root: Option<String>,
    entries: DashMap<String, IndexEntry>,
    is_indexing: bool,
    total_size: u64,
    indexed_at: i64,
}

/// The entries that a scan gives, each under its path, a later one replacing
/// an earlier one with the same path; files whose metadata could not be read
/// (none) are skipped.
pub open spec fn scanned_map(files: Seq<Option<ScannedFile>>) -> Map<Seq<char>, EntryView>
    decreases files.len(),
{
    if files.len() == 0 {
        Map::empty()
    } else {
        let m = scanned_map(files.drop_last());
        match files.last() {
            Some(f) => m.insert(f.path@, scanned_entry(f)),
            None => m,
        }
    }
}

/// The bytes that a scan counts, with the wrapping of a 64-bit counter.
pub open spec fn scanned_bytes(files: Seq<Option<ScannedFile>>) -> u64
    decreases files.len(),
{
    if files.len() == 0 {
        0
    } else {
        let b = scanned_bytes(files.drop_last());
        match files.last() {
            Some(f) => ((b + f.size) % 0x1_0000_0000_0000_0000) as u64,
            None => b,
        }
    }
}

/// The number of files of a scan whose metadata was read.
pub open spec fn read_count(files: Seq<Option<ScannedFile>>) -> nat
    decreases files.len(),
{
    if files.len() == 0 {
        0
    } else {
        read_count(files.drop_last()) + if files.last() is Some { 1nat } else { 0nat }
    }
}

/// `es` lists the entries of `m`: each once, in some order.
pub open spec fn lists(m: Map<Seq<char>, EntryView>, es: Seq<EntryView>) -> bool {
    &&& es.len() == m.len()
    &&& forall|i: int| 0 <= i < es.len() ==> m.contains_key(#[trigger] es[i].path) && m[es[i].path] == es[i]
    &&& forall|i: int, j: int| 0 <= i < j < es.len() ==> es[i].path != es[j].path
    &&& forall|k: Seq<char>| #[trigger] m.contains_key(k) ==> exists|i: int| 0 <= i < es.len() && es[i].path == k
}

/// The entries of a sequence of (key, entry) pairs, as views.
pub open spec fn pair_views(v: Seq<(String, IndexEntry)>) -> Seq<EntryView> {
    v.map_values(|p: (String, IndexEntry)| p.1@)
}

/// The views of a sequence of entries.
pub open spec fn entry_views(v: Seq<IndexEntry>) -> Seq<EntryView> {
    v.map_values(|e: IndexEntry| e@)
}

/// No two files of a scan whose metadata was read share a path.
pub open spec fn distinct_paths(files: Seq<Option<ScannedFile>>) -> bool {
    forall|i: int, j: int|
        0 <= i < j < files.len() && files[i] is Some && files[j] is Some
            ==> #[trigger] files[i]->0.path@ != #[trigger] files[j]->0.path@
}

proof fn lemma_scanned_keys(files: Seq<Option<ScannedFile>>)
    ensures
        scanned_map(files).dom().finite(),
        forall|k: Seq<char>|
            #[trigger] scanned_map(files).contains_key(k) ==> exists|i: int|
                0 <= i < files.len() && files[i] is Some && files[i]->0.path@ == k,
    decreases files.len(),
{
    if files.len() > 0 {
        let p = files.drop_last();
        lemma_scanned_keys(p);
        assert forall|k: Seq<char>| #[trigger] scanned_map(files).contains_key(k) implies exists|i: int|
            0 <= i < files.len() && files[i] is Some && files[i]->0.path@ == k by {
            if scanned_map(p).contains_key(k) {
                let i = choose|i: int| 0 <= i < p.len() && p[i] is Some && p[i]->0.path@ == k;
                assert(files[i] == p[i]);
            } else {
                assert(files[files.len() - 1] is Some);
            }
        }
    }
}

/// After a rebuild from a scan that lists each path once, the index holds one
/// entry for each file whose metadata was read.
pub proof fn lemma_rebuild_count(files: Seq<Option<ScannedFile>>)
    requires
        distinct_paths(files),
    ensures
        scanned_map(files).len() == read_count(files),
    decreases files.len(),
{
    if files.len() > 0 {
        let p = files.drop_last();
        assert(distinct_paths(p)) by {
            assert forall|i: int, j: int|
                0 <= i < j < p.len() && p[i] is Some && p[j] is Some implies
                #[trigger] p[i]->0.path@ != #[trigger] p[j]->0.path@ by {
                assert(files[i] == p[i] && files[j] == p[j]);
            }
        }
        lemma_rebuild_count(p);
        lemma_scanned_keys(p);
        match files.last() {
            Some(f) => {
                if scanned_map(p).contains_key(f.path@) {
                    let i = choose|i: int| 0 <= i < p.len() && p[i] is Some && p[i]->0.path@ == f.path@;
                    assert(files[i] == p[i]);
                    assert(files[files.len() - 1] is Some);
                    assert(false);
                }
                assert(scanned_map(files).dom() =~= scanned_map(p).dom().insert(f.path@));
            },
            None => {},
        }
    }
}

/// After a rebuild from a scan that lists each path once, the file count of
/// the index statistics is the number of files whose metadata was read (when
/// that number fits in 32 bits).
pub proof fn lemma_stats_count(idx: &FileIndex, files: Seq<Option<ScannedFile>>)
    requires
        idx.contents() == scanned_map(files),
        distinct_paths(files),
        read_count(files) <= u32::MAX,
    ensures
        (idx.contents().len() as u32) as nat == read_count(files),
{
    lemma_rebuild_count(files);
}

/// Two listings of the same entries hold the same entries, the same number of
/// times; only their order may differ.
pub proof fn lemma_listings_agree(m: Map<Seq<char>, EntryView>, a: Seq<EntryView>, b: Seq<EntryView>)
    requires
        lists(m, a),
        lists(m, b),
    ensures
        a.len() == b.len(),
        a.to_set() == b.to_set(),
{
    assert forall|x: EntryView| a.to_set().contains(x) implies b.to_set().contains(x) by {
        let i = choose|i: int| 0 <= i < a.len() && a[i] == x;
        assert(m.contains_key(a[i].path));
        let j = choose|j: int| 0 <= j < b.len() && b[j].path == a[i].path;
        assert(b[j] == m[b[j].path]);
        assert(b.to_set().contains(b[j]));
    }
    assert forall|x: EntryView| b.to_set().contains(x) implies a.to_set().contains(x) by {
        let i = choose|i: int| 0 <= i < b.len() && b[i] == x;
        assert(m.contains_key(b[i].path));
        let j = choose|j: int| 0 <= j < a.len() && a[j].path == b[i].path;
        assert(a[j] == m[a[j].path]);
        assert(a.to_set().contains(a[j]));
    }
    assert(a.to_set() =~= b.to_set());
}

impl FileIndex {
    /// Every entry of an index has as extension what follows the last `.` of its
    /// name, and none when its name holds no `.`.
    pub proof fn lemma_entry_extensions(&self)
        requires
            self.wf(),
        ensures
            forall|k: Seq<char>| #[trigger] self.contents().contains_key(k)
                ==> self.contents()[k].extension == extension_of(self.contents()[k].name),
    {
    }

    /// The entries, each under its path.
    pub closed spec fn contents(&self) -> Map<Seq<char>, EntryView> {
        stored(self.entries)
    }

    /// The root of the last rebuild, if one was set and not cleared since.
    pub closed spec fn root_path(&self) -> Option<Seq<char>> {
        opt_text(self.root)
    }

    /// Whether a rebuild is under way.
    pub closed spec fn indexing(&self) -> bool {
        self.is_indexing
    }

    /// The bytes counted by the last rebuild.
    pub closed spec fn byte_count(&self) -> u64 {
        self.total_size
    }

    /// When the last rebuild ended, in seconds since the epoch.
    pub closed spec fn built_at(&self) -> i64 {
        self.indexed_at
    }

    /// Each entry is stored under its own path, has the extension of its name,
    /// and there are finitely many.
    pub open spec fn wf(&self) -> bool {
        &&& self.contents().dom().finite()
        &&& forall|k: Seq<char>| #[trigger] self.contents().contains_key(k) ==> self.contents()[k].path == k
        &&& forall|k: Seq<char>| #[trigger] self.contents().contains_key(k)
            ==> self.contents()[k].extension == extension_of(self.contents()[k].name)
    }

    /// An empty index with no root.
    pub fn new() -> (r: FileIndex)
        ensures
            r.wf(),
            r.contents() == no_entries(),
            r.root_path() is None,
            !r.indexing(),
            r.byte_count() == 0,
            r.built_at() == 0,
    {
        FileIndex { root: None, entries: new_map(), is_indexing: false, total_size: 0, indexed_at: 0 }
    }

    /// The root of the last rebuild, if any.
    pub fn index_root(&self) -> (r: Option<String>)
        ensures
            opt_text(r) == self.root_path(),
    {
        crate::entry::copy_text(&self.root)
    }

    /// Rebuilds the index from a scan of `root_path`. `root_exists` says whether
    /// the root was found; `files` holds, for each regular file under it, what
    /// its scan gave (none where its metadata could not be read); `now` is the
    /// time at which the rebuild ends. A missing root fails before anything
    /// changes.
    pub fn start_indexing(
        &mut self,
        root_path: String,
        root_exists: bool,
        files: Vec<Option<ScannedFile>>,
        now: i64,
    ) -> (r: Result<(), IndexError>)
        requires
            old(self).wf(),
        ensures
            final(self).wf(),
            !root_exists ==> {
                &&& r matches Err(IndexError::NotFound(p))
                &&& p@ == root_path@
                &&& final(self).contents() == old(self).contents()
                &&& final(self).root_path() == old(self).root_path()
                &&& final(self).indexing() == old(self).indexing()
                &&& final(self).byte_count() == old(self).byte_count()
                &&& final(self).built_at() == old(self).built_at()
            },
            root_exists ==> {
                &&& r is Ok
                &&& final(self).contents() == scanned_map(files@)
                &&& final(self).root_path() == Some(root_path@)
                &&& !final(self).indexing()
                &&& final(self).byte_count() == scanned_bytes(files@)
                &&& final(self).built_at() == now
            },
    {
        if !root_exists {
            return Err(IndexError::NotFound(root_path));
        }
        self.begin_rebuild(root_path);
        let mut i: usize = 0;
        while i < files.len()
            invariant
                i <= files@.len(),
                self.contents() == scanned_map(files@.take(i as int)),
                self.byte_count() == scanned_bytes(files@.take(i as int)),
                self.wf(),
                self.root_path() == Some(root_path@),
            decreases files@.len() - i,
        {
            assert(files@.take(i + 1).drop_last() =~= files@.take(i as int));
            match &files[i] {
                Some(f) => self.add_scanned(f),
                None => {},
            }
            i = i + 1;
        }
        assert(files@.take(files@.len() as int) =~= files@);
        self.finish_rebuild(now);
        Ok(())
    }

    /// Starts a rebuild from `root_path`: the root is set, the entries and the
    /// byte count are cleared, and the rebuild flag is raised.
    pub fn begin_rebuild(&mut self, root_path: String)
        requires
            old(self).wf(),
        ensures
            final(self).wf(),
            final(self).contents() == no_entries(),
            final(self).root_path() == Some(root_path@),
            final(self).indexing(),
            final(self).byte_count() == 0,
            final(self).built_at() == old(self).built_at(),
    {
        self.root = Some(root_path);
        clear_map(&mut self.entries);
        self.is_indexing = true;
        self.total_size = 0;
    }

    /// Records the entry of one scanned file under its path, replacing any
    /// entry there, and counts its bytes (wrapping at 64 bits).
    pub fn add_scanned(&mut self, f: &ScannedFile)
        requires
            old(self).wf(),
        ensures
            final(self).wf(),
            final(self).contents() == old(self).contents().insert(f.path@, scanned_entry(*f)),
            final(self).byte_count() == ((old(self).byte_count() + f.size) % 0x1_0000_0000_0000_0000) as u64,
            final(self).root_path() == old(self).root_path(),
            final(self).indexing() == old(self).indexing(),
            final(self).built_at() == old(self).built_at(),
    {
        let entry = entry_from_scan(f);
        insert_into(&mut self.entries, f.path.clone(), entry);
        self.total_size = self.total_size.wrapping_add(f.size);
    }

    /// Ends a rebuild at time `now`: the rebuild flag is lowered.
    pub fn finish_rebuild(&mut self, now: i64)
        requires
            old(self).wf(),
        ensures
            final(self).wf(),
            final(self).contents() == old(self).contents(),
            final(self).root_path() == old(self).root_path(),
            !final(self).indexing(),
            final(self).byte_count() == old(self).byte_count(),
            final(self).built_at() == now,
    {
        self.is_indexing = false;
        self.indexed_at = now;
    }

    /// Rebuilds the index from its stored root, as `start_indexing` does, and
    /// returns the number of entries (wrapped to 32 bits). Fails with `Config`
    /// when no root was ever set, before anything changes.
    pub fn refresh_index(&mut self, root_exists: bool, files: Vec<Option<ScannedFile>>, now: i64) -> (r: Result<u32, IndexError>)
        requires
            old(self).wf(),
        ensures
            final(self).wf(),
            old(self).root_path() is None ==> {
                &&& r matches Err(IndexError::Config(_))
                &&& final(self).contents() == old(self).contents()
                &&& final(self).root_path() == old(self).root_path()
                &&& final(self).indexing() == old(self).indexing()
                &&& final(self).byte_count() == old(self).byte_count()
                &&& final(self).built_at() == old(self).built_at()
            },
            old(self).root_path() is Some && !root_exists ==> {
                &&& r matches Err(IndexError::NotFound(p))
                &&& Some(p@) == old(self).root_path()
                &&& final(self).contents() == old(self).contents()
                &&& final(self).root_path() == old(self).root_path()
                &&& final(self).indexing() == old(self).indexing()
                &&& final(self).byte_count() == old(self).byte_count()
                &&& final(self).built_at() == old(self).built_at()
            },
            old(self).root_path() is Some && root_exists ==> {
                &&& r == Ok::<u32, IndexError>(scanned_map(files@).len() as u32)
                &&& final(self).contents() == scanned_map(files@)
                &&& final(self).root_path() == old(self).root_path()
                &&& !final(self).indexing()
                &&& final(self).byte_count() == scanned_bytes(files@)
                &&& final(self).built_at() == now
            },
    {
        let root = match self.index_root() {
            Some(p) => p,
            None => {
                return Err(IndexError::Config("No index root set".to_owned()));
            },
        };
        match self.start_indexing(root, root_exists, files, now) {
            Ok(()) => Ok(map_len(&self.entries) as u32),
            Err(e) => Err(e),
        }
    }

    /// Empties the index and unsets its root; the byte count and build time go
    /// back to zero, the rebuild flag is left as it is.
    pub fn clear_index(&mut self)
        requires
            old(self).wf(),
        ensures
            final(self).wf(),
            final(self).contents() == no_entries(),
            final(self).root_path() is None,
            final(self).indexing() == old(self).indexing(),
            final(self).byte_count() == 0,
            final(self).built_at() == 0,
    {
        clear_map(&mut self.entries);
        self.root = None;
        self.total_size = 0;
        self.indexed_at = 0;
    }

    /// The number of entries (wrapped to 32 bits), the bytes counted, the time
    /// of the last rebuild, the root (empty when unset) and the rebuild flag.
    pub fn get_index_stats(&self) -> (r: IndexStats)
        requires
            self.wf(),
        ensures
            r.total_files == self.contents().len() as u32,
            r.total_size == self.byte_count() as i64,
            r.indexed_at == self.built_at(),
            r.root_path@ == match self.root_path() {
                Some(p) => p,
                None => Seq::<char>::empty(),
            },
            r.is_indexing == self.indexing(),
    {
        let root_path = match &self.root {
            Some(p) => p.clone(),
            None => String::new(),
        };
        IndexStats {
            total_files: map_len(&self.entries) as u32,
            total_size: self.total_size as i64,
            indexed_at: self.indexed_at,
            root_path,
            is_indexing: self.is_indexing,
        }
    }

    /// Every entry, once each, in no particular order.
    pub fn get_all_indexed_files(&self) -> (r: Vec<IndexEntry>)
        requires
            self.wf(),
        ensures
            lists(self.contents(), entry_views(r@)),
    {
        let pairs = map_pairs(&self.entries);
        let mut r: Vec<IndexEntry> = Vec::new();
        let mut i: usize = 0;
        while i < pairs.len()
            invariant
                self.wf(),
                i <= pairs@.len(),
                r@.len() == i,
                forall|j: int| 0 <= j < i ==> #[trigger] r@[j]@ == pairs@[j].1@,
                pairs@.len() == self.contents().len(),
                forall|j: int|
                    0 <= j < pairs@.len() ==> self.contents().contains_key(#[trigger] pairs@[j].0@)
                        && self.contents()[pairs@[j].0@] == pairs@[j].1@,
            decreases pairs@.len() - i,
        {
            r.push(pairs[i].1.duplicate());
            i = i + 1;
        }
        let ghost es = entry_views(r@);
        assert forall|j: int| 0 <= j < es.len() implies es[j].path == pairs@[j].0@ by {
            assert(r@[j]@ == pairs@[j].1@);
        }
        assert forall|k: Seq<char>| #[trigger] self.contents().contains_key(k) implies
            exists|j: int| 0 <= j < es.len() && es[j].path == k by {
            let j = choose|j: int| 0 <= j < pairs@.len() && pairs@[j].0@ == k;
            assert(es[j].path == k);
        }
        r
    }

    /// Every (path, entry) pair of the index, once each, in no particular order.
    fn snapshot(&self) -> (r: Vec<(String, IndexEntry)>)
        requires
            self.wf(),
        ensures
            lists(self.contents(), pair_views(r@)),
    {
        let r = map_pairs(&self.entries);
        let ghost es = pair_views(r@);
        assert forall|j: int| 0 <= j < es.len() implies es[j].path == r@[j].0@ by {
            assert(self.contents().contains_key(r@[j].0@));
        }
        assert forall|k: Seq<char>| #[trigger] self.contents().contains_key(k) implies
            exists|j: int| 0 <= j < es.len() && es[j].path == k by {
            let j = choose|j: int| 0 <= j < r@.len() && r@[j].0@ == k;
            assert(es[j].path == k);
        }
        r
    }

    /// The first symbol of `e` whose lowercase form contains `q`.
    fn find_symbol(e: &IndexEntry, q: &str) -> (r: Option<String>)
        ensures
            opt_text(r) == first_symbol(e@.symbols, q@),
    {
        let syms = &e.symbols;
        let ghost all = e@.symbols;
        let mut j: usize = 0;
        assert(all.skip(0) =~= all);
        while j < syms.len()
            invariant
                j <= syms@.len(),
                all == crate::symbols::string_views(syms@),
                all == e@.symbols,
                first_symbol(all, q@) == first_symbol(all.skip(j as int), q@),
            decreases syms@.len() - j,
        {
            let low = lowercase(syms[j].as_str());
            assert(all.skip(j as int)[0] == syms@[j as int]@);
            if contains(low.as_str(), q) {
                let c = syms[j].clone();
                assert(c@ == all.skip(j as int)[0]);
                assert(all.skip(j as int).len() > 0);
                assert(has_infix(lower_of(all.skip(j as int)[0]), q@));
                assert(first_symbol(all.skip(j as int), q@) == Some(c@));
                return Some(c);
            }
            assert(all.skip(j as int).drop_first() =~= all.skip(j + 1));
            j = j + 1;
        }
        assert(all.skip(j as int).len() == 0);
        None
    }

    /// Files whose name matches `query` (case-insensitively): exact names
    /// first, then names that begin with it, then names that contain it, then
    /// names that hold its characters in order; at most `max_results` (50 when
    /// unset), each with its score in hundredths.
    pub fn search_files(&self, query: &str, max_results: Option<u32>) -> (r: Vec<FileMatch>)
        requires
            self.wf(),
        ensures
            exists|es: Seq<EntryView>|
                lists(self.contents(), es) && match_views(r@) == at_most(
                    #[trigger] ranked_files(es, lower_of(query@)),
                    result_limit(max_results),
                ),
    {
        let max = match max_results {
            Some(m) => m as usize,
            None => 50,
        };
        let q = lowercase(query);
        let pairs = self.snapshot();
        let ghost es = pair_views(pairs@);
        let mut b100: Vec<FileMatch> = Vec::new();
        let mut b90: Vec<FileMatch> = Vec::new();
        let mut b70: Vec<FileMatch> = Vec::new();
        let mut b50: Vec<FileMatch> = Vec::new();
        let mut i: usize = 0;
        while i < pairs.len()
            invariant
                i <= pairs@.len(),
                es == pair_views(pairs@),
                match_views(b100@) == file_bucket(es.take(i as int), q@, 100),
                match_views(b90@) == file_bucket(es.take(i as int), q@, 90),
                match_views(b70@) == file_bucket(es.take(i as int), q@, 70),
                match_views(b50@) == file_bucket(es.take(i as int), q@, 50),
            decreases pairs@.len() - i,
        {
            let e = &pairs[i].1;
            assert(es.take(i + 1).drop_last() =~= es.take(i as int));
            assert(es.take(i + 1).last() == e@);
            let n = lowercase(e.name.as_str());
            match score_name(n.as_str(), q.as_str()) {
                Some(s) => {
                    let m = match_of(e, e.name.clone(), s);
                    proof {
                        lemma_match_views_push(b100@, m);
                        lemma_match_views_push(b90@, m);
                        lemma_match_views_push(b70@, m);
                        lemma_match_views_push(b50@, m);
                    }
                    if s == 100 {
                        b100.push(m);
                    } else if s == 90 {
                        b90.push(m);
                    } else if s == 70 {
                        b70.push(m);
                    } else {
                        b50.push(m);
                    }
                },
                None => {},
            }
            i = i + 1;
        }
        assert(es.take(pairs@.len() as int) =~= es);
        proof {
            lemma_match_views_add(b100@, b90@);
            lemma_match_views_add(b100@ + b90@, b70@);
            lemma_match_views_add(b100@ + b90@ + b70@, b50@);
        }
        b100.append(&mut b90);
        b100.append(&mut b70);
        b100.append(&mut b50);
        let ghost all = b100@;
        assert(match_views(all) == ranked_files(es, lower_of(query@)));
        b100.truncate(max);
        assert(match_views(b100@) =~= at_most(match_views(all), result_limit(max_results)));
        assert(lists(self.contents(), es));
        b100
    }

    /// Files with a symbol that contains `query` (case-insensitively); each file
    /// gives at most one match, its first such symbol, scored 100 when the
    /// symbol equals the query and 70 otherwise; those of 100 come first; at
    /// most `max_results` (50 when unset).
    pub fn search_symbols(&self, query: &str, max_results: Option<u32>) -> (r: Vec<FileMatch>)
        requires
            self.wf(),
        ensures
            exists|es: Seq<EntryView>|
                lists(self.contents(), es) && match_views(r@) == at_most(
                    #[trigger] ranked_symbols(es, lower_of(query@)),
                    result_limit(max_results),
                ),
    {
        let max = match max_results {
            Some(m) => m as usize,
            None => 50,
        };
        let q = lowercase(query);
        let pairs = self.snapshot();
        let ghost es = pair_views(pairs@);
        let mut b100: Vec<FileMatch> = Vec::new();
        let mut b70: Vec<FileMatch> = Vec::new();
        let mut i: usize = 0;
        while i < pairs.len()
            invariant
                i <= pairs@.len(),
                es == pair_views(pairs@),
                match_views(b100@) == symbol_bucket(es.take(i as int), q@, 100),
                match_views(b70@) == symbol_bucket(es.take(i as int), q@, 70),
            decreases pairs@.len() - i,
        {
            let e = &pairs[i].1;
            assert(es.take(i + 1).drop_last() =~= es.take(i as int));
            assert(es.take(i + 1).last() == e@);
            match Self::find_symbol(e, q.as_str()) {
                Some(sym) => {
                    let low = lowercase(sym.as_str());
                    let exact = crate::symbols::same_text(low.as_str(), q.as_str());
                    let s: u32 = if exact { 100 } else { 70 };
                    assert(s == symbol_score(sym@, q@));
                    let m = match_of(e, sym, s);
                    proof {
                        lemma_match_views_push(b100@, m);
                        lemma_match_views_push(b70@, m);
                    }
                    if exact {
                        b100.push(m);
                    } else {
                        b70.push(m);
                    }
                },
                None => {},
            }
            i = i + 1;
        }
        assert(es.take(pairs@.len() as int) =~= es);
        proof {
            lemma_match_views_add(b100@, b70@);
        }
        b100.append(&mut b70);
        let ghost all = b100@;
        assert(match_views(all) == ranked_symbols(es, lower_of(query@)));
        b100.truncate(max);
        assert(match_views(b100@) =~= at_most(match_views(all), result_limit(max_results)));
        assert(lists(self.contents(), es));
        b100
    }

    /// Every entry whose extension equals `extension` case-insensitively, in no
    /// particular order and without bound.
    pub fn get_files_by_extension(&self, extension: &str) -> (r: Vec<IndexEntry>)
        requires
            self.wf(),
        ensures
            exists|es: Seq<EntryView>|
                lists(self.contents(), es) && entry_views(r@) == #[trigger] with_extension(es, lower_of(extension@)),
    {
        let q = lowercase(extension);
        let pairs = self.snapshot();
        let ghost es = pair_views(pairs@);
        let mut r: Vec<IndexEntry> = Vec::new();
        let mut i: usize = 0;
        while i < pairs.len()
            invariant
                i <= pairs@.len(),
                es == pair_views(pairs@),
                entry_views(r@) == with_extension(es.take(i as int), q@),
            decreases pairs@.len() - i,
        {
            let e = &pairs[i].1;
            assert(es.take(i + 1).drop_last() =~= es.take(i as int));
            assert(es.take(i + 1).last() == e@);
            match &e.extension {
                Some(x) => {
                    let low = lowercase(x.as_str());
                    if crate::symbols::same_text(low.as_str(), q.as_str()) {
                        let c = e.duplicate();
                        let ghost before = r@;
                        r.push(c);
                        assert(entry_views(r@) =~= entry_views(before).push(c@));
                    }
                },
                None => {},
            }
            i = i + 1;
        }
        assert(es.take(pairs@.len() as int) =~= es);
        r
    }
}

} // verus!
