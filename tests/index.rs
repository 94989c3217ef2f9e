use valyxo_index::entry::{build_entry, extension, ScannedFile};
use valyxo_index::index::{FileIndex, IndexError};
use valyxo_index::query::score_name;
use valyxo_index::symbols::{extract_symbols, is_code_extension, symbols_from_groups};

fn scanned(path: &str, size: u64, contents: Option<&str>) -> Option<ScannedFile> {
    Some(ScannedFile {
        path: path.to_string(),
        size,
        modified: 1_700_000_000,
        contents: contents.map(|c| c.to_string()),
    })
}

fn built(files: Vec<Option<ScannedFile>>) -> FileIndex {
    let mut idx = FileIndex::new();
    assert!(idx.start_indexing("/proj".to_string(), true, files, 42).is_ok());
    idx
}

fn ranking_index() -> FileIndex {
    built(vec![
        scanned("/proj/m_a_i_n.txt", 1, None),
        scanned("/proj/domain.py", 2, None),
        scanned("/proj/src/main.rs", 3, None),
        scanned("/proj/main", 4, None),
        scanned("/proj/zzz.txt", 5, None),
    ])
}

#[test]
fn search_ranks_exact_prefix_substring_fuzzy() {
    let idx = ranking_index();
    let r = idx.search_files("main", None);
    let names: Vec<&str> = r.iter().map(|m| m.name.as_str()).collect();
    assert_eq!(names, vec!["main", "main.rs", "domain.py", "m_a_i_n.txt"]);
    let scores: Vec<u32> = r.iter().map(|m| m.score).collect();
    assert_eq!(scores, vec![100, 90, 70, 50]);
    assert_eq!(r[1].path, "/proj/src/main.rs");
    assert_eq!(r[1].extension.as_deref(), Some("rs"));
}

#[test]
fn search_is_case_insensitive() {
    let idx = ranking_index();
    let r = idx.search_files("MAIN", None);
    assert_eq!(r.len(), 4);
    assert_eq!(r[0].name, "main");
    assert_eq!(r[0].score, 100);
}

#[test]
fn search_with_zero_limit_is_empty() {
    let idx = ranking_index();
    assert!(idx.search_files("main", Some(0)).is_empty());
}

#[test]
fn search_limit_keeps_best() {
    let idx = ranking_index();
    let r = idx.search_files("main", Some(2));
    let names: Vec<&str> = r.iter().map(|m| m.name.as_str()).collect();
    assert_eq!(names, vec!["main", "main.rs"]);
}

#[test]
fn search_excludes_unaligned_names() {
    let idx = ranking_index();
    let r = idx.search_files("main", None);
    assert!(r.iter().all(|m| m.name != "zzz.txt"));
    assert!(idx.search_files("qqq", None).is_empty());
}

#[test]
fn default_limit_is_fifty() {
    let files: Vec<Option<ScannedFile>> =
        (0..60).map(|i| scanned(&format!("/proj/f{}.txt", i), 1, None)).collect();
    let idx = built(files);
    assert_eq!(idx.search_files("f", None).len(), 50);
    assert_eq!(idx.search_files("f", Some(55)).len(), 55);
}

#[test]
fn fuzzy_subsequence_scores_half() {
    assert_eq!(score_name("buffer.rs", "br"), Some(50));
    assert_eq!(score_name("main", "main"), Some(100));
    assert_eq!(score_name("main.rs", "main"), Some(90));
    assert_eq!(score_name("domain.py", "main"), Some(70));
    assert_eq!(score_name("m_a_i_n.txt", "main"), Some(50));
    assert_eq!(score_name("zzz.txt", "main"), None);
    assert_eq!(score_name("rb", "br"), None);
}

#[test]
fn empty_query_matches_every_name_by_prefix() {
    assert_eq!(score_name("abc", ""), Some(90));
    assert_eq!(score_name("", ""), Some(100));
}

#[test]
fn extracts_declared_function_names() {
    let syms = extract_symbols("rs", Some("fn foo() {}\nstruct Bar;\nimpl Bar {}\n"));
    assert!(syms.contains(&"foo".to_string()));
    assert_eq!(syms, vec!["foo", "Bar", "Bar"]);
    let js = extract_symbols("JS", Some("export async function load() {}\nclass Widget {}\n"));
    assert_eq!(js, vec!["load", "Widget", "Widget"]);
    let py = extract_symbols("py", Some("def run():\n    pass\nclass Job:\n    pass\n"));
    assert_eq!(py, vec!["Job", "run", "Job"]);
}

#[test]
fn non_source_files_have_no_symbols() {
    assert!(extract_symbols("txt", Some("fn foo() {}\n")).is_empty());
    assert!(extract_symbols("rs", None).is_empty());
}

#[test]
fn code_extensions_are_recognised() {
    assert!(is_code_extension("rs"));
    assert!(is_code_extension("php"));
    assert!(!is_code_extension("RS"));
    assert!(!is_code_extension("md"));
}

#[test]
fn absent_groups_are_skipped() {
    let r = symbols_from_groups(&vec![Some("a".to_string()), None, Some("b".to_string())]);
    assert_eq!(r, vec!["a", "b"]);
}

#[test]
fn extension_follows_last_dot() {
    assert_eq!(extension("archive.tar.GZ").as_deref(), Some("GZ"));
    assert_eq!(extension("Makefile"), None);
    assert_eq!(extension(".gitignore").as_deref(), Some("gitignore"));
    assert_eq!(extension("trailing.").as_deref(), Some(""));
}

#[test]
fn entry_records_name_extension_and_symbols() {
    let e = build_entry("/proj/src/Lib.RS".to_string(), 12, 7, Some("fn foo() {}\n"));
    assert_eq!(e.name, "Lib.RS");
    assert_eq!(e.extension.as_deref(), Some("RS"));
    assert_eq!(e.size, 12);
    assert_eq!(e.modified, 7);
    assert_eq!(e.symbols, vec!["foo"]);
    let n = build_entry("/proj/README".to_string(), 0, 0, Some("fn foo() {}\n"));
    assert_eq!(n.extension, None);
    assert!(n.symbols.is_empty());
}

#[test]
fn every_indexed_entry_has_its_names_extension() {
    let idx = ranking_index();
    for e in idx.get_all_indexed_files() {
        let expected = e.name.rfind('.').map(|i| e.name[i + 1..].to_string());
        assert_eq!(e.extension, expected);
    }
}

#[test]
fn listing_twice_gives_the_same_entries() {
    let idx = ranking_index();
    let mut a: Vec<String> = idx.get_all_indexed_files().into_iter().map(|e| e.path).collect();
    let mut b: Vec<String> = idx.get_all_indexed_files().into_iter().map(|e| e.path).collect();
    a.sort();
    b.sort();
    assert_eq!(a, b);
    assert_eq!(a.len(), 5);
}

#[test]
fn stats_count_files_whose_metadata_was_read() {
    let idx = built(vec![
        scanned("/proj/a.rs", 10, Some("fn a() {}\n")),
        None,
        scanned("/proj/b.txt", 5, None),
        None,
    ]);
    let s = idx.get_index_stats();
    assert_eq!(s.total_files, 2);
    assert_eq!(s.total_size, 15);
    assert_eq!(s.indexed_at, 42);
    assert_eq!(s.root_path, "/proj");
    assert!(!s.is_indexing);
}

#[test]
fn missing_root_fails_without_change() {
    let mut idx = ranking_index();
    let r = idx.start_indexing("/gone".to_string(), false, vec![], 99);
    assert!(matches!(r, Err(IndexError::NotFound(ref p)) if p == "/gone"));
    let s = idx.get_index_stats();
    assert_eq!(s.total_files, 5);
    assert_eq!(s.root_path, "/proj");
    assert_eq!(s.indexed_at, 42);
}

#[test]
fn refresh_without_root_is_a_config_error() {
    let mut idx = FileIndex::new();
    assert!(matches!(idx.refresh_index(true, vec![], 1), Err(IndexError::Config(_))));
    let s = idx.get_index_stats();
    assert_eq!((s.total_files, s.total_size, s.indexed_at, s.is_indexing), (0, 0, 0, false));
}

#[test]
fn refresh_after_clear_leaves_store_unchanged() {
    let mut idx = ranking_index();
    idx.clear_index();
    assert!(matches!(idx.refresh_index(true, vec![scanned("/proj/x.rs", 3, None)], 7), Err(IndexError::Config(_))));
    let s = idx.get_index_stats();
    assert_eq!((s.total_files, s.total_size, s.indexed_at), (0, 0, 0));
    assert!(idx.get_all_indexed_files().is_empty());
}

#[test]
fn refresh_with_vanished_root_keeps_old_entries() {
    let mut idx = ranking_index();
    let r = idx.refresh_index(false, vec![scanned("/proj/x.rs", 3, None)], 99);
    assert!(matches!(r, Err(IndexError::NotFound(ref p)) if p == "/proj"));
    let s = idx.get_index_stats();
    assert_eq!((s.total_files, s.total_size, s.indexed_at), (5, 15, 42));
    assert_eq!(s.root_path, "/proj");
    assert!(!s.is_indexing);
}

#[test]
fn refresh_rebuilds_from_stored_root() {
    let mut idx = ranking_index();
    let r = idx.refresh_index(true, vec![scanned("/proj/only.rs", 3, None)], 50);
    assert!(matches!(r, Ok(1)));
    assert_eq!(idx.index_root().as_deref(), Some("/proj"));
    assert_eq!(idx.get_index_stats().indexed_at, 50);
}

#[test]
fn clear_empties_and_unsets_root() {
    let mut idx = ranking_index();
    idx.clear_index();
    let s = idx.get_index_stats();
    assert_eq!(s.total_files, 0);
    assert_eq!(s.total_size, 0);
    assert_eq!(s.root_path, "");
    assert!(idx.index_root().is_none());
    assert!(idx.get_all_indexed_files().is_empty());
}

#[test]
fn symbol_search_prefers_exact_names() {
    let idx = built(vec![
        scanned("/proj/a.rs", 1, Some("fn parse_args() {}\nfn parse() {}\n")),
        scanned("/proj/b.py", 1, Some("def Parse():\n    pass\n")),
        scanned("/proj/c.txt", 1, Some("fn parse() {}\n")),
    ]);
    let r = idx.search_symbols("parse", None);
    assert_eq!(r.len(), 2);
    assert_eq!(r[0].name, "Parse");
    assert_eq!(r[0].score, 100);
    assert_eq!(r[0].path, "/proj/b.py");
    assert_eq!(r[1].name, "parse_args");
    assert_eq!(r[1].score, 70);
    assert!(idx.search_symbols("parse", Some(0)).is_empty());
}

#[test]
fn extension_filter_ignores_case() {
    let idx = built(vec![
        scanned("/proj/a.RS", 1, None),
        scanned("/proj/b.rs", 1, None),
        scanned("/proj/c.py", 1, None),
        scanned("/proj/Makefile", 1, None),
    ]);
    let mut r: Vec<String> = idx.get_files_by_extension("Rs").into_iter().map(|e| e.name).collect();
    r.sort();
    assert_eq!(r, vec!["a.RS", "b.rs"]);
    assert!(idx.get_files_by_extension("md").is_empty());
}

#[test]
fn later_entry_replaces_same_path() {
    let idx = built(vec![scanned("/proj/a.rs", 1, None), scanned("/proj/a.rs", 9, None)]);
    let all = idx.get_all_indexed_files();
    assert_eq!(all.len(), 1);
    assert_eq!(all[0].size, 9);
}
