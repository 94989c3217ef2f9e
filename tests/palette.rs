use valyxo_index::git_status::{GitStatus, PathState};
use valyxo_index::palette::{is_listed_file, CommandPalette};

#[test]
fn new_palette_lists_all_commands_for_empty_query() {
    let mut p = CommandPalette::new();
    p.set_mode_commands();
    let rows = p.results();
    assert_eq!(rows.len(), 15);
    assert_eq!(rows[0], (0, "Open File".to_string(), "file.open".to_string()));
    assert_eq!(rows[2].1, "Save As...");
    assert_eq!(rows[14].2, "theme.dark");
}

#[test]
fn fuzzy_query_filters_commands() {
    let mut p = CommandPalette::new();
    p.set_mode_commands();
    p.set_query("undo".to_string());
    let rows = p.results();
    assert_eq!(rows.len(), 1);
    assert_eq!(rows[0].2, "edit.undo");
    p.set_query("qqqq".to_string());
    assert!(p.results().is_empty());
}

#[test]
fn leading_angle_switches_to_commands() {
    let mut p = CommandPalette::new();
    p.set_query(">redo".to_string());
    let rows = p.results();
    assert_eq!(rows.len(), 1);
    assert_eq!(rows[0].1, "Redo");
}

#[test]
fn quick_open_skips_hidden_and_ignored_paths() {
    assert!(is_listed_file("/w/src/main.rs"));
    assert!(!is_listed_file("/w/.env"));
    assert!(!is_listed_file("/w/node_modules/x.js"));
    assert!(!is_listed_file("/w/target/debug/app"));
    assert!(!is_listed_file("/w/.git/HEAD"));
    let mut p = CommandPalette::new();
    p.load_files(vec![
        "/w/src/main.rs".to_string(),
        "/w/.env".to_string(),
        "/w/README.md".to_string(),
        "/w/__pycache__/m.pyc".to_string(),
    ]);
    let rows = p.results();
    assert_eq!(rows.len(), 2);
    assert_eq!(rows[0], (0, "main.rs".to_string(), "/w/src/main.rs".to_string()));
    assert_eq!(rows[1].1, "README.md");
    p.set_query("rdme".to_string());
    let rows = p.results();
    assert_eq!(rows.len(), 1);
    assert_eq!(rows[0].2, "/w/README.md");
}

#[test]
fn selection_wraps_and_clamps() {
    let mut p = CommandPalette::new();
    p.set_mode_commands();
    let rows = p.results();
    p.select_prev(rows.len());
    assert_eq!(p.chosen(&rows).as_deref(), Some("theme.dark"));
    p.select_next(rows.len());
    assert_eq!(p.chosen(&rows).as_deref(), Some("file.open"));
    p.select_next(rows.len());
    assert_eq!(p.chosen(&rows).as_deref(), Some("file.save"));
    p.clamp_selection(1);
    assert_eq!(p.chosen(&rows).as_deref(), Some("file.open"));
    p.clamp_selection(0);
    assert!(p.chosen(&Vec::new()).is_none());
}

fn state(index_new: bool, index_modified: bool, wt_new: bool, wt_modified: bool, wt_deleted: bool) -> PathState {
    PathState { index_new, index_modified, index_deleted: false, wt_new, wt_modified, wt_deleted }
}

#[test]
fn git_status_counts_each_group() {
    let states = vec![
        state(true, false, false, true, false),
        state(false, true, false, false, false),
        state(false, false, true, false, false),
        state(false, false, false, false, true),
        state(false, false, false, false, false),
    ];
    let g = GitStatus::from_states("main".to_string(), &states);
    assert_eq!(g.branch, "main");
    assert_eq!(g.staged_files, 2);
    assert_eq!(g.changed_files, 2);
    assert_eq!(g.untracked_files, 1);
    let empty = GitStatus::from_states("dev".to_string(), &Vec::new());
    assert_eq!((empty.staged_files, empty.changed_files, empty.untracked_files), (0, 0, 0));
}
