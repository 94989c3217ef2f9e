use valyxo_index::entry::reads_contents;
use valyxo_index::languages::{detect_language, get_file_icon};
use valyxo_index::tabs::{Tab, TabBar};
use valyxo_index::text::{contains, file_name, fuzzy_match, starts_with};
use valyxo_index::theme::{available_themes, Theme};

#[test]
fn tab_takes_file_name() {
    let t = Tab::new("/home/u/src/main.rs".to_string(), 3);
    assert_eq!(t.name, "main.rs");
    assert_eq!(t.buffer_id, 3);
    assert!(!t.modified);
    assert_eq!(Tab::new("/".to_string(), 1).name, "Untitled");
}

#[test]
fn adding_an_open_path_selects_it() {
    let mut bar = TabBar::new();
    bar.add_tab("/a".to_string(), 1);
    bar.add_tab("/b".to_string(), 2);
    assert_eq!(bar.current_buffer_id(), Some(2));
    bar.add_tab("/a".to_string(), 9);
    assert_eq!(bar.current_buffer_id(), Some(1));
}

#[test]
fn closing_moves_selection() {
    let mut bar = TabBar::new();
    assert_eq!(bar.current_buffer_id(), None);
    bar.add_tab("/a".to_string(), 1);
    bar.add_tab("/b".to_string(), 2);
    bar.add_tab("/c".to_string(), 3);
    bar.close_current();
    assert_eq!(bar.current_buffer_id(), Some(2));
    bar.close_tab(0);
    assert_eq!(bar.current_buffer_id(), Some(2));
    bar.close_tab(5);
    assert_eq!(bar.current_buffer_id(), Some(2));
    bar.close_current();
    assert_eq!(bar.current_buffer_id(), None);
}

#[test]
fn next_and_prev_wrap() {
    let mut bar = TabBar::new();
    bar.add_tab("/a".to_string(), 1);
    bar.add_tab("/b".to_string(), 2);
    bar.next_tab();
    assert_eq!(bar.current_buffer_id(), Some(1));
    bar.prev_tab();
    assert_eq!(bar.current_buffer_id(), Some(2));
    bar.prev_tab();
    assert_eq!(bar.current_buffer_id(), Some(1));
    bar.set_modified(1, true);
    bar.set_modified(7, true);
    assert_eq!(bar.current_buffer_id(), Some(1));
}

#[test]
fn themes_in_order() {
    let names: Vec<String> = available_themes().into_iter().map(|t| t.name).collect();
    assert_eq!(names, vec!["Dark", "Light", "Monokai", "Dracula", "Nord"]);
    let d = Theme::default();
    assert_eq!(d.name, "Dark");
    assert_eq!(d.background, [30, 30, 30]);
    assert_eq!(Theme::nord().accent, [136, 192, 208]);
    assert_eq!(Theme::light().foreground, [0, 0, 0]);
    assert_eq!(Theme::monokai().status_bar, [166, 226, 46]);
    assert_eq!(Theme::dracula().border, [68, 71, 90]);
}

#[test]
fn path_file_names() {
    assert_eq!(file_name("/a/b/c.txt").as_deref(), Some("c.txt"));
    assert_eq!(file_name("a/b/"), Some("b".to_string()));
    assert_eq!(file_name("plain"), Some("plain".to_string()));
    assert_eq!(file_name("/a/.."), None);
    assert_eq!(file_name(""), None);
    assert_eq!(file_name("C:\\Users\\me\\notes.txt").as_deref(), Some("notes.txt"));
    assert_eq!(file_name("dir\\sub\\"), Some("sub".to_string()));
}

#[test]
fn text_matching_helpers() {
    assert!(starts_with("main.rs", "main"));
    assert!(!starts_with("ma", "main"));
    assert!(contains("domain.py", "main"));
    assert!(!contains("dom", "main"));
    assert!(fuzzy_match("buffer.rs", "br"));
    assert!(!fuzzy_match("buffer.rs", "rb."));
}

#[test]
fn languages_by_extension() {
    assert_eq!(detect_language("RS"), "Rust");
    assert_eq!(detect_language("hpp"), "C++");
    assert_eq!(detect_language("Yml"), "YAML");
    assert_eq!(detect_language("zzz"), "Plain Text");
    assert_eq!(detect_language(""), "Plain Text");
}

#[test]
fn icons_by_file_name() {
    assert_eq!(get_file_icon("main.RS"), "🦀");
    assert_eq!(get_file_icon("archive.tar.gz"), "📦");
    assert_eq!(get_file_icon(".gitignore"), "📌");
    assert_eq!(get_file_icon("Cargo.lock"), "🔒");
    assert_eq!(get_file_icon("notes.unknown"), "📄");
    assert_eq!(get_file_icon("lock"), "🔒");
}

#[test]
fn contents_read_only_for_source_files() {
    assert!(reads_contents("/p/src/lib.rs"));
    assert!(reads_contents("/p/App.JS"));
    assert!(!reads_contents("/p/README.md"));
    assert!(!reads_contents("/p/Makefile"));
}
