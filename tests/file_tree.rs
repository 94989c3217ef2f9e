use valyxo_index::recent::add_recent;
use valyxo_index::file_tree::{is_shown_name, precedes, FileNode, FileTree};

fn listing() -> Vec<(String, bool)> {
    vec![
        ("/w/zeta.txt".to_string(), false),
        ("/w/src".to_string(), true),
        ("/w/.git".to_string(), true),
        ("/w/Alpha.md".to_string(), false),
        ("/w/node_modules".to_string(), true),
        ("/w/Docs".to_string(), true),
        ("/w/beta.rs".to_string(), false),
        ("/w/target".to_string(), true),
    ]
}

#[test]
fn root_children_directories_first_then_by_name() {
    let mut tree = FileTree::new();
    tree.set_root("/w".to_string(), true, listing());
    let mut root = FileNode::from_path("/w".to_string(), true);
    root.load_children(listing());
    let names: Vec<&str> = root.children.iter().map(|c| c.name.as_str()).collect();
    assert_eq!(names, vec!["Docs", "src", "Alpha.md", "beta.rs", "zeta.txt"]);
    assert!(root.children[0].is_dir);
    assert!(!root.children[2].is_dir);
    assert!(root.children.iter().all(|c| c.children.is_empty() && !c.is_expanded));
}

#[test]
fn loaded_children_are_kept() {
    let mut root = FileNode::from_path("/w".to_string(), true);
    root.load_children(listing());
    root.load_children(vec![("/w/other".to_string(), false)]);
    assert_eq!(root.children.len(), 5);
    let mut file = FileNode::from_path("/w/a.txt".to_string(), false);
    file.load_children(listing());
    assert!(file.children.is_empty());
    assert_eq!(file.name, "a.txt");
}

#[test]
fn hidden_and_build_names_are_not_shown() {
    assert!(!is_shown_name(".env"));
    assert!(!is_shown_name("node_modules"));
    assert!(!is_shown_name("__pycache__"));
    assert!(is_shown_name("targets"));
    assert!(is_shown_name("src"));
}

#[test]
fn name_order_is_by_character() {
    assert!(precedes("alpha", "beta"));
    assert!(precedes("ab", "abc"));
    assert!(!precedes("abc", "ab"));
    assert!(!precedes("same", "same"));
    assert!(precedes("Z", "a"));
}

#[test]
fn recent_paths_move_to_front_and_are_capped() {
    let mut list: Vec<String> = (0..10).map(|i| format!("/p{}", i)).collect();
    add_recent(&mut list, "/p5".to_string());
    assert_eq!(list.len(), 10);
    assert_eq!(list[0], "/p5");
    assert_eq!(list[1], "/p0");
    assert_eq!(list.iter().filter(|p| p.as_str() == "/p5").count(), 1);
    add_recent(&mut list, "/new".to_string());
    assert_eq!(list.len(), 10);
    assert_eq!(list[0], "/new");
    assert!(!list.contains(&"/p9".to_string()));
    let mut empty: Vec<String> = Vec::new();
    add_recent(&mut empty, "/a".to_string());
    assert_eq!(empty, vec!["/a"]);
}
