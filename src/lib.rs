//! A file index for quick open and symbol search: entries built from a scan
//! of a directory, kept by path, and queried by fuzzy name, symbol and
//! extension. Around it, the editor state that uses it: the command palette,
//! the file tree, the tab bar, colour themes, language and icon lookup, and
//! the working-tree summary and lists of recent paths.

pub mod entry;
pub mod file_tree;
pub mod git_status;
pub mod index;
pub mod languages;
pub mod palette;
pub mod query;
pub mod recent;
pub mod symbols;
pub mod tabs;
pub mod text;
pub mod theme;
