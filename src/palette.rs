//! The command palette: a list of editor commands and of workspace files,
//! filtered by a fuzzy query, with a selected row.

use vstd::prelude::*;
use fuzzy_matcher::skim::SkimMatcherV2;
use fuzzy_matcher::FuzzyMatcher;
use crate::entry::opt_text;
use crate::query::at_most;
use crate::text::{contains, file_name, file_name_of, has_infix};

verus! {

/// What the palette lists.
#[derive(Clone, Copy, PartialEq, Eq, Structural)]
pub enum PaletteMode {
    /// Commands (typed after `>`).
    Commands,
    /// Files of the workspace, for quick open.
    QuickOpen,
}

/// A command: its identifier, its label and its keyboard shortcut, if any.
pub struct Command {
    pub id: String,
    pub label: String,
    pub shortcut: Option<String>,
}

/// The view of a command: (identifier, label, shortcut).
pub open spec fn command_view(c: Command) -> (Seq<char>, Seq<char>, Option<Seq<char>>) {
    (c.id@, c.label@, opt_text(c.shortcut))
}

/// The views of a sequence of commands.
pub open spec fn command_views(v: Seq<Command>) -> Seq<(Seq<char>, Seq<char>, Option<Seq<char>>)> {
    v.map_values(|c: Command| command_view(c))
}

/// The commands that the palette offers, in order.
pub open spec fn command_table() -> Seq<(Seq<char>, Seq<char>, Option<Seq<char>>)> {
    seq![
        ("file.open"@, "Open File"@, Some("Ctrl+O"@)),
        ("file.save"@, "Save File"@, Some("Ctrl+S"@)),
        ("file.saveAs"@, "Save As..."@, None),
        ("file.close"@, "Close File"@, Some("Ctrl+W"@)),
        ("view.toggle_sidebar"@, "Toggle Sidebar"@, Some("Ctrl+B"@)),
        ("view.command_palette"@, "Command Palette"@, Some("Ctrl+Shift+P"@)),
        ("edit.undo"@, "Undo"@, Some("Ctrl+Z"@)),
        ("edit.redo"@, "Redo"@, Some("Ctrl+Y"@)),
        ("edit.cut"@, "Cut"@, Some("Ctrl+X"@)),
        ("edit.copy"@, "Copy"@, Some("Ctrl+C"@)),
        ("edit.paste"@, "Paste"@, Some("Ctrl+V"@)),
        ("edit.selectAll"@, "Select All"@, Some("Ctrl+A"@)),
        ("edit.find"@, "Find"@, Some("Ctrl+F"@)),
        ("edit.replace"@, "Replace"@, Some("Ctrl+H"@)),
        ("theme.dark"@, "Theme: Dark"@, None),
        ("theme.light"@, "Theme: Light"@, None),
    ]
}

/// Whether the default skim matcher accepts `choice` for `pattern`.
pub uninterp spec fn skim_accepts(choice: Seq<char>, pattern: Seq<char>) -> bool;

/// Relies on `SkimMatcherV2::fuzzy_match` with the default configuration: it
/// returns a score exactly when it accepts `choice` for `pattern`.
#[verifier::external_body]
fn fuzzy_accepts(choice: &str, pattern: &str) -> (r: bool)
    ensures
        r == skim_accepts(choice@, pattern@),
{
    SkimMatcherV2::default().fuzzy_match(choice, pattern).is_some()
}

/// The most rows the palette shows.
pub const MAX_ROWS: usize = 15;

/// Path fragments whose files quick open leaves out.
pub open spec fn skipped_fragments() -> Seq<Seq<char>> {
    seq!["node_modules"@, "target"@, "__pycache__"@, ".git"@]
}

/// Whether quick open lists the file at `path`: its name does not begin with
/// `.` and its path holds none of the skipped fragments.
pub open spec fn lists_file(path: Seq<char>) -> bool {
    let name = match file_name_of(path) {
        Some(n) => n,
        None => seq![],
    };
    &&& !(name.len() > 0 && name[0] == '.')
    &&& forall|i: int| 0 <= i < 4 ==> !has_infix(path, #[trigger] skipped_fragments()[i])
}

/// The paths of `paths` that quick open lists, in order.
pub open spec fn listed_files(paths: Seq<Seq<char>>) -> Seq<Seq<char>>
    decreases paths.len(),
{
    if paths.len() == 0 {
        seq![]
    } else if lists_file(paths.last()) {
        listed_files(paths.drop_last()).push(paths.last())
    } else {
        listed_files(paths.drop_last())
    }
}

/// A row of the palette: the index of the command or file, the text shown and
/// the value chosen (a command identifier or a file path).
pub type PaletteRow = (usize, String, String);

/// The view of a row.
pub open spec fn row_view(r: PaletteRow) -> (int, Seq<char>, Seq<char>) {
    (r.0 as int, r.1@, r.2@)
}

/// The views of a sequence of rows.
pub open spec fn row_views(v: Seq<PaletteRow>) -> Seq<(int, Seq<char>, Seq<char>)> {
    v.map_values(|r: PaletteRow| row_view(r))
}

/// The command rows among the first `n` commands that `query` selects.
pub open spec fn command_rows(cmds: Seq<(Seq<char>, Seq<char>, Option<Seq<char>>)>, query: Seq<char>, n: int) -> Seq<(int, Seq<char>, Seq<char>)>
    decreases n,
{
    if n <= 0 {
        seq![]
    } else {
        let rest = command_rows(cmds, query, n - 1);
        let c = cmds[n - 1];
        if query.len() == 0 || skim_accepts(c.1, query) {
            rest.push((n - 1, c.1, c.0))
        } else {
            rest
        }
    }
}

/// The file rows among the first `n` files that `query` selects: each shows
/// the file name and chooses the path; files without a name are left out.
pub open spec fn file_rows(files: Seq<Seq<char>>, query: Seq<char>, n: int) -> Seq<(int, Seq<char>, Seq<char>)>
    decreases n,
{
    if n <= 0 {
        seq![]
    } else {
        let rest = file_rows(files, query, n - 1);
        match file_name_of(files[n - 1]) {
            Some(name) => if query.len() == 0 || skim_accepts(name, query) {
                rest.push((n - 1, name, files[n - 1]))
            } else {
                rest
            },
            None => rest,
        }
    }
}

/// The command palette.
pub struct CommandPalette {
    mode: PaletteMode,
    query: String,
    selected_index: usize,
    commands: Vec<Command>,
    files: Vec<String>,
}

/// The views of a sequence of strings.
pub open spec fn text_views(v: Seq<String>) -> Seq<Seq<char>> {
    v.map_values(|s: String| s@)
}

impl CommandPalette {
    pub closed spec fn mode(&self) -> PaletteMode {
        self.mode
    }

    pub closed spec fn query(&self) -> Seq<char> {
        self.query@
    }

    pub closed spec fn selected(&self) -> usize {
        self.selected_index
    }

    pub closed spec fn commands(&self) -> Seq<(Seq<char>, Seq<char>, Option<Seq<char>>)> {
        command_views(self.commands@)
    }

    pub closed spec fn files(&self) -> Seq<Seq<char>> {
        text_views(self.files@)
    }

    /// A palette in quick-open mode with an empty query, offering the
    /// commands of `command_table` and no files.
    pub fn new() -> (r: CommandPalette)
        ensures
            r.mode() == PaletteMode::QuickOpen,
            r.query().len() == 0,
            r.selected() == 0,
            r.commands() == command_table(),
            r.files().len() == 0,
    {
        let table: [(&str, &str, Option<&str>); 16] = [
            ("file.open", "Open File", Some("Ctrl+O")),
        ("file.save", "Save File", Some("Ctrl+S")),
        ("file.saveAs", "Save As...", None),
        ("file.close", "Close File", Some("Ctrl+W")),
        ("view.toggle_sidebar", "Toggle Sidebar", Some("Ctrl+B")),
        ("view.command_palette", "Command Palette", Some("Ctrl+Shift+P")),
        ("edit.undo", "Undo", Some("Ctrl+Z")),
        ("edit.redo", "Redo", Some("Ctrl+Y")),
        ("edit.cut", "Cut", Some("Ctrl+X")),
        ("edit.copy", "Copy", Some("Ctrl+C")),
        ("edit.paste", "Paste", Some("Ctrl+V")),
        ("edit.selectAll", "Select All", Some("Ctrl+A")),
        ("edit.find", "Find", Some("Ctrl+F")),
        ("edit.replace", "Replace", Some("Ctrl+H")),
        ("theme.dark", "Theme: Dark", None),
        ("theme.light", "Theme: Light", None),
        ];
        let ghost t = table@.map_values(|e: (&str, &str, Option<&str>)| (e.0@, e.1@, crate::entry::opt_str(e.2)));
        assert(t =~= command_table());
        let mut commands: Vec<Command> = Vec::new();
        let mut i: usize = 0;
        while i < 16
            invariant
                i <= 16,
                t == table@.map_values(|e: (&str, &str, Option<&str>)| (e.0@, e.1@, crate::entry::opt_str(e.2))),
                command_views(commands@) == t.take(i as int),
            decreases 16 - i,
        {
            let (id, label, shortcut) = table[i];
            let c = Command {
                id: id.to_owned(),
                label: label.to_owned(),
                shortcut: match shortcut {
                    Some(s) => Some(s.to_owned()),
                    None => None,
                },
            };
            assert(command_view(c) == t[i as int]);
            let ghost before = commands@;
            commands.push(c);
            assert(command_views(commands@) =~= command_views(before).push(command_view(c)));
            assert(t.take(i + 1) =~= t.take(i as int).push(t[i as int]));
            i = i + 1;
        }
        assert(t.take(16) =~= t);
        CommandPalette {
            mode: PaletteMode::QuickOpen,
            query: String::new(),
            selected_index: 0,
            commands,
            files: Vec::new(),
        }
    }

    /// Switches to quick open, with an empty query and the first row selected.
    pub fn set_mode_quick_open(&mut self)
        ensures
            final(self).mode() == PaletteMode::QuickOpen,
            final(self).query().len() == 0,
            final(self).selected() == 0,
            final(self).commands() == old(self).commands(),
            final(self).files() == old(self).files(),
    {
        self.mode = PaletteMode::QuickOpen;
        self.query = String::new();
        self.selected_index = 0;
    }

    /// Switches to commands, with an empty query and the first row selected.
    pub fn set_mode_commands(&mut self)
        ensures
            final(self).mode() == PaletteMode::Commands,
            final(self).query().len() == 0,
            final(self).selected() == 0,
            final(self).commands() == old(self).commands(),
            final(self).files() == old(self).files(),
    {
        self.mode = PaletteMode::Commands;
        self.query = String::new();
        self.selected_index = 0;
    }

    /// Replaces the files with those of `paths` that quick open lists, in order.
    pub fn load_files(&mut self, paths: Vec<String>)
        ensures
            final(self).files() == listed_files(text_views(paths@)),
            final(self).mode() == old(self).mode(),
            final(self).query() == old(self).query(),
            final(self).selected() == old(self).selected(),
            final(self).commands() == old(self).commands(),
    {
        let ghost ps = text_views(paths@);
        let mut files: Vec<String> = Vec::new();
        let mut i: usize = 0;
        while i < paths.len()
            invariant
                i <= paths@.len(),
                ps == text_views(paths@),
                text_views(files@) == listed_files(ps.take(i as int)),
            decreases paths@.len() - i,
        {
            assert(ps.take(i + 1).drop_last() =~= ps.take(i as int));
            assert(ps.take(i + 1).last() == paths@[i as int]@);
            if is_listed_file(paths[i].as_str()) {
                let ghost before = files@;
                files.push(paths[i].clone());
                assert(text_views(files@) =~= text_views(before).push(paths@[i as int]@));
            }
            i = i + 1;
        }
        assert(ps.take(paths@.len() as int) =~= ps);
        self.files = files;
    }

    /// Takes `text` as the query; a leading `>` outside command mode switches
    /// to command mode and is dropped.
    pub fn set_query(&mut self, text: String)
        ensures
            final(self).selected() == old(self).selected(),
            final(self).commands() == old(self).commands(),
            final(self).files() == old(self).files(),
            (text@.len() > 0 && text@[0] == '>' && old(self).mode() != PaletteMode::Commands) ==> {
                &&& final(self).mode() == PaletteMode::Commands
                &&& final(self).query() == text@.skip(1)
            },
            !(text@.len() > 0 && text@[0] == '>' && old(self).mode() != PaletteMode::Commands) ==> {
                &&& final(self).mode() == old(self).mode()
                &&& final(self).query() == text@
            },
    {
        let n = text.as_str().unicode_len();
        if n > 0 && text.as_str().get_char(0) == '>' && self.mode != PaletteMode::Commands {
            self.mode = PaletteMode::Commands;
            self.query = text.as_str().substring_char(1, n).to_owned();
            assert(self.query@ =~= text@.skip(1));
        } else {
            self.query = text;
        }
    }

    /// The rows shown for the current mode and query: the commands or files
    /// that the fuzzy matcher accepts for the query (all of them for an empty
    /// query), in order, at most `MAX_ROWS`.
    pub fn results(&self) -> (r: Vec<PaletteRow>)
        ensures
            row_views(r@) == at_most(
                match self.mode() {
                    PaletteMode::Commands => command_rows(self.commands(), self.query(), self.commands().len() as int),
                    PaletteMode::QuickOpen => file_rows(self.files(), self.query(), self.files().len() as int),
                },
                MAX_ROWS as nat,
            ),
    {
        let q = self.query.as_str();
        let empty = q.unicode_len() == 0;
        let mut r: Vec<PaletteRow> = Vec::new();
        let mut i: usize = 0;
        match self.mode {
            PaletteMode::Commands => {
                while i < self.commands.len()
                    invariant
                        i <= self.commands@.len(),
                        q@ == self.query(),
                        empty == (q@.len() == 0),
                        self.mode() == PaletteMode::Commands,
                        row_views(r@) == command_rows(self.commands(), q@, i as int),
                    decreases self.commands@.len() - i,
                {
                    let c = &self.commands[i];
                    assert(self.commands()[i as int] == command_view(*c));
                    if empty || fuzzy_accepts(c.label.as_str(), q) {
                        let row: PaletteRow = (i, c.label.clone(), c.id.clone());
                        let ghost before = r@;
                        r.push(row);
                        assert(row_views(r@) =~= row_views(before).push(row_view(row)));
                    }
                    i = i + 1;
                }
            },
            PaletteMode::QuickOpen => {
                while i < self.files.len()
                    invariant
                        i <= self.files@.len(),
                        q@ == self.query(),
                        empty == (q@.len() == 0),
                        self.mode() == PaletteMode::QuickOpen,
                        row_views(r@) == file_rows(self.files(), q@, i as int),
                    decreases self.files@.len() - i,
                {
                    let path = &self.files[i];
                    assert(self.files()[i as int] == path@);
                    match file_name(path.as_str()) {
                        Some(name) => {
                            if empty || fuzzy_accepts(name.as_str(), q) {
                                let row: PaletteRow = (i, name, path.clone());
                                let ghost before = r@;
                                r.push(row);
                                assert(row_views(r@) =~= row_views(before).push(row_view(row)));
                            }
                        },
                        None => {},
                    }
                    i = i + 1;
                }
            },
        }
        let ghost all = r@;
        r.truncate(MAX_ROWS);
        assert(row_views(r@) =~= at_most(row_views(all), MAX_ROWS as nat));
        r
    }

    /// Keeps the selection on one of `rows` rows: the last when it was past
    /// them, the first when there are none.
    pub fn clamp_selection(&mut self, rows: usize)
        ensures
            final(self).selected() == if rows == 0 {
                0
            } else if old(self).selected() < rows {
                old(self).selected()
            } else {
                (rows - 1) as usize
            },
            final(self).mode() == old(self).mode(),
            final(self).query() == old(self).query(),
            final(self).commands() == old(self).commands(),
            final(self).files() == old(self).files(),
    {
        if rows == 0 {
            self.selected_index = 0;
        } else if self.selected_index >= rows {
            self.selected_index = rows - 1;
        }
    }

    /// Selects the row after the selected one, wrapping round after the last.
    pub fn select_next(&mut self, rows: usize)
        requires
            rows == 0 || old(self).selected() < rows,
        ensures
            final(self).selected() == if rows == 0 {
                old(self).selected()
            } else {
                ((old(self).selected() + 1) % rows as int) as usize
            },
            final(self).mode() == old(self).mode(),
            final(self).query() == old(self).query(),
            final(self).commands() == old(self).commands(),
            final(self).files() == old(self).files(),
    {
        if rows > 0 {
            self.selected_index = (self.selected_index + 1) % rows;
        }
    }

    /// Selects the row before the selected one, wrapping round before the first.
    pub fn select_prev(&mut self, rows: usize)
        ensures
            final(self).selected() == if rows == 0 {
                old(self).selected()
            } else if old(self).selected() == 0 {
                (rows - 1) as usize
            } else {
                (old(self).selected() - 1) as usize
            },
            final(self).mode() == old(self).mode(),
            final(self).query() == old(self).query(),
            final(self).commands() == old(self).commands(),
            final(self).files() == old(self).files(),
    {
        if rows > 0 {
            if self.selected_index == 0 {
                self.selected_index = rows - 1;
            } else {
                self.selected_index = self.selected_index - 1;
            }
        }
    }

    /// The value of the selected row of `rows`, if there is one.
    pub fn chosen(&self, rows: &Vec<PaletteRow>) -> (r: Option<String>)
        ensures
            match r {
                Some(v) => self.selected() < rows@.len() && v@ == rows@[self.selected() as int].2@,
                None => self.selected() >= rows@.len(),
            },
    {
        if self.selected_index < rows.len() {
            Some(rows[self.selected_index].2.clone())
        } else {
            None
        }
    }
}

/// Whether quick open lists the file at `path`, as `lists_file` states it.
pub fn is_listed_file(path: &str) -> (r: bool)
    ensures
        r == lists_file(path@),
{
    let name = match file_name(path) {
        Some(n) => n,
        None => String::new(),
    };
    if name.as_str().unicode_len() > 0 && name.as_str().get_char(0) == '.' {
        return false;
    }
    let a = contains(path, "node_modules");
    let b = contains(path, "target");
    let c = contains(path, "__pycache__");
    let d = contains(path, ".git");
    let r = !(a || b || c || d);
    assert(r == forall|i: int| 0 <= i < 4 ==> !has_infix(path@, #[trigger] skipped_fragments()[i])) by {
        if !r {
            if a {
                assert(has_infix(path@, skipped_fragments()[0]));
            } else if b {
                assert(has_infix(path@, skipped_fragments()[1]));
            } else if c {
                assert(has_infix(path@, skipped_fragments()[2]));
            } else {
                assert(has_infix(path@, skipped_fragments()[3]));
            }
        }
    }
    r
}

} // verus!
