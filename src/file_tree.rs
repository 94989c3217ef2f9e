//! The file tree of the sidebar: a root directory and its children,
//! directories first, each group ordered by name without regard to case.

use vstd::prelude::*;
use crate::symbols::same_text;
use crate::text::{file_name, file_name_of, lower_of, lowercase};

verus! {

/// A node of the tree: a file or directory, whether it is shown open, and
/// its children once loaded.
pub struct FileNode {
    pub path: String,
    pub name: String,
    pub is_dir: bool,
    pub is_expanded: bool,
    pub children: Vec<FileNode>,
}

/// The mathematical value of a node, without its children.
pub struct NodeView {
    pub path: Seq<char>,
    pub name: Seq<char>,
    pub is_dir: bool,
    pub is_expanded: bool,
}

/// The view of a node.
pub open spec fn node_view(n: FileNode) -> NodeView {
    NodeView { path: n.path@, name: n.name@, is_dir: n.is_dir, is_expanded: n.is_expanded }
}

/// The views of a sequence of nodes.
pub open spec fn node_views(v: Seq<FileNode>) -> Seq<NodeView> {
    v.map_values(|n: FileNode| node_view(n))
}

/// `a` comes strictly before `b`, character by character.
pub open spec fn text_before(a: Seq<char>, b: Seq<char>) -> bool
    decreases a.len(),
{
    if b.len() == 0 {
        false
    } else if a.len() == 0 {
        true
    } else if a[0] != b[0] {
        (a[0] as u32) < (b[0] as u32)
    } else {
        text_before(a.drop_first(), b.drop_first())
    }
}

/// Whether `a` comes strictly before `b`, as `text_before` states it.
pub fn precedes(a: &str, b: &str) -> (r: bool)
    ensures
        r == text_before(a@, b@),
{
    let an = a.unicode_len();
    let bn = b.unicode_len();
    let mut i: usize = 0;
    assert(a@.skip(0) =~= a@);
    assert(b@.skip(0) =~= b@);
    loop
        invariant
            an == a@.len(),
            bn == b@.len(),
            i <= an,
            i <= bn,
            text_before(a@, b@) == text_before(a@.skip(i as int), b@.skip(i as int)),
        decreases an - i,
    {
        if i == bn {
            return false;
        }
        if i == an {
            return true;
        }
        let x = a.get_char(i);
        let y = b.get_char(i);
        assert(a@.skip(i as int)[0] == x && b@.skip(i as int)[0] == y);
        if x != y {
            return (x as u32) < (y as u32);
        }
        assert(a@.skip(i as int).drop_first() =~= a@.skip(i + 1));
        assert(b@.skip(i as int).drop_first() =~= b@.skip(i + 1));
        i = i + 1;
    }
}

/// `x` placed in `s` before the first node whose lowercase name comes after its own.
pub open spec fn insert_by_name(s: Seq<NodeView>, x: NodeView) -> Seq<NodeView>
    decreases s.len(),
{
    if s.len() == 0 {
        seq![x]
    } else if text_before(lower_of(x.name), lower_of(s[0].name)) {
        seq![x] + s
    } else {
        seq![s[0]] + insert_by_name(s.drop_first(), x)
    }
}

/// `s` ordered by lowercase name; nodes with equal names keep their order.
pub open spec fn sort_by_name(s: Seq<NodeView>) -> Seq<NodeView>
    decreases s.len(),
{
    if s.len() == 0 {
        seq![]
    } else {
        insert_by_name(sort_by_name(s.drop_last()), s.last())
    }
}

proof fn lemma_insert_at(s: Seq<NodeView>, x: NodeView, p: int)
    requires
        0 <= p <= s.len(),
        forall|j: int| 0 <= j < p ==> !text_before(lower_of(x.name), lower_of(#[trigger] s[j].name)),
        p == s.len() || text_before(lower_of(x.name), lower_of(s[p].name)),
    ensures
        insert_by_name(s, x) == s.take(p) + seq![x] + s.skip(p),
    decreases s.len(),
{
    if s.len() == 0 {
        assert(s.take(p) + seq![x] + s.skip(p) =~= seq![x]);
    } else if p == 0 {
        assert(s.take(p) + seq![x] + s.skip(p) =~= seq![x] + s);
    } else {
        let t = s.drop_first();
        assert forall|j: int| 0 <= j < p - 1 implies !text_before(lower_of(x.name), lower_of(#[trigger] t[j].name)) by {
            assert(t[j] == s[j + 1]);
        }
        if p < s.len() {
            assert(t[p - 1] == s[p]);
        }
        lemma_insert_at(t, x, p - 1);
        assert(s.take(p) + seq![x] + s.skip(p) =~= seq![s[0]] + (t.take(p - 1) + seq![x] + t.skip(p - 1)));
    }
}

/// Whether a directory entry named `name` is shown: hidden names and
/// dependency or build folders are not.
pub open spec fn shown_name(name: Seq<char>) -> bool {
    &&& !(name.len() > 0 && name[0] == '.')
    &&& name != "node_modules"@
    &&& name != "target"@
    &&& name != "__pycache__"@
}

/// The name of the node for `path`: its file name, else the whole path.
pub open spec fn node_name(path: Seq<char>) -> Seq<char> {
    match file_name_of(path) {
        Some(n) => n,
        None => path,
    }
}

/// The node of a listed entry, collapsed and without children.
pub open spec fn listed_node(e: (Seq<char>, bool)) -> NodeView {
    NodeView { path: e.0, name: node_name(e.0), is_dir: e.1, is_expanded: false }
}

/// The shown nodes among `entries` that are directories (`dirs`) or files.
pub open spec fn shown_nodes(entries: Seq<(Seq<char>, bool)>, dirs: bool) -> Seq<NodeView>
    decreases entries.len(),
{
    if entries.len() == 0 {
        seq![]
    } else {
        let rest = shown_nodes(entries.drop_last(), dirs);
        let e = entries.last();
        if e.1 == dirs && shown_name(node_name(e.0)) {
            rest.push(listed_node(e))
        } else {
            rest
        }
    }
}

/// The children of a directory listing `entries`: shown directories, then
/// shown files, each ordered by lowercase name.
pub open spec fn ordered_children(entries: Seq<(Seq<char>, bool)>) -> Seq<NodeView> {
    sort_by_name(shown_nodes(entries, true)) + sort_by_name(shown_nodes(entries, false))
}

/// The views of a directory listing of (path, is directory) pairs.
pub open spec fn listing_views(v: Seq<(String, bool)>) -> Seq<(Seq<char>, bool)> {
    v.map_values(|e: (String, bool)| (e.0@, e.1))
}

/// Whether `name` is shown, as `shown_name` states it.
pub fn is_shown_name(name: &str) -> (r: bool)
    ensures
        r == shown_name(name@),
{
    if name.unicode_len() > 0 && name.get_char(0) == '.' {
        return false;
    }
    !(same_text(name, "node_modules") || same_text(name, "target") || same_text(name, "__pycache__"))
}

/// None of the nodes of `v` has children.
pub open spec fn all_leaves(v: Seq<FileNode>) -> bool {
    forall|j: int| 0 <= j < v.len() ==> (#[trigger] v[j]).children@.len() == 0
}

/// Inserts `node` into `v`, which is ordered by lowercase name, after every
/// node whose name does not come after its own.
fn insert_node(v: &mut Vec<FileNode>, node: FileNode)
    ensures
        node_views(final(v)@) == insert_by_name(node_views(old(v)@), node_view(node)),
        all_leaves(old(v)@) && node.children@.len() == 0 ==> all_leaves(final(v)@),
{
    let key = lowercase(node.name.as_str());
    let ghost s = node_views(v@);
    let mut p: usize = 0;
    loop
        invariant
            p <= v@.len(),
            s == node_views(v@),
            key@ == lower_of(node.name@),
            forall|j: int| 0 <= j < p ==> !text_before(key@, lower_of(#[trigger] s[j].name)),
        ensures
            p <= v@.len(),
            forall|j: int| 0 <= j < p ==> !text_before(key@, lower_of(#[trigger] s[j].name)),
            p == v@.len() || text_before(key@, lower_of(s[p as int].name)),
        decreases v@.len() - p,
    {
        if p == v.len() {
            break;
        }
        let other = lowercase(v[p].name.as_str());
        assert(s[p as int].name == v@[p as int].name@);
        if precedes(key.as_str(), other.as_str()) {
            break;
        }
        p = p + 1;
    }
    proof {
        lemma_insert_at(s, node_view(node), p as int);
    }
    let ghost old_v = v@;
    v.insert(p, node);
    assert(node_views(v@) =~= s.take(p as int) + seq![node_view(node)] + s.skip(p as int));
    assert(v@ == old_v.insert(p as int, node));
}

impl FileNode {
    /// A collapsed node for `path` without children; `is_dir` says whether it
    /// is a directory.
    pub fn from_path(path: String, is_dir: bool) -> (r: FileNode)
        ensures
            node_view(r) == listed_node((path@, is_dir)),
            r.children@.len() == 0,
    {
        let name = match file_name(path.as_str()) {
            Some(n) => n,
            None => path.clone(),
        };
        FileNode { path, name, is_dir, is_expanded: false, children: Vec::new() }
    }

    /// Fills the children of a directory whose children are not loaded yet
    /// from its listing `entries` (path, is directory); other nodes are left
    /// as they are.
    pub fn load_children(&mut self, entries: Vec<(String, bool)>)
        ensures
            node_view(*final(self)) == node_view(*old(self)),
            (old(self).is_dir && old(self).children@.len() == 0) ==> node_views(final(self).children@)
                == ordered_children(listing_views(entries@)),
            !(old(self).is_dir && old(self).children@.len() == 0) ==> final(self).children@ == old(self).children@,
            (old(self).is_dir && old(self).children@.len() == 0) ==> all_leaves(final(self).children@),
    {
        if !self.is_dir || self.children.len() != 0 {
            return;
        }
        let ghost es = listing_views(entries@);
        let mut dirs: Vec<FileNode> = Vec::new();
        let mut files: Vec<FileNode> = Vec::new();
        let mut i: usize = 0;
        while i < entries.len()
            invariant
                i <= entries@.len(),
                es == listing_views(entries@),
                node_views(dirs@) == sort_by_name(shown_nodes(es.take(i as int), true)),
                node_views(files@) == sort_by_name(shown_nodes(es.take(i as int), false)),
                all_leaves(dirs@),
                all_leaves(files@),
            decreases entries@.len() - i,
        {
            assert(es.take(i + 1).drop_last() =~= es.take(i as int));
            assert(es.take(i + 1).last() == (entries@[i as int].0@, entries@[i as int].1));
            let node = FileNode::from_path(entries[i].0.clone(), entries[i].1);
            if is_shown_name(node.name.as_str()) {
                if node.is_dir {
                    insert_node(&mut dirs, node);
                } else {
                    insert_node(&mut files, node);
                }
            }
            proof {
                let d = shown_nodes(es.take(i + 1), true);
                let f = shown_nodes(es.take(i + 1), false);
                if d.len() > 0 && shown_nodes(es.take(i as int), true).len() < d.len() {
                    assert(d.drop_last() =~= shown_nodes(es.take(i as int), true));
                }
                if f.len() > 0 && shown_nodes(es.take(i as int), false).len() < f.len() {
                    assert(f.drop_last() =~= shown_nodes(es.take(i as int), false));
                }
            }
            i = i + 1;
        }
        assert(es.take(entries@.len() as int) =~= es);
        let ghost d = dirs@;
        let ghost f = files@;
        dirs.append(&mut files);
        assert(node_views(dirs@) =~= node_views(d) + node_views(f));
        assert(dirs@ =~= d + f);
        self.children = dirs;
    }
}

/// The file tree: its root node, once a folder is open.
pub struct FileTree {
    root: Option<FileNode>,
}

impl FileTree {
    /// The root node, if a folder is open.
    pub closed spec fn root(&self) -> Option<NodeView> {
        match self.root {
            Some(n) => Some(node_view(n)),
            None => None,
        }
    }

    /// The children of the root node (none without a root).
    pub closed spec fn root_children(&self) -> Seq<NodeView> {
        match self.root {
            Some(n) => node_views(n.children@),
            None => seq![],
        }
    }

    /// Every child of the root has no children of its own (true without a root).
    pub closed spec fn root_children_are_leaves(&self) -> bool {
        match self.root {
            Some(n) => all_leaves(n.children@),
            None => true,
        }
    }

    /// A tree with no folder open.
    pub fn new() -> (r: FileTree)
        ensures
            r.root() is None,
    {
        FileTree { root: None }
    }

    /// Opens the folder at `path` (a directory when `is_dir`) as the root,
    /// expanded, with its children loaded from its listing `entries`.
    pub fn set_root(&mut self, path: String, is_dir: bool, entries: Vec<(String, bool)>)
        ensures
            final(self).root() == Some(NodeView { is_expanded: true, ..listed_node((path@, is_dir)) }),
            is_dir ==> final(self).root_children() == ordered_children(listing_views(entries@)),
            !is_dir ==> final(self).root_children().len() == 0,
            final(self).root_children_are_leaves(),
    {
        let mut root = FileNode::from_path(path, is_dir);
        root.is_expanded = true;
        root.load_children(entries);
        self.root = Some(root);
    }
}

} // verus!
