//! The bar of open-file tabs and which of them is current.

use vstd::prelude::*;
use crate::text::{file_name, file_name_of};

verus! {

/// Identifier of an open buffer.
pub type BufferId = u64;

/// What a click on a tab asks for.
pub enum TabAction {
    Select,
    Close,
}

/// One tab: the file it shows, its buffer, its label and whether it has
/// unsaved changes.
#[derive(Clone)]
pub struct Tab {
    pub path: String,
    pub buffer_id: BufferId,
    pub name: String,
    pub modified: bool,
}

/// The label of a tab for `path`: its file name, else "Untitled".
pub open spec fn tab_label(path: Seq<char>) -> Seq<char> {
    match file_name_of(path) {
        Some(n) => n,
        None => "Untitled"@,
    }
}

impl Tab {
    /// A fresh, unmodified tab for `path`.
    pub fn new(path: String, buffer_id: BufferId) -> (r: Tab)
        ensures
            r.path@ == path@,
            r.buffer_id == buffer_id,
            r.name@ == tab_label(path@),
            !r.modified,
    {
        let name = match file_name(path.as_str()) {
            Some(n) => n,
            None => "Untitled".to_owned(),
        };
        Tab { path, buffer_id, name, modified: false }
    }
}

/// The tab bar: the open tabs in order and the index of the current one.
pub struct TabBar {
    tabs: Vec<Tab>,
    current_index: Option<usize>,
}

impl TabBar {
    /// The open tabs, in order.
    pub closed spec fn tabs(&self) -> Seq<Tab> {
        self.tabs@
    }

    /// The index of the current tab.
    pub closed spec fn current(&self) -> Option<usize> {
        self.current_index
    }

    /// A current tab exists exactly when a tab is open, and it is one of them.
    pub open spec fn wf(&self) -> bool {
        &&& (self.current() is None <==> self.tabs().len() == 0)
        &&& (self.current() matches Some(i) ==> i < self.tabs().len())
    }

    /// An empty bar.
    pub fn new() -> (r: TabBar)
        ensures
            r.wf(),
            r.tabs().len() == 0,
    {
        TabBar { tabs: Vec::new(), current_index: None }
    }

    /// Makes the tab for `path` current, opening it first when no tab shows `path`.
    pub fn add_tab(&mut self, path: String, buffer_id: BufferId)
        requires
            old(self).wf(),
        ensures
            final(self).wf(),
            (exists|i: int| 0 <= i < old(self).tabs().len() && old(self).tabs()[i].path@ == path@)
                ==> {
                &&& final(self).tabs() == old(self).tabs()
                &&& final(self).current() matches Some(k)
                &&& old(self).tabs()[k as int].path@ == path@
                &&& forall|j: int| 0 <= j < k ==> old(self).tabs()[j].path@ != path@
            },
            !(exists|i: int| 0 <= i < old(self).tabs().len() && old(self).tabs()[i].path@ == path@)
                ==> {
                let n = old(self).tabs().len();
                &&& final(self).tabs().len() == n + 1
                &&& final(self).tabs().take(n as int) == old(self).tabs()
                &&& final(self).tabs()[n as int].path@ == path@
                &&& final(self).tabs()[n as int].buffer_id == buffer_id
                &&& final(self).tabs()[n as int].name@ == tab_label(path@)
                &&& !final(self).tabs()[n as int].modified
                &&& final(self).current() == Some(n as usize)
            },
    {
        let mut i: usize = 0;
        while i < self.tabs.len()
            invariant
                self.tabs@ == old(self).tabs@,
                self.current_index == old(self).current_index,
                i <= self.tabs@.len(),
                forall|j: int| 0 <= j < i ==> self.tabs@[j].path@ != path@,
            decreases self.tabs@.len() - i,
        {
            if self.tabs[i].path == path {
                self.current_index = Some(i);
                return;
            }
            i = i + 1;
        }
        let tab = Tab::new(path, buffer_id);
        self.tabs.push(tab);
        self.current_index = Some(self.tabs.len() - 1);
        assert(self.tabs@.take(i as int) =~= old(self).tabs@);
    }

    /// The buffer of the current tab.
    pub fn current_buffer_id(&self) -> (r: Option<BufferId>)
        requires
            self.wf(),
        ensures
            r == (match self.current() {
                Some(i) => Some(self.tabs()[i as int].buffer_id),
                None => None,
            }),
    {
        match self.current_index {
            Some(i) => Some(self.tabs[i].buffer_id),
            None => None,
        }
    }

    /// Closes the current tab; the one after it, or else the last, becomes current.
    pub fn close_current(&mut self)
        requires
            old(self).wf(),
        ensures
            final(self).wf(),
            match old(self).current() {
                None => final(self).tabs() == old(self).tabs() && final(self).current() is None,
                Some(i) => {
                    let n = (old(self).tabs().len() - 1) as int;
                    &&& final(self).tabs() == old(self).tabs().remove(i as int)
                    &&& final(self).current() == if n == 0 {
                        None
                    } else if i >= n {
                        Some((n - 1) as usize)
                    } else {
                        Some(i)
                    }
                },
            },
    {
        if let Some(index) = self.current_index {
            self.tabs.remove(index);
            if self.tabs.len() == 0 {
                self.current_index = None;
            } else if index >= self.tabs.len() {
                self.current_index = Some(self.tabs.len() - 1);
            }
        }
    }

    /// Closes the tab at `index`, if there is one, keeping the current tab
    /// current where it is still open.
    pub fn close_tab(&mut self, index: usize)
        requires
            old(self).wf(),
        ensures
            final(self).wf(),
            index >= old(self).tabs().len() ==> final(self).tabs() == old(self).tabs()
                && final(self).current() == old(self).current(),
            index < old(self).tabs().len() ==> {
                let n = (old(self).tabs().len() - 1) as int;
                let c = old(self).current()->0 as int;
                &&& final(self).tabs() == old(self).tabs().remove(index as int)
                &&& final(self).current() == if n == 0 {
                    None
                } else if c >= n {
                    Some((n - 1) as usize)
                } else if index < c {
                    Some((c - 1) as usize)
                } else {
                    Some(c as usize)
                }
            },
    {
        if index < self.tabs.len() {
            self.tabs.remove(index);
            if self.tabs.len() == 0 {
                self.current_index = None;
            } else if let Some(current) = self.current_index {
                if current >= self.tabs.len() {
                    self.current_index = Some(self.tabs.len() - 1);
                } else if index < current {
                    self.current_index = Some(current - 1);
                }
            }
        }
    }

    /// Makes the next tab current, wrapping round after the last.
    pub fn next_tab(&mut self)
        requires
            old(self).wf(),
        ensures
            final(self).wf(),
            final(self).tabs() == old(self).tabs(),
            final(self).current() == match old(self).current() {
                Some(i) => Some(((i + 1) % old(self).tabs().len() as int) as usize),
                None => None,
            },
    {
        if let Some(index) = self.current_index {
            if self.tabs.len() != 0 {
                self.current_index = Some((index + 1) % self.tabs.len());
            }
        }
    }

    /// Makes the previous tab current, wrapping round before the first.
    pub fn prev_tab(&mut self)
        requires
            old(self).wf(),
        ensures
            final(self).wf(),
            final(self).tabs() == old(self).tabs(),
            final(self).current() == match old(self).current() {
                Some(i) => if i == 0 {
                    Some((old(self).tabs().len() - 1) as usize)
                } else {
                    Some((i - 1) as usize)
                },
                None => None,
            },
    {
        if let Some(index) = self.current_index {
            if self.tabs.len() != 0 {
                if index == 0 {
                    self.current_index = Some(self.tabs.len() - 1);
                } else {
                    self.current_index = Some(index - 1);
                }
            }
        }
    }

    /// Sets the modified mark of the first tab showing `buffer_id`.
    pub fn set_modified(&mut self, buffer_id: BufferId, modified: bool)
        requires
            old(self).wf(),
        ensures
            final(self).wf(),
            final(self).current() == old(self).current(),
            final(self).tabs().len() == old(self).tabs().len(),
            forall|j: int|
                0 <= j < old(self).tabs().len() && old(self).tabs()[j].buffer_id != buffer_id
                    ==> final(self).tabs()[j] == old(self).tabs()[j],
            forall|j: int|
                #![trigger final(self).tabs()[j]]
                0 <= j < old(self).tabs().len() && old(self).tabs()[j].buffer_id == buffer_id
                    ==> if exists|k: int| 0 <= k < j && old(self).tabs()[k].buffer_id == buffer_id {
                    final(self).tabs()[j] == old(self).tabs()[j]
                } else {
                    final(self).tabs()[j] == (Tab { modified, ..old(self).tabs()[j] })
                },
    {
        let mut i: usize = 0;
        while i < self.tabs.len()
            invariant
                self.tabs@ == old(self).tabs@,
                self.current_index == old(self).current_index,
                i <= self.tabs@.len(),
                forall|k: int| 0 <= k < i ==> self.tabs@[k].buffer_id != buffer_id,
                old(self).wf(),
            decreases self.tabs@.len() - i,
        {
            if self.tabs[i].buffer_id == buffer_id {
                let mut tab = self.tabs.remove(i);
                tab.modified = modified;
                self.tabs.insert(i, tab);
                assert(self.tabs@ =~= old(self).tabs@.update(i as int, tab));
                assert(self.tabs@.len() == old(self).tabs@.len());
                assert(self.current_index == old(self).current_index);
                assert forall|j: int|
                    #![trigger self.tabs@[j]]
                    0 <= j < old(self).tabs@.len() && old(self).tabs@[j].buffer_id == buffer_id
                        && j != i implies exists|k: int|
                    0 <= k < j && old(self).tabs@[k].buffer_id == buffer_id by {
                    assert(old(self).tabs@[i as int].buffer_id == buffer_id);
                }
                return;
            }
            i = i + 1;
        }
    }
}

} // verus!
