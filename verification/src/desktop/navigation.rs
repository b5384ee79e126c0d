//! Back/forward history of each tab, and the set of open tabs.

use vstd::prelude::*;
use crate::path::{file_name, path_eq, path_file_name, same_path};
use crate::text::{chars_of, string_of};

verus! {

/// What a history holds: the current folder, the folders behind it (most
/// recent last) and those ahead of it (nearest last).
pub struct HistoryModel {
    pub current: Seq<char>,
    pub back: Seq<Seq<char>>,
    pub forward: Seq<Seq<char>>,
}

/// Going to `path`: no change when it is the current folder; otherwise the
/// current folder goes behind and nothing stays ahead.
pub open spec fn visited(m: HistoryModel, path: Seq<char>) -> HistoryModel {
    if same_path(m.current, path) {
        m
    } else {
        HistoryModel { current: path, back: m.back.push(m.current), forward: Seq::empty() }
    }
}

/// Going back one step, when there is a step behind.
pub open spec fn went_back(m: HistoryModel) -> HistoryModel {
    if m.back.len() == 0 {
        m
    } else {
        HistoryModel {
            current: m.back.last(),
            back: m.back.drop_last(),
            forward: m.forward.push(m.current),
        }
    }
}

/// Going forward one step, when there is a step ahead.
pub open spec fn went_forward(m: HistoryModel) -> HistoryModel {
    if m.forward.len() == 0 {
        m
    } else {
        HistoryModel {
            current: m.forward.last(),
            back: m.back.push(m.current),
            forward: m.forward.drop_last(),
        }
    }
}

pub open spec fn path_views(v: Seq<String>) -> Seq<Seq<char>> {
    v.map_values(|s: String| s@)
}

/// The folder history of one tab.
#[derive(Debug)]
pub struct NavigationHistory {
    pub current: String,
    back: Vec<String>,
    forward: Vec<String>,
}

impl View for NavigationHistory {
    type V = HistoryModel;

    closed spec fn view(&self) -> HistoryModel {
        HistoryModel {
            current: self.current@,
            back: path_views(self.back@),
            forward: path_views(self.forward@),
        }
    }
}

impl NavigationHistory {
    /// A history at `current` with nothing behind or ahead.
    pub fn new(current: String) -> (r: Self)
        ensures
            r@ == (HistoryModel {
                current: current@,
                back: Seq::empty(),
                forward: Seq::empty(),
            }),
    {
        let r = NavigationHistory { current, back: Vec::new(), forward: Vec::new() };
        assert(path_views(r.back@) =~= Seq::<Seq<char>>::empty());
        assert(path_views(r.forward@) =~= Seq::<Seq<char>>::empty());
        r
    }

    /// The current folder.
    pub fn current_path(&self) -> (r: &String)
        ensures
            r@ == self@.current,
    {
        &self.current
    }

    /// Goes to `path`; tells whether anything changed.
    pub fn visit(&mut self, path: String) -> (changed: bool)
        ensures
            changed == !same_path(old(self)@.current, path@),
            final(self)@ == visited(old(self)@, path@),
    {
        let c = chars_of(self.current.as_str());
        let p = chars_of(path.as_str());
        if path_eq(&c, &p) {
            return false;
        }
        let ghost b = path_views(self.back@);
        let previous = self.current.clone();
        self.back.push(previous);
        self.current = path;
        self.forward = Vec::new();
        assert(path_views(self.back@) =~= b.push(old(self)@.current));
        assert(path_views(self.forward@) =~= Seq::<Seq<char>>::empty());
        true
    }

    /// Goes one step back, returning the folder reached.
    pub fn go_back(&mut self) -> (r: Option<String>)
        ensures
            final(self)@ == went_back(old(self)@),
            match r {
                Some(p) => old(self)@.back.len() > 0 && p@ == old(self)@.back.last(),
                None => old(self)@.back.len() == 0,
            },
    {
        let ghost b = path_views(self.back@);
        let ghost f = path_views(self.forward@);
        match self.back.pop() {
            None => None,
            Some(path) => {
                let previous = self.current.clone();
                self.forward.push(previous);
                self.current = path.clone();
                assert(path_views(self.back@) =~= b.drop_last());
                assert(path_views(self.forward@) =~= f.push(old(self)@.current));
                Some(path)
            },
        }
    }

    /// Goes one step forward, returning the folder reached.
    pub fn go_forward(&mut self) -> (r: Option<String>)
        ensures
            final(self)@ == went_forward(old(self)@),
            match r {
                Some(p) => old(self)@.forward.len() > 0 && p@ == old(self)@.forward.last(),
                None => old(self)@.forward.len() == 0,
            },
    {
        let ghost b = path_views(self.back@);
        let ghost f = path_views(self.forward@);
        match self.forward.pop() {
            None => None,
            Some(path) => {
                let previous = self.current.clone();
                self.back.push(previous);
                self.current = path.clone();
                assert(path_views(self.forward@) =~= f.drop_last());
                assert(path_views(self.back@) =~= b.push(old(self)@.current));
                Some(path)
            },
        }
    }

    pub fn can_go_back(&self) -> (r: bool)
        ensures
            r == (self@.back.len() > 0),
    {
        self.back.len() > 0
    }

    pub fn can_go_forward(&self) -> (r: bool)
        ensures
            r == (self@.forward.len() > 0),
    {
        self.forward.len() > 0
    }
}

/// Going back and then forward returns to where one was.
pub proof fn law_back_then_forward(m: HistoryModel)
    requires
        m.back.len() > 0,
    ensures
        went_forward(went_back(m)) == m,
{
    assert(went_forward(went_back(m)).back =~= m.back);
    assert(went_forward(went_back(m)).forward =~= m.forward);
}

/// Going forward and then back returns to where one was.
pub proof fn law_forward_then_back(m: HistoryModel)
    requires
        m.forward.len() > 0,
    ensures
        went_back(went_forward(m)) == m,
{
    assert(went_back(went_forward(m)).back =~= m.back);
    assert(went_back(went_forward(m)).forward =~= m.forward);
}

/// After going to a new folder nothing is ahead, and going back returns to
/// the folder one left.
pub proof fn law_visit_then_back(m: HistoryModel, path: Seq<char>)
    requires
        !same_path(m.current, path),
    ensures
        visited(m, path).forward.len() == 0,
        went_back(visited(m, path)).current == m.current,
        went_back(visited(m, path)).back == m.back,
{
    assert(visited(m, path).back.drop_last() =~= m.back);
}

/// Label of a tab: the folder's own name, or the whole path when it has
/// none.
pub open spec fn tab_label_of(path: Seq<char>) -> Seq<char> {
    match file_name(path) {
        Some(n) => if n.len() > 0 {
            n
        } else {
            path
        },
        None => path,
    }
}

/// Label of a tab showing `path`.
pub fn tab_label(path: &str) -> (r: String)
    ensures
        r@ == tab_label_of(path@),
{
    let p = chars_of(path);
    match path_file_name(&p) {
        Some(n) => {
            if n.len() > 0 {
                string_of(&n)
            } else {
                string_of(&p)
            }
        },
        None => string_of(&p),
    }
}

/// One entry of the tab strip.
#[derive(Debug)]
pub struct TabRow {
    pub label: String,
    pub path: String,
    pub active: bool,
}

/// The open tabs and which one is active.
#[derive(Debug)]
pub struct TabManager {
    histories: Vec<NavigationHistory>,
    active: usize,
}

impl TabManager {
    /// The histories of the tabs, left to right.
    pub closed spec fn tabs(&self) -> Seq<HistoryModel> {
        self.histories@.map_values(|h: NavigationHistory| h@)
    }

    /// Index of the active tab.
    pub closed spec fn active_index(&self) -> nat {
        self.active as nat
    }

    /// At least one tab, and the active one exists.
    pub closed spec fn wf(&self) -> bool {
        self.histories@.len() >= 1 && self.active < self.histories@.len()
    }

    /// One tab showing `initial_path`.
    pub fn new(initial_path: String) -> (r: Self)
        ensures
            r.tabs().len() == 1,
            r.tabs()[0] == (HistoryModel {
                current: initial_path@,
                back: Seq::empty(),
                forward: Seq::empty(),
            }),
            r.active_index() == 0,
            r.wf(),
    {
        let mut histories: Vec<NavigationHistory> = Vec::new();
        histories.push(NavigationHistory::new(initial_path));
        TabManager { histories, active: 0 }
    }

    /// Number of open tabs.
    pub fn len(&self) -> (r: usize)
        requires
            self.wf(),
        ensures
            r == self.tabs().len(),
            r >= 1,
    {
        self.histories.len()
    }

    /// Index of the active tab.
    pub fn active_position(&self) -> (r: usize)
        requires
            self.wf(),
        ensures
            r == self.active_index(),
            r < self.tabs().len(),
    {
        self.active
    }

    /// The active tab's history.
    pub fn active(&self) -> (r: &NavigationHistory)
        requires
            self.wf(),
        ensures
            self.active_index() < self.tabs().len(),
            r@ == self.tabs()[self.active_index() as int],
    {
        &self.histories[self.active]
    }

    /// The active tab's history, for changing it in place.
    pub fn active_mut(&mut self) -> (r: &mut NavigationHistory)
        requires
            old(self).wf(),
        ensures
            old(self).active_index() < old(self).tabs().len(),
            r@ == old(self).tabs()[old(self).active_index() as int],
            final(self).wf(),
            final(self).active_index() == old(self).active_index(),
            final(self).tabs() == old(self).tabs().update(
                old(self).active_index() as int,
                final(r)@,
            ),
    {
        let i = self.active;
        &mut self.histories[i]
    }

    /// Makes tab `index` active; false when it does not exist or already is.
    pub fn select(&mut self, index: usize) -> (r: bool)
        requires
            old(self).wf(),
        ensures
            final(self).wf(),
            r == (index < old(self).tabs().len() && index != old(self).active_index()),
            final(self).tabs() == old(self).tabs(),
            final(self).active_index() == (if r {
                index as nat
            } else {
                old(self).active_index()
            }),
    {
        if index >= self.histories.len() || index == self.active {
            return false;
        }
        self.active = index;
        true
    }

    /// Opens a tab at `path` and makes it active.
    pub fn new_tab(&mut self, path: String)
        requires
            old(self).wf(),
        ensures
            final(self).wf(),
            final(self).tabs() == old(self).tabs().push(
                HistoryModel { current: path@, back: Seq::empty(), forward: Seq::empty() },
            ),
            final(self).active_index() == old(self).tabs().len(),
    {
        let ghost before = self.histories@;
        let h = NavigationHistory::new(path);
        self.histories.push(h);
        let last = self.histories.len() - 1;
        proof {
            assert(self.histories@.map_values(|x: NavigationHistory| x@) =~= before.map_values(
                |x: NavigationHistory| x@,
            ).push(h@));
        }
        self.active = last;
    }

    /// Closes tab `index`; the last remaining tab is never closed.
    pub fn close(&mut self, index: usize) -> (r: bool)
        requires
            old(self).wf(),
        ensures
            final(self).wf(),
            r == (old(self).tabs().len() > 1 && index < old(self).tabs().len()),
            r ==> final(self).tabs() == old(self).tabs().remove(index as int),
            r ==> final(self).active_index() == (if old(self).active_index() >= old(
                self,
            ).tabs().len() - 1 {
                (old(self).tabs().len() - 2) as nat
            } else if index < old(self).active_index() {
                (old(self).active_index() - 1) as nat
            } else {
                old(self).active_index()
            }),
            !r ==> final(self).tabs() == old(self).tabs() && final(self).active_index() == old(
                self,
            ).active_index(),
            final(self).tabs().len() >= 1,
    {
        if self.histories.len() <= 1 || index >= self.histories.len() {
            return false;
        }
        let ghost before = self.histories@;
        let _ = self.histories.remove(index);
        let n = self.histories.len();
        let new_active = if self.active >= n {
            n - 1
        } else if index < self.active {
            self.active - 1
        } else {
            self.active
        };
        proof {
            assert(self.histories@.map_values(|x: NavigationHistory| x@) =~= before.map_values(
                |x: NavigationHistory| x@,
            ).remove(index as int));
        }
        self.active = new_active;
        true
    }

    /// The tab strip: a label and path per tab, and which is active.
    pub fn rows(&self) -> (r: Vec<TabRow>)
        ensures
            r@.len() == self.tabs().len(),
            forall|i: int|
                0 <= i < r@.len() ==> (#[trigger] r@[i]).label@ == tab_label_of(self.tabs()[i].current)
                    && r@[i].path@ == self.tabs()[i].current && r@[i].active == (i
                    == self.active_index()),
    {
        let mut out: Vec<TabRow> = Vec::new();
        let mut i: usize = 0;
        while i < self.histories.len()
            invariant
                i <= self.histories@.len(),
                out@.len() == i,
                forall|j: int|
                    0 <= j < i ==> (#[trigger] out@[j]).label@ == tab_label_of(
                        self.tabs()[j].current,
                    ) && out@[j].path@ == self.tabs()[j].current && out@[j].active == (j
                        == self.active_index()),
            decreases self.histories@.len() - i,
        {
            let current = self.histories[i].current.clone();
            let label = tab_label(current.as_str());
            out.push(TabRow { label, path: current, active: i == self.active });
            i = i + 1;
        }
        out
    }
}

} // verus!
