//! What the window's navigation commands do to the tabs and selection,
//! and which folder they ask to load.

use vstd::prelude::*;
use vstd::string::StringExecFns;
use crate::desktop::listing::{parent_directory, parent_folder};
use crate::desktop::navigation::{visited, went_back, went_forward, HistoryModel, TabManager};
use crate::desktop::rows::LoadedRow;
use crate::desktop::selection::SelectionState;
use crate::text::{chars_of, eq_str};

verus! {

/// A navigation command.
#[derive(Debug)]
pub enum NavigationEvent {
    /// Load the current folder again.
    Refresh,
    /// Go to the folder typed or picked.
    NavigateTo(String),
    Back,
    Forward,
    /// Go to the folder above.
    Up,
    /// Open the row with this key, if it is a folder.
    Activate(String),
    /// Open a tab at the current folder.
    NewTab,
    SelectTab(usize),
    CloseTab(usize),
}

/// The first row with key `key`, when it is a folder: its path.
pub open spec fn folder_of_key(rows: Seq<LoadedRow>, key: Seq<char>) -> Option<Seq<char>>
    decreases rows.len(),
{
    if rows.len() == 0 {
        None
    } else if rows[0].key@ == key {
        if rows[0].is_directory {
            Some(rows[0].path@)
        } else {
            None
        }
    } else {
        folder_of_key(rows.drop_first(), key)
    }
}

fn find_folder(rows: &[LoadedRow], key: &str) -> (r: Option<String>)
    ensures
        match folder_of_key(rows@, key@) {
            Some(p) => r matches Some(s) && s@ == p,
            None => r is None,
        },
{
    let k = chars_of(key);
    let mut i: usize = 0;
    assert(rows@.skip(0) =~= rows@);
    while i < rows.len()
        invariant
            i <= rows@.len(),
            k@ == key@,
            folder_of_key(rows@, key@) == folder_of_key(rows@.skip(i as int), key@),
        decreases rows@.len() - i,
    {
        proof {
            assert(rows@.skip(i as int).drop_first() =~= rows@.skip(i + 1));
            assert(rows@.skip(i as int)[0] == rows@[i as int]);
        }
        let rk = chars_of(rows[i].key.as_str());
        if crate::text::chars_eq(&rk, &k) {
            if rows[i].is_directory {
                return Some(rows[i].path.clone());
            }
            return None;
        }
        i = i + 1;
    }
    None
}

/// The tabs with the active one's history replaced by `h`.
pub open spec fn with_active(t: Seq<HistoryModel>, active: nat, h: HistoryModel) -> Seq<HistoryModel> {
    t.update(active as int, h)
}

/// Applies a navigation command; returns the folder to load, if any.
/// Tab changes clear the selection; history moves leave it.
pub fn navigate(
    tabs: &mut TabManager,
    selection: &mut SelectionState,
    rows: &[LoadedRow],
    event: NavigationEvent,
) -> (r: Option<String>)
    requires
        old(tabs).wf(),
    ensures
        final(tabs).wf(),
        ({
            let t = old(tabs).tabs();
            let a = old(tabs).active_index();
            let h = t[a as int];
            match event {
                NavigationEvent::Refresh => final(tabs).tabs() == t && final(tabs).active_index()
                    == a && (r matches Some(p) && p@ == h.current),
                NavigationEvent::NavigateTo(p) => final(tabs).tabs() == with_active(
                    t,
                    a,
                    visited(h, p@),
                ) && final(tabs).active_index() == a && (r matches Some(q) && q@ == p@),
                NavigationEvent::Back => final(tabs).tabs() == with_active(t, a, went_back(h))
                    && final(tabs).active_index() == a && (if h.back.len() == 0 {
                    r is None
                } else {
                    r matches Some(q) && q@ == h.back.last()
                }),
                NavigationEvent::Forward => final(tabs).tabs() == with_active(
                    t,
                    a,
                    went_forward(h),
                ) && final(tabs).active_index() == a && (if h.forward.len() == 0 {
                    r is None
                } else {
                    r matches Some(q) && q@ == h.forward.last()
                }),
                NavigationEvent::Up => final(tabs).active_index() == a && (match parent_folder(
                    h.current,
                ) {
                    None => final(tabs).tabs() == t && r is None,
                    Some(q) => final(tabs).tabs() == with_active(t, a, visited(h, q)) && (r matches Some(
                        s,
                    ) && s@ == q),
                }),
                NavigationEvent::Activate(key) => final(tabs).active_index() == a && (match folder_of_key(
                    rows@,
                    key@,
                ) {
                    None => final(tabs).tabs() == t && r is None,
                    Some(q) => final(tabs).tabs() == with_active(t, a, visited(h, q)) && (r matches Some(
                        s,
                    ) && s@ == q),
                }),
                NavigationEvent::NewTab => final(tabs).tabs() == t.push(
                    HistoryModel { current: h.current, back: Seq::empty(), forward: Seq::empty() },
                ) && final(tabs).active_index() == t.len() && (r matches Some(q) && q@
                    == h.current) && final(selection).keys() == Set::<Seq<char>>::empty(),
                NavigationEvent::SelectTab(i) => final(tabs).tabs() == t && (if i < t.len() && i
                    != a {
                    final(tabs).active_index() == i && (r matches Some(q) && q@ == t[i as int].current)
                        && final(selection).keys() == Set::<Seq<char>>::empty()
                } else {
                    final(tabs).active_index() == a && r is None
                }),
                NavigationEvent::CloseTab(i) => if t.len() > 1 && i < t.len() {
                    final(tabs).tabs() == t.remove(i as int) && (r matches Some(q) && q@ == final(tabs).tabs()[final(tabs).active_index() as int].current) && final(selection).keys()
                        == Set::<Seq<char>>::empty()
                } else {
                    final(tabs).tabs() == t && final(tabs).active_index() == a && r is None
                },
            }
        }),
{
    match event {
        NavigationEvent::Refresh => Some(tabs.active().current_path().clone()),
        NavigationEvent::NavigateTo(path) => {
            let target = path.clone();
            tabs.active_mut().visit(path);
            Some(target)
        },
        NavigationEvent::Back => tabs.active_mut().go_back(),
        NavigationEvent::Forward => tabs.active_mut().go_forward(),
        NavigationEvent::Up => {
            let current = tabs.active().current_path().clone();
            match parent_directory(current.as_str()) {
                None => None,
                Some(p) => {
                    let target = p.clone();
                    tabs.active_mut().visit(p);
                    Some(target)
                },
            }
        },
        NavigationEvent::Activate(key) => match find_folder(rows, key.as_str()) {
            None => None,
            Some(p) => {
                let target = p.clone();
                tabs.active_mut().visit(p);
                Some(target)
            },
        },
        NavigationEvent::NewTab => {
            let path = tabs.active().current_path().clone();
            let target = path.clone();
            tabs.new_tab(path);
            selection.clear();
            Some(target)
        },
        NavigationEvent::SelectTab(i) => {
            if !tabs.select(i) {
                return None;
            }
            selection.clear();
            Some(tabs.active().current_path().clone())
        },
        NavigationEvent::CloseTab(i) => {
            if !tabs.close(i) {
                return None;
            }
            selection.clear();
            Some(tabs.active().current_path().clone())
        },
    }
}

} // verus!
