//! The rows the listing widget shows, with their selection marks.

use vstd::prelude::*;
use crate::desktop::listing::{format_timestamp, timestamp_text};
use crate::desktop::rows::LoadedRow;
use crate::desktop::selection::SelectionState;

verus! {

/// A row as the listing widget shows it.
#[derive(Debug, Clone, PartialEq, Eq)]
pub struct FileRow {
    pub selected: bool,
    pub key: String,
    pub name: String,
    pub kind: String,
    pub icon: String,
    pub details: String,
    pub modified: String,
    pub created: String,
    pub accessed: String,
    pub is_directory: bool,
}

/// `f` shows `row` under `selection`.
pub open spec fn shows(f: FileRow, row: LoadedRow, selection: Set<Seq<char>>) -> bool {
    &&& f.selected == selection.contains(row.key@)
    &&& f.key@ == row.key@
    &&& f.name@ == row.name@
    &&& f.kind@ == row.kind@
    &&& f.icon@ == row.icon@
    &&& f.details@ == row.details@
    &&& f.modified@ == timestamp_text(row.modified)
    &&& f.created@ == timestamp_text(row.created)
    &&& f.accessed@ == timestamp_text(row.accessed)
    &&& f.is_directory == row.is_directory
}

/// The widget's rows for `rows`, marked as `selection` says.
pub fn file_rows(rows: &[LoadedRow], selection: &SelectionState) -> (r: Vec<FileRow>)
    ensures
        r@.len() == rows@.len(),
        forall|i: int| 0 <= i < rows@.len() ==> shows(#[trigger] r@[i], rows@[i], selection.keys()),
{
    let mut out: Vec<FileRow> = Vec::new();
    let mut i: usize = 0;
    while i < rows.len()
        invariant
            i <= rows@.len(),
            out@.len() == i,
            forall|k: int| 0 <= k < i ==> shows(#[trigger] out@[k], rows@[k], selection.keys()),
        decreases rows@.len() - i,
    {
        let row = &rows[i];
        out.push(
            FileRow {
                selected: selection.is_selected(row.key.as_str()),
                key: row.key.clone(),
                name: row.name.clone(),
                kind: row.kind.clone(),
                icon: row.icon.clone(),
                details: row.details.clone(),
                modified: format_timestamp(row.modified),
                created: format_timestamp(row.created),
                accessed: format_timestamp(row.accessed),
                is_directory: row.is_directory,
            },
        );
        i = i + 1;
    }
    out
}

/// The marks to change after the selection changed: each shown row whose
/// mark differs from `selection`, with its new mark, in order.
pub fn selection_updates(rows: &[FileRow], selection: &SelectionState) -> (r: Vec<(usize, bool)>)
    ensures
        forall|j: int|
            0 <= j < r@.len() ==> (#[trigger] r@[j]).0 < rows@.len() && r@[j].1
                == selection.keys().contains(rows@[r@[j].0 as int].key@) && rows@[r@[j].0 as int].selected
                != r@[j].1,
        forall|i: int|
            0 <= i < rows@.len() && rows@[i].selected != selection.keys().contains(#[trigger] rows@[i].key@)
                ==> exists|j: int| 0 <= j < r@.len() && r@[j].0 == i,
        forall|a: int, b: int| 0 <= a < b < r@.len() ==> (#[trigger] r@[a]).0 < (#[trigger] r@[b]).0,
{
    let mut out: Vec<(usize, bool)> = Vec::new();
    let mut i: usize = 0;
    while i < rows.len()
        invariant
            i <= rows@.len(),
            forall|j: int|
                0 <= j < out@.len() ==> (#[trigger] out@[j]).0 < i && out@[j].1
                    == selection.keys().contains(rows@[out@[j].0 as int].key@)
                    && rows@[out@[j].0 as int].selected != out@[j].1,
            forall|k: int|
                0 <= k < i && rows@[k].selected != selection.keys().contains(#[trigger] rows@[k].key@)
                    ==> exists|j: int| 0 <= j < out@.len() && out@[j].0 == k,
            forall|a: int, b: int| 0 <= a < b < out@.len() ==> (#[trigger] out@[a]).0 < (#[trigger] out@[b]).0,
        decreases rows@.len() - i,
    {
        let selected = selection.is_selected(rows[i].key.as_str());
        if rows[i].selected != selected {
            let ghost before = out@;
            out.push((i, selected));
            proof {
                assert(out@[before.len() as int].0 == i);
                assert forall|k: int|
                    0 <= k < i + 1 && rows@[k].selected != selection.keys().contains(
                        #[trigger] rows@[k].key@,
                    ) implies exists|j: int| 0 <= j < out@.len() && out@[j].0 == k by {
                    if k < i {
                        let j = choose|j: int| 0 <= j < before.len() && before[j].0 == k;
                        assert(out@[j] == before[j]);
                    } else {
                        assert(out@[before.len() as int].0 == k);
                    }
                }
            }
        }
        i = i + 1;
    }
    out
}

} // verus!
