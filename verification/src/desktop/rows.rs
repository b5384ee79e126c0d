//! A row of the listing as the window shows it.

use vstd::prelude::*;

verus! {

/// One listed entry: key (unique within a listing), path, displayed texts,
/// and the values the listing can be ordered by. Times are nanoseconds
/// from the Unix epoch.
#[derive(Debug)]
pub struct LoadedRow {
    pub key: String,
    pub path: String,
    pub name: String,
    pub kind: String,
    pub icon: String,
    pub details: String,
    pub size: Option<u64>,
    pub modified: Option<i128>,
    pub created: Option<i128>,
    pub accessed: Option<i128>,
    pub is_directory: bool,
}

/// A copy of `row`.
pub fn clone_row(row: &LoadedRow) -> (r: LoadedRow)
    ensures
        r == *row,
{
    LoadedRow {
        key: row.key.clone(),
        path: row.path.clone(),
        name: row.name.clone(),
        kind: row.kind.clone(),
        icon: row.icon.clone(),
        details: row.details.clone(),
        size: row.size,
        modified: row.modified,
        created: row.created,
        accessed: row.accessed,
        is_directory: row.is_directory,
    }
}

} // verus!
