//! Starting and following a search through the subfolders: when it may
//! start, what the status bar says, and which of its events still count.

use vstd::prelude::*;
use vstd::string::StringExecFns;
use crate::text::{chars_of, trim, trim_chars};

verus! {

/// What asking for a search leads to.
#[derive(Debug)]
pub enum SearchStart {
    /// Nothing to look for: the status says so and nothing else changes.
    Refused { status: String },
    /// The search generation moved on, but no worker can search.
    Unavailable { generation: u64, status: String },
    /// The search runs under this generation; earlier results are cleared.
    Started { generation: u64, status: String },
}

/// Asks for a search of `query` below the current folder. `generation` is
/// the current search generation and `worker_available` whether a search
/// worker exists.
pub fn search_start(query: &str, generation: u64, worker_available: bool) -> (r: SearchStart)
    requires
        generation < u64::MAX,
    ensures
        trim(query@).len() == 0 ==> (r matches SearchStart::Refused { status }
            && status@ == "Informe um nome para pesquisar nas subpastas."@),
        trim(query@).len() > 0 && !worker_available ==> (r matches SearchStart::Unavailable {
            generation: g,
            status,
        } && g == generation + 1 && status@ == "Pesquisa indisponível."@),
        trim(query@).len() > 0 && worker_available ==> (r matches SearchStart::Started {
            generation: g,
            status,
        } && g == generation + 1 && status@ == "Pesquisando nas subpastas…"@),
{
    let q = chars_of(query);
    let t = trim_chars(&q);
    if t.len() == 0 {
        return SearchStart::Refused {
            status: String::from_str("Informe um nome para pesquisar nas subpastas."),
        };
    }
    let next = generation + 1;
    if !worker_available {
        SearchStart::Unavailable { generation: next, status: String::from_str("Pesquisa indisponível.") }
    } else {
        SearchStart::Started { generation: next, status: String::from_str("Pesquisando nas subpastas…") }
    }
}

/// Whether an event of the search started under `started`, tagged
/// `event`, still counts while the generation counter reads `current`:
/// only when neither a later search nor a cancellation moved it on.
pub fn search_event_applies(current: u64, started: u64, event: u64) -> (r: bool)
    ensures
        r == (current == started && event == started),
{
    current == started && event == started
}

/// The generation after a cancellation, and what the status says.
pub fn search_cancel(generation: u64) -> (r: (u64, String))
    ensures
        r.0 == generation.wrapping_add(1),
        r.1@ == "Pesquisa cancelada."@,
{
    (generation.wrapping_add(1), String::from_str("Pesquisa cancelada."))
}

} // verus!
