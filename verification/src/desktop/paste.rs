//! Copy, cut and paste through the clipboard: what the status line says
//! and the batch a paste starts.

use vstd::prelude::*;
use vstd::string::StringExecFns;
use crate::clipboard::{ClipboardAction, ClipboardPayload};
use crate::converters::backend::views;
use crate::desktop::jobs::{OperationKind, OperationRequest};
use crate::text::{decimal, extend_str, push_decimal, string_of};

verus! {

/// The status shown once `count` paths went to the clipboard.
pub open spec fn clipboard_status_of(action: ClipboardAction, count: nat) -> Seq<char> {
    decimal(count) + " item(ns) "@ + (match action {
        ClipboardAction::Copy => "copiados"@,
        ClipboardAction::Cut => "recortados"@,
    }) + " para o clipboard"@
}

/// The status shown once `count` paths went to the clipboard.
pub fn clipboard_status(action: ClipboardAction, count: usize) -> (r: String)
    ensures
        r@ == clipboard_status_of(action, count as nat),
{
    let mut out: Vec<char> = Vec::new();
    push_decimal(&mut out, count as u64);
    extend_str(&mut out, " item(ns) ");
    match action {
        ClipboardAction::Copy => extend_str(&mut out, "copiados"),
        ClipboardAction::Cut => extend_str(&mut out, "recortados"),
    }
    extend_str(&mut out, " para o clipboard");
    string_of(&out)
}

/// The batch a paste into `current` starts: copied paths are copied,
/// cut ones moved.
pub fn paste_request(payload: ClipboardPayload, current: &str) -> (r: OperationRequest)
    ensures
        r.kind == (match payload.action {
            ClipboardAction::Copy => OperationKind::Copy,
            ClipboardAction::Cut => OperationKind::Move,
        }),
        views(r.sources@) == views(payload.paths@),
        r.destination_directory matches Some(d) && d@ == current@,
        r.rename_name is None,
        r.refresh_path@ == current@,
{
    let kind = match payload.action {
        ClipboardAction::Copy => OperationKind::Copy,
        ClipboardAction::Cut => OperationKind::Move,
    };
    OperationRequest {
        kind,
        sources: payload.paths,
        destination_directory: Some(String::from_str(current)),
        rename_name: None,
        refresh_path: String::from_str(current),
    }
}

/// The message shown while `count` pasted items are processed.
pub fn paste_message(count: usize) -> (r: String)
    ensures
        r@ == "Colando "@ + decimal(count as nat) + " item(ns) nesta pasta."@,
{
    let mut out: Vec<char> = Vec::new();
    extend_str(&mut out, "Colando ");
    push_decimal(&mut out, count as u64);
    extend_str(&mut out, " item(ns) nesta pasta.");
    string_of(&out)
}

} // verus!
