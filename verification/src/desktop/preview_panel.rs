//! The preview panel: what it shows for the current selection, and the
//! texts it shows once a preview arrives.

use vstd::prelude::*;
use vstd::string::StringExecFns;
use crate::path::{file_name, path_file_name};
use crate::text::{chars_of, decimal, extend_str, push_decimal, string_of};

verus! {

/// What the panel does for the current selection.
#[derive(Debug)]
pub enum PreviewStep {
    /// Nothing single is selected: cancel any pending preview and hide.
    Hide,
    /// Show the name and say previews are not available.
    Unavailable { title: String },
    /// Show the name and say folders have no image preview.
    Folder { title: String },
    /// Show the name and ask for a preview of the file.
    Request { path: String, title: String },
}

/// What the panel does for `target`, the single selected row as
/// (path, name, is folder), when a preview worker exists or not.
pub fn preview_step(target: Option<(String, String, bool)>, worker_available: bool) -> (r: PreviewStep)
    ensures
        match target {
            None => r is Hide,
            Some((path, name, is_directory)) => if !worker_available {
                r matches PreviewStep::Unavailable { title } && title == name
            } else if is_directory {
                r matches PreviewStep::Folder { title } && title == name
            } else {
                r matches PreviewStep::Request { path: p, title } && p == path && title == name
            },
        },
{
    match target {
        None => PreviewStep::Hide,
        Some((path, name, is_directory)) => {
            if !worker_available {
                PreviewStep::Unavailable { title: name }
            } else if is_directory {
                PreviewStep::Folder { title: name }
            } else {
                PreviewStep::Request { path, title: name }
            }
        },
    }
}

/// The status shown for a preview step.
pub open spec fn step_status_of(step: PreviewStep) -> Seq<char> {
    match step {
        PreviewStep::Unavailable { .. } => "Pré-visualização indisponível."@,
        PreviewStep::Folder { .. } => "Pastas não possuem prévia de imagem."@,
        _ => Seq::empty(),
    }
}

/// The status shown for a preview step.
pub fn step_status(step: &PreviewStep) -> (r: &'static str)
    ensures
        r@ == step_status_of(*step),
{
    match step {
        PreviewStep::Unavailable { .. } => "Pré-visualização indisponível.",
        PreviewStep::Folder { .. } => "Pastas não possuem prévia de imagem.",
        _ => {
            proof {
                reveal_strlit("");
            }
            ""
        },
    }
}

/// Whether an arriving preview answers the latest request: older ones
/// are dropped.
pub fn is_current(latest_generation: u64, event_generation: u64) -> (r: bool)
    ensures
        r == (latest_generation == event_generation),
{
    latest_generation == event_generation
}

/// The title of an arrived preview: the file's name, else `fallback`.
pub fn preview_title(source: &str, fallback: &str) -> (r: String)
    ensures
        r@ == (match file_name(source@) {
            Some(n) => n,
            None => fallback@,
        }),
{
    let s = chars_of(source);
    match path_file_name(&s) {
        Some(n) => string_of(&n),
        None => String::from_str(fallback),
    }
}

/// The status of an image preview: format and size in pixels.
pub fn image_status(format: &str, width: u32, height: u32) -> (r: String)
    ensures
        r@ == format@ + " • "@ + decimal(width as nat) + "×"@ + decimal(height as nat),
{
    let mut out: Vec<char> = Vec::new();
    extend_str(&mut out, format);
    extend_str(&mut out, " • ");
    push_decimal(&mut out, width as u64);
    extend_str(&mut out, "×");
    push_decimal(&mut out, height as u64);
    string_of(&out)
}

/// The status of a text preview: encoding, bytes read, and whether the
/// text was cut.
pub fn text_status(encoding: &str, bytes_read: usize, truncated: bool) -> (r: String)
    ensures
        r@ == encoding@ + " • "@ + decimal(bytes_read as nat) + " bytes"@ + (if truncated {
            " • truncado"@
        } else {
            Seq::<char>::empty()
        }),
{
    let mut out: Vec<char> = Vec::new();
    extend_str(&mut out, encoding);
    extend_str(&mut out, " • ");
    push_decimal(&mut out, bytes_read as u64);
    extend_str(&mut out, " bytes");
    if truncated {
        extend_str(&mut out, " • truncado");
    }
    string_of(&out)
}

} // verus!
