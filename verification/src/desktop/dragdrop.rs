//! Files dropped onto the window from elsewhere: which are taken, and the
//! copy they start.

use vstd::prelude::*;
use vstd::string::StringExecFns;
use crate::desktop::jobs::{OperationKind, OperationRequest};
use crate::path::{is_absolute, path_is_absolute};
use crate::text::{chars_of, extend_str, string_of, trim, trim_chars};
use crate::converters::backend::views;

verus! {

/// What the disk said of a dropped path: whether it is a regular file,
/// or why it could not be checked.
pub type SourceProbe = Result<bool, String>;

/// Why a dropped path is refused, if it is.
pub open spec fn drop_refusal(path: Seq<char>, probe: Result<bool, String>) -> Option<Seq<char>> {
    if path.len() == 0 {
        Some("O drop não contém um caminho."@)
    } else if !is_absolute(path) {
        Some("Apenas caminhos absolutos podem ser recebidos."@)
    } else {
        match probe {
            Err(m) => Some(m@),
            Ok(is_file) => if !is_file {
                Some("O drop de pastas ainda não está disponível; solte um arquivo."@)
            } else {
                None
            },
        }
    }
}

/// Checks a dropped path: present, absolute, and a regular file. The
/// probe is consulted only for an absolute path.
pub fn validate_external_path(path: &str, probe: SourceProbe) -> (r: Result<(), String>)
    ensures
        match drop_refusal(path@, probe) {
            Some(m) => r matches Err(e) && e@ == m,
            None => r is Ok,
        },
{
    let p = chars_of(path);
    if p.len() == 0 {
        return Err(String::from_str("O drop não contém um caminho."));
    }
    if !path_is_absolute(&p) {
        return Err(String::from_str("Apenas caminhos absolutos podem ser recebidos."));
    }
    match probe {
        Err(m) => Err(m),
        Ok(is_file) => {
            if !is_file {
                Err(String::from_str("O drop de pastas ainda não está disponível; solte um arquivo."))
            } else {
                Ok(())
            }
        },
    }
}

/// The path a drop carries, as text around it is trimmed.
pub fn dropped_path(value: &str) -> (r: String)
    ensures
        r@ == trim(value@),
{
    let v = chars_of(value);
    let t = trim_chars(&v);
    string_of(&t)
}

/// The file a drop of `value` names, once trimmed and checked.
pub fn external_file_path(value: &str, probe: SourceProbe) -> (r: Result<String, String>)
    ensures
        match drop_refusal(trim(value@), probe) {
            Some(m) => r matches Err(e) && e@ == m,
            None => r matches Ok(p) && p@ == trim(value@),
        },
{
    let path = dropped_path(value);
    validate_external_path(path.as_str(), probe)?;
    Ok(path)
}

/// Why the current folder cannot receive a drop, if it cannot:
/// `folder_probe` is its `(is_symlink, is_dir)` read without following
/// links, or `None` when it could not be read.
pub open spec fn target_refusal(destination: Seq<char>, folder_probe: Option<(bool, bool)>) -> Option<
    Seq<char>,
> {
    if !is_absolute(destination) {
        Some("A pasta atual não é um caminho absoluto."@)
    } else {
        match folder_probe {
            None => Some("A pasta atual não está disponível."@),
            Some((is_symlink, is_dir)) => if is_symlink || !is_dir {
                Some("A pasta atual não é um diretório seguro."@)
            } else {
                None
            },
        }
    }
}

/// The copy a dropped file starts into the current folder.
pub fn drop_copy_request(source: &str, destination: &str, folder_probe: Option<(bool, bool)>) -> (r:
    Result<OperationRequest, String>)
    ensures
        match target_refusal(destination@, folder_probe) {
            Some(m) => r matches Err(e) && e@ == m,
            None => r matches Ok(q) && q.kind == OperationKind::Copy && views(q.sources@)
                == seq![source@] && (q.destination_directory matches Some(d) && d@
                == destination@) && q.rename_name is None && q.refresh_path@ == destination@,
        },
{
    let d = chars_of(destination);
    if !path_is_absolute(&d) {
        return Err(String::from_str("A pasta atual não é um caminho absoluto."));
    }
    match folder_probe {
        None => Err(String::from_str("A pasta atual não está disponível.")),
        Some((is_symlink, is_dir)) => {
            if is_symlink || !is_dir {
                return Err(String::from_str("A pasta atual não é um diretório seguro."));
            }
            let mut sources: Vec<String> = Vec::new();
            sources.push(String::from_str(source));
            assert(views(sources@) =~= seq![source@]);
            Ok(
                OperationRequest {
                    kind: OperationKind::Copy,
                    sources,
                    destination_directory: Some(String::from_str(destination)),
                    rename_name: None,
                    refresh_path: String::from_str(destination),
                },
            )
        },
    }
}

/// The message shown while a dropped file is copied.
pub fn drop_copy_message(source: &str) -> (r: String)
    ensures
        r@ == "Copiando "@ + source@ + " para a pasta atual…"@,
{
    let mut out: Vec<char> = Vec::new();
    extend_str(&mut out, "Copiando ");
    extend_str(&mut out, source);
    extend_str(&mut out, " para a pasta atual…");
    string_of(&out)
}

} // verus!
