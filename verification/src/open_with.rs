//! Offering the system's "Open With" dialog for a file: which targets are
//! accepted, and what the shell's answers mean.

use vstd::prelude::*;
use vstd::string::StringExecFns;
use crate::activation::{hresult_hex, main_separator, supported_for, RPC_E_CHANGED_MODE, S_FALSE, S_OK};
use crate::winpath::{absolute_on, is_absolute_on};
use crate::text::{chars_of, extend_str, string_of};

verus! {

/// The dialog's only flag: run the chosen application on the file.
pub const OAIF_EXEC: i32 = 0x4;

/// Why the dialog could not be offered.
#[derive(Debug)]
pub enum OpenWithError {
    InvalidTarget(String),
    Unsupported,
    ComInitialization(i32),
    DialogFailed(i32),
}

impl OpenWithError {
    pub open spec fn text_of(&self) -> Seq<char> {
        match self {
            OpenWithError::InvalidTarget(p) =>
                "Open With exige um arquivo regular sem redirecionamento especial: "@ + p@,
            OpenWithError::Unsupported => "Open With não está disponível nesta plataforma"@,
            OpenWithError::ComInitialization(hr) =>
                "não foi possível inicializar o Shell do Windows (HRESULT 0x"@ + hresult_hex(*hr)
                + ")"@,
            OpenWithError::DialogFailed(hr) => "o diálogo Open With falhou (HRESULT 0x"@
                + hresult_hex(*hr) + ")"@,
        }
    }

    /// The message shown for this error.
    pub fn message(&self) -> (r: String)
        ensures
            r@ == self.text_of(),
    {
        let mut out: Vec<char> = Vec::new();
        match self {
            OpenWithError::InvalidTarget(p) => {
                extend_str(&mut out, "Open With exige um arquivo regular sem redirecionamento especial: ");
                extend_str(&mut out, p.as_str());
            },
            OpenWithError::Unsupported => {
                extend_str(&mut out, "Open With não está disponível nesta plataforma");
            },
            OpenWithError::ComInitialization(hr) => {
                extend_str(&mut out, "não foi possível inicializar o Shell do Windows (HRESULT 0x");
                crate::activation::push_hresult(&mut out, *hr);
                extend_str(&mut out, ")");
            },
            OpenWithError::DialogFailed(hr) => {
                extend_str(&mut out, "o diálogo Open With falhou (HRESULT 0x");
                crate::activation::push_hresult(&mut out, *hr);
                extend_str(&mut out, ")");
            },
        }
        assert(out@ =~= self.text_of());
        string_of(&out)
    }
}

/// Whether the dialog exists here: only on Windows. What is returned is
/// `supported_for` of this platform's separator.
pub fn is_supported() -> (r: bool) {
    supported_for(main_separator())
}

/// An accepted target on the given platform: absolute, a regular file,
/// and not itself a link.
pub open spec fn accepted_target(path: Seq<char>, is_file: bool, is_link: bool, windows: bool) -> bool {
    absolute_on(path, windows) && is_file && !is_link
}

/// `r` is what checking `path` gives on the given platform: the path
/// itself when it is accepted, `InvalidTarget` naming it otherwise.
pub open spec fn validated(
    r: Result<String, OpenWithError>,
    path: Seq<char>,
    is_file: bool,
    is_link: bool,
    windows: bool,
) -> bool {
    if accepted_target(path, is_file, is_link, windows) {
        r matches Ok(p) && p@ == path
    } else {
        r matches Err(OpenWithError::InvalidTarget(p)) && p@ == path
    }
}

/// Checks a file before the dialog is offered for it, with the path
/// rules of Windows (`windows`) or of Unix. `is_file` tells whether it is
/// a regular file (links followed); `is_link` whether the path itself is
/// a link or could not be read.
pub fn validate_file_on(path: &str, is_file: bool, is_link: bool, windows: bool) -> (r: Result<
    String,
    OpenWithError,
>)
    ensures
        validated(r, path@, is_file, is_link, windows),
{
    let s = chars_of(path);
    if !is_absolute_on(&s, windows) || !is_file || is_link {
        return Err(OpenWithError::InvalidTarget(String::from_str(path)));
    }
    Ok(String::from_str(path))
}

/// Checks a file before the dialog is offered for it, with this
/// platform's path rules: what `validate_file_on` gives for the platform
/// `is_supported` names.
pub fn validate_file(path: &str, is_file: bool, is_link: bool) -> (r: Result<String, OpenWithError>)
    ensures
        validated(r, path@, is_file, is_link, false) || validated(r, path@, is_file, is_link, true),
{
    let windows = is_supported();
    validate_file_on(path, is_file, is_link, windows)
}

/// `r` is what deciding to offer the dialog for `path` gives: a refused
/// target is refused; an accepted one is offered where the dialog is
/// `supported` (Windows), and is `Unsupported` elsewhere.
pub open spec fn open_with_decided(
    r: Result<String, OpenWithError>,
    path: Seq<char>,
    is_file: bool,
    is_link: bool,
    supported: bool,
) -> bool {
    if !accepted_target(path, is_file, is_link, supported) {
        r matches Err(OpenWithError::InvalidTarget(p)) && p@ == path
    } else if supported {
        r matches Ok(p) && p@ == path
    } else {
        r matches Err(OpenWithError::Unsupported)
    }
}

/// Decides whether to offer the dialog for `path`, given whether it is
/// supported here (which also selects the Windows path rules).
pub fn open_with_outcome(path: &str, is_file: bool, is_link: bool, supported: bool) -> (r: Result<
    String,
    OpenWithError,
>)
    ensures
        open_with_decided(r, path@, is_file, is_link, supported),
{
    let target = validate_file_on(path, is_file, is_link, supported)?;
    if supported {
        Ok(target)
    } else {
        Err(OpenWithError::Unsupported)
    }
}

/// Decides whether to offer the dialog for `path` on this platform: what
/// `open_with_outcome` gives for the answer of `is_supported`.
pub fn open_with_file(path: &str, is_file: bool, is_link: bool) -> (r: Result<String, OpenWithError>)
    ensures
        open_with_decided(r, path@, is_file, is_link, false) || open_with_decided(
            r,
            path@,
            is_file,
            is_link,
            true,
        ),
{
    let supported = is_supported();
    open_with_outcome(path, is_file, is_link, supported)
}

/// What the shell library's initialisation answered: another mode, or
/// any failure, stops; otherwise whether it must be released afterwards.
pub fn com_outcome(com_result: i32) -> (r: Result<bool, OpenWithError>)
    ensures
        (com_result == RPC_E_CHANGED_MODE || com_result < 0) ==> (r matches Err(
            OpenWithError::ComInitialization(hr),
        ) && hr == com_result),
        !(com_result == RPC_E_CHANGED_MODE || com_result < 0) ==> r == Ok::<bool, OpenWithError>(
            com_result == S_OK || com_result == S_FALSE,
        ),
{
    if com_result == RPC_E_CHANGED_MODE {
        return Err(OpenWithError::ComInitialization(com_result));
    }
    if com_result < 0 {
        return Err(OpenWithError::ComInitialization(com_result));
    }
    Ok(com_result == S_OK || com_result == S_FALSE)
}

/// What the dialog answered.
pub fn dialog_outcome(result: i32) -> (r: Result<(), OpenWithError>)
    ensures
        result >= 0 ==> r is Ok,
        result < 0 ==> (r matches Err(OpenWithError::DialogFailed(hr)) && hr == result),
{
    if result >= 0 {
        Ok(())
    } else {
        Err(OpenWithError::DialogFailed(result))
    }
}

} // verus!
