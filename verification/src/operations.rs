//! File operations: their errors, and the decisions taken around the
//! calls that copy, rename and delete.

use vstd::prelude::*;
use vstd::string::StringExecFns;
use crate::filesystem::IoErrorKind;
use crate::path::{file_name, parent, path_file_name, path_join, path_parent};
use crate::text::{
    chars_of, decimal, extend_chars, extend_str, push_decimal, push_decimal_wide,
    push_signed_decimal, signed_decimal, string_of,
};

verus! {

/// Why a path was refused before any operation touched it.
#[derive(Debug)]
pub enum ValidationError {
    EmptyPath,
    ParentMissing { path: String },
    UnsupportedSource { path: String },
    ExistingDestination { path: String },
}

impl ValidationError {
    /// The message shown for this refusal.
    pub open spec fn text_of(&self) -> Seq<char> {
        match self {
            ValidationError::EmptyPath => "caminho vazio"@,
            ValidationError::ParentMissing { path } => "o caminho não possui diretório pai: "@
                + path@,
            ValidationError::UnsupportedSource { path } => "tipo de origem não suportado: "@
                + path@,
            ValidationError::ExistingDestination { path } => "o destino já existe: "@ + path@,
        }
    }

    /// The message shown for this refusal.
    pub fn message(&self) -> (r: String)
        ensures
            r@ == self.text_of(),
    {
        let mut out: Vec<char> = Vec::new();
        match self {
            ValidationError::EmptyPath => {
                extend_str(&mut out, "caminho vazio");
            },
            ValidationError::ParentMissing { path } => {
                extend_str(&mut out, "o caminho não possui diretório pai: ");
                extend_str(&mut out, path.as_str());
            },
            ValidationError::UnsupportedSource { path } => {
                extend_str(&mut out, "tipo de origem não suportado: ");
                extend_str(&mut out, path.as_str());
            },
            ValidationError::ExistingDestination { path } => {
                extend_str(&mut out, "o destino já existe: ");
                extend_str(&mut out, path.as_str());
            },
        }
        assert(out@ =~= self.text_of());
        string_of(&out)
    }
}

/// What a finished copy did.
#[derive(Debug, Clone, PartialEq, Eq)]
pub struct CopyReport {
    pub source: String,
    pub destination: String,
    pub bytes_copied: u64,
}

/// Why a file operation failed.
#[derive(Debug)]
pub enum OperationError {
    Validation(ValidationError),
    FileSystem {
        operation: &'static str,
        path: String,
        kind: IoErrorKind,
        raw_os_error: Option<i32>,
    },
    DirectoryNotEmpty { path: String },
    OutputValidationFailed { path: String },
    Cancelled,
}

/// How `Debug` prints an optional operating-system code.
pub open spec fn debug_code(code: Option<i32>) -> Seq<char> {
    match code {
        Some(c) => "Some("@ + signed_decimal(c as int) + ")"@,
        None => "None"@,
    }
}

impl OperationError {
    /// The message shown for this error.
    pub open spec fn text_of(&self) -> Seq<char> {
        match self {
            OperationError::Validation(error) => error.text_of(),
            OperationError::FileSystem { operation, path, kind, raw_os_error } => "falha ao "@
                + operation@ + " em "@ + path@ + ": "@ + kind.name_of() + " (código "@
                + debug_code(*raw_os_error) + ")"@,
            OperationError::DirectoryNotEmpty { path } => "o diretório não está vazio: "@ + path@,
            OperationError::OutputValidationFailed { path } =>
                "o arquivo gerado não passou pela validação: "@ + path@,
            OperationError::Cancelled => "operação cancelada pelo usuário"@,
        }
    }

    /// The message shown for this error.
    pub fn message(&self) -> (r: String)
        ensures
            r@ == self.text_of(),
    {
        match self {
            OperationError::Validation(error) => error.message(),
            OperationError::FileSystem { operation, path, kind, raw_os_error } => {
                let mut out: Vec<char> = Vec::new();
                extend_str(&mut out, "falha ao ");
                extend_str(&mut out, operation);
                extend_str(&mut out, " em ");
                extend_str(&mut out, path.as_str());
                extend_str(&mut out, ": ");
                let name = kind.debug_name();
                extend_str(&mut out, name.as_str());
                extend_str(&mut out, " (código ");
                match raw_os_error {
                    Some(code) => {
                        extend_str(&mut out, "Some(");
                        push_signed_decimal(&mut out, *code as i64);
                        extend_str(&mut out, ")");
                    },
                    None => {
                        extend_str(&mut out, "None");
                    },
                }
                extend_str(&mut out, ")");
                assert(out@ =~= self.text_of());
                string_of(&out)
            },
            OperationError::DirectoryNotEmpty { path } => {
                let mut out: Vec<char> = Vec::new();
                extend_str(&mut out, "o diretório não está vazio: ");
                extend_str(&mut out, path.as_str());
                assert(out@ =~= self.text_of());
                string_of(&out)
            },
            OperationError::OutputValidationFailed { path } => {
                let mut out: Vec<char> = Vec::new();
                extend_str(&mut out, "o arquivo gerado não passou pela validação: ");
                extend_str(&mut out, path.as_str());
                assert(out@ =~= self.text_of());
                string_of(&out)
            },
            OperationError::Cancelled => String::from_str("operação cancelada pelo usuário"),
        }
    }

    /// Whether a rename failed only because source and destination lie on
    /// different devices, so that a copy can take its place.
    pub fn is_cross_device(&self) -> (r: bool)
        ensures
            r == (*self matches OperationError::FileSystem { kind: IoErrorKind::CrossesDevices, .. }),
    {
        match self {
            OperationError::FileSystem { kind: IoErrorKind::CrossesDevices, .. } => true,
            _ => false,
        }
    }
}

/// Wraps an operating-system error met while doing `operation` on `path`.
pub fn from_io(operation: &'static str, path: &str, kind: IoErrorKind, raw_os_error: Option<i32>) -> (r:
    OperationError)
    ensures
        r matches OperationError::FileSystem { operation: o, path: p, kind: k, raw_os_error: c }
            && o == operation && p@ == path@ && k == kind && c == raw_os_error,
{
    OperationError::FileSystem { operation, path: String::from_str(path), kind, raw_os_error }
}

/// Whether an operating-system code says a folder still has entries
/// (`ENOTEMPTY` on Linux, `ERROR_DIR_NOT_EMPTY` on Windows).
pub fn is_directory_not_empty(raw_os_error: Option<i32>) -> (r: bool)
    ensures
        r == (raw_os_error == Some(39i32) || raw_os_error == Some(145i32)),
{
    match raw_os_error {
        Some(code) => code == 39 || code == 145,
        None => false,
    }
}

/// What a deletion does with an entry of the given type.
#[derive(Debug, Clone, Copy, PartialEq, Eq, Structural)]
pub enum DeleteAction {
    RemoveFile,
    RemoveDirectory,
}

/// Chooses how to delete an entry from its type, read without following
/// links: links and files are unlinked, folders removed when empty, and
/// anything else refused.
pub fn delete_action(path: &str, is_symlink: bool, is_file: bool, is_dir: bool) -> (r: Result<
    DeleteAction,
    OperationError,
>)
    ensures
        (is_symlink || is_file) ==> r == Ok::<DeleteAction, OperationError>(DeleteAction::RemoveFile),
        (!is_symlink && !is_file && is_dir) ==> r == Ok::<DeleteAction, OperationError>(
            DeleteAction::RemoveDirectory,
        ),
        (!is_symlink && !is_file && !is_dir) ==> (r matches Err(
            OperationError::Validation(ValidationError::UnsupportedSource { path: p }),
        ) && p@ == path@),
{
    if is_symlink || is_file {
        Ok(DeleteAction::RemoveFile)
    } else if is_dir {
        Ok(DeleteAction::RemoveDirectory)
    } else {
        Err(
            OperationError::Validation(
                ValidationError::UnsupportedSource { path: String::from_str(path) },
            ),
        )
    }
}

/// The error reported when a deletion call failed: a folder that still
/// has entries gets its own variant.
pub fn delete_failure(
    path: &str,
    action: DeleteAction,
    kind: IoErrorKind,
    raw_os_error: Option<i32>,
) -> (r: OperationError)
    ensures
        (action == DeleteAction::RemoveDirectory && (raw_os_error == Some(39i32) || raw_os_error
            == Some(145i32))) ==> (r matches OperationError::DirectoryNotEmpty { path: p }
            && p@ == path@),
        (action == DeleteAction::RemoveDirectory && !(raw_os_error == Some(39i32) || raw_os_error
            == Some(145i32))) ==> (r matches OperationError::FileSystem {
            operation: o,
            path: p,
            kind: k,
            raw_os_error: c,
        } && o@ == "excluir diretório"@ && p@ == path@ && k == kind && c == raw_os_error),
        action == DeleteAction::RemoveFile ==> (r matches OperationError::FileSystem {
            operation: o,
            path: p,
            kind: k,
            raw_os_error: c,
        } && o@ == "excluir entrada"@ && p@ == path@ && k == kind && c == raw_os_error),
{
    match action {
        DeleteAction::RemoveFile => from_io("excluir entrada", path, kind, raw_os_error),
        DeleteAction::RemoveDirectory => {
            if is_directory_not_empty(raw_os_error) {
                OperationError::DirectoryNotEmpty { path: String::from_str(path) }
            } else {
                from_io("excluir diretório", path, kind, raw_os_error)
            }
        },
    }
}

/// A destination must be named, must have a parent folder, and must not
/// exist yet (`exists`, read without following links).
pub fn check_destination(path: &str, exists: bool) -> (r: Result<(), OperationError>)
    ensures
        path@.len() == 0 ==> (r matches Err(OperationError::Validation(ValidationError::EmptyPath))),
        path@.len() > 0 && parent(path@) is None ==> (r matches Err(
            OperationError::Validation(ValidationError::ParentMissing { path: p }),
        ) && p@ == path@),
        path@.len() > 0 && parent(path@) is Some && exists ==> (r matches Err(
            OperationError::Validation(ValidationError::ExistingDestination { path: p }),
        ) && p@ == path@),
        path@.len() > 0 && parent(path@) is Some && !exists ==> r == Ok::<(), OperationError>(()),
{
    let s = chars_of(path);
    if s.len() == 0 {
        return Err(OperationError::Validation(ValidationError::EmptyPath));
    }
    if path_parent(&s).is_none() {
        return Err(
            OperationError::Validation(
                ValidationError::ParentMissing { path: String::from_str(path) },
            ),
        );
    }
    if exists {
        return Err(
            OperationError::Validation(
                ValidationError::ExistingDestination { path: String::from_str(path) },
            ),
        );
    }
    Ok(())
}

/// A copy may start only from a regular file.
pub fn check_copy_source(source: &str, is_file: bool) -> (r: Result<(), OperationError>)
    ensures
        is_file ==> r == Ok::<(), OperationError>(()),
        !is_file ==> (r matches Err(
            OperationError::Validation(ValidationError::UnsupportedSource { path: p }),
        ) && p@ == source@),
{
    if is_file {
        Ok(())
    } else {
        Err(
            OperationError::Validation(
                ValidationError::UnsupportedSource { path: String::from_str(source) },
            ),
        )
    }
}

/// After the bytes were written and synced, the temporary file must hold
/// exactly as many bytes as were copied before it is published.
pub fn check_copied_length(temporary: &str, written_len: u64, bytes_copied: u64) -> (r: Result<
    (),
    OperationError,
>)
    ensures
        written_len == bytes_copied ==> r == Ok::<(), OperationError>(()),
        written_len != bytes_copied ==> (r matches Err(
            OperationError::OutputValidationFailed { path: p },
        ) && p@ == temporary@),
{
    if written_len == bytes_copied {
        Ok(())
    } else {
        Err(OperationError::OutputValidationFailed { path: String::from_str(temporary) })
    }
}

/// The name of the hidden file next to `destination` that a copy writes
/// before publishing: `.{name}.{tag}-{pid}-{stamp}`.
pub open spec fn reserved_name(name: Seq<char>, tag: Seq<char>, pid: u32, stamp: nat) -> Seq<
    char,
> {
    seq!['.'] + name + seq!['.'] + tag + seq!['-'] + decimal(pid as nat) + seq!['-'] + decimal(
        stamp,
    )
}

/// Builds `parent.join(.{name}.{tag}-{pid}-{stamp})`.
pub fn reserved_path(dir: &[char], name: &[char], tag: &str, pid: u32, stamp: u128) -> (r: Vec<
    char,
>)
    ensures
        r@ == crate::path::join(dir@, reserved_name(name@, tag@, pid, stamp as nat)),
{
    let mut leaf: Vec<char> = Vec::new();
    leaf.push('.');
    extend_chars(&mut leaf, name);
    leaf.push('.');
    extend_str(&mut leaf, tag);
    leaf.push('-');
    push_decimal(&mut leaf, pid as u64);
    leaf.push('-');
    push_decimal_wide(&mut leaf, stamp);
    assert(leaf@ =~= reserved_name(name@, tag@, pid, stamp as nat));
    path_join(dir, &leaf)
}

/// The temporary path tried at `attempt` for a copy to `destination`, or
/// why none can be named there.
pub fn temporary_destination(destination: &str, pid: u32, timestamp: u128, attempt: u32) -> (r:
    Result<String, OperationError>)
    requires
        timestamp + attempt <= u128::MAX,
    ensures
        parent(destination@) is None ==> (r matches Err(
            OperationError::Validation(ValidationError::ParentMissing { path: p }),
        ) && p@ == destination@),
        parent(destination@) is Some && file_name(destination@) is None ==> (r matches Err(
            OperationError::Validation(ValidationError::EmptyPath),
        )),
        parent(destination@) is Some && file_name(destination@) is Some ==> (r matches Ok(t)
            && t@ == crate::path::join(
            parent(destination@)->0,
            reserved_name(file_name(destination@)->0, "rovex-tmp"@, pid, (timestamp + attempt) as nat),
        )),
{
    let d = chars_of(destination);
    let dir = match path_parent(&d) {
        Some(dir) => dir,
        None => {
            return Err(
                OperationError::Validation(
                    ValidationError::ParentMissing { path: String::from_str(destination) },
                ),
            );
        },
    };
    let name = match path_file_name(&d) {
        Some(name) => name,
        None => {
            return Err(OperationError::Validation(ValidationError::EmptyPath));
        },
    };
    let stamp = timestamp + attempt as u128;
    let p = reserved_path(&dir, &name, "rovex-tmp", pid, stamp);
    Ok(string_of(&p))
}

/// The error once every temporary name near `destination` was taken.
pub fn temporary_exhausted(destination: &str) -> (r: OperationError)
    ensures
        r matches OperationError::FileSystem { operation: o, path: p, kind: k, raw_os_error: c }
            && o@ == "reservar arquivo temporário"@ && p@ == destination@ && k
            == IoErrorKind::AlreadyExists && c is None,
{
    from_io("reservar arquivo temporário", destination, IoErrorKind::AlreadyExists, None)
}

} // verus!
