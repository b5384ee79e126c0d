use rovex_core::filesystem::{is_dot_name, ListingOptions};
use rovex_core::filesystem::{DirectoryEntry, EntryKind, FileSystem, FileSystemError, IoErrorKind};

fn check_denied_message() {
    let error = FileSystemError::Io {
        operation: "ler diretório",
        path: "/protegido".to_owned(),
        kind: IoErrorKind::PermissionDenied,
        raw_os_error: Some(13),
    };
    assert_eq!(
        error.message(),
        "não foi possível ler diretório em /protegido: o acesso foi negado"
    );
}

#[test]
fn filesystem_mensagem_de_acesso_negado_e_humanizada() {
    check_denied_message();
}

#[test]
fn tests_mensagem_de_acesso_negado_e_humanizada() {
    check_denied_message();
}

fn entry(name: &str, kind: EntryKind) -> DirectoryEntry {
    DirectoryEntry::from_metadata(
        format!("/r/{name}"),
        name.to_owned(),
        kind == EntryKind::Symlink,
        kind == EntryKind::Directory,
        kind == EntryKind::File,
        8,
        None,
        None,
        None,
        false,
        false,
    )
}

#[test]
fn folders_come_first_then_names_ignoring_case() {
    let entries = vec![
        entry("arquivo.txt", EntryKind::File),
        entry("Pasta", EntryKind::Directory),
        entry("Banana", EntryKind::File),
        entry("abc", EntryKind::Directory),
    ];
    let ordered = FileSystem.order_entries(entries);
    let names: Vec<&str> = ordered.iter().map(|e| e.name.as_str()).collect();
    assert_eq!(names, ["abc", "Pasta", "arquivo.txt", "Banana"]);
}

#[test]
fn entry_kinds_and_sizes_from_metadata() {
    let file = entry("a", EntryKind::File);
    assert_eq!(file.kind, EntryKind::File);
    assert_eq!(file.size, Some(8));
    let link = entry("b", EntryKind::Symlink);
    assert_eq!(link.kind, EntryKind::Symlink);
    assert_eq!(link.size, None);
    assert_eq!(entry("c", EntryKind::Directory).size, None);
    assert_eq!(link.display_name(), "b");
}

#[test]
fn listing_path_checks() {
    assert!(matches!(
        FileSystem.check_listing_path(""),
        Err(FileSystemError::InvalidPath { reason: "vazio", .. })
    ));
    assert!(FileSystem.check_listing_path("/").is_ok());
    assert!(matches!(
        FileSystem.check_is_directory("/a.txt", false),
        Err(FileSystemError::NotDirectory { .. })
    ));
}

#[test]
fn io_errors_are_classified() {
    assert!(matches!(
        FileSystemError::from_io("ler", "/x", IoErrorKind::NotFound, Some(2)),
        FileSystemError::NotFound { .. }
    ));
    assert!(matches!(
        FileSystemError::from_io("ler", "/x", IoErrorKind::PermissionDenied, None),
        FileSystemError::AccessDenied { .. }
    ));
    let other = FileSystemError::from_io("listar diretório", "/x", IoErrorKind::DirectoryNotEmpty, Some(39));
    assert_eq!(
        other.message(),
        "não foi possível listar diretório em /x: o diretório não está vazio"
    );
    assert_eq!(
        FileSystemError::NotFound { path: "/y".to_owned() }.message(),
        "caminho não encontrado: /y"
    );
    assert_eq!(
        FileSystemError::InvalidPath { path: String::new(), reason: "vazio" }.message(),
        "caminho inválido (vazio): "
    );
}

#[test]
fn names_equal_ignoring_case_keep_their_order() {
    let ordered = FileSystem.order_entries(vec![
        entry("b", EntryKind::File),
        entry("B", EntryKind::File),
        entry("a", EntryKind::File),
    ]);
    let names: Vec<&str> = ordered.iter().map(|e| e.name.as_str()).collect();
    assert_eq!(names, ["a", "b", "B"]);
    let ordered = FileSystem.order_entries(vec![
        entry("B", EntryKind::File),
        entry("b", EntryKind::File),
    ]);
    let names: Vec<&str> = ordered.iter().map(|e| e.name.as_str()).collect();
    assert_eq!(names, ["B", "b"]);
}

#[test]
fn dot_names_are_hidden_by_default_and_shown_on_request() {
    assert!(is_dot_name(".segredo.txt"));
    assert!(!is_dot_name("visivel.txt"));
    let make = |name: &str, hidden: bool, system: bool| {
        DirectoryEntry::from_metadata(
            format!("/r/{name}"), name.to_owned(), false, false, true, 1, None, None, None, hidden, system,
        )
    };
    let entries = || vec![make("visivel.txt", false, false), make(".segredo.txt", true, false), make("sys", false, true)];
    let names = |v: Vec<DirectoryEntry>| v.into_iter().map(|e| e.name).collect::<Vec<_>>();
    assert_eq!(names(FileSystem.filter_entries(entries(), ListingOptions::default())), ["visivel.txt"]);
    let shown = FileSystem.filter_entries(entries(), ListingOptions { show_hidden: true, show_system: false });
    assert!(shown.iter().any(|e| e.name == ".segredo.txt" && e.is_hidden && !e.is_system));
    assert_eq!(names(shown), ["visivel.txt", ".segredo.txt"]);
    assert_eq!(
        names(FileSystem.filter_entries(entries(), ListingOptions { show_hidden: true, show_system: true })).len(),
        3
    );
}
