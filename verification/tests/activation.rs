use rovex_core::activation::{activation_outcome, reparse_probes_on, supported_for, validate_file_on};
use rovex_core::open_with::{open_with_outcome, validate_file_on as validate_open_with_on};
use rovex_core::activation::{
    activate_file, com_outcome, reparse_probes, shell_outcome, validate_file, ActivationError,
    SW_SHOWNORMAL,
};
use rovex_core::open_with::{
    dialog_outcome, open_with_file, validate_file as validate_open_with, OpenWithError, OAIF_EXEC,
};

#[test]
fn default_activation_does_not_construct_command_parameters() {
    assert_eq!(SW_SHOWNORMAL, 1);
}

#[test]
fn openasinfo_uses_explicit_execute_flag_only() {
    assert_eq!(OAIF_EXEC, 0x4_i32);
}

#[test]
fn activation_accepts_absolute_regular_file_without_canonicalizing_name() {
    let file = "/tmp/rovex/relatório com espaço.txt";
    let probes = reparse_probes(file);
    assert_eq!(
        probes,
        ["/tmp", "/tmp/rovex", "/tmp/rovex/relatório com espaço.txt"]
    );
    let links = vec![false; probes.len()];
    assert_eq!(validate_file(file, true, &links).unwrap(), file);
}

#[test]
fn activation_rejects_directory_relative_and_missing_targets() {
    assert!(matches!(
        validate_file("/tmp/rovex", false, &[false, false]),
        Err(ActivationError::InvalidTarget(_))
    ));
    assert!(matches!(
        validate_file("relativo.txt", true, &[false]),
        Err(ActivationError::InvalidTarget(_))
    ));
}

#[test]
fn rejects_file_inside_symlinked_parent() {
    let file = "/tmp/link-parent/a.txt";
    assert!(matches!(
        validate_file(file, true, &[false, true, false]),
        Err(ActivationError::InvalidTarget(_))
    ));
}

#[test]
fn rejects_ambiguous_parent_component() {
    let file = "/tmp/nested/../a.txt";
    let links = vec![false; reparse_probes(file).len()];
    assert!(matches!(
        validate_file(file, true, &links),
        Err(ActivationError::InvalidTarget(_))
    ));
}

#[test]
fn activation_off_windows_is_unsupported() {
    let result = activate_file("/tmp/a.txt", true, &[false, false]);
    if std::path::MAIN_SEPARATOR == '\\' {
        assert!(matches!(result, Err(ActivationError::InvalidTarget(_))));
    } else {
        assert!(matches!(result, Err(ActivationError::Unsupported)));
    }
    assert!(matches!(
        activate_file("a.txt", true, &[false]),
        Err(ActivationError::InvalidTarget(_))
    ));
}

#[test]
fn shell_answers() {
    assert_eq!(com_outcome(0).unwrap(), true);
    assert_eq!(com_outcome(1).unwrap(), true);
    assert_eq!(com_outcome(2).unwrap(), false);
    assert!(matches!(
        com_outcome(-2147417850),
        Err(ActivationError::ComInitialization(-2147417850))
    ));
    assert!(matches!(shell_outcome(false, 5), Err(ActivationError::ShellExecuteFailed(5))));
    assert!(shell_outcome(true, 0).is_ok());
    assert_eq!(
        ActivationError::ComInitialization(-2147417850).message(),
        "não foi possível inicializar o Shell do Windows (HRESULT 0x80010106)"
    );
    assert_eq!(
        ActivationError::ShellExecuteFailed(2).message(),
        "o aplicativo padrão não pôde abrir o arquivo (erro Win32 2)"
    );
}

#[test]
fn open_with_accepts_absolute_regular_file_without_canonicalizing_name() {
    let file = "/tmp/rovex/relatório com espaço.txt";
    assert_eq!(validate_open_with(file, true, false).unwrap(), file);
}

#[test]
fn open_with_rejects_directory_relative_and_missing_targets() {
    assert!(matches!(
        validate_open_with("/tmp/rovex", false, false),
        Err(OpenWithError::InvalidTarget(_))
    ));
    assert!(matches!(
        validate_open_with("relativo.txt", true, false),
        Err(OpenWithError::InvalidTarget(_))
    ));
}

#[test]
fn open_with_rejects_symlink_without_following_target() {
    assert!(matches!(
        validate_open_with("/tmp/link.txt", true, true),
        Err(OpenWithError::InvalidTarget(_))
    ));
}

#[test]
fn open_with_answers() {
    assert!(dialog_outcome(0).is_ok());
    assert!(matches!(dialog_outcome(-1), Err(OpenWithError::DialogFailed(-1))));
    assert_eq!(
        OpenWithError::DialogFailed(-1).message(),
        "o diálogo Open With falhou (HRESULT 0xFFFFFFFF)"
    );
    assert_eq!(
        OpenWithError::InvalidTarget("/x".to_owned()).message(),
        "Open With exige um arquivo regular sem redirecionamento especial: /x"
    );
    if std::path::MAIN_SEPARATOR != '\\' {
        assert!(matches!(
            open_with_file("/tmp/a.txt", true, false),
            Err(OpenWithError::Unsupported)
        ));
    }
}

#[test]
fn windows_paths_follow_windows_rules() {
    assert!(supported_for('\\'));
    assert!(!supported_for('/'));
    let file = "C:\\Users\\ana\\nota.txt";
    assert_eq!(reparse_probes_on(file, true), ["C:\\Users", "C:\\Users\\ana", "C:\\Users\\ana\\nota.txt"]);
    assert_eq!(reparse_probes_on("\\\\srv\\docs\\a.txt", true), ["\\\\srv\\docs\\a.txt"]);
    assert_eq!(reparse_probes_on("/tmp/a.txt", false), ["/tmp", "/tmp/a.txt"]);
    assert_eq!(validate_file_on(file, true, &[false, false, false], true).unwrap(), file);
    assert_eq!(activation_outcome(file, true, &[false, false, false], true).unwrap(), file);
    assert!(matches!(
        activation_outcome(file, true, &[false, false, false], false),
        Err(ActivationError::InvalidTarget(_))
    ));
    assert!(matches!(
        activation_outcome("/tmp/a.txt", true, &[false, false], false),
        Err(ActivationError::Unsupported)
    ));
    assert!(validate_file_on("\\\\srv\\docs\\a.txt", true, &[false], true).is_ok());
    assert!(validate_file_on("C:/Users/a.txt", true, &[false, false], true).is_ok());
    for refused in ["C:a.txt", "\\a.txt", "C:\\a\\..\\b.txt", "\\\\?\\C:\\a.txt"] {
        assert!(matches!(
            validate_file_on(refused, true, &[false, false, false], true),
            Err(ActivationError::InvalidTarget(_))
        ), "{refused}");
    }
    assert_eq!(open_with_outcome(file, true, false, true).unwrap(), file);
    assert!(matches!(open_with_outcome(file, true, false, false), Err(OpenWithError::InvalidTarget(_))));
    assert!(matches!(open_with_outcome("/tmp/a.txt", true, false, false), Err(OpenWithError::Unsupported)));
    assert!(validate_open_with_on(file, true, false, true).is_ok());
    assert!(validate_open_with_on(file, true, true, true).is_err());
}
