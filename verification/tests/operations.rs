use rovex_core::operations::check_destination;
use rovex_core::filesystem::IoErrorKind;
use rovex_core::operations::{
    check_copied_length, check_copy_source, delete_action, delete_failure, from_io,
    is_directory_not_empty, temporary_destination, temporary_exhausted, DeleteAction,
    OperationError, ValidationError,
};

#[test]
fn file_system_error_message_names_kind_and_code() {
    let error = from_io("copiar arquivo", "/a", IoErrorKind::NotFound, Some(2));
    assert_eq!(
        error.message(),
        "falha ao copiar arquivo em /a: NotFound (código Some(2))"
    );
    let other = from_io("x", "/b", IoErrorKind::Other("Uncategorized".to_owned()), None);
    assert_eq!(other.message(), "falha ao x em /b: Uncategorized (código None)");
    let negative = from_io("y", "/c", IoErrorKind::InvalidInput, Some(-5));
    assert_eq!(negative.message(), "falha ao y em /c: InvalidInput (código Some(-5))");
}

#[test]
fn deletion_follows_the_entry_type() {
    assert_eq!(delete_action("/l", true, false, false).unwrap(), DeleteAction::RemoveFile);
    assert_eq!(delete_action("/f", false, true, false).unwrap(), DeleteAction::RemoveFile);
    assert_eq!(delete_action("/d", false, false, true).unwrap(), DeleteAction::RemoveDirectory);
    assert!(matches!(
        delete_action("/s", false, false, false),
        Err(OperationError::Validation(ValidationError::UnsupportedSource { .. }))
    ));
    assert!(matches!(
        delete_failure("/d", DeleteAction::RemoveDirectory, IoErrorKind::Other("x".to_owned()), Some(39)),
        OperationError::DirectoryNotEmpty { .. }
    ));
    assert!(matches!(
        delete_failure("/d", DeleteAction::RemoveDirectory, IoErrorKind::PermissionDenied, Some(13)),
        OperationError::FileSystem { operation: "excluir diretório", .. }
    ));
    assert!(is_directory_not_empty(Some(145)));
    assert!(!is_directory_not_empty(None));
}

#[test]
fn copies_need_regular_source_and_exact_length() {
    assert!(check_copy_source("/f", true).is_ok());
    assert!(check_copy_source("/d", false).is_err());
    assert!(check_copied_length("/t", 12, 12).is_ok());
    assert!(matches!(
        check_copied_length("/t", 11, 12),
        Err(OperationError::OutputValidationFailed { .. })
    ));
}

#[test]
fn temporary_copy_names() {
    assert_eq!(
        temporary_destination("/dir/destino.txt", 7, 100, 1).unwrap(),
        "/dir/.destino.txt.rovex-tmp-7-101"
    );
    assert!(matches!(
        temporary_destination("/", 7, 100, 1),
        Err(OperationError::Validation(ValidationError::ParentMissing { .. }))
    ));
    assert!(matches!(
        temporary_exhausted("/dir/x"),
        OperationError::FileSystem { kind: IoErrorKind::AlreadyExists, raw_os_error: None, .. }
    ));
}

#[test]
fn cross_device_rename_is_recognised() {
    assert!(from_io("renomear", "/a", IoErrorKind::CrossesDevices, Some(18)).is_cross_device());
    assert!(!from_io("renomear", "/a", IoErrorKind::NotFound, Some(2)).is_cross_device());
    assert!(!OperationError::Cancelled.is_cross_device());
}

#[test]
fn destinations_are_checked_before_writing() {
    assert!(matches!(
        check_destination("", false),
        Err(OperationError::Validation(ValidationError::EmptyPath))
    ));
    assert!(matches!(
        check_destination("/", false),
        Err(OperationError::Validation(ValidationError::ParentMissing { .. }))
    ));
    assert!(matches!(
        check_destination("/tmp/a.txt", true),
        Err(OperationError::Validation(ValidationError::ExistingDestination { path })) if path == "/tmp/a.txt"
    ));
    assert!(check_destination("/tmp/a.txt", false).is_ok());
}
