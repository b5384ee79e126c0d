use rovex_core::desktop::dragdrop::{drop_copy_message, drop_copy_request, external_file_path};
use rovex_core::desktop::jobs::OperationKind;

#[test]
fn rejects_relative_drop_path() {
    let error = external_file_path("arquivo.txt", Ok(true)).expect_err("relative path must be rejected");
    assert!(error.contains("absolutos"));
}

#[test]
fn accepts_trimmed_absolute_regular_file() {
    assert_eq!(external_file_path("  /tmp/a.txt\n", Ok(true)), Ok("/tmp/a.txt".to_owned()));
    assert_eq!(
        external_file_path("/tmp/pasta", Ok(false)),
        Err("O drop de pastas ainda não está disponível; solte um arquivo.".to_owned())
    );
    assert_eq!(
        external_file_path("/tmp/ausente", Err("o caminho não existe".to_owned())),
        Err("o caminho não existe".to_owned())
    );
    assert_eq!(external_file_path("   ", Ok(true)), Err("O drop não contém um caminho.".to_owned()));
}

#[test]
fn drop_starts_copy_into_current_folder() {
    let request = drop_copy_request("/tmp/a.txt", "/home/u", Some((false, true))).unwrap();
    assert_eq!(request.kind, OperationKind::Copy);
    assert_eq!(request.sources, vec!["/tmp/a.txt".to_owned()]);
    assert_eq!(request.destination_directory, Some("/home/u".to_owned()));
    assert_eq!(request.refresh_path, "/home/u");
    assert_eq!(
        drop_copy_request("/tmp/a.txt", "/home/u", Some((true, true))).unwrap_err(),
        "A pasta atual não é um diretório seguro."
    );
    assert_eq!(
        drop_copy_request("/tmp/a.txt", "rel", Some((false, true))).unwrap_err(),
        "A pasta atual não é um caminho absoluto."
    );
    assert_eq!(
        drop_copy_request("/tmp/a.txt", "/gone", None).unwrap_err(),
        "A pasta atual não está disponível."
    );
    assert_eq!(drop_copy_message("/tmp/a.txt"), "Copiando /tmp/a.txt para a pasta atual…");
}
