use rovex_core::converters::types::ConversionKind;
use rovex_core::desktop::context_menu::conversion_offers;
use rovex_core::desktop::dialogs::{confirm_operation, conversion_dialog, create_directory_dialog, operation_dialog};
use rovex_core::desktop::file_rows::{file_rows, selection_updates};
use rovex_core::desktop::jobs::OperationKind;
use rovex_core::desktop::navigation::TabManager;
use rovex_core::desktop::navigator::{navigate, NavigationEvent};
use rovex_core::desktop::preview_panel::{image_status, is_current, preview_step, preview_title, step_status, text_status, PreviewStep};
use rovex_core::desktop::rows::LoadedRow;
use rovex_core::desktop::selection::SelectionState;

fn row(key: &str, path: &str, is_directory: bool) -> LoadedRow {
    LoadedRow {
        key: key.to_owned(),
        path: path.to_owned(),
        name: path.to_owned(),
        kind: if is_directory { "Pasta".to_owned() } else { "Arquivo".to_owned() },
        icon: String::new(),
        details: String::new(),
        size: None,
        modified: Some(0),
        created: None,
        accessed: None,
        is_directory,
    }
}

#[test]
fn navigation_commands_move_history_and_tabs() {
    let mut tabs = TabManager::new("/home/u".to_owned());
    let mut selection = SelectionState::default();
    let rows = vec![row("k1", "/home/u/docs", true), row("k2", "/home/u/a.txt", false)];
    assert_eq!(navigate(&mut tabs, &mut selection, &rows, NavigationEvent::Activate("k2".to_owned())), None);
    assert_eq!(
        navigate(&mut tabs, &mut selection, &rows, NavigationEvent::Activate("k1".to_owned())),
        Some("/home/u/docs".to_owned())
    );
    assert_eq!(navigate(&mut tabs, &mut selection, &rows, NavigationEvent::Up), Some("/home/u".to_owned()));
    assert_eq!(navigate(&mut tabs, &mut selection, &rows, NavigationEvent::Back), Some("/home/u/docs".to_owned()));
    assert_eq!(navigate(&mut tabs, &mut selection, &rows, NavigationEvent::Forward), Some("/home/u".to_owned()));
    assert_eq!(navigate(&mut tabs, &mut selection, &rows, NavigationEvent::Forward), None);
    selection.click("k1", &["k1".to_owned()], false, false);
    assert_eq!(navigate(&mut tabs, &mut selection, &rows, NavigationEvent::NewTab), Some("/home/u".to_owned()));
    assert_eq!(selection.count(), 0);
    assert_eq!(tabs.len(), 2);
    assert_eq!(navigate(&mut tabs, &mut selection, &rows, NavigationEvent::SelectTab(1)), None);
    assert_eq!(navigate(&mut tabs, &mut selection, &rows, NavigationEvent::CloseTab(1)), Some("/home/u".to_owned()));
    assert_eq!(navigate(&mut tabs, &mut selection, &rows, NavigationEvent::CloseTab(0)), None);
    assert_eq!(
        navigate(&mut tabs, &mut selection, &rows, NavigationEvent::NavigateTo("/".to_owned())),
        Some("/".to_owned())
    );
    assert_eq!(navigate(&mut tabs, &mut selection, &rows, NavigationEvent::Up), None);
    assert_eq!(navigate(&mut tabs, &mut selection, &rows, NavigationEvent::Refresh), Some("/".to_owned()));
}

#[test]
fn dialogs_ask_and_complete_batches() {
    let dialog = operation_dialog(OperationKind::Copy, vec!["/a".to_owned(), "/b".to_owned()], "/cur").unwrap();
    assert_eq!(dialog.title, "Copiar itens");
    assert_eq!(
        dialog.message,
        "Confirme a cópia de 2 item(ns). Informe um diretório de destino absoluto. Destinos existentes não serão sobrescritos."
    );
    assert!(dialog.needs_input);
    let confirmed = confirm_operation(dialog.request, "  /dest ").unwrap();
    assert_eq!(confirmed.destination_directory, Some("/dest".to_owned()));
    let rename = operation_dialog(OperationKind::Rename, vec!["/a/x.txt".to_owned()], "/a").unwrap();
    assert_eq!(rename.input, "x.txt");
    let (message, back) = confirm_operation(rename.request, "../y").unwrap_err();
    assert_eq!(message, "o novo nome deve ser um único nome de arquivo");
    assert_eq!(back.kind, OperationKind::Rename);
    assert!(operation_dialog(OperationKind::Delete, Vec::new(), "/").is_none());
    let folder = create_directory_dialog("/base");
    let created = confirm_operation(folder.request, " nova ").unwrap();
    assert_eq!(created.sources, vec!["/base/nova".to_owned()]);
    let (message, request) = conversion_dialog(ConversionKind::Flac, vec!["/a.wav".to_owned()], "/").unwrap();
    assert_eq!(
        message,
        "Confirme a conversão de 1 item(ns) para FLAC. A saída será criada no mesmo diretório e nunca sobrescreverá um arquivo existente."
    );
    assert_eq!(request.kind, ConversionKind::Flac);
}

#[test]
fn preview_panel_steps_and_texts() {
    assert!(matches!(preview_step(None, true), PreviewStep::Hide));
    let step = preview_step(Some(("/p".to_owned(), "p".to_owned(), true)), true);
    assert_eq!(step_status(&step), "Pastas não possuem prévia de imagem.");
    let step = preview_step(Some(("/f.png".to_owned(), "f.png".to_owned(), false)), false);
    assert_eq!(step_status(&step), "Pré-visualização indisponível.");
    assert!(matches!(
        preview_step(Some(("/f.png".to_owned(), "f.png".to_owned(), false)), true),
        PreviewStep::Request { .. }
    ));
    assert!(is_current(3, 3));
    assert!(!is_current(4, 3));
    assert_eq!(preview_title("/x/y.png", "Prévia"), "y.png");
    assert_eq!(preview_title("/", "Prévia"), "Prévia");
    assert_eq!(image_status("PNG", 8, 6), "PNG • 8×6");
    assert_eq!(text_status("UTF-8", 10, true), "UTF-8 • 10 bytes • truncado");
}

#[test]
fn context_menu_offers_conversions_for_files_only() {
    let offers = conversion_offers("Arquivo", "foto.PNG");
    assert!(offers.jxl && offers.png && !offers.opus && !offers.flac);
    let folder = conversion_offers("Pasta", "musica.wav");
    assert!(!folder.opus && !folder.flac);
}

#[test]
fn widget_rows_carry_selection_and_times() {
    let rows = vec![row("a", "/a", false), row("b", "/b", true)];
    let mut selection = SelectionState::default();
    selection.click("b", &["a".to_owned(), "b".to_owned()], false, false);
    let shown = file_rows(&rows, &selection);
    assert!(!shown[0].selected);
    assert!(shown[1].selected);
    assert_eq!(shown[0].modified, "1970-01-01 00:00");
    assert_eq!(shown[0].created, "—");
    selection.click("a", &["a".to_owned(), "b".to_owned()], false, false);
    assert_eq!(selection_updates(&shown, &selection), vec![(0, true), (1, false)]);
}
