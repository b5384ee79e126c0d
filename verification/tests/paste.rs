use rovex_core::clipboard::{ClipboardAction, ClipboardPayload};
use rovex_core::desktop::jobs::OperationKind;
use rovex_core::desktop::paste::{clipboard_status, paste_message, paste_request};

#[test]
fn clipboard_status_names_action_and_count() {
    assert_eq!(clipboard_status(ClipboardAction::Copy, 2), "2 item(ns) copiados para o clipboard");
    assert_eq!(clipboard_status(ClipboardAction::Cut, 1), "1 item(ns) recortados para o clipboard");
}

#[test]
fn paste_copies_or_moves_into_current_folder() {
    let request = paste_request(
        ClipboardPayload {
            action: ClipboardAction::Cut,
            paths: vec!["/a".to_owned(), "/b".to_owned()],
        },
        "/dest",
    );
    assert_eq!(request.kind, OperationKind::Move);
    assert_eq!(request.sources, vec!["/a".to_owned(), "/b".to_owned()]);
    assert_eq!(request.destination_directory, Some("/dest".to_owned()));
    assert_eq!(request.refresh_path, "/dest");
    let copy = paste_request(
        ClipboardPayload {
            action: ClipboardAction::Copy,
            paths: vec!["/a".to_owned()],
        },
        "/d",
    );
    assert_eq!(copy.kind, OperationKind::Copy);
    assert_eq!(paste_message(2), "Colando 2 item(ns) nesta pasta.");
}
