use rovex_core::clipboard::{decode_payload, encode_payload, ClipboardAction, ClipboardError, ClipboardPayload};

#[test]
fn serializa_e_restaura_payload_de_copy() {
    let payload = ClipboardPayload {
        action: ClipboardAction::Copy,
        paths: vec![
            "/tmp/relatório.txt".to_owned(),
            "/tmp/pasta com espaços".to_owned(),
        ],
    };
    let encoded = encode_payload(&payload).expect("payload deve ser serializado");
    assert_eq!(decode_payload(&encoded), Ok(payload));
}

#[test]
fn rejeita_clipboard_externo_ou_payload_vazio() {
    assert_eq!(
        decode_payload("texto comum"),
        Err(ClipboardError::UnsupportedContents)
    );
    assert_eq!(
        encode_payload(&ClipboardPayload {
            action: ClipboardAction::Cut,
            paths: Vec::new(),
        }),
        Err(ClipboardError::EmptySelection)
    );
}

#[test]
fn payload_text_has_header_action_and_one_path_per_line() {
    let payload = ClipboardPayload {
        action: ClipboardAction::Cut,
        paths: vec!["/a".to_owned(), "/b c".to_owned()],
    };
    assert_eq!(
        encode_payload(&payload),
        Ok("ROVEX_CLIPBOARD_V1\ncut\n/a\n/b c\n".to_owned())
    );
}

#[test]
fn round_trip_keeps_cut_action_and_order() {
    let payload = ClipboardPayload {
        action: ClipboardAction::Cut,
        paths: vec!["/z".to_owned(), "/a".to_owned(), "relativo".to_owned()],
    };
    let encoded = encode_payload(&payload).unwrap();
    assert_eq!(decode_payload(&encoded), Ok(payload));
}

#[test]
fn round_trip_drops_a_final_carriage_return() {
    let payload = ClipboardPayload {
        action: ClipboardAction::Copy,
        paths: vec!["/a\r".to_owned()],
    };
    let encoded = encode_payload(&payload).unwrap();
    let decoded = decode_payload(&encoded).unwrap();
    assert_eq!(decoded.paths, vec!["/a".to_owned()]);
}

#[test]
fn refuses_paths_that_cannot_travel() {
    for paths in [vec!["".to_owned()], vec!["/a".to_owned(), "b\nc".to_owned()]] {
        assert_eq!(
            encode_payload(&ClipboardPayload {
                action: ClipboardAction::Copy,
                paths,
            }),
            Err(ClipboardError::InvalidPayload)
        );
    }
}

#[test]
fn refuses_unknown_action_and_missing_paths() {
    assert_eq!(
        decode_payload("ROVEX_CLIPBOARD_V1\nmove\n/a\n"),
        Err(ClipboardError::InvalidPayload)
    );
    assert_eq!(
        decode_payload("ROVEX_CLIPBOARD_V1\ncopy\n\n\n"),
        Err(ClipboardError::InvalidPayload)
    );
    assert_eq!(
        decode_payload("ROVEX_CLIPBOARD_V1"),
        Err(ClipboardError::InvalidPayload)
    );
    assert_eq!(decode_payload(""), Err(ClipboardError::UnsupportedContents));
}

#[test]
fn decodes_windows_line_endings_and_skips_blank_lines() {
    let decoded = decode_payload("ROVEX_CLIPBOARD_V1\r\ncopy\r\n/a\r\n\r\n/b\r\n").unwrap();
    assert_eq!(decoded.action, ClipboardAction::Copy);
    assert_eq!(decoded.paths, vec!["/a".to_owned(), "/b".to_owned()]);
}

#[test]
fn clipboard_messages() {
    assert_eq!(
        ClipboardError::EmptySelection.message(),
        "nenhum item selecionado para copiar"
    );
    assert_eq!(
        ClipboardError::Backend("x".to_owned()).message(),
        "não foi possível acessar o clipboard: x"
    );
    assert_eq!(ClipboardAction::parse("cut"), Some(ClipboardAction::Cut));
    assert_eq!(ClipboardAction::Copy.as_str(), "copy");
}

#[test]
fn a_final_bare_carriage_return_stays_in_its_line() {
    let decoded = decode_payload("ROVEX_CLIPBOARD_V1\ncopy\n/a\r").unwrap();
    assert_eq!(decoded.paths, vec!["/a\r".to_owned()]);
    assert_eq!(decode_payload("ROVEX_CLIPBOARD_V1\r"), Err(ClipboardError::UnsupportedContents));
}
