use rovex_core::desktop::jobs::NextItem;
use rovex_core::desktop::search::{search_cancel, search_event_applies, search_start, SearchStart};
use rovex_core::converters::types::{ConversionError, ConversionKind, ConversionStage};
use rovex_core::desktop::jobs::{
    after_move_copy, after_move_rename, item_progress, operation_destination, operation_label,
    plan_item, stage_progress, ConversionOutcome, ConversionRequest, ConversionRun, ItemPlan,
    MoveCopyStep, MoveStep, OperationKind, OperationOutcome, OperationRequest, OperationRun,
    RecordStep,
};
use rovex_core::filesystem::IoErrorKind;
use rovex_core::operations::{from_io, OperationError};

fn request(kind: OperationKind, sources: &[&str]) -> OperationRequest {
    OperationRequest {
        kind,
        sources: sources.iter().map(|s| s.to_string()).collect(),
        destination_directory: Some("/dest".to_owned()),
        rename_name: None,
        refresh_path: "/dest".to_owned(),
    }
}

#[test]
fn items_are_planned_per_operation() {
    let copy = request(OperationKind::Copy, &["/a/x.txt"]);
    assert!(matches!(plan_item(&copy, "/a/x.txt"), ItemPlan::Copy { destination } if destination == "/dest/x.txt"));
    assert!(matches!(
        plan_item(&copy, "/"),
        ItemPlan::Fail(OperationError::Validation(_))
    ));
    let mut rename = request(OperationKind::Rename, &["/a/x.txt"]);
    assert!(matches!(plan_item(&rename, "/a/x.txt"), ItemPlan::Abort(m) if m == "x.txt: novo nome ausente"));
    rename.rename_name = Some("y.txt".to_owned());
    assert!(matches!(plan_item(&rename, "/a/x.txt"), ItemPlan::Rename { target } if target == "/a/y.txt"));
    assert!(matches!(plan_item(&request(OperationKind::Delete, &[]), "/a"), ItemPlan::Delete));
    let mut nowhere = request(OperationKind::Move, &["/a/x"]);
    nowhere.destination_directory = None;
    assert!(operation_destination(&nowhere, "/a/x").is_err());
}

#[test]
fn moves_across_devices_copy_then_delete() {
    assert!(matches!(
        after_move_rename(Err(from_io("renomear", "/a", IoErrorKind::CrossesDevices, Some(18)))),
        MoveStep::CopyInstead
    ));
    assert!(matches!(after_move_rename(Ok(())), MoveStep::Done(Ok(()))));
    assert!(matches!(after_move_copy("x", Ok(()), false), MoveCopyStep::DeleteSource));
    assert!(matches!(
        after_move_copy("x", Ok(()), true),
        MoveCopyStep::EndCancelled(m) if m == "x: cópia concluída, origem preservada porque o cancelamento foi solicitado"
    ));
}

#[test]
fn runs_count_and_summarise() {
    let req = request(OperationKind::Copy, &["/a", "/b", "/c"]);
    let mut run = OperationRun::new(&req);
    assert!(matches!(run.record(0, "a", Ok(())), RecordStep::Progress(u) if u.completed_items == 1 && u.total_items == 3));
    assert!(matches!(
        run.record(1, "b", Err(OperationError::DirectoryNotEmpty { path: "/b".to_owned() })),
        RecordStep::Failed
    ));
    assert!(matches!(run.record(2, "c", Err(OperationError::Cancelled)), RecordStep::Cancelled));
    let outcome = run.finish(false);
    assert_eq!(outcome.completed, 1);
    assert_eq!(outcome.failed, vec!["b: o diretório não está vazio: /b".to_owned()]);
    assert_eq!(
        outcome.message(),
        "cópia concluída parcialmente: 1 item(ns) concluído(s), 1 falha(s).\nb: o diretório não está vazio: /b"
    );
    assert_eq!(outcome.status(), "Operação concluída parcialmente; verifique o resultado.");
}

#[test]
fn summaries_show_at_most_three_failures() {
    let outcome = OperationOutcome {
        kind: OperationKind::Delete,
        completed: 0,
        failed: (1..=5).map(|i| format!("f{i}")).collect(),
        cancelled: true,
    };
    assert_eq!(
        outcome.message(),
        "Operação cancelada: 0 item(ns) concluído(s), 5 falha(s).\nf1\nf2\nf3\n… e mais 2 falha(s)."
    );
    assert_eq!(outcome.status(), "Operação cancelada; a pasta será atualizada.");
    let done = OperationOutcome {
        kind: OperationKind::Move,
        completed: 2,
        failed: Vec::new(),
        cancelled: false,
    };
    assert_eq!(done.message(), "movimentação concluída: 2 item(ns).");
}

#[test]
fn conversion_runs() {
    let req = ConversionRequest {
        kind: ConversionKind::Opus,
        sources: vec!["/a.wav".to_owned()],
        refresh_path: "/".to_owned(),
    };
    let mut run = ConversionRun::new(&req);
    assert!(matches!(
        run.record(0, "a.wav", Err(ConversionError::OutputExists { path: "/a.opus".to_owned() })),
        RecordStep::Failed
    ));
    let outcome = run.finish(false);
    assert_eq!(
        outcome.message(),
        "Conversão para Opus concluída parcialmente: 0 item(ns) concluído(s), 1 falha(s).\na.wav: o arquivo de saída já existe: /a.opus"
    );
    let ok = ConversionOutcome {
        kind: ConversionKind::Png,
        completed: 1,
        failed: Vec::new(),
        cancelled: false,
    };
    assert_eq!(ok.message(), "Conversão para PNG concluída: 1 item(ns).");
    assert_eq!(ok.status(), "Conversão concluída; a pasta será atualizada.");
}

#[test]
fn progress_updates_and_labels() {
    let update = item_progress(2, 5, "x", 10, 20);
    assert_eq!(update.completed_items, 2);
    assert_eq!(update.current_bytes, 10);
    assert_eq!(update.explicit_percent, None);
    assert_eq!(stage_progress(0, 1, "y", ConversionStage::Validating).explicit_percent, Some(85));
    assert_eq!(operation_label("/a/b.txt"), "b.txt");
    assert_eq!(operation_label("/"), "/");
}

#[test]
fn batches_stop_when_asked_or_when_every_item_is_counted() {
    let request = OperationRequest {
        kind: OperationKind::Delete,
        sources: vec!["/a".to_owned(), "/b".to_owned()],
        destination_directory: None,
        rename_name: None,
        refresh_path: "/".to_owned(),
    };
    let mut run = OperationRun::new(&request);
    assert_eq!(run.next_item(false), NextItem::Run(0));
    assert_eq!(run.next_item(true), NextItem::Stop { cancelled: true });
    run.record(0, "a", Ok(()));
    assert_eq!(run.next_item(false), NextItem::Run(1));
    run.record(1, "b", Err(rovex_core::operations::OperationError::Validation(
        rovex_core::operations::ValidationError::EmptyPath,
    )));
    assert_eq!(run.next_item(false), NextItem::Stop { cancelled: false });
    let outcome = run.finish(false);
    assert_eq!(outcome.completed + outcome.failed.len(), 2);
}

#[test]
fn searches_start_only_with_a_name_and_ignore_stale_events() {
    assert!(matches!(
        search_start("   ", 4, true),
        SearchStart::Refused { status } if status == "Informe um nome para pesquisar nas subpastas."
    ));
    assert!(matches!(
        search_start("foto", 4, false),
        SearchStart::Unavailable { generation: 5, status } if status == "Pesquisa indisponível."
    ));
    assert!(matches!(
        search_start(" foto ", 4, true),
        SearchStart::Started { generation: 5, status } if status == "Pesquisando nas subpastas…"
    ));
    assert!(search_event_applies(5, 5, 5));
    assert!(!search_event_applies(6, 5, 5));
    assert!(!search_event_applies(5, 5, 4));
    assert_eq!(search_cancel(5), (6, "Pesquisa cancelada.".to_owned()));
}

#[test]
fn a_batch_cancelled_on_entry_counts_nothing() {
    let request = ConversionRequest {
        kind: ConversionKind::Png,
        sources: vec!["/a.jpg".to_owned(), "/b.jpg".to_owned()],
        refresh_path: "/".to_owned(),
    };
    let run = ConversionRun::new(&request);
    assert_eq!(run.next_item(true), NextItem::Stop { cancelled: true });
    let outcome = run.finish(true);
    assert_eq!(outcome.completed, 0);
    assert!(outcome.failed.is_empty());
    assert!(outcome.cancelled);
}
