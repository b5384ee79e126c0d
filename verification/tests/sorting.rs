use rovex_core::desktop::rows::LoadedRow;
use rovex_core::desktop::sorting::{sort_rows, SortDirection, SortField, SortSpec};

fn row(key: &str, name: &str, is_directory: bool, size: Option<u64>, modified: i128) -> LoadedRow {
    let time = Some(modified * 1_000_000_000);
    LoadedRow {
        key: key.to_owned(),
        path: key.to_owned(),
        name: name.to_owned(),
        kind: if is_directory {
            "Pasta".to_owned()
        } else {
            "Arquivo".to_owned()
        },
        icon: String::new(),
        details: String::new(),
        size,
        modified: time,
        created: time,
        accessed: time,
        is_directory,
    }
}

#[test]
fn toggle_muda_direcao_so_na_mesma_coluna() {
    let default = SortSpec::default();
    assert_eq!(default.field, SortField::Name);
    assert_eq!(default.direction, SortDirection::Ascending);
    assert_eq!(
        default.toggle_column(SortField::Name.column()).direction,
        SortDirection::Descending
    );
    assert_eq!(
        default.toggle_column(SortField::Size.column()).direction,
        SortDirection::Ascending
    );
}

#[test]
fn ordena_diretorios_antes_e_aplica_tamanho_com_desempate() {
    let mut rows = vec![
        row("file-large", "a.txt", false, Some(20), 1),
        row("dir-z", "zeta", true, None, 1),
        row("file-small", "b.txt", false, Some(2), 1),
        row("dir-a", "alpha", true, None, 1),
    ];
    sort_rows(
        &mut rows,
        SortSpec {
            field: SortField::Size,
            direction: SortDirection::Ascending,
        },
    );
    assert_eq!(
        rows.iter().map(|row| row.name.as_str()).collect::<Vec<_>>(),
        ["alpha", "zeta", "b.txt", "a.txt"]
    );
}

#[test]
fn ordena_data_descendente_com_desempate_por_nome() {
    let mut rows = vec![
        row("old", "zeta.txt", false, Some(1), 10),
        row("new", "alpha.txt", false, Some(1), 20),
        row("same-a", "alpha-2.txt", false, Some(1), 20),
    ];
    sort_rows(
        &mut rows,
        SortSpec {
            field: SortField::Modified,
            direction: SortDirection::Descending,
        },
    );
    assert_eq!(rows[0].name, "alpha-2.txt");
    assert_eq!(rows[1].name, "alpha.txt");
    assert_eq!(rows[2].name, "zeta.txt");
}
