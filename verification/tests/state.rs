use rovex_core::desktop::listing::{format_size, parent_directory, row_icon};
use rovex_core::desktop::locations::{default_locations, location_candidates};
use rovex_core::desktop::navigation::{NavigationHistory, TabManager};
use rovex_core::desktop::rows::LoadedRow;
use rovex_core::desktop::selection::SelectionState;
use rovex_core::desktop::view::{empty_state_text, filter_rows, filter_status, validate_rename_name};
use rovex_core::filesystem::EntryKind;

fn check_selection() {
    let keys = vec![
        "a".to_owned(),
        "b".to_owned(),
        "c".to_owned(),
        "d".to_owned(),
    ];
    let mut selection = SelectionState::default();

    selection.click("b", &keys, false, false);
    assert_eq!(selection.count(), 1);
    assert!(selection.is_selected("b"));

    selection.click("d", &keys, true, false);
    assert_eq!(selection.count(), 2);
    assert!(selection.is_selected("b"));
    assert!(selection.is_selected("d"));

    selection.click("a", &keys, false, true);
    assert_eq!(selection.count(), 4);
    assert!(selection.is_selected("a"));
    assert!(selection.is_selected("b"));
    assert!(selection.is_selected("c"));
    assert!(selection.is_selected("d"));

    selection.select_all(keys.clone());
    assert_eq!(selection.count(), keys.len());
}

#[test]
fn state_selecao_ctrl_shift_e_ctrl_a_mantem_intervalos_reais() {
    check_selection();
}

#[test]
fn tests_selecao_ctrl_shift_e_ctrl_a_mantem_intervalos_reais() {
    check_selection();
}

fn check_rename() {
    assert!(validate_rename_name("").is_err());
    assert!(validate_rename_name("..").is_err());
    assert!(validate_rename_name("pasta/arquivo.txt").is_err());
    assert!(validate_rename_name("pasta\\arquivo.txt").is_err());
    assert_eq!(
        validate_rename_name(" relatório final.txt"),
        Ok("relatório final.txt".to_owned())
    );
}

#[test]
fn state_renomear_recusa_traversal_e_preserva_nome_unicode() {
    check_rename();
}

#[test]
fn tests_renomear_recusa_traversal_e_preserva_nome_unicode() {
    check_rename();
}

fn check_history() {
    let mut history = NavigationHistory::new("/inicio".to_owned());
    assert!(!history.can_go_back());
    assert!(!history.can_go_forward());

    assert!(history.visit("/projetos".to_owned()));
    assert!(history.can_go_back());
    assert_eq!(history.go_back(), Some("/inicio".to_owned()));
    assert!(history.can_go_forward());
    assert_eq!(history.go_forward(), Some("/projetos".to_owned()));

    assert!(history.visit("/documentos".to_owned()));
    assert!(!history.can_go_forward());
}

#[test]
fn state_historico_navega_para_tras_e_para_frente_e_limpa_futuro() {
    check_history();
}

#[test]
fn tests_historico_navega_para_tras_e_para_frente_e_limpa_futuro() {
    check_history();
}

fn check_tabs() {
    let mut tabs = TabManager::new("/inicio".to_owned());
    tabs.active_mut().visit("/projetos".to_owned());
    tabs.new_tab("/documentos".to_owned());
    assert_eq!(tabs.len(), 2);
    assert_eq!(tabs.active().current, "/documentos");
    assert!(tabs.select(0));
    assert_eq!(tabs.active().current, "/projetos");
    assert!(tabs.active().can_go_back());
    assert!(tabs.close(1));
    assert!(!tabs.close(0));
    assert_eq!(tabs.len(), 1);
}

#[test]
fn state_abas_preservam_historicos_independentes_e_nao_fecham_a_ultima() {
    check_tabs();
}

#[test]
fn tests_abas_preservam_historicos_independentes_e_nao_fecham_a_ultima() {
    check_tabs();
}

fn check_icons() {
    assert_eq!(row_icon("Fotos", EntryKind::Directory), ("▰", "Pasta", true));
    assert_eq!(row_icon("imagem.png", EntryKind::File), ("◉", "Arquivo", false));
    assert_eq!(row_icon("main.rs", EntryKind::File), ("Rs", "Arquivo", false));
    assert_eq!(
        row_icon("atalho", EntryKind::Symlink),
        ("↗", "Link simbólico", false)
    );
}

#[test]
fn state_icones_semanticos_diferenciam_pasta_arquivo_e_extensoes() {
    check_icons();
}

#[test]
fn tests_icones_semanticos_diferenciam_pasta_arquivo_e_extensoes() {
    check_icons();
}

fn check_default_locations() {
    let candidates = location_candidates(".", None);
    let probes: Vec<bool> = candidates
        .iter()
        .map(|location| std::path::Path::new(&location.path).is_dir())
        .collect();
    let locations = default_locations(&candidates, &probes);
    assert!(locations.iter().any(|location| location.path == "."));
    assert!(locations.iter().all(|location| !location.label.is_empty()));
    assert!(locations
        .iter()
        .all(|location| std::path::Path::new(&location.path).is_dir()));
}

#[test]
fn state_locais_padrao_so_incluem_diretorios_existentes() {
    check_default_locations();
}

#[test]
fn tests_locais_padrao_so_incluem_diretorios_existentes() {
    check_default_locations();
}

fn plain_row(key: &str, name: &str, kind: &str, icon: &str, details: &str, is_directory: bool) -> LoadedRow {
    LoadedRow {
        key: key.to_owned(),
        path: key.to_owned(),
        name: name.to_owned(),
        kind: kind.to_owned(),
        icon: icon.to_owned(),
        details: details.to_owned(),
        size: None,
        modified: None,
        created: None,
        accessed: None,
        is_directory,
    }
}

fn check_filter() {
    let rows = vec![
        plain_row("foto", "Foto.JPG", "Arquivo", "●", "4 KB", false),
        plain_row("projetos", "Projetos", "Pasta", "▰", "—", true),
    ];

    let filtered = filter_rows(&rows, "jpg");
    assert_eq!(filtered.len(), 1);
    assert_eq!(filtered[0].name, "Foto.JPG");
    assert_eq!(filter_rows(&rows, "   ").len(), 2);
    assert_eq!(filter_status(2, 1, "jpg"), "1 de 2 itens");
}

#[test]
fn state_filtro_localiza_nome_sem_varrer_subpastas() {
    check_filter();
}

#[test]
fn tests_filtro_localiza_nome_sem_varrer_subpastas() {
    check_filter();
}

fn check_empty_states() {
    assert_eq!(empty_state_text(0, 0, ""), "Esta pasta está vazia.");
    assert_eq!(
        empty_state_text(4, 0, "pdf"),
        "Nenhum item corresponde ao filtro."
    );
    assert_eq!(empty_state_text(4, 4, "pdf"), "");
}

#[test]
fn state_estados_vazios_diferenciam_pasta_e_filtro() {
    check_empty_states();
}

#[test]
fn tests_estados_vazios_diferenciam_pasta_e_filtro() {
    check_empty_states();
}

fn check_no_match_status() {
    let status = filter_status(4, 0, "pdf");
    assert_eq!(status, "Nenhum item corresponde a ‘pdf’ (4 itens na pasta)");
}

#[test]
fn state_filtro_sem_resultado_exibe_estado_vazio_controlado() {
    check_no_match_status();
}

#[test]
fn tests_filtro_sem_resultado_exibe_estado_vazio_controlado() {
    check_no_match_status();
}

fn check_sizes() {
    assert_eq!(format_size(0), "0 B");
    assert_eq!(format_size(1024), "1.0 KB");
    assert_eq!(format_size(1024 * 1024), "1.0 MB");
}

#[test]
fn state_formata_tamanho_sem_overflow_visual() {
    check_sizes();
}

#[test]
fn tests_formata_tamanho_sem_overflow_visual() {
    check_sizes();
}

fn check_parent() {
    assert_eq!(parent_directory("/tmp/rovex"), Some("/tmp".to_owned()));
    assert_eq!(parent_directory("/"), None);
}

#[test]
fn state_encontra_pasta_pai_sem_transformar_raiz_em_pasta_vazia() {
    check_parent();
}

#[test]
fn tests_encontra_pasta_pai_sem_transformar_raiz_em_pasta_vazia() {
    check_parent();
}
