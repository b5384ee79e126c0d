use rovex_core::desktop::listing::{
    civil_date, format_size, format_timestamp, load_directory, property_lines, row_from_entry,
};
use rovex_core::filesystem::{DirectoryEntry, EntryKind, FileSystemError};

fn float_size(bytes: u64) -> String {
    const UNITS: [&str; 4] = ["B", "KB", "MB", "GB"];
    let mut value = bytes as f64;
    let mut unit = 0;
    while value >= 1024.0 && unit < UNITS.len() - 1 {
        value /= 1024.0;
        unit += 1;
    }
    if unit == 0 {
        format!("{bytes} {}", UNITS[unit])
    } else {
        format!("{value:.1} {}", UNITS[unit])
    }
}

#[test]
fn sizes_match_one_decimal_float_formatting() {
    let mut samples: Vec<u64> = vec![
        0, 1, 1023, 1024, 1075, 1126, 1280, 1331, 1536, 1048575, 1048576, 1101004, 1258291,
        1073741823, 1073741824, 1610612736, 5_000_000_000, 9_007_199_254_740_993,
        18_446_744_073_709_551_615, 18_446_744_073_709_551_000, 123_456_789_012_345_678,
    ];
    let mut x: u64 = 0x9e37_79b9_7f4a_7c15;
    for _ in 0..2000 {
        x ^= x << 13;
        x ^= x >> 7;
        x ^= x << 17;
        samples.push(x >> (x % 64));
    }
    for bytes in samples {
        assert_eq!(format_size(bytes), float_size(bytes), "bytes {bytes}");
    }
}

#[test]
fn timestamps_in_utc() {
    assert_eq!(format_timestamp(None), "—");
    assert_eq!(format_timestamp(Some(-1)), "—");
    assert_eq!(format_timestamp(Some(0)), "1970-01-01 00:00");
    assert_eq!(
        format_timestamp(Some(1_704_067_200_000_000_000 + 3_661_000_000_000)),
        "2024-01-01 01:01"
    );
    assert_eq!(format_timestamp(Some(951_782_400_000_000_000)), "2000-02-29 00:00");
    assert_eq!(civil_date(0), (1970, 1, 1));
    assert_eq!(civil_date(-1), (1969, 12, 31));
    assert_eq!(civil_date(19723), (2024, 1, 1));
    assert_eq!(civil_date(-719468), (0, 3, 1));
}

fn entry(path: &str, name: &str, kind: EntryKind, size: Option<u64>, hidden: bool) -> DirectoryEntry {
    DirectoryEntry {
        path: path.to_owned(),
        name: name.to_owned(),
        kind,
        size,
        modified: Some(0),
        created: None,
        accessed: None,
        is_hidden: hidden,
        is_system: false,
    }
}

#[test]
fn rows_from_entries() {
    let row = row_from_entry(&entry("/d/a.rs", "a.rs", EntryKind::File, Some(2048), false), 3);
    assert_eq!(row.key, "/d/a.rs#3");
    assert_eq!(row.icon, "Rs");
    assert_eq!(row.kind, "Arquivo");
    assert_eq!(row.details, "2.0 KB");
    let hidden = row_from_entry(&entry("/d/.cfg", ".cfg", EntryKind::Directory, None, true), 0);
    assert_eq!(hidden.kind, "Pasta oculta");
    assert_eq!(hidden.details, "—");
    assert!(hidden.is_directory);
    let lines = property_lines(&row);
    assert_eq!(lines.len(), 15);
    assert_eq!(lines[3], "Localização: /d");
    assert_eq!(lines[6], "Modificado: 1970-01-01 00:00");
    assert_eq!(lines[8], "Atributos: Normal");
    assert_eq!(lines[14], "Diretório: não");
}

#[test]
fn loading_reports_count_or_error() {
    let loaded = load_directory(
        "/d",
        Ok(vec![
            entry("/d/x", "x", EntryKind::File, Some(1), false),
            entry("/d/y", "y", EntryKind::Other, None, false),
        ]),
    );
    assert_eq!(loaded.rows.len(), 2);
    assert_eq!(loaded.status, "2 itens");
    assert!(!loaded.is_error);
    let failed = load_directory("/nada", Err(FileSystemError::NotFound { path: "/nada".to_owned() }));
    assert!(failed.rows.is_empty());
    assert!(failed.is_error);
    assert_eq!(
        failed.status,
        "Não foi possível listar a pasta: caminho não encontrado: /nada"
    );
}
