use rovex_core::converters::discovery::{
    app_path_entries, home_packages_folder, push_winget_package_candidates, root_packages_folders,
    unquoted, AppPathRecord, PackageFolder, VersionFolder,
};

fn chars(s: &str) -> Vec<char> {
    s.chars().collect()
}

#[test]
fn quotes_come_off_in_pairs_only() {
    assert_eq!(unquoted(&chars("\"C:/ff/ffmpeg.exe\"")), chars("C:/ff/ffmpeg.exe"));
    assert_eq!(unquoted(&chars("\"\"")), chars(""));
    assert_eq!(unquoted(&chars("\"")), chars("\""));
    assert_eq!(unquoted(&chars("\"half")), chars("\"half"));
    assert_eq!(unquoted(&chars("plain")), chars("plain"));
}

#[test]
fn app_path_records_give_command_then_folders_without_repeats() {
    let record = AppPathRecord {
        command: Some("\"/opt/ff/ffmpeg.exe\"".to_owned()),
        search_path: vec!["/opt/x".to_owned()],
    };
    let repeated = AppPathRecord { command: Some("/opt/ff/ffmpeg.exe".to_owned()), search_path: vec![] };
    let bare = AppPathRecord { command: Some("/opt/y/ffmpeg".to_owned()), search_path: vec![] };
    let candidates = app_path_entries(&vec![record, repeated, AppPathRecord { command: None, search_path: vec![] }, bare], "ffmpeg");
    assert_eq!(
        candidates,
        [
            "/opt/ff/ffmpeg.exe",
            "/opt/ff/ffmpeg.exe/ffmpeg",
            "/opt/ff/ffmpeg.exe/ffmpeg.exe",
            "/opt/x/ffmpeg",
            "/opt/x/ffmpeg.exe",
            "/opt/y/ffmpeg",
            "/opt/y/ffmpeg.exe",
            "/opt/y/ffmpeg/ffmpeg",
            "/opt/y/ffmpeg/ffmpeg.exe",
        ]
    );
}

fn package(path: &str, is_directory: bool, versions: Vec<VersionFolder>) -> PackageFolder {
    PackageFolder {
        path: path.to_owned(),
        name: path.rsplit('/').next().unwrap().to_owned(),
        is_directory,
        versions,
    }
}

fn version(path: &str, is_directory: bool) -> VersionFolder {
    VersionFolder { path: path.to_owned(), is_directory }
}

#[test]
fn winget_packages_of_the_encoder_are_searched() {
    let packages = vec![
        package(
            "/w/Gyan.FFmpeg_x",
            true,
            vec![version("/w/Gyan.FFmpeg_x/v1", true), version("/w/Gyan.FFmpeg_x/readme", false)],
        ),
        package("/w/Other", true, vec![version("/w/Other/v1", true)]),
        package("/w/ffmpeg.txt", false, vec![]),
    ];
    let mut candidates = vec!["/w/Gyan.FFmpeg_x/ffmpeg".to_owned()];
    push_winget_package_candidates(&mut candidates, &packages, "ffmpeg");
    assert_eq!(
        candidates,
        [
            "/w/Gyan.FFmpeg_x/ffmpeg",
            "/w/Gyan.FFmpeg_x/ffmpeg.exe",
            "/w/Gyan.FFmpeg_x/v1/ffmpeg",
            "/w/Gyan.FFmpeg_x/v1/ffmpeg.exe",
            "/w/Gyan.FFmpeg_x/v1/bin/ffmpeg",
            "/w/Gyan.FFmpeg_x/v1/bin/ffmpeg.exe",
        ]
    );
}

#[test]
fn winget_search_stops_at_its_limits() {
    let mut packages: Vec<PackageFolder> =
        (0..64).map(|i| package(&format!("/w/p{i}"), true, vec![])).collect();
    packages.push(package("/w/FFMPEG", true, vec![]));
    let mut candidates = Vec::new();
    push_winget_package_candidates(&mut candidates, &packages, "ffmpeg");
    assert!(candidates.is_empty());

    let versions: Vec<VersionFolder> = (0..17).map(|i| version(&format!("/w/ffmpeg/v{i}"), true)).collect();
    let mut candidates = Vec::new();
    push_winget_package_candidates(&mut candidates, &vec![package("/w/ffmpeg", true, versions)], "ffmpeg");
    assert_eq!(candidates.len(), 2 + 16 * 4);
    assert!(candidates.iter().any(|c| c == "/w/ffmpeg/v15/bin/ffmpeg.exe"));
    assert!(!candidates.iter().any(|c| c.starts_with("/w/ffmpeg/v16")));
}

#[test]
fn winget_folders_under_home_and_roots() {
    assert_eq!(home_packages_folder("/home/u"), "/home/u/AppData/Local/Microsoft/WinGet/Packages");
    assert_eq!(root_packages_folders("/p"), ["/p/Microsoft/WinGet/Packages", "/p/WinGet/Packages"]);
}
