use bulletforcehax::version::{
    collect_version, join, on_report, DownloadAction, DownloadedFile, DownloadedNames, VersionConfig, VersionError,
    VersionFiles,
};
use bulletforcehax::version_scraper::{file_name_of_url, find_game_files, FileType, OptionsField, ProgressReport, ScrapeError};

const PAGE: &str = "<html>\n<script>\nvar options = {\"loaderOptions\": {\"unityLoaderUrl\": \"https://cdn.example.com/a/loader.js\", \"unityConfigOptions\": {\"codeUrl\": \"https://cdn.example.com/b/game.wasm\", \"dataUrl\": \"https://cdn.example.com/b/game.data\", \"frameworkUrl\": \"framework.js\"}}};\n</script>\n</html>";

#[test]
fn file_names_are_the_last_segment() {
    assert_eq!(file_name_of_url("https://cdn.example.com/a/loader.js"), "loader.js");
    assert_eq!(file_name_of_url("loader.js"), "loader.js");
    assert_eq!(file_name_of_url("https://cdn.example.com/dir/"), "");
    assert_eq!(file_name_of_url(""), "");
}

#[test]
fn finds_the_four_game_files() {
    let files = find_game_files(PAGE).unwrap().unwrap();
    assert_eq!(files.len(), 4);
    assert_eq!(files[0].url, "https://cdn.example.com/a/loader.js");
    assert_eq!(files[0].name, "loader.js");
    assert_eq!(files[0].file_type, FileType::UnityLoader);
    assert_eq!(files[1].name, "game.wasm");
    assert_eq!(files[1].file_type, FileType::Code);
    assert_eq!(files[2].name, "game.data");
    assert_eq!(files[2].file_type, FileType::Data);
    assert_eq!(files[3].url, "framework.js");
    assert_eq!(files[3].name, "framework.js");
    assert_eq!(files[3].file_type, FileType::Framework);
}

#[test]
fn scrape_errors() {
    assert_eq!(find_game_files("<html></html>").unwrap().unwrap_err(), ScrapeError::NoOptionsLine);
    assert_eq!(find_game_files("var options = {nope};").unwrap().unwrap_err(), ScrapeError::InvalidJson);
    assert_eq!(
        find_game_files("var options = {\"loaderOptions\": 3};").unwrap().unwrap_err(),
        ScrapeError::NotAnObject(OptionsField::LoaderOptions)
    );
    assert_eq!(
        find_game_files("var options = {\"loaderOptions\": {\"unityConfigOptions\": 1}};").unwrap().unwrap_err(),
        ScrapeError::NotAnObject(OptionsField::UnityConfigOptions)
    );
    let page = "var options = {\"loaderOptions\": {\"unityLoaderUrl\": 5, \"unityConfigOptions\": {}}};";
    assert_eq!(find_game_files(page).unwrap().unwrap_err(), ScrapeError::NotAString(OptionsField::UnityLoaderUrl));
}

#[test]
fn absent_directly_indexed_fields_are_reported() {
    // these fields are read by direct indexing, which does not survive their absence
    assert!(find_game_files("var options = {\"loaderOptions\": {}};").is_none());
    let page = "var options = {\"loaderOptions\": {\"unityLoaderUrl\": \"x\", \"unityConfigOptions\": {\"codeUrl\": \"y\"}}};";
    assert!(find_game_files(page).is_none());
}

fn file(t: FileType, name: &str) -> DownloadedFile {
    DownloadedFile { file_type: t, name: name.to_string(), data: vec![1] }
}

#[test]
fn collects_the_last_file_of_each_role() {
    let files = vec![
        file(FileType::Code, "old.wasm"),
        file(FileType::UnityLoader, "loader.js"),
        file(FileType::Data, "game.data"),
        file(FileType::Framework, "framework.js"),
        file(FileType::Code, "game.wasm"),
    ];
    let v = collect_version(&files).unwrap();
    assert_eq!(v.unity_loader, "loader.js");
    assert_eq!(v.code, "game.wasm");
    assert_eq!(v.data, "game.data");
    assert_eq!(v.framework, "framework.js");
}

#[test]
fn reports_the_first_missing_role() {
    let files = vec![file(FileType::Framework, "framework.js")];
    assert_eq!(collect_version(&files).unwrap_err(), VersionError::MissingFile(FileType::UnityLoader));
    let files = vec![file(FileType::UnityLoader, "l"), file(FileType::Framework, "f")];
    assert_eq!(collect_version(&files).unwrap_err(), VersionError::MissingFile(FileType::Code));
    let files = vec![file(FileType::UnityLoader, "l"), file(FileType::Code, "c"), file(FileType::Framework, "f")];
    assert_eq!(collect_version(&files).unwrap_err(), VersionError::MissingFile(FileType::Data));
    let files = vec![file(FileType::UnityLoader, "l"), file(FileType::Code, "c"), file(FileType::Data, "d")];
    assert_eq!(collect_version(&files).unwrap_err(), VersionError::MissingFile(FileType::Framework));
    assert_eq!(collect_version(&vec![]).unwrap_err(), VersionError::MissingFile(FileType::UnityLoader));
}

#[test]
fn reports_drive_the_download() {
    let mut names = DownloadedNames::new();
    let a = on_report(&mut names, ProgressReport::Progress { file_type: FileType::Code, name: "c".to_string(), downloaded: 0, total: None });
    assert!(matches!(a, DownloadAction::Continue));
    let a = on_report(&mut names, ProgressReport::FileDownloaded { file_type: FileType::Code, name: "c".to_string(), data: vec![7, 8] });
    match a {
        DownloadAction::Store { name, data } => {
            assert_eq!(name, "c");
            assert_eq!(data, vec![7, 8]);
        },
        _ => panic!("expected a store"),
    }
    assert_eq!(names.code.as_deref(), Some("c"));
    assert!(matches!(on_report(&mut names, ProgressReport::AllFilesDownloaded), DownloadAction::Finish));
    match on_report(&mut names, ProgressReport::Crashed("boom".to_string())) {
        DownloadAction::Abort(m) => assert_eq!(m, "boom"),
        _ => panic!("expected an abort"),
    }
    assert_eq!(names.finish().unwrap_err(), VersionError::MissingFile(FileType::UnityLoader));
}

#[test]
fn paths_are_joined() {
    assert_eq!(join("bfhax_data/game_files", "loader.js"), "bfhax_data/game_files/loader.js");
    assert_eq!(join("dir/", "a"), "dir/a");
    assert_eq!(join("", "a"), "a");
    assert_eq!(join("dir", "/abs"), "/abs");
    let files = VersionFiles {
        unity_loader: "l.js".to_string(),
        code: "c.wasm".to_string(),
        data: "d.data".to_string(),
        framework: "f.js".to_string(),
    };
    let c = VersionConfig::new("base".to_string(), files);
    assert_eq!(c.get_unity_loader(), "base/l.js");
    assert_eq!(c.get_code(), "base/c.wasm");
    assert_eq!(c.get_data(), "base/d.data");
    assert_eq!(c.get_framework(), "base/f.js");
    assert_eq!(c.get_path("version.json"), "base/version.json");
    assert_eq!(c.path_of(FileType::Data), "base/d.data");
}
