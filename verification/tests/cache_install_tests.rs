use themestore::cache::{cache_path, ensure_step, parent_dir, EnsureAction};
use themestore::catalog::Catalog;
use themestore::dates::get_formatted_date;
use themestore::error::StoreError;
use themestore::install::{
    detect_format, download_path, extract_command, extraction_result, install_dir_suffix,
    install_download_step, install_target_dir, ArchiveFormat,
};
use themestore::product::DownloadDetail;

#[test]
fn cache_path_mirrors_url_path_under_root() {
    assert_eq!(cache_path("http://x/a.png"), "/tmp/themeinstaller/cache/a.png");
    assert_eq!(
        cache_path("https://cdn.pling.com/img/0/0/123/foo.jpg"),
        "/tmp/themeinstaller/cache/img/0/0/123/foo.jpg"
    );
}

#[test]
fn cache_path_without_scheme_is_taken_as_path() {
    assert_eq!(cache_path("img/foo.jpg"), "/tmp/themeinstaller/cache/img/foo.jpg");
    assert_eq!(cache_path("/img/foo.jpg"), "/tmp/themeinstaller/cache/img/foo.jpg");
}

#[test]
fn cache_path_without_path_component_is_bare_root() {
    assert_eq!(cache_path("https://cdn.pling.com"), "/tmp/themeinstaller/cache/");
}

#[test]
fn cache_path_called_twice_resolves_identically() {
    let url = "https://cdn.pling.com/img/a.png";
    assert_eq!(cache_path(url), cache_path(url));
}

#[test]
fn ensure_fetches_only_when_absent() {
    let url = "https://cdn.pling.com/img/a.png";
    let (p1, first) = ensure_step(url, false);
    assert_eq!(first, EnsureAction::Download);
    // after the first call completed, the file is present
    let (p2, second) = ensure_step(url, true);
    assert_eq!(second, EnsureAction::UseCached);
    assert_eq!(p1, p2);
}

#[test]
fn parent_dir_takes_everything_before_last_slash() {
    assert_eq!(parent_dir("/a/b/c.png"), Some(String::from("/a/b")));
    assert_eq!(parent_dir("c.png"), None);
    assert_eq!(parent_dir("/c.png"), Some(String::from("")));
}

#[test]
fn zip_dispatches_to_zip_extractor() {
    assert_eq!(detect_format("theme.zip"), Ok(ArchiveFormat::Zip));
}

#[test]
fn tar_gz_dispatches_to_tar_extractor() {
    assert_eq!(detect_format("theme.tar.gz"), Ok(ArchiveFormat::Tar));
    assert_eq!(detect_format("theme.tar"), Ok(ArchiveFormat::Tar));
    assert_eq!(detect_format("theme.tar.xz"), Ok(ArchiveFormat::Tar));
    assert_eq!(detect_format("theme.7z"), Ok(ArchiveFormat::SevenZ));
}

#[test]
fn rar_is_unsupported() {
    match detect_format("theme.rar") {
        Err(StoreError::UnsupportedFormat(m)) => {
            assert_eq!(m, "unsupported file type: theme.rar");
        }
        other => panic!("expected an unsupported-format error, got {:?}", other),
    }
}

#[test]
fn install_dirs_cover_all_five_categories() {
    assert_eq!(install_dir_suffix(&Catalog::FullIconThemes), ".local/share/icons");
    assert_eq!(install_dir_suffix(&Catalog::Cursors), ".local/share/icons");
    assert_eq!(install_dir_suffix(&Catalog::Gtk4Themes), ".local/share/themes");
    assert_eq!(install_dir_suffix(&Catalog::GnomeShellThemes), ".local/share/themes");
    assert_eq!(
        install_dir_suffix(&Catalog::KDEThemes),
        ".local/share/plasma/desktoptheme"
    );
}

#[test]
fn install_target_dir_joins_home() {
    assert_eq!(
        install_target_dir("/home/u", &Catalog::KDEThemes),
        "/home/u/.local/share/plasma/desktoptheme"
    );
}

#[test]
fn install_downloads_only_when_archive_absent() {
    let d = DownloadDetail {
        downloadlink: String::from("http://x/a.tar"),
        downloadname: String::from("A.tar"),
        downloadsize: 1,
    };
    let (p1, first) = install_download_step(&d, &Catalog::Cursors, false);
    assert_eq!(first, EnsureAction::Download);
    // after the first install downloaded the archive, it is present
    let (p2, second) = install_download_step(&d, &Catalog::Cursors, true);
    assert_eq!(second, EnsureAction::UseCached);
    assert_eq!(p1, p2);
    assert_eq!(p1, "/tmp/themedownloadfiles/Cursor Themes/A.tar");
}

#[test]
fn download_path_uses_category_label_and_variant_name() {
    let d = DownloadDetail {
        downloadlink: String::from("http://x/a.tar"),
        downloadname: String::from("A.tar"),
        downloadsize: 1,
    };
    assert_eq!(
        download_path(&d, &Catalog::Gtk4Themes),
        "/tmp/themedownloadfiles/Gtk Themes/A.tar"
    );
}

#[test]
fn extract_commands_match_the_tools() {
    assert_eq!(
        extract_command(ArchiveFormat::Tar, "/a/t.tar", "/dest"),
        vec!["tar", "-xf", "/a/t.tar", "-C", "/dest"]
    );
    assert_eq!(
        extract_command(ArchiveFormat::SevenZ, "/a/t.7z", "/dest"),
        vec!["7z", "x", "/a/t.7z", "-o/dest"]
    );
    assert_eq!(
        extract_command(ArchiveFormat::Zip, "/a/t.zip", "/dest"),
        vec!["unzip", "/a/t.zip", "-d", "/dest"]
    );
}

#[test]
fn extraction_result_reports_tool_failure() {
    assert!(extraction_result(true).is_ok());
    match extraction_result(false) {
        Err(StoreError::Extraction(_)) => {}
        other => panic!("expected an extraction error, got {:?}", other),
    }
}

#[test]
fn dates_format_as_day_month_year() {
    assert_eq!(get_formatted_date("1996-12-19T16:39:57-08:00"), "19-12-1996");
    assert_eq!(get_formatted_date("2024-03-05T12:00:00+00:00"), "05-03-2024");
    assert_eq!(get_formatted_date("0005-01-02T00:00:00Z"), "02-01-0005");
}

#[test]
fn invalid_date_reads_as_error_text_not_a_date() {
    let out = get_formatted_date("not a date");
    assert!(!out.contains("--"));
    assert_ne!(out, "");
}
