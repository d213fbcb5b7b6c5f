//! Installation of a downloaded archive: where a category's themes live,
//! where a variant's archive is cached, which format an archive is, and
//! which external tool extracts it.

use vstd::prelude::*;

use crate::cache::EnsureAction;
use crate::catalog::Catalog;
use crate::error::StoreError;
use crate::product::DownloadDetail;
use crate::strutil::{ends_with, str_ends_with, strings_view};

verus! {

/// The archive formats the installer can hand to an extraction tool.
#[derive(Debug, Clone, Copy, PartialEq, Eq, Structural)]
pub enum ArchiveFormat {
    Tar,
    SevenZ,
    Zip,
}

/// The format an archive filename announces, detected by its suffix in
/// this priority: tar (plain, xz or gz), then 7z, then zip; anything
/// else is unsupported.
pub open spec fn spec_detect(path: Seq<char>) -> Option<ArchiveFormat> {
    if ends_with(path, ".tar"@) || ends_with(path, ".tar.xz"@) || ends_with(path, ".tar.gz"@) {
        Some(ArchiveFormat::Tar)
    } else if ends_with(path, ".7z"@) {
        Some(ArchiveFormat::SevenZ)
    } else if ends_with(path, ".zip"@) {
        Some(ArchiveFormat::Zip)
    } else {
        None
    }
}

/// Detects the archive format of a filename, or reports the suffix as
/// unsupported.
pub fn detect_format(path: &str) -> (r: Result<ArchiveFormat, StoreError>)
    ensures
        match spec_detect(path@) {
            Some(f) => r == Ok::<ArchiveFormat, StoreError>(f),
            None => r matches Err(e) && e matches StoreError::UnsupportedFormat(m) && m@
                == "unsupported file type: "@ + path@,
        },
{
    if str_ends_with(path, ".tar") || str_ends_with(path, ".tar.xz") || str_ends_with(
        path,
        ".tar.gz",
    ) {
        Ok(ArchiveFormat::Tar)
    } else if str_ends_with(path, ".7z") {
        Ok(ArchiveFormat::SevenZ)
    } else if str_ends_with(path, ".zip") {
        Ok(ArchiveFormat::Zip)
    } else {
        let mut m = String::from_str("unsupported file type: ");
        m.append(path);
        Err(StoreError::UnsupportedFormat(m))
    }
}

/// The directory under the user's home into which a category's themes
/// are installed.
pub open spec fn spec_install_subdir(cat: Catalog) -> Seq<char> {
    match cat {
        Catalog::FullIconThemes => ".local/share/icons"@,
        Catalog::Cursors => ".local/share/icons"@,
        Catalog::Gtk4Themes => ".local/share/themes"@,
        Catalog::GnomeShellThemes => ".local/share/themes"@,
        Catalog::KDEThemes => ".local/share/plasma/desktoptheme"@,
    }
}

/// The home-relative installation directory of a category. Total over
/// all five categories by construction.
pub fn install_dir_suffix(cat: &Catalog) -> (r: &str)
    ensures
        r@ == spec_install_subdir(*cat),
{
    match cat {
        Catalog::FullIconThemes => ".local/share/icons",
        Catalog::Cursors => ".local/share/icons",
        Catalog::Gtk4Themes => ".local/share/themes",
        Catalog::GnomeShellThemes => ".local/share/themes",
        Catalog::KDEThemes => ".local/share/plasma/desktoptheme",
    }
}

/// The absolute installation directory of a category under the given
/// home directory.
pub fn install_target_dir(home: &str, cat: &Catalog) -> (r: String)
    ensures
        r@ == home@ + "/"@ + spec_install_subdir(*cat),
{
    let mut dir = String::from_str(home);
    dir.append("/");
    dir.append(install_dir_suffix(cat));
    proof {
        assert(dir@ =~= home@ + "/"@ + spec_install_subdir(*cat));
    }
    dir
}

/// Law: the category-to-directory mapping is total and exhaustive over
/// the five categories — icon and cursor themes land in the icons
/// directory, GTK and shell themes in the themes directory, KDE themes
/// in the Plasma desktop-theme directory, and the three directories are
/// pairwise distinct.
pub proof fn lemma_install_dir_total(cat: Catalog)
    ensures
        (cat == Catalog::FullIconThemes || cat == Catalog::Cursors) <==> spec_install_subdir(cat)
            == ".local/share/icons"@,
        (cat == Catalog::Gtk4Themes || cat == Catalog::GnomeShellThemes) <==> spec_install_subdir(
            cat,
        ) == ".local/share/themes"@,
        (cat == Catalog::KDEThemes) <==> spec_install_subdir(cat)
            == ".local/share/plasma/desktoptheme"@,
{
    reveal_strlit(".local/share/icons");
    reveal_strlit(".local/share/themes");
    reveal_strlit(".local/share/plasma/desktoptheme");
    assert(".local/share/icons"@.len() == 18);
    assert(".local/share/themes"@.len() == 19);
    assert(".local/share/plasma/desktoptheme"@.len() == 32);
}

/// The on-disk path under which a variant's archive is downloaded
/// before extraction: a fixed download root, the category label, and
/// the variant's display name.
pub fn download_path(detail: &DownloadDetail, cat: &Catalog) -> (r: String)
    ensures
        r@ == "/tmp/themedownloadfiles/"@ + cat.spec_name() + "/"@ + detail.downloadname@,
{
    let mut path = String::from_str("/tmp/themedownloadfiles/");
    path.append(cat.to_string());
    path.append("/");
    path.append(detail.downloadname.as_str());
    proof {
        assert(path@ =~= "/tmp/themedownloadfiles/"@ + cat.spec_name() + "/"@
            + detail.downloadname@);
    }
    path
}

/// Plans the download step of one install: the archive's fixed on-disk
/// path, and a download exactly when the archive is absent — so a
/// repeated install of an already-downloaded archive fetches nothing
/// and goes straight to extraction.
pub fn install_download_step(detail: &DownloadDetail, cat: &Catalog, present: bool) -> (r: (
    String,
    EnsureAction,
))
    ensures
        r.0@ == "/tmp/themedownloadfiles/"@ + cat.spec_name() + "/"@ + detail.downloadname@,
        (r.1 == EnsureAction::UseCached) <==> present,
{
    let path = download_path(detail, cat);
    if present {
        (path, EnsureAction::UseCached)
    } else {
        (path, EnsureAction::Download)
    }
}

/// The argument list handed to the external extraction tool for one
/// archive format: the tool's name first, then its arguments.
pub open spec fn spec_extract_command(
    fmt: ArchiveFormat,
    archive: Seq<char>,
    dest: Seq<char>,
) -> Seq<Seq<char>> {
    match fmt {
        ArchiveFormat::Tar => seq!["tar"@, "-xf"@, archive, "-C"@, dest],
        ArchiveFormat::SevenZ => seq!["7z"@, "x"@, archive, "-o"@ + dest],
        ArchiveFormat::Zip => seq!["unzip"@, archive, "-d"@, dest],
    }
}

/// Builds the external command that extracts `archive` into `dest`:
/// `tar -xf <archive> -C <dest>`, `7z x <archive> -o<dest>` or
/// `unzip <archive> -d <dest>`.
pub fn extract_command(fmt: ArchiveFormat, archive: &str, dest: &str) -> (r: Vec<String>)
    ensures
        strings_view(r@) == spec_extract_command(fmt, archive@, dest@),
{
    let mut cmd: Vec<String> = Vec::new();
    match fmt {
        ArchiveFormat::Tar => {
            cmd.push(String::from_str("tar"));
            cmd.push(String::from_str("-xf"));
            cmd.push(String::from_str(archive));
            cmd.push(String::from_str("-C"));
            cmd.push(String::from_str(dest));
        },
        ArchiveFormat::SevenZ => {
            cmd.push(String::from_str("7z"));
            cmd.push(String::from_str("x"));
            cmd.push(String::from_str(archive));
            let mut out_arg = String::from_str("-o");
            out_arg.append(dest);
            cmd.push(out_arg);
        },
        ArchiveFormat::Zip => {
            cmd.push(String::from_str("unzip"));
            cmd.push(String::from_str(archive));
            cmd.push(String::from_str("-d"));
            cmd.push(String::from_str(dest));
        },
    }
    proof {
        assert(strings_view(cmd@) =~= spec_extract_command(fmt, archive@, dest@));
    }
    cmd
}

/// Judges the exit of the external extraction tool: success exactly
/// when the tool exited successfully, an extraction error otherwise.
pub fn extraction_result(exit_ok: bool) -> (r: Result<(), StoreError>)
    ensures
        r is Ok <==> exit_ok,
        !exit_ok ==> (r matches Err(e) && e is Extraction),
{
    if exit_ok {
        Ok(())
    } else {
        Err(StoreError::Extraction(String::from_str("the extraction tool reported failure")))
    }
}

} // verus!
