use themestore::catalog::{Catalog, SortType};

#[test]
fn sort_labels_match_remote_tokens() {
    assert_eq!(SortType::Latest.get_label(), "update");
    assert_eq!(SortType::Rating.get_label(), "high");
    assert_eq!(SortType::Creator.get_label(), "new");
    assert_eq!(SortType::Downloads.get_label(), "down");
    assert_eq!(SortType::Alphabetical.get_label(), "alpha");
}

#[test]
fn sort_names_are_human_readable() {
    assert_eq!(SortType::Latest.to_string(), "Latest");
    assert_eq!(SortType::Rating.to_string(), "Rating");
    assert_eq!(SortType::Creator.to_string(), "Creator");
    assert_eq!(SortType::Downloads.to_string(), "Downloads");
    assert_eq!(SortType::Alphabetical.to_string(), "Alphabetical");
}

#[test]
fn all_sort_types_in_order() {
    let all = SortType::get_all_sort_types();
    assert_eq!(
        all,
        vec![
            SortType::Latest,
            SortType::Rating,
            SortType::Creator,
            SortType::Downloads,
            SortType::Alphabetical,
        ]
    );
}

#[test]
fn category_ids_match_remote_identifiers() {
    assert_eq!(Catalog::FullIconThemes.get_id(), "132");
    assert_eq!(Catalog::Cursors.get_id(), "107");
    assert_eq!(Catalog::GnomeShellThemes.get_id(), "134");
    assert_eq!(Catalog::Gtk4Themes.get_id(), "135");
    assert_eq!(Catalog::KDEThemes.get_id(), "104");
}

#[test]
fn category_names_are_human_readable() {
    assert_eq!(Catalog::FullIconThemes.to_string(), "Full Icon Themes");
    assert_eq!(Catalog::Cursors.to_string(), "Cursor Themes");
    assert_eq!(Catalog::GnomeShellThemes.to_string(), "Gnome Shell Themes");
    assert_eq!(Catalog::Gtk4Themes.to_string(), "Gtk Themes");
    assert_eq!(Catalog::KDEThemes.to_string(), "KDE Themes");
}

#[test]
fn id_to_string_knows_all_ids_and_defaults_to_others() {
    assert_eq!(Catalog::id_to_string("132"), "Full Icon Themes");
    assert_eq!(Catalog::id_to_string("107"), "Cursor Themes");
    assert_eq!(Catalog::id_to_string("134"), "Gnome Shell Themes");
    assert_eq!(Catalog::id_to_string("135"), "Gtk Themes");
    assert_eq!(Catalog::id_to_string("104"), "KDE Themes");
    assert_eq!(Catalog::id_to_string("999"), "Others");
    assert_eq!(Catalog::id_to_string(""), "Others");
}

#[test]
fn id_to_catalog_round_trips_and_falls_back() {
    for cat in Catalog::get_all_catalog_types() {
        assert_eq!(Catalog::id_to_catalog(cat.get_id()), cat);
    }
    assert_eq!(Catalog::id_to_catalog("0"), Catalog::Gtk4Themes);
}

#[test]
fn all_catalog_types_in_order() {
    let all = Catalog::get_all_catalog_types();
    assert_eq!(
        all,
        vec![
            Catalog::FullIconThemes,
            Catalog::Cursors,
            Catalog::GnomeShellThemes,
            Catalog::Gtk4Themes,
            Catalog::KDEThemes,
        ]
    );
}
