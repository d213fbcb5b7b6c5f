//! The closed enumerations of the marketplace: sort orders and theme
//! categories, with their remote tokens, remote category identifiers and
//! human-readable labels.

use vstd::prelude::*;

use crate::strutil::str_eq;

verus! {

/// One of the five sort orders a catalog page can be requested in.
#[derive(Debug, Clone, Copy, PartialEq, Eq, Structural)]
pub enum SortType {
    Latest,
    Rating,
    Creator,
    Downloads,
    Alphabetical,
}

impl SortType {
    /// The remote sort-mode token sent in a request URL.
    pub open spec fn spec_label(self) -> Seq<char> {
        match self {
            SortType::Latest => "update"@,
            SortType::Rating => "high"@,
            SortType::Creator => "new"@,
            SortType::Downloads => "down"@,
            SortType::Alphabetical => "alpha"@,
        }
    }

    /// The human-readable name of the sort order.
    pub open spec fn spec_name(self) -> Seq<char> {
        match self {
            SortType::Latest => "Latest"@,
            SortType::Rating => "Rating"@,
            SortType::Creator => "Creator"@,
            SortType::Downloads => "Downloads"@,
            SortType::Alphabetical => "Alphabetical"@,
        }
    }

    pub fn get_label(&self) -> (r: &str)
        ensures
            r@ == self.spec_label(),
    {
        match self {
            SortType::Latest => "update",
            SortType::Rating => "high",
            SortType::Creator => "new",
            SortType::Downloads => "down",
            SortType::Alphabetical => "alpha",
        }
    }

    pub fn to_string(&self) -> (r: &str)
        ensures
            r@ == self.spec_name(),
    {
        match self {
            SortType::Latest => "Latest",
            SortType::Rating => "Rating",
            SortType::Creator => "Creator",
            SortType::Downloads => "Downloads",
            SortType::Alphabetical => "Alphabetical",
        }
    }

    /// All five sort orders, in their fixed presentation order.
    pub fn get_all_sort_types() -> (r: Vec<SortType>)
        ensures
            r@ == seq![
                SortType::Latest,
                SortType::Rating,
                SortType::Creator,
                SortType::Downloads,
                SortType::Alphabetical,
            ],
    {
        let mut v: Vec<SortType> = Vec::new();
        v.push(SortType::Latest);
        v.push(SortType::Rating);
        v.push(SortType::Creator);
        v.push(SortType::Downloads);
        v.push(SortType::Alphabetical);
        proof {
            assert(v@ =~= seq![
                SortType::Latest,
                SortType::Rating,
                SortType::Creator,
                SortType::Downloads,
                SortType::Alphabetical,
            ]);
        }
        v
    }
}

/// One of the five theme categories the store browses.
#[derive(Debug, Clone, Copy, PartialEq, Eq, Structural)]
pub enum Catalog {
    FullIconThemes,
    Cursors,
    GnomeShellThemes,
    Gtk4Themes,
    KDEThemes,
}

impl Catalog {
    /// The fixed remote category identifier.
    pub open spec fn spec_id(self) -> Seq<char> {
        match self {
            Catalog::FullIconThemes => "132"@,
            Catalog::Cursors => "107"@,
            Catalog::GnomeShellThemes => "134"@,
            Catalog::Gtk4Themes => "135"@,
            Catalog::KDEThemes => "104"@,
        }
    }

    /// The human-readable category label.
    pub open spec fn spec_name(self) -> Seq<char> {
        match self {
            Catalog::FullIconThemes => "Full Icon Themes"@,
            Catalog::Cursors => "Cursor Themes"@,
            Catalog::GnomeShellThemes => "Gnome Shell Themes"@,
            Catalog::Gtk4Themes => "Gtk Themes"@,
            Catalog::KDEThemes => "KDE Themes"@,
        }
    }

    /// The category, if any, whose remote identifier is `id`.
    pub open spec fn spec_of_id(id: Seq<char>) -> Option<Catalog> {
        if id == "132"@ {
            Some(Catalog::FullIconThemes)
        } else if id == "107"@ {
            Some(Catalog::Cursors)
        } else if id == "134"@ {
            Some(Catalog::GnomeShellThemes)
        } else if id == "135"@ {
            Some(Catalog::Gtk4Themes)
        } else if id == "104"@ {
            Some(Catalog::KDEThemes)
        } else {
            None
        }
    }

    pub fn get_id(&self) -> (r: &str)
        ensures
            r@ == self.spec_id(),
    {
        match self {
            Catalog::FullIconThemes => "132",
            Catalog::Cursors => "107",
            Catalog::GnomeShellThemes => "134",
            Catalog::Gtk4Themes => "135",
            Catalog::KDEThemes => "104",
        }
    }

    pub fn to_string(&self) -> (r: &str)
        ensures
            r@ == self.spec_name(),
    {
        match self {
            Catalog::FullIconThemes => "Full Icon Themes",
            Catalog::Cursors => "Cursor Themes",
            Catalog::GnomeShellThemes => "Gnome Shell Themes",
            Catalog::Gtk4Themes => "Gtk Themes",
            Catalog::KDEThemes => "KDE Themes",
        }
    }

    /// The label of the category with the given remote identifier;
    /// an unknown identifier reads as "Others".
    pub fn id_to_string(id: &str) -> (r: &str)
        ensures
            match Catalog::spec_of_id(id@) {
                Some(c) => r@ == c.spec_name(),
                None => r@ == "Others"@,
            },
    {
        if str_eq(id, "132") {
            "Full Icon Themes"
        } else if str_eq(id, "107") {
            "Cursor Themes"
        } else if str_eq(id, "134") {
            "Gnome Shell Themes"
        } else if str_eq(id, "135") {
            "Gtk Themes"
        } else if str_eq(id, "104") {
            "KDE Themes"
        } else {
            "Others"
        }
    }

    /// The category with the given remote identifier; an unknown
    /// identifier falls back to the GTK theme category.
    pub fn id_to_catalog(id: &str) -> (r: Catalog)
        ensures
            match Catalog::spec_of_id(id@) {
                Some(c) => r == c,
                None => r == Catalog::Gtk4Themes,
            },
    {
        if str_eq(id, "132") {
            Catalog::FullIconThemes
        } else if str_eq(id, "107") {
            Catalog::Cursors
        } else if str_eq(id, "134") {
            Catalog::GnomeShellThemes
        } else if str_eq(id, "135") {
            Catalog::Gtk4Themes
        } else if str_eq(id, "104") {
            Catalog::KDEThemes
        } else {
            Catalog::Gtk4Themes
        }
    }

    /// All five categories, in their fixed presentation order.
    pub fn get_all_catalog_types() -> (r: Vec<Catalog>)
        ensures
            r@ == seq![
                Catalog::FullIconThemes,
                Catalog::Cursors,
                Catalog::GnomeShellThemes,
                Catalog::Gtk4Themes,
                Catalog::KDEThemes,
            ],
    {
        let mut v: Vec<Catalog> = Vec::new();
        v.push(Catalog::FullIconThemes);
        v.push(Catalog::Cursors);
        v.push(Catalog::GnomeShellThemes);
        v.push(Catalog::Gtk4Themes);
        v.push(Catalog::KDEThemes);
        proof {
            assert(v@ =~= seq![
                Catalog::FullIconThemes,
                Catalog::Cursors,
                Catalog::GnomeShellThemes,
                Catalog::Gtk4Themes,
                Catalog::KDEThemes,
            ]);
        }
        v
    }
}

} // verus!
