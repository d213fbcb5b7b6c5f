use themestore::catalog::{Catalog, SortType};
use themestore::query::{ProductPageProps, SearchPageProps};

#[test]
fn default_page_query() {
    let p = ProductPageProps::default();
    assert_eq!(p.pageno, 0);
    assert_eq!(p.sortby, SortType::Latest);
    assert_eq!(p.cat, Catalog::Gtk4Themes);
    assert_eq!(p.pagesize, 10);
}

#[test]
fn default_page_url() {
    let p = ProductPageProps::default();
    assert_eq!(
        p.get_url(),
        "https://www.pling.com/ocs/v1/content/data?format=json&pagesize=10&categories=135&page=0&sortmode=update"
    );
}

#[test]
fn setters_chain_and_compose_into_url() {
    let mut p = ProductPageProps::default();
    p.set_catalog(Catalog::Cursors).set_order(SortType::Rating).set_page(7);
    assert_eq!(p.pageno, 7);
    assert_eq!(p.cat, Catalog::Cursors);
    assert_eq!(p.sortby, SortType::Rating);
    assert_eq!(
        p.get_url(),
        "https://www.pling.com/ocs/v1/content/data?format=json&pagesize=10&categories=107&page=7&sortmode=high"
    );
}

#[test]
fn page_url_is_deterministic() {
    let mut a = ProductPageProps::default();
    a.set_page(3);
    let mut b = ProductPageProps::default();
    b.set_page(3);
    assert_eq!(a.get_url(), b.get_url());
}

#[test]
fn default_search_query() {
    let s = SearchPageProps::default(String::from("Papirus"));
    assert_eq!(s.query, "Papirus");
    assert_eq!(s.pagesize, 30);
}

#[test]
fn search_url_targets_all_categories_page_zero() {
    let s = SearchPageProps::default(String::from("Papirus"));
    assert_eq!(
        s.get_search_url(),
        "https://www.pling.com/ocs/v1/content/data?format=json&categories=132,107,134,135,104&pagesize=30&page=0&sortmode=update&search=Papirus"
    );
}

#[test]
fn set_search_text_replaces_query() {
    let mut s = SearchPageProps::default(String::new());
    s.set_search_text(String::from("Nordic"));
    assert_eq!(s.query, "Nordic");
    assert!(s.get_search_url().ends_with("&search=Nordic"));
}
