//! Query builders: the pure functions that turn a page or search request
//! into the canonical marketplace URL.

use vstd::prelude::*;

use crate::catalog::{Catalog, SortType};
use crate::numtext::{dec_rep, u64_to_string};

verus! {

/// The parameters of one catalog page request.
#[derive(Debug, Clone, PartialEq, Eq, Structural)]
pub struct ProductPageProps {
    pub pageno: u16,
    pub sortby: SortType,
    pub cat: Catalog,
    pub pagesize: u8,
}

impl ProductPageProps {
    /// The starting query: page zero of the GTK theme category, ten
    /// items a page, most recently updated first.
    pub open spec fn spec_default() -> ProductPageProps {
        ProductPageProps {
            pageno: 0,
            sortby: SortType::Latest,
            cat: Catalog::Gtk4Themes,
            pagesize: 10,
        }
    }

    /// The canonical request URL of this query.
    pub open spec fn spec_url(self) -> Seq<char> {
        "https://"@ + "www.pling.com"@ + "/ocs/v1/content/data?format=json&pagesize="@ + dec_rep(
            self.pagesize as nat,
        ) + "&categories="@ + self.cat.spec_id() + "&page="@ + dec_rep(self.pageno as nat)
            + "&sortmode="@ + self.sortby.spec_label()
    }

    pub fn set_page(&mut self, pageno: u16) -> (r: &mut ProductPageProps)
        ensures
            *r == (ProductPageProps { pageno, ..*old(self) }),
            *final(self) == *final(r),
    {
        self.pageno = pageno;
        self
    }

    pub fn set_catalog(&mut self, cat: Catalog) -> (r: &mut ProductPageProps)
        ensures
            *r == (ProductPageProps { cat, ..*old(self) }),
            *final(self) == *final(r),
    {
        self.cat = cat;
        self
    }

    pub fn set_order(&mut self, sortby: SortType) -> (r: &mut ProductPageProps)
        ensures
            *r == (ProductPageProps { sortby, ..*old(self) }),
            *final(self) == *final(r),
    {
        self.sortby = sortby;
        self
    }

    /// Builds the absolute catalog URL: format, page size, category
    /// identifier, page number and sort-mode token. Deterministic, no
    /// network access.
    pub fn get_url(&self) -> (r: String)
        ensures
            r@ == self.spec_url(),
    {
        let base_url = String::from_str("www.pling.com");
        let mut url = String::from_str("https://");
        url.append(base_url.as_str());
        url.append("/ocs/v1/content/data?format=json&pagesize=");
        let pagesize = u64_to_string(self.pagesize as u64);
        url.append(pagesize.as_str());
        url.append("&categories=");
        url.append(self.cat.get_id());
        url.append("&page=");
        let pageno = u64_to_string(self.pageno as u64);
        url.append(pageno.as_str());
        url.append("&sortmode=");
        url.append(self.sortby.get_label());
        proof {
            assert(url@ =~= self.spec_url());
        }
        url
    }
}

impl Default for ProductPageProps {
    fn default() -> (r: Self)
        ensures
            r == ProductPageProps::spec_default(),
    {
        ProductPageProps {
            pageno: 0,
            sortby: SortType::Latest,
            cat: Catalog::Gtk4Themes,
            pagesize: 10,
        }
    }
}

/// The parameters of one free-text search request.
#[derive(Debug, Clone, PartialEq)]
pub struct SearchPageProps {
    pub query: String,
    pub pagesize: u8,
}

impl SearchPageProps {
    /// The starting search query: the given text, thirty items a page.
    pub fn default(search_text: String) -> (r: Self)
        ensures
            r.query == search_text,
            r.pagesize == 30,
    {
        SearchPageProps { query: search_text, pagesize: 30 }
    }

    pub fn set_search_text(&mut self, query: String) -> (r: &mut SearchPageProps)
        ensures
            r.query == query,
            r.pagesize == old(self).pagesize,
            *final(self) == *final(r),
    {
        self.query = query;
        self
    }

    /// The canonical search URL of this query.
    pub open spec fn spec_search_url(self) -> Seq<char> {
        "https://"@ + "www.pling.com"@
            + "/ocs/v1/content/data?format=json&categories=132,107,134,135,104&pagesize="@
            + dec_rep(self.pagesize as nat) + "&page=0"@ + "&sortmode=update"@ + "&search="@
            + self.query@
    }

    /// Builds the absolute search URL: the free text against the fixed
    /// five-category scope, page zero, most recently updated first. The
    /// query text is embedded as given; callers must URL-encode
    /// hazardous characters themselves.
    pub fn get_search_url(&self) -> (r: String)
        ensures
            r@ == self.spec_search_url(),
    {
        let base_url = String::from_str("www.pling.com");
        let mut url = String::from_str("https://");
        url.append(base_url.as_str());
        url.append("/ocs/v1/content/data?format=json&categories=132,107,134,135,104&pagesize=");
        let pagesize = u64_to_string(self.pagesize as u64);
        url.append(pagesize.as_str());
        url.append("&page=0");
        url.append("&sortmode=update");
        url.append("&search=");
        url.append(self.query.as_str());
        proof {
            assert(url@ =~= self.spec_search_url());
        }
        url
    }
}

} // verus!
