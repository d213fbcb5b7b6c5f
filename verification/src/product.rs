//! The typed records of the catalog: download variants, products, raw
//! (pre-normalization) records, and whole catalog pages, together with
//! their mathematical views.

use vstd::prelude::*;

use crate::strutil::strings_view;

verus! {

/// One installable package alternative of a product.
#[derive(Debug, Clone, PartialEq)]
pub struct DownloadDetail {
    pub downloadlink: String,
    pub downloadname: String,
    pub downloadsize: u64,
}

/// The mathematical view of a download variant.
pub struct DetailView {
    pub link: Seq<char>,
    pub name: Seq<char>,
    pub size: int,
}

impl View for DownloadDetail {
    type V = DetailView;

    open spec fn view(&self) -> DetailView {
        DetailView {
            link: self.downloadlink@,
            name: self.downloadname@,
            size: self.downloadsize as int,
        }
    }
}

impl Default for DownloadDetail {
    /// The all-empty variant used while grouping numbered fields.
    fn default() -> (r: Self)
        ensures
            r@ == DownloadDetail::spec_default(),
    {
        DownloadDetail {
            downloadlink: String::new(),
            downloadname: String::new(),
            downloadsize: 0,
        }
    }
}

impl DownloadDetail {
    /// The view of the default (all-empty) variant.
    pub open spec fn spec_default() -> DetailView {
        DetailView { link: Seq::empty(), name: Seq::empty(), size: 0 }
    }

    /// An equal copy, built field by field.
    pub fn clone_detail(&self) -> (r: DownloadDetail)
        ensures
            r == *self,
    {
        DownloadDetail {
            downloadlink: self.downloadlink.clone(),
            downloadname: self.downloadname.clone(),
            downloadsize: self.downloadsize,
        }
    }
}

/// One raw field value carried along with a record: the marketplace's
/// numbered keys hold either text or a non-negative integer; anything
/// else is kept only as a placeholder.
#[derive(Debug, Clone, PartialEq)]
pub enum RawValue {
    Text(String),
    Uint(u64),
    Other,
}

/// The mathematical view of a raw field value.
pub enum RawValueView {
    Text(Seq<char>),
    Uint(int),
    Other,
}

impl View for RawValue {
    type V = RawValueView;

    open spec fn view(&self) -> RawValueView {
        match self {
            RawValue::Text(s) => RawValueView::Text(s@),
            RawValue::Uint(n) => RawValueView::Uint(*n as int),
            RawValue::Other => RawValueView::Other,
        }
    }
}

/// The view of a bag of leftover key/value pairs.
pub open spec fn extra_view(e: Seq<(String, RawValue)>) -> Seq<(Seq<char>, RawValueView)> {
    e.map_values(|p: (String, RawValue)| (p.0@, p.1@))
}

/// The view of a list of download variants.
pub open spec fn details_view(ds: Seq<DownloadDetail>) -> Seq<DetailView> {
    ds.map_values(|d: DownloadDetail| d@)
}

/// One product record as the marketplace sends it, before normalization:
/// the fixed fields, plus the open bag of leftover key/value pairs
/// (`previewpicN`, `downloadlinkN`, `downloadnameN`, `downloadsizeN`, ...)
/// in the order they were read.
#[derive(Debug, Clone, PartialEq)]
pub struct RawRecord {
    pub details: String,
    pub id: i64,
    pub name: String,
    pub typeid: i64,
    pub typename: String,
    pub personid: String,
    pub created: String,
    pub changed: String,
    /// The raw score on the marketplace's 0..=50 scale (tenths of a star).
    pub score_raw: u64,
    pub downloads: String,
    pub description: String,
    pub extra: Vec<(String, RawValue)>,
}

/// The mathematical view of a raw record.
pub struct RawRecordView {
    pub details: Seq<char>,
    pub id: int,
    pub name: Seq<char>,
    pub typeid: int,
    pub typename: Seq<char>,
    pub personid: Seq<char>,
    pub created: Seq<char>,
    pub changed: Seq<char>,
    pub score_raw: int,
    pub downloads: Seq<char>,
    pub description: Seq<char>,
    pub extra: Seq<(Seq<char>, RawValueView)>,
}

impl View for RawRecord {
    type V = RawRecordView;

    open spec fn view(&self) -> RawRecordView {
        RawRecordView {
            details: self.details@,
            id: self.id as int,
            name: self.name@,
            typeid: self.typeid as int,
            typename: self.typename@,
            personid: self.personid@,
            created: self.created@,
            changed: self.changed@,
            score_raw: self.score_raw as int,
            downloads: self.downloads@,
            description: self.description@,
            extra: extra_view(self.extra@),
        }
    }
}

/// One normalized product of a catalog page.
#[derive(Debug, Clone, PartialEq)]
pub struct Product {
    pub details: String,
    pub id: i64,
    pub name: String,
    pub typeid: i64,
    pub typename: String,
    pub personid: String,
    pub created: String,
    pub changed: String,
    /// The score in tenths of a star: the raw 0..=50 value divided by ten
    /// gives 0.0..=5.0 stars, so the value here is that quotient times ten.
    pub score_tenths: u64,
    /// The aggregate download counter as text; an empty raw counter
    /// normalizes to "0".
    pub downloads: String,
    /// The free-text description with inline markup stripped.
    pub description: String,
    /// At most ten preview-picture URLs, in ascending index order.
    pub previewpics: Vec<String>,
    /// The grouped download variants, sorted by display name.
    pub downloaddetails: Vec<DownloadDetail>,
}

/// The mathematical view of a product.
pub struct ProductView {
    pub details: Seq<char>,
    pub id: int,
    pub name: Seq<char>,
    pub typeid: int,
    pub typename: Seq<char>,
    pub personid: Seq<char>,
    pub created: Seq<char>,
    pub changed: Seq<char>,
    pub score_tenths: int,
    pub downloads: Seq<char>,
    pub description: Seq<char>,
    pub previewpics: Seq<Seq<char>>,
    pub downloaddetails: Seq<DetailView>,
}

impl View for Product {
    type V = ProductView;

    open spec fn view(&self) -> ProductView {
        ProductView {
            details: self.details@,
            id: self.id as int,
            name: self.name@,
            typeid: self.typeid as int,
            typename: self.typename@,
            personid: self.personid@,
            created: self.created@,
            changed: self.changed@,
            score_tenths: self.score_tenths as int,
            downloads: self.downloads@,
            description: self.description@,
            previewpics: strings_view(self.previewpics@),
            downloaddetails: details_view(self.downloaddetails@),
        }
    }
}

/// One fetched, decoded response from the marketplace listing endpoint.
#[derive(Debug, Clone, PartialEq)]
pub struct ProductCatalog {
    pub status: String,
    pub statuscode: i64,
    pub message: String,
    pub totalitems: i64,
    pub itemsperpage: i64,
    pub data: Vec<Product>,
}

/// The view of a list of products.
pub open spec fn products_view(ps: Seq<Product>) -> Seq<ProductView> {
    ps.map_values(|p: Product| p@)
}

/// The mathematical view of a catalog page.
pub struct CatalogView {
    pub status: Seq<char>,
    pub statuscode: int,
    pub message: Seq<char>,
    pub totalitems: int,
    pub itemsperpage: int,
    pub data: Seq<ProductView>,
}

impl View for ProductCatalog {
    type V = CatalogView;

    open spec fn view(&self) -> CatalogView {
        CatalogView {
            status: self.status@,
            statuscode: self.statuscode as int,
            message: self.message@,
            totalitems: self.totalitems as int,
            itemsperpage: self.itemsperpage as int,
            data: products_view(self.data@),
        }
    }
}

} // verus!
