//! Catalog ingestion and asset pipeline for a desktop theme marketplace.
//!
//! The crate covers the verified core of a theme-store client: building
//! catalog and search request URLs, decoding the marketplace's irregular
//! JSON payload into typed product records, normalizing those records
//! (grouped download variants, preview lists, markup-free descriptions,
//! rescaled scores), deriving local cache paths for remote assets, and
//! resolving how a downloaded archive is installed. Network, filesystem
//! and subprocess work is left to the surrounding application, which
//! calls into these functions for every decision and every derived value.

pub mod cache;
pub mod catalog;
pub mod dates;
pub mod decode;
pub mod error;
pub mod install;
pub mod normalize;
pub mod numtext;
pub mod order;
pub mod product;
pub mod query;
pub mod strutil;
