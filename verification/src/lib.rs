//! Verified core of a listing-page scraper: page-address generation,
//! structural post extraction with fallback link selection, URL
//! canonicalization, JSON encoding, and the two delivery policies
//! (collect-all and stream-incremental).

pub mod strutil;
pub mod pages;
pub mod canon;
pub mod extract;
pub mod json;
pub mod orchestrate;

use vstd::prelude::*;

verus! {

/// One extracted post: its title text, cover-image address, and
/// canonicalized link.
#[derive(Debug, Clone)]
pub struct ScrapeResult {
    /// Joined text of the title element; empty when the element is absent.
    pub title: String,
    /// Image address with its query string stripped when it parses as an
    /// absolute URL; otherwise the raw attribute value; empty when absent.
    pub img: String,
    /// Chosen link with its fragment removed and tracking parameters
    /// stripped by the cleaning ruleset.
    pub href: String,
}

/// The failure kinds of the pipeline.
#[derive(Debug, Clone, Copy, PartialEq, Eq, Structural)]
pub enum ScrapeError {
    /// An upstream page could not be fetched.
    FetchError,
    /// A fixed structural query was malformed.
    ParseError,
    /// A post block had no qualifying link, or its link was not a
    /// parseable absolute URL.
    MissingLinkError,
    /// The embedded cleaning ruleset could not be loaded.
    RuleLoadError,
}

} // verus!
