//! URL canonicalization: query-string stripping for image addresses,
//! fragment removal and tracking-parameter stripping for links.
//!
//! The parsing and serialization of URLs and the embedded cleaning
//! ruleset live in outside crates; their results are named here and the
//! decisions around them are verified.

use vstd::prelude::*;
use crate::ScrapeError;

verus! {

/// Whether `url::Url::parse` accepts the string as an absolute URL.
pub uninterp spec fn url_ok(s: Seq<char>) -> bool;

/// The serialization of the parsed URL after its query is removed.
pub uninterp spec fn without_query(s: Seq<char>) -> Seq<char>;

/// The serialization of the parsed URL after its fragment is removed.
pub uninterp spec fn without_fragment(s: Seq<char>) -> Seq<char>;

/// Whether the embedded ruleset loads and cleans the URL without fault.
pub uninterp spec fn clean_ok(s: Seq<char>) -> bool;

/// When cleaning fails, whether the fault blames the URL itself rather
/// than the ruleset.
pub uninterp spec fn clean_url_fault(s: Seq<char>) -> bool;

/// The URL after the embedded cleaning ruleset strips its tracking
/// parameters.
pub uninterp spec fn cleaned_of(s: Seq<char>) -> Seq<char>;

/// A fault of the cleaning step, by origin.
#[derive(Debug, Clone, Copy, PartialEq, Eq, Structural)]
enum CleanFault {
    /// The URL itself was rejected.
    BadUrl,
    /// The ruleset failed to load or misbehaved.
    BadRules,
}

/// Relies on `url::Url::parse`, `Url::set_query` and `Url::to_string`:
/// parse succeeds exactly on well-formed absolute URLs, and the
/// re-serialization after `set_query(None)` carries no query string.
#[verifier::external_body]
fn url_strip_query(s: &str) -> (r: Option<String>)
    ensures
        r is Some <==> url_ok(s@),
        r matches Some(t) ==> t@ == without_query(s@),
{
    match url::Url::parse(s) {
        Ok(mut u) => {
            u.set_query(None);
            Some(u.to_string())
        },
        Err(_) => None,
    }
}

/// Relies on `url::Url::parse`, `Url::set_fragment` and `Url::to_string`:
/// parse succeeds exactly on well-formed absolute URLs, and the
/// re-serialization after `set_fragment(None)` carries no fragment.
#[verifier::external_body]
fn url_strip_fragment(s: &str) -> (r: Option<String>)
    ensures
        r is Some <==> url_ok(s@),
        r matches Some(t) ==> t@ == without_fragment(s@),
{
    match url::Url::parse(s) {
        Ok(mut u) => {
            u.set_fragment(None);
            Some(u.to_string())
        },
        Err(_) => None,
    }
}

/// Relies on `clearurls::UrlCleaner::from_embedded_rules` and
/// `UrlCleaner::clear_single_url_str`: both are deterministic, the
/// ruleset is embedded in the crate, and the cleaned URL depends on the
/// input alone. A `UrlSyntax` fault blames the URL; any other fault
/// blames the ruleset.
#[verifier::external_body]
fn clean_with_rules(s: &str) -> (r: Result<String, CleanFault>)
    ensures
        r is Ok <==> clean_ok(s@),
        r matches Ok(t) ==> t@ == cleaned_of(s@),
        r matches Err(f) ==> ((f == CleanFault::BadUrl) == clean_url_fault(s@)),
{
    let cleaner = match clearurls::UrlCleaner::from_embedded_rules() {
        Ok(c) => c,
        Err(_) => {
            return Err(CleanFault::BadRules);
        },
    };
    match cleaner.clear_single_url_str(s) {
        Ok(c) => Ok(c.into_owned()),
        Err(clearurls::Error::UrlSyntax(_)) => Err(CleanFault::BadUrl),
        Err(_) => Err(CleanFault::BadRules),
    }
}

/// The canonical form of an image address: its query string stripped
/// when it parses as an absolute URL, the raw value otherwise.
pub open spec fn spec_canonical_image(s: Seq<char>) -> Seq<char> {
    if url_ok(s) {
        without_query(s)
    } else {
        s
    }
}

/// Canonicalize an image address: strip the query string of an absolute
/// URL; pass anything else through unchanged.
pub fn canonical_image(img: String) -> (r: String)
    ensures
        r@ == spec_canonical_image(img@),
{
    match url_strip_query(img.as_str()) {
        Some(t) => t,
        None => img,
    }
}

/// The error a failing link canonicalization yields: an address that
/// does not parse, or that the cleaner rejects as a URL, is a
/// missing-link failure; any other cleaning fault blames the ruleset.
pub open spec fn spec_link_error(href: Seq<char>) -> ScrapeError {
    if !url_ok(href) {
        ScrapeError::MissingLinkError
    } else if clean_url_fault(without_fragment(href)) {
        ScrapeError::MissingLinkError
    } else {
        ScrapeError::RuleLoadError
    }
}

/// Canonicalize a link: the address must parse as an absolute URL, its
/// fragment is cleared, and the cleaning ruleset strips its tracking
/// parameters.
pub fn canonical_link(href: &str) -> (r: Result<String, ScrapeError>)
    ensures
        url_ok(href@) && clean_ok(without_fragment(href@)) ==> (r matches Ok(t) && t@
            == cleaned_of(without_fragment(href@))),
        !(url_ok(href@) && clean_ok(without_fragment(href@))) ==> r == Result::<
            String,
            ScrapeError,
        >::Err(spec_link_error(href@)),
{
    let bare = match url_strip_fragment(href) {
        Some(t) => t,
        None => {
            return Err(ScrapeError::MissingLinkError);
        },
    };
    match clean_with_rules(bare.as_str()) {
        Ok(t) => Ok(t),
        Err(CleanFault::BadUrl) => Err(ScrapeError::MissingLinkError),
        Err(CleanFault::BadRules) => Err(ScrapeError::RuleLoadError),
    }
}

} // verus!
