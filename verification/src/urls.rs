//! The crawler's URL model. A `CrawlUrl` holds, as plain strings, what the
//! crawl logic reads of an absolute URL: its full serialization, its host and
//! its path. Parsing and reference resolution are the `url` crate's work,
//! behind trusted wrappers; normalization (dropping query and fragment) is
//! this crate's own logic. In the serialization of an absolute URL, `?` and
//! `#` occur only as the query and fragment delimiters (they are
//! percent-encoded everywhere else), so normalization truncates the
//! serialization at the first such character.

use vstd::prelude::*;
use vstd::string::*;
use crate::text::{strip_spec, lemma_strip_idempotent};

verus! {

/// The serialization of `url::Url::parse(s)`, or `None` when `s` does not
/// parse as an absolute URL.
pub uninterp spec fn url_text_of(s: Seq<char>) -> Option<Seq<char>>;

/// The host of `url::Url::parse(s)` (empty when the URL has none).
pub uninterp spec fn url_host_of(s: Seq<char>) -> Seq<char>;

/// The path of `url::Url::parse(s)`.
pub uninterp spec fn url_path_of(s: Seq<char>) -> Seq<char>;

/// The serialization of `url::Url::parse(base).join(href)`, or `None` when
/// the base does not parse or the reference cannot be resolved against it.
pub uninterp spec fn url_join_of(base: Seq<char>, href: Seq<char>) -> Option<Seq<char>>;

/// What the crawl logic sees of a URL.
#[verifier::ext_equal]
pub struct UrlModel {
    pub text: Seq<char>,
    pub host: Seq<char>,
    pub path: Seq<char>,
}

impl UrlModel {
    /// Normalization strips the query and the fragment from the
    /// serialization; host and path are untouched by it.
    pub open spec fn norm(self) -> UrlModel {
        UrlModel { text: strip_spec(self.text), host: self.host, path: self.path }
    }
}

/// An absolute URL, reduced to the parts the crawler reads.
pub struct CrawlUrl {
    pub text: String,
    pub host: String,
    pub path: String,
}

impl View for CrawlUrl {
    type V = UrlModel;

    open spec fn view(&self) -> UrlModel {
        UrlModel { text: self.text@, host: self.host@, path: self.path@ }
    }
}

impl CrawlUrl {
    /// Assemble a URL from its parts (tests and callers that already hold
    /// the serialization use this; `parse_url` builds one from a string).
    pub fn assemble(text: String, host: String, path: String) -> (r: CrawlUrl)
        ensures
            r@ == (UrlModel { text: text@, host: host@, path: path@ }),
    {
        CrawlUrl { text, host, path }
    }

    /// The canonical (dedup/cache) flavor of this URL: query and fragment
    /// dropped from the serialization.
    pub fn normalize(&self) -> (r: CrawlUrl)
        ensures
            r@ == self@.norm(),
    {
        let text = crate::text::strip_str(self.text.as_str());
        CrawlUrl { text, host: self.host.clone(), path: self.path.clone() }
    }
}

/// Normalization is idempotent: stripping query and fragment a second time
/// changes nothing.
pub proof fn lemma_normalize_idempotent(u: UrlModel)
    ensures
        u.norm().norm() == u.norm(),
{
    lemma_strip_idempotent(u.text);
    assert(u.norm().norm() =~= u.norm());
}

/// Relies on `url::Url::parse` and the accessors `Url::as_str`,
/// `Url::host_str` and `Url::path`: parsing a string either fails or yields
/// an absolute URL whose serialization, host (empty when the URL has none)
/// and path those accessors return. The result depends on the input string
/// alone.
#[verifier::external_body]
fn parse_abs(s: &str) -> (r: Option<CrawlUrl>)
    ensures
        r is Some <==> url_text_of(s@) is Some,
        r matches Some(u) ==> u@.text == url_text_of(s@)->Some_0
            && u@.host == url_host_of(s@)
            && u@.path == url_path_of(s@),
{
    match url::Url::parse(s) {
        Ok(u) => Some(CrawlUrl {
            host: u.host_str().unwrap_or("").to_string(),
            path: u.path().to_string(),
            text: String::from(u),
        }),
        Err(_) => None,
    }
}

/// Relies on `url::Url::join` on the parsed base: reference resolution per
/// the URL standard, yielding an absolute URL or an error. A serialization
/// parses back to the same URL, so the host and path of the joined URL are
/// those its own serialization parses to.
#[verifier::external_body]
fn join_abs(base: &str, href: &str) -> (r: Option<CrawlUrl>)
    ensures
        r is Some <==> url_join_of(base@, href@) is Some,
        r matches Some(u) ==> u@.text == url_join_of(base@, href@)->Some_0
            && u@.host == url_host_of(u@.text)
            && u@.path == url_path_of(u@.text),
{
    let b = match url::Url::parse(base) {
        Ok(b) => b,
        Err(_) => return None,
    };
    match b.join(href) {
        Ok(u) => Some(CrawlUrl {
            host: u.host_str().unwrap_or("").to_string(),
            path: u.path().to_string(),
            text: String::from(u),
        }),
        Err(_) => None,
    }
}

/// Parse a string as an absolute URL.
pub fn parse_url(s: &str) -> (r: Option<CrawlUrl>)
    ensures
        r is Some <==> url_text_of(s@) is Some,
        r matches Some(u) ==> u@.text == url_text_of(s@)->Some_0
            && u@.host == url_host_of(s@)
            && u@.path == url_path_of(s@),
{
    parse_abs(s)
}

/// What resolving `href` against a page at `base` yields: the href itself
/// when it is an absolute URL, the join against the base when it is a
/// relative reference, nothing when both fail.
pub open spec fn resolve_spec(base: Seq<char>, href: Seq<char>) -> Option<UrlModel> {
    if url_text_of(href) is Some {
        Some(UrlModel {
            text: url_text_of(href)->Some_0,
            host: url_host_of(href),
            path: url_path_of(href),
        })
    } else if url_join_of(base, href) is Some {
        Some(UrlModel {
            text: url_join_of(base, href)->Some_0,
            host: url_host_of(url_join_of(base, href)->Some_0),
            path: url_path_of(url_join_of(base, href)->Some_0),
        })
    } else {
        None
    }
}

/// Resolve an anchor's `href` against the page URL: absolute hrefs are kept
/// as they are, relative ones are joined onto the page, unresolvable ones
/// are dropped.
pub fn resolve_href(page: &CrawlUrl, href: &str) -> (r: Option<CrawlUrl>)
    ensures
        r is Some <==> resolve_spec(page@.text, href@) is Some,
        r matches Some(u) ==> u@ == resolve_spec(page@.text, href@)->Some_0,
{
    match parse_abs(href) {
        Some(u) => Some(u),
        None => join_abs(page.text.as_str(), href),
    }
}

} // verus!
