//! URL values as the engine sees them.
//!
//! The engine never looks inside a URL: it needs only the normalized text
//! (the dedup key and the record key) and the host (the in-domain boundary).
//! Parsing and resolution follow the standard URL rules and are done by the
//! `url` crate behind the trusted wrappers below; their results are named by
//! uninterpreted spec functions, since normalization takes pages to state but
//! depends on the input text alone.

use vstd::prelude::*;

verus! {

/// The normalized serialization that parsing an absolute URL from `s`
/// yields, or `None` where `s` does not parse as an absolute URL.
pub uninterp spec fn parse_norm(s: Seq<char>) -> Option<Seq<char>>;

/// The host of the URL whose normalized serialization is `norm`, or `None`
/// for a host-less URL.
pub uninterp spec fn url_host(norm: Seq<char>) -> Option<Seq<char>>;

/// The normalized serialization of `href` resolved against the absolute URL
/// text `base`, or `None` where `base` does not parse or `href` cannot be
/// resolved against it.
pub uninterp spec fn join_norm(base: Seq<char>, href: Seq<char>) -> Option<Seq<char>>;

/// A normalized absolute URL, together with its host.
///
/// `host` is the URL's host, or the empty string for a host-less URL; the
/// constructors in this module establish `host_ok`.
pub struct CrawlUrl {
    pub text: String,
    pub host: String,
}

impl CrawlUrl {
    /// `host` agrees with what the URL text itself determines.
    pub open spec fn host_ok(self) -> bool {
        match url_host(self.text@) {
            Some(h) => self.host@ == h,
            None => self.host@ == Seq::<char>::empty(),
        }
    }

}

/// Relies on `url::Url::parse` of the url crate: parsing an absolute URL is
/// deterministic in the input text. `Url::as_str` and `Url::host_str` only
/// read the parsed value back out as plain strings.
#[verifier::external_body]
fn parse_url_raw(s: &str) -> (r: Option<(String, Option<String>)>)
    ensures
        r is Some <==> parse_norm(s@) is Some,
        r is Some ==> (r->0).0@ == parse_norm(s@)->0,
        r is Some ==> (match (r->0).1 {
            Some(h) => url_host(parse_norm(s@)->0) == Some(h@),
            None => url_host(parse_norm(s@)->0) is None,
        }),
{
    match url::Url::parse(s) {
        Ok(u) => {
            let host = u.host_str().map(|h| h.to_string());
            Some((u.as_str().to_string(), host))
        }
        Err(_) => None,
    }
}

/// Relies on `url::Url::join` of the url crate: resolving `href` against a
/// parsed base URL is deterministic in the two texts. `Url::parse` recovers
/// the base from its normalized text; `Url::as_str` and `Url::host_str` only
/// read the result back out.
#[verifier::external_body]
fn join_url_raw(base: &str, href: &str) -> (r: Option<(String, Option<String>)>)
    ensures
        r is Some <==> join_norm(base@, href@) is Some,
        r is Some ==> (r->0).0@ == join_norm(base@, href@)->0,
        r is Some ==> (match (r->0).1 {
            Some(h) => url_host(join_norm(base@, href@)->0) == Some(h@),
            None => url_host(join_norm(base@, href@)->0) is None,
        }),
{
    match url::Url::parse(base) {
        Ok(b) => match b.join(href) {
            Ok(u) => {
                let host = u.host_str().map(|h| h.to_string());
                Some((u.as_str().to_string(), host))
            }
            Err(_) => None,
        },
        Err(_) => None,
    }
}

/// Parses `s` as an absolute URL and pairs its normalized text with its
/// host, the empty string standing for a host-less URL.
pub fn parse_url(s: &str) -> (r: Option<CrawlUrl>)
    ensures
        r is Some <==> parse_norm(s@) is Some,
        r is Some ==> (r->0).text@ == parse_norm(s@)->0,
        r is Some ==> (r->0).host_ok(),
{
    match parse_url_raw(s) {
        Some((text, host)) => {
            let h: String = match host {
                Some(h) => h,
                None => String::new(),
            };
            Some(CrawlUrl { text, host: h })
        }
        None => None,
    }
}

/// Resolves `href` against `base` and pairs the normalized text of the
/// result with its host, the empty string standing for a host-less URL.
pub fn resolve_href(base: &CrawlUrl, href: &str) -> (r: Option<CrawlUrl>)
    ensures
        r is Some <==> join_norm(base.text@, href@) is Some,
        r is Some ==> (r->0).text@ == join_norm(base.text@, href@)->0,
        r is Some ==> (r->0).host_ok(),
{
    match join_url_raw(base.text.as_str(), href) {
        Some((text, host)) => {
            let h: String = match host {
                Some(h) => h,
                None => String::new(),
            };
            Some(CrawlUrl { text, host: h })
        }
        None => None,
    }
}

} // verus!
