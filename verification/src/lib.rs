//! A single-host, same-domain crawl engine.
//!
//! The library holds the logic of a concurrent web crawler: the visited-set
//! claim gate that deduplicates URLs, the per-unit-of-work decisions of a
//! worker, the termination check that closes the work queue, the extraction
//! of hyperlink targets from a page body, and a sequential driver that runs
//! a whole crawl over a given table of pages. Fetching, channels and output
//! belong to the surrounding program; URL parsing and resolution are done by
//! the `url` crate behind a few trusted wrappers.

use vstd::prelude::*;

pub mod config;
pub mod urls;
pub mod engine;
pub mod extract;
pub mod visited;

verus! {

/// One persisted outcome of a fetch attempt: the URL and its HTTP status.
pub struct UrlData {
    pub url: String,
    pub status: u16,
}

impl UrlData {
    /// True of a status in the client-error or server-error range: such a
    /// response is recorded but its body is never expanded for links.
    pub open spec fn spec_is_error_status(status: u16) -> bool {
        400 <= status <= 599
    }
}

/// Whether a status code counts as a client or server error.
pub fn is_error_status(status: u16) -> (r: bool)
    ensures
        r == UrlData::spec_is_error_status(status),
{
    400 <= status && status <= 599
}

} // verus!
