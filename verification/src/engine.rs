//! The crawl engine: the shared run-state of one crawl and the decisions a
//! worker makes for each unit of work.
//!
//! A unit of work is one dequeued URL. The worker starts the unit (counting
//! itself in flight), tries to claim the URL, fetches and records it on a
//! granted claim, expands it for links only when the fetch succeeded and the
//! URL's host is the crawl host, and finally finishes the unit, which
//! decrements the in-flight count and decides whether to close the frontier.
//! The close decision is evaluated only after the decrement, and every
//! enqueue of a discovered link happens before the decrement, so the check
//! `frontier empty and nothing in flight` can never close the frontier while
//! some unit could still enqueue work.
//!
//! `run_crawl` runs a whole crawl over a given table of pages, one unit at a
//! time, and is proved to terminate on every finite table, cyclic links
//! included.

use vstd::prelude::*;

use crate::UrlData;
use crate::extract::extract_hrefs;
use crate::urls::CrawlUrl;
use crate::urls::parse_norm;
use crate::urls::parse_url;
use crate::urls::resolve_href;
use crate::urls::url_host;
use crate::visited::VisitedSet;

verus! {

/// What one fetch attempt came to, as the adapter boundary reports it.
pub enum FetchOutcome {
    /// A response outside the client- and server-error ranges; its body may
    /// be expanded for links.
    Success { status: u16, body: String },
    /// A response with a 4xx or 5xx status: recorded, never expanded.
    ClientOrServerError { status: u16 },
    /// No response was obtained; nothing is recorded.
    TransportFailure { reason: String },
}

/// The status to record for an outcome, or `None` where no response was
/// obtained and nothing is recorded.
pub open spec fn outcome_status(o: FetchOutcome) -> Option<u16> {
    match o {
        FetchOutcome::Success { status, .. } => Some(status),
        FetchOutcome::ClientOrServerError { status } => Some(status),
        FetchOutcome::TransportFailure { .. } => None,
    }
}

/// Sorts a raw response into the outcome taxonomy: client- and server-error
/// statuses are recorded but keep their body out of expansion.
pub fn classify_response(status: u16, body: String) -> (r: FetchOutcome)
    ensures
        UrlData::spec_is_error_status(status) ==> r == (FetchOutcome::ClientOrServerError {
            status,
        }),
        !UrlData::spec_is_error_status(status) ==> r == (FetchOutcome::Success { status, body }),
{
    if crate::is_error_status(status) {
        FetchOutcome::ClientOrServerError { status }
    } else {
        FetchOutcome::Success { status, body }
    }
}

/// The record to emit for one fetch attempt: one record whenever a response
/// was obtained, error statuses included, and none on a transport failure.
pub fn record_of_outcome(url: &CrawlUrl, outcome: &FetchOutcome) -> (r: Option<UrlData>)
    ensures
        match outcome_status(*outcome) {
            Some(s) => r is Some && (r->0).url@ == url.text@ && (r->0).status == s,
            None => r is None,
        },
{
    match outcome {
        FetchOutcome::Success { status, .. } => Some(
            UrlData { url: url.text.clone(), status: *status },
        ),
        FetchOutcome::ClientOrServerError { status } => Some(
            UrlData { url: url.text.clone(), status: *status },
        ),
        FetchOutcome::TransportFailure { .. } => None,
    }
}

/// The in-domain boundary: a page is expanded for links exactly when its
/// fetch succeeded and its host is the crawl host.
pub open spec fn spec_should_expand(
    crawl_host: Seq<char>,
    page_host: Seq<char>,
    outcome: FetchOutcome,
) -> bool {
    outcome is Success && page_host == crawl_host
}

/// Whether the body of `url`'s page is passed to link extraction.
pub fn should_expand(crawl_host: &String, url: &CrawlUrl, outcome: &FetchOutcome) -> (r: bool)
    ensures
        r == spec_should_expand(crawl_host@, url.host@, *outcome),
{
    match outcome {
        FetchOutcome::Success { .. } => url.host.eq(crawl_host),
        _ => false,
    }
}

/// A page whose host differs from the crawl host is never expanded,
/// whatever its fetch came to: its body never reaches extraction.
pub proof fn lemma_foreign_host_never_expanded(
    crawl_host: Seq<char>,
    page_host: Seq<char>,
    outcome: FetchOutcome,
)
    requires
        page_host != crawl_host,
    ensures
        !spec_should_expand(crawl_host, page_host, outcome),
{
}

/// A response with a client- or server-error status is never expanded.
pub proof fn lemma_error_status_never_expanded(
    crawl_host: Seq<char>,
    page_host: Seq<char>,
    status: u16,
)
    ensures
        !spec_should_expand(
            crawl_host,
            page_host,
            FetchOutcome::ClientOrServerError { status },
        ),
{
}

/// The state one crawl run shares among its workers: the crawl host, the
/// visited set, the in-flight count and whether the frontier was closed.
pub struct Database {
    pub host: String,
    pub visited: VisitedSet,
    pub in_flight: usize,
    pub closed: bool,
}

impl Database {
    pub open spec fn wf(&self) -> bool {
        self.visited.wf()
    }

    /// Fresh state for a run whose crawl host is `host`: nothing visited,
    /// nothing in flight, frontier open.
    pub fn new(host: String) -> (r: Database)
        ensures
            r.host@ == host@,
            r.visited@ == Seq::<Seq<char>>::empty(),
            r.in_flight == 0,
            !r.closed,
            r.wf(),
    {
        Database { host, visited: VisitedSet::new(), in_flight: 0, closed: false }
    }

    /// A worker has dequeued a URL and begins a unit of work: it counts
    /// itself in flight before anything else of the unit happens.
    pub fn start_unit(&mut self)
        requires
            old(self).in_flight < usize::MAX,
        ensures
            final(self).in_flight == old(self).in_flight + 1,
            final(self).host == old(self).host,
            final(self).visited == old(self).visited,
            final(self).closed == old(self).closed,
    {
        self.in_flight = self.in_flight + 1;
    }

    /// The claim gate, on the shared visited set: grants exactly the caller
    /// that names a URL nobody has claimed yet.
    pub fn claim(&mut self, url: &CrawlUrl) -> (r: bool)
        ensures
            r == !old(self).visited@.contains(url.text@),
            r ==> final(self).visited@ == old(self).visited@.push(url.text@),
            !r ==> final(self).visited@ == old(self).visited@,
            final(self).visited@.contains(url.text@),
            old(self).wf() ==> final(self).wf(),
            final(self).host == old(self).host,
            final(self).in_flight == old(self).in_flight,
            final(self).closed == old(self).closed,
    {
        self.visited.claim(&url.text)
    }

    /// A worker has finished a unit of work — every enqueue the unit could
    /// make has already happened. It leaves the in-flight count and runs the
    /// termination check: with the frontier observed empty, nothing left in
    /// flight and the frontier not yet closed, this worker is the one that
    /// closes it, and the call returns true exactly then.
    pub fn finish_unit(&mut self, frontier_empty: bool) -> (close_now: bool)
        requires
            old(self).in_flight >= 1,
        ensures
            final(self).in_flight == old(self).in_flight - 1,
            close_now == (frontier_empty && old(self).in_flight == 1 && !old(self).closed),
            final(self).closed == (old(self).closed || close_now),
            final(self).host == old(self).host,
            final(self).visited == old(self).visited,
    {
        self.in_flight = self.in_flight - 1;
        if frontier_empty && self.in_flight == 0 && !self.closed {
            self.closed = true;
            true
        } else {
            false
        }
    }
}

/// One page of a site table: the outcome a fetch of `url` yields. A site
/// table stands for the fetch adapter in `run_crawl`: a fixed, finite
/// mapping from URL to outcome; a URL without a page suffers a transport
/// failure.
pub struct Page {
    pub url: String,
    pub outcome: FetchOutcome,
}

/// The outcome of the first page at or after `i` whose URL is `url`.
pub open spec fn site_lookup_from(site: Seq<Page>, url: Seq<char>, i: int) -> Option<FetchOutcome>
    decreases site.len() - i,
{
    if i < 0 || i >= site.len() {
        None
    } else if site[i].url@ == url {
        Some(site[i].outcome)
    } else {
        site_lookup_from(site, url, i + 1)
    }
}

/// The outcome a fetch of `url` yields on this site, or `None` where the
/// site has no such page.
pub open spec fn site_lookup(site: Seq<Page>, url: Seq<char>) -> Option<FetchOutcome> {
    site_lookup_from(site, url, 0)
}

/// Some page of the site has the URL `url`.
pub open spec fn site_has_url(site: Seq<Page>, url: Seq<char>) -> bool {
    exists|j: int| 0 <= j < site.len() && site[j].url@ == url
}

proof fn lemma_lookup_some_iff_has(site: Seq<Page>, url: Seq<char>, i: int)
    requires
        0 <= i <= site.len(),
    ensures
        site_lookup_from(site, url, i) is Some <==> (exists|j: int|
            i <= j < site.len() && site[j].url@ == url),
    decreases site.len() - i,
{
    if i < site.len() {
        if site[i].url@ == url {
            assert(i <= i < site.len() && site[i].url@ == url);
        } else {
            lemma_lookup_some_iff_has(site, url, i + 1);
        }
    }
}

/// The driver's fetch: looks `url` up in the site table.
pub fn site_fetch<'a>(site: &'a Vec<Page>, url: &String) -> (r: Option<&'a FetchOutcome>)
    ensures
        match site_lookup(site@, url@) {
            Some(o) => r is Some && *(r->0) == o,
            None => r is None,
        },
{
    let n = site.len();
    let mut i: usize = 0;
    while i < n
        invariant
            n == site@.len(),
            i <= n,
            site_lookup(site@, url@) == site_lookup_from(site@, url@, i as int),
        decreases n - i,
    {
        let cur: &Page = &site[i];
        if cur.url.eq(url) {
            return Some(&cur.outcome);
        }
        i = i + 1;
    }
    None
}

/// How many pages of the site have not been claimed yet: the potential for
/// new work. Every enqueue of the crawl comes from expanding a freshly
/// claimed page of the site, so this count bounds how often the frontier
/// can grow, which is what makes the crawl terminate.
pub open spec fn unclaimed_count(site: Seq<Page>, visited: Seq<Seq<char>>) -> nat
    decreases site.len(),
{
    if site.len() == 0 {
        0
    } else {
        (if !visited.contains(site.last().url@) {
            1nat
        } else {
            0nat
        }) + unclaimed_count(site.drop_last(), visited)
    }
}

proof fn lemma_push_contains(v: Seq<Seq<char>>, w: Seq<char>, u: Seq<char>)
    requires
        v.contains(u),
    ensures
        v.push(w).contains(u),
{
    let i = choose|i: int| 0 <= i < v.len() && v[i] == u;
    assert(v.push(w)[i] == u);
}

proof fn lemma_unclaimed_nonincreasing(site: Seq<Page>, v: Seq<Seq<char>>, u: Seq<char>)
    ensures
        unclaimed_count(site, v.push(u)) <= unclaimed_count(site, v),
    decreases site.len(),
{
    if site.len() > 0 {
        if v.contains(site.last().url@) {
            lemma_push_contains(v, u, site.last().url@);
        }
        lemma_unclaimed_nonincreasing(site.drop_last(), v, u);
    }
}

proof fn lemma_unclaimed_decreases(site: Seq<Page>, v: Seq<Seq<char>>, u: Seq<char>)
    requires
        site_has_url(site, u),
        !v.contains(u),
    ensures
        unclaimed_count(site, v.push(u)) < unclaimed_count(site, v),
    decreases site.len(),
{
    let last = site.last();
    if last.url@ == u {
        assert(v.push(u)[v.len() as int] == u);
        assert(v.push(u).contains(u));
        lemma_unclaimed_nonincreasing(site.drop_last(), v, u);
    } else {
        let j = choose|j: int| 0 <= j < site.len() && site[j].url@ == u;
        assert(site.drop_last()[j] == site[j]);
        assert(site_has_url(site.drop_last(), u));
        if v.contains(last.url@) {
            lemma_push_contains(v, u, last.url@);
        }
        lemma_unclaimed_decreases(site.drop_last(), v, u);
    }
}

/// Why a crawl run fails before any work starts.
#[derive(Debug, PartialEq, Eq, Structural)]
pub enum CrawlError {
    /// The seed does not parse as an absolute URL.
    InvalidSeed,
    /// The seed parses but determines no host to bound the crawl.
    SeedHostMissing,
}

/// The crawl host a seed text determines: the host of the parsed seed,
/// where there is one and it is not empty.
pub open spec fn seed_host_of(seed: Seq<char>) -> Option<Seq<char>> {
    match parse_norm(seed) {
        Some(t) => match url_host(t) {
            Some(h) => if h.len() > 0 {
                Some(h)
            } else {
                None
            },
            None => None,
        },
        None => None,
    }
}

/// The record `rec` reports a page of the site faithfully: the site has a
/// page under `rec`'s URL whose outcome carries exactly `rec`'s status.
pub open spec fn record_matches_site(site: Seq<Page>, rec: UrlData) -> bool {
    match site_lookup(site, rec.url@) {
        Some(o) => outcome_status(o) == Some(rec.status),
        None => false,
    }
}

/// Some record in `recs` reports `url` with `status`.
pub open spec fn records_include(recs: Seq<UrlData>, url: Seq<char>, status: u16) -> bool {
    exists|i: int| 0 <= i < recs.len() && recs[i].url@ == url && recs[i].status == status
}

/// Where the site answers a fetch of `url` with a status, `recs` holds that
/// record; a transport failure or an unknown URL owes none.
pub open spec fn recorded_if_responds(site: Seq<Page>, recs: Seq<UrlData>, url: Seq<char>) -> bool {
    match site_lookup(site, url) {
        Some(o) => match outcome_status(o) {
            Some(s) => records_include(recs, url, s),
            None => true,
        },
        None => true,
    }
}

/// What one crawl run comes to: the records it emitted and the engine
/// state it ended in, whose visited set tells which URLs were claimed.
pub struct CrawlReport {
    pub records: Vec<UrlData>,
    pub db: Database,
}

/// Runs one whole crawl over the site table, one unit of work at a time:
/// seed the frontier, then dequeue, claim, fetch, record, expand in-domain
/// pages and enqueue their links, and close the frontier the moment it is
/// empty with nothing in flight.
///
/// The contract pins the records down against the visited set: no URL is
/// recorded twice, every record reports a page of the site as the site has
/// it, every recorded URL was claimed, and every claimed URL the site
/// answers with a status — the seed always among them — has its record.
///
/// The `decreases` proof of the work loop is the termination law: however
/// the pages link to each other, cycles and duplicate links included, a
/// crawl over a finite site table always finishes, because the claim gate
/// lets each page expand at most once.
pub fn run_crawl(seed: &str, site: &Vec<Page>) -> (r: Result<CrawlReport, CrawlError>)
    ensures
        (r matches Err(CrawlError::InvalidSeed)) <==> parse_norm(seed@) is None,
        (r matches Err(CrawlError::SeedHostMissing)) <==> (parse_norm(seed@) is Some
            && seed_host_of(seed@) is None),
        r is Ok <==> (parse_norm(seed@) is Some && seed_host_of(seed@) is Some),
        (r matches Ok(rep) ==> {
            &&& forall|i: int, j: int|
                0 <= i < j < rep.records@.len() ==> rep.records@[i].url@ != rep.records@[j].url@
            &&& forall|i: int|
                0 <= i < rep.records@.len() ==> record_matches_site(site@, rep.records@[i])
            &&& forall|i: int|
                0 <= i < rep.records@.len() ==> rep.db.visited@.contains(rep.records@[i].url@)
            &&& forall|u: Seq<char>|
                #[trigger] rep.db.visited@.contains(u) ==> recorded_if_responds(
                    site@,
                    rep.records@,
                    u,
                )
            &&& rep.db.visited@.contains(parse_norm(seed@)->0)
            &&& rep.db.host@ == seed_host_of(seed@)->0
            &&& rep.db.wf()
            &&& rep.db.closed
            &&& rep.db.in_flight == 0
        }),
{
    let seed_url = match parse_url(seed) {
        Some(u) => u,
        None => {
            return Err(CrawlError::InvalidSeed);
        },
    };
    if seed_url.host.as_str().is_empty() {
        return Err(CrawlError::SeedHostMissing);
    }
    let ghost seedt = seed_url.text@;
    let ghost seedh = seed_url.host@;
    let host_copy = seed_url.host.clone();
    let mut db = Database::new(host_copy);
    let mut queue: Vec<CrawlUrl> = Vec::new();
    let mut records: Vec<UrlData> = Vec::new();
    queue.push(seed_url);
    while !db.closed
        invariant
            db.wf(),
            db.in_flight == 0,
            db.host@ == seedh,
            !db.closed ==> queue@.len() >= 1,
            db.visited@.contains(seedt) || (!db.closed && queue@[0].text@ == seedt),
            forall|i: int| 0 <= i < records@.len() ==> db.visited@.contains(records@[i].url@),
            forall|i: int, j: int|
                0 <= i < j < records@.len() ==> records@[i].url@ != records@[j].url@,
            forall|i: int| 0 <= i < records@.len() ==> record_matches_site(site@, records@[i]),
            forall|u: Seq<char>|
                #[trigger] db.visited@.contains(u) ==> recorded_if_responds(site@, records@, u),
        decreases unclaimed_count(site@, db.visited@), queue@.len(),
    {
        let ghost v0 = db.visited@;
        let url = queue.remove(0);
        db.start_unit();
        let granted = db.claim(&url);
        proof {
            if v0.contains(seedt) {
                if db.visited@ != v0 {
                    lemma_push_contains(v0, url.text@, seedt);
                }
            }
        }
        let ghost r0 = records@;
        if granted {
            match site_fetch(site, &url.text) {
                Some(o) => {
                    match record_of_outcome(&url, o) {
                        Some(rec) => {
                            records.push(rec);
                            proof {
                                assert(records@ == r0.push(rec));
                                assert(records@[r0.len() as int].url@ == url.text@);
                                assert(match outcome_status(*o) {
                                    Some(s) => records_include(records@, url.text@, s),
                                    None => true,
                                });
                            }
                        },
                        None => {},
                    }
                    proof {
                        assert(recorded_if_responds(site@, records@, url.text@));
                    }
                    if should_expand(&db.host, &url, o) {
                        match o {
                            FetchOutcome::Success { body, .. } => {
                                let hrefs = extract_hrefs(body.as_str());
                                let m = hrefs.len();
                                let mut k: usize = 0;
                                while k < m
                                    invariant
                                        m == hrefs@.len(),
                                        k <= m,
                                    decreases m - k,
                                {
                                    let h: &String = &hrefs[k];
                                    match resolve_href(&url, h.as_str()) {
                                        Some(child) => {
                                            queue.push(child);
                                        },
                                        None => {},
                                    }
                                    k = k + 1;
                                }
                            },
                            _ => {},
                        }
                    }
                },
                None => {
                    proof {
                        assert(recorded_if_responds(site@, records@, url.text@));
                    }
                },
            }
        }
        let empty_now = queue.len() == 0;
        let _closed_now = db.finish_unit(empty_now);
        proof {
            assert forall|i: int| 0 <= i < records@.len() implies db.visited@.contains(
                records@[i].url@,
            ) by {
                if i < r0.len() {
                    assert(records@[i] == r0[i]);
                    assert(v0.contains(r0[i].url@));
                    if db.visited@ != v0 {
                        lemma_push_contains(v0, url.text@, r0[i].url@);
                    }
                } else {
                    assert(records@[i].url@ == url.text@);
                }
            };
            assert forall|u: Seq<char>| #[trigger] db.visited@.contains(u)
                implies recorded_if_responds(site@, records@, u) by {
                if v0.contains(u) {
                    match site_lookup(site@, u) {
                        Some(o) => match outcome_status(o) {
                            Some(s) => {
                                let i = choose|i: int|
                                    0 <= i < r0.len() && r0[i].url@ == u && r0[i].status == s;
                                assert(records@[i] == r0[i]);
                                assert(records_include(records@, u, s));
                            },
                            None => {},
                        },
                        None => {},
                    }
                } else {
                    let i = choose|i: int|
                        0 <= i < db.visited@.len() && db.visited@[i] == u;
                    if i < v0.len() {
                        assert(v0[i] == u);
                    }
                    assert(u == url.text@);
                    assert(recorded_if_responds(site@, records@, url.text@));
                }
            };
            if granted {
                if site_lookup(site@, url.text@) is Some {
                    lemma_lookup_some_iff_has(site@, url.text@, 0);
                    lemma_unclaimed_decreases(site@, v0, url.text@);
                } else {
                    lemma_unclaimed_nonincreasing(site@, v0, url.text@);
                }
            }
        }
    }
    Ok(CrawlReport { records, db })
}

} // verus!
