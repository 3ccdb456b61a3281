//! The visited set: the deduplication gate of the crawl.
//!
//! `claim` atomically tests and inserts in one call, so the caller that gets
//! `true` back is the exclusive claimant of that URL. The surrounding program
//! shares one `VisitedSet` among all workers under exclusive access; the
//! proofs at the end of this module state what that discipline buys: over any
//! sequence of claim attempts, a URL is granted exactly once, and a URL that
//! is already visited is never granted again.

use vstd::prelude::*;

verus! {

/// The set of URLs some worker has claimed, as normalized URL text.
/// Grows monotonically; nothing is ever removed.
pub struct VisitedSet {
    urls: Vec<String>,
}

impl View for VisitedSet {
    type V = Seq<Seq<char>>;

    closed spec fn view(&self) -> Seq<Seq<char>> {
        self.urls@.map_values(|s: String| s@)
    }
}

impl VisitedSet {
    /// No URL occurs twice.
    pub open spec fn wf(&self) -> bool {
        forall|i: int, j: int| 0 <= i < j < self@.len() ==> self@[i] != self@[j]
    }

    /// An empty visited set, as at the start of a crawl run.
    pub fn new() -> (r: VisitedSet)
        ensures
            r@ == Seq::<Seq<char>>::empty(),
            r.wf(),
    {
        let r = VisitedSet { urls: Vec::new() };
        proof {
            assert(r@ =~= Seq::<Seq<char>>::empty());
        }
        r
    }

    /// How many URLs have been claimed so far.
    pub fn len(&self) -> (r: usize)
        ensures
            r == self@.len(),
    {
        self.urls.len()
    }

    /// Whether `u` has already been claimed.
    pub fn contains(&self, u: &String) -> (r: bool)
        ensures
            r == self@.contains(u@),
    {
        let n = self.urls.len();
        let mut i: usize = 0;
        while i < n
            invariant
                n == self.urls.len(),
                i <= n,
                forall|k: int| 0 <= k < i ==> self@[k] != u@,
            decreases n - i,
        {
            let cur: &String = &self.urls[i];
            if cur.eq(u) {
                proof {
                    assert(self@[i as int] == u@);
                }
                return true;
            }
            i = i + 1;
        }
        proof {
            assert(forall|k: int| 0 <= k < self@.len() ==> self@[k] != u@);
        }
        false
    }

    /// The atomic test-and-insert: inserts `u` and returns `true` iff this
    /// call performed the insertion, `false` if `u` was already present.
    /// This single call is the deduplication mechanism; there is no separate
    /// check-then-insert pair to race through.
    pub fn claim(&mut self, u: &String) -> (r: bool)
        ensures
            r == !old(self)@.contains(u@),
            r ==> final(self)@ == old(self)@.push(u@),
            !r ==> final(self)@ == old(self)@,
            final(self)@.contains(u@),
            old(self).wf() ==> final(self).wf(),
    {
        if self.contains(u) {
            false
        } else {
            let ghost pre = self@;
            self.urls.push(u.clone());
            proof {
                assert(self@ =~= pre.push(u@));
                assert(self@[pre.len() as int] == u@);
                assert(self@.contains(u@));
            }
            true
        }
    }
}

/// The visited set after one claim attempt on `w`, starting from `v`.
pub open spec fn claim_step(v: Seq<Seq<char>>, w: Seq<char>) -> Seq<Seq<char>> {
    if v.contains(w) {
        v
    } else {
        v.push(w)
    }
}

/// How many of the claim attempts in `reqs`, applied in order to the visited
/// set `v`, are granted for the URL `u`. An attempt on `w` is one call of
/// `VisitedSet::claim`; by its contract it is granted exactly when `w` is not
/// yet present, and then inserts `w`.
pub open spec fn granted_count(v: Seq<Seq<char>>, reqs: Seq<Seq<char>>, u: Seq<char>) -> nat
    decreases reqs.len(),
{
    if reqs.len() == 0 {
        0
    } else {
        (if reqs[0] == u && !v.contains(u) {
            1nat
        } else {
            0nat
        }) + granted_count(claim_step(v, reqs[0]), reqs.drop_first(), u)
    }
}

proof fn lemma_push_keeps_contains(v: Seq<Seq<char>>, w: Seq<char>, u: Seq<char>)
    requires
        v.contains(u),
    ensures
        v.push(w).contains(u),
{
    let i = choose|i: int| 0 <= i < v.len() && v[i] == u;
    assert(v.push(w)[i] == u);
}

proof fn lemma_push_new_not_contains(v: Seq<Seq<char>>, w: Seq<char>, u: Seq<char>)
    requires
        !v.contains(u),
        w != u,
    ensures
        !v.push(w).contains(u),
{
    if v.push(w).contains(u) {
        let i = choose|i: int| 0 <= i < v.push(w).len() && v.push(w)[i] == u;
        if i < v.len() {
            assert(v[i] == u);
        } else {
            assert(v.push(w)[i] == w);
        }
    }
}

/// A URL that is already visited is never granted again, however many
/// further claim attempts are made and whatever other URLs they name.
/// In particular, a granted claim is the only claim that leads to a fetch,
/// so a visited URL is never fetched a second time.
pub proof fn lemma_visited_never_regranted(v: Seq<Seq<char>>, reqs: Seq<Seq<char>>, u: Seq<char>)
    requires
        v.contains(u),
    ensures
        granted_count(v, reqs, u) == 0,
    decreases reqs.len(),
{
    if reqs.len() > 0 {
        let v1 = claim_step(v, reqs[0]);
        if !v.contains(reqs[0]) {
            lemma_push_keeps_contains(v, reqs[0], u);
        }
        lemma_visited_never_regranted(v1, reqs.drop_first(), u);
    }
}

/// The deduplication law: over any sequence of claim attempts, interleaved
/// in any order with attempts on any other URLs, a URL `u` that is not yet
/// visited is granted exactly once if some attempt names it, and never
/// otherwise. So of N workers racing to claim the same URL, exactly one
/// becomes the claimant and fetches it.
pub proof fn lemma_claim_granted_exactly_once(
    v: Seq<Seq<char>>,
    reqs: Seq<Seq<char>>,
    u: Seq<char>,
)
    requires
        !v.contains(u),
    ensures
        granted_count(v, reqs, u) == (if reqs.contains(u) {
            1nat
        } else {
            0nat
        }),
    decreases reqs.len(),
{
    if reqs.len() > 0 {
        let v1 = claim_step(v, reqs[0]);
        let rest = reqs.drop_first();
        if reqs[0] == u {
            assert(v1 == v.push(u));
            assert(v1[v.len() as int] == u);
            assert(v1.contains(u));
            lemma_visited_never_regranted(v1, rest, u);
            assert(reqs.contains(u));
        } else {
            if !v.contains(reqs[0]) {
                lemma_push_new_not_contains(v, reqs[0], u);
            }
            lemma_claim_granted_exactly_once(v1, rest, u);
            if rest.contains(u) {
                let i = choose|i: int| 0 <= i < rest.len() && rest[i] == u;
                assert(reqs[i + 1] == u);
                assert(reqs.contains(u));
            } else {
                if reqs.contains(u) {
                    let i = choose|i: int| 0 <= i < reqs.len() && reqs[i] == u;
                    assert(i != 0);
                    assert(rest[i - 1] == u);
                }
            }
        }
    }
}

} // verus!
