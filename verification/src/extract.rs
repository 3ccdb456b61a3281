//! Extraction of hyperlink targets from a page body.
//!
//! The extractor scans the body text left to right for `href` attributes:
//! at each occurrence of `href=` followed by a double or single quote, it
//! takes everything up to the matching quote as one target. A quote that is
//! never closed ends the scan. The spec functions below state that scan
//! exactly, and `extract_hrefs` is proved to return precisely the targets
//! the scan yields, in order. Resolving each target against the page's URL
//! is a separate step and may fail per target without affecting the rest.

use vstd::prelude::*;

verus! {

/// The two quote characters that can delimit an attribute value.
pub open spec fn is_quote(c: char) -> bool {
    c == '"' || c == '\''
}

/// The five characters of `href=` followed by a quote start at `i`.
/// Meaningful only where `0 <= i` and `i + 6 <= s.len()`.
pub open spec fn marker_at(s: Seq<char>, i: int) -> bool {
    &&& s[i] == 'h'
    &&& s[i + 1] == 'r'
    &&& s[i + 2] == 'e'
    &&& s[i + 3] == 'f'
    &&& s[i + 4] == '='
    &&& is_quote(s[i + 5])
}

/// The first position at or after `j` holding the quote `q`, or `s.len()`
/// where there is none.
pub open spec fn find_close(s: Seq<char>, q: char, j: int) -> int
    decreases s.len() - j,
{
    if j >= s.len() {
        s.len() as int
    } else if s[j] == q {
        j
    } else {
        find_close(s, q, j + 1)
    }
}

proof fn lemma_find_close(s: Seq<char>, q: char, j: int)
    requires
        0 <= j <= s.len(),
    ensures
        j <= find_close(s, q, j) <= s.len(),
        find_close(s, q, j) < s.len() ==> s[find_close(s, q, j)] == q,
        forall|k: int| j <= k < find_close(s, q, j) ==> s[k] != q,
    decreases s.len() - j,
{
    if j < s.len() && s[j] != q {
        lemma_find_close(s, q, j + 1);
    }
}

/// The targets of the `href` attributes of `s` from position `i` on, in
/// order of occurrence.
pub open spec fn scan_hrefs(s: Seq<char>, i: int) -> Seq<Seq<char>>
    decreases s.len() - i,
{
    if i < 0 || i + 6 > s.len() {
        Seq::empty()
    } else if marker_at(s, i) {
        let j = find_close(s, s[i + 5], i + 6);
        if i + 6 <= j && j < s.len() {
            seq![s.subrange(i + 6, j)] + scan_hrefs(s, j + 1)
        } else {
            Seq::empty()
        }
    } else {
        scan_hrefs(s, i + 1)
    }
}

/// All `href` targets of the body `s`, in order of occurrence.
pub open spec fn hrefs_of(s: Seq<char>) -> Seq<Seq<char>> {
    scan_hrefs(s, 0)
}

/// The texts of a vector of strings.
pub open spec fn views_of(v: Seq<String>) -> Seq<Seq<char>> {
    v.map_values(|s: String| s@)
}

/// Collects the `href` attribute targets of `body`, in order.
pub fn extract_hrefs(body: &str) -> (r: Vec<String>)
    ensures
        views_of(r@) == hrefs_of(body@),
{
    let n = body.unicode_len();
    let mut r: Vec<String> = Vec::new();
    let mut i: usize = 0;
    proof {
        assert(views_of(r@) + hrefs_of(body@) =~= hrefs_of(body@));
    }
    loop
        invariant
            n == body@.len(),
            i <= n,
            views_of(r@) + scan_hrefs(body@, i as int) == hrefs_of(body@),
        ensures
            views_of(r@) == hrefs_of(body@),
        decreases n - i,
    {
        if i >= n || n - i < 6 {
            proof {
                assert(scan_hrefs(body@, i as int) =~= Seq::<Seq<char>>::empty());
                assert(views_of(r@) + Seq::<Seq<char>>::empty() =~= views_of(r@));
            }
            break;
        }
        let is_marker = body.get_char(i) == 'h' && body.get_char(i + 1) == 'r' && body.get_char(
            i + 2,
        ) == 'e' && body.get_char(i + 3) == 'f' && body.get_char(i + 4) == '=' && (body.get_char(
            i + 5,
        ) == '"' || body.get_char(i + 5) == '\'');
        if !is_marker {
            proof {
                assert(!marker_at(body@, i as int));
                assert(scan_hrefs(body@, i as int) == scan_hrefs(body@, i as int + 1));
            }
            i = i + 1;
        } else {
            let q = body.get_char(i + 5);
            let start = i + 6;
            let mut j = start;
            let mut found = false;
            loop
                invariant_except_break
                    !found,
                invariant
                    n == body@.len(),
                    start <= j <= n,
                    forall|k: int| start <= k < j ==> body@[k] != q,
                ensures
                    start <= j <= n,
                    found ==> j < n && body@[j as int] == q,
                    forall|k: int| start <= k < j ==> body@[k] != q,
                    !found ==> j == n,
                decreases n - j,
            {
                if j >= n {
                    break;
                }
                if body.get_char(j) == q {
                    found = true;
                    break;
                }
                j = j + 1;
            }
            proof {
                lemma_find_close(body@, q, start as int);
                if found {
                    let fc = find_close(body@, q, start as int);
                    if fc < j {
                        assert(body@[fc] == q);
                    }
                    if fc > j {
                        assert(body@[j as int] != q);
                    }
                    assert(fc == j);
                } else {
                    let fc = find_close(body@, q, start as int);
                    if fc < n {
                        assert(body@[fc] == q);
                    }
                    assert(fc == n);
                }
            }
            if found {
                let href = body.substring_char(start, j).to_owned();
                let ghost pre = r@;
                r.push(href);
                proof {
                    assert(marker_at(body@, i as int));
                    assert(scan_hrefs(body@, i as int) == seq![
                        body@.subrange(i as int + 6, j as int),
                    ] + scan_hrefs(body@, j as int + 1));
                    assert(views_of(r@) =~= views_of(pre).push(href@));
                    assert(views_of(pre).push(href@) + scan_hrefs(body@, j as int + 1)
                        =~= views_of(pre) + (seq![body@.subrange(i as int + 6, j as int)]
                        + scan_hrefs(body@, j as int + 1)));
                }
                i = j + 1;
            } else {
                proof {
                    assert(marker_at(body@, i as int));
                    assert(scan_hrefs(body@, i as int) =~= Seq::<Seq<char>>::empty());
                    assert(views_of(r@) + Seq::<Seq<char>>::empty() =~= views_of(r@));
                }
                break;
            }
        }
    }
    r
}

} // verus!
