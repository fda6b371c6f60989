//! The scraper manager's decision logic: scrapers are tried in order,
//! the first success wins, search results federate across scrapers, and
//! the searchable hostname union is kept sorted for membership tests.
//!
//! The scrapers themselves perform network work; the driver runs them and
//! feeds each outcome into these folds.

use vstd::prelude::*;
use vstd::multiset::Multiset;
use crate::error::ScrapeError;
use crate::model::{Manga, SearchManga};
use crate::strutil::{lex_le, chars_le, to_chars, lemma_lex_total, lemma_lex_trans};

verus! {

/// First-success dispatch over an ordered scraper list: the first
/// scraper that produces a record wins; otherwise the last error stands,
/// or "website not supported" when no scraper even produced an error.
pub struct MangaDispatch {
    pub last_error: Option<ScrapeError>,
}

impl MangaDispatch {
    pub fn new() -> (r: MangaDispatch)
        ensures
            r.last_error is None,
    {
        MangaDispatch { last_error: None }
    }

    /// Feeds one scraper's outcome: a success ends the dispatch with
    /// exactly that record; a failure is kept as the last error.
    pub fn on_outcome(&mut self, outcome: Result<Manga, ScrapeError>) -> (r: Option<Manga>)
        ensures
            match outcome {
                Ok(m) => r == Some(m) && final(self).last_error == old(self).last_error,
                Err(e) => r is None && final(self).last_error == Some(e),
            },
    {
        match outcome {
            Ok(m) => Some(m),
            Err(e) => {
                self.last_error = Some(e);
                None
            },
        }
    }

    /// The terminal failure: the last error seen, or "website not
    /// supported" naming the URL when every scraper declined.
    pub fn finish(self, url: &String) -> (r: ScrapeError)
        ensures
            match self.last_error {
                Some(e) => r == e,
                None => r matches ScrapeError::WebsiteNotSupported(m) && m@ == url@,
            },
    {
        match self.last_error {
            Some(e) => e,
            None => ScrapeError::WebsiteNotSupported(url.clone()),
        }
    }
}

/// Search federation at the engine level: all successful result lists
/// are appended in order; any failure replaces the last error; success
/// is returned only when at least one result was produced.
pub struct EngineSearchFold {
    pub results: Vec<SearchManga>,
    pub last_error: Option<ScrapeError>,
}

impl EngineSearchFold {
    pub fn new() -> (r: EngineSearchFold)
        ensures
            r.results@.len() == 0,
            r.last_error is None,
    {
        EngineSearchFold { results: Vec::new(), last_error: None }
    }

    /// Feeds one search outcome: results append, errors replace the
    /// last error and drop nothing already gathered.
    pub fn on_outcome(&mut self, outcome: Result<Vec<SearchManga>, ScrapeError>)
        ensures
            match outcome {
                Ok(v) => final(self).results@ == old(self).results@ + v@ && final(self).last_error
                    == old(self).last_error,
                Err(e) => final(self).results == old(self).results && final(self).last_error
                    == Some(e),
            },
    {
        match outcome {
            Ok(mut v) => {
                self.results.append(&mut v);
            },
            Err(e) => {
                self.last_error = Some(e);
            },
        }
    }

    /// Success iff anything was found; otherwise the last error, or
    /// "search not supported" for the queried hostnames.
    pub fn finish(self, hostnames: &Vec<String>) -> (r: Result<Vec<SearchManga>, ScrapeError>)
        ensures
            self.results@.len() > 0 ==> (r matches Ok(v) && v == self.results),
            self.results@.len() == 0 ==> match self.last_error {
                Some(e) => r == Err::<Vec<SearchManga>, ScrapeError>(e),
                None => r matches Err(ScrapeError::SearchNotSupported(hs)) && hs@ == hostnames@,
            },
    {
        if self.results.len() > 0 {
            Ok(self.results)
        } else {
            match self.last_error {
                Some(e) => Err(e),
                None => Err(
                    ScrapeError::SearchNotSupported(crate::engine::clone_strings(hostnames)),
                ),
            }
        }
    }
}

/// Search federation at the manager level: results append across
/// scrapers; "search not supported" failures are not recorded; partial
/// success is success; with nothing gathered the last real error
/// surfaces, or the "search not supported" kind when no scraper
/// recognized any queried hostname.
pub struct SearchFederation {
    pub results: Vec<SearchManga>,
    pub last_error: Option<ScrapeError>,
}

impl SearchFederation {
    pub fn new() -> (r: SearchFederation)
        ensures
            r.results@.len() == 0,
            r.last_error is None,
    {
        SearchFederation { results: Vec::new(), last_error: None }
    }

    /// Feeds one scraper's search outcome for one hostname.
    pub fn on_outcome(&mut self, outcome: Result<Vec<SearchManga>, ScrapeError>)
        ensures
            match outcome {
                Ok(v) => final(self).results@ == old(self).results@ + v@ && final(self).last_error
                    == old(self).last_error,
                Err(e) => final(self).results == old(self).results && (if e
                    is SearchNotSupported {
                    final(self).last_error == old(self).last_error
                } else {
                    final(self).last_error == Some(e)
                }),
            },
    {
        match outcome {
            Ok(mut v) => {
                self.results.append(&mut v);
            },
            Err(e) => {
                if !e.is_search_not_supported() {
                    self.last_error = Some(e);
                }
            },
        }
    }

    /// Partial success across scrapers is success; only when no scraper
    /// produced any result is the last real error surfaced, and the
    /// "search not supported" kind when there is none to surface.
    pub fn finish(self, hostnames: &Vec<String>) -> (r: Result<Vec<SearchManga>, ScrapeError>)
        ensures
            self.results@.len() > 0 ==> (r matches Ok(v) && v == self.results),
            self.results@.len() == 0 ==> match self.last_error {
                Some(e) => r == Err::<Vec<SearchManga>, ScrapeError>(e),
                None => r matches Err(ScrapeError::SearchNotSupported(hs)) && hs@ == hostnames@,
            },
    {
        if self.results.len() > 0 {
            Ok(self.results)
        } else {
            match self.last_error {
                Some(e) => Err(e),
                None => Err(
                    ScrapeError::SearchNotSupported(crate::engine::clone_strings(hostnames)),
                ),
            }
        }
    }
}

/// Ascending lexicographic order over the string views.
pub open spec fn sorted_strs(s: Seq<String>) -> bool {
    forall|i: int, j: int| 0 <= i < j < s.len() ==> lex_le(#[trigger] s[i]@, #[trigger] s[j]@)
}

/// Sorts hostnames ascending; the result holds exactly the input
/// strings, sorted, so that membership tests can bisect.
pub fn sort_hostnames(v: Vec<String>) -> (r: Vec<String>)
    ensures
        sorted_strs(r@),
        r@.to_multiset() == v@.to_multiset(),
{
    broadcast use vstd::seq_lib::group_to_multiset_ensures;

    let mut r: Vec<String> = Vec::new();
    let mut i: usize = 0;
    proof {
        assert(v@.take(0) =~= Seq::<String>::empty());
        assert(Seq::<String>::empty().to_multiset() =~= Multiset::<String>::empty());
        assert(r@.to_multiset() =~= v@.take(0).to_multiset());
    }
    while i < v.len()
        invariant
            i <= v@.len(),
            sorted_strs(r@),
            r@.to_multiset() == v@.take(i as int).to_multiset(),
        decreases v@.len() - i,
    {
        let x = v[i].clone();
        let mut p: usize = 0;
        while p < r.len() && chars_le(&to_chars(r[p].as_str()), &to_chars(x.as_str()))
            invariant
                p <= r@.len(),
                forall|k: int| 0 <= k < p ==> lex_le(#[trigger] r@[k]@, x@),
            decreases r@.len() - p,
        {
            p = p + 1;
        }
        proof {
            if p < r@.len() {
                lemma_lex_total(r@[p as int]@, x@);
                assert(lex_le(x@, r@[p as int]@));
            }
        }
        let ghost r0 = r@;
        r.insert(p, x);
        proof {
            assert(r@ == r0.insert(p as int, v@[i as int]));
            vstd::seq_lib::to_multiset_insert(r0, p as int, v@[i as int]);
            assert(v@.take(i + 1) =~= v@.take(i as int).push(v@[i as int]));
            vstd::seq_lib::to_multiset_build(v@.take(i as int), v@[i as int]);
            assert(v@.take(i + 1).to_multiset() =~= v@.take(i as int).to_multiset().insert(
                v@[i as int],
            ));
            // sortedness of the extended list
            assert forall|a: int, b: int| 0 <= a < b < r@.len() implies lex_le(
                #[trigger] r@[a]@,
                #[trigger] r@[b]@,
            ) by {
                if a < p && b < p {
                    assert(r@[a]@ == r0[a]@ && r@[b]@ == r0[b]@);
                } else if a < p && b == p {
                    assert(r@[b]@ == v@[i as int]@);
                    assert(lex_le(r0[a]@, v@[i as int]@));
                } else if a < p && b > p {
                    assert(r@[a]@ == r0[a]@ && r@[b]@ == r0[b - 1]@);
                } else if a == p {
                    assert(r@[a]@ == v@[i as int]@ && r@[b]@ == r0[b - 1]@);
                    assert(lex_le(v@[i as int]@, r0[p as int]@));
                    if b - 1 > p {
                        lemma_lex_trans(v@[i as int]@, r0[p as int]@, r0[b - 1]@);
                    }
                } else {
                    assert(r@[a]@ == r0[a - 1]@ && r@[b]@ == r0[b - 1]@);
                }
            }
        }
        i = i + 1;
    }
    proof {
        assert(v@.take(v@.len() as int) =~= v@);
    }
    r
}

/// Whether a sorted hostname list holds the hostname.
pub fn hostname_listed(sorted: &Vec<String>, hostname: &str) -> (r: bool)
    ensures
        r == crate::engine::has_host(sorted@, hostname@),
{
    crate::engine::host_list_contains(sorted, hostname)
}

} // verus!
