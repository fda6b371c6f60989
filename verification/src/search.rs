//! Search support of the generic engine: building the search request for
//! a hostname and mapping the result page into search hits.

use vstd::prelude::*;
use crate::config::{MangaScraperConfig, SearchConfig, SearchSelectors};
use crate::dom::Node;
use crate::error::ScrapeError;
use crate::model::SearchManga;
use crate::engine::{has_host, host_list_contains};
use crate::outside::{url_parse_of, url_parse, url_join, url_join_of};
use crate::strutil::{replace_spec, replace_chars, to_chars, from_chars, starts_with_seq,
    chars_start_with};
use crate::textpipe::{cleanup_fold, apply_cleanups, resolve_text};
use crate::date::try_parse_date;

verus! {

/// The first search sub-configuration declaring the hostname.
pub fn find_search_config(config: &MangaScraperConfig, hostname: &str) -> (r: Option<usize>)
    ensures
        match r {
            Some(i) => i < config.search@.len() && has_host(
                config.search@[i as int].hostnames@,
                hostname@,
            ),
            None => forall|j: int|
                0 <= j < config.search@.len() ==> !has_host(
                    #[trigger] config.search@[j].hostnames@,
                    hostname@,
                ),
        },
{
    let mut i: usize = 0;
    while i < config.search.len()
        invariant
            i <= config.search@.len(),
            forall|j: int|
                0 <= j < i ==> !has_host(#[trigger] config.search@[j].hostnames@, hostname@),
        decreases config.search@.len() - i,
    {
        if host_list_contains(&config.search[i].hostnames, hostname) {
            return Some(i);
        }
        i = i + 1;
    }
    None
}

/// The search URL before parsing: the template with `{hostname}` and
/// `{query}` interpolated, given an `https` scheme when no scheme-like
/// prefix is present.
pub open spec fn search_url_spec(
    template: Seq<char>,
    hostname: Seq<char>,
    query: Seq<char>,
) -> Seq<char> {
    let u = replace_spec(replace_spec(template, "{hostname}"@, hostname), "{query}"@, query);
    if starts_with_seq(u, "http"@) {
        u
    } else {
        "https://"@ + u
    }
}

/// Builds the search request URL for one search sub-configuration: the
/// query is transformed by the declared substitutions in order, the URL
/// template is interpolated, and the result must parse as a URL.
pub fn build_search_url(sc: &SearchConfig, hostname: &str, query: &str) -> (r: Result<
    String,
    ScrapeError,
>)
    ensures
        ({
            let target = search_url_spec(
                sc.search_url@,
                hostname@,
                cleanup_fold(sc.query_format@, query@),
            );
            match r {
                Ok(u) => url_parse_of(target) == Some(u@),
                Err(e) => url_parse_of(target) is None && e is NotAValidURL,
            }
        }),
{
    let q = apply_cleanups(&sc.query_format, query);
    proof {
        reveal_strlit("{hostname}");
        reveal_strlit("{query}");
    }
    let t1 = replace_chars(
        &to_chars(sc.search_url.as_str()),
        &to_chars("{hostname}"),
        &to_chars(hostname),
    );
    let t2 = replace_chars(&t1, &to_chars("{query}"), &to_chars(q.as_str()));
    let candidate = if chars_start_with(&t2, &to_chars("http")) {
        from_chars(&t2)
    } else {
        let mut s = String::from_str("https://");
        s.append(from_chars(&t2).as_str());
        s
    };
    match url_parse(candidate.as_str()) {
        Some(u) => Ok(u),
        None => Err(ScrapeError::NotAValidURL(candidate)),
    }
}

/// A search hit as extraction builds it: a non-empty title, and every
/// URL resolved against the search page URL.
pub open spec fn result_structured(m: SearchManga, page_url: Seq<char>) -> bool {
    &&& m.title@.len() > 0
    &&& exists|t: Seq<char>| #[trigger] url_join_of(page_url, t) == Some(m.url@)
    &&& (m.cover_url matches Some(c) ==> exists|t: Seq<char>| #[trigger] url_join_of(page_url, t)
        == Some(c@))
}

/// Maps each result node of the fetched search page into a search hit:
/// URL and title are required; cover and posting date are best-effort.
pub fn extract_search_results(
    sel: &SearchSelectors,
    date_formats: &Vec<String>,
    search_url: &String,
    doc: &Node,
) -> (r: Result<Vec<SearchManga>, ScrapeError>)
    ensures
        r matches Err(e) ==> (e is SelectorError || e is WebScrapingError || e is NotAValidURL),
        r matches Ok(rs) ==> forall|i: int|
            0 <= i < rs@.len() ==> #[trigger] result_structured(rs@[i], search_url@),
{
    let mut els: Option<crate::dom::Elements> = None;
    let mut i: usize = 0;
    while i < sel.base.selectors.len()
        decreases sel.base.selectors@.len() - i,
    {
        match doc.select(sel.base.selectors[i].selector.as_str()) {
            Ok(s) => {
                let nonempty = s.nodes.len() > 0;
                els = Some(s);
                if nonempty {
                    i = sel.base.selectors.len();
                } else {
                    i = i + 1;
                }
            },
            Err(()) => {
                return Err(
                    ScrapeError::SelectorError(String::from_str("error in search base selector")),
                );
            },
        }
    }
    let els = match els {
        Some(e) => e,
        None => {
            return Err(
                ScrapeError::SelectorError(String::from_str("error in search base selector")),
            );
        },
    };
    let mut out: Vec<SearchManga> = Vec::new();
    let mut k: usize = 0;
    while k < els.nodes.len()
        invariant
            forall|i: int| 0 <= i < out@.len() ==> #[trigger] result_structured(
                out@[i],
                search_url@,
            ),
        decreases els.nodes@.len() - k,
    {
        let node = &els.nodes[k];
        let url_text = match resolve_text(&sel.url, node) {
            Ok(Some(t)) => t,
            Ok(None) => {
                return Err(ScrapeError::WebScrapingError(String::from_str("missing result url")));
            },
            Err(e) => {
                return Err(e);
            },
        };
        let url = match url_join(search_url.as_str(), url_text.as_str()) {
            Some(u) => u,
            None => {
                return Err(ScrapeError::NotAValidURL(url_text));
            },
        };
        let title = match resolve_text(&sel.title, node) {
            Ok(Some(t)) => t,
            Ok(None) => {
                return Err(
                    ScrapeError::WebScrapingError(String::from_str("missing result title")),
                );
            },
            Err(e) => {
                return Err(e);
            },
        };
        let cover_url = match &sel.cover_url {
            Some(g) => match resolve_text(g, node) {
                Ok(Some(c)) => url_join(search_url.as_str(), c.as_str()),
                _ => None,
            },
            None => None,
        };
        let posted = match &sel.posted {
            Some(g) => match resolve_text(g, node) {
                Ok(Some(t)) => try_parse_date(t.as_str(), date_formats),
                _ => None,
            },
            None => None,
        };
        let ghost o0 = out@;
        out.push(SearchManga { url, title, cover_url, posted });
        proof {
            assert(url_join_of(search_url@, url_text@) == Some(out@.last().url@));
            assert(result_structured(out@.last(), search_url@));
            assert(forall|j: int| 0 <= j < o0.len() ==> out@[j] == o0[j]);
        }
        k = k + 1;
    }
    Ok(out)
}

} // verus!
