//! The generic scraping engine: decides which site configurations apply
//! to a URL, attempts full extraction per configuration in order, records
//! one error per failed configuration, and succeeds on the first
//! configuration that yields a complete record.
//!
//! Network work never happens here: when a configuration asks for an
//! external document, the session hands a fetch request out and is given
//! the fetched document (or the failure) back.

use vstd::prelude::*;
use crate::config::{MangaScraperConfig, FetchExternal, Chapter as ChapterConfig};
use crate::dom::Node;
use crate::error::ScrapeError;
use crate::model::{Manga, Chapter, ChapterNumber};
use crate::number::{numeral_spec, try_parse_number};
use crate::outside::{capture_named_of, regex_capture_named, url_join_of, url_join};
use crate::strutil::{replace_spec, replace_chars, to_chars, from_chars, lower_chars, digits_val,
    lower_seq, str_eq};
use crate::textpipe::{resolve_text, resolve_text_list};
use crate::date::try_parse_date;

verus! {

/// Whether a hostname stands in a hostname list.
pub open spec fn has_host(hostnames: Seq<String>, h: Seq<char>) -> bool {
    exists|i: int| 0 <= i < hostnames.len() && #[trigger] hostnames[i]@ == h
}

/// Hostname membership test.
pub fn host_list_contains(hostnames: &Vec<String>, h: &str) -> (r: bool)
    ensures
        r == has_host(hostnames@, h@),
{
    let mut i: usize = 0;
    while i < hostnames.len()
        invariant
            i <= hostnames@.len(),
            forall|j: int| 0 <= j < i ==> #[trigger] hostnames@[j]@ != h@,
        decreases hostnames@.len() - i,
    {
        if str_eq(hostnames[i].as_str(), h) {
            return true;
        }
        i = i + 1;
    }
    false
}

/// The fixed, case-insensitive status vocabulary that means "ongoing";
/// a missing status defaults to ongoing.
pub open spec fn is_ongoing_spec(status: Option<Seq<char>>) -> bool {
    match status {
        None => true,
        Some(s) => {
            let l = lower_seq(s);
            l == "ongoing"@ || l == "on-going"@ || l == "updating"@ || l == "live"@
        },
    }
}

/// Derives the ongoing flag from resolved status text.
pub fn manga_status(status: Option<&String>) -> (r: bool)
    ensures
        r == is_ongoing_spec(match status {
            Some(s) => Some(s@),
            None => None,
        }),
{
    match status {
        None => true,
        Some(s) => {
            let l = from_chars(&lower_chars(&to_chars(s.as_str())));
            str_eq(l.as_str(), "ongoing") || str_eq(l.as_str(), "on-going") || str_eq(
                l.as_str(),
                "updating",
            ) || str_eq(l.as_str(), "live")
        },
    }
}

/// A configuration applies when the hostname is declared, or any probe
/// selector matches the document.
pub fn config_accepts(config: &MangaScraperConfig, hostname: &str, doc: &Node) -> (r: bool)
    ensures
        has_host(config.accept.hostnames@, hostname@) ==> r,
{
    if host_list_contains(&config.accept.hostnames, hostname) {
        return true;
    }
    let mut i: usize = 0;
    while i < config.accept.selectors.len()
        invariant
            i <= config.accept.selectors@.len(),
        decreases config.accept.selectors@.len() - i,
    {
        if doc.probe(config.accept.selectors[i].as_str()) {
            return true;
        }
        i = i + 1;
    }
    false
}

/// The indices of the configurations that accept the URL, in
/// configuration list order.
pub fn accepted_config_indices(
    configs: &Vec<MangaScraperConfig>,
    hostname: &str,
    doc: &Node,
) -> (r: Vec<usize>)
    ensures
        forall|j: int| 0 <= j < r@.len() ==> #[trigger] r@[j] < configs@.len(),
        forall|j1: int, j2: int| 0 <= j1 < j2 < r@.len() ==> r@[j1] < r@[j2],
        forall|c: int|
            0 <= c < configs@.len() && has_host(configs@[c].accept.hostnames@, hostname@)
                ==> r@.contains(c as usize),
{
    let mut r: Vec<usize> = Vec::new();
    let mut i: usize = 0;
    while i < configs.len()
        invariant
            i <= configs@.len(),
            forall|j: int| 0 <= j < r@.len() ==> #[trigger] r@[j] < i,
            forall|j1: int, j2: int| 0 <= j1 < j2 < r@.len() ==> r@[j1] < r@[j2],
            forall|c: int|
                0 <= c < i && has_host(configs@[c].accept.hostnames@, hostname@) ==> r@.contains(
                    c as usize,
                ),
        decreases configs@.len() - i,
    {
        let ghost r0 = r@;
        if config_accepts(&configs[i], hostname, doc) {
            r.push(i);
            proof {
                assert forall|c: usize| r0.contains(c) implies r@.contains(c) by {
                    let idx = choose|idx: int| 0 <= idx < r0.len() && r0[idx] == c;
                    assert(r@[idx] == c);
                }
                assert(r@[r0.len() as int] == i);
                assert(r@.contains(i));
            }
        }
        i = i + 1;
    }
    r
}

/// HTTP method of an engine-issued request.
#[derive(Debug, Clone, PartialEq, Eq)]
pub enum HttpMethod {
    Get,
    Post,
}

/// A request the driver must perform; the parsed response document is
/// handed back to the session.
#[derive(Debug, Clone, PartialEq)]
pub struct FetchRequest {
    pub url: String,
    pub method: HttpMethod,
}

/// The method named by a redirection rule: `post`, or get for anything else.
pub open spec fn method_spec(m: Seq<char>) -> HttpMethod {
    if m == "post"@ {
        HttpMethod::Post
    } else {
        HttpMethod::Get
    }
}

/// The secondary URL of a redirection rule: the template with `{id}`,
/// `{host}` and `{url}` interpolated, resolved against the page URL.
pub open spec fn external_url_spec(
    template: Seq<char>,
    id: Seq<char>,
    host: Seq<char>,
    page_url: Seq<char>,
) -> Option<Seq<char>> {
    url_join_of(
        page_url,
        replace_spec(
            replace_spec(replace_spec(template, "{id}"@, id), "{host}"@, host),
            "{url}"@,
            page_url,
        ),
    )
}

/// The plan of one redirection rule over located identifier text: the
/// named capture is applied, interpolated and resolved; absent when the
/// capture does not match or the URL cannot be resolved.
pub open spec fn plan_spec(
    rule_regex: Seq<char>,
    rule_url: Seq<char>,
    rule_method: Seq<char>,
    page_url: Seq<char>,
    host: Seq<char>,
    text: Seq<char>,
) -> Option<(Seq<char>, HttpMethod)> {
    match capture_named_of(rule_regex, text, "id"@) {
        None => None,
        Some(id) => match external_url_spec(rule_url, id, host, page_url) {
            None => None,
            Some(u) => Some((u, method_spec(rule_method))),
        },
    }
}

/// Builds the fetch request of one rule from located identifier text.
pub fn plan_from_text(
    rule: &FetchExternal,
    page_url: &str,
    host: &str,
    text: &str,
) -> (r: Option<FetchRequest>)
    ensures
        match r {
            Some(req) => plan_spec(rule.regex@, rule.url@, rule.method@, page_url@, host@, text@)
                == Some((req.url@, req.method)),
            None => plan_spec(rule.regex@, rule.url@, rule.method@, page_url@, host@, text@)
                is None,
        },
{
    let id = match regex_capture_named(rule.regex.as_str(), text, "id") {
        Some(id) => id,
        None => {
            return None;
        },
    };
    proof {
        reveal_strlit("{id}");
        reveal_strlit("{host}");
        reveal_strlit("{url}");
    }
    let t1 = replace_chars(&to_chars(rule.url.as_str()), &to_chars("{id}"), &to_chars(id.as_str()));
    let t2 = replace_chars(&t1, &to_chars("{host}"), &to_chars(host));
    let t3 = replace_chars(&t2, &to_chars("{url}"), &to_chars(page_url));
    let target = from_chars(&t3);
    match url_join(page_url, target.as_str()) {
        Some(u) => {
            let method = if str_eq(rule.method.as_str(), "post") {
                HttpMethod::Post
            } else {
                HttpMethod::Get
            };
            Some(FetchRequest { url: u, method })
        },
        None => None,
    }
}

/// Whether a request is the plan of one of the redirection rules over
/// some located identifier text.
pub open spec fn planned_for(
    req: FetchRequest,
    rules: Seq<FetchExternal>,
    page_url: Seq<char>,
    host: Seq<char>,
) -> bool {
    exists|k: int, text: Seq<char>|
        0 <= k < rules.len() && #[trigger] plan_spec(
            rules[k].regex@,
            rules[k].url@,
            rules[k].method@,
            page_url,
            host,
            text,
        ) == Some((req.url@, req.method))
}

/// Walks the redirection rules in order: the first rule whose identifier
/// is located, captured and resolved yields the request; rule failures
/// are absorbed, never raised, and with no usable rule nothing is
/// requested — the caller keeps working on the original document.
pub fn plan_external_fetch(
    rules: &Vec<FetchExternal>,
    page_url: &str,
    host: &str,
    doc: &Node,
) -> (r: Option<FetchRequest>)
    ensures
        r matches Some(req) ==> planned_for(req, rules@, page_url@, host@),
{
    let mut i: usize = 0;
    while i < rules.len()
        invariant
            i <= rules@.len(),
        decreases rules@.len() - i,
    {
        let text = match resolve_text(&rules[i].id, doc) {
            Ok(Some(t)) => Some(t),
            _ => None,
        };
        if let Some(t) = text {
            if let Some(req) = plan_from_text(&rules[i], page_url, host, t.as_str()) {
                proof {
                    assert(plan_spec(
                        rules@[i as int].regex@,
                        rules@[i as int].url@,
                        rules@[i as int].method@,
                        page_url@,
                        host@,
                        t@,
                    ) == Some((req.url@, req.method)));
                }
                return Some(req);
            }
        }
        i = i + 1;
    }
    None
}

/// The whole part of a chapter number: the parsed numeral, or the
/// position fallback when nothing parses or the value does not fit.
pub open spec fn chapter_number_whole(text: Seq<char>, fallback: u64) -> u64 {
    match numeral_spec(text) {
        Some(parts) => if digits_val(parts.0) <= u64::MAX {
            digits_val(parts.0) as u64
        } else {
            fallback
        },
        None => fallback,
    }
}

/// Chapter fallback numbering: in a chapter list of length `m` where no
/// number text parses, the chapter at 0-based index `i` (document order)
/// receives the whole number `m - i`, turning a descending page listing
/// into ascending chapter numbers.
pub proof fn lemma_chapter_fallback_numbering(texts: Seq<Seq<char>>, m: int, i: int)
    requires
        0 <= i < m <= u64::MAX,
        texts.len() == m,
        forall|j: int| 0 <= j < m ==> #[trigger] numeral_spec(texts[j]) is None,
    ensures
        chapter_number_whole(texts[i], (m - i) as u64) == m - i,
{
}

/// Parses the chapter number from its text, with the position fallback.
pub fn chapter_number_from_text(text: &str, fallback: u64) -> (n: ChapterNumber)
    ensures
        n.whole == chapter_number_whole(text@, fallback),
        n.wf(),
        (match numeral_spec(text@) {
            Some(parts) => digits_val(parts.0) > u64::MAX,
            None => true,
        }) ==> n.frac@.len() == 0,
{
    match try_parse_number(text) {
        Some(n) => n,
        None => ChapterNumber::from_whole(fallback),
    }
}

/// Element-for-element agreement of two chapter lists.
pub open spec fn chapters_same(a: Seq<Chapter>, b: Seq<Chapter>) -> bool {
    a.len() == b.len() && forall|i: int| 0 <= i < a.len() ==> #[trigger] a[i].same_as(b[i])
}

/// Clones a chapter list, element for element.
fn clone_chapters(v: &Vec<Chapter>) -> (r: Vec<Chapter>)
    ensures
        chapters_same(r@, v@),
{
    let mut r: Vec<Chapter> = Vec::new();
    let mut i: usize = 0;
    while i < v.len()
        invariant
            i <= v@.len(),
            r@.len() == i,
            forall|j: int| 0 <= j < i ==> #[trigger] r@[j].same_as(v@[j]),
        decreases v@.len() - i,
    {
        r.push(v[i].clone());
        i = i + 1;
    }
    r
}

/// Clones a string list, element for element.
pub fn clone_strings(v: &Vec<String>) -> (r: Vec<String>)
    ensures
        r@ == v@,
{
    let mut r: Vec<String> = Vec::new();
    let mut i: usize = 0;
    while i < v.len()
        invariant
            i <= v@.len(),
            r@ == v@.subrange(0, i as int),
        decreases v@.len() - i,
    {
        r.push(v[i].clone());
        i = i + 1;
        proof {
            assert(r@ =~= v@.subrange(0, i as int));
        }
    }
    proof {
        assert(r@ =~= v@);
    }
    r
}

/// Fields gathered so far for one URL. Fields set by an earlier
/// configuration persist: a later configuration only fills the gaps.
pub struct PartialManga {
    pub title: Option<String>,
    pub description: Option<String>,
    pub cover_url: Option<String>,
    pub status: Option<String>,
    pub is_ongoing: Option<bool>,
    pub authors: Vec<String>,
    pub genres: Vec<String>,
    pub alternative_titles: Vec<String>,
    pub chapters: Option<Vec<Chapter>>,
}

impl PartialManga {
    pub fn empty() -> (r: PartialManga)
        ensures
            r.title is None,
            r.description is None,
            r.chapters is None,
            r.is_ongoing is None,
            r.cover_url is None,
            r.status is None,
    {
        PartialManga {
            title: None,
            description: None,
            cover_url: None,
            status: None,
            is_ongoing: None,
            authors: Vec::new(),
            genres: Vec::new(),
            alternative_titles: Vec::new(),
            chapters: None,
        }
    }
}

/// Builds the final record. A record is complete only with a title, a
/// description and a non-empty chapter list; anything less is a terminal
/// failure for the configuration, never a partially filled record.
pub fn build_manga(url: &String, partial: &PartialManga) -> (r: Result<Manga, ScrapeError>)
    ensures
        match r {
            Ok(m) => {
                &&& partial.title matches Some(t) && m.title == t
                &&& partial.description matches Some(d) && m.description == d
                &&& partial.chapters matches Some(cs) && chapters_same(m.chapters@, cs@)
                    && cs@.len() > 0
                &&& m.url == *url
                &&& m.cover_url == partial.cover_url
                &&& m.status == partial.status
                &&& m.is_ongoing == (match partial.is_ongoing {
                    Some(b) => b,
                    None => true,
                })
                &&& m.authors@ == partial.authors@
                &&& m.genres@ == partial.genres@
                &&& m.alternative_titles@ == partial.alternative_titles@
            },
            Err(e) => {
                &&& e is WebScrapingError
                &&& (partial.title is None || partial.description is None || partial.chapters
                    is None || (partial.chapters matches Some(cs) && cs@.len() == 0))
            },
        },
{
    let title = match &partial.title {
        Some(t) => t.clone(),
        None => {
            return Err(ScrapeError::WebScrapingError(String::from_str("missing manga title")));
        },
    };
    let description = match &partial.description {
        Some(d) => d.clone(),
        None => {
            return Err(
                ScrapeError::WebScrapingError(String::from_str("missing manga description")),
            );
        },
    };
    let chapters = match &partial.chapters {
        Some(cs) => {
            if cs.len() == 0 {
                return Err(ScrapeError::WebScrapingError(String::from_str("no chapters found")));
            }
            clone_chapters(cs)
        },
        None => {
            return Err(ScrapeError::WebScrapingError(String::from_str("no chapters found")));
        },
    };
    let cover_url = match &partial.cover_url {
        Some(c) => Some(c.clone()),
        None => None,
    };
    let status = match &partial.status {
        Some(s) => Some(s.clone()),
        None => None,
    };
    let is_ongoing = match partial.is_ongoing {
        Some(b) => b,
        None => true,
    };
    Ok(
        Manga {
            url: url.clone(),
            title,
            description,
            cover_url,
            status,
            is_ongoing,
            authors: clone_strings(&partial.authors),
            genres: clone_strings(&partial.genres),
            alternative_titles: clone_strings(&partial.alternative_titles),
            chapters,
        },
    )
}

/// A chapter as extraction builds it: a non-empty title, a well-formed
/// number, and a URL resolved against the page URL.
pub open spec fn chapter_structured(c: Chapter, page_url: Seq<char>) -> bool {
    &&& c.title@.len() > 0
    &&& c.number.wf()
    &&& exists|t: Seq<char>| #[trigger] url_join_of(page_url, t) == Some(c.url@)
}

pub open spec fn chapters_structured(cs: Seq<Chapter>, page_url: Seq<char>) -> bool {
    forall|i: int| 0 <= i < cs.len() ==> #[trigger] chapter_structured(cs[i], page_url)
}

/// Field-for-field agreement keeps the extraction structure.
proof fn lemma_structured_transfers(a: Seq<Chapter>, b: Seq<Chapter>, u: Seq<char>)
    requires
        chapters_same(a, b),
        chapters_structured(b, u),
    ensures
        chapters_structured(a, u),
{
    assert forall|i: int| 0 <= i < a.len() implies #[trigger] chapter_structured(a[i], u) by {
        assert(a[i].same_as(b[i]));
        assert(chapter_structured(b[i], u));
        let t = choose|t: Seq<char>| #[trigger] url_join_of(u, t) == Some(b[i].url@);
        assert(url_join_of(u, t) == Some(a[i].url@));
    }
}

/// Extracts the chapter list from a document: the first base selector
/// with matches locates the chapter nodes; per node, title and URL are
/// required, the number falls back to `total - index`, and an
/// unparseable date is absent, not an error.
pub fn extract_chapters(
    ccfg: &ChapterConfig,
    date_formats: &Vec<String>,
    page_url: &String,
    doc: &Node,
) -> (r: Result<Vec<Chapter>, ScrapeError>)
    ensures
        r matches Err(e) ==> (e is SelectorError || e is WebScrapingError || e is NotAValidURL),
        r matches Ok(chs) ==> chapters_structured(chs@, page_url@),
{
    let mut els: Option<crate::dom::Elements> = None;
    let mut i: usize = 0;
    while i < ccfg.base.selectors.len()
        decreases ccfg.base.selectors@.len() - i,
    {
        match doc.select(ccfg.base.selectors[i].selector.as_str()) {
            Ok(sel) => {
                let nonempty = sel.nodes.len() > 0;
                els = Some(sel);
                if nonempty {
                    i = ccfg.base.selectors.len();
                } else {
                    i = i + 1;
                }
            },
            Err(()) => {
                return Err(
                    ScrapeError::SelectorError(String::from_str("error in chapter base selector")),
                );
            },
        }
    }
    let els = match els {
        Some(e) => e,
        None => {
            return Err(
                ScrapeError::SelectorError(String::from_str("error in chapter base selector")),
            );
        },
    };
    let total = els.nodes.len();
    let mut chapters: Vec<Chapter> = Vec::new();
    let mut idx: usize = 0;
    while idx < total
        invariant
            total == els.nodes@.len(),
            idx <= total,
            chapters_structured(chapters@, page_url@),
        decreases total - idx,
    {
        let node = &els.nodes[idx];
        let title = match resolve_text(&ccfg.title, node) {
            Ok(Some(t)) => t,
            Ok(None) => {
                return Err(
                    ScrapeError::WebScrapingError(String::from_str("missing chapter title")),
                );
            },
            Err(e) => {
                return Err(e);
            },
        };
        let url_text = match resolve_text(&ccfg.url, node) {
            Ok(Some(t)) => t,
            Ok(None) => {
                return Err(ScrapeError::WebScrapingError(String::from_str("missing chapter url")));
            },
            Err(e) => {
                return Err(e);
            },
        };
        let url = match url_join(page_url.as_str(), url_text.as_str()) {
            Some(u) => u,
            None => {
                return Err(ScrapeError::NotAValidURL(url_text));
            },
        };
        let number_text = match &ccfg.number {
            Some(g) => match resolve_text(g, node) {
                Ok(Some(t)) => t,
                _ => title.clone(),
            },
            None => title.clone(),
        };
        let number = chapter_number_from_text(number_text.as_str(), (total - idx) as u64);
        let date = match &ccfg.date {
            Some(g) => match resolve_text(g, node) {
                Ok(Some(t)) => try_parse_date(t.as_str(), date_formats),
                _ => None,
            },
            None => None,
        };
        let ghost c0 = chapters@;
        chapters.push(Chapter { url, number, title, date });
        proof {
            assert(url_join_of(page_url@, url_text@) == Some(chapters@.last().url@));
            assert(chapter_structured(chapters@.last(), page_url@));
            assert(forall|j: int| 0 <= j < c0.len() ==> chapters@[j] == c0[j]);
        }
        idx = idx + 1;
    }
    Ok(chapters)
}

/// The terminal failure for a URL: with no recorded error no
/// configuration applied; otherwise the aggregate, one entry per
/// configuration that was tried and failed.
pub fn aggregate_failure(es: Vec<(String, ScrapeError)>, hostname: &String) -> (r: ScrapeError)
    ensures
        es@.len() == 0 ==> (r matches ScrapeError::WebsiteNotSupported(m) && m@
            == "No scrapers found for "@ + hostname@),
        es@.len() > 0 ==> (r matches ScrapeError::MultipleScrapingErrors(v) && v == es),
{
    if es.len() == 0 {
        let mut m = String::from_str("No scrapers found for ");
        m.append(hostname.as_str());
        ScrapeError::WebsiteNotSupported(m)
    } else {
        ScrapeError::MultipleScrapingErrors(es)
    }
}

/// The recorded failures, in order: the `j`-th entry is keyed by the
/// name of the `j`-th accepted configuration — one entry per
/// configuration tried and failed.
pub open spec fn errors_keyed(
    errors: Seq<(String, ScrapeError)>,
    configs: Seq<MangaScraperConfig>,
    accepted: Seq<usize>,
) -> bool {
    forall|j: int| #![trigger errors[j]]
        0 <= j < errors.len() ==> j < accepted.len() && accepted[j] < configs.len()
            && errors[j].0 == configs[accepted[j] as int].name
}

/// What the driver must do next: perform a fetch and hand the document
/// back, or stop with the final outcome.
pub enum EngineStep {
    Fetch(FetchRequest),
    Finished(Result<Manga, ScrapeError>),
}

/// One manga extraction in progress: the accepted configurations are
/// tried in order; fields accumulate across attempts; each failed
/// attempt records one error under its configuration's name.
pub struct MangaSession {
    pub configs: Vec<MangaScraperConfig>,
    pub url: String,
    pub hostname: String,
    pub doc: Node,
    pub accepted: Vec<usize>,
    pub pos: usize,
    pub awaiting_external: bool,
    pub partial: PartialManga,
    pub errors: Vec<(String, ScrapeError)>,
    pub done: bool,
}

impl MangaSession {
    /// Accepted indices point into the configuration list; the cursor
    /// stays within the accepted list; until the session ends, exactly
    /// one failure is recorded per configuration already tried, keyed by
    /// a configuration name; and every field gathered so far is
    /// well-formed (non-empty required text, chapters resolved against
    /// the session URL).
    pub open spec fn wf(&self) -> bool {
        &&& forall|j: int|
            0 <= j < self.accepted@.len() ==> #[trigger] self.accepted@[j] < self.configs@.len()
        &&& self.pos <= self.accepted@.len()
        &&& (self.awaiting_external ==> self.pos < self.accepted@.len())
        &&& errors_keyed(self.errors@, self.configs@, self.accepted@)
        &&& (!self.done ==> self.errors@.len() == self.pos)
        &&& (self.partial.title matches Some(t) ==> t@.len() > 0)
        &&& (self.partial.description matches Some(d) ==> d@.len() > 0)
        &&& (self.partial.chapters matches Some(cs) ==> chapters_structured(cs@, self.url@))
        &&& (self.partial.cover_url matches Some(c) ==> exists|t: Seq<char>|
            #[trigger] url_join_of(self.url@, t) == Some(c@))
        &&& (self.partial.status matches Some(st) ==> self.partial.is_ongoing == Some(
            is_ongoing_spec(Some(st@)),
        ))
        &&& (self.partial.status is None ==> self.partial.is_ongoing is None)
    }

    /// Opens a session over the already-fetched primary document.
    pub fn new(
        configs: Vec<MangaScraperConfig>,
        url: String,
        hostname: String,
        doc: Node,
    ) -> (r: MangaSession)
        ensures
            r.wf(),
            !r.done,
            !r.awaiting_external,
            r.errors@.len() == 0,
    {
        let accepted = accepted_config_indices(&configs, hostname.as_str(), &doc);
        MangaSession {
            configs,
            url,
            hostname,
            doc,
            accepted,
            pos: 0,
            awaiting_external: false,
            partial: PartialManga::empty(),
            errors: Vec::new(),
            done: false,
        }
    }

    /// Records the current configuration's failure under its name and
    /// moves to the next configuration.
    fn record_error(&mut self, e: ScrapeError)
        requires
            old(self).wf(),
            !old(self).done,
            old(self).pos < old(self).accepted@.len(),
        ensures
            final(self).wf(),
            final(self).pos == old(self).pos + 1,
            final(self).errors@.len() == old(self).errors@.len() + 1,
            final(self).errors@ == old(self).errors@.push(
                (
                    old(self).configs@[old(self).accepted@[old(self).pos as int] as int].name,
                    e,
                ),
            ),
            final(self).configs == old(self).configs,
            final(self).url == old(self).url,
            final(self).hostname == old(self).hostname,
            final(self).doc == old(self).doc,
            final(self).accepted == old(self).accepted,
            final(self).partial == old(self).partial,
            final(self).done == old(self).done,
            !final(self).awaiting_external,
    {
        let n: usize = self.accepted.len();
        let ci = self.accepted[self.pos];
        let name = self.configs[ci].name.clone();
        self.errors.push((name, e));
        proof {
            assert(self.pos < n);
        }
        self.pos = self.pos + 1;
        self.awaiting_external = false;
    }

    /// Resolves the manga-page fields of one configuration into the
    /// partial record: fields already present are kept; optional fields
    /// that do not resolve stay absent; a malformed selector or an
    /// unresolvable cover URL fails the attempt.
    fn attempt_fields(&mut self, ci: usize) -> (r: Result<(), ScrapeError>)
        requires
            old(self).wf(),
            ci < old(self).configs@.len(),
        ensures
            final(self).wf(),
            final(self).configs == old(self).configs,
            final(self).url == old(self).url,
            final(self).hostname == old(self).hostname,
            final(self).doc == old(self).doc,
            final(self).accepted == old(self).accepted,
            final(self).pos == old(self).pos,
            final(self).errors == old(self).errors,
            final(self).done == old(self).done,
            final(self).awaiting_external == old(self).awaiting_external,
            final(self).partial.chapters == old(self).partial.chapters,
            r matches Err(e) ==> (e is SelectorError || e is NotAValidURL),
    {
        // status, and the ongoing flag derived from it
        if self.partial.status.is_none() {
            if let Some(g) = &self.configs[ci].manga.status {
                match resolve_text(g, &self.doc) {
                    Ok(Some(s)) => {
                        self.partial.is_ongoing = Some(manga_status(Some(&s)));
                        self.partial.status = Some(s);
                    },
                    Ok(None) => {},
                    Err(e) => {
                        return Err(e);
                    },
                }
            }
        }
        // title
        if self.partial.title.is_none() {
            match resolve_text(&self.configs[ci].manga.title, &self.doc) {
                Ok(Some(t)) => {
                    self.partial.title = Some(t);
                },
                Ok(None) => {},
                Err(e) => {
                    return Err(e);
                },
            }
        }
        // description
        if self.partial.description.is_none() {
            match resolve_text(&self.configs[ci].manga.description, &self.doc) {
                Ok(Some(d)) => {
                    self.partial.description = Some(d);
                },
                Ok(None) => {},
                Err(e) => {
                    return Err(e);
                },
            }
        }
        // cover URL, resolved against the page URL
        if let Some(g) = &self.configs[ci].manga.cover_url {
            match resolve_text(g, &self.doc) {
                Ok(Some(c)) => {
                    match url_join(self.url.as_str(), c.as_str()) {
                        Some(u) => {
                            self.partial.cover_url = Some(u);
                        },
                        None => {
                            return Err(ScrapeError::NotAValidURL(c));
                        },
                    }
                },
                Ok(None) => {},
                Err(e) => {
                    return Err(e);
                },
            }
        }
        // authors, genres, alternative titles: resolved anew per attempt,
        // empty when the configuration declares no selector
        self.partial.authors = match &self.configs[ci].manga.authors {
            Some(g) => match resolve_text_list(g, &self.doc) {
                Ok(v) => v,
                Err(e) => {
                    return Err(e);
                },
            },
            None => Vec::new(),
        };
        self.partial.genres = match &self.configs[ci].manga.genres {
            Some(g) => match resolve_text_list(g, &self.doc) {
                Ok(v) => v,
                Err(e) => {
                    return Err(e);
                },
            },
            None => Vec::new(),
        };
        self.partial.alternative_titles = match &self.configs[ci].manga.alt_titles {
            Some(g) => match resolve_text_list(g, &self.doc) {
                Ok(v) => v,
                Err(e) => {
                    return Err(e);
                },
            },
            None => Vec::new(),
        };
        Ok(())
    }

    /// Extracts chapters from the given document when none are held yet,
    /// then builds; a failure records the error and moves on.
    fn finish_attempt(&mut self, ci: usize, chapter_doc: &Node) -> (r: Option<EngineStep>)
        requires
            old(self).wf(),
            !old(self).done,
            old(self).pos < old(self).accepted@.len(),
            ci < old(self).configs@.len(),
        ensures
            final(self).wf(),
            final(self).configs == old(self).configs,
            final(self).accepted == old(self).accepted,
            final(self).url == old(self).url,
            final(self).hostname == old(self).hostname,
            !final(self).awaiting_external,
            r is Some ==> final(self).done && final(self).pos == old(self).pos && final(self).errors == old(self).errors,
            r is None ==> (final(self).pos == old(self).pos + 1 && !final(self).done
                && final(self).errors@.len() == old(self).errors@.len() + 1),
            r matches Some(step) ==> (step matches EngineStep::Finished(Ok(m)) && m.url == final(self).url && m.title@.len() > 0 && m.description@.len() > 0 && m.chapters@.len() > 0
                && chapters_structured(m.chapters@, final(self).url@) && (m.cover_url matches Some(
                c,
            ) ==> exists|t: Seq<char>| #[trigger] url_join_of(final(self).url@, t) == Some(c@))
                && (m.status matches Some(st) ==> m.is_ongoing == is_ongoing_spec(Some(st@)))
                && (m.status is None ==> m.is_ongoing == true)),
    {
        self.awaiting_external = false;
        if self.partial.chapters.is_none() {
            match extract_chapters(
                &self.configs[ci].manga.chapter,
                &self.configs[ci].date_formats,
                &self.url,
                chapter_doc,
            ) {
                Ok(chs) => {
                    self.partial.chapters = Some(chs);
                },
                Err(e) => {
                    self.record_error(e);
                    return None;
                },
            }
        }
        match build_manga(&self.url, &self.partial) {
            Ok(m) => {
                proof {
                    if let Some(cs) = &self.partial.chapters {
                        lemma_structured_transfers(m.chapters@, cs@, self.url@);
                    }
                }
                self.done = true;
                Some(EngineStep::Finished(Ok(m)))
            },
            Err(e) => {
                self.record_error(e);
                None
            },
        }
    }

    /// Drives the session: called first with nothing, then once with the
    /// outcome of each requested fetch. Ends with the first fully
    /// successful configuration's record, or the aggregate failure.
    pub fn advance(&mut self, fetched: Option<Result<Node, ScrapeError>>) -> (r: EngineStep)
        requires
            old(self).wf(),
            !old(self).done,
            old(self).awaiting_external <==> fetched is Some,
        ensures
            final(self).wf(),
            final(self).url == old(self).url,
            final(self).hostname == old(self).hostname,
            final(self).configs == old(self).configs,
            final(self).accepted == old(self).accepted,
            r is Fetch ==> final(self).awaiting_external && !final(self).done,
            r is Finished ==> final(self).done,
            r matches EngineStep::Fetch(req) ==> planned_for(
                req,
                final(self).configs@[final(self).accepted@[final(self).pos as int] as int]
                    .manga.chapter.fetch_external@,
                final(self).url@,
                final(self).hostname@,
            ),
            r matches EngineStep::Finished(Ok(m)) ==> (m.url == final(self).url && m.title@.len()
                > 0 && m.description@.len() > 0 && m.chapters@.len() > 0 && chapters_structured(
                m.chapters@,
                final(self).url@,
            ) && (m.cover_url matches Some(c) ==> exists|t: Seq<char>| #[trigger] url_join_of(
                final(self).url@,
                t,
            ) == Some(c@)) && (m.status matches Some(st) ==> m.is_ongoing == is_ongoing_spec(
                Some(st@),
            )) && (m.status is None ==> m.is_ongoing == true) && final(self).pos < final(self).accepted@.len() && final(self).errors@.len() == final(self).pos),
            r matches EngineStep::Finished(Err(e)) ==> match e {
                ScrapeError::MultipleScrapingErrors(es) => es@.len() > 0 && es@.len() == final(self).accepted@.len() && errors_keyed(
                    es@,
                    final(self).configs@,
                    final(self).accepted@,
                ),
                ScrapeError::WebsiteNotSupported(m) => m@ == "No scrapers found for "@
                    + final(self).hostname@ && final(self).accepted@.len() == 0,
                _ => false,
            },
    {
        let ghost u0 = self.url;
        let ghost h0 = self.hostname;
        let ghost cf0 = self.configs;
        let ghost ac0 = self.accepted;
        if self.awaiting_external {
            let ci = self.accepted[self.pos];
            match fetched {
                Some(Ok(doc2)) => {
                    if let Some(step) = self.finish_attempt(ci, &doc2) {
                        return step;
                    }
                },
                Some(Err(e)) => {
                    self.record_error(e);
                    self.awaiting_external = false;
                },
                None => {
                    proof {
                        assert(false);
                    }
                },
            }
            self.awaiting_external = false;
        }
        while self.pos < self.accepted.len()
            invariant
                self.wf(),
                !self.done,
                !self.awaiting_external,
                self.url == u0,
                self.hostname == h0,
                self.configs == cf0,
                self.accepted == ac0,
                u0 == old(self).url,
                h0 == old(self).hostname,
                cf0 == old(self).configs,
                ac0 == old(self).accepted,
            decreases self.accepted@.len() - self.pos,
        {
            let ci = self.accepted[self.pos];
            match self.attempt_fields(ci) {
                Err(e) => {
                    self.record_error(e);
                },
                Ok(()) => {
                    let mut planned: Option<FetchRequest> = None;
                    if self.partial.chapters.is_none() {
                        planned = plan_external_fetch(
                            &self.configs[ci].manga.chapter.fetch_external,
                            self.url.as_str(),
                            self.hostname.as_str(),
                            &self.doc,
                        );
                    }
                    if let Some(req) = planned {
                        self.awaiting_external = true;
                        return EngineStep::Fetch(req);
                    }
                    let doc = self.doc.clone();
                    if let Some(step) = self.finish_attempt(ci, &doc) {
                        return step;
                    }
                },
            }
        }
        self.done = true;
        let mut es: Vec<(String, ScrapeError)> = Vec::new();
        core::mem::swap(&mut es, &mut self.errors);
        EngineStep::Finished(Err(aggregate_failure(es, &self.hostname)))
    }
}

/// What the driver must do next for an image-list extraction.
pub enum ImagesStep {
    Fetch(FetchRequest),
    Finished(Result<Vec<String>, ScrapeError>),
}

/// One chapter-image extraction in progress, over the accepted
/// configurations in order.
pub struct ImagesSession {
    pub configs: Vec<MangaScraperConfig>,
    pub url: String,
    pub hostname: String,
    pub doc: Node,
    pub accepted: Vec<usize>,
    pub pos: usize,
    pub awaiting_external: bool,
    pub errors: Vec<(String, ScrapeError)>,
    pub done: bool,
}

/// An image list as extraction builds it: every entry the resolution of
/// some extracted item against the page URL.
pub open spec fn images_structured(urls: Seq<String>, page_url: Seq<char>) -> bool {
    forall|i: int|
        0 <= i < urls.len() ==> exists|t: Seq<char>| #[trigger] url_join_of(page_url, t) == Some(
            #[trigger] urls[i]@,
        )
}

impl ImagesSession {
    /// As for the manga session: indices in range, the cursor within the
    /// accepted list, and exactly one name-keyed failure per
    /// configuration already tried.
    pub open spec fn wf(&self) -> bool {
        &&& forall|j: int|
            0 <= j < self.accepted@.len() ==> #[trigger] self.accepted@[j] < self.configs@.len()
        &&& self.pos <= self.accepted@.len()
        &&& (self.awaiting_external ==> self.pos < self.accepted@.len())
        &&& errors_keyed(self.errors@, self.configs@, self.accepted@)
        &&& (!self.done ==> self.errors@.len() == self.pos)
    }

    /// Opens a session over the already-fetched chapter page document.
    pub fn new(
        configs: Vec<MangaScraperConfig>,
        url: String,
        hostname: String,
        doc: Node,
    ) -> (r: ImagesSession)
        ensures
            r.wf(),
            !r.done,
            !r.awaiting_external,
            r.errors@.len() == 0,
    {
        let accepted = accepted_config_indices(&configs, hostname.as_str(), &doc);
        ImagesSession {
            configs,
            url,
            hostname,
            doc,
            accepted,
            pos: 0,
            awaiting_external: false,
            errors: Vec::new(),
            done: false,
        }
    }

    fn record_error(&mut self, e: ScrapeError)
        requires
            old(self).wf(),
            !old(self).done,
            old(self).pos < old(self).accepted@.len(),
        ensures
            final(self).wf(),
            final(self).pos == old(self).pos + 1,
            final(self).errors@.len() == old(self).errors@.len() + 1,
            final(self).errors@ == old(self).errors@.push(
                (
                    old(self).configs@[old(self).accepted@[old(self).pos as int] as int].name,
                    e,
                ),
            ),
            final(self).configs == old(self).configs,
            final(self).url == old(self).url,
            final(self).hostname == old(self).hostname,
            final(self).doc == old(self).doc,
            final(self).accepted == old(self).accepted,
            final(self).done == old(self).done,
            !final(self).awaiting_external,
    {
        let n: usize = self.accepted.len();
        let ci = self.accepted[self.pos];
        let name = self.configs[ci].name.clone();
        self.errors.push((name, e));
        proof {
            assert(self.pos < n);
        }
        self.pos = self.pos + 1;
        self.awaiting_external = false;
    }

    /// Resolves the image list from the given document and makes every
    /// entry absolute; a failure records the error and moves on.
    fn finish_attempt(&mut self, ci: usize, image_doc: &Node) -> (r: Option<ImagesStep>)
        requires
            old(self).wf(),
            !old(self).done,
            old(self).pos < old(self).accepted@.len(),
            ci < old(self).configs@.len(),
        ensures
            final(self).wf(),
            final(self).configs == old(self).configs,
            final(self).accepted == old(self).accepted,
            final(self).url == old(self).url,
            final(self).hostname == old(self).hostname,
            !final(self).awaiting_external,
            r is Some ==> final(self).done && final(self).pos == old(self).pos && final(self).errors == old(self).errors,
            r is None ==> (final(self).pos == old(self).pos + 1 && !final(self).done
                && final(self).errors@.len() == old(self).errors@.len() + 1),
            r matches Some(step) ==> (step matches ImagesStep::Finished(Ok(urls))
                && images_structured(urls@, final(self).url@)),
    {
        self.awaiting_external = false;
        let items = match resolve_text_list(&self.configs[ci].images.image_selector, image_doc) {
            Ok(items) => items,
            Err(e) => {
                self.record_error(e);
                return None;
            },
        };
        let mut urls: Vec<String> = Vec::new();
        let mut i: usize = 0;
        while i < items.len()
            invariant
                i <= items@.len(),
                self.wf(),
                self.pos == old(self).pos,
                self.pos < self.accepted@.len(),
                self.errors == old(self).errors,
                !self.done,
                self.configs == old(self).configs,
                self.accepted == old(self).accepted,
                self.url == old(self).url,
                self.hostname == old(self).hostname,
                !self.awaiting_external,
                images_structured(urls@, self.url@),
            decreases items@.len() - i,
        {
            match url_join(self.url.as_str(), items[i].as_str()) {
                Some(u) => {
                    let ghost u0 = urls@;
                    urls.push(u);
                    proof {
                        assert(url_join_of(self.url@, items@[i as int]@) == Some(
                            urls@.last()@,
                        ));
                        assert(forall|j: int| 0 <= j < u0.len() ==> urls@[j] == u0[j]);
                    }
                },
                None => {
                    let e = ScrapeError::NotAValidURL(items[i].clone());
                    self.record_error(e);
                    return None;
                },
            }
            i = i + 1;
        }
        self.done = true;
        Some(ImagesStep::Finished(Ok(urls)))
    }

    /// Drives the session, as `MangaSession::advance` does for manga.
    pub fn advance(&mut self, fetched: Option<Result<Node, ScrapeError>>) -> (r: ImagesStep)
        requires
            old(self).wf(),
            !old(self).done,
            old(self).awaiting_external <==> fetched is Some,
        ensures
            final(self).wf(),
            final(self).url == old(self).url,
            final(self).hostname == old(self).hostname,
            final(self).configs == old(self).configs,
            final(self).accepted == old(self).accepted,
            r is Fetch ==> final(self).awaiting_external && !final(self).done,
            r is Finished ==> final(self).done,
            r matches ImagesStep::Fetch(req) ==> planned_for(
                req,
                final(self).configs@[final(self).accepted@[final(self).pos as int] as int]
                    .images.fetch_external@,
                final(self).url@,
                final(self).hostname@,
            ),
            r matches ImagesStep::Finished(Ok(urls)) ==> (images_structured(
                urls@,
                final(self).url@,
            ) && final(self).pos < final(self).accepted@.len() && final(self).errors@.len()
                == final(self).pos),
            r matches ImagesStep::Finished(Err(e)) ==> match e {
                ScrapeError::MultipleScrapingErrors(es) => es@.len() > 0 && es@.len() == final(self).accepted@.len() && errors_keyed(
                    es@,
                    final(self).configs@,
                    final(self).accepted@,
                ),
                ScrapeError::WebsiteNotSupported(m) => m@ == "No scrapers found for "@
                    + final(self).hostname@ && final(self).accepted@.len() == 0,
                _ => false,
            },
    {
        let ghost u0 = self.url;
        let ghost h0 = self.hostname;
        let ghost cf0 = self.configs;
        let ghost ac0 = self.accepted;
        if self.awaiting_external {
            let ci = self.accepted[self.pos];
            match fetched {
                Some(Ok(doc2)) => {
                    if let Some(step) = self.finish_attempt(ci, &doc2) {
                        return step;
                    }
                },
                Some(Err(e)) => {
                    self.record_error(e);
                    self.awaiting_external = false;
                },
                None => {
                    proof {
                        assert(false);
                    }
                },
            }
            self.awaiting_external = false;
        }
        while self.pos < self.accepted.len()
            invariant
                self.wf(),
                !self.done,
                !self.awaiting_external,
                self.url == u0,
                self.hostname == h0,
                self.configs == cf0,
                self.accepted == ac0,
                u0 == old(self).url,
                h0 == old(self).hostname,
                cf0 == old(self).configs,
                ac0 == old(self).accepted,
            decreases self.accepted@.len() - self.pos,
        {
            let ci = self.accepted[self.pos];
            let planned = plan_external_fetch(
                &self.configs[ci].images.fetch_external,
                self.url.as_str(),
                self.hostname.as_str(),
                &self.doc,
            );
            if let Some(req) = planned {
                self.awaiting_external = true;
                return ImagesStep::Fetch(req);
            }
            let doc = self.doc.clone();
            if let Some(step) = self.finish_attempt(ci, &doc) {
                return step;
            }
        }
        self.done = true;
        let mut es: Vec<(String, ScrapeError)> = Vec::new();
        core::mem::swap(&mut es, &mut self.errors);
        ImagesStep::Finished(Err(aggregate_failure(es, &self.hostname)))
    }
}

} // verus!
