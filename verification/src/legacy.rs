//! The single-page extractor over the flat configuration shape: one
//! selector string per field, applied to an already-fetched document.
//! It predates the declarative selector groups and keeps their stricter
//! behaviour: status, cover and every chapter field are required.

use vstd::prelude::*;
use crate::dom::Node;
use crate::error::ScrapeError;
use crate::engine::{has_host, manga_status, is_ongoing_spec};
use crate::model::{Manga, Chapter, MangaConfig, ChapterExternalSelector};
use crate::number::try_parse_number;
use crate::outside::{capture_index_of, regex_capture_index, url_join_of, url_join, now_millis};
use crate::strutil::{replace_spec, replace_chars, to_chars, from_chars, trim_string, str_eq};
use crate::textpipe::explode_spec;
use crate::date::try_parse_date;

verus! {

/// The split pattern of the author/genre fallback: a single delimited
/// string is exploded on separator punctuation.
pub open spec fn legacy_split_pattern() -> Seq<char> {
    "\\s*[;:\\-,]\\s*"@
}

/// Whether a view stands among the strings.
pub open spec fn has_str(vs: Seq<String>, x: Seq<char>) -> bool {
    has_host(vs, x)
}

/// The deprecated single-string fallback for list fields: a lone string
/// is exploded on separator punctuation into distinct trimmed items; a
/// list of two or more strings is kept as it is.
pub fn parse_string_vec(texts: Vec<String>) -> (r: Vec<String>)
    ensures
        texts@.len() != 1 ==> r == texts,
        texts@.len() == 1 ==> {
            let parts = explode_spec(legacy_split_pattern(), texts@[0]@);
            &&& forall|x: Seq<char>| has_str(r@, x) <==> parts.contains(x)
            &&& forall|a: int, b: int| 0 <= a < b < r@.len() ==> r@[a]@ != r@[b]@
        },
{
    if texts.len() != 1 {
        return texts;
    }
    let parts = crate::textpipe::explode_item("\\s*[;:\\-,]\\s*", texts[0].as_str());
    let ghost pv = crate::strutil::str_views(parts@);
    let mut out: Vec<String> = Vec::new();
    let mut i: usize = 0;
    while i < parts.len()
        invariant
            i <= parts@.len(),
            pv == crate::strutil::str_views(parts@),
            forall|x: Seq<char>| has_str(out@, x) ==> pv.take(i as int).contains(x),
            forall|j: int| 0 <= j < i ==> has_str(out@, #[trigger] pv[j]),
            forall|a: int, b: int| 0 <= a < b < out@.len() ==> out@[a]@ != out@[b]@,
        decreases parts@.len() - i,
    {
        proof {
            assert(pv[i as int] == parts@[i as int]@);
        }
        let mut seen: bool = false;
        let mut j: usize = 0;
        while j < out.len()
            invariant
                i < parts@.len(),
                pv == crate::strutil::str_views(parts@),
                pv[i as int] == parts@[i as int]@,
                j <= out@.len(),
                seen == (exists|k: int| 0 <= k < j && #[trigger] out@[k]@ == pv[i as int]),
            decreases out@.len() - j,
        {
            if str_eq(out[j].as_str(), parts[i].as_str()) {
                proof {
                    assert(out@[j as int]@ == pv[i as int]);
                }
                seen = true;
                j = out.len();
            } else {
                j = j + 1;
            }
        }
        if !seen {
            let ghost o0 = out@;
            out.push(parts[i].clone());
            proof {
                assert(out@ =~= o0.push(parts@[i as int]));
                assert(out@[o0.len() as int]@ == pv[i as int]);
                assert(forall|k: int| 0 <= k < o0.len() ==> out@[k] == o0[k]);
                assert forall|x: Seq<char>| has_str(out@, x) implies pv.take(i + 1).contains(
                    x,
                ) by {
                    let w = choose|w: int| 0 <= w < out@.len() && #[trigger] out@[w]@ == x;
                    if w < o0.len() {
                        assert(has_str(o0, x));
                        let u = choose|u: int| 0 <= u < i && #[trigger] pv[u] == x;
                        assert(pv.take(i + 1)[u] == x);
                    } else {
                        assert(pv.take(i + 1)[i as int] == x);
                    }
                }
                assert forall|j2: int| 0 <= j2 < i + 1 implies has_str(
                    out@,
                    #[trigger] pv[j2],
                ) by {
                    if j2 < i {
                        assert(has_str(o0, pv[j2]));
                        let w = choose|w: int| 0 <= w < o0.len() && #[trigger] o0[w]@ == pv[j2];
                        assert(out@[w]@ == pv[j2]);
                    } else {
                        assert(out@[o0.len() as int]@ == pv[j2]);
                    }
                }
            }
        } else {
            proof {
                let k = choose|k: int| 0 <= k < out@.len() && #[trigger] out@[k]@ == pv[i as int];
                assert forall|x: Seq<char>| has_str(out@, x) implies pv.take(i + 1).contains(
                    x,
                ) by {
                    assert(pv.take(i as int).contains(x));
                    let u = choose|u: int| 0 <= u < i && #[trigger] pv.take(i as int)[u] == x;
                    assert(pv.take(i + 1)[u] == x);
                }
                assert forall|j2: int| 0 <= j2 < i + 1 implies has_str(
                    out@,
                    #[trigger] pv[j2],
                ) by {
                    if j2 == i {
                        assert(out@[k]@ == pv[j2]);
                    }
                }
            }
        }
        i = i + 1;
    }
    proof {
        assert(pv.take(pv.len() as int) =~= pv);
        assert forall|x: Seq<char>| has_str(out@, x) <==> pv.contains(x) by {
            if has_str(out@, x) {
                assert(pv.take(pv.len() as int).contains(x));
            }
            if pv.contains(x) {
                let u = choose|u: int| 0 <= u < pv.len() && #[trigger] pv[u] == x;
                assert(has_str(out@, pv[u]));
            }
        }
    }
    out
}

/// The secondary chapter-list URL of one redirection rule: the first
/// capture group applied to the located text, substituted into the URL
/// template and resolved against the page URL.
pub open spec fn legacy_external_url_spec(
    rule_regex: Seq<char>,
    rule_url: Seq<char>,
    page_url: Seq<char>,
    text: Seq<char>,
) -> Option<Option<Seq<char>>> {
    match capture_index_of(rule_regex, text, 1) {
        None => None,
        Some(id) => Some(url_join_of(page_url, replace_spec(rule_url, "{id}"@, id))),
    }
}

/// Computes the secondary chapter-list URL from located script text.
pub fn legacy_external_from_text(
    rule: &ChapterExternalSelector,
    page_url: &str,
    text: &str,
) -> (r: Result<Option<String>, ScrapeError>)
    ensures
        match legacy_external_url_spec(rule.regex@, rule.url@, page_url@, text@) {
            None => r matches Err(e) && e is WebScrapingError,
            Some(joined) => match joined {
                Some(u) => r matches Ok(Some(s)) && s@ == u,
                None => r matches Err(e) && e is NotAValidURL,
            },
        },
{
    let id = match regex_capture_index(rule.regex.as_str(), text, 1) {
        Some(id) => id,
        None => {
            return Err(ScrapeError::WebScrapingError(String::from_str("Script data not found")));
        },
    };
    proof {
        reveal_strlit("{id}");
    }
    let target = from_chars(
        &replace_chars(&to_chars(rule.url.as_str()), &to_chars("{id}"), &to_chars(id.as_str())),
    );
    match url_join(page_url, target.as_str()) {
        Some(u) => Ok(Some(u)),
        None => Err(ScrapeError::NotAValidURL(target)),
    }
}

/// Walks the redirection rules: the first rule whose selector locates a
/// node yields the secondary URL (or its failure); with none, nothing is
/// requested and the original document stands.
pub fn legacy_external_plan(
    rules: &Vec<ChapterExternalSelector>,
    page_url: &str,
    doc: &Node,
) -> (r: Result<Option<String>, ScrapeError>)
    ensures
        r matches Ok(Some(u)) ==> exists|k: int, text: Seq<char>|
            0 <= k < rules@.len() && #[trigger] legacy_external_url_spec(
                rules@[k].regex@,
                rules@[k].url@,
                page_url@,
                text,
            ) == Some(Some(u@)),
        r matches Err(e) ==> (e is SelectorError || e is WebScrapingError || e is NotAValidURL),
{
    let mut i: usize = 0;
    while i < rules.len()
        invariant
            i <= rules@.len(),
        decreases rules@.len() - i,
    {
        let els = match doc.select(rules[i].id.as_str()) {
            Ok(els) => els,
            Err(()) => {
                return Err(ScrapeError::SelectorError(rules[i].id.clone()));
            },
        };
        if els.nodes.len() > 0 {
            let text = els.nodes[0].text();
            let out = legacy_external_from_text(&rules[i], page_url, text.as_str());
            proof {
                if let Ok(Some(u)) = &out {
                    assert(legacy_external_url_spec(
                        rules@[i as int].regex@,
                        rules@[i as int].url@,
                        page_url@,
                        text@,
                    ) == Some(Some(u@)));
                }
            }
            return out;
        }
        i = i + 1;
    }
    Ok(None)
}

/// Selects with a field's selector and demands at least one node.
fn required_first(doc: &Node, selector: &String, what: &str) -> (r: Result<Node, ScrapeError>)
    ensures
        r matches Err(e) ==> (e is SelectorError || e is WebScrapingError),
{
    let els = match doc.select(selector.as_str()) {
        Ok(els) => els,
        Err(()) => {
            return Err(ScrapeError::SelectorError(selector.clone()));
        },
    };
    if els.nodes.len() == 0 {
        return Err(ScrapeError::WebScrapingError(what.to_owned()));
    }
    Ok(els.nodes[0].clone())
}

/// Extracts a full record from one already-fetched page with the flat
/// configuration: title, description, cover, status and every chapter
/// field are required; an unparseable chapter date falls back to the
/// current instant.
pub fn scrape_manga(
    config: &MangaConfig,
    url: &String,
    doc: &Node,
    chapter_doc: Option<&Node>,
) -> (r: Result<Manga, ScrapeError>)
    ensures
        r matches Ok(m) ==> m.url == url && m.cover_url is Some && (m.status matches Some(st)
            && m.is_ongoing == is_ongoing_spec(Some(st@))),
        r matches Err(e) ==> (e is SelectorError || e is WebScrapingError || e is NotAValidURL),
{
    let title_node = required_first(doc, &config.title_selector, "Title not found")?;
    let title = trim_string(title_node.text().as_str());
    let description_node = required_first(
        doc,
        &config.description_selector,
        "Description not found",
    )?;
    let description = trim_string(description_node.text().as_str());
    let cover_node = required_first(doc, &config.cover_url_selector, "Cover URL not found")?;
    let cover_url = match cover_node.own_attr("src") {
        Some(c) => trim_string(c.as_str()),
        None => {
            return Err(ScrapeError::WebScrapingError(String::from_str("Cover URL not found")));
        },
    };
    let status_node = required_first(doc, &config.status_selector, "Status not found")?;
    let status = trim_string(status_node.text().as_str());

    let authors = parse_string_vec(all_trimmed_texts(doc, &config.authors_selector)?);
    let genres = parse_string_vec(all_trimmed_texts(doc, &config.genres_selector)?);
    let alternative_titles = parse_string_vec(
        all_trimmed_texts(doc, &config.alternative_titles_selector)?,
    );

    let cdoc: &Node = match chapter_doc {
        Some(d) => d,
        None => doc,
    };
    let chapter_els = match cdoc.select(config.chapters_selector.as_str()) {
        Ok(els) => els,
        Err(()) => {
            return Err(ScrapeError::SelectorError(config.chapters_selector.clone()));
        },
    };
    let mut chapters: Vec<Chapter> = Vec::new();
    let mut i: usize = 0;
    while i < chapter_els.nodes.len()
        decreases chapter_els.nodes@.len() - i,
    {
        let e = &chapter_els.nodes[i];
        let title_el = required_first(e, &config.chapter_title_selector, "Chapter title not found")?;
        let ch_title = trim_string(title_el.text().as_str());
        let href_el = if str_eq(
            config.chapter_href_selector.as_str(),
            config.chapter_title_selector.as_str(),
        ) {
            title_el.clone()
        } else {
            required_first(e, &config.chapter_href_selector, "Chapter href not found")?
        };
        let href = match href_el.own_attr("href") {
            Some(h) => trim_string(h.as_str()),
            None => {
                return Err(
                    ScrapeError::WebScrapingError(String::from_str("Chapter href not found")),
                );
            },
        };
        let number_text = match e.select(config.chapter_number_selector.as_str()) {
            Ok(els) => {
                if els.nodes.len() > 0 {
                    trim_string(els.nodes[0].text().as_str())
                } else {
                    ch_title.clone()
                }
            },
            Err(()) => {
                return Err(ScrapeError::SelectorError(config.chapter_number_selector.clone()));
            },
        };
        let number = match try_parse_number(number_text.as_str()) {
            Some(n) => n,
            None => {
                return Err(
                    ScrapeError::WebScrapingError(String::from_str("Chapter number not found")),
                );
            },
        };
        let date_el = required_first(e, &config.chapter_date_selector, "Chapter date not found")?;
        let date_text = trim_string(date_el.text().as_str());
        let date = match try_parse_date(date_text.as_str(), &config.date_formats) {
            Some(d) => d,
            None => now_millis(),
        };
        chapters.push(Chapter { url: href, number, title: ch_title, date: Some(date) });
        i = i + 1;
    }

    let is_ongoing = manga_status(Some(&status));
    Ok(
        Manga {
            url: url.clone(),
            title,
            description,
            cover_url: Some(cover_url),
            status: Some(status),
            is_ongoing,
            authors,
            genres,
            alternative_titles,
            chapters,
        },
    )
}

/// The trimmed subtree text of every node the selector matches.
fn all_trimmed_texts(doc: &Node, selector: &String) -> (r: Result<Vec<String>, ScrapeError>)
    ensures
        r matches Err(e) ==> e is SelectorError,
{
    let els = match doc.select(selector.as_str()) {
        Ok(els) => els,
        Err(()) => {
            return Err(ScrapeError::SelectorError(selector.clone()));
        },
    };
    let mut out: Vec<String> = Vec::new();
    let mut i: usize = 0;
    while i < els.nodes.len()
        decreases els.nodes@.len() - i,
    {
        out.push(trim_string(els.nodes[i].text().as_str()));
        i = i + 1;
    }
    Ok(out)
}

} // verus!
