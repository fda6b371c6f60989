use kuchiki::traits::TendrilSink;
use manga_parser::config::{
    Accept, ArraySelectors, Chapter as ChapterConfig, FetchExternal, FixCapitalization, Images,
    Manga as MangaSelectors, MangaScraperConfig, StringSelection, StringSelector,
    StringSelectorOptions, StringSelectors,
};
use manga_parser::dom::Node;
use manga_parser::engine::{EngineStep, HttpMethod, MangaSession};
use manga_parser::error::ScrapeError;

fn doc(html: &str) -> Node {
    Node { raw: kuchiki::parse_html().one(html) }
}

fn sel(css: &str) -> StringSelectors {
    StringSelectors {
        selectors: vec![StringSelector {
            selector: css.to_string(),
            options: StringSelectorOptions {
                cleanup: vec![],
                fix_capitalization: FixCapitalization::Skip,
                text_selection: StringSelection::AllText { join_with: " ".to_string() },
            },
        }],
    }
}

fn attr_sel(css: &str, attr: &str) -> StringSelectors {
    StringSelectors {
        selectors: vec![StringSelector {
            selector: css.to_string(),
            options: StringSelectorOptions {
                cleanup: vec![],
                fix_capitalization: FixCapitalization::Skip,
                text_selection: StringSelection::Attributes(vec![attr.to_string()]),
            },
        }],
    }
}

fn base_config(name: &str, hostname: &str, fetch_external: Vec<FetchExternal>) -> MangaScraperConfig {
    MangaScraperConfig {
        name: name.to_string(),
        accept: Accept { selectors: vec![], hostnames: vec![hostname.to_string()] },
        manga: MangaSelectors {
            title: sel("h1.title"),
            description: sel("p.desc"),
            cover_url: None,
            status: Some(sel("span.status")),
            authors: None,
            genres: None,
            alt_titles: None,
            chapter: ChapterConfig {
                base: sel("li.ch"),
                title: sel("a"),
                number: None,
                date: None,
                url: attr_sel("a", "href"),
                fetch_external,
            },
        },
        images: Images {
            image_selector: ArraySelectors { selectors: vec![] },
            fetch_external: vec![],
        },
        search: vec![],
        date_formats: vec![],
    }
}

#[test]
fn chapter_fallback_numbering_counts_down() {
    // M chapters without parsable number text: index i gets number M - i
    let page = "<html><body>\
        <h1 class=\"title\">A Story</h1>\
        <p class=\"desc\">Words.</p>\
        <span class=\"status\">Ongoing</span>\
        <ul>\
        <li class=\"ch\"><a href=\"/c/alpha\">Alpha</a></li>\
        <li class=\"ch\"><a href=\"/c/beta\">Beta</a></li>\
        <li class=\"ch\"><a href=\"/c/gamma\">Gamma</a></li>\
        </ul></body></html>";
    let configs = vec![base_config("site", "example.org", vec![])];
    let mut session = MangaSession::new(
        configs,
        "https://example.org/m/a-story".to_string(),
        "example.org".to_string(),
        doc(page),
    );
    let manga = match session.advance(None) {
        EngineStep::Finished(Ok(m)) => m,
        other => panic!("expected a finished record, got {:?}", step_name(&other)),
    };
    assert_eq!(manga.title, "A Story");
    assert_eq!(manga.description, "Words.");
    assert_eq!(manga.status.as_deref(), Some("Ongoing"));
    assert!(manga.is_ongoing);
    assert_eq!(manga.chapters.len(), 3);
    assert_eq!(manga.chapters[0].number.whole, 3);
    assert_eq!(manga.chapters[1].number.whole, 2);
    assert_eq!(manga.chapters[2].number.whole, 1);
    assert_eq!(manga.chapters[0].url, "https://example.org/c/alpha");
    assert_eq!(manga.chapters[1].title, "Beta");
}

fn step_name(step: &EngineStep) -> &'static str {
    match step {
        EngineStep::Fetch(_) => "fetch",
        EngineStep::Finished(Ok(_)) => "ok",
        EngineStep::Finished(Err(_)) => "err",
    }
}

#[test]
fn aggregate_error_keyed_by_config_names() {
    // two configs accept the URL; both fail on the required title; the
    // aggregate holds exactly two entries keyed by the two config names
    let page = "<html><body><p>nothing here</p></body></html>";
    let configs = vec![
        base_config("first-config", "example.org", vec![]),
        base_config("second-config", "example.org", vec![]),
    ];
    let mut session = MangaSession::new(
        configs,
        "https://example.org/m/x".to_string(),
        "example.org".to_string(),
        doc(page),
    );
    match session.advance(None) {
        EngineStep::Finished(Err(ScrapeError::MultipleScrapingErrors(entries))) => {
            assert_eq!(entries.len(), 2);
            assert_eq!(entries[0].0, "first-config");
            assert_eq!(entries[1].0, "second-config");
        },
        other => panic!("expected the aggregate error, got {:?}", step_name(&other)),
    }
}

#[test]
fn malformed_selector_is_a_distinct_error() {
    let page = "<html><body><h1>T</h1></body></html>";
    let group = sel("p..[");
    match manga_parser::textpipe::resolve_text(&group, &doc(page)) {
        Err(ScrapeError::SelectorError(s)) => assert_eq!(s, "p..["),
        other => panic!("expected the selector error, got ok={}", other.is_ok()),
    }
}

#[test]
fn no_accepting_config_is_website_not_supported() {
    let page = "<html><body></body></html>";
    let configs = vec![base_config("site", "elsewhere.net", vec![])];
    let mut session = MangaSession::new(
        configs,
        "https://example.org/m/x".to_string(),
        "example.org".to_string(),
        doc(page),
    );
    match session.advance(None) {
        EngineStep::Finished(Err(ScrapeError::WebsiteNotSupported(m))) => {
            assert_eq!(m, "No scrapers found for example.org");
        },
        other => panic!("expected website-not-supported, got {:?}", step_name(&other)),
    }
}

#[test]
fn external_fetch_redirects_chapter_extraction() {
    // the primary page has no chapter nodes, but embeds an identifier;
    // the rule captures it, the secondary document provides the chapters
    let page = "<html><body>\
        <h1 class=\"title\">A Story</h1>\
        <p class=\"desc\">Words.</p>\
        <span class=\"status\">Completed</span>\
        <script class=\"data\">load_chapters(\"abc123\");</script>\
        </body></html>";
    let secondary = "<html><body><ul>\
        <li class=\"ch\"><a href=\"/c/one\">Chapter 1</a></li>\
        <li class=\"ch\"><a href=\"/c/two\">Chapter 2</a></li>\
        </ul></body></html>";
    let rule = FetchExternal {
        id: sel("script.data"),
        regex: "load_chapters\\(\"(?P<id>[a-z0-9]+)\"\\)".to_string(),
        url: "/ajax/chapters/{id}".to_string(),
        method: "post".to_string(),
    };
    let configs = vec![base_config("site", "example.org", vec![rule])];
    let mut session = MangaSession::new(
        configs,
        "https://example.org/m/a-story".to_string(),
        "example.org".to_string(),
        doc(page),
    );
    let request = match session.advance(None) {
        EngineStep::Fetch(req) => req,
        other => panic!("expected a fetch request, got {:?}", step_name(&other)),
    };
    assert_eq!(request.url, "https://example.org/ajax/chapters/abc123");
    assert_eq!(request.method, HttpMethod::Post);

    let manga = match session.advance(Some(Ok(doc(secondary)))) {
        EngineStep::Finished(Ok(m)) => m,
        other => panic!("expected a finished record, got {:?}", step_name(&other)),
    };
    assert_eq!(manga.chapters.len(), 2);
    assert_eq!(manga.chapters[0].title, "Chapter 1");
    assert_eq!(manga.chapters[0].number.whole, 1);
    assert_eq!(manga.chapters[1].number.whole, 2);
    assert_eq!(manga.chapters[0].url, "https://example.org/c/one");
    assert!(!manga.is_ongoing);
}

#[test]
fn failed_external_fetch_fails_that_config() {
    let page = "<html><body>\
        <h1 class=\"title\">A Story</h1>\
        <p class=\"desc\">Words.</p>\
        <script class=\"data\">load_chapters(\"abc123\");</script>\
        </body></html>";
    let rule = FetchExternal {
        id: sel("script.data"),
        regex: "load_chapters\\(\"(?P<id>[a-z0-9]+)\"\\)".to_string(),
        url: "/ajax/chapters/{id}".to_string(),
        method: "get".to_string(),
    };
    let configs = vec![base_config("only", "example.org", vec![rule])];
    let mut session = MangaSession::new(
        configs,
        "https://example.org/m/a-story".to_string(),
        "example.org".to_string(),
        doc(page),
    );
    match session.advance(None) {
        EngineStep::Fetch(_) => {},
        other => panic!("expected a fetch request, got {:?}", step_name(&other)),
    }
    match session.advance(Some(Err(ScrapeError::TransportError("timed out".to_string())))) {
        EngineStep::Finished(Err(ScrapeError::MultipleScrapingErrors(entries))) => {
            assert_eq!(entries.len(), 1);
            assert_eq!(entries[0].0, "only");
            assert!(matches!(entries[0].1, ScrapeError::TransportError(_)));
        },
        other => panic!("expected the aggregate error, got {:?}", step_name(&other)),
    }
}
