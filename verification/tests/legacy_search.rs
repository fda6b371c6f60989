use kuchiki::traits::TendrilSink;
use manga_parser::config::{
    CleanupOption, FixCapitalization, SearchConfig, SearchSelectors, StringSelection,
    StringSelector, StringSelectorOptions, StringSelectors,
};
use manga_parser::dom::Node;
use manga_parser::error::ScrapeError;
use manga_parser::legacy::{legacy_external_plan, scrape_manga};
use manga_parser::model::{ChapterExternalSelector, MangaConfig};
use manga_parser::search::{build_search_url, extract_search_results, find_search_config};

fn doc(html: &str) -> Node {
    Node { raw: kuchiki::parse_html().one(html) }
}

fn sel(css: &str) -> StringSelectors {
    StringSelectors {
        selectors: vec![StringSelector {
            selector: css.to_string(),
            options: StringSelectorOptions {
                cleanup: vec![],
                fix_capitalization: FixCapitalization::Skip,
                text_selection: StringSelection::AllText { join_with: " ".to_string() },
            },
        }],
    }
}

fn attr_sel(css: &str, attr: &str) -> StringSelectors {
    StringSelectors {
        selectors: vec![StringSelector {
            selector: css.to_string(),
            options: StringSelectorOptions {
                cleanup: vec![],
                fix_capitalization: FixCapitalization::Skip,
                text_selection: StringSelection::Attributes(vec![attr.to_string()]),
            },
        }],
    }
}

fn flat_config() -> MangaConfig {
    MangaConfig {
        title_selector: "h1.t".to_string(),
        description_selector: "p.d".to_string(),
        cover_url_selector: "img.c".to_string(),
        status_selector: "span.s".to_string(),
        authors_selector: "div.a".to_string(),
        genres_selector: "div.g".to_string(),
        alternative_titles_selector: "div.alt".to_string(),
        chapters_selector: "li.ch".to_string(),
        chapter_number_selector: "span.n".to_string(),
        chapter_title_selector: "a".to_string(),
        chapter_date_selector: "span.when".to_string(),
        chapter_href_selector: "a".to_string(),
        date_formats: vec![],
        chapter_external_selectors: vec![],
    }
}

#[test]
fn legacy_extraction_from_one_page() {
    let page = "<html><body>\
        <h1 class=\"t\">The Story</h1>\
        <p class=\"d\">A description.</p>\
        <img class=\"c\" src=\"/covers/1.jpg\"/>\
        <span class=\"s\">Ongoing</span>\
        <div class=\"a\">Alice; Bob</div>\
        <div class=\"g\">Action, Drama</div>\
        <div class=\"alt\">Alt One</div>\
        <ul>\
        <li class=\"ch\"><a href=\"/c/2\">Beta</a><span class=\"n\">Ch. 2</span>\
            <span class=\"when\">2 days ago</span></li>\
        <li class=\"ch\"><a href=\"/c/1\">Alpha</a><span class=\"n\">Ch. 1</span>\
            <span class=\"when\">3 days ago</span></li>\
        </ul></body></html>";
    let url = "https://example.org/m/the-story".to_string();
    let manga = scrape_manga(&flat_config(), &url, &doc(page), None).unwrap();
    assert_eq!(manga.title, "The Story");
    assert_eq!(manga.description, "A description.");
    assert_eq!(manga.cover_url.as_deref(), Some("/covers/1.jpg"));
    assert_eq!(manga.status.as_deref(), Some("Ongoing"));
    assert!(manga.is_ongoing);
    assert_eq!(manga.authors.len(), 2);
    assert!(manga.authors.contains(&"Alice".to_string()));
    assert!(manga.authors.contains(&"Bob".to_string()));
    assert_eq!(manga.chapters.len(), 2);
    assert_eq!(manga.chapters[0].number.whole, 2);
    assert_eq!(manga.chapters[1].number.whole, 1);
    assert_eq!(manga.chapters[0].url, "/c/2");
    assert!(manga.chapters[0].date.is_some());
}

#[test]
fn legacy_requires_a_chapter_number() {
    let page = "<html><body>\
        <h1 class=\"t\">T</h1><p class=\"d\">D</p>\
        <img class=\"c\" src=\"x.jpg\"/><span class=\"s\">Done</span>\
        <ul><li class=\"ch\"><a href=\"/c/1\">No numeral</a>\
        <span class=\"when\">today</span></li></ul></body></html>";
    let url = "https://example.org/m/t".to_string();
    match scrape_manga(&flat_config(), &url, &doc(page), None) {
        Err(ScrapeError::WebScrapingError(m)) => assert_eq!(m, "Chapter number not found"),
        other => panic!("expected the chapter number failure, got {}", other.is_ok()),
    }
}

#[test]
fn legacy_external_plan_builds_secondary_url() {
    let page = "<html><body>\
        <script class=\"data\">var mangaId = 777;</script>\
        </body></html>";
    let rules = vec![ChapterExternalSelector {
        id: "script.data".to_string(),
        regex: "mangaId = (\\d+)".to_string(),
        url: "/ajax/{id}/chapters".to_string(),
    }];
    let planned = legacy_external_plan(&rules, "https://example.org/m/t", &doc(page)).unwrap();
    assert_eq!(planned.as_deref(), Some("https://example.org/ajax/777/chapters"));

    // with no rule matching a node, the original document stands
    let planned = legacy_external_plan(&rules, "https://example.org/m/t", &doc("<p></p>")).unwrap();
    assert!(planned.is_none());
}

#[test]
fn search_request_and_result_extraction() {
    let sc = SearchConfig {
        hostnames: vec!["example.org".to_string()],
        search_url: "{hostname}/search?q={query}".to_string(),
        query_format: vec![CleanupOption {
            replace_regex: " ".to_string(),
            replace_with: "+".to_string(),
        }],
        selectors: SearchSelectors {
            base: sel("div.hit"),
            url: attr_sel("a", "href"),
            title: sel("a"),
            cover_url: None,
            posted: Some(sel("span.when")),
        },
    };
    let url = build_search_url(&sc, "example.org", "magic sword").unwrap();
    assert_eq!(url, "https://example.org/search?q=magic+sword");

    let page = "<html><body>\
        <div class=\"hit\"><a href=\"/m/one\">One</a><span class=\"when\">2 days ago</span></div>\
        <div class=\"hit\"><a href=\"/m/two\">Two</a></div>\
        </body></html>";
    let results = extract_search_results(
        &sc.selectors,
        &vec![],
        &url,
        &doc(page),
    )
    .unwrap();
    assert_eq!(results.len(), 2);
    assert_eq!(results[0].title, "One");
    assert_eq!(results[0].url, "https://example.org/m/one");
    assert!(results[0].posted.is_some());
    assert_eq!(results[1].title, "Two");
    assert!(results[1].posted.is_none());
}

#[test]
fn unparseable_search_url_is_rejected() {
    let sc = SearchConfig {
        hostnames: vec!["example.org".to_string()],
        search_url: "not a url at all {query}".to_string(),
        query_format: vec![],
        selectors: SearchSelectors {
            base: sel("div.hit"),
            url: attr_sel("a", "href"),
            title: sel("a"),
            cover_url: None,
            posted: None,
        },
    };
    assert!(matches!(
        build_search_url(&sc, "example.org", "q"),
        Err(ScrapeError::NotAValidURL(_))
    ));
}

#[test]
fn hostname_without_search_config_is_unsupported() {
    let config = manga_parser::config::MangaScraperConfig {
        name: "site".to_string(),
        accept: manga_parser::config::Accept { selectors: vec![], hostnames: vec![] },
        manga: manga_parser::config::Manga {
            title: sel("h1"),
            description: sel("p"),
            cover_url: None,
            status: None,
            authors: None,
            genres: None,
            alt_titles: None,
            chapter: manga_parser::config::Chapter {
                base: sel("li"),
                title: sel("a"),
                number: None,
                date: None,
                url: attr_sel("a", "href"),
                fetch_external: vec![],
            },
        },
        images: manga_parser::config::Images {
            image_selector: manga_parser::config::ArraySelectors { selectors: vec![] },
            fetch_external: vec![],
        },
        search: vec![],
        date_formats: vec![],
    };
    assert!(find_search_config(&config, "example.org").is_none());
}
