use manga_parser::error::ScrapeError;
use manga_parser::manager::{
    hostname_listed, sort_hostnames, EngineSearchFold, MangaDispatch, SearchFederation,
};
use manga_parser::mangadex::{
    mangadex_accepts, mangadex_chapter_id, mangadex_manga_id, mangadex_search_accepts,
};
use manga_parser::middleware::CloudflareBypassMiddleware;
use manga_parser::model::{Manga, SearchManga};
use manga_parser::watcher::ConfigWatcher;

fn hit(title: &str) -> SearchManga {
    SearchManga {
        url: format!("https://example.org/m/{title}"),
        title: title.to_string(),
        cover_url: None,
        posted: None,
    }
}

#[test]
fn search_federation_keeps_partial_success() {
    // scraper A answers "search not supported" for the hostname, scraper
    // B returns one result: the overall result is success with exactly
    // B's result
    let mut federation = SearchFederation::new();
    federation.on_outcome(Err(ScrapeError::SearchNotSupported(vec!["h.example".to_string()])));
    federation.on_outcome(Ok(vec![hit("only-hit")]));
    let results = federation.finish(&vec!["h.example".to_string()]).unwrap();
    assert_eq!(results.len(), 1);
    assert_eq!(results[0].title, "only-hit");
}

#[test]
fn search_federation_surfaces_real_errors() {
    let hosts = vec!["h.example".to_string()];
    let mut federation = SearchFederation::new();
    federation.on_outcome(Err(ScrapeError::TransportError("boom".to_string())));
    match federation.finish(&hosts) {
        Err(ScrapeError::TransportError(m)) => assert_eq!(m, "boom"),
        other => panic!("expected the transport error, got {:?}", other.is_ok()),
    }

    // with nothing gathered and no real error, the queried hostnames
    // are not supported
    let mut federation = SearchFederation::new();
    federation.on_outcome(Err(ScrapeError::SearchNotSupported(hosts.clone())));
    match federation.finish(&hosts) {
        Err(ScrapeError::SearchNotSupported(hs)) => assert_eq!(hs, hosts),
        other => panic!("expected search-not-supported, got {:?}", other.is_ok()),
    }

    // so does an empty federation: no scraper recognized any hostname
    let federation = SearchFederation::new();
    assert!(matches!(
        federation.finish(&hosts),
        Err(ScrapeError::SearchNotSupported(_))
    ));
}

#[test]
fn engine_search_requires_a_result() {
    let mut fold = EngineSearchFold::new();
    fold.on_outcome(Ok(vec![]));
    match fold.finish(&vec!["h.example".to_string()]) {
        Err(ScrapeError::SearchNotSupported(hs)) => {
            assert_eq!(hs, vec!["h.example".to_string()]);
        },
        other => panic!("expected search-not-supported, got {:?}", other.is_ok()),
    }
}

#[test]
fn manga_dispatch_first_success_wins() {
    let record = Manga {
        url: "https://example.org/m/x".to_string(),
        title: "X".to_string(),
        description: "D".to_string(),
        cover_url: None,
        status: None,
        is_ongoing: true,
        authors: vec![],
        genres: vec![],
        alternative_titles: vec![],
        chapters: vec![],
    };
    let mut dispatch = MangaDispatch::new();
    assert!(dispatch
        .on_outcome(Err(ScrapeError::TransportError("first failed".to_string())))
        .is_none());
    let won = dispatch.on_outcome(Ok(record)).unwrap();
    assert_eq!(won.title, "X");

    let mut dispatch = MangaDispatch::new();
    assert!(dispatch
        .on_outcome(Err(ScrapeError::TransportError("only error".to_string())))
        .is_none());
    assert!(matches!(
        dispatch.finish(&"https://example.org/m/x".to_string()),
        ScrapeError::TransportError(_)
    ));

    let dispatch = MangaDispatch::new();
    match dispatch.finish(&"https://example.org/m/x".to_string()) {
        ScrapeError::WebsiteNotSupported(m) => assert_eq!(m, "https://example.org/m/x"),
        other => panic!("expected website-not-supported, got {}", other.kind_name()),
    }
}

#[test]
fn searchable_hostnames_are_sorted() {
    let sorted = sort_hostnames(vec![
        "zeta.example".to_string(),
        "alpha.example".to_string(),
        "mid.example".to_string(),
        "alpha.example".to_string(),
    ]);
    assert_eq!(
        sorted,
        vec![
            "alpha.example".to_string(),
            "alpha.example".to_string(),
            "mid.example".to_string(),
            "zeta.example".to_string(),
        ]
    );
    assert!(hostname_listed(&sorted, "mid.example"));
    assert!(!hostname_listed(&sorted, "other.example"));
}

#[test]
fn mangadex_routing() {
    assert!(mangadex_search_accepts("mangadex.org"));
    assert!(mangadex_search_accepts("api.mangadex.org"));
    assert!(!mangadex_search_accepts("example.org"));

    assert!(mangadex_accepts("https://mangadex.org/title/x"));
    assert!(!mangadex_accepts("https://example.org/title/x"));
    assert!(!mangadex_accepts("not a url"));

    let id = mangadex_manga_id(
        "https://mangadex.org/title/c9c0f16b-7bd3-4da6-bd58-fcb4bd10112f/some-title",
    )
    .unwrap();
    assert_eq!(id, "c9c0f16b-7bd3-4da6-bd58-fcb4bd10112f");

    let id = mangadex_chapter_id(
        "https://mangadex.org/chapter/c9c0f16b-7bd3-4da6-bd58-fcb4bd10112f",
    )
    .unwrap();
    assert_eq!(id, "c9c0f16b-7bd3-4da6-bd58-fcb4bd10112f");

    assert!(matches!(
        mangadex_manga_id("https://mangadex.org/title/not-a-uuid"),
        Err(ScrapeError::UnknownError(_))
    ));
    assert!(matches!(
        mangadex_manga_id("https://mangadex.org/other/c9c0f16b-7bd3-4da6-bd58-fcb4bd10112f"),
        Err(ScrapeError::WebsiteNotSupported(_))
    ));
}

#[test]
fn bypass_decisions() {
    assert!(CloudflareBypassMiddleware::is_challenge_status(403));
    assert!(!CloudflareBypassMiddleware::is_challenge_status(200));
    assert!(!CloudflareBypassMiddleware::is_challenge_status(500));
    assert_eq!(CloudflareBypassMiddleware::max_bypass_attempts(), 10);
    assert!(CloudflareBypassMiddleware::should_retry(9));
    assert!(!CloudflareBypassMiddleware::should_retry(10));
}

#[test]
fn watcher_keeps_its_directory() {
    let w = ConfigWatcher::new(std::path::PathBuf::from("configs"));
    assert_eq!(w.config_dir, std::path::PathBuf::from("configs"));
}
