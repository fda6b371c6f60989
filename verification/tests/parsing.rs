use manga_parser::config::{FixCapitalization, StringSelection};
use manga_parser::error::ScrapeError;
use manga_parser::rawconf::{
    parse_array_selector, parse_array_selectors, parse_string_selector, parse_string_selectors,
    RawValue,
};

fn text(s: &str) -> RawValue {
    RawValue::Text(s.to_string())
}

fn entry(k: &str, v: RawValue) -> (String, RawValue) {
    (k.to_string(), v)
}

#[test]
fn test_selector_deserialization() {
    // a bare string becomes a one-element group with default options
    let single = parse_string_selector(&text("div.title h1")).unwrap();
    assert_eq!(single.selector, "div.title h1");
    assert!(matches!(single.options.fix_capitalization, FixCapitalization::Skip));
    assert_eq!(single.options.cleanup.len(), 0);
    match &single.options.text_selection {
        StringSelection::AllText { join_with } => assert_eq!(join_with, " "),
        _ => panic!("default text selection must join all text"),
    }

    // an object with selector and options
    let object = RawValue::Object(vec![
        entry("selector", text("span.status")),
        entry(
            "options",
            RawValue::Object(vec![entry(
                "text_selection",
                RawValue::Object(vec![entry("type", text("own-text"))]),
            )]),
        ),
    ]);
    let parsed = parse_string_selector(&object).unwrap();
    assert_eq!(parsed.selector, "span.status");
    assert!(matches!(parsed.options.text_selection, StringSelection::OwnText));

    // a missing selector key is a load-time error
    let missing = RawValue::Object(vec![entry("options", RawValue::Object(vec![]))]);
    assert!(matches!(
        parse_string_selector(&missing),
        Err(ScrapeError::ConfigDeserializeError(_))
    ));
}

#[test]
fn string_selector_test_selector_deserialization() {
    // a bare string becomes a one-element group
    let group = parse_string_selectors(&text("h1")).unwrap();
    assert_eq!(group.selectors.len(), 1);
    assert_eq!(group.selectors[0].selector, "h1");

    // an array defines the fallback group, in order
    let group = parse_string_selectors(&RawValue::List(vec![
        text("h1.main"),
        RawValue::Object(vec![
            entry("selector", text("h2.alt")),
            entry(
                "options",
                RawValue::Object(vec![entry("fix_capitalization", text("title"))]),
            ),
        ]),
    ]))
    .unwrap();
    assert_eq!(group.selectors.len(), 2);
    assert_eq!(group.selectors[0].selector, "h1.main");
    assert_eq!(group.selectors[1].selector, "h2.alt");
    assert!(matches!(
        group.selectors[1].options.fix_capitalization,
        FixCapitalization::Title
    ));

    // an empty array cannot be a group
    assert!(parse_string_selectors(&RawValue::List(vec![])).is_err());

    // unknown selection type is a load-time error
    let bad = RawValue::Object(vec![
        entry("selector", text("h1")),
        entry(
            "options",
            RawValue::Object(vec![entry(
                "text_selection",
                RawValue::Object(vec![entry("type", text("middle-text"))]),
            )]),
        ),
    ]);
    assert!(parse_string_selectors(&bad).is_err());
}

#[test]
fn array_selector_test_selector_deserialization() {
    // a bare string carries the default split pattern
    let single = parse_array_selector(&text("div.genres a")).unwrap();
    assert_eq!(single.selector, "div.genres a");
    assert_eq!(single.options.text_split_regex.as_deref(), Some(" *[,;\\-|]+ *"));

    // a null split pattern switches splitting off
    let object = RawValue::Object(vec![
        entry("selector", text("div.authors")),
        entry(
            "options",
            RawValue::Object(vec![entry("text_split_regex", RawValue::Null)]),
        ),
    ]);
    let parsed = parse_array_selector(&object).unwrap();
    assert!(parsed.options.text_split_regex.is_none());

    // a custom split pattern must compile
    let bad = RawValue::Object(vec![
        entry("selector", text("div.authors")),
        entry(
            "options",
            RawValue::Object(vec![entry("text_split_regex", text("(unclosed"))]),
        ),
    ]);
    assert!(parse_array_selector(&bad).is_err());

    // an array of selectors forms the fallback group
    let group = parse_array_selectors(&RawValue::List(vec![
        text("div.genres a"),
        text("div.tags a"),
    ]))
    .unwrap();
    assert_eq!(group.selectors.len(), 2);

    // attributes selection with an explicit preference list
    let attrs = RawValue::Object(vec![
        entry("selector", text("img.cover")),
        entry(
            "options",
            RawValue::Object(vec![entry(
                "text_selection",
                RawValue::Object(vec![
                    entry("type", text("attributes")),
                    entry("attributes", RawValue::List(vec![text("data-src"), text("src")])),
                ]),
            )]),
        ),
    ]);
    let parsed = parse_array_selector(&attrs).unwrap();
    match &parsed.options.text_selection {
        StringSelection::Attributes(names) => {
            assert_eq!(names.len(), 2);
            assert_eq!(names[0], "data-src");
            assert_eq!(names[1], "src");
        },
        _ => panic!("expected attribute selection"),
    }
}

#[test]
fn cleanup_rules_must_compile() {
    let bad = RawValue::Object(vec![
        entry("selector", text("h1")),
        entry(
            "options",
            RawValue::Object(vec![entry(
                "cleanup",
                RawValue::List(vec![RawValue::Object(vec![
                    entry("replace_regex", text("[unclosed")),
                    entry("replace_with", text("")),
                ])]),
            )]),
        ),
    ]);
    assert!(matches!(
        parse_string_selector(&bad),
        Err(ScrapeError::ConfigDeserializeError(_))
    ));

    let good = RawValue::Object(vec![
        entry("selector", text("h1")),
        entry(
            "options",
            RawValue::Object(vec![entry(
                "cleanup",
                RawValue::List(vec![RawValue::Object(vec![
                    entry("replace_regex", text("\\s+")),
                    entry("replace_with", text(" ")),
                ])]),
            )]),
        ),
    ]);
    let parsed = parse_string_selector(&good).unwrap();
    assert_eq!(parsed.options.cleanup.len(), 1);
    assert_eq!(parsed.options.cleanup[0].replace_regex, "\\s+");
}
