use manga_parser::config::{ArraySelectorOptions, CleanupOption, FixCapitalization,
    StringSelection, StringSelectorOptions};
use manga_parser::engine::manga_status;
use manga_parser::legacy::parse_string_vec;
use manga_parser::model::ChapterNumber;
use manga_parser::number::try_parse_number;
use manga_parser::textpipe::{apply_cleanups, explode_item, member_items, pipeline_step,
    resolve_list_from_raw_rows, resolve_scalar_from_raws};

fn default_options() -> StringSelectorOptions {
    StringSelectorOptions {
        cleanup: vec![],
        fix_capitalization: FixCapitalization::Skip,
        text_selection: StringSelection::AllText { join_with: " ".to_string() },
    }
}

#[test]
fn fallback_short_circuits_on_first_match() {
    // member 1 is the first to match: the result depends only on it,
    // whatever stands after it
    let opts = vec![default_options(), default_options(), default_options()];
    let raws_a = vec!["   ".to_string(), "Found".to_string(), "Later A".to_string()];
    let raws_b = vec!["   ".to_string(), "Found".to_string(), "Other B".to_string()];
    let a = resolve_scalar_from_raws(&opts, &raws_a);
    let b = resolve_scalar_from_raws(&opts, &raws_b);
    assert_eq!(a.as_deref(), Some("Found"));
    assert_eq!(a, b);
}

fn default_array_options() -> ArraySelectorOptions {
    ArraySelectorOptions {
        cleanup: vec![],
        fix_capitalization: FixCapitalization::Skip,
        text_selection: StringSelection::AllText { join_with: " ".to_string() },
        text_split_regex: Some(" *[,;\\-|]+ *".to_string()),
    }
}

#[test]
fn list_fallback_short_circuits_and_drops_nothing_early() {
    // member 1 is the first to yield items: the list depends only on it,
    // whatever stands after it - a fallback chain, not a union
    let opts = vec![default_array_options(), default_array_options(), default_array_options()];
    let rows_a = vec![
        vec!["   ".to_string()],
        vec!["Action".to_string(), "Drama".to_string()],
        vec!["Later".to_string()],
    ];
    let rows_b = vec![
        vec!["   ".to_string()],
        vec!["Action".to_string(), "Drama".to_string()],
        vec!["Other".to_string()],
    ];
    let a = resolve_list_from_raw_rows(&opts, &rows_a);
    let b = resolve_list_from_raw_rows(&opts, &rows_b);
    assert_eq!(a, vec!["Action", "Drama"]);
    assert_eq!(a, b);

    // no member yielding anything is the empty list, never an error
    let empty = resolve_list_from_raw_rows(&opts, &vec![vec![], vec!["  ".to_string()], vec![]]);
    assert_eq!(empty.len(), 0);
}

#[test]
fn lone_list_item_explodes_on_the_split_pattern() {
    let items = member_items(
        &default_array_options(),
        &vec!["Action, Adventure - Fantasy".to_string()],
    );
    assert_eq!(items, vec!["Action", "Adventure", "Fantasy"]);

    // two raw items stay as two items, unsplit
    let items = member_items(
        &default_array_options(),
        &vec!["Action, Adventure".to_string(), "Drama".to_string()],
    );
    assert_eq!(items, vec!["Action, Adventure", "Drama"]);
}

#[test]
fn trim_strips_non_breaking_space() {
    let r = pipeline_step(&vec![], &FixCapitalization::Skip, "\u{a0} padded\u{a0}\u{2003}");
    assert_eq!(r.as_deref(), Some("padded"));
}

#[test]
fn cleanup_applies_in_declared_order_and_is_idempotent() {
    let rules = vec![
        CleanupOption { replace_regex: "b".to_string(), replace_with: "c".to_string() },
        CleanupOption { replace_regex: "a".to_string(), replace_with: "b".to_string() },
    ];
    // declared order: "b"->"c" runs before "a"->"b", so an original "a"
    // survives one pass as "b"
    let once = apply_cleanups(&rules, "ab");
    assert_eq!(once, "bc");
    // a second pass moves the reintroduced "b" on; swapping the rule
    // order gives a list that is idempotent on its own output
    let ordered = vec![
        CleanupOption { replace_regex: "a".to_string(), replace_with: "b".to_string() },
        CleanupOption { replace_regex: "b".to_string(), replace_with: "c".to_string() },
    ];
    let cleaned = apply_cleanups(&ordered, "ab");
    assert_eq!(cleaned, "cc");
    let again = apply_cleanups(&ordered, cleaned.as_str());
    assert_eq!(again, cleaned);
}

#[test]
fn cleanup_expands_group_references() {
    let rules = vec![CleanupOption {
        replace_regex: "(\\d+)/(\\d+)".to_string(),
        replace_with: "$2 of $1".to_string(),
    }];
    assert_eq!(apply_cleanups(&rules, "chapter 3/12"), "chapter 12 of 3");
}

#[test]
fn title_case_fix_up_runs_last() {
    let r = pipeline_step(&vec![], &FixCapitalization::Title, "  the wandering BLADE  ");
    assert_eq!(r.as_deref(), Some("The Wandering Blade"));

    // trimming alone, no fix-up
    let r = pipeline_step(&vec![], &FixCapitalization::Skip, "  kept As IS  ");
    assert_eq!(r.as_deref(), Some("kept As IS"));

    // empty raw text yields nothing
    let r = pipeline_step(&vec![], &FixCapitalization::Skip, "   ");
    assert_eq!(r, None);
}

#[test]
fn split_explodes_and_drops_empty_parts() {
    let parts = explode_item(" *[,;\\-|]+ *", "Action, Adventure,, Fantasy");
    assert_eq!(parts, vec!["Action", "Adventure", "Fantasy"]);
}

#[test]
fn chapter_number_text_parses_first_numeral() {
    let n = try_parse_number("Chapter 12.5 - The End").unwrap();
    assert_eq!(n.whole, 12);
    assert_eq!(n.frac, vec![5u8]);

    let n = try_parse_number("Vol.3 Ch.007").unwrap();
    assert_eq!(n.whole, 3);
    assert_eq!(n.frac, Vec::<u8>::new());

    let n = try_parse_number("3.25 rounds").unwrap();
    assert_eq!(n.whole, 3);
    assert_eq!(n.frac, vec![2u8, 5u8]);

    assert_eq!(try_parse_number("no digits"), None);
    assert_eq!(
        try_parse_number("42"),
        Some(ChapterNumber { whole: 42, frac: vec![] })
    );
}

#[test]
fn status_vocabulary_is_case_insensitive() {
    assert!(manga_status(Some(&"OnGoing".to_string())));
    assert!(manga_status(Some(&"on-going".to_string())));
    assert!(manga_status(Some(&"UPDATING".to_string())));
    assert!(manga_status(Some(&"Live".to_string())));
    assert!(!manga_status(Some(&"Completed".to_string())));
    assert!(manga_status(None));
}

#[test]
fn single_delimited_string_explodes_and_dedups() {
    let r = parse_string_vec(vec!["Action; Drama;Action - Fantasy".to_string()]);
    assert_eq!(r.len(), 3);
    assert!(r.contains(&"Action".to_string()));
    assert!(r.contains(&"Drama".to_string()));
    assert!(r.contains(&"Fantasy".to_string()));

    // two or more entries are kept as they are
    let r = parse_string_vec(vec!["One".to_string(), "One".to_string()]);
    assert_eq!(r, vec!["One".to_string(), "One".to_string()]);
}
