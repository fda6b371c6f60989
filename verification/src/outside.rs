//! Trusted declarations for the outside computation libraries: the pattern
//! engine, case conversion, calendar arithmetic and URL resolution.
//!
//! Each wrapper makes exactly the call its doc comment names; results that
//! would take pages to state are given a name (an uninterpreted spec
//! function of the arguments alone), and verified code reasons through
//! those names.

use vstd::prelude::*;
use chrono::{TimeZone, Datelike};
use convert_case::Casing;

verus! {

/// Whether a pattern compiles.
pub uninterp spec fn regex_valid_of(pattern: Seq<char>) -> bool;

/// Relies on `regex::Regex::new`: a pattern either compiles or is rejected,
/// depending on the pattern text alone.
#[verifier::external_body]
pub(crate) fn regex_is_valid(pattern: &str) -> (r: bool)
    ensures
        r == regex_valid_of(pattern@),
{
    regex::Regex::new(pattern).is_ok()
}

/// Text after every non-overlapping match of the pattern is replaced,
/// with the replacement's group references expanded. For a pattern that
/// does not compile, the text unchanged.
pub uninterp spec fn replaced_of(pattern: Seq<char>, text: Seq<char>, rep: Seq<char>) -> Seq<char>;

/// Relies on `regex::Regex::replace_all`: replaces every non-overlapping
/// match, left to right; the result depends on the three arguments alone.
#[verifier::external_body]
pub(crate) fn regex_replace_all(pattern: &str, text: &str, rep: &str) -> (r: String)
    ensures
        r@ == replaced_of(pattern@, text@, rep@),
        !regex_valid_of(pattern@) ==> r@ == text@,
        text@.len() == 0 && rep@.len() == 0 ==> r@.len() == 0,
{
    match regex::Regex::new(pattern) {
        Ok(re) => re.replace_all(text, rep).into_owned(),
        Err(_) => text.to_string(),
    }
}

/// The substrings around every match of the pattern, in order. For a
/// pattern that does not compile, the text as a single part.
pub uninterp spec fn split_of(pattern: Seq<char>, text: Seq<char>) -> Seq<Seq<char>>;

/// Relies on `regex::Regex::split`: yields the parts between matches,
/// in order; the result depends on the two arguments alone.
#[verifier::external_body]
pub(crate) fn regex_split(pattern: &str, text: &str) -> (r: Vec<String>)
    ensures
        r@.map_values(|s: String| s@) == split_of(pattern@, text@),
{
    match regex::Regex::new(pattern) {
        Ok(re) => re.split(text).map(|p| p.to_string()).collect(),
        Err(_) => vec![text.to_string()],
    }
}

/// The text of the capture group with the given name in the first match,
/// when the pattern compiles, matches, and that group participates.
pub uninterp spec fn capture_named_of(
    pattern: Seq<char>,
    text: Seq<char>,
    group: Seq<char>,
) -> Option<Seq<char>>;

/// Relies on `regex::Captures::name` (after `Regex::captures`): the named
/// group of the first match; the result depends on the arguments alone.
#[verifier::external_body]
pub(crate) fn regex_capture_named(pattern: &str, text: &str, group: &str) -> (r: Option<String>)
    ensures
        match r {
            Some(s) => capture_named_of(pattern@, text@, group@) == Some(s@),
            None => capture_named_of(pattern@, text@, group@) is None,
        },
{
    match regex::Regex::new(pattern) {
        Ok(re) => re.captures(text).and_then(|c| c.name(group)).map(|m| m.as_str().to_string()),
        Err(_) => None,
    }
}

/// The text of the capture group with the given index in the first match,
/// when the pattern compiles, matches, and that group participates.
pub uninterp spec fn capture_index_of(
    pattern: Seq<char>,
    text: Seq<char>,
    index: usize,
) -> Option<Seq<char>>;

/// Relies on `regex::Captures::get` (after `Regex::captures`): the indexed
/// group of the first match; the result depends on the arguments alone.
#[verifier::external_body]
pub(crate) fn regex_capture_index(pattern: &str, text: &str, index: usize) -> (r: Option<String>)
    ensures
        match r {
            Some(s) => capture_index_of(pattern@, text@, index) == Some(s@),
            None => capture_index_of(pattern@, text@, index) is None,
        },
{
    match regex::Regex::new(pattern) {
        Ok(re) => re.captures(text).and_then(|c| c.get(index)).map(|m| m.as_str().to_string()),
        Err(_) => None,
    }
}

/// The input rendered in Title Case.
pub uninterp spec fn title_case_of(s: Seq<char>) -> Seq<char>;

/// Relies on `convert_case::Casing::to_case` with the title case: the
/// result depends on the input characters alone.
#[verifier::external_body]
pub(crate) fn title_case(s: &str) -> (r: String)
    ensures
        r@ == title_case_of(s@),
{
    s.to_case(convert_case::Case::Title)
}

/// Relies on `chrono::Utc::now`: the current instant in milliseconds since
/// the Unix epoch. Nothing is assumed of the clock's value.
#[verifier::external_body]
pub(crate) fn now_millis() -> i64 {
    chrono::Utc::now().timestamp_millis()
}

/// Whether a millisecond count lies in the range the calendar library
/// can represent.
pub uninterp spec fn millis_in_range(ms: i64) -> bool;

/// Relies on `chrono::DateTime::from_timestamp_millis`: absent exactly for
/// an out-of-range number of milliseconds.
#[verifier::external_body]
pub(crate) fn millis_valid(ms: i64) -> (r: bool)
    ensures
        r == millis_in_range(ms),
{
    chrono::DateTime::<chrono::Utc>::from_timestamp_millis(ms).is_some()
}

/// The instant a number of calendar months before the given one, when both
/// are representable.
pub uninterp spec fn sub_months_of(ms: i64, months: u32) -> Option<i64>;

/// Relies on `chrono::DateTime::checked_sub_months`: calendar-aware month
/// subtraction; absent when the input or result is unrepresentable.
#[verifier::external_body]
pub(crate) fn sub_months(ms: i64, months: u32) -> (r: Option<i64>)
    ensures
        r == sub_months_of(ms, months),
{
    chrono::DateTime::<chrono::Utc>::from_timestamp_millis(ms)
        .and_then(|d| d.checked_sub_months(chrono::Months::new(months)))
        .map(|d| d.timestamp_millis())
}

/// Outcome of parsing a text against one datetime format.
#[derive(Debug, Clone, PartialEq, Eq)]
pub enum FormatParse {
    /// Full parse; the instant in milliseconds since the Unix epoch.
    Parsed(i64),
    /// The format matched but left fields unset (for example no year).
    MissingFields,
    /// The parsed fields cannot form a valid instant.
    Impossible,
    /// Any other failure.
    Failed,
}

/// Outcome of a full datetime parse of the text against the format.
pub uninterp spec fn fmt_parse_of(text: Seq<char>, fmt: Seq<char>) -> FormatParse;

/// Relies on `chrono::NaiveDateTime::parse_from_str`, with the error kind
/// taken from `chrono::format::ParseError::kind`; the outcome depends on
/// the two arguments alone.
#[verifier::external_body]
pub(crate) fn parse_datetime_fmt(text: &str, fmt: &str) -> (r: FormatParse)
    ensures
        r == fmt_parse_of(text@, fmt@),
{
    match chrono::NaiveDateTime::parse_from_str(text, fmt) {
        Ok(dt) => FormatParse::Parsed(chrono::Utc.from_utc_datetime(&dt).timestamp_millis()),
        Err(e) => match e.kind() {
            chrono::format::ParseErrorKind::NotEnough => FormatParse::MissingFields,
            chrono::format::ParseErrorKind::Impossible => FormatParse::Impossible,
            _ => FormatParse::Failed,
        },
    }
}

/// Outcome of a date-only parse: midnight of the parsed day, in
/// milliseconds since the Unix epoch.
pub uninterp spec fn date_parse_of(text: Seq<char>, fmt: Seq<char>) -> Option<i64>;

/// Relies on `chrono::NaiveDate::parse_from_str`: a date-only parse,
/// completed with the default midnight time; the outcome depends on the
/// two arguments alone.
#[verifier::external_body]
pub(crate) fn parse_date_fmt(text: &str, fmt: &str) -> (r: Option<i64>)
    ensures
        r == date_parse_of(text@, fmt@),
{
    chrono::NaiveDate::parse_from_str(text, fmt)
        .ok()
        .map(|d| {
            chrono::Utc.from_utc_datetime(&d.and_time(chrono::NaiveTime::default()))
                .timestamp_millis()
        })
}

/// The decimal rendering of the year of the given instant.
pub uninterp spec fn year_str_of(ms: i64) -> Seq<char>;

/// Relies on `chrono::Datelike::year` (rendered in decimal): the calendar
/// year of the instant; for an unrepresentable instant, of the Unix epoch.
#[verifier::external_body]
pub(crate) fn year_string(ms: i64) -> (r: String)
    ensures
        r@ == year_str_of(ms),
{
    let y: i32 = chrono::DateTime::<chrono::Utc>::from_timestamp_millis(ms)
        .map(|d| d.year())
        .unwrap_or(1970);
    format!("{}", y)
}

/// The canonical absolute form of a URL string, when it parses.
pub uninterp spec fn url_parse_of(s: Seq<char>) -> Option<Seq<char>>;

/// Relies on `url::Url::parse` (rendered back with `as_str`): absent
/// exactly when the text is not an absolute URL.
#[verifier::external_body]
pub(crate) fn url_parse(s: &str) -> (r: Option<String>)
    ensures
        match r {
            Some(u) => url_parse_of(s@) == Some(u@),
            None => url_parse_of(s@) is None,
        },
{
    url::Url::parse(s).ok().map(|u| u.as_str().to_string())
}

/// The resolution of a (possibly relative) reference against a base URL.
pub uninterp spec fn url_join_of(base: Seq<char>, rel: Seq<char>) -> Option<Seq<char>>;

/// Relies on `url::Url::join` after `url::Url::parse` of the base: RFC 3986
/// reference resolution; absent when the base does not parse or the
/// reference cannot be resolved against it.
#[verifier::external_body]
pub(crate) fn url_join(base: &str, rel: &str) -> (r: Option<String>)
    ensures
        match r {
            Some(u) => url_join_of(base@, rel@) == Some(u@),
            None => url_join_of(base@, rel@) is None,
        },
{
    url::Url::parse(base).ok().and_then(|b| b.join(rel).ok()).map(|u| u.as_str().to_string())
}

/// The host of a URL string, when it parses and has one.
pub uninterp spec fn url_host_of(s: Seq<char>) -> Option<Seq<char>>;

/// Relies on `url::Url::host_str` after `url::Url::parse`.
#[verifier::external_body]
pub(crate) fn url_host(s: &str) -> (r: Option<String>)
    ensures
        match r {
            Some(h) => url_host_of(s@) == Some(h@),
            None => url_host_of(s@) is None,
        },
{
    url::Url::parse(s).ok().and_then(|u| u.host_str().map(|h| h.to_string()))
}

/// The path component of a URL string, when it parses.
pub uninterp spec fn url_path_of(s: Seq<char>) -> Option<Seq<char>>;

/// Relies on `url::Url::path` after `url::Url::parse`.
#[verifier::external_body]
pub(crate) fn url_path(s: &str) -> (r: Option<String>)
    ensures
        match r {
            Some(p) => url_path_of(s@) == Some(p@),
            None => url_path_of(s@) is None,
        },
{
    url::Url::parse(s).ok().map(|u| u.path().to_string())
}

/// Whether the text is a well-formed UUID in any accepted rendering.
pub uninterp spec fn uuid_valid_of(s: Seq<char>) -> bool;

/// Relies on `uuid::Uuid::parse_str`: validity depends on the text alone.
#[verifier::external_body]
pub(crate) fn uuid_valid(s: &str) -> (r: bool)
    ensures
        r == uuid_valid_of(s@),
{
    uuid::Uuid::parse_str(s).is_ok()
}

} // verus!
