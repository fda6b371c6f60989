//! The heuristic date parser: a best-effort, multi-strategy parser that
//! turns scraped date text into an instant (milliseconds since the Unix
//! epoch) and never fails an operation — unparseable text yields absence.
//!
//! Strategy order: pure digits are epoch milliseconds; text without digits
//! is matched against a fixed phrase vocabulary; text with two or more
//! digit runs is tried against the caller's formats and a built-in list,
//! raw first and then after punctuation cleanup; anything left is read as
//! a relative phrase ("2 days ago").

use vstd::prelude::*;
use crate::strutil::{
    is_word_char, is_digit_char, all_digits, has_digit, digits_val, digit_run_count, trim_spec,
    lower_seq, contains_seq, chars_all_digits, chars_have_digit, chars_contain, count_digit_runs,
    parse_u64_digits, trim_chars, lower_chars, to_chars, from_chars, char_is_digit, char_is_word,
    str_views, lemma_str_views_push,
};
use crate::outside::{
    millis_in_range, millis_valid, sub_months_of, sub_months, fmt_parse_of, parse_datetime_fmt,
    date_parse_of, parse_date_fmt, year_str_of, year_string, capture_index_of,
    regex_capture_index, replaced_of, regex_replace_all, FormatParse, now_millis,
};

verus! {

/// Milliseconds per second, minute, hour, day and week.
pub open spec fn unit_ms(unit: char) -> int {
    if unit == 's' {
        1000
    } else if unit == 'h' {
        3600000
    } else if unit == 'd' {
        86400000
    } else if unit == 'w' {
        604800000
    } else {
        0
    }
}

/// A character kept as-is by the punctuation cleanup pass.
pub open spec fn date_keep_char(c: char) -> bool {
    is_word_char(c) || c == ':' || c == '.' || c == '+' || c == '-'
}

/// Contribution of position `i` to the punctuation cleanup: kept characters
/// stay, and each maximal run of dropped characters becomes one dash.
pub open spec fn clean_punct_at(s: Seq<char>, i: int) -> Seq<char> {
    if date_keep_char(s[i]) {
        seq![s[i]]
    } else if i == 0 || date_keep_char(s[i - 1]) {
        seq!['-']
    } else {
        Seq::empty()
    }
}

pub open spec fn clean_punct_up_to(s: Seq<char>, n: int) -> Seq<char>
    decreases n,
{
    if n <= 0 {
        Seq::empty()
    } else {
        clean_punct_up_to(s, n - 1) + clean_punct_at(s, n - 1)
    }
}

/// Punctuation cleanup: every run of characters outside the word/`:.+-`
/// set becomes a single dash.
pub open spec fn clean_punct(s: Seq<char>) -> Seq<char> {
    clean_punct_up_to(s, s.len() as int)
}

/// Contribution of position `i` to dash collapsing: a dash directly after
/// a dash is dropped.
pub open spec fn collapse_dash_at(s: Seq<char>, i: int) -> Seq<char> {
    if s[i] == '-' && i > 0 && s[i - 1] == '-' {
        Seq::empty()
    } else {
        seq![s[i]]
    }
}

pub open spec fn collapse_dashes_up_to(s: Seq<char>, n: int) -> Seq<char>
    decreases n,
{
    if n <= 0 {
        Seq::empty()
    } else {
        collapse_dashes_up_to(s, n - 1) + collapse_dash_at(s, n - 1)
    }
}

/// Collapses every run of dashes to a single dash.
pub open spec fn collapse_dashes(s: Seq<char>) -> Seq<char> {
    collapse_dashes_up_to(s, s.len() as int)
}

/// The two-letter ordinal suffixes dropped after a digit.
pub open spec fn is_ordinal_suffix(a: char, b: char) -> bool {
    (a == 'n' && b == 'd') || (a == 's' && b == 't') || (a == 'r' && b == 'd') || (a == 't' && b
        == 'h')
}

/// Drops ordinal suffixes that directly follow a digit ("1st" becomes "1"),
/// scanning left to right over non-overlapping matches.
pub open spec fn strip_ordinals(s: Seq<char>) -> Seq<char>
    decreases s.len(),
{
    if s.len() == 0 {
        Seq::empty()
    } else if s.len() >= 3 && is_digit_char(s[0]) && is_ordinal_suffix(s[1], s[2]) {
        seq![s[0]] + strip_ordinals(s.skip(3))
    } else {
        seq![s[0]] + strip_ordinals(s.drop_first())
    }
}

/// The full cleanup applied before the second format pass.
pub open spec fn cleaned_date(s: Seq<char>) -> Seq<char> {
    strip_ordinals(collapse_dashes(clean_punct(s)))
}

/// Subtraction on instants, absent when the result leaves the
/// millisecond range.
pub open spec fn sub_ms(now: i64, delta: int) -> Option<i64> {
    if now - delta < i64::MIN || now - delta > i64::MAX {
        None
    } else {
        Some((now - delta) as i64)
    }
}

/// The pattern that strips everything but word characters before the
/// phrase vocabulary is consulted.
pub open spec fn non_word_pattern() -> Seq<char> {
    "\\W"@
}

/// Normalisation of the no-digit branch: non-word characters stripped by
/// the pattern engine, then lower-cased.
pub open spec fn phrase_norm(s: Seq<char>) -> Seq<char> {
    lower_seq(replaced_of(non_word_pattern(), s, Seq::<char>::empty()))
}

/// The fixed phrase vocabulary of the no-digit branch; empty text names
/// no phrase.
pub open spec fn phrase_result(t: Seq<char>, now: i64) -> Option<i64> {
    let n = phrase_norm(t);
    if t.len() == 0 {
        None
    } else if contains_seq(n, "now"@) || contains_seq(n, "latest"@) || contains_seq(n, "hot"@)
        || contains_seq(n, "today"@) || contains_seq(n, "current"@) || contains_seq(n, "while"@) {
        Some(now)
    } else if contains_seq(n, "second"@) {
        sub_ms(now, 1000)
    } else if contains_seq(n, "minute"@) {
        sub_ms(now, 60000)
    } else if contains_seq(n, "hour"@) {
        sub_ms(now, 3600000)
    } else if contains_seq(n, "yesterday"@) {
        sub_ms(now, 86400000)
    } else if contains_seq(n, "week"@) {
        sub_ms(now, 604800000)
    } else if contains_seq(n, "month"@) {
        sub_months_of(now, 1)
    } else if contains_seq(n, "year"@) {
        sub_ms(now, (365 * 86400000) as int)
    } else {
        None
    }
}

/// Epoch strategy: a pure-digit string is a millisecond timestamp when its
/// value fits and the calendar library can represent it.
pub open spec fn epoch_result(t: Seq<char>) -> Option<i64> {
    if digits_val(t) <= i64::MAX && millis_in_range(digits_val(t) as i64) {
        Some(digits_val(t) as i64)
    } else {
        None
    }
}

/// Retry of one format after a full parse left fields unset: the current
/// year is appended to text and format; if fields are still missing or the
/// combination is impossible, a date-only parse of the original text.
pub open spec fn year_retry(t: Seq<char>, f: Seq<char>, now: i64) -> Option<i64> {
    match fmt_parse_of(t + "-"@ + year_str_of(now), f + "-%Y"@) {
        FormatParse::Parsed(ms) => Some(ms),
        FormatParse::MissingFields => date_parse_of(t, f),
        FormatParse::Impossible => date_parse_of(t, f),
        FormatParse::Failed => None,
    }
}

/// Outcome of trying one format against the text.
pub open spec fn try_format_spec(t: Seq<char>, f: Seq<char>, now: i64) -> Option<i64> {
    match fmt_parse_of(t, f) {
        FormatParse::Parsed(ms) => Some(ms),
        FormatParse::MissingFields => year_retry(t, f, now),
        FormatParse::Impossible => None,
        FormatParse::Failed => None,
    }
}

/// First format that parses the text wins.
pub open spec fn first_format_hit(t: Seq<char>, fmts: Seq<Seq<char>>, now: i64) -> Option<i64>
    decreases fmts.len(),
{
    if fmts.len() == 0 {
        None
    } else {
        match try_format_spec(t, fmts[0], now) {
            Some(v) => Some(v),
            None => first_format_hit(t, fmts.drop_first(), now),
        }
    }
}

/// The built-in format list tried after the caller's formats.
pub open spec fn default_formats_spec() -> Seq<Seq<char>> {
    seq![
        "%Y-%m-%dT%H:%M:%S%.fZ"@,
        "%Y-%m-%dT%H:%M:%S%.f%z"@,
        "%Y-%m-%dT%H:%M:%S%z"@,
        "%Y-%m-%dT%H:%M:%SZ"@,
        "%Y-%m-%dT%H:%M:%S"@,
        "%B-%d-%y-%H:%M"@,
        "%B-%d-%Y-%H:%M"@,
        "%b-%d-%y-%H:%M:%S"@,
        "%B-%d-%y-%H:%M:%S"@,
        "%b-%d-%H:%M"@,
        "%d-%B-%H:%M"@,
        "%d-%b-%H:%M"@,
        "%b-%d-%H:%M"@,
        "%B-%d-%Y"@,
        "%b-%d-%Y"@,
        "%b-%d-%y"@,
        "%d-%B-%Y"@,
        "%Y.%m.%d"@,
        "%m-%d-%Y"@,
        "%d-%m-%Y"@,
    ]
}

/// The pattern of the relative strategy: a digit run, optional spacing,
/// then a one- or two-letter unit token.
pub open spec fn rel_pattern() -> Seq<char> {
    "(\\d+)\\s*(\\w\\w?)"@
}

/// The amount of a relative phrase: the captured digits when they fit a
/// non-negative i64, one otherwise.
pub open spec fn rel_amount_val(digits: Seq<char>) -> int {
    if all_digits(digits) && digits_val(digits) <= i64::MAX {
        digits_val(digits) as int
    } else {
        1
    }
}

/// Interpretation of a captured (amount, unit) pair: two-letter "mi" is
/// minutes; otherwise the unit's first letter selects the scale; months
/// and years go through calendar arithmetic and a 365-day year.
pub open spec fn rel_from_parts(amount: int, unit: Seq<char>, now: i64) -> Option<i64> {
    if unit.len() == 2 && unit[0] == 'm' && unit[1] == 'i' {
        if amount * 60000 > i64::MAX {
            None
        } else {
            sub_ms(now, amount * 60000)
        }
    } else if unit.len() == 0 {
        None
    } else if unit[0] == 's' || unit[0] == 'h' || unit[0] == 'd' || unit[0] == 'w' {
        if amount * unit_ms(unit[0]) > i64::MAX {
            None
        } else {
            sub_ms(now, amount * unit_ms(unit[0]))
        }
    } else if unit[0] == 'm' {
        sub_months_of(now, amount as u32)
    } else if unit[0] == 'y' {
        if amount * 365 * 86400000 > i64::MAX {
            None
        } else {
            sub_ms(now, amount * 365 * 86400000)
        }
    } else {
        None
    }
}

/// The relative strategy over the lower-cased text.
pub open spec fn relative_result(t: Seq<char>, now: i64) -> Option<i64> {
    match capture_index_of(rel_pattern(), t, 1) {
        Some(digits) => match capture_index_of(rel_pattern(), t, 2) {
            Some(unit) => rel_from_parts(rel_amount_val(digits), unit, now),
            None => None,
        },
        None => None,
    }
}

/// The whole parser: strategy dispatch over the trimmed text.
pub open spec fn parse_date_spec(s: Seq<char>, formats: Seq<Seq<char>>, now: i64) -> Option<i64> {
    if s.len() == 0 {
        None
    } else {
        let t = trim_spec(s);
        if all_digits(t) {
            epoch_result(t)
        } else if !has_digit(t) {
            phrase_result(t, now)
        } else {
            let fmt_hit = if digit_run_count(t) > 1 {
                match first_format_hit(t, formats, now) {
                    Some(v) => Some(v),
                    None => first_format_hit(cleaned_date(t), formats + default_formats_spec(), now),
                }
            } else {
                None
            };
            match fmt_hit {
                Some(v) => Some(v),
                None => relative_result(lower_seq(t), now),
            }
        }
    }
}

fn clean_punct_chars(s: &Vec<char>) -> (r: Vec<char>)
    ensures
        r@ == clean_punct(s@),
{
    let mut out: Vec<char> = Vec::new();
    let mut i: usize = 0;
    while i < s.len()
        invariant
            i <= s@.len(),
            out@ == clean_punct_up_to(s@, i as int),
        decreases s@.len() - i,
    {
        let c = s[i];
        let keep = char_is_word(c) || c == ':' || c == '.' || c == '+' || c == '-';
        if keep {
            out.push(c);
        } else if i == 0 || {
            let p = s[i - 1];
            char_is_word(p) || p == ':' || p == '.' || p == '+' || p == '-'
        } {
            out.push('-');
        }
        i = i + 1;
        proof {
            assert(out@ =~= clean_punct_up_to(s@, i as int));
        }
    }
    out
}

fn collapse_dashes_chars(s: &Vec<char>) -> (r: Vec<char>)
    ensures
        r@ == collapse_dashes(s@),
{
    let mut out: Vec<char> = Vec::new();
    let mut i: usize = 0;
    while i < s.len()
        invariant
            i <= s@.len(),
            out@ == collapse_dashes_up_to(s@, i as int),
        decreases s@.len() - i,
    {
        let c = s[i];
        if !(c == '-' && i > 0 && s[i - 1] == '-') {
            out.push(c);
        }
        i = i + 1;
        proof {
            assert(out@ =~= collapse_dashes_up_to(s@, i as int));
        }
    }
    out
}

fn char_is_ordinal_suffix(a: char, b: char) -> (r: bool)
    ensures
        r == is_ordinal_suffix(a, b),
{
    (a == 'n' && b == 'd') || (a == 's' && b == 't') || (a == 'r' && b == 'd') || (a == 't' && b
        == 'h')
}

fn strip_ordinals_chars(s: &Vec<char>) -> (r: Vec<char>)
    ensures
        r@ == strip_ordinals(s@),
{
    let mut out: Vec<char> = Vec::new();
    let mut i: usize = 0;
    proof {
        assert(s@.skip(0) =~= s@);
        assert(out@ + strip_ordinals(s@) =~= strip_ordinals(s@));
    }
    while i < s.len()
        invariant
            i <= s@.len(),
            strip_ordinals(s@) == out@ + strip_ordinals(s@.skip(i as int)),
        decreases s@.len() - i,
    {
        let ghost rem = s@.skip(i as int);
        let ghost out0 = out@;
        if s.len() - i > 2 && char_is_digit(s[i]) && char_is_ordinal_suffix(s[i + 1], s[i + 2]) {
            proof {
                assert(rem.len() >= 3);
                assert(rem[0] == s@[i as int]);
                assert(rem[1] == s@[i + 1]);
                assert(rem[2] == s@[i + 2]);
                assert(rem.skip(3) =~= s@.skip(i + 3));
            }
            out.push(s[i]);
            i = i + 3;
            proof {
                assert(out@ =~= out0 + seq![rem[0]]);
                assert((out0 + seq![rem[0]]) + strip_ordinals(rem.skip(3)) =~= out0 + (seq![
                    rem[0],
                ] + strip_ordinals(rem.skip(3))));
            }
        } else {
            proof {
                assert(rem[0] == s@[i as int]);
                assert(rem.drop_first() =~= s@.skip(i + 1));
                if rem.len() >= 3 {
                    assert(rem[1] == s@[i + 1]);
                    assert(rem[2] == s@[i + 2]);
                }
            }
            out.push(s[i]);
            i = i + 1;
            proof {
                assert(out@ =~= out0 + seq![rem[0]]);
                assert((out0 + seq![rem[0]]) + strip_ordinals(rem.drop_first()) =~= out0 + (seq![
                    rem[0],
                ] + strip_ordinals(rem.drop_first())));
            }
        }
    }
    proof {
        assert(s@.skip(s@.len() as int) =~= Seq::<char>::empty());
        assert(out@ + Seq::<char>::empty() =~= out@);
    }
    out
}

/// The built-in formats as values.
fn default_date_formats() -> (r: Vec<String>)
    ensures
        str_views(r@) == default_formats_spec(),
{
    let mut v: Vec<String> = Vec::new();
    v.push(String::from_str("%Y-%m-%dT%H:%M:%S%.fZ"));
    v.push(String::from_str("%Y-%m-%dT%H:%M:%S%.f%z"));
    v.push(String::from_str("%Y-%m-%dT%H:%M:%S%z"));
    v.push(String::from_str("%Y-%m-%dT%H:%M:%SZ"));
    v.push(String::from_str("%Y-%m-%dT%H:%M:%S"));
    v.push(String::from_str("%B-%d-%y-%H:%M"));
    v.push(String::from_str("%B-%d-%Y-%H:%M"));
    v.push(String::from_str("%b-%d-%y-%H:%M:%S"));
    v.push(String::from_str("%B-%d-%y-%H:%M:%S"));
    v.push(String::from_str("%b-%d-%H:%M"));
    v.push(String::from_str("%d-%B-%H:%M"));
    v.push(String::from_str("%d-%b-%H:%M"));
    v.push(String::from_str("%b-%d-%H:%M"));
    v.push(String::from_str("%B-%d-%Y"));
    v.push(String::from_str("%b-%d-%Y"));
    v.push(String::from_str("%b-%d-%y"));
    v.push(String::from_str("%d-%B-%Y"));
    v.push(String::from_str("%Y.%m.%d"));
    v.push(String::from_str("%m-%d-%Y"));
    v.push(String::from_str("%d-%m-%Y"));
    proof {
        assert(str_views(v@) =~= default_formats_spec());
    }
    v
}

/// Tries one format: full parse, then the year-appended retry, then the
/// date-only retry.
fn try_format(t: &str, f: &str, now: i64) -> (r: Option<i64>)
    ensures
        r == try_format_spec(t@, f@, now),
{
    match parse_datetime_fmt(t, f) {
        FormatParse::Parsed(ms) => Some(ms),
        FormatParse::MissingFields => {
            let y = year_string(now);
            let mut t2 = t.to_owned();
            t2.append("-");
            t2.append(y.as_str());
            let mut f2 = f.to_owned();
            f2.append("-%Y");
            proof {
                assert(t2@ == t@ + "-"@ + year_str_of(now));
                assert(f2@ == f@ + "-%Y"@);
            }
            match parse_datetime_fmt(t2.as_str(), f2.as_str()) {
                FormatParse::Parsed(ms) => Some(ms),
                FormatParse::MissingFields => parse_date_fmt(t, f),
                FormatParse::Impossible => parse_date_fmt(t, f),
                FormatParse::Failed => None,
            }
        },
        FormatParse::Impossible => None,
        FormatParse::Failed => None,
    }
}

/// Tries every format in order; the first hit wins.
fn formats_hit(t: &str, fmts: &Vec<String>, now: i64) -> (r: Option<i64>)
    ensures
        r == first_format_hit(t@, str_views(fmts@), now),
{
    let ghost views = str_views(fmts@);
    let mut i: usize = 0;
    proof {
        assert(views.skip(0) =~= views);
    }
    while i < fmts.len()
        invariant
            i <= fmts@.len(),
            views == str_views(fmts@),
            first_format_hit(t@, views, now) == first_format_hit(t@, views.skip(i as int), now),
        decreases fmts@.len() - i,
    {
        let hit = try_format(t, fmts[i].as_str(), now);
        proof {
            assert(views.skip(i as int)[0] == views[i as int]);
            assert(views.skip(i as int).drop_first() =~= views.skip(i + 1));
        }
        if let Some(v) = hit {
            return Some(v);
        }
        i = i + 1;
    }
    proof {
        assert(views.skip(i as int) =~= Seq::<Seq<char>>::empty());
    }
    None
}

/// The phrase branch over the trimmed text.
fn phrase_branch(t: &Vec<char>, now: i64) -> (r: Option<i64>)
    ensures
        r == phrase_result(t@, now),
{
    if t.len() == 0 {
        return None;
    }
    let stripped = regex_replace_all("\\W", from_chars(t).as_str(), "");
    proof {
        reveal_strlit("");
        assert(""@ =~= Seq::<char>::empty());
    }
    let n = lower_chars(&to_chars(stripped.as_str()));
    if chars_contain(&n, &to_chars("now")) || chars_contain(&n, &to_chars("latest"))
        || chars_contain(&n, &to_chars("hot")) || chars_contain(&n, &to_chars("today"))
        || chars_contain(&n, &to_chars("current")) || chars_contain(&n, &to_chars("while")) {
        Some(now)
    } else if chars_contain(&n, &to_chars("second")) {
        sub_delta(now, 1000)
    } else if chars_contain(&n, &to_chars("minute")) {
        sub_delta(now, 60000)
    } else if chars_contain(&n, &to_chars("hour")) {
        sub_delta(now, 3600000)
    } else if chars_contain(&n, &to_chars("yesterday")) {
        sub_delta(now, 86400000)
    } else if chars_contain(&n, &to_chars("week")) {
        sub_delta(now, 604800000)
    } else if chars_contain(&n, &to_chars("month")) {
        sub_months(now, 1)
    } else if chars_contain(&n, &to_chars("year")) {
        sub_delta(now, 365 * 86400000)
    } else {
        None
    }
}

/// Checked subtraction of a non-negative millisecond delta.
fn sub_delta(now: i64, delta: i64) -> (r: Option<i64>)
    requires
        delta >= 0,
    ensures
        r == sub_ms(now, delta as int),
{
    let wide: i128 = (now as i128) - (delta as i128);
    if wide < i64::MIN as i128 {
        None
    } else {
        Some(wide as i64)
    }
}

/// The relative branch over the lower-cased text.
fn relative_branch(t: &Vec<char>, now: i64) -> (r: Option<i64>)
    ensures
        r == relative_result(t@, now),
{
    let ts = from_chars(t);
    let pat = "(\\d+)\\s*(\\w\\w?)";
    let amount_s = regex_capture_index(pat, ts.as_str(), 1);
    let unit_s = regex_capture_index(pat, ts.as_str(), 2);
    let amount_s = match amount_s {
        Some(a) => a,
        None => {
            return None;
        },
    };
    let unit_s = match unit_s {
        Some(u) => u,
        None => {
            return None;
        },
    };
    let ac = to_chars(amount_s.as_str());
    let amount: i64 = if chars_all_digits(&ac) {
        match parse_u64_digits(&ac) {
            Some(v) => {
                if v <= i64::MAX as u64 {
                    v as i64
                } else {
                    1
                }
            },
            None => 1,
        }
    } else {
        1
    };
    proof {
        assert(amount == rel_amount_val(ac@));
    }
    let uc = to_chars(unit_s.as_str());
    if uc.len() == 2 && uc[0] == 'm' && uc[1] == 'i' {
        mul_sub(now, amount, 60000)
    } else if uc.len() == 0 {
        None
    } else if uc[0] == 's' {
        mul_sub(now, amount, 1000)
    } else if uc[0] == 'h' {
        mul_sub(now, amount, 3600000)
    } else if uc[0] == 'd' {
        mul_sub(now, amount, 86400000)
    } else if uc[0] == 'w' {
        mul_sub(now, amount, 604800000)
    } else if uc[0] == 'm' {
        sub_months(now, #[verifier::truncate] (amount as u32))
    } else if uc[0] == 'y' {
        mul_sub(now, amount, 365 * 86400000)
    } else {
        None
    }
}

/// Checked `now - amount * scale`, absent on any overflow.
fn mul_sub(now: i64, amount: i64, scale: i64) -> (r: Option<i64>)
    requires
        amount >= 0,
        0 < scale <= 0x10000000000,
    ensures
        r == if amount * scale > i64::MAX {
            None::<i64>
        } else {
            sub_ms(now, amount * scale)
        },
{
    proof {
        assert(0 <= (amount as int) * (scale as int) <= 0x7fffffffffffffff * 0x10000000000)
            by (nonlinear_arith)
            requires
                0 <= amount as int <= 0x7fffffffffffffff,
                0 < scale as int <= 0x10000000000,
        ;
    }
    let wide: i128 = (amount as i128) * (scale as i128);
    if wide > i64::MAX as i128 {
        None
    } else {
        sub_delta(now, wide as i64)
    }
}

/// The whole parser against an explicit current instant: the result is
/// exactly `parse_date_spec`, for every input string.
pub fn try_parse_date_at(date: &str, date_formats: &Vec<String>, now: i64) -> (r: Option<i64>)
    ensures
        r == parse_date_spec(date@, str_views(date_formats@), now),
{
    let ghost views = str_views(date_formats@);
    if date.unicode_len() == 0 {
        return None;
    }
    let t = trim_chars(&to_chars(date));
    if chars_all_digits(&t) {
        match parse_u64_digits(&t) {
            Some(v) => {
                if v <= i64::MAX as u64 {
                    if millis_valid(v as i64) {
                        Some(v as i64)
                    } else {
                        None
                    }
                } else {
                    None
                }
            },
            None => None,
        }
    } else if !chars_have_digit(&t) {
        phrase_branch(&t, now)
    } else {
        let fmt_hit: Option<i64> = if count_digit_runs(&t) > 1 {
            let ts = from_chars(&t);
            match formats_hit(ts.as_str(), date_formats, now) {
                Some(v) => Some(v),
                None => {
                    let cleaned = strip_ordinals_chars(
                        &collapse_dashes_chars(&clean_punct_chars(&t)),
                    );
                    let cs = from_chars(&cleaned);
                    let mut combined: Vec<String> = Vec::new();
                    let mut i: usize = 0;
                    while i < date_formats.len()
                        invariant
                            i <= date_formats@.len(),
                            views == str_views(date_formats@),
                            str_views(combined@) == views.take(i as int),
                        decreases date_formats@.len() - i,
                    {
                        let ghost c0 = combined@;
                        combined.push(date_formats[i].clone());
                        i = i + 1;
                        proof {
                            lemma_str_views_push(c0, combined@.last());
                            assert(str_views(c0).push(combined@.last()@) =~= views.take(i as int));
                        }
                    }
                    let mut defaults = default_date_formats();
                    let ghost dviews = str_views(defaults@);
                    let mut k: usize = 0;
                    proof {
                        assert(views.take(views.len() as int) =~= views);
                    }
                    while k < defaults.len()
                        invariant
                            k <= defaults@.len(),
                            dviews == str_views(defaults@),
                            str_views(combined@) == views + dviews.take(k as int),
                        decreases defaults@.len() - k,
                    {
                        let ghost c0 = combined@;
                        combined.push(defaults[k].clone());
                        k = k + 1;
                        proof {
                            lemma_str_views_push(c0, combined@.last());
                            assert(str_views(c0).push(combined@.last()@) =~= views + dviews.take(
                                k as int,
                            ));
                        }
                    }
                    proof {
                        assert(views + dviews.take(dviews.len() as int) =~= views
                            + default_formats_spec());
                    }
                    formats_hit(cs.as_str(), &combined, now)
                },
            }
        } else {
            None
        };
        match fmt_hit {
            Some(v) => Some(v),
            None => relative_branch(&lower_chars(&t), now),
        }
    }
}

/// The parsing model over format strings as values.
pub open spec fn parse_date_spec_strs(s: Seq<char>, formats: Seq<String>, now: i64) -> Option<
    i64,
> {
    parse_date_spec(s, str_views(formats), now)
}

/// The public parser: reads the clock and dispatches. Never fails an
/// operation — for every input there is an instant of the call under
/// which the result is exactly the parsing model.
pub fn try_parse_date(date: &str, date_formats: &Vec<String>) -> (r: Option<i64>)
    ensures
        exists|now: i64| r == #[trigger] parse_date_spec_strs(date@, date_formats@, now),
{
    let now = now_millis();
    let r = try_parse_date_at(date, date_formats, now);
    proof {
        assert(r == parse_date_spec_strs(date@, date_formats@, now));
    }
    r
}

/// The parser never fails an operation: empty text and pure-whitespace
/// text yield absence, for every format list and every clock reading.
pub proof fn lemma_blank_date_is_absent(s: Seq<char>, formats: Seq<Seq<char>>, now: i64)
    requires
        forall|i: int| 0 <= i < s.len() ==> crate::strutil::is_space_char(#[trigger] s[i]),
    ensures
        parse_date_spec(s, formats, now) is None,
{
    if s.len() > 0 {
        crate::strutil::lemma_trim_all_space(s);
        let t = trim_spec(s);
        assert(t.len() == 0);
        assert(!all_digits(t));
        assert(!has_digit(t));
        assert(phrase_result(t, now) is None);
    }
}

} // verus!
