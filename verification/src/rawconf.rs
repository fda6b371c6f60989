//! Parsing of selector rules from generically decoded configuration
//! values. A configuration field accepts either a bare string, an object
//! with `selector` and `options` keys, or (for group fields) an array of
//! such values; a bare string becomes a one-element group with default
//! options. Unknown keys are ignored; a missing required key or a
//! malformed pattern is a load-time error.

use vstd::prelude::*;
use crate::config::{
    StringSelection, FixCapitalization, CleanupOption, StringSelectorOptions, StringSelector,
    StringSelectors, ArraySelectorOptions, ArraySelector, ArraySelectors, default_split_pattern,
    default_split_regex,
};
use crate::error::ScrapeError;
use crate::outside::{regex_valid_of, regex_is_valid};

verus! {

/// A configuration value after generic decoding: a scalar, a sequence,
/// a mapping, or nothing.
#[derive(Debug, PartialEq)]
pub enum RawValue {
    Null,
    Text(String),
    List(Vec<RawValue>),
    Object(Vec<(String, RawValue)>),
}

/// How many entries carry the key.
pub open spec fn key_count(entries: Seq<(String, RawValue)>, k: Seq<char>) -> nat
    decreases entries.len(),
{
    if entries.len() == 0 {
        0
    } else {
        (if entries[0].0@ == k {
            1nat
        } else {
            0nat
        }) + key_count(entries.drop_first(), k)
    }
}

/// The first value carried under the key.
pub open spec fn field_of(entries: Seq<(String, RawValue)>, k: Seq<char>) -> Option<RawValue>
    decreases entries.len(),
{
    if entries.len() == 0 {
        None
    } else if entries[0].0@ == k {
        Some(entries[0].1)
    } else {
        field_of(entries.drop_first(), k)
    }
}

/// Finds the first entry with the key.
pub fn find_field<'a>(entries: &'a Vec<(String, RawValue)>, k: &str) -> (r: Option<&'a RawValue>)
    ensures
        match r {
            Some(v) => field_of(entries@, k@) == Some(*v),
            None => field_of(entries@, k@) is None,
        },
{
    let ghost es = entries@;
    let mut i: usize = 0;
    proof {
        assert(es.skip(0) =~= es);
    }
    while i < entries.len()
        invariant
            i <= es.len(),
            es == entries@,
            field_of(es, k@) == field_of(es.skip(i as int), k@),
        decreases es.len() - i,
    {
        proof {
            assert(es.skip(i as int)[0] == es[i as int]);
            assert(es.skip(i as int).drop_first() =~= es.skip(i + 1));
        }
        if crate::strutil::str_eq(entries[i].0.as_str(), k) {
            return Some(&entries[i].1);
        }
        i = i + 1;
    }
    None
}

/// Whether the key occurs at most once.
pub fn field_unique(entries: &Vec<(String, RawValue)>, k: &str) -> (r: bool)
    ensures
        r == (key_count(entries@, k@) <= 1),
{
    let ghost es = entries@;
    let mut count: usize = 0;
    let mut i: usize = 0;
    proof {
        assert(es.take(0) =~= Seq::<(String, RawValue)>::empty());
    }
    while i < entries.len()
        invariant
            i <= es.len(),
            es == entries@,
            count == key_count(es.take(i as int), k@),
            count <= i,
        decreases es.len() - i,
    {
        proof {
            lemma_key_count_take_step(es, k@, i as int);
        }
        if crate::strutil::str_eq(entries[i].0.as_str(), k) {
            count = count + 1;
        }
        i = i + 1;
    }
    proof {
        assert(es.take(es.len() as int) =~= es);
    }
    count <= 1
}

proof fn lemma_key_count_take_step(es: Seq<(String, RawValue)>, k: Seq<char>, i: int)
    requires
        0 <= i < es.len(),
    ensures
        key_count(es.take(i + 1), k) == key_count(es.take(i), k) + (if es[i].0@ == k {
            1nat
        } else {
            0nat
        }),
    decreases i,
{
    if i == 0 {
        assert(es.take(1).drop_first() =~= es.take(0));
        assert(es.take(1)[0] == es[0]);
    } else {
        lemma_key_count_take_step(es.drop_first(), k, i - 1);
        assert(es.take(i + 1)[0] == es[0]);
        assert(es.take(i + 1).drop_first() =~= es.drop_first().take(i));
        assert(es.take(i)[0] == es[0]);
        assert(es.take(i).drop_first() =~= es.drop_first().take(i - 1));
        assert(es.drop_first()[i - 1] == es[i]);
    }
}

/// The load-time error for a malformed configuration value.
fn conf_err(what: &str) -> (r: ScrapeError)
    ensures
        r is ConfigDeserializeError,
{
    ScrapeError::ConfigDeserializeError(what.to_owned())
}

/// A valid capitalization fix-up value: the string `title` or `skip`.
pub open spec fn cap_valid(raw: RawValue) -> bool {
    raw matches RawValue::Text(s) && (s@ == "title"@ || s@ == "skip"@)
}

/// The fix-up named by a valid value.
pub open spec fn cap_rel(raw: RawValue, v: FixCapitalization) -> bool {
    raw matches RawValue::Text(s) && ((s@ == "title"@ && v is Title) || (s@ == "skip"@ && v
        is Skip))
}

pub fn parse_fix_capitalization(raw: &RawValue) -> (r: Result<FixCapitalization, ScrapeError>)
    ensures
        r is Ok <==> cap_valid(*raw),
        r matches Ok(v) ==> cap_rel(*raw, v),
        r matches Err(e) ==> e is ConfigDeserializeError,
{
    match raw {
        RawValue::Text(s) => {
            if crate::strutil::str_eq(s.as_str(), "title") {
                Ok(FixCapitalization::Title)
            } else if crate::strutil::str_eq(s.as_str(), "skip") {
                Ok(FixCapitalization::Skip)
            } else {
                Err(conf_err("unknown capitalization fix"))
            }
        },
        _ => Err(conf_err("capitalization fix must be a string")),
    }
}

/// A valid cleanup rule: an object whose `replace_regex` is a compiling
/// pattern and whose `replace_with` is a string, each given once.
pub open spec fn cleanup_valid(raw: RawValue) -> bool {
    raw matches RawValue::Object(es) && {
        &&& key_count(es@, "replace_regex"@) <= 1
        &&& key_count(es@, "replace_with"@) <= 1
        &&& field_of(es@, "replace_regex"@) matches Some(RawValue::Text(p)) && regex_valid_of(p@)
        &&& field_of(es@, "replace_with"@) matches Some(RawValue::Text(_))
    }
}

pub open spec fn cleanup_rel(raw: RawValue, v: CleanupOption) -> bool {
    raw matches RawValue::Object(es) && {
        &&& field_of(es@, "replace_regex"@) == Some(RawValue::Text(v.replace_regex))
        &&& field_of(es@, "replace_with"@) == Some(RawValue::Text(v.replace_with))
    }
}

pub fn parse_cleanup_option(raw: &RawValue) -> (r: Result<CleanupOption, ScrapeError>)
    ensures
        r is Ok <==> cleanup_valid(*raw),
        r matches Ok(v) ==> cleanup_rel(*raw, v),
        r matches Err(e) ==> e is ConfigDeserializeError,
{
    let es = match raw {
        RawValue::Object(es) => es,
        _ => {
            return Err(conf_err("cleanup rule must be an object"));
        },
    };
    if !field_unique(es, "replace_regex") || !field_unique(es, "replace_with") {
        return Err(conf_err("duplicate field in cleanup rule"));
    }
    let pattern = match find_field(es, "replace_regex") {
        Some(RawValue::Text(p)) => p.clone(),
        _ => {
            return Err(conf_err("cleanup rule needs a replace_regex string"));
        },
    };
    if !regex_is_valid(pattern.as_str()) {
        return Err(conf_err("cleanup pattern does not compile"));
    }
    let replacement = match find_field(es, "replace_with") {
        Some(RawValue::Text(w)) => w.clone(),
        _ => {
            return Err(conf_err("cleanup rule needs a replace_with string"));
        },
    };
    Ok(CleanupOption { replace_regex: pattern, replace_with: replacement })
}

/// A valid string list: every element a string.
pub open spec fn string_list_valid(items: Seq<RawValue>) -> bool {
    forall|i: int| 0 <= i < items.len() ==> #[trigger] items[i] is Text
}

pub open spec fn string_list_rel(items: Seq<RawValue>, v: Seq<String>) -> bool {
    v.len() == items.len() && forall|i: int|
        0 <= i < items.len() ==> #[trigger] items[i] == RawValue::Text(v[i])
}

fn parse_string_list(items: &Vec<RawValue>) -> (r: Result<Vec<String>, ScrapeError>)
    ensures
        r is Ok <==> string_list_valid(items@),
        r matches Ok(v) ==> string_list_rel(items@, v@),
        r matches Err(e) ==> e is ConfigDeserializeError,
{
    let mut out: Vec<String> = Vec::new();
    let mut i: usize = 0;
    while i < items.len()
        invariant
            i <= items@.len(),
            out@.len() == i,
            forall|j: int| 0 <= j < i ==> #[trigger] items@[j] == RawValue::Text(out@[j]),
        decreases items@.len() - i,
    {
        match &items[i] {
            RawValue::Text(s) => {
                out.push(s.clone());
            },
            _ => {
                return Err(conf_err("expected a string"));
            },
        }
        i = i + 1;
    }
    Ok(out)
}

/// A valid text-selection value: an object whose `type` is `own-text`,
/// `all-text` (with an optional string `join_with`) or `attributes`
/// (with an optional string list `attributes`); unknown keys ignored.
pub open spec fn selection_valid(raw: RawValue) -> bool {
    raw matches RawValue::Object(es) && {
        &&& key_count(es@, "type"@) <= 1
        &&& key_count(es@, "join_with"@) <= 1
        &&& key_count(es@, "attributes"@) <= 1
        &&& match field_of(es@, "type"@) {
            Some(RawValue::Text(ty)) => {
                if ty@ == "own-text"@ {
                    true
                } else if ty@ == "all-text"@ {
                    match field_of(es@, "join_with"@) {
                        None => true,
                        Some(RawValue::Text(_)) => true,
                        Some(_) => false,
                    }
                } else if ty@ == "attributes"@ {
                    match field_of(es@, "attributes"@) {
                        None => true,
                        Some(RawValue::List(items)) => string_list_valid(items@),
                        Some(_) => false,
                    }
                } else {
                    false
                }
            },
            _ => false,
        }
    }
}

pub open spec fn selection_rel(raw: RawValue, v: StringSelection) -> bool {
    raw matches RawValue::Object(es) && match field_of(es@, "type"@) {
        Some(RawValue::Text(ty)) => {
            if ty@ == "own-text"@ {
                v is OwnText
            } else if ty@ == "all-text"@ {
                v matches StringSelection::AllText { join_with } && match field_of(
                    es@,
                    "join_with"@,
                ) {
                    Some(RawValue::Text(j)) => join_with == j,
                    None => join_with@ == " "@,
                    Some(_) => false,
                }
            } else if ty@ == "attributes"@ {
                v matches StringSelection::Attributes(attrs) && match field_of(
                    es@,
                    "attributes"@,
                ) {
                    Some(RawValue::List(items)) => string_list_rel(items@, attrs@),
                    None => attrs@.len() == 0,
                    Some(_) => false,
                }
            } else {
                false
            }
        },
        _ => false,
    }
}

pub fn parse_string_selection(raw: &RawValue) -> (r: Result<StringSelection, ScrapeError>)
    ensures
        r is Ok <==> selection_valid(*raw),
        r matches Ok(v) ==> selection_rel(*raw, v),
        r matches Err(e) ==> e is ConfigDeserializeError,
{
    let es = match raw {
        RawValue::Object(es) => es,
        _ => {
            return Err(conf_err("text selection must be an object"));
        },
    };
    if !field_unique(es, "type") || !field_unique(es, "join_with") || !field_unique(
        es,
        "attributes",
    ) {
        return Err(conf_err("duplicate field in text selection"));
    }
    let ty = match find_field(es, "type") {
        Some(RawValue::Text(t)) => t,
        _ => {
            return Err(conf_err("text selection needs a type"));
        },
    };
    if crate::strutil::str_eq(ty.as_str(), "own-text") {
        Ok(StringSelection::OwnText)
    } else if crate::strutil::str_eq(ty.as_str(), "all-text") {
        let join_with = match find_field(es, "join_with") {
            Some(RawValue::Text(j)) => j.clone(),
            None => String::from_str(" "),
            Some(_) => {
                return Err(conf_err("join_with must be a string"));
            },
        };
        Ok(StringSelection::AllText { join_with })
    } else if crate::strutil::str_eq(ty.as_str(), "attributes") {
        let attrs = match find_field(es, "attributes") {
            Some(RawValue::List(items)) => parse_string_list(items)?,
            None => Vec::new(),
            Some(_) => {
                return Err(conf_err("attributes must be a list of strings"));
            },
        };
        Ok(StringSelection::Attributes(attrs))
    } else {
        Err(conf_err("unknown text selection type"))
    }
}

/// A valid cleanup list value.
pub open spec fn cleanup_list_valid_seq(items: Seq<RawValue>) -> bool
    decreases items.len(),
{
    items.len() == 0 || (cleanup_valid(items[0]) && cleanup_list_valid_seq(items.drop_first()))
}

pub open spec fn cleanup_list_valid(raw: RawValue) -> bool {
    match raw {
        RawValue::List(items) => cleanup_list_valid_seq(items@),
        _ => false,
    }
}

pub open spec fn cleanup_list_rel_seq(items: Seq<RawValue>, v: Seq<CleanupOption>) -> bool
    decreases items.len(),
{
    if items.len() == 0 {
        v.len() == 0
    } else {
        v.len() == items.len() && cleanup_rel(items[0], v[0]) && cleanup_list_rel_seq(
            items.drop_first(),
            v.drop_first(),
        )
    }
}

pub open spec fn cleanup_list_rel(raw: RawValue, v: Seq<CleanupOption>) -> bool {
    match raw {
        RawValue::List(items) => cleanup_list_rel_seq(items@, v),
        _ => false,
    }
}

proof fn lemma_cleanup_seq_from_pointwise(items: Seq<RawValue>, v: Seq<CleanupOption>)
    requires
        items.len() == v.len(),
        forall|j: int| 0 <= j < items.len() ==> cleanup_valid(#[trigger] items[j]),
        forall|j: int| 0 <= j < items.len() ==> cleanup_rel(#[trigger] items[j], v[j]),
    ensures
        cleanup_list_valid_seq(items),
        cleanup_list_rel_seq(items, v),
    decreases items.len(),
{
    if items.len() > 0 {
        let it = items.drop_first();
        let vt = v.drop_first();
        assert(forall|j: int| 0 <= j < it.len() ==> #[trigger] it[j] == items[j + 1]);
        assert(forall|j: int| 0 <= j < vt.len() ==> #[trigger] vt[j] == v[j + 1]);
        lemma_cleanup_seq_from_pointwise(it, vt);
    }
}

proof fn lemma_cleanup_seq_invalid(items: Seq<RawValue>, i: int)
    requires
        0 <= i < items.len(),
        !cleanup_valid(items[i]),
    ensures
        !cleanup_list_valid_seq(items),
    decreases i,
{
    if i > 0 {
        lemma_cleanup_seq_invalid(items.drop_first(), i - 1);
    }
}

#[verifier::rlimit(50)]
fn parse_cleanup_list(raw: &RawValue) -> (r: Result<Vec<CleanupOption>, ScrapeError>)
    ensures
        r is Ok <==> cleanup_list_valid(*raw),
        r matches Ok(v) ==> cleanup_list_rel(*raw, v@),
        r matches Err(e) ==> e is ConfigDeserializeError,
{
    match raw {
        RawValue::List(items) => {
            let mut out: Vec<CleanupOption> = Vec::new();
            let mut i: usize = 0;
            while i < items.len()
                invariant
                    *raw == RawValue::List(*items),
                    i <= items@.len(),
                    out@.len() == i,
                    forall|j: int| 0 <= j < i ==> cleanup_valid(#[trigger] items@[j]),
                    forall|j: int| 0 <= j < i ==> cleanup_rel(#[trigger] items@[j], out@[j]),
                decreases items@.len() - i,
            {
                match parse_cleanup_option(&items[i]) {
                    Ok(c) => {
                        out.push(c);
                    },
                    Err(e) => {
                        proof {
                            lemma_cleanup_seq_invalid(items@, i as int);
                        }
                        return Err(e);
                    },
                }
                i = i + 1;
            }
            proof {
                lemma_cleanup_seq_from_pointwise(items@, out@);
            }
            Ok(out)
        },
        _ => Err(conf_err("cleanup must be a list")),
    }
}

/// Valid scalar-selector options: an object (possibly empty) whose
/// present keys parse; absent keys take the defaults.
pub open spec fn string_options_valid(raw: RawValue) -> bool {
    raw matches RawValue::Object(es) && {
        &&& key_count(es@, "cleanup"@) <= 1
        &&& key_count(es@, "fix_capitalization"@) <= 1
        &&& key_count(es@, "text_selection"@) <= 1
        &&& match field_of(es@, "cleanup"@) {
            None => true,
            Some(c) => cleanup_list_valid(c),
        }
        &&& match field_of(es@, "fix_capitalization"@) {
            None => true,
            Some(c) => cap_valid(c),
        }
        &&& match field_of(es@, "text_selection"@) {
            None => true,
            Some(s) => selection_valid(s),
        }
    }
}

pub open spec fn string_options_rel(raw: RawValue, v: StringSelectorOptions) -> bool {
    raw matches RawValue::Object(es) && {
        &&& match field_of(es@, "cleanup"@) {
            None => v.cleanup@.len() == 0,
            Some(c) => cleanup_list_rel(c, v.cleanup@),
        }
        &&& match field_of(es@, "fix_capitalization"@) {
            None => v.fix_capitalization is Skip,
            Some(c) => cap_rel(c, v.fix_capitalization),
        }
        &&& match field_of(es@, "text_selection"@) {
            None => v.text_selection matches StringSelection::AllText { join_with } && join_with@
                == " "@,
            Some(s) => selection_rel(s, v.text_selection),
        }
    }
}

pub fn parse_string_selector_options(raw: &RawValue) -> (r: Result<
    StringSelectorOptions,
    ScrapeError,
>)
    ensures
        r is Ok <==> string_options_valid(*raw),
        r matches Ok(v) ==> string_options_rel(*raw, v),
        r matches Err(e) ==> e is ConfigDeserializeError,
{
    let es = match raw {
        RawValue::Object(es) => es,
        _ => {
            return Err(conf_err("selector options must be an object"));
        },
    };
    if !field_unique(es, "cleanup") || !field_unique(es, "fix_capitalization") || !field_unique(
        es,
        "text_selection",
    ) {
        return Err(conf_err("duplicate field in selector options"));
    }
    let cleanup = match find_field(es, "cleanup") {
        None => Vec::new(),
        Some(c) => parse_cleanup_list(c)?,
    };
    let fix_capitalization = match find_field(es, "fix_capitalization") {
        None => FixCapitalization::Skip,
        Some(c) => parse_fix_capitalization(c)?,
    };
    let text_selection = match find_field(es, "text_selection") {
        None => StringSelection::default_selection(),
        Some(s) => parse_string_selection(s)?,
    };
    Ok(StringSelectorOptions { cleanup, fix_capitalization, text_selection })
}

/// Valid scalar selector: a bare string, or an object whose `selector`
/// is a string given once and whose optional `options` parse.
pub open spec fn selector_valid(raw: RawValue) -> bool {
    match raw {
        RawValue::Text(_) => true,
        RawValue::Object(es) => {
            &&& key_count(es@, "selector"@) <= 1
            &&& key_count(es@, "options"@) <= 1
            &&& field_of(es@, "selector"@) matches Some(RawValue::Text(_))
            &&& match field_of(es@, "options"@) {
                None => true,
                Some(o) => string_options_valid(o),
            }
        },
        _ => false,
    }
}

pub open spec fn default_string_options(v: StringSelectorOptions) -> bool {
    &&& v.cleanup@.len() == 0
    &&& v.fix_capitalization is Skip
    &&& v.text_selection matches StringSelection::AllText { join_with } && join_with@ == " "@
}

pub open spec fn selector_rel(raw: RawValue, v: StringSelector) -> bool {
    match raw {
        RawValue::Text(s) => v.selector == s && default_string_options(v.options),
        RawValue::Object(es) => {
            &&& field_of(es@, "selector"@) == Some(RawValue::Text(v.selector))
            &&& match field_of(es@, "options"@) {
                None => default_string_options(v.options),
                Some(o) => string_options_rel(o, v.options),
            }
        },
        _ => false,
    }
}

pub fn parse_string_selector(raw: &RawValue) -> (r: Result<StringSelector, ScrapeError>)
    ensures
        r is Ok <==> selector_valid(*raw),
        r matches Ok(v) ==> selector_rel(*raw, v),
        r matches Err(e) ==> e is ConfigDeserializeError,
{
    match raw {
        RawValue::Text(s) => Ok(
            StringSelector {
                selector: s.clone(),
                options: StringSelectorOptions::default_options(),
            },
        ),
        RawValue::Object(es) => {
            if !field_unique(es, "selector") || !field_unique(es, "options") {
                return Err(conf_err("duplicate field in selector"));
            }
            let selector = match find_field(es, "selector") {
                Some(RawValue::Text(s)) => s.clone(),
                _ => {
                    return Err(conf_err("selector object needs a selector string"));
                },
            };
            let options = match find_field(es, "options") {
                None => StringSelectorOptions::default_options(),
                Some(o) => parse_string_selector_options(o)?,
            };
            Ok(StringSelector { selector, options })
        },
        _ => Err(conf_err("selector must be a string or an object")),
    }
}

/// Valid scalar group: one valid selector value, or a non-empty list of
/// valid selector values.
pub open spec fn selectors_valid(raw: RawValue) -> bool {
    match raw {
        RawValue::List(items) => items@.len() >= 1 && forall|i: int|
            0 <= i < items@.len() ==> selector_valid(#[trigger] items@[i]),
        _ => selector_valid(raw),
    }
}

pub open spec fn selectors_rel(raw: RawValue, v: StringSelectors) -> bool {
    match raw {
        RawValue::List(items) => v.selectors@.len() == items@.len() && forall|i: int|
            0 <= i < items@.len() ==> selector_rel(#[trigger] items@[i], v.selectors@[i]),
        _ => v.selectors@.len() == 1 && selector_rel(raw, v.selectors@[0]),
    }
}

pub fn parse_string_selectors(raw: &RawValue) -> (r: Result<StringSelectors, ScrapeError>)
    ensures
        r is Ok <==> selectors_valid(*raw),
        r matches Ok(v) ==> selectors_rel(*raw, v) && v.wf(),
        r matches Err(e) ==> e is ConfigDeserializeError,
{
    match raw {
        RawValue::List(items) => {
            if items.len() == 0 {
                return Err(conf_err("a selector group needs at least one member"));
            }
            let mut out: Vec<StringSelector> = Vec::new();
            let mut i: usize = 0;
            while i < items.len()
                invariant
                    *raw == RawValue::List(*items),
                    i <= items@.len(),
                    out@.len() == i,
                    forall|j: int| 0 <= j < i ==> selector_valid(#[trigger] items@[j]),
                    forall|j: int| 0 <= j < i ==> selector_rel(#[trigger] items@[j], out@[j]),
                decreases items@.len() - i,
            {
                match parse_string_selector(&items[i]) {
                    Ok(s) => {
                        out.push(s);
                    },
                    Err(e) => {
                        proof {
                            assert(!selector_valid(items@[i as int]));
                            assert(!selectors_valid(*raw));
                        }
                        return Err(e);
                    },
                }
                i = i + 1;
            }
            Ok(StringSelectors { selectors: out })
        },
        _ => {
            let one = parse_string_selector(raw)?;
            let mut out: Vec<StringSelector> = Vec::new();
            out.push(one);
            Ok(StringSelectors { selectors: out })
        },
    }
}

/// Valid list-selector options: as scalar options, with an optional
/// `text_split_regex` that is nothing or a compiling pattern.
pub open spec fn array_options_valid(raw: RawValue) -> bool {
    raw matches RawValue::Object(es) && {
        &&& key_count(es@, "cleanup"@) <= 1
        &&& key_count(es@, "fix_capitalization"@) <= 1
        &&& key_count(es@, "text_selection"@) <= 1
        &&& key_count(es@, "text_split_regex"@) <= 1
        &&& match field_of(es@, "cleanup"@) {
            None => true,
            Some(c) => cleanup_list_valid(c),
        }
        &&& match field_of(es@, "fix_capitalization"@) {
            None => true,
            Some(c) => cap_valid(c),
        }
        &&& match field_of(es@, "text_selection"@) {
            None => true,
            Some(s) => selection_valid(s),
        }
        &&& match field_of(es@, "text_split_regex"@) {
            None => true,
            Some(RawValue::Null) => true,
            Some(RawValue::Text(p)) => regex_valid_of(p@),
            Some(_) => false,
        }
    }
}

pub open spec fn array_options_rel(raw: RawValue, v: ArraySelectorOptions) -> bool {
    raw matches RawValue::Object(es) && {
        &&& match field_of(es@, "cleanup"@) {
            None => v.cleanup@.len() == 0,
            Some(c) => cleanup_list_rel(c, v.cleanup@),
        }
        &&& match field_of(es@, "fix_capitalization"@) {
            None => v.fix_capitalization is Skip,
            Some(c) => cap_rel(c, v.fix_capitalization),
        }
        &&& match field_of(es@, "text_selection"@) {
            None => v.text_selection matches StringSelection::AllText { join_with } && join_with@
                == " "@,
            Some(s) => selection_rel(s, v.text_selection),
        }
        &&& match field_of(es@, "text_split_regex"@) {
            None => v.text_split_regex matches Some(p) && p@ == default_split_pattern(),
            Some(RawValue::Null) => v.text_split_regex is None,
            Some(RawValue::Text(p)) => v.text_split_regex == Some(p),
            Some(_) => false,
        }
    }
}

pub fn parse_array_selector_options(raw: &RawValue) -> (r: Result<
    ArraySelectorOptions,
    ScrapeError,
>)
    ensures
        r is Ok <==> array_options_valid(*raw),
        r matches Ok(v) ==> array_options_rel(*raw, v),
        r matches Err(e) ==> e is ConfigDeserializeError,
{
    let es = match raw {
        RawValue::Object(es) => es,
        _ => {
            return Err(conf_err("selector options must be an object"));
        },
    };
    if !field_unique(es, "cleanup") || !field_unique(es, "fix_capitalization") || !field_unique(
        es,
        "text_selection",
    ) || !field_unique(es, "text_split_regex") {
        return Err(conf_err("duplicate field in selector options"));
    }
    let cleanup = match find_field(es, "cleanup") {
        None => Vec::new(),
        Some(c) => parse_cleanup_list(c)?,
    };
    let fix_capitalization = match find_field(es, "fix_capitalization") {
        None => FixCapitalization::Skip,
        Some(c) => parse_fix_capitalization(c)?,
    };
    let text_selection = match find_field(es, "text_selection") {
        None => StringSelection::default_selection(),
        Some(s) => parse_string_selection(s)?,
    };
    let text_split_regex = match find_field(es, "text_split_regex") {
        None => Some(default_split_regex()),
        Some(RawValue::Null) => None,
        Some(RawValue::Text(p)) => {
            if !regex_is_valid(p.as_str()) {
                return Err(conf_err("split pattern does not compile"));
            }
            Some(p.clone())
        },
        Some(_) => {
            return Err(conf_err("text_split_regex must be a string or nothing"));
        },
    };
    Ok(ArraySelectorOptions { cleanup, fix_capitalization, text_selection, text_split_regex })
}

pub open spec fn default_array_options(v: ArraySelectorOptions) -> bool {
    &&& v.cleanup@.len() == 0
    &&& v.fix_capitalization is Skip
    &&& v.text_selection matches StringSelection::AllText { join_with } && join_with@ == " "@
    &&& v.text_split_regex matches Some(p) && p@ == default_split_pattern()
}

/// Valid list selector: a bare string, or an object with a `selector`
/// string and optional list options.
pub open spec fn array_selector_valid(raw: RawValue) -> bool {
    match raw {
        RawValue::Text(_) => true,
        RawValue::Object(es) => {
            &&& key_count(es@, "selector"@) <= 1
            &&& key_count(es@, "options"@) <= 1
            &&& field_of(es@, "selector"@) matches Some(RawValue::Text(_))
            &&& match field_of(es@, "options"@) {
                None => true,
                Some(o) => array_options_valid(o),
            }
        },
        _ => false,
    }
}

pub open spec fn array_selector_rel(raw: RawValue, v: ArraySelector) -> bool {
    match raw {
        RawValue::Text(s) => v.selector == s && default_array_options(v.options),
        RawValue::Object(es) => {
            &&& field_of(es@, "selector"@) == Some(RawValue::Text(v.selector))
            &&& match field_of(es@, "options"@) {
                None => default_array_options(v.options),
                Some(o) => array_options_rel(o, v.options),
            }
        },
        _ => false,
    }
}

pub fn parse_array_selector(raw: &RawValue) -> (r: Result<ArraySelector, ScrapeError>)
    ensures
        r is Ok <==> array_selector_valid(*raw),
        r matches Ok(v) ==> array_selector_rel(*raw, v),
        r matches Err(e) ==> e is ConfigDeserializeError,
{
    match raw {
        RawValue::Text(s) => Ok(
            ArraySelector { selector: s.clone(), options: ArraySelectorOptions::default_options() },
        ),
        RawValue::Object(es) => {
            if !field_unique(es, "selector") || !field_unique(es, "options") {
                return Err(conf_err("duplicate field in selector"));
            }
            let selector = match find_field(es, "selector") {
                Some(RawValue::Text(s)) => s.clone(),
                _ => {
                    return Err(conf_err("selector object needs a selector string"));
                },
            };
            let options = match find_field(es, "options") {
                None => ArraySelectorOptions::default_options(),
                Some(o) => parse_array_selector_options(o)?,
            };
            Ok(ArraySelector { selector, options })
        },
        _ => Err(conf_err("selector must be a string or an object")),
    }
}

/// Valid list group: one valid list selector, or a non-empty list of them.
pub open spec fn array_selectors_valid(raw: RawValue) -> bool {
    match raw {
        RawValue::List(items) => items@.len() >= 1 && forall|i: int|
            0 <= i < items@.len() ==> array_selector_valid(#[trigger] items@[i]),
        _ => array_selector_valid(raw),
    }
}

pub open spec fn array_selectors_rel(raw: RawValue, v: ArraySelectors) -> bool {
    match raw {
        RawValue::List(items) => v.selectors@.len() == items@.len() && forall|i: int|
            0 <= i < items@.len() ==> array_selector_rel(#[trigger] items@[i], v.selectors@[i]),
        _ => v.selectors@.len() == 1 && array_selector_rel(raw, v.selectors@[0]),
    }
}

pub fn parse_array_selectors(raw: &RawValue) -> (r: Result<ArraySelectors, ScrapeError>)
    ensures
        r is Ok <==> array_selectors_valid(*raw),
        r matches Ok(v) ==> array_selectors_rel(*raw, v) && v.wf(),
        r matches Err(e) ==> e is ConfigDeserializeError,
{
    match raw {
        RawValue::List(items) => {
            if items.len() == 0 {
                return Err(conf_err("a selector group needs at least one member"));
            }
            let mut out: Vec<ArraySelector> = Vec::new();
            let mut i: usize = 0;
            while i < items.len()
                invariant
                    *raw == RawValue::List(*items),
                    i <= items@.len(),
                    out@.len() == i,
                    forall|j: int| 0 <= j < i ==> array_selector_valid(#[trigger] items@[j]),
                    forall|j: int| 0 <= j < i ==> array_selector_rel(#[trigger] items@[j], out@[j]),
                decreases items@.len() - i,
            {
                match parse_array_selector(&items[i]) {
                    Ok(s) => {
                        out.push(s);
                    },
                    Err(e) => {
                        proof {
                            assert(!array_selector_valid(items@[i as int]));
                            assert(!array_selectors_valid(*raw));
                        }
                        return Err(e);
                    },
                }
                i = i + 1;
            }
            Ok(ArraySelectors { selectors: out })
        },
        _ => {
            let one = parse_array_selector(raw)?;
            let mut out: Vec<ArraySelector> = Vec::new();
            out.push(one);
            Ok(ArraySelectors { selectors: out })
        },
    }
}

/// Validates a pattern at load time, so that rules carrying patterns are
/// known to compile before they run.
pub fn validated_pattern(p: &String) -> (r: Result<String, ScrapeError>)
    ensures
        r is Ok <==> regex_valid_of(p@),
        r matches Ok(v) ==> v == p,
        r matches Err(e) ==> e is ConfigDeserializeError,
{
    if regex_is_valid(p.as_str()) {
        Ok(p.clone())
    } else {
        Err(conf_err("pattern does not compile"))
    }
}

} // verus!
