//! The text-extraction pipeline: resolves one selector group against one
//! document node into a clean scalar, or a list of strings.
//!
//! Group members are priority-ordered alternative strategies for the same
//! logical field: the scalar path stops at the first member whose
//! post-processed text is non-empty, the list path at the first member
//! that yields at least one item.

use vstd::prelude::*;
use crate::config::{
    StringSelection, FixCapitalization, CleanupOption, StringSelectorOptions, StringSelectors,
    ArraySelectorOptions, ArraySelectors,
};
use crate::dom::{Node, Elements, ElementsTrait, css_valid_of};
use crate::strutil::{str_views, lemma_str_views_push, lemma_str_views_empty};
use crate::error::ScrapeError;
use crate::outside::{replaced_of, regex_replace_all, title_case_of, title_case, split_of,
    regex_split};
use crate::strutil::{trim_spec, trim_string};

verus! {

/// Cleanup rules applied in declared order: each rule's pattern is
/// replaced throughout before the next rule runs.
pub open spec fn cleanup_fold(rules: Seq<CleanupOption>, t: Seq<char>) -> Seq<char>
    decreases rules.len(),
{
    if rules.len() == 0 {
        t
    } else {
        cleanup_fold(
            rules.drop_first(),
            replaced_of(rules[0].replace_regex@, t, rules[0].replace_with@),
        )
    }
}

/// The capitalization fix-up, applied last.
pub open spec fn capitalize_spec(fix: FixCapitalization, t: Seq<char>) -> Seq<char> {
    if fix is Title {
        title_case_of(t)
    } else {
        t
    }
}

/// One member's post-processing of raw text: trim; an empty trim yields
/// nothing; then ordered cleanup; then capitalization; an empty final
/// text yields nothing.
pub open spec fn step_spec(
    rules: Seq<CleanupOption>,
    fix: FixCapitalization,
    raw: Seq<char>,
) -> Option<Seq<char>> {
    let t = trim_spec(raw);
    if t.len() == 0 {
        None
    } else {
        let f = capitalize_spec(fix, cleanup_fold(rules, t));
        if f.len() == 0 {
            None
        } else {
            Some(f)
        }
    }
}

/// The scalar pipeline step of one group member.
pub open spec fn scalar_step_spec(opts: StringSelectorOptions, raw: Seq<char>) -> Option<
    Seq<char>,
> {
    step_spec(opts.cleanup@, opts.fix_capitalization, raw)
}

/// The scalar fallback chain over the members' raw texts: the first member
/// whose post-processed text is non-empty decides the result.
pub open spec fn resolve_from_raws(
    opts: Seq<StringSelectorOptions>,
    raws: Seq<Seq<char>>,
) -> Option<Seq<char>>
    decreases opts.len(),
{
    if opts.len() == 0 || raws.len() == 0 {
        None
    } else {
        match scalar_step_spec(opts[0], raws[0]) {
            Some(v) => Some(v),
            None => resolve_from_raws(opts.drop_first(), raws.drop_first()),
        }
    }
}

/// Fallback short-circuits: when member `k` is the first to yield output,
/// the resolved text depends only on members `0..=k` and their raw texts;
/// whatever stands after `k` in either group, the result is member `k`'s.
pub proof fn lemma_fallback_short_circuit(
    a: Seq<StringSelectorOptions>,
    b: Seq<StringSelectorOptions>,
    ra: Seq<Seq<char>>,
    rb: Seq<Seq<char>>,
    k: int,
)
    requires
        0 <= k < a.len(),
        k < b.len(),
        k < ra.len(),
        k < rb.len(),
        forall|j: int| 0 <= j <= k ==> a[j] == b[j] && ra[j] == rb[j],
        forall|j: int| 0 <= j < k ==> #[trigger] scalar_step_spec(a[j], ra[j]) is None,
        scalar_step_spec(a[k], ra[k]) is Some,
    ensures
        resolve_from_raws(a, ra) == scalar_step_spec(a[k], ra[k]),
        resolve_from_raws(b, rb) == scalar_step_spec(a[k], ra[k]),
    decreases k,
{
    if k == 0 {
        assert(resolve_from_raws(a, ra) == scalar_step_spec(a[0], ra[0]));
        assert(resolve_from_raws(b, rb) == scalar_step_spec(b[0], rb[0]));
    } else {
        assert(scalar_step_spec(a[0], ra[0]) is None);
        assert(scalar_step_spec(b[0], rb[0]) is None);
        let a1 = a.drop_first();
        let b1 = b.drop_first();
        let ra1 = ra.drop_first();
        let rb1 = rb.drop_first();
        assert(forall|j: int| 0 <= j <= k - 1 ==> a1[j] == b1[j] && ra1[j] == rb1[j]);
        assert(forall|j: int|
            0 <= j < k - 1 ==> #[trigger] scalar_step_spec(a1[j], ra1[j]) is None) by {
            assert(forall|j: int|
                0 <= j < k - 1 ==> scalar_step_spec(a1[j], ra1[j]) == #[trigger] scalar_step_spec(
                    a[j + 1],
                    ra[j + 1],
                ));
        }
        lemma_fallback_short_circuit(a1, b1, ra1, rb1, k - 1);
    }
}

/// A fixed point of every rule of a list stays unchanged under the fold.
proof fn lemma_fold_of_fixed_point(rules: Seq<CleanupOption>, t: Seq<char>)
    requires
        forall|j: int|
            0 <= j < rules.len() ==> #[trigger] replaced_of(
                rules[j].replace_regex@,
                t,
                rules[j].replace_with@,
            ) == t,
    ensures
        cleanup_fold(rules, t) == t,
    decreases rules.len(),
{
    if rules.len() > 0 {
        assert(replaced_of(rules[0].replace_regex@, t, rules[0].replace_with@) == t);
        let r1 = rules.drop_first();
        assert(forall|j: int|
            0 <= j < r1.len() ==> #[trigger] replaced_of(r1[j].replace_regex@, t, r1[j].replace_with@)
                == t) by {
            assert(forall|j: int|
                0 <= j < r1.len() ==> r1[j] == #[trigger] rules[j + 1]);
        }
        lemma_fold_of_fixed_point(r1, t);
    }
}

/// Applying a cleanup list twice is the same as applying it once, when no
/// rule's replacement re-introduces its own match pattern — that is, when
/// every rule leaves the already-cleaned text unchanged.
pub proof fn lemma_cleanup_idempotent(rules: Seq<CleanupOption>, s: Seq<char>)
    requires
        forall|j: int|
            0 <= j < rules.len() ==> #[trigger] replaced_of(
                rules[j].replace_regex@,
                cleanup_fold(rules, s),
                rules[j].replace_with@,
            ) == cleanup_fold(rules, s),
    ensures
        cleanup_fold(rules, cleanup_fold(rules, s)) == cleanup_fold(rules, s),
{
    lemma_fold_of_fixed_point(rules, cleanup_fold(rules, s));
}

/// Applies the cleanup rules in declared order.
pub fn apply_cleanups(rules: &Vec<CleanupOption>, t: &str) -> (r: String)
    ensures
        r@ == cleanup_fold(rules@, t@),
{
    let mut cur = t.to_owned();
    let mut i: usize = 0;
    proof {
        assert(rules@.skip(0) =~= rules@);
    }
    while i < rules.len()
        invariant
            i <= rules@.len(),
            cleanup_fold(rules@, t@) == cleanup_fold(rules@.skip(i as int), cur@),
        decreases rules@.len() - i,
    {
        proof {
            assert(rules@.skip(i as int)[0] == rules@[i as int]);
            assert(rules@.skip(i as int).drop_first() =~= rules@.skip(i + 1));
        }
        cur = regex_replace_all(
            rules[i].replace_regex.as_str(),
            cur.as_str(),
            rules[i].replace_with.as_str(),
        );
        i = i + 1;
    }
    proof {
        assert(rules@.skip(rules@.len() as int) =~= Seq::<CleanupOption>::empty());
    }
    cur
}

/// One pipeline step over already-extracted raw text.
pub fn pipeline_step(rules: &Vec<CleanupOption>, fix: &FixCapitalization, raw: &str) -> (r: Option<
    String,
>)
    ensures
        match r {
            Some(s) => step_spec(rules@, *fix, raw@) == Some(s@),
            None => step_spec(rules@, *fix, raw@) is None,
        },
{
    let t = trim_string(raw);
    if t.as_str().unicode_len() == 0 {
        return None;
    }
    let c = apply_cleanups(rules, t.as_str());
    let f = match fix {
        FixCapitalization::Title => title_case(c.as_str()),
        FixCapitalization::Skip => c,
    };
    if f.as_str().unicode_len() == 0 {
        None
    } else {
        Some(f)
    }
}

/// The scalar pipeline over the members' raw texts, as a value: used to
/// exercise the fallback chain on known inputs.
pub fn resolve_scalar_from_raws(opts: &Vec<StringSelectorOptions>, raws: &Vec<String>) -> (r:
    Option<String>)
    ensures
        match r {
            Some(s) => resolve_from_raws(opts@, crate::strutil::str_views(raws@)) == Some(s@),
            None => resolve_from_raws(opts@, crate::strutil::str_views(raws@)) is None,
        },
{
    let ghost rv = crate::strutil::str_views(raws@);
    let n: usize = if opts.len() < raws.len() {
        opts.len()
    } else {
        raws.len()
    };
    let mut i: usize = 0;
    proof {
        assert(opts@.skip(0) =~= opts@);
        assert(rv.skip(0) =~= rv);
    }
    while i < n
        invariant
            rv == crate::strutil::str_views(raws@),
            i <= n,
            n == if opts@.len() < raws@.len() {
                opts@.len()
            } else {
                raws@.len()
            },
            resolve_from_raws(opts@, rv) == resolve_from_raws(
                opts@.skip(i as int),
                rv.skip(i as int),
            ),
        decreases n - i,
    {
        proof {
            assert(opts@.skip(i as int)[0] == opts@[i as int]);
            assert(rv.skip(i as int)[0] == rv[i as int]);
            assert(rv[i as int] == raws@[i as int]@);
            assert(opts@.skip(i as int).drop_first() =~= opts@.skip(i + 1));
            assert(rv.skip(i as int).drop_first() =~= rv.skip(i + 1));
        }
        let hit = pipeline_step(&opts[i].cleanup, &opts[i].fix_capitalization, raws[i].as_str());
        if let Some(s) = hit {
            return Some(s);
        }
        i = i + 1;
    }
    proof {
        assert(opts@.skip(i as int).len() == 0 || rv.skip(i as int).len() == 0);
    }
    None
}

/// Raw text of a whole selection, per the member's text-selection mode.
fn raw_of_elements(sel: &StringSelection, els: &Elements) -> String {
    match sel {
        StringSelection::AllText { join_with } => els.all_text(join_with.as_str()),
        StringSelection::OwnText => els.own_text(),
        StringSelection::Attributes(attrs) => {
            match els.attr_first_of(attrs) {
                Some(v) => v,
                None => String::new(),
            }
        },
    }
}

/// Raw text of one node, per the member's text-selection mode.
fn raw_of_node(sel: &StringSelection, node: &Node) -> String {
    match sel {
        StringSelection::AllText { join_with } => node.all_text(join_with.as_str()),
        StringSelection::OwnText => node.own_text(),
        StringSelection::Attributes(attrs) => {
            match node.attr_first_of(attrs) {
                Some(v) => v,
                None => String::new(),
            }
        },
    }
}

/// Resolves a scalar group against a node: members are tried in order and
/// the first whose post-processed text is non-empty wins; a malformed
/// member selector is a distinct error.
pub fn resolve_text(group: &StringSelectors, doc: &Node) -> (r: Result<
    Option<String>,
    ScrapeError,
>)
    ensures
        match r {
            Err(e) => e matches ScrapeError::SelectorError(s) && !css_valid_of(s@) && exists|
                k: int,
            | 0 <= k < group.selectors@.len() && #[trigger] group.selectors@[k].selector == s,
            Ok(out) => match out {
                Some(s) => s@.len() > 0 && exists|k: int, raw: Seq<char>|
                    0 <= k < group.selectors@.len() && #[trigger] scalar_step_spec(
                        group.selectors@[k].options,
                        raw,
                    ) == Some(s@),
                None => true,
            },
        },
{
    let mut i: usize = 0;
    while i < group.selectors.len()
        invariant
            i <= group.selectors@.len(),
        decreases group.selectors@.len() - i,
    {
        let member = &group.selectors[i];
        let els = match doc.select(member.selector.as_str()) {
            Ok(els) => els,
            Err(()) => {
                let s = member.selector.clone();
                proof {
                    assert(group.selectors@[i as int].selector == s);
                }
                return Err(ScrapeError::SelectorError(s));
            },
        };
        let raw = raw_of_elements(&member.options.text_selection, &els);
        let hit = pipeline_step(
            &member.options.cleanup,
            &member.options.fix_capitalization,
            raw.as_str(),
        );
        if let Some(s) = hit {
            proof {
                assert(scalar_step_spec(group.selectors@[i as int].options, raw@) == Some(s@));
            }
            return Ok(Some(s));
        }
        i = i + 1;
    }
    Ok(None)
}

/// The parts of a split item: each part trimmed, empty parts dropped.
pub open spec fn clean_parts(parts: Seq<Seq<char>>) -> Seq<Seq<char>>
    decreases parts.len(),
{
    if parts.len() == 0 {
        Seq::empty()
    } else {
        let h = trim_spec(parts[0]);
        (if h.len() > 0 {
            seq![h]
        } else {
            Seq::empty()
        }) + clean_parts(parts.drop_first())
    }
}

/// A single delimited item exploded into clean parts.
pub open spec fn explode_spec(pattern: Seq<char>, item: Seq<char>) -> Seq<Seq<char>> {
    clean_parts(split_of(pattern, item))
}

/// Clean parts are never empty.
pub proof fn lemma_clean_parts_nonempty(parts: Seq<Seq<char>>, i: int)
    requires
        0 <= i < clean_parts(parts).len(),
    ensures
        clean_parts(parts)[i].len() > 0,
    decreases parts.len(),
{
    if parts.len() > 0 {
        let h = trim_spec(parts[0]);
        if h.len() > 0 {
            if i > 0 {
                lemma_clean_parts_nonempty(parts.drop_first(), i - 1);
            }
        } else {
            lemma_clean_parts_nonempty(parts.drop_first(), i);
        }
    }
}

/// Explodes one item with a split pattern: parts are trimmed and empty
/// parts dropped.
pub fn explode_item(pattern: &str, item: &str) -> (r: Vec<String>)
    ensures
        crate::strutil::str_views(r@) == explode_spec(pattern@, item@),
{
    let parts = regex_split(pattern, item);
    let ghost pv = parts@.map_values(|x: String| x@);
    let mut out: Vec<String> = Vec::new();
    let mut i: usize = 0;
    proof {
        crate::strutil::lemma_str_views_empty();
        assert(pv.skip(0) =~= pv);
    }
    while i < parts.len()
        invariant
            i <= parts@.len(),
            pv == parts@.map_values(|x: String| x@),
            crate::strutil::str_views(out@) + clean_parts(pv.skip(i as int)) == clean_parts(pv),
        decreases parts@.len() - i,
    {
        proof {
            assert(pv.skip(i as int)[0] == pv[i as int]);
            assert(pv[i as int] == parts@[i as int]@);
            assert(pv.skip(i as int).drop_first() =~= pv.skip(i + 1));
        }
        let t = trim_string(parts[i].as_str());
        if t.as_str().unicode_len() > 0 {
            let ghost o0 = out@;
            out.push(t);
            proof {
                crate::strutil::lemma_str_views_push(o0, out@.last());
                assert((crate::strutil::str_views(o0) + seq![trim_spec(pv.skip(i as int)[0])])
                    + clean_parts(pv.skip(i + 1)) =~= crate::strutil::str_views(o0) + (seq![
                    trim_spec(pv.skip(i as int)[0]),
                ] + clean_parts(pv.skip(i + 1))));
                assert(crate::strutil::str_views(out@) =~= crate::strutil::str_views(o0) + seq![
                    trim_spec(pv.skip(i as int)[0]),
                ]);
            }
        } else {
            proof {
                assert(Seq::<Seq<char>>::empty() + clean_parts(pv.skip(i + 1)) =~= clean_parts(
                    pv.skip(i + 1),
                ));
            }
        }
        i = i + 1;
    }
    proof {
        assert(pv.skip(i as int) =~= Seq::<Seq<char>>::empty());
        assert(crate::strutil::str_views(out@) + Seq::<Seq<char>>::empty() =~= crate::strutil::str_views(
            out@,
        ));
    }
    out
}

/// Items of one member over raw texts: each post-processed non-empty
/// text, in order.
pub open spec fn collect_items(
    rules: Seq<CleanupOption>,
    fix: FixCapitalization,
    raws: Seq<Seq<char>>,
) -> Seq<Seq<char>>
    decreases raws.len(),
{
    if raws.len() == 0 {
        Seq::empty()
    } else {
        (match step_spec(rules, fix, raws[0]) {
            Some(v) => seq![v],
            None => Seq::<Seq<char>>::empty(),
        }) + collect_items(rules, fix, raws.drop_first())
    }
}

/// What one list member yields over its matched nodes' raw texts: the
/// post-processed items, a lone one exploded when the member carries a
/// split pattern.
pub open spec fn member_items_spec(opts: ArraySelectorOptions, raws: Seq<Seq<char>>) -> Seq<
    Seq<char>,
> {
    let items = collect_items(opts.cleanup@, opts.fix_capitalization, raws);
    match opts.text_split_regex {
        Some(p) => if items.len() == 1 {
            explode_spec(p@, items[0])
        } else {
            items
        },
        None => items,
    }
}

/// The list fallback chain over per-member raw texts: the first member
/// yielding at least one item decides; no member yielding gives the
/// empty list — absence is never an error here.
pub open spec fn resolve_list_from_raws(
    opts: Seq<ArraySelectorOptions>,
    rows: Seq<Seq<Seq<char>>>,
) -> Seq<Seq<char>>
    decreases opts.len(),
{
    if opts.len() == 0 || rows.len() == 0 {
        Seq::empty()
    } else {
        let items = member_items_spec(opts[0], rows[0]);
        if items.len() > 0 {
            items
        } else {
            resolve_list_from_raws(opts.drop_first(), rows.drop_first())
        }
    }
}

/// List fallback short-circuits: when member `k` is the first to yield
/// items, the resolved list depends only on members `0..=k` and their
/// raw texts — the group is a priority-ordered fallback chain, not a
/// union.
pub proof fn lemma_list_fallback_short_circuit(
    a: Seq<ArraySelectorOptions>,
    b: Seq<ArraySelectorOptions>,
    ra: Seq<Seq<Seq<char>>>,
    rb: Seq<Seq<Seq<char>>>,
    k: int,
)
    requires
        0 <= k < a.len(),
        k < b.len(),
        k < ra.len(),
        k < rb.len(),
        forall|j: int| 0 <= j <= k ==> a[j] == b[j] && ra[j] == rb[j],
        forall|j: int| 0 <= j < k ==> #[trigger] member_items_spec(a[j], ra[j]).len() == 0,
        member_items_spec(a[k], ra[k]).len() > 0,
    ensures
        resolve_list_from_raws(a, ra) == member_items_spec(a[k], ra[k]),
        resolve_list_from_raws(b, rb) == member_items_spec(a[k], ra[k]),
    decreases k,
{
    if k == 0 {
    } else {
        assert(member_items_spec(a[0], ra[0]).len() == 0);
        assert(member_items_spec(b[0], rb[0]).len() == 0);
        let a1 = a.drop_first();
        let b1 = b.drop_first();
        let ra1 = ra.drop_first();
        let rb1 = rb.drop_first();
        assert(forall|j: int| 0 <= j <= k - 1 ==> a1[j] == b1[j] && ra1[j] == rb1[j]);
        assert(forall|j: int|
            0 <= j < k - 1 ==> #[trigger] member_items_spec(a1[j], ra1[j]).len() == 0) by {
            assert(forall|j: int|
                0 <= j < k - 1 ==> member_items_spec(a1[j], ra1[j]) == #[trigger] member_items_spec(
                    a[j + 1],
                    ra[j + 1],
                ));
        }
        lemma_list_fallback_short_circuit(a1, b1, ra1, rb1, k - 1);
    }
}

/// Computes one member's items from raw texts, as values.
pub fn member_items(opts: &ArraySelectorOptions, raws: &Vec<String>) -> (r: Vec<String>)
    ensures
        str_views(r@) == member_items_spec(*opts, str_views(raws@)),
        forall|i: int| 0 <= i < r@.len() ==> #[trigger] r@[i]@.len() > 0,
{
    let ghost rv = str_views(raws@);
    let ghost c = opts.cleanup@;
    let ghost f = opts.fix_capitalization;
    let mut items: Vec<String> = Vec::new();
    let mut i: usize = 0;
    proof {
        lemma_str_views_empty();
        assert(rv.skip(0) =~= rv);
        assert(Seq::<Seq<char>>::empty() + collect_items(c, f, rv) =~= collect_items(c, f, rv));
    }
    while i < raws.len()
        invariant
            i <= raws@.len(),
            rv == str_views(raws@),
            c == opts.cleanup@,
            f == opts.fix_capitalization,
            collect_items(c, f, rv) == str_views(items@) + collect_items(c, f, rv.skip(i as int)),
            forall|j: int| 0 <= j < items@.len() ==> #[trigger] items@[j]@.len() > 0,
        decreases raws@.len() - i,
    {
        let ghost rem = rv.skip(i as int);
        proof {
            assert(rem[0] == rv[i as int]);
            assert(rv[i as int] == raws@[i as int]@);
            assert(rem.drop_first() =~= rv.skip(i + 1));
        }
        let hit = pipeline_step(&opts.cleanup, &opts.fix_capitalization, raws[i].as_str());
        if let Some(v) = hit {
            let ghost it0 = items@;
            items.push(v);
            proof {
                lemma_str_views_push(it0, items@.last());
                assert((str_views(it0) + seq![items@.last()@]) + collect_items(
                    c,
                    f,
                    rv.skip(i + 1),
                ) =~= str_views(it0) + (seq![items@.last()@] + collect_items(c, f, rv.skip(i + 1))));
            }
        } else {
            proof {
                assert(Seq::<Seq<char>>::empty() + collect_items(c, f, rv.skip(i + 1))
                    =~= collect_items(c, f, rv.skip(i + 1)));
            }
        }
        i = i + 1;
    }
    proof {
        assert(rv.skip(rv.len() as int) =~= Seq::<Seq<char>>::empty());
        assert(str_views(items@) + Seq::<Seq<char>>::empty() =~= str_views(items@));
    }
    let mut out = items;
    if out.len() == 1 {
        if let Some(pattern) = &opts.text_split_regex {
            let ghost lone = out@[0]@;
            proof {
                assert(str_views(out@)[0] == lone);
                assert(collect_items(c, f, rv)[0] == lone);
            }
            out = explode_item(pattern.as_str(), out[0].as_str());
            proof {
                let parts = split_of(pattern@, lone);
                assert(str_views(out@) == clean_parts(parts));
                assert forall|j: int| 0 <= j < out@.len() implies #[trigger] out@[j]@.len()
                    > 0 by {
                    assert(str_views(out@)[j] == out@[j]@);
                    lemma_clean_parts_nonempty(parts, j);
                }
            }
        }
    }
    out
}

/// The list pipeline over per-member raw texts, as values: used to
/// exercise the list fallback chain on known inputs.
pub fn resolve_list_from_raw_rows(
    opts: &Vec<ArraySelectorOptions>,
    rows: &Vec<Vec<String>>,
) -> (r: Vec<String>)
    ensures
        str_views(r@) == resolve_list_from_raws(opts@, crate::strutil::row_views(rows@)),
        forall|i: int| 0 <= i < r@.len() ==> #[trigger] r@[i]@.len() > 0,
{
    let ghost ov = opts@;
    let ghost wv = crate::strutil::row_views(rows@);
    let n: usize = if opts.len() < rows.len() {
        opts.len()
    } else {
        rows.len()
    };
    let mut i: usize = 0;
    proof {
        lemma_str_views_empty();
        assert(ov.skip(0) =~= ov);
        assert(wv.skip(0) =~= wv);
    }
    while i < n
        invariant
            i <= n,
            ov == opts@,
            wv == crate::strutil::row_views(rows@),
            n == if opts@.len() < rows@.len() {
                opts@.len()
            } else {
                rows@.len()
            },
            resolve_list_from_raws(ov, wv) == resolve_list_from_raws(
                ov.skip(i as int),
                wv.skip(i as int),
            ),
        decreases n - i,
    {
        proof {
            assert(ov.skip(i as int)[0] == ov[i as int]);
            assert(wv.skip(i as int)[0] == wv[i as int]);
            assert(wv[i as int] == str_views(rows@[i as int]@));
            assert(ov.skip(i as int).drop_first() =~= ov.skip(i + 1));
            assert(wv.skip(i as int).drop_first() =~= wv.skip(i + 1));
        }
        let items = member_items(&opts[i], &rows[i]);
        if items.len() > 0 {
            return items;
        }
        i = i + 1;
    }
    proof {
        assert(ov.skip(i as int).len() == 0 || wv.skip(i as int).len() == 0);
        lemma_str_views_empty();
    }
    Vec::new()
}

/// Resolves a list group against a node: per member, each matched node's
/// post-processed text becomes an item; a lone item is exploded when the
/// member has a split pattern; the first member yielding items wins; no
/// member yielding items is an empty list, not an error. Empty items are
/// dropped: nothing in the result is the empty string.
pub fn resolve_text_list(group: &ArraySelectors, doc: &Node) -> (r: Result<
    Vec<String>,
    ScrapeError,
>)
    ensures
        match r {
            Err(e) => e matches ScrapeError::SelectorError(s) && !css_valid_of(s@) && exists|
                k: int,
            | 0 <= k < group.selectors@.len() && #[trigger] group.selectors@[k].selector == s,
            Ok(v) => {
                &&& forall|i: int| 0 <= i < v@.len() ==> #[trigger] v@[i]@.len() > 0
                &&& (v@.len() > 0 ==> exists|k: int, raws: Seq<Seq<char>>|
                    0 <= k < group.selectors@.len() && #[trigger] member_items_spec(
                        group.selectors@[k].options,
                        raws,
                    ) == str_views(v@))
            },
        },
{
    let mut i: usize = 0;
    while i < group.selectors.len()
        invariant
            i <= group.selectors@.len(),
        decreases group.selectors@.len() - i,
    {
        let member = &group.selectors[i];
        let els = match doc.select(member.selector.as_str()) {
            Ok(els) => els,
            Err(()) => {
                let s = member.selector.clone();
                proof {
                    assert(group.selectors@[i as int].selector == s);
                }
                return Err(ScrapeError::SelectorError(s));
            },
        };
        let mut raws: Vec<String> = Vec::new();
        let mut j: usize = 0;
        while j < els.nodes.len()
            decreases els.nodes@.len() - j,
        {
            raws.push(raw_of_node(&member.options.text_selection, &els.nodes[j]));
            j = j + 1;
        }
        let items = member_items(&member.options, &raws);
        if items.len() > 0 {
            proof {
                assert(member_items_spec(
                    group.selectors@[i as int].options,
                    str_views(raws@),
                ) == str_views(items@));
            }
            return Ok(items);
        }
        i = i + 1;
    }
    Ok(Vec::new())
}

} // verus!
