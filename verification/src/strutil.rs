//! Character and string helpers shared by the parsing and extraction logic.
//!
//! All functions here are fully verified; they work on `Vec<char>` / `Seq<char>`
//! so that the rest of the crate can state exact contracts over string views.

use vstd::prelude::*;

verus! {

/// Whitespace, as trimmed from scraped text: the fixed set of
/// code points with the White_Space property.
pub open spec fn is_space_char(c: char) -> bool {
    c == ' ' || c == '\t' || c == '\n' || c == '\r' || c == '\u{b}' || c == '\u{c}'
        || c == '\u{85}' || c == '\u{a0}' || c == '\u{1680}' || ('\u{2000}' <= c && c
        <= '\u{200a}') || c == '\u{2028}' || c == '\u{2029}' || c == '\u{202f}' || c
        == '\u{205f}' || c == '\u{3000}'
}

/// ASCII decimal digit.
pub open spec fn is_digit_char(c: char) -> bool {
    '0' <= c && c <= '9'
}

/// ASCII letter.
pub open spec fn is_alpha_char(c: char) -> bool {
    ('a' <= c && c <= 'z') || ('A' <= c && c <= 'Z')
}

/// ASCII word character: letter, digit or underscore.
pub open spec fn is_word_char(c: char) -> bool {
    is_alpha_char(c) || is_digit_char(c) || c == '_'
}

/// Lower-cases one ASCII letter, leaves every other character alone.
pub open spec fn lower_char(c: char) -> char {
    if 'A' <= c && c <= 'Z' {
        (((c as u32) + 32) as u8) as char
    } else {
        c
    }
}

/// Lower-cases the ASCII letters of a sequence.
pub open spec fn lower_seq(s: Seq<char>) -> Seq<char> {
    s.map_values(|c: char| lower_char(c))
}

/// Relies on `String::push`: appends exactly the given character.
pub assume_specification[ String::push ](s: &mut String, c: char)
    ensures
        final(s)@ == old(s)@.push(c),
;

pub fn char_is_space(c: char) -> (r: bool)
    ensures
        r == is_space_char(c),
{
    c == ' ' || c == '\t' || c == '\n' || c == '\r' || c == '\u{b}' || c == '\u{c}'
        || c == '\u{85}' || c == '\u{a0}' || c == '\u{1680}' || ('\u{2000}' <= c && c
        <= '\u{200a}') || c == '\u{2028}' || c == '\u{2029}' || c == '\u{202f}' || c
        == '\u{205f}' || c == '\u{3000}'
}

pub fn char_is_digit(c: char) -> (r: bool)
    ensures
        r == is_digit_char(c),
{
    '0' <= c && c <= '9'
}

pub fn char_is_word(c: char) -> (r: bool)
    ensures
        r == is_word_char(c),
{
    ('a' <= c && c <= 'z') || ('A' <= c && c <= 'Z') || ('0' <= c && c <= '9') || c == '_'
}

pub fn char_to_lower(c: char) -> (r: char)
    ensures
        r == lower_char(c),
{
    if 'A' <= c && c <= 'Z' {
        (((c as u32) + 32) as u8) as char
    } else {
        c
    }
}

/// Turns a string slice into its character vector.
pub fn to_chars(s: &str) -> (r: Vec<char>)
    ensures
        r@ == s@,
{
    let n: usize = s.unicode_len();
    let mut r: Vec<char> = Vec::new();
    let mut i: usize = 0;
    while i < n
        invariant
            n == s@.len(),
            i <= n,
            r@ == s@.subrange(0, i as int),
        decreases n - i,
    {
        let c = s.get_char(i);
        r.push(c);
        i = i + 1;
        proof {
            assert(r@ =~= s@.subrange(0, i as int));
        }
    }
    proof {
        assert(r@ =~= s@);
    }
    r
}

/// Builds a string from a character vector.
pub fn from_chars(v: &Vec<char>) -> (r: String)
    ensures
        r@ == v@,
{
    let mut r = String::new();
    let mut i: usize = 0;
    while i < v.len()
        invariant
            i <= v@.len(),
            r@ == v@.subrange(0, i as int),
        decreases v@.len() - i,
    {
        r.push(v[i]);
        i = i + 1;
        proof {
            assert(r@ =~= v@.subrange(0, i as int));
        }
    }
    proof {
        assert(r@ =~= v@);
    }
    r
}

/// Characters remaining after leading whitespace is removed.
pub open spec fn trim_start_spec(s: Seq<char>) -> Seq<char>
    decreases s.len(),
{
    if s.len() == 0 {
        s
    } else if is_space_char(s[0]) {
        trim_start_spec(s.drop_first())
    } else {
        s
    }
}

/// Characters remaining after trailing whitespace is removed.
pub open spec fn trim_end_spec(s: Seq<char>) -> Seq<char>
    decreases s.len(),
{
    if s.len() == 0 {
        s
    } else if is_space_char(s[s.len() - 1]) {
        trim_end_spec(s.drop_last())
    } else {
        s
    }
}

/// Characters remaining after whitespace is removed from both ends.
pub open spec fn trim_spec(s: Seq<char>) -> Seq<char> {
    trim_end_spec(trim_start_spec(s))
}

proof fn lemma_trim_start_prefix(s: Seq<char>, i: int)
    requires
        0 <= i <= s.len(),
        forall|j: int| 0 <= j < i ==> is_space_char(s[j]),
        i < s.len() ==> !is_space_char(s[i]),
    ensures
        trim_start_spec(s) == s.subrange(i, s.len() as int),
    decreases i,
{
    if i == 0 {
        if s.len() == 0 {
            assert(trim_start_spec(s) =~= s.subrange(0, s.len() as int));
        } else {
            assert(trim_start_spec(s) =~= s.subrange(0, s.len() as int));
        }
    } else {
        assert(is_space_char(s[0]));
        let t = s.drop_first();
        assert(t =~= s.subrange(1, s.len() as int));
        lemma_trim_start_prefix(t, i - 1);
        assert(t.subrange(i - 1, t.len() as int) =~= s.subrange(i, s.len() as int));
    }
}

proof fn lemma_trim_end_suffix(s: Seq<char>, i: int)
    requires
        0 <= i <= s.len(),
        forall|j: int| i <= j < s.len() ==> is_space_char(s[j]),
        i > 0 ==> !is_space_char(s[i - 1]),
    ensures
        trim_end_spec(s) == s.subrange(0, i),
    decreases s.len() - i,
{
    if i == s.len() {
        if s.len() == 0 {
            assert(trim_end_spec(s) =~= s.subrange(0, i));
        } else {
            assert(!is_space_char(s[s.len() - 1]));
            assert(trim_end_spec(s) =~= s.subrange(0, i));
        }
    } else {
        assert(is_space_char(s[s.len() - 1]));
        let t = s.drop_last();
        assert(t =~= s.subrange(0, s.len() - 1));
        lemma_trim_end_suffix(t, i);
        assert(t.subrange(0, i) =~= s.subrange(0, i));
    }
}

/// Text that is nothing but whitespace trims to nothing.
pub proof fn lemma_trim_all_space(s: Seq<char>)
    requires
        forall|j: int| 0 <= j < s.len() ==> is_space_char(#[trigger] s[j]),
    ensures
        trim_spec(s).len() == 0,
{
    lemma_trim_start_prefix(s, s.len() as int);
    assert(s.subrange(s.len() as int, s.len() as int) =~= Seq::<char>::empty());
    assert(trim_end_spec(Seq::<char>::empty()).len() == 0);
}

/// Removes ASCII whitespace from both ends of a character vector.
pub fn trim_chars(s: &Vec<char>) -> (r: Vec<char>)
    ensures
        r@ == trim_spec(s@),
{
    let n: usize = s.len();
    let mut a: usize = 0;
    while a < n && char_is_space(s[a])
        invariant
            n == s@.len(),
            a <= n,
            forall|j: int| 0 <= j < a ==> is_space_char(s@[j]),
        decreases n - a,
    {
        a = a + 1;
    }
    proof {
        lemma_trim_start_prefix(s@, a as int);
    }
    let ghost mid = s@.subrange(a as int, n as int);
    let mut b: usize = n;
    while b > a && char_is_space(s[b - 1])
        invariant
            n == s@.len(),
            a <= b <= n,
            forall|j: int| b <= j < n ==> is_space_char(s@[j]),
        decreases b,
    {
        b = b - 1;
    }
    proof {
        assert(forall|j: int| b - a <= j < mid.len() ==> is_space_char(#[trigger] mid[j]));
        if b > a {
            assert(!is_space_char(mid[b - a - 1]));
        }
        lemma_trim_end_suffix(mid, b - a);
    }
    let mut r: Vec<char> = Vec::new();
    let mut i: usize = a;
    while i < b
        invariant
            a <= i <= b <= n,
            n == s@.len(),
            r@ == s@.subrange(a as int, i as int),
        decreases b - i,
    {
        r.push(s[i]);
        i = i + 1;
        proof {
            assert(r@ =~= s@.subrange(a as int, i as int));
        }
    }
    proof {
        assert(mid.subrange(0, b - a) =~= s@.subrange(a as int, b as int));
        assert(r@ =~= s@.subrange(a as int, b as int));
    }
    r
}

/// Trims a string, as scraped text is trimmed before any other step.
pub fn trim_string(s: &str) -> (r: String)
    ensures
        r@ == trim_spec(s@),
{
    let cs = to_chars(s);
    let t = trim_chars(&cs);
    from_chars(&t)
}

/// Lower-cases the ASCII letters of a character vector.
pub fn lower_chars(s: &Vec<char>) -> (r: Vec<char>)
    ensures
        r@ == lower_seq(s@),
{
    let mut r: Vec<char> = Vec::new();
    let mut i: usize = 0;
    while i < s.len()
        invariant
            i <= s@.len(),
            r@ == s@.subrange(0, i as int).map_values(|c: char| lower_char(c)),
        decreases s@.len() - i,
    {
        r.push(char_to_lower(s[i]));
        i = i + 1;
        proof {
            assert(r@ =~= s@.subrange(0, i as int).map_values(|c: char| lower_char(c)));
        }
    }
    proof {
        assert(s@.subrange(0, s@.len() as int) =~= s@);
    }
    r
}

/// True when `n` occurs as a contiguous run inside `h`.
pub open spec fn contains_seq(h: Seq<char>, n: Seq<char>) -> bool {
    exists|i: int|
        0 <= i && i + n.len() <= h.len() && #[trigger] h.subrange(i, i + n.len() as int) == n
}

/// Compares `n` against the run of `h` that starts at `i`.
fn matches_at(h: &Vec<char>, n: &Vec<char>, i: usize) -> (r: bool)
    requires
        i + n@.len() <= h@.len(),
    ensures
        r == (h@.subrange(i as int, i + n@.len() as int) == n@),
{
    let hl: usize = h.len();
    let mut j: usize = 0;
    while j < n.len()
        invariant
            hl == h@.len(),
            i + n@.len() <= h@.len(),
            j <= n@.len(),
            forall|k: int| 0 <= k < j ==> h@[i + k] == n@[k],
        decreases n@.len() - j,
    {
        proof {
            assert(i + j < h@.len());
        }
        if h[i + j] != n[j] {
            proof {
                if h@.subrange(i as int, i + n@.len() as int) == n@ {
                    assert(h@.subrange(i as int, i + n@.len() as int)[j as int] == n@[j as int]);
                    assert(false);
                }
            }
            return false;
        }
        j = j + 1;
    }
    proof {
        assert(h@.subrange(i as int, i + n@.len() as int) =~= n@);
    }
    true
}

/// Substring test over character vectors.
pub fn chars_contain(h: &Vec<char>, n: &Vec<char>) -> (r: bool)
    ensures
        r == contains_seq(h@, n@),
{
    if n.len() > h.len() {
        proof {
            assert(!contains_seq(h@, n@));
        }
        return false;
    }
    let last: usize = h.len() - n.len();
    let mut i: usize = 0;
    loop
        invariant
            n@.len() <= h@.len(),
            last == h@.len() - n@.len(),
            i <= last,
            forall|k: int|
                0 <= k < i ==> #[trigger] h@.subrange(k, k + n@.len() as int) != n@,
        decreases last - i,
    {
        if matches_at(h, n, i) {
            return true;
        }
        if i == last {
            proof {
                if contains_seq(h@, n@) {
                    let w = choose|w: int|
                        0 <= w && w + n@.len() <= h@.len() && #[trigger] h@.subrange(
                            w,
                            w + n@.len() as int,
                        ) == n@;
                    assert(w <= last);
                    assert(false);
                }
            }
            return false;
        }
        i = i + 1;
    }
}

/// True when `p` is a prefix of `s`.
pub open spec fn starts_with_seq(s: Seq<char>, p: Seq<char>) -> bool {
    p.len() <= s.len() && s.subrange(0, p.len() as int) == p
}

pub fn chars_start_with(s: &Vec<char>, p: &Vec<char>) -> (r: bool)
    ensures
        r == starts_with_seq(s@, p@),
{
    if p.len() > s.len() {
        return false;
    }
    let mut j: usize = 0;
    while j < p.len()
        invariant
            p@.len() <= s@.len(),
            j <= p@.len(),
            forall|k: int| 0 <= k < j ==> s@[k] == p@[k],
        decreases p@.len() - j,
    {
        if s[j] != p[j] {
            proof {
                if s@.subrange(0, p@.len() as int) == p@ {
                    assert(s@.subrange(0, p@.len() as int)[j as int] == p@[j as int]);
                    assert(false);
                }
            }
            return false;
        }
        j = j + 1;
    }
    proof {
        assert(s@.subrange(0, p@.len() as int) =~= p@);
    }
    true
}

/// Replaces every non-overlapping occurrence of `from` by `to`, left to right.
/// With an empty `from` the input is returned unchanged.
pub open spec fn replace_spec(s: Seq<char>, from: Seq<char>, to: Seq<char>) -> Seq<char>
    decreases s.len(),
{
    if from.len() == 0 || s.len() < from.len() {
        s
    } else if s.subrange(0, from.len() as int) == from {
        to + replace_spec(s.skip(from.len() as int), from, to)
    } else {
        seq![s[0]] + replace_spec(s.drop_first(), from, to)
    }
}

/// Template interpolation step: literal, non-overlapping, left-to-right replace.
pub fn replace_chars(s: &Vec<char>, from: &Vec<char>, to: &Vec<char>) -> (r: Vec<char>)
    requires
        from@.len() > 0,
    ensures
        r@ == replace_spec(s@, from@, to@),
{
    let mut out: Vec<char> = Vec::new();
    let mut i: usize = 0;
    proof {
        assert(s@.skip(0) =~= s@);
        assert(out@ + replace_spec(s@, from@, to@) =~= replace_spec(s@, from@, to@));
    }
    while i < s.len()
        invariant
            from@.len() > 0,
            i <= s@.len(),
            replace_spec(s@, from@, to@) == out@ + replace_spec(
                s@.skip(i as int),
                from@,
                to@,
            ),
        decreases s@.len() - i,
    {
        let ghost rem = s@.skip(i as int);
        if from.len() <= s.len() - i && matches_at(s, from, i) {
            proof {
                assert(rem.subrange(0, from@.len() as int) =~= s@.subrange(
                    i as int,
                    i + from@.len() as int,
                ));
                assert(rem.skip(from@.len() as int) =~= s@.skip(i + from@.len()));
            }
            let ghost out0 = out@;
            let mut j: usize = 0;
            while j < to.len()
                invariant
                    j <= to@.len(),
                    out@ == out0 + to@.subrange(0, j as int),
                decreases to@.len() - j,
            {
                out.push(to[j]);
                j = j + 1;
                proof {
                    assert(out@ =~= out0 + to@.subrange(0, j as int));
                }
            }
            proof {
                assert(out0 + to@.subrange(0, to@.len() as int) =~= out0 + to@);
                assert((out0 + to@) + replace_spec(s@.skip(i + from@.len()), from@, to@) =~= out0
                    + (to@ + replace_spec(s@.skip(i + from@.len()), from@, to@)));
            }
            i = i + from.len();
        } else {
            proof {
                if from@.len() <= rem.len() {
                    if rem.subrange(0, from@.len() as int) == from@ {
                        assert(s@.subrange(i as int, i + from@.len() as int) =~= rem.subrange(
                            0,
                            from@.len() as int,
                        ));
                        assert(false);
                    }
                }
                assert(rem.drop_first() =~= s@.skip(i + 1));
            }
            let ghost out0 = out@;
            out.push(s[i]);
            i = i + 1;
            proof {
                assert(out@ =~= out0 + seq![rem[0]]);
                assert((out0 + seq![rem[0]]) + replace_spec(rem.drop_first(), from@, to@) =~= out0
                    + (seq![rem[0]] + replace_spec(rem.drop_first(), from@, to@)));
            }
        }
    }
    proof {
        assert(s@.skip(i as int) =~= Seq::<char>::empty());
        assert(out@ + Seq::<char>::empty() =~= out@);
    }
    out
}

/// Numeric value of one decimal digit character.
pub open spec fn digit_of(c: char) -> nat {
    if is_digit_char(c) {
        (c as int - '0' as int) as nat
    } else {
        0
    }
}

/// Value of a decimal digit string.
pub open spec fn digits_val(s: Seq<char>) -> nat
    decreases s.len(),
{
    if s.len() == 0 {
        0
    } else {
        digits_val(s.drop_last()) * 10 + digit_of(s.last())
    }
}

proof fn lemma_digits_val_take_le(s: Seq<char>, i: int)
    requires
        0 <= i <= s.len(),
    ensures
        digits_val(s.take(i)) <= digits_val(s),
    decreases s.len() - i,
{
    if i < s.len() {
        assert(s.take(i + 1).drop_last() =~= s.take(i));
        assert(s.take(i + 1).last() == s[i]);
        assert(digits_val(s.take(i)) <= digits_val(s.take(i + 1)));
        lemma_digits_val_take_le(s, i + 1);
    } else {
        assert(s.take(i) =~= s);
    }
}

/// Parses a run of decimal digits; absent exactly when the value
/// does not fit in a `u64`.
pub fn parse_u64_digits(s: &Vec<char>) -> (r: Option<u64>)
    requires
        forall|k: int| 0 <= k < s@.len() ==> is_digit_char(s@[k]),
    ensures
        r is Some <==> digits_val(s@) <= u64::MAX,
        r is Some ==> r->0 == digits_val(s@),
{
    let mut acc: u64 = 0;
    let mut i: usize = 0;
    proof {
        assert(s@.take(0) =~= Seq::<char>::empty());
    }
    while i < s.len()
        invariant
            forall|k: int| 0 <= k < s@.len() ==> is_digit_char(s@[k]),
            i <= s@.len(),
            acc == digits_val(s@.take(i as int)),
        decreases s@.len() - i,
    {
        let c = s[i];
        proof {
            assert(is_digit_char(s@[i as int]));
        }
        let d: u64 = ((c as u32) - 48) as u64;
        let wide: u128 = (acc as u128) * 10 + (d as u128);
        proof {
            assert(s@.take(i + 1).drop_last() =~= s@.take(i as int));
            assert(s@.take(i + 1).last() == s@[i as int]);
        }
        if wide > u64::MAX as u128 {
            proof {
                lemma_digits_val_take_le(s@, i + 1);
            }
            return None;
        }
        acc = wide as u64;
        i = i + 1;
    }
    proof {
        assert(s@.take(s@.len() as int) =~= s@);
    }
    Some(acc)
}

/// True when the sequence is non-empty and all characters are decimal digits.
pub open spec fn all_digits(s: Seq<char>) -> bool {
    s.len() > 0 && forall|k: int| 0 <= k < s.len() ==> is_digit_char(#[trigger] s[k])
}

pub fn chars_all_digits(s: &Vec<char>) -> (r: bool)
    ensures
        r == all_digits(s@),
{
    if s.len() == 0 {
        return false;
    }
    let mut i: usize = 0;
    while i < s.len()
        invariant
            i <= s@.len(),
            forall|k: int| 0 <= k < i ==> is_digit_char(#[trigger] s@[k]),
        decreases s@.len() - i,
    {
        if !char_is_digit(s[i]) {
            return false;
        }
        i = i + 1;
    }
    true
}

/// True when some character is a decimal digit.
pub open spec fn has_digit(s: Seq<char>) -> bool {
    exists|k: int| 0 <= k < s.len() && is_digit_char(#[trigger] s[k])
}

pub fn chars_have_digit(s: &Vec<char>) -> (r: bool)
    ensures
        r == has_digit(s@),
{
    let mut i: usize = 0;
    while i < s.len()
        invariant
            i <= s@.len(),
            forall|k: int| 0 <= k < i ==> !is_digit_char(#[trigger] s@[k]),
        decreases s@.len() - i,
    {
        if char_is_digit(s[i]) {
            return true;
        }
        i = i + 1;
    }
    false
}

/// A maximal digit run begins at `i`.
pub open spec fn run_starts_at(s: Seq<char>, i: int) -> bool {
    0 <= i < s.len() && is_digit_char(s[i]) && (i == 0 || !is_digit_char(s[i - 1]))
}

/// Number of maximal digit runs among the first `n` characters.
pub open spec fn digit_runs_up_to(s: Seq<char>, n: int) -> nat
    decreases n,
{
    if n <= 0 {
        0
    } else {
        digit_runs_up_to(s, n - 1) + if run_starts_at(s, n - 1) {
            1nat
        } else {
            0nat
        }
    }
}

/// Number of maximal digit runs in the sequence.
pub open spec fn digit_run_count(s: Seq<char>) -> nat {
    digit_runs_up_to(s, s.len() as int)
}

pub fn count_digit_runs(s: &Vec<char>) -> (r: usize)
    ensures
        r == digit_run_count(s@),
{
    let mut count: usize = 0;
    let mut i: usize = 0;
    while i < s.len()
        invariant
            i <= s@.len(),
            count == digit_runs_up_to(s@, i as int),
            count <= i,
        decreases s@.len() - i,
    {
        if char_is_digit(s[i]) && (i == 0 || !char_is_digit(s[i - 1])) {
            count = count + 1;
        }
        i = i + 1;
    }
    count
}

/// Lexicographic order on character sequences (code-point order, which for
/// UTF-8 encoded strings agrees with byte order).
pub open spec fn lex_le(a: Seq<char>, b: Seq<char>) -> bool
    decreases a.len(),
{
    if a.len() == 0 {
        true
    } else if b.len() == 0 {
        false
    } else if a[0] != b[0] {
        a[0] < b[0]
    } else {
        lex_le(a.drop_first(), b.drop_first())
    }
}

proof fn lemma_lex_common_prefix(a: Seq<char>, b: Seq<char>, i: int)
    requires
        0 <= i <= a.len(),
        i <= b.len(),
        forall|k: int| 0 <= k < i ==> a[k] == b[k],
    ensures
        lex_le(a, b) == lex_le(a.skip(i), b.skip(i)),
    decreases i,
{
    if i > 0 {
        assert(a.len() > 0 && b.len() > 0);
        assert(a[0] == b[0]);
        assert(a.drop_first() =~= a.skip(1));
        assert(b.drop_first() =~= b.skip(1));
        lemma_lex_common_prefix(a.skip(1), b.skip(1), i - 1);
        assert(a.skip(1).skip(i - 1) =~= a.skip(i));
        assert(b.skip(1).skip(i - 1) =~= b.skip(i));
    } else {
        assert(a.skip(0) =~= a);
        assert(b.skip(0) =~= b);
    }
}

/// Lexicographic comparison of two character vectors.
pub fn chars_le(a: &Vec<char>, b: &Vec<char>) -> (r: bool)
    ensures
        r == lex_le(a@, b@),
{
    let mut i: usize = 0;
    while i < a.len() && i < b.len()
        invariant
            i <= a@.len(),
            i <= b@.len(),
            forall|k: int| 0 <= k < i ==> a@[k] == b@[k],
        decreases a@.len() - i,
    {
        if a[i] != b[i] {
            proof {
                lemma_lex_common_prefix(a@, b@, i as int);
            }
            return a[i] < b[i];
        }
        i = i + 1;
    }
    proof {
        lemma_lex_common_prefix(a@, b@, i as int);
    }
    a.len() <= b.len()
}

pub proof fn lemma_lex_total(a: Seq<char>, b: Seq<char>)
    ensures
        lex_le(a, b) || lex_le(b, a),
        lex_le(a, b) && lex_le(b, a) ==> a == b,
        lex_le(a, a),
    decreases a.len(),
{
    if a.len() > 0 && b.len() > 0 && a[0] == b[0] {
        lemma_lex_total(a.drop_first(), b.drop_first());
        if lex_le(a, b) && lex_le(b, a) {
            assert(a.drop_first() == b.drop_first());
            assert(a =~= seq![a[0]] + a.drop_first());
            assert(b =~= seq![b[0]] + b.drop_first());
        }
        if a.len() > 0 {
            assert(a.drop_first() =~= a.drop_first());
        }
    }
    if a.len() > 0 {
        lemma_lex_total(a.drop_first(), a.drop_first());
    }
}

pub proof fn lemma_lex_trans(a: Seq<char>, b: Seq<char>, c: Seq<char>)
    requires
        lex_le(a, b),
        lex_le(b, c),
    ensures
        lex_le(a, c),
    decreases a.len(),
{
    if a.len() > 0 && b.len() > 0 && c.len() > 0 {
        if a[0] == b[0] && b[0] == c[0] {
            lemma_lex_trans(a.drop_first(), b.drop_first(), c.drop_first());
        }
    }
}

/// Equality of two character vectors.
pub fn chars_eq(a: &Vec<char>, b: &Vec<char>) -> (r: bool)
    ensures
        r == (a@ == b@),
{
    if a.len() != b.len() {
        return false;
    }
    let mut i: usize = 0;
    while i < a.len()
        invariant
            a@.len() == b@.len(),
            i <= a@.len(),
            forall|j: int| 0 <= j < i ==> a@[j] == b@[j],
        decreases a@.len() - i,
    {
        if a[i] != b[i] {
            return false;
        }
        i = i + 1;
    }
    proof {
        assert(a@ =~= b@);
    }
    true
}

/// Equality of two string slices, as character sequences.
pub fn str_eq(a: &str, b: &str) -> (r: bool)
    ensures
        r == (a@ == b@),
{
    chars_eq(&to_chars(a), &to_chars(b))
}

/// The parts of a sequence between occurrences of a separator character.
/// An empty sequence has one empty part; a leading, trailing or doubled
/// separator contributes empty parts.
pub open spec fn split_char_spec(s: Seq<char>, sep: char) -> Seq<Seq<char>>
    decreases s.len(),
{
    if s.len() == 0 {
        seq![Seq::<char>::empty()]
    } else if s[0] == sep {
        seq![Seq::<char>::empty()] + split_char_spec(s.drop_first(), sep)
    } else {
        let rest = split_char_spec(s.drop_first(), sep);
        seq![seq![s[0]] + rest[0]] + rest.drop_first()
    }
}

proof fn lemma_split_char_len(s: Seq<char>, sep: char)
    ensures
        split_char_spec(s, sep).len() >= 1,
    decreases s.len(),
{
    if s.len() > 0 {
        lemma_split_char_len(s.drop_first(), sep);
    }
}

/// Splits a character vector on a separator character.
pub fn split_on_char(s: &Vec<char>, sep: char) -> (r: Vec<Vec<char>>)
    ensures
        r@.map_values(|p: Vec<char>| p@) == split_char_spec(s@, sep),
{
    let mut done: Vec<Vec<char>> = Vec::new();
    let mut cur: Vec<char> = Vec::new();
    let mut i: usize = 0;
    proof {
        let full = split_char_spec(s@, sep);
        lemma_split_char_len(s@, sep);
        assert(s@.skip(0) =~= s@);
        assert(done@.map_values(|p: Vec<char>| p@) =~= Seq::<Seq<char>>::empty());
        assert(cur@ + full[0] =~= full[0]);
        assert(Seq::<Seq<char>>::empty() + seq![full[0]] + full.drop_first() =~= full);
    }
    while i < s.len()
        invariant
            i <= s@.len(),
            split_char_spec(s@, sep) == done@.map_values(|p: Vec<char>| p@) + seq![
                cur@ + split_char_spec(s@.skip(i as int), sep)[0],
            ] + split_char_spec(s@.skip(i as int), sep).drop_first(),
        decreases s@.len() - i,
    {
        let ghost dv = done@.map_values(|p: Vec<char>| p@);
        let ghost rem = s@.skip(i as int);
        let ghost rest = split_char_spec(s@.skip(i + 1), sep);
        proof {
            assert(rem[0] == s@[i as int]);
            assert(rem.drop_first() =~= s@.skip(i + 1));
            lemma_split_char_len(s@.skip(i + 1), sep);
        }
        if s[i] == sep {
            proof {
                assert(split_char_spec(rem, sep) == seq![Seq::<char>::empty()] + rest);
                assert(split_char_spec(rem, sep)[0] =~= Seq::<char>::empty());
                assert(split_char_spec(rem, sep).drop_first() =~= rest);
                assert(cur@ + Seq::<char>::empty() =~= cur@);
            }
            let mut finished: Vec<char> = Vec::new();
            core::mem::swap(&mut finished, &mut cur);
            let ghost d0 = done@;
            done.push(finished);
            proof {
                assert(done@ =~= d0.push(finished));
                assert(done@.map_values(|p: Vec<char>| p@) =~= dv + seq![finished@]);
                assert(rest =~= seq![rest[0]] + rest.drop_first());
                assert(cur@ + rest[0] =~= rest[0]);
                assert(dv + seq![finished@] + (seq![rest[0]] + rest.drop_first()) =~= (dv + seq![
                    finished@,
                ] + seq![rest[0]]) + rest.drop_first());
                assert(dv + seq![finished@] + seq![rest[0]] =~= (dv + seq![finished@]) + seq![
                    cur@ + rest[0],
                ]);
                assert(dv + seq![finished@ + Seq::<char>::empty()] =~= dv + seq![finished@]);
            }
        } else {
            let ghost c0 = cur@;
            cur.push(s[i]);
            proof {
                assert(split_char_spec(rem, sep) == seq![seq![rem[0]] + rest[0]]
                    + rest.drop_first());
                assert(split_char_spec(rem, sep)[0] == seq![rem[0]] + rest[0]);
                assert(split_char_spec(rem, sep).drop_first() =~= rest.drop_first());
                assert(cur@ =~= c0.push(s@[i as int]));
                assert(c0 + (seq![rem[0]] + rest[0]) =~= cur@ + rest[0]);
                assert(seq![c0 + (seq![rem[0]] + rest[0])] =~= seq![cur@ + rest[0]]);
            }
        }
        i = i + 1;
    }
    proof {
        assert(s@.skip(s@.len() as int) =~= Seq::<char>::empty());
        let tail = split_char_spec(Seq::<char>::empty(), sep);
        assert(tail == seq![Seq::<char>::empty()]);
        assert(cur@ + tail[0] =~= cur@);
        assert(tail.drop_first() =~= Seq::<Seq<char>>::empty());
    }
    let ghost d1 = done@;
    done.push(cur);
    proof {
        assert(done@.map_values(|p: Vec<char>| p@) =~= d1.map_values(|p: Vec<char>| p@) + seq![
            done@.last()@,
        ]);
        assert(d1.map_values(|p: Vec<char>| p@) + seq![done@.last()@] + Seq::<
            Seq<char>,
        >::empty() =~= d1.map_values(|p: Vec<char>| p@) + seq![done@.last()@]);
        assert(done@.map_values(|p: Vec<char>| p@) =~= split_char_spec(s@, sep));
    }
    done
}

/// The character sequences of a sequence of strings.
pub open spec fn str_views(v: Seq<String>) -> Seq<Seq<char>> {
    v.map_values(|x: String| x@)
}

pub proof fn lemma_str_views_push(v: Seq<String>, x: String)
    ensures
        str_views(v.push(x)) == str_views(v).push(x@),
{
    assert(str_views(v.push(x)) =~= str_views(v).push(x@));
}

/// The character-sequence rows of a sequence of string lists.
pub open spec fn row_views(rows: Seq<Vec<String>>) -> Seq<Seq<Seq<char>>> {
    rows.map_values(|v: Vec<String>| str_views(v@))
}

pub proof fn lemma_str_views_empty()
    ensures
        str_views(Seq::<String>::empty()) == Seq::<Seq<char>>::empty(),
{
    assert(str_views(Seq::<String>::empty()) =~= Seq::<Seq<char>>::empty());
}

} // verus!
