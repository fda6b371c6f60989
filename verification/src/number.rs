//! Extraction of the first decimal numeral from chapter text, the source
//! of a chapter's ordering key.

use vstd::prelude::*;
use crate::strutil::{is_digit_char, digits_val, digit_of, to_chars, char_is_digit,
    parse_u64_digits};
use crate::model::ChapterNumber;

verus! {

/// The longest digit prefix of a sequence.
pub open spec fn digit_prefix(s: Seq<char>) -> Seq<char>
    decreases s.len(),
{
    if s.len() > 0 && is_digit_char(s[0]) {
        seq![s[0]] + digit_prefix(s.drop_first())
    } else {
        Seq::empty()
    }
}

/// The first decimal numeral of the text: its whole digits and (when a dot
/// directly follows with a digit after it) its fractional digits.
pub open spec fn numeral_spec(s: Seq<char>) -> Option<(Seq<char>, Seq<char>)>
    decreases s.len(),
{
    if s.len() == 0 {
        None
    } else if is_digit_char(s[0]) {
        let whole = digit_prefix(s);
        let rest = s.skip(whole.len() as int);
        let frac = if rest.len() >= 2 && rest[0] == '.' && is_digit_char(rest[1]) {
            digit_prefix(rest.drop_first())
        } else {
            Seq::empty()
        };
        Some((whole, frac))
    } else {
        numeral_spec(s.drop_first())
    }
}

proof fn lemma_digit_prefix_range(s: Seq<char>, k: int)
    requires
        0 <= k <= s.len(),
        forall|m: int| 0 <= m < k ==> is_digit_char(s[m]),
        k < s.len() ==> !is_digit_char(s[k]),
    ensures
        digit_prefix(s) == s.take(k),
    decreases k,
{
    if k == 0 {
        assert(digit_prefix(s) =~= s.take(0));
    } else {
        let t = s.drop_first();
        assert(forall|m: int| 0 <= m < k - 1 ==> is_digit_char(t[m]));
        lemma_digit_prefix_range(t, k - 1);
        assert(seq![s[0]] + t.take(k - 1) =~= s.take(k));
    }
}

proof fn lemma_numeral_skip(s: Seq<char>, i: int)
    requires
        0 <= i <= s.len(),
        forall|m: int| 0 <= m < i ==> !is_digit_char(s[m]),
    ensures
        numeral_spec(s) == numeral_spec(s.skip(i)),
    decreases i,
{
    if i > 0 {
        assert(!is_digit_char(s[0]));
        assert(s.drop_first() =~= s.skip(1));
        lemma_numeral_skip(s.skip(1), i - 1);
        assert(s.skip(1).skip(i - 1) =~= s.skip(i));
    } else {
        assert(s.skip(0) =~= s);
    }
}

/// Parses the first decimal numeral of the text into a chapter number.
/// Absent when the text holds no digit, or the whole part overflows.
pub fn try_parse_number(number: &str) -> (r: Option<ChapterNumber>)
    ensures
        match numeral_spec(number@) {
            None => r is None,
            Some(parts) => {
                if digits_val(parts.0) <= u64::MAX {
                    match r {
                        Some(n) => {
                            &&& n.whole == digits_val(parts.0)
                            &&& n.frac@.len() == parts.1.len()
                            &&& forall|m: int|
                                0 <= m < parts.1.len() ==> n.frac@[m] == digit_of(parts.1[m])
                            &&& n.wf()
                        },
                        None => false,
                    }
                } else {
                    r is None
                }
            },
        },
{
    let s = to_chars(number);
    let n: usize = s.len();
    let mut i: usize = 0;
    while i < n && !char_is_digit(s[i])
        invariant
            n == s@.len(),
            i <= n,
            forall|m: int| 0 <= m < i ==> !is_digit_char(s@[m]),
        decreases n - i,
    {
        i = i + 1;
    }
    proof {
        lemma_numeral_skip(s@, i as int);
    }
    if i == n {
        proof {
            assert(s@.skip(n as int) =~= Seq::<char>::empty());
        }
        return None;
    }
    let ghost tail = s@.skip(i as int);
    // collect the whole part
    let mut j: usize = i;
    let mut whole: Vec<char> = Vec::new();
    while j < n && char_is_digit(s[j])
        invariant
            n == s@.len(),
            i <= j <= n,
            whole@ == s@.subrange(i as int, j as int),
            forall|m: int| i <= m < j ==> is_digit_char(s@[m]),
        decreases n - j,
    {
        whole.push(s[j]);
        j = j + 1;
        proof {
            assert(whole@ =~= s@.subrange(i as int, j as int));
        }
    }
    proof {
        assert(forall|m: int| 0 <= m < j - i ==> is_digit_char(#[trigger] tail[m]));
        if j < n {
            assert(!is_digit_char(tail[j - i]));
        }
        lemma_digit_prefix_range(tail, j - i);
        assert(tail.take(j - i) =~= s@.subrange(i as int, j as int));
    }
    // collect the fractional part
    let ghost rest = tail.skip(j - i);
    proof {
        assert(rest =~= s@.skip(j as int));
    }
    let mut frac: Vec<u8> = Vec::new();
    let ghost frac_src = if rest.len() >= 2 && rest[0] == '.' && is_digit_char(rest[1]) {
        digit_prefix(rest.drop_first())
    } else {
        Seq::<char>::empty()
    };
    if n - j >= 2 && s[j] == '.' && char_is_digit(s[j + 1]) {
        let mut k: usize = j + 1;
        while k < n && char_is_digit(s[k])
            invariant
                n == s@.len(),
                i <= j,
                j + 1 <= k <= n,
                forall|m: int| j + 1 <= m < k ==> is_digit_char(s@[m]),
                frac@.len() == k - j - 1,
                forall|m: int|
                    0 <= m < frac@.len() ==> frac@[m] == digit_of(s@[j + 1 + m]) && frac@[m] < 10,
            decreases n - k,
        {
            let c = s[k];
            frac.push(((c as u32) - 48) as u8);
            k = k + 1;
        }
        proof {
            let dtail = rest.drop_first();
            assert(dtail =~= s@.skip(j + 1));
            assert(forall|m: int| 0 <= m < k - j - 1 ==> is_digit_char(#[trigger] dtail[m]));
            if k < n {
                assert(!is_digit_char(dtail[k - j - 1]));
            }
            lemma_digit_prefix_range(dtail, k - j - 1);
            assert(frac_src == dtail.take(k - j - 1));
            assert(frac_src.len() == frac@.len());
            assert(forall|m: int|
                0 <= m < frac@.len() ==> frac@[m] == digit_of(#[trigger] frac_src[m]));
        }
    } else {
        proof {
            if rest.len() >= 2 && rest[0] == '.' && is_digit_char(rest[1]) {
                assert(false);
            }
        }
    }
    match parse_u64_digits(&whole) {
        Some(w) => Some(ChapterNumber { whole: w, frac }),
        None => None,
    }
}

} // verus!
