//! Conversions from attribute text to the schema's value types.
//!
//! Each attribute value arrives as a string.  The functions here decide, and
//! specify exactly, which strings read as the unsigned integers, booleans and
//! floating-point literals that the schema declares.  Float attributes are
//! only recognised, never evaluated: the document keeps their text.

use vstd::prelude::*;
use vstd::string::StrSliceExecFns;

verus! {

/// A decimal digit `0` to `9`.
pub open spec fn is_dec_digit(c: char) -> bool {
    '0' <= c && c <= '9'
}

/// Numeric value of a decimal digit.
pub open spec fn digit_val(c: char) -> int {
    c as int - '0' as int
}

/// Value of a digit string read in base ten.
pub open spec fn digits_val(s: Seq<char>) -> int
    decreases s.len(),
{
    if s.len() == 0 {
        0
    } else {
        digits_val(s.drop_last()) * 10 + digit_val(s.last())
    }
}

/// Every character is a decimal digit.
pub open spec fn all_digits(s: Seq<char>) -> bool {
    forall|i: int| 0 <= i < s.len() ==> is_dec_digit(#[trigger] s[i])
}

/// The string with one leading `+` removed, as unsigned parsing allows.
pub open spec fn strip_plus(s: Seq<char>) -> Seq<char> {
    if s.len() > 0 && s[0] == '+' {
        s.skip(1)
    } else {
        s
    }
}

/// The string with one leading `+` or `-` removed, as float parsing allows.
pub open spec fn strip_sign(s: Seq<char>) -> Seq<char> {
    if s.len() > 0 && (s[0] == '+' || s[0] == '-') {
        s.skip(1)
    } else {
        s
    }
}

/// What `u64` reads from a string: an optional `+`, then one or more
/// digits whose value fits; anything else is rejected.
pub open spec fn spec_parse_u64(s: Seq<char>) -> Option<u64> {
    let t = strip_plus(s);
    if t.len() > 0 && all_digits(t) && digits_val(t) <= u64::MAX {
        Some(digits_val(t) as u64)
    } else {
        None
    }
}

/// What `usize` reads from a string, with the platform's bound.
pub open spec fn spec_parse_usize(s: Seq<char>) -> Option<usize> {
    let t = strip_plus(s);
    if t.len() > 0 && all_digits(t) && digits_val(t) <= usize::MAX {
        Some(digits_val(t) as usize)
    } else {
        None
    }
}

/// What `bool` reads from a string: exactly `true` or `false`.
pub open spec fn spec_parse_bool(s: Seq<char>) -> Option<bool> {
    if s == "true"@ {
        Some(true)
    } else if s == "false"@ {
        Some(false)
    } else {
        None
    }
}

/// `c` equals the (lower-case) letter `lo`, ignoring case.
pub open spec fn ci_eq(c: char, lo: char) -> bool {
    c == lo || c as int == lo as int - 32
}

/// The string spells the (lower-case) word `w`, ignoring case.
pub open spec fn matches_word_ci(s: Seq<char>, w: Seq<char>) -> bool {
    s.len() == w.len() && forall|i: int| 0 <= i < s.len() ==> ci_eq(#[trigger] s[i], w[i])
}

/// `e` or `E`, the exponent marker of a float literal.
pub open spec fn is_exp_marker(c: char) -> bool {
    c == 'e' || c == 'E'
}

/// The mantissa of a float literal: digits with at most one `.`,
/// and at least one digit.
pub open spec fn is_mantissa(m: Seq<char>) -> bool {
    &&& forall|i: int| 0 <= i < m.len() ==> is_dec_digit(#[trigger] m[i]) || m[i] == '.'
    &&& forall|i: int, j: int|
        0 <= i < m.len() && 0 <= j < m.len() && #[trigger] m[i] == '.' && #[trigger] m[j] == '.'
            ==> i == j
    &&& exists|i: int| 0 <= i < m.len() && is_dec_digit(#[trigger] m[i])
}

/// An exponent count: an optional sign, then one or more digits.
pub open spec fn is_signed_count(s: Seq<char>) -> bool {
    let t = strip_sign(s);
    t.len() > 0 && all_digits(t)
}

/// An unsigned float number: a mantissa, optionally followed by an
/// exponent marker and a signed count.
pub open spec fn is_number_text(t: Seq<char>) -> bool {
    ||| is_mantissa(t)
    ||| exists|i: int|
        0 <= i < t.len() && is_exp_marker(#[trigger] t[i]) && is_mantissa(t.take(i))
            && is_signed_count(t.skip(i + 1))
}

/// The strings that read as a float: an optional sign, then `inf`,
/// `infinity` or `nan` in any case, or a number.
pub open spec fn is_float_text(s: Seq<char>) -> bool {
    let t = strip_sign(s);
    ||| matches_word_ci(t, "inf"@)
    ||| matches_word_ci(t, "infinity"@)
    ||| matches_word_ci(t, "nan"@)
    ||| is_number_text(t)
}

/// A digit string's value never shrinks when digits are appended.
proof fn lemma_digits_val_take_le(s: Seq<char>, k: int)
    requires
        all_digits(s),
        0 <= k <= s.len(),
    ensures
        0 <= digits_val(s.take(k)) <= digits_val(s),
    decreases s.len() - k,
{
    lemma_digits_val_nonneg(s.take(k));
    if k == s.len() {
        assert(s.take(k) =~= s);
    } else {
        assert(s.take(k + 1).drop_last() =~= s.take(k));
        assert(digits_val(s.take(k + 1)) == digits_val(s.take(k)) * 10 + digit_val(s[k]));
        lemma_digits_val_take_le(s, k + 1);
    }
}

/// A digit string's value is never negative.
proof fn lemma_digits_val_nonneg(s: Seq<char>)
    requires
        all_digits(s),
    ensures
        digits_val(s) >= 0,
    decreases s.len(),
{
    if s.len() > 0 {
        assert(all_digits(s.drop_last()));
        lemma_digits_val_nonneg(s.drop_last());
    }
}

/// Whether two strings hold the same characters.
pub fn str_eq(a: &str, b: &str) -> (r: bool)
    ensures
        r == (a@ == b@),
{
    let n = a.unicode_len();
    let m = b.unicode_len();
    if n != m {
        proof {
            assert(a@ != b@) by {
                if a@ == b@ {
                    assert(a@.len() == b@.len());
                }
            }
        }
        return false;
    }
    let mut i: usize = 0;
    while i < n
        invariant
            0 <= i <= n,
            n == a@.len(),
            n == b@.len(),
            forall|j: int| 0 <= j < i ==> a@[j] == b@[j],
        decreases n - i,
    {
        if a.get_char(i) != b.get_char(i) {
            proof {
                assert(a@[i as int] != b@[i as int]);
            }
            return false;
        }
        i += 1;
    }
    proof {
        assert(a@ =~= b@);
    }
    true
}

/// Reads an unsigned 64-bit integer exactly as `u64` does.
pub fn parse_u64_str(s: &str) -> (r: Option<u64>)
    ensures
        r == spec_parse_u64(s@),
{
    let n = s.unicode_len();
    let start: usize = if n > 0 && s.get_char(0) == '+' {
        1
    } else {
        0
    };
    proof {
        assert(strip_plus(s@) =~= s@.skip(start as int));
    }
    if start >= n {
        return None;
    }
    let ghost t = s@.skip(start as int);
    let mut acc: u64 = 0;
    let mut i: usize = start;
    while i < n
        invariant
            start <= i <= n,
            n == s@.len(),
            t == s@.skip(start as int),
            t == strip_plus(s@),
            t.len() == n - start,
            forall|j: int| 0 <= j < i - start ==> is_dec_digit(#[trigger] t[j]),
            acc == digits_val(t.take(i - start)),
        decreases n - i,
    {
        let c = s.get_char(i);
        proof {
            assert(t[i - start] == s@[i as int]);
        }
        if !('0' <= c && c <= '9') {
            proof {
                assert(!is_dec_digit(t[i - start]));
                assert(!all_digits(t));
            }
            return None;
        }
        let d: u64 = (c as u32 - 48) as u64;
        proof {
            assert(t.take(i - start + 1).drop_last() =~= t.take(i - start));
            assert(t.take(i - start + 1).last() == t[i - start]);
            assert(is_dec_digit(t[i - start]));
            assert(d == digit_val(t[i - start]));
            assert(digits_val(t.take(i - start + 1)) == digits_val(t.take(i - start)) * 10
                + digit_val(t[i - start]));
        }
        let step = match acc.checked_mul(10) {
            Some(m) => m.checked_add(d),
            None => None,
        };
        match step {
            Some(v) => {
                acc = v;
            },
            None => {
                proof {
                    assert(digits_val(t.take(i - start + 1)) > u64::MAX);
                    if all_digits(t) {
                        lemma_digits_val_take_le(t, i - start + 1);
                        assert(digits_val(t) > u64::MAX);
                    }
                }
                return None;
            },
        }
        i += 1;
    }
    proof {
        assert(all_digits(t));
        assert(t.take(n - start) =~= t);
    }
    Some(acc)
}

/// Reads an unsigned machine-word integer exactly as `usize` does.
pub fn parse_usize_str(s: &str) -> (r: Option<usize>)
    ensures
        r == spec_parse_usize(s@),
{
    let n = s.unicode_len();
    let start: usize = if n > 0 && s.get_char(0) == '+' {
        1
    } else {
        0
    };
    proof {
        assert(strip_plus(s@) =~= s@.skip(start as int));
    }
    if start >= n {
        return None;
    }
    let ghost t = s@.skip(start as int);
    let mut acc: usize = 0;
    let mut i: usize = start;
    while i < n
        invariant
            start <= i <= n,
            n == s@.len(),
            t == s@.skip(start as int),
            t == strip_plus(s@),
            t.len() == n - start,
            forall|j: int| 0 <= j < i - start ==> is_dec_digit(#[trigger] t[j]),
            acc == digits_val(t.take(i - start)),
        decreases n - i,
    {
        let c = s.get_char(i);
        proof {
            assert(t[i - start] == s@[i as int]);
        }
        if !('0' <= c && c <= '9') {
            proof {
                assert(!is_dec_digit(t[i - start]));
                assert(!all_digits(t));
            }
            return None;
        }
        let d: usize = (c as u32 - 48) as usize;
        proof {
            assert(t.take(i - start + 1).drop_last() =~= t.take(i - start));
            assert(t.take(i - start + 1).last() == t[i - start]);
            assert(is_dec_digit(t[i - start]));
            assert(d == digit_val(t[i - start]));
            assert(digits_val(t.take(i - start + 1)) == digits_val(t.take(i - start)) * 10
                + digit_val(t[i - start]));
        }
        let step = match acc.checked_mul(10) {
            Some(m) => m.checked_add(d),
            None => None,
        };
        match step {
            Some(v) => {
                acc = v;
            },
            None => {
                proof {
                    assert(digits_val(t.take(i - start + 1)) > usize::MAX);
                    if all_digits(t) {
                        lemma_digits_val_take_le(t, i - start + 1);
                        assert(digits_val(t) > usize::MAX);
                    }
                }
                return None;
            },
        }
        i += 1;
    }
    proof {
        assert(all_digits(t));
        assert(t.take(n - start) =~= t);
    }
    Some(acc)
}

/// Reads a boolean exactly as `bool` does: `true` or `false`, nothing else.
pub fn parse_bool_str(s: &str) -> (r: Option<bool>)
    ensures
        r == spec_parse_bool(s@),
{
    proof {
        reveal_strlit("true");
        reveal_strlit("false");
    }
    let n = s.unicode_len();
    if n == 4 && s.get_char(0) == 't' && s.get_char(1) == 'r' && s.get_char(2) == 'u'
        && s.get_char(3) == 'e' {
        proof {
            assert(s@ =~= "true"@);
        }
        Some(true)
    } else if n == 5 && s.get_char(0) == 'f' && s.get_char(1) == 'a' && s.get_char(2) == 'l'
        && s.get_char(3) == 's' && s.get_char(4) == 'e' {
        proof {
            assert(s@ =~= "false"@);
        }
        Some(false)
    } else {
        proof {
            if s@ == "true"@ {
                assert(s@.len() == 4);
                assert(false);
            }
            if s@ == "false"@ {
                assert(s@.len() == 5);
                assert(false);
            }
        }
        None
    }
}

/// The word `w` (lower case) stands at `from` to the end of `s`, ignoring case.
fn tail_matches_word_ci(s: &str, from: usize, w: &str) -> (r: bool)
    requires
        from <= s@.len(),
    ensures
        r == matches_word_ci(s@.skip(from as int), w@),
{
    let n = s.unicode_len();
    let m = w.unicode_len();
    if n - from != m {
        return false;
    }
    let mut i: usize = 0;
    while i < m
        invariant
            0 <= i <= m,
            m == w@.len(),
            n == s@.len(),
            from <= n,
            n - from == m,
            forall|j: int| 0 <= j < i ==> ci_eq(#[trigger] s@.skip(from as int)[j], w@[j]),
        decreases m - i,
    {
        let c = s.get_char(from + i);
        let lo = w.get_char(i);
        let ok = c == lo || c as u32 + 32 == lo as u32;
        proof {
            assert(s@.skip(from as int)[i as int] == s@[from + i]);
            assert(ok == ci_eq(s@.skip(from as int)[i as int], w@[i as int]));
        }
        if !ok {
            return false;
        }
        i += 1;
    }
    true
}

/// The characters from `from` to `upto` form a mantissa.
fn range_is_mantissa(s: &str, from: usize, upto: usize) -> (r: bool)
    requires
        from <= upto <= s@.len(),
    ensures
        r == is_mantissa(s@.subrange(from as int, upto as int)),
{
    let ghost m = s@.subrange(from as int, upto as int);
    let mut i: usize = from;
    let mut digit_seen = false;
    let mut dot_seen = false;
    while i < upto
        invariant
            from <= i <= upto <= s@.len(),
            m == s@.subrange(from as int, upto as int),
            forall|j: int|
                0 <= j < i - from ==> is_dec_digit(#[trigger] m[j]) || m[j] == '.',
            digit_seen == exists|j: int| 0 <= j < i - from && is_dec_digit(#[trigger] m[j]),
            dot_seen == exists|j: int| 0 <= j < i - from && #[trigger] m[j] == '.',
            forall|j: int, k: int|
                0 <= j < i - from && 0 <= k < i - from && #[trigger] m[j] == '.'
                    && #[trigger] m[k] == '.' ==> j == k,
            dot_seen ==> exists|j: int|
                0 <= j < i - from && #[trigger] m[j] == '.' && forall|k: int|
                    0 <= k < i - from && #[trigger] m[k] == '.' ==> k == j,
        decreases upto - i,
    {
        let c = s.get_char(i);
        proof {
            assert(m[i - from] == s@[i as int]);
        }
        if c == '.' {
            if dot_seen {
                proof {
                    let j = choose|j: int|
                        0 <= j < i - from && #[trigger] m[j] == '.' && forall|k: int|
                            0 <= k < i - from && #[trigger] m[k] == '.' ==> k == j;
                    assert(m[i - from] == '.');
                    assert(!is_mantissa(m)) by {
                        if is_mantissa(m) {
                            assert(j != i - from);
                        }
                    }
                }
                return false;
            }
            dot_seen = true;
        } else if '0' <= c && c <= '9' {
            digit_seen = true;
        } else {
            proof {
                assert(!(is_dec_digit(m[i - from]) || m[i - from] == '.'));
            }
            return false;
        }
        i += 1;
    }
    proof {
        if !digit_seen {
            assert(!is_mantissa(m));
        }
    }
    digit_seen
}

/// The characters from `from` to the end form a signed count.
fn tail_is_signed_count(s: &str, from: usize) -> (r: bool)
    requires
        from <= s@.len(),
    ensures
        r == is_signed_count(s@.skip(from as int)),
{
    let ghost e = s@.skip(from as int);
    let n = s.unicode_len();
    let start: usize = if from < n {
        let c0 = s.get_char(from);
        if c0 == '+' || c0 == '-' {
            from + 1
        } else {
            from
        }
    } else {
        from
    };
    proof {
        if from < n {
            assert(e[0] == s@[from as int]);
        }
        assert(strip_sign(e) =~= s@.skip(start as int));
    }
    if start >= n {
        return false;
    }
    let ghost t = s@.skip(start as int);
    let mut i: usize = start;
    while i < n
        invariant
            start <= i <= n,
            n == s@.len(),
            t == s@.skip(start as int),
            t == strip_sign(s@.skip(from as int)),
            t.len() == n - start,
            forall|j: int| 0 <= j < i - start ==> is_dec_digit(#[trigger] t[j]),
        decreases n - i,
    {
        let c = s.get_char(i);
        proof {
            assert(t[i - start] == s@[i as int]);
        }
        if !('0' <= c && c <= '9') {
            proof {
                assert(!is_dec_digit(t[i - start]));
                assert(!all_digits(t));
            }
            return false;
        }
        i += 1;
    }
    proof {
        assert(all_digits(t));
    }
    true
}

/// Decides whether `s` reads as a float, exactly as `f64` accepts it.
pub fn is_float_str(s: &str) -> (r: bool)
    ensures
        r == is_float_text(s@),
{
    let n = s.unicode_len();
    let start: usize = if n > 0 {
        let c0 = s.get_char(0);
        if c0 == '+' || c0 == '-' {
            1
        } else {
            0
        }
    } else {
        0
    };
    let ghost t = s@.skip(start as int);
    proof {
        assert(strip_sign(s@) =~= t);
    }
    if tail_matches_word_ci(s, start, "inf") {
        return true;
    }
    if tail_matches_word_ci(s, start, "infinity") {
        return true;
    }
    if tail_matches_word_ci(s, start, "nan") {
        return true;
    }
    // Look for the first exponent marker; everything before it must be a
    // mantissa, everything after it a signed count.
    let mut i: usize = start;
    while i < n
        invariant
            start <= i <= n,
            n == s@.len(),
            t == s@.skip(start as int),
            t == strip_sign(s@),
            !matches_word_ci(t, "inf"@),
            !matches_word_ci(t, "infinity"@),
            !matches_word_ci(t, "nan"@),
            forall|j: int| 0 <= j < i - start ==> !is_exp_marker(#[trigger] t[j]),
        decreases n - i,
    {
        let c = s.get_char(i);
        proof {
            assert(t[i - start] == s@[i as int]);
        }
        if c == 'e' || c == 'E' {
            let mant = range_is_mantissa(s, start, i);
            let cnt = tail_is_signed_count(s, i + 1);
            proof {
                assert(t.take(i - start) =~= s@.subrange(start as int, i as int));
                assert(t.skip(i - start + 1) =~= s@.skip(i + 1));
                if mant && cnt {
                    assert(is_number_text(t));
                } else {
                    // No other split can succeed: a mantissa holds no
                    // exponent marker, so any witness is this first one.
                    assert forall|k: int|
                        0 <= k < t.len() && is_exp_marker(#[trigger] t[k]) && is_mantissa(
                            t.take(k),
                        ) && is_signed_count(t.skip(k + 1)) implies false by {
                        if k < i - start {
                            assert(!is_exp_marker(t[k]));
                        } else if k > i - start {
                            assert(t.take(k)[i - start] == t[i - start]);
                            assert(is_dec_digit(t[i - start]) || t[i - start] == '.');
                        } else {
                            assert(!(mant && cnt));
                        }
                    }
                    assert(!is_mantissa(t)) by {
                        if is_mantissa(t) {
                            assert(is_dec_digit(t[i - start]) || t[i - start] == '.');
                        }
                    }
                }
            }
            return mant && cnt;
        }
        i += 1;
    }
    let r = range_is_mantissa(s, start, n);
    proof {
        assert(t.take(n - start) =~= s@.subrange(start as int, n as int));
        assert(t =~= t.take(n - start));
        if !r {
            assert forall|k: int|
                0 <= k < t.len() && is_exp_marker(#[trigger] t[k]) && is_mantissa(t.take(k))
                    && is_signed_count(t.skip(k + 1)) implies false by {
                assert(!is_exp_marker(t[k]));
            }
        }
    }
    r
}

} // verus!
