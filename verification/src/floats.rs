//! Recognition of floating-point text.
//!
//! Coordinates are kept as their source text; the decoder only checks that
//! the text is well-formed floating-point syntax: an optional sign followed
//! by `inf`, `infinity` or `nan` in any letter case, or by a number — a
//! run of digits with an optional dot among them and an optional exponent
//! part.  This matches the usual lexical convention for decimal degrees.

use vstd::prelude::*;

use crate::attrs::all_digits;
use crate::attrs::is_dec_digit;

verus! {

/// Whether `c` is an explicit sign character.
pub open spec fn is_sign(c: char) -> bool {
    c == '+' || c == '-'
}

/// `s` with one leading sign character removed, if it carries one.
pub open spec fn strip_sign(s: Seq<char>) -> Seq<char> {
    if s.len() > 0 && is_sign(s[0]) {
        s.subrange(1, s.len() as int)
    } else {
        s
    }
}

/// A count: one or more decimal digits.
pub open spec fn is_count(s: Seq<char>) -> bool {
    s.len() > 0 && all_digits(s)
}

/// Whether `p` splits `s` into a well-formed mantissa: digits with a
/// single dot at `p`, and at least one digit on some side of it.
pub open spec fn mantissa_split_at(s: Seq<char>, p: int) -> bool {
    &&& 0 <= p < s.len()
    &&& s[p] == '.'
    &&& all_digits(s.take(p))
    &&& all_digits(s.skip(p + 1))
    &&& s.len() > 1
}

/// A mantissa: a count, a count followed by a dot, or a dot with a count
/// on at least one side.
pub open spec fn is_mantissa(s: Seq<char>) -> bool {
    is_count(s) || exists|p: int| mantissa_split_at(s, p)
}

/// Whether `p` splits `s` into a mantissa and an exponent part: an `e` or
/// `E` followed by an optionally signed count.
pub open spec fn exp_split_at(s: Seq<char>, p: int) -> bool {
    &&& 0 <= p < s.len()
    &&& (s[p] == 'e' || s[p] == 'E')
    &&& is_mantissa(s.take(p))
    &&& is_count(strip_sign(s.skip(p + 1)))
}

/// A number: a mantissa with an optional exponent part.
pub open spec fn is_number(s: Seq<char>) -> bool {
    is_mantissa(s) || exists|p: int| exp_split_at(s, p)
}

/// Whether `c` and `d` are the same letter up to ASCII case.
pub open spec fn chars_eq_ci(c: char, d: char) -> bool {
    ||| c == d
    ||| (65 <= c as int <= 90 && c as int + 32 == d as int)
    ||| (65 <= d as int <= 90 && d as int + 32 == c as int)
}

/// Whether `s` and `t` are equal up to ASCII case.
pub open spec fn seq_eq_ci(s: Seq<char>, t: Seq<char>) -> bool {
    s.len() == t.len() && forall|k: int| 0 <= k < s.len() ==> chars_eq_ci(s[k], #[trigger] t[k])
}

/// The special spellings: infinities and the not-a-number value.
pub open spec fn is_special(s: Seq<char>) -> bool {
    seq_eq_ci(s, "inf"@) || seq_eq_ci(s, "infinity"@) || seq_eq_ci(s, "nan"@)
}

/// Well-formed floating-point text: an optional sign followed by a special
/// spelling or a number.
pub open spec fn spec_float_text(s: Seq<char>) -> bool {
    is_special(strip_sign(s)) || is_number(strip_sign(s))
}

/// Every character of a mantissa is a digit or a dot.
proof fn lemma_mantissa_chars(s: Seq<char>, k: int)
    requires
        is_mantissa(s),
        0 <= k < s.len(),
    ensures
        is_dec_digit(s[k]) || s[k] == '.',
{
    if is_count(s) {
    } else {
        let p = choose|p: int| mantissa_split_at(s, p);
        if k < p {
            assert(s.take(p)[k] == s[k]);
            assert(is_dec_digit(s.take(p)[k]));
        } else if k > p {
            assert(s.skip(p + 1)[k - p - 1] == s[k]);
            assert(is_dec_digit(s.skip(p + 1)[k - p - 1]));
        }
    }
}

/// Whether every character of `s` in `[a, b)` is a decimal digit.
fn all_digits_range(s: &str, a: usize, b: usize) -> (r: bool)
    requires
        a <= b <= s@.len(),
    ensures
        r == all_digits(s@.subrange(a as int, b as int)),
{
    let mut k = a;
    while k < b
        invariant
            a <= k <= b <= s@.len(),
            forall|j: int| 0 <= j < k - a ==> is_dec_digit(#[trigger] s@.subrange(a as int, b as int)[j]),
        decreases b - k,
    {
        let c = s.get_char(k);
        let u = c as u32;
        proof {
            assert(s@.subrange(a as int, b as int)[k - a] == s@[k as int]);
        }
        if u < 48 || u > 57 {
            assert(!is_dec_digit(s@.subrange(a as int, b as int)[k - a]));
            return false;
        }
        k = k + 1;
    }
    true
}

/// Whether `s` in `[a, b)` is a count: one or more decimal digits.
fn is_count_range(s: &str, a: usize, b: usize) -> (r: bool)
    requires
        a <= b <= s@.len(),
    ensures
        r == is_count(s@.subrange(a as int, b as int)),
{
    if a == b {
        return false;
    }
    all_digits_range(s, a, b)
}

/// Whether `s` in `[a, b)` is a mantissa.
fn is_mantissa_range(s: &str, a: usize, b: usize) -> (r: bool)
    requires
        a <= b <= s@.len(),
    ensures
        r == is_mantissa(s@.subrange(a as int, b as int)),
{
    let ghost m = s@.subrange(a as int, b as int);
    // Find the first dot, if any.
    let mut k = a;
    while k < b
        invariant
            a <= k <= b <= s@.len(),
            m == s@.subrange(a as int, b as int),
            forall|j: int| 0 <= j < k - a ==> #[trigger] m[j] != '.',
        decreases b - k,
    {
        let c = s.get_char(k);
        proof {
            assert(m[k - a] == s@[k as int]);
        }
        if c == '.' {
            // The only candidate split is here: an earlier dot does not
            // exist, and a later split would keep this dot on its digit
            // side.
            let before = all_digits_range(s, a, k);
            let after = all_digits_range(s, k + 1, b);
            let r = before && after && b - a > 1;
            proof {
                assert(s@.subrange(a as int, k as int) =~= m.take(k - a));
                assert(s@.subrange(k + 1 as int, b as int) =~= m.skip(k - a + 1));
                if r {
                    assert(mantissa_split_at(m, k - a));
                } else {
                    assert(!is_count(m)) by {
                        assert(m[k - a] == '.');
                        assert(!is_dec_digit(m[k - a]));
                    }
                    assert(forall|p: int| !mantissa_split_at(m, p)) by {
                        assert forall|p: int| !mantissa_split_at(m, p) by {
                            if 0 <= p < m.len() && m[p] == '.' {
                                if p < k - a {
                                    assert(m[p] != '.');
                                } else if p > k - a {
                                    assert(m.take(p)[k - a] == m[k - a]);
                                    assert(!all_digits(m.take(p)));
                                }
                            }
                        }
                    }
                }
            }
            return r;
        }
        k = k + 1;
    }
    // No dot at all: only a plain count remains possible.
    proof {
        assert(forall|p: int| !mantissa_split_at(m, p)) by {
            assert forall|p: int| !mantissa_split_at(m, p) by {
                if 0 <= p < m.len() {
                    assert(m[p] != '.');
                }
            }
        }
    }
    is_count_range(s, a, b)
}

/// Whether `s` in `[a, b)` is an optionally signed count.
fn is_signed_count_range(s: &str, a: usize, b: usize) -> (r: bool)
    requires
        a <= b <= s@.len(),
    ensures
        r == is_count(strip_sign(s@.subrange(a as int, b as int))),
{
    let ghost t = s@.subrange(a as int, b as int);
    if a < b {
        let c = s.get_char(a);
        proof {
            assert(t[0] == s@[a as int]);
        }
        if c == '+' || c == '-' {
            proof {
                assert(s@.subrange(a + 1 as int, b as int) =~= strip_sign(t));
            }
            return is_count_range(s, a + 1, b);
        }
    }
    proof {
        assert(strip_sign(t) == t);
    }
    is_count_range(s, a, b)
}

/// Whether `s` in `[a, b)` equals the ASCII string `pattern` up to letter
/// case.
fn eq_ci_range(s: &str, a: usize, b: usize, pattern: &str) -> (r: bool)
    requires
        a <= b <= s@.len(),
    ensures
        r == seq_eq_ci(s@.subrange(a as int, b as int), pattern@),
{
    let ghost t = s@.subrange(a as int, b as int);
    let n = pattern.unicode_len();
    if b - a != n {
        return false;
    }
    let mut k: usize = 0;
    while k < n
        invariant
            k <= n,
            n == pattern@.len(),
            a + n == b,
            b <= s@.len(),
            t == s@.subrange(a as int, b as int),
            forall|j: int| 0 <= j < k ==> chars_eq_ci(t[j], #[trigger] pattern@[j]),
        decreases n - k,
    {
        let c = s.get_char(a + k);
        let d = pattern.get_char(k);
        proof {
            assert(t[k as int] == s@[a + k as int]);
        }
        let cu = c as u32;
        let du = d as u32;
        let cl = if 65 <= cu && cu <= 90 {
            cu + 32
        } else {
            cu
        };
        let dl = if 65 <= du && du <= 90 {
            du + 32
        } else {
            du
        };
        if cl != dl {
            assert(!chars_eq_ci(t[k as int], pattern@[k as int]));
            return false;
        }
        assert(chars_eq_ci(t[k as int], pattern@[k as int]));
        k = k + 1;
    }
    true
}

/// Whether `s` in `[a, b)` is one of the special spellings.
fn is_special_range(s: &str, a: usize, b: usize) -> (r: bool)
    requires
        a <= b <= s@.len(),
    ensures
        r == is_special(s@.subrange(a as int, b as int)),
{
    if eq_ci_range(s, a, b, "inf") {
        return true;
    }
    if eq_ci_range(s, a, b, "infinity") {
        return true;
    }
    eq_ci_range(s, a, b, "nan")
}

/// Whether `s` in `[a, b)` is a number: a mantissa with an optional
/// exponent part.
fn is_number_range(s: &str, a: usize, b: usize) -> (r: bool)
    requires
        a <= b <= s@.len(),
    ensures
        r == is_number(s@.subrange(a as int, b as int)),
{
    let ghost m = s@.subrange(a as int, b as int);
    // Find the first exponent marker, if any.
    let mut k = a;
    while k < b
        invariant
            a <= k <= b <= s@.len(),
            m == s@.subrange(a as int, b as int),
            forall|j: int| 0 <= j < k - a ==> #[trigger] m[j] != 'e' && m[j] != 'E',
        decreases b - k,
    {
        let c = s.get_char(k);
        proof {
            assert(m[k - a] == s@[k as int]);
        }
        if c == 'e' || c == 'E' {
            let mant = is_mantissa_range(s, a, k);
            let tail = is_signed_count_range(s, k + 1, b);
            let r = mant && tail;
            proof {
                assert(s@.subrange(a as int, k as int) =~= m.take(k - a));
                assert(s@.subrange(k + 1 as int, b as int) =~= m.skip(k - a + 1));
                // A mantissa holds no exponent marker, so the whole range
                // is not one, and no other split position works either.
                assert(!is_mantissa(m)) by {
                    if is_mantissa(m) {
                        lemma_mantissa_chars(m, k - a);
                    }
                }
                if r {
                    assert(exp_split_at(m, k - a));
                } else {
                    assert(forall|p: int| !exp_split_at(m, p)) by {
                        assert forall|p: int| !exp_split_at(m, p) by {
                            if 0 <= p < m.len() && (m[p] == 'e' || m[p] == 'E') {
                                if p < k - a {
                                    assert(m[p] != 'e' && m[p] != 'E');
                                } else if p > k - a {
                                    if is_mantissa(m.take(p)) {
                                        assert(m.take(p)[k - a] == m[k - a]);
                                        lemma_mantissa_chars(m.take(p), k - a);
                                    }
                                }
                            }
                        }
                    }
                }
            }
            return r;
        }
        k = k + 1;
    }
    // No exponent marker: only a plain mantissa remains possible.
    proof {
        assert(forall|p: int| !exp_split_at(m, p)) by {
            assert forall|p: int| !exp_split_at(m, p) by {
                if 0 <= p < m.len() {
                    assert(m[p] != 'e' && m[p] != 'E');
                }
            }
        }
    }
    is_mantissa_range(s, a, b)
}

/// Whether `s` is well-formed floating-point text.
pub fn is_float_text(s: &str) -> (r: bool)
    ensures
        r == spec_float_text(s@),
{
    let n = s.unicode_len();
    let mut a: usize = 0;
    if n > 0 {
        let c = s.get_char(0);
        if c == '+' || c == '-' {
            a = 1;
        }
    }
    proof {
        assert(strip_sign(s@) =~= s@.subrange(a as int, n as int));
    }
    if is_special_range(s, a, n) {
        return true;
    }
    is_number_range(s, a, n)
}

} // verus!
