//! Attribute lookup and coercion of attribute text to typed values.
//!
//! Required attributes are looked up by name in an element's attribute list
//! and coerced to their target type: integer, boolean, or (elsewhere,
//! through the event source's number syntax) floating point.

use vstd::prelude::*;

use crate::errors::ErrorModel;
use crate::errors::OsmParseError;
use crate::events::Attr;

verus! {

/// The first value in `attrs`, at or after position `i`, whose key is `name`.
pub open spec fn spec_find_attr_from(attrs: Seq<Attr>, i: int, name: Seq<char>) -> Option<
    Seq<char>,
>
    decreases attrs.len() - i,
{
    if i < 0 || i >= attrs.len() {
        None
    } else if attrs[i].key@ == name {
        Some(attrs[i].value@)
    } else {
        spec_find_attr_from(attrs, i + 1, name)
    }
}

/// The first value in `attrs` whose key is `name`, if any.
pub open spec fn spec_find_attr(attrs: Seq<Attr>, name: Seq<char>) -> Option<Seq<char>> {
    spec_find_attr_from(attrs, 0, name)
}

/// Finds the first attribute named `name` and returns a reference to its
/// value.
pub fn find_attribute<'a>(attributes: &'a Vec<Attr>, name: &String) -> (r: Option<&'a String>)
    ensures
        match r {
            Some(v) => spec_find_attr(attributes@, name@) == Some(v@),
            None => spec_find_attr(attributes@, name@) is None,
        },
{
    let mut k: usize = 0;
    while k < attributes.len()
        invariant
            k <= attributes@.len(),
            spec_find_attr(attributes@, name@) == spec_find_attr_from(
                attributes@,
                k as int,
                name@,
            ),
        decreases attributes@.len() - k,
    {
        if attributes[k].key == *name {
            return Some(&attributes[k].value);
        }
        k = k + 1;
    }
    None
}

/// Whether `c` is a decimal digit.
pub open spec fn is_dec_digit(c: char) -> bool {
    48 <= c as int && c as int <= 57
}

/// The numeric value of the decimal digit `c`.
pub open spec fn digit_val(c: char) -> int {
    c as int - 48
}

/// Whether every character of `s` is a decimal digit.
pub open spec fn all_digits(s: Seq<char>) -> bool {
    forall|k: int| 0 <= k < s.len() ==> is_dec_digit(#[trigger] s[k])
}

/// The value of the decimal digit string `s`, most significant digit first.
pub open spec fn digits_val(s: Seq<char>) -> int
    decreases s.len(),
{
    if s.len() == 0 {
        0
    } else {
        10 * digits_val(s.drop_last()) + digit_val(s.last())
    }
}

/// The integer denoted by `s`: an optional `+` or `-` sign followed by one
/// or more decimal digits, valid only if the value fits in a 64-bit signed
/// integer.  This is the integer syntax the decoder accepts for `id` and
/// `ref` attributes.
pub open spec fn spec_parse_i64(s: Seq<char>) -> Option<int> {
    let signed = s.len() > 0 && (s[0] == '+' || s[0] == '-');
    let digits = if signed {
        s.subrange(1, s.len() as int)
    } else {
        s
    };
    let negative = s.len() > 0 && s[0] == '-';
    if digits.len() == 0 || !all_digits(digits) {
        None
    } else {
        let v = if negative {
            -digits_val(digits)
        } else {
            digits_val(digits)
        };
        if i64::MIN <= v <= i64::MAX {
            Some(v)
        } else {
            None
        }
    }
}

/// A digit string's value only grows as more digits are appended, and is
/// never negative.
proof fn lemma_digits_val_bounds(s: Seq<char>, j: int)
    requires
        0 <= j <= s.len(),
        all_digits(s),
    ensures
        0 <= digits_val(s.take(j)) <= digits_val(s),
    decreases s.len(),
{
    if s.len() == 0 {
        assert(s.take(j) =~= s);
    } else if j == s.len() {
        assert(s.take(j) =~= s);
        lemma_digits_val_bounds(s.drop_last(), s.len() - 1);
        assert(s.drop_last().take(s.len() - 1) =~= s.drop_last());
    } else {
        assert(all_digits(s.drop_last()));
        lemma_digits_val_bounds(s.drop_last(), j);
        assert(s.drop_last().take(j) =~= s.take(j));
    }
}

/// Parses `s` as a signed 64-bit integer: an optional sign followed by one
/// or more decimal digits; `None` when the syntax is wrong or the value
/// does not fit.
pub fn parse_i64(s: &str) -> (r: Option<i64>)
    ensures
        match r {
            Some(n) => spec_parse_i64(s@) == Some(n as int),
            None => spec_parse_i64(s@) is None,
        },
{
    let n = s.unicode_len();
    let mut start: usize = 0;
    let mut negative = false;
    if n > 0 {
        let c0 = s.get_char(0);
        if c0 == '+' {
            start = 1;
        } else if c0 == '-' {
            negative = true;
            start = 1;
        }
    }
    if start >= n {
        return None;
    }
    let ghost digits = if start == 1 {
        s@.subrange(1, s@.len() as int)
    } else {
        s@
    };
    assert(digits.len() == n - start);
    // Accumulate the magnitude negatively so that `i64::MIN` stays reachable.
    let mut acc: i64 = 0;
    let mut j: usize = start;
    while j < n
        invariant
            start <= j <= n,
            n == s@.len(),
            start == 0 || start == 1,
            start == 1 ==> s@.len() > 0 && (s@[0] == '+' || s@[0] == '-'),
            start == 0 ==> s@.len() == 0 || (s@[0] != '+' && s@[0] != '-'),
            digits == (if start == 1 {
                s@.subrange(1, s@.len() as int)
            } else {
                s@
            }),
            digits.len() == n - start,
            forall|k: int| 0 <= k < j - start ==> is_dec_digit(#[trigger] digits[k]),
            acc <= 0,
            acc == -digits_val(digits.take(j - start)),
        decreases n - j,
    {
        let c = s.get_char(j);
        let u = c as u32;
        proof {
            assert(digits[j - start] == s@[j as int]);
        }
        if u < 48 || u > 57 {
            assert(!is_dec_digit(digits[j - start]));
            assert(!all_digits(digits));
            return None;
        }
        let d = (u - 48) as i64;
        let ghost pfx = digits.take(j - start);
        let ghost pfx2 = digits.take(j + 1 - start);
        proof {
            assert(pfx2.drop_last() =~= pfx);
            assert(pfx2.last() == digits[j - start]);
            assert(digits_val(pfx2) == 10 * digits_val(pfx) + digit_val(digits[j - start]));
        }
        let step = match acc.checked_mul(10) {
            Some(a) => a.checked_sub(d),
            None => None,
        };
        match step {
            Some(b) => {
                acc = b;
            },
            None => {
                // The value so far already falls below `i64::MIN`, so the
                // full magnitude cannot fit either way.
                proof {
                    assert(digits_val(pfx2) > 9223372036854775808int);
                    if all_digits(digits) {
                        lemma_digits_val_bounds(digits, j + 1 - start);
                        assert(digits_val(digits) > 9223372036854775808int);
                    }
                }
                return None;
            },
        }
        j = j + 1;
    }
    proof {
        assert(digits.take(n - start) =~= digits);
        assert(all_digits(digits));
        assert(acc == -digits_val(digits));
    }
    if negative {
        Some(acc)
    } else if acc == i64::MIN {
        None
    } else {
        Some(-acc)
    }
}

/// The boolean denoted by `s`: exactly `true` or `false`.
pub open spec fn spec_parse_bool(s: Seq<char>) -> Option<bool> {
    if s == "true"@ {
        Some(true)
    } else if s == "false"@ {
        Some(false)
    } else {
        None
    }
}

/// Parses `s` as a boolean: exactly `true` or `false`.
pub fn parse_bool(s: &String) -> (r: Option<bool>)
    ensures
        r == spec_parse_bool(s@),
{
    let t: String = "true".to_owned();
    let f: String = "false".to_owned();
    if *s == t {
        Some(true)
    } else if *s == f {
        Some(false)
    } else {
        None
    }
}

/// The integer value of the first attribute named `name`, if present and
/// well formed.
pub open spec fn spec_int_attr(attrs: Seq<Attr>, name: Seq<char>) -> Option<int> {
    match spec_find_attr(attrs, name) {
        None => None,
        Some(v) => spec_parse_i64(v),
    }
}

/// Looks up the required integer attribute `name`; a missing or malformed
/// value aborts with an attribute error naming the attribute and the
/// element kind that required it.
pub fn parse_int_attr(name: &String, attributes: &Vec<Attr>, element: &String) -> (r: Result<
    i64,
    OsmParseError,
>)
    ensures
        match r {
            Ok(v) => spec_int_attr(attributes@, name@) == Some(v as int),
            Err(e) => spec_int_attr(attributes@, name@) is None && e@ == (ErrorModel::Attribute {
                attribute: name@,
                element: element@,
            }),
        },
{
    match find_attribute(attributes, name) {
        None => Err(OsmParseError::Attribute {
            attribute: name.clone(),
            element: element.clone(),
        }),
        Some(v) => match parse_i64(v.as_str()) {
            None => Err(OsmParseError::Attribute {
                attribute: name.clone(),
                element: element.clone(),
            }),
            Some(value) => Ok(value),
        },
    }
}

} // verus!
