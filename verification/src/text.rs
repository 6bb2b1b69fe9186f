//! Character classification and the written form of numeric literals.
//!
//! The lexer scans identifier and number lexemes up to a separator and then
//! classifies the scanned text. A digit- or minus-led lexeme is a numeric
//! literal exactly when its text conforms to the grammar that `f64`'s
//! `FromStr` implementation documents; that grammar is written out here as
//! spec functions, and the executable checks are proved against them.

use vstd::prelude::*;

verus! {

/// ASCII whitespace: space, horizontal tab, line feed, form feed, carriage
/// return.
pub open spec fn is_ascii_whitespace_char(c: char) -> bool {
    c == ' ' || c == '\t' || c == '\n' || c == '\u{c}' || c == '\r'
}

/// The characters that end an identifier or number scan: the four
/// single-character token heads and ASCII whitespace.
pub open spec fn is_separator_char(c: char) -> bool {
    c == ':' || c == '(' || c == ')' || c == ';' || is_ascii_whitespace_char(c)
}

/// The Unicode `White_Space` characters, the set `char::is_whitespace`
/// recognises.
pub open spec fn is_whitespace_char(c: char) -> bool {
    ||| c == ' '
    ||| c == '\t'
    ||| c == '\n'
    ||| c == '\u{b}'
    ||| c == '\u{c}'
    ||| c == '\r'
    ||| c == '\u{85}'
    ||| c == '\u{a0}'
    ||| c == '\u{1680}'
    ||| ('\u{2000}' <= c && c <= '\u{200a}')
    ||| c == '\u{2028}'
    ||| c == '\u{2029}'
    ||| c == '\u{202f}'
    ||| c == '\u{205f}'
    ||| c == '\u{3000}'
}

pub open spec fn is_ascii_digit_char(c: char) -> bool {
    '0' <= c && c <= '9'
}

pub fn is_ascii_digit(c: char) -> (r: bool)
    ensures
        r == is_ascii_digit_char(c),
{
    '0' <= c && c <= '9'
}

/// Decides membership in `is_separator_char`.
pub fn is_separator(c: char) -> (r: bool)
    ensures
        r == is_separator_char(c),
{
    c == ':' || c == '(' || c == ')' || c == ';' || c == ' ' || c == '\t' || c == '\n'
        || c == '\u{c}' || c == '\r'
}

/// Decides membership in `is_whitespace_char`.
pub fn is_whitespace(c: char) -> (r: bool)
    ensures
        r == is_whitespace_char(c),
{
    c == ' ' || c == '\t' || c == '\n' || c == '\u{b}' || c == '\u{c}' || c == '\r'
        || c == '\u{85}' || c == '\u{a0}' || c == '\u{1680}'
        || ('\u{2000}' <= c && c <= '\u{200a}') || c == '\u{2028}' || c == '\u{2029}'
        || c == '\u{202f}' || c == '\u{205f}' || c == '\u{3000}'
}

/// The first position at or after `i` that is past the end of `s` or holds a
/// non-digit.
pub open spec fn digits_end(s: Seq<char>, i: int) -> int
    decreases s.len() - i,
{
    if i < 0 || i >= s.len() || !is_ascii_digit_char(s[i]) {
        i
    } else {
        digits_end(s, i + 1)
    }
}

/// An exponent part filling `s` from `i` to the end: `e` or `E`, an optional
/// sign, then at least one digit.
pub open spec fn is_exponent_from(s: Seq<char>, i: int) -> bool {
    &&& 0 <= i < s.len()
    &&& (s[i] == 'e' || s[i] == 'E')
    &&& {
        let j = if i + 1 < s.len() && (s[i + 1] == '+' || s[i + 1] == '-') {
            i + 2
        } else {
            i + 1
        };
        j < s.len() && digits_end(s, j) == s.len()
    }
}

/// A decimal significand with optional exponent filling `s` from `i` to the
/// end: digits, an optional point with further digits, and an optional
/// exponent; or a point, at least one digit, and an optional exponent.
pub open spec fn is_number_from(s: Seq<char>, i: int) -> bool {
    let d1 = digits_end(s, i);
    if d1 > i {
        let after = if d1 < s.len() && s[d1] == '.' {
            digits_end(s, d1 + 1)
        } else {
            d1
        };
        after == s.len() || is_exponent_from(s, after)
    } else {
        0 <= i && i + 2 <= s.len() && s[i] == '.' && {
            let d2 = digits_end(s, i + 1);
            d2 > i + 1 && (d2 == s.len() || is_exponent_from(s, d2))
        }
    }
}

pub open spec fn eq_ignore_case(c: char, lower: char, upper: char) -> bool {
    c == lower || c == upper
}

/// `inf`, `infinity` or `nan`, ignoring case, filling `s` from `i` to the
/// end.
pub open spec fn is_special_from(s: Seq<char>, i: int) -> bool {
    ||| (s.len() - i == 3 && 0 <= i && eq_ignore_case(s[i], 'i', 'I') && eq_ignore_case(
        s[i + 1],
        'n',
        'N',
    ) && eq_ignore_case(s[i + 2], 'f', 'F'))
    ||| (s.len() - i == 8 && 0 <= i && eq_ignore_case(s[i], 'i', 'I') && eq_ignore_case(
        s[i + 1],
        'n',
        'N',
    ) && eq_ignore_case(s[i + 2], 'f', 'F') && eq_ignore_case(s[i + 3], 'i', 'I')
        && eq_ignore_case(s[i + 4], 'n', 'N') && eq_ignore_case(s[i + 5], 'i', 'I')
        && eq_ignore_case(s[i + 6], 't', 'T') && eq_ignore_case(s[i + 7], 'y', 'Y'))
    ||| (s.len() - i == 3 && 0 <= i && eq_ignore_case(s[i], 'n', 'N') && eq_ignore_case(
        s[i + 1],
        'a',
        'A',
    ) && eq_ignore_case(s[i + 2], 'n', 'N'))
}

/// The strings `f64`'s `FromStr` accepts, as std's documentation gives them:
/// an optional sign, then `inf`, `infinity` or `nan` (ignoring case) or a
/// decimal significand with an optional exponent. Acceptance depends only on
/// the text; out-of-range values round or saturate rather than fail.
pub open spec fn is_valid_float_text(s: Seq<char>) -> bool {
    let i: int = if s.len() > 0 && (s[0] == '+' || s[0] == '-') {
        1
    } else {
        0
    };
    is_special_from(s, i) || is_number_from(s, i)
}

/// Walks to the end of a digit run.
fn scan_digits(v: &Vec<char>, from: usize) -> (r: usize)
    requires
        from <= v@.len(),
    ensures
        r == digits_end(v@, from as int),
        from <= r <= v@.len(),
    decreases v@.len() - from,
{
    if from == v.len() {
        from
    } else if !is_ascii_digit(v[from]) {
        from
    } else {
        scan_digits(v, from + 1)
    }
}

/// Decides `is_exponent_from`.
fn check_exponent(v: &Vec<char>, i: usize) -> (r: bool)
    requires
        i <= v@.len(),
    ensures
        r == is_exponent_from(v@, i as int),
{
    if i == v.len() {
        return false;
    }
    let c = v[i];
    if c != 'e' && c != 'E' {
        return false;
    }
    let j = if i + 1 < v.len() && (v[i + 1] == '+' || v[i + 1] == '-') {
        i + 2
    } else {
        i + 1
    };
    if j >= v.len() {
        return false;
    }
    let d = scan_digits(v, j);
    d == v.len()
}

/// Decides `is_number_from`.
fn check_number(v: &Vec<char>, i: usize) -> (r: bool)
    requires
        i <= v@.len(),
    ensures
        r == is_number_from(v@, i as int),
{
    let d1 = scan_digits(v, i);
    if d1 > i {
        let after = if d1 < v.len() && v[d1] == '.' {
            scan_digits(v, d1 + 1)
        } else {
            d1
        };
        if after == v.len() {
            true
        } else {
            check_exponent(v, after)
        }
    } else {
        if i < v.len() && i + 1 < v.len() && v[i] == '.' {
            let d2 = scan_digits(v, i + 1);
            if d2 > i + 1 {
                if d2 == v.len() {
                    true
                } else {
                    check_exponent(v, d2)
                }
            } else {
                false
            }
        } else {
            false
        }
    }
}

fn eq_ci(c: char, lower: char, upper: char) -> (r: bool)
    ensures
        r == eq_ignore_case(c, lower, upper),
{
    c == lower || c == upper
}

/// Decides `is_special_from`.
fn check_special(v: &Vec<char>, i: usize) -> (r: bool)
    requires
        i <= v@.len(),
    ensures
        r == is_special_from(v@, i as int),
{
    if v.len() - i == 3 {
        if eq_ci(v[i], 'i', 'I') && eq_ci(v[i + 1], 'n', 'N') && eq_ci(v[i + 2], 'f', 'F') {
            return true;
        }
        eq_ci(v[i], 'n', 'N') && eq_ci(v[i + 1], 'a', 'A') && eq_ci(v[i + 2], 'n', 'N')
    } else if v.len() - i == 8 {
        eq_ci(v[i], 'i', 'I') && eq_ci(v[i + 1], 'n', 'N') && eq_ci(v[i + 2], 'f', 'F') && eq_ci(
            v[i + 3],
            'i',
            'I',
        ) && eq_ci(v[i + 4], 'n', 'N') && eq_ci(v[i + 5], 'i', 'I') && eq_ci(v[i + 6], 't', 'T')
            && eq_ci(v[i + 7], 'y', 'Y')
    } else {
        false
    }
}

/// Decides `is_valid_float_text`: whether `f64`'s `FromStr` would accept the
/// text.
pub fn is_valid_float(v: &Vec<char>) -> (r: bool)
    ensures
        r == is_valid_float_text(v@),
{
    let i: usize = if v.len() > 0 && (v[0] == '+' || v[0] == '-') {
        1
    } else {
        0
    };
    if check_special(v, i) {
        true
    } else {
        check_number(v, i)
    }
}

} // verus!
