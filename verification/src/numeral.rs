//! Which texts are numbers.
//!
//! A number is written with an optional sign before either a decimal (digits
//! with at most one point among them and at least one digit, then optionally
//! `e`, an optional sign and digits) or one of the words `inf`, `infinity`
//! and `nan`. Letters may be of either case. Nothing may stand before or
//! after, white space neither.

use crate::text::{chars_of, find, is_digit, is_space, lemma_scan, scan, Mark};
use vstd::prelude::*;

verus! {

/// A sign, plus or minus.
pub open spec fn is_sign(c: char) -> bool {
    c == '+' || c == '-'
}

/// `c` is the small letter `letter` or its capital.
pub open spec fn is_letter(c: char, letter: char) -> bool {
    c == letter || c as u32 + 0x20 == letter as u32
}

/// The text from `from` to its end spells `word`, which is in small letters,
/// in letters of either case.
pub open spec fn spells(s: Seq<char>, from: int, word: Seq<char>) -> bool {
    &&& s.len() - from == word.len()
    &&& forall|i: int| 0 <= i < word.len() ==> is_letter(s[from + i], #[trigger] word[i])
}

/// The text from `from` to its end is the number of an exponent: an optional
/// sign and one digit or more.
pub open spec fn is_exponent(s: Seq<char>, from: int) -> bool {
    let digits = if from < s.len() && is_sign(s[from]) {
        from + 1
    } else {
        from
    };
    digits < s.len() && scan(s, digits, Mark::NoDigit) == s.len()
}

/// The text from `from` to its end is a decimal: digits, optionally a point
/// and more digits, with a digit before or after the point, and optionally
/// an exponent.
pub open spec fn is_decimal(s: Seq<char>, from: int) -> bool {
    let point = scan(s, from, Mark::NoDigit);
    let fraction = if point < s.len() && s[point] == '.' {
        point + 1
    } else {
        point
    };
    let end = scan(s, fraction, Mark::NoDigit);
    &&& (point - from) + (end - fraction) > 0
    &&& end < s.len() ==> (s[end] == 'e' || s[end] == 'E') && is_exponent(s, end + 1)
}

/// The text from `from` to its end is one of the words for what is not a
/// finite number.
pub open spec fn is_special(s: Seq<char>, from: int) -> bool {
    spells(s, from, "inf"@) || spells(s, from, "infinity"@) || spells(s, from, "nan"@)
}

/// The text is a number.
pub open spec fn is_numeral(s: Seq<char>) -> bool {
    let from: int = if 0 < s.len() && is_sign(s[0]) {
        1
    } else {
        0
    };
    is_special(s, from) || is_decimal(s, from)
}

/// A number holds neither white space nor a comma.
pub proof fn lemma_numeral_is_plain(s: Seq<char>)
    requires
        is_numeral(s),
    ensures
        forall|i: int| 0 <= i < s.len() ==> !is_space(#[trigger] s[i]) && s[i] != ',',
{
    let from: int = if 0 < s.len() && is_sign(s[0]) {
        1
    } else {
        0
    };
    reveal_strlit("inf");
    reveal_strlit("infinity");
    reveal_strlit("nan");
    assert forall|i: int| 0 <= i < s.len() implies !is_space(#[trigger] s[i]) && s[i] != ',' by {
        if i < from {
        } else if spells(s, from, "inf"@) {
            assert(is_letter(s[from + (i - from)], "inf"@[i - from]));
        } else if spells(s, from, "infinity"@) {
            assert(is_letter(s[from + (i - from)], "infinity"@[i - from]));
        } else if spells(s, from, "nan"@) {
            assert(is_letter(s[from + (i - from)], "nan"@[i - from]));
        } else {
            let point = scan(s, from, Mark::NoDigit);
            lemma_scan(s, from, Mark::NoDigit);
            let fraction = if point < s.len() && s[point] == '.' {
                point + 1
            } else {
                point
            };
            let end = scan(s, fraction, Mark::NoDigit);
            lemma_scan(s, fraction, Mark::NoDigit);
            if i < point {
                assert(is_digit(s[i]));
            } else if i < fraction {
            } else if i < end {
                assert(is_digit(s[i]));
            } else if i == end {
            } else {
                let digits = if end + 1 < s.len() && is_sign(s[end + 1]) {
                    end + 2
                } else {
                    end + 1
                };
                lemma_scan(s, digits, Mark::NoDigit);
                if i >= digits {
                    assert(is_digit(s[i]));
                }
            }
        }
    }
}

fn sign_at(chars: &Vec<char>, at: usize) -> (r: bool)
    ensures
        r == (at < chars@.len() && is_sign(chars@[at as int])),
{
    at < chars.len() && (chars[at] == '+' || chars[at] == '-')
}

fn letter_at(c: char, letter: char) -> (r: bool)
    ensures
        r == is_letter(c, letter),
{
    c == letter || c as u32 + 0x20 == letter as u32
}

fn spells_word(chars: &Vec<char>, from: usize, word: &str) -> (r: bool)
    requires
        from <= chars@.len(),
    ensures
        r == spells(chars@, from as int, word@),
{
    let letters = chars_of(word);
    let n = chars.len();
    if n - from != letters.len() {
        return false;
    }
    let mut i: usize = 0;
    while i < letters.len()
        invariant
            n == chars@.len(),
            from <= n,
            n - from == letters@.len(),
            letters@ == word@,
            i <= letters@.len(),
            forall|j: int| 0 <= j < i ==> is_letter(chars@[from + j], #[trigger] letters@[j]),
        decreases letters@.len() - i,
    {
        if !letter_at(chars[from + i], letters[i]) {
            return false;
        }
        i = i + 1;
    }
    true
}

fn exponent_from(chars: &Vec<char>, from: usize) -> (r: bool)
    requires
        from <= chars@.len(),
    ensures
        r == is_exponent(chars@, from as int),
{
    let n = chars.len();
    let digits = if sign_at(chars, from) {
        from + 1
    } else {
        from
    };
    digits < n && find(chars, digits, Mark::NoDigit) == n
}

fn decimal_from(chars: &Vec<char>, from: usize) -> (r: bool)
    requires
        from <= chars@.len(),
    ensures
        r == is_decimal(chars@, from as int),
{
    let point = find(chars, from, Mark::NoDigit);
    let fraction = if point < chars.len() && chars[point] == '.' {
        point + 1
    } else {
        point
    };
    let end = find(chars, fraction, Mark::NoDigit);
    if (point - from) + (end - fraction) == 0 {
        false
    } else if end < chars.len() {
        (chars[end] == 'e' || chars[end] == 'E') && exponent_from(chars, end + 1)
    } else {
        true
    }
}

/// Tells whether the chars are a number.
pub fn numeral(chars: &Vec<char>) -> (r: bool)
    ensures
        r == is_numeral(chars@),
{
    let from: usize = if sign_at(chars, 0) {
        1
    } else {
        0
    };
    spells_word(chars, from, "inf") || spells_word(chars, from, "infinity") || spells_word(
        chars,
        from,
        "nan",
    ) || decimal_from(chars, from)
}

/// Tells whether the text is a number.
pub fn is_number(text: &str) -> (r: bool)
    ensures
        r == is_numeral(text@),
{
    let chars = chars_of(text);
    numeral(&chars)
}

} // verus!
