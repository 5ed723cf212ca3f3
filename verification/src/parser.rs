//! The checks on what the command line and the content sources hand in: a
//! destination, a size, and whether a text holds an SVG element.

use vstd::prelude::*;
use crate::text::{find_char, find_from, lemma_run_until, occurs_at, run_until, to_chars};

verus! {

/// One of the digits `0` to `9`.
pub open spec fn is_digit(c: char) -> bool {
    '0' <= c <= '9'
}

/// The number that the decimal digits `digits` write.
pub open spec fn digits_value(digits: Seq<char>) -> nat
    decreases digits.len(),
{
    if digits.len() == 0 {
        0
    } else {
        digits_value(digits.drop_last()) * 10 + (digits.last() as nat - '0' as nat) as nat
    }
}

/// The digits of a number as it is written: what follows an optional `+`.
pub open spec fn unsigned_part(s: Seq<char>) -> Seq<char> {
    if s.len() > 0 && s[0] == '+' {
        s.skip(1)
    } else {
        s
    }
}

/// The number that `s` writes: an optional `+` and one decimal digit or
/// more, and nothing else. `None` if `s` is written otherwise.
pub open spec fn number(s: Seq<char>) -> Option<nat> {
    let digits = unsigned_part(s);
    if digits.len() > 0 && forall|i: int| 0 <= i < digits.len() ==> is_digit(#[trigger] digits[i]) {
        Some(digits_value(digits))
    } else {
        None
    }
}

/// The message for a size of 0.
pub open spec fn zero_size_message() -> Seq<char> {
    "The size of the icon cannot be 0"@
}

/// The message for a size that is no number, or none that 32 bits hold.
pub open spec fn invalid_size_message() -> Seq<char> {
    "Please enter a valid number greater than 0 for the size"@
}

/// `s[start..end]` is an SVG element as far as this library looks: `<svg`,
/// any characters but `>`, a `>`, any characters, and `</svg>`.
pub open spec fn is_svg_span(s: Seq<char>, start: int, end: int) -> bool {
    let close = start + "<svg"@.len() + run_until(s.skip(start + "<svg"@.len()), '>');
    &&& occurs_at(s, "<svg"@, start)
    &&& close + 1 <= end - "</svg>"@.len()
    &&& occurs_at(s, "</svg>"@, end - "</svg>"@.len())
}

/// `s` holds an SVG element.
pub open spec fn has_svg(s: Seq<char>) -> bool {
    exists|start: int, end: int| is_svg_span(s, start, end)
}

/// `s[start..end]` is the first SVG element of `s`: none starts further
/// left, and none that starts there ends earlier.
pub open spec fn is_first_svg_span(s: Seq<char>, start: int, end: int) -> bool {
    &&& is_svg_span(s, start, end)
    &&& forall|other_start: int, other_end: int| #[trigger]
        is_svg_span(s, other_start, other_end) ==> start < other_start || (start == other_start
            && end <= other_end)
}

/// A larger number of digits writes no smaller number.
proof fn lemma_digits_value_grows(digits: Seq<char>, shorter: int)
    requires
        0 <= shorter <= digits.len(),
    ensures
        digits_value(digits.take(shorter)) <= digits_value(digits),
    decreases digits.len(),
{
    if shorter < digits.len() {
        assert(digits.drop_last().take(shorter) == digits.take(shorter));
        lemma_digits_value_grows(digits.drop_last(), shorter);
    } else {
        assert(digits.take(shorter) == digits);
    }
}

/// The bounds of the first SVG element of `text`.
pub(crate) fn first_svg_bounds(text: &Vec<char>) -> (bounds: Option<(usize, usize)>)
    ensures
        match bounds {
            Some((start, end)) => start <= end <= text.len() && is_first_svg_span(
                text@,
                start as int,
                end as int,
            ),
            None => !has_svg(text@),
        },
{
    let opening = to_chars("<svg");
    let closing = to_chars("</svg>");
    let start = match find_from(text, 0, &opening) {
        Some(start) => start,
        None => {
            return None;
        },
    };
    assert(start + opening.len() <= text.len());
    let close = find_char(text, start + opening.len(), '>');
    proof {
        lemma_run_until(text@.skip(start + opening.len()), '>');
        assert forall|k: int| start + opening.len() <= k < close implies text@[k] != '>' by {
            assert(text@.skip(start + opening.len())[k - start - opening.len()] == text@[k]);
        }
        assert forall|other_start: int, other_end: int| #[trigger]
            is_svg_span(text@, other_start, other_end) implies start <= other_start && close + 1
            <= other_end - closing.len() by {
            let from = other_start + opening.len();
            let other_close = from + run_until(text@.skip(from), '>');
            lemma_run_until(text@.skip(from), '>');
            if other_close < close {
                assert(text@.skip(from)[other_close - from] == text@[other_close]);
            }
        }
    }
    if close == text.len() {
        return None;
    }
    match find_from(text, close + 1, &closing) {
        Some(at) => Some((start, at + closing.len())),
        None => None,
    }
}

/// Whether `s` holds an SVG element.
pub fn svg_validator(s: &str) -> (found: bool)
    ensures
        found == has_svg(s@),
{
    let text = to_chars(s);
    match first_svg_bounds(&text) {
        Some((start, end)) => {
            assert(is_svg_span(text@, start as int, end as int));
            true
        },
        None => false,
    }
}

/// Whether `content` holds an SVG element.
pub fn validate_svg(content: String) -> (found: bool)
    ensures
        found == has_svg(content@),
{
    svg_validator(content.as_str())
}

/// Accepts every destination: a directory's name is a path as it stands.
pub fn directory_parser(s: &str) -> (outcome: Result<String, String>)
    ensures
        outcome matches Ok(destination) && destination@ == s@,
{
    Ok(s.to_owned())
}

/// Reads the icon's size: a number from 1 to 4294967295, written in decimal
/// digits with an optional `+` before them.
pub fn size_parser(s: &str) -> (outcome: Result<u32, String>)
    ensures
        match number(s@) {
            Some(n) => if n == 0 {
                outcome matches Err(message) && message@ == zero_size_message()
            } else if n <= u32::MAX {
                outcome == Ok::<u32, String>(n as u32)
            } else {
                outcome matches Err(message) && message@ == invalid_size_message()
            },
            None => outcome matches Err(message) && message@ == invalid_size_message(),
        },
{
    let text = to_chars(s);
    let first: usize = if text.len() > 0 && text[0] == '+' {
        1
    } else {
        0
    };
    let ghost digits = unsigned_part(text@);
    assert(digits == text@.skip(first as int));
    if first == text.len() {
        return Err("Please enter a valid number greater than 0 for the size".to_owned());
    }
    let mut value: u32 = 0;
    let mut i: usize = first;
    assert(digits.take(0) == Seq::<char>::empty());
    while i < text.len()
        invariant
            first <= i <= text.len(),
            text@ == s@,
            digits == unsigned_part(s@),
            digits == text@.skip(first as int),
            forall|k: int| 0 <= k < i - first ==> is_digit(#[trigger] digits[k]),
            value == digits_value(digits.take(i - first)),
        decreases text.len() - i,
    {
        let c = text[i];
        assert(digits[i - first] == c);
        if !('0' <= c && c <= '9') {
            assert(!is_digit(digits[i - first]));
            return Err("Please enter a valid number greater than 0 for the size".to_owned());
        }
        let digit: u32 = (c as u32) - ('0' as u32);
        proof {
            let upto = digits.take(i - first + 1);
            assert(upto.drop_last() == digits.take(i - first));
            assert(upto.last() == c);
            lemma_digits_value_grows(digits, i - first + 1);
        }
        if value > (u32::MAX - digit) / 10 {
            assert(digits_value(digits.take(i - first + 1)) == value * 10 + digit);
            assert(digits_value(digits) > u32::MAX);
            return Err("Please enter a valid number greater than 0 for the size".to_owned());
        }
        value = value * 10 + digit;
        i += 1;
    }
    assert(digits.take(digits.len() as int) == digits);
    if value > 0 {
        Ok(value)
    } else {
        Err("The size of the icon cannot be 0".to_owned())
    }
}

} // verus!
