//! Sizes, colours and properties: the passes that bind the markup to what the
//! component is given.

use vstd::prelude::*;
use crate::component::SvgToReact;
use crate::text::{
    contains, contains_in, find_char, lemma_occurs_in_tail, lemma_run_until, matches_at,
    occurs_at, push_range, push_str, run_until, to_chars, to_text, trim, trim_bounds,
};

verus! {

/// What the regex crate answers for a pattern and a text: whether the
/// pattern matches somewhere in the text, or `None` where the pattern is no
/// regular expression.
pub uninterp spec fn regex_match(pattern: Seq<char>, haystack: Seq<char>) -> Option<bool>;

/// `Regex::new` compiles the pattern, and `Regex::is_match` says whether it
/// matches somewhere in the text.
#[verifier::external_body]
fn regex_is_match(pattern: &str, haystack: &str) -> (found: Option<bool>)
    ensures
        found == regex_match(pattern@, haystack@),
{
    match regex::Regex::new(pattern) {
        Ok(regex) => Some(regex.is_match(haystack)),
        Err(_) => None,
    }
}

/// A decimal digit of any script. In ASCII these are `0` to `9`; beyond, the
/// characters of the class `\d` of regular expressions, which is Unicode's
/// category `Nd`.
pub open spec fn is_digit(c: char) -> bool {
    if c <= '\u{7f}' {
        '0' <= c <= '9'
    } else {
        regex_match("^\\d$"@, seq![c]) == Some(true)
    }
}

/// A hexadecimal digit, in either case.
pub open spec fn is_hex(c: char) -> bool {
    ('0' <= c <= '9') || ('a' <= c <= 'f') || ('A' <= c <= 'F')
}

/// The number of decimal digits at the start of `s`.
pub open spec fn digit_run(s: Seq<char>) -> nat
    decreases s.len(),
{
    if s.len() > 0 && is_digit(s[0]) {
        1 + digit_run(s.skip(1))
    } else {
        0
    }
}

/// The length of what `s` starts with, if that is `head`, one decimal digit
/// or more, and a double quote; `None` if `s` starts otherwise.
pub open spec fn quoted_digits_len(s: Seq<char>, head: Seq<char>) -> Option<nat> {
    let digits = digit_run(s.skip(head.len() as int));
    if occurs_at(s, head, 0) && digits > 0 && head.len() + digits < s.len() && s[(head.len()
        + digits) as int] == '"' {
        Some(head.len() + digits + 1)
    } else {
        None
    }
}

/// The length of the attribute `name="<digits>"` that `s` starts with, with
/// at least one digit between the quotes; `None` if `s` starts with none.
pub open spec fn dimension_len(s: Seq<char>, name: Seq<char>) -> Option<nat> {
    quoted_digits_len(s, name + "=\""@)
}

/// `s` with the first attribute `name="<digits>"` replaced by `name={size}`.
pub open spec fn sized(s: Seq<char>, name: Seq<char>) -> Seq<char>
    decreases s.len(),
{
    if s.len() == 0 {
        s
    } else {
        match dimension_len(s, name) {
            Some(len) => name + "={size}"@ + s.skip(len as int),
            None => seq![s[0]] + sized(s.skip(1), name),
        }
    }
}

/// `s` with its first numeric width and its first numeric height bound to
/// the component's size.
pub open spec fn dimensions_replaced(s: Seq<char>) -> Seq<char> {
    sized(sized(s, "width"@), "height"@)
}

/// The length of the attribute `name="#<digits>"` with exactly `digits`
/// hexadecimal digits.
pub open spec fn color_len(name: Seq<char>, digits: nat) -> nat {
    (name + "=\"#"@).len() + digits + 1
}

/// `s` starts with `head`, exactly `digits` hexadecimal digits and a double
/// quote.
pub open spec fn starts_with_quoted_hex(s: Seq<char>, head: Seq<char>, digits: nat) -> bool {
    &&& occurs_at(s, head, 0)
    &&& head.len() + digits < s.len()
    &&& forall|i: int| head.len() <= i < head.len() + digits ==> is_hex(#[trigger] s[i])
    &&& s[(head.len() + digits) as int] == '"'
}

/// `s` starts with the attribute `name="#<digits>"`, with exactly `digits`
/// hexadecimal digits between `#` and the closing quote.
pub open spec fn starts_with_color(s: Seq<char>, name: Seq<char>, digits: nat) -> bool {
    starts_with_quoted_hex(s, name + "=\"#"@, digits)
}

/// The attribute names white, which stays as it is: its text holds `white`,
/// `#fff` or `#FFF`.
pub open spec fn is_white(attribute: Seq<char>) -> bool {
    contains(attribute, "white"@) || contains(attribute, "#fff"@) || contains(attribute, "#FFF"@)
}

/// `s` with every attribute `name="#<digits>"` of exactly `digits`
/// hexadecimal digits replaced by `name={color}`, unless it names white.
pub open spec fn recolored(s: Seq<char>, name: Seq<char>, digits: nat) -> Seq<char>
    decreases s.len(),
{
    if s.len() == 0 {
        s
    } else if starts_with_color(s, name, digits) {
        let attribute = s.take(color_len(name, digits) as int);
        let rest = recolored(s.skip(color_len(name, digits) as int), name, digits);
        if is_white(attribute) {
            attribute + rest
        } else {
            name + "={color}"@ + rest
        }
    } else {
        seq![s[0]] + recolored(s.skip(1), name, digits)
    }
}

/// `s` with its hexadecimal fill and stroke colours bound to the component's
/// colour: fills of six digits, fills of three, strokes of six, strokes of
/// three, one pass after the other.
pub open spec fn colors_replaced(s: Seq<char>) -> Seq<char> {
    recolored(recolored(recolored(recolored(s, "fill"@, 6), "fill"@, 3), "stroke"@, 6), "stroke"@, 3)
}

/// `s` with the marker that forwards the remaining properties put before its
/// first `>`, and without the white space at either end.
pub open spec fn props_spread(s: Seq<char>) -> Seq<char> {
    let at = run_until(s, '>') as int;
    if at < s.len() {
        trim(s.take(at) + " {...props}>"@ + s.skip(at + 1))
    } else {
        trim(s)
    }
}

/// Only the first attribute `name="<digits>"` changes: what stands before it
/// and all that follows it, later attributes of the kind too, stay as they
/// are.
pub proof fn lemma_only_first_dimension_changes(s: Seq<char>, name: Seq<char>, at: int, len: nat)
    requires
        0 <= at < s.len(),
        dimension_len(s.skip(at), name) == Some(len),
        forall|earlier: int| 0 <= earlier < at ==> dimension_len(s.skip(earlier), name) is None,
    ensures
        sized(s, name) == s.take(at) + (name + "={size}"@) + s.skip(at + len),
    decreases at,
{
    let bound = name + "={size}"@;
    let tail = s.skip(at + len);
    assert(s.skip(0) == s);
    if at == 0 {
        assert(s.take(0) + bound == bound);
    } else {
        let rest = s.skip(1);
        assert(dimension_len(s, name) is None);
        assert(sized(s, name) == seq![s[0]] + sized(rest, name));
        assert(rest.skip(at - 1) == s.skip(at));
        assert forall|earlier: int| 0 <= earlier < at - 1 implies dimension_len(
            rest.skip(earlier),
            name,
        ) is None by {
            assert(rest.skip(earlier) == s.skip(earlier + 1));
        }
        lemma_only_first_dimension_changes(rest, name, at - 1, len);
        assert(rest.skip(at - 1 + len) == tail);
        assert(seq![s[0]] + rest.take(at - 1) == s.take(at));
        assert(seq![s[0]] + (rest.take(at - 1) + bound + tail) == (seq![s[0]] + rest.take(at - 1))
            + bound + tail);
    }
}

/// Which colours count as white. A fill or stroke of hexadecimal digits
/// names white exactly where its first three digits are `fff` or `FFF`: the
/// word `white` cannot stand in such an attribute.
pub proof fn lemma_white_starts_with_fff(name: Seq<char>, digits: Seq<char>)
    requires
        name == "fill"@ || name == "stroke"@,
        digits.len() >= 3,
        forall|i: int| 0 <= i < digits.len() ==> is_hex(#[trigger] digits[i]),
    ensures
        is_white(name + "=\"#"@ + digits + "\""@) == (digits.take(3) == "fff"@ || digits.take(3)
            == "FFF"@),
{
    reveal_strlit("fill");
    reveal_strlit("stroke");
    reveal_strlit("=\"#");
    reveal_strlit("\"");
    reveal_strlit("white");
    reveal_strlit("#fff");
    reveal_strlit("#FFF");
    reveal_strlit("fff");
    reveal_strlit("FFF");
    let attribute = name + "=\"#"@ + digits + "\""@;
    let hash = (name.len() + 2) as int;
    let first = hash + 1;
    assert forall|i: int| 0 <= i < attribute.len() && i != hash implies attribute[i] != '#'
        && attribute[i] != 'w' by {
        if first <= i < first + digits.len() {
            assert(attribute[i] == digits[i - first]);
        }
    }
    assert(attribute[hash] == '#');
    assert forall|at: int| !occurs_at(attribute, "white"@, at) by {
        if occurs_at(attribute, "white"@, at) {
            assert(attribute.subrange(at, at + 5)[0] == 'w');
        }
    }
    assert forall|at: int, mark: Seq<char>|
        (mark == "#fff"@ || mark == "#FFF"@) && occurs_at(attribute, mark, at) implies at == hash
        && digits.take(3) == mark.skip(1) by {
        let window = attribute.subrange(at, at + 4);
        assert(window[0] == '#');
        assert forall|i: int| 0 <= i < 3 implies digits.take(3)[i] == mark.skip(1)[i] by {
            assert(window[i + 1] == attribute[first + i]);
            assert(attribute[first + i] == digits[i]);
        }
    }
    assert("#fff"@.skip(1) == "fff"@);
    assert("#FFF"@.skip(1) == "FFF"@);
    if digits.take(3) == "fff"@ || digits.take(3) == "FFF"@ {
        let mark = if digits.take(3) == "fff"@ {
            "#fff"@
        } else {
            "#FFF"@
        };
        assert(attribute.subrange(hash, hash + 4) == mark) by {
            assert forall|i: int| 0 <= i < 4 implies attribute[hash + i] == mark[i] by {
                if i > 0 {
                    assert(attribute[hash + i] == digits[i - 1]);
                    assert(digits.take(3)[i - 1] == digits[i - 1]);
                }
            }
        }
        assert(occurs_at(attribute, mark, hash));
    }
}

/// Where the text starts with a tag that holds no `>` before the one that
/// closes it, the marker stands at the end of this tag, and the rest of the
/// text is not touched but for the white space at its end.
pub proof fn lemma_props_stand_in_first_tag(tag: Seq<char>, rest: Seq<char>)
    requires
        forall|i: int| 0 <= i < tag.len() ==> tag[i] != '>',
    ensures
        props_spread(tag + ">"@ + rest) == trim(tag + " {...props}>"@ + rest),
{
    reveal_strlit(">");
    let s = tag + ">"@ + rest;
    let at = run_until(s, '>') as int;
    lemma_run_until(s, '>');
    assert(s[tag.len() as int] == '>');
    if at < tag.len() {
        assert(s[at] == tag[at]);
    }
    assert(at == tag.len());
    assert(s.take(at) == tag);
    assert(s.skip(at + 1) == rest);
}

/// Whether `c` is a decimal digit of any script.
fn decimal_digit(c: char) -> (digit: bool)
    ensures
        digit == is_digit(c),
{
    if c <= '\u{7f}' {
        '0' <= c && c <= '9'
    } else {
        let mut text = String::new();
        text.push(c);
        match regex_is_match("^\\d$", text.as_str()) {
            Some(found) => found,
            None => false,
        }
    }
}

/// Whether `c` is a hexadecimal digit.
fn hex_digit(c: char) -> (hex: bool)
    ensures
        hex == is_hex(c),
{
    ('0' <= c && c <= '9') || ('a' <= c && c <= 'f') || ('A' <= c && c <= 'F')
}

/// Where the quoted digits that start at `text[at]` end: after `head`, one
/// decimal digit or more, and a double quote.
fn quoted_digits_end(text: &Vec<char>, at: usize, head: &Vec<char>) -> (end: Option<usize>)
    requires
        at <= text.len(),
    ensures
        match end {
            Some(end) => at < end <= text.len() && quoted_digits_len(
                text@.skip(at as int),
                head@,
            ) == Some((end - at) as nat),
            None => quoted_digits_len(text@.skip(at as int), head@) is None,
        },
{
    let ghost rest = text@.skip(at as int);
    proof {
        lemma_occurs_in_tail(text@, head@, at as int, 0);
    }
    if !matches_at(text, at, head) {
        return None;
    }
    let first: usize = at + head.len();
    let mut end: usize = first;
    assert(rest.skip(head.len() as int) == text@.skip(first as int));
    while end < text.len() && decimal_digit(text[end])
        invariant
            first <= end <= text.len(),
            first + digit_run(text@.skip(first as int)) == end + digit_run(text@.skip(end as int)),
        decreases text.len() - end,
    {
        assert(text@.skip(end as int).skip(1) == text@.skip(end + 1));
        end += 1;
    }
    if end > first && end < text.len() && text[end] == '"' {
        Some(end + 1)
    } else {
        None
    }
}

/// Replaces the first run of quoted digits after `name="` by `{size}`.
fn bind_size(text: &Vec<char>, name: &str) -> (out: Vec<char>)
    ensures
        out@ == sized(text@, name@),
{
    let mut head = to_chars(name);
    push_str(&mut head, "=\"");
    let mut out: Vec<char> = Vec::new();
    let mut i: usize = 0;
    assert(text@.skip(0) == text@);
    while i < text.len()
        invariant
            0 <= i <= text.len(),
            head@ == name@ + "=\""@,
            out@ + sized(text@.skip(i as int), name@) == sized(text@, name@),
        decreases text.len() - i,
    {
        let ghost rest = text@.skip(i as int);
        let ghost done = out@;
        match quoted_digits_end(text, i, &head) {
            Some(end) => {
                push_str(&mut out, name);
                push_str(&mut out, "={size}");
                push_range(&mut out, text, end, text.len());
                proof {
                    assert(rest.skip(end - i) == text@.subrange(end as int, text.len() as int));
                    assert(out@ == done + (name@ + "={size}"@ + rest.skip(end - i)));
                }
                return out;
            },
            None => {
                out.push(text[i]);
                i += 1;
                proof {
                    let tail = sized(text@.skip(i as int), name@);
                    assert(rest.skip(1) == text@.skip(i as int));
                    assert(done.push(rest[0]) + tail == done + (seq![rest[0]] + tail));
                }
            },
        }
    }
    out
}

/// Whether `text[at..]` starts with `head`, exactly `digits` hexadecimal
/// digits and a double quote.
fn quoted_hex_at(text: &Vec<char>, at: usize, head: &Vec<char>, digits: usize) -> (found: bool)
    requires
        at <= text.len(),
    ensures
        found == starts_with_quoted_hex(text@.skip(at as int), head@, digits as nat),
        found ==> at + head.len() + digits < text.len(),
{
    let ghost rest = text@.skip(at as int);
    proof {
        lemma_occurs_in_tail(text@, head@, at as int, 0);
    }
    if !matches_at(text, at, head) {
        return false;
    }
    let first: usize = at + head.len();
    if text.len() - first <= digits {
        return false;
    }
    let mut k: usize = 0;
    while k < digits
        invariant
            0 <= k <= digits,
            first == at + head.len(),
            first + digits < text.len(),
            rest == text@.skip(at as int),
            forall|i: int| head.len() <= i < head.len() + k ==> is_hex(#[trigger] rest[i]),
        decreases digits - k,
    {
        if !hex_digit(text[first + k]) {
            assert(!is_hex(rest[head.len() + k]));
            return false;
        }
        k += 1;
    }
    text[first + digits] == '"'
}

/// Replaces each colour of `digits` hexadecimal digits after `name="#`.
fn recolor(text: &Vec<char>, name: &str, digits: usize) -> (out: Vec<char>)
    ensures
        out@ == recolored(text@, name@, digits as nat),
{
    let mut head = to_chars(name);
    push_str(&mut head, "=\"#");
    let white = to_chars("white");
    let short_lower = to_chars("#fff");
    let short_upper = to_chars("#FFF");
    let mut out: Vec<char> = Vec::new();
    let mut i: usize = 0;
    assert(text@.skip(0) == text@);
    while i < text.len()
        invariant
            0 <= i <= text.len(),
            head@ == name@ + "=\"#"@,
            white@ == "white"@,
            short_lower@ == "#fff"@,
            short_upper@ == "#FFF"@,
            out@ + recolored(text@.skip(i as int), name@, digits as nat) == recolored(
                text@,
                name@,
                digits as nat,
            ),
        decreases text.len() - i,
    {
        let ghost rest = text@.skip(i as int);
        let ghost done = out@;
        if quoted_hex_at(text, i, &head, digits) {
            let end: usize = i + head.len() + digits + 1;
            let ghost attribute = rest.take(end - i);
            assert(attribute == text@.subrange(i as int, end as int));
            let keep = contains_in(text, i, end, &white) || contains_in(
                text,
                i,
                end,
                &short_lower,
            ) || contains_in(text, i, end, &short_upper);
            if keep {
                push_range(&mut out, text, i, end);
            } else {
                push_str(&mut out, name);
                push_str(&mut out, "={color}");
            }
            proof {
                let tail = recolored(text@.skip(end as int), name@, digits as nat);
                assert(rest.skip(end - i) == text@.skip(end as int));
                if keep {
                    assert((done + attribute) + tail == done + (attribute + tail));
                } else {
                    assert((done + name@ + "={color}"@) + tail == done + (name@ + "={color}"@
                        + tail));
                }
            }
            i = end;
        } else {
            out.push(text[i]);
            i += 1;
            proof {
                let tail = recolored(text@.skip(i as int), name@, digits as nat);
                assert(rest.skip(1) == text@.skip(i as int));
                assert(done.push(rest[0]) + tail == done + (seq![rest[0]] + tail));
            }
        }
    }
    out
}

impl SvgToReact {
    /// Binds the first numeric width and the first numeric height of `svg`
    /// to the component's size.
    pub fn replace_dimensions(&self, svg: &str) -> (out: String)
        ensures
            out@ == dimensions_replaced(svg@),
    {
        let text = to_chars(svg);
        let text = bind_size(&text, "width");
        let text = bind_size(&text, "height");
        to_text(&text, 0, text.len())
    }

    /// Binds the hexadecimal fill and stroke colours of `svg` to the
    /// component's colour. White stays as it is.
    pub fn replace_colors(&self, svg: &str) -> (out: String)
        ensures
            out@ == colors_replaced(svg@),
    {
        let text = to_chars(svg);
        let text = recolor(&text, "fill", 6);
        let text = recolor(&text, "fill", 3);
        let text = recolor(&text, "stroke", 6);
        let text = recolor(&text, "stroke", 3);
        to_text(&text, 0, text.len())
    }

    /// Puts the marker that forwards the remaining properties before the
    /// first `>` of `svg`, which is taken to close the root element's opening
    /// tag, and removes the white space at either end.
    pub fn spread_props(&self, svg: &str) -> (out: String)
        ensures
            out@ == props_spread(svg@),
    {
        let text = to_chars(svg);
        assert(text@.skip(0) == text@);
        let at = find_char(&text, 0, '>');
        if at < text.len() {
            let mut spread: Vec<char> = Vec::new();
            push_range(&mut spread, &text, 0, at);
            push_str(&mut spread, " {...props}>");
            push_range(&mut spread, &text, at + 1, text.len());
            assert(text@.subrange(0, at as int) == text@.take(at as int));
            assert(text@.subrange(at + 1, text.len() as int) == text@.skip(at + 1));
            let (lo, hi) = trim_bounds(&spread);
            to_text(&spread, lo, hi)
        } else {
            let (lo, hi) = trim_bounds(&text);
            to_text(&text, lo, hi)
        }
    }
}

} // verus!
