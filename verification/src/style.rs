//! Inline styles: the value of a `style` attribute becomes an object literal
//! with camel-cased keys.

use vstd::prelude::*;
use crate::component::SvgToReact;
use crate::text::{
    find_char, lemma_occurs_in_tail, matches_at, occurs_at, push_range, push_str, run_until,
    split, split_at_each, to_chars, to_text, trim, trim_bounds, views,
};

verus! {

/// What `char::to_uppercase` yields for a character: its uppercase mapping
/// in Unicode, which may be more than one character, or the character itself
/// where it has none.
pub uninterp spec fn uppercase(c: char) -> Seq<char>;

/// `char::to_uppercase` yields the characters of the uppercase mapping.
#[verifier::external_body]
fn to_uppercase(c: char) -> (upper: Vec<char>)
    ensures
        upper@ == uppercase(c),
{
    c.to_uppercase().collect()
}

/// A character in upper case. The small letters `a` to `z` become `A` to
/// `Z`, the other characters of ASCII stay as they are, and beyond ASCII
/// Unicode's uppercase mapping decides.
pub open spec fn upper(c: char) -> Seq<char> {
    if 'a' <= c <= 'z' {
        seq![((c as u8) - 32) as u8 as char]
    } else if c <= '\u{7f}' {
        seq![c]
    } else {
        uppercase(c)
    }
}

/// `word` with its first character in upper case.
pub open spec fn capitalized(word: Seq<char>) -> Seq<char> {
    if word.len() == 0 {
        word
    } else {
        upper(word[0]) + word.skip(1)
    }
}

/// The words written one after the other, each but the first capitalized.
pub open spec fn camel_joined(words: Seq<Seq<char>>) -> Seq<char>
    decreases words.len(),
{
    if words.len() == 0 {
        Seq::<char>::empty()
    } else if words.len() == 1 {
        words[0]
    } else {
        camel_joined(words.drop_last()) + capitalized(words.last())
    }
}

/// A hyphenated key in camel case: `fill-opacity` becomes `fillOpacity`.
pub open spec fn camel_case(key: Seq<char>) -> Seq<char> {
    camel_joined(split(key, '-'))
}

/// What one segment of a style contributes: if it holds exactly one colon,
/// the key in camel case, a colon and a space, and the value in single
/// quotes, key and value without the white space around them; otherwise
/// nothing.
pub open spec fn declaration(segment: Seq<char>) -> Option<Seq<char>> {
    let parts = split(segment, ':');
    if parts.len() == 2 {
        Some(camel_case(trim(parts[0])) + ": '"@ + trim(parts[1]) + "'"@)
    } else {
        None
    }
}

/// The declarations of the segments that contribute one, in order.
pub open spec fn declarations(segments: Seq<Seq<char>>) -> Seq<Seq<char>>
    decreases segments.len(),
{
    if segments.len() == 0 {
        Seq::<Seq<char>>::empty()
    } else {
        let before = declarations(segments.drop_last());
        match declaration(segments.last()) {
            Some(entry) => before.push(entry),
            None => before,
        }
    }
}

/// The items written one after the other with `sep` between them.
pub open spec fn joined(items: Seq<Seq<char>>, sep: Seq<char>) -> Seq<char>
    decreases items.len(),
{
    if items.len() == 0 {
        Seq::<char>::empty()
    } else if items.len() == 1 {
        items[0]
    } else {
        joined(items.drop_last(), sep) + sep + items.last()
    }
}

/// The body of the object literal for the style `style`: the declarations of
/// its segments between semicolons, joined by commas.
pub open spec fn style_object(style: Seq<char>) -> Seq<char> {
    joined(declarations(split(style, ';')), ","@)
}

/// The length of the attribute `style="..."` that `s` starts with, up to and
/// with the next double quote; `None` if `s` starts with none.
pub open spec fn style_len(s: Seq<char>) -> Option<nat> {
    let head = "style=\""@;
    let value = run_until(s.skip(head.len() as int), '"');
    if occurs_at(s, head, 0) && head.len() + value < s.len() {
        Some(head.len() + value + 1)
    } else {
        None
    }
}

/// `s` with every attribute `style="..."` replaced by `style={{ ... }}`
/// around the object literal of its value.
pub open spec fn styles_converted(s: Seq<char>) -> Seq<char>
    decreases s.len(),
{
    if s.len() == 0 {
        s
    } else {
        match style_len(s) {
            Some(len) => {
                let value = s.subrange("style=\""@.len() as int, len - 1);
                "style={{ "@ + style_object(value) + " }}"@ + styles_converted(s.skip(len as int))
            },
            None => seq![s[0]] + styles_converted(s.skip(1)),
        }
    }
}

/// A segment after a semicolon is a piece of its own.
proof fn lemma_split_last_segment(style: Seq<char>, segment: Seq<char>)
    requires
        forall|i: int| 0 <= i < segment.len() ==> segment[i] != ';',
    ensures
        split(style.push(';') + segment, ';') == split(style, ';').push(segment),
    decreases segment.len(),
{
    let whole = style.push(';') + segment;
    let pieces = split(style, ';');
    if segment.len() == 0 {
        assert(segment == Seq::<char>::empty());
        assert(whole == style.push(';'));
        assert(whole.drop_last() == style);
    } else {
        let shorter = segment.drop_last();
        assert(whole.drop_last() == style.push(';') + shorter);
        assert(whole.last() == segment[segment.len() - 1]);
        lemma_split_last_segment(style, shorter);
        assert(shorter.push(segment.last()) == segment);
        assert(pieces.push(shorter).last() == shorter);
        assert(pieces.push(shorter).update(pieces.len() as int, segment) == pieces.push(segment));
    }
}

/// A last segment that does not hold exactly one colon contributes nothing
/// to the object literal.
pub proof fn lemma_malformed_segment_contributes_nothing(style: Seq<char>, segment: Seq<char>)
    requires
        forall|i: int| 0 <= i < segment.len() ==> segment[i] != ';',
        split(segment, ':').len() != 2,
    ensures
        style_object(style.push(';') + segment) == style_object(style),
{
    lemma_split_last_segment(style, segment);
    assert(split(style, ';').push(segment).drop_last() == split(style, ';'));
}

/// Appends `c` in upper case to `out`.
fn push_upper(out: &mut Vec<char>, c: char)
    ensures
        final(out)@ == old(out)@ + upper(c),
{
    if 'a' <= c && c <= 'z' {
        out.push(((c as u8) - 32) as char);
        assert(out@ == old(out)@ + seq![((c as u8) - 32) as u8 as char]);
    } else if c <= '\u{7f}' {
        out.push(c);
        assert(out@ == old(out)@ + seq![c]);
    } else {
        let mapped = to_uppercase(c);
        push_range(out, &mapped, 0, mapped.len());
        assert(mapped@.subrange(0, mapped.len() as int) == mapped@);
    }
}

/// The camel case of `key`.
fn camel_chars(key: &Vec<char>) -> (out: Vec<char>)
    ensures
        out@ == camel_case(key@),
{
    let words = split_at_each(key, '-');
    let ghost all = views(words@);
    let mut out: Vec<char> = Vec::new();
    let mut i: usize = 0;
    assert(all.take(0) == Seq::<Seq<char>>::empty());
    while i < words.len()
        invariant
            0 <= i <= words.len(),
            all == views(words@),
            out@ == camel_joined(all.take(i as int)),
        decreases words.len() - i,
    {
        let word = &words[i];
        proof {
            let upto = all.take(i + 1);
            assert(upto.drop_last() == all.take(i as int));
            assert(upto.last() == word@);
            assert(word@.subrange(0, word.len() as int) == word@);
        }
        if i == 0 || word.len() == 0 {
            push_range(&mut out, word, 0, word.len());
        } else {
            push_upper(&mut out, word[0]);
            push_range(&mut out, word, 1, word.len());
            proof {
                assert(word@.subrange(1, word.len() as int) == word@.skip(1));
            }
        }
        i += 1;
    }
    assert(all.take(words.len() as int) == all);
    out
}

/// The body of the object literal for `style`.
fn style_chars(style: &Vec<char>) -> (out: Vec<char>)
    ensures
        out@ == style_object(style@),
{
    let segments = split_at_each(style, ';');
    let ghost all = views(segments@);
    let mut out: Vec<char> = Vec::new();
    let mut count: usize = 0;
    let mut i: usize = 0;
    assert(all.take(0) == Seq::<Seq<char>>::empty());
    while i < segments.len()
        invariant
            0 <= i <= segments.len(),
            all == views(segments@),
            count <= i,
            count == declarations(all.take(i as int)).len(),
            out@ == joined(declarations(all.take(i as int)), ","@),
        decreases segments.len() - i,
    {
        let ghost before = declarations(all.take(i as int));
        proof {
            let upto = all.take(i + 1);
            assert(upto.drop_last() == all.take(i as int));
            assert(upto.last() == segments[i as int]@);
        }
        let parts = split_at_each(&segments[i], ':');
        if parts.len() == 2 {
            let mut entry: Vec<char> = Vec::new();
            let (lo, hi) = trim_bounds(&parts[0]);
            let mut key: Vec<char> = Vec::new();
            push_range(&mut key, &parts[0], lo, hi);
            let key = camel_chars(&key);
            push_range(&mut entry, &key, 0, key.len());
            push_str(&mut entry, ": '");
            let (lo, hi) = trim_bounds(&parts[1]);
            push_range(&mut entry, &parts[1], lo, hi);
            push_str(&mut entry, "'");
            if count > 0 {
                push_str(&mut out, ",");
            }
            push_range(&mut out, &entry, 0, entry.len());
            count += 1;
            proof {
                assert(key@.subrange(0, key.len() as int) == key@);
                assert(entry@.subrange(0, entry.len() as int) == entry@);
                assert(views(parts@)[0] == parts[0]@);
                assert(views(parts@)[1] == parts[1]@);
                assert(declaration(segments[i as int]@) == Some(entry@));
                assert(before.push(entry@).drop_last() == before);
            }
        }
        i += 1;
    }
    assert(all.take(segments.len() as int) == all);
    out
}

impl SvgToReact {
    /// Writes a hyphenated key in camel case.
    pub fn css_key_to_camel_case(&self, key: &str) -> (out: String)
        ensures
            out@ == camel_case(key@),
    {
        let out = camel_chars(&to_chars(key));
        to_text(&out, 0, out.len())
    }

    /// Writes the body of the object literal for the style `style_string`.
    pub fn parse_style_to_object(&self, style_string: &str) -> (out: String)
        ensures
            out@ == style_object(style_string@),
    {
        let out = style_chars(&to_chars(style_string));
        to_text(&out, 0, out.len())
    }

    /// Replaces every attribute `style="..."` of `svg` by the object literal
    /// of its value, between double braces.
    pub fn convert_inline_styles(&self, svg: &str) -> (out: String)
        ensures
            out@ == styles_converted(svg@),
    {
        let text = to_chars(svg);
        let head = to_chars("style=\"");
        let mut out: Vec<char> = Vec::new();
        let mut i: usize = 0;
        assert(text@.skip(0) == text@);
        while i < text.len()
            invariant
                0 <= i <= text.len(),
                head@ == "style=\""@,
                out@ + styles_converted(text@.skip(i as int)) == styles_converted(text@),
            decreases text.len() - i,
        {
            let ghost rest = text@.skip(i as int);
            let ghost done = out@;
            proof {
                lemma_occurs_in_tail(text@, head@, i as int, 0);
            }
            let mut end: usize = text.len();
            if matches_at(&text, i, &head) {
                assert(rest.skip(head.len() as int) == text@.skip(i + head.len()));
                end = find_char(&text, i + head.len(), '"');
            }
            if end < text.len() {
                let mut value: Vec<char> = Vec::new();
                push_range(&mut value, &text, i + head.len(), end);
                let object = style_chars(&value);
                push_str(&mut out, "style={{ ");
                push_range(&mut out, &object, 0, object.len());
                push_str(&mut out, " }}");
                proof {
                    let tail = styles_converted(text@.skip(end + 1));
                    let fresh = "style={{ "@ + style_object(value@) + " }}"@;
                    assert(object@.subrange(0, object.len() as int) == object@);
                    assert(rest.subrange(head.len() as int, end - i) == value@);
                    assert(rest.skip(end + 1 - i) == text@.skip(end + 1));
                    assert(out@ == done + fresh);
                    assert((done + fresh) + tail == done + (fresh + tail));
                }
                i = end + 1;
            } else {
                out.push(text[i]);
                i += 1;
                proof {
                    let tail = styles_converted(text@.skip(i as int));
                    assert(rest.skip(1) == text@.skip(i as int));
                    assert(done.push(rest[0]) + tail == done + (seq![rest[0]] + tail));
                }
            }
        }
        to_text(&out, 0, out.len())
    }
}

} // verus!
