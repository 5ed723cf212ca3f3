//! The rows of the table of attribute names, looked at one by one: what
//! their characters are, and why no name to replace ends as a replacement
//! does.

use vstd::prelude::*;
use crate::attributes::rename_table;
use crate::replacement::no_equals;

verus! {

/// A character that separates the words of a name to replace.
pub open spec fn is_separator(c: char) -> bool {
    c == '-' || c == ':'
}

/// A capital letter.
pub open spec fn is_capital(c: char) -> bool {
    'A' <= c <= 'Z'
}

/// A small letter.
pub open spec fn is_small(c: char) -> bool {
    'a' <= c <= 'z'
}

/// `s` ends in `ss`.
pub open spec fn ends_in_double_s(s: Seq<char>) -> bool {
    s.len() >= 2 && s[s.len() - 1] == 's' && s[s.len() - 2] == 's'
}

/// What holds of a row. The name to replace is made of small letters and
/// separators. Where the row changes the name, the name holds a separator
/// or, like `class`, ends in `ss`, and the replacement is made of letters,
/// holds a capital and does not end in `ss`.
pub open spec fn sound_row(row: (Seq<char>, Seq<char>)) -> bool {
    let from = row.0;
    let to = row.1;
    &&& forall|i: int| 0 <= i < from.len() ==> is_small(#[trigger] from[i]) || is_separator(from[i])
    &&& from == to || {
        &&& forall|i: int| 0 <= i < to.len() ==> is_small(#[trigger] to[i]) || is_capital(to[i])
        &&& exists|i: int| 0 <= i < to.len() && is_capital(#[trigger] to[i])
        &&& ends_in_double_s(from) || exists|i: int|
            0 <= i < from.len() && is_separator(#[trigger] from[i])
        &&& !ends_in_double_s(to)
    }
}

/// Every row of the table is sound.
pub proof fn lemma_row_is_sound(row: int)
    requires
        0 <= row < rename_table().len(),
    ensures
        sound_row(rename_table()[row]),
{
    let table = rename_table();
    if row == 0 {
        reveal_strlit("fill-rule");
        reveal_strlit("fillRule");
        assert(is_capital(table[0].1[4]));
        assert(is_separator(table[0].0[4]));
    } else if row == 1 {
        reveal_strlit("clip-rule");
        reveal_strlit("clipRule");
        assert(is_capital(table[1].1[4]));
        assert(is_separator(table[1].0[4]));
    } else if row == 2 {
        reveal_strlit("stroke-width");
        reveal_strlit("strokeWidth");
        assert(is_capital(table[2].1[6]));
        assert(is_separator(table[2].0[6]));
    } else if row == 3 {
        reveal_strlit("stroke-linecap");
        reveal_strlit("strokeLinecap");
        assert(is_capital(table[3].1[6]));
        assert(is_separator(table[3].0[6]));
    } else if row == 4 {
        reveal_strlit("stroke-linejoin");
        reveal_strlit("strokeLinejoin");
        assert(is_capital(table[4].1[6]));
        assert(is_separator(table[4].0[6]));
    } else if row == 5 {
        reveal_strlit("stroke-dasharray");
        reveal_strlit("strokeDasharray");
        assert(is_capital(table[5].1[6]));
        assert(is_separator(table[5].0[6]));
    } else if row == 6 {
        reveal_strlit("stroke-dashoffset");
        reveal_strlit("strokeDashoffset");
        assert(is_capital(table[6].1[6]));
        assert(is_separator(table[6].0[6]));
    } else if row == 7 {
        reveal_strlit("stroke-miterlimit");
        reveal_strlit("strokeMiterlimit");
        assert(is_capital(table[7].1[6]));
        assert(is_separator(table[7].0[6]));
    } else if row == 8 {
        reveal_strlit("stroke-opacity");
        reveal_strlit("strokeOpacity");
        assert(is_capital(table[8].1[6]));
        assert(is_separator(table[8].0[6]));
    } else if row == 9 {
        reveal_strlit("fill-opacity");
        reveal_strlit("fillOpacity");
        assert(is_capital(table[9].1[4]));
        assert(is_separator(table[9].0[4]));
    } else if row == 10 {
        reveal_strlit("stop-color");
        reveal_strlit("stopColor");
        assert(is_capital(table[10].1[4]));
        assert(is_separator(table[10].0[4]));
    } else if row == 11 {
        reveal_strlit("stop-opacity");
        reveal_strlit("stopOpacity");
        assert(is_capital(table[11].1[4]));
        assert(is_separator(table[11].0[4]));
    } else if row == 12 {
        reveal_strlit("marker-start");
        reveal_strlit("markerStart");
        assert(is_capital(table[12].1[6]));
        assert(is_separator(table[12].0[6]));
    } else if row == 13 {
        reveal_strlit("marker-mid");
        reveal_strlit("markerMid");
        assert(is_capital(table[13].1[6]));
        assert(is_separator(table[13].0[6]));
    } else if row == 14 {
        reveal_strlit("marker-end");
        reveal_strlit("markerEnd");
        assert(is_capital(table[14].1[6]));
        assert(is_separator(table[14].0[6]));
    } else if row == 15 {
        reveal_strlit("clip-path");
        reveal_strlit("clipPath");
        assert(is_capital(table[15].1[4]));
        assert(is_separator(table[15].0[4]));
    } else if row == 16 {
        reveal_strlit("color-interpolation");
        reveal_strlit("colorInterpolation");
        assert(is_capital(table[16].1[5]));
        assert(is_separator(table[16].0[5]));
    } else if row == 17 {
        reveal_strlit("color-interpolation-filters");
        reveal_strlit("colorInterpolationFilters");
        assert(is_capital(table[17].1[5]));
        assert(is_separator(table[17].0[5]));
    } else if row == 18 {
        reveal_strlit("flood-color");
        reveal_strlit("floodColor");
        assert(is_capital(table[18].1[5]));
        assert(is_separator(table[18].0[5]));
    } else if row == 19 {
        reveal_strlit("flood-opacity");
        reveal_strlit("floodOpacity");
        assert(is_capital(table[19].1[5]));
        assert(is_separator(table[19].0[5]));
    } else if row == 20 {
        reveal_strlit("lighting-color");
        reveal_strlit("lightingColor");
        assert(is_capital(table[20].1[8]));
        assert(is_separator(table[20].0[8]));
    } else if row == 21 {
        reveal_strlit("mask-type");
        reveal_strlit("maskType");
        assert(is_capital(table[21].1[4]));
        assert(is_separator(table[21].0[4]));
    } else if row == 22 {
        reveal_strlit("text-anchor");
        reveal_strlit("textAnchor");
        assert(is_capital(table[22].1[4]));
        assert(is_separator(table[22].0[4]));
    } else if row == 23 {
        reveal_strlit("text-decoration");
        reveal_strlit("textDecoration");
        assert(is_capital(table[23].1[4]));
        assert(is_separator(table[23].0[4]));
    } else if row == 24 {
        reveal_strlit("text-rendering");
        reveal_strlit("textRendering");
        assert(is_capital(table[24].1[4]));
        assert(is_separator(table[24].0[4]));
    } else if row == 25 {
        reveal_strlit("vector-effect");
        reveal_strlit("vectorEffect");
        assert(is_capital(table[25].1[6]));
        assert(is_separator(table[25].0[6]));
    } else if row == 26 {
        reveal_strlit("writing-mode");
        reveal_strlit("writingMode");
        assert(is_capital(table[26].1[7]));
        assert(is_separator(table[26].0[7]));
    } else if row == 27 {
        reveal_strlit("font-family");
        reveal_strlit("fontFamily");
        assert(is_capital(table[27].1[4]));
        assert(is_separator(table[27].0[4]));
    } else if row == 28 {
        reveal_strlit("font-size");
        reveal_strlit("fontSize");
        assert(is_capital(table[28].1[4]));
        assert(is_separator(table[28].0[4]));
    } else if row == 29 {
        reveal_strlit("font-weight");
        reveal_strlit("fontWeight");
        assert(is_capital(table[29].1[4]));
        assert(is_separator(table[29].0[4]));
    } else if row == 30 {
        reveal_strlit("font-style");
        reveal_strlit("fontStyle");
        assert(is_capital(table[30].1[4]));
        assert(is_separator(table[30].0[4]));
    } else if row == 31 {
        reveal_strlit("font-variant");
        reveal_strlit("fontVariant");
        assert(is_capital(table[31].1[4]));
        assert(is_separator(table[31].0[4]));
    } else if row == 32 {
        reveal_strlit("font-stretch");
        reveal_strlit("fontStretch");
        assert(is_capital(table[32].1[4]));
        assert(is_separator(table[32].0[4]));
    } else if row == 33 {
        reveal_strlit("dominant-baseline");
        reveal_strlit("dominantBaseline");
        assert(is_capital(table[33].1[8]));
        assert(is_separator(table[33].0[8]));
    } else if row == 34 {
        reveal_strlit("alignment-baseline");
        reveal_strlit("alignmentBaseline");
        assert(is_capital(table[34].1[9]));
        assert(is_separator(table[34].0[9]));
    } else if row == 35 {
        reveal_strlit("baseline-shift");
        reveal_strlit("baselineShift");
        assert(is_capital(table[35].1[8]));
        assert(is_separator(table[35].0[8]));
    } else if row == 36 {
        reveal_strlit("shape-rendering");
        reveal_strlit("shapeRendering");
        assert(is_capital(table[36].1[5]));
        assert(is_separator(table[36].0[5]));
    } else if row == 37 {
        reveal_strlit("color-profile");
        reveal_strlit("colorProfile");
        assert(is_capital(table[37].1[5]));
        assert(is_separator(table[37].0[5]));
    } else if row == 38 {
        reveal_strlit("enable-background");
        reveal_strlit("enableBackground");
        assert(is_capital(table[38].1[6]));
        assert(is_separator(table[38].0[6]));
    } else if row == 39 {
        reveal_strlit("glyph-orientation-horizontal");
        reveal_strlit("glyphOrientationHorizontal");
        assert(is_capital(table[39].1[5]));
        assert(is_separator(table[39].0[5]));
    } else if row == 40 {
        reveal_strlit("glyph-orientation-vertical");
        reveal_strlit("glyphOrientationVertical");
        assert(is_capital(table[40].1[5]));
        assert(is_separator(table[40].0[5]));
    } else if row == 41 {
        reveal_strlit("kerning");
    } else if row == 42 {
        reveal_strlit("letter-spacing");
        reveal_strlit("letterSpacing");
        assert(is_capital(table[42].1[6]));
        assert(is_separator(table[42].0[6]));
    } else if row == 43 {
        reveal_strlit("word-spacing");
        reveal_strlit("wordSpacing");
        assert(is_capital(table[43].1[4]));
        assert(is_separator(table[43].0[4]));
    } else if row == 44 {
        reveal_strlit("xml:lang");
        reveal_strlit("xmlLang");
        assert(is_capital(table[44].1[3]));
        assert(is_separator(table[44].0[3]));
    } else if row == 45 {
        reveal_strlit("xml:space");
        reveal_strlit("xmlSpace");
        assert(is_capital(table[45].1[3]));
        assert(is_separator(table[45].0[3]));
    } else if row == 46 {
        reveal_strlit("xmlns:xlink");
        reveal_strlit("xmlnsXlink");
        assert(is_capital(table[46].1[5]));
        assert(is_separator(table[46].0[5]));
    } else if row == 47 {
        reveal_strlit("xlink:href");
        reveal_strlit("xlinkHref");
        assert(is_capital(table[47].1[5]));
        assert(is_separator(table[47].0[5]));
    } else if row == 48 {
        reveal_strlit("xlink:show");
        reveal_strlit("xlinkShow");
        assert(is_capital(table[48].1[5]));
        assert(is_separator(table[48].0[5]));
    } else if row == 49 {
        reveal_strlit("xlink:actuate");
        reveal_strlit("xlinkActuate");
        assert(is_capital(table[49].1[5]));
        assert(is_separator(table[49].0[5]));
    } else if row == 50 {
        reveal_strlit("xlink:type");
        reveal_strlit("xlinkType");
        assert(is_capital(table[50].1[5]));
        assert(is_separator(table[50].0[5]));
    } else if row == 51 {
        reveal_strlit("xlink:role");
        reveal_strlit("xlinkRole");
        assert(is_capital(table[51].1[5]));
        assert(is_separator(table[51].0[5]));
    } else if row == 52 {
        reveal_strlit("xlink:title");
        reveal_strlit("xlinkTitle");
        assert(is_capital(table[52].1[5]));
        assert(is_separator(table[52].0[5]));
    } else if row == 53 {
        reveal_strlit("class");
        reveal_strlit("className");
        assert(is_capital(table[53].1[5]));
    }
}

/// A name to replace holds neither an equals sign nor a space.
pub proof fn lemma_old_name_is_plain(row: (Seq<char>, Seq<char>))
    requires
        sound_row(row),
    ensures
        no_equals(row.0),
        forall|i: int| 0 <= i < row.0.len() ==> row.0[i] != ' ',
{
    let from = row.0;
    assert forall|i: int| 0 <= i < from.len() implies from[i] != '=' && from[i] != ' ' by {
        assert(is_small(from[i]) || is_separator(from[i]));
    }
}

/// A name to replace and a replacement, of the same row or of two, do not
/// end alike: neither stands at the end of the other. Neither holds an
/// equals sign.
pub proof fn lemma_rows_end_apart(a: (Seq<char>, Seq<char>), b: (Seq<char>, Seq<char>))
    requires
        sound_row(a),
        sound_row(b),
        a.0 != a.1,
        b.0 != b.1,
    ensures
        !a.0.is_suffix_of(b.1),
        !b.1.is_suffix_of(a.0),
        no_equals(a.0),
        no_equals(b.1),
{
    let from = a.0;
    let to = b.1;
    assert forall|i: int| 0 <= i < from.len() implies from[i] != '=' by {
        assert(is_small(from[i]) || is_separator(from[i]));
    }
    assert forall|i: int| 0 <= i < to.len() implies to[i] != '=' by {
        assert(is_small(to[i]) || is_capital(to[i]));
    }
    if to.is_suffix_of(from) {
        let capital = choose|i: int| 0 <= i < to.len() && is_capital(#[trigger] to[i]);
        let shift = from.len() - to.len();
        assert(from.subrange(shift, from.len() as int)[capital] == from[shift + capital]);
        assert(is_small(from[shift + capital]) || is_separator(from[shift + capital]));
    }
    if from.is_suffix_of(to) {
        let shift = to.len() - from.len();
        let tail = to.subrange(shift, to.len() as int);
        if ends_in_double_s(from) {
            assert(tail[from.len() - 1] == to[to.len() - 1]);
            assert(tail[from.len() - 2] == to[to.len() - 2]);
        } else {
            let separator = choose|i: int| 0 <= i < from.len() && is_separator(#[trigger] from[i]);
            assert(tail[separator] == to[shift + separator]);
            assert(is_small(to[shift + separator]) || is_capital(to[shift + separator]));
        }
    }
}

/// The character of `s` that stands `back` places before its last.
pub open spec fn from_end(s: Seq<char>, back: int) -> char {
    s[s.len() - 1 - back]
}

/// Read from their ends, `a` and `b` agree in `same` characters, and then
/// `a` holds the smaller one.
pub open spec fn ends_before_at(a: Seq<char>, b: Seq<char>, same: int) -> bool {
    &&& 0 <= same < a.len()
    &&& same < b.len()
    &&& forall|back: int| 0 <= back < same ==> #[trigger] from_end(a, back) == from_end(b, back)
    &&& from_end(a, same) < from_end(b, same)
}

/// Read from their ends, `a` comes before `b` as words do in a dictionary,
/// and neither is the end of the other.
pub open spec fn ends_before(a: Seq<char>, b: Seq<char>) -> bool {
    exists|same: int| ends_before_at(a, b, same)
}

/// The rows of the table in the order of their names to replace, read from
/// the names' ends.
pub open spec fn rows_by_ending() -> Seq<int> {
    seq![
        13, 14, 38, 45, 26, 37, 51, 52, 0, 1, 30, 33,
        34, 21, 50, 49, 28, 47, 44, 43, 42, 41, 36, 24,
        32, 15, 2, 46, 40, 39, 4, 16, 23, 3, 22, 18,
        20, 10, 17, 53, 25, 6, 35, 29, 7, 31, 12, 48,
        5, 27, 19, 8, 9, 11,
    ]
}

/// The place of each row of the table in `rows_by_ending`.
pub open spec fn places_by_ending() -> Seq<int> {
    seq![
        8, 9, 26, 33, 30, 48, 41, 44, 51, 52, 37, 53,
        46, 0, 1, 25, 31, 38, 35, 50, 36, 13, 34, 32,
        23, 40, 4, 49, 16, 43, 10, 45, 24, 11, 12, 42,
        22, 5, 2, 29, 28, 21, 20, 19, 18, 3, 27, 17,
        47, 15, 14, 6, 7, 39,
    ]
}

/// The name to replace of the row at `place` in `rows_by_ending`.
pub open spec fn name_by_ending(place: int) -> Seq<char> {
    rename_table()[rows_by_ending()[place]].0
}

/// What ends before a name ends before every name that this one ends before.
proof fn lemma_ends_before_is_transitive(a: Seq<char>, b: Seq<char>, c: Seq<char>)
    requires
        ends_before(a, b),
        ends_before(b, c),
    ensures
        ends_before(a, c),
{
    let first = choose|same: int| ends_before_at(a, b, same);
    let second = choose|same: int| ends_before_at(b, c, same);
    let same = if first <= second {
        first
    } else {
        second
    };
    assert forall|back: int| 0 <= back < same implies #[trigger] from_end(a, back) == from_end(
        c,
        back,
    ) by {
        assert(from_end(a, back) == from_end(b, back));
        assert(from_end(b, back) == from_end(c, back));
    }
    if first < second {
        assert(from_end(b, first) == from_end(c, first));
    }
    if second < first {
        assert(from_end(a, second) == from_end(b, second));
    }
    assert(ends_before_at(a, c, same));
}

/// Of two names of which one ends before the other, neither is the end of
/// the other.
proof fn lemma_ends_before_is_apart(a: Seq<char>, b: Seq<char>)
    requires
        ends_before(a, b),
    ensures
        !a.is_suffix_of(b),
        !b.is_suffix_of(a),
{
    let same = choose|same: int| ends_before_at(a, b, same);
    if a.is_suffix_of(b) {
        assert(b.subrange(b.len() - a.len(), b.len() as int)[a.len() - 1 - same] == from_end(
            b,
            same,
        ));
    }
    if b.is_suffix_of(a) {
        assert(a.subrange(a.len() - b.len(), a.len() as int)[b.len() - 1 - same] == from_end(
            a,
            same,
        ));
    }
}

/// In `rows_by_ending`, each name ends before the next.
proof fn lemma_neighbours_in_order(place: int)
    requires
        0 <= place < rows_by_ending().len() - 1,
    ensures
        ends_before(name_by_ending(place), name_by_ending(place + 1)),
{
    let table = rename_table();
    if place == 0 {
        reveal_strlit("marker-mid");
        reveal_strlit("marker-end");
        assert(ends_before_at(table[13].0, table[14].0, 1));
    } else if place == 1 {
        reveal_strlit("marker-end");
        reveal_strlit("enable-background");
        assert(ends_before_at(table[14].0, table[38].0, 2));
    } else if place == 2 {
        reveal_strlit("enable-background");
        reveal_strlit("xml:space");
        assert(ends_before_at(table[38].0, table[45].0, 0));
    } else if place == 3 {
        reveal_strlit("xml:space");
        reveal_strlit("writing-mode");
        assert(ends_before_at(table[45].0, table[26].0, 1));
    } else if place == 4 {
        reveal_strlit("writing-mode");
        reveal_strlit("color-profile");
        assert(ends_before_at(table[26].0, table[37].0, 1));
    } else if place == 5 {
        reveal_strlit("color-profile");
        reveal_strlit("xlink:role");
        assert(ends_before_at(table[37].0, table[51].0, 2));
    } else if place == 6 {
        reveal_strlit("xlink:role");
        reveal_strlit("xlink:title");
        assert(ends_before_at(table[51].0, table[52].0, 2));
    } else if place == 7 {
        reveal_strlit("xlink:title");
        reveal_strlit("fill-rule");
        assert(ends_before_at(table[52].0, table[0].0, 2));
    } else if place == 8 {
        reveal_strlit("fill-rule");
        reveal_strlit("clip-rule");
        assert(ends_before_at(table[0].0, table[1].0, 5));
    } else if place == 9 {
        reveal_strlit("clip-rule");
        reveal_strlit("font-style");
        assert(ends_before_at(table[1].0, table[30].0, 2));
    } else if place == 10 {
        reveal_strlit("font-style");
        reveal_strlit("dominant-baseline");
        assert(ends_before_at(table[30].0, table[33].0, 1));
    } else if place == 11 {
        reveal_strlit("dominant-baseline");
        reveal_strlit("alignment-baseline");
        assert(ends_before_at(table[33].0, table[34].0, 11));
    } else if place == 12 {
        reveal_strlit("alignment-baseline");
        reveal_strlit("mask-type");
        assert(ends_before_at(table[34].0, table[21].0, 1));
    } else if place == 13 {
        reveal_strlit("mask-type");
        reveal_strlit("xlink:type");
        assert(ends_before_at(table[21].0, table[50].0, 4));
    } else if place == 14 {
        reveal_strlit("xlink:type");
        reveal_strlit("xlink:actuate");
        assert(ends_before_at(table[50].0, table[49].0, 1));
    } else if place == 15 {
        reveal_strlit("xlink:actuate");
        reveal_strlit("font-size");
        assert(ends_before_at(table[49].0, table[28].0, 1));
    } else if place == 16 {
        reveal_strlit("font-size");
        reveal_strlit("xlink:href");
        assert(ends_before_at(table[28].0, table[47].0, 0));
    } else if place == 17 {
        reveal_strlit("xlink:href");
        reveal_strlit("xml:lang");
        assert(ends_before_at(table[47].0, table[44].0, 0));
    } else if place == 18 {
        reveal_strlit("xml:lang");
        reveal_strlit("word-spacing");
        assert(ends_before_at(table[44].0, table[43].0, 2));
    } else if place == 19 {
        reveal_strlit("word-spacing");
        reveal_strlit("letter-spacing");
        assert(ends_before_at(table[43].0, table[42].0, 8));
    } else if place == 20 {
        reveal_strlit("letter-spacing");
        reveal_strlit("kerning");
        assert(ends_before_at(table[42].0, table[41].0, 3));
    } else if place == 21 {
        reveal_strlit("kerning");
        reveal_strlit("shape-rendering");
        assert(ends_before_at(table[41].0, table[36].0, 3));
    } else if place == 22 {
        reveal_strlit("shape-rendering");
        reveal_strlit("text-rendering");
        assert(ends_before_at(table[36].0, table[24].0, 10));
    } else if place == 23 {
        reveal_strlit("text-rendering");
        reveal_strlit("font-stretch");
        assert(ends_before_at(table[24].0, table[32].0, 0));
    } else if place == 24 {
        reveal_strlit("font-stretch");
        reveal_strlit("clip-path");
        assert(ends_before_at(table[32].0, table[15].0, 1));
    } else if place == 25 {
        reveal_strlit("clip-path");
        reveal_strlit("stroke-width");
        assert(ends_before_at(table[15].0, table[2].0, 2));
    } else if place == 26 {
        reveal_strlit("stroke-width");
        reveal_strlit("xmlns:xlink");
        assert(ends_before_at(table[2].0, table[46].0, 0));
    } else if place == 27 {
        reveal_strlit("xmlns:xlink");
        reveal_strlit("glyph-orientation-vertical");
        assert(ends_before_at(table[46].0, table[40].0, 0));
    } else if place == 28 {
        reveal_strlit("glyph-orientation-vertical");
        reveal_strlit("glyph-orientation-horizontal");
        assert(ends_before_at(table[40].0, table[39].0, 2));
    } else if place == 29 {
        reveal_strlit("glyph-orientation-horizontal");
        reveal_strlit("stroke-linejoin");
        assert(ends_before_at(table[39].0, table[4].0, 0));
    } else if place == 30 {
        reveal_strlit("stroke-linejoin");
        reveal_strlit("color-interpolation");
        assert(ends_before_at(table[4].0, table[16].0, 1));
    } else if place == 31 {
        reveal_strlit("color-interpolation");
        reveal_strlit("text-decoration");
        assert(ends_before_at(table[16].0, table[23].0, 5));
    } else if place == 32 {
        reveal_strlit("text-decoration");
        reveal_strlit("stroke-linecap");
        assert(ends_before_at(table[23].0, table[3].0, 0));
    } else if place == 33 {
        reveal_strlit("stroke-linecap");
        reveal_strlit("text-anchor");
        assert(ends_before_at(table[3].0, table[22].0, 0));
    } else if place == 34 {
        reveal_strlit("text-anchor");
        reveal_strlit("flood-color");
        assert(ends_before_at(table[22].0, table[18].0, 2));
    } else if place == 35 {
        reveal_strlit("flood-color");
        reveal_strlit("lighting-color");
        assert(ends_before_at(table[18].0, table[20].0, 6));
    } else if place == 36 {
        reveal_strlit("lighting-color");
        reveal_strlit("stop-color");
        assert(ends_before_at(table[20].0, table[10].0, 6));
    } else if place == 37 {
        reveal_strlit("stop-color");
        reveal_strlit("color-interpolation-filters");
        assert(ends_before_at(table[10].0, table[17].0, 0));
    } else if place == 38 {
        reveal_strlit("color-interpolation-filters");
        reveal_strlit("class");
        assert(ends_before_at(table[17].0, table[53].0, 1));
    } else if place == 39 {
        reveal_strlit("class");
        reveal_strlit("vector-effect");
        assert(ends_before_at(table[53].0, table[25].0, 0));
    } else if place == 40 {
        reveal_strlit("vector-effect");
        reveal_strlit("stroke-dashoffset");
        assert(ends_before_at(table[25].0, table[6].0, 1));
    } else if place == 41 {
        reveal_strlit("stroke-dashoffset");
        reveal_strlit("baseline-shift");
        assert(ends_before_at(table[6].0, table[35].0, 1));
    } else if place == 42 {
        reveal_strlit("baseline-shift");
        reveal_strlit("font-weight");
        assert(ends_before_at(table[35].0, table[29].0, 1));
    } else if place == 43 {
        reveal_strlit("font-weight");
        reveal_strlit("stroke-miterlimit");
        assert(ends_before_at(table[29].0, table[7].0, 1));
    } else if place == 44 {
        reveal_strlit("stroke-miterlimit");
        reveal_strlit("font-variant");
        assert(ends_before_at(table[7].0, table[31].0, 1));
    } else if place == 45 {
        reveal_strlit("font-variant");
        reveal_strlit("marker-start");
        assert(ends_before_at(table[31].0, table[12].0, 1));
    } else if place == 46 {
        reveal_strlit("marker-start");
        reveal_strlit("xlink:show");
        assert(ends_before_at(table[12].0, table[48].0, 0));
    } else if place == 47 {
        reveal_strlit("xlink:show");
        reveal_strlit("stroke-dasharray");
        assert(ends_before_at(table[48].0, table[5].0, 0));
    } else if place == 48 {
        reveal_strlit("stroke-dasharray");
        reveal_strlit("font-family");
        assert(ends_before_at(table[5].0, table[27].0, 1));
    } else if place == 49 {
        reveal_strlit("font-family");
        reveal_strlit("flood-opacity");
        assert(ends_before_at(table[27].0, table[19].0, 1));
    } else if place == 50 {
        reveal_strlit("flood-opacity");
        reveal_strlit("stroke-opacity");
        assert(ends_before_at(table[19].0, table[8].0, 8));
    } else if place == 51 {
        reveal_strlit("stroke-opacity");
        reveal_strlit("fill-opacity");
        assert(ends_before_at(table[8].0, table[9].0, 8));
    } else if place == 52 {
        reveal_strlit("fill-opacity");
        reveal_strlit("stop-opacity");
        assert(ends_before_at(table[9].0, table[11].0, 8));
    }
}

/// In `rows_by_ending`, each name ends before all that follow it.
proof fn lemma_rows_in_order(earlier: int, later: int)
    requires
        0 <= earlier < later < rows_by_ending().len(),
    ensures
        ends_before(name_by_ending(earlier), name_by_ending(later)),
    decreases later - earlier,
{
    if earlier + 1 == later {
        lemma_neighbours_in_order(earlier);
    } else {
        lemma_rows_in_order(earlier, later - 1);
        lemma_neighbours_in_order(later - 1);
        lemma_ends_before_is_transitive(
            name_by_ending(earlier),
            name_by_ending(later - 1),
            name_by_ending(later),
        );
    }
}

/// No name to replace is the end of another: where one name stands before
/// an equals sign, no other does.
pub proof fn lemma_no_name_ends_another(row: int, other: int)
    requires
        0 <= row < rename_table().len(),
        0 <= other < rename_table().len(),
        row != other,
    ensures
        !rename_table()[row].0.is_suffix_of(rename_table()[other].0),
{
    let place = places_by_ending()[row];
    let other_place = places_by_ending()[other];
    assert(0 <= place < rows_by_ending().len() && rows_by_ending()[place] == row);
    assert(0 <= other_place < rows_by_ending().len() && rows_by_ending()[other_place] == other);
    if place < other_place {
        lemma_rows_in_order(place, other_place);
        lemma_ends_before_is_apart(name_by_ending(place), name_by_ending(other_place));
    } else {
        lemma_rows_in_order(other_place, place);
        lemma_ends_before_is_apart(name_by_ending(other_place), name_by_ending(place));
    }
}

} // verus!
