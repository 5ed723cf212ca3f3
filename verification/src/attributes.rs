//! Attribute names: the hyphenated and namespaced names of SVG, and the
//! camel-cased names that a component takes in their place.

use vstd::prelude::*;
use crate::component::SvgToReact;
use crate::replacement::{
    free_of, key, lemma_key_before_only_equals, lemma_no_new_key, lemma_nothing_to_replace,
    lemma_replaced_before_only_equals, lemma_replaced_by_itself, lemma_suffix_stops_at,
    no_equals,
};
use crate::rows::{
    lemma_no_name_ends_another, lemma_old_name_is_plain, lemma_row_is_sound, lemma_rows_end_apart,
};
use crate::text::{contains, occurs_at, replace_all, replaced, to_chars, to_text};

verus! {

/// The names to replace, each with its replacement, in the order in which
/// the replacements are made.
pub open spec fn rename_table() -> Seq<(Seq<char>, Seq<char>)> {
    seq![
        ("fill-rule"@, "fillRule"@),
        ("clip-rule"@, "clipRule"@),
        ("stroke-width"@, "strokeWidth"@),
        ("stroke-linecap"@, "strokeLinecap"@),
        ("stroke-linejoin"@, "strokeLinejoin"@),
        ("stroke-dasharray"@, "strokeDasharray"@),
        ("stroke-dashoffset"@, "strokeDashoffset"@),
        ("stroke-miterlimit"@, "strokeMiterlimit"@),
        ("stroke-opacity"@, "strokeOpacity"@),
        ("fill-opacity"@, "fillOpacity"@),
        ("stop-color"@, "stopColor"@),
        ("stop-opacity"@, "stopOpacity"@),
        ("marker-start"@, "markerStart"@),
        ("marker-mid"@, "markerMid"@),
        ("marker-end"@, "markerEnd"@),
        ("clip-path"@, "clipPath"@),
        ("color-interpolation"@, "colorInterpolation"@),
        ("color-interpolation-filters"@, "colorInterpolationFilters"@),
        ("flood-color"@, "floodColor"@),
        ("flood-opacity"@, "floodOpacity"@),
        ("lighting-color"@, "lightingColor"@),
        ("mask-type"@, "maskType"@),
        ("text-anchor"@, "textAnchor"@),
        ("text-decoration"@, "textDecoration"@),
        ("text-rendering"@, "textRendering"@),
        ("vector-effect"@, "vectorEffect"@),
        ("writing-mode"@, "writingMode"@),
        ("font-family"@, "fontFamily"@),
        ("font-size"@, "fontSize"@),
        ("font-weight"@, "fontWeight"@),
        ("font-style"@, "fontStyle"@),
        ("font-variant"@, "fontVariant"@),
        ("font-stretch"@, "fontStretch"@),
        ("dominant-baseline"@, "dominantBaseline"@),
        ("alignment-baseline"@, "alignmentBaseline"@),
        ("baseline-shift"@, "baselineShift"@),
        ("shape-rendering"@, "shapeRendering"@),
        ("color-profile"@, "colorProfile"@),
        ("enable-background"@, "enableBackground"@),
        ("glyph-orientation-horizontal"@, "glyphOrientationHorizontal"@),
        ("glyph-orientation-vertical"@, "glyphOrientationVertical"@),
        ("kerning"@, "kerning"@),
        ("letter-spacing"@, "letterSpacing"@),
        ("word-spacing"@, "wordSpacing"@),
        ("xml:lang"@, "xmlLang"@),
        ("xml:space"@, "xmlSpace"@),
        ("xmlns:xlink"@, "xmlnsXlink"@),
        ("xlink:href"@, "xlinkHref"@),
        ("xlink:show"@, "xlinkShow"@),
        ("xlink:actuate"@, "xlinkActuate"@),
        ("xlink:type"@, "xlinkType"@),
        ("xlink:role"@, "xlinkRole"@),
        ("xlink:title"@, "xlinkTitle"@),
        ("class"@, "className"@),
    ]
}

/// `s` after the replacements of `table`, made one after the other: each row
/// replaces every occurrence of its first name, followed by `=`, by its
/// second name, followed by `=`.
pub open spec fn renamed_by(s: Seq<char>, table: Seq<(Seq<char>, Seq<char>)>) -> Seq<char>
    decreases table.len(),
{
    if table.len() == 0 {
        s
    } else {
        let row = table.last();
        replaced(renamed_by(s, table.drop_last()), key(row.0), key(row.1))
    }
}

/// `s` with the attribute names of `rename_table` replaced.
pub open spec fn renamed(s: Seq<char>) -> Seq<char> {
    renamed_by(s, rename_table())
}

/// The rows of a table of string slices, as character sequences.
pub open spec fn rows_of(table: Seq<(&'static str, &'static str)>) -> Seq<(Seq<char>, Seq<char>)> {
    Seq::new(table.len(), |i: int| (table[i].0@, table[i].1@))
}

/// In `t` no name stands before an equals sign that one of the first `upto`
/// rows of the table replaces by another.
pub open spec fn old_names_gone(t: Seq<char>, upto: int) -> bool {
    forall|row: int|
        0 <= row < upto && rename_table()[row].0 != rename_table()[row].1 ==> free_of(
            t,
            key(#[trigger] rename_table()[row].0),
        )
}

/// After the first `upto` rows, none of their old names is left.
proof fn lemma_rows_leave_no_old_name(s: Seq<char>, upto: int)
    requires
        0 <= upto <= rename_table().len(),
    ensures
        old_names_gone(renamed_by(s, rename_table().take(upto)), upto),
    decreases upto,
{
    if upto > 0 {
        let table = rename_table();
        let last = table[upto - 1];
        let before = renamed_by(s, table.take(upto - 1));
        let after = renamed_by(s, table.take(upto));
        assert(table.take(upto).drop_last() == table.take(upto - 1));
        assert(table.take(upto).last() == last);
        assert(after == replaced(before, key(last.0), key(last.1)));
        lemma_rows_leave_no_old_name(s, upto - 1);
        assert forall|row: int| 0 <= row < upto && table[row].0 != table[row].1 implies free_of(
            after,
            key(#[trigger] table[row].0),
        ) by {
            lemma_row_is_sound(row);
            lemma_row_is_sound(upto - 1);
            if last.0 == last.1 {
                lemma_replaced_by_itself(before, key(last.0));
            } else {
                lemma_rows_end_apart(table[row], last);
                lemma_no_new_key(before, last.0, last.1, table[row].0);
            }
        }
    }
}

/// The first `upto` rows change nothing in a text that holds none of the
/// table's old names.
proof fn lemma_rows_keep_renamed_text(t: Seq<char>, upto: int)
    requires
        0 <= upto <= rename_table().len(),
        old_names_gone(t, rename_table().len() as int),
    ensures
        renamed_by(t, rename_table().take(upto)) == t,
    decreases upto,
{
    if upto > 0 {
        let table = rename_table();
        let last = table[upto - 1];
        assert(table.take(upto).drop_last() == table.take(upto - 1));
        assert(table.take(upto).last() == last);
        lemma_rows_keep_renamed_text(t, upto - 1);
        if last.0 == last.1 {
            lemma_replaced_by_itself(t, key(last.0));
        } else {
            lemma_nothing_to_replace(t, key(last.0), key(last.1));
        }
    }
}

/// What the first `upto` rows make of a text whose one equals sign follows
/// the old name of `row`, after a space: up to `row` nothing, from then on
/// the new name in place of the old one.
proof fn lemma_rows_rename_one(before: Seq<char>, row: int, after: Seq<char>, upto: int)
    requires
        before.len() > 0,
        before.last() == ' ',
        no_equals(before),
        no_equals(after),
        0 <= row < rename_table().len(),
        0 <= upto <= rename_table().len(),
    ensures
        renamed_by(before + key(rename_table()[row].0) + after, rename_table().take(upto))
            == before + key(
            if upto <= row {
                rename_table()[row].0
            } else {
                rename_table()[row].1
            },
        ) + after,
    decreases upto,
{
    if upto > 0 {
        let table = rename_table();
        let last = table[upto - 1];
        let name = if upto - 1 <= row {
            table[row].0
        } else {
            table[row].1
        };
        let text = before + key(name) + after;
        assert(table.take(upto).drop_last() == table.take(upto - 1));
        assert(table.take(upto).last() == last);
        lemma_rows_rename_one(before, row, after, upto - 1);
        lemma_row_is_sound(row);
        lemma_row_is_sound(upto - 1);
        lemma_old_name_is_plain(table[row]);
        lemma_old_name_is_plain(last);
        if table[row].0 != table[row].1 {
            lemma_rows_end_apart(table[row], table[row]);
        }
        if upto - 1 == row {
            lemma_replaced_before_only_equals(before, last.0, last.1, after);
        } else if last.0 == last.1 {
            lemma_replaced_by_itself(text, key(last.0));
        } else {
            assert forall|at: int| !occurs_at(text, key(last.0), at) by {
                if occurs_at(text, key(last.0), at) {
                    lemma_key_before_only_equals(before, name, after, last.0, at);
                    lemma_suffix_stops_at(before, name, last.0);
                    if name == table[row].0 {
                        lemma_no_name_ends_another(upto - 1, row);
                    } else {
                        lemma_rows_end_apart(last, table[row]);
                    }
                }
            }
            lemma_nothing_to_replace(text, key(last.0), key(last.1));
        }
    }
}

/// In a tag with one attribute, whose name the table holds, renaming puts
/// the new name in place of the old one and changes nothing else, whatever
/// the tag is called and whatever the attribute's value is.
pub proof fn lemma_attribute_is_renamed(tag: Seq<char>, row: int, value: Seq<char>)
    requires
        0 <= row < rename_table().len(),
        no_equals(tag),
        no_equals(value),
    ensures
        renamed("<"@ + tag + " "@ + key(rename_table()[row].0) + "\""@ + value + "\">"@) == "<"@
            + tag + " "@ + key(rename_table()[row].1) + "\""@ + value + "\">"@,
{
    reveal_strlit("<");
    reveal_strlit(" ");
    reveal_strlit("\"");
    reveal_strlit("\">");
    let table = rename_table();
    let before = "<"@ + tag + " "@;
    let after = "\""@ + value + "\">"@;
    assert(table.take(table.len() as int) == table);
    lemma_rows_rename_one(before, row, after, table.len() as int);
    assert(before + key(table[row].0) + after == "<"@ + tag + " "@ + key(table[row].0) + "\""@
        + value + "\">"@);
    assert(before + key(table[row].1) + after == "<"@ + tag + " "@ + key(table[row].1) + "\""@
        + value + "\">"@);
}

/// After renaming, no name that the table replaces by another stands before
/// an equals sign any more, whatever the text was.
pub proof fn lemma_no_old_name_remains(s: Seq<char>, row: int)
    requires
        0 <= row < rename_table().len(),
        rename_table()[row].0 != rename_table()[row].1,
    ensures
        !contains(renamed(s), key(rename_table()[row].0)),
{
    let table = rename_table();
    assert(table.take(table.len() as int) == table);
    lemma_rows_leave_no_old_name(s, table.len() as int);
}

/// Renaming twice gives what renaming once gives.
pub proof fn lemma_renaming_is_idempotent(s: Seq<char>)
    ensures
        renamed(renamed(s)) == renamed(s),
{
    let table = rename_table();
    assert(table.take(table.len() as int) == table);
    lemma_rows_leave_no_old_name(s, table.len() as int);
    lemma_rows_keep_renamed_text(renamed(s), table.len() as int);
}

impl SvgToReact {
    /// The table of attribute names.
    pub fn get_attributes(&self) -> (table: Vec<(&'static str, &'static str)>)
        ensures
            rows_of(table@) == rename_table(),
    {
        let table = vec![
            ("fill-rule", "fillRule"),
            ("clip-rule", "clipRule"),
            ("stroke-width", "strokeWidth"),
            ("stroke-linecap", "strokeLinecap"),
            ("stroke-linejoin", "strokeLinejoin"),
            ("stroke-dasharray", "strokeDasharray"),
            ("stroke-dashoffset", "strokeDashoffset"),
            ("stroke-miterlimit", "strokeMiterlimit"),
            ("stroke-opacity", "strokeOpacity"),
            ("fill-opacity", "fillOpacity"),
            ("stop-color", "stopColor"),
            ("stop-opacity", "stopOpacity"),
            ("marker-start", "markerStart"),
            ("marker-mid", "markerMid"),
            ("marker-end", "markerEnd"),
            ("clip-path", "clipPath"),
            ("color-interpolation", "colorInterpolation"),
            ("color-interpolation-filters", "colorInterpolationFilters"),
            ("flood-color", "floodColor"),
            ("flood-opacity", "floodOpacity"),
            ("lighting-color", "lightingColor"),
            ("mask-type", "maskType"),
            ("text-anchor", "textAnchor"),
            ("text-decoration", "textDecoration"),
            ("text-rendering", "textRendering"),
            ("vector-effect", "vectorEffect"),
            ("writing-mode", "writingMode"),
            ("font-family", "fontFamily"),
            ("font-size", "fontSize"),
            ("font-weight", "fontWeight"),
            ("font-style", "fontStyle"),
            ("font-variant", "fontVariant"),
            ("font-stretch", "fontStretch"),
            ("dominant-baseline", "dominantBaseline"),
            ("alignment-baseline", "alignmentBaseline"),
            ("baseline-shift", "baselineShift"),
            ("shape-rendering", "shapeRendering"),
            ("color-profile", "colorProfile"),
            ("enable-background", "enableBackground"),
            ("glyph-orientation-horizontal", "glyphOrientationHorizontal"),
            ("glyph-orientation-vertical", "glyphOrientationVertical"),
            ("kerning", "kerning"),
            ("letter-spacing", "letterSpacing"),
            ("word-spacing", "wordSpacing"),
            ("xml:lang", "xmlLang"),
            ("xml:space", "xmlSpace"),
            ("xmlns:xlink", "xmlnsXlink"),
            ("xlink:href", "xlinkHref"),
            ("xlink:show", "xlinkShow"),
            ("xlink:actuate", "xlinkActuate"),
            ("xlink:type", "xlinkType"),
            ("xlink:role", "xlinkRole"),
            ("xlink:title", "xlinkTitle"),
            ("class", "className"),
        ];
        assert(rows_of(table@) =~= rename_table());
        table
    }

    /// Replaces the attribute names of the table in `svg`.
    pub fn convert_attributes(&self, svg: &str) -> (out: String)
        ensures
            out@ == renamed(svg@),
    {
        let table = self.get_attributes();
        let mut result = to_chars(svg);
        let mut i: usize = 0;
        while i < table.len()
            invariant
                0 <= i <= table.len(),
                rows_of(table@) == rename_table(),
                result@ == renamed_by(svg@, rename_table().take(i as int)),
            decreases table.len() - i,
        {
            let mut pattern = to_chars(table[i].0);
            pattern.push('=');
            let mut replacement = to_chars(table[i].1);
            replacement.push('=');
            result = replace_all(&result, &pattern, &replacement);
            i += 1;
            proof {
                let upto = rename_table().take(i as int);
                assert(upto.drop_last() == rename_table().take(i - 1));
                assert(upto.last() == rows_of(table@)[i - 1]);
            }
        }
        assert(rename_table().take(table.len() as int) == rename_table());
        to_text(&result, 0, result.len())
    }
}

} // verus!
