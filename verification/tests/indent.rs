use quickicon::component::SvgToReact;
use quickicon::settings::Config;

fn converter() -> SvgToReact {
    SvgToReact::new(String::new(), "Icon".to_string(), Config::default())
}

#[test]
fn tags_are_nested_from_level_two() {
    let c = converter();
    assert_eq!(
        c.indent_svg("<svg><g><path/></g></svg>", 4),
        "        <svg>\n            <g>\n                <path/>\n            </g>\n        </svg>\n"
    );
}

#[test]
fn text_stands_at_the_depth_of_its_place() {
    let c = converter();
    assert_eq!(
        c.indent_svg("<a>hello <b>x</b> y</a>", 1),
        "  <a>\n   hello\n   <b>\n    x\n   </b>\n   y\n  </a>\n"
    );
}

#[test]
fn closing_tags_never_rise_above_level_zero() {
    let c = converter();
    assert_eq!(c.indent_svg("</a></b></c></d><e>", 2), "  </a>\n</b>\n</c>\n</d>\n<e>\n");
}

#[test]
fn line_feeds_cut_and_blank_pieces_vanish() {
    let c = converter();
    assert_eq!(c.indent_svg("a\nb\r\n\n  \n<c/>  ", 1), "  a\n  b\n  <c/>\n");
    assert_eq!(c.indent_svg("", 4), "");
    assert_eq!(c.indent_svg(" \n ", 4), "");
}

#[test]
fn width_zero_gives_no_indentation() {
    let c = converter();
    assert_eq!(c.indent_svg("<a><b/></a>", 0), "<a>\n<b/>\n</a>\n");
}

#[test]
fn a_lone_bracket_is_a_token() {
    let c = converter();
    assert_eq!(c.indent_svg("<<a>>", 1), "  <\n   <a>\n    >\n");
}
