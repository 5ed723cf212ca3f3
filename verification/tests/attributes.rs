use quickicon::component::SvgToReact;
use quickicon::settings::Config;

fn converter() -> SvgToReact {
    SvgToReact::new(String::new(), "Icon".to_string(), Config::default())
}

#[test]
fn table_has_every_name_once_in_order() {
    let table = converter().get_attributes();
    assert_eq!(table.len(), 54);
    assert_eq!(table[0], ("fill-rule", "fillRule"));
    assert_eq!(table[17], ("color-interpolation-filters", "colorInterpolationFilters"));
    assert_eq!(table[41], ("kerning", "kerning"));
    assert_eq!(table[53], ("class", "className"));
    for i in 0..table.len() {
        for j in 0..i {
            assert_ne!(table[i].0, table[j].0);
        }
    }
}

#[test]
fn every_name_of_the_table_is_renamed() {
    let c = converter();
    for (from, to) in c.get_attributes() {
        let out = c.convert_attributes(&format!("<tag {}=\"v\">", from));
        assert_eq!(out, format!("<tag {}=\"v\">", to));
        assert!(out.contains(&format!("{}=", to)));
        if from != to {
            assert!(!out.contains(&format!("{}=", from)));
        }
    }
}

#[test]
fn renaming_twice_is_renaming_once() {
    let c = converter();
    let samples = [
        "<svg class=\"a\" stroke-width=\"2\" xlink:href=\"#x\"><g fill-rule=\"evenodd\"/></svg>",
        "clasclass=s= kerning= fill-fill-rule=rule=",
        "xmlns:xlink=\"x\" xml:space=\"preserve\" color-interpolation-filters=\"sRGB\"",
        "",
        "no attributes here",
    ];
    for s in samples {
        let once = c.convert_attributes(s);
        let twice = c.convert_attributes(&once);
        assert_eq!(once, twice);
    }
}

#[test]
fn names_outside_the_table_stay() {
    let c = converter();
    assert_eq!(c.convert_attributes("<a data-x=\"1\" aria-label=\"y\">"), "<a data-x=\"1\" aria-label=\"y\">");
}

#[test]
fn a_name_is_replaced_only_before_an_equals_sign() {
    let c = converter();
    assert_eq!(c.convert_attributes("fill-rule stroke-width: 2"), "fill-rule stroke-width: 2");
    assert_eq!(c.convert_attributes("fill-rule=x"), "fillRule=x");
}

#[test]
fn a_name_is_replaced_inside_a_longer_name() {
    let c = converter();
    assert_eq!(c.convert_attributes("data-fill-rule=\"a\""), "data-fillRule=\"a\"");
    assert_eq!(c.convert_attributes("subclass=\"a\""), "subclassName=\"a\"");
}

#[test]
fn every_occurrence_is_replaced() {
    let c = converter();
    assert_eq!(
        c.convert_attributes("<a class=\"x\"><b class=\"y\" stroke-width=\"1\"/><c stroke-width=\"2\"/></a>"),
        "<a className=\"x\"><b className=\"y\" strokeWidth=\"1\"/><c strokeWidth=\"2\"/></a>"
    );
}

#[test]
fn text_beyond_ascii_is_kept() {
    let c = converter();
    assert_eq!(c.convert_attributes("<t class=\"é\">日本語</t>"), "<t className=\"é\">日本語</t>");
}
