use quickicon::component::SvgToReact;
use quickicon::settings::Config;

fn converter() -> SvgToReact {
    SvgToReact::new(String::new(), "Icon".to_string(), Config::default())
}

#[test]
fn keys_are_camel_cased() {
    let c = converter();
    assert_eq!(c.css_key_to_camel_case("fill-opacity"), "fillOpacity");
    assert_eq!(c.css_key_to_camel_case("stroke-dash-array"), "strokeDashArray");
    assert_eq!(c.css_key_to_camel_case("color"), "color");
    assert_eq!(c.css_key_to_camel_case(""), "");
}

#[test]
fn empty_words_of_a_key_vanish() {
    let c = converter();
    assert_eq!(c.css_key_to_camel_case("-webkit-transform"), "WebkitTransform");
    assert_eq!(c.css_key_to_camel_case("a--b"), "aB");
    assert_eq!(c.css_key_to_camel_case("a-"), "a");
}

#[test]
fn a_first_letter_may_become_several() {
    let c = converter();
    assert_eq!(c.css_key_to_camel_case("a-ßb"), "aSSb");
    assert_eq!(c.css_key_to_camel_case("a-1b"), "a1b");
    assert_eq!(c.css_key_to_camel_case("a-éb"), "aÉb");
}

#[test]
fn style_becomes_object_literal() {
    let c = converter();
    assert_eq!(
        c.parse_style_to_object("fill-opacity:0.5; stroke-width: 2"),
        "fillOpacity: '0.5',strokeWidth: '2'"
    );
}

#[test]
fn malformed_segments_contribute_nothing() {
    let c = converter();
    assert_eq!(c.parse_style_to_object("bad"), "");
    assert_eq!(c.parse_style_to_object("bad; fill: red; a:b:c; ;"), "fill: 'red'");
    assert_eq!(c.parse_style_to_object(""), "");
    assert_eq!(c.parse_style_to_object(" ; ; "), "");
}

#[test]
fn empty_key_or_value_is_kept() {
    let c = converter();
    assert_eq!(c.parse_style_to_object("a:"), "a: ''");
    assert_eq!(c.parse_style_to_object(":b"), ": 'b'");
    assert_eq!(c.parse_style_to_object(" : "), ": ''");
}

#[test]
fn inline_styles_are_converted() {
    let c = converter();
    assert_eq!(
        c.convert_inline_styles("<g style=\"fill-opacity:0.5; stroke-width: 2\"/>"),
        "<g style={{ fillOpacity: '0.5',strokeWidth: '2' }}/>"
    );
    assert_eq!(c.convert_inline_styles("<g style=\"bad\"/>"), "<g style={{  }}/>");
    assert_eq!(c.convert_inline_styles("<g style=\"\"/>"), "<g style={{  }}/>");
}

#[test]
fn every_style_attribute_is_converted() {
    let c = converter();
    assert_eq!(
        c.convert_inline_styles("<a style=\"x:1\"><b style=\"y-z:2\"/></a>"),
        "<a style={{ x: '1' }}><b style={{ yZ: '2' }}/></a>"
    );
}

#[test]
fn a_style_without_closing_quote_stays() {
    let c = converter();
    assert_eq!(c.convert_inline_styles("<g style=\"fill:red"), "<g style=\"fill:red");
    assert_eq!(c.convert_inline_styles("<g style=x>"), "<g style=x>");
}
