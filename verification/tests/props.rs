use quickicon::component::SvgToReact;
use quickicon::settings::Config;

fn converter() -> SvgToReact {
    SvgToReact::new(String::new(), "Icon".to_string(), Config::default())
}

#[test]
fn first_width_and_height_are_bound() {
    let c = converter();
    assert_eq!(
        c.replace_dimensions("<svg width=\"24\" height=\"24\">"),
        "<svg width={size} height={size}>"
    );
}

#[test]
fn later_dimensions_stay() {
    let c = converter();
    assert_eq!(
        c.replace_dimensions("<svg width=\"24\" height=\"24\"><rect width=\"10\" height=\"12\"/></svg>"),
        "<svg width={size} height={size}><rect width=\"10\" height=\"12\"/></svg>"
    );
}

#[test]
fn dimensions_that_are_no_numbers_stay() {
    let c = converter();
    assert_eq!(c.replace_dimensions("<svg width=\"100%\" height=\"\">"), "<svg width=\"100%\" height=\"\">");
    assert_eq!(c.replace_dimensions("<svg width=\"1em\" width=\"7\">"), "<svg width=\"1em\" width={size}>");
    assert_eq!(c.replace_dimensions("<svg width=\"12"), "<svg width=\"12");
    assert_eq!(c.replace_dimensions(""), "");
}

#[test]
fn hex_colors_are_bound() {
    let c = converter();
    assert_eq!(c.replace_colors("<path fill=\"#112233\"/>"), "<path fill={color}/>");
    assert_eq!(c.replace_colors("<path fill=\"#abc\"/>"), "<path fill={color}/>");
    assert_eq!(c.replace_colors("<path stroke=\"#A1b2C3\"/>"), "<path stroke={color}/>");
    assert_eq!(c.replace_colors("<path stroke=\"#000\"/>"), "<path stroke={color}/>");
    assert_eq!(
        c.replace_colors("<a fill=\"#111\" stroke=\"#222222\"/><b fill=\"#333333\" stroke=\"#444\"/>"),
        "<a fill={color} stroke={color}/><b fill={color} stroke={color}/>"
    );
}

#[test]
fn white_stays() {
    let c = converter();
    assert_eq!(c.replace_colors("<path fill=\"#FFFFFF\"/>"), "<path fill=\"#FFFFFF\"/>");
    assert_eq!(c.replace_colors("<path fill=\"#fff\"/>"), "<path fill=\"#fff\"/>");
    assert_eq!(c.replace_colors("<path stroke=\"#ffffff\"/>"), "<path stroke=\"#ffffff\"/>");
    assert_eq!(c.replace_colors("<path stroke=\"#FFF\"/>"), "<path stroke=\"#FFF\"/>");
    assert_eq!(c.replace_colors("<path fill=\"#fff123\"/>"), "<path fill=\"#fff123\"/>");
}

#[test]
fn mixed_case_white_and_later_fff_are_bound() {
    let c = converter();
    assert_eq!(c.replace_colors("<path fill=\"#FfF\"/>"), "<path fill={color}/>");
    assert_eq!(c.replace_colors("<path fill=\"#123fff\"/>"), "<path fill={color}/>");
}

#[test]
fn other_colors_stay() {
    let c = converter();
    let s = "<path fill=\"red\" stroke=\"#12345\" fill=\"#1234567\" fill=\"#ggg\" fill=\"none\"/>";
    assert_eq!(c.replace_colors(s), s);
}

#[test]
fn props_go_before_the_first_closing_bracket() {
    let c = converter();
    assert_eq!(c.spread_props("<svg a=\"b\"><path/></svg>"), "<svg a=\"b\" {...props}><path/></svg>");
    assert_eq!(c.spread_props("  <svg>\n"), "<svg {...props}>");
    assert_eq!(c.spread_props("  no bracket \t"), "no bracket");
    assert_eq!(c.spread_props(""), "");
    assert_eq!(c.spread_props(">"), "{...props}>");
}
