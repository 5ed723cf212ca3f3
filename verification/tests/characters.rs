use quickicon::component::SvgToReact;
use quickicon::settings::Config;
use regex::{NoExpand, Regex};

fn converter() -> SvgToReact {
    SvgToReact::new(String::new(), "Icon".to_string(), Config::default())
}

fn all_chars() -> impl Iterator<Item = char> {
    (0u32..=0x10FFFF).filter_map(char::from_u32)
}

#[test]
fn white_space_is_what_std_trims() {
    let c = converter();
    for ch in all_chars() {
        if ch == '>' {
            continue;
        }
        let text = format!("{}x{}", ch, ch);
        assert_eq!(c.spread_props(&text), text.trim(), "{:?}", ch);
        assert_eq!(c.spread_props(&text) == "x", ch.is_whitespace(), "{:?}", ch);
    }
}

#[test]
fn the_known_white_space_is_trimmed() {
    let c = converter();
    let white = "\t\n\u{b}\u{c}\r \u{85}\u{a0}\u{1680}\u{2000}\u{2001}\u{2002}\u{2003}\u{2004}\u{2005}\
\u{2006}\u{2007}\u{2008}\u{2009}\u{200a}\u{2028}\u{2029}\u{202f}\u{205f}\u{3000}";
    assert_eq!(c.spread_props(&format!("{}a b{}", white, white)), "a b");
    for kept in ["\u{200b}", "\u{180e}", "\u{feff}", "\u{8}", "\u{e}", "\u{1f}", "_"] {
        assert_eq!(c.spread_props(kept), kept);
    }
}

#[test]
fn upper_case_is_what_std_maps_to() {
    let c = converter();
    for ch in all_chars() {
        if ch == '-' {
            continue;
        }
        let expected: String = "a".chars().chain(ch.to_uppercase()).chain("b".chars()).collect();
        assert_eq!(c.css_key_to_camel_case(&format!("a-{}b", ch)), expected, "{:?}", ch);
    }
}

#[test]
fn ascii_letters_are_capitalized() {
    let c = converter();
    for (small, capital) in ('a'..='z').zip('A'..='Z') {
        assert_eq!(c.css_key_to_camel_case(&format!("x-{}", small)), format!("x{}", capital));
        assert_eq!(c.css_key_to_camel_case(&format!("x-{}", capital)), format!("x{}", capital));
    }
    assert_eq!(c.css_key_to_camel_case("x-1-_-~"), "x1_~");
}

#[test]
fn digits_are_what_the_digit_class_holds() {
    let c = converter();
    let width = Regex::new("width=\"(\\d+)\"").unwrap();
    let sample = all_chars().filter(|ch| (*ch as u32) < 0x700 || (*ch as u32) % 251 == 0);
    for ch in sample.chain("٠٩०९０９𝟎𝟿".chars()) {
        let text = format!("width=\"{}\"", ch);
        let expected = width.replace(&text, NoExpand("width={size}")).to_string();
        assert_eq!(c.replace_dimensions(&text), expected, "{:?}", ch);
    }
}

#[test]
fn ascii_digits_are_zero_to_nine() {
    let c = converter();
    for ch in (0u8..=0x7f).map(char::from) {
        let text = format!("height=\"{}\"", ch);
        let expected = if ch.is_ascii_digit() { "height={size}".to_string() } else { text.clone() };
        assert_eq!(c.replace_dimensions(&text), expected, "{:?}", ch);
    }
}
