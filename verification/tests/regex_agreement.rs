use quickicon::component::SvgToReact;
use quickicon::parser::svg_validator;
use quickicon::content::{take_svg, Source};
use quickicon::settings::Config;
use regex::{Captures, NoExpand, Regex};

fn converter() -> SvgToReact {
    SvgToReact::new(String::new(), "Icon".to_string(), Config::default())
}

const SAMPLES: [&str; 15] = [
    "",
    "<svg width=\"24\" height=\"24\"><path fill=\"#112233\" d=\"M0 0\"/></svg>",
    "<svg class=\"a\" stroke-width=\"2\" width=\"100%\" height=\"1em\" width=\"3\"><g style=\"fill-opacity:0.5; stroke-width: 2\"/></svg>",
    "<svg xmlns:xlink=\"x\" xml:space=\"preserve\"><use xlink:href=\"#a\" fill=\"#fff\" stroke=\"#FFFFFF\"/></svg>",
    "fill=\"#abc\" fill=\"#abcd\" fill=\"#abcdef\" fill=\"#abcdefg\" stroke=\"#12G\" stroke=\"#1a2B3c\"",
    "style=\"\" style=\"bad\" style=\"a:b;c:d:e;;f-g-h : i \" style=\"unterminated",
    "width=\"\" height=\"12\" width=\"12\" height=\"13\" width=\"14\"",
    "fill=\"#fff123\" fill=\"#123fff\" fill=\"#FFF\" fill=\"#FfF\" stroke=\"#ffF000\"",
    "clasclass=s= kerning=\"1\" color-interpolation-filters=\"x\" color-interpolation=\"y\"",
    "<svg\n  fill-rule=\"evenodd\"\n  clip-rule=\"evenodd\">\n<path/>\n</svg>\n",
    "<svg>日本語 class=\"é\" style=\"é-ü: ß\"</svg>",
    "no markup at all > here",
    "<svg <svg></svg></svg>",
    "stylestyle=\"a:b\" data-width=\"5\" fillfill=\"#123\"",
    "width=\"٣x\" height=\"٣٤\" width=\"७\"",
];

#[test]
fn attribute_names_agree_with_regular_expressions() {
    let c = converter();
    for s in SAMPLES {
        let mut expected = s.to_string();
        for (from, to) in c.get_attributes() {
            let re = Regex::new(&format!("{}=", regex::escape(from))).unwrap();
            expected = re.replace_all(&expected, NoExpand(&format!("{}=", to))).to_string();
        }
        assert_eq!(c.convert_attributes(s), expected, "{:?}", s);
    }
}

#[test]
fn styles_agree_with_regular_expressions() {
    let c = converter();
    let re = Regex::new("style=\"([^\"]*)\"").unwrap();
    for s in SAMPLES {
        let expected = re
            .replace_all(s, |caps: &Captures| format!("style={{{{ {} }}}}", c.parse_style_to_object(&caps[1])))
            .to_string();
        assert_eq!(c.convert_inline_styles(s), expected, "{:?}", s);
    }
}

#[test]
fn style_objects_agree_with_std_splitting() {
    let c = converter();
    for s in ["", "a:b", "fill-opacity:0.5; stroke-width: 2", "bad", " ; a : b ; c:d:e ; -x-y:z;", "é-ü: ß ;;"] {
        let expected = s
            .split(';')
            .filter(|p| !p.trim().is_empty())
            .map(|p| {
                let parts: Vec<&str> = p.split(':').collect();
                if parts.len() == 2 {
                    format!("{}: '{}'", c.css_key_to_camel_case(parts[0].trim()), parts[1].trim())
                } else {
                    String::new()
                }
            })
            .filter(|p| !p.trim().is_empty())
            .collect::<Vec<String>>()
            .join(",");
        assert_eq!(c.parse_style_to_object(s), expected, "{:?}", s);
    }
}

#[test]
fn dimensions_agree_with_regular_expressions() {
    let c = converter();
    let width = Regex::new("width=\"(\\d+)\"").unwrap();
    let height = Regex::new("height=\"(\\d+)\"").unwrap();
    for s in SAMPLES {
        let expected = width.replace(s, NoExpand("width={size}")).to_string();
        let expected = height.replace(&expected, NoExpand("height={size}")).to_string();
        assert_eq!(c.replace_dimensions(s), expected, "{:?}", s);
    }
}

#[test]
fn colors_agree_with_regular_expressions() {
    let c = converter();
    let patterns = [
        "fill=\"#[0-9A-Fa-f]{6}\"",
        "fill=\"#[0-9A-Fa-f]{3}\"",
        "stroke=\"#[0-9A-Fa-f]{6}\"",
        "stroke=\"#[0-9A-Fa-f]{3}\"",
    ];
    for s in SAMPLES {
        let mut expected = s.to_string();
        for pattern in patterns {
            let re = Regex::new(pattern).unwrap();
            expected = re
                .replace_all(&expected, |caps: &Captures| {
                    let matched = &caps[0];
                    if matched.contains("white") || matched.contains("#fff") || matched.contains("#FFF") {
                        matched.to_string()
                    } else if matched.starts_with("fill=") {
                        "fill={color}".to_string()
                    } else {
                        "stroke={color}".to_string()
                    }
                })
                .to_string();
        }
        assert_eq!(c.replace_colors(s), expected, "{:?}", s);
    }
}

#[test]
fn spreading_agrees_with_std_replacen() {
    let c = converter();
    for s in SAMPLES {
        assert_eq!(c.spread_props(s), s.replacen('>', " {...props}>", 1).trim(), "{:?}", s);
    }
    assert_eq!(c.spread_props("\u{a0}\t<a>\u{2003}\n"), "<a {...props}>");
}

#[test]
fn tokens_agree_with_std_lines() {
    let c = converter();
    for s in SAMPLES {
        let replaced = s.replace('>', ">\n").replace('<', "\n<");
        let mut expected = String::new();
        let mut level: usize = 2;
        for token in replaced.lines().map(|l| l.trim()).filter(|l| !l.is_empty()) {
            if token.starts_with("</") {
                level = level.saturating_sub(1);
                expected.push_str(&format!("{}{}\n", "    ".repeat(level), token));
            } else if token.starts_with('<') && !token.ends_with("/>") {
                expected.push_str(&format!("{}{}\n", "    ".repeat(level), token));
                level += 1;
            } else {
                expected.push_str(&format!("{}{}\n", "    ".repeat(level), token));
            }
        }
        assert_eq!(c.indent_svg(s, 4), expected, "{:?}", s);
    }
}

#[test]
fn svg_search_agrees_with_regular_expressions() {
    let re = Regex::new("(?s)<svg[^>]*>.*?</svg>").unwrap();
    let more = ["<svg></svg>", "<svg>", "a<svg x>\n\n</svg>b</svg>", "<svg</svg>", "</svg><svg>", "<svg><svg></svg>"];
    for s in SAMPLES.iter().chain(more.iter()) {
        assert_eq!(svg_validator(s), re.is_match(s), "{:?}", s);
        assert_eq!(take_svg(Source::Remote, s).ok(), re.find(s).map(|m| m.as_str().to_string()), "{:?}", s);
    }
}

#[test]
fn digits_of_every_script_count_as_a_dimension() {
    let c = converter();
    assert_eq!(c.replace_dimensions("width=\"٢٤\" width=\"24\""), "width={size} width=\"24\"");
    assert_eq!(c.replace_dimensions("height=\"1٢\""), "height={size}");
    assert_eq!(c.replace_dimensions("height=\"Ⅳ\" width=\"½\""), "height=\"Ⅳ\" width=\"½\"");
}
