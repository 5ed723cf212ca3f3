use quickicon::parser::{directory_parser, size_parser, svg_validator, validate_svg};

#[test]
fn every_destination_is_accepted() {
    assert_eq!(directory_parser("./public/assets/icon"), Ok("./public/assets/icon".to_string()));
    assert_eq!(directory_parser(""), Ok(String::new()));
    assert_eq!(directory_parser("a b/ç"), Ok("a b/ç".to_string()));
}

#[test]
fn sizes_are_read() {
    assert_eq!(size_parser("24"), Ok(24));
    assert_eq!(size_parser("1"), Ok(1));
    assert_eq!(size_parser("+32"), Ok(32));
    assert_eq!(size_parser("007"), Ok(7));
    assert_eq!(size_parser("4294967295"), Ok(4294967295));
}

#[test]
fn zero_is_refused() {
    let zero = Err("The size of the icon cannot be 0".to_string());
    assert_eq!(size_parser("0"), zero);
    assert_eq!(size_parser("000"), zero);
    assert_eq!(size_parser("+0"), zero);
}

#[test]
fn what_is_no_number_is_refused() {
    let invalid = Err("Please enter a valid number greater than 0 for the size".to_string());
    for s in ["", "+", "-", "-1", "-0", "abc", "12px", " 12", "12 ", "1.5", "++1", "1+", "١٢", "4294967296", "99999999999999999999"] {
        assert_eq!(size_parser(s), invalid, "{:?}", s);
    }
}

#[test]
fn sizes_agree_with_std_parse() {
    for s in ["24", "+24", "0", "", "+", "-5", "4294967295", "4294967296", "42949672950", "00000000000000000001", "1e3", "٣", "0x10"] {
        let ours = size_parser(s).ok();
        let std = s.parse::<u32>().ok().filter(|n| *n > 0);
        assert_eq!(ours, std, "{:?}", s);
    }
}

#[test]
fn svg_elements_are_found() {
    assert!(svg_validator("<svg></svg>"));
    assert!(svg_validator("<svg width=\"1\">\n<path/>\n</svg>"));
    assert!(svg_validator("text <svg>x</svg> more"));
    assert!(svg_validator("<svgfoo></svg>"));
    assert!(svg_validator("<svg <svg></svg>"));
}

#[test]
fn what_holds_no_svg_element_is_refused() {
    for s in ["", "<svg>", "</svg>", "<svg></svg", "<svg</svg>", "</svg><svg>", "<SVG></SVG>", "< svg></svg>", "<div></div>"] {
        assert!(!svg_validator(s), "{:?}", s);
    }
}

#[test]
fn owned_text_is_validated_alike() {
    assert!(validate_svg("<svg></svg>".to_string()));
    assert!(!validate_svg("<svg>".to_string()));
    assert!(!validate_svg(String::new()));
}
