use quickicon::content::{check_extension, source_of, take_svg, ContentError, Source};
use quickicon::settings::Args;

fn args(path: Option<&str>) -> Args {
    Args {
        language: None,
        icon_name: "Icon".to_string(),
        path: path.map(|p| p.to_string()),
        destination: None,
        size: None,
        default: false,
    }
}

#[test]
fn source_follows_the_path() {
    assert_eq!(source_of(&args(None)), Source::Clipboard);
    assert_eq!(source_of(&args(Some("https://example.com/a.svg"))), Source::Remote);
    assert_eq!(source_of(&args(Some("www.example.com/a.svg"))), Source::Remote);
    assert_eq!(source_of(&args(Some("./icons/a.svg"))), Source::File);
    assert_eq!(source_of(&args(Some("http://example.com/a.svg"))), Source::File);
    assert_eq!(source_of(&args(Some("a/https://b"))), Source::File);
    assert_eq!(source_of(&args(Some(""))), Source::File);
}

#[test]
fn only_svg_and_txt_files_are_read() {
    assert_eq!(check_extension(Some("svg")), Ok(()));
    assert_eq!(check_extension(Some("txt")), Ok(()));
    assert_eq!(check_extension(Some("png")), Err(ContentError::UnsupportedExtension));
    assert_eq!(check_extension(Some("SVG")), Err(ContentError::UnsupportedExtension));
    assert_eq!(check_extension(Some("")), Err(ContentError::UnsupportedExtension));
    assert_eq!(check_extension(None), Err(ContentError::MissingExtension));
}

#[test]
fn first_svg_element_of_a_response_is_taken() {
    assert_eq!(
        take_svg(Source::Remote, "<html><svg a=\"1\">x</svg><svg>y</svg></html>"),
        Ok("<svg a=\"1\">x</svg>".to_string())
    );
    assert_eq!(take_svg(Source::Remote, "<svg>\n</svg></svg>"), Ok("<svg>\n</svg>".to_string()));
    assert_eq!(take_svg(Source::Remote, "é<svg>日</svg>é"), Ok("<svg>日</svg>".to_string()));
    assert_eq!(take_svg(Source::Remote, "<svg </svg> ></svg>"), Ok("<svg </svg> ></svg>".to_string()));
}

#[test]
fn file_and_clipboard_are_taken_whole() {
    assert_eq!(take_svg(Source::File, " <svg></svg>\n"), Ok(" <svg></svg>\n".to_string()));
    assert_eq!(take_svg(Source::Clipboard, "a<svg></svg>b"), Ok("a<svg></svg>b".to_string()));
}

#[test]
fn text_without_svg_is_refused_by_source() {
    assert_eq!(take_svg(Source::Remote, "<html></html>"), Err(ContentError::NoSvgInResponse));
    assert_eq!(take_svg(Source::File, "<svg>"), Err(ContentError::NoSvgInFile));
    assert_eq!(take_svg(Source::Clipboard, ""), Err(ContentError::NoSvgInClipboard));
}

#[test]
fn every_error_has_its_message() {
    assert_eq!(ContentError::NoSvgInResponse.message(), "There is no svg returned from the provided url");
    assert_eq!(ContentError::UnsupportedExtension.message(), "Only .svg or .txt files are allowed");
    assert_eq!(
        ContentError::MissingExtension.message(),
        "File has no extension and only .svg or .txt files are allowed"
    );
    assert_eq!(ContentError::UnreadableFile.message(), "An error occurred while reading the provided svg file");
    assert_eq!(ContentError::NoSvgInFile.message(), "The file you provided does not contain a valid svg element.");
    assert_eq!(ContentError::NoSvgInClipboard.message(), "Your clipboard text content is not a valid svg.");
}
