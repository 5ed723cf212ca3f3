//! Where the SVG text comes from, and what of the text that came is taken.
//! Reading a file, the clipboard or an address is the caller's part; what to
//! read and what to make of it is decided here.

use vstd::prelude::*;
use crate::parser::{first_svg_bounds, has_svg, is_first_svg_span, is_svg_span};
use crate::settings::Args;
use crate::text::{matches_at, occurs_at, same_text, to_chars, to_text};

verus! {

/// Where the SVG text of a run comes from.
#[derive(Debug, Clone, Copy, PartialEq, Eq, Structural)]
pub enum Source {
    /// An address to fetch.
    Remote,
    /// A file on this machine.
    File,
    /// The clipboard.
    Clipboard,
}

/// Why no SVG text was taken.
#[derive(Debug, Clone, Copy, PartialEq, Eq, Structural)]
pub enum ContentError {
    /// What the address returned holds no SVG element.
    NoSvgInResponse,
    /// The file's name ends neither in `.svg` nor in `.txt`.
    UnsupportedExtension,
    /// The file's name has no extension.
    MissingExtension,
    /// The file could not be read.
    UnreadableFile,
    /// The file holds no SVG element.
    NoSvgInFile,
    /// The clipboard holds no SVG element.
    NoSvgInClipboard,
}

/// A path that names an address: it starts with `https://` or `www.`.
pub open spec fn is_address(path: Seq<char>) -> bool {
    occurs_at(path, "https://"@, 0) || occurs_at(path, "www."@, 0)
}

/// The source that `path` names: the clipboard where there is no path.
pub open spec fn source(path: Option<Seq<char>>) -> Source {
    match path {
        None => Source::Clipboard,
        Some(path) => if is_address(path) {
            Source::Remote
        } else {
            Source::File
        },
    }
}

/// What is taken of the text `text` that came from `source`: of an address's
/// answer the first SVG element, of a file or the clipboard the whole text
/// if it holds an SVG element.
pub open spec fn taken(source: Source, text: Seq<char>, out: Result<Seq<char>, ContentError>) -> bool {
    match out {
        Ok(svg) => match source {
            Source::Remote => exists|start: int, end: int|
                is_first_svg_span(text, start, end) && svg == text.subrange(start, end),
            _ => has_svg(text) && svg == text,
        },
        Err(error) => !has_svg(text) && error == match source {
            Source::Remote => ContentError::NoSvgInResponse,
            Source::File => ContentError::NoSvgInFile,
            Source::Clipboard => ContentError::NoSvgInClipboard,
        },
    }
}

impl ContentError {
    /// The message that tells the user of the error.
    pub open spec fn text(self) -> Seq<char> {
        match self {
            ContentError::NoSvgInResponse => "There is no svg returned from the provided url"@,
            ContentError::UnsupportedExtension => "Only .svg or .txt files are allowed"@,
            ContentError::MissingExtension =>
                "File has no extension and only .svg or .txt files are allowed"@,
            ContentError::UnreadableFile =>
                "An error occurred while reading the provided svg file"@,
            ContentError::NoSvgInFile =>
                "The file you provided does not contain a valid svg element."@,
            ContentError::NoSvgInClipboard => "Your clipboard text content is not a valid svg."@,
        }
    }

    /// The message that tells the user of the error.
    pub fn message(&self) -> (out: String)
        ensures
            out@ == self.text(),
    {
        match self {
            ContentError::NoSvgInResponse => {
                "There is no svg returned from the provided url".to_owned()
            },
            ContentError::UnsupportedExtension => "Only .svg or .txt files are allowed".to_owned(),
            ContentError::MissingExtension => {
                "File has no extension and only .svg or .txt files are allowed".to_owned()
            },
            ContentError::UnreadableFile => {
                "An error occurred while reading the provided svg file".to_owned()
            },
            ContentError::NoSvgInFile => {
                "The file you provided does not contain a valid svg element.".to_owned()
            },
            ContentError::NoSvgInClipboard => {
                "Your clipboard text content is not a valid svg.".to_owned()
            },
        }
    }
}

/// The source that the command line names.
pub fn source_of(args: &Args) -> (out: Source)
    ensures
        out == source(
            match args.path {
                Some(path) => Some(path@),
                None => None,
            },
        ),
{
    match &args.path {
        None => Source::Clipboard,
        Some(path) => {
            let path = to_chars(path.as_str());
            if matches_at(&path, 0, &to_chars("https://")) || matches_at(
                &path,
                0,
                &to_chars("www."),
            ) {
                Source::Remote
            } else {
                Source::File
            }
        },
    }
}

/// Whether a file with the extension `extension` may be read: only `svg`
/// and `txt` are allowed.
pub fn check_extension(extension: Option<&str>) -> (outcome: Result<(), ContentError>)
    ensures
        outcome == match extension {
            None => Err::<(), ContentError>(ContentError::MissingExtension),
            Some(extension) => if extension@ == "svg"@ || extension@ == "txt"@ {
                Ok(())
            } else {
                Err(ContentError::UnsupportedExtension)
            },
        },
{
    match extension {
        None => Err(ContentError::MissingExtension),
        Some(extension) => {
            if same_text(extension, "svg") || same_text(extension, "txt") {
                Ok(())
            } else {
                Err(ContentError::UnsupportedExtension)
            }
        },
    }
}

/// Takes the SVG text out of what came from `source`.
pub fn take_svg(source: Source, text: &str) -> (outcome: Result<String, ContentError>)
    ensures
        taken(
            source,
            text@,
            match outcome {
                Ok(svg) => Ok(svg@),
                Err(error) => Err(error),
            },
        ),
{
    let chars = to_chars(text);
    match first_svg_bounds(&chars) {
        Some((start, end)) => {
            assert(is_svg_span(chars@, start as int, end as int));
            match source {
                Source::Remote => Ok(to_text(&chars, start, end)),
                _ => {
                    assert(chars@.subrange(0, chars.len() as int) == chars@);
                    Ok(to_text(&chars, 0, chars.len()))
                },
            }
        },
        None => match source {
            Source::Remote => Err(ContentError::NoSvgInResponse),
            Source::File => Err(ContentError::NoSvgInFile),
            Source::Clipboard => Err(ContentError::NoSvgInClipboard),
        },
    }
}

} // verus!
