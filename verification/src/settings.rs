//! The settings of one run: what the command line gave, what an earlier run
//! stored, and how the two combine.

use vstd::prelude::*;
use crate::text::same_text;

verus! {

/// What the command line gave. A field that is `None` was not given.
#[derive(Debug, Clone, PartialEq, Eq)]
pub struct Args {
    /// `"typescript"` or `"javascript"`.
    pub language: Option<String>,
    /// The name of the component, such as `EyeIcon`.
    pub icon_name: String,
    /// A file on this machine or an address to fetch; the clipboard if absent.
    pub path: Option<String>,
    /// The directory that receives the component.
    pub destination: Option<String>,
    /// The icon's default size in pixels.
    pub size: Option<u32>,
    /// Whether to store the settings of this run for later ones.
    pub default: bool,
}

/// The settings that a conversion works with.
#[derive(Debug, Clone, PartialEq, Eq)]
pub struct Config {
    /// JavaScript output in place of TypeScript.
    pub is_javascript: bool,
    /// The directory that receives the component.
    pub destination_folder: String,
    /// The icon's default size in pixels.
    pub size: u32,
}

/// What a `Config` holds, as plain values.
pub struct Settings {
    pub is_javascript: bool,
    pub destination_folder: Seq<char>,
    pub size: u32,
}

impl View for Config {
    type V = Settings;

    open spec fn view(&self) -> Settings {
        Settings {
            is_javascript: self.is_javascript,
            destination_folder: self.destination_folder@,
            size: self.size,
        }
    }
}

/// The settings of a run for which nothing was stored and nothing given:
/// TypeScript, the directory `./public/assets/icon`, 24 pixels.
pub open spec fn standard_settings() -> Settings {
    Settings {
        is_javascript: false,
        destination_folder: "./public/assets/icon"@,
        size: 24,
    }
}

/// The settings of a run: each value that `args` gives, and for the others
/// the value of `base`. The language is JavaScript only where `args` names
/// it so, letter for letter.
pub open spec fn overridden(base: Settings, args: Args) -> Settings {
    Settings {
        is_javascript: match args.language {
            Some(language) => language@ == "javascript"@,
            None => base.is_javascript,
        },
        destination_folder: match args.destination {
            Some(destination) => destination@,
            None => base.destination_folder,
        },
        size: match args.size {
            Some(size) => size,
            None => base.size,
        },
    }
}

impl Default for Config {
    fn default() -> (config: Config)
        ensures
            config@ == standard_settings(),
    {
        Config {
            is_javascript: false,
            destination_folder: "./public/assets/icon".to_string(),
            size: 24,
        }
    }
}

impl Config {
    /// The settings of a run. `stored` is what an earlier run left, if it
    /// left anything readable; without it the standard settings take its
    /// place. Every value that `args` gives overrides the stored one.
    pub fn resolve(stored: Option<Config>, args: &Args) -> (merged: Config)
        ensures
            merged@ == overridden(
                match stored {
                    Some(base) => base@,
                    None => standard_settings(),
                },
                *args,
            ),
    {
        let base = match stored {
            Some(base) => base,
            None => Config::default(),
        };
        let is_javascript = match &args.language {
            Some(language) => same_text(language.as_str(), "javascript"),
            None => base.is_javascript,
        };
        let destination_folder = match &args.destination {
            Some(destination) => destination.clone(),
            None => base.destination_folder.clone(),
        };
        let size = match args.size {
            Some(size) => size,
            None => base.size,
        };
        Config { is_javascript, destination_folder, size }
    }
}

} // verus!
