//! The converter: one SVG text, the name of the component to make of it, and
//! the settings of the run.

use vstd::prelude::*;
use crate::attributes::renamed;
use crate::indent::indented;
use crate::props::{colors_replaced, dimensions_replaced, props_spread};
use crate::settings::{Config, Settings};
use crate::style::styles_converted;
use crate::text::{push_str, to_text};

verus! {

/// A conversion that is ready to run.
pub struct SvgToReact {
    svg_string: String,
    component_name: String,
    config: Config,
}

/// What a conversion yields: the text of the component and the path of the
/// file that is to hold it.
#[derive(Debug, Clone, PartialEq, Eq)]
pub struct GeneratedComponent {
    pub path: String,
    pub contents: String,
}

/// What `Debug` writes for a string slice: the text between double quotes,
/// with the characters escaped that a string literal cannot hold as they are.
pub uninterp spec fn debug_text(s: Seq<char>) -> Seq<char>;

/// `format!("{:?}", s)` writes `s` as `Debug` does.
#[verifier::external_body]
fn quoted(s: &str) -> (out: String)
    ensures
        out@ == debug_text(s@),
{
    format!("{:?}", s)
}

/// One decimal digit as a character.
pub open spec fn digit_char(digit: nat) -> char
    recommends
        digit < 10,
{
    (('0' as u8) + digit) as u8 as char
}

/// `n` in decimal notation, without leading zeros.
pub open spec fn decimal(n: nat) -> Seq<char>
    decreases n,
{
    if n < 10 {
        seq![digit_char(n)]
    } else {
        decimal(n / 10).push(digit_char(n % 10))
    }
}

/// The markup after all rewriting passes, in their order: attribute names,
/// inline styles, dimensions, colours, forwarded properties.
pub open spec fn processed(svg: Seq<char>) -> Seq<char> {
    props_spread(colors_replaced(dimensions_replaced(styles_converted(renamed(svg)))))
}

/// The first lines of the component: the import, and in TypeScript the
/// interface of the component's properties.
pub open spec fn header(name: Seq<char>, is_javascript: bool) -> Seq<char> {
    if is_javascript {
        "import React from \"react\""@
    } else {
        "import React, {SVGProps} from \"react\";\ninterface "@ + name
            + "Props extends SVGProps<SVGSVGElement> {\n    size?: `${number}` | number;\n    color?: string;\n}\n        "@
    }
}

/// The type of the component's properties: none in JavaScript.
pub open spec fn props_type(name: Seq<char>, is_javascript: bool) -> Seq<char> {
    if is_javascript {
        Seq::<char>::empty()
    } else {
        " : "@ + name + "Props"@
    }
}

/// The source text of the component `name` around the indented markup
/// `markup`, with `size` as the default size.
pub open spec fn component_text(
    name: Seq<char>,
    is_javascript: bool,
    size: u32,
    markup: Seq<char>,
) -> Seq<char> {
    header(name, is_javascript) + "\n\nconst "@ + name + " = ({ \n    size = "@ + decimal(
        size as nat,
    ) + ", \n    color = '#111827', \n    ...props\n}"@ + props_type(name, is_javascript)
        + ") => {\n    return (\n"@ + markup + "\n    );\n};\n\nexport default "@ + name
        + ";\n\n// Usage examples:\n// <"@ + name + " />\n// <"@ + name
        + " size={32} color=\"#3B82F6\" />\n// <"@ + name
        + " size=\"32\" color=\"#3B82F6\" />\n// <"@ + name
        + " className=\"hover:opacity-80\" />\n"@
}

/// The name of the component's file: `.jsx` in JavaScript, else `.tsx`.
pub open spec fn file_name(name: Seq<char>, is_javascript: bool) -> Seq<char> {
    name + if is_javascript {
        ".jsx"@
    } else {
        ".tsx"@
    }
}

/// The path of the file `file` in the directory `folder`: a slash stands
/// between the two unless `folder` is empty or ends in one.
pub open spec fn file_path(folder: Seq<char>, file: Seq<char>) -> Seq<char> {
    if folder.len() == 0 || folder.last() == '/' {
        folder + file
    } else {
        folder + "/"@ + file
    }
}

/// The message for a component whose file is there already.
pub open spec fn exists_message(path: Seq<char>) -> Seq<char> {
    "An icon already exists at: "@ + debug_text(path)
}

/// Appends `n` in decimal notation to `out`.
fn push_decimal(out: &mut Vec<char>, n: u32)
    ensures
        final(out)@ == old(out)@ + decimal(n as nat),
    decreases n,
{
    let ghost before = out@;
    if n >= 10 {
        push_decimal(out, n / 10);
    }
    let digit: u8 = (n % 10) as u8;
    out.push((48u8 + digit) as char);
    proof {
        if n >= 10 {
            assert(out@ == before + decimal(n as nat / 10).push(digit_char(n as nat % 10)));
        } else {
            assert(out@ == before + seq![digit_char(n as nat)]);
        }
    }
}

impl SvgToReact {
    /// The SVG text to convert.
    pub closed spec fn svg(&self) -> Seq<char> {
        self.svg_string@
    }

    /// The name of the component.
    pub closed spec fn name(&self) -> Seq<char> {
        self.component_name@
    }

    /// The settings of the run.
    pub closed spec fn settings(&self) -> Settings {
        self.config@
    }

    /// The path of the component's file.
    pub open spec fn path(&self) -> Seq<char> {
        file_path(
            self.settings().destination_folder,
            file_name(self.name(), self.settings().is_javascript),
        )
    }

    /// The text of the component.
    pub open spec fn component(&self) -> Seq<char> {
        component_text(
            self.name(),
            self.settings().is_javascript,
            self.settings().size,
            indented(processed(self.svg()), 4),
        )
    }

    /// A conversion of `svg_string` into a component called `component_name`.
    pub fn new(svg_string: String, component_name: String, config: Config) -> (converter: Self)
        ensures
            converter.svg() == svg_string@,
            converter.name() == component_name@,
            converter.settings() == config@,
    {
        SvgToReact { svg_string, component_name, config }
    }

    /// Makes the component, unless its file is there already. `exists` says
    /// whether a file stands at `generate_file_path()`. Nothing is written:
    /// the caller stores the contents at the path.
    pub fn convert_and_save(&self, exists: bool) -> (outcome: Result<GeneratedComponent, String>)
        ensures
            match outcome {
                Ok(generated) => !exists && generated.path@ == self.path() && generated.contents@
                    == self.component(),
                Err(message) => exists && message@ == exists_message(self.path()),
            },
    {
        match self.check_component_existence(exists) {
            Err(message) => Err(message),
            Ok(()) => {
                let processed_svg = self.process_svg();
                let contents = self.wrap_in_component(processed_svg.as_str());
                Ok(GeneratedComponent { path: self.generate_file_path(), contents })
            },
        }
    }

    /// Runs the rewriting passes on the SVG text, in their order.
    pub fn process_svg(&self) -> (out: String)
        ensures
            out@ == processed(self.svg()),
    {
        let svg = self.convert_attributes(self.svg_string.as_str());
        let svg = self.convert_inline_styles(svg.as_str());
        let svg = self.replace_dimensions(svg.as_str());
        let svg = self.replace_colors(svg.as_str());
        self.spread_props(svg.as_str())
    }

    /// Indents `processed_svg` by four spaces for each level and writes the
    /// component around it.
    pub fn wrap_in_component(&self, processed_svg: &str) -> (out: String)
        ensures
            out@ == component_text(
                self.name(),
                self.settings().is_javascript,
                self.settings().size,
                indented(processed_svg@, 4),
            ),
    {
        let indented_svg = self.indent_svg(processed_svg, 4);
        let name = self.component_name.as_str();
        let mut out: Vec<char> = Vec::new();
        if self.config.is_javascript {
            push_str(&mut out, "import React from \"react\"");
        } else {
            push_str(&mut out, "import React, {SVGProps} from \"react\";\ninterface ");
            push_str(&mut out, name);
            push_str(
                &mut out,
                "Props extends SVGProps<SVGSVGElement> {\n    size?: `${number}` | number;\n    color?: string;\n}\n        ",
            );
        }
        assert(out@ == header(self.name(), self.settings().is_javascript));
        push_str(&mut out, "\n\nconst ");
        push_str(&mut out, name);
        push_str(&mut out, " = ({ \n    size = ");
        push_decimal(&mut out, self.config.size);
        push_str(&mut out, ", \n    color = '#111827', \n    ...props\n}");
        let ghost before_type = out@;
        if !self.config.is_javascript {
            push_str(&mut out, " : ");
            push_str(&mut out, name);
            push_str(&mut out, "Props");
        }
        assert(out@ == before_type + props_type(self.name(), self.settings().is_javascript));
        push_str(&mut out, ") => {\n    return (\n");
        push_str(&mut out, indented_svg.as_str());
        push_str(&mut out, "\n    );\n};\n\nexport default ");
        push_str(&mut out, name);
        push_str(&mut out, ";\n\n// Usage examples:\n// <");
        push_str(&mut out, name);
        push_str(&mut out, " />\n// <");
        push_str(&mut out, name);
        push_str(&mut out, " size={32} color=\"#3B82F6\" />\n// <");
        push_str(&mut out, name);
        push_str(&mut out, " size=\"32\" color=\"#3B82F6\" />\n// <");
        push_str(&mut out, name);
        push_str(&mut out, " className=\"hover:opacity-80\" />\n");
        to_text(&out, 0, out.len())
    }

    /// The path of the component's file: its name in the destination
    /// directory.
    pub fn generate_file_path(&self) -> (out: String)
        ensures
            out@ == self.path(),
    {
        let folder = self.config.destination_folder.as_str();
        let mut out: Vec<char> = Vec::new();
        push_str(&mut out, folder);
        if out.len() > 0 && out[out.len() - 1] != '/' {
            push_str(&mut out, "/");
        }
        push_str(&mut out, self.component_name.as_str());
        if self.config.is_javascript {
            push_str(&mut out, ".jsx");
        } else {
            push_str(&mut out, ".tsx");
        }
        to_text(&out, 0, out.len())
    }

    /// Refuses to go on where the component's file is there already.
    /// `exists` says whether a file stands at `generate_file_path()`.
    pub fn check_component_existence(&self, exists: bool) -> (outcome: Result<(), String>)
        ensures
            match outcome {
                Ok(()) => !exists,
                Err(message) => exists && message@ == exists_message(self.path()),
            },
    {
        if exists {
            let file_path = self.generate_file_path();
            let mut message: Vec<char> = Vec::new();
            push_str(&mut message, "An icon already exists at: ");
            push_str(&mut message, quoted(file_path.as_str()).as_str());
            Err(to_text(&message, 0, message.len()))
        } else {
            Ok(())
        }
    }
}

} // verus!
