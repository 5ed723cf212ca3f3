use quickicon::component::SvgToReact;
use quickicon::settings::Config;

fn config(is_javascript: bool, folder: &str, size: u32) -> Config {
    Config { is_javascript, destination_folder: folder.to_string(), size }
}

const SVG: &str = "<svg width=\"24\" height=\"24\"><path fill=\"#112233\" d=\"M0 0\"/></svg>";

#[test]
fn passes_run_in_order() {
    let c = SvgToReact::new(SVG.to_string(), "TestIcon".to_string(), Config::default());
    assert_eq!(
        c.process_svg(),
        "<svg width={size} height={size} {...props}><path fill={color} d=\"M0 0\"/></svg>"
    );
}

#[test]
fn all_passes_apply_to_one_text() {
    let svg = "  <svg class=\"i\" width=\"16\" height=\"16\" style=\"stroke-width: 2\">\
<path stroke-linecap=\"round\" stroke=\"#000\" fill=\"#fff\"/></svg>\n";
    let c = SvgToReact::new(svg.to_string(), "X".to_string(), Config::default());
    assert_eq!(
        c.process_svg(),
        "<svg className=\"i\" width={size} height={size} style={{ strokeWidth: '2' }} {...props}>\
<path strokeLinecap=\"round\" stroke={color} fill=\"#fff\"/></svg>"
    );
}

#[test]
fn typescript_component_end_to_end() {
    let c = SvgToReact::new(SVG.to_string(), "TestIcon".to_string(), config(false, "./out", 24));
    let generated = c.convert_and_save(false).unwrap();
    assert_eq!(generated.path, "./out/TestIcon.tsx");
    let expected = "import React, {SVGProps} from \"react\";\n\
interface TestIconProps extends SVGProps<SVGSVGElement> {\n    size?: `${number}` | number;\n    color?: string;\n}\n        \n\n\
const TestIcon = ({ \n    size = 24, \n    color = '#111827', \n    ...props\n} : TestIconProps) => {\n    return (\n\
\x20       <svg width={size} height={size} {...props}>\n\
\x20           <path fill={color} d=\"M0 0\"/>\n\
\x20       </svg>\n\
\n    );\n};\n\nexport default TestIcon;\n\n\
// Usage examples:\n// <TestIcon />\n// <TestIcon size={32} color=\"#3B82F6\" />\n\
// <TestIcon size=\"32\" color=\"#3B82F6\" />\n// <TestIcon className=\"hover:opacity-80\" />\n";
    assert_eq!(generated.contents, expected);
    assert!(generated.contents.contains("interface TestIconProps"));
    assert!(generated.contents.contains("<svg width={size} height={size} {...props}>"));
    assert!(generated.contents.contains("<path fill={color} d=\"M0 0\"/>"));
    assert!(generated.contents.contains("export default TestIcon;"));
}

#[test]
fn javascript_component_has_no_types() {
    let c = SvgToReact::new("<svg></svg>".to_string(), "Dot".to_string(), config(true, "icons/", 16));
    let generated = c.convert_and_save(false).unwrap();
    assert_eq!(generated.path, "icons/Dot.jsx");
    let expected = "import React from \"react\"\n\n\
const Dot = ({ \n    size = 16, \n    color = '#111827', \n    ...props\n}) => {\n    return (\n\
\x20       <svg {...props}>\n\
\x20       </svg>\n\
\n    );\n};\n\nexport default Dot;\n\n\
// Usage examples:\n// <Dot />\n// <Dot size={32} color=\"#3B82F6\" />\n\
// <Dot size=\"32\" color=\"#3B82F6\" />\n// <Dot className=\"hover:opacity-80\" />\n";
    assert_eq!(generated.contents, expected);
}

#[test]
fn wrapping_indents_by_four_spaces() {
    let c = SvgToReact::new(String::new(), "A".to_string(), config(true, "", 1));
    let text = c.wrap_in_component("<a><b/></a>");
    assert!(text.contains("    return (\n        <a>\n            <b/>\n        </a>\n\n    );\n"));
    assert!(text.contains("size = 1, \n"));
}

#[test]
fn default_size_is_written_in_decimal() {
    for (size, text) in [(0u32, "size = 0, "), (7, "size = 7, "), (10, "size = 10, "), (4294967295, "size = 4294967295, ")] {
        let c = SvgToReact::new(String::new(), "A".to_string(), config(false, "d", size));
        assert!(c.wrap_in_component("").contains(text), "{}", size);
    }
}

#[test]
fn path_joins_folder_and_file() {
    let path = |folder: &str, js: bool| {
        SvgToReact::new(String::new(), "EyeIcon".to_string(), config(js, folder, 24)).generate_file_path()
    };
    assert_eq!(path("./public/assets/icon", false), "./public/assets/icon/EyeIcon.tsx");
    assert_eq!(path("./public/assets/icon", true), "./public/assets/icon/EyeIcon.jsx");
    assert_eq!(path("icons/", false), "icons/EyeIcon.tsx");
    assert_eq!(path("", false), "EyeIcon.tsx");
    assert_eq!(path("/", true), "/EyeIcon.jsx");
}

#[test]
fn path_agrees_with_std_join() {
    for folder in ["./public/assets/icon", "icons/", "", "/", "a/b", "."] {
        let c = SvgToReact::new(String::new(), "EyeIcon".to_string(), config(false, folder, 24));
        let joined = std::path::Path::new(folder).join("EyeIcon.tsx");
        assert_eq!(std::path::Path::new(&c.generate_file_path()), joined.as_path());
    }
}

#[test]
fn existing_component_is_refused() {
    let c = SvgToReact::new(SVG.to_string(), "TestIcon".to_string(), config(false, "./out", 24));
    assert_eq!(c.check_component_existence(false), Ok(()));
    assert_eq!(
        c.check_component_existence(true),
        Err("An icon already exists at: \"./out/TestIcon.tsx\"".to_string())
    );
    assert_eq!(
        c.convert_and_save(true),
        Err("An icon already exists at: \"./out/TestIcon.tsx\"".to_string())
    );
}

#[test]
fn message_escapes_the_path() {
    let c = SvgToReact::new(String::new(), "A\"B".to_string(), config(true, "x\\y", 24));
    assert_eq!(
        c.check_component_existence(true),
        Err("An icon already exists at: \"x\\\\y/A\\\"B.jsx\"".to_string())
    );
}
