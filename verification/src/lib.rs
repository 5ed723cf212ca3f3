//! Turns SVG markup into the source text of a React icon component.
//!
//! The markup is treated as text. A fixed series of rewriting passes renames
//! attributes, converts inline styles, binds sizes and colours to component
//! properties and forwards the remaining properties to the root element; the
//! result is indented and wrapped in a component template.

pub mod attributes;
pub mod component;
pub mod content;
pub mod indent;
pub mod parser;
pub mod props;
pub mod replacement;
pub mod rows;
pub mod settings;
pub mod style;
pub mod text;
