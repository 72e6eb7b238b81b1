//! An interactive text-transform workbench: a rope-free multi-line input
//! editor with cursor and viewport logic, an undo/redo-aware command
//! dispatcher over a fixed registry of slash-commands, and the text
//! transforms those commands invoke.

pub mod autocomplete;
pub mod base64;
pub mod css;
pub mod cursor;
pub mod engine;
pub mod hash;
pub mod history;
pub mod ident;
pub mod json;
pub mod registry;
pub mod render;
pub mod scroll;
pub mod text;
pub mod unicode;
pub mod url;

pub use text::TextSpan;
