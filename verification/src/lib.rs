//! A static-site generator core: a YAML-dialect template engine.
//!
//! Input documents are YAML values; mappings become HTML elements, `_`-prefixed
//! keys become attributes, tagged values are directives (variable definition,
//! conditionals, loops, file insertion, file copying). Text values pass through
//! a scoped-variable interpolator before they land in the document tree.

pub mod args;
pub mod diag;
pub mod engine;
pub mod interp;
pub mod laws;
pub mod node;
pub mod parser;
pub mod paths;
pub mod render;
pub mod text;
pub mod yaml;
