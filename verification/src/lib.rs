//! Language-service logic for GLSL shaders: comment and call detection,
//! symbol scanning, completion, vector swizzles, formatting and the
//! built-in documentation tables.
pub mod text;
pub mod lexical;
pub mod symbols;
pub mod variables;
pub mod config;
pub mod vectors;
pub mod completion;
pub mod docs;
pub mod complete;
pub mod navigation;
pub mod includes;
pub mod format;
pub mod colors;
pub mod diagnostics;
pub mod settings;
pub mod laws;
pub mod format_laws;
pub mod feature_laws;
