//! Outline of a Rust source file: its public items as one-line signatures,
//! and the imports that those signatures need.
pub mod items;
pub mod laws;
pub mod model;
pub mod outline;
pub mod signature;
pub mod syntax;
pub mod text;

pub use model::{ImportEntry, OutlineEntry, OutlineResult};
pub use syntax::extract_outline;
pub use text::collect_type_refs_from_str;
