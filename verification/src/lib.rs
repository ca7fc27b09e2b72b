//! Rewrites the branches of Rust expressions so that each branch returns its
//! value wrapped in a variant of one generated enum, as the `auto_enum`
//! attribute does, together with the helpers that build the syntax it emits.
pub mod syntax;
pub mod utils;
pub mod context;
pub mod spec;
pub mod expr;
pub mod laws;
pub mod variants;
pub mod behaviour;
pub mod derive;
