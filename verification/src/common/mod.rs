//! The data shared by every stage: tokens, the syntax tree, and text helpers.
pub mod ast;
pub mod clone;
pub mod scope;
pub mod text;
pub mod token;
