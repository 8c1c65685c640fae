//! A small interpreted language: tokenizer, recursive-descent parser,
//! scope-aware semantic analyzer and tree-walking interpreter.
//!
//! Every stage is an executable function whose result is stated against a
//! mathematical model. The tokens and the syntax tree have views made of
//! sequences and plain values, and each stage has a specification over
//! those views that its executable counterpart is proved to compute:
//!
//! - [`tokenizer`] turns source text into positioned tokens
//!   (`tokenizer::lexicon` says which);
//! - [`parser`] turns tokens into a syntax tree (`parser::grammar`), by
//!   precedence climbing, which `parser::precedence` proves to recognise
//!   the conventional grammar of operators;
//! - [`analyzer`] checks scoping and types (`analyzer::rules`);
//! - [`interpreter`] runs the tree (`interpreter::semantics`), within
//!   limits on the depth of calls and the length of loops, and collects
//!   what the program writes;
//! - [`printer`] turns a tree back into text, which the tokenizer and the
//!   parser are proved to read as the same tree.
//!
//! The analyzer and the interpreter share one stack of lexical scopes,
//! [`common::scope`].
pub mod analyzer;
pub mod common;
pub mod interpreter;
pub mod parser;
pub mod printer;
pub mod tokenizer;
