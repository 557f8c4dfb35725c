//! A small templating language: literal text, `{{ variable }}`
//! interpolations, control tags (`block`, `for`, and an embed tag that
//! splices another template), and template inheritance through `extends`
//! with `{{ parent() }}` override chains.
//!
//! The engine is split into parsing (template text to a tree), inheritance
//! resolution (an extends chain merged into one renderable module), and
//! rendering (the resolved tree walked against a caller-supplied data
//! context with lexically scoped lookup).
pub mod ast;
pub mod engine;
pub mod env;
pub mod laws;
pub mod parse;
pub mod render;
pub mod resolve;
pub mod table;
pub mod text;
pub mod value;
