//! A small interpreted scripting language: source text is lexed into tokens,
//! parsed into a syntax tree, bound against a typed scope chain, and evaluated
//! by walking the bound tree. Diagnostics from every stage are collected in a
//! shared bag; evaluation output is collected as rendered text.

pub mod binder;
pub mod bindings;
pub mod bound_tree;
pub mod compilation;
pub mod diagnostic;
pub mod emitter;
pub mod environment;
pub mod evaluator;
pub mod lexer;
pub mod parser;
pub mod syntax_tree;
pub mod text;
pub mod token;
pub mod types;

pub use types::Object;
pub use types::Type;
pub use types::Value;
