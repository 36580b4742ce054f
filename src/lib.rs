//! Code generation for a small curly-brace scripting target: a program tree
//! is printed as source text with precedence-aware parenthesisation and
//! blocks lowered to immediately-invoked closures.
pub mod ast;
pub mod stream;
pub mod text;
pub mod emitter;
pub mod grouping;
