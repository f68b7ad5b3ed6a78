//! The front end of a small, statically typed language: a tokenizer that
//! turns source text into tokens, and a recursive-descent parser that turns
//! tokens into a syntax tree.
//!
//! - [`lexer`] holds the tokens, the rules by which text falls into them, and
//!   the tokenizer.
//! - [`parser`] holds the syntax tree, the grammar, and the parser.
//! - [`input`] says which lines of an interactive input belong together.
//! - [`text`] holds what both need of strings.

pub mod input;
pub mod lexer;
pub mod parser;
pub mod text;
