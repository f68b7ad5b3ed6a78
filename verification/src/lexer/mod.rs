pub mod laws;
pub mod lexer;
pub mod rules;
pub mod token;
