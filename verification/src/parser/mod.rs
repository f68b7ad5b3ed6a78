pub mod errors;
pub mod grammar;
pub mod laws;
pub mod parser;
pub mod statements;
pub mod tree;
pub mod types;
