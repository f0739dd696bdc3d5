pub mod ast;
pub mod error;
pub mod grammar;
pub mod interpreter;
pub mod number;
pub mod parser;
pub mod scanner;
pub mod text;
pub mod token;
pub mod types;
