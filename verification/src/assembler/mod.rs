//! The front end of the assembler.

pub mod parser;
pub mod printer;
