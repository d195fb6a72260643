//! The way back from trees to text, and the proof that the parser reads
//! what the printer writes: a tree that the parser has built is printed as
//! a text from which the parser builds the same tree.

pub mod text;
pub mod print;
pub mod words;
pub mod expressions;
pub mod formats;
pub mod instructions;
pub mod forms;
