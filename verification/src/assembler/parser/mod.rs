//! The parser of the assembly language: from text to a tree of
//! instructions over registers, literals, addresses and expressions.
//!
//! Each part of the grammar is a function from a text and a place in it to
//! the place behind what was read and its value, or to the place of the
//! failure and what was looked for there. The functions that parse do what
//! these say.

pub mod ast;
pub mod error;
pub mod scan;
pub mod types;
pub mod expressions;
pub mod instructions;
