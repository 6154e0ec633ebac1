//! A front end and execution engine for a small robot-control language: a
//! tokenizer, a recursive-descent parser that resolves names to stack slots, and a
//! stepwise evaluator of the resulting syntax tree.
//!
//! Source text goes through [`lexer::parse`] to tokens, through
//! [`parser::parse_tokens`] to a [`program::Program`], and a routine of one of its
//! modules runs on a [`machine::Machine`].
//!
//! Numbers are double-precision values that the library carries as bit patterns
//! and never computes with. The host of the library reads the numeric literals,
//! does the arithmetic that the machine asks for, and puts out what the machine
//! hands it to write.
pub mod token;
pub mod lexer;
pub mod value;
pub mod ast;
pub mod program;
pub mod parser;
pub mod slots;
pub mod shape;
pub mod machine;
pub mod course;
pub mod safety;
