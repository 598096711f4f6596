//! A front end and evaluator for a small expression language: a lexer turns
//! source text into tokens, a recursive-descent parser assembles the tokens
//! into an expression tree, and a tree-walking evaluator reduces the tree to a
//! dynamically typed runtime value.

pub mod ast;
pub mod interpreter;
pub mod number;
pub mod parser;
pub mod roundtrip;
pub mod scanner;
pub mod token;
pub mod value;
pub mod visitor;
