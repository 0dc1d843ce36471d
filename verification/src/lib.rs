//! A small expression language: a scanner turns source text into tokens, a
//! recursive-descent parser builds an expression tree, and a tree-walking
//! interpreter evaluates it to a literal value.  Two printers render a tree
//! in parenthesized-prefix form and in reverse-Polish form.

pub mod ast;
pub mod exception;
pub mod interpreter;
pub mod numerals;
pub mod parser;
pub mod scanner;
pub mod token;
