//! Front end of a small language that describes cloud compute deployments:
//! a scanner that turns source text into tokens, a recursive-descent parser
//! that builds a syntax tree, and a resolver that turns the tree into a
//! validated symbol table.
pub mod actions;
pub mod display;
pub mod laws;
pub mod lex;
pub mod nodes;
pub mod number;
pub mod parser;
pub mod pipeline;
pub mod report;
pub mod stack;
pub mod symbols;
