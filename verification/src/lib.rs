//! A small dynamically typed scripting language: scanner, parser, resolver and
//! evaluator, each stated over a mathematical model and proved against it.
//!
//! A program goes through four stages:
//!
//! - [`scanner::scan`] turns the text into tokens;
//! - [`parser::parse`] turns the tokens into statements;
//! - [`resolver::Resolver::resolve`] finds the slots of the local variables;
//! - [`interpreter::InterpreterContext::interpret`] runs the statements.
//!
//! What each stage computes is written down as functions on sequences and
//! other mathematical values: [`scanner::scan_spec`], [`parser::parse_spec`],
//! [`resolver::resolve_stmts_spec`] and [`semantics::exec_stmts_spec`]. The
//! evaluator writes nothing out itself: what `print` writes is gathered in the
//! state, for the caller to write it out.

pub mod text;
pub mod number;
pub mod token;
pub mod scanner;
pub mod lexemes;
pub mod expr;
pub mod stmt;
pub mod parser;
pub mod environment;
pub mod eval_value;
pub mod resolver;
pub mod semantics;
pub mod interpreter;
