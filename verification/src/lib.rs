//! A front end and evaluator for the expressions of a small dynamically
//! typed language, with every function verified against a mathematical
//! statement of what it computes.
//!
//! - `scanner` turns source text into tokens; `lexing` says what the tokens
//!   of a text are.
//! - `parser` turns tokens into an expression of `ast`; `grammar` says what
//!   the parse of a sequence of tokens is, and `derivation` what makes an
//!   expression the parse of its tokens.
//! - `interpreter` evaluates an expression to a value of `object`;
//!   `semantics` says what the value of an expression is.
//! - `ast` also holds the printer that writes an expression in prefix form.
//! - `diagnostics` holds the errors of scanner and parser and the lines that
//!   report an error.
//! - `run` takes one source text through the three of them.
//! - `program` and `compiler` hold the syntax tree of whole programs and the
//!   evaluator of their expressions over integers.
//!
//! Numbers are 64-bit floating point numbers, kept as their IEEE 754
//! encoding (`number`). Sign, order and equality are computed on the
//! encoding. What has to be rounded is left to the caller: the scanner takes
//! the function that reads a number literal, the interpreter the function
//! that adds, subtracts, multiplies and divides, the printer the function
//! that writes a number. Each contract then speaks of every mathematical
//! function that the given function follows.
//!
//! The library prints nothing and keeps no state between calls: errors are
//! returned to the caller.

pub mod ast;
pub mod compiler;
pub mod derivation;
pub mod diagnostics;
pub mod grammar;
pub mod interpreter;
pub mod lexing;
pub mod number;
pub mod object;
pub mod parser;
pub mod program;
pub mod run;
pub mod runtime_error;
pub mod scanner;
pub mod semantics;
pub mod text;
pub mod token;
