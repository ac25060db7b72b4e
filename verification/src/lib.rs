//! A tree-walking interpreter for a small dynamically typed scripting
//! language: lexer, Pratt parser, syntax tree, and evaluator with lexical
//! closures. Every function carries a contract over a mathematical model of
//! its data, and the laws of the language are proved from those models.
//!
//! The pipeline runs from text to value:
//!
//! * [`lexer`] turns text into [`token`]s;
//! * [`parser`] reads tokens into the syntax tree of [`ast`], as the
//!   [`grammar`] states it ([`progress`] shows that the grammar never
//!   stalls);
//! * [`evaluator`] computes the value of a tree, an [`object`], in an
//!   environment of [`scope`]s, as [`semantics`] states it, with the native
//!   functions of [`builtin`] and the integer arithmetic of [`arith`];
//! * [`fmt`] lays a tree out as source text again.
//!
//! [`laws`] holds what follows for every program: how division rounds, what
//! double negation gives, which operator takes an operand, that a call sees
//! the scope its function was made in.
pub mod text;
pub mod operator;
pub mod precedence;
pub mod token;
pub mod lexer;
pub mod ast;
pub mod error;
pub mod grammar;
pub mod parser;
pub mod progress;
pub mod object;
pub mod scope;
pub mod builtin;
pub mod arith;
pub mod semantics;
pub mod evaluator;
pub mod fmt;
pub mod laws;
