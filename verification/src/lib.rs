//! The core of an interpreter for Lox, a small scripting language with
//! dynamic types, lexical scope and first-class functions.
//!
//! Source text runs through four stages:
//!
//! 1. the [`lexer`] turns text into tokens ([`tokens`]);
//! 2. the parser ([`parse`], by the rules of [`grammar`]) turns tokens
//!    into a syntax tree, stored in an arena ([`ast`]);
//! 3. the evaluator ([`interpreter`], by the rules of [`machine`]) runs
//!    the tree step by step, on values ([`val`], [`number`]) and
//!    environments ([`env`], [`cactus`]);
//! 4. what a run prints and reports goes to two sinks ([`output`],
//!    [`error`]); [`run`] says what a whole run writes.
//!
//! Beside them stand the older [`cursor`] over source text, and the
//! bytecode of a stack machine ([`bytecode`], [`vm`]).
//!
//! The core reads no file, writes to no stream and computes with no
//! floating-point unit: the embedder hands it text, takes its steps, and
//! supplies the numbers that it asks for.

pub mod ast;
pub mod bytecode;
pub mod cactus;
pub mod cursor;
pub mod env;
pub mod error;
pub mod grammar;
pub mod interpreter;
pub mod lexer;
pub mod machine;
pub mod number;
pub mod output;
pub mod parse;
pub mod run;
pub mod selection;
pub mod text;
pub mod tokens;
pub mod val;
pub mod vm;
