//! Translation backend for a small expression-oriented source language.
//!
//! The front-end parser hands this crate an abstract syntax tree
//! ([`ast::Stmt`], [`ast::Expr`]); the backend lowers it to a complete unit
//! of Rust source text whose generated code works over a dynamically tagged
//! value type ([`runtime::Object`]), prepended verbatim to every translated
//! program.

pub mod ast;
pub mod lower;
pub mod numfmt;
pub mod runtime;
