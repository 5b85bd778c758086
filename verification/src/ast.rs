//! The abstract syntax tree handed over by the front-end parser.
//!
//! Pure data with no behavior: the backend borrows a tree of these nodes
//! read-only and produces an independent text artifact.

use vstd::prelude::*;

verus! {

/// An ordered statement sequence, as held by `If` and `Def` bodies.
pub type Block = Vec<Stmt>;

/// A statement of the source language.
///
/// A well-formed program is an ordered sequence of statements; nesting
/// happens only through the blocks held inside `If` and `Def`.
#[derive(Debug)]
pub enum Stmt {
    /// A conditional with a guard expression and a body block; the source
    /// language has no `else` branch.
    If { cond: Expr, then_block: Block },
    /// A bare expression evaluated for effect, its value discarded.
    Expr { expr: Expr },
    /// A return of the given expression from the enclosing definition.
    Return { expr: Expr },
    /// A print statement. The parser can produce it, but the lowering rules
    /// do not cover it: translating it is an unsupported-construct failure.
    Print { expr: Expr },
    /// A function definition with a name, an ordered parameter list and a
    /// body block. Parameters are modeled as arbitrary expressions by the
    /// grammar, but only `Ident` parameters can be lowered.
    Def { name: String, params: Vec<Expr>, body: Block },
}

/// An expression of the source language.
#[derive(Debug)]
pub enum Expr {
    /// A string literal. The grammar has no escape sequences and admits no
    /// quote or backslash inside a literal, so the text may stand verbatim
    /// inside an emitted host string literal.
    Str { s: String },
    /// An integer literal.
    Int { i: i64 },
    /// A call of a callee expression on an ordered argument list.
    Call { n: Box<Expr>, args: Vec<Expr> },
    /// A free-standing name, resolved by the host language after translation.
    Ident { n: String },
    /// An ordering comparison of two operands.
    LessThan { lhs: Box<Expr>, rhs: Box<Expr> },
    /// An addition of two operands.
    Add { lhs: Box<Expr>, rhs: Box<Expr> },
    /// A subtraction of two operands.
    Sub { lhs: Box<Expr>, rhs: Box<Expr> },
}

} // verus!
