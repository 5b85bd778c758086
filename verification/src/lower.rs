//! Syntax-directed lowering of the abstract syntax tree into target text.
//!
//! Expression lowering turns one source expression into one self-contained
//! Rust expression; statement lowering composes it into statements and
//! blocks; program assembly orders lowered definitions before a synthesized
//! entry point and prepends the runtime value type's definition. Every pass
//! is a pure tree walk with no shared state.

use vstd::prelude::*;

use crate::ast::Block;
use crate::ast::Expr;
use crate::ast::Stmt;
use crate::numfmt::int_text;
use crate::numfmt::int_to_string;

verus! {

/// The text an expression lowers to: one syntactically self-contained
/// target-language expression with no trailing terminator.
///
/// String and integer literals become construction syntax for the matching
/// runtime tag, identifiers are emitted verbatim, the three binary
/// operations duplicate each operand before combining (the host language
/// would otherwise move a value its enclosing expression still needs), and
/// a call joins its lowered arguments with commas in source order.
///
/// A string literal's text stands verbatim between the quotes of the
/// emitted host literal: the front-end grammar has no escape sequences and
/// admits no quote or backslash inside a string literal, a guarantee the
/// backend assumes without re-validating.
pub open spec fn lower_expr(e: Expr) -> Seq<char>
    decreases e, 0nat,
{
    match e {
        Expr::Str { s } => "Object::String(String::from(\""@ + s@ + "\"))"@,
        Expr::Int { i } => "Object::Int("@ + int_text(i as int) + ")"@,
        Expr::Ident { n } => n@,
        Expr::Call { n, args } => lower_expr(*n) + "("@ + lower_args(args@) + ")"@,
        Expr::LessThan { lhs, rhs } => lower_expr(*lhs) + ".clone() < "@ + lower_expr(*rhs)
            + ".clone()"@,
        Expr::Add { lhs, rhs } => lower_expr(*lhs) + ".clone() + "@ + lower_expr(*rhs)
            + ".clone()"@,
        Expr::Sub { lhs, rhs } => lower_expr(*lhs) + ".clone() - "@ + lower_expr(*rhs)
            + ".clone()"@,
    }
}

/// The comma-joined text of a lowered argument list, in source order.
pub open spec fn lower_args(es: Seq<Expr>) -> Seq<char>
    decreases es, 1nat,
{
    if es.len() == 0 {
        Seq::empty()
    } else if es.len() == 1 {
        lower_expr(es[0])
    } else {
        lower_expr(es[0]) + ", "@ + lower_args(es.drop_first())
    }
}

/// Lowers one expression to target text.
///
/// Lowering is a pure function of the node: the result is exactly
/// [`lower_expr`] of the input.
pub fn compile_expr(e: &Expr) -> (r: String)
    ensures
        r@ == lower_expr(*e),
    decreases *e, 0nat,
{
    match e {
        Expr::Str { s } => {
            let mut r = String::from_str("Object::String(String::from(\"");
            r.append(s.as_str());
            r.append("\"))");
            proof {
                assert(r@ =~= lower_expr(*e));
            }
            r
        },
        Expr::Int { i } => {
            let mut r = String::from_str("Object::Int(");
            let t = int_to_string(*i);
            r.append(t.as_str());
            r.append(")");
            proof {
                assert(r@ =~= lower_expr(*e));
            }
            r
        },
        Expr::Ident { n } => n.clone(),
        Expr::Call { n, args } => {
            let mut r = compile_expr(&**n);
            r.append("(");
            let a = compile_args(args, 0);
            r.append(a.as_str());
            r.append(")");
            proof {
                assert(args@.skip(0) =~= args@);
                assert(r@ =~= lower_expr(*e));
            }
            r
        },
        Expr::LessThan { lhs, rhs } => {
            let mut r = compile_expr(&**lhs);
            r.append(".clone() < ");
            let t = compile_expr(&**rhs);
            r.append(t.as_str());
            r.append(".clone()");
            proof {
                assert(r@ =~= lower_expr(*e));
            }
            r
        },
        Expr::Add { lhs, rhs } => {
            let mut r = compile_expr(&**lhs);
            r.append(".clone() + ");
            let t = compile_expr(&**rhs);
            r.append(t.as_str());
            r.append(".clone()");
            proof {
                assert(r@ =~= lower_expr(*e));
            }
            r
        },
        Expr::Sub { lhs, rhs } => {
            let mut r = compile_expr(&**lhs);
            r.append(".clone() - ");
            let t = compile_expr(&**rhs);
            r.append(t.as_str());
            r.append(".clone()");
            proof {
                assert(r@ =~= lower_expr(*e));
            }
            r
        },
    }
}

/// A node the lowering rules do not cover, as the value found in the tree.
pub enum UnsupportedNode {
    /// A statement whose variant has no lowering rule at its position: a
    /// `Print`, or a `Def` inside a block (the backend's subset has no
    /// nested functions).
    Stmt(Stmt),
    /// A `Def` parameter that is not a bare identifier.
    Param(Expr),
}

/// An unsupported-construct failure: fatal, aborting the whole translation
/// and carrying a reference to the offending node for the report.
#[derive(Debug)]
pub enum CompileError<'a> {
    /// A statement whose variant has no lowering rule at its position.
    UnsupportedStmt { stmt: &'a Stmt },
    /// A `Def` parameter that is not a bare identifier.
    UnsupportedParam { param: &'a Expr },
}

/// Whether the reported error points at exactly the offending node.
pub open spec fn error_reports<'a>(e: CompileError<'a>, o: UnsupportedNode) -> bool {
    match (e, o) {
        (CompileError::UnsupportedStmt { stmt }, UnsupportedNode::Stmt(s)) => *stmt == s,
        (CompileError::UnsupportedParam { param }, UnsupportedNode::Param(p)) => *param == p,
        _ => false,
    }
}

/// Whether a translation result agrees with its specified lowering: the
/// same text on success, a report of the same offending node on failure.
pub open spec fn matches_lowering<'a>(
    r: Result<String, CompileError<'a>>,
    l: Result<Seq<char>, UnsupportedNode>,
) -> bool {
    match (r, l) {
        (Ok(t), Ok(u)) => t@ == u,
        (Err(e), Err(o)) => error_reports(e, o),
        _ => false,
    }
}

/// Concatenates two lowering results; the first failure wins.
pub open spec fn concat_results(
    a: Result<Seq<char>, UnsupportedNode>,
    b: Result<Seq<char>, UnsupportedNode>,
) -> Result<Seq<char>, UnsupportedNode> {
    match (a, b) {
        (Ok(x), Ok(y)) => Ok(x + y),
        (Err(o), _) => Err(o),
        (Ok(_), Err(o)) => Err(o),
    }
}

/// The text a statement inside a block (or a non-`Def` top-level statement)
/// lowers to, or the offending node where no rule covers it.
///
/// A conditional becomes an `if` over the lowered guard and block; a bare
/// expression becomes a terminated standalone statement, its value
/// discarded by the host language's statement rules; a return is
/// explicitly terminated. `Print` has no lowering rule, and a `Def` may
/// not stand inside a block: the subset has no nested functions.
pub open spec fn lower_inner_stmt(s: Stmt) -> Result<Seq<char>, UnsupportedNode>
    decreases s, 0nat,
{
    match s {
        Stmt::If { cond, then_block } => match lower_block(then_block@) {
            Ok(b) => Ok("if "@ + lower_expr(cond) + "{\n"@ + b + "\n}"@),
            Err(o) => Err(o),
        },
        Stmt::Expr { expr } => Ok(lower_expr(expr) + ";"@),
        Stmt::Return { expr } => Ok("return "@ + lower_expr(expr) + ";"@),
        Stmt::Print { .. } => Err(UnsupportedNode::Stmt(s)),
        Stmt::Def { .. } => Err(UnsupportedNode::Stmt(s)),
    }
}

/// The concatenated lowering of a block's statements, in source order; the
/// first statement with no lowering rule aborts the block.
pub open spec fn lower_block(b: Seq<Stmt>) -> Result<Seq<char>, UnsupportedNode>
    decreases b, 1nat,
{
    if b.len() == 0 {
        Ok(Seq::empty())
    } else {
        concat_results(lower_inner_stmt(b[0]), lower_block(b.drop_first()))
    }
}

/// The comma-joined parameter list of a definition: each parameter must be
/// a bare identifier, emitted as a name typed as the runtime value type.
pub open spec fn lower_params(ps: Seq<Expr>) -> Result<Seq<char>, UnsupportedNode>
    decreases ps, 0nat,
{
    if ps.len() == 0 {
        Ok(Seq::empty())
    } else {
        match ps[0] {
            Expr::Ident { n } => {
                if ps.len() == 1 {
                    Ok(n@ + ": Object"@)
                } else {
                    match lower_params(ps.drop_first()) {
                        Ok(rest) => Ok(n@ + ": Object"@ + ", "@ + rest),
                        Err(o) => Err(o),
                    }
                }
            },
            _ => Err(UnsupportedNode::Param(ps[0])),
        }
    }
}

/// The text a top-level statement lowers to. A `Def` becomes a function
/// definition whose parameters and declared return are typed as the runtime
/// value type; any other statement lowers by [`lower_inner_stmt`].
pub open spec fn lower_stmt(s: Stmt) -> Result<Seq<char>, UnsupportedNode>
    decreases s, 1nat,
{
    match s {
        Stmt::Def { name, params, body } => match lower_params(params@) {
            Ok(ps) => match lower_block(body@) {
                Ok(b) => Ok(
                    "fn "@ + name@ + "("@ + ps + ") -> Object {\n"@ + b + "\n}"@,
                ),
                Err(o) => Err(o),
            },
            Err(o) => Err(o),
        },
        _ => lower_inner_stmt(s),
    }
}

/// Lowers one statement inside a block, where definitions may not stand.
fn compile_inner_statement<'a>(s: &'a Stmt) -> (r: Result<String, CompileError<'a>>)
    ensures
        matches_lowering(r, lower_inner_stmt(*s)),
    decreases *s, 0nat,
{
    match s {
        Stmt::If { cond, then_block } => {
            let mut t = String::from_str("if ");
            let c = compile_expr(cond);
            t.append(c.as_str());
            t.append("{\n");
            match compile_block_from(then_block, 0) {
                Ok(b) => {
                    t.append(b.as_str());
                    t.append("\n}");
                    proof {
                        assert(then_block@.skip(0) =~= then_block@);
                        assert(t@ =~= lower_inner_stmt(*s)->Ok_0);
                    }
                    Ok(t)
                },
                Err(e) => {
                    proof {
                        assert(then_block@.skip(0) =~= then_block@);
                    }
                    Err(e)
                },
            }
        },
        Stmt::Expr { expr } => {
            let mut t = compile_expr(expr);
            t.append(";");
            proof {
                assert(t@ =~= lower_inner_stmt(*s)->Ok_0);
            }
            Ok(t)
        },
        Stmt::Return { expr } => {
            let mut t = String::from_str("return ");
            let x = compile_expr(expr);
            t.append(x.as_str());
            t.append(";");
            proof {
                assert(t@ =~= lower_inner_stmt(*s)->Ok_0);
            }
            Ok(t)
        },
        Stmt::Print { .. } => Err(CompileError::UnsupportedStmt { stmt: s }),
        Stmt::Def { .. } => Err(CompileError::UnsupportedStmt { stmt: s }),
    }
}

/// Lowers a block from position `from` on, concatenating in source order.
fn compile_block_from<'a>(b: &'a Vec<Stmt>, from: usize) -> (r: Result<
    String,
    CompileError<'a>,
>)
    requires
        from <= b@.len(),
    ensures
        matches_lowering(r, lower_block(b@.skip(from as int))),
    decreases b@, b@.len() - from + 2,
{
    if from >= b.len() {
        proof {
            assert(b@.skip(from as int) =~= Seq::<Stmt>::empty());
        }
        Ok(String::new())
    } else {
        proof {
            assert(b@.skip(from as int)[0] == b@[from as int]);
            assert(b@.skip(from as int).drop_first() =~= b@.skip(from as int + 1));
        }
        match compile_inner_statement(&b[from]) {
            Err(e) => Err(e),
            Ok(mut t) => {
                match compile_block_from(b, from + 1) {
                    Err(e) => Err(e),
                    Ok(rest) => {
                        t.append(rest.as_str());
                        Ok(t)
                    },
                }
            },
        }
    }
}

/// Lowers a definition's parameter list from position `from` on.
fn compile_params<'a>(ps: &'a Vec<Expr>, from: usize) -> (r: Result<String, CompileError<'a>>)
    requires
        from <= ps@.len(),
    ensures
        matches_lowering(r, lower_params(ps@.skip(from as int))),
    decreases ps@.len() - from,
{
    if from >= ps.len() {
        proof {
            assert(ps@.skip(from as int) =~= Seq::<Expr>::empty());
        }
        Ok(String::new())
    } else {
        proof {
            assert(ps@.skip(from as int)[0] == ps@[from as int]);
            assert(ps@.skip(from as int).drop_first() =~= ps@.skip(from as int + 1));
        }
        match &ps[from] {
            Expr::Ident { n } => {
                let mut t = n.clone();
                t.append(": Object");
                if from + 1 < ps.len() {
                    match compile_params(ps, from + 1) {
                        Ok(rest) => {
                            t.append(", ");
                            t.append(rest.as_str());
                            proof {
                                assert(t@ =~= lower_params(ps@.skip(from as int))->Ok_0);
                            }
                            Ok(t)
                        },
                        Err(e) => Err(e),
                    }
                } else {
                    Ok(t)
                }
            },
            _ => Err(CompileError::UnsupportedParam { param: &ps[from] }),
        }
    }
}

/// Lowers one top-level statement: a function definition for a `Def`, and
/// the block-statement lowering for anything else.
///
/// Succeeds exactly when [`lower_stmt`] does, with exactly its text; on
/// failure the error points at the first offending node, in source order.
pub fn compile_statement<'a>(s: &'a Stmt) -> (r: Result<String, CompileError<'a>>)
    ensures
        matches_lowering(r, lower_stmt(*s)),
    decreases *s, 1nat,
{
    match s {
        Stmt::Def { name, params, body } => {
            let mut t = String::from_str("fn ");
            t.append(name.as_str());
            t.append("(");
            proof {
                assert(params@.skip(0) =~= params@);
                assert(body@.skip(0) =~= body@);
            }
            match compile_params(params, 0) {
                Err(e) => Err(e),
                Ok(p) => {
                    t.append(p.as_str());
                    t.append(") -> Object {\n");
                    match compile_block_from(body, 0) {
                        Err(e) => Err(e),
                        Ok(b) => {
                            t.append(b.as_str());
                            t.append("\n}");
                            proof {
                                assert(t@ =~= lower_stmt(*s)->Ok_0);
                            }
                            Ok(t)
                        },
                    }
                },
            }
        },
        _ => compile_inner_statement(s),
    }
}

/// Lowers a whole block: the concatenation of its statements' lowerings,
/// in source order, aborted by the first statement no rule covers.
pub fn compile_block<'a>(block: &'a Block) -> (r: Result<String, CompileError<'a>>)
    ensures
        matches_lowering(r, lower_block(block@)),
{
    let r = compile_block_from(block, 0);
    proof {
        assert(block@.skip(0) =~= block@);
    }
    r
}

/// Lowers the argument list from position `from` on, comma-joined.
fn compile_args(args: &Vec<Expr>, from: usize) -> (r: String)
    requires
        from <= args@.len(),
    ensures
        r@ == lower_args(args@.skip(from as int)),
    decreases args@, args@.len() - from + 2,
{
    if from >= args.len() {
        proof {
            assert(args@.skip(from as int) =~= Seq::<Expr>::empty());
        }
        String::new()
    } else {
        let mut r = compile_expr(&args[from]);
        if from + 1 < args.len() {
            r.append(", ");
            let rest = compile_args(args, from + 1);
            r.append(rest.as_str());
        }
        proof {
            let s = args@.skip(from as int);
            assert(s[0] == args@[from as int]);
            assert(s.drop_first() =~= args@.skip(from as int + 1));
            assert(r@ =~= lower_args(s));
        }
        r
    }
}

/// The runtime value type's definition, emitted verbatim at the head of
/// every translated program. Generated code relies on its operator syntax
/// for comparison, addition and subtraction, on its value duplication, and
/// on its stringification; every operation outside the defined tag pairings
/// aborts the generated program's run.
pub const OBJECT_PRELUDE: &'static str = "use std::cmp::{PartialOrd, Ordering};
use std::fmt::Display;
use std::ops::{Add, Sub};

#[derive(PartialEq, Clone)]
enum Object {
    String(String),
    Int(i64),
    Bool(bool),
}

impl PartialOrd for Object {
    fn partial_cmp(&self, other: &Self) -> Option<Ordering> {
        match (self, other) {
            (Self::Int(a), Self::Int(b)) => a.partial_cmp(b),
            _ => unreachable!(\"Unimplemented partial_cmp handling.\"),
        }
    }
}

impl Sub for Object {
    type Output = Self;

    fn sub(self, rhs: Self) -> Self::Output {
        match (self, rhs) {
            (Self::Int(a), Self::Int(b)) => Self::Int(a - b),
            _ => unreachable!(\"Unimplemented sub operation.\"),
        }
    }
}

impl Add for Object {
    type Output = Self;

    fn add(self, rhs: Self) -> Self::Output {
        match (self, rhs) {
            (Self::Int(a), Self::Int(b)) => Self::Int(a + b),
            _ => unreachable!(\"Unimplemented add operation.\"),
        }
    }
}

impl Display for Object {
    fn fmt(&self, f: &mut std::fmt::Formatter<'_>) -> std::fmt::Result {
        write!(f, \"{}\", match self {
            Self::Int(n) => n.to_string(),
            _ => unreachable!(\"Unimplemented display logic.\"),
        })
    }
}
";

/// The text of the static runtime module that program assembly prepends.
pub open spec fn prelude_text() -> Seq<char> {
    OBJECT_PRELUDE@
}

/// Opens a translation: the text every translated program starts with.
pub fn start_compiler() -> (s: String)
    ensures
        s@ == prelude_text(),
{
    String::from_str(OBJECT_PRELUDE)
}

/// The concatenated lowering of the `Def` statements of a top-level
/// sequence, keeping their relative order and skipping everything else.
pub open spec fn lower_defs(ss: Seq<Stmt>) -> Result<Seq<char>, UnsupportedNode>
    decreases ss,
{
    if ss.len() == 0 {
        Ok(Seq::empty())
    } else if ss[0] is Def {
        concat_results(lower_stmt(ss[0]), lower_defs(ss.drop_first()))
    } else {
        lower_defs(ss.drop_first())
    }
}

/// The concatenated lowering of the non-`Def` statements of a top-level
/// sequence, keeping their relative order and skipping the definitions.
pub open spec fn lower_main_stmts(ss: Seq<Stmt>) -> Result<Seq<char>, UnsupportedNode>
    decreases ss,
{
    if ss.len() == 0 {
        Ok(Seq::empty())
    } else if ss[0] is Def {
        lower_main_stmts(ss.drop_first())
    } else {
        concat_results(lower_inner_stmt(ss[0]), lower_main_stmts(ss.drop_first()))
    }
}

/// The complete unit of target text a program lowers to: the runtime value
/// type's definition, then every lowered definition, then a synthesized
/// entry point holding every lowered non-`Def` statement.
///
/// Definitions and top-level code may be interleaved in the source; the
/// assembly deliberately reorders them into "all definitions, then all
/// top-level code", preserving relative order within each part. The first
/// offending node among the definitions aborts the translation before any
/// among the entry-point statements is reported.
pub open spec fn lower_program(ss: Seq<Stmt>) -> Result<Seq<char>, UnsupportedNode> {
    match lower_defs(ss) {
        Ok(d) => match lower_main_stmts(ss) {
            Ok(m) => Ok(prelude_text() + d + "\n\nfn main() {\n"@ + m + "\n}"@),
            Err(o) => Err(o),
        },
        Err(o) => Err(o),
    }
}

/// Prepends already-lowered text to a lowering result.
spec fn prepend_result(p: Seq<char>, r: Result<Seq<char>, UnsupportedNode>) -> Result<
    Seq<char>,
    UnsupportedNode,
> {
    match r {
        Ok(t) => Ok(p + t),
        Err(o) => Err(o),
    }
}

proof fn lemma_prepend_twice(p: Seq<char>, q: Seq<char>, r: Result<Seq<char>, UnsupportedNode>)
    ensures
        prepend_result(p, prepend_result(q, r)) == prepend_result(p + q, r),
{
    match r {
        Ok(t) => {
            assert(p + (q + t) =~= (p + q) + t);
        },
        Err(o) => {},
    }
}

/// Assembles one complete, compilable unit of target text from the full
/// top-level statement sequence, or reports the first offending node.
///
/// Succeeds exactly when [`lower_program`] does, with exactly its text.
pub fn compile_program<'a>(program: &'a Vec<Stmt>) -> (r: Result<String, CompileError<'a>>)
    ensures
        matches_lowering(r, lower_program(program@)),
{
    let ghost ss = program@;
    proof {
        assert(ss.skip(0) =~= ss);
        match lower_defs(ss) {
            Ok(t) => {
                assert(Seq::<char>::empty() + t =~= t);
            },
            Err(o) => {},
        }
    }
    let mut defs = String::new();
    let mut i: usize = 0;
    while i < program.len()
        invariant
            i <= ss.len(),
            program@ == ss,
            lower_defs(ss) == prepend_result(defs@, lower_defs(ss.skip(i as int))),
        decreases ss.len() - i,
    {
        proof {
            assert(ss.skip(i as int)[0] == ss[i as int]);
            assert(ss.skip(i as int).drop_first() =~= ss.skip(i as int + 1));
        }
        match &program[i] {
            Stmt::Def { .. } => {
                match compile_statement(&program[i]) {
                    Ok(t) => {
                        proof {
                            lemma_prepend_twice(defs@, t@, lower_defs(ss.skip(i as int + 1)));
                        }
                        defs.append(t.as_str());
                    },
                    Err(e) => {
                        return Err(e);
                    },
                }
            },
            _ => {},
        }
        i = i + 1;
    }
    proof {
        assert(ss.skip(ss.len() as int) =~= Seq::<Stmt>::empty());
        assert(defs@ + Seq::<char>::empty() =~= defs@);
        assert(lower_defs(ss) == Ok::<Seq<char>, UnsupportedNode>(defs@));
    }
    proof {
        assert(ss.skip(0) =~= ss);
        match lower_main_stmts(ss) {
            Ok(t) => {
                assert(Seq::<char>::empty() + t =~= t);
            },
            Err(o) => {},
        }
    }
    let mut body = String::new();
    let mut j: usize = 0;
    while j < program.len()
        invariant
            j <= ss.len(),
            program@ == ss,
            lower_defs(ss) == Ok::<Seq<char>, UnsupportedNode>(defs@),
            lower_main_stmts(ss) == prepend_result(body@, lower_main_stmts(ss.skip(j as int))),
        decreases ss.len() - j,
    {
        proof {
            assert(ss.skip(j as int)[0] == ss[j as int]);
            assert(ss.skip(j as int).drop_first() =~= ss.skip(j as int + 1));
        }
        match &program[j] {
            Stmt::Def { .. } => {},
            _ => {
                match compile_inner_statement(&program[j]) {
                    Ok(t) => {
                        proof {
                            lemma_prepend_twice(
                                body@,
                                t@,
                                lower_main_stmts(ss.skip(j as int + 1)),
                            );
                        }
                        body.append(t.as_str());
                    },
                    Err(e) => {
                        return Err(e);
                    },
                }
            },
        }
        j = j + 1;
    }
    proof {
        assert(ss.skip(ss.len() as int) =~= Seq::<Stmt>::empty());
        assert(body@ + Seq::<char>::empty() =~= body@);
        assert(lower_main_stmts(ss) == Ok::<Seq<char>, UnsupportedNode>(body@));
    }
    let mut out = start_compiler();
    out.append(defs.as_str());
    out.append("\n\nfn main() {\n");
    out.append(body.as_str());
    out.append("\n}");
    proof {
        assert(out@ =~= lower_program(ss)->Ok_0);
    }
    Ok(out)
}

/// The non-`Def` statements of a top-level sequence, in their original
/// relative order.
pub open spec fn non_defs(ss: Seq<Stmt>) -> Seq<Stmt>
    decreases ss,
{
    if ss.len() == 0 {
        Seq::empty()
    } else if ss[0] is Def {
        non_defs(ss.drop_first())
    } else {
        seq![ss[0]] + non_defs(ss.drop_first())
    }
}

/// Order preservation: the synthesized entry point lowers the non-`Def`
/// top-level statements exactly as a block holding them in their original
/// relative order, however the definitions are interleaved among them.
pub proof fn lemma_order_preservation(ss: Seq<Stmt>)
    ensures
        lower_main_stmts(ss) == lower_block(non_defs(ss)),
    decreases ss,
{
    if ss.len() == 0 {
        assert(non_defs(ss) =~= Seq::<Stmt>::empty());
    } else {
        lemma_order_preservation(ss.drop_first());
        if ss[0] is Def {
        } else {
            let nd = non_defs(ss);
            assert(nd[0] == ss[0]);
            assert(nd.drop_first() =~= non_defs(ss.drop_first()));
        }
    }
}

/// The given sequence with the elements at `i` and `i + 1` transposed.
pub open spec fn swap_adjacent(ss: Seq<Stmt>, i: int) -> Seq<Stmt>
    recommends
        0 <= i,
        i + 1 < ss.len(),
{
    ss.update(i, ss[i + 1]).update(i + 1, ss[i])
}

/// Transposing two adjacent definitions leaves the non-`Def` subsequence
/// untouched.
proof fn lemma_non_defs_swap(ss: Seq<Stmt>, i: int)
    requires
        0 <= i,
        i + 1 < ss.len(),
        ss[i] is Def,
        ss[i + 1] is Def,
    ensures
        non_defs(swap_adjacent(ss, i)) == non_defs(ss),
    decreases i,
{
    let sw = swap_adjacent(ss, i);
    assert(sw.len() == ss.len());
    if i == 0 {
        assert(sw[0] == ss[1] && sw[1] == ss[0]);
        assert(sw.drop_first()[0] == sw[1]);
        assert(ss.drop_first()[0] == ss[1]);
        assert(sw.drop_first().drop_first() =~= ss.skip(2));
        assert(ss.drop_first().drop_first() =~= ss.skip(2));
        assert(non_defs(sw) == non_defs(sw.drop_first()));
        assert(non_defs(sw.drop_first()) == non_defs(ss.skip(2)));
        assert(non_defs(ss) == non_defs(ss.drop_first()));
        assert(non_defs(ss.drop_first()) == non_defs(ss.skip(2)));
    } else {
        assert(sw.drop_first() =~= swap_adjacent(ss.drop_first(), i - 1));
        lemma_non_defs_swap(ss.drop_first(), i - 1);
        assert(sw[0] == ss[0]);
        assert(non_defs(sw.drop_first()) == non_defs(ss.drop_first()));
    }
}

proof fn lemma_concat_results_assoc(
    x: Result<Seq<char>, UnsupportedNode>,
    y: Result<Seq<char>, UnsupportedNode>,
    z: Result<Seq<char>, UnsupportedNode>,
)
    ensures
        concat_results(x, concat_results(y, z)) == concat_results(concat_results(x, y), z),
{
    match (x, y, z) {
        (Ok(a), Ok(b), Ok(c)) => {
            assert(a + (b + c) =~= (a + b) + c);
        },
        _ => {},
    }
}

proof fn lemma_concat_ok_empty(r: Result<Seq<char>, UnsupportedNode>)
    ensures
        concat_results(r, Ok(Seq::<char>::empty())) == r,
{
    match r {
        Ok(t) => {
            assert(t + Seq::<char>::empty() =~= t);
        },
        Err(o) => {},
    }
}

/// The definitions of a concatenation lower as the definitions of the two
/// halves, one after the other; an offending node in the first half wins.
pub proof fn lemma_lower_defs_concat(a: Seq<Stmt>, b: Seq<Stmt>)
    ensures
        lower_defs(a + b) == concat_results(lower_defs(a), lower_defs(b)),
    decreases a,
{
    if a.len() == 0 {
        assert(a + b =~= b);
        match lower_defs(b) {
            Ok(t) => {
                assert(Seq::<char>::empty() + t =~= t);
            },
            Err(o) => {},
        }
    } else {
        assert((a + b)[0] == a[0]);
        assert((a + b).drop_first() =~= a.drop_first() + b);
        lemma_lower_defs_concat(a.drop_first(), b);
        if a[0] is Def {
            lemma_concat_results_assoc(
                lower_stmt(a[0]),
                lower_defs(a.drop_first()),
                lower_defs(b),
            );
        }
    }
}

/// The lowering of a one-definition sequence is the definition's lowering.
proof fn lemma_lower_defs_single(s: Stmt)
    requires
        s is Def,
    ensures
        lower_defs(seq![s]) == lower_stmt(s),
{
    assert(seq![s].len() == 1);
    assert(seq![s][0] == s);
    assert(seq![s].drop_first() =~= Seq::<Stmt>::empty());
    assert(lower_defs(Seq::<Stmt>::empty()) == Ok::<Seq<char>, UnsupportedNode>(
        Seq::<char>::empty(),
    ));
    lemma_concat_ok_empty(lower_stmt(s));
}

/// Idempotence of assembly ordering: reordering two adjacent `Def`
/// statements changes nothing of the lowered entry-point text; among the
/// lowered definitions, only those two trade places.
pub proof fn lemma_adjacent_defs_reorder(ss: Seq<Stmt>, i: int)
    requires
        0 <= i,
        i + 1 < ss.len(),
        ss[i] is Def,
        ss[i + 1] is Def,
    ensures
        lower_main_stmts(swap_adjacent(ss, i)) == lower_main_stmts(ss),
        lower_defs(ss) == concat_results(
            lower_defs(ss.take(i)),
            concat_results(
                concat_results(lower_stmt(ss[i]), lower_stmt(ss[i + 1])),
                lower_defs(ss.skip(i + 2)),
            ),
        ),
        lower_defs(swap_adjacent(ss, i)) == concat_results(
            lower_defs(ss.take(i)),
            concat_results(
                concat_results(lower_stmt(ss[i + 1]), lower_stmt(ss[i])),
                lower_defs(ss.skip(i + 2)),
            ),
        ),
{
    lemma_order_preservation(ss);
    lemma_order_preservation(swap_adjacent(ss, i));
    lemma_non_defs_swap(ss, i);
    let sw = swap_adjacent(ss, i);
    assert(ss =~= ss.take(i) + (seq![ss[i]] + (seq![ss[i + 1]] + ss.skip(i + 2))));
    assert(sw =~= ss.take(i) + (seq![ss[i + 1]] + (seq![ss[i]] + ss.skip(i + 2))));
    lemma_defs_decomposition(ss.take(i), ss[i], ss[i + 1], ss.skip(i + 2));
    lemma_defs_decomposition(ss.take(i), ss[i + 1], ss[i], ss.skip(i + 2));
}

/// Spells out `lower_defs` of "a prefix, two definitions, a suffix".
proof fn lemma_defs_decomposition(p: Seq<Stmt>, s1: Stmt, s2: Stmt, q: Seq<Stmt>)
    requires
        s1 is Def,
        s2 is Def,
    ensures
        lower_defs(p + (seq![s1] + (seq![s2] + q))) == concat_results(
            lower_defs(p),
            concat_results(concat_results(lower_stmt(s1), lower_stmt(s2)), lower_defs(q)),
        ),
{
    lemma_lower_defs_concat(p, seq![s1] + (seq![s2] + q));
    lemma_lower_defs_concat(seq![s1], seq![s2] + q);
    lemma_lower_defs_concat(seq![s2], q);
    lemma_lower_defs_single(s1);
    lemma_lower_defs_single(s2);
    lemma_concat_results_assoc(lower_stmt(s1), lower_stmt(s2), lower_defs(q));
}

} // verus!
