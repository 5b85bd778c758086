//! Program assembly: the prepended runtime module, the definitions-first
//! ordering, the synthesized entry point, and the order kept among the
//! non-definition statements.

use minic::ast::Expr;
use minic::ast::Stmt;
use minic::lower::compile_program;
use minic::lower::start_compiler;
use minic::lower::CompileError;
use minic::lower::OBJECT_PRELUDE;

fn ident(n: &str) -> Expr {
    Expr::Ident { n: String::from(n) }
}

fn int_lit(i: i64) -> Expr {
    Expr::Int { i }
}

fn call(n: Expr, args: Vec<Expr>) -> Expr {
    Expr::Call { n: Box::new(n), args }
}

fn add(lhs: Expr, rhs: Expr) -> Expr {
    Expr::Add { lhs: Box::new(lhs), rhs: Box::new(rhs) }
}

fn sub(lhs: Expr, rhs: Expr) -> Expr {
    Expr::Sub { lhs: Box::new(lhs), rhs: Box::new(rhs) }
}

fn less_than(lhs: Expr, rhs: Expr) -> Expr {
    Expr::LessThan { lhs: Box::new(lhs), rhs: Box::new(rhs) }
}

fn id_def() -> Stmt {
    Stmt::Def {
        name: String::from("id"),
        params: vec![ident("x")],
        body: vec![Stmt::Return { expr: ident("x") }],
    }
}

fn id_call() -> Stmt {
    Stmt::Expr { expr: call(ident("id"), vec![int_lit(7)]) }
}

fn fib_def(name: &str) -> Stmt {
    Stmt::Def {
        name: String::from(name),
        params: vec![ident("n")],
        body: vec![
            Stmt::If {
                cond: less_than(ident("n"), int_lit(2)),
                then_block: vec![Stmt::Return { expr: ident("n") }],
            },
            Stmt::Return {
                expr: add(
                    call(ident(name), vec![sub(ident("n"), int_lit(1))]),
                    call(ident(name), vec![sub(ident("n"), int_lit(2))]),
                ),
            },
        ],
    }
}

#[test]
fn start_compiler_emits_the_runtime_module() {
    let s = start_compiler();
    assert_eq!(s, OBJECT_PRELUDE);
    assert!(s.starts_with("use std::cmp::{PartialOrd, Ordering};"));
    assert!(s.contains("enum Object {"));
}

#[test]
fn empty_program_is_a_complete_unit() {
    let text = compile_program(&vec![]).unwrap();
    let mut expected = start_compiler();
    expected.push_str("\n\nfn main() {\n\n}");
    assert_eq!(text, expected);
}

#[test]
fn identity_scenario() {
    let program = vec![id_def(), id_call()];
    let text = compile_program(&program).unwrap();
    let mut expected = start_compiler();
    expected.push_str("fn id(x: Object) -> Object {\nreturn x;\n}");
    expected.push_str("\n\nfn main() {\nid(Object::Int(7));\n}");
    assert_eq!(text, expected);
}

#[test]
fn fib_scenario() {
    let program = vec![
        fib_def("f"),
        Stmt::Expr { expr: call(ident("f"), vec![int_lit(30)]) },
    ];
    let text = compile_program(&program).unwrap();
    let mut expected = start_compiler();
    expected.push_str("fn f(n: Object) -> Object {\n");
    expected.push_str("if n.clone() < Object::Int(2).clone(){\nreturn n;\n}");
    expected.push_str("return f(n.clone() - Object::Int(1).clone()).clone()");
    expected.push_str(" + f(n.clone() - Object::Int(2).clone()).clone();");
    expected.push_str("\n}");
    expected.push_str("\n\nfn main() {\nf(Object::Int(30));\n}");
    assert_eq!(text, expected);
}

#[test]
fn defs_are_hoisted_above_the_entry_point() {
    let program = vec![id_call(), id_def()];
    let hoisted = vec![id_def(), id_call()];
    assert_eq!(compile_program(&program).unwrap(), compile_program(&hoisted).unwrap());
}

#[test]
fn entry_point_keeps_non_def_order() {
    let program = vec![
        Stmt::Expr { expr: call(ident("a"), vec![]) },
        fib_def("f"),
        Stmt::Expr { expr: call(ident("b"), vec![]) },
        id_def(),
        Stmt::Expr { expr: call(ident("c"), vec![]) },
    ];
    let text = compile_program(&program).unwrap();
    let a = text.find("a()").unwrap();
    let b = text.find("b()").unwrap();
    let c = text.find("c()").unwrap();
    assert!(a < b && b < c);
    let main_at = text.find("fn main() {").unwrap();
    assert!(main_at < a);
}

#[test]
fn swapping_adjacent_defs_keeps_the_entry_point_text() {
    let mut one = vec![fib_def("f"), fib_def("g")];
    one.push(id_call());
    one.push(Stmt::Expr { expr: call(ident("g"), vec![int_lit(1)]) });
    let mut other = vec![fib_def("g"), fib_def("f")];
    other.push(id_call());
    other.push(Stmt::Expr { expr: call(ident("g"), vec![int_lit(1)]) });
    let text_one = compile_program(&one).unwrap();
    let text_other = compile_program(&other).unwrap();
    let main_one = &text_one[text_one.find("fn main()").unwrap()..];
    let main_other = &text_other[text_other.find("fn main()").unwrap()..];
    assert_eq!(main_one, main_other);
}

#[test]
fn top_level_print_aborts_translation() {
    let program = vec![id_def(), Stmt::Print { expr: ident("x") }];
    match compile_program(&program) {
        Err(CompileError::UnsupportedStmt { stmt }) => {
            assert!(matches!(stmt, Stmt::Print { .. }));
        },
        _ => panic!("a print statement must abort the whole translation"),
    }
}

#[test]
fn def_error_reported_before_entry_point_error() {
    let program = vec![
        Stmt::Print { expr: ident("early") },
        Stmt::Def {
            name: String::from("f"),
            params: vec![int_lit(1)],
            body: vec![],
        },
    ];
    match compile_program(&program) {
        Err(CompileError::UnsupportedParam { param }) => {
            assert!(matches!(param, Expr::Int { i: 1 }));
        },
        _ => panic!("the definitions pass runs before the entry-point pass"),
    }
}
