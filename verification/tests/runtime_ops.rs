//! The runtime value model: arithmetic, comparison, stringification and
//! equality over tagged values, with every undefined tag pairing reported.

use minic::numfmt::int_to_string;
use minic::runtime::Object;
use minic::runtime::RuntimeError;

#[test]
fn add_two_ints() {
    let r = Object::Int(2).add(&Object::Int(3));
    assert_eq!(r.unwrap(), Object::Int(5));
}

#[test]
fn sub_two_ints() {
    let r = Object::Int(5).sub(&Object::Int(3));
    assert_eq!(r.unwrap(), Object::Int(2));
}

#[test]
fn less_than_two_ints() {
    assert_eq!(Object::Int(2).less_than(&Object::Int(3)).unwrap(), true);
    assert_eq!(Object::Int(3).less_than(&Object::Int(3)).unwrap(), false);
    assert_eq!(Object::Int(4).less_than(&Object::Int(3)).unwrap(), false);
}

#[test]
fn add_rejects_non_int_lhs() {
    let r = Object::Str(String::from("a")).add(&Object::Int(1));
    assert!(matches!(r, Err(RuntimeError::Addition { .. })));
}

#[test]
fn add_rejects_non_int_rhs() {
    let r = Object::Int(1).add(&Object::Bool(true));
    match r {
        Err(RuntimeError::Addition { lhs, rhs }) => {
            assert_eq!(lhs, Object::Int(1));
            assert_eq!(rhs, Object::Bool(true));
        },
        _ => panic!("expected an unsupported addition"),
    }
}

#[test]
fn sub_rejects_non_int_operand() {
    let r = Object::Bool(false).sub(&Object::Int(1));
    assert!(matches!(r, Err(RuntimeError::Subtraction { .. })));
}

#[test]
fn less_than_rejects_non_int_operand() {
    let r = Object::Int(1).less_than(&Object::Str(String::from("b")));
    assert!(matches!(r, Err(RuntimeError::Comparison { .. })));
}

#[test]
fn fmt_renders_ints_only() {
    assert_eq!(Object::Int(42).fmt().unwrap(), "42");
    assert_eq!(Object::Int(-7).fmt().unwrap(), "-7");
    let r = Object::Str(String::from("x")).fmt();
    assert!(matches!(r, Err(RuntimeError::Display { .. })));
    let r = Object::Bool(true).fmt();
    assert!(matches!(r, Err(RuntimeError::Display { .. })));
}

#[test]
fn equality_is_structural_across_all_tags() {
    assert_eq!(Object::Int(1), Object::Int(1));
    assert_ne!(Object::Int(1), Object::Int(2));
    assert_eq!(Object::Str(String::from("a")), Object::Str(String::from("a")));
    assert_ne!(Object::Str(String::from("a")), Object::Str(String::from("b")));
    assert_eq!(Object::Bool(true), Object::Bool(true));
    assert_ne!(Object::Int(1), Object::Bool(true));
    assert_ne!(Object::Str(String::from("1")), Object::Int(1));
}

#[test]
fn clone_duplicates_the_value() {
    let a = Object::Str(String::from("keep"));
    let b = a.clone();
    assert_eq!(a, b);
    let c = Object::Int(9);
    assert_eq!(c.clone(), c);
}

#[test]
fn decimal_rendering_edges() {
    assert_eq!(int_to_string(0), "0");
    assert_eq!(int_to_string(10), "10");
    assert_eq!(int_to_string(-1), "-1");
    assert_eq!(int_to_string(i64::MAX), "9223372036854775807");
    assert_eq!(int_to_string(i64::MIN), "-9223372036854775808");
}
