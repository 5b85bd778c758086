//! The runtime value model that generated code works over.
//!
//! The source language has no static types, so every value in a translated
//! program carries an explicit tag, and every operation checks the tags of
//! its operands before combining them. The operation set is deliberately
//! partial: exactly the pairings the source language's surface syntax can
//! express are defined, and every other pairing is an unsupported-operation
//! failure, reported rather than silently coerced.

use vstd::prelude::*;

use crate::numfmt::int_text;
use crate::numfmt::int_to_string;

verus! {

/// A tagged runtime value, closed at three variants. Values are immutable
/// once constructed; operations always produce a new value.
#[derive(Debug)]
pub enum Object {
    /// A text value.
    Str(String),
    /// An integer value.
    Int(i64),
    /// A truth value.
    Bool(bool),
}

/// An unsupported-operation failure: a runtime operation was invoked on a
/// tag pairing outside its defined domain. Carries the operation and its
/// operands for the report; there is no recovery path.
#[derive(Debug)]
pub enum RuntimeError {
    /// An ordering comparison on anything but two integers.
    Comparison { lhs: Object, rhs: Object },
    /// An addition on anything but two integers.
    Addition { lhs: Object, rhs: Object },
    /// A subtraction on anything but two integers.
    Subtraction { lhs: Object, rhs: Object },
    /// A stringification of anything but an integer.
    Display { value: Object },
}

/// Whether both operands carry the integer tag, the only pairing for which
/// the arithmetic and ordering operations are defined.
pub open spec fn both_int(a: Object, b: Object) -> bool {
    a is Int && b is Int
}

/// The integer carried by an `Int` value.
pub open spec fn int_of(a: Object) -> int
    recommends
        a is Int,
{
    match a {
        Object::Int(i) => i as int,
        _ => arbitrary(),
    }
}

/// Whether the sum of two `Int` operands stays within the machine integer
/// range; trivially true of any other pairing, which never reaches the
/// addition itself.
pub open spec fn add_in_range(a: Object, b: Object) -> bool {
    both_int(a, b) ==> i64::MIN <= int_of(a) + int_of(b) <= i64::MAX
}

/// Whether the difference of two `Int` operands stays within the machine
/// integer range; trivially true of any other pairing.
pub open spec fn sub_in_range(a: Object, b: Object) -> bool {
    both_int(a, b) ==> i64::MIN <= int_of(a) - int_of(b) <= i64::MAX
}

/// Structural equality across all three variants: same tag, same payload.
/// Text values compare by their characters.
pub open spec fn obj_eq(a: Object, b: Object) -> bool {
    match (a, b) {
        (Object::Str(x), Object::Str(y)) => x@ == y@,
        (Object::Int(x), Object::Int(y)) => x == y,
        (Object::Bool(x), Object::Bool(y)) => x == y,
        _ => false,
    }
}

impl Clone for Object {
    /// Duplicates the value; generated code copies every operand before an
    /// operation consumes it.
    fn clone(&self) -> (res: Self)
        ensures
            res == *self,
    {
        match self {
            Object::Str(s) => Object::Str(s.clone()),
            Object::Int(i) => Object::Int(*i),
            Object::Bool(b) => Object::Bool(*b),
        }
    }
}

impl PartialEq for Object {
    /// Structural equality, defined across all three variants.
    fn eq(&self, other: &Self) -> (r: bool) {
        match (self, other) {
            (Object::Str(x), Object::Str(y)) => *x == *y,
            (Object::Int(x), Object::Int(y)) => *x == *y,
            (Object::Bool(x), Object::Bool(y)) => *x == *y,
            _ => false,
        }
    }
}

impl vstd::std_specs::cmp::PartialEqSpecImpl for Object {
    open spec fn obeys_eq_spec() -> bool {
        true
    }

    open spec fn eq_spec(&self, other: &Self) -> bool {
        obj_eq(*self, *other)
    }
}

impl Object {
    /// The ordering comparison of the source language: defined only for two
    /// `Int` values, where it is the host's native integer order; every
    /// other pairing is an unsupported-operation failure.
    pub fn less_than(&self, rhs: &Object) -> (r: Result<bool, RuntimeError>)
        ensures
            both_int(*self, *rhs) ==> r == Ok::<bool, RuntimeError>(int_of(*self) < int_of(
                *rhs,
            )),
            !both_int(*self, *rhs) ==> r == Err::<bool, RuntimeError>(
                RuntimeError::Comparison { lhs: *self, rhs: *rhs },
            ),
    {
        match (self, rhs) {
            (Object::Int(a), Object::Int(b)) => Ok(*a < *b),
            _ => Err(RuntimeError::Comparison { lhs: self.clone(), rhs: rhs.clone() }),
        }
    }

    /// The addition of the source language: defined only for two `Int`
    /// values, producing a new `Int`; every other pairing is an
    /// unsupported-operation failure.
    pub fn add(&self, rhs: &Object) -> (r: Result<Object, RuntimeError>)
        requires
            add_in_range(*self, *rhs),
        ensures
            both_int(*self, *rhs) ==> r == Ok::<Object, RuntimeError>(
                Object::Int((int_of(*self) + int_of(*rhs)) as i64),
            ),
            !both_int(*self, *rhs) ==> r == Err::<Object, RuntimeError>(
                RuntimeError::Addition { lhs: *self, rhs: *rhs },
            ),
    {
        match (self, rhs) {
            (Object::Int(a), Object::Int(b)) => Ok(Object::Int(*a + *b)),
            _ => Err(RuntimeError::Addition { lhs: self.clone(), rhs: rhs.clone() }),
        }
    }

    /// The subtraction of the source language: defined only for two `Int`
    /// values, producing a new `Int`; every other pairing is an
    /// unsupported-operation failure.
    pub fn sub(&self, rhs: &Object) -> (r: Result<Object, RuntimeError>)
        requires
            sub_in_range(*self, *rhs),
        ensures
            both_int(*self, *rhs) ==> r == Ok::<Object, RuntimeError>(
                Object::Int((int_of(*self) - int_of(*rhs)) as i64),
            ),
            !both_int(*self, *rhs) ==> r == Err::<Object, RuntimeError>(
                RuntimeError::Subtraction { lhs: *self, rhs: *rhs },
            ),
    {
        match (self, rhs) {
            (Object::Int(a), Object::Int(b)) => Ok(Object::Int(*a - *b)),
            _ => Err(RuntimeError::Subtraction { lhs: self.clone(), rhs: rhs.clone() }),
        }
    }

    /// The stringification of the source language: defined only for an
    /// `Int` value, rendered as its decimal digits; every other tag is an
    /// unsupported-operation failure.
    pub fn fmt(&self) -> (r: Result<String, RuntimeError>)
        ensures
            *self is Int ==> (r matches Ok(s) && s@ == int_text(int_of(*self))),
            !(*self is Int) ==> r == Err::<String, RuntimeError>(
                RuntimeError::Display { value: *self },
            ),
    {
        match self {
            Object::Int(i) => Ok(int_to_string(*i)),
            _ => Err(RuntimeError::Display { value: self.clone() }),
        }
    }
}

} // verus!
