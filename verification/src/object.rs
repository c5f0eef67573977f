//! Objects to be used in the object system.

use vstd::prelude::*;

use crate::ast::{names_model, copy_names, same_names, Statement, Stmt};
use crate::environment::{Environment, Scopes};

verus! {

/// These are the types of objects that can be represented in the object system.
#[derive(Debug)]
pub enum Object {
    // Instructions to the interpreter
    Noop,
    Return(Box<Object>),
    // Values in the system
    Null,
    Int(i128),
    Bool(bool),
    Function(Vec<String>, Statement, Box<Environment>),
}

/// Mathematical model of an object. A function carries the model of the
/// environment that it captured.
pub enum Value {
    Noop,
    Return(Box<Value>),
    Null,
    Int(i128),
    Bool(bool),
    Function(Seq<Seq<char>>, Stmt, Seq<Map<Seq<char>, Value>>),
}

impl Object {
    pub open spec fn model(&self) -> Value
        decreases *self,
    {
        match self {
            Object::Noop => Value::Noop,
            Object::Return(o) => Value::Return(Box::new(o.model())),
            Object::Null => Value::Null,
            Object::Int(v) => Value::Int(*v),
            Object::Bool(b) => Value::Bool(*b),
            Object::Function(params, body, env) => Value::Function(
                names_model(params@),
                body.model(),
                env.model(),
            ),
        }
    }

    /// A copy of the object with the same model.
    pub fn copy(&self) -> (r: Object)
        ensures
            r.model() == self.model(),
        decreases *self,
    {
        match self {
            Object::Noop => Object::Noop,
            Object::Return(o) => Object::Return(Box::new((**o).copy())),
            Object::Null => Object::Null,
            Object::Int(v) => Object::Int(*v),
            Object::Bool(b) => Object::Bool(*b),
            Object::Function(params, body, env) => Object::Function(
                copy_names(params),
                body.copy(),
                Box::new((**env).copy()),
            ),
        }
    }

    /// Whether two objects have the same model.
    pub fn same(&self, other: &Object) -> (r: bool)
        ensures
            r == (self.model() == other.model()),
        decreases *self,
    {
        match (self, other) {
            (Object::Noop, Object::Noop) => true,
            (Object::Return(a), Object::Return(b)) => (**a).same(&**b),
            (Object::Null, Object::Null) => true,
            (Object::Int(a), Object::Int(b)) => *a == *b,
            (Object::Bool(a), Object::Bool(b)) => *a == *b,
            (Object::Function(p1, b1, e1), Object::Function(p2, b2, e2)) => same_names(p1, p2)
                && b1.same(b2) && (**e1).same(&**e2),
            _ => false,
        }
    }
}

/// The empty value of statements that produce nothing.
pub const NOOP: Object = Object::Noop;

/// The null value.
pub const NULL: Object = Object::Null;

impl PartialEq for Object {
    fn eq(&self, other: &Object) -> (r: bool) {
        self.same(other)
    }
}

impl vstd::std_specs::cmp::PartialEqSpecImpl for Object {
    open spec fn obeys_eq_spec() -> bool {
        true
    }

    open spec fn eq_spec(&self, other: &Object) -> bool {
        self.model() == other.model()
    }
}

impl View for Object {
    type V = Value;

    open spec fn view(&self) -> Value {
        self.model()
    }
}

/// The truth of a value, where the language gives it one:
/// false, null and 0 are false; other integers and true are true.
pub open spec fn truth(v: Value) -> Option<bool> {
    match v {
        Value::Null => Some(false),
        Value::Int(i) => Some(i != 0),
        Value::Bool(b) => Some(b),
        _ => None,
    }
}

/// Returns a pair of ints if the extraction succeeded
///
/// Attempt to extract the integers out of two objects
pub fn get_infix_ints(lhs: Object, rhs: Object) -> (r: Option<(i128, i128)>)
    ensures
        r == (match (lhs, rhs) {
            (Object::Int(a), Object::Int(b)) => Some((a, b)),
            _ => None,
        }),
{
    if let Object::Int(lhs_value) = lhs {
        if let Object::Int(rhs_value) = rhs {
            Some((lhs_value, rhs_value))
        } else {
            None
        }
    } else {
        None
    }
}

/// An approximate truth evaluator
///
/// false, NULL, and 0 are false
pub fn is_truthy(obj: &Object) -> (r: bool)
    requires
        truth(obj.model()) is Some,
    ensures
        Some(r) == truth(obj.model()),
{
    match obj {
        Object::Null => false,
        Object::Int(value) => *value != 0,
        Object::Bool(value) => *value,
        _ => false,
    }
}

} // verus!
