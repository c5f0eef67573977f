//! Errors and faults of the evaluator.

use vstd::prelude::*;

use crate::ast::InfixOperator;
use crate::object::{Object, Value};

verus! {

/// Types of error the evaluator can produce.
#[derive(Debug)]
pub enum Error {
    UnexpectedReturn(Object),
    UnsupportedNegate(Object),
    InfixTypeMismatch(InfixOperator, Object, Object),
    IdNotFound(String),
}

/// Mathematical model of an error.
pub enum ErrorModel {
    UnexpectedReturn(Value),
    UnsupportedNegate(Value),
    InfixTypeMismatch(InfixOperator, Value, Value),
    IdNotFound(Seq<char>),
}

impl View for Error {
    type V = ErrorModel;

    open spec fn view(&self) -> ErrorModel {
        match self {
            Error::UnexpectedReturn(o) => ErrorModel::UnexpectedReturn(o.model()),
            Error::UnsupportedNegate(o) => ErrorModel::UnsupportedNegate(o.model()),
            Error::InfixTypeMismatch(op, l, r) => ErrorModel::InfixTypeMismatch(
                *op,
                l.model(),
                r.model(),
            ),
            Error::IdNotFound(id) => ErrorModel::IdNotFound(id@),
        }
    }
}

impl Error {
    /// Whether two errors have the same model.
    pub fn same(&self, other: &Error) -> (r: bool)
        ensures
            r == (self@ == other@),
    {
        match (self, other) {
            (Error::UnexpectedReturn(a), Error::UnexpectedReturn(b)) => a.same(b),
            (Error::UnsupportedNegate(a), Error::UnsupportedNegate(b)) => a.same(b),
            (Error::InfixTypeMismatch(o1, l1, r1), Error::InfixTypeMismatch(o2, l2, r2)) => *o1
                == *o2 && l1.same(l2) && r1.same(r2),
            (Error::IdNotFound(a), Error::IdNotFound(b)) => *a == *b,
            _ => false,
        }
    }
}

impl PartialEq for Error {
    fn eq(&self, other: &Error) -> (r: bool) {
        self.same(other)
    }
}

impl vstd::std_specs::cmp::PartialEqSpecImpl for Error {
    open spec fn obeys_eq_spec() -> bool {
        true
    }

    open spec fn eq_spec(&self, other: &Error) -> bool {
        self@ == other@
    }
}

/// Situations in which evaluation cannot go on: the interpreter stops.
#[derive(Clone, Copy, Debug, PartialEq, Eq, Structural)]
pub enum Fault {
    /// The truth of a `return` value was asked for.
    TruthOfReturn,
    /// The truth of the empty value was asked for.
    TruthOfNoop,
    /// The truth of a function was asked for.
    TruthOfFunction,
    /// `!` was applied to the empty value.
    NotOfNoop,
    /// `!` was applied to a function.
    NotOfFunction,
    /// An operator reached an evaluation step that has no meaning for it:
    /// the call operator written as an infix operator, or `==` or `!=` given
    /// to integer arithmetic.
    UnexpectedOperator,
    /// An integer operation left the range of `i128`.
    Overflow,
    /// An integer was divided by zero.
    DivisionByZero,
    /// Function calls were nested deeper than the evaluator allows.
    CallDepth,
}

/// Why an evaluation did not produce an object.
#[derive(Debug)]
pub enum Failure {
    Error(Error),
    Fault(Fault),
}

} // verus!
