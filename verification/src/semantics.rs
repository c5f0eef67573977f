//! The meaning of Monkey programs: what evaluating an expression, a
//! statement or a program gives, and how it changes the environment.

use vstd::prelude::*;

use crate::ast::{Expr, InfixOperator, PrefixOperator, Stmt};
use crate::environment::{bind, lookup, Scopes};
use crate::error::{ErrorModel, Fault};
use crate::object::{truth, Value};

verus! {

/// What an evaluation gives: a value, an error of the language, or a fault
/// at which the interpreter stops.
pub enum Outcome {
    Done(Value),
    Failed(ErrorModel),
    Faulted(Fault),
}

/// Whether `x` fits in an `i128`.
pub open spec fn fits(x: int) -> bool {
    i128::MIN <= x <= i128::MAX
}

/// Integer division rounding toward zero.
pub open spec fn div_toward_zero(x: int, y: int) -> int {
    let q = (if x < 0 { -x } else { x }) / (if y < 0 { -y } else { y });
    if (x < 0) == (y < 0) {
        q
    } else {
        -q
    }
}

/// `!v`
pub open spec fn not_value(v: Value) -> Outcome {
    match v {
        Value::Bool(b) => Outcome::Done(Value::Bool(!b)),
        Value::Null => Outcome::Done(Value::Bool(true)),
        Value::Int(i) => Outcome::Done(Value::Bool(i == 0)),
        Value::Return(inner) => Outcome::Failed(ErrorModel::UnexpectedReturn(*inner)),
        Value::Noop => Outcome::Faulted(Fault::NotOfNoop),
        Value::Function(..) => Outcome::Faulted(Fault::NotOfFunction),
    }
}

/// `-v`
pub open spec fn negate_value(v: Value) -> Outcome {
    match v {
        Value::Int(i) => if fits(-i) {
            Outcome::Done(Value::Int((-i) as i128))
        } else {
            Outcome::Faulted(Fault::Overflow)
        },
        _ => Outcome::Failed(ErrorModel::UnsupportedNegate(v)),
    }
}

/// A prefix operator applied to a value.
pub open spec fn prefix_value(op: PrefixOperator, v: Value) -> Outcome {
    match op {
        PrefixOperator::Not => not_value(v),
        PrefixOperator::Negate => negate_value(v),
    }
}

/// An integer result, or the overflow fault where it does not fit.
pub open spec fn int_result(x: int) -> Outcome {
    if fits(x) {
        Outcome::Done(Value::Int(x as i128))
    } else {
        Outcome::Faulted(Fault::Overflow)
    }
}

/// An arithmetic or comparison operator applied to two integers.
pub open spec fn arith_value(op: InfixOperator, a: i128, b: i128) -> Outcome {
    match op {
        InfixOperator::Plus => int_result(a + b),
        InfixOperator::Minus => int_result(a - b),
        InfixOperator::Multiply => int_result(a * b),
        InfixOperator::Divide => if b == 0 {
            Outcome::Faulted(Fault::DivisionByZero)
        } else {
            int_result(div_toward_zero(a as int, b as int))
        },
        InfixOperator::LessThan => Outcome::Done(Value::Bool(a < b)),
        InfixOperator::GreaterThan => Outcome::Done(Value::Bool(a > b)),
        _ => Outcome::Faulted(Fault::UnexpectedOperator),
    }
}

/// An arithmetic or comparison operator applied to two values: integers
/// give the result of the operation, anything else the type-mismatch error.
pub open spec fn math_value(op: InfixOperator, a: Value, b: Value) -> Outcome {
    match (a, b) {
        (Value::Int(x), Value::Int(y)) => arith_value(op, x, y),
        _ => Outcome::Failed(ErrorModel::InfixTypeMismatch(op, a, b)),
    }
}

/// An infix operator applied to two values.
pub open spec fn infix_value(op: InfixOperator, a: Value, b: Value) -> Outcome {
    match op {
        InfixOperator::Equal => Outcome::Done(Value::Bool(a == b)),
        InfixOperator::NotEqual => Outcome::Done(Value::Bool(a != b)),
        InfixOperator::Call => Outcome::Faulted(Fault::UnexpectedOperator),
        _ => math_value(op, a, b),
    }
}

/// The fault raised when the truth of `v` is asked for and it has none.
pub open spec fn truth_fault(v: Value) -> Fault {
    match v {
        Value::Return(_) => Fault::TruthOfReturn,
        Value::Noop => Fault::TruthOfNoop,
        _ => Fault::TruthOfFunction,
    }
}

/// A `return` value gives the value that it wraps.
pub open spec fn unwrap_return(o: Outcome) -> Outcome {
    match o {
        Outcome::Done(Value::Return(v)) => Outcome::Done(*v),
        _ => o,
    }
}

/// The scope of a call: each parameter bound to its argument (a later
/// parameter of the same name wins).
pub open spec fn frame(params: Seq<Seq<char>>, args: Seq<Value>) -> Map<Seq<char>, Value>
    decreases params.len(),
{
    if params.len() == 0 || args.len() == 0 {
        Map::empty()
    } else {
        frame(params.drop_last(), args.drop_last()).insert(params.last(), args.last())
    }
}

/// Whether an evaluation gave a value with which the enclosing evaluation
/// goes on: not an error, not a fault, and not a `return` value, which
/// passes outward like they do until a call or the program ends.
pub open spec fn continues(o: Outcome) -> bool {
    o matches Outcome::Done(v) && !(v is Return)
}

/// Evaluates an expression in `env`; `fuel` is how deeply calls may still nest.
pub open spec fn eval_expr(fuel: nat, env: Scopes, e: Expr) -> (Outcome, Scopes)
    decreases fuel, e,
{
    match e {
        Expr::Int(v) => (Outcome::Done(Value::Int(v)), env),
        Expr::Bool(b) => (Outcome::Done(Value::Bool(b)), env),
        Expr::Prefix(op, rhs) => {
            let (o, env1) = eval_expr(fuel, env, *rhs);
            if continues(o) {
                (prefix_value(op, o->Done_0), env1)
            } else {
                (o, env1)
            }
        },
        Expr::Infix(op, lhs, rhs) => {
            let (o1, env1) = eval_expr(fuel, env, *lhs);
            if continues(o1) {
                let (o2, env2) = eval_expr(fuel, env1, *rhs);
                if continues(o2) {
                    (infix_value(op, o1->Done_0, o2->Done_0), env2)
                } else {
                    (o2, env2)
                }
            } else {
                (o1, env1)
            }
        },
        Expr::If(cond, if_true) => {
            let (o, env1) = eval_expr(fuel, env, *cond);
            if continues(o) {
                match truth(o->Done_0) {
                    Some(true) => eval_stmt(fuel, env1, *if_true),
                    Some(false) => (Outcome::Done(Value::Noop), env1),
                    None => (Outcome::Faulted(truth_fault(o->Done_0)), env1),
                }
            } else {
                (o, env1)
            }
        },
        Expr::IfElse(cond, if_true, if_false) => {
            let (o, env1) = eval_expr(fuel, env, *cond);
            if continues(o) {
                match truth(o->Done_0) {
                    Some(true) => eval_stmt(fuel, env1, *if_true),
                    Some(false) => eval_stmt(fuel, env1, *if_false),
                    None => (Outcome::Faulted(truth_fault(o->Done_0)), env1),
                }
            } else {
                (o, env1)
            }
        },
        Expr::Identifier(id) => (
            match lookup(env, id) {
                Some(v) => Outcome::Done(v),
                None => Outcome::Failed(ErrorModel::IdNotFound(id)),
            },
            env,
        ),
        Expr::Function(params, body) => (Outcome::Done(Value::Function(params, *body, env)), env),
        Expr::Call(callee, args) => {
            let (o1, env1) = eval_expr(fuel, env, *callee);
            if continues(o1) {
                let (r, env2) = eval_args(fuel, env1, args);
                match r {
                    Ok(vals) => (
                        match call_frame(o1->Done_0, vals) {
                            None => Outcome::Done(Value::Noop),
                            Some((scopes, body)) => if fuel == 0 {
                                Outcome::Faulted(Fault::CallDepth)
                            } else {
                                unwrap_return(eval_stmt((fuel - 1) as nat, scopes, body).0)
                            },
                        },
                        env2,
                    ),
                    Err(o) => (o, env2),
                }
            } else {
                (o1, env1)
            }
        },
    }
}

/// What calling `f` with the argument values `vals` runs: the body of the
/// function, in a scope binding each parameter to its argument, inside the
/// scopes that the function captured. Anything else called, or a function
/// called with a number of arguments other than its number of parameters,
/// runs nothing and gives the empty value.
pub open spec fn call_frame(f: Value, vals: Seq<Value>) -> Option<(Scopes, Stmt)> {
    match f {
        Value::Function(params, body, captured) => if params.len() == vals.len() {
            Some((seq![frame(params, vals)] + captured, body))
        } else {
            None
        },
        _ => None,
    }
}

/// Evaluates the arguments of a call from left to right; the first one
/// that does not go on (see `continues`) stops the evaluation.
pub open spec fn eval_args(fuel: nat, env: Scopes, args: Seq<Expr>) -> (
    Result<Seq<Value>, Outcome>,
    Scopes,
)
    decreases fuel, args,
{
    if args.len() == 0 {
        (Ok(Seq::empty()), env)
    } else {
        let (o, env1) = eval_expr(fuel, env, args[0]);
        if continues(o) {
            let (r, env2) = eval_args(fuel, env1, args.subrange(1, args.len() as int));
            (
                match r {
                    Ok(vs) => Ok(seq![o->Done_0] + vs),
                    Err(o2) => Err(o2),
                },
                env2,
            )
        } else {
            (Err(o), env1)
        }
    }
}

/// Evaluates a statement in `env`.
pub open spec fn eval_stmt(fuel: nat, env: Scopes, s: Stmt) -> (Outcome, Scopes)
    decreases fuel, s,
{
    match s {
        Stmt::Expression(e) => eval_expr(fuel, env, e),
        Stmt::Block(stmts) => eval_block(fuel, env, stmts, Value::Null),
        Stmt::Return(e) => {
            let (o, env1) = eval_expr(fuel, env, e);
            if continues(o) {
                (Outcome::Done(Value::Return(Box::new(o->Done_0))), env1)
            } else {
                (o, env1)
            }
        },
        Stmt::Let(id, e) => {
            let (o, env1) = eval_expr(fuel, env, e);
            if continues(o) {
                (Outcome::Done(Value::Noop), bind(env1, id, o->Done_0))
            } else {
                (o, env1)
            }
        },
    }
}

/// Evaluates statements in order: the result is that of the last one
/// (`last` where there is none), unless one gives a `return` value, an
/// error or a fault, which ends the evaluation.
pub open spec fn eval_block(fuel: nat, env: Scopes, stmts: Seq<Stmt>, last: Value) -> (
    Outcome,
    Scopes,
)
    decreases fuel, stmts,
{
    if stmts.len() == 0 {
        (Outcome::Done(last), env)
    } else {
        let (o, env1) = eval_stmt(fuel, env, stmts[0]);
        match o {
            Outcome::Done(v) => if v is Return {
                (o, env1)
            } else {
                eval_block(fuel, env1, stmts.subrange(1, stmts.len() as int), v)
            },
            _ => (o, env1),
        }
    }
}

/// Evaluates a whole program: a `return` ends it with the returned value.
pub open spec fn eval_program(fuel: nat, env: Scopes, stmts: Seq<Stmt>) -> (Outcome, Scopes) {
    let (o, env1) = eval_block(fuel, env, stmts, Value::Null);
    (unwrap_return(o), env1)
}

} // verus!
