//! Powers the eval portion of the REPL cycle.

use vstd::prelude::*;

use crate::ast::{
    copy_names, lemma_exprs_model, lemma_stmts_model, exprs_model, stmts_model, Expression,
    InfixOperator, PrefixOperator, Program, Statement,
};
use crate::environment::{Env, Environment, Nested, Root, Scopes, Store};
use crate::error::{Error, Failure, Fault};
use crate::object::{get_infix_ints, is_truthy, truth, Object, Value};
use crate::semantics::{
    eval_args, eval_block, eval_expr, eval_program, eval_stmt, frame, infix_value, math_value,
    negate_value, not_value, prefix_value, truth_fault, unwrap_return, Outcome,
};

verus! {

/// How deeply function calls may nest: the largest count that the
/// evaluator can hold. Evaluation gives `Fault::CallDepth` only when calls
/// are nested this deep, which no machine's stack reaches first.
pub const MAX_CALL_DEPTH: u64 = 18446744073709551615;

/// Whether an evaluation result is the one an outcome describes.
pub open spec fn matches_outcome(r: Result<Object, Failure>, o: Outcome) -> bool {
    match (r, o) {
        (Ok(obj), Outcome::Done(v)) => obj.model() == v,
        (Err(Failure::Error(e)), Outcome::Failed(m)) => e@ == m,
        (Err(Failure::Fault(f)), Outcome::Faulted(g)) => f == g,
        _ => false,
    }
}

/// The models of a sequence of objects.
pub open spec fn objects_model(s: Seq<Object>) -> Seq<Value> {
    s.map_values(|o: Object| o.model())
}

/// Contains the state of the executed program.
pub struct Evaluator {
    env: Environment,
}

impl View for Evaluator {
    type V = Scopes;

    closed spec fn view(&self) -> Scopes {
        self.env.model()
    }
}

/// The result of a whole evaluation, as the public functions give it.
pub open spec fn checked_result(r: Result<Result<Object, Error>, Fault>, o: Outcome) -> bool {
    match (r, o) {
        (Ok(Ok(obj)), Outcome::Done(v)) => obj.model() == v,
        (Ok(Err(e)), Outcome::Failed(m)) => e@ == m,
        (Err(f), Outcome::Faulted(g)) => f == g,
        _ => false,
    }
}

impl Evaluator {
    /// Returns an initialized Evaluator
    pub fn new() -> (r: Self)
        ensures
            r@ == seq![Map::<Seq<char>, Value>::empty()],
    {
        Evaluator { env: Environment::Root(Root::new()) }
    }

    /// Evaluate a program, or report the fault at which it stops.
    pub fn eval_checked(&mut self, program: Program) -> (r: Result<Result<Object, Error>, Fault>)
        ensures
            checked_result(r, eval_program(MAX_CALL_DEPTH as nat, old(self)@, program@).0),
            final(self)@ == eval_program(MAX_CALL_DEPTH as nat, old(self)@, program@).1,
    {
        let r = statements(&mut self.env, &program.statements, MAX_CALL_DEPTH);
        match unwrap_return_object(r) {
            Ok(obj) => Ok(Ok(obj)),
            Err(Failure::Error(e)) => Ok(Err(e)),
            Err(Failure::Fault(f)) => Err(f),
        }
    }

    /// Evaluate a program
    pub fn eval(&mut self, program: Program) -> (r: Result<Object, Error>)
        requires
            !(eval_program(MAX_CALL_DEPTH as nat, old(self)@, program@).0 is Faulted),
        ensures
            checked_result(Ok(r), eval_program(MAX_CALL_DEPTH as nat, old(self)@, program@).0),
            final(self)@ == eval_program(MAX_CALL_DEPTH as nat, old(self)@, program@).1,
    {
        match self.eval_checked(program) {
            Ok(r) => r,
            Err(_) => {
                proof {
                    assert(false);
                }
                Ok(Object::Null)
            },
        }
    }

    /// `!rhs`
    pub fn not(rhs: Object) -> (r: Result<Object, Failure>)
        ensures
            matches_outcome(r, not_value(rhs.model())),
    {
        match rhs {
            Object::Bool(b) => Ok(Object::Bool(!b)),
            Object::Null => Ok(Object::Bool(true)),
            Object::Int(value) => {
                if value == 0 {
                    Ok(Object::Bool(true))
                } else {
                    Ok(Object::Bool(false))
                }
            },
            Object::Return(obj) => Err(Failure::Error(Error::UnexpectedReturn(*obj))),
            Object::Noop => Err(Failure::Fault(Fault::NotOfNoop)),
            Object::Function(_, _, _) => Err(Failure::Fault(Fault::NotOfFunction)),
        }
    }

    /// `-rhs`
    pub fn negate(rhs: Object) -> (r: Result<Object, Failure>)
        ensures
            matches_outcome(r, negate_value(rhs.model())),
    {
        match rhs {
            Object::Int(value) => {
                if value == i128::MIN {
                    Err(Failure::Fault(Fault::Overflow))
                } else {
                    Ok(Object::Int(-value))
                }
            },
            _ => Err(Failure::Error(Error::UnsupportedNegate(rhs))),
        }
    }

    /// A prefix operator applied to an object.
    pub fn prefix(op: PrefixOperator, rhs: Object) -> (r: Result<Object, Failure>)
        ensures
            matches_outcome(r, prefix_value(op, rhs.model())),
    {
        match op {
            PrefixOperator::Not => Self::not(rhs),
            PrefixOperator::Negate => Self::negate(rhs),
        }
    }

    /// An infix operator applied to two objects.
    pub fn infix(op: InfixOperator, lhs: Object, rhs: Object) -> (r: Result<Object, Failure>)
        ensures
            matches_outcome(r, infix_value(op, lhs.model(), rhs.model())),
    {
        match op {
            InfixOperator::Equal => Ok(Object::Bool(lhs.same(&rhs))),
            InfixOperator::NotEqual => Ok(Object::Bool(!lhs.same(&rhs))),
            InfixOperator::Call => Err(Failure::Fault(Fault::UnexpectedOperator)),
            _ => Self::infix_math(op, lhs, rhs),
        }
    }

    /// An arithmetic or comparison operator applied to two objects.
    pub fn infix_math(op: InfixOperator, lhs_obj: Object, rhs_obj: Object) -> (r: Result<Object, Failure>)
        ensures
            matches_outcome(r, math_value(op, lhs_obj.model(), rhs_obj.model())),
    {
        if let Some((lhs, rhs)) = get_infix_ints(lhs_obj.copy(), rhs_obj.copy()) {
            assert(lhs_obj.model() == Value::Int(lhs) && rhs_obj.model() == Value::Int(rhs));
            match op {
                InfixOperator::Plus => int_object(lhs.checked_add(rhs)),
                InfixOperator::Minus => int_object(lhs.checked_sub(rhs)),
                InfixOperator::Multiply => int_object(lhs.checked_mul(rhs)),
                InfixOperator::Divide => {
                    if rhs == 0 {
                        Err(Failure::Fault(Fault::DivisionByZero))
                    } else {
                        int_object(lhs.checked_div(rhs))
                    }
                },
                InfixOperator::LessThan => Ok(Object::Bool(lhs < rhs)),
                InfixOperator::GreaterThan => Ok(Object::Bool(lhs > rhs)),
                _ => Err(Failure::Fault(Fault::UnexpectedOperator)),
            }
        } else {
            assert(!(lhs_obj.model() is Int && rhs_obj.model() is Int));
            Err(Failure::Error(Error::InfixTypeMismatch(op, lhs_obj, rhs_obj)))
        }
    }
}

/// An integer object, or the overflow fault where the result was lost.
fn int_object(v: Option<i128>) -> (r: Result<Object, Failure>)
    ensures
        match v {
            Some(i) => r matches Ok(o) && o.model() == Value::Int(i),
            None => r matches Err(Failure::Fault(f)) && f == Fault::Overflow,
        },
{
    match v {
        Some(i) => Ok(Object::Int(i)),
        None => Err(Failure::Fault(Fault::Overflow)),
    }
}

/// A `return` object gives the object that it wraps.
fn unwrap_return_object(r: Result<Object, Failure>) -> (u: Result<Object, Failure>)
    ensures
        forall|o: Outcome| matches_outcome(r, o) ==> matches_outcome(u, unwrap_return(o)),
{
    match r {
        Ok(Object::Return(obj)) => Ok(*obj),
        _ => r,
    }
}


/// Evaluates statements in order (see `eval_block`), starting from null.
fn statements(env: &mut Environment, stmts: &Vec<Box<Statement>>, fuel: u64) -> (r: Result<Object, Failure>)
    ensures
        matches_outcome(r, eval_block(fuel as nat, old(env).model(), stmts_model(stmts@), Value::Null).0),
        final(env).model() == eval_block(fuel as nat, old(env).model(), stmts_model(stmts@), Value::Null).1,
    decreases fuel, stmts,
{
    let ghost s = stmts_model(stmts@);
    let ghost env0 = env.model();
    proof {
        lemma_stmts_model(stmts@);
    }
    let mut obj = Object::Null;
    let mut i: usize = 0;
    assert(s.subrange(0, s.len() as int) =~= s);
    while i < stmts.len()
        invariant
            i <= stmts@.len(),
            env0 == old(env).model(),
            s == stmts_model(stmts@),
            s.len() == stmts@.len(),
            forall|j: int| 0 <= j < s.len() ==> #[trigger] s[j] == stmts@[j].model(),
            !(obj.model() is Return),
            eval_block(fuel as nat, env0, s, Value::Null) == eval_block(
                fuel as nat,
                env.model(),
                s.subrange(i as int, s.len() as int),
                obj.model(),
            ),
        decreases stmts@.len() - i,
    {
        let ghost before = env.model();
        let ghost rest = s.subrange(i as int, s.len() as int);
        proof {
            assert(rest[0] == s[i as int]);
            assert(rest.subrange(1, rest.len() as int) =~= s.subrange(i + 1, s.len() as int));
        }
        let r = statement(env, &*stmts[i], fuel);
        proof {
            assert(eval_stmt(fuel as nat, before, rest[0]) == eval_stmt(fuel as nat, before, stmts@[i as int]@));
        }
        match r {
            Ok(o) => {
                if let Object::Return(_) = o {
                    assert(eval_block(fuel as nat, before, rest, obj.model()) == (Outcome::Done(o.model()), env.model()));
                    return Ok(o);
                }
                obj = o;
            },
            Err(f) => {
                assert(eval_block(fuel as nat, before, rest, obj.model()) == eval_stmt(fuel as nat, before, rest[0]));
                return Err(f);
            },
        }
        i = i + 1;
    }
    Ok(obj)
}

/// Evaluates one statement (see `eval_stmt`).
fn statement(env: &mut Environment, stmt: &Statement, fuel: u64) -> (r: Result<Object, Failure>)
    ensures
        matches_outcome(r, eval_stmt(fuel as nat, old(env).model(), stmt@).0),
        final(env).model() == eval_stmt(fuel as nat, old(env).model(), stmt@).1,
    decreases fuel, stmt,
{
    match stmt {
        Statement::Expression(expr) => expression(env, expr, fuel),
        Statement::Block(stmts) => statements(env, stmts, fuel),
        Statement::Return(expr) => {
            match expression(env, expr, fuel) {
                Ok(Object::Return(obj)) => Ok(Object::Return(obj)),
                Ok(obj) => Ok(Object::Return(Box::new(obj))),
                Err(f) => Err(f),
            }
        },
        Statement::Let(id, expr) => {
            match expression(env, expr, fuel) {
                Ok(Object::Return(obj)) => Ok(Object::Return(obj)),
                Ok(obj) => {
                    env.set(id.clone(), obj);
                    Ok(Object::Noop)
                },
                Err(f) => Err(f),
            }
        },
    }
}

/// Evaluates the arguments of a call (see `eval_args`). Where one does not
/// go on, the result is `Err` with what it gave.
fn arguments(env: &mut Environment, args: &Vec<Box<Expression>>, fuel: u64) -> (r: Result<
    Vec<Object>,
    Result<Object, Failure>,
>)
    ensures
        match eval_args(fuel as nat, old(env).model(), exprs_model(args@)).0 {
            Ok(vals) => r matches Ok(objs) && objects_model(objs@) == vals,
            Err(o) => r matches Err(x) && matches_outcome(x, o),
        },
        final(env).model() == eval_args(fuel as nat, old(env).model(), exprs_model(args@)).1,
    decreases fuel, args,
{
    let ghost a = exprs_model(args@);
    let ghost env0 = env.model();
    proof {
        lemma_exprs_model(args@);
    }
    let mut vals: Vec<Object> = Vec::new();
    let mut i: usize = 0;
    proof {
        assert(a.subrange(0, a.len() as int) =~= a);
        let (r0, e0) = eval_args(fuel as nat, env0, a);
        match r0 {
            Ok(ws) => {
                assert(objects_model(vals@) + ws =~= ws);
            },
            Err(_) => {},
        }
    }
    while i < args.len()
        invariant
            i <= args@.len(),
            env0 == old(env).model(),
            a == exprs_model(args@),
            a.len() == args@.len(),
            forall|j: int| 0 <= j < a.len() ==> #[trigger] a[j] == args@[j].model(),
            ({
                let (r, e) = eval_args(fuel as nat, env.model(), a.subrange(i as int, a.len() as int));
                eval_args(fuel as nat, env0, a) == (
                    match r {
                        Ok(ws) => Ok(objects_model(vals@) + ws),
                        Err(o) => Err(o),
                    },
                    e,
                )
            }),
        decreases args@.len() - i,
    {
        let ghost before = env.model();
        let ghost vals_before = objects_model(vals@);
        let ghost rest = a.subrange(i as int, a.len() as int);
        proof {
            assert(rest[0] == a[i as int]);
            assert(rest.subrange(1, rest.len() as int) =~= a.subrange(i + 1, a.len() as int));
        }
        let r = expression(env, &*args[i], fuel);
        proof {
            assert(eval_expr(fuel as nat, before, rest[0]) == eval_expr(fuel as nat, before, args@[i as int]@));
        }
        match r {
            Ok(Object::Return(obj)) => {
                assert(eval_args(fuel as nat, before, rest).0 == Err::<Seq<Value>, Outcome>(eval_expr(fuel as nat, before, rest[0]).0));
                return Err(Ok(Object::Return(obj)));
            },
            Ok(v) => {
                proof {
                    let rest2 = a.subrange(i + 1, a.len() as int);
                    let (r2, e2) = eval_args(fuel as nat, env.model(), rest2);
                    match r2 {
                        Ok(ws) => {
                            assert(objects_model(vals@.push(v)) =~= vals_before.push(v.model()));
                            assert(vals_before + (seq![v.model()] + ws) =~= vals_before.push(v.model()) + ws);
                        },
                        Err(_) => {},
                    }
                }
                vals.push(v);
            },
            Err(f) => {
                assert(eval_args(fuel as nat, before, rest).0 == Err::<Seq<Value>, Outcome>(eval_expr(fuel as nat, before, rest[0]).0));
                return Err(Err(f));
            },
        }
        i = i + 1;
    }
    proof {
        assert(a.subrange(a.len() as int, a.len() as int).len() == 0);
        assert(objects_model(vals@) + Seq::<Value>::empty() =~= objects_model(vals@));
    }
    Ok(vals)
}

/// Evaluates one expression (see `eval_expr`).
fn expression(env: &mut Environment, expr: &Expression, fuel: u64) -> (r: Result<Object, Failure>)
    ensures
        matches_outcome(r, eval_expr(fuel as nat, old(env).model(), expr@).0),
        final(env).model() == eval_expr(fuel as nat, old(env).model(), expr@).1,
    decreases fuel, expr,
{
    match expr {
        Expression::Int(value) => Ok(Object::Int(*value)),
        Expression::Bool(value) => Ok(Object::Bool(*value)),
        Expression::Prefix(op, rhs) => match expression(env, &**rhs, fuel) {
            Ok(Object::Return(obj)) => Ok(Object::Return(obj)),
            Ok(obj) => Evaluator::prefix(*op, obj),
            Err(f) => Err(f),
        },
        Expression::Infix(op, lhs, rhs) => {
            let lhs_obj = match expression(env, &**lhs, fuel) {
                Ok(Object::Return(obj)) => {
                    return Ok(Object::Return(obj));
                },
                Ok(obj) => obj,
                Err(f) => {
                    return Err(f);
                },
            };
            let rhs_obj = match expression(env, &**rhs, fuel) {
                Ok(Object::Return(obj)) => {
                    return Ok(Object::Return(obj));
                },
                Ok(obj) => obj,
                Err(f) => {
                    return Err(f);
                },
            };
            Evaluator::infix(*op, lhs_obj, rhs_obj)
        },
        Expression::If(condition, if_true) => {
            let obj = match expression(env, &**condition, fuel) {
                Ok(Object::Return(obj)) => {
                    return Ok(Object::Return(obj));
                },
                Ok(obj) => obj,
                Err(f) => {
                    return Err(f);
                },
            };
            match truth_of(&obj) {
                Ok(true) => statement(env, &**if_true, fuel),
                Ok(false) => Ok(Object::Noop),
                Err(f) => Err(Failure::Fault(f)),
            }
        },
        Expression::IfElse(condition, if_true, if_false) => {
            let obj = match expression(env, &**condition, fuel) {
                Ok(Object::Return(obj)) => {
                    return Ok(Object::Return(obj));
                },
                Ok(obj) => obj,
                Err(f) => {
                    return Err(f);
                },
            };
            match truth_of(&obj) {
                Ok(true) => statement(env, &**if_true, fuel),
                Ok(false) => statement(env, &**if_false, fuel),
                Err(f) => Err(Failure::Fault(f)),
            }
        },
        Expression::Identifier(id) => match env.get(id.clone()) {
            Ok(obj) => Ok(obj),
            Err(e) => Err(Failure::Error(e)),
        },
        Expression::Function(params, body) => Ok(
            Object::Function(copy_names(params), (**body).copy(), Box::new(env.copy())),
        ),
        Expression::Call(callee, args) => {
            let func = match expression(env, &**callee, fuel) {
                Ok(Object::Return(obj)) => {
                    return Ok(Object::Return(obj));
                },
                Ok(obj) => obj,
                Err(f) => {
                    return Err(f);
                },
            };
            let vals = match arguments(env, args, fuel) {
                Ok(vals) => vals,
                Err(r) => {
                    return r;
                },
            };
            match func {
                Object::Function(params, body, captured) => {
                    if params.len() != vals.len() {
                        return Ok(Object::Noop);
                    }
                    if fuel == 0 {
                        return Err(Failure::Fault(Fault::CallDepth));
                    }
                    let store = bind_parameters(&params, &vals);
                    let mut inner = Environment::Nested(Nested::with_store(store, captured));
                    let r = statement(&mut inner, &body, fuel - 1);
                    unwrap_return_object(r)
                },
                _ => Ok(Object::Noop),
            }
        },
    }
}

/// The truth of an object, or the fault where it has none.
fn truth_of(obj: &Object) -> (r: Result<bool, Fault>)
    ensures
        match truth(obj.model()) {
            Some(b) => r == Ok::<bool, Fault>(b),
            None => r == Err::<bool, Fault>(truth_fault(obj.model())),
        },
{
    match obj {
        Object::Return(_) => Err(Fault::TruthOfReturn),
        Object::Noop => Err(Fault::TruthOfNoop),
        Object::Function(_, _, _) => Err(Fault::TruthOfFunction),
        _ => Ok(is_truthy(obj)),
    }
}

/// The scope of a call: each parameter bound to a copy of its argument.
fn bind_parameters(params: &Vec<String>, vals: &Vec<Object>) -> (r: Store)
    requires
        params@.len() == vals@.len(),
    ensures
        r.model() == frame(crate::ast::names_model(params@), objects_model(vals@)),
{
    let ghost p = crate::ast::names_model(params@);
    let ghost v = objects_model(vals@);
    let mut store = Store::new();
    let mut i: usize = 0;
    while i < params.len()
        invariant
            i <= params@.len(),
            params@.len() == vals@.len(),
            p == crate::ast::names_model(params@),
            v == objects_model(vals@),
            store.model() == frame(p.subrange(0, i as int), v.subrange(0, i as int)),
        decreases params@.len() - i,
    {
        proof {
            let p2 = p.subrange(0, i + 1);
            let v2 = v.subrange(0, i + 1);
            assert(p2.drop_last() =~= p.subrange(0, i as int));
            assert(v2.drop_last() =~= v.subrange(0, i as int));
        }
        store.insert(params[i].clone(), vals[i].copy());
        i = i + 1;
    }
    proof {
        assert(p.subrange(0, p.len() as int) =~= p);
        assert(v.subrange(0, v.len() as int) =~= v);
    }
    store
}

} // verus!
