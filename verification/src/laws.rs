//! Properties of the language that hold of every program and environment.

use vstd::prelude::*;

use crate::ast::{Expr, InfixOperator, PrefixOperator, Stmt};
use crate::environment::{bind, lookup, Env, Root, Scopes};
use crate::object::{truth, Value};
use crate::semantics::{
    continues, eval_args, eval_block, frame, eval_expr, eval_program, eval_stmt, fits, infix_value,
    math_value, negate_value, not_value, Outcome,
};
use crate::error::Fault;
use crate::text::{digit_text, digits, expr_text, int_text, object_text};

verus! {

/// Evaluating an expression never adds or removes scopes.
pub proof fn lemma_expr_keeps_scopes(fuel: nat, env: Scopes, e: Expr)
    ensures
        eval_expr(fuel, env, e).1.len() == env.len(),
    decreases fuel, e,
{
    match e {
        Expr::Prefix(_, rhs) => {
            lemma_expr_keeps_scopes(fuel, env, *rhs);
        },
        Expr::Infix(_, lhs, rhs) => {
            lemma_expr_keeps_scopes(fuel, env, *lhs);
            let env1 = eval_expr(fuel, env, *lhs).1;
            lemma_expr_keeps_scopes(fuel, env1, *rhs);
        },
        Expr::If(c, t) => {
            lemma_expr_keeps_scopes(fuel, env, *c);
            let env1 = eval_expr(fuel, env, *c).1;
            lemma_stmt_keeps_scopes(fuel, env1, *t);
        },
        Expr::IfElse(c, t, f) => {
            lemma_expr_keeps_scopes(fuel, env, *c);
            let env1 = eval_expr(fuel, env, *c).1;
            lemma_stmt_keeps_scopes(fuel, env1, *t);
            lemma_stmt_keeps_scopes(fuel, env1, *f);
        },
        Expr::Call(callee, args) => {
            lemma_expr_keeps_scopes(fuel, env, *callee);
            let env1 = eval_expr(fuel, env, *callee).1;
            lemma_args_keeps_scopes(fuel, env1, args);
        },
        _ => {},
    }
}

/// Evaluating call arguments never adds or removes scopes.
pub proof fn lemma_args_keeps_scopes(fuel: nat, env: Scopes, args: Seq<Expr>)
    ensures
        eval_args(fuel, env, args).1.len() == env.len(),
    decreases fuel, args,
{
    if args.len() > 0 {
        lemma_expr_keeps_scopes(fuel, env, args[0]);
        let env1 = eval_expr(fuel, env, args[0]).1;
        lemma_args_keeps_scopes(fuel, env1, args.subrange(1, args.len() as int));
    }
}

/// Evaluating a statement never adds or removes scopes.
pub proof fn lemma_stmt_keeps_scopes(fuel: nat, env: Scopes, s: Stmt)
    ensures
        eval_stmt(fuel, env, s).1.len() == env.len(),
    decreases fuel, s,
{
    match s {
        Stmt::Expression(e) => lemma_expr_keeps_scopes(fuel, env, e),
        Stmt::Block(stmts) => lemma_block_keeps_scopes(fuel, env, stmts, Value::Null),
        Stmt::Return(e) => lemma_expr_keeps_scopes(fuel, env, e),
        Stmt::Let(_, e) => lemma_expr_keeps_scopes(fuel, env, e),
    }
}

/// Evaluating statements in order never adds or removes scopes.
pub proof fn lemma_block_keeps_scopes(fuel: nat, env: Scopes, stmts: Seq<Stmt>, last: Value)
    ensures
        eval_block(fuel, env, stmts, last).1.len() == env.len(),
    decreases fuel, stmts,
{
    if stmts.len() > 0 {
        lemma_stmt_keeps_scopes(fuel, env, stmts[0]);
        let (o, env1) = eval_stmt(fuel, env, stmts[0]);
        if let Outcome::Done(v) = o {
            lemma_block_keeps_scopes(fuel, env1, stmts.subrange(1, stmts.len() as int), v);
        }
    }
}

/// Reading a name just written gives back the value written.
pub proof fn law_read_after_write(scopes: Scopes, k: Seq<char>, v: Value)
    requires
        scopes.len() >= 1,
    ensures
        lookup(bind(scopes, k, v), k) == Some(v),
{
}

/// Writing a name leaves every other name as it was.
pub proof fn law_write_leaves_other_names(scopes: Scopes, k: Seq<char>, v: Value, other: Seq<char>)
    requires
        scopes.len() >= 1,
        other != k,
    ensures
        lookup(bind(scopes, k, v), other) == lookup(scopes, other),
{
    let b = bind(scopes, k, v);
    assert(b.subrange(1, b.len() as int) =~= scopes.subrange(1, scopes.len() as int));
}

/// In a root environment, `get` of a name after `set` of it gives back the
/// object set, and `set` of one name leaves every other name as it was.
pub proof fn law_root_get_after_set(r: Root, k: Seq<char>, v: Value, other: Seq<char>)
    ensures
        lookup(bind(r.scopes(), k, v), k) == Some(v),
        other != k ==> lookup(bind(r.scopes(), k, v), other) == lookup(r.scopes(), other),
{
    r.lemma_one_scope();
    law_read_after_write(r.scopes(), k, v);
    if other != k {
        law_write_leaves_other_names(r.scopes(), k, v, other);
    }
}

/// A new root environment binds no name: `get` gives `IdNotFound`.
pub proof fn law_new_root_binds_nothing(k: Seq<char>)
    ensures
        lookup(seq![Map::<Seq<char>, Value>::empty()], k) is None,
{
    let s = seq![Map::<Seq<char>, Value>::empty()];
    assert(!s[0].contains_key(k));
    assert(s.subrange(1, 1) =~= Seq::<Map<Seq<char>, Value>>::empty());
    assert(lookup(s.subrange(1, 1), k) is None);
}

/// `let id = e;` gives the empty value and binds `id` to the value of `e`
/// in the innermost scope, leaving every other name as `e` left it.
pub proof fn law_let_binds(fuel: nat, env: Scopes, id: Seq<char>, e: Expr, other: Seq<char>)
    requires
        env.len() >= 1,
        continues(eval_expr(fuel, env, e).0),
    ensures
        ({
            let (o, env1) = eval_expr(fuel, env, e);
            let after = eval_stmt(fuel, env, Stmt::Let(id, e));
            &&& after == (Outcome::Done(Value::Noop), bind(env1, id, o->Done_0))
            &&& lookup(after.1, id) == Some(o->Done_0)
            &&& other != id ==> lookup(after.1, other) == lookup(env1, other)
        }),
{
    let (o, env1) = eval_expr(fuel, env, e);
    lemma_expr_keeps_scopes(fuel, env, e);
    law_read_after_write(env1, id, o->Done_0);
    if other != id {
        law_write_leaves_other_names(env1, id, o->Done_0, other);
    }
}

/// An inner scope hides the outer ones; a name it does not bind is looked
/// up outside it.
pub proof fn law_inner_scope_first(inner: Map<Seq<char>, Value>, outer: Scopes, k: Seq<char>)
    ensures
        lookup(seq![inner] + outer, k) == if inner.contains_key(k) {
            Some(inner[k])
        } else {
            lookup(outer, k)
        },
{
    let s = seq![inner] + outer;
    assert(s.subrange(1, s.len() as int) =~= outer);
}

/// After `let id = e;`, reading `id` gives the value of `e`.
pub proof fn law_let_then_read(fuel: nat, env: Scopes, id: Seq<char>, e: Expr, last: Value)
    requires
        env.len() >= 1,
        continues(eval_expr(fuel, env, e).0),
    ensures
        ({
            let (o, env1) = eval_expr(fuel, env, e);
            let v = o->Done_0;
            eval_block(fuel, env, seq![Stmt::Let(id, e), Stmt::Expression(Expr::Identifier(id))], last)
                == (Outcome::Done(v), bind(env1, id, v))
        }),
{
    let (o, env1) = eval_expr(fuel, env, e);
    let v = o->Done_0;
    lemma_expr_keeps_scopes(fuel, env, e);
    let stmts = seq![Stmt::Let(id, e), Stmt::Expression(Expr::Identifier(id))];
    let rest = stmts.subrange(1, 2);
    assert(rest =~= seq![Stmt::Expression(Expr::Identifier(id))]);
    let env2 = bind(env1, id, v);
    law_read_after_write(env1, id, v);
    assert(eval_stmt(fuel, env2, rest[0]) == (Outcome::Done(v), env2));
    assert(rest.subrange(1, 1) =~= Seq::<Stmt>::empty());
    assert(eval_stmt(fuel, env, stmts[0]) == (Outcome::Done(Value::Noop), env2));
    assert(eval_block(fuel, env, stmts, last) == eval_block(fuel, env2, rest, Value::Noop));
    if !(v is Return) {
        assert(eval_block(fuel, env2, rest, Value::Noop) == eval_block(
            fuel,
            env2,
            rest.subrange(1, 1),
            v,
        ));
    }
}

/// A name bound by `let` in one program can be read by the next program
/// run in the same environment.
pub proof fn law_binding_persists(fuel: nat, env: Scopes, id: Seq<char>, e: Expr)
    requires
        env.len() >= 1,
        continues(eval_expr(fuel, env, e).0),
    ensures
        ({
            let (o, env1) = eval_expr(fuel, env, e);
            let v = o->Done_0;
            let after = eval_program(fuel, env, seq![Stmt::Let(id, e)]);
            &&& after == (Outcome::Done(Value::Noop), bind(env1, id, v))
            &&& eval_program(fuel, after.1, seq![Stmt::Expression(Expr::Identifier(id))]) == (
                Outcome::Done(v),
                after.1,
            )
        }),
{
    let (o, env1) = eval_expr(fuel, env, e);
    let v = o->Done_0;
    lemma_expr_keeps_scopes(fuel, env, e);
    let s1 = seq![Stmt::Let(id, e)];
    assert(s1.subrange(1, 1) =~= Seq::<Stmt>::empty());
    let env2 = bind(env1, id, v);
    law_read_after_write(env1, id, v);
    let s2 = seq![Stmt::Expression(Expr::Identifier(id))];
    assert(s2.subrange(1, 1) =~= Seq::<Stmt>::empty());
    assert(eval_stmt(fuel, env, s1[0]) == (Outcome::Done(Value::Noop), env2));
    assert(eval_block(fuel, env, s1, Value::Null) == eval_block(fuel, env2, s1.subrange(1, 1), Value::Noop));
    assert(eval_stmt(fuel, env2, s2[0]) == (Outcome::Done(v), env2));
    assert(eval_block(fuel, env2, s2, Value::Null) == eval_block(
        fuel,
        env2,
        s2.subrange(1, 1),
        v,
    ));
}

/// A statement that returns ends the statements it stands in: those after
/// it are not evaluated.
pub proof fn law_return_ends_block(
    fuel: nat,
    env: Scopes,
    s: Stmt,
    rest: Seq<Stmt>,
    last: Value,
)
    requires
        eval_stmt(fuel, env, s).0 matches Outcome::Done(v) && v is Return,
    ensures
        eval_block(fuel, env, seq![s] + rest, last) == eval_stmt(fuel, env, s),
{
    assert((seq![s] + rest)[0] == s);
}

/// A program that returns a value ends with that value, whatever follows.
pub proof fn law_return_ends_program(fuel: nat, env: Scopes, s: Stmt, rest: Seq<Stmt>)
    requires
        eval_stmt(fuel, env, s).0 matches Outcome::Done(v) && v is Return,
    ensures
        eval_program(fuel, env, seq![s] + rest) == eval_program(fuel, env, seq![s]),
{
    assert((seq![s] + rest)[0] == s);
    assert(seq![s][0] == s);
}

/// An error or a fault in a statement ends the evaluation with it: the
/// statements after it are not evaluated.
pub proof fn law_failure_ends_block(
    fuel: nat,
    env: Scopes,
    s: Stmt,
    rest: Seq<Stmt>,
    last: Value,
)
    requires
        !(eval_stmt(fuel, env, s).0 is Done),
    ensures
        eval_block(fuel, env, seq![s] + rest, last) == eval_stmt(fuel, env, s),
{
    assert((seq![s] + rest)[0] == s);
}

/// `!` gives the opposite of the truth of a value that has one.
pub proof fn law_not_is_opposite_of_truth(v: Value)
    requires
        truth(v) is Some,
    ensures
        not_value(v) == Outcome::Done(Value::Bool(!truth(v)->Some_0)),
{
}

/// `!!e` gives the truth of the value of `e`.
pub proof fn law_double_not_is_truth(fuel: nat, env: Scopes, e: Expr)
    requires
        eval_expr(fuel, env, e).0 matches Outcome::Done(v) && truth(v) is Some,
    ensures
        ({
            let (o, env1) = eval_expr(fuel, env, e);
            eval_expr(
                fuel,
                env,
                Expr::Prefix(
                    PrefixOperator::Not,
                    Box::new(Expr::Prefix(PrefixOperator::Not, Box::new(e))),
                ),
            ) == (Outcome::Done(Value::Bool(truth(o->Done_0)->Some_0)), env1)
        }),
{
    let inner = Expr::Prefix(PrefixOperator::Not, Box::new(e));
    let (o, env1) = eval_expr(fuel, env, e);
    assert(eval_expr(fuel, env, inner) == (not_value(o->Done_0), env1));
}

/// Negating an integer twice gives it back, where the first negation fits.
pub proof fn law_double_negation(i: i128)
    requires
        i != i128::MIN,
    ensures
        negate_value(Value::Int(i)) == Outcome::Done(Value::Int((-i) as i128)),
        negate_value(Value::Int((-i) as i128)) == Outcome::Done(Value::Int(i)),
{
}

/// `!=` always gives the opposite of `==`.
pub proof fn law_not_equal_is_opposite(a: Value, b: Value)
    ensures
        infix_value(InfixOperator::Equal, a, b) == Outcome::Done(Value::Bool(a == b)),
        infix_value(InfixOperator::NotEqual, a, b) == Outcome::Done(Value::Bool(!(a == b))),
{
}

/// `if` takes its branch exactly when the condition is true: non-zero
/// integers are true, 0, false and null are false.
pub proof fn law_if_follows_truth(fuel: nat, env: Scopes, cond: Expr, if_true: Stmt)
    requires
        eval_expr(fuel, env, cond).0 matches Outcome::Done(v) && truth(v) is Some,
    ensures
        ({
            let (o, env1) = eval_expr(fuel, env, cond);
            eval_expr(fuel, env, Expr::If(Box::new(cond), Box::new(if_true))) == if truth(
                o->Done_0,
            )->Some_0 {
                eval_stmt(fuel, env1, if_true)
            } else {
                (Outcome::Done(Value::Noop), env1)
            }
        }),
{
}

/// Calling a function of one parameter whose body is that parameter gives
/// back the argument.
pub proof fn law_identity_call(fuel: nat, env: Scopes, x: Seq<char>, arg: Expr)
    requires
        fuel >= 1,
        eval_expr(fuel, env, arg).0 matches Outcome::Done(v) && !(v is Return),
    ensures
        ({
            let body = Stmt::Block(seq![Stmt::Expression(Expr::Identifier(x))]);
            let callee = Expr::Function(seq![x], Box::new(body));
            eval_expr(fuel, env, Expr::Call(Box::new(callee), seq![arg])) == eval_expr(fuel, env, arg)
        }),
{
    let body = Stmt::Block(seq![Stmt::Expression(Expr::Identifier(x))]);
    let callee = Expr::Function(seq![x], Box::new(body));
    let (o, env1) = eval_expr(fuel, env, arg);
    let v = o->Done_0;
    let args = seq![arg];
    assert(args.subrange(1, 1) =~= Seq::<Expr>::empty());
    assert(args[0] == arg);
    assert(eval_args(fuel, env1, args.subrange(1, 1)) == (Ok::<Seq<Value>, Outcome>(Seq::<Value>::empty()), env1));
    assert(eval_args(fuel, env, args) == (Ok::<Seq<Value>, Outcome>(seq![v] + Seq::<Value>::empty()), env1));
    assert(seq![v] + Seq::<Value>::empty() =~= seq![v]);
    let m = frame(seq![x], seq![v]);
    assert(seq![x].drop_last() =~= Seq::<Seq<char>>::empty());
    assert(seq![v].drop_last() =~= Seq::<Value>::empty());
    assert(frame(Seq::<Seq<char>>::empty(), Seq::<Value>::empty()) == Map::<Seq<char>, Value>::empty());
    assert(seq![x].last() == x);
    assert(seq![v].last() == v);
    assert(m == Map::<Seq<char>, Value>::empty().insert(x, v));
    let scopes = seq![m] + env;
    law_inner_scope_first(m, env, x);
    let stmts = seq![Stmt::Expression(Expr::Identifier(x))];
    assert(stmts.subrange(1, 1) =~= Seq::<Stmt>::empty());
    let f = (fuel - 1) as nat;
    assert(eval_stmt(f, scopes, stmts[0]) == (Outcome::Done(v), scopes));
    assert(eval_block(f, scopes, stmts, Value::Null) == eval_block(f, scopes, stmts.subrange(1, 1), v));
    assert(eval_stmt(f, scopes, body).0 == Outcome::Done(v));
    assert(eval_expr(fuel, env, callee) == (Outcome::Done(Value::Function(seq![x], body, env)), env));
    assert(seq![x].len() == seq![v].len());
}

/// A call ends at a `return` in the body of the function: the call gives
/// the returned value itself (never a `return` value), so the expression
/// around the call goes on with it. A body that ends without `return`
/// gives its last value, and an error or fault in the body is the call's.
pub proof fn law_call_gives_returned_value(fuel: nat, env: Scopes, callee: Expr, args: Seq<Expr>)
    requires
        fuel >= 1,
        continues(eval_expr(fuel, env, callee).0),
        eval_expr(fuel, env, callee).0->Done_0 is Function,
        eval_args(fuel, eval_expr(fuel, env, callee).1, args).0 is Ok,
        eval_args(fuel, eval_expr(fuel, env, callee).1, args).0->Ok_0.len()
            == eval_expr(fuel, env, callee).0->Done_0->Function_0.len(),
    ensures
        ({
            let (o1, env1) = eval_expr(fuel, env, callee);
            let f = o1->Done_0;
            let (r, env2) = eval_args(fuel, env1, args);
            let vals = r->Ok_0;
            let body_result = eval_stmt(
                (fuel - 1) as nat,
                seq![frame(f->Function_0, vals)] + f->Function_2,
                f->Function_1,
            ).0;
            let call = eval_expr(fuel, env, Expr::Call(Box::new(callee), args));
            &&& call.1 == env2
            &&& (body_result matches Outcome::Done(Value::Return(v)) ==> call.0 == Outcome::Done(*v))
            &&& (body_result matches Outcome::Done(w) && !(w is Return) ==> call.0 == body_result)
            &&& (!(body_result is Done) ==> call.0 == body_result)
        }),
{
}

/// `f(n) + 1`, where `f` returns its parameter, gives `n + 1`: the return
/// in `f` ends the call only.
pub proof fn law_returning_call_then_add(fuel: nat, env: Scopes, x: Seq<char>, n: i128)
    requires
        fuel >= 1,
        fits(n + 1),
    ensures
        ({
            let body = Stmt::Block(seq![Stmt::Return(Expr::Identifier(x))]);
            let f = Expr::Function(seq![x], Box::new(body));
            let call = Expr::Call(Box::new(f), seq![Expr::Int(n)]);
            eval_expr(fuel, env, Expr::Infix(InfixOperator::Plus, Box::new(call), Box::new(Expr::Int(1))))
                == (Outcome::Done(Value::Int((n + 1) as i128)), env)
        }),
{
    let body = Stmt::Block(seq![Stmt::Return(Expr::Identifier(x))]);
    let f = Expr::Function(seq![x], Box::new(body));
    let args = seq![Expr::Int(n)];
    let call = Expr::Call(Box::new(f), args);
    assert(args[0] == Expr::Int(n));
    assert(args.subrange(1, 1) =~= Seq::<Expr>::empty());
    assert(eval_args(fuel, env, args.subrange(1, 1)) == (Ok::<Seq<Value>, Outcome>(Seq::<Value>::empty()), env));
    assert(seq![Value::Int(n)] + Seq::<Value>::empty() =~= seq![Value::Int(n)]);
    assert(eval_expr(fuel, env, args[0]) == (Outcome::Done(Value::Int(n)), env));
    assert(eval_args(fuel, env, args) == (Ok::<Seq<Value>, Outcome>(seq![Value::Int(n)]), env));
    let m = frame(seq![x], seq![Value::Int(n)]);
    assert(seq![x].drop_last() =~= Seq::<Seq<char>>::empty());
    assert(seq![Value::Int(n)].drop_last() =~= Seq::<Value>::empty());
    assert(frame(Seq::<Seq<char>>::empty(), Seq::<Value>::empty()) == Map::<Seq<char>, Value>::empty());
    assert(m == Map::<Seq<char>, Value>::empty().insert(x, Value::Int(n)));
    let scopes = seq![m] + env;
    law_inner_scope_first(m, env, x);
    let stmts = seq![Stmt::Return(Expr::Identifier(x))];
    let g = (fuel - 1) as nat;
    assert(eval_expr(g, scopes, Expr::Identifier(x)) == (Outcome::Done(Value::Int(n)), scopes));
    assert(eval_stmt(g, scopes, stmts[0]) == (
        Outcome::Done(Value::Return(Box::new(Value::Int(n)))),
        scopes,
    ));
    assert(eval_stmt(g, scopes, body).0 == Outcome::Done(Value::Return(Box::new(Value::Int(n)))));
    assert(eval_expr(fuel, env, f) == (
        Outcome::Done(Value::Function(seq![x], body, env)),
        env,
    ));
    assert(eval_expr(fuel, env, call) == (Outcome::Done(Value::Int(n)), env));
    assert(eval_expr(fuel, env, Expr::Int(1)) == (Outcome::Done(Value::Int(1)), env));
}

/// `if (c) { .. } else { .. }` takes the first branch exactly when the
/// value of `c` is true and the second exactly when it is false.
pub proof fn law_if_else_follows_truth(fuel: nat, env: Scopes, cond: Expr, if_true: Stmt, if_false: Stmt)
    requires
        eval_expr(fuel, env, cond).0 matches Outcome::Done(v) && truth(v) is Some,
    ensures
        ({
            let (o, env1) = eval_expr(fuel, env, cond);
            let e = Expr::IfElse(Box::new(cond), Box::new(if_true), Box::new(if_false));
            &&& truth(o->Done_0) == Some(true) ==> eval_expr(fuel, env, e) == eval_stmt(fuel, env1, if_true)
            &&& truth(o->Done_0) == Some(false) ==> eval_expr(fuel, env, e) == eval_stmt(fuel, env1, if_false)
        }),
{
}

/// An integer condition is true exactly when it is not 0: `if (i) { t }
/// else { f }` runs `t` for every non-zero `i` and `f` for 0, and `if (i)
/// { t }` runs `t` for non-zero `i` and gives the empty value for 0.
pub proof fn law_integer_conditions(fuel: nat, env: Scopes, i: i128, if_true: Stmt, if_false: Stmt)
    ensures
        eval_expr(
            fuel,
            env,
            Expr::IfElse(Box::new(Expr::Int(i)), Box::new(if_true), Box::new(if_false)),
        ) == if i != 0 {
            eval_stmt(fuel, env, if_true)
        } else {
            eval_stmt(fuel, env, if_false)
        },
        eval_expr(fuel, env, Expr::If(Box::new(Expr::Int(i)), Box::new(if_true))) == if i != 0 {
            eval_stmt(fuel, env, if_true)
        } else {
            (Outcome::Done(Value::Noop), env)
        },
{
    assert(eval_expr(fuel, env, Expr::Int(i)) == (Outcome::Done(Value::Int(i)), env));
}

/// A boolean condition picks the first branch when true and the second
/// when false; `null` is false.
pub proof fn law_boolean_and_null_conditions(fuel: nat, env: Scopes, b: bool, if_true: Stmt, if_false: Stmt)
    ensures
        eval_expr(
            fuel,
            env,
            Expr::IfElse(Box::new(Expr::Bool(b)), Box::new(if_true), Box::new(if_false)),
        ) == if b {
            eval_stmt(fuel, env, if_true)
        } else {
            eval_stmt(fuel, env, if_false)
        },
        truth(Value::Null) == Some(false),
{
    assert(eval_expr(fuel, env, Expr::Bool(b)) == (Outcome::Done(Value::Bool(b)), env));
}

/// `<` and `>` on integers follow the order of the integers: `a < a` is
/// false, and exactly one of `a < b`, `b < a`, `a == b` holds.
pub proof fn law_integer_comparisons(a: i128, b: i128)
    ensures
        infix_value(InfixOperator::LessThan, Value::Int(a), Value::Int(b)) == Outcome::Done(
            Value::Bool(a < b),
        ),
        infix_value(InfixOperator::GreaterThan, Value::Int(a), Value::Int(b)) == Outcome::Done(
            Value::Bool(a > b),
        ),
        math_value(InfixOperator::LessThan, Value::Int(a), Value::Int(b)) == Outcome::Done(
            Value::Bool(a < b),
        ),
        math_value(InfixOperator::GreaterThan, Value::Int(a), Value::Int(b)) == Outcome::Done(
            Value::Bool(a > b),
        ),
        infix_value(InfixOperator::LessThan, Value::Int(a), Value::Int(a)) == Outcome::Done(
            Value::Bool(false),
        ),
        infix_value(InfixOperator::GreaterThan, Value::Int(a), Value::Int(b)) == infix_value(
            InfixOperator::LessThan,
            Value::Int(b),
            Value::Int(a),
        ),
{
}

/// `+`, `-` and `*` on integers give the mathematical sum, difference and
/// product (signs included) where it fits in `i128`, and the overflow
/// fault where it does not.
pub proof fn law_integer_arithmetic(a: i128, b: i128)
    ensures
        math_value(InfixOperator::Plus, Value::Int(a), Value::Int(b)) == if fits(a + b) {
            Outcome::Done(Value::Int((a + b) as i128))
        } else {
            Outcome::Faulted(Fault::Overflow)
        },
        math_value(InfixOperator::Minus, Value::Int(a), Value::Int(b)) == if fits(a - b) {
            Outcome::Done(Value::Int((a - b) as i128))
        } else {
            Outcome::Faulted(Fault::Overflow)
        },
        math_value(InfixOperator::Multiply, Value::Int(a), Value::Int(b)) == if fits(a * b) {
            Outcome::Done(Value::Int((a * b) as i128))
        } else {
            Outcome::Faulted(Fault::Overflow)
        },
        infix_value(InfixOperator::Multiply, Value::Int(a), Value::Int(b)) == math_value(
            InfixOperator::Multiply,
            Value::Int(a),
            Value::Int(b),
        ),
        infix_value(InfixOperator::Plus, Value::Int(a), Value::Int(b)) == math_value(
            InfixOperator::Plus,
            Value::Int(a),
            Value::Int(b),
        ),
        infix_value(InfixOperator::Minus, Value::Int(a), Value::Int(b)) == math_value(
            InfixOperator::Minus,
            Value::Int(a),
            Value::Int(b),
        ),
{
}

/// `/` on integers rounds toward zero: where `b` is not 0 and the quotient
/// `q` fits, `a == q * b + r` with `|r| < |b|` and `r` zero or of the sign of
/// `a`. Division by 0 is the division fault.
pub proof fn law_integer_division(a: i128, b: i128)
    ensures
        b == 0 ==> math_value(InfixOperator::Divide, Value::Int(a), Value::Int(b))
            == Outcome::Faulted(Fault::DivisionByZero),
        b != 0 && !(a == i128::MIN && b == -1) ==> (math_value(
            InfixOperator::Divide,
            Value::Int(a),
            Value::Int(b),
        ) matches Outcome::Done(Value::Int(q)) && {
            let r = a - q * b;
            &&& (if r < 0 { -r } else { r }) < (if b < 0 { -b } else { b as int })
            &&& (r == 0 || (r < 0) == (a < 0))
        }),
{
    if b != 0 && !(a == i128::MIN && b == -1) {
        let x = a as int;
        let y = b as int;
        let ax = if x < 0 { -x } else { x };
        let ay = if y < 0 { -y } else { y };
        let q = ax / ay;
        let rr = ax % ay;
        assert(ax == q * ay + rr && 0 <= rr < ay) by (nonlinear_arith)
            requires
                ay > 0,
                ax >= 0,
                q == ax / ay,
                rr == ax % ay,
        ;
        assert(q <= ax) by (nonlinear_arith)
            requires
                ay >= 1,
                ax >= 0,
                q == ax / ay,
        ;
        assert(q >= 0) by (nonlinear_arith)
            requires
                ax >= 0,
                ay > 0,
                q == ax / ay,
        ;
        assert(ay == 1 ==> q == ax) by (nonlinear_arith)
            requires
                ax >= 0,
                q == ax / ay,
        ;
        assert(ay >= 2 ==> q * 2 <= ax) by (nonlinear_arith)
            requires
                ax >= 0,
                ax == q * ay + rr,
                0 <= rr,
                q >= 0,
        ;
        let qq = if (x < 0) == (y < 0) { q } else { -q };
        assert(fits(qq));
        let r = x - qq * y;
        if x >= 0 && y > 0 {
            assert(r == rr);
        } else if x >= 0 && y < 0 {
            assert(qq * y == q * ay) by (nonlinear_arith)
                requires
                    qq == -q,
                    y == -ay,
            ;
            assert(r == rr);
        } else if x < 0 && y > 0 {
            assert(qq * y == -(q * ay)) by (nonlinear_arith)
                requires
                    qq == -q,
                    y == ay,
            ;
            assert(r == -rr);
        } else {
            assert(qq * y == -(q * ay)) by (nonlinear_arith)
                requires
                    qq == q,
                    y == -ay,
            ;
            assert(r == -rr);
        }
    }
}

/// A boolean is shown as `true` or `false`, the same text as the literal
/// in a program; the two texts differ, so the shown text gives the value back.
pub proof fn law_boolean_text(b: bool, c: bool)
    ensures
        object_text(Value::Bool(b)) == expr_text(Expr::Bool(b)),
        object_text(Value::Bool(b)) == (if b { "true"@ } else { "false"@ }),
        (object_text(Value::Bool(b)) == object_text(Value::Bool(c))) <==> (b == c),
{
    reveal_strlit("true");
    reveal_strlit("false");
    assert("true"@.len() == 4);
    assert("false"@.len() == 5);
}

/// An integer is shown as the same text as the literal in a program.
pub proof fn law_integer_text(i: i128)
    ensures
        object_text(Value::Int(i)) == expr_text(Expr::Int(i)),
{
}

/// Statements run in order: a statement that goes on hands its value and
/// environment to the ones after it, and no statements give `last`.
pub proof fn law_block_runs_in_order(fuel: nat, env: Scopes, s: Stmt, rest: Seq<Stmt>, last: Value)
    ensures
        eval_block(fuel, env, Seq::empty(), last) == (Outcome::Done(last), env),
        continues(eval_stmt(fuel, env, s).0) ==> eval_block(fuel, env, seq![s] + rest, last)
            == eval_block(fuel, eval_stmt(fuel, env, s).1, rest, eval_stmt(fuel, env, s).0->Done_0),
{
    let all = seq![s] + rest;
    assert(all[0] == s);
    assert(all.subrange(1, all.len() as int) =~= rest);
}

/// The scope of a call binds each parameter to the argument at its
/// position (where no parameter name is repeated), and nothing else.
pub proof fn law_call_scope_binds_parameters(params: Seq<Seq<char>>, vals: Seq<Value>)
    requires
        params.len() == vals.len(),
        forall|i: int, j: int| 0 <= i < j < params.len() ==> params[i] != params[j],
    ensures
        forall|i: int| 0 <= i < params.len() ==> #[trigger] frame(params, vals).contains_key(params[i])
            && frame(params, vals)[params[i]] == vals[i],
        forall|k: Seq<char>| #[trigger] frame(params, vals).contains_key(k) ==> params.contains(k),
    decreases params.len(),
{
    if params.len() > 0 {
        let p = params.drop_last();
        let v = vals.drop_last();
        law_call_scope_binds_parameters(p, v);
        assert forall|i: int| 0 <= i < params.len() implies #[trigger] frame(params, vals).contains_key(params[i])
            && frame(params, vals)[params[i]] == vals[i] by {
            assert(frame(params, vals) == frame(p, v).insert(params.last(), vals.last()));
            if i < params.len() - 1 {
                assert(p[i] == params[i]);
                assert(v[i] == vals[i]);
                assert(params[i] != params[params.len() - 1]);
                assert(frame(p, v).contains_key(p[i]));
            } else {
                assert(params[i] == params.last());
                assert(vals[i] == vals.last());
            }
        }
        assert forall|k: Seq<char>| #[trigger] frame(params, vals).contains_key(k) implies params.contains(k) by {
            assert(frame(params, vals) == frame(p, v).insert(params.last(), vals.last()));
            if k != params.last() {
                assert(frame(p, v).contains_key(k));
                assert(p.contains(k));
                let i = choose|i: int| 0 <= i < p.len() && p[i] == k;
                assert(params[i] == k);
            } else {
                assert(params[params.len() - 1] == k);
            }
        }
    }
}

/// Integers are written in decimal: each digit is the character of its
/// value, a number is the digits of its tens followed by its last digit,
/// and a negative number is `-` followed by its magnitude.
pub proof fn law_decimal_text(n: nat, d: nat, i: int)
    requires
        d < 10,
    ensures
        digit_text(d) == seq![((48 + d) as u32) as char],
        digits(10 * n + d) == (if n == 0 { Seq::empty() } else { digits(n) }) + digit_text(d),
        i < 0 ==> int_text(i) == seq!['-'] + int_text(-i),
{
    reveal_strlit("0");
    reveal_strlit("1");
    reveal_strlit("2");
    reveal_strlit("3");
    reveal_strlit("4");
    reveal_strlit("5");
    reveal_strlit("6");
    reveal_strlit("7");
    reveal_strlit("8");
    reveal_strlit("9");
    reveal_strlit("-");
    assert(digit_text(d) =~= seq![((48 + d) as u32) as char]);
    let m = 10 * n + d;
    assert(m / 10 == n && m % 10 == d);
    if n == 0 {
        assert(digits(m) =~= Seq::<char>::empty() + digit_text(d));
    }
    if i < 0 {
        assert(int_text(i) =~= seq!['-'] + int_text(-i));
    }
}

} // verus!
