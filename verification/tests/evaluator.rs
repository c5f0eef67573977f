use monkey_interpreter::ast::{Expression, InfixOperator, PrefixOperator, Program, Statement};
use monkey_interpreter::environment::{Environment, Root};
use monkey_interpreter::error::{Error, Fault};
use monkey_interpreter::evaluator::Evaluator;
use monkey_interpreter::object::{Object, NOOP};

fn num(v: i128) -> Expression {
    Expression::Int(v)
}

fn boolean(b: bool) -> Expression {
    Expression::Bool(b)
}

fn ident(name: &str) -> Expression {
    Expression::Identifier(name.to_owned())
}

fn not(e: Expression) -> Expression {
    Expression::Prefix(PrefixOperator::Not, Box::new(e))
}

fn neg(e: Expression) -> Expression {
    Expression::Prefix(PrefixOperator::Negate, Box::new(e))
}

fn infix(op: InfixOperator, l: Expression, r: Expression) -> Expression {
    Expression::Infix(op, Box::new(l), Box::new(r))
}

fn plus(l: Expression, r: Expression) -> Expression {
    infix(InfixOperator::Plus, l, r)
}

fn minus(l: Expression, r: Expression) -> Expression {
    infix(InfixOperator::Minus, l, r)
}

fn times(l: Expression, r: Expression) -> Expression {
    infix(InfixOperator::Multiply, l, r)
}

fn div(l: Expression, r: Expression) -> Expression {
    infix(InfixOperator::Divide, l, r)
}

fn lt(l: Expression, r: Expression) -> Expression {
    infix(InfixOperator::LessThan, l, r)
}

fn gt(l: Expression, r: Expression) -> Expression {
    infix(InfixOperator::GreaterThan, l, r)
}

fn expr(e: Expression) -> Statement {
    Statement::Expression(e)
}

fn ret(e: Expression) -> Statement {
    Statement::Return(e)
}

fn let_(name: &str, e: Expression) -> Statement {
    Statement::Let(name.to_owned(), e)
}

fn block(stmts: Vec<Statement>) -> Statement {
    Statement::Block(stmts.into_iter().map(Box::new).collect())
}

fn if_(c: Expression, t: Statement) -> Expression {
    Expression::If(Box::new(c), Box::new(t))
}

fn if_else(c: Expression, t: Statement, f: Statement) -> Expression {
    Expression::IfElse(Box::new(c), Box::new(t), Box::new(f))
}

fn func(params: &[&str], body: Statement) -> Expression {
    Expression::Function(params.iter().map(|p| p.to_string()).collect(), Box::new(body))
}

fn call(f: Expression, args: Vec<Expression>) -> Expression {
    Expression::Call(Box::new(f), args.into_iter().map(Box::new).collect())
}

fn program(stmts: Vec<Statement>) -> Program {
    Program { statements: stmts.into_iter().map(Box::new).collect() }
}

fn run(stmts: Vec<Statement>) -> Result<Object, Error> {
    let mut evaluator = Evaluator::new();
    evaluator.eval(program(stmts))
}

#[test]
fn eval() {
    let test_cases: Vec<(Vec<Statement>, Object)> = vec![
        // 5
        (vec![expr(num(5))], Object::Int(5)),
        // 10
        (vec![expr(num(10))], Object::Int(10)),
        // true
        (vec![expr(boolean(true))], Object::Bool(true)),
        // false
        (vec![expr(boolean(false))], Object::Bool(false)),
        // !true
        (vec![expr(not(boolean(true)))], Object::Bool(false)),
        // !false
        (vec![expr(not(boolean(false)))], Object::Bool(true)),
        // !5
        (vec![expr(not(num(5)))], Object::Bool(false)),
        // !!true
        (vec![expr(not(not(boolean(true))))], Object::Bool(true)),
        // !!false
        (vec![expr(not(not(boolean(false))))], Object::Bool(false)),
        // !!5
        (vec![expr(not(not(num(5))))], Object::Bool(true)),
        // -5
        (vec![expr(neg(num(5)))], Object::Int(-5)),
        // --5
        (vec![expr(neg(neg(num(5))))], Object::Int(5)),
        // 5 + 5 + 5 + 5 - 10
        (
            vec![expr(minus(plus(plus(plus(num(5), num(5)), num(5)), num(5)), num(10)))],
            Object::Int(10),
        ),
        // 2 * 2 * 2 * 2 * 2
        (
            vec![expr(times(times(times(times(num(2), num(2)), num(2)), num(2)), num(2)))],
            Object::Int(32),
        ),
        // -50 + 100 + -50
        (vec![expr(plus(plus(neg(num(50)), num(100)), neg(num(50))))], Object::Int(0)),
        // 5 * 2 + 10
        (vec![expr(plus(times(num(5), num(2)), num(10)))], Object::Int(20)),
        // 5 + 2 * 10
        (vec![expr(plus(num(5), times(num(2), num(10))))], Object::Int(25)),
        // 20 + 2 * -10
        (vec![expr(plus(num(20), times(num(2), neg(num(10)))))], Object::Int(0)),
        // 50 / 2 * 2 + 10
        (vec![expr(plus(times(div(num(50), num(2)), num(2)), num(10)))], Object::Int(60)),
        // 2 * (5 + 10)
        (vec![expr(times(num(2), plus(num(5), num(10))))], Object::Int(30)),
        // 3 * 3 * 3 + 10
        (vec![expr(plus(times(times(num(3), num(3)), num(3)), num(10)))], Object::Int(37)),
        // 3 * (3 * 3) + 10
        (vec![expr(plus(times(num(3), times(num(3), num(3))), num(10)))], Object::Int(37)),
        // (5 + 10 * 2 + 15 / 3) * 2 + -10
        (
            vec![expr(plus(
                times(plus(plus(num(5), times(num(10), num(2))), div(num(15), num(3))), num(2)),
                neg(num(10)),
            ))],
            Object::Int(50),
        ),
        // if (true) { 10 }
        (vec![expr(if_(boolean(true), block(vec![expr(num(10))])))], Object::Int(10)),
        // if (false) { 10 }
        (vec![expr(if_(boolean(false), block(vec![expr(num(10))])))], NOOP),
        // if (1) { 10 }
        (vec![expr(if_(num(1), block(vec![expr(num(10))])))], Object::Int(10)),
        // if (1 < 2) { 10 }
        (vec![expr(if_(lt(num(1), num(2)), block(vec![expr(num(10))])))], Object::Int(10)),
        // if (1 > 2) { 10 }
        (vec![expr(if_(gt(num(1), num(2)), block(vec![expr(num(10))])))], NOOP),
        // if (1 > 2) { 10 } else { 20 }
        (
            vec![expr(if_else(
                gt(num(1), num(2)),
                block(vec![expr(num(10))]),
                block(vec![expr(num(20))]),
            ))],
            Object::Int(20),
        ),
        // if (1 < 2) { 10 } else { 20 }
        (
            vec![expr(if_else(
                lt(num(1), num(2)),
                block(vec![expr(num(10))]),
                block(vec![expr(num(20))]),
            ))],
            Object::Int(10),
        ),
        // return 10;
        (vec![ret(num(10))], Object::Int(10)),
        // return 10; 9;
        (vec![ret(num(10)), expr(num(9))], Object::Int(10)),
        // return 2 * 5;
        (vec![ret(times(num(2), num(5)))], Object::Int(10)),
        // 9; return 2 * 5; 9;
        (vec![expr(num(9)), ret(times(num(2), num(5))), expr(num(9))], Object::Int(10)),
        // let a = 5; a;
        (vec![let_("a", num(5)), expr(ident("a"))], Object::Int(5)),
        // let a = 5 * 5; a;
        (vec![let_("a", times(num(5), num(5))), expr(ident("a"))], Object::Int(25)),
        // let a = 5; let b = a; b;
        (vec![let_("a", num(5)), let_("b", ident("a")), expr(ident("b"))], Object::Int(5)),
        // let a = 5; let b = a; let c = a + b + 5; c;
        (
            vec![
                let_("a", num(5)),
                let_("b", ident("a")),
                let_("c", plus(plus(ident("a"), ident("b")), num(5))),
                expr(ident("c")),
            ],
            Object::Int(15),
        ),
        // fn(x) { x + 2; };
        (
            vec![expr(func(&["x"], block(vec![expr(plus(ident("x"), num(2)))])))],
            Object::Function(
                vec!["x".to_owned()],
                block(vec![expr(plus(ident("x"), num(2)))]),
                Box::new(Environment::Root(Root::new())),
            ),
        ),
        // let identity = fn(x) { x; }; identity(5);
        (
            vec![
                let_("identity", func(&["x"], block(vec![expr(ident("x"))]))),
                expr(call(ident("identity"), vec![num(5)])),
            ],
            Object::Int(5),
        ),
        // let identity = fn(x) { return x; }; identity(5);
        (
            vec![
                let_("identity", func(&["x"], block(vec![ret(ident("x"))]))),
                expr(call(ident("identity"), vec![num(5)])),
            ],
            Object::Int(5),
        ),
        // let double = fn(x) {  x * 2; }; double(5);
        (
            vec![
                let_("double", func(&["x"], block(vec![expr(times(ident("x"), num(2)))]))),
                expr(call(ident("double"), vec![num(5)])),
            ],
            Object::Int(10),
        ),
        // let add = fn(x, y) {  x + y; }; add(5, 5);
        (
            vec![
                let_("add", func(&["x", "y"], block(vec![expr(plus(ident("x"), ident("y")))]))),
                expr(call(ident("add"), vec![num(5), num(5)])),
            ],
            Object::Int(10),
        ),
        // let add = fn(x, y) {  x + y; }; add(5 + 5, add(5, 5)));
        (
            vec![
                let_("add", func(&["x", "y"], block(vec![expr(plus(ident("x"), ident("y")))]))),
                expr(call(
                    ident("add"),
                    vec![plus(num(5), num(5)), call(ident("add"), vec![num(5), num(5)])],
                )),
            ],
            Object::Int(20),
        ),
    ];

    for (stmts, expected_obj) in test_cases {
        let obj = run(stmts).unwrap();
        assert_eq!(obj, expected_obj);
    }
}

#[test]
fn errors() {
    let test_cases: Vec<(Vec<Statement>, Error)> = vec![
        // 5 + true;
        (
            vec![expr(plus(num(5), boolean(true)))],
            Error::InfixTypeMismatch(InfixOperator::Plus, Object::Int(5), Object::Bool(true)),
        ),
        // 5 + true; 5;
        (
            vec![expr(plus(num(5), boolean(true))), expr(num(5))],
            Error::InfixTypeMismatch(InfixOperator::Plus, Object::Int(5), Object::Bool(true)),
        ),
        // -true
        (vec![expr(neg(boolean(true)))], Error::UnsupportedNegate(Object::Bool(true))),
        // true + false;
        (
            vec![expr(plus(boolean(true), boolean(false)))],
            Error::InfixTypeMismatch(InfixOperator::Plus, Object::Bool(true), Object::Bool(false)),
        ),
        // 5; true + false; 5;
        (
            vec![expr(num(5)), expr(plus(boolean(true), boolean(false))), expr(num(5))],
            Error::InfixTypeMismatch(InfixOperator::Plus, Object::Bool(true), Object::Bool(false)),
        ),
        // if (10 > 1) { true + false; }
        (
            vec![expr(if_(
                gt(num(10), num(1)),
                block(vec![expr(plus(boolean(true), boolean(false)))]),
            ))],
            Error::InfixTypeMismatch(InfixOperator::Plus, Object::Bool(true), Object::Bool(false)),
        ),
        // if (10 > 1) { if (10 > 1) { return true + false; } return 1; }
        (
            vec![expr(if_(
                gt(num(10), num(1)),
                block(vec![
                    expr(if_(
                        gt(num(10), num(1)),
                        block(vec![ret(plus(boolean(true), boolean(false)))]),
                    )),
                    ret(num(1)),
                ]),
            ))],
            Error::InfixTypeMismatch(InfixOperator::Plus, Object::Bool(true), Object::Bool(false)),
        ),
        // foobar
        (vec![expr(ident("foobar"))], Error::IdNotFound("foobar".to_owned())),
    ];

    for (stmts, expected_error) in test_cases {
        assert_eq!(run(stmts).unwrap_err(), expected_error);
    }
}

#[test]
fn return_inside_block_ends_program() {
    // if (true) { return 1; } not_reached;
    let r = run(vec![
        expr(if_(boolean(true), block(vec![ret(num(1))]))),
        expr(ident("not_reached")),
    ]);
    assert_eq!(r.unwrap(), Object::Int(1));
}

#[test]
fn equality_operators() {
    // true != false;
    let r = run(vec![expr(infix(InfixOperator::NotEqual, boolean(true), boolean(false)))]);
    assert_eq!(r.unwrap(), Object::Bool(true));
    // true == true;
    let r = run(vec![expr(infix(InfixOperator::Equal, boolean(true), boolean(true)))]);
    assert_eq!(r.unwrap(), Object::Bool(true));
    // 1 == 2;
    let r = run(vec![expr(infix(InfixOperator::Equal, num(1), num(2)))]);
    assert_eq!(r.unwrap(), Object::Bool(false));
    // 1 != 1;
    let r = run(vec![expr(infix(InfixOperator::NotEqual, num(1), num(1)))]);
    assert_eq!(r.unwrap(), Object::Bool(false));
    // fn(x) { x; } == fn(x) { x; }
    let f = || func(&["x"], block(vec![expr(ident("x"))]));
    let r = run(vec![expr(infix(InfixOperator::Equal, f(), f()))]);
    assert_eq!(r.unwrap(), Object::Bool(true));
}

#[test]
fn faults() {
    let cases: Vec<(Vec<Statement>, Fault)> = vec![
        (vec![expr(div(num(1), num(0)))], Fault::DivisionByZero),
        (vec![expr(plus(num(i128::MAX), num(1)))], Fault::Overflow),
        (vec![expr(neg(num(i128::MIN)))], Fault::Overflow),
        (vec![expr(div(num(i128::MIN), neg(num(1))))], Fault::Overflow),
        (
            vec![expr(if_(if_(boolean(false), block(vec![expr(num(1))])), block(vec![])))],
            Fault::TruthOfNoop,
        ),
        (vec![expr(not(func(&[], block(vec![]))))], Fault::NotOfFunction),
    ];
    for (stmts, fault) in cases {
        let mut evaluator = Evaluator::new();
        assert_eq!(evaluator.eval_checked(program(stmts)).unwrap_err(), fault);
    }
}

#[test]
fn deep_recursion_gives_its_value() {
    // let l = fn(f, n) { if (n > 0) { f(f, n - 1) } else { 0 } }; l(l, 300);
    let body = block(vec![expr(if_else(
        gt(ident("n"), num(0)),
        block(vec![expr(call(ident("f"), vec![ident("f"), minus(ident("n"), num(1))]))]),
        block(vec![expr(num(0))]),
    ))]);
    let r = run(vec![
        let_("l", func(&["f", "n"], body)),
        expr(call(ident("l"), vec![ident("l"), num(300)])),
    ]);
    assert_eq!(r.unwrap(), Object::Int(0));
}
