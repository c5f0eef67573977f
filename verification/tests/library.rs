use monkey_interpreter::ast::{Expression, InfixOperator, PrefixOperator, Program, Statement};
use monkey_interpreter::environment::{Env, Environment, Nested, Root};
use monkey_interpreter::error::{Error, Failure, Fault};
use monkey_interpreter::evaluator::Evaluator;
use monkey_interpreter::object::{get_infix_ints, is_truthy, Object, NOOP, NULL};

fn num(v: i128) -> Expression {
    Expression::Int(v)
}

fn ident(name: &str) -> Expression {
    Expression::Identifier(name.to_owned())
}

fn expr(e: Expression) -> Statement {
    Statement::Expression(e)
}

fn let_(name: &str, e: Expression) -> Statement {
    Statement::Let(name.to_owned(), e)
}

fn block(stmts: Vec<Statement>) -> Statement {
    Statement::Block(stmts.into_iter().map(Box::new).collect())
}

fn func(params: &[&str], body: Statement) -> Expression {
    Expression::Function(params.iter().map(|p| p.to_string()).collect(), Box::new(body))
}

fn call(f: Expression, args: Vec<Expression>) -> Expression {
    Expression::Call(Box::new(f), args.into_iter().map(Box::new).collect())
}

fn plus(l: Expression, r: Expression) -> Expression {
    Expression::Infix(InfixOperator::Plus, Box::new(l), Box::new(r))
}

fn program(stmts: Vec<Statement>) -> Program {
    Program { statements: stmts.into_iter().map(Box::new).collect() }
}

fn run(stmts: Vec<Statement>) -> Result<Object, Error> {
    Evaluator::new().eval(program(stmts))
}

#[test]
fn root_reads_what_was_written() {
    let mut root = Root::new();
    root.set("a".to_owned(), Object::Int(1));
    root.set("b".to_owned(), Object::Bool(true));
    root.set("a".to_owned(), Object::Int(2));
    assert_eq!(root.get("a".to_owned()).unwrap(), Object::Int(2));
    assert_eq!(root.get("b".to_owned()).unwrap(), Object::Bool(true));
    assert_eq!(root.get("c".to_owned()).unwrap_err(), Error::IdNotFound("c".to_owned()));
}

#[test]
fn nested_looks_outward_and_shadows() {
    let mut root = Environment::Root(Root::new());
    root.set("x".to_owned(), Object::Int(1));
    root.set("y".to_owned(), Object::Int(2));
    let mut nested = Nested::new(Box::new(root));
    nested.set("x".to_owned(), Object::Int(10));
    assert_eq!(nested.get("x".to_owned()).unwrap(), Object::Int(10));
    assert_eq!(nested.get("y".to_owned()).unwrap(), Object::Int(2));
    assert_eq!(nested.get("z".to_owned()).unwrap_err(), Error::IdNotFound("z".to_owned()));
}

#[test]
fn infix_ints() {
    assert_eq!(get_infix_ints(Object::Int(3), Object::Int(-4)), Some((3, -4)));
    assert_eq!(get_infix_ints(Object::Int(3), Object::Bool(true)), None);
    assert_eq!(get_infix_ints(NULL, Object::Int(1)), None);
}

#[test]
fn truthiness() {
    assert!(!is_truthy(&NULL));
    assert!(!is_truthy(&Object::Int(0)));
    assert!(is_truthy(&Object::Int(-3)));
    assert!(is_truthy(&Object::Bool(true)));
    assert!(!is_truthy(&Object::Bool(false)));
}

#[test]
fn prefix_and_infix_operators() {
    assert_eq!(Evaluator::not(NULL).unwrap(), Object::Bool(true));
    assert_eq!(Evaluator::not(Object::Int(0)).unwrap(), Object::Bool(true));
    assert_eq!(Evaluator::negate(Object::Int(7)).unwrap(), Object::Int(-7));
    assert_eq!(
        Evaluator::infix(InfixOperator::Divide, Object::Int(-7), Object::Int(2)).unwrap(),
        Object::Int(-3)
    );
    assert_eq!(
        Evaluator::infix(InfixOperator::Minus, Object::Int(3), Object::Int(5)).unwrap(),
        Object::Int(-2)
    );
    assert_eq!(
        Evaluator::infix(InfixOperator::LessThan, Object::Int(3), Object::Int(5)).unwrap(),
        Object::Bool(true)
    );
    assert_eq!(
        Evaluator::infix(InfixOperator::Equal, Object::Int(3), Object::Bool(true)).unwrap(),
        Object::Bool(false)
    );
    assert!(matches!(
        Evaluator::prefix(PrefixOperator::Negate, Object::Bool(false)),
        Err(Failure::Error(Error::UnsupportedNegate(Object::Bool(false))))
    ));
    assert!(matches!(
        Evaluator::infix(InfixOperator::Divide, Object::Int(1), Object::Int(0)),
        Err(Failure::Fault(Fault::DivisionByZero))
    ));
}

#[test]
fn binding_persists_between_programs() {
    let mut evaluator = Evaluator::new();
    assert_eq!(evaluator.eval(program(vec![let_("a", num(5))])).unwrap(), NOOP);
    assert_eq!(evaluator.eval(program(vec![expr(plus(ident("a"), num(1)))])).unwrap(), Object::Int(6));
}

#[test]
fn empty_program_is_null() {
    assert_eq!(run(vec![]).unwrap(), NULL);
}

#[test]
fn functions_capture_a_snapshot() {
    // let x = 1; let f = fn() { x; }; let x = 2; f();
    let r = run(vec![
        let_("x", num(1)),
        let_("f", func(&[], block(vec![expr(ident("x"))]))),
        let_("x", num(2)),
        expr(call(ident("f"), vec![])),
    ]);
    assert_eq!(r.unwrap(), Object::Int(1));
}

#[test]
fn bindings_inside_a_call_stay_inside() {
    // let f = fn() { let y = 1; y; }; f(); y;
    let r = run(vec![
        let_("f", func(&[], block(vec![let_("y", num(1)), expr(ident("y"))]))),
        expr(call(ident("f"), vec![])),
        expr(ident("y")),
    ]);
    assert_eq!(r.unwrap_err(), Error::IdNotFound("y".to_owned()));
}

#[test]
fn calls_that_run_nothing() {
    // 5(1);
    let r = run(vec![expr(call(num(5), vec![num(1)]))]);
    assert_eq!(r.unwrap(), NOOP);
    // let f = fn(a, b) { a; }; f(1);
    let r = run(vec![
        let_("f", func(&["a", "b"], block(vec![expr(ident("a"))]))),
        expr(call(ident("f"), vec![num(1)])),
    ]);
    assert_eq!(r.unwrap(), NOOP);
}

#[test]
fn return_inside_an_expression_ends_the_program() {
    // !(if (true) { return 1; })
    let r = run(vec![expr(Expression::Prefix(
        PrefixOperator::Not,
        Box::new(Expression::If(
            Box::new(Expression::Bool(true)),
            Box::new(block(vec![Statement::Return(num(1))])),
        )),
    ))]);
    assert_eq!(r.unwrap(), Object::Int(1));
    // let x = if (true) { return 1; }; x + 1;
    let r = run(vec![
        let_(
            "x",
            Expression::If(
                Box::new(Expression::Bool(true)),
                Box::new(block(vec![Statement::Return(num(1))])),
            ),
        ),
        expr(plus(ident("x"), num(1))),
    ]);
    assert_eq!(r.unwrap(), Object::Int(1));
}

#[test]
fn not_of_a_returned_value() {
    assert!(matches!(
        Evaluator::not(Object::Return(Box::new(Object::Int(1)))),
        Err(Failure::Error(Error::UnexpectedReturn(Object::Int(1))))
    ));
}

#[test]
fn infix_math_on_every_operator() {
    assert!(matches!(
        Evaluator::infix_math(InfixOperator::Equal, Object::Bool(true), Object::Int(1)),
        Err(Failure::Error(Error::InfixTypeMismatch(InfixOperator::Equal, Object::Bool(true), Object::Int(1))))
    ));
    assert!(matches!(
        Evaluator::infix_math(InfixOperator::Equal, Object::Int(1), Object::Int(1)),
        Err(Failure::Fault(Fault::UnexpectedOperator))
    ));
    assert_eq!(
        Evaluator::infix_math(InfixOperator::Multiply, Object::Int(6), Object::Int(7)).unwrap(),
        Object::Int(42)
    );
}

#[test]
fn copies_are_equal() {
    let f = Object::Function(
        vec!["x".to_owned()],
        block(vec![expr(plus(ident("x"), num(2)))]),
        Box::new(Environment::Root(Root::new())),
    );
    assert!(f.same(&f.copy()));
    assert_eq!(f.copy(), f);
    let g = Object::Function(
        vec!["y".to_owned()],
        block(vec![expr(plus(ident("y"), num(2)))]),
        Box::new(Environment::Root(Root::new())),
    );
    assert!(!f.same(&g));
}

#[test]
fn object_text() {
    assert_eq!(NULL.text(), "null");
    assert_eq!(NOOP.text(), "");
    assert_eq!(Object::Int(-42).text(), "-42");
    assert_eq!(Object::Int(i128::MIN).text(), i128::MIN.to_string());
    assert_eq!(Object::Bool(true).text(), "true");
    assert_eq!(Object::Return(Box::new(Object::Int(3))).text(), "return 3");
    let f = Object::Function(
        vec!["x".to_owned(), "y".to_owned()],
        block(vec![expr(plus(ident("x"), num(2)))]),
        Box::new(Environment::Root(Root::new())),
    );
    assert_eq!(f.text(), "fn (x, y) { (x + 2); }");
}

#[test]
fn error_text() {
    assert_eq!(
        Error::InfixTypeMismatch(InfixOperator::Plus, Object::Int(5), Object::Bool(true)).text(),
        "Int(5) + Bool(true)"
    );
    assert_eq!(Error::UnsupportedNegate(Object::Bool(true)).text(), "Negate doesn't support type Bool(true)");
    assert_eq!(Error::IdNotFound("foobar".to_owned()).text(), "Identifier not found foobar");
    assert_eq!(Error::UnexpectedReturn(Object::Int(1)).text(), "Unexpected 1");
    assert_eq!(Fault::DivisionByZero.text(), "attempt to divide by zero");
}

#[test]
fn statement_text() {
    let s = let_("f", func(&["a"], block(vec![Statement::Return(call(ident("g"), vec![num(1), ident("a")]))])));
    assert_eq!(s.text(), "let f = fn(a) { return g(1, a); };");
}
