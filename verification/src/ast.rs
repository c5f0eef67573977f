//! Abstract syntax tree of Monkey programs, with its mathematical model.

use vstd::prelude::*;

verus! {

/// Operators written before their operand.
#[derive(Clone, Copy, Debug, PartialEq, Eq, Structural)]
pub enum PrefixOperator {
    Not,
    Negate,
}

/// Operators written between their operands.
#[derive(Clone, Copy, Debug, PartialEq, Eq, Structural)]
pub enum InfixOperator {
    Plus,
    Minus,
    Multiply,
    Divide,
    LessThan,
    GreaterThan,
    Equal,
    NotEqual,
    Call,
}

/// An expression of the language.
#[derive(Debug, PartialEq, Eq)]
pub enum Expression {
    Int(i128),
    Bool(bool),
    Prefix(PrefixOperator, Box<Expression>),
    Infix(InfixOperator, Box<Expression>, Box<Expression>),
    If(Box<Expression>, Box<Statement>),
    IfElse(Box<Expression>, Box<Statement>, Box<Statement>),
    Identifier(String),
    Function(Vec<String>, Box<Statement>),
    Call(Box<Expression>, Vec<Box<Expression>>),
}

/// A statement of the language.
#[derive(Debug, PartialEq, Eq)]
pub enum Statement {
    Expression(Expression),
    Block(Vec<Box<Statement>>),
    Return(Expression),
    Let(String, Expression),
}

/// A whole program: a list of statements.
#[derive(Debug, PartialEq, Eq)]
pub struct Program {
    pub statements: Vec<Box<Statement>>,
}

/// Mathematical model of an expression: names are sequences of characters.
pub enum Expr {
    Int(i128),
    Bool(bool),
    Prefix(PrefixOperator, Box<Expr>),
    Infix(InfixOperator, Box<Expr>, Box<Expr>),
    If(Box<Expr>, Box<Stmt>),
    IfElse(Box<Expr>, Box<Stmt>, Box<Stmt>),
    Identifier(Seq<char>),
    Function(Seq<Seq<char>>, Box<Stmt>),
    Call(Box<Expr>, Seq<Expr>),
}

/// Mathematical model of a statement.
pub enum Stmt {
    Expression(Expr),
    Block(Seq<Stmt>),
    Return(Expr),
    Let(Seq<char>, Expr),
}

impl Expression {
    pub open spec fn model(&self) -> Expr
        decreases *self,
    {
        match self {
            Expression::Int(v) => Expr::Int(*v),
            Expression::Bool(b) => Expr::Bool(*b),
            Expression::Prefix(op, rhs) => Expr::Prefix(*op, Box::new(rhs.model())),
            Expression::Infix(op, lhs, rhs) => Expr::Infix(*op, Box::new(lhs.model()), Box::new(rhs.model())),
            Expression::If(c, t) => Expr::If(Box::new(c.model()), Box::new(t.model())),
            Expression::IfElse(c, t, f) => Expr::IfElse(Box::new(c.model()), Box::new(t.model()), Box::new(f.model())),
            Expression::Identifier(id) => Expr::Identifier(id@),
            Expression::Function(params, body) => Expr::Function(names_model(params@), Box::new(body.model())),
            Expression::Call(f, args) => Expr::Call(Box::new(f.model()), exprs_model(args@)),
        }
    }
}

impl Statement {
    pub open spec fn model(&self) -> Stmt
        decreases *self,
    {
        match self {
            Statement::Expression(e) => Stmt::Expression(e.model()),
            Statement::Block(stmts) => Stmt::Block(stmts_model(stmts@)),
            Statement::Return(e) => Stmt::Return(e.model()),
            Statement::Let(id, e) => Stmt::Let(id@, e.model()),
        }
    }
}

/// The models of a sequence of expressions, in order.
pub open spec fn exprs_model(s: Seq<Box<Expression>>) -> Seq<Expr>
    decreases s,
{
    if s.len() == 0 {
        Seq::empty()
    } else {
        exprs_model(s.subrange(0, s.len() - 1)).push(s[s.len() - 1].model())
    }
}

/// The models of a sequence of statements, in order.
pub open spec fn stmts_model(s: Seq<Box<Statement>>) -> Seq<Stmt>
    decreases s,
{
    if s.len() == 0 {
        Seq::empty()
    } else {
        stmts_model(s.subrange(0, s.len() - 1)).push(s[s.len() - 1].model())
    }
}

/// The views of a sequence of names.
pub open spec fn names_model(s: Seq<String>) -> Seq<Seq<char>> {
    s.map_values(|n: String| n@)
}

impl View for Expression {
    type V = Expr;

    open spec fn view(&self) -> Expr {
        self.model()
    }
}

impl View for Program {
    type V = Seq<Stmt>;

    open spec fn view(&self) -> Seq<Stmt> {
        stmts_model(self.statements@)
    }
}

impl View for Statement {
    type V = Stmt;

    open spec fn view(&self) -> Stmt {
        self.model()
    }
}


/// Facts about the model of a sequence of expressions.
pub proof fn lemma_exprs_model(s: Seq<Box<Expression>>)
    ensures
        exprs_model(s).len() == s.len(),
        forall|i: int| 0 <= i < s.len() ==> #[trigger] exprs_model(s)[i] == s[i].model(),
    decreases s.len(),
{
    if s.len() > 0 {
        lemma_exprs_model(s.subrange(0, s.len() - 1));
    }
}

/// Facts about the model of a sequence of statements.
pub proof fn lemma_stmts_model(s: Seq<Box<Statement>>)
    ensures
        stmts_model(s).len() == s.len(),
        forall|i: int| 0 <= i < s.len() ==> #[trigger] stmts_model(s)[i] == s[i].model(),
    decreases s.len(),
{
    if s.len() > 0 {
        lemma_stmts_model(s.subrange(0, s.len() - 1));
    }
}

/// Copies a list of names.
pub fn copy_names(v: &Vec<String>) -> (r: Vec<String>)
    ensures
        names_model(r@) == names_model(v@),
{
    let mut r: Vec<String> = Vec::new();
    let mut i: usize = 0;
    while i < v.len()
        invariant
            i <= v.len(),
            r@.len() == i,
            forall|j: int| 0 <= j < i ==> #[trigger] r@[j]@ == v@[j]@,
        decreases v.len() - i,
    {
        r.push(v[i].clone());
        i = i + 1;
    }
    assert(names_model(r@) =~= names_model(v@));
    r
}

/// Compares two lists of names by their characters.
pub fn same_names(a: &Vec<String>, b: &Vec<String>) -> (r: bool)
    ensures
        r == (names_model(a@) == names_model(b@)),
{
    if a.len() != b.len() {
        assert(names_model(a@).len() != names_model(b@).len());
        return false;
    }
    let mut i: usize = 0;
    while i < a.len()
        invariant
            i <= a.len(),
            a.len() == b.len(),
            forall|j: int| 0 <= j < i ==> #[trigger] a@[j]@ == b@[j]@,
        decreases a.len() - i,
    {
        if a[i] != b[i] {
            assert(names_model(a@)[i as int] != names_model(b@)[i as int]);
            return false;
        }
        i = i + 1;
    }
    assert(names_model(a@) =~= names_model(b@));
    true
}

impl Expression {
    /// A copy of the expression with the same model.
    pub fn copy(&self) -> (r: Expression)
        ensures
            r@ == self@,
        decreases *self,
    {
        match self {
            Expression::Int(v) => Expression::Int(*v),
            Expression::Bool(b) => Expression::Bool(*b),
            Expression::Prefix(op, rhs) => Expression::Prefix(*op, Box::new((**rhs).copy())),
            Expression::Infix(op, lhs, rhs) => Expression::Infix(
                *op,
                Box::new((**lhs).copy()),
                Box::new((**rhs).copy()),
            ),
            Expression::If(c, t) => Expression::If(Box::new((**c).copy()), Box::new((**t).copy())),
            Expression::IfElse(c, t, f) => Expression::IfElse(
                Box::new((**c).copy()),
                Box::new((**t).copy()),
                Box::new((**f).copy()),
            ),
            Expression::Identifier(id) => Expression::Identifier(id.clone()),
            Expression::Function(params, body) => Expression::Function(
                copy_names(params),
                Box::new((**body).copy()),
            ),
            Expression::Call(f, args) => Expression::Call(Box::new((**f).copy()), copy_expressions(args)),
        }
    }

    /// Whether two expressions have the same model.
    pub fn same(&self, other: &Expression) -> (r: bool)
        ensures
            r == (self@ == other@),
        decreases *self,
    {
        match (self, other) {
            (Expression::Int(a), Expression::Int(b)) => *a == *b,
            (Expression::Bool(a), Expression::Bool(b)) => *a == *b,
            (Expression::Prefix(o1, a), Expression::Prefix(o2, b)) => *o1 == *o2 && (**a).same(
                &**b,
            ),
            (Expression::Infix(o1, a1, a2), Expression::Infix(o2, b1, b2)) => *o1 == *o2 && (
            **a1).same(&**b1) && (**a2).same(&**b2),
            (Expression::If(a1, a2), Expression::If(b1, b2)) => (**a1).same(&**b1) && (**a2).same(
                &**b2,
            ),
            (Expression::IfElse(a1, a2, a3), Expression::IfElse(b1, b2, b3)) => (**a1).same(&**b1)
                && (**a2).same(&**b2) && (**a3).same(&**b3),
            (Expression::Identifier(a), Expression::Identifier(b)) => *a == *b,
            (Expression::Function(p1, a), Expression::Function(p2, b)) => same_names(p1, p2) && (
            **a).same(&**b),
            (Expression::Call(f1, a), Expression::Call(f2, b)) => (**f1).same(&**f2) && same_expressions(a, b),
            _ => false,
        }
    }
}

impl Statement {
    /// A copy of the statement with the same model.
    pub fn copy(&self) -> (r: Statement)
        ensures
            r@ == self@,
        decreases *self,
    {
        match self {
            Statement::Expression(e) => Statement::Expression(e.copy()),
            Statement::Block(stmts) => Statement::Block(copy_statements(stmts)),
            Statement::Return(e) => Statement::Return(e.copy()),
            Statement::Let(id, e) => Statement::Let(id.clone(), e.copy()),
        }
    }

    /// Whether two statements have the same model.
    pub fn same(&self, other: &Statement) -> (r: bool)
        ensures
            r == (self@ == other@),
        decreases *self,
    {
        match (self, other) {
            (Statement::Expression(a), Statement::Expression(b)) => a.same(b),
            (Statement::Block(a), Statement::Block(b)) => same_statements(a, b),
            (Statement::Return(a), Statement::Return(b)) => a.same(b),
            (Statement::Let(i1, a), Statement::Let(i2, b)) => *i1 == *i2 && a.same(b),
            _ => false,
        }
    }
}

/// A copy of a list of statements with the same model.
pub fn copy_statements(v: &Vec<Box<Statement>>) -> (r: Vec<Box<Statement>>)
    ensures
        stmts_model(r@) == stmts_model(v@),
    decreases v,
{
    let mut r: Vec<Box<Statement>> = Vec::new();
    let mut i: usize = 0;
    while i < v.len()
        invariant
            i <= v.len(),
            r@.len() == i,
            forall|j: int| 0 <= j < i ==> #[trigger] r@[j].model() == v@[j].model(),
        decreases v.len() - i,
    {
        r.push(Box::new((*v[i]).copy()));
        i = i + 1;
    }
    proof {
        lemma_stmts_model(r@);
        lemma_stmts_model(v@);
        assert(stmts_model(r@) =~= stmts_model(v@));
    }
    r
}

/// Whether two lists of statements have the same model.
pub fn same_statements(a: &Vec<Box<Statement>>, b: &Vec<Box<Statement>>) -> (r: bool)
    ensures
        r == (stmts_model(a@) == stmts_model(b@)),
    decreases a,
{
    proof {
        lemma_stmts_model(a@);
        lemma_stmts_model(b@);
    }
    if a.len() != b.len() {
        assert(stmts_model(a@).len() != stmts_model(b@).len());
        return false;
    }
    let mut i: usize = 0;
    while i < a.len()
        invariant
            i <= a.len(),
            a.len() == b.len(),
            forall|j: int| 0 <= j < i ==> #[trigger] a@[j].model() == b@[j].model(),
        decreases a.len() - i,
    {
        if !(*a[i]).same(&*b[i]) {
            proof {
                lemma_stmts_model(a@);
                lemma_stmts_model(b@);
            }
            assert(stmts_model(a@)[i as int] != stmts_model(b@)[i as int]);
            return false;
        }
        i = i + 1;
    }
    assert(stmts_model(a@) =~= stmts_model(b@));
    true
}

/// A copy of a list of expressions with the same model.
pub fn copy_expressions(v: &Vec<Box<Expression>>) -> (r: Vec<Box<Expression>>)
    ensures
        exprs_model(r@) == exprs_model(v@),
    decreases v,
{
    let mut r: Vec<Box<Expression>> = Vec::new();
    let mut i: usize = 0;
    while i < v.len()
        invariant
            i <= v.len(),
            r@.len() == i,
            forall|j: int| 0 <= j < i ==> #[trigger] r@[j].model() == v@[j].model(),
        decreases v.len() - i,
    {
        r.push(Box::new((*v[i]).copy()));
        i = i + 1;
    }
    proof {
        lemma_exprs_model(r@);
        lemma_exprs_model(v@);
        assert(exprs_model(r@) =~= exprs_model(v@));
    }
    r
}

/// Whether two lists of expressions have the same model.
pub fn same_expressions(a: &Vec<Box<Expression>>, b: &Vec<Box<Expression>>) -> (r: bool)
    ensures
        r == (exprs_model(a@) == exprs_model(b@)),
    decreases a,
{
    proof {
        lemma_exprs_model(a@);
        lemma_exprs_model(b@);
    }
    if a.len() != b.len() {
        assert(exprs_model(a@).len() != exprs_model(b@).len());
        return false;
    }
    let mut i: usize = 0;
    while i < a.len()
        invariant
            i <= a.len(),
            a.len() == b.len(),
            forall|j: int| 0 <= j < i ==> #[trigger] a@[j].model() == b@[j].model(),
        decreases a.len() - i,
    {
        if !(*a[i]).same(&*b[i]) {
            proof {
                lemma_exprs_model(a@);
                lemma_exprs_model(b@);
            }
            assert(exprs_model(a@)[i as int] != exprs_model(b@)[i as int]);
            return false;
        }
        i = i + 1;
    }
    assert(exprs_model(a@) =~= exprs_model(b@));
    true
}

} // verus!
