//! How programs, objects and errors are written out as text.

use vstd::prelude::*;

use crate::error::{Error, ErrorModel, Fault};
use crate::object::{Object, Value};
use crate::ast::{
    exprs_model, lemma_exprs_model, lemma_stmts_model, names_model, stmts_model, Expr,
    Expression, InfixOperator, PrefixOperator, Statement, Stmt,
};

verus! {

/// The decimal digit `d`.
pub open spec fn digit_text(d: nat) -> Seq<char> {
    if d == 0 {
        "0"@
    } else if d == 1 {
        "1"@
    } else if d == 2 {
        "2"@
    } else if d == 3 {
        "3"@
    } else if d == 4 {
        "4"@
    } else if d == 5 {
        "5"@
    } else if d == 6 {
        "6"@
    } else if d == 7 {
        "7"@
    } else if d == 8 {
        "8"@
    } else {
        "9"@
    }
}

/// The decimal digits of `n`, without leading zeros.
pub open spec fn digits(n: nat) -> Seq<char>
    decreases n,
{
    if n < 10 {
        digit_text(n)
    } else {
        digits(n / 10) + digit_text(n % 10)
    }
}

/// An integer in decimal, with a leading `-` where it is negative.
pub open spec fn int_text(i: int) -> Seq<char> {
    if i < 0 {
        "-"@ + digits((-i) as nat)
    } else {
        digits(i as nat)
    }
}

/// Names separated by `, `.
pub open spec fn join(parts: Seq<Seq<char>>) -> Seq<char>
    decreases parts.len(),
{
    if parts.len() == 0 {
        Seq::empty()
    } else if parts.len() == 1 {
        parts[0]
    } else {
        join(parts.drop_last()) + ", "@ + parts.last()
    }
}

pub open spec fn prefix_text(op: PrefixOperator) -> Seq<char> {
    match op {
        PrefixOperator::Not => "!"@,
        PrefixOperator::Negate => "-"@,
    }
}

pub open spec fn infix_text(op: InfixOperator) -> Seq<char> {
    match op {
        InfixOperator::Plus => "+"@,
        InfixOperator::Minus => "-"@,
        InfixOperator::Multiply => "*"@,
        InfixOperator::Divide => "/"@,
        InfixOperator::LessThan => "<"@,
        InfixOperator::GreaterThan => ">"@,
        InfixOperator::Equal => "=="@,
        InfixOperator::NotEqual => "!="@,
        InfixOperator::Call => "("@,
    }
}

/// The source text of an expression, with every operation in parentheses.
pub open spec fn expr_text(e: Expr) -> Seq<char>
    decreases e,
{
    match e {
        Expr::Int(v) => int_text(v as int),
        Expr::Bool(b) => if b {
            "true"@
        } else {
            "false"@
        },
        Expr::Prefix(op, rhs) => "("@ + prefix_text(op) + expr_text(*rhs) + ")"@,
        Expr::Infix(op, lhs, rhs) => "("@ + expr_text(*lhs) + " "@ + infix_text(op) + " "@
            + expr_text(*rhs) + ")"@,
        Expr::If(c, t) => "if ("@ + expr_text(*c) + ") "@ + stmt_text(*t),
        Expr::IfElse(c, t, f) => "if ("@ + expr_text(*c) + ") "@ + stmt_text(*t) + " else "@
            + stmt_text(*f),
        Expr::Identifier(id) => id,
        Expr::Function(params, body) => "fn("@ + join(params) + ") "@ + stmt_text(*body),
        Expr::Call(callee, args) => expr_text(*callee) + "("@ + exprs_text(args) + ")"@,
    }
}

/// Expressions separated by `, `.
pub open spec fn exprs_text(s: Seq<Expr>) -> Seq<char>
    decreases s,
{
    if s.len() == 0 {
        Seq::empty()
    } else if s.len() == 1 {
        expr_text(s[0])
    } else {
        exprs_text(s.subrange(0, s.len() - 1)) + ", "@ + expr_text(s[s.len() - 1])
    }
}

/// The source text of a statement.
pub open spec fn stmt_text(s: Stmt) -> Seq<char>
    decreases s,
{
    match s {
        Stmt::Expression(e) => expr_text(e) + ";"@,
        Stmt::Block(stmts) => "{ "@ + stmts_text(stmts) + "}"@,
        Stmt::Return(e) => "return "@ + expr_text(e) + ";"@,
        Stmt::Let(id, e) => "let "@ + id + " = "@ + expr_text(e) + ";"@,
    }
}

/// Statements, each followed by a space.
pub open spec fn stmts_text(s: Seq<Stmt>) -> Seq<char>
    decreases s,
{
    if s.len() == 0 {
        Seq::empty()
    } else {
        stmts_text(s.subrange(0, s.len() - 1)) + stmt_text(s[s.len() - 1]) + " "@
    }
}

/// The text of the digit `d`.
fn digit_str(d: u128) -> (r: &'static str)
    requires
        d < 10,
    ensures
        r@ == digit_text(d as nat),
{
    if d == 0 {
        "0"
    } else if d == 1 {
        "1"
    } else if d == 2 {
        "2"
    } else if d == 3 {
        "3"
    } else if d == 4 {
        "4"
    } else if d == 5 {
        "5"
    } else if d == 6 {
        "6"
    } else if d == 7 {
        "7"
    } else if d == 8 {
        "8"
    } else {
        "9"
    }
}

/// Appends the decimal digits of `n`.
fn write_digits(out: &mut String, n: u128)
    ensures
        final(out)@ == old(out)@ + digits(n as nat),
    decreases n,
{
    if n >= 10 {
        write_digits(out, n / 10);
    }
    out.append(digit_str(n % 10));
    proof {
        if n >= 10 {
            assert(old(out)@ + digits((n / 10) as nat) + digit_text((n % 10) as nat) =~= old(out)@
                + digits(n as nat));
        }
    }
}

/// Appends an integer in decimal.
pub fn write_int(out: &mut String, i: i128)
    ensures
        final(out)@ == old(out)@ + int_text(i as int),
{
    if i < 0 {
        out.append("-");
        let magnitude: u128 = if i == i128::MIN {
            170141183460469231731687303715884105728u128
        } else {
            (-i) as u128
        };
        write_digits(out, magnitude);
        assert(final(out)@ =~= old(out)@ + int_text(i as int));
    } else {
        write_digits(out, i as u128);
    }
}

/// Appends names separated by `, `.
pub fn write_names(out: &mut String, names: &Vec<String>)
    ensures
        final(out)@ == old(out)@ + join(names_model(names@)),
{
    let ghost start = out@;
    let ghost n = names_model(names@);
    let mut i: usize = 0;
    while i < names.len()
        invariant
            i <= names@.len(),
            n == names_model(names@),
            out@ == start + join(n.subrange(0, i as int)),
        decreases names@.len() - i,
    {
        let ghost prefix = n.subrange(0, i as int);
        if i > 0 {
            out.append(", ");
        }
        out.append(names[i].as_str());
        proof {
            let next = n.subrange(0, i + 1);
            assert(next.drop_last() =~= prefix);
            assert(out@ =~= start + join(next));
        }
        i = i + 1;
    }
    assert(n.subrange(0, n.len() as int) =~= n);
}

impl Expression {
    /// Appends the source text of the expression.
    pub fn write(&self, out: &mut String)
        ensures
            final(out)@ == old(out)@ + expr_text(self@),
        decreases *self,
    {
        let ghost start = out@;
        match self {
            Expression::Int(v) => write_int(out, *v),
            Expression::Bool(b) => {
                if *b {
                    out.append("true");
                } else {
                    out.append("false");
                }
            },
            Expression::Prefix(op, rhs) => {
                out.append("(");
                match op {
                    PrefixOperator::Not => out.append("!"),
                    PrefixOperator::Negate => out.append("-"),
                }
                (**rhs).write(out);
                out.append(")");
                assert(out@ =~= start + expr_text(self@));
            },
            Expression::Infix(op, lhs, rhs) => {
                out.append("(");
                (**lhs).write(out);
                out.append(" ");
                out.append(infix_str(*op));
                out.append(" ");
                (**rhs).write(out);
                out.append(")");
                assert(out@ =~= start + expr_text(self@));
            },
            Expression::If(c, t) => {
                out.append("if (");
                (**c).write(out);
                out.append(") ");
                (**t).write(out);
                assert(out@ =~= start + expr_text(self@));
            },
            Expression::IfElse(c, t, f) => {
                out.append("if (");
                (**c).write(out);
                out.append(") ");
                (**t).write(out);
                out.append(" else ");
                (**f).write(out);
                assert(out@ =~= start + expr_text(self@));
            },
            Expression::Identifier(id) => out.append(id.as_str()),
            Expression::Function(params, body) => {
                out.append("fn(");
                write_names(out, params);
                out.append(") ");
                (**body).write(out);
                assert(out@ =~= start + expr_text(self@));
            },
            Expression::Call(callee, args) => {
                (**callee).write(out);
                out.append("(");
                write_expressions(out, args);
                out.append(")");
                assert(out@ =~= start + expr_text(self@));
            },
        }
    }
}

/// The text of an infix operator.
fn infix_str(op: InfixOperator) -> (r: &'static str)
    ensures
        r@ == infix_text(op),
{
    match op {
        InfixOperator::Plus => "+",
        InfixOperator::Minus => "-",
        InfixOperator::Multiply => "*",
        InfixOperator::Divide => "/",
        InfixOperator::LessThan => "<",
        InfixOperator::GreaterThan => ">",
        InfixOperator::Equal => "==",
        InfixOperator::NotEqual => "!=",
        InfixOperator::Call => "(",
    }
}

/// Appends expressions separated by `, `.
fn write_expressions(out: &mut String, args: &Vec<Box<Expression>>)
    ensures
        final(out)@ == old(out)@ + exprs_text(exprs_model(args@)),
    decreases args,
{
    let ghost start = out@;
    let ghost m = exprs_model(args@);
    proof {
        lemma_exprs_model(args@);
    }
    let mut i: usize = 0;
    while i < args.len()
        invariant
            i <= args@.len(),
            m == exprs_model(args@),
            m.len() == args@.len(),
            forall|j: int| 0 <= j < m.len() ==> #[trigger] m[j] == args@[j]@,
            out@ == start + exprs_text(m.subrange(0, i as int)),
        decreases args@.len() - i,
    {
        let ghost prefix = m.subrange(0, i as int);
        if i > 0 {
            out.append(", ");
        }
        (*args[i]).write(out);
        proof {
            let next = m.subrange(0, i + 1);
            assert(next.subrange(0, next.len() - 1) =~= prefix);
            assert(next[next.len() - 1] == m[i as int]);
            assert(out@ =~= start + exprs_text(next));
        }
        i = i + 1;
    }
    assert(m.subrange(0, m.len() as int) =~= m);
}

impl Statement {
    /// Appends the source text of the statement.
    pub fn write(&self, out: &mut String)
        ensures
            final(out)@ == old(out)@ + stmt_text(self@),
        decreases *self,
    {
        let ghost start = out@;
        match self {
            Statement::Expression(e) => {
                e.write(out);
                out.append(";");
            },
            Statement::Block(stmts) => {
                out.append("{ ");
                write_statements(out, stmts);
                out.append("}");
            },
            Statement::Return(e) => {
                out.append("return ");
                e.write(out);
                out.append(";");
            },
            Statement::Let(id, e) => {
                out.append("let ");
                out.append(id.as_str());
                out.append(" = ");
                e.write(out);
                out.append(";");
            },
        }
        assert(out@ =~= start + stmt_text(self@));
    }

    /// The source text of the statement.
    pub fn text(&self) -> (r: String)
        ensures
            r@ == stmt_text(self@),
    {
        let mut out = String::new();
        self.write(&mut out);
        assert(out@ =~= stmt_text(self@));
        out
    }
}

/// Appends statements, each followed by a space.
fn write_statements(out: &mut String, stmts: &Vec<Box<Statement>>)
    ensures
        final(out)@ == old(out)@ + stmts_text(stmts_model(stmts@)),
    decreases stmts,
{
    let ghost start = out@;
    let ghost m = stmts_model(stmts@);
    proof {
        lemma_stmts_model(stmts@);
    }
    let mut i: usize = 0;
    while i < stmts.len()
        invariant
            i <= stmts@.len(),
            m == stmts_model(stmts@),
            m.len() == stmts@.len(),
            forall|j: int| 0 <= j < m.len() ==> #[trigger] m[j] == stmts@[j]@,
            out@ == start + stmts_text(m.subrange(0, i as int)),
        decreases stmts@.len() - i,
    {
        let ghost prefix = m.subrange(0, i as int);
        (*stmts[i]).write(out);
        out.append(" ");
        proof {
            let next = m.subrange(0, i + 1);
            assert(next.subrange(0, next.len() - 1) =~= prefix);
            assert(next[next.len() - 1] == m[i as int]);
            assert(out@ =~= start + stmts_text(next));
        }
        i = i + 1;
    }
    assert(m.subrange(0, m.len() as int) =~= m);
}

/// How an object is shown: its value, `return` before a returned value,
/// and a function as its parameters and body.
pub open spec fn object_text(v: Value) -> Seq<char>
    decreases v,
{
    match v {
        Value::Noop => Seq::empty(),
        Value::Null => "null"@,
        Value::Int(i) => int_text(i as int),
        Value::Bool(b) => if b {
            "true"@
        } else {
            "false"@
        },
        Value::Return(inner) => "return "@ + object_text(*inner),
        Value::Function(params, body, _) => "fn ("@ + join(params) + ") "@ + stmt_text(body),
    }
}

/// How an object is named in an error: its kind, then its value in parentheses.
pub open spec fn debug_text(v: Value) -> Seq<char>
    decreases v,
{
    match v {
        Value::Noop => "Noop"@,
        Value::Null => "Null"@,
        Value::Int(i) => "Int("@ + int_text(i as int) + ")"@,
        Value::Bool(b) => "Bool("@ + (if b {
            "true"@
        } else {
            "false"@
        }) + ")"@,
        Value::Return(inner) => "Return("@ + debug_text(*inner) + ")"@,
        Value::Function(..) => "Function("@ + object_text(v) + ")"@,
    }
}

/// The message of an error.
pub open spec fn error_text(e: ErrorModel) -> Seq<char> {
    match e {
        ErrorModel::UnexpectedReturn(v) => "Unexpected "@ + object_text(v),
        ErrorModel::UnsupportedNegate(v) => "Negate doesn't support type "@ + debug_text(v),
        ErrorModel::InfixTypeMismatch(op, l, r) => debug_text(l) + " "@ + infix_text(op) + " "@
            + debug_text(r),
        ErrorModel::IdNotFound(id) => "Identifier not found "@ + id,
    }
}

/// The message with which the interpreter stops at a fault.
pub open spec fn fault_text(f: Fault) -> Seq<char> {
    match f {
        Fault::TruthOfReturn => "The parser should enforce that this can't be reached."@,
        Fault::TruthOfNoop => "Nothing should have the value of NOOP"@,
        Fault::TruthOfFunction => "This should never be allowed."@,
        Fault::NotOfNoop => "Nothing should have the value NOOP"@,
        Fault::NotOfFunction => "Not of a function doesn't mean anything."@,
        Fault::UnexpectedOperator => "This path should never be executed."@,
        Fault::Overflow => "attempt to compute with overflow"@,
        Fault::DivisionByZero => "attempt to divide by zero"@,
        Fault::CallDepth => "function calls nested too deeply"@,
    }
}

impl Object {
    /// Appends how the object is shown.
    pub fn write(&self, out: &mut String)
        ensures
            final(out)@ == old(out)@ + object_text(self@),
        decreases *self,
    {
        let ghost start = out@;
        match self {
            Object::Noop => {
                assert(out@ =~= start + object_text(self@));
            },
            Object::Null => out.append("null"),
            Object::Int(v) => write_int(out, *v),
            Object::Bool(b) => {
                if *b {
                    out.append("true");
                } else {
                    out.append("false");
                }
            },
            Object::Return(inner) => {
                out.append("return ");
                (**inner).write(out);
                assert(out@ =~= start + object_text(self@));
            },
            Object::Function(params, body, _) => {
                out.append("fn (");
                write_names(out, params);
                out.append(") ");
                body.write(out);
                assert(out@ =~= start + object_text(self@));
            },
        }
    }

    /// How the object is shown.
    pub fn text(&self) -> (r: String)
        ensures
            r@ == object_text(self@),
    {
        let mut out = String::new();
        self.write(&mut out);
        assert(out@ =~= object_text(self@));
        out
    }

    /// Appends how the object is named in an error.
    pub fn write_debug(&self, out: &mut String)
        ensures
            final(out)@ == old(out)@ + debug_text(self@),
        decreases *self,
    {
        let ghost start = out@;
        match self {
            Object::Noop => out.append("Noop"),
            Object::Null => out.append("Null"),
            Object::Int(v) => {
                out.append("Int(");
                write_int(out, *v);
                out.append(")");
            },
            Object::Bool(b) => {
                out.append("Bool(");
                if *b {
                    out.append("true");
                } else {
                    out.append("false");
                }
                out.append(")");
            },
            Object::Return(inner) => {
                out.append("Return(");
                (**inner).write_debug(out);
                out.append(")");
            },
            Object::Function(..) => {
                out.append("Function(");
                self.write(out);
                out.append(")");
            },
        }
        assert(out@ =~= start + debug_text(self@));
    }
}

impl Error {
    /// The message of the error.
    pub fn text(&self) -> (r: String)
        ensures
            r@ == error_text(self@),
    {
        let mut out = String::new();
        match self {
            Error::UnexpectedReturn(obj) => {
                out.append("Unexpected ");
                obj.write(&mut out);
            },
            Error::UnsupportedNegate(rhs) => {
                out.append("Negate doesn't support type ");
                rhs.write_debug(&mut out);
            },
            Error::InfixTypeMismatch(op, lhs, rhs) => {
                lhs.write_debug(&mut out);
                out.append(" ");
                out.append(infix_str(*op));
                out.append(" ");
                rhs.write_debug(&mut out);
            },
            Error::IdNotFound(id) => {
                out.append("Identifier not found ");
                out.append(id.as_str());
            },
        }
        assert(out@ =~= error_text(self@));
        out
    }
}

impl Fault {
    /// The message with which the interpreter stops at this fault.
    pub fn text(&self) -> (r: &'static str)
        ensures
            r@ == fault_text(*self),
    {
        match self {
            Fault::TruthOfReturn => "The parser should enforce that this can't be reached.",
            Fault::TruthOfNoop => "Nothing should have the value of NOOP",
            Fault::TruthOfFunction => "This should never be allowed.",
            Fault::NotOfNoop => "Nothing should have the value NOOP",
            Fault::NotOfFunction => "Not of a function doesn't mean anything.",
            Fault::UnexpectedOperator => "This path should never be executed.",
            Fault::Overflow => "attempt to compute with overflow",
            Fault::DivisionByZero => "attempt to divide by zero",
            Fault::CallDepth => "function calls nested too deeply",
        }
    }
}

} // verus!
