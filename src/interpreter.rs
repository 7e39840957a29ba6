use vstd::prelude::*;
use vstd::string::StringExecFns;

use crate::ast::{Expr, Stmt};
use crate::environment::{undefined_error, Environment};
use crate::error::{ErrorView, LoxError, RUNTIME};
use crate::text::val_text;
use crate::token::{truthy, Literal, Token, TokenType, Val};

verus! {

/// Whether `n` fits in a runtime number.
pub open spec fn in_range(n: int) -> bool {
    i64::MIN <= n <= i64::MAX
}

/// An error raised at the operator's line.
pub open spec fn error_at(operator: Token, message: Seq<char>) -> ErrorView {
    ErrorView { line: operator.line, code: RUNTIME, message }
}

pub open spec fn type_error(operator: Token) -> ErrorView {
    error_at(operator, "Operand of unexpected type."@)
}

pub open spec fn overflow_error(operator: Token) -> ErrorView {
    error_at(operator, "Number out of range."@)
}

pub open spec fn zero_division_error(operator: Token) -> ErrorView {
    error_at(operator, "Division by zero."@)
}

/// The error for a node that has no meaning when run.
pub open spec fn unsupported_error(line: usize) -> ErrorView {
    ErrorView { line, code: RUNTIME, message: "Not supported."@ }
}

/// Integer division that rounds toward zero.
pub open spec fn div_toward_zero(a: int, b: int) -> int {
    if (a >= 0) == (b > 0) {
        if a >= 0 { a / b } else { (-a) / (-b) }
    } else {
        if a >= 0 { -(a / (-b)) } else { -((-a) / b) }
    }
}

/// A number, or an error where it does not fit.
pub open spec fn checked(operator: Token, n: int) -> Result<Val, ErrorView> {
    if in_range(n) { Ok(Val::Num(n)) } else { Err(overflow_error(operator)) }
}

/// Ordering of booleans, with `false` below `true`.
pub open spec fn bool_rank(b: bool) -> int {
    if b { 1 } else { 0 }
}

/// The result of a relational operator on two ranks.
pub open spec fn compare(op: TokenType, a: int, b: int) -> bool {
    match op {
        TokenType::Greater => a > b,
        TokenType::GreaterEqual => a >= b,
        TokenType::Less => a < b,
        _ => a <= b,
    }
}

pub open spec fn is_relational(op: TokenType) -> bool {
    op == TokenType::Greater || op == TokenType::GreaterEqual || op == TokenType::Less
        || op == TokenType::LessEqual
}

/// What a unary operator gives on a value.
pub open spec fn unary_result(operator: Token, v: Val) -> Result<Val, ErrorView> {
    match operator.token_type {
        TokenType::Bang => Ok(Val::Bool(!truthy(v))),
        TokenType::Minus => match v {
            Val::Num(n) => checked(operator, -n),
            _ => Err(type_error(operator)),
        },
        _ => Err(type_error(operator)),
    }
}

/// What a binary operator gives on two values.
pub open spec fn binary_result(operator: Token, l: Val, r: Val) -> Result<Val, ErrorView> {
    let op = operator.token_type;
    if op == TokenType::EqualEqual {
        Ok(Val::Bool(l == r))
    } else if op == TokenType::BangEqual {
        Ok(Val::Bool(l != r))
    } else if is_relational(op) {
        match (l, r) {
            (Val::Num(a), Val::Num(b)) => Ok(Val::Bool(compare(op, a, b))),
            (Val::Bool(a), Val::Bool(b)) => Ok(Val::Bool(compare(op, bool_rank(a), bool_rank(b)))),
            _ => Ok(Val::Bool(compare(op, bool_rank(truthy(l)), bool_rank(truthy(r))))),
        }
    } else if op == TokenType::Plus {
        match (l, r) {
            (Val::Num(a), Val::Num(b)) => checked(operator, a + b),
            (Val::Text(a), Val::Text(b)) => Ok(Val::Text(a + b)),
            _ => Err(type_error(operator)),
        }
    } else if op == TokenType::Minus || op == TokenType::Star || op == TokenType::Slash {
        match (l, r) {
            (Val::Num(a), Val::Num(b)) => if op == TokenType::Minus {
                checked(operator, a - b)
            } else if op == TokenType::Star {
                checked(operator, a * b)
            } else if b == 0 {
                Err(zero_division_error(operator))
            } else {
                checked(operator, div_toward_zero(a, b))
            },
            _ => Err(type_error(operator)),
        }
    } else {
        Err(type_error(operator))
    }
}

/// Evaluates an expression against a store: the store afterwards, and the
/// value or the error. Operands are evaluated left to right.
pub open spec fn eval(e: Expr, env: Map<Seq<char>, Val>) -> (Map<Seq<char>, Val>, Result<Val, ErrorView>)
    decreases e,
{
    match e {
        Expr::Literal { value } => (env, Ok(value@)),
        Expr::Variable { name } => if env.contains_key(name.lexeme@) {
            (env, Ok(env[name.lexeme@]))
        } else {
            (env, Err(undefined_error(name)))
        },
        Expr::Assign { name, value } => {
            let (env1, r) = eval(*value, env);
            match r {
                Err(err) => (env1, Err(err)),
                Ok(v) => if env1.contains_key(name.lexeme@) {
                    (env1.insert(name.lexeme@, v), Ok(v))
                } else {
                    (env1, Err(undefined_error(name)))
                },
            }
        },
        Expr::Logical { left, operator, right } => (env, Err(unsupported_error(operator.line))),
        Expr::Unary { operator, right } => {
            let (env1, r) = eval(*right, env);
            match r {
                Err(err) => (env1, Err(err)),
                Ok(v) => (env1, unary_result(operator, v)),
            }
        },
        Expr::Binary { left, operator, right } => {
            let (env1, a) = eval(*left, env);
            match a {
                Err(err) => (env1, Err(err)),
                Ok(l) => {
                    let (env2, b) = eval(*right, env1);
                    match b {
                        Err(err) => (env2, Err(err)),
                        Ok(r) => (env2, binary_result(operator, l, r)),
                    }
                },
            }
        },
        Expr::Grouping { expression } => eval(*expression, env),
    }
}

/// Runs one statement against a store: the store afterwards, what it
/// printed, and the error if it failed.
pub open spec fn exec(s: Stmt, env: Map<Seq<char>, Val>) -> (Map<Seq<char>, Val>, Seq<char>, Option<ErrorView>) {
    match s {
        Stmt::Expression { expression } => {
            let (env1, r) = eval(*expression, env);
            match r {
                Err(err) => (env1, Seq::empty(), Some(err)),
                Ok(_) => (env1, Seq::empty(), None),
            }
        },
        Stmt::Print { expression } => {
            let (env1, r) = eval(*expression, env);
            match r {
                Err(err) => (env1, Seq::empty(), Some(err)),
                Ok(v) => (env1, val_text(v).push('\n'), None),
            }
        },
        Stmt::Var { name, initializer } => match initializer {
            None => (env.insert(name.lexeme@, Val::Nil), Seq::empty(), None),
            Some(init) => {
                let (env1, r) = eval(init, env);
                match r {
                    Err(err) => (env1, Seq::empty(), Some(err)),
                    Ok(v) => (env1.insert(name.lexeme@, v), Seq::empty(), None),
                }
            },
        },
        Stmt::If { condition, then_branch, else_branch } => (env, Seq::empty(), Some(unsupported_error(0))),
        Stmt::Block { statements } => (env, Seq::empty(), Some(unsupported_error(0))),
    }
}

/// Runs the first `n` statements in order, stopping at the first error.
pub open spec fn run(stmts: Seq<Stmt>, n: nat, env: Map<Seq<char>, Val>) -> (Map<Seq<char>, Val>, Seq<char>, Option<ErrorView>)
    decreases n,
{
    if n == 0 || n > stmts.len() {
        (env, Seq::empty(), None)
    } else {
        let (env1, out1, err1) = run(stmts, (n - 1) as nat, env);
        if err1 is Some {
            (env1, out1, err1)
        } else {
            let (env2, out2, err2) = exec(stmts[n - 1], env1);
            (env2, out1 + out2, err2)
        }
    }
}

/// The mathematical form of an evaluation result.
pub open spec fn result_view(r: Result<Literal, LoxError>) -> Result<Val, ErrorView> {
    match r {
        Ok(v) => Ok(v@),
        Err(e) => Err(e@),
    }
}

fn error_with(operator: &Token, message: &str) -> (r: LoxError)
    ensures
        r@ == error_at(*operator, message@),
{
    LoxError::from_token(operator, String::from_str(message))
}

fn number_or_overflow(operator: &Token, n: i128) -> (r: Result<Literal, LoxError>)
    ensures
        result_view(r) == checked(*operator, n as int),
{
    if n < i64::MIN as i128 || n > i64::MAX as i128 {
        Err(error_with(operator, "Number out of range."))
    } else {
        Ok(Literal::Number(n as i64))
    }
}

fn truth_rank(b: bool) -> (r: i64)
    ensures
        r == bool_rank(b),
{
    if b { 1 } else { 0 }
}

fn compare_ranks(op: TokenType, a: i64, b: i64) -> (r: bool)
    ensures
        r == compare(op, a as int, b as int),
{
    match op {
        TokenType::Greater => a > b,
        TokenType::GreaterEqual => a >= b,
        TokenType::Less => a < b,
        _ => a <= b,
    }
}

/// Applies a unary operator to a value.
pub fn apply_unary(operator: &Token, v: Literal) -> (r: Result<Literal, LoxError>)
    ensures
        result_view(r) == unary_result(*operator, v@),
{
    match operator.token_type {
        TokenType::Bang => Ok(Literal::Bool(!v.is_truthy())),
        TokenType::Minus => match v {
            Literal::Number(n) => number_or_overflow(operator, -(n as i128)),
            _ => Err(error_with(operator, "Operand of unexpected type.")),
        },
        _ => Err(error_with(operator, "Operand of unexpected type.")),
    }
}

fn divide(operator: &Token, a: i64, b: i64) -> (r: Result<Literal, LoxError>)
    requires
        b != 0,
    ensures
        result_view(r) == checked(*operator, div_toward_zero(a as int, b as int)),
{
    let x = a as i128;
    let y = b as i128;
    let q: i128 = if (x >= 0) == (y > 0) {
        if x >= 0 { x / y } else { (-x) / (-y) }
    } else {
        if x >= 0 { -(x / (-y)) } else { -((-x) / y) }
    };
    number_or_overflow(operator, q)
}

/// Applies a binary operator to two values.
pub fn apply_binary(operator: &Token, l: Literal, r: Literal) -> (res: Result<Literal, LoxError>)
    ensures
        result_view(res) == binary_result(*operator, l@, r@),
{
    let op = operator.token_type;
    if op == TokenType::EqualEqual {
        Ok(Literal::Bool(l.is_equal(&r)))
    } else if op == TokenType::BangEqual {
        Ok(Literal::Bool(!l.is_equal(&r)))
    } else if op == TokenType::Greater || op == TokenType::GreaterEqual || op == TokenType::Less
        || op == TokenType::LessEqual {
        match (&l, &r) {
            (Literal::Number(a), Literal::Number(b)) => Ok(Literal::Bool(compare_ranks(op, *a, *b))),
            (Literal::Bool(a), Literal::Bool(b)) => Ok(
                Literal::Bool(compare_ranks(op, truth_rank(*a), truth_rank(*b))),
            ),
            _ => Ok(
                Literal::Bool(
                    compare_ranks(op, truth_rank(l.is_truthy()), truth_rank(r.is_truthy())),
                ),
            ),
        }
    } else if op == TokenType::Plus {
        match (l, r) {
            (Literal::Number(a), Literal::Number(b)) => number_or_overflow(
                operator,
                a as i128 + b as i128,
            ),
            (Literal::Str(a), Literal::Str(b)) => Ok(Literal::Str(a.concat(b.as_str()))),
            _ => Err(error_with(operator, "Operand of unexpected type.")),
        }
    } else if op == TokenType::Minus || op == TokenType::Star || op == TokenType::Slash {
        match (l, r) {
            (Literal::Number(a), Literal::Number(b)) => if op == TokenType::Minus {
                number_or_overflow(operator, a as i128 - b as i128)
            } else if op == TokenType::Star {
                proof {
                    let (x, y) = (a as int, b as int);
                    assert(-0x4000_0000_0000_0000_0000_0000_0000_0000 <= x * y <= 0x4000_0000_0000_0000_0000_0000_0000_0000)
                        by (nonlinear_arith)
                        requires
                            -0x8000_0000_0000_0000 <= x <= 0x7fff_ffff_ffff_ffff,
                            -0x8000_0000_0000_0000 <= y <= 0x7fff_ffff_ffff_ffff,
                    ;
                }
                number_or_overflow(operator, a as i128 * b as i128)
            } else if b == 0 {
                Err(error_with(operator, "Division by zero."))
            } else {
                divide(operator, a, b)
            },
            _ => Err(error_with(operator, "Operand of unexpected type.")),
        }
    } else {
        Err(error_with(operator, "Operand of unexpected type."))
    }
}

/// Runs statements against a store of variables that lives as long as it.
pub struct Interpreter {
    environment: Environment,
}

impl View for Interpreter {
    type V = Map<Seq<char>, Val>;

    closed spec fn view(&self) -> Map<Seq<char>, Val> {
        self.environment@
    }
}

impl Interpreter {
    /// An interpreter with no variables.
    pub fn new() -> (r: Interpreter)
        ensures
            r@ == Map::<Seq<char>, Val>::empty(),
    {
        Interpreter { environment: Environment::new() }
    }

    /// Evaluates an expression, left operand before right.
    pub fn evaluate(&mut self, expr: &Expr) -> (r: Result<Literal, LoxError>)
        ensures
            (final(self)@, result_view(r)) == eval(*expr, old(self)@),
        decreases expr,
    {
        match expr {
            Expr::Literal { value } => Ok(value.duplicate()),
            Expr::Variable { name } => match self.environment.get(name) {
                Ok(v) => Ok(v.duplicate()),
                Err(e) => Err(e),
            },
            Expr::Assign { name, value } => {
                let v = self.evaluate(value);
                match v {
                    Ok(v) => self.environment.assign(name, v),
                    Err(e) => Err(e),
                }
            },
            Expr::Logical { left, operator, right } => Err(
                LoxError::from_token(operator, String::from_str("Not supported.")),
            ),
            Expr::Unary { operator, right } => {
                let v = self.evaluate(right);
                match v {
                    Ok(v) => apply_unary(operator, v),
                    Err(e) => Err(e),
                }
            },
            Expr::Binary { left, operator, right } => {
                let a = self.evaluate(left);
                match a {
                    Err(e) => Err(e),
                    Ok(l) => {
                        let b = self.evaluate(right);
                        match b {
                            Err(e) => Err(e),
                            Ok(r) => apply_binary(operator, l, r),
                        }
                    },
                }
            },
            Expr::Grouping { expression } => self.evaluate(expression),
        }
    }

    /// Runs one statement, appending what it prints to `out`.
    pub fn execute(&mut self, statement: &Stmt, out: &mut String) -> (r: Result<(), LoxError>)
        ensures
            ({
                let (env, printed, err) = exec(*statement, old(self)@);
                &&& final(self)@ == env
                &&& final(out)@ == old(out)@ + printed
                &&& match r {
                    Ok(()) => err is None,
                    Err(e) => err == Some(e@),
                }
            }),
    {
        match statement {
            Stmt::Expression { expression } => match self.evaluate(expression) {
                Ok(_) => Ok(()),
                Err(e) => Err(e),
            },
            Stmt::Print { expression } => match self.evaluate(expression) {
                Ok(v) => {
                    out.append(v.text().as_str());
                    out.append("\n");
                    proof {
                        reveal_strlit("\n");
                    }
                    assert(out@ =~= old(out)@ + val_text(v@).push('\n'));
                    Ok(())
                },
                Err(e) => Err(e),
            },
            Stmt::Var { name, initializer } => {
                let value = match initializer {
                    Some(init) => self.evaluate(init),
                    None => Ok(Literal::Nil),
                };
                match value {
                    Ok(v) => {
                        self.environment.define(name.lexeme.clone(), v);
                        Ok(())
                    },
                    Err(e) => Err(e),
                }
            },
            _ => Err(LoxError::new(0, RUNTIME, String::from_str("Not supported."))),
        }
    }

    /// Runs statements in order, appending what they print to `out`; the
    /// first error stops the run and is returned.
    pub fn interpret(&mut self, statements: Vec<Stmt>, out: &mut String) -> (r: Result<(), LoxError>)
        ensures
            ({
                let (env, printed, err) = run(statements@, statements@.len(), old(self)@);
                &&& final(self)@ == env
                &&& final(out)@ == old(out)@ + printed
                &&& match r {
                    Ok(()) => err is None,
                    Err(e) => err == Some(e@),
                }
            }),
    {
        let mut i: usize = 0;
        while i < statements.len()
            invariant
                i <= statements@.len(),
                ({
                    let (env, printed, err) = run(statements@, i as nat, old(self)@);
                    &&& self@ == env
                    &&& out@ == old(out)@ + printed
                    &&& err is None
                }),
            decreases statements@.len() - i,
        {
            let ghost before = out@;
            let r = self.execute(&statements[i], out);
            proof {
                assert(out@ =~= old(out)@ + run(statements@, (i + 1) as nat, old(self)@).1);
            }
            match r {
                Err(e) => {
                    proof {
                        lemma_run_stops(statements@, (i + 1) as nat, statements@.len(), old(self)@);
                    }
                    return Err(e);
                },
                Ok(()) => {},
            }
            i = i + 1;
        }
        Ok(())
    }
}

/// Reading or assigning a name with no binding fails with the undefined
/// variable error at the name's line, and leaves the store as it was.
pub proof fn lemma_undefined_variable_fails(name: Token, value: Expr, env: Map<Seq<char>, Val>)
    requires
        !env.contains_key(name.lexeme@),
        eval(value, env).0 == env,
        eval(value, env).1 is Ok,
    ensures
        eval(Expr::Variable { name }, env) == (env, Err::<Val, ErrorView>(undefined_error(name))),
        eval(Expr::Assign { name, value: Box::new(value) }, env) == (
            env,
            Err::<Val, ErrorView>(undefined_error(name)),
        ),
        undefined_error(name).line == name.line,
{
}

/// After a defined name is assigned a value, reading the name gives that
/// value, and the assignment itself evaluates to it.
pub proof fn lemma_assignment_then_read(name: Token, value: Literal, env: Map<Seq<char>, Val>)
    requires
        env.contains_key(name.lexeme@),
    ensures
        ({
            let (env1, r) = eval(
                Expr::Assign { name, value: Box::new(Expr::Literal { value }) },
                env,
            );
            &&& r == Ok::<Val, ErrorView>(value@)
            &&& eval(Expr::Variable { name }, env1) == (env1, Ok::<Val, ErrorView>(value@))
        }),
{
    assert(eval(Expr::Literal { value }, env) == (env, Ok::<Val, ErrorView>(value@)));
    let env1 = env.insert(name.lexeme@, value@);
    assert(env1.contains_key(name.lexeme@) && env1[name.lexeme@] == value@);
}

/// `+` on a number and a string, in either order, is a type error at the operator.
pub proof fn lemma_mixed_plus_is_type_error(operator: Token, n: int, s: Seq<char>)
    requires
        operator.token_type == TokenType::Plus,
    ensures
        binary_result(operator, Val::Num(n), Val::Text(s)) == Err::<Val, ErrorView>(type_error(operator)),
        binary_result(operator, Val::Text(s), Val::Num(n)) == Err::<Val, ErrorView>(type_error(operator)),
{
}

/// Values of different variants are never equal: `==` gives `false` and
/// `!=` gives `true`.
pub proof fn lemma_cross_variant_unequal(operator: Token, l: Val, r: Val)
    requires
        operator.token_type == TokenType::EqualEqual || operator.token_type == TokenType::BangEqual,
        !(l is Num && r is Num),
        !(l is Text && r is Text),
        !(l is Bool && r is Bool),
        !(l is Nil && r is Nil),
    ensures
        binary_result(operator, l, r) == Ok::<Val, ErrorView>(
            Val::Bool(operator.token_type == TokenType::BangEqual),
        ),
{
}

/// `!` gives the negation of a value's truthiness: only `nil` and `false`
/// become `true`.
pub proof fn lemma_not_negates_truthiness(operator: Token, v: Val)
    requires
        operator.token_type == TokenType::Bang,
    ensures
        unary_result(operator, v) == Ok::<Val, ErrorView>(Val::Bool(v is Nil || v == Val::Bool(false))),
{
}

/// Once a run has failed, running further statements changes nothing.
proof fn lemma_run_stops(stmts: Seq<Stmt>, i: nat, k: nat, env: Map<Seq<char>, Val>)
    requires
        0 < i <= k <= stmts.len(),
        run(stmts, i, env).2 is Some,
    ensures
        run(stmts, k, env) == run(stmts, i, env),
    decreases k - i,
{
    if k > i {
        lemma_run_stops(stmts, i, (k - 1) as nat, env);
    }
}

} // verus!
