use vstd::prelude::*;
use vstd::string::StringExecFns;

use crate::text::val_text;
use crate::token::{Literal, Token, TokenType};

verus! {

broadcast use vstd::std_specs::vec::axiom_vec_decreases_to_view, vstd::std_specs::vec::axiom_vec_index_decreases,
    vstd::seq::axiom_seq_index_decreases;

/// An expression node. Each node owns its sub-expressions.
#[allow(inconsistent_fields)]
#[derive(Debug)]
pub enum Expr {
    Literal { value: Literal },
    Variable { name: Token },
    Assign { name: Token, value: Box<Expr> },
    Logical { left: Box<Expr>, operator: Token, right: Box<Expr> },
    Unary { operator: Token, right: Box<Expr> },
    Binary { left: Box<Expr>, operator: Token, right: Box<Expr> },
    Grouping { expression: Box<Expr> },
}

/// A statement node. Each node owns its sub-statements.
#[derive(Debug)]
pub enum Stmt {
    Block { statements: Vec<Stmt> },
    Expression { expression: Box<Expr> },
    If { condition: Expr, then_branch: Box<Stmt>, else_branch: Option<Box<Stmt>> },
    Print { expression: Box<Expr> },
    Var { name: Token, initializer: Option<Expr> },
}

/// The word that stands for a logical operator.
pub open spec fn logical_word(operator: Token) -> Seq<char> {
    if operator.token_type == TokenType::Or {
        seq!['o', 'r']
    } else if operator.token_type == TokenType::And {
        seq!['a', 'n', 'd']
    } else {
        operator.lexeme@
    }
}

/// The textual form of an expression.
pub open spec fn expr_text(e: Expr) -> Seq<char>
    decreases e,
{
    match e {
        Expr::Literal { value } => val_text(value@),
        Expr::Variable { name } => name.lexeme@,
        Expr::Assign { name, value } => name.lexeme@ + seq![' ', '=', ' '] + expr_text(*value),
        Expr::Logical { left, operator, right } =>
            expr_text(*left) + seq![' '] + logical_word(operator) + seq![' '] + expr_text(*right),
        Expr::Unary { operator, right } =>
            seq!['('] + operator.lexeme@ + seq![' '] + expr_text(*right) + seq![')'],
        Expr::Binary { left, operator, right } =>
            seq!['('] + expr_text(*left) + seq![' '] + operator.lexeme@ + seq![' ']
                + expr_text(*right) + seq![')'],
        Expr::Grouping { expression } => expr_text(*expression),
    }
}

/// The textual form of a statement.
pub open spec fn stmt_text(s: Stmt) -> Seq<char>
    decreases s,
{
    match s {
        Stmt::Block { statements } =>
            seq!['{', ' '] + joined_text(statements@, statements@.len() as int) + seq![' ', '}'],
        Stmt::Expression { expression } => expr_text(*expression),
        Stmt::If { condition, then_branch, else_branch } => {
            let head = seq!['i', 'f', ' ', '('] + expr_text(condition) + seq![')', ' ']
                + stmt_text(*then_branch);
            match else_branch {
                Some(e) => head + seq![' ', 'e', 'l', 's', 'e', ' '] + stmt_text(*e),
                None => head,
            }
        },
        Stmt::Print { expression } => seq!['p', 'r', 'i', 'n', 't', ' '] + expr_text(*expression),
        Stmt::Var { name, initializer } => match initializer {
            Some(init) => seq!['v', 'a', 'r', ' '] + name.lexeme@ + seq![' ', '=', ' '] + expr_text(init),
            None => seq!['v', 'a', 'r', ' '] + name.lexeme@,
        },
    }
}

/// The first `n` statements' textual forms, separated by two spaces.
pub open spec fn joined_text(stmts: Seq<Stmt>, n: int) -> Seq<char>
    decreases stmts, n,
{
    if n <= 0 || n > stmts.len() {
        Seq::empty()
    } else if n == 1 {
        stmt_text(stmts[0])
    } else {
        joined_text(stmts, n - 1) + seq![' ', ' '] + stmt_text(stmts[n - 1])
    }
}

impl Expr {
    /// Appends the textual form of this expression to `out`.
    pub fn write_text(&self, out: &mut String)
        ensures
            final(out)@ == old(out)@ + expr_text(*self),
        decreases self,
    {
        proof {
            reveal_strlit(" ");
            reveal_strlit(" = ");
            reveal_strlit("(");
            reveal_strlit(")");
            reveal_strlit("or");
            reveal_strlit("and");
        }
        match self {
            Expr::Literal { value } => {
                out.append(value.text().as_str());
            },
            Expr::Variable { name } => {
                out.append(name.lexeme.as_str());
            },
            Expr::Assign { name, value } => {
                out.append(name.lexeme.as_str());
                out.append(" = ");
                value.write_text(out);
            },
            Expr::Logical { left, operator, right } => {
                left.write_text(out);
                out.append(" ");
                if operator.token_type == TokenType::Or {
                    out.append("or");
                } else if operator.token_type == TokenType::And {
                    out.append("and");
                } else {
                    out.append(operator.lexeme.as_str());
                }
                out.append(" ");
                right.write_text(out);
            },
            Expr::Unary { operator, right } => {
                out.append("(");
                out.append(operator.lexeme.as_str());
                out.append(" ");
                right.write_text(out);
                out.append(")");
            },
            Expr::Binary { left, operator, right } => {
                out.append("(");
                left.write_text(out);
                out.append(" ");
                out.append(operator.lexeme.as_str());
                out.append(" ");
                right.write_text(out);
                out.append(")");
            },
            Expr::Grouping { expression } => {
                expression.write_text(out);
            },
        }
        assert(out@ =~= old(out)@ + expr_text(*self));
    }

    /// The textual form of this expression.
    pub fn render(&self) -> (r: String)
        ensures
            r@ == expr_text(*self),
    {
        let mut out = String::new();
        self.write_text(&mut out);
        assert(out@ =~= expr_text(*self));
        out
    }
}

impl Stmt {
    /// Appends the textual form of this statement to `out`.
    pub fn write_text(&self, out: &mut String)
        ensures
            final(out)@ == old(out)@ + stmt_text(*self),
        decreases self,
    {
        proof {
            reveal_strlit("{ ");
            reveal_strlit(" }");
            reveal_strlit("  ");
            reveal_strlit("if (");
            reveal_strlit(") ");
            reveal_strlit(" else ");
            reveal_strlit("print ");
            reveal_strlit("var ");
            reveal_strlit(" = ");
        }
        match self {
            Stmt::Block { statements } => {
                out.append("{ ");
                let ghost start = out@;
                let mut i: usize = 0;
                while i < statements.len()
                    invariant
                        i <= statements@.len(),
                        self is Block,
                        self->statements == *statements,
                        out@ == start + joined_text(statements@, i as int),
                    decreases statements@.len() - i,
                {
                    proof {
                        reveal_strlit("  ");
                    }
                    if i > 0 {
                        out.append("  ");
                    }
                    let ghost before = out@;
                    proof {
                        assert(decreases_to!(*self => self->statements));
                        assert(decreases_to!(self->statements => self->statements[i as int]));
                    }
                    statements[i].write_text(out);
                    proof {
                        if i > 0 {
                            assert(before == start + joined_text(statements@, i as int) + seq![' ', ' ']);
                        }
                        assert(joined_text(statements@, i + 1) == if i == 0 {
                            stmt_text(statements@[0])
                        } else {
                            joined_text(statements@, i as int) + seq![' ', ' '] + stmt_text(statements@[i as int])
                        });
                    }
                    i = i + 1;
                    assert(out@ =~= start + joined_text(statements@, i as int));
                }
                out.append(" }");
            },
            Stmt::Expression { expression } => {
                expression.write_text(out);
            },
            Stmt::If { condition, then_branch, else_branch } => {
                out.append("if (");
                condition.write_text(out);
                out.append(") ");
                then_branch.write_text(out);
                match else_branch {
                    Some(e) => {
                        out.append(" else ");
                        e.write_text(out);
                    },
                    None => {},
                }
            },
            Stmt::Print { expression } => {
                out.append("print ");
                expression.write_text(out);
            },
            Stmt::Var { name, initializer } => {
                out.append("var ");
                out.append(name.lexeme.as_str());
                match initializer {
                    Some(init) => {
                        out.append(" = ");
                        init.write_text(out);
                    },
                    None => {},
                }
            },
        }
        assert(out@ =~= old(out)@ + stmt_text(*self));
    }

    /// The textual form of this statement.
    pub fn render(&self) -> (r: String)
        ensures
            r@ == stmt_text(*self),
    {
        let mut out = String::new();
        self.write_text(&mut out);
        assert(out@ =~= stmt_text(*self));
        out
    }
}

} // verus!
