use vstd::prelude::*;

use crate::ast::{expr_text, Expr};
use crate::error::ErrorView;
use crate::parser::{adv, fold_level, level_ops, parse_level, terminated};
use crate::text::int_text;
use crate::token::{Token, TokenType};

verus! {

/// Whether `t` is an operator of `level`.
pub open spec fn in_level(t: TokenType, level: nat) -> bool {
    if level == 5 {
        t == TokenType::BangEqual || t == TokenType::EqualEqual
    } else if level == 4 {
        t == TokenType::Greater || t == TokenType::GreaterEqual || t == TokenType::Less
            || t == TokenType::LessEqual
    } else if level == 3 {
        t == TokenType::Minus || t == TokenType::Plus
    } else if level == 2 {
        t == TokenType::Slash || t == TokenType::Star
    } else {
        t == TokenType::Bang || t == TokenType::Minus
    }
}

/// Whether `t` continues a binary expression of precedence `level` or tighter.
pub open spec fn folds_within(t: TokenType, level: nat) -> bool {
    (level >= 2 && in_level(t, 2)) || (level >= 3 && in_level(t, 3)) || (level >= 4 && in_level(
        t,
        4,
    )) || (level >= 5 && in_level(t, 5))
}

/// The precedence level of a binary operator, 0 for any other token.
pub open spec fn binary_level(t: TokenType) -> nat {
    if in_level(t, 5) {
        5
    } else if in_level(t, 4) {
        4
    } else if in_level(t, 3) {
        3
    } else if in_level(t, 2) {
        2
    } else {
        0
    }
}

/// An arithmetic expression: non-negative number literals, prefix `-` and
/// `!`, binary operators, and groupings.
pub open spec fn arith(e: Expr) -> bool
    decreases e,
{
    match e {
        Expr::Literal { value } => value is Number && value->Number_0 >= 0,
        Expr::Unary { operator, right } => in_level(operator.token_type, 1) && arith(*right),
        Expr::Binary { left, operator, right } => binary_level(operator.token_type) >= 2 && arith(
            *left,
        ) && arith(*right),
        Expr::Grouping { expression } => arith(*expression),
        _ => false,
    }
}

/// How many tokens the rendering of an arithmetic expression scans into.
pub open spec fn size(e: Expr) -> nat
    decreases e,
{
    match e {
        Expr::Literal { .. } => 1,
        Expr::Unary { right, .. } => 3 + size(*right),
        Expr::Binary { left, right, .. } => 3 + size(*left) + size(*right),
        Expr::Grouping { expression } => size(*expression),
        _ => 0,
    }
}

/// Whether the tokens from `pos` are those that the rendering of `e` scans
/// into: a number for a literal, and each unary or binary node in
/// parentheses, with its operator's category and text.
pub open spec fn lexes(toks: Seq<Token>, pos: int, e: Expr) -> bool
    decreases e,
{
    match e {
        Expr::Literal { value } => toks[pos].token_type == TokenType::Number && toks[pos].literal
            == Some(value) && toks[pos].lexeme@ == int_text(value->Number_0 as int),
        Expr::Unary { operator, right } => {
            &&& toks[pos].token_type == TokenType::LeftParen
            &&& toks[pos + 1].token_type == operator.token_type
            &&& toks[pos + 1].lexeme@ == operator.lexeme@
            &&& lexes(toks, pos + 2, *right)
            &&& toks[pos + 2 + size(*right)].token_type == TokenType::RightParen
        },
        Expr::Binary { left, operator, right } => {
            let o = pos + 1 + size(*left);
            &&& toks[pos].token_type == TokenType::LeftParen
            &&& lexes(toks, pos + 1, *left)
            &&& toks[o].token_type == operator.token_type
            &&& toks[o].lexeme@ == operator.lexeme@
            &&& lexes(toks, o + 1, *right)
            &&& toks[o + 1 + size(*right)].token_type == TokenType::RightParen
        },
        Expr::Grouping { expression } => lexes(toks, pos, *expression),
        _ => false,
    }
}

/// The operator list of a level holds exactly its operators.
proof fn lemma_ops(t: TokenType, level: nat)
    requires
        1 <= level <= 5,
    ensures
        level_ops(level).contains(t) == in_level(t, level),
{
    let s = level_ops(level);
    if in_level(t, level) {
        if s[0] == t {
            assert(s.contains(t));
        } else {
            assert(s[1] == t || s[2] == t || s[3] == t);
            if s[1] == t {
                assert(s.contains(t));
            } else if s[2] == t {
                assert(s.contains(t));
            } else {
                assert(s.contains(t));
            }
        }
    } else {
        assert forall|i: int| 0 <= i < s.len() implies s[i] != t by {}
    }
}

/// An arithmetic expression's tokens, followed by a token that continues no
/// binary expression of precedence `level` or tighter, parse at `level` into
/// an expression with the same rendering.
proof fn lemma_atom(toks: Seq<Token>, pos: int, e: Expr, level: nat)
    requires
        terminated(toks),
        arith(e),
        lexes(toks, pos, e),
        0 <= pos,
        pos + size(e) < toks.len(),
        level <= 5,
        !folds_within(toks[pos + size(e)].token_type, level),
    ensures
        parse_level(toks, pos, level).0 is Ok,
        expr_text(parse_level(toks, pos, level).0->Ok_0) == expr_text(e),
        parse_level(toks, pos, level).1 == pos + size(e),
    decreases e, 1nat, level,
{
    let end = pos + size(e);
    if let Expr::Grouping { expression } = e {
        lemma_atom(toks, pos, *expression, level);
    } else if level >= 2 {
        lemma_atom(toks, pos, e, (level - 1) as nat);
        lemma_ops(toks[end].token_type, level);
        let (r, p) = parse_level(toks, pos, (level - 1) as nat);
        assert(fold_level(toks, p, level, r->Ok_0) == (Ok::<Expr, ErrorView>(r->Ok_0), p));
    } else if level == 1 {
        lemma_ops(toks[pos].token_type, 1);
        lemma_atom(toks, pos, e, 0);
    } else {
        match e {
            Expr::Literal { value } => {},
            _ => {
                lemma_inner(toks, pos + 1, e, 5);
                assert(adv(toks, end - 1) == end);
            },
        }
    }
}

/// The tokens of a unary or binary node between its parentheses, followed by
/// the closing parenthesis, parse at any level from the node's own upward
/// into an expression with the same rendering.
proof fn lemma_inner(toks: Seq<Token>, q: int, e: Expr, level: nat)
    requires
        terminated(toks),
        arith(e),
        e is Unary || e is Binary,
        lexes(toks, q - 1, e),
        1 <= q,
        q - 1 + size(e) < toks.len(),
        level <= 5,
        e is Unary ==> level >= 1,
        e is Binary ==> level >= binary_level(e->Binary_operator.token_type),
    ensures
        parse_level(toks, q, level).0 is Ok,
        expr_text(parse_level(toks, q, level).0->Ok_0) == expr_text(e),
        parse_level(toks, q, level).1 == q - 2 + size(e),
    decreases e, 0nat, level,
{
    let close = q - 2 + size(e);
    assert(toks[close].token_type == TokenType::RightParen);
    let own = match e {
        Expr::Unary { .. } => 1nat,
        _ => binary_level(e->Binary_operator.token_type),
    };
    if level > own && level >= 2 {
        lemma_inner(toks, q, e, (level - 1) as nat);
        lemma_ops(toks[close].token_type, level);
        let (r, p) = parse_level(toks, q, (level - 1) as nat);
        assert(fold_level(toks, p, level, r->Ok_0) == (Ok::<Expr, ErrorView>(r->Ok_0), p));
    } else {
        match e {
            Expr::Unary { operator, right } => {
                lemma_ops(toks[q].token_type, 1);
                lemma_atom(toks, q + 1, *right, 1);
            },
            Expr::Binary { left, operator, right } => {
                let o = q + size(*left);
                lemma_atom(toks, q, *left, (level - 1) as nat);
                lemma_ops(toks[o].token_type, level);
                lemma_atom(toks, o + 1, *right, (level - 1) as nat);
                let (r1, p1) = parse_level(toks, q, (level - 1) as nat);
                let (r2, p2) = parse_level(toks, o + 1, (level - 1) as nat);
                let b = Expr::Binary {
                    left: Box::new(r1->Ok_0),
                    operator: toks[o],
                    right: Box::new(r2->Ok_0),
                };
                lemma_ops(toks[close].token_type, level);
                assert(fold_level(toks, p2, level, b) == (Ok::<Expr, ErrorView>(b), p2));
                assert(fold_level(toks, o, level, r1->Ok_0) == fold_level(toks, p2, level, b));
            },
            _ => {},
        }
    }
}

/// Parsing the tokens that an arithmetic expression's rendering scans into
/// gives an expression that renders identically, and uses up exactly those
/// tokens when a `;`, a `)` or the end of input follows them.
pub proof fn lemma_reparse_renders_same(toks: Seq<Token>, pos: int, e: Expr)
    requires
        terminated(toks),
        arith(e),
        lexes(toks, pos, e),
        0 <= pos,
        pos + size(e) < toks.len(),
        toks[pos + size(e)].token_type == TokenType::Semicolon || toks[pos + size(e)].token_type
            == TokenType::RightParen || toks[pos + size(e)].token_type == TokenType::Eof,
    ensures
        parse_level(toks, pos, 5).0 is Ok,
        expr_text(parse_level(toks, pos, 5).0->Ok_0) == expr_text(e),
        parse_level(toks, pos, 5).1 == pos + size(e),
{
    lemma_atom(toks, pos, e, 5);
}

} // verus!
