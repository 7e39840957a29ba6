use vstd::prelude::*;
use vstd::string::StringExecFns;

use crate::ast::{Expr, Stmt};
use crate::error::{ErrorView, LoxError, EXPECTED_EXPRESSION, EXPECTED_TOKEN};
use crate::token::{Literal, Token, TokenType};

verus! {

/// The operators of a precedence level: equality (5), comparison (4),
/// term (3), factor (2) and unary (1).
pub open spec fn level_ops(level: nat) -> Seq<TokenType> {
    if level == 5 {
        seq![TokenType::BangEqual, TokenType::EqualEqual]
    } else if level == 4 {
        seq![TokenType::Greater, TokenType::GreaterEqual, TokenType::Less, TokenType::LessEqual]
    } else if level == 3 {
        seq![TokenType::Minus, TokenType::Plus]
    } else if level == 2 {
        seq![TokenType::Slash, TokenType::Star]
    } else {
        seq![TokenType::Bang, TokenType::Minus]
    }
}

/// A token sequence that ends with the end-of-input marker.
pub open spec fn terminated(toks: Seq<Token>) -> bool {
    toks.len() > 0 && toks.last().token_type == TokenType::Eof
}

/// The position after consuming the token at `pos`; the end marker is never passed.
pub open spec fn adv(toks: Seq<Token>, pos: int) -> int {
    if toks[pos].token_type == TokenType::Eof { pos } else { pos + 1 }
}

/// A parse error at a token.
pub open spec fn error_at(t: Token, code: u32, message: Seq<char>) -> ErrorView {
    ErrorView { line: t.line, code, message }
}

/// The result of parsing the expression of precedence `level` (0 is a primary
/// expression) that starts at `pos`, and the position after it.
pub open spec fn parse_level(toks: Seq<Token>, pos: int, level: nat) -> (Result<Expr, ErrorView>, int)
    decreases toks.len() - pos, level, 1nat,
{
    if pos < 0 || pos >= toks.len() {
        (Err(error_at(toks.last(), EXPECTED_EXPRESSION, "Expect expression."@)), pos)
    } else if level == 0 {
        let t = toks[pos];
        let tt = t.token_type;
        if tt == TokenType::False {
            (Ok(Expr::Literal { value: Literal::Bool(false) }), pos + 1)
        } else if tt == TokenType::True {
            (Ok(Expr::Literal { value: Literal::Bool(true) }), pos + 1)
        } else if tt == TokenType::Nil {
            (Ok(Expr::Literal { value: Literal::Nil }), pos + 1)
        } else if tt == TokenType::Number || tt == TokenType::Str {
            match t.literal {
                Some(l) => (Ok(Expr::Literal { value: l }), pos + 1),
                None => (Err(error_at(t, EXPECTED_EXPRESSION, "Expect expression."@)), pos + 1),
            }
        } else if tt == TokenType::Identifier {
            (Ok(Expr::Variable { name: t }), pos + 1)
        } else if tt == TokenType::LeftParen {
            let (r, p) = parse_level(toks, pos + 1, 5);
            match r {
                Err(e) => (Err(e), p),
                Ok(e) => if 0 <= p < toks.len() && toks[p].token_type == TokenType::RightParen {
                    (Ok(Expr::Grouping { expression: Box::new(e) }), adv(toks, p))
                } else {
                    (Err(error_at(toks[p], EXPECTED_TOKEN, "Expect ')' after expression."@)), p)
                },
            }
        } else {
            (Err(error_at(t, EXPECTED_EXPRESSION, "Expect expression."@)), pos)
        }
    } else if level == 1 {
        if level_ops(1).contains(toks[pos].token_type) {
            let (r, p) = parse_level(toks, pos + 1, 1);
            match r {
                Err(e) => (Err(e), p),
                Ok(e) => (Ok(Expr::Unary { operator: toks[pos], right: Box::new(e) }), p),
            }
        } else {
            parse_level(toks, pos, 0)
        }
    } else {
        let (r, p) = parse_level(toks, pos, (level - 1) as nat);
        match r {
            Err(e) => (Err(e), p),
            Ok(left) => if pos <= p <= toks.len() {
                fold_level(toks, p, level, left)
            } else {
                (Ok(left), p)
            },
        }
    }
}

/// Extends `left` with the operators of `level` that follow at `pos`,
/// associating to the left.
pub open spec fn fold_level(toks: Seq<Token>, pos: int, level: nat, left: Expr) -> (Result<Expr, ErrorView>, int)
    decreases toks.len() - pos, level, 0nat,
{
    if pos < 0 || pos >= toks.len() || level < 2 {
        (Ok(left), pos)
    } else if level_ops(level).contains(toks[pos].token_type) {
        let (r, p) = parse_level(toks, pos + 1, (level - 1) as nat);
        match r {
            Err(e) => (Err(e), p),
            Ok(right) => {
                let e = Expr::Binary { left: Box::new(left), operator: toks[pos], right: Box::new(right) };
                if pos < p <= toks.len() {
                    fold_level(toks, p, level, e)
                } else {
                    (Ok(e), p)
                }
            },
        }
    } else {
        (Ok(left), pos)
    }
}

/// The mathematical form of a parse result.
pub open spec fn parsed<T>(r: Result<T, LoxError>) -> Result<T, ErrorView> {
    match r {
        Ok(v) => Ok(v),
        Err(e) => Err(e@),
    }
}

/// Parses a token sequence into statements by recursive descent.
pub struct Parser {
    pub tokens: Vec<Token>,
    pub current: usize,
}

impl Parser {
    /// The parser's position is on a token, and the tokens end with the end marker.
    pub open spec fn wf(&self) -> bool {
        terminated(self.tokens@) && self.current < self.tokens@.len()
    }

    /// Moving from `old` to `self` kept the tokens and did not go back.
    pub open spec fn moved_on(&self, old: Parser) -> bool {
        self.wf() && self.tokens == old.tokens && old.current <= self.current
    }

    pub fn new(tokens: Vec<Token>) -> (r: Parser)
        requires
            terminated(tokens@),
        ensures
            r.wf(),
            r.tokens == tokens,
            r.current == 0,
    {
        Parser { tokens, current: 0 }
    }

    /// The token at the current position.
    pub fn peek(&self) -> (r: &Token)
        requires
            self.wf(),
        ensures
            *r == self.tokens@[self.current as int],
    {
        &self.tokens[self.current]
    }

    /// The token just before the current position.
    pub fn previous(&self) -> (r: &Token)
        requires
            self.wf(),
            self.current > 0,
        ensures
            *r == self.tokens@[self.current - 1],
    {
        &self.tokens[self.current - 1]
    }

    /// Whether the current token is the end marker.
    pub fn is_at_end(&self) -> (r: bool)
        requires
            self.wf(),
        ensures
            r == (self.tokens@[self.current as int].token_type == TokenType::Eof),
    {
        self.peek().token_type == TokenType::Eof
    }

    /// Moves past the current token unless it is the end marker.
    pub fn advance(&mut self)
        requires
            old(self).wf(),
        ensures
            final(self).moved_on(*old(self)),
            final(self).current == adv(old(self).tokens@, old(self).current as int),
    {
        let n = self.tokens.len();
        if !self.is_at_end() {
            assert(self.current + 1 < n);
            self.current = self.current + 1;
        }
    }

    /// Whether the current token has the given category.
    pub fn check(&self, token_type: TokenType) -> (r: bool)
        requires
            self.wf(),
        ensures
            r == (self.tokens@[self.current as int].token_type == token_type),
    {
        self.peek().token_type == token_type
    }

    /// Consumes the current token if it has one of the given categories.
    pub fn match_(&mut self, types: &[TokenType]) -> (r: bool)
        requires
            old(self).wf(),
        ensures
            final(self).moved_on(*old(self)),
            r == types@.contains(old(self).tokens@[old(self).current as int].token_type),
            final(self).current == if r {
                adv(old(self).tokens@, old(self).current as int)
            } else {
                old(self).current as int
            },
    {
        let mut i: usize = 0;
        while i < types.len()
            invariant
                self == old(self),
                self.wf(),
                i <= types@.len(),
                forall|j: int| 0 <= j < i ==> types@[j] != self.tokens@[self.current as int].token_type,
            decreases types@.len() - i,
        {
            if self.check(types[i]) {
                self.advance();
                return true;
            }
            i = i + 1;
        }
        false
    }

    /// Consumes the current token if it has the given category.
    pub fn match_token_type(&mut self, token_type: TokenType) -> (r: bool)
        requires
            old(self).wf(),
        ensures
            final(self).moved_on(*old(self)),
            r == (old(self).tokens@[old(self).current as int].token_type == token_type),
            final(self).current == if r {
                adv(old(self).tokens@, old(self).current as int)
            } else {
                old(self).current as int
            },
    {
        if self.check(token_type) {
            self.advance();
            return true;
        }
        false
    }

    /// Consumes the current token if it is an operator of `level`.
    fn match_level(&mut self, level: u8) -> (r: bool)
        requires
            old(self).wf(),
            1 <= level <= 5,
        ensures
            final(self).moved_on(*old(self)),
            r == level_ops(level as nat).contains(old(self).tokens@[old(self).current as int].token_type),
            final(self).current == if r {
                adv(old(self).tokens@, old(self).current as int)
            } else {
                old(self).current as int
            },
    {
        if level == 5 {
            let ops = [TokenType::BangEqual, TokenType::EqualEqual];
            assert(ops@ =~= level_ops(5));
            self.match_(&ops)
        } else if level == 4 {
            let ops = [TokenType::Greater, TokenType::GreaterEqual, TokenType::Less, TokenType::LessEqual];
            assert(ops@ =~= level_ops(4));
            self.match_(&ops)
        } else if level == 3 {
            let ops = [TokenType::Minus, TokenType::Plus];
            assert(ops@ =~= level_ops(3));
            self.match_(&ops)
        } else if level == 2 {
            let ops = [TokenType::Slash, TokenType::Star];
            assert(ops@ =~= level_ops(2));
            self.match_(&ops)
        } else {
            let ops = [TokenType::Bang, TokenType::Minus];
            assert(ops@ =~= level_ops(1));
            self.match_(&ops)
        }
    }

    /// Parses the binary expression of precedence `level` (2 to 5): its
    /// operands are of the next tighter level, and its operators associate
    /// to the left.
    pub fn fold_binary(&mut self, level: u8) -> (r: Result<Expr, LoxError>)
        requires
            old(self).wf(),
            2 <= level <= 5,
        ensures
            final(self).moved_on(*old(self)),
            (parsed(r), final(self).current as int) == parse_level(
                old(self).tokens@,
                old(self).current as int,
                level as nat,
            ),
            r is Ok ==> final(self).current > old(self).current,
        decreases old(self).tokens@.len() - old(self).current, level, 1nat,
    {
        let ghost toks = self.tokens@;
        let ghost start = self.current as int;
        let first = if level == 2 {
            self.unary()
        } else {
            self.fold_binary(level - 1)
        };
        let mut expr = match first {
            Ok(e) => e,
            Err(e) => return Err(e),
        };
        loop
            invariant
                self.moved_on(*old(self)),
                toks == self.tokens@,
                start == old(self).current,
                start < self.current,
                2 <= level <= 5,
                fold_level(toks, self.current as int, level as nat, expr)
                    == parse_level(toks, start, level as nat),
            decreases toks.len() - self.current,
        {
            if !self.match_level(level) {
                return Ok(expr);
            }
            let operator = self.previous().duplicate();
            let right = if level == 2 {
                self.unary()
            } else {
                self.fold_binary(level - 1)
            };
            match right {
                Err(e) => return Err(e),
                Ok(right) => {
                    expr = Expr::Binary { left: Box::new(expr), operator, right: Box::new(right) };
                },
            }
        }
    }

    /// expression → equality
    pub fn expression(&mut self) -> (r: Result<Expr, LoxError>)
        requires
            old(self).wf(),
        ensures
            final(self).moved_on(*old(self)),
            (parsed(r), final(self).current as int) == parse_level(
                old(self).tokens@,
                old(self).current as int,
                5,
            ),
            r is Ok ==> final(self).current > old(self).current,
        decreases old(self).tokens@.len() - old(self).current, 6nat, 0nat,
    {
        self.equality()
    }

    /// equality → comparison ( ( "!=" | "==" ) comparison )*
    pub fn equality(&mut self) -> (r: Result<Expr, LoxError>)
        requires
            old(self).wf(),
        ensures
            final(self).moved_on(*old(self)),
            (parsed(r), final(self).current as int) == parse_level(
                old(self).tokens@,
                old(self).current as int,
                5,
            ),
            r is Ok ==> final(self).current > old(self).current,
        decreases old(self).tokens@.len() - old(self).current, 5nat, 2nat,
    {
        self.fold_binary(5)
    }

    /// comparison → term ( ( ">" | ">=" | "<" | "<=" ) term )*
    pub fn comparison(&mut self) -> (r: Result<Expr, LoxError>)
        requires
            old(self).wf(),
        ensures
            final(self).moved_on(*old(self)),
            (parsed(r), final(self).current as int) == parse_level(
                old(self).tokens@,
                old(self).current as int,
                4,
            ),
            r is Ok ==> final(self).current > old(self).current,
        decreases old(self).tokens@.len() - old(self).current, 4nat, 2nat,
    {
        self.fold_binary(4)
    }

    /// term → factor ( ( "-" | "+" ) factor )*
    pub fn term(&mut self) -> (r: Result<Expr, LoxError>)
        requires
            old(self).wf(),
        ensures
            final(self).moved_on(*old(self)),
            (parsed(r), final(self).current as int) == parse_level(
                old(self).tokens@,
                old(self).current as int,
                3,
            ),
            r is Ok ==> final(self).current > old(self).current,
        decreases old(self).tokens@.len() - old(self).current, 3nat, 2nat,
    {
        self.fold_binary(3)
    }

    /// factor → unary ( ( "/" | "*" ) unary )*
    pub fn factor(&mut self) -> (r: Result<Expr, LoxError>)
        requires
            old(self).wf(),
        ensures
            final(self).moved_on(*old(self)),
            (parsed(r), final(self).current as int) == parse_level(
                old(self).tokens@,
                old(self).current as int,
                2,
            ),
            r is Ok ==> final(self).current > old(self).current,
        decreases old(self).tokens@.len() - old(self).current, 2nat, 2nat,
    {
        self.fold_binary(2)
    }

    /// unary → ( "!" | "-" ) unary | primary
    pub fn unary(&mut self) -> (r: Result<Expr, LoxError>)
        requires
            old(self).wf(),
        ensures
            final(self).moved_on(*old(self)),
            (parsed(r), final(self).current as int) == parse_level(
                old(self).tokens@,
                old(self).current as int,
                1,
            ),
            r is Ok ==> final(self).current > old(self).current,
        decreases old(self).tokens@.len() - old(self).current, 1nat, 1nat,
    {
        if self.match_level(1) {
            let operator = self.previous().duplicate();
            match self.unary() {
                Ok(right) => Ok(Expr::Unary { operator, right: Box::new(right) }),
                Err(e) => Err(e),
            }
        } else {
            self.primary()
        }
    }

    /// primary → "true" | "false" | "nil" | NUMBER | STRING | "(" expression ")" | IDENTIFIER
    pub fn primary(&mut self) -> (r: Result<Expr, LoxError>)
        requires
            old(self).wf(),
        ensures
            final(self).moved_on(*old(self)),
            (parsed(r), final(self).current as int) == parse_level(
                old(self).tokens@,
                old(self).current as int,
                0,
            ),
            r is Ok ==> final(self).current > old(self).current,
        decreases old(self).tokens@.len() - old(self).current, 0nat, 1nat,
    {
        if self.match_token_type(TokenType::False) {
            return Ok(Expr::Literal { value: Literal::Bool(false) });
        }
        if self.match_token_type(TokenType::True) {
            return Ok(Expr::Literal { value: Literal::Bool(true) });
        }
        if self.match_token_type(TokenType::Nil) {
            return Ok(Expr::Literal { value: Literal::Nil });
        }
        let literals = [TokenType::Number, TokenType::Str];
        if self.match_(&literals) {
            return match &self.previous().literal {
                Some(l) => Ok(Expr::Literal { value: l.duplicate() }),
                None => Err(
                    LoxError::new(
                        self.previous().line,
                        EXPECTED_EXPRESSION,
                        String::from_str("Expect expression."),
                    ),
                ),
            };
        }
        if self.match_token_type(TokenType::Identifier) {
            return Ok(Expr::Variable { name: self.previous().duplicate() });
        }
        if self.match_token_type(TokenType::LeftParen) {
            let expr = match self.expression() {
                Ok(e) => e,
                Err(e) => return Err(e),
            };
            return match self.consume(TokenType::RightParen, String::from_str("Expect ')' after expression.")) {
                Ok(()) => Ok(Expr::Grouping { expression: Box::new(expr) }),
                Err(e) => Err(e),
            };
        }
        Err(LoxError::new(self.peek().line, EXPECTED_EXPRESSION, String::from_str("Expect expression.")))
    }

    /// Parses `exprStmt` at the current position.
    pub fn expression_statement(&mut self) -> (r: Result<Stmt, LoxError>)
        requires
            old(self).wf(),
        ensures
            final(self).moved_on(*old(self)),
            (parsed(r), final(self).current as int) == expression_stmt(
                old(self).tokens@,
                old(self).current as int,
            ),
            r is Ok ==> final(self).current > old(self).current,
    {
        let value = match self.expression() {
            Ok(e) => e,
            Err(e) => return Err(e),
        };
        match self.consume(TokenType::Semicolon, String::from_str("Expect ';' after expression.")) {
            Ok(()) => Ok(Stmt::Expression { expression: Box::new(value) }),
            Err(e) => Err(e),
        }
    }

    /// Parses `printStmt` with the keyword already consumed.
    pub fn print_statement(&mut self) -> (r: Result<Stmt, LoxError>)
        requires
            old(self).wf(),
        ensures
            final(self).moved_on(*old(self)),
            (parsed(r), final(self).current as int) == print_stmt(
                old(self).tokens@,
                old(self).current as int,
            ),
            r is Ok ==> final(self).current > old(self).current,
    {
        let value = match self.expression() {
            Ok(e) => e,
            Err(e) => return Err(e),
        };
        match self.consume(TokenType::Semicolon, String::from_str("Expect ';' after value.")) {
            Ok(()) => Ok(Stmt::Print { expression: Box::new(value) }),
            Err(e) => Err(e),
        }
    }

    /// Parses `varDecl` with the keyword already consumed.
    pub fn var_declaration(&mut self) -> (r: Result<Stmt, LoxError>)
        requires
            old(self).wf(),
        ensures
            final(self).moved_on(*old(self)),
            (parsed(r), final(self).current as int) == var_decl(
                old(self).tokens@,
                old(self).current as int,
            ),
            r is Ok ==> final(self).current > old(self).current,
    {
        match self.consume(TokenType::Identifier, String::from_str("Expect variable name.")) {
            Ok(()) => {},
            Err(e) => return Err(e),
        }
        let name = self.previous().duplicate();
        let initializer = if self.match_token_type(TokenType::Equal) {
            match self.expression() {
                Ok(e) => Some(e),
                Err(e) => return Err(e),
            }
        } else {
            None
        };
        match self.consume(
            TokenType::Semicolon,
            String::from_str("Expect ';' after variable declaration."),
        ) {
            Ok(()) => Ok(Stmt::Var { name, initializer }),
            Err(e) => Err(e),
        }
    }

    /// Parses `statement` at the current position.
    pub fn statement(&mut self) -> (r: Result<Stmt, LoxError>)
        requires
            old(self).wf(),
        ensures
            final(self).moved_on(*old(self)),
            (parsed(r), final(self).current as int) == statement_at(
                old(self).tokens@,
                old(self).current as int,
            ),
            r is Ok ==> final(self).current > old(self).current,
    {
        if self.match_token_type(TokenType::Print) {
            return self.print_statement();
        }
        self.expression_statement()
    }

    /// Skips to a likely statement boundary after an error: past at least
    /// one token, then up to just after a `;` or to a keyword that starts a
    /// statement.
    pub fn synchronize(&mut self)
        requires
            old(self).wf(),
        ensures
            final(self).moved_on(*old(self)),
            final(self).current == recovered(old(self).tokens@, old(self).current as int),
            final(self).current >= adv(old(self).tokens@, old(self).current as int),
    {
        self.advance();
        while !self.is_at_end()
            invariant
                self.moved_on(*old(self)),
                skip_to_boundary(self.tokens@, self.current as int)
                    == recovered(old(self).tokens@, old(self).current as int),
                self.current >= adv(old(self).tokens@, old(self).current as int),
            decreases self.tokens@.len() - self.current,
        {
            if self.current > 0 && self.previous().token_type == TokenType::Semicolon {
                return;
            }
            match self.peek().token_type {
                TokenType::Class | TokenType::Fun | TokenType::Var | TokenType::For | TokenType::If
                | TokenType::While | TokenType::Print | TokenType::Return => return,
                _ => {},
            }
            self.advance();
        }
    }

    /// Parses one declaration; after an error, recovers to the next likely
    /// statement boundary before handing the error back.
    pub fn declaration(&mut self) -> (r: Result<Stmt, LoxError>)
        requires
            old(self).wf(),
        ensures
            final(self).moved_on(*old(self)),
            (parsed(r), final(self).current as int) == declaration_at(
                old(self).tokens@,
                old(self).current as int,
            ),
            old(self).tokens@[old(self).current as int].token_type != TokenType::Eof
                ==> final(self).current > old(self).current,
    {
        let res = if self.match_token_type(TokenType::Var) {
            self.var_declaration()
        } else {
            self.statement()
        };
        if res.is_err() {
            self.synchronize();
        }
        res
    }

    /// Parses every declaration up to the end marker, going on after each
    /// error: the statements that parsed and the errors, each in order.
    pub fn parse_all(&mut self) -> (r: (Vec<Stmt>, Vec<LoxError>))
        requires
            old(self).wf(),
        ensures
            final(self).moved_on(*old(self)),
            r.0@ == program(old(self).tokens@, old(self).current as int).0,
            error_views(r.1@) == program(old(self).tokens@, old(self).current as int).1,
    {
        let ghost toks = self.tokens@;
        let ghost start = self.current as int;
        let mut statements: Vec<Stmt> = Vec::new();
        let mut errors: Vec<LoxError> = Vec::new();
        while !self.is_at_end()
            invariant
                self.moved_on(*old(self)),
                toks == self.tokens@,
                start == old(self).current,
                statements@ + program(toks, self.current as int).0 == program(toks, start).0,
                error_views(errors@) + program(toks, self.current as int).1 == program(toks, start).1,
            decreases toks.len() - self.current,
        {
            let ghost cur = self.current as int;
            let ghost rest = program(toks, cur);
            let r = self.declaration();
            let ghost next = program(toks, self.current as int);
            match r {
                Ok(s) => {
                    proof {
                        assert(rest.0 == seq![s] + next.0);
                        assert(statements@.push(s) + next.0 =~= statements@ + rest.0);
                    }
                    statements.push(s);
                },
                Err(e) => {
                    proof {
                        assert(rest.1 == seq![e@] + next.1);
                        assert(error_views(errors@.push(e)) =~= error_views(errors@).push(e@));
                        assert(error_views(errors@).push(e@) + next.1 =~= error_views(errors@) + rest.1);
                    }
                    errors.push(e);
                },
            }
        }
        proof {
            assert(statements@ =~= program(toks, start).0);
            assert(error_views(errors@) =~= program(toks, start).1);
        }
        (statements, errors)
    }

    /// Parses the whole token sequence: the statements, or else the first
    /// error. Every declaration is parsed, also after an error.
    pub fn parse(self) -> (r: Result<Vec<Stmt>, LoxError>)
        requires
            self.wf(),
        ensures
            match r {
                Ok(v) => program(self.tokens@, self.current as int).1.len() == 0
                    && v@ == program(self.tokens@, self.current as int).0,
                Err(e) => program(self.tokens@, self.current as int).1.len() > 0
                    && e@ == program(self.tokens@, self.current as int).1[0],
            },
    {
        let mut parser = self;
        let (statements, mut errors) = parser.parse_all();
        if errors.len() == 0 {
            Ok(statements)
        } else {
            Err(errors.remove(0))
        }
    }

    /// Consumes the current token if it has the expected category; otherwise
    /// an error at the current token with the given message.
    pub fn consume(&mut self, until: TokenType, message: String) -> (r: Result<(), LoxError>)
        requires
            old(self).wf(),
        ensures
            final(self).moved_on(*old(self)),
            (parsed(r), final(self).current as int) == consumed(
                old(self).tokens@,
                old(self).current as int,
                until,
                message@,
            ),
    {
        if self.check(until) {
            self.advance();
            return Ok(());
        }
        Err(LoxError::new(self.peek().line, EXPECTED_TOKEN, message))
    }
}

/// Consuming a token of category `t` at `pos`: the position after it, or
/// an error at the token found there.
pub open spec fn consumed(toks: Seq<Token>, pos: int, t: TokenType, message: Seq<char>) -> (Result<(), ErrorView>, int) {
    if toks[pos].token_type == t {
        (Ok(()), adv(toks, pos))
    } else {
        (Err(error_at(toks[pos], EXPECTED_TOKEN, message)), pos)
    }
}

/// `exprStmt → expression ";"` at `pos`.
pub open spec fn expression_stmt(toks: Seq<Token>, pos: int) -> (Result<Stmt, ErrorView>, int) {
    let (r, p) = parse_level(toks, pos, 5);
    match r {
        Err(e) => (Err(e), p),
        Ok(e) => {
            let (c, q) = consumed(toks, p, TokenType::Semicolon, "Expect ';' after expression."@);
            match c {
                Err(err) => (Err(err), q),
                Ok(_) => (Ok(Stmt::Expression { expression: Box::new(e) }), q),
            }
        },
    }
}

/// `printStmt → "print" expression ";"`, with `pos` just after the keyword.
pub open spec fn print_stmt(toks: Seq<Token>, pos: int) -> (Result<Stmt, ErrorView>, int) {
    let (r, p) = parse_level(toks, pos, 5);
    match r {
        Err(e) => (Err(e), p),
        Ok(e) => {
            let (c, q) = consumed(toks, p, TokenType::Semicolon, "Expect ';' after value."@);
            match c {
                Err(err) => (Err(err), q),
                Ok(_) => (Ok(Stmt::Print { expression: Box::new(e) }), q),
            }
        },
    }
}

/// `varDecl → "var" IDENTIFIER ( "=" expression )? ";"`, with `pos` just
/// after the keyword.
pub open spec fn var_decl(toks: Seq<Token>, pos: int) -> (Result<Stmt, ErrorView>, int) {
    let (c, p1) = consumed(toks, pos, TokenType::Identifier, "Expect variable name."@);
    match c {
        Err(e) => (Err(e), p1),
        Ok(_) => {
            let name = toks[pos];
            let (init, p2) = if toks[p1].token_type == TokenType::Equal {
                let (r, p) = parse_level(toks, adv(toks, p1), 5);
                match r {
                    Err(e) => (Err(e), p),
                    Ok(e) => (Ok(Some(e)), p),
                }
            } else {
                (Ok(None), p1)
            };
            match init {
                Err(e) => (Err(e), p2),
                Ok(initializer) => {
                    let (d, q) = consumed(
                        toks,
                        p2,
                        TokenType::Semicolon,
                        "Expect ';' after variable declaration."@,
                    );
                    match d {
                        Err(e) => (Err(e), q),
                        Ok(_) => (Ok(Stmt::Var { name, initializer }), q),
                    }
                },
            }
        },
    }
}

/// `statement → printStmt | exprStmt` at `pos`.
pub open spec fn statement_at(toks: Seq<Token>, pos: int) -> (Result<Stmt, ErrorView>, int) {
    if toks[pos].token_type == TokenType::Print {
        print_stmt(toks, adv(toks, pos))
    } else {
        expression_stmt(toks, pos)
    }
}

/// A keyword that starts a statement, where recovery stops.
pub open spec fn starts_statement(t: TokenType) -> bool {
    t == TokenType::Class || t == TokenType::Fun || t == TokenType::Var || t == TokenType::For
        || t == TokenType::If || t == TokenType::While || t == TokenType::Print
        || t == TokenType::Return
}

/// Skips tokens from `pos` until just after a `;`, or a keyword that starts
/// a statement, or the end marker.
pub open spec fn skip_to_boundary(toks: Seq<Token>, pos: int) -> int
    decreases toks.len() - pos,
{
    if pos <= 0 || pos >= toks.len() || toks[pos].token_type == TokenType::Eof {
        pos
    } else if toks[pos - 1].token_type == TokenType::Semicolon {
        pos
    } else if starts_statement(toks[pos].token_type) {
        pos
    } else {
        skip_to_boundary(toks, pos + 1)
    }
}

/// Where recovery from an error at `pos` resumes: at least one token on.
pub open spec fn recovered(toks: Seq<Token>, pos: int) -> int {
    skip_to_boundary(toks, adv(toks, pos))
}

/// `declaration → varDecl | statement` at `pos`; after an error the
/// position is where recovery resumed.
pub open spec fn declaration_at(toks: Seq<Token>, pos: int) -> (Result<Stmt, ErrorView>, int) {
    let (r, p) = if toks[pos].token_type == TokenType::Var {
        var_decl(toks, adv(toks, pos))
    } else {
        statement_at(toks, pos)
    };
    match r {
        Err(e) => (Err(e), recovered(toks, p)),
        Ok(s) => (Ok(s), p),
    }
}

/// The declarations from `pos` to the end marker: the statements that
/// parsed, and the errors of those that did not, each in order.
pub open spec fn program(toks: Seq<Token>, pos: int) -> (Seq<Stmt>, Seq<ErrorView>)
    decreases toks.len() - pos,
{
    if pos < 0 || pos >= toks.len() || toks[pos].token_type == TokenType::Eof {
        (Seq::empty(), Seq::empty())
    } else {
        let (r, p) = declaration_at(toks, pos);
        if pos < p <= toks.len() {
            let (stmts, errs) = program(toks, p);
            match r {
                Ok(s) => (seq![s] + stmts, errs),
                Err(e) => (stmts, seq![e] + errs),
            }
        } else {
            (Seq::empty(), Seq::empty())
        }
    }
}

/// Parsing an expression stays on the tokens and never goes back; when it
/// succeeds it has consumed at least one token.
pub proof fn lemma_parse_level_moves_on(toks: Seq<Token>, pos: int, level: nat)
    requires
        terminated(toks),
        0 <= pos < toks.len(),
    ensures
        pos <= parse_level(toks, pos, level).1 < toks.len(),
        parse_level(toks, pos, level).0 is Ok ==> pos < parse_level(toks, pos, level).1,
    decreases toks.len() - pos, level, 1nat,
{
    let tt = toks[pos].token_type;
    if level == 0 {
        if tt == TokenType::LeftParen {
            lemma_parse_level_moves_on(toks, pos + 1, 5);
        }
    } else if level == 1 {
        if level_ops(1).contains(tt) {
            lemma_parse_level_moves_on(toks, pos + 1, 1);
        } else {
            lemma_parse_level_moves_on(toks, pos, 0);
        }
    } else {
        lemma_parse_level_moves_on(toks, pos, (level - 1) as nat);
        let (r, p) = parse_level(toks, pos, (level - 1) as nat);
        if r is Ok {
            lemma_fold_level_moves_on(toks, p, level, r->Ok_0);
        }
    }
}

/// Extending an expression with operators stays on the tokens and never
/// goes back.
pub proof fn lemma_fold_level_moves_on(toks: Seq<Token>, pos: int, level: nat, left: Expr)
    requires
        terminated(toks),
        0 <= pos < toks.len(),
    ensures
        pos <= fold_level(toks, pos, level, left).1 < toks.len(),
    decreases toks.len() - pos, level, 0nat,
{
    if level >= 2 && level_ops(level).contains(toks[pos].token_type) {
        lemma_parse_level_moves_on(toks, pos + 1, (level - 1) as nat);
        let (r, p) = parse_level(toks, pos + 1, (level - 1) as nat);
        if r is Ok {
            let e = Expr::Binary { left: Box::new(left), operator: toks[pos], right: Box::new(r->Ok_0) };
            lemma_fold_level_moves_on(toks, p, level, e);
        }
    }
}

/// Recovery stays on the tokens and never goes back.
pub proof fn lemma_skip_moves_on(toks: Seq<Token>, pos: int)
    requires
        terminated(toks),
        0 <= pos < toks.len(),
    ensures
        pos <= skip_to_boundary(toks, pos) < toks.len(),
    decreases toks.len() - pos,
{
    if 0 < pos && toks[pos].token_type != TokenType::Eof && toks[pos - 1].token_type
        != TokenType::Semicolon && !starts_statement(toks[pos].token_type) {
        lemma_skip_moves_on(toks, pos + 1);
    }
}

/// A declaration that does not start at the end marker consumes at least
/// one token, whether it parses or not.
pub proof fn lemma_declaration_moves_on(toks: Seq<Token>, pos: int)
    requires
        terminated(toks),
        0 <= pos < toks.len(),
        toks[pos].token_type != TokenType::Eof,
    ensures
        pos < declaration_at(toks, pos).1 < toks.len(),
{
    let tt = toks[pos].token_type;
    let (r, p) = if tt == TokenType::Var {
        let q = pos + 1;
        if toks[q].token_type == TokenType::Identifier {
            let q1 = q + 1;
            if toks[q1].token_type == TokenType::Equal {
                lemma_parse_level_moves_on(toks, adv(toks, q1), 5);
            }
        }
        var_decl(toks, q)
    } else if tt == TokenType::Print {
        lemma_parse_level_moves_on(toks, pos + 1, 5);
        statement_at(toks, pos)
    } else {
        lemma_parse_level_moves_on(toks, pos, 5);
        statement_at(toks, pos)
    };
    if r is Err {
        lemma_skip_moves_on(toks, adv(toks, p));
    }
}

/// A declaration that fails to parse is reported, and parsing goes on from
/// where recovery resumed: the statements after it are exactly those parsed
/// from that point, and its error comes before theirs.
pub proof fn lemma_error_does_not_stop_parsing(toks: Seq<Token>, pos: int)
    requires
        terminated(toks),
        0 <= pos < toks.len(),
        toks[pos].token_type != TokenType::Eof,
        declaration_at(toks, pos).0 is Err,
    ensures
        program(toks, pos).0 == program(toks, declaration_at(toks, pos).1).0,
        program(toks, pos).1 == seq![declaration_at(toks, pos).0->Err_0] + program(
            toks,
            declaration_at(toks, pos).1,
        ).1,
{
    lemma_declaration_moves_on(toks, pos);
}

/// The mathematical form of a list of errors.
pub open spec fn error_views(errs: Seq<LoxError>) -> Seq<ErrorView> {
    errs.map_values(|e: LoxError| e@)
}

} // verus!
