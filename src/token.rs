use vstd::prelude::*;

verus! {

/// The category of a token.
#[derive(Debug, Clone, Copy, PartialEq, Eq, Structural)]
pub enum TokenType {
    LeftParen,
    RightParen,
    LeftBrace,
    RightBrace,
    Comma,
    Dot,
    Minus,
    Plus,
    Semicolon,
    Slash,
    Star,
    Bang,
    BangEqual,
    Equal,
    EqualEqual,
    Greater,
    GreaterEqual,
    Less,
    LessEqual,
    Identifier,
    Str,
    Number,
    And,
    Class,
    Else,
    False,
    Fun,
    For,
    If,
    Nil,
    Or,
    Print,
    Return,
    Super,
    This,
    True,
    Var,
    While,
    Eof,
}

/// The mathematical form of a runtime value.
pub ghost enum Val {
    Num(int),
    Text(Seq<char>),
    Bool(bool),
    Nil,
}

/// A runtime value. Numbers are 64-bit signed integers.
#[derive(Debug)]
pub enum Literal {
    Number(i64),
    Str(String),
    Bool(bool),
    Nil,
}

impl View for Literal {
    type V = Val;

    open spec fn view(&self) -> Val {
        match self {
            Literal::Number(n) => Val::Num(*n as int),
            Literal::Str(s) => Val::Text(s@),
            Literal::Bool(b) => Val::Bool(*b),
            Literal::Nil => Val::Nil,
        }
    }
}

/// Only `nil` and `false` are falsy.
pub open spec fn truthy(v: Val) -> bool {
    match v {
        Val::Nil => false,
        Val::Bool(b) => b,
        _ => true,
    }
}

impl Literal {
    /// A copy of this value.
    pub fn duplicate(&self) -> (r: Literal)
        ensures
            r == *self,
    {
        match self {
            Literal::Number(n) => Literal::Number(*n),
            Literal::Str(s) => Literal::Str(s.clone()),
            Literal::Bool(b) => Literal::Bool(*b),
            Literal::Nil => Literal::Nil,
        }
    }

    /// Whether this value counts as true.
    pub fn is_truthy(&self) -> (r: bool)
        ensures
            r == truthy(self@),
    {
        match self {
            Literal::Nil => false,
            Literal::Bool(b) => *b,
            _ => true,
        }
    }

    /// Structural equality: the same variant with the same payload.
    pub fn is_equal(&self, other: &Literal) -> (r: bool)
        ensures
            r == (self@ == other@),
    {
        match self {
            Literal::Number(a) => match other {
                Literal::Number(b) => *a == *b,
                _ => false,
            },
            Literal::Str(a) => match other {
                Literal::Str(b) => a.eq(b),
                _ => false,
            },
            Literal::Bool(a) => match other {
                Literal::Bool(b) => *a == *b,
                _ => false,
            },
            Literal::Nil => match other {
                Literal::Nil => true,
                _ => false,
            },
        }
    }
}

/// A token: its category, the text it was scanned from, its line, and
/// for a number or a string the value it stands for.
#[derive(Debug)]
pub struct Token {
    pub token_type: TokenType,
    pub lexeme: String,
    pub line: usize,
    pub literal: Option<Literal>,
}

impl Token {
    pub fn new(token_type: TokenType, lexeme: String, line: usize, literal: Option<Literal>) -> (r: Token)
        ensures
            r.token_type == token_type,
            r.lexeme == lexeme,
            r.line == line,
            r.literal == literal,
    {
        Token { token_type, lexeme, line, literal }
    }

    pub fn token_type(&self) -> (r: TokenType)
        ensures
            r == self.token_type,
    {
        self.token_type
    }

    pub fn line(&self) -> (r: usize)
        ensures
            r == self.line,
    {
        self.line
    }

    pub fn lexeme(&self) -> (r: &String)
        ensures
            r == &self.lexeme,
    {
        &self.lexeme
    }

    /// A copy of this token.
    pub fn duplicate(&self) -> (r: Token)
        ensures
            r == *self,
    {
        let literal = match &self.literal {
            Some(l) => Some(l.duplicate()),
            None => None,
        };
        Token { token_type: self.token_type, lexeme: self.lexeme.clone(), line: self.line, literal }
    }
}

} // verus!
