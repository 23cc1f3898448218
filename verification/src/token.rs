use vstd::prelude::*;
use crate::positions::Span;

verus! {

/// The tokens of the Dr Script language.
#[derive(Debug, Clone, PartialEq)]
pub enum Token {
    Var,
    Ver,
    Ident(String),
    Number(i64),
    Assign,
    Plus,
    Minus,
    Star,
    Slash,
    Semicolon,
    LParen,
    RParen,
    Less,
    LessEqual,
    Greater,
    GreaterEqual,
    Equal,
    NotEqual,
    If,
    Else,
    LBrace,
    RBrace,
    While,
    For,
    PlusPlus,
    MinusMinus,
    Fun,
    Return,
    Comma,
    NewLine,
    Str(String),
    Use,
}

/// The mathematical value of a token: strings are taken by their characters.
pub enum SToken {
    Var,
    Ver,
    Ident(Seq<char>),
    Number(i64),
    Assign,
    Plus,
    Minus,
    Star,
    Slash,
    Semicolon,
    LParen,
    RParen,
    Less,
    LessEqual,
    Greater,
    GreaterEqual,
    Equal,
    NotEqual,
    If,
    Else,
    LBrace,
    RBrace,
    While,
    For,
    PlusPlus,
    MinusMinus,
    Fun,
    Return,
    Comma,
    NewLine,
    Str(Seq<char>),
    Use,
}

impl View for Token {
    type V = SToken;

    open spec fn view(&self) -> SToken {
        match self {
            Token::Var => SToken::Var,
            Token::Ver => SToken::Ver,
            Token::Ident(s) => SToken::Ident(s@),
            Token::Number(n) => SToken::Number(*n),
            Token::Assign => SToken::Assign,
            Token::Plus => SToken::Plus,
            Token::Minus => SToken::Minus,
            Token::Star => SToken::Star,
            Token::Slash => SToken::Slash,
            Token::Semicolon => SToken::Semicolon,
            Token::LParen => SToken::LParen,
            Token::RParen => SToken::RParen,
            Token::Less => SToken::Less,
            Token::LessEqual => SToken::LessEqual,
            Token::Greater => SToken::Greater,
            Token::GreaterEqual => SToken::GreaterEqual,
            Token::Equal => SToken::Equal,
            Token::NotEqual => SToken::NotEqual,
            Token::If => SToken::If,
            Token::Else => SToken::Else,
            Token::LBrace => SToken::LBrace,
            Token::RBrace => SToken::RBrace,
            Token::While => SToken::While,
            Token::For => SToken::For,
            Token::PlusPlus => SToken::PlusPlus,
            Token::MinusMinus => SToken::MinusMinus,
            Token::Fun => SToken::Fun,
            Token::Return => SToken::Return,
            Token::Comma => SToken::Comma,
            Token::NewLine => SToken::NewLine,
            Token::Str(s) => SToken::Str(s@),
            Token::Use => SToken::Use,
        }
    }
}

/// Whether two tokens are of the same kind, whatever they carry.
pub open spec fn same_kind(a: SToken, b: SToken) -> bool {
    match (a, b) {
        (SToken::Ident(_), SToken::Ident(_)) => true,
        (SToken::Number(_), SToken::Number(_)) => true,
        (SToken::Str(_), SToken::Str(_)) => true,
        (SToken::Ident(_), _) => false,
        (SToken::Number(_), _) => false,
        (SToken::Str(_), _) => false,
        (_, SToken::Ident(_)) => false,
        (_, SToken::Number(_)) => false,
        (_, SToken::Str(_)) => false,
        _ => a == b,
    }
}

impl Token {
    /// A copy of the token.
    pub fn dup(&self) -> (r: Token)
        ensures
            r@ == self@,
    {
        match self {
            Token::Var => Token::Var,
            Token::Ver => Token::Ver,
            Token::Ident(s) => Token::Ident(s.clone()),
            Token::Number(n) => Token::Number(*n),
            Token::Assign => Token::Assign,
            Token::Plus => Token::Plus,
            Token::Minus => Token::Minus,
            Token::Star => Token::Star,
            Token::Slash => Token::Slash,
            Token::Semicolon => Token::Semicolon,
            Token::LParen => Token::LParen,
            Token::RParen => Token::RParen,
            Token::Less => Token::Less,
            Token::LessEqual => Token::LessEqual,
            Token::Greater => Token::Greater,
            Token::GreaterEqual => Token::GreaterEqual,
            Token::Equal => Token::Equal,
            Token::NotEqual => Token::NotEqual,
            Token::If => Token::If,
            Token::Else => Token::Else,
            Token::LBrace => Token::LBrace,
            Token::RBrace => Token::RBrace,
            Token::While => Token::While,
            Token::For => Token::For,
            Token::PlusPlus => Token::PlusPlus,
            Token::MinusMinus => Token::MinusMinus,
            Token::Fun => Token::Fun,
            Token::Return => Token::Return,
            Token::Comma => Token::Comma,
            Token::NewLine => Token::NewLine,
            Token::Str(s) => Token::Str(s.clone()),
            Token::Use => Token::Use,
        }
    }

    /// Whether the two tokens are of the same kind (their payloads are not compared).
    pub fn same_kind_as(&self, other: &Token) -> (r: bool)
        ensures
            r == same_kind(self@, other@),
    {
        match (self, other) {
            (Token::Ident(_), Token::Ident(_)) => true,
            (Token::Number(_), Token::Number(_)) => true,
            (Token::Str(_), Token::Str(_)) => true,
            (Token::Ident(_), _) => false,
            (Token::Number(_), _) => false,
            (Token::Str(_), _) => false,
            (_, Token::Ident(_)) => false,
            (_, Token::Number(_)) => false,
            (_, Token::Str(_)) => false,
            _ => self.tag() == other.tag(),
        }
    }

    /// A number that identifies the kind of the token.
    pub fn tag(&self) -> (r: u8)
        ensures
            r == tag_of(self@),
    {
        match self {
            Token::Var => 0,
            Token::Ver => 1,
            Token::Ident(_) => 2,
            Token::Number(_) => 3,
            Token::Assign => 4,
            Token::Plus => 5,
            Token::Minus => 6,
            Token::Star => 7,
            Token::Slash => 8,
            Token::Semicolon => 9,
            Token::LParen => 10,
            Token::RParen => 11,
            Token::Less => 12,
            Token::LessEqual => 13,
            Token::Greater => 14,
            Token::GreaterEqual => 15,
            Token::Equal => 16,
            Token::NotEqual => 17,
            Token::If => 18,
            Token::Else => 19,
            Token::LBrace => 20,
            Token::RBrace => 21,
            Token::While => 22,
            Token::For => 23,
            Token::PlusPlus => 24,
            Token::MinusMinus => 25,
            Token::Fun => 26,
            Token::Return => 27,
            Token::Comma => 28,
            Token::NewLine => 29,
            Token::Str(_) => 30,
            Token::Use => 31,
        }
    }
}

/// The number that identifies the kind of a token.
pub open spec fn tag_of(t: SToken) -> u8 {
    match t {
        SToken::Var => 0,
        SToken::Ver => 1,
        SToken::Ident(_) => 2,
        SToken::Number(_) => 3,
        SToken::Assign => 4,
        SToken::Plus => 5,
        SToken::Minus => 6,
        SToken::Star => 7,
        SToken::Slash => 8,
        SToken::Semicolon => 9,
        SToken::LParen => 10,
        SToken::RParen => 11,
        SToken::Less => 12,
        SToken::LessEqual => 13,
        SToken::Greater => 14,
        SToken::GreaterEqual => 15,
        SToken::Equal => 16,
        SToken::NotEqual => 17,
        SToken::If => 18,
        SToken::Else => 19,
        SToken::LBrace => 20,
        SToken::RBrace => 21,
        SToken::While => 22,
        SToken::For => 23,
        SToken::PlusPlus => 24,
        SToken::MinusMinus => 25,
        SToken::Fun => 26,
        SToken::Return => 27,
        SToken::Comma => 28,
        SToken::NewLine => 29,
        SToken::Str(_) => 30,
        SToken::Use => 31,
    }
}

/// A token together with where it stands in the source.
#[derive(Clone, Debug)]
pub struct TokenPosition {
    pub token: Token,
    pub position: Span,
}

/// The mathematical value of a positioned token.
pub struct STokenPos {
    pub token: SToken,
    pub position: Span,
}

impl View for TokenPosition {
    type V = STokenPos;

    open spec fn view(&self) -> STokenPos {
        STokenPos { token: self.token@, position: self.position }
    }
}

impl TokenPosition {
    /// A copy of the positioned token.
    pub fn dup(&self) -> (r: TokenPosition)
        ensures
            r@ == self@,
    {
        TokenPosition { token: self.token.dup(), position: self.position }
    }
}

} // verus!
