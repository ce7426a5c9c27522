//! Tokens: what the scanner hands to the parser.

use crate::value::Value;
use vstd::prelude::*;
use vstd::std_specs::cmp::PartialEqSpecImpl;
use vstd::string::*;

verus! {

/// The kinds of token. An identifier (`Literal`) and a string carry their
/// text, a number carries its value.
#[derive(Debug)]
pub enum TokenType {
    // Single-character tokens.
    LeftParen,
    RightParen,
    LeftBrace,
    RightBrace,
    Comma,
    Dot,
    Minus,
    Plus,
    Semicolon,
    Slash,
    Star,
    // One or two character tokens.
    Bang,
    BangEqual,
    Equal,
    EqualEqual,
    Greater,
    GreaterEqual,
    Less,
    LessEqual,
    // Literals.
    Literal(String),
    String(String),
    Number(Value),
    // Keywords.
    And,
    Class,
    Else,
    False,
    Function,
    For,
    If,
    Nil,
    Or,
    Print,
    Return,
    Super,
    This,
    True,
    Let,
    Mutable,
    While,
    Eof,
}

/// A token kind as a mathematical value: the text it carries is a sequence of
/// characters.
pub enum TokenKind {
    LeftParen,
    RightParen,
    LeftBrace,
    RightBrace,
    Comma,
    Dot,
    Minus,
    Plus,
    Semicolon,
    Slash,
    Star,
    Bang,
    BangEqual,
    Equal,
    EqualEqual,
    Greater,
    GreaterEqual,
    Less,
    LessEqual,
    Literal(Seq<char>),
    String(Seq<char>),
    Number(Value),
    And,
    Class,
    Else,
    False,
    Function,
    For,
    If,
    Nil,
    Or,
    Print,
    Return,
    Super,
    This,
    True,
    Let,
    Mutable,
    While,
    Eof,
}

impl View for TokenType {
    type V = TokenKind;

    open spec fn view(&self) -> TokenKind {
        match self {
            TokenType::LeftParen => TokenKind::LeftParen,
            TokenType::RightParen => TokenKind::RightParen,
            TokenType::LeftBrace => TokenKind::LeftBrace,
            TokenType::RightBrace => TokenKind::RightBrace,
            TokenType::Comma => TokenKind::Comma,
            TokenType::Dot => TokenKind::Dot,
            TokenType::Minus => TokenKind::Minus,
            TokenType::Plus => TokenKind::Plus,
            TokenType::Semicolon => TokenKind::Semicolon,
            TokenType::Slash => TokenKind::Slash,
            TokenType::Star => TokenKind::Star,
            TokenType::Bang => TokenKind::Bang,
            TokenType::BangEqual => TokenKind::BangEqual,
            TokenType::Equal => TokenKind::Equal,
            TokenType::EqualEqual => TokenKind::EqualEqual,
            TokenType::Greater => TokenKind::Greater,
            TokenType::GreaterEqual => TokenKind::GreaterEqual,
            TokenType::Less => TokenKind::Less,
            TokenType::LessEqual => TokenKind::LessEqual,
            TokenType::Literal(text) => TokenKind::Literal(text@),
            TokenType::String(text) => TokenKind::String(text@),
            TokenType::Number(value) => TokenKind::Number(*value),
            TokenType::And => TokenKind::And,
            TokenType::Class => TokenKind::Class,
            TokenType::Else => TokenKind::Else,
            TokenType::False => TokenKind::False,
            TokenType::Function => TokenKind::Function,
            TokenType::For => TokenKind::For,
            TokenType::If => TokenKind::If,
            TokenType::Nil => TokenKind::Nil,
            TokenType::Or => TokenKind::Or,
            TokenType::Print => TokenKind::Print,
            TokenType::Return => TokenKind::Return,
            TokenType::Super => TokenKind::Super,
            TokenType::This => TokenKind::This,
            TokenType::True => TokenKind::True,
            TokenType::Let => TokenKind::Let,
            TokenType::Mutable => TokenKind::Mutable,
            TokenType::While => TokenKind::While,
            TokenType::Eof => TokenKind::Eof,
        }
    }
}

impl Clone for TokenType {
    fn clone(&self) -> (copy: TokenType)
        ensures
            copy@ == self@,
    {
        match self {
            TokenType::LeftParen => TokenType::LeftParen,
            TokenType::RightParen => TokenType::RightParen,
            TokenType::LeftBrace => TokenType::LeftBrace,
            TokenType::RightBrace => TokenType::RightBrace,
            TokenType::Comma => TokenType::Comma,
            TokenType::Dot => TokenType::Dot,
            TokenType::Minus => TokenType::Minus,
            TokenType::Plus => TokenType::Plus,
            TokenType::Semicolon => TokenType::Semicolon,
            TokenType::Slash => TokenType::Slash,
            TokenType::Star => TokenType::Star,
            TokenType::Bang => TokenType::Bang,
            TokenType::BangEqual => TokenType::BangEqual,
            TokenType::Equal => TokenType::Equal,
            TokenType::EqualEqual => TokenType::EqualEqual,
            TokenType::Greater => TokenType::Greater,
            TokenType::GreaterEqual => TokenType::GreaterEqual,
            TokenType::Less => TokenType::Less,
            TokenType::LessEqual => TokenType::LessEqual,
            TokenType::Literal(text) => TokenType::Literal(text.clone()),
            TokenType::String(text) => TokenType::String(text.clone()),
            TokenType::Number(value) => TokenType::Number(*value),
            TokenType::And => TokenType::And,
            TokenType::Class => TokenType::Class,
            TokenType::Else => TokenType::Else,
            TokenType::False => TokenType::False,
            TokenType::Function => TokenType::Function,
            TokenType::For => TokenType::For,
            TokenType::If => TokenType::If,
            TokenType::Nil => TokenType::Nil,
            TokenType::Or => TokenType::Or,
            TokenType::Print => TokenType::Print,
            TokenType::Return => TokenType::Return,
            TokenType::Super => TokenType::Super,
            TokenType::This => TokenType::This,
            TokenType::True => TokenType::True,
            TokenType::Let => TokenType::Let,
            TokenType::Mutable => TokenType::Mutable,
            TokenType::While => TokenType::While,
            TokenType::Eof => TokenType::Eof,
        }
    }
}

impl PartialEq for TokenType {
    /// Two kinds are equal when they are the same variant and carry the same
    /// text or the same value.
    fn eq(&self, other: &TokenType) -> (equal: bool) {
        match self {
            TokenType::LeftParen => matches!(other, TokenType::LeftParen),
            TokenType::RightParen => matches!(other, TokenType::RightParen),
            TokenType::LeftBrace => matches!(other, TokenType::LeftBrace),
            TokenType::RightBrace => matches!(other, TokenType::RightBrace),
            TokenType::Comma => matches!(other, TokenType::Comma),
            TokenType::Dot => matches!(other, TokenType::Dot),
            TokenType::Minus => matches!(other, TokenType::Minus),
            TokenType::Plus => matches!(other, TokenType::Plus),
            TokenType::Semicolon => matches!(other, TokenType::Semicolon),
            TokenType::Slash => matches!(other, TokenType::Slash),
            TokenType::Star => matches!(other, TokenType::Star),
            TokenType::Bang => matches!(other, TokenType::Bang),
            TokenType::BangEqual => matches!(other, TokenType::BangEqual),
            TokenType::Equal => matches!(other, TokenType::Equal),
            TokenType::EqualEqual => matches!(other, TokenType::EqualEqual),
            TokenType::Greater => matches!(other, TokenType::Greater),
            TokenType::GreaterEqual => matches!(other, TokenType::GreaterEqual),
            TokenType::Less => matches!(other, TokenType::Less),
            TokenType::LessEqual => matches!(other, TokenType::LessEqual),
            TokenType::Literal(text) => match other {
                TokenType::Literal(other_text) => *text == *other_text,
                _ => false,
            },
            TokenType::String(text) => match other {
                TokenType::String(other_text) => *text == *other_text,
                _ => false,
            },
            TokenType::Number(value) => match other {
                TokenType::Number(other_value) => value.bits == other_value.bits,
                _ => false,
            },
            TokenType::And => matches!(other, TokenType::And),
            TokenType::Class => matches!(other, TokenType::Class),
            TokenType::Else => matches!(other, TokenType::Else),
            TokenType::False => matches!(other, TokenType::False),
            TokenType::Function => matches!(other, TokenType::Function),
            TokenType::For => matches!(other, TokenType::For),
            TokenType::If => matches!(other, TokenType::If),
            TokenType::Nil => matches!(other, TokenType::Nil),
            TokenType::Or => matches!(other, TokenType::Or),
            TokenType::Print => matches!(other, TokenType::Print),
            TokenType::Return => matches!(other, TokenType::Return),
            TokenType::Super => matches!(other, TokenType::Super),
            TokenType::This => matches!(other, TokenType::This),
            TokenType::True => matches!(other, TokenType::True),
            TokenType::Let => matches!(other, TokenType::Let),
            TokenType::Mutable => matches!(other, TokenType::Mutable),
            TokenType::While => matches!(other, TokenType::While),
            TokenType::Eof => matches!(other, TokenType::Eof),
        }
    }
}

impl PartialEqSpecImpl for TokenType {
    open spec fn obeys_eq_spec() -> bool {
        true
    }

    open spec fn eq_spec(&self, other: &TokenType) -> bool {
        self@ == other@
    }
}

/// A token: its kind and the line on which it ends.
#[derive(Debug)]
pub struct Token {
    pub token_type: TokenType,
    pub line: u32,
}

/// A token as a mathematical value.
pub struct TokenView {
    pub kind: TokenKind,
    pub line: int,
}

impl View for Token {
    type V = TokenView;

    open spec fn view(&self) -> TokenView {
        TokenView { kind: self.token_type@, line: self.line as int }
    }
}

impl Clone for Token {
    fn clone(&self) -> (copy: Token)
        ensures
            copy@ == self@,
    {
        Token { token_type: self.token_type.clone(), line: self.line }
    }
}

/// The kinds of a sequence of tokens, in order.
pub open spec fn kinds(tokens: Seq<TokenView>) -> Seq<TokenKind> {
    tokens.map_values(|token: TokenView| token.kind)
}

/// The views of a sequence of tokens, in order.
pub open spec fn views(tokens: Seq<Token>) -> Seq<TokenView> {
    tokens.map_values(|token: Token| token@)
}

} // verus!
