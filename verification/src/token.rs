//! The lexical tokens that the lexer produces and the parser consumes.

use vstd::prelude::*;

verus! {

/// The reserved words.
#[derive(Debug, Clone, Copy, PartialEq, Eq, Structural)]
pub enum Keyword {
    Int,
    Return,
}

/// A lexical token. Tokens carry no position.
#[derive(Debug, PartialEq, Eq)]
pub enum Token {
    OpenBrace,
    CloseBrace,
    OpenParen,
    CloseParen,
    Semicolon,
    Keyword(Keyword),
    Identifier(String),
    IntegerLiteral(usize),
    NewLine,
    Space,
    Minus,
    BitwiseComplementOperator,
    LogicalNegationOperator,
    Addition,
    Multiplication,
    Division,
    LogicalAnd,
    BitwiseAnd,
    LogicalOr,
    BitwiseOr,
    Equal,
    NotEqual,
    LessThan,
    LessThanOrEqual,
    GreaterThan,
    GreaterThanOrEqual,
}

/// What a `Token` is in specifications: an identifier's name is a sequence
/// of characters.
pub enum TokenView {
    OpenBrace,
    CloseBrace,
    OpenParen,
    CloseParen,
    Semicolon,
    Keyword(Keyword),
    Identifier(Seq<char>),
    IntegerLiteral(usize),
    NewLine,
    Space,
    Minus,
    BitwiseComplementOperator,
    LogicalNegationOperator,
    Addition,
    Multiplication,
    Division,
    LogicalAnd,
    BitwiseAnd,
    LogicalOr,
    BitwiseOr,
    Equal,
    NotEqual,
    LessThan,
    LessThanOrEqual,
    GreaterThan,
    GreaterThanOrEqual,
}

impl View for Token {
    type V = TokenView;

    open spec fn view(&self) -> TokenView {
        match *self {
            Token::OpenBrace => TokenView::OpenBrace,
            Token::CloseBrace => TokenView::CloseBrace,
            Token::OpenParen => TokenView::OpenParen,
            Token::CloseParen => TokenView::CloseParen,
            Token::Semicolon => TokenView::Semicolon,
            Token::Keyword(keyword) => TokenView::Keyword(keyword),
            Token::Identifier(name) => TokenView::Identifier(name@),
            Token::IntegerLiteral(value) => TokenView::IntegerLiteral(value),
            Token::NewLine => TokenView::NewLine,
            Token::Space => TokenView::Space,
            Token::Minus => TokenView::Minus,
            Token::BitwiseComplementOperator => TokenView::BitwiseComplementOperator,
            Token::LogicalNegationOperator => TokenView::LogicalNegationOperator,
            Token::Addition => TokenView::Addition,
            Token::Multiplication => TokenView::Multiplication,
            Token::Division => TokenView::Division,
            Token::LogicalAnd => TokenView::LogicalAnd,
            Token::BitwiseAnd => TokenView::BitwiseAnd,
            Token::LogicalOr => TokenView::LogicalOr,
            Token::BitwiseOr => TokenView::BitwiseOr,
            Token::Equal => TokenView::Equal,
            Token::NotEqual => TokenView::NotEqual,
            Token::LessThan => TokenView::LessThan,
            Token::LessThanOrEqual => TokenView::LessThanOrEqual,
            Token::GreaterThan => TokenView::GreaterThan,
            Token::GreaterThanOrEqual => TokenView::GreaterThanOrEqual,
        }
    }
}

impl Token {
    /// A copy of the token.
    pub fn duplicate(&self) -> (copy: Token)
        ensures
            copy@ == self@,
    {
        match self {
            Token::OpenBrace => Token::OpenBrace,
            Token::CloseBrace => Token::CloseBrace,
            Token::OpenParen => Token::OpenParen,
            Token::CloseParen => Token::CloseParen,
            Token::Semicolon => Token::Semicolon,
            Token::Keyword(keyword) => Token::Keyword(*keyword),
            Token::Identifier(name) => Token::Identifier(name.clone()),
            Token::IntegerLiteral(value) => Token::IntegerLiteral(*value),
            Token::NewLine => Token::NewLine,
            Token::Space => Token::Space,
            Token::Minus => Token::Minus,
            Token::BitwiseComplementOperator => Token::BitwiseComplementOperator,
            Token::LogicalNegationOperator => Token::LogicalNegationOperator,
            Token::Addition => Token::Addition,
            Token::Multiplication => Token::Multiplication,
            Token::Division => Token::Division,
            Token::LogicalAnd => Token::LogicalAnd,
            Token::BitwiseAnd => Token::BitwiseAnd,
            Token::LogicalOr => Token::LogicalOr,
            Token::BitwiseOr => Token::BitwiseOr,
            Token::Equal => Token::Equal,
            Token::NotEqual => Token::NotEqual,
            Token::LessThan => Token::LessThan,
            Token::LessThanOrEqual => Token::LessThanOrEqual,
            Token::GreaterThan => Token::GreaterThan,
            Token::GreaterThanOrEqual => Token::GreaterThanOrEqual,
        }
    }

    /// Whether the token is whitespace: a space or a line end.
    pub fn is_blank(&self) -> (blank: bool)
        ensures
            blank == self@.is_blank(),
    {
        match self {
            Token::Space => true,
            Token::NewLine => true,
            _ => false,
        }
    }
}

impl Clone for Token {
    fn clone(&self) -> (copy: Token)
        ensures
            copy@ == self@,
    {
        self.duplicate()
    }
}

impl TokenView {
    /// Whether the token is whitespace: a space or a line end.
    pub open spec fn is_blank(self) -> bool {
        self is Space || self is NewLine
    }
}

/// The views of a sequence of tokens, in order.
pub open spec fn token_views(tokens: Seq<Token>) -> Seq<TokenView> {
    Seq::new(tokens.len(), |i: int| tokens[i]@)
}

} // verus!
