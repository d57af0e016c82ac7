//! The grammar, as functions from a token sequence and a position to the
//! tree that starts there and the number of tokens it takes.
//!
//! ```text
//! Program     := Function
//! Function    := "int" Identifier "(" ")" "{" Statement "}"
//! Statement   := "return" Expression ";"
//! Expression  := LogicalAnd ( "||" LogicalAnd )*
//! LogicalAnd  := Equality ( "&&" Equality )*
//! Equality    := Relational ( ("==" | "!=") Relational )*
//! Relational  := Additive ( ("<" | "<=" | ">" | ">=") Additive )*
//! Additive    := Term ( ("+" | "-") Term )*
//! Term        := Factor ( ("*" | "/") Factor )*
//! Factor      := "(" Expression ")" | ("-" | "~" | "!") Factor | IntegerLiteral
//! ```
//!
//! Whitespace tokens may stand before any token and are skipped, but one
//! must follow `return`. A token sequence is a program only as a whole:
//! nothing but whitespace may follow the function. The binary levels are
//! numbered from the tightest:
//! `Term` is level 1 and `Expression` level 6; level 0 is `Factor`.

use vstd::prelude::*;
use crate::ast::{BinaryOperator, Tree, UnaryOperator};
use crate::token::{Keyword, TokenView};

verus! {

/// The keyword, name or punctuation mark that the grammar requires at a place.
#[derive(Debug, Clone, Copy, PartialEq, Eq, Structural)]
pub enum Required {
    Int,
    Identifier,
    OpenParen,
    CloseParen,
    OpenBrace,
    CloseBrace,
    Return,
    Semicolon,
}

/// A token sequence that the grammar does not derive.
#[derive(Debug, Clone, Copy, PartialEq, Eq, Structural)]
pub enum SyntaxError {
    /// The tokens end where one is required.
    UnexpectedEndOfInput,
    /// Another token stands where this one is required.
    Expected(Required),
    /// No whitespace follows `return`.
    MissingWhitespace,
    /// The token cannot start a factor.
    InvalidFactor,
    /// A token that is no whitespace follows the function.
    TrailingToken,
}

impl SyntaxError {
    /// What the error says to a reader.
    pub open spec fn spec_message(self) -> Seq<char> {
        match self {
            SyntaxError::UnexpectedEndOfInput => "unexpected end of input"@,
            SyntaxError::Expected(Required::Int) => "expected 'int'"@,
            SyntaxError::Expected(Required::Identifier) => "expected an identifier"@,
            SyntaxError::Expected(Required::OpenParen) => "expected '('"@,
            SyntaxError::Expected(Required::CloseParen) => "expected ')'"@,
            SyntaxError::Expected(Required::OpenBrace) => "expected '{'"@,
            SyntaxError::Expected(Required::CloseBrace) => "expected '}'"@,
            SyntaxError::Expected(Required::Return) => "expected 'return'"@,
            SyntaxError::Expected(Required::Semicolon) => "expected ';'"@,
            SyntaxError::MissingWhitespace => "expected whitespace after 'return'"@,
            SyntaxError::InvalidFactor => "invalid factor"@,
            SyntaxError::TrailingToken => "unexpected token after the function"@,
        }
    }

    /// What the error says to a reader.
    pub fn message(self) -> (text: &'static str)
        ensures
            text@ == self.spec_message(),
    {
        match self {
            SyntaxError::UnexpectedEndOfInput => "unexpected end of input",
            SyntaxError::Expected(Required::Int) => "expected 'int'",
            SyntaxError::Expected(Required::Identifier) => "expected an identifier",
            SyntaxError::Expected(Required::OpenParen) => "expected '('",
            SyntaxError::Expected(Required::CloseParen) => "expected ')'",
            SyntaxError::Expected(Required::OpenBrace) => "expected '{'",
            SyntaxError::Expected(Required::CloseBrace) => "expected '}'",
            SyntaxError::Expected(Required::Return) => "expected 'return'",
            SyntaxError::Expected(Required::Semicolon) => "expected ';'",
            SyntaxError::MissingWhitespace => "expected whitespace after 'return'",
            SyntaxError::InvalidFactor => "invalid factor",
            SyntaxError::TrailingToken => "unexpected token after the function",
        }
    }
}

/// A tree and the number of tokens that it takes, or the reason why none starts here.
pub type Parsed = Result<(Tree, nat), SyntaxError>;

/// The level of `Expression`, the loosest.
pub open spec fn top_level() -> nat {
    6
}

/// How many whitespace tokens stand at `pos` and directly after.
pub open spec fn blank_run(tokens: Seq<TokenView>, pos: nat) -> nat
    decreases tokens.len() - pos,
{
    if pos < tokens.len() && tokens[pos as int].is_blank() {
        1 + blank_run(tokens, pos + 1)
    } else {
        0
    }
}

/// The next token at or after `pos` that is no whitespace, if there is one.
pub open spec fn peeked(tokens: Seq<TokenView>, pos: nat) -> Option<TokenView> {
    let at = pos + blank_run(tokens, pos);
    if at < tokens.len() {
        Some(tokens[at as int])
    } else {
        None
    }
}

/// Whether `token` is what `required` asks for.
pub open spec fn meets(token: TokenView, required: Required) -> bool {
    match required {
        Required::Int => token == TokenView::Keyword(Keyword::Int),
        Required::Identifier => token is Identifier,
        Required::OpenParen => token is OpenParen,
        Required::CloseParen => token is CloseParen,
        Required::OpenBrace => token is OpenBrace,
        Required::CloseBrace => token is CloseBrace,
        Required::Return => token == TokenView::Keyword(Keyword::Return),
        Required::Semicolon => token is Semicolon,
    }
}

/// The number of tokens up to and with the required one, which must be the
/// next that is no whitespace.
pub open spec fn expect(tokens: Seq<TokenView>, pos: nat, required: Required) -> Result<
    nat,
    SyntaxError,
> {
    match peeked(tokens, pos) {
        None => Err(SyntaxError::UnexpectedEndOfInput),
        Some(token) => if meets(token, required) {
            Ok(blank_run(tokens, pos) + 1)
        } else {
            Err(SyntaxError::Expected(required))
        },
    }
}

/// The prefix operator that `token` spells, if any.
pub open spec fn unary_operator_of(token: TokenView) -> Option<UnaryOperator> {
    match token {
        TokenView::Minus => Some(UnaryOperator::Negation),
        TokenView::BitwiseComplementOperator => Some(UnaryOperator::BitwiseComplement),
        TokenView::LogicalNegationOperator => Some(UnaryOperator::LogicalNegation),
        _ => None,
    }
}

/// The infix operator that `token` spells at precedence level `level`, if any.
pub open spec fn operator_at(level: nat, token: TokenView) -> Option<BinaryOperator> {
    if level == 1 {
        match token {
            TokenView::Multiplication => Some(BinaryOperator::Multiplication),
            TokenView::Division => Some(BinaryOperator::Division),
            _ => None,
        }
    } else if level == 2 {
        match token {
            TokenView::Addition => Some(BinaryOperator::Addition),
            TokenView::Minus => Some(BinaryOperator::Subtraction),
            _ => None,
        }
    } else if level == 3 {
        match token {
            TokenView::LessThan => Some(BinaryOperator::LessThan),
            TokenView::LessThanOrEqual => Some(BinaryOperator::LessThanOrEqual),
            TokenView::GreaterThan => Some(BinaryOperator::GreaterThan),
            TokenView::GreaterThanOrEqual => Some(BinaryOperator::GreaterThanOrEqual),
            _ => None,
        }
    } else if level == 4 {
        match token {
            TokenView::Equal => Some(BinaryOperator::Equal),
            TokenView::NotEqual => Some(BinaryOperator::NotEqual),
            _ => None,
        }
    } else if level == 5 {
        match token {
            TokenView::LogicalAnd => Some(BinaryOperator::LogicalAnd),
            _ => None,
        }
    } else if level == 6 {
        match token {
            TokenView::LogicalOr => Some(BinaryOperator::LogicalOr),
            _ => None,
        }
    } else {
        None
    }
}

/// The infix operator of level `level` that continues a chain at `pos`, if any.
pub open spec fn peeked_operator(level: nat, tokens: Seq<TokenView>, pos: nat) -> Option<
    BinaryOperator,
> {
    match peeked(tokens, pos) {
        Some(token) => operator_at(level, token),
        None => None,
    }
}

/// How many tokens are left at `pos`.
pub open spec fn remaining(tokens: Seq<TokenView>, pos: nat) -> nat {
    if pos < tokens.len() {
        (tokens.len() - pos) as nat
    } else {
        0
    }
}

/// The operand of level `level` that starts at `pos`: for level 0 a factor,
/// for a higher level the chain of operands of the level below that the
/// operators of this level join, folded to the left.
pub open spec fn parse_level(level: nat, tokens: Seq<TokenView>, pos: nat) -> Parsed
    decreases remaining(tokens, pos), level, 1nat,
{
    if level == 0 {
        let skipped = blank_run(tokens, pos);
        match peeked(tokens, pos) {
            None => Err(SyntaxError::UnexpectedEndOfInput),
            Some(TokenView::OpenParen) => match parse_level(
                top_level(),
                tokens,
                pos + skipped + 1,
            ) {
                Err(error) => Err(error),
                Ok((tree, taken)) => match expect(
                    tokens,
                    pos + skipped + 1 + taken,
                    Required::CloseParen,
                ) {
                    Err(error) => Err(error),
                    Ok(more) => Ok((tree, skipped + 1 + taken + more)),
                },
            },
            Some(TokenView::IntegerLiteral(value)) => Ok((Tree::constant(value), skipped + 1)),
            Some(token) => match unary_operator_of(token) {
                None => Err(SyntaxError::InvalidFactor),
                Some(op) => match parse_level(0, tokens, pos + skipped + 1) {
                    Err(error) => Err(error),
                    Ok((operand, taken)) => Ok((Tree::unary(op, operand), skipped + 1 + taken)),
                },
            },
        }
    } else {
        match parse_level((level - 1) as nat, tokens, pos) {
            Err(error) => Err(error),
            Ok((first, taken)) => match parse_chain(level, tokens, pos + taken, first) {
                Err(error) => Err(error),
                Ok((tree, more)) => Ok((tree, taken + more)),
            },
        }
    }
}

/// The rest of a chain of level `level` whose operands so far have been
/// folded into `left`: while an operator of the level comes next, the
/// operand after it becomes the right child of a new node whose left child
/// is all that came before.
pub open spec fn parse_chain(level: nat, tokens: Seq<TokenView>, pos: nat, left: Tree) -> Parsed
    decreases remaining(tokens, pos), level, 0nat,
{
    let skipped = blank_run(tokens, pos);
    match peeked_operator(level, tokens, pos) {
        None => Ok((left, 0)),
        Some(op) => match parse_level((level - 1) as nat, tokens, pos + skipped + 1) {
            Err(error) => Err(error),
            Ok((right, taken)) => match parse_chain(
                level,
                tokens,
                pos + skipped + 1 + taken,
                Tree::binary(op, left, right),
            ) {
                Err(error) => Err(error),
                Ok((tree, more)) => Ok((tree, skipped + 1 + taken + more)),
            },
        },
    }
}

/// A prefix operator makes one node over the factor after it, and takes
/// that factor's tokens and its own: `- - 5` is a negation over a negation
/// over `5`.
pub proof fn lemma_prefix_operator(tokens: Seq<TokenView>, pos: nat, op: UnaryOperator)
    requires
        peeked(tokens, pos) matches Some(token) && unary_operator_of(token) == Some(op),
    ensures
        parse_level(0, tokens, pos) == (match parse_level(
            0,
            tokens,
            pos + blank_run(tokens, pos) + 1,
        ) {
            Ok((operand, taken)) => Ok(
                (Tree::unary(op, operand), blank_run(tokens, pos) + 1 + taken),
            ),
            Err(error) => Err(error),
        }),
{
}

/// The expression that starts at `pos`.
pub open spec fn parse_expression(tokens: Seq<TokenView>, pos: nat) -> Parsed {
    parse_level(top_level(), tokens, pos)
}

/// The statement that starts at `pos`: `return`, at least one whitespace
/// token, an expression and a semicolon.
pub open spec fn parse_statement(tokens: Seq<TokenView>, pos: nat) -> Parsed {
    match expect(tokens, pos, Required::Return) {
        Err(error) => Err(error),
        Ok(keyword) => if !(pos + keyword < tokens.len() && tokens[(pos + keyword) as int].is_blank()) {
            Err(SyntaxError::MissingWhitespace)
        } else {
            match parse_expression(tokens, pos + keyword) {
                Err(error) => Err(error),
                Ok((expression, taken)) => match expect(
                    tokens,
                    pos + keyword + taken,
                    Required::Semicolon,
                ) {
                    Err(error) => Err(error),
                    Ok(semicolon) => Ok(
                        (Tree::return_statement(expression), keyword + taken + semicolon),
                    ),
                },
            }
        },
    }
}

/// The name of the identifier that `expect` found at the end of `taken` tokens from `pos`.
pub open spec fn identifier_name(tokens: Seq<TokenView>, pos: nat, taken: nat) -> Seq<char> {
    match tokens[pos + taken - 1] {
        TokenView::Identifier(name) => name,
        _ => Seq::empty(),
    }
}

/// The number of tokens that the head of a function takes, up to and with
/// its opening brace: `int`, a name, `(`, `)` and `{`.
pub open spec fn parse_function_head(tokens: Seq<TokenView>, pos: nat) -> Result<
    (Seq<char>, nat),
    SyntaxError,
> {
    match expect(tokens, pos, Required::Int) {
        Err(error) => Err(error),
        Ok(a) => match expect(tokens, pos + a, Required::Identifier) {
            Err(error) => Err(error),
            Ok(b) => match expect(tokens, pos + a + b, Required::OpenParen) {
                Err(error) => Err(error),
                Ok(c) => match expect(tokens, pos + a + b + c, Required::CloseParen) {
                    Err(error) => Err(error),
                    Ok(d) => match expect(tokens, pos + a + b + c + d, Required::OpenBrace) {
                        Err(error) => Err(error),
                        Ok(e) => Ok((identifier_name(tokens, pos + a, b), a + b + c + d + e)),
                    },
                },
            },
        }
    }
}

/// The function that starts at `pos`: its head, one statement and the
/// closing brace.
pub open spec fn parse_function(tokens: Seq<TokenView>, pos: nat) -> Parsed {
    match parse_function_head(tokens, pos) {
        Err(error) => Err(error),
        Ok((name, head)) => match parse_statement(tokens, pos + head) {
            Err(error) => Err(error),
            Ok((statement, taken)) => match expect(
                tokens,
                pos + head + taken,
                Required::CloseBrace,
            ) {
                Err(error) => Err(error),
                Ok(brace) => Ok((Tree::function(name, statement), head + taken + brace)),
            },
        },
    }
}

/// The program that starts at `pos`: one function.
pub open spec fn parse_program(tokens: Seq<TokenView>, pos: nat) -> Parsed {
    match parse_function(tokens, pos) {
        Err(error) => Err(error),
        Ok((function, taken)) => Ok((Tree::program(function), taken)),
    }
}

/// Whether only whitespace is left at `pos`.
pub open spec fn ends_at(tokens: Seq<TokenView>, pos: nat) -> bool {
    pos + blank_run(tokens, pos) == tokens.len()
}

/// The program that the tokens spell: the whole sequence must be one
/// function, with nothing but whitespace after it.
pub open spec fn parsed(tokens: Seq<TokenView>) -> Result<Tree, SyntaxError> {
    match parse_program(tokens, 0) {
        Err(error) => Err(error),
        Ok((program, taken)) => if ends_at(tokens, taken) {
            Ok(program)
        } else {
            Err(SyntaxError::TrailingToken)
        },
    }
}

/// What `parsed` says when `before` tokens were taken ahead of it.
pub open spec fn advance(parsed: Parsed, before: nat) -> Parsed {
    match parsed {
        Err(error) => Err(error),
        Ok((tree, taken)) => Ok((tree, before + taken)),
    }
}

} // verus!
