//! The parser: a recursive descent over the tokens, one function per rule of
//! the grammar. Each binary level folds its chain of operands to the left in
//! a loop.

use vstd::prelude::*;
use crate::associativity::{is_left_fold, lemma_level_is_left_associative};
use crate::ast::{BinaryOperator, StatementType, Symbol, Tree, UnaryOperator, AST};
use crate::grammar::{
    advance, blank_run, ends_at, expect, identifier_name, meets, parse_chain, parse_function,
    parse_function_head, parse_level, parse_program, parse_statement, parsed, peeked, remaining,
    Parsed, Required, SyntaxError,
};
use crate::token::{token_views, Keyword, Token, TokenView};

verus! {

/// A parser over one token sequence. It reads each token at most once, from
/// left to right.
pub struct Parser {
    tokens: Vec<Token>,
    pos: usize,
}

/// What a parsing function owes: on success the tree that the grammar gives
/// at the position where it started, with the parser moved past the tokens
/// of that tree; on failure the grammar's error.
pub open spec fn fulfils(
    expected: Parsed,
    result: Result<AST, SyntaxError>,
    before: nat,
    after: nat,
) -> bool {
    match expected {
        Ok((tree, taken)) => result is Ok && result->Ok_0@ == tree && after == before + taken,
        Err(error) => result == Err::<AST, SyntaxError>(error),
    }
}

impl Parser {
    #[verifier::type_invariant]
    spec fn well_formed(self) -> bool {
        self.pos <= self.tokens.len()
    }

    /// The tokens that this parser reads.
    pub closed spec fn input(self) -> Seq<TokenView> {
        token_views(self.tokens@)
    }

    /// How many tokens this parser has taken.
    pub closed spec fn position(self) -> nat {
        self.pos as nat
    }

    /// A parser at the start of `tokens`.
    pub fn new(tokens: Vec<Token>) -> (parser: Parser)
        ensures
            parser.input() == token_views(tokens@),
            parser.position() == 0,
    {
        Parser { tokens, pos: 0 }
    }

    /// The index of the next token that is no whitespace, or the number of
    /// tokens if there is none.
    fn significant(&self) -> (at: usize)
        ensures
            at == self.position() + blank_run(self.input(), self.position()),
            at <= self.input().len(),
            at < self.input().len() ==> !self.input()[at as int].is_blank(),
            self.input().len() == self.tokens.len(),
            at < self.input().len() ==> self.input()[at as int] == self.tokens[at as int]@,
    {
        proof {
            use_type_invariant(self);
        }
        let ghost tokens = self.input();
        let mut at = self.pos;
        while at < self.tokens.len() && self.tokens[at].is_blank()
            invariant
                self.pos <= at <= self.tokens.len(),
                tokens == token_views(self.tokens@),
                blank_run(tokens, self.pos as nat) == (at - self.pos) + blank_run(tokens, at as nat),
            decreases self.tokens.len() - at,
        {
            at += 1;
        }
        at
    }

    /// Whether only whitespace is left to read.
    pub fn at_end(&self) -> (result: bool)
        ensures
            result == ends_at(self.input(), self.position()),
    {
        let at = self.significant();
        at >= self.tokens.len()
    }

    /// Takes the next token that is no whitespace, and the whitespace before it.
    pub fn next_token(&mut self) -> (result: Result<Token, SyntaxError>)
        ensures
            final(self).input() == old(self).input(),
            match peeked(old(self).input(), old(self).position()) {
                Some(token) => result is Ok && result->Ok_0@ == token && final(self).position()
                    == old(self).position() + blank_run(old(self).input(), old(self).position())
                    + 1,
                None => result == Err::<Token, SyntaxError>(SyntaxError::UnexpectedEndOfInput)
                    && final(self).position() == old(self).position(),
            },
    {
        let at = self.significant();
        if at >= self.tokens.len() {
            return Err(SyntaxError::UnexpectedEndOfInput);
        }
        let token = self.tokens[at].duplicate();
        self.pos = at + 1;
        Ok(token)
    }

    /// The next token that is no whitespace. Nothing is taken.
    pub fn peek(&self) -> (result: Option<&Token>)
        ensures
            match peeked(self.input(), self.position()) {
                Some(token) => result is Some && result->0@ == token,
                None => result is None,
            },
    {
        let at = self.significant();
        if at >= self.tokens.len() {
            None
        } else {
            Some(&self.tokens[at])
        }
    }

    /// Whether the very next token is whitespace.
    pub fn next_is_space(&self) -> (result: bool)
        ensures
            result == (self.position() < self.input().len() && self.input()[self.position() as int].is_blank()),
    {
        proof {
            use_type_invariant(self);
        }
        if self.pos < self.tokens.len() {
            self.tokens[self.pos].is_blank()
        } else {
            false
        }
    }

    /// Takes the next token that is no whitespace, which must be what `required` asks for.
    fn require(&mut self, required: Required) -> (result: Result<Token, SyntaxError>)
        ensures
            final(self).input() == old(self).input(),
            match expect(old(self).input(), old(self).position(), required) {
                Ok(taken) => result is Ok && final(self).position() == old(self).position() + taken
                    && result->Ok_0@ == old(self).input()[old(self).position() + taken - 1]
                    && meets(result->Ok_0@, required),
                Err(error) => result == Err::<Token, SyntaxError>(error),
            },
    {
        let token = match self.next_token() {
            Ok(token) => token,
            Err(error) => {
                return Err(error);
            },
        };
        let found = match required {
            Required::Int => match &token {
                Token::Keyword(Keyword::Int) => true,
                _ => false,
            },
            Required::Identifier => match &token {
                Token::Identifier(_) => true,
                _ => false,
            },
            Required::OpenParen => match &token {
                Token::OpenParen => true,
                _ => false,
            },
            Required::CloseParen => match &token {
                Token::CloseParen => true,
                _ => false,
            },
            Required::OpenBrace => match &token {
                Token::OpenBrace => true,
                _ => false,
            },
            Required::CloseBrace => match &token {
                Token::CloseBrace => true,
                _ => false,
            },
            Required::Return => match &token {
                Token::Keyword(Keyword::Return) => true,
                _ => false,
            },
            Required::Semicolon => match &token {
                Token::Semicolon => true,
                _ => false,
            },
        };
        if found {
            Ok(token)
        } else {
            Err(SyntaxError::Expected(required))
        }
    }

    /// Parses a factor: an expression in parentheses, a prefix operator
    /// before a factor, or an integer literal.
    pub fn parse_factor(&mut self) -> (result: Result<AST, SyntaxError>)
        ensures
            final(self).input() == old(self).input(),
            fulfils(
                parse_level(0, old(self).input(), old(self).position()),
                result,
                old(self).position(),
                final(self).position(),
            ),
        decreases remaining(old(self).input(), old(self).position()), 0nat, 1nat,
    {
        let token = match self.next_token() {
            Ok(token) => token,
            Err(error) => {
                return Err(error);
            },
        };
        match token {
            Token::OpenParen => {
                let expression = match self.parse_expression() {
                    Ok(expression) => expression,
                    Err(error) => {
                        return Err(error);
                    },
                };
                match self.require(Required::CloseParen) {
                    Ok(_) => Ok(expression),
                    Err(error) => Err(error),
                }
            },
            Token::Minus | Token::BitwiseComplementOperator | Token::LogicalNegationOperator => {
                let unary_operation = match &token {
                    Token::Minus => UnaryOperator::Negation,
                    Token::BitwiseComplementOperator => UnaryOperator::BitwiseComplement,
                    _ => UnaryOperator::LogicalNegation,
                };
                let factor = match self.parse_factor() {
                    Ok(factor) => factor,
                    Err(error) => {
                        return Err(error);
                    },
                };
                Ok(AST::with_child(Symbol::UnaryOperator(unary_operation), factor))
            },
            Token::IntegerLiteral(value) => Ok(AST::leaf(Symbol::Constant(value))),
            _ => Err(SyntaxError::InvalidFactor),
        }
    }

    /// Parses a term: factors joined by `*` and `/`.
    pub fn parse_term(&mut self) -> (result: Result<AST, SyntaxError>)
        ensures
            final(self).input() == old(self).input(),
            fulfils(
                parse_level(1, old(self).input(), old(self).position()),
                result,
                old(self).position(),
                final(self).position(),
            ),
            result matches Ok(node) ==> is_left_fold(
                1,
                old(self).input(),
                old(self).position(),
                node@,
            ),
        decreases remaining(old(self).input(), old(self).position()), 1nat, 1nat,
    {
        let ghost tokens = self.input();
        let ghost start = self.position();
        proof {
            lemma_level_is_left_associative(1, tokens, start);
        }
        let mut left = match self.parse_factor() {
            Ok(factor) => factor,
            Err(error) => {
                return Err(error);
            },
        };
        loop
            invariant
                tokens == old(self).input(),
                start == old(self).position(),
                self.input() == tokens,
                start <= self.position(),
                parse_level(1, tokens, start) == advance(
                    parse_chain(1, tokens, self.position(), left@),
                    (self.position() - start) as nat,
                ),
            ensures
                self.input() == tokens,
                start <= self.position(),
                parse_level(1, tokens, start) == Ok::<(Tree, nat), SyntaxError>(
                    (left@, (self.position() - start) as nat),
                ),
            decreases remaining(tokens, self.position()),
        {
            let next = match self.peek() {
                Some(Token::Multiplication) => Some(BinaryOperator::Multiplication),
                Some(Token::Division) => Some(BinaryOperator::Division),
                _ => None,
            };
            let op = match next {
                Some(op) => op,
                None => {
                    break ;
                },
            };
            let _ = self.next_token();
            let right = match self.parse_factor() {
                Ok(factor) => factor,
                Err(error) => {
                    return Err(error);
                },
            };
            left = AST::with_children(Symbol::BinaryOperator(op), left, right);
        }
        Ok(left)
    }

    /// Parses an additive expression: terms joined by `+` and `-`.
    pub fn parse_additive_expression(&mut self) -> (result: Result<AST, SyntaxError>)
        ensures
            final(self).input() == old(self).input(),
            fulfils(
                parse_level(2, old(self).input(), old(self).position()),
                result,
                old(self).position(),
                final(self).position(),
            ),
            result matches Ok(node) ==> is_left_fold(
                2,
                old(self).input(),
                old(self).position(),
                node@,
            ),
        decreases remaining(old(self).input(), old(self).position()), 2nat, 1nat,
    {
        let ghost tokens = self.input();
        let ghost start = self.position();
        proof {
            lemma_level_is_left_associative(2, tokens, start);
        }
        let mut left = match self.parse_term() {
            Ok(term) => term,
            Err(error) => {
                return Err(error);
            },
        };
        loop
            invariant
                tokens == old(self).input(),
                start == old(self).position(),
                self.input() == tokens,
                start <= self.position(),
                parse_level(2, tokens, start) == advance(
                    parse_chain(2, tokens, self.position(), left@),
                    (self.position() - start) as nat,
                ),
            ensures
                self.input() == tokens,
                start <= self.position(),
                parse_level(2, tokens, start) == Ok::<(Tree, nat), SyntaxError>(
                    (left@, (self.position() - start) as nat),
                ),
            decreases remaining(tokens, self.position()),
        {
            let next = match self.peek() {
                Some(Token::Addition) => Some(BinaryOperator::Addition),
                Some(Token::Minus) => Some(BinaryOperator::Subtraction),
                _ => None,
            };
            let op = match next {
                Some(op) => op,
                None => {
                    break ;
                },
            };
            let _ = self.next_token();
            let right = match self.parse_term() {
                Ok(term) => term,
                Err(error) => {
                    return Err(error);
                },
            };
            left = AST::with_children(Symbol::BinaryOperator(op), left, right);
        }
        Ok(left)
    }

    /// Parses a relational expression: additive expressions joined by `<`,
    /// `<=`, `>` and `>=`.
    pub fn parse_relational_expression(&mut self) -> (result: Result<AST, SyntaxError>)
        ensures
            final(self).input() == old(self).input(),
            fulfils(
                parse_level(3, old(self).input(), old(self).position()),
                result,
                old(self).position(),
                final(self).position(),
            ),
            result matches Ok(node) ==> is_left_fold(
                3,
                old(self).input(),
                old(self).position(),
                node@,
            ),
        decreases remaining(old(self).input(), old(self).position()), 3nat, 1nat,
    {
        let ghost tokens = self.input();
        let ghost start = self.position();
        proof {
            lemma_level_is_left_associative(3, tokens, start);
        }
        let mut left = match self.parse_additive_expression() {
            Ok(additive) => additive,
            Err(error) => {
                return Err(error);
            },
        };
        loop
            invariant
                tokens == old(self).input(),
                start == old(self).position(),
                self.input() == tokens,
                start <= self.position(),
                parse_level(3, tokens, start) == advance(
                    parse_chain(3, tokens, self.position(), left@),
                    (self.position() - start) as nat,
                ),
            ensures
                self.input() == tokens,
                start <= self.position(),
                parse_level(3, tokens, start) == Ok::<(Tree, nat), SyntaxError>(
                    (left@, (self.position() - start) as nat),
                ),
            decreases remaining(tokens, self.position()),
        {
            let next = match self.peek() {
                Some(Token::LessThan) => Some(BinaryOperator::LessThan),
                Some(Token::LessThanOrEqual) => Some(BinaryOperator::LessThanOrEqual),
                Some(Token::GreaterThan) => Some(BinaryOperator::GreaterThan),
                Some(Token::GreaterThanOrEqual) => Some(BinaryOperator::GreaterThanOrEqual),
                _ => None,
            };
            let op = match next {
                Some(op) => op,
                None => {
                    break ;
                },
            };
            let _ = self.next_token();
            let right = match self.parse_additive_expression() {
                Ok(additive) => additive,
                Err(error) => {
                    return Err(error);
                },
            };
            left = AST::with_children(Symbol::BinaryOperator(op), left, right);
        }
        Ok(left)
    }

    /// Parses an equality expression: relational expressions joined by `==`
    /// and `!=`.
    pub fn parse_equality_expression(&mut self) -> (result: Result<AST, SyntaxError>)
        ensures
            final(self).input() == old(self).input(),
            fulfils(
                parse_level(4, old(self).input(), old(self).position()),
                result,
                old(self).position(),
                final(self).position(),
            ),
            result matches Ok(node) ==> is_left_fold(
                4,
                old(self).input(),
                old(self).position(),
                node@,
            ),
        decreases remaining(old(self).input(), old(self).position()), 4nat, 1nat,
    {
        let ghost tokens = self.input();
        let ghost start = self.position();
        proof {
            lemma_level_is_left_associative(4, tokens, start);
        }
        let mut left = match self.parse_relational_expression() {
            Ok(relational) => relational,
            Err(error) => {
                return Err(error);
            },
        };
        loop
            invariant
                tokens == old(self).input(),
                start == old(self).position(),
                self.input() == tokens,
                start <= self.position(),
                parse_level(4, tokens, start) == advance(
                    parse_chain(4, tokens, self.position(), left@),
                    (self.position() - start) as nat,
                ),
            ensures
                self.input() == tokens,
                start <= self.position(),
                parse_level(4, tokens, start) == Ok::<(Tree, nat), SyntaxError>(
                    (left@, (self.position() - start) as nat),
                ),
            decreases remaining(tokens, self.position()),
        {
            let next = match self.peek() {
                Some(Token::Equal) => Some(BinaryOperator::Equal),
                Some(Token::NotEqual) => Some(BinaryOperator::NotEqual),
                _ => None,
            };
            let op = match next {
                Some(op) => op,
                None => {
                    break ;
                },
            };
            let _ = self.next_token();
            let right = match self.parse_relational_expression() {
                Ok(relational) => relational,
                Err(error) => {
                    return Err(error);
                },
            };
            left = AST::with_children(Symbol::BinaryOperator(op), left, right);
        }
        Ok(left)
    }

    /// Parses a logical-and expression: equality expressions joined by `&&`.
    pub fn parse_logical_and_expression(&mut self) -> (result: Result<AST, SyntaxError>)
        ensures
            final(self).input() == old(self).input(),
            fulfils(
                parse_level(5, old(self).input(), old(self).position()),
                result,
                old(self).position(),
                final(self).position(),
            ),
            result matches Ok(node) ==> is_left_fold(
                5,
                old(self).input(),
                old(self).position(),
                node@,
            ),
        decreases remaining(old(self).input(), old(self).position()), 5nat, 1nat,
    {
        let ghost tokens = self.input();
        let ghost start = self.position();
        proof {
            lemma_level_is_left_associative(5, tokens, start);
        }
        let mut left = match self.parse_equality_expression() {
            Ok(equality) => equality,
            Err(error) => {
                return Err(error);
            },
        };
        loop
            invariant
                tokens == old(self).input(),
                start == old(self).position(),
                self.input() == tokens,
                start <= self.position(),
                parse_level(5, tokens, start) == advance(
                    parse_chain(5, tokens, self.position(), left@),
                    (self.position() - start) as nat,
                ),
            ensures
                self.input() == tokens,
                start <= self.position(),
                parse_level(5, tokens, start) == Ok::<(Tree, nat), SyntaxError>(
                    (left@, (self.position() - start) as nat),
                ),
            decreases remaining(tokens, self.position()),
        {
            let next = match self.peek() {
                Some(Token::LogicalAnd) => Some(BinaryOperator::LogicalAnd),
                _ => None,
            };
            let op = match next {
                Some(op) => op,
                None => {
                    break ;
                },
            };
            let _ = self.next_token();
            let right = match self.parse_equality_expression() {
                Ok(equality) => equality,
                Err(error) => {
                    return Err(error);
                },
            };
            left = AST::with_children(Symbol::BinaryOperator(op), left, right);
        }
        Ok(left)
    }

    /// Parses an expression: logical-and expressions joined by `||`.
    pub fn parse_expression(&mut self) -> (result: Result<AST, SyntaxError>)
        ensures
            final(self).input() == old(self).input(),
            fulfils(
                parse_level(6, old(self).input(), old(self).position()),
                result,
                old(self).position(),
                final(self).position(),
            ),
            result matches Ok(node) ==> is_left_fold(
                6,
                old(self).input(),
                old(self).position(),
                node@,
            ),
        decreases remaining(old(self).input(), old(self).position()), 6nat, 1nat,
    {
        let ghost tokens = self.input();
        let ghost start = self.position();
        proof {
            lemma_level_is_left_associative(6, tokens, start);
        }
        let mut left = match self.parse_logical_and_expression() {
            Ok(logical_and) => logical_and,
            Err(error) => {
                return Err(error);
            },
        };
        loop
            invariant
                tokens == old(self).input(),
                start == old(self).position(),
                self.input() == tokens,
                start <= self.position(),
                parse_level(6, tokens, start) == advance(
                    parse_chain(6, tokens, self.position(), left@),
                    (self.position() - start) as nat,
                ),
            ensures
                self.input() == tokens,
                start <= self.position(),
                parse_level(6, tokens, start) == Ok::<(Tree, nat), SyntaxError>(
                    (left@, (self.position() - start) as nat),
                ),
            decreases remaining(tokens, self.position()),
        {
            let next = match self.peek() {
                Some(Token::LogicalOr) => Some(BinaryOperator::LogicalOr),
                _ => None,
            };
            let op = match next {
                Some(op) => op,
                None => {
                    break ;
                },
            };
            let _ = self.next_token();
            let right = match self.parse_logical_and_expression() {
                Ok(logical_and) => logical_and,
                Err(error) => {
                    return Err(error);
                },
            };
            left = AST::with_children(Symbol::BinaryOperator(op), left, right);
        }
        Ok(left)
    }

    /// Parses a statement: `return`, whitespace, an expression and `;`.
    pub fn parse_statement(&mut self) -> (result: Result<AST, SyntaxError>)
        ensures
            final(self).input() == old(self).input(),
            fulfils(
                parse_statement(old(self).input(), old(self).position()),
                result,
                old(self).position(),
                final(self).position(),
            ),
    {
        match self.require(Required::Return) {
            Ok(_) => {},
            Err(error) => {
                return Err(error);
            },
        }
        if !self.next_is_space() {
            return Err(SyntaxError::MissingWhitespace);
        }
        let expression = match self.parse_expression() {
            Ok(expression) => expression,
            Err(error) => {
                return Err(error);
            },
        };
        match self.require(Required::Semicolon) {
            Ok(_) => {},
            Err(error) => {
                return Err(error);
            },
        }
        Ok(AST::with_child(Symbol::Statement(StatementType::Return), expression))
    }

    /// Takes the name of a function: the identifier that comes next.
    fn parse_name(&mut self) -> (result: Result<String, SyntaxError>)
        ensures
            final(self).input() == old(self).input(),
            match expect(old(self).input(), old(self).position(), Required::Identifier) {
                Ok(taken) => result is Ok && final(self).position() == old(self).position() + taken
                    && result->Ok_0@ == identifier_name(
                    old(self).input(),
                    old(self).position(),
                    taken,
                ),
                Err(error) => result == Err::<String, SyntaxError>(error),
            },
    {
        match self.require(Required::Identifier) {
            Ok(Token::Identifier(value)) => Ok(value),
            Ok(_) => Err(SyntaxError::Expected(Required::Identifier)),
            Err(error) => Err(error),
        }
    }

    /// Parses the head of a function, up to and with its opening brace:
    /// `int`, a name, `(`, `)` and `{`. Gives the name.
    fn parse_function_head(&mut self) -> (result: Result<String, SyntaxError>)
        ensures
            final(self).input() == old(self).input(),
            match parse_function_head(old(self).input(), old(self).position()) {
                Ok((name, taken)) => result is Ok && result->Ok_0@ == name && final(self).position()
                    == old(self).position() + taken,
                Err(error) => result == Err::<String, SyntaxError>(error),
            },
    {
        match self.require(Required::Int) {
            Ok(_) => {},
            Err(error) => {
                return Err(error);
            },
        }
        let function_name = match self.parse_name() {
            Ok(name) => name,
            Err(error) => {
                return Err(error);
            },
        };
        match self.require(Required::OpenParen) {
            Ok(_) => {},
            Err(error) => {
                return Err(error);
            },
        }
        match self.require(Required::CloseParen) {
            Ok(_) => {},
            Err(error) => {
                return Err(error);
            },
        }
        match self.require(Required::OpenBrace) {
            Ok(_) => {},
            Err(error) => {
                return Err(error);
            },
        }
        Ok(function_name)
    }

    /// Parses a function: `int`, a name, `(`, `)`, `{`, a statement and `}`.
    pub fn parse_function(&mut self) -> (result: Result<AST, SyntaxError>)
        ensures
            final(self).input() == old(self).input(),
            fulfils(
                parse_function(old(self).input(), old(self).position()),
                result,
                old(self).position(),
                final(self).position(),
            ),
    {
        let function_name = match self.parse_function_head() {
            Ok(name) => name,
            Err(error) => {
                return Err(error);
            },
        };
        let statement = match self.parse_statement() {
            Ok(statement) => statement,
            Err(error) => {
                return Err(error);
            },
        };
        match self.require(Required::CloseBrace) {
            Ok(_) => {},
            Err(error) => {
                return Err(error);
            },
        }
        Ok(AST::with_child(Symbol::Function(function_name), statement))
    }

    /// Parses a program: one function.
    pub fn parse_program(&mut self) -> (result: Result<AST, SyntaxError>)
        ensures
            final(self).input() == old(self).input(),
            fulfils(
                parse_program(old(self).input(), old(self).position()),
                result,
                old(self).position(),
                final(self).position(),
            ),
    {
        let function = match self.parse_function() {
            Ok(function) => function,
            Err(error) => {
                return Err(error);
            },
        };
        Ok(AST::with_child(Symbol::Program, function))
    }

    /// Parses the program that starts at this parser's position, and moves
    /// past it. Fails with the first violation of the grammar.
    pub fn parse(&mut self) -> (result: Result<AST, SyntaxError>)
        ensures
            final(self).input() == old(self).input(),
            fulfils(
                parse_program(old(self).input(), old(self).position()),
                result,
                old(self).position(),
                final(self).position(),
            ),
    {
        self.parse_program()
    }
}

/// Parses a token sequence into the tree of its program: the whole sequence
/// must be one function, with nothing but whitespace after it. Fails with
/// the first violation of the grammar; then there is no tree.
pub fn parse(tokens: Vec<Token>) -> (result: Result<AST, SyntaxError>)
    ensures
        match parsed(token_views(tokens@)) {
            Ok(tree) => result is Ok && result->Ok_0@ == tree,
            Err(error) => result == Err::<AST, SyntaxError>(error),
        },
{
    let mut parser = Parser::new(tokens);
    let program = match parser.parse() {
        Ok(program) => program,
        Err(error) => {
            return Err(error);
        },
    };
    if parser.at_end() {
        Ok(program)
    } else {
        Err(SyntaxError::TrailingToken)
    }
}

} // verus!
