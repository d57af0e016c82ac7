//! Every tree that the grammar gives is well-formed, and stays within the
//! tokens that it was read from.

use vstd::prelude::*;
use crate::ast::Tree;
use crate::grammar::{
    blank_run, expect, parse_chain, parse_function, parse_function_head, parse_level,
    parse_statement, parsed, peeked, peeked_operator, remaining, top_level, unary_operator_of,
    Required,
};
use crate::token::TokenView;

verus! {

/// The whitespace at `pos` ends within the tokens.
pub proof fn lemma_blank_run_bounded(tokens: Seq<TokenView>, pos: nat)
    requires
        pos <= tokens.len(),
    ensures
        pos + blank_run(tokens, pos) <= tokens.len(),
        pos + blank_run(tokens, pos) < tokens.len() ==> !tokens[(pos + blank_run(
            tokens,
            pos,
        )) as int].is_blank(),
    decreases tokens.len() - pos,
{
    if pos < tokens.len() && tokens[pos as int].is_blank() {
        lemma_blank_run_bounded(tokens, pos + 1);
    }
}

/// A required token, where it is found, ends within the tokens.
pub proof fn lemma_expect_bounded(tokens: Seq<TokenView>, pos: nat, required: Required)
    requires
        pos <= tokens.len(),
    ensures
        expect(tokens, pos, required) matches Ok(taken) ==> 1 <= taken && pos + taken
            <= tokens.len() && !tokens[pos + taken - 1].is_blank(),
{
    lemma_blank_run_bounded(tokens, pos);
}

/// An operand of any level, where the grammar gives one, is an expression,
/// takes at least one token and ends within the tokens, just after a token
/// that is no whitespace: the whitespace and the token that the lookahead
/// saw past its end are not taken.
pub proof fn lemma_parse_level_expression(level: nat, tokens: Seq<TokenView>, pos: nat)
    requires
        pos <= tokens.len(),
    ensures
        parse_level(level, tokens, pos) matches Ok((tree, taken)) ==> tree.is_expression() && 1
            <= taken && pos + taken <= tokens.len() && !tokens[pos + taken - 1].is_blank(),
    decreases remaining(tokens, pos), level, 1nat,
{
    lemma_blank_run_bounded(tokens, pos);
    let skipped = blank_run(tokens, pos);
    if level == 0 {
        match peeked(tokens, pos) {
            None => {},
            Some(TokenView::OpenParen) => {
                lemma_parse_level_expression(top_level(), tokens, pos + skipped + 1);
                if let Ok((tree, taken)) = parse_level(top_level(), tokens, pos + skipped + 1) {
                    lemma_expect_bounded(tokens, pos + skipped + 1 + taken, Required::CloseParen);
                }
            },
            Some(TokenView::IntegerLiteral(value)) => {},
            Some(token) => {
                if unary_operator_of(token) is Some {
                    lemma_parse_level_expression(0, tokens, pos + skipped + 1);
                }
            },
        }
    } else {
        lemma_parse_level_expression((level - 1) as nat, tokens, pos);
        if let Ok((first, taken)) = parse_level((level - 1) as nat, tokens, pos) {
            lemma_parse_chain_expression(level, tokens, pos + taken, first);
        }
    }
}

/// The rest of a chain over an expression, where the grammar gives one, is
/// an expression and ends within the tokens; it takes nothing, or ends just
/// after a token that is no whitespace.
pub proof fn lemma_parse_chain_expression(
    level: nat,
    tokens: Seq<TokenView>,
    pos: nat,
    left: Tree,
)
    requires
        pos <= tokens.len(),
        left.is_expression(),
    ensures
        parse_chain(level, tokens, pos, left) matches Ok((tree, taken)) ==> tree.is_expression()
            && pos + taken <= tokens.len() && (taken > 0 ==> !tokens[pos + taken - 1].is_blank()),
    decreases remaining(tokens, pos), level, 0nat,
{
    lemma_blank_run_bounded(tokens, pos);
    let skipped = blank_run(tokens, pos);
    match peeked_operator(level, tokens, pos) {
        None => {},
        Some(op) => {
            lemma_parse_level_expression((level - 1) as nat, tokens, pos + skipped + 1);
            if let Ok((right, taken)) = parse_level(
                (level - 1) as nat,
                tokens,
                pos + skipped + 1,
            ) {
                lemma_parse_chain_expression(
                    level,
                    tokens,
                    pos + skipped + 1 + taken,
                    Tree::binary(op, left, right),
                );
            }
        },
    }
}

/// A statement, where the grammar gives one, is a `return` over one
/// expression and ends within the tokens.
pub proof fn lemma_parse_statement_shape(tokens: Seq<TokenView>, pos: nat)
    requires
        pos <= tokens.len(),
    ensures
        parse_statement(tokens, pos) matches Ok((tree, taken)) ==> tree.is_statement() && pos
            + taken <= tokens.len(),
{
    lemma_expect_bounded(tokens, pos, Required::Return);
    if let Ok(keyword) = expect(tokens, pos, Required::Return) {
        lemma_parse_level_expression(top_level(), tokens, pos + keyword);
        if let Ok((expression, taken)) = parse_level(top_level(), tokens, pos + keyword) {
            lemma_expect_bounded(tokens, pos + keyword + taken, Required::Semicolon);
        }
    }
}

/// The head of a function, where the grammar gives one, ends within the tokens.
pub proof fn lemma_parse_function_head_bounded(tokens: Seq<TokenView>, pos: nat)
    requires
        pos <= tokens.len(),
    ensures
        parse_function_head(tokens, pos) matches Ok((name, taken)) ==> pos + taken
            <= tokens.len(),
{
    lemma_expect_bounded(tokens, pos, Required::Int);
    if let Ok(a) = expect(tokens, pos, Required::Int) {
        lemma_expect_bounded(tokens, pos + a, Required::Identifier);
        if let Ok(b) = expect(tokens, pos + a, Required::Identifier) {
            lemma_expect_bounded(tokens, pos + a + b, Required::OpenParen);
            if let Ok(c) = expect(tokens, pos + a + b, Required::OpenParen) {
                lemma_expect_bounded(tokens, pos + a + b + c, Required::CloseParen);
                if let Ok(d) = expect(tokens, pos + a + b + c, Required::CloseParen) {
                    lemma_expect_bounded(tokens, pos + a + b + c + d, Required::OpenBrace);
                }
            }
        }
    }
}

/// A function, where the grammar gives one, holds one statement.
pub proof fn lemma_parse_function_shape(tokens: Seq<TokenView>, pos: nat)
    requires
        pos <= tokens.len(),
    ensures
        parse_function(tokens, pos) matches Ok((tree, taken)) ==> tree.is_function() && pos
            + taken <= tokens.len(),
{
    lemma_parse_function_head_bounded(tokens, pos);
    if let Ok((name, head)) = parse_function_head(tokens, pos) {
        lemma_parse_statement_shape(tokens, pos + head);
        if let Ok((statement, taken)) = parse_statement(tokens, pos + head) {
            lemma_expect_bounded(tokens, pos + head + taken, Required::CloseBrace);
        }
    }
}

/// Every tree that parsing gives is a well-formed program: one function,
/// which holds one `return` statement, which holds one expression.
pub proof fn lemma_parsed_is_program(tokens: Seq<TokenView>)
    ensures
        parsed(tokens) matches Ok(tree) ==> tree.is_program(),
{
    lemma_parse_function_shape(tokens, 0);
}

} // verus!
