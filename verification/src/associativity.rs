//! Every binary level of the grammar is left-associative: a chain of
//! operands that the operators of one level join is folded to the left,
//! however long it is.

use vstd::prelude::*;
use crate::ast::{BinaryOperator, Tree};
use crate::grammar::{blank_run, parse_chain, parse_level, peeked_operator, remaining};
use crate::token::TokenView;

verus! {

/// One link of a chain: an operator and the operand after it.
pub type Link = (BinaryOperator, Tree);

/// The left fold of a chain: each link makes a node whose left child is all
/// that came before it and whose right child is the link's operand. With two
/// links `(op1, b)` and `(op2, c)` after `a` this is `(a op1 b) op2 c`.
pub open spec fn fold_left(first: Tree, links: Seq<Link>) -> Tree
    decreases links.len(),
{
    if links.len() == 0 {
        first
    } else {
        Tree::binary(links.last().0, fold_left(first, links.drop_last()), links.last().1)
    }
}

/// The links of the chain of level `level` that goes on at `pos`: as long
/// as an operator of the level comes next and an operand of the level below
/// follows it, the two make a link.
pub open spec fn chain_links(level: nat, tokens: Seq<TokenView>, pos: nat) -> Seq<Link>
    decreases remaining(tokens, pos),
{
    let skipped = blank_run(tokens, pos);
    match peeked_operator(level, tokens, pos) {
        None => Seq::empty(),
        Some(op) => match parse_level((level - 1) as nat, tokens, pos + skipped + 1) {
            Err(_) => Seq::empty(),
            Ok((right, taken)) => seq![(op, right)] + chain_links(
                level,
                tokens,
                pos + skipped + 1 + taken,
            ),
        },
    }
}

/// Whether `tree` is the left fold of the chain of level `level` that
/// starts at `pos`: of the links of the chain over its first operand.
pub open spec fn is_left_fold(level: nat, tokens: Seq<TokenView>, pos: nat, tree: Tree) -> bool {
    parse_level((level - 1) as nat, tokens, pos) matches Ok((first, before)) && tree == fold_left(
        first,
        chain_links(level, tokens, pos + before),
    )
}

/// Folding a chain that starts with `link` is folding the rest over the
/// node that `link` makes of `first`.
pub proof fn lemma_fold_left_first(first: Tree, link: Link, rest: Seq<Link>)
    ensures
        fold_left(first, seq![link] + rest) == fold_left(
            Tree::binary(link.0, first, link.1),
            rest,
        ),
    decreases rest.len(),
{
    let links = seq![link] + rest;
    if rest.len() == 0 {
        assert(links.drop_last() =~= Seq::<Link>::empty());
        assert(links.last() == link);
        assert(fold_left(first, links.drop_last()) == first);
    } else {
        lemma_fold_left_first(first, link, rest.drop_last());
        assert(links.drop_last() =~= seq![link] + rest.drop_last());
        assert(links.last() == rest.last());
    }
}

/// The tree of a chain is the left fold of its links over what came before.
pub proof fn lemma_chain_is_left_fold(level: nat, tokens: Seq<TokenView>, pos: nat, left: Tree)
    ensures
        parse_chain(level, tokens, pos, left) matches Ok((tree, taken)) ==> tree == fold_left(
            left,
            chain_links(level, tokens, pos),
        ),
    decreases remaining(tokens, pos),
{
    let skipped = blank_run(tokens, pos);
    match peeked_operator(level, tokens, pos) {
        None => {},
        Some(op) => {
            match parse_level((level - 1) as nat, tokens, pos + skipped + 1) {
                Err(_) => {},
                Ok((right, taken)) => {
                    lemma_chain_is_left_fold(
                        level,
                        tokens,
                        pos + skipped + 1 + taken,
                        Tree::binary(op, left, right),
                    );
                    lemma_fold_left_first(
                        left,
                        (op, right),
                        chain_links(level, tokens, pos + skipped + 1 + taken),
                    );
                },
            }
        },
    }
}

/// Every binary level is left-associative: the tree of an operand of level
/// `level` is the left fold of the links of its chain over its first
/// operand.
pub proof fn lemma_level_is_left_associative(level: nat, tokens: Seq<TokenView>, pos: nat)
    requires
        level >= 1,
    ensures
        parse_level(level, tokens, pos) matches Ok((tree, taken)) ==> is_left_fold(
            level,
            tokens,
            pos,
            tree,
        ),
{
    if let Ok((first, before)) = parse_level((level - 1) as nat, tokens, pos) {
        lemma_chain_is_left_fold(level, tokens, pos + before, first);
    }
}

/// A chain of three operands `a op1 b op2 c` groups as `(a op1 b) op2 c`.
pub proof fn lemma_three_operands_group_left(a: Tree, first: Link, second: Link)
    ensures
        fold_left(a, seq![first, second]) == Tree::binary(
            second.0,
            Tree::binary(first.0, a, first.1),
            second.1,
        ),
{
    let links = seq![first, second];
    assert(links.drop_last() =~= seq![first]);
    assert(seq![first].drop_last() =~= Seq::<Link>::empty());
    reveal_with_fuel(fold_left, 3);
}

} // verus!
