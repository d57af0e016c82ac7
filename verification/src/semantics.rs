//! The value of an expression: 64-bit two's complement arithmetic, both
//! operands of every infix operator evaluated. A division by zero, or of the
//! least number by minus one, has no value; nor has a tree that is no
//! expression.

use vstd::prelude::*;
use crate::ast::{BinaryOperator, Symbol, Tag, Tree, UnaryOperator, AST};
use crate::correctness::{lemma_quotient_in_range, lemma_value_in_range, lemma_wrap};
use crate::machine::{bit, in_range, truncated_quotient, wrap};

verus! {

/// The least signed 64-bit number.
pub open spec fn least() -> int {
    -0x8000_0000_0000_0000
}

/// The value of a prefix operator on `operand`.
pub open spec fn apply_unary(op: UnaryOperator, operand: int) -> int {
    match op {
        UnaryOperator::Negation => wrap(-operand),
        UnaryOperator::BitwiseComplement => -operand - 1,
        UnaryOperator::LogicalNegation => bit(operand == 0),
    }
}

/// The value of an infix operator on `left` and `right`, if it has one.
pub open spec fn apply_binary(op: BinaryOperator, left: int, right: int) -> Option<int> {
    match op {
        BinaryOperator::Addition => Some(wrap(left + right)),
        BinaryOperator::Subtraction => Some(wrap(left - right)),
        BinaryOperator::Multiplication => Some(wrap(left * right)),
        BinaryOperator::Division => if right == 0 || (left == least() && right == -1) {
            None
        } else {
            Some(truncated_quotient(left, right))
        },
        BinaryOperator::LessThan => Some(bit(left < right)),
        BinaryOperator::LessThanOrEqual => Some(bit(left <= right)),
        BinaryOperator::GreaterThan => Some(bit(left > right)),
        BinaryOperator::GreaterThanOrEqual => Some(bit(left >= right)),
        BinaryOperator::Equal => Some(bit(left == right)),
        BinaryOperator::NotEqual => Some(bit(left != right)),
        BinaryOperator::LogicalAnd => Some(bit(left != 0 && right != 0)),
        BinaryOperator::LogicalOr => Some(bit(left != 0 || right != 0)),
    }
}

/// Whether `op` compares its operands: a relational or an equality operator.
pub open spec fn is_comparison(op: BinaryOperator) -> bool {
    match op {
        BinaryOperator::LessThan | BinaryOperator::LessThanOrEqual | BinaryOperator::GreaterThan
        | BinaryOperator::GreaterThanOrEqual | BinaryOperator::Equal
        | BinaryOperator::NotEqual => true,
        _ => false,
    }
}

/// Whether the relation that a comparison operator names holds of `left`
/// and `right`, as signed numbers.
pub open spec fn relation_holds(op: BinaryOperator, left: int, right: int) -> bool
    recommends
        is_comparison(op),
{
    match op {
        BinaryOperator::LessThan => left < right,
        BinaryOperator::LessThanOrEqual => left <= right,
        BinaryOperator::GreaterThan => left > right,
        BinaryOperator::GreaterThanOrEqual => left >= right,
        BinaryOperator::NotEqual => left != right,
        _ => left == right,
    }
}

/// The value of a comparison is exactly one where the relation holds and
/// exactly zero where it does not, whatever the operands are.
pub proof fn lemma_comparison_value(op: BinaryOperator, left: int, right: int)
    requires
        is_comparison(op),
    ensures
        apply_binary(op, left, right) == Some(bit(relation_holds(op, left, right))),
        apply_binary(op, left, right) == Some(0int) || apply_binary(op, left, right) == Some(1int),
{
}

/// Two logical negations give one for every operand but zero, and zero for zero.
pub proof fn lemma_double_logical_negation(operand: int)
    ensures
        apply_unary(
            UnaryOperator::LogicalNegation,
            apply_unary(UnaryOperator::LogicalNegation, operand),
        ) == bit(operand != 0),
{
}

/// Two bitwise complements give the operand back.
pub proof fn lemma_double_complement(operand: int)
    ensures
        apply_unary(
            UnaryOperator::BitwiseComplement,
            apply_unary(UnaryOperator::BitwiseComplement, operand),
        ) == operand,
{
}

/// Two negations give a 64-bit operand back.
pub proof fn lemma_double_negation(operand: int)
    requires
        in_range(operand),
    ensures
        apply_unary(UnaryOperator::Negation, apply_unary(UnaryOperator::Negation, operand))
            == operand,
{
}

/// The signed reading of the 64-bit word that holds `value`.
fn word(value: usize) -> (result: i64)
    ensures
        result == wrap(value as int),
{
    let wide = value as u64;
    if wide <= 0x7fff_ffff_ffff_ffff {
        wide as i64
    } else {
        ((wide - 0x8000_0000_0000_0000) as i64) + i64::MIN
    }
}

/// One or zero.
fn flag(condition: bool) -> (result: i64)
    ensures
        result == bit(condition),
{
    if condition {
        1
    } else {
        0
    }
}

/// Computes the value of a prefix operator on `operand`.
fn evaluate_unary(op: UnaryOperator, operand: i64) -> (result: i64)
    ensures
        result == apply_unary(op, operand as int),
{
    match op {
        UnaryOperator::Negation => 0i64.wrapping_sub(operand),
        UnaryOperator::BitwiseComplement => -1 - operand,
        UnaryOperator::LogicalNegation => flag(operand == 0),
    }
}

/// Computes the value of an infix operator on `left` and `right`, if it has one.
fn evaluate_binary(op: BinaryOperator, left: i64, right: i64) -> (result: Option<i64>)
    ensures
        match apply_binary(op, left as int, right as int) {
            Some(value) => result == Some(value as i64) && in_range(value),
            None => result is None,
        },
{
    proof {
        lemma_wrap(left + right);
        lemma_wrap(left - right);
        lemma_wrap(left * right);
        if right != 0 {
            lemma_quotient_in_range(left as int, right as int);
        }
    }
    match op {
        BinaryOperator::Addition => Some(left.wrapping_add(right)),
        BinaryOperator::Subtraction => Some(left.wrapping_sub(right)),
        BinaryOperator::Multiplication => Some(left.wrapping_mul(right)),
        BinaryOperator::Division => left.checked_div(right),
        BinaryOperator::LessThan => Some(flag(left < right)),
        BinaryOperator::LessThanOrEqual => Some(flag(left <= right)),
        BinaryOperator::GreaterThan => Some(flag(left > right)),
        BinaryOperator::GreaterThanOrEqual => Some(flag(left >= right)),
        BinaryOperator::Equal => Some(flag(left == right)),
        BinaryOperator::NotEqual => Some(flag(left != right)),
        BinaryOperator::LogicalAnd => Some(flag(left != 0 && right != 0)),
        BinaryOperator::LogicalOr => Some(flag(left != 0 || right != 0)),
    }
}

/// Computes the value of an expression tree: the number that the code of
/// the expression leaves in `rax`. Gives `None` where the tree has no value:
/// where it divides by zero or the least number by minus one, or is no
/// expression.
pub fn evaluate(ast: &AST) -> (result: Option<i64>)
    ensures
        match value_of(ast@) {
            Some(value) => result == Some(value as i64) && in_range(value),
            None => result is None,
        },
    decreases ast,
{
    proof {
        ast.lemma_view();
        lemma_value_in_range(ast@);
    }
    match &ast.symbol {
        Symbol::Constant(value) => if ast.children.len() == 0 {
            Some(word(*value))
        } else {
            None
        },
        Symbol::UnaryOperator(op) => if ast.children.len() == 1 {
            match evaluate(&ast.children[0]) {
                Some(operand) => Some(evaluate_unary(*op, operand)),
                None => None,
            }
        } else {
            None
        },
        Symbol::BinaryOperator(op) => if ast.children.len() == 2 {
            let left = evaluate(&ast.children[0]);
            let right = evaluate(&ast.children[1]);
            match (left, right) {
                (Some(left), Some(right)) => evaluate_binary(*op, left, right),
                _ => None,
            }
        } else {
            None
        },
        _ => None,
    }
}

/// The value of an expression, if it has one.
pub open spec fn value_of(tree: Tree) -> Option<int>
    decreases tree,
{
    match tree.tag {
        Tag::Constant(value) => if tree.children.len() == 0 {
            Some(wrap(value as int))
        } else {
            None
        },
        Tag::UnaryOperator(op) => if tree.children.len() == 1 {
            match value_of(tree.children[0]) {
                Some(operand) => Some(apply_unary(op, operand)),
                None => None,
            }
        } else {
            None
        },
        Tag::BinaryOperator(op) => if tree.children.len() == 2 {
            match (value_of(tree.children[0]), value_of(tree.children[1])) {
                (Some(left), Some(right)) => apply_binary(op, left, right),
                _ => None,
            }
        } else {
            None
        },
        _ => None,
    }
}

} // verus!
