//! The code of an expression computes the value of the expression: run on
//! the model of the machine from any state, it leaves the value in `rax` and
//! the stack as it found it; and it has no outcome exactly when the
//! expression has no value.

use vstd::prelude::*;
use crate::ast::{BinaryOperator, Tag, Tree, UnaryOperator};
use crate::generator::{spec_combine_code, spec_unary_code};
use crate::instruction::{Instruction, Register};
use crate::layout::expression_code;
use crate::machine::{
    bit, bit_or, byte_and, in_range, low_byte, modulus, run, run_from, step, truncated_quotient,
    unsigned, with_low_byte, wrap, Machine,
};
use crate::semantics::{
    apply_binary, apply_unary, is_comparison, least, relation_holds, value_of,
};

verus! {

/// Whether running code from `before` ended in `after` as the value `value`
/// asks: with the value in `rax` and the stack as before, or, where there is
/// no value, without outcome.
pub open spec fn computes(value: Option<int>, before: Machine, after: Option<Machine>) -> bool {
    match value {
        Some(result) => after matches Some(machine) && machine.rax == result && machine.stack
            == before.stack,
        None => after is None,
    }
}

/// Past the end of the first of two joined sequences, running goes on in the second.
proof fn lemma_run_from_second(
    first: Seq<Instruction>,
    second: Seq<Instruction>,
    index: nat,
    machine: Machine,
)
    ensures
        run_from(first + second, first.len() + index, machine) == run_from(second, index, machine),
    decreases second.len() - index,
{
    if index < second.len() {
        assert((first + second)[(first.len() + index) as int] == second[index as int]);
        match step(second[index as int], machine) {
            Some(next) => {
                lemma_run_from_second(first, second, index + 1, next);
            },
            None => {},
        }
    }
}

/// Running two joined sequences from within the first is running the rest
/// of the first and then the second.
proof fn lemma_run_from_first(
    first: Seq<Instruction>,
    second: Seq<Instruction>,
    index: nat,
    machine: Machine,
)
    requires
        index <= first.len(),
    ensures
        run_from(first + second, index, machine) == (match run_from(first, index, machine) {
            Some(middle) => run(second, middle),
            None => None,
        }),
    decreases first.len() - index,
{
    if index < first.len() {
        assert((first + second)[index as int] == first[index as int]);
        match step(first[index as int], machine) {
            Some(next) => {
                lemma_run_from_first(first, second, index + 1, next);
            },
            None => {},
        }
    } else {
        lemma_run_from_second(first, second, 0, machine);
    }
}

/// Running two joined sequences is running the first and then the second.
pub proof fn lemma_run_concat(first: Seq<Instruction>, second: Seq<Instruction>, machine: Machine)
    ensures
        run(first + second, machine) == (match run(first, machine) {
            Some(middle) => run(second, middle),
            None => None,
        }),
{
    lemma_run_from_first(first, second, 0, machine);
}

/// A wrapped number is the signed reading of a 64-bit word, and wrapping
/// leaves such a reading as it is.
pub proof fn lemma_wrap(value: int)
    ensures
        in_range(wrap(value)),
        in_range(value) ==> wrap(value) == value,
        in_range(value) && value >= 0 ==> unsigned(value) == value,
        in_range(value) && value < 0 ==> unsigned(value) == value + modulus(),
{
}

/// The quotient of two 64-bit numbers is one, but for the least number
/// divided by minus one.
pub proof fn lemma_quotient_in_range(dividend: int, divisor: int)
    requires
        in_range(dividend),
        in_range(divisor),
        divisor != 0,
    ensures
        in_range(truncated_quotient(dividend, divisor)) <==> !(dividend == least() && divisor
            == -1),
{
    let a = if dividend >= 0 {
        dividend
    } else {
        -dividend
    };
    let b = if divisor > 0 {
        divisor
    } else {
        -divisor
    };
    assert(0 <= a / b <= a) by (nonlinear_arith)
        requires
            0 <= a,
            1 <= b,
    ;
    if b >= 2 {
        assert(2 * (a / b) <= a) by (nonlinear_arith)
            requires
                0 <= a,
                2 <= b,
        ;
    } else {
        assert(a / b == a) by (nonlinear_arith)
            requires
                b == 1,
        ;
    }
}

/// The value of an expression is the signed reading of a 64-bit word.
pub proof fn lemma_value_in_range(tree: Tree)
    ensures
        value_of(tree) matches Some(value) ==> in_range(value),
    decreases tree,
{
    match tree.tag {
        Tag::Constant(value) => {
            lemma_wrap(value as int);
        },
        Tag::UnaryOperator(op) => {
            if tree.children.len() == 1 {
                lemma_value_in_range(tree.children[0]);
                if let Some(operand) = value_of(tree.children[0]) {
                    lemma_wrap(-operand);
                }
            }
        },
        Tag::BinaryOperator(op) => {
            if tree.children.len() == 2 {
                lemma_value_in_range(tree.children[0]);
                lemma_value_in_range(tree.children[1]);
                if let (Some(left), Some(right)) = (
                    value_of(tree.children[0]),
                    value_of(tree.children[1]),
                ) {
                    lemma_wrap(left + right);
                    lemma_wrap(left - right);
                    lemma_wrap(left * right);
                    if right != 0 {
                        lemma_quotient_in_range(left, right);
                    }
                }
            }
        },
        _ => {},
    }
}

/// The instructions of a prefix operator turn the operand in `rax` into the
/// operator's value and leave the stack alone.
pub proof fn lemma_unary_code(op: UnaryOperator, machine: Machine)
    ensures
        computes(Some(apply_unary(op, machine.rax)), machine, run(spec_unary_code(op), machine)),
{
    reveal_with_fuel(run_from, 4);
    let code = spec_unary_code(op);
    match op {
        UnaryOperator::Negation => {},
        UnaryOperator::BitwiseComplement => {},
        UnaryOperator::LogicalNegation => {
            lemma_wrap(0);
            let compared = step(code[0], machine)->0;
            let cleared = step(code[1], compared)->0;
            assert(cleared.rax == 0);
            assert(low_byte(0) == 0);
        },
    }
}

/// Of two bits, the bitwise and is one exactly when both are.
proof fn lemma_byte_and_bits(a: bool, b: bool)
    ensures
        byte_and(bit(a), bit(b)) == bit(a && b),
{
    assert(1u8 & 1u8 == 1u8) by (bit_vector);
    assert(1u8 & 0u8 == 0u8) by (bit_vector);
    assert(0u8 & 1u8 == 0u8) by (bit_vector);
    assert(0u8 & 0u8 == 0u8) by (bit_vector);
}

/// The bitwise or of two words is zero exactly when both are.
proof fn lemma_bit_or_zero(a: int, b: int)
    requires
        in_range(a),
        in_range(b),
    ensures
        bit_or(a, b) == 0 <==> a == 0 && b == 0,
{
    lemma_wrap(a);
    lemma_wrap(b);
    let x = unsigned(a) as u64;
    let y = unsigned(b) as u64;
    assert((x | y) == 0 <==> x == 0 && y == 0) by (bit_vector);
    lemma_wrap((x | y) as int);
    assert(wrap((x | y) as int) == 0 <==> (x | y) == 0);
}

/// The low byte of a word whose low byte was set.
proof fn lemma_low_byte_set(value: int, byte: int)
    requires
        0 <= byte < 256,
    ensures
        low_byte(with_low_byte(value, byte)) == byte,
        with_low_byte(0, byte) == byte,
{
}

/// Whether `machine` is ready for the instructions that follow the right
/// operand of an infix operator: the left operand on top of the stack, the
/// right one in `rax`.
pub open spec fn operands_ready(machine: Machine) -> bool {
    &&& machine.stack.len() > 0
    &&& in_range(machine.stack.last())
    &&& in_range(machine.rax)
}

/// What the instructions that follow the right operand of `op` owe when run
/// from `machine`.
pub open spec fn combines(op: BinaryOperator, machine: Machine) -> bool {
    computes(
        apply_binary(op, machine.stack.last(), machine.rax),
        machine.with_stack(machine.stack.drop_last()),
        run(spec_combine_code(op), machine),
    )
}

/// `pop %rbx; addq %rbx, %rax` adds the saved left operand to the right one.
proof fn lemma_combine_addition(machine: Machine)
    requires
        operands_ready(machine),
    ensures
        combines(BinaryOperator::Addition, machine),
{
    reveal_with_fuel(run_from, 3);
}

/// `pop %rbx; subq %rax, %rbx; movq %rbx, %rax` takes the right operand from
/// the saved left one.
proof fn lemma_combine_subtraction(machine: Machine)
    requires
        operands_ready(machine),
    ensures
        combines(BinaryOperator::Subtraction, machine),
{
    reveal_with_fuel(run_from, 4);
}

/// `pop %rbx; imul %rbx, %rax` multiplies the saved left operand by the right one.
proof fn lemma_combine_multiplication(machine: Machine)
    requires
        operands_ready(machine),
    ensures
        combines(BinaryOperator::Multiplication, machine),
{
    reveal_with_fuel(run_from, 3);
    let left = machine.stack.last();
    let right = machine.rax;
    assert(right * left == left * right) by (nonlinear_arith);
}

/// The instructions of the division move the right operand to `rcx` and the
/// saved left one to `rax`, extend its sign into `rdx` and divide: the
/// quotient is rounded toward zero, and there is no outcome where the
/// divisor is zero or the quotient is no 64-bit number.
proof fn lemma_combine_division(machine: Machine)
    requires
        operands_ready(machine),
    ensures
        combines(BinaryOperator::Division, machine),
{
    reveal_with_fuel(run_from, 6);
    let code = spec_combine_code(BinaryOperator::Division);
    let left = machine.stack.last();
    let right = machine.rax;
    let popped = step(code[0], machine)->0;
    let divisor_moved = step(code[1], popped)->0;
    let dividend_moved = step(code[2], divisor_moved)->0;
    let extended = step(code[3], dividend_moved)->0;
    assert(extended.rcx == right && extended.rax == left);
    assert(extended.stack == machine.stack.drop_last());
    lemma_wrap(left);
    assert(extended.rdx * modulus() + unsigned(extended.rax) == left);
    if right != 0 {
        lemma_quotient_in_range(left, right);
    }
    assert(run(code, machine) == step(code[4], extended));
}

/// `pop %rdx; cmpq %rax, %rdx; movq $0, %rax; set<cc> %al` compares the
/// saved left operand with the right one and leaves one or zero.
proof fn lemma_combine_comparison(op: BinaryOperator, machine: Machine)
    requires
        operands_ready(machine),
        is_comparison(op),
    ensures
        combines(op, machine),
{
    reveal_with_fuel(run_from, 5);
    let code = spec_combine_code(op);
    lemma_wrap(0);
    let popped = step(code[0], machine)->0;
    let compared = step(code[1], popped)->0;
    let cleared = step(code[2], compared)->0;
    assert(cleared.rax == 0);
    assert(low_byte(0) == 0);
}

/// The instructions of the logical or leave one where a bit of either
/// operand is set, else zero.
proof fn lemma_combine_logical_or(machine: Machine)
    requires
        operands_ready(machine),
    ensures
        combines(BinaryOperator::LogicalOr, machine),
{
    reveal_with_fuel(run_from, 5);
    let code = spec_combine_code(BinaryOperator::LogicalOr);
    let left = machine.stack.last();
    let right = machine.rax;
    lemma_wrap(0);
    lemma_bit_or_zero(left, right);
    let popped = step(code[0], machine)->0;
    let joined = step(code[1], popped)->0;
    let cleared = step(code[2], joined)->0;
    assert(cleared.rax == 0);
    assert(low_byte(0) == 0);
}

/// The instructions of the logical and leave one where neither operand is
/// zero, else zero, in the whole of `rax`.
proof fn lemma_combine_logical_and(machine: Machine)
    requires
        operands_ready(machine),
    ensures
        combines(BinaryOperator::LogicalAnd, machine),
{
    reveal_with_fuel(run_from, 8);
    let code = spec_combine_code(BinaryOperator::LogicalAnd);
    let left = machine.stack.last();
    let right = machine.rax;
    lemma_wrap(0);
    let popped = step(code[0], machine)->0;
    let left_tested = step(code[1], popped)->0;
    let left_bit = step(code[2], left_tested)->0;
    lemma_low_byte_set(left_tested.rcx, bit(left != 0));
    assert(low_byte(left_bit.rcx) == bit(left != 0));
    let right_tested = step(code[3], left_bit)->0;
    let cleared = step(code[4], right_tested)->0;
    assert(cleared.rax == 0);
    let right_bit = step(code[5], cleared)->0;
    lemma_low_byte_set(0, bit(right != 0));
    assert(right_bit.rax == bit(right != 0));
    assert(right_bit.rcx == left_bit.rcx);
    assert(low_byte(right_bit.rax) == bit(right != 0));
    lemma_byte_and_bits(right != 0, left != 0);
    let combined = step(code[6], right_bit)->0;
    assert(combined.rax == bit(left != 0 && right != 0));
    assert(run(code, machine) == Some(combined));
}

/// The instructions that follow the right operand of an infix operator,
/// run with the left operand on top of the stack and the right one in
/// `rax`, take the left operand off the stack and leave the operator's value
/// in `rax`; they have no outcome exactly where the operator has no value.
pub proof fn lemma_combine_code(op: BinaryOperator, machine: Machine)
    requires
        operands_ready(machine),
    ensures
        combines(op, machine),
{
    match op {
        BinaryOperator::Addition => lemma_combine_addition(machine),
        BinaryOperator::Subtraction => lemma_combine_subtraction(machine),
        BinaryOperator::Multiplication => lemma_combine_multiplication(machine),
        BinaryOperator::Division => lemma_combine_division(machine),
        BinaryOperator::LogicalOr => lemma_combine_logical_or(machine),
        BinaryOperator::LogicalAnd => lemma_combine_logical_and(machine),
        _ => lemma_combine_comparison(op, machine),
    }
}

/// The instructions of a comparison leave exactly one in `rax` where the
/// relation holds of the left and the right operand, and exactly zero where
/// it does not: for every pair of 64-bit operands, negative and zero ones
/// too.
pub proof fn lemma_comparison_normalized(op: BinaryOperator, machine: Machine)
    requires
        operands_ready(machine),
        is_comparison(op),
    ensures
        run(spec_combine_code(op), machine) matches Some(after) && after.rax == bit(
            relation_holds(op, machine.stack.last(), machine.rax),
        ) && (after.rax == 0 || after.rax == 1),
{
    lemma_combine_comparison(op, machine);
}

/// The code of an expression computes its value: from any state it leaves
/// the value in `rax` and the stack as it was, and it has no outcome exactly
/// when the expression has no value.
pub proof fn lemma_expression_code_computes(tree: Tree, machine: Machine)
    requires
        tree.is_expression(),
    ensures
        computes(value_of(tree), machine, run(expression_code(tree), machine)),
    decreases tree,
{
    match tree.tag {
        Tag::Constant(value) => {
            reveal_with_fuel(run_from, 2);
        },
        Tag::UnaryOperator(op) => {
            let operand = tree.children[0];
            lemma_expression_code_computes(operand, machine);
            lemma_run_concat(expression_code(operand), spec_unary_code(op), machine);
            if let Some(evaluated) = run(expression_code(operand), machine) {
                lemma_unary_code(op, evaluated);
            }
        },
        Tag::BinaryOperator(op) => {
            let left = tree.children[0];
            let right = tree.children[1];
            let left_code = expression_code(left);
            let right_code = expression_code(right);
            let save = seq![Instruction::Push(Register::Rax)];
            let combine = spec_combine_code(op);
            lemma_value_in_range(left);
            lemma_value_in_range(right);
            lemma_expression_code_computes(left, machine);
            lemma_run_concat(left_code, save, machine);
            lemma_run_concat(left_code + save, right_code, machine);
            lemma_run_concat(left_code + save + right_code, combine, machine);
            if let Some(left_done) = run(left_code, machine) {
                reveal_with_fuel(run_from, 2);
                let saved = run(save, left_done)->0;
                assert(saved == left_done.with_stack(left_done.stack.push(left_done.rax)));
                lemma_expression_code_computes(right, saved);
                if let Some(right_done) = run(right_code, saved) {
                    assert(right_done.stack.last() == left_done.rax);
                    assert(right_done.stack.drop_last() =~= machine.stack);
                    lemma_combine_code(op, right_done);
                }
            }
        },
        _ => {},
    }
}

} // verus!
