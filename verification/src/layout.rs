//! What the generator writes for a well-formed tree, stated by the shape of
//! the tree, and the proof that the generator's walk writes exactly that.

use vstd::prelude::*;
use crate::ast::{Tag, Tree};
use crate::generator::{
    binary_sequence, emit_functions, generated_text, label_text, traverse, traverse_children,
    unary_sequence, visit, Emission, InternalConsistencyError,
};
use crate::instruction::{code_text, Comma, Instruction, Register};

verus! {

/// The code of an expression: a constant loads its value into `rax`, a
/// prefix operator works on the code of its operand, an infix operator
/// joins the code of its operands.
pub open spec fn expression_code(tree: Tree) -> Seq<Instruction>
    decreases tree,
{
    match tree.tag {
        Tag::Constant(value) => seq![Instruction::MovImm(value, Register::Rax, Comma::Spaced)],
        Tag::UnaryOperator(op) => if tree.children.len() == 1 {
            unary_sequence(op, expression_code(tree.children[0]))
        } else {
            Seq::empty()
        },
        Tag::BinaryOperator(op) => if tree.children.len() == 2 {
            binary_sequence(
                op,
                expression_code(tree.children[0]),
                expression_code(tree.children[1]),
            )
        } else {
            Seq::empty()
        },
        _ => Seq::empty(),
    }
}

/// The name of a function node.
pub open spec fn function_name(function: Tree) -> Seq<char> {
    match function.tag {
        Tag::Function(name) => name,
        _ => Seq::empty(),
    }
}

/// The expression that a function returns.
pub open spec fn returned_expression(function: Tree) -> Tree {
    function.children[0].children[0]
}

/// The text of a function: its label, the code of the expression that it
/// returns, and `ret`.
pub open spec fn function_text(function: Tree) -> Seq<char> {
    label_text(function_name(function)) + code_text(
        expression_code(returned_expression(function)),
    ) + "ret\n"@
}

/// The text of the first `count` functions of a program, in order.
pub open spec fn program_text(program: Tree, count: nat) -> Seq<char>
    decreases count,
{
    if count == 0 || count > program.children.len() {
        Seq::empty()
    } else {
        program_text(program, (count - 1) as nat) + function_text(program.children[count - 1])
    }
}

/// The walk of an expression leaves the text as it was and one more pending
/// operand sequence than before: the code of the expression.
pub proof fn lemma_traverse_expression(tree: Tree, state: Emission)
    requires
        tree.is_expression(),
    ensures
        traverse(tree, state) == Ok::<Emission, InternalConsistencyError>(
            Emission { text: state.text, pending: state.pending.push(expression_code(tree)) },
        ),
    decreases tree,
{
    match tree.tag {
        Tag::Constant(value) => {
            assert(traverse_children(tree, 0, state) == Ok::<Emission, InternalConsistencyError>(
                state,
            ));
        },
        Tag::UnaryOperator(op) => {
            let operand = tree.children[0];
            lemma_traverse_expression(operand, state);
            let after = Emission {
                text: state.text,
                pending: state.pending.push(expression_code(operand)),
            };
            assert(traverse_children(tree, 0, state) == Ok::<Emission, InternalConsistencyError>(
                state,
            ));
            assert(traverse_children(tree, 1, state) == Ok::<Emission, InternalConsistencyError>(
                after,
            ));
            assert(after.pending.take(after.pending.len() - 1) =~= state.pending);
        },
        Tag::BinaryOperator(op) => {
            let left = tree.children[0];
            let right = tree.children[1];
            lemma_traverse_expression(left, state);
            let middle = Emission {
                text: state.text,
                pending: state.pending.push(expression_code(left)),
            };
            lemma_traverse_expression(right, middle);
            let after = Emission {
                text: state.text,
                pending: middle.pending.push(expression_code(right)),
            };
            assert(traverse_children(tree, 0, state) == Ok::<Emission, InternalConsistencyError>(
                state,
            ));
            assert(traverse_children(tree, 1, state) == Ok::<Emission, InternalConsistencyError>(
                middle,
            ));
            assert(traverse_children(tree, 2, state) == Ok::<Emission, InternalConsistencyError>(
                after,
            ));
            assert(after.pending.take(after.pending.len() - 2) =~= state.pending);
        },
        _ => {},
    }
}

/// The walk of a function writes the code of its expression and `ret`, and
/// leaves the pending operands as they were.
pub proof fn lemma_traverse_function(function: Tree, state: Emission)
    requires
        function.is_function(),
    ensures
        traverse(function, state) == Ok::<Emission, InternalConsistencyError>(
            Emission {
                text: state.text + code_text(expression_code(returned_expression(function)))
                    + "ret\n"@,
                pending: state.pending,
            },
        ),
{
    let statement = function.children[0];
    let expression = statement.children[0];
    lemma_traverse_expression(expression, state);
    let pushed = Emission {
        text: state.text,
        pending: state.pending.push(expression_code(expression)),
    };
    assert(traverse_children(statement, 0, state) == Ok::<Emission, InternalConsistencyError>(
        state,
    ));
    assert(traverse_children(statement, 1, state) == Ok::<Emission, InternalConsistencyError>(
        pushed,
    ));
    assert(pushed.pending.take(pushed.pending.len() - 1) =~= state.pending);
    let written = Emission {
        text: state.text + code_text(expression_code(expression)) + "ret\n"@,
        pending: state.pending,
    };
    assert(visit(statement.tag, pushed) == Ok::<Emission, InternalConsistencyError>(written));
    assert(traverse(statement, state) == Ok::<Emission, InternalConsistencyError>(written));
    assert(traverse_children(function, 0, state) == Ok::<Emission, InternalConsistencyError>(
        state,
    ));
    assert(traverse_children(function, 1, state) == Ok::<Emission, InternalConsistencyError>(
        written,
    ));
}

/// The generator writes the first `count` functions of a list of functions
/// one after the other, and leaves the pending operands as they were.
pub proof fn lemma_emit_functions(program: Tree, count: nat, state: Emission)
    requires
        program.is_function_list(),
        count <= program.children.len(),
    ensures
        emit_functions(program, count, state) == Ok::<Emission, InternalConsistencyError>(
            Emission { text: state.text + program_text(program, count), pending: state.pending },
        ),
    decreases count,
{
    if count == 0 {
        assert(state.text + program_text(program, count) =~= state.text);
    } else {
        lemma_emit_functions(program, (count - 1) as nat, state);
        let function = program.children[count - 1];
        assert(function.is_function());
        let before = Emission {
            text: state.text + program_text(program, (count - 1) as nat),
            pending: state.pending,
        };
        let labelled = Emission {
            text: before.text + label_text(function_name(function)),
            pending: before.pending,
        };
        lemma_traverse_function(function, labelled);
        assert(labelled.text + code_text(expression_code(returned_expression(function)))
            + "ret\n"@ =~= state.text + program_text(program, count));
    }
}

/// For a program whose children are all functions, each with one `return`
/// statement over one expression, the generator succeeds and writes the
/// text of each function in order.
pub proof fn lemma_generated_text(program: Tree)
    requires
        program.is_function_list(),
    ensures
        generated_text(program) == Ok::<Seq<char>, InternalConsistencyError>(
            program_text(program, program.children.len()),
        ),
{
    let empty = Emission { text: Seq::empty(), pending: Seq::empty() };
    lemma_emit_functions(program, program.children.len(), empty);
    assert(empty.text + program_text(program, program.children.len()) =~= program_text(
        program,
        program.children.len(),
    ));
}

} // verus!
