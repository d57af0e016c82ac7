//! The code generator: a post-order walk of the tree that keeps a stack of
//! pending operand sequences and folds them into the code of their parent.
//!
//! Every operand sequence leaves its value in `rax`. A binary node's code is
//! the left operand's code, `push %rax`, the right operand's code, a `pop` of
//! the saved left value into the operator's secondary register, and the
//! operator's combining instructions. At combination time the secondary
//! register holds the left operand and `rax` the right one, for every
//! operator; the combining instructions of subtraction and division put the
//! operands where `subq` and `idivq` need them. Division extends the sign of
//! the dividend with `cqto`. The results of the comparisons and of the
//! logical operators are exactly one or zero in the whole of `rax`.
//!
//! The secondary register is `rbx` for the arithmetic operators and `rdx`
//! for the others; `rcx` is a further scratch register. Expression code
//! restores none of the three.
//!
//! The text is fixed to the character. The arithmetic and the prefix
//! operators write a space after the comma between operands; the
//! comparisons and the logical operators write none, and the last line of a
//! logical and starts with a space.

use vstd::prelude::*;
use vstd::string::*;
use crate::ast::{BinaryOperator, StatementType, Symbol, Tag, Tree, UnaryOperator, AST};
use crate::instruction::{code_text, write_code, Comma, Condition, Instruction, Register};

verus! {

/// A tree that the generator cannot walk. It tells of a broken tree, not of
/// a mistake in the source text.
#[derive(Debug, Clone, Copy, PartialEq, Eq, Structural)]
pub enum InternalConsistencyError {
    /// The root of the tree is not a `Program` node.
    RootNotProgram,
    /// A child of the `Program` node is not a `Function` node.
    NotAFunction,
    /// A node asked for an operand and none was pending.
    OperandStackUnderflow,
}

impl InternalConsistencyError {
    /// What the error says to a reader.
    pub open spec fn spec_message(self) -> Seq<char> {
        match self {
            InternalConsistencyError::RootNotProgram => "root node is not a program"@,
            InternalConsistencyError::NotAFunction => "child of the program is not a function"@,
            InternalConsistencyError::OperandStackUnderflow => "no pending operand"@,
        }
    }

    /// What the error says to a reader.
    pub fn message(self) -> (text: &'static str)
        ensures
            text@ == self.spec_message(),
    {
        match self {
            InternalConsistencyError::RootNotProgram => "root node is not a program",
            InternalConsistencyError::NotAFunction => "child of the program is not a function",
            InternalConsistencyError::OperandStackUnderflow => "no pending operand",
        }
    }
}

/// The condition that `set` tests after `cmpq %rax, %rdx` for a comparison operator.
pub open spec fn spec_condition(op: BinaryOperator) -> Condition {
    match op {
        BinaryOperator::LessThan => Condition::Less,
        BinaryOperator::LessThanOrEqual => Condition::LessOrEqual,
        BinaryOperator::GreaterThan => Condition::Greater,
        BinaryOperator::GreaterThanOrEqual => Condition::GreaterOrEqual,
        BinaryOperator::NotEqual => Condition::NotEqual,
        _ => Condition::Equal,
    }
}

/// The instructions that follow the operand of a unary operator.
pub open spec fn spec_unary_code(op: UnaryOperator) -> Seq<Instruction> {
    match op {
        UnaryOperator::Negation => seq![Instruction::Neg(Register::Rax)],
        UnaryOperator::BitwiseComplement => seq![Instruction::Not(Register::Rax)],
        UnaryOperator::LogicalNegation => seq![
            Instruction::CmpZero(Register::Rax, Comma::Spaced),
            Instruction::MovImm(0, Register::Rax, Comma::Spaced),
            Instruction::SetByte(Condition::Equal, Register::Rax),
        ],
    }
}

/// The instructions that follow the right operand of a binary operator: the
/// saved left operand comes back into the secondary register, then the two are
/// combined into `rax`. The comparisons and the logical operators write
/// their commas tight.
pub open spec fn spec_combine_code(op: BinaryOperator) -> Seq<Instruction> {
    match op {
        BinaryOperator::Addition => seq![
            Instruction::Pop(Register::Rbx),
            Instruction::Add(Register::Rbx, Register::Rax),
        ],
        BinaryOperator::Multiplication => seq![
            Instruction::Pop(Register::Rbx),
            Instruction::Imul(Register::Rbx, Register::Rax),
        ],
        BinaryOperator::Subtraction => seq![
            Instruction::Pop(Register::Rbx),
            Instruction::Sub(Register::Rax, Register::Rbx),
            Instruction::Mov(Register::Rbx, Register::Rax),
        ],
        BinaryOperator::Division => seq![
            Instruction::Pop(Register::Rbx),
            Instruction::Mov(Register::Rax, Register::Rcx),
            Instruction::Mov(Register::Rbx, Register::Rax),
            Instruction::Cqto,
            Instruction::Idiv(Register::Rcx),
        ],
        BinaryOperator::LogicalOr => seq![
            Instruction::Pop(Register::Rdx),
            Instruction::Or(Register::Rax, Register::Rdx),
            Instruction::MovImm(0, Register::Rax, Comma::Tight),
            Instruction::SetByte(Condition::NotEqual, Register::Rax),
        ],
        BinaryOperator::LogicalAnd => seq![
            Instruction::Pop(Register::Rdx),
            Instruction::CmpZero(Register::Rdx, Comma::Tight),
            Instruction::SetByte(Condition::NotEqual, Register::Rcx),
            Instruction::CmpZero(Register::Rax, Comma::Tight),
            Instruction::MovImm(0, Register::Rax, Comma::Tight),
            Instruction::SetByte(Condition::NotEqual, Register::Rax),
            Instruction::AndByte(Register::Rcx, Register::Rax),
        ],
        _ => seq![
            Instruction::Pop(Register::Rdx),
            Instruction::Cmp(Register::Rax, Register::Rdx),
            Instruction::MovImm(0, Register::Rax, Comma::Tight),
            Instruction::SetByte(spec_condition(op), Register::Rax),
        ],
    }
}

/// The code of a unary node, from the code of its operand.
pub open spec fn unary_sequence(op: UnaryOperator, operand: Seq<Instruction>) -> Seq<Instruction> {
    operand + spec_unary_code(op)
}

/// The code of a binary node, from the code of its operands: left, save,
/// right, restore and combine.
pub open spec fn binary_sequence(
    op: BinaryOperator,
    left: Seq<Instruction>,
    right: Seq<Instruction>,
) -> Seq<Instruction> {
    left + seq![Instruction::Push(Register::Rax)] + right + spec_combine_code(op)
}

/// The two lines that open a function: its global directive and its label.
pub open spec fn label_text(name: Seq<char>) -> Seq<char> {
    ".globl "@ + name + "\n"@ + name + ":\n"@
}

/// What the generator holds during a walk: the text written so far and the
/// operand sequences that no parent has taken yet, the latest last.
pub struct Emission {
    pub text: Seq<char>,
    pub pending: Seq<Seq<Instruction>>,
}

/// The effect of visiting one node, its children already visited.
pub open spec fn visit(tag: Tag, state: Emission) -> Result<Emission, InternalConsistencyError> {
    let depth = state.pending.len() as int;
    match tag {
        Tag::Constant(value) => Ok(
            Emission {
                text: state.text,
                pending: state.pending.push(
                    seq![Instruction::MovImm(value, Register::Rax, Comma::Spaced)],
                ),
            },
        ),
        Tag::UnaryOperator(op) => if depth < 1 {
            Err(InternalConsistencyError::OperandStackUnderflow)
        } else {
            Ok(
                Emission {
                    text: state.text,
                    pending: state.pending.take(depth - 1).push(
                        unary_sequence(op, state.pending[depth - 1]),
                    ),
                },
            )
        },
        Tag::BinaryOperator(op) => if depth < 2 {
            Err(InternalConsistencyError::OperandStackUnderflow)
        } else {
            Ok(
                Emission {
                    text: state.text,
                    pending: state.pending.take(depth - 2).push(
                        binary_sequence(op, state.pending[depth - 2], state.pending[depth - 1]),
                    ),
                },
            )
        },
        Tag::Statement(StatementType::Return) => if depth < 1 {
            Err(InternalConsistencyError::OperandStackUnderflow)
        } else {
            Ok(
                Emission {
                    text: state.text + code_text(state.pending[depth - 1]) + "ret\n"@,
                    pending: state.pending.take(depth - 1),
                },
            )
        },
        Tag::Program | Tag::Function(_) => Ok(state),
    }
}

/// The effect of walking the first `count` children of `tree`, in order.
pub open spec fn traverse_children(tree: Tree, count: nat, state: Emission) -> Result<
    Emission,
    InternalConsistencyError,
>
    decreases tree, 0nat, count,
{
    if count == 0 || count > tree.children.len() {
        Ok(state)
    } else {
        match traverse_children(tree, (count - 1) as nat, state) {
            Ok(before) => traverse(tree.children[count - 1], before),
            Err(error) => Err(error),
        }
    }
}

/// The effect of walking `tree` in post-order: its children from left to
/// right, then the node itself.
pub open spec fn traverse(tree: Tree, state: Emission) -> Result<
    Emission,
    InternalConsistencyError,
>
    decreases tree, 1nat, 0nat,
{
    match traverse_children(tree, tree.children.len(), state) {
        Ok(after) => visit(tree.tag, after),
        Err(error) => Err(error),
    }
}

/// The effect of emitting the first `count` functions of `program`, starting
/// from `state`: for each its label, then the walk of its subtree.
pub open spec fn emit_functions(program: Tree, count: nat, state: Emission) -> Result<
    Emission,
    InternalConsistencyError,
>
    decreases count,
{
    if count == 0 || count > program.children.len() {
        Ok(state)
    } else {
        match emit_functions(program, (count - 1) as nat, state) {
            Ok(before) => match program.children[count - 1].tag {
                Tag::Function(name) => traverse(
                    program.children[count - 1],
                    Emission { text: before.text + label_text(name), pending: before.pending },
                ),
                _ => Err(InternalConsistencyError::NotAFunction),
            },
            Err(error) => Err(error),
        }
    }
}

/// The text that a generator in `state` has written once it has emitted
/// `tree`, or the reason why it fails.
pub open spec fn generated_from(tree: Tree, state: Emission) -> Result<
    Seq<char>,
    InternalConsistencyError,
> {
    if tree.tag != Tag::Program {
        Err(InternalConsistencyError::RootNotProgram)
    } else {
        match emit_functions(tree, tree.children.len(), state) {
            Ok(after) => Ok(after.text),
            Err(error) => Err(error),
        }
    }
}

/// The assembly text of a tree, or the reason why it has none.
pub open spec fn generated_text(tree: Tree) -> Result<Seq<char>, InternalConsistencyError> {
    generated_from(tree, Emission { text: Seq::empty(), pending: Seq::empty() })
}

/// The condition that `set` tests after `cmpq %rax, %rdx` for a comparison operator.
fn condition(op: BinaryOperator) -> (condition: Condition)
    ensures
        condition == spec_condition(op),
{
    match op {
        BinaryOperator::LessThan => Condition::Less,
        BinaryOperator::LessThanOrEqual => Condition::LessOrEqual,
        BinaryOperator::GreaterThan => Condition::Greater,
        BinaryOperator::GreaterThanOrEqual => Condition::GreaterOrEqual,
        BinaryOperator::NotEqual => Condition::NotEqual,
        _ => Condition::Equal,
    }
}

/// Appends the instructions that follow the operand of a unary operator.
fn push_unary_code(code: &mut Vec<Instruction>, op: UnaryOperator)
    ensures
        final(code)@ == old(code)@ + spec_unary_code(op),
{
    match op {
        UnaryOperator::Negation => {
            code.push(Instruction::Neg(Register::Rax));
        },
        UnaryOperator::BitwiseComplement => {
            code.push(Instruction::Not(Register::Rax));
        },
        UnaryOperator::LogicalNegation => {
            code.push(Instruction::CmpZero(Register::Rax, Comma::Spaced));
            code.push(Instruction::MovImm(0, Register::Rax, Comma::Spaced));
            code.push(Instruction::SetByte(Condition::Equal, Register::Rax));
        },
    }
    assert(code@ =~= old(code)@ + spec_unary_code(op));
}

/// Appends the instructions that follow the right operand of a binary operator.
fn push_combine_code(code: &mut Vec<Instruction>, op: BinaryOperator)
    ensures
        final(code)@ == old(code)@ + spec_combine_code(op),
{
    match op {
        BinaryOperator::Addition => {
            code.push(Instruction::Pop(Register::Rbx));
            code.push(Instruction::Add(Register::Rbx, Register::Rax));
        },
        BinaryOperator::Multiplication => {
            code.push(Instruction::Pop(Register::Rbx));
            code.push(Instruction::Imul(Register::Rbx, Register::Rax));
        },
        BinaryOperator::Subtraction => {
            code.push(Instruction::Pop(Register::Rbx));
            code.push(Instruction::Sub(Register::Rax, Register::Rbx));
            code.push(Instruction::Mov(Register::Rbx, Register::Rax));
        },
        BinaryOperator::Division => {
            code.push(Instruction::Pop(Register::Rbx));
            code.push(Instruction::Mov(Register::Rax, Register::Rcx));
            code.push(Instruction::Mov(Register::Rbx, Register::Rax));
            code.push(Instruction::Cqto);
            code.push(Instruction::Idiv(Register::Rcx));
        },
        BinaryOperator::LogicalOr => {
            code.push(Instruction::Pop(Register::Rdx));
            code.push(Instruction::Or(Register::Rax, Register::Rdx));
            code.push(Instruction::MovImm(0, Register::Rax, Comma::Tight));
            code.push(Instruction::SetByte(Condition::NotEqual, Register::Rax));
        },
        BinaryOperator::LogicalAnd => {
            code.push(Instruction::Pop(Register::Rdx));
            code.push(Instruction::CmpZero(Register::Rdx, Comma::Tight));
            code.push(Instruction::SetByte(Condition::NotEqual, Register::Rcx));
            code.push(Instruction::CmpZero(Register::Rax, Comma::Tight));
            code.push(Instruction::MovImm(0, Register::Rax, Comma::Tight));
            code.push(Instruction::SetByte(Condition::NotEqual, Register::Rax));
            code.push(Instruction::AndByte(Register::Rcx, Register::Rax));
        },
        _ => {
            code.push(Instruction::Pop(Register::Rdx));
            code.push(Instruction::Cmp(Register::Rax, Register::Rdx));
            code.push(Instruction::MovImm(0, Register::Rax, Comma::Tight));
            code.push(Instruction::SetByte(condition(op), Register::Rax));
        },
    }
    assert(code@ =~= old(code)@ + spec_combine_code(op));
}

/// The generator: the text written so far and the stack of pending operand
/// sequences.
pub struct Generator {
    buf: String,
    expression_stack: Vec<Vec<Instruction>>,
}

impl View for Generator {
    type V = Emission;

    closed spec fn view(&self) -> Emission {
        Emission {
            text: self.buf@,
            pending: Seq::new(
                self.expression_stack.len() as nat,
                |i: int| self.expression_stack[i]@,
            ),
        }
    }
}

impl Generator {
    /// A generator that has written nothing and holds no operand.
    pub fn new() -> (generator: Generator)
        ensures
            generator@ == (Emission { text: Seq::empty(), pending: Seq::empty() }),
    {
        let generator = Generator { buf: String::new(), expression_stack: Vec::new() };
        assert(generator@.pending =~= Seq::empty());
        generator
    }

    /// Takes the latest pending operand sequence.
    fn pop_operand(&mut self) -> (code: Vec<Instruction>)
        requires
            old(self)@.pending.len() > 0,
        ensures
            code@ == old(self)@.pending.last(),
            final(self)@.pending == old(self)@.pending.drop_last(),
            final(self)@.text == old(self)@.text,
    {
        let code = self.expression_stack.pop().unwrap();
        assert(self@.pending =~= old(self)@.pending.drop_last());
        code
    }

    /// Makes `code` the latest pending operand sequence.
    fn push_operand(&mut self, code: Vec<Instruction>)
        ensures
            final(self)@.pending == old(self)@.pending.push(code@),
            final(self)@.text == old(self)@.text,
    {
        self.expression_stack.push(code);
        assert(self@.pending =~= old(self)@.pending.push(code@));
    }

    /// Visits one node whose children have been visited: a constant becomes a
    /// pending operand, an operator folds its operands into one, a `return`
    /// writes the pending operand and `ret`. Fails, and changes nothing, when
    /// the node needs more operands than are pending.
    pub fn visit_node(&mut self, ast: &AST) -> (result: Result<(), InternalConsistencyError>)
        ensures
            match visit(ast@.tag, old(self)@) {
                Ok(state) => result is Ok && final(self)@ == state,
                Err(error) => result == Err::<(), InternalConsistencyError>(error) && final(self)@
                    == old(self)@,
            },
    {
        let ghost before = self@;
        let depth = self.expression_stack.len();
        match &ast.symbol {
            Symbol::Constant(value) => {
                let mut code: Vec<Instruction> = Vec::new();
                code.push(Instruction::MovImm(*value, Register::Rax, Comma::Spaced));
                assert(code@ =~= seq![Instruction::MovImm(*value, Register::Rax, Comma::Spaced)]);
                self.push_operand(code);
            },
            Symbol::UnaryOperator(op) => {
                if depth < 1 {
                    return Err(InternalConsistencyError::OperandStackUnderflow);
                }
                let mut code = self.pop_operand();
                push_unary_code(&mut code, *op);
                self.push_operand(code);
                assert(before.pending.drop_last() =~= before.pending.take(depth - 1));
            },
            Symbol::BinaryOperator(op) => {
                if depth < 2 {
                    return Err(InternalConsistencyError::OperandStackUnderflow);
                }
                let mut right = self.pop_operand();
                let mut code = self.pop_operand();
                code.push(Instruction::Push(Register::Rax));
                code.append(&mut right);
                push_combine_code(&mut code, *op);
                self.push_operand(code);
                assert(before.pending.drop_last().drop_last() =~= before.pending.take(depth - 2));
                assert(code@ =~= binary_sequence(
                    *op,
                    before.pending[depth - 2],
                    before.pending[depth - 1],
                ));
            },
            Symbol::Statement(kind) => {
                match kind {
                    StatementType::Return => {
                        if depth < 1 {
                            return Err(InternalConsistencyError::OperandStackUnderflow);
                        }
                        let code = self.pop_operand();
                        write_code(&code, &mut self.buf);
                        self.buf.append("ret\n");
                        assert(before.pending.drop_last() =~= before.pending.take(depth - 1));
                        assert(self@.pending == before.pending.take(depth - 1));
                    },
                }
            },
            Symbol::Program => {},
            Symbol::Function(_) => {},
        }
        Ok(())
    }

    /// Walks `ast` in post-order: its children from left to right, then the
    /// node itself. Stops at the first node that fails.
    pub fn postorder_traversal(&mut self, ast: &AST) -> (result: Result<
        (),
        InternalConsistencyError,
    >)
        ensures
            match traverse(ast@, old(self)@) {
                Ok(state) => result is Ok && final(self)@ == state,
                Err(error) => result == Err::<(), InternalConsistencyError>(error),
            },
        decreases ast,
    {
        let mut index: usize = 0;
        while index < ast.children.len()
            invariant
                index <= ast.children.len(),
                traverse_children(ast@, index as nat, old(self)@) == Ok::<
                    Emission,
                    InternalConsistencyError,
                >(self@),
            decreases ast.children.len() - index,
        {
            let child = &ast.children[index];
            proof {
                ast.lemma_view();
            }
            match self.postorder_traversal(child) {
                Ok(()) => {},
                Err(error) => {
                    proof {
                        lemma_traverse_children_fails(
                            ast@,
                            (index + 1) as nat,
                            ast@.children.len(),
                            old(self)@,
                        );
                    }
                    return Err(error);
                },
            }
            index += 1;
        }
        self.visit_node(ast)
    }

    /// Writes the assembly of the program `ast` after what this generator has
    /// written: for each function its label and the walk of its subtree.
    pub fn generate(self, ast: &AST) -> (result: Result<String, InternalConsistencyError>)
        ensures
            match generated_from(ast@, self@) {
                Ok(text) => result is Ok && result->Ok_0@ == text,
                Err(error) => result == Err::<String, InternalConsistencyError>(error),
            },
    {
        proof {
            ast.lemma_view();
        }
        match &ast.symbol {
            Symbol::Program => {},
            _ => {
                return Err(InternalConsistencyError::RootNotProgram);
            },
        }
        let mut generator = self;
        let mut fun_index: usize = 0;
        while fun_index < ast.children.len()
            invariant
                fun_index <= ast.children.len(),
                ast@.tag == Tag::Program,
                emit_functions(ast@, fun_index as nat, self@) == Ok::<
                    Emission,
                    InternalConsistencyError,
                >(generator@),
            decreases ast.children.len() - fun_index,
        {
            let current_fun_node = &ast.children[fun_index];
            proof {
                ast.lemma_view();
                current_fun_node.lemma_view();
                lemma_emit_functions_fails(
                    ast@,
                    (fun_index + 1) as nat,
                    ast@.children.len(),
                    self@,
                );
            }
            let ghost before = generator@;
            match &current_fun_node.symbol {
                Symbol::Function(fun_name) => {
                    generator.buf.append(".globl ");
                    generator.buf.append(fun_name.as_str());
                    generator.buf.append("\n");
                    generator.buf.append(fun_name.as_str());
                    generator.buf.append(":\n");
                    assert(generator@.text =~= before.text + label_text(fun_name@));
                    assert(generator@.pending =~= before.pending);
                },
                _ => {
                    assert(emit_functions(ast@, (fun_index + 1) as nat, self@) == Err::<
                        Emission,
                        InternalConsistencyError,
                    >(InternalConsistencyError::NotAFunction));
                    return Err(InternalConsistencyError::NotAFunction);
                },
            }
            match generator.postorder_traversal(current_fun_node) {
                Ok(()) => {},
                Err(error) => {
                    return Err(error);
                },
            }
            fun_index += 1;
        }
        Ok(generator.buf)
    }
}

/// Once the walk of the children has failed, it stays failed.
proof fn lemma_traverse_children_fails(tree: Tree, failed: nat, count: nat, state: Emission)
    requires
        1 <= failed <= count <= tree.children.len(),
        traverse_children(tree, failed, state) is Err,
    ensures
        traverse_children(tree, count, state) == traverse_children(tree, failed, state),
    decreases count,
{
    if failed < count {
        lemma_traverse_children_fails(tree, failed, (count - 1) as nat, state);
    }
}

/// Once the emission of the functions has failed, it stays failed.
proof fn lemma_emit_functions_fails(program: Tree, failed: nat, count: nat, state: Emission)
    requires
        1 <= failed <= count <= program.children.len(),
    ensures
        emit_functions(program, failed, state) is Err ==> emit_functions(program, count, state)
            == emit_functions(program, failed, state),
    decreases count,
{
    if failed < count {
        lemma_emit_functions_fails(program, failed, (count - 1) as nat, state);
    }
}

/// Generates the assembly text of a program tree.
pub fn generate(ast: AST) -> (result: Result<String, InternalConsistencyError>)
    ensures
        match generated_text(ast@) {
            Ok(text) => result is Ok && result->Ok_0@ == text,
            Err(error) => result == Err::<String, InternalConsistencyError>(error),
        },
{
    let generator = Generator::new();
    generator.generate(&ast)
}

} // verus!
