use cc::generator::{generate, Generator};
use cc::instruction::{append_decimal, write_code, Comma, Condition, Instruction, Register};
use cc::{BinaryOperator, InternalConsistencyError, StatementType, Symbol, UnaryOperator, AST};

fn constant(value: usize) -> AST {
    AST::leaf(Symbol::Constant(value))
}

fn unary(op: UnaryOperator, operand: AST) -> AST {
    AST::with_child(Symbol::UnaryOperator(op), operand)
}

fn binary(op: BinaryOperator, left: AST, right: AST) -> AST {
    AST::with_children(Symbol::BinaryOperator(op), left, right)
}

fn function(name: &str, expression: AST) -> AST {
    let statement = AST::with_child(Symbol::Statement(StatementType::Return), expression);
    AST::with_child(Symbol::Function(String::from(name)), statement)
}

fn program(name: &str, expression: AST) -> AST {
    AST::with_child(Symbol::Program, function(name, expression))
}

fn body_of(expression: AST) -> String {
    let text = generate(program("main", expression)).unwrap();
    let head = ".globl main\nmain:\n";
    let tail = "ret\n";
    assert!(text.starts_with(head));
    assert!(text.ends_with(tail));
    String::from(&text[head.len()..text.len() - tail.len()])
}

fn binary_text(op: BinaryOperator) -> String {
    body_of(binary(op, constant(6), constant(3)))
}

#[test]
fn function_has_directive_label_and_return() {
    assert_eq!(
        generate(program("main", constant(2))),
        Ok(String::from(".globl main\nmain:\nmovq $2, %rax\nret\n"))
    );
    assert_eq!(
        generate(program("f", constant(0))),
        Ok(String::from(".globl f\nf:\nmovq $0, %rax\nret\n"))
    );
}

#[test]
fn constant_loads_its_value() {
    assert_eq!(body_of(constant(0)), "movq $0, %rax\n");
    assert_eq!(body_of(constant(10)), "movq $10, %rax\n");
    assert_eq!(body_of(constant(1234567890)), "movq $1234567890, %rax\n");
    assert_eq!(
        body_of(constant(usize::MAX)),
        format!("movq ${}, %rax\n", usize::MAX)
    );
}

#[test]
fn negation_follows_its_operand() {
    assert_eq!(
        body_of(unary(UnaryOperator::Negation, constant(5))),
        "movq $5, %rax\nneg %rax\n"
    );
}

#[test]
fn complement_follows_its_operand() {
    assert_eq!(
        body_of(unary(UnaryOperator::BitwiseComplement, constant(5))),
        "movq $5, %rax\nnot %rax\n"
    );
}

#[test]
fn logical_negation_sets_one_or_zero() {
    assert_eq!(
        body_of(unary(UnaryOperator::LogicalNegation, constant(5))),
        "movq $5, %rax\ncmpq $0, %rax\nmovq $0, %rax\nsete %al\n"
    );
}

#[test]
fn addition_saves_left_then_adds() {
    assert_eq!(
        binary_text(BinaryOperator::Addition),
        "movq $6, %rax\npush %rax\nmovq $3, %rax\npop %rbx\naddq %rbx, %rax\n"
    );
}

#[test]
fn multiplication_saves_left_then_multiplies() {
    assert_eq!(
        binary_text(BinaryOperator::Multiplication),
        "movq $6, %rax\npush %rax\nmovq $3, %rax\npop %rbx\nimul %rbx, %rax\n"
    );
}

#[test]
fn subtraction_takes_right_from_left() {
    assert_eq!(
        binary_text(BinaryOperator::Subtraction),
        "movq $6, %rax\npush %rax\nmovq $3, %rax\npop %rbx\nsubq %rax, %rbx\nmovq %rbx, %rax\n"
    );
}

#[test]
fn division_sign_extends_the_left_operand() {
    assert_eq!(
        binary_text(BinaryOperator::Division),
        "movq $6, %rax\npush %rax\nmovq $3, %rax\npop %rbx\nmovq %rax, %rcx\nmovq %rbx, %rax\ncqto\nidivq %rcx\n"
    );
}

#[test]
fn comparisons_compare_left_with_right() {
    let head = "movq $6, %rax\npush %rax\nmovq $3, %rax\npop %rdx\ncmpq %rax,%rdx\nmovq $0,%rax\n";
    assert_eq!(
        binary_text(BinaryOperator::Equal),
        format!("{}sete %al\n", head)
    );
    assert_eq!(
        binary_text(BinaryOperator::NotEqual),
        format!("{}setne %al\n", head)
    );
    assert_eq!(
        binary_text(BinaryOperator::LessThan),
        format!("{}setl %al\n", head)
    );
    assert_eq!(
        binary_text(BinaryOperator::LessThanOrEqual),
        format!("{}setle %al\n", head)
    );
    assert_eq!(
        binary_text(BinaryOperator::GreaterThan),
        format!("{}setg %al\n", head)
    );
    assert_eq!(
        binary_text(BinaryOperator::GreaterThanOrEqual),
        format!("{}setge %al\n", head)
    );
}

#[test]
fn logical_or_tests_the_union_of_bits() {
    assert_eq!(
        binary_text(BinaryOperator::LogicalOr),
        "movq $6, %rax\npush %rax\nmovq $3, %rax\npop %rdx\norq %rax,%rdx\nmovq $0,%rax\nsetne %al\n"
    );
}

#[test]
fn less_than_over_one_and_zero() {
    let mut generator = Generator::new();
    assert_eq!(generator.visit_node(&constant(1)), Ok(()));
    assert_eq!(generator.visit_node(&constant(0)), Ok(()));
    let node = binary(BinaryOperator::LessThan, constant(1), constant(0));
    assert_eq!(generator.visit_node(&node), Ok(()));
    assert_eq!(
        generator.visit_node(&AST::leaf(Symbol::Statement(StatementType::Return))),
        Ok(())
    );
    assert_eq!(
        generator.generate(&AST::leaf(Symbol::Program)),
        Ok(String::from(
            "movq $1, %rax\npush %rax\nmovq $0, %rax\npop %rdx\ncmpq %rax,%rdx\nmovq $0,%rax\nsetl %al\nret\n"
        ))
    );
}

#[test]
fn negative_left_operand_is_compared_as_signed() {
    let tree = binary(
        BinaryOperator::LessThan,
        unary(UnaryOperator::Negation, constant(1)),
        constant(0),
    );
    assert_eq!(
        generate(program("main", tree)),
        Ok(String::from(
            ".globl main\nmain:\nmovq $1, %rax\nneg %rax\npush %rax\nmovq $0, %rax\npop %rdx\ncmpq %rax,%rdx\nmovq $0,%rax\nsetl %al\nret\n"
        ))
    );
}

#[test]
fn logical_and_tests_both_operands() {
    assert_eq!(
        binary_text(BinaryOperator::LogicalAnd),
        "movq $6, %rax\npush %rax\nmovq $3, %rax\npop %rdx\ncmpq $0,%rdx\nsetne %cl\ncmpq $0,%rax\nmovq $0,%rax\nsetne %al\n andb %cl, %al\n"
    );
}

#[test]
fn nested_operands_keep_left_before_right() {
    let tree = binary(
        BinaryOperator::Subtraction,
        binary(BinaryOperator::Subtraction, constant(8), constant(4)),
        constant(2),
    );
    assert_eq!(
        body_of(tree),
        "movq $8, %rax\npush %rax\nmovq $4, %rax\npop %rbx\nsubq %rax, %rbx\nmovq %rbx, %rax\n\
push %rax\nmovq $2, %rax\npop %rbx\nsubq %rax, %rbx\nmovq %rbx, %rax\n"
    );
    let tree = binary(
        BinaryOperator::Subtraction,
        constant(8),
        binary(BinaryOperator::Subtraction, constant(4), constant(2)),
    );
    assert_eq!(
        body_of(tree),
        "movq $8, %rax\npush %rax\n\
movq $4, %rax\npush %rax\nmovq $2, %rax\npop %rbx\nsubq %rax, %rbx\nmovq %rbx, %rax\n\
pop %rbx\nsubq %rax, %rbx\nmovq %rbx, %rax\n"
    );
}

#[test]
fn functions_are_written_in_order() {
    let tree = AST::with_children(
        Symbol::Program,
        function("one", constant(1)),
        function("two", constant(2)),
    );
    assert_eq!(
        generate(tree),
        Ok(String::from(
            ".globl one\none:\nmovq $1, %rax\nret\n.globl two\ntwo:\nmovq $2, %rax\nret\n"
        ))
    );
}

#[test]
fn program_without_functions_has_no_text() {
    assert_eq!(generate(AST::leaf(Symbol::Program)), Ok(String::new()));
}

#[test]
fn function_without_statement_has_its_label_only() {
    let tree = AST::with_child(Symbol::Program, AST::leaf(Symbol::Function(String::from("f"))));
    assert_eq!(generate(tree), Ok(String::from(".globl f\nf:\n")));
}

#[test]
fn root_must_be_a_program() {
    assert_eq!(
        generate(function("main", constant(2))),
        Err(InternalConsistencyError::RootNotProgram)
    );
    assert_eq!(
        generate(constant(2)),
        Err(InternalConsistencyError::RootNotProgram)
    );
}

#[test]
fn children_of_the_program_must_be_functions() {
    assert_eq!(
        generate(AST::with_child(Symbol::Program, constant(2))),
        Err(InternalConsistencyError::NotAFunction)
    );
    let tree = AST::with_children(
        Symbol::Program,
        function("one", constant(1)),
        AST::leaf(Symbol::Statement(StatementType::Return)),
    );
    assert_eq!(generate(tree), Err(InternalConsistencyError::NotAFunction));
}

#[test]
fn operator_without_operand_underflows() {
    let tree = program("main", AST::leaf(Symbol::UnaryOperator(UnaryOperator::Negation)));
    assert_eq!(
        generate(tree),
        Err(InternalConsistencyError::OperandStackUnderflow)
    );
    let tree = program(
        "main",
        AST::with_child(Symbol::BinaryOperator(BinaryOperator::Addition), constant(1)),
    );
    assert_eq!(
        generate(tree),
        Err(InternalConsistencyError::OperandStackUnderflow)
    );
    let tree = program("main", AST::leaf(Symbol::BinaryOperator(BinaryOperator::Addition)));
    assert_eq!(
        generate(tree),
        Err(InternalConsistencyError::OperandStackUnderflow)
    );
}

#[test]
fn return_without_expression_underflows() {
    let statement = AST::leaf(Symbol::Statement(StatementType::Return));
    let tree = AST::with_child(
        Symbol::Program,
        AST::with_child(Symbol::Function(String::from("main")), statement),
    );
    assert_eq!(
        generate(tree),
        Err(InternalConsistencyError::OperandStackUnderflow)
    );
}

#[test]
fn first_failure_in_program_order_is_reported() {
    let broken = function("one", AST::leaf(Symbol::UnaryOperator(UnaryOperator::Negation)));
    let tree = AST::with_children(Symbol::Program, broken, constant(2));
    assert_eq!(
        generate(tree),
        Err(InternalConsistencyError::OperandStackUnderflow)
    );
}

#[test]
fn visit_of_a_constant_adds_a_pending_operand() {
    let mut generator = Generator::new();
    assert_eq!(generator.visit_node(&constant(4)), Ok(()));
    assert_eq!(
        generator.visit_node(&AST::leaf(Symbol::Statement(StatementType::Return))),
        Ok(())
    );
    assert_eq!(
        generator.generate(&AST::leaf(Symbol::Program)),
        Ok(String::from("movq $4, %rax\nret\n"))
    );
}

#[test]
fn visit_folds_pending_operands_right_on_top() {
    let mut generator = Generator::new();
    assert_eq!(generator.visit_node(&constant(8)), Ok(()));
    assert_eq!(generator.visit_node(&constant(2)), Ok(()));
    assert_eq!(
        generator.visit_node(&AST::leaf(Symbol::BinaryOperator(BinaryOperator::Division))),
        Ok(())
    );
    assert_eq!(
        generator.visit_node(&AST::leaf(Symbol::Statement(StatementType::Return))),
        Ok(())
    );
    assert_eq!(
        generator.generate(&AST::leaf(Symbol::Program)),
        Ok(String::from(
            "movq $8, %rax\npush %rax\nmovq $2, %rax\npop %rbx\nmovq %rax, %rcx\nmovq %rbx, %rax\ncqto\nidivq %rcx\nret\n"
        ))
    );
}

#[test]
fn visit_that_fails_changes_nothing() {
    let mut generator = Generator::new();
    assert_eq!(generator.visit_node(&constant(8)), Ok(()));
    assert_eq!(
        generator.visit_node(&AST::leaf(Symbol::BinaryOperator(BinaryOperator::Addition))),
        Err(InternalConsistencyError::OperandStackUnderflow)
    );
    assert_eq!(
        generator.visit_node(&AST::leaf(Symbol::Statement(StatementType::Return))),
        Ok(())
    );
    assert_eq!(
        generator.visit_node(&AST::leaf(Symbol::Statement(StatementType::Return))),
        Err(InternalConsistencyError::OperandStackUnderflow)
    );
    assert_eq!(
        generator.generate(&AST::leaf(Symbol::Program)),
        Ok(String::from("movq $8, %rax\nret\n"))
    );
}

#[test]
fn visit_of_program_and_function_does_nothing() {
    let mut generator = Generator::new();
    assert_eq!(generator.visit_node(&AST::leaf(Symbol::Program)), Ok(()));
    assert_eq!(
        generator.visit_node(&AST::leaf(Symbol::Function(String::from("f")))),
        Ok(())
    );
    assert_eq!(
        generator.generate(&AST::leaf(Symbol::Program)),
        Ok(String::new())
    );
}

#[test]
fn traversal_visits_children_before_the_node() {
    let mut generator = Generator::new();
    let tree = function(
        "f",
        binary(
            BinaryOperator::Addition,
            constant(2),
            binary(BinaryOperator::Multiplication, constant(3), constant(4)),
        ),
    );
    assert_eq!(generator.postorder_traversal(&tree), Ok(()));
    assert_eq!(
        generator.generate(&AST::leaf(Symbol::Program)),
        Ok(String::from(
            "movq $2, %rax\npush %rax\nmovq $3, %rax\npush %rax\nmovq $4, %rax\npop %rbx\nimul %rbx, %rax\npop %rbx\naddq %rbx, %rax\nret\n"
        ))
    );
}

#[test]
fn extra_child_of_an_operator_stays_pending() {
    let node = AST::new(
        Symbol::UnaryOperator(UnaryOperator::Negation),
        vec![constant(1), constant(2)],
    );
    let mut generator = Generator::new();
    assert_eq!(generator.postorder_traversal(&node), Ok(()));
    let statement = AST::leaf(Symbol::Statement(StatementType::Return));
    assert_eq!(generator.visit_node(&statement), Ok(()));
    assert_eq!(generator.visit_node(&statement), Ok(()));
    assert_eq!(
        generator.generate(&AST::leaf(Symbol::Program)),
        Ok(String::from("movq $2, %rax\nneg %rax\nret\nmovq $1, %rax\nret\n"))
    );
}

#[test]
fn decimal_text_has_no_leading_zeros() {
    let mut text = String::from("x");
    append_decimal(&mut text, 0);
    append_decimal(&mut text, 7);
    append_decimal(&mut text, 10);
    append_decimal(&mut text, 909);
    assert_eq!(text, "x0710909");
    let mut text = String::new();
    append_decimal(&mut text, usize::MAX);
    assert_eq!(text, usize::MAX.to_string());
}

#[test]
fn every_instruction_has_its_line() {
    let code = vec![
        Instruction::MovImm(42, Register::Rcx, Comma::Spaced),
        Instruction::MovImm(7, Register::Rdx, Comma::Tight),
        Instruction::Mov(Register::Rax, Register::Rbx),
        Instruction::Neg(Register::Rdx),
        Instruction::Not(Register::Rbx),
        Instruction::Add(Register::Rcx, Register::Rdx),
        Instruction::Sub(Register::Rdx, Register::Rcx),
        Instruction::Imul(Register::Rax, Register::Rbx),
        Instruction::Or(Register::Rbx, Register::Rax),
        Instruction::CmpZero(Register::Rcx, Comma::Spaced),
        Instruction::CmpZero(Register::Rbx, Comma::Tight),
        Instruction::Cmp(Register::Rbx, Register::Rcx),
        Instruction::SetByte(Condition::Equal, Register::Rax),
        Instruction::SetByte(Condition::NotEqual, Register::Rbx),
        Instruction::SetByte(Condition::Less, Register::Rcx),
        Instruction::SetByte(Condition::LessOrEqual, Register::Rdx),
        Instruction::SetByte(Condition::Greater, Register::Rax),
        Instruction::SetByte(Condition::GreaterOrEqual, Register::Rax),
        Instruction::AndByte(Register::Rdx, Register::Rbx),
        Instruction::Push(Register::Rbx),
        Instruction::Pop(Register::Rcx),
        Instruction::Cqto,
        Instruction::Idiv(Register::Rbx),
    ];
    let mut text = String::new();
    write_code(&code, &mut text);
    assert_eq!(
        text,
        "movq $42, %rcx\nmovq $7,%rdx\nmovq %rax, %rbx\nneg %rdx\nnot %rbx\naddq %rcx, %rdx\n\
subq %rdx, %rcx\nimul %rax, %rbx\norq %rbx,%rax\ncmpq $0, %rcx\ncmpq $0,%rbx\ncmpq %rbx,%rcx\n\
sete %al\nsetne %bl\nsetl %cl\nsetle %dl\nsetg %al\nsetge %al\n andb %dl, %bl\npush %rbx\n\
pop %rcx\ncqto\nidivq %rbx\n"
    );
}

#[test]
fn one_instruction_appends_one_line() {
    let mut text = String::from("# start\n");
    Instruction::Push(Register::Rax).write(&mut text);
    Instruction::Pop(Register::Rdx).write(&mut text);
    assert_eq!(text, "# start\npush %rax\npop %rdx\n");
}

#[test]
fn register_names() {
    assert_eq!(Register::Rax.name(), "rax");
    assert_eq!(Register::Rbx.name(), "rbx");
    assert_eq!(Register::Rcx.name(), "rcx");
    assert_eq!(Register::Rdx.name(), "rdx");
    assert_eq!(Register::Rax.low_name(), "al");
    assert_eq!(Register::Rbx.low_name(), "bl");
    assert_eq!(Register::Rcx.low_name(), "cl");
    assert_eq!(Register::Rdx.low_name(), "dl");
}

#[test]
fn comma_texts() {
    assert_eq!(Comma::Spaced.text(), ", %");
    assert_eq!(Comma::Tight.text(), ",%");
}
