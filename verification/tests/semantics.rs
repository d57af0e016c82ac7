use cc::lexer::lex;
use cc::parser::parse;
use cc::semantics::evaluate;
use cc::{BinaryOperator, StatementType, Symbol, UnaryOperator, AST};

fn constant(value: usize) -> AST {
    AST::leaf(Symbol::Constant(value))
}

fn expression_of(expression: &str) -> AST {
    let source = format!("int main() {{ return {}; }}", expression);
    let tree = parse(lex(source).unwrap()).unwrap();
    let AST { mut children, .. } = tree;
    let AST { mut children, .. } = children.remove(0);
    let AST { mut children, .. } = children.remove(0);
    children.remove(0)
}

fn value_of(expression: &str) -> Option<i64> {
    evaluate(&expression_of(expression))
}

#[test]
fn precedence_decides_the_value() {
    assert_eq!(value_of("2 + 3 * 4"), Some(14));
    assert_eq!(value_of("(2 + 3) * 4"), Some(20));
}

#[test]
fn left_associativity_decides_the_value() {
    assert_eq!(value_of("8 - 4 - 2"), Some(2));
    assert_eq!(value_of("8 - (4 - 2)"), Some(6));
    assert_eq!(value_of("16 / 4 / 2"), Some(2));
    assert_eq!(value_of("16 / (4 / 2)"), Some(8));
    assert_eq!(value_of("1 - 2 + 3"), Some(2));
    assert_eq!(value_of("3 < 2 < 1"), Some(1));
    assert_eq!(value_of("2 == 2 == 2"), Some(0));
    assert_eq!(value_of("2 != 2 != 1"), Some(1));
}

#[test]
fn double_logical_negation_normalises() {
    assert_eq!(value_of("!!0"), Some(0));
    assert_eq!(value_of("!!5"), Some(1));
    assert_eq!(value_of("!0"), Some(1));
    assert_eq!(value_of("!5"), Some(0));
    assert_eq!(value_of("!!-1"), Some(1));
}

#[test]
fn double_complement_is_identity() {
    assert_eq!(value_of("~~5"), Some(5));
    assert_eq!(value_of("~5"), Some(-6));
    assert_eq!(value_of("~0"), Some(-1));
    assert_eq!(value_of("~~0"), Some(0));
}

#[test]
fn double_negation_is_identity() {
    assert_eq!(value_of("--5"), Some(5));
    assert_eq!(value_of("-5"), Some(-5));
    assert_eq!(value_of("-0"), Some(0));
    assert_eq!(value_of("--9223372036854775808"), Some(i64::MIN));
}

#[test]
fn end_to_end_values() {
    assert_eq!(value_of("10 / 5"), Some(2));
    assert_eq!(value_of("1 == 1"), Some(1));
    assert_eq!(value_of("1 < 0"), Some(0));
}

#[test]
fn comparisons_give_exactly_one_or_zero() {
    let operands = ["0", "1", "-1", "7", "-7", "9223372036854775807", "-9223372036854775808"];
    let readings: [i64; 7] = [0, 1, -1, 7, -7, i64::MAX, i64::MIN];
    for (left, a) in operands.iter().zip(readings.iter()) {
        for (right, b) in operands.iter().zip(readings.iter()) {
            assert_eq!(value_of(&format!("{} < {}", left, right)), Some((a < b) as i64));
            assert_eq!(value_of(&format!("{} <= {}", left, right)), Some((a <= b) as i64));
            assert_eq!(value_of(&format!("{} > {}", left, right)), Some((a > b) as i64));
            assert_eq!(value_of(&format!("{} >= {}", left, right)), Some((a >= b) as i64));
            assert_eq!(value_of(&format!("{} == {}", left, right)), Some((a == b) as i64));
            assert_eq!(value_of(&format!("{} != {}", left, right)), Some((a != b) as i64));
        }
    }
}

#[test]
fn logical_operators_give_exactly_one_or_zero() {
    assert_eq!(value_of("0 && 0"), Some(0));
    assert_eq!(value_of("0 && 9"), Some(0));
    assert_eq!(value_of("9 && 0"), Some(0));
    assert_eq!(value_of("9 && 256"), Some(1));
    assert_eq!(value_of("256 && -1"), Some(1));
    assert_eq!(value_of("0 || 0"), Some(0));
    assert_eq!(value_of("0 || 256"), Some(1));
    assert_eq!(value_of("256 || 0"), Some(1));
    assert_eq!(value_of("-1 || -1"), Some(1));
}

#[test]
fn arithmetic_wraps_at_the_machine_word() {
    assert_eq!(value_of("9223372036854775807 + 1"), Some(i64::MIN));
    assert_eq!(value_of("-9223372036854775808 - 1"), Some(i64::MAX));
    assert_eq!(value_of("9223372036854775807 * 2"), Some(-2));
    assert_eq!(value_of("4294967296 * 4294967296"), Some(0));
    assert_eq!(value_of("-9223372036854775808"), Some(i64::MIN));
    assert_eq!(value_of("18446744073709551615"), Some(-1));
    assert_eq!(value_of("9223372036854775808"), Some(i64::MIN));
    assert_eq!(value_of("9223372036854775807"), Some(i64::MAX));
    assert_eq!(value_of("2 - 5"), Some(-3));
    assert_eq!(value_of("3 * -4"), Some(-12));
}

#[test]
fn division_rounds_toward_zero() {
    assert_eq!(value_of("7 / 2"), Some(3));
    assert_eq!(value_of("-7 / 2"), Some(-3));
    assert_eq!(value_of("7 / -2"), Some(-3));
    assert_eq!(value_of("-7 / -2"), Some(3));
    assert_eq!(value_of("0 / 5"), Some(0));
    assert_eq!(value_of("1 / 2"), Some(0));
    assert_eq!(value_of("-9223372036854775808 / 1"), Some(i64::MIN));
    assert_eq!(value_of("-9223372036854775808 / 2"), Some(-4611686018427387904));
}

#[test]
fn division_that_traps_has_no_value() {
    assert_eq!(value_of("1 / 0"), None);
    assert_eq!(value_of("0 / 0"), None);
    assert_eq!(value_of("-9223372036854775808 / -1"), None);
    assert_eq!(value_of("2 + 1 / 0"), None);
    assert_eq!(value_of("0 && 1 / 0"), None);
    assert_eq!(value_of("1 || 1 / 0"), None);
    assert_eq!(value_of("!(1 / 0)"), None);
}

#[test]
fn tree_that_is_no_expression_has_no_value() {
    assert_eq!(evaluate(&AST::leaf(Symbol::Program)), None);
    assert_eq!(
        evaluate(&AST::leaf(Symbol::Statement(StatementType::Return))),
        None
    );
    assert_eq!(
        evaluate(&AST::with_child(Symbol::Constant(1), constant(2))),
        None
    );
    assert_eq!(
        evaluate(&AST::leaf(Symbol::UnaryOperator(UnaryOperator::Negation))),
        None
    );
    assert_eq!(
        evaluate(&AST::with_child(
            Symbol::BinaryOperator(BinaryOperator::Addition),
            constant(1)
        )),
        None
    );
    assert_eq!(
        evaluate(&AST::with_children(
            Symbol::UnaryOperator(UnaryOperator::Negation),
            constant(1),
            constant(2)
        )),
        None
    );
}

#[test]
fn constant_evaluates_to_itself() {
    assert_eq!(evaluate(&constant(0)), Some(0));
    assert_eq!(evaluate(&constant(14)), Some(14));
}
