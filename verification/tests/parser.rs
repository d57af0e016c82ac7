use cc::grammar::Required;
use cc::lexer::lex;
use cc::parser::{parse, Parser};
use cc::{BinaryOperator, Keyword, StatementType, Symbol, SyntaxError, Token, UnaryOperator, AST};

fn constant(value: usize) -> AST {
    AST::leaf(Symbol::Constant(value))
}

fn unary(op: UnaryOperator, operand: AST) -> AST {
    AST::with_child(Symbol::UnaryOperator(op), operand)
}

fn binary(op: BinaryOperator, left: AST, right: AST) -> AST {
    AST::with_children(Symbol::BinaryOperator(op), left, right)
}

fn program(name: &str, expression: AST) -> AST {
    let statement = AST::with_child(Symbol::Statement(StatementType::Return), expression);
    let function = AST::with_child(Symbol::Function(String::from(name)), statement);
    AST::with_child(Symbol::Program, function)
}

fn parse_text(source: &str) -> Result<AST, SyntaxError> {
    parse(lex(String::from(source)).unwrap())
}

fn parse_expression(expression: &str) -> AST {
    let source = format!("int main() {{ return {}; }}", expression);
    let tree = parse_text(&source).unwrap();
    let AST { symbol, mut children } = tree;
    assert_eq!(symbol, Symbol::Program);
    assert_eq!(children.len(), 1);
    let AST { symbol, mut children } = children.remove(0);
    assert_eq!(symbol, Symbol::Function(String::from("main")));
    assert_eq!(children.len(), 1);
    let AST { symbol, mut children } = children.remove(0);
    assert_eq!(symbol, Symbol::Statement(StatementType::Return));
    assert_eq!(children.len(), 1);
    children.remove(0)
}

#[test]
fn parses_a_whole_function() {
    assert_eq!(
        parse_text("int main() { return 2; }"),
        Ok(program("main", constant(2)))
    );
}

#[test]
fn parses_tokens_given_by_hand() {
    let tokens = vec![
        Token::Keyword(Keyword::Int),
        Token::Identifier(String::from("f")),
        Token::OpenParen,
        Token::CloseParen,
        Token::OpenBrace,
        Token::Keyword(Keyword::Return),
        Token::NewLine,
        Token::IntegerLiteral(7),
        Token::Semicolon,
        Token::CloseBrace,
    ];
    assert_eq!(parse(tokens), Ok(program("f", constant(7))));
}

#[test]
fn node_constructors_agree_with_new() {
    assert_eq!(constant(3), AST::new(Symbol::Constant(3), vec![]));
    assert_eq!(
        unary(UnaryOperator::Negation, constant(3)),
        AST::new(
            Symbol::UnaryOperator(UnaryOperator::Negation),
            vec![AST::new(Symbol::Constant(3), vec![])]
        )
    );
    assert_eq!(
        binary(BinaryOperator::Addition, constant(1), constant(2)),
        AST::new(
            Symbol::BinaryOperator(BinaryOperator::Addition),
            vec![
                AST::new(Symbol::Constant(1), vec![]),
                AST::new(Symbol::Constant(2), vec![])
            ]
        )
    );
}

#[test]
fn whitespace_is_skipped_before_every_token() {
    assert_eq!(
        parse_text("\n int \n main \n ( \n ) \n { \n return \n 2 \n ; \n } \n"),
        Ok(program("main", constant(2)))
    );
    assert_eq!(
        parse_text("int main(){return 2;}"),
        Ok(program("main", constant(2)))
    );
}

#[test]
fn token_after_the_function_is_a_syntax_error() {
    assert_eq!(
        parse_text("int main() { return 2; } int ) 5"),
        Err(SyntaxError::TrailingToken)
    );
    assert_eq!(
        parse_text("int main() { return 1; } }"),
        Err(SyntaxError::TrailingToken)
    );
    assert_eq!(
        parse_text("int main() { return 1; };"),
        Err(SyntaxError::TrailingToken)
    );
    assert_eq!(
        parse_text("int one() { return 1; } int two() { return 2; }"),
        Err(SyntaxError::TrailingToken)
    );
}

#[test]
fn one_closing_brace_too_many_is_a_syntax_error() {
    let tokens = vec![
        Token::Keyword(Keyword::Int),
        Token::Identifier(String::from("main")),
        Token::OpenParen,
        Token::CloseParen,
        Token::OpenBrace,
        Token::Keyword(Keyword::Return),
        Token::Space,
        Token::IntegerLiteral(1),
        Token::Semicolon,
        Token::CloseBrace,
        Token::CloseBrace,
    ];
    assert_eq!(parse(tokens), Err(SyntaxError::TrailingToken));
}

#[test]
fn whitespace_may_follow_the_function() {
    assert_eq!(
        parse_text("int main() { return 2; }  \n \r\n"),
        Ok(program("main", constant(2)))
    );
}

#[test]
fn parser_tells_when_only_whitespace_is_left() {
    let mut parser = Parser::new(lex(String::from("int main() { return 2; } \n ;")).unwrap());
    assert!(!parser.at_end());
    assert_eq!(parser.parse(), Ok(program("main", constant(2))));
    assert!(!parser.at_end());
    assert_eq!(parser.next_token(), Ok(Token::Semicolon));
    assert!(parser.at_end());
    assert!(Parser::new(vec![]).at_end());
    assert!(Parser::new(vec![Token::Space, Token::NewLine]).at_end());
}

#[test]
fn factor_reads_double_negation() {
    let mut parser = Parser::new(vec![
        Token::Minus,
        Token::Minus,
        Token::IntegerLiteral(5),
        Token::Semicolon,
    ]);
    assert_eq!(
        parser.parse_factor(),
        Ok(unary(
            UnaryOperator::Negation,
            unary(UnaryOperator::Negation, constant(5))
        ))
    );
    assert_eq!(parser.next_token(), Ok(Token::Semicolon));
    assert!(parser.at_end());
}

#[test]
fn additive_level_folds_left_and_leaves_what_follows() {
    let mut parser = Parser::new(lex(String::from("1 - 2 * 3 + 4 - 5   < 6")).unwrap());
    assert_eq!(
        parser.parse_additive_expression(),
        Ok(binary(
            BinaryOperator::Subtraction,
            binary(
                BinaryOperator::Addition,
                binary(
                    BinaryOperator::Subtraction,
                    constant(1),
                    binary(BinaryOperator::Multiplication, constant(2), constant(3))
                ),
                constant(4)
            ),
            constant(5)
        ))
    );
    assert!(parser.next_is_space());
    assert_eq!(parser.peek(), Some(&Token::LessThan));
    assert_eq!(parser.next_token(), Ok(Token::LessThan));
    assert_eq!(parser.parse_additive_expression(), Ok(constant(6)));
    assert!(parser.at_end());
}

#[test]
fn single_operand_has_no_wrapper_node() {
    let mut parser = Parser::new(lex(String::from("7 ;")).unwrap());
    assert_eq!(parser.parse_expression(), Ok(constant(7)));
    assert!(parser.next_is_space());
    let mut parser = Parser::new(lex(String::from("7")).unwrap());
    assert_eq!(parser.parse_term(), Ok(constant(7)));
    assert!(!parser.next_is_space());
    assert_eq!(parser.peek(), None);
}

#[test]
fn each_level_parses_its_own_operators() {
    let mut parser = Parser::new(lex(String::from("1 * 2 + 3")).unwrap());
    assert_eq!(
        parser.parse_term(),
        Ok(binary(BinaryOperator::Multiplication, constant(1), constant(2)))
    );
    assert_eq!(parser.peek(), Some(&Token::Addition));
    let mut parser = Parser::new(lex(String::from("1 < 2 == 3")).unwrap());
    assert_eq!(
        parser.parse_relational_expression(),
        Ok(binary(BinaryOperator::LessThan, constant(1), constant(2)))
    );
    assert_eq!(parser.peek(), Some(&Token::Equal));
    let mut parser = Parser::new(lex(String::from("1 == 2 && 3")).unwrap());
    assert_eq!(
        parser.parse_equality_expression(),
        Ok(binary(BinaryOperator::Equal, constant(1), constant(2)))
    );
    assert_eq!(parser.peek(), Some(&Token::LogicalAnd));
    let mut parser = Parser::new(lex(String::from("1 && 2 || 3")).unwrap());
    assert_eq!(
        parser.parse_logical_and_expression(),
        Ok(binary(BinaryOperator::LogicalAnd, constant(1), constant(2)))
    );
    assert_eq!(parser.peek(), Some(&Token::LogicalOr));
}

#[test]
fn statement_and_function_rules_parse_alone() {
    let mut parser = Parser::new(lex(String::from(" return 3 ; }")).unwrap());
    assert_eq!(
        parser.parse_statement(),
        Ok(AST::with_child(
            Symbol::Statement(StatementType::Return),
            constant(3)
        ))
    );
    assert_eq!(parser.peek(), Some(&Token::CloseBrace));
    let mut parser = Parser::new(lex(String::from("int f() { return 3; } x")).unwrap());
    assert_eq!(
        parser.parse_function(),
        Ok(AST::with_child(
            Symbol::Function(String::from("f")),
            AST::with_child(Symbol::Statement(StatementType::Return), constant(3))
        ))
    );
    assert_eq!(parser.peek(), Some(&Token::Identifier(String::from("x"))));
    let mut parser = Parser::new(lex(String::from("int f() { return 3; }")).unwrap());
    assert_eq!(parser.parse_program(), Ok(program("f", constant(3))));
    assert!(parser.at_end());
}

#[test]
fn multiplication_binds_tighter_than_addition() {
    assert_eq!(
        parse_expression("2 + 3 * 4"),
        binary(
            BinaryOperator::Addition,
            constant(2),
            binary(BinaryOperator::Multiplication, constant(3), constant(4))
        )
    );
    assert_eq!(
        parse_expression("2 * 3 + 4"),
        binary(
            BinaryOperator::Addition,
            binary(BinaryOperator::Multiplication, constant(2), constant(3)),
            constant(4)
        )
    );
}

#[test]
fn parentheses_group_without_a_node() {
    assert_eq!(
        parse_expression("(2 + 3) * 4"),
        binary(
            BinaryOperator::Multiplication,
            binary(BinaryOperator::Addition, constant(2), constant(3)),
            constant(4)
        )
    );
    assert_eq!(parse_expression("(((7)))"), constant(7));
    assert_eq!(
        parse_expression("8 - (4 - 2)"),
        binary(
            BinaryOperator::Subtraction,
            constant(8),
            binary(BinaryOperator::Subtraction, constant(4), constant(2))
        )
    );
}

#[test]
fn subtraction_is_left_associative() {
    assert_eq!(
        parse_expression("8 - 4 - 2"),
        binary(
            BinaryOperator::Subtraction,
            binary(BinaryOperator::Subtraction, constant(8), constant(4)),
            constant(2)
        )
    );
}

#[test]
fn additive_chain_of_four_is_left_associative() {
    assert_eq!(
        parse_expression("1 - 2 + 3 - 4"),
        binary(
            BinaryOperator::Subtraction,
            binary(
                BinaryOperator::Addition,
                binary(BinaryOperator::Subtraction, constant(1), constant(2)),
                constant(3)
            ),
            constant(4)
        )
    );
}

#[test]
fn multiplicative_chain_is_left_associative() {
    assert_eq!(
        parse_expression("8 / 4 * 2"),
        binary(
            BinaryOperator::Multiplication,
            binary(BinaryOperator::Division, constant(8), constant(4)),
            constant(2)
        )
    );
}

#[test]
fn relational_chain_is_left_associative() {
    assert_eq!(
        parse_expression("1 < 2 <= 3 > 4 >= 5"),
        binary(
            BinaryOperator::GreaterThanOrEqual,
            binary(
                BinaryOperator::GreaterThan,
                binary(
                    BinaryOperator::LessThanOrEqual,
                    binary(BinaryOperator::LessThan, constant(1), constant(2)),
                    constant(3)
                ),
                constant(4)
            ),
            constant(5)
        )
    );
}

#[test]
fn equality_chain_is_left_associative() {
    assert_eq!(
        parse_expression("1 == 2 != 3"),
        binary(
            BinaryOperator::NotEqual,
            binary(BinaryOperator::Equal, constant(1), constant(2)),
            constant(3)
        )
    );
}

#[test]
fn logical_and_chain_is_left_associative() {
    assert_eq!(
        parse_expression("1 && 2 && 3"),
        binary(
            BinaryOperator::LogicalAnd,
            binary(BinaryOperator::LogicalAnd, constant(1), constant(2)),
            constant(3)
        )
    );
}

#[test]
fn logical_or_chain_is_left_associative() {
    assert_eq!(
        parse_expression("1 || 2 || 3"),
        binary(
            BinaryOperator::LogicalOr,
            binary(BinaryOperator::LogicalOr, constant(1), constant(2)),
            constant(3)
        )
    );
}

#[test]
fn every_level_binds_tighter_than_the_one_above() {
    assert_eq!(
        parse_expression("1 || 2 && 3 == 4 < 5 + 6 * 7"),
        binary(
            BinaryOperator::LogicalOr,
            constant(1),
            binary(
                BinaryOperator::LogicalAnd,
                constant(2),
                binary(
                    BinaryOperator::Equal,
                    constant(3),
                    binary(
                        BinaryOperator::LessThan,
                        constant(4),
                        binary(
                            BinaryOperator::Addition,
                            constant(5),
                            binary(BinaryOperator::Multiplication, constant(6), constant(7))
                        )
                    )
                )
            )
        )
    );
    assert_eq!(
        parse_expression("1 * 2 + 3 < 4 == 5 && 6 || 7"),
        binary(
            BinaryOperator::LogicalOr,
            binary(
                BinaryOperator::LogicalAnd,
                binary(
                    BinaryOperator::Equal,
                    binary(
                        BinaryOperator::LessThan,
                        binary(
                            BinaryOperator::Addition,
                            binary(BinaryOperator::Multiplication, constant(1), constant(2)),
                            constant(3)
                        ),
                        constant(4)
                    ),
                    constant(5)
                ),
                constant(6)
            ),
            constant(7)
        )
    );
}

#[test]
fn prefix_operators_chain() {
    assert_eq!(
        parse_expression("!!0"),
        unary(
            UnaryOperator::LogicalNegation,
            unary(UnaryOperator::LogicalNegation, constant(0))
        )
    );
    assert_eq!(
        parse_expression("~~5"),
        unary(
            UnaryOperator::BitwiseComplement,
            unary(UnaryOperator::BitwiseComplement, constant(5))
        )
    );
    assert_eq!(
        parse_expression("--5"),
        unary(
            UnaryOperator::Negation,
            unary(UnaryOperator::Negation, constant(5))
        )
    );
    assert_eq!(
        parse_expression("-~!1"),
        unary(
            UnaryOperator::Negation,
            unary(
                UnaryOperator::BitwiseComplement,
                unary(UnaryOperator::LogicalNegation, constant(1))
            )
        )
    );
}

#[test]
fn prefix_operator_binds_tighter_than_any_infix() {
    assert_eq!(
        parse_expression("-2 * 3"),
        binary(
            BinaryOperator::Multiplication,
            unary(UnaryOperator::Negation, constant(2)),
            constant(3)
        )
    );
    assert_eq!(
        parse_expression("2 - -3"),
        binary(
            BinaryOperator::Subtraction,
            constant(2),
            unary(UnaryOperator::Negation, constant(3))
        )
    );
    assert_eq!(
        parse_expression("!(1 + 2)"),
        unary(
            UnaryOperator::LogicalNegation,
            binary(BinaryOperator::Addition, constant(1), constant(2))
        )
    );
}

#[test]
fn missing_closing_brace_is_a_syntax_error() {
    assert_eq!(
        parse_text("int main() { return 2;"),
        Err(SyntaxError::UnexpectedEndOfInput)
    );
    assert_eq!(
        parse_text("int main() { return 2; )"),
        Err(SyntaxError::Expected(Required::CloseBrace))
    );
}

#[test]
fn missing_semicolon_is_a_syntax_error() {
    assert_eq!(
        parse_text("int main() { return 2 }"),
        Err(SyntaxError::Expected(Required::Semicolon))
    );
}

#[test]
fn unknown_leading_token_of_an_expression_is_a_syntax_error() {
    assert_eq!(
        parse_text("int main() { return ; }"),
        Err(SyntaxError::InvalidFactor)
    );
    assert_eq!(
        parse_text("int main() { return +2; }"),
        Err(SyntaxError::InvalidFactor)
    );
    assert_eq!(
        parse_text("int main() { return 2 * / 3; }"),
        Err(SyntaxError::InvalidFactor)
    );
    assert_eq!(
        parse_text("int main() { return x; }"),
        Err(SyntaxError::InvalidFactor)
    );
    assert_eq!(
        parse_text("int main() { return 1 & 2; }"),
        Err(SyntaxError::Expected(Required::Semicolon))
    );
}

#[test]
fn return_needs_whitespace_after_it() {
    assert_eq!(
        parse_text("int main() { return2; }"),
        Err(SyntaxError::MissingWhitespace)
    );
    assert_eq!(
        parse_text("int main() { return(2); }"),
        Err(SyntaxError::MissingWhitespace)
    );
    assert_eq!(
        parse_text("int main() { return"),
        Err(SyntaxError::MissingWhitespace)
    );
    assert_eq!(
        parse_text("int main() { return\n(2); }"),
        Ok(program("main", constant(2)))
    );
}

#[test]
fn each_required_token_is_asked_for() {
    assert_eq!(
        parse_text("main() { return 2; }"),
        Err(SyntaxError::Expected(Required::Int))
    );
    assert_eq!(
        parse_text("int () { return 2; }"),
        Err(SyntaxError::Expected(Required::Identifier))
    );
    assert_eq!(
        parse_text("int int() { return 2; }"),
        Err(SyntaxError::Expected(Required::Identifier))
    );
    assert_eq!(
        parse_text("int main) { return 2; }"),
        Err(SyntaxError::Expected(Required::OpenParen))
    );
    assert_eq!(
        parse_text("int main( { return 2; }"),
        Err(SyntaxError::Expected(Required::CloseParen))
    );
    assert_eq!(
        parse_text("int main() return 2; }"),
        Err(SyntaxError::Expected(Required::OpenBrace))
    );
    assert_eq!(
        parse_text("int main() { 2; }"),
        Err(SyntaxError::Expected(Required::Return))
    );
    assert_eq!(
        parse_text("int main() { return 2; 3 }"),
        Err(SyntaxError::Expected(Required::CloseBrace))
    );
}

#[test]
fn end_of_input_where_a_token_is_required() {
    assert_eq!(parse_text(""), Err(SyntaxError::UnexpectedEndOfInput));
    assert_eq!(parse_text("  \n "), Err(SyntaxError::UnexpectedEndOfInput));
    assert_eq!(parse_text("int"), Err(SyntaxError::UnexpectedEndOfInput));
    assert_eq!(parse_text("int main"), Err(SyntaxError::UnexpectedEndOfInput));
    assert_eq!(parse_text("int main("), Err(SyntaxError::UnexpectedEndOfInput));
    assert_eq!(parse_text("int main()"), Err(SyntaxError::UnexpectedEndOfInput));
    assert_eq!(parse_text("int main() {"), Err(SyntaxError::UnexpectedEndOfInput));
    assert_eq!(
        parse_text("int main() { return "),
        Err(SyntaxError::UnexpectedEndOfInput)
    );
    assert_eq!(
        parse_text("int main() { return 2"),
        Err(SyntaxError::UnexpectedEndOfInput)
    );
    assert_eq!(
        parse_text("int main() { return 2 +"),
        Err(SyntaxError::UnexpectedEndOfInput)
    );
    assert_eq!(
        parse_text("int main() { return -"),
        Err(SyntaxError::UnexpectedEndOfInput)
    );
}

#[test]
fn mismatched_parentheses_are_a_syntax_error() {
    assert_eq!(
        parse_text("int main() { return (2; }"),
        Err(SyntaxError::Expected(Required::CloseParen))
    );
    assert_eq!(
        parse_text("int main() { return (2"),
        Err(SyntaxError::UnexpectedEndOfInput)
    );
    assert_eq!(
        parse_text("int main() { return 2); }"),
        Err(SyntaxError::Expected(Required::Semicolon))
    );
    assert_eq!(
        parse_text("int main() { return (); }"),
        Err(SyntaxError::InvalidFactor)
    );
}

#[test]
fn parser_struct_parses_like_the_free_function() {
    let source = "int main() { return 1 + 2 * 3; }";
    let mut parser = Parser::new(lex(String::from(source)).unwrap());
    assert_eq!(parser.parse(), parse_text(source));
}

#[test]
fn parser_goes_on_after_a_function() {
    let source = "int one() { return 1; } int two() { return 2; }";
    let mut parser = Parser::new(lex(String::from(source)).unwrap());
    assert_eq!(parser.parse(), Ok(program("one", constant(1))));
    assert_eq!(parser.parse(), Ok(program("two", constant(2))));
    assert_eq!(parser.parse(), Err(SyntaxError::UnexpectedEndOfInput));
}

#[test]
fn copy_of_a_tree_equals_the_tree() {
    let tree = parse_text("int main() { return -(1 + 2) * !3 <= 4; }").unwrap();
    assert_eq!(tree.duplicate(), tree);
    assert_eq!(tree.clone(), tree);
    assert_eq!(tree.symbol.clone(), Symbol::Program);
    assert_eq!(
        Symbol::Function(String::from("f")).duplicate(),
        Symbol::Function(String::from("f"))
    );
    assert_eq!(Token::Identifier(String::from("f")).clone(), Token::Identifier(String::from("f")));
}
