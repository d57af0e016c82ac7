//! A small compiler for a C-like expression language: one function that
//! returns one expression over integer literals, prefix operators and the
//! usual ladder of infix operators.
//!
//! Source text is turned into tokens ([`lexer`]), tokens into a syntax tree
//! ([`parser`], after the rules in [`grammar`]), and the tree into x86-64
//! assembly in AT&T syntax ([`generator`], over the instructions in
//! [`instruction`]). [`compile`] does the three in turn.
//!
//! What is proved beyond the contracts of these functions:
//!
//! - every tree that the parser gives is a well-formed program
//!   ([`wellformed`]), and the generator cannot fail on one ([`layout`]);
//! - every binary level of the grammar folds its chain of operands to the
//!   left ([`associativity`]);
//! - the code that the generator writes for an expression, run on a model of
//!   the machine ([`machine`]), leaves the value of the expression
//!   ([`semantics`]) in `rax` and the stack as it was ([`correctness`]).

use vstd::prelude::*;

pub mod associativity;
pub mod ast;
pub mod correctness;
pub mod generator;
pub mod grammar;
pub mod instruction;
pub mod layout;
pub mod lexer;
pub mod machine;
pub mod parser;
pub mod semantics;
pub mod token;
pub mod wellformed;

pub use crate::ast::{BinaryOperator, StatementType, Symbol, UnaryOperator, AST};
pub use crate::generator::InternalConsistencyError;
pub use crate::grammar::SyntaxError;
pub use crate::lexer::LexError;
pub use crate::token::{Keyword, Token};

verus! {

/// Why a source text has no assembly.
#[derive(Debug, Clone, Copy, PartialEq, Eq, Structural)]
pub enum CompileError {
    /// A numeric run in the text is no integer literal.
    Lex(LexError),
    /// The tokens of the text do not follow the grammar.
    Syntax(SyntaxError),
}

impl CompileError {
    /// What the error says to a reader.
    pub open spec fn spec_message(self) -> Seq<char> {
        match self {
            CompileError::Lex(error) => error.spec_message(),
            CompileError::Syntax(error) => error.spec_message(),
        }
    }

    /// What the error says to a reader.
    pub fn message(self) -> (text: &'static str)
        ensures
            text@ == self.spec_message(),
    {
        match self {
            CompileError::Lex(error) => error.message(),
            CompileError::Syntax(error) => error.message(),
        }
    }
}

/// The function that a source text declares, or the first reason why it
/// declares none.
pub open spec fn declared_function(source: Seq<char>) -> Result<ast::Tree, CompileError> {
    match lexer::lexed(source) {
        Err(error) => Err(CompileError::Lex(error)),
        Ok(tokens) => match grammar::parsed(tokens) {
            Err(error) => Err(CompileError::Syntax(error)),
            Ok(program) => Ok(program.children[0]),
        },
    }
}

/// The assembly text of a source text, or the first reason why it has
/// none: the text of the function that the source declares.
pub open spec fn compiled(source: Seq<char>) -> Result<Seq<char>, CompileError> {
    match declared_function(source) {
        Err(error) => Err(error),
        Ok(function) => Ok(layout::function_text(function)),
    }
}

/// Whether `result` is what compiling `source` gives: the assembly text of
/// the source, or the first reason why it has none.
pub open spec fn is_compilation(source: Seq<char>, result: Result<String, CompileError>) -> bool {
    match compiled(source) {
        Ok(text) => result is Ok && result->Ok_0@ == text,
        Err(error) => result == Err::<String, CompileError>(error),
    }
}

/// Compiles a source text to assembly: lexes, parses and generates. The
/// result is a function of the text alone. On an error there is no
/// assembly. The generator cannot fail on a tree that the parser gave.
pub fn compile(source: String) -> (result: Result<String, CompileError>)
    ensures
        is_compilation(source@, result),
{
    let tokens = match lexer::lex(source) {
        Ok(tokens) => tokens,
        Err(error) => {
            return Err(CompileError::Lex(error));
        },
    };
    let ghost token_views = token::token_views(tokens@);
    let ast = match parser::parse(tokens) {
        Ok(ast) => ast,
        Err(error) => {
            return Err(CompileError::Syntax(error));
        },
    };
    proof {
        wellformed::lemma_parsed_is_program(token_views);
        layout::lemma_generated_text(ast@);
        reveal_with_fuel(layout::program_text, 2);
        assert(layout::program_text(ast@, 1) =~= layout::function_text(ast@.children[0]));
    }
    match generator::generate(ast) {
        Ok(text) => Ok(text),
        Err(_) => vstd::pervasive::unreached(),
    }
}

/// Compiling is deterministic: two compilations of one source text end
/// alike, with the same assembly text, character for character, or with the
/// same error.
pub proof fn lemma_compilation_is_unique(
    source: Seq<char>,
    first: Result<String, CompileError>,
    second: Result<String, CompileError>,
)
    requires
        is_compilation(source, first),
        is_compilation(source, second),
    ensures
        match (first, second) {
            (Ok(one), Ok(other)) => one@ == other@,
            (Err(one), Err(other)) => one == other,
            _ => false,
        },
{
}

/// A source text whose tokens break the grammar has no assembly: compiling
/// it gives the syntax error.
pub proof fn lemma_syntax_error_gives_no_assembly(
    source: Seq<char>,
    result: Result<String, CompileError>,
)
    requires
        is_compilation(source, result),
        lexer::lexed(source) matches Ok(tokens) && grammar::parsed(tokens) is Err,
    ensures
        result matches Err(CompileError::Syntax(error)) && grammar::parsed(
            lexer::lexed(source)->Ok_0,
        ) == Err::<ast::Tree, SyntaxError>(error),
{
}

/// The assembly of a source text that compiles is the label of its
/// function, the code of the expression that the function returns, and
/// `ret`; and that code, run from any state of the machine, leaves the value
/// of the expression in `rax` and the stack as it was, or has no outcome
/// where the expression has no value.
pub proof fn lemma_compiled_code_computes(source: Seq<char>, machine: machine::Machine)
    ensures
        declared_function(source) matches Ok(function) ==> {
            let expression = layout::returned_expression(function);
            let code = layout::expression_code(expression);
            &&& compiled(source) == Ok::<Seq<char>, CompileError>(
                generator::label_text(layout::function_name(function)) + instruction::code_text(
                    code,
                ) + "ret\n"@,
            )
            &&& correctness::computes(
                semantics::value_of(expression),
                machine,
                machine::run(code, machine),
            )
        },
{
    if let Ok(tokens) = lexer::lexed(source) {
        wellformed::lemma_parsed_is_program(tokens);
        if let Ok(program) = grammar::parsed(tokens) {
            correctness::lemma_expression_code_computes(
                layout::returned_expression(program.children[0]),
                machine,
            );
        }
    }
}

} // verus!
