//! A small dynamically-typed scripting language: lexer, Pratt parser and
//! tree-walking evaluator with lexically scoped closures.
//!
//! Source text becomes tokens (`token`, `lexer`), tokens become a tree
//! (`ast`, `grammar`, `parser`), and the tree is evaluated to a value
//! (`object`, `env`, `semantics`, `eval`). `grammar` and `semantics` say in
//! mathematical terms what the parser and the evaluator compute, and hold
//! what is proved of both; `precedence` holds the theorems on expressions
//! in infix notation.

use vstd::prelude::*;

pub mod ast;
pub mod env;
pub mod error;
pub mod eval;
pub mod grammar;
pub mod lexer;
pub mod object;
pub mod operator;
pub mod parser;
pub mod precedence;
pub mod semantics;
pub mod text;
pub mod token;

verus! {

/// The program that a source text spells: the text is split into tokens
/// and the tokens are parsed. The first syntax error is the result where
/// there is one.
pub open spec fn program_of(input: Seq<char>) -> Result<
    Seq<ast::StatementView>,
    error::MonkeyErrorView,
> {
    grammar::parse_program(lexer::tokens_of(input), Seq::empty())
}

/// The value of a source text: the program that the text spells,
/// evaluated in a fresh environment. The first error of the parser or of
/// the evaluator is the result where there is one.
pub open spec fn value_of(input: Seq<char>) -> Result<object::ObjectView, error::MonkeyErrorView> {
    match program_of(input) {
        Ok(statements) => semantics::eval_program(
            env::EnvironmentView::root(),
            statements,
            0,
            object::ObjectView::Null,
            eval::DEFAULT_CALL_DEPTH as nat,
        ).result,
        Err(error) => Err(error),
    }
}

/// Parses a source text.
pub fn parse(input: &str) -> (result: Result<ast::Program, error::MonkeyError>)
    ensures
        match program_of(input@) {
            Ok(statements) => result matches Ok(program) && program@ == statements,
            Err(error) => result matches Err(e) && e@ == error,
        },
        result matches Ok(program) ==> grammar::all_statements_well_formed(program@),
{
    let l = lexer::Lexer::new(input);
    let mut p = parser::Parser::new(l);
    p.parse_program()
}

/// Parses and evaluates a source text in a fresh environment.
pub fn evaluate(input: &str) -> (result: Result<object::Object, error::MonkeyError>)
    ensures
        match value_of(input@) {
            Ok(value) => result matches Ok(object) && object@ == value,
            Err(error) => result matches Err(e) && e@ == error,
        },
{
    let mut env = eval::Evaluator::new();
    let program = match parse(input) {
        Ok(program) => program,
        Err(error) => {
            return Err(error);
        },
    };
    env.eval(&program)
}

} // verus!
