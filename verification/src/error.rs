//! The errors that parsing and evaluation report.

use vstd::prelude::*;
use crate::object::ObjectType;
use crate::operator::Infix;
use crate::token::{Token, TokenView};

verus! {

/// An error of the parser or of the evaluator. Parsing stops at the first
/// syntax error and evaluation at the first runtime error.
#[derive(Debug)]
#[allow(inconsistent_fields)]
pub enum MonkeyError {
    /// No rule tells how an expression could start with the token.
    NotFoundPrefixTreatment,
    /// The token cannot stand where it was found.
    InvalidToken(Token),
    /// One token was required and another one found.
    UnexpectedToken { expected: Token, got: Token },
    /// An infix operator was applied to an integer and a boolean.
    TypeMismatch(ObjectType, Infix, ObjectType),
    /// The infix operator is not defined on operands of these types.
    UnknownOperator(ObjectType, Infix, ObjectType),
    /// No scope in reach binds the name.
    IdentifierNotFound(String),
    /// A function was called with the wrong number of arguments.
    IncorrectNumberOfArgs { expected: usize, got: usize },
    /// An integer was divided by zero.
    DivisionByZero,
    /// The value that was called is no function.
    NotAFunction,
    /// Function calls were nested deeper than the evaluator allows.
    CallDepthExceeded,
}

/// The mathematical value of a [`MonkeyError`].
#[allow(inconsistent_fields)]
pub enum MonkeyErrorView {
    NotFoundPrefixTreatment,
    InvalidToken(TokenView),
    UnexpectedToken { expected: TokenView, got: TokenView },
    TypeMismatch(ObjectType, Infix, ObjectType),
    UnknownOperator(ObjectType, Infix, ObjectType),
    IdentifierNotFound(Seq<char>),
    IncorrectNumberOfArgs { expected: nat, got: nat },
    DivisionByZero,
    NotAFunction,
    CallDepthExceeded,
}

impl View for MonkeyError {
    type V = MonkeyErrorView;

    open spec fn view(&self) -> MonkeyErrorView {
        match self {
            MonkeyError::NotFoundPrefixTreatment => MonkeyErrorView::NotFoundPrefixTreatment,
            MonkeyError::InvalidToken(token) => MonkeyErrorView::InvalidToken(token@),
            MonkeyError::UnexpectedToken { expected, got } => MonkeyErrorView::UnexpectedToken {
                expected: expected@,
                got: got@,
            },
            MonkeyError::TypeMismatch(left, op, right) => MonkeyErrorView::TypeMismatch(
                *left,
                *op,
                *right,
            ),
            MonkeyError::UnknownOperator(left, op, right) => MonkeyErrorView::UnknownOperator(
                *left,
                *op,
                *right,
            ),
            MonkeyError::IdentifierNotFound(name) => MonkeyErrorView::IdentifierNotFound(name@),
            MonkeyError::IncorrectNumberOfArgs { expected, got } => {
                MonkeyErrorView::IncorrectNumberOfArgs { expected: *expected as nat, got: *got as nat }
            },
            MonkeyError::DivisionByZero => MonkeyErrorView::DivisionByZero,
            MonkeyError::NotAFunction => MonkeyErrorView::NotAFunction,
            MonkeyError::CallDepthExceeded => MonkeyErrorView::CallDepthExceeded,
        }
    }
}

impl Clone for MonkeyError {
    fn clone(&self) -> (res: Self)
        ensures
            res == *self,
    {
        match self {
            MonkeyError::NotFoundPrefixTreatment => MonkeyError::NotFoundPrefixTreatment,
            MonkeyError::InvalidToken(token) => MonkeyError::InvalidToken(token.clone()),
            MonkeyError::UnexpectedToken { expected, got } => MonkeyError::UnexpectedToken {
                expected: expected.clone(),
                got: got.clone(),
            },
            MonkeyError::TypeMismatch(left, op, right) => MonkeyError::TypeMismatch(
                *left,
                *op,
                *right,
            ),
            MonkeyError::UnknownOperator(left, op, right) => MonkeyError::UnknownOperator(
                *left,
                *op,
                *right,
            ),
            MonkeyError::IdentifierNotFound(name) => MonkeyError::IdentifierNotFound(name.clone()),
            MonkeyError::IncorrectNumberOfArgs { expected, got } => {
                MonkeyError::IncorrectNumberOfArgs { expected: *expected, got: *got }
            },
            MonkeyError::DivisionByZero => MonkeyError::DivisionByZero,
            MonkeyError::NotAFunction => MonkeyError::NotAFunction,
            MonkeyError::CallDepthExceeded => MonkeyError::CallDepthExceeded,
        }
    }
}

} // verus!
