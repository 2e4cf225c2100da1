//! The failures that parsing and evaluation report.

use vstd::prelude::*;
use crate::identifier::Identifier;
use crate::parsing::expression::{Expression, ExpressionView};
use crate::types::Type;

verus! {

/// Why an evaluation failed. Every failure is local to the instruction that
/// raised it: the interpreter state stays usable.
#[derive(Debug, PartialEq)]
pub enum EvalError {
    /// No active scope binds the name; also raised, under the operation's
    /// own name, by an operation that is undefined on its operands.
    Undefined(Identifier),
    /// The innermost scope already binds the name.
    AlreadyDefined(Identifier),
    /// A write to an immutable location.
    NotMutable(Option<Expression>),
    /// An operand of the wrong kind.
    TypeMismatch { expression: Expression, expected: Type, found: Option<Type> },
    /// The divisor, given here, evaluates to zero.
    DivisionByZero(Expression),
    /// Access to a memory cell that is not allocated.
    NonAllocatedCell(Option<Expression>),
    /// Access to a memory cell that holds no value yet.
    NonInitializedValue(Option<Expression>),
    /// The named construct has no evaluation rule yet.
    NotImplemented(Identifier),
    /// A declaration while no scope is active.
    NoScope,
    /// A loop was still running when the iteration budget ran out.
    LoopLimit,
}

/// The mathematical view of an [`EvalError`].
pub enum EvalErrorView {
    Undefined(Seq<char>),
    AlreadyDefined(Seq<char>),
    NotMutable(Option<ExpressionView>),
    TypeMismatch { expression: ExpressionView, expected: Type, found: Option<Type> },
    DivisionByZero(ExpressionView),
    NonAllocatedCell(Option<ExpressionView>),
    NonInitializedValue(Option<ExpressionView>),
    NotImplemented(Seq<char>),
    NoScope,
    LoopLimit,
}

/// The view of an optional expression.
pub open spec fn option_expression_view(e: Option<Expression>) -> Option<ExpressionView> {
    match e {
        Some(e) => Some(e@),
        None => None,
    }
}

impl View for EvalError {
    type V = EvalErrorView;

    open spec fn view(&self) -> EvalErrorView {
        match self {
            EvalError::Undefined(id) => EvalErrorView::Undefined(id@),
            EvalError::AlreadyDefined(id) => EvalErrorView::AlreadyDefined(id@),
            EvalError::NotMutable(e) => EvalErrorView::NotMutable(option_expression_view(*e)),
            EvalError::TypeMismatch { expression, expected, found } => EvalErrorView::TypeMismatch {
                expression: expression@,
                expected: *expected,
                found: *found,
            },
            EvalError::DivisionByZero(e) => EvalErrorView::DivisionByZero(e@),
            EvalError::NonAllocatedCell(e) => EvalErrorView::NonAllocatedCell(
                option_expression_view(*e),
            ),
            EvalError::NonInitializedValue(e) => EvalErrorView::NonInitializedValue(
                option_expression_view(*e),
            ),
            EvalError::NotImplemented(id) => EvalErrorView::NotImplemented(id@),
            EvalError::NoScope => EvalErrorView::NoScope,
            EvalError::LoopLimit => EvalErrorView::LoopLimit,
        }
    }
}

/// Why a text is no instruction.
#[derive(Debug, Clone, Copy, PartialEq, Eq, Structural)]
pub enum ParseError {
    /// The text does not follow the grammar.
    CannotParse,
    /// The text follows the grammar, but uses a construct outside the
    /// supported subset.
    SyntaxNotSupported,
}

/// A failure of either stage.
#[derive(Debug, PartialEq)]
pub enum Error {
    ParseError(ParseError),
    EvalError(EvalError),
}

/// The mathematical view of an [`Error`].
pub enum ErrorView {
    ParseError(ParseError),
    EvalError(EvalErrorView),
}

impl View for Error {
    type V = ErrorView;

    open spec fn view(&self) -> ErrorView {
        match self {
            Error::ParseError(e) => ErrorView::ParseError(*e),
            Error::EvalError(e) => ErrorView::EvalError(e@),
        }
    }
}

} // verus!
