//! Expressions.

use vstd::prelude::*;
use vstd::std_specs::convert::FromSpecImpl;
use crate::error::ParseError;
use crate::identifier::Identifier;
use crate::parsing::binop::Binop;
use crate::parsing::leftexpression::{LeftExpression, LeftExpressionView};
use crate::parsing::parsedvalue::ParsedValue;
use crate::parsing::ptr_kind::PtrKind;

verus! {

/// An expression of the language.
#[derive(Debug, PartialEq)]
pub enum Expression {
    Const(ParsedValue),
    Identifier(Identifier),
    NewPtr(PtrKind, Box<Expression>),
    ValueAt(LeftExpression),
    BinOp(Box<Expression>, Binop, Box<Expression>),
    Conditional { cond: Box<Expression>, cond_true: Box<Expression>, cond_false: Box<Expression> },
    Deref(Box<Expression>),
    AmpersAnd(Box<Expression>),
}

/// The mathematical view of an [`Expression`].
pub enum ExpressionView {
    Const(ParsedValue),
    Identifier(Seq<char>),
    NewPtr(PtrKind, Box<ExpressionView>),
    ValueAt(LeftExpressionView),
    BinOp(Box<ExpressionView>, Binop, Box<ExpressionView>),
    Conditional {
        cond: Box<ExpressionView>,
        cond_true: Box<ExpressionView>,
        cond_false: Box<ExpressionView>,
    },
    Deref(Box<ExpressionView>),
    AmpersAnd(Box<ExpressionView>),
}

impl Expression {
    /// The view, by recursion on the structure.
    pub open spec fn model(&self) -> ExpressionView
        decreases self,
    {
        match self {
            Expression::Const(pv) => ExpressionView::Const(*pv),
            Expression::Identifier(id) => ExpressionView::Identifier(id@),
            Expression::NewPtr(kind, e) => ExpressionView::NewPtr(*kind, Box::new(e.model())),
            Expression::ValueAt(l) => ExpressionView::ValueAt(l@),
            Expression::BinOp(lhs, op, rhs) => ExpressionView::BinOp(
                Box::new(lhs.model()),
                *op,
                Box::new(rhs.model()),
            ),
            Expression::Conditional { cond, cond_true, cond_false } => ExpressionView::Conditional {
                cond: Box::new(cond.model()),
                cond_true: Box::new(cond_true.model()),
                cond_false: Box::new(cond_false.model()),
            },
            Expression::Deref(e) => ExpressionView::Deref(Box::new(e.model())),
            Expression::AmpersAnd(e) => ExpressionView::AmpersAnd(Box::new(e.model())),
        }
    }
}

impl View for Expression {
    type V = ExpressionView;

    open spec fn view(&self) -> ExpressionView {
        self.model()
    }
}

impl Clone for Expression {
    fn clone(&self) -> (e: Expression)
        ensures
            e == *self,
        decreases self,
    {
        match self {
            Expression::Const(pv) => Expression::Const(*pv),
            Expression::Identifier(id) => Expression::Identifier(id.clone()),
            Expression::NewPtr(kind, e) => Expression::NewPtr(*kind, Box::new((**e).clone())),
            Expression::ValueAt(l) => Expression::ValueAt(l.clone()),
            Expression::BinOp(lhs, op, rhs) => Expression::BinOp(
                Box::new((**lhs).clone()),
                *op,
                Box::new((**rhs).clone()),
            ),
            Expression::Conditional { cond, cond_true, cond_false } => Expression::Conditional {
                cond: Box::new((**cond).clone()),
                cond_true: Box::new((**cond_true).clone()),
                cond_false: Box::new((**cond_false).clone()),
            },
            Expression::Deref(e) => Expression::Deref(Box::new((**e).clone())),
            Expression::AmpersAnd(e) => Expression::AmpersAnd(Box::new((**e).clone())),
        }
    }
}

impl Expression {
    /// The expression in the supported subset of the syntax: literals,
    /// names, binary operations and conditionals, where a name read as a
    /// storage location becomes a plain name. Any other construct is not
    /// supported.
    pub open spec fn restricted_spec(self) -> Result<Expression, ParseError>
        decreases self,
    {
        match self {
            Expression::Const(v) => Ok(Expression::Const(v)),
            Expression::ValueAt(LeftExpression::Identifier(id)) => Ok(Expression::Identifier(id)),
            Expression::BinOp(lhs, op, rhs) => match lhs.restricted_spec() {
                Ok(l) => match rhs.restricted_spec() {
                    Ok(r) => Ok(Expression::BinOp(Box::new(l), op, Box::new(r))),
                    Err(err) => Err(err),
                },
                Err(err) => Err(err),
            },
            Expression::Conditional { cond, cond_true, cond_false } => match cond.restricted_spec() {
                Ok(c) => match cond_true.restricted_spec() {
                    Ok(t) => match cond_false.restricted_spec() {
                        Ok(f) => Ok(
                            Expression::Conditional {
                                cond: Box::new(c),
                                cond_true: Box::new(t),
                                cond_false: Box::new(f),
                            },
                        ),
                        Err(err) => Err(err),
                    },
                    Err(err) => Err(err),
                },
                Err(err) => Err(err),
            },
            _ => Err(ParseError::SyntaxNotSupported),
        }
    }

    /// Brings the expression into the supported subset of the syntax, or
    /// says that it lies outside.
    pub fn restricted(self) -> (r: Result<Expression, ParseError>)
        ensures
            r == self.restricted_spec(),
        decreases self,
    {
        match self {
            Expression::Const(v) => Ok(Expression::Const(v)),
            Expression::ValueAt(LeftExpression::Identifier(id)) => Ok(Expression::Identifier(id)),
            Expression::BinOp(lhs, op, rhs) => {
                let lhs = Box::new((*lhs).restricted()?);
                let rhs = Box::new((*rhs).restricted()?);
                Ok(Expression::BinOp(lhs, op, rhs))
            },
            Expression::Conditional { cond, cond_true, cond_false } => {
                let cond = Box::new((*cond).restricted()?);
                let cond_true = Box::new((*cond_true).restricted()?);
                let cond_false = Box::new((*cond_false).restricted()?);
                Ok(Expression::Conditional { cond, cond_true, cond_false })
            },
            _ => Err(ParseError::SyntaxNotSupported),
        }
    }
}

impl From<Expression> for Result<Expression, ParseError> {
    fn from(expr: Expression) -> (r: Result<Expression, ParseError>) {
        expr.restricted()
    }
}

impl FromSpecImpl<Expression> for Result<Expression, ParseError> {
    open spec fn obeys_from_spec() -> bool {
        true
    }

    open spec fn from_spec(expr: Expression) -> Result<Expression, ParseError> {
        expr.restricted_spec()
    }
}

} // verus!
