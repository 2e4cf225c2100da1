//! Expressions that denote a storage location.

use vstd::prelude::*;
use crate::identifier::Identifier;

verus! {

/// The target of a read or a write: a binding, or what a target points to.
#[derive(Debug, PartialEq)]
pub enum LeftExpression {
    Identifier(Identifier),
    Deref(Box<LeftExpression>),
}

/// The mathematical view of a [`LeftExpression`].
pub enum LeftExpressionView {
    Identifier(Seq<char>),
    Deref(Box<LeftExpressionView>),
}

impl LeftExpression {
    /// The view, by recursion on the structure.
    pub open spec fn model(&self) -> LeftExpressionView
        decreases self,
    {
        match self {
            LeftExpression::Identifier(id) => LeftExpressionView::Identifier(id@),
            LeftExpression::Deref(inner) => LeftExpressionView::Deref(Box::new(inner.model())),
        }
    }
}

impl View for LeftExpression {
    type V = LeftExpressionView;

    open spec fn view(&self) -> LeftExpressionView {
        self.model()
    }
}

impl Clone for LeftExpression {
    fn clone(&self) -> (l: LeftExpression)
        ensures
            l == *self,
        decreases self,
    {
        match self {
            LeftExpression::Identifier(id) => LeftExpression::Identifier(id.clone()),
            LeftExpression::Deref(inner) => LeftExpression::Deref(Box::new((**inner).clone())),
        }
    }
}

} // verus!
