//! Shorthands for building expressions.

use vstd::prelude::*;

use crate::concrete::{ConstructorExpr, Expr, ExprKind, LocalExpr};
use crate::lexemes::{Item, Name, Span};

verus! {

impl Item<ExprKind> {
    /// A reference to the top-level declaration `name`.
    pub fn constructor(span: Span, name: Name) -> (r: Expr)
        ensures
            r.span == span,
            r.data == ExprKind::Constructor(Box::new(ConstructorExpr { name })),
    {
        Expr::new(span, ExprKind::Constructor(Box::new(ConstructorExpr { name })))
    }

    /// A reference to the local variable `name`.
    pub fn local(span: Span, name: Name) -> (r: Expr)
        ensures
            r.span == span,
            r.data == ExprKind::Local(Box::new(LocalExpr { name })),
    {
        Expr::new(span, ExprKind::Local(Box::new(LocalExpr { name })))
    }
}

} // verus!
