//! Rough types: a coarse, readable classification of values, used in error
//! messages.

use vstd::prelude::*;
use crate::expression::{Atom, AtomView, BuiltIn, Expression, ExpressionView};

verus! {

/// The label of a built-in operator: its spelling in source text.
pub open spec fn builtin_label(b: BuiltIn) -> &'static str {
    match b {
        BuiltIn::Plus => "+",
        BuiltIn::Minus => "-",
        BuiltIn::Times => "*",
        BuiltIn::Divide => "/",
        BuiltIn::Equal => "=",
        BuiltIn::Not => "not",
        BuiltIn::And => "and",
        BuiltIn::Or => "or",
        BuiltIn::Remainder => "%",
        BuiltIn::Cond => "cond",
        BuiltIn::Count => "count",
    }
}

/// The label of an atom.
pub open spec fn atom_label(a: AtomView) -> &'static str {
    match a {
        AtomView::Number(_) => "number",
        AtomView::Identifier(_) => "identifier",
        AtomView::Symbol(_) => "symbol",
        AtomView::String(_) => "string",
        AtomView::Boolean(_) => "boolean",
        AtomView::BuiltIn(b) => builtin_label(b),
        AtomView::Nil => "nil",
    }
}

/// The label of an expression.
pub open spec fn expression_label(e: ExpressionView) -> &'static str {
    match e {
        ExpressionView::List(_) => "list",
        ExpressionView::Lambda { .. } => "lambda",
        ExpressionView::Binding { .. } => "binding",
        ExpressionView::Cond(_) => "cond",
        ExpressionView::Atom(a) => atom_label(a),
        ExpressionView::Application { .. } => "application",
        ExpressionView::If { .. } => "if",
        ExpressionView::IfElse { .. } => "if",
    }
}

pub trait Typed {
    /// The label that `rough_type` returns.
    spec fn label(&self) -> &'static str;

    /// Says roughly what type this expression or atom is, for error messages.
    fn rough_type(&self) -> (r: &'static str)
        ensures
            r == self.label(),
    ;
}

impl Typed for BuiltIn {
    open spec fn label(&self) -> &'static str {
        builtin_label(*self)
    }

    fn rough_type(&self) -> (r: &'static str) {
        match self {
            BuiltIn::Plus => "+",
            BuiltIn::Minus => "-",
            BuiltIn::Times => "*",
            BuiltIn::Divide => "/",
            BuiltIn::Equal => "=",
            BuiltIn::Not => "not",
            BuiltIn::And => "and",
            BuiltIn::Or => "or",
            BuiltIn::Remainder => "%",
            BuiltIn::Cond => "cond",
            BuiltIn::Count => "count",
        }
    }
}

impl Typed for Atom {
    open spec fn label(&self) -> &'static str {
        atom_label(self@)
    }

    fn rough_type(&self) -> (r: &'static str) {
        match self {
            Atom::Number(_) => "number",
            Atom::Identifier(_) => "identifier",
            Atom::Symbol(_) => "symbol",
            Atom::String(_) => "string",
            Atom::Boolean(_) => "boolean",
            Atom::BuiltIn(built_in) => built_in.rough_type(),
            Atom::Nil => "nil",
        }
    }
}

impl Typed for Expression {
    open spec fn label(&self) -> &'static str {
        expression_label(self@)
    }

    fn rough_type(&self) -> (r: &'static str) {
        match self {
            Expression::List(_) => "list",
            Expression::Lambda(_) => "lambda",
            Expression::Binding(_) => "binding",
            Expression::Cond(_) => "cond",
            Expression::Atom(atom) => atom.rough_type(),
            Expression::Application(_) => "application",
            Expression::If(_) => "if",
            Expression::IfElse(_) => "if",
        }
    }
}

} // verus!
