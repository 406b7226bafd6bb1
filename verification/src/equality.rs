//! `==` on syntax trees: structural equality, with numbers compared as
//! numbers.

use vstd::prelude::*;
use vstd::std_specs::cmp::PartialEqSpecImpl;
use crate::expression::{
    all_equal, same_names, Application, Atom, Binding, Expression, If, IfElse, Lambda,
};
use crate::semantics::{atom_eq, expression_eq};

verus! {

impl PartialEq for Atom {
    fn eq(&self, other: &Atom) -> (r: bool) {
        self.equals(other)
    }
}

impl PartialEqSpecImpl for Atom {
    open spec fn obeys_eq_spec() -> bool {
        true
    }

    open spec fn eq_spec(&self, other: &Atom) -> bool {
        atom_eq(self@, other@)
    }
}

impl PartialEq for Expression {
    fn eq(&self, other: &Expression) -> (r: bool) {
        self.equals(other)
    }
}

impl PartialEqSpecImpl for Expression {
    open spec fn obeys_eq_spec() -> bool {
        true
    }

    open spec fn eq_spec(&self, other: &Expression) -> bool {
        expression_eq(self@, other@)
    }
}

impl PartialEq for Application {
    fn eq(&self, other: &Application) -> (r: bool) {
        self.name.equals(&other.name) && all_equal(&self.arguments, &other.arguments)
    }
}

impl PartialEqSpecImpl for Application {
    open spec fn obeys_eq_spec() -> bool {
        true
    }

    open spec fn eq_spec(&self, other: &Application) -> bool {
        expression_eq(self@, other@)
    }
}

impl PartialEq for Binding {
    fn eq(&self, other: &Binding) -> (r: bool) {
        self.identifier.same_text(&other.identifier) && self.expression.equals(&other.expression)
    }
}

impl PartialEqSpecImpl for Binding {
    open spec fn obeys_eq_spec() -> bool {
        true
    }

    open spec fn eq_spec(&self, other: &Binding) -> bool {
        expression_eq(self@, other@)
    }
}

impl PartialEq for If {
    fn eq(&self, other: &If) -> (r: bool) {
        self.condition.equals(&other.condition) && self.do_this.equals(&other.do_this)
    }
}

impl PartialEqSpecImpl for If {
    open spec fn obeys_eq_spec() -> bool {
        true
    }

    open spec fn eq_spec(&self, other: &If) -> bool {
        expression_eq(self@, other@)
    }
}

impl PartialEq for IfElse {
    fn eq(&self, other: &IfElse) -> (r: bool) {
        self.condition.equals(&other.condition) && self.if_true.equals(&other.if_true)
            && self.if_false.equals(&other.if_false)
    }
}

impl PartialEqSpecImpl for IfElse {
    open spec fn obeys_eq_spec() -> bool {
        true
    }

    open spec fn eq_spec(&self, other: &IfElse) -> bool {
        expression_eq(self@, other@)
    }
}

impl PartialEq for Lambda {
    fn eq(&self, other: &Lambda) -> (r: bool) {
        same_names(&self.arguments, &other.arguments) && self.body.equals(&other.body)
    }
}

impl PartialEqSpecImpl for Lambda {
    open spec fn obeys_eq_spec() -> bool {
        true
    }

    open spec fn eq_spec(&self, other: &Lambda) -> bool {
        expression_eq(self@, other@)
    }
}

} // verus!
