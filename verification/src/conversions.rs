//! Plain values as expressions.

use vstd::prelude::*;
use vstd::std_specs::convert::FromSpecImpl;
use crate::expression::{Atom, Expression};

verus! {

impl From<bool> for Expression {
    fn from(cond: bool) -> (r: Expression) {
        Expression::Atom(Atom::Boolean(cond))
    }
}

impl FromSpecImpl<bool> for Expression {
    open spec fn obeys_from_spec() -> bool {
        true
    }

    open spec fn from_spec(cond: bool) -> Expression {
        Expression::Atom(Atom::Boolean(cond))
    }
}

} // verus!
