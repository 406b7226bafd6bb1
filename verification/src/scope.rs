//! A scope: identifiers paired with the expressions that stand for them.

use vstd::prelude::*;
use vstd::slice::SliceAdditionalExecFns;
use crate::error::{Error, ErrorView};
use crate::expression::{
    names_view, Atom, AtomView, Expression, ExpressionView,
};
use crate::semantics::{position, position_from};
use crate::small_string::SmallString;

verus! {

pub struct Scope<'a> {
    identifiers: &'a [SmallString],
    expressions: &'a [Expression],
}

/// What stands for `e` in a scope of the given names and values: the value
/// at the first position of its name, where `e` is an identifier that the
/// scope knows; else `e` itself.
pub open spec fn resolved_in(
    e: ExpressionView,
    names: Seq<Seq<char>>,
    values: Seq<Expression>,
) -> ExpressionView {
    match e {
        ExpressionView::Atom(AtomView::Identifier(name)) => match position(names, name) {
            Some(idx) => if idx < values.len() {
                values[idx]@
            } else {
                e
            },
            None => e,
        },
        _ => e,
    }
}

impl<'a> Scope<'a> {
    #[verifier::type_invariant]
    closed spec fn wf(&self) -> bool {
        self.identifiers@.len() == self.expressions@.len()
    }

    /// The texts of the scope's identifiers.
    pub closed spec fn names(&self) -> Seq<Seq<char>> {
        names_view(self.identifiers@)
    }

    /// The scope's expressions, in the order of its identifiers.
    pub closed spec fn values(&self) -> Seq<Expression> {
        self.expressions@
    }

    /// A scope in which each identifier stands for the expression at its
    /// position.
    pub fn new(identifiers: &'a [SmallString], expressions: &'a [Expression]) -> (r: Scope<'a>)
        requires
            identifiers@.len() == expressions@.len(),
        ensures
            r.names() == names_view(identifiers@),
            r.values() == expressions@,
    {
        Scope { identifiers, expressions }
    }

    /// The expression that the first identifier equal to
    /// `identifier_to_resolve` stands for, or `UnknownSymbol`.
    pub fn resolve_symbol(&self, identifier_to_resolve: &SmallString) -> (r: Result<
        &Expression,
        Error,
    >)
        ensures
            self.names().len() == self.values().len(),
            match position(self.names(), identifier_to_resolve@) {
                Some(idx) => r is Ok && 0 <= idx < self.values().len() && *r->Ok_0
                    == self.values()[idx],
                None => r is Err && r->Err_0@ == ErrorView::UnknownSymbol(identifier_to_resolve@),
            },
    {
        proof {
            use_type_invariant(self);
        }
        let mut i: usize = 0;
        while i < self.identifiers.len()
            invariant
                i <= self.identifiers.len(),
                self.identifiers@.len() == self.expressions@.len(),
                position(names_view(self.identifiers@), identifier_to_resolve@) == position_from(
                    names_view(self.identifiers@),
                    identifier_to_resolve@,
                    i as int,
                ),
            decreases self.identifiers.len() - i,
        {
            if self.identifiers[i].same_text(identifier_to_resolve) {
                return Ok(&self.expressions[i]);
            }
            i += 1;
        }
        Err(Error::UnknownSymbol(identifier_to_resolve.duplicate()))
    }

    /// Replaces every expression of `exprs` that is an identifier of this
    /// scope by a copy of what the identifier stands for, and leaves the
    /// others as they are.
    pub fn resolve_all_in_place(&self, exprs: &mut [Expression])
        ensures
            final(exprs)@.len() == old(exprs)@.len(),
            forall|k: int|
                0 <= k < old(exprs)@.len() ==> (#[trigger] final(exprs)@[k])@ == resolved_in(
                    old(exprs)@[k]@,
                    self.names(),
                    self.values(),
                ),
    {
        let n: usize = exprs.len();
        let mut i: usize = 0;
        while i < n
            invariant
                i <= n,
                n == exprs@.len(),
                exprs@.len() == old(exprs)@.len(),
                forall|k: int|
                    0 <= k < i ==> (#[trigger] exprs@[k])@ == resolved_in(
                        old(exprs)@[k]@,
                        self.names(),
                        self.values(),
                    ),
                forall|k: int| i <= k < n ==> exprs@[k] == old(exprs)@[k],
            decreases n - i,
        {
            let replacement: Option<Expression> = match &exprs[i] {
                Expression::Atom(Atom::Identifier(identifier)) => match self.resolve_symbol(
                    identifier,
                ) {
                    Ok(resolved) => Some(resolved.duplicate()),
                    Err(_) => None,
                },
                _ => None,
            };
            if let Some(value) = replacement {
                exprs.set(i, value);
            }
            i += 1;
        }
    }
}

} // verus!
