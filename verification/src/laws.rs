//! Laws of the language, proved of the definitions in `semantics`.

use vstd::prelude::*;
use crate::error::ErrorView;
use crate::expression::{AtomView, BuiltIn, ExpressionView};
use crate::semantics::{
    all_eq, apply_builtin, apply_lambda, arity, atom_eq, boolean, equals_from, eval, eval_bool,
    expression_eq, Bindings, Outcome,
};
use crate::type_info::expression_label;

verus! {

/// Equality of atoms is symmetric.
pub proof fn lemma_atom_eq_symmetric(a: AtomView, b: AtomView)
    requires
        atom_eq(a, b),
    ensures
        atom_eq(b, a),
{
}

/// Equality of atoms is transitive.
pub proof fn lemma_atom_eq_transitive(a: AtomView, b: AtomView, c: AtomView)
    requires
        atom_eq(a, b),
        atom_eq(b, c),
    ensures
        atom_eq(a, c),
{
}

/// Structural equality is symmetric.
pub proof fn lemma_expression_eq_symmetric(a: ExpressionView, b: ExpressionView)
    requires
        expression_eq(a, b),
    ensures
        expression_eq(b, a),
    decreases a, 1nat,
{
    match (a, b) {
        (ExpressionView::Atom(x), ExpressionView::Atom(y)) => {
            lemma_atom_eq_symmetric(x, y);
        },
        (
            ExpressionView::Application { arguments: x, .. },
            ExpressionView::Application { arguments: y, .. },
        ) => {
            lemma_all_eq_symmetric(x, y);
        },
        (ExpressionView::Cond(x), ExpressionView::Cond(y)) => {
            lemma_all_eq_symmetric(x, y);
        },
        (ExpressionView::List(x), ExpressionView::List(y)) => {
            lemma_all_eq_symmetric(x, y);
        },
        (
            ExpressionView::If { condition: c1, do_this: t1 },
            ExpressionView::If { condition: c2, do_this: t2 },
        ) => {
            lemma_expression_eq_symmetric(*c1, *c2);
            lemma_expression_eq_symmetric(*t1, *t2);
        },
        (
            ExpressionView::IfElse { condition: c1, if_true: t1, if_false: f1 },
            ExpressionView::IfElse { condition: c2, if_true: t2, if_false: f2 },
        ) => {
            lemma_expression_eq_symmetric(*c1, *c2);
            lemma_expression_eq_symmetric(*t1, *t2);
            lemma_expression_eq_symmetric(*f1, *f2);
        },
        (
            ExpressionView::Binding { expression: e1, .. },
            ExpressionView::Binding { expression: e2, .. },
        ) => {
            lemma_expression_eq_symmetric(*e1, *e2);
        },
        (ExpressionView::Lambda { body: b1, .. }, ExpressionView::Lambda { body: b2, .. }) => {
            lemma_expression_eq_symmetric(*b1, *b2);
        },
        _ => {},
    }
}

/// Equality of lists is symmetric.
pub proof fn lemma_all_eq_symmetric(a: Seq<ExpressionView>, b: Seq<ExpressionView>)
    requires
        all_eq(a, b),
    ensures
        all_eq(b, a),
    decreases a, 0nat,
{
    assert forall|i: int| 0 <= i < b.len() && 0 <= i < a.len() implies expression_eq(
        b[i],
        #[trigger] a[i],
    ) by {
        assert(expression_eq(a[i], b[i]));
        lemma_expression_eq_symmetric(a[i], b[i]);
    }
}

/// Structural equality is transitive.
pub proof fn lemma_expression_eq_transitive(a: ExpressionView, b: ExpressionView, c: ExpressionView)
    requires
        expression_eq(a, b),
        expression_eq(b, c),
    ensures
        expression_eq(a, c),
    decreases a, 1nat,
{
    match (a, b, c) {
        (ExpressionView::Atom(x), ExpressionView::Atom(y), ExpressionView::Atom(z)) => {
            lemma_atom_eq_transitive(x, y, z);
        },
        (
            ExpressionView::Application { arguments: x, .. },
            ExpressionView::Application { arguments: y, .. },
            ExpressionView::Application { arguments: z, .. },
        ) => {
            lemma_all_eq_transitive(x, y, z);
        },
        (ExpressionView::Cond(x), ExpressionView::Cond(y), ExpressionView::Cond(z)) => {
            lemma_all_eq_transitive(x, y, z);
        },
        (ExpressionView::List(x), ExpressionView::List(y), ExpressionView::List(z)) => {
            lemma_all_eq_transitive(x, y, z);
        },
        (
            ExpressionView::If { condition: c1, do_this: t1 },
            ExpressionView::If { condition: c2, do_this: t2 },
            ExpressionView::If { condition: c3, do_this: t3 },
        ) => {
            lemma_expression_eq_transitive(*c1, *c2, *c3);
            lemma_expression_eq_transitive(*t1, *t2, *t3);
        },
        (
            ExpressionView::IfElse { condition: c1, if_true: t1, if_false: f1 },
            ExpressionView::IfElse { condition: c2, if_true: t2, if_false: f2 },
            ExpressionView::IfElse { condition: c3, if_true: t3, if_false: f3 },
        ) => {
            lemma_expression_eq_transitive(*c1, *c2, *c3);
            lemma_expression_eq_transitive(*t1, *t2, *t3);
            lemma_expression_eq_transitive(*f1, *f2, *f3);
        },
        (
            ExpressionView::Binding { expression: e1, .. },
            ExpressionView::Binding { expression: e2, .. },
            ExpressionView::Binding { expression: e3, .. },
        ) => {
            lemma_expression_eq_transitive(*e1, *e2, *e3);
        },
        (
            ExpressionView::Lambda { body: b1, .. },
            ExpressionView::Lambda { body: b2, .. },
            ExpressionView::Lambda { body: b3, .. },
        ) => {
            lemma_expression_eq_transitive(*b1, *b2, *b3);
        },
        _ => {},
    }
}

/// Equality of lists is transitive.
pub proof fn lemma_all_eq_transitive(
    a: Seq<ExpressionView>,
    b: Seq<ExpressionView>,
    c: Seq<ExpressionView>,
)
    requires
        all_eq(a, b),
        all_eq(b, c),
    ensures
        all_eq(a, c),
    decreases a, 0nat,
{
    assert forall|i: int| 0 <= i < a.len() && 0 <= i < c.len() implies expression_eq(
        a[i],
        #[trigger] c[i],
    ) by {
        assert(expression_eq(a[i], b[i]));
        assert(expression_eq(b[i], c[i]));
        lemma_expression_eq_transitive(a[i], b[i], c[i]);
    }
}

/// The values of the arguments from `i` on, each evaluated in the bindings
/// that the one before it left, added to `acc`; `None` where one of them
/// fails.
pub open spec fn values_from(
    arguments: Seq<ExpressionView>,
    i: int,
    acc: Seq<ExpressionView>,
    env: Bindings,
    depth: nat,
) -> Option<Seq<ExpressionView>>
    decreases arguments.len() - i,
{
    if i < 0 || i >= arguments.len() {
        Some(acc)
    } else {
        let o = eval(arguments[i], env, depth);
        match o.result {
            Ok(value) => values_from(arguments, i + 1, acc.push(value), o.bindings, depth),
            Err(_) => None,
        }
    }
}

/// Every two of the values are structurally equal.
pub open spec fn pairwise_equal(values: Seq<ExpressionView>) -> bool {
    forall|i: int, j: int|
        0 <= i < values.len() && 0 <= j < values.len() ==> expression_eq(
            #[trigger] values[i],
            #[trigger] values[j],
        )
}

/// What `equals_from` returns, given the values of all the arguments:
/// whether each value from `i` on equals `first`.
proof fn lemma_equals_from(
    first: ExpressionView,
    arguments: Seq<ExpressionView>,
    i: int,
    acc: Seq<ExpressionView>,
    env: Bindings,
    depth: nat,
)
    requires
        0 <= i <= arguments.len(),
        acc.len() == i,
        values_from(arguments, i, acc, env, depth) is Some,
    ensures
        ({
            let values = values_from(arguments, i, acc, env, depth)->Some_0;
            let o = equals_from(first, arguments, i, env, depth);
            &&& values.len() == arguments.len()
            &&& forall|k: int| 0 <= k < i ==> values[k] == acc[k]
            &&& o.result == Ok::<ExpressionView, ErrorView>(
                boolean(forall|k: int| i <= k < values.len() ==> expression_eq(#[trigger] values[k], first)),
            )
        }),
    decreases arguments.len() - i,
{
    if i < arguments.len() {
        let o = eval(arguments[i], env, depth);
        let value = o.result->Ok_0;
        lemma_equals_from(first, arguments, i + 1, acc.push(value), o.bindings, depth);
        let values = values_from(arguments, i, acc, env, depth)->Some_0;
        assert(values[i] == acc.push(value)[i]);
        assert forall|k: int| 0 <= k < i implies values[k] == acc[k] by {
            assert(values[k] == acc.push(value)[k]);
        }
        if !expression_eq(value, first) {
            assert(!(forall|k: int|
                i <= k < values.len() ==> expression_eq(#[trigger] values[k], first)));
        }
    }
}

/// `=` with fewer than two arguments fails with `MinimumArityMismatch`, and
/// changes no binding.
pub proof fn law_equal_needs_two_arguments(
    arguments: Seq<ExpressionView>,
    env: Bindings,
    depth: nat,
)
    requires
        arguments.len() < 2,
    ensures
        apply_builtin(BuiltIn::Equal, arguments, env, depth) == (Outcome {
            result: Err(
                ErrorView::MinimumArityMismatch { at_least: 2, received: arity(arguments.len()) },
            ),
            bindings: env,
        }),
{
}

/// `=` with at least two arguments, all of which evaluate, returns `true`
/// exactly when the values are pairwise structurally equal.
pub proof fn law_equal_is_pairwise_equality(
    arguments: Seq<ExpressionView>,
    env: Bindings,
    depth: nat,
)
    requires
        arguments.len() >= 2,
        values_from(arguments, 0, Seq::empty(), env, depth) is Some,
    ensures
        apply_builtin(BuiltIn::Equal, arguments, env, depth).result == Ok::<
            ExpressionView,
            ErrorView,
        >(boolean(pairwise_equal(values_from(arguments, 0, Seq::empty(), env, depth)->Some_0))),
{
    let first = eval(arguments[0], env, depth);
    let v0 = first.result->Ok_0;
    let acc = Seq::<ExpressionView>::empty().push(v0);
    lemma_equals_from(v0, arguments, 1, acc, first.bindings, depth);
    let values = values_from(arguments, 0, Seq::empty(), env, depth)->Some_0;
    assert(values[0] == acc[0]);
    let all_equal_first = forall|k: int|
        1 <= k < values.len() ==> expression_eq(#[trigger] values[k], v0);
    if all_equal_first {
        assert(expression_eq(values[1], v0));
        assert forall|i: int, j: int| 0 <= i < values.len() && 0 <= j < values.len() implies expression_eq(
            #[trigger] values[i],
            #[trigger] values[j],
        ) by {
            lemma_expression_eq_symmetric(values[1], v0);
            lemma_expression_eq_transitive(v0, values[1], v0);
            if i >= 1 {
                assert(expression_eq(values[i], v0));
            }
            if j >= 1 {
                assert(expression_eq(values[j], v0));
                lemma_expression_eq_symmetric(values[j], v0);
            }
            lemma_expression_eq_transitive(values[i], v0, values[j]);
        }
    } else {
        let k = choose|k: int| 1 <= k < values.len() && !expression_eq(#[trigger] values[k], v0);
        assert(!expression_eq(values[k], values[0]));
    }
}

/// `equals_from` returns `true` exactly when every argument from `i` on
/// evaluates and its value equals `first`.
proof fn lemma_equals_from_true(
    first: ExpressionView,
    arguments: Seq<ExpressionView>,
    i: int,
    acc: Seq<ExpressionView>,
    env: Bindings,
    depth: nat,
)
    requires
        0 <= i <= arguments.len(),
        acc.len() == i,
    ensures
        equals_from(first, arguments, i, env, depth).result == Ok::<ExpressionView, ErrorView>(
            boolean(true),
        ) <==> (values_from(arguments, i, acc, env, depth) matches Some(values) && forall|k: int|
            i <= k < values.len() ==> expression_eq(#[trigger] values[k], first)),
    decreases arguments.len() - i,
{
    if i < arguments.len() {
        let o = eval(arguments[i], env, depth);
        if o.result is Ok {
            let value = o.result->Ok_0;
            let next = acc.push(value);
            lemma_equals_from_true(first, arguments, i + 1, next, o.bindings, depth);
            if values_from(arguments, i + 1, next, o.bindings, depth) is Some {
                lemma_equals_from(first, arguments, i + 1, next, o.bindings, depth);
                let values = values_from(arguments, i + 1, next, o.bindings, depth)->Some_0;
                assert(values[i] == next[i]);
                if expression_eq(value, first) && forall|k: int|
                    i + 1 <= k < values.len() ==> expression_eq(#[trigger] values[k], first) {
                    assert forall|k: int| i <= k < values.len() implies expression_eq(
                        #[trigger] values[k],
                        first,
                    ) by {
                        if k > i {
                            assert(expression_eq(values[k], first));
                        }
                    }
                }
                if forall|k: int| i <= k < values.len() ==> expression_eq(#[trigger] values[k], first) {
                    assert(expression_eq(values[i], first));
                }
            }
        }
    }
}

/// `=` with at least two arguments returns `true` exactly when all of its
/// arguments evaluate and their values are pairwise structurally equal.
pub proof fn law_equal_true_iff_pairwise_equal(
    arguments: Seq<ExpressionView>,
    env: Bindings,
    depth: nat,
)
    requires
        arguments.len() >= 2,
    ensures
        apply_builtin(BuiltIn::Equal, arguments, env, depth).result == Ok::<
            ExpressionView,
            ErrorView,
        >(boolean(true)) <==> (values_from(arguments, 0, Seq::empty(), env, depth) matches Some(
            values,
        ) && pairwise_equal(values)),
{
    let first = eval(arguments[0], env, depth);
    if first.result is Ok {
        let v0 = first.result->Ok_0;
        let acc = Seq::<ExpressionView>::empty().push(v0);
        lemma_equals_from_true(v0, arguments, 1, acc, first.bindings, depth);
        if values_from(arguments, 0, Seq::empty(), env, depth) is Some {
            law_equal_is_pairwise_equality(arguments, env, depth);
        }
    }
}

/// `not` with any number of arguments but one fails with
/// `ExactArityMismatch`, and changes no binding.
pub proof fn law_not_takes_one_argument(arguments: Seq<ExpressionView>, env: Bindings, depth: nat)
    requires
        arguments.len() != 1,
    ensures
        apply_builtin(BuiltIn::Not, arguments, env, depth) == (Outcome {
            result: Err(
                ErrorView::ExactArityMismatch { expected: 1, received: arity(arguments.len()) },
            ),
            bindings: env,
        }),
        arguments.len() == 0 ==> arity(arguments.len()) == 0,
        arguments.len() == 2 ==> arity(arguments.len()) == 2,
{
}

/// `not` of one argument that evaluates to a boolean is its negation; of
/// one that evaluates to anything else it is a `TypeMismatch` that expected
/// a boolean.
pub proof fn law_not_negates(argument: ExpressionView, env: Bindings, depth: nat)
    requires
        eval(argument, env, depth).result is Ok,
    ensures
        ({
            let value = eval(argument, env, depth).result->Ok_0;
            let o = apply_builtin(BuiltIn::Not, seq![argument], env, depth);
            &&& o.bindings == eval(argument, env, depth).bindings
            &&& match value {
                ExpressionView::Atom(AtomView::Boolean(b)) => o.result == Ok::<
                    ExpressionView,
                    ErrorView,
                >(boolean(!b)),
                other => o.result == Err::<ExpressionView, ErrorView>(
                    ErrorView::TypeMismatch {
                        expected: "boolean"@,
                        received: expression_label(other)@,
                    },
                ),
            }
        }),
{
    let b = eval_bool(argument, env, depth);
    assert(seq![argument][0] == argument);
}

/// Once a binding has been evaluated, its identifier evaluates to the value
/// that the binding returned.
pub proof fn law_binding_is_visible(
    identifier: Seq<char>,
    expression: ExpressionView,
    env: Bindings,
    depth: nat,
    later_depth: nat,
)
    requires
        later_depth > 0,
        eval(
            ExpressionView::Binding { identifier, expression: Box::new(expression) },
            env,
            depth,
        ).result is Ok,
    ensures
        ({
            let bound = eval(
                ExpressionView::Binding { identifier, expression: Box::new(expression) },
                env,
                depth,
            );
            eval(ExpressionView::Atom(AtomView::Identifier(identifier)), bound.bindings, later_depth)
                == (Outcome { result: bound.result, bindings: bound.bindings })
        }),
{
}

/// A lambda applied to a number of arguments other than the number of its
/// formals fails with `ExactArityMismatch`, and changes no binding.
pub proof fn law_lambda_arity(
    formals: Seq<Seq<char>>,
    body: ExpressionView,
    received: Seq<ExpressionView>,
    env: Bindings,
    depth: nat,
)
    requires
        formals.len() != received.len(),
    ensures
        apply_lambda(formals, body, received, env, depth) == (Outcome {
            result: Err(
                ErrorView::ExactArityMismatch {
                    expected: arity(formals.len()),
                    received: arity(received.len()),
                },
            ),
            bindings: env,
        }),
{
}

} // verus!
