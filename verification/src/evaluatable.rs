//! Evaluation as callers use it: against an environment, to the depth that
//! the environment allows.

use vstd::prelude::*;
use crate::env::Env;
use crate::error::Error;
use crate::evaluator::{agrees, resolve_argument_within};
use crate::expression::{
    expressions_view, names_view, Application, Atom, Binding, BuiltIn, Expression,
    ExpressionView, If, IfElse, Lambda,
};
use crate::semantics::{
    apply_builtin, apply_lambda, eval, resolve, resolve_argument_spec, resolve_arguments_from,
    Outcome,
};
use crate::small_string::SmallString;

verus! {

/// What can be evaluated to an expression.
pub trait Evaluable: Sized {
    /// This value as an expression tree.
    spec fn tree(&self) -> ExpressionView;

    /// Evaluates this value against `env`, to the depth that `env` allows.
    fn evaluate(self, env: &mut Env) -> (r: Result<Expression, Error>)
        ensures
            agrees(r, final(env)@, eval(self.tree(), old(env)@, old(env).max_depth() as nat)),
            final(env).max_depth() == old(env).max_depth(),
    ;
}

impl Evaluable for Expression {
    open spec fn tree(&self) -> ExpressionView {
        self@
    }

    fn evaluate(self, env: &mut Env) -> (r: Result<Expression, Error>) {
        let depth = env.max_depth();
        self.evaluate_within(env, depth)
    }
}

impl Evaluable for Atom {
    open spec fn tree(&self) -> ExpressionView {
        ExpressionView::Atom(self@)
    }

    fn evaluate(self, env: &mut Env) -> (r: Result<Expression, Error>) {
        let depth = env.max_depth();
        Expression::Atom(self).evaluate_within(env, depth)
    }
}

impl Evaluable for If {
    open spec fn tree(&self) -> ExpressionView {
        ExpressionView::If {
            condition: Box::new(self.condition@),
            do_this: Box::new(self.do_this@),
        }
    }

    fn evaluate(self, env: &mut Env) -> (r: Result<Expression, Error>) {
        let depth = env.max_depth();
        Expression::If(Box::new(self)).evaluate_within(env, depth)
    }
}

impl Evaluable for IfElse {
    open spec fn tree(&self) -> ExpressionView {
        ExpressionView::IfElse {
            condition: Box::new(self.condition@),
            if_true: Box::new(self.if_true@),
            if_false: Box::new(self.if_false@),
        }
    }

    fn evaluate(self, env: &mut Env) -> (r: Result<Expression, Error>) {
        let depth = env.max_depth();
        Expression::IfElse(Box::new(self)).evaluate_within(env, depth)
    }
}

impl Evaluable for Application {
    open spec fn tree(&self) -> ExpressionView {
        ExpressionView::Application {
            name: self.name@,
            arguments: expressions_view(self.arguments@),
        }
    }

    fn evaluate(self, env: &mut Env) -> (r: Result<Expression, Error>) {
        let depth = env.max_depth();
        Expression::Application(self).evaluate_within(env, depth)
    }
}

impl Evaluable for Binding {
    open spec fn tree(&self) -> ExpressionView {
        ExpressionView::Binding {
            identifier: self.identifier@,
            expression: Box::new(self.expression@),
        }
    }

    fn evaluate(self, env: &mut Env) -> (r: Result<Expression, Error>) {
        let depth = env.max_depth();
        Expression::Binding(Box::new(self)).evaluate_within(env, depth)
    }
}

/// Evaluates the argument received for the formal called `identifier`;
/// `UnknownSymbol` where no formal has that name.
pub fn resolve_argument(
    identifier: &SmallString,
    fn_arguments: &Vec<SmallString>,
    received_arguments: &Vec<Expression>,
    env: &mut Env,
) -> (r: Result<Expression, Error>)
    ensures
        agrees(
            r,
            final(env)@,
            resolve_argument_spec(
                identifier@,
                names_view(fn_arguments@),
                expressions_view(received_arguments@),
                old(env)@,
                old(env).max_depth() as nat,
            ),
        ),
        final(env).max_depth() == old(env).max_depth(),
{
    let depth = env.max_depth();
    resolve_argument_within(identifier, fn_arguments, received_arguments, env, depth)
}

/// Substitution in `e`, then evaluation of what it gives.
pub open spec fn resolve_then_eval(
    e: ExpressionView,
    formals: Seq<Seq<char>>,
    received: Seq<ExpressionView>,
    env: crate::semantics::Bindings,
    depth: nat,
) -> Outcome {
    let o = resolve(e, formals, received, env, depth);
    match o.result {
        Ok(resolved) => eval(resolved, o.bindings, depth),
        Err(_) => o,
    }
}

impl If {
    /// Substitutes the received arguments for the formals in the condition
    /// and the branch, then evaluates.
    pub fn resolve_identifiers_and_eval(
        self,
        fn_arguments: &Vec<SmallString>,
        received_arguments: &Vec<Expression>,
        env: &mut Env,
    ) -> (r: Result<Expression, Error>)
        ensures
            agrees(
                r,
                final(env)@,
                resolve_then_eval(
                    self.tree(),
                    names_view(fn_arguments@),
                    expressions_view(received_arguments@),
                    old(env)@,
                    old(env).max_depth() as nat,
                ),
            ),
            final(env).max_depth() == old(env).max_depth(),
    {
        let depth = env.max_depth();
        let whole = Expression::If(Box::new(self));
        let resolved = whole.resolve_within(fn_arguments, received_arguments, env, depth)?;
        resolved.evaluate_within(env, depth)
    }
}

impl IfElse {
    /// Substitutes the received arguments for the formals in the condition
    /// and both branches, then evaluates.
    pub fn resolve_identifiers_and_eval(
        self,
        fn_arguments: &Vec<SmallString>,
        received_arguments: &Vec<Expression>,
        env: &mut Env,
    ) -> (r: Result<Expression, Error>)
        ensures
            agrees(
                r,
                final(env)@,
                resolve_then_eval(
                    self.tree(),
                    names_view(fn_arguments@),
                    expressions_view(received_arguments@),
                    old(env)@,
                    old(env).max_depth() as nat,
                ),
            ),
            final(env).max_depth() == old(env).max_depth(),
    {
        let depth = env.max_depth();
        let whole = Expression::IfElse(Box::new(self));
        let resolved = whole.resolve_within(fn_arguments, received_arguments, env, depth)?;
        resolved.evaluate_within(env, depth)
    }
}

impl Expression {
    /// Substitutes the received arguments for the formals throughout this
    /// expression, in place. On an error the expression is left as it was.
    pub fn resolve_all(
        &mut self,
        fn_arguments: &Vec<SmallString>,
        received_arguments: &Vec<Expression>,
        env: &mut Env,
    ) -> (r: Result<(), Error>)
        ensures
            ({
                let o = resolve(
                    old(self)@,
                    names_view(fn_arguments@),
                    expressions_view(received_arguments@),
                    old(env)@,
                    old(env).max_depth() as nat,
                );
                &&& final(env)@ == o.bindings
                &&& match r {
                    Ok(_) => o.result == Ok::<ExpressionView, crate::error::ErrorView>(final(self)@),
                    Err(error) => o.result == Err::<ExpressionView, crate::error::ErrorView>(error@)
                        && final(self)@ == old(self)@,
                }
            }),
            final(env).max_depth() == old(env).max_depth(),
    {
        let depth = env.max_depth();
        match self.resolve_within(fn_arguments, received_arguments, env, depth) {
            Ok(resolved) => {
                *self = resolved;
                Ok(())
            },
            Err(error) => Err(error),
        }
    }
}

impl Application {
    /// Substitutes the received arguments for the formals among this
    /// application's arguments and in the applications nested in them, in
    /// place. On an error the application is left as it was.
    pub fn resolve_all(
        &mut self,
        fn_arguments: &Vec<SmallString>,
        received_arguments: &Vec<Expression>,
        env: &mut Env,
    ) -> (r: Result<(), Error>)
        ensures
            ({
                let o = resolve_arguments_from(
                    expressions_view(old(self).arguments@),
                    0,
                    Seq::empty(),
                    names_view(fn_arguments@),
                    expressions_view(received_arguments@),
                    old(env)@,
                    old(env).max_depth() as nat,
                );
                &&& final(env)@ == o.bindings
                &&& final(self).name@ == old(self).name@
                &&& match r {
                    Ok(_) => o.result == Ok::<Seq<ExpressionView>, crate::error::ErrorView>(
                        expressions_view(final(self).arguments@),
                    ),
                    Err(error) => o.result == Err::<Seq<ExpressionView>, crate::error::ErrorView>(
                        error@,
                    ) && expressions_view(final(self).arguments@) == expressions_view(
                        old(self).arguments@,
                    ),
                }
            }),
            final(env).max_depth() == old(env).max_depth(),
    {
        let depth = env.max_depth();
        match self.resolve_within(fn_arguments, received_arguments, env, depth) {
            Ok(resolved) => {
                self.arguments = resolved;
                Ok(())
            },
            Err(error) => Err(error),
        }
    }
}

impl BuiltIn {
    /// Applies this operator to unevaluated arguments.
    pub fn apply(self, args: Vec<Expression>, env: &mut Env) -> (r: Result<Expression, Error>)
        ensures
            agrees(
                r,
                final(env)@,
                apply_builtin(self, expressions_view(args@), old(env)@, old(env).max_depth() as nat),
            ),
            final(env).max_depth() == old(env).max_depth(),
    {
        let depth = env.max_depth();
        self.apply_within(&args, env, depth)
    }
}

impl Lambda {
    /// Applies this lambda to unevaluated arguments.
    pub fn apply(self, received_arguments: Vec<Expression>, env: &mut Env) -> (r: Result<
        Expression,
        Error,
    >)
        ensures
            agrees(
                r,
                final(env)@,
                apply_lambda(
                    names_view(self.arguments@),
                    self.body@,
                    expressions_view(received_arguments@),
                    old(env)@,
                    old(env).max_depth() as nat,
                ),
            ),
            final(env).max_depth() == old(env).max_depth(),
    {
        let depth = env.max_depth();
        self.apply_within(&received_arguments, env, depth)
    }
}

} // verus!
