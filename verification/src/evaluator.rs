//! The tree-walking evaluator. Every function here is proved to compute what
//! `semantics` defines.

use vstd::prelude::*;
use crate::env::Env;
use crate::error::{Error, ErrorView};
use crate::expression::{
    duplicate_all, expressions_view, lemma_expressions_view, names_view, Application, Atom,
    Binding, BuiltIn, Expression, ExpressionView, FnIdentifier, If, IfElse, Lambda,
};
use crate::number::{
    difference_bits, product_bits, quotient_bits, remainder_bits, sum_bits, ONE, ZERO,
};
use crate::semantics::{
    apply_builtin, apply_lambda, arithmetic, arity, boolean, cond_from, count_from, equals_from,
    eval, eval_bool, eval_number, fold_from, identity, logic_from, position, position_from,
    resolve, resolve_all_from, resolve_argument_spec, resolve_arguments_from, substitute,
    Bindings, BoolOutcome, ListOutcome, NumberOutcome, Outcome,
};
use crate::small_string::SmallString;
use crate::type_info::Typed;

verus! {

/// An executable result and the bindings left say what `o` says.
pub open spec fn agrees(r: Result<Expression, Error>, bindings: Bindings, o: Outcome) -> bool {
    &&& bindings == o.bindings
    &&& match r {
        Ok(value) => o.result == Ok::<ExpressionView, ErrorView>(value@),
        Err(error) => o.result == Err::<ExpressionView, ErrorView>(error@),
    }
}

pub open spec fn agrees_number(r: Result<u64, Error>, bindings: Bindings, o: NumberOutcome) -> bool {
    &&& bindings == o.bindings
    &&& match r {
        Ok(bits) => o.result == Ok::<u64, ErrorView>(bits),
        Err(error) => o.result == Err::<u64, ErrorView>(error@),
    }
}

pub open spec fn agrees_bool(r: Result<bool, Error>, bindings: Bindings, o: BoolOutcome) -> bool {
    &&& bindings == o.bindings
    &&& match r {
        Ok(b) => o.result == Ok::<bool, ErrorView>(b),
        Err(error) => o.result == Err::<bool, ErrorView>(error@),
    }
}

pub open spec fn agrees_list(
    r: Result<Vec<Expression>, Error>,
    bindings: Bindings,
    o: ListOutcome,
) -> bool {
    &&& bindings == o.bindings
    &&& match r {
        Ok(items) => o.result == Ok::<Seq<ExpressionView>, ErrorView>(expressions_view(items@)),
        Err(error) => o.result == Err::<Seq<ExpressionView>, ErrorView>(error@),
    }
}

/// An argument count as errors report it.
pub fn arity_of(n: usize) -> (r: u8)
    ensures
        r == arity(n as nat),
{
    if n > 255 {
        255
    } else {
        n as u8
    }
}

/// The first position of `name` among `names`.
pub fn position_of(names: &Vec<SmallString>, name: &SmallString) -> (r: Option<usize>)
    ensures
        match r {
            Some(idx) => position(names_view(names@), name@) == Some(idx as int) && idx
                < names.len(),
            None => position(names_view(names@), name@) is None,
        },
{
    let mut i: usize = 0;
    while i < names.len()
        invariant
            i <= names.len(),
            position(names_view(names@), name@) == position_from(
                names_view(names@),
                name@,
                i as int,
            ),
        decreases names.len() - i,
    {
        if names[i].same_text(name) {
            return Some(i);
        }
        i += 1;
    }
    None
}

/// Applies an arithmetic operator to two numbers.
pub fn compute(op: BuiltIn, a: u64, b: u64) -> (r: u64)
    ensures
        r == arithmetic(op, a, b),
{
    match op {
        BuiltIn::Plus => sum_bits(a, b),
        BuiltIn::Minus => difference_bits(a, b),
        BuiltIn::Times => product_bits(a, b),
        _ => quotient_bits(a, b),
    }
}

/// The identity of an arithmetic operator.
pub fn identity_of(op: BuiltIn) -> (r: u64)
    ensures
        r == identity(op),
{
    match op {
        BuiltIn::Plus => ZERO,
        BuiltIn::Minus => ZERO,
        _ => ONE,
    }
}

/// Evaluates `e` and takes the result as a number.
pub fn evaluate_number(e: &Expression, env: &mut Env, depth: usize) -> (r: Result<u64, Error>)
    ensures
        agrees_number(r, final(env)@, eval_number(e@, old(env)@, depth as nat)),
        final(env).max_depth() == old(env).max_depth(),
    decreases depth, 1nat, 0nat,
{
    match e.evaluate_within(env, depth) {
        Ok(value) => value.as_number(),
        Err(error) => Err(error),
    }
}

/// Evaluates `e` and takes the result as a boolean.
pub fn evaluate_bool(e: &Expression, env: &mut Env, depth: usize) -> (r: Result<bool, Error>)
    ensures
        agrees_bool(r, final(env)@, eval_bool(e@, old(env)@, depth as nat)),
        final(env).max_depth() == old(env).max_depth(),
    decreases depth, 1nat, 0nat,
{
    match e.evaluate_within(env, depth) {
        Ok(value) => value.as_bool(),
        Err(error) => Err(error),
    }
}

/// Whether `value` is the boolean `true`.
pub fn is_true(value: &Expression) -> (r: bool)
    ensures
        r == (value@ == boolean(true)),
{
    match value {
        Expression::Atom(Atom::Boolean(b)) => *b,
        _ => false,
    }
}

impl Expression {
    /// Evaluates this expression against `env`, nesting at most `depth`
    /// levels.
    pub fn evaluate_within(&self, env: &mut Env, depth: usize) -> (r: Result<Expression, Error>)
        ensures
            agrees(r, final(env)@, eval(self@, old(env)@, depth as nat)),
            final(env).max_depth() == old(env).max_depth(),
        decreases depth, 0nat, 0nat,
    {
        if depth == 0 {
            return Err(Error::DepthExceeded);
        }
        let d: usize = depth - 1;
        match self {
            Expression::Atom(Atom::Identifier(name)) => env.get(name.duplicate()),
            Expression::Atom(atom) => Ok(Expression::Atom(atom.duplicate())),
            Expression::Lambda(_) => Ok(self.duplicate()),
            Expression::List(_) => Ok(self.duplicate()),
            Expression::If(e) => {
                let c = e.condition.evaluate_within(env, d)?;
                if is_true(&c) {
                    e.do_this.evaluate_within(env, d)
                } else {
                    Ok(Expression::Atom(Atom::Nil))
                }
            },
            Expression::IfElse(e) => {
                let c = e.condition.evaluate_within(env, d)?;
                if is_true(&c) {
                    e.if_true.evaluate_within(env, d)
                } else {
                    e.if_false.evaluate_within(env, d)
                }
            },
            Expression::Binding(b) => {
                let value = b.expression.evaluate_within(env, d)?;
                env.bind(b.identifier.duplicate(), value.duplicate());
                Ok(value)
            },
            Expression::Application(app) => match &app.name {
                FnIdentifier::BuiltIn(op) => op.apply_within(&app.arguments, env, d),
                FnIdentifier::Other(id) => {
                    let callee = env.get(id.duplicate())?;
                    match callee {
                        Expression::Lambda(lambda) => lambda.apply_within(&app.arguments, env, d),
                        other => Err(
                            Error::TypeMismatch { expected: "lambda", received: other.rough_type() },
                        ),
                    }
                },
            },
            Expression::Cond(items) => BuiltIn::cond(items, env, d),
        }
    }
}

impl BuiltIn {
    /// Applies this operator to unevaluated arguments, nesting at most
    /// `depth` levels.
    pub fn apply_within(self, args: &Vec<Expression>, env: &mut Env, depth: usize) -> (r: Result<
        Expression,
        Error,
    >)
        ensures
            agrees(r, final(env)@, apply_builtin(self, expressions_view(args@), old(env)@, depth as nat)),
            final(env).max_depth() == old(env).max_depth(),
        decreases depth, 5nat, 0nat,
    {
        proof {
            lemma_expressions_view(args@);
        }
        let n: usize = args.len();
        match self {
            BuiltIn::Plus | BuiltIn::Minus | BuiltIn::Times | BuiltIn::Divide => {
                Self::acc_numeric(self, args, env, depth)
            },
            BuiltIn::Equal => {
                if n < 2 {
                    return Err(Error::MinimumArityMismatch { at_least: 2, received: arity_of(n) });
                }
                Self::equals(args, env, depth)
            },
            BuiltIn::Not => {
                if n != 1 {
                    return Err(Error::ExactArityMismatch { expected: 1, received: arity_of(n) });
                }
                Self::not(args, env, depth)
            },
            BuiltIn::And => {
                if n < 2 {
                    return Err(Error::MinimumArityMismatch { at_least: 2, received: arity_of(n) });
                }
                Self::and(args, env, depth)
            },
            BuiltIn::Or => {
                if n < 2 {
                    return Err(Error::MinimumArityMismatch { at_least: 2, received: arity_of(n) });
                }
                Self::or(args, env, depth)
            },
            BuiltIn::Remainder => {
                if n != 2 {
                    return Err(Error::ExactArityMismatch { expected: 2, received: arity_of(n) });
                }
                let rhs = evaluate_number(&args[1], env, depth)?;
                let lhs = evaluate_number(&args[0], env, depth)?;
                Ok(Expression::number(remainder_bits(lhs, rhs)))
            },
            BuiltIn::Count => {
                if n != 2 {
                    return Err(Error::ExactArityMismatch { expected: 2, received: arity_of(n) });
                }
                let list = args[1].evaluate_within(env, depth)?;
                match list {
                    Expression::List(items) => {
                        let predicate = args[0].evaluate_within(env, depth)?;
                        match predicate {
                            Expression::Lambda(lambda) => Self::count(&lambda, &items, env, depth),
                            other => Err(
                                Error::TypeMismatch {
                                    expected: "lambda",
                                    received: other.rough_type(),
                                },
                            ),
                        }
                    },
                    other => Err(
                        Error::TypeMismatch { expected: "list", received: other.rough_type() },
                    ),
                }
            },
            BuiltIn::Cond => Self::cond(args, env, depth),
        }
    }

    /// Counts the items of which `predicate` is true.
    fn count(predicate: &Lambda, items: &Vec<Expression>, env: &mut Env, depth: usize) -> (r: Result<
        Expression,
        Error,
    >)
        ensures
            agrees(
                r,
                final(env)@,
                count_from(
                    names_view(predicate.arguments@),
                    predicate.body@,
                    expressions_view(items@),
                    0,
                    ZERO,
                    old(env)@,
                    depth as nat,
                ),
            ),
            final(env).max_depth() == old(env).max_depth(),
        decreases depth, 4nat, 1nat,
    {
        proof {
            lemma_expressions_view(items@);
        }
        let mut acc: u64 = ZERO;
        let mut i: usize = 0;
        while i < items.len()
            invariant
                i <= items.len(),
                env.max_depth() == old(env).max_depth(),
                expressions_view(items@).len() == items.len(),
                forall|j: int|
                    0 <= j < items.len() ==> #[trigger] expressions_view(items@)[j] == items[j]@,
                count_from(
                    names_view(predicate.arguments@),
                    predicate.body@,
                    expressions_view(items@),
                    0,
                    ZERO,
                    old(env)@,
                    depth as nat,
                ) == count_from(
                    names_view(predicate.arguments@),
                    predicate.body@,
                    expressions_view(items@),
                    i as int,
                    acc,
                    env@,
                    depth as nat,
                ),
            decreases items.len() - i,
        {
            let mut one: Vec<Expression> = Vec::new();
            one.push(items[i].duplicate());
            proof {
                lemma_expressions_view(one@);
                assert(expressions_view(one@) =~= seq![expressions_view(items@)[i as int]]);
            }
            let value = predicate.apply_within(&one, env, depth)?;
            if is_true(&value) {
                acc = sum_bits(acc, ONE);
            }
            i += 1;
        }
        Ok(Expression::number(acc))
    }

    /// A multi-branch conditional over `items`.
    pub fn cond(items: &Vec<Expression>, env: &mut Env, depth: usize) -> (r: Result<
        Expression,
        Error,
    >)
        ensures
            agrees(r, final(env)@, cond_from(expressions_view(items@), 0, old(env)@, depth as nat)),
            final(env).max_depth() == old(env).max_depth(),
        decreases depth, 2nat, 0nat,
    {
        proof {
            lemma_expressions_view(items@);
        }
        let n: usize = items.len();
        let mut i: usize = 0;
        while i < n && n - i >= 2
            invariant
                i <= n,
                n == items.len(),
                env.max_depth() == old(env).max_depth(),
                expressions_view(items@).len() == items.len(),
                forall|j: int|
                    0 <= j < items.len() ==> #[trigger] expressions_view(items@)[j] == items[j]@,
                cond_from(expressions_view(items@), 0, old(env)@, depth as nat) == cond_from(
                    expressions_view(items@),
                    i as int,
                    env@,
                    depth as nat,
                ),
            decreases n - i,
        {
            let c = items[i].evaluate_within(env, depth)?;
            if is_true(&c) {
                return items[i + 1].evaluate_within(env, depth);
            }
            i += 2;
        }
        if i < n {
            items[i].evaluate_within(env, depth)
        } else {
            Ok(Expression::Atom(Atom::Nil))
        }
    }

    /// `not` of the one argument.
    fn not(args: &Vec<Expression>, env: &mut Env, depth: usize) -> (r: Result<Expression, Error>)
        requires
            args.len() == 1,
        ensures
            agrees(
                r,
                final(env)@,
                apply_builtin(BuiltIn::Not, expressions_view(args@), old(env)@, depth as nat),
            ),
            final(env).max_depth() == old(env).max_depth(),
        decreases depth, 2nat, 0nat,
    {
        proof {
            lemma_expressions_view(args@);
        }
        let b = evaluate_bool(&args[0], env, depth)?;
        Ok(Expression::boolean(!b))
    }

    /// `and` (with `stop` false) or `or` (with `stop` true) of the
    /// arguments.
    fn logic(stop: bool, args: &Vec<Expression>, env: &mut Env, depth: usize) -> (r: Result<
        Expression,
        Error,
    >)
        ensures
            agrees(
                r,
                final(env)@,
                logic_from(stop, expressions_view(args@), 0, old(env)@, depth as nat),
            ),
            final(env).max_depth() == old(env).max_depth(),
        decreases depth, 2nat, 0nat,
    {
        proof {
            lemma_expressions_view(args@);
        }
        let mut i: usize = 0;
        while i < args.len()
            invariant
                i <= args.len(),
                env.max_depth() == old(env).max_depth(),
                expressions_view(args@).len() == args.len(),
                forall|j: int|
                    0 <= j < args.len() ==> #[trigger] expressions_view(args@)[j] == args[j]@,
                logic_from(stop, expressions_view(args@), 0, old(env)@, depth as nat) == logic_from(
                    stop,
                    expressions_view(args@),
                    i as int,
                    env@,
                    depth as nat,
                ),
            decreases args.len() - i,
        {
            let b = evaluate_bool(&args[i], env, depth)?;
            if b == stop {
                return Ok(Expression::boolean(stop));
            }
            i += 1;
        }
        Ok(Expression::boolean(!stop))
    }

    /// `and` of at least two arguments.
    fn and(args: &Vec<Expression>, env: &mut Env, depth: usize) -> (r: Result<Expression, Error>)
        ensures
            agrees(
                r,
                final(env)@,
                logic_from(false, expressions_view(args@), 0, old(env)@, depth as nat),
            ),
            final(env).max_depth() == old(env).max_depth(),
        decreases depth, 3nat, 0nat,
    {
        Self::logic(false, args, env, depth)
    }

    /// `or` of at least two arguments.
    fn or(args: &Vec<Expression>, env: &mut Env, depth: usize) -> (r: Result<Expression, Error>)
        ensures
            agrees(
                r,
                final(env)@,
                logic_from(true, expressions_view(args@), 0, old(env)@, depth as nat),
            ),
            final(env).max_depth() == old(env).max_depth(),
        decreases depth, 3nat, 0nat,
    {
        Self::logic(true, args, env, depth)
    }

    /// `=` of at least two arguments.
    fn equals(args: &Vec<Expression>, env: &mut Env, depth: usize) -> (r: Result<Expression, Error>)
        requires
            args.len() >= 2,
        ensures
            agrees(
                r,
                final(env)@,
                apply_builtin(BuiltIn::Equal, expressions_view(args@), old(env)@, depth as nat),
            ),
            final(env).max_depth() == old(env).max_depth(),
        decreases depth, 2nat, 0nat,
    {
        proof {
            lemma_expressions_view(args@);
        }
        let first = args[0].evaluate_within(env, depth)?;
        let ghost after_first = env@;
        let mut i: usize = 1;
        while i < args.len()
            invariant
                1 <= i <= args.len(),
                env.max_depth() == old(env).max_depth(),
                expressions_view(args@).len() == args.len(),
                forall|j: int|
                    0 <= j < args.len() ==> #[trigger] expressions_view(args@)[j] == args[j]@,
                apply_builtin(BuiltIn::Equal, expressions_view(args@), old(env)@, depth as nat)
                    == equals_from(first@, expressions_view(args@), 1, after_first, depth as nat),
                equals_from(first@, expressions_view(args@), 1, after_first, depth as nat)
                    == equals_from(first@, expressions_view(args@), i as int, env@, depth as nat),
            decreases args.len() - i,
        {
            let value = args[i].evaluate_within(env, depth)?;
            if !value.equals(&first) {
                return Ok(Expression::boolean(false));
            }
            i += 1;
        }
        Ok(Expression::boolean(true))
    }

    /// Folds the arguments with the arithmetic operator `op`.
    fn acc_numeric(op: BuiltIn, args: &Vec<Expression>, env: &mut Env, depth: usize) -> (r: Result<
        Expression,
        Error,
    >)
        requires
            op == BuiltIn::Plus || op == BuiltIn::Minus || op == BuiltIn::Times || op
                == BuiltIn::Divide,
        ensures
            agrees(r, final(env)@, apply_builtin(op, expressions_view(args@), old(env)@, depth as nat)),
            final(env).max_depth() == old(env).max_depth(),
        decreases depth, 2nat, 0nat,
    {
        proof {
            lemma_expressions_view(args@);
        }
        if args.len() == 0 {
            return Ok(Expression::number(ZERO));
        }
        let first = evaluate_number(&args[0], env, depth)?;
        if args.len() == 1 {
            return Ok(Expression::number(compute(op, identity_of(op), first)));
        }
        let ghost after_first = env@;
        let mut acc: u64 = first;
        let mut i: usize = 1;
        while i < args.len()
            invariant
                1 <= i <= args.len(),
                env.max_depth() == old(env).max_depth(),
                expressions_view(args@).len() == args.len(),
                forall|j: int|
                    0 <= j < args.len() ==> #[trigger] expressions_view(args@)[j] == args[j]@,
                apply_builtin(op, expressions_view(args@), old(env)@, depth as nat) == fold_from(
                    op,
                    first,
                    expressions_view(args@),
                    1,
                    after_first,
                    depth as nat,
                ),
                fold_from(op, first, expressions_view(args@), 1, after_first, depth as nat)
                    == fold_from(op, acc, expressions_view(args@), i as int, env@, depth as nat),
            decreases args.len() - i,
        {
            let next = evaluate_number(&args[i], env, depth)?;
            acc = compute(op, acc, next);
            i += 1;
        }
        Ok(Expression::number(acc))
    }
}

/// Evaluates the argument received for the formal called `identifier`.
pub fn resolve_argument_within(
    identifier: &SmallString,
    fn_arguments: &Vec<SmallString>,
    received_arguments: &Vec<Expression>,
    env: &mut Env,
    depth: usize,
) -> (r: Result<Expression, Error>)
    ensures
        agrees(
            r,
            final(env)@,
            resolve_argument_spec(
                identifier@,
                names_view(fn_arguments@),
                expressions_view(received_arguments@),
                old(env)@,
                depth as nat,
            ),
        ),
        final(env).max_depth() == old(env).max_depth(),
    decreases depth, 1nat, 0nat,
{
    proof {
        lemma_expressions_view(received_arguments@);
    }
    match position_of(fn_arguments, identifier) {
        Some(idx) => if idx < received_arguments.len() {
            received_arguments[idx].evaluate_within(env, depth)
        } else {
            Err(Error::UnknownSymbol(identifier.duplicate()))
        },
        None => Err(Error::UnknownSymbol(identifier.duplicate())),
    }
}

/// What stands in for `identifier` in a lambda's body.
fn substitute_within(
    identifier: &SmallString,
    fn_arguments: &Vec<SmallString>,
    received_arguments: &Vec<Expression>,
    env: &mut Env,
    depth: usize,
) -> (r: Result<Expression, Error>)
    ensures
        agrees(
            r,
            final(env)@,
            substitute(
                identifier@,
                names_view(fn_arguments@),
                expressions_view(received_arguments@),
                old(env)@,
                depth as nat,
            ),
        ),
        final(env).max_depth() == old(env).max_depth(),
    decreases depth, 1nat, 1nat,
{
    match resolve_argument_within(identifier, fn_arguments, received_arguments, env, depth) {
        Ok(value) => Ok(value),
        Err(Error::DepthExceeded) => Err(Error::DepthExceeded),
        Err(_) => Expression::Atom(Atom::Identifier(identifier.duplicate())).evaluate_within(
            env,
            depth,
        ),
    }
}

/// Substitution in every item of a list.
fn resolve_each(
    items: &Vec<Expression>,
    fn_arguments: &Vec<SmallString>,
    received_arguments: &Vec<Expression>,
    env: &mut Env,
    depth: usize,
) -> (r: Result<Vec<Expression>, Error>)
    ensures
        agrees_list(
            r,
            final(env)@,
            resolve_all_from(
                expressions_view(items@),
                0,
                Seq::empty(),
                names_view(fn_arguments@),
                expressions_view(received_arguments@),
                old(env)@,
                depth as nat,
            ),
        ),
        final(env).max_depth() == old(env).max_depth(),
    decreases depth, 3nat, 0nat,
{
    proof {
        lemma_expressions_view(items@);
    }
    let mut done: Vec<Expression> = Vec::new();
    let mut i: usize = 0;
    assert(expressions_view(done@) =~= Seq::empty());
    while i < items.len()
        invariant
            i <= items.len(),
            env.max_depth() == old(env).max_depth(),
            expressions_view(items@).len() == items.len(),
            forall|j: int|
                0 <= j < items.len() ==> #[trigger] expressions_view(items@)[j] == items[j]@,
            resolve_all_from(
                expressions_view(items@),
                0,
                Seq::empty(),
                names_view(fn_arguments@),
                expressions_view(received_arguments@),
                old(env)@,
                depth as nat,
            ) == resolve_all_from(
                expressions_view(items@),
                i as int,
                expressions_view(done@),
                names_view(fn_arguments@),
                expressions_view(received_arguments@),
                env@,
                depth as nat,
            ),
        decreases items.len() - i,
    {
        let value = items[i].resolve_within(fn_arguments, received_arguments, env, depth)?;
        let ghost before = expressions_view(done@);
        let ghost tree = value@;
        done.push(value);
        proof {
            lemma_expressions_view(done@);
            lemma_expressions_view(done@.drop_last());
            assert(expressions_view(done@) =~= before.push(tree));
        }
        i += 1;
    }
    Ok(done)
}

impl Expression {
    /// Substitutes the received arguments for the formals throughout this
    /// expression, nesting at most `depth` levels.
    pub fn resolve_within(
        &self,
        fn_arguments: &Vec<SmallString>,
        received_arguments: &Vec<Expression>,
        env: &mut Env,
        depth: usize,
    ) -> (r: Result<Expression, Error>)
        ensures
            agrees(
                r,
                final(env)@,
                resolve(
                    self@,
                    names_view(fn_arguments@),
                    expressions_view(received_arguments@),
                    old(env)@,
                    depth as nat,
                ),
            ),
            final(env).max_depth() == old(env).max_depth(),
        decreases depth, 2nat, 0nat,
    {
        match self {
            Expression::Atom(Atom::Identifier(name)) => substitute_within(
                name,
                fn_arguments,
                received_arguments,
                env,
                depth,
            ),
            Expression::Atom(_) => Ok(self.duplicate()),
            Expression::Lambda(_) => Ok(self.duplicate()),
            Expression::List(_) => Ok(self.duplicate()),
            Expression::Binding(_) => Ok(self.duplicate()),
            Expression::Cond(items) => {
                if depth == 0 {
                    return Err(Error::DepthExceeded);
                }
                let resolved = resolve_each(items, fn_arguments, received_arguments, env, depth - 1)?;
                Ok(Expression::Cond(resolved))
            },
            Expression::Application(app) => {
                if depth == 0 {
                    return Err(Error::DepthExceeded);
                }
                let resolved = resolve_each(
                    &app.arguments,
                    fn_arguments,
                    received_arguments,
                    env,
                    depth - 1,
                )?;
                Ok(
                    Expression::Application(
                        Application { name: app.name.duplicate(), arguments: resolved },
                    ),
                )
            },
            Expression::If(e) => {
                if depth == 0 {
                    return Err(Error::DepthExceeded);
                }
                let condition = e.condition.resolve_within(
                    fn_arguments,
                    received_arguments,
                    env,
                    depth - 1,
                )?;
                let do_this = e.do_this.resolve_within(
                    fn_arguments,
                    received_arguments,
                    env,
                    depth - 1,
                )?;
                Ok(Expression::If(Box::new(If { condition, do_this })))
            },
            Expression::IfElse(e) => {
                if depth == 0 {
                    return Err(Error::DepthExceeded);
                }
                let condition = e.condition.resolve_within(
                    fn_arguments,
                    received_arguments,
                    env,
                    depth - 1,
                )?;
                let if_true = e.if_true.resolve_within(
                    fn_arguments,
                    received_arguments,
                    env,
                    depth - 1,
                )?;
                let if_false = e.if_false.resolve_within(
                    fn_arguments,
                    received_arguments,
                    env,
                    depth - 1,
                )?;
                Ok(Expression::IfElse(Box::new(IfElse { condition, if_true, if_false })))
            },
        }
    }
}

impl Application {
    /// Substitutes the received arguments for the formals among this
    /// application's arguments and in the applications nested in them,
    /// nesting at most `depth` levels. Returns the new arguments.
    pub fn resolve_within(
        &self,
        fn_arguments: &Vec<SmallString>,
        received_arguments: &Vec<Expression>,
        env: &mut Env,
        depth: usize,
    ) -> (r: Result<Vec<Expression>, Error>)
        ensures
            agrees_list(
                r,
                final(env)@,
                resolve_arguments_from(
                    expressions_view(self.arguments@),
                    0,
                    Seq::empty(),
                    names_view(fn_arguments@),
                    expressions_view(received_arguments@),
                    old(env)@,
                    depth as nat,
                ),
            ),
            final(env).max_depth() == old(env).max_depth(),
        decreases depth, 3nat, 0nat,
    {
        proof {
            lemma_expressions_view(self.arguments@);
        }
        let mut done: Vec<Expression> = Vec::new();
        let mut i: usize = 0;
        assert(expressions_view(done@) =~= Seq::empty());
        while i < self.arguments.len()
            invariant
                i <= self.arguments.len(),
                env.max_depth() == old(env).max_depth(),
                expressions_view(self.arguments@).len() == self.arguments.len(),
                forall|j: int|
                    0 <= j < self.arguments.len() ==> #[trigger] expressions_view(
                        self.arguments@,
                    )[j] == self.arguments[j]@,
                resolve_arguments_from(
                    expressions_view(self.arguments@),
                    0,
                    Seq::empty(),
                    names_view(fn_arguments@),
                    expressions_view(received_arguments@),
                    old(env)@,
                    depth as nat,
                ) == resolve_arguments_from(
                    expressions_view(self.arguments@),
                    i as int,
                    expressions_view(done@),
                    names_view(fn_arguments@),
                    expressions_view(received_arguments@),
                    env@,
                    depth as nat,
                ),
            decreases self.arguments.len() - i,
        {
            let value = match &self.arguments[i] {
                Expression::Atom(Atom::Identifier(name)) => substitute_within(
                    name,
                    fn_arguments,
                    received_arguments,
                    env,
                    depth,
                )?,
                Expression::Application(inner) => {
                    if depth == 0 {
                        return Err(Error::DepthExceeded);
                    }
                    let resolved = inner.resolve_within(
                        fn_arguments,
                        received_arguments,
                        env,
                        depth - 1,
                    )?;
                    Expression::Application(
                        Application { name: inner.name.duplicate(), arguments: resolved },
                    )
                },
                other => other.duplicate(),
            };
            let ghost before = expressions_view(done@);
            let ghost tree = value@;
            done.push(value);
            proof {
                lemma_expressions_view(done@);
                lemma_expressions_view(done@.drop_last());
                assert(expressions_view(done@) =~= before.push(tree));
            }
            i += 1;
        }
        Ok(done)
    }
}

impl Lambda {
    /// Applies this lambda to unevaluated arguments, nesting at most
    /// `depth` levels.
    pub fn apply_within(&self, received_arguments: &Vec<Expression>, env: &mut Env, depth: usize) -> (r:
        Result<Expression, Error>)
        ensures
            agrees(
                r,
                final(env)@,
                apply_lambda(
                    names_view(self.arguments@),
                    self.body@,
                    expressions_view(received_arguments@),
                    old(env)@,
                    depth as nat,
                ),
            ),
            final(env).max_depth() == old(env).max_depth(),
        decreases depth, 4nat, 0nat,
    {
        proof {
            lemma_expressions_view(received_arguments@);
        }
        if self.arguments.len() != received_arguments.len() {
            return Err(
                Error::ExactArityMismatch {
                    expected: arity_of(self.arguments.len()),
                    received: arity_of(received_arguments.len()),
                },
            );
        }
        match &self.body {
            Expression::Atom(Atom::Identifier(name)) => resolve_argument_within(
                name,
                &self.arguments,
                received_arguments,
                env,
                depth,
            ),
            Expression::Atom(atom) => Ok(Expression::Atom(atom.duplicate())),
            Expression::List(items) => Ok(Expression::List(duplicate_all(items))),
            Expression::Application(app) => {
                let resolved = app.resolve_within(&self.arguments, received_arguments, env, depth)?;
                let call = Expression::Application(
                    Application { name: app.name.duplicate(), arguments: resolved },
                );
                call.evaluate_within(env, depth)
            },
            Expression::If(_) | Expression::IfElse(_) | Expression::Cond(_) => {
                let resolved = self.body.resolve_within(
                    &self.arguments,
                    received_arguments,
                    env,
                    depth,
                )?;
                resolved.evaluate_within(env, depth)
            },
            Expression::Binding(_) => self.body.evaluate_within(env, depth),
            Expression::Lambda(inner) => {
                if depth == 0 {
                    return Err(Error::DepthExceeded);
                }
                inner.apply_within(received_arguments, env, depth - 1)
            },
        }
    }
}

} // verus!
