//! What evaluation means: a definition of the value of every expression,
//! over mathematical trees and a map of bindings. The executable evaluator is
//! proved to compute exactly this.
//!
//! Every nested step of evaluation or substitution uses up one unit of
//! `depth`; where none is left the outcome is `DepthExceeded`.

use vstd::prelude::*;
use crate::error::ErrorView;
use crate::expression::{AtomView, BuiltIn, ExpressionView, FnIdentifierView};
use crate::number::{
    number_difference, number_eq, number_product, number_quotient, number_remainder, number_sum,
    ONE, ZERO,
};
use crate::type_info::expression_label;

verus! {

/// The bindings of an environment: identifier to last-bound value.
pub type Bindings = Map<Seq<char>, ExpressionView>;

/// The bindings of a fresh environment: none.
pub open spec fn no_bindings() -> Bindings {
    Map::empty()
}

/// Where an evaluation ends: its value or error, and the bindings it leaves.
pub struct Outcome {
    pub result: Result<ExpressionView, ErrorView>,
    pub bindings: Bindings,
}

/// Where the substitution of a list ends.
pub struct ListOutcome {
    pub result: Result<Seq<ExpressionView>, ErrorView>,
    pub bindings: Bindings,
}

/// Where the evaluation of a number ends.
pub struct NumberOutcome {
    pub result: Result<u64, ErrorView>,
    pub bindings: Bindings,
}

/// Where the evaluation of a boolean ends.
pub struct BoolOutcome {
    pub result: Result<bool, ErrorView>,
    pub bindings: Bindings,
}

pub open spec fn nil() -> ExpressionView {
    ExpressionView::Atom(AtomView::Nil)
}

pub open spec fn boolean(b: bool) -> ExpressionView {
    ExpressionView::Atom(AtomView::Boolean(b))
}

pub open spec fn number(bits: u64) -> ExpressionView {
    ExpressionView::Atom(AtomView::Number(bits))
}

pub open spec fn done(value: ExpressionView, bindings: Bindings) -> Outcome {
    Outcome { result: Ok(value), bindings }
}

pub open spec fn failed(error: ErrorView, bindings: Bindings) -> Outcome {
    Outcome { result: Err(error), bindings }
}

pub open spec fn type_mismatch(expected: &'static str, found: ExpressionView) -> ErrorView {
    ErrorView::TypeMismatch { expected: expected@, received: expression_label(found)@ }
}

/// An argument count as errors report it: counts above 255 read 255.
pub open spec fn arity(n: nat) -> u8 {
    if n > 255 {
        255u8
    } else {
        n as u8
    }
}

/// Atoms are equal when they are the same, except that numbers are compared
/// as numbers.
pub open spec fn atom_eq(a: AtomView, b: AtomView) -> bool {
    match (a, b) {
        (AtomView::Number(x), AtomView::Number(y)) => number_eq(x, y),
        (AtomView::Number(_), _) => false,
        (_, AtomView::Number(_)) => false,
        _ => a == b,
    }
}

/// Structural equality of two lists of expressions.
pub open spec fn all_eq(a: Seq<ExpressionView>, b: Seq<ExpressionView>) -> bool
    decreases a, 0nat,
{
    &&& a.len() == b.len()
    &&& forall|i: int| 0 <= i < a.len() && 0 <= i < b.len() ==> expression_eq(a[i], #[trigger] b[i])
}

/// Structural equality of two expressions, with numbers compared as numbers.
pub open spec fn expression_eq(a: ExpressionView, b: ExpressionView) -> bool
    decreases a, 1nat,
{
    match a {
        ExpressionView::Atom(x) => b matches ExpressionView::Atom(y) && atom_eq(x, y),
        ExpressionView::Application { name, arguments } => {
            &&& b matches ExpressionView::Application { name: name2, arguments: arguments2 }
            &&& name == name2
            &&& all_eq(arguments, arguments2)
        },
        ExpressionView::Cond(items) => b matches ExpressionView::Cond(items2) && all_eq(
            items,
            items2,
        ),
        ExpressionView::If { condition, do_this } => {
            &&& b matches ExpressionView::If { condition: condition2, do_this: do_this2 }
            &&& expression_eq(*condition, *condition2)
            &&& expression_eq(*do_this, *do_this2)
        },
        ExpressionView::IfElse { condition, if_true, if_false } => {
            &&& b matches ExpressionView::IfElse {
                condition: condition2,
                if_true: if_true2,
                if_false: if_false2,
            }
            &&& expression_eq(*condition, *condition2)
            &&& expression_eq(*if_true, *if_true2)
            &&& expression_eq(*if_false, *if_false2)
        },
        ExpressionView::Binding { identifier, expression } => {
            &&& b matches ExpressionView::Binding { identifier: identifier2, expression: expression2 }
            &&& identifier == identifier2
            &&& expression_eq(*expression, *expression2)
        },
        ExpressionView::Lambda { arguments, body } => {
            &&& b matches ExpressionView::Lambda { arguments: arguments2, body: body2 }
            &&& arguments == arguments2
            &&& expression_eq(*body, *body2)
        },
        ExpressionView::List(items) => b matches ExpressionView::List(items2) && all_eq(
            items,
            items2,
        ),
    }
}

/// The first position of `name` among `names` from `from` on, if any.
pub open spec fn position_from(names: Seq<Seq<char>>, name: Seq<char>, from: int) -> Option<int>
    decreases names.len() - from,
{
    if from < 0 || from >= names.len() {
        None
    } else if names[from] == name {
        Some(from)
    } else {
        position_from(names, name, from + 1)
    }
}

/// The first position of `name` among `names`, if any.
pub open spec fn position(names: Seq<Seq<char>>, name: Seq<char>) -> Option<int> {
    position_from(names, name, 0)
}

/// What an arithmetic operator computes of two numbers.
pub open spec fn arithmetic(op: BuiltIn, a: u64, b: u64) -> u64 {
    match op {
        BuiltIn::Plus => number_sum(a, b),
        BuiltIn::Minus => number_difference(a, b),
        BuiltIn::Times => number_product(a, b),
        _ => number_quotient(a, b),
    }
}

/// The identity that a lone argument is combined with: zero for `+` and `-`,
/// one for `*` and `/`.
pub open spec fn identity(op: BuiltIn) -> u64 {
    match op {
        BuiltIn::Plus => ZERO,
        BuiltIn::Minus => ZERO,
        _ => ONE,
    }
}

/// The value of `e` under `env`, and the bindings that evaluating it leaves.
pub open spec fn eval(e: ExpressionView, env: Bindings, depth: nat) -> Outcome
    decreases depth, 0nat, 0nat,
{
    if depth == 0 {
        failed(ErrorView::DepthExceeded, env)
    } else {
        let d = (depth - 1) as nat;
        match e {
            ExpressionView::Atom(AtomView::Identifier(name)) => {
                if env.dom().contains(name) {
                    done(env[name], env)
                } else {
                    failed(ErrorView::UnknownSymbol(name), env)
                }
            },
            ExpressionView::Atom(_) => done(e, env),
            ExpressionView::Lambda { .. } => done(e, env),
            ExpressionView::List(_) => done(e, env),
            ExpressionView::If { condition, do_this } => {
                let c = eval(*condition, env, d);
                if c.result is Err {
                    c
                } else if c.result == Ok::<ExpressionView, ErrorView>(boolean(true)) {
                    eval(*do_this, c.bindings, d)
                } else {
                    done(nil(), c.bindings)
                }
            },
            ExpressionView::IfElse { condition, if_true, if_false } => {
                let c = eval(*condition, env, d);
                if c.result is Err {
                    c
                } else if c.result == Ok::<ExpressionView, ErrorView>(boolean(true)) {
                    eval(*if_true, c.bindings, d)
                } else {
                    eval(*if_false, c.bindings, d)
                }
            },
            ExpressionView::Binding { identifier, expression } => {
                let v = eval(*expression, env, d);
                match v.result {
                    Ok(value) => done(value, v.bindings.insert(identifier, value)),
                    Err(_) => v,
                }
            },
            ExpressionView::Application { name, arguments } => match name {
                FnIdentifierView::BuiltIn(op) => apply_builtin(op, arguments, env, d),
                FnIdentifierView::Other(id) => {
                    if !env.dom().contains(id) {
                        failed(ErrorView::UnknownSymbol(id), env)
                    } else {
                        match env[id] {
                            ExpressionView::Lambda { arguments: formals, body } => apply_lambda(
                                formals,
                                *body,
                                arguments,
                                env,
                                d,
                            ),
                            other => failed(type_mismatch("lambda", other), env),
                        }
                    }
                },
            },
            ExpressionView::Cond(items) => cond_from(items, 0, env, d),
        }
    }
}

/// The value of `e`, which must be a number.
pub open spec fn eval_number(e: ExpressionView, env: Bindings, depth: nat) -> NumberOutcome
    decreases depth, 1nat, 0nat,
{
    let o = eval(e, env, depth);
    match o.result {
        Ok(ExpressionView::Atom(AtomView::Number(bits))) => NumberOutcome {
            result: Ok(bits),
            bindings: o.bindings,
        },
        Ok(other) => NumberOutcome {
            result: Err(type_mismatch("number", other)),
            bindings: o.bindings,
        },
        Err(error) => NumberOutcome { result: Err(error), bindings: o.bindings },
    }
}

/// The value of `e`, which must be a boolean.
pub open spec fn eval_bool(e: ExpressionView, env: Bindings, depth: nat) -> BoolOutcome
    decreases depth, 1nat, 0nat,
{
    let o = eval(e, env, depth);
    match o.result {
        Ok(ExpressionView::Atom(AtomView::Boolean(b))) => BoolOutcome {
            result: Ok(b),
            bindings: o.bindings,
        },
        Ok(other) => BoolOutcome {
            result: Err(type_mismatch("boolean", other)),
            bindings: o.bindings,
        },
        Err(error) => BoolOutcome { result: Err(error), bindings: o.bindings },
    }
}

/// A multi-branch conditional from item `i` on: items come in pairs of a
/// condition and a result, and one item left over at the end is the default.
pub open spec fn cond_from(items: Seq<ExpressionView>, i: int, env: Bindings, depth: nat) -> Outcome
    decreases depth, 2nat, items.len() - i,
{
    if i < 0 || i >= items.len() {
        done(nil(), env)
    } else if i + 1 == items.len() {
        eval(items[i], env, depth)
    } else {
        let c = eval(items[i], env, depth);
        if c.result is Err {
            c
        } else if c.result == Ok::<ExpressionView, ErrorView>(boolean(true)) {
            eval(items[i + 1], c.bindings, depth)
        } else {
            cond_from(items, i + 2, c.bindings, depth)
        }
    }
}

/// The left fold of an arithmetic operator over the arguments from `i` on,
/// starting from `acc`.
pub open spec fn fold_from(
    op: BuiltIn,
    acc: u64,
    arguments: Seq<ExpressionView>,
    i: int,
    env: Bindings,
    depth: nat,
) -> Outcome
    decreases depth, 2nat, arguments.len() - i,
{
    if i < 0 || i >= arguments.len() {
        done(number(acc), env)
    } else {
        let n = eval_number(arguments[i], env, depth);
        match n.result {
            Ok(bits) => fold_from(op, arithmetic(op, acc, bits), arguments, i + 1, n.bindings, depth),
            Err(error) => failed(error, n.bindings),
        }
    }
}

/// Whether the arguments from `i` on all equal `first`; the first that does
/// not ends the comparison.
pub open spec fn equals_from(
    first: ExpressionView,
    arguments: Seq<ExpressionView>,
    i: int,
    env: Bindings,
    depth: nat,
) -> Outcome
    decreases depth, 2nat, arguments.len() - i,
{
    if i < 0 || i >= arguments.len() {
        done(boolean(true), env)
    } else {
        let o = eval(arguments[i], env, depth);
        match o.result {
            Ok(value) => if expression_eq(value, first) {
                equals_from(first, arguments, i + 1, o.bindings, depth)
            } else {
                done(boolean(false), o.bindings)
            },
            Err(_) => o,
        }
    }
}

/// `and` (with `stop` false) and `or` (with `stop` true) from argument `i`
/// on: the first argument equal to `stop` decides, and without one the
/// result is the opposite.
pub open spec fn logic_from(
    stop: bool,
    arguments: Seq<ExpressionView>,
    i: int,
    env: Bindings,
    depth: nat,
) -> Outcome
    decreases depth, 2nat, arguments.len() - i,
{
    if i < 0 || i >= arguments.len() {
        done(boolean(!stop), env)
    } else {
        let b = eval_bool(arguments[i], env, depth);
        match b.result {
            Ok(value) => if value == stop {
                done(boolean(stop), b.bindings)
            } else {
                logic_from(stop, arguments, i + 1, b.bindings, depth)
            },
            Err(error) => failed(error, b.bindings),
        }
    }
}

/// Counts the items from `i` on of which the predicate is true, adding one
/// to `acc` for each.
pub open spec fn count_from(
    formals: Seq<Seq<char>>,
    body: ExpressionView,
    items: Seq<ExpressionView>,
    i: int,
    acc: u64,
    env: Bindings,
    depth: nat,
) -> Outcome
    decreases depth, 4nat, items.len() - i,
{
    if i < 0 || i >= items.len() {
        done(number(acc), env)
    } else {
        let o = apply_lambda(formals, body, seq![items[i]], env, depth);
        match o.result {
            Ok(value) => count_from(
                formals,
                body,
                items,
                i + 1,
                if value == boolean(true) {
                    number_sum(acc, ONE)
                } else {
                    acc
                },
                o.bindings,
                depth,
            ),
            Err(_) => o,
        }
    }
}

/// What a built-in operator makes of its unevaluated arguments.
pub open spec fn apply_builtin(
    op: BuiltIn,
    arguments: Seq<ExpressionView>,
    env: Bindings,
    depth: nat,
) -> Outcome
    decreases depth, 5nat, 0nat,
{
    let n = arguments.len();
    match op {
        BuiltIn::Plus | BuiltIn::Minus | BuiltIn::Times | BuiltIn::Divide => {
            if n == 0 {
                done(number(ZERO), env)
            } else {
                let first = eval_number(arguments[0], env, depth);
                match first.result {
                    Ok(bits) => if n == 1 {
                        done(number(arithmetic(op, identity(op), bits)), first.bindings)
                    } else {
                        fold_from(op, bits, arguments, 1, first.bindings, depth)
                    },
                    Err(error) => failed(error, first.bindings),
                }
            }
        },
        BuiltIn::Equal => {
            if n < 2 {
                failed(ErrorView::MinimumArityMismatch { at_least: 2, received: arity(n) }, env)
            } else {
                let first = eval(arguments[0], env, depth);
                match first.result {
                    Ok(value) => equals_from(value, arguments, 1, first.bindings, depth),
                    Err(_) => first,
                }
            }
        },
        BuiltIn::Not => {
            if n != 1 {
                failed(ErrorView::ExactArityMismatch { expected: 1, received: arity(n) }, env)
            } else {
                let b = eval_bool(arguments[0], env, depth);
                match b.result {
                    Ok(value) => done(boolean(!value), b.bindings),
                    Err(error) => failed(error, b.bindings),
                }
            }
        },
        BuiltIn::And => {
            if n < 2 {
                failed(ErrorView::MinimumArityMismatch { at_least: 2, received: arity(n) }, env)
            } else {
                logic_from(false, arguments, 0, env, depth)
            }
        },
        BuiltIn::Or => {
            if n < 2 {
                failed(ErrorView::MinimumArityMismatch { at_least: 2, received: arity(n) }, env)
            } else {
                logic_from(true, arguments, 0, env, depth)
            }
        },
        BuiltIn::Remainder => {
            if n != 2 {
                failed(ErrorView::ExactArityMismatch { expected: 2, received: arity(n) }, env)
            } else {
                let rhs = eval_number(arguments[1], env, depth);
                match rhs.result {
                    Ok(r) => {
                        let lhs = eval_number(arguments[0], rhs.bindings, depth);
                        match lhs.result {
                            Ok(l) => done(number(number_remainder(l, r)), lhs.bindings),
                            Err(error) => failed(error, lhs.bindings),
                        }
                    },
                    Err(error) => failed(error, rhs.bindings),
                }
            }
        },
        BuiltIn::Count => {
            if n != 2 {
                failed(ErrorView::ExactArityMismatch { expected: 2, received: arity(n) }, env)
            } else {
                let list = eval(arguments[1], env, depth);
                match list.result {
                    Ok(ExpressionView::List(items)) => {
                        let predicate = eval(arguments[0], list.bindings, depth);
                        match predicate.result {
                            Ok(ExpressionView::Lambda { arguments: formals, body }) => count_from(
                                formals,
                                *body,
                                items,
                                0,
                                ZERO,
                                predicate.bindings,
                                depth,
                            ),
                            Ok(other) => failed(type_mismatch("lambda", other), predicate.bindings),
                            Err(_) => predicate,
                        }
                    },
                    Ok(other) => failed(type_mismatch("list", other), list.bindings),
                    Err(_) => list,
                }
            }
        },
        BuiltIn::Cond => cond_from(arguments, 0, env, depth),
    }
}

/// What stands in for the identifier `name` in a lambda's body: the value of
/// the argument received for the formal of that name or, where there is no
/// such formal or that argument fails to evaluate, what `name` is bound to.
/// An argument that fails for want of depth fails the substitution.
pub open spec fn substitute(
    name: Seq<char>,
    formals: Seq<Seq<char>>,
    received: Seq<ExpressionView>,
    env: Bindings,
    depth: nat,
) -> Outcome
    decreases depth, 1nat, 1nat,
{
    let direct = resolve_argument_spec(name, formals, received, env, depth);
    if direct.result is Ok || direct.result == Err::<ExpressionView, ErrorView>(
        ErrorView::DepthExceeded,
    ) {
        direct
    } else {
        eval(ExpressionView::Atom(AtomView::Identifier(name)), direct.bindings, depth)
    }
}

/// The value of the argument received for the formal called `name`.
pub open spec fn resolve_argument_spec(
    name: Seq<char>,
    formals: Seq<Seq<char>>,
    received: Seq<ExpressionView>,
    env: Bindings,
    depth: nat,
) -> Outcome
    decreases depth, 1nat, 0nat,
{
    match position(formals, name) {
        Some(idx) => if idx < received.len() {
            eval(received[idx], env, depth)
        } else {
            failed(ErrorView::UnknownSymbol(name), env)
        },
        None => failed(ErrorView::UnknownSymbol(name), env),
    }
}

/// Substitution in the arguments of an application that is a lambda's body,
/// from argument `i` on: bare identifiers are replaced, nested applications
/// are entered, everything else is kept. `acc` holds the arguments done.
pub open spec fn resolve_arguments_from(
    arguments: Seq<ExpressionView>,
    i: int,
    acc: Seq<ExpressionView>,
    formals: Seq<Seq<char>>,
    received: Seq<ExpressionView>,
    env: Bindings,
    depth: nat,
) -> ListOutcome
    decreases depth, 3nat, arguments.len() - i,
{
    if i < 0 || i >= arguments.len() {
        ListOutcome { result: Ok(acc), bindings: env }
    } else {
        match arguments[i] {
            ExpressionView::Atom(AtomView::Identifier(name)) => {
                let o = substitute(name, formals, received, env, depth);
                match o.result {
                    Ok(value) => resolve_arguments_from(
                        arguments,
                        i + 1,
                        acc.push(value),
                        formals,
                        received,
                        o.bindings,
                        depth,
                    ),
                    Err(error) => ListOutcome { result: Err(error), bindings: o.bindings },
                }
            },
            ExpressionView::Application { name, arguments: inner } => {
                if depth == 0 {
                    ListOutcome { result: Err(ErrorView::DepthExceeded), bindings: env }
                } else {
                    let o = resolve_arguments_from(
                        inner,
                        0,
                        Seq::empty(),
                        formals,
                        received,
                        env,
                        (depth - 1) as nat,
                    );
                    match o.result {
                        Ok(resolved) => resolve_arguments_from(
                            arguments,
                            i + 1,
                            acc.push(ExpressionView::Application { name, arguments: resolved }),
                            formals,
                            received,
                            o.bindings,
                            depth,
                        ),
                        Err(_) => o,
                    }
                }
            },
            other => resolve_arguments_from(
                arguments,
                i + 1,
                acc.push(other),
                formals,
                received,
                env,
                depth,
            ),
        }
    }
}

/// Substitution in every item of a list, from item `i` on.
pub open spec fn resolve_all_from(
    items: Seq<ExpressionView>,
    i: int,
    acc: Seq<ExpressionView>,
    formals: Seq<Seq<char>>,
    received: Seq<ExpressionView>,
    env: Bindings,
    depth: nat,
) -> ListOutcome
    decreases depth, 3nat, items.len() - i,
{
    if i < 0 || i >= items.len() {
        ListOutcome { result: Ok(acc), bindings: env }
    } else {
        let o = resolve(items[i], formals, received, env, depth);
        match o.result {
            Ok(value) => resolve_all_from(
                items,
                i + 1,
                acc.push(value),
                formals,
                received,
                o.bindings,
                depth,
            ),
            Err(error) => ListOutcome { result: Err(error), bindings: o.bindings },
        }
    }
}

/// Substitution throughout an expression: a bare identifier is replaced, the
/// parts of a `cond`, of an application's arguments and of an `if` are
/// entered, everything else is kept.
pub open spec fn resolve(
    e: ExpressionView,
    formals: Seq<Seq<char>>,
    received: Seq<ExpressionView>,
    env: Bindings,
    depth: nat,
) -> Outcome
    decreases depth, 2nat, 0nat,
{
    match e {
        ExpressionView::Atom(AtomView::Identifier(name)) => substitute(
            name,
            formals,
            received,
            env,
            depth,
        ),
        ExpressionView::Atom(_) => done(e, env),
        ExpressionView::Lambda { .. } => done(e, env),
        ExpressionView::List(_) => done(e, env),
        ExpressionView::Binding { .. } => done(e, env),
        _ => if depth == 0 {
            failed(ErrorView::DepthExceeded, env)
        } else {
            let d = (depth - 1) as nat;
            match e {
                ExpressionView::Cond(items) => {
                    let o = resolve_all_from(items, 0, Seq::empty(), formals, received, env, d);
                    match o.result {
                        Ok(resolved) => done(ExpressionView::Cond(resolved), o.bindings),
                        Err(error) => failed(error, o.bindings),
                    }
                },
                ExpressionView::Application { name, arguments } => {
                    let o = resolve_all_from(arguments, 0, Seq::empty(), formals, received, env, d);
                    match o.result {
                        Ok(resolved) => done(
                            ExpressionView::Application { name, arguments: resolved },
                            o.bindings,
                        ),
                        Err(error) => failed(error, o.bindings),
                    }
                },
                ExpressionView::If { condition, do_this } => {
                    let c = resolve(*condition, formals, received, env, d);
                    match c.result {
                        Ok(condition2) => {
                            let t = resolve(*do_this, formals, received, c.bindings, d);
                            match t.result {
                                Ok(do_this2) => done(
                                    ExpressionView::If {
                                        condition: Box::new(condition2),
                                        do_this: Box::new(do_this2),
                                    },
                                    t.bindings,
                                ),
                                Err(_) => t,
                            }
                        },
                        Err(_) => c,
                    }
                },
                ExpressionView::IfElse { condition, if_true, if_false } => {
                    let c = resolve(*condition, formals, received, env, d);
                    match c.result {
                        Ok(condition2) => {
                            let t = resolve(*if_true, formals, received, c.bindings, d);
                            match t.result {
                                Ok(if_true2) => {
                                    let f = resolve(*if_false, formals, received, t.bindings, d);
                                    match f.result {
                                        Ok(if_false2) => done(
                                            ExpressionView::IfElse {
                                                condition: Box::new(condition2),
                                                if_true: Box::new(if_true2),
                                                if_false: Box::new(if_false2),
                                            },
                                            f.bindings,
                                        ),
                                        Err(_) => f,
                                    }
                                },
                                Err(_) => t,
                            }
                        },
                        Err(_) => c,
                    }
                },
                _ => done(e, env),
            }
        },
    }
}

/// The application of a lambda with the given formals and body to the
/// unevaluated arguments `received`.
pub open spec fn apply_lambda(
    formals: Seq<Seq<char>>,
    body: ExpressionView,
    received: Seq<ExpressionView>,
    env: Bindings,
    depth: nat,
) -> Outcome
    decreases depth, 4nat, 0nat,
{
    if formals.len() != received.len() {
        failed(
            ErrorView::ExactArityMismatch {
                expected: arity(formals.len()),
                received: arity(received.len()),
            },
            env,
        )
    } else {
        match body {
            ExpressionView::Atom(AtomView::Identifier(name)) => resolve_argument_spec(
                name,
                formals,
                received,
                env,
                depth,
            ),
            ExpressionView::Atom(_) => done(body, env),
            ExpressionView::List(_) => done(body, env),
            ExpressionView::Application { name, arguments } => {
                let o = resolve_arguments_from(
                    arguments,
                    0,
                    Seq::empty(),
                    formals,
                    received,
                    env,
                    depth,
                );
                match o.result {
                    Ok(resolved) => eval(
                        ExpressionView::Application { name, arguments: resolved },
                        o.bindings,
                        depth,
                    ),
                    Err(error) => failed(error, o.bindings),
                }
            },
            ExpressionView::If { .. } | ExpressionView::IfElse { .. } | ExpressionView::Cond(_) => {
                let o = resolve(body, formals, received, env, depth);
                match o.result {
                    Ok(resolved) => eval(resolved, o.bindings, depth),
                    Err(_) => o,
                }
            },
            ExpressionView::Binding { .. } => eval(body, env, depth),
            ExpressionView::Lambda { arguments: formals2, body: body2 } => {
                if depth == 0 {
                    failed(ErrorView::DepthExceeded, env)
                } else {
                    apply_lambda(formals2, *body2, received, env, (depth - 1) as nat)
                }
            },
        }
    }
}

} // verus!
