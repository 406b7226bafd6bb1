//! The syntax tree, which is also the type of the values that evaluation
//! produces.

use vstd::prelude::*;
use crate::small_string::SmallString;
use crate::error::Error;
use crate::number::numbers_equal;
use crate::semantics::{all_eq, atom_eq, expression_eq, type_mismatch};
use crate::type_info::Typed;

verus! {

/// Built-in operators.
#[derive(Debug, PartialEq, Eq, Clone, Copy, Structural)]
pub enum BuiltIn {
    /// `+`
    Plus,
    /// `-`
    Minus,
    /// `*`
    Times,
    /// `/`
    Divide,
    /// `=`
    Equal,
    /// `not`
    Not,
    /// `and`
    And,
    /// `or`
    Or,
    /// `%`
    Remainder,
    /// `cond`
    Cond,
    /// `count`: how many items of a list a predicate holds of
    Count,
}

/// What an application calls.
#[derive(Debug, PartialEq, Eq, Clone)]
pub enum FnIdentifier {
    BuiltIn(BuiltIn),
    Other(SmallString),
}

/// A terminal value.
#[derive(Debug, Clone)]
pub enum Atom {
    /// A double-precision number, as its bits.
    Number(u64),
    /// A symbol of the form `:symbol`
    Symbol(SmallString),
    /// An identifier of a binding
    Identifier(SmallString),
    /// `true` or `false`
    Boolean(bool),
    BuiltIn(BuiltIn),
    String(SmallString),
    Nil,
}

/// An application of the form `(name args*)`
#[derive(Debug)]
pub struct Application {
    pub name: FnIdentifier,
    pub arguments: Vec<Expression>,
}

/// The binding of an identifier to an expression
#[derive(Debug)]
pub struct Binding {
    pub identifier: SmallString,
    pub expression: Expression,
}

/// An `if` without an `else` branch
#[derive(Debug)]
pub struct If {
    pub condition: Expression,
    pub do_this: Expression,
}

/// An `if` with an `else` branch
#[derive(Debug)]
pub struct IfElse {
    pub condition: Expression,
    pub if_true: Expression,
    pub if_false: Expression,
}

/// An anonymous function
#[derive(Debug)]
pub struct Lambda {
    pub arguments: Vec<SmallString>,
    pub body: Expression,
}

#[derive(Debug)]
pub enum Expression {
    Atom(Atom),
    Application(Application),
    Cond(Vec<Expression>),
    If(Box<If>),
    IfElse(Box<IfElse>),
    Binding(Box<Binding>),
    Lambda(Box<Lambda>),
    List(Vec<Expression>),
}

pub enum FnIdentifierView {
    BuiltIn(BuiltIn),
    Other(Seq<char>),
}

pub enum AtomView {
    Number(u64),
    Symbol(Seq<char>),
    Identifier(Seq<char>),
    Boolean(bool),
    BuiltIn(BuiltIn),
    String(Seq<char>),
    Nil,
}

/// An expression as a mathematical tree.
#[allow(inconsistent_fields)]
pub enum ExpressionView {
    Atom(AtomView),
    Application { name: FnIdentifierView, arguments: Seq<ExpressionView> },
    Cond(Seq<ExpressionView>),
    If { condition: Box<ExpressionView>, do_this: Box<ExpressionView> },
    IfElse { condition: Box<ExpressionView>, if_true: Box<ExpressionView>, if_false: Box<ExpressionView> },
    Binding { identifier: Seq<char>, expression: Box<ExpressionView> },
    Lambda { arguments: Seq<Seq<char>>, body: Box<ExpressionView> },
    List(Seq<ExpressionView>),
}

impl View for FnIdentifier {
    type V = FnIdentifierView;

    open spec fn view(&self) -> FnIdentifierView {
        match self {
            FnIdentifier::BuiltIn(b) => FnIdentifierView::BuiltIn(*b),
            FnIdentifier::Other(name) => FnIdentifierView::Other(name@),
        }
    }
}

impl View for Atom {
    type V = AtomView;

    open spec fn view(&self) -> AtomView {
        match self {
            Atom::Number(bits) => AtomView::Number(*bits),
            Atom::Symbol(s) => AtomView::Symbol(s@),
            Atom::Identifier(s) => AtomView::Identifier(s@),
            Atom::Boolean(b) => AtomView::Boolean(*b),
            Atom::BuiltIn(b) => AtomView::BuiltIn(*b),
            Atom::String(s) => AtomView::String(s@),
            Atom::Nil => AtomView::Nil,
        }
    }
}

/// The texts of a list of strings.
pub open spec fn names_view(names: Seq<SmallString>) -> Seq<Seq<char>> {
    Seq::new(names.len(), |i: int| names[i]@)
}

/// The trees of a list of expressions.
pub open spec fn expressions_view(expressions: Seq<Expression>) -> Seq<ExpressionView>
    decreases expressions,
{
    Seq::new(
        expressions.len(),
        |i: int|
            if 0 <= i < expressions.len() {
                expression_tree(expressions[i])
            } else {
                ExpressionView::Atom(AtomView::Nil)
            },
    )
}

/// The trees of a list line up with its expressions, one for one.
pub proof fn lemma_expressions_view(expressions: Seq<Expression>)
    ensures
        expressions_view(expressions).len() == expressions.len(),
        forall|i: int|
            0 <= i < expressions.len() ==> #[trigger] expressions_view(expressions)[i]
                == expressions[i]@,
{
}

/// The tree of an expression.
pub open spec fn expression_tree(e: Expression) -> ExpressionView
    decreases e,
{
    match e {
        Expression::Atom(atom) => ExpressionView::Atom(atom@),
        Expression::Application(app) => ExpressionView::Application {
            name: app.name@,
            arguments: expressions_view(app.arguments@),
        },
        Expression::Cond(items) => ExpressionView::Cond(expressions_view(items@)),
        Expression::If(e) => ExpressionView::If {
            condition: Box::new(expression_tree(e.condition)),
            do_this: Box::new(expression_tree(e.do_this)),
        },
        Expression::IfElse(e) => ExpressionView::IfElse {
            condition: Box::new(expression_tree(e.condition)),
            if_true: Box::new(expression_tree(e.if_true)),
            if_false: Box::new(expression_tree(e.if_false)),
        },
        Expression::Binding(b) => ExpressionView::Binding {
            identifier: b.identifier@,
            expression: Box::new(expression_tree(b.expression)),
        },
        Expression::Lambda(l) => ExpressionView::Lambda {
            arguments: names_view(l.arguments@),
            body: Box::new(expression_tree(l.body)),
        },
        Expression::List(items) => ExpressionView::List(expressions_view(items@)),
    }
}

impl View for Application {
    type V = ExpressionView;

    open spec fn view(&self) -> ExpressionView {
        ExpressionView::Application {
            name: self.name@,
            arguments: expressions_view(self.arguments@),
        }
    }
}

impl View for Binding {
    type V = ExpressionView;

    open spec fn view(&self) -> ExpressionView {
        ExpressionView::Binding {
            identifier: self.identifier@,
            expression: Box::new(expression_tree(self.expression)),
        }
    }
}

impl View for If {
    type V = ExpressionView;

    open spec fn view(&self) -> ExpressionView {
        ExpressionView::If {
            condition: Box::new(expression_tree(self.condition)),
            do_this: Box::new(expression_tree(self.do_this)),
        }
    }
}

impl View for IfElse {
    type V = ExpressionView;

    open spec fn view(&self) -> ExpressionView {
        ExpressionView::IfElse {
            condition: Box::new(expression_tree(self.condition)),
            if_true: Box::new(expression_tree(self.if_true)),
            if_false: Box::new(expression_tree(self.if_false)),
        }
    }
}

impl View for Lambda {
    type V = ExpressionView;

    open spec fn view(&self) -> ExpressionView {
        ExpressionView::Lambda {
            arguments: names_view(self.arguments@),
            body: Box::new(expression_tree(self.body)),
        }
    }
}

impl View for Expression {
    type V = ExpressionView;

    open spec fn view(&self) -> ExpressionView {
        expression_tree(*self)
    }
}

impl FnIdentifier {
    /// A copy of this name.
    pub fn duplicate(&self) -> (r: FnIdentifier)
        ensures
            r@ == self@,
    {
        match self {
            FnIdentifier::BuiltIn(b) => FnIdentifier::BuiltIn(*b),
            FnIdentifier::Other(name) => FnIdentifier::Other(name.duplicate()),
        }
    }

    /// Whether two names are the same.
    pub fn equals(&self, other: &FnIdentifier) -> (r: bool)
        ensures
            r == (self@ == other@),
    {
        match (self, other) {
            (FnIdentifier::BuiltIn(a), FnIdentifier::BuiltIn(b)) => *a == *b,
            (FnIdentifier::Other(a), FnIdentifier::Other(b)) => a.same_text(b),
            _ => false,
        }
    }
}

impl Atom {
    /// A copy of this atom.
    pub fn duplicate(&self) -> (r: Atom)
        ensures
            r@ == self@,
    {
        match self {
            Atom::Number(bits) => Atom::Number(*bits),
            Atom::Symbol(s) => Atom::Symbol(s.duplicate()),
            Atom::Identifier(s) => Atom::Identifier(s.duplicate()),
            Atom::Boolean(b) => Atom::Boolean(*b),
            Atom::BuiltIn(b) => Atom::BuiltIn(*b),
            Atom::String(s) => Atom::String(s.duplicate()),
            Atom::Nil => Atom::Nil,
        }
    }

    /// Whether two atoms are equal, numbers being compared as numbers.
    pub fn equals(&self, other: &Atom) -> (r: bool)
        ensures
            r == atom_eq(self@, other@),
    {
        match (self, other) {
            (Atom::Number(a), Atom::Number(b)) => numbers_equal(*a, *b),
            (Atom::Symbol(a), Atom::Symbol(b)) => a.same_text(b),
            (Atom::Identifier(a), Atom::Identifier(b)) => a.same_text(b),
            (Atom::Boolean(a), Atom::Boolean(b)) => *a == *b,
            (Atom::BuiltIn(a), Atom::BuiltIn(b)) => *a == *b,
            (Atom::String(a), Atom::String(b)) => a.same_text(b),
            (Atom::Nil, Atom::Nil) => true,
            _ => false,
        }
    }
}

/// Copies of the given names.
pub fn duplicate_names(names: &Vec<SmallString>) -> (r: Vec<SmallString>)
    ensures
        names_view(r@) == names_view(names@),
{
    let mut copy: Vec<SmallString> = Vec::new();
    let mut i: usize = 0;
    while i < names.len()
        invariant
            i <= names.len(),
            copy.len() == i,
            forall|j: int| 0 <= j < i ==> copy[j]@ == names[j]@,
        decreases names.len() - i,
    {
        copy.push(names[i].duplicate());
        i += 1;
    }
    assert(names_view(copy@) =~= names_view(names@));
    copy
}

/// Whether two lists of names are the same.
pub fn same_names(a: &Vec<SmallString>, b: &Vec<SmallString>) -> (r: bool)
    ensures
        r == (names_view(a@) == names_view(b@)),
{
    if a.len() != b.len() {
        assert(names_view(a@).len() != names_view(b@).len());
        return false;
    }
    let mut i: usize = 0;
    while i < a.len()
        invariant
            i <= a.len(),
            a.len() == b.len(),
            forall|j: int| 0 <= j < i ==> a[j]@ == b[j]@,
        decreases a.len() - i,
    {
        if !a[i].same_text(&b[i]) {
            assert(names_view(a@)[i as int] != names_view(b@)[i as int]);
            return false;
        }
        i += 1;
    }
    assert(names_view(a@) =~= names_view(b@));
    true
}

/// Deep copies of the given expressions.
pub fn duplicate_all(items: &Vec<Expression>) -> (r: Vec<Expression>)
    ensures
        expressions_view(r@) == expressions_view(items@),
    decreases items,
{
    let mut copy: Vec<Expression> = Vec::new();
    let mut i: usize = 0;
    while i < items.len()
        invariant
            i <= items.len(),
            copy.len() == i,
            forall|j: int| 0 <= j < i ==> copy[j]@ == items[j]@,
        decreases items.len() - i,
    {
        copy.push(items[i].duplicate());
        i += 1;
    }
    assert(expressions_view(copy@) =~= expressions_view(items@));
    copy
}

/// Whether two lists of expressions are equal item by item.
pub fn all_equal(a: &Vec<Expression>, b: &Vec<Expression>) -> (r: bool)
    ensures
        r == all_eq(expressions_view(a@), expressions_view(b@)),
    decreases a,
{
    proof {
        lemma_expressions_view(a@);
        lemma_expressions_view(b@);
    }
    if a.len() != b.len() {
        return false;
    }
    let mut i: usize = 0;
    while i < a.len()
        invariant
            i <= a.len(),
            a.len() == b.len(),
            forall|j: int| 0 <= j < i ==> expression_eq(a[j]@, b[j]@),
        decreases a.len() - i,
    {
        if !a[i].equals(&b[i]) {
            proof {
                lemma_expressions_view(a@);
                lemma_expressions_view(b@);
                assert(!expression_eq(
                    expressions_view(a@)[i as int],
                    expressions_view(b@)[i as int],
                ));
            }
            return false;
        }
        i += 1;
    }
    proof {
        lemma_expressions_view(a@);
        lemma_expressions_view(b@);
        assert forall|j: int| 0 <= j < a.len() implies expression_eq(
            expressions_view(a@)[j],
            #[trigger] expressions_view(b@)[j],
        ) by {
            assert(expression_eq(a[j]@, b[j]@));
        }
    }
    true
}

impl Expression {
    /// A deep copy of this expression.
    pub fn duplicate(&self) -> (r: Expression)
        ensures
            r@ == self@,
        decreases self,
    {
        match self {
            Expression::Atom(atom) => Expression::Atom(atom.duplicate()),
            Expression::Application(app) => Expression::Application(
                Application { name: app.name.duplicate(), arguments: duplicate_all(&app.arguments) },
            ),
            Expression::Cond(items) => Expression::Cond(duplicate_all(items)),
            Expression::If(e) => Expression::If(
                Box::new(If { condition: e.condition.duplicate(), do_this: e.do_this.duplicate() }),
            ),
            Expression::IfElse(e) => Expression::IfElse(
                Box::new(
                    IfElse {
                        condition: e.condition.duplicate(),
                        if_true: e.if_true.duplicate(),
                        if_false: e.if_false.duplicate(),
                    },
                ),
            ),
            Expression::Binding(b) => Expression::Binding(
                Box::new(
                    Binding {
                        identifier: b.identifier.duplicate(),
                        expression: b.expression.duplicate(),
                    },
                ),
            ),
            Expression::Lambda(l) => Expression::Lambda(
                Box::new(Lambda { arguments: duplicate_names(&l.arguments), body: l.body.duplicate() }),
            ),
            Expression::List(items) => Expression::List(duplicate_all(items)),
        }
    }

    /// Structural equality, numbers being compared as numbers.
    pub fn equals(&self, other: &Expression) -> (r: bool)
        ensures
            r == expression_eq(self@, other@),
        decreases self,
    {
        match (self, other) {
            (Expression::Atom(a), Expression::Atom(b)) => a.equals(b),
            (Expression::Application(a), Expression::Application(b)) => a.name.equals(&b.name)
                && all_equal(&a.arguments, &b.arguments),
            (Expression::Cond(a), Expression::Cond(b)) => all_equal(a, b),
            (Expression::If(a), Expression::If(b)) => a.condition.equals(&b.condition)
                && a.do_this.equals(&b.do_this),
            (Expression::IfElse(a), Expression::IfElse(b)) => a.condition.equals(&b.condition)
                && a.if_true.equals(&b.if_true) && a.if_false.equals(&b.if_false),
            (Expression::Binding(a), Expression::Binding(b)) => a.identifier.same_text(
                &b.identifier,
            ) && a.expression.equals(&b.expression),
            (Expression::Lambda(a), Expression::Lambda(b)) => same_names(
                &a.arguments,
                &b.arguments,
            ) && a.body.equals(&b.body),
            (Expression::List(a), Expression::List(b)) => all_equal(a, b),
            _ => false,
        }
    }

    /// The number that this expression is, or `TypeMismatch`.
    pub fn as_number(&self) -> (r: Result<u64, Error>)
        ensures
            match self@ {
                ExpressionView::Atom(AtomView::Number(bits)) => r == Ok::<u64, Error>(bits),
                other => r is Err && r->Err_0@ == type_mismatch("number", other),
            },
    {
        if let Expression::Atom(Atom::Number(bits)) = self {
            Ok(*bits)
        } else {
            Err(Error::TypeMismatch { expected: "number", received: self.rough_type() })
        }
    }

    /// The boolean that this expression is, or `TypeMismatch`.
    pub fn as_bool(&self) -> (r: Result<bool, Error>)
        ensures
            match self@ {
                ExpressionView::Atom(AtomView::Boolean(b)) => r == Ok::<bool, Error>(b),
                other => r is Err && r->Err_0@ == type_mismatch("boolean", other),
            },
    {
        if let Expression::Atom(Atom::Boolean(b)) = self {
            Ok(*b)
        } else {
            Err(Error::TypeMismatch { expected: "boolean", received: self.rough_type() })
        }
    }

    /// The lambda that this expression is, or `TypeMismatch`.
    pub fn as_lambda(&self) -> (r: Result<&Lambda, Error>)
        ensures
            match self@ {
                ExpressionView::Lambda { arguments, body } => r is Ok && names_view(
                    r->Ok_0.arguments@,
                ) == arguments && r->Ok_0.body@ == *body,
                other => r is Err && r->Err_0@ == type_mismatch("lambda", other),
            },
    {
        if let Expression::Lambda(lambda) = self {
            Ok(lambda)
        } else {
            Err(Error::TypeMismatch { expected: "lambda", received: self.rough_type() })
        }
    }

    /// The items of the list that this expression is, or `TypeMismatch`.
    pub fn as_list(&self) -> (r: Result<&Vec<Expression>, Error>)
        ensures
            match self@ {
                ExpressionView::List(items) => r is Ok && expressions_view(r->Ok_0@) == items,
                other => r is Err && r->Err_0@ == type_mismatch("list", other),
            },
    {
        if let Expression::List(items) = self {
            Ok(items)
        } else {
            Err(Error::TypeMismatch { expected: "list", received: self.rough_type() })
        }
    }

    /// The boolean `b` as an expression.
    pub fn boolean(b: bool) -> (r: Expression)
        ensures
            r@ == ExpressionView::Atom(AtomView::Boolean(b)),
    {
        Expression::Atom(Atom::Boolean(b))
    }

    /// The number with the given bits as an expression.
    pub fn number(bits: u64) -> (r: Expression)
        ensures
            r@ == ExpressionView::Atom(AtomView::Number(bits)),
    {
        Expression::Atom(Atom::Number(bits))
    }
}

impl Default for Expression {
    fn default() -> (r: Expression)
        ensures
            r@ == ExpressionView::Atom(AtomView::Nil),
    {
        Expression::Atom(Atom::Nil)
    }
}

} // verus!
