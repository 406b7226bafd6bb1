//! The text of expressions and of errors.

use vstd::prelude::*;
use vstd::string::StringExecFns;
use slicedisplay::SliceDisplay;
use crate::error::{Error, ErrorView};
use crate::expression::{
    expressions_view, lemma_expressions_view, Application, Atom, AtomView, Binding, Expression,
    ExpressionView, FnIdentifier, FnIdentifierView, IfElse,
};
use crate::number::{number_text, text_of_bits};
use crate::small_string::SmallString;
use crate::type_info::{builtin_label, Typed};

verus! {

/// The items from `i` on, with `separator` between each two.
pub open spec fn joined(items: Seq<Seq<char>>, i: int, separator: Seq<char>) -> Seq<char>
    decreases items.len() - i,
{
    if i < 0 || i >= items.len() {
        Seq::empty()
    } else if i + 1 == items.len() {
        items[i]
    } else {
        items[i] + separator + joined(items, i + 1, separator)
    }
}

/// The items between square brackets, two spaces between each two.
pub open spec fn bracketed(items: Seq<Seq<char>>) -> Seq<char> {
    seq!['['] + joined(items, 0, seq![' ', ' ']) + seq![']']
}

/// The texts that the strings hold.
pub open spec fn texts(items: Seq<String>) -> Seq<Seq<char>> {
    Seq::new(items.len(), |i: int| items[i]@)
}

/// Formats the slice through `SliceDisplay::display` of `slicedisplay`, with
/// the delimiter set to a space: an opening bracket, the items with the
/// delimiter and one more space between each two, a closing bracket.
#[verifier::external_body]
fn bracketed_text(items: &Vec<String>) -> (r: String)
    ensures
        r@ == bracketed(texts(items@)),
{
    format!("{}", items.display().delimiter(' '))
}

/// The text of what an application calls.
pub open spec fn fn_identifier_text(name: FnIdentifierView) -> Seq<char> {
    match name {
        FnIdentifierView::BuiltIn(op) => builtin_label(op)@,
        FnIdentifierView::Other(id) => id,
    }
}

/// The text of an atom.
pub open spec fn atom_text(atom: AtomView) -> Seq<char> {
    match atom {
        AtomView::Number(bits) => number_text(bits),
        AtomView::Symbol(name) => ":"@ + name,
        AtomView::Boolean(b) => if b {
            "true"@
        } else {
            "false"@
        },
        AtomView::String(text) => "\""@ + text + "\""@,
        AtomView::BuiltIn(op) => "<function "@ + builtin_label(op)@ + ">"@,
        AtomView::Identifier(name) => name,
        AtomView::Nil => "nil"@,
    }
}

/// The texts of the expressions.
pub open spec fn expression_texts(items: Seq<ExpressionView>) -> Seq<Seq<char>>
    decreases items,
{
    Seq::new(
        items.len(),
        |i: int|
            if 0 <= i < items.len() {
                expression_text(items[i])
            } else {
                Seq::empty()
            },
    )
}

/// The text of an expression.
pub open spec fn expression_text(e: ExpressionView) -> Seq<char>
    decreases e,
{
    match e {
        ExpressionView::List(items) => bracketed(expression_texts(items)),
        ExpressionView::Lambda { .. } => "<function>"@,
        ExpressionView::Atom(atom) => atom_text(atom),
        ExpressionView::Application { name, .. } => "<function "@ + fn_identifier_text(name) + "> "@,
        ExpressionView::Binding { identifier, expression } => "(def "@ + identifier + " "@
            + expression_text(*expression) + ")"@,
        ExpressionView::If { condition, do_this } => "(if "@ + expression_text(*condition) + " "@
            + expression_text(*do_this) + " nil)"@,
        ExpressionView::IfElse { condition, if_true, if_false } => "(if "@ + expression_text(
            *condition,
        ) + " "@ + expression_text(*if_true) + " "@ + expression_text(*if_false) + ")"@,
        ExpressionView::Cond(items) => "(cond "@ + joined(expression_texts(items), 0, " "@) + ")"@,
    }
}

/// The items with `separator` between each two.
fn join(items: &Vec<String>, separator: &str) -> (r: String)
    ensures
        r@ == joined(texts(items@), 0, separator@),
{
    let mut out = String::new();
    let n: usize = items.len();
    let mut i: usize = n;
    while i > 0
        invariant
            i <= n,
            n == items.len(),
            out@ == joined(texts(items@), i as int, separator@),
        decreases i,
    {
        i -= 1;
        if i + 1 == n {
            out = items[i].clone();
        } else {
            let mut next = items[i].clone();
            next.append(separator);
            next.append(out.as_str());
            out = next;
        }
    }
    out
}

impl FnIdentifier {
    /// The text of this name.
    pub fn to_text(&self) -> (r: String)
        ensures
            r@ == fn_identifier_text(self@),
    {
        match self {
            FnIdentifier::BuiltIn(op) => String::from_str(op.rough_type()),
            FnIdentifier::Other(id) => String::from_str(id.as_str()),
        }
    }
}

impl Atom {
    /// The text of this atom.
    pub fn to_text(&self) -> (r: String)
        ensures
            r@ == atom_text(self@),
    {
        match self {
            Atom::Number(bits) => text_of_bits(*bits),
            Atom::Symbol(name) => String::from_str(":").concat(name.as_str()),
            Atom::Boolean(b) => if *b {
                String::from_str("true")
            } else {
                String::from_str("false")
            },
            Atom::String(text) => String::from_str("\"").concat(text.as_str()).concat("\""),
            Atom::BuiltIn(op) => String::from_str("<function ").concat(op.rough_type()).concat(">"),
            Atom::Identifier(name) => String::from_str(name.as_str()),
            Atom::Nil => String::from_str("nil"),
        }
    }
}

/// The texts of the expressions.
fn texts_of(items: &Vec<Expression>) -> (r: Vec<String>)
    ensures
        texts(r@) == expression_texts(expressions_view(items@)),
    decreases items,
{
    proof {
        lemma_expressions_view(items@);
    }
    let mut out: Vec<String> = Vec::new();
    let mut i: usize = 0;
    while i < items.len()
        invariant
            i <= items.len(),
            out.len() == i,
            expressions_view(items@).len() == items.len(),
            forall|j: int|
                0 <= j < items.len() ==> #[trigger] expressions_view(items@)[j] == items[j]@,
            forall|j: int| 0 <= j < i ==> out[j]@ == expression_text(items[j]@),
        decreases items.len() - i,
    {
        out.push(items[i].to_text());
        i += 1;
    }
    assert(texts(out@) =~= expression_texts(expressions_view(items@)));
    out
}

impl Expression {
    /// The text of this expression.
    pub fn to_text(&self) -> (r: String)
        ensures
            r@ == expression_text(self@),
        decreases self,
    {
        match self {
            Expression::List(items) => bracketed_text(&texts_of(items)),
            Expression::Lambda(_) => String::from_str("<function>"),
            Expression::Atom(atom) => atom.to_text(),
            Expression::Application(app) => app.to_text(),
            Expression::Binding(b) => String::from_str("(def ").concat(b.identifier.as_str()).concat(
                " ",
            ).concat(b.expression.to_text().as_str()).concat(")"),
            Expression::If(e) => String::from_str("(if ").concat(
                e.condition.to_text().as_str(),
            ).concat(" ").concat(e.do_this.to_text().as_str()).concat(" nil)"),
            Expression::IfElse(e) => String::from_str("(if ").concat(
                e.condition.to_text().as_str(),
            ).concat(" ").concat(e.if_true.to_text().as_str()).concat(" ").concat(
                e.if_false.to_text().as_str(),
            ).concat(")"),
            Expression::Cond(items) => String::from_str("(cond ").concat(
                join(&texts_of(items), " ").as_str(),
            ).concat(")"),
        }
    }
}

impl Application {
    /// The text of this application: what it calls, marked as a function.
    pub fn to_text(&self) -> (r: String)
        ensures
            r@ == expression_text(self@),
    {
        String::from_str("<function ").concat(self.name.to_text().as_str()).concat("> ")
    }
}

impl IfElse {
    /// The text of this conditional.
    pub fn to_text(&self) -> (r: String)
        ensures
            r@ == expression_text(self@),
    {
        String::from_str("(if ").concat(self.condition.to_text().as_str()).concat(" ").concat(
            self.if_true.to_text().as_str(),
        ).concat(" ").concat(self.if_false.to_text().as_str()).concat(")")
    }
}

impl Binding {
    /// The text of this binding.
    pub fn to_text(&self) -> (r: String)
        ensures
            r@ == expression_text(self@),
    {
        String::from_str("(def ").concat(self.identifier.as_str()).concat(" ").concat(
            self.expression.to_text().as_str(),
        ).concat(")")
    }
}

impl SmallString {
    /// The text of this string.
    pub fn to_text(&self) -> (r: String)
        ensures
            r@ == self@,
    {
        String::from_str(self.as_str())
    }
}

/// The decimal digits of `n`.
pub open spec fn count_text(n: u8) -> Seq<char> {
    if n >= 100 {
        seq![digit_char(n as int / 100), digit_char((n as int / 10) % 10), digit_char(n as int % 10)]
    } else if n >= 10 {
        seq![digit_char(n as int / 10), digit_char(n as int % 10)]
    } else {
        seq![digit_char(n as int)]
    }
}

/// The character of the digit `d`.
pub open spec fn digit_char(d: int) -> char {
    if d == 0 {
        '0'
    } else if d == 1 {
        '1'
    } else if d == 2 {
        '2'
    } else if d == 3 {
        '3'
    } else if d == 4 {
        '4'
    } else if d == 5 {
        '5'
    } else if d == 6 {
        '6'
    } else if d == 7 {
        '7'
    } else if d == 8 {
        '8'
    } else {
        '9'
    }
}

fn digit_text(d: u8) -> (r: &'static str)
    requires
        d < 10,
    ensures
        r@ == seq![digit_char(d as int)],
{
    proof {
        reveal_strlit("0");
        reveal_strlit("1");
        reveal_strlit("2");
        reveal_strlit("3");
        reveal_strlit("4");
        reveal_strlit("5");
        reveal_strlit("6");
        reveal_strlit("7");
        reveal_strlit("8");
        reveal_strlit("9");
    }
    let r = if d == 0 {
        "0"
    } else if d == 1 {
        "1"
    } else if d == 2 {
        "2"
    } else if d == 3 {
        "3"
    } else if d == 4 {
        "4"
    } else if d == 5 {
        "5"
    } else if d == 6 {
        "6"
    } else if d == 7 {
        "7"
    } else if d == 8 {
        "8"
    } else {
        "9"
    };
    assert(r@ =~= seq![digit_char(d as int)]);
    r
}

/// The decimal digits of `n`.
fn count_to_text(n: u8) -> (r: String)
    ensures
        r@ == count_text(n),
{
    let r = if n >= 100 {
        String::from_str(digit_text(n / 100)).concat(digit_text((n / 10) % 10)).concat(
            digit_text(n % 10),
        )
    } else if n >= 10 {
        String::from_str(digit_text(n / 10)).concat(digit_text(n % 10))
    } else {
        String::from_str(digit_text(n))
    };
    assert(r@ =~= count_text(n));
    r
}

/// What an error says.
pub open spec fn error_text(error: ErrorView) -> Seq<char> {
    match error {
        ErrorView::TypeMismatch { expected, received } => "Type error: expected "@ + expected
            + ", received "@ + received,
        ErrorView::ExactArityMismatch { expected, received } => "Arity mismatch: expected "@
            + count_text(expected) + ", received "@ + count_text(received),
        ErrorView::MinimumArityMismatch { at_least, received } =>
            "Arity mismatch: expected at least "@ + count_text(at_least) + ", received "@
                + count_text(received),
        ErrorView::UnknownSymbol(name) => "Unknown symbol "@ + name,
        ErrorView::ParsingError(message) => "Parsing error: "@ + message,
        ErrorView::EmptyCollection => "Empty collection"@,
        ErrorView::DepthExceeded => "Evaluation nested too deep"@,
    }
}

impl Error {
    /// What this error says.
    pub fn to_text(&self) -> (r: String)
        ensures
            r@ == error_text(self@),
    {
        match self {
            Error::TypeMismatch { expected, received } => String::from_str(
                "Type error: expected ",
            ).concat(expected).concat(", received ").concat(received),
            Error::ExactArityMismatch { expected, received } => String::from_str(
                "Arity mismatch: expected ",
            ).concat(count_to_text(*expected).as_str()).concat(", received ").concat(
                count_to_text(*received).as_str(),
            ),
            Error::MinimumArityMismatch { at_least, received } => String::from_str(
                "Arity mismatch: expected at least ",
            ).concat(count_to_text(*at_least).as_str()).concat(", received ").concat(
                count_to_text(*received).as_str(),
            ),
            Error::UnknownSymbol(name) => String::from_str("Unknown symbol ").concat(name.as_str()),
            Error::ParsingError(message) => String::from_str("Parsing error: ").concat(
                message.as_str(),
            ),
            Error::EmptyCollection => String::from_str("Empty collection"),
            Error::DepthExceeded => String::from_str("Evaluation nested too deep"),
        }
    }
}

} // verus!
