//! The grammar of the language, as functions from a text and a position in
//! it to what is read there. The executable parser is proved to compute
//! exactly this.

use vstd::prelude::*;
use crate::expression::{AtomView, BuiltIn, ExpressionView, FnIdentifierView};
use crate::number::{decimal_value, INFINITY, NAN};

verus! {

/// What a broken form lacked.
#[derive(Debug, PartialEq, Eq, Clone, Copy, Structural)]
pub enum Expected {
    /// The digits of an exponent, after `e`
    ExponentDigits,
    /// The identifier of a symbol, after `:`
    Identifier,
    /// An expression that an `if` needs
    Expression,
    /// The `[` that starts the formals of a lambda
    OpeningBracket,
    /// The `)` that ends a form
    ClosingParenthesis,
    /// The `]` that ends a list, or the `)` that ends a quote
    ClosingBrackets,
}

/// What is read at a position: a value and where it ends; nothing of the
/// kind sought; or a form that was begun and then broken.
pub enum Parsed<T> {
    Done { end: int, value: T },
    NoMatch,
    Broken { at: int, expected: Expected },
}

pub open spec fn is_space(c: char) -> bool {
    c == ' ' || c == '\t' || c == '\r' || c == '\n'
}

pub open spec fn is_digit(c: char) -> bool {
    '0' <= c && c <= '9'
}

pub open spec fn is_alphanumeric(c: char) -> bool {
    is_digit(c) || ('a' <= c && c <= 'z') || ('A' <= c && c <= 'Z')
}

pub open spec fn is_identifier_char(c: char) -> bool {
    is_alphanumeric(c) || c == '-' || c == '_' || c == '?'
}

/// Where the run of whitespace that starts at `i` ends.
pub open spec fn spaces_end(s: Seq<char>, i: int) -> int
    decreases s.len() - i,
{
    if 0 <= i < s.len() && is_space(s[i]) {
        spaces_end(s, i + 1)
    } else {
        i
    }
}

/// Where the run of digits that starts at `i` ends.
pub open spec fn digits_end(s: Seq<char>, i: int) -> int
    decreases s.len() - i,
{
    if 0 <= i < s.len() && is_digit(s[i]) {
        digits_end(s, i + 1)
    } else {
        i
    }
}

/// Where the run of identifier characters that starts at `i` ends.
pub open spec fn identifier_end(s: Seq<char>, i: int) -> int
    decreases s.len() - i,
{
    if 0 <= i < s.len() && is_identifier_char(s[i]) {
        identifier_end(s, i + 1)
    } else {
        i
    }
}

/// Whether `word` stands at `i`.
pub open spec fn has_prefix(s: Seq<char>, i: int, word: Seq<char>) -> bool {
    0 <= i && i + word.len() <= s.len() && s.subrange(i, i + word.len()) == word
}

pub open spec fn char_at(s: Seq<char>, i: int, c: char) -> bool {
    0 <= i < s.len() && s[i] == c
}

pub open spec fn digit_at(s: Seq<char>, i: int) -> bool {
    0 <= i < s.len() && is_digit(s[i])
}

pub open spec fn sign_at(s: Seq<char>, i: int) -> bool {
    char_at(s, i, '+') || char_at(s, i, '-')
}

/// Whether `nan` stands at `i`, in any mix of cases.
pub open spec fn nan_at(s: Seq<char>, i: int) -> bool {
    &&& char_at(s, i, 'n') || char_at(s, i, 'N')
    &&& char_at(s, i + 1, 'a') || char_at(s, i + 1, 'A')
    &&& char_at(s, i + 2, 'n') || char_at(s, i + 2, 'N')
}

/// Whether `inf` stands at `i`, in any mix of cases.
pub open spec fn inf_at(s: Seq<char>, i: int) -> bool {
    &&& char_at(s, i, 'i') || char_at(s, i, 'I')
    &&& char_at(s, i + 1, 'n') || char_at(s, i + 1, 'N')
    &&& char_at(s, i + 2, 'f') || char_at(s, i + 2, 'F')
}

/// Where the digits and the point of a numeral that starts at `j` end:
/// digits, optionally a point and more digits; or a point and digits.
pub open spec fn mantissa_end(s: Seq<char>, j: int) -> Option<int> {
    if digit_at(s, j) {
        let a = digits_end(s, j);
        if char_at(s, a, '.') {
            Some(digits_end(s, a + 1))
        } else {
            Some(a)
        }
    } else if char_at(s, j, '.') && digit_at(s, j + 1) {
        Some(digits_end(s, j + 1))
    } else {
        None
    }
}

/// Where the decimal numeral at `i` ends: an optional sign, a mantissa and
/// optionally an exponent, which is `e`, an optional sign and digits. An `e`
/// without digits breaks the numeral.
pub open spec fn float_end(s: Seq<char>, i: int) -> Parsed<()> {
    let j = if sign_at(s, i) {
        i + 1
    } else {
        i
    };
    match mantissa_end(s, j) {
        None => Parsed::NoMatch,
        Some(m) => if char_at(s, m, 'e') || char_at(s, m, 'E') {
            let k = if sign_at(s, m + 1) {
                m + 2
            } else {
                m + 1
            };
            if digit_at(s, k) {
                Parsed::Done { end: digits_end(s, k), value: () }
            } else {
                Parsed::Broken { at: k, expected: Expected::ExponentDigits }
            }
        } else {
            Parsed::Done { end: m, value: () }
        },
    }
}

/// The number at `i`: a decimal numeral, or `nan` or `inf` in any mix of
/// cases.
pub open spec fn double_at(s: Seq<char>, i: int) -> Parsed<u64> {
    match float_end(s, i) {
        Parsed::Done { end, .. } => match decimal_value(s.subrange(i, end)) {
            Some(bits) => Parsed::Done { end, value: bits },
            None => Parsed::NoMatch,
        },
        Parsed::Broken { at, expected } => Parsed::Broken { at, expected },
        Parsed::NoMatch => if nan_at(s, i) {
            Parsed::Done { end: i + 3, value: NAN }
        } else if inf_at(s, i) {
            Parsed::Done { end: i + 3, value: INFINITY }
        } else {
            Parsed::NoMatch
        },
    }
}

/// The boolean at `i`.
pub open spec fn boolean_at(s: Seq<char>, i: int) -> Parsed<bool> {
    if has_prefix(s, i, "true"@) {
        Parsed::Done { end: i + 4, value: true }
    } else if has_prefix(s, i, "false"@) {
        Parsed::Done { end: i + 5, value: false }
    } else {
        Parsed::NoMatch
    }
}

/// The operator character at `i`.
pub open spec fn operator_at(s: Seq<char>, i: int) -> Parsed<BuiltIn> {
    if char_at(s, i, '+') {
        Parsed::Done { end: i + 1, value: BuiltIn::Plus }
    } else if char_at(s, i, '-') {
        Parsed::Done { end: i + 1, value: BuiltIn::Minus }
    } else if char_at(s, i, '*') {
        Parsed::Done { end: i + 1, value: BuiltIn::Times }
    } else if char_at(s, i, '/') {
        Parsed::Done { end: i + 1, value: BuiltIn::Divide }
    } else if char_at(s, i, '=') {
        Parsed::Done { end: i + 1, value: BuiltIn::Equal }
    } else if char_at(s, i, '%') {
        Parsed::Done { end: i + 1, value: BuiltIn::Remainder }
    } else {
        Parsed::NoMatch
    }
}

/// Whether `word` stands at `i` and no letter or digit follows it.
pub open spec fn word_at(s: Seq<char>, i: int, word: Seq<char>) -> bool {
    has_prefix(s, i, word) && !(i + word.len() < s.len() && is_alphanumeric(s[i + word.len()]))
}

/// The built-in operator at `i`: an operator character, or one of the words
/// `not`, `and`, `or`, `cond`, `count`.
pub open spec fn builtin_at(s: Seq<char>, i: int) -> Parsed<BuiltIn> {
    match operator_at(s, i) {
        Parsed::NoMatch => if word_at(s, i, "not"@) {
            Parsed::Done { end: i + 3, value: BuiltIn::Not }
        } else if word_at(s, i, "and"@) {
            Parsed::Done { end: i + 3, value: BuiltIn::And }
        } else if word_at(s, i, "or"@) {
            Parsed::Done { end: i + 2, value: BuiltIn::Or }
        } else if word_at(s, i, "cond"@) {
            Parsed::Done { end: i + 4, value: BuiltIn::Cond }
        } else if word_at(s, i, "count"@) {
            Parsed::Done { end: i + 5, value: BuiltIn::Count }
        } else {
            Parsed::NoMatch
        },
        found => found,
    }
}

/// The words that no identifier may be.
pub open spec fn is_reserved(word: Seq<char>) -> bool {
    word == "if"@ || word == "true"@ || word == "false"@ || word == "nil"@ || word == "def"@
        || word == "fn"@
}

/// The identifier at `i`: the whole run of identifier characters there,
/// unless it is empty, starts with a digit or is a reserved word.
pub open spec fn identifier_at(s: Seq<char>, i: int) -> Parsed<Seq<char>> {
    let end = identifier_end(s, i);
    if digit_at(s, i) || end <= i || is_reserved(s.subrange(i, end)) {
        Parsed::NoMatch
    } else {
        Parsed::Done { end, value: s.subrange(i, end) }
    }
}

/// The symbol at `i`: a colon and an identifier. A colon without an
/// identifier is broken.
pub open spec fn symbol_at(s: Seq<char>, i: int) -> Parsed<Seq<char>> {
    if char_at(s, i, ':') {
        match identifier_at(s, i + 1) {
            Parsed::NoMatch => Parsed::Broken { at: i + 1, expected: Expected::Identifier },
            found => found,
        }
    } else {
        Parsed::NoMatch
    }
}

/// Where the body of a string that starts at `start` ends, seen from `k`:
/// it runs over any character but `"` and `\`, and over `\"`. `None` where
/// the body is empty or a `\` is followed by anything but `"`.
pub open spec fn escaped_end(s: Seq<char>, start: int, k: int) -> Option<int>
    decreases s.len() - k,
{
    if k < 0 || k >= s.len() {
        Some(s.len() as int)
    } else if s[k] == '\\' {
        if char_at(s, k + 1, '"') {
            escaped_end(s, start, k + 2)
        } else {
            None
        }
    } else if s[k] == '"' {
        if k == start {
            None
        } else {
            Some(k)
        }
    } else {
        escaped_end(s, start, k + 1)
    }
}

/// The string at `i`: what stands between two `"`, escapes left as they are.
pub open spec fn string_at(s: Seq<char>, i: int) -> Parsed<Seq<char>> {
    if char_at(s, i, '"') {
        let body_end = match escaped_end(s, i + 1, i + 1) {
            Some(e) => e,
            None => i + 1,
        };
        if char_at(s, body_end, '"') {
            Parsed::Done { end: body_end + 1, value: s.subrange(i + 1, body_end) }
        } else {
            Parsed::NoMatch
        }
    } else {
        Parsed::NoMatch
    }
}

/// The atom at `i`. The forms are tried in this order: number, boolean,
/// built-in operator, `nil`, symbol, string, identifier.
pub open spec fn atom_at(s: Seq<char>, i: int) -> Parsed<AtomView> {
    match double_at(s, i) {
        Parsed::Done { end, value } => Parsed::Done { end, value: AtomView::Number(value) },
        Parsed::Broken { at, expected } => Parsed::Broken { at, expected },
        Parsed::NoMatch => match boolean_at(s, i) {
            Parsed::Done { end, value } => Parsed::Done { end, value: AtomView::Boolean(value) },
            _ => match builtin_at(s, i) {
                Parsed::Done { end, value } => Parsed::Done { end, value: AtomView::BuiltIn(value) },
                _ => if has_prefix(s, i, "nil"@) {
                    Parsed::Done { end: i + 3, value: AtomView::Nil }
                } else {
                    match symbol_at(s, i) {
                        Parsed::Done { end, value } => Parsed::Done {
                            end,
                            value: AtomView::Symbol(value),
                        },
                        Parsed::Broken { at, expected } => Parsed::Broken { at, expected },
                        Parsed::NoMatch => match string_at(s, i) {
                            Parsed::Done { end, value } => Parsed::Done {
                                end,
                                value: AtomView::String(value),
                            },
                            _ => match identifier_at(s, i) {
                                Parsed::Done { end, value } => Parsed::Done {
                                    end,
                                    value: AtomView::Identifier(value),
                                },
                                _ => Parsed::NoMatch,
                            },
                        },
                    }
                },
            },
        },
    }
}

/// What an application calls, at `i`: a built-in operator or an identifier.
pub open spec fn fn_identifier_at(s: Seq<char>, i: int) -> Parsed<FnIdentifierView> {
    match builtin_at(s, i) {
        Parsed::Done { end, value } => Parsed::Done { end, value: FnIdentifierView::BuiltIn(value) },
        _ => match identifier_at(s, i) {
            Parsed::Done { end, value } => Parsed::Done {
                end,
                value: FnIdentifierView::Other(value),
            },
            _ => Parsed::NoMatch,
        },
    }
}

/// The first of two readings that is not `NoMatch`.
pub open spec fn or_else<T>(first: Parsed<T>, second: Parsed<T>) -> Parsed<T> {
    match first {
        Parsed::NoMatch => second,
        _ => first,
    }
}

/// `value`, read up to `end`, once the closing character has been found
/// after optional whitespace; without it the form is broken.
pub open spec fn closed<T>(s: Seq<char>, end: int, value: T, close: char, expected: Expected) -> Parsed<T> {
    let m = spaces_end(s, end);
    if char_at(s, m, close) {
        Parsed::Done { end: m + 1, value }
    } else {
        Parsed::Broken { at: m, expected }
    }
}

/// The identifiers from `p` on, each after optional whitespace, added to
/// `acc`; and where the last one ends.
pub open spec fn names_from(s: Seq<char>, p: int, acc: Seq<Seq<char>>) -> (int, Seq<Seq<char>>)
    decreases s.len() - p,
{
    match identifier_at(s, spaces_end(s, p)) {
        Parsed::Done { end, value } => if p < end <= s.len() {
            names_from(s, end, acc.push(value))
        } else {
            (p, acc)
        },
        _ => (p, acc),
    }
}

/// The list of formals at `p`: identifiers between `[` and `]`.
pub open spec fn identifier_list_at(s: Seq<char>, p: int) -> Parsed<Seq<Seq<char>>> {
    let b = spaces_end(s, p);
    if char_at(s, b, '[') {
        let names = names_from(s, spaces_end(s, b + 1), Seq::empty());
        closed(s, names.0, names.1, ']', Expected::ClosingBrackets)
    } else {
        Parsed::NoMatch
    }
}

/// The expression at `p`, inside a form that began at `floor`.
pub open spec fn inner_expression(s: Seq<char>, p: int, floor: int) -> Parsed<ExpressionView>
    decreases s.len() - floor, 1nat, 0nat,
{
    if floor < p <= s.len() {
        expression_at(s, p)
    } else {
        Parsed::NoMatch
    }
}

/// The expressions from `p` on, inside a form that began at `floor`, added
/// to `acc`.
pub open spec fn expressions_from(
    s: Seq<char>,
    p: int,
    floor: int,
    acc: Seq<ExpressionView>,
) -> Parsed<Seq<ExpressionView>>
    decreases s.len() - floor, 2nat, s.len() - p,
{
    if p <= floor || p > s.len() {
        Parsed::Done { end: p, value: acc }
    } else {
        match expression_at(s, p) {
            Parsed::Done { end, value } => if p < end <= s.len() {
                expressions_from(s, end, floor, acc.push(value))
            } else {
                Parsed::NoMatch
            },
            Parsed::NoMatch => Parsed::Done { end: p, value: acc },
            Parsed::Broken { at, expected } => Parsed::Broken { at, expected },
        }
    }
}

/// The `if` form at `j`: `(if` condition then-branch, optionally an
/// else-branch, `)`. After `if` and whitespace, anything else is broken.
pub open spec fn if_at(s: Seq<char>, j: int) -> Parsed<ExpressionView>
    decreases s.len() - j, 3nat, 0nat,
{
    let k = spaces_end(s, j + 1);
    if char_at(s, j, '(') && has_prefix(s, k, "if"@) && 0 <= k + 2 < s.len() && is_space(s[k + 2]) {
        let b = spaces_end(s, k + 2);
        match inner_expression(s, b, j) {
            Parsed::Done { end: e1, value: condition } => match inner_expression(s, e1, j) {
                Parsed::Done { end: e2, value: if_true } => match inner_expression(s, e2, j) {
                    Parsed::Done { end: e3, value: if_false } => closed(
                        s,
                        e3,
                        ExpressionView::IfElse {
                            condition: Box::new(condition),
                            if_true: Box::new(if_true),
                            if_false: Box::new(if_false),
                        },
                        ')',
                        Expected::ClosingParenthesis,
                    ),
                    Parsed::NoMatch => closed(
                        s,
                        e2,
                        ExpressionView::If {
                            condition: Box::new(condition),
                            do_this: Box::new(if_true),
                        },
                        ')',
                        Expected::ClosingParenthesis,
                    ),
                    Parsed::Broken { at, expected } => Parsed::Broken { at, expected },
                },
                Parsed::NoMatch => Parsed::Broken { at: e1, expected: Expected::Expression },
                Parsed::Broken { at, expected } => Parsed::Broken { at, expected },
            },
            Parsed::NoMatch => Parsed::Broken { at: b, expected: Expected::Expression },
            Parsed::Broken { at, expected } => Parsed::Broken { at, expected },
        }
    } else {
        Parsed::NoMatch
    }
}

/// The binding at `j`: `(def `, an identifier, an expression, `)`. After
/// `def ` anything else is broken.
pub open spec fn binding_at(s: Seq<char>, j: int) -> Parsed<ExpressionView>
    decreases s.len() - j, 3nat, 0nat,
{
    let k = spaces_end(s, j + 1);
    if char_at(s, j, '(') && has_prefix(s, k, "def "@) {
        match identifier_at(s, k + 4) {
            Parsed::Done { end: e0, value: identifier } => match inner_expression(s, e0, j) {
                Parsed::Done { end: e1, value: expression } => closed(
                    s,
                    e1,
                    ExpressionView::Binding { identifier, expression: Box::new(expression) },
                    ')',
                    Expected::ClosingParenthesis,
                ),
                Parsed::NoMatch => Parsed::Broken { at: e0, expected: Expected::Expression },
                Parsed::Broken { at, expected } => Parsed::Broken { at, expected },
            },
            _ => Parsed::Broken { at: k + 4, expected: Expected::Identifier },
        }
    } else {
        Parsed::NoMatch
    }
}

/// The lambda at `j`: `(fn `, a list of formals, a body, `)`. After `fn `
/// anything else is broken.
pub open spec fn lambda_at(s: Seq<char>, j: int) -> Parsed<ExpressionView>
    decreases s.len() - j, 3nat, 0nat,
{
    let k = spaces_end(s, j + 1);
    if char_at(s, j, '(') && has_prefix(s, k, "fn "@) {
        match identifier_list_at(s, k + 3) {
            Parsed::Done { end: e0, value: arguments } => match inner_expression(s, e0, j) {
                Parsed::Done { end: e1, value: body } => closed(
                    s,
                    e1,
                    ExpressionView::Lambda { arguments, body: Box::new(body) },
                    ')',
                    Expected::ClosingParenthesis,
                ),
                Parsed::NoMatch => Parsed::Broken { at: e0, expected: Expected::Expression },
                Parsed::Broken { at, expected } => Parsed::Broken { at, expected },
            },
            Parsed::Broken { at, expected } => Parsed::Broken { at, expected },
            Parsed::NoMatch => Parsed::Broken {
                at: spaces_end(s, k + 3),
                expected: Expected::OpeningBracket,
            },
        }
    } else {
        Parsed::NoMatch
    }
}

/// The application at `j`: `(`, what is called, the arguments, `)`.
pub open spec fn application_at(s: Seq<char>, j: int) -> Parsed<ExpressionView>
    decreases s.len() - j, 3nat, 0nat,
{
    let k = spaces_end(s, j + 1);
    if char_at(s, j, '(') {
        match fn_identifier_at(s, k) {
            Parsed::Done { end: e0, value: name } => match expressions_from(s, e0, j, Seq::empty()) {
                Parsed::Done { end: e1, value: arguments } => closed(
                    s,
                    e1,
                    ExpressionView::Application { name, arguments },
                    ')',
                    Expected::ClosingParenthesis,
                ),
                Parsed::Broken { at, expected } => Parsed::Broken { at, expected },
                Parsed::NoMatch => Parsed::NoMatch,
            },
            _ => Parsed::NoMatch,
        }
    } else {
        Parsed::NoMatch
    }
}

/// The items of the `cond` form at `j`: `(cond`, expressions, `)`.
pub open spec fn cond_at(s: Seq<char>, j: int) -> Parsed<Seq<ExpressionView>>
    decreases s.len() - j, 3nat, 0nat,
{
    let k = spaces_end(s, j + 1);
    if char_at(s, j, '(') && has_prefix(s, k, "cond"@) {
        match expressions_from(s, k + 4, j, Seq::empty()) {
            Parsed::Done { end: e1, value: items } => closed(
                s,
                e1,
                items,
                ')',
                Expected::ClosingParenthesis,
            ),
            other => other,
        }
    } else {
        Parsed::NoMatch
    }
}

/// The items of the list at `i`: `[`, expressions, `]`.
pub open spec fn list_at(s: Seq<char>, i: int) -> Parsed<Seq<ExpressionView>>
    decreases s.len() - i, 3nat, 0nat,
{
    let b = spaces_end(s, i);
    if b >= i && char_at(s, b, '[') {
        match expressions_from(s, spaces_end(s, b + 1), b, Seq::empty()) {
            Parsed::Done { end: e1, value: items } => closed(
                s,
                e1,
                items,
                ']',
                Expected::ClosingBrackets,
            ),
            other => other,
        }
    } else {
        Parsed::NoMatch
    }
}

/// The items of the quote at `i`: `'(`, expressions, `)`.
pub open spec fn quote_at(s: Seq<char>, i: int) -> Parsed<Seq<ExpressionView>>
    decreases s.len() - i, 3nat, 0nat,
{
    let b = spaces_end(s, i);
    if b >= i && has_prefix(s, b, "'("@) {
        match expressions_from(s, spaces_end(s, b + 2), b, Seq::empty()) {
            Parsed::Done { end: e1, value: items } => closed(
                s,
                e1,
                items,
                ')',
                Expected::ClosingBrackets,
            ),
            other => other,
        }
    } else {
        Parsed::NoMatch
    }
}

/// A list of items as the expression `make` makes of them.
pub open spec fn wrap(
    items: Parsed<Seq<ExpressionView>>,
    make: spec_fn(Seq<ExpressionView>) -> ExpressionView,
) -> Parsed<ExpressionView> {
    match items {
        Parsed::Done { end, value } => Parsed::Done { end, value: make(value) },
        Parsed::NoMatch => Parsed::NoMatch,
        Parsed::Broken { at, expected } => Parsed::Broken { at, expected },
    }
}

/// The parenthesised or bracketed form at `i`. The forms are tried in this
/// order: `if`, binding, lambda, application, `cond`, list, quote.
pub open spec fn form_at(s: Seq<char>, i: int) -> Parsed<ExpressionView>
    decreases s.len() - i, 4nat, 0nat,
{
    or_else(
        if_at(s, i),
        or_else(
            binding_at(s, i),
            or_else(
                lambda_at(s, i),
                or_else(
                    application_at(s, i),
                    or_else(
                        wrap(cond_at(s, i), |items: Seq<ExpressionView>| ExpressionView::Cond(items)),
                        or_else(
                            wrap(
                                list_at(s, i),
                                |items: Seq<ExpressionView>| ExpressionView::List(items),
                            ),
                            wrap(
                                quote_at(s, i),
                                |items: Seq<ExpressionView>| ExpressionView::List(items),
                            ),
                        ),
                    ),
                ),
            ),
        ),
    )
}

/// The expression at `i`: after optional whitespace, an atom or else a
/// form.
pub open spec fn expression_at(s: Seq<char>, i: int) -> Parsed<ExpressionView>
    decreases s.len() - i, 5nat, 0nat,
{
    if 0 <= i < s.len() && is_space(s[i]) {
        expression_at(s, i + 1)
    } else {
        match atom_at(s, i) {
            Parsed::Done { end, value } => Parsed::Done { end, value: ExpressionView::Atom(value) },
            Parsed::Broken { at, expected } => Parsed::Broken { at, expected },
            Parsed::NoMatch => form_at(s, i),
        }
    }
}

} // verus!
