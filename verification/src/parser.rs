//! The parser: from source text to syntax trees. Every function here is
//! proved to read what `grammar` defines.

use vstd::prelude::*;
use vstd::string::StrSliceExecFns;
use crate::expression::{
    expressions_view, lemma_expressions_view, names_view, Application, Atom, Binding, BuiltIn,
    Expression, ExpressionView, FnIdentifier, If, IfElse, Lambda,
};
use crate::grammar::{
    application_at, atom_at, binding_at, boolean_at, builtin_at, char_at, cond_at,
    digit_at, digits_end, double_at, escaped_end, expression_at, expressions_from, float_end,
    fn_identifier_at, form_at, has_prefix, identifier_at, identifier_end, identifier_list_at,
    if_at, inf_at, is_alphanumeric, is_digit, is_identifier_char, is_space, lambda_at, list_at, mantissa_end, names_from, nan_at, operator_at, quote_at,
    spaces_end, string_at, symbol_at, word_at, Expected, Parsed,
};
use crate::number::{decimal_bits, INFINITY, NAN};
use crate::small_string::SmallString;

verus! {

/// Why a text could not be read.
#[derive(Debug, PartialEq, Eq, Clone, Copy, Structural)]
pub enum ParseError {
    /// Nothing of the kind sought stands at the start of the text.
    NoMatch,
    /// A form was begun and then broken: at `position`, counted in
    /// characters from the start of the text, `expected` is missing.
    Broken { position: usize, expected: Expected },
}

impl View for BuiltIn {
    type V = BuiltIn;

    open spec fn view(&self) -> BuiltIn {
        *self
    }
}

/// What the public parsing functions return: the rest of the text and the
/// value read, or why nothing was read.
pub type IResult<'a, T> = Result<(&'a str, T), ParseError>;

/// `r` is the reading `o`, positions counted in characters.
pub open spec fn reading<T: View>(r: Result<(usize, T), ParseError>, o: Parsed<T::V>) -> bool {
    match r {
        Ok((end, value)) => o == (Parsed::Done { end: end as int, value: value@ }),
        Err(ParseError::NoMatch) => o is NoMatch,
        Err(ParseError::Broken { position, expected }) => o == (Parsed::<T::V>::Broken {
            at: position as int,
            expected,
        }),
    }
}

/// `r` is the end of the reading `o`.
pub open spec fn reading_end<V>(r: Result<usize, ParseError>, o: Parsed<V>) -> bool {
    match r {
        Ok(end) => o matches Parsed::Done { end: e, .. } && e == end as int,
        Err(ParseError::NoMatch) => o is NoMatch,
        Err(ParseError::Broken { position, expected }) => o == (Parsed::<V>::Broken {
            at: position as int,
            expected,
        }),
    }
}

/// `r` is the reading `o` of a list of expressions.
pub open spec fn reading_list(
    r: Result<(usize, Vec<Expression>), ParseError>,
    o: Parsed<Seq<ExpressionView>>,
) -> bool {
    match r {
        Ok((end, items)) => o == (Parsed::Done { end: end as int, value: expressions_view(items@) }),
        Err(ParseError::NoMatch) => o is NoMatch,
        Err(ParseError::Broken { position, expected }) => o == (Parsed::<
            Seq<ExpressionView>,
        >::Broken { at: position as int, expected }),
    }
}

/// `r` is the reading `o` of a list of names.
pub open spec fn reading_names(
    r: Result<(usize, Vec<SmallString>), ParseError>,
    o: Parsed<Seq<Seq<char>>>,
) -> bool {
    match r {
        Ok((end, names)) => o == (Parsed::Done { end: end as int, value: names_view(names@) }),
        Err(ParseError::NoMatch) => o is NoMatch,
        Err(ParseError::Broken { position, expected }) => o == (Parsed::<Seq<Seq<char>>>::Broken {
            at: position as int,
            expected,
        }),
    }
}

/// The characters of `text`, in order.
pub fn chars_of(text: &str) -> (r: Vec<char>)
    ensures
        r@ == text@,
{
    let mut chars: Vec<char> = Vec::new();
    for c in it: text.chars()
        invariant
            it.seq() == text@,
            chars@ =~= it.seq().take(it.index()),
    {
        chars.push(c);
    }
    chars
}

fn space(c: char) -> (r: bool)
    ensures
        r == is_space(c),
{
    c == ' ' || c == '\t' || c == '\r' || c == '\n'
}

fn digit(c: char) -> (r: bool)
    ensures
        r == is_digit(c),
{
    '0' <= c && c <= '9'
}

fn alphanumeric(c: char) -> (r: bool)
    ensures
        r == is_alphanumeric(c),
{
    digit(c) || ('a' <= c && c <= 'z') || ('A' <= c && c <= 'Z')
}

fn identifier_char(c: char) -> (r: bool)
    ensures
        r == is_identifier_char(c),
{
    alphanumeric(c) || c == '-' || c == '_' || c == '?'
}

/// Where the whitespace at `i` ends.
fn spaces_from(chars: &Vec<char>, i: usize) -> (r: usize)
    requires
        i <= chars.len(),
    ensures
        r == spaces_end(chars@, i as int),
        i <= r <= chars.len(),
{
    let mut j: usize = i;
    while j < chars.len() && space(chars[j])
        invariant
            i <= j <= chars.len(),
            spaces_end(chars@, i as int) == spaces_end(chars@, j as int),
        decreases chars.len() - j,
    {
        j += 1;
    }
    j
}

/// Where the digits at `i` end.
fn digits_from(chars: &Vec<char>, i: usize) -> (r: usize)
    requires
        i <= chars.len(),
    ensures
        r == digits_end(chars@, i as int),
        i <= r <= chars.len(),
        r > i <==> digit_at(chars@, i as int),
{
    let mut j: usize = i;
    while j < chars.len() && digit(chars[j])
        invariant
            i <= j <= chars.len(),
            digits_end(chars@, i as int) == digits_end(chars@, j as int),
            j > i ==> digit_at(chars@, i as int),
        decreases chars.len() - j,
    {
        j += 1;
    }
    j
}

/// Where the identifier characters at `i` end.
fn identifier_run_from(chars: &Vec<char>, i: usize) -> (r: usize)
    requires
        i <= chars.len(),
    ensures
        r == identifier_end(chars@, i as int),
        i <= r <= chars.len(),
{
    let mut j: usize = i;
    while j < chars.len() && identifier_char(chars[j])
        invariant
            i <= j <= chars.len(),
            identifier_end(chars@, i as int) == identifier_end(chars@, j as int),
        decreases chars.len() - j,
    {
        j += 1;
    }
    j
}

/// Whether the character `c` stands at `i`.
fn has_char(chars: &Vec<char>, i: usize, c: char) -> (r: bool)
    ensures
        r == char_at(chars@, i as int, c),
{
    i < chars.len() && chars[i] == c
}

/// Whether `word` stands at `i`.
fn has_word(chars: &Vec<char>, i: usize, word: &str) -> (r: bool)
    requires
        i <= chars.len(),
    ensures
        r == has_prefix(chars@, i as int, word@),
{
    let n: usize = word.unicode_len();
    if n > chars.len() - i {
        return false;
    }
    let mut k: usize = 0;
    while k < n
        invariant
            k <= n,
            n == word@.len(),
            i + n <= chars.len(),
            forall|j: int| 0 <= j < k ==> chars@[i + j] == word@[j],
        decreases n - k,
    {
        if chars[i + k] != word.get_char(k) {
            assert(chars@.subrange(i as int, i + n)[k as int] != word@[k as int]);
            return false;
        }
        k += 1;
    }
    assert(chars@.subrange(i as int, i + n) =~= word@);
    true
}

/// Whether `word` stands at `i` with no letter or digit after it.
fn has_whole_word(chars: &Vec<char>, i: usize, word: &str) -> (r: bool)
    requires
        i <= chars.len(),
    ensures
        r == word_at(chars@, i as int, word@),
{
    if !has_word(chars, i, word) {
        return false;
    }
    let after: usize = i + word.unicode_len();
    !(after < chars.len() && alphanumeric(chars[after]))
}

/// Where the numeral at `i` ends.
fn float_from(chars: &Vec<char>, i: usize) -> (r: Result<usize, ParseError>)
    requires
        i <= chars.len(),
    ensures
        reading_end(r, float_end(chars@, i as int)),
        r matches Ok(end) ==> i < end <= chars.len(),
{
    let j: usize = if has_char(chars, i, '+') || has_char(chars, i, '-') {
        i + 1
    } else {
        i
    };
    let a: usize = digits_from(chars, j);
    let m: usize = if a > j {
        if has_char(chars, a, '.') {
            digits_from(chars, a + 1)
        } else {
            a
        }
    } else if has_char(chars, j, '.') {
        let b: usize = digits_from(chars, j + 1);
        if b > j + 1 {
            b
        } else {
            return Err(ParseError::NoMatch);
        }
    } else {
        return Err(ParseError::NoMatch);
    };
    assert(mantissa_end(chars@, j as int) == Some(m as int));
    if has_char(chars, m, 'e') || has_char(chars, m, 'E') {
        let k: usize = if has_char(chars, m + 1, '+') || has_char(chars, m + 1, '-') {
            m + 2
        } else {
            m + 1
        };
        let end: usize = digits_from(chars, k);
        if end > k {
            Ok(end)
        } else {
            Err(ParseError::Broken { position: k, expected: Expected::ExponentDigits })
        }
    } else {
        Ok(m)
    }
}

fn has_nan(chars: &Vec<char>, i: usize) -> (r: bool)
    requires
        i <= chars.len(),
    ensures
        r == nan_at(chars@, i as int),
{
    chars.len() - i >= 3 && (chars[i] == 'n' || chars[i] == 'N') && (chars[i + 1] == 'a' || chars[i
        + 1] == 'A') && (chars[i + 2] == 'n' || chars[i + 2] == 'N')
}

fn has_inf(chars: &Vec<char>, i: usize) -> (r: bool)
    requires
        i <= chars.len(),
    ensures
        r == inf_at(chars@, i as int),
{
    chars.len() - i >= 3 && (chars[i] == 'i' || chars[i] == 'I') && (chars[i + 1] == 'n' || chars[i
        + 1] == 'N') && (chars[i + 2] == 'f' || chars[i + 2] == 'F')
}

/// Reads the number at `i`.
fn double_from(src: &str, chars: &Vec<char>, i: usize) -> (r: Result<(usize, u64), ParseError>)
    requires
        chars@ == src@,
        i <= chars.len(),
    ensures
        reading(r, double_at(chars@, i as int)),
        r matches Ok((end, _)) ==> i < end <= chars.len(),
{
    match float_from(chars, i) {
        Ok(end) => match decimal_bits(src.substring_char(i, end)) {
            Some(bits) => Ok((end, bits)),
            None => Err(ParseError::NoMatch),
        },
        Err(ParseError::Broken { position, expected }) => Err(
            ParseError::Broken { position, expected },
        ),
        Err(ParseError::NoMatch) => {
            if has_nan(chars, i) {
                Ok((i + 3, NAN))
            } else if has_inf(chars, i) {
                Ok((i + 3, INFINITY))
            } else {
                Err(ParseError::NoMatch)
            }
        },
    }
}

/// Reads the boolean at `i`.
fn boolean_from(chars: &Vec<char>, i: usize) -> (r: Result<(usize, bool), ParseError>)
    requires
        i <= chars.len(),
    ensures
        reading(r, boolean_at(chars@, i as int)),
        r matches Ok((end, _)) ==> i < end <= chars.len(),
{
    proof {
        reveal_strlit("true");
        reveal_strlit("false");
    }
    if has_word(chars, i, "true") {
        Ok((i + 4, true))
    } else if has_word(chars, i, "false") {
        Ok((i + 5, false))
    } else {
        Err(ParseError::NoMatch)
    }
}

/// Reads the operator character at `i`.
fn operator_from(chars: &Vec<char>, i: usize) -> (r: Result<(usize, BuiltIn), ParseError>)
    requires
        i <= chars.len(),
    ensures
        reading(r, operator_at(chars@, i as int)),
        r matches Ok((end, _)) ==> i < end <= chars.len(),
{
    if i >= chars.len() {
        return Err(ParseError::NoMatch);
    }
    let c: char = chars[i];
    if c == '+' {
        Ok((i + 1, BuiltIn::Plus))
    } else if c == '-' {
        Ok((i + 1, BuiltIn::Minus))
    } else if c == '*' {
        Ok((i + 1, BuiltIn::Times))
    } else if c == '/' {
        Ok((i + 1, BuiltIn::Divide))
    } else if c == '=' {
        Ok((i + 1, BuiltIn::Equal))
    } else if c == '%' {
        Ok((i + 1, BuiltIn::Remainder))
    } else {
        Err(ParseError::NoMatch)
    }
}

/// Reads the built-in operator at `i`.
fn builtin_from(chars: &Vec<char>, i: usize) -> (r: Result<(usize, BuiltIn), ParseError>)
    requires
        i <= chars.len(),
    ensures
        reading(r, builtin_at(chars@, i as int)),
        r matches Ok((end, _)) ==> i < end <= chars.len(),
{
    proof {
        reveal_strlit("not");
        reveal_strlit("and");
        reveal_strlit("or");
        reveal_strlit("cond");
        reveal_strlit("count");
    }
    match operator_from(chars, i) {
        Ok(found) => Ok(found),
        Err(_) => {
            if has_whole_word(chars, i, "not") {
                Ok((i + 3, BuiltIn::Not))
            } else if has_whole_word(chars, i, "and") {
                Ok((i + 3, BuiltIn::And))
            } else if has_whole_word(chars, i, "or") {
                Ok((i + 2, BuiltIn::Or))
            } else if has_whole_word(chars, i, "cond") {
                Ok((i + 4, BuiltIn::Cond))
            } else if has_whole_word(chars, i, "count") {
                Ok((i + 5, BuiltIn::Count))
            } else {
                Err(ParseError::NoMatch)
            }
        },
    }
}

/// Whether the characters from `i` to `end` are exactly `word`.
fn is_word(chars: &Vec<char>, i: usize, end: usize, word: &str) -> (r: bool)
    requires
        i <= end <= chars.len(),
    ensures
        r == (chars@.subrange(i as int, end as int) == word@),
{
    let same: bool = has_word(chars, i, word) && word.unicode_len() == end - i;
    proof {
        if chars@.subrange(i as int, end as int) == word@ {
            assert(chars@.subrange(i as int, end as int).len() == end - i);
        }
    }
    same
}

/// Where the identifier at `i` ends.
fn identifier_from(chars: &Vec<char>, i: usize) -> (r: Result<usize, ParseError>)
    requires
        i <= chars.len(),
    ensures
        reading_end(r, identifier_at(chars@, i as int)),
        r matches Ok(end) ==> i < end <= chars.len(),
{
    let end: usize = identifier_run_from(chars, i);
    if end <= i || digit(chars[i]) {
        return Err(ParseError::NoMatch);
    }
    if is_word(chars, i, end, "if") || is_word(chars, i, end, "true") || is_word(
        chars,
        i,
        end,
        "false",
    ) || is_word(chars, i, end, "nil") || is_word(chars, i, end, "def") || is_word(
        chars,
        i,
        end,
        "fn",
    ) {
        Err(ParseError::NoMatch)
    } else {
        Ok(end)
    }
}

/// Where the symbol at `i` ends; its name starts after the colon.
fn symbol_from(chars: &Vec<char>, i: usize) -> (r: Result<usize, ParseError>)
    requires
        i <= chars.len(),
    ensures
        reading_end(r, symbol_at(chars@, i as int)),
        r matches Ok(end) ==> i + 1 < end <= chars.len(),
{
    if has_char(chars, i, ':') {
        match identifier_from(chars, i + 1) {
            Ok(end) => Ok(end),
            Err(_) => Err(ParseError::Broken { position: i + 1, expected: Expected::Identifier }),
        }
    } else {
        Err(ParseError::NoMatch)
    }
}

/// Where the body of the string that starts at `start` ends.
fn escaped_from(chars: &Vec<char>, start: usize) -> (r: Option<usize>)
    requires
        start <= chars.len(),
    ensures
        match r {
            Some(end) => escaped_end(chars@, start as int, start as int) == Some(end as int)
                && start <= end <= chars.len(),
            None => escaped_end(chars@, start as int, start as int) is None,
        },
{
    let mut k: usize = start;
    while k < chars.len()
        invariant
            start <= k <= chars.len(),
            escaped_end(chars@, start as int, start as int) == escaped_end(
                chars@,
                start as int,
                k as int,
            ),
        decreases chars.len() - k,
    {
        let c: char = chars[k];
        if c == '\\' {
            if has_char(chars, k + 1, '"') {
                k += 2;
            } else {
                return None;
            }
        } else if c == '"' {
            if k == start {
                return None;
            } else {
                return Some(k);
            }
        } else {
            k += 1;
        }
    }
    Some(k)
}

/// Where the string at `i` ends; its text stands between the quotes.
fn string_from(chars: &Vec<char>, i: usize) -> (r: Result<usize, ParseError>)
    requires
        i <= chars.len(),
    ensures
        match r {
            Ok(end) => string_at(chars@, i as int) == (Parsed::Done {
                end: end as int,
                value: chars@.subrange(i + 1, end - 1),
            }) && i + 2 <= end <= chars.len(),
            Err(e) => e == ParseError::NoMatch && string_at(chars@, i as int) is NoMatch,
        },
{
    if !has_char(chars, i, '"') {
        return Err(ParseError::NoMatch);
    }
    let body_end: usize = match escaped_from(chars, i + 1) {
        Some(end) => end,
        None => i + 1,
    };
    if has_char(chars, body_end, '"') {
        Ok(body_end + 1)
    } else {
        Err(ParseError::NoMatch)
    }
}

/// The text from `from` to `to` as a string of the library.
fn text_between(src: &str, from: usize, to: usize) -> (r: SmallString)
    requires
        from <= to <= src@.len(),
    ensures
        r@ == src@.subrange(from as int, to as int),
{
    SmallString::new(src.substring_char(from, to))
}

/// Reads the atom at `i`.
fn atom_from(src: &str, chars: &Vec<char>, i: usize) -> (r: Result<(usize, Atom), ParseError>)
    requires
        chars@ == src@,
        i <= chars.len(),
    ensures
        reading(r, atom_at(chars@, i as int)),
        r matches Ok((end, _)) ==> i < end <= chars.len(),
{
    proof {
        reveal_strlit("nil");
    }
    match double_from(src, chars, i) {
        Ok((end, bits)) => {
            return Ok((end, Atom::Number(bits)));
        },
        Err(ParseError::Broken { position, expected }) => {
            return Err(ParseError::Broken { position, expected });
        },
        Err(ParseError::NoMatch) => {},
    }
    if let Ok((end, b)) = boolean_from(chars, i) {
        return Ok((end, Atom::Boolean(b)));
    }
    if let Ok((end, op)) = builtin_from(chars, i) {
        return Ok((end, Atom::BuiltIn(op)));
    }
    if has_word(chars, i, "nil") {
        return Ok((i + 3, Atom::Nil));
    }
    match symbol_from(chars, i) {
        Ok(end) => {
            return Ok((end, Atom::Symbol(text_between(src, i + 1, end))));
        },
        Err(ParseError::Broken { position, expected }) => {
            return Err(ParseError::Broken { position, expected });
        },
        Err(ParseError::NoMatch) => {},
    }
    if let Ok(end) = string_from(chars, i) {
        return Ok((end, Atom::String(text_between(src, i + 1, end - 1))));
    }
    match identifier_from(chars, i) {
        Ok(end) => Ok((end, Atom::Identifier(text_between(src, i, end)))),
        Err(_) => Err(ParseError::NoMatch),
    }
}

/// Reads what an application calls, at `i`.
fn fn_identifier_from(src: &str, chars: &Vec<char>, i: usize) -> (r: Result<
    (usize, FnIdentifier),
    ParseError,
>)
    requires
        chars@ == src@,
        i <= chars.len(),
    ensures
        reading(r, fn_identifier_at(chars@, i as int)),
        r matches Ok((end, _)) ==> i < end <= chars.len(),
{
    if let Ok((end, op)) = builtin_from(chars, i) {
        return Ok((end, FnIdentifier::BuiltIn(op)));
    }
    match identifier_from(chars, i) {
        Ok(end) => Ok((end, FnIdentifier::Other(text_between(src, i, end)))),
        Err(_) => Err(ParseError::NoMatch),
    }
}

/// Looks for `close` after optional whitespace from `end` on.
fn closing(chars: &Vec<char>, end: usize, close: char, expected: Expected) -> (r: Result<
    usize,
    ParseError,
>)
    requires
        end <= chars.len(),
    ensures
        match r {
            Ok(after) => char_at(chars@, spaces_end(chars@, end as int), close) && after
                == spaces_end(chars@, end as int) + 1 && end < after <= chars.len(),
            Err(e) => {
                &&& !char_at(chars@, spaces_end(chars@, end as int), close)
                &&& e matches ParseError::Broken { position, expected: lacking }
                &&& position as int == spaces_end(chars@, end as int)
                &&& lacking == expected
            },
        },
{
    let m: usize = spaces_from(chars, end);
    if has_char(chars, m, close) {
        Ok(m + 1)
    } else {
        Err(ParseError::Broken { position: m, expected })
    }
}

/// Reads the list of formals at `p`.
fn identifier_list_from(src: &str, chars: &Vec<char>, p: usize) -> (r: Result<
    (usize, Vec<SmallString>),
    ParseError,
>)
    requires
        chars@ == src@,
        p <= chars.len(),
    ensures
        reading_names(r, identifier_list_at(chars@, p as int)),
        r matches Ok((end, _)) ==> p < end <= chars.len(),
{
    let b: usize = spaces_from(chars, p);
    if !has_char(chars, b, '[') {
        return Err(ParseError::NoMatch);
    }
    let start: usize = spaces_from(chars, b + 1);
    let mut at: usize = start;
    let mut names: Vec<SmallString> = Vec::new();
    assert(names_view(names@) =~= Seq::empty());
    loop
        invariant
            chars@ == src@,
            start <= at <= chars.len(),
            names_from(chars@, start as int, Seq::empty()) == names_from(
                chars@,
                at as int,
                names_view(names@),
            ),
        ensures
            names_from(chars@, at as int, names_view(names@)) == (at as int, names_view(names@)),
        decreases chars.len() - at,
    {
        let q: usize = spaces_from(chars, at);
        match identifier_from(chars, q) {
            Ok(end) => {
                let name = text_between(src, q, end);
                let ghost before = names_view(names@);
                names.push(name);
                assert(names_view(names@) =~= before.push(chars@.subrange(q as int, end as int)));
                at = end;
            },
            Err(_) => {
                break ;
            },
        }
    }
    match closing(chars, at, ']', Expected::ClosingBrackets) {
        Ok(after) => Ok((after, names)),
        Err(e) => Err(e),
    }
}

/// The expression at `i` is the one after the whitespace there.
pub proof fn lemma_expression_after_spaces(s: Seq<char>, i: int)
    ensures
        expression_at(s, i) == expression_at(s, spaces_end(s, i)),
    decreases s.len() - i,
{
    if 0 <= i < s.len() && is_space(s[i]) {
        lemma_expression_after_spaces(s, i + 1);
    }
}

/// Reads the expressions from `p` on, inside a form that began at `floor`.
fn expressions_list_from(src: &str, chars: &Vec<char>, p: usize, floor: usize) -> (r: Result<
    (usize, Vec<Expression>),
    ParseError,
>)
    requires
        chars@ == src@,
        floor < p <= chars.len(),
    ensures
        reading_list(r, expressions_from(chars@, p as int, floor as int, Seq::empty())),
        r matches Ok((end, _)) ==> p <= end <= chars.len(),
    decreases chars.len() - floor, 2nat, 0nat,
{
    let mut at: usize = p;
    let mut items: Vec<Expression> = Vec::new();
    assert(expressions_view(items@) =~= Seq::empty());
    loop
        invariant
            chars@ == src@,
            floor < p <= at <= chars.len(),
            expressions_from(chars@, p as int, floor as int, Seq::empty()) == expressions_from(
                chars@,
                at as int,
                floor as int,
                expressions_view(items@),
            ),
        decreases chars.len() - at,
    {
        match expression_from(src, chars, at) {
            Ok((end, value)) => {
                let ghost before = expressions_view(items@);
                let ghost tree = value@;
                items.push(value);
                proof {
                    lemma_expressions_view(items@);
                    lemma_expressions_view(items@.drop_last());
                    assert(expressions_view(items@) =~= before.push(tree));
                }
                at = end;
            },
            Err(ParseError::NoMatch) => {
                return Ok((at, items));
            },
            Err(ParseError::Broken { position, expected }) => {
                return Err(ParseError::Broken { position, expected });
            },
        }
    }
}

/// Reads the `if` form at `j`.
fn if_from(src: &str, chars: &Vec<char>, j: usize) -> (r: Result<(usize, Expression), ParseError>)
    requires
        chars@ == src@,
        j <= chars.len(),
    ensures
        reading(r, if_at(chars@, j as int)),
        r matches Ok((end, _)) ==> j < end <= chars.len(),
    decreases chars.len() - j, 3nat, 0nat,
{
    proof {
        reveal_strlit("if");
    }
    if !has_char(chars, j, '(') {
        return Err(ParseError::NoMatch);
    }
    let k: usize = spaces_from(chars, j + 1);
    if !has_word(chars, k, "if") {
        return Err(ParseError::NoMatch);
    }
    if !(k + 2 < chars.len() && space(chars[k + 2])) {
        return Err(ParseError::NoMatch);
    }
    let b: usize = spaces_from(chars, k + 2);
    let (e1, condition) = match expression_from(src, chars, b) {
        Ok(found) => found,
        Err(ParseError::NoMatch) => {
            return Err(ParseError::Broken { position: b, expected: Expected::Expression });
        },
        Err(e) => {
            return Err(e);
        },
    };
    let (e2, if_true) = match expression_from(src, chars, e1) {
        Ok(found) => found,
        Err(ParseError::NoMatch) => {
            return Err(ParseError::Broken { position: e1, expected: Expected::Expression });
        },
        Err(e) => {
            return Err(e);
        },
    };
    match expression_from(src, chars, e2) {
        Ok((e3, if_false)) => {
            let after = closing(chars, e3, ')', Expected::ClosingParenthesis)?;
            Ok((after, Expression::IfElse(Box::new(IfElse { condition, if_true, if_false }))))
        },
        Err(ParseError::NoMatch) => {
            let after = closing(chars, e2, ')', Expected::ClosingParenthesis)?;
            Ok((after, Expression::If(Box::new(If { condition, do_this: if_true }))))
        },
        Err(e) => Err(e),
    }
}

/// Reads the binding at `j`.
fn binding_from(src: &str, chars: &Vec<char>, j: usize) -> (r: Result<(usize, Binding), ParseError>)
    requires
        chars@ == src@,
        j <= chars.len(),
    ensures
        reading(r, binding_at(chars@, j as int)),
        r matches Ok((end, _)) ==> j < end <= chars.len(),
    decreases chars.len() - j, 3nat, 0nat,
{
    proof {
        reveal_strlit("def ");
    }
    if !has_char(chars, j, '(') {
        return Err(ParseError::NoMatch);
    }
    let k: usize = spaces_from(chars, j + 1);
    if !has_word(chars, k, "def ") {
        return Err(ParseError::NoMatch);
    }
    let e0: usize = match identifier_from(chars, k + 4) {
        Ok(end) => end,
        Err(_) => {
            return Err(ParseError::Broken { position: k + 4, expected: Expected::Identifier });
        },
    };
    let (e1, expression) = match expression_from(src, chars, e0) {
        Ok(found) => found,
        Err(ParseError::NoMatch) => {
            return Err(ParseError::Broken { position: e0, expected: Expected::Expression });
        },
        Err(e) => {
            return Err(e);
        },
    };
    let after = closing(chars, e1, ')', Expected::ClosingParenthesis)?;
    Ok((after, Binding { identifier: text_between(src, k + 4, e0), expression }))
}

/// Reads the lambda at `j`.
fn lambda_from(src: &str, chars: &Vec<char>, j: usize) -> (r: Result<(usize, Lambda), ParseError>)
    requires
        chars@ == src@,
        j <= chars.len(),
    ensures
        reading(r, lambda_at(chars@, j as int)),
        r matches Ok((end, _)) ==> j < end <= chars.len(),
    decreases chars.len() - j, 3nat, 0nat,
{
    proof {
        reveal_strlit("fn ");
    }
    if !has_char(chars, j, '(') {
        return Err(ParseError::NoMatch);
    }
    let k: usize = spaces_from(chars, j + 1);
    if !has_word(chars, k, "fn ") {
        return Err(ParseError::NoMatch);
    }
    let (e0, arguments) = match identifier_list_from(src, chars, k + 3) {
        Ok(found) => found,
        Err(ParseError::NoMatch) => {
            return Err(
                ParseError::Broken {
                    position: spaces_from(chars, k + 3),
                    expected: Expected::OpeningBracket,
                },
            );
        },
        Err(e) => {
            return Err(e);
        },
    };
    let (e1, body) = match expression_from(src, chars, e0) {
        Ok(found) => found,
        Err(ParseError::NoMatch) => {
            return Err(ParseError::Broken { position: e0, expected: Expected::Expression });
        },
        Err(e) => {
            return Err(e);
        },
    };
    let after = closing(chars, e1, ')', Expected::ClosingParenthesis)?;
    Ok((after, Lambda { arguments, body }))
}

/// Reads the application at `j`.
fn application_from(src: &str, chars: &Vec<char>, j: usize) -> (r: Result<
    (usize, Application),
    ParseError,
>)
    requires
        chars@ == src@,
        j <= chars.len(),
    ensures
        reading(r, application_at(chars@, j as int)),
        r matches Ok((end, _)) ==> j < end <= chars.len(),
    decreases chars.len() - j, 3nat, 0nat,
{
    if !has_char(chars, j, '(') {
        return Err(ParseError::NoMatch);
    }
    let k: usize = spaces_from(chars, j + 1);
    let (e0, name) = match fn_identifier_from(src, chars, k) {
        Ok(found) => found,
        Err(_) => {
            return Err(ParseError::NoMatch);
        },
    };
    let (e1, arguments) = expressions_list_from(src, chars, e0, j)?;
    let after = closing(chars, e1, ')', Expected::ClosingParenthesis)?;
    Ok((after, Application { name, arguments }))
}

/// Reads the items of the `cond` form at `j`.
fn cond_from(src: &str, chars: &Vec<char>, j: usize) -> (r: Result<
    (usize, Vec<Expression>),
    ParseError,
>)
    requires
        chars@ == src@,
        j <= chars.len(),
    ensures
        reading_list(r, cond_at(chars@, j as int)),
        r matches Ok((end, _)) ==> j < end <= chars.len(),
    decreases chars.len() - j, 3nat, 0nat,
{
    proof {
        reveal_strlit("cond");
    }
    if !has_char(chars, j, '(') {
        return Err(ParseError::NoMatch);
    }
    let k: usize = spaces_from(chars, j + 1);
    if !has_word(chars, k, "cond") {
        return Err(ParseError::NoMatch);
    }
    let (e1, items) = expressions_list_from(src, chars, k + 4, j)?;
    let after = closing(chars, e1, ')', Expected::ClosingParenthesis)?;
    Ok((after, items))
}

/// Reads the items of the list at `i`.
fn list_from(src: &str, chars: &Vec<char>, i: usize) -> (r: Result<
    (usize, Vec<Expression>),
    ParseError,
>)
    requires
        chars@ == src@,
        i <= chars.len(),
    ensures
        reading_list(r, list_at(chars@, i as int)),
        r matches Ok((end, _)) ==> i < end <= chars.len(),
    decreases chars.len() - i, 3nat, 0nat,
{
    let b: usize = spaces_from(chars, i);
    if !has_char(chars, b, '[') {
        return Err(ParseError::NoMatch);
    }
    let c: usize = spaces_from(chars, b + 1);
    let (e1, items) = expressions_list_from(src, chars, c, b)?;
    let after = closing(chars, e1, ']', Expected::ClosingBrackets)?;
    Ok((after, items))
}

/// Reads the items of the quote at `i`.
fn quote_from(src: &str, chars: &Vec<char>, i: usize) -> (r: Result<
    (usize, Vec<Expression>),
    ParseError,
>)
    requires
        chars@ == src@,
        i <= chars.len(),
    ensures
        reading_list(r, quote_at(chars@, i as int)),
        r matches Ok((end, _)) ==> i < end <= chars.len(),
    decreases chars.len() - i, 3nat, 0nat,
{
    proof {
        reveal_strlit("'(");
    }
    let b: usize = spaces_from(chars, i);
    if !has_word(chars, b, "'(") {
        return Err(ParseError::NoMatch);
    }
    let c: usize = spaces_from(chars, b + 2);
    let (e1, items) = expressions_list_from(src, chars, c, b)?;
    let after = closing(chars, e1, ')', Expected::ClosingBrackets)?;
    Ok((after, items))
}

/// Reads the parenthesised or bracketed form at `i`.
fn form_from(src: &str, chars: &Vec<char>, i: usize) -> (r: Result<(usize, Expression), ParseError>)
    requires
        chars@ == src@,
        i <= chars.len(),
    ensures
        reading(r, form_at(chars@, i as int)),
        r matches Ok((end, _)) ==> i < end <= chars.len(),
    decreases chars.len() - i, 4nat, 0nat,
{
    match if_from(src, chars, i) {
        Err(ParseError::NoMatch) => {},
        other => {
            return other;
        },
    }
    match binding_from(src, chars, i) {
        Ok((end, binding)) => {
            return Ok((end, Expression::Binding(Box::new(binding))));
        },
        Err(ParseError::NoMatch) => {},
        Err(e) => {
            return Err(e);
        },
    }
    match lambda_from(src, chars, i) {
        Ok((end, lambda)) => {
            return Ok((end, Expression::Lambda(Box::new(lambda))));
        },
        Err(ParseError::NoMatch) => {},
        Err(e) => {
            return Err(e);
        },
    }
    match application_from(src, chars, i) {
        Ok((end, application)) => {
            return Ok((end, Expression::Application(application)));
        },
        Err(ParseError::NoMatch) => {},
        Err(e) => {
            return Err(e);
        },
    }
    match cond_from(src, chars, i) {
        Ok((end, items)) => {
            return Ok((end, Expression::Cond(items)));
        },
        Err(ParseError::NoMatch) => {},
        Err(e) => {
            return Err(e);
        },
    }
    match list_from(src, chars, i) {
        Ok((end, items)) => {
            return Ok((end, Expression::List(items)));
        },
        Err(ParseError::NoMatch) => {},
        Err(e) => {
            return Err(e);
        },
    }
    match quote_from(src, chars, i) {
        Ok((end, items)) => Ok((end, Expression::List(items))),
        Err(e) => Err(e),
    }
}

/// Reads the expression at `i`.
fn expression_from(src: &str, chars: &Vec<char>, i: usize) -> (r: Result<
    (usize, Expression),
    ParseError,
>)
    requires
        chars@ == src@,
        i <= chars.len(),
    ensures
        reading(r, expression_at(chars@, i as int)),
        r matches Ok((end, _)) ==> i < end <= chars.len(),
    decreases chars.len() - i, 5nat, 0nat,
{
    let j: usize = spaces_from(chars, i);
    proof {
        lemma_expression_after_spaces(chars@, i as int);
        assert(!(0 <= j < chars.len() && is_space(chars@[j as int]))) by {
            lemma_spaces_end_stops(chars@, i as int);
        }
    }
    match atom_from(src, chars, j) {
        Ok((end, atom)) => Ok((end, Expression::Atom(atom))),
        Err(ParseError::NoMatch) => form_from(src, chars, j),
        Err(e) => Err(e),
    }
}

/// No whitespace stands where a run of whitespace ends.
pub proof fn lemma_spaces_end_stops(s: Seq<char>, i: int)
    requires
        0 <= i,
    ensures
        i <= spaces_end(s, i),
        !(spaces_end(s, i) < s.len() && is_space(s[spaces_end(s, i)])),
    decreases s.len() - i,
{
    if 0 <= i < s.len() && is_space(s[i]) {
        lemma_spaces_end_stops(s, i + 1);
    }
}

/// `r` is the reading `o` at the start of `input`: the value, and the text
/// after it.
pub open spec fn parsed<'a, T: View>(
    r: Result<(&'a str, T), ParseError>,
    input: Seq<char>,
    o: Parsed<T::V>,
) -> bool {
    match r {
        Ok((rest, value)) => {
            &&& o matches Parsed::Done { end, value: read }
            &&& read == value@
            &&& 0 <= end <= input.len()
            &&& rest@ == input.subrange(end, input.len() as int)
        },
        Err(ParseError::NoMatch) => o is NoMatch,
        Err(ParseError::Broken { position, expected }) => o == (Parsed::<T::V>::Broken {
            at: position as int,
            expected,
        }),
    }
}

/// `r` is the reading `o` of a list of expressions at the start of `input`.
pub open spec fn parsed_list<'a>(
    r: Result<(&'a str, Vec<Expression>), ParseError>,
    input: Seq<char>,
    o: Parsed<Seq<ExpressionView>>,
) -> bool {
    match r {
        Ok((rest, items)) => {
            &&& o matches Parsed::Done { end, value: read }
            &&& read == expressions_view(items@)
            &&& 0 <= end <= input.len()
            &&& rest@ == input.subrange(end, input.len() as int)
        },
        Err(ParseError::NoMatch) => o is NoMatch,
        Err(ParseError::Broken { position, expected }) => o == (Parsed::<
            Seq<ExpressionView>,
        >::Broken { at: position as int, expected }),
    }
}

/// `r` is the reading `o` of a list of names at the start of `input`.
pub open spec fn parsed_names<'a>(
    r: Result<(&'a str, Vec<SmallString>), ParseError>,
    input: Seq<char>,
    o: Parsed<Seq<Seq<char>>>,
) -> bool {
    match r {
        Ok((rest, names)) => {
            &&& o matches Parsed::Done { end, value: read }
            &&& read == names_view(names@)
            &&& 0 <= end <= input.len()
            &&& rest@ == input.subrange(end, input.len() as int)
        },
        Err(ParseError::NoMatch) => o is NoMatch,
        Err(ParseError::Broken { position, expected }) => o == (Parsed::<Seq<Seq<char>>>::Broken {
            at: position as int,
            expected,
        }),
    }
}

/// Reads an atom at the start of `input`.
pub fn parse_atom(input: &str) -> (r: IResult<'_, Atom>)
    ensures
        parsed(r, input@, atom_at(input@, 0)),
{
    let chars = chars_of(input);
    match atom_from(input, &chars, 0) {
        Ok((end, value)) => Ok((input.substring_char(end, chars.len()), value)),
        Err(e) => Err(e),
    }
}

/// Reads an identifier at the start of `input`.
pub fn parse_identifier(input: &str) -> (r: IResult<'_, &str>)
    ensures
        parsed(r, input@, identifier_at(input@, 0)),
{
    let chars = chars_of(input);
    match identifier_from(&chars, 0) {
        Ok(end) => Ok((input.substring_char(end, chars.len()), input.substring_char(0, end))),
        Err(e) => Err(e),
    }
}

/// Reads a symbol at the start of `input` and returns its name, without the colon.
pub fn parse_symbol(input: &str) -> (r: IResult<'_, &str>)
    ensures
        parsed(r, input@, symbol_at(input@, 0)),
{
    let chars = chars_of(input);
    match symbol_from(&chars, 0) {
        Ok(end) => Ok((input.substring_char(end, chars.len()), input.substring_char(1, end))),
        Err(e) => Err(e),
    }
}

/// Reads a built-in operator at the start of `input`.
pub fn parse_builtin(input: &str) -> (r: IResult<'_, BuiltIn>)
    ensures
        parsed(r, input@, builtin_at(input@, 0)),
{
    let chars = chars_of(input);
    match builtin_from(&chars, 0) {
        Ok((end, value)) => Ok((input.substring_char(end, chars.len()), value)),
        Err(e) => Err(e),
    }
}

/// Reads what an application calls at the start of `input`.
pub fn parse_fn_identifier(input: &str) -> (r: IResult<'_, FnIdentifier>)
    ensures
        parsed(r, input@, fn_identifier_at(input@, 0)),
{
    let chars = chars_of(input);
    match fn_identifier_from(input, &chars, 0) {
        Ok((end, value)) => Ok((input.substring_char(end, chars.len()), value)),
        Err(e) => Err(e),
    }
}

/// Reads `true` or `false` at the start of `input`.
pub fn parse_boolean(input: &str) -> (r: IResult<'_, bool>)
    ensures
        parsed(r, input@, boolean_at(input@, 0)),
{
    let chars = chars_of(input);
    match boolean_from(&chars, 0) {
        Ok((end, value)) => Ok((input.substring_char(end, chars.len()), value)),
        Err(e) => Err(e),
    }
}

/// Reads an operator character at the start of `input`.
pub fn parse_operator(input: &str) -> (r: IResult<'_, BuiltIn>)
    ensures
        parsed(r, input@, operator_at(input@, 0)),
{
    let chars = chars_of(input);
    match operator_from(&chars, 0) {
        Ok((end, value)) => Ok((input.substring_char(end, chars.len()), value)),
        Err(e) => Err(e),
    }
}

/// Reads a number at the start of `input` and returns its bits.
pub fn parse_double(input: &str) -> (r: IResult<'_, u64>)
    ensures
        parsed(r, input@, double_at(input@, 0)),
{
    let chars = chars_of(input);
    match double_from(input, &chars, 0) {
        Ok((end, value)) => Ok((input.substring_char(end, chars.len()), value)),
        Err(e) => Err(e),
    }
}

/// Reads a string at the start of `input` and returns what stands between its quotes.
pub fn parse_string(input: &str) -> (r: IResult<'_, &str>)
    ensures
        parsed(r, input@, string_at(input@, 0)),
{
    let chars = chars_of(input);
    match string_from(&chars, 0) {
        Ok(end) => Ok((input.substring_char(end, chars.len()), input.substring_char(1, end - 1))),
        Err(e) => Err(e),
    }
}

/// Reads an expression at the start of `input`, after optional whitespace.
pub fn parse_expression(input: &str) -> (r: IResult<'_, Expression>)
    ensures
        parsed(r, input@, expression_at(input@, 0)),
{
    let chars = chars_of(input);
    match expression_from(input, &chars, 0) {
        Ok((end, value)) => Ok((input.substring_char(end, chars.len()), value)),
        Err(e) => Err(e),
    }
}

/// Reads a bracketed list at the start of `input`, after optional whitespace.
pub fn parse_list(input: &str) -> (r: IResult<'_, Vec<Expression>>)
    ensures
        parsed_list(r, input@, list_at(input@, 0)),
{
    let chars = chars_of(input);
    match list_from(input, &chars, 0) {
        Ok((end, value)) => Ok((input.substring_char(end, chars.len()), value)),
        Err(e) => Err(e),
    }
}

/// Reads a quote at the start of `input`, after optional whitespace.
pub fn parse_quote(input: &str) -> (r: IResult<'_, Vec<Expression>>)
    ensures
        parsed_list(r, input@, quote_at(input@, 0)),
{
    let chars = chars_of(input);
    match quote_from(input, &chars, 0) {
        Ok((end, value)) => Ok((input.substring_char(end, chars.len()), value)),
        Err(e) => Err(e),
    }
}

/// Reads a `cond` form at the start of `input` and returns its items.
pub fn parse_cond(input: &str) -> (r: IResult<'_, Vec<Expression>>)
    ensures
        parsed_list(r, input@, cond_at(input@, 0)),
{
    let chars = chars_of(input);
    match cond_from(input, &chars, 0) {
        Ok((end, value)) => Ok((input.substring_char(end, chars.len()), value)),
        Err(e) => Err(e),
    }
}

/// Reads a bracketed list of formals at the start of `input`, after optional whitespace.
pub fn parse_identifier_list(input: &str) -> (r: IResult<'_, Vec<SmallString>>)
    ensures
        parsed_names(r, input@, identifier_list_at(input@, 0)),
{
    let chars = chars_of(input);
    match identifier_list_from(input, &chars, 0) {
        Ok((end, value)) => Ok((input.substring_char(end, chars.len()), value)),
        Err(e) => Err(e),
    }
}

/// Reads a lambda at the start of `input`.
pub fn parse_lambda(input: &str) -> (r: IResult<'_, Lambda>)
    ensures
        parsed(r, input@, lambda_at(input@, 0)),
{
    let chars = chars_of(input);
    match lambda_from(input, &chars, 0) {
        Ok((end, value)) => Ok((input.substring_char(end, chars.len()), value)),
        Err(e) => Err(e),
    }
}

/// Reads an `if` form at the start of `input`.
pub fn parse_if(input: &str) -> (r: IResult<'_, Expression>)
    ensures
        parsed(r, input@, if_at(input@, 0)),
{
    let chars = chars_of(input);
    match if_from(input, &chars, 0) {
        Ok((end, value)) => Ok((input.substring_char(end, chars.len()), value)),
        Err(e) => Err(e),
    }
}

/// Reads a binding at the start of `input`.
pub fn parse_binding(input: &str) -> (r: IResult<'_, Binding>)
    ensures
        parsed(r, input@, binding_at(input@, 0)),
{
    let chars = chars_of(input);
    match binding_from(input, &chars, 0) {
        Ok((end, value)) => Ok((input.substring_char(end, chars.len()), value)),
        Err(e) => Err(e),
    }
}

/// Reads an application at the start of `input`.
pub fn parse_application(input: &str) -> (r: IResult<'_, Application>)
    ensures
        parsed(r, input@, application_at(input@, 0)),
{
    let chars = chars_of(input);
    match application_from(input, &chars, 0) {
        Ok((end, value)) => Ok((input.substring_char(end, chars.len()), value)),
        Err(e) => Err(e),
    }
}

} // verus!
