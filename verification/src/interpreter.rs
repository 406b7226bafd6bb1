//! A session: one environment, fed with source text or with expressions.

use vstd::prelude::*;
use vstd::string::StringExecFns;
use crate::env::{Env, DEFAULT_MAX_DEPTH};
use crate::error::{Error, ErrorView};
use crate::evaluator::agrees;
use crate::expression::Expression;
use crate::grammar::{expression_at, Expected, Parsed};
use crate::parser::{parse_expression, ParseError};
use crate::semantics::{eval, no_bindings, Bindings};

verus! {

/// What is missing, in words.
pub open spec fn expected_text(expected: Expected) -> &'static str {
    match expected {
        Expected::ExponentDigits => "expected the digits of an exponent",
        Expected::Identifier => "expected an identifier",
        Expected::Expression => "expected an expression",
        Expected::OpeningBracket => "expected an opening bracket",
        Expected::ClosingParenthesis => "expected a closing parenthesis",
        Expected::ClosingBrackets => "expected closing brackets",
    }
}

/// What a parse failure says, in words.
pub open spec fn failure_text(error: ParseError) -> &'static str {
    match error {
        ParseError::NoMatch => "no expression found",
        ParseError::Broken { expected, .. } => expected_text(expected),
    }
}

/// The failure of the reading `o`, if it is one.
pub open spec fn failure_of<V>(o: Parsed<V>) -> Option<ParseError> {
    match o {
        Parsed::Done { .. } => None,
        Parsed::NoMatch => Some(ParseError::NoMatch),
        Parsed::Broken { at, expected } => Some(
            ParseError::Broken { position: at as usize, expected },
        ),
    }
}

pub struct Interpreter {
    env: Env,
}

impl View for Interpreter {
    type V = Bindings;

    closed spec fn view(&self) -> Bindings {
        self.env@
    }
}

impl Interpreter {
    /// The depth to which this session's evaluations may nest.
    pub closed spec fn max_depth(&self) -> usize {
        self.env.max_depth()
    }

    /// A session without bindings.
    pub fn new() -> (r: Interpreter)
        ensures
            r@ == no_bindings(),
            r.max_depth() == DEFAULT_MAX_DEPTH,
    {
        Interpreter { env: Env::default() }
    }

    /// Reads the expression at the start of `input`; what follows it is
    /// ignored.
    pub fn parse(input: &str) -> (r: Result<Expression, Error>)
        ensures
            match expression_at(input@, 0) {
                Parsed::Done { value, .. } => r is Ok && r->Ok_0@ == value,
                failure => r is Err && r->Err_0@ == ErrorView::ParsingError(
                    failure_text(failure_of(failure)->Some_0)@,
                ),
            },
    {
        match parse_expression(input) {
            Ok((_, expression)) => Ok(expression),
            Err(error) => Err(Self::stringify_error(error)),
        }
    }

    /// Evaluates `expression` against this session's environment.
    pub fn eval(&mut self, expression: Expression) -> (r: Result<Expression, Error>)
        ensures
            agrees(r, final(self)@, eval(expression@, old(self)@, old(self).max_depth() as nat)),
            final(self).max_depth() == old(self).max_depth(),
    {
        let depth = self.env.max_depth();
        expression.evaluate_within(&mut self.env, depth)
    }

    /// Reads the expression at the start of `input` and evaluates it. Where
    /// the text cannot be read, the environment stays as it was.
    pub fn parse_and_eval(&mut self, input: &str) -> (r: Result<Expression, Error>)
        ensures
            match expression_at(input@, 0) {
                Parsed::Done { value, .. } => agrees(
                    r,
                    final(self)@,
                    eval(value, old(self)@, old(self).max_depth() as nat),
                ),
                failure => r is Err && r->Err_0@ == ErrorView::ParsingError(
                    failure_text(failure_of(failure)->Some_0)@,
                ) && final(self)@ == old(self)@,
            },
            final(self).max_depth() == old(self).max_depth(),
    {
        match Self::parse(input) {
            Ok(expression) => self.eval(expression),
            Err(error) => Err(error),
        }
    }

    /// A parse failure as an error of the interpreter.
    pub fn stringify_error(error: ParseError) -> (r: Error)
        ensures
            r@ == ErrorView::ParsingError(failure_text(error)@),
    {
        let text: &'static str = match error {
            ParseError::NoMatch => "no expression found",
            ParseError::Broken { expected, .. } => match expected {
                Expected::ExponentDigits => "expected the digits of an exponent",
                Expected::Identifier => "expected an identifier",
                Expected::Expression => "expected an expression",
                Expected::OpeningBracket => "expected an opening bracket",
                Expected::ClosingParenthesis => "expected a closing parenthesis",
                Expected::ClosingBrackets => "expected closing brackets",
            },
        };
        Error::ParsingError(String::from_str(text))
    }
}

impl Default for Interpreter {
    fn default() -> (r: Interpreter)
        ensures
            r@ == no_bindings(),
            r.max_depth() == DEFAULT_MAX_DEPTH,
    {
        Interpreter::new()
    }
}

} // verus!
