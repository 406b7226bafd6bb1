use ceceio::grammar::Expected;
use ceceio::parser::{parse_cond, parse_lambda};
use ceceio::{
    parse_expression, Application, Atom, BuiltIn, Env, Error, Evaluable, Expression, FnIdentifier,
    Interpreter, Lambda, ParseError, SmallString,
};

fn number(x: f64) -> Expression {
    Expression::Atom(Atom::Number(x.to_bits()))
}

fn parsed(source: &str) -> Expression {
    let (rest, expression) = parse_expression(source).unwrap();
    assert_eq!(rest, "");
    expression
}

fn symbol(name: &str) -> Expression {
    Expression::Atom(Atom::Symbol(SmallString::new(name)))
}

#[test]
fn equality_with_too_few_arguments_reports_the_count() {
    let mut env = Env::default();
    assert_eq!(
        parsed("(=)").evaluate(&mut env),
        Err(Error::MinimumArityMismatch {
            at_least: 2,
            received: 0
        })
    );
    assert_eq!(
        parsed("(= 2)").evaluate(&mut env),
        Err(Error::MinimumArityMismatch {
            at_least: 2,
            received: 1
        })
    );
}

#[test]
fn equality_is_pairwise() {
    let mut env = Env::default();
    assert_eq!(parsed("(= 1 1 1 1)").evaluate(&mut env), Ok(true.into()));
    assert_eq!(parsed("(= 1 1 2 1)").evaluate(&mut env), Ok(false.into()));
    assert_eq!(parsed("(= 2 1 1 1)").evaluate(&mut env), Ok(false.into()));
    assert_eq!(parsed("(= :a :a)").evaluate(&mut env), Ok(true.into()));
    assert_eq!(parsed("(= :a \"a\")").evaluate(&mut env), Ok(false.into()));
    assert_eq!(parsed("(= nil nil nil)").evaluate(&mut env), Ok(true.into()));
    assert_eq!(
        parsed("(= (fn [x] x) (fn [x] x))").evaluate(&mut env),
        Ok(true.into())
    );
    assert_eq!(
        parsed("(= (fn [x] x) (fn [y] y))").evaluate(&mut env),
        Ok(false.into())
    );
}

#[test]
fn equality_stops_at_the_first_difference() {
    let mut env = Env::default();
    assert_eq!(
        parsed("(= 1 2 unbound)").evaluate(&mut env),
        Ok(false.into())
    );
    assert_eq!(
        parsed("(= 1 1 unbound)").evaluate(&mut env),
        Err(Error::UnknownSymbol(SmallString::new("unbound")))
    );
}

#[test]
fn not_checks_arity_then_type() {
    let mut env = Env::default();
    assert_eq!(parsed("(not true)").evaluate(&mut env), Ok(false.into()));
    assert_eq!(parsed("(not (= 1 2))").evaluate(&mut env), Ok(true.into()));
    assert_eq!(
        parsed("(not 1)").evaluate(&mut env),
        Err(Error::TypeMismatch {
            expected: "boolean",
            received: "number"
        })
    );
    assert_eq!(
        parsed("(not nil)").evaluate(&mut env),
        Err(Error::TypeMismatch {
            expected: "boolean",
            received: "nil"
        })
    );
    assert_eq!(
        parsed("(not [true])").evaluate(&mut env),
        Err(Error::TypeMismatch {
            expected: "boolean",
            received: "list"
        })
    );
    assert_eq!(
        parsed("(not 1 2)").evaluate(&mut env),
        Err(Error::ExactArityMismatch {
            expected: 1,
            received: 2
        })
    );
}

#[test]
fn a_later_binding_sees_an_earlier_one() {
    let mut interp = Interpreter::new();
    assert_eq!(interp.parse_and_eval("(def x 5)"), Ok(number(5.0)));
    assert_eq!(interp.parse_and_eval("(def six (+ x 1))"), Ok(number(6.0)));
    assert_eq!(interp.parse_and_eval("six"), Ok(number(6.0)));
    assert_eq!(interp.parse_and_eval("(def x 7)"), Ok(number(7.0)));
    assert_eq!(interp.parse_and_eval("x"), Ok(number(7.0)));
    assert_eq!(interp.parse_and_eval("six"), Ok(number(6.0)));
    assert_eq!(
        interp.parse_and_eval("seven"),
        Err(Error::UnknownSymbol(SmallString::new("seven")))
    );
}

fn cond_of(source: &str) -> Expression {
    let (rest, items) = parse_cond(source).unwrap();
    assert_eq!(rest, "");
    Expression::Cond(items)
}

#[test]
fn cond_takes_the_first_true_branch_or_the_default() {
    let mut env = Env::default();
    assert_eq!(
        cond_of("(cond false 2 false 3 4)").evaluate(&mut env),
        Ok(number(4.0))
    );
    assert_eq!(cond_of("(cond true 2)").evaluate(&mut env), Ok(number(2.0)));
    assert_eq!(
        cond_of("(cond false 2)").evaluate(&mut env),
        Ok(Expression::default())
    );
    assert_eq!(cond_of("(cond)").evaluate(&mut env), Ok(Expression::default()));
    assert_eq!(cond_of("(cond 7)").evaluate(&mut env), Ok(number(7.0)));
    assert_eq!(
        cond_of("(cond 1 2 true 3)").evaluate(&mut env),
        Ok(number(3.0))
    );
    assert_eq!(
        cond_of("(cond true 2 unbound 3)").evaluate(&mut env),
        Ok(number(2.0))
    );
    assert_eq!(
        BuiltIn::Cond.apply(vec![false.into(), number(1.0), number(9.0)], &mut env),
        Ok(number(9.0))
    );
}

#[test]
fn cond_and_count_in_source_text_are_built_in_applications() {
    assert_eq!(
        parse_expression("(cond true 2)"),
        Ok((
            "",
            Expression::Application(Application {
                name: FnIdentifier::BuiltIn(BuiltIn::Cond),
                arguments: vec![true.into(), number(2.0)]
            })
        ))
    );
    assert_eq!(
        parse_expression("(count f [])"),
        Ok((
            "",
            Expression::Application(Application {
                name: FnIdentifier::BuiltIn(BuiltIn::Count),
                arguments: vec![
                    Expression::Atom(Atom::Identifier(SmallString::new("f"))),
                    Expression::List(vec![])
                ]
            })
        ))
    );
    assert_eq!(
        parsed("(condition 1)"),
        Expression::Application(Application {
            name: FnIdentifier::Other(SmallString::new("condition")),
            arguments: vec![number(1.0)]
        })
    );
    assert_eq!(
        parsed("counter"),
        Expression::Atom(Atom::Identifier(SmallString::new("counter")))
    );

    let mut interp = Interpreter::new();
    assert_eq!(
        interp.parse_and_eval("(cond false 2 false 3 4)"),
        Ok(number(4.0))
    );
    assert_eq!(interp.parse_and_eval("(cond true 2)"), Ok(number(2.0)));
    assert_eq!(
        interp.parse_and_eval("(cond false 2)"),
        Ok(Expression::default())
    );
}

fn lambda_of(source: &str) -> Lambda {
    let (rest, lambda) = parse_lambda(source).unwrap();
    assert_eq!(rest, "");
    lambda
}

#[test]
fn lambdas_are_applied_by_substitution() {
    let mut env = Env::default();
    assert_eq!(
        lambda_of("(fn [x] (+ x x))").apply(vec![number(2.0)], &mut env),
        Ok(number(4.0))
    );
    assert_eq!(
        lambda_of("(fn [] :ok)").apply(vec![], &mut env),
        Ok(symbol("ok"))
    );
    assert_eq!(
        lambda_of("(fn [x y] y)").apply(vec![number(1.0), parsed("(+ 1 1)")], &mut env),
        Ok(number(2.0))
    );
    assert_eq!(
        lambda_of("(fn [x] (if x 1 2))").apply(vec![parsed("(= 1 1)")], &mut env),
        Ok(number(1.0))
    );
    assert_eq!(
        lambda_of("(fn [x] (if (= x 1) :one))").apply(vec![number(2.0)], &mut env),
        Ok(Expression::default())
    );
    assert_eq!(
        lambda_of("(fn [x] (fn [y] (* y 2)))").apply(vec![number(4.0)], &mut env),
        Ok(number(8.0))
    );
    assert_eq!(
        lambda_of("(fn [x] [x])").apply(vec![number(4.0)], &mut env),
        Ok(parsed("[x]"))
    );
    assert_eq!(
        lambda_of("(fn [x] (def y 3))").apply(vec![number(4.0)], &mut env),
        Ok(number(3.0))
    );
    assert_eq!(parsed("y").evaluate(&mut env), Ok(number(3.0)));
}

#[test]
fn a_lambda_checks_its_argument_count() {
    let mut env = Env::default();
    assert_eq!(
        lambda_of("(fn [x] (+ x x))").apply(vec![], &mut env),
        Err(Error::ExactArityMismatch {
            expected: 1,
            received: 0
        })
    );
    assert_eq!(
        lambda_of("(fn [] :ok)").apply(vec![number(1.0), number(2.0)], &mut env),
        Err(Error::ExactArityMismatch {
            expected: 0,
            received: 2
        })
    );
    let mut interp = Interpreter::new();
    interp.parse_and_eval("(def double (fn [x] (+ x x)))").unwrap();
    assert_eq!(
        interp.parse_and_eval("(double 1 2)"),
        Err(Error::ExactArityMismatch {
            expected: 1,
            received: 2
        })
    );
}

#[test]
fn an_unknown_formal_in_the_body_is_an_unknown_symbol() {
    let mut env = Env::default();
    assert_eq!(
        lambda_of("(fn [x] y)").apply(vec![number(1.0)], &mut env),
        Err(Error::UnknownSymbol(SmallString::new("y")))
    );
    assert_eq!(
        lambda_of("(fn [x] (+ x y))").apply(vec![number(1.0)], &mut env),
        Err(Error::UnknownSymbol(SmallString::new("y")))
    );
}

#[test]
fn only_a_lambda_can_be_called_by_name() {
    let mut interp = Interpreter::new();
    interp.parse_and_eval("(def five 5)").unwrap();
    assert_eq!(
        interp.parse_and_eval("(five 1)"),
        Err(Error::TypeMismatch {
            expected: "lambda",
            received: "number"
        })
    );
    assert_eq!(
        interp.parse_and_eval("(six 1)"),
        Err(Error::UnknownSymbol(SmallString::new("six")))
    );
}

#[test]
fn an_if_takes_anything_but_true_for_false() {
    let mut env = Env::default();
    assert_eq!(parsed("(if 1 2)").evaluate(&mut env), Ok(Expression::default()));
    assert_eq!(parsed("(if nil 2 3)").evaluate(&mut env), Ok(number(3.0)));
    assert_eq!(parsed("(if false 2)").evaluate(&mut env), Ok(Expression::default()));
    assert_eq!(parsed("(if (= 1 1) :yes :no)").evaluate(&mut env), Ok(symbol("yes")));
}

#[test]
fn lists_and_lambdas_evaluate_to_themselves() {
    let mut env = Env::default();
    assert_eq!(parsed("[(+ 1 2) x]").evaluate(&mut env), Ok(parsed("[(+ 1 2) x]")));
    assert_eq!(
        parsed("(fn [a] (+ a 1))").evaluate(&mut env),
        Ok(parsed("(fn [a] (+ a 1))"))
    );
    assert_eq!(parsed("\"text\"").evaluate(&mut env), Ok(parsed("\"text\"")));
    assert_eq!(parsed("+").evaluate(&mut env), Ok(Expression::Atom(Atom::BuiltIn(BuiltIn::Plus))));
}

#[test]
fn remainder_needs_two_numbers() {
    let mut env = Env::default();
    assert_eq!(
        parsed("(%)").evaluate(&mut env),
        Err(Error::ExactArityMismatch {
            expected: 2,
            received: 0
        })
    );
    assert_eq!(
        parsed("(% 1 4 5)").evaluate(&mut env),
        Err(Error::ExactArityMismatch {
            expected: 2,
            received: 3
        })
    );
    assert_eq!(
        parsed("(% :ok 2)").evaluate(&mut env),
        Err(Error::TypeMismatch {
            expected: "number",
            received: "symbol"
        })
    );
    // the right-hand side is evaluated first
    assert_eq!(
        parsed("(% :ok \"two\")").evaluate(&mut env),
        Err(Error::TypeMismatch {
            expected: "number",
            received: "string"
        })
    );
}

#[test]
fn arithmetic_with_one_argument_uses_the_identity() {
    let mut env = Env::default();
    assert_eq!(parsed("(- 4)").evaluate(&mut env), Ok(number(-4.0)));
    assert_eq!(parsed("(/ 4)").evaluate(&mut env), Ok(number(0.25)));
    assert_eq!(parsed("(+ 4)").evaluate(&mut env), Ok(number(4.0)));
    assert_eq!(parsed("(* 4)").evaluate(&mut env), Ok(number(4.0)));
    assert_eq!(parsed("(- (- 4))").evaluate(&mut env), Ok(number(4.0)));
    assert_eq!(parsed("(/ (/ 4))").evaluate(&mut env), Ok(number(4.0)));
    assert_eq!(parsed("(/)").evaluate(&mut env), Ok(number(0.0)));
    assert_eq!(
        parsed("(+ 1 true)").evaluate(&mut env),
        Err(Error::TypeMismatch {
            expected: "number",
            received: "boolean"
        })
    );
    assert_eq!(parsed("(+ 1 2 3)").evaluate(&mut env), parsed("(+ 3 2 1)").evaluate(&mut env));
    assert_eq!(parsed("(* 2 3 4)").evaluate(&mut env), parsed("(* 4 (* 3 2))").evaluate(&mut env));
}

#[test]
fn count_counts_what_the_predicate_holds_of() {
    let mut env = Env::default();
    let even = parsed("(fn [x] (= (% x 2) 0))");
    assert_eq!(
        BuiltIn::Count.apply(vec![even, parsed("[1 2 3 4 6]")], &mut env),
        Ok(number(3.0))
    );
    assert_eq!(
        BuiltIn::Count.apply(vec![parsed("(fn [x] true)"), parsed("[]")], &mut env),
        Ok(number(0.0))
    );
    assert_eq!(
        BuiltIn::Count.apply(vec![parsed("(fn [x] true)"), number(1.0)], &mut env),
        Err(Error::TypeMismatch {
            expected: "list",
            received: "number"
        })
    );
    assert_eq!(
        BuiltIn::Count.apply(vec![number(1.0), parsed("[1]")], &mut env),
        Err(Error::TypeMismatch {
            expected: "lambda",
            received: "number"
        })
    );
    assert_eq!(
        BuiltIn::Count.apply(vec![number(1.0)], &mut env),
        Err(Error::ExactArityMismatch {
            expected: 2,
            received: 1
        })
    );
}

#[test]
fn evaluation_stops_at_the_depth_of_the_environment() {
    let mut interp = Interpreter::new();
    interp.parse_and_eval("(def forever (fn [] (forever)))").unwrap();
    assert_eq!(interp.parse_and_eval("(forever)"), Err(Error::DepthExceeded));

    let mut shallow = Env::with_max_depth(2);
    assert_eq!(parsed("(+ 1 2)").evaluate(&mut shallow), Ok(number(3.0)));
    assert_eq!(
        parsed("(+ 1 (+ 2 3))").evaluate(&mut shallow),
        Err(Error::DepthExceeded)
    );
    let mut none = Env::with_max_depth(0);
    assert_eq!(parsed("1").evaluate(&mut none), Err(Error::DepthExceeded));
}

#[test]
fn counts_above_255_are_reported_as_255() {
    let mut source = String::from("(not");
    for _ in 0..300 {
        source.push_str(" true");
    }
    source.push(')');
    let mut env = Env::default();
    assert_eq!(
        parsed(&source).evaluate(&mut env),
        Err(Error::ExactArityMismatch {
            expected: 1,
            received: 255
        })
    );
}

#[test]
fn broken_forms_say_what_is_missing() {
    assert_eq!(
        parse_expression("(if true"),
        Err(ParseError::Broken {
            position: 8,
            expected: Expected::Expression
        })
    );
    assert_eq!(
        parse_expression("(if true 1 2 3)"),
        Err(ParseError::Broken {
            position: 13,
            expected: Expected::ClosingParenthesis
        })
    );
    assert_eq!(
        parse_expression("(+ 1 2"),
        Err(ParseError::Broken {
            position: 6,
            expected: Expected::ClosingParenthesis
        })
    );
    assert_eq!(
        parse_expression("[1 2"),
        Err(ParseError::Broken {
            position: 4,
            expected: Expected::ClosingBrackets
        })
    );
    assert_eq!(
        parse_expression("'(1 2]"),
        Err(ParseError::Broken {
            position: 5,
            expected: Expected::ClosingBrackets
        })
    );
    assert_eq!(
        parse_expression("(fn [x y (+ x y))"),
        Err(ParseError::Broken {
            position: 9,
            expected: Expected::ClosingBrackets
        })
    );
    assert_eq!(
        parse_expression("(def x 1 2)"),
        Err(ParseError::Broken {
            position: 9,
            expected: Expected::ClosingParenthesis
        })
    );
    assert_eq!(
        parse_expression(": x"),
        Err(ParseError::Broken {
            position: 1,
            expected: Expected::Identifier
        })
    );
    assert_eq!(
        parse_expression("(def x)"),
        Err(ParseError::Broken {
            position: 6,
            expected: Expected::Expression
        })
    );
    assert_eq!(
        parse_expression("(def 2 2)"),
        Err(ParseError::Broken {
            position: 5,
            expected: Expected::Identifier
        })
    );
    assert_eq!(
        parse_expression("(fn  x x)"),
        Err(ParseError::Broken {
            position: 5,
            expected: Expected::OpeningBracket
        })
    );
    assert_eq!(
        parse_expression("(fn [x] )"),
        Err(ParseError::Broken {
            position: 7,
            expected: Expected::Expression
        })
    );
    assert_eq!(parse_expression(""), Err(ParseError::NoMatch));
    assert_eq!(parse_expression("   "), Err(ParseError::NoMatch));
    assert_eq!(parse_expression(")"), Err(ParseError::NoMatch));
    assert_eq!(parse_expression("(def)"), Err(ParseError::NoMatch));
    assert_eq!(parse_expression("((fn [x] x) 2)"), Err(ParseError::NoMatch));
}

#[test]
fn a_parse_failure_becomes_a_parsing_error() {
    let mut interp = Interpreter::new();
    assert_eq!(
        interp.parse_and_eval("(+ 1 2"),
        Err(Error::ParsingError(String::from(
            "expected a closing parenthesis"
        )))
    );
    assert_eq!(
        interp.parse_and_eval(""),
        Err(Error::ParsingError(String::from("no expression found")))
    );
    assert_eq!(
        Interpreter::parse("  (+ 1 2) trailing"),
        Ok(parsed("(+ 1 2)"))
    );
}

#[test]
fn reserved_words_and_word_boundaries() {
    assert_eq!(
        parsed("notch"),
        Expression::Atom(Atom::Identifier(SmallString::new("notch")))
    );
    assert_eq!(
        parsed("android"),
        Expression::Atom(Atom::Identifier(SmallString::new("android")))
    );
    assert_eq!(
        parsed("adef"),
        Expression::Atom(Atom::Identifier(SmallString::new("adef")))
    );
    assert_eq!(
        parsed("def-x"),
        Expression::Atom(Atom::Identifier(SmallString::new("def-x")))
    );
    assert_eq!(parsed("t"), Expression::Atom(Atom::Identifier(SmallString::new("t"))));
    assert_eq!(parse_expression("nil?"), Ok(("?", Expression::default())));
    assert_eq!(parse_expression("truex"), Ok(("x", true.into())));
    assert_eq!(
        parse_expression("not-x"),
        Ok(("-x", Expression::Atom(Atom::BuiltIn(BuiltIn::Not))))
    );
    assert_eq!(parse_expression("def"), Err(ParseError::NoMatch));
    assert_eq!(parse_expression("if"), Err(ParseError::NoMatch));
    assert_eq!(
        parsed("(iffy 1)"),
        Expression::Application(Application {
            name: FnIdentifier::Other(SmallString::new("iffy")),
            arguments: vec![number(1.0)]
        })
    );
}

#[test]
fn whitespace_between_tokens_is_free() {
    assert_eq!(parsed(" \t\r\n(+\n1\t2 )"), parsed("(+ 1 2)"));
    assert_eq!(parsed("( if true\n 1 )"), parsed("(if true 1)"));
    assert_eq!(parsed("(fn [x]x)"), parsed("(fn [ x ] x )"));
    assert_eq!(parse_expression("(fn[x]x)"), Err(ParseError::NoMatch));
    assert_eq!(
        parse_expression("(def  x 1)"),
        Err(ParseError::Broken {
            position: 5,
            expected: Expected::Identifier
        })
    );
    assert_eq!(parsed("\"\""), Expression::Atom(Atom::String(SmallString::new(""))));
    assert_eq!(
        parsed("\"a b\u{e9}\""),
        Expression::Atom(Atom::String(SmallString::new("a b\u{e9}")))
    );
    assert_eq!(parse_expression("\u{e9}"), Err(ParseError::NoMatch));
}

#[test]
fn deep_recursion_ends_in_an_error() {
    let mut interp = Interpreter::new();
    interp
        .parse_and_eval("(def down (fn [n] (cond (= n 0) :done (down (- n 1)))))")
        .unwrap();
    assert_eq!(interp.parse_and_eval("(down 50)"), Ok(symbol("done")));
    assert_eq!(interp.parse_and_eval("(down 100000)"), Err(Error::DepthExceeded));
    interp
        .parse_and_eval("(def sum-to (fn [n] (if (= n 0) 0 (+ n (sum-to (- n 1))))))")
        .unwrap();
    assert_eq!(interp.parse_and_eval("(sum-to 100)"), Ok(number(5050.0)));
    assert_eq!(interp.parse_and_eval("(sum-to 100000)"), Err(Error::DepthExceeded));
    interp
        .parse_and_eval("(def both (fn [n] (and (= n n) (or (= n 0) (both (- n 1))))))")
        .unwrap();
    assert_eq!(interp.parse_and_eval("(both 100000)"), Err(Error::DepthExceeded));
}
