use ceceio::{parse_expression, Atom, Env, Error, Evaluable, Expression};

fn number(x: f64) -> Expression {
    Expression::Atom(Atom::Number(x.to_bits()))
}

fn parse_and_eval(input: &str) -> Result<Expression, Error> {
    let expr = parse_expression(input).unwrap().1;
    expr.evaluate(&mut Env::default())
}

#[test]
fn evaluator_evaluates_equality_correctly() {
    // Must fail arity check
    assert!(parse_and_eval("(=)").is_err());
    assert!(parse_and_eval("(= 2)").is_err());

    assert_eq!(parse_and_eval("(= 2 2)").unwrap(), true.into());
    assert_eq!(parse_and_eval("(= 2 3)").unwrap(), false.into());
    assert_eq!(
        parse_and_eval("(= (+ 1 3) (+ 2 2) (- 6 2))").unwrap(),
        true.into()
    );
}

#[test]
fn evaluator_evaluates_and_operator_correctly() {
    // Must fail arity check
    assert!(parse_and_eval("(and)").is_err());
    assert!(parse_and_eval("(and 2)").is_err());

    // Must fail type check
    assert_eq!(
        parse_and_eval("(and 2 2)").unwrap_err(),
        Error::TypeMismatch {
            expected: "boolean",
            received: "number"
        }
    );

    assert_eq!(parse_and_eval("(and true true)").unwrap(), true.into());
    assert_eq!(parse_and_eval("(and false true)").unwrap(), false.into());
    assert_eq!(
        parse_and_eval("(and true true true true true true true true false true)").unwrap(),
        false.into()
    );
    assert_eq!(
        parse_and_eval("(and (= 2 2) (= 3 3) (= (= 2 5) (=7 8))))").unwrap(),
        true.into()
    );
    assert_eq!(
        parse_and_eval("(and (= 2 2) (= 2 3) (= (= 2 5) (=7 8))))").unwrap(),
        false.into()
    );
}

#[test]
fn evaluator_evaluates_addition_correctly() {
    assert_eq!(parse_and_eval("(+)").unwrap(), number(0.0));

    assert_eq!(parse_and_eval("(+ 3)").unwrap(), number(3.0));

    assert_eq!(parse_and_eval("(+ 5)").unwrap(), number(5.0));

    assert_eq!(
        parse_and_eval("(+ (+ 3 5) (+ (if true 5 2) 2))").unwrap(),
        number(15.0)
    );
}

#[test]
fn evaluator_evaluates_multiplication_correctly() {
    let expr = parse_expression("(*)").unwrap().1;
    assert_eq!(expr.evaluate(&mut Env::default()).unwrap(), number(0.0));

    let expr = parse_expression("(* 3)").unwrap().1;
    assert_eq!(expr.evaluate(&mut Env::default()).unwrap(), number(3.0));

    let expr = parse_expression("(* 3 2)").unwrap().1;
    assert_eq!(expr.evaluate(&mut Env::default()).unwrap(), number(6.0));

    let expr = parse_expression("(* 3 2 1)").unwrap().1;
    assert_eq!(expr.evaluate(&mut Env::default()).unwrap(), number(6.0));

    let expr = parse_expression("(* 3 2 1 0)").unwrap().1;
    assert_eq!(expr.evaluate(&mut Env::default()).unwrap(), number(0.0));
}

#[test]
fn evaluator_evaluates_subtraction_correctly() {
    let expr = parse_expression("(-)").unwrap().1;
    assert_eq!(expr.evaluate(&mut Env::default()).unwrap(), number(0.0));

    let expr = parse_expression("(- 3)").unwrap().1;
    assert_eq!(expr.evaluate(&mut Env::default()).unwrap(), number(-3.0));

    let expr = parse_expression("(- 3 2)").unwrap().1;
    assert_eq!(expr.evaluate(&mut Env::default()).unwrap(), number(1.0));
}

#[test]
fn evaluator_evaluates_if_expressions() {
    let expr = parse_expression("(if true 2)").unwrap().1;
    assert_eq!(expr.evaluate(&mut Env::default()).unwrap(), number(2.0));

    let expr = parse_expression("(if false 2 (if true 5))").unwrap().1;
    assert_eq!(expr.evaluate(&mut Env::default()).unwrap(), number(5.0));
}

#[test]
fn evaluator_evaluates_not_expressions() {
    let expr = parse_expression("(not true)").unwrap().1;
    assert_eq!(
        expr.evaluate(&mut Env::default()).unwrap(),
        Expression::Atom(Atom::Boolean(false))
    );

    let expr = parse_expression("(not false)").unwrap().1;
    assert_eq!(
        expr.evaluate(&mut Env::default()).unwrap(),
        Expression::Atom(Atom::Boolean(true))
    );

    let expr = parse_expression("(not (not (not false)))").unwrap().1;
    assert_eq!(
        expr.evaluate(&mut Env::default()).unwrap(),
        Expression::Atom(Atom::Boolean(true))
    );

    let expr = parse_expression("(not)").unwrap().1;
    assert_eq!(
        expr.evaluate(&mut Env::default()).unwrap_err(),
        Error::ExactArityMismatch {
            expected: 1,
            received: 0
        }
    );

    let expr = parse_expression("(not false true)").unwrap().1;
    assert_eq!(
        expr.evaluate(&mut Env::default()).unwrap_err(),
        Error::ExactArityMismatch {
            expected: 1,
            received: 2
        }
    );
}
