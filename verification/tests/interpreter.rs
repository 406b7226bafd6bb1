use ceceio::{Atom, Expression, Interpreter};

#[test]
fn parses_and_evaluates() {
    let mut interp = Interpreter::new();

    assert_eq!(
        interp.parse_and_eval("(/ (* 2 3) (- 5 6 7))").unwrap(),
        Expression::Atom(Atom::Number((-0.75f64).to_bits()))
    );

    assert_eq!(
        interp.parse_and_eval("(def x 5)").unwrap(),
        Expression::Atom(Atom::Number(5.0f64.to_bits()))
    );

    assert_eq!(
        interp.parse_and_eval("(def twice (+ x x))").unwrap(),
        Expression::Atom(Atom::Number(10.0f64.to_bits()))
    );

    assert_eq!(
        interp.parse_and_eval("(= twice (* x 2) 10.0)").unwrap(),
        Expression::Atom(Atom::Boolean(true))
    );

    assert_eq!(
        interp.parse_and_eval("(= (* x x x x x) 3125.0)").unwrap(),
        Expression::Atom(Atom::Boolean(true))
    );
}
