use ceceio::number::numbers_equal;
use ceceio::parser::parse_double;
use ceceio::grammar::Expected;
use ceceio::{Atom, Expression, Interpreter, ParseError};

fn value_of(result: Expression) -> f64 {
    match result {
        Expression::Atom(Atom::Number(bits)) => f64::from_bits(bits),
        other => panic!("not a number: {:?}", other),
    }
}

#[test]
fn reads_numerals_as_the_nearest_double() {
    for literal in [
        "0", "1", "0.1", "1e21", "1e-7", "123456789.125", "2.5e-320", "1e400", "4.9e-324",
        "1.7976931348623157e308", "0.30000000000000004", ".5", "5.", "+3", "-0.0", "1E5", "1e+5",
        "-12.5e-3", "9007199254740993", "2.2250738585072014e-308",
    ] {
        let expected: f64 = literal.parse().unwrap();
        assert_eq!(
            parse_double(literal),
            Ok(("", expected.to_bits())),
            "{}",
            literal
        );
    }
}

#[test]
fn reads_nan_and_inf_in_any_case() {
    assert_eq!(parse_double("inf"), Ok(("", f64::INFINITY.to_bits())));
    assert_eq!(parse_double("INF"), Ok(("", f64::INFINITY.to_bits())));
    assert_eq!(parse_double("infinity"), Ok(("inity", f64::INFINITY.to_bits())));
    let (rest, bits) = parse_double("NaN rest").unwrap();
    assert_eq!(rest, " rest");
    assert!(f64::from_bits(bits).is_nan());
    assert!(parse_double("-inf").is_err());
}

#[test]
fn a_numeral_ends_where_its_grammar_ends() {
    assert_eq!(parse_double("1.5.2"), Ok((".2", 1.5f64.to_bits())));
    assert_eq!(parse_double("7)"), Ok((")", 7.0f64.to_bits())));
    assert_eq!(parse_double("3e2x"), Ok(("x", 300.0f64.to_bits())));
    assert!(parse_double(".").is_err());
    assert!(parse_double("+").is_err());
    assert!(parse_double("").is_err());
}

#[test]
fn an_exponent_without_digits_is_broken() {
    assert_eq!(
        parse_double("1e"),
        Err(ParseError::Broken {
            position: 2,
            expected: Expected::ExponentDigits
        })
    );
    assert_eq!(
        parse_double("2.5E+x"),
        Err(ParseError::Broken {
            position: 5,
            expected: Expected::ExponentDigits
        })
    );
}

#[test]
fn arithmetic_is_that_of_doubles() {
    let mut interp = Interpreter::new();
    let cases: [(&str, f64); 12] = [
        ("(+ 0.1 0.2)", 0.1 + 0.2),
        ("(- 0.3 0.1)", 0.3 - 0.1),
        ("(* 1.1 1.1)", 1.1 * 1.1),
        ("(/ 1 3)", 1.0 / 3.0),
        ("(* 1e200 1e200)", f64::INFINITY),
        ("(/ 1 0)", f64::INFINITY),
        ("(/ -1 0)", f64::NEG_INFINITY),
        ("(% 5.5 2)", 5.5 % 2.0),
        ("(% -5 3)", -5.0 % 3.0),
        ("(/ 7)", 1.0 / 7.0),
        ("(- 0.1 0.2 0.3)", 0.1 - 0.2 - 0.3),
        ("(+ 1e16 1 1)", 1e16 + 1.0 + 1.0),
    ];
    for (source, expected) in cases {
        let got = value_of(interp.parse_and_eval(source).unwrap());
        assert_eq!(got.to_bits(), expected.to_bits(), "{}", source);
    }
    assert!(value_of(interp.parse_and_eval("(/ 0 0)").unwrap()).is_nan());
    assert!(value_of(interp.parse_and_eval("(% 1 0)").unwrap()).is_nan());
}

#[test]
fn numbers_are_compared_as_numbers() {
    let zero = 0.0f64.to_bits();
    let minus_zero = (-0.0f64).to_bits();
    let nan = f64::NAN.to_bits();
    assert!(numbers_equal(zero, minus_zero));
    assert!(numbers_equal(minus_zero, zero));
    assert!(!numbers_equal(nan, nan));
    assert!(!numbers_equal(nan, zero));
    assert!(numbers_equal(2.5f64.to_bits(), 2.5f64.to_bits()));
    assert!(!numbers_equal(2.5f64.to_bits(), (-2.5f64).to_bits()));
    assert!(numbers_equal(f64::INFINITY.to_bits(), f64::INFINITY.to_bits()));
    for (a, b) in [(1.0f64, 1.0f64), (0.0, -0.0), (f64::NAN, 1.0), (3.5, 4.5), (f64::NAN, f64::NAN)] {
        assert_eq!(numbers_equal(a.to_bits(), b.to_bits()), a == b);
    }

    let mut interp = Interpreter::new();
    assert_eq!(
        interp.parse_and_eval("(= 0 -0.0)").unwrap(),
        Expression::from(true)
    );
    assert_eq!(
        interp.parse_and_eval("(= nan nan)").unwrap(),
        Expression::from(false)
    );
    assert_eq!(
        interp.parse_and_eval("(= [1 2] [1.0 2.0])").unwrap(),
        Expression::from(true)
    );
    assert_eq!(
        interp.parse_and_eval("(= [1 2] [1 3])").unwrap(),
        Expression::from(false)
    );
}
