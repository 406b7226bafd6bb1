use ceceio::parser::{
    parse_boolean, parse_builtin, parse_double, parse_identifier, parse_operator, parse_string,
    parse_symbol,
};
use ceceio::{parse_atom, Atom, BuiltIn, SmallString};

#[test]
fn parses_atoms() {
    assert_eq!(
        parse_atom("2.3"),
        Ok(("", Atom::Number(2.3f64.to_bits())))
    );

    assert_eq!(parse_atom("true"), Ok(("", Atom::Boolean(true))));

    assert_eq!(
        parse_atom(":arg"),
        Ok(("", Atom::Symbol(SmallString::new("arg"))))
    );

    assert_eq!(parse_atom("+"), Ok(("", Atom::BuiltIn(BuiltIn::Plus))));
}

#[test]
fn parses_doubles() {
    assert_eq!(parse_double("2.3"), Ok(("", 2.3f64.to_bits())));
    assert_eq!(parse_double("5.00 "), Ok((" ", 5.0f64.to_bits())));
    assert_eq!(parse_double("1 1.2"), Ok((" 1.2", 1.0f64.to_bits())));

    assert!(parse_double("a 1.2").is_err());
}

#[test]
fn parses_booleans() {
    assert_eq!(parse_boolean("true"), Ok(("", true)));
    assert_eq!(parse_boolean("false"), Ok(("", false)));
    assert_eq!(parse_boolean("false false"), Ok((" false", false)));

    assert!(parse_boolean("False").is_err());
    assert!(parse_boolean("True").is_err());
    assert!(parse_boolean("1").is_err());
}

#[test]
fn parses_symbols() {
    assert_eq!(parse_symbol(":arg"), Ok(("", "arg")));
    assert_eq!(parse_symbol(":arg other"), Ok((" other", "arg")));

    assert!(parse_symbol("arg1").is_err());
    assert!(parse_symbol(":1arg").is_err());
}

#[test]
fn parses_builtins() {
    assert_eq!(parse_builtin("+ -/="), Ok((" -/=", BuiltIn::Plus)));
    assert_eq!(parse_builtin("- /=+"), Ok((" /=+", BuiltIn::Minus)));
    assert_eq!(parse_builtin("/ =+-"), Ok((" =+-", BuiltIn::Divide)));
    assert_eq!(parse_builtin("= +-/"), Ok((" +-/", BuiltIn::Equal)));
    assert_eq!(parse_builtin("not =+-/"), Ok((" =+-/", BuiltIn::Not)));
    assert_eq!(
        parse_builtin("and =+-/not"),
        Ok((" =+-/not", BuiltIn::And))
    );

    assert_eq!(
        parse_builtin("or =+and-/not"),
        Ok((" =+and-/not", BuiltIn::Or))
    );

    assert!(parse_builtin("a 1.2").is_err());
}

#[test]
fn parses_identifiers() {
    assert_eq!(parse_identifier("arg"), Ok(("", "arg")));
    assert_eq!(
        parse_identifier("identifier other_identifier"),
        Ok((" other_identifier", "identifier"))
    );
    assert_eq!(
        parse_identifier("numeric123 123"),
        Ok((" 123", "numeric123"))
    );

    assert!(parse_identifier(":arg1").is_err());
    assert!(parse_identifier("1arg").is_err());

    // `def` is a reserved word so this must fail
    assert!(parse_identifier("def").is_err());
    assert!(parse_identifier("adef").is_ok());

    // `fn` is a reserved word so this must fail
    assert!(parse_identifier("fn").is_err());
    assert!(parse_identifier("fnn").is_ok());

    assert_eq!(parse_identifier("even? 123"), Ok((" 123", "even?")));

    assert_eq!(
        parse_identifier("is-even? 123"),
        Ok((" 123", "is-even?"))
    );
}

#[test]
fn parses_strings() {
    assert_eq!(parse_string("\"hey\""), Ok(("", "hey")));

    assert_eq!(
        parse_string("\"hello world\" hello"),
        Ok((" hello", "hello world"))
    );

    assert_eq!(
        parse_string("\"hello \\\"world\" hello"),
        Ok((" hello", "hello \\\"world"))
    );

    assert!(parse_string("\"missing closing quote").is_err());
    assert!(parse_string("missing opening quote\"").is_err());
}

#[test]
fn parses_operators() {
    assert_eq!(parse_operator("+ -/="), Ok((" -/=", BuiltIn::Plus)));
    assert_eq!(parse_operator("- /=+"), Ok((" /=+", BuiltIn::Minus)));
    assert_eq!(parse_operator("/ =+-"), Ok((" =+-", BuiltIn::Divide)));
    assert_eq!(parse_operator("=+-/"), Ok(("+-/", BuiltIn::Equal)));
    assert_eq!(parse_operator("%=+-/"), Ok(("=+-/", BuiltIn::Remainder)));

    assert!(parse_double("a 1.2").is_err());
}
