use ceceio::{parse_expression, Binding, Error, Expression, Interpreter, SmallString};

fn parsed(source: &str) -> Expression {
    parse_expression(source).unwrap().1
}

#[test]
fn text_of_atoms() {
    assert_eq!(parsed("2").to_text(), "2");
    assert_eq!(parsed("-0.75").to_text(), "-0.75");
    assert_eq!(parsed("123456789.125").to_text(), "123456789.125");
    assert_eq!(parsed(":arg").to_text(), ":arg");
    assert_eq!(parsed("true").to_text(), "true");
    assert_eq!(parsed("false").to_text(), "false");
    assert_eq!(parsed("\"hey\"").to_text(), "\"hey\"");
    assert_eq!(parsed("+").to_text(), "<function +>");
    assert_eq!(parsed("or").to_text(), "<function or>");
    assert_eq!(parsed("name").to_text(), "name");
    assert_eq!(parsed("nil").to_text(), "nil");
}

#[test]
fn text_of_forms() {
    assert_eq!(parsed("[]").to_text(), "[]");
    assert_eq!(parsed("[1]").to_text(), "[1]");
    assert_eq!(parsed("[1 2 [3 :x]]").to_text(), "[1  2  [3  :x]]");
    assert_eq!(parsed("'(true false)").to_text(), "[true  false]");
    assert_eq!(parsed("(fn [x] x)").to_text(), "<function>");
    assert_eq!(parsed("(+ 1 2)").to_text(), "<function +> ");
    assert_eq!(parsed("(add 1 2)").to_text(), "<function add> ");
    assert_eq!(parsed("(if true 2)").to_text(), "(if true 2 nil)");
    assert_eq!(parsed("(if true 2 3)").to_text(), "(if true 2 3)");
    assert_eq!(parsed("(def x 5)").to_text(), "(def x 5)");
    let (_, items) = ceceio::parser::parse_cond("(cond true 1 2)").unwrap();
    assert_eq!(Expression::Cond(items).to_text(), "(cond true 1 2)");
    assert_eq!(Expression::Cond(vec![]).to_text(), "(cond )");
}

#[test]
fn text_reads_back_as_an_equivalent_structure() {
    for source in [
        "(def x 5)",
        "(def name :symbol)",
        "(if true 2 3)",
        "(if (if true false true) [1 2] nil)",
        "[true false]",
        "[1 [2 [3 \"four\"]] :five]",
        "[]",
    ] {
        let first = parsed(source);
        let again = parsed(&first.to_text());
        assert_eq!(first, again, "{}", source);
    }

    // an `if` without an else-branch reads back with `nil` in its place
    let mut interp = Interpreter::new();
    for source in ["(if true 2)", "(if false 2)"] {
        let first = parsed(source);
        let again = parsed(&first.to_text());
        assert_eq!(interp.eval(first), interp.eval(again), "{}", source);
    }

    let binding = Binding {
        identifier: SmallString::new("two"),
        expression: parsed("2"),
    };
    assert_eq!(parsed(&binding.to_text()), parsed("(def two 2)"));
}

#[test]
fn text_of_errors() {
    assert_eq!(
        Error::TypeMismatch {
            expected: "boolean",
            received: "number"
        }
        .to_text(),
        "Type error: expected boolean, received number"
    );
    assert_eq!(
        Error::ExactArityMismatch {
            expected: 1,
            received: 0
        }
        .to_text(),
        "Arity mismatch: expected 1, received 0"
    );
    assert_eq!(
        Error::ExactArityMismatch {
            expected: 17,
            received: 255
        }
        .to_text(),
        "Arity mismatch: expected 17, received 255"
    );
    assert_eq!(
        Error::MinimumArityMismatch {
            at_least: 2,
            received: 109
        }
        .to_text(),
        "Arity mismatch: expected at least 2, received 109"
    );
    assert_eq!(
        Error::UnknownSymbol(SmallString::new("x")).to_text(),
        "Unknown symbol x"
    );
    assert_eq!(
        Error::ParsingError(String::from("expected an expression")).to_text(),
        "Parsing error: expected an expression"
    );
    assert_eq!(Error::EmptyCollection.to_text(), "Empty collection");
    assert_eq!(Error::DepthExceeded.to_text(), "Evaluation nested too deep");
}
